//! A cursor that walks a track of a document row by row: through the rows
//! of one entry of the order table, then on to the next entry.

use vstd::prelude::*;
use crate::sound_file::{SheetNote, SoundFile, Track};
use crate::text::same_text;

verus! {

/// The place of the first track of `tracks` that is called `name`, if
/// there is one.
pub open spec fn find_track(tracks: Seq<Track>, name: Seq<char>) -> Option<int>
    decreases tracks.len(),
{
    if tracks.len() == 0 {
        None
    } else if tracks[0].name@ == name {
        Some(0)
    } else {
        match find_track(tracks.drop_first(), name) {
            Some(i) => Some(i + 1),
            None => None,
        }
    }
}

/// What `find_track` gives: the track at that place has the name, and none
/// before it has; and where it gives none, no track has the name.
pub proof fn lemma_find_track(tracks: Seq<Track>, name: Seq<char>)
    ensures
        match find_track(tracks, name) {
            Some(i) => 0 <= i < tracks.len() && tracks[i].name@ == name && forall|j: int|
                0 <= j < i ==> tracks[j].name@ != name,
            None => forall|j: int| 0 <= j < tracks.len() ==> tracks[j].name@ != name,
        },
    decreases tracks.len(),
{
    if tracks.len() > 0 && tracks[0].name@ != name {
        let rest = tracks.drop_first();
        lemma_find_track(rest, name);
        match find_track(rest, name) {
            Some(i) => {
                assert forall|j: int| 0 <= j < i + 1 implies tracks[j].name@ != name by {
                    if j > 0 {
                        assert(tracks[j] == rest[j - 1]);
                    }
                }
            },
            None => {
                assert forall|j: int| 0 <= j < tracks.len() implies tracks[j].name@ != name by {
                    if j > 0 {
                        assert(tracks[j] == rest[j - 1]);
                    }
                }
            },
        }
    }
}

/// Where the cursor stands after the row at `row` of the order entry at
/// `order`, in a track with `length` rows to a pattern and `orders` entries
/// in its order table: on the next row, or on the first row of the next
/// entry. Behind the last entry it stays where it is.
pub open spec fn next_place(row: u32, order: usize, length: u32, orders: nat) -> (u32, usize) {
    if order >= orders {
        (row, order)
    } else if row + 1 >= length {
        (0, (order + 1) as usize)
    } else {
        ((row + 1) as u32, order)
    }
}

/// A cursor over the tracks of a document.
pub struct Interpreter<'a> {
    pub file: &'a SoundFile,
    pub current_track: Option<&'a Track>,
    pub row: u32,
    pub pattern_order: usize,
}

impl<'a> Interpreter<'a> {
    /// A cursor over `file`, on no track.
    pub fn new(file: &'a SoundFile) -> (cursor: Interpreter<'a>)
        ensures
            cursor.file == file,
            cursor.current_track is None,
            cursor.row == 0,
            cursor.pattern_order == 0,
    {
        Interpreter { file, current_track: None, row: 0, pattern_order: 0 }
    }

    /// Puts the cursor on the first row of the first track called `name`,
    /// or on no track where none is called so.
    pub fn start_track(&mut self, name: &str)
        ensures
            final(self).file == old(self).file,
            final(self).row == 0,
            final(self).pattern_order == 0,
            final(self).current_track == match find_track(old(self).file.tracks@, name@) {
                Some(i) => Some(&old(self).file.tracks@[i]),
                None => None,
            },
    {
        self.reset();
        let file = self.file;
        let ghost tracks = file.tracks@;
        assert(tracks.skip(0) =~= tracks);
        let mut i: usize = 0;
        while i < file.tracks.len()
            invariant
                i <= file.tracks.len(),
                tracks == file.tracks@,
                file == old(self).file,
                self.file == old(self).file,
                self.row == 0,
                self.pattern_order == 0,
                find_track(tracks, name@) == match find_track(tracks.skip(i as int), name@) {
                    Some(k) => Some(k + i),
                    None => None,
                },
            decreases file.tracks.len() - i,
        {
            let ghost left = tracks.skip(i as int);
            assert(left[0] == tracks[i as int]);
            assert(left.drop_first() =~= tracks.skip(i + 1));
            let track = &file.tracks[i];
            if same_text(track.name.as_str(), name) {
                self.current_track = Some(track);
                return;
            }
            i = i + 1;
        }
        self.current_track = None;
    }

    /// Plays the row under the cursor, and moves the cursor on. On no
    /// track, and behind the last entry of the order table, nothing
    /// happens.
    pub fn next_row(&mut self)
        ensures
            final(self).file == old(self).file,
            final(self).current_track == old(self).current_track,
            (final(self).row, final(self).pattern_order) == match old(self).current_track {
                Some(track) => next_place(
                    old(self).row,
                    old(self).pattern_order,
                    track.pattern_length,
                    track.pattern_order@.len(),
                ),
                None => (old(self).row, old(self).pattern_order),
            },
    {
        if let Some(track) = self.current_track {
            if self.pattern_order >= track.pattern_order.len() {
                return;
            }
            self.play_current_row();
            if self.row as u64 + 1 >= track.pattern_length as u64 {
                self.pattern_order = self.pattern_order + 1;
                self.row = 0;
            } else {
                self.row = self.row + 1;
            }
        }
    }

    /// Plays the row under the cursor: for each channel of the order entry,
    /// the cell of that channel in the row of the pattern that the entry
    /// names. A pattern, a row or a cell that is not there is passed over.
    fn play_current_row(&mut self)
        ensures
            *final(self) == *old(self),
    {
        if let Some(track) = self.current_track {
            if self.pattern_order < track.pattern_order.len() {
                let entry = &track.pattern_order[self.pattern_order];
                let mut i: usize = 0;
                while i < entry.1.len()
                    invariant
                        *self == *old(self),
                    decreases entry.1.len() - i,
                {
                    let pattern = entry.1[i] as usize;
                    if pattern < track.patterns.len() {
                        let rows = &track.patterns[pattern].rows;
                        let row = self.row as usize;
                        if row < rows.len() && i < rows[row].sheet_notes.len() {
                            self.play_sheet_note(&rows[row].sheet_notes[i], i);
                        }
                    }
                    i = i + 1;
                }
            }
        }
    }

    /// Plays one cell on the channel `channel`. No channel makes a sound
    /// yet.
    fn play_sheet_note(&mut self, note: &SheetNote, channel: usize)
        ensures
            *final(self) == *old(self),
    {
    }

    /// Runs the sound hardware for one frame. It does nothing yet.
    pub fn run_frame(&mut self)
        ensures
            *final(self) == *old(self),
    {
    }

    /// Plays the next row, then runs one frame.
    pub fn play_frame(&mut self)
        ensures
            final(self).file == old(self).file,
            final(self).current_track == old(self).current_track,
            (final(self).row, final(self).pattern_order) == match old(self).current_track {
                Some(track) => next_place(
                    old(self).row,
                    old(self).pattern_order,
                    track.pattern_length,
                    track.pattern_order@.len(),
                ),
                None => (old(self).row, old(self).pattern_order),
            },
    {
        self.next_row();
        self.run_frame();
    }

    /// Puts the cursor back on the first row of the first order entry.
    pub fn reset(&mut self)
        ensures
            final(self).file == old(self).file,
            final(self).current_track == old(self).current_track,
            final(self).row == 0,
            final(self).pattern_order == 0,
    {
        self.row = 0;
        self.pattern_order = 0;
    }
}

} // verus!
