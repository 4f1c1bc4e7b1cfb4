//! The document that a parse gives: metadata, macros, instruments, sample
//! banks and tracks, each with its mathematical view.

use vstd::prelude::*;
use crate::error::EffectError;
use crate::number::{digit_of, digit_value};
use crate::text::chars_of;

verus! {

/// A pitch cell of a row.
#[derive(Debug, Clone, Copy, PartialEq, Eq, Structural)]
pub enum Note {
    /// A raw value, for channels without pitch such as noise.
    Hex(u8),
    /// A pitch, counted in semitones: twelve for each octave above the
    /// lowest, plus the place of the note in its octave.
    Midi(u32),
    /// The marker that cuts a note.
    Cut,
    /// The marker that releases a note.
    Release,
}

/// A per-cell modifier.
#[derive(Debug, Clone, Copy, PartialEq, Eq)]
pub enum Effect {
    Arpeggio(u8, u8),
    PitchSlideUp(Option<u8>),
    PitchSlideDown(Option<u8>),
    AutomaticPortamento(Option<u8>),
    VibratoEffect(Option<(u8, u8)>),
    TremoloEffect(Option<(u8, u8)>),
    /// `true` slides the volume up, `false` down, by the second field.
    VolumeSlide(bool, u8),
    JumpToPattern(u8),
    Halt,
    SkipFrameStartAtRow(u8),
    /// A speed in the first field, or a tempo in the second.
    SpeedOrTempo(Option<u8>, Option<u8>),
    NoteDelay(u8),
    HardwareSweepUp(u8, u8),
    HardwareSweepDown(u8, u8),
    FSDModulationDepth,
    FDSModulationSpeed,
    FinePitch(u8),
    NoteSlideUp(u8, u8),
    NoteSlideDown(u8, u8),
    MuteDelay(u8),
    /// Recognised, and not decoded any further.
    AquareDuityNoiseN163Mode,
    DPCMSampleSpeedOverride(u8),
    DPCMSampleOffset(u32),
    DPCMDeltaCounter(u8),
}

/// One cell: what one channel does at one row.
#[derive(Debug, Clone, Copy, PartialEq, Eq)]
pub struct SheetNote {
    pub note: Option<Note>,
    pub inst: Option<u8>,
    pub vol: Option<u8>,
    pub efx: [Option<Effect>; 3],
}

/// The view of a [`SheetNote`].
pub struct SheetNoteView {
    pub note: Option<Note>,
    pub inst: Option<u8>,
    pub vol: Option<u8>,
    pub efx: Seq<Option<Effect>>,
}

impl View for SheetNote {
    type V = SheetNoteView;

    open spec fn view(&self) -> SheetNoteView {
        SheetNoteView { note: self.note, inst: self.inst, vol: self.vol, efx: self.efx@ }
    }
}

/// One time step of a pattern, with one cell for each channel.
#[derive(Debug, Clone, PartialEq, Eq)]
pub struct Row {
    pub id: u8,
    pub sheet_notes: Vec<SheetNote>,
}

/// The view of a [`Row`].
pub struct RowView {
    pub id: u8,
    pub sheet_notes: Seq<SheetNoteView>,
}

/// The views of cells.
pub open spec fn cells_view(items: Seq<SheetNote>) -> Seq<SheetNoteView> {
    items.map_values(|x: SheetNote| x@)
}

impl View for Row {
    type V = RowView;

    open spec fn view(&self) -> RowView {
        RowView { id: self.id, sheet_notes: cells_view(self.sheet_notes@) }
    }
}

/// A block of rows that the order table refers to by its id.
#[derive(Debug, Clone, PartialEq, Eq)]
pub struct Pattern {
    pub id: u8,
    pub rows: Vec<Row>,
}

/// The view of a [`Pattern`].
pub struct PatternView {
    pub id: u8,
    pub rows: Seq<RowView>,
}

/// The views of rows.
pub open spec fn rows_view(items: Seq<Row>) -> Seq<RowView> {
    items.map_values(|x: Row| x@)
}

impl View for Pattern {
    type V = PatternView;

    open spec fn view(&self) -> PatternView {
        PatternView { id: self.id, rows: rows_view(self.rows@) }
    }
}

/// One song, with its own speed, tempo and channel layout.
#[derive(Debug, Clone, PartialEq, Eq)]
pub struct Track {
    pub pattern_length: u32,
    pub speed: u32,
    pub temp: u32,
    pub name: String,
    pub comumns: Vec<u8>,
    pub pattern_order: Vec<(u8, Vec<u8>)>,
    pub patterns: Vec<Pattern>,
}

/// The view of a [`Track`].
pub struct TrackView {
    pub pattern_length: u32,
    pub speed: u32,
    pub temp: u32,
    pub name: Seq<char>,
    pub comumns: Seq<u8>,
    pub pattern_order: Seq<(u8, Seq<u8>)>,
    pub patterns: Seq<PatternView>,
}

/// The views of patterns.
pub open spec fn patterns_view(items: Seq<Pattern>) -> Seq<PatternView> {
    items.map_values(|x: Pattern| x@)
}

/// The views of order entries.
pub open spec fn orders_view(items: Seq<(u8, Vec<u8>)>) -> Seq<(u8, Seq<u8>)> {
    items.map_values(|x: (u8, Vec<u8>)| (x.0, x.1@))
}

impl View for Track {
    type V = TrackView;

    open spec fn view(&self) -> TrackView {
        TrackView {
            pattern_length: self.pattern_length,
            speed: self.speed,
            temp: self.temp,
            name: self.name@,
            comumns: self.comumns@,
            pattern_order: orders_view(self.pattern_order@),
            patterns: patterns_view(self.patterns@),
        }
    }
}

/// A bank of raw sample bytes.
#[derive(Debug, Clone, PartialEq, Eq)]
pub struct SongDpcmSamples {
    pub id: u8,
    pub name: String,
    pub data: Vec<u8>,
}

/// The view of a [`SongDpcmSamples`].
pub struct SongDpcmSamplesView {
    pub id: u8,
    pub name: Seq<char>,
    pub data: Seq<u8>,
}

impl View for SongDpcmSamples {
    type V = SongDpcmSamplesView;

    open spec fn view(&self) -> SongDpcmSamplesView {
        SongDpcmSamplesView { id: self.id, name: self.name@, data: self.data@ }
    }
}

/// An envelope: a curve of signed values with optional loop and release
/// points.
#[derive(Debug, Clone, PartialEq, Eq)]
pub struct SongMacro {
    pub m_type: u8,
    pub m_id: u8,
    pub m_loop: Option<u8>,
    pub m_release: Option<u8>,
    pub m_type_specific: u8,
    pub vals: Vec<i8>,
}

/// The view of a [`SongMacro`].
pub struct SongMacroView {
    pub m_type: u8,
    pub m_id: u8,
    pub m_loop: Option<u8>,
    pub m_release: Option<u8>,
    pub m_type_specific: u8,
    pub vals: Seq<i8>,
}

impl View for SongMacro {
    type V = SongMacroView;

    open spec fn view(&self) -> SongMacroView {
        SongMacroView {
            m_type: self.m_type,
            m_id: self.m_id,
            m_loop: self.m_loop,
            m_release: self.m_release,
            m_type_specific: self.m_type_specific,
            vals: self.vals@,
        }
    }
}

/// An instrument: up to five macros under a name.
#[derive(Debug, Clone, PartialEq, Eq)]
pub struct Inst2A03 {
    pub id: u8,
    pub vol_macro: Option<u8>,
    pub arp_macro: Option<u8>,
    pub pitch_macro: Option<u8>,
    pub high_pitch_macro: Option<u8>,
    pub duity_macro: Option<u8>,
    pub name: String,
}

/// The view of an [`Inst2A03`].
pub struct Inst2A03View {
    pub id: u8,
    pub vol_macro: Option<u8>,
    pub arp_macro: Option<u8>,
    pub pitch_macro: Option<u8>,
    pub high_pitch_macro: Option<u8>,
    pub duity_macro: Option<u8>,
    pub name: Seq<char>,
}

impl View for Inst2A03 {
    type V = Inst2A03View;

    open spec fn view(&self) -> Inst2A03View {
        Inst2A03View {
            id: self.id,
            vol_macro: self.vol_macro,
            arp_macro: self.arp_macro,
            pitch_macro: self.pitch_macro,
            high_pitch_macro: self.high_pitch_macro,
            duity_macro: self.duity_macro,
            name: self.name@,
        }
    }
}

/// The sample that one key of an instrument plays.
#[derive(Debug, Clone, Copy, PartialEq, Eq, Structural)]
pub struct KeyDPCM {
    pub id: u8,
    pub inst_id: u8,
    pub midi_note: u32,
    pub dpcm_id: u8,
    pub loop_key: bool,
    pub loop_point: u8,
    pub d_counter: Option<u8>,
}

/// A whole composition.
#[derive(Debug, PartialEq, Eq)]
pub struct SoundFile {
    pub title: String,
    pub author: String,
    pub copyright: String,
    pub comment: String,
    pub machine: u32,
    pub expansion: u32,
    pub vibrato: u32,
    pub split: u32,
    pub playbackrate: (u32, u32),
    pub tuning: (i32, i32),
    pub macros: Vec<SongMacro>,
    pub inst2a03: Vec<Inst2A03>,
    pub keydpcm: Vec<KeyDPCM>,
    pub dpcmdef: Vec<SongDpcmSamples>,
    pub tracks: Vec<Track>,
}

/// The view of a [`SoundFile`].
pub struct SoundFileView {
    pub title: Seq<char>,
    pub author: Seq<char>,
    pub copyright: Seq<char>,
    pub comment: Seq<char>,
    pub machine: u32,
    pub expansion: u32,
    pub vibrato: u32,
    pub split: u32,
    pub playbackrate: (u32, u32),
    pub tuning: (i32, i32),
    pub macros: Seq<SongMacroView>,
    pub inst2a03: Seq<Inst2A03View>,
    pub keydpcm: Seq<KeyDPCM>,
    pub dpcmdef: Seq<SongDpcmSamplesView>,
    pub tracks: Seq<TrackView>,
}

/// The views of macros.
pub open spec fn macros_view(items: Seq<SongMacro>) -> Seq<SongMacroView> {
    items.map_values(|x: SongMacro| x@)
}

/// The views of instruments.
pub open spec fn instruments_view(items: Seq<Inst2A03>) -> Seq<Inst2A03View> {
    items.map_values(|x: Inst2A03| x@)
}

/// The views of sample banks.
pub open spec fn samples_view(items: Seq<SongDpcmSamples>) -> Seq<SongDpcmSamplesView> {
    items.map_values(|x: SongDpcmSamples| x@)
}

/// The views of tracks.
pub open spec fn tracks_view(items: Seq<Track>) -> Seq<TrackView> {
    items.map_values(|x: Track| x@)
}

impl View for SoundFile {
    type V = SoundFileView;

    open spec fn view(&self) -> SoundFileView {
        SoundFileView {
            title: self.title@,
            author: self.author@,
            copyright: self.copyright@,
            comment: self.comment@,
            machine: self.machine,
            expansion: self.expansion,
            vibrato: self.vibrato,
            split: self.split,
            playbackrate: self.playbackrate,
            tuning: self.tuning,
            macros: macros_view(self.macros@),
            inst2a03: instruments_view(self.inst2a03@),
            keydpcm: self.keydpcm@,
            dpcmdef: samples_view(self.dpcmdef@),
            tracks: tracks_view(self.tracks@),
        }
    }
}

/// The document before anything was read: empty texts, zero flags, no
/// entries.
pub open spec fn empty_sound_file() -> SoundFileView {
    SoundFileView {
        title: Seq::empty(),
        author: Seq::empty(),
        copyright: Seq::empty(),
        comment: Seq::empty(),
        machine: 0,
        expansion: 0,
        vibrato: 0,
        split: 0,
        playbackrate: (0, 0),
        tuning: (0, 0),
        macros: Seq::empty(),
        inst2a03: Seq::empty(),
        keydpcm: Seq::empty(),
        dpcmdef: Seq::empty(),
        tracks: Seq::empty(),
    }
}

impl Default for SoundFile {
    fn default() -> (file: SoundFile)
        ensures
            file@ == empty_sound_file(),
    {
        let file = SoundFile {
            title: String::new(),
            author: String::new(),
            copyright: String::new(),
            comment: String::new(),
            machine: 0,
            expansion: 0,
            vibrato: 0,
            split: 0,
            playbackrate: (0, 0),
            tuning: (0, 0),
            macros: Vec::new(),
            inst2a03: Vec::new(),
            keydpcm: Vec::new(),
            dpcmdef: Vec::new(),
            tracks: Vec::new(),
        };
        assert(file@.macros =~= Seq::empty());
        assert(file@.inst2a03 =~= Seq::empty());
        assert(file@.dpcmdef =~= Seq::empty());
        assert(file@.tracks =~= Seq::empty());
        file
    }
}

/// A cell of a channel with `slots` effect columns is valid when its
/// volume, if it has one, is at most 15, it has three effect slots, and the
/// slots that the channel does not declare are empty.
pub open spec fn valid_cell(cell: SheetNoteView, slots: u8) -> bool {
    &&& slots <= 3
    &&& cell.efx.len() == 3
    &&& cell.vol is Some ==> cell.vol->Some_0 <= 15
    &&& forall|j: int| slots <= j < 3 ==> cell.efx[j] is None
}

/// A row is valid when it has one valid cell for each channel.
pub open spec fn valid_row(row: RowView, columns: Seq<u8>) -> bool {
    &&& row.sheet_notes.len() == columns.len()
    &&& forall|i: int| 0 <= i < columns.len() ==> valid_cell(#[trigger] row.sheet_notes[i], columns[i])
}

/// A pattern is valid when it has no more rows than the track declares, and
/// each of them is valid.
pub open spec fn valid_pattern(pattern: PatternView, columns: Seq<u8>, length: u32) -> bool {
    &&& pattern.rows.len() <= length
    &&& forall|i: int| 0 <= i < pattern.rows.len() ==> valid_row(#[trigger] pattern.rows[i], columns)
}

/// A track is valid when each entry of its order table names one pattern
/// for each channel, and each of its patterns is valid.
pub open spec fn valid_track(track: TrackView) -> bool {
    &&& forall|i: int|
        0 <= i < track.pattern_order.len() ==> (#[trigger] track.pattern_order[i]).1.len()
            == track.comumns.len()
    &&& forall|i: int|
        0 <= i < track.patterns.len() ==> valid_pattern(
            #[trigger] track.patterns[i],
            track.comumns,
            track.pattern_length,
        )
}

/// A document is valid when each of its tracks is.
pub open spec fn valid_sound_file(file: SoundFileView) -> bool {
    forall|i: int| 0 <= i < file.tracks.len() ==> valid_track(#[trigger] file.tracks[i])
}

/// The byte that two hexadecimal digits stand for, high digit first.
pub open spec fn hex_pair(high: char, low: char) -> Option<u8> {
    match (digit_value(high, 16), digit_value(low, 16)) {
        (Some(h), Some(l)) => Some((h * 16 + l) as u8),
        _ => None,
    }
}

/// `None` for zero, else the byte.
pub open spec fn nonzero(byte: u8) -> Option<u8> {
    if byte == 0 {
        None
    } else {
        Some(byte)
    }
}

/// The effect that an operand byte stands for under `tag`. The tags that
/// take no operand, and those that are no tags, are not told apart here.
pub open spec fn effect_with_operand(tag: char, byte: u8) -> Result<Effect, EffectError> {
    let x = byte / 16;
    let y = byte % 16;
    if tag == '0' || tag == '4' {
        Ok(Effect::Arpeggio(x, y))
    } else if tag == '1' {
        Ok(Effect::PitchSlideUp(nonzero(byte)))
    } else if tag == '2' {
        Ok(Effect::PitchSlideDown(nonzero(byte)))
    } else if tag == '3' {
        Ok(Effect::AutomaticPortamento(nonzero(byte)))
    } else if tag == '7' {
        Ok(Effect::VibratoEffect(if x == 0 { None } else { Some((x, y)) }))
    } else if tag == 'A' {
        if x == 0 {
            Ok(Effect::VolumeSlide(false, y))
        } else if y == 0 {
            Ok(Effect::VolumeSlide(true, x))
        } else {
            Err(EffectError::SlideBothWays)
        }
    } else if tag == 'B' {
        Ok(Effect::JumpToPattern(byte))
    } else if tag == 'D' {
        Ok(Effect::SkipFrameStartAtRow(byte))
    } else if tag == 'F' {
        if byte <= 0x1F {
            Ok(Effect::SpeedOrTempo(Some(byte), None))
        } else {
            Ok(Effect::SpeedOrTempo(None, Some(byte)))
        }
    } else if tag == 'G' {
        Ok(Effect::NoteDelay(byte))
    } else if tag == 'H' {
        Ok(Effect::HardwareSweepUp(x, y))
    } else if tag == 'I' {
        Ok(Effect::HardwareSweepDown(x, y))
    } else if tag == 'P' {
        Ok(Effect::FinePitch(byte))
    } else if tag == 'Q' {
        Ok(Effect::NoteSlideUp(x, y))
    } else if tag == 'R' {
        Ok(Effect::NoteSlideDown(x, y))
    } else if tag == 'S' || tag == 'V' {
        Ok(Effect::MuteDelay(byte))
    } else if tag == 'X' {
        Ok(Effect::DPCMSampleSpeedOverride(byte))
    } else if tag == 'Y' {
        Ok(Effect::DPCMSampleOffset((byte * 64) as u32))
    } else if tag == 'Z' {
        Ok(Effect::DPCMDeltaCounter(byte))
    } else {
        Err(EffectError::UnknownTag)
    }
}

/// The tags that stand for an effect with an operand byte.
pub open spec fn takes_operand(tag: char) -> bool {
    tag == '0' || tag == '1' || tag == '2' || tag == '3' || tag == '4' || tag == '7' || tag == 'A'
        || tag == 'B' || tag == 'D' || tag == 'F' || tag == 'G' || tag == 'H' || tag == 'I' || tag
        == 'P' || tag == 'Q' || tag == 'R' || tag == 'S' || tag == 'V' || tag == 'X' || tag == 'Y'
        || tag == 'Z'
}

/// The effect that a lexeme stands for: a tag and two hexadecimal digits.
/// `C` and `W` take no operand, so the two characters behind them are not
/// looked at; behind `P`, two characters that are no byte count as `80`.
pub open spec fn decode_effect(lexeme: Seq<char>) -> Result<Effect, EffectError> {
    if lexeme.len() != 3 {
        Err(EffectError::Length)
    } else if lexeme[0] == 'C' {
        Ok(Effect::Halt)
    } else if lexeme[0] == 'W' {
        Ok(Effect::AquareDuityNoiseN163Mode)
    } else if !takes_operand(lexeme[0]) {
        Err(EffectError::UnknownTag)
    } else {
        match hex_pair(lexeme[1], lexeme[2]) {
            Some(byte) => effect_with_operand(lexeme[0], byte),
            None => if lexeme[0] == 'P' {
                Ok(Effect::FinePitch(0x80))
            } else {
                Err(EffectError::Operand)
            },
        }
    }
}

/// The byte that two hexadecimal digits stand for, if they are two.
pub fn read_hex_pair(high: char, low: char) -> (byte: Option<u8>)
    ensures
        byte == hex_pair(high, low),
{
    match (digit_of(high, 16), digit_of(low, 16)) {
        (Some(h), Some(l)) => Some((h * 16 + l) as u8),
        _ => None,
    }
}

fn opt_byte(byte: u8) -> (r: Option<u8>)
    ensures
        r == nonzero(byte),
{
    if byte == 0 {
        None
    } else {
        Some(byte)
    }
}

/// The effect that `byte` stands for under a tag that takes an operand.
pub fn effect_from_operand(tag: char, byte: u8) -> (r: Result<Effect, EffectError>)
    ensures
        r == effect_with_operand(tag, byte),
{
    let x: u8 = byte / 16;
    let y: u8 = byte % 16;
    if tag == '0' || tag == '4' {
        Ok(Effect::Arpeggio(x, y))
    } else if tag == '1' {
        Ok(Effect::PitchSlideUp(opt_byte(byte)))
    } else if tag == '2' {
        Ok(Effect::PitchSlideDown(opt_byte(byte)))
    } else if tag == '3' {
        Ok(Effect::AutomaticPortamento(opt_byte(byte)))
    } else if tag == '7' {
        Ok(Effect::VibratoEffect(if x == 0 { None } else { Some((x, y)) }))
    } else if tag == 'A' {
        if x == 0 {
            Ok(Effect::VolumeSlide(false, y))
        } else if y == 0 {
            Ok(Effect::VolumeSlide(true, x))
        } else {
            Err(EffectError::SlideBothWays)
        }
    } else if tag == 'B' {
        Ok(Effect::JumpToPattern(byte))
    } else if tag == 'D' {
        Ok(Effect::SkipFrameStartAtRow(byte))
    } else if tag == 'F' {
        if byte <= 0x1F {
            Ok(Effect::SpeedOrTempo(Some(byte), None))
        } else {
            Ok(Effect::SpeedOrTempo(None, Some(byte)))
        }
    } else if tag == 'G' {
        Ok(Effect::NoteDelay(byte))
    } else if tag == 'H' {
        Ok(Effect::HardwareSweepUp(x, y))
    } else if tag == 'I' {
        Ok(Effect::HardwareSweepDown(x, y))
    } else if tag == 'P' {
        Ok(Effect::FinePitch(byte))
    } else if tag == 'Q' {
        Ok(Effect::NoteSlideUp(x, y))
    } else if tag == 'R' {
        Ok(Effect::NoteSlideDown(x, y))
    } else if tag == 'S' || tag == 'V' {
        Ok(Effect::MuteDelay(byte))
    } else if tag == 'X' {
        Ok(Effect::DPCMSampleSpeedOverride(byte))
    } else if tag == 'Y' {
        let wide: u32 = byte as u32;
        Ok(Effect::DPCMSampleOffset(wide * 64))
    } else if tag == 'Z' {
        Ok(Effect::DPCMDeltaCounter(byte))
    } else {
        Err(EffectError::UnknownTag)
    }
}

impl Effect {
    /// Decodes an effect lexeme.
    pub fn try_from(lexeme: &str) -> (r: Result<Effect, EffectError>)
        ensures
            r == decode_effect(lexeme@),
    {
        let chars = chars_of(lexeme);
        if chars.len() != 3 {
            return Err(EffectError::Length);
        }
        let tag = chars[0];
        if tag == 'C' {
            return Ok(Effect::Halt);
        }
        if tag == 'W' {
            return Ok(Effect::AquareDuityNoiseN163Mode);
        }
        match read_hex_pair(chars[1], chars[2]) {
            Some(byte) => effect_from_operand(tag, byte),
            None => {
                if tag == 'P' {
                    Ok(Effect::FinePitch(0x80))
                } else {
                    match effect_from_operand(tag, 0) {
                        Err(EffectError::UnknownTag) => Err(EffectError::UnknownTag),
                        _ => Err(EffectError::Operand),
                    }
                }
            },
        }
    }
}

} // verus!
