use rustc_fami::hardware_interface::Apu;
use rustc_fami::interpreter::Interpreter;
use rustc_fami::parser::read_text;
use rustc_fami::sound_file::SoundFile;

fn two_tracks() -> SoundFile {
    let text = "TRACK 2 6 150 \"first\"\nCOLUMNS: 00 00\nORDER 00: 00 01\nORDER 01: 01 00\nPATTERN 00\nROW 00: C-4 00 F : ... .. .\nROW 01: ... .. . : D-4 00 F\nPATTERN 01\nROW 00: ... .. . : ... .. .\nTRACK 1 3 120 \"second\"\nCOLUMNS: 00\nORDER 00: 00\nTRACK 4 3 120 \"first\"\nCOLUMNS: 00\n";
    read_text(text).unwrap()
}

#[test]
fn new_cursor_is_on_no_track() {
    let file = two_tracks();
    let cursor = Interpreter::new(&file);
    assert!(cursor.current_track.is_none());
    assert_eq!(cursor.row, 0);
    assert_eq!(cursor.pattern_order, 0);
    assert_eq!(cursor.file, &file);
}

#[test]
fn start_track_finds_the_first_of_that_name() {
    let file = two_tracks();
    let mut cursor = Interpreter::new(&file);
    cursor.start_track("first");
    assert_eq!(cursor.current_track, Some(&file.tracks[0]));
    assert_eq!(cursor.current_track.unwrap().pattern_length, 2);
    cursor.start_track("second");
    assert_eq!(cursor.current_track, Some(&file.tracks[1]));
    cursor.start_track("third");
    assert_eq!(cursor.current_track, None);
    cursor.start_track("");
    assert_eq!(cursor.current_track, None);
}

#[test]
fn next_row_walks_rows_then_order_entries() {
    let file = two_tracks();
    let mut cursor = Interpreter::new(&file);
    cursor.start_track("first");
    assert_eq!((cursor.row, cursor.pattern_order), (0, 0));
    cursor.next_row();
    assert_eq!((cursor.row, cursor.pattern_order), (1, 0));
    cursor.next_row();
    assert_eq!((cursor.row, cursor.pattern_order), (0, 1));
    cursor.next_row();
    assert_eq!((cursor.row, cursor.pattern_order), (1, 1));
    cursor.next_row();
    assert_eq!((cursor.row, cursor.pattern_order), (0, 2));
    cursor.next_row();
    assert_eq!((cursor.row, cursor.pattern_order), (0, 2));
    assert_eq!(cursor.current_track, Some(&file.tracks[0]));
}

#[test]
fn next_row_with_one_row_to_a_pattern() {
    let file = two_tracks();
    let mut cursor = Interpreter::new(&file);
    cursor.start_track("second");
    cursor.next_row();
    assert_eq!((cursor.row, cursor.pattern_order), (0, 1));
    cursor.next_row();
    assert_eq!((cursor.row, cursor.pattern_order), (0, 1));
}

#[test]
fn next_row_on_no_track_does_nothing() {
    let file = SoundFile::default();
    let mut cursor = Interpreter::new(&file);
    cursor.next_row();
    assert_eq!((cursor.row, cursor.pattern_order), (0, 0));
    cursor.start_track("first");
    cursor.play_frame();
    assert_eq!((cursor.row, cursor.pattern_order), (0, 0));
    assert!(cursor.current_track.is_none());
}

#[test]
fn play_frame_moves_like_next_row() {
    let file = two_tracks();
    let mut cursor = Interpreter::new(&file);
    cursor.start_track("first");
    cursor.play_frame();
    assert_eq!((cursor.row, cursor.pattern_order), (1, 0));
    cursor.run_frame();
    assert_eq!((cursor.row, cursor.pattern_order), (1, 0));
    cursor.play_frame();
    assert_eq!((cursor.row, cursor.pattern_order), (0, 1));
}

#[test]
fn reset_and_start_track_go_back_to_the_first_row() {
    let file = two_tracks();
    let mut cursor = Interpreter::new(&file);
    cursor.start_track("first");
    cursor.next_row();
    cursor.next_row();
    cursor.next_row();
    cursor.reset();
    assert_eq!((cursor.row, cursor.pattern_order), (0, 0));
    assert_eq!(cursor.current_track, Some(&file.tracks[0]));
    cursor.next_row();
    cursor.start_track("first");
    assert_eq!((cursor.row, cursor.pattern_order), (0, 0));
}

#[test]
fn the_document_can_be_walked_as_a_player_would() {
    let file = two_tracks();
    let track = file.tracks.iter().find(|t| t.name == "first").unwrap();
    let mut cells = 0;
    for entry in &track.pattern_order {
        assert_eq!(entry.1.len(), track.comumns.len());
        for row in 0..track.pattern_length as usize {
            for (channel, pattern) in entry.1.iter().enumerate() {
                let rows = &track.patterns[*pattern as usize].rows;
                if row < rows.len() {
                    let cell = &rows[row].sheet_notes[channel];
                    assert!(cell.vol.map_or(true, |v| v <= 15));
                    cells += 1;
                }
            }
        }
    }
    assert_eq!(cells, 6);
}

#[test]
fn a_new_chip_has_every_register_at_zero() {
    let apu = Apu::new();
    assert_eq!(apu.reg, [0u8; 15]);
}

#[test]
fn the_chip_takes_no_value_yet() {
    let mut apu = Apu::new();
    apu.write_register(0x4000, 0x3F);
    apu.write_register(0x4015, 0x01);
    assert_eq!(apu.reg, [0u8; 15]);
    apu.reset();
    assert_eq!(apu.reg, [0u8; 15]);
}
