use rustc_fami::error::{EffectError, Expected, NumError, ParseError, TokenKind};
use rustc_fami::parser::{
    expect_colon, expect_dec_num, expect_hex_num, expect_nl, expect_opt_dec_num, expect_str,
    option_effect, option_instrament, option_note, option_volume, read_text,
};
use rustc_fami::sound_file::{
    Effect, Inst2A03, KeyDPCM, Note, Pattern, Row, SheetNote, SongDpcmSamples, SongMacro,
    SoundFile, Track,
};
use rustc_fami::tokenizer::{IdentNum, Location, Token};

fn word(text: &str) -> Option<Token> {
    Some(Token::IdentNum(IdentNum::from_str(text)))
}

const MINIMAL: &str = "TITLE \"t\"\nTRACK 1 6 150 \"t1\"\nCOLUMNS: 00\nORDER 00: 00\nPATTERN 00\nROW 00: C-4 00 0F\n";

#[test]
fn minimal_document_end_to_end() {
    let file = read_text(MINIMAL).unwrap();
    assert_eq!(file.title, "t");
    assert_eq!(file.tracks.len(), 1);
    let track = &file.tracks[0];
    assert_eq!(track.pattern_length, 1);
    assert_eq!(track.speed, 6);
    assert_eq!(track.temp, 150);
    assert_eq!(track.name, "t1");
    assert_eq!(track.comumns, vec![0]);
    assert_eq!(track.pattern_order, vec![(0, vec![0])]);
    assert_eq!(track.patterns.len(), 1);
    assert_eq!(track.patterns[0].id, 0);
    assert_eq!(track.patterns[0].rows.len(), 1);
    let row = &track.patterns[0].rows[0];
    assert_eq!(row.id, 0);
    assert_eq!(row.sheet_notes.len(), 1);
    assert_eq!(
        row.sheet_notes[0],
        SheetNote {
            note: Some(Note::Midi(60)),
            inst: Some(0),
            vol: Some(15),
            efx: [None, None, None],
        }
    );
}

#[test]
fn minimal_document_as_a_whole_value() {
    let expected = SoundFile {
        title: "t".to_string(),
        author: String::new(),
        copyright: String::new(),
        comment: String::new(),
        machine: 0,
        expansion: 0,
        vibrato: 0,
        split: 0,
        playbackrate: (0, 0),
        tuning: (0, 0),
        macros: vec![],
        inst2a03: vec![],
        keydpcm: vec![],
        dpcmdef: vec![],
        tracks: vec![Track {
            pattern_length: 1,
            speed: 6,
            temp: 150,
            name: "t1".to_string(),
            comumns: vec![0],
            pattern_order: vec![(0, vec![0])],
            patterns: vec![Pattern {
                id: 0,
                rows: vec![Row {
                    id: 0,
                    sheet_notes: vec![SheetNote {
                        note: Some(Note::Midi(60)),
                        inst: Some(0),
                        vol: Some(15),
                        efx: [None, None, None],
                    }],
                }],
            }],
        }],
    };
    assert_eq!(read_text(MINIMAL), Ok(expected));
}

#[test]
fn parsing_twice_gives_equal_documents() {
    let text = "TITLE \"a\"\nCOMMENT \"x\"\nMACRO 0 1 -1 -1 0 : 1 2 3\nTRACK 2 6 150 \"s\"\nCOLUMNS : 01 00\nORDER 00 : 00 00\nPATTERN 00\nROW 00 : C-4 00 F A0F : ... .. .\nROW 01 : --- .. . ... : 3-# 01 0\n";
    let first = read_text(text);
    let second = read_text(text);
    assert!(first.is_ok());
    assert_eq!(first, second);
    let bad = "TITLE 12\n";
    assert_eq!(read_text(bad), read_text(bad));
    assert!(read_text(bad).is_err());
}

#[test]
fn empty_text_is_the_empty_document() {
    assert_eq!(read_text(""), Ok(SoundFile::default()));
    assert_eq!(read_text("\n\n# only a comment\n\n"), Ok(SoundFile::default()));
}

#[test]
fn text_commands_set_their_fields() {
    let file = read_text("TITLE \"one\"\nAUTHOR \"two\"\nCOPYRIGHT \"three\"\nTITLE \"four\"\n# end\n").unwrap();
    assert_eq!(file.title, "four");
    assert_eq!(file.author, "two");
    assert_eq!(file.copyright, "three");
}

#[test]
fn comment_lines_add_up() {
    let file = read_text("COMMENT \"line one\"\nCOMMENT \"line two\"\n# end\n").unwrap();
    assert_eq!(file.comment, "line one\nline two\n");
}

#[test]
fn number_commands_set_their_flags() {
    let file = read_text(
        "MACHINE 1\nEXPANSION 2\nVIBRATO 3\nSPLIT 32\nPLAYBACKRATE 1 16639\nTUNING -3 25\n# end\n",
    )
    .unwrap();
    assert_eq!(file.machine, 1);
    assert_eq!(file.expansion, 2);
    assert_eq!(file.vibrato, 3);
    assert_eq!(file.split, 32);
    assert_eq!(file.playbackrate, (1, 16639));
    assert_eq!(file.tuning, (-3, 25));
}

#[test]
fn negative_flag_is_an_error() {
    assert_eq!(read_text("MACHINE -1\n"), Err(ParseError::Number(NumError::TooSmall)));
    assert_eq!(read_text("PLAYBACKRATE 1 -1\n"), Err(ParseError::Number(NumError::TooSmall)));
}

#[test]
fn macro_line() {
    let file = read_text("MACRO 0 1 -1 3 0 : 15 14 -2 0\nMACRO 4 2 0 -1 1 :\n").unwrap();
    assert_eq!(
        file.macros,
        vec![
            SongMacro {
                m_type: 0,
                m_id: 1,
                m_loop: None,
                m_release: Some(3),
                m_type_specific: 0,
                vals: vec![15, 14, -2, 0],
            },
            SongMacro {
                m_type: 4,
                m_id: 2,
                m_loop: Some(0),
                m_release: None,
                m_type_specific: 1,
                vals: vec![],
            },
        ]
    );
}

#[test]
fn macro_values_may_end_with_the_text() {
    let file = read_text("MACRO 0 1 -1 -1 0 : 1 2 ").unwrap();
    assert_eq!(file.macros[0].vals, vec![1, 2]);
}

#[test]
fn macro_errors() {
    assert_eq!(
        read_text("MACRO 300 1 -1 -1 0 : 1\n"),
        Err(ParseError::Number(NumError::TooLarge))
    );
    assert_eq!(
        read_text("MACRO 0 1 -1 -1 0 1\n"),
        Err(ParseError::Unexpected(Expected::Colon, TokenKind::IdentNum))
    );
    assert_eq!(
        read_text("MACRO 0 1 -1 -1 0 : 1 200\n"),
        Err(ParseError::Number(NumError::TooLarge))
    );
    assert_eq!(
        read_text("MACRO 0 1 -1 -1 0 : 1 -129\n"),
        Err(ParseError::Number(NumError::TooSmall))
    );
    assert_eq!(
        read_text("MACRO 0 1 -1 -1 0 : 1 \"x\"\n"),
        Err(ParseError::Unexpected(Expected::Decimal, TokenKind::String))
    );
    assert_eq!(
        read_text("MACRO 0 1 -1 999 0 : 1\n"),
        Err(ParseError::Number(NumError::TooLarge))
    );
}

#[test]
fn instrument_line() {
    let file = read_text("INST2A03 3 0 -1 -1 2 -1 \"lead\"\n").unwrap();
    assert_eq!(
        file.inst2a03,
        vec![Inst2A03 {
            id: 3,
            vol_macro: Some(0),
            arp_macro: None,
            pitch_macro: None,
            high_pitch_macro: Some(2),
            duity_macro: None,
            name: "lead".to_string(),
        }]
    );
}

#[test]
fn key_line() {
    let file = read_text("KEYDPCM 1 0 3 7 2 1 0 -1\nKEYDPCM 2 0 0 0 5 0 9 64\n").unwrap();
    assert_eq!(
        file.keydpcm,
        vec![
            KeyDPCM {
                id: 1,
                inst_id: 0,
                midi_note: 55,
                dpcm_id: 2,
                loop_key: true,
                loop_point: 0,
                d_counter: None,
            },
            KeyDPCM {
                id: 2,
                inst_id: 0,
                midi_note: 12,
                dpcm_id: 5,
                loop_key: false,
                loop_point: 9,
                d_counter: Some(64),
            },
        ]
    );
}

#[test]
fn loop_flag_must_be_0_or_1() {
    assert_eq!(read_text("KEYDPCM 1 0 3 7 2 2 0 -1\n"), Err(ParseError::LoopFlag));
    assert_eq!(read_text("KEYDPCM 1 0 3 7 2 -1 0 -1\n"), Err(ParseError::LoopFlag));
}

#[test]
fn key_note_that_does_not_fit() {
    assert_eq!(
        read_text("KEYDPCM 1 0 2147483647 7 2 1 0 -1\n"),
        Err(ParseError::Number(NumError::TooLarge))
    );
}

#[test]
fn sample_bank_with_one_byte_of_two_is_a_mismatch() {
    assert_eq!(read_text("DPCMDEF 00 2 \"x\"\nDPCM: AA\n# end\n"), Err(ParseError::DpcmLength));
}

#[test]
fn sample_bank_with_exactly_two_bytes() {
    let file = read_text("DPCMDEF 00 2 \"x\"\nDPCM: AA 55\n# end\n").unwrap();
    assert_eq!(
        file.dpcmdef,
        vec![SongDpcmSamples { id: 0, name: "x".to_string(), data: vec![0xAA, 0x55] }]
    );
}

#[test]
fn sample_bank_over_several_lines() {
    let file =
        read_text("DPCMDEF 1 5 \"kick\"\n\nDPCM : 01 02\n\n\nDPCM : 03\nDPCM : 04 1FF\nTITLE \"x\"\n# end\n")
            .unwrap();
    assert_eq!(file.dpcmdef[0].data, vec![1, 2, 3, 4, 0xFF]);
    assert_eq!(file.title, "x");
}

#[test]
fn sample_bank_without_lines() {
    let file = read_text("DPCMDEF 1 0 \"none\"\n# end\n").unwrap();
    assert_eq!(file.dpcmdef[0].data, Vec::<u8>::new());
    assert_eq!(read_text("DPCMDEF 1 1 \"none\"\n# end\n"), Err(ParseError::DpcmLength));
    assert_eq!(read_text("DPCMDEF 1 1 \"none\"\nDPCM : 01 02\n# end\n"), Err(ParseError::DpcmLength));
}

#[test]
fn sample_line_errors() {
    assert_eq!(
        read_text("DPCMDEF 1 1 \"s\"\nDPCM 01\n"),
        Err(ParseError::Unexpected(Expected::Colon, TokenKind::IdentNum))
    );
    assert_eq!(
        read_text("DPCMDEF 1 1 \"s\"\nDPCM : 0G\n"),
        Err(ParseError::Number(NumError::InvalidDigit))
    );
    assert_eq!(
        read_text("DPCMDEF 1 1 \"s\"\nDPCM : 01 :\n"),
        Err(ParseError::Unexpected(Expected::NewLine, TokenKind::Colon))
    );
    assert_eq!(
        read_text("DPCMDEF 1 1 \"s\"\nDPCM : 01 "),
        Err(ParseError::Unexpected(Expected::NewLine, TokenKind::End))
    );
}

#[test]
fn order_with_three_patterns_for_two_channels_is_a_mismatch() {
    assert_eq!(
        read_text("TRACK 1 6 150 \"t\"\nCOLUMNS: 00 00\nORDER 00: 00 00 00\n# end\n"),
        Err(ParseError::OrderLength)
    );
    assert_eq!(
        read_text("TRACK 1 6 150 \"t\"\nCOLUMNS: 00 00\nORDER 00: 00\n# end\n"),
        Err(ParseError::OrderLength)
    );
}

#[test]
fn order_with_two_patterns_for_two_channels() {
    let file =
        read_text("TRACK 1 6 150 \"t\"\nCOLUMNS: 00 00\nORDER 00: 00 00\nORDER 01: 01 0A\n# end\n").unwrap();
    assert_eq!(file.tracks[0].comumns, vec![0, 0]);
    assert_eq!(file.tracks[0].pattern_order, vec![(0, vec![0, 0]), (1, vec![1, 10])]);
    assert!(file.tracks[0].patterns.is_empty());
}

#[test]
fn track_without_columns() {
    assert_eq!(
        read_text("TRACK 1 6 150 \"t\"\nORDER 00: 00\n"),
        Err(ParseError::MissingColumns)
    );
    assert_eq!(
        read_text("TRACK 1 6 150 \"t\"\n"),
        Err(ParseError::Unexpected(Expected::Columns, TokenKind::End))
    );
    assert_eq!(
        read_text("TRACK 1 6 150 \"t\"\n\n: 00\n"),
        Err(ParseError::Unexpected(Expected::Columns, TokenKind::Colon))
    );
}

#[test]
fn track_header_errors() {
    assert_eq!(
        read_text("TRACK 1 6 \"t\"\n"),
        Err(ParseError::Unexpected(Expected::Decimal, TokenKind::String))
    );
    assert_eq!(
        read_text("TRACK 1 6 150 t\n"),
        Err(ParseError::Unexpected(Expected::String, TokenKind::IdentNum))
    );
    assert_eq!(
        read_text("TRACK 1 6 150 \"t\"\nCOLUMNS: 100\n"),
        Err(ParseError::Number(NumError::TooLarge))
    );
    assert_eq!(
        read_text("TRACK 1 6 150 \"t\"\nCOLUMNS: 00\nORDER 100: 00\n# end\n"),
        Err(ParseError::Number(NumError::TooLarge))
    );
}

fn one_row(cells: &str) -> Result<SoundFile, ParseError> {
    let text = format!(
        "TRACK 4 6 150 \"t\"\nCOLUMNS: 00\nORDER 00: 00\nPATTERN 00\nROW 00: {}\n",
        cells
    );
    read_text(&text)
}

fn cell_of(file: &SoundFile) -> SheetNote {
    file.tracks[0].patterns[0].rows[0].sheet_notes[0]
}

#[test]
fn volume_10_is_out_of_range() {
    assert_eq!(one_row("C-4 00 10"), Err(ParseError::Volume));
    assert_eq!(one_row("C-4 00 FF"), Err(ParseError::Volume));
}

#[test]
fn volume_dot_is_no_volume() {
    let file = one_row("C-4 00 .").unwrap();
    assert_eq!(cell_of(&file).vol, None);
    let zero = one_row("C-4 00 0").unwrap();
    assert_eq!(cell_of(&zero).vol, Some(0));
    let full = one_row("C-4 00 F").unwrap();
    assert_eq!(cell_of(&full).vol, Some(15));
}

#[test]
fn placeholders_in_a_cell() {
    let file = one_row("... .. .").unwrap();
    assert_eq!(
        cell_of(&file),
        SheetNote { note: None, inst: None, vol: None, efx: [None, None, None] }
    );
}

#[test]
fn markers_in_a_cell() {
    assert_eq!(cell_of(&one_row("--- .. .").unwrap()).note, Some(Note::Cut));
    assert_eq!(cell_of(&one_row("==- .. .").unwrap()).note, Some(Note::Release));
    assert_eq!(cell_of(&one_row("D-# 0A .").unwrap()).note, Some(Note::Hex(13)));
    assert_eq!(cell_of(&one_row("D-# 0A .").unwrap()).inst, Some(10));
}

#[test]
fn cell_errors() {
    assert_eq!(
        one_row(".. .. ."),
        Err(ParseError::Unexpected(Expected::Note, TokenKind::DotDot))
    );
    assert_eq!(
        one_row("C-4 ... ."),
        Err(ParseError::Unexpected(Expected::Instrument, TokenKind::DotDotDot))
    );
    assert_eq!(
        one_row("C-4 00 .."),
        Err(ParseError::Unexpected(Expected::Volume, TokenKind::DotDot))
    );
    assert_eq!(one_row("C-4 100 ."), Err(ParseError::Number(NumError::TooLarge)));
    assert_eq!(one_row("C-4 0G ."), Err(ParseError::Number(NumError::InvalidDigit)));
    assert_eq!(
        read_text("TRACK 4 6 150 \"t\"\nCOLUMNS: 00\nPATTERN 00\nROW 00 C-4 00 .\n"),
        Err(ParseError::Unexpected(Expected::Colon, TokenKind::Note))
    );
}

fn row_with_effects(columns: &str, cells: &str) -> Result<SoundFile, ParseError> {
    let text = format!(
        "TRACK 4 6 150 \"t\"\nCOLUMNS: {}\nPATTERN 00\nROW 00: {}\n# end\n",
        columns, cells
    );
    read_text(&text)
}

#[test]
fn effect_slots_follow_the_column_count() {
    let one = row_with_effects("01", "C-4 00 F A0F").unwrap();
    assert_eq!(cell_of(&one).efx, [Some(Effect::VolumeSlide(false, 15)), None, None]);
    let three = row_with_effects("03", "C-4 00 F ... F20 047").unwrap();
    assert_eq!(
        cell_of(&three).efx,
        [None, Some(Effect::SpeedOrTempo(None, Some(0x20))), Some(Effect::Arpeggio(4, 7))]
    );
}

#[test]
fn effect_errors_in_a_row() {
    assert_eq!(
        row_with_effects("01", "C-4 00 F A11"),
        Err(ParseError::Effect(EffectError::SlideBothWays))
    );
    assert_eq!(
        row_with_effects("01", "C-4 00 F E00"),
        Err(ParseError::Effect(EffectError::UnknownTag))
    );
    assert_eq!(
        row_with_effects("01", "C-4 00 F B0"),
        Err(ParseError::Effect(EffectError::Length))
    );
    assert_eq!(
        row_with_effects("01", "C-4 00 F Bxy"),
        Err(ParseError::Effect(EffectError::Operand))
    );
    assert_eq!(
        row_with_effects("01", "C-4 00 F .."),
        Err(ParseError::Unexpected(Expected::Effect, TokenKind::DotDot))
    );
    assert_eq!(
        row_with_effects("02", "C-4 00 F A0F"),
        Err(ParseError::Unexpected(Expected::Effect, TokenKind::NewLine))
    );
}

#[test]
fn more_than_three_effect_columns_cannot_have_a_row() {
    assert_eq!(
        row_with_effects("04", "C-4 00 F ... ... ... ..."),
        Err(ParseError::EffectColumns)
    );
    let without_rows = read_text("TRACK 4 6 150 \"t\"\nCOLUMNS: 04\nPATTERN 00\n").unwrap();
    assert_eq!(without_rows.tracks[0].comumns, vec![4]);
}

#[test]
fn several_channels_rows_and_patterns() {
    let text = "TRACK 2 3 120 \"song\"\n\nCOLUMNS : 01 00\n\nORDER 00 : 00 01\nORDER 01 : 01 00\n\nPATTERN 00\nROW 00 : C-4 00 F V01 : ... .. .\nROW 01 : --- .. . ... : 3-# 01 0\n\nPATTERN 01\nROW 00 : ... .. . ... : ... .. .\n\nTITLE \"after\"\n# end\n";
    let file = read_text(text).unwrap();
    assert_eq!(file.title, "after");
    let track = &file.tracks[0];
    assert_eq!(track.patterns.len(), 2);
    assert_eq!(track.patterns[0].rows.len(), 2);
    assert_eq!(track.patterns[1].rows.len(), 1);
    assert_eq!(track.patterns[1].id, 1);
    let row = &track.patterns[0].rows[1];
    assert_eq!(row.id, 1);
    assert_eq!(
        row.sheet_notes,
        vec![
            SheetNote { note: Some(Note::Cut), inst: None, vol: None, efx: [None, None, None] },
            SheetNote {
                note: Some(Note::Hex(3)),
                inst: Some(1),
                vol: Some(0),
                efx: [None, None, None],
            },
        ]
    );
    assert_eq!(
        track.patterns[0].rows[0].sheet_notes[0].efx,
        [Some(Effect::MuteDelay(1)), None, None]
    );
}

#[test]
fn a_pattern_cannot_have_more_rows_than_the_track_declares() {
    let text = "TRACK 1 6 150 \"t\"\nCOLUMNS: 00\nPATTERN 00\nROW 00: C-4 00 F\nROW 01: C-4 00 F\n";
    assert_eq!(read_text(text), Err(ParseError::PatternLength));
    let none = "TRACK 0 6 150 \"t\"\nCOLUMNS: 00\nPATTERN 00\nROW 00: C-4 00 F\n";
    assert_eq!(read_text(none), Err(ParseError::PatternLength));
    let two = "TRACK 2 6 150 \"t\"\nCOLUMNS: 00\nPATTERN 00\nROW 00: C-4 00 F\nROW 01: C-4 00 F\nPATTERN 01\nROW 00: C-4 00 F\n";
    let file = read_text(two).unwrap();
    assert_eq!(file.tracks[0].patterns[0].rows.len(), 2);
    assert_eq!(file.tracks[0].patterns[1].rows.len(), 1);
}

#[test]
fn unknown_command() {
    assert_eq!(read_text("FOO 1\n"), Err(ParseError::UnknownCommand));
    assert_eq!(read_text("title \"t\"\n"), Err(ParseError::UnknownCommand));
    assert_eq!(read_text("ROW 00 : ... .. .\n"), Err(ParseError::UnknownCommand));
}

#[test]
fn lexical_error_reaches_the_caller_with_its_place() {
    assert_eq!(
        read_text("TITLE \"t\"\n  !\n"),
        Err(ParseError::Lexical('!', Location { real: 13, seen: 13, line: 1, column: 3 }))
    );
    assert_eq!(
        read_text("H-4\n"),
        Err(ParseError::Lexical('H', Location { real: 0, seen: 0, line: 0, column: 0 }))
    );
}

#[test]
fn other_token_at_the_start_of_a_line() {
    assert_eq!(
        read_text("\"t\"\n"),
        Err(ParseError::Unexpected(Expected::Command, TokenKind::String))
    );
    assert_eq!(
        read_text(": 1\n"),
        Err(ParseError::Unexpected(Expected::Command, TokenKind::Colon))
    );
    assert_eq!(
        read_text("C-4\n"),
        Err(ParseError::Unexpected(Expected::Command, TokenKind::Note))
    );
    assert_eq!(
        read_text("... \n"),
        Err(ParseError::Unexpected(Expected::Command, TokenKind::DotDotDot))
    );
}

#[test]
fn wrong_token_kinds_in_a_line() {
    assert_eq!(
        read_text("TITLE 12\n"),
        Err(ParseError::Unexpected(Expected::String, TokenKind::IdentNum))
    );
    assert_eq!(
        read_text("TITLE \"a\" \"b\"\n"),
        Err(ParseError::Unexpected(Expected::NewLine, TokenKind::String))
    );
    assert_eq!(
        read_text("TITLE \"a\""),
        Err(ParseError::Unexpected(Expected::NewLine, TokenKind::End))
    );
    assert_eq!(
        read_text("MACHINE \"a\"\n"),
        Err(ParseError::Unexpected(Expected::Decimal, TokenKind::String))
    );
    assert_eq!(read_text("MACHINE 1A\n"), Err(ParseError::Number(NumError::InvalidDigit)));
}

#[test]
fn field_rules_on_single_tokens() {
    assert_eq!(option_note(Some(Token::Note(Note::Midi(60)))), Ok(Some(Note::Midi(60))));
    assert_eq!(option_note(Some(Token::DotDotDot)), Ok(None));
    assert_eq!(
        option_note(None),
        Err(ParseError::Unexpected(Expected::Note, TokenKind::End))
    );
    assert_eq!(option_instrament(word("1F")), Ok(Some(31)));
    assert_eq!(option_instrament(Some(Token::DotDot)), Ok(None));
    assert_eq!(option_volume(word("F")), Ok(Some(15)));
    assert_eq!(option_volume(word("10")), Err(ParseError::Volume));
    assert_eq!(option_volume(Some(Token::Dot)), Ok(None));
    assert_eq!(option_effect(word("F1F")), Ok(Some(Effect::SpeedOrTempo(Some(31), None))));
    assert_eq!(option_effect(Some(Token::DotDotDot)), Ok(None));
    assert_eq!(expect_str(Some(Token::String("s".to_string()))), Ok("s".to_string()));
    assert_eq!(
        expect_str(Some(Token::Empty)),
        Err(ParseError::Unexpected(Expected::String, TokenKind::Empty))
    );
    assert_eq!(expect_nl(Some(Token::NewLine)), Ok(()));
    assert_eq!(
        expect_nl(Some(Token::Dot)),
        Err(ParseError::Unexpected(Expected::NewLine, TokenKind::Dot))
    );
    assert_eq!(expect_colon(Some(Token::Colon)), Ok(()));
    assert_eq!(
        expect_colon(Some(Token::Error('x', Location::default()))),
        Err(ParseError::Unexpected(Expected::Colon, TokenKind::Error))
    );
    assert_eq!(expect_dec_num(word("-12")), Ok(-12));
    assert_eq!(expect_opt_dec_num(word("-1")), Ok(None));
    assert_eq!(expect_opt_dec_num(word("0")), Ok(Some(0)));
    assert_eq!(expect_opt_dec_num(word("255")), Ok(Some(255)));
    assert_eq!(expect_opt_dec_num(word("256")), Err(ParseError::Number(NumError::TooLarge)));
    assert_eq!(expect_hex_num(word("10")), Ok(16));
    assert_eq!(
        expect_hex_num(Some(Token::Colon)),
        Err(ParseError::Unexpected(Expected::Hex, TokenKind::Colon))
    );
}

#[test]
fn a_last_line_needs_something_behind_its_line_end() {
    assert_eq!(
        read_text("TITLE \"t\"\n"),
        Err(ParseError::Unexpected(Expected::NewLine, TokenKind::End))
    );
    assert!(read_text("TITLE \"t\"\n ").is_ok());
    assert!(read_text("TITLE \"t\"\n# end").is_ok());
    assert!(read_text("TITLE \"t\"\n\nAUTHOR \"a\"\n ").is_ok());
}
