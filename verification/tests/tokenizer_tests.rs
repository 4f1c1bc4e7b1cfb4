use rustc_fami::sound_file::Note;
use rustc_fami::tokenizer::{IdentNum, Location, Peekable, SkipNLPeekable, Token, Tokenizer};

fn all_tokens(text: &str) -> Vec<Token> {
    let mut tokenizer = Tokenizer::from_str(text);
    let mut out = Vec::new();
    while let Some(token) = tokenizer.next() {
        out.push(token);
    }
    out
}

fn word(text: &str) -> Token {
    Token::IdentNum(IdentNum::from_str(text))
}

fn stream(text: &str) -> Peekable {
    Tokenizer::from_str(text).peekable()
}

#[test]
fn note_lexemes_resolve_to_pitch() {
    assert_eq!(all_tokens("C-4"), vec![Token::Note(Note::Midi(60))]);
    assert_eq!(all_tokens("A-4"), vec![Token::Note(Note::Midi(69))]);
    assert_eq!(all_tokens("F#5"), vec![Token::Note(Note::Midi(78))]);
}

#[test]
fn every_note_of_the_table_in_every_octave() {
    let names = ["C-", "C#", "D-", "D#", "E-", "F-", "F#", "G-", "G#", "A-", "A#", "B-"];
    for (class, name) in names.iter().enumerate() {
        for octave in 0u32..8 {
            let text = format!("{}{}", name, octave);
            let expected = (octave + 1) * 12 + class as u32;
            assert_eq!(all_tokens(&text), vec![Token::Note(Note::Midi(expected))]);
        }
    }
}

#[test]
fn lowest_and_highest_pitch() {
    assert_eq!(all_tokens("C-0"), vec![Token::Note(Note::Midi(12))]);
    assert_eq!(all_tokens("B-7"), vec![Token::Note(Note::Midi(107))]);
}

#[test]
fn octave_eight_is_an_error() {
    let tokens = all_tokens("C-8");
    assert_eq!(tokens.len(), 1);
    assert_eq!(
        tokens[0],
        Token::Error('8', Location { real: 3, seen: 3, line: 0, column: 3 })
    );
}

#[test]
fn unknown_note_letter_is_an_error_at_the_lexeme_start() {
    assert_eq!(
        all_tokens("  H-4"),
        vec![Token::Error('H', Location { real: 2, seen: 2, line: 0, column: 2 })]
    );
    assert_eq!(
        all_tokens("E#4"),
        vec![Token::Error('E', Location { real: 0, seen: 0, line: 0, column: 0 })]
    );
}

#[test]
fn long_prefix_before_dash_is_an_error() {
    assert_eq!(
        all_tokens("AB-4"),
        vec![Token::Error('A', Location { real: 0, seen: 0, line: 0, column: 0 })]
    );
    assert_eq!(
        all_tokens("12-3"),
        vec![Token::Error('1', Location { real: 0, seen: 0, line: 0, column: 0 })]
    );
}

#[test]
fn three_dashes_are_the_cut_marker() {
    assert_eq!(all_tokens("---"), vec![Token::Note(Note::Cut)]);
}

#[test]
fn two_equals_and_a_dash_are_the_release_marker() {
    assert_eq!(all_tokens("==-"), vec![Token::Note(Note::Release)]);
}

#[test]
fn three_equals_are_an_error() {
    assert_eq!(
        all_tokens("==="),
        vec![Token::Error('=', Location { real: 3, seen: 3, line: 0, column: 3 })]
    );
}

#[test]
fn equal_then_other_is_an_error() {
    assert_eq!(
        all_tokens("=a"),
        vec![Token::Error('a', Location { real: 2, seen: 2, line: 0, column: 2 })]
    );
}

#[test]
fn two_dashes_then_other_is_an_error() {
    assert_eq!(
        all_tokens("--a"),
        vec![Token::Error('a', Location { real: 3, seen: 3, line: 0, column: 3 })]
    );
}

#[test]
fn raw_notes_of_the_noise_channel() {
    assert_eq!(all_tokens("3-#"), vec![Token::Note(Note::Hex(3))]);
    assert_eq!(all_tokens("F-#"), vec![Token::Note(Note::Hex(15))]);
    assert_eq!(all_tokens("a-#"), vec![Token::Note(Note::Hex(10))]);
    assert_eq!(all_tokens("0-#"), vec![Token::Note(Note::Hex(0))]);
}

#[test]
fn raw_note_with_a_bad_digit() {
    assert_eq!(
        all_tokens("g-#"),
        vec![Token::Error('G', Location { real: 0, seen: 0, line: 0, column: 0 })]
    );
}

#[test]
fn raw_note_without_a_dash() {
    assert_eq!(
        all_tokens("C##"),
        vec![Token::Error('#', Location { real: 1, seen: 1, line: 0, column: 1 })]
    );
}

#[test]
fn words_and_numbers_are_one_class() {
    assert_eq!(all_tokens("TITLE "), vec![word("TITLE")]);
    assert_eq!(all_tokens("150 "), vec![word("150")]);
    assert_eq!(all_tokens("A4 "), vec![word("A4")]);
    assert_eq!(all_tokens("0F "), vec![word("0F")]);
    assert_eq!(all_tokens("INST2A03 "), vec![word("INST2A03")]);
}

#[test]
fn a_dash_starts_a_number() {
    assert_eq!(all_tokens("-1 "), vec![word("-1")]);
    assert_eq!(all_tokens("- "), vec![word("-")]);
}

#[test]
fn a_lexeme_under_way_is_dropped_at_the_end() {
    assert_eq!(all_tokens("TITLE"), vec![]);
    assert_eq!(all_tokens("12"), vec![]);
    assert_eq!(all_tokens("\"open"), vec![]);
    assert_eq!(all_tokens(""), vec![]);
}

#[test]
fn string_literal() {
    assert_eq!(all_tokens("\"hello world\""), vec![Token::String("hello world".to_string())]);
    assert_eq!(all_tokens("\"\""), vec![Token::String(String::new())]);
    assert_eq!(all_tokens("\"a#b:c\""), vec![Token::String("a#b:c".to_string())]);
}

#[test]
fn string_with_wide_characters() {
    assert_eq!(all_tokens("\"h\u{e9}\u{4e16}\""), vec![Token::String("h\u{e9}\u{4e16}".to_string())]);
}

#[test]
fn colon() {
    assert_eq!(all_tokens(":"), vec![Token::Colon]);
    assert_eq!(all_tokens("ROW 00:"), vec![word("ROW"), word("00"), Token::Colon]);
}

#[test]
fn dots() {
    assert_eq!(all_tokens(". "), vec![Token::Dot]);
    assert_eq!(all_tokens(".. "), vec![Token::DotDot]);
    assert_eq!(all_tokens("..."), vec![Token::DotDotDot]);
    assert_eq!(
        all_tokens("... .. . ... "),
        vec![Token::DotDotDot, Token::DotDot, Token::Dot, Token::DotDotDot]
    );
    assert_eq!(all_tokens("....:"), vec![Token::DotDotDot, Token::Dot, Token::Colon]);
}

#[test]
fn line_ends_collapse() {
    assert_eq!(all_tokens("\n\r\n\n:"), vec![Token::NewLine, Token::Colon]);
    assert_eq!(
        all_tokens("A\nB\r\nC "),
        vec![word("A"), Token::NewLine, word("B"), Token::NewLine, word("C")]
    );
}

#[test]
fn comment_runs_through_its_line_end() {
    assert_eq!(all_tokens("# a comment\nA "), vec![word("A")]);
    assert_eq!(all_tokens("A # rest\nB "), vec![word("A"), word("B")]);
    assert_eq!(all_tokens("# no end"), vec![]);
}

#[test]
fn blank_space_is_passed_over() {
    assert_eq!(all_tokens(" \t A \u{a0}\u{3000} B "), vec![word("A"), word("B")]);
}

#[test]
fn unknown_character_is_an_error_with_its_place() {
    assert_eq!(
        all_tokens("!"),
        vec![Token::Error('!', Location { real: 1, seen: 1, line: 0, column: 1 })]
    );
    assert_eq!(
        all_tokens("A\n  \u{e9}"),
        vec![
            word("A"),
            Token::NewLine,
            Token::Error('\u{e9}', Location { real: 6, seen: 5, line: 1, column: 3 })
        ]
    );
}

#[test]
fn scanning_goes_on_behind_an_error() {
    let tokens = all_tokens("? A ");
    assert_eq!(tokens.len(), 2);
    assert_eq!(tokens[1], word("A"));
}

#[test]
fn location_moves_by_character() {
    let start = Location::default();
    assert_eq!(start, Location { real: 0, seen: 0, line: 0, column: 0 });
    let a = start.add('a');
    assert_eq!(a, Location { real: 1, seen: 1, line: 0, column: 1 });
    let nl = a.add('\n');
    assert_eq!(nl, Location { real: 2, seen: 2, line: 1, column: 0 });
    let wide = nl.add('\u{e9}');
    assert_eq!(wide, Location { real: 4, seen: 3, line: 1, column: 1 });
    let wider = wide.add('\u{4e16}');
    assert_eq!(wider, Location { real: 7, seen: 4, line: 1, column: 2 });
    let widest = wider.add('\u{1f600}');
    assert_eq!(widest, Location { real: 11, seen: 5, line: 1, column: 3 });
    let cr = widest.add('\r');
    assert_eq!(cr, Location { real: 12, seen: 6, line: 1, column: 4 });
}

#[test]
fn lexeme_between_two_places() {
    let tokenizer = Tokenizer::from_str("h\u{e9}llo world");
    let from = Location { real: 0, seen: 1, line: 0, column: 1 };
    let to = Location { real: 0, seen: 5, line: 0, column: 5 };
    assert_eq!(tokenizer.str_loc_loc(from, to), "\u{e9}llo");
    assert_eq!(tokenizer.str_last(), "");
}

#[test]
fn peek_leaves_the_token() {
    let mut tokens = stream("A : ");
    assert_eq!(tokens.peek(), Some(&word("A")));
    assert_eq!(tokens.peek(), Some(&word("A")));
    assert_eq!(tokens.next(), Some(word("A")));
    assert_eq!(tokens.peek(), Some(&Token::Colon));
    assert_eq!(tokens.next(), Some(Token::Colon));
    assert_eq!(tokens.peek(), None);
    assert_eq!(tokens.next(), None);
    assert_eq!(tokens.next(), None);
}

#[test]
fn peek_skipping_nl_drops_blank_lines_only() {
    let mut tokens = stream("\n\n\r\nA \n: ");
    assert_eq!(tokens.peek_skipping_nl(), Some(&word("A")));
    assert_eq!(tokens.peek_skipping_nl(), Some(&word("A")));
    assert_eq!(tokens.next(), Some(word("A")));
    assert_eq!(tokens.peek(), Some(&Token::NewLine));
    assert_eq!(tokens.peek_skipping_nl(), Some(&Token::Colon));
    assert_eq!(tokens.next(), Some(Token::Colon));
    assert_eq!(tokens.peek_skipping_nl(), None);
}

#[test]
fn peek_skipping_nl_at_the_end() {
    let mut tokens = stream("\n\n ");
    assert_eq!(tokens.peek_skipping_nl(), None);
    assert_eq!(tokens.next(), None);
}

#[test]
fn ident_decodes_on_demand() {
    let lexeme = IdentNum::from_str("10");
    assert_eq!(lexeme.as_str(), "10");
    assert_eq!(lexeme.dec(), Ok(10));
    assert_eq!(lexeme.hex(), Ok(16));
    assert!(lexeme.eq("10"));
    assert!(!lexeme.eq("1"));
    assert!(!lexeme.eq("100"));
}
