//! Laws of the reader, each proved from the specifications that the
//! functions' contracts use.

use vstd::prelude::*;
use crate::grammar::{
    advance, at_word, byte_run, cell, cells, columns_line, command, document, lemma_byte_run_len,
    lemma_cells_len, lemma_command_len, lemma_row_lines_len, lemma_skip_newlines_len,
    order_lines, pattern_blocks, row_lines, track,
};
use crate::sound_file::{
    empty_sound_file, valid_cell, valid_pattern, valid_row, valid_sound_file, valid_track, Note,
    RowView, SoundFileView,
};
use crate::text::is_octave;
use crate::tokenizer::{
    first, pitch, pitch_class, skip_newlines, tokens_from, tokens_of, Lexer, TokenView,
    TokenizerState,
};

verus! {

/// Wherever the scanner starts a lexeme at a note letter with its
/// accidental and an octave digit, the token that comes out is the pitch
/// `(octave + 1) * 12 + class`, where `class` is the place of the note in
/// its octave, and the scanner stands behind the digit.
pub proof fn lemma_note_lexeme_gives_pitch(
    text: Seq<char>,
    lx: Lexer,
    letter: char,
    accidental: char,
    octave: char,
)
    requires
        lx.state == TokenizerState::Default,
        lx.begin == lx.pos,
        lx.pos + 3 <= text.len(),
        text[lx.pos as int] == letter,
        text[lx.pos as int + 1] == accidental,
        text[lx.pos as int + 2] == octave,
        pitch_class(letter, accidental) is Some,
        is_octave(octave),
    ensures
        lx.scan(text).1 == Some(
            TokenView::Note(
                Note::Midi(
                    ((octave as int - '0' as int + 1) * 12 + pitch_class(
                        letter,
                        accidental,
                    ).unwrap()) as u32,
                ),
            ),
        ),
        lx.scan(text).0.pos == lx.pos + 3,
        lx.scan(text).0.state == TokenizerState::Default,
{
    let one = lx.step(text);
    let two = one.step(text);
    assert(one.state == TokenizerState::Ident);
    assert(two.state == TokenizerState::Note);
    assert(two.begin == lx.pos && two.pos == lx.pos + 2);
    let lexeme = text.subrange(two.begin as int, two.pos as int);
    assert(lexeme[0] == letter);
    assert(lexeme[1] == accidental);
    reveal_with_fuel(Lexer::scan, 4);
}

/// A text that is one note lexeme has one token: its pitch.
pub proof fn lemma_note_text_gives_pitch(letter: char, accidental: char, octave: char)
    requires
        pitch_class(letter, accidental) is Some,
        is_octave(octave),
    ensures
        tokens_of(seq![letter, accidental, octave]) == seq![
            TokenView::Note(
                Note::Midi(
                    pitch(
                        pitch_class(letter, accidental).unwrap(),
                        (octave as int - '0' as int) as nat,
                    ) as u32,
                ),
            ),
        ],
{
    let text = seq![letter, accidental, octave];
    let lx = Lexer::initial();
    lemma_note_lexeme_gives_pitch(text, lx, letter, accidental, octave);
    let behind = lx.scan(text).0;
    assert(behind.scan(text).1 is None);
    reveal_with_fuel(tokens_from, 3);
    assert(tokens_from(behind, text) =~= Seq::empty());
    assert(tokens_of(text) =~= seq![lx.scan(text).1.unwrap()]);
}

/// Wherever the scanner starts a lexeme at three dashes, the token that
/// comes out is the cut marker, and the scanner stands behind the dashes.
pub proof fn lemma_three_dashes_give_cut(text: Seq<char>, lx: Lexer)
    requires
        lx.state == TokenizerState::Default,
        lx.pos + 3 <= text.len(),
        text[lx.pos as int] == '-',
        text[lx.pos as int + 1] == '-',
        text[lx.pos as int + 2] == '-',
    ensures
        lx.scan(text).1 == Some(TokenView::Note(Note::Cut)),
        lx.scan(text).0.pos == lx.pos + 3,
        lx.scan(text).0.state == TokenizerState::Default,
{
    reveal_with_fuel(Lexer::scan, 4);
}

/// Wherever the scanner starts a lexeme at two equals signs and a dash, the
/// token that comes out is the release marker, and the scanner stands
/// behind the dash.
pub proof fn lemma_equals_dash_give_release(text: Seq<char>, lx: Lexer)
    requires
        lx.state == TokenizerState::Default,
        lx.pos + 3 <= text.len(),
        text[lx.pos as int] == '=',
        text[lx.pos as int + 1] == '=',
        text[lx.pos as int + 2] == '-',
    ensures
        lx.scan(text).1 == Some(TokenView::Note(Note::Release)),
        lx.scan(text).0.pos == lx.pos + 3,
        lx.scan(text).0.state == TokenizerState::Default,
{
    reveal_with_fuel(Lexer::scan, 4);
}

/// A text has one document: two parses of equal texts give equal results.
pub proof fn lemma_parse_is_a_function(a: Seq<char>, b: Seq<char>)
    requires
        a == b,
    ensures
        document(tokens_of(a), empty_sound_file()) == document(tokens_of(b), empty_sound_file()),
{
}

/// A cell that is read is valid for its channel.
pub proof fn lemma_cell_valid(tokens: Seq<TokenView>, slots: u8)
    requires
        cell(tokens, slots) is Ok,
    ensures
        valid_cell(cell(tokens, slots)->Ok_0.0, slots),
{
}

/// The cells of a row that is read are one valid cell for each channel.
pub proof fn lemma_cells_valid(tokens: Seq<TokenView>, columns: Seq<u8>)
    requires
        cells(tokens, columns) is Ok,
    ensures
        valid_row(RowView { id: 0, sheet_notes: cells(tokens, columns)->Ok_0.0 }, columns),
    decreases columns.len(),
{
    if columns.len() > 0 {
        let (note, behind) = cell(tokens, columns[0])->Ok_0;
        lemma_cell_valid(tokens, columns[0]);
        lemma_cells_valid(behind, columns.drop_first());
        let rest = cells(behind, columns.drop_first())->Ok_0.0;
        let all = cells(tokens, columns)->Ok_0.0;
        assert(all =~= seq![note] + rest);
        assert forall|i: int| 0 <= i < columns.len() implies valid_cell(
            #[trigger] all[i],
            columns[i],
        ) by {
            if i > 0 {
                assert(all[i] == rest[i - 1]);
                assert(columns[i] == columns.drop_first()[i - 1]);
            }
        }
    }
}

/// The rows that are read under a pattern are valid, and with the `have`
/// rows before them they are no more than the track declares.
pub proof fn lemma_row_lines_valid(
    tokens: Seq<TokenView>,
    columns: Seq<u8>,
    length: u32,
    have: nat,
)
    requires
        row_lines(tokens, columns, length, have) is Ok,
    ensures
        ({
            let rows = row_lines(tokens, columns, length, have)->Ok_0.0;
            &&& rows.len() > 0 ==> have + rows.len() <= length
            &&& forall|i: int| 0 <= i < rows.len() ==> valid_row(#[trigger] rows[i], columns)
        }),
    decreases tokens.len(),
{
    let line = skip_newlines(tokens);
    if at_word(line, "ROW"@) {
        let notes = cells(advance(line, 2), columns)->Ok_0;
        lemma_skip_newlines_len(tokens);
        lemma_cells_len(advance(line, 2), columns);
        lemma_cells_valid(advance(line, 2), columns);
        lemma_row_lines_valid(notes.1, columns, length, have + 1);
        let rest = row_lines(notes.1, columns, length, have + 1)->Ok_0.0;
        let rows = row_lines(tokens, columns, length, have)->Ok_0.0;
        assert(rows.len() == rest.len() + 1);
        assert forall|i: int| 0 <= i < rows.len() implies valid_row(#[trigger] rows[i], columns) by {
            if i > 0 {
                assert(rows[i] == rest[i - 1]);
            }
        }
    }
}

/// The patterns that are read under a track are valid.
pub proof fn lemma_pattern_blocks_valid(tokens: Seq<TokenView>, columns: Seq<u8>, length: u32)
    requires
        pattern_blocks(tokens, columns, length) is Ok,
    ensures
        ({
            let patterns = pattern_blocks(tokens, columns, length)->Ok_0.0;
            forall|i: int|
                0 <= i < patterns.len() ==> valid_pattern(#[trigger] patterns[i], columns, length)
        }),
    decreases tokens.len(),
{
    let line = skip_newlines(tokens);
    if at_word(line, "PATTERN"@) {
        let rows = row_lines(advance(line, 2), columns, length, 0)->Ok_0;
        lemma_skip_newlines_len(tokens);
        lemma_row_lines_len(advance(line, 2), columns, length, 0);
        lemma_row_lines_valid(advance(line, 2), columns, length, 0);
        lemma_pattern_blocks_valid(rows.1, columns, length);
        let rest = pattern_blocks(rows.1, columns, length)->Ok_0.0;
        let patterns = pattern_blocks(tokens, columns, length)->Ok_0.0;
        assert(patterns.len() == rest.len() + 1);
        assert forall|i: int| 0 <= i < patterns.len() implies valid_pattern(
            #[trigger] patterns[i],
            columns,
            length,
        ) by {
            if i > 0 {
                assert(patterns[i] == rest[i - 1]);
            }
        }
    }
}

/// Each order entry that is read names one pattern for each channel.
pub proof fn lemma_order_lines_valid(tokens: Seq<TokenView>, channels: nat)
    requires
        order_lines(tokens, channels) is Ok,
    ensures
        ({
            let orders = order_lines(tokens, channels)->Ok_0.0;
            forall|i: int| 0 <= i < orders.len() ==> (#[trigger] orders[i]).1.len() == channels
        }),
    decreases tokens.len(),
{
    let line = skip_newlines(tokens);
    if at_word(line, "ORDER"@) {
        let run = byte_run(advance(line, 3))->Ok_0;
        lemma_skip_newlines_len(tokens);
        lemma_byte_run_len(advance(line, 3));
        lemma_order_lines_valid(run.1.drop_first(), channels);
        let rest = order_lines(run.1.drop_first(), channels)->Ok_0.0;
        let orders = order_lines(tokens, channels)->Ok_0.0;
        assert(orders.len() == rest.len() + 1);
        assert forall|i: int| 0 <= i < orders.len() implies (#[trigger] orders[i]).1.len()
            == channels by {
            if i > 0 {
                assert(orders[i] == rest[i - 1]);
            }
        }
    }
}

/// A track that is read is valid.
pub proof fn lemma_track_valid(tokens: Seq<TokenView>)
    requires
        track(tokens) is Ok,
    ensures
        valid_track(track(tokens)->Ok_0.0),
{
    let (columns, behind) = columns_line(advance(tokens, 4))->Ok_0;
    lemma_order_lines_valid(behind, columns.len());
    let after = order_lines(behind, columns.len())->Ok_0.1;
    lemma_pattern_blocks_valid(after, columns, track(tokens)->Ok_0.0.pattern_length);
}

/// A command keeps a valid document valid.
pub proof fn lemma_command_valid(word: Seq<char>, tokens: Seq<TokenView>, file: SoundFileView)
    requires
        valid_sound_file(file),
        command(word, tokens, file) is Ok,
    ensures
        valid_sound_file(command(word, tokens, file)->Ok_0.0),
{
    if track(tokens) is Ok {
        lemma_track_valid(tokens);
    }
}

/// Every document that a parse gives is valid: each order entry names one
/// pattern for each channel, no pattern has more rows than its track
/// declares, each row has one cell for each channel, no volume is above 15,
/// and the effect slots that a channel does not declare are empty.
pub proof fn lemma_document_valid(tokens: Seq<TokenView>, file: SoundFileView)
    requires
        valid_sound_file(file),
        document(tokens, file) is Ok,
    ensures
        valid_sound_file(document(tokens, file)->Ok_0),
    decreases tokens.len(),
{
    match first(tokens) {
        Some(TokenView::IdentNum(word)) => {
            let (next, rest) = command(word, tokens.drop_first(), file)->Ok_0;
            lemma_command_len(word, tokens.drop_first(), file);
            lemma_command_valid(word, tokens.drop_first(), file);
            lemma_document_valid(rest, next);
        },
        Some(TokenView::NewLine) => {
            lemma_document_valid(tokens.drop_first(), file);
        },
        _ => {},
    }
}

} // verus!
