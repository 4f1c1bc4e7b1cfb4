//! The parser: the functions that read single tokens as fields, those that
//! read the commands with what stands under them, and `read_text`, which
//! reads a whole document. What each of them gives is said by the rule of
//! the same grammar in [`crate::grammar`].

use vstd::prelude::*;
use vstd::string::*;
use crate::error::{Expected, NumError, ParseError, TokenKind};
use crate::grammar::{
    advance, at, at_word, byte_of, byte_run, cell, cells, colon_field, columns_line, command,
    count_line, dec_byte, dec_count, dec_field, document, effect_field, hex_byte, hex_field,
    instrument_field, instrument_line, key_line, key_note, kind_of, lemma_byte_run_len,
    lemma_cells_len, lemma_command_len, lemma_row_lines_len, lemma_sample_bytes_len,
    lemma_skip_newlines_len, lemma_skip_newlines_twice, loop_flag, macro_line, macro_values,
    nl_field, note_field, opt_dec_field, order_lines, pattern_blocks, prepend, rate_line,
    row_lines, sample_bytes, sample_def, sample_lines, signed_byte_of, str_field, text_line,
    track, tuning_line, volume_field,
};
use crate::laws::lemma_document_valid;
use crate::sound_file::{
    cells_view, empty_sound_file, instruments_view, macros_view, orders_view, patterns_view,
    rows_view, samples_view, tracks_view, valid_sound_file, Effect, Inst2A03, KeyDPCM, Note,
    Pattern, PatternView, Row, RowView, SheetNote, SheetNoteView, SongDpcmSamples, SongMacro,
    SoundFile, Track,
};
use crate::tokenizer::{
    first, skip_newlines, tokens_of, view_of, IdentNum, Peekable, SkipNLPeekable, Token,
    TokenView, Tokenizer,
};

verus! {

/// The kind of a token, `End` where there is none.
pub fn kind(token: &Option<Token>) -> (k: TokenKind)
    ensures
        k == kind_of(view_of(*token)),
{
    match token {
        Some(Token::IdentNum(_)) => TokenKind::IdentNum,
        Some(Token::Colon) => TokenKind::Colon,
        Some(Token::String(_)) => TokenKind::String,
        Some(Token::Note(_)) => TokenKind::Note,
        Some(Token::Dot) => TokenKind::Dot,
        Some(Token::DotDot) => TokenKind::DotDot,
        Some(Token::DotDotDot) => TokenKind::DotDotDot,
        Some(Token::NewLine) => TokenKind::NewLine,
        Some(Token::Empty) => TokenKind::Empty,
        Some(Token::Error(_, _)) => TokenKind::Error,
        None => TokenKind::End,
    }
}

/// A number as a byte, where it is one.
pub fn to_byte(v: i64) -> (r: Result<u8, ParseError>)
    ensures
        r == byte_of(v as int),
{
    if v < 0 {
        Err(ParseError::Number(NumError::TooSmall))
    } else if v > 255 {
        Err(ParseError::Number(NumError::TooLarge))
    } else {
        Ok(v as u8)
    }
}

/// Reads `token` as a pitch cell.
pub fn option_note(token: Option<Token>) -> (r: Result<Option<Note>, ParseError>)
    ensures
        r == note_field(view_of(token)),
{
    match token {
        Some(Token::Note(note)) => Ok(Some(note)),
        Some(Token::DotDotDot) => Ok(None),
        _ => Err(ParseError::Unexpected(Expected::Note, kind(&token))),
    }
}

/// Reads `token` as an instrument cell.
pub fn option_instrament(token: Option<Token>) -> (r: Result<Option<u8>, ParseError>)
    ensures
        r == instrument_field(view_of(token)),
{
    match token {
        Some(Token::IdentNum(lexeme)) => match lexeme.hex() {
            Ok(v) => match to_byte(v as i64) {
                Ok(b) => Ok(Some(b)),
                Err(e) => Err(e),
            },
            Err(e) => Err(ParseError::Number(e)),
        },
        Some(Token::DotDot) => Ok(None),
        _ => Err(ParseError::Unexpected(Expected::Instrument, kind(&token))),
    }
}

/// Reads `token` as a volume cell.
pub fn option_volume(token: Option<Token>) -> (r: Result<Option<u8>, ParseError>)
    ensures
        r == volume_field(view_of(token)),
{
    match token {
        Some(Token::IdentNum(lexeme)) => match lexeme.hex() {
            Ok(v) => if v > 15 {
                Err(ParseError::Volume)
            } else {
                Ok(Some(v as u8))
            },
            Err(e) => Err(ParseError::Number(e)),
        },
        Some(Token::Dot) => Ok(None),
        _ => Err(ParseError::Unexpected(Expected::Volume, kind(&token))),
    }
}

/// Reads `token` as an effect cell.
pub fn option_effect(token: Option<Token>) -> (r: Result<Option<Effect>, ParseError>)
    ensures
        r == effect_field(view_of(token)),
{
    match token {
        Some(Token::IdentNum(lexeme)) => match lexeme.effect() {
            Ok(effect) => Ok(Some(effect)),
            Err(e) => Err(ParseError::Effect(e)),
        },
        Some(Token::DotDotDot) => Ok(None),
        _ => Err(ParseError::Unexpected(Expected::Effect, kind(&token))),
    }
}

/// Reads `token` as a string field.
pub fn expect_str(token: Option<Token>) -> (r: Result<String, ParseError>)
    ensures
        match str_field(view_of(token)) {
            Ok(text) => r is Ok && r.unwrap()@ == text,
            Err(e) => r == Err::<String, ParseError>(e),
        },
{
    match token {
        Some(Token::String(text)) => Ok(text),
        _ => Err(ParseError::Unexpected(Expected::String, kind(&token))),
    }
}

/// Reads `token` as the end of a line.
pub fn expect_nl(token: Option<Token>) -> (r: Result<(), ParseError>)
    ensures
        r == nl_field(view_of(token)),
{
    match token {
        Some(Token::NewLine) => Ok(()),
        _ => Err(ParseError::Unexpected(Expected::NewLine, kind(&token))),
    }
}

/// Reads `token` as a colon.
pub fn expect_colon(token: Option<Token>) -> (r: Result<(), ParseError>)
    ensures
        r == colon_field(view_of(token)),
{
    match token {
        Some(Token::Colon) => Ok(()),
        _ => Err(ParseError::Unexpected(Expected::Colon, kind(&token))),
    }
}

/// Reads `token` as a decimal field.
pub fn expect_dec_num(token: Option<Token>) -> (r: Result<i32, ParseError>)
    ensures
        r == dec_field(view_of(token)),
{
    match token {
        Some(Token::IdentNum(lexeme)) => match lexeme.dec() {
            Ok(v) => Ok(v),
            Err(e) => Err(ParseError::Number(e)),
        },
        _ => Err(ParseError::Unexpected(Expected::Decimal, kind(&token))),
    }
}

/// Reads `token` as a decimal field that a negative number leaves empty.
pub fn expect_opt_dec_num(token: Option<Token>) -> (r: Result<Option<u8>, ParseError>)
    ensures
        r == opt_dec_field(view_of(token)),
{
    let v = expect_dec_num(token)?;
    if v < 0 {
        Ok(None)
    } else {
        match to_byte(v as i64) {
            Ok(b) => Ok(Some(b)),
            Err(e) => Err(e),
        }
    }
}

/// Reads `token` as a hexadecimal field.
pub fn expect_hex_num(token: Option<Token>) -> (r: Result<u32, ParseError>)
    ensures
        r == hex_field(view_of(token)),
{
    match token {
        Some(Token::IdentNum(lexeme)) => match lexeme.hex() {
            Ok(v) => Ok(v),
            Err(e) => Err(ParseError::Number(e)),
        },
        _ => Err(ParseError::Unexpected(Expected::Hex, kind(&token))),
    }
}

/// Takes the next token out of `stream`, which has given `k` of `all`.
fn take(stream: &mut Peekable, Ghost(all): Ghost<Seq<TokenView>>, Ghost(k): Ghost<int>) -> (token:
    Option<Token>)
    requires
        old(stream).wf(),
        k >= 0,
        old(stream).rest() == advance(all, k),
    ensures
        final(stream).wf(),
        final(stream).rest() == advance(all, k + 1),
        view_of(token) == at(all, k),
{
    let token = stream.next();
    assert(stream.rest() =~= advance(all, k + 1));
    token
}

/// Reads `token` as a decimal field that holds a byte.
fn dec_byte_of(token: Option<Token>) -> (r: Result<u8, ParseError>)
    ensures
        r == dec_byte(view_of(token)),
{
    let v = expect_dec_num(token)?;
    to_byte(v as i64)
}

/// Reads `token` as a decimal field that is not negative.
fn dec_count_of(token: Option<Token>) -> (r: Result<u32, ParseError>)
    ensures
        r == dec_count(view_of(token)),
{
    let v = expect_dec_num(token)?;
    if v < 0 {
        Err(ParseError::Number(NumError::TooSmall))
    } else {
        Ok(v as u32)
    }
}

/// Reads `token` as a hexadecimal field that holds a byte.
fn hex_byte_of(token: Option<Token>) -> (r: Result<u8, ParseError>)
    ensures
        r == hex_byte(view_of(token)),
{
    let v = expect_hex_num(token)?;
    to_byte(v as i64)
}

/// Reads `token` as a loop flag.
fn loop_flag_of(token: Option<Token>) -> (r: Result<bool, ParseError>)
    ensures
        r == loop_flag(view_of(token)),
{
    let v = expect_dec_num(token)?;
    if v == 0 {
        Ok(false)
    } else if v == 1 {
        Ok(true)
    } else {
        Err(ParseError::LoopFlag)
    }
}

/// Reads a line of one string.
fn read_text_line(stream: &mut Peekable) -> (r: Result<String, ParseError>)
    requires
        old(stream).wf(),
    ensures
        final(stream).wf(),
        match text_line(old(stream).rest()) {
            Ok((text, rest)) => r is Ok && r->Ok_0@ == text && final(stream).rest() == rest,
            Err(e) => r == Err::<String, ParseError>(e),
        },
{
    let ghost all = stream.rest();
    assert(all =~= advance(all, 0));
    let text = expect_str(take(stream, Ghost(all), Ghost(0)))?;
    expect_nl(take(stream, Ghost(all), Ghost(1)))?;
    Ok(text)
}

/// Reads a line of one number.
fn read_count_line(stream: &mut Peekable) -> (r: Result<u32, ParseError>)
    requires
        old(stream).wf(),
    ensures
        final(stream).wf(),
        match count_line(old(stream).rest()) {
            Ok((count, rest)) => r == Ok::<u32, ParseError>(count) && final(stream).rest() == rest,
            Err(e) => r == Err::<u32, ParseError>(e),
        },
{
    let ghost all = stream.rest();
    assert(all =~= advance(all, 0));
    let count = dec_count_of(take(stream, Ghost(all), Ghost(0)))?;
    expect_nl(take(stream, Ghost(all), Ghost(1)))?;
    Ok(count)
}

/// Reads the line of `PLAYBACKRATE`.
fn read_rate_line(stream: &mut Peekable) -> (r: Result<(u32, u32), ParseError>)
    requires
        old(stream).wf(),
    ensures
        final(stream).wf(),
        match rate_line(old(stream).rest()) {
            Ok((rate, rest)) => r == Ok::<(u32, u32), ParseError>(rate) && final(stream).rest()
                == rest,
            Err(e) => r == Err::<(u32, u32), ParseError>(e),
        },
{
    let ghost all = stream.rest();
    assert(all =~= advance(all, 0));
    let a = dec_count_of(take(stream, Ghost(all), Ghost(0)))?;
    let b = dec_count_of(take(stream, Ghost(all), Ghost(1)))?;
    expect_nl(take(stream, Ghost(all), Ghost(2)))?;
    Ok((a, b))
}

/// Reads the line of `TUNING`.
fn read_tuning_line(stream: &mut Peekable) -> (r: Result<(i32, i32), ParseError>)
    requires
        old(stream).wf(),
    ensures
        final(stream).wf(),
        match tuning_line(old(stream).rest()) {
            Ok((tuning, rest)) => r == Ok::<(i32, i32), ParseError>(tuning)
                && final(stream).rest() == rest,
            Err(e) => r == Err::<(i32, i32), ParseError>(e),
        },
{
    let ghost all = stream.rest();
    assert(all =~= advance(all, 0));
    let a = expect_dec_num(take(stream, Ghost(all), Ghost(0)))?;
    let b = expect_dec_num(take(stream, Ghost(all), Ghost(1)))?;
    expect_nl(take(stream, Ghost(all), Ghost(2)))?;
    Ok((a, b))
}

/// A decimal number as a signed byte, where it is one.
fn to_signed_byte(v: i32) -> (r: Result<i8, ParseError>)
    ensures
        r == signed_byte_of(v as int),
{
    if v < -128 {
        Err(ParseError::Number(NumError::TooSmall))
    } else if v > 127 {
        Err(ParseError::Number(NumError::TooLarge))
    } else {
        Ok(v as i8)
    }
}

/// Reads the values of a macro.
fn read_macro_values(stream: &mut Peekable) -> (r: Result<Vec<i8>, ParseError>)
    requires
        old(stream).wf(),
    ensures
        final(stream).wf(),
        match macro_values(old(stream).rest()) {
            Ok((values, rest)) => r is Ok && r->Ok_0@ == values && final(stream).rest() == rest,
            Err(e) => r == Err::<Vec<i8>, ParseError>(e),
        },
{
    let ghost all = stream.rest();
    let mut values: Vec<i8> = Vec::new();
    assert(prepend(values@, macro_values(all)) == macro_values(all)) by {
        if macro_values(all) is Ok {
            assert(values@ + macro_values(all)->Ok_0.0 =~= macro_values(all)->Ok_0.0);
        }
    }
    loop
        invariant
            stream.wf(),
            prepend(values@, macro_values(stream.rest())) == macro_values(all),
            all == old(stream).rest(),
        decreases stream.rest().len(),
    {
        let ghost here = stream.rest();
        let ghost before = values@;
        let token = stream.next();
        match token {
            None => {
                assert(values@ + Seq::<i8>::empty() =~= values@);
                return Ok(values);
            },
            Some(Token::NewLine) => {
                assert(values@ + Seq::<i8>::empty() =~= values@);
                return Ok(values);
            },
            Some(Token::IdentNum(_)) => {
                let number = expect_dec_num(token)?;
                let value = to_signed_byte(number)?;
                values.push(value);
                proof {
                    let tail = macro_values(here.drop_first());
                    if tail is Ok {
                        assert(before + (seq![value] + tail->Ok_0.0) =~= values@ + tail->Ok_0.0);
                    }
                }
            },
            Some(_) => {
                return Err(ParseError::Unexpected(Expected::Decimal, kind(&token)));
            },
        }
    }
}

/// Reads the line of `MACRO`.
fn read_macro_line(stream: &mut Peekable) -> (r: Result<SongMacro, ParseError>)
    requires
        old(stream).wf(),
    ensures
        final(stream).wf(),
        match macro_line(old(stream).rest()) {
            Ok((entry, rest)) => r is Ok && r->Ok_0@ == entry && final(stream).rest() == rest,
            Err(e) => r == Err::<SongMacro, ParseError>(e),
        },
{
    let ghost all = stream.rest();
    assert(all =~= advance(all, 0));
    let m_type = dec_byte_of(take(stream, Ghost(all), Ghost(0)))?;
    let m_id = dec_byte_of(take(stream, Ghost(all), Ghost(1)))?;
    let m_loop = expect_opt_dec_num(take(stream, Ghost(all), Ghost(2)))?;
    let m_release = expect_opt_dec_num(take(stream, Ghost(all), Ghost(3)))?;
    let m_type_specific = dec_byte_of(take(stream, Ghost(all), Ghost(4)))?;
    expect_colon(take(stream, Ghost(all), Ghost(5)))?;
    let vals = read_macro_values(stream)?;
    Ok(SongMacro { m_type, m_id, m_loop, m_release, m_type_specific, vals })
}

/// Reads the line of `INST2A03`.
fn read_instrument_line(stream: &mut Peekable) -> (r: Result<Inst2A03, ParseError>)
    requires
        old(stream).wf(),
    ensures
        final(stream).wf(),
        match instrument_line(old(stream).rest()) {
            Ok((entry, rest)) => r is Ok && r->Ok_0@ == entry && final(stream).rest() == rest,
            Err(e) => r == Err::<Inst2A03, ParseError>(e),
        },
{
    let ghost all = stream.rest();
    assert(all =~= advance(all, 0));
    let id = dec_byte_of(take(stream, Ghost(all), Ghost(0)))?;
    let vol_macro = expect_opt_dec_num(take(stream, Ghost(all), Ghost(1)))?;
    let arp_macro = expect_opt_dec_num(take(stream, Ghost(all), Ghost(2)))?;
    let pitch_macro = expect_opt_dec_num(take(stream, Ghost(all), Ghost(3)))?;
    let high_pitch_macro = expect_opt_dec_num(take(stream, Ghost(all), Ghost(4)))?;
    let duity_macro = expect_opt_dec_num(take(stream, Ghost(all), Ghost(5)))?;
    let name = expect_str(take(stream, Ghost(all), Ghost(6)))?;
    Ok(Inst2A03 { id, vol_macro, arp_macro, pitch_macro, high_pitch_macro, duity_macro, name })
}

/// The note number of a key.
fn key_note_of(octave: u32, note: u32) -> (r: Result<u32, ParseError>)
    ensures
        r == key_note(octave, note),
{
    let wide: u64 = (octave as u64 + 1) * 12 + note as u64;
    if wide > 0xFFFF_FFFF {
        Err(ParseError::Number(NumError::TooLarge))
    } else {
        Ok(wide as u32)
    }
}

/// Reads the line of `KEYDPCM`.
fn read_key_line(stream: &mut Peekable) -> (r: Result<KeyDPCM, ParseError>)
    requires
        old(stream).wf(),
    ensures
        final(stream).wf(),
        match key_line(old(stream).rest()) {
            Ok((entry, rest)) => r == Ok::<KeyDPCM, ParseError>(entry) && final(stream).rest()
                == rest,
            Err(e) => r == Err::<KeyDPCM, ParseError>(e),
        },
{
    let ghost all = stream.rest();
    assert(all =~= advance(all, 0));
    let id = dec_byte_of(take(stream, Ghost(all), Ghost(0)))?;
    let inst_id = dec_byte_of(take(stream, Ghost(all), Ghost(1)))?;
    let octave = dec_count_of(take(stream, Ghost(all), Ghost(2)))?;
    let note = dec_count_of(take(stream, Ghost(all), Ghost(3)))?;
    let midi_note = key_note_of(octave, note)?;
    let dpcm_id = dec_byte_of(take(stream, Ghost(all), Ghost(4)))?;
    let loop_key = loop_flag_of(take(stream, Ghost(all), Ghost(5)))?;
    let loop_point = dec_byte_of(take(stream, Ghost(all), Ghost(6)))?;
    let d_counter = expect_opt_dec_num(take(stream, Ghost(all), Ghost(7)))?;
    Ok(KeyDPCM { id, inst_id, midi_note, dpcm_id, loop_key, loop_point, d_counter })
}

/// Whether the next token is a lexeme. The stream stays as it is.
fn at_lexeme(stream: &mut Peekable) -> (found: bool)
    requires
        old(stream).wf(),
    ensures
        final(stream).wf(),
        final(stream).rest() == old(stream).rest(),
        found == (first(old(stream).rest()) matches Some(TokenView::IdentNum(_))),
{
    match stream.peek() {
        Some(Token::IdentNum(_)) => true,
        _ => false,
    }
}

/// Passes over the line ends that come next, and says whether the token
/// behind them is the word `word`. That token stays in the stream.
fn at_section(stream: &mut Peekable, word: &str) -> (found: bool)
    requires
        old(stream).wf(),
    ensures
        final(stream).wf(),
        final(stream).rest() == skip_newlines(old(stream).rest()),
        skip_newlines(final(stream).rest()) == final(stream).rest(),
        found == at_word(final(stream).rest(), word@),
{
    proof {
        lemma_skip_newlines_twice(stream.rest());
    }
    match stream.peek_skipping_nl() {
        Some(Token::IdentNum(lexeme)) => lexeme.eq(word),
        _ => false,
    }
}

/// Reads the bytes of a sample line and adds them to `data`.
fn read_sample_bytes(stream: &mut Peekable, data: &mut Vec<u8>) -> (r: Result<(), ParseError>)
    requires
        old(stream).wf(),
    ensures
        final(stream).wf(),
        match sample_bytes(old(stream).rest()) {
            Ok((bytes, rest)) => r is Ok && final(data)@ == old(data)@ + bytes
                && final(stream).rest() == rest,
            Err(e) => r == Err::<(), ParseError>(e),
        },
{
    let ghost all = stream.rest();
    let ghost given = data@;
    let ghost mut read: Seq<u8> = Seq::empty();
    assert(prepend(read, sample_bytes(all)) == sample_bytes(all)) by {
        if sample_bytes(all) is Ok {
            assert(read + sample_bytes(all)->Ok_0.0 =~= sample_bytes(all)->Ok_0.0);
        }
    }
    assert(given + read =~= given);
    loop
        invariant
            stream.wf(),
            prepend(read, sample_bytes(stream.rest())) == sample_bytes(all),
            data@ == given + read,
            all == old(stream).rest(),
            given == old(data)@,
        decreases stream.rest().len(),
    {
        let ghost here = stream.rest();
        if !at_lexeme(stream) {
            assert(read + Seq::<u8>::empty() =~= read);
            return Ok(());
        }
        let token = stream.next();
        let number = expect_hex_num(token)?;
        let byte: u8 = (number % 256) as u8;
        data.push(byte);
        proof {
            let tail = sample_bytes(here.drop_first());
            if tail is Ok {
                assert(read + (seq![byte] + tail->Ok_0.0) =~= read.push(byte) + tail->Ok_0.0);
            }
            assert(given + read.push(byte) =~= (given + read).push(byte));
            read = read.push(byte);
        }
    }
}

/// Reads a run of bytes.
fn read_byte_run(stream: &mut Peekable) -> (r: Result<Vec<u8>, ParseError>)
    requires
        old(stream).wf(),
    ensures
        final(stream).wf(),
        match byte_run(old(stream).rest()) {
            Ok((bytes, rest)) => r is Ok && r->Ok_0@ == bytes && final(stream).rest() == rest,
            Err(e) => r == Err::<Vec<u8>, ParseError>(e),
        },
{
    let ghost all = stream.rest();
    let mut bytes: Vec<u8> = Vec::new();
    assert(prepend(bytes@, byte_run(all)) == byte_run(all)) by {
        if byte_run(all) is Ok {
            assert(bytes@ + byte_run(all)->Ok_0.0 =~= byte_run(all)->Ok_0.0);
        }
    }
    loop
        invariant
            stream.wf(),
            prepend(bytes@, byte_run(stream.rest())) == byte_run(all),
            all == old(stream).rest(),
        decreases stream.rest().len(),
    {
        let ghost here = stream.rest();
        let ghost before = bytes@;
        if !at_lexeme(stream) {
            assert(bytes@ + Seq::<u8>::empty() =~= bytes@);
            return Ok(bytes);
        }
        let byte = hex_byte_of(stream.next())?;
        bytes.push(byte);
        proof {
            let tail = byte_run(here.drop_first());
            if tail is Ok {
                assert(before + (seq![byte] + tail->Ok_0.0) =~= bytes@ + tail->Ok_0.0);
            }
        }
    }
}

/// Reads the `DPCM:` lines under a `DPCMDEF`.
fn read_sample_lines(stream: &mut Peekable) -> (r: Result<Vec<u8>, ParseError>)
    requires
        old(stream).wf(),
    ensures
        final(stream).wf(),
        match sample_lines(old(stream).rest()) {
            Ok((bytes, rest)) => r is Ok && r->Ok_0@ == bytes && final(stream).rest() == rest,
            Err(e) => r == Err::<Vec<u8>, ParseError>(e),
        },
{
    let ghost all = stream.rest();
    let mut data: Vec<u8> = Vec::new();
    assert(prepend(data@, sample_lines(all)) == sample_lines(all)) by {
        if sample_lines(all) is Ok {
            assert(data@ + sample_lines(all)->Ok_0.0 =~= sample_lines(all)->Ok_0.0);
        }
    }
    loop
        invariant
            stream.wf(),
            prepend(data@, sample_lines(stream.rest())) == sample_lines(all),
            all == old(stream).rest(),
        decreases stream.rest().len(),
    {
        let ghost before = data@;
        let ghost above = stream.rest();
        if !at_section(stream, "DPCM") {
            assert(data@ + Seq::<u8>::empty() =~= data@);
            return Ok(data);
        }
        let ghost line = stream.rest();
        proof {
            lemma_skip_newlines_len(above);
            lemma_sample_bytes_len(advance(line, 2));
        }
        assert(line =~= advance(line, 0));
        let _ = take(stream, Ghost(line), Ghost(0));
        expect_colon(take(stream, Ghost(line), Ghost(1)))?;
        read_sample_bytes(stream, &mut data)?;
        let ghost run = sample_bytes(advance(line, 2))->Ok_0;
        expect_nl(stream.next())?;
        proof {
            let tail = sample_lines(run.1.drop_first());
            if tail is Ok {
                assert(before + (run.0 + tail->Ok_0.0) =~= data@ + tail->Ok_0.0);
            }
        }
    }
}

/// Reads a `DPCMDEF` with the lines under it.
fn read_sample_def(stream: &mut Peekable) -> (r: Result<SongDpcmSamples, ParseError>)
    requires
        old(stream).wf(),
    ensures
        final(stream).wf(),
        match sample_def(old(stream).rest()) {
            Ok((entry, rest)) => r is Ok && r->Ok_0@ == entry && final(stream).rest() == rest,
            Err(e) => r == Err::<SongDpcmSamples, ParseError>(e),
        },
{
    let ghost all = stream.rest();
    assert(all =~= advance(all, 0));
    let id = dec_byte_of(take(stream, Ghost(all), Ghost(0)))?;
    let length = dec_count_of(take(stream, Ghost(all), Ghost(1)))?;
    let name = expect_str(take(stream, Ghost(all), Ghost(2)))?;
    expect_nl(take(stream, Ghost(all), Ghost(3)))?;
    let data = read_sample_lines(stream)?;
    if data.len() != length as usize {
        return Err(ParseError::DpcmLength);
    }
    Ok(SongDpcmSamples { id, name, data })
}

/// Reads the `COLUMNS` line of a track.
fn read_columns_line(stream: &mut Peekable) -> (r: Result<Vec<u8>, ParseError>)
    requires
        old(stream).wf(),
    ensures
        final(stream).wf(),
        match columns_line(old(stream).rest()) {
            Ok((columns, rest)) => r is Ok && r->Ok_0@ == columns && final(stream).rest() == rest,
            Err(e) => r == Err::<Vec<u8>, ParseError>(e),
        },
{
    let found = match stream.peek_skipping_nl() {
        Some(Token::IdentNum(lexeme)) => Some(lexeme.eq("COLUMNS")),
        _ => None,
    };
    let ghost line = stream.rest();
    match found {
        Some(true) => {
            assert(line =~= advance(line, 0));
            let _ = take(stream, Ghost(line), Ghost(0));
            expect_colon(take(stream, Ghost(line), Ghost(1)))?;
            read_byte_run(stream)
        },
        Some(false) => Err(ParseError::MissingColumns),
        None => {
            let token = stream.next();
            Err(ParseError::Unexpected(Expected::Columns, kind(&token)))
        },
    }
}

/// Reads the `ORDER` lines of a track with `channels` channels.
fn read_order_lines(stream: &mut Peekable, channels: usize) -> (r: Result<
    Vec<(u8, Vec<u8>)>,
    ParseError,
>)
    requires
        old(stream).wf(),
    ensures
        final(stream).wf(),
        match order_lines(old(stream).rest(), channels as nat) {
            Ok((orders, rest)) => r is Ok && orders_view(r->Ok_0@) == orders && final(
                stream).rest() == rest,
            Err(e) => r == Err::<Vec<(u8, Vec<u8>)>, ParseError>(e),
        },
{
    let ghost all = stream.rest();
    let mut orders: Vec<(u8, Vec<u8>)> = Vec::new();
    assert(prepend(orders_view(orders@), order_lines(all, channels as nat)) == order_lines(
        all,
        channels as nat,
    )) by {
        if order_lines(all, channels as nat) is Ok {
            assert(orders_view(orders@) + order_lines(all, channels as nat)->Ok_0.0
                =~= order_lines(all, channels as nat)->Ok_0.0);
        }
    }
    loop
        invariant
            stream.wf(),
            prepend(orders_view(orders@), order_lines(stream.rest(), channels as nat))
                == order_lines(all, channels as nat),
            all == old(stream).rest(),
        decreases stream.rest().len(),
    {
        let ghost before = orders_view(orders@);
        let ghost above = stream.rest();
        if !at_section(stream, "ORDER") {
            assert(before + Seq::<(u8, Seq<u8>)>::empty() =~= before);
            return Ok(orders);
        }
        let ghost line = stream.rest();
        proof {
            lemma_skip_newlines_len(above);
            lemma_byte_run_len(advance(line, 3));
        }
        assert(line =~= advance(line, 0));
        let _ = take(stream, Ghost(line), Ghost(0));
        let id = expect_hex_num(take(stream, Ghost(line), Ghost(1)))?;
        expect_colon(take(stream, Ghost(line), Ghost(2)))?;
        let patterns = read_byte_run(stream)?;
        let ghost run = byte_run(advance(line, 3))->Ok_0;
        expect_nl(stream.next())?;
        if patterns.len() != channels {
            return Err(ParseError::OrderLength);
        }
        let id = to_byte(id as i64)?;
        let ghost entry = (id, patterns@);
        orders.push((id, patterns));
        proof {
            assert(orders_view(orders@) =~= before.push(entry));
            let tail = order_lines(run.1.drop_first(), channels as nat);
            if tail is Ok {
                assert(before + (seq![entry] + tail->Ok_0.0) =~= before.push(entry)
                    + tail->Ok_0.0);
            }
        }
    }
}

/// Reads one cell of a row, for a channel with `slots` effect columns.
fn read_cell(stream: &mut Peekable, slots: u8) -> (r: Result<SheetNote, ParseError>)
    requires
        old(stream).wf(),
    ensures
        final(stream).wf(),
        match cell(old(stream).rest(), slots) {
            Ok((note, rest)) => r is Ok && r->Ok_0@ == note && final(stream).rest() == rest,
            Err(e) => r == Err::<SheetNote, ParseError>(e),
        },
{
    let ghost all = stream.rest();
    assert(all =~= advance(all, 0));
    expect_colon(take(stream, Ghost(all), Ghost(0)))?;
    let note = option_note(take(stream, Ghost(all), Ghost(1)))?;
    let inst = option_instrament(take(stream, Ghost(all), Ghost(2)))?;
    let vol = option_volume(take(stream, Ghost(all), Ghost(3)))?;
    let mut e0: Option<Effect> = None;
    let mut e1: Option<Effect> = None;
    let mut e2: Option<Effect> = None;
    if slots >= 1 {
        e0 = option_effect(take(stream, Ghost(all), Ghost(4)))?;
    }
    if slots >= 2 {
        e1 = option_effect(take(stream, Ghost(all), Ghost(5)))?;
    }
    if slots >= 3 {
        e2 = option_effect(take(stream, Ghost(all), Ghost(6)))?;
    }
    if slots > 3 {
        return Err(ParseError::EffectColumns);
    }
    let efx = [e0, e1, e2];
    assert(efx@ =~= seq![e0, e1, e2]);
    Ok(SheetNote { note, inst, vol, efx })
}

/// Reads the cells of a row, one for each channel of `columns`.
fn read_cells(stream: &mut Peekable, columns: &Vec<u8>) -> (r: Result<Vec<SheetNote>, ParseError>)
    requires
        old(stream).wf(),
    ensures
        final(stream).wf(),
        match cells(old(stream).rest(), columns@) {
            Ok((notes, rest)) => r is Ok && cells_view(r->Ok_0@) == notes && final(stream).rest()
                == rest,
            Err(e) => r == Err::<Vec<SheetNote>, ParseError>(e),
        },
{
    let ghost all = stream.rest();
    let mut notes: Vec<SheetNote> = Vec::new();
    assert(columns@.skip(0) =~= columns@);
    assert(prepend(cells_view(notes@), cells(all, columns@)) == cells(all, columns@)) by {
        if cells(all, columns@) is Ok {
            assert(cells_view(notes@) + cells(all, columns@)->Ok_0.0 =~= cells(
                all,
                columns@,
            )->Ok_0.0);
        }
    }
    let mut i: usize = 0;
    while i < columns.len()
        invariant
            stream.wf(),
            i <= columns.len(),
            prepend(cells_view(notes@), cells(stream.rest(), columns@.skip(i as int))) == cells(
                all,
                columns@,
            ),
            all == old(stream).rest(),
        decreases columns.len() - i,
    {
        let ghost before = cells_view(notes@);
        let ghost left = columns@.skip(i as int);
        assert(left[0] == columns@[i as int]);
        assert(left.drop_first() =~= columns@.skip(i + 1));
        let note = read_cell(stream, columns[i])?;
        notes.push(note);
        proof {
            assert(cells_view(notes@) =~= before.push(note@));
            let tail = cells(stream.rest(), left.drop_first());
            if tail is Ok {
                assert(before + (seq![note@] + tail->Ok_0.0) =~= before.push(note@)
                    + tail->Ok_0.0);
            }
        }
        i = i + 1;
    }
    assert(columns@.skip(i as int).len() == 0);
    assert(cells_view(notes@) + Seq::<SheetNoteView>::empty() =~= cells_view(notes@));
    Ok(notes)
}

/// Reads the `ROW` lines of a pattern of a track with the channels of
/// `columns` and `length` rows to a pattern.
fn read_row_lines(stream: &mut Peekable, columns: &Vec<u8>, length: u32) -> (r: Result<
    Vec<Row>,
    ParseError,
>)
    requires
        old(stream).wf(),
    ensures
        final(stream).wf(),
        match row_lines(old(stream).rest(), columns@, length, 0) {
            Ok((rows, rest)) => r is Ok && rows_view(r->Ok_0@) == rows && final(stream).rest()
                == rest,
            Err(e) => r == Err::<Vec<Row>, ParseError>(e),
        },
{
    let ghost all = stream.rest();
    let mut rows: Vec<Row> = Vec::new();
    assert(prepend(rows_view(rows@), row_lines(all, columns@, length, 0)) == row_lines(
        all,
        columns@,
        length,
        0,
    )) by {
        if row_lines(all, columns@, length, 0) is Ok {
            assert(rows_view(rows@) + row_lines(all, columns@, length, 0)->Ok_0.0 =~= row_lines(
                all,
                columns@,
                length,
                0,
            )->Ok_0.0);
        }
    }
    loop
        invariant
            stream.wf(),
            prepend(
                rows_view(rows@),
                row_lines(stream.rest(), columns@, length, rows.len() as nat),
            ) == row_lines(all, columns@, length, 0),
            all == old(stream).rest(),
        decreases stream.rest().len(),
    {
        let ghost before = rows_view(rows@);
        let ghost above = stream.rest();
        let ghost have = rows.len() as nat;
        if !at_section(stream, "ROW") {
            assert(before + Seq::<RowView>::empty() =~= before);
            return Ok(rows);
        }
        let ghost line = stream.rest();
        proof {
            lemma_skip_newlines_len(above);
            lemma_cells_len(advance(line, 2), columns@);
        }
        assert(line =~= advance(line, 0));
        let _ = take(stream, Ghost(line), Ghost(0));
        let id = hex_byte_of(take(stream, Ghost(line), Ghost(1)))?;
        let sheet_notes = read_cells(stream, columns)?;
        if rows.len() >= length as usize {
            return Err(ParseError::PatternLength);
        }
        let row = Row { id, sheet_notes };
        let ghost entry = row@;
        rows.push(row);
        proof {
            assert(rows_view(rows@) =~= before.push(entry));
            let tail = row_lines(stream.rest(), columns@, length, have + 1);
            if tail is Ok {
                assert(before + (seq![entry] + tail->Ok_0.0) =~= before.push(entry)
                    + tail->Ok_0.0);
            }
        }
    }
}

/// Reads the `PATTERN` blocks of a track.
fn read_pattern_blocks(stream: &mut Peekable, columns: &Vec<u8>, length: u32) -> (r: Result<
    Vec<Pattern>,
    ParseError,
>)
    requires
        old(stream).wf(),
    ensures
        final(stream).wf(),
        match pattern_blocks(old(stream).rest(), columns@, length) {
            Ok((patterns, rest)) => r is Ok && patterns_view(r->Ok_0@) == patterns && final(
                stream).rest() == rest,
            Err(e) => r == Err::<Vec<Pattern>, ParseError>(e),
        },
{
    let ghost all = stream.rest();
    let mut patterns: Vec<Pattern> = Vec::new();
    assert(prepend(patterns_view(patterns@), pattern_blocks(all, columns@, length))
        == pattern_blocks(all, columns@, length)) by {
        if pattern_blocks(all, columns@, length) is Ok {
            assert(patterns_view(patterns@) + pattern_blocks(all, columns@, length)->Ok_0.0
                =~= pattern_blocks(all, columns@, length)->Ok_0.0);
        }
    }
    loop
        invariant
            stream.wf(),
            prepend(patterns_view(patterns@), pattern_blocks(stream.rest(), columns@, length))
                == pattern_blocks(all, columns@, length),
            all == old(stream).rest(),
        decreases stream.rest().len(),
    {
        let ghost before = patterns_view(patterns@);
        let ghost above = stream.rest();
        if !at_section(stream, "PATTERN") {
            assert(before + Seq::<PatternView>::empty() =~= before);
            return Ok(patterns);
        }
        let ghost line = stream.rest();
        proof {
            lemma_skip_newlines_len(above);
            lemma_row_lines_len(advance(line, 2), columns@, length, 0);
        }
        assert(line =~= advance(line, 0));
        let _ = take(stream, Ghost(line), Ghost(0));
        let id = hex_byte_of(take(stream, Ghost(line), Ghost(1)))?;
        let rows = read_row_lines(stream, columns, length)?;
        let pattern = Pattern { id, rows };
        let ghost entry = pattern@;
        patterns.push(pattern);
        proof {
            assert(patterns_view(patterns@) =~= before.push(entry));
            let tail = pattern_blocks(stream.rest(), columns@, length);
            if tail is Ok {
                assert(before + (seq![entry] + tail->Ok_0.0) =~= before.push(entry)
                    + tail->Ok_0.0);
            }
        }
    }
}

/// Reads a `TRACK` with what stands under it.
fn read_track(stream: &mut Peekable) -> (r: Result<Track, ParseError>)
    requires
        old(stream).wf(),
    ensures
        final(stream).wf(),
        match track(old(stream).rest()) {
            Ok((entry, rest)) => r is Ok && r->Ok_0@ == entry && final(stream).rest() == rest,
            Err(e) => r == Err::<Track, ParseError>(e),
        },
{
    let ghost all = stream.rest();
    assert(all =~= advance(all, 0));
    let pattern_length = dec_count_of(take(stream, Ghost(all), Ghost(0)))?;
    let speed = dec_count_of(take(stream, Ghost(all), Ghost(1)))?;
    let temp = dec_count_of(take(stream, Ghost(all), Ghost(2)))?;
    let name = expect_str(take(stream, Ghost(all), Ghost(3)))?;
    let comumns = read_columns_line(stream)?;
    let pattern_order = read_order_lines(stream, comumns.len())?;
    let patterns = read_pattern_blocks(stream, &comumns, pattern_length)?;
    Ok(Track { pattern_length, speed, temp, name, comumns, pattern_order, patterns })
}

/// Reads what stands behind the command `word`, and changes `file` as the
/// command says.
fn read_command(stream: &mut Peekable, word: &IdentNum, file: &mut SoundFile) -> (r: Result<
    (),
    ParseError,
>)
    requires
        old(stream).wf(),
    ensures
        final(stream).wf(),
        match command(word@, old(stream).rest(), old(file)@) {
            Ok((next, rest)) => r is Ok && final(file)@ == next && final(stream).rest() == rest,
            Err(e) => r == Err::<(), ParseError>(e),
        },
{
    if word.eq("TITLE") {
        file.title = read_text_line(stream)?;
    } else if word.eq("AUTHOR") {
        file.author = read_text_line(stream)?;
    } else if word.eq("COPYRIGHT") {
        file.copyright = read_text_line(stream)?;
    } else if word.eq("COMMENT") {
        let line = read_text_line(stream)?;
        file.comment.append(line.as_str());
        file.comment.append("\n");
        proof {
            reveal_strlit("\n");
            assert("\n"@ =~= seq!['\n']);
        }
    } else if word.eq("MACHINE") {
        file.machine = read_count_line(stream)?;
    } else if word.eq("EXPANSION") {
        file.expansion = read_count_line(stream)?;
    } else if word.eq("VIBRATO") {
        file.vibrato = read_count_line(stream)?;
    } else if word.eq("SPLIT") {
        file.split = read_count_line(stream)?;
    } else if word.eq("PLAYBACKRATE") {
        file.playbackrate = read_rate_line(stream)?;
    } else if word.eq("TUNING") {
        file.tuning = read_tuning_line(stream)?;
    } else if word.eq("MACRO") {
        let entry = read_macro_line(stream)?;
        let ghost before = macros_view(file.macros@);
        let ghost view = entry@;
        file.macros.push(entry);
        assert(macros_view(file.macros@) =~= before.push(view));
    } else if word.eq("DPCMDEF") {
        let entry = read_sample_def(stream)?;
        let ghost before = samples_view(file.dpcmdef@);
        let ghost view = entry@;
        file.dpcmdef.push(entry);
        assert(samples_view(file.dpcmdef@) =~= before.push(view));
    } else if word.eq("INST2A03") {
        let entry = read_instrument_line(stream)?;
        let ghost before = instruments_view(file.inst2a03@);
        let ghost view = entry@;
        file.inst2a03.push(entry);
        assert(instruments_view(file.inst2a03@) =~= before.push(view));
    } else if word.eq("KEYDPCM") {
        let entry = read_key_line(stream)?;
        file.keydpcm.push(entry);
    } else if word.eq("TRACK") {
        let entry = read_track(stream)?;
        let ghost before = tracks_view(file.tracks@);
        let ghost view = entry@;
        file.tracks.push(entry);
        assert(tracks_view(file.tracks@) =~= before.push(view));
    } else {
        return Err(ParseError::UnknownCommand);
    }
    Ok(())
}

/// Reads a whole document. The result is the document that the tokens of
/// `text` make of the empty document, or the error of the first thing in
/// the text that is not as the grammar asks. A document that is returned is
/// valid.
pub fn read_text(text: &str) -> (r: Result<SoundFile, ParseError>)
    ensures
        match document(tokens_of(text@), empty_sound_file()) {
            Ok(file) => r is Ok && r->Ok_0@ == file,
            Err(e) => r == Err::<SoundFile, ParseError>(e),
        },
        r is Ok ==> valid_sound_file(r->Ok_0@),
{
    proof {
        if document(tokens_of(text@), empty_sound_file()) is Ok {
            lemma_document_valid(tokens_of(text@), empty_sound_file());
        }
    }
    let mut file = SoundFile::default();
    let mut stream = Tokenizer::from_str(text).peekable();
    loop
        invariant
            stream.wf(),
            document(stream.rest(), file@) == document(tokens_of(text@), empty_sound_file()),
            document(tokens_of(text@), empty_sound_file()) is Ok ==> valid_sound_file(
                document(tokens_of(text@), empty_sound_file())->Ok_0,
            ),
        decreases stream.rest().len(),
    {
        let ghost here = stream.rest();
        let ghost so_far = file@;
        let token = stream.next();
        match token {
            None => {
                return Ok(file);
            },
            Some(Token::IdentNum(word)) => {
                proof {
                    lemma_command_len(word@, here.drop_first(), so_far);
                }
                read_command(&mut stream, &word, &mut file)?;
            },
            Some(Token::NewLine) => {},
            Some(Token::Empty) => {
                return Err(ParseError::EmptyToken);
            },
            Some(Token::Error(c, place)) => {
                return Err(ParseError::Lexical(c, place));
            },
            Some(_) => {
                return Err(ParseError::Unexpected(Expected::Command, kind(&token)));
            },
        }
    }
}

} // verus!
