//! The grammar of the text format, as functions from the tokens that are
//! still to come to what a rule reads and the tokens behind it. A rule
//! fails with the error of the first thing, in reading order, that is not
//! as it asks.

use vstd::prelude::*;
use crate::error::{Expected, NumError, ParseError, TokenKind};
use crate::number::{decode_signed, decode_unsigned};
use crate::sound_file::{
    decode_effect, Effect, Inst2A03View, Note, KeyDPCM, PatternView, RowView, SheetNoteView, SongDpcmSamplesView,
    SongMacroView, SoundFileView, TrackView,
};
use crate::tokenizer::{first, skip_newlines, TokenView};

verus! {

/// The token at place `k` of `tokens`, if there is one.
pub open spec fn at(tokens: Seq<TokenView>, k: int) -> Option<TokenView> {
    if 0 <= k < tokens.len() {
        Some(tokens[k])
    } else {
        None
    }
}

/// `tokens` without its first `k`, or without any where it has fewer.
pub open spec fn advance(tokens: Seq<TokenView>, k: int) -> Seq<TokenView> {
    if 0 <= k <= tokens.len() {
        tokens.skip(k)
    } else {
        Seq::empty()
    }
}

/// The kind of a token, `End` where there is none.
pub open spec fn kind_of(token: Option<TokenView>) -> TokenKind {
    match token {
        Some(TokenView::IdentNum(_)) => TokenKind::IdentNum,
        Some(TokenView::Colon) => TokenKind::Colon,
        Some(TokenView::String(_)) => TokenKind::String,
        Some(TokenView::Note(_)) => TokenKind::Note,
        Some(TokenView::Dot) => TokenKind::Dot,
        Some(TokenView::DotDot) => TokenKind::DotDot,
        Some(TokenView::DotDotDot) => TokenKind::DotDotDot,
        Some(TokenView::NewLine) => TokenKind::NewLine,
        Some(TokenView::Empty) => TokenKind::Empty,
        Some(TokenView::Error(_, _)) => TokenKind::Error,
        None => TokenKind::End,
    }
}

/// The error for a token that is not what a rule asked for.
pub open spec fn unexpected(wanted: Expected, found: Option<TokenView>) -> ParseError {
    ParseError::Unexpected(wanted, kind_of(found))
}

/// A lexeme read as a hexadecimal number.
pub open spec fn hex_value(lexeme: Seq<char>) -> Result<u32, ParseError> {
    match decode_unsigned(lexeme, 16, u32::MAX as int) {
        Ok(v) => Ok(v as u32),
        Err(e) => Err(ParseError::Number(e)),
    }
}

/// A lexeme read as a decimal number.
pub open spec fn dec_value(lexeme: Seq<char>) -> Result<i32, ParseError> {
    match decode_signed(lexeme, 10, 0x8000_0000, 0x7FFF_FFFF) {
        Ok(v) => Ok(v as i32),
        Err(e) => Err(ParseError::Number(e)),
    }
}

/// A number as a byte, where it is one.
pub open spec fn byte_of(v: int) -> Result<u8, ParseError> {
    if v < 0 {
        Err(ParseError::Number(NumError::TooSmall))
    } else if v > u8::MAX {
        Err(ParseError::Number(NumError::TooLarge))
    } else {
        Ok(v as u8)
    }
}

/// A pitch cell: a note, or `...` for none.
pub open spec fn note_field(token: Option<TokenView>) -> Result<Option<Note>, ParseError> {
    match token {
        Some(TokenView::Note(note)) => Ok(Some(note)),
        Some(TokenView::DotDotDot) => Ok(None),
        _ => Err(unexpected(Expected::Note, token)),
    }
}

/// An instrument cell: a hexadecimal byte, or `..` for none.
pub open spec fn instrument_field(token: Option<TokenView>) -> Result<Option<u8>, ParseError> {
    match token {
        Some(TokenView::IdentNum(lexeme)) => match hex_value(lexeme) {
            Ok(v) => match byte_of(v as int) {
                Ok(b) => Ok(Some(b)),
                Err(e) => Err(e),
            },
            Err(e) => Err(e),
        },
        Some(TokenView::DotDot) => Ok(None),
        _ => Err(unexpected(Expected::Instrument, token)),
    }
}

/// A volume cell: a hexadecimal number up to 15, or `.` for none.
pub open spec fn volume_field(token: Option<TokenView>) -> Result<Option<u8>, ParseError> {
    match token {
        Some(TokenView::IdentNum(lexeme)) => match hex_value(lexeme) {
            Ok(v) => if v > 15 {
                Err(ParseError::Volume)
            } else {
                Ok(Some(v as u8))
            },
            Err(e) => Err(e),
        },
        Some(TokenView::Dot) => Ok(None),
        _ => Err(unexpected(Expected::Volume, token)),
    }
}

/// An effect cell: an effect code, or `...` for none.
pub open spec fn effect_field(token: Option<TokenView>) -> Result<Option<Effect>, ParseError> {
    match token {
        Some(TokenView::IdentNum(lexeme)) => match decode_effect(lexeme) {
            Ok(effect) => Ok(Some(effect)),
            Err(e) => Err(ParseError::Effect(e)),
        },
        Some(TokenView::DotDotDot) => Ok(None),
        _ => Err(unexpected(Expected::Effect, token)),
    }
}

/// A string field.
pub open spec fn str_field(token: Option<TokenView>) -> Result<Seq<char>, ParseError> {
    match token {
        Some(TokenView::String(text)) => Ok(text),
        _ => Err(unexpected(Expected::String, token)),
    }
}

/// The end of a line.
pub open spec fn nl_field(token: Option<TokenView>) -> Result<(), ParseError> {
    match token {
        Some(TokenView::NewLine) => Ok(()),
        _ => Err(unexpected(Expected::NewLine, token)),
    }
}

/// A colon.
pub open spec fn colon_field(token: Option<TokenView>) -> Result<(), ParseError> {
    match token {
        Some(TokenView::Colon) => Ok(()),
        _ => Err(unexpected(Expected::Colon, token)),
    }
}

/// A decimal field.
pub open spec fn dec_field(token: Option<TokenView>) -> Result<i32, ParseError> {
    match token {
        Some(TokenView::IdentNum(lexeme)) => dec_value(lexeme),
        _ => Err(unexpected(Expected::Decimal, token)),
    }
}

/// A decimal field that a negative number leaves empty, and that else
/// holds a byte.
pub open spec fn opt_dec_field(token: Option<TokenView>) -> Result<Option<u8>, ParseError> {
    match dec_field(token) {
        Ok(v) => if v < 0 {
            Ok(None)
        } else {
            match byte_of(v as int) {
                Ok(b) => Ok(Some(b)),
                Err(e) => Err(e),
            }
        },
        Err(e) => Err(e),
    }
}

/// A hexadecimal field.
pub open spec fn hex_field(token: Option<TokenView>) -> Result<u32, ParseError> {
    match token {
        Some(TokenView::IdentNum(lexeme)) => hex_value(lexeme),
        _ => Err(unexpected(Expected::Hex, token)),
    }
}

/// What a run gives where `prefix` was read before it.
pub open spec fn prepend<T>(
    prefix: Seq<T>,
    run: Result<(Seq<T>, Seq<TokenView>), ParseError>,
) -> Result<(Seq<T>, Seq<TokenView>), ParseError> {
    match run {
        Ok((items, rest)) => Ok((prefix + items, rest)),
        Err(e) => Err(e),
    }
}

/// Behind the line ends that were skipped there is no line end to skip.
pub proof fn lemma_skip_newlines_twice(tokens: Seq<TokenView>)
    ensures
        skip_newlines(skip_newlines(tokens)) == skip_newlines(tokens),
    decreases tokens.len(),
{
    if tokens.len() > 0 && tokens[0] == TokenView::NewLine {
        lemma_skip_newlines_twice(tokens.drop_first());
    }
}

/// A decimal field that holds a byte.
pub open spec fn dec_byte(token: Option<TokenView>) -> Result<u8, ParseError> {
    match dec_field(token) {
        Ok(v) => byte_of(v as int),
        Err(e) => Err(e),
    }
}

/// A decimal field that is not negative.
pub open spec fn dec_count(token: Option<TokenView>) -> Result<u32, ParseError> {
    match dec_field(token) {
        Ok(v) => if v < 0 {
            Err(ParseError::Number(NumError::TooSmall))
        } else {
            Ok(v as u32)
        },
        Err(e) => Err(e),
    }
}

/// A signed byte out of a decimal number.
pub open spec fn signed_byte_of(v: int) -> Result<i8, ParseError> {
    if v < i8::MIN {
        Err(ParseError::Number(NumError::TooSmall))
    } else if v > i8::MAX {
        Err(ParseError::Number(NumError::TooLarge))
    } else {
        Ok(v as i8)
    }
}

/// A hexadecimal field that holds a byte.
pub open spec fn hex_byte(token: Option<TokenView>) -> Result<u8, ParseError> {
    match hex_field(token) {
        Ok(v) => byte_of(v as int),
        Err(e) => Err(e),
    }
}

/// A line of one string: `TITLE`, `AUTHOR`, `COPYRIGHT`, `COMMENT`.
pub open spec fn text_line(tokens: Seq<TokenView>) -> Result<
    (Seq<char>, Seq<TokenView>),
    ParseError,
> {
    let text = str_field(at(tokens, 0));
    let end = nl_field(at(tokens, 1));
    if text is Err {
        Err(text->Err_0)
    } else if end is Err {
        Err(end->Err_0)
    } else {
        Ok((text->Ok_0, advance(tokens, 2)))
    }
}

/// A line of one number: `MACHINE`, `EXPANSION`, `VIBRATO`, `SPLIT`.
pub open spec fn count_line(tokens: Seq<TokenView>) -> Result<(u32, Seq<TokenView>), ParseError> {
    let count = dec_count(at(tokens, 0));
    let end = nl_field(at(tokens, 1));
    if count is Err {
        Err(count->Err_0)
    } else if end is Err {
        Err(end->Err_0)
    } else {
        Ok((count->Ok_0, advance(tokens, 2)))
    }
}

/// The line of `PLAYBACKRATE`: two numbers that are not negative.
pub open spec fn rate_line(tokens: Seq<TokenView>) -> Result<
    ((u32, u32), Seq<TokenView>),
    ParseError,
> {
    let a = dec_count(at(tokens, 0));
    let b = dec_count(at(tokens, 1));
    let end = nl_field(at(tokens, 2));
    if a is Err {
        Err(a->Err_0)
    } else if b is Err {
        Err(b->Err_0)
    } else if end is Err {
        Err(end->Err_0)
    } else {
        Ok(((a->Ok_0, b->Ok_0), advance(tokens, 3)))
    }
}

/// The line of `TUNING`: two numbers.
pub open spec fn tuning_line(tokens: Seq<TokenView>) -> Result<
    ((i32, i32), Seq<TokenView>),
    ParseError,
> {
    let a = dec_field(at(tokens, 0));
    let b = dec_field(at(tokens, 1));
    let end = nl_field(at(tokens, 2));
    if a is Err {
        Err(a->Err_0)
    } else if b is Err {
        Err(b->Err_0)
    } else if end is Err {
        Err(end->Err_0)
    } else {
        Ok(((a->Ok_0, b->Ok_0), advance(tokens, 3)))
    }
}

/// The values of a macro: decimal signed bytes up to the end of the line,
/// or of the text.
pub open spec fn macro_values(tokens: Seq<TokenView>) -> Result<
    (Seq<i8>, Seq<TokenView>),
    ParseError,
>
    decreases tokens.len(),
{
    match first(tokens) {
        None => Ok((Seq::empty(), tokens)),
        Some(TokenView::NewLine) => Ok((Seq::empty(), tokens.drop_first())),
        Some(TokenView::IdentNum(lexeme)) => match dec_field(first(tokens)) {
            Err(e) => Err(e),
            Ok(v) => match signed_byte_of(v as int) {
                Err(e) => Err(e),
                Ok(value) => match macro_values(tokens.drop_first()) {
                    Err(e) => Err(e),
                    Ok((values, rest)) => Ok((seq![value] + values, rest)),
                },
            },
        },
        Some(_) => Err(unexpected(Expected::Decimal, first(tokens))),
    }
}

/// The line of `MACRO`: type, id, loop point, release point and one more
/// number, a colon, and the values.
pub open spec fn macro_line(tokens: Seq<TokenView>) -> Result<
    (SongMacroView, Seq<TokenView>),
    ParseError,
> {
    let m_type = dec_byte(at(tokens, 0));
    let m_id = dec_byte(at(tokens, 1));
    let m_loop = opt_dec_field(at(tokens, 2));
    let m_release = opt_dec_field(at(tokens, 3));
    let m_type_specific = dec_byte(at(tokens, 4));
    let colon = colon_field(at(tokens, 5));
    let values = macro_values(advance(tokens, 6));
    if m_type is Err {
        Err(m_type->Err_0)
    } else if m_id is Err {
        Err(m_id->Err_0)
    } else if m_loop is Err {
        Err(m_loop->Err_0)
    } else if m_release is Err {
        Err(m_release->Err_0)
    } else if m_type_specific is Err {
        Err(m_type_specific->Err_0)
    } else if colon is Err {
        Err(colon->Err_0)
    } else if values is Err {
        Err(values->Err_0)
    } else {
        Ok(
            (
                SongMacroView {
                    m_type: m_type->Ok_0,
                    m_id: m_id->Ok_0,
                    m_loop: m_loop->Ok_0,
                    m_release: m_release->Ok_0,
                    m_type_specific: m_type_specific->Ok_0,
                    vals: values->Ok_0.0,
                },
                values->Ok_0.1,
            ),
        )
    }
}

/// The line of `INST2A03`: an id, five macros that may be missing, and a
/// name.
pub open spec fn instrument_line(tokens: Seq<TokenView>) -> Result<
    (Inst2A03View, Seq<TokenView>),
    ParseError,
> {
    let id = dec_byte(at(tokens, 0));
    let vol = opt_dec_field(at(tokens, 1));
    let arp = opt_dec_field(at(tokens, 2));
    let pitch = opt_dec_field(at(tokens, 3));
    let high = opt_dec_field(at(tokens, 4));
    let duty = opt_dec_field(at(tokens, 5));
    let name = str_field(at(tokens, 6));
    if id is Err {
        Err(id->Err_0)
    } else if vol is Err {
        Err(vol->Err_0)
    } else if arp is Err {
        Err(arp->Err_0)
    } else if pitch is Err {
        Err(pitch->Err_0)
    } else if high is Err {
        Err(high->Err_0)
    } else if duty is Err {
        Err(duty->Err_0)
    } else if name is Err {
        Err(name->Err_0)
    } else {
        Ok(
            (
                Inst2A03View {
                    id: id->Ok_0,
                    vol_macro: vol->Ok_0,
                    arp_macro: arp->Ok_0,
                    pitch_macro: pitch->Ok_0,
                    high_pitch_macro: high->Ok_0,
                    duity_macro: duty->Ok_0,
                    name: name->Ok_0,
                },
                advance(tokens, 7),
            ),
        )
    }
}

/// The note number of a key: twelve for each octave, the lowest counted as
/// one, plus the place of the note in its octave.
pub open spec fn key_note(octave: u32, note: u32) -> Result<u32, ParseError> {
    if (octave + 1) * 12 + note > u32::MAX {
        Err(ParseError::Number(NumError::TooLarge))
    } else {
        Ok(((octave + 1) * 12 + note) as u32)
    }
}

/// A loop flag: 0 or 1.
pub open spec fn loop_flag(token: Option<TokenView>) -> Result<bool, ParseError> {
    match dec_field(token) {
        Ok(v) => if v == 0 {
            Ok(false)
        } else if v == 1 {
            Ok(true)
        } else {
            Err(ParseError::LoopFlag)
        },
        Err(e) => Err(e),
    }
}

/// The line of `KEYDPCM`: id, instrument, octave and note, sample, loop
/// flag, loop point, and a counter seed that may be missing.
pub open spec fn key_line(tokens: Seq<TokenView>) -> Result<(KeyDPCM, Seq<TokenView>), ParseError> {
    let id = dec_byte(at(tokens, 0));
    let inst_id = dec_byte(at(tokens, 1));
    let octave = dec_count(at(tokens, 2));
    let note = dec_count(at(tokens, 3));
    let dpcm_id = dec_byte(at(tokens, 4));
    let loop_key = loop_flag(at(tokens, 5));
    let loop_point = dec_byte(at(tokens, 6));
    let d_counter = opt_dec_field(at(tokens, 7));
    if id is Err {
        Err(id->Err_0)
    } else if inst_id is Err {
        Err(inst_id->Err_0)
    } else if octave is Err {
        Err(octave->Err_0)
    } else if note is Err {
        Err(note->Err_0)
    } else if key_note(octave->Ok_0, note->Ok_0) is Err {
        Err(key_note(octave->Ok_0, note->Ok_0)->Err_0)
    } else if dpcm_id is Err {
        Err(dpcm_id->Err_0)
    } else if loop_key is Err {
        Err(loop_key->Err_0)
    } else if loop_point is Err {
        Err(loop_point->Err_0)
    } else if d_counter is Err {
        Err(d_counter->Err_0)
    } else {
        Ok(
            (
                KeyDPCM {
                    id: id->Ok_0,
                    inst_id: inst_id->Ok_0,
                    midi_note: key_note(octave->Ok_0, note->Ok_0)->Ok_0,
                    dpcm_id: dpcm_id->Ok_0,
                    loop_key: loop_key->Ok_0,
                    loop_point: loop_point->Ok_0,
                    d_counter: d_counter->Ok_0,
                },
                advance(tokens, 8),
            ),
        )
    }
}

/// Whether the next token is the word `word`.
pub open spec fn at_word(tokens: Seq<TokenView>, word: Seq<char>) -> bool {
    first(tokens) == Some(TokenView::IdentNum(word))
}

/// Skipping line ends adds no token.
pub proof fn lemma_skip_newlines_len(tokens: Seq<TokenView>)
    ensures
        skip_newlines(tokens).len() <= tokens.len(),
    decreases tokens.len(),
{
    if tokens.len() > 0 && tokens[0] == TokenView::NewLine {
        lemma_skip_newlines_len(tokens.drop_first());
    }
}

/// The bytes of a sample line: every lexeme that comes next, each read as
/// a hexadecimal number and cut down to its low eight bits.
pub open spec fn sample_bytes(tokens: Seq<TokenView>) -> Result<
    (Seq<u8>, Seq<TokenView>),
    ParseError,
>
    decreases tokens.len(),
{
    match first(tokens) {
        Some(TokenView::IdentNum(lexeme)) => match hex_field(first(tokens)) {
            Err(e) => Err(e),
            Ok(v) => match sample_bytes(tokens.drop_first()) {
                Err(e) => Err(e),
                Ok((bytes, rest)) => Ok((seq![(v % 256) as u8] + bytes, rest)),
            },
        },
        _ => Ok((Seq::empty(), tokens)),
    }
}

/// A run of bytes: every lexeme that comes next, each read as a hexadecimal
/// byte.
pub open spec fn byte_run(tokens: Seq<TokenView>) -> Result<(Seq<u8>, Seq<TokenView>), ParseError>
    decreases tokens.len(),
{
    match first(tokens) {
        Some(TokenView::IdentNum(lexeme)) => match hex_byte(first(tokens)) {
            Err(e) => Err(e),
            Ok(byte) => match byte_run(tokens.drop_first()) {
                Err(e) => Err(e),
                Ok((bytes, rest)) => Ok((seq![byte] + bytes, rest)),
            },
        },
        _ => Ok((Seq::empty(), tokens)),
    }
}

/// A run of sample bytes leaves no more tokens than it found.
pub proof fn lemma_sample_bytes_len(tokens: Seq<TokenView>)
    ensures
        sample_bytes(tokens) is Ok ==> sample_bytes(tokens)->Ok_0.1.len() <= tokens.len(),
    decreases tokens.len(),
{
    if tokens.len() > 0 {
        lemma_sample_bytes_len(tokens.drop_first());
    }
}

/// A run of bytes leaves no more tokens than it found.
pub proof fn lemma_byte_run_len(tokens: Seq<TokenView>)
    ensures
        byte_run(tokens) is Ok ==> byte_run(tokens)->Ok_0.1.len() <= tokens.len(),
    decreases tokens.len(),
{
    if tokens.len() > 0 {
        lemma_byte_run_len(tokens.drop_first());
    }
}

/// The `DPCM:` lines under a `DPCMDEF`, blank lines between them passed
/// over: all their bytes, in order. The lines end before the first token
/// that is not the word `DPCM`.
pub open spec fn sample_lines(tokens: Seq<TokenView>) -> Result<
    (Seq<u8>, Seq<TokenView>),
    ParseError,
>
    decreases tokens.len(),
{
    let line = skip_newlines(tokens);
    if at_word(line, "DPCM"@) {
        let colon = colon_field(at(line, 1));
        let run = sample_bytes(advance(line, 2));
        if colon is Err {
            Err(colon->Err_0)
        } else if run is Err {
            Err(run->Err_0)
        } else if nl_field(first(run->Ok_0.1)) is Err {
            Err(nl_field(first(run->Ok_0.1))->Err_0)
        } else {
            proof {
                lemma_skip_newlines_len(tokens);
                lemma_sample_bytes_len(advance(line, 2));
            }
            match sample_lines(run->Ok_0.1.drop_first()) {
                Err(e) => Err(e),
                Ok((bytes, rest)) => Ok((run->Ok_0.0 + bytes, rest)),
            }
        }
    } else {
        Ok((Seq::empty(), line))
    }
}

/// A `DPCMDEF` with the lines under it: id, declared length and name, and
/// as many bytes as declared.
pub open spec fn sample_def(tokens: Seq<TokenView>) -> Result<
    (SongDpcmSamplesView, Seq<TokenView>),
    ParseError,
> {
    let id = dec_byte(at(tokens, 0));
    let length = dec_count(at(tokens, 1));
    let name = str_field(at(tokens, 2));
    let end = nl_field(at(tokens, 3));
    let lines = sample_lines(advance(tokens, 4));
    if id is Err {
        Err(id->Err_0)
    } else if length is Err {
        Err(length->Err_0)
    } else if name is Err {
        Err(name->Err_0)
    } else if end is Err {
        Err(end->Err_0)
    } else if lines is Err {
        Err(lines->Err_0)
    } else if lines->Ok_0.0.len() != length->Ok_0 {
        Err(ParseError::DpcmLength)
    } else {
        Ok(
            (
                SongDpcmSamplesView { id: id->Ok_0, name: name->Ok_0, data: lines->Ok_0.0 },
                lines->Ok_0.1,
            ),
        )
    }
}

/// The `COLUMNS` line of a track, blank lines before it passed over: the
/// number of effect columns of each channel.
pub open spec fn columns_line(tokens: Seq<TokenView>) -> Result<
    (Seq<u8>, Seq<TokenView>),
    ParseError,
> {
    let line = skip_newlines(tokens);
    match first(line) {
        Some(TokenView::IdentNum(word)) => if word == "COLUMNS"@ {
            match colon_field(at(line, 1)) {
                Err(e) => Err(e),
                Ok(_) => byte_run(advance(line, 2)),
            }
        } else {
            Err(ParseError::MissingColumns)
        },
        _ => Err(unexpected(Expected::Columns, first(line))),
    }
}

/// The `ORDER` lines of a track, blank lines between them passed over. Each
/// holds an id and one pattern for each of the `channels`.
pub open spec fn order_lines(tokens: Seq<TokenView>, channels: nat) -> Result<
    (Seq<(u8, Seq<u8>)>, Seq<TokenView>),
    ParseError,
>
    decreases tokens.len(),
{
    let line = skip_newlines(tokens);
    if at_word(line, "ORDER"@) {
        let id = hex_field(at(line, 1));
        let colon = colon_field(at(line, 2));
        let run = byte_run(advance(line, 3));
        if id is Err {
            Err(id->Err_0)
        } else if colon is Err {
            Err(colon->Err_0)
        } else if run is Err {
            Err(run->Err_0)
        } else if nl_field(first(run->Ok_0.1)) is Err {
            Err(nl_field(first(run->Ok_0.1))->Err_0)
        } else if run->Ok_0.0.len() != channels {
            Err(ParseError::OrderLength)
        } else if byte_of(id->Ok_0 as int) is Err {
            Err(byte_of(id->Ok_0 as int)->Err_0)
        } else {
            proof {
                lemma_skip_newlines_len(tokens);
                lemma_byte_run_len(advance(line, 3));
            }
            match order_lines(run->Ok_0.1.drop_first(), channels) {
                Err(e) => Err(e),
                Ok((orders, rest)) => Ok(
                    (seq![(byte_of(id->Ok_0 as int)->Ok_0, run->Ok_0.0)] + orders, rest),
                ),
            }
        }
    } else {
        Ok((Seq::empty(), line))
    }
}

/// One cell of a row: a colon, pitch, instrument and volume, and one effect
/// for each of the `slots` that the channel declares. A cell has room for
/// three effects; a channel that declares more cannot have a row.
pub open spec fn cell(tokens: Seq<TokenView>, slots: u8) -> Result<
    (SheetNoteView, Seq<TokenView>),
    ParseError,
> {
    let colon = colon_field(at(tokens, 0));
    let note = note_field(at(tokens, 1));
    let inst = instrument_field(at(tokens, 2));
    let vol = volume_field(at(tokens, 3));
    let e0 = if slots >= 1 { effect_field(at(tokens, 4)) } else { Ok(None) };
    let e1 = if slots >= 2 { effect_field(at(tokens, 5)) } else { Ok(None) };
    let e2 = if slots >= 3 { effect_field(at(tokens, 6)) } else { Ok(None) };
    if colon is Err {
        Err(colon->Err_0)
    } else if note is Err {
        Err(note->Err_0)
    } else if inst is Err {
        Err(inst->Err_0)
    } else if vol is Err {
        Err(vol->Err_0)
    } else if e0 is Err {
        Err(e0->Err_0)
    } else if e1 is Err {
        Err(e1->Err_0)
    } else if e2 is Err {
        Err(e2->Err_0)
    } else if slots > 3 {
        Err(ParseError::EffectColumns)
    } else {
        Ok(
            (
                SheetNoteView {
                    note: note->Ok_0,
                    inst: inst->Ok_0,
                    vol: vol->Ok_0,
                    efx: seq![e0->Ok_0, e1->Ok_0, e2->Ok_0],
                },
                advance(tokens, 4 + slots),
            ),
        )
    }
}

/// The cells of a row: one for each channel, in the order of `columns`.
pub open spec fn cells(tokens: Seq<TokenView>, columns: Seq<u8>) -> Result<
    (Seq<SheetNoteView>, Seq<TokenView>),
    ParseError,
>
    decreases columns.len(),
{
    if columns.len() == 0 {
        Ok((Seq::empty(), tokens))
    } else {
        match cell(tokens, columns[0]) {
            Err(e) => Err(e),
            Ok((note, behind)) => match cells(behind, columns.drop_first()) {
                Err(e) => Err(e),
                Ok((notes, rest)) => Ok((seq![note] + notes, rest)),
            },
        }
    }
}

/// The cells of a row leave no more tokens than they found.
pub proof fn lemma_cells_len(tokens: Seq<TokenView>, columns: Seq<u8>)
    ensures
        cells(tokens, columns) is Ok ==> cells(tokens, columns)->Ok_0.1.len() <= tokens.len(),
    decreases columns.len(),
{
    if columns.len() > 0 {
        if cell(tokens, columns[0]) is Ok {
            lemma_cells_len(cell(tokens, columns[0])->Ok_0.1, columns.drop_first());
        }
    }
}

/// The `ROW` lines of a pattern, blank lines between them passed over.
/// `have` rows stand in the pattern already, and no row may be added to a
/// pattern that has `length` of them.
pub open spec fn row_lines(tokens: Seq<TokenView>, columns: Seq<u8>, length: u32, have: nat) -> Result<
    (Seq<RowView>, Seq<TokenView>),
    ParseError,
>
    decreases tokens.len(),
{
    let line = skip_newlines(tokens);
    if at_word(line, "ROW"@) {
        let id = hex_byte(at(line, 1));
        let notes = cells(advance(line, 2), columns);
        if id is Err {
            Err(id->Err_0)
        } else if notes is Err {
            Err(notes->Err_0)
        } else if have >= length {
            Err(ParseError::PatternLength)
        } else {
            proof {
                lemma_skip_newlines_len(tokens);
                lemma_cells_len(advance(line, 2), columns);
            }
            match row_lines(notes->Ok_0.1, columns, length, have + 1) {
                Err(e) => Err(e),
                Ok((rows, rest)) => Ok(
                    (seq![RowView { id: id->Ok_0, sheet_notes: notes->Ok_0.0 }] + rows, rest),
                ),
            }
        }
    } else {
        Ok((Seq::empty(), line))
    }
}

/// The rows of a pattern leave no more tokens than they found.
pub proof fn lemma_row_lines_len(tokens: Seq<TokenView>, columns: Seq<u8>, length: u32, have: nat)
    ensures
        row_lines(tokens, columns, length, have) is Ok ==> row_lines(
            tokens,
            columns,
            length,
            have,
        )->Ok_0.1.len() <= tokens.len(),
    decreases tokens.len(),
{
    let line = skip_newlines(tokens);
    lemma_skip_newlines_len(tokens);
    if at_word(line, "ROW"@) {
        let notes = cells(advance(line, 2), columns);
        if notes is Ok {
            lemma_cells_len(advance(line, 2), columns);
            lemma_row_lines_len(notes->Ok_0.1, columns, length, have + 1);
        }
    }
}

/// The `PATTERN` blocks of a track, blank lines between them passed over,
/// each with its rows.
pub open spec fn pattern_blocks(tokens: Seq<TokenView>, columns: Seq<u8>, length: u32) -> Result<
    (Seq<PatternView>, Seq<TokenView>),
    ParseError,
>
    decreases tokens.len(),
{
    let line = skip_newlines(tokens);
    if at_word(line, "PATTERN"@) {
        let id = hex_byte(at(line, 1));
        let rows = row_lines(advance(line, 2), columns, length, 0);
        if id is Err {
            Err(id->Err_0)
        } else if rows is Err {
            Err(rows->Err_0)
        } else {
            proof {
                lemma_skip_newlines_len(tokens);
                lemma_row_lines_len(advance(line, 2), columns, length, 0);
            }
            match pattern_blocks(rows->Ok_0.1, columns, length) {
                Err(e) => Err(e),
                Ok((patterns, rest)) => Ok(
                    (seq![PatternView { id: id->Ok_0, rows: rows->Ok_0.0 }] + patterns, rest),
                ),
            }
        }
    } else {
        Ok((Seq::empty(), line))
    }
}

/// A `TRACK` with what stands under it: pattern length, speed, tempo and
/// name, the `COLUMNS` line, the `ORDER` lines and the `PATTERN` blocks.
pub open spec fn track(tokens: Seq<TokenView>) -> Result<(TrackView, Seq<TokenView>), ParseError> {
    let length = dec_count(at(tokens, 0));
    let speed = dec_count(at(tokens, 1));
    let tempo = dec_count(at(tokens, 2));
    let name = str_field(at(tokens, 3));
    if length is Err {
        Err(length->Err_0)
    } else if speed is Err {
        Err(speed->Err_0)
    } else if tempo is Err {
        Err(tempo->Err_0)
    } else if name is Err {
        Err(name->Err_0)
    } else {
        match columns_line(advance(tokens, 4)) {
            Err(e) => Err(e),
            Ok((columns, behind)) => match order_lines(behind, columns.len()) {
                Err(e) => Err(e),
                Ok((orders, behind)) => match pattern_blocks(behind, columns, length->Ok_0) {
                    Err(e) => Err(e),
                    Ok((patterns, rest)) => Ok(
                        (
                            TrackView {
                                pattern_length: length->Ok_0,
                                speed: speed->Ok_0,
                                temp: tempo->Ok_0,
                                name: name->Ok_0,
                                comumns: columns,
                                pattern_order: orders,
                                patterns: patterns,
                            },
                            rest,
                        ),
                    ),
                },
            },
        }
    }
}

/// The values of a macro leave no more tokens than they found.
pub proof fn lemma_macro_values_len(tokens: Seq<TokenView>)
    ensures
        macro_values(tokens) is Ok ==> macro_values(tokens)->Ok_0.1.len() <= tokens.len(),
    decreases tokens.len(),
{
    if tokens.len() > 0 {
        lemma_macro_values_len(tokens.drop_first());
    }
}

/// Sample lines leave no more tokens than they found.
pub proof fn lemma_sample_lines_len(tokens: Seq<TokenView>)
    ensures
        sample_lines(tokens) is Ok ==> sample_lines(tokens)->Ok_0.1.len() <= tokens.len(),
    decreases tokens.len(),
{
    let line = skip_newlines(tokens);
    lemma_skip_newlines_len(tokens);
    if at_word(line, "DPCM"@) {
        let run = sample_bytes(advance(line, 2));
        if run is Ok && nl_field(first(run->Ok_0.1)) is Ok {
            lemma_sample_bytes_len(advance(line, 2));
            lemma_sample_lines_len(run->Ok_0.1.drop_first());
        }
    }
}

/// Order lines leave no more tokens than they found.
pub proof fn lemma_order_lines_len(tokens: Seq<TokenView>, channels: nat)
    ensures
        order_lines(tokens, channels) is Ok ==> order_lines(tokens, channels)->Ok_0.1.len()
            <= tokens.len(),
    decreases tokens.len(),
{
    let line = skip_newlines(tokens);
    lemma_skip_newlines_len(tokens);
    if at_word(line, "ORDER"@) {
        let run = byte_run(advance(line, 3));
        if run is Ok && nl_field(first(run->Ok_0.1)) is Ok {
            lemma_byte_run_len(advance(line, 3));
            lemma_order_lines_len(run->Ok_0.1.drop_first(), channels);
        }
    }
}

/// Pattern blocks leave no more tokens than they found.
pub proof fn lemma_pattern_blocks_len(tokens: Seq<TokenView>, columns: Seq<u8>, length: u32)
    ensures
        pattern_blocks(tokens, columns, length) is Ok ==> pattern_blocks(
            tokens,
            columns,
            length,
        )->Ok_0.1.len() <= tokens.len(),
    decreases tokens.len(),
{
    let line = skip_newlines(tokens);
    lemma_skip_newlines_len(tokens);
    if at_word(line, "PATTERN"@) {
        let rows = row_lines(advance(line, 2), columns, length, 0);
        if rows is Ok {
            lemma_row_lines_len(advance(line, 2), columns, length, 0);
            lemma_pattern_blocks_len(rows->Ok_0.1, columns, length);
        }
    }
}

/// A track leaves no more tokens than it found.
pub proof fn lemma_track_len(tokens: Seq<TokenView>)
    ensures
        track(tokens) is Ok ==> track(tokens)->Ok_0.1.len() <= tokens.len(),
{
    let head = advance(tokens, 4);
    lemma_skip_newlines_len(head);
    if columns_line(head) is Ok {
        let (columns, behind) = columns_line(head)->Ok_0;
        lemma_byte_run_len(advance(skip_newlines(head), 2));
        lemma_order_lines_len(behind, columns.len());
        if order_lines(behind, columns.len()) is Ok {
            let after = order_lines(behind, columns.len())->Ok_0.1;
            if dec_count(at(tokens, 0)) is Ok {
                lemma_pattern_blocks_len(after, columns, dec_count(at(tokens, 0))->Ok_0);
            }
        }
    }
}

/// What a command does to the document: `word` is the command, `tokens`
/// are the tokens behind it, and `file` is the document so far. A text
/// command sets its field, `COMMENT` adds a line to the comment, a number
/// command sets its flag, and each of the others adds an entry.
pub open spec fn command(word: Seq<char>, tokens: Seq<TokenView>, file: SoundFileView) -> Result<
    (SoundFileView, Seq<TokenView>),
    ParseError,
> {
    if word == "TITLE"@ {
        match text_line(tokens) {
            Ok((text, rest)) => Ok((SoundFileView { title: text, ..file }, rest)),
            Err(e) => Err(e),
        }
    } else if word == "AUTHOR"@ {
        match text_line(tokens) {
            Ok((text, rest)) => Ok((SoundFileView { author: text, ..file }, rest)),
            Err(e) => Err(e),
        }
    } else if word == "COPYRIGHT"@ {
        match text_line(tokens) {
            Ok((text, rest)) => Ok((SoundFileView { copyright: text, ..file }, rest)),
            Err(e) => Err(e),
        }
    } else if word == "COMMENT"@ {
        match text_line(tokens) {
            Ok((text, rest)) => Ok(
                (SoundFileView { comment: file.comment + text + seq!['\n'], ..file }, rest),
            ),
            Err(e) => Err(e),
        }
    } else if word == "MACHINE"@ {
        match count_line(tokens) {
            Ok((count, rest)) => Ok((SoundFileView { machine: count, ..file }, rest)),
            Err(e) => Err(e),
        }
    } else if word == "EXPANSION"@ {
        match count_line(tokens) {
            Ok((count, rest)) => Ok((SoundFileView { expansion: count, ..file }, rest)),
            Err(e) => Err(e),
        }
    } else if word == "VIBRATO"@ {
        match count_line(tokens) {
            Ok((count, rest)) => Ok((SoundFileView { vibrato: count, ..file }, rest)),
            Err(e) => Err(e),
        }
    } else if word == "SPLIT"@ {
        match count_line(tokens) {
            Ok((count, rest)) => Ok((SoundFileView { split: count, ..file }, rest)),
            Err(e) => Err(e),
        }
    } else if word == "PLAYBACKRATE"@ {
        match rate_line(tokens) {
            Ok((rate, rest)) => Ok((SoundFileView { playbackrate: rate, ..file }, rest)),
            Err(e) => Err(e),
        }
    } else if word == "TUNING"@ {
        match tuning_line(tokens) {
            Ok((tuning, rest)) => Ok((SoundFileView { tuning: tuning, ..file }, rest)),
            Err(e) => Err(e),
        }
    } else if word == "MACRO"@ {
        match macro_line(tokens) {
            Ok((entry, rest)) => Ok(
                (SoundFileView { macros: file.macros.push(entry), ..file }, rest),
            ),
            Err(e) => Err(e),
        }
    } else if word == "DPCMDEF"@ {
        match sample_def(tokens) {
            Ok((entry, rest)) => Ok(
                (SoundFileView { dpcmdef: file.dpcmdef.push(entry), ..file }, rest),
            ),
            Err(e) => Err(e),
        }
    } else if word == "INST2A03"@ {
        match instrument_line(tokens) {
            Ok((entry, rest)) => Ok(
                (SoundFileView { inst2a03: file.inst2a03.push(entry), ..file }, rest),
            ),
            Err(e) => Err(e),
        }
    } else if word == "KEYDPCM"@ {
        match key_line(tokens) {
            Ok((entry, rest)) => Ok(
                (SoundFileView { keydpcm: file.keydpcm.push(entry), ..file }, rest),
            ),
            Err(e) => Err(e),
        }
    } else if word == "TRACK"@ {
        match track(tokens) {
            Ok((entry, rest)) => Ok(
                (SoundFileView { tracks: file.tracks.push(entry), ..file }, rest),
            ),
            Err(e) => Err(e),
        }
    } else {
        Err(ParseError::UnknownCommand)
    }
}

/// A command leaves no more tokens than it found.
pub proof fn lemma_command_len(word: Seq<char>, tokens: Seq<TokenView>, file: SoundFileView)
    ensures
        command(word, tokens, file) is Ok ==> command(word, tokens, file)->Ok_0.1.len()
            <= tokens.len(),
{
    lemma_macro_values_len(advance(tokens, 6));
    lemma_sample_lines_len(advance(tokens, 4));
    lemma_track_len(tokens);
}

/// The document that `tokens` make of `file`: each line that begins with a
/// word is a command, empty lines are passed over, and any other token
/// fails the parse, an error token of the tokenizer with its character and
/// place.
pub open spec fn document(tokens: Seq<TokenView>, file: SoundFileView) -> Result<
    SoundFileView,
    ParseError,
>
    decreases tokens.len(),
{
    match first(tokens) {
        None => Ok(file),
        Some(TokenView::IdentNum(word)) => match command(word, tokens.drop_first(), file) {
            Err(e) => Err(e),
            Ok((next, rest)) => {
                proof {
                    lemma_command_len(word, tokens.drop_first(), file);
                }
                document(rest, next)
            },
        },
        Some(TokenView::NewLine) => document(tokens.drop_first(), file),
        Some(TokenView::Empty) => Err(ParseError::EmptyToken),
        Some(TokenView::Error(c, place)) => Err(ParseError::Lexical(c, place)),
        Some(_) => Err(unexpected(Expected::Command, first(tokens))),
    }
}

} // verus!
