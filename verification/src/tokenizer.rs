//! The tokenizer: source positions, tokens, and the scanner that cuts a
//! text into tokens, one character at a time.

use vstd::prelude::*;
use crate::error::{EffectError, NumError};
use crate::number::{decode_signed, decode_unsigned, read_signed, read_unsigned};
use crate::sound_file::{decode_effect, Effect, Note};
use crate::text::{
    blank, byte_len, chars_of, digit, hex_digit, is_blank, is_digit, is_hex_digit, is_letter,
    is_octave, lemma_byte_len_counts_encoding, lemma_byte_len_skip, len_utf8, letter, octave,
    same_text, string_of, utf8_width,
};
use vstd::string::*;
use vstd::slice::*;

verus! {

/// A place in the text: the bytes and the characters before it, and the
/// line and column it stands in. It is kept for error messages alone.
#[derive(Copy, Clone, Debug, PartialEq, Eq, Structural)]
pub struct Location {
    pub real: usize,
    pub seen: usize,
    pub line: usize,
    pub column: usize,
}

impl Location {
    /// The place before the first character.
    pub open spec fn origin() -> Location {
        Location { real: 0, seen: 0, line: 0, column: 0 }
    }

    /// Whether the place can move over `c` without a field leaving its
    /// type.
    pub open spec fn can_add(self, c: char) -> bool {
        &&& self.real + utf8_width(c) <= usize::MAX
        &&& self.seen < usize::MAX
        &&& self.line < usize::MAX
        &&& self.column < usize::MAX
    }

    /// The place behind `c`, where `self` is the place before it: a line
    /// feed starts a new line at column 0, any other character moves one
    /// column on.
    pub open spec fn after(self, c: char) -> Location {
        Location {
            real: (self.real + utf8_width(c)) as usize,
            seen: (self.seen + 1) as usize,
            line: if c == '\n' {
                (self.line + 1) as usize
            } else {
                self.line
            },
            column: if c == '\n' {
                0
            } else {
                (self.column + 1) as usize
            },
        }
    }

    /// Moves the place over `c`.
    pub fn add(self, c: char) -> (next: Location)
        requires
            self.can_add(c),
        ensures
            next == self.after(c),
            next.real == self.real + utf8_width(c),
            next.seen == self.seen + 1,
    {
        let width = len_utf8(c);
        if c == '\n' {
            Location { real: self.real + width, seen: self.seen + 1, line: self.line + 1, column: 0 }
        } else {
            Location {
                real: self.real + width,
                seen: self.seen + 1,
                line: self.line,
                column: self.column + 1,
            }
        }
    }
}

impl Default for Location {
    fn default() -> (at: Location)
        ensures
            at == Location::origin(),
    {
        Location { real: 0, seen: 0, line: 0, column: 0 }
    }
}

/// A lexeme of letters and digits, kept as it was written. The rule that
/// reads it decides what it stands for.
#[derive(Debug, Clone, PartialEq, Eq)]
pub struct IdentNum {
    string: String,
}

impl View for IdentNum {
    type V = Seq<char>;

    closed spec fn view(&self) -> Seq<char> {
        self.string@
    }
}

impl IdentNum {
    /// The lexeme as a hexadecimal number.
    pub fn hex(&self) -> (r: Result<u32, NumError>)
        ensures
            match decode_unsigned(self@, 16, u32::MAX as int) {
                Ok(v) => r == Ok::<u32, NumError>(v as u32) && 0 <= v <= u32::MAX,
                Err(e) => r == Err::<u32, NumError>(e),
            },
    {
        let chars = chars_of(self.string.as_str());
        read_unsigned(&chars, 16, u32::MAX)
    }

    /// The lexeme as a decimal number.
    pub fn dec(&self) -> (r: Result<i32, NumError>)
        ensures
            match decode_signed(self@, 10, 0x8000_0000, 0x7FFF_FFFF) {
                Ok(v) => r == Ok::<i32, NumError>(v as i32) && i32::MIN <= v <= i32::MAX,
                Err(e) => r == Err::<i32, NumError>(e),
            },
    {
        let chars = chars_of(self.string.as_str());
        read_signed(&chars, 10)
    }

    /// The lexeme as an effect code.
    pub fn effect(&self) -> (r: Result<Effect, EffectError>)
        ensures
            r == decode_effect(self@),
    {
        Effect::try_from(self.string.as_str())
    }

    /// The lexeme that holds the characters of `text`.
    pub fn from_str(text: &str) -> (lexeme: IdentNum)
        ensures
            lexeme@ == text@,
    {
        IdentNum { string: text.to_owned() }
    }

    /// The characters of the lexeme.
    pub fn as_str(&self) -> (text: &str)
        ensures
            text@ == self@,
    {
        self.string.as_str()
    }

    /// Whether the lexeme is the word `other`.
    pub fn eq(&self, other: &str) -> (same: bool)
        ensures
            same == (self@ == other@),
    {
        same_text(self.string.as_str(), other)
    }
}

/// What the tokenizer hands out.
#[derive(Debug, Clone, PartialEq, Eq)]
pub enum Token {
    /// Letters and digits.
    IdentNum(IdentNum),
    Colon,
    /// What stands between two double quotes.
    String(String),
    /// A pitch, or one of the two markers.
    Note(Note),
    Dot,
    DotDot,
    DotDotDot,
    /// One or more line ends in a row.
    NewLine,
    /// Blank space or a comment. `Tokenizer::next` never returns it.
    Empty,
    /// A character that no rule takes, and the place behind it.
    Error(char, Location),
}

/// The view of a [`Token`].
pub enum TokenView {
    IdentNum(Seq<char>),
    Colon,
    String(Seq<char>),
    Note(Note),
    Dot,
    DotDot,
    DotDotDot,
    NewLine,
    Empty,
    Error(char, Location),
}

impl View for Token {
    type V = TokenView;

    open spec fn view(&self) -> TokenView {
        match *self {
            Token::IdentNum(lexeme) => TokenView::IdentNum(lexeme@),
            Token::Colon => TokenView::Colon,
            Token::String(text) => TokenView::String(text@),
            Token::Note(note) => TokenView::Note(note),
            Token::Dot => TokenView::Dot,
            Token::DotDot => TokenView::DotDot,
            Token::DotDotDot => TokenView::DotDotDot,
            Token::NewLine => TokenView::NewLine,
            Token::Empty => TokenView::Empty,
            Token::Error(c, at) => TokenView::Error(c, at),
        }
    }
}

/// The view of a token that may be missing.
pub open spec fn view_of(token: Option<Token>) -> Option<TokenView> {
    match token {
        Some(t) => Some(t@),
        None => None,
    }
}

/// The states of the scanner.
#[derive(Copy, Clone, Debug, PartialEq, Eq, Structural)]
pub enum TokenizerState {
    Default,
    Comment,
    Ident,
    String,
    Dot,
    DotDot,
    Number,
    Note,
    NewLine,
    Dash,
    DashDash,
    Equal,
    EqualEqual,
}

/// The scanner between two characters: its state, where the lexeme under
/// way begins, how far the text is read, and the places of both.
pub struct Lexer {
    pub state: TokenizerState,
    pub begin: nat,
    pub pos: nat,
    pub start: Location,
    pub last: Location,
}

/// What the scanner does with one character: the state it goes to, whether
/// it takes the character or looks at it again in the new state, and the
/// token that comes out, if one does.
pub struct Transition {
    pub state: TokenizerState,
    pub consume: bool,
    pub token: Option<TokenView>,
}

/// The place of a note in its octave, by its letter and accidental.
pub open spec fn pitch_class(letter: char, accidental: char) -> Option<nat> {
    if letter == 'C' && accidental == '-' {
        Some(0)
    } else if letter == 'C' && accidental == '#' {
        Some(1)
    } else if letter == 'D' && accidental == '-' {
        Some(2)
    } else if letter == 'D' && accidental == '#' {
        Some(3)
    } else if letter == 'E' && accidental == '-' {
        Some(4)
    } else if letter == 'F' && accidental == '-' {
        Some(5)
    } else if letter == 'F' && accidental == '#' {
        Some(6)
    } else if letter == 'G' && accidental == '-' {
        Some(7)
    } else if letter == 'G' && accidental == '#' {
        Some(8)
    } else if letter == 'A' && accidental == '-' {
        Some(9)
    } else if letter == 'A' && accidental == '#' {
        Some(10)
    } else if letter == 'B' && accidental == '-' {
        Some(11)
    } else {
        None
    }
}

/// The pitch of a note: twelve semitones for each octave, the lowest octave
/// counted as one, plus the place of the note in its octave.
pub open spec fn pitch(class: nat, octave: nat) -> nat {
    (octave + 1) * 12 + class
}

/// The token for a lexeme that an octave digit ends: the pitch, where the
/// first two characters are a note of the table, else an error for the
/// first character at the place where the lexeme starts.
pub open spec fn pitch_token(lexeme: Seq<char>, octave: char, start: Location) -> TokenView {
    match pitch_class(lexeme[0], lexeme[1]) {
        Some(class) => TokenView::Note(
            Note::Midi(pitch(class, (octave as int - '0' as int) as nat) as u32),
        ),
        None => TokenView::Error(lexeme[0], start),
    }
}

/// An ASCII letter in upper case; any other character as it is.
pub open spec fn upper(c: char) -> char {
    if 'a' <= c <= 'z' {
        ((c as u32 - 0x20) as u32) as char
    } else {
        c
    }
}

/// The token for a lexeme that `#` ends, as the noise channel writes its
/// notes: one hexadecimal digit, then a dash. A second character that is no
/// dash is the error that counts; else a first that is no digit.
pub open spec fn raw_note_token(lexeme: Seq<char>, start: Location) -> TokenView {
    let first = upper(lexeme[0]);
    if lexeme[1] != '-' {
        TokenView::Error(lexeme[1], start.after(first))
    } else if 'A' <= first <= 'F' {
        TokenView::Note(Note::Hex((first as int - 'A' as int + 10) as u8))
    } else if '0' <= first <= '9' {
        TokenView::Note(Note::Hex((first as int - '0' as int) as u8))
    } else {
        TokenView::Error(first, start)
    }
}

/// What the scanner does in `state` with the character `c`. `lexeme` holds
/// the characters taken since the last token, `start` is the place where
/// they begin, and `current` the place behind `c`.
pub open spec fn transition(
    state: TokenizerState,
    c: char,
    lexeme: Seq<char>,
    start: Location,
    current: Location,
) -> Transition {
    let go = |to: TokenizerState| Transition { state: to, consume: true, token: None };
    let emit = |t: TokenView|
        Transition { state: TokenizerState::Default, consume: true, token: Some(t) };
    let retry = |t: TokenView|
        Transition { state: TokenizerState::Default, consume: false, token: Some(t) };
    match state {
        TokenizerState::Default => {
            if is_letter(c) {
                go(TokenizerState::Ident)
            } else if is_digit(c) {
                go(TokenizerState::Number)
            } else if c == '-' {
                go(TokenizerState::Dash)
            } else if c == '=' {
                go(TokenizerState::Equal)
            } else if c == '#' {
                go(TokenizerState::Comment)
            } else if c == '"' {
                go(TokenizerState::String)
            } else if c == ':' {
                emit(TokenView::Colon)
            } else if c == '.' {
                go(TokenizerState::Dot)
            } else if c == '\n' || c == '\r' {
                go(TokenizerState::NewLine)
            } else if is_blank(c) {
                emit(TokenView::Empty)
            } else {
                emit(TokenView::Error(c, current))
            }
        },
        TokenizerState::Comment => {
            if c == '\n' {
                emit(TokenView::Empty)
            } else {
                go(TokenizerState::Comment)
            }
        },
        TokenizerState::Ident => {
            if is_letter(c) {
                go(TokenizerState::Ident)
            } else if is_digit(c) {
                go(TokenizerState::Number)
            } else if c == '-' || c == '#' {
                go(TokenizerState::Note)
            } else {
                retry(TokenView::IdentNum(lexeme))
            }
        },
        TokenizerState::String => {
            if c == '"' {
                emit(TokenView::String(lexeme.skip(1)))
            } else {
                go(TokenizerState::String)
            }
        },
        TokenizerState::Dot => {
            if c == '.' {
                go(TokenizerState::DotDot)
            } else {
                retry(TokenView::Dot)
            }
        },
        TokenizerState::DotDot => {
            if c == '.' {
                emit(TokenView::DotDotDot)
            } else {
                retry(TokenView::DotDot)
            }
        },
        TokenizerState::Number => {
            if is_hex_digit(c) {
                go(TokenizerState::Number)
            } else if c == '-' {
                go(TokenizerState::Note)
            } else {
                retry(TokenView::IdentNum(lexeme))
            }
        },
        TokenizerState::NewLine => {
            if c == '\n' || c == '\r' {
                go(TokenizerState::NewLine)
            } else {
                retry(TokenView::NewLine)
            }
        },
        TokenizerState::Note => {
            if is_octave(c) {
                emit(pitch_token(lexeme, c, start))
            } else if c == '#' {
                emit(raw_note_token(lexeme, start))
            } else {
                emit(TokenView::Error(c, current))
            }
        },
        TokenizerState::Dash => {
            if c == '-' {
                go(TokenizerState::DashDash)
            } else {
                Transition { state: TokenizerState::Number, consume: false, token: None }
            }
        },
        TokenizerState::DashDash => {
            if c == '-' {
                emit(TokenView::Note(Note::Cut))
            } else {
                emit(TokenView::Error(c, current))
            }
        },
        TokenizerState::Equal => {
            if c == '=' {
                go(TokenizerState::EqualEqual)
            } else {
                Transition {
                    state: TokenizerState::Equal,
                    consume: true,
                    token: Some(TokenView::Error(c, current)),
                }
            }
        },
        TokenizerState::EqualEqual => {
            if c == '-' {
                emit(TokenView::Note(Note::Release))
            } else {
                emit(TokenView::Error(c, current))
            }
        },
    }
}

impl Lexer {
    /// The scanner before the first character.
    pub open spec fn initial() -> Lexer {
        Lexer {
            state: TokenizerState::Default,
            begin: 0,
            pos: 0,
            start: Location::origin(),
            last: Location::origin(),
        }
    }

    /// What the scanner does with the next character of `text`.
    pub open spec fn transition(self, text: Seq<char>) -> Transition
        recommends
            self.pos < text.len(),
    {
        let c = text[self.pos as int];
        transition(
            self.state,
            c,
            text.subrange(self.begin as int, self.pos as int),
            self.start,
            self.last.after(c),
        )
    }

    /// The scanner one step on. A character that is taken moves the place
    /// on; a token that comes out starts a new lexeme there.
    pub open spec fn step(self, text: Seq<char>) -> Lexer
        recommends
            self.pos < text.len(),
    {
        let t = self.transition(text);
        let pos = if t.consume { self.pos + 1 } else { self.pos };
        let last = if t.consume { self.last.after(text[self.pos as int]) } else { self.last };
        Lexer {
            state: t.state,
            begin: if t.token is Some { pos } else { self.begin },
            pos: pos,
            start: if t.token is Some { last } else { self.start },
            last: last,
        }
    }

    /// What bounds the steps that are left: three for each character not
    /// yet taken, and up to two more for a character that is looked at again
    /// in a new state.
    pub open spec fn fuel(self, text: Seq<char>) -> nat {
        let rank: nat = match self.state {
            TokenizerState::Default => 0,
            TokenizerState::Dash => 2,
            _ => 1,
        };
        (3 * (text.len() - self.pos) + rank) as nat
    }

    /// The scanner run from here until a token comes out that is not empty,
    /// or the text ends: the token, if one came, and the scanner behind it.
    /// What is under way when the text ends is dropped.
    pub open spec fn scan(self, text: Seq<char>) -> (Lexer, Option<TokenView>)
        decreases self.fuel(text),
    {
        if self.pos >= text.len() {
            (self, None)
        } else {
            let t = self.transition(text);
            match t.token {
                Some(token) if token != TokenView::Empty => (self.step(text), Some(token)),
                _ => self.step(text).scan(text),
            }
        }
    }
}

/// Each step of the scanner uses up fuel.
pub proof fn lemma_step_uses_fuel(lx: Lexer, text: Seq<char>)
    requires
        lx.pos < text.len(),
    ensures
        lx.step(text).fuel(text) < lx.fuel(text),
        lx.step(text).pos <= text.len(),
{
}

/// A scan does not add fuel, and one that gives a token uses some up.
pub proof fn lemma_scan_uses_fuel(lx: Lexer, text: Seq<char>)
    ensures
        lx.scan(text).0.fuel(text) <= lx.fuel(text),
        lx.scan(text).1 is Some ==> lx.scan(text).0.fuel(text) < lx.fuel(text),
        lx.scan(text).1 is Some ==> lx.scan(text).1 != Some(TokenView::Empty),
        lx.scan(text).1 is None ==> lx.scan(text).0.pos >= text.len(),
    decreases lx.fuel(text),
{
    if lx.pos < text.len() {
        lemma_step_uses_fuel(lx, text);
        let t = lx.transition(text);
        if !(t.token is Some && t.token != Some(TokenView::Empty)) {
            lemma_scan_uses_fuel(lx.step(text), text);
        }
    }
}

/// All the tokens that the scanner gives from `lx` on, in order.
pub open spec fn tokens_from(lx: Lexer, text: Seq<char>) -> Seq<TokenView>
    decreases lx.fuel(text),
{
    let (next, token) = lx.scan(text);
    match token {
        Some(t) => {
            proof {
                lemma_scan_uses_fuel(lx, text);
            }
            seq![t] + tokens_from(next, text)
        },
        None => Seq::empty(),
    }
}

/// The tokens from `lx` on are the next token and the tokens behind it; at
/// the end of the text there are none.
pub proof fn lemma_tokens_unfold(lx: Lexer, text: Seq<char>)
    ensures
        tokens_from(lx, text) == match lx.scan(text).1 {
            Some(t) => seq![t] + tokens_from(lx.scan(text).0, text),
            None => Seq::empty(),
        },
        lx.scan(text).1 is None ==> tokens_from(lx.scan(text).0, text) == Seq::<TokenView>::empty(),
{
    lemma_scan_uses_fuel(lx, text);
    if lx.scan(text).1 is None {
        let end = lx.scan(text).0;
        assert(end.scan(text).1 is None);
    }
}

/// All the tokens of `text`, in order.
pub open spec fn tokens_of(text: Seq<char>) -> Seq<TokenView> {
    tokens_from(Lexer::initial(), text)
}

/// The place of a note in its octave, if letter and accidental name one.
fn pitch_class_of(letter: char, accidental: char) -> (class: Option<u32>)
    ensures
        match pitch_class(letter, accidental) {
            Some(c) => class == Some(c as u32) && c < 12,
            None => class is None,
        },
{
    if letter == 'C' && accidental == '-' {
        Some(0)
    } else if letter == 'C' && accidental == '#' {
        Some(1)
    } else if letter == 'D' && accidental == '-' {
        Some(2)
    } else if letter == 'D' && accidental == '#' {
        Some(3)
    } else if letter == 'E' && accidental == '-' {
        Some(4)
    } else if letter == 'F' && accidental == '-' {
        Some(5)
    } else if letter == 'F' && accidental == '#' {
        Some(6)
    } else if letter == 'G' && accidental == '-' {
        Some(7)
    } else if letter == 'G' && accidental == '#' {
        Some(8)
    } else if letter == 'A' && accidental == '-' {
        Some(9)
    } else if letter == 'A' && accidental == '#' {
        Some(10)
    } else if letter == 'B' && accidental == '-' {
        Some(11)
    } else {
        None
    }
}

/// An ASCII letter in upper case; any other character as it is.
fn to_upper(c: char) -> (up: char)
    ensures
        up == upper(c),
{
    let u: u32 = c as u32;
    if 0x61 <= u && u <= 0x7A {
        let byte: u8 = (u - 0x20) as u8;
        byte as char
    } else {
        c
    }
}

/// A scanner over a text. It hands out the tokens of the text one by one.
pub struct Tokenizer {
    chars: Vec<char>,
    state: TokenizerState,
    start: Location,
    last: Location,
}

impl Tokenizer {
    /// The text that is scanned.
    pub closed spec fn text(&self) -> Seq<char> {
        self.chars@
    }

    /// Where the scanner stands.
    pub closed spec fn lexer(&self) -> Lexer {
        Lexer {
            state: self.state,
            begin: self.start.seen as nat,
            pos: self.last.seen as nat,
            start: self.start,
            last: self.last,
        }
    }

    /// What holds of every scanner: the lexeme under way lies inside the
    /// text and is as long as its state says, and both places can move on
    /// to the end of the text.
    pub closed spec fn wf(&self) -> bool {
        &&& self.start.seen <= self.last.seen <= self.chars.len()
        &&& self.state == TokenizerState::Note ==> self.last.seen - self.start.seen >= 2
        &&& (self.state == TokenizerState::String || self.state == TokenizerState::Ident
            || self.state == TokenizerState::Number || self.state == TokenizerState::Dash)
            ==> self.last.seen - self.start.seen >= 1
        &&& self.start.line <= self.start.seen
        &&& self.start.column <= self.start.seen
        &&& self.last.line <= self.last.seen
        &&& self.last.column <= self.last.seen
        &&& self.start.real + byte_len(self.chars@.skip(self.start.seen as int)) <= usize::MAX
        &&& self.last.real + byte_len(self.chars@.skip(self.last.seen as int)) <= usize::MAX
    }

    /// A scanner before the first character of `text`.
    pub fn from_str(text: &str) -> (tokenizer: Tokenizer)
        ensures
            tokenizer.wf(),
            tokenizer.text() == text@,
            tokenizer.lexer() == Lexer::initial(),
    {
        let chars = chars_of(text);
        // The bytes of a text are counted by a `usize`, so the byte offset
        // of every place in it fits one too.
        let bytes = text.as_bytes();
        let _size = bytes.len();
        proof {
            lemma_byte_len_counts_encoding(text@);
            assert(chars@.skip(0) =~= chars@);
        }
        Tokenizer {
            chars,
            state: TokenizerState::Default,
            start: Location::default(),
            last: Location::default(),
        }
    }

    /// The characters of the text between two places.
    pub fn str_loc_loc(&self, start: Location, end: Location) -> (lexeme: String)
        requires
            start.seen <= end.seen <= self.text().len(),
        ensures
            lexeme@ == self.text().subrange(start.seen as int, end.seen as int),
    {
        string_of(&self.chars, start.seen, end.seen)
    }

    /// The characters taken since the last token.
    pub fn str_last(&self) -> (lexeme: String)
        requires
            self.wf(),
        ensures
            lexeme@ == self.text().subrange(self.lexer().begin as int, self.lexer().pos as int),
    {
        self.str_loc_loc(self.start, self.last)
    }

    /// The token for the lexeme under way and the octave digit that ends
    /// it.
    fn pitch_token_of(&self, octave: char) -> (token: Token)
        requires
            self.wf(),
            self.state == TokenizerState::Note,
            is_octave(octave),
        ensures
            token@ == pitch_token(
                self.text().subrange(self.lexer().begin as int, self.lexer().pos as int),
                octave,
                self.start,
            ),
    {
        let first = self.chars[self.start.seen];
        let second = self.chars[self.start.seen + 1];
        match pitch_class_of(first, second) {
            Some(class) => {
                let digit: u32 = octave as u32 - 0x30;
                Token::Note(Note::Midi((digit + 1) * 12 + class))
            },
            None => Token::Error(first, self.start),
        }
    }

    /// The token for the lexeme under way and the `#` that ends it.
    fn raw_note_token_of(&self) -> (token: Token)
        requires
            self.wf(),
            self.state == TokenizerState::Note,
        ensures
            token@ == raw_note_token(
                self.text().subrange(self.lexer().begin as int, self.lexer().pos as int),
                self.start,
            ),
    {
        let first = to_upper(self.chars[self.start.seen]);
        let second = self.chars[self.start.seen + 1];
        let code: u32 = first as u32;
        if second != '-' {
            proof {
                lemma_byte_len_skip(self.chars@, self.start.seen as int);
            }
            Token::Error(second, self.start.add(first))
        } else if 0x41 <= code && code <= 0x46 {
            Token::Note(Note::Hex((code - 0x41 + 10) as u8))
        } else if 0x30 <= code && code <= 0x39 {
            Token::Note(Note::Hex((code - 0x30) as u8))
        } else {
            Token::Error(first, self.start)
        }
    }
}

impl Tokenizer {
    /// Takes the scanner one step on, and gives the token that comes out,
    /// if one does.
    fn step(&mut self) -> (token: Option<Token>)
        requires
            old(self).wf(),
            old(self).lexer().pos < old(self).text().len(),
        ensures
            final(self).wf(),
            final(self).text() == old(self).text(),
            final(self).lexer() == old(self).lexer().step(old(self).text()),
            view_of(token) == old(self).lexer().transition(old(self).text()).token,
    {
        proof {
            lemma_byte_len_skip(self.chars@, self.last.seen as int);
        }
        let c = self.chars[self.last.seen];
        let current = self.last.add(c);
        let mut consume = true;
        let mut token: Option<Token> = None;
        match self.state {
            TokenizerState::Default => {
                if letter(c) {
                    self.state = TokenizerState::Ident;
                } else if digit(c) {
                    self.state = TokenizerState::Number;
                } else if c == '-' {
                    self.state = TokenizerState::Dash;
                } else if c == '=' {
                    self.state = TokenizerState::Equal;
                } else if c == '#' {
                    self.state = TokenizerState::Comment;
                } else if c == '"' {
                    self.state = TokenizerState::String;
                } else if c == ':' {
                    token = Some(Token::Colon);
                } else if c == '.' {
                    self.state = TokenizerState::Dot;
                } else if c == '\n' || c == '\r' {
                    self.state = TokenizerState::NewLine;
                } else if blank(c) {
                    token = Some(Token::Empty);
                } else {
                    token = Some(Token::Error(c, current));
                }
            },
            TokenizerState::Comment => {
                if c == '\n' {
                    token = Some(Token::Empty);
                    self.state = TokenizerState::Default;
                }
            },
            TokenizerState::Ident => {
                if letter(c) {
                } else if digit(c) {
                    self.state = TokenizerState::Number;
                } else if c == '-' || c == '#' {
                    self.state = TokenizerState::Note;
                } else {
                    self.state = TokenizerState::Default;
                    token = Some(Token::IdentNum(IdentNum { string: self.str_last() }));
                    consume = false;
                }
            },
            TokenizerState::String => {
                if c == '"' {
                    self.state = TokenizerState::Default;
                    let from = self.start.seen + 1;
                    let text = string_of(&self.chars, from, self.last.seen);
                    proof {
                        let lexeme = self.chars@.subrange(
                            self.start.seen as int,
                            self.last.seen as int,
                        );
                        assert(text@ =~= lexeme.skip(1));
                    }
                    token = Some(Token::String(text));
                }
            },
            TokenizerState::Dot => {
                if c == '.' {
                    self.state = TokenizerState::DotDot;
                } else {
                    self.state = TokenizerState::Default;
                    token = Some(Token::Dot);
                    consume = false;
                }
            },
            TokenizerState::DotDot => {
                self.state = TokenizerState::Default;
                if c == '.' {
                    token = Some(Token::DotDotDot);
                } else {
                    token = Some(Token::DotDot);
                    consume = false;
                }
            },
            TokenizerState::Number => {
                if hex_digit(c) {
                } else if c == '-' {
                    self.state = TokenizerState::Note;
                } else {
                    self.state = TokenizerState::Default;
                    token = Some(Token::IdentNum(IdentNum { string: self.str_last() }));
                    consume = false;
                }
            },
            TokenizerState::NewLine => {
                if c == '\n' || c == '\r' {
                } else {
                    consume = false;
                    self.state = TokenizerState::Default;
                    token = Some(Token::NewLine);
                }
            },
            TokenizerState::Note => {
                if octave(c) {
                    token = Some(self.pitch_token_of(c));
                } else if c == '#' {
                    token = Some(self.raw_note_token_of());
                } else {
                    token = Some(Token::Error(c, current));
                }
                self.state = TokenizerState::Default;
            },
            TokenizerState::Dash => {
                if c == '-' {
                    self.state = TokenizerState::DashDash;
                } else {
                    self.state = TokenizerState::Number;
                    consume = false;
                }
            },
            TokenizerState::DashDash => {
                self.state = TokenizerState::Default;
                if c == '-' {
                    token = Some(Token::Note(Note::Cut));
                } else {
                    token = Some(Token::Error(c, current));
                }
            },
            TokenizerState::Equal => {
                if c == '=' {
                    self.state = TokenizerState::EqualEqual;
                } else {
                    token = Some(Token::Error(c, current));
                }
            },
            TokenizerState::EqualEqual => {
                self.state = TokenizerState::Default;
                if c == '-' {
                    token = Some(Token::Note(Note::Release));
                } else {
                    token = Some(Token::Error(c, current));
                }
            },
        }
        if consume {
            self.last = current;
        }
        if token.is_some() {
            self.start = self.last;
        }
        token
    }

    /// The next token of the text, or `None` where the text ends first.
    /// Blank space and comments are passed over.
    pub fn next(&mut self) -> (token: Option<Token>)
        requires
            old(self).wf(),
        ensures
            final(self).wf(),
            final(self).text() == old(self).text(),
            (final(self).lexer(), view_of(token)) == old(self).lexer().scan(old(self).text()),
            view_of(token) != Some(TokenView::Empty),
    {
        let ghost text = self.text();
        let ghost goal = self.lexer().scan(text);
        proof {
            lemma_scan_uses_fuel(self.lexer(), text);
        }
        loop
            invariant
                self.wf(),
                self.text() == text,
                text == old(self).text(),
                goal == old(self).lexer().scan(text),
                goal.1 != Some(TokenView::Empty),
                self.lexer().scan(text) == goal,
            decreases self.lexer().fuel(text),
        {
            if self.last.seen >= self.chars.len() {
                return None;
            }
            proof {
                lemma_step_uses_fuel(self.lexer(), text);
            }
            match self.step() {
                None => {},
                Some(Token::Empty) => {},
                Some(token) => {
                    return Some(token);
                },
            }
        }
    }
}

/// The first of `tokens`, if there is one.
pub open spec fn first(tokens: Seq<TokenView>) -> Option<TokenView> {
    if tokens.len() > 0 {
        Some(tokens[0])
    } else {
        None
    }
}

/// `tokens` without the line ends that it begins with.
pub open spec fn skip_newlines(tokens: Seq<TokenView>) -> Seq<TokenView>
    decreases tokens.len(),
{
    if tokens.len() > 0 && tokens[0] == TokenView::NewLine {
        skip_newlines(tokens.drop_first())
    } else {
        tokens
    }
}

/// The view of a token that is lent out, or missing.
pub open spec fn view_of_ref(token: Option<&Token>) -> Option<TokenView> {
    match token {
        Some(t) => Some(t@),
        None => None,
    }
}

/// A token stream that shows its next token without giving it away.
pub struct Peekable {
    tokenizer: Tokenizer,
    peeked: Option<Option<Token>>,
}

/// Looking ahead past blank lines.
pub trait SkipNLPeekable {
    /// The tokens that are still to come.
    spec fn rest(&self) -> Seq<TokenView>;

    /// What holds of every stream.
    spec fn wf(&self) -> bool;

    /// Drops the line ends that come next, and shows the token behind them
    /// without taking it.
    fn peek_skipping_nl(&mut self) -> (token: Option<&Token>)
        requires
            old(self).wf(),
        ensures
            final(self).wf(),
            final(self).rest() == skip_newlines(old(self).rest()),
            view_of_ref(token) == first(final(self).rest()),
    ;
}

impl Tokenizer {
    /// The stream of the tokens that this scanner has yet to give.
    pub fn peekable(self) -> (stream: Peekable)
        requires
            self.wf(),
        ensures
            stream.wf(),
            stream.rest() == tokens_from(self.lexer(), self.text()),
    {
        Peekable { tokenizer: self, peeked: None }
    }
}

impl Peekable {
    /// The tokens that the scanner has yet to give.
    pub closed spec fn unread(&self) -> Seq<TokenView> {
        tokens_from(self.tokenizer.lexer(), self.tokenizer.text())
    }

    /// The next token, taken out of the stream.
    pub fn next(&mut self) -> (token: Option<Token>)
        requires
            old(self).wf(),
        ensures
            final(self).wf(),
            view_of(token) == first(old(self).rest()),
            final(self).rest() == if old(self).rest().len() > 0 {
                old(self).rest().drop_first()
            } else {
                old(self).rest()
            },
    {
        let ghost before = self.unread();
        match self.peeked.take() {
            Some(token) => {
                assert(self.unread() == before);
                assert((seq![token.unwrap()@] + before).drop_first() =~= before);
                token
            },
            None => {
                proof {
                    lemma_tokens_unfold(self.tokenizer.lexer(), self.tokenizer.text());
                }
                let token = self.tokenizer.next();
                assert(token is Some ==> (seq![token.unwrap()@] + self.unread()).drop_first()
                    =~= self.unread());
                token
            },
        }
    }

    /// The next token, left in the stream.
    pub fn peek(&mut self) -> (token: Option<&Token>)
        requires
            old(self).wf(),
        ensures
            final(self).wf(),
            final(self).rest() == old(self).rest(),
            view_of_ref(token) == first(old(self).rest()),
    {
        if self.peeked.is_none() {
            proof {
                lemma_tokens_unfold(self.tokenizer.lexer(), self.tokenizer.text());
            }
            let token = self.tokenizer.next();
            self.peeked = Some(token);
        }
        match &self.peeked {
            Some(Some(token)) => Some(token),
            _ => None,
        }
    }
}

impl SkipNLPeekable for Peekable {
    closed spec fn rest(&self) -> Seq<TokenView> {
        match self.peeked {
            Some(Some(token)) => seq![token@] + self.unread(),
            Some(None) => Seq::empty(),
            None => self.unread(),
        }
    }

    closed spec fn wf(&self) -> bool {
        &&& self.tokenizer.wf()
        &&& self.peeked == Some(None::<Token>) ==> self.unread().len() == 0
    }

    fn peek_skipping_nl(&mut self) -> (token: Option<&Token>) {
        loop
            invariant
                self.wf(),
                skip_newlines(self.rest()) == skip_newlines(old(self).rest()),
            ensures
                first(self.rest()) != Some(TokenView::NewLine),
            decreases self.rest().len(),
        {
            let at_newline = match self.peek() {
                Some(Token::NewLine) => true,
                _ => false,
            };
            if !at_newline {
                break;
            }
            let _ = self.next();
        }
        self.peek()
    }
}

} // verus!
