//! The error type of the reader, and the small enums it is made of.

use vstd::prelude::*;
use crate::tokenizer::Location;

verus! {

/// Why a number lexeme could not be decoded.
#[derive(Clone, Copy, Debug, PartialEq, Eq, Structural)]
pub enum NumError {
    /// The lexeme has no characters.
    Empty,
    /// The lexeme holds a character that is no digit of the radix, or is a
    /// sign with no digit behind it.
    InvalidDigit,
    /// The digits stand for a number above the largest value of the field.
    TooLarge,
    /// The digits stand for a number below the smallest value of the field.
    TooSmall,
}

/// Why a lexeme is no effect code.
#[derive(Clone, Copy, Debug, PartialEq, Eq, Structural)]
pub enum EffectError {
    /// The lexeme is not three characters long.
    Length,
    /// The first character is no known effect tag.
    UnknownTag,
    /// The two characters behind the tag are not two hexadecimal digits.
    Operand,
    /// A volume slide with both nibbles set.
    SlideBothWays,
}

/// The kind of a token, without what it carries; `End` stands for the end
/// of the text.
#[derive(Clone, Copy, Debug, PartialEq, Eq, Structural)]
pub enum TokenKind {
    IdentNum,
    Colon,
    String,
    Note,
    Dot,
    DotDot,
    DotDotDot,
    NewLine,
    Empty,
    Error,
    End,
}

/// What a grammar rule asked for at some place.
#[derive(Clone, Copy, Debug, PartialEq, Eq, Structural)]
pub enum Expected {
    /// A command keyword at the start of a line.
    Command,
    /// A string literal.
    String,
    /// The end of the line.
    NewLine,
    /// A colon.
    Colon,
    /// A decimal field.
    Decimal,
    /// A hexadecimal field.
    Hex,
    /// A pitch, or `...`.
    Note,
    /// An instrument number, or `..`.
    Instrument,
    /// A volume, or `.`.
    Volume,
    /// An effect code, or `...`.
    Effect,
    /// The `COLUMNS` line of a track.
    Columns,
}

/// Why a parse failed. A failed parse gives exactly one of these and no
/// document.
#[derive(Clone, Copy, Debug, PartialEq, Eq, Structural)]
pub enum ParseError {
    /// The tokenizer met a character it has no rule for, at this place.
    Lexical(char, Location),
    /// An empty token reached the parser.
    EmptyToken,
    /// A rule asked for one kind of token and found another, or the end of
    /// the text.
    Unexpected(Expected, TokenKind),
    /// A line begins with a word that is no command.
    UnknownCommand,
    /// A track has a first nested line, and it is not `COLUMNS`.
    MissingColumns,
    /// A number field could not be decoded, or does not fit where it goes.
    Number(NumError),
    /// The bytes under a `DPCMDEF` are not as many as it declares.
    DpcmLength,
    /// An `ORDER` line does not list one pattern for each channel.
    OrderLength,
    /// A pattern has more rows than the track declares.
    PatternLength,
    /// A volume above 15.
    Volume,
    /// A loop flag that is neither 0 nor 1.
    LoopFlag,
    /// A row of a channel that declares more effect columns than a cell has
    /// slots.
    EffectColumns,
    /// An effect code could not be decoded.
    Effect(EffectError),
}

} // verus!
