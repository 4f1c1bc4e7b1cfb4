//! A reader for plain-text exports of chiptune tracker projects.
//!
//! The text is cut into tokens by [`tokenizer::Tokenizer`], and
//! [`parser::read_text`] assembles the tokens into a validated
//! [`sound_file::SoundFile`]. What the tokens of a text are is said by the
//! state machine in [`tokenizer`], and what document they make by the rules
//! in [`grammar`]; [`laws`] holds what follows from both.

pub mod error;
pub mod grammar;
pub mod hardware_interface;
pub mod interpreter;
pub mod laws;
pub mod number;
pub mod parser;
pub mod sound_file;
pub mod text;
pub mod tokenizer;
