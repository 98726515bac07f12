//! The error taxonomy of the front end.
//!
//! Every fault is fatal for the source unit being processed: it is reported
//! to the caller as a typed value and nothing is retried or resynchronized.

use vstd::prelude::*;
use crate::token::Token;

verus! {

/// What went wrong during scanning.
#[derive(Debug, Clone, Copy, PartialEq, Eq, Structural)]
pub enum LexErrorKind {
    /// A byte that does not begin any recognized token.
    UnexpectedCharacter,
    /// A quoted string's closing delimiter was never found, or a raw newline,
    /// carriage return or NUL byte appeared inside the string.
    UnterminatedString,
    /// A block comment's closing long-bracket was never found.
    UnterminatedComment,
    /// A long string's closing long-bracket was never found.
    UnterminatedLongString,
    /// A malformed `[` `=`* `[` opening sequence after `[` or `--[`.
    InvalidLongStringDelimiter,
    /// The decoded digits of a numeric literal cannot agree with a standard
    /// parse of the captured spelling (an exponent marker with no digits).
    NumericDecodeMismatch,
}

/// A fatal scanning fault: its kind, the 1-indexed position at the point of
/// failure, and the partial lexeme accumulated so far, where applicable.
#[derive(Debug, Clone, PartialEq, Eq)]
pub struct LexError {
    pub kind: LexErrorKind,
    pub line: usize,
    pub col: usize,
    pub partial: String,
}

/// A fatal parsing fault: either a scanning fault, or a token (or end of
/// input) where an operand was required.
#[derive(Debug, Clone)]
pub enum ParseError {
    /// The scanner failed while the parser asked for the next token.
    Lex(LexError),
    /// The current token cannot begin an operand (or the stream was already
    /// exhausted, carrying `None`).
    ExpectedOperand(Option<Token>),
}

} // verus!
