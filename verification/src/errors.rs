//! The error taxonomy of the pipeline.
//!
//! Every error is terminal: the stage that meets one returns it to its
//! caller, and the caller gives up the whole run. The driver around the
//! library turns the recorded character, offset, or token into a
//! human-readable diagnostic.

use vstd::prelude::*;
use crate::token::Token;

verus! {

/// A failure of the tokenizer.
#[derive(Clone, Copy, PartialEq, Eq, Structural, Debug)]
pub enum LexError {
    /// A character that starts no token, at the given offset.
    UnexpectedChar { offset: usize, ch: char },
    /// A digit run whose value exceeds the target integer width, at the
    /// offset of its first digit.
    NumericOverflow { offset: usize },
}

/// A failure of the parser, each recording the token actually found.
#[derive(Clone, Copy, PartialEq, Eq, Structural, Debug)]
pub enum ParseError {
    /// A number token was required and something else stood there.
    ExpectedNumber { found: Token },
    /// An operator token was required and something else stood there.
    ExpectedOperator { found: Token },
    /// A specific operator symbol was demanded and not found.
    ExpectedSymbol { expected: char, found: Token },
}

} // verus!
