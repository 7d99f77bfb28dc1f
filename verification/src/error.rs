//! What the lexer reports when the input is malformed.
use vstd::prelude::*;

verus! {

/// Failure to scan a number.
#[derive(Clone, Copy, Debug, PartialEq, Eq)]
pub enum Num {
    /// A run of digits was required where no digit stands.
    ExpectedDigit,
}

/// Failure to decode an escape sequence.
#[derive(Clone, Copy, Debug, PartialEq, Eq)]
pub enum Escape {
    /// The input ended before the escape sequence did.
    Eof,
    /// The byte after the backslash introduces no escape sequence.
    UnknownKind,
    /// The four bytes after `u` are not all hexadecimal digits.
    InvalidHex,
}

} // verus!
