//! The error taxonomy of the library.
//!
//! Parsing signals failure through `Option` return values; the typed errors
//! here cover post-parse validation (identifier and number construction) and
//! reserve the variants a future evaluator would raise.

use vstd::prelude::*;

verus! {

/// An error raised by the library.
#[derive(Debug)]
pub enum Error {
    /// A native floating-point value could not be converted to a number
    /// literal (NaN, infinity, or out of range).
    F64ConversionError,
    /// A lexing failure, with a message.
    LexerError(String),
    /// A parsing failure, with a message.
    ParserError(String),
    /// A syntax failure raised by validation, with a message.
    SyntaxError(String),
    /// A runtime failure, reserved for a future evaluator.
    RuntimeError(RuntimeError),
}

/// A runtime error, reserved for a future evaluator; nothing in the
/// parsing front end raises one.
#[derive(Debug, PartialEq)]
pub enum RuntimeError {
    InvalidOperandType,
    CannotCompare(String, String),
    DivisionByZero,
}

} // verus!
