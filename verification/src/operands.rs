//! The operator alphabet of the language.

use vstd::prelude::*;

verus! {

/// Unary operator: `!`, `+`, `-`.
#[derive(Clone, Copy, Debug, Eq, PartialEq, Structural)]
pub enum UnaryOp {
    Not,
    Plus,
    Minus,
}

/// Binary operator: `+`, `-`, `*`, `/`, `&`, `&&`, `|`, `||`, `^`, `^^`, `|>`.
#[derive(Clone, Copy, Debug, Eq, PartialEq, Structural)]
pub enum BinaryOp {
    Add,
    Sub,
    Mul,
    Div,
    BitAnd,
    And,
    BitOr,
    Or,
    BitXor,
    Xor,
    /// Pipe: feeds the left operand into the right.
    Pipe,
}

} // verus!
