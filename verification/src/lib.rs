//! Front end of a small expression language: literal lexers, operator
//! tables, and a precedence-climbing expression parser that produces an
//! abstract syntax tree of owned nodes.

pub mod ast;
pub mod errors;
pub mod grammar;
pub mod laws;
pub mod numeric;
pub mod operands;
pub mod parser;

mod chars;

pub use errors::Error;
