//! Front half of a small statically-typed, expression-oriented language:
//! a scanner, a recursive-descent / operator-precedence parser that builds a
//! syntax tree, and a lowering pass that produces a name-keyed intermediate
//! representation together with its validator.
//!
//! Every executable function carries a contract over the mathematical model
//! of its arguments (sequences of characters, sequences of tokens, views of
//! the syntax tree) and is proved against it.

pub mod ast;
pub mod chunk;
pub mod ir;
pub mod scanner;
pub mod values;
pub mod virtual_machine;
