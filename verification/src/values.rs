//! The kinds of value that compiled code works on.

use vstd::prelude::*;

verus! {

/// The kind of a value. A function pointer takes four bytes, a pointer
/// eight, a boolean and a character one each.
#[derive(Debug, Clone, Copy, PartialEq, Eq, Structural)]
pub enum ValueType {
    F64,
    I64,
    U64,
    F32,
    I32,
    U32,
    I16,
    U16,
    I8,
    U8,
    FuncPointer,
    Pointer,
    Bool,
    Char,
}

} // verus!
