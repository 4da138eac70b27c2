//! The code of a lowered function.

use crate::ir::ir_type_data::{clone_functions, function_entries, Function, FunctionView};
use vstd::prelude::*;

verus! {

/// One instruction; variables are addressed by slot, jumps by offset.
#[derive(Debug, Clone)]
pub enum IRCode {
    VarCreate(u16, Calc),
    VarAssign(u16, Calc),
    FieldAssign(u16, u16, Calc),
    Jmp(usize),
    JNE(ValueAccess, ValueAccess),
    Call(ValueAccess, Vec<u16>),
}

/// A computation whose result an instruction stores.
#[derive(Debug, Clone)]
pub enum Calc {
    Alloc(u16),
    Clone(ValueAccess),
    ArrayAcess(ValueAccess, ValueAccess),
    FieldAccess(ValueAccess, u16),
    Add(ValueAccess, ValueAccess),
    Subtract(ValueAccess, ValueAccess),
    Multiply(ValueAccess, ValueAccess),
    Div(ValueAccess, ValueAccess),
    Mod(ValueAccess, ValueAccess),
    EQ(ValueAccess, ValueAccess),
    NE(ValueAccess, ValueAccess),
    LT(ValueAccess, ValueAccess),
    GT(ValueAccess, ValueAccess),
    LE(ValueAccess, ValueAccess),
    GE(ValueAccess, ValueAccess),
    BITAnd(ValueAccess, ValueAccess),
    BITOr(ValueAccess, ValueAccess),
    SHL(ValueAccess, ValueAccess),
    SHR(ValueAccess, ValueAccess),
    Negate(ValueAccess),
    Not(ValueAccess),
}

/// An operand: a variable by its slot, a constant, or a function by name.
/// A floating-point constant is held by its bits.
#[derive(Debug, Clone)]
pub enum ValueAccess {
    VarAccess(u16),
    IntConst(u64),
    FloatConst(u64),
    StringConst(String),
    True,
    False,
    Func(String),
}

/// The code of a function: the functions declared in it, and its instructions.
#[derive(Debug)]
pub struct IRChunk {
    pub functions: Vec<(String, Function)>,
    pub code: Vec<IRCode>,
}

/// The mathematical value of an [`IRChunk`].
pub ghost struct IRChunkView {
    pub functions: Seq<(Seq<char>, FunctionView)>,
    pub code: Seq<IRCode>,
}

/// The value of `x`.
pub open spec fn irchunk_view(x: IRChunk) -> IRChunkView
    decreases x,
{
    IRChunkView {
        functions: function_entries(x.functions@),
        code: x.code@,
    }
}

impl View for IRChunk {
    type V = IRChunkView;

    open spec fn view(&self) -> IRChunkView {
        irchunk_view(*self)
    }
}



/// A copy of `x`.
pub fn clone_irchunk(x: &IRChunk) -> (r: IRChunk)
    decreases x,
{
    IRChunk { functions: clone_functions(&x.functions), code: x.code.clone() }
}

impl Clone for IRChunk {
    fn clone(&self) -> (r: Self) {
        clone_irchunk(self)
    }
}

} // verus!
