//! The instruction format that compiled code is written in: one byte for
//! the operation, then as many operand bytes as the operation takes.

use vstd::prelude::*;

verus! {

/// An operation. The operations are numbered from 0 in the order in which
/// they are written here.
#[derive(Debug, Clone, Copy, PartialEq, Eq, Structural)]
pub enum ByteCode {
    Return,
    Constant,
    Negate,
}

/// How many operations there are.
pub const BYTE_CODE_COUNT: u8 = 3;

/// The byte that stands for an operation.
pub open spec fn byte_of(op: ByteCode) -> u8 {
    match op {
        ByteCode::Return => 0,
        ByteCode::Constant => 1,
        ByteCode::Negate => 2,
    }
}

/// The operation that a byte stands for, if it stands for one.
pub open spec fn opcode_of(byte: u8) -> Option<ByteCode> {
    if byte == 0 {
        Some(ByteCode::Return)
    } else if byte == 1 {
        Some(ByteCode::Constant)
    } else if byte == 2 {
        Some(ByteCode::Negate)
    } else {
        None
    }
}

/// How many operand bytes follow an operation: none after `Return`, the
/// index of a constant after `Constant`, two slot indices of two bytes each
/// after `Negate`.
pub open spec fn operand_width(op: ByteCode) -> nat {
    match op {
        ByteCode::Return => 0,
        ByteCode::Constant => 1,
        ByteCode::Negate => 4,
    }
}

/// The offset of the instruction after the one at `offset`: past the
/// operands of an operation, and past the one byte that stands for none.
pub open spec fn next_offset(code: Seq<u8>, offset: int) -> int {
    match opcode_of(code[offset]) {
        Some(op) => offset + 1 + operand_width(op),
        None => offset + 1,
    }
}

/// The instruction at `offset` is whole: the operands of its operation are
/// all there.
pub open spec fn instruction_fits(code: Seq<u8>, offset: int) -> bool {
    0 <= offset < code.len() && next_offset(code, offset) <= code.len()
}

/// Operation to byte and back is lossless, and the bytes that stand for an
/// operation are those below the number of operations.
pub proof fn lemma_byte_code_round_trip(op: ByteCode, byte: u8)
    ensures
        opcode_of(byte_of(op)) == Some(op),
        byte_of(op) < BYTE_CODE_COUNT,
        opcode_of(byte) is Some <==> byte < BYTE_CODE_COUNT,
        opcode_of(byte) is Some ==> byte_of(opcode_of(byte)->0) == byte,
{
}

impl ByteCode {
    /// The byte that stands for the operation.
    pub fn into(self) -> (byte: u8)
        ensures
            byte == byte_of(self),
    {
        match self {
            ByteCode::Return => 0,
            ByteCode::Constant => 1,
            ByteCode::Negate => 2,
        }
    }

    /// The operation that `byte` stands for; an error where it stands for
    /// none.
    pub fn try_from(byte: u8) -> (res: Result<ByteCode, ()>)
        ensures
            match res {
                Ok(op) => opcode_of(byte) == Some(op),
                Err(_) => opcode_of(byte) is None,
            },
    {
        if byte < BYTE_CODE_COUNT {
            if byte == 0 {
                Ok(ByteCode::Return)
            } else if byte == 1 {
                Ok(ByteCode::Constant)
            } else {
                Ok(ByteCode::Negate)
            }
        } else {
            Err(())
        }
    }

    /// How many operand bytes follow the operation.
    pub fn operand_bytes(self) -> (n: usize)
        ensures
            n == operand_width(self),
    {
        match self {
            ByteCode::Return => 0,
            ByteCode::Constant => 1,
            ByteCode::Negate => 4,
        }
    }
}

/// Decodes the instruction at `offset`: its operation, if its first byte
/// stands for one, and the offset of the instruction after it.
pub fn decode_instruction(code: &Vec<u8>, offset: usize) -> (r: (Option<ByteCode>, usize))
    requires
        instruction_fits(code@, offset as int),
    ensures
        r.0 == opcode_of(code@[offset as int]),
        r.1 == next_offset(code@, offset as int),
        offset < r.1 <= code.len(),
{
    assert(offset < code.len());
    match ByteCode::try_from(code[offset]) {
        Ok(op) => {
            assert(offset + 1 + operand_width(op) <= code.len());
            (Some(op), offset + 1 + op.operand_bytes())
        },
        Err(_) => (None, offset + 1),
    }
}

/// Whether the instruction at `offset` is whole.
pub fn fits(code: &Vec<u8>, offset: usize) -> (r: bool)
    ensures
        r == instruction_fits(code@, offset as int),
{
    if offset >= code.len() {
        return false;
    }
    match ByteCode::try_from(code[offset]) {
        Ok(op) => op.operand_bytes() <= code.len() - offset - 1,
        Err(_) => true,
    }
}

} // verus!
