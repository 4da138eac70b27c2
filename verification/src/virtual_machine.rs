//! How the virtual machine reads the bytes of its code. The machine itself
//! works on floating-point values and is no part of this library.

use vstd::prelude::*;

verus! {

/// Why the machine stopped.
#[derive(Debug, Clone, Copy, PartialEq, Eq, Structural)]
pub enum VMError {
    CompError,
    RuntimeError,
}

/// What a run of the machine returns.
pub type VMResult = Result<(), VMError>;

/// The slot index that the two bytes `top` and `bottom` make, `top` first.
pub open spec fn slot_of(top: u8, bottom: u8) -> u16 {
    (top as int * 256 + bottom as int) as u16
}

/// The byte at `ip`, which then moves on by one; a runtime error past the
/// end of the code, where `ip` stays.
pub fn read_byte(code: &Vec<u8>, ip: &mut usize) -> (res: Result<u8, VMError>)
    ensures
        match res {
            Ok(byte) => *old(ip) < code.len() && byte == code@[*old(ip) as int] && *final(ip)
                == *old(ip) + 1,
            Err(e) => *old(ip) >= code.len() && e == VMError::RuntimeError && *final(ip) == *old(
                ip,
            ),
        },
{
    if *ip < code.len() {
        let byte = code[*ip];
        *ip = *ip + 1;
        Ok(byte)
    } else {
        Err(VMError::RuntimeError)
    }
}

/// The slot index in the two bytes at `ip`, which then moves on by two; a
/// runtime error where the code ends before, with `ip` past the byte that
/// was there, if one was.
pub fn read_u16(code: &Vec<u8>, ip: &mut usize) -> (res: Result<u16, VMError>)
    ensures
        match res {
            Ok(slot) => *old(ip) + 1 < code.len() && slot == slot_of(
                code@[*old(ip) as int],
                code@[*old(ip) + 1],
            ) && *final(ip) == *old(ip) + 2,
            Err(e) => *old(ip) + 1 >= code.len() && e == VMError::RuntimeError && *final(ip)
                == if *old(ip) < code.len() {
                *old(ip) + 1
            } else {
                *old(ip) as int
            },
        },
{
    let top = read_byte(code, ip)?;
    let bottom = read_byte(code, ip)?;
    let slot: u16 = (top as u16) * 256 + (bottom as u16);
    Ok(slot)
}

} // verus!
