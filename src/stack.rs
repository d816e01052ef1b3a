//! The call stack: two-byte big-endian return addresses stored at the top
//! of memory, growing downward from the end of memory toward the register
//! window.
use crate::memory::REGISTER_WINDOW;
use vstd::prelude::*;

verus! {

/// Why a stack operation could not be carried out.
#[derive(Clone, Copy, Debug, PartialEq, Eq, Structural)]
pub enum StackFault {
    /// A push would write into the register window.
    Overflow,
    /// A pop would read past the top of memory.
    Underflow,
    /// The address to push does not fit in two bytes.
    AddressTooWide,
}

/// The outcome of pushing `address` on the stack held in `memory` with stack
/// pointer `sp`: the new memory and stack pointer, or the fault.
pub open spec fn spec_push(memory: Seq<u8>, sp: int, address: int) -> Result<
    (Seq<u8>, int),
    StackFault,
> {
    if address < 0 || address > 0xffff {
        Err(StackFault::AddressTooWide)
    } else if sp < REGISTER_WINDOW + 2 {
        Err(StackFault::Overflow)
    } else {
        Ok(
            (
                memory.update(sp - 2, (address / 256) as u8).update(sp - 1, (address % 256) as u8),
                sp - 2,
            ),
        )
    }
}

/// The outcome of popping the stack held in `memory` with stack pointer
/// `sp`: the address read and the new stack pointer, or the fault.
pub open spec fn spec_pop(memory: Seq<u8>, sp: int) -> Result<(int, int), StackFault> {
    if sp < 0 || sp + 2 > memory.len() {
        Err(StackFault::Underflow)
    } else {
        Ok((memory[sp] * 256 + memory[sp + 1], sp + 2))
    }
}

/// Pushes a return address: the stack pointer moves down by two, then the
/// high byte and the low byte are written at the new top, in that order.
pub fn push_to_stack(memory: &mut Vec<u8>, sp: &mut usize, address: usize) -> (r: Result<
    (),
    StackFault,
>)
    requires
        *old(sp) <= old(memory)@.len(),
    ensures
        match spec_push(old(memory)@, *old(sp) as int, address as int) {
            Ok((m, s)) => r is Ok && final(memory)@ == m && *final(sp) == s,
            Err(f) => r == Err::<(), StackFault>(f) && final(memory)@ == old(memory)@ && *final(sp)
                == *old(sp),
        },
{
    if address > 0xffff {
        return Err(StackFault::AddressTooWide);
    }
    if *sp < REGISTER_WINDOW + 2 {
        return Err(StackFault::Overflow);
    }
    *sp = *sp - 2;
    memory[*sp] = (address / 256) as u8;
    memory[*sp + 1] = (address % 256) as u8;
    Ok(())
}

/// Pops a return address: reads the high byte at the top, then the low byte
/// above it, and moves the stack pointer up by two.
pub fn pop_from_stack(memory: &[u8], sp: &mut usize) -> (r: Result<usize, StackFault>)
    ensures
        match spec_pop(memory@, *old(sp) as int) {
            Ok((a, s)) => r == Ok::<usize, StackFault>(a as usize) && *final(sp) == s,
            Err(f) => r == Err::<usize, StackFault>(f) && *final(sp) == *old(sp),
        },
        r matches Ok(a) ==> a <= 0xffff,
{
    if *sp > memory.len() || memory.len() - *sp < 2 {
        return Err(StackFault::Underflow);
    }
    let high = memory[*sp] as usize;
    let low = memory[*sp + 1] as usize;
    *sp = *sp + 2;
    Ok(high * 256 + low)
}

} // verus!
