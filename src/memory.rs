//! The machine's memory: a flat byte array whose low end is a window of
//! named registers, addressed with wraparound.
use vstd::arithmetic::div_mod::{lemma_mod_adds, lemma_mod_self_0, lemma_small_mod};
use vstd::prelude::*;

verus! {

/// Number of bytes at the bottom of memory reserved for registers.
pub const REGISTER_WINDOW: usize = 16;

/// Memory size used when the caller does not choose one.
pub const DEFAULT_MEMORY_SIZE: usize = 65536;

/// Offset of the stack pointer register (low byte of the stack pointer).
pub const REG_SP: usize = 4;

/// Offset of the program counter register (low byte of the program counter).
pub const REG_PC: usize = 5;

/// Offset of the status register.
pub const REG_SR: usize = 6;

/// Offset of the instruction register (the opcode being executed).
pub const REG_IR: usize = 7;

/// Status bit: an arithmetic opcode wrapped around.
pub const SR_OVERFLOW: u8 = 1;

/// Status bit: reserved for a result below the representable range.
pub const SR_UNDERFLOW: u8 = 2;

/// Status bit: a division by zero was attempted.
pub const SR_DIVIDE_BY_ZERO: u8 = 4;

/// Status bit: an invalid instruction was met.
pub const SR_INVALID_INSTRUCTION: u8 = 8;

/// Status bit: an invalid memory access was attempted.
pub const SR_INVALID_MEMORY_ACCESS: u8 = 16;

/// Status bit: a misaligned memory access was attempted.
pub const SR_INVALID_MEMORY_ALIGNMENT: u8 = 32;

/// Status bit: the memory size is invalid.
pub const SR_INVALID_MEMORY_SIZE: u8 = 64;

/// Status bit: an address fell outside the valid range.
pub const SR_INVALID_MEMORY_RANGE: u8 = 128;

/// The named slots of the register window.
#[derive(Clone, Copy, Debug, PartialEq, Eq, Structural)]
pub enum Register {
    Zero,
    Sign,
    GeneralPurpose,
    InputOutput,
    StackPointer,
    ProgramCounter,
    Status,
    Instruction,
    BasePointer,
    Flags,
    ReturnAddress,
    Compare,
    Temp0,
    Temp1,
    Temp2,
    Temp3,
}

impl Register {
    /// The memory offset of the register, as a mathematical value.
    pub open spec fn spec_offset(self) -> int {
        match self {
            Register::Zero => 0,
            Register::Sign => 1,
            Register::GeneralPurpose => 2,
            Register::InputOutput => 3,
            Register::StackPointer => 4,
            Register::ProgramCounter => 5,
            Register::Status => 6,
            Register::Instruction => 7,
            Register::BasePointer => 8,
            Register::Flags => 9,
            Register::ReturnAddress => 10,
            Register::Compare => 11,
            Register::Temp0 => 12,
            Register::Temp1 => 13,
            Register::Temp2 => 14,
            Register::Temp3 => 15,
        }
    }

    /// The memory offset of the register.
    pub fn offset(self) -> (r: usize)
        ensures
            r == self.spec_offset(),
            r < REGISTER_WINDOW,
    {
        match self {
            Register::Zero => 0,
            Register::Sign => 1,
            Register::GeneralPurpose => 2,
            Register::InputOutput => 3,
            Register::StackPointer => REG_SP,
            Register::ProgramCounter => REG_PC,
            Register::Status => REG_SR,
            Register::Instruction => REG_IR,
            Register::BasePointer => 8,
            Register::Flags => 9,
            Register::ReturnAddress => 10,
            Register::Compare => 11,
            Register::Temp0 => 12,
            Register::Temp1 => 13,
            Register::Temp2 => 14,
            Register::Temp3 => 15,
        }
    }
}

/// The address one above `a` in a memory of `len` bytes, wrapping to 0.
pub open spec fn spec_next_address(a: int, len: int) -> int {
    if a + 1 >= len {
        0
    } else {
        a + 1
    }
}

/// The address one below `a` in a memory of `len` bytes, wrapping to the top.
pub open spec fn spec_prev_address(a: int, len: int) -> int {
    if a <= 0 {
        len - 1
    } else {
        a - 1
    }
}

/// Moves an address one up, wrapping modulo the memory length.
pub fn next_address(a: usize, len: usize) -> (r: usize)
    requires
        a < len,
    ensures
        r == spec_next_address(a as int, len as int),
        r < len,
        r as int == (a as int + 1) % (len as int),
{
    if a + 1 >= len {
        proof {
            lemma_mod_self_0(len as int);
        }
        0
    } else {
        proof {
            lemma_small_mod((a + 1) as nat, len as nat);
        }
        a + 1
    }
}

/// Moves an address one down, wrapping modulo the memory length.
pub fn prev_address(a: usize, len: usize) -> (r: usize)
    requires
        a < len,
    ensures
        r == spec_prev_address(a as int, len as int),
        r < len,
        r as int == (a as int + len as int - 1) % (len as int),
{
    if a == 0 {
        proof {
            lemma_small_mod((len - 1) as nat, len as nat);
        }
        len - 1
    } else {
        proof {
            lemma_mod_adds(a - 1, len as int, len as int);
            lemma_small_mod((a - 1) as nat, len as nat);
            lemma_mod_self_0(len as int);
        }
        a - 1
    }
}

} // verus!
