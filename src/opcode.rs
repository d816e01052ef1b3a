//! The instruction set: each opcode byte decoded once into a closed set of
//! variants, with every unrecognised byte a no-op.
use vstd::prelude::*;

verus! {

/// One decoded instruction.
#[derive(Clone, Copy, Debug, PartialEq, Eq, Structural)]
pub enum Opcode {
    /// `>`: move the data pointer up.
    Right,
    /// `<`: move the data pointer down.
    Left,
    /// `+`: increment the current cell.
    Increment,
    /// `-`: decrement the current cell.
    Decrement,
    /// `.`: emit the current cell.
    Output,
    /// `,`: read one byte into the current cell.
    Input,
    /// `[`: skip past the matching `]` when the current cell is zero.
    LoopOpen,
    /// `]`: return past the matching `[` when the current cell is non-zero.
    LoopClose,
    /// `0`: clear the current cell.
    Clear,
    /// `&`: bitwise AND of the current cell and the next.
    And,
    /// `|`: bitwise OR of the current cell and the next.
    Or,
    /// `^`: bitwise XOR of the current cell and the next.
    Xor,
    /// `~` or `!`: bitwise NOT of the current cell.
    Not,
    /// `#`: logical shift right by one.
    ShiftRight,
    /// `@`: logical shift left by one.
    ShiftLeft,
    /// `A`: wrapping addition, setting the overflow bit.
    Add,
    /// `M`: wrapping multiplication, setting the overflow bit.
    Multiply,
    /// `S`: wrapping subtraction, setting the overflow bit.
    Subtract,
    /// `D`: quotient and remainder.
    Divide,
    /// `%`: remainder.
    Modulo,
    /// `J`: jump to a label.
    Jump,
    /// `C`: call a label, pushing the return address.
    Call,
    /// `R`: return to the address on top of the stack.
    Return,
    /// `;`: halt.
    Halt,
    /// Any other byte: a comment.
    Nop,
}

/// The instruction that an opcode byte stands for.
pub open spec fn spec_decode(b: u8) -> Opcode {
    if b == 62 {
        Opcode::Right
    } else if b == 60 {
        Opcode::Left
    } else if b == 43 {
        Opcode::Increment
    } else if b == 45 {
        Opcode::Decrement
    } else if b == 46 {
        Opcode::Output
    } else if b == 44 {
        Opcode::Input
    } else if b == 91 {
        Opcode::LoopOpen
    } else if b == 93 {
        Opcode::LoopClose
    } else if b == 48 {
        Opcode::Clear
    } else if b == 38 {
        Opcode::And
    } else if b == 124 {
        Opcode::Or
    } else if b == 94 {
        Opcode::Xor
    } else if b == 126 || b == 33 {
        Opcode::Not
    } else if b == 35 {
        Opcode::ShiftRight
    } else if b == 64 {
        Opcode::ShiftLeft
    } else if b == 65 {
        Opcode::Add
    } else if b == 77 {
        Opcode::Multiply
    } else if b == 83 {
        Opcode::Subtract
    } else if b == 68 {
        Opcode::Divide
    } else if b == 37 {
        Opcode::Modulo
    } else if b == 74 {
        Opcode::Jump
    } else if b == 67 {
        Opcode::Call
    } else if b == 82 {
        Opcode::Return
    } else if b == 59 {
        Opcode::Halt
    } else {
        Opcode::Nop
    }
}

/// Decodes an opcode byte.
pub fn decode(b: u8) -> (r: Opcode)
    ensures
        r == spec_decode(b),
{
    match b {
        62 => Opcode::Right,
        60 => Opcode::Left,
        43 => Opcode::Increment,
        45 => Opcode::Decrement,
        46 => Opcode::Output,
        44 => Opcode::Input,
        91 => Opcode::LoopOpen,
        93 => Opcode::LoopClose,
        48 => Opcode::Clear,
        38 => Opcode::And,
        124 => Opcode::Or,
        94 => Opcode::Xor,
        126 | 33 => Opcode::Not,
        35 => Opcode::ShiftRight,
        64 => Opcode::ShiftLeft,
        65 => Opcode::Add,
        77 => Opcode::Multiply,
        83 => Opcode::Subtract,
        68 => Opcode::Divide,
        37 => Opcode::Modulo,
        74 => Opcode::Jump,
        67 => Opcode::Call,
        82 => Opcode::Return,
        59 => Opcode::Halt,
        _ => Opcode::Nop,
    }
}

} // verus!
