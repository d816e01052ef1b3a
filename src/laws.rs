//! Properties of the dispatcher that hold for every program and state,
//! proved from the step function.
use crate::brackets::{
    is_matching_close,
    is_matching_open,
    lemma_match_backward,
    lemma_match_forward,
    lemma_matching_close_unique,
    lemma_matching_open_unique,
    match_backward,
    match_forward,
    CLOSE,
    OPEN,
};
use crate::labels::operand_end;
use crate::stack::{spec_pop, spec_push, StackFault};
use crate::machine::{
    cell,
    fetch,
    lemma_step_runs,
    next_cell,
    spec_step,
    state_wf,
    write_cell,
    Event,
    Fault,
    MachineState,
};
use crate::memory::{
    spec_next_address,
    REGISTER_WINDOW,
    REG_IR,
    REG_PC,
    REG_SP,
    REG_SR,
    SR_DIVIDE_BY_ZERO,
    SR_OVERFLOW,
};
use vstd::prelude::*;

verus! {

/// Whether `s` is about to execute the opcode byte `op`.
pub open spec fn about_to_run(s: MachineState, op: u8) -> bool {
    &&& state_wf(s)
    &&& !s.halted
    &&& 0 <= s.pc < s.program.len()
    &&& s.program[s.pc] == op
}

/// Incrementing a data cell and then decrementing it gives the cell back
/// its value, for every value, and leaves all memory but the program
/// counter and instruction registers as it was.
pub proof fn lemma_increment_then_decrement(s: MachineState)
    requires
        about_to_run(s, 43),
        REGISTER_WINDOW <= s.ptr,
        s.pc + 1 < s.program.len(),
        s.program[s.pc + 1] == 45,
    ensures
        ({
            let s2 = spec_step(spec_step(s).0).0;
            &&& s2.ptr == s.ptr
            &&& s2.pc == s.pc + 2
            &&& cell(s2) == cell(s)
            &&& s2.memory.len() == s.memory.len()
            &&& forall|i: int|
                0 <= i < s.memory.len() && i != REG_PC && i != REG_IR ==> s2.memory[i]
                    == s.memory[i]
        }),
{
    lemma_increment_step(s);
    let s1 = spec_step(s).0;
    assert(cell(fetch(s)) == cell(s));
    lemma_decrement_step(s1);
    assert(cell(fetch(s1)) == cell(s1));
}

proof fn lemma_increment_step(s: MachineState)
    requires
        about_to_run(s, 43),
    ensures
        spec_step(s) == (write_cell(fetch(s), ((cell(fetch(s)) + 1) % 256) as u8), Event::Ran),
{
    lemma_step_runs(s);
}

proof fn lemma_decrement_step(s: MachineState)
    requires
        about_to_run(s, 45),
    ensures
        spec_step(s) == (write_cell(fetch(s), ((cell(fetch(s)) + 255) % 256) as u8), Event::Ran),
{
    lemma_step_runs(s);
}

/// Whether the arithmetic opcode `op` wraps around on operands `a` and `b`.
pub open spec fn wraps(op: u8, a: u8, b: u8) -> bool {
    if op == 65 {
        a + b > 255
    } else if op == 77 {
        a * b > 255
    } else {
        a < b
    }
}

/// The wrapped result of the arithmetic opcode `op` on `a` and `b`.
pub open spec fn wrapped_result(op: u8, a: u8, b: u8) -> u8 {
    if op == 65 {
        ((a + b) % 256) as u8
    } else if op == 77 {
        ((a * b) % 256) as u8
    } else {
        ((a - b + 256) % 256) as u8
    }
}

proof fn lemma_overflow_bit(x: u8)
    ensures
        (x | SR_OVERFLOW) & SR_OVERFLOW != 0,
        (x & !SR_OVERFLOW) & SR_OVERFLOW == 0,
        (x | SR_OVERFLOW) & !SR_OVERFLOW == x & !SR_OVERFLOW,
        (x & !SR_OVERFLOW) & !SR_OVERFLOW == x & !SR_OVERFLOW,
{
    assert((x | 1u8) & 1u8 != 0u8) by (bit_vector);
    assert((x & !1u8) & 1u8 == 0u8) by (bit_vector);
    assert((x | 1u8) & !1u8 == x & !1u8) by (bit_vector);
    assert((x & !1u8) & !1u8 == x & !1u8) by (bit_vector);
}

/// Addition, multiplication and subtraction write the wrapped result to the
/// current cell and set the overflow bit exactly when the operation wraps,
/// clearing it otherwise; the other status bits are kept. This holds
/// whenever the current cell is not the status register itself.
#[verifier::rlimit(20)]
pub proof fn lemma_arithmetic_overflow(s: MachineState, op: u8)
    requires
        op == 65 || op == 77 || op == 83,
        about_to_run(s, op),
        s.ptr != REG_SR,
    ensures
        ({
            let (s1, e) = spec_step(s);
            let (a, b) = (cell(fetch(s)), next_cell(fetch(s)));
            let sr = s1.memory[REG_SR as int];
            &&& e == Event::Ran
            &&& s1.memory[s.ptr] == wrapped_result(op, a, b)
            &&& (sr & SR_OVERFLOW != 0) == wraps(op, a, b)
            &&& sr & !SR_OVERFLOW == s.memory[REG_SR as int] & !SR_OVERFLOW
        }),
{
    lemma_step_runs(s);
    lemma_overflow_bit(s.memory[REG_SR as int]);
}

/// Division by zero leaves both operand cells as they were and sets the
/// divide-by-zero bit; otherwise the current cell takes the quotient and
/// the next cell the remainder, which together give back the dividend.
/// This holds whenever neither operand cell is the status register.
#[verifier::rlimit(20)]
pub proof fn lemma_divide(s: MachineState)
    requires
        about_to_run(s, 68),
        s.ptr != REG_SR,
        spec_next_address(s.ptr, s.memory.len() as int) != REG_SR,
    ensures
        ({
            let (s1, e) = spec_step(s);
            let nx = spec_next_address(s.ptr, s.memory.len() as int);
            let a = cell(fetch(s));
            let d = next_cell(fetch(s));
            &&& e == Event::Ran
            &&& d == 0 ==> s1.memory[s.ptr] == a && s1.memory[nx] == d && s1.memory[REG_SR as int]
                & SR_DIVIDE_BY_ZERO != 0
            &&& d != 0 ==> s1.memory[s.ptr] * d + s1.memory[nx] == a && s1.memory[nx] < d
        }),
{
    lemma_step_runs(s);
    let f = fetch(s);
    let x = f.memory[REG_SR as int];
    assert((x | 4u8) & 4u8 != 0u8) by (bit_vector);
    let a = cell(f);
    let d = next_cell(f);
    if d != 0 {
        assert((a / d) * d + a % d == a && a % d < d) by (nonlinear_arith)
            requires
                d > 0,
        ;
    }
}

/// `[` on a zero cell moves the program counter to just after its matching
/// `]`, at any nesting depth, and is a fatal error when there is none; on a
/// non-zero cell it moves on to the next instruction. The cell is read once
/// the opcode has been fetched.
#[verifier::rlimit(20)]
pub proof fn lemma_loop_open(s: MachineState, j: int)
    requires
        about_to_run(s, OPEN),
    ensures
        cell(fetch(s)) == 0 && is_matching_close(s.program, s.pc, j) ==> spec_step(s) == (
        MachineState { pc: j + 1, ..fetch(s) },
        Event::Ran,
        ),
        cell(fetch(s)) == 0 && (forall|k: int| !is_matching_close(s.program, s.pc, k)) ==> spec_step(s).1
            == Event::Fault(Fault::UnmatchedBracket { at: s.pc as usize }),
        cell(fetch(s)) != 0 ==> spec_step(s) == (MachineState { pc: s.pc + 1, ..fetch(s) }, Event::Ran),
{
    lemma_step_runs(s);
    lemma_match_forward(s.program, s.pc);
    if let Some(m) = match_forward(s.program, s.pc + 1, 1) {
        if is_matching_close(s.program, s.pc, j) {
            lemma_matching_close_unique(s.program, s.pc, j, m);
        }
    }
}

/// `]` on a non-zero cell moves the program counter to just after its
/// matching `[`, at any nesting depth, and is a fatal error when there is
/// none; on a zero cell it moves on to the next instruction. The cell is
/// read once the opcode has been fetched.
#[verifier::rlimit(20)]
pub proof fn lemma_loop_close(s: MachineState, j: int)
    requires
        about_to_run(s, CLOSE),
    ensures
        cell(fetch(s)) != 0 && is_matching_open(s.program, j, s.pc) ==> spec_step(s) == (
        MachineState { pc: j + 1, ..fetch(s) },
        Event::Ran,
        ),
        cell(fetch(s)) != 0 && (forall|k: int| !is_matching_open(s.program, k, s.pc)) ==> spec_step(s).1
            == Event::Fault(Fault::UnmatchedBracket { at: s.pc as usize }),
        cell(fetch(s)) == 0 ==> spec_step(s) == (MachineState { pc: s.pc + 1, ..fetch(s) }, Event::Ran),
{
    lemma_step_runs(s);
    lemma_match_backward(s.program, s.pc);
    if let Some(m) = match_backward(s.program, s.pc - 1, 1) {
        if is_matching_open(s.program, j, s.pc) {
            lemma_matching_open_unique(s.program, s.pc, j, m);
        }
    }
}

/// A call that succeeds, followed at once by a return, brings the program
/// counter back to the end of the call instruction (just past its label
/// operand) and the stack pointer back to where it was.
#[verifier::rlimit(20)]
pub proof fn lemma_call_then_return(s: MachineState)
    requires
        state_wf(s),
        !s.halted,
        0 <= s.pc < s.program.len(),
        s.program[s.pc] == 67,
        spec_step(s).1 == Event::Ran,
        0 <= spec_step(s).0.pc < s.program.len(),
        s.program[spec_step(s).0.pc] == 82,
    ensures
        ({
            let (s2, e) = spec_step(spec_step(s).0);
            &&& e == Event::Ran
            &&& s2.pc == operand_end(s.program, s.pc)
            &&& s2.sp == s.sp
        }),
{
    lemma_step_runs(s);
    let f = fetch(s);
    let s1 = spec_step(s).0;
    let ret = operand_end(s.program, s.pc);
    assert(spec_push(f.memory, f.sp, ret) is Ok);
    let (m, sp) = spec_push(f.memory, f.sp, ret).unwrap();
    assert(s1.memory == m.update(REG_SP as int, (sp % 256) as u8));
    assert(s1.sp == sp == s.sp - 2);
    assert(state_wf(s1));
    lemma_step_runs(s1);
    let f1 = fetch(s1);
    assert(f1.memory[sp] == (ret / 256) as u8);
    assert(f1.memory[sp + 1] == (ret % 256) as u8);
    assert(spec_pop(f1.memory, f1.sp) == Ok::<(int, int), StackFault>((ret, s.sp)));
}

} // verus!
