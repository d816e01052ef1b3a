//! The instruction dispatcher: a machine that fetches, decodes and executes
//! one opcode per step, and the mathematical model that each step follows.
//!
//! A step never performs I/O. Output comes back as an event; when the input
//! opcode finds no byte buffered the step returns `NeedsInput` and leaves
//! the machine untouched, so that the caller can supply one byte and step
//! again.
use crate::brackets::{find_matching_close, find_matching_open, match_backward, match_forward};
use crate::labels::{
    copy_range,
    label_decls,
    label_operand,
    lookup,
    operand_end,
    operand_name,
    parse_labels,
    resolve_address,
    LabelTable,
};
use crate::memory::{
    next_address,
    prev_address,
    Register,
    spec_next_address,
    spec_prev_address,
    REGISTER_WINDOW,
    REG_IR,
    REG_PC,
    REG_SP,
    REG_SR,
    SR_DIVIDE_BY_ZERO,
    SR_OVERFLOW,
};
use crate::opcode::{decode, spec_decode, Opcode};
use crate::stack::{pop_from_stack, push_to_stack, spec_pop, spec_push, StackFault};
use vstd::prelude::*;

verus! {

/// A fatal condition that stops execution.
#[derive(Clone, Copy, Debug, PartialEq, Eq, Structural)]
pub enum Fault {
    /// The loop bracket at `at` has no partner.
    UnmatchedBracket { at: usize },
    /// The jump or call at `at` names a label that is not declared.
    UnresolvedLabel { at: usize },
    /// The call or return at `at` could not use the stack.
    Stack { fault: StackFault, at: usize },
}

/// What one step did.
#[derive(Clone, Copy, Debug, PartialEq, Eq, Structural)]
pub enum Event {
    /// An instruction executed with no output.
    Ran,
    /// An instruction emitted this byte.
    Output(u8),
    /// The input opcode needs a byte; nothing was executed.
    NeedsInput,
    /// The machine is halted; nothing was executed.
    Halted,
    /// A fatal condition stopped the machine.
    Fault(Fault),
}

/// A configuration that is rejected before anything runs.
#[derive(Clone, Copy, Debug, PartialEq, Eq, Structural)]
pub enum ConfigError {
    /// The memory cannot even hold the register window.
    MemoryTooSmall { size: usize },
}

/// The mathematical state of a machine.
pub struct MachineState {
    /// The program text.
    pub program: Seq<u8>,
    /// The label declarations of the program, in text order.
    pub labels: Seq<(Seq<u8>, int)>,
    /// All of memory, register window included.
    pub memory: Seq<u8>,
    /// The data pointer.
    pub ptr: int,
    /// The program counter: an index into the program text.
    pub pc: int,
    /// The stack pointer: the index of the top byte of the call stack.
    pub sp: int,
    /// The input byte buffered for the next input opcode.
    pub input: Option<u8>,
    /// Whether execution has stopped.
    pub halted: bool,
}

/// The invariant of every machine state.
pub open spec fn state_wf(s: MachineState) -> bool {
    &&& s.labels == label_decls(s.program)
    &&& REGISTER_WINDOW <= s.memory.len()
    &&& 0 <= s.ptr < s.memory.len()
    &&& REGISTER_WINDOW <= s.sp <= s.memory.len()
    &&& 0 <= s.pc
}

/// The state in which a program starts in a memory of `size` bytes: memory
/// cleared but for the stack pointer register, the data pointer just past
/// the register window (wrapped when memory holds nothing more), the
/// program counter at 0 and the stack empty.
pub open spec fn initial_state(program: Seq<u8>, size: nat) -> MachineState {
    MachineState {
        program,
        labels: label_decls(program),
        memory: Seq::new(size, |i: int| 0u8).update(REG_SP as int, (size % 256) as u8),
        ptr: REGISTER_WINDOW as int % size as int,
        pc: 0,
        sp: size as int,
        input: None,
        halted: false,
    }
}

/// The byte at the data pointer.
pub open spec fn cell(s: MachineState) -> u8 {
    s.memory[s.ptr]
}

/// The byte just above the data pointer, wrapping.
pub open spec fn next_cell(s: MachineState) -> u8 {
    s.memory[spec_next_address(s.ptr, s.memory.len() as int)]
}

/// The state after an instruction that changes nothing else.
pub open spec fn advance(s: MachineState) -> MachineState {
    MachineState { pc: s.pc + 1, ..s }
}

/// The state after an instruction that writes `v` to the current cell.
pub open spec fn write_cell(s: MachineState, v: u8) -> MachineState {
    MachineState { memory: s.memory.update(s.ptr, v), pc: s.pc + 1, ..s }
}

/// The status register after an arithmetic opcode: the overflow bit set
/// when the operation wrapped and cleared when it did not.
pub open spec fn with_overflow(sr: u8, wrapped: bool) -> u8 {
    if wrapped {
        sr | SR_OVERFLOW
    } else {
        sr & !SR_OVERFLOW
    }
}

/// The state after an arithmetic opcode whose result is `v`.
pub open spec fn write_arith(s: MachineState, v: u8, wrapped: bool) -> MachineState {
    let m = s.memory.update(s.ptr, v);
    MachineState {
        memory: m.update(REG_SR as int, with_overflow(m[REG_SR as int], wrapped)),
        pc: s.pc + 1,
        ..s
    }
}

/// The outcome of a fatal condition.
pub open spec fn fault(s: MachineState, f: Fault) -> (MachineState, Event) {
    (MachineState { halted: true, ..s }, Event::Fault(f))
}

/// The effect of executing `op` at the program counter, once the program
/// counter and instruction registers have been written.
pub open spec fn spec_execute(s: MachineState, op: Opcode) -> (MachineState, Event) {
    let len = s.memory.len() as int;
    let a = cell(s);
    let b = next_cell(s);
    let at = s.pc as usize;
    match op {
        Opcode::Right => (MachineState { ptr: spec_next_address(s.ptr, len), pc: s.pc + 1, ..s }, Event::Ran),
        Opcode::Left => (MachineState { ptr: spec_prev_address(s.ptr, len), pc: s.pc + 1, ..s }, Event::Ran),
        Opcode::Increment => (write_cell(s, ((a + 1) % 256) as u8), Event::Ran),
        Opcode::Decrement => (write_cell(s, ((a + 255) % 256) as u8), Event::Ran),
        Opcode::Output => (advance(s), Event::Output(a)),
        Opcode::Input => match s.input {
            Some(v) => (MachineState { input: None, ..write_cell(s, v) }, Event::Ran),
            None => (s, Event::NeedsInput),
        },
        Opcode::LoopOpen => if a == 0 {
            match match_forward(s.program, s.pc + 1, 1) {
                Some(j) => (MachineState { pc: j + 1, ..s }, Event::Ran),
                None => fault(s, Fault::UnmatchedBracket { at }),
            }
        } else {
            (advance(s), Event::Ran)
        },
        Opcode::LoopClose => if a != 0 {
            match match_backward(s.program, s.pc - 1, 1) {
                Some(j) => (MachineState { pc: j + 1, ..s }, Event::Ran),
                None => fault(s, Fault::UnmatchedBracket { at }),
            }
        } else {
            (advance(s), Event::Ran)
        },
        Opcode::Clear => (write_cell(s, 0), Event::Ran),
        Opcode::And => (write_cell(s, a & b), Event::Ran),
        Opcode::Or => (write_cell(s, a | b), Event::Ran),
        Opcode::Xor => (write_cell(s, a ^ b), Event::Ran),
        Opcode::Not => (write_cell(s, !a), Event::Ran),
        Opcode::ShiftRight => (write_cell(s, a / 2), Event::Ran),
        Opcode::ShiftLeft => (write_cell(s, ((a * 2) % 256) as u8), Event::Ran),
        Opcode::Add => (write_arith(s, ((a + b) % 256) as u8, a + b > 255), Event::Ran),
        Opcode::Multiply => (write_arith(s, ((a * b) % 256) as u8, a * b > 255), Event::Ran),
        Opcode::Subtract => (write_arith(s, ((a - b + 256) % 256) as u8, a < b), Event::Ran),
        Opcode::Divide => if b == 0 {
            (
                MachineState {
                    memory: s.memory.update(
                        REG_SR as int,
                        s.memory[REG_SR as int] | SR_DIVIDE_BY_ZERO,
                    ),
                    pc: s.pc + 1,
                    ..s
                },
                Event::Ran,
            )
        } else {
            (
                MachineState {
                    memory: s.memory.update(s.ptr, (a / b) as u8).update(
                        spec_next_address(s.ptr, len),
                        (a % b) as u8,
                    ),
                    pc: s.pc + 1,
                    ..s
                },
                Event::Ran,
            )
        },
        Opcode::Modulo => if b == 0 {
            (advance(s), Event::Ran)
        } else {
            (write_cell(s, (a % b) as u8), Event::Ran)
        },
        Opcode::Jump => match lookup(s.labels, operand_name(s.program, s.pc)) {
            Some(t) => (MachineState { pc: t, ..s }, Event::Ran),
            None => fault(s, Fault::UnresolvedLabel { at }),
        },
        Opcode::Call => match lookup(s.labels, operand_name(s.program, s.pc)) {
            Some(t) => match spec_push(s.memory, s.sp, operand_end(s.program, s.pc)) {
                Ok((m, sp)) => (
                    MachineState {
                        memory: m.update(REG_SP as int, (sp % 256) as u8),
                        sp,
                        pc: t,
                        ..s
                    },
                    Event::Ran,
                ),
                Err(f) => fault(s, Fault::Stack { fault: f, at }),
            },
            None => fault(s, Fault::UnresolvedLabel { at }),
        },
        Opcode::Return => match spec_pop(s.memory, s.sp) {
            Ok((t, sp)) => (
                MachineState { memory: s.memory.update(REG_SP as int, (sp % 256) as u8), sp, pc: t, ..s },
                Event::Ran,
            ),
            Err(f) => fault(s, Fault::Stack { fault: f, at }),
        },
        Opcode::Halt => (MachineState { halted: true, ..s }, Event::Halted),
        Opcode::Nop => (advance(s), Event::Ran),
    }
}

/// The state once the opcode at the program counter has been fetched: the
/// program counter register holds the low byte of the program counter and
/// the instruction register the opcode byte.
pub open spec fn fetch(s: MachineState) -> MachineState {
    MachineState {
        memory: s.memory.update(REG_PC as int, (s.pc % 256) as u8).update(
            REG_IR as int,
            s.program[s.pc],
        ),
        ..s
    }
}

/// What a step does to a running machine that is not waiting for input.
pub proof fn lemma_step_runs(s: MachineState)
    requires
        !s.halted,
        0 <= s.pc < s.program.len(),
        spec_decode(s.program[s.pc]) == Opcode::Input ==> s.input is Some,
    ensures
        spec_step(s) == spec_execute(fetch(s), spec_decode(s.program[s.pc])),
{
    reveal(spec_step);
}

/// One step of the machine: the new state and what happened.
///
/// A halted machine, or one whose program counter has run past the program,
/// halts. An input opcode with no byte buffered asks for one and changes
/// nothing. Otherwise the program counter register takes the low byte of
/// the program counter, the instruction register the opcode byte, and the
/// opcode executes.
#[verifier::opaque]
pub open spec fn spec_step(s: MachineState) -> (MachineState, Event) {
    if s.halted || s.pc < 0 || s.pc >= s.program.len() {
        (MachineState { halted: true, ..s }, Event::Halted)
    } else {
        let b = s.program[s.pc];
        if spec_decode(b) == Opcode::Input && s.input is None {
            (s, Event::NeedsInput)
        } else {
            spec_execute(fetch(s), spec_decode(b))
        }
    }
}

/// A running program: its text and label table, its memory, and its
/// pointers.
pub struct Machine {
    program: Vec<u8>,
    labels: LabelTable,
    memory: Vec<u8>,
    ptr: usize,
    pc: usize,
    sp: usize,
    input: Option<u8>,
    halted: bool,
}

impl View for Machine {
    type V = MachineState;

    closed spec fn view(&self) -> MachineState {
        MachineState {
            program: self.program@,
            labels: self.labels@,
            memory: self.memory@,
            ptr: self.ptr as int,
            pc: self.pc as int,
            sp: self.sp as int,
            input: self.input,
            halted: self.halted,
        }
    }
}

impl Machine {
    /// The machine's invariant.
    pub open spec fn wf(&self) -> bool {
        state_wf(self@)
    }

    /// Loads `program` into a fresh machine with `memory_size` bytes of
    /// memory; a memory smaller than the register window is rejected.
    pub fn new(program: Vec<u8>, memory_size: usize) -> (r: Result<Machine, ConfigError>)
        ensures
            memory_size < REGISTER_WINDOW <==> (r is Err),
            r matches Err(e) ==> e == (ConfigError::MemoryTooSmall { size: memory_size }),
            r matches Ok(m) ==> m.wf() && m@ == initial_state(program@, memory_size as nat),
    {
        if memory_size < REGISTER_WINDOW {
            return Err(ConfigError::MemoryTooSmall { size: memory_size });
        }
        let labels = parse_labels(program.as_slice());
        let mut memory = vec![0u8; memory_size];
        memory[REG_SP] = (memory_size % 256) as u8;
        let m = Machine {
            program,
            labels,
            memory,
            ptr: REGISTER_WINDOW % memory_size,
            pc: 0,
            sp: memory_size,
            input: None,
            halted: false,
        };
        assert(m@.memory =~= initial_state(program@, memory_size as nat).memory);
        Ok(m)
    }

    /// The program text.
    pub fn program(&self) -> (r: &[u8])
        ensures
            r@ == self@.program,
    {
        self.program.as_slice()
    }

    /// The label table built from the program text.
    pub fn labels(&self) -> (r: &LabelTable)
        ensures
            r@ == self@.labels,
    {
        &self.labels
    }

    /// All of memory, register window included.
    pub fn memory(&self) -> (r: &[u8])
        ensures
            r@ == self@.memory,
    {
        self.memory.as_slice()
    }

    /// The byte at the data pointer.
    pub fn current_cell(&self) -> (r: u8)
        requires
            self.wf(),
        ensures
            r == cell(self@),
    {
        self.memory[self.ptr]
    }

    /// The value of a register.
    pub fn register(&self, which: Register) -> (r: u8)
        requires
            self.wf(),
        ensures
            r == self@.memory[which.spec_offset()],
    {
        self.memory[which.offset()]
    }

    /// The data pointer.
    pub fn data_pointer(&self) -> (r: usize)
        ensures
            r == self@.ptr,
    {
        self.ptr
    }

    /// The program counter.
    pub fn program_counter(&self) -> (r: usize)
        ensures
            r == self@.pc,
    {
        self.pc
    }

    /// The stack pointer.
    pub fn stack_pointer(&self) -> (r: usize)
        ensures
            r == self@.sp,
    {
        self.sp
    }

    /// The input byte buffered for the next input opcode, if any.
    pub fn pending_input(&self) -> (r: Option<u8>)
        ensures
            r == self@.input,
    {
        self.input
    }

    /// Whether execution has stopped.
    pub fn is_halted(&self) -> (r: bool)
        ensures
            r == self@.halted,
    {
        self.halted
    }

    /// Buffers one input byte for the next input opcode.
    pub fn provide_input(&mut self, b: u8)
        requires
            old(self).wf(),
        ensures
            final(self).wf(),
            final(self)@ == (MachineState { input: Some(b), ..old(self)@ }),
    {
        self.input = Some(b);
    }

    /// Executes one instruction, following `spec_step` exactly.
    pub fn step(&mut self) -> (e: Event)
        requires
            old(self).wf(),
        ensures
            final(self).wf(),
            (final(self)@, e) == spec_step(old(self)@),
            e == Event::NeedsInput ==> final(self)@ == old(self)@,
    {
        reveal(spec_step);
        if self.halted || self.pc >= self.program.len() {
            self.halted = true;
            return Event::Halted;
        }
        let b = self.program[self.pc];
        let op = decode(b);
        if op == Opcode::Input && self.input.is_none() {
            return Event::NeedsInput;
        }
        self.memory[REG_PC] = (self.pc % 256) as u8;
        self.memory[REG_IR] = b;
        self.execute(op)
    }

    /// Executes `op`, the opcode at the program counter, once it has been
    /// fetched.
    fn execute(&mut self, op: Opcode) -> (e: Event)
        requires
            old(self).wf(),
            !old(self).halted,
            old(self).pc < old(self).program.len(),
            op == spec_decode(old(self).program@[old(self).pc as int]),
            op == Opcode::Input ==> old(self).input is Some,
        ensures
            final(self).wf(),
            (final(self)@, e) == spec_execute(old(self)@, op),
    {
        let len = self.memory.len();
        let ptr = self.ptr;
        let nx = next_address(ptr, len);
        let a = self.memory[ptr];
        let b = self.memory[nx];
        let at = self.pc;
        match op {
            Opcode::Right => {
                self.ptr = nx;
                self.pc = self.pc + 1;
                Event::Ran
            },
            Opcode::Left => {
                self.ptr = prev_address(ptr, len);
                self.pc = self.pc + 1;
                Event::Ran
            },
            Opcode::Increment => self.write_cell(((a as u16 + 1) % 256) as u8),
            Opcode::Decrement => self.write_cell(((a as u16 + 255) % 256) as u8),
            Opcode::Output => {
                self.pc = self.pc + 1;
                Event::Output(a)
            },
            Opcode::Input => {
                let v = match self.input {
                    Some(v) => v,
                    None => 0,
                };
                self.input = None;
                self.write_cell(v)
            },
            Opcode::LoopOpen => {
                if a == 0 {
                    match find_matching_close(self.program.as_slice(), at) {
                        Some(j) => {
                            self.pc = j + 1;
                            Event::Ran
                        },
                        None => self.fault(Fault::UnmatchedBracket { at }),
                    }
                } else {
                    self.pc = self.pc + 1;
                    Event::Ran
                }
            },
            Opcode::LoopClose => {
                if a != 0 {
                    match find_matching_open(self.program.as_slice(), at) {
                        Some(j) => {
                            self.pc = j + 1;
                            Event::Ran
                        },
                        None => self.fault(Fault::UnmatchedBracket { at }),
                    }
                } else {
                    self.pc = self.pc + 1;
                    Event::Ran
                }
            },
            Opcode::Clear => self.write_cell(0),
            Opcode::And => self.write_cell(a & b),
            Opcode::Or => self.write_cell(a | b),
            Opcode::Xor => self.write_cell(a ^ b),
            Opcode::Not => self.write_cell(!a),
            Opcode::ShiftRight => self.write_cell(a / 2),
            Opcode::ShiftLeft => self.write_cell(((a as u16 * 2) % 256) as u8),
            Opcode::Add => {
                let sum = a as u16 + b as u16;
                self.write_arith((sum % 256) as u8, sum > 255)
            },
            Opcode::Multiply => {
                assert(a as int * b as int <= 255 * 255) by (nonlinear_arith)
                    requires
                        a <= 255,
                        b <= 255,
                ;
                let product = a as u16 * b as u16;
                self.write_arith((product % 256) as u8, product > 255)
            },
            Opcode::Subtract => {
                let difference = a as u16 + 256 - b as u16;
                self.write_arith((difference % 256) as u8, a < b)
            },
            Opcode::Divide => {
                if b == 0 {
                    self.memory[REG_SR] = self.memory[REG_SR] | SR_DIVIDE_BY_ZERO;
                } else {
                    self.memory[ptr] = a / b;
                    self.memory[nx] = a % b;
                }
                self.pc = self.pc + 1;
                Event::Ran
            },
            Opcode::Modulo => {
                if b == 0 {
                    self.pc = self.pc + 1;
                    Event::Ran
                } else {
                    self.write_cell(a % b)
                }
            },
            Opcode::Jump => match self.operand_target(at) {
                Some(t) => {
                    self.pc = t;
                    Event::Ran
                },
                None => self.fault(Fault::UnresolvedLabel { at }),
            },
            Opcode::Call => match self.operand_target(at) {
                Some(t) => {
                    let (_, ret) = label_operand(self.program.as_slice(), at);
                    match push_to_stack(&mut self.memory, &mut self.sp, ret) {
                        Ok(()) => {
                            self.memory[REG_SP] = (self.sp % 256) as u8;
                            self.pc = t;
                            Event::Ran
                        },
                        Err(f) => self.fault(Fault::Stack { fault: f, at }),
                    }
                },
                None => self.fault(Fault::UnresolvedLabel { at }),
            },
            Opcode::Return => match pop_from_stack(self.memory.as_slice(), &mut self.sp) {
                Ok(t) => {
                    self.memory[REG_SP] = (self.sp % 256) as u8;
                    self.pc = t;
                    Event::Ran
                },
                Err(f) => self.fault(Fault::Stack { fault: f, at }),
            },
            Opcode::Halt => {
                self.halted = true;
                Event::Halted
            },
            Opcode::Nop => {
                self.pc = self.pc + 1;
                Event::Ran
            },
        }
    }

    /// Writes `v` to the current cell and moves to the next instruction.
    fn write_cell(&mut self, v: u8) -> (e: Event)
        requires
            old(self).wf(),
            old(self).pc < old(self).program.len(),
        ensures
            final(self).wf(),
            final(self)@ == write_cell(old(self)@, v),
            e == Event::Ran,
    {
        self.memory[self.ptr] = v;
        self.pc = self.pc + 1;
        Event::Ran
    }

    /// Writes the result `v` of an arithmetic opcode to the current cell,
    /// sets or clears the overflow bit, and moves to the next instruction.
    fn write_arith(&mut self, v: u8, wrapped: bool) -> (e: Event)
        requires
            old(self).wf(),
            old(self).pc < old(self).program.len(),
        ensures
            final(self).wf(),
            final(self)@ == write_arith(old(self)@, v, wrapped),
            e == Event::Ran,
    {
        self.memory[self.ptr] = v;
        let sr = self.memory[REG_SR];
        self.memory[REG_SR] = if wrapped {
            sr | SR_OVERFLOW
        } else {
            sr & !SR_OVERFLOW
        };
        self.pc = self.pc + 1;
        Event::Ran
    }

    /// Stops the machine on a fatal condition.
    fn fault(&mut self, f: Fault) -> (e: Event)
        requires
            old(self).wf(),
        ensures
            final(self).wf(),
            (final(self)@, e) == fault(old(self)@, f),
    {
        self.halted = true;
        Event::Fault(f)
    }

    /// The address bound to the label named by the operand of the jump or
    /// call opcode at `at`.
    fn operand_target(&self, at: usize) -> (r: Option<usize>)
        requires
            self.wf(),
            at < self.program.len(),
        ensures
            r is Some <==> lookup(self@.labels, operand_name(self@.program, at as int)) is Some,
            r matches Some(t) ==> lookup(self@.labels, operand_name(self@.program, at as int))
                == Some(t as int),
    {
        let (start, end) = label_operand(self.program.as_slice(), at);
        let name = copy_range(self.program.as_slice(), start, end);
        resolve_address(&self.labels, name.as_slice())
    }
}

/// Why a bounded run stopped.
#[derive(Clone, Copy, Debug, PartialEq, Eq, Structural)]
pub enum Stop {
    /// The program halted.
    Halted,
    /// A fatal condition stopped the program.
    Fault(Fault),
    /// The program wanted input and none was left.
    InputExhausted,
    /// The step budget ran out first.
    StepLimit,
}

/// Runs the machine from `s` for at most `fuel` steps, feeding it `input`
/// one byte at a time as input opcodes ask for it and appending what it
/// emits to `out`: the final state, all output, and why it stopped. Every
/// step counts against the budget, and so does every byte supplied.
pub open spec fn spec_run(s: MachineState, input: Seq<u8>, fuel: nat, out: Seq<u8>) -> (
    MachineState,
    Seq<u8>,
    Stop,
)
    decreases fuel,
{
    if fuel == 0 {
        (s, out, Stop::StepLimit)
    } else {
        let (next, e) = spec_step(s);
        match e {
            Event::Ran => spec_run(next, input, (fuel - 1) as nat, out),
            Event::Output(b) => spec_run(next, input, (fuel - 1) as nat, out.push(b)),
            Event::NeedsInput => if input.len() == 0 {
                (s, out, Stop::InputExhausted)
            } else {
                spec_run(
                    MachineState { input: Some(input[0]), ..s },
                    input.drop_first(),
                    (fuel - 1) as nat,
                    out,
                )
            },
            Event::Halted => (next, out, Stop::Halted),
            Event::Fault(f) => (next, out, Stop::Fault(f)),
        }
    }
}

/// The result of a bounded run.
pub struct RunResult {
    /// The machine as the run left it.
    pub machine: Machine,
    /// Every byte emitted, in order.
    pub output: Vec<u8>,
    /// Why the run stopped.
    pub stop: Stop,
}

/// Loads `program` into a machine with `memory_size` bytes of memory and
/// runs it for at most `max_steps` steps, reading from `input`, as
/// `spec_run` describes.
pub fn run(program: Vec<u8>, memory_size: usize, input: &[u8], max_steps: usize) -> (r: Result<
    RunResult,
    ConfigError,
>)
    ensures
        memory_size < REGISTER_WINDOW <==> (r is Err),
        r matches Err(e) ==> e == (ConfigError::MemoryTooSmall { size: memory_size }),
        r matches Ok(res) ==> res.machine.wf(),
        r matches Ok(res) ==> ((res.machine@, res.output@, res.stop) == spec_run(
            initial_state(program@, memory_size as nat),
            input@,
            max_steps as nat,
            Seq::empty(),
        )),
{
    let ghost start = initial_state(program@, memory_size as nat);
    let mut machine = match Machine::new(program, memory_size) {
        Ok(m) => m,
        Err(e) => {
            return Err(e);
        },
    };
    let mut output: Vec<u8> = Vec::new();
    let mut fuel = max_steps;
    let mut k: usize = 0;
    assert(input@.subrange(0, input@.len() as int) =~= input@);
    loop
        invariant
            machine.wf(),
            memory_size >= REGISTER_WINDOW,
            start == initial_state(program@, memory_size as nat),
            k <= input@.len(),
            spec_run(machine@, input@.subrange(k as int, input@.len() as int), fuel as nat, output@)
                == spec_run(start, input@, max_steps as nat, Seq::empty()),
        decreases fuel,
    {
        if fuel == 0 {
            return Ok(RunResult { machine, output, stop: Stop::StepLimit });
        }
        let ghost rest = input@.subrange(k as int, input@.len() as int);
        match machine.step() {
            Event::Ran => {
                fuel = fuel - 1;
            },
            Event::Output(b) => {
                output.push(b);
                fuel = fuel - 1;
            },
            Event::NeedsInput => {
                if k >= input.len() {
                    return Ok(RunResult { machine, output, stop: Stop::InputExhausted });
                }
                machine.provide_input(input[k]);
                k = k + 1;
                assert(rest.drop_first() =~= input@.subrange(k as int, input@.len() as int));
                fuel = fuel - 1;
            },
            Event::Halted => {
                return Ok(RunResult { machine, output, stop: Stop::Halted });
            },
            Event::Fault(f) => {
                return Ok(RunResult { machine, output, stop: Stop::Fault(f) });
            },
        }
    }
}

} // verus!
