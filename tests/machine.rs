use brainshift::machine::{run, ConfigError, Event, Fault, Machine, Stop};
use brainshift::memory::{Register, SR_DIVIDE_BY_ZERO, SR_OVERFLOW};
use brainshift::stack::StackFault;

fn run_ok(program: &[u8], memory_size: usize, input: &[u8], max_steps: usize) -> brainshift::machine::RunResult {
    match run(program.to_vec(), memory_size, input, max_steps) {
        Ok(r) => r,
        Err(e) => panic!("configuration refused: {:?}", e),
    }
}

#[test]
fn increments_then_emit_five() {
    let r = run_ok(b"+++++.", 64, &[], 100);
    assert_eq!(r.output, vec![5u8]);
    assert_eq!(r.stop, Stop::Halted);
}

#[test]
fn copy_loop_moves_value_to_next_cell() {
    let r = run_ok(b"++[>+<-]", 64, &[], 1000);
    assert_eq!(r.stop, Stop::Halted);
    let m = r.machine.memory();
    assert_eq!(m[16], 0);
    assert_eq!(m[17], 2);
    assert_eq!(r.machine.data_pointer(), 16);
}

#[test]
fn increment_then_decrement_restores_every_value() {
    for v in 0..=255u8 {
        let r = run_ok(b",+-", 64, &[v], 10);
        assert_eq!(r.stop, Stop::Halted);
        assert_eq!(r.machine.memory()[16], v);
    }
}

#[test]
fn jump_to_own_label_loops_until_step_cap() {
    let program = b"loop:\n+J loop";
    let mut m = Machine::new(program.to_vec(), 64).unwrap();
    // "loop:" is a declaration line, so the label resolves to address 0.
    for _ in 0..7 {
        assert_eq!(m.step(), Event::Ran);
    }
    assert_eq!(m.program_counter(), 7);
    assert_eq!(m.step(), Event::Ran);
    assert_eq!(m.program_counter(), 0);
    let r = run_ok(program, 64, &[], 1000);
    assert_eq!(r.stop, Stop::StepLimit);
    assert!(!r.machine.is_halted());
    assert_eq!(r.machine.memory()[16], 125);
}

#[test]
fn call_then_return_resumes_after_call() {
    let program = b"C f ;\nRR\nf:";
    let mut m = Machine::new(program.to_vec(), 64).unwrap();
    assert_eq!(m.step(), Event::Ran);
    assert_eq!(m.program_counter(), 7);
    assert_eq!(m.stack_pointer(), 62);
    assert_eq!(m.register(Register::StackPointer), 62);
    assert_eq!(&m.memory()[62..64], &[0u8, 3u8]);
    assert_eq!(m.step(), Event::Ran);
    assert_eq!(m.program_counter(), 3);
    assert_eq!(m.stack_pointer(), 64);
    let r = run_ok(program, 64, &[], 100);
    assert_eq!(r.stop, Stop::Halted);
}

fn binary(op: u8, a: u8, b: u8) -> Machine {
    let program = [b',', b'>', b',', b'<', op];
    let r = run_ok(&program, 64, &[a, b], 100);
    assert_eq!(r.stop, Stop::Halted);
    r.machine
}

fn overflow_set(m: &Machine) -> bool {
    m.register(Register::Status) & SR_OVERFLOW != 0
}

#[test]
fn add_overflow_boundary() {
    let m = binary(b'A', 255, 1);
    assert_eq!(m.memory()[16], 0);
    assert!(overflow_set(&m));
    let m = binary(b'A', 254, 1);
    assert_eq!(m.memory()[16], 255);
    assert!(!overflow_set(&m));
}

#[test]
fn subtract_overflow_boundary() {
    let m = binary(b'S', 0, 1);
    assert_eq!(m.memory()[16], 255);
    assert!(overflow_set(&m));
    let m = binary(b'S', 1, 1);
    assert_eq!(m.memory()[16], 0);
    assert!(!overflow_set(&m));
}

#[test]
fn multiply_overflow_boundary() {
    let m = binary(b'M', 128, 2);
    assert_eq!(m.memory()[16], 0);
    assert!(overflow_set(&m));
    let m = binary(b'M', 127, 2);
    assert_eq!(m.memory()[16], 254);
    assert!(!overflow_set(&m));
}

#[test]
fn overflow_bit_is_cleared_by_next_arithmetic() {
    let r = run_ok(b",>,<A>>,>,<A", 64, &[200, 100, 1, 2], 100);
    assert_eq!(r.stop, Stop::Halted);
    assert_eq!(r.machine.memory()[16], 44);
    assert_eq!(r.machine.memory()[18], 3);
    assert!(!overflow_set(&r.machine));
}

#[test]
fn divide_for_all_operands() {
    for a in 0..=255u8 {
        for d in 0..=255u8 {
            let m = binary(b'D', a, d);
            let q = m.memory()[16];
            let rem = m.memory()[17];
            let dz = m.register(Register::Status) & SR_DIVIDE_BY_ZERO != 0;
            if d == 0 {
                assert_eq!((q, rem), (a, 0));
                assert!(dz);
            } else {
                assert_eq!(q as u32 * d as u32 + rem as u32, a as u32);
                assert!(rem < d);
                assert!(!dz);
            }
        }
    }
}

#[test]
fn modulo_and_bitwise_opcodes() {
    assert_eq!(binary(b'%', 17, 5).memory()[16], 2);
    assert_eq!(binary(b'%', 17, 0).memory()[16], 17);
    assert_eq!(binary(b'&', 0b1100, 0b1010).memory()[16], 0b1000);
    assert_eq!(binary(b'|', 0b1100, 0b1010).memory()[16], 0b1110);
    assert_eq!(binary(b'^', 0b1100, 0b1010).memory()[16], 0b0110);
    assert_eq!(binary(b'~', 0b1100, 0).memory()[16], 0b1111_0011);
    assert_eq!(binary(b'!', 0, 0).memory()[16], 255);
    assert_eq!(binary(b'#', 0b1000_0011, 0).memory()[16], 0b0100_0001);
    assert_eq!(binary(b'@', 0b1000_0011, 0).memory()[16], 0b0000_0110);
    assert_eq!(binary(b'0', 99, 0).memory()[16], 0);
}

#[test]
fn pointer_wraps_around_memory() {
    let r = run_ok(b"<", 32, &[], 10);
    assert_eq!(r.machine.data_pointer(), 15);
    let mut program = vec![b'>'; 16];
    program.push(b'+');
    let r = run_ok(&program, 32, &[], 100);
    assert_eq!(r.machine.data_pointer(), 0);
    assert_eq!(r.machine.memory()[0], 1);
}

#[test]
fn registers_record_fetch() {
    let r = run_ok(b"+\n+;", 64, &[], 10);
    assert_eq!(r.stop, Stop::Halted);
    assert_eq!(r.machine.register(Register::ProgramCounter), 3);
    assert_eq!(r.machine.register(Register::Instruction), b';');
    assert_eq!(r.machine.program_counter(), 3);
    assert_eq!(r.machine.memory()[16], 2);
}

#[test]
fn halt_stops_before_remaining_instructions() {
    let r = run_ok(b"+.;+.", 64, &[], 100);
    assert_eq!(r.output, vec![1u8]);
    assert_eq!(r.stop, Stop::Halted);
    assert!(r.machine.is_halted());
}

#[test]
fn comment_bytes_are_ignored() {
    let r = run_ok(b"hello + world +.", 64, &[], 100);
    assert_eq!(r.output, vec![2u8]);
}

#[test]
fn skipped_loop_lands_after_matching_close() {
    let mut m = Machine::new(b"[[+]+]+".to_vec(), 64).unwrap();
    assert_eq!(m.step(), Event::Ran);
    assert_eq!(m.program_counter(), 6);
}

#[test]
fn input_is_requested_when_none_buffered() {
    let mut m = Machine::new(b",.".to_vec(), 64).unwrap();
    assert_eq!(m.step(), Event::NeedsInput);
    assert_eq!(m.program_counter(), 0);
    m.provide_input(42);
    assert_eq!(m.pending_input(), Some(42));
    assert_eq!(m.step(), Event::Ran);
    assert_eq!(m.pending_input(), None);
    assert_eq!(m.step(), Event::Output(42));
    assert_eq!(m.step(), Event::Halted);
    let r = run_ok(b",,", 64, &[1], 100);
    assert_eq!(r.stop, Stop::InputExhausted);
}

#[test]
fn unmatched_brackets_are_fatal() {
    let r = run_ok(b"+]", 64, &[], 100);
    assert_eq!(r.stop, Stop::Fault(Fault::UnmatchedBracket { at: 1 }));
    assert!(r.machine.is_halted());
    let r = run_ok(b"[", 64, &[], 100);
    assert_eq!(r.stop, Stop::Fault(Fault::UnmatchedBracket { at: 0 }));
}

#[test]
fn unresolved_label_is_fatal() {
    let r = run_ok(b"+J nowhere", 64, &[], 100);
    assert_eq!(r.stop, Stop::Fault(Fault::UnresolvedLabel { at: 1 }));
    let r = run_ok(b"C *nowhere", 64, &[], 100);
    assert_eq!(r.stop, Stop::Fault(Fault::UnresolvedLabel { at: 0 }));
}

#[test]
fn return_on_empty_stack_underflows() {
    let r = run_ok(b"R", 64, &[], 100);
    assert_eq!(r.stop, Stop::Fault(Fault::Stack { fault: StackFault::Underflow, at: 0 }));
}

#[test]
fn unbounded_recursion_overflows() {
    let r = run_ok(b"f:\nC f", 32, &[], 1000);
    assert_eq!(r.stop, Stop::Fault(Fault::Stack { fault: StackFault::Overflow, at: 3 }));
    assert_eq!(r.machine.stack_pointer(), 16);
}

#[test]
fn call_from_beyond_two_byte_addresses_is_refused() {
    let mut program = vec![b' '; 70000];
    program.extend_from_slice(b"C f\nf:");
    let r = run_ok(&program, 64, &[], 200000);
    assert_eq!(
        r.stop,
        Stop::Fault(Fault::Stack { fault: StackFault::AddressTooWide, at: 70000 })
    );
}

#[test]
fn memory_smaller_than_register_window_is_rejected() {
    assert_eq!(Machine::new(b"+".to_vec(), 15).err(), Some(ConfigError::MemoryTooSmall { size: 15 }));
    assert!(run(b"+".to_vec(), 0, &[], 10).is_err());
    let m = Machine::new(b"+".to_vec(), 16).unwrap();
    assert_eq!(m.data_pointer(), 0);
}

#[test]
fn fresh_machine_state() {
    let m = Machine::new(b"+".to_vec(), 300).unwrap();
    assert_eq!(m.data_pointer(), 16);
    assert_eq!(m.stack_pointer(), 300);
    assert_eq!(m.register(Register::StackPointer), (300 % 256) as u8);
    assert_eq!(m.program_counter(), 0);
    assert_eq!(m.memory().len(), 300);
    assert_eq!(m.current_cell(), 0);
}
