use brainshift::stack::{pop_from_stack, push_to_stack, StackFault};

#[test]
fn push_then_pop_returns_the_address() {
    let mut memory = vec![0u8; 64];
    let mut sp: usize = 64;
    assert_eq!(push_to_stack(&mut memory, &mut sp, 0x1234), Ok(()));
    assert_eq!(sp, 62);
    assert_eq!(memory[62], 0x12);
    assert_eq!(memory[63], 0x34);
    assert_eq!(pop_from_stack(&memory, &mut sp), Ok(0x1234));
    assert_eq!(sp, 64);
}

#[test]
fn push_into_register_window_overflows() {
    let mut memory = vec![0u8; 20];
    let mut sp: usize = 20;
    assert_eq!(push_to_stack(&mut memory, &mut sp, 7), Ok(()));
    assert_eq!(sp, 18);
    assert_eq!(push_to_stack(&mut memory, &mut sp, 7), Ok(()));
    assert_eq!(sp, 16);
    assert_eq!(push_to_stack(&mut memory, &mut sp, 7), Err(StackFault::Overflow));
    assert_eq!(sp, 16);
}

#[test]
fn pop_of_empty_stack_underflows() {
    let memory = vec![0u8; 32];
    let mut sp: usize = 32;
    assert_eq!(pop_from_stack(&memory, &mut sp), Err(StackFault::Underflow));
    let mut sp: usize = 31;
    assert_eq!(pop_from_stack(&memory, &mut sp), Err(StackFault::Underflow));
    assert_eq!(sp, 31);
}

#[test]
fn push_of_wide_address_is_refused() {
    let mut memory = vec![0u8; 32];
    let mut sp: usize = 32;
    assert_eq!(push_to_stack(&mut memory, &mut sp, 0x10000), Err(StackFault::AddressTooWide));
    assert_eq!(sp, 32);
    assert!(memory.iter().all(|&b| b == 0));
}
