use brainshift::memory::{next_address, prev_address, Register};

#[test]
fn addresses_wrap() {
    assert_eq!(next_address(5, 6), 0);
    assert_eq!(next_address(4, 6), 5);
    assert_eq!(prev_address(0, 6), 5);
    assert_eq!(prev_address(3, 6), 2);
}

#[test]
fn register_offsets() {
    assert_eq!(Register::Zero.offset(), 0);
    assert_eq!(Register::StackPointer.offset(), 4);
    assert_eq!(Register::Status.offset(), 6);
    assert_eq!(Register::Temp3.offset(), 15);
}
