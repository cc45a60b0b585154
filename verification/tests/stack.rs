use chip8::stack::STACK_SIZE;
use chip8::{Chip8Error, Stack};

#[test]
fn new_stack_is_empty() {
    let mut stack = Stack::new();
    assert_eq!(stack.depth(), 0);
    assert_eq!(stack.pop(), Err(Chip8Error::StackUnderflow));
    assert_eq!(stack.depth(), 0);
}

#[test]
fn pop_returns_last_pushed() {
    let mut stack = Stack::new();
    assert_eq!(stack.push(0x202), Ok(()));
    assert_eq!(stack.push(0x404), Ok(()));
    assert_eq!(stack.depth(), 2);
    assert_eq!(stack.pop(), Ok(0x404));
    assert_eq!(stack.pop(), Ok(0x202));
    assert_eq!(stack.pop(), Err(Chip8Error::StackUnderflow));
}

#[test]
fn stack_holds_sixteen_addresses() {
    assert_eq!(STACK_SIZE, 16);
    let mut stack = Stack::new();
    for i in 0..16u16 {
        assert_eq!(stack.push(0x200 + 2 * i), Ok(()));
        assert_eq!(stack.depth(), i as usize + 1);
    }
}

#[test]
fn seventeenth_push_overflows_and_keeps_the_sixteen() {
    let mut stack = Stack::new();
    for i in 0..16u16 {
        assert_eq!(stack.push(0x300 + i), Ok(()));
    }
    assert_eq!(stack.push(0xFFF), Err(Chip8Error::StackOverflow));
    assert_eq!(stack.push(0xEEE), Err(Chip8Error::StackOverflow));
    assert_eq!(stack.depth(), 16);
    for i in (0..16u16).rev() {
        assert_eq!(stack.pop(), Ok(0x300 + i));
    }
    assert_eq!(stack.pop(), Err(Chip8Error::StackUnderflow));
}

#[test]
fn underflow_leaves_the_stack_usable() {
    let mut stack = Stack::new();
    assert_eq!(stack.pop(), Err(Chip8Error::StackUnderflow));
    assert_eq!(stack.push(0x0), Ok(()));
    assert_eq!(stack.depth(), 1);
    assert_eq!(stack.pop(), Ok(0x0));
}

#[test]
fn push_after_pop_reuses_the_slot() {
    let mut stack = Stack::new();
    stack.push(1).unwrap();
    stack.push(2).unwrap();
    assert_eq!(stack.pop(), Ok(2));
    stack.push(3).unwrap();
    assert_eq!(stack.pop(), Ok(3));
    assert_eq!(stack.pop(), Ok(1));
}

#[test]
fn full_stack_accepts_a_push_after_a_pop() {
    let mut stack = Stack::new();
    for i in 0..16u16 {
        stack.push(i).unwrap();
    }
    assert_eq!(stack.pop(), Ok(15));
    assert_eq!(stack.push(0xABC), Ok(()));
    assert_eq!(stack.push(0xDEF), Err(Chip8Error::StackOverflow));
    assert_eq!(stack.pop(), Ok(0xABC));
}
