//! The call stack: at most sixteen return addresses.

use vstd::prelude::*;
use crate::error::Chip8Error;

verus! {

/// Largest number of return addresses the call stack holds.
pub const STACK_SIZE: usize = 16;

/// Whether a push onto a stack holding `stack` is accepted.
pub open spec fn push_result(stack: Seq<u16>) -> Result<(), Chip8Error> {
    if stack.len() < STACK_SIZE {
        Ok(())
    } else {
        Err(Chip8Error::StackOverflow)
    }
}

/// The stack after a push of `v` was asked for: `v` on top, or, when the
/// stack is full, nothing changed.
pub open spec fn push_stack(stack: Seq<u16>, v: u16) -> Seq<u16> {
    if stack.len() < STACK_SIZE {
        stack.push(v)
    } else {
        stack
    }
}

/// What a pop from `stack` gives: the address pushed last, or an underflow.
pub open spec fn pop_result(stack: Seq<u16>) -> Result<u16, Chip8Error> {
    if stack.len() > 0 {
        Ok(stack.last())
    } else {
        Err(Chip8Error::StackUnderflow)
    }
}

/// The stack after a pop was asked for: without its top, or, when it is
/// empty, still empty.
pub open spec fn pop_stack(stack: Seq<u16>) -> Seq<u16> {
    if stack.len() > 0 {
        stack.drop_last()
    } else {
        stack
    }
}

/// The bounded stack of return addresses. Its view lists them oldest first.
///
/// Both faults are reported to the caller and leave the stack as it was:
/// nothing is recovered silently.
pub struct Stack {
    stack_pointer: usize,
    s: [u16; STACK_SIZE],
}

impl View for Stack {
    type V = Seq<u16>;

    closed spec fn view(&self) -> Seq<u16> {
        self.s@.subrange(0, self.stack_pointer as int)
    }
}

impl Stack {
    #[verifier::type_invariant]
    spec fn inv(self) -> bool {
        self.stack_pointer <= STACK_SIZE
    }

    /// An empty stack.
    pub fn new() -> (r: Stack)
        ensures
            r@ == Seq::<u16>::empty(),
    {
        Stack { stack_pointer: 0, s: [0; STACK_SIZE] }
    }

    /// Puts `v` on top, or refuses when `STACK_SIZE` addresses are held.
    pub fn push(&mut self, v: u16) -> (r: Result<(), Chip8Error>)
        ensures
            r == push_result(old(self)@),
            final(self)@ == push_stack(old(self)@, v),
            old(self)@.len() <= STACK_SIZE,
            final(self)@.len() <= STACK_SIZE,
    {
        proof {
            use_type_invariant(&*self);
        }
        if self.stack_pointer >= STACK_SIZE {
            return Err(Chip8Error::StackOverflow);
        }
        self.s[self.stack_pointer] = v;
        self.stack_pointer += 1;
        Ok(())
    }

    /// Takes the top address off, or reports that there is none.
    pub fn pop(&mut self) -> (r: Result<u16, Chip8Error>)
        ensures
            r == pop_result(old(self)@),
            final(self)@ == pop_stack(old(self)@),
            old(self)@.len() <= STACK_SIZE,
            final(self)@.len() <= STACK_SIZE,
    {
        proof {
            use_type_invariant(&*self);
        }
        if self.stack_pointer == 0 {
            return Err(Chip8Error::StackUnderflow);
        }
        self.stack_pointer -= 1;
        Ok(self.s[self.stack_pointer])
    }

    /// Number of addresses held.
    pub fn depth(&self) -> (r: usize)
        ensures
            r == self@.len(),
            r <= STACK_SIZE,
    {
        proof {
            use_type_invariant(self);
        }
        self.stack_pointer
    }
}

/// A push onto a full stack fails and keeps every entry.
pub proof fn lemma_push_full(stack: Seq<u16>, v: u16)
    requires
        stack.len() == STACK_SIZE,
    ensures
        push_result(stack) == Err::<(), Chip8Error>(Chip8Error::StackOverflow),
        push_stack(stack, v) == stack,
{
}

/// An accepted push followed by a pop gives the pushed address back and
/// the stack as it was.
pub proof fn lemma_push_then_pop(stack: Seq<u16>, v: u16)
    requires
        stack.len() < STACK_SIZE,
    ensures
        push_result(stack) == Ok::<(), Chip8Error>(()),
        pop_result(push_stack(stack, v)) == Ok::<u16, Chip8Error>(v),
        pop_stack(push_stack(stack, v)) == stack,
{
}

} // verus!
