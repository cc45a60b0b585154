//! The errors of the machine.

use vstd::prelude::*;

verus! {

/// Everything that can go wrong while loading or running a program.
///
/// Every variant that is tied to a place carries that place, so that a host
/// can report it.
#[derive(Clone, Copy, Debug, PartialEq, Eq, Structural)]
pub enum Chip8Error {
    /// A read or write touched an address at or beyond the memory capacity.
    OutOfBoundsAccess { address: usize },
    /// The fetched word matches no instruction. `pc` is the address it was
    /// fetched from.
    UnknownOpcode { opcode: u16, pc: u16 },
    /// A subroutine call was made with the call stack already full.
    StackOverflow,
    /// A return was made with the call stack empty.
    StackUnderflow,
    /// A program image of `len` bytes does not fit into program memory.
    RomTooLarge { len: usize },
}

impl Chip8Error {
    /// Whether the session has to end on this error. A fault of the call
    /// stack does not end it: the instruction that caused the fault has done
    /// nothing but move the program counter on, and the next cycle goes on
    /// from there. Every other error ends the session.
    pub open spec fn fatal(self) -> bool {
        !(self is StackOverflow || self is StackUnderflow)
    }

    /// Whether the session has to end on this error.
    pub fn is_fatal(&self) -> (r: bool)
        ensures
            r == self.fatal(),
    {
        match self {
            Chip8Error::StackOverflow => false,
            Chip8Error::StackUnderflow => false,
            Chip8Error::OutOfBoundsAccess { .. } => true,
            Chip8Error::UnknownOpcode { .. } => true,
            Chip8Error::RomTooLarge { .. } => true,
        }
    }
}

} // verus!
