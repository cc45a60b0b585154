//! A CHIP-8 virtual machine, verified with Verus.
//!
//! The machine is a flat memory ([`RAM`]), a bounded call stack ([`Stack`]),
//! a 64 by 32 one-bit display ([`FrameBuffer`]) and a register file with the
//! engine that runs instructions on them ([`CPU`]). A [`Device`] owns one of
//! each and is what a host drives: it loads a program, runs cycles with the
//! keys that are down, reports key-downs, ticks the timers and reads the
//! display.
//!
//! What every operation does is stated over plain values in [`machine`]:
//! `machine::cycle` is one cycle of the whole machine, `machine::instruction`
//! one instruction, and the executable code is proved to do exactly that.
//! Errors are values ([`Chip8Error`]); no operation panics.

pub mod cpu;
pub mod device;
pub mod display;
pub mod engine;
pub mod error;
pub mod keypad;
pub mod machine;
pub mod ram;
mod rng;
pub mod stack;

pub use crate::cpu::CPU;
pub use crate::device::Device;
pub use crate::display::{FrameBuffer, DISPLAY_HEIGHT, DISPLAY_WIDTH};
pub use crate::error::Chip8Error;
pub use crate::keypad::KeyCode;
pub use crate::machine::{CycleOutcome, EngineState};
pub use crate::ram::RAM;
pub use crate::stack::Stack;
