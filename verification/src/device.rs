//! The session object that owns the four parts of the machine.

use vstd::prelude::*;
use crate::cpu::{machine_of, CPU};
use crate::display::{grid_of, FrameBuffer, ScreenState, DISPLAY_HEIGHT, DISPLAY_WIDTH};
use crate::error::Chip8Error;
use crate::machine::{cycle, initial_machine, CycleOutcome, Machine, Step, NUM_KEYS};
use crate::ram::{load_program, load_program_result, RAM};
use crate::stack::Stack;

verus! {

/// One emulation session: the memory, the call stack, the frame buffer and
/// the registers, owned together and changed by nobody else.
pub struct Device {
    ram: RAM,
    stack: Stack,
    vram: FrameBuffer,
    cpu: CPU,
}

impl View for Device {
    type V = Machine;

    closed spec fn view(&self) -> Machine {
        machine_of(self.cpu, self.stack, self.vram, self.ram)
    }
}

impl Device {
    /// The parts of a session always have their sizes.
    pub proof fn lemma_view_wf(&self)
        ensures
            self@.wf(),
    {
        self.cpu.lemma_view_wf();
        self.ram.lemma_view_len();
        self.vram.lemma_view_is_grid();
    }

    /// A session in its first state: the font in memory, no program, the
    /// stack empty, the display dark, the registers as `CPU::new` gives them.
    pub fn new_device() -> (r: Device)
        ensures
            r@ == initial_machine(),
    {
        Device { ram: RAM::new_ram(), stack: Stack::new(), vram: FrameBuffer::new(), cpu: CPU::new() }
    }

    /// Loads a program image into memory, or refuses one that does not fit.
    /// Nothing but the memory changes.
    pub fn load_rom(&mut self, rom: &[u8]) -> (r: Result<(), Chip8Error>)
        ensures
            r == load_program_result(rom@.len() as usize),
            final(self)@ == (Machine { memory: load_program(old(self)@.memory, rom@), ..old(self)@ }),
    {
        self.ram.load_rom(rom)
    }

    /// Runs one cycle of the engine with the keys that are down now.
    pub fn emulate_cycle(&mut self, keys: &[bool; NUM_KEYS]) -> (r: Result<CycleOutcome, Chip8Error>)
        ensures
            exists|random: u8|
                (Step { machine: final(self)@, result: r }) == #[trigger] cycle(
                    old(self)@,
                    keys@,
                    random,
                ),
    {
        let r = self.cpu.emulate_cycle(keys, &mut self.stack, &mut self.vram, &self.ram);
        proof {
            let random = choose|random: u8|
                (Step { machine: self@, result: r }) == #[trigger] cycle(old(self)@, keys@, random);
            assert((Step { machine: self@, result: r }) == cycle(old(self)@, keys@, random));
        }
        r
    }

    /// Hands out the pixels, and takes the display as redrawn.
    pub fn get_vram(&mut self) -> (r: &[[bool; DISPLAY_WIDTH]; DISPLAY_HEIGHT])
        ensures
            grid_of(*r) == old(self)@.screen.pixels,
            final(self)@ == (Machine {
                screen: ScreenState { pixels: old(self)@.screen.pixels, changed: false },
                ..old(self)@
            }),
    {
        self.vram.get_vram()
    }

    /// Whether a draw has happened since the pixels were last handed out.
    pub fn get_vram_changed(&self) -> (r: bool)
        ensures
            r == self@.screen.changed,
    {
        self.vram.is_changed()
    }

    /// One tick of the 60 Hz clock, which runs whether or not the engine
    /// waits for a key.
    pub fn tick_timers(&mut self)
        ensures
            final(self)@ == old(self)@.with_cpu(old(self)@.cpu.tick()),
    {
        self.cpu.tick_timers();
    }

    /// Reports a key-down of `key`. Returns whether the engine was waiting
    /// for a key and took this one.
    pub fn key_pressed(&mut self, key: u8) -> (r: bool)
        ensures
            r == (old(self)@.cpu.state is AwaitingKey && key < NUM_KEYS),
            final(self)@ == old(self)@.with_cpu(old(self)@.cpu.key_pressed(key)),
    {
        self.cpu.key_pressed(key)
    }

    /// The registers and timers, for reading.
    pub fn cpu(&self) -> (r: &CPU)
        ensures
            r@ == self@.cpu,
    {
        &self.cpu
    }
}

} // verus!
