//! The cycle of the engine: fetch, decode, dispatch.

use vstd::prelude::*;
use crate::cpu::{machine_of, CPU};
use crate::display::FrameBuffer;
use crate::error::Chip8Error;
use crate::machine::{
    cycle, instruction, op_group, op_n, op_nn, op_nnn, op_x, op_y, CycleOutcome, EngineState, Step,
    NUM_KEYS,
};
use crate::ram::RAM;
use crate::rng::random_byte;
use crate::stack::Stack;

verus! {

/// The digits of an instruction as the shifts and masks of the decoder
/// give them.
proof fn lemma_fields(opcode: u16)
    ensures
        (opcode & 0xF000) >> 12 == op_group(opcode),
        (opcode & 0x0F00) >> 8 == op_x(opcode),
        (opcode & 0x00F0) >> 4 == op_y(opcode),
        opcode & 0x000F == op_n(opcode),
        opcode & 0x00FF == op_nn(opcode),
        opcode & 0x0FFF == op_nnn(opcode),
{
    assert((opcode & 0xF000) >> 12 == opcode / 0x1000) by (bit_vector);
    assert((opcode & 0x0F00) >> 8 == (opcode / 0x100) % 16) by (bit_vector);
    assert((opcode & 0x00F0) >> 4 == (opcode / 0x10) % 16) by (bit_vector);
    assert(opcode & 0x000F == opcode % 16) by (bit_vector);
    assert(opcode & 0x00FF == opcode % 0x100) by (bit_vector);
    assert(opcode & 0x0FFF == opcode % 0x1000) by (bit_vector);
}

impl CPU {
    /// Runs one cycle: fetches the word at the program counter and executes
    /// it, unless the engine waits for a key. The random instruction draws
    /// its byte here, so the cycle is the one that `cycle` gives for some
    /// byte; for every other instruction the byte does not matter.
    pub fn emulate_cycle(
        &mut self,
        keys: &[bool; NUM_KEYS],
        stack: &mut Stack,
        vram: &mut FrameBuffer,
        ram: &RAM,
    ) -> (r: Result<CycleOutcome, Chip8Error>)
        ensures
            exists|random: u8|
                (Step {
                    machine: machine_of(*final(self), *final(stack), *final(vram), *ram),
                    result: r,
                }) == #[trigger] cycle(
                    machine_of(*old(self), *old(stack), *old(vram), *ram),
                    keys@,
                    random,
                ),
    {
        if let EngineState::AwaitingKey { register: _ } = self.state {
            assert((Step {
                machine: machine_of(*self, *stack, *vram, *ram),
                result: Ok(CycleOutcome::AwaitingKey),
            }) == cycle(machine_of(*self, *stack, *vram, *ram), keys@, 0));
            return Ok(CycleOutcome::AwaitingKey);
        }
        let opcode: u16 = match ram.get_instruction(self.program_counter) {
            Ok(word) => word,
            Err(e) => {
                assert((Step { machine: machine_of(*self, *stack, *vram, *ram), result: Err(e) })
                    == cycle(machine_of(*self, *stack, *vram, *ram), keys@, 0));
                return Err(e);
            },
        };
        let random: u8 = if (opcode & 0xF000) >> 12 == 0xC {
            random_byte()
        } else {
            0
        };
        let r = self.execute(opcode, random, keys, stack, vram, ram);
        assert((Step { machine: machine_of(*self, *stack, *vram, *ram), result: r }) == cycle(
            machine_of(*old(self), *old(stack), *old(vram), *ram),
            keys@,
            random,
        ));
        r
    }

    /// Executes the fetched word `opcode`: moves the program counter past
    /// it, decodes it and carries out the instruction, with `random` as the
    /// byte of the random instruction.
    pub fn execute(
        &mut self,
        opcode: u16,
        random: u8,
        keys: &[bool; NUM_KEYS],
        stack: &mut Stack,
        vram: &mut FrameBuffer,
        ram: &RAM,
    ) -> (r: Result<CycleOutcome, Chip8Error>)
        ensures
            (Step {
                machine: machine_of(*final(self), *final(stack), *final(vram), *ram),
                result: r,
            }) == instruction(
                machine_of(*old(self), *old(stack), *old(vram), *ram),
                opcode,
                keys@,
                random,
            ),
    {
        let at: u16 = self.program_counter;
        self.increment_pc();

        let nnn: u16 = opcode & 0x0FFF;
        let nn: u8 = (opcode & 0x00FF) as u8;
        let nibbles: (u16, u16, u16, u16) = (
            (opcode & 0xF000) >> 12,
            (opcode & 0x0F00) >> 8,
            (opcode & 0x00F0) >> 4,
            (opcode & 0x000F),
        );
        proof {
            lemma_fields(opcode);
        }

        let (group, x, y, n) = nibbles;
        let unknown = Err(Chip8Error::UnknownOpcode { opcode, pc: at });

        match group {
            0x0 => match opcode {
                0x00E0 => {
                    self.op_clear_screen(vram);
                    Ok(CycleOutcome::Executed)
                },
                0x00EE => match self.op_return_from_subroutine(stack) {
                    Ok(()) => Ok(CycleOutcome::Executed),
                    Err(e) => Err(e),
                },
                _ => unknown,
            },
            0x1 => {
                self.op_jump(nnn);
                Ok(CycleOutcome::Executed)
            },
            0x2 => match self.op_subroutine(stack, nnn) {
                Ok(()) => Ok(CycleOutcome::Executed),
                Err(e) => Err(e),
            },
            0x3 => {
                self.op_skip_if_eq(x, nn as u16);
                Ok(CycleOutcome::Executed)
            },
            0x4 => {
                self.op_skip_if_not_eq(x, nn as u16);
                Ok(CycleOutcome::Executed)
            },
            0x5 => {
                self.op_skip_if_eq_reg(x, y);
                Ok(CycleOutcome::Executed)
            },
            0x6 => {
                self.general_registers[x as usize] = nn;
                Ok(CycleOutcome::Executed)
            },
            0x7 => {
                self.op_add(x, nn);
                Ok(CycleOutcome::Executed)
            },
            0x8 => {
                if self.op_arithmetic(x, y, n) {
                    Ok(CycleOutcome::Executed)
                } else {
                    unknown
                }
            },
            0x9 => {
                self.op_skip_if_not_eq_reg(x, y);
                Ok(CycleOutcome::Executed)
            },
            0xA => {
                self.op_set_index(nnn);
                Ok(CycleOutcome::Executed)
            },
            0xB => {
                self.op_jump_location_plus_reg(nnn);
                Ok(CycleOutcome::Executed)
            },
            0xC => {
                self.op_rand_and(x, nn, random);
                Ok(CycleOutcome::Executed)
            },
            0xD => match self.op_display_vram(vram, ram, x, y, n as u8) {
                Ok(()) => Ok(CycleOutcome::Executed),
                Err(e) => Err(e),
            },
            0xE => match nn {
                0x9E => {
                    self.op_skip_if_pressed(keys, x);
                    Ok(CycleOutcome::Executed)
                },
                0xA1 => {
                    self.op_skip_if_not_pressed(keys, x);
                    Ok(CycleOutcome::Executed)
                },
                _ => unknown,
            },
            0xF => match self.op_timers_and_keys(x, nn) {
                Some(outcome) => Ok(outcome),
                None => unknown,
            },
            _ => unknown,
        }
    }
}

} // verus!
