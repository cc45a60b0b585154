//! The register file and timers, and the handler of each instruction.

use vstd::prelude::*;
use crate::display::{blank_grid, collides, draw, FrameBuffer, ScreenState, MAX_SPRITE_ROWS};
use crate::error::Chip8Error;
use crate::keypad::{key_code_of, KeyCode};
use crate::machine::{
    alu, initial_cpu, key_down, misc, shift_source, sprite_rows, wrap16, wrap8, CpuState,
    CycleOutcome, EngineState, Machine, NUM_KEYS, NUM_REGISTERS, SHIFT_TAKES_VY,
};
use crate::ram::{MEM_BYTES, PROG_MEM_START, RAM};
use crate::stack::{pop_stack, push_result, push_stack, Stack, STACK_SIZE};

verus! {

/// The register file and timers, and the engine that runs instructions on
/// them.
#[derive(Clone, Copy, Debug)]
pub struct CPU {
    pub general_registers: [u8; NUM_REGISTERS],
    pub delay_timer: u8,
    pub sound_timer: u8,
    pub program_counter: u16,
    pub index_register: u16,
    pub state: EngineState,
}

impl View for CPU {
    type V = CpuState;

    open spec fn view(&self) -> CpuState {
        CpuState {
            v: self.general_registers@,
            delay: self.delay_timer,
            sound: self.sound_timer,
            pc: self.program_counter,
            index: self.index_register,
            state: self.state,
        }
    }
}

/// The machine that is made of these four parts.
pub open spec fn machine_of(cpu: CPU, stack: Stack, vram: FrameBuffer, ram: RAM) -> Machine {
    Machine { cpu: cpu@, stack: stack@, screen: vram@, memory: ram@ }
}

impl CPU {
    /// There are always sixteen registers.
    pub proof fn lemma_view_wf(&self)
        ensures
            self@.wf(),
    {
    }

    /// Registers and timers zero, the program counter at the program origin,
    /// the engine running.
    pub fn new() -> (r: CPU)
        ensures
            r@ == initial_cpu(),
    {
        CPU {
            program_counter: PROG_MEM_START as u16,
            general_registers: [0; NUM_REGISTERS],
            delay_timer: 0,
            sound_timer: 0,
            index_register: 0,
            state: EngineState::Running,
        }
    }

    /// Moves the program counter past one instruction.
    pub fn increment_pc(&mut self)
        ensures
            final(self)@ == old(self)@.advance(),
    {
        self.program_counter = self.program_counter.wrapping_add(2);
    }

    /// The keyboard key that stands for the key `value` of the keypad.
    pub fn lookup_key_code(&self, value: u8) -> (r: KeyCode)
        ensures
            r == key_code_of(value),
    {
        match value {
            0x0 => KeyCode::Key1,
            0x1 => KeyCode::Key2,
            0x2 => KeyCode::Key3,
            0x3 => KeyCode::C,
            0x4 => KeyCode::Key4,
            0x5 => KeyCode::Key5,
            0x6 => KeyCode::Key6,
            0x7 => KeyCode::D,
            0x8 => KeyCode::Key7,
            0x9 => KeyCode::Key8,
            0xA => KeyCode::Key9,
            0xB => KeyCode::E,
            0xC => KeyCode::A,
            0xD => KeyCode::Key0,
            0xE => KeyCode::B,
            0xF => KeyCode::F,
            _ => KeyCode::F1,
        }
    }

    /// The value of register `index`, if there is such a register.
    pub fn get_register(&self, index: usize) -> (r: Option<u8>)
        ensures
            r == if index < NUM_REGISTERS { Some(self@.v[index as int]) } else { None },
    {
        if index < NUM_REGISTERS {
            Some(self.general_registers[index])
        } else {
            None
        }
    }

    /// Puts `value` into register `index` and returns `true`, or, if there
    /// is no such register, changes nothing and returns `false`.
    pub fn set_register(&mut self, index: usize, value: u8) -> (r: bool)
        ensures
            r == (index < NUM_REGISTERS),
            final(self)@ == if index < NUM_REGISTERS {
                old(self)@.with_v(index as int, value)
            } else {
                old(self)@
            },
    {
        if index < NUM_REGISTERS {
            self.general_registers[index] = value;
            true
        } else {
            false
        }
    }

    /// One tick of the 60 Hz clock: each timer that is not zero goes down by
    /// one. The engine never calls this; whoever keeps the time does.
    pub fn tick_timers(&mut self)
        ensures
            final(self)@ == old(self)@.tick(),
    {
        if self.delay_timer > 0 {
            self.delay_timer -= 1;
        }
        if self.sound_timer > 0 {
            self.sound_timer -= 1;
        }
    }

    /// Reports a key-down of `key`. Returns whether the engine was waiting
    /// for a key and took this one.
    pub fn key_pressed(&mut self, key: u8) -> (r: bool)
        ensures
            r == (old(self)@.state is AwaitingKey && key < NUM_KEYS),
            final(self)@ == old(self)@.key_pressed(key),
    {
        match self.state {
            EngineState::AwaitingKey { register } => {
                if (key as usize) < NUM_KEYS {
                    if (register as usize) < NUM_REGISTERS {
                        self.general_registers[register as usize] = key;
                    }
                    self.state = EngineState::Running;
                    true
                } else {
                    false
                }
            },
            EngineState::Running => false,
        }
    }

    /// The group 8XY_: arithmetic and logic on VX and VY. Returns whether
    /// `n` names an instruction of the group; if not, nothing changes.
    pub(crate) fn op_arithmetic(&mut self, x: u16, y: u16, n: u16) -> (known: bool)
        requires
            x < NUM_REGISTERS,
            y < NUM_REGISTERS,
        ensures
            known == alu(old(self)@, x as int, y as int, n as int).is_some(),
            final(self)@ == match alu(old(self)@, x as int, y as int, n as int) {
                Some(after) => after,
                None => old(self)@,
            },
    {
        match n {
            0x0 => self.op_set_vx_to_vy(x, y),
            0x1 => self.op_binary_or(x, y),
            0x2 => self.op_binary_and(x, y),
            0x3 => self.op_logical_xor(x, y),
            0x4 => self.op_add_with_carry(x, y),
            0x5 => self.op_subtract_vy_from_vx(x, y),
            0x6 => self.op_shift_right(x, y),
            0x7 => self.op_subtract_vx_from_vy(x, y),
            0xE => self.op_shift_left(x, y),
            _ => {
                return false;
            },
        }
        true
    }

    /// The group FX__: timers, index register and the wait for a key.
    /// Returns what the cycle reports, or `None` if `nn` names no
    /// instruction of the group; then nothing changes.
    pub(crate) fn op_timers_and_keys(&mut self, x: u16, nn: u8) -> (r: Option<CycleOutcome>)
        requires
            x < NUM_REGISTERS,
        ensures
            r == match misc(old(self)@, x as int, nn) {
                Some(_) => Some(
                    if nn == 0x0A {
                        CycleOutcome::AwaitingKey
                    } else {
                        CycleOutcome::Executed
                    },
                ),
                None => None,
            },
            final(self)@ == match misc(old(self)@, x as int, nn) {
                Some(after) => after,
                None => old(self)@,
            },
    {
        match nn {
            0x07 => self.op_set_to_delay(x),
            0x0A => {
                self.op_get_key(x);
                return Some(CycleOutcome::AwaitingKey);
            },
            0x15 => self.op_set_delay_to(x),
            0x18 => self.op_set_sound_to(x),
            0x1E => self.op_add_to_index(x),
            _ => {
                return None;
            },
        }
        Some(CycleOutcome::Executed)
    }

    /// 00E0: turn every pixel off.
    pub(crate) fn op_clear_screen(&mut self, vram: &mut FrameBuffer)
        ensures
            final(self)@ == old(self)@,
            final(vram)@ == (ScreenState { pixels: blank_grid(), changed: true }),
    {
        vram.clear();
    }

    /// 00EE: return to the address on top of the stack.
    pub(crate) fn op_return_from_subroutine(&mut self, stack: &mut Stack) -> (r: Result<(), Chip8Error>)
        ensures
            r == if old(stack)@.len() > 0 {
                Ok::<(), Chip8Error>(())
            } else {
                Err(Chip8Error::StackUnderflow)
            },
            final(stack)@ == pop_stack(old(stack)@),
            final(self)@ == if old(stack)@.len() > 0 {
                old(self)@.with_pc(old(stack)@.last())
            } else {
                old(self)@
            },
    {
        match stack.pop() {
            Ok(address) => {
                self.program_counter = address;
                Ok(())
            },
            Err(e) => Err(e),
        }
    }

    /// 1NNN: jump to NNN.
    pub(crate) fn op_jump(&mut self, nnn: u16)
        ensures
            final(self)@ == old(self)@.with_pc(nnn),
    {
        self.program_counter = nnn
    }

    /// 2NNN: call the subroutine at NNN, keeping the address of the next
    /// instruction on the stack.
    pub(crate) fn op_subroutine(&mut self, stack: &mut Stack, nnn: u16) -> (r: Result<(), Chip8Error>)
        ensures
            r == push_result(old(stack)@),
            final(stack)@ == push_stack(old(stack)@, old(self)@.pc),
            final(self)@ == if old(stack)@.len() < STACK_SIZE {
                old(self)@.with_pc(nnn)
            } else {
                old(self)@
            },
    {
        match stack.push(self.program_counter) {
            Ok(()) => {
                self.program_counter = nnn;
                Ok(())
            },
            Err(e) => Err(e),
        }
    }

    /// 3XNN: skip the next instruction if VX equals NN.
    pub(crate) fn op_skip_if_eq(&mut self, x: u16, nn: u16)
        requires
            x < NUM_REGISTERS,
        ensures
            final(self)@ == old(self)@.skip_when(old(self)@.v[x as int] == nn),
    {
        let vx: u16 = self.general_registers[x as usize] as u16;
        if vx == nn {
            self.increment_pc();
        }
    }

    /// 4XNN: skip the next instruction if VX differs from NN.
    pub(crate) fn op_skip_if_not_eq(&mut self, x: u16, nn: u16)
        requires
            x < NUM_REGISTERS,
        ensures
            final(self)@ == old(self)@.skip_when(old(self)@.v[x as int] != nn),
    {
        let vx: u16 = self.general_registers[x as usize] as u16;
        if vx != nn {
            self.increment_pc();
        }
    }

    /// 5XY_: skip the next instruction if VX equals VY.
    pub(crate) fn op_skip_if_eq_reg(&mut self, x: u16, y: u16)
        requires
            x < NUM_REGISTERS,
            y < NUM_REGISTERS,
        ensures
            final(self)@ == old(self)@.skip_when(old(self)@.v[x as int] == old(self)@.v[y as int]),
    {
        if self.general_registers[x as usize] == self.general_registers[y as usize] {
            self.increment_pc();
        }
    }

    /// 9XY_: skip the next instruction if VX differs from VY.
    pub(crate) fn op_skip_if_not_eq_reg(&mut self, x: u16, y: u16)
        requires
            x < NUM_REGISTERS,
            y < NUM_REGISTERS,
        ensures
            final(self)@ == old(self)@.skip_when(old(self)@.v[x as int] != old(self)@.v[y as int]),
    {
        if self.general_registers[x as usize] != self.general_registers[y as usize] {
            self.increment_pc();
        }
    }

    /// 7XNN: add NN to VX modulo 256; the flag stays.
    pub(crate) fn op_add(&mut self, x: u16, nn: u8)
        requires
            x < NUM_REGISTERS,
        ensures
            final(self)@ == old(self)@.with_v(x as int, wrap8(old(self)@.v[x as int] + nn)),
    {
        let vx = self.general_registers[x as usize];
        self.general_registers[x as usize] = vx.wrapping_add(nn);
    }

    /// 8XY0: VX becomes VY.
    pub(crate) fn op_set_vx_to_vy(&mut self, x: u16, y: u16)
        requires
            x < NUM_REGISTERS,
            y < NUM_REGISTERS,
        ensures
            final(self)@ == old(self)@.with_v(x as int, old(self)@.v[y as int]),
    {
        self.general_registers[x as usize] = self.general_registers[y as usize];
    }

    /// 8XY1: VX becomes VX OR VY.
    pub(crate) fn op_binary_or(&mut self, x: u16, y: u16)
        requires
            x < NUM_REGISTERS,
            y < NUM_REGISTERS,
        ensures
            final(self)@ == old(self)@.with_v(x as int, old(self)@.v[x as int] | old(self)@.v[y as int]),
    {
        let vx = self.general_registers[x as usize];
        let vy = self.general_registers[y as usize];

        self.general_registers[x as usize] = vx | vy;
    }

    /// 8XY2: VX becomes VX AND VY.
    pub(crate) fn op_binary_and(&mut self, x: u16, y: u16)
        requires
            x < NUM_REGISTERS,
            y < NUM_REGISTERS,
        ensures
            final(self)@ == old(self)@.with_v(x as int, old(self)@.v[x as int] & old(self)@.v[y as int]),
    {
        let vx = self.general_registers[x as usize];
        let vy = self.general_registers[y as usize];

        self.general_registers[x as usize] = vx & vy;
    }

    /// 8XY3: VX becomes VX XOR VY.
    pub(crate) fn op_logical_xor(&mut self, x: u16, y: u16)
        requires
            x < NUM_REGISTERS,
            y < NUM_REGISTERS,
        ensures
            final(self)@ == old(self)@.with_v(x as int, old(self)@.v[x as int] ^ old(self)@.v[y as int]),
    {
        let vx = self.general_registers[x as usize];
        let vy = self.general_registers[y as usize];

        self.general_registers[x as usize] = vx ^ vy;
    }

    /// 8XY4: VX becomes VX + VY modulo 256, then the flag becomes the carry.
    pub(crate) fn op_add_with_carry(&mut self, x: u16, y: u16)
        requires
            x < NUM_REGISTERS,
            y < NUM_REGISTERS,
        ensures
            final(self)@ == old(self)@.with_v(
                x as int,
                wrap8(old(self)@.v[x as int] + old(self)@.v[y as int]),
            ).with_flag(old(self)@.v[x as int] + old(self)@.v[y as int] > 255),
    {
        let vx = self.general_registers[x as usize];
        let vy = self.general_registers[y as usize];

        let carry: bool = vx as u16 + vy as u16 > 255;
        self.general_registers[x as usize] = vx.wrapping_add(vy);
        self.general_registers[0xF] = if carry { 1 } else { 0 };
    }

    /// 8XY5: the flag becomes 1 if VX is greater than VY and else 0, then
    /// VX becomes VX - VY modulo 256.
    pub(crate) fn op_subtract_vy_from_vx(&mut self, x: u16, y: u16)
        requires
            x < NUM_REGISTERS,
            y < NUM_REGISTERS,
        ensures
            final(self)@ == old(self)@.with_flag(old(self)@.v[x as int] > old(self)@.v[y as int]).with_v(
                x as int,
                wrap8(old(self)@.v[x as int] - old(self)@.v[y as int]),
            ),
    {
        let vx = self.general_registers[x as usize];
        let vy = self.general_registers[y as usize];

        if vx > vy {
            self.general_registers[0xF] = 1;
        } else {
            self.general_registers[0xF] = 0;
        }

        self.general_registers[x as usize] = vx.wrapping_sub(vy);
    }

    /// 8XY7: the flag becomes 1 if VY is greater than VX and else 0, then
    /// VX becomes VY - VX modulo 256.
    pub(crate) fn op_subtract_vx_from_vy(&mut self, x: u16, y: u16)
        requires
            x < NUM_REGISTERS,
            y < NUM_REGISTERS,
        ensures
            final(self)@ == old(self)@.with_flag(old(self)@.v[y as int] > old(self)@.v[x as int]).with_v(
                x as int,
                wrap8(old(self)@.v[y as int] - old(self)@.v[x as int]),
            ),
    {
        let vx = self.general_registers[x as usize];
        let vy = self.general_registers[y as usize];

        if vy > vx {
            self.general_registers[0xF] = 1;
        } else {
            self.general_registers[0xF] = 0;
        }

        self.general_registers[x as usize] = vy.wrapping_sub(vx);
    }

    /// 8XY6: the flag becomes the lowest bit of the value to shift, then VX
    /// becomes half that value. `SHIFT_TAKES_VY` says where the value comes
    /// from.
    pub(crate) fn op_shift_right(&mut self, x: u16, y: u16)
        requires
            x < NUM_REGISTERS,
            y < NUM_REGISTERS,
        ensures
            ({
                let shifted = shift_source(old(self)@, x as int, y as int);
                final(self)@ == old(self)@.with_flag(shifted % 2 == 1).with_v(x as int, shifted / 2)
            }),
    {
        let shifted = if SHIFT_TAKES_VY {
            self.general_registers[y as usize]
        } else {
            self.general_registers[x as usize]
        };
        assert(shifted & 1 == shifted % 2 && shifted >> 1 == shifted / 2) by (bit_vector);
        self.general_registers[0xF] = shifted & 1;
        self.general_registers[x as usize] = shifted >> 1;
    }

    /// 8XYE: the flag becomes the highest bit of the value to shift, then VX
    /// becomes twice that value modulo 256. `SHIFT_TAKES_VY` says where the
    /// value comes from.
    pub(crate) fn op_shift_left(&mut self, x: u16, y: u16)
        requires
            x < NUM_REGISTERS,
            y < NUM_REGISTERS,
        ensures
            ({
                let shifted = shift_source(old(self)@, x as int, y as int);
                final(self)@ == old(self)@.with_flag(shifted >= 128).with_v(
                    x as int,
                    wrap8(shifted * 2),
                )
            }),
    {
        let shifted = if SHIFT_TAKES_VY {
            self.general_registers[y as usize]
        } else {
            self.general_registers[x as usize]
        };
        assert(shifted >> 7 == (if shifted >= 128 { 1u8 } else { 0u8 }) && shifted << 1 == (shifted
            * 2) % 256) by (bit_vector);
        self.general_registers[0xF] = shifted >> 7;
        self.general_registers[x as usize] = shifted << 1;
    }

    /// ANNN: the index register becomes NNN.
    pub(crate) fn op_set_index(&mut self, nnn: u16)
        ensures
            final(self)@ == (CpuState { index: nnn, ..old(self)@ }),
    {
        self.index_register = nnn;
    }

    /// BNNN: jump to NNN + V0.
    pub(crate) fn op_jump_location_plus_reg(&mut self, nnn: u16)
        ensures
            final(self)@ == old(self)@.with_pc(wrap16(nnn + old(self)@.v[0])),
    {
        self.program_counter = (self.general_registers[0] as u16).wrapping_add(nnn);
    }

    /// CXNN: VX becomes the random byte AND NN.
    pub(crate) fn op_rand_and(&mut self, x: u16, nn: u8, random: u8)
        requires
            x < NUM_REGISTERS,
        ensures
            final(self)@ == old(self)@.with_v(x as int, random & nn),
    {
        self.general_registers[x as usize] = random & nn;
    }

    /// DXYN: draw the sprite of N rows that memory holds from the index
    /// register on at column VX of row VY, and set the flag to whether a lit
    /// pixel was turned off. If the rows reach beyond the memory, nothing is
    /// drawn and no register changes.
    pub(crate) fn op_display_vram(&mut self, vram: &mut FrameBuffer, ram: &RAM, x: u16, y: u16, n: u8) -> (r:
        Result<(), Chip8Error>)
        requires
            x < NUM_REGISTERS,
            y < NUM_REGISTERS,
            n <= MAX_SPRITE_ROWS,
        ensures
            ({
                let index = old(self)@.index;
                let vx = old(self)@.v[x as int];
                let vy = old(self)@.v[y as int];
                let rows = sprite_rows(ram@, index, n as int);
                if n > 0 && index + n > MEM_BYTES {
                    &&& r == Err::<(), Chip8Error>(
                        Chip8Error::OutOfBoundsAccess {
                            address: if index >= MEM_BYTES { index as usize } else { MEM_BYTES },
                        },
                    )
                    &&& final(self)@ == old(self)@
                    &&& final(vram)@ == old(vram)@
                } else {
                    &&& r == Ok::<(), Chip8Error>(())
                    &&& final(self)@ == old(self)@.with_flag(collides(old(vram)@.pixels, vx, vy, rows))
                    &&& final(vram)@ == (ScreenState {
                        pixels: draw(old(vram)@.pixels, vx, vy, rows),
                        changed: true,
                    })
                }
            }),
    {
        let vx = self.general_registers[x as usize];
        let vy = self.general_registers[y as usize];
        let mut rows: Vec<u8> = Vec::with_capacity(n as usize);
        let mut byte: u8 = 0;
        while byte < n
            invariant
                byte <= n <= MAX_SPRITE_ROWS,
                byte > 0 ==> self.index_register + byte <= MEM_BYTES,
                rows@ == sprite_rows(ram@, self.index_register, byte as int),
            decreases n - byte,
        {
            let address: usize = self.index_register as usize + byte as usize;
            match ram.read_memory(address) {
                Ok(row) => {
                    rows.push(row);
                },
                Err(e) => {
                    return Err(e);
                },
            }
            byte += 1;
        }
        let collision = vram.draw_sprite(vx, vy, rows.as_slice());
        self.general_registers[0xF] = if collision { 1 } else { 0 };
        Ok(())
    }

    /// EX9E: skip the next instruction if the key VX is down.
    pub(crate) fn op_skip_if_pressed(&mut self, keys: &[bool; NUM_KEYS], x: u16)
        requires
            x < NUM_REGISTERS,
        ensures
            final(self)@ == old(self)@.skip_when(key_down(keys@, old(self)@.v[x as int])),
    {
        let key = self.general_registers[x as usize] as usize;
        if key < NUM_KEYS && keys[key] {
            self.increment_pc();
        }
    }

    /// EXA1: skip the next instruction if the key VX is not down.
    pub(crate) fn op_skip_if_not_pressed(&mut self, keys: &[bool; NUM_KEYS], x: u16)
        requires
            x < NUM_REGISTERS,
        ensures
            final(self)@ == old(self)@.skip_when(!key_down(keys@, old(self)@.v[x as int])),
    {
        let key = self.general_registers[x as usize] as usize;
        if key < NUM_KEYS && keys[key] {
            return ;
        }
        self.increment_pc();
    }

    /// FX07: VX becomes the delay timer.
    pub(crate) fn op_set_to_delay(&mut self, x: u16)
        requires
            x < NUM_REGISTERS,
        ensures
            final(self)@ == old(self)@.with_v(x as int, old(self)@.delay),
    {
        self.general_registers[x as usize] = self.delay_timer;
    }

    /// FX15: the delay timer becomes VX.
    pub(crate) fn op_set_delay_to(&mut self, x: u16)
        requires
            x < NUM_REGISTERS,
        ensures
            final(self)@ == (CpuState { delay: old(self)@.v[x as int], ..old(self)@ }),
    {
        self.delay_timer = self.general_registers[x as usize];
    }

    /// FX18: the sound timer becomes VX.
    pub(crate) fn op_set_sound_to(&mut self, x: u16)
        requires
            x < NUM_REGISTERS,
        ensures
            final(self)@ == (CpuState { sound: old(self)@.v[x as int], ..old(self)@ }),
    {
        self.sound_timer = self.general_registers[x as usize];
    }

    /// FX1E: add VX to the index register modulo 65536; the flag stays.
    pub(crate) fn op_add_to_index(&mut self, x: u16)
        requires
            x < NUM_REGISTERS,
        ensures
            final(self)@ == (CpuState {
                index: wrap16(old(self)@.index + old(self)@.v[x as int]),
                ..old(self)@
            }),
    {
        let vx = self.general_registers[x as usize] as u16;
        self.index_register = self.index_register.wrapping_add(vx);
    }

    /// FX0A: hold the engine until a key-down is reported; the key then
    /// goes to VX.
    pub(crate) fn op_get_key(&mut self, x: u16)
        requires
            x < NUM_REGISTERS,
        ensures
            final(self)@ == (CpuState {
                state: EngineState::AwaitingKey { register: x as u8 },
                ..old(self)@
            }),
    {
        self.state = EngineState::AwaitingKey { register: x as u8 };
    }
}

} // verus!
