//! The machine as plain values, and what each instruction and each cycle
//! does to it. The executable code is proved against these definitions.

use vstd::prelude::*;
use crate::display::{blank_grid, collides, draw, is_grid, ScreenState};
use crate::error::Chip8Error;
use crate::ram::{initial_memory, read_word, MEM_BYTES};
use crate::stack::STACK_SIZE;

verus! {

/// Number of general registers.
pub const NUM_REGISTERS: usize = 16;

/// Index of the register that instructions use for their flag.
pub const FLAG_REGISTER: usize = 15;

/// Number of keys on the keypad.
pub const NUM_KEYS: usize = 16;

/// Whether the shift instructions 8XY6 and 8XYE take the value to shift from
/// VY, as the earliest machines did, or from VX itself, as machines have
/// done since. This machine shifts VX in place and does not look at VY.
pub const SHIFT_TAKES_VY: bool = false;

/// Whether the engine is executing instructions or is held by a wait for a
/// key, and then for which register.
#[derive(Clone, Copy, Debug, PartialEq, Eq, Structural)]
pub enum EngineState {
    Running,
    AwaitingKey { register: u8 },
}

/// What one cycle did.
#[derive(Clone, Copy, Debug, PartialEq, Eq, Structural)]
pub enum CycleOutcome {
    /// One instruction was executed and the engine goes on.
    Executed,
    /// The engine is held by a wait for a key: either this cycle executed the
    /// wait, or the engine was held already and nothing was executed.
    AwaitingKey,
}

/// The registers and timers as plain values.
#[verifier::ext_equal]
pub struct CpuState {
    pub v: Seq<u8>,
    pub delay: u8,
    pub sound: u8,
    pub pc: u16,
    pub index: u16,
    pub state: EngineState,
}

/// The whole machine as plain values.
#[verifier::ext_equal]
pub struct Machine {
    pub cpu: CpuState,
    pub stack: Seq<u16>,
    pub screen: ScreenState,
    pub memory: Seq<u8>,
}

/// The machine after a cycle, and what the cycle reports.
#[verifier::ext_equal]
pub struct Step {
    pub machine: Machine,
    pub result: Result<CycleOutcome, Chip8Error>,
}

/// A 16-bit register value that counts modulo 65536.
pub open spec fn wrap16(value: int) -> u16 {
    (value % 0x1_0000) as u16
}

/// An 8-bit register value that counts modulo 256.
pub open spec fn wrap8(value: int) -> u8 {
    (value % 0x100) as u8
}

/// A flag as a register value.
pub open spec fn flag(set: bool) -> u8 {
    if set {
        1
    } else {
        0
    }
}

/// Whether `key` is one of the sixteen keys and is held down.
pub open spec fn key_down(keys: Seq<bool>, key: u8) -> bool {
    key < NUM_KEYS && keys[key as int]
}

/// The leading hexadecimal digit of an instruction, which selects its group.
pub open spec fn op_group(opcode: u16) -> int {
    opcode as int / 0x1000
}

/// The second digit: the register X.
pub open spec fn op_x(opcode: u16) -> int {
    (opcode as int / 0x100) % 16
}

/// The third digit: the register Y.
pub open spec fn op_y(opcode: u16) -> int {
    (opcode as int / 0x10) % 16
}

/// The last digit: N.
pub open spec fn op_n(opcode: u16) -> int {
    opcode as int % 16
}

/// The low byte: the immediate NN.
pub open spec fn op_nn(opcode: u16) -> u8 {
    (opcode as int % 0x100) as u8
}

/// The low three digits: the address NNN.
pub open spec fn op_nnn(opcode: u16) -> u16 {
    (opcode as int % 0x1000) as u16
}

impl CpuState {
    /// Sixteen registers.
    pub open spec fn wf(self) -> bool {
        self.v.len() == NUM_REGISTERS
    }

    /// With register `x` holding `value`.
    pub open spec fn with_v(self, x: int, value: u8) -> CpuState {
        CpuState { v: self.v.update(x, value), ..self }
    }

    /// With the flag register holding `set` as 1 or 0.
    pub open spec fn with_flag(self, set: bool) -> CpuState {
        self.with_v(FLAG_REGISTER as int, flag(set))
    }

    /// With the program counter at `pc`.
    pub open spec fn with_pc(self, pc: u16) -> CpuState {
        CpuState { pc, ..self }
    }

    /// With the program counter moved past one instruction.
    pub open spec fn advance(self) -> CpuState {
        self.with_pc(wrap16(self.pc + 2))
    }

    /// With the next instruction skipped when `skip` holds.
    pub open spec fn skip_when(self, skip: bool) -> CpuState {
        if skip {
            self.advance()
        } else {
            self
        }
    }

    /// After one tick of the 60 Hz clock: each timer that is not zero goes
    /// down by one.
    pub open spec fn tick(self) -> CpuState {
        CpuState {
            delay: if self.delay > 0 { (self.delay - 1) as u8 } else { 0 },
            sound: if self.sound > 0 { (self.sound - 1) as u8 } else { 0 },
            ..self
        }
    }

    /// After a key-down of `key` was reported. An engine that waits for a
    /// key takes a key of the keypad into the register it waits for and runs
    /// again; nothing else changes anything.
    pub open spec fn key_pressed(self, key: u8) -> CpuState {
        match self.state {
            EngineState::AwaitingKey { register } if key < NUM_KEYS => CpuState {
                v: if register < NUM_REGISTERS { self.v.update(register as int, key) } else { self.v },
                state: EngineState::Running,
                ..self
            },
            _ => self,
        }
    }
}

/// The registers and timers at the start of a session.
pub open spec fn initial_cpu() -> CpuState {
    CpuState {
        v: Seq::new(NUM_REGISTERS as nat, |i: int| 0u8),
        delay: 0,
        sound: 0,
        pc: 0x200,
        index: 0,
        state: EngineState::Running,
    }
}

/// The machine at the start of a session: the font in memory, the stack
/// empty, the display dark and not to be redrawn.
pub open spec fn initial_machine() -> Machine {
    Machine {
        cpu: initial_cpu(),
        stack: Seq::empty(),
        screen: ScreenState { pixels: blank_grid(), changed: false },
        memory: initial_memory(),
    }
}

impl Machine {
    /// Sixteen registers, a display of the right size and a memory of the
    /// right size.
    pub open spec fn wf(self) -> bool {
        &&& self.cpu.wf()
        &&& is_grid(self.screen.pixels)
        &&& self.memory.len() == MEM_BYTES
    }

    /// With other registers and timers.
    pub open spec fn with_cpu(self, cpu: CpuState) -> Machine {
        Machine { cpu, ..self }
    }
}

/// The sprite of `n` rows that `memory` holds from the address `index` on.
pub open spec fn sprite_rows(memory: Seq<u8>, index: u16, n: int) -> Seq<u8> {
    Seq::new(n as nat, |i: int| memory[index + i])
}

/// An instruction that ran: the machine it leaves, and the engine goes on.
pub open spec fn executed(machine: Machine) -> Step {
    Step { machine, result: Ok(CycleOutcome::Executed) }
}

/// An instruction that failed: the machine it leaves, and the error.
pub open spec fn failed(machine: Machine, error: Chip8Error) -> Step {
    Step { machine, result: Err(error) }
}

/// The value that the shift instructions of X and Y shift.
pub open spec fn shift_source(cpu: CpuState, x: int, y: int) -> u8 {
    if SHIFT_TAKES_VY {
        cpu.v[y]
    } else {
        cpu.v[x]
    }
}

/// The arithmetic and logic group 8XY_, on the registers after the program
/// counter has moved on. Where an instruction writes both VX and the flag
/// register and X is the flag register itself, the later write stays.
pub open spec fn alu(cpu: CpuState, x: int, y: int, n: int) -> Option<CpuState> {
    let vx = cpu.v[x];
    let vy = cpu.v[y];
    let shifted = shift_source(cpu, x, y);
    if n == 0x0 {
        Some(cpu.with_v(x, vy))
    } else if n == 0x1 {
        Some(cpu.with_v(x, vx | vy))
    } else if n == 0x2 {
        Some(cpu.with_v(x, vx & vy))
    } else if n == 0x3 {
        Some(cpu.with_v(x, vx ^ vy))
    } else if n == 0x4 {
        Some(cpu.with_v(x, wrap8(vx + vy)).with_flag(vx + vy > 255))
    } else if n == 0x5 {
        Some(cpu.with_flag(vx > vy).with_v(x, wrap8(vx - vy)))
    } else if n == 0x6 {
        Some(cpu.with_flag(shifted % 2 == 1).with_v(x, shifted / 2))
    } else if n == 0x7 {
        Some(cpu.with_flag(vy > vx).with_v(x, wrap8(vy - vx)))
    } else if n == 0xE {
        Some(cpu.with_flag(shifted >= 128).with_v(x, wrap8(shifted * 2)))
    } else {
        None
    }
}

/// The timer, index and key-wait group FX__, on the registers after the
/// program counter has moved on.
pub open spec fn misc(cpu: CpuState, x: int, nn: u8) -> Option<CpuState> {
    let vx = cpu.v[x];
    if nn == 0x07 {
        Some(cpu.with_v(x, cpu.delay))
    } else if nn == 0x0A {
        Some(CpuState { state: EngineState::AwaitingKey { register: x as u8 }, ..cpu })
    } else if nn == 0x15 {
        Some(CpuState { delay: vx, ..cpu })
    } else if nn == 0x18 {
        Some(CpuState { sound: vx, ..cpu })
    } else if nn == 0x1E {
        Some(CpuState { index: wrap16(cpu.index + vx), ..cpu })
    } else {
        None
    }
}

/// Whether `opcode` is an instruction of this machine.
pub open spec fn is_instruction(opcode: u16) -> bool {
    let group = op_group(opcode);
    let nn = op_nn(opcode);
    if group == 0x0 {
        opcode == 0x00E0 || opcode == 0x00EE
    } else if group == 0x8 {
        op_n(opcode) <= 0x7 || op_n(opcode) == 0xE
    } else if group == 0xE {
        nn == 0x9E || nn == 0xA1
    } else if group == 0xF {
        nn == 0x07 || nn == 0x0A || nn == 0x15 || nn == 0x18 || nn == 0x1E
    } else {
        true
    }
}

/// What executing the fetched word `opcode` does to the machine `m`, whose
/// program counter still points at that word.
///
/// The program counter moves past the word first, so that jumps, calls and
/// skips start from the address of the next instruction. An instruction
/// that fails leaves the machine with the program counter moved on and
/// nothing else changed. `random` is the byte that the random instruction
/// uses; no other instruction looks at it. In the groups 5XY_ and 9XY_ the
/// last digit is not looked at.
pub open spec fn instruction(m: Machine, opcode: u16, keys: Seq<bool>, random: u8) -> Step {
    let group = op_group(opcode);
    let x = op_x(opcode);
    let nn = op_nn(opcode);
    let nnn = op_nnn(opcode);
    let cpu = m.cpu.advance();
    let vx = cpu.v[x];
    let vy = cpu.v[op_y(opcode)];
    let next = m.with_cpu(cpu);
    let unknown = failed(next, Chip8Error::UnknownOpcode { opcode, pc: m.cpu.pc });
    if opcode == 0x00E0 {
        executed(Machine { screen: ScreenState { pixels: blank_grid(), changed: true }, ..next })
    } else if opcode == 0x00EE {
        if m.stack.len() == 0 {
            failed(next, Chip8Error::StackUnderflow)
        } else {
            executed(Machine { cpu: cpu.with_pc(m.stack.last()), stack: m.stack.drop_last(), ..next })
        }
    } else if group == 0x1 {
        executed(next.with_cpu(cpu.with_pc(nnn)))
    } else if group == 0x2 {
        if m.stack.len() >= STACK_SIZE {
            failed(next, Chip8Error::StackOverflow)
        } else {
            executed(Machine { cpu: cpu.with_pc(nnn), stack: m.stack.push(cpu.pc), ..next })
        }
    } else if group == 0x3 {
        executed(next.with_cpu(cpu.skip_when(vx == nn)))
    } else if group == 0x4 {
        executed(next.with_cpu(cpu.skip_when(vx != nn)))
    } else if group == 0x5 {
        executed(next.with_cpu(cpu.skip_when(vx == vy)))
    } else if group == 0x6 {
        executed(next.with_cpu(cpu.with_v(x, nn)))
    } else if group == 0x7 {
        executed(next.with_cpu(cpu.with_v(x, wrap8(vx + nn))))
    } else if group == 0x8 {
        match alu(cpu, x, op_y(opcode), op_n(opcode)) {
            Some(after) => executed(next.with_cpu(after)),
            None => unknown,
        }
    } else if group == 0x9 {
        executed(next.with_cpu(cpu.skip_when(vx != vy)))
    } else if group == 0xA {
        executed(next.with_cpu(CpuState { index: nnn, ..cpu }))
    } else if group == 0xB {
        executed(next.with_cpu(cpu.with_pc(wrap16(nnn + cpu.v[0]))))
    } else if group == 0xC {
        executed(next.with_cpu(cpu.with_v(x, random & nn)))
    } else if group == 0xD {
        let n = op_n(opcode);
        if n > 0 && cpu.index + n > MEM_BYTES {
            failed(
                next,
                Chip8Error::OutOfBoundsAccess {
                    address: if cpu.index >= MEM_BYTES { cpu.index as usize } else { MEM_BYTES },
                },
            )
        } else {
            let rows = sprite_rows(m.memory, cpu.index, n);
            executed(
                Machine {
                    cpu: cpu.with_flag(collides(m.screen.pixels, vx, vy, rows)),
                    screen: ScreenState { pixels: draw(m.screen.pixels, vx, vy, rows), changed: true },
                    ..next
                },
            )
        }
    } else if group == 0xE {
        if nn == 0x9E {
            executed(next.with_cpu(cpu.skip_when(key_down(keys, vx))))
        } else if nn == 0xA1 {
            executed(next.with_cpu(cpu.skip_when(!key_down(keys, vx))))
        } else {
            unknown
        }
    } else if group == 0xF {
        match misc(cpu, x, nn) {
            Some(after) => Step {
                machine: next.with_cpu(after),
                result: Ok(
                    if nn == 0x0A {
                        CycleOutcome::AwaitingKey
                    } else {
                        CycleOutcome::Executed
                    },
                ),
            },
            None => unknown,
        }
    } else {
        unknown
    }
}

/// What one cycle does to the machine `m`.
///
/// An engine that waits for a key executes nothing. Otherwise the word at
/// the program counter is fetched and executed. The word can come from any
/// address of the memory; a fetch that reaches beyond the memory fails and
/// changes nothing, so the program counter never wraps around.
pub open spec fn cycle(m: Machine, keys: Seq<bool>, random: u8) -> Step {
    if m.cpu.state is AwaitingKey {
        Step { machine: m, result: Ok(CycleOutcome::AwaitingKey) }
    } else {
        match read_word(m.memory, m.cpu.pc) {
            Ok(opcode) => instruction(m, opcode, keys, random),
            Err(error) => failed(m, error),
        }
    }
}

/// A word that is no instruction fails as an unknown opcode, naming the
/// word and the address it was fetched from, and leaves the machine as it
/// was but for the program counter, which has moved past the word. A word
/// that is an instruction never fails so.
pub proof fn lemma_unknown_opcode(m: Machine, opcode: u16, keys: Seq<bool>, random: u8)
    ensures
        !is_instruction(opcode) ==> instruction(m, opcode, keys, random) == failed(
            m.with_cpu(m.cpu.advance()),
            Chip8Error::UnknownOpcode { opcode, pc: m.cpu.pc },
        ),
        is_instruction(opcode) ==> !(instruction(m, opcode, keys, random).result matches Err(
            Chip8Error::UnknownOpcode { .. },
        )),
{
}

/// Whatever an instruction does, a failed one has only moved the program
/// counter.
pub proof fn lemma_failure_keeps_state(m: Machine, opcode: u16, keys: Seq<bool>, random: u8)
    ensures
        instruction(m, opcode, keys, random).result is Err ==> instruction(
            m,
            opcode,
            keys,
            random,
        ).machine == m.with_cpu(m.cpu.advance()),
{
}

/// No instruction writes to memory.
pub proof fn lemma_memory_is_kept(m: Machine, opcode: u16, keys: Seq<bool>, random: u8)
    ensures
        instruction(m, opcode, keys, random).machine.memory == m.memory,
{
}

/// Only the random instruction CXNN looks at the random byte.
pub proof fn lemma_random_byte_is_for_cxnn(
    m: Machine,
    opcode: u16,
    keys: Seq<bool>,
    random: u8,
    other: u8,
)
    requires
        op_group(opcode) != 0xC,
    ensures
        instruction(m, opcode, keys, random) == instruction(m, opcode, keys, other),
{
}

/// A cycle that fetches a word moves the program counter by exactly two
/// before the instruction runs: a fetch succeeds only where that cannot
/// wrap.
pub proof fn lemma_fetch_moves_by_two(m: Machine)
    requires
        read_word(m.memory, m.cpu.pc) is Ok,
    ensures
        m.cpu.advance().pc == m.cpu.pc + 2,
{
}

/// An engine that waits for a key executes nothing, whatever the memory
/// holds, while the timers still run; the report of a key of the keypad
/// puts the key into the register waited for and lets the engine run again.
pub proof fn lemma_wait_for_key(m: Machine, keys: Seq<bool>, random: u8, register: u8, key: u8)
    requires
        m.cpu.wf(),
        m.cpu.state == (EngineState::AwaitingKey { register }),
        register < NUM_REGISTERS,
        key < NUM_KEYS,
    ensures
        cycle(m, keys, random) == (Step { machine: m, result: Ok(CycleOutcome::AwaitingKey) }),
        m.cpu.tick().state == m.cpu.state,
        m.cpu.key_pressed(key).state == EngineState::Running,
        m.cpu.key_pressed(key).v[register as int] == key,
        m.cpu.key_pressed(key).pc == m.cpu.pc,
{
}

/// A call followed by a return: the call 2NNN goes to NNN with the address
/// after the call on top of the stack, and the return 00EE then goes to
/// that address and leaves the stack as it was before the call.
pub proof fn lemma_call_then_return(m: Machine, nnn: u16, keys: Seq<bool>, random: u8)
    requires
        nnn < 0x1000,
        m.stack.len() < STACK_SIZE,
    ensures
        ({
            let called = instruction(m, (0x2000 + nnn) as u16, keys, random);
            let returned = instruction(called.machine, 0x00EE, keys, random);
            &&& called.result == Ok::<CycleOutcome, Chip8Error>(CycleOutcome::Executed)
            &&& called.machine.cpu.pc == nnn
            &&& called.machine.stack == m.stack.push(m.cpu.advance().pc)
            &&& returned.result == Ok::<CycleOutcome, Chip8Error>(CycleOutcome::Executed)
            &&& returned.machine.cpu.pc == m.cpu.advance().pc
            &&& returned.machine.stack == m.stack
            &&& returned.machine == m.with_cpu(m.cpu.advance())
        }),
{
}

/// A cycle keeps the sizes of the machine, and a stack within its bound
/// stays within its bound.
pub proof fn lemma_cycle_keeps_sizes(m: Machine, keys: Seq<bool>, random: u8)
    requires
        m.wf(),
        m.stack.len() <= STACK_SIZE,
    ensures
        cycle(m, keys, random).machine.wf(),
        cycle(m, keys, random).machine.stack.len() <= STACK_SIZE,
{
}

} // verus!
