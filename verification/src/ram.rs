//! The memory: 4096 bytes, the font at the bottom, the program from 0x200.

use vstd::prelude::*;
use crate::error::Chip8Error;

verus! {

/// Number of addressable bytes.
pub const MEM_BYTES: usize = 4096;

/// Address at which a loaded program starts.
pub const PROG_MEM_START: usize = 0x200;

/// Largest program image that fits between the program origin and the end of
/// memory.
pub const MAX_ROM_BYTES: usize = 3584;

/// Number of bytes taken by the built-in font.
pub const FONT_COUNT: usize = 80;

/// The built-in hexadecimal font: sixteen glyphs of five rows each, one byte
/// per row, leftmost pixel in the most significant bit.
pub const FONT_SET: [u8; 80] = [
    0xF0, 0x90, 0x90, 0x90, 0xF0,
    0x20, 0x60, 0x20, 0x20, 0x70,
    0xF0, 0x10, 0xF0, 0x80, 0xF0,
    0xF0, 0x10, 0xF0, 0x10, 0xF0,
    0x90, 0x90, 0xF0, 0x10, 0x10,
    0xF0, 0x80, 0xF0, 0x10, 0xF0,
    0xF0, 0x80, 0xF0, 0x90, 0xF0,
    0xF0, 0x10, 0x20, 0x40, 0x40,
    0xF0, 0x90, 0xF0, 0x90, 0xF0,
    0xF0, 0x90, 0xF0, 0x10, 0xF0,
    0xF0, 0x90, 0xF0, 0x90, 0x90,
    0xE0, 0x90, 0xE0, 0x90, 0xE0,
    0xF0, 0x80, 0x80, 0x80, 0xF0,
    0xE0, 0x90, 0x90, 0x90, 0xE0,
    0xF0, 0x80, 0xF0, 0x80, 0xF0,
    0xF0, 0x80, 0xF0, 0x80, 0x80,
];

/// Contents of a freshly created memory: the font at the bottom, zero above.
pub open spec fn initial_memory() -> Seq<u8> {
    Seq::new(MEM_BYTES as nat, |i: int| if i < FONT_COUNT { FONT_SET@[i] } else { 0u8 })
}

/// What reading one byte at `addr` gives.
pub open spec fn read_byte(mem: Seq<u8>, addr: usize) -> Result<u8, Chip8Error> {
    if addr < MEM_BYTES {
        Ok(mem[addr as int])
    } else {
        Err(Chip8Error::OutOfBoundsAccess { address: addr })
    }
}

/// Whether a write of one byte at `addr` is accepted.
pub open spec fn write_byte_result(addr: usize) -> Result<(), Chip8Error> {
    if addr < MEM_BYTES {
        Ok(())
    } else {
        Err(Chip8Error::OutOfBoundsAccess { address: addr })
    }
}

/// The memory after a write of `val` at `addr` was asked for: changed at
/// `addr` only, and not at all when the write is refused.
pub open spec fn write_byte(mem: Seq<u8>, addr: usize, val: u8) -> Seq<u8> {
    if addr < MEM_BYTES {
        mem.update(addr as int, val)
    } else {
        mem
    }
}

/// What reading the big-endian word at `addr` gives: the byte at `addr` is
/// the high half, the byte after it the low half. Both bytes have to exist,
/// and the error names the first address that does not.
pub open spec fn read_word(mem: Seq<u8>, addr: u16) -> Result<u16, Chip8Error> {
    if addr + 1 < MEM_BYTES {
        Ok((mem[addr as int] * 256 + mem[addr + 1]) as u16)
    } else if addr < MEM_BYTES {
        Err(Chip8Error::OutOfBoundsAccess { address: (addr + 1) as usize })
    } else {
        Err(Chip8Error::OutOfBoundsAccess { address: addr as usize })
    }
}

/// Whether a program image of `len` bytes is accepted.
pub open spec fn load_program_result(len: usize) -> Result<(), Chip8Error> {
    if len <= MAX_ROM_BYTES {
        Ok(())
    } else {
        Err(Chip8Error::RomTooLarge { len })
    }
}

/// The memory after loading `rom` was asked for. An accepted image lies at
/// the program origin followed by zeros up to the end of memory; what is
/// below the origin stays. A refused image changes nothing.
pub open spec fn load_program(mem: Seq<u8>, rom: Seq<u8>) -> Seq<u8> {
    if rom.len() <= MAX_ROM_BYTES {
        Seq::new(
            MEM_BYTES as nat,
            |i: int|
                if i < PROG_MEM_START {
                    mem[i]
                } else if i - PROG_MEM_START < rom.len() {
                    rom[i - PROG_MEM_START]
                } else {
                    0u8
                },
        )
    } else {
        mem
    }
}

/// The flat byte store of the machine.
pub struct RAM {
    memory: [u8; MEM_BYTES],
}

impl View for RAM {
    type V = Seq<u8>;

    closed spec fn view(&self) -> Seq<u8> {
        self.memory@
    }
}

impl RAM {
    /// A memory always holds exactly `MEM_BYTES` bytes.
    pub proof fn lemma_view_len(&self)
        ensures
            self@.len() == MEM_BYTES,
    {
    }

    /// Writes `val` at `index`, or refuses an address beyond the capacity.
    pub fn set_memory(&mut self, val: u8, index: usize) -> (r: Result<(), Chip8Error>)
        ensures
            r == write_byte_result(index),
            final(self)@ == write_byte(old(self)@, index, val),
    {
        if index >= MEM_BYTES {
            Err(Chip8Error::OutOfBoundsAccess { address: index })
        } else {
            self.memory[index] = val;
            Ok(())
        }
    }

    /// Reads the byte at `addr`, or refuses an address beyond the capacity.
    pub fn read_memory(&self, addr: usize) -> (r: Result<u8, Chip8Error>)
        ensures
            r == read_byte(self@, addr),
    {
        if addr >= MEM_BYTES {
            Err(Chip8Error::OutOfBoundsAccess { address: addr })
        } else {
            Ok(self.memory[addr])
        }
    }

    /// Reads the big-endian word at `addr`, as an instruction fetch does.
    pub fn get_instruction(&self, addr: u16) -> (r: Result<u16, Chip8Error>)
        ensures
            r == read_word(self@, addr),
    {
        let hi: u8 = match self.read_memory(addr as usize) {
            Ok(b) => b,
            Err(e) => {
                return Err(e);
            },
        };
        let lo: u8 = match self.read_memory(addr as usize + 1) {
            Ok(b) => b,
            Err(e) => {
                return Err(e);
            },
        };
        assert(((hi as u16) << 8) | (lo as u16) == hi as u16 * 256 + lo as u16) by (bit_vector);
        Ok(((hi as u16) << 8) | (lo as u16))
    }

    /// A memory with the font loaded and every other byte zero.
    pub fn new_ram() -> (r: RAM)
        ensures
            r@ == initial_memory(),
    {
        let mut r = RAM { memory: [0; MEM_BYTES] };
        r.load_font();
        r
    }

    /// Copies a program image to the program origin and zeroes the rest of
    /// program memory, or refuses an image that does not fit.
    pub fn load_rom(&mut self, rom: &[u8]) -> (r: Result<(), Chip8Error>)
        ensures
            r == load_program_result(rom@.len() as usize),
            final(self)@ == load_program(old(self)@, rom@),
    {
        if rom.len() > MAX_ROM_BYTES {
            return Err(Chip8Error::RomTooLarge { len: rom.len() });
        }
        let mut i: usize = 0;
        while i < MAX_ROM_BYTES
            invariant
                i <= MAX_ROM_BYTES,
                rom@.len() <= MAX_ROM_BYTES,
                forall|j: int| 0 <= j < PROG_MEM_START + i ==> self@[j] == load_program(old(self)@, rom@)[j],
                forall|j: int| PROG_MEM_START + i <= j < MEM_BYTES ==> self@[j] == old(self)@[j],
            decreases MAX_ROM_BYTES - i,
        {
            let byte: u8 = if i < rom.len() { rom[i] } else { 0 };
            let ghost before = self@;
            self.memory[PROG_MEM_START + i] = byte;
            assert(self@ == before.update(PROG_MEM_START + i, byte));
            i += 1;
        }
        Ok(())
    }

    /// Copies the font to the bottom of memory.
    fn load_font(&mut self)
        ensures
            forall|j: int| 0 <= j < FONT_COUNT ==> final(self)@[j] == FONT_SET@[j],
            forall|j: int| FONT_COUNT <= j < MEM_BYTES ==> final(self)@[j] == old(self)@[j],
    {
        let mut i: usize = 0;
        while i < FONT_COUNT
            invariant
                i <= FONT_COUNT,
                forall|j: int| 0 <= j < i ==> self@[j] == FONT_SET@[j],
                forall|j: int| i <= j < MEM_BYTES ==> self@[j] == old(self)@[j],
            decreases FONT_COUNT - i,
        {
            self.memory[i] = FONT_SET[i];
            i += 1;
        }
    }
}

/// A byte written at a valid address is the byte read back from it, and
/// both operations refuse every address at or beyond the capacity.
pub proof fn lemma_write_then_read(mem: Seq<u8>, addr: usize, val: u8)
    requires
        mem.len() == MEM_BYTES,
    ensures
        addr < MEM_BYTES ==> write_byte_result(addr) == Ok::<(), Chip8Error>(()) && read_byte(
            write_byte(mem, addr, val),
            addr,
        ) == Ok::<u8, Chip8Error>(val),
        addr >= MEM_BYTES ==> write_byte_result(addr) is Err && read_byte(mem, addr) is Err
            && write_byte(mem, addr, val) == mem,
{
}

/// A write changes no byte but the one it is aimed at.
pub proof fn lemma_write_keeps_others(mem: Seq<u8>, addr: usize, val: u8, other: usize)
    requires
        mem.len() == MEM_BYTES,
        other != addr,
    ensures
        read_byte(write_byte(mem, addr, val), other) == read_byte(mem, other),
{
}

/// After an accepted load the program is read back byte for byte from the
/// program origin on, zeros follow it, and what lies below the origin reads
/// as before. A refused load leaves every byte as it was.
pub proof fn lemma_load_then_read(mem: Seq<u8>, rom: Seq<u8>, addr: usize)
    requires
        mem.len() == MEM_BYTES,
        addr < MEM_BYTES,
    ensures
        read_byte(load_program(mem, rom), addr) == Ok::<u8, Chip8Error>(
            if rom.len() > MAX_ROM_BYTES || addr < PROG_MEM_START {
                mem[addr as int]
            } else if addr - PROG_MEM_START < rom.len() {
                rom[addr - PROG_MEM_START]
            } else {
                0u8
            },
        ),
{
}

} // verus!
