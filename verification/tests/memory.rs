use chip8::ram::{FONT_SET, MAX_ROM_BYTES, MEM_BYTES, PROG_MEM_START};
use chip8::{Chip8Error, RAM};

#[test]
fn new_memory_holds_font_then_zeros() {
    let ram = RAM::new_ram();
    for (i, byte) in FONT_SET.iter().enumerate() {
        assert_eq!(ram.read_memory(i), Ok(*byte));
    }
    for addr in FONT_SET.len()..MEM_BYTES {
        assert_eq!(ram.read_memory(addr), Ok(0));
    }
}

#[test]
fn font_glyph_zero_and_f() {
    let ram = RAM::new_ram();
    let zero: Vec<u8> = (0..5).map(|i| ram.read_memory(i).unwrap()).collect();
    assert_eq!(zero, vec![0xF0, 0x90, 0x90, 0x90, 0xF0]);
    let f: Vec<u8> = (75..80).map(|i| ram.read_memory(i).unwrap()).collect();
    assert_eq!(f, vec![0xF0, 0x80, 0xF0, 0x80, 0x80]);
}

#[test]
fn write_then_read_returns_value_at_every_address() {
    let mut ram = RAM::new_ram();
    for addr in 0..MEM_BYTES {
        let value = (addr % 251) as u8 ^ 0x5A;
        assert_eq!(ram.set_memory(value, addr), Ok(()));
        assert_eq!(ram.read_memory(addr), Ok(value));
    }
}

#[test]
fn write_changes_only_its_address() {
    let mut ram = RAM::new_ram();
    assert_eq!(ram.set_memory(0xAB, 0x300), Ok(()));
    assert_eq!(ram.read_memory(0x2FF), Ok(0));
    assert_eq!(ram.read_memory(0x300), Ok(0xAB));
    assert_eq!(ram.read_memory(0x301), Ok(0));
    assert_eq!(ram.read_memory(0), Ok(0xF0));
}

#[test]
fn write_does_not_shift_later_bytes() {
    let mut ram = RAM::new_ram();
    assert_eq!(ram.set_memory(0x11, 0), Ok(()));
    assert_eq!(ram.read_memory(1), Ok(0x90));
    assert_eq!(ram.read_memory(79), Ok(0x80));
    assert_eq!(ram.read_memory(80), Ok(0));
}

#[test]
fn last_address_is_valid() {
    let mut ram = RAM::new_ram();
    assert_eq!(ram.set_memory(7, MEM_BYTES - 1), Ok(()));
    assert_eq!(ram.read_memory(MEM_BYTES - 1), Ok(7));
}

#[test]
fn addresses_at_or_beyond_capacity_fail() {
    let mut ram = RAM::new_ram();
    for addr in [MEM_BYTES, MEM_BYTES + 1, 0x1_0000, usize::MAX] {
        assert_eq!(
            ram.read_memory(addr),
            Err(Chip8Error::OutOfBoundsAccess { address: addr })
        );
        assert_eq!(
            ram.set_memory(1, addr),
            Err(Chip8Error::OutOfBoundsAccess { address: addr })
        );
    }
    for addr in 0..MEM_BYTES {
        let expected = if addr < 80 { FONT_SET[addr] } else { 0 };
        assert_eq!(ram.read_memory(addr), Ok(expected));
    }
}

#[test]
fn word_is_big_endian() {
    let mut ram = RAM::new_ram();
    ram.set_memory(0x12, 0x200).unwrap();
    ram.set_memory(0x34, 0x201).unwrap();
    assert_eq!(ram.get_instruction(0x200), Ok(0x1234));
    assert_eq!(ram.get_instruction(0x201), Ok(0x3400));
    assert_eq!(ram.get_instruction(0), Ok(0xF090));
}

#[test]
fn word_needs_both_bytes() {
    let mut ram = RAM::new_ram();
    ram.set_memory(0xAA, 0xFFE).unwrap();
    ram.set_memory(0xBB, 0xFFF).unwrap();
    assert_eq!(ram.get_instruction(0xFFE), Ok(0xAABB));
    assert_eq!(
        ram.get_instruction(0xFFF),
        Err(Chip8Error::OutOfBoundsAccess { address: 0x1000 })
    );
    assert_eq!(
        ram.get_instruction(0x1000),
        Err(Chip8Error::OutOfBoundsAccess { address: 0x1000 })
    );
    assert_eq!(
        ram.get_instruction(0xFFFF),
        Err(Chip8Error::OutOfBoundsAccess { address: 0xFFFF })
    );
}

#[test]
fn load_rom_copies_to_origin_and_zero_fills() {
    let mut ram = RAM::new_ram();
    ram.set_memory(0x77, 0x205).unwrap();
    ram.set_memory(0x77, 0xFFF).unwrap();
    assert_eq!(ram.load_rom(&[0x12, 0x34, 0x56]), Ok(()));
    assert_eq!(ram.read_memory(PROG_MEM_START), Ok(0x12));
    assert_eq!(ram.read_memory(PROG_MEM_START + 1), Ok(0x34));
    assert_eq!(ram.read_memory(PROG_MEM_START + 2), Ok(0x56));
    for addr in PROG_MEM_START + 3..MEM_BYTES {
        assert_eq!(ram.read_memory(addr), Ok(0));
    }
    for (i, byte) in FONT_SET.iter().enumerate() {
        assert_eq!(ram.read_memory(i), Ok(*byte));
    }
    assert_eq!(ram.read_memory(0x1FF), Ok(0));
}

#[test]
fn load_rom_keeps_what_lies_below_the_origin() {
    let mut ram = RAM::new_ram();
    ram.set_memory(0x99, 0x1FF).unwrap();
    ram.load_rom(&[1, 2]).unwrap();
    assert_eq!(ram.read_memory(0x1FF), Ok(0x99));
}

#[test]
fn load_rom_accepts_the_largest_image() {
    let mut ram = RAM::new_ram();
    let rom: Vec<u8> = (0..MAX_ROM_BYTES).map(|i| (i % 256) as u8).collect();
    assert_eq!(MAX_ROM_BYTES, MEM_BYTES - PROG_MEM_START);
    assert_eq!(ram.load_rom(&rom), Ok(()));
    assert_eq!(ram.read_memory(PROG_MEM_START), Ok(0));
    assert_eq!(ram.read_memory(PROG_MEM_START + 255), Ok(255));
    assert_eq!(ram.read_memory(MEM_BYTES - 1), Ok(((MAX_ROM_BYTES - 1) % 256) as u8));
}

#[test]
fn load_rom_refuses_an_oversized_image_and_changes_nothing() {
    let mut ram = RAM::new_ram();
    ram.load_rom(&[0xAA, 0xBB]).unwrap();
    let rom = vec![0xFF; MAX_ROM_BYTES + 1];
    assert_eq!(
        ram.load_rom(&rom),
        Err(Chip8Error::RomTooLarge { len: MAX_ROM_BYTES + 1 })
    );
    assert_eq!(ram.read_memory(PROG_MEM_START), Ok(0xAA));
    assert_eq!(ram.read_memory(PROG_MEM_START + 1), Ok(0xBB));
    assert_eq!(ram.read_memory(PROG_MEM_START + 2), Ok(0));
}

#[test]
fn load_rom_of_nothing_clears_program_memory() {
    let mut ram = RAM::new_ram();
    ram.load_rom(&[1, 2, 3]).unwrap();
    assert_eq!(ram.load_rom(&[]), Ok(()));
    for addr in PROG_MEM_START..MEM_BYTES {
        assert_eq!(ram.read_memory(addr), Ok(0));
    }
}
