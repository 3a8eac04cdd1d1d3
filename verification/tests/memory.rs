//! Memory tests: the loader, bounds-checked reads and writes, and
//! instruction fetch.

use chip8::chip8::Chip8Error;
use chip8::display::font;
use chip8::memory::Memory;

#[test]
fn load_at_address() {
    let mut mem = Memory::default();
    let f = font();
    mem.load_at_address(0x50, &f);
    assert_eq!(0xF0, mem.get_u8(0x50).unwrap());
    assert_eq!(0x90, mem.get_u8(0x51).unwrap());
    assert_eq!(0x90, mem.get_u8(0x52).unwrap());
    assert_eq!(0x90, mem.get_u8(0x53).unwrap());
    assert_eq!(0xF0, mem.get_u8(0x54).unwrap());
}

#[test]
fn get_instruction() {
    let mut mem = Memory::default();

    let data: [u8; 4] = [0x41, 0x42, 0x43, 0x44];
    mem.load_at_address(0x200, &data);
    assert_eq!([0x41, 0x42], mem.get_instruction(0x200).unwrap())
}

#[test]
fn modify_instruction() {
    let mut mem = Memory::default();

    let data: [u8; 4] = [0x41, 0x42, 0x43, 0x44];
    mem.load_at_address(0x200, &data);
    mem.set_u8(0x200, 0x50).unwrap();

    assert_eq!(0x50, mem.get_u8(0x200).unwrap());
}

#[test]
fn font_load_round_trip() {
    let mut mem = Memory::default();
    let f = font();
    mem.load_at_address(0x50, &f);
    assert_eq!(0xF0, mem.get_u8(0x50).unwrap());
    assert_eq!(0, mem.get_u8(0x4F).unwrap());
    assert_eq!(0, mem.get_u8(0xA0).unwrap());
}

#[test]
fn read_out_of_bounds_is_reported() {
    let mem = Memory::default();
    assert_eq!(
        Err(Chip8Error::OutOfBounds { address: 4096 }),
        mem.get_u8(4096)
    );
    assert_eq!([0, 0], mem.get_instruction(4094).unwrap());
    assert_eq!(
        Chip8Error::OutOfBounds { address: 4096 },
        mem.get_instruction(4095).unwrap_err()
    );
    assert_eq!(
        Chip8Error::OutOfBounds { address: 5000 },
        mem.get_instruction(5000).unwrap_err()
    );
}

#[test]
fn write_out_of_bounds_is_reported() {
    let mut mem = Memory::default();
    assert_eq!(
        Err(Chip8Error::OutOfBounds { address: 4100 }),
        mem.set_u8(4100, 0x42)
    );
}

#[test]
fn load_truncates_at_end_of_memory() {
    let mut mem = Memory::default();
    let data: [u8; 4] = [1, 2, 3, 4];
    mem.load_at_address(4094, &data);
    assert_eq!(1, mem.get_u8(4094).unwrap());
    assert_eq!(2, mem.get_u8(4095).unwrap());
}
