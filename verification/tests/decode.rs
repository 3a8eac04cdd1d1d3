//! Decoder tests: every instruction family, and the operand extraction
//! helpers.

use chip8::chip8::{decode, Ops};

#[test]
fn test_decode() {
    let data = 0x3366_u16;
    assert_eq!(0x66, decode(data, 0xFF))
}

#[test]
fn clear_screen() {
    let opcode = [0x00, 0xE0];
    let instr: Ops = opcode.into();

    assert_eq!(Ops::CLS, instr);
}

#[test]
fn jump() {
    let opcode = [0x1A, 0xAA];
    let instr: Ops = opcode.into();

    assert_eq!(Ops::JP(0xAAA_u16), instr);
}

#[test]
fn call() {
    let opcode = [0x2A, 0xAA];
    let instr: Ops = opcode.into();

    assert_eq!(Ops::CALL(0xAAA_u16), instr);
}

#[test]
fn set_register_vx() {
    let opcode = [0x60, 0xFF];
    let instr: Ops = opcode.into();

    assert_eq!(Ops::LD_V(0, 0xff), instr);
}

#[test]
fn add_value_to_register() {
    let opcode = [0x70, 0xFF];
    let instr: Ops = opcode.into();

    assert_eq!(Ops::ADD_V(0, 0xff), instr);
}

#[test]
fn set_index_register_i() {
    let opcode = [0xAB, 0xBB];
    let instr: Ops = opcode.into();

    assert_eq!(Ops::SET_I(0xBBB), instr);
}

#[test]
fn display_draw() {
    let opcode = [0xD1, 0x24];
    let instr: Ops = opcode.into();

    assert_eq!(Ops::DRW(0x1, 0x2, 0x4), instr);
}

#[test]
fn skip_next_instruction_if_vx_kk() {
    let opcode = [0x35, 0x42];
    let instr: Ops = opcode.into();
    assert_eq!(Ops::SI(0x5, 0x42), instr);
}

#[test]
fn skip_next_instruction_if_vx_not_kk() {
    let opcode = [0x45, 0x42];
    let instr: Ops = opcode.into();
    assert_eq!(Ops::SIN(0x5, 0x42), instr);
}

#[test]
fn skip_next_instruction_if_vx_vy() {
    let opcode = [0x55, 0x40];
    let instr: Ops = opcode.into();
    assert_eq!(Ops::SVI(0x5, 0x4), instr);
}

#[test]
fn store_y_in_x() {
    let opcode = [0x81, 0x20];
    let instr: Ops = opcode.into();
    assert_eq!(Ops::SIV(0x1, 0x2), instr);
}

#[test]
fn or_vx_vy() {
    let opcode = [0x81, 0x21];
    let instr: Ops = opcode.into();
    assert_eq!(Ops::ORV(0x1, 0x2), instr);
}

#[test]
fn and_vx_vy() {
    let opcode = [0x81, 0x22];
    let instr: Ops = opcode.into();
    assert_eq!(Ops::ANDV(0x1, 0x2), instr);
}

#[test]
fn xor_vx_vy() {
    let opcode = [0x81, 0x23];
    let instr: Ops = opcode.into();
    assert_eq!(Ops::XORV(0x1, 0x2), instr);
}

#[test]
fn add_vx_vy() {
    let opcode = [0x81, 0x24];
    let instr: Ops = opcode.into();
    assert_eq!(Ops::ADDVC(0x1, 0x2), instr);
}

#[test]
fn sub_vx_vy() {
    let opcode = [0x81, 0x25];
    let instr: Ops = opcode.into();
    assert_eq!(Ops::SUBVC(0x1, 0x2), instr);
}

#[test]
fn shr_vx_vy() {
    let opcode = [0x81, 0x26];
    let instr: Ops = opcode.into();
    assert_eq!(Ops::SHR(0x1, 0x2), instr);
}

#[test]
fn subn_vx_vy() {
    let opcode = [0x81, 0x27];
    let instr: Ops = opcode.into();
    assert_eq!(Ops::SUBN(0x1, 0x2), instr);
}

#[test]
fn shl_vx_vy() {
    let opcode = [0x81, 0x2E];
    let instr: Ops = opcode.into();
    assert_eq!(Ops::SHL(0x1, 0x2), instr);
}

#[test]
fn sne_vx_vy() {
    let opcode = [0x91, 0x20];
    let instr: Ops = opcode.into();
    assert_eq!(Ops::SNE(0x1, 0x2), instr);
}

#[test]
fn jpv() {
    let opcode = [0xBA, 0xAA];
    let instr: Ops = opcode.into();

    assert_eq!(Ops::JPV(0xAAA_u16), instr);
}

#[test]
fn rnd() {
    let opcode = [0xC0, 0xFF];
    let instr: Ops = opcode.into();

    assert_eq!(Ops::RND(0, 0xff), instr);
}

#[test]
fn skp() {
    let opcode = [0xE1, 0x9E];
    let instr: Ops = opcode.into();

    assert_eq!(Ops::SKP(1), instr);
}

#[test]
fn sknp() {
    let opcode = [0xE1, 0xA1];
    let instr: Ops = opcode.into();

    assert_eq!(Ops::SKNP(1), instr);
}

#[test]
fn lddt() {
    let opcode = [0xF1, 0x07];
    let instr: Ops = opcode.into();

    assert_eq!(Ops::LDDT(1), instr);
}

#[test]
fn ldk() {
    let opcode = [0xF1, 0x0A];
    let instr: Ops = opcode.into();

    assert_eq!(Ops::LDK(1), instr);
}

#[test]
fn lddte() {
    let opcode = [0xF1, 0x15];
    let instr: Ops = opcode.into();

    assert_eq!(Ops::LDDTE(1), instr);
}

#[test]
fn ldst() {
    let opcode = [0xF1, 0x18];
    let instr: Ops = opcode.into();

    assert_eq!(Ops::LDST(1), instr);
}

#[test]
fn addi() {
    let opcode = [0xF1, 0x1E];
    let instr: Ops = opcode.into();

    assert_eq!(Ops::ADDI(1), instr);
}

#[test]
fn ldf() {
    let opcode = [0xF1, 0x29];
    let instr: Ops = opcode.into();

    assert_eq!(Ops::LDF(1), instr);
}

#[test]
fn ldb() {
    let opcode = [0xF1, 0x33];
    let instr: Ops = opcode.into();

    assert_eq!(Ops::LDB(1), instr);
}

#[test]
fn ldi() {
    let opcode = [0xF1, 0x55];
    let instr: Ops = opcode.into();

    assert_eq!(Ops::LDI(1), instr);
}

#[test]
fn ldvi() {
    let opcode = [0xF1, 0x65];
    let instr: Ops = opcode.into();

    assert_eq!(Ops::LDVI(1), instr);
}

#[test]
fn unknown_words_decode_to_data() {
    let instr: Ops = [0x00u8, 0x00].into();
    assert_eq!(Ops::Data(0x0000), instr);
    let instr: Ops = [0x81u8, 0x28].into();
    assert_eq!(Ops::Data(0x8128), instr);
    let instr: Ops = [0xE1u8, 0x00].into();
    assert_eq!(Ops::Data(0xE100), instr);
    let instr: Ops = [0xF1u8, 0x66].into();
    assert_eq!(Ops::Data(0xF166), instr);
}

#[test]
fn decode_helpers_extract_fields() {
    assert_eq!(0xAAA, chip8::chip8::decode_memory_address(0x1AAA));
    assert_eq!(0x4, chip8::chip8::decode_nibble(0xD124));
}
