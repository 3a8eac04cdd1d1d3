//! Core instruction-set types: the decoded operation, the decoder, and the
//! errors a running machine can report.

use vstd::prelude::*;

verus! {

/// Number of bytes in the machine's addressable memory.
pub const MEMORY_SIZE: usize = 4096;

/// Number of general-purpose registers.
pub const REGISTER_SIZE: usize = 16;

/// Capacity of the call stack, in return addresses.
pub const STACK_SIZE: usize = 255;

/// Rows in the display.
pub const DISPLAY_HEIGHT: usize = 32;

/// Columns in the display.
pub const DISPLAY_WIDTH: usize = 64;

/// Index of a general-purpose register, `0..16`.
pub type RegisterIndex = usize;

/// A 4-bit quantity, `0..16`.
pub type Nibble = u8;

/// An 8-bit immediate operand.
pub type Byte = u8;

/// A 12-bit memory address, `0..4096`.
pub type MemoryAddress = u16;

/// Extracts the bits of `i` selected by `mask`.
pub fn decode(i: u16, mask: u16) -> (r: u16)
    ensures
        r == i & mask,
{
    i & mask
}

/// Extracts the low 12 bits of an instruction word: its address operand.
pub fn decode_memory_address(value: u16) -> (r: MemoryAddress)
    ensures
        r == value & 0x0FFF,
{
    decode(value, 0x0FFF)
}

/// Extracts the low 4 bits of an instruction word: its nibble operand.
pub fn decode_nibble(value: u16) -> (r: Nibble)
    ensures
        r == (value & 0x000F) as u8,
{
    decode(value, 0x000F) as u8
}

/// One decoded CHIP-8 instruction, carrying only the operand fields of its
/// form. Register indices are 4 bits, immediates 8 bits, addresses 12 bits.
#[allow(non_camel_case_types)]
#[derive(Clone, Copy, Debug, PartialEq, Eq, Structural)]
pub enum Ops {
    /// `00E0`: clear the display.
    CLS,
    /// `00EE`: return from a subroutine.
    RET,
    /// `1nnn`: jump to `nnn`.
    JP(MemoryAddress),
    /// `2nnn`: call the subroutine at `nnn`.
    CALL(MemoryAddress),
    /// `Dxyn`: draw the `n`-byte sprite at address `I` at `(Vx, Vy)`,
    /// setting `VF` on collision.
    DRW(RegisterIndex, RegisterIndex, Nibble),
    /// `6xkk`: set `Vx = kk`.
    LD_V(RegisterIndex, Byte),
    /// `7xkk`: set `Vx = Vx + kk`, wrapping, without touching `VF`.
    ADD_V(RegisterIndex, Byte),
    /// `Annn`: set `I = nnn`.
    SET_I(MemoryAddress),
    /// `3xkk`: skip the next instruction if `Vx == kk`.
    SI(RegisterIndex, Byte),
    /// `4xkk`: skip the next instruction if `Vx != kk`.
    SIN(RegisterIndex, Byte),
    /// `5xy0`: skip the next instruction if `Vx == Vy`.
    SVI(RegisterIndex, RegisterIndex),
    /// `8xy0`: set `Vx = Vy`.
    SIV(RegisterIndex, RegisterIndex),
    /// `8xy1`: set `Vx = Vx | Vy`.
    ORV(RegisterIndex, RegisterIndex),
    /// `8xy2`: set `Vx = Vx & Vy`.
    ANDV(RegisterIndex, RegisterIndex),
    /// `8xy3`: set `Vx = Vx ^ Vy`.
    XORV(RegisterIndex, RegisterIndex),
    /// `8xy4`: set `Vx = Vx + Vy`, with `VF` as carry.
    ADDVC(RegisterIndex, RegisterIndex),
    /// `8xy5`: set `Vx = Vx - Vy`, with `VF` as not-borrow.
    SUBVC(RegisterIndex, RegisterIndex),
    /// `8xy6`: shift `Vx` right by one, with `VF` as the shifted-out bit.
    SHR(RegisterIndex, RegisterIndex),
    /// `8xy7`: set `Vx = Vy - Vx`, with `VF` as not-borrow.
    SUBN(RegisterIndex, RegisterIndex),
    /// `8xyE`: shift `Vx` left by one, with `VF` as the shifted-out bit.
    SHL(RegisterIndex, RegisterIndex),
    /// `9xy0`: skip the next instruction if `Vx != Vy`.
    SNE(RegisterIndex, RegisterIndex),
    /// `Bnnn`: jump to `nnn + V0`.
    JPV(MemoryAddress),
    /// `Cxkk`: set `Vx` to a random byte masked with `kk`.
    RND(RegisterIndex, Byte),
    /// `Ex9E`: skip the next instruction if the key in `Vx` is pressed.
    SKP(RegisterIndex),
    /// `ExA1`: skip the next instruction if the key in `Vx` is not pressed.
    SKNP(RegisterIndex),
    /// `Fx07`: set `Vx` to the delay timer.
    LDDT(RegisterIndex),
    /// `Fx0A`: wait for a key press and store it in `Vx`.
    LDK(RegisterIndex),
    /// `Fx15`: set the delay timer to `Vx`.
    LDDTE(RegisterIndex),
    /// `Fx18`: set the sound timer to `Vx`.
    LDST(RegisterIndex),
    /// `Fx1E`: set `I = I + Vx`.
    ADDI(RegisterIndex),
    /// `Fx29`: point `I` at the font sprite for the digit in `Vx`.
    LDF(RegisterIndex),
    /// `Fx33`: store the decimal digits of `Vx` at `I`, `I+1`, `I+2`.
    LDB(RegisterIndex),
    /// `Fx55`: store `V0..=Vx` to memory starting at `I`.
    LDI(RegisterIndex),
    /// `Fx65`: load `V0..=Vx` from memory starting at `I`.
    LDVI(RegisterIndex),
    /// A word matching no known instruction form, kept verbatim. Decoding
    /// never fails; executing such a word does.
    Data(u16),
}

/// Errors that halt the machine. Each carries enough context to identify
/// the failing access or instruction.
#[derive(Clone, Copy, Debug, PartialEq, Eq, Structural)]
pub enum Chip8Error {
    /// A memory access at `address >= 4096`.
    OutOfBounds { address: usize },
    /// A `CALL` executed while the call stack was full.
    StackOverflow { pc: usize },
    /// A `RET` executed while the call stack was empty.
    StackUnderflow { pc: usize },
    /// A decoded instruction the execution engine does not implement.
    UnimplementedOpcode { pc: usize, op: Ops },
    /// A word matching no known instruction form.
    UnknownOpcode { pc: usize, word: u16 },
}

/// The meaning of a raw instruction word: the whole-word literals `00E0` and
/// `00EE` first, then dispatch on the top nibble, with the `8`, `E` and `F`
/// families refined by their low bits. Words matching no form map to
/// `Ops::Data`.
pub open spec fn spec_decode(word: u16) -> Ops {
    if word == 0x00E0 {
        Ops::CLS
    } else if word == 0x00EE {
        Ops::RET
    } else {
        let family = (word & 0xF000) >> 12;
        let nnn = word & 0x0FFF;
        let x = ((word & 0x0F00) >> 8) as RegisterIndex;
        let y = ((word & 0x00F0) >> 4) as RegisterIndex;
        let kk = (word & 0x00FF) as Byte;
        let n = (word & 0x000F) as Nibble;
        if family == 0x1 {
            Ops::JP(nnn)
        } else if family == 0x2 {
            Ops::CALL(nnn)
        } else if family == 0x3 {
            Ops::SI(x, kk)
        } else if family == 0x4 {
            Ops::SIN(x, kk)
        } else if family == 0x5 {
            Ops::SVI(x, y)
        } else if family == 0x6 {
            Ops::LD_V(x, kk)
        } else if family == 0x7 {
            Ops::ADD_V(x, kk)
        } else if family == 0x8 {
            if n == 0x0 {
                Ops::SIV(x, y)
            } else if n == 0x1 {
                Ops::ORV(x, y)
            } else if n == 0x2 {
                Ops::ANDV(x, y)
            } else if n == 0x3 {
                Ops::XORV(x, y)
            } else if n == 0x4 {
                Ops::ADDVC(x, y)
            } else if n == 0x5 {
                Ops::SUBVC(x, y)
            } else if n == 0x6 {
                Ops::SHR(x, y)
            } else if n == 0x7 {
                Ops::SUBN(x, y)
            } else if n == 0xE {
                Ops::SHL(x, y)
            } else {
                Ops::Data(word)
            }
        } else if family == 0x9 {
            Ops::SNE(x, y)
        } else if family == 0xA {
            Ops::SET_I(nnn)
        } else if family == 0xB {
            Ops::JPV(nnn)
        } else if family == 0xC {
            Ops::RND(x, kk)
        } else if family == 0xD {
            Ops::DRW(x, y, n)
        } else if family == 0xE {
            if kk == 0x9E {
                Ops::SKP(x)
            } else if kk == 0xA1 {
                Ops::SKNP(x)
            } else {
                Ops::Data(word)
            }
        } else if family == 0xF {
            if kk == 0x07 {
                Ops::LDDT(x)
            } else if kk == 0x0A {
                Ops::LDK(x)
            } else if kk == 0x15 {
                Ops::LDDTE(x)
            } else if kk == 0x18 {
                Ops::LDST(x)
            } else if kk == 0x1E {
                Ops::ADDI(x)
            } else if kk == 0x29 {
                Ops::LDF(x)
            } else if kk == 0x33 {
                Ops::LDB(x)
            } else if kk == 0x55 {
                Ops::LDI(x)
            } else if kk == 0x65 {
                Ops::LDVI(x)
            } else {
                Ops::Data(word)
            }
        } else {
            Ops::Data(word)
        }
    }
}

/// The big-endian instruction word held by two consecutive memory bytes.
pub open spec fn spec_word(hi: u8, lo: u8) -> u16 {
    ((hi as u16) << 8) | (lo as u16)
}

/// Every operand a decoded operation carries is within its field's range:
/// register indices below 16, addresses below 4096, nibbles below 16.
pub open spec fn ops_wf(op: Ops) -> bool {
    match op {
        Ops::CLS => true,
        Ops::RET => true,
        Ops::JP(a) => a <= 0xFFF,
        Ops::CALL(a) => a <= 0xFFF,
        Ops::SET_I(a) => a <= 0xFFF,
        Ops::JPV(a) => a <= 0xFFF,
        Ops::DRW(x, y, n) => x < 16 && y < 16 && n <= 0xF,
        Ops::LD_V(x, _) => x < 16,
        Ops::ADD_V(x, _) => x < 16,
        Ops::SI(x, _) => x < 16,
        Ops::SIN(x, _) => x < 16,
        Ops::RND(x, _) => x < 16,
        Ops::SVI(x, y) => x < 16 && y < 16,
        Ops::SIV(x, y) => x < 16 && y < 16,
        Ops::ORV(x, y) => x < 16 && y < 16,
        Ops::ANDV(x, y) => x < 16 && y < 16,
        Ops::XORV(x, y) => x < 16 && y < 16,
        Ops::ADDVC(x, y) => x < 16 && y < 16,
        Ops::SUBVC(x, y) => x < 16 && y < 16,
        Ops::SHR(x, y) => x < 16 && y < 16,
        Ops::SUBN(x, y) => x < 16 && y < 16,
        Ops::SHL(x, y) => x < 16 && y < 16,
        Ops::SNE(x, y) => x < 16 && y < 16,
        Ops::SKP(x) => x < 16,
        Ops::SKNP(x) => x < 16,
        Ops::LDDT(x) => x < 16,
        Ops::LDK(x) => x < 16,
        Ops::LDDTE(x) => x < 16,
        Ops::LDST(x) => x < 16,
        Ops::ADDI(x) => x < 16,
        Ops::LDF(x) => x < 16,
        Ops::LDB(x) => x < 16,
        Ops::LDI(x) => x < 16,
        Ops::LDVI(x) => x < 16,
        Ops::Data(_) => true,
    }
}

/// Decoding always yields an operation whose operands are in range.
pub proof fn lemma_decode_wf(word: u16)
    ensures
        ops_wf(spec_decode(word)),
{
    assert(((word & 0x0F00) >> 8) < 16) by (bit_vector);
    assert(((word & 0x00F0) >> 4) < 16) by (bit_vector);
    assert((word & 0x0FFF) <= 0xFFF) by (bit_vector);
    assert((word & 0x000F) <= 0xF) by (bit_vector);
}

/// Every word with top nibble `1` decodes to a jump at the word's low 12
/// bits, and to nothing else.
pub proof fn lemma_decode_jp(word: u16)
    requires
        word & 0xF000 == 0x1000,
    ensures
        spec_decode(word) == Ops::JP(word & 0x0FFF),
{
    assert(word != 0x00E0 && word != 0x00EE && (word & 0xF000) >> 12 == 0x1)
        by (bit_vector)
        requires
            word & 0xF000 == 0x1000,
    ;
}

/// Every word with top nibble `2` decodes to a call of the word's low 12
/// bits, and to nothing else.
pub proof fn lemma_decode_call(word: u16)
    requires
        word & 0xF000 == 0x2000,
    ensures
        spec_decode(word) == Ops::CALL(word & 0x0FFF),
{
    assert(word != 0x00E0 && word != 0x00EE && (word & 0xF000) >> 12 == 0x2)
        by (bit_vector)
        requires
            word & 0xF000 == 0x2000,
    ;
}

impl From<[u8; 2]> for Ops {
    /// Decodes a big-endian pair of instruction bytes. Decoding is total:
    /// unrecognized words come back as `Ops::Data`.
    fn from(v: [u8; 2]) -> (r: Self)
        ensures
            r == spec_decode(spec_word(v[0], v[1])),
    {
        let value: u16 = ((v[0] as u16) << 8) | (v[1] as u16);
        if value == 0x00E0 {
            Ops::CLS
        } else if value == 0x00EE {
            Ops::RET
        } else {
            let instr = decode(value, 0xF000) >> 12;
            let nnn = decode_memory_address(value);
            let x = (decode(value, 0x0F00) >> 8) as RegisterIndex;
            let y = (decode(value, 0x00F0) >> 4) as RegisterIndex;
            let kk = decode(value, 0x00FF) as Byte;
            let n = decode_nibble(value);
            match instr {
                0x1 => Ops::JP(nnn),
                0x2 => Ops::CALL(nnn),
                0x3 => Ops::SI(x, kk),
                0x4 => Ops::SIN(x, kk),
                0x5 => Ops::SVI(x, y),
                0x6 => Ops::LD_V(x, kk),
                0x7 => Ops::ADD_V(x, kk),
                0x8 => match n {
                    0x0 => Ops::SIV(x, y),
                    0x1 => Ops::ORV(x, y),
                    0x2 => Ops::ANDV(x, y),
                    0x3 => Ops::XORV(x, y),
                    0x4 => Ops::ADDVC(x, y),
                    0x5 => Ops::SUBVC(x, y),
                    0x6 => Ops::SHR(x, y),
                    0x7 => Ops::SUBN(x, y),
                    0xE => Ops::SHL(x, y),
                    _ => Ops::Data(value),
                },
                0x9 => Ops::SNE(x, y),
                0xA => Ops::SET_I(nnn),
                0xB => Ops::JPV(nnn),
                0xC => Ops::RND(x, kk),
                0xD => Ops::DRW(x, y, n),
                0xE => match kk {
                    0x9E => Ops::SKP(x),
                    0xA1 => Ops::SKNP(x),
                    _ => Ops::Data(value),
                },
                0xF => match kk {
                    0x07 => Ops::LDDT(x),
                    0x0A => Ops::LDK(x),
                    0x15 => Ops::LDDTE(x),
                    0x18 => Ops::LDST(x),
                    0x1E => Ops::ADDI(x),
                    0x29 => Ops::LDF(x),
                    0x33 => Ops::LDB(x),
                    0x55 => Ops::LDI(x),
                    0x65 => Ops::LDVI(x),
                    _ => Ops::Data(value),
                },
                _ => Ops::Data(value),
            }
        }
    }
}

impl vstd::std_specs::convert::FromSpecImpl<[u8; 2]> for Ops {
    open spec fn obeys_from_spec() -> bool {
        true
    }

    open spec fn from_spec(v: [u8; 2]) -> Ops {
        spec_decode(spec_word(v[0], v[1]))
    }
}

} // verus!

