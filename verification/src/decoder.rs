//! The instruction decoder: a pure classification of a 16-bit opcode into the
//! instruction it encodes, with its operand fields extracted.
//!
//! Both the execution engine and the disassembler consume this one decoder,
//! so their notions of what an opcode means cannot drift apart.

use vstd::prelude::*;

verus! {

/// One decoded CHIP-8 instruction.
///
/// Operand fields follow the conventional opcode nibble names: `x` and `y`
/// are register indices (always below 16), `kk` an immediate byte, `nnn` a
/// 12-bit address (always below 0x1000), and `n` a 4-bit sprite height.
/// Encodings that match no instruction, including reserved encodings inside
/// the 0x0, 0x5, 0x8, 0x9, 0xE and 0xF families, decode to `Unknown`.
#[derive(Clone, Copy, Debug, PartialEq, Eq, Structural)]
pub enum Instruction {
    /// `00E0`: clear the framebuffer.
    Cls,
    /// `00EE`: return from a subroutine.
    Ret,
    /// `1nnn`: jump to `nnn`.
    Jp { nnn: u16 },
    /// `2nnn`: call the subroutine at `nnn`.
    Call { nnn: u16 },
    /// `3xkk`: skip the next instruction if `Vx == kk`.
    SeImm { x: u8, kk: u8 },
    /// `4xkk`: skip the next instruction if `Vx != kk`.
    SneImm { x: u8, kk: u8 },
    /// `5xy0`: skip the next instruction if `Vx == Vy`.
    SeReg { x: u8, y: u8 },
    /// `6xkk`: load `kk` into `Vx`.
    LdImm { x: u8, kk: u8 },
    /// `7xkk`: add `kk` to `Vx`, wrapping, without touching `VF`.
    AddImm { x: u8, kk: u8 },
    /// `8xy0`: copy `Vy` into `Vx`.
    LdReg { x: u8, y: u8 },
    /// `8xy1`: bitwise or of `Vy` into `Vx`.
    OrReg { x: u8, y: u8 },
    /// `8xy2`: bitwise and of `Vy` into `Vx`.
    AndReg { x: u8, y: u8 },
    /// `8xy3`: bitwise exclusive or of `Vy` into `Vx`.
    XorReg { x: u8, y: u8 },
    /// `8xy4`: add `Vy` to `Vx`, wrapping; `VF` becomes the carry bit.
    AddReg { x: u8, y: u8 },
    /// `8xy5`: subtract `Vy` from `Vx`, wrapping; `VF` = 1 exactly when no borrow.
    SubReg { x: u8, y: u8 },
    /// `8xy6`: shift `Vx` right by one; `VF` takes its old lowest bit.
    Shr { x: u8 },
    /// `8xy7`: store `Vy - Vx` into `Vx`, wrapping; `VF` = 1 exactly when no borrow.
    SubnReg { x: u8, y: u8 },
    /// `8xyE`: shift `Vx` left by one, wrapping; `VF` takes its old highest bit.
    Shl { x: u8 },
    /// `9xy0`: skip the next instruction if `Vx != Vy`.
    SneReg { x: u8, y: u8 },
    /// `Annn`: load `nnn` into the index register.
    LdI { nnn: u16 },
    /// `Bnnn`: jump to `nnn + V0`.
    JpV0 { nnn: u16 },
    /// `Cxkk`: load a random byte masked by `kk` into `Vx`.
    Rnd { x: u8, kk: u8 },
    /// `Dxyn`: draw the `n`-row sprite at the index register to `(Vx, Vy)`.
    Drw { x: u8, y: u8, n: u8 },
    /// `Ex9E`: skip the next instruction if key `Vx` is pressed.
    Skp { x: u8 },
    /// `ExA1`: skip the next instruction if key `Vx` is not pressed.
    Sknp { x: u8 },
    /// `Fx07`: load the delay timer into `Vx`.
    LdFromDt { x: u8 },
    /// `Fx0A`: wait for a key press and store the key index in `Vx`.
    WaitKey { x: u8 },
    /// `Fx15`: load `Vx` into the delay timer.
    SetDt { x: u8 },
    /// `Fx18`: load `Vx` into the sound timer.
    SetSt { x: u8 },
    /// `Fx1E`: add `Vx` to the index register, wrapping at 16 bits.
    AddI { x: u8 },
    /// `Fx29`: point the index register at the font glyph for digit `Vx`.
    LdFont { x: u8 },
    /// `Fx33`: store the three decimal digits of `Vx` at the index register.
    Bcd { x: u8 },
    /// `Fx55`: copy `V0..=Vx` into memory at the index register.
    StoreRegs { x: u8 },
    /// `Fx65`: load `V0..=Vx` from memory at the index register.
    LoadRegs { x: u8 },
    /// Any encoding that matches no instruction.
    Unknown { op: u16 },
}

/// The address field of an opcode: its low 12 bits.
pub open spec fn op_nnn(op: u16) -> u16 {
    ((op as int) % 0x1000) as u16
}

/// The first register index of an opcode: its second-highest nibble.
pub open spec fn op_x(op: u16) -> u8 {
    (((op as int) / 0x100) % 0x10) as u8
}

/// The second register index of an opcode: its second-lowest nibble.
pub open spec fn op_y(op: u16) -> u8 {
    (((op as int) / 0x10) % 0x10) as u8
}

/// The immediate byte of an opcode: its low 8 bits.
pub open spec fn op_kk(op: u16) -> u8 {
    ((op as int) % 0x100) as u8
}

/// The low nibble of an opcode.
pub open spec fn op_n(op: u16) -> u8 {
    ((op as int) % 0x10) as u8
}

/// What a 16-bit opcode means: the decoder's contract, stated as a function.
pub open spec fn spec_decode(op: u16) -> Instruction {
    let family = (op as int) / 0x1000;
    let nnn = op_nnn(op);
    let x = op_x(op);
    let y = op_y(op);
    let kk = op_kk(op);
    let n = op_n(op);
    if op == 0x00E0 {
        Instruction::Cls
    } else if op == 0x00EE {
        Instruction::Ret
    } else if family == 0x1 {
        Instruction::Jp { nnn }
    } else if family == 0x2 {
        Instruction::Call { nnn }
    } else if family == 0x3 {
        Instruction::SeImm { x, kk }
    } else if family == 0x4 {
        Instruction::SneImm { x, kk }
    } else if family == 0x5 && n == 0 {
        Instruction::SeReg { x, y }
    } else if family == 0x6 {
        Instruction::LdImm { x, kk }
    } else if family == 0x7 {
        Instruction::AddImm { x, kk }
    } else if family == 0x8 && n == 0x0 {
        Instruction::LdReg { x, y }
    } else if family == 0x8 && n == 0x1 {
        Instruction::OrReg { x, y }
    } else if family == 0x8 && n == 0x2 {
        Instruction::AndReg { x, y }
    } else if family == 0x8 && n == 0x3 {
        Instruction::XorReg { x, y }
    } else if family == 0x8 && n == 0x4 {
        Instruction::AddReg { x, y }
    } else if family == 0x8 && n == 0x5 {
        Instruction::SubReg { x, y }
    } else if family == 0x8 && n == 0x6 {
        Instruction::Shr { x }
    } else if family == 0x8 && n == 0x7 {
        Instruction::SubnReg { x, y }
    } else if family == 0x8 && n == 0xE {
        Instruction::Shl { x }
    } else if family == 0x9 && n == 0 {
        Instruction::SneReg { x, y }
    } else if family == 0xA {
        Instruction::LdI { nnn }
    } else if family == 0xB {
        Instruction::JpV0 { nnn }
    } else if family == 0xC {
        Instruction::Rnd { x, kk }
    } else if family == 0xD {
        Instruction::Drw { x, y, n }
    } else if family == 0xE && kk == 0x9E {
        Instruction::Skp { x }
    } else if family == 0xE && kk == 0xA1 {
        Instruction::Sknp { x }
    } else if family == 0xF && kk == 0x07 {
        Instruction::LdFromDt { x }
    } else if family == 0xF && kk == 0x0A {
        Instruction::WaitKey { x }
    } else if family == 0xF && kk == 0x15 {
        Instruction::SetDt { x }
    } else if family == 0xF && kk == 0x18 {
        Instruction::SetSt { x }
    } else if family == 0xF && kk == 0x1E {
        Instruction::AddI { x }
    } else if family == 0xF && kk == 0x29 {
        Instruction::LdFont { x }
    } else if family == 0xF && kk == 0x33 {
        Instruction::Bcd { x }
    } else if family == 0xF && kk == 0x55 {
        Instruction::StoreRegs { x }
    } else if family == 0xF && kk == 0x65 {
        Instruction::LoadRegs { x }
    } else {
        Instruction::Unknown { op }
    }
}

/// The operand ranges decoding guarantees: register indices below 16,
/// sprite heights below 16, and addresses below 0x1000.
pub open spec fn instr_fields_wf(instr: Instruction) -> bool {
    match instr {
        Instruction::Cls => true,
        Instruction::Ret => true,
        Instruction::Jp { nnn } => nnn < 0x1000,
        Instruction::Call { nnn } => nnn < 0x1000,
        Instruction::SeImm { x, .. } => x < 16,
        Instruction::SneImm { x, .. } => x < 16,
        Instruction::SeReg { x, y } => x < 16 && y < 16,
        Instruction::LdImm { x, .. } => x < 16,
        Instruction::AddImm { x, .. } => x < 16,
        Instruction::LdReg { x, y } => x < 16 && y < 16,
        Instruction::OrReg { x, y } => x < 16 && y < 16,
        Instruction::AndReg { x, y } => x < 16 && y < 16,
        Instruction::XorReg { x, y } => x < 16 && y < 16,
        Instruction::AddReg { x, y } => x < 16 && y < 16,
        Instruction::SubReg { x, y } => x < 16 && y < 16,
        Instruction::Shr { x } => x < 16,
        Instruction::SubnReg { x, y } => x < 16 && y < 16,
        Instruction::Shl { x } => x < 16,
        Instruction::SneReg { x, y } => x < 16 && y < 16,
        Instruction::LdI { nnn } => nnn < 0x1000,
        Instruction::JpV0 { nnn } => nnn < 0x1000,
        Instruction::Rnd { x, .. } => x < 16,
        Instruction::Drw { x, y, n } => x < 16 && y < 16 && n < 16,
        Instruction::Skp { x } => x < 16,
        Instruction::Sknp { x } => x < 16,
        Instruction::LdFromDt { x } => x < 16,
        Instruction::WaitKey { x } => x < 16,
        Instruction::SetDt { x } => x < 16,
        Instruction::SetSt { x } => x < 16,
        Instruction::AddI { x } => x < 16,
        Instruction::LdFont { x } => x < 16,
        Instruction::Bcd { x } => x < 16,
        Instruction::StoreRegs { x } => x < 16,
        Instruction::LoadRegs { x } => x < 16,
        Instruction::Unknown { .. } => true,
    }
}

/// The register indices a decoded instruction carries are always below 16,
/// and its address field below 0x1000.
pub proof fn lemma_decode_fields(op: u16)
    ensures
        op_x(op) < 16,
        op_y(op) < 16,
        op_n(op) < 16,
        op_nnn(op) < 0x1000,
        instr_fields_wf(spec_decode(op)),
{
}

/// Decode one opcode, exactly as `spec_decode` classifies it.
pub fn decode(op: u16) -> (instr: Instruction)
    ensures
        instr == spec_decode(op),
{
    if op == 0x00E0 {
        return Instruction::Cls;
    }
    if op == 0x00EE {
        return Instruction::Ret;
    }
    let family: u16 = op / 0x1000;
    let nnn: u16 = op % 0x1000;
    let x: u8 = ((op / 0x100) % 0x10) as u8;
    let y: u8 = ((op / 0x10) % 0x10) as u8;
    let kk: u8 = (op % 0x100) as u8;
    let n: u8 = (op % 0x10) as u8;
    match family {
        0x1 => Instruction::Jp { nnn },
        0x2 => Instruction::Call { nnn },
        0x3 => Instruction::SeImm { x, kk },
        0x4 => Instruction::SneImm { x, kk },
        0x5 if n == 0 => Instruction::SeReg { x, y },
        0x6 => Instruction::LdImm { x, kk },
        0x7 => Instruction::AddImm { x, kk },
        0x8 => match n {
            0x0 => Instruction::LdReg { x, y },
            0x1 => Instruction::OrReg { x, y },
            0x2 => Instruction::AndReg { x, y },
            0x3 => Instruction::XorReg { x, y },
            0x4 => Instruction::AddReg { x, y },
            0x5 => Instruction::SubReg { x, y },
            0x6 => Instruction::Shr { x },
            0x7 => Instruction::SubnReg { x, y },
            0xE => Instruction::Shl { x },
            _ => Instruction::Unknown { op },
        },
        0x9 if n == 0 => Instruction::SneReg { x, y },
        0xA => Instruction::LdI { nnn },
        0xB => Instruction::JpV0 { nnn },
        0xC => Instruction::Rnd { x, kk },
        0xD => Instruction::Drw { x, y, n },
        0xE => match kk {
            0x9E => Instruction::Skp { x },
            0xA1 => Instruction::Sknp { x },
            _ => Instruction::Unknown { op },
        },
        0xF => match kk {
            0x07 => Instruction::LdFromDt { x },
            0x0A => Instruction::WaitKey { x },
            0x15 => Instruction::SetDt { x },
            0x18 => Instruction::SetSt { x },
            0x1E => Instruction::AddI { x },
            0x29 => Instruction::LdFont { x },
            0x33 => Instruction::Bcd { x },
            0x55 => Instruction::StoreRegs { x },
            0x65 => Instruction::LoadRegs { x },
            _ => Instruction::Unknown { op },
        },
        _ => Instruction::Unknown { op },
    }
}

} // verus!
