//! The disassembler: a pure function from an opcode to a mnemonic line.
//!
//! It is built on the decoder of [`crate::decoder`], so an opcode is always
//! disassembled as the instruction the execution engine would run, and its
//! exact output is pinned down by [`spec_disassemble`].

use vstd::prelude::*;
use vstd::string::StringExecFns;

use crate::decoder::Instruction;
use crate::decoder::spec_decode;
use crate::decoder::decode;

verus! {

/// The character for one digit value below 16, upper case.
pub open spec fn spec_digit_char(d: int) -> char {
    if d == 0 {
        '0'
    } else if d == 1 {
        '1'
    } else if d == 2 {
        '2'
    } else if d == 3 {
        '3'
    } else if d == 4 {
        '4'
    } else if d == 5 {
        '5'
    } else if d == 6 {
        '6'
    } else if d == 7 {
        '7'
    } else if d == 8 {
        '8'
    } else if d == 9 {
        '9'
    } else if d == 10 {
        'A'
    } else if d == 11 {
        'B'
    } else if d == 12 {
        'C'
    } else if d == 13 {
        'D'
    } else if d == 14 {
        'E'
    } else {
        'F'
    }
}

/// The decimal digits of a non-negative number, most significant first.
pub open spec fn spec_dec(n: int) -> Seq<char>
    decreases n,
{
    if n < 10 {
        seq![spec_digit_char(n)]
    } else {
        spec_dec(n / 10) + seq![spec_digit_char(n % 10)]
    }
}

/// The upper-case hexadecimal digits of a non-negative number, most
/// significant first, without a leading `0x`.
pub open spec fn spec_hex(n: int) -> Seq<char>
    decreases n,
{
    if n < 16 {
        seq![spec_digit_char(n)]
    } else {
        spec_hex(n / 16) + seq![spec_digit_char(n % 16)]
    }
}

/// A register name: `V` followed by the register index in decimal.
pub open spec fn spec_reg(x: u8) -> Seq<char> {
    "V"@ + spec_dec(x as int)
}

/// One digit value below 16 as a one-character string slice.
fn digit_str(d: u16) -> (r: &'static str)
    requires
        d < 16,
    ensures
        r@ == seq![spec_digit_char(d as int)],
{
    let r: &'static str = match d {
        0 => "0",
        1 => "1",
        2 => "2",
        3 => "3",
        4 => "4",
        5 => "5",
        6 => "6",
        7 => "7",
        8 => "8",
        9 => "9",
        10 => "A",
        11 => "B",
        12 => "C",
        13 => "D",
        14 => "E",
        _ => "F",
    };
    proof {
        reveal_strlit("0");
        reveal_strlit("1");
        reveal_strlit("2");
        reveal_strlit("3");
        reveal_strlit("4");
        reveal_strlit("5");
        reveal_strlit("6");
        reveal_strlit("7");
        reveal_strlit("8");
        reveal_strlit("9");
        reveal_strlit("A");
        reveal_strlit("B");
        reveal_strlit("C");
        reveal_strlit("D");
        reveal_strlit("E");
        reveal_strlit("F");
        assert(r@ =~= seq![spec_digit_char(d as int)]);
    }
    r
}

/// A number rendered in decimal, as `spec_dec` states it.
pub fn dec_string(n: u16) -> (r: String)
    ensures
        r@ == spec_dec(n as int),
    decreases n,
{
    if n < 10 {
        String::from_str(digit_str(n))
    } else {
        let mut r = dec_string(n / 10);
        r.append(digit_str(n % 10));
        r
    }
}

/// A number rendered in upper-case hexadecimal, as `spec_hex` states it.
pub fn hex_string(n: u16) -> (r: String)
    ensures
        r@ == spec_hex(n as int),
    decreases n,
{
    if n < 16 {
        String::from_str(digit_str(n))
    } else {
        let mut r = hex_string(n / 16);
        r.append(digit_str(n % 16));
        r
    }
}

/// A register name, as `spec_reg` states it.
fn reg_string(x: u8) -> (r: String)
    ensures
        r@ == spec_reg(x),
{
    let mut r = String::from_str("V");
    r.append(dec_string(x as u16).as_str());
    r
}

/// The mnemonic line for an opcode: the mnemonic of the instruction it
/// decodes to, then its operands, separated by single spaces. Addresses are
/// written in hexadecimal with a `0x` prefix, register indices and byte
/// operands in decimal. An opcode that decodes to no instruction is written
/// as `???` followed by the opcode itself in hexadecimal.
pub open spec fn spec_disassemble(op: u16) -> Seq<char> {
    match spec_decode(op) {
        Instruction::Cls => "CLS"@,
        Instruction::Ret => "RET"@,
        Instruction::Jp { nnn } => "JP 0x"@ + spec_hex(nnn as int),
        Instruction::Call { nnn } => "CALL 0x"@ + spec_hex(nnn as int),
        Instruction::SeImm { x, kk } => "SE "@ + spec_reg(x) + " "@ + spec_dec(kk as int),
        Instruction::SneImm { x, kk } => "SNE "@ + spec_reg(x) + " "@ + spec_dec(kk as int),
        Instruction::SeReg { x, y } => "SE "@ + spec_reg(x) + " "@ + spec_reg(y),
        Instruction::LdImm { x, kk } => "LD "@ + spec_reg(x) + " "@ + spec_dec(kk as int),
        Instruction::AddImm { x, kk } => "ADD "@ + spec_reg(x) + " "@ + spec_dec(kk as int),
        Instruction::LdReg { x, y } => "LD "@ + spec_reg(x) + " "@ + spec_reg(y),
        Instruction::OrReg { x, y } => "OR "@ + spec_reg(x) + " "@ + spec_reg(y),
        Instruction::AndReg { x, y } => "AND "@ + spec_reg(x) + " "@ + spec_reg(y),
        Instruction::XorReg { x, y } => "XOR "@ + spec_reg(x) + " "@ + spec_reg(y),
        Instruction::AddReg { x, y } => "ADD "@ + spec_reg(x) + " "@ + spec_reg(y),
        Instruction::SubReg { x, y } => "SUB "@ + spec_reg(x) + " "@ + spec_reg(y),
        Instruction::Shr { x } => "SHR "@ + spec_reg(x),
        Instruction::SubnReg { x, y } => "SUBN "@ + spec_reg(x) + " "@ + spec_reg(y),
        Instruction::Shl { x } => "SHL "@ + spec_reg(x),
        Instruction::SneReg { x, y } => "SNE "@ + spec_reg(x) + " "@ + spec_reg(y),
        Instruction::LdI { nnn } => "LD I 0x"@ + spec_hex(nnn as int),
        Instruction::JpV0 { nnn } => "JP V0 0x"@ + spec_hex(nnn as int),
        Instruction::Rnd { x, kk } => "RND "@ + spec_reg(x) + " "@ + spec_dec(kk as int),
        Instruction::Drw { x, y, n } => "DRW "@ + spec_reg(x) + " "@ + spec_reg(y) + " "@
            + spec_dec(n as int),
        Instruction::Skp { x } => "SKP "@ + spec_reg(x),
        Instruction::Sknp { x } => "SKNP "@ + spec_reg(x),
        Instruction::LdFromDt { x } => "LD "@ + spec_reg(x) + " DT"@,
        Instruction::WaitKey { x } => "LD "@ + spec_reg(x) + " K"@,
        Instruction::SetDt { x } => "LD DT "@ + spec_reg(x),
        Instruction::SetSt { x } => "LD ST "@ + spec_reg(x),
        Instruction::AddI { x } => "ADD I "@ + spec_reg(x),
        Instruction::LdFont { x } => "LD F "@ + spec_reg(x),
        Instruction::Bcd { x } => "LD B "@ + spec_reg(x),
        Instruction::StoreRegs { x } => "LD [I] "@ + spec_reg(x),
        Instruction::LoadRegs { x } => "LD "@ + spec_reg(x) + " [I]"@,
        Instruction::Unknown { op } => "??? 0x"@ + spec_hex(op as int),
    }
}

/// The fragment `<head>Vx`: the shared prefix of most mnemonic lines.
fn head_reg(head: &str, x: u8) -> (r: String)
    ensures
        r@ == head@ + spec_reg(x),
{
    let mut s = String::from_str(head);
    s.append(reg_string(x).as_str());
    s
}

/// Disassemble one opcode into its mnemonic line, exactly as
/// `spec_disassemble` states it.
pub fn disassemble(op: u16) -> (r: String)
    ensures
        r@ == spec_disassemble(op),
{
    match decode(op) {
        Instruction::Cls => String::from_str("CLS"),
        Instruction::Ret => String::from_str("RET"),
        Instruction::Jp { nnn } => {
            let mut s = String::from_str("JP 0x");
            s.append(hex_string(nnn).as_str());
            s
        },
        Instruction::Call { nnn } => {
            let mut s = String::from_str("CALL 0x");
            s.append(hex_string(nnn).as_str());
            s
        },
        Instruction::SeImm { x, kk } => reg_imm("SE ", x, kk),
        Instruction::SneImm { x, kk } => reg_imm("SNE ", x, kk),
        Instruction::SeReg { x, y } => reg_reg("SE ", x, y),
        Instruction::LdImm { x, kk } => reg_imm("LD ", x, kk),
        Instruction::AddImm { x, kk } => reg_imm("ADD ", x, kk),
        Instruction::LdReg { x, y } => reg_reg("LD ", x, y),
        Instruction::OrReg { x, y } => reg_reg("OR ", x, y),
        Instruction::AndReg { x, y } => reg_reg("AND ", x, y),
        Instruction::XorReg { x, y } => reg_reg("XOR ", x, y),
        Instruction::AddReg { x, y } => reg_reg("ADD ", x, y),
        Instruction::SubReg { x, y } => reg_reg("SUB ", x, y),
        Instruction::Shr { x } => head_reg("SHR ", x),
        Instruction::SubnReg { x, y } => reg_reg("SUBN ", x, y),
        Instruction::Shl { x } => head_reg("SHL ", x),
        Instruction::SneReg { x, y } => reg_reg("SNE ", x, y),
        Instruction::LdI { nnn } => {
            let mut s = String::from_str("LD I 0x");
            s.append(hex_string(nnn).as_str());
            s
        },
        Instruction::JpV0 { nnn } => {
            let mut s = String::from_str("JP V0 0x");
            s.append(hex_string(nnn).as_str());
            s
        },
        Instruction::Rnd { x, kk } => reg_imm("RND ", x, kk),
        Instruction::Drw { x, y, n } => {
            let mut s = reg_reg("DRW ", x, y);
            s.append(" ");
            s.append(dec_string(n as u16).as_str());
            s
        },
        Instruction::Skp { x } => head_reg("SKP ", x),
        Instruction::Sknp { x } => head_reg("SKNP ", x),
        Instruction::LdFromDt { x } => {
            let mut s = head_reg("LD ", x);
            s.append(" DT");
            s
        },
        Instruction::WaitKey { x } => {
            let mut s = head_reg("LD ", x);
            s.append(" K");
            s
        },
        Instruction::SetDt { x } => head_reg("LD DT ", x),
        Instruction::SetSt { x } => head_reg("LD ST ", x),
        Instruction::AddI { x } => head_reg("ADD I ", x),
        Instruction::LdFont { x } => head_reg("LD F ", x),
        Instruction::Bcd { x } => head_reg("LD B ", x),
        Instruction::StoreRegs { x } => head_reg("LD [I] ", x),
        Instruction::LoadRegs { x } => {
            let mut s = head_reg("LD ", x);
            s.append(" [I]");
            s
        },
        Instruction::Unknown { op } => {
            let mut s = String::from_str("??? 0x");
            s.append(hex_string(op).as_str());
            s
        },
    }
}

/// The line `<head>Vx <kk>`, shared by the instructions whose operands are a
/// register and an immediate byte.
fn reg_imm(head: &str, x: u8, kk: u8) -> (r: String)
    ensures
        r@ == head@ + spec_reg(x) + " "@ + spec_dec(kk as int),
{
    let mut s = head_reg(head, x);
    s.append(" ");
    s.append(dec_string(kk as u16).as_str());
    s
}

/// The line `<head>Vx Vy`, shared by the instructions whose operands are two
/// registers.
fn reg_reg(head: &str, x: u8, y: u8) -> (r: String)
    ensures
        r@ == head@ + spec_reg(x) + " "@ + spec_reg(y),
{
    let mut s = head_reg(head, x);
    s.append(" ");
    s.append(reg_string(y).as_str());
    s
}

} // verus!
