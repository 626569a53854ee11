use vstd::prelude::*;

use crate::cpu::{decode, lemma_opcode_fields, Instr};
use crate::text::{decimal, hex_digits, hex_literal, push_decimal, push_hex, push_hex_literal};

verus! {

/// `V` and the hexadecimal digit of register `x`.
pub open spec fn reg_text(x: usize) -> Seq<char> {
    "V"@ + hex_digits(x as nat, 1, true)
}

/// The assembly text of `op`: a mnemonic padded to five columns and its
/// operands, with addresses as `0x` and three hex digits, bytes as `0x` and
/// two, registers as `V` and one, and the sprite height in decimal.
/// `0nnn` other than `00E0` and `00EE` reads `SYS`; an unassigned encoding
/// reads `???` followed by the whole opcode as `0x` and four hex digits.
pub open spec fn disassembly(op: u16) -> Seq<char> {
    match decode(op) {
        Instr::Cls => "CLS"@,
        Instr::Ret => "RET"@,
        Instr::Sys(a) => "SYS  "@ + hex_literal(a as nat, 3),
        Instr::Jp(a) => "JP   "@ + hex_literal(a as nat, 3),
        Instr::Call(a) => "CALL "@ + hex_literal(a as nat, 3),
        Instr::SeImm(x, kk) => "SE   "@ + reg_text(x) + ", "@ + hex_literal(kk as nat, 2),
        Instr::SneImm(x, kk) => "SNE  "@ + reg_text(x) + ", "@ + hex_literal(kk as nat, 2),
        Instr::SeReg(x, y) => "SE   "@ + reg_text(x) + ", "@ + reg_text(y),
        Instr::LdImm(x, kk) => "LD   "@ + reg_text(x) + ", "@ + hex_literal(kk as nat, 2),
        Instr::AddImm(x, kk) => "ADD  "@ + reg_text(x) + ", "@ + hex_literal(kk as nat, 2),
        Instr::LdReg(x, y) => "LD   "@ + reg_text(x) + ", "@ + reg_text(y),
        Instr::Or(x, y) => "OR   "@ + reg_text(x) + ", "@ + reg_text(y),
        Instr::And(x, y) => "AND  "@ + reg_text(x) + ", "@ + reg_text(y),
        Instr::Xor(x, y) => "XOR  "@ + reg_text(x) + ", "@ + reg_text(y),
        Instr::AddReg(x, y) => "ADD  "@ + reg_text(x) + ", "@ + reg_text(y),
        Instr::Sub(x, y) => "SUB  "@ + reg_text(x) + ", "@ + reg_text(y),
        Instr::Shr(x) => "SHR  "@ + reg_text(x),
        Instr::Subn(x, y) => "SUBN "@ + reg_text(x) + ", "@ + reg_text(y),
        Instr::Shl(x) => "SHL  "@ + reg_text(x),
        Instr::SneReg(x, y) => "SNE  "@ + reg_text(x) + ", "@ + reg_text(y),
        Instr::LdI(a) => "LD   I, "@ + hex_literal(a as nat, 3),
        Instr::JpV0(a) => "JP   V0, "@ + hex_literal(a as nat, 3),
        Instr::Rnd(x, kk) => "RND  "@ + reg_text(x) + ", "@ + hex_literal(kk as nat, 2),
        Instr::Drw(x, y, n) => "DRW  "@ + reg_text(x) + ", "@ + reg_text(y) + ", "@ + decimal(n as nat),
        Instr::Skp(x) => "SKP  "@ + reg_text(x),
        Instr::Sknp(x) => "SKNP "@ + reg_text(x),
        Instr::LdVxDt(x) => "LD   "@ + reg_text(x) + ", DT"@,
        Instr::LdVxK(x) => "LD   "@ + reg_text(x) + ", K"@,
        Instr::LdDtVx(x) => "LD   DT, "@ + reg_text(x),
        Instr::LdStVx(x) => "LD   ST, "@ + reg_text(x),
        Instr::AddI(x) => "ADD  I, "@ + reg_text(x),
        Instr::LdF(x) => "LD   F, "@ + reg_text(x),
        Instr::LdB(x) => "LD   B, "@ + reg_text(x),
        Instr::StoreRegs(x) => "LD   [I], "@ + reg_text(x),
        Instr::LoadRegs(x) => "LD   "@ + reg_text(x) + ", [I]"@,
        Instr::Unknown => "???  "@ + hex_literal(op as nat, 4),
    }
}

/// Appends the name of register `x` to `s`.
fn push_reg(s: &mut String, x: usize)
    requires
        x < 16,
    ensures
        final(s)@ == old(s)@ + reg_text(x),
{
    s.append("V");
    push_hex(s, x as u32, 1, true);
    assert(final(s)@ =~= old(s)@ + reg_text(x));
}

/// Appends a mnemonic, register `x`, a comma and register `y` to `s`.
fn push_reg_pair(s: &mut String, mnemonic: &str, x: usize, y: usize)
    requires
        x < 16,
        y < 16,
    ensures
        final(s)@ == old(s)@ + mnemonic@ + reg_text(x) + ", "@ + reg_text(y),
{
    s.append(mnemonic);
    push_reg(s, x);
    s.append(", ");
    push_reg(s, y);
}

/// Appends a mnemonic, register `x`, a comma and byte `kk` to `s`.
fn push_reg_byte(s: &mut String, mnemonic: &str, x: usize, kk: u8)
    requires
        x < 16,
    ensures
        final(s)@ == old(s)@ + mnemonic@ + reg_text(x) + ", "@ + hex_literal(kk as nat, 2),
{
    s.append(mnemonic);
    push_reg(s, x);
    s.append(", ");
    push_hex_literal(s, kk as u32, 2);
}

/// Appends a mnemonic and then register `x` to `s`.
fn push_prefixed_reg(s: &mut String, mnemonic: &str, x: usize)
    requires
        x < 16,
    ensures
        final(s)@ == old(s)@ + mnemonic@ + reg_text(x),
{
    s.append(mnemonic);
    push_reg(s, x);
}

/// Appends a mnemonic, register `x` and a suffix to `s`.
fn push_reg_suffix(s: &mut String, mnemonic: &str, x: usize, suffix: &str)
    requires
        x < 16,
    ensures
        final(s)@ == old(s)@ + mnemonic@ + reg_text(x) + suffix@,
{
    s.append(mnemonic);
    push_reg(s, x);
    s.append(suffix);
}

/// Appends a mnemonic and address `a` to `s`.
fn push_addr(s: &mut String, mnemonic: &str, a: u16)
    ensures
        final(s)@ == old(s)@ + mnemonic@ + hex_literal(a as nat, 3),
{
    s.append(mnemonic);
    push_hex_literal(s, a as u32, 3);
}

/// The assembly text of `opcode` (see `disassembly`).
pub fn disassemble(opcode: u16) -> (text: String)
    ensures
        text@ == disassembly(opcode),
{
    let nnn = opcode & 0x0FFF;
    let nn = (opcode & 0x00FF) as u8;
    let n = (opcode & 0x000F) as u8;

    let x = ((opcode & 0x0F00) >> 8) as usize;
    let y = ((opcode & 0x00F0) >> 4) as usize;
    proof {
        lemma_opcode_fields(opcode);
    }

    let mut s = String::new();
    match opcode & 0xF000 {
        0x0000 => match opcode {
            0x00E0 => s.append("CLS"),
            0x00EE => s.append("RET"),
            _ => push_addr(&mut s, "SYS  ", nnn),
        },
        0x1000 => push_addr(&mut s, "JP   ", nnn),
        0x2000 => push_addr(&mut s, "CALL ", nnn),
        0x3000 => push_reg_byte(&mut s, "SE   ", x, nn),
        0x4000 => push_reg_byte(&mut s, "SNE  ", x, nn),
        0x5000 => push_reg_pair(&mut s, "SE   ", x, y),
        0x6000 => push_reg_byte(&mut s, "LD   ", x, nn),
        0x7000 => push_reg_byte(&mut s, "ADD  ", x, nn),
        0x8000 => match opcode & 0x000F {
            0x0 => push_reg_pair(&mut s, "LD   ", x, y),
            0x1 => push_reg_pair(&mut s, "OR   ", x, y),
            0x2 => push_reg_pair(&mut s, "AND  ", x, y),
            0x3 => push_reg_pair(&mut s, "XOR  ", x, y),
            0x4 => push_reg_pair(&mut s, "ADD  ", x, y),
            0x5 => push_reg_pair(&mut s, "SUB  ", x, y),
            0x6 => push_prefixed_reg(&mut s, "SHR  ", x),
            0x7 => push_reg_pair(&mut s, "SUBN ", x, y),
            0xE => push_prefixed_reg(&mut s, "SHL  ", x),
            _ => push_unknown(&mut s, opcode),
        },
        0x9000 => push_reg_pair(&mut s, "SNE  ", x, y),
        0xA000 => push_addr(&mut s, "LD   I, ", nnn),
        0xB000 => push_addr(&mut s, "JP   V0, ", nnn),
        0xC000 => push_reg_byte(&mut s, "RND  ", x, nn),
        0xD000 => {
            push_reg_pair(&mut s, "DRW  ", x, y);
            s.append(", ");
            push_decimal(&mut s, n as u32);
        },
        0xE000 => match opcode & 0x00FF {
            0x9E => push_prefixed_reg(&mut s, "SKP  ", x),
            0xA1 => push_prefixed_reg(&mut s, "SKNP ", x),
            _ => push_unknown(&mut s, opcode),
        },
        0xF000 => match opcode & 0x00FF {
            0x07 => push_reg_suffix(&mut s, "LD   ", x, ", DT"),
            0x0A => push_reg_suffix(&mut s, "LD   ", x, ", K"),
            0x15 => push_prefixed_reg(&mut s, "LD   DT, ", x),
            0x18 => push_prefixed_reg(&mut s, "LD   ST, ", x),
            0x1E => push_prefixed_reg(&mut s, "ADD  I, ", x),
            0x29 => push_prefixed_reg(&mut s, "LD   F, ", x),
            0x33 => push_prefixed_reg(&mut s, "LD   B, ", x),
            0x55 => push_prefixed_reg(&mut s, "LD   [I], ", x),
            0x65 => push_reg_suffix(&mut s, "LD   ", x, ", [I]"),
            _ => push_unknown(&mut s, opcode),
        },
        _ => push_unknown(&mut s, opcode),
    }
    assert(s@ =~= disassembly(opcode));
    s
}

/// Appends `???` and the whole opcode to `s`.
fn push_unknown(s: &mut String, opcode: u16)
    ensures
        final(s)@ == old(s)@ + "???  "@ + hex_literal(opcode as nat, 4),
{
    s.append("???  ");
    push_hex_literal(s, opcode as u32, 4);
}


/// How many instructions `disassemble_reigon` lists from `start` in a memory
/// of `len` bytes when asked for `count`: as many whole two-byte opcodes as
/// fit from `start` on, at most `count`.
pub open spec fn region_len(len: int, start: int, count: int) -> int {
    if start < len {
        let fit = (len - start) / 2;
        if count < fit {
            count
        } else {
            fit
        }
    } else {
        0
    }
}

/// Entry `k` of a listing from `start`: the address, the big-endian opcode
/// there and its assembly text.
pub open spec fn region_entry(mem: Seq<u8>, start: int, k: int) -> (u16, u16, Seq<char>) {
    let a = start + 2 * k;
    let op = (mem[a] * 256 + mem[a + 1]) as u16;
    (a as u16, op, disassembly(op))
}

/// Lists up to `count` consecutive instructions of `memory` from address
/// `start`, stopping where no whole opcode is left.
pub fn disassemble_reigon(memory: &[u8], start: u16, count: usize) -> (result: Vec<(u16, u16, String)>)
    requires
        start + 2 * region_len(memory@.len() as int, start as int, count as int) <= u16::MAX,
    ensures
        result@.len() == region_len(memory@.len() as int, start as int, count as int),
        forall|k: int|
            0 <= k < result@.len() ==> {
                let e = region_entry(memory@, start as int, k);
                &&& (#[trigger] result@[k]).0 == e.0
                &&& result@[k].1 == e.1
                &&& result@[k].2@ == e.2
            },
{
    let ghost total = region_len(memory@.len() as int, start as int, count as int);
    let mut result: Vec<(u16, u16, String)> = Vec::new();
    let mut address = start;

    let mut i: usize = 0;
    while i < count
        invariant
            i <= count,
            i <= total,
            total == region_len(memory@.len() as int, start as int, count as int),
            start + 2 * total <= u16::MAX,
            address == start + 2 * i,
            result@.len() == i,
            forall|k: int|
                0 <= k < i ==> {
                    let e = region_entry(memory@, start as int, k);
                    &&& (#[trigger] result@[k]).0 == e.0
                    &&& result@[k].1 == e.1
                    &&& result@[k].2@ == e.2
                },
        ensures
            result@.len() == total,
            forall|k: int|
                0 <= k < result@.len() ==> {
                    let e = region_entry(memory@, start as int, k);
                    &&& (#[trigger] result@[k]).0 == e.0
                    &&& result@[k].1 == e.1
                    &&& result@[k].2@ == e.2
                },
        decreases count - i,
    {
        let idx = address as usize;

        if idx + 1 >= memory.len() {
            break;
        }

        let high = memory[idx];
        let low = memory[idx + 1];
        let opcode = (high as u16) << 8 | (low as u16);
        assert((high as u16) << 8 | (low as u16) == high * 256 + low) by (bit_vector);
        let intruction = disassemble(opcode);

        result.push((address, opcode, intruction));
        address += 2;
        i += 1;
    }

    result
}

} // verus!
