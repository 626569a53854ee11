use vstd::prelude::*;
use rand::RngExt;

use crate::display::{blank_screen, draw_sprite_spec, Display};
use crate::keypad::{Keypad, KEY_COUNT};
use crate::text::push_hex;

verus! {

/// Bytes of CHIP-8 memory.
pub const MEMORY_SIZE: usize = 4096;

/// Address at which programs are loaded and execution starts.
pub const PROGRAM_START: u16 = 0x200;

/// Number of general registers `V0` to `VF`.
pub const REGISTER_COUNT: usize = 16;

/// Number of return-address slots on the call stack.
pub const STACK_SIZE: usize = 16;

/// `VF`, the register that holds carry, borrow, shifted-out and collision flags.
pub const FLAG: usize = 0xF;

/// The registers of the CPU as mathematical values.
pub struct CpuState {
    pub regs: Seq<u8>,
    pub index: u16,
    pub pc: u16,
    pub sp: u8,
    pub stack: Seq<u16>,
    pub dt: u8,
    pub st: u8,
    pub waiting: Option<usize>,
}

/// One decoded CHIP-8 instruction; `x`, `y` name registers, `nnn` is an
/// address, `kk` a byte and `n` a nibble.
pub enum Instr {
    Cls,
    Ret,
    Sys(u16),
    Jp(u16),
    Call(u16),
    SeImm(usize, u8),
    SneImm(usize, u8),
    SeReg(usize, usize),
    LdImm(usize, u8),
    AddImm(usize, u8),
    LdReg(usize, usize),
    Or(usize, usize),
    And(usize, usize),
    Xor(usize, usize),
    AddReg(usize, usize),
    Sub(usize, usize),
    Shr(usize),
    Subn(usize, usize),
    Shl(usize),
    SneReg(usize, usize),
    LdI(u16),
    JpV0(u16),
    Rnd(usize, u8),
    Drw(usize, usize, u8),
    Skp(usize),
    Sknp(usize),
    LdVxDt(usize),
    LdVxK(usize),
    LdDtVx(usize),
    LdStVx(usize),
    AddI(usize),
    LdF(usize),
    LdB(usize),
    StoreRegs(usize),
    LoadRegs(usize),
    Unknown,
}

/// The instruction that `op` encodes. Its hexadecimal digits are, from the
/// most significant, the group, `x`, `y` and `n`; `kk` is the low byte and
/// `nnn` the low twelve bits.
pub open spec fn decode(op: u16) -> Instr {
    let nnn = (op % 0x1000) as u16;
    let kk = (op % 0x100) as u8;
    let n = (op % 0x10) as u8;
    let x = ((op / 0x100) % 0x10) as usize;
    let y = ((op / 0x10) % 0x10) as usize;
    match op / 0x1000 {
        0x0 => if op == 0x00E0 {
            Instr::Cls
        } else if op == 0x00EE {
            Instr::Ret
        } else {
            Instr::Sys(nnn)
        },
        0x1 => Instr::Jp(nnn),
        0x2 => Instr::Call(nnn),
        0x3 => Instr::SeImm(x, kk),
        0x4 => Instr::SneImm(x, kk),
        0x5 => Instr::SeReg(x, y),
        0x6 => Instr::LdImm(x, kk),
        0x7 => Instr::AddImm(x, kk),
        0x8 => match op % 0x10 {
            0x0 => Instr::LdReg(x, y),
            0x1 => Instr::Or(x, y),
            0x2 => Instr::And(x, y),
            0x3 => Instr::Xor(x, y),
            0x4 => Instr::AddReg(x, y),
            0x5 => Instr::Sub(x, y),
            0x6 => Instr::Shr(x),
            0x7 => Instr::Subn(x, y),
            0xE => Instr::Shl(x),
            _ => Instr::Unknown,
        },
        0x9 => Instr::SneReg(x, y),
        0xA => Instr::LdI(nnn),
        0xB => Instr::JpV0(nnn),
        0xC => Instr::Rnd(x, kk),
        0xD => Instr::Drw(x, y, n),
        0xE => match op % 0x100 {
            0x9E => Instr::Skp(x),
            0xA1 => Instr::Sknp(x),
            _ => Instr::Unknown,
        },
        _ => match op % 0x100 {
            0x07 => Instr::LdVxDt(x),
            0x0A => Instr::LdVxK(x),
            0x15 => Instr::LdDtVx(x),
            0x18 => Instr::LdStVx(x),
            0x1E => Instr::AddI(x),
            0x29 => Instr::LdF(x),
            0x33 => Instr::LdB(x),
            0x55 => Instr::StoreRegs(x),
            0x65 => Instr::LoadRegs(x),
            _ => Instr::Unknown,
        },
    }
}

/// Whether `op` encodes an instruction that the CPU executes: neither a
/// machine-code `SYS` call nor an unassigned encoding.
pub open spec fn is_executable(op: u16) -> bool {
    !(decode(op) is Sys) && !(decode(op) is Unknown)
}

/// The masks and shifts that pick the fields of an opcode give its
/// hexadecimal digits.
pub proof fn lemma_opcode_fields(op: u16)
    ensures
        op & 0x0FFF == op % 0x1000,
        op & 0x00FF == op % 0x100,
        op & 0x000F == op % 0x10,
        (op & 0x0F00) >> 8 == (op / 0x100) % 0x10,
        (op & 0x00F0) >> 4 == (op / 0x10) % 0x10,
        op & 0xF000 == (op / 0x1000) * 0x1000,
{
    assert(op & 0x0FFF == op % 0x1000) by (bit_vector);
    assert(op & 0x00FF == op % 0x100) by (bit_vector);
    assert(op & 0x000F == op % 0x10) by (bit_vector);
    assert((op & 0x0F00) >> 8 == (op / 0x100) % 0x10) by (bit_vector);
    assert((op & 0x00F0) >> 4 == (op / 0x10) % 0x10) by (bit_vector);
    assert(op & 0xF000 == (op / 0x1000) * 0x1000) by (bit_vector);
}

/// The CPU at power-on: every register zero and the program counter at
/// `PROGRAM_START`.
pub open spec fn initial_cpu() -> CpuState {
    CpuState {
        regs: Seq::new(16, |i: int| 0u8),
        index: 0,
        pc: PROGRAM_START,
        sp: 0,
        stack: Seq::new(16, |i: int| 0u16),
        dt: 0,
        st: 0,
        waiting: None,
    }
}

/// `s` with register `x` set to `v`.
pub open spec fn set_reg(s: CpuState, x: int, v: u8) -> CpuState {
    CpuState { regs: s.regs.update(x, v), ..s }
}

/// `s` with the next instruction skipped when `cond` holds.
pub open spec fn skip_if(s: CpuState, cond: bool) -> CpuState {
    if cond {
        CpuState { pc: (s.pc + 2) as u16, ..s }
    } else {
        s
    }
}

/// `1` when `b` holds, `0` otherwise.
pub open spec fn flag(b: bool) -> u8 {
    if b { 1 } else { 0 }
}

/// 00EE: return to the address on top of the stack and pop it.
pub open spec fn op_ret(s: CpuState) -> CpuState {
    CpuState { pc: s.stack[s.sp as int], sp: (s.sp - 1) as u8, ..s }
}

/// 1nnn: jump to `addr`.
pub open spec fn op_jp(s: CpuState, addr: u16) -> CpuState {
    CpuState { pc: addr, ..s }
}

/// 2nnn: push the program counter and jump to `addr`.
pub open spec fn op_call(s: CpuState, addr: u16) -> CpuState {
    CpuState {
        sp: (s.sp + 1) as u8,
        stack: s.stack.update(s.sp + 1, s.pc),
        pc: addr,
        ..s
    }
}

/// 7xkk: `Vx = Vx + kk`, wrapping.
pub open spec fn op_add_imm(s: CpuState, x: int, kk: u8) -> CpuState {
    set_reg(s, x, ((s.regs[x] + kk) % 256) as u8)
}

/// 8xy4: `Vx = Vx + Vy` wrapping, then `VF` = carry.
pub open spec fn op_add_reg(s: CpuState, x: int, y: int) -> CpuState {
    let sum = s.regs[x] + s.regs[y];
    set_reg(set_reg(s, x, (sum % 256) as u8), FLAG as int, flag(sum > 255))
}

/// 8xy5: `VF` = (Vx > Vy), then `Vx = Vx - Vy` wrapping, read after `VF` is set.
pub open spec fn op_sub(s: CpuState, x: int, y: int) -> CpuState {
    let s1 = set_reg(s, FLAG as int, flag(s.regs[x] > s.regs[y]));
    set_reg(s1, x, ((s1.regs[x] - s1.regs[y]) % 256) as u8)
}

/// 8xy6: `VF` = low bit of Vx, then `Vx = Vx / 2`, read after `VF` is set.
pub open spec fn op_shr(s: CpuState, x: int) -> CpuState {
    let s1 = set_reg(s, FLAG as int, (s.regs[x] % 2) as u8);
    set_reg(s1, x, s1.regs[x] / 2)
}

/// 8xy7: `VF` = (Vy > Vx), then `Vx = Vy - Vx` wrapping, read after `VF` is set.
pub open spec fn op_subn(s: CpuState, x: int, y: int) -> CpuState {
    let s1 = set_reg(s, FLAG as int, flag(s.regs[y] > s.regs[x]));
    set_reg(s1, x, ((s1.regs[y] - s1.regs[x]) % 256) as u8)
}

/// 8xyE: `VF` = high bit of Vx, then `Vx = Vx * 2` wrapping, read after `VF` is set.
pub open spec fn op_shl(s: CpuState, x: int) -> CpuState {
    let s1 = set_reg(s, FLAG as int, flag(s.regs[x] >= 128));
    set_reg(s1, x, ((s1.regs[x] * 2) % 256) as u8)
}

/// Bnnn: jump to `nnn + V0`.
pub open spec fn op_jp_v0(s: CpuState, nnn: u16) -> CpuState {
    CpuState { pc: (s.regs[0] + nnn) as u16, ..s }
}

/// Cxkk with random byte `r`: `Vx = r & kk`.
pub open spec fn op_rnd(s: CpuState, x: int, kk: u8, r: u8) -> CpuState {
    set_reg(s, x, r & kk)
}

/// The lowest-numbered pressed key at or after `i`, if any.
pub open spec fn first_pressed_from(keys: Seq<bool>, i: nat) -> Option<nat>
    decreases KEY_COUNT - i,
{
    if i >= KEY_COUNT {
        None
    } else if keys[i as int] {
        Some(i)
    } else {
        first_pressed_from(keys, i + 1)
    }
}

/// Fx0A: store the lowest-numbered pressed key in `Vx` and stop waiting, or
/// wait on `Vx` while no key is pressed.
pub open spec fn op_ld_key(s: CpuState, keys: Seq<bool>, x: usize) -> CpuState {
    match first_pressed_from(keys, 0) {
        Some(k) => CpuState { regs: s.regs.update(x as int, k as u8), waiting: None, ..s },
        None => CpuState { waiting: Some(x), ..s },
    }
}

/// Fx1E: `I = I + Vx`.
pub open spec fn op_add_i(s: CpuState, x: int) -> CpuState {
    CpuState { index: (s.index + s.regs[x]) as u16, ..s }
}

/// Fx29: `I` = address of the font glyph of digit `Vx`.
pub open spec fn op_ld_f(s: CpuState, x: int) -> CpuState {
    CpuState { index: (0x050 + s.regs[x] * 5) as u16, ..s }
}

/// Fx33: memory at `i`, `i + 1`, `i + 2` = hundreds, tens and ones of `v`.
pub open spec fn store_bcd(mem: Seq<u8>, i: int, v: u8) -> Seq<u8> {
    mem.update(i, v / 100).update(i + 1, (v / 10) % 10).update(i + 2, v % 10)
}

/// Fx55: memory at `I + i` = `Vi` for each `i <= x`.
pub open spec fn store_regs(mem: Seq<u8>, s: CpuState, x: int) -> Seq<u8> {
    Seq::new(
        mem.len(),
        |a: int|
            if s.index <= a <= s.index + x {
                s.regs[a - s.index]
            } else {
                mem[a]
            },
    )
}

/// Fx65: `Vi` = memory at `I + i` for each `i <= x`.
pub open spec fn op_load_regs(s: CpuState, mem: Seq<u8>, x: int) -> CpuState {
    CpuState {
        regs: Seq::new(16, |i: int| if i <= x { mem[s.index + i] } else { s.regs[i] }),
        ..s
    }
}

/// Dxyn: draw the `n` bytes at `I` at `(Vx, Vy)` and set `VF` to whether a
/// pixel was turned off.
pub open spec fn op_drw(s: CpuState, mem: Seq<u8>, disp: Seq<bool>, x: int, y: int, n: int) -> (CpuState, Seq<bool>) {
    let (d, collision) = draw_sprite_spec(
        disp,
        s.regs[x] as int,
        s.regs[y] as int,
        mem.subrange(s.index as int, s.index + n),
    );
    (set_reg(s, FLAG as int, flag(collision)), d)
}

/// The effect of executing an executable instruction `i` on the CPU `s`,
/// memory `mem` and screen `disp` with keys `keys`, where `r` is the random
/// byte that `Cxkk` draws.
pub open spec fn apply(s: CpuState, mem: Seq<u8>, disp: Seq<bool>, keys: Seq<bool>, i: Instr, r: u8) -> (CpuState, Seq<u8>, Seq<bool>) {
    match i {
        Instr::Cls => (s, mem, blank_screen()),
        Instr::Ret => (op_ret(s), mem, disp),
        Instr::Jp(a) => (op_jp(s, a), mem, disp),
        Instr::Call(a) => (op_call(s, a), mem, disp),
        Instr::SeImm(x, kk) => (skip_if(s, s.regs[x as int] == kk), mem, disp),
        Instr::SneImm(x, kk) => (skip_if(s, s.regs[x as int] != kk), mem, disp),
        Instr::SeReg(x, y) => (skip_if(s, s.regs[x as int] == s.regs[y as int]), mem, disp),
        Instr::LdImm(x, kk) => (set_reg(s, x as int, kk), mem, disp),
        Instr::AddImm(x, kk) => (op_add_imm(s, x as int, kk), mem, disp),
        Instr::LdReg(x, y) => (set_reg(s, x as int, s.regs[y as int]), mem, disp),
        Instr::Or(x, y) => (set_reg(s, x as int, s.regs[x as int] | s.regs[y as int]), mem, disp),
        Instr::And(x, y) => (set_reg(s, x as int, s.regs[x as int] & s.regs[y as int]), mem, disp),
        Instr::Xor(x, y) => (set_reg(s, x as int, s.regs[x as int] ^ s.regs[y as int]), mem, disp),
        Instr::AddReg(x, y) => (op_add_reg(s, x as int, y as int), mem, disp),
        Instr::Sub(x, y) => (op_sub(s, x as int, y as int), mem, disp),
        Instr::Shr(x) => (op_shr(s, x as int), mem, disp),
        Instr::Subn(x, y) => (op_subn(s, x as int, y as int), mem, disp),
        Instr::Shl(x) => (op_shl(s, x as int), mem, disp),
        Instr::SneReg(x, y) => (skip_if(s, s.regs[x as int] != s.regs[y as int]), mem, disp),
        Instr::LdI(a) => (CpuState { index: a, ..s }, mem, disp),
        Instr::JpV0(a) => (op_jp_v0(s, a), mem, disp),
        Instr::Rnd(x, kk) => (op_rnd(s, x as int, kk, r), mem, disp),
        Instr::Drw(x, y, n) => {
            let (c, d) = op_drw(s, mem, disp, x as int, y as int, n as int);
            (c, mem, d)
        },
        Instr::Skp(x) => (skip_if(s, keys[s.regs[x as int] as int]), mem, disp),
        Instr::Sknp(x) => (skip_if(s, !keys[s.regs[x as int] as int]), mem, disp),
        Instr::LdVxDt(x) => (set_reg(s, x as int, s.dt), mem, disp),
        Instr::LdVxK(x) => (op_ld_key(s, keys, x), mem, disp),
        Instr::LdDtVx(x) => (CpuState { dt: s.regs[x as int], ..s }, mem, disp),
        Instr::LdStVx(x) => (CpuState { st: s.regs[x as int], ..s }, mem, disp),
        Instr::AddI(x) => (op_add_i(s, x as int), mem, disp),
        Instr::LdF(x) => (op_ld_f(s, x as int), mem, disp),
        Instr::LdB(x) => (s, store_bcd(mem, s.index as int, s.regs[x as int]), disp),
        Instr::StoreRegs(x) => (s, store_regs(mem, s, x as int), disp),
        Instr::LoadRegs(x) => (op_load_regs(s, mem, x as int), mem, disp),
        Instr::Sys(_) | Instr::Unknown => (s, mem, disp),
    }
}

/// What one call of `execute` with opcode `op` does: the new CPU, memory and
/// screen, and whether it succeeded. While the CPU waits for a key it only
/// polls the keypad; otherwise an opcode that is not executable changes
/// nothing and fails.
pub open spec fn step(s: CpuState, mem: Seq<u8>, disp: Seq<bool>, keys: Seq<bool>, op: u16, r: u8) -> (CpuState, Seq<u8>, Seq<bool>, bool) {
    match s.waiting {
        Some(rx) => (op_ld_key(s, keys, rx), mem, disp, true),
        None => if is_executable(op) {
            let (c, m, d) = apply(s, mem, disp, keys, decode(op), r);
            (c, m, d, true)
        } else {
            (s, mem, disp, false)
        },
    }
}

/// Whether skipping from program counter `pc` stays within 16 bits.
pub open spec fn can_skip(pc: u16) -> bool {
    pc <= 0xFFFD
}

/// The conditions under which executing `i` stays within the machine: the
/// stack neither underflows nor overflows, skips and `I` do not overflow 16
/// bits, key numbers name a key, and memory accesses stay in memory.
pub open spec fn apply_safe(s: CpuState, keys: Seq<bool>, i: Instr) -> bool {
    match i {
        Instr::Ret => 1 <= s.sp < STACK_SIZE,
        Instr::Call(_) => s.sp + 1 < STACK_SIZE,
        Instr::SeImm(x, kk) => s.regs[x as int] == kk ==> can_skip(s.pc),
        Instr::SneImm(x, kk) => s.regs[x as int] != kk ==> can_skip(s.pc),
        Instr::SeReg(x, y) => s.regs[x as int] == s.regs[y as int] ==> can_skip(s.pc),
        Instr::SneReg(x, y) => s.regs[x as int] != s.regs[y as int] ==> can_skip(s.pc),
        Instr::Drw(_, _, n) => s.index + n <= MEMORY_SIZE,
        Instr::Skp(x) => s.regs[x as int] < KEY_COUNT && (keys[s.regs[x as int] as int] ==> can_skip(s.pc)),
        Instr::Sknp(x) => s.regs[x as int] < KEY_COUNT && (!keys[s.regs[x as int] as int] ==> can_skip(s.pc)),
        Instr::AddI(x) => s.index + s.regs[x as int] <= u16::MAX,
        Instr::LdB(_) => s.index + 2 < MEMORY_SIZE,
        Instr::StoreRegs(x) | Instr::LoadRegs(x) => s.index + x < MEMORY_SIZE,
        _ => true,
    }
}

/// Whether executing `op` stays within the machine (see `apply_safe`); a
/// waiting CPU needs its waiting register to exist once a key is pressed.
pub open spec fn step_safe(s: CpuState, keys: Seq<bool>, op: u16) -> bool {
    match s.waiting {
        Some(rx) => rx < REGISTER_COUNT || first_pressed_from(keys, 0) is None,
        None => is_executable(op) ==> apply_safe(s, keys, decode(op)),
    }
}

/// The message of the error that an opcode that is not executable gives:
/// `Unknown Opcode: 0x` and its four lower-case hexadecimal digits.
pub open spec fn unknown_opcode_message(op: u16) -> Seq<char> {
    "Unknown Opcode: 0x"@ + crate::text::hex_digits(op as nat, 4, false)
}

/// The error for an opcode that the CPU does not execute.
fn unknown_opcode(opcode: u16) -> (e: String)
    ensures
        e@ == unknown_opcode_message(opcode),
{
    let mut e = String::from_str("Unknown Opcode: 0x");
    push_hex(&mut e, opcode as u32, 4, false);
    e
}

/// Draws one uniformly random byte from the thread-local generator of `rand`.
/// Nothing is stated of the byte: every value is possible. The call panics
/// only if the operating system's entropy source fails when the generator is
/// first seeded or when it reseeds itself (after every 64 KiB of output),
/// which no argument can rule out.
#[verifier::external_body]
fn random_byte() -> u8 {
    rand::rng().random::<u8>()
}

/// The CHIP-8 CPU: sixteen 8-bit registers, the index register `I`, the
/// program counter, a sixteen-slot call stack, the delay and sound timers, and
/// the register a pending `Fx0A` waits to fill.
pub struct CPU {
    pub regs: [u8; 16],
    pub index: u16,
    pub PC: u16,
    pub SP: u8,
    pub stack: [u16; 16],
    pub DT: u8,
    pub ST: u8,
    pub waiting: Option<usize>,
}

impl View for CPU {
    type V = CpuState;

    open spec fn view(&self) -> CpuState {
        CpuState {
            regs: self.regs@,
            index: self.index,
            pc: self.PC,
            sp: self.SP,
            stack: self.stack@,
            dt: self.DT,
            st: self.ST,
            waiting: self.waiting,
        }
    }
}


/// Both timers counted down by one, stopping at zero.
pub open spec fn count_down_timers(s: CpuState) -> CpuState {
    CpuState {
        dt: if s.dt > 0 { (s.dt - 1) as u8 } else { 0 },
        st: if s.st > 0 { (s.st - 1) as u8 } else { 0 },
        ..s
    }
}

/// The big-endian opcode at address `pc`, both bytes read modulo the size of
/// memory.
pub open spec fn opcode_at(mem: Seq<u8>, pc: u16) -> u16 {
    let a = pc as int % (MEMORY_SIZE as int);
    (mem[a] * 256 + mem[(a + 1) % (MEMORY_SIZE as int)]) as u16
}

/// The CPU after fetching from `s`: the program counter two bytes on,
/// modulo the size of memory.
pub open spec fn after_fetch(s: CpuState) -> CpuState {
    CpuState { pc: ((s.pc + 2) % (MEMORY_SIZE as int)) as u16, ..s }
}

impl CPU {
    /// A CPU in its power-on state.
    pub fn new() -> (c: Self)
        ensures
            c@ == initial_cpu(),
    {
        let c = Self {
            regs: [0x00; 16],
            index: 0x00,
            PC: 0x200,
            SP: 0x00,
            stack: [0x00; 16],
            DT: 0x00,
            ST: 0x00,
            waiting: None,
        };
        assert(c.regs@ =~= initial_cpu().regs);
        assert(c.stack@ =~= initial_cpu().stack);
        c
    }

    /// Counts both timers down by one, stopping at zero.
    pub fn decrement_timers(&mut self)
        ensures
            final(self)@ == count_down_timers(old(self)@),
    {
        if self.DT > 0 {
            self.DT -= 1;
        }
        if self.ST > 0 {
            self.ST -= 1;
        }
    }

    /// The registers `V0` to `VF`.
    pub fn registers(&self) -> (r: &[u8; 16])
        ensures
            r@ == self@.regs,
    {
        &self.regs
    }

    /// The index register `I`.
    pub fn index(&self) -> (i: u16)
        ensures
            i == self@.index,
    {
        self.index
    }

    /// The program counter.
    pub fn program_counter(&self) -> (pc: u16)
        ensures
            pc == self@.pc,
    {
        self.PC
    }

    /// The stack pointer.
    pub fn stack_pointer(&self) -> (sp: u8)
        ensures
            sp == self@.sp,
    {
        self.SP
    }

    /// The call stack.
    pub fn stack(&self) -> (st: &[u16; 16])
        ensures
            st@ == self@.stack,
    {
        &self.stack
    }

    /// The delay timer.
    pub fn delay_timer(&self) -> (t: u8)
        ensures
            t == self@.dt,
    {
        self.DT
    }

    /// The sound timer.
    pub fn sound_timer(&self) -> (t: u8)
        ensures
            t == self@.st,
    {
        self.ST
    }

    /// Whether the CPU waits for a key press (`Fx0A`).
    pub fn waiting(&self) -> (w: bool)
        ensures
            w == self@.waiting is Some,
    {
        self.waiting.is_some()
    }

    /// Reads the big-endian opcode at the program counter and advances the
    /// program counter by two, both modulo the size of memory.
    pub fn fetch(&mut self, memory: &[u8; MEMORY_SIZE]) -> (op: u16)
        requires
            old(self).PC <= 0xFFFD,
        ensures
            op == opcode_at(memory@, old(self)@.pc),
            final(self)@ == after_fetch(old(self)@),
    {
        let pc = self.PC;
        let addr = pc as usize & 0xFFF;
        assert(pc as usize & 0xFFF == (pc as usize) % 4096) by (bit_vector);
        let high_byte = memory[addr];
        let succ: usize = addr + 1;
        let next = succ & 0xFFF;
        assert(succ & 0xFFF == succ % 4096) by (bit_vector);
        let low_byte = memory[next];
        let pc2: u16 = self.PC + 2;
        let new_pc = pc2 & 0xFFF;
        assert(pc2 & 0xFFF == pc2 % 4096) by (bit_vector);
        self.PC = new_pc;
        let op = (high_byte as u16) << 8 | (low_byte as u16);
        assert((high_byte as u16) << 8 | (low_byte as u16) == high_byte * 256 + low_byte) by (bit_vector);
        op
    }

    /// 00E0: turns every pixel off.
    pub fn CLS(display: &mut Display)
        ensures
            final(display)@ == blank_screen(),
    {
        display.clear();
    }

    /// 00EE: returns to the address on top of the stack and pops it.
    pub fn RET(cpu: &mut CPU)
        requires
            1 <= old(cpu).SP < STACK_SIZE,
        ensures
            final(cpu)@ == op_ret(old(cpu)@),
    {
        cpu.PC = cpu.stack[cpu.SP as usize];
        cpu.SP -= 1;
    }

    /// 1nnn: jumps to `addr`.
    pub fn JP(cpu: &mut CPU, addr: u16)
        ensures
            final(cpu)@ == op_jp(old(cpu)@, addr),
    {
        cpu.PC = addr;
    }

    /// 2nnn: pushes the program counter and jumps to `addr`.
    pub fn CALL(cpu: &mut CPU, addr: u16)
        requires
            old(cpu).SP + 1 < STACK_SIZE,
        ensures
            final(cpu)@ == op_call(old(cpu)@, addr),
    {
        cpu.SP += 1;
        cpu.stack[cpu.SP as usize] = cpu.PC;

        cpu.PC = addr;
    }

    /// 3xkk: skips the next instruction if `Vx == kk`.
    pub fn SEVx(cpu: &mut CPU, Rx: usize, payload: u8)
        requires
            Rx < REGISTER_COUNT,
            old(cpu).regs[Rx as int] == payload ==> can_skip(old(cpu).PC),
        ensures
            final(cpu)@ == skip_if(old(cpu)@, old(cpu)@.regs[Rx as int] == payload),
    {
        if cpu.regs[Rx] == payload {
            cpu.PC += 2;
        }
    }

    /// 4xkk: skips the next instruction if `Vx != kk`.
    pub fn SNEVx(cpu: &mut CPU, Rx: usize, payload: u8)
        requires
            Rx < REGISTER_COUNT,
            old(cpu).regs[Rx as int] != payload ==> can_skip(old(cpu).PC),
        ensures
            final(cpu)@ == skip_if(old(cpu)@, old(cpu)@.regs[Rx as int] != payload),
    {
        if cpu.regs[Rx] != payload {
            cpu.PC += 2;
        }
    }

    /// 5xy0: skips the next instruction if `Vx == Vy`.
    pub fn SEVxVy(cpu: &mut CPU, Rx: usize, Ry: usize)
        requires
            Rx < REGISTER_COUNT,
            Ry < REGISTER_COUNT,
            old(cpu).regs[Rx as int] == old(cpu).regs[Ry as int] ==> can_skip(old(cpu).PC),
        ensures
            final(cpu)@ == skip_if(old(cpu)@, old(cpu)@.regs[Rx as int] == old(cpu)@.regs[Ry as int]),
    {
        if cpu.regs[Rx] == cpu.regs[Ry] {
            cpu.PC += 2;
        }
    }

    /// 6xkk: `Vx = kk`.
    pub fn LDVx(cpu: &mut CPU, Rx: usize, payload: u8)
        requires
            Rx < REGISTER_COUNT,
        ensures
            final(cpu)@ == set_reg(old(cpu)@, Rx as int, payload),
    {
        cpu.regs[Rx] = payload;
    }

    /// 7xkk: `Vx = Vx + kk`, wrapping.
    pub fn ADDVx(cpu: &mut CPU, Rx: usize, payload: u8)
        requires
            Rx < REGISTER_COUNT,
        ensures
            final(cpu)@ == op_add_imm(old(cpu)@, Rx as int, payload),
    {
        cpu.regs[Rx] = cpu.regs[Rx].wrapping_add(payload);
    }

    /// 8xy0: `Vx = Vy`.
    pub fn LDVxVy(cpu: &mut CPU, Rx: usize, Ry: usize)
        requires
            Rx < REGISTER_COUNT,
            Ry < REGISTER_COUNT,
        ensures
            final(cpu)@ == set_reg(old(cpu)@, Rx as int, old(cpu)@.regs[Ry as int]),
    {
        cpu.regs[Rx] = cpu.regs[Ry]
    }

    /// 8xy1: `Vx = Vx | Vy`.
    pub fn ORVxVy(cpu: &mut CPU, Rx: usize, Ry: usize)
        requires
            Rx < REGISTER_COUNT,
            Ry < REGISTER_COUNT,
        ensures
            final(cpu)@ == set_reg(old(cpu)@, Rx as int, old(cpu)@.regs[Rx as int] | old(cpu)@.regs[Ry as int]),
    {
        cpu.regs[Rx] = cpu.regs[Rx] | cpu.regs[Ry];
    }

    /// 8xy2: `Vx = Vx & Vy`.
    pub fn ANDVxVy(cpu: &mut CPU, Rx: usize, Ry: usize)
        requires
            Rx < REGISTER_COUNT,
            Ry < REGISTER_COUNT,
        ensures
            final(cpu)@ == set_reg(old(cpu)@, Rx as int, old(cpu)@.regs[Rx as int] & old(cpu)@.regs[Ry as int]),
    {
        cpu.regs[Rx] = cpu.regs[Rx] & cpu.regs[Ry];
    }

    /// 8xy3: `Vx = Vx ^ Vy`.
    pub fn XORVxVy(cpu: &mut CPU, Rx: usize, Ry: usize)
        requires
            Rx < REGISTER_COUNT,
            Ry < REGISTER_COUNT,
        ensures
            final(cpu)@ == set_reg(old(cpu)@, Rx as int, old(cpu)@.regs[Rx as int] ^ old(cpu)@.regs[Ry as int]),
    {
        cpu.regs[Rx] = cpu.regs[Rx] ^ cpu.regs[Ry];
    }

    /// 8xy4: `Vx = Vx + Vy` wrapping, then `VF` = carry.
    pub fn CRRYADD(cpu: &mut CPU, Rx: usize, Ry: usize)
        requires
            Rx < REGISTER_COUNT,
            Ry < REGISTER_COUNT,
        ensures
            final(cpu)@ == op_add_reg(old(cpu)@, Rx as int, Ry as int),
    {
        let sum: u16 = cpu.regs[Rx] as u16 + cpu.regs[Ry] as u16;
        assert(sum as u8 == sum % 256) by (bit_vector);

        cpu.regs[Rx] = sum as u8;
        cpu.regs[0xF] = if sum > 255 { 1 } else { 0 };
    }

    /// 8xy5: `VF` = (Vx > Vy), then `Vx = Vx - Vy`, wrapping.
    pub fn BRWSUB(cpu: &mut CPU, Rx: usize, Ry: usize)
        requires
            Rx < REGISTER_COUNT,
            Ry < REGISTER_COUNT,
        ensures
            final(cpu)@ == op_sub(old(cpu)@, Rx as int, Ry as int),
    {
        if cpu.regs[Rx] > cpu.regs[Ry] {
            cpu.regs[0xF] = 1;
        } else {
            cpu.regs[0xF] = 0;
        }

        cpu.regs[Rx] = cpu.regs[Rx].wrapping_sub(cpu.regs[Ry]);
    }

    /// 8xy6: `VF` = low bit of Vx, then `Vx = Vx / 2`.
    pub fn SHRVc(cpu: &mut CPU, Rx: usize)
        requires
            Rx < REGISTER_COUNT,
        ensures
            final(cpu)@ == op_shr(old(cpu)@, Rx as int),
    {
        let v = cpu.regs[Rx];
        assert((v & 0x01) == 0x01 <==> v % 2 == 1) by (bit_vector);
        if (cpu.regs[Rx] & 0x01) == 0x01 {
            cpu.regs[0xF] = 1;
        } else {
            cpu.regs[0xF] = 0;
        }

        cpu.regs[Rx] /= 2;
    }

    /// 8xy7: `VF` = (Vy > Vx), then `Vx = Vy - Vx`, wrapping.
    pub fn BRWSUB2(cpu: &mut CPU, Rx: usize, Ry: usize)
        requires
            Rx < REGISTER_COUNT,
            Ry < REGISTER_COUNT,
        ensures
            final(cpu)@ == op_subn(old(cpu)@, Rx as int, Ry as int),
    {
        if cpu.regs[Ry] > cpu.regs[Rx] {
            cpu.regs[0xF] = 1;
        } else {
            cpu.regs[0xF] = 0;
        }

        cpu.regs[Rx] = cpu.regs[Ry].wrapping_sub(cpu.regs[Rx]);
    }

    /// 8xyE: `VF` = high bit of Vx, then `Vx = Vx * 2`, wrapping.
    pub fn SHLVc(cpu: &mut CPU, Rx: usize)
        requires
            Rx < REGISTER_COUNT,
        ensures
            final(cpu)@ == op_shl(old(cpu)@, Rx as int),
    {
        let v = cpu.regs[Rx];
        assert((v & 0x80) != 0 <==> v >= 128) by (bit_vector);
        if (cpu.regs[Rx] & 0x80) != 0 {
            cpu.regs[0xF] = 1;
        } else {
            cpu.regs[0xF] = 0;
        }

        cpu.regs[Rx] = cpu.regs[Rx].wrapping_mul(2);
    }

    /// 9xy0: skips the next instruction if `Vx != Vy`.
    pub fn SNEVxVy(cpu: &mut CPU, Rx: usize, Ry: usize)
        requires
            Rx < REGISTER_COUNT,
            Ry < REGISTER_COUNT,
            old(cpu).regs[Rx as int] != old(cpu).regs[Ry as int] ==> can_skip(old(cpu).PC),
        ensures
            final(cpu)@ == skip_if(old(cpu)@, old(cpu)@.regs[Rx as int] != old(cpu)@.regs[Ry as int]),
    {
        if cpu.regs[Rx] != cpu.regs[Ry] {
            cpu.PC += 2;
        }
    }

    /// Annn: `I = nnn`.
    pub fn LDI(cpu: &mut CPU, payload: u16)
        ensures
            final(cpu)@ == (CpuState { index: payload, ..old(cpu)@ }),
    {
        cpu.index = payload;
    }

    /// Bnnn: jumps to `nnn + V0`.
    pub fn JPV0(cpu: &mut CPU, payload: u16)
        requires
            old(cpu).regs[0] + payload <= u16::MAX,
        ensures
            final(cpu)@ == op_jp_v0(old(cpu)@, payload),
    {
        let addr = cpu.regs[0] as u16 + payload;

        cpu.PC = addr;
    }

    /// Cxkk: `Vx` = a random byte `& kk`. Which byte was drawn is not
    /// known; every outcome is one of `op_rnd` for some byte.
    pub fn RNDVx(cpu: &mut CPU, Rx: usize, payload: u8)
        requires
            Rx < REGISTER_COUNT,
        ensures
            exists|r: u8| final(cpu)@ == #[trigger] op_rnd(old(cpu)@, Rx as int, payload, r),
    {
        let random_number: u8 = random_byte();
        CPU::RNDVx_with(cpu, Rx, payload, random_number);
    }

    /// Cxkk with the random byte given: `Vx = random_number & kk`.
    pub fn RNDVx_with(cpu: &mut CPU, Rx: usize, payload: u8, random_number: u8)
        requires
            Rx < REGISTER_COUNT,
        ensures
            final(cpu)@ == op_rnd(old(cpu)@, Rx as int, payload, random_number),
    {
        cpu.regs[Rx] = random_number & payload;
    }

    /// Dxyn: draws the `n` bytes at `I` at `(Vx, Vy)` and sets `VF` to
    /// whether a pixel was turned off.
    pub fn DRW(cpu: &mut CPU, memory: &[u8; MEMORY_SIZE], display: &mut Display, Rx: usize, Ry: usize, n: usize)
        requires
            Rx < REGISTER_COUNT,
            Ry < REGISTER_COUNT,
            old(cpu).index + n <= MEMORY_SIZE,
        ensures
            (final(cpu)@, final(display)@) == op_drw(old(cpu)@, memory@, old(display)@, Rx as int, Ry as int, n as int),
    {
        let sprite = &memory[cpu.index as usize..(cpu.index as usize + n)];

        let collision = display.draw_sprite(cpu.regs[Rx] as usize, cpu.regs[Ry] as usize, sprite);

        cpu.regs[0xF] = collision as u8;
    }

    /// Ex9E: skips the next instruction if key `Vx` is pressed.
    pub fn SKP(cpu: &mut CPU, keypad: &Keypad, Rx: usize)
        requires
            Rx < REGISTER_COUNT,
            old(cpu).regs[Rx as int] < KEY_COUNT,
            keypad@[old(cpu).regs[Rx as int] as int] ==> can_skip(old(cpu).PC),
        ensures
            final(cpu)@ == skip_if(old(cpu)@, keypad@[old(cpu)@.regs[Rx as int] as int]),
    {
        if keypad.is_pressed(cpu.regs[Rx] as usize) {
            cpu.PC += 2;
        }
    }

    /// ExA1: skips the next instruction if key `Vx` is not pressed.
    pub fn SKNP(cpu: &mut CPU, keypad: &Keypad, Rx: usize)
        requires
            Rx < REGISTER_COUNT,
            old(cpu).regs[Rx as int] < KEY_COUNT,
            !keypad@[old(cpu).regs[Rx as int] as int] ==> can_skip(old(cpu).PC),
        ensures
            final(cpu)@ == skip_if(old(cpu)@, !keypad@[old(cpu)@.regs[Rx as int] as int]),
    {
        if !keypad.is_pressed(cpu.regs[Rx] as usize) {
            cpu.PC += 2;
        }
    }

    /// Fx07: `Vx` = delay timer.
    pub fn LDVxDT(cpu: &mut CPU, Rx: usize)
        requires
            Rx < REGISTER_COUNT,
        ensures
            final(cpu)@ == set_reg(old(cpu)@, Rx as int, old(cpu)@.dt),
    {
        cpu.regs[Rx] = cpu.DT;
    }

    /// Fx0A: stores the lowest-numbered pressed key in `Vx` and stops
    /// waiting; with no key pressed, waits to fill `Vx`.
    pub fn LDVxK(cpu: &mut CPU, keypad: &Keypad, Rx: usize)
        requires
            Rx < REGISTER_COUNT || first_pressed_from(keypad@, 0) is None,
        ensures
            final(cpu)@ == op_ld_key(old(cpu)@, keypad@, Rx),
    {
        proof {
            keypad.lemma_len();
        }
        let mut i: usize = 0;
        while i < 16
            invariant
                i <= 16,
                Rx < REGISTER_COUNT || first_pressed_from(keypad@, 0) is None,
                keypad@.len() == KEY_COUNT,
                first_pressed_from(keypad@, 0) == first_pressed_from(keypad@, i as nat),
                cpu@ == old(cpu)@,
            decreases 16 - i,
        {
            if keypad.is_pressed(i) {
                cpu.regs[Rx] = i as u8;
                cpu.waiting = None;
                return;
            }
            i += 1;
        }
        cpu.waiting = Some(Rx);
    }

    /// Fx15: delay timer = `Vx`.
    pub fn LDDTVx(cpu: &mut CPU, Rx: usize)
        requires
            Rx < REGISTER_COUNT,
        ensures
            final(cpu)@ == (CpuState { dt: old(cpu)@.regs[Rx as int], ..old(cpu)@ }),
    {
        cpu.DT = cpu.regs[Rx];
    }

    /// Fx18: sound timer = `Vx`.
    pub fn LDSTVx(cpu: &mut CPU, Rx: usize)
        requires
            Rx < REGISTER_COUNT,
        ensures
            final(cpu)@ == (CpuState { st: old(cpu)@.regs[Rx as int], ..old(cpu)@ }),
    {
        cpu.ST = cpu.regs[Rx];
    }

    /// Fx1E: `I = I + Vx`.
    pub fn ADDIVx(cpu: &mut CPU, Rx: usize)
        requires
            Rx < REGISTER_COUNT,
            old(cpu).index + old(cpu).regs[Rx as int] <= u16::MAX,
        ensures
            final(cpu)@ == op_add_i(old(cpu)@, Rx as int),
    {
        cpu.index += cpu.regs[Rx] as u16;
    }

    /// Fx29: `I` = address of the font glyph of digit `Vx`; glyphs are five
    /// bytes each, from address 0x050.
    pub fn LDFVx(cpu: &mut CPU, Rx: usize)
        requires
            Rx < REGISTER_COUNT,
        ensures
            final(cpu)@ == op_ld_f(old(cpu)@, Rx as int),
    {
        cpu.index = 0x050 + (cpu.regs[Rx] as u16 * 5);
    }

    /// Fx33: stores the hundreds, tens and ones of `Vx` at `I`, `I + 1` and
    /// `I + 2`.
    pub fn LDBVx(cpu: &CPU, memory: &mut [u8; MEMORY_SIZE], Rx: usize)
        requires
            Rx < REGISTER_COUNT,
            cpu.index + 2 < MEMORY_SIZE,
        ensures
            final(memory)@ == store_bcd(old(memory)@, cpu.index as int, cpu.regs[Rx as int]),
    {
        let value = cpu.regs[Rx];
        memory[cpu.index as usize] = value / 100;
        memory[cpu.index as usize + 1] = (value / 10) % 10;
        memory[cpu.index as usize + 2] = value % 10;
    }

    /// Fx55: stores `V0` to `Vx` in memory from `I` on.
    pub fn LDIVx(cpu: &CPU, memory: &mut [u8; MEMORY_SIZE], Rx: usize)
        requires
            Rx < REGISTER_COUNT,
            cpu.index + Rx < MEMORY_SIZE,
        ensures
            final(memory)@ == store_regs(old(memory)@, cpu@, Rx as int),
    {
        let mut i: usize = 0;
        while i <= Rx
            invariant
                i <= Rx + 1,
                Rx < REGISTER_COUNT,
                cpu.index + Rx < MEMORY_SIZE,
                memory@.len() == MEMORY_SIZE,
                forall|a: int|
                    0 <= a < MEMORY_SIZE ==> #[trigger] memory@[a] == if cpu.index <= a < cpu.index + i {
                        cpu.regs[a - cpu.index]
                    } else {
                        old(memory)@[a]
                    },
            decreases Rx + 1 - i,
        {
            memory[cpu.index as usize + i] = cpu.regs[i];
            i += 1;
        }
        assert(memory@ =~= store_regs(old(memory)@, cpu@, Rx as int));
    }

    /// Fx65: loads `V0` to `Vx` from memory from `I` on.
    pub fn LDVxI(cpu: &mut CPU, memory: &[u8; MEMORY_SIZE], Rx: usize)
        requires
            Rx < REGISTER_COUNT,
            old(cpu).index + Rx < MEMORY_SIZE,
        ensures
            final(cpu)@ == op_load_regs(old(cpu)@, memory@, Rx as int),
    {
        let mut i: usize = 0;
        while i <= Rx
            invariant
                i <= Rx + 1,
                Rx < REGISTER_COUNT,
                cpu.index == old(cpu).index,
                cpu.index + Rx < MEMORY_SIZE,
                cpu@ == (CpuState { regs: cpu@.regs, ..old(cpu)@ }),
                cpu@.regs.len() == REGISTER_COUNT,
                forall|j: int|
                    0 <= j < REGISTER_COUNT ==> #[trigger] cpu@.regs[j] == if j < i {
                        memory@[cpu.index + j]
                    } else {
                        old(cpu)@.regs[j]
                    },
            decreases Rx + 1 - i,
        {
            cpu.regs[i] = memory[cpu.index as usize + i];
            i += 1;
        }
        assert(cpu@.regs =~= op_load_regs(old(cpu)@, memory@, Rx as int).regs);
    }

    /// Executes `opcode`: while waiting for a key only polls the keypad;
    /// otherwise runs the instruction it encodes, or fails with
    /// `Unknown Opcode: 0x....` and changes nothing if it encodes none the
    /// CPU executes. Every outcome is `step` for some random byte, which
    /// only `Cxkk` reads.
    pub fn execute(
        &mut self,
        opcode: u16,
        memory: &mut [u8; MEMORY_SIZE],
        display: &mut Display,
        keypad: &Keypad,
    ) -> (res: Result<(), String>)
        requires
            step_safe(old(self)@, keypad@, opcode),
        ensures
            exists|r: u8|
                (final(self)@, final(memory)@, final(display)@, res is Ok) == #[trigger] step(
                    old(self)@,
                    old(memory)@,
                    old(display)@,
                    keypad@,
                    opcode,
                    r,
                ),
            res matches Err(e) ==> e@ == unknown_opcode_message(opcode),
    {
        // If waiting for a key press, check the keypad and don't execute anything else
        if let Some(rx) = self.waiting {
            CPU::LDVxK(self, keypad, rx);
            assert((self@, memory@, display@, true) == step(old(self)@, old(memory)@, old(display)@, keypad@, opcode, 0u8));
            return Ok(());
        }

        let nnn = opcode & 0x0FFF;
        let nn = (opcode & 0x00FF) as u8;
        let n = (opcode & 0x000F) as u8;

        let x = ((opcode & 0x0F00) >> 8) as usize;
        let y = ((opcode & 0x00F0) >> 4) as usize;
        proof {
            lemma_opcode_fields(opcode);
            assert(!is_executable(opcode) ==> step(old(self)@, old(memory)@, old(display)@, keypad@, opcode, 0u8) == (
            old(self)@, old(memory)@, old(display)@, false));
        }
        let ghost mut r: u8 = 0;

        match opcode & 0xF000 {
            0x0000 => match opcode {
                0x00E0 => CPU::CLS(display),
                0x00EE => CPU::RET(self),
                _ => return Err(unknown_opcode(opcode)),
            },
            0x1000 => CPU::JP(self, nnn),
            0x2000 => CPU::CALL(self, nnn),
            0x3000 => CPU::SEVx(self, x, nn),
            0x4000 => CPU::SNEVx(self, x, nn),
            0x5000 => CPU::SEVxVy(self, x, y),
            0x6000 => CPU::LDVx(self, x, nn),
            0x7000 => CPU::ADDVx(self, x, nn),
            0x8000 => match opcode & 0x000F {
                0x0 => CPU::LDVxVy(self, x, y),
                0x1 => CPU::ORVxVy(self, x, y),
                0x2 => CPU::ANDVxVy(self, x, y),
                0x3 => CPU::XORVxVy(self, x, y),
                0x4 => CPU::CRRYADD(self, x, y),
                0x5 => CPU::BRWSUB(self, x, y),
                0x6 => CPU::SHRVc(self, x),
                0x7 => CPU::BRWSUB2(self, x, y),
                0xE => CPU::SHLVc(self, x),
                _ => return Err(unknown_opcode(opcode)),
            },
            0x9000 => CPU::SNEVxVy(self, x, y),
            0xA000 => CPU::LDI(self, nnn),
            0xB000 => CPU::JPV0(self, nnn),
            0xC000 => {
                CPU::RNDVx(self, x, nn);
                proof {
                    r = choose|b: u8| self@ == op_rnd(old(self)@, x as int, nn, b);
                }
            },
            0xD000 => CPU::DRW(self, memory, display, x, y, n as usize),
            0xE000 => match opcode & 0x00FF {
                0x9E => CPU::SKP(self, keypad, x),
                0xA1 => CPU::SKNP(self, keypad, x),
                _ => return Err(unknown_opcode(opcode)),
            },
            0xF000 => match opcode & 0x00FF {
                0x07 => CPU::LDVxDT(self, x),
                0x0A => CPU::LDVxK(self, keypad, x),
                0x15 => CPU::LDDTVx(self, x),
                0x18 => CPU::LDSTVx(self, x),
                0x1E => CPU::ADDIVx(self, x),
                0x29 => CPU::LDFVx(self, x),
                0x33 => CPU::LDBVx(self, memory, x),
                0x55 => CPU::LDIVx(self, memory, x),
                0x65 => CPU::LDVxI(self, memory, x),
                _ => return Err(unknown_opcode(opcode)),
            },
            _ => return Err(unknown_opcode(opcode)),
        }
        assert((self@, memory@, display@, true) == step(old(self)@, old(memory)@, old(display)@, keypad@, opcode, r));
        Ok(())
    }

    /// Whether some key is pressed.
    fn any_key_pressed(keypad: &Keypad) -> (b: bool)
        ensures
            b == (first_pressed_from(keypad@, 0) is Some),
    {
        proof {
            keypad.lemma_len();
        }
        let mut i: usize = 0;
        while i < KEY_COUNT
            invariant
                i <= KEY_COUNT,
                keypad@.len() == KEY_COUNT,
                first_pressed_from(keypad@, 0) == first_pressed_from(keypad@, i as nat),
            decreases KEY_COUNT - i,
        {
            if keypad.is_pressed(i) {
                return true;
            }
            i += 1;
        }
        false
    }

    /// Whether executing `opcode` now stays within the machine, so that
    /// `execute` may be called.
    pub fn step_is_safe(&self, opcode: u16, keypad: &Keypad) -> (b: bool)
        ensures
            b == step_safe(self@, keypad@, opcode),
    {
        proof {
            keypad.lemma_len();
        }
        if let Some(rx) = self.waiting {
            return rx < REGISTER_COUNT || !CPU::any_key_pressed(keypad);
        }
        let nnn = opcode & 0x0FFF;
        let nn = (opcode & 0x00FF) as u8;
        let n = (opcode & 0x000F) as u8;
        let x = ((opcode & 0x0F00) >> 8) as usize;
        let y = ((opcode & 0x00F0) >> 4) as usize;
        proof {
            lemma_opcode_fields(opcode);
        }
        let skip_ok = self.PC <= 0xFFFD;
        match opcode & 0xF000 {
            0x0000 => match opcode {
                0x00EE => 1 <= self.SP && (self.SP as usize) < STACK_SIZE,
                _ => true,
            },
            0x2000 => (self.SP as usize) + 1 < STACK_SIZE,
            0x3000 => self.regs[x] != nn || skip_ok,
            0x4000 => self.regs[x] == nn || skip_ok,
            0x5000 => self.regs[x] != self.regs[y] || skip_ok,
            0x9000 => self.regs[x] == self.regs[y] || skip_ok,
            0xD000 => (self.index as usize) + (n as usize) <= MEMORY_SIZE,
            0xE000 => match opcode & 0x00FF {
                0x9E => (self.regs[x] as usize) < KEY_COUNT && (!keypad.is_pressed(self.regs[x] as usize) || skip_ok),
                0xA1 => (self.regs[x] as usize) < KEY_COUNT && (keypad.is_pressed(self.regs[x] as usize) || skip_ok),
                _ => true,
            },
            0xF000 => match opcode & 0x00FF {
                0x1E => (self.index as usize) + (self.regs[x] as usize) <= u16::MAX as usize,
                0x33 => (self.index as usize) + 2 < MEMORY_SIZE,
                0x55 | 0x65 => (self.index as usize) + x < MEMORY_SIZE,
                _ => true,
            },
            _ => true,
        }
    }

} // impl CPU

} // verus!
