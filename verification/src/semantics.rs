use vstd::prelude::*;

use crate::cpu::{
    after_fetch, count_down_timers, decode, is_executable, op_shl, op_sub, op_subn, Instr, first_pressed_from, opcode_at, step, CpuState, MEMORY_SIZE,
    REGISTER_COUNT, STACK_SIZE,
};
use crate::display::{draw_row_cols, draw_rows, pixel_index, sprite_bit, draw_sprite_spec, BUFFER_SIZE, DISPLAY_HEIGHT, DISPLAY_WIDTH};
use crate::chip8::{tick_spec, Chip8State};
use crate::keypad::KEY_COUNT;

verus! {

// What each instruction does, stated over `step` (what `CPU::execute`
// ensures) in terms of the registers, memory and screen before and after.

/// A CPU that is not waiting for a key, with memory, screen and keypad of
/// their sizes.
pub open spec fn ready(s: CpuState, mem: Seq<u8>, disp: Seq<bool>, keys: Seq<bool>) -> bool {
    &&& s.waiting is None
    &&& s.regs.len() == REGISTER_COUNT
    &&& s.stack.len() == STACK_SIZE
    &&& mem.len() == MEMORY_SIZE
    &&& disp.len() == BUFFER_SIZE
    &&& keys.len() == KEY_COUNT
}

/// `c` agrees with `s` on everything but the registers.
pub open spec fn only_regs_differ(c: CpuState, s: CpuState) -> bool {
    &&& c.index == s.index
    &&& c.pc == s.pc
    &&& c.sp == s.sp
    &&& c.stack == s.stack
    &&& c.dt == s.dt
    &&& c.st == s.st
    &&& c.waiting == s.waiting
}

/// The registers of `c` other than `a` and `b` are those of `s`.
pub open spec fn regs_kept_except(c: CpuState, s: CpuState, a: int, b: int) -> bool {
    &&& c.regs.len() == REGISTER_COUNT
    &&& forall|i: int| 0 <= i < REGISTER_COUNT && i != a && i != b ==> #[trigger] c.regs[i] == s.regs[i]
}

/// The register named by the second hex digit of an opcode.
pub open spec fn op_x(op: u16) -> int {
    (op / 0x100) as int % 16
}

/// The register named by the third hex digit of an opcode.
pub open spec fn op_y(op: u16) -> int {
    (op / 0x10) as int % 16
}

/// 2nnn succeeds, pushes the address of the next instruction one slot up
/// the stack and jumps to `nnn`, leaving everything else alone.
pub proof fn law_call(s: CpuState, mem: Seq<u8>, disp: Seq<bool>, keys: Seq<bool>, op: u16, r: u8)
    requires
        ready(s, mem, disp, keys),
        0x2000 <= op < 0x3000,
        s.sp + 1 < STACK_SIZE,
    ensures
        ({
            let (c, m, d, ok) = step(s, mem, disp, keys, op, r);
            &&& ok
            &&& c.pc == op - 0x2000
            &&& c.sp == s.sp + 1
            &&& c.stack.len() == STACK_SIZE
            &&& c.stack[s.sp + 1] == s.pc
            &&& forall|j: int| 0 <= j < STACK_SIZE && j != s.sp + 1 ==> #[trigger] c.stack[j] == s.stack[j]
            &&& c.regs == s.regs && c.index == s.index && c.dt == s.dt && c.st == s.st
            &&& m == mem && d == disp
        }),
{
}

/// 2nnn followed by 00EE comes back to the instruction after the call with
/// the stack pointer as before.
pub proof fn law_call_then_return(s: CpuState, mem: Seq<u8>, disp: Seq<bool>, keys: Seq<bool>, op: u16, r1: u8, r2: u8)
    requires
        ready(s, mem, disp, keys),
        0x2000 <= op < 0x3000,
        s.sp + 1 < STACK_SIZE,
    ensures
        ({
            let (c1, m1, d1, ok1) = step(s, mem, disp, keys, op, r1);
            let (c2, m2, d2, ok2) = step(c1, m1, d1, keys, 0x00EE, r2);
            &&& ok1 && ok2
            &&& c2.pc == s.pc
            &&& c2.sp == s.sp
            &&& c2.regs == s.regs
        }),
{
}

/// 00EE succeeds, jumps to the address on top of the stack and pops it.
pub proof fn law_return(s: CpuState, mem: Seq<u8>, disp: Seq<bool>, keys: Seq<bool>, r: u8)
    requires
        ready(s, mem, disp, keys),
        1 <= s.sp < STACK_SIZE,
    ensures
        ({
            let (c, m, d, ok) = step(s, mem, disp, keys, 0x00EE, r);
            &&& ok
            &&& c.pc == s.stack[s.sp as int]
            &&& c.sp == s.sp - 1
            &&& c.stack == s.stack && c.regs == s.regs && c.index == s.index
            &&& m == mem && d == disp
        }),
{
}

/// 1nnn jumps to `nnn` and changes nothing else.
pub proof fn law_jump(s: CpuState, mem: Seq<u8>, disp: Seq<bool>, keys: Seq<bool>, op: u16, r: u8)
    requires
        ready(s, mem, disp, keys),
        0x1000 <= op < 0x2000,
    ensures
        ({
            let (c, m, d, ok) = step(s, mem, disp, keys, op, r);
            &&& ok
            &&& c.pc == op - 0x1000
            &&& c.sp == s.sp && c.stack == s.stack && c.regs == s.regs && c.index == s.index
            &&& m == mem && d == disp
        }),
{
}

/// Dxyn draws the `n` bytes at `I` with their left edge at column `Vx` and
/// their top at row `Vy`, and sets `VF` to whether a pixel was turned off.
pub proof fn law_draw(s: CpuState, mem: Seq<u8>, disp: Seq<bool>, keys: Seq<bool>, op: u16, r: u8)
    requires
        ready(s, mem, disp, keys),
        0xD000 <= op <= 0xDFFF,
        s.index + op % 16 <= MEMORY_SIZE,
    ensures
        ({
            let (c, m, d, ok) = step(s, mem, disp, keys, op, r);
            let (drawn, collision) = draw_sprite_spec(
                disp,
                s.regs[op_x(op)] as int,
                s.regs[op_y(op)] as int,
                mem.subrange(s.index as int, s.index + op % 16),
            );
            &&& ok
            &&& d == drawn
            &&& c.regs[15] == (if collision { 1u8 } else { 0u8 })
            &&& regs_kept_except(c, s, 15, 15)
            &&& only_regs_differ(c, s)
            &&& m == mem
        }),
{
}

/// A one-row sprite whose only set bit is the leftmost flips exactly the
/// pixel in column `x mod 64` of row `y mod 32`, and collides exactly when
/// that pixel was on.
pub proof fn law_single_pixel_sprite(screen: Seq<bool>, x: int, y: int)
    requires
        screen.len() == BUFFER_SIZE,
    ensures
        ({
            let (drawn, collision) = draw_sprite_spec(screen, x, y, seq![0x80u8]);
            let p = (y % (DISPLAY_HEIGHT as int)) * (DISPLAY_WIDTH as int) + x % (DISPLAY_WIDTH as int);
            &&& drawn.len() == BUFFER_SIZE
            &&& forall|q: int| 0 <= q < BUFFER_SIZE ==> #[trigger] drawn[q] == if q == p {
                !screen[q]
            } else {
                screen[q]
            }
            &&& collision == screen[p]
        }),
{
    let h = DISPLAY_HEIGHT as int;
    let w = DISPLAY_WIDTH as int;
    assert(0x80u8 & (0x80u8 >> 0u8) != 0) by (bit_vector);
    assert(0x80u8 & (0x80u8 >> 1u8) == 0) by (bit_vector);
    assert(0x80u8 & (0x80u8 >> 2u8) == 0) by (bit_vector);
    assert(0x80u8 & (0x80u8 >> 3u8) == 0) by (bit_vector);
    assert(0x80u8 & (0x80u8 >> 4u8) == 0) by (bit_vector);
    assert(0x80u8 & (0x80u8 >> 5u8) == 0) by (bit_vector);
    assert(0x80u8 & (0x80u8 >> 6u8) == 0) by (bit_vector);
    assert(0x80u8 & (0x80u8 >> 7u8) == 0) by (bit_vector);
    assert(sprite_bit(0x80u8, 0));
    assert(!sprite_bit(0x80u8, 1));
    assert(!sprite_bit(0x80u8, 2));
    assert(!sprite_bit(0x80u8, 3));
    assert(!sprite_bit(0x80u8, 4));
    assert(!sprite_bit(0x80u8, 5));
    assert(!sprite_bit(0x80u8, 6));
    assert(!sprite_bit(0x80u8, 7));
    assert((y + 1 - 1) % h == y % h);
    vstd::arithmetic::div_mod::lemma_mod_bound(y, h);
    vstd::arithmetic::div_mod::lemma_mod_bound(x, w);
    vstd::arithmetic::div_mod::lemma_add_mod_noop(x, 0, w);
    let p = (y % h) * w + x % w;
    let sprite = seq![0x80u8];
    let b0 = draw_rows(screen, x, y, sprite, 0).0;
    assert(b0 == screen);
    assert(sprite[0] == 0x80u8);
    assert(draw_row_cols(screen, x, y % h, 0x80u8, 0) == (screen, false));
    assert(pixel_index(x, y % h, 0) == p);
    assert(draw_row_cols(screen, x, y % h, 0x80u8, 1) == (screen.update(p, !screen[p]), screen[p]));
    assert(draw_row_cols(screen, x, y % h, 0x80u8, 2) == draw_row_cols(screen, x, y % h, 0x80u8, 1));
    assert(draw_row_cols(screen, x, y % h, 0x80u8, 3) == draw_row_cols(screen, x, y % h, 0x80u8, 1));
    assert(draw_row_cols(screen, x, y % h, 0x80u8, 4) == draw_row_cols(screen, x, y % h, 0x80u8, 1));
    assert(draw_row_cols(screen, x, y % h, 0x80u8, 5) == draw_row_cols(screen, x, y % h, 0x80u8, 1));
    assert(draw_row_cols(screen, x, y % h, 0x80u8, 6) == draw_row_cols(screen, x, y % h, 0x80u8, 1));
    assert(draw_row_cols(screen, x, y % h, 0x80u8, 7) == draw_row_cols(screen, x, y % h, 0x80u8, 1));
    assert(draw_row_cols(screen, x, y % h, 0x80u8, 8) == draw_row_cols(screen, x, y % h, 0x80u8, 1));
    assert(draw_sprite_spec(screen, x, y, sprite) == (screen.update(p, !screen[p]), screen[p]));
}

/// Dxy1 with a sprite byte whose only set bit is the leftmost flips exactly
/// the pixel in column `Vx mod 64` of row `Vy mod 32`, and sets `VF` to
/// whether that pixel was on.
pub proof fn law_draw_single_pixel(s: CpuState, mem: Seq<u8>, disp: Seq<bool>, keys: Seq<bool>, op: u16, r: u8)
    requires
        ready(s, mem, disp, keys),
        0xD000 <= op <= 0xDFFF,
        op % 16 == 1,
        s.index + 1 <= MEMORY_SIZE,
        mem[s.index as int] == 0x80,
    ensures
        ({
            let (c, m, d, ok) = step(s, mem, disp, keys, op, r);
            let p = (s.regs[op_y(op)] % 32) * 64 + s.regs[op_x(op)] % 64;
            &&& ok
            &&& d.len() == BUFFER_SIZE
            &&& forall|q: int| 0 <= q < BUFFER_SIZE ==> #[trigger] d[q] == if q == p {
                !disp[q]
            } else {
                disp[q]
            }
            &&& c.regs[15] == (if disp[p] { 1u8 } else { 0u8 })
        }),
{
    law_draw(s, mem, disp, keys, op, r);
    let sprite = mem.subrange(s.index as int, s.index + 1);
    assert(sprite =~= seq![0x80u8]);
    law_single_pixel_sprite(disp, s.regs[op_x(op)] as int, s.regs[op_y(op)] as int);
}

/// 8xy6 with `x` other than `F`: `Vx` is halved, rounding down, and `VF`
/// holds the bit shifted out, so twice the new `Vx` plus `VF` is the old
/// `Vx`.
pub proof fn law_shift_right(s: CpuState, mem: Seq<u8>, disp: Seq<bool>, keys: Seq<bool>, op: u16, r: u8)
    requires
        ready(s, mem, disp, keys),
        0x8000 <= op <= 0x8FFF,
        op % 16 == 6,
        op_x(op) != 15,
    ensures
        ({
            let (c, m, d, ok) = step(s, mem, disp, keys, op, r);
            let x = op_x(op);
            &&& ok
            &&& c.regs[x] == s.regs[x] / 2
            &&& c.regs[x] < 128
            &&& 2 * c.regs[x] + c.regs[15] == s.regs[x]
            &&& regs_kept_except(c, s, x, 15)
            &&& only_regs_differ(c, s)
            &&& m == mem && d == disp
        }),
{
}

/// Fx1E adds `Vx` to `I` and changes nothing else.
pub proof fn law_add_to_index(s: CpuState, mem: Seq<u8>, disp: Seq<bool>, keys: Seq<bool>, op: u16, r: u8)
    requires
        ready(s, mem, disp, keys),
        0xF000 <= op,
        op % 0x100 == 0x1E,
        s.index + s.regs[op_x(op)] <= u16::MAX,
    ensures
        ({
            let (c, m, d, ok) = step(s, mem, disp, keys, op, r);
            &&& ok
            &&& c.index == s.index + s.regs[op_x(op)]
            &&& c.regs == s.regs && c.pc == s.pc && c.sp == s.sp && c.stack == s.stack
            &&& m == mem && d == disp
        }),
{
}

/// One timer tick counts each timer down by one, stopping at zero, each
/// independently of the other.
pub proof fn law_timer_tick(s: CpuState)
    ensures
        count_down_timers(s).dt == if s.dt > 0 { s.dt - 1 } else { 0 },
        count_down_timers(s).st == if s.st > 0 { s.st - 1 } else { 0 },
        count_down_timers(s).regs == s.regs,
        count_down_timers(s).pc == s.pc,
        count_down_timers(s).index == s.index,
{
}


/// The CPU after `n` timer ticks and nothing else.
pub open spec fn after_timer_ticks(s: CpuState, n: nat) -> CpuState
    decreases n,
{
    if n == 0 {
        s
    } else {
        count_down_timers(after_timer_ticks(s, (n - 1) as nat))
    }
}

/// A tone started with `ST = k` sounds for exactly `k` ticks: after `n`
/// ticks each timer holds its old value less `n`, or zero once it has run
/// out, whatever the other timer does.
pub proof fn law_timers_run_out(s: CpuState, n: nat)
    ensures
        after_timer_ticks(s, n).st == if s.st >= n { s.st - n } else { 0 },
        after_timer_ticks(s, n).dt == if s.dt >= n { s.dt - n } else { 0 },
        after_timer_ticks(s, n).regs == s.regs,
        after_timer_ticks(s, n).pc == s.pc,
    decreases n,
{
    if n > 0 {
        law_timers_run_out(s, (n - 1) as nat);
    }
}


/// 00E0 turns every pixel off and changes nothing else.
pub proof fn law_clear(s: CpuState, mem: Seq<u8>, disp: Seq<bool>, keys: Seq<bool>, r: u8)
    requires
        ready(s, mem, disp, keys),
    ensures
        ({
            let (c, m, d, ok) = step(s, mem, disp, keys, 0x00E0, r);
            &&& ok
            &&& d.len() == BUFFER_SIZE
            &&& forall|p: int| 0 <= p < BUFFER_SIZE ==> !#[trigger] d[p]
            &&& c == s && m == mem
        }),
{
}

/// 3xkk skips the next instruction exactly when `Vx == kk`, and changes
/// nothing else.
pub proof fn law_skip_equal_byte(s: CpuState, mem: Seq<u8>, disp: Seq<bool>, keys: Seq<bool>, op: u16, r: u8)
    requires
        ready(s, mem, disp, keys),
        0x3000 <= op < 0x4000,
        s.pc <= 0xFFFD,
    ensures
        ({
            let (c, m, d, ok) = step(s, mem, disp, keys, op, r);
            &&& ok
            &&& c.pc == if s.regs[op_x(op)] == op % 256 { s.pc + 2 } else { s.pc as int }
            &&& c.regs == s.regs && c.index == s.index && c.sp == s.sp && c.stack == s.stack
            &&& m == mem && d == disp
        }),
{
}

/// 4xkk skips the next instruction exactly when `Vx != kk`.
pub proof fn law_skip_unequal_byte(s: CpuState, mem: Seq<u8>, disp: Seq<bool>, keys: Seq<bool>, op: u16, r: u8)
    requires
        ready(s, mem, disp, keys),
        0x4000 <= op < 0x5000,
        s.pc <= 0xFFFD,
    ensures
        ({
            let (c, m, d, ok) = step(s, mem, disp, keys, op, r);
            &&& ok
            &&& c.pc == if s.regs[op_x(op)] != op % 256 { s.pc + 2 } else { s.pc as int }
            &&& c.regs == s.regs && c.index == s.index && c.sp == s.sp && c.stack == s.stack
            &&& m == mem && d == disp
        }),
{
}

/// 5xy0 skips the next instruction exactly when `Vx == Vy`.
pub proof fn law_skip_equal_regs(s: CpuState, mem: Seq<u8>, disp: Seq<bool>, keys: Seq<bool>, op: u16, r: u8)
    requires
        ready(s, mem, disp, keys),
        0x5000 <= op < 0x6000,
        s.pc <= 0xFFFD,
    ensures
        ({
            let (c, m, d, ok) = step(s, mem, disp, keys, op, r);
            &&& ok
            &&& c.pc == if s.regs[op_x(op)] == s.regs[op_y(op)] { s.pc + 2 } else { s.pc as int }
            &&& c.regs == s.regs && c.index == s.index && c.sp == s.sp && c.stack == s.stack
            &&& m == mem && d == disp
        }),
{
}

/// 9xy0 skips the next instruction exactly when `Vx != Vy`.
pub proof fn law_skip_unequal_regs(s: CpuState, mem: Seq<u8>, disp: Seq<bool>, keys: Seq<bool>, op: u16, r: u8)
    requires
        ready(s, mem, disp, keys),
        0x9000 <= op < 0xA000,
        s.pc <= 0xFFFD,
    ensures
        ({
            let (c, m, d, ok) = step(s, mem, disp, keys, op, r);
            &&& ok
            &&& c.pc == if s.regs[op_x(op)] != s.regs[op_y(op)] { s.pc + 2 } else { s.pc as int }
            &&& c.regs == s.regs && c.index == s.index && c.sp == s.sp && c.stack == s.stack
            &&& m == mem && d == disp
        }),
{
}

/// Ex9E skips the next instruction exactly when key `Vx` is pressed, and
/// ExA1 exactly when it is not.
pub proof fn law_skip_on_key(s: CpuState, mem: Seq<u8>, disp: Seq<bool>, keys: Seq<bool>, op: u16, r: u8)
    requires
        ready(s, mem, disp, keys),
        0xE000 <= op < 0xF000,
        op % 256 == 0x9E || op % 256 == 0xA1,
        s.regs[op_x(op)] < KEY_COUNT,
        s.pc <= 0xFFFD,
    ensures
        ({
            let (c, m, d, ok) = step(s, mem, disp, keys, op, r);
            let pressed = keys[s.regs[op_x(op)] as int];
            let skip = if op % 256 == 0x9E { pressed } else { !pressed };
            &&& ok
            &&& c.pc == if skip { s.pc + 2 } else { s.pc as int }
            &&& c.regs == s.regs && c.index == s.index && c.sp == s.sp && c.stack == s.stack
            &&& m == mem && d == disp
        }),
{
}

/// 6xkk sets `Vx` to `kk` and leaves the other registers alone.
pub proof fn law_load_byte(s: CpuState, mem: Seq<u8>, disp: Seq<bool>, keys: Seq<bool>, op: u16, r: u8)
    requires
        ready(s, mem, disp, keys),
        0x6000 <= op < 0x7000,
    ensures
        ({
            let (c, m, d, ok) = step(s, mem, disp, keys, op, r);
            &&& ok
            &&& c.regs[op_x(op)] == op % 256
            &&& regs_kept_except(c, s, op_x(op), op_x(op))
            &&& only_regs_differ(c, s)
            &&& m == mem && d == disp
        }),
{
}

/// 7xkk adds `kk` to `Vx` modulo 256 and leaves every other register,
/// `VF` included, alone.
pub proof fn law_add_byte(s: CpuState, mem: Seq<u8>, disp: Seq<bool>, keys: Seq<bool>, op: u16, r: u8)
    requires
        ready(s, mem, disp, keys),
        0x7000 <= op < 0x8000,
    ensures
        ({
            let (c, m, d, ok) = step(s, mem, disp, keys, op, r);
            &&& ok
            &&& c.regs[op_x(op)] == (s.regs[op_x(op)] + op % 256) % 256
            &&& regs_kept_except(c, s, op_x(op), op_x(op))
            &&& only_regs_differ(c, s)
            &&& m == mem && d == disp
        }),
{
}

/// 8xy0 to 8xy3 set `Vx` to `Vy`, `Vx | Vy`, `Vx & Vy` and `Vx ^ Vy`, and
/// leave the other registers alone.
pub proof fn law_logic(s: CpuState, mem: Seq<u8>, disp: Seq<bool>, keys: Seq<bool>, op: u16, r: u8)
    requires
        ready(s, mem, disp, keys),
        0x8000 <= op < 0x9000,
        op % 16 <= 3,
    ensures
        ({
            let (c, m, d, ok) = step(s, mem, disp, keys, op, r);
            let vx = s.regs[op_x(op)];
            let vy = s.regs[op_y(op)];
            &&& ok
            &&& c.regs[op_x(op)] == if op % 16 == 0 {
                vy
            } else if op % 16 == 1 {
                vx | vy
            } else if op % 16 == 2 {
                vx & vy
            } else {
                vx ^ vy
            }
            &&& regs_kept_except(c, s, op_x(op), op_x(op))
            &&& only_regs_differ(c, s)
            &&& m == mem && d == disp
        }),
{
}

/// 8xy4 with `x` other than `F`: the new `Vx` plus 256 times the carry in
/// `VF` is the old `Vx` plus `Vy`.
pub proof fn law_add_regs(s: CpuState, mem: Seq<u8>, disp: Seq<bool>, keys: Seq<bool>, op: u16, r: u8)
    requires
        ready(s, mem, disp, keys),
        0x8000 <= op < 0x9000,
        op % 16 == 4,
        op_x(op) != 15,
    ensures
        ({
            let (c, m, d, ok) = step(s, mem, disp, keys, op, r);
            &&& ok
            &&& c.regs[15] <= 1
            &&& c.regs[op_x(op)] + 256 * c.regs[15] == s.regs[op_x(op)] + s.regs[op_y(op)]
            &&& regs_kept_except(c, s, op_x(op), 15)
            &&& only_regs_differ(c, s)
            &&& m == mem && d == disp
        }),
{
}

/// 8xy5 with `x`, `y` other than `F`: `VF` is 1 exactly when `Vx > Vy`, and
/// the new `Vx` plus `Vy` is the old `Vx` modulo 256.
pub proof fn law_subtract(s: CpuState, mem: Seq<u8>, disp: Seq<bool>, keys: Seq<bool>, op: u16, r: u8)
    requires
        ready(s, mem, disp, keys),
        0x8000 <= op < 0x9000,
        op % 16 == 5,
        op_x(op) != 15,
        op_y(op) != 15,
    ensures
        ({
            let (c, m, d, ok) = step(s, mem, disp, keys, op, r);
            let vx = s.regs[op_x(op)];
            let vy = s.regs[op_y(op)];
            &&& ok
            &&& c.regs[15] == (if vx > vy { 1u8 } else { 0u8 })
            &&& (c.regs[op_x(op)] + vy) % 256 == vx
            &&& regs_kept_except(c, s, op_x(op), 15)
            &&& only_regs_differ(c, s)
            &&& m == mem && d == disp
        }),
{
    let x = op_x(op);
    let y = op_y(op);
    let vx = s.regs[x];
    let vy = s.regs[y];
    assert(decode(op) == Instr::Sub(x as usize, y as usize));
    let c = op_sub(s, x, y);
    assert(step(s, mem, disp, keys, op, r) == (c, mem, disp, true));
    let diff = (vx - vy) % 256;
    assert(c.regs[x] == diff);
    assert((diff + vy) % 256 == vx) by {
        vstd::arithmetic::div_mod::lemma_add_mod_noop(vx - vy, vy as int, 256);
        vstd::arithmetic::div_mod::lemma_small_mod(vy as nat, 256);
        vstd::arithmetic::div_mod::lemma_small_mod(vx as nat, 256);
    }
}

/// 8xy7 with `x`, `y` other than `F`: `VF` is 1 exactly when `Vy > Vx`, and
/// the new `Vx` plus the old `Vx` is `Vy` modulo 256.
pub proof fn law_subtract_reversed(s: CpuState, mem: Seq<u8>, disp: Seq<bool>, keys: Seq<bool>, op: u16, r: u8)
    requires
        ready(s, mem, disp, keys),
        0x8000 <= op < 0x9000,
        op % 16 == 7,
        op_x(op) != 15,
        op_y(op) != 15,
    ensures
        ({
            let (c, m, d, ok) = step(s, mem, disp, keys, op, r);
            let vx = s.regs[op_x(op)];
            let vy = s.regs[op_y(op)];
            &&& ok
            &&& c.regs[15] == (if vy > vx { 1u8 } else { 0u8 })
            &&& (c.regs[op_x(op)] + vx) % 256 == vy
            &&& regs_kept_except(c, s, op_x(op), 15)
            &&& only_regs_differ(c, s)
            &&& m == mem && d == disp
        }),
{
    let x = op_x(op);
    let y = op_y(op);
    let vx = s.regs[x];
    let vy = s.regs[y];
    assert(decode(op) == Instr::Subn(x as usize, y as usize));
    let c = op_subn(s, x, y);
    assert(step(s, mem, disp, keys, op, r) == (c, mem, disp, true));
    let diff = (vy - vx) % 256;
    assert(c.regs[x] == diff);
    assert((diff + vx) % 256 == vy) by {
        vstd::arithmetic::div_mod::lemma_add_mod_noop(vy - vx, vx as int, 256);
        vstd::arithmetic::div_mod::lemma_small_mod(vx as nat, 256);
        vstd::arithmetic::div_mod::lemma_small_mod(vy as nat, 256);
    }
}

/// 8xyE with `x` other than `F`: `Vx` is doubled modulo 256 and `VF` holds
/// the bit shifted out, so the new `Vx` plus 256 times `VF` is twice the
/// old `Vx`.
pub proof fn law_shift_left(s: CpuState, mem: Seq<u8>, disp: Seq<bool>, keys: Seq<bool>, op: u16, r: u8)
    requires
        ready(s, mem, disp, keys),
        0x8000 <= op < 0x9000,
        op % 16 == 0xE,
        op_x(op) != 15,
    ensures
        ({
            let (c, m, d, ok) = step(s, mem, disp, keys, op, r);
            &&& ok
            &&& c.regs[15] <= 1
            &&& c.regs[op_x(op)] + 256 * c.regs[15] == 2 * s.regs[op_x(op)]
            &&& regs_kept_except(c, s, op_x(op), 15)
            &&& only_regs_differ(c, s)
            &&& m == mem && d == disp
        }),
{
    let x = op_x(op);
    let v = s.regs[x];
    assert(decode(op) == Instr::Shl(x as usize));
    let c = op_shl(s, x);
    assert(step(s, mem, disp, keys, op, r) == (c, mem, disp, true));
    assert(c.regs[x] == (v * 2) % 256);
    assert(c.regs[15] == (if v >= 128 { 1u8 } else { 0u8 }));
}

/// Annn sets `I` to `nnn` and changes nothing else.
pub proof fn law_load_index(s: CpuState, mem: Seq<u8>, disp: Seq<bool>, keys: Seq<bool>, op: u16, r: u8)
    requires
        ready(s, mem, disp, keys),
        0xA000 <= op < 0xB000,
    ensures
        ({
            let (c, m, d, ok) = step(s, mem, disp, keys, op, r);
            &&& ok
            &&& c.index == op - 0xA000
            &&& c.regs == s.regs && c.pc == s.pc && c.sp == s.sp && c.stack == s.stack
            &&& m == mem && d == disp
        }),
{
}

/// Bnnn jumps to `nnn + V0`.
pub proof fn law_jump_offset(s: CpuState, mem: Seq<u8>, disp: Seq<bool>, keys: Seq<bool>, op: u16, r: u8)
    requires
        ready(s, mem, disp, keys),
        0xB000 <= op < 0xC000,
    ensures
        ({
            let (c, m, d, ok) = step(s, mem, disp, keys, op, r);
            &&& ok
            &&& c.pc == s.regs[0] + (op - 0xB000)
            &&& c.regs == s.regs && c.index == s.index && c.sp == s.sp && c.stack == s.stack
            &&& m == mem && d == disp
        }),
{
}

/// Cxkk with random byte `r` sets `Vx` to `r & kk`: no bit outside `kk` is
/// set, and every bit of `kk` comes from `r`.
pub proof fn law_random(s: CpuState, mem: Seq<u8>, disp: Seq<bool>, keys: Seq<bool>, op: u16, r: u8)
    requires
        ready(s, mem, disp, keys),
        0xC000 <= op < 0xD000,
    ensures
        ({
            let (c, m, d, ok) = step(s, mem, disp, keys, op, r);
            let kk = (op % 256) as u8;
            &&& ok
            &&& c.regs[op_x(op)] == r & kk
            &&& c.regs[op_x(op)] & !kk == 0
            &&& regs_kept_except(c, s, op_x(op), op_x(op))
            &&& only_regs_differ(c, s)
            &&& m == mem && d == disp
        }),
{
    let kk = (op % 256) as u8;
    assert((r & kk) & !kk == 0) by (bit_vector);
}

/// Fx07 copies the delay timer into `Vx`; Fx15 and Fx18 copy `Vx` into the
/// delay and the sound timer.
pub proof fn law_timer_moves(s: CpuState, mem: Seq<u8>, disp: Seq<bool>, keys: Seq<bool>, op: u16, r: u8)
    requires
        ready(s, mem, disp, keys),
        0xF000 <= op,
        op % 256 == 0x07 || op % 256 == 0x15 || op % 256 == 0x18,
    ensures
        ({
            let (c, m, d, ok) = step(s, mem, disp, keys, op, r);
            let x = op_x(op);
            &&& ok
            &&& op % 256 == 0x07 ==> c.regs[x] == s.dt && regs_kept_except(c, s, x, x) && only_regs_differ(c, s)
            &&& op % 256 == 0x15 ==> c.dt == s.regs[x] && c.st == s.st && c.regs == s.regs
            &&& op % 256 == 0x18 ==> c.st == s.regs[x] && c.dt == s.dt && c.regs == s.regs
            &&& c.pc == s.pc && c.index == s.index
            &&& m == mem && d == disp
        }),
{
}

/// Fx0A with a key pressed stores the lowest-numbered pressed key in `Vx`
/// and does not wait; with no key pressed it waits on `x` and changes no
/// register.
pub proof fn law_wait_for_key(s: CpuState, mem: Seq<u8>, disp: Seq<bool>, keys: Seq<bool>, op: u16, r: u8)
    requires
        ready(s, mem, disp, keys),
        0xF000 <= op,
        op % 256 == 0x0A,
    ensures
        ({
            let (c, m, d, ok) = step(s, mem, disp, keys, op, r);
            let x = op_x(op);
            &&& ok
            &&& m == mem && d == disp
            &&& c.pc == s.pc && c.index == s.index
            &&& (forall|k: int| 0 <= k < KEY_COUNT ==> !#[trigger] keys[k]) ==> (c.waiting == Some(x as usize)
                && c.regs == s.regs)
            &&& forall|k: int|
                0 <= k < KEY_COUNT && #[trigger] keys[k] && (forall|j: int| 0 <= j < k ==> !keys[j]) ==> (
                c.regs[x] == k && c.waiting is None && regs_kept_except(c, s, x, x))
        }),
{
    let x = op_x(op);
    let (c, m, d, ok) = step(s, mem, disp, keys, op, r);
    if forall|k: int| 0 <= k < KEY_COUNT ==> !#[trigger] keys[k] {
        lemma_none_pressed(keys, 0);
    }
    assert forall|k: int|
        0 <= k < KEY_COUNT && #[trigger] keys[k] && (forall|j: int| 0 <= j < k ==> !keys[j]) implies (c.regs[x]
        == k && c.waiting is None && regs_kept_except(c, s, x, x)) by {
        lemma_first_pressed(keys, 0, k);
    }
}

proof fn lemma_none_pressed(keys: Seq<bool>, i: nat)
    requires
        keys.len() == KEY_COUNT,
        forall|k: int| 0 <= k < KEY_COUNT ==> !#[trigger] keys[k],
    ensures
        first_pressed_from(keys, i) is None,
    decreases KEY_COUNT - i,
{
    if i < KEY_COUNT {
        lemma_none_pressed(keys, i + 1);
    }
}

proof fn lemma_first_pressed(keys: Seq<bool>, i: nat, k: int)
    requires
        keys.len() == KEY_COUNT,
        i <= k < KEY_COUNT,
        keys[k],
        forall|j: int| 0 <= j < k ==> !keys[j],
    ensures
        first_pressed_from(keys, i) == Some(k as nat),
    decreases k - i,
{
    if i < k {
        lemma_first_pressed(keys, i + 1, k);
    }
}

/// Fx29 points `I` at five times `Vx` past the start of the font.
pub proof fn law_font_glyph(s: CpuState, mem: Seq<u8>, disp: Seq<bool>, keys: Seq<bool>, op: u16, r: u8)
    requires
        ready(s, mem, disp, keys),
        0xF000 <= op,
        op % 256 == 0x29,
    ensures
        ({
            let (c, m, d, ok) = step(s, mem, disp, keys, op, r);
            &&& ok
            &&& c.index == 0x050 + 5 * s.regs[op_x(op)]
            &&& c.regs == s.regs && c.pc == s.pc
            &&& m == mem && d == disp
        }),
{
}

/// Fx33 writes the hundreds, tens and ones of `Vx` at `I`, `I + 1` and
/// `I + 2` and no other byte.
pub proof fn law_decimal_digits(s: CpuState, mem: Seq<u8>, disp: Seq<bool>, keys: Seq<bool>, op: u16, r: u8)
    requires
        ready(s, mem, disp, keys),
        0xF000 <= op,
        op % 256 == 0x33,
        s.index + 2 < MEMORY_SIZE,
    ensures
        ({
            let (c, m, d, ok) = step(s, mem, disp, keys, op, r);
            let i = s.index as int;
            &&& ok
            &&& m.len() == MEMORY_SIZE
            &&& m[i] < 10 && m[i + 1] < 10 && m[i + 2] < 10
            &&& 100 * m[i] + 10 * m[i + 1] + m[i + 2] == s.regs[op_x(op)]
            &&& forall|a: int| 0 <= a < MEMORY_SIZE && (a < i || a > i + 2) ==> #[trigger] m[a] == mem[a]
            &&& c == s && d == disp
        }),
{
}

/// Fx55 writes `V0` to `Vx` to memory from `I` on and no other byte.
pub proof fn law_store_registers(s: CpuState, mem: Seq<u8>, disp: Seq<bool>, keys: Seq<bool>, op: u16, r: u8)
    requires
        ready(s, mem, disp, keys),
        0xF000 <= op,
        op % 256 == 0x55,
        s.index + op_x(op) < MEMORY_SIZE,
    ensures
        ({
            let (c, m, d, ok) = step(s, mem, disp, keys, op, r);
            let i = s.index as int;
            &&& ok
            &&& m.len() == MEMORY_SIZE
            &&& forall|k: int| 0 <= k <= op_x(op) ==> #[trigger] m[i + k] == s.regs[k]
            &&& forall|a: int| 0 <= a < MEMORY_SIZE && (a < i || a > i + op_x(op)) ==> #[trigger] m[a] == mem[a]
            &&& c == s && d == disp
        }),
{
    let (c, m, d, ok) = step(s, mem, disp, keys, op, r);
    assert forall|k: int| 0 <= k <= op_x(op) implies #[trigger] m[s.index + k] == s.regs[k] by {
        assert(m[s.index + k] == s.regs[(s.index + k) - s.index]);
    }
}

/// Fx65 reads `V0` to `Vx` from memory from `I` on and leaves the other
/// registers alone.
pub proof fn law_load_registers(s: CpuState, mem: Seq<u8>, disp: Seq<bool>, keys: Seq<bool>, op: u16, r: u8)
    requires
        ready(s, mem, disp, keys),
        0xF000 <= op,
        op % 256 == 0x65,
        s.index + op_x(op) < MEMORY_SIZE,
    ensures
        ({
            let (c, m, d, ok) = step(s, mem, disp, keys, op, r);
            &&& ok
            &&& c.regs.len() == REGISTER_COUNT
            &&& forall|k: int| 0 <= k <= op_x(op) ==> #[trigger] c.regs[k] == mem[s.index + k]
            &&& forall|k: int| op_x(op) < k < REGISTER_COUNT ==> #[trigger] c.regs[k] == s.regs[k]
            &&& only_regs_differ(c, s)
            &&& m == mem && d == disp
        }),
{
}

/// An opcode that encodes no instruction the CPU executes fails and changes
/// nothing: `0nnn` other than `00E0` and `00EE`, `8xy8` to `8xyD` and
/// `8xyF`, and the unassigned `Ex..` and `Fx..` codes.
pub proof fn law_refused(s: CpuState, mem: Seq<u8>, disp: Seq<bool>, keys: Seq<bool>, op: u16, r: u8)
    requires
        ready(s, mem, disp, keys),
        ({
            ||| op < 0x1000 && op != 0x00E0 && op != 0x00EE
            ||| 0x8000 <= op < 0x9000 && (8 <= op % 16 <= 0xD || op % 16 == 0xF)
            ||| 0xE000 <= op < 0xF000 && op % 256 != 0x9E && op % 256 != 0xA1
            ||| 0xF000 <= op && op % 256 != 0x07 && op % 256 != 0x0A && op % 256 != 0x15 && op % 256
                != 0x18 && op % 256 != 0x1E && op % 256 != 0x29 && op % 256 != 0x33 && op % 256 != 0x55
                && op % 256 != 0x65
        }),
    ensures
        step(s, mem, disp, keys, op, r) == (s, mem, disp, false),
{
}

/// While the CPU waits on register `x`, any opcode only polls the keypad:
/// with no key pressed nothing changes, and with a key pressed the
/// lowest-numbered one lands in `Vx` and the wait ends.
pub proof fn law_waiting(s: CpuState, mem: Seq<u8>, disp: Seq<bool>, keys: Seq<bool>, op: u16, r: u8, x: usize)
    requires
        s.waiting == Some(x),
        x < REGISTER_COUNT,
        s.regs.len() == REGISTER_COUNT,
        keys.len() == KEY_COUNT,
    ensures
        ({
            let (c, m, d, ok) = step(s, mem, disp, keys, op, r);
            &&& ok && m == mem && d == disp
            &&& c.pc == s.pc && c.index == s.index
            &&& (forall|k: int| 0 <= k < KEY_COUNT ==> !#[trigger] keys[k]) ==> c == s
            &&& forall|k: int|
                0 <= k < KEY_COUNT && #[trigger] keys[k] && (forall|j: int| 0 <= j < k ==> !keys[j]) ==> (
                c.regs[x as int] == k && c.waiting is None)
        }),
{
    if forall|k: int| 0 <= k < KEY_COUNT ==> !#[trigger] keys[k] {
        lemma_none_pressed(keys, 0);
    }
    assert forall|k: int|
        0 <= k < KEY_COUNT && #[trigger] keys[k] && (forall|j: int| 0 <= j < k ==> !keys[j]) implies ({
        let (c, m, d, ok) = step(s, mem, disp, keys, op, r);
        c.regs[x as int] == k && c.waiting is None
    }) by {
        lemma_first_pressed(keys, 0, k);
    }
}

/// Fetching reads the byte at the program counter (modulo the memory size)
/// as the high byte and the next one as the low byte, and moves the
/// program counter two bytes on, modulo the memory size.
pub proof fn law_fetch(mem: Seq<u8>, s: CpuState)
    requires
        mem.len() == MEMORY_SIZE,
    ensures
        opcode_at(mem, s.pc) / 256 == mem[s.pc as int % 4096],
        opcode_at(mem, s.pc) % 256 == mem[(s.pc as int % 4096 + 1) % 4096],
        after_fetch(s).pc == (s.pc + 2) % 4096,
        after_fetch(s).regs == s.regs && after_fetch(s).index == s.index && after_fetch(s).sp == s.sp,
{
}


/// When `VF` is itself the destination, the flag and the result are written
/// in the order the instructions define: 8Fy4 ends with the carry in `VF`;
/// 8Fy5, 8F06, 8Fy7 and 8F0E write the flag first and then the result over
/// it, computed from the flag.
pub proof fn law_flag_register_destination(s: CpuState, mem: Seq<u8>, disp: Seq<bool>, keys: Seq<bool>, op: u16, r: u8)
    requires
        ready(s, mem, disp, keys),
        0x8F00 <= op < 0x9000,
        op_y(op) != 15,
        op % 16 == 4 || op % 16 == 5 || op % 16 == 6 || op % 16 == 7 || op % 16 == 0xE,
    ensures
        ({
            let (c, m, d, ok) = step(s, mem, disp, keys, op, r);
            let vf = s.regs[15];
            let vy = s.regs[op_y(op)];
            &&& ok
            &&& op % 16 == 4 ==> c.regs[15] == (if vf + vy > 255 { 1u8 } else { 0u8 })
            &&& op % 16 == 5 ==> c.regs[15] == ((if vf > vy { 1int } else { 0int }) - vy) % 256
            &&& op % 16 == 6 ==> c.regs[15] == 0
            &&& op % 16 == 7 ==> c.regs[15] == (vy - (if vy > vf { 1int } else { 0int })) % 256
            &&& op % 16 == 0xE ==> c.regs[15] == (if vf >= 128 { 2u8 } else { 0u8 })
            &&& regs_kept_except(c, s, 15, 15)
            &&& only_regs_differ(c, s)
            &&& m == mem && d == disp
        }),
{
    let y = op_y(op);
    assert(op_x(op) == 15);
    if op % 16 == 4 {
        assert(decode(op) == Instr::AddReg(15, y as usize));
    } else if op % 16 == 5 {
        assert(decode(op) == Instr::Sub(15, y as usize));
    } else if op % 16 == 6 {
        assert(decode(op) == Instr::Shr(15));
    } else if op % 16 == 7 {
        assert(decode(op) == Instr::Subn(15, y as usize));
    } else {
        assert(decode(op) == Instr::Shl(15));
    }
}

/// When `VF` is the source `y`, 8xF5 and 8xF7 compute the result from the
/// flag just written: `Vx - flag` and `flag - Vx`, modulo 256.
pub proof fn law_flag_register_source(s: CpuState, mem: Seq<u8>, disp: Seq<bool>, keys: Seq<bool>, op: u16, r: u8)
    requires
        ready(s, mem, disp, keys),
        0x8000 <= op < 0x9000,
        op_x(op) != 15,
        op_y(op) == 15,
        op % 16 == 5 || op % 16 == 7,
    ensures
        ({
            let (c, m, d, ok) = step(s, mem, disp, keys, op, r);
            let vx = s.regs[op_x(op)];
            let vf = s.regs[15];
            let flag: int = if op % 16 == 5 {
                if vx > vf { 1 } else { 0 }
            } else {
                if vf > vx { 1 } else { 0 }
            };
            &&& ok
            &&& c.regs[15] == flag
            &&& op % 16 == 5 ==> c.regs[op_x(op)] == (vx - flag) % 256
            &&& op % 16 == 7 ==> c.regs[op_x(op)] == (flag - vx) % 256
            &&& regs_kept_except(c, s, op_x(op), 15)
            &&& only_regs_differ(c, s)
        }),
{
}

/// A tick that meets an opcode the CPU refuses only moves the program
/// counter two bytes on, modulo the memory size.
pub proof fn law_tick_skips_refused(m: Chip8State, r: u8)
    requires
        m.cpu.waiting is None,
        m.cpu.regs.len() == REGISTER_COUNT,
        m.cpu.stack.len() == STACK_SIZE,
        m.memory.len() == MEMORY_SIZE,
        m.display.len() == BUFFER_SIZE,
        m.keys.len() == KEY_COUNT,
        !is_executable(opcode_at(m.memory, m.cpu.pc)),
    ensures
        tick_spec(m, r).cpu.pc == (m.cpu.pc + 2) % 4096,
        tick_spec(m, r).cpu.regs == m.cpu.regs,
        tick_spec(m, r).cpu.index == m.cpu.index,
        tick_spec(m, r).cpu.sp == m.cpu.sp,
        tick_spec(m, r).memory == m.memory,
        tick_spec(m, r).display == m.display,
{
}

/// A tick that meets `6xkk` at the program counter loads `kk` into `Vx`
/// and moves the program counter two bytes on, modulo the memory size.
pub proof fn law_tick_load_byte(m: Chip8State, r: u8)
    requires
        m.cpu.waiting is None,
        m.cpu.regs.len() == REGISTER_COUNT,
        m.cpu.stack.len() == STACK_SIZE,
        m.memory.len() == MEMORY_SIZE,
        m.display.len() == BUFFER_SIZE,
        m.keys.len() == KEY_COUNT,
        m.memory[m.cpu.pc as int % 4096] / 16 == 6,
    ensures
        ({
            let x = m.memory[m.cpu.pc as int % 4096] % 16;
            let kk = m.memory[(m.cpu.pc as int % 4096 + 1) % 4096];
            let t = tick_spec(m, r);
            &&& t.cpu.pc == (m.cpu.pc + 2) % 4096
            &&& t.cpu.regs[x as int] == kk
            &&& regs_kept_except(t.cpu, m.cpu, x as int, x as int)
            &&& t.memory == m.memory && t.display == m.display
        }),
{
    let op = opcode_at(m.memory, m.cpu.pc);
    let hi = m.memory[m.cpu.pc as int % 4096];
    let lo = m.memory[(m.cpu.pc as int % 4096 + 1) % 4096];
    assert(op == hi * 256 + lo);
    assert(0x6000 <= op < 0x7000);
    assert(op % 256 == lo);
    assert(op_x(op) == hi % 16);
    law_load_byte(after_fetch(m.cpu), m.memory, m.display, m.keys, op, r);
}

} // verus!
