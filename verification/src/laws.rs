use vstd::prelude::*;

use crate::chip8::{initial_memory, with_rom};
use crate::cpu::{
    decode, first_pressed_from, is_executable, op_ld_key, Instr,
    op_add_reg, op_call, op_ld_f, op_load_regs, op_ret, store_bcd, store_regs, CpuState, FLAG,
    MEMORY_SIZE, PROGRAM_START, REGISTER_COUNT, STACK_SIZE,
};
use crate::debugger::toggled;
use crate::disassembler::disassembly;
use crate::display::{
    draw_row_cols, draw_rows, draw_sprite_spec, pixel_index, sprite_bit, sprite_covers,
    sprite_meets_lit, blank_screen, BUFFER_SIZE, DISPLAY_HEIGHT, DISPLAY_WIDTH,
};
use crate::font::{font_spec, FONT_SIZE, FONT_START, GLYPH_SIZE};

verus! {

/// Drawing one sprite row maps any two screens to screens that differ in
/// exactly the same pixels: the row acts as a fixed XOR mask.
proof fn lemma_row_xor(b1: Seq<bool>, b2: Seq<bool>, x: int, y: int, byte: u8, k: nat)
    requires
        b1.len() == BUFFER_SIZE,
        b2.len() == BUFFER_SIZE,
        0 <= y < DISPLAY_HEIGHT,
        k <= 8,
    ensures
        draw_row_cols(b1, x, y, byte, k).0.len() == BUFFER_SIZE,
        draw_row_cols(b2, x, y, byte, k).0.len() == BUFFER_SIZE,
        forall|p: int|
            0 <= p < BUFFER_SIZE ==> (#[trigger] draw_row_cols(b1, x, y, byte, k).0[p] != draw_row_cols(
                b2,
                x,
                y,
                byte,
                k,
            ).0[p]) == (b1[p] != b2[p]),
    decreases k,
{
    if k > 0 {
        lemma_row_xor(b1, b2, x, y, byte, (k - 1) as nat);
    }
}

/// Drawing a sprite maps any two screens to screens that differ in exactly
/// the same pixels.
proof fn lemma_rows_xor(b1: Seq<bool>, b2: Seq<bool>, x: int, y: int, sprite: Seq<u8>, k: nat)
    requires
        b1.len() == BUFFER_SIZE,
        b2.len() == BUFFER_SIZE,
        k <= sprite.len(),
    ensures
        draw_rows(b1, x, y, sprite, k).0.len() == BUFFER_SIZE,
        draw_rows(b2, x, y, sprite, k).0.len() == BUFFER_SIZE,
        forall|p: int|
            0 <= p < BUFFER_SIZE ==> (#[trigger] draw_rows(b1, x, y, sprite, k).0[p] != draw_rows(
                b2,
                x,
                y,
                sprite,
                k,
            ).0[p]) == (b1[p] != b2[p]),
    decreases k,
{
    if k > 0 {
        lemma_rows_xor(b1, b2, x, y, sprite, (k - 1) as nat);
        let r1 = draw_rows(b1, x, y, sprite, (k - 1) as nat).0;
        let r2 = draw_rows(b2, x, y, sprite, (k - 1) as nat).0;
        let row_y = (y + k - 1) % (DISPLAY_HEIGHT as int);
        lemma_row_xor(r1, r2, x, row_y, sprite[k - 1], 8);
    }
}

/// Sprites are drawn by XOR: drawing the same sprite twice at the same
/// place gives back the screen as it was.
pub proof fn lemma_draw_twice_restores(screen: Seq<bool>, x: int, y: int, sprite: Seq<u8>)
    requires
        screen.len() == BUFFER_SIZE,
    ensures
        draw_sprite_spec(draw_sprite_spec(screen, x, y, sprite).0, x, y, sprite).0 == screen,
{
    let once = draw_sprite_spec(screen, x, y, sprite).0;
    lemma_rows_xor(screen, screen, x, y, sprite, sprite.len());
    lemma_rows_xor(once, screen, x, y, sprite, sprite.len());
    let twice = draw_sprite_spec(once, x, y, sprite).0;
    assert forall|p: int| 0 <= p < BUFFER_SIZE implies twice[p] == screen[p] by {
        assert((twice[p] != once[p]) == (once[p] != screen[p]));
    }
    assert(twice =~= screen);
}

/// A call followed by a return comes back to the instruction after the call
/// with the stack pointer as before.
pub proof fn lemma_call_then_ret(s: CpuState, addr: u16)
    requires
        s.sp + 1 < STACK_SIZE,
        s.stack.len() == STACK_SIZE,
    ensures
        op_ret(op_call(s, addr)).pc == s.pc,
        op_ret(op_call(s, addr)).sp == s.sp,
        op_ret(op_call(s, addr)).regs == s.regs,
        op_ret(op_call(s, addr)).index == s.index,
{
}

/// Storing registers `V0`..`Vx` at `I` (Fx55) and loading them back from the
/// same place (Fx65) gives back the same registers.
pub proof fn lemma_store_then_load_regs(s: CpuState, mem: Seq<u8>, x: int)
    requires
        0 <= x < REGISTER_COUNT,
        s.regs.len() == REGISTER_COUNT,
        mem.len() == MEMORY_SIZE,
        s.index + x < MEMORY_SIZE,
    ensures
        op_load_regs(s, store_regs(mem, s, x), x) == s,
{
    let loaded = op_load_regs(s, store_regs(mem, s, x), x);
    assert(loaded.regs =~= s.regs);
}

/// The three digits that Fx33 stores are decimal digits of `Vx`, most
/// significant first.
pub proof fn lemma_bcd_digits(mem: Seq<u8>, i: int, v: u8)
    requires
        0 <= i,
        i + 2 < mem.len(),
    ensures
        store_bcd(mem, i, v)[i] < 10,
        store_bcd(mem, i, v)[i + 1] < 10,
        store_bcd(mem, i, v)[i + 2] < 10,
        store_bcd(mem, i, v)[i] * 100 + store_bcd(mem, i, v)[i + 1] * 10 + store_bcd(mem, i, v)[i
            + 2] == v,
{
}

/// 8xy4 loses nothing: when `Vx` is not `VF`, the new `Vx` plus 256 times
/// the carry in `VF` is the sum of the old `Vx` and `Vy`.
pub proof fn lemma_add_carry(s: CpuState, x: int, y: int)
    requires
        0 <= x < FLAG,
        0 <= y < REGISTER_COUNT,
        s.regs.len() == REGISTER_COUNT,
    ensures
        op_add_reg(s, x, y).regs[x] + 256 * op_add_reg(s, x, y).regs[FLAG as int] == s.regs[x]
            + s.regs[y],
{
}

/// Fx29 points `I` at the glyph of the digit in `Vx`: in the memory of a
/// machine at power-on, the five bytes from there are that digit's glyph in
/// the built-in font.
pub proof fn lemma_font_address(s: CpuState, x: int, k: int)
    requires
        0 <= x < REGISTER_COUNT,
        s.regs.len() == REGISTER_COUNT,
        s.regs[x] < 16,
        0 <= k < GLYPH_SIZE,
    ensures
        initial_memory()[op_ld_f(s, x).index + k] == font_spec()[GLYPH_SIZE * s.regs[x] + k],
{
}

/// Loading a ROM leaves the font in place.
pub proof fn lemma_rom_preserves_font(mem: Seq<u8>, rom: Seq<u8>, a: int)
    requires
        mem.len() == MEMORY_SIZE,
        FONT_START <= a < FONT_START + FONT_SIZE,
    ensures
        with_rom(mem, rom)[a] == mem[a],
{
}

/// Loading a ROM puts its bytes at `PROGRAM_START` onwards, in order.
pub proof fn lemma_rom_read_back(mem: Seq<u8>, rom: Seq<u8>, i: int)
    requires
        mem.len() == MEMORY_SIZE,
        PROGRAM_START + rom.len() <= MEMORY_SIZE,
        0 <= i < rom.len(),
    ensures
        with_rom(mem, rom)[PROGRAM_START + i] == rom[i],
{
}


/// Toggling the same breakpoint twice leaves the breakpoints as they were.
pub proof fn lemma_toggle_twice(set: Set<u16>, addr: u16)
    ensures
        toggled(toggled(set, addr), addr) == set,
{
    assert(toggled(toggled(set, addr), addr) =~= set);
}

/// Whether `text` begins with `prefix`.
pub open spec fn starts_with(text: Seq<char>, prefix: Seq<char>) -> bool {
    prefix.len() <= text.len() && text.subrange(0, prefix.len() as int) == prefix
}

/// The disassembler and the CPU agree on which opcodes are instructions: the
/// CPU refuses exactly the opcodes whose text begins with `SYS` or `???`.
pub proof fn lemma_refused_iff_marked(op: u16)
    ensures
        !is_executable(op) <==> (starts_with(disassembly(op), "SYS  "@) || starts_with(
            disassembly(op),
            "???  "@,
        )),
{
    reveal_strlit("SYS  ");
    reveal_strlit("???  ");
    reveal_strlit("CLS");
    reveal_strlit("RET");
    reveal_strlit("JP   ");
    reveal_strlit("CALL ");
    reveal_strlit("SE   ");
    reveal_strlit("SNE  ");
    reveal_strlit("LD   ");
    reveal_strlit("ADD  ");
    reveal_strlit("OR   ");
    reveal_strlit("AND  ");
    reveal_strlit("XOR  ");
    reveal_strlit("SUB  ");
    reveal_strlit("SHR  ");
    reveal_strlit("SUBN ");
    reveal_strlit("SHL  ");
    reveal_strlit("LD   I, ");
    reveal_strlit("JP   V0, ");
    reveal_strlit("RND  ");
    reveal_strlit("DRW  ");
    reveal_strlit("SKP  ");
    reveal_strlit("SKNP ");
    reveal_strlit("LD   DT, ");
    reveal_strlit("LD   ST, ");
    reveal_strlit("ADD  I, ");
    reveal_strlit("LD   F, ");
    reveal_strlit("LD   B, ");
    reveal_strlit("LD   [I], ");
    let t = disassembly(op);
    let sys = "SYS  "@;
    let unk = "???  "@;
    match decode(op) {
        Instr::Cls => {},
        Instr::Ret => {},
        Instr::Sys(_) => {
            assert(t.subrange(0, 5) =~= sys);
        },
        Instr::Unknown => {
            assert(t.subrange(0, 5) =~= unk);
        },
        _ => {
            assert(t.subrange(0, 5)[0] == t[0]);
            assert(t.subrange(0, 5)[1] == t[1]);
        },
    }
}


/// Adding less than `m` to `a` changes its remainder modulo `m`.
proof fn lemma_mod_shift_distinct(a: int, d: int, m: int)
    requires
        0 < d < m,
    ensures
        (a + d) % m != a % m,
{
    vstd::arithmetic::div_mod::lemma_fundamental_div_mod(a, m);
    vstd::arithmetic::div_mod::lemma_fundamental_div_mod(a + d, m);
    vstd::arithmetic::div_mod::lemma_mod_bound(a, m);
    vstd::arithmetic::div_mod::lemma_mod_bound(a + d, m);
    if (a + d) % m == a % m {
        let q1 = a / m;
        let q2 = (a + d) / m;
        assert(d == m * q2 - m * q1);
        assert(d == m * (q2 - q1)) by (nonlinear_arith)
            requires
                d == m * q2 - m * q1,
        ;
        if q2 - q1 <= 0 {
            assert(m * (q2 - q1) <= 0) by (nonlinear_arith)
                requires
                    m > 0,
                    q2 - q1 <= 0,
            ;
        } else {
            assert(m * (q2 - q1) >= m) by (nonlinear_arith)
                requires
                    m > 0,
                    q2 - q1 >= 1,
            ;
        }
    }
}

/// Pixel indices of a row: in range, on the row, and distinct for
/// distinct columns of one sprite row.
proof fn lemma_pixel_index(x: int, y: int, c1: int, c2: int)
    requires
        0 <= y < DISPLAY_HEIGHT,
        0 <= c1 < 8,
        0 <= c2 < 8,
    ensures
        0 <= pixel_index(x, y, c1) < BUFFER_SIZE,
        y * 64 <= pixel_index(x, y, c1) < y * 64 + 64,
        c1 != c2 ==> pixel_index(x, y, c1) != pixel_index(x, y, c2),
{
    vstd::arithmetic::div_mod::lemma_mod_bound(x + c1, DISPLAY_WIDTH as int);
    if c1 < c2 {
        lemma_mod_shift_distinct(x + c1, c2 - c1, DISPLAY_WIDTH as int);
    } else if c2 < c1 {
        lemma_mod_shift_distinct(x + c2, c1 - c2, DISPLAY_WIDTH as int);
    }
}

/// The effect of the first `k` columns of one sprite row: each pixel a set
/// bit lands on flips, and a collision is reported exactly when one of them
/// was on.
proof fn lemma_row_effect(b: Seq<bool>, x: int, y: int, byte: u8, k: nat)
    requires
        b.len() == BUFFER_SIZE,
        0 <= y < DISPLAY_HEIGHT,
        k <= 8,
    ensures
        draw_row_cols(b, x, y, byte, k).0.len() == BUFFER_SIZE,
        forall|p: int|
            0 <= p < BUFFER_SIZE ==> #[trigger] draw_row_cols(b, x, y, byte, k).0[p] == (b[p] != exists|c: int|
                0 <= c < k && sprite_bit(byte, c) && p == #[trigger] pixel_index(x, y, c)),
        draw_row_cols(b, x, y, byte, k).1 == exists|c: int|
            0 <= c < k && sprite_bit(byte, c) && b[#[trigger] pixel_index(x, y, c)],
    decreases k,
{
    if k > 0 {
        let j = k - 1;
        lemma_row_effect(b, x, y, byte, (k - 1) as nat);
        let prev = draw_row_cols(b, x, y, byte, (k - 1) as nat);
        let idx = pixel_index(x, y, j);
        lemma_pixel_index(x, y, j, j);
        assert forall|c: int| 0 <= c < j implies #[trigger] pixel_index(x, y, c) != idx by {
            lemma_pixel_index(x, y, c, j);
        }
        assert(prev.0[idx] == b[idx]);
        let cur = draw_row_cols(b, x, y, byte, k);
        assert forall|p: int| 0 <= p < BUFFER_SIZE implies #[trigger] cur.0[p] == (b[p] != exists|c: int|
            0 <= c < k && sprite_bit(byte, c) && p == #[trigger] pixel_index(x, y, c)) by {
            if sprite_bit(byte, j) && p == idx {
                assert(0 <= j < k && sprite_bit(byte, j) && p == pixel_index(x, y, j));
            } else {
                assert(prev.0[p] == cur.0[p]);
                if exists|c: int| 0 <= c < k && sprite_bit(byte, c) && p == #[trigger] pixel_index(x, y, c) {
                    let c = choose|c: int| 0 <= c < k && sprite_bit(byte, c) && p == #[trigger] pixel_index(x, y, c);
                    assert(c != j);
                    assert(0 <= c < j && sprite_bit(byte, c) && p == pixel_index(x, y, c));
                }
            }
        }
        if sprite_bit(byte, j) && b[idx] {
            assert(0 <= j < k && sprite_bit(byte, j) && b[pixel_index(x, y, j)]);
        }
        if exists|c: int| 0 <= c < k && sprite_bit(byte, c) && b[#[trigger] pixel_index(x, y, c)] {
            let c = choose|c: int| 0 <= c < k && sprite_bit(byte, c) && b[#[trigger] pixel_index(x, y, c)];
            if c < j {
                assert(0 <= c < j && sprite_bit(byte, c) && b[pixel_index(x, y, c)]);
            }
        }
    }
}


/// A pixel that a set bit of row `r` lands on lies on screen row
/// `(y_start + r) % 32`, and lies on no other sprite row when the sprite has
/// at most 32 rows.
proof fn lemma_row_of_pixel(x: int, y_start: int, r1: int, c1: int, r2: int, c2: int)
    requires
        0 <= r1 < DISPLAY_HEIGHT,
        0 <= r2 < DISPLAY_HEIGHT,
        0 <= c1 < 8,
        0 <= c2 < 8,
        r1 != r2,
    ensures
        pixel_index(x, (y_start + r1) % (DISPLAY_HEIGHT as int), c1) != pixel_index(
            x,
            (y_start + r2) % (DISPLAY_HEIGHT as int),
            c2,
        ),
{
    let h = DISPLAY_HEIGHT as int;
    let y1 = (y_start + r1) % h;
    let y2 = (y_start + r2) % h;
    vstd::arithmetic::div_mod::lemma_mod_bound(y_start + r1, h);
    vstd::arithmetic::div_mod::lemma_mod_bound(y_start + r2, h);
    if r1 < r2 {
        lemma_mod_shift_distinct(y_start + r1, r2 - r1, h);
    } else {
        lemma_mod_shift_distinct(y_start + r2, r1 - r2, h);
    }
    lemma_pixel_index(x, y1, c1, c1);
    lemma_pixel_index(x, y2, c2, c2);
}

/// The effect of the first `k` rows of a sprite of at most 32 rows.
proof fn lemma_rows_effect(b: Seq<bool>, x: int, y_start: int, sprite: Seq<u8>, k: nat)
    requires
        b.len() == BUFFER_SIZE,
        k <= sprite.len(),
        k <= DISPLAY_HEIGHT,
    ensures
        draw_rows(b, x, y_start, sprite, k).0.len() == BUFFER_SIZE,
        forall|p: int|
            0 <= p < BUFFER_SIZE ==> #[trigger] draw_rows(b, x, y_start, sprite, k).0[p] == (b[p]
                != sprite_covers(x, y_start, sprite, k as int, p)),
        draw_rows(b, x, y_start, sprite, k).1 == sprite_meets_lit(b, x, y_start, sprite, k as int),
    decreases k,
{
    let h = DISPLAY_HEIGHT as int;
    if k == 0 {
        return;
    }
    let j = k - 1;
    lemma_rows_effect(b, x, y_start, sprite, (k - 1) as nat);
    let prev = draw_rows(b, x, y_start, sprite, (k - 1) as nat);
    let y = (y_start + j) % h;
    vstd::arithmetic::div_mod::lemma_mod_bound(y_start + j, h);
    lemma_row_effect(prev.0, x, y, sprite[j], 8);
    let cur = draw_rows(b, x, y_start, sprite, k);
    assert(cur.0 == draw_row_cols(prev.0, x, y, sprite[j], 8).0);

    // the pixels of row j were not touched by the earlier rows
    assert forall|c: int| 0 <= c < 8 implies !sprite_covers(x, y_start, sprite, j, #[trigger] pixel_index(x, y, c)) by {
        if sprite_covers(x, y_start, sprite, j, pixel_index(x, y, c)) {
            let (r2, c2) = choose|r2: int, c2: int|
                0 <= r2 < j && 0 <= c2 < 8 && sprite_bit(sprite[r2], c2) && pixel_index(x, y, c) == pixel_index(
                    x,
                    (y_start + r2) % h,
                    c2,
                );
            lemma_row_of_pixel(x, y_start, j, c, r2, c2);
        }
    }

    assert forall|p: int| 0 <= p < BUFFER_SIZE implies #[trigger] cur.0[p] == (b[p] != sprite_covers(
        x,
        y_start,
        sprite,
        k as int,
        p,
    )) by {
        let in_row = exists|c: int| 0 <= c < 8 && sprite_bit(sprite[j], c) && p == #[trigger] pixel_index(x, y, c);
        assert(cur.0[p] == (prev.0[p] != in_row));
        assert(prev.0[p] == (b[p] != sprite_covers(x, y_start, sprite, j, p)));
        if in_row {
            let c = choose|c: int| 0 <= c < 8 && sprite_bit(sprite[j], c) && p == #[trigger] pixel_index(x, y, c);
            assert(!sprite_covers(x, y_start, sprite, j, pixel_index(x, y, c)));
            assert(sprite[j] == sprite[j] && pixel_index(x, (y_start + j) % h, c) == p);
            assert(sprite_covers(x, y_start, sprite, k as int, p));
        } else {
            if sprite_covers(x, y_start, sprite, k as int, p) {
                let (r2, c2) = choose|r2: int, c2: int|
                    0 <= r2 < k && 0 <= c2 < 8 && sprite_bit(sprite[r2], c2) && p == pixel_index(
                        x,
                        (y_start + r2) % h,
                        c2,
                    );
                if r2 == j {
                    assert(0 <= c2 < 8 && sprite_bit(sprite[j], c2) && p == pixel_index(x, y, c2));
                } else {
                    assert(sprite[r2] == sprite[r2]);
                    assert(sprite_covers(x, y_start, sprite, j, p));
                }
            }
            if sprite_covers(x, y_start, sprite, j, p) {
                let (r2, c2) = choose|r2: int, c2: int|
                    0 <= r2 < j && 0 <= c2 < 8 && sprite_bit(sprite[r2], c2) && p == pixel_index(
                        x,
                        (y_start + r2) % h,
                        c2,
                    );
                assert(sprite[r2] == sprite[r2]);
                assert(sprite_covers(x, y_start, sprite, k as int, p));
            }
        }
    }

    // collision of row j reads the screen as it was before the sprite
    let row_hit = exists|c: int| 0 <= c < 8 && sprite_bit(sprite[j], c) && prev.0[#[trigger] pixel_index(x, y, c)];
    let row_lit = exists|c: int| 0 <= c < 8 && sprite_bit(sprite[j], c) && b[#[trigger] pixel_index(x, y, c)];
    assert(row_hit == row_lit) by {
        if row_hit {
            let c = choose|c: int| 0 <= c < 8 && sprite_bit(sprite[j], c) && prev.0[#[trigger] pixel_index(x, y, c)];
            lemma_pixel_index(x, y, c, c);
            assert(!sprite_covers(x, y_start, sprite, j, pixel_index(x, y, c)));
            assert(b[pixel_index(x, y, c)]);
        }
        if row_lit {
            let c = choose|c: int| 0 <= c < 8 && sprite_bit(sprite[j], c) && b[#[trigger] pixel_index(x, y, c)];
            lemma_pixel_index(x, y, c, c);
            assert(!sprite_covers(x, y_start, sprite, j, pixel_index(x, y, c)));
            assert(prev.0[pixel_index(x, y, c)]);
        }
    }
    assert(cur.1 == (prev.1 || row_hit));
    assert(sprite_meets_lit(b, x, y_start, sprite, k as int) == (sprite_meets_lit(b, x, y_start, sprite, j)
        || row_lit)) by {
        if sprite_meets_lit(b, x, y_start, sprite, k as int) {
            let (r2, c2) = choose|r2: int, c2: int|
                0 <= r2 < k && 0 <= c2 < 8 && sprite_bit(sprite[r2], c2) && b[pixel_index(x, (y_start + r2) % h, c2)];
            if r2 == j {
                assert(0 <= c2 < 8 && sprite_bit(sprite[j], c2) && b[pixel_index(x, y, c2)]);
            } else {
                assert(sprite[r2] == sprite[r2]);
            }
        }
        if row_lit {
            let c = choose|c: int| 0 <= c < 8 && sprite_bit(sprite[j], c) && b[#[trigger] pixel_index(x, y, c)];
            assert(sprite[j] == sprite[j] && pixel_index(x, (y_start + j) % h, c) == pixel_index(x, y, c));
        }
        if sprite_meets_lit(b, x, y_start, sprite, j) {
            let (r2, c2) = choose|r2: int, c2: int|
                0 <= r2 < j && 0 <= c2 < 8 && sprite_bit(sprite[r2], c2) && b[pixel_index(x, (y_start + r2) % h, c2)];
            assert(sprite[r2] == sprite[r2]);
        }
    }
}

/// Collision detection: for a sprite of at most 32 rows, drawing flips
/// exactly the pixels that a set bit of the sprite lands on, and reports a
/// collision exactly when one of those pixels was on.
pub proof fn lemma_draw_flips_covered_pixels(screen: Seq<bool>, x: int, y: int, sprite: Seq<u8>)
    requires
        screen.len() == BUFFER_SIZE,
        sprite.len() <= DISPLAY_HEIGHT,
    ensures
        draw_sprite_spec(screen, x, y, sprite).0.len() == BUFFER_SIZE,
        forall|p: int|
            0 <= p < BUFFER_SIZE ==> #[trigger] draw_sprite_spec(screen, x, y, sprite).0[p] == (screen[p]
                != sprite_covers(x, y, sprite, sprite.len() as int, p)),
        draw_sprite_spec(screen, x, y, sprite).1 == sprite_meets_lit(screen, x, y, sprite, sprite.len() as int),
{
    lemma_rows_effect(screen, x, y, sprite, sprite.len());
}


/// On a blank screen, a sprite of at most 32 rows is drawn without
/// collision, and drawing it again at the same place collides exactly when
/// the sprite has a set bit.
pub proof fn lemma_redraw_on_blank_collides(x: int, y: int, sprite: Seq<u8>)
    requires
        sprite.len() <= DISPLAY_HEIGHT,
    ensures
        !draw_sprite_spec(blank_screen(), x, y, sprite).1,
        draw_sprite_spec(draw_sprite_spec(blank_screen(), x, y, sprite).0, x, y, sprite).1 == exists|r: int, c: int|
            0 <= r < sprite.len() && 0 <= c < 8 && #[trigger] sprite_bit(sprite[r], c),
{
    let h = DISPLAY_HEIGHT as int;
    let n = sprite.len() as int;
    let blank = blank_screen();
    lemma_draw_flips_covered_pixels(blank, x, y, sprite);
    let once = draw_sprite_spec(blank, x, y, sprite).0;
    lemma_draw_flips_covered_pixels(once, x, y, sprite);
    if sprite_meets_lit(blank, x, y, sprite, n) {
        let (r, c) = choose|r: int, c: int|
            0 <= r < n && 0 <= c < 8 && sprite_bit(sprite[r], c) && blank[pixel_index(x, (y + r) % h, c)];
        vstd::arithmetic::div_mod::lemma_mod_bound(y + r, h);
        lemma_pixel_index(x, (y + r) % h, c, c);
    }
    if exists|r: int, c: int| 0 <= r < n && 0 <= c < 8 && #[trigger] sprite_bit(sprite[r], c) {
        let (r, c) = choose|r: int, c: int| 0 <= r < n && 0 <= c < 8 && #[trigger] sprite_bit(sprite[r], c);
        let p = pixel_index(x, (y + r) % h, c);
        vstd::arithmetic::div_mod::lemma_mod_bound(y + r, h);
        lemma_pixel_index(x, (y + r) % h, c, c);
        assert(sprite[r] == sprite[r]);
        assert(sprite_covers(x, y, sprite, n, p));
        assert(once[p]);
        assert(sprite_meets_lit(once, x, y, sprite, n));
    }
}

/// While the CPU waits for a key and none is pressed, a step leaves it as
/// it was.
pub proof fn lemma_waiting_without_key_holds(s: CpuState, keys: Seq<bool>, rx: usize)
    requires
        s.waiting == Some(rx),
        keys.len() == crate::keypad::KEY_COUNT,
        forall|k: int| 0 <= k < crate::keypad::KEY_COUNT ==> !#[trigger] keys[k],
    ensures
        op_ld_key(s, keys, rx) == s,
{
    lemma_no_key_pressed(keys, 0);
}

/// With no key pressed, no key is found from any position on.
proof fn lemma_no_key_pressed(keys: Seq<bool>, i: nat)
    requires
        keys.len() == crate::keypad::KEY_COUNT,
        forall|k: int| 0 <= k < crate::keypad::KEY_COUNT ==> !#[trigger] keys[k],
    ensures
        first_pressed_from(keys, i) is None,
    decreases crate::keypad::KEY_COUNT - i,
{
    if i < crate::keypad::KEY_COUNT {
        lemma_no_key_pressed(keys, i + 1);
    }
}

} // verus!
