use vstd::prelude::*;

verus! {

/// Width of the CHIP-8 screen in pixels.
pub const DISPLAY_WIDTH: usize = 64;

/// Height of the CHIP-8 screen in pixels.
pub const DISPLAY_HEIGHT: usize = 32;

/// Number of pixels on the screen; pixel `(x, y)` is stored at `y * DISPLAY_WIDTH + x`.
pub const BUFFER_SIZE: usize = DISPLAY_HEIGHT * DISPLAY_WIDTH;

/// Whether column `col` (0 = leftmost) of a sprite row `byte` is set:
/// bit 7 is the leftmost pixel and bit 0 the rightmost.
pub open spec fn sprite_bit(byte: u8, col: int) -> bool {
    byte & (0x80u8 >> (col as u8)) != 0
}

/// Index in the buffer of the pixel that column `col` of a sprite whose
/// left edge is `x_start` lands on in screen row `y`, wrapping horizontally.
pub open spec fn pixel_index(x_start: int, y: int, col: int) -> int {
    y * (DISPLAY_WIDTH as int) + (x_start + col) % (DISPLAY_WIDTH as int)
}

/// The first `k` columns of one sprite row drawn by XOR onto `buf` in screen
/// row `y`, each set bit toggling its pixel in turn: the new buffer, and
/// whether a set bit met a pixel that was on.
pub open spec fn draw_row_cols(buf: Seq<bool>, x_start: int, y: int, byte: u8, k: nat) -> (Seq<bool>, bool)
    decreases k,
{
    if k == 0 {
        (buf, false)
    } else {
        let (b, c) = draw_row_cols(buf, x_start, y, byte, (k - 1) as nat);
        let col = k - 1;
        if sprite_bit(byte, col) {
            let idx = pixel_index(x_start, y, col);
            (b.update(idx, !b[idx]), c || b[idx])
        } else {
            (b, c)
        }
    }
}

/// The first `k` rows of `sprite` drawn by XOR onto `buf` with the sprite's
/// top-left corner at `(x_start, y_start)`, rows wrapping vertically: the new
/// buffer, and whether any set bit met a pixel that was on.
pub open spec fn draw_rows(buf: Seq<bool>, x_start: int, y_start: int, sprite: Seq<u8>, k: nat) -> (Seq<bool>, bool)
    decreases k,
{
    if k == 0 {
        (buf, false)
    } else {
        let (b, c) = draw_rows(buf, x_start, y_start, sprite, (k - 1) as nat);
        let y = (y_start + k - 1) % (DISPLAY_HEIGHT as int);
        let (b2, c2) = draw_row_cols(b, x_start, y, sprite[k - 1], 8);
        (b2, c || c2)
    }
}

/// The whole of `sprite` drawn onto `buf` at `(x_start, y_start)`.
pub open spec fn draw_sprite_spec(buf: Seq<bool>, x_start: int, y_start: int, sprite: Seq<u8>) -> (Seq<bool>, bool) {
    draw_rows(buf, x_start, y_start, sprite, sprite.len())
}

/// Whether a set bit of one of the first `k` rows of `sprite`, drawn with its
/// top-left corner at `(x_start, y_start)`, lands on pixel `p`.
pub open spec fn sprite_covers(x_start: int, y_start: int, sprite: Seq<u8>, k: int, p: int) -> bool {
    exists|r: int, c: int|
        #![trigger sprite[r], pixel_index(x_start, (y_start + r) % (DISPLAY_HEIGHT as int), c)]
        0 <= r < k && 0 <= c < 8 && sprite_bit(sprite[r], c) && p == pixel_index(
            x_start,
            (y_start + r) % (DISPLAY_HEIGHT as int),
            c,
        )
}

/// Whether a set bit of one of the first `k` rows of `sprite` lands on a
/// pixel that is on in `screen`.
pub open spec fn sprite_meets_lit(screen: Seq<bool>, x_start: int, y_start: int, sprite: Seq<u8>, k: int) -> bool {
    exists|r: int, c: int|
        #![trigger sprite[r], pixel_index(x_start, (y_start + r) % (DISPLAY_HEIGHT as int), c)]
        0 <= r < k && 0 <= c < 8 && sprite_bit(sprite[r], c) && screen[pixel_index(
            x_start,
            (y_start + r) % (DISPLAY_HEIGHT as int),
            c,
        )]
}

/// A screen with every pixel off.
pub open spec fn blank_screen() -> Seq<bool> {
    Seq::new(BUFFER_SIZE as nat, |i: int| false)
}

/// The 64x32 monochrome CHIP-8 screen.
pub struct Display {
    buffer: [bool; BUFFER_SIZE],
}

impl View for Display {
    type V = Seq<bool>;

    closed spec fn view(&self) -> Seq<bool> {
        self.buffer@
    }
}

impl Display {
    /// The screen always holds `BUFFER_SIZE` pixels.
    pub proof fn lemma_len(&self)
        ensures
            self@.len() == BUFFER_SIZE,
    {
    }

    /// A screen with every pixel off.
    pub fn new() -> (d: Self)
        ensures
            d@ == blank_screen(),
    {
        let d = Self { buffer: [false; BUFFER_SIZE] };
        assert(d@ =~= blank_screen());
        d
    }

    /// Turns every pixel off.
    pub fn clear(&mut self)
        ensures
            final(self)@ == blank_screen(),
    {
        self.buffer = [false; BUFFER_SIZE];
        assert(self@ =~= blank_screen());
    }

    /// The pixels, row by row.
    pub fn buffer(&self) -> (b: &[bool; BUFFER_SIZE])
        ensures
            b@ == self@,
    {
        &self.buffer
    }

    /// Whether the pixel in column `x` of row `y` is on.
    pub fn get_pixel(&self, x: usize, y: usize) -> (on: bool)
        requires
            y * DISPLAY_WIDTH + x < BUFFER_SIZE,
        ensures
            on == self@[y * DISPLAY_WIDTH + x],
    {
        self.buffer[y * DISPLAY_WIDTH + x]
    }

    /// Draws `sprite_bytes` by XOR with its top-left corner at
    /// `(x_start, y_start)`, one byte per row and wrapping at the screen
    /// edges; returns whether a set bit turned off a pixel that was on.
    pub fn draw_sprite(&mut self, x_start: usize, y_start: usize, sprite_bytes: &[u8]) -> (collision: bool)
        ensures
            (final(self)@, collision) == draw_sprite_spec(old(self)@, x_start as int, y_start as int, sprite_bytes@),
    {
        let mut collision = false;
        let n = sprite_bytes.len();
        let mut row: usize = 0;
        while row < n
            invariant
                row <= n,
                n == sprite_bytes@.len(),
                self@.len() == BUFFER_SIZE,
                (self@, collision) == draw_rows(old(self)@, x_start as int, y_start as int, sprite_bytes@, row as nat),
            decreases n - row,
        {
            let byte = sprite_bytes[row];
            let y: usize = (y_start % DISPLAY_HEIGHT + row % DISPLAY_HEIGHT) % DISPLAY_HEIGHT;
            proof {
                vstd::arithmetic::div_mod::lemma_add_mod_noop(y_start as int, row as int, DISPLAY_HEIGHT as int);
            }
            let ghost row_start = self@;
            let ghost coll_start = collision;
            let mut row_coll = false;
            let mut col: usize = 0;
            while col < 8
                invariant
                    col <= 8,
                    y < DISPLAY_HEIGHT,
                    self@.len() == BUFFER_SIZE,
                    (self@, row_coll) == draw_row_cols(row_start, x_start as int, y as int, byte, col as nat),
                decreases 8 - col,
            {
                if byte & (0x80u8 >> (col as u8)) != 0 {
                    let x: usize = (x_start % DISPLAY_WIDTH + col) % DISPLAY_WIDTH;
                    proof {
                        vstd::arithmetic::div_mod::lemma_add_mod_noop(x_start as int, col as int, DISPLAY_WIDTH as int);
                        vstd::arithmetic::div_mod::lemma_small_mod(col as nat, DISPLAY_WIDTH as nat);
                    }
                    let idx = y * DISPLAY_WIDTH + x;
                    if self.buffer[idx] {
                        row_coll = true;
                    }
                    self.buffer[idx] = !self.buffer[idx];
                }
                col += 1;
            }
            collision = collision || row_coll;
            row += 1;
        }
        collision
    }
}


/// Bytes per pixel of the RGBA texture of the screen.
pub const TEXEL_BYTES: usize = 4;

/// Channel `c` of the RGBA texel of pixel `p`: opaque white when the pixel
/// is on, opaque black when it is off.
pub open spec fn texel_channel(screen: Seq<bool>, p: int, c: int) -> u8 {
    if screen[p] || c == 3 {
        255
    } else {
        0
    }
}

/// The screen as RGBA bytes, row by row, four per pixel: white for a pixel
/// that is on and black for one that is off, both opaque.
pub fn texture_pixels(display: &Display) -> (pixels: Vec<u8>)
    ensures
        pixels@.len() == TEXEL_BYTES * BUFFER_SIZE,
        forall|p: int, c: int|
            0 <= p < BUFFER_SIZE && 0 <= c < TEXEL_BYTES ==> #[trigger] pixels@[TEXEL_BYTES * p + c]
                == texel_channel(display@, p, c),
{
    proof {
        display.lemma_len();
    }
    let mut pixels: Vec<u8> = Vec::with_capacity(TEXEL_BYTES * BUFFER_SIZE);
    let buffer = display.buffer();
    let mut p: usize = 0;
    while p < BUFFER_SIZE
        invariant
            p <= BUFFER_SIZE,
            buffer@ == display@,
            display@.len() == BUFFER_SIZE,
            pixels@.len() == TEXEL_BYTES * p,
            forall|q: int, c: int|
                0 <= q < p && 0 <= c < TEXEL_BYTES ==> #[trigger] pixels@[TEXEL_BYTES * q + c]
                    == texel_channel(display@, q, c),
        decreases BUFFER_SIZE - p,
    {
        let v: u8 = if buffer[p] { 255 } else { 0 };
        let ghost before = pixels@;
        pixels.push(v);
        pixels.push(v);
        pixels.push(v);
        pixels.push(255);
        assert forall|q: int, c: int|
            0 <= q < p + 1 && 0 <= c < TEXEL_BYTES implies #[trigger] pixels@[TEXEL_BYTES * q + c]
                == texel_channel(display@, q, c) by {
            if q < p {
                assert(pixels@[TEXEL_BYTES * q + c] == before[TEXEL_BYTES * q + c]);
            }
        }
        p += 1;
    }
    pixels
}

} // verus!
