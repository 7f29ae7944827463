//! The monochrome framebuffer and its XOR sprite compositing.

use vstd::arithmetic::div_mod::lemma_add_mod_noop;
use vstd::prelude::*;

verus! {

/// Width of the display in pixels.
pub const SCREEN_WIDTH: usize = 64;

/// Height of the display in pixels.
pub const SCREEN_HEIGHT: usize = 32;

/// Number of pixel cells in the display.
pub const SCREEN_PIXELS: usize = 2048;

/// Position of pixel `(x, y)` in the row-major buffer.
pub open spec fn pixel_index(x: int, y: int) -> int {
    x + y * SCREEN_WIDTH
}

/// Bit `i` of a sprite row, counted from the most significant bit.
pub open spec fn sprite_bit(row: u8, i: int) -> bool {
    (row >> ((7 - i) as u8)) & 1u8 == 1u8
}

/// The screen after compositing the first `i` bits of `row` onto screen row
/// `y` from column `x`, with whether a lit pixel was hit so far.
pub open spec fn draw_row(px: Seq<bool>, hit: bool, x: int, y: int, row: u8, i: nat) -> (Seq<
    bool,
>, bool)
    decreases i,
{
    if i == 0 {
        (px, hit)
    } else {
        let (p, h) = draw_row(px, hit, x, y, row, (i - 1) as nat);
        if sprite_bit(row, i - 1) {
            let k = pixel_index((x + i - 1) % SCREEN_WIDTH as int, y % SCREEN_HEIGHT as int);
            (p.update(k, !p[k]), h || p[k])
        } else {
            (p, h)
        }
    }
}

/// The screen after compositing the first `j` rows of `sprite` at `(x, y)`,
/// with whether a lit pixel was hit.
pub open spec fn draw_rows(px: Seq<bool>, x: int, y: int, sprite: Seq<u8>, j: nat) -> (Seq<
    bool,
>, bool)
    decreases j,
{
    if j == 0 {
        (px, false)
    } else {
        let (p, h) = draw_rows(px, x, y, sprite, (j - 1) as nat);
        draw_row(p, h, x, y + j - 1, sprite[j - 1], 8)
    }
}

/// The screen after compositing the whole of `sprite` at `(x, y)`: rows top
/// down, bits most significant first, each set bit flipping its destination
/// pixel with wrap-around at the edges; the flag says whether any set bit
/// landed on a pixel that was lit just before.
pub open spec fn draw(px: Seq<bool>, x: int, y: int, sprite: Seq<u8>) -> (Seq<bool>, bool) {
    draw_rows(px, x, y, sprite, sprite.len())
}

/// Whether some row of `sprite` has a set bit.
pub open spec fn has_ink(sprite: Seq<u8>) -> bool {
    exists|j: int| 0 <= j < sprite.len() && sprite[j] != 0
}

/// A blank display.
pub open spec fn blank() -> Seq<bool> {
    Seq::new(SCREEN_PIXELS as nat, |i: int| false)
}

/// A row byte is non-zero exactly when one of its eight bits is set.
pub proof fn lemma_row_ink(row: u8)
    ensures
        (row != 0) == (exists|b: int| 0 <= b < 8 && sprite_bit(row, b)),
{
    assert(row != 0 <==> ((row >> 7u8) & 1u8 == 1u8 || (row >> 6u8) & 1u8 == 1u8 || (row >> 5u8)
        & 1u8 == 1u8 || (row >> 4u8) & 1u8 == 1u8 || (row >> 3u8) & 1u8 == 1u8 || (row >> 2u8) & 1u8
        == 1u8 || (row >> 1u8) & 1u8 == 1u8 || (row >> 0u8) & 1u8 == 1u8)) by (bit_vector);
    if row != 0 {
        if sprite_bit(row, 0) {
        } else if sprite_bit(row, 1) {
        } else if sprite_bit(row, 2) {
        } else if sprite_bit(row, 3) {
        } else if sprite_bit(row, 4) {
        } else if sprite_bit(row, 5) {
        } else if sprite_bit(row, 6) {
        } else {
            assert(sprite_bit(row, 7));
        }
    }
}

/// The display: one cell per pixel, stored as 0 or 1, and a latch that says
/// whether any pixel was written since the consumer last cleared it.
pub struct Screen {
    buffer: [u8; SCREEN_PIXELS],
    dirty: bool,
}

impl View for Screen {
    type V = Seq<bool>;

    closed spec fn view(&self) -> Seq<bool> {
        self.buffer@.map_values(|c: u8| c == 1)
    }
}

impl Screen {
    /// The dirty latch.
    pub closed spec fn dirty(&self) -> bool {
        self.dirty
    }

    /// The pixel at `(x, y)`.
    pub open spec fn pixel(&self, x: int, y: int) -> bool {
        self@[pixel_index(x, y)]
    }

    /// A screen has one cell per pixel.
    pub broadcast proof fn lemma_len(s: &Screen)
        ensures
            #[trigger] s@.len() == SCREEN_PIXELS,
    {
    }

    /// A blank display, marked dirty.
    pub fn new() -> (s: Screen)
        ensures
            s@ == blank(),
            s.dirty(),
    {
        let s = Screen { buffer: [0u8; SCREEN_PIXELS], dirty: true };
        assert(s@ =~= blank());
        s
    }

    /// Turns every pixel off and marks the display dirty.
    pub fn clear(&mut self)
        ensures
            final(self)@ == blank(),
            final(self).dirty(),
    {
        *self = Screen::new();
    }

    /// Clears the dirty latch, once the consumer has sampled the buffer.
    pub fn reset_dirty(&mut self)
        ensures
            final(self)@ == old(self)@,
            !final(self).dirty(),
    {
        self.dirty = false;
    }

    pub fn is_dirty(&self) -> (r: bool)
        ensures
            r == self.dirty(),
    {
        self.dirty
    }

    /// Writes one pixel; the display is marked dirty whether or not it changed.
    pub fn set_pixel(&mut self, x: usize, y: usize, v: bool)
        requires
            x < SCREEN_WIDTH,
            y < SCREEN_HEIGHT,
        ensures
            final(self)@ == old(self)@.update(pixel_index(x as int, y as int), v),
            final(self).dirty(),
    {
        let k = x + y * SCREEN_WIDTH;
        self.buffer[k] = if v { 1 } else { 0 };
        self.dirty = true;
        assert(self@ =~= old(self)@.update(k as int, v));
    }

    pub fn get_pixel(&self, x: usize, y: usize) -> (r: bool)
        requires
            x < SCREEN_WIDTH,
            y < SCREEN_HEIGHT,
        ensures
            r == self.pixel(x as int, y as int),
    {
        self.buffer[x + y * SCREEN_WIDTH] == 1
    }
    /// XORs `sprite` onto the display at `(x, y)`, wrapping at the edges, and
    /// returns whether a lit pixel was hit (see `draw`). The display is marked
    /// dirty when the sprite has a set bit.
    pub fn draw_sprite(&mut self, x: usize, y: usize, sprite: &[u8]) -> (r: bool)
        ensures
            (final(self)@, r) == draw(old(self)@, x as int, y as int, sprite@),
            final(self).dirty() == (old(self).dirty() || has_ink(sprite@)),
    {
        let rows = sprite.len();
        let mut collision = false;
        let mut j: usize = 0;
        while j < rows
            invariant
                j <= rows,
                rows == sprite@.len(),
                (self@, collision) == draw_rows(old(self)@, x as int, y as int, sprite@, j as nat),
                self.dirty() == (old(self).dirty() || exists|k: int|
                    0 <= k < j && sprite@[k] != 0),
            decreases rows - j,
        {
            let row = sprite[j];
            let yj = (y % SCREEN_HEIGHT + j % SCREEN_HEIGHT) % SCREEN_HEIGHT;
            proof {
                lemma_add_mod_noop(y as int, j as int, SCREEN_HEIGHT as int);
            }
            let ghost p0 = self@;
            let ghost h0 = collision;
            let ghost d0 = self.dirty();
            let mut i: usize = 0;
            while i < 8
                invariant
                    i <= 8,
                    yj < SCREEN_HEIGHT,
                    yj == (y + j) % (SCREEN_HEIGHT as int),
                    (self@, collision) == draw_row(p0, h0, x as int, y + j, row, i as nat),
                    self.dirty() == (d0 || exists|b: int| 0 <= b < i && sprite_bit(row, b)),
                decreases 8 - i,
            {
                let bit = (row >> (7 - i) as u8) & 1u8;
                if bit == 1 {
                    let xi = (x % SCREEN_WIDTH + i) % SCREEN_WIDTH;
                    proof {
                        lemma_add_mod_noop(x as int, i as int, SCREEN_WIDTH as int);
                    }
                    let old_value = self.get_pixel(xi, yj);
                    if old_value {
                        collision = true;
                    }
                    self.set_pixel(xi, yj, !old_value);
                }
                assert((exists|b: int| 0 <= b < i + 1 && sprite_bit(row, b)) == ((exists|b: int|
                    0 <= b < i && sprite_bit(row, b)) || sprite_bit(row, i as int)));
                i += 1;
            }
            proof {
                lemma_row_ink(row);
                assert((exists|k: int| 0 <= k < j + 1 && sprite@[k] != 0) == ((exists|k: int|
                    0 <= k < j && sprite@[k] != 0) || row != 0));
            }
            j += 1;
        }
        assert(sprite@.subrange(0, rows as int) =~= sprite@);
        collision
    }
}

} // verus!
