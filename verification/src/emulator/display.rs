use vstd::prelude::*;

verus! {

/// The number of pixel columns.
pub const DISPLAY_WIDTH: usize = 64;

/// The number of pixel rows.
pub const DISPLAY_HEIGHT: usize = 32;

/// The colour of a lit pixel in a rendered frame.
pub const WHITE: u32 = 0xFFFFFF;

/// The colour of a dark pixel in a rendered frame.
pub const BLACK: u32 = 0x000000;

/// Whether the pixel in column `x` is lit in the row bitmask `row`; column 0
/// is the most significant bit.
pub open spec fn pixel_lit(row: u64, x: int) -> bool {
    (row >> ((63 - x) as u64)) & 1 == 1
}

/// The colour of the pixel in column `x` of the row bitmask `row`.
pub open spec fn pixel_colour(row: u64, x: int) -> u32 {
    if pixel_lit(row, x) {
        WHITE
    } else {
        BLACK
    }
}

/// Whether a sprite row whose left edge is at column `offset_x` can be placed
/// on the display: from column 120 to column 248 (taken modulo 256) the
/// placement does not fit the signed byte arithmetic that positions it.
pub open spec fn sprite_x_in_range(offset_x: usize) -> bool {
    offset_x % 256 < 120 || offset_x % 256 >= 249
}

/// The row bitmask that one sprite byte covers when its left edge is at
/// column `offset_x`: the byte is shifted so that its most significant bit
/// lands on that column, and the pixels past the right edge are cut off.
/// Columns 249 to 255 (modulo 256) count as columns -7 to -1, which leaves
/// only the low bits of the byte at the left edge.
pub open spec fn sprite_row_mask(byte: u8, offset_x: usize) -> u64 {
    let t = offset_x % 256;
    if t < 56 {
        (byte as u64) << ((56 - t) as u64)
    } else if t < 120 {
        (byte as u64) >> ((t - 56) as u64)
    } else {
        (byte as u64) << ((312 - t) as u64)
    }
}

/// The column of the leftmost pixel of a sprite drawn at `offset_x`: the
/// column modulo 256, where 249 to 255 stand for -7 to -1.
pub open spec fn sprite_left(offset_x: usize) -> int {
    let t = offset_x % 256;
    if t >= 249 {
        t - 256
    } else {
        t as int
    }
}

/// Whether the sprite row `byte`, drawn with its left edge at `offset_x`,
/// has a pixel in display column `x`: pixel `j` of the row (from the most
/// significant bit) lands on column `sprite_left(offset_x) + j`.
pub open spec fn sprite_pixel(byte: u8, offset_x: usize, x: int) -> bool {
    let j = x - sprite_left(offset_x);
    0 <= j < 8 && ((byte as u64) >> ((7 - j) as u64)) & 1 == 1
}

proof fn lemma_shl_bit(b: u64, s: u64, k: u64)
    requires
        b < 256,
        s < 64,
        k < 64,
    ensures
        ((b << s) >> k) & 1 == 1 <==> (s <= k && k <= s + 7 && (b >> ((k - s) as u64)) & 1 == 1),
{
    assert(((b << s) >> k) & 1 == 1 <==> (s <= k && k <= s + 7 && (b >> ((k - s) as u64)) & 1 == 1))
        by (bit_vector)
        requires
            b < 256,
            s < 64,
            k < 64,
    ;
}

proof fn lemma_shr_bit(b: u64, s: u64, k: u64)
    requires
        b < 256,
        s < 64,
        k < 64,
    ensures
        ((b >> s) >> k) & 1 == 1 <==> (k + s <= 7 && (b >> ((k + s) as u64)) & 1 == 1),
{
    assert(((b >> s) >> k) & 1 == 1 <==> (k + s <= 7 && (b >> ((k + s) as u64)) & 1 == 1))
        by (bit_vector)
        requires
            b < 256,
            s < 64,
            k < 64,
    ;
}

/// The row mask of a sprite byte lights exactly the columns in which the
/// byte has a pixel.
pub proof fn lemma_sprite_row_mask_pixels(byte: u8, offset_x: usize, x: int)
    requires
        sprite_x_in_range(offset_x),
        0 <= x < DISPLAY_WIDTH,
    ensures
        pixel_lit(sprite_row_mask(byte, offset_x), x) == sprite_pixel(byte, offset_x, x),
{
    let t = offset_x % 256;
    let b = byte as u64;
    let k = (63 - x) as u64;
    if t < 56 {
        lemma_shl_bit(b, (56 - t) as u64, k);
    } else if t < 120 {
        lemma_shr_bit(b, (t - 56) as u64, k);
    } else {
        lemma_shl_bit(b, (312 - t) as u64, k);
    }
}

/// Whether display row `r` is covered by the sprite `sprite` drawn with its
/// top row at `offset_y`.
pub open spec fn sprite_covers_row(sprite: Seq<u8>, offset_y: usize, r: int) -> bool {
    offset_y <= r < offset_y + sprite.len()
}

/// The mask that the sprite XORs onto display row `r`.
pub open spec fn sprite_mask_at(sprite: Seq<u8>, offset_x: usize, offset_y: usize, r: int) -> u64 {
    sprite_row_mask(sprite[r - offset_y], offset_x)
}

/// The display rows after XOR-ing `sprite` onto `rows` at (`offset_x`,
/// `offset_y`); rows below the bottom edge are cut off.
pub open spec fn drawn_rows(rows: Seq<u64>, sprite: Seq<u8>, offset_x: usize, offset_y: usize) -> Seq<u64> {
    Seq::new(
        rows.len(),
        |r: int|
            if sprite_covers_row(sprite, offset_y, r) {
                rows[r] ^ sprite_mask_at(sprite, offset_x, offset_y, r)
            } else {
                rows[r]
            },
    )
}

/// Whether drawing `sprite` onto `rows` turns off a pixel that was lit.
pub open spec fn sprite_collides(rows: Seq<u64>, sprite: Seq<u8>, offset_x: usize, offset_y: usize) -> bool {
    exists|r: int|
        0 <= r < rows.len() && sprite_covers_row(sprite, offset_y, r) && #[trigger] (sprite_mask_at(
            sprite,
            offset_x,
            offset_y,
            r,
        ) & rows[r]) != 0
}

/// Whether a sprite of the given bytes can be drawn at (`offset_x`,
/// `offset_y`): either no row of it reaches the display or its column fits.
pub open spec fn sprite_drawable(sprite: Seq<u8>, offset_x: usize, offset_y: usize) -> bool {
    sprite.len() == 0 || offset_y >= DISPLAY_HEIGHT || sprite_x_in_range(offset_x)
}

/// A monochrome 64 x 32 screen.
pub struct Display {
    /// One bitmask per row of pixels; column 0 is the most significant bit.
    pixels: [u64; 32],
}

fn row_mask(bitmask: u8, offset_x: usize) -> (r: u64)
    requires
        sprite_x_in_range(offset_x),
    ensures
        r == sprite_row_mask(bitmask, offset_x),
{
    let t = offset_x % 256;
    let b = bitmask as u64;
    if t < 56 {
        b << ((56 - t) as u64)
    } else if t < 120 {
        b >> ((t - 56) as u64)
    } else {
        b << ((312 - t) as u64)
    }
}

impl Display {
    pub closed spec fn view(&self) -> Seq<u64> {
        self.pixels@
    }

    /// The display has one row bitmask for each of its 32 rows.
    pub proof fn lemma_len(&self)
        ensures
            self@.len() == DISPLAY_HEIGHT,
    {
    }

    /// A display with every pixel dark.
    pub fn new() -> (r: Self)
        ensures
            r@ == Seq::new(DISPLAY_HEIGHT as nat, |r: int| 0u64),
    {
        let r = Self { pixels: [0; 32] };
        assert(r@ =~= Seq::new(DISPLAY_HEIGHT as nat, |r: int| 0u64));
        r
    }

    /// The frame as 64 x 32 colours, row by row from the top left.
    pub fn render(&self) -> (r: [u32; 2048])
        ensures
            forall|i: int|
                0 <= i < 2048 ==> #[trigger] r@[i] == pixel_colour(self@[i / 64], i % 64),
    {
        let mut result = [BLACK; 2048];
        let mut idx: usize = 0;
        let mut row: usize = 0;
        while row < DISPLAY_HEIGHT
            invariant
                row <= DISPLAY_HEIGHT,
                idx == row * 64,
                self@.len() == DISPLAY_HEIGHT,
                result@.len() == 2048,
                forall|i: int| 0 <= i < idx ==> #[trigger] result@[i] == pixel_colour(self@[i / 64], i % 64),
            decreases DISPLAY_HEIGHT - row,
        {
            let bitmask = self.pixels[row];
            let mut offset: usize = DISPLAY_WIDTH;
            while offset > 0
                invariant
                    row < DISPLAY_HEIGHT,
                    offset <= DISPLAY_WIDTH,
                    idx == row * 64 + (64 - offset),
                    bitmask == self@[row as int],
                    result@.len() == 2048,
                    forall|i: int| 0 <= i < idx ==> #[trigger] result@[i] == pixel_colour(self@[i / 64], i % 64),
                decreases offset,
            {
                offset -= 1;
                let colour = if (bitmask >> offset) & 1 == 1 {
                    WHITE
                } else {
                    BLACK
                };
                assert(idx / 64 == row && idx % 64 == 63 - offset) by (nonlinear_arith)
                    requires idx == row * 64 + (63 - offset), offset < 64;
                result[idx] = colour;
                idx += 1;
            }
            row += 1;
        }
        result
    }

    /// Turns every pixel dark.
    pub fn clear(&mut self)
        ensures
            final(self)@ == Seq::new(DISPLAY_HEIGHT as nat, |r: int| 0u64),
    {
        let mut row: usize = 0;
        while row < DISPLAY_HEIGHT
            invariant
                row <= DISPLAY_HEIGHT,
                self@.len() == DISPLAY_HEIGHT,
                forall|r: int| 0 <= r < row ==> #[trigger] self@[r] == 0u64,
            decreases DISPLAY_HEIGHT - row,
        {
            self.pixels[row] = 0;
            row += 1;
        }
        assert(self@ =~= Seq::new(DISPLAY_HEIGHT as nat, |r: int| 0u64));
    }

    /// XORs the sprite whose rows are `pixel_bitmasks` onto the display with
    /// its top left corner at (`offset_x`, `offset_y`), and tells whether a
    /// lit pixel was turned off.
    pub fn draw_sprite(&mut self, pixel_bitmasks: &[u8], offset_x: usize, offset_y: usize) -> (r: bool)
        requires
            sprite_drawable(pixel_bitmasks@, offset_x, offset_y),
        ensures
            final(self)@ == drawn_rows(old(self)@, pixel_bitmasks@, offset_x, offset_y),
            r == sprite_collides(old(self)@, pixel_bitmasks@, offset_x, offset_y),
    {
        let ghost sprite = pixel_bitmasks@;
        let ghost rows = old(self)@;
        let mut pixels_overlapped = false;
        let mut idx: usize = 0;
        while idx < pixel_bitmasks.len()
            invariant_except_break
                idx <= sprite.len(),
                idx > 0 ==> idx + offset_y <= DISPLAY_HEIGHT,
            invariant
                sprite == pixel_bitmasks@,
                rows == old(self)@,
                rows.len() == DISPLAY_HEIGHT,
                self@.len() == DISPLAY_HEIGHT,
                sprite_drawable(sprite, offset_x, offset_y),
                forall|r: int|
                    0 <= r < DISPLAY_HEIGHT ==> #[trigger] self@[r] == if sprite_covers_row(
                        sprite,
                        offset_y,
                        r,
                    ) && r < offset_y + idx {
                        rows[r] ^ sprite_mask_at(sprite, offset_x, offset_y, r)
                    } else {
                        rows[r]
                    },
                pixels_overlapped == exists|r: int|
                    0 <= r < DISPLAY_HEIGHT && sprite_covers_row(sprite, offset_y, r) && r
                        < offset_y + idx && #[trigger] (sprite_mask_at(sprite, offset_x, offset_y, r)
                        & rows[r]) != 0,
            ensures
                forall|r: int|
                    0 <= r < DISPLAY_HEIGHT ==> #[trigger] self@[r] == if sprite_covers_row(
                        sprite,
                        offset_y,
                        r,
                    ) {
                        rows[r] ^ sprite_mask_at(sprite, offset_x, offset_y, r)
                    } else {
                        rows[r]
                    },
                pixels_overlapped == sprite_collides(rows, sprite, offset_x, offset_y),
            decreases sprite.len() - idx,
        {
            if idx + offset_y >= DISPLAY_HEIGHT {
                break;
            }
            let row = idx + offset_y;
            let extended_bitmask = row_mask(pixel_bitmasks[idx], offset_x);
            assert(sprite_mask_at(sprite, offset_x, offset_y, row as int) == extended_bitmask);
            if extended_bitmask & self.pixels[row] > 0 {
                pixels_overlapped = true;
            }
            self.pixels[row] ^= extended_bitmask;
            idx += 1;
        }
        assert(self@ =~= drawn_rows(rows, sprite, offset_x, offset_y));
        pixels_overlapped
    }
}

} // verus!
