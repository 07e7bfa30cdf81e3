//! The framebuffer: a 64 x 32 grid of one-bit pixels, stored row by row,
//! onto which sprite rows are XOR-ed with wraparound on both axes.

use vstd::prelude::*;

verus! {

pub const WIDTH: usize = 64;
pub const HEIGHT: usize = 32;
pub const SCALE: usize = 10;
pub const SCREEN_WIDTH: usize = 640;
pub const SCREEN_HEIGHT: usize = 320;
/// Number of pixels in the framebuffer.
pub const PIXELS: usize = 2048;

pub struct Display {
    pub screen: [u8; 2048],
}

/// Bit `k` of a sprite row, counted from the most significant bit.
pub open spec fn sprite_bit(byte: u8, k: int) -> u8
    recommends
        0 <= k < 8,
{
    (byte >> ((7 - k) as u8)) & 1u8
}

/// Which bit of a sprite row drawn at column `x` lands on column `col`:
/// the distance from `x` to `col`, going right and wrapping at the edge.
/// The row covers `col` when the result is below 8.
pub open spec fn sprite_offset(x: u8, col: int) -> int {
    (col + 64 - (x as int) % 64) % 64
}

/// Whether drawing the first `bits` bits of a sprite row at `(x, y)`
/// touches the pixel at `index`.
pub open spec fn covers(x: u8, y: u8, bits: int, index: int) -> bool {
    index / 64 == (y as int) % 32 && sprite_offset(x, index % 64) < bits
}

/// The pixel at `index` after the first `bits` bits of `byte` were XOR-ed
/// in at `(x, y)`.
pub open spec fn drawn_pixel(screen: Seq<u8>, x: u8, y: u8, byte: u8, bits: int, index: int) -> u8 {
    if covers(x, y, bits, index) {
        screen[index] ^ sprite_bit(byte, sprite_offset(x, index % 64))
    } else {
        screen[index]
    }
}

/// The screen after a whole sprite row was drawn at `(x, y)`.
#[verifier::opaque]
pub open spec fn draw_screen(screen: Seq<u8>, x: u8, y: u8, byte: u8) -> Seq<u8> {
    Seq::new(screen.len(), |index: int| drawn_pixel(screen, x, y, byte, 8, index))
}

/// Whether the pixel at `index` goes from 1 to 0 when the first `bits` bits
/// of `byte` are drawn at `(x, y)`.
pub open spec fn erased_at(screen: Seq<u8>, x: u8, y: u8, byte: u8, bits: int, index: int) -> bool {
    0 <= index < screen.len() && screen[index] == 1 && drawn_pixel(screen, x, y, byte, bits, index)
        == 0
}

/// Whether drawing the sprite row erases at least one pixel.
#[verifier::opaque]
pub open spec fn draw_erases(screen: Seq<u8>, x: u8, y: u8, byte: u8) -> bool {
    exists|index: int| #[trigger] erased_at(screen, x, y, byte, 8, index)
}

/// A screen with every pixel off.
pub open spec fn blank_screen() -> Seq<u8> {
    Seq::new(2048, |index: int| 0u8)
}

/// Every pixel is 0 or 1.
pub open spec fn binary(screen: Seq<u8>) -> bool {
    forall|index: int| 0 <= index < screen.len() ==> #[trigger] screen[index] <= 1
}

/// A column lies `k` to the right of `x` exactly when it is `(x + k) mod 64`.
proof fn lemma_offset_unique(x: u8, k: int, col: int)
    requires
        0 <= k < 64,
        0 <= col < 64,
    ensures
        sprite_offset(x, col) == k <==> col == (x + k) % 64,
{
}

/// Drawing one more bit changes the pixel under that bit and no other.
proof fn lemma_draw_bit(before: Seq<u8>, x: u8, y: u8, byte: u8, k: int, bits: int, index: int)
    requires
        before.len() == 2048,
        0 <= k < 8,
        bits == k + 1,
        index == ((y as int) % 32) * 64 + (x + k) % 64,
    ensures
        0 <= index < 2048,
        drawn_pixel(before, x, y, byte, k, index) == before[index],
        drawn_pixel(before, x, y, byte, bits, index) == before[index] ^ sprite_bit(byte, k),
        forall|other: int|
            other != index ==> #[trigger] drawn_pixel(before, x, y, byte, bits, other)
                == drawn_pixel(before, x, y, byte, k, other),
        (exists|other: int| #[trigger] erased_at(before, x, y, byte, bits, other)) <==> (
        exists|other: int| #[trigger] erased_at(before, x, y, byte, k, other)) || (before[index]
            == 1 && before[index] ^ sprite_bit(byte, k) == 0),
{
    lemma_offset_unique(x, k, index % 64);
    assert(index / 64 == (y as int) % 32);
    assert(covers(x, y, bits, index));
    assert(!covers(x, y, k, index));
    assert forall|other: int| other != index implies #[trigger] drawn_pixel(
        before,
        x,
        y,
        byte,
        bits,
        other,
    ) == drawn_pixel(before, x, y, byte, k, other) by {
        if other / 64 == (y as int) % 32 {
            lemma_offset_unique(x, k, other % 64);
        }
    }
    if before[index] == 1 && before[index] ^ sprite_bit(byte, k) == 0 {
        assert(erased_at(before, x, y, byte, bits, index));
    }
    if exists|other: int| #[trigger] erased_at(before, x, y, byte, bits, other) {
        let other = choose|other: int| #[trigger] erased_at(before, x, y, byte, bits, other);
        if other != index {
            assert(erased_at(before, x, y, byte, k, other));
        }
    }
    if exists|other: int| #[trigger] erased_at(before, x, y, byte, k, other) {
        let other = choose|other: int| #[trigger] erased_at(before, x, y, byte, k, other);
        assert(erased_at(before, x, y, byte, bits, other));
    }
}

/// Whether drawing the sprite row turns at least one pixel from 0 to 1.
pub open spec fn draw_lights(screen: Seq<u8>, x: u8, y: u8, byte: u8) -> bool {
    exists|index: int| #[trigger]
        lit_at(screen, x, y, byte, index)
}

/// Whether the pixel at `index` goes from 0 to 1 when `byte` is drawn at
/// `(x, y)`.
pub open spec fn lit_at(screen: Seq<u8>, x: u8, y: u8, byte: u8, index: int) -> bool {
    0 <= index < screen.len() && screen[index] == 0 && drawn_pixel(screen, x, y, byte, 8, index)
        == 1
}

/// Drawing the same sprite row twice at the same place restores every
/// pixel, and the second draw erases a pixel exactly when the first one
/// lit one.
pub proof fn lemma_draw_twice(screen: Seq<u8>, x: u8, y: u8, byte: u8)
    ensures
        draw_screen(draw_screen(screen, x, y, byte), x, y, byte) == screen,
        draw_erases(draw_screen(screen, x, y, byte), x, y, byte) == draw_lights(
            screen,
            x,
            y,
            byte,
        ),
{
    reveal(draw_screen);
    reveal(draw_erases);
    let once = draw_screen(screen, x, y, byte);
    let twice = draw_screen(once, x, y, byte);
    assert forall|index: int| 0 <= index < screen.len() implies #[trigger] drawn_pixel(
        once,
        x,
        y,
        byte,
        8,
        index,
    ) == screen[index] by {
        let p = screen[index];
        let b = sprite_bit(byte, sprite_offset(x, index % 64));
        assert((p ^ b) ^ b == p) by (bit_vector);
    }
    assert(twice =~= screen);
    if draw_lights(screen, x, y, byte) {
        let index = choose|index: int| #[trigger] lit_at(screen, x, y, byte, index);
        assert(erased_at(once, x, y, byte, 8, index));
    }
    if draw_erases(once, x, y, byte) {
        let index = choose|index: int| #[trigger] erased_at(once, x, y, byte, 8, index);
        assert(lit_at(screen, x, y, byte, index));
    }
}

/// A sprite row drawn at the last column wraps: its first bit lands on
/// column 63 and the seven others on columns 0 to 6 of the same row.
pub proof fn lemma_draw_wraps(screen: Seq<u8>, y: u8, byte: u8, k: int)
    requires
        screen.len() == 2048,
        0 <= k < 8,
    ensures
        draw_screen(screen, 63, y, byte)[(y as int % 32) * 64 + 63] == screen[(y as int % 32) * 64
            + 63] ^ sprite_bit(byte, 0),
        k >= 1 ==> draw_screen(screen, 63, y, byte)[(y as int % 32) * 64 + k - 1] == screen[(y as int
            % 32) * 64 + k - 1] ^ sprite_bit(byte, k),
{
    reveal(draw_screen);
    let row = y as int % 32;
    assert(covers(63, y, 8, row * 64 + 63));
    assert(sprite_offset(63, (row * 64 + 63) % 64) == 0);
    if k >= 1 {
        assert(covers(63, y, 8, row * 64 + k - 1));
        assert(sprite_offset(63, (row * 64 + k - 1) % 64) == k);
    }
}

/// Two sprite rows drawn one after the other give the same screen in
/// either order.
pub proof fn lemma_draw_commutes(screen: Seq<u8>, x: u8, y: u8, byte: u8, other_y: u8, other: u8)
    ensures
        draw_screen(draw_screen(screen, x, y, byte), x, other_y, other) == draw_screen(
            draw_screen(screen, x, other_y, other),
            x,
            y,
            byte,
        ),
{
    reveal(draw_screen);
    let one = draw_screen(draw_screen(screen, x, y, byte), x, other_y, other);
    let two = draw_screen(draw_screen(screen, x, other_y, other), x, y, byte);
    assert forall|index: int| 0 <= index < screen.len() implies one[index] == two[index] by {
        let p = screen[index];
        let a = sprite_bit(byte, sprite_offset(x, index % 64));
        let b = sprite_bit(other, sprite_offset(x, index % 64));
        assert((p ^ a) ^ b == (p ^ b) ^ a) by (bit_vector);
    }
    assert(one =~= two);
}

/// A pixel that is 1 before a sprite row is drawn and 0 after it was
/// erased by that row.
pub proof fn lemma_draw_erases_at(screen: Seq<u8>, x: u8, y: u8, byte: u8, index: int)
    requires
        0 <= index < screen.len(),
        screen[index] == 1,
        draw_screen(screen, x, y, byte)[index] == 0,
    ensures
        draw_erases(screen, x, y, byte),
{
    reveal(draw_screen);
    reveal(draw_erases);
    assert(erased_at(screen, x, y, byte, 8, index));
}

/// Drawing a sprite row keeps the size of the screen.
pub proof fn lemma_draw_len(screen: Seq<u8>, x: u8, y: u8, byte: u8)
    ensures
        draw_screen(screen, x, y, byte).len() == screen.len(),
{
    reveal(draw_screen);
}

/// A sprite row drawn onto a screen of zeros and ones leaves one.
pub proof fn lemma_draw_keeps_binary(screen: Seq<u8>, x: u8, y: u8, byte: u8)
    requires
        binary(screen),
    ensures
        binary(draw_screen(screen, x, y, byte)),
{
    reveal(draw_screen);
    let after = draw_screen(screen, x, y, byte);
    assert forall|index: int| 0 <= index < after.len() implies #[trigger] after[index] <= 1 by {
        let p = screen[index];
        let shift = (7 - sprite_offset(x, index % 64)) as u8;
        assert(p <= 1 ==> p ^ ((byte >> shift) & 1) <= 1) by (bit_vector);
    }
}

/// The colour in which the host shows a pixel: black where it is off,
/// white where it is on.
pub open spec fn pixel_color(pixel: u8) -> u32 {
    if pixel == 0 {
        0x000000u32
    } else {
        0xffffffu32
    }
}

/// The pixel of the framebuffer that the host's pixel `p` shows, the host
/// image being 640 wide and each pixel 10 by 10.
pub open spec fn shown_pixel(p: int) -> int {
    (p / 640 / 10) * 64 + (p % 640) / 10
}

/// The host image of a screen, row by row.
pub open spec fn image(screen: Seq<u8>) -> Seq<u32> {
    Seq::new(204800, |p: int| pixel_color(screen[shown_pixel(p)]))
}

impl Display {
    /// A blank screen.
    pub fn new() -> (d: Display)
        ensures
            d.screen@ == blank_screen(),
            binary(d.screen@),
    {
        let d = Display { screen: [0u8;2048] };
        assert(d.screen@ =~= blank_screen());
        d
    }

    /// XORs the eight bits of `byte`, most significant first, into the
    /// pixels from `(x mod 64, y mod 32)` rightwards, wrapping to column 0
    /// past the right edge. Returns whether any pixel went from 1 to 0.
    pub fn draw(&mut self, x: u8, y: u8, byte: u8) -> (erased: bool)
        ensures
            final(self).screen@ == draw_screen(old(self).screen@, x, y, byte),
            erased == draw_erases(old(self).screen@, x, y, byte),
            binary(old(self).screen@) ==> binary(final(self).screen@),
    {
        let ghost before = self.screen@;
        let mut erased = false;
        let row: usize = (y as usize) % HEIGHT;
        let mut k: u8 = 0;
        while k < 8
            invariant
                k <= 8,
                before.len() == 2048,
                row == (y as int) % 32,
                forall|index: int|
                    0 <= index < 2048 ==> #[trigger] self.screen@[index] == drawn_pixel(
                        before,
                        x,
                        y,
                        byte,
                        k as int,
                        index,
                    ),
                erased == exists|index: int| #[trigger] erased_at(before, x, y, byte, k as int, index),
                binary(before) ==> binary(self.screen@),
            decreases 8 - k,
        {
            let col: usize = (x as usize + k as usize) % WIDTH;
            let index: usize = row * WIDTH + col;
            let shift: u8 = 7 - k;
            let bit: u8 = (byte >> shift) & 1;
            let prev_value: u8 = self.screen[index];
            let next_value: u8 = prev_value ^ bit;
            assert(bit <= 1) by (bit_vector)
                requires
                    bit == (byte >> shift) & 1,
            ;
            assert(prev_value <= 1 ==> next_value <= 1) by (bit_vector)
                requires
                    next_value == prev_value ^ bit,
                    bit <= 1,
            ;
            self.screen[index] = next_value;
            proof {
                lemma_draw_bit(before, x, y, byte, k as int, k + 1, index as int);
            }
            if prev_value == 1 && next_value == 0 {
                erased = true;
            }
            k += 1;
        }
        proof {
            reveal(draw_screen);
            reveal(draw_erases);
        }
        assert(self.screen@ =~= draw_screen(before, x, y, byte));
        erased
    }

    /// Resets every pixel to 0.
    pub fn clear(&mut self)
        ensures
            final(self).screen@ == blank_screen(),
    {
        self.screen = [0u8;2048];
        assert(self.screen@ =~= blank_screen());
    }

    /// Whether every pixel is 0 or 1.
    pub fn is_binary(&self) -> (b: bool)
        ensures
            b == binary(self.screen@),
    {
        let mut index: usize = 0;
        while index < PIXELS
            invariant
                index <= 2048,
                forall|seen: int| 0 <= seen < index ==> #[trigger] self.screen@[seen] <= 1,
            decreases 2048 - index,
        {
            if self.screen[index] > 1 {
                return false;
            }
            index += 1;
        }
        true
    }

    /// Writes the host image into `buffer`: 640 by 320 colours, each
    /// pixel of the screen as a square of 10 by 10, black for 0 and white
    /// for 1.
    pub fn render(&self, buffer: &mut Vec<u32>)
        requires
            binary(self.screen@),
        ensures
            final(buffer)@ == image(self.screen@),
    {
        buffer.clear();
        let mut p: usize = 0;
        while p < SCREEN_WIDTH * SCREEN_HEIGHT
            invariant
                p <= 204800,
                buffer@.len() == p,
                forall|q: int|
                    0 <= q < p ==> #[trigger] buffer@[q] == pixel_color(
                        self.screen@[shown_pixel(q)],
                    ),
            decreases 204800 - p,
        {
            let index: usize = (p / SCREEN_WIDTH / SCALE) * WIDTH + (p % SCREEN_WIDTH) / SCALE;
            let color: u32 = if self.screen[index] == 0 {
                0x000000
            } else {
                0xffffff
            };
            buffer.push(color);
            p += 1;
        }
        assert(buffer@ =~= image(self.screen@));
    }
}

} // verus!
