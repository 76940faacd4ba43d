//! The 64x32 one-bit display and sprite drawing.

use crate::bits::{bit_at, msb0_bit, set_bit, MAX_VIEW_BYTES};
use vstd::prelude::*;

verus! {

/// Pixels in a row.
pub const DISPLAY_WIDTH: usize = 64;

/// Rows on the display.
pub const DISPLAY_HEIGHT: usize = 32;

/// Bytes that hold the display, eight pixels to a byte.
pub const DISPLAY_BYTES: usize = 256;

/// Width of a sprite row in pixels.
pub const SPRITE_WIDTH: usize = 8;

/// Place of pixel `(x, y)` in row-major order.
pub open spec fn pixel_index(x: int, y: int) -> int {
    y * 64 + x
}

/// A display with every pixel off.
pub open spec fn blank_pixels() -> Seq<bool> {
    Seq::new(2048, |i: int| false)
}

/// How many rows of an `n`-row sprite placed at row `y0` lie on the display:
/// rows past the bottom edge are cut off.
pub open spec fn visible_rows(y0: int, n: int) -> int {
    if y0 >= 32 {
        0
    } else if n <= 32 - y0 {
        n
    } else {
        32 - y0
    }
}

/// Whether an `n`-row sprite with its top left corner at `(x0, y0)` extends
/// over the point `(px, py)`.
pub open spec fn sprite_covers(x0: int, y0: int, n: int, px: int, py: int) -> bool {
    x0 <= px < x0 + 8 && y0 <= py < y0 + n
}

/// Bit `col` of sprite row `row`, where row `r` of the sprite is the byte
/// `memory[start + r]` and column 0 is its most significant bit.
pub open spec fn sprite_bit(memory: Seq<u8>, start: int, row: int, col: int) -> bool {
    msb0_bit(memory, (start + row) * 8 + col)
}

/// Whether the sprite extends over pixel `i`, counted in row-major order.
pub open spec fn covers_pixel(x0: int, y0: int, n: int, i: int) -> bool {
    sprite_covers(x0, y0, n, i % 64, i / 64)
}

/// Whether the sprite, placed at `(x0, y0)`, has a set bit on pixel `i`.
pub open spec fn sprite_at(memory: Seq<u8>, start: int, x0: int, y0: int, n: int, i: int) -> bool {
    covers_pixel(x0, y0, n, i) && sprite_bit(
        memory,
        start,
        i / 64 - y0,
        i % 64 - x0,
    )
}

/// The display after the sprite is drawn: each pixel under a set sprite bit
/// is flipped, every other pixel stays. Parts of the sprite beyond the right
/// or bottom edge touch no pixel.
pub open spec fn draw_pixels(
    pixels: Seq<bool>,
    memory: Seq<u8>,
    start: int,
    x0: int,
    y0: int,
    n: int,
) -> Seq<bool> {
    Seq::new(2048, |i: int| pixels[i] != sprite_at(memory, start, x0, y0, n, i))
}

/// Whether some pixel before place `cur` is on and under a set sprite bit.
pub open spec fn collides_before(
    pixels: Seq<bool>,
    memory: Seq<u8>,
    start: int,
    x0: int,
    y0: int,
    n: int,
    cur: int,
) -> bool {
    exists|i: int|
        0 <= i < cur && i < 2048 && pixels[i] && #[trigger] sprite_at(memory, start, x0, y0, n, i)
}

/// Whether drawing the sprite turns some pixel off: a pixel that is on lies
/// under a set sprite bit.
pub open spec fn draw_collides(
    pixels: Seq<bool>,
    memory: Seq<u8>,
    start: int,
    x0: int,
    y0: int,
    n: int,
) -> bool {
    collides_before(pixels, memory, start, x0, y0, n, 2048)
}

/// The display: 2048 pixels packed row by row, eight to a byte, the leftmost
/// pixel of each byte in its most significant bit.
pub struct Framebuffer {
    bytes: Vec<u8>,
}

impl View for Framebuffer {
    type V = Seq<bool>;

    /// The pixels in row-major order.
    closed spec fn view(&self) -> Seq<bool> {
        Seq::new(2048, |i: int| msb0_bit(self.bytes@, i))
    }
}

impl Framebuffer {
    /// The buffer has its fixed size.
    pub closed spec fn wf(&self) -> bool {
        self.bytes@.len() == 256
    }

    /// A well-formed display shows 2048 pixels.
    pub proof fn lemma_view_len(&self)
        ensures
            self@.len() == 2048,
    {
    }

    /// A display with every pixel off.
    pub fn new() -> (fb: Framebuffer)
        ensures
            fb.wf(),
            fb@ == blank_pixels(),
    {
        let fb = Framebuffer { bytes: vec![0u8; 256] };
        assert(fb@ =~= blank_pixels());
        fb
    }

    /// Whether pixel `(x, y)` is on.
    pub fn get(&self, x: u8, y: u8) -> (on: bool)
        requires
            self.wf(),
            x < 64,
            y < 32,
        ensures
            on == self@[pixel_index(x as int, y as int)],
    {
        let n: usize = y as usize * DISPLAY_WIDTH + x as usize;
        bit_at(&self.bytes, n)
    }

    /// Turns pixel `(x, y)` on or off.
    pub fn set(&mut self, x: u8, y: u8, state: bool)
        requires
            old(self).wf(),
            x < 64,
            y < 32,
        ensures
            final(self).wf(),
            final(self)@ == old(self)@.update(pixel_index(x as int, y as int), state),
    {
        let n: usize = y as usize * DISPLAY_WIDTH + x as usize;
        set_bit(&mut self.bytes, n, state);
        assert(self@ =~= old(self)@.update(pixel_index(x as int, y as int), state));
    }

    /// Turns every pixel off.
    pub fn clear(&mut self)
        requires
            old(self).wf(),
        ensures
            final(self).wf(),
            final(self)@ == blank_pixels(),
    {
        let mut i: usize = 0;
        while i < DISPLAY_BYTES
            invariant
                i <= 256,
                self.bytes@.len() == 256,
                forall|j: int| 0 <= j < i ==> self.bytes@[j] == 0,
            decreases 256 - i,
        {
            self.bytes.set(i, 0);
            i = i + 1;
        }
        assert(self@ =~= blank_pixels());
    }

    /// The packed pixels, as a renderer takes them: 256 bytes, row-major,
    /// most significant bit first.
    pub fn bytes(&self) -> (bytes: &Vec<u8>)
        requires
            self.wf(),
        ensures
            bytes@.len() == 256,
            forall|i: int| 0 <= i < 2048 ==> #[trigger] msb0_bit(bytes@, i) == self@[i],
    {
        &self.bytes
    }

    /// Draws one row of a sprite: the byte `memory[at]` on row `y`, from
    /// column `x0` on, for a draw that has reached the start of that row.
    fn draw_row(
        &mut self,
        x0: u8,
        y: u8,
        memory: &Vec<u8>,
        at: usize,
        Ghost(before): Ghost<Seq<bool>>,
        Ghost(start): Ghost<int>,
        Ghost(y0): Ghost<int>,
        Ghost(n): Ghost<int>,
    ) -> (hit: bool)
        requires
            old(self).wf(),
            x0 < 64,
            y < 32,
            0 <= y0 <= y < y0 + n,
            at == start + (y - y0),
            at < memory@.len() <= MAX_VIEW_BYTES,
            drawn_before(old(self)@, before, memory@, start, x0 as int, y0, n, y * 64),
        ensures
            final(self).wf(),
            drawn_before(final(self)@, before, memory@, start, x0 as int, y0, n, (y + 1) * 64),
            collides_before(before, memory@, start, x0 as int, y0, n, (y + 1) * 64) == (hit
                || collides_before(before, memory@, start, x0 as int, y0, n, y * 64)),
    {
        let cols: usize = if SPRITE_WIDTH <= DISPLAY_WIDTH - x0 as usize {
            SPRITE_WIDTH
        } else {
            DISPLAY_WIDTH - x0 as usize
        };
        let mut hit = false;
        let mut c: usize = 0;
        proof {
            assert forall|i: int| y * 64 <= i < y * 64 + x0 && i < 2048 implies !#[trigger] covers_pixel(x0 as int, y0, n, i) by {}
            lemma_uncovered(self@, before, memory@, start, x0 as int, y0, n, y * 64, y * 64 + x0);
        }
        while c < cols
            invariant
                self.wf(),
                x0 < 64,
                y < 32,
                0 <= y0 <= y < y0 + n,
                c <= cols <= 8,
                x0 + cols <= 64,
                at == start + (y - y0),
                at < memory@.len() <= MAX_VIEW_BYTES,
                drawn_before(self@, before, memory@, start, x0 as int, y0, n, y * 64 + x0 + c),
                collides_before(before, memory@, start, x0 as int, y0, n, y * 64 + x0 + c) == (hit
                    || collides_before(before, memory@, start, x0 as int, y0, n, y * 64)),
            decreases cols - c,
        {
            let x: u8 = x0 + c as u8;
            let ghost cur = pixel_index(x as int, y as int);
            let ghost shown = self@;
            let bit = bit_at(memory, at * 8 + c);
            assert(cur / 64 == y && cur % 64 == x);
            assert(bit == sprite_at(memory@, start, x0 as int, y0, n, cur));
            if bit {
                if self.get(x, y) {
                    self.set(x, y, false);
                    hit = true;
                } else {
                    self.set(x, y, true);
                }
            }
            proof {
                lemma_drawn_one(shown, self@, before, memory@, start, x0 as int, y0, n, cur);
            }
            c = c + 1;
        }
        proof {
            assert forall|i: int|
                y * 64 + x0 + cols <= i < (y + 1) * 64 && i < 2048 implies !#[trigger] covers_pixel(x0 as int, y0, n, i) by {}
            lemma_uncovered(
                self@,
                before,
                memory@,
                start,
                x0 as int,
                y0,
                n,
                y * 64 + x0 + cols,
                (y + 1) * 64,
            );
        }
        hit
    }

    /// Draws the sprite whose rows are the bytes `memory[start..]`, `n` rows
    /// tall, with its top left corner at `(x0, y0)`, by flipping the pixels
    /// under its set bits, and reports whether a pixel went off. What reaches
    /// past the right or bottom edge is clipped, not wrapped.
    pub fn draw(&mut self, x0: u8, y0: u8, memory: &Vec<u8>, start: usize, n: u8) -> (collision:
        bool)
        requires
            old(self).wf(),
            memory@.len() <= MAX_VIEW_BYTES,
            visible_rows(y0 as int, n as int) > 0 ==> start + visible_rows(y0 as int, n as int)
                <= memory@.len(),
        ensures
            final(self).wf(),
            final(self)@ == draw_pixels(
                old(self)@,
                memory@,
                start as int,
                x0 as int,
                y0 as int,
                n as int,
            ),
            collision == draw_collides(
                old(self)@,
                memory@,
                start as int,
                x0 as int,
                y0 as int,
                n as int,
            ),
    {
        let ghost before = self@;
        let mut collision = false;
        let mut r: usize = 0;
        let rows: usize = if (y0 as usize) >= DISPLAY_HEIGHT || (x0 as usize) >= DISPLAY_WIDTH {
            0
        } else if (n as usize) <= DISPLAY_HEIGHT - y0 as usize {
            n as usize
        } else {
            DISPLAY_HEIGHT - y0 as usize
        };
        proof {
            assert forall|i: int| 0 <= i < y0 * 64 && i < 2048 implies !#[trigger] covers_pixel(x0 as int, y0 as int, n as int, i) by {}
            lemma_uncovered(
                before,
                before,
                memory@,
                start as int,
                x0 as int,
                y0 as int,
                n as int,
                0,
                y0 * 64,
            );
        }
        while r < rows
            invariant
                self.wf(),
                r <= rows <= n,
                rows > 0 ==> x0 < 64 && y0 < 32 && rows == visible_rows(y0 as int, n as int),
                memory@.len() <= MAX_VIEW_BYTES,
                rows > 0 ==> start + rows <= memory@.len(),
                drawn_before(
                    self@,
                    before,
                    memory@,
                    start as int,
                    x0 as int,
                    y0 as int,
                    n as int,
                    (y0 + r) * 64,
                ),
                collision == collides_before(
                    before,
                    memory@,
                    start as int,
                    x0 as int,
                    y0 as int,
                    n as int,
                    (y0 + r) * 64,
                ),
            decreases rows - r,
        {
            let hit = self.draw_row(
                x0,
                y0 + r as u8,
                memory,
                start + r,
                Ghost(before),
                Ghost(start as int),
                Ghost(y0 as int),
                Ghost(n as int),
            );
            collision = collision || hit;
            r = r + 1;
        }
        proof {
            assert forall|i: int| (y0 + rows) * 64 <= i < 2048 implies !#[trigger] covers_pixel(x0 as int, y0 as int, n as int, i) by {}
            if (y0 + rows) * 64 <= 2048 {
                lemma_uncovered(
                    self@,
                    before,
                    memory@,
                    start as int,
                    x0 as int,
                    y0 as int,
                    n as int,
                    (y0 + rows) * 64,
                    2048,
                );
            }
            assert(self@ =~= draw_pixels(
                before,
                memory@,
                start as int,
                x0 as int,
                y0 as int,
                n as int,
            ));
        }
        collision
    }
}

/// The state of a draw that has reached place `cur`: pixels before it are
/// drawn, pixels from it on are as they were.
spec fn drawn_before(
    shown: Seq<bool>,
    before: Seq<bool>,
    memory: Seq<u8>,
    start: int,
    x0: int,
    y0: int,
    n: int,
    cur: int,
) -> bool {
    &&& shown.len() == 2048
    &&& forall|i: int|
        0 <= i < 2048 ==> #[trigger] shown[i] == (if i < cur {
            before[i] != sprite_at(memory, start, x0, y0, n, i)
        } else {
            before[i]
        })
}

/// A draw moves over places that the sprite does not cover without a
/// change to the display or to the collision.
proof fn lemma_uncovered(
    shown: Seq<bool>,
    before: Seq<bool>,
    memory: Seq<u8>,
    start: int,
    x0: int,
    y0: int,
    n: int,
    from: int,
    to: int,
)
    requires
        from <= to,
        drawn_before(shown, before, memory, start, x0, y0, n, from),
        forall|i: int| from <= i < to && i < 2048 ==> !#[trigger] covers_pixel(x0, y0, n, i),
    ensures
        drawn_before(shown, before, memory, start, x0, y0, n, to),
        collides_before(before, memory, start, x0, y0, n, to) == collides_before(
            before,
            memory,
            start,
            x0,
            y0,
            n,
            from,
        ),
{
    assert forall|i: int| 0 <= i < 2048 implies #[trigger] shown[i] == (if i < to {
        before[i] != sprite_at(memory, start, x0, y0, n, i)
    } else {
        before[i]
    }) by {
        if from <= i < to {
            assert(!covers_pixel(x0, y0, n, i));
        }
    }
    if collides_before(before, memory, start, x0, y0, n, to) {
        let i = choose|i: int|
            0 <= i < to && i < 2048 && before[i] && #[trigger] sprite_at(
                memory,
                start,
                x0,
                y0,
                n,
                i,
            );
        if from <= i {
            assert(!covers_pixel(x0, y0, n, i));
        }
        assert(collides_before(before, memory, start, x0, y0, n, from));
    }
    if collides_before(before, memory, start, x0, y0, n, from) {
        let i = choose|i: int|
            0 <= i < from && i < 2048 && before[i] && #[trigger] sprite_at(
                memory,
                start,
                x0,
                y0,
                n,
                i,
            );
        assert(0 <= i < to && i < 2048 && before[i] && sprite_at(memory, start, x0, y0, n, i));
    }
}

/// A draw that has reached place `cur` and flips that pixel where the
/// sprite has a bit there has reached the next place.
proof fn lemma_drawn_one(
    shown: Seq<bool>,
    next: Seq<bool>,
    before: Seq<bool>,
    memory: Seq<u8>,
    start: int,
    x0: int,
    y0: int,
    n: int,
    cur: int,
)
    requires
        0 <= cur < 2048,
        drawn_before(shown, before, memory, start, x0, y0, n, cur),
        next == shown || next == shown.update(cur, !shown[cur]),
        next[cur] == (shown[cur] != sprite_at(memory, start, x0, y0, n, cur)),
    ensures
        drawn_before(next, before, memory, start, x0, y0, n, cur + 1),
        collides_before(before, memory, start, x0, y0, n, cur + 1) == ((before[cur] && sprite_at(
            memory,
            start,
            x0,
            y0,
            n,
            cur,
        )) || collides_before(before, memory, start, x0, y0, n, cur)),
{
    assert(shown[cur] == before[cur]);
    if collides_before(before, memory, start, x0, y0, n, cur + 1) {
        let i = choose|i: int|
            0 <= i < cur + 1 && i < 2048 && before[i] && #[trigger] sprite_at(
                memory,
                start,
                x0,
                y0,
                n,
                i,
            );
        if i < cur {
            assert(collides_before(before, memory, start, x0, y0, n, cur));
        }
    }
    if collides_before(before, memory, start, x0, y0, n, cur) {
        let i = choose|i: int|
            0 <= i < cur && i < 2048 && before[i] && #[trigger] sprite_at(
                memory,
                start,
                x0,
                y0,
                n,
                i,
            );
        assert(0 <= i < cur + 1 && i < 2048 && before[i] && sprite_at(
            memory,
            start,
            x0,
            y0,
            n,
            i,
        ));
    }
}

} // verus!
