use vstd::prelude::*;
use vstd::arithmetic::div_mod::{
    lemma_add_mod_noop_right, lemma_fundamental_div_mod, lemma_fundamental_div_mod_converse,
    lemma_small_mod,
};

verus! {

/// Width of the screen in pixels.
pub const DISPLAY_WIDTH: usize = 64;

/// Height of the screen in pixels.
pub const DISPLAY_HEIGHT: usize = 32;

/// Number of pixels of the screen.
pub const DISPLAY_SIZE: usize = 2048;

/// Colour of a pixel that is on.
pub const PIXEL_ON: u32 = 0xFFFFFF;

/// Colour of a pixel that is off.
pub const PIXEL_OFF: u32 = 0;

/// The monochrome framebuffer, stored row by row as colours ready to be shown.
pub struct Display {
    buffer: Vec<u32>,
}

/// Bit `c` of a sprite row, counting from the most significant bit.
pub open spec fn sprite_bit(byte: u8, c: int) -> bool {
    (byte >> ((7 - c) as u8)) & 1u8 == 1u8
}

/// Sprite row that lands on screen row `py` when the sprite's top is at `y`.
pub open spec fn sprite_row(y: u8, py: int) -> int {
    (py - y) % (DISPLAY_HEIGHT as int)
}

/// Sprite column that lands on screen column `px` when the sprite's left is at `x`.
pub open spec fn sprite_col(x: u8, px: int) -> int {
    (px - x) % (DISPLAY_WIDTH as int)
}

/// Whether pixel `i` (row-major index) receives a set bit of `sprite` drawn
/// at `(x, y)`; rows and columns wrap around the screen edges.
pub open spec fn draw_hit(x: u8, y: u8, sprite: Seq<u8>, i: int) -> bool {
    let r = sprite_row(y, i / DISPLAY_WIDTH as int);
    let c = sprite_col(x, i % DISPLAY_WIDTH as int);
    r < sprite.len() && c < 8 && sprite_bit(sprite[r], c)
}

/// The screen after drawing `sprite` at `(x, y)`: every hit pixel is toggled.
pub open spec fn draw_screen(screen: Seq<bool>, x: u8, y: u8, sprite: Seq<u8>) -> Seq<bool> {
    Seq::new(screen.len(), |i: int| screen[i] != draw_hit(x, y, sprite, i))
}

/// Whether drawing `sprite` at `(x, y)` hits a pixel that is on.
pub open spec fn draw_collision(screen: Seq<bool>, x: u8, y: u8, sprite: Seq<u8>) -> bool {
    exists|i: int| 0 <= i < screen.len() && #[trigger] draw_hit(x, y, sprite, i) && screen[i]
}

/// The screen and the collision flag after drawing `sprite` at `(x, y)`.
/// Rows past the screen's height wrap onto rows already drawn, and are drawn
/// after them, one screen height of rows at a time.
pub open spec fn draw_result(screen: Seq<bool>, x: u8, y: u8, sprite: Seq<u8>) -> (Seq<bool>, bool)
    decreases sprite.len(),
{
    if sprite.len() <= DISPLAY_HEIGHT {
        (draw_screen(screen, x, y, sprite), draw_collision(screen, x, y, sprite))
    } else {
        let top = sprite.subrange(0, DISPLAY_HEIGHT as int);
        let below = draw_result(
            draw_screen(screen, x, y, top),
            x,
            y,
            sprite.subrange(DISPLAY_HEIGHT as int, sprite.len() as int),
        );
        (below.0, draw_collision(screen, x, y, top) || below.1)
    }
}

/// Whether drawing `sprite` at `(x, y)` toggles pixel `i` an odd number of
/// times.
pub open spec fn draw_mask(x: u8, y: u8, sprite: Seq<u8>, i: int) -> bool
    decreases sprite.len(),
{
    if sprite.len() <= DISPLAY_HEIGHT {
        draw_hit(x, y, sprite, i)
    } else {
        draw_hit(x, y, sprite.subrange(0, DISPLAY_HEIGHT as int), i) != draw_mask(
            x,
            y,
            sprite.subrange(DISPLAY_HEIGHT as int, sprite.len() as int),
            i,
        )
    }
}

proof fn lemma_draw_nothing(screen: Seq<bool>, x: u8, y: u8, sprite: Seq<u8>)
    requires
        sprite.len() == 0,
    ensures
        draw_result(screen, x, y, sprite) == (screen, false),
{
    assert(draw_screen(screen, x, y, sprite) =~= screen);
}

/// Drawing toggles exactly the pixels of the mask.
proof fn lemma_draw_toggles_mask(screen: Seq<bool>, x: u8, y: u8, sprite: Seq<u8>)
    ensures
        draw_result(screen, x, y, sprite).0 == Seq::new(
            screen.len(),
            |i: int| screen[i] != draw_mask(x, y, sprite, i),
        ),
    decreases sprite.len(),
{
    if sprite.len() <= DISPLAY_HEIGHT {
        assert(draw_result(screen, x, y, sprite).0 =~= Seq::new(
            screen.len(),
            |i: int| screen[i] != draw_mask(x, y, sprite, i),
        ));
    } else {
        let top = sprite.subrange(0, DISPLAY_HEIGHT as int);
        let rest = sprite.subrange(DISPLAY_HEIGHT as int, sprite.len() as int);
        lemma_draw_toggles_mask(draw_screen(screen, x, y, top), x, y, rest);
        assert(draw_result(screen, x, y, sprite).0 =~= Seq::new(
            screen.len(),
            |i: int| screen[i] != draw_mask(x, y, sprite, i),
        ));
    }
}

/// Row-major index of the pixel at column `px`, row `py`.
pub open spec fn pixel_index(px: int, py: int) -> int {
    py * DISPLAY_WIDTH as int + px
}

/// Whether the hit of pixel `i` comes before position `(row, bit)` in drawing order.
spec fn drawn_before(x: u8, y: u8, sprite: Seq<u8>, row: int, bit: int, i: int) -> bool {
    let r = sprite_row(y, i / DISPLAY_WIDTH as int);
    let c = sprite_col(x, i % DISPLAY_WIDTH as int);
    draw_hit(x, y, sprite, i) && (r < row || (r == row && c < bit))
}

proof fn lemma_wrap_offset(a: int, b: int, m: int)
    requires
        0 < m,
        0 <= b < m,
    ensures
        ((a + b) % m - a) % m == b,
        (a + (b - a) % m) % m == b,
{
    lemma_add_mod_noop_right(-a, a + b, m);
    lemma_add_mod_noop_right(a, b - a, m);
    lemma_small_mod(b as nat, m as nat);
}

/// Pixel `(px, py)` has index `pixel_index(px, py)`, and it is the only index
/// whose sprite row and column are `row` and `col`.
proof fn lemma_target(x: u8, y: u8, row: int, col: int)
    requires
        0 <= row < DISPLAY_HEIGHT,
        0 <= col < DISPLAY_WIDTH,
    ensures
        ({
            let t = pixel_index((x + col) % 64, (y + row) % 32);
            &&& 0 <= t < DISPLAY_SIZE
            &&& t / 64 == (y + row) % 32
            &&& t % 64 == (x + col) % 64
            &&& sprite_row(y, t / 64) == row
            &&& sprite_col(x, t % 64) == col
            &&& forall|i: int|
                #![trigger sprite_row(y, i / DISPLAY_WIDTH as int), sprite_col(x, i % DISPLAY_WIDTH as int)]
                0 <= i < DISPLAY_SIZE && sprite_row(y, i / DISPLAY_WIDTH as int) == row
                    && sprite_col(x, i % DISPLAY_WIDTH as int) == col ==> i == t
        }),
{
    let px = (x + col) % 64;
    let py = (y + row) % 32;
    let t = pixel_index(px, py);
    lemma_fundamental_div_mod_converse(t, 64, py, px);
    lemma_wrap_offset(y as int, row, 32);
    lemma_wrap_offset(x as int, col, 64);
    assert forall|i: int|
        #![trigger sprite_row(y, i / DISPLAY_WIDTH as int), sprite_col(x, i % DISPLAY_WIDTH as int)]
        0 <= i < DISPLAY_SIZE && sprite_row(y, i / DISPLAY_WIDTH as int) == row
            && sprite_col(x, i % DISPLAY_WIDTH as int) == col implies i == t by {
        lemma_fundamental_div_mod(i, 64);
        lemma_wrap_offset(y as int, i / 64, 32);
        lemma_wrap_offset(x as int, i % 64, 64);
    }
}

/// Drawing order advances by one bit: the only newly drawn pixel is the
/// target of `(row, bit)`, and only when that bit is set.
proof fn lemma_draw_step(x: u8, y: u8, sp: Seq<u8>, row: int, bit: int)
    requires
        0 <= row < sp.len() <= DISPLAY_HEIGHT,
        0 <= bit < 8,
    ensures
        ({
            let t = pixel_index((x + bit) % 64, (y + row) % 32);
            &&& 0 <= t < DISPLAY_SIZE
            &&& !drawn_before(x, y, sp, row, bit, t)
            &&& drawn_before(x, y, sp, row, bit + 1, t) == sprite_bit(sp[row], bit)
            &&& forall|i: int|
                0 <= i < DISPLAY_SIZE && i != t ==> #[trigger] drawn_before(x, y, sp, row, bit + 1, i)
                    == drawn_before(x, y, sp, row, bit, i)
        }),
{
    lemma_target(x, y, row, bit);
}

/// Finishing a row is starting the next one.
proof fn lemma_draw_row(x: u8, y: u8, sp: Seq<u8>, row: int)
    ensures
        forall|i: int|
            #![trigger drawn_before(x, y, sp, row, 8, i)]
            #![trigger drawn_before(x, y, sp, row + 1, 0, i)]
            drawn_before(x, y, sp, row, 8, i) == drawn_before(x, y, sp, row + 1, 0, i),
{
}

/// Drawing a sprite twice at the same place gives back the original screen.
pub proof fn lemma_draw_twice_restores(screen: Seq<bool>, x: u8, y: u8, sprite: Seq<u8>)
    ensures
        draw_result(draw_result(screen, x, y, sprite).0, x, y, sprite).0 == screen,
{
    let once = draw_result(screen, x, y, sprite).0;
    lemma_draw_toggles_mask(screen, x, y, sprite);
    lemma_draw_toggles_mask(once, x, y, sprite);
    assert(draw_result(once, x, y, sprite).0 =~= screen);
}

/// For a sprite no taller than the screen, the second of two draws at the
/// same place collides exactly when one of the sprite's pixels was off
/// before the first draw.
pub proof fn lemma_second_draw_collision(screen: Seq<bool>, x: u8, y: u8, sprite: Seq<u8>)
    requires
        sprite.len() <= DISPLAY_HEIGHT,
    ensures
        draw_result(draw_result(screen, x, y, sprite).0, x, y, sprite).1 == exists|i: int|
            0 <= i < screen.len() && #[trigger] draw_hit(x, y, sprite, i) && !screen[i],
{
}

/// For a sprite no taller than the screen, drawn twice at the same place over
/// pixels that are all off, the second draw collides as soon as the sprite
/// has a set bit.
pub proof fn lemma_second_draw_collides(screen: Seq<bool>, x: u8, y: u8, sprite: Seq<u8>)
    requires
        screen.len() == DISPLAY_SIZE,
        sprite.len() <= DISPLAY_HEIGHT,
        forall|i: int| 0 <= i < screen.len() && #[trigger] draw_hit(x, y, sprite, i) ==> !screen[i],
    ensures
        draw_result(draw_result(screen, x, y, sprite).0, x, y, sprite).1 == exists|r: int, c: int|
            0 <= r < sprite.len() && 0 <= c < 8 && #[trigger] sprite_bit(sprite[r], c),
{
    lemma_second_draw_collision(screen, x, y, sprite);
    if exists|r: int, c: int| 0 <= r < sprite.len() && 0 <= c < 8 && #[trigger] sprite_bit(sprite[r], c) {
        let (r, c) = choose|r: int, c: int|
            0 <= r < sprite.len() && 0 <= c < 8 && #[trigger] sprite_bit(sprite[r], c);
        lemma_target(x, y, r, c);
        let t = pixel_index((x + c) % 64, (y + r) % 32);
        assert(draw_hit(x, y, sprite, t));
    } else {
        assert forall|i: int| 0 <= i < screen.len() implies !#[trigger] draw_hit(x, y, sprite, i) by {
            let r = sprite_row(y, i / DISPLAY_WIDTH as int);
            let c = sprite_col(x, i % DISPLAY_WIDTH as int);
            if draw_hit(x, y, sprite, i) {
                assert(sprite_bit(sprite[r], c));
            }
        }
    }
}

/// A sprite no taller than the screen is never clipped: bit `c` of row `r`
/// toggles the pixel at column `(x + c) mod 64`, row `(y + r) mod 32`.
pub proof fn lemma_draw_wraps(screen: Seq<bool>, x: u8, y: u8, sprite: Seq<u8>, r: int, c: int)
    requires
        screen.len() == DISPLAY_SIZE,
        sprite.len() <= DISPLAY_HEIGHT,
        0 <= r < sprite.len(),
        0 <= c < 8,
    ensures
        ({
            let t = pixel_index((x + c) % 64, (y + r) % 32);
            &&& 0 <= t < DISPLAY_SIZE
            &&& draw_result(screen, x, y, sprite).0[t] == (screen[t] != sprite_bit(sprite[r], c))
        }),
{
    lemma_target(x, y, r, c);
}

impl View for Display {
    type V = Seq<bool>;

    /// Pixel `i` (row-major) is on.
    closed spec fn view(&self) -> Seq<bool> {
        Seq::new(self.buffer@.len(), |i: int| self.buffer@[i] == PIXEL_ON)
    }
}

impl Display {
    /// The buffer holds one colour per pixel, each of them on or off.
    pub closed spec fn wf(&self) -> bool {
        &&& self.buffer@.len() == DISPLAY_SIZE
        &&& forall|i: int|
            0 <= i < DISPLAY_SIZE ==> #[trigger] self.buffer@[i] == PIXEL_ON || self.buffer@[i]
                == PIXEL_OFF
    }

    /// A well-formed framebuffer has one pixel per screen position.
    pub proof fn lemma_len(&self)
        requires
            self.wf(),
        ensures
            self@.len() == DISPLAY_SIZE,
    {
    }

    /// A framebuffer with every pixel off.
    pub fn new() -> (r: Display)
        ensures
            r.wf(),
            r@ == Seq::new(DISPLAY_SIZE as nat, |i: int| false),
    {
        let r = Display { buffer: vec![PIXEL_OFF; DISPLAY_SIZE] };
        assert(r@ =~= Seq::new(DISPLAY_SIZE as nat, |i: int| false));
        r
    }

    /// The colours of the pixels, row by row.
    pub fn buffer(&self) -> (r: &Vec<u32>)
        requires
            self.wf(),
        ensures
            r@.len() == DISPLAY_SIZE,
            forall|i: int| 0 <= i < DISPLAY_SIZE ==> (r@[i] == PIXEL_ON) == self@[i],
            forall|i: int| 0 <= i < DISPLAY_SIZE ==> (r@[i] == PIXEL_OFF) == !self@[i],
    {
        &self.buffer
    }

    /// Turns every pixel off.
    pub fn clear(&mut self)
        ensures
            final(self).wf(),
            final(self)@ == Seq::new(DISPLAY_SIZE as nat, |i: int| false),
    {
        self.buffer = vec![PIXEL_OFF; DISPLAY_SIZE];
        assert(self@ =~= Seq::new(DISPLAY_SIZE as nat, |i: int| false));
    }

    /// XORs the rows `sprite[start..end]`, at most a screen's height of them,
    /// onto the screen with the first of them at row `y`.
    fn draw_rows(&mut self, x: u8, y: u8, sprite: &[u8], start: usize, end: usize) -> (collision: bool)
        requires
            old(self).wf(),
            start <= end <= sprite@.len(),
            end - start <= DISPLAY_HEIGHT,
        ensures
            final(self).wf(),
            final(self)@ == draw_screen(old(self)@, x, y, sprite@.subrange(start as int, end as int)),
            collision == draw_collision(old(self)@, x, y, sprite@.subrange(start as int, end as int)),
    {
        let ghost s0 = self@;
        let ghost sp = sprite@.subrange(start as int, end as int);
        let mut collision = false;
        let mut row: usize = 0;
        while row < end - start
            invariant
                self.wf(),
                s0.len() == DISPLAY_SIZE,
                start <= end <= sprite@.len(),
                sp == sprite@.subrange(start as int, end as int),
                sp.len() <= DISPLAY_HEIGHT,
                row <= sp.len(),
                forall|i: int|
                    0 <= i < DISPLAY_SIZE ==> #[trigger] self@[i] == (s0[i] != drawn_before(
                        x,
                        y,
                        sp,
                        row as int,
                        0,
                        i,
                    )),
                collision == exists|i: int|
                    0 <= i < DISPLAY_SIZE && #[trigger] drawn_before(x, y, sp, row as int, 0, i)
                        && s0[i],
            decreases sp.len() - row,
        {
            let byte = sprite[start + row];
            let mut bit: u8 = 0;
            while bit < 8
                invariant
                    self.wf(),
                    s0.len() == DISPLAY_SIZE,
                    start <= end <= sprite@.len(),
                    sp == sprite@.subrange(start as int, end as int),
                    sp.len() <= DISPLAY_HEIGHT,
                    row < sp.len(),
                    byte == sp[row as int],
                    bit <= 8,
                    forall|i: int|
                        0 <= i < DISPLAY_SIZE ==> #[trigger] self@[i] == (s0[i] != drawn_before(
                            x,
                            y,
                            sp,
                            row as int,
                            bit as int,
                            i,
                        )),
                    collision == exists|i: int|
                        0 <= i < DISPLAY_SIZE && #[trigger] drawn_before(
                            x,
                            y,
                            sp,
                            row as int,
                            bit as int,
                            i,
                        ) && s0[i],
                decreases 8 - bit,
            {
                let px = (x as usize + bit as usize) % DISPLAY_WIDTH;
                let py = (y as usize + row) % DISPLAY_HEIGHT;
                let index = py * DISPLAY_WIDTH + px;
                let ghost t = index as int;
                let ghost c0 = collision;
                proof {
                    lemma_draw_step(x, y, sp, row as int, bit as int);
                }
                let hit = (byte >> (7 - bit)) & 1 == 1;
                assert(hit == sprite_bit(byte, bit as int));
                let ghost b0 = self.buffer@;
                let ghost v0 = self@;
                if hit {
                    assert(self@[t] == s0[t]);
                    if self.buffer[index] == PIXEL_ON {
                        collision = true;
                        self.buffer.set(index, PIXEL_OFF);
                    } else {
                        self.buffer.set(index, PIXEL_ON);
                    }
                }
                proof {
                    let nb = bit as int + 1;
                    assert forall|i: int| 0 <= i < DISPLAY_SIZE implies #[trigger] self@[i] == (s0[i]
                        != drawn_before(x, y, sp, row as int, nb, i)) by {
                        if i != t {
                            assert(self.buffer@[i] == b0[i]);
                            assert(v0[i] == (s0[i] != drawn_before(x, y, sp, row as int, bit as int, i)));
                        }
                    }
                    assert(collision == (c0 || (hit && s0[t])));
                    if collision {
                        if c0 {
                            let w = choose|i: int|
                                0 <= i < DISPLAY_SIZE && #[trigger] drawn_before(
                                    x,
                                    y,
                                    sp,
                                    row as int,
                                    bit as int,
                                    i,
                                ) && s0[i];
                            assert(drawn_before(x, y, sp, row as int, nb, w));
                        } else {
                            assert(drawn_before(x, y, sp, row as int, nb, t));
                        }
                    } else {
                        assert forall|i: int|
                            0 <= i < DISPLAY_SIZE && #[trigger] drawn_before(
                                x,
                                y,
                                sp,
                                row as int,
                                nb,
                                i,
                            ) implies !s0[i] by {
                            if i != t {
                                assert(drawn_before(x, y, sp, row as int, bit as int, i));
                            }
                        }
                    }
                }
                bit += 1;
            }
            proof {
                lemma_draw_row(x, y, sp, row as int);
                if collision {
                    let w = choose|i: int|
                        0 <= i < DISPLAY_SIZE && #[trigger] drawn_before(x, y, sp, row as int, 8, i)
                            && s0[i];
                    assert(drawn_before(x, y, sp, row as int + 1, 0, w));
                }
            }
            row += 1;
        }
        proof {
            assert forall|i: int| 0 <= i < DISPLAY_SIZE implies drawn_before(
                x,
                y,
                sp,
                row as int,
                0,
                i,
            ) == draw_hit(x, y, sp, i) by {}
            assert(self@ =~= draw_screen(s0, x, y, sp));
        }
        collision
    }

    /// XORs `sprite` onto the screen at `(x, y)`, one byte per row with the
    /// most significant bit leftmost, wrapping around the edges. Returns
    /// whether a pixel that was on got toggled off.
    pub fn draw(&mut self, x: u8, y: u8, sprite: &[u8]) -> (collision: bool)
        requires
            old(self).wf(),
        ensures
            final(self).wf(),
            final(self)@ == draw_result(old(self)@, x, y, sprite@).0,
            collision == draw_result(old(self)@, x, y, sprite@).1,
    {
        let ghost target = draw_result(self@, x, y, sprite@);
        let ghost len = sprite@.len() as int;
        let mut collision = false;
        let mut start: usize = 0;
        proof {
            assert(sprite@.subrange(0, len) =~= sprite@);
        }
        while start < sprite.len()
            invariant
                self.wf(),
                len == sprite@.len(),
                start <= len,
                target.0 == draw_result(self@, x, y, sprite@.subrange(start as int, len)).0,
                target.1 == (collision || draw_result(self@, x, y, sprite@.subrange(start as int, len)).1),
            decreases len - start,
        {
            let end = if sprite.len() - start > DISPLAY_HEIGHT {
                start + DISPLAY_HEIGHT
            } else {
                sprite.len()
            };
            let ghost rest = sprite@.subrange(start as int, len);
            proof {
                if end < len {
                    assert(rest.subrange(0, DISPLAY_HEIGHT as int) =~= sprite@.subrange(
                        start as int,
                        end as int,
                    ));
                    assert(rest.subrange(DISPLAY_HEIGHT as int, rest.len() as int) =~= sprite@.subrange(
                        end as int,
                        len,
                    ));
                } else {
                    assert(rest =~= sprite@.subrange(start as int, end as int));
                }
            }
            let c = self.draw_rows(x, y, sprite, start, end);
            collision = collision || c;
            start = end;
            proof {
                if start == len {
                    lemma_draw_nothing(self@, x, y, sprite@.subrange(start as int, len));
                }
            }
        }
        collision
    }
}

} // verus!
