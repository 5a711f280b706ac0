use vstd::prelude::*;
use crate::display::{
    Display, pixel, bit_of, with_bit, lemma_with_bit, lemma_keep_high_bits, lemma_keep_low_bits,
    lemma_zero_byte, lemma_pixel_byte, BUFFSIZE,
};

verus! {

/// Direction an arrow points to; also the heading of the snake.
#[derive(Clone, Copy, Debug, PartialEq, Eq, Structural)]
pub enum ArrowDir {
    Up,
    Right,
    Down,
    Left,
}

/// Frame `new` is frame `old` with exactly the pixels `p < 40000` for which `painted(p)`
/// holds turned black.
pub open spec fn painted_black(old: Seq<u8>, new: Seq<u8>, painted: spec_fn(int) -> bool) -> bool {
    &&& new.len() == BUFFSIZE
    &&& forall|p: int|
        0 <= p < 40000 ==> #[trigger] pixel(new, p) == (if painted(p) {
            false
        } else {
            pixel(old, p)
        })
}

/// Whether the rectangle lies on the panel; `rect` draws nothing otherwise.
pub open spec fn rect_on_screen(x_in: int, y_in: int, w: int, h: int) -> bool {
    x_in < 200 && y_in < 200 && x_in + w <= 200 && y_in + h <= 200
}

/// The bounds check of `rect` is computed without overflowing a `u8`.
pub open spec fn rect_check_in_range(x_in: int, y_in: int, w: int, h: int) -> bool {
    x_in < 200 && y_in < 200 ==> x_in + w <= 255 && (x_in + w <= 200 ==> y_in + h <= 255)
}

/// Pixel `p` lies in the rectangle of width `w` and height `h` whose top left corner is
/// `(x_in, y_in)`.
pub open spec fn in_rect(x_in: int, y_in: int, w: int, h: int, p: int) -> bool {
    x_in <= p % 200 < x_in + w && y_in <= p / 200 < y_in + h
}

/// Bytes: `cur` is `base` with the pixels of row `y` whose column lies in `[lo, hi)` black.
pub open spec fn span_cleared(base: Seq<u8>, cur: Seq<u8>, y: int, lo: int, hi: int) -> bool {
    &&& cur.len() == BUFFSIZE
    &&& base.len() == BUFFSIZE
    &&& forall|k: int, j: u8|
        0 <= k < 5000 && j < 8 ==> #[trigger] bit_of(cur[k], j) == (if k / 25 == y && lo <= 8 * (k
            % 25) + j < hi {
            false
        } else {
            bit_of(base[k], j)
        })
}

/// Bytes: `cur` is `old` with the rectangle black in the rows `[y_lo, y_hi)`.
pub open spec fn rows_cleared(
    old: Seq<u8>,
    cur: Seq<u8>,
    x_in: int,
    e: int,
    y_lo: int,
    y_hi: int,
) -> bool {
    &&& cur.len() == BUFFSIZE
    &&& old.len() == BUFFSIZE
    &&& forall|k: int, j: u8|
        0 <= k < 5000 && j < 8 ==> #[trigger] bit_of(cur[k], j) == (if y_lo <= k / 25 < y_hi && x_in
            <= 8 * (k % 25) + j < e {
            false
        } else {
            bit_of(old[k], j)
        })
}

proof fn lemma_span_empty(base: Seq<u8>, y: int, lo: int)
    requires
        base.len() == BUFFSIZE,
    ensures
        span_cleared(base, base, y, lo, lo),
{
}

/// Clearing the pixel at column `x` of row `y` extends a cleared span `[lo, x)` to `[lo, x + 1)`.
proof fn lemma_span_set_bit(base: Seq<u8>, cur: Seq<u8>, y: int, lo: int, x: int)
    requires
        span_cleared(base, cur, y, lo, x),
        0 <= y < 200,
        0 <= lo <= x < 200,
    ensures
        span_cleared(
            base,
            cur.update(y * 25 + x / 8, with_bit(cur[y * 25 + x / 8], (x % 8) as u8, false)),
            y,
            lo,
            x + 1,
        ),
{
    let idx = y * 25 + x / 8;
    let nb = with_bit(cur[idx], (x % 8) as u8, false);
    let cur2 = cur.update(idx, nb);
    assert forall|k: int, j: u8| 0 <= k < 5000 && j < 8 implies #[trigger] bit_of(cur2[k], j) == (if k
        / 25 == y && lo <= 8 * (k % 25) + j < x + 1 {
        false
    } else {
        bit_of(base[k], j)
    }) by {
        if k == idx {
            lemma_with_bit(cur[idx], (x % 8) as u8, false, j);
            assert(k / 25 == y);
            assert(k % 25 == x / 8);
            assert(bit_of(cur[k], j) == (if k / 25 == y && lo <= 8 * (k % 25) + j < x {
                false
            } else {
                bit_of(base[k], j)
            }));
        } else {
            assert(k / 25 == y ==> 8 * (k % 25) + j != x);
        }
    }
}

/// Writing a zero byte at column byte `c` of row `y` extends a cleared span `[lo, 8c)` to
/// `[lo, 8c + 8)`.
proof fn lemma_span_zero_byte(base: Seq<u8>, cur: Seq<u8>, y: int, lo: int, c: int)
    requires
        span_cleared(base, cur, y, lo, 8 * c),
        0 <= y < 200,
        0 <= c < 25,
        lo <= 8 * c,
    ensures
        span_cleared(base, cur.update(y * 25 + c, 0u8), y, lo, 8 * c + 8),
{
    let idx = y * 25 + c;
    let cur2 = cur.update(idx, 0u8);
    assert forall|k: int, j: u8| 0 <= k < 5000 && j < 8 implies #[trigger] bit_of(cur2[k], j) == (if k
        / 25 == y && lo <= 8 * (k % 25) + j < 8 * c + 8 {
        false
    } else {
        bit_of(base[k], j)
    }) by {
        if k == idx {
            lemma_zero_byte(j);
            assert(k / 25 == y);
            assert(k % 25 == c);
        } else {
            assert(k / 25 == y ==> k % 25 != c);
            assert(bit_of(cur[k], j) == (if k / 25 == y && lo <= 8 * (k % 25) + j < 8 * c {
                false
            } else {
                bit_of(base[k], j)
            }));
        }
    }
}

/// Masking the byte that holds column `x_in` of row `y` extends a cleared span `[8c + 8, hi)`
/// to `[x_in, hi)`, where `c = x_in / 8`.
proof fn lemma_span_first_byte(base: Seq<u8>, cur: Seq<u8>, y: int, x_in: int, hi: int)
    requires
        span_cleared(base, cur, y, 8 * (x_in / 8) + 8, hi),
        0 <= y < 200,
        0 <= x_in < 200,
        x_in % 8 > 0,
        hi >= 8 * (x_in / 8) + 8,
    ensures
        span_cleared(
            base,
            cur.update(
                y * 25 + x_in / 8,
                cur[y * 25 + x_in / 8] & (0xffu8 << ((8 - (x_in % 8)) as u8)),
            ),
            y,
            x_in,
            hi,
        ),
{
    let c = x_in / 8;
    let idx = y * 25 + c;
    let k0 = (x_in % 8) as u8;
    let nb = cur[idx] & (0xffu8 << ((8 - (x_in % 8)) as u8));
    let cur2 = cur.update(idx, nb);
    assert forall|k: int, j: u8| 0 <= k < 5000 && j < 8 implies #[trigger] bit_of(cur2[k], j) == (if k
        / 25 == y && x_in <= 8 * (k % 25) + j < hi {
        false
    } else {
        bit_of(base[k], j)
    }) by {
        if k == idx {
            lemma_keep_high_bits(cur[idx], k0, j);
            assert(k / 25 == y);
            assert(k % 25 == c);
            assert(bit_of(cur[k], j) == bit_of(base[k], j));
        } else {
            assert(k / 25 == y ==> k % 25 != c);
            assert(bit_of(cur[k], j) == (if k / 25 == y && 8 * c + 8 <= 8 * (k % 25) + j < hi {
                false
            } else {
                bit_of(base[k], j)
            }));
        }
    }
}

/// Masking the byte that holds column `e` of row `y` extends a cleared span `[lo, 8 * (e / 8))`
/// to `[lo, e)`.
proof fn lemma_span_last_byte(base: Seq<u8>, cur: Seq<u8>, y: int, lo: int, e: int)
    requires
        span_cleared(base, cur, y, lo, 8 * (e / 8)),
        0 <= y < 200,
        0 < e < 200,
        e % 8 > 0,
        lo <= 8 * (e / 8),
    ensures
        span_cleared(
            base,
            cur.update(y * 25 + e / 8, cur[y * 25 + e / 8] & (0xffu8 >> ((e % 8) as u8))),
            y,
            lo,
            e,
        ),
{
    let c = e / 8;
    let idx = y * 25 + c;
    let k0 = (e % 8) as u8;
    let nb = cur[idx] & (0xffu8 >> ((e % 8) as u8));
    let cur2 = cur.update(idx, nb);
    assert forall|k: int, j: u8| 0 <= k < 5000 && j < 8 implies #[trigger] bit_of(cur2[k], j) == (if k
        / 25 == y && lo <= 8 * (k % 25) + j < e {
        false
    } else {
        bit_of(base[k], j)
    }) by {
        if k == idx {
            lemma_keep_low_bits(cur[idx], k0, j);
            assert(k / 25 == y);
            assert(k % 25 == c);
            assert(bit_of(cur[k], j) == bit_of(base[k], j));
        } else {
            assert(k / 25 == y ==> k % 25 != c);
            assert(bit_of(cur[k], j) == (if k / 25 == y && lo <= 8 * (k % 25) + j < 8 * c {
                false
            } else {
                bit_of(base[k], j)
            }));
        }
    }
}

/// A row whose span `[x_in, e)` was cleared joins the rows already done.
proof fn lemma_rows_step(
    old: Seq<u8>,
    base: Seq<u8>,
    cur: Seq<u8>,
    x_in: int,
    e: int,
    y_lo: int,
    y: int,
)
    requires
        rows_cleared(old, base, x_in, e, y_lo, y),
        span_cleared(base, cur, y, x_in, e),
        y_lo <= y,
    ensures
        rows_cleared(old, cur, x_in, e, y_lo, y + 1),
{
    assert forall|k: int, j: u8| 0 <= k < 5000 && j < 8 implies #[trigger] bit_of(cur[k], j) == (if y_lo
        <= k / 25 < y + 1 && x_in <= 8 * (k % 25) + j < e {
        false
    } else {
        bit_of(old[k], j)
    }) by {
        assert(bit_of(cur[k], j) == (if k / 25 == y && x_in <= 8 * (k % 25) + j < e {
            false
        } else {
            bit_of(base[k], j)
        }));
        assert(bit_of(base[k], j) == (if y_lo <= k / 25 < y && x_in <= 8 * (k % 25) + j < e {
            false
        } else {
            bit_of(old[k], j)
        }));
    }
}

/// The byte-level description of a finished rectangle, read pixel by pixel.
proof fn lemma_rows_to_pixels(old: Seq<u8>, cur: Seq<u8>, x_in: int, y_in: int, w: int, h: int)
    requires
        rows_cleared(old, cur, x_in, x_in + w, y_in, y_in + h),
    ensures
        painted_black(old, cur, |p: int| in_rect(x_in, y_in, w, h, p)),
{
    assert forall|p: int| 0 <= p < 40000 implies #[trigger] pixel(cur, p) == (if in_rect(
        x_in,
        y_in,
        w,
        h,
        p,
    ) {
        false
    } else {
        pixel(old, p)
    }) by {
        lemma_pixel_byte(p);
        let k = p / 8;
        let j = (p % 8) as u8;
        assert(bit_of(cur[k], j) == (if y_in <= k / 25 < y_in + h && x_in <= 8 * (k % 25) + j < x_in
            + w {
            false
        } else {
            bit_of(old[k], j)
        }));
    }
}

impl Display {
    /// Paints black the `w` x `h` rectangle whose top left corner is `(x_in, y_in)`;
    /// a rectangle that does not fit on the panel is not drawn at all.
    pub fn rect(&mut self, x_in: u8, y_in: u8, w: u8, h: u8)
        requires
            rect_check_in_range(x_in as int, y_in as int, w as int, h as int),
        ensures
            old(self)@.len() == BUFFSIZE,
            final(self)@.len() == BUFFSIZE,
            rect_on_screen(x_in as int, y_in as int, w as int, h as int) ==> painted_black(
                old(self)@,
                final(self)@,
                |p: int| in_rect(x_in as int, y_in as int, w as int, h as int, p),
            ),
            !rect_on_screen(x_in as int, y_in as int, w as int, h as int) ==> final(self)@ == old(
                self,
            )@,
            final(self).old_frame() == old(self).old_frame(),
            final(self).is_sleeping() == old(self).is_sleeping(),
            final(self).wants_clean_update() == old(self).wants_clean_update(),
    {
        proof {
            use_type_invariant(&*self);
        }
        let size: u8 = 200;
        if x_in >= size || y_in >= size || x_in + w > size || y_in + h > size {
            return;
        }
        let ghost old_buf = self@;
        let ghost e: int = x_in + w;
        if w < 8 {
            let mut y = y_in;
            while y < y_in + h
                invariant
                    y_in <= y <= y_in + h <= 200,
                    x_in + w <= 200,
                    e == x_in + w,
                    rows_cleared(old_buf, self@, x_in as int, e, y_in as int, y as int),
                    self.old_frame() == old(self).old_frame(),
                    self.is_sleeping() == old(self).is_sleeping(),
                    self.wants_clean_update() == old(self).wants_clean_update(),
                decreases y_in + h - y,
            {
                let offset = y as usize * 25;
                let ghost row_base = self@;
                proof {
                    lemma_span_empty(row_base, y as int, x_in as int);
                }
                let mut x = x_in;
                while x < x_in + w
                    invariant
                        y_in <= y < y_in + h <= 200,
                        x_in <= x <= x_in + w <= 200,
                        offset == y * 25,
                        span_cleared(row_base, self@, y as int, x_in as int, x as int),
                        self.old_frame() == old(self).old_frame(),
                        self.is_sleeping() == old(self).is_sleeping(),
                        self.wants_clean_update() == old(self).wants_clean_update(),
                    decreases x_in + w - x,
                {
                    let buff_byte = offset + (x / 8) as usize;
                    let buff_bit = x % 8;
                    proof {
                        lemma_span_set_bit(row_base, self@, y as int, x_in as int, x as int);
                    }
                    self.set_bit(buff_byte, buff_bit, false);
                    x += 1;
                }
                proof {
                    lemma_rows_step(old_buf, row_base, self@, x_in as int, e, y_in as int, y as int);
                }
                y += 1;
            }
            proof {
                lemma_rows_to_pixels(old_buf, self@, x_in as int, y_in as int, w as int, h as int);
            }
            return;
        }
        let mut y = y_in;
        while y < y_in + h
            invariant
                y_in <= y <= y_in + h <= 200,
                x_in + w <= 200,
                w >= 8,
                e == x_in + w,
                rows_cleared(old_buf, self@, x_in as int, e, y_in as int, y as int),
                self.old_frame() == old(self).old_frame(),
                self.is_sleeping() == old(self).is_sleeping(),
                self.wants_clean_update() == old(self).wants_clean_update(),
            decreases y_in + h - y,
        {
            let offset = y as usize * 25;
            let ghost row_base = self@;
            let start = (x_in + 7) / 8;
            let end = (x_in + w) / 8;
            proof {
                lemma_span_empty(row_base, y as int, 8 * start as int);
            }
            let mut i = start;
            while i < end
                invariant
                    y_in <= y < y_in + h <= 200,
                    start <= i <= end,
                    end == (x_in + w) / 8,
                    start == (x_in + 7) / 8,
                    x_in + w <= 200,
                    offset == y * 25,
                    span_cleared(row_base, self@, y as int, 8 * start as int, 8 * i as int),
                    self.old_frame() == old(self).old_frame(),
                    self.is_sleeping() == old(self).is_sleeping(),
                    self.wants_clean_update() == old(self).wants_clean_update(),
                decreases end - i,
            {
                proof {
                    lemma_span_zero_byte(row_base, self@, y as int, 8 * start as int, i as int);
                }
                self.write_byte(offset + i as usize, 0x0);
                i += 1;
            }
            if x_in % 8 > 0 {
                let byte: u8 = 0xff << (8 - (x_in % 8));
                proof {
                    lemma_span_first_byte(row_base, self@, y as int, x_in as int, 8 * end as int);
                }
                let b = self.buffer_curr[offset + (x_in / 8) as usize];
                self.write_byte(offset + (x_in / 8) as usize, b & byte);
            }
            if (x_in + w) % 8 > 0 {
                let byte: u8 = 0xff >> (x_in + w) % 8;
                proof {
                    lemma_span_last_byte(row_base, self@, y as int, x_in as int, e);
                }
                let b = self.buffer_curr[offset + ((x_in + w) / 8) as usize];
                self.write_byte(offset + ((x_in + w) / 8) as usize, b & byte);
            }
            proof {
                lemma_rows_step(old_buf, row_base, self@, x_in as int, e, y_in as int, y as int);
            }
            y += 1;
        }
        proof {
            lemma_rows_to_pixels(old_buf, self@, x_in as int, y_in as int, w as int, h as int);
        }
    }
}

} // verus!

verus! {

/// Rows that an arrow of size `s` spans.
pub open spec fn arrow_height(dir: ArrowDir, s: int) -> int {
    if dir == ArrowDir::Up || dir == ArrowDir::Down {
        s
    } else {
        2 * s - 1
    }
}

/// First column, relative to the arrow's left edge, drawn in row `y` of the arrow.
pub open spec fn arrow_row_start(dir: ArrowDir, s: int, y: int) -> int {
    match dir {
        ArrowDir::Up => s - y,
        ArrowDir::Down => y,
        ArrowDir::Left => if s - 1 - y < 0 {
            y - (s - 1)
        } else {
            s - 1 - y
        },
        ArrowDir::Right => 0,
    }
}

/// Column, relative to the arrow's left edge, just after the last one drawn in row `y`.
pub open spec fn arrow_row_end(dir: ArrowDir, s: int, y: int) -> int {
    match dir {
        ArrowDir::Up => s + 1 + y,
        ArrowDir::Down => 2 * s - 1 - y,
        ArrowDir::Left => s,
        ArrowDir::Right => if y < s {
            y + 1
        } else {
            2 * s - 1 - y
        },
    }
}

/// Row `y` of the arrow (counted from its top) covers column `c`, where columns may run past
/// the right edge of the panel.
pub open spec fn arrow_row_hit(x_in: int, dir: ArrowDir, s: int, y: int, c: int) -> bool {
    0 <= y < arrow_height(dir, s) && x_in + arrow_row_start(dir, s, y) <= c < x_in + arrow_row_end(
        dir,
        s,
        y,
    )
}

/// The arrow covers pixel `p`. The frame is one run of pixels, so a column past the right
/// edge of the panel lands at the start of the next row.
pub open spec fn arrow_covers(x_in: int, y_in: int, s: int, dir: ArrowDir, p: int) -> bool {
    arrow_row_hit(x_in, dir, s, p / 200 - y_in, p % 200) || arrow_row_hit(
        x_in,
        dir,
        s,
        p / 200 - y_in - 1,
        p % 200 + 200,
    )
}

/// Drawing the arrow at `(x_in, y_in)` computes no `u8` out of range and stays inside the
/// frame buffer.
pub open spec fn arrow_in_range(x_in: int, y_in: int, s: int, dir: ArrowDir) -> bool {
    &&& s <= 127
    &&& (dir == ArrowDir::Left || dir == ArrowDir::Right) ==> s >= 1
    &&& forall|y: int|
        0 <= y < arrow_height(dir, s) ==> {
            &&& y_in + y <= 255
            &&& x_in + #[trigger] arrow_row_end(dir, s, y) <= 255
            &&& (y_in + y) * 25 + (x_in + arrow_row_end(dir, s, y) - 1) / 8 < 5000
        }
}

/// Bytes: `cur` is `old` with the pixels at linear positions `q` with `drawn(q)` black.
pub open spec fn pixels_cleared(old: Seq<u8>, cur: Seq<u8>, drawn: spec_fn(int) -> bool) -> bool {
    &&& cur.len() == BUFFSIZE
    &&& old.len() == BUFFSIZE
    &&& forall|k: int, j: u8|
        0 <= k < 5000 && j < 8 ==> #[trigger] bit_of(cur[k], j) == (if drawn(8 * k + j) {
            false
        } else {
            bit_of(old[k], j)
        })
}

/// The part of the arrow drawn before column `x_lim` of row `y_lim`.
pub open spec fn arrow_drawn_before(
    x_in: int,
    y_in: int,
    s: int,
    dir: ArrowDir,
    y_lim: int,
    x_lim: int,
    q: int,
) -> bool {
    let r = q / 200 - y_in;
    let c = q % 200;
    ||| (arrow_row_hit(x_in, dir, s, r, c) && r < y_lim)
    ||| (arrow_row_hit(x_in, dir, s, r - 1, c + 200) && r - 1 < y_lim)
    ||| (r == y_lim && x_in + arrow_row_start(dir, s, r) <= c < x_lim)
    ||| (r - 1 == y_lim && x_in + arrow_row_start(dir, s, r - 1) <= c + 200 < x_lim)
}

/// Clearing the bit of pixel `q0` adds `q0` to the cleared pixels.
proof fn lemma_clear_pixel(
    old: Seq<u8>,
    cur: Seq<u8>,
    drawn: spec_fn(int) -> bool,
    drawn2: spec_fn(int) -> bool,
    q0: int,
)
    requires
        pixels_cleared(old, cur, drawn),
        0 <= q0 < 40000,
        forall|q: int| #[trigger] drawn2(q) == (drawn(q) || q == q0),
    ensures
        pixels_cleared(
            old,
            cur.update(q0 / 8, with_bit(cur[q0 / 8], (q0 % 8) as u8, false)),
            drawn2,
        ),
{
    let cur2 = cur.update(q0 / 8, with_bit(cur[q0 / 8], (q0 % 8) as u8, false));
    assert forall|k: int, j: u8| 0 <= k < 5000 && j < 8 implies #[trigger] bit_of(cur2[k], j) == (if drawn2(
        8 * k + j,
    ) {
        false
    } else {
        bit_of(old[k], j)
    }) by {
        assert(drawn2(8 * k + j) == (drawn(8 * k + j) || 8 * k + j == q0));
        if k == q0 / 8 {
            lemma_with_bit(cur[k], (q0 % 8) as u8, false, j);
        }
    }
}

/// The arrow drawn row by row is the arrow of the contract.
proof fn lemma_arrow_finished(old: Seq<u8>, cur: Seq<u8>, x_in: int, y_in: int, s: int, dir: ArrowDir)
    requires
        pixels_cleared(
            old,
            cur,
            |q: int| arrow_drawn_before(x_in, y_in, s, dir, arrow_height(dir, s), 0, q),
        ),
        0 <= x_in,
        0 <= y_in,
    ensures
        painted_black(old, cur, |p: int| arrow_covers(x_in, y_in, s, dir, p)),
{
    assert forall|p: int| 0 <= p < 40000 implies #[trigger] pixel(cur, p) == (if arrow_covers(
        x_in,
        y_in,
        s,
        dir,
        p,
    ) {
        false
    } else {
        pixel(old, p)
    }) by {
        let k = p / 8;
        let j = (p % 8) as u8;
        assert(8 * k + j == p);
        assert(bit_of(cur[k], j) == (if arrow_drawn_before(
            x_in,
            y_in,
            s,
            dir,
            arrow_height(dir, s),
            0,
            8 * k + j,
        ) {
            false
        } else {
            bit_of(old[k], j)
        }));
        let r = p / 200 - y_in;
        let c = p % 200;
        if r == arrow_height(dir, s) {
            assert(!arrow_row_hit(x_in, dir, s, r, c));
        }
    }
}

/// One more pixel of the current row of the arrow.
proof fn lemma_arrow_pixel(
    old: Seq<u8>,
    cur: Seq<u8>,
    x_in: int,
    y_in: int,
    s: int,
    dir: ArrowDir,
    y: int,
    x: int,
)
    requires
        pixels_cleared(old, cur, |q: int| arrow_drawn_before(x_in, y_in, s, dir, y, x, q)),
        0 <= y < arrow_height(dir, s),
        0 <= y_in,
        0 <= x_in + arrow_row_start(dir, s, y) <= x < x_in + arrow_row_end(dir, s, y),
        x < 256,
        0 <= (y_in + y) * 200 + x < 40000,
    ensures
        ((y_in + y) * 200 + x) / 8 == (y_in + y) * 25 + x / 8,
        ((y_in + y) * 200 + x) % 8 == x % 8,
        pixels_cleared(
            old,
            cur.update(
                ((y_in + y) * 200 + x) / 8,
                with_bit(cur[((y_in + y) * 200 + x) / 8], (((y_in + y) * 200 + x) % 8) as u8, false),
            ),
            |q: int| arrow_drawn_before(x_in, y_in, s, dir, y, x + 1, q),
        ),
{
    let q0 = (y_in + y) * 200 + x;
    assert(q0 == 8 * ((y_in + y) * 25 + x / 8) + x % 8);
    let drawn = |q: int| arrow_drawn_before(x_in, y_in, s, dir, y, x, q);
    let drawn2 = |q: int| arrow_drawn_before(x_in, y_in, s, dir, y, x + 1, q);
    assert forall|q: int| #[trigger] drawn2(q) == (drawn(q) || q == q0) by {
        if q == q0 {
            if x < 200 {
                assert(q / 200 == y_in + y);
                assert(q % 200 == x);
            } else {
                assert(q / 200 == y_in + y + 1);
                assert(q % 200 == x - 200);
            }
        } else {
            assert(q == 200 * (q / 200) + q % 200);
        }
    }
    lemma_clear_pixel(old, cur, drawn, drawn2, q0);
}

/// Moving to the start of the next row of the arrow.
proof fn lemma_arrow_next_row(
    old: Seq<u8>,
    cur: Seq<u8>,
    x_in: int,
    y_in: int,
    s: int,
    dir: ArrowDir,
    y: int,
)
    requires
        pixels_cleared(
            old,
            cur,
            |q: int| arrow_drawn_before(x_in, y_in, s, dir, y, x_in + arrow_row_end(dir, s, y), q),
        ),
        0 <= y < arrow_height(dir, s),
        arrow_row_start(dir, s, y) <= arrow_row_end(dir, s, y),
    ensures
        pixels_cleared(
            old,
            cur,
            |q: int| arrow_drawn_before(x_in, y_in, s, dir, y + 1, 0, q),
        ),
{
    assert forall|k: int, j: u8| 0 <= k < 5000 && j < 8 implies #[trigger] bit_of(cur[k], j) == (if arrow_drawn_before(
        x_in,
        y_in,
        s,
        dir,
        y + 1,
        0,
        8 * k + j,
    ) {
        false
    } else {
        bit_of(old[k], j)
    }) by {
        let q = 8 * k + j;
        assert(arrow_drawn_before(x_in, y_in, s, dir, y + 1, 0, q) == arrow_drawn_before(
            x_in,
            y_in,
            s,
            dir,
            y,
            x_in + arrow_row_end(dir, s, y),
            q,
        ));
    }
}

impl Display {
    /// Paints black an arrow of size `s` pointing in `dir`, its bounding box's top left corner
    /// at `(x_in, y_in)`: a triangle `s` rows high and `2s - 1` wide for up and down,
    /// `2s - 1` rows high and `s` wide for left and right. Nothing is drawn when the corner
    /// lies off the panel.
    pub fn arrow(&mut self, x_in: u8, y_in: u8, s: u8, dir: ArrowDir)
        requires
            x_in < 200 && y_in < 200 ==> arrow_in_range(x_in as int, y_in as int, s as int, dir),
        ensures
            old(self)@.len() == BUFFSIZE,
            final(self)@.len() == BUFFSIZE,
            x_in < 200 && y_in < 200 ==> painted_black(
                old(self)@,
                final(self)@,
                |p: int| arrow_covers(x_in as int, y_in as int, s as int, dir, p),
            ),
            !(x_in < 200 && y_in < 200) ==> final(self)@ == old(self)@,
            final(self).old_frame() == old(self).old_frame(),
            final(self).is_sleeping() == old(self).is_sleeping(),
            final(self).wants_clean_update() == old(self).wants_clean_update(),
    {
        proof {
            use_type_invariant(&*self);
        }
        if x_in as usize >= 200 || y_in as usize >= 200 {
            return;
        }
        let ghost old_buf = self@;
        let height: u8 = if dir == ArrowDir::Up || dir == ArrowDir::Down {
            s
        } else {
            (s * 2) - 1
        };
        assert(height == arrow_height(dir, s as int));
        let mut y: u8 = 0;
        while y < height
            invariant
                height == arrow_height(dir, s as int),
                0 <= y <= height,
                x_in < 200,
                y_in < 200,
                arrow_in_range(x_in as int, y_in as int, s as int, dir),
                pixels_cleared(
                    old_buf,
                    self@,
                    |q: int| arrow_drawn_before(x_in as int, y_in as int, s as int, dir, y as int, 0, q),
                ),
                self.old_frame() == old(self).old_frame(),
                self.is_sleeping() == old(self).is_sleeping(),
                self.wants_clean_update() == old(self).wants_clean_update(),
            decreases height - y,
        {
            assert(0 <= y < arrow_height(dir, s as int));
            assert(x_in + arrow_row_end(dir, s as int, y as int) <= 255);
            assert(y_in + y <= 255);
            let offset = (y + y_in) as usize * 25;
            let (row_start, row_end): (u8, u8) = match dir {
                ArrowDir::Up => (s - y, s + 1 + y),
                ArrowDir::Down => (y, 2 * s - 1 - y),
                ArrowDir::Left => {
                    let mut tmp: i16 = (s - 1) as i16 - y as i16;
                    tmp = if tmp < 0 {
                        -tmp
                    } else {
                        tmp
                    };
                    (tmp as u8, s)
                },
                ArrowDir::Right => {
                    let tmp: u8 = if y < s {
                        y + 1
                    } else {
                        2 * s - 1 - y
                    };
                    (0, tmp)
                },
            };
            assert(row_start == arrow_row_start(dir, s as int, y as int));
            assert(row_end == arrow_row_end(dir, s as int, y as int));
            let mut x: u8 = x_in + row_start;
            while x < x_in + row_end
                invariant
                    0 <= y < height,
                    height == arrow_height(dir, s as int),
                    x_in < 200,
                    y_in < 200,
                    row_start == arrow_row_start(dir, s as int, y as int),
                    row_end == arrow_row_end(dir, s as int, y as int),
                    x_in + row_start <= x <= x_in + row_end <= 255,
                    offset == (y + y_in) * 25,
                    (y_in + y) * 25 + (x_in + row_end - 1) / 8 < 5000,
                    pixels_cleared(
                        old_buf,
                        self@,
                        |q: int|
                            arrow_drawn_before(
                                x_in as int,
                                y_in as int,
                                s as int,
                                dir,
                                y as int,
                                x as int,
                                q,
                            ),
                    ),
                    self.old_frame() == old(self).old_frame(),
                    self.is_sleeping() == old(self).is_sleeping(),
                    self.wants_clean_update() == old(self).wants_clean_update(),
                decreases x_in + row_end - x,
            {
                let buff_byte = offset + (x / 8) as usize;
                let buff_bit = x % 8;
                proof {
                    lemma_arrow_pixel(
                        old_buf,
                        self@,
                        x_in as int,
                        y_in as int,
                        s as int,
                        dir,
                        y as int,
                        x as int,
                    );
                }
                self.set_bit(buff_byte, buff_bit, false);
                x += 1;
            }
            proof {
                lemma_arrow_next_row(old_buf, self@, x_in as int, y_in as int, s as int, dir, y as int);
            }
            y += 1;
        }
        proof {
            lemma_arrow_finished(old_buf, self@, x_in as int, y_in as int, s as int, dir);
        }
    }
}

} // verus!

verus! {

/// Column where `line` starts or stops for a requested column `x`: the panel's right edge at most.
pub open spec fn line_clamp(x: int) -> int {
    if x < 200 {
        x
    } else {
        200
    }
}

impl Display {
    /// Paints black the pixels of row `y` from column `x1_in` up to, not including, column
    /// `x2_in`, both clamped to the panel's right edge; rows below the panel are ignored.
    pub fn line(&mut self, x1_in: u8, x2_in: u8, y: u8)
        requires
            y <= 199 ==> line_clamp(x1_in as int) <= line_clamp(x2_in as int),
        ensures
            old(self)@.len() == BUFFSIZE,
            final(self)@.len() == BUFFSIZE,
            y <= 199 ==> painted_black(
                old(self)@,
                final(self)@,
                |p: int|
                    in_rect(
                        line_clamp(x1_in as int),
                        y as int,
                        line_clamp(x2_in as int) - line_clamp(x1_in as int),
                        1,
                        p,
                    ),
            ),
            y > 199 ==> final(self)@ == old(self)@,
            final(self).old_frame() == old(self).old_frame(),
            final(self).is_sleeping() == old(self).is_sleeping(),
            final(self).wants_clean_update() == old(self).wants_clean_update(),
    {
        proof {
            use_type_invariant(&*self);
        }
        if y > 199 {
            return;
        }
        let x1 = x1_in.min(200);
        let x2 = x2_in.min(200);
        let offset = y as usize * 25;
        let ghost old_buf = self@;
        proof {
            lemma_span_empty(old_buf, y as int, x1 as int);
        }
        if (x2 - x1) < 8 {
            let mut x = x1;
            while x < x2
                invariant
                    y < 200,
                    x1 <= x <= x2 <= 200,
                    offset == y * 25,
                    span_cleared(old_buf, self@, y as int, x1 as int, x as int),
                    self.old_frame() == old(self).old_frame(),
                    self.is_sleeping() == old(self).is_sleeping(),
                    self.wants_clean_update() == old(self).wants_clean_update(),
                decreases x2 - x,
            {
                proof {
                    lemma_span_set_bit(old_buf, self@, y as int, x1 as int, x as int);
                }
                self.set_bit(offset + (x / 8) as usize, x % 8, false);
                x += 1;
            }
            proof {
                lemma_rows_step(old_buf, old_buf, self@, x1 as int, x2 as int, y as int, y as int);
                lemma_rows_to_pixels(old_buf, self@, x1 as int, y as int, (x2 - x1) as int, 1);
            }
            return;
        }
        let start = (x1 + 7) / 8;
        let end = x2 / 8;
        proof {
            lemma_span_empty(old_buf, y as int, 8 * start as int);
        }
        let mut i = start;
        while i < end
            invariant
                y < 200,
                start <= i <= end,
                end == x2 / 8,
                start == (x1 + 7) / 8,
                x2 <= 200,
                offset == y * 25,
                span_cleared(old_buf, self@, y as int, 8 * start as int, 8 * i as int),
                self.old_frame() == old(self).old_frame(),
                self.is_sleeping() == old(self).is_sleeping(),
                self.wants_clean_update() == old(self).wants_clean_update(),
            decreases end - i,
        {
            proof {
                lemma_span_zero_byte(old_buf, self@, y as int, 8 * start as int, i as int);
            }
            self.write_byte(offset + i as usize, 0x0);
            i += 1;
        }
        if x1 % 8 > 0 {
            let byte: u8 = 0xff << (8 - (x1 % 8));
            proof {
                lemma_span_first_byte(old_buf, self@, y as int, x1 as int, 8 * end as int);
            }
            let b = self.buffer_curr[offset + (x1 / 8) as usize];
            self.write_byte(offset + (x1 / 8) as usize, b & byte);
        }
        if x2 % 8 > 0 {
            let byte: u8 = 0xff >> x2 % 8;
            proof {
                lemma_span_last_byte(old_buf, self@, y as int, x1 as int, x2 as int);
            }
            let b = self.buffer_curr[offset + (x2 / 8) as usize];
            self.write_byte(offset + (x2 / 8) as usize, b & byte);
        }
        proof {
            lemma_rows_step(old_buf, old_buf, self@, x1 as int, x2 as int, y as int, y as int);
            lemma_rows_to_pixels(old_buf, self@, x1 as int, y as int, (x2 - x1) as int, 1);
        }
    }
}

} // verus!
