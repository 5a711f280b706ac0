use vstd::prelude::*;
use crate::display::{Display, bit_of, pixel, with_bit, lemma_with_bit, lemma_pixel_byte, BUFFSIZE, SIZE};
use vstd::arithmetic::div_mod::{lemma_fundamental_div_mod, lemma_fundamental_div_mod_converse};
use vstd::string::StringSliceAdditionalSpecFns;

verus! {

/// The glyphs, five rows each, read row after row starting at the most significant bit of the
/// glyph's first byte. A set bit is a white pixel.
pub const FONT: [u8; 135] = [
    0b01010101, 0b01010101,             // <unknown character>
    0b11111111, 0b11111111,             // <space>
    0b11011011, 0b01111101,             // !
    0b01011111, 0b11111111,             // "
    0b01000001, 0b00000101,             // #
    0b10100001, 0b10001011,             // $
    0b01011010, 0b10110101,             // %
    0b10101010, 0b10111001,             // &
    0b01111111, 0b11111111,             // '
    0b10101101, 0b10111011,             // (
    0b10111011, 0b01101011,             // )
    0b01010101, 0b01111111,             // *
    0b11110100, 0b01011111,             // +
    0b11111111, 0b11010111,             // ,
    0b11111100, 0b01111111,             // -
    0b11111111, 0b11111011,             // .
    0b11011010, 0b10110111,             // /
    0b00001001, 0b00100001,             // 0
    0b00000111, 0b11111111,             // 1
    0b00011000, 0b00110001,             // 2
    0b00011000, 0b01100001,             // 3
    0b01001000, 0b01101101,             // 4
    0b00001100, 0b01100001,             // 5
    0b00001100, 0b00100001,             // 6
    0b00011011, 0b01101101,             // 7
    0b00001000, 0b00100001,             // 8
    0b00001000, 0b01100001,             // 9
    0b10101111, 0b11111111,             // :
    0b11110111, 0b11010111,             // ;
    0b11010101, 0b11011101,             // <
    0b11100011, 0b10001111,             // =
    0b01110111, 0b01010111,             // >
    0b00011010, 0b11111011,             // ?
    0b11100001, 0b00011111,             // @
    0b00001000, 0b00100101,             // A
    0b00101000, 0b00100011,             // B
    0b00001101, 0b10110001,             // C
    0b00101001, 0b00100011,             // D
    0b00001100, 0b00110001,             // E
    0b00001100, 0b00110111,             // F
    0b10001101, 0b00100001,             // G
    0b01001000, 0b00100101,             // H
    0b00000111, 0b11111111,             // I
    0b10101010, 0b00111111,             // J
    0b01001000, 0b10100101,             // K
    0b01101101, 0b10110001,             // L
    0b10000100, 0b01100110, 0b01101111, // M
    0b00001001, 0b00100101,             // N
    0b00001001, 0b00100001,             // O
    0b00001000, 0b00110111,             // P
    0b00010101, 0b01010101, 0b00001111, // Q
    0b00001000, 0b10100101,             // R
    0b00001100, 0b01100001,             // S
    0b00010110, 0b11011011,             // T
    0b01001001, 0b00100001,             // U
    0b01001001, 0b00101011,             // V
    0b01100110, 0b01100100, 0b00001111, // W
    0b01001010, 0b10100101,             // X
    0b01001000, 0b01100011,             // Y
    0b00011010, 0b10110001,             // Z
    0b10010110, 0b11011001,             // [
    0b01101110, 0b11101101,             // \
    0b00110110, 0b11010011,             // ]
    0b10101011, 0b11111111,             // ^
    0b11111111, 0b11110001,             // _
    0b01101111, 0b11111111,             // `
];

/// Columns of the glyph drawn for byte `item`.
pub open spec fn glyph_width(item: u8) -> int {
    if item == 73 || item == 58 || item == 39 || item == 49 {
        1  // I : ' 1

    } else if item == 74 || item == 96 {
        2  // J `

    } else if item == 87 || item == 81 || item == 77 {
        4  // W Q M

    } else {
        3
    }
}

/// Byte of `FONT` where the glyph drawn for byte `item` starts: lower case letters use the upper
/// case glyph, bytes without a glyph use the first one.
pub open spec fn glyph_index(item: u8) -> int {
    let ltr: int = if 97 <= item <= 122 {
        item - 32
    } else {
        item as int
    };
    if 32 <= ltr <= 96 {
        (ltr - 31) * 2 + (if ltr > 77 {
            1int
        } else {
            0
        }) + (if ltr > 81 {
            1int
        } else {
            0
        }) + (if ltr > 87 {
            1int
        } else {
            0
        })
    } else {
        0
    }
}

/// Sum over the first `k` bytes of `glyph_width + 1`: each glyph and the column of space after
/// it.
pub open spec fn spaced_prefix(bytes: Seq<u8>, k: int) -> int
    decreases k,
{
    if k <= 0 {
        0
    } else {
        spaced_prefix(bytes, k - 1) + glyph_width(bytes[k - 1]) + 1
    }
}

/// Sum over all the bytes of `glyph_width + 1`.
pub open spec fn spaced_width(bytes: Seq<u8>) -> int {
    spaced_prefix(bytes, bytes.len() as int)
}

/// Width in unscaled columns of `bytes` drawn as text: the glyphs with one column between them.
pub open spec fn text_width(bytes: Seq<u8>) -> int {
    spaced_width(bytes) - 1
}

/// Bit `t` of the glyph starting at byte `index` of `FONT`.
pub open spec fn font_bit(index: int, t: int) -> bool {
    bit_of(FONT@[index + t / 8], (t % 8) as u8)
}

pub(crate) proof fn lemma_spaced_prefix_bounds(bytes: Seq<u8>, k: int)
    requires
        0 <= k,
    ensures
        2 * k <= spaced_prefix(bytes, k) <= 5 * k,
    decreases k,
{
    if k > 0 {
        lemma_spaced_prefix_bounds(bytes, k - 1);
    }
}

/// A longer prefix is wider, by at least two columns per byte.
pub(crate) proof fn lemma_spaced_prefix_mono(bytes: Seq<u8>, k: int, m: int)
    requires
        0 <= k <= m,
    ensures
        spaced_prefix(bytes, k) + 2 * (m - k) <= spaced_prefix(bytes, m),
    decreases m - k,
{
    if k < m {
        lemma_spaced_prefix_mono(bytes, k, m - 1);
    }
}

impl Display {
    /// Columns of the glyph drawn for byte `item`.
    pub fn get_width(&self, item: u8) -> (width: u8)
        ensures
            width == glyph_width(item),
    {
        let mut width: u8 = 3;
        if item == 'I' as u8 || item == ':' as u8 || item == '\'' as u8 || item == '1' as u8 {
            width = 1;
        } else if item == 'J' as u8 || item == '`' as u8 {
            width = 2;
        } else if item == 'W' as u8 || item == 'Q' as u8 || item == 'M' as u8 {
            width = 4;
        }
        return width;
    }

    /// Width in unscaled columns of `bytes` drawn as text: its glyphs with one column of space between two.
    pub(crate) fn bytes_width(&self, bytes: &[u8]) -> (total: u8)
        requires
            bytes@.len() >= 1,
            spaced_width(bytes@) <= 255,
        ensures
            total == text_width(bytes@),
    {
        let mut total: u8 = 0;
        let mut i: usize = 0;
        while i < bytes.len()
            invariant
                0 <= i <= bytes@.len(),
                total == spaced_prefix(bytes@, i as int),
                spaced_width(bytes@) <= 255,
            decreases bytes@.len() - i,
        {
            proof {
                lemma_spaced_prefix_mono(bytes@, i as int + 1, bytes@.len() as int);
            }
            total += self.get_width(bytes[i]);
            total += 1;
            i += 1;
        }
        proof {
            lemma_spaced_prefix_bounds(bytes@, bytes@.len() as int);
        }
        total -= 1;
        return total;
    }

    /// Width in unscaled columns of `text`: its glyphs with one column of space between two.
    pub fn get_text_width(&self, text: &str) -> (total: u8)
        requires
            text.spec_bytes().len() >= 1,
            spaced_width(text.spec_bytes()) <= 255,
        ensures
            total == text_width(text.spec_bytes()),
    {
        self.bytes_width(text.as_bytes())
    }


    /// Byte of `FONT` where the glyph for `item` starts.
    pub fn get_index(&self, item: u8) -> (index: usize)
        ensures
            index == glyph_index(item),
            index <= 133,
    {
        let mut index: u8 = 0;
        let mut ltr = item;
        if ltr >= 'a' as u8 && ltr <= 'z' as u8 {
            ltr -= 32;
        }
        if ltr >= ' ' as u8 && ltr <= '`' as u8 {
            index = (ltr - 31) * 2;
            if ltr > 'M' as u8 {
                index += 1;
            }
            if ltr > 'Q' as u8 {
                index += 1;
            }
            if ltr > 'W' as u8 {
                index += 1;
            }
        }
        return index.into();
    }
}


/// Columns of space left after each glyph at scale `s`.
pub open spec fn pad_of(s: int) -> int {
    if s / 2 == 0 {
        1
    } else {
        s / 2
    }
}

/// Column, counted from the text's left edge, where glyph `k` of `bytes` starts at scale `s`.
pub open spec fn letter_offset(bytes: Seq<u8>, s: int, k: int) -> int
    decreases k,
{
    if k <= 0 {
        0
    } else {
        letter_offset(bytes, s, k - 1) + glyph_width(bytes[k - 1]) * s + pad_of(s)
    }
}

/// What the first `k` glyphs of `bytes` show at scale `s` in glyph row `h` (of five), column `c`
/// counted from the text's left edge: the bit of the glyph over that column, if there is one.
pub open spec fn glyph_value(bytes: Seq<u8>, s: int, k: int, h: int, c: int) -> Option<bool>
    decreases k,
{
    if k <= 0 {
        None
    } else {
        let o = letter_offset(bytes, s, k - 1);
        let w = glyph_width(bytes[k - 1]);
        if o <= c < o + w * s {
            Some(font_bit(glyph_index(bytes[k - 1]), h * w + (c - o) / s))
        } else {
            glyph_value(bytes, s, k - 1, h, c)
        }
    }
}

/// Whether `text` draws anything: the scaled text fits right of `x` and one scaled glyph row
/// fits below `y`.
pub open spec fn text_fits(bytes: Seq<u8>, x: int, y: int, s: int) -> bool {
    let w = text_width(bytes) * s;
    w <= 200 && x + w <= 200 && y + s <= 200
}

/// Pixel row `r` is the top row of glyph row `(r - y) / s`.
pub open spec fn glyph_row(y: int, s: int, r: int) -> bool {
    s >= 1 && y <= r && (r - y) % s == 0 && (r - y) / s < 5
}

/// The value the glyphs give pixel `q`, where they cover it: each glyph row is drawn in the top
/// pixel row of its scaled row.
pub open spec fn glyph_layer(bytes: Seq<u8>, x: int, y: int, s: int, q: int) -> Option<bool> {
    let r = q / 200;
    if glyph_row(y, s, r) {
        glyph_value(bytes, s, bytes.len() as int, (r - y) / s, q % 200 - x)
    } else {
        None
    }
}

/// Bytes of a pixel row copied down from the top row of each scaled glyph row: those over the
/// columns `[x, x + width)`, whole.
pub open spec fn fill_bytes(bytes: Seq<u8>, x: int, s: int) -> int {
    (x % 8 + text_width(bytes) * s + 7) / 8
}

/// Pixel `q` lies below the top row of a scaled glyph row, in a byte copied from that top row.
pub open spec fn filled(bytes: Seq<u8>, x: int, y: int, s: int, q: int) -> bool {
    let r = q / 200;
    let col = (q % 200) / 8;
    &&& s >= 1
    &&& y <= r
    &&& (r - y) / s < 5
    &&& (r - y) % s != 0
    &&& x / 8 <= col < x / 8 + fill_bytes(bytes, x, s)
}

/// The pixel whose value ends up at `q`: the one above it in the top row of its scaled glyph row
/// where `q` is filled, else `q` itself.
pub open spec fn text_source(bytes: Seq<u8>, x: int, y: int, s: int, q: int) -> int {
    if filled(bytes, x, y, s, q) {
        (y + ((q / 200 - y) / s) * s) * 200 + q % 200
    } else {
        q
    }
}

/// Pixel `q` once `text` has drawn `bytes` at `(x, y)` and scale `s` over the frame `old`.
pub open spec fn text_pixel(old: Seq<u8>, bytes: Seq<u8>, x: int, y: int, s: int, q: int) -> bool {
    let src = text_source(bytes, x, y, s, q);
    match glyph_layer(bytes, x, y, s, src) {
        Some(v) => v,
        None => pixel(old, src),
    }
}

/// What is drawn once the first `k` glyphs are, and of glyph `k` its rows before `h` and the
/// first `lim` scaled columns of row `h`.
spec fn glyph_progress(
    bytes: Seq<u8>,
    x: int,
    y: int,
    s: int,
    k: int,
    h: int,
    lim: int,
    q: int,
) -> Option<bool> {
    let r = q / 200;
    let hh = (r - y) / s;
    let c = q % 200 - x;
    if glyph_row(y, s, r) {
        let o = letter_offset(bytes, s, k);
        let w = glyph_width(bytes[k]);
        if o <= c < o + w * s && (hh < h || (hh == h && c - o < lim)) {
            Some(font_bit(glyph_index(bytes[k]), hh * w + (c - o) / s))
        } else {
            glyph_value(bytes, s, k, hh, c)
        }
    } else {
        None
    }
}

/// Bytes: `cur` is `old` with the glyph pixels of `glyph_progress` drawn.
spec fn glyphs_drawn(
    old: Seq<u8>,
    cur: Seq<u8>,
    bytes: Seq<u8>,
    x: int,
    y: int,
    s: int,
    k: int,
    h: int,
    lim: int,
) -> bool {
    &&& old.len() == BUFFSIZE
    &&& cur.len() == BUFFSIZE
    &&& forall|i: int, j: u8|
        0 <= i < 5000 && j < 8 ==> #[trigger] bit_of(cur[i], j) == match glyph_progress(
            bytes,
            x,
            y,
            s,
            k,
            h,
            lim,
            8 * i + j,
        ) {
            Some(v) => v,
            None => bit_of(old[i], j),
        }
}

/// Byte `i` once the rows below the tops of the scaled glyph rows before `hl` are copied, and
/// of row `hl` the rows before `nl` and the first `il` bytes of row `nl`.
spec fn fill_progress(
    p: Seq<u8>,
    bytes: Seq<u8>,
    x: int,
    y: int,
    s: int,
    hl: int,
    nl: int,
    il: int,
    i: int,
) -> u8 {
    let r = i / 25;
    let col = i % 25;
    let h = (r - y) / s;
    let n = (r - y) % s;
    if s >= 1 && y <= r && h < 5 && n != 0 && x / 8 <= col < x / 8 + fill_bytes(bytes, x, s) && (h
        < hl || (h == hl && (n < nl || (n == nl && col < x / 8 + il)))) {
        p[(y + h * s) * 25 + col]
    } else {
        p[i]
    }
}

/// Bytes: `cur` is `p` with the copies of `fill_progress` made.
spec fn rows_filled(
    p: Seq<u8>,
    cur: Seq<u8>,
    bytes: Seq<u8>,
    x: int,
    y: int,
    s: int,
    hl: int,
    nl: int,
    il: int,
) -> bool {
    &&& p.len() == BUFFSIZE
    &&& cur.len() == BUFFSIZE
    &&& forall|i: int| 0 <= i < 5000 ==> #[trigger] cur[i] == fill_progress(p, bytes, x, y, s, hl, nl, il, i)
}

proof fn lemma_offset_scaled(bytes: Seq<u8>, s: int, k: int)
    requires
        s >= 1,
        0 <= k,
    ensures
        0 <= letter_offset(bytes, s, k) <= spaced_prefix(bytes, k) * s,
    decreases k,
{
    if k > 0 {
        lemma_offset_scaled(bytes, s, k - 1);
        let a = spaced_prefix(bytes, k - 1);
        let w = glyph_width(bytes[k - 1]);
        assert(a * s + w * s + s == (a + w + 1) * s) by (nonlinear_arith);
        assert(w * s >= 0) by (nonlinear_arith)
            requires
                w >= 1,
                s >= 1,
        ;
    }
}

proof fn lemma_offset_unscaled(bytes: Seq<u8>, k: int)
    requires
        0 <= k,
    ensures
        letter_offset(bytes, 0, k) == k,
    decreases k,
{
    if k > 0 {
        lemma_offset_unscaled(bytes, k - 1);
    }
}

/// Where glyph `k` starts and ends, against the width `text` checks.
proof fn lemma_letter_bounds(bytes: Seq<u8>, s: int, k: int)
    requires
        0 <= k < bytes.len(),
        0 <= s,
        spaced_width(bytes) <= 255,
    ensures
        bytes.len() <= 127,
        s == 0 ==> letter_offset(bytes, s, k + 1) == k + 1,
        s >= 1 ==> 0 <= letter_offset(bytes, s, k),
        s >= 1 ==> letter_offset(bytes, s, k) + glyph_width(bytes[k]) * s <= text_width(bytes) * s,
        s >= 1 ==> letter_offset(bytes, s, k + 1) <= spaced_width(bytes) * s,
{
    lemma_spaced_prefix_bounds(bytes, bytes.len() as int);
    if s == 0 {
        lemma_offset_unscaled(bytes, k + 1);
    } else {
        lemma_offset_scaled(bytes, s, k);
        lemma_offset_scaled(bytes, s, k + 1);
        lemma_spaced_prefix_mono(bytes, k + 1, bytes.len() as int);
        let a = spaced_prefix(bytes, k);
        let b = spaced_prefix(bytes, k + 1);
        let t = spaced_width(bytes);
        let w = glyph_width(bytes[k]);
        assert(a * s + w * s <= (t - 1) * s) by (nonlinear_arith)
            requires
                b == a + w + 1,
                b <= t,
                s >= 1,
        ;
        assert(b * s <= t * s) by (nonlinear_arith)
            requires
                b <= t,
                s >= 1,
        ;
    }
}

/// Every bit of a glyph lies in `FONT`.
proof fn lemma_glyph_in_font(item: u8, t: int)
    requires
        0 <= t < 5 * glyph_width(item),
    ensures
        0 <= glyph_index(item) + t / 8 < 135,
{
}

/// Drawing the pixel of column `lim` of row `h` of glyph `k` moves `glyph_progress` one column on.
proof fn lemma_progress_step(
    bytes: Seq<u8>,
    x: int,
    y: int,
    s: int,
    k: int,
    h: int,
    lim: int,
    q: int,
)
    requires
        s >= 1,
        0 <= h < 5,
        0 <= y,
        0 <= lim < glyph_width(bytes[k]) * s,
        0 <= x + letter_offset(bytes, s, k),
        x + letter_offset(bytes, s, k) + lim < 200,
        0 <= q,
    ensures
        glyph_progress(bytes, x, y, s, k, h, lim + 1, q) == if q == (y + h * s) * 200 + x
            + letter_offset(bytes, s, k) + lim {
            Some(
                font_bit(glyph_index(bytes[k]), h * glyph_width(bytes[k]) + lim / s),
            )
        } else {
            glyph_progress(bytes, x, y, s, k, h, lim, q)
        },
{
    let o = letter_offset(bytes, s, k);
    let c0 = x + o + lim;
    let r0 = y + h * s;
    let q0 = r0 * 200 + c0;
    assert(0 <= h * s) by (nonlinear_arith)
        requires
            0 <= h,
            s >= 1,
    ;
    lemma_fundamental_div_mod_converse(q0, 200, r0, c0);
    lemma_fundamental_div_mod_converse(h * s, s, h, 0);
    let r = q / 200;
    if glyph_row(y, s, r) {
        lemma_fundamental_div_mod(r - y, s);
        lemma_fundamental_div_mod(q, 200);
        if q != q0 {
            let hh = (r - y) / s;
            if hh == h && q % 200 - x - o == lim {
                assert(r - y == h * s) by (nonlinear_arith)
                    requires
                        r - y == s * hh + (r - y) % s,
                        (r - y) % s == 0,
                        hh == h,
                ;
                assert(r == r0);
                assert(q == q0);
            }
        }
    }
}

/// Drawing one pixel of glyph `k` in the frame.
proof fn lemma_glyph_step(
    old: Seq<u8>,
    cur: Seq<u8>,
    bytes: Seq<u8>,
    x: int,
    y: int,
    s: int,
    k: int,
    h: int,
    lim: int,
)
    requires
        glyphs_drawn(old, cur, bytes, x, y, s, k, h, lim),
        s >= 1,
        0 <= h < 5,
        0 <= y,
        y + 5 * s <= 200,
        0 <= x,
        0 <= lim < glyph_width(bytes[k]) * s,
        0 <= letter_offset(bytes, s, k),
        x + letter_offset(bytes, s, k) + glyph_width(bytes[k]) * s <= 200,
    ensures
        0 <= (y + h * s) * 25 + (x + letter_offset(bytes, s, k) + lim) / 8 < 5000,
        glyphs_drawn(
            old,
            cur.update(
                (y + h * s) * 25 + (x + letter_offset(bytes, s, k) + lim) / 8,
                with_bit(
                    cur[(y + h * s) * 25 + (x + letter_offset(bytes, s, k) + lim) / 8],
                    ((x + letter_offset(bytes, s, k) + lim) % 8) as u8,
                    font_bit(glyph_index(bytes[k]), h * glyph_width(bytes[k]) + lim / s),
                ),
            ),
            bytes,
            x,
            y,
            s,
            k,
            h,
            lim + 1,
        ),
{
    let o = letter_offset(bytes, s, k);
    let c0 = x + o + lim;
    let r0 = y + h * s;
    let q0 = r0 * 200 + c0;
    let i0 = r0 * 25 + c0 / 8;
    let v = font_bit(glyph_index(bytes[k]), h * glyph_width(bytes[k]) + lim / s);
    assert(0 <= h * s <= 4 * s) by (nonlinear_arith)
        requires
            0 <= h < 5,
            s >= 1,
    ;
    lemma_fundamental_div_mod_converse(q0, 200, r0, c0);
    lemma_pixel_byte(q0);
    lemma_fundamental_div_mod(q0, 8);
    let cur2 = cur.update(i0, with_bit(cur[i0], (c0 % 8) as u8, v));
    assert forall|i: int, j: u8| 0 <= i < 5000 && j < 8 implies #[trigger] bit_of(cur2[i], j)
        == match glyph_progress(bytes, x, y, s, k, h, lim + 1, 8 * i + j) {
        Some(b) => b,
        None => bit_of(old[i], j),
    } by {
        lemma_progress_step(bytes, x, y, s, k, h, lim, 8 * i + j);
        lemma_fundamental_div_mod_converse(8 * i + j, 8, i, j as int);
        if i == i0 {
            lemma_with_bit(cur[i], (c0 % 8) as u8, v, j);
        }
        assert(8 * i + j == q0 <==> (i == i0 && j == c0 % 8));
    }
}

proof fn lemma_glyph_start(old: Seq<u8>, bytes: Seq<u8>, x: int, y: int, s: int)
    requires
        old.len() == BUFFSIZE,
    ensures
        glyphs_drawn(old, old, bytes, x, y, s, 0, 0, 0),
{
    assert forall|i: int, j: u8| 0 <= i < 5000 && j < 8 implies #[trigger] bit_of(old[i], j)
        == match glyph_progress(bytes, x, y, s, 0, 0, 0, 8 * i + j) {
        Some(b) => b,
        None => bit_of(old[i], j),
    } by {
        assert(glyph_progress(bytes, x, y, s, 0, 0, 0, 8 * i + j) is None);
    }
}

proof fn lemma_glyph_row_done(
    old: Seq<u8>,
    cur: Seq<u8>,
    bytes: Seq<u8>,
    x: int,
    y: int,
    s: int,
    k: int,
    h: int,
)
    requires
        glyphs_drawn(old, cur, bytes, x, y, s, k, h, glyph_width(bytes[k]) * s),
    ensures
        glyphs_drawn(old, cur, bytes, x, y, s, k, h + 1, 0),
{
    assert forall|i: int, j: u8| 0 <= i < 5000 && j < 8 implies #[trigger] bit_of(cur[i], j)
        == match glyph_progress(bytes, x, y, s, k, h + 1, 0, 8 * i + j) {
        Some(b) => b,
        None => bit_of(old[i], j),
    } by {
        assert(glyph_progress(bytes, x, y, s, k, h + 1, 0, 8 * i + j) == glyph_progress(
            bytes,
            x,
            y,
            s,
            k,
            h,
            glyph_width(bytes[k]) * s,
            8 * i + j,
        ));
    }
}

proof fn lemma_glyph_letter_done(
    old: Seq<u8>,
    cur: Seq<u8>,
    bytes: Seq<u8>,
    x: int,
    y: int,
    s: int,
    k: int,
)
    requires
        glyphs_drawn(old, cur, bytes, x, y, s, k, 5, 0),
        0 <= k,
    ensures
        glyphs_drawn(old, cur, bytes, x, y, s, k + 1, 0, 0),
{
    assert forall|i: int, j: u8| 0 <= i < 5000 && j < 8 implies #[trigger] bit_of(cur[i], j)
        == match glyph_progress(bytes, x, y, s, k + 1, 0, 0, 8 * i + j) {
        Some(b) => b,
        None => bit_of(old[i], j),
    } by {
        let q = 8 * i + j;
        let r = q / 200;
        if glyph_row(y, s, r) {
            lemma_fundamental_div_mod(r - y, s);
        }
        assert(glyph_progress(bytes, x, y, s, k + 1, 0, 0, q) == glyph_progress(
            bytes,
            x,
            y,
            s,
            k,
            5,
            0,
            q,
        ));
    }
}

/// Copying byte `i0` of the top row of scaled glyph row `h` into the row `n` below it.
proof fn lemma_fill_step(
    p: Seq<u8>,
    cur: Seq<u8>,
    bytes: Seq<u8>,
    x: int,
    y: int,
    s: int,
    h: int,
    n: int,
    i0: int,
)
    requires
        rows_filled(p, cur, bytes, x, y, s, h, n, i0),
        0 <= h < 5,
        1 <= n < s,
        0 <= i0 < fill_bytes(bytes, x, s),
        x / 8 + fill_bytes(bytes, x, s) <= 25,
        0 <= x,
        0 <= y,
        y + 5 * s <= 200,
    ensures
        0 <= (y + h * s) * 25 + x / 8 + i0 < 5000,
        0 <= (y + h * s + n) * 25 + x / 8 + i0 < 5000,
        cur[(y + h * s) * 25 + x / 8 + i0] == p[(y + h * s) * 25 + x / 8 + i0],
        rows_filled(
            p,
            cur.update((y + h * s + n) * 25 + x / 8 + i0, cur[(y + h * s) * 25 + x / 8 + i0]),
            bytes,
            x,
            y,
            s,
            h,
            n,
            i0 + 1,
        ),
{
    let col0 = x / 8 + i0;
    let r0 = y + h * s;
    let src = r0 * 25 + col0;
    let dst = (r0 + n) * 25 + col0;
    assert(0 <= h * s <= 4 * s) by (nonlinear_arith)
        requires
            0 <= h < 5,
            s >= 1,
    ;
    lemma_fundamental_div_mod_converse(src, 25, r0, col0);
    lemma_fundamental_div_mod_converse(dst, 25, r0 + n, col0);
    lemma_fundamental_div_mod_converse(h * s, s, h, 0);
    lemma_fundamental_div_mod_converse(h * s + n, s, h, n);
    assert(cur[src] == p[src]);
    let cur2 = cur.update(dst, cur[src]);
    assert forall|i: int| 0 <= i < 5000 implies #[trigger] cur2[i] == fill_progress(
        p,
        bytes,
        x,
        y,
        s,
        h,
        n,
        i0 + 1,
        i,
    ) by {
        let r = i / 25;
        lemma_fundamental_div_mod(i, 25);
        if y <= r {
            lemma_fundamental_div_mod(r - y, s);
        }
        if y <= r && (r - y) / s == h && (r - y) % s == n && i % 25 == col0 {
            assert(r - y == h * s + n) by (nonlinear_arith)
                requires
                    r - y == s * ((r - y) / s) + (r - y) % s,
                    (r - y) / s == h,
                    (r - y) % s == n,
            ;
            assert(i == dst);
        }
        if i != dst {
            assert(fill_progress(p, bytes, x, y, s, h, n, i0 + 1, i) == fill_progress(
                p,
                bytes,
                x,
                y,
                s,
                h,
                n,
                i0,
                i,
            ));
        }
    }
}

proof fn lemma_fill_start(p: Seq<u8>, bytes: Seq<u8>, x: int, y: int, s: int)
    requires
        p.len() == BUFFSIZE,
    ensures
        rows_filled(p, p, bytes, x, y, s, 0, 1, 0),
{
    assert forall|i: int| 0 <= i < 5000 implies #[trigger] p[i] == fill_progress(
        p,
        bytes,
        x,
        y,
        s,
        0,
        1,
        0,
        i,
    ) by {
        let r = i / 25;
        if s >= 1 && y <= r {
            lemma_fundamental_div_mod(r - y, s);
        }
    }
}

proof fn lemma_fill_row_done(
    p: Seq<u8>,
    cur: Seq<u8>,
    bytes: Seq<u8>,
    x: int,
    y: int,
    s: int,
    h: int,
    n: int,
)
    requires
        rows_filled(p, cur, bytes, x, y, s, h, n, fill_bytes(bytes, x, s)),
    ensures
        rows_filled(p, cur, bytes, x, y, s, h, n + 1, 0),
{
    assert forall|i: int| 0 <= i < 5000 implies #[trigger] cur[i] == fill_progress(
        p,
        bytes,
        x,
        y,
        s,
        h,
        n + 1,
        0,
        i,
    ) by {
        assert(fill_progress(p, bytes, x, y, s, h, n + 1, 0, i) == fill_progress(
            p,
            bytes,
            x,
            y,
            s,
            h,
            n,
            fill_bytes(bytes, x, s),
            i,
        ));
    }
}

proof fn lemma_fill_block_done(
    p: Seq<u8>,
    cur: Seq<u8>,
    bytes: Seq<u8>,
    x: int,
    y: int,
    s: int,
    h: int,
    n: int,
)
    requires
        rows_filled(p, cur, bytes, x, y, s, h, n, 0),
        n >= 1,
        n >= s,
    ensures
        rows_filled(p, cur, bytes, x, y, s, h + 1, 1, 0),
{
    assert forall|i: int| 0 <= i < 5000 implies #[trigger] cur[i] == fill_progress(
        p,
        bytes,
        x,
        y,
        s,
        h + 1,
        1,
        0,
        i,
    ) by {
        let r = i / 25;
        if s >= 1 && y <= r {
            lemma_fundamental_div_mod(r - y, s);
        }
        assert(fill_progress(p, bytes, x, y, s, h + 1, 1, 0, i) == fill_progress(
            p,
            bytes,
            x,
            y,
            s,
            h,
            n,
            0,
            i,
        ));
    }
}

/// The glyphs drawn and the rows copied, read pixel by pixel.
proof fn lemma_text_pixels(
    old: Seq<u8>,
    p: Seq<u8>,
    f: Seq<u8>,
    bytes: Seq<u8>,
    x: int,
    y: int,
    s: int,
)
    requires
        glyphs_drawn(old, p, bytes, x, y, s, bytes.len() as int, 0, 0),
        rows_filled(p, f, bytes, x, y, s, 5, 1, 0),
        0 <= x,
        0 <= y,
    ensures
        forall|q: int|
            0 <= q < 40000 ==> #[trigger] pixel(f, q) == text_pixel(old, bytes, x, y, s, q),
{
    assert forall|q: int| 0 <= q < 40000 implies #[trigger] pixel(f, q) == text_pixel(
        old,
        bytes,
        x,
        y,
        s,
        q,
    ) by {
        lemma_pixel_byte(q);
        let i = q / 8;
        let j = (q % 8) as u8;
        let src = text_source(bytes, x, y, s, q);
        let r = q / 200;
        if filled(bytes, x, y, s, q) {
            lemma_fundamental_div_mod(r - y, s);
            let hh = (r - y) / s;
            let top = y + hh * s;
            assert(0 <= (r - y) % s);
            assert(0 <= top <= r);
            lemma_fundamental_div_mod_converse(src, 200, top, q % 200);
            lemma_pixel_byte(src);
            lemma_fundamental_div_mod(src, 8);
            let si = src / 8;
            assert(f[i] == p[si]);
            assert(8 * si + j == src);
            assert(glyph_progress(bytes, x, y, s, bytes.len() as int, 0, 0, src) == glyph_layer(
                bytes,
                x,
                y,
                s,
                src,
            ));
            assert(bit_of(p[si], j) == match glyph_progress(
                bytes,
                x,
                y,
                s,
                bytes.len() as int,
                0,
                0,
                8 * si + j,
            ) {
                Some(b) => b,
                None => bit_of(old[si], j),
            });
        } else {
            if s >= 1 && y <= r {
                lemma_fundamental_div_mod(r - y, s);
            }
            lemma_fundamental_div_mod(q, 8);
            assert(f[i] == p[i]);
            assert(8 * i + j == q);
            assert(glyph_progress(bytes, x, y, s, bytes.len() as int, 0, 0, q) == glyph_layer(
                bytes,
                x,
                y,
                s,
                q,
            ));
            assert(bit_of(p[i], j) == match glyph_progress(
                bytes,
                x,
                y,
                s,
                bytes.len() as int,
                0,
                0,
                8 * i + j,
            ) {
                Some(b) => b,
                None => bit_of(old[i], j),
            });
        }
    }
}

/// The glyphs lie within the text's width.
proof fn lemma_glyph_value_in_width(bytes: Seq<u8>, s: int, k: int, h: int, c: int)
    requires
        0 <= k <= bytes.len(),
        s >= 1,
        spaced_width(bytes) <= 255,
        glyph_value(bytes, s, k, h, c) is Some,
    ensures
        0 <= c < text_width(bytes) * s,
    decreases k,
{
    lemma_letter_bounds(bytes, s, k - 1);
    let o = letter_offset(bytes, s, k - 1);
    let w = glyph_width(bytes[k - 1]);
    if !(o <= c < o + w * s) {
        lemma_glyph_value_in_width(bytes, s, k - 1, h, c);
    }
}

/// `text` changes no pixel outside its rows `[y, y + 5 s)`, and in those rows none outside the
/// bytes that hold the columns `[x, x + width)`.
pub proof fn lemma_text_stays_in_box(
    old: Seq<u8>,
    bytes: Seq<u8>,
    x: int,
    y: int,
    s: int,
    q: int,
)
    requires
        spaced_width(bytes) <= 255,
        0 <= x,
        0 <= y,
        0 <= s,
        0 <= q < 40000,
        text_pixel(old, bytes, x, y, s, q) != pixel(old, q),
    ensures
        y <= q / 200 < y + 5 * s,
        x / 8 <= (q % 200) / 8 < x / 8 + fill_bytes(bytes, x, s),
{
    let r = q / 200;
    if s >= 1 && y <= r {
        lemma_fundamental_div_mod(r - y, s);
        assert(r - y < 5 * s) by (nonlinear_arith)
            requires
                r - y == s * ((r - y) / s) + (r - y) % s,
                0 <= (r - y) % s < s,
                (r - y) / s < 5,
        ;
    }
    if !filled(bytes, x, y, s, q) {
        let c = q % 200 - x;
        lemma_glyph_value_in_width(bytes, s, bytes.len() as int, (r - y) / s, c);
        assert(x / 8 <= (q % 200) / 8);
        assert((q % 200) / 8 < x / 8 + fill_bytes(bytes, x, s));
    }
}

impl Display {
    /// Draws `text` with its top left corner at `(x, y)`, each glyph pixel scaled to `s` x `s`
    /// pixels and `max(s / 2, 1)` columns between two glyphs. A lower case letter is drawn with
    /// the upper case glyph, at the width of its own byte. Nothing is drawn where the scaled text
    /// does not fit right of `x` or one scaled row does not fit below `y`.
    ///
    /// The glyph rows are drawn in the top pixel row of each scaled row; the rows below are then
    /// copied from it, whole bytes over the columns `[x, x + width)`.
    pub fn text(&mut self, text: &str, x: u8, y: u8, s: u8)
        requires
            text.spec_bytes().len() >= 1,
            spaced_width(text.spec_bytes()) <= 255,
            text_width(text.spec_bytes()) * s <= 255,
            text_fits(text.spec_bytes(), x as int, y as int, s as int) ==> s == 0 || y + 5 * s
                <= 200,
        ensures
            old(self)@.len() == BUFFSIZE,
            final(self)@.len() == BUFFSIZE,
            text_fits(text.spec_bytes(), x as int, y as int, s as int) ==> forall|q: int|
                0 <= q < 40000 ==> #[trigger] pixel(final(self)@, q) == text_pixel(
                    old(self)@,
                    text.spec_bytes(),
                    x as int,
                    y as int,
                    s as int,
                    q,
                ),
            !text_fits(text.spec_bytes(), x as int, y as int, s as int) ==> final(self)@ == old(
                self,
            )@,
            final(self).old_frame() == old(self).old_frame(),
            final(self).is_sleeping() == old(self).is_sleeping(),
            final(self).wants_clean_update() == old(self).wants_clean_update(),
    {
        self.glyphs(text.as_bytes(), x, y, s)
    }

    /// Draws the text of `bytes` with its top left corner at `(x, y)`, each glyph pixel scaled to `s` x `s`
    /// pixels and `max(s / 2, 1)` columns between two glyphs. A lower case letter is drawn with
    /// the upper case glyph, at the width of its own byte. Nothing is drawn where the scaled text
    /// does not fit right of `x` or one scaled row does not fit below `y`.
    ///
    /// The glyph rows are drawn in the top pixel row of each scaled row; the rows below are then
    /// copied from it, whole bytes over the columns `[x, x + width)`.
    pub(crate) fn glyphs(&mut self, bytes: &[u8], x: u8, y: u8, s: u8)
        requires
            bytes@.len() >= 1,
            spaced_width(bytes@) <= 255,
            text_width(bytes@) * s <= 255,
            text_fits(bytes@, x as int, y as int, s as int) ==> s == 0 || y + 5 * s
                <= 200,
        ensures
            old(self)@.len() == BUFFSIZE,
            final(self)@.len() == BUFFSIZE,
            text_fits(bytes@, x as int, y as int, s as int) ==> forall|q: int|
                0 <= q < 40000 ==> #[trigger] pixel(final(self)@, q) == text_pixel(
                    old(self)@,
                    bytes@,
                    x as int,
                    y as int,
                    s as int,
                    q,
                ),
            !text_fits(bytes@, x as int, y as int, s as int) ==> final(self)@ == old(
                self,
            )@,
            final(self).old_frame() == old(self).old_frame(),
            final(self).is_sleeping() == old(self).is_sleeping(),
            final(self).wants_clean_update() == old(self).wants_clean_update(),
    {
        proof {
            use_type_invariant(&*self);
        }
        let mut width = self.bytes_width(bytes);
        let mut ltr_offset: u8 = 0;
        width = width * s;
        if width as usize > SIZE {
            return;
        }
        if x as usize + width as usize > SIZE || y as usize + s as usize > SIZE {
            return;
        }
        let ghost tb = bytes@;
        let ghost old_buf = self@;
        proof {
            lemma_spaced_prefix_bounds(tb, tb.len() as int);
            lemma_glyph_start(old_buf, tb, x as int, y as int, s as int);
        }
        let mut k: usize = 0;
        while k < bytes.len()
            invariant
                bytes@ == tb,
                0 <= k <= tb.len(),
                spaced_width(tb) <= 255,
                width == text_width(tb) * s,
                x + width <= 200,
                y + s <= 200,
                s == 0 || y + 5 * s <= 200,
                ltr_offset == letter_offset(tb, s as int, k as int),
                glyphs_drawn(old_buf, self@, tb, x as int, y as int, s as int, k as int, 0, 0),
                self.old_frame() == old(self).old_frame(),
                self.is_sleeping() == old(self).is_sleeping(),
                self.wants_clean_update() == old(self).wants_clean_update(),
            decreases tb.len() - k,
        {
            let ltr = bytes[k];
            let buff_index = y as usize * (SIZE / 8);
            let char_width = self.get_width(ltr);
            let ltr_index = self.get_index(ltr);
            let mut ltr_curr_bit: u8 = 0;
            proof {
                lemma_letter_bounds(tb, s as int, k as int);
            }
            let mut h: u8 = 0;
            while h < 5
                invariant
                    bytes@ == tb,
                    0 <= k < tb.len(),
                    ltr == tb[k as int],
                    char_width == glyph_width(ltr),
                    ltr_index == glyph_index(ltr),
                    buff_index == y * 25,
                    width == text_width(tb) * s,
                    x + width <= 200,
                    y + s <= 200,
                    s == 0 || y + 5 * s <= 200,
                    ltr_offset == letter_offset(tb, s as int, k as int),
                    s >= 1 ==> 0 <= letter_offset(tb, s as int, k as int),
                    s >= 1 ==> letter_offset(tb, s as int, k as int) + char_width * s <= width,
                    0 <= h <= 5,
                    ltr_curr_bit == h * char_width,
                    glyphs_drawn(old_buf, self@, tb, x as int, y as int, s as int, k as int, h as int, 0),
                    self.old_frame() == old(self).old_frame(),
                    self.is_sleeping() == old(self).is_sleeping(),
                    self.wants_clean_update() == old(self).wants_clean_update(),
                decreases 5 - h,
            {
                assert(h * s <= 160) by (nonlinear_arith)
                    requires
                        h < 5,
                        s == 0 || y + 5 * s <= 200,
                ;
                let buff_offset = (h * s) as usize * (SIZE / 8);
                let mut b: u8 = 0;
                while b < char_width
                    invariant
                        bytes@ == tb,
                        0 <= k < tb.len(),
                        ltr == tb[k as int],
                        char_width == glyph_width(ltr),
                        ltr_index == glyph_index(ltr),
                        buff_index == y * 25,
                        buff_offset == h * s * 25,
                        width == text_width(tb) * s,
                        x + width <= 200,
                        y + s <= 200,
                        s == 0 || y + 5 * s <= 200,
                        ltr_offset == letter_offset(tb, s as int, k as int),
                        s >= 1 ==> 0 <= letter_offset(tb, s as int, k as int),
                        s >= 1 ==> letter_offset(tb, s as int, k as int) + char_width * s <= width,
                        0 <= h < 5,
                        0 <= b <= char_width,
                        ltr_curr_bit == h * char_width + b,
                        glyphs_drawn(
                            old_buf,
                            self@,
                            tb,
                            x as int,
                            y as int,
                            s as int,
                            k as int,
                            h as int,
                            b * s,
                        ),
                        self.old_frame() == old(self).old_frame(),
                        self.is_sleeping() == old(self).is_sleeping(),
                        self.wants_clean_update() == old(self).wants_clean_update(),
                    decreases char_width - b,
                {
                    assert(h * char_width + b < 5 * char_width) by (nonlinear_arith)
                        requires
                            h < 5,
                            b < char_width,
                    ;
                    proof {
                        lemma_glyph_in_font(ltr, ltr_curr_bit as int);
                    }
                    let font_index = ltr_index + (ltr_curr_bit / 8) as usize;
                    let bit_val = self.get_bit(&FONT, font_index, ltr_curr_bit % 8);
                    ltr_curr_bit += 1;
                    let mut n: u8 = 0;
                    while n < s
                        invariant
                            bytes@ == tb,
                            0 <= k < tb.len(),
                            ltr == tb[k as int],
                            char_width == glyph_width(ltr),
                            buff_index == y * 25,
                            buff_offset == h * s * 25,
                            width == text_width(tb) * s,
                            x + width <= 200,
                            s == 0 || y + 5 * s <= 200,
                            ltr_offset == letter_offset(tb, s as int, k as int),
                            s >= 1 ==> 0 <= letter_offset(tb, s as int, k as int),
                            s >= 1 ==> letter_offset(tb, s as int, k as int) + char_width * s
                                <= width,
                            0 <= h < 5,
                            0 <= b < char_width,
                            0 <= n <= s,
                            bit_val == font_bit(glyph_index(ltr), h * char_width + b),
                            glyphs_drawn(
                                old_buf,
                                self@,
                                tb,
                                x as int,
                                y as int,
                                s as int,
                                k as int,
                                h as int,
                                b * s + n,
                            ),
                            self.old_frame() == old(self).old_frame(),
                            self.is_sleeping() == old(self).is_sleeping(),
                            self.wants_clean_update() == old(self).wants_clean_update(),
                        decreases s - n,
                    {
                        assert(b * s + n < char_width * s) by (nonlinear_arith)
                            requires
                                b < char_width,
                                n < s,
                        ;
                        proof {
                            lemma_glyph_step(
                                old_buf,
                                self@,
                                tb,
                                x as int,
                                y as int,
                                s as int,
                                k as int,
                                h as int,
                                b * s + n,
                            );
                            lemma_fundamental_div_mod_converse(b * s + n, s as int, b as int, n as int);
                        }
                        let buff_byte = buff_index + buff_offset + ((ltr_offset + x + n + b * s)
                            / 8) as usize;
                        let buff_bit = (ltr_offset + x + n + b * s) % 8;
                        self.set_bit(buff_byte, buff_bit, bit_val);
                        n += 1;
                    }
                    assert(b * s + s == (b + 1) * s) by (nonlinear_arith);
                    b += 1;
                }
                proof {
                    lemma_glyph_row_done(
                        old_buf,
                        self@,
                        tb,
                        x as int,
                        y as int,
                        s as int,
                        k as int,
                        h as int,
                    );
                }
                assert(h * char_width + char_width == (h + 1) * char_width) by (nonlinear_arith);
                h += 1;
            }
            proof {
                lemma_glyph_letter_done(old_buf, self@, tb, x as int, y as int, s as int, k as int);
            }
            let mut padding = s / 2;
            if padding == 0 {
                padding = 1;
            }
            ltr_offset += char_width * s + padding;
            k += 1;
        }
        let ghost drawn = self@;
        proof {
            lemma_fill_start(drawn, tb, x as int, y as int, s as int);
        }
        let mut h: usize = 0;
        while h < 5
            invariant
                0 <= h <= 5,
                width == text_width(tb) * s,
                x + width <= 200,
                y + s <= 200,
                s == 0 || y + 5 * s <= 200,
                glyphs_drawn(old_buf, drawn, tb, x as int, y as int, s as int, tb.len() as int, 0, 0),
                rows_filled(drawn, self@, tb, x as int, y as int, s as int, h as int, 1, 0),
                self.old_frame() == old(self).old_frame(),
                self.is_sleeping() == old(self).is_sleeping(),
                self.wants_clean_update() == old(self).wants_clean_update(),
            decreases 5 - h,
        {
            assert(s * h <= 160) by (nonlinear_arith)
                requires
                    h < 5,
                    s == 0 || y + 5 * s <= 200,
            ;
            let buff_width = (((x % 8) + width + 7) / 8) as usize;
            let top: usize = y as usize;
            assert(top * 25 <= 6375);
            let mut ref_start = (top * (SIZE / 8)) + (x / 8) as usize;
            let block: usize = (s as usize) * h;
            assert(ref_start + block * 25 <= 20000);
            ref_start += block * (SIZE / 8);
            assert(x / 8 + buff_width <= 25);
            let mut n: u8 = 1;
            while n < s
                invariant
                    x / 8 + buff_width <= 25,
                    0 <= h < 5,
                    width == text_width(tb) * s,
                    x + width <= 200,
                    s == 0 || y + 5 * s <= 200,
                    buff_width == fill_bytes(tb, x as int, s as int),
                    ref_start == (y + h * s) * 25 + x / 8,
                    1 <= n,
                    n <= s || n == 1,
                    rows_filled(drawn, self@, tb, x as int, y as int, s as int, h as int, n as int, 0),
                    self.old_frame() == old(self).old_frame(),
                    self.is_sleeping() == old(self).is_sleeping(),
                    self.wants_clean_update() == old(self).wants_clean_update(),
                decreases s - n,
            {
                assert(h * s + n < 5 * s) by (nonlinear_arith)
                    requires
                        h < 5,
                        n < s,
                ;
                assert(y + h * s + n < 200);
                assert(ref_start + 25 * n < 5100) by (nonlinear_arith)
                    requires
                        ref_start == (y + h * s) * 25 + x / 8,
                        y + h * s + n < 200,
                        x / 8 <= 25,
                ;
                let buff_start = ref_start + (SIZE / 8) * (n as usize);
                let mut i: usize = 0;
                while i < buff_width
                    invariant
                        0 <= h < 5,
                        width == text_width(tb) * s,
                        x + width <= 200,
                        s == 0 || y + 5 * s <= 200,
                        buff_width == fill_bytes(tb, x as int, s as int),
                        ref_start == (y + h * s) * 25 + x / 8,
                        buff_start == ref_start + 25 * n,
                        x / 8 + buff_width <= 25,
                        1 <= n < s,
                        0 <= i <= buff_width,
                        rows_filled(
                            drawn,
                            self@,
                            tb,
                            x as int,
                            y as int,
                            s as int,
                            h as int,
                            n as int,
                            i as int,
                        ),
                        self.old_frame() == old(self).old_frame(),
                        self.is_sleeping() == old(self).is_sleeping(),
                        self.wants_clean_update() == old(self).wants_clean_update(),
                    decreases buff_width - i,
                {
                    assert(x / 8 + buff_width <= 25);
                    proof {
                        lemma_fill_step(
                            drawn,
                            self@,
                            tb,
                            x as int,
                            y as int,
                            s as int,
                            h as int,
                            n as int,
                            i as int,
                        );
                    }
                    let v = self.buffer_curr[ref_start + i];
                    self.write_byte(buff_start + i, v);
                    i += 1;
                }
                proof {
                    lemma_fill_row_done(drawn, self@, tb, x as int, y as int, s as int, h as int, n as int);
                }
                n += 1;
            }
            proof {
                lemma_fill_block_done(drawn, self@, tb, x as int, y as int, s as int, h as int, n as int);
            }
            h += 1;
        }
        proof {
            lemma_text_pixels(old_buf, drawn, self@, tb, x as int, y as int, s as int);
        }
    }
}

} // verus!
