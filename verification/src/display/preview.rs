use vstd::prelude::*;
use crate::display::{Display, pixel, bit_of, BUFFSIZE};

verus! {

/// The pixel in column `x` of row `y`: `true` when white.
pub open spec fn px(buf: Seq<u8>, x: int, y: int) -> bool {
    pixel(buf, y * 200 + x)
}

/// `weight` for a white pixel, 0 for a black one.
pub open spec fn bit_value(b: bool, weight: int) -> int {
    if b {
        weight
    } else {
        0
    }
}

/// The dots of the braille cell showing the 2 x 4 pixels from column `x`, row `y`: in the
/// left column the dots weigh 1, 2, 4 and 64 from the top, in the right column 8, 16, 32 and
/// 128. A white pixel is a raised dot.
pub open spec fn braille_dots(buf: Seq<u8>, x: int, y: int) -> int {
    bit_value(px(buf, x, y), 1) + bit_value(px(buf, x, y + 1), 2) + bit_value(px(buf, x, y + 2), 4)
        + bit_value(px(buf, x + 1, y), 8) + bit_value(px(buf, x + 1, y + 1), 16) + bit_value(
        px(buf, x + 1, y + 2),
        32,
    ) + bit_value(px(buf, x, y + 3), 64) + bit_value(px(buf, x + 1, y + 3), 128)
}

/// The block mosaic cell showing the 2 x 3 pixels from column `x`, row `y`: from the top left,
/// row by row, the pixels weigh 32, 16, 8, 4, 2 and 1; pixels off the panel count as black.
pub open spec fn mosaic_index(buf: Seq<u8>, x: int, y: int) -> int {
    bit_value(x < 200 && y < 200 && px(buf, x, y), 32) + bit_value(
        x + 1 < 200 && y < 200 && px(buf, x + 1, y),
        16,
    ) + bit_value(x < 200 && y + 1 < 200 && px(buf, x, y + 1), 8) + bit_value(
        x + 1 < 200 && y + 1 < 200 && px(buf, x + 1, y + 1),
        4,
    ) + bit_value(x < 200 && y + 2 < 200 && px(buf, x, y + 2), 2) + bit_value(
        x + 1 < 200 && y + 2 < 200 && px(buf, x + 1, y + 2),
        1,
    )
}

/// Block mosaic characters, one for each pattern of the six pixels of a cell.
pub const MOSAIC: [char; 64] = [
    ' ', '🬞', '🬏', '🬭', '🬇', '🬦', '🬖', '🬵',
    '🬃', '🬢', '🬓', '🬱', '🬋', '🬩', '🬚', '🬹',
    '🬁', '🬠', '🬑', '🬯', '🬉', '▐', '🬘', '🬷',
    '🬅', '🬤', '🬔', '🬳', '🬍', '🬫', '🬜', '🬻',
    '🬀', '🬟', '🬐', '🬮', '🬈', '🬧', '🬗', '🬶',
    '🬄', '🬣', '▌', '🬲', '🬌', '🬪', '🬛', '🬺',
    '🬂', '🬡', '🬒', '🬰', '🬊', '🬨', '🬙', '🬸',
    '🬆', '🬥', '🬕', '🬴', '🬎', '🬬', '🬝', '█',
];

/// `char::from_u32` on a code point of the braille block, which is always a character.
#[verifier::external_body]
fn braille_char(code: u32) -> (c: char)
    requires
        0x2800 <= code <= 0x28ff,
    ensures
        c as int == code,
{
    char::from_u32(code).unwrap()
}

/// 1 for `true`, 0 for `false`.
fn flag(b: bool) -> (r: u8)
    ensures
        r == bit_value(b, 1),
{
    if b {
        1
    } else {
        0
    }
}

proof fn lemma_or_shifts8(a: u8, b: u8, c: u8, d: u8, e: u8, f: u8, g: u8, h: u8)
    requires
        a <= 1,
        b <= 1,
        c <= 1,
        d <= 1,
        e <= 1,
        f <= 1,
        g <= 1,
        h <= 1,
    ensures
        a | (b << 1u8) | (c << 2u8) | (g << 6u8) | (d << 3u8) | (e << 4u8) | (f << 5u8) | (h << 7u8)
            == a + 2 * b + 4 * c + 8 * d + 16 * e + 32 * f + 64 * g + 128 * h,
{
    assert(a | (b << 1u8) | (c << 2u8) | (g << 6u8) | (d << 3u8) | (e << 4u8) | (f << 5u8) | (h << 7u8)
        == a + 2 * b + 4 * c + 8 * d + 16 * e + 32 * f + 64 * g + 128 * h) by (bit_vector)
        requires
            a <= 1,
            b <= 1,
            c <= 1,
            d <= 1,
            e <= 1,
            f <= 1,
            g <= 1,
            h <= 1,
    ;
}

proof fn lemma_or_shifts6(a: u8, b: u8, c: u8, d: u8, e: u8, f: u8)
    requires
        a <= 1,
        b <= 1,
        c <= 1,
        d <= 1,
        e <= 1,
        f <= 1,
    ensures
        (a << 5u8) | (b << 4u8) | (c << 3u8) | (d << 2u8) | (e << 1u8) | f == 32 * a + 16 * b + 8 * c
            + 4 * d + 2 * e + f,
{
    assert((a << 5u8) | (b << 4u8) | (c << 3u8) | (d << 2u8) | (e << 1u8) | f == 32 * a + 16 * b + 8
        * c + 4 * d + 2 * e + f) by (bit_vector)
        requires
            a <= 1,
            b <= 1,
            c <= 1,
            d <= 1,
            e <= 1,
            f <= 1,
    ;
}

/// Byte and bit of the pixel in column `x` of row `y`.
proof fn lemma_px_byte(x: int, y: int)
    requires
        0 <= x < 200,
        0 <= y,
    ensures
        (y * 200 + x) / 8 == y * 25 + x / 8,
        (y * 200 + x) % 8 == x % 8,
{
    assert(y * 200 + x == (y * 25 + x / 8) * 8 + x % 8);
}

impl Display {
    /// Whether the pixel in column `x` of row `y` of `buff` is white.
    /// The pixel at linear position `p`: a column past the right edge is the start of the next
    /// row.
    fn read_at(buff: &Vec<u8>, p: usize) -> (r: bool)
        requires
            p < 40000,
            buff@.len() == BUFFSIZE,
        ensures
            r == pixel(buff@, p as int),
    {
        let mask: u8 = 0x80 >> ((p % 8) as u8);
        (buff[p / 8] & mask) > 0
    }

    fn read_px(buff: &Vec<u8>, x: usize, y: usize) -> (r: bool)
        requires
            x < 200,
            y < 200,
            buff@.len() == BUFFSIZE,
        ensures
            r == px(buff@, x as int, y as int),
    {
        proof {
            lemma_px_byte(x as int, y as int);
        }
        let mask: u8 = 0x80 >> ((x % 8) as u8);
        (buff[y * 25 + x / 8] & mask) > 0
    }

    /// The braille character that shows the 2 x 4 pixels from column `x`, row `y` of the frame
    /// being drawn.
    pub fn gen_character(&self, x: usize, y: usize) -> (c: char)
        requires
            x < 200,
            (y + 3) * 200 + x + 1 < 40000,
        ensures
            self@.len() == BUFFSIZE,
            c as int == 0x2800 + braille_dots(self@, x as int, y as int),
    {
        proof {
            use_type_invariant(self);
        }
        let buff = &self.buffer_curr;
        let p = y * 200 + x;
        let a = Self::read_at(buff, p);
        let b = Self::read_at(buff, p + 200);
        let c = Self::read_at(buff, p + 400);
        let g = Self::read_at(buff, p + 600);
        let d = Self::read_at(buff, p + 1);
        let e = Self::read_at(buff, p + 201);
        let f = Self::read_at(buff, p + 401);
        let h = Self::read_at(buff, p + 601);
        let (fa, fb, fc, fd) = (flag(a), flag(b), flag(c), flag(d));
        let (fe, ff, fg, fh) = (flag(e), flag(f), flag(g), flag(h));
        let output: u8 = fa | (fb << 1u8) | (fc << 2u8) | (fg << 6u8) | (fd << 3u8) | (fe << 4u8) | (ff
            << 5u8) | (fh << 7u8);
        proof {
            lemma_or_shifts8(fa, fb, fc, fd, fe, ff, fg, fh);
        }
        braille_char(0x2800 + output as u32)
    }

    /// The block mosaic cell, an index into `MOSAIC`, that shows the 2 x 3 pixels from column
    /// `x`, row `y` of the frame being drawn; pixels off the panel count as black.
    pub fn gen_mosaic_character(&self, x: usize, y: usize) -> (idx: usize)
        requires
            x < 200,
            y < 200,
        ensures
            self@.len() == BUFFSIZE,
            idx == mosaic_index(self@, x as int, y as int),
            idx < 64,
    {
        proof {
            use_type_invariant(self);
        }
        let buff = &self.buffer_curr;
        let a = Self::read_px(buff, x, y);
        let b = x + 1 < 200 && Self::read_px(buff, x + 1, y);
        let c = y + 1 < 200 && Self::read_px(buff, x, y + 1);
        let d = x + 1 < 200 && y + 1 < 200 && Self::read_px(buff, x + 1, y + 1);
        let e = y + 2 < 200 && Self::read_px(buff, x, y + 2);
        let f = x + 1 < 200 && y + 2 < 200 && Self::read_px(buff, x + 1, y + 2);
        let (fa, fb, fc) = (flag(a), flag(b), flag(c));
        let (fd, fe, ff) = (flag(d), flag(e), flag(f));
        let output: u8 = (fa << 5u8) | (fb << 4u8) | (fc << 3u8) | (fd << 2u8) | (fe << 1u8) | ff;
        proof {
            lemma_or_shifts6(fa, fb, fc, fd, fe, ff);
        }
        output as usize
    }
}

impl Display {
    /// The frame being drawn as text of braille characters for a terminal: 50 lines of 100
    /// characters, each line ending in a newline; character `c` of line `r` shows the pixels
    /// from column `2c`, row `4r`.
    pub fn render_braille(&self) -> (out: Vec<char>)
        ensures
            self@.len() == BUFFSIZE,
            out@.len() == 50 * 101,
            forall|r: int, c: int|
                0 <= r < 50 && 0 <= c < 100 ==> #[trigger] out@[r * 101 + c] as int == 0x2800
                    + braille_dots(self@, 2 * c, 4 * r),
            forall|r: int| 0 <= r < 50 ==> #[trigger] out@[r * 101 + 100] == '\n',
    {
        proof {
            use_type_invariant(self);
        }
        let mut out: Vec<char> = Vec::new();
        let mut y: usize = 0;
        while y < 200
            invariant
                y % 4 == 0,
                y <= 200,
                out@.len() == (y / 4) * 101,
                forall|r: int, c: int|
                    0 <= r < y / 4 && 0 <= c < 100 ==> #[trigger] out@[r * 101 + c] as int == 0x2800
                        + braille_dots(self@, 2 * c, 4 * r),
                forall|r: int| 0 <= r < y / 4 ==> #[trigger] out@[r * 101 + 100] == '\n',
            decreases 200 - y,
        {
            let mut x: usize = 0;
            let ghost row = y as int / 4;
            while x < 200
                invariant
                    x % 2 == 0,
                    x <= 200,
                    y % 4 == 0,
                    y < 200,
                    row == y / 4,
                    out@.len() == row * 101 + x / 2,
                    forall|r: int, c: int|
                        0 <= r < row && 0 <= c < 100 ==> #[trigger] out@[r * 101 + c] as int == 0x2800
                            + braille_dots(self@, 2 * c, 4 * r),
                    forall|r: int| 0 <= r < row ==> #[trigger] out@[r * 101 + 100] == '\n',
                    forall|c: int|
                        0 <= c < x / 2 ==> #[trigger] out@[row * 101 + c] as int == 0x2800 + braille_dots(
                            self@,
                            2 * c,
                            4 * row,
                        ),
                decreases 200 - x,
            {
                let ch = self.gen_character(x, y);
                out.push(ch);
                x += 2;
            }
            out.push('\n');
            y += 4;
        }
        out
    }

    /// The frame being drawn as text of block mosaic characters for a terminal: 67 lines of 100
    /// characters, each line ending in a newline; character `c` of line `r` shows the pixels from
    /// column `2c`, row `3r`.
    pub fn render_mosaic(&self) -> (out: Vec<char>)
        ensures
            self@.len() == BUFFSIZE,
            out@.len() == 67 * 101,
            forall|r: int, c: int|
                0 <= r < 67 && 0 <= c < 100 ==> #[trigger] out@[r * 101 + c] == MOSAIC@[mosaic_index(
                    self@,
                    2 * c,
                    3 * r,
                )],
            forall|r: int| 0 <= r < 67 ==> #[trigger] out@[r * 101 + 100] == '\n',
    {
        proof {
            use_type_invariant(self);
        }
        let mut out: Vec<char> = Vec::new();
        let mut y: usize = 0;
        let mut row: usize = 0;
        while y < 200
            invariant
                y == 3 * row,
                y <= 201,
                out@.len() == row * 101,
                forall|r: int, c: int|
                    0 <= r < row && 0 <= c < 100 ==> #[trigger] out@[r * 101 + c] == MOSAIC@[mosaic_index(
                        self@,
                        2 * c,
                        3 * r,
                    )],
                forall|r: int| 0 <= r < row ==> #[trigger] out@[r * 101 + 100] == '\n',
            decreases 201 - y,
        {
            let mut x: usize = 0;
            while x < 200
                invariant
                    x % 2 == 0,
                    x <= 200,
                    y == 3 * row,
                    y < 200,
                    out@.len() == row * 101 + x / 2,
                    forall|r: int, c: int|
                        0 <= r < row && 0 <= c < 100 ==> #[trigger] out@[r * 101 + c] == MOSAIC@[mosaic_index(
                            self@,
                            2 * c,
                            3 * r,
                        )],
                    forall|r: int| 0 <= r < row ==> #[trigger] out@[r * 101 + 100] == '\n',
                    forall|c: int|
                        0 <= c < x / 2 ==> #[trigger] out@[row * 101 + c] == MOSAIC@[mosaic_index(
                            self@,
                            2 * c,
                            3 * row,
                        )],
                decreases 200 - x,
            {
                let idx = self.gen_mosaic_character(x, y);
                out.push(MOSAIC[idx]);
                x += 2;
            }
            out.push('\n');
            y += 3;
            row += 1;
        }
        assert(row == 67);
        out
    }
}

} // verus!
