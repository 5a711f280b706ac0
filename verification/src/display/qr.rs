use vstd::prelude::*;
use crate::display::{Display, pixel, bit_of, BUFFSIZE};
use crate::display::shape::{painted_black, in_rect};
use crate::pages::Pages;

verus! {

/// The modules of the QR code that `menu_qr` draws: 33 rows of 33, read row after row starting
/// at the most significant bit of the first byte. A clear bit is a dark module.
pub const QR_DATA: [u8; 137] = [
    0x01, 0xd0, 0xe0, 0xc0, 0x3e, 0xac, 0x19, 0xef, 0x91, 0x7c, 0xb4, 0xf4,
    0x48, 0xa2, 0x97, 0xaa, 0x24, 0x5b, 0xe0, 0x2d, 0x13, 0xe9, 0x3e, 0xce,
    0xf8, 0x05, 0x55, 0x55, 0x01, 0xff, 0x1a, 0xd5, 0xff, 0x04, 0x2f, 0x30,
    0x2a, 0xfb, 0x68, 0x72, 0x2f, 0x21, 0x76, 0x05, 0x45, 0xe8, 0xee, 0x5c,
    0x31, 0xbb, 0x41, 0x4a, 0xd2, 0x7f, 0x71, 0xf0, 0x46, 0xd0, 0x72, 0x1f,
    0x54, 0x0a, 0x66, 0x5a, 0xe2, 0x6b, 0x5c, 0x4f, 0xbd, 0xe6, 0x9f, 0x58,
    0x41, 0x25, 0x35, 0x1e, 0x0c, 0xc0, 0xb3, 0xc6, 0x5e, 0x21, 0x3d, 0x4f,
    0x53, 0xda, 0x6a, 0xbd, 0xf8, 0x02, 0xc1, 0x93, 0x9a, 0xe5, 0xea, 0xf7,
    0xdb, 0x94, 0x73, 0x70, 0x6e, 0x15, 0x07, 0x7f, 0x98, 0x81, 0x3b, 0x80,
    0x5e, 0x3f, 0x94, 0x2f, 0xbe, 0x4e, 0x0e, 0x04, 0x51, 0x43, 0x50, 0x2a,
    0x2a, 0xfa, 0x39, 0x81, 0x15, 0x9b, 0xc9, 0x76, 0xfa, 0x9a, 0xc7, 0x13,
    0x01, 0x6f, 0xae, 0x46, 0x80,
];

/// Module `m` of the QR code is dark.
pub open spec fn qr_dark(m: int) -> bool {
    !bit_of(QR_DATA@[m / 8], (m % 8) as u8)
}

/// The module drawn over pixel `p`: each module is a square of 5 x 5 pixels, the code's top
/// left corner at `(17, 17)`; -1 outside the code.
pub open spec fn qr_module(p: int) -> int {
    let r = p / 200;
    let c = p % 200;
    if 17 <= r < 182 && 17 <= c < 182 {
        ((r - 17) / 5) * 33 + (c - 17) / 5
    } else {
        -1
    }
}

/// Pixel `p` lies in a dark module among the first `n`.
pub open spec fn qr_painted(n: int, p: int) -> bool {
    0 <= qr_module(p) < n && qr_dark(qr_module(p))
}

/// The square of module `33 y + x` is the set of pixels whose module it is.
proof fn lemma_qr_square(x: int, y: int, p: int)
    requires
        0 <= x < 33,
        0 <= y < 33,
        0 <= p < 40000,
    ensures
        in_rect(17 + 5 * x, 17 + 5 * y, 5, 5, p) == (qr_module(p) == 33 * y + x),
{
    let r = p / 200;
    let c = p % 200;
    if 17 <= r < 182 && 17 <= c < 182 {
        let a = (r - 17) / 5;
        let b = (c - 17) / 5;
        assert(0 <= a < 33 && 0 <= b < 33);
        if a * 33 + b == 33 * y + x {
            assert(a == y && b == x);
        }
    }
}

impl Pages {
    /// Draws the QR code: each dark module a black square of 5 x 5 pixels, the code's top left
    /// corner at `(17, 17)`.
    pub fn menu_qr(display: &mut Display)
        ensures
            old(display)@.len() == BUFFSIZE,
            painted_black(old(display)@, final(display)@, |p: int| qr_painted(1089, p)),
            final(display).old_frame() == old(display).old_frame(),
            final(display).is_sleeping() == old(display).is_sleeping(),
            final(display).wants_clean_update() == old(display).wants_clean_update(),
    {
        let ghost start = display@;
        proof {
            use_type_invariant(&*display);
        }
        let mut i: usize = 0;
        let mut y: u8 = 0;
        while y < 33
            invariant
                0 <= y <= 33,
                i == 33 * y,
                start.len() == 5000,
                painted_black(start, display@, |p: int| qr_painted(i as int, p)),
                display.old_frame() == old(display).old_frame(),
                display.is_sleeping() == old(display).is_sleeping(),
                display.wants_clean_update() == old(display).wants_clean_update(),
            decreases 33 - y,
        {
            let mut x: u8 = 0;
            while x < 33
                invariant
                    0 <= y < 33,
                    0 <= x <= 33,
                    i == 33 * y + x,
                    start.len() == 5000,
                    painted_black(start, display@, |p: int| qr_painted(i as int, p)),
                    display.old_frame() == old(display).old_frame(),
                    display.is_sleeping() == old(display).is_sleeping(),
                    display.wants_clean_update() == old(display).wants_clean_update(),
                decreases 33 - x,
            {
                let val = QR_DATA[i / 8] & (0b10000000u8 >> ((i % 8) as u8));
                let ghost before = display@;
                if val == 0 {
                    display.rect(17 + x * 5, 17 + y * 5, 5, 5);
                }
                proof {
                    assert forall|p: int| 0 <= p < 40000 implies #[trigger] pixel(display@, p) == (
                    if qr_painted(i + 1, p) {
                        false
                    } else {
                        pixel(start, p)
                    }) by {
                        lemma_qr_square(x as int, y as int, p);
                        assert(qr_painted(i + 1, p) == (qr_painted(i as int, p) || (qr_module(p)
                            == i && qr_dark(i as int))));
                        if val == 0 {
                            assert(pixel(display@, p) == (if in_rect(
                                17 + 5 * x,
                                17 + 5 * y,
                                5,
                                5,
                                p,
                            ) {
                                false
                            } else {
                                pixel(before, p)
                            }));
                        }
                    }
                }
                i += 1;
                x += 1;
            }
            y += 1;
        }
    }
}

} // verus!
