use vstd::prelude::*;

pub mod shape;
pub mod font;
pub mod panel;
pub mod preview;
pub mod qr;
pub mod layers;

verus! {

/// Width and height of the panel in pixels.
pub const SIZE: usize = 200;

/// Bytes that hold one row of pixels.
pub const ROW_BYTES: usize = 25;

/// Bytes in one frame buffer: one bit per pixel, rows packed one after the other.
pub const BUFFSIZE: usize = 5000;

/// Bit `i` of `b`, counted from the most significant bit; a set bit is a white pixel.
pub open spec fn bit_of(b: u8, i: u8) -> bool {
    b & (0x80u8 >> i) != 0u8
}

/// The pixel at linear position `p` (`p = y * 200 + x`): `true` when white.
pub open spec fn pixel(buf: Seq<u8>, p: int) -> bool {
    bit_of(buf[p / 8], (p % 8) as u8)
}

/// The byte that `set_bit` writes: `b` with bit `i` replaced by `value`.
pub open spec fn with_bit(b: u8, i: u8, value: bool) -> u8 {
    (b & (0xffu8 ^ (0x80u8 >> i))) | (((if value { 1u8 } else { 0u8 }) << 7u8) >> i)
}

/// `with_bit` replaces bit `i` and keeps the others.
pub proof fn lemma_with_bit(b: u8, i: u8, value: bool, j: u8)
    requires
        i < 8,
        j < 8,
    ensures
        bit_of(with_bit(b, i, value), j) == if j == i { value } else { bit_of(b, j) },
{
    if value {
        assert(bit_of((b & (0xffu8 ^ (0x80u8 >> i))) | ((1u8 << 7u8) >> i), j) == if j == i { true } else { bit_of(b, j) }) by (bit_vector)
            requires i < 8, j < 8;
    } else {
        assert(bit_of((b & (0xffu8 ^ (0x80u8 >> i))) | ((0u8 << 7u8) >> i), j) == if j == i { false } else { bit_of(b, j) }) by (bit_vector)
            requires i < 8, j < 8;
    }
}

/// A monochrome e-paper panel of 200 x 200 pixels, seen through its two frame buffers:
/// the one being drawn and the one shown at the last refresh.
pub struct Display {
    pub(crate) buffer_curr: Vec<u8>,
    pub(crate) buffer_old: Vec<u8>,
    pub(crate) sleeping: bool,
    pub(crate) clean_update: bool,
}

impl View for Display {
    type V = Seq<u8>;

    /// The frame being drawn.
    closed spec fn view(&self) -> Seq<u8> {
        self.buffer_curr@
    }
}

impl Display {
    #[verifier::type_invariant]
    pub(crate) closed spec fn inv(&self) -> bool {
        &&& self.buffer_curr@.len() == BUFFSIZE
        &&& self.buffer_old@.len() == BUFFSIZE
    }

    /// Sets bit `bit_index` (0 = leftmost pixel) of byte `index` of the frame being drawn.
    pub fn set_bit(&mut self, index: usize, bit_index: u8, value: bool)
        requires
            index < BUFFSIZE,
            bit_index < 8,
        ensures
            old(self)@.len() == BUFFSIZE,
            final(self)@.len() == BUFFSIZE,
            final(self)@ == old(self)@.update(index as int, with_bit(old(self)@[index as int], bit_index, value)),
            final(self).old_frame() == old(self).old_frame(),
            final(self).is_sleeping() == old(self).is_sleeping(),
            final(self).wants_clean_update() == old(self).wants_clean_update(),
    {
        proof { use_type_invariant(&*self); }
        let v: u8 = if value { 1 } else { 0 };
        let clr_mask: u8 = 0xff ^ (0x80 >> bit_index);
        let set_mask: u8 = (v << 7) >> bit_index;
        self.buffer_curr[index] = self.buffer_curr[index] & clr_mask;
        self.buffer_curr[index] = self.buffer_curr[index] | set_mask;
    }

    /// Replaces byte `index` of the frame being drawn.
    pub(crate) fn write_byte(&mut self, index: usize, value: u8)
        requires
            index < BUFFSIZE,
        ensures
            final(self)@ == old(self)@.update(index as int, value),
            final(self).old_frame() == old(self).old_frame(),
            final(self).is_sleeping() == old(self).is_sleeping(),
            final(self).wants_clean_update() == old(self).wants_clean_update(),
    {
        proof { use_type_invariant(&*self); }
        self.buffer_curr[index] = value;
    }

    /// Reads bit `bit_index` (0 = most significant) of `arr[index]`.
    pub fn get_bit(&mut self, arr: &[u8], index: usize, bit_index: u8) -> (r: bool)
        requires
            index < arr@.len(),
            bit_index < 8,
        ensures
            old(self)@.len() == BUFFSIZE,
            final(self)@.len() == BUFFSIZE,
            r == bit_of(arr@[index as int], bit_index),
            *final(self) == *old(self),
    {
        proof {
            use_type_invariant(&*self);
        }
        let mask: u8 = 0x80 >> bit_index;
        (arr[index] & mask) > 0
    }

    /// The frame shown at the last refresh.
    pub closed spec fn old_frame(&self) -> Seq<u8> {
        self.buffer_old@
    }

    /// The panel is in deep sleep and needs its start-up sequence before a refresh.
    pub closed spec fn is_sleeping(&self) -> bool {
        self.sleeping
    }

    /// The next start-up of the panel uses its built-in waveforms.
    pub closed spec fn wants_clean_update(&self) -> bool {
        self.clean_update
    }
}

} // verus!

verus! {

/// `b` with its `k` leftmost bits kept and the others cleared.
pub proof fn lemma_keep_high_bits(b: u8, k: u8, j: u8)
    requires
        0 < k < 8,
        j < 8,
    ensures
        bit_of(b & (0xffu8 << ((8 - k) as u8)), j) == (j < k && bit_of(b, j)),
{
    assert(bit_of(b & (0xffu8 << ((8 - k) as u8)), j) == (j < k && bit_of(b, j))) by (bit_vector)
        requires 0 < k < 8, j < 8;
}

/// `b` with its `k` leftmost bits cleared and the others kept.
pub proof fn lemma_keep_low_bits(b: u8, k: u8, j: u8)
    requires
        0 < k < 8,
        j < 8,
    ensures
        bit_of(b & (0xffu8 >> k), j) == (j >= k && bit_of(b, j)),
{
    assert(bit_of(b & (0xffu8 >> k), j) == (j >= k && bit_of(b, j))) by (bit_vector)
        requires 0 < k < 8, j < 8;
}

/// A zero byte is eight black pixels.
pub proof fn lemma_zero_byte(j: u8)
    requires
        j < 8,
    ensures
        !bit_of(0u8, j),
{
    assert(!bit_of(0u8, j)) by (bit_vector)
        requires j < 8;
}

/// Byte `k`, bit `j` of the frame is pixel `8k + j`.
pub proof fn lemma_pixel_byte(p: int)
    requires
        0 <= p,
    ensures
        p / 8 == (p / 200) * 25 + (p % 200) / 8,
        p % 8 == (p % 200) % 8,
        (p / 8) / 25 == p / 200,
        (p / 8) % 25 == (p % 200) / 8,
        p % 200 == 8 * ((p / 8) % 25) + p % 8,
{
    assert(p == 200 * (p / 200) + p % 200);
    assert(p % 200 == 8 * ((p % 200) / 8) + (p % 200) % 8);
    assert(p / 8 == (p / 200) * 25 + (p % 200) / 8) by {
        let q = p / 200;
        let r = p % 200;
        assert(p == q * 200 + (r / 8) * 8 + r % 8);
        assert(p == (q * 25 + r / 8) * 8 + r % 8) by (nonlinear_arith)
            requires p == q * 200 + (r / 8) * 8 + r % 8;
    }
    assert(p % 8 == (p % 200) % 8) by {
        let q = p / 200;
        let r = p % 200;
        assert(p == (q * 25 + r / 8) * 8 + r % 8);
    }
}

} // verus!
