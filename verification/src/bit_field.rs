//! Generic access to contiguous bit ranges of unsigned integers.
//!
//! Every hardware register layout in this crate (PCI config addresses, MSI
//! capability words, IDT gate descriptors) is expressed through these
//! operations. Bit 0 is the least significant bit; a range covers the
//! half-open span `[start, end)` after normalization.

use vstd::prelude::*;

verus! {

/// A contiguous span of bit positions in one of the standard bound forms.
/// All forms are normalized to a half-open `[start, end)` span by
/// `to_regular_range`.
#[derive(Clone, Copy, PartialEq, Eq, Structural, Debug)]
pub enum BitRange {
    /// Half-open `[start, end)`.
    Span(usize, usize),
    /// Inclusive `[start, end]`.
    SpanInclusive(usize, usize),
    /// From `start` to the top bit of the integer: `[start, width)`.
    SpanFrom(usize),
    /// From bit 0 up to but excluding `end`: `[0, end)`.
    SpanTo(usize),
    /// From bit 0 through `end`: `[0, end]`.
    SpanToInclusive(usize),
    /// Every bit of the integer: `[0, width)`.
    SpanFull,
}

/// The normalized `[start, end)` form of a range, for an integer of
/// `bit_length` bits.
pub open spec fn spec_normalize_range(range: BitRange, bit_length: usize) -> (usize, usize) {
    match range {
        BitRange::Span(start, end) => (start, end),
        BitRange::SpanInclusive(start, end) => (start, (end + 1) as usize),
        BitRange::SpanFrom(start) => (start, bit_length),
        BitRange::SpanTo(end) => (0usize, end),
        BitRange::SpanToInclusive(end) => (0usize, (end + 1) as usize),
        BitRange::SpanFull => (0usize, bit_length),
    }
}

/// A range is addressable in an integer of `bit_length` bits when its
/// normalized form `[start, end)` satisfies `start <= end <= bit_length`.
pub open spec fn range_valid(range: BitRange, bit_length: usize) -> bool {
    match range {
        BitRange::Span(start, end) => start <= end <= bit_length,
        BitRange::SpanInclusive(start, end) => start <= end + 1 <= bit_length,
        BitRange::SpanFrom(start) => start <= bit_length,
        BitRange::SpanTo(end) => end <= bit_length,
        BitRange::SpanToInclusive(end) => end + 1 <= bit_length,
        BitRange::SpanFull => true,
    }
}

/// Normalizes any bound form to the half-open span `[start, end)`.
pub fn to_regular_range(range: BitRange, bit_length: usize) -> (r: (usize, usize))
    requires
        range_valid(range, bit_length),
    ensures
        r == spec_normalize_range(range, bit_length),
        r.0 <= r.1 <= bit_length,
{
    match range {
        BitRange::Span(start, end) => (start, end),
        BitRange::SpanInclusive(start, end) => (start, end + 1),
        BitRange::SpanFrom(start) => (start, bit_length),
        BitRange::SpanTo(end) => (0, end),
        BitRange::SpanToInclusive(end) => (0, end + 1),
        BitRange::SpanFull => (0, bit_length),
    }
}

/// Get and set single bits and contiguous bit fields of an unsigned integer.
///
/// `spec_get_bits`/`spec_set_bits` of each implementation give the meaning of
/// the executable operations: extraction shifts the field down to bit 0 and
/// clears everything above the field's width; injection clears exactly
/// `[start, end)` in the target and places the field's low `end - start`
/// bits there.
pub trait BitField: Sized + Copy {
    /// The width of the integer in bits.
    spec fn bit_size() -> usize;

    /// Whether bit `i` is set.
    spec fn spec_get_bit(self, i: usize) -> bool;

    /// The field `[start, end)`, right-aligned to bit 0.
    spec fn spec_get_bits(self, start: usize, end: usize) -> Self;

    /// `self` with bit `i` set to `val`.
    spec fn spec_set_bit(self, i: usize, val: bool) -> Self;

    /// `self` with the field `[start, end)` replaced by the low
    /// `end - start` bits of `val`.
    spec fn spec_set_bits(self, start: usize, end: usize, val: Self) -> Self;

    fn get_bit(&self, bit: usize) -> (r: bool)
        requires
            bit < Self::bit_size(),
        ensures
            r == self.spec_get_bit(bit),
    ;

    fn get_bits(&self, range: BitRange) -> (r: Self)
        requires
            range_valid(range, Self::bit_size()),
        ensures
            ({
                let (start, end) = spec_normalize_range(range, Self::bit_size());
                r == self.spec_get_bits(start, end)
            }),
    ;

    fn set_bit(&mut self, bit: usize, val: bool)
        requires
            bit < Self::bit_size(),
        ensures
            *final(self) == old(self).spec_set_bit(bit, val),
    ;

    fn set_bits(&mut self, range: BitRange, val: Self)
        requires
            range_valid(range, Self::bit_size()),
        ensures
            ({
                let (start, end) = spec_normalize_range(range, Self::bit_size());
                *final(self) == old(self).spec_set_bits(start, end, val)
            }),
    ;
}

/// The low `width` bits set, as a `u8`.
pub open spec fn mask_u8(width: int) -> u8 {
    (((1u16 << (width as u16)) - 1) as u8)
}

/// The low `width` bits set, as a `u16`.
pub open spec fn mask_u16(width: int) -> u16 {
    (((1u32 << (width as u32)) - 1) as u16)
}

/// The low `width` bits set, as a `u32`.
pub open spec fn mask_u32(width: int) -> u32 {
    (((1u64 << (width as u64)) - 1) as u32)
}

/// The low `width` bits set, as a `u64`.
pub open spec fn mask_u64(width: int) -> u64 {
    (((1u128 << (width as u128)) - 1) as u64)
}

impl BitField for u32 {
    open spec fn bit_size() -> usize {
        32
    }

    open spec fn spec_get_bit(self, i: usize) -> bool {
        (self >> (i as u32)) & 1 == 1
    }

    open spec fn spec_get_bits(self, start: usize, end: usize) -> u32 {
        (self >> (start as u32)) & mask_u32(end - start)
    }

    open spec fn spec_set_bit(self, i: usize, val: bool) -> u32 {
        if val {
            self | (1u32 << (i as u32))
        } else {
            self & !(1u32 << (i as u32))
        }
    }

    open spec fn spec_set_bits(self, start: usize, end: usize, val: u32) -> u32 {
        (self & !(mask_u32(end - start) << (start as u32))) | (
        (val & mask_u32(end - start)) << (start as u32))
    }

    fn get_bit(&self, bit: usize) -> (r: bool) {
        proof {
            let x = *self;
            assert((x & (1u32 << (bit as u32)) != 0) == ((x >> (bit as u32)) & 1 == 1))
                by (bit_vector)
                requires
                    bit < 32usize,
            ;
        }
        *self & (1u32 << (bit as u32)) != 0
    }

    fn get_bits(&self, range: BitRange) -> (r: u32) {
        let (start, end) = to_regular_range(range, 32);
        if start == end {
            proof {
                let x = *self;
                assert((x >> (start as u32)) & mask_u32(0) == 0) by (bit_vector);
            }
            return 0;
        }
        // shift the bits above the span away, then align the span to bit 0
        let upper_bits = 32 - end;
        let r = ((*self << (upper_bits as u32)) >> (upper_bits as u32)) >> (start as u32);
        proof {
            let x = *self;
            assert(((x << ((32 - end) as u32)) >> ((32 - end) as u32)) >> (start as u32) == (x >> (
            start as u32)) & (((1u64 << ((end - start) as u64)) - 1) as u32)) by (bit_vector)
                requires
                    start < end <= 32usize,
            ;
        }
        r
    }

    fn set_bit(&mut self, bit: usize, val: bool) {
        if val {
            *self = *self | (1u32 << (bit as u32));
        } else {
            *self = *self & !(1u32 << (bit as u32));
        }
    }

    fn set_bits(&mut self, range: BitRange, val: u32) {
        let (start, end) = to_regular_range(range, 32);
        if start == end {
            proof {
                let x = *self;
                assert(x == (x & !(mask_u32(0) << (start as u32))) | ((val & mask_u32(0)) << (
                start as u32))) by (bit_vector);
            }
            return ;
        }
        let width = end - start;
        let field_mask: u32;
        if width == 32 {
            field_mask = 0xffff_ffff;
        } else {
            proof {
                assert(1u32 << (width as u32) >= 1) by (bit_vector)
                    requires
                        width < 32usize,
                ;
            }
            field_mask = (1u32 << (width as u32)) - 1;
        }
        proof {
            assert(field_mask == mask_u32(end - start)) by (bit_vector)
                requires
                    start < end <= 32usize,
                    width == end - start,
                    field_mask == if width == 32usize {
                        0xffff_ffffu32
                    } else {
                        ((1u32 << (width as u32)) - 1) as u32
                    },
            ;
        }
        *self = (*self & !(field_mask << (start as u32))) | ((val & field_mask) << (start as u32));
    }
}

impl BitField for u8 {
    open spec fn bit_size() -> usize {
        8
    }

    open spec fn spec_get_bit(self, i: usize) -> bool {
        (self >> (i as u8)) & 1 == 1
    }

    open spec fn spec_get_bits(self, start: usize, end: usize) -> u8 {
        (self >> (start as u8)) & mask_u8(end - start)
    }

    open spec fn spec_set_bit(self, i: usize, val: bool) -> u8 {
        if val {
            self | (1u8 << (i as u8))
        } else {
            self & !(1u8 << (i as u8))
        }
    }

    open spec fn spec_set_bits(self, start: usize, end: usize, val: u8) -> u8 {
        (self & !(mask_u8(end - start) << (start as u8))) | (
        (val & mask_u8(end - start)) << (start as u8))
    }

    fn get_bit(&self, bit: usize) -> (r: bool) {
        proof {
            let x = *self;
            assert((x & (1u8 << (bit as u8)) != 0) == ((x >> (bit as u8)) & 1 == 1))
                by (bit_vector)
                requires
                    bit < 8usize,
            ;
        }
        *self & (1u8 << (bit as u8)) != 0
    }

    fn get_bits(&self, range: BitRange) -> (r: u8) {
        let (start, end) = to_regular_range(range, 8);
        if start == end {
            proof {
                let x = *self;
                assert((x >> (start as u8)) & mask_u8(0) == 0) by (bit_vector);
            }
            return 0;
        }
        // shift the bits above the span away, then align the span to bit 0
        let upper_bits = 8 - end;
        let r = ((*self << (upper_bits as u8)) >> (upper_bits as u8)) >> (start as u8);
        proof {
            let x = *self;
            assert(((x << ((8 - end) as u8)) >> ((8 - end) as u8)) >> (start as u8) == (x >> (
            start as u8)) & (((1u16 << ((end - start) as u16)) - 1) as u8)) by (bit_vector)
                requires
                    start < end <= 8usize,
            ;
        }
        r
    }

    fn set_bit(&mut self, bit: usize, val: bool) {
        if val {
            *self = *self | (1u8 << (bit as u8));
        } else {
            *self = *self & !(1u8 << (bit as u8));
        }
    }

    fn set_bits(&mut self, range: BitRange, val: u8) {
        let (start, end) = to_regular_range(range, 8);
        if start == end {
            proof {
                let x = *self;
                assert(x == (x & !(mask_u8(0) << (start as u8))) | ((val & mask_u8(0)) << (
                start as u8))) by (bit_vector);
            }
            return ;
        }
        let width = end - start;
        let field_mask: u8;
        if width == 8 {
            field_mask = 0xff;
        } else {
            proof {
                assert(1u8 << (width as u8) >= 1) by (bit_vector)
                    requires
                        width < 8usize,
                ;
            }
            field_mask = (1u8 << (width as u8)) - 1;
        }
        proof {
            assert(field_mask == mask_u8(end - start)) by (bit_vector)
                requires
                    start < end <= 8usize,
                    width == end - start,
                    field_mask == if width == 8usize {
                        0xffu8
                    } else {
                        ((1u8 << (width as u8)) - 1) as u8
                    },
            ;
        }
        *self = (*self & !(field_mask << (start as u8))) | ((val & field_mask) << (start as u8));
    }
}

impl BitField for u16 {
    open spec fn bit_size() -> usize {
        16
    }

    open spec fn spec_get_bit(self, i: usize) -> bool {
        (self >> (i as u16)) & 1 == 1
    }

    open spec fn spec_get_bits(self, start: usize, end: usize) -> u16 {
        (self >> (start as u16)) & mask_u16(end - start)
    }

    open spec fn spec_set_bit(self, i: usize, val: bool) -> u16 {
        if val {
            self | (1u16 << (i as u16))
        } else {
            self & !(1u16 << (i as u16))
        }
    }

    open spec fn spec_set_bits(self, start: usize, end: usize, val: u16) -> u16 {
        (self & !(mask_u16(end - start) << (start as u16))) | (
        (val & mask_u16(end - start)) << (start as u16))
    }

    fn get_bit(&self, bit: usize) -> (r: bool) {
        proof {
            let x = *self;
            assert((x & (1u16 << (bit as u16)) != 0) == ((x >> (bit as u16)) & 1 == 1))
                by (bit_vector)
                requires
                    bit < 16usize,
            ;
        }
        *self & (1u16 << (bit as u16)) != 0
    }

    fn get_bits(&self, range: BitRange) -> (r: u16) {
        let (start, end) = to_regular_range(range, 16);
        if start == end {
            proof {
                let x = *self;
                assert((x >> (start as u16)) & mask_u16(0) == 0) by (bit_vector);
            }
            return 0;
        }
        // shift the bits above the span away, then align the span to bit 0
        let upper_bits = 16 - end;
        let r = ((*self << (upper_bits as u16)) >> (upper_bits as u16)) >> (start as u16);
        proof {
            let x = *self;
            assert(((x << ((16 - end) as u16)) >> ((16 - end) as u16)) >> (start as u16) == (x >> (
            start as u16)) & (((1u32 << ((end - start) as u32)) - 1) as u16)) by (bit_vector)
                requires
                    start < end <= 16usize,
            ;
        }
        r
    }

    fn set_bit(&mut self, bit: usize, val: bool) {
        if val {
            *self = *self | (1u16 << (bit as u16));
        } else {
            *self = *self & !(1u16 << (bit as u16));
        }
    }

    fn set_bits(&mut self, range: BitRange, val: u16) {
        let (start, end) = to_regular_range(range, 16);
        if start == end {
            proof {
                let x = *self;
                assert(x == (x & !(mask_u16(0) << (start as u16))) | ((val & mask_u16(0)) << (
                start as u16))) by (bit_vector);
            }
            return ;
        }
        let width = end - start;
        let field_mask: u16;
        if width == 16 {
            field_mask = 0xffff;
        } else {
            proof {
                assert(1u16 << (width as u16) >= 1) by (bit_vector)
                    requires
                        width < 16usize,
                ;
            }
            field_mask = (1u16 << (width as u16)) - 1;
        }
        proof {
            assert(field_mask == mask_u16(end - start)) by (bit_vector)
                requires
                    start < end <= 16usize,
                    width == end - start,
                    field_mask == if width == 16usize {
                        0xffffu16
                    } else {
                        ((1u16 << (width as u16)) - 1) as u16
                    },
            ;
        }
        *self = (*self & !(field_mask << (start as u16))) | ((val & field_mask) << (start as u16));
    }
}

impl BitField for u64 {
    open spec fn bit_size() -> usize {
        64
    }

    open spec fn spec_get_bit(self, i: usize) -> bool {
        (self >> (i as u64)) & 1 == 1
    }

    open spec fn spec_get_bits(self, start: usize, end: usize) -> u64 {
        (self >> (start as u64)) & mask_u64(end - start)
    }

    open spec fn spec_set_bit(self, i: usize, val: bool) -> u64 {
        if val {
            self | (1u64 << (i as u64))
        } else {
            self & !(1u64 << (i as u64))
        }
    }

    open spec fn spec_set_bits(self, start: usize, end: usize, val: u64) -> u64 {
        (self & !(mask_u64(end - start) << (start as u64))) | (
        (val & mask_u64(end - start)) << (start as u64))
    }

    fn get_bit(&self, bit: usize) -> (r: bool) {
        proof {
            let x = *self;
            assert((x & (1u64 << (bit as u64)) != 0) == ((x >> (bit as u64)) & 1 == 1))
                by (bit_vector)
                requires
                    bit < 64usize,
            ;
        }
        *self & (1u64 << (bit as u64)) != 0
    }

    #[verifier::rlimit(100)]
    fn get_bits(&self, range: BitRange) -> (r: u64) {
        let (start, end) = to_regular_range(range, 64);
        if start == end {
            proof {
                let x = *self;
                assert((x >> (start as u64)) & mask_u64(0) == 0) by (bit_vector);
            }
            return 0;
        }
        // shift the bits above the span away, then align the span to bit 0
        let upper_bits = 64 - end;
        let r = ((*self << (upper_bits as u64)) >> (upper_bits as u64)) >> (start as u64);
        proof {
            let x = *self;
            assert(((x << ((64 - end) as u64)) >> ((64 - end) as u64)) >> (start as u64) == (x >> (
            start as u64)) & (((1u128 << ((end - start) as u128)) - 1) as u64)) by (bit_vector)
                requires
                    start < end <= 64usize,
            ;
        }
        r
    }

    fn set_bit(&mut self, bit: usize, val: bool) {
        if val {
            *self = *self | (1u64 << (bit as u64));
        } else {
            *self = *self & !(1u64 << (bit as u64));
        }
    }

    #[verifier::rlimit(100)]
    fn set_bits(&mut self, range: BitRange, val: u64) {
        let (start, end) = to_regular_range(range, 64);
        if start == end {
            proof {
                let x = *self;
                assert(x == (x & !(mask_u64(0) << (start as u64))) | ((val & mask_u64(0)) << (
                start as u64))) by (bit_vector);
            }
            return ;
        }
        let width = end - start;
        let field_mask: u64;
        if width == 64 {
            field_mask = 0xffff_ffff_ffff_ffff;
        } else {
            proof {
                assert(1u64 << (width as u64) >= 1) by (bit_vector)
                    requires
                        width < 64usize,
                ;
            }
            field_mask = (1u64 << (width as u64)) - 1;
        }
        proof {
            assert(field_mask == mask_u64(end - start)) by (bit_vector)
                requires
                    start < end <= 64usize,
                    width == end - start,
                    field_mask == if width == 64usize {
                        0xffff_ffff_ffff_ffffu64
                    } else {
                        ((1u64 << (width as u64)) - 1) as u64
                    },
            ;
        }
        *self = (*self & !(field_mask << (start as u64))) | ((val & field_mask) << (start as u64));
    }
}

/// Law: after writing a field, reading the same field back yields the written
/// value masked to the field's width.
pub proof fn lemma_u32_set_get_bits(x: u32, start: usize, end: usize, val: u32)
    by (bit_vector)
    requires
        start <= end <= 32usize,
    ensures
        x.spec_set_bits(start, end, val).spec_get_bits(start, end) == val & mask_u32(end - start),
{
}

/// Law: writing one field never disturbs a disjoint field.
pub proof fn lemma_u32_set_bits_disjoint(x: u32, s1: usize, e1: usize, s2: usize, e2: usize, val: u32)
    by (bit_vector)
    requires
        s1 <= e1 <= 32usize,
        s2 <= e2 <= 32usize,
        e1 <= s2 || e2 <= s1,
    ensures
        x.spec_set_bits(s1, e1, val).spec_get_bits(s2, e2) == x.spec_get_bits(s2, e2),
{
}

} // verus!
