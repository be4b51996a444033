//! Bitfield arithmetic for 32-bit memory-mapped registers.
//!
//! Every hardware register touch in this design is either a masked
//! read-modify-write of one named bitfield, or a write to a register with
//! hardware set/reset semantics. The functions here compute the new register
//! word for both shapes; the unverified shell performs the single volatile
//! access with the value computed here.

use vstd::prelude::*;

verus! {

/// A contiguous field of `width` one bits starting at bit `lsb`.
pub open spec fn spec_field_mask(lsb: u32, width: u32) -> u32 {
    if width == 32 {
        !0u32
    } else {
        ((((1u32 << width) - 1) as u32) << lsb)
    }
}

/// Whether bit `i` of `word` is one.
pub open spec fn spec_bit(word: u32, i: u32) -> bool {
    word & (1u32 << i) != 0
}

/// The value held by the field of `width` bits at `lsb` of `word`.
pub open spec fn spec_field_get(word: u32, lsb: u32, width: u32) -> u32 {
    if width == 32 {
        word
    } else {
        (word >> lsb) & (((1u32 << width) - 1) as u32)
    }
}

/// The mask covering the field of `width` bits at `lsb`.
pub fn field_mask(lsb: u32, width: u32) -> (m: u32)
    requires
        1 <= width,
        lsb + width <= 32,
    ensures
        m == spec_field_mask(lsb, width),
{
    proof {
        assert(width < 32 ==> 1u32 << width >= 1) by (bit_vector);
    }
    if width == 32 {
        !0u32
    } else {
        ((1u32 << width) - 1) << lsb
    }
}

/// Read one bitfield out of a register word.
pub fn field_get(word: u32, lsb: u32, width: u32) -> (v: u32)
    requires
        1 <= width,
        lsb + width <= 32,
    ensures
        v == spec_field_get(word, lsb, width),
        v <= spec_field_mask(0, width),
{
    proof {
        assert(width < 32 ==> 1u32 << width >= 1) by (bit_vector);
        assert(word <= !0u32) by (bit_vector);
        assert(width < 32 ==> ((word >> lsb) & (((1u32 << width) - 1) as u32)) <= (((1u32 << width)
            - 1) as u32)) by (bit_vector);
        assert(spec_field_mask(0, width) == if width == 32 {
            !0u32
        } else {
            ((1u32 << width) - 1) as u32
        }) by (bit_vector)
        requires
            width <= 32,
        ;
    }
    if width == 32 {
        word
    } else {
        (word >> lsb) & ((1u32 << width) - 1)
    }
}

/// Replace one bitfield of a register word, leaving every other bit as it
/// was: the read-modify-write that a masked register update performs.
pub fn field_set(word: u32, lsb: u32, width: u32, value: u32) -> (r: u32)
    requires
        1 <= width,
        lsb + width <= 32,
        value <= spec_field_mask(0, width),
    ensures
        spec_field_get(r, lsb, width) == value,
        forall|i: u32| i < 32 && !(lsb <= i < lsb + width) ==> spec_bit(r, i) == spec_bit(word, i),
{
    let mask: u32 = field_mask(lsb, width);
    let r: u32 = (word & !mask) | (if width == 32 { value } else { value << lsb });
    proof {
        assert(spec_field_get(r, lsb, width) == value && forall|i: u32|
            i < 32 && !(lsb <= i < lsb + width) ==> spec_bit(r, i) == spec_bit(word, i))
            by (bit_vector)
        requires
            1 <= width,
            lsb + width <= 32,
            value <= spec_field_mask(0, width),
            mask == spec_field_mask(lsb, width),
            r == (word & !mask) | (if width == 32 { value } else { (value << lsb) as u32 }),
        ;
    }
    r
}

/// Whether one bit of a register word is set.
pub fn bit_is_set(word: u32, i: u32) -> (b: bool)
    requires
        i < 32,
    ensures
        b == spec_bit(word, i),
{
    word & (1u32 << i) != 0
}

/// The output-data word a GPIO port holds after a write to its bit
/// set/reset register: the low half of `bsrr` sets bits, the high half
/// clears them, and a set request wins over a clear request for the same
/// bit. Bits above 15 of the output word are untouched.
pub fn bsrr_apply(odr: u32, bsrr: u32) -> (r: u32)
    ensures
        r == (odr & !(bsrr >> 16)) | (bsrr & 0xffff),
        forall|i: u32| i < 16 ==> spec_bit(r, i) == if spec_bit(bsrr, i) {
            true
        } else if spec_bit(bsrr >> 16, i) {
            false
        } else {
            spec_bit(odr, i)
        },
        forall|i: u32| 16 <= i < 32 ==> spec_bit(r, i) == spec_bit(odr, i),
{
    let r: u32 = (odr & !(bsrr >> 16)) | (bsrr & 0xffff);
    proof {
        assert((forall|i: u32| i < 16 ==> spec_bit(r, i) == if spec_bit(bsrr, i) {
            true
        } else if spec_bit(bsrr >> 16, i) {
            false
        } else {
            spec_bit(odr, i)
        }) && (forall|i: u32| 16 <= i < 32 ==> spec_bit(r, i) == spec_bit(odr, i)))
            by (bit_vector)
        requires
            r == (odr & !(bsrr >> 16)) | (bsrr & 0xffff),
        ;
    }
    r
}

} // verus!
