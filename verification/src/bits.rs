//! Bit fields of a byte.
//!
//! The descriptor encodings set and read their bit fields through the
//! `bitfield` and `bit_field` crates. The functions of those crates are
//! called here, and what they do to a byte is stated next to each call.

use bit_field::BitField;
use bitfield::{Bit, BitMut, BitRange, BitRangeMut};
use vstd::prelude::*;

verus! {

/// The byte whose bits `lsb ..= msb` are set and whose other bits are clear.
pub open spec fn field_mask(msb: u8, lsb: u8) -> u8 {
    ((0xffu8 << ((7 - msb) as u8)) >> ((7 - msb + lsb) as u8)) << lsb
}

/// The bits `lsb ..= msb` of `byte`, moved down to bit 0.
pub open spec fn field_of(byte: u8, msb: u8, lsb: u8) -> u8 {
    (byte << ((7 - msb) as u8)) >> ((7 - msb + lsb) as u8)
}

/// `byte` with its bits `lsb ..= msb` replaced by the low bits of `value`.
pub open spec fn with_field(byte: u8, msb: u8, lsb: u8, value: u8) -> u8 {
    (byte & !field_mask(msb, lsb)) | ((value << lsb) & field_mask(msb, lsb))
}

/// `byte` with bit `bit` set or cleared.
pub open spec fn with_bit(byte: u8, bit: u8, value: bool) -> u8 {
    if value {
        byte | (1u8 << bit)
    } else {
        byte & !(1u8 << bit)
    }
}

/// The largest value that fits the bits `start .. end`.
pub open spec fn largest_in(start: u8, end: u8) -> u8 {
    0xffu8 >> ((8 - (end - start)) as u8)
}

/// `byte` with its bits `start .. end` replaced by `value`.
pub open spec fn with_bits(byte: u8, start: u8, end: u8, value: u8) -> u8 {
    (byte & !((((0xffu8 << ((8 - end) as u8)) >> ((8 - end) as u8)) >> start) << start)) | (value
        << start)
}

/// `BitRange::<u8>::bit_range` of the `bitfield` crate on a byte: the result
/// is the field of bits `lsb ..= msb`, moved down to bit 0. The call is made
/// only with `lsb <= msb < 8`; other positions overflow a shift in it.
#[verifier::external_body]
pub(crate) fn field_get(byte: u8, msb: usize, lsb: usize) -> (field: u8)
    requires
        lsb <= msb < 8,
    ensures
        field == field_of(byte, msb as u8, lsb as u8),
{
    BitRange::<u8>::bit_range(&byte, msb, lsb)
}

/// `BitRangeMut::<u8>::set_bit_range` of the `bitfield` crate on a byte: the
/// bits `lsb ..= msb` take the low bits of `value`, the other bits stay. The
/// call is made only with `lsb <= msb < 8`.
#[verifier::external_body]
pub(crate) fn field_set(byte: &mut u8, msb: usize, lsb: usize, value: u8)
    requires
        lsb <= msb < 8,
    ensures
        *final(byte) == with_field(*old(byte), msb as u8, lsb as u8, value),
{
    BitRangeMut::<u8>::set_bit_range(byte, msb, lsb, value);
}

/// `Bit::bit` of the `bitfield` crate on a byte: whether the one-bit field
/// at `bit` is not zero. The call is made only with `bit < 8`.
#[verifier::external_body]
pub(crate) fn flag_get(byte: u8, bit: usize) -> (set: bool)
    requires
        bit < 8,
    ensures
        set == (field_of(byte, bit as u8, bit as u8) != 0),
{
    Bit::bit(&byte, bit)
}

/// `BitMut::set_bit` of the `bitfield` crate on a byte: the one-bit field at
/// `bit` takes `value` as 0 or 1. The call is made only with `bit < 8`.
#[verifier::external_body]
pub(crate) fn flag_set(byte: &mut u8, bit: usize, value: bool)
    requires
        bit < 8,
    ensures
        *final(byte) == with_field(*old(byte), bit as u8, bit as u8, if value {
            1u8
        } else {
            0u8
        }),
{
    BitMut::set_bit(byte, bit, value);
}

/// `BitField::set_bit` of the `bit_field` crate on a byte: bit `bit` is set
/// or cleared, the other bits stay. It panics for `bit >= 8`, so the call is
/// made only below that.
#[verifier::external_body]
pub(crate) fn assign_bit(byte: &mut u8, bit: usize, value: bool)
    requires
        bit < 8,
    ensures
        *final(byte) == with_bit(*old(byte), bit as u8, value),
{
    BitField::set_bit(byte, bit, value);
}

/// `BitField::set_bits` of the `bit_field` crate on a byte with the range
/// `start .. end`: the bits of the range take `value`, the other bits stay.
/// It panics for a range outside the byte and for a value that does not fit
/// the range, so the call is made only with `start < end <= 8` and a value
/// that fits.
#[verifier::external_body]
pub(crate) fn assign_bits(byte: &mut u8, start: usize, end: usize, value: u8)
    requires
        start < end <= 8,
        value <= largest_in(start as u8, end as u8),
    ensures
        *final(byte) == with_bits(*old(byte), start as u8, end as u8, value),
{
    BitField::set_bits(byte, start..end, value);
}

/// What the one-bit fields of a byte are, bit by bit.
pub proof fn lemma_flags(b: u8)
    by (bit_vector)
    ensures
        (field_of(b, 7, 7) != 0) == (b & 0x80 != 0),
        (field_of(b, 4, 4) != 0) == (b & 0x10 != 0),
        (field_of(b, 3, 3) != 0) == (b & 0x08 != 0),
        (field_of(b, 2, 2) != 0) == (b & 0x04 != 0),
        (field_of(b, 1, 1) != 0) == (b & 0x02 != 0),
        (field_of(b, 0, 0) != 0) == (b & 0x01 != 0),
        with_field(b, 7, 7, 1) == b | 0x80,
        with_field(b, 7, 7, 0) == b & 0x7f,
        with_field(b, 4, 4, 1) == b | 0x10,
        with_field(b, 4, 4, 0) == b & 0xef,
        with_field(b, 3, 3, 1) == b | 0x08,
        with_field(b, 3, 3, 0) == b & 0xf7,
        with_field(b, 2, 2, 1) == b | 0x04,
        with_field(b, 2, 2, 0) == b & 0xfb,
        with_field(b, 1, 1, 1) == b | 0x02,
        with_field(b, 1, 1, 0) == b & 0xfd,
        with_field(b, 0, 0, 1) == b | 0x01,
        with_field(b, 0, 0, 0) == b & 0xfe,
        b == 0 ==> b | 0x80 == 0x80,
        b == 0x80 ==> b | 0x10 == 0x90 && b & 0xef == 0x80,
{
}

/// What the privilege field and the type field of a byte are.
pub proof fn lemma_fields(b: u8, v: u8)
    by (bit_vector)
    ensures
        field_of(b, 6, 5) == (b >> 5) & 3,
        with_field(b, 6, 5, v) == (b & 0x9f) | ((v & 3) << 5),
        field_of(b, 3, 0) == b & 0x0f,
        with_field(b, 3, 0, v) == (b & 0xf0) | (v & 0x0f),
        v < 16 ==> v & 0x0f == v,
        b == 0x80 && v < 16 ==> (b & 0xf0) | v == 0x80 + v,
{
}

} // verus!
