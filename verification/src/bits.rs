//! Single-bit arithmetic on register bytes.

use vstd::prelude::*;

verus! {

/// Whether bit `bit` of `byte` is set.
pub open spec fn bit_is_set(byte: u8, bit: u8) -> bool {
    byte & (1u8 << bit) != 0
}

/// `byte` with bit `bit` set (`on`) or cleared, every other bit as it was.
pub open spec fn with_bit(byte: u8, bit: u8, on: bool) -> u8 {
    if on {
        byte | (1u8 << bit)
    } else {
        byte & !(1u8 << bit)
    }
}

pub(crate) fn set_bit(byte: u8, bit: u8, on: bool) -> (r: u8)
    requires
        bit < 8,
    ensures
        r == with_bit(byte, bit, on),
{
    if on {
        byte | (1u8 << bit)
    } else {
        byte & !(1u8 << bit)
    }
}

pub(crate) fn test_bit(byte: u8, bit: u8) -> (r: bool)
    requires
        bit < 8,
    ensures
        r == bit_is_set(byte, bit),
{
    byte & (1u8 << bit) != 0
}

/// A bit reads back as it was last written.
pub proof fn lemma_bit_reads_back(byte: u8, bit: u8, on: bool)
    requires
        bit < 8,
    ensures
        bit_is_set(with_bit(byte, bit, on), bit) == on,
{
    assert((byte | (1u8 << bit)) & (1u8 << bit) != 0 && (byte & !(1u8 << bit)) & (1u8 << bit)
        == 0) by (bit_vector)
        requires
            bit < 8,
    ;
}

/// Writing one bit leaves the seven others alone.
pub proof fn lemma_bit_keeps_others(byte: u8, bit: u8, on: bool, other: u8)
    requires
        bit < 8,
        other < 8,
        other != bit,
    ensures
        bit_is_set(with_bit(byte, bit, on), other) == bit_is_set(byte, other),
{
    assert((byte | (1u8 << bit)) & (1u8 << other) == byte & (1u8 << other) && (byte & !(1u8
        << bit)) & (1u8 << other) == byte & (1u8 << other)) by (bit_vector)
        requires
            bit < 8,
            other < 8,
            other != bit,
    ;
}

/// Writing a bit the value it already has changes nothing.
pub proof fn lemma_bit_unchanged(byte: u8, bit: u8, on: bool)
    requires
        bit < 8,
        bit_is_set(byte, bit) == on,
    ensures
        with_bit(byte, bit, on) == byte,
{
    assert((byte & (1u8 << bit) != 0 ==> (byte | (1u8 << bit)) == byte) && (byte & (1u8 << bit)
        == 0 ==> (byte & !(1u8 << bit)) == byte)) by (bit_vector)
        requires
            bit < 8,
    ;
}

/// Of two writes to one bit only the second counts.
pub proof fn lemma_bit_overwrites(byte: u8, bit: u8, first: bool, second: bool)
    requires
        bit < 8,
    ensures
        with_bit(with_bit(byte, bit, first), bit, second) == with_bit(byte, bit, second),
{
    let m = 1u8 << bit;
    assert((byte | m) | m == byte | m && (byte & !m) | m == byte | m && (byte | m) & !m == byte
        & !m && (byte & !m) & !m == byte & !m) by (bit_vector);
}

} // verus!
