//! The unused bits of a bit string.
use crate::change_event::model::{BitOrder, BitPadding};
use vstd::prelude::*;

verus! {

/// How many bytes hold a number of bits.
pub open spec fn bytes_for(bit_length: int) -> int {
    (bit_length + 7) / 8
}

pub fn byte_count(bit_length: u64) -> (result: u64)
    ensures
        result as int == bytes_for(bit_length as int),
{
    if bit_length % 8 == 0 {
        bit_length / 8
    } else {
        bit_length / 8 + 1
    }
}

/// How many bits of the final byte carry nothing.
pub open spec fn unused_bits(bit_length: int) -> int {
    (8 - bit_length % 8) % 8
}

/// Two to a power up to eight.
pub open spec fn small_power(exponent: int) -> int {
    if exponent == 0 {
        1
    } else if exponent == 1 {
        2
    } else if exponent == 2 {
        4
    } else if exponent == 3 {
        8
    } else if exponent == 4 {
        16
    } else if exponent == 5 {
        32
    } else if exponent == 6 {
        64
    } else if exponent == 7 {
        128
    } else {
        256
    }
}

fn power(exponent: u64) -> (result: u16)
    ensures
        result as int == small_power(exponent as int),
{
    if exponent == 0 {
        1
    } else if exponent == 1 {
        2
    } else if exponent == 2 {
        4
    } else if exponent == 3 {
        8
    } else if exponent == 4 {
        16
    } else if exponent == 5 {
        32
    } else if exponent == 6 {
        64
    } else if exponent == 7 {
        128
    } else {
        256
    }
}

/// The unused bits of a final byte as a number: its low bits where bits are
/// read from the most significant on, and its high bits otherwise.
pub open spec fn padding_bits(byte: u8, unused: int, bit_order: BitOrder) -> int {
    match bit_order {
        BitOrder::MsbFirst => byte as int % small_power(unused),
        BitOrder::LsbFirst => byte as int / small_power(8 - unused),
    }
}

/// The unused bits that a padding calls for.
pub open spec fn padding_expected(unused: int, padding: BitPadding) -> int {
    if padding is One {
        small_power(unused) - 1
    } else {
        0
    }
}

/// Whether the unused bits of a final byte are as its padding says.
pub fn padding_fits(
    byte: u8,
    bit_length: u64,
    padding: BitPadding,
    bit_order: BitOrder,
) -> (result: bool)
    ensures
        result == (padding_bits(byte, unused_bits(bit_length as int), bit_order)
            == padding_expected(unused_bits(bit_length as int), padding)),
{
    let unused: u64 = (8 - bit_length % 8) % 8;
    let actual: u16 = match bit_order {
        BitOrder::MsbFirst => byte as u16 % power(unused),
        BitOrder::LsbFirst => byte as u16 / power(8 - unused),
    };
    let expected: u16 = match padding {
        BitPadding::One => power(unused) - 1,
        _ => 0,
    };
    actual == expected
}

} // verus!
