//! The header of a spatial value in its wire format.
use vstd::prelude::*;

verus! {

/// The four bytes at `at` as an unsigned number.
pub open spec fn wire_u32(bytes: Seq<u8>, at: int, little_endian: bool) -> int {
    if little_endian {
        bytes[at] + 0x100 * bytes[at + 1] + 0x1_0000 * bytes[at + 2] + 0x100_0000 * bytes[at + 3]
    } else {
        bytes[at + 3] + 0x100 * bytes[at + 2] + 0x1_0000 * bytes[at + 1] + 0x100_0000 * bytes[at]
    }
}

pub fn read_u32(bytes: &Vec<u8>, at: usize, little_endian: bool) -> (result: u32)
    requires
        at + 4 <= bytes@.len(),
    ensures
        result as int == wire_u32(bytes@, at as int, little_endian),
{
    assert(at + 4 <= usize::MAX) by {
        assert(bytes.len() == bytes@.len());
    }
    let a: u32 = bytes[at] as u32;
    let b: u32 = bytes[at + 1] as u32;
    let c: u32 = bytes[at + 2] as u32;
    let d: u32 = bytes[at + 3] as u32;
    if little_endian {
        a + 0x100 * b + 0x1_0000 * c + 0x100_0000 * d
    } else {
        d + 0x100 * c + 0x1_0000 * b + 0x100_0000 * a
    }
}

/// A 32-bit pattern as a signed number.
pub open spec fn signed_32(value: int) -> int {
    if value >= 0x8000_0000 {
        value - 0x1_0000_0000
    } else {
        value
    }
}

pub fn to_signed_32(value: u32) -> (result: i32)
    ensures
        result as int == signed_32(value as int),
{
    if value >= 0x8000_0000 {
        (value as i64 - 0x1_0000_0000) as i32
    } else {
        value as i32
    }
}

/// Whether the code says that an SRID follows.
pub open spec fn code_has_srid(code: int) -> bool {
    (code / 0x2000_0000) % 2 == 1
}

pub fn has_srid(code: u32) -> (result: bool)
    ensures
        result == code_has_srid(code as int),
{
    (code / 0x2000_0000) % 2 == 1
}

/// The geometry number of a code: without its flags, and without the
/// thousands, which stand for dimensions.
pub open spec fn code_geometry(code: int) -> int {
    (code % 0x1000_0000) % 1000
}

/// How many dimensions a code declares; 0 where it declares them wrongly.
pub open spec fn code_dimensions(code: int) -> int {
    let thousands = (code % 0x1000_0000) / 1000;
    if thousands == 0 {
        2 + (code / 0x8000_0000) % 2 + (code / 0x4000_0000) % 2
    } else if thousands == 1 || thousands == 2 {
        3
    } else if thousands == 3 {
        4
    } else {
        0
    }
}

pub fn dimensions_of(code: u32) -> (result: u8)
    ensures
        result as int == code_dimensions(code as int),
{
    let thousands: u32 = (code % 0x1000_0000) / 1000;
    if thousands == 0 {
        2 + ((code / 0x8000_0000) % 2) as u8 + ((code / 0x4000_0000) % 2) as u8
    } else if thousands == 1 || thousands == 2 {
        3
    } else if thousands == 3 {
        4
    } else {
        0
    }
}

/// The name of a geometry number.
pub open spec fn geometry_name(geometry: int) -> Option<Seq<char>> {
    if geometry == 1 {
        Some("point"@)
    } else if geometry == 2 {
        Some("linestring"@)
    } else if geometry == 3 {
        Some("polygon"@)
    } else if geometry == 4 {
        Some("multipoint"@)
    } else if geometry == 5 {
        Some("multilinestring"@)
    } else if geometry == 6 {
        Some("multipolygon"@)
    } else if geometry == 7 {
        Some("geometrycollection"@)
    } else {
        None
    }
}

pub fn geometry_of(code: u32) -> (result: Option<&'static str>)
    ensures
        match result {
            Some(name) => geometry_name(code_geometry(code as int)) == Some(name@),
            None => geometry_name(code_geometry(code as int)) is None,
        },
{
    let geometry: u32 = (code % 0x1000_0000) % 1000;
    if geometry == 1 {
        Some("point")
    } else if geometry == 2 {
        Some("linestring")
    } else if geometry == 3 {
        Some("polygon")
    } else if geometry == 4 {
        Some("multipoint")
    } else if geometry == 5 {
        Some("multilinestring")
    } else if geometry == 6 {
        Some("multipolygon")
    } else if geometry == 7 {
        Some("geometrycollection")
    } else {
        None
    }
}

proof fn lemma_lowest_byte(byte: int, rest: int)
    requires
        0 <= byte < 0x100,
    ensures
        (byte + 0x100 * rest) % 0x100 == byte,
        (byte + 0x100 * rest) / 0x100 == rest,
{
}

proof fn lemma_bytes(a: int, b: int, c: int, d: int)
    requires
        0 <= a < 0x100 && 0 <= b < 0x100 && 0 <= c < 0x100 && 0 <= d < 0x100,
    ensures
        ({
            let number = a + 0x100 * b + 0x1_0000 * c + 0x100_0000 * d;
            &&& number % 0x100 == a
            &&& number / 0x100 % 0x100 == b
            &&& number / 0x100 / 0x100 % 0x100 == c
            &&& number / 0x100 / 0x100 / 0x100 == d
        }),
{
    lemma_lowest_byte(a, b + 0x100 * (c + 0x100 * d));
    lemma_lowest_byte(b, c + 0x100 * d);
    lemma_lowest_byte(c, d);
    let number = a + 0x100 * b + 0x1_0000 * c + 0x100_0000 * d;
    assert(number == a + 0x100 * (b + 0x100 * (c + 0x100 * d)));
}

/// Each byte of a number on the wire is the part of the number at its place: from
/// the lowest place on where the low bytes come first, else from the highest.
pub proof fn law_a_wire_number_has_its_bytes(bytes: Seq<u8>, at: int)
    requires
        0 <= at <= bytes.len() - 4,
    ensures
        ({
            let low_first = wire_u32(bytes, at, true);
            let high_first = wire_u32(bytes, at, false);
            &&& low_first % 0x100 == bytes[at]
            &&& low_first / 0x100 % 0x100 == bytes[at + 1]
            &&& low_first / 0x100 / 0x100 % 0x100 == bytes[at + 2]
            &&& low_first / 0x100 / 0x100 / 0x100 == bytes[at + 3]
            &&& high_first % 0x100 == bytes[at + 3]
            &&& high_first / 0x100 % 0x100 == bytes[at + 2]
            &&& high_first / 0x100 / 0x100 % 0x100 == bytes[at + 1]
            &&& high_first / 0x100 / 0x100 / 0x100 == bytes[at]
        }),
{
    lemma_bytes(
        bytes[at] as int,
        bytes[at + 1] as int,
        bytes[at + 2] as int,
        bytes[at + 3] as int,
    );
    lemma_bytes(
        bytes[at + 3] as int,
        bytes[at + 2] as int,
        bytes[at + 1] as int,
        bytes[at] as int,
    );
}

/// A signed number of 32 bits has the bits of the unsigned one.
pub proof fn law_a_signed_number_keeps_its_bits(value: int)
    requires
        0 <= value < 0x1_0000_0000,
    ensures
        -0x8000_0000 <= signed_32(value) < 0x8000_0000,
        signed_32(value) % 0x1_0000_0000 == value,
{
}

} // verus!
