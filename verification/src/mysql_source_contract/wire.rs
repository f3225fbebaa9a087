//! Values on the MySQL wire.
use vstd::prelude::*;

verus! {

/// A value as the driver holds it: a parameter of a statement, or what a row
/// carries. Floating-point numbers are given by their bits.
#[derive(Debug)]
pub enum SqlValue {
    Null,
    Bytes(Vec<u8>),
    Int(i64),
    UInt(u64),
    Float(u32),
    Double(u64),
    /// Year, month, day, hour, minute, second, microsecond.
    Date(u16, u8, u8, u8, u8, u8, u32),
    /// Negative, days, hours, minutes, seconds, microseconds.
    Time(bool, u32, u8, u8, u8, u32),
}

/// What such a value holds.
pub enum Bound {
    Null,
    Bytes(Seq<u8>),
    Int(i64),
    UInt(u64),
    Float(u32),
    Double(u64),
    Date(u16, u8, u8, u8, u8, u8, u32),
    Time(bool, u32, u8, u8, u8, u32),
}

impl View for SqlValue {
    type V = Bound;

    open spec fn view(&self) -> Bound {
        match *self {
            SqlValue::Null => Bound::Null,
            SqlValue::Bytes(bytes) => Bound::Bytes(bytes@),
            SqlValue::Int(value) => Bound::Int(value),
            SqlValue::UInt(value) => Bound::UInt(value),
            SqlValue::Float(bits) => Bound::Float(bits),
            SqlValue::Double(bits) => Bound::Double(bits),
            SqlValue::Date(a, b, c, d, e, f, g) => Bound::Date(a, b, c, d, e, f, g),
            SqlValue::Time(a, b, c, d, e, f) => Bound::Time(a, b, c, d, e, f),
        }
    }
}

pub(crate) fn copy_bytes(bytes: &Vec<u8>) -> (result: Vec<u8>)
    ensures
        result@ == bytes@,
{
    let mut copy: Vec<u8> = Vec::new();
    let mut i: usize = 0;
    while i < bytes.len()
        invariant
            i <= bytes@.len(),
            copy@ == bytes@.take(i as int),
        decreases bytes@.len() - i,
    {
        copy.push(bytes[i]);
        assert(copy@ =~= bytes@.take(i + 1));
        i += 1;
    }
    assert(copy@ =~= bytes@);
    copy
}

impl Clone for SqlValue {
    fn clone(&self) -> (result: Self)
        ensures
            result@ == self@,
    {
        match self {
            SqlValue::Null => SqlValue::Null,
            SqlValue::Bytes(bytes) => SqlValue::Bytes(copy_bytes(bytes)),
            SqlValue::Int(value) => SqlValue::Int(*value),
            SqlValue::UInt(value) => SqlValue::UInt(*value),
            SqlValue::Float(bits) => SqlValue::Float(*bits),
            SqlValue::Double(bits) => SqlValue::Double(*bits),
            SqlValue::Date(a, b, c, d, e, f, g) => SqlValue::Date(*a, *b, *c, *d, *e, *f, *g),
            SqlValue::Time(a, b, c, d, e, f) => SqlValue::Time(*a, *b, *c, *d, *e, *f),
        }
    }
}

} // verus!
