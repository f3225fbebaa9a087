//! JSON documents in row images.
use crate::change_event::model::{JsonEntry, JsonValue};
use crate::mysql_5_7::error::{other, CaptureError, CaptureFault};
use crate::mysql_5_7::value::{
    decimal_fault, decimal_parts, parse_decimal, unscaled_text,
};
use crate::number::{
    decimal, decimal_signed, decimal_text, decimal_text_signed, double_bytes, hex, spell_double,
};
use vstd::prelude::*;

verus! {

/// A member of an object.
#[derive(Debug)]
pub struct WireMember {
    pub key: String,
    pub value: WireJson,
}

/// A JSON document as a row image holds it.
#[derive(Debug)]
pub enum WireJson {
    Null,
    Boolean(bool),
    String(String),
    Int(i64),
    Uint(u64),
    /// The text of a decimal number.
    Decimal(String),
    /// The bits of a double.
    Double(u64),
    Array(Vec<WireJson>),
    Object(Vec<WireMember>),
    /// A temporal or opaque scalar.
    Other,
}

/// What is wrong with a document.
pub open spec fn json_fault(wire: WireJson) -> Option<CaptureFault>
    decreases wire,
{
    match wire {
        WireJson::Decimal(text) => decimal_fault(text@),
        WireJson::Array(items) => items_fault(items@),
        WireJson::Object(members) => members_fault(members@),
        WireJson::Other => Some(
            other(
                "JSON temporal/opaque scalar is unsupported; refusing lossy string conversion"@,
            ),
        ),
        _ => None,
    }
}

/// What is first wrong with the items of an array.
pub open spec fn items_fault(items: Seq<WireJson>) -> Option<CaptureFault>
    decreases items,
{
    if items.len() == 0 {
        None
    } else {
        match items_fault(items.drop_last()) {
            Some(fault) => Some(fault),
            None => json_fault(items.last()),
        }
    }
}

/// What is first wrong with the members of an object.
pub open spec fn members_fault(members: Seq<WireMember>) -> Option<CaptureFault>
    decreases members,
{
    if members.len() == 0 {
        None
    } else {
        match members_fault(members.drop_last()) {
            Some(fault) => Some(fault),
            None => json_fault(members.last().value),
        }
    }
}

/// The value is what a document is converted to.
pub open spec fn converted(value: JsonValue, wire: WireJson) -> bool
    decreases wire,
{
    match (wire, value) {
        (WireJson::Null, JsonValue::Null) => true,
        (WireJson::Boolean(a), JsonValue::Boolean(b)) => a == b,
        (WireJson::String(a), JsonValue::String(b)) => a@ == b@,
        (WireJson::Int(number), JsonValue::SignedInteger(text)) => text@ == decimal_signed(
            number as int,
        ),
        (WireJson::Uint(number), JsonValue::UnsignedInteger(text)) => text@ == decimal(
            number as nat,
        ),
        (WireJson::Decimal(text), JsonValue::Decimal { unscaled, scale }) => unscaled@
            == unscaled_text(text@) && scale == decimal_parts(text@).1.len(),
        (WireJson::Double(bits), JsonValue::DoubleBits(text)) => text@ == hex(double_bytes(bits)),
        (WireJson::Array(items), JsonValue::Array(values)) => converted_items(values@, items@),
        (WireJson::Object(members), JsonValue::Object(entries)) => converted_members(
            entries@,
            members@,
        ),
        _ => false,
    }
}

pub open spec fn converted_items(values: Seq<JsonValue>, items: Seq<WireJson>) -> bool
    decreases items,
{
    &&& values.len() == items.len()
    &&& items.len() > 0 ==> converted_items(values.drop_last(), items.drop_last()) && converted(
        values.last(),
        items.last(),
    )
}

pub open spec fn converted_members(entries: Seq<JsonEntry>, members: Seq<WireMember>) -> bool
    decreases members,
{
    &&& entries.len() == members.len()
    &&& members.len() > 0 ==> converted_members(entries.drop_last(), members.drop_last())
        && entries.last().key@ == members.last().key@ && converted(
        entries.last().value,
        members.last().value,
    )
}

proof fn lemma_items_fault(items: Seq<WireJson>, n: int)
    requires
        0 <= n <= items.len(),
        items_fault(items.take(n)) is Some,
    ensures
        items_fault(items) == items_fault(items.take(n)),
    decreases items.len() - n,
{
    if n < items.len() {
        assert(items.take(n + 1).drop_last() =~= items.take(n));
        lemma_items_fault(items, n + 1);
    } else {
        assert(items.take(n) =~= items);
    }
}

proof fn lemma_members_fault(members: Seq<WireMember>, n: int)
    requires
        0 <= n <= members.len(),
        members_fault(members.take(n)) is Some,
    ensures
        members_fault(members) == members_fault(members.take(n)),
    decreases members.len() - n,
{
    if n < members.len() {
        assert(members.take(n + 1).drop_last() =~= members.take(n));
        lemma_members_fault(members, n + 1);
    } else {
        assert(members.take(n) =~= members);
    }
}

fn convert_items(items: &Vec<WireJson>) -> (result: Result<Vec<JsonValue>, CaptureError>)
    ensures
        match result {
            Ok(values) => items_fault(items@) is None && converted_items(values@, items@),
            Err(error) => items_fault(items@) == Some(error.fault()),
        },
    decreases items@,
{
    let mut values: Vec<JsonValue> = Vec::new();
    let mut i: usize = 0;
    assert(items@.take(0) =~= Seq::empty());
    while i < items.len()
        invariant
            i <= items@.len(),
            items_fault(items@.take(i as int)) is None,
            converted_items(values@, items@.take(i as int)),
        decreases items@.len() - i,
    {
        assert(items@.take(i + 1).drop_last() =~= items@.take(i as int));
        assert(items@.take(i + 1).last() == items@[i as int]);
        match convert_json_dom(&items[i]) {
            Ok(value) => {
                let ghost before = values@;
                values.push(value);
                assert(values@.drop_last() =~= before);
            },
            Err(error) => {
                proof {
                    lemma_items_fault(items@, i + 1);
                }
                return Err(error);
            },
        }
        i += 1;
    }
    assert(items@.take(i as int) =~= items@);
    Ok(values)
}

fn convert_members(members: &Vec<WireMember>) -> (result: Result<Vec<JsonEntry>, CaptureError>)
    ensures
        match result {
            Ok(entries) => members_fault(members@) is None && converted_members(entries@, members@),
            Err(error) => members_fault(members@) == Some(error.fault()),
        },
    decreases members@,
{
    let mut entries: Vec<JsonEntry> = Vec::new();
    let mut i: usize = 0;
    assert(members@.take(0) =~= Seq::empty());
    while i < members.len()
        invariant
            i <= members@.len(),
            members_fault(members@.take(i as int)) is None,
            converted_members(entries@, members@.take(i as int)),
        decreases members@.len() - i,
    {
        assert(members@.take(i + 1).drop_last() =~= members@.take(i as int));
        assert(members@.take(i + 1).last() == members@[i as int]);
        match convert_json_dom(&members[i].value) {
            Ok(value) => {
                let ghost before = entries@;
                entries.push(JsonEntry { key: members[i].key.clone(), value });
                assert(entries@.drop_last() =~= before);
            },
            Err(error) => {
                proof {
                    lemma_members_fault(members@, i + 1);
                }
                return Err(error);
            },
        }
        i += 1;
    }
    assert(members@.take(i as int) =~= members@);
    Ok(entries)
}

/// Converts a document. Scalars that are not JSON stay blocked.
pub(crate) fn convert_json_dom(wire: &WireJson) -> (result: Result<JsonValue, CaptureError>)
    ensures
        match result {
            Ok(value) => json_fault(*wire) is None && converted(value, *wire),
            Err(error) => json_fault(*wire) == Some(error.fault()),
        },
    decreases wire,
{
    match wire {
        WireJson::Null => Ok(JsonValue::Null),
        WireJson::Boolean(value) => Ok(JsonValue::Boolean(*value)),
        WireJson::String(text) => Ok(JsonValue::String(text.clone())),
        WireJson::Int(number) => Ok(JsonValue::SignedInteger(decimal_text_signed(*number as i128))),
        WireJson::Uint(number) => Ok(JsonValue::UnsignedInteger(decimal_text(*number as u128))),
        WireJson::Decimal(text) => match parse_decimal(text.as_str()) {
            Ok((unscaled, scale)) => Ok(JsonValue::Decimal { unscaled, scale }),
            Err(error) => Err(error),
        },
        WireJson::Double(bits) => Ok(JsonValue::DoubleBits(spell_double(*bits))),
        WireJson::Array(items) => match convert_items(items) {
            Ok(values) => Ok(JsonValue::Array(values)),
            Err(error) => Err(error),
        },
        WireJson::Object(members) => match convert_members(members) {
            Ok(entries) => Ok(JsonValue::Object(entries)),
            Err(error) => Err(error),
        },
        WireJson::Other => Err(
            CaptureError::other(
                "JSON temporal/opaque scalar is unsupported; refusing lossy string conversion",
            ),
        ),
    }
}

} // verus!
