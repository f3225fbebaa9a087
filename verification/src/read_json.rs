//! JSON documents that are read.
use crate::change_event::model::{
    content_doc, json_entry_doc, json_value_doc, kind_members, JsonEntry, JsonValue,
};
use crate::json::{Contract, Doc};
use crate::number::{
    decimal, decimal_signed, decimal_text, decimal_text_signed, double_bytes, hex, spell_double,
};
use crate::order::{keyed_of, sort_by_key, sort_keyed, Keyed};
use crate::text::same;
use serde_json::Value as SerdeValue;
use vstd::prelude::*;

verus! {

/// A document as it was read. Numbers are whole numbers of either sign, or
/// doubles by their bits.
#[derive(Debug)]
pub enum Parsed {
    Null,
    Bool(bool),
    Negative(i64),
    Whole(u64),
    Double(u64),
    Text(String),
    Array(Vec<Parsed>),
    Object(Vec<ParsedMember>),
}

/// A member of an object.
#[derive(Debug)]
pub struct ParsedMember {
    pub key: String,
    pub value: Parsed,
}

/// What a document holds.
pub enum ReadDoc {
    Null,
    Bool(bool),
    Negative(i64),
    Whole(u64),
    Double(u64),
    Text(Seq<char>),
    Array(Seq<ReadDoc>),
    Object(Seq<(Seq<char>, ReadDoc)>),
}

/// What a document holds.
pub open spec fn read_doc(parsed: Parsed) -> ReadDoc
    decreases parsed,
{
    match parsed {
        Parsed::Null => ReadDoc::Null,
        Parsed::Bool(value) => ReadDoc::Bool(value),
        Parsed::Negative(value) => ReadDoc::Negative(value),
        Parsed::Whole(value) => ReadDoc::Whole(value),
        Parsed::Double(bits) => ReadDoc::Double(bits),
        Parsed::Text(text) => ReadDoc::Text(text@),
        Parsed::Array(items) => ReadDoc::Array(read_items(items@)),
        Parsed::Object(members) => ReadDoc::Object(read_members(members@)),
    }
}

pub open spec fn read_items(items: Seq<Parsed>) -> Seq<ReadDoc>
    decreases items,
{
    if items.len() == 0 {
        Seq::empty()
    } else {
        read_items(items.drop_last()).push(read_doc(items.last()))
    }
}

pub open spec fn read_members(members: Seq<ParsedMember>) -> Seq<(Seq<char>, ReadDoc)>
    decreases members,
{
    if members.len() == 0 {
        Seq::empty()
    } else {
        read_members(members.drop_last()).push(
            (members.last().key@, read_doc(members.last().value)),
        )
    }
}

/// The document that `serde_json` reads bytes as, or the text of its error.
pub uninterp spec fn json_read(bytes: Seq<u8>) -> Result<ReadDoc, Seq<char>>;

/// What reading has given.
pub open spec fn read_of(result: Result<Parsed, String>) -> Result<ReadDoc, Seq<char>> {
    match result {
        Ok(parsed) => Ok(read_doc(parsed)),
        Err(message) => Err(message@),
    }
}

/// The variants of `serde_json::Value` for the same document, one for one. A
/// number that `as_u64` takes is whole, another that `as_i64` takes is
/// negative, and any other is a double.
#[verifier::external_body]
fn parsed_value(value: SerdeValue) -> Parsed {
    match value {
        SerdeValue::Null => Parsed::Null,
        SerdeValue::Bool(value) => Parsed::Bool(value),
        SerdeValue::Number(n) => match (n.as_u64(), n.as_i64(), n.as_f64()) {
            (Some(whole), _, _) => Parsed::Whole(whole),
            (_, Some(negative), _) => Parsed::Negative(negative),
            (_, _, double) => Parsed::Double(double.unwrap_or_default().to_bits()),
        },
        SerdeValue::String(text) => Parsed::Text(text),
        SerdeValue::Array(items) => Parsed::Array(items.into_iter().map(parsed_value).collect()),
        SerdeValue::Object(members) => Parsed::Object(
            members.into_iter().map(|(key, v)| ParsedMember { key, value: parsed_value(v) }).collect()),
    }
}

/// `serde_json::from_slice` into a document: the document, or the text of the
/// error, is a function of the bytes. What text stands for what document is not
/// stated.
#[verifier::external_body]
pub(crate) fn read_json(bytes: &Vec<u8>) -> (result: Result<Parsed, String>)
    ensures
        read_of(result) == json_read(bytes@),
{
    match serde_json::from_slice::<serde_json::Value>(bytes) {
        Ok(value) => Ok(parsed_value(value)),
        Err(error) => Err(error.to_string()),
    }
}

// ---------------------------------------------------------------------------
// Members
// ---------------------------------------------------------------------------

/// The member of an object with this key.
pub open spec fn member_of(members: Seq<(Seq<char>, ReadDoc)>, key: Seq<char>) -> Option<ReadDoc>
    decreases members.len(),
{
    if members.len() == 0 {
        None
    } else if members.last().0 == key {
        Some(members.last().1)
    } else {
        member_of(members.drop_last(), key)
    }
}

/// A member of a document; only an object has members.
pub open spec fn lookup_member(document: ReadDoc, key: Seq<char>) -> Option<ReadDoc> {
    match document {
        ReadDoc::Object(members) => member_of(members, key),
        _ => None,
    }
}

/// What a member holds.
pub open spec fn found_doc(found: Option<&Parsed>) -> Option<ReadDoc> {
    match found {
        Some(parsed) => Some(read_doc(*parsed)),
        None => None,
    }
}

impl Parsed {
    /// The member with a key.
    pub fn member(&self, key: &str) -> (result: Option<&Parsed>)
        ensures
            found_doc(result) == lookup_member(read_doc(*self), key@),
    {
        match self {
            Parsed::Object(members) => {
                let mut at: usize = members.len();
                assert(members@.take(at as int) =~= members@);
                while at > 0
                    invariant
                        at <= members@.len(),
                        *self == Parsed::Object(*members),
                        member_of(read_members(members@), key@) == member_of(
                            read_members(members@.take(at as int)),
                            key@,
                        ),
                    decreases at,
                {
                    let ghost shorter = members@.take(at as int);
                    assert(shorter.last() == members@[at - 1]);
                    assert(shorter.drop_last() =~= members@.take(at - 1));
                    proof {
                        assert(read_members(shorter).drop_last() =~= read_members(
                            shorter.drop_last(),
                        ));
                    }
                    if same(members[at - 1].key.as_str(), key) {
                        return Some(&members[at - 1].value);
                    }
                    at -= 1;
                }
                None
            },
            _ => None,
        }
    }

    /// The text, where the document is one.
    pub fn as_text(&self) -> (result: Option<&str>)
        ensures
            match result {
                Some(text) => read_doc(*self) == ReadDoc::Text(text@),
                None => !(read_doc(*self) is Text),
            },
    {
        match self {
            Parsed::Text(text) => Some(text.as_str()),
            _ => None,
        }
    }

    /// The whole number, where the document is one.
    pub fn as_whole(&self) -> (result: Option<u64>)
        ensures
            match result {
                Some(number) => read_doc(*self) == ReadDoc::Whole(number),
                None => !(read_doc(*self) is Whole),
            },
    {
        match self {
            Parsed::Whole(number) => Some(*number),
            _ => None,
        }
    }
}

// ---------------------------------------------------------------------------
// Column values
// ---------------------------------------------------------------------------

/// The form of the column value that a document is read as. A whole number that
/// a signed word can hold is signed; members stand in the order of their keys.
pub open spec fn column_doc(document: ReadDoc) -> Doc
    decreases document,
{
    match document {
        ReadDoc::Null => Doc::Obj(kind_members("null"@)),
        ReadDoc::Bool(value) => content_doc("boolean"@, Doc::Bool(value)),
        ReadDoc::Negative(value) => content_doc(
            "signed_integer"@,
            Doc::Str(decimal_signed(value as int)),
        ),
        ReadDoc::Whole(value) => if value <= i64::MAX {
            content_doc("signed_integer"@, Doc::Str(decimal_signed(value as int)))
        } else {
            content_doc("unsigned_integer"@, Doc::Str(decimal(value as nat)))
        },
        ReadDoc::Double(bits) => content_doc("double_bits"@, Doc::Str(hex(double_bytes(bits)))),
        ReadDoc::Text(text) => content_doc("string"@, Doc::Str(text)),
        ReadDoc::Array(items) => content_doc("array"@, Doc::Arr(item_docs(items))),
        ReadDoc::Object(members) => content_doc(
            "object"@,
            Doc::Arr(entry_docs(sort_by_key(member_docs(members)))),
        ),
    }
}

pub open spec fn item_docs(items: Seq<ReadDoc>) -> Seq<Doc>
    decreases items,
{
    if items.len() == 0 {
        Seq::empty()
    } else {
        item_docs(items.drop_last()).push(column_doc(items.last()))
    }
}

pub open spec fn member_docs(members: Seq<(Seq<char>, ReadDoc)>) -> Seq<(Seq<char>, Doc)>
    decreases members,
{
    if members.len() == 0 {
        Seq::empty()
    } else {
        member_docs(members.drop_last()).push((members.last().0, column_doc(members.last().1)))
    }
}

pub open spec fn entry_docs(members: Seq<(Seq<char>, Doc)>) -> Seq<Doc> {
    Seq::new(members.len(), |i: int| json_entry_doc(members[i].0, members[i].1))
}

/// A column value that is being sorted.
struct Ready {
    value: JsonValue,
}

impl View for Ready {
    type V = Doc;

    closed spec fn view(&self) -> Doc {
        json_value_doc(self.value)
    }
}

fn column_items(items: &Vec<Parsed>) -> (result: Vec<JsonValue>)
    ensures
        (JsonValue::Array(result)).doc() == content_doc(
            "array"@,
            Doc::Arr(item_docs(read_items(items@))),
        ),
    decreases items@,
{
    let mut values: Vec<JsonValue> = Vec::new();
    let mut i: usize = 0;
    assert(items@.take(0) =~= Seq::empty());
    while i < items.len()
        invariant
            i <= items@.len(),
            values@.len() == i,
            item_docs(read_items(items@.take(i as int))).len() == i,
            forall|k: int|
                0 <= k < i ==> json_value_doc(#[trigger] values@[k]) == item_docs(
                    read_items(items@.take(i as int)),
                )[k],
        decreases items@.len() - i,
    {
        let ghost longer = items@.take(i + 1);
        assert(longer.drop_last() =~= items@.take(i as int));
        assert(longer.last() == items@[i as int]);
        assert(read_items(longer).drop_last() =~= read_items(longer.drop_last()));
        values.push(column_value(&items[i]));
        i += 1;
    }
    assert(items@.take(i as int) =~= items@);
    assert(json_value_doc(JsonValue::Array(values))->Obj_0[1].1->Arr_0 =~= item_docs(
        read_items(items@),
    ));
    values
}

fn column_members(members: &Vec<ParsedMember>) -> (result: Vec<JsonEntry>)
    ensures
        (JsonValue::Object(result)).doc() == content_doc(
            "object"@,
            Doc::Arr(entry_docs(sort_by_key(member_docs(read_members(members@))))),
        ),
    decreases members@,
{
    let mut keyed: Vec<Keyed<Ready>> = Vec::new();
    let mut i: usize = 0;
    assert(members@.take(0) =~= Seq::empty());
    assert(keyed_of(keyed@) =~= Seq::empty());
    while i < members.len()
        invariant
            i <= members@.len(),
            keyed_of(keyed@) == member_docs(read_members(members@.take(i as int))),
        decreases members@.len() - i,
    {
        let ghost longer = members@.take(i + 1);
        assert(longer.drop_last() =~= members@.take(i as int));
        assert(longer.last() == members@[i as int]);
        assert(read_members(longer).drop_last() =~= read_members(longer.drop_last()));
        let ghost before = keyed_of(keyed@);
        let value = column_value(&members[i].value);
        let ghost own = (members@[i as int].key@, json_value_doc(value));
        keyed.push(Keyed { key: members[i].key.clone(), item: Ready { value } });
        assert(keyed_of(keyed@) =~= before.push(own));
        i += 1;
    }
    assert(members@.take(i as int) =~= members@);
    let sorted = sort_keyed(keyed);
    let ghost all = keyed_of(sorted@);
    let mut entries: Vec<JsonEntry> = Vec::new();
    for next in iter: sorted
        invariant
            keyed_of(iter.seq()) == all,
            entries@.len() == iter.index(),
            forall|k: int|
                0 <= k < entries@.len() ==> (#[trigger] entries@[k]).key@ == all[k].0
                    && json_value_doc(entries@[k].value) == all[k].1,
    {
        assert(keyed_of(iter.seq())[iter.index() as int] == all[iter.index() as int]);
        entries.push(JsonEntry { key: next.key, value: next.item.value });
    }
    assert(json_value_doc(JsonValue::Object(entries))->Obj_0[1].1->Arr_0 =~= entry_docs(all));
    entries
}

/// The column value that a document is read as.
pub(crate) fn column_value(parsed: &Parsed) -> (result: JsonValue)
    ensures
        result.doc() == column_doc(read_doc(*parsed)),
    decreases parsed,
{
    match parsed {
        Parsed::Null => JsonValue::Null,
        Parsed::Bool(value) => JsonValue::Boolean(*value),
        Parsed::Negative(value) => JsonValue::SignedInteger(decimal_text_signed(*value as i128)),
        Parsed::Whole(value) => if *value <= 9_223_372_036_854_775_807 {
            JsonValue::SignedInteger(decimal_text_signed(*value as i128))
        } else {
            JsonValue::UnsignedInteger(decimal_text(*value as u128))
        },
        Parsed::Double(bits) => JsonValue::DoubleBits(spell_double(*bits)),
        Parsed::Text(text) => JsonValue::String(text.clone()),
        Parsed::Array(items) => JsonValue::Array(column_items(items)),
        Parsed::Object(members) => JsonValue::Object(column_members(members)),
    }
}

} // verus!
