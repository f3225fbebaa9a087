//! The small, vendor-neutral in-memory model. JSON is its diagnostic encoding.
use crate::encoding::{base64url_decode, base64url_decoded, digest_spelling};
use crate::json::{
    array, digest, digest_json, docs, docs_of, json_array, stable_digest, text_array, texts_doc,
    optional_text_doc, with_present, with_present_text, Contract, Doc, Fields, Json,
};
use crate::json::{duplicate_list, duplicate_texts};
use crate::order::{
    distinct_keys, keyed_of, law_sort_ignores_order, second, sort_by_key, sort_documents, Keyed,
};
use crate::text::{concat, contains_char, trim, trimmed};
use vstd::prelude::*;

verus! {

pub const FORMAT: &'static str = "cdc.change-event-json.v0.3";

pub const PREVIOUS_FORMAT: &'static str = "cdc.change-event-json.v0.2";

pub const LEGACY_FORMAT: &'static str = "cdc.change-event-json.v0.1";

pub const HISTORICAL_FORMAT: &'static str = "cdc.change-event-json.v0";

pub const LOGICAL_CONTRACT_FORMAT: &'static str = "cdc.logical-value.v0.3";

/// A position in a source, opaque but for its format.
#[derive(Debug, PartialEq)]
pub struct SourceCursor {
    pub format: String,
    pub value: String,
    pub display: String,
}

impl Contract for SourceCursor {
    open spec fn doc(&self) -> Doc {
        let members = Seq::<(Seq<char>, Doc)>::empty();
        let members = members.push(("format"@, Doc::Str(self.format@)));
        let members = members.push(("value"@, Doc::Str(self.value@)));
        let members = members.push(("display"@, Doc::Str(self.display@)));
        Doc::Obj(members)
    }

    fn to_json(&self) -> (result: Json) {
        let mut fields = Fields::new();
        fields.put_text("format", self.format.as_str());
        fields.put_text("value", self.value.as_str());
        fields.put_text("display", self.display.as_str());
        fields.finish()
    }

    fn duplicate(&self) -> (result: Self) {
        SourceCursor {
            format: self.format.clone(),
            value: self.value.clone(),
            display: self.display.clone(),
        }
    }
}

impl Clone for SourceCursor {
    fn clone(&self) -> (result: Self)
        ensures
            result.doc() == self.doc(),
    {
        self.duplicate()
    }
}

/// The identity of a source.
#[derive(Debug, PartialEq)]
pub struct Source {
    pub kind: String,
    pub version: String,
    /// Vendor-specific source identity.
    pub id: String,
}

impl Contract for Source {
    open spec fn doc(&self) -> Doc {
        let members = Seq::<(Seq<char>, Doc)>::empty();
        let members = members.push(("kind"@, Doc::Str(self.kind@)));
        let members = members.push(("version"@, Doc::Str(self.version@)));
        let members = members.push(("id"@, Doc::Str(self.id@)));
        Doc::Obj(members)
    }

    fn to_json(&self) -> (result: Json) {
        let mut fields = Fields::new();
        fields.put_text("kind", self.kind.as_str());
        fields.put_text("version", self.version.as_str());
        fields.put_text("id", self.id.as_str());
        fields.finish()
    }

    fn duplicate(&self) -> (result: Self) {
        Source {
            kind: self.kind.clone(),
            version: self.version.clone(),
            id: self.id.clone(),
        }
    }
}

impl Clone for Source {
    fn clone(&self) -> (result: Self)
        ensures
            result.doc() == self.doc(),
    {
        self.duplicate()
    }
}

/// What happened to a row.
#[derive(Debug, Clone, Copy, PartialEq, Eq, Hash, Structural)]
pub enum Operation {
    Insert,
    Update,
    Delete,
}

impl Operation {
    /// The name that the value is written as.
    pub open spec fn label_spec(self) -> Seq<char> {
        match self {
            Operation::Insert => "insert"@,
            Operation::Update => "update"@,
            Operation::Delete => "delete"@,
        }
    }

    pub fn label(self) -> (result: &'static str)
        ensures
            result@ == self.label_spec(),
    {
        match self {
            Operation::Insert => "insert",
            Operation::Update => "update",
            Operation::Delete => "delete",
        }
    }
}

impl Contract for Operation {
    open spec fn doc(&self) -> Doc {
        Doc::Str(self.label_spec())
    }

    fn to_json(&self) -> (result: Json) {
        Json::Text(self.label().to_owned())
    }

    fn duplicate(&self) -> (result: Self) {
        *self
    }
}

/// How meaningful bits are read.
#[derive(Debug, Clone, Copy, PartialEq, Eq, Hash, Structural)]
pub enum BitOrder {
    MsbFirst,
    LsbFirst,
}

impl BitOrder {
    /// The name that the value is written as.
    pub open spec fn label_spec(self) -> Seq<char> {
        match self {
            BitOrder::MsbFirst => "msb_first"@,
            BitOrder::LsbFirst => "lsb_first"@,
        }
    }

    pub fn label(self) -> (result: &'static str)
        ensures
            result@ == self.label_spec(),
    {
        match self {
            BitOrder::MsbFirst => "msb_first",
            BitOrder::LsbFirst => "lsb_first",
        }
    }
}

impl Contract for BitOrder {
    open spec fn doc(&self) -> Doc {
        Doc::Str(self.label_spec())
    }

    fn to_json(&self) -> (result: Json) {
        Json::Text(self.label().to_owned())
    }

    fn duplicate(&self) -> (result: Self) {
        *self
    }
}

/// What the unused bits of a final byte hold.
#[derive(Debug, Clone, Copy, PartialEq, Eq, Hash, Structural)]
pub enum BitPadding {
    NoPadding,
    Zero,
    One,
}

impl BitPadding {
    /// The name that the value is written as.
    pub open spec fn label_spec(self) -> Seq<char> {
        match self {
            BitPadding::NoPadding => "none"@,
            BitPadding::Zero => "zero"@,
            BitPadding::One => "one"@,
        }
    }

    pub fn label(self) -> (result: &'static str)
        ensures
            result@ == self.label_spec(),
    {
        match self {
            BitPadding::NoPadding => "none",
            BitPadding::Zero => "zero",
            BitPadding::One => "one",
        }
    }
}

impl Contract for BitPadding {
    open spec fn doc(&self) -> Doc {
        Doc::Str(self.label_spec())
    }

    fn to_json(&self) -> (result: Json) {
        Json::Text(self.label().to_owned())
    }

    fn duplicate(&self) -> (result: Self) {
        *self
    }
}

/// The wire format of a spatial value.
#[derive(Debug, Clone, Copy, PartialEq, Eq, Hash, Structural)]
pub enum SpatialFormat {
    Wkb,
    Ewkb,
}

impl SpatialFormat {
    /// The name that the value is written as.
    pub open spec fn label_spec(self) -> Seq<char> {
        match self {
            SpatialFormat::Wkb => "wkb"@,
            SpatialFormat::Ewkb => "ewkb"@,
        }
    }

    pub fn label(self) -> (result: &'static str)
        ensures
            result@ == self.label_spec(),
    {
        match self {
            SpatialFormat::Wkb => "wkb",
            SpatialFormat::Ewkb => "ewkb",
        }
    }
}

impl Contract for SpatialFormat {
    open spec fn doc(&self) -> Doc {
        Doc::Str(self.label_spec())
    }

    fn to_json(&self) -> (result: Json) {
        Json::Text(self.label().to_owned())
    }

    fn duplicate(&self) -> (result: Self) {
        *self
    }
}

/// Evidence-backed carrier for a source value that has no portable logical
/// representation yet. The byte payload is base64url so the JSON contract is
/// lossless and does not depend on a text encoding.
#[derive(Debug, PartialEq, Eq, Hash)]
pub struct RawValueCarrier {
    pub codec_identity: String,
    pub native_type: String,
    pub source_definition_digest: String,
    pub encoding: String,
    pub raw_bytes_base64url: String,
    pub canonical_text: Option<String>,
}

impl Contract for RawValueCarrier {
    open spec fn doc(&self) -> Doc {
        let members = Seq::<(Seq<char>, Doc)>::empty();
        let members = members.push(("codec_identity"@, Doc::Str(self.codec_identity@)));
        let members = members.push(("native_type"@, Doc::Str(self.native_type@)));
        let members = members.push(("source_definition_digest"@, Doc::Str(self.source_definition_digest@)));
        let members = members.push(("encoding"@, Doc::Str(self.encoding@)));
        let members = members.push(("raw_bytes_base64url"@, Doc::Str(self.raw_bytes_base64url@)));
        let members = with_present_text(members, "canonical_text"@, self.canonical_text);
        Doc::Obj(members)
    }

    fn to_json(&self) -> (result: Json) {
        let mut fields = Fields::new();
        fields.put_text("codec_identity", self.codec_identity.as_str());
        fields.put_text("native_type", self.native_type.as_str());
        fields.put_text("source_definition_digest", self.source_definition_digest.as_str());
        fields.put_text("encoding", self.encoding.as_str());
        fields.put_text("raw_bytes_base64url", self.raw_bytes_base64url.as_str());
        fields.put_present_text("canonical_text", &self.canonical_text);
        fields.finish()
    }

    fn duplicate(&self) -> (result: Self) {
        RawValueCarrier {
            codec_identity: self.codec_identity.clone(),
            native_type: self.native_type.clone(),
            source_definition_digest: self.source_definition_digest.clone(),
            encoding: self.encoding.clone(),
            raw_bytes_base64url: self.raw_bytes_base64url.clone(),
            canonical_text: self.canonical_text.clone(),
        }
    }
}

impl Clone for RawValueCarrier {
    fn clone(&self) -> (result: Self)
        ensures
            result.doc() == self.doc(),
    {
        self.duplicate()
    }
}

#[derive(Debug, PartialEq, Eq, Hash)]
pub struct JsonEntry {
    pub key: String,
    pub value: JsonValue,
}

/// A JSON column value. Numbers keep their exact spelling or bits.
#[derive(Debug, PartialEq, Eq, Hash)]
pub enum JsonValue {
    Null,
    Boolean(bool),
    String(String),
    SignedInteger(String),
    UnsignedInteger(String),
    DoubleBits(String),
    Decimal { unscaled: String, scale: usize },
    Array(Vec<JsonValue>),
    Object(Vec<JsonEntry>),
}

/// A value in the portable value contract.
#[derive(Debug, PartialEq, Eq, Hash)]
pub enum LogicalValue {
    /// A nested NULL. Column-level NULL continues to use [`Datum::Null`].
    Null,
    Boolean {
        value: bool,
    },
    Uuid {
        value: String,
    },
    Integer {
        signed: bool,
        bits: u8,
        value: String,
    },
    Decimal {
        unscaled: String,
        scale: usize,
    },
    Float {
        bits: u8,
        ieee754_hex: String,
    },
    Text {
        charset: String,
        bytes_base64url: String,
        text: Option<String>,
    },
    Binary {
        bytes_base64url: String,
    },
    /// A bit string is raw bytes plus the exact number of meaningful bits.
    /// `padding` describes the unused bits in the final byte and `bit_order`
    /// describes how meaningful bits are read; neither may be inferred by a
    /// Sink from the byte length.
    BitString {
        bytes_base64url: String,
        bit_length: u64,
        padding: BitPadding,
        bit_order: BitOrder,
    },
    Date {
        year: u16,
        month: u8,
        day: u8,
    },
    LocalTime {
        hour: u8,
        minute: u8,
        second: u8,
        microsecond: u32,
    },
    LocalDatetime {
        year: u16,
        month: u8,
        day: u8,
        hour: u8,
        minute: u8,
        second: u8,
        microsecond: u32,
    },
    Duration {
        negative: bool,
        hours: u64,
        minutes: u8,
        seconds: u8,
        microsecond: u32,
    },
    Instant {
        unix_seconds: String,
        nanoseconds: u32,
    },
    Year {
        value: u16,
    },
    /// An ENUM value is carried by its declared label. Native ordinals are
    /// source evidence only and never enter the portable value contract.
    Enum {
        label: String,
    },
    /// A SET value is carried as a member collection. The source adapter
    /// rejects duplicate members; a target plan may reorder the collection to
    /// the target declaration order without changing its meaning.
    SetValue {
        members: Vec<String>,
    },
    /// Spatial values retain their wire format and reference metadata. WKT
    /// or arbitrary text is deliberately not part of this value contract.
    Spatial {
        format: SpatialFormat,
        bytes_base64url: String,
        geometry_type: String,
        dimensions: u8,
        srid: Option<i32>,
        crs: Option<String>,
    },
    Array {
        elements: Vec<LogicalValue>,
    },
    Struct {
        fields: Vec<StructuredField>,
    },
    MapValue {
        entries: Vec<MapEntry>,
    },
    Range {
        empty: bool,
        lower: Option<Box<LogicalValue>>,
        upper: Option<Box<LogicalValue>>,
        lower_inclusive: bool,
        upper_inclusive: bool,
    },
    MultiRange {
        ranges: Vec<LogicalValue>,
    },
    /// An array with structural metadata. The `Array` variant remains for
    /// one-dimensional, one-based arrays whose source did not expose their
    /// shape.
    ArrayWithMetadata {
        elements: Vec<LogicalValue>,
        dimensions: u8,
        lower_bounds: Vec<i32>,
    },
    /// A source-invalid temporal value that must not be normalized to NULL.
    InvalidTemporal {
        kind: String,
        raw: String,
    },
    Network {
        family: String,
        address: String,
        prefix_length: Option<u8>,
    },
    Xml {
        bytes_base64url: String,
        text: Option<String>,
    },
    /// A domain value retains its underlying value while the domain identity
    /// and constraints remain part of its LogicalType.
    Domain {
        value: Box<LogicalValue>,
    },
    /// A value whose native semantics are only available through a verified
    /// source codec and definition fingerprint.
    Raw {
        carrier: RawValueCarrier,
    },
    Json {
        value: JsonValue,
    },
}

#[derive(Debug, PartialEq, Eq, Hash)]
pub struct StructuredField {
    pub name: String,
    pub value: LogicalValue,
}

#[derive(Debug, PartialEq, Eq, Hash)]
pub struct MapEntry {
    pub key: LogicalValue,
    pub value: LogicalValue,
}

/// The first member of a tagged document.
pub open spec fn kind_members(kind: Seq<char>) -> Seq<(Seq<char>, Doc)> {
    Seq::<(Seq<char>, Doc)>::empty().push(("type"@, Doc::Str(kind)))
}

pub open spec fn field_doc(name: Seq<char>, value: Doc) -> Doc {
    Doc::Obj(
        Seq::<(Seq<char>, Doc)>::empty().push(("name"@, Doc::Str(name))).push(("value"@, value)),
    )
}

pub open spec fn entry_doc(key: Doc, value: Doc) -> Doc {
    Doc::Obj(Seq::<(Seq<char>, Doc)>::empty().push(("key"@, key)).push(("value"@, value)))
}

pub open spec fn ints_doc(list: Seq<i32>) -> Doc {
    Doc::Arr(Seq::new(list.len(), |i: int| Doc::Int(list[i] as int)))
}

pub(crate) fn int_array(list: &Vec<i32>) -> (result: Json)
    ensures
        result@ == ints_doc(list@),
{
    let mut items: Vec<Json> = Vec::new();
    let mut i: usize = 0;
    while i < list.len()
        invariant
            i <= list@.len(),
            items@.len() == i,
            forall|k: int| 0 <= k < i ==> (#[trigger] items@[k])@ == Doc::Int(list@[k] as int),
        decreases list@.len() - i,
    {
        items.push(Json::Signed(list[i] as i64));
        i += 1;
    }
    assert(docs_of(items@) =~= ints_doc(list@)->Arr_0);
    array(items)
}

/// The texts in ascending order.
pub open spec fn sorted_texts_doc(list: Seq<String>) -> Doc {
    Doc::Arr(second(sort_by_key(member_pairs(list))))
}

/// The members of a set, each with the text that it is ordered by.
pub open spec fn member_pairs(list: Seq<String>) -> Seq<(Seq<char>, Doc)> {
    Seq::new(list.len(), |i: int| (list[i]@, Doc::Str(list[i]@)))
}

fn sorted_text_array(list: &Vec<String>) -> (result: Json)
    ensures
        result@ == sorted_texts_doc(list@),
{
    let mut items: Vec<Keyed<Json>> = Vec::new();
    let mut i: usize = 0;
    while i < list.len()
        invariant
            i <= list@.len(),
            items@.len() == i,
            forall|k: int|
                0 <= k < i ==> (#[trigger] items@[k]).key@ == list@[k]@ && items@[k].item@
                    == Doc::Str(list@[k]@),
        decreases list@.len() - i,
    {
        items.push(Keyed { key: list[i].clone(), item: Json::Text(list[i].clone()) });
        i += 1;
    }
    assert(keyed_of(items@) =~= member_pairs(list@));
    array(sort_documents(items))
}

/// A tagged document with a content.
pub open spec fn content_doc(kind: Seq<char>, content: Doc) -> Doc {
    Doc::Obj(kind_members(kind).push(("value"@, content)))
}

pub open spec fn json_entry_doc(key: Seq<char>, value: Doc) -> Doc {
    Doc::Obj(
        Seq::<(Seq<char>, Doc)>::empty().push(("key"@, Doc::Str(key))).push(("value"@, value)),
    )
}

pub open spec fn json_decimal_doc(unscaled: Seq<char>, scale: usize) -> Doc {
    Doc::Obj(
        Seq::<(Seq<char>, Doc)>::empty().push(("unscaled"@, Doc::Str(unscaled))).push(
            ("scale"@, Doc::Int(scale as int)),
        ),
    )
}

/// The form of a JSON column value.
pub open spec fn json_value_doc(value: JsonValue) -> Doc
    decreases value,
{
    match value {
        JsonValue::Null => Doc::Obj(kind_members("null"@)),
        JsonValue::Boolean(value) => content_doc("boolean"@, Doc::Bool(value)),
        JsonValue::String(text) => content_doc("string"@, Doc::Str(text@)),
        JsonValue::SignedInteger(text) => content_doc("signed_integer"@, Doc::Str(text@)),
        JsonValue::UnsignedInteger(text) => content_doc("unsigned_integer"@, Doc::Str(text@)),
        JsonValue::DoubleBits(text) => content_doc("double_bits"@, Doc::Str(text@)),
        JsonValue::Decimal { unscaled, scale } => content_doc(
            "decimal"@,
            json_decimal_doc(unscaled@, scale),
        ),
        JsonValue::Array(items) => content_doc(
            "array"@,
            Doc::Arr(
                Seq::new(
                    items@.len(),
                    |i: int|
                        if 0 <= i < items@.len() {
                            json_value_doc(items@[i])
                        } else {
                            Doc::Null
                        },
                ),
            ),
        ),
        JsonValue::Object(entries) => content_doc(
            "object"@,
            Doc::Arr(
                Seq::new(
                    entries@.len(),
                    |i: int|
                        if 0 <= i < entries@.len() {
                            json_entry_doc(entries@[i].key@, json_value_doc(entries@[i].value))
                        } else {
                            Doc::Null
                        },
                ),
            ),
        ),
    }
}

/// The form of a JSON column value with the members of its objects in
/// ascending order.
pub open spec fn canonical_json_value_doc(value: JsonValue) -> Doc
    decreases value,
{
    match value {
        JsonValue::Array(items) => content_doc(
            "array"@,
            Doc::Arr(
                Seq::new(
                    items@.len(),
                    |i: int|
                        if 0 <= i < items@.len() {
                            canonical_json_value_doc(items@[i])
                        } else {
                            Doc::Null
                        },
                ),
            ),
        ),
        JsonValue::Object(entries) => content_doc(
            "object"@,
            Doc::Arr(
                second(sort_by_key(canonical_members(entries@))),
            ),
        ),
        _ => json_value_doc(value),
    }
}

/// The members of a JSON object, each with its key.
pub open spec fn canonical_members(entries: Seq<JsonEntry>) -> Seq<(Seq<char>, Doc)>
    decreases entries,
{
    if entries.len() == 0 {
        Seq::empty()
    } else {
        let entry = entries[entries.len() - 1];
        canonical_members(entries.drop_last()).push(
            (entry.key@, json_entry_doc(entry.key@, canonical_json_value_doc(entry.value))),
        )
    }
}

fn content_json(kind: &str, content: Json) -> (result: Json)
    ensures
        result@ == content_doc(kind@, content@),
{
    let mut fields = Fields::new();
    fields.put_text("type", kind);
    fields.put("value", content);
    fields.finish()
}

fn json_value(value: &JsonValue) -> (result: Json)
    ensures
        result@ == json_value_doc(*value),
    decreases value,
{
    match value {
        JsonValue::Null => {
            let mut fields = Fields::new();
            fields.put_text("type", "null");
            fields.finish()
        },
        JsonValue::Boolean(value) => content_json("boolean", Json::Bool(*value)),
        JsonValue::String(text) => content_json("string", Json::Text(text.clone())),
        JsonValue::SignedInteger(text) => content_json("signed_integer", Json::Text(text.clone())),
        JsonValue::UnsignedInteger(text) => content_json(
            "unsigned_integer",
            Json::Text(text.clone()),
        ),
        JsonValue::DoubleBits(text) => content_json("double_bits", Json::Text(text.clone())),
        JsonValue::Decimal { unscaled, scale } => {
            let mut content = Fields::new();
            content.put_text("unscaled", unscaled.as_str());
            content.put_unsigned("scale", *scale as u64);
            content_json("decimal", content.finish())
        },
        JsonValue::Array(list) => {
            let mut items: Vec<Json> = Vec::new();
            let mut i: usize = 0;
            while i < list.len()
                invariant
                    i <= list@.len(),
                    decreases_to!(*value => *list),
                    items@.len() == i,
                    forall|k: int|
                        0 <= k < i ==> (#[trigger] items@[k])@ == json_value_doc(list@[k]),
                decreases list@.len() - i,
            {
                items.push(json_value(&list[i]));
                i += 1;
            }
            assert(json_value_doc(*value)->Obj_0[1].1->Arr_0 =~= docs_of(items@));
            content_json("array", array(items))
        },
        JsonValue::Object(entries) => {
            let mut items: Vec<Json> = Vec::new();
            let mut i: usize = 0;
            while i < entries.len()
                invariant
                    i <= entries@.len(),
                    decreases_to!(*value => *entries),
                    items@.len() == i,
                    forall|k: int|
                        0 <= k < i ==> (#[trigger] items@[k])@ == json_entry_doc(
                            entries@[k].key@,
                            json_value_doc(entries@[k].value),
                        ),
                decreases entries@.len() - i,
            {
                let mut member = Fields::new();
                member.put_text("key", entries[i].key.as_str());
                member.put("value", json_value(&entries[i].value));
                items.push(member.finish());
                i += 1;
            }
            assert(json_value_doc(*value)->Obj_0[1].1->Arr_0 =~= docs_of(items@));
            content_json("object", array(items))
        },
    }
}

fn canonical_json_value(value: &JsonValue) -> (result: Json)
    ensures
        result@ == canonical_json_value_doc(*value),
    decreases value,
{
    match value {
        JsonValue::Array(list) => {
            let mut items: Vec<Json> = Vec::new();
            let mut i: usize = 0;
            while i < list.len()
                invariant
                    i <= list@.len(),
                    decreases_to!(*value => *list),
                    items@.len() == i,
                    forall|k: int|
                        0 <= k < i ==> (#[trigger] items@[k])@ == canonical_json_value_doc(
                            list@[k],
                        ),
                decreases list@.len() - i,
            {
                items.push(canonical_json_value(&list[i]));
                i += 1;
            }
            assert(canonical_json_value_doc(*value)->Obj_0[1].1->Arr_0 =~= docs_of(items@));
            content_json("array", array(items))
        },
        JsonValue::Object(entries) => {
            let mut items: Vec<Keyed<Json>> = Vec::new();
            let mut i: usize = 0;
            assert(keyed_of(items@) =~= canonical_members(entries@.take(0)));
            while i < entries.len()
                invariant
                    i <= entries@.len(),
                    decreases_to!(*value => *entries),
                    items@.len() == i,
                    keyed_of(items@) == canonical_members(entries@.take(i as int)),
                decreases entries@.len() - i,
            {
                let mut member = Fields::new();
                member.put_text("key", entries[i].key.as_str());
                member.put("value", canonical_json_value(&entries[i].value));
                let ghost before = keyed_of(items@);
                items.push(Keyed { key: entries[i].key.clone(), item: member.finish() });
                assert(entries@.take(i + 1).drop_last() =~= entries@.take(i as int));
                assert(keyed_of(items@) =~= before.push(
                    (entries@[i as int].key@, items@[i as int].item@),
                ));
                i += 1;
            }
            assert(entries@.take(i as int) =~= entries@);
            content_json("object", array(sort_documents(items)))
        },
        _ => json_value(value),
    }
}

/// The form of a logical value.
pub open spec fn logical_value_doc(value: LogicalValue) -> Doc
    decreases value,
{
    match value {
        LogicalValue::Null => Doc::Obj(kind_members("null"@)),
        LogicalValue::Boolean { value } => Doc::Obj(
            kind_members("boolean"@).push(("value"@, Doc::Bool(value))),
        ),
        LogicalValue::Uuid { value } => Doc::Obj(
            kind_members("uuid"@).push(("value"@, Doc::Str(value@))),
        ),
        LogicalValue::Integer { signed, bits, value } => Doc::Obj(
            kind_members("integer"@)
                .push(("signed"@, Doc::Bool(signed)))
                .push(("bits"@, Doc::Int(bits as int)))
                .push(("value"@, Doc::Str(value@))),
        ),
        LogicalValue::Decimal { unscaled, scale } => Doc::Obj(
            kind_members("decimal"@)
                .push(("unscaled"@, Doc::Str(unscaled@)))
                .push(("scale"@, Doc::Int(scale as int))),
        ),
        LogicalValue::Float { bits, ieee754_hex } => Doc::Obj(
            kind_members("float"@)
                .push(("bits"@, Doc::Int(bits as int)))
                .push(("ieee754_hex"@, Doc::Str(ieee754_hex@))),
        ),
        LogicalValue::Text { charset, bytes_base64url, text } => Doc::Obj(
            with_present_text(
                kind_members("text"@)
                    .push(("charset"@, Doc::Str(charset@)))
                    .push(("bytes_base64url"@, Doc::Str(bytes_base64url@))),
                "text"@,
                text,
            ),
        ),
        LogicalValue::Binary { bytes_base64url } => Doc::Obj(
            kind_members("binary"@).push(("bytes_base64url"@, Doc::Str(bytes_base64url@))),
        ),
        LogicalValue::BitString { bytes_base64url, bit_length, padding, bit_order } => Doc::Obj(
            kind_members("bit_string"@)
                .push(("bytes_base64url"@, Doc::Str(bytes_base64url@)))
                .push(("bit_length"@, Doc::Int(bit_length as int)))
                .push(("padding"@, padding.doc()))
                .push(("bit_order"@, bit_order.doc())),
        ),
        LogicalValue::Date { year, month, day } => Doc::Obj(
            kind_members("date"@)
                .push(("year"@, Doc::Int(year as int)))
                .push(("month"@, Doc::Int(month as int)))
                .push(("day"@, Doc::Int(day as int))),
        ),
        LogicalValue::LocalTime { hour, minute, second, microsecond } => Doc::Obj(
            kind_members("local_time"@)
                .push(("hour"@, Doc::Int(hour as int)))
                .push(("minute"@, Doc::Int(minute as int)))
                .push(("second"@, Doc::Int(second as int)))
                .push(("microsecond"@, Doc::Int(microsecond as int))),
        ),
        LogicalValue::LocalDatetime { year, month, day, hour, minute, second, microsecond } => Doc::Obj(
            kind_members("local_datetime"@)
                .push(("year"@, Doc::Int(year as int)))
                .push(("month"@, Doc::Int(month as int)))
                .push(("day"@, Doc::Int(day as int)))
                .push(("hour"@, Doc::Int(hour as int)))
                .push(("minute"@, Doc::Int(minute as int)))
                .push(("second"@, Doc::Int(second as int)))
                .push(("microsecond"@, Doc::Int(microsecond as int))),
        ),
        LogicalValue::Duration { negative, hours, minutes, seconds, microsecond } => Doc::Obj(
            kind_members("duration"@)
                .push(("negative"@, Doc::Bool(negative)))
                .push(("hours"@, Doc::Int(hours as int)))
                .push(("minutes"@, Doc::Int(minutes as int)))
                .push(("seconds"@, Doc::Int(seconds as int)))
                .push(("microsecond"@, Doc::Int(microsecond as int))),
        ),
        LogicalValue::Instant { unix_seconds, nanoseconds } => Doc::Obj(
            kind_members("instant"@)
                .push(("unix_seconds"@, Doc::Str(unix_seconds@)))
                .push(("nanoseconds"@, Doc::Int(nanoseconds as int))),
        ),
        LogicalValue::Year { value } => Doc::Obj(
            kind_members("year"@).push(("value"@, Doc::Int(value as int))),
        ),
        LogicalValue::Enum { label } => Doc::Obj(
            kind_members("enum"@).push(("label"@, Doc::Str(label@))),
        ),
        LogicalValue::SetValue { members } => Doc::Obj(
            kind_members("set"@).push(("members"@, texts_doc(members@))),
        ),
        LogicalValue::Spatial { format, bytes_base64url, geometry_type, dimensions, srid, crs } => Doc::Obj(
            kind_members("spatial"@)
                .push(("format"@, format.doc()))
                .push(("bytes_base64url"@, Doc::Str(bytes_base64url@)))
                .push(("geometry_type"@, Doc::Str(geometry_type@)))
                .push(("dimensions"@, Doc::Int(dimensions as int)))
                .push(("srid"@, match srid { Some(v) => (Doc::Int(v as int)), None => Doc::Null }))
                .push(("crs"@, optional_text_doc(crs))),
        ),
        LogicalValue::Array { elements } => Doc::Obj(
            kind_members("array"@)
                .push((
                    "elements"@,
                    Doc::Arr(
                        Seq::new(
                            elements@.len(),
                            |i: int| if 0 <= i < elements@.len() {
                                logical_value_doc(elements@[i])
                            } else {
                                Doc::Null
                            },
                        ),
                    ),
                )),
        ),
        LogicalValue::Struct { fields } => Doc::Obj(
            kind_members("struct"@)
                .push((
                    "fields"@,
                    Doc::Arr(
                        Seq::new(
                            fields@.len(),
                            |i: int| if 0 <= i < fields@.len() {
                                field_doc(fields@[i].name@, logical_value_doc(fields@[i].value))
                            } else {
                                Doc::Null
                            },
                        ),
                    ),
                )),
        ),
        LogicalValue::MapValue { entries } => Doc::Obj(
            kind_members("map"@)
                .push((
                    "entries"@,
                    Doc::Arr(
                        Seq::new(
                            entries@.len(),
                            |i: int| if 0 <= i < entries@.len() {
                                entry_doc(
                                    logical_value_doc(entries@[i].key),
                                    logical_value_doc(entries@[i].value),
                                )
                            } else {
                                Doc::Null
                            },
                        ),
                    ),
                )),
        ),
        LogicalValue::Range { empty, lower, upper, lower_inclusive, upper_inclusive } => Doc::Obj(
            kind_members("range"@)
                .push(("empty"@, Doc::Bool(empty)))
                .push(("lower"@, match lower { Some(v) => logical_value_doc(*v), None => Doc::Null }))
                .push(("upper"@, match upper { Some(v) => logical_value_doc(*v), None => Doc::Null }))
                .push(("lower_inclusive"@, Doc::Bool(lower_inclusive)))
                .push(("upper_inclusive"@, Doc::Bool(upper_inclusive))),
        ),
        LogicalValue::MultiRange { ranges } => Doc::Obj(
            kind_members("multi_range"@)
                .push((
                    "ranges"@,
                    Doc::Arr(
                        Seq::new(
                            ranges@.len(),
                            |i: int| if 0 <= i < ranges@.len() {
                                logical_value_doc(ranges@[i])
                            } else {
                                Doc::Null
                            },
                        ),
                    ),
                )),
        ),
        LogicalValue::ArrayWithMetadata { elements, dimensions, lower_bounds } => Doc::Obj(
            kind_members("array_with_metadata"@)
                .push((
                    "elements"@,
                    Doc::Arr(
                        Seq::new(
                            elements@.len(),
                            |i: int| if 0 <= i < elements@.len() {
                                logical_value_doc(elements@[i])
                            } else {
                                Doc::Null
                            },
                        ),
                    ),
                ))
                .push(("dimensions"@, Doc::Int(dimensions as int)))
                .push(("lower_bounds"@, ints_doc(lower_bounds@))),
        ),
        LogicalValue::InvalidTemporal { kind, raw } => Doc::Obj(
            kind_members("invalid_temporal"@)
                .push(("kind"@, Doc::Str(kind@)))
                .push(("raw"@, Doc::Str(raw@))),
        ),
        LogicalValue::Network { family, address, prefix_length } => Doc::Obj(
            with_present(
                kind_members("network"@)
                    .push(("family"@, Doc::Str(family@)))
                    .push(("address"@, Doc::Str(address@))),
                "prefix_length"@,
                match prefix_length {
                    Some(v) => Some(Doc::Int(v as int)),
                    None => None,
                },
            ),
        ),
        LogicalValue::Xml { bytes_base64url, text } => Doc::Obj(
            with_present_text(
                kind_members("xml"@).push(("bytes_base64url"@, Doc::Str(bytes_base64url@))),
                "text"@,
                text,
            ),
        ),
        LogicalValue::Domain { value } => Doc::Obj(
            kind_members("domain"@).push(("value"@, logical_value_doc(*value))),
        ),
        LogicalValue::Raw { carrier } => Doc::Obj(
            kind_members("raw"@).push(("carrier"@, carrier.doc())),
        ),
        LogicalValue::Json { value } => Doc::Obj(
            kind_members("json"@).push(("value"@, json_value_doc(value))),
        ),
    }
}

/// The form of a logical value in which nothing depends on an order that has no
/// meaning: SET members and JSON object members ascend, and map entries ascend
/// by the digest of their key.
pub open spec fn canonical_value_doc(value: LogicalValue) -> Doc
    decreases value,
{
    match value {
        LogicalValue::Null => Doc::Obj(kind_members("null"@)),
        LogicalValue::Boolean { value } => Doc::Obj(
            kind_members("boolean"@).push(("value"@, Doc::Bool(value))),
        ),
        LogicalValue::Uuid { value } => Doc::Obj(
            kind_members("uuid"@).push(("value"@, Doc::Str(value@))),
        ),
        LogicalValue::Integer { signed, bits, value } => Doc::Obj(
            kind_members("integer"@)
                .push(("signed"@, Doc::Bool(signed)))
                .push(("bits"@, Doc::Int(bits as int)))
                .push(("value"@, Doc::Str(value@))),
        ),
        LogicalValue::Decimal { unscaled, scale } => Doc::Obj(
            kind_members("decimal"@)
                .push(("unscaled"@, Doc::Str(unscaled@)))
                .push(("scale"@, Doc::Int(scale as int))),
        ),
        LogicalValue::Float { bits, ieee754_hex } => Doc::Obj(
            kind_members("float"@)
                .push(("bits"@, Doc::Int(bits as int)))
                .push(("ieee754_hex"@, Doc::Str(ieee754_hex@))),
        ),
        LogicalValue::Text { charset, bytes_base64url, text } => Doc::Obj(
            with_present_text(
                kind_members("text"@)
                    .push(("charset"@, Doc::Str(charset@)))
                    .push(("bytes_base64url"@, Doc::Str(bytes_base64url@))),
                "text"@,
                text,
            ),
        ),
        LogicalValue::Binary { bytes_base64url } => Doc::Obj(
            kind_members("binary"@).push(("bytes_base64url"@, Doc::Str(bytes_base64url@))),
        ),
        LogicalValue::BitString { bytes_base64url, bit_length, padding, bit_order } => Doc::Obj(
            kind_members("bit_string"@)
                .push(("bytes_base64url"@, Doc::Str(bytes_base64url@)))
                .push(("bit_length"@, Doc::Int(bit_length as int)))
                .push(("padding"@, padding.doc()))
                .push(("bit_order"@, bit_order.doc())),
        ),
        LogicalValue::Date { year, month, day } => Doc::Obj(
            kind_members("date"@)
                .push(("year"@, Doc::Int(year as int)))
                .push(("month"@, Doc::Int(month as int)))
                .push(("day"@, Doc::Int(day as int))),
        ),
        LogicalValue::LocalTime { hour, minute, second, microsecond } => Doc::Obj(
            kind_members("local_time"@)
                .push(("hour"@, Doc::Int(hour as int)))
                .push(("minute"@, Doc::Int(minute as int)))
                .push(("second"@, Doc::Int(second as int)))
                .push(("microsecond"@, Doc::Int(microsecond as int))),
        ),
        LogicalValue::LocalDatetime { year, month, day, hour, minute, second, microsecond } => Doc::Obj(
            kind_members("local_datetime"@)
                .push(("year"@, Doc::Int(year as int)))
                .push(("month"@, Doc::Int(month as int)))
                .push(("day"@, Doc::Int(day as int)))
                .push(("hour"@, Doc::Int(hour as int)))
                .push(("minute"@, Doc::Int(minute as int)))
                .push(("second"@, Doc::Int(second as int)))
                .push(("microsecond"@, Doc::Int(microsecond as int))),
        ),
        LogicalValue::Duration { negative, hours, minutes, seconds, microsecond } => Doc::Obj(
            kind_members("duration"@)
                .push(("negative"@, Doc::Bool(negative)))
                .push(("hours"@, Doc::Int(hours as int)))
                .push(("minutes"@, Doc::Int(minutes as int)))
                .push(("seconds"@, Doc::Int(seconds as int)))
                .push(("microsecond"@, Doc::Int(microsecond as int))),
        ),
        LogicalValue::Instant { unix_seconds, nanoseconds } => Doc::Obj(
            kind_members("instant"@)
                .push(("unix_seconds"@, Doc::Str(unix_seconds@)))
                .push(("nanoseconds"@, Doc::Int(nanoseconds as int))),
        ),
        LogicalValue::Year { value } => Doc::Obj(
            kind_members("year"@).push(("value"@, Doc::Int(value as int))),
        ),
        LogicalValue::Enum { label } => Doc::Obj(
            kind_members("enum"@).push(("label"@, Doc::Str(label@))),
        ),
        LogicalValue::SetValue { members } => Doc::Obj(
            kind_members("set"@).push(("members"@, sorted_texts_doc(members@))),
        ),
        LogicalValue::Spatial { format, bytes_base64url, geometry_type, dimensions, srid, crs } => Doc::Obj(
            kind_members("spatial"@)
                .push(("format"@, format.doc()))
                .push(("bytes_base64url"@, Doc::Str(bytes_base64url@)))
                .push(("geometry_type"@, Doc::Str(geometry_type@)))
                .push(("dimensions"@, Doc::Int(dimensions as int)))
                .push(("srid"@, match srid { Some(v) => (Doc::Int(v as int)), None => Doc::Null }))
                .push(("crs"@, optional_text_doc(crs))),
        ),
        LogicalValue::Array { elements } => Doc::Obj(
            kind_members("array"@)
                .push((
                    "elements"@,
                    Doc::Arr(
                        Seq::new(
                            elements@.len(),
                            |i: int| if 0 <= i < elements@.len() {
                                canonical_value_doc(elements@[i])
                            } else {
                                Doc::Null
                            },
                        ),
                    ),
                )),
        ),
        LogicalValue::Struct { fields } => Doc::Obj(
            kind_members("struct"@)
                .push((
                    "fields"@,
                    Doc::Arr(
                        Seq::new(
                            fields@.len(),
                            |i: int| if 0 <= i < fields@.len() {
                                field_doc(fields@[i].name@, canonical_value_doc(fields@[i].value))
                            } else {
                                Doc::Null
                            },
                        ),
                    ),
                )),
        ),
        LogicalValue::MapValue { entries } => Doc::Obj(
            kind_members("map"@)
                .push(("entries"@, Doc::Arr(second(sort_by_key(canonical_entries(entries@)))))),
        ),
        LogicalValue::Range { empty, lower, upper, lower_inclusive, upper_inclusive } => Doc::Obj(
            kind_members("range"@)
                .push(("empty"@, Doc::Bool(empty)))
                .push(("lower"@, match lower { Some(v) => canonical_value_doc(*v), None => Doc::Null }))
                .push(("upper"@, match upper { Some(v) => canonical_value_doc(*v), None => Doc::Null }))
                .push(("lower_inclusive"@, Doc::Bool(lower_inclusive)))
                .push(("upper_inclusive"@, Doc::Bool(upper_inclusive))),
        ),
        LogicalValue::MultiRange { ranges } => Doc::Obj(
            kind_members("multi_range"@)
                .push((
                    "ranges"@,
                    Doc::Arr(
                        Seq::new(
                            ranges@.len(),
                            |i: int| if 0 <= i < ranges@.len() {
                                canonical_value_doc(ranges@[i])
                            } else {
                                Doc::Null
                            },
                        ),
                    ),
                )),
        ),
        LogicalValue::ArrayWithMetadata { elements, dimensions, lower_bounds } => Doc::Obj(
            kind_members("array_with_metadata"@)
                .push((
                    "elements"@,
                    Doc::Arr(
                        Seq::new(
                            elements@.len(),
                            |i: int| if 0 <= i < elements@.len() {
                                canonical_value_doc(elements@[i])
                            } else {
                                Doc::Null
                            },
                        ),
                    ),
                ))
                .push(("dimensions"@, Doc::Int(dimensions as int)))
                .push(("lower_bounds"@, ints_doc(lower_bounds@))),
        ),
        LogicalValue::InvalidTemporal { kind, raw } => Doc::Obj(
            kind_members("invalid_temporal"@)
                .push(("kind"@, Doc::Str(kind@)))
                .push(("raw"@, Doc::Str(raw@))),
        ),
        LogicalValue::Network { family, address, prefix_length } => Doc::Obj(
            with_present(
                kind_members("network"@)
                    .push(("family"@, Doc::Str(family@)))
                    .push(("address"@, Doc::Str(address@))),
                "prefix_length"@,
                match prefix_length {
                    Some(v) => Some(Doc::Int(v as int)),
                    None => None,
                },
            ),
        ),
        LogicalValue::Xml { bytes_base64url, text } => Doc::Obj(
            with_present_text(
                kind_members("xml"@).push(("bytes_base64url"@, Doc::Str(bytes_base64url@))),
                "text"@,
                text,
            ),
        ),
        LogicalValue::Domain { value } => Doc::Obj(
            kind_members("domain"@).push(("value"@, canonical_value_doc(*value))),
        ),
        LogicalValue::Raw { carrier } => Doc::Obj(
            kind_members("raw"@).push(("carrier"@, carrier.doc())),
        ),
        LogicalValue::Json { value } => Doc::Obj(
            kind_members("json"@).push(("value"@, canonical_json_value_doc(value))),
        ),
    }
}

/// The entries of a map, each with the digest of its key.
pub open spec fn canonical_entries(entries: Seq<MapEntry>) -> Seq<(Seq<char>, Doc)>
    decreases entries,
{
    if entries.len() == 0 {
        Seq::empty()
    } else {
        let entry = entries[entries.len() - 1];
        let key = canonical_value_doc(entry.key);
        canonical_entries(entries.drop_last()).push(
            (digest(key), entry_doc(key, canonical_value_doc(entry.value))),
        )
    }
}

fn logical_value_json(value: &LogicalValue) -> (result: Json)
    ensures
        result@ == logical_value_doc(*value),
    decreases value,
{
    let mut fields = Fields::new();
    match value {
        LogicalValue::Null => {
            fields.put_text("type", "null");
        },
        LogicalValue::Boolean { value } => {
            fields.put_text("type", "boolean");
            fields.put_bool("value", *value);
        },
        LogicalValue::Uuid { value } => {
            fields.put_text("type", "uuid");
            fields.put_text("value", value.as_str());
        },
        LogicalValue::Integer { signed, bits, value } => {
            fields.put_text("type", "integer");
            fields.put_bool("signed", *signed);
            fields.put_unsigned("bits", *bits as u64);
            fields.put_text("value", value.as_str());
        },
        LogicalValue::Decimal { unscaled, scale } => {
            fields.put_text("type", "decimal");
            fields.put_text("unscaled", unscaled.as_str());
            fields.put_unsigned("scale", *scale as u64);
        },
        LogicalValue::Float { bits, ieee754_hex } => {
            fields.put_text("type", "float");
            fields.put_unsigned("bits", *bits as u64);
            fields.put_text("ieee754_hex", ieee754_hex.as_str());
        },
        LogicalValue::Text { charset, bytes_base64url, text } => {
            fields.put_text("type", "text");
            fields.put_text("charset", charset.as_str());
            fields.put_text("bytes_base64url", bytes_base64url.as_str());
            fields.put_present_text("text", text);
        },
        LogicalValue::Binary { bytes_base64url } => {
            fields.put_text("type", "binary");
            fields.put_text("bytes_base64url", bytes_base64url.as_str());
        },
        LogicalValue::BitString { bytes_base64url, bit_length, padding, bit_order } => {
            fields.put_text("type", "bit_string");
            fields.put_text("bytes_base64url", bytes_base64url.as_str());
            fields.put_unsigned("bit_length", *bit_length);
            fields.put("padding", padding.to_json());
            fields.put("bit_order", bit_order.to_json());
        },
        LogicalValue::Date { year, month, day } => {
            fields.put_text("type", "date");
            fields.put_unsigned("year", *year as u64);
            fields.put_unsigned("month", *month as u64);
            fields.put_unsigned("day", *day as u64);
        },
        LogicalValue::LocalTime { hour, minute, second, microsecond } => {
            fields.put_text("type", "local_time");
            fields.put_unsigned("hour", *hour as u64);
            fields.put_unsigned("minute", *minute as u64);
            fields.put_unsigned("second", *second as u64);
            fields.put_unsigned("microsecond", *microsecond as u64);
        },
        LogicalValue::LocalDatetime { year, month, day, hour, minute, second, microsecond } => {
            fields.put_text("type", "local_datetime");
            fields.put_unsigned("year", *year as u64);
            fields.put_unsigned("month", *month as u64);
            fields.put_unsigned("day", *day as u64);
            fields.put_unsigned("hour", *hour as u64);
            fields.put_unsigned("minute", *minute as u64);
            fields.put_unsigned("second", *second as u64);
            fields.put_unsigned("microsecond", *microsecond as u64);
        },
        LogicalValue::Duration { negative, hours, minutes, seconds, microsecond } => {
            fields.put_text("type", "duration");
            fields.put_bool("negative", *negative);
            fields.put_unsigned("hours", *hours);
            fields.put_unsigned("minutes", *minutes as u64);
            fields.put_unsigned("seconds", *seconds as u64);
            fields.put_unsigned("microsecond", *microsecond as u64);
        },
        LogicalValue::Instant { unix_seconds, nanoseconds } => {
            fields.put_text("type", "instant");
            fields.put_text("unix_seconds", unix_seconds.as_str());
            fields.put_unsigned("nanoseconds", *nanoseconds as u64);
        },
        LogicalValue::Year { value } => {
            fields.put_text("type", "year");
            fields.put_unsigned("value", *value as u64);
        },
        LogicalValue::Enum { label } => {
            fields.put_text("type", "enum");
            fields.put_text("label", label.as_str());
        },
        LogicalValue::SetValue { members } => {
            fields.put_text("type", "set");
            fields.put("members", text_array(members));
        },
        LogicalValue::Spatial { format, bytes_base64url, geometry_type, dimensions, srid, crs } => {
            fields.put_text("type", "spatial");
            fields.put("format", format.to_json());
            fields.put_text("bytes_base64url", bytes_base64url.as_str());
            fields.put_text("geometry_type", geometry_type.as_str());
            fields.put_unsigned("dimensions", *dimensions as u64);
            match srid {
                Some(v) => fields.put_signed("srid", *v as i64),
                None => fields.put("srid", Json::Null),
            }
            fields.put_optional_text("crs", crs);
        },
        LogicalValue::Array { elements } => {
            fields.put_text("type", "array");
            let mut items: Vec<Json> = Vec::new();
            let mut i: usize = 0;
            while i < elements.len()
                invariant
                    i <= elements@.len(),
                    decreases_to!(*value => *elements),
                    items@.len() == i,
                    forall|k: int|
                        0 <= k < i ==> (#[trigger] items@[k])@
                            == logical_value_doc(elements@[k]),
                decreases elements@.len() - i,
            {
                items.push(logical_value_json(&elements[i]));
                i += 1;
            }
            fields.put("elements", array(items));
            assert(logical_value_doc(*value)->Obj_0[1].1->Arr_0 =~= docs_of(items@));
        },
        LogicalValue::Struct { fields: fields_list } => {
            fields.put_text("type", "struct");
            let mut items: Vec<Json> = Vec::new();
            let mut i: usize = 0;
            while i < fields_list.len()
                invariant
                    i <= fields_list@.len(),
                    decreases_to!(*value => *fields_list),
                    items@.len() == i,
                    forall|k: int|
                        0 <= k < i ==> (#[trigger] items@[k])@
                            == field_doc(fields_list@[k].name@, logical_value_doc(fields_list@[k].value)),
                decreases fields_list@.len() - i,
            {
                let mut member = Fields::new();
                member.put_text("name", fields_list[i].name.as_str());
                member.put("value", logical_value_json(&fields_list[i].value));
                items.push(member.finish());
                i += 1;
            }
            fields.put("fields", array(items));
            assert(logical_value_doc(*value)->Obj_0[1].1->Arr_0 =~= docs_of(items@));
        },
        LogicalValue::MapValue { entries } => {
            fields.put_text("type", "map");
            let mut items: Vec<Json> = Vec::new();
            let mut i: usize = 0;
            while i < entries.len()
                invariant
                    i <= entries@.len(),
                    decreases_to!(*value => *entries),
                    items@.len() == i,
                    forall|k: int|
                        0 <= k < i ==> (#[trigger] items@[k])@
                            == entry_doc(logical_value_doc(entries@[k].key), logical_value_doc(entries@[k].value)),
                decreases entries@.len() - i,
            {
                let mut member = Fields::new();
                member.put("key", logical_value_json(&entries[i].key));
                member.put("value", logical_value_json(&entries[i].value));
                items.push(member.finish());
                i += 1;
            }
            fields.put("entries", array(items));
            assert(logical_value_doc(*value)->Obj_0[1].1->Arr_0 =~= docs_of(items@));
        },
        LogicalValue::Range { empty, lower, upper, lower_inclusive, upper_inclusive } => {
            fields.put_text("type", "range");
            fields.put_bool("empty", *empty);
            match lower {
                Some(bound) => fields.put("lower", logical_value_json(bound)),
                None => fields.put("lower", Json::Null),
            }
            match upper {
                Some(bound) => fields.put("upper", logical_value_json(bound)),
                None => fields.put("upper", Json::Null),
            }
            fields.put_bool("lower_inclusive", *lower_inclusive);
            fields.put_bool("upper_inclusive", *upper_inclusive);
        },
        LogicalValue::MultiRange { ranges } => {
            fields.put_text("type", "multi_range");
            let mut items: Vec<Json> = Vec::new();
            let mut i: usize = 0;
            while i < ranges.len()
                invariant
                    i <= ranges@.len(),
                    decreases_to!(*value => *ranges),
                    items@.len() == i,
                    forall|k: int|
                        0 <= k < i ==> (#[trigger] items@[k])@
                            == logical_value_doc(ranges@[k]),
                decreases ranges@.len() - i,
            {
                items.push(logical_value_json(&ranges[i]));
                i += 1;
            }
            fields.put("ranges", array(items));
            assert(logical_value_doc(*value)->Obj_0[1].1->Arr_0 =~= docs_of(items@));
        },
        LogicalValue::ArrayWithMetadata { elements, dimensions, lower_bounds } => {
            fields.put_text("type", "array_with_metadata");
            let mut items: Vec<Json> = Vec::new();
            let mut i: usize = 0;
            while i < elements.len()
                invariant
                    i <= elements@.len(),
                    decreases_to!(*value => *elements),
                    items@.len() == i,
                    forall|k: int|
                        0 <= k < i ==> (#[trigger] items@[k])@
                            == logical_value_doc(elements@[k]),
                decreases elements@.len() - i,
            {
                items.push(logical_value_json(&elements[i]));
                i += 1;
            }
            fields.put("elements", array(items));
            assert(logical_value_doc(*value)->Obj_0[1].1->Arr_0 =~= docs_of(items@));
            fields.put_unsigned("dimensions", *dimensions as u64);
            fields.put("lower_bounds", int_array(lower_bounds));
        },
        LogicalValue::InvalidTemporal { kind, raw } => {
            fields.put_text("type", "invalid_temporal");
            fields.put_text("kind", kind.as_str());
            fields.put_text("raw", raw.as_str());
        },
        LogicalValue::Network { family, address, prefix_length } => {
            fields.put_text("type", "network");
            fields.put_text("family", family.as_str());
            fields.put_text("address", address.as_str());
            if let Some(v) = prefix_length {
                fields.put_unsigned("prefix_length", *v as u64);
            }
        },
        LogicalValue::Xml { bytes_base64url, text } => {
            fields.put_text("type", "xml");
            fields.put_text("bytes_base64url", bytes_base64url.as_str());
            fields.put_present_text("text", text);
        },
        LogicalValue::Domain { value } => {
            fields.put_text("type", "domain");
            fields.put("value", logical_value_json(value));
        },
        LogicalValue::Raw { carrier } => {
            fields.put_text("type", "raw");
            fields.put("carrier", carrier.to_json());
        },
        LogicalValue::Json { value } => {
            fields.put_text("type", "json");
            fields.put("value", json_value(value));
        },
    }
    fields.finish()
}

fn canonical_value_json(value: &LogicalValue) -> (result: Json)
    ensures
        result@ == canonical_value_doc(*value),
    decreases value,
{
    let mut fields = Fields::new();
    match value {
        LogicalValue::Null => {
            fields.put_text("type", "null");
        },
        LogicalValue::Boolean { value } => {
            fields.put_text("type", "boolean");
            fields.put_bool("value", *value);
        },
        LogicalValue::Uuid { value } => {
            fields.put_text("type", "uuid");
            fields.put_text("value", value.as_str());
        },
        LogicalValue::Integer { signed, bits, value } => {
            fields.put_text("type", "integer");
            fields.put_bool("signed", *signed);
            fields.put_unsigned("bits", *bits as u64);
            fields.put_text("value", value.as_str());
        },
        LogicalValue::Decimal { unscaled, scale } => {
            fields.put_text("type", "decimal");
            fields.put_text("unscaled", unscaled.as_str());
            fields.put_unsigned("scale", *scale as u64);
        },
        LogicalValue::Float { bits, ieee754_hex } => {
            fields.put_text("type", "float");
            fields.put_unsigned("bits", *bits as u64);
            fields.put_text("ieee754_hex", ieee754_hex.as_str());
        },
        LogicalValue::Text { charset, bytes_base64url, text } => {
            fields.put_text("type", "text");
            fields.put_text("charset", charset.as_str());
            fields.put_text("bytes_base64url", bytes_base64url.as_str());
            fields.put_present_text("text", text);
        },
        LogicalValue::Binary { bytes_base64url } => {
            fields.put_text("type", "binary");
            fields.put_text("bytes_base64url", bytes_base64url.as_str());
        },
        LogicalValue::BitString { bytes_base64url, bit_length, padding, bit_order } => {
            fields.put_text("type", "bit_string");
            fields.put_text("bytes_base64url", bytes_base64url.as_str());
            fields.put_unsigned("bit_length", *bit_length);
            fields.put("padding", padding.to_json());
            fields.put("bit_order", bit_order.to_json());
        },
        LogicalValue::Date { year, month, day } => {
            fields.put_text("type", "date");
            fields.put_unsigned("year", *year as u64);
            fields.put_unsigned("month", *month as u64);
            fields.put_unsigned("day", *day as u64);
        },
        LogicalValue::LocalTime { hour, minute, second, microsecond } => {
            fields.put_text("type", "local_time");
            fields.put_unsigned("hour", *hour as u64);
            fields.put_unsigned("minute", *minute as u64);
            fields.put_unsigned("second", *second as u64);
            fields.put_unsigned("microsecond", *microsecond as u64);
        },
        LogicalValue::LocalDatetime { year, month, day, hour, minute, second, microsecond } => {
            fields.put_text("type", "local_datetime");
            fields.put_unsigned("year", *year as u64);
            fields.put_unsigned("month", *month as u64);
            fields.put_unsigned("day", *day as u64);
            fields.put_unsigned("hour", *hour as u64);
            fields.put_unsigned("minute", *minute as u64);
            fields.put_unsigned("second", *second as u64);
            fields.put_unsigned("microsecond", *microsecond as u64);
        },
        LogicalValue::Duration { negative, hours, minutes, seconds, microsecond } => {
            fields.put_text("type", "duration");
            fields.put_bool("negative", *negative);
            fields.put_unsigned("hours", *hours);
            fields.put_unsigned("minutes", *minutes as u64);
            fields.put_unsigned("seconds", *seconds as u64);
            fields.put_unsigned("microsecond", *microsecond as u64);
        },
        LogicalValue::Instant { unix_seconds, nanoseconds } => {
            fields.put_text("type", "instant");
            fields.put_text("unix_seconds", unix_seconds.as_str());
            fields.put_unsigned("nanoseconds", *nanoseconds as u64);
        },
        LogicalValue::Year { value } => {
            fields.put_text("type", "year");
            fields.put_unsigned("value", *value as u64);
        },
        LogicalValue::Enum { label } => {
            fields.put_text("type", "enum");
            fields.put_text("label", label.as_str());
        },
        LogicalValue::SetValue { members } => {
            fields.put_text("type", "set");
            fields.put("members", sorted_text_array(members));
        },
        LogicalValue::Spatial { format, bytes_base64url, geometry_type, dimensions, srid, crs } => {
            fields.put_text("type", "spatial");
            fields.put("format", format.to_json());
            fields.put_text("bytes_base64url", bytes_base64url.as_str());
            fields.put_text("geometry_type", geometry_type.as_str());
            fields.put_unsigned("dimensions", *dimensions as u64);
            match srid {
                Some(v) => fields.put_signed("srid", *v as i64),
                None => fields.put("srid", Json::Null),
            }
            fields.put_optional_text("crs", crs);
        },
        LogicalValue::Array { elements } => {
            fields.put_text("type", "array");
            let mut items: Vec<Json> = Vec::new();
            let mut i: usize = 0;
            while i < elements.len()
                invariant
                    i <= elements@.len(),
                    decreases_to!(*value => *elements),
                    items@.len() == i,
                    forall|k: int|
                        0 <= k < i ==> (#[trigger] items@[k])@
                            == canonical_value_doc(elements@[k]),
                decreases elements@.len() - i,
            {
                items.push(canonical_value_json(&elements[i]));
                i += 1;
            }
            fields.put("elements", array(items));
            assert(canonical_value_doc(*value)->Obj_0[1].1->Arr_0 =~= docs_of(items@));
        },
        LogicalValue::Struct { fields: fields_list } => {
            fields.put_text("type", "struct");
            let mut items: Vec<Json> = Vec::new();
            let mut i: usize = 0;
            while i < fields_list.len()
                invariant
                    i <= fields_list@.len(),
                    decreases_to!(*value => *fields_list),
                    items@.len() == i,
                    forall|k: int|
                        0 <= k < i ==> (#[trigger] items@[k])@
                            == field_doc(fields_list@[k].name@, canonical_value_doc(fields_list@[k].value)),
                decreases fields_list@.len() - i,
            {
                let mut member = Fields::new();
                member.put_text("name", fields_list[i].name.as_str());
                member.put("value", canonical_value_json(&fields_list[i].value));
                items.push(member.finish());
                i += 1;
            }
            fields.put("fields", array(items));
            assert(canonical_value_doc(*value)->Obj_0[1].1->Arr_0 =~= docs_of(items@));
        },
        LogicalValue::MapValue { entries } => {
            fields.put_text("type", "map");
            let mut items: Vec<Keyed<Json>> = Vec::new();
            let mut i: usize = 0;
            assert(keyed_of(items@) =~= canonical_entries(entries@.take(0)));
            while i < entries.len()
                invariant
                    i <= entries@.len(),
                    decreases_to!(*value => *entries),
                    items@.len() == i,
                    keyed_of(items@) == canonical_entries(entries@.take(i as int)),
                decreases entries@.len() - i,
            {
                let key = canonical_value_json(&entries[i].key);
                let sort_key = digest_json(&key);
                let mut member = Fields::new();
                member.put("key", key);
                member.put("value", canonical_value_json(&entries[i].value));
                let ghost before = keyed_of(items@);
                items.push(Keyed { key: sort_key, item: member.finish() });
                assert(entries@.take(i + 1).drop_last() =~= entries@.take(i as int));
                assert(keyed_of(items@) =~= before.push((sort_key@, items@[i as int].item@)));
                i += 1;
            }
            assert(entries@.take(i as int) =~= entries@);
            fields.put("entries", array(sort_documents(items)));
        },
        LogicalValue::Range { empty, lower, upper, lower_inclusive, upper_inclusive } => {
            fields.put_text("type", "range");
            fields.put_bool("empty", *empty);
            match lower {
                Some(bound) => fields.put("lower", canonical_value_json(bound)),
                None => fields.put("lower", Json::Null),
            }
            match upper {
                Some(bound) => fields.put("upper", canonical_value_json(bound)),
                None => fields.put("upper", Json::Null),
            }
            fields.put_bool("lower_inclusive", *lower_inclusive);
            fields.put_bool("upper_inclusive", *upper_inclusive);
        },
        LogicalValue::MultiRange { ranges } => {
            fields.put_text("type", "multi_range");
            let mut items: Vec<Json> = Vec::new();
            let mut i: usize = 0;
            while i < ranges.len()
                invariant
                    i <= ranges@.len(),
                    decreases_to!(*value => *ranges),
                    items@.len() == i,
                    forall|k: int|
                        0 <= k < i ==> (#[trigger] items@[k])@
                            == canonical_value_doc(ranges@[k]),
                decreases ranges@.len() - i,
            {
                items.push(canonical_value_json(&ranges[i]));
                i += 1;
            }
            fields.put("ranges", array(items));
            assert(canonical_value_doc(*value)->Obj_0[1].1->Arr_0 =~= docs_of(items@));
        },
        LogicalValue::ArrayWithMetadata { elements, dimensions, lower_bounds } => {
            fields.put_text("type", "array_with_metadata");
            let mut items: Vec<Json> = Vec::new();
            let mut i: usize = 0;
            while i < elements.len()
                invariant
                    i <= elements@.len(),
                    decreases_to!(*value => *elements),
                    items@.len() == i,
                    forall|k: int|
                        0 <= k < i ==> (#[trigger] items@[k])@
                            == canonical_value_doc(elements@[k]),
                decreases elements@.len() - i,
            {
                items.push(canonical_value_json(&elements[i]));
                i += 1;
            }
            fields.put("elements", array(items));
            assert(canonical_value_doc(*value)->Obj_0[1].1->Arr_0 =~= docs_of(items@));
            fields.put_unsigned("dimensions", *dimensions as u64);
            fields.put("lower_bounds", int_array(lower_bounds));
        },
        LogicalValue::InvalidTemporal { kind, raw } => {
            fields.put_text("type", "invalid_temporal");
            fields.put_text("kind", kind.as_str());
            fields.put_text("raw", raw.as_str());
        },
        LogicalValue::Network { family, address, prefix_length } => {
            fields.put_text("type", "network");
            fields.put_text("family", family.as_str());
            fields.put_text("address", address.as_str());
            if let Some(v) = prefix_length {
                fields.put_unsigned("prefix_length", *v as u64);
            }
        },
        LogicalValue::Xml { bytes_base64url, text } => {
            fields.put_text("type", "xml");
            fields.put_text("bytes_base64url", bytes_base64url.as_str());
            fields.put_present_text("text", text);
        },
        LogicalValue::Domain { value } => {
            fields.put_text("type", "domain");
            fields.put("value", canonical_value_json(value));
        },
        LogicalValue::Raw { carrier } => {
            fields.put_text("type", "raw");
            fields.put("carrier", carrier.to_json());
        },
        LogicalValue::Json { value } => {
            fields.put_text("type", "json");
            fields.put("value", canonical_json_value(value));
        },
    }
    fields.finish()
}

fn copy_json_value(value: &JsonValue) -> (result: JsonValue)
    ensures
        json_value_doc(result) == json_value_doc(*value),
    decreases value,
{
    match value {
        JsonValue::Null => JsonValue::Null,
        JsonValue::Boolean(value) => JsonValue::Boolean(*value),
        JsonValue::String(text) => JsonValue::String(text.clone()),
        JsonValue::SignedInteger(text) => JsonValue::SignedInteger(text.clone()),
        JsonValue::UnsignedInteger(text) => JsonValue::UnsignedInteger(text.clone()),
        JsonValue::DoubleBits(text) => JsonValue::DoubleBits(text.clone()),
        JsonValue::Decimal { unscaled, scale } => JsonValue::Decimal {
            unscaled: unscaled.clone(),
            scale: *scale,
        },
        JsonValue::Array(list) => {
            let mut items: Vec<JsonValue> = Vec::new();
            let mut i: usize = 0;
            while i < list.len()
                invariant
                    i <= list@.len(),
                    decreases_to!(*value => *list),
                    items@.len() == i,
                    forall|k: int|
                        0 <= k < i ==> json_value_doc(#[trigger] items@[k]) == json_value_doc(
                            list@[k],
                        ),
                decreases list@.len() - i,
            {
                items.push(copy_json_value(&list[i]));
                i += 1;
            }
            let result = JsonValue::Array(items);
            assert(json_value_doc(result)->Obj_0[1].1->Arr_0
                =~= json_value_doc(*value)->Obj_0[1].1->Arr_0);
            result
        },
        JsonValue::Object(entries) => {
            let mut items: Vec<JsonEntry> = Vec::new();
            let mut i: usize = 0;
            while i < entries.len()
                invariant
                    i <= entries@.len(),
                    decreases_to!(*value => *entries),
                    items@.len() == i,
                    forall|k: int|
                        0 <= k < i ==> (#[trigger] items@[k]).key == entries@[k].key
                            && json_value_doc(items@[k].value) == json_value_doc(entries@[k].value),
                decreases entries@.len() - i,
            {
                items.push(
                    JsonEntry {
                        key: entries[i].key.clone(),
                        value: copy_json_value(&entries[i].value),
                    },
                );
                i += 1;
            }
            let result = JsonValue::Object(items);
            assert(json_value_doc(result)->Obj_0[1].1->Arr_0
                =~= json_value_doc(*value)->Obj_0[1].1->Arr_0);
            result
        },
    }
}

pub(crate) fn copy_ints(list: &Vec<i32>) -> (result: Vec<i32>)
    ensures
        result@ == list@,
{
    let mut result: Vec<i32> = Vec::new();
    let mut i: usize = 0;
    while i < list.len()
        invariant
            i <= list@.len(),
            result@ == list@.take(i as int),
        decreases list@.len() - i,
    {
        result.push(list[i]);
        i += 1;
        assert(result@ =~= list@.take(i as int));
    }
    assert(list@.take(i as int) =~= list@);
    result
}

fn copy_value(value: &LogicalValue) -> (result: LogicalValue)
    ensures
        logical_value_doc(result) == logical_value_doc(*value),
    decreases value,
{
    match value {
        LogicalValue::Null => LogicalValue::Null,
        LogicalValue::Boolean { value } => LogicalValue::Boolean {
            value: *value,
        },
        LogicalValue::Uuid { value } => LogicalValue::Uuid {
            value: value.clone(),
        },
        LogicalValue::Integer { signed, bits, value } => LogicalValue::Integer {
            signed: *signed,
            bits: *bits,
            value: value.clone(),
        },
        LogicalValue::Decimal { unscaled, scale } => LogicalValue::Decimal {
            unscaled: unscaled.clone(),
            scale: *scale,
        },
        LogicalValue::Float { bits, ieee754_hex } => LogicalValue::Float {
            bits: *bits,
            ieee754_hex: ieee754_hex.clone(),
        },
        LogicalValue::Text { charset, bytes_base64url, text } => LogicalValue::Text {
            charset: charset.clone(),
            bytes_base64url: bytes_base64url.clone(),
            text: text.clone(),
        },
        LogicalValue::Binary { bytes_base64url } => LogicalValue::Binary {
            bytes_base64url: bytes_base64url.clone(),
        },
        LogicalValue::BitString { bytes_base64url, bit_length, padding, bit_order } => LogicalValue::BitString {
            bytes_base64url: bytes_base64url.clone(),
            bit_length: *bit_length,
            padding: padding.duplicate(),
            bit_order: bit_order.duplicate(),
        },
        LogicalValue::Date { year, month, day } => LogicalValue::Date {
            year: *year,
            month: *month,
            day: *day,
        },
        LogicalValue::LocalTime { hour, minute, second, microsecond } => LogicalValue::LocalTime {
            hour: *hour,
            minute: *minute,
            second: *second,
            microsecond: *microsecond,
        },
        LogicalValue::LocalDatetime { year, month, day, hour, minute, second, microsecond } => LogicalValue::LocalDatetime {
            year: *year,
            month: *month,
            day: *day,
            hour: *hour,
            minute: *minute,
            second: *second,
            microsecond: *microsecond,
        },
        LogicalValue::Duration { negative, hours, minutes, seconds, microsecond } => LogicalValue::Duration {
            negative: *negative,
            hours: *hours,
            minutes: *minutes,
            seconds: *seconds,
            microsecond: *microsecond,
        },
        LogicalValue::Instant { unix_seconds, nanoseconds } => LogicalValue::Instant {
            unix_seconds: unix_seconds.clone(),
            nanoseconds: *nanoseconds,
        },
        LogicalValue::Year { value } => LogicalValue::Year {
            value: *value,
        },
        LogicalValue::Enum { label } => LogicalValue::Enum {
            label: label.clone(),
        },
        LogicalValue::SetValue { members } => LogicalValue::SetValue {
            members: duplicate_texts(members),
        },
        LogicalValue::Spatial { format, bytes_base64url, geometry_type, dimensions, srid, crs } => LogicalValue::Spatial {
            format: format.duplicate(),
            bytes_base64url: bytes_base64url.clone(),
            geometry_type: geometry_type.clone(),
            dimensions: *dimensions,
            srid: *srid,
            crs: crs.clone(),
        },
        LogicalValue::Array { elements } => {
            let mut items: Vec<LogicalValue> = Vec::new();
            let mut i: usize = 0;
            while i < elements.len()
                invariant
                    i <= elements@.len(),
                    decreases_to!(*value => *elements),
                    items@.len() == i,
                    forall|k: int|
                        0 <= k < i ==> logical_value_doc(#[trigger] items@[k])
                            == logical_value_doc(elements@[k]),
                decreases elements@.len() - i,
            {
                items.push(copy_value(&elements[i]));
                i += 1;
            }
            let result = LogicalValue::Array { elements: items };
            assert(logical_value_doc(result)->Obj_0[1].1->Arr_0
                =~= logical_value_doc(*value)->Obj_0[1].1->Arr_0);
            result
        },
        LogicalValue::Struct { fields } => {
            let mut items: Vec<StructuredField> = Vec::new();
            let mut i: usize = 0;
            while i < fields.len()
                invariant
                    i <= fields@.len(),
                    decreases_to!(*value => *fields),
                    items@.len() == i,
                    forall|k: int|
                        0 <= k < i ==> (#[trigger] items@[k]).name
                            == fields@[k].name
                            && logical_value_doc(items@[k].value)
                            == logical_value_doc(fields@[k].value),
                decreases fields@.len() - i,
            {
                items.push(StructuredField { name: fields[i].name.clone(), value: copy_value(&fields[i].value) });
                i += 1;
            }
            let result = LogicalValue::Struct { fields: items };
            assert(logical_value_doc(result)->Obj_0[1].1->Arr_0
                =~= logical_value_doc(*value)->Obj_0[1].1->Arr_0);
            result
        },
        LogicalValue::MapValue { entries } => {
            let mut items: Vec<MapEntry> = Vec::new();
            let mut i: usize = 0;
            while i < entries.len()
                invariant
                    i <= entries@.len(),
                    decreases_to!(*value => *entries),
                    items@.len() == i,
                    forall|k: int|
                        0 <= k < i ==> logical_value_doc((#[trigger] items@[k]).key)
                            == logical_value_doc(entries@[k].key)
                            && logical_value_doc(items@[k].value)
                            == logical_value_doc(entries@[k].value),
                decreases entries@.len() - i,
            {
                items.push(MapEntry { key: copy_value(&entries[i].key), value: copy_value(&entries[i].value) });
                i += 1;
            }
            let result = LogicalValue::MapValue { entries: items };
            assert(logical_value_doc(result)->Obj_0[1].1->Arr_0
                =~= logical_value_doc(*value)->Obj_0[1].1->Arr_0);
            result
        },
        LogicalValue::Range { empty, lower, upper, lower_inclusive, upper_inclusive } => LogicalValue::Range {
            empty: *empty,
            lower: match lower {
                Some(bound) => Some(Box::new(copy_value(bound))),
                None => None,
            },
            upper: match upper {
                Some(bound) => Some(Box::new(copy_value(bound))),
                None => None,
            },
            lower_inclusive: *lower_inclusive,
            upper_inclusive: *upper_inclusive,
        },
        LogicalValue::MultiRange { ranges } => {
            let mut items: Vec<LogicalValue> = Vec::new();
            let mut i: usize = 0;
            while i < ranges.len()
                invariant
                    i <= ranges@.len(),
                    decreases_to!(*value => *ranges),
                    items@.len() == i,
                    forall|k: int|
                        0 <= k < i ==> logical_value_doc(#[trigger] items@[k])
                            == logical_value_doc(ranges@[k]),
                decreases ranges@.len() - i,
            {
                items.push(copy_value(&ranges[i]));
                i += 1;
            }
            let result = LogicalValue::MultiRange { ranges: items };
            assert(logical_value_doc(result)->Obj_0[1].1->Arr_0
                =~= logical_value_doc(*value)->Obj_0[1].1->Arr_0);
            result
        },
        LogicalValue::ArrayWithMetadata { elements, dimensions, lower_bounds } => {
            let mut items: Vec<LogicalValue> = Vec::new();
            let mut i: usize = 0;
            while i < elements.len()
                invariant
                    i <= elements@.len(),
                    decreases_to!(*value => *elements),
                    items@.len() == i,
                    forall|k: int|
                        0 <= k < i ==> logical_value_doc(#[trigger] items@[k])
                            == logical_value_doc(elements@[k]),
                decreases elements@.len() - i,
            {
                items.push(copy_value(&elements[i]));
                i += 1;
            }
            let bounds = copy_ints(lower_bounds);
            let result = LogicalValue::ArrayWithMetadata { elements: items, dimensions: *dimensions, lower_bounds: bounds };
            assert(logical_value_doc(result)->Obj_0[1].1->Arr_0
                =~= logical_value_doc(*value)->Obj_0[1].1->Arr_0);
            result
        },
        LogicalValue::InvalidTemporal { kind, raw } => LogicalValue::InvalidTemporal {
            kind: kind.clone(),
            raw: raw.clone(),
        },
        LogicalValue::Network { family, address, prefix_length } => LogicalValue::Network {
            family: family.clone(),
            address: address.clone(),
            prefix_length: *prefix_length,
        },
        LogicalValue::Xml { bytes_base64url, text } => LogicalValue::Xml {
            bytes_base64url: bytes_base64url.clone(),
            text: text.clone(),
        },
        LogicalValue::Domain { value } => LogicalValue::Domain {
            value: Box::new(copy_value(value)),
        },
        LogicalValue::Raw { carrier } => LogicalValue::Raw {
            carrier: carrier.duplicate(),
        },
        LogicalValue::Json { value } => LogicalValue::Json {
            value: copy_json_value(value),
        },
    }
}

impl Contract for JsonValue {
    open spec fn doc(&self) -> Doc {
        json_value_doc(*self)
    }

    fn to_json(&self) -> (result: Json) {
        json_value(self)
    }

    fn duplicate(&self) -> (result: Self) {
        copy_json_value(self)
    }
}

impl Clone for JsonValue {
    fn clone(&self) -> (result: Self)
        ensures
            result.doc() == self.doc(),
    {
        self.duplicate()
    }
}

impl Contract for LogicalValue {
    open spec fn doc(&self) -> Doc {
        logical_value_doc(*self)
    }

    fn to_json(&self) -> (result: Json) {
        logical_value_json(self)
    }

    fn duplicate(&self) -> (result: Self) {
        copy_value(self)
    }
}

impl Clone for LogicalValue {
    fn clone(&self) -> (result: Self)
        ensures
            result.doc() == self.doc(),
    {
        self.duplicate()
    }
}

impl Contract for JsonEntry {
    open spec fn doc(&self) -> Doc {
        let members = Seq::<(Seq<char>, Doc)>::empty();
        let members = members.push(("key"@, Doc::Str(self.key@)));
        let members = members.push(("value"@, self.value.doc()));
        Doc::Obj(members)
    }

    fn to_json(&self) -> (result: Json) {
        let mut fields = Fields::new();
        fields.put_text("key", self.key.as_str());
        fields.put("value", self.value.to_json());
        fields.finish()
    }

    fn duplicate(&self) -> (result: Self) {
        JsonEntry {
            key: self.key.clone(),
            value: self.value.duplicate(),
        }
    }
}

impl Clone for JsonEntry {
    fn clone(&self) -> (result: Self)
        ensures
            result.doc() == self.doc(),
    {
        self.duplicate()
    }
}

impl Contract for StructuredField {
    open spec fn doc(&self) -> Doc {
        let members = Seq::<(Seq<char>, Doc)>::empty();
        let members = members.push(("name"@, Doc::Str(self.name@)));
        let members = members.push(("value"@, self.value.doc()));
        Doc::Obj(members)
    }

    fn to_json(&self) -> (result: Json) {
        let mut fields = Fields::new();
        fields.put_text("name", self.name.as_str());
        fields.put("value", self.value.to_json());
        fields.finish()
    }

    fn duplicate(&self) -> (result: Self) {
        StructuredField {
            name: self.name.clone(),
            value: self.value.duplicate(),
        }
    }
}

impl Clone for StructuredField {
    fn clone(&self) -> (result: Self)
        ensures
            result.doc() == self.doc(),
    {
        self.duplicate()
    }
}

impl Contract for MapEntry {
    open spec fn doc(&self) -> Doc {
        let members = Seq::<(Seq<char>, Doc)>::empty();
        let members = members.push(("key"@, self.key.doc()));
        let members = members.push(("value"@, self.value.doc()));
        Doc::Obj(members)
    }

    fn to_json(&self) -> (result: Json) {
        let mut fields = Fields::new();
        fields.put("key", self.key.to_json());
        fields.put("value", self.value.to_json());
        fields.finish()
    }

    fn duplicate(&self) -> (result: Self) {
        MapEntry {
            key: self.key.duplicate(),
            value: self.value.duplicate(),
        }
    }
}

impl Clone for MapEntry {
    fn clone(&self) -> (result: Self)
        ensures
            result.doc() == self.doc(),
    {
        self.duplicate()
    }
}

impl RawValueCarrier {
    pub fn new(
        codec_identity: &str,
        native_type: &str,
        source_definition_digest: &str,
        encoding: &str,
        raw_bytes_base64url: &str,
        canonical_text: Option<&str>,
    ) -> (result: Self)
        ensures
            result.codec_identity@ == codec_identity@,
            result.native_type@ == native_type@,
            result.source_definition_digest@ == source_definition_digest@,
            result.encoding@ == encoding@,
            result.raw_bytes_base64url@ == raw_bytes_base64url@,
            match (result.canonical_text, canonical_text) {
                (Some(stored), Some(given)) => stored@ == given@,
                (None, None) => true,
                _ => false,
            },
    {
        Self {
            codec_identity: codec_identity.to_owned(),
            native_type: native_type.to_owned(),
            source_definition_digest: source_definition_digest.to_owned(),
            encoding: encoding.to_owned(),
            raw_bytes_base64url: raw_bytes_base64url.to_owned(),
            canonical_text: match canonical_text {
                Some(text) => Some(text.to_owned()),
                None => None,
            },
        }
    }

    /// The first identifying field that is blank or holds a NUL.
    pub open spec fn missing_evidence(&self) -> Option<Seq<char>> {
        if !evidence(self.codec_identity@) {
            Some("codec_identity"@)
        } else if !evidence(self.native_type@) {
            Some("native_type"@)
        } else if !evidence(self.source_definition_digest@) {
            Some("source_definition_digest"@)
        } else if !evidence(self.encoding@) {
            Some("encoding"@)
        } else {
            None
        }
    }

    /// What is wrong with the carrier.
    pub open spec fn fault(&self) -> Option<CarrierFault> {
        match self.missing_evidence() {
            Some(field) => Some(CarrierFault::MissingEvidence(field)),
            None => if base64url_decoded(self.raw_bytes_base64url@) is None {
                Some(CarrierFault::InvalidBytes)
            } else {
                None
            },
        }
    }

    pub fn validate(&self) -> (result: Result<(), RawValueCarrierError>)
        ensures
            match result {
                Ok(_) => self.fault() is None,
                Err(error) => self.fault() == Some(error.fault()),
            },
    {
        if !has_evidence(self.codec_identity.as_str()) {
            return Err(RawValueCarrierError::MissingEvidence { field: "codec_identity" });
        }
        if !has_evidence(self.native_type.as_str()) {
            return Err(RawValueCarrierError::MissingEvidence { field: "native_type" });
        }
        if !has_evidence(self.source_definition_digest.as_str()) {
            return Err(RawValueCarrierError::MissingEvidence { field: "source_definition_digest" });
        }
        if !has_evidence(self.encoding.as_str()) {
            return Err(RawValueCarrierError::MissingEvidence { field: "encoding" });
        }
        match base64url_decode(self.raw_bytes_base64url.as_str()) {
            Some(_) => Ok(()),
            None => Err(RawValueCarrierError::InvalidBytes),
        }
    }

    pub fn stable_digest(&self) -> (result: String)
        ensures
            result@ == digest(self.doc()),
            digest_spelling(result@),
    {
        stable_digest(self)
    }

    pub fn raw_bytes(&self) -> (result: Result<Vec<u8>, RawValueCarrierError>)
        ensures
            match result {
                Ok(bytes) => self.fault() is None && base64url_decoded(self.raw_bytes_base64url@)
                    == Some(bytes@),
                Err(error) => self.fault() == Some(error.fault()),
            },
    {
        match self.validate() {
            Ok(_) => {},
            Err(error) => {
                return Err(error);
            },
        }
        match base64url_decode(self.raw_bytes_base64url.as_str()) {
            Some(bytes) => Ok(bytes),
            None => Err(RawValueCarrierError::InvalidBytes),
        }
    }
}

/// A text that identifies something: not blank and without NUL.
pub open spec fn evidence(text: Seq<char>) -> bool {
    trim(text).len() > 0 && !text.contains('\0')
}

pub(crate) fn has_evidence(text: &str) -> (result: bool)
    ensures
        result == evidence(text@),
{
    let kept = trimmed(text);
    !kept.as_str().is_empty() && !contains_char(text, '\0')
}

/// What can be wrong with a carrier.
pub enum CarrierFault {
    MissingEvidence(Seq<char>),
    InvalidBytes,
}

#[derive(Debug, Clone, Copy, PartialEq, Eq)]
pub enum RawValueCarrierError {
    MissingEvidence { field: &'static str },
    InvalidBytes,
}

impl RawValueCarrierError {
    pub open spec fn fault(self) -> CarrierFault {
        match self {
            RawValueCarrierError::MissingEvidence { field } => CarrierFault::MissingEvidence(
                field@,
            ),
            RawValueCarrierError::InvalidBytes => CarrierFault::InvalidBytes,
        }
    }

    pub fn code(self) -> (result: &'static str)
        ensures
            result@ == carrier_fault_code(self.fault()),
    {
        match self {
            Self::MissingEvidence { .. } => "raw_value_carrier.missing_evidence",
            Self::InvalidBytes => "raw_value_carrier.invalid_bytes",
        }
    }

    /// The message of the error.
    pub fn message(self) -> (result: String)
        ensures
            result@ == carrier_fault_message(self.fault()),
    {
        match self {
            Self::MissingEvidence { field } => concat("raw value carrier is missing ", field),
            Self::InvalidBytes => "raw value carrier bytes are invalid base64url".to_owned(),
        }
    }
}

pub open spec fn carrier_fault_code(fault: CarrierFault) -> Seq<char> {
    match fault {
        CarrierFault::MissingEvidence(_) => "raw_value_carrier.missing_evidence"@,
        CarrierFault::InvalidBytes => "raw_value_carrier.invalid_bytes"@,
    }
}

pub open spec fn carrier_fault_message(fault: CarrierFault) -> Seq<char> {
    match fault {
        CarrierFault::MissingEvidence(field) => "raw value carrier is missing "@ + field,
        CarrierFault::InvalidBytes => "raw value carrier bytes are invalid base64url"@,
    }
}

impl LogicalValue {
    /// The digest of the value in its canonical form.
    pub fn stable_digest(&self) -> (result: String)
        ensures
            result@ == digest(canonical_value_doc(*self)),
            digest_spelling(result@),
    {
        let json = canonical_value_json(self);
        digest_json(&json)
    }
}

/// The order of an object's members is no part of its content: objects that
/// have the same members, each by its key and the canonical form of its value,
/// have one digest.
pub proof fn law_json_members_have_no_order(a: Vec<JsonEntry>, b: Vec<JsonEntry>)
    requires
        distinct_keys(canonical_members(a@)),
        canonical_members(a@).to_multiset() == canonical_members(b@).to_multiset(),
    ensures
        digest(
            canonical_value_doc(LogicalValue::Json { value: JsonValue::Object(a) }),
        ) == digest(canonical_value_doc(LogicalValue::Json { value: JsonValue::Object(b) })),
{
    law_sort_ignores_order(canonical_members(a@), canonical_members(b@));
}

/// The order of a set's members is no part of its content.
pub proof fn law_set_members_have_no_order(a: Vec<String>, b: Vec<String>)
    requires
        distinct_keys(member_pairs(a@)),
        member_pairs(a@).to_multiset() == member_pairs(b@).to_multiset(),
    ensures
        digest(canonical_value_doc(LogicalValue::SetValue { members: a })) == digest(
            canonical_value_doc(LogicalValue::SetValue { members: b }),
        ),
{
    law_sort_ignores_order(member_pairs(a@), member_pairs(b@));
}

/// The order of a map's entries is no part of its content, where no two keys
/// have one digest: maps that have the same entries, each by the canonical
/// forms of its key and its value, have one digest.
pub proof fn law_map_entries_have_no_order(a: Vec<MapEntry>, b: Vec<MapEntry>)
    requires
        distinct_keys(canonical_entries(a@)),
        canonical_entries(a@).to_multiset() == canonical_entries(b@).to_multiset(),
    ensures
        digest(canonical_value_doc(LogicalValue::MapValue { entries: a })) == digest(
            canonical_value_doc(LogicalValue::MapValue { entries: b }),
        ),
{
    law_sort_ignores_order(canonical_entries(a@), canonical_entries(b@));
}

/// What is known of one column in one row image.
#[derive(Debug)]
pub enum Datum {
    /// No historical value was supplied by the source.
    Unavailable,
    /// UPDATE retains the previous value (e.g. unchanged TOAST).
    Unchanged,
    Null,
    Value(LogicalValue),
}

/// The members that a datum contributes to its column, given the form of its
/// value.
pub open spec fn with_datum(
    members: Seq<(Seq<char>, Doc)>,
    datum: Datum,
    value: Doc,
) -> Seq<(Seq<char>, Doc)> {
    match datum {
        Datum::Unavailable => members.push(("presence"@, Doc::Str("unavailable"@))),
        Datum::Unchanged => members.push(("presence"@, Doc::Str("unchanged"@))),
        Datum::Null => members.push(("presence"@, Doc::Str("null"@))),
        Datum::Value(_) => members.push(("presence"@, Doc::Str("value"@))).push(
            ("value"@, value),
        ),
    }
}

pub open spec fn datum_value_doc(datum: Datum) -> Doc {
    match datum {
        Datum::Value(value) => logical_value_doc(value),
        _ => Doc::Null,
    }
}

pub open spec fn canonical_datum_doc(datum: Datum) -> Doc {
    match datum {
        Datum::Value(value) => canonical_value_doc(value),
        _ => Doc::Null,
    }
}

fn put_datum(fields: &mut Fields, datum: &Datum, canonical: bool)
    ensures
        final(fields)@ == with_datum(
            old(fields)@,
            *datum,
            if canonical {
                canonical_datum_doc(*datum)
            } else {
                datum_value_doc(*datum)
            },
        ),
{
    match datum {
        Datum::Unavailable => fields.put_text("presence", "unavailable"),
        Datum::Unchanged => fields.put_text("presence", "unchanged"),
        Datum::Null => fields.put_text("presence", "null"),
        Datum::Value(value) => {
            fields.put_text("presence", "value");
            if canonical {
                fields.put("value", canonical_value_json(value));
            } else {
                fields.put("value", logical_value_json(value));
            }
        },
    }
}

impl Contract for Datum {
    open spec fn doc(&self) -> Doc {
        Doc::Obj(
            with_datum(Seq::<(Seq<char>, Doc)>::empty(), *self, datum_value_doc(*self)),
        )
    }

    fn to_json(&self) -> (result: Json) {
        let mut fields = Fields::new();
        put_datum(&mut fields, self, false);
        fields.finish()
    }

    fn duplicate(&self) -> (result: Self) {
        copy_datum(self)
    }
}

fn copy_datum(datum: &Datum) -> (result: Datum)
    ensures
        result is Unavailable == *datum is Unavailable,
        result is Unchanged == *datum is Unchanged,
        result is Null == *datum is Null,
        result is Value == *datum is Value,
        datum_value_doc(result) == datum_value_doc(*datum),
{
    match datum {
        Datum::Unavailable => Datum::Unavailable,
        Datum::Unchanged => Datum::Unchanged,
        Datum::Null => Datum::Null,
        Datum::Value(value) => Datum::Value(value.duplicate()),
    }
}

impl Clone for Datum {
    fn clone(&self) -> (result: Self)
        ensures
            result.doc() == self.doc(),
    {
        self.duplicate()
    }
}

/// One column of a row image.
#[derive(Debug)]
pub struct ColumnDatum {
    /// Zero-based ordinal in the source table, independent of the image bitmap.
    pub ordinal: usize,
    pub name: String,
    pub native_type: String,
    /// Zero-based position within the primary key; None means not a key column.
    pub primary_key_ordinal: Option<usize>,
    pub generated: bool,
    pub collation: Option<String>,
    pub datum: Datum,
}

/// The form of a column, given the form of its value.
pub open spec fn column_doc(column: ColumnDatum, value: Doc) -> Doc {
    let members = Seq::<(Seq<char>, Doc)>::empty();
    let members = members.push(("ordinal"@, Doc::Int(column.ordinal as int)));
    let members = members.push(("name"@, Doc::Str(column.name@)));
    let members = members.push(("native_type"@, Doc::Str(column.native_type@)));
    let members = members.push(
        (
            "primary_key_ordinal"@,
            match column.primary_key_ordinal {
                Some(v) => Doc::Int(v as int),
                None => Doc::Null,
            },
        ),
    );
    let members = members.push(("generated"@, Doc::Bool(column.generated)));
    let members = members.push(("collation"@, optional_text_doc(column.collation)));
    Doc::Obj(with_datum(members, column.datum, value))
}

fn column_json(column: &ColumnDatum, canonical: bool) -> (result: Json)
    ensures
        result@ == column_doc(
            *column,
            if canonical {
                canonical_datum_doc(column.datum)
            } else {
                datum_value_doc(column.datum)
            },
        ),
{
    let mut fields = Fields::new();
    fields.put_unsigned("ordinal", column.ordinal as u64);
    fields.put_text("name", column.name.as_str());
    fields.put_text("native_type", column.native_type.as_str());
    match &column.primary_key_ordinal {
        Some(v) => fields.put_unsigned("primary_key_ordinal", *v as u64),
        None => fields.put("primary_key_ordinal", Json::Null),
    }
    fields.put_bool("generated", column.generated);
    fields.put_optional_text("collation", &column.collation);
    put_datum(&mut fields, &column.datum, canonical);
    fields.finish()
}

impl Contract for ColumnDatum {
    open spec fn doc(&self) -> Doc {
        column_doc(*self, datum_value_doc(self.datum))
    }

    fn to_json(&self) -> (result: Json) {
        column_json(self, false)
    }

    fn duplicate(&self) -> (result: Self) {
        ColumnDatum {
            ordinal: self.ordinal,
            name: self.name.clone(),
            native_type: self.native_type.clone(),
            primary_key_ordinal: self.primary_key_ordinal,
            generated: self.generated,
            collation: self.collation.clone(),
            datum: copy_datum(&self.datum),
        }
    }
}

impl Clone for ColumnDatum {
    fn clone(&self) -> (result: Self)
        ensures
            result.doc() == self.doc(),
    {
        self.duplicate()
    }
}

/// One changed row.
#[derive(Debug)]
pub struct RowChange {
    /// Optional source database/catalog.
    pub database: Option<String>,
    pub operation: Operation,
    pub schema: String,
    pub table: String,
    pub source_cursor: SourceCursor,
    pub source_timestamp: u32,
    /// Where the column definitions come from.
    pub schema_basis: String,
    pub before: Option<Vec<ColumnDatum>>,
    pub after: Option<Vec<ColumnDatum>>,
}

/// The forms of the columns of a row image.
pub open spec fn image_docs(image: Seq<ColumnDatum>, canonical: bool) -> Seq<Doc> {
    Seq::new(
        image.len(),
        |i: int|
            column_doc(
                image[i],
                if canonical {
                    canonical_datum_doc(image[i].datum)
                } else {
                    datum_value_doc(image[i].datum)
                },
            ),
    )
}

pub open spec fn optional_image_doc(image: Option<Vec<ColumnDatum>>, canonical: bool) -> Option<
    Doc,
> {
    match image {
        Some(columns) => Some(Doc::Arr(image_docs(columns@, canonical))),
        None => None,
    }
}

/// The members that a row change is written with.
pub open spec fn row_change_members(
    members: Seq<(Seq<char>, Doc)>,
    change: RowChange,
    canonical: bool,
) -> Seq<(Seq<char>, Doc)> {
    let members = with_present_text(members, "database"@, change.database);
    let members = members.push(("operation"@, change.operation.doc()));
    let members = members.push(("schema"@, Doc::Str(change.schema@)));
    let members = members.push(("table"@, Doc::Str(change.table@)));
    let members = members.push(("source_cursor"@, change.source_cursor.doc()));
    let members = members.push(("source_timestamp"@, Doc::Int(change.source_timestamp as int)));
    let members = members.push(("schema_basis"@, Doc::Str(change.schema_basis@)));
    let members = with_present(
        members,
        "before"@,
        optional_image_doc(change.before, canonical),
    );
    with_present(members, "after"@, optional_image_doc(change.after, canonical))
}

fn image_json(image: &Vec<ColumnDatum>, canonical: bool) -> (result: Json)
    ensures
        result@ == Doc::Arr(image_docs(image@, canonical)),
{
    let mut items: Vec<Json> = Vec::new();
    let mut i: usize = 0;
    while i < image.len()
        invariant
            i <= image@.len(),
            items@.len() == i,
            forall|k: int|
                0 <= k < i ==> (#[trigger] items@[k])@ == image_docs(image@, canonical)[k],
        decreases image@.len() - i,
    {
        items.push(column_json(&image[i], canonical));
        i += 1;
    }
    assert(docs_of(items@) =~= image_docs(image@, canonical));
    array(items)
}

pub(crate) fn put_row_change(fields: &mut Fields, change: &RowChange, canonical: bool)
    ensures
        final(fields)@ == row_change_members(old(fields)@, *change, canonical),
{
    fields.put_present_text("database", &change.database);
    fields.put("operation", change.operation.to_json());
    fields.put_text("schema", change.schema.as_str());
    fields.put_text("table", change.table.as_str());
    fields.put("source_cursor", change.source_cursor.to_json());
    fields.put_unsigned("source_timestamp", change.source_timestamp as u64);
    fields.put_text("schema_basis", change.schema_basis.as_str());
    if let Some(image) = &change.before {
        fields.put("before", image_json(image, canonical));
    }
    if let Some(image) = &change.after {
        fields.put("after", image_json(image, canonical));
    }
}

fn copy_image(image: &Option<Vec<ColumnDatum>>) -> (result: Option<Vec<ColumnDatum>>)
    ensures
        optional_image_doc(result, false) == optional_image_doc(*image, false),
{
    match image {
        Some(columns) => {
            let copy = duplicate_list(columns);
            assert(image_docs(copy@, false) =~= docs(copy@));
            assert(image_docs(columns@, false) =~= docs(columns@));
            Some(copy)
        },
        None => None,
    }
}

impl Contract for RowChange {
    open spec fn doc(&self) -> Doc {
        Doc::Obj(row_change_members(Seq::<(Seq<char>, Doc)>::empty(), *self, false))
    }

    fn to_json(&self) -> (result: Json) {
        let mut fields = Fields::new();
        put_row_change(&mut fields, self, false);
        fields.finish()
    }

    fn duplicate(&self) -> (result: Self) {
        RowChange {
            database: self.database.clone(),
            operation: self.operation,
            schema: self.schema.clone(),
            table: self.table.clone(),
            source_cursor: self.source_cursor.duplicate(),
            source_timestamp: self.source_timestamp,
            schema_basis: self.schema_basis.clone(),
            before: copy_image(&self.before),
            after: copy_image(&self.after),
        }
    }
}

impl Clone for RowChange {
    fn clone(&self) -> (result: Self)
        ensures
            result.doc() == self.doc(),
    {
        self.duplicate()
    }
}

/// An ordered, committed batch submitted by a database crate for validation.
#[derive(Debug)]
pub struct ChangeTransaction {
    pub source: Source,
    pub id: String,
    pub begin_cursor: SourceCursor,
    pub commit_cursor: SourceCursor,
    pub changes: Vec<RowChange>,
}

impl Contract for ChangeTransaction {
    open spec fn doc(&self) -> Doc {
        let members = Seq::<(Seq<char>, Doc)>::empty();
        let members = members.push(("source"@, self.source.doc()));
        let members = members.push(("id"@, Doc::Str(self.id@)));
        let members = members.push(("begin_cursor"@, self.begin_cursor.doc()));
        let members = members.push(("commit_cursor"@, self.commit_cursor.doc()));
        let members = members.push(("changes"@, Doc::Arr(docs(self.changes@))));
        Doc::Obj(members)
    }

    fn to_json(&self) -> (result: Json) {
        let mut fields = Fields::new();
        fields.put("source", self.source.to_json());
        fields.put_text("id", self.id.as_str());
        fields.put("begin_cursor", self.begin_cursor.to_json());
        fields.put("commit_cursor", self.commit_cursor.to_json());
        fields.put("changes", json_array(&self.changes));
        fields.finish()
    }

    fn duplicate(&self) -> (result: Self) {
        ChangeTransaction {
            source: self.source.duplicate(),
            id: self.id.clone(),
            begin_cursor: self.begin_cursor.duplicate(),
            commit_cursor: self.commit_cursor.duplicate(),
            changes: duplicate_list(&self.changes),
        }
    }
}

impl Clone for ChangeTransaction {
    fn clone(&self) -> (result: Self)
        ensures
            result.doc() == self.doc(),
    {
        self.duplicate()
    }
}

/// The form of a transaction with every value in its canonical form.
pub open spec fn canonical_transaction_doc(transaction: ChangeTransaction) -> Doc {
    let members = Seq::<(Seq<char>, Doc)>::empty();
    let members = members.push(("source"@, transaction.source.doc()));
    let members = members.push(("id"@, Doc::Str(transaction.id@)));
    let members = members.push(("begin_cursor"@, transaction.begin_cursor.doc()));
    let members = members.push(("commit_cursor"@, transaction.commit_cursor.doc()));
    let members = members.push(
        ("changes"@, Doc::Arr(canonical_change_docs(transaction.changes@))),
    );
    Doc::Obj(members)
}

pub open spec fn canonical_change_docs(changes: Seq<RowChange>) -> Seq<Doc> {
    Seq::new(
        changes.len(),
        |i: int|
            Doc::Obj(row_change_members(Seq::<(Seq<char>, Doc)>::empty(), changes[i], true)),
    )
}

impl ChangeTransaction {
    /// The digest of the transaction in its canonical form.
    pub fn content_digest(&self) -> (result: String)
        ensures
            result@ == digest(canonical_transaction_doc(*self)),
            digest_spelling(result@),
    {
        let mut items: Vec<Json> = Vec::new();
        let mut i: usize = 0;
        while i < self.changes.len()
            invariant
                i <= self.changes@.len(),
                items@.len() == i,
                forall|k: int|
                    0 <= k < i ==> (#[trigger] items@[k])@ == canonical_change_docs(
                        self.changes@,
                    )[k],
            decreases self.changes@.len() - i,
        {
            let mut fields = Fields::new();
            put_row_change(&mut fields, &self.changes[i], true);
            items.push(fields.finish());
            i += 1;
        }
        assert(docs_of(items@) =~= canonical_change_docs(self.changes@));
        let mut fields = Fields::new();
        fields.put("source", self.source.to_json());
        fields.put_text("id", self.id.as_str());
        fields.put("begin_cursor", self.begin_cursor.to_json());
        fields.put("commit_cursor", self.commit_cursor.to_json());
        fields.put("changes", array(items));
        digest_json(&fields.finish())
    }
}

} // verus!
