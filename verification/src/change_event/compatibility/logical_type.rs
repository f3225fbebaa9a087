//! The semantic family and portable constraints of one field.
use crate::change_event::compatibility::types::{blank, is_blank};
use crate::change_event::model::{evidence, has_evidence, ints_doc, LogicalValue};
use crate::change_event::model::{copy_ints, int_array};
use crate::encoding::{base64url_decode, base64url_decoded};
use crate::encoding::digest_spelling;
use crate::json::{
    array, digest, docs_of, duplicate_texts, stable_digest, text_array, texts_doc, with_present,
    with_present_text, with_present_texts, Contract, Doc, Fields, Json,
};
use crate::text::{
    byte_len, chars_of, contains_char, eq_ignore_case, same, same_ignoring_case, text_between,
};
use vstd::prelude::*;

verus! {

/// What a text length counts.
#[derive(Debug, Clone, Copy, PartialEq, Eq, Hash, Structural)]
pub enum LengthUnit {
    Bytes,
    Characters,
}

impl LengthUnit {
    /// The name that the value is written as.
    pub open spec fn label_spec(self) -> Seq<char> {
        match self {
            LengthUnit::Bytes => "bytes"@,
            LengthUnit::Characters => "characters"@,
        }
    }

    pub fn label(self) -> (result: &'static str)
        ensures
            result@ == self.label_spec(),
    {
        match self {
            LengthUnit::Bytes => "bytes",
            LengthUnit::Characters => "characters",
        }
    }
}

impl Contract for LengthUnit {
    open spec fn doc(&self) -> Doc {
        Doc::Str(self.label_spec())
    }

    fn to_json(&self) -> (result: Json) {
        Json::Text(self.label().to_owned())
    }

    fn duplicate(&self) -> (result: Self) {
        *self
    }
}

impl Default for LengthUnit {
    fn default() -> (result: Self)
        ensures
            result is Bytes,
    {
        LengthUnit::Bytes
    }
}

/// What a JSON reader does about a repeated key.
#[derive(Debug, Clone, Copy, PartialEq, Eq, Hash, Structural)]
pub enum DuplicateKeyPolicy {
    Reject,
    PreserveLast,
}

impl DuplicateKeyPolicy {
    /// The name that the value is written as.
    pub open spec fn label_spec(self) -> Seq<char> {
        match self {
            DuplicateKeyPolicy::Reject => "reject"@,
            DuplicateKeyPolicy::PreserveLast => "preserve_last"@,
        }
    }

    pub fn label(self) -> (result: &'static str)
        ensures
            result@ == self.label_spec(),
    {
        match self {
            DuplicateKeyPolicy::Reject => "reject",
            DuplicateKeyPolicy::PreserveLast => "preserve_last",
        }
    }
}

impl Contract for DuplicateKeyPolicy {
    open spec fn doc(&self) -> Doc {
        Doc::Str(self.label_spec())
    }

    fn to_json(&self) -> (result: Json) {
        Json::Text(self.label().to_owned())
    }

    fn duplicate(&self) -> (result: Self) {
        *self
    }
}

/// Target-side JSON representation selected by a Column Conversion Plan.
/// Raw source spelling is not available in the normalized value.
#[derive(Debug, Clone, Copy, PartialEq, Eq, Hash, Structural)]
pub enum JsonRepresentationStrategy {
    Structured,
    NormalizedText,
    RawText,
}

impl JsonRepresentationStrategy {
    /// The name that the value is written as.
    pub open spec fn label_spec(self) -> Seq<char> {
        match self {
            JsonRepresentationStrategy::Structured => "structured"@,
            JsonRepresentationStrategy::NormalizedText => "normalized_text"@,
            JsonRepresentationStrategy::RawText => "raw_text"@,
        }
    }

    pub fn label(self) -> (result: &'static str)
        ensures
            result@ == self.label_spec(),
    {
        match self {
            JsonRepresentationStrategy::Structured => "structured",
            JsonRepresentationStrategy::NormalizedText => "normalized_text",
            JsonRepresentationStrategy::RawText => "raw_text",
        }
    }
}

impl Contract for JsonRepresentationStrategy {
    open spec fn doc(&self) -> Doc {
        Doc::Str(self.label_spec())
    }

    fn to_json(&self) -> (result: Json) {
        Json::Text(self.label().to_owned())
    }

    fn duplicate(&self) -> (result: Self) {
        *self
    }
}

/// What is promised of a JSON column.
#[derive(Debug, PartialEq, Eq, Hash)]
pub struct JsonProfile {
    pub normalized: bool,
    pub duplicate_keys: DuplicateKeyPolicy,
}

impl Contract for JsonProfile {
    open spec fn doc(&self) -> Doc {
        let members = Seq::<(Seq<char>, Doc)>::empty();
        let members = members.push(("normalized"@, Doc::Bool(self.normalized)));
        let members = members.push(("duplicate_keys"@, self.duplicate_keys.doc()));
        Doc::Obj(members)
    }

    fn to_json(&self) -> (result: Json) {
        let mut fields = Fields::new();
        fields.put_bool("normalized", self.normalized);
        fields.put("duplicate_keys", self.duplicate_keys.to_json());
        fields.finish()
    }

    fn duplicate(&self) -> (result: Self) {
        JsonProfile {
            normalized: self.normalized,
            duplicate_keys: self.duplicate_keys.duplicate(),
        }
    }
}

impl Clone for JsonProfile {
    fn clone(&self) -> (result: Self)
        ensures
            result.doc() == self.doc(),
    {
        self.duplicate()
    }
}

impl Default for JsonProfile {
    fn default() -> (result: Self)
        ensures
            result.normalized,
            result.duplicate_keys is Reject,
    {
        Self { normalized: true, duplicate_keys: DuplicateKeyPolicy::Reject }
    }
}

#[derive(Debug, PartialEq, Eq, Hash)]
pub struct LogicalField {
    pub name: String,
    pub logical_type: LogicalType,
    pub nullable: bool,
}

/// The semantic family and portable constraints of one source or target field.
#[derive(Debug, PartialEq, Eq, Hash)]
pub enum LogicalType {
    Boolean,
    Uuid,
    Integer {
        signed: bool,
        bits: u8,
    },
    Decimal {
        precision: u16,
        scale: i32,
    },
    Float {
        bits: u8,
    },
    Text {
        charset: String,
        max_length: Option<u64>,
        length_unit: LengthUnit,
        collation: Option<String>,
    },
    Binary {
        max_length: Option<u64>,
    },
    BitString {
        length: u64,
    },
    Date,
    LocalTime {
        fractional_precision: u8,
    },
    LocalDatetime {
        fractional_precision: u8,
    },
    Instant {
        fractional_precision: u8,
    },
    Duration {
        fractional_precision: u8,
    },
    Year,
    Json {
        profile: JsonProfile,
    },
    Enum {
        members: Vec<String>,
    },
    SetType {
        members: Vec<String>,
    },
    Spatial {
        subtype: String,
        srid: Option<i32>,
        dimensions: u8,
    },
    InvalidTemporal {
        kind: String,
    },
    Network {
        address_family: String,
        cidr: bool,
    },
    Xml,
    Array {
        element: Box<LogicalType>,
    },
    ArrayWithMetadata {
        element: Box<LogicalType>,
        dimensions: u8,
        lower_bounds: Vec<i32>,
    },
    Struct {
        fields: Vec<LogicalField>,
    },
    MapType {
        key: Box<LogicalType>,
        value: Box<LogicalType>,
    },
    Range {
        element: Box<LogicalType>,
    },
    MultiRange {
        element: Box<LogicalType>,
    },
    Domain {
        name: String,
        base: Box<LogicalType>,
        constraints: Vec<String>,
        not_null: bool,
        collation: Option<String>,
        definition_digest: String,
    },
    Opaque {
        source_type: String,
        format: String,
    },
    Raw {
        codec_identity: String,
        native_type: String,
        source_definition_digest: String,
        encoding: String,
    },
}

/// The first member of a type's form.
pub open spec fn family_members(family: Seq<char>) -> Seq<(Seq<char>, Doc)> {
    Seq::<(Seq<char>, Doc)>::empty().push(("family"@, Doc::Str(family)))
}

pub open spec fn logical_field_doc(name: Seq<char>, logical_type: Doc, nullable: bool) -> Doc {
    let members = Seq::<(Seq<char>, Doc)>::empty();
    let members = members.push(("name"@, Doc::Str(name)));
    let members = members.push(("logical_type"@, logical_type));
    let members = members.push(("nullable"@, Doc::Bool(nullable)));
    Doc::Obj(members)
}

/// The form of a logical type.
pub open spec fn logical_type_doc(logical_type: LogicalType) -> Doc
    decreases logical_type,
{
    match logical_type {
        LogicalType::Boolean => Doc::Obj(family_members("boolean"@)),
        LogicalType::Uuid => Doc::Obj(family_members("uuid"@)),
        LogicalType::Integer { signed, bits } => Doc::Obj(
            family_members("integer"@)
                .push(("signed"@, Doc::Bool(signed)))
                .push(("bits"@, Doc::Int(bits as int))),
        ),
        LogicalType::Decimal { precision, scale } => Doc::Obj(
            family_members("decimal"@)
                .push(("precision"@, Doc::Int(precision as int)))
                .push(("scale"@, Doc::Int(scale as int))),
        ),
        LogicalType::Float { bits } => Doc::Obj(
            family_members("float"@).push(("bits"@, Doc::Int(bits as int))),
        ),
        LogicalType::Text { charset, max_length, length_unit, collation } => Doc::Obj(
            with_present_text(
                with_present(
                    family_members("text"@).push(("charset"@, Doc::Str(charset@))),
                    "max_length"@,
                    match max_length {
                        Some(v) => Some(Doc::Int(v as int)),
                        None => None,
                    },
                )
                    .push(("length_unit"@, length_unit.doc())),
                "collation"@,
                collation,
            ),
        ),
        LogicalType::Binary { max_length } => Doc::Obj(
            with_present(
                family_members("binary"@),
                "max_length"@,
                match max_length {
                    Some(v) => Some(Doc::Int(v as int)),
                    None => None,
                },
            ),
        ),
        LogicalType::BitString { length } => Doc::Obj(
            family_members("bit_string"@).push(("length"@, Doc::Int(length as int))),
        ),
        LogicalType::Date => Doc::Obj(family_members("date"@)),
        LogicalType::LocalTime { fractional_precision } => Doc::Obj(
            family_members("local_time"@)
                .push(("fractional_precision"@, Doc::Int(fractional_precision as int))),
        ),
        LogicalType::LocalDatetime { fractional_precision } => Doc::Obj(
            family_members("local_datetime"@)
                .push(("fractional_precision"@, Doc::Int(fractional_precision as int))),
        ),
        LogicalType::Instant { fractional_precision } => Doc::Obj(
            family_members("instant"@)
                .push(("fractional_precision"@, Doc::Int(fractional_precision as int))),
        ),
        LogicalType::Duration { fractional_precision } => Doc::Obj(
            family_members("duration"@)
                .push(("fractional_precision"@, Doc::Int(fractional_precision as int))),
        ),
        LogicalType::Year => Doc::Obj(family_members("year"@)),
        LogicalType::Json { profile } => Doc::Obj(
            family_members("json"@).push(("profile"@, profile.doc())),
        ),
        LogicalType::Enum { members } => Doc::Obj(
            family_members("enum"@).push(("members"@, texts_doc(members@))),
        ),
        LogicalType::SetType { members } => Doc::Obj(
            family_members("set"@).push(("members"@, texts_doc(members@))),
        ),
        LogicalType::Spatial { subtype, srid, dimensions } => Doc::Obj(
            with_present(
                family_members("spatial"@).push(("subtype"@, Doc::Str(subtype@))),
                "srid"@,
                match srid {
                    Some(v) => Some(Doc::Int(v as int)),
                    None => None,
                },
            )
                .push(("dimensions"@, Doc::Int(dimensions as int))),
        ),
        LogicalType::InvalidTemporal { kind } => Doc::Obj(
            family_members("invalid_temporal"@).push(("kind"@, Doc::Str(kind@))),
        ),
        LogicalType::Network { address_family, cidr } => Doc::Obj(
            family_members("network"@)
                .push(("address_family"@, Doc::Str(address_family@)))
                .push(("cidr"@, Doc::Bool(cidr))),
        ),
        LogicalType::Xml => Doc::Obj(family_members("xml"@)),
        LogicalType::Array { element } => Doc::Obj(
            family_members("array"@).push(("element"@, logical_type_doc(*element))),
        ),
        LogicalType::ArrayWithMetadata { element, dimensions, lower_bounds } => Doc::Obj(
            family_members("array_with_metadata"@)
                .push(("element"@, logical_type_doc(*element)))
                .push(("dimensions"@, Doc::Int(dimensions as int)))
                .push(("lower_bounds"@, ints_doc(lower_bounds@))),
        ),
        LogicalType::Struct { fields } => Doc::Obj(family_members("struct"@).push(
                (
                    "fields"@,
                    Doc::Arr(
                        Seq::new(
                            fields@.len(),
                            |i: int|
                                if 0 <= i < fields@.len() {
                                    logical_field_doc(
                                        fields@[i].name@,
                                        logical_type_doc(fields@[i].logical_type),
                                        fields@[i].nullable,
                                    )
                                } else {
                                    Doc::Null
                                },
                        ),
                    ),
                ),
            )),
        LogicalType::MapType { key, value } => Doc::Obj(
            family_members("map"@)
                .push(("key"@, logical_type_doc(*key)))
                .push(("value"@, logical_type_doc(*value))),
        ),
        LogicalType::Range { element } => Doc::Obj(
            family_members("range"@).push(("element"@, logical_type_doc(*element))),
        ),
        LogicalType::MultiRange { element } => Doc::Obj(
            family_members("multi_range"@).push(("element"@, logical_type_doc(*element))),
        ),
        LogicalType::Domain { name, base, constraints, not_null, collation, definition_digest } => Doc::Obj(
            with_present_text(
                with_present_texts(
                    family_members("domain"@)
                        .push(("name"@, Doc::Str(name@)))
                        .push(("base"@, logical_type_doc(*base))),
                    "constraints"@,
                    constraints@,
                )
                    .push(("not_null"@, Doc::Bool(not_null))),
                "collation"@,
                collation,
            )
                .push(("definition_digest"@, Doc::Str(definition_digest@))),
        ),
        LogicalType::Opaque { source_type, format } => Doc::Obj(
            family_members("opaque"@)
                .push(("source_type"@, Doc::Str(source_type@)))
                .push(("format"@, Doc::Str(format@))),
        ),
        LogicalType::Raw { codec_identity, native_type, source_definition_digest, encoding } => Doc::Obj(
            family_members("raw"@)
                .push(("codec_identity"@, Doc::Str(codec_identity@)))
                .push(("native_type"@, Doc::Str(native_type@)))
                .push(("source_definition_digest"@, Doc::Str(source_definition_digest@)))
                .push(("encoding"@, Doc::Str(encoding@))),
        ),
    }
}

fn logical_type_json(logical_type: &LogicalType) -> (result: Json)
    ensures
        result@ == logical_type_doc(*logical_type),
    decreases logical_type,
{
    let mut fields = Fields::new();
    match logical_type {
        LogicalType::Boolean => {
            fields.put_text("family", "boolean");
        },
        LogicalType::Uuid => {
            fields.put_text("family", "uuid");
        },
        LogicalType::Integer { signed, bits } => {
            fields.put_text("family", "integer");
            fields.put_bool("signed", *signed);
            fields.put_unsigned("bits", *bits as u64);
        },
        LogicalType::Decimal { precision, scale } => {
            fields.put_text("family", "decimal");
            fields.put_unsigned("precision", *precision as u64);
            fields.put_signed("scale", *scale as i64);
        },
        LogicalType::Float { bits } => {
            fields.put_text("family", "float");
            fields.put_unsigned("bits", *bits as u64);
        },
        LogicalType::Text { charset, max_length, length_unit, collation } => {
            fields.put_text("family", "text");
            fields.put_text("charset", charset.as_str());
            if let Some(v) = max_length {
                fields.put_unsigned("max_length", *v);
            }
            fields.put("length_unit", length_unit.to_json());
            fields.put_present_text("collation", collation);
        },
        LogicalType::Binary { max_length } => {
            fields.put_text("family", "binary");
            if let Some(v) = max_length {
                fields.put_unsigned("max_length", *v);
            }
        },
        LogicalType::BitString { length } => {
            fields.put_text("family", "bit_string");
            fields.put_unsigned("length", *length);
        },
        LogicalType::Date => {
            fields.put_text("family", "date");
        },
        LogicalType::LocalTime { fractional_precision } => {
            fields.put_text("family", "local_time");
            fields.put_unsigned("fractional_precision", *fractional_precision as u64);
        },
        LogicalType::LocalDatetime { fractional_precision } => {
            fields.put_text("family", "local_datetime");
            fields.put_unsigned("fractional_precision", *fractional_precision as u64);
        },
        LogicalType::Instant { fractional_precision } => {
            fields.put_text("family", "instant");
            fields.put_unsigned("fractional_precision", *fractional_precision as u64);
        },
        LogicalType::Duration { fractional_precision } => {
            fields.put_text("family", "duration");
            fields.put_unsigned("fractional_precision", *fractional_precision as u64);
        },
        LogicalType::Year => {
            fields.put_text("family", "year");
        },
        LogicalType::Json { profile } => {
            fields.put_text("family", "json");
            fields.put("profile", profile.to_json());
        },
        LogicalType::Enum { members } => {
            fields.put_text("family", "enum");
            fields.put("members", text_array(members));
        },
        LogicalType::SetType { members } => {
            fields.put_text("family", "set");
            fields.put("members", text_array(members));
        },
        LogicalType::Spatial { subtype, srid, dimensions } => {
            fields.put_text("family", "spatial");
            fields.put_text("subtype", subtype.as_str());
            if let Some(v) = srid {
                fields.put_signed("srid", *v as i64);
            }
            fields.put_unsigned("dimensions", *dimensions as u64);
        },
        LogicalType::InvalidTemporal { kind } => {
            fields.put_text("family", "invalid_temporal");
            fields.put_text("kind", kind.as_str());
        },
        LogicalType::Network { address_family, cidr } => {
            fields.put_text("family", "network");
            fields.put_text("address_family", address_family.as_str());
            fields.put_bool("cidr", *cidr);
        },
        LogicalType::Xml => {
            fields.put_text("family", "xml");
        },
        LogicalType::Array { element } => {
            fields.put_text("family", "array");
            fields.put("element", logical_type_json(element));
        },
        LogicalType::ArrayWithMetadata { element, dimensions, lower_bounds } => {
            fields.put_text("family", "array_with_metadata");
            fields.put("element", logical_type_json(element));
            fields.put_unsigned("dimensions", *dimensions as u64);
            fields.put("lower_bounds", int_array(lower_bounds));
        },
        LogicalType::Struct { fields: list } => {
            fields.put_text("family", "struct");
            let mut items: Vec<Json> = Vec::new();
            let mut i: usize = 0;
            while i < list.len()
                invariant
                    i <= list@.len(),
                    decreases_to!(*logical_type => *list),
                    items@.len() == i,
                    forall|k: int|
                        0 <= k < i ==> (#[trigger] items@[k])@ == logical_field_doc(
                            list@[k].name@,
                            logical_type_doc(list@[k].logical_type),
                            list@[k].nullable,
                        ),
                decreases list@.len() - i,
            {
                let mut member = Fields::new();
                member.put_text("name", list[i].name.as_str());
                member.put("logical_type", logical_type_json(&list[i].logical_type));
                member.put_bool("nullable", list[i].nullable);
                items.push(member.finish());
                i += 1;
            }
            assert(logical_type_doc(*logical_type)->Obj_0[1].1->Arr_0 =~= docs_of(items@));
            fields.put("fields", array(items));
        },
        LogicalType::MapType { key, value } => {
            fields.put_text("family", "map");
            fields.put("key", logical_type_json(key));
            fields.put("value", logical_type_json(value));
        },
        LogicalType::Range { element } => {
            fields.put_text("family", "range");
            fields.put("element", logical_type_json(element));
        },
        LogicalType::MultiRange { element } => {
            fields.put_text("family", "multi_range");
            fields.put("element", logical_type_json(element));
        },
        LogicalType::Domain { name, base, constraints, not_null, collation, definition_digest } => {
            fields.put_text("family", "domain");
            fields.put_text("name", name.as_str());
            fields.put("base", logical_type_json(base));
            fields.put_present_texts("constraints", constraints);
            fields.put_bool("not_null", *not_null);
            fields.put_present_text("collation", collation);
            fields.put_text("definition_digest", definition_digest.as_str());
        },
        LogicalType::Opaque { source_type, format } => {
            fields.put_text("family", "opaque");
            fields.put_text("source_type", source_type.as_str());
            fields.put_text("format", format.as_str());
        },
        LogicalType::Raw { codec_identity, native_type, source_definition_digest, encoding } => {
            fields.put_text("family", "raw");
            fields.put_text("codec_identity", codec_identity.as_str());
            fields.put_text("native_type", native_type.as_str());
            fields.put_text("source_definition_digest", source_definition_digest.as_str());
            fields.put_text("encoding", encoding.as_str());
        },
    }
    fields.finish()
}

fn copy_type(logical_type: &LogicalType) -> (result: LogicalType)
    ensures
        logical_type_doc(result) == logical_type_doc(*logical_type),
    decreases logical_type,
{
    match logical_type {
        LogicalType::Boolean => LogicalType::Boolean,
        LogicalType::Uuid => LogicalType::Uuid,
        LogicalType::Integer { signed, bits } => LogicalType::Integer {
            signed: *signed,
            bits: *bits,
        },
        LogicalType::Decimal { precision, scale } => LogicalType::Decimal {
            precision: *precision,
            scale: *scale,
        },
        LogicalType::Float { bits } => LogicalType::Float {
            bits: *bits,
        },
        LogicalType::Text { charset, max_length, length_unit, collation } => LogicalType::Text {
            charset: charset.clone(),
            max_length: *max_length,
            length_unit: length_unit.duplicate(),
            collation: collation.clone(),
        },
        LogicalType::Binary { max_length } => LogicalType::Binary {
            max_length: *max_length,
        },
        LogicalType::BitString { length } => LogicalType::BitString {
            length: *length,
        },
        LogicalType::Date => LogicalType::Date,
        LogicalType::LocalTime { fractional_precision } => LogicalType::LocalTime {
            fractional_precision: *fractional_precision,
        },
        LogicalType::LocalDatetime { fractional_precision } => LogicalType::LocalDatetime {
            fractional_precision: *fractional_precision,
        },
        LogicalType::Instant { fractional_precision } => LogicalType::Instant {
            fractional_precision: *fractional_precision,
        },
        LogicalType::Duration { fractional_precision } => LogicalType::Duration {
            fractional_precision: *fractional_precision,
        },
        LogicalType::Year => LogicalType::Year,
        LogicalType::Json { profile } => LogicalType::Json {
            profile: profile.duplicate(),
        },
        LogicalType::Enum { members } => LogicalType::Enum {
            members: duplicate_texts(members),
        },
        LogicalType::SetType { members } => LogicalType::SetType {
            members: duplicate_texts(members),
        },
        LogicalType::Spatial { subtype, srid, dimensions } => LogicalType::Spatial {
            subtype: subtype.clone(),
            srid: *srid,
            dimensions: *dimensions,
        },
        LogicalType::InvalidTemporal { kind } => LogicalType::InvalidTemporal {
            kind: kind.clone(),
        },
        LogicalType::Network { address_family, cidr } => LogicalType::Network {
            address_family: address_family.clone(),
            cidr: *cidr,
        },
        LogicalType::Xml => LogicalType::Xml,
        LogicalType::Array { element } => LogicalType::Array {
            element: Box::new(copy_type(element)),
        },
        LogicalType::ArrayWithMetadata { element, dimensions, lower_bounds } => LogicalType::ArrayWithMetadata {
            element: Box::new(copy_type(element)),
            dimensions: *dimensions,
            lower_bounds: copy_ints(lower_bounds),
        },
        LogicalType::Struct { fields } => {
            let mut items: Vec<LogicalField> = Vec::new();
            let mut i: usize = 0;
            while i < fields.len()
                invariant
                    i <= fields@.len(),
                    decreases_to!(*logical_type => *fields),
                    items@.len() == i,
                    forall|k: int|
                        0 <= k < i ==> (#[trigger] items@[k]).name == fields@[k].name
                            && items@[k].nullable == fields@[k].nullable && logical_type_doc(
                            items@[k].logical_type,
                        ) == logical_type_doc(fields@[k].logical_type),
                decreases fields@.len() - i,
            {
                items.push(
                    LogicalField {
                        name: fields[i].name.clone(),
                        logical_type: copy_type(&fields[i].logical_type),
                        nullable: fields[i].nullable,
                    },
                );
                i += 1;
            }
            let result = LogicalType::Struct { fields: items };
            assert(logical_type_doc(result)->Obj_0[1].1->Arr_0
                =~= logical_type_doc(*logical_type)->Obj_0[1].1->Arr_0);
            result
        },
        LogicalType::MapType { key, value } => LogicalType::MapType {
            key: Box::new(copy_type(key)),
            value: Box::new(copy_type(value)),
        },
        LogicalType::Range { element } => LogicalType::Range {
            element: Box::new(copy_type(element)),
        },
        LogicalType::MultiRange { element } => LogicalType::MultiRange {
            element: Box::new(copy_type(element)),
        },
        LogicalType::Domain { name, base, constraints, not_null, collation, definition_digest } => LogicalType::Domain {
            name: name.clone(),
            base: Box::new(copy_type(base)),
            constraints: duplicate_texts(constraints),
            not_null: *not_null,
            collation: collation.clone(),
            definition_digest: definition_digest.clone(),
        },
        LogicalType::Opaque { source_type, format } => LogicalType::Opaque {
            source_type: source_type.clone(),
            format: format.clone(),
        },
        LogicalType::Raw { codec_identity, native_type, source_definition_digest, encoding } => LogicalType::Raw {
            codec_identity: codec_identity.clone(),
            native_type: native_type.clone(),
            source_definition_digest: source_definition_digest.clone(),
            encoding: encoding.clone(),
        },
    }
}

impl Contract for LogicalType {
    open spec fn doc(&self) -> Doc {
        logical_type_doc(*self)
    }

    fn to_json(&self) -> (result: Json) {
        logical_type_json(self)
    }

    fn duplicate(&self) -> (result: Self) {
        copy_type(self)
    }
}

impl Clone for LogicalType {
    fn clone(&self) -> (result: Self)
        ensures
            result.doc() == self.doc(),
    {
        self.duplicate()
    }
}

impl Contract for LogicalField {
    open spec fn doc(&self) -> Doc {
        let members = Seq::<(Seq<char>, Doc)>::empty();
        let members = members.push(("name"@, Doc::Str(self.name@)));
        let members = members.push(("logical_type"@, self.logical_type.doc()));
        let members = members.push(("nullable"@, Doc::Bool(self.nullable)));
        Doc::Obj(members)
    }

    fn to_json(&self) -> (result: Json) {
        let mut fields = Fields::new();
        fields.put_text("name", self.name.as_str());
        fields.put("logical_type", self.logical_type.to_json());
        fields.put_bool("nullable", self.nullable);
        fields.finish()
    }

    fn duplicate(&self) -> (result: Self) {
        LogicalField {
            name: self.name.clone(),
            logical_type: self.logical_type.duplicate(),
            nullable: self.nullable,
        }
    }
}

impl Clone for LogicalField {
    fn clone(&self) -> (result: Self)
        ensures
            result.doc() == self.doc(),
    {
        self.duplicate()
    }
}

impl LogicalType {
    pub fn boolean() -> (result: Self)
        ensures
            result is Boolean,
    {
        Self::Boolean
    }

    pub fn uuid() -> (result: Self)
        ensures
            result is Uuid,
    {
        Self::Uuid
    }

    pub fn integer(signed: bool, bits: u8) -> (result: Self)
        ensures
            result == (LogicalType::Integer { signed, bits }),
    {
        Self::Integer { signed, bits }
    }

    pub fn decimal(precision: u16, scale: i32) -> (result: Self)
        ensures
            result == (LogicalType::Decimal { precision, scale }),
    {
        Self::Decimal { precision, scale }
    }

    pub fn float(bits: u8) -> (result: Self)
        ensures
            result == (LogicalType::Float { bits }),
    {
        Self::Float { bits }
    }

    pub fn text(charset: &str, max_length: Option<u64>) -> (result: Self)
        ensures
            result matches LogicalType::Text {
                charset: kept,
                max_length: length,
                length_unit,
                collation,
            } && kept@ == charset@ && length == max_length && length_unit is Bytes
                && collation is None,
    {
        Self::Text {
            charset: charset.to_owned(),
            max_length,
            length_unit: LengthUnit::Bytes,
            collation: None,
        }
    }

    pub fn binary(max_length: Option<u64>) -> (result: Self)
        ensures
            result == (LogicalType::Binary { max_length }),
    {
        Self::Binary { max_length }
    }

    pub fn bit_string(length: u64) -> (result: Self)
        ensures
            result == (LogicalType::BitString { length }),
    {
        Self::BitString { length }
    }

    pub fn spatial(subtype: &str, srid: Option<i32>, dimensions: u8) -> (result: Self)
        ensures
            result matches LogicalType::Spatial { subtype: kept, srid: s, dimensions: d } && kept@
                == subtype@ && s == srid && d == dimensions,
    {
        Self::Spatial { subtype: subtype.to_owned(), srid, dimensions }
    }

    pub fn invalid_temporal(kind: &str) -> (result: Self)
        ensures
            result matches LogicalType::InvalidTemporal { kind: kept } && kept@ == kind@,
    {
        Self::InvalidTemporal { kind: kind.to_owned() }
    }

    pub fn network(address_family: &str, cidr: bool) -> (result: Self)
        ensures
            result matches LogicalType::Network { address_family: kept, cidr: c } && kept@
                == address_family@ && c == cidr,
    {
        Self::Network { address_family: address_family.to_owned(), cidr }
    }

    pub fn xml() -> (result: Self)
        ensures
            result is Xml,
    {
        Self::Xml
    }

    pub fn date() -> (result: Self)
        ensures
            result is Date,
    {
        Self::Date
    }

    pub fn local_datetime(fractional_precision: u8) -> (result: Self)
        ensures
            result == (LogicalType::LocalDatetime { fractional_precision }),
    {
        Self::LocalDatetime { fractional_precision }
    }

    pub fn instant(fractional_precision: u8) -> (result: Self)
        ensures
            result == (LogicalType::Instant { fractional_precision }),
    {
        Self::Instant { fractional_precision }
    }

    pub fn duration(fractional_precision: u8) -> (result: Self)
        ensures
            result == (LogicalType::Duration { fractional_precision }),
    {
        Self::Duration { fractional_precision }
    }

    pub fn year() -> (result: Self)
        ensures
            result is Year,
    {
        Self::Year
    }

    pub fn json() -> (result: Self)
        ensures
            result matches LogicalType::Json { profile } && profile.normalized
                && profile.duplicate_keys is Reject,
    {
        Self::Json { profile: JsonProfile::default() }
    }

    pub fn array_with_metadata(
        element: LogicalType,
        dimensions: u8,
        lower_bounds: Vec<i32>,
    ) -> (result: Self)
        ensures
            result matches LogicalType::ArrayWithMetadata {
                element: kept,
                dimensions: d,
                lower_bounds: bounds,
            } && *kept == element && d == dimensions && bounds == lower_bounds,
    {
        Self::ArrayWithMetadata { element: Box::new(element), dimensions, lower_bounds }
    }

    pub fn domain(
        name: &str,
        base: LogicalType,
        constraints: Vec<String>,
        not_null: bool,
        collation: Option<String>,
        definition_digest: &str,
    ) -> (result: Self)
        ensures
            result matches LogicalType::Domain {
                name: kept,
                base: b,
                constraints: c,
                not_null: n,
                collation: l,
                definition_digest: d,
            } && kept@ == name@ && *b == base && c == constraints && n == not_null && l == collation
                && d@ == definition_digest@,
    {
        Self::Domain {
            name: name.to_owned(),
            base: Box::new(base),
            constraints,
            not_null,
            collation,
            definition_digest: definition_digest.to_owned(),
        }
    }

    pub fn raw(
        codec_identity: &str,
        native_type: &str,
        source_definition_digest: &str,
        encoding: &str,
    ) -> (result: Self)
        ensures
            result matches LogicalType::Raw {
                codec_identity: c,
                native_type: n,
                source_definition_digest: s,
                encoding: e,
            } && c@ == codec_identity@ && n@ == native_type@ && s@ == source_definition_digest@
                && e@ == encoding@,
    {
        Self::Raw {
            codec_identity: codec_identity.to_owned(),
            native_type: native_type.to_owned(),
            source_definition_digest: source_definition_digest.to_owned(),
            encoding: encoding.to_owned(),
        }
    }

    pub fn stable_digest(&self) -> (result: String)
        ensures
            result@ == digest(self.doc()),
            digest_spelling(result@),
    {
        stable_digest(self)
    }

    pub open spec fn family(&self) -> Seq<char> {
        match *self {
            LogicalType::Boolean => "boolean"@,
            LogicalType::Uuid => "uuid"@,
            LogicalType::Integer { .. } => "integer"@,
            LogicalType::Decimal { .. } => "decimal"@,
            LogicalType::Float { .. } => "float"@,
            LogicalType::Text { .. } => "text"@,
            LogicalType::Binary { .. } => "binary"@,
            LogicalType::BitString { .. } => "bit_string"@,
            LogicalType::Date => "date"@,
            LogicalType::LocalTime { .. } => "local_time"@,
            LogicalType::LocalDatetime { .. } => "local_datetime"@,
            LogicalType::Instant { .. } => "instant"@,
            LogicalType::Duration { .. } => "duration"@,
            LogicalType::Year => "year"@,
            LogicalType::Json { .. } => "json"@,
            LogicalType::Enum { .. } => "enum"@,
            LogicalType::SetType { .. } => "set"@,
            LogicalType::Spatial { .. } => "spatial"@,
            LogicalType::InvalidTemporal { .. } => "invalid_temporal"@,
            LogicalType::Network { .. } => "network"@,
            LogicalType::Xml => "xml"@,
            LogicalType::Array { .. } => "array"@,
            LogicalType::ArrayWithMetadata { .. } => "array"@,
            LogicalType::Struct { .. } => "struct"@,
            LogicalType::MapType { .. } => "map"@,
            LogicalType::Range { .. } => "range"@,
            LogicalType::MultiRange { .. } => "multi_range"@,
            LogicalType::Domain { .. } => "domain"@,
            LogicalType::Opaque { .. } => "opaque"@,
            LogicalType::Raw { .. } => "raw"@,
        }
    }

    /// Return the family name used by the summary manifest.
    pub fn family_name(&self) -> (result: &'static str)
        ensures
            result@ == self.family(),
    {
        match self {
            Self::Boolean => "boolean",
            Self::Uuid => "uuid",
            Self::Integer { .. } => "integer",
            Self::Decimal { .. } => "decimal",
            Self::Float { .. } => "float",
            Self::Text { .. } => "text",
            Self::Binary { .. } => "binary",
            Self::BitString { .. } => "bit_string",
            Self::Date => "date",
            Self::LocalTime { .. } => "local_time",
            Self::LocalDatetime { .. } => "local_datetime",
            Self::Instant { .. } => "instant",
            Self::Duration { .. } => "duration",
            Self::Year => "year",
            Self::Json { .. } => "json",
            Self::Enum { .. } => "enum",
            Self::SetType { .. } => "set",
            Self::Spatial { .. } => "spatial",
            Self::InvalidTemporal { .. } => "invalid_temporal",
            Self::Network { .. } => "network",
            Self::Xml => "xml",
            Self::Array { .. } => "array",
            Self::ArrayWithMetadata { .. } => "array",
            Self::Struct { .. } => "struct",
            Self::MapType { .. } => "map",
            Self::Range { .. } => "range",
            Self::MultiRange { .. } => "multi_range",
            Self::Domain { .. } => "domain",
            Self::Opaque { .. } => "opaque",
            Self::Raw { .. } => "raw",
        }
    }

    pub fn validate(&self) -> (result: Result<(), LogicalTypeValidationError>)
        ensures
            match result {
                Ok(_) => type_fault(*self) is None,
                Err(error) => type_fault(*self) == Some(error.text()),
            },
    {
        validate_type(self)
    }

    /// Whether a value belongs to the type.
    pub fn matches_value(&self, value: &LogicalValue) -> (result: bool)
        ensures
            result == value_matches(*self, *value),
    {
        check_value(self, value)
    }
}

#[derive(Debug, Clone, PartialEq, Eq)]
pub struct LogicalTypeValidationError {
    message: String,
}

impl LogicalTypeValidationError {
    pub closed spec fn text(&self) -> Seq<char> {
        self.message@
    }

    pub fn code(&self) -> (result: &'static str)
        ensures
            result@ == "logical_type.invalid"@,
    {
        "logical_type.invalid"
    }

    pub fn message(&self) -> (result: &str)
        ensures
            result@ == self.text(),
    {
        self.message.as_str()
    }
}

fn type_error(message: &str) -> (result: LogicalTypeValidationError)
    ensures
        result.text() == message@,
{
    LogicalTypeValidationError { message: message.to_owned() }
}

pub open spec fn integer_width(bits: u8) -> bool {
    bits == 8 || bits == 16 || bits == 24 || bits == 32 || bits == 64
}

/// What is wrong with a type declaration.
pub open spec fn type_fault(logical_type: LogicalType) -> Option<Seq<char>>
    decreases logical_type,
{
    match logical_type {
        LogicalType::Integer { signed, bits } => if integer_width(bits) {
            None
        } else {
            Some("integer width is invalid"@)
        },
        LogicalType::Decimal { precision, scale } => if precision == 0 || scale < -1000 || scale
            > precision as int {
            Some("decimal precision or scale is invalid"@)
        } else {
            None
        },
        LogicalType::Float { bits } => if bits == 32 || bits == 64 {
            None
        } else {
            Some("floating point width is invalid"@)
        },
        LogicalType::Text { charset, max_length, length_unit, collation } => if blank(charset@)
            || charset@.contains('\0') {
            Some("text charset is invalid"@)
        } else if collation matches Some(text) && blank(text@) {
            Some("text collation is invalid"@)
        } else {
            None
        },
        LogicalType::BitString { length } => if length == 0 {
            Some("bit string length must be positive"@)
        } else {
            None
        },
        LogicalType::Spatial { subtype, srid, dimensions } => if blank(subtype@) || !(2
            <= dimensions <= 4) {
            Some("spatial declaration is invalid"@)
        } else {
            None
        },
        LogicalType::InvalidTemporal { kind } => if blank(kind@) {
            Some("invalid temporal kind is empty"@)
        } else {
            None
        },
        LogicalType::Network { address_family, cidr } => if blank(address_family@) {
            Some("network family is empty"@)
        } else {
            None
        },
        LogicalType::ArrayWithMetadata { element, dimensions, lower_bounds } => if dimensions == 0
            || dimensions as int != lower_bounds@.len() {
            Some("array dimensions and lower bounds do not agree"@)
        } else {
            type_fault(*element)
        },
        LogicalType::Struct { fields } => fields_fault(fields@, fields@),
        LogicalType::Array { element } => type_fault(*element),
        LogicalType::Range { element } => type_fault(*element),
        LogicalType::MultiRange { element } => type_fault(*element),
        LogicalType::MapType { key, value } => match type_fault(*key) {
            Some(fault) => Some(fault),
            None => type_fault(*value),
        },
        LogicalType::Domain {
            name,
            base,
            constraints,
            not_null,
            collation,
            definition_digest,
        } => if blank(name@) || blank(definition_digest@) {
            Some("domain identity or definition digest is empty"@)
        } else {
            type_fault(*base)
        },
        LogicalType::Raw { codec_identity, native_type, source_definition_digest, encoding } =>
            if evidence(codec_identity@) && evidence(native_type@) && evidence(
                source_definition_digest@,
            ) && evidence(encoding@) {
                None
            } else {
                Some("raw logical type lacks stable source evidence"@)
            },
        _ => None,
    }
}

/// What is wrong with the fields `rest`, the last of the fields `all`.
pub open spec fn fields_fault(all: Seq<LogicalField>, rest: Seq<LogicalField>) -> Option<Seq<char>>
    decreases rest,
{
    if rest.len() == 0 {
        None
    } else {
        let at = all.len() - rest.len();
        if blank(rest[0].name@) || named_before(all, at, rest[0].name@) {
            Some("structured field names must be unique and non-empty"@)
        } else {
            match type_fault(rest[0].logical_type) {
                Some(fault) => Some(fault),
                None => fields_fault(all, rest.subrange(1, rest.len() as int)),
            }
        }
    }
}

/// Whether one of the first `end` fields has the name.
pub open spec fn named_before(fields: Seq<LogicalField>, end: int, name: Seq<char>) -> bool {
    exists|j: int| 0 <= j < end && (#[trigger] fields[j]).name@ == name
}

fn is_named_before(fields: &Vec<LogicalField>, end: usize, name: &str) -> (result: bool)
    requires
        end <= fields@.len(),
    ensures
        result == named_before(fields@, end as int, name@),
{
    let mut j: usize = 0;
    while j < end
        invariant
            j <= end <= fields@.len(),
            forall|k: int| 0 <= k < j ==> (#[trigger] fields@[k]).name@ != name@,
        decreases end - j,
    {
        if same(fields[j].name.as_str(), name) {
            return true;
        }
        j += 1;
    }
    false
}

fn validate_type(logical_type: &LogicalType) -> (result: Result<(), LogicalTypeValidationError>)
    ensures
        match result {
            Ok(_) => type_fault(*logical_type) is None,
            Err(error) => type_fault(*logical_type) == Some(error.text()),
        },
    decreases logical_type,
{
    match logical_type {
        LogicalType::Integer { signed, bits } => {
            let bits: u8 = *bits;
            if bits == 8 || bits == 16 || bits == 24 || bits == 32 || bits == 64 {
                Ok(())
            } else {
                Err(type_error("integer width is invalid"))
            }
        },
        LogicalType::Decimal { precision, scale } => {
            if *precision == 0 || *scale < -1000 || *scale > *precision as i32 {
                Err(type_error("decimal precision or scale is invalid"))
            } else {
                Ok(())
            }
        },
        LogicalType::Float { bits } => {
            if *bits == 32 || *bits == 64 {
                Ok(())
            } else {
                Err(type_error("floating point width is invalid"))
            }
        },
        LogicalType::Text { charset, max_length, length_unit, collation } => {
            if is_blank(charset.as_str()) || contains_char(charset.as_str(), '\0') {
                return Err(type_error("text charset is invalid"));
            }
            if let Some(text) = collation {
                if is_blank(text.as_str()) {
                    return Err(type_error("text collation is invalid"));
                }
            }
            Ok(())
        },
        LogicalType::BitString { length } => {
            if *length == 0 {
                Err(type_error("bit string length must be positive"))
            } else {
                Ok(())
            }
        },
        LogicalType::Spatial { subtype, srid, dimensions } => {
            if is_blank(subtype.as_str()) || *dimensions < 2 || *dimensions > 4 {
                Err(type_error("spatial declaration is invalid"))
            } else {
                Ok(())
            }
        },
        LogicalType::InvalidTemporal { kind } => {
            if is_blank(kind.as_str()) {
                Err(type_error("invalid temporal kind is empty"))
            } else {
                Ok(())
            }
        },
        LogicalType::Network { address_family, cidr } => {
            if is_blank(address_family.as_str()) {
                Err(type_error("network family is empty"))
            } else {
                Ok(())
            }
        },
        LogicalType::ArrayWithMetadata { element, dimensions, lower_bounds } => {
            if *dimensions == 0 || *dimensions as usize != lower_bounds.len() {
                return Err(type_error("array dimensions and lower bounds do not agree"));
            }
            validate_type(element)
        },
        LogicalType::Struct { fields } => {
            let mut i: usize = 0;
            assert(fields@.subrange(0, fields@.len() as int) =~= fields@);
            while i < fields.len()
                invariant
                    i <= fields@.len(),
                    decreases_to!(*logical_type => *fields),
                    *logical_type == (LogicalType::Struct { fields: *fields }),
                    type_fault(*logical_type) == fields_fault(
                        fields@,
                        fields@.subrange(i as int, fields@.len() as int),
                    ),
                decreases fields@.len() - i,
            {
                let ghost rest = fields@.subrange(i as int, fields@.len() as int);
                assert(rest[0] == fields@[i as int]);
                assert(rest.subrange(1, rest.len() as int) =~= fields@.subrange(
                    i + 1,
                    fields@.len() as int,
                ));
                if is_blank(fields[i].name.as_str()) || is_named_before(
                    fields,
                    i,
                    fields[i].name.as_str(),
                ) {
                    return Err(type_error("structured field names must be unique and non-empty"));
                }
                match validate_type(&fields[i].logical_type) {
                    Ok(_) => {},
                    Err(error) => {
                        return Err(error);
                    },
                }
                i += 1;
            }
            Ok(())
        },
        LogicalType::Array { element } => validate_type(element),
        LogicalType::Range { element } => validate_type(element),
        LogicalType::MultiRange { element } => validate_type(element),
        LogicalType::MapType { key, value } => {
            match validate_type(key) {
                Ok(_) => validate_type(value),
                Err(error) => Err(error),
            }
        },
        LogicalType::Domain {
            name,
            base,
            constraints,
            not_null,
            collation,
            definition_digest,
        } => {
            if is_blank(name.as_str()) || is_blank(definition_digest.as_str()) {
                return Err(type_error("domain identity or definition digest is empty"));
            }
            validate_type(base)
        },
        LogicalType::Raw { codec_identity, native_type, source_definition_digest, encoding } => {
            if has_evidence(codec_identity.as_str()) && has_evidence(native_type.as_str())
                && has_evidence(source_definition_digest.as_str()) && has_evidence(
                encoding.as_str(),
            ) {
                Ok(())
            } else {
                Err(type_error("raw logical type lacks stable source evidence"))
            }
        },
        _ => Ok(()),
    }
}

// ---------------------------------------------------------------------------
// Values of a type
// ---------------------------------------------------------------------------

/// The digits of a decimal without its minus sign.
pub open spec fn unsigned_part(text: Seq<char>) -> Seq<char> {
    if text.len() > 0 && text[0] == '-' {
        text.drop_first()
    } else {
        text
    }
}

/// The length of a text value: of its text, in the unit of the type, where it
/// is given, and of its bytes otherwise.
pub open spec fn text_value_length(
    length_unit: LengthUnit,
    bytes_base64url: Seq<char>,
    text: Option<String>,
) -> Option<nat> {
    match text {
        Some(text) => match length_unit {
            LengthUnit::Bytes => Some(vstd::utf8::encode_utf8(text@).len()),
            LengthUnit::Characters => Some(text@.len()),
        },
        None => match base64url_decoded(bytes_base64url) {
            Some(bytes) => Some(bytes.len()),
            None => None,
        },
    }
}

/// Whether one of the texts is `wanted`.
pub open spec fn has_text(list: Seq<String>, wanted: Seq<char>) -> bool {
    exists|i: int| 0 <= i < list.len() && (#[trigger] list[i])@ == wanted
}

/// No text occurs twice.
pub open spec fn distinct_texts(list: Seq<String>) -> bool {
    forall|i: int, j: int|
        #![trigger list[i], list[j]]
        0 <= i < j < list.len() ==> list[i]@ != list[j]@
}

pub open spec fn all_in(values: Seq<String>, list: Seq<String>) -> bool {
    forall|i: int| 0 <= i < values.len() ==> has_text(list, (#[trigger] values[i])@)
}

pub fn contains_string(list: &Vec<String>, wanted: &str) -> (result: bool)
    ensures
        result == has_text(list@, wanted@),
{
    let mut i: usize = 0;
    while i < list.len()
        invariant
            i <= list@.len(),
            forall|k: int| 0 <= k < i ==> (#[trigger] list@[k])@ != wanted@,
        decreases list@.len() - i,
    {
        if same(list[i].as_str(), wanted) {
            return true;
        }
        i += 1;
    }
    false
}

pub fn are_distinct(list: &Vec<String>) -> (result: bool)
    ensures
        result == distinct_texts(list@),
{
    let mut j: usize = 0;
    while j < list.len()
        invariant
            j <= list@.len(),
            forall|a: int, b: int|
                #![trigger list@[a], list@[b]]
                0 <= a < b < j ==> list@[a]@ != list@[b]@,
        decreases list@.len() - j,
    {
        let mut i: usize = 0;
        while i < j
            invariant
                i <= j < list@.len(),
                forall|a: int| 0 <= a < i ==> (#[trigger] list@[a])@ != list@[j as int]@,
            decreases j - i,
        {
            if same(list[i].as_str(), list[j].as_str()) {
                return false;
            }
            i += 1;
        }
        j += 1;
    }
    true
}

pub fn all_contained(values: &Vec<String>, list: &Vec<String>) -> (result: bool)
    ensures
        result == all_in(values@, list@),
{
    let mut i: usize = 0;
    while i < values.len()
        invariant
            i <= values@.len(),
            forall|k: int| 0 <= k < i ==> has_text(list@, (#[trigger] values@[k])@),
        decreases values@.len() - i,
    {
        if !contains_string(list, values[i].as_str()) {
            return false;
        }
        i += 1;
    }
    true
}

/// Whether a value belongs to a type.
pub open spec fn value_matches(logical_type: LogicalType, value: LogicalValue) -> bool
    decreases logical_type,
{
    match (logical_type, value) {
        (LogicalType::Boolean, LogicalValue::Boolean { .. }) => true,
        (LogicalType::Uuid, LogicalValue::Uuid { .. }) => true,
        (LogicalType::Date, LogicalValue::Date { .. }) => true,
        (LogicalType::LocalTime { .. }, LogicalValue::LocalTime { .. }) => true,
        (LogicalType::Duration { .. }, LogicalValue::Duration { .. }) => true,
        (LogicalType::Year, LogicalValue::Year { .. }) => true,
        (LogicalType::Json { .. }, LogicalValue::Json { .. }) => true,
        (LogicalType::LocalDatetime { .. }, LogicalValue::LocalDatetime { .. }) => true,
        (LogicalType::Instant { .. }, LogicalValue::Instant { .. }) => true,
        (LogicalType::Xml, LogicalValue::Xml { .. }) => true,
        (LogicalType::Opaque { .. }, LogicalValue::Raw { .. }) => true,
        (
            LogicalType::Integer { signed, bits },
            LogicalValue::Integer { signed: value_signed, bits: value_bits, value: _ },
        ) => signed == value_signed && bits == value_bits,
        (
            LogicalType::Decimal { precision, scale },
            LogicalValue::Decimal { unscaled, scale: value_scale },
        ) => {
            let digits = unsigned_part(unscaled@);
            &&& if scale < 0 {
                value_scale == 0
            } else {
                scale as int == value_scale as int
            }
            &&& 0 < vstd::utf8::encode_utf8(digits).len() <= precision as int
        },
        (LogicalType::Float { bits }, LogicalValue::Float { bits: value_bits, ieee754_hex: _ }) =>
            bits == value_bits,
        (
            LogicalType::Text { charset, max_length, length_unit, collation: _ },
            LogicalValue::Text { charset: value_charset, bytes_base64url, text },
        ) => same_ignoring_case(charset@, value_charset@) && match max_length {
            None => true,
            Some(limit) => match text_value_length(length_unit, bytes_base64url@, text) {
                Some(length) => length <= limit,
                None => false,
            },
        },
        (LogicalType::Binary { max_length }, LogicalValue::Binary { bytes_base64url }) =>
            match max_length {
                None => true,
                Some(limit) => match base64url_decoded(bytes_base64url@) {
                    Some(bytes) => bytes.len() <= limit,
                    None => false,
                },
            },
        (
            LogicalType::BitString { length },
            LogicalValue::BitString { bit_length, bytes_base64url: _, padding: _, bit_order: _ },
        ) => length == bit_length,
        (LogicalType::Enum { members }, LogicalValue::Enum { label }) => has_text(
            members@,
            label@,
        ),
        (LogicalType::SetType { members }, LogicalValue::SetValue { members: values }) => {
            &&& members@.len() > 0
            &&& all_in(values@, members@)
            &&& distinct_texts(values@)
        },
        (
            LogicalType::Spatial { subtype, srid, dimensions },
            LogicalValue::Spatial {
                geometry_type,
                srid: value_srid,
                dimensions: value_dimensions,
                format: _,
                bytes_base64url: _,
                crs: _,
            },
        ) => same_ignoring_case(subtype@, geometry_type@) && srid == value_srid && dimensions
            == value_dimensions,
        (
            LogicalType::InvalidTemporal { kind },
            LogicalValue::InvalidTemporal { kind: value_kind, raw: _ },
        ) => kind@ == value_kind@,
        (
            LogicalType::Network { address_family, cidr },
            LogicalValue::Network { family, prefix_length, address: _ },
        ) => same_ignoring_case(address_family@, family@) && cidr == prefix_length is Some,
        (LogicalType::Array { element }, LogicalValue::Array { elements }) => forall|i: int|
            0 <= i < elements@.len() ==> value_matches(*element, #[trigger] elements@[i]),
        (
            LogicalType::ArrayWithMetadata { element, dimensions, lower_bounds },
            LogicalValue::ArrayWithMetadata {
                elements,
                dimensions: value_dimensions,
                lower_bounds: value_bounds,
            },
        ) => dimensions == value_dimensions && lower_bounds@ == value_bounds@ && forall|i: int|
            0 <= i < elements@.len() ==> value_matches(*element, #[trigger] elements@[i]),
        (LogicalType::Struct { fields }, LogicalValue::Struct { fields: values }) => {
            &&& fields@.len() == values@.len()
            &&& forall|i: int|
                #![trigger fields@[i]]
                0 <= i < fields@.len() ==> fields@[i].name@ == values@[i].name@ && value_matches(
                    fields@[i].logical_type,
                    values@[i].value,
                )
        },
        (LogicalType::MapType { key, value: value_type }, LogicalValue::MapValue { entries }) =>
            forall|i: int|
                #![trigger entries@[i]]
                0 <= i < entries@.len() ==> value_matches(*key, entries@[i].key) && value_matches(
                    *value_type,
                    entries@[i].value,
                ),
        (
            LogicalType::Range { element },
            LogicalValue::Range { lower, upper, empty: _, lower_inclusive: _, upper_inclusive: _ },
        ) => (lower matches Some(bound) ==> value_matches(*element, *bound)) && (upper matches Some(
            bound,
        ) ==> value_matches(*element, *bound)),
        (LogicalType::MultiRange { element }, LogicalValue::MultiRange { ranges }) => forall|i: int|
            #![trigger ranges@[i]]
            0 <= i < ranges@.len() ==> ranges@[i] is Range && (ranges@[i]->lower matches Some(bound)
                ==> value_matches(*element, *bound)) && (ranges@[i]->upper matches Some(bound)
                ==> value_matches(*element, *bound)),
        (
            LogicalType::Domain {
                base,
                name: _,
                constraints: _,
                not_null: _,
                collation: _,
                definition_digest: _,
            },
            value,
        ) => match value {
            LogicalValue::Domain { value: inner } => value_matches(*base, *inner),
            other => value_matches(*base, other),
        },
        (
            LogicalType::Raw { codec_identity, native_type, source_definition_digest, encoding },
            LogicalValue::Raw { carrier },
        ) => codec_identity@ == carrier.codec_identity@ && native_type@ == carrier.native_type@
            && source_definition_digest@ == carrier.source_definition_digest@ && encoding@
            == carrier.encoding@,
        _ => false,
    }
}

fn bound_matches(element: &LogicalType, bound: &Option<Box<LogicalValue>>) -> (result: bool)
    ensures
        result == (*bound matches Some(inner) ==> value_matches(*element, *inner)),
    decreases element, 1int,
{
    match bound {
        Some(inner) => check_value(element, inner),
        None => true,
    }
}

fn elements_match(element: &LogicalType, elements: &Vec<LogicalValue>) -> (result: bool)
    ensures
        result == forall|i: int|
            0 <= i < elements@.len() ==> value_matches(*element, #[trigger] elements@[i]),
    decreases element, 1int,
{
    let mut i: usize = 0;
    while i < elements.len()
        invariant
            i <= elements@.len(),
            forall|k: int| 0 <= k < i ==> value_matches(*element, #[trigger] elements@[k]),
        decreases elements@.len() - i,
    {
        if !check_value(element, &elements[i]) {
            assert(!value_matches(*element, elements@[i as int]));
            return false;
        }
        i += 1;
    }
    true
}

fn check_value(logical_type: &LogicalType, value: &LogicalValue) -> (result: bool)
    ensures
        result == value_matches(*logical_type, *value),
    decreases logical_type, 0int,
{
    match (logical_type, value) {
        (LogicalType::Boolean, LogicalValue::Boolean { .. }) => true,
        (LogicalType::Uuid, LogicalValue::Uuid { .. }) => true,
        (LogicalType::Date, LogicalValue::Date { .. }) => true,
        (LogicalType::LocalTime { .. }, LogicalValue::LocalTime { .. }) => true,
        (LogicalType::Duration { .. }, LogicalValue::Duration { .. }) => true,
        (LogicalType::Year, LogicalValue::Year { .. }) => true,
        (LogicalType::Json { .. }, LogicalValue::Json { .. }) => true,
        (LogicalType::LocalDatetime { .. }, LogicalValue::LocalDatetime { .. }) => true,
        (LogicalType::Instant { .. }, LogicalValue::Instant { .. }) => true,
        (LogicalType::Xml, LogicalValue::Xml { .. }) => true,
        (LogicalType::Opaque { .. }, LogicalValue::Raw { .. }) => true,
        (
            LogicalType::Integer { signed, bits },
            LogicalValue::Integer { signed: value_signed, bits: value_bits, value: _ },
        ) => *signed == *value_signed && *bits == *value_bits,
        (
            LogicalType::Decimal { precision, scale },
            LogicalValue::Decimal { unscaled, scale: value_scale },
        ) => {
            let scale_matches = if *scale < 0 {
                *value_scale == 0
            } else {
                *scale as u32 as usize == *value_scale
            };
            let digits = without_minus(unscaled.as_str());
            let length: usize = byte_len(digits.as_str());
            scale_matches && 0 < length && length <= *precision as usize
        },
        (LogicalType::Float { bits }, LogicalValue::Float { bits: value_bits, ieee754_hex: _ }) =>
            *bits == *value_bits,
        (
            LogicalType::Text { charset, max_length, length_unit, collation: _ },
            LogicalValue::Text { charset: value_charset, bytes_base64url, text },
        ) => {
            if !eq_ignore_case(charset.as_str(), value_charset.as_str()) {
                return false;
            }
            match max_length {
                None => true,
                Some(limit) => match text {
                    Some(text) => match length_unit {
                        LengthUnit::Bytes => byte_len(text.as_str()) as u64 <= *limit,
                        LengthUnit::Characters => text.as_str().unicode_len() as u64 <= *limit,
                    },
                    None => match base64url_decode(bytes_base64url.as_str()) {
                        Some(bytes) => bytes.len() as u64 <= *limit,
                        None => false,
                    },
                },
            }
        },
        (LogicalType::Binary { max_length }, LogicalValue::Binary { bytes_base64url }) => {
            match max_length {
                None => true,
                Some(limit) => match base64url_decode(bytes_base64url.as_str()) {
                    Some(bytes) => bytes.len() as u64 <= *limit,
                    None => false,
                },
            }
        },
        (
            LogicalType::BitString { length },
            LogicalValue::BitString { bit_length, bytes_base64url: _, padding: _, bit_order: _ },
        ) => *length == *bit_length,
        (LogicalType::Enum { members }, LogicalValue::Enum { label }) => contains_string(
            members,
            label.as_str(),
        ),
        (LogicalType::SetType { members }, LogicalValue::SetValue { members: values }) => {
            members.len() > 0 && all_contained(values, members) && are_distinct(values)
        },
        (
            LogicalType::Spatial { subtype, srid, dimensions },
            LogicalValue::Spatial {
                geometry_type,
                srid: value_srid,
                dimensions: value_dimensions,
                format: _,
                bytes_base64url: _,
                crs: _,
            },
        ) => eq_ignore_case(subtype.as_str(), geometry_type.as_str()) && same_srid(
            *srid,
            *value_srid,
        ) && *dimensions == *value_dimensions,
        (
            LogicalType::InvalidTemporal { kind },
            LogicalValue::InvalidTemporal { kind: value_kind, raw: _ },
        ) => *kind == *value_kind,
        (
            LogicalType::Network { address_family, cidr },
            LogicalValue::Network { family, prefix_length, address: _ },
        ) => eq_ignore_case(address_family.as_str(), family.as_str()) && *cidr
            == prefix_length.is_some(),
        (LogicalType::Array { element }, LogicalValue::Array { elements }) => elements_match(
            element,
            elements,
        ),
        (
            LogicalType::ArrayWithMetadata { element, dimensions, lower_bounds },
            LogicalValue::ArrayWithMetadata {
                elements,
                dimensions: value_dimensions,
                lower_bounds: value_bounds,
            },
        ) => *dimensions == *value_dimensions && same_ints(lower_bounds, value_bounds)
            && elements_match(element, elements),
        (LogicalType::Struct { fields }, LogicalValue::Struct { fields: values }) => {
            if fields.len() != values.len() {
                return false;
            }
            let mut i: usize = 0;
            while i < fields.len()
                invariant
                    i <= fields@.len() == values@.len(),
                    decreases_to!(*logical_type => *fields),
                    *logical_type == (LogicalType::Struct { fields: *fields }),
                    *value == (LogicalValue::Struct { fields: *values }),
                    forall|k: int|
                        #![trigger fields@[k]]
                        0 <= k < i ==> fields@[k].name@ == values@[k].name@ && value_matches(
                            fields@[k].logical_type,
                            values@[k].value,
                        ),
                decreases fields@.len() - i,
            {
                if fields[i].name != values[i].name || !check_value(
                    &fields[i].logical_type,
                    &values[i].value,
                ) {
                    assert(!(fields@[i as int].name@ == values@[i as int].name@ && value_matches(
                        fields@[i as int].logical_type,
                        values@[i as int].value,
                    )));
                    return false;
                }
                i += 1;
            }
            true
        },
        (LogicalType::MapType { key, value: value_type }, LogicalValue::MapValue { entries }) => {
            let mut i: usize = 0;
            while i < entries.len()
                invariant
                    i <= entries@.len(),
                    decreases_to!(*logical_type => **key),
                    decreases_to!(*logical_type => **value_type),
                    *logical_type == (LogicalType::MapType { key: *key, value: *value_type }),
                    *value == (LogicalValue::MapValue { entries: *entries }),
                    forall|k: int|
                        #![trigger entries@[k]]
                        0 <= k < i ==> value_matches(**key, entries@[k].key) && value_matches(
                            **value_type,
                            entries@[k].value,
                        ),
                decreases entries@.len() - i,
            {
                if !check_value(key, &entries[i].key) || !check_value(
                    value_type,
                    &entries[i].value,
                ) {
                    assert(!(value_matches(**key, entries@[i as int].key) && value_matches(
                        **value_type,
                        entries@[i as int].value,
                    )));
                    return false;
                }
                i += 1;
            }
            true
        },
        (
            LogicalType::Range { element },
            LogicalValue::Range { lower, upper, empty: _, lower_inclusive: _, upper_inclusive: _ },
        ) => bound_matches(element, lower) && bound_matches(element, upper),
        (LogicalType::MultiRange { element }, LogicalValue::MultiRange { ranges }) => {
            let mut i: usize = 0;
            while i < ranges.len()
                invariant
                    i <= ranges@.len(),
                    decreases_to!(*logical_type => **element),
                    *logical_type == (LogicalType::MultiRange { element: *element }),
                    *value == (LogicalValue::MultiRange { ranges: *ranges }),
                    forall|k: int|
                        #![trigger ranges@[k]]
                        0 <= k < i ==> ranges@[k] is Range && (ranges@[k]->lower matches Some(bound)
                            ==> value_matches(**element, *bound)) && (
                        ranges@[k]->upper matches Some(bound) ==> value_matches(
                            **element,
                            *bound,
                        )),
                decreases ranges@.len() - i,
            {
                let fits = match &ranges[i] {
                    LogicalValue::Range {
                        lower,
                        upper,
                        empty: _,
                        lower_inclusive: _,
                        upper_inclusive: _,
                    } => bound_matches(element, lower) && bound_matches(element, upper),
                    _ => false,
                };
                if !fits {
                    assert(!(ranges@[i as int] is Range && (
                    ranges@[i as int]->lower matches Some(bound) ==> value_matches(
                        **element,
                        *bound,
                    )) && (ranges@[i as int]->upper matches Some(bound) ==> value_matches(
                        **element,
                        *bound,
                    ))));
                    return false;
                }
                i += 1;
            }
            true
        },
        (
            LogicalType::Domain {
                base,
                name: _,
                constraints: _,
                not_null: _,
                collation: _,
                definition_digest: _,
            },
            value,
        ) => match value {
            LogicalValue::Domain { value: inner } => check_value(base, inner),
            other => check_value(base, other),
        },
        (
            LogicalType::Raw { codec_identity, native_type, source_definition_digest, encoding },
            LogicalValue::Raw { carrier },
        ) => *codec_identity == carrier.codec_identity && *native_type == carrier.native_type
            && *source_definition_digest == carrier.source_definition_digest && *encoding
            == carrier.encoding,
        _ => false,
    }
}

fn same_srid(left: Option<i32>, right: Option<i32>) -> (result: bool)
    ensures
        result == (left == right),
{
    match (left, right) {
        (Some(a), Some(b)) => a == b,
        (None, None) => true,
        _ => false,
    }
}

fn same_ints(left: &Vec<i32>, right: &Vec<i32>) -> (result: bool)
    ensures
        result == (left@ == right@),
{
    if left.len() != right.len() {
        return false;
    }
    let mut i: usize = 0;
    while i < left.len()
        invariant
            i <= left@.len() == right@.len(),
            forall|k: int| 0 <= k < i ==> left@[k] == right@[k],
        decreases left@.len() - i,
    {
        if left[i] != right[i] {
            return false;
        }
        i += 1;
    }
    assert(left@ =~= right@);
    true
}

/// The text without its minus sign.
pub fn without_minus(text: &str) -> (result: String)
    ensures
        result@ == unsigned_part(text@),
{
    let chars = chars_of(text);
    if chars.len() > 0 && chars[0] == '-' {
        let rest = text_between(&chars, 1, chars.len());
        assert(rest@ =~= text@.drop_first());
        rest
    } else {
        text.to_owned()
    }
}

} // verus!
