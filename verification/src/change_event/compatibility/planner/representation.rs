//! The representation that a plan saves: the candidate's, with the details of
//! the source and the target.
use crate::change_event::compatibility::logical_type::{LengthUnit, LogicalType};
use crate::change_event::compatibility::planner::matching::{
    is_temporal_type, parameter_is, recursive_kind, recursive_type_kind, same_recursive_kind,
    temporal_details, temporal_name, temporal_places, temporal_type,
};
use crate::change_event::compatibility::types::TargetRepresentation;
use crate::change_event::compatibility::values::numeric::{highest, lowest};
use crate::change_event::validate::supported_width;
use crate::json::{json_text, text_array, texts_doc, write_json};
use crate::number::{
    decimal, decimal_signed, decimal_text, decimal_text_signed, parse_u64, parse_u8, parse_unsigned,
};
use crate::parameters::{lookup, with_parameter, Parameters};
use crate::text::{
    concat, has_prefix, lower, split_at_first, split_once, starts_with, to_lower, trim, trimmed,
};
use vstd::prelude::*;

verus! {

/// Parameters by ascending name.
pub type Entries = Seq<(Seq<char>, Seq<char>)>;

// ---------------------------------------------------------------------------
// Texts of details
// ---------------------------------------------------------------------------

pub open spec fn flag_text(flag: bool) -> Seq<char> {
    if flag {
        "true"@
    } else {
        "false"@
    }
}

pub(crate) fn spell_flag(flag: bool) -> (result: &'static str)
    ensures
        result@ == flag_text(flag),
{
    if flag {
        "true"
    } else {
        "false"
    }
}

pub open spec fn length_text(length: Option<u64>) -> Seq<char> {
    match length {
        Some(length) => decimal(length as nat),
        None => "unbounded"@,
    }
}

pub(crate) fn spell_length(length: &Option<u64>) -> (result: String)
    ensures
        result@ == length_text(*length),
{
    match length {
        Some(length) => decimal_text(*length as u128),
        None => "unbounded".to_owned(),
    }
}

pub open spec fn unit_text(unit: LengthUnit) -> Seq<char> {
    match unit {
        LengthUnit::Bytes => "bytes"@,
        LengthUnit::Characters => "characters"@,
    }
}

pub(crate) fn format_length_unit(unit: LengthUnit) -> (result: &'static str)
    ensures
        result@ == unit_text(unit),
{
    match unit {
        LengthUnit::Bytes => "bytes",
        LengthUnit::Characters => "characters",
    }
}

pub open spec fn srid_text(srid: Option<i32>) -> Seq<char> {
    match srid {
        Some(srid) => decimal_signed(srid as int),
        None => "unknown"@,
    }
}

fn spatial_srid(srid: &Option<i32>) -> (result: String)
    ensures
        result@ == srid_text(*srid),
{
    match srid {
        Some(srid) => decimal_text_signed(*srid as i128),
        None => "unknown".to_owned(),
    }
}

pub open spec fn crs_text(srid: Option<i32>) -> Seq<char> {
    match srid {
        Some(srid) => "srid:"@ + decimal_signed(srid as int),
        None => "unknown"@,
    }
}

fn spatial_crs(srid: &Option<i32>) -> (result: String)
    ensures
        result@ == crs_text(*srid),
{
    match srid {
        Some(srid) => {
            let number = decimal_text_signed(*srid as i128);
            concat("srid:", number.as_str())
        },
        None => "unknown".to_owned(),
    }
}

/// A text, or `default` where there is none.
pub open spec fn text_or(text: Option<Seq<char>>, default: Seq<char>) -> Seq<char> {
    match text {
        Some(text) => text,
        None => default,
    }
}

pub open spec fn optional_or(text: Option<String>, default: Seq<char>) -> Seq<char> {
    match text {
        Some(text) => text@,
        None => default,
    }
}

pub(crate) fn read_optional_or(text: &Option<String>, default: &str) -> (result: String)
    ensures
        result@ == optional_or(*text, default@),
{
    match text {
        Some(text) => text.clone(),
        None => default.to_owned(),
    }
}

fn chosen_or(parameters: &Parameters, key: &str, default: &str) -> (result: String)
    ensures
        result@ == text_or(parameters.value_of(key@), default@),
{
    match parameters.get(key) {
        Some(value) => value.to_owned(),
        None => default.to_owned(),
    }
}

/// The chosen value, that of the representation otherwise, or `default`.
pub open spec fn either_or(
    chosen: Entries,
    own: Entries,
    key: Seq<char>,
    default: Seq<char>,
) -> Seq<char> {
    match lookup(chosen, key) {
        Some(value) => value,
        None => text_or(lookup(own, key), default),
    }
}

fn chosen_or_own(
    parameters: &Parameters,
    own: &Parameters,
    key: &str,
    default: &str,
) -> (result: String)
    ensures
        result@ == either_or(parameters.entries(), own.entries(), key@, default@),
{
    match parameters.get(key) {
        Some(value) => value.to_owned(),
        None => chosen_or(own, key, default),
    }
}

/// What stands between the first bracket and the one that closes it.
pub open spec fn bracketed(text: Seq<char>) -> Option<Seq<char>> {
    match split_once(text, '(') {
        None => None,
        Some((_, rest)) => match split_once(rest, ')') {
            None => None,
            Some((inner, _)) => Some(inner),
        },
    }
}

pub(crate) fn read_bracketed(text: &str) -> (result: Option<String>)
    ensures
        (match result {
            Some(inner) => Some(inner@),
            None => None,
        }) == bracketed(text@),
{
    match split_at_first(text, '(') {
        None => None,
        Some((_, rest)) => match split_at_first(rest.as_str(), ')') {
            None => None,
            Some((inner, _)) => Some(inner),
        },
    }
}

// ---------------------------------------------------------------------------
// Binary fields
// ---------------------------------------------------------------------------

/// The native type pads its values.
pub open spec fn binary_fixed(native_type: Seq<char>) -> bool {
    has_prefix(lower(trim(native_type)), "binary("@)
}

/// The length of a binary field: that of the native type first.
pub open spec fn binary_length(length: Option<u64>, native_type: Seq<char>) -> Seq<char> {
    match bracketed(lower(trim(native_type))) {
        None => length_text(length),
        Some(inner) => match parse_unsigned(inner, u64::MAX as nat) {
            Some(number) => decimal(number),
            None => length_text(length),
        },
    }
}

pub open spec fn binary_padding(native_type: Seq<char>) -> Seq<char> {
    if binary_fixed(native_type) {
        "zero"@
    } else {
        "none"@
    }
}

fn binary_details(length: &Option<u64>, native_type: &str) -> (result: (String, bool, &'static str))
    ensures
        result.0@ == binary_length(*length, native_type@),
        result.1 == binary_fixed(native_type@),
        result.2@ == binary_padding(native_type@),
{
    let kept = trimmed(native_type);
    let native = to_lower(kept.as_str());
    let fixed = starts_with(native.as_str(), "binary(");
    let length = match read_bracketed(native.as_str()) {
        None => spell_length(length),
        Some(inner) => match parse_u64(inner.as_str()) {
            Some(number) => decimal_text(number as u128),
            None => spell_length(length),
        },
    };
    (
        length,
        fixed,
        if fixed {
            "zero"
        } else {
            "none"
        },
    )
}

// ---------------------------------------------------------------------------
// Text targets
// ---------------------------------------------------------------------------

pub open spec fn text_charset(target: LogicalType, chosen: Entries) -> Seq<char> {
    text_or(
        lookup(chosen, "target_charset"@),
        match target {
            LogicalType::Text { charset, .. } => charset@,
            _ => "UTF8"@,
        },
    )
}

pub open spec fn text_length(target: LogicalType, chosen: Entries) -> Seq<char> {
    text_or(
        lookup(chosen, "target_length"@),
        match target {
            LogicalType::Text { max_length, .. } => length_text(max_length),
            _ => "unbounded"@,
        },
    )
}

pub open spec fn text_unit(target: LogicalType, chosen: Entries) -> Seq<char> {
    text_or(
        lookup(chosen, "target_length_unit"@),
        match target {
            LogicalType::Text { length_unit, .. } => unit_text(length_unit),
            _ => "characters"@,
        },
    )
}

pub open spec fn text_collation(target: LogicalType, chosen: Entries) -> Seq<char> {
    text_or(
        lookup(chosen, "target_collation"@),
        match target {
            LogicalType::Text { collation, .. } => optional_or(collation, "none"@),
            _ => "none"@,
        },
    )
}

fn target_text_details(target: &LogicalType, parameters: &Parameters) -> (result: (
    String,
    String,
    String,
    String,
))
    ensures
        result.0@ == text_charset(*target, parameters.entries()),
        result.1@ == text_length(*target, parameters.entries()),
        result.2@ == text_unit(*target, parameters.entries()),
        result.3@ == text_collation(*target, parameters.entries()),
{
    match target {
        LogicalType::Text { charset, max_length, length_unit, collation } => {
            let length = spell_length(max_length);
            let default_collation = read_optional_or(collation, "none");
            (
                chosen_or(parameters, "target_charset", charset.as_str()),
                chosen_or(parameters, "target_length", length.as_str()),
                chosen_or(parameters, "target_length_unit", format_length_unit(*length_unit)),
                chosen_or(parameters, "target_collation", default_collation.as_str()),
            )
        },
        _ => (
            chosen_or(parameters, "target_charset", "UTF8"),
            chosen_or(parameters, "target_length", "unbounded"),
            chosen_or(parameters, "target_length_unit", "characters"),
            chosen_or(parameters, "target_collation", "none"),
        ),
    }
}

// ---------------------------------------------------------------------------
// Temporal targets
// ---------------------------------------------------------------------------

/// A kind that a parameter names.
pub open spec fn named_temporal(name: Option<Seq<char>>) -> Seq<char> {
    if name == Some("local_datetime"@) || name == Some("instant"@) || name == Some("duration"@) {
        name->0
    } else {
        "unknown"@
    }
}

pub(crate) fn read_named_temporal(parameters: &Parameters) -> (result: &'static str)
    ensures
        result@ == named_temporal(parameters.value_of("target_temporal_kind"@)),
{
    if parameter_is(parameters, "target_temporal_kind", "local_datetime") {
        "local_datetime"
    } else if parameter_is(parameters, "target_temporal_kind", "instant") {
        "instant"
    } else if parameter_is(parameters, "target_temporal_kind", "duration") {
        "duration"
    } else {
        "unknown"
    }
}

/// A precision that a parameter names.
pub open spec fn named_precision(chosen: Entries) -> Option<nat> {
    match lookup(chosen, "target_precision"@) {
        Some(text) => parse_unsigned(text, 255),
        None => None,
    }
}

pub(crate) fn read_named_precision(parameters: &Parameters) -> (result: Option<u8>)
    ensures
        match result {
            Some(precision) => named_precision(parameters.entries()) == Some(precision as nat),
            None => named_precision(parameters.entries()) is None,
        },
{
    match parameters.get("target_precision") {
        Some(text) => parse_u8(text),
        None => None,
    }
}

/// The kind of a temporal target.
pub open spec fn planned_kind(target: LogicalType, chosen: Entries) -> Seq<char> {
    if temporal_type(target) {
        temporal_name(target)
    } else {
        named_temporal(lookup(chosen, "target_temporal_kind"@))
    }
}

/// The precision of a temporal target.
pub open spec fn planned_precision(target: LogicalType, chosen: Entries) -> nat {
    match named_precision(chosen) {
        Some(precision) => precision,
        None => temporal_places(target) as nat,
    }
}

fn temporal_details_with_parameters(target: &LogicalType, parameters: &Parameters) -> (result: (
    &'static str,
    u8,
))
    ensures
        result.0@ == planned_kind(*target, parameters.entries()),
        result.1 as nat == planned_precision(*target, parameters.entries()),
{
    let (kind, precision) = temporal_details(target);
    let chosen: u8 = match read_named_precision(parameters) {
        Some(named) => named,
        None => precision,
    };
    if is_temporal_type(target) {
        (kind, chosen)
    } else {
        (read_named_temporal(parameters), chosen)
    }
}

// ---------------------------------------------------------------------------
// The representation
// ---------------------------------------------------------------------------

pub open spec fn integer_entries(
    own: Entries,
    source_signed: bool,
    source_bits: u8,
    target_signed: bool,
    target_bits: u8,
) -> Entries {
    let e = with_parameter(own, "source_signed"@, flag_text(source_signed));
    let e = with_parameter(e, "source_bits"@, decimal(source_bits as nat));
    let e = with_parameter(e, "target_signed"@, flag_text(target_signed));
    let e = with_parameter(e, "target_bits"@, decimal(target_bits as nat));
    let e = with_parameter(e, "range_check"@, "strict"@);
    if supported_width(target_bits) {
        let e = with_parameter(
            e,
            "target_min"@,
            decimal_signed(lowest(target_signed, target_bits)),
        );
        with_parameter(e, "target_max"@, decimal_signed(highest(target_signed, target_bits)))
    } else {
        e
    }
}

/// The digits that a decimal target has in front of its decimal point.
pub open spec fn whole_digits(precision: u16, scale: i32) -> int {
    if precision - scale > 0 {
        precision - scale
    } else {
        0
    }
}

pub open spec fn decimal_entries(
    own: Entries,
    source_precision: u16,
    source_scale: i32,
    target_precision: u16,
    target_scale: i32,
) -> Entries {
    let e = with_parameter(own, "source_precision"@, decimal(source_precision as nat));
    let e = with_parameter(e, "source_scale"@, decimal_signed(source_scale as int));
    let e = with_parameter(e, "target_precision"@, decimal(target_precision as nat));
    let e = with_parameter(e, "target_scale"@, decimal_signed(target_scale as int));
    let e = with_parameter(e, "range_check"@, "strict"@);
    let e = with_parameter(e, "rounding_mode"@, "reject"@);
    with_parameter(
        e,
        "target_integer_digits"@,
        decimal_signed(whole_digits(target_precision, target_scale)),
    )
}

pub open spec fn float_entries(own: Entries, source_bits: u8, target_bits: u8) -> Entries {
    let e = with_parameter(own, "source_bits"@, decimal(source_bits as nat));
    let e = with_parameter(e, "target_bits"@, decimal(target_bits as nat));
    let e = with_parameter(e, "range_check"@, "strict"@);
    with_parameter(e, "rounding_mode"@, "reject"@)
}

pub open spec fn binary_entries(
    own: Entries,
    chosen: Entries,
    native: Seq<char>,
    source_length: Option<u64>,
    target_length: Option<u64>,
) -> Entries {
    let source_native = text_or(lookup(chosen, "source_native_type"@), ""@);
    let target_native = text_or(lookup(chosen, "target_native_type"@), native);
    let e = with_parameter(own, "conversion_kind"@, "binary"@);
    let e = with_parameter(e, "binary_encoding"@, "raw_bytes"@);
    let e = with_parameter(e, "binary_length_unit"@, "bytes"@);
    let e = with_parameter(e, "source_length"@, binary_length(source_length, source_native));
    let e = with_parameter(e, "target_length"@, binary_length(target_length, target_native));
    let e = with_parameter(e, "source_fixed"@, flag_text(binary_fixed(source_native)));
    let e = with_parameter(e, "target_fixed"@, flag_text(binary_fixed(target_native)));
    let e = with_parameter(e, "source_padding"@, binary_padding(source_native));
    with_parameter(e, "target_padding"@, binary_padding(target_native))
}

pub open spec fn bit_entries(
    own: Entries,
    chosen: Entries,
    source_length: u64,
    target_length: u64,
) -> Entries {
    let source_order = either_or(chosen, own, "source_bit_order"@, "msb_first"@);
    let target_order = either_or(chosen, own, "target_bit_order"@, source_order);
    let source_padding = either_or(chosen, own, "source_padding"@, "zero"@);
    let target_padding = either_or(chosen, own, "target_padding"@, source_padding);
    let e = with_parameter(own, "conversion_kind"@, "bit_string"@);
    let e = with_parameter(e, "source_bit_length"@, decimal(source_length as nat));
    let e = with_parameter(e, "target_bit_length"@, decimal(target_length as nat));
    let e = with_parameter(e, "source_bit_order"@, source_order);
    let e = with_parameter(e, "target_bit_order"@, target_order);
    let e = with_parameter(e, "source_padding"@, source_padding);
    with_parameter(e, "target_padding"@, target_padding)
}

pub open spec fn spatial_entries(
    own: Entries,
    chosen: Entries,
    source: (Seq<char>, Option<i32>, u8),
    target: (Seq<char>, Option<i32>, u8),
) -> Entries {
    let e = with_parameter(own, "conversion_kind"@, "spatial"@);
    let e = with_parameter(e, "source_geometry_type"@, source.0);
    let e = with_parameter(e, "target_geometry_type"@, target.0);
    let e = with_parameter(e, "source_srid"@, srid_text(source.1));
    let e = with_parameter(e, "target_srid"@, srid_text(target.1));
    let e = with_parameter(e, "source_dimensions"@, decimal(source.2 as nat));
    let e = with_parameter(e, "target_dimensions"@, decimal(target.2 as nat));
    let e = with_parameter(
        e,
        "source_crs"@,
        text_or(lookup(chosen, "source_crs"@), crs_text(source.1)),
    );
    let e = with_parameter(
        e,
        "target_crs"@,
        text_or(lookup(chosen, "target_crs"@), crs_text(target.1)),
    );
    let e = with_parameter(
        e,
        "source_spatial_format"@,
        either_or(chosen, own, "source_spatial_format"@, "ewkb"@),
    );
    with_parameter(
        e,
        "target_spatial_format"@,
        either_or(chosen, own, "target_spatial_format"@, "ewkb"@),
    )
}

pub open spec fn structure_entries(own: Entries, kind: Seq<char>, mapping: Seq<char>) -> Entries {
    let e = with_parameter(own, "recursive_kind"@, kind);
    with_parameter(e, "structure_mapping"@, mapping)
}

pub open spec fn text_entries(
    own: Entries,
    chosen: Entries,
    source: (Seq<char>, Seq<char>, Seq<char>, Seq<char>),
    target: LogicalType,
) -> Entries {
    let e = with_parameter(own, "source_charset"@, source.0);
    let e = with_parameter(e, "source_length"@, source.1);
    let e = with_parameter(e, "source_length_unit"@, source.2);
    let e = with_parameter(e, "source_collation"@, source.3);
    let e = with_parameter(e, "target_charset"@, text_charset(target, chosen));
    let e = with_parameter(e, "target_length"@, text_length(target, chosen));
    let e = with_parameter(e, "target_length_unit"@, text_unit(target, chosen));
    with_parameter(e, "target_collation"@, text_collation(target, chosen))
}

pub open spec fn member_entries(
    own: Entries,
    strategy: Seq<char>,
    source: Seq<String>,
    target: Seq<String>,
) -> Entries {
    let e = with_parameter(own, "value_strategy"@, strategy);
    let e = with_parameter(e, "source_members"@, json_text(texts_doc(source)));
    with_parameter(e, "target_members"@, json_text(texts_doc(target)))
}

pub open spec fn temporal_entries(
    own: Entries,
    chosen: Entries,
    source: LogicalType,
    target: LogicalType,
) -> Entries {
    let e = with_parameter(own, "source_temporal_kind"@, temporal_name(source));
    let e = with_parameter(e, "target_temporal_kind"@, planned_kind(target, chosen));
    let e = with_parameter(e, "source_precision"@, decimal(temporal_places(source) as nat));
    with_parameter(e, "target_precision"@, decimal(planned_precision(target, chosen)))
}

/// The parameters of a planned representation, where the source and the target
/// are numbers and the representation checks ranges.
pub open spec fn range_entries(source: LogicalType, target: LogicalType, own: Entries) -> Option<
    Entries,
> {
    if lookup(own, "range_kind"@) is None {
        None
    } else {
        match (source, target) {
            (
                LogicalType::Integer { signed: a, bits: m },
                LogicalType::Integer { signed: b, bits: n },
            ) => Some(integer_entries(own, a, m, b, n)),
            (
                LogicalType::Decimal { precision: a, scale: m },
                LogicalType::Decimal { precision: b, scale: n },
            ) => Some(decimal_entries(own, a, m, b, n)),
            (LogicalType::Float { bits: m }, LogicalType::Float { bits: n }) => Some(
                float_entries(own, m, n),
            ),
            _ => None,
        }
    }
}

/// The parameters of a planned representation, where the source and the target
/// are bytes.
pub open spec fn byte_entries(
    source: LogicalType,
    target: LogicalType,
    native: Seq<char>,
    own: Entries,
    chosen: Entries,
) -> Option<Entries> {
    match (source, target) {
        (LogicalType::Binary { max_length: m }, LogicalType::Binary { max_length: n }) => Some(
            binary_entries(own, chosen, native, m, n),
        ),
        (LogicalType::BitString { length: m }, LogicalType::BitString { length: n }) => Some(
            bit_entries(own, chosen, m, n),
        ),
        (
            LogicalType::Spatial { subtype: a, srid: i, dimensions: d },
            LogicalType::Spatial { subtype: b, srid: j, dimensions: e },
        ) => Some(spatial_entries(own, chosen, (a@, i, d), (b@, j, e))),
        _ => None,
    }
}

/// The parameters of a planned representation for other types.
pub open spec fn other_entries(
    source: LogicalType,
    target: LogicalType,
    own: Entries,
    chosen: Entries,
) -> Entries {
    let conversion = lookup(own, "conversion_kind"@);
    if recursive_kind(source) is Some && recursive_kind(source) == recursive_kind(target) && lookup(
        own,
        "recursive_kind"@,
    ) is Some {
        structure_entries(own, recursive_kind(source)->0, "explicit"@)
    } else if recursive_kind(source) is Some && target is Json && conversion == Some(
        "recursive"@,
    ) {
        structure_entries(own, recursive_kind(source)->0, "json_value_carrier"@)
    } else if source is Text && conversion == Some("text"@) {
        match source {
            LogicalType::Text { charset, max_length, length_unit, collation } => text_entries(
                own,
                chosen,
                (
                    charset@,
                    length_text(max_length),
                    unit_text(length_unit),
                    optional_or(collation, "none"@),
                ),
                target,
            ),
            _ => own,
        }
    } else if source is Json && target is Text && conversion == Some("json"@) {
        with_parameter(
            text_entries(own, chosen, ("UTF8"@, "unbounded"@, "characters"@, "none"@), target),
            "json_strategy"@,
            text_or(lookup(chosen, "json_strategy"@), "normalized_text"@),
        )
    } else {
        match (source, target) {
            (LogicalType::Enum { members: a }, LogicalType::Enum { members: b }) => member_entries(
                own,
                "enum_label"@,
                a@,
                b@,
            ),
            (LogicalType::SetType { members: a }, LogicalType::SetType { members: b }) =>
                member_entries(own, "set_members"@, a@, b@),
            _ => if conversion == Some("temporal"@) {
                temporal_entries(own, chosen, source, target)
            } else {
                own
            },
        }
    }
}

/// The parameters of a planned representation.
pub open spec fn planned_entries(
    source: LogicalType,
    target: LogicalType,
    native: Seq<char>,
    own: Entries,
    chosen: Entries,
) -> Entries {
    match range_entries(source, target, own) {
        Some(entries) => entries,
        None => match byte_entries(source, target, native, own, chosen) {
            Some(entries) => entries,
            None => other_entries(source, target, own, chosen),
        },
    }
}

fn plan_integer(
    own: &Parameters,
    source_signed: bool,
    source_bits: u8,
    target_signed: bool,
    target_bits: u8,
) -> (result: Parameters)
    ensures
        result.entries() == integer_entries(
            own.entries(),
            source_signed,
            source_bits,
            target_signed,
            target_bits,
        ),
{
    let mut result = own.clone();
    let source_width = decimal_text(source_bits as u128);
    let target_width = decimal_text(target_bits as u128);
    result.insert("source_signed", spell_flag(source_signed));
    result.insert("source_bits", source_width.as_str());
    result.insert("target_signed", spell_flag(target_signed));
    result.insert("target_bits", target_width.as_str());
    result.insert("range_check", "strict");
    if target_bits == 8 || target_bits == 16 || target_bits == 24 || target_bits == 32
        || target_bits == 64 {
        let count: i128 = if target_bits == 8 {
            0x100
        } else if target_bits == 16 {
            0x1_0000
        } else if target_bits == 24 {
            0x100_0000
        } else if target_bits == 32 {
            0x1_0000_0000
        } else {
            0x1_0000_0000_0000_0000
        };
        let minimum: i128 = if target_signed {
            -(count / 2)
        } else {
            0
        };
        let maximum: i128 = if target_signed {
            count / 2 - 1
        } else {
            count - 1
        };
        let minimum = decimal_text_signed(minimum);
        let maximum = decimal_text_signed(maximum);
        result.insert("target_min", minimum.as_str());
        result.insert("target_max", maximum.as_str());
    }
    result
}

fn plan_decimal(
    own: &Parameters,
    source_precision: u16,
    source_scale: i32,
    target_precision: u16,
    target_scale: i32,
) -> (result: Parameters)
    ensures
        result.entries() == decimal_entries(
            own.entries(),
            source_precision,
            source_scale,
            target_precision,
            target_scale,
        ),
{
    let mut result = own.clone();
    let difference: i64 = target_precision as i64 - target_scale as i64;
    let whole: i64 = if difference > 0 {
        difference
    } else {
        0
    };
    let source_digits = decimal_text(source_precision as u128);
    let source_places = decimal_text_signed(source_scale as i128);
    let target_digits = decimal_text(target_precision as u128);
    let target_places = decimal_text_signed(target_scale as i128);
    let integer_digits = decimal_text_signed(whole as i128);
    result.insert("source_precision", source_digits.as_str());
    result.insert("source_scale", source_places.as_str());
    result.insert("target_precision", target_digits.as_str());
    result.insert("target_scale", target_places.as_str());
    result.insert("range_check", "strict");
    result.insert("rounding_mode", "reject");
    result.insert("target_integer_digits", integer_digits.as_str());
    result
}

fn plan_float(own: &Parameters, source_bits: u8, target_bits: u8) -> (result: Parameters)
    ensures
        result.entries() == float_entries(own.entries(), source_bits, target_bits),
{
    let mut result = own.clone();
    let source_width = decimal_text(source_bits as u128);
    let target_width = decimal_text(target_bits as u128);
    result.insert("source_bits", source_width.as_str());
    result.insert("target_bits", target_width.as_str());
    result.insert("range_check", "strict");
    result.insert("rounding_mode", "reject");
    result
}

fn plan_range(source: &LogicalType, target: &LogicalType, own: &Parameters) -> (result: Option<
    Parameters,
>)
    ensures
        match result {
            Some(entries) => range_entries(*source, *target, own.entries()) == Some(
                entries.entries(),
            ),
            None => range_entries(*source, *target, own.entries()) is None,
        },
{
    if !own.contains_key("range_kind") {
        return None;
    }
    match (source, target) {
        (
            LogicalType::Integer { signed: a, bits: m },
            LogicalType::Integer { signed: b, bits: n },
        ) => Some(plan_integer(own, *a, *m, *b, *n)),
        (
            LogicalType::Decimal { precision: a, scale: m },
            LogicalType::Decimal { precision: b, scale: n },
        ) => Some(plan_decimal(own, *a, *m, *b, *n)),
        (LogicalType::Float { bits: m }, LogicalType::Float { bits: n }) => Some(
            plan_float(own, *m, *n),
        ),
        _ => None,
    }
}

fn plan_binary(
    own: &Parameters,
    parameters: &Parameters,
    native: &str,
    source_length: &Option<u64>,
    target_length: &Option<u64>,
) -> (result: Parameters)
    ensures
        result.entries() == binary_entries(
            own.entries(),
            parameters.entries(),
            native@,
            *source_length,
            *target_length,
        ),
{
    let source_native = chosen_or(parameters, "source_native_type", "");
    let target_native = chosen_or(parameters, "target_native_type", native);
    let (source_size, source_fixed, source_padding) = binary_details(
        source_length,
        source_native.as_str(),
    );
    let (target_size, target_fixed, target_padding) = binary_details(
        target_length,
        target_native.as_str(),
    );
    let mut result = own.clone();
    result.insert("conversion_kind", "binary");
    result.insert("binary_encoding", "raw_bytes");
    result.insert("binary_length_unit", "bytes");
    result.insert("source_length", source_size.as_str());
    result.insert("target_length", target_size.as_str());
    result.insert("source_fixed", spell_flag(source_fixed));
    result.insert("target_fixed", spell_flag(target_fixed));
    result.insert("source_padding", source_padding);
    result.insert("target_padding", target_padding);
    result
}

fn plan_bits(
    own: &Parameters,
    parameters: &Parameters,
    source_length: u64,
    target_length: u64,
) -> (result: Parameters)
    ensures
        result.entries() == bit_entries(
            own.entries(),
            parameters.entries(),
            source_length,
            target_length,
        ),
{
    let source_order = chosen_or_own(parameters, own, "source_bit_order", "msb_first");
    let target_order = chosen_or_own(parameters, own, "target_bit_order", source_order.as_str());
    let source_padding = chosen_or_own(parameters, own, "source_padding", "zero");
    let target_padding = chosen_or_own(parameters, own, "target_padding", source_padding.as_str());
    let source_size = decimal_text(source_length as u128);
    let target_size = decimal_text(target_length as u128);
    let mut result = own.clone();
    result.insert("conversion_kind", "bit_string");
    result.insert("source_bit_length", source_size.as_str());
    result.insert("target_bit_length", target_size.as_str());
    result.insert("source_bit_order", source_order.as_str());
    result.insert("target_bit_order", target_order.as_str());
    result.insert("source_padding", source_padding.as_str());
    result.insert("target_padding", target_padding.as_str());
    result
}

fn plan_spatial(
    own: &Parameters,
    parameters: &Parameters,
    source: (&str, &Option<i32>, u8),
    target: (&str, &Option<i32>, u8),
) -> (result: Parameters)
    ensures
        result.entries() == spatial_entries(
            own.entries(),
            parameters.entries(),
            (source.0@, *source.1, source.2),
            (target.0@, *target.1, target.2),
        ),
{
    let source_default = spatial_crs(source.1);
    let target_default = spatial_crs(target.1);
    let source_crs = chosen_or(parameters, "source_crs", source_default.as_str());
    let target_crs = chosen_or(parameters, "target_crs", target_default.as_str());
    let source_srid = spatial_srid(source.1);
    let target_srid = spatial_srid(target.1);
    let source_dimensions = decimal_text(source.2 as u128);
    let target_dimensions = decimal_text(target.2 as u128);
    let source_format = chosen_or_own(parameters, own, "source_spatial_format", "ewkb");
    let target_format = chosen_or_own(parameters, own, "target_spatial_format", "ewkb");
    let mut result = own.clone();
    result.insert("conversion_kind", "spatial");
    result.insert("source_geometry_type", source.0);
    result.insert("target_geometry_type", target.0);
    result.insert("source_srid", source_srid.as_str());
    result.insert("target_srid", target_srid.as_str());
    result.insert("source_dimensions", source_dimensions.as_str());
    result.insert("target_dimensions", target_dimensions.as_str());
    result.insert("source_crs", source_crs.as_str());
    result.insert("target_crs", target_crs.as_str());
    result.insert("source_spatial_format", source_format.as_str());
    result.insert("target_spatial_format", target_format.as_str());
    result
}

fn plan_bytes(
    source: &LogicalType,
    target: &LogicalType,
    native: &str,
    own: &Parameters,
    parameters: &Parameters,
) -> (result: Option<Parameters>)
    ensures
        match result {
            Some(entries) => byte_entries(
                *source,
                *target,
                native@,
                own.entries(),
                parameters.entries(),
            ) == Some(entries.entries()),
            None => byte_entries(
                *source,
                *target,
                native@,
                own.entries(),
                parameters.entries(),
            ) is None,
        },
{
    match (source, target) {
        (LogicalType::Binary { max_length: m }, LogicalType::Binary { max_length: n }) => Some(
            plan_binary(own, parameters, native, m, n),
        ),
        (LogicalType::BitString { length: m }, LogicalType::BitString { length: n }) => Some(
            plan_bits(own, parameters, *m, *n),
        ),
        (
            LogicalType::Spatial { subtype: a, srid: i, dimensions: d },
            LogicalType::Spatial { subtype: b, srid: j, dimensions: e },
        ) => Some(plan_spatial(own, parameters, (a.as_str(), i, *d), (b.as_str(), j, *e))),
        _ => None,
    }
}

fn plan_structure(own: &Parameters, kind: &str, mapping: &str) -> (result: Parameters)
    ensures
        result.entries() == structure_entries(own.entries(), kind@, mapping@),
{
    let mut result = own.clone();
    result.insert("recursive_kind", kind);
    result.insert("structure_mapping", mapping);
    result
}

fn plan_text(
    own: &Parameters,
    parameters: &Parameters,
    source: (&str, &str, &str, &str),
    target: &LogicalType,
) -> (result: Parameters)
    ensures
        result.entries() == text_entries(
            own.entries(),
            parameters.entries(),
            (source.0@, source.1@, source.2@, source.3@),
            *target,
        ),
{
    let (charset, length, unit, collation) = target_text_details(target, parameters);
    let mut result = own.clone();
    result.insert("source_charset", source.0);
    result.insert("source_length", source.1);
    result.insert("source_length_unit", source.2);
    result.insert("source_collation", source.3);
    result.insert("target_charset", charset.as_str());
    result.insert("target_length", length.as_str());
    result.insert("target_length_unit", unit.as_str());
    result.insert("target_collation", collation.as_str());
    result
}

fn plan_members(
    own: &Parameters,
    strategy: &str,
    source: &Vec<String>,
    target: &Vec<String>,
) -> (result: Parameters)
    ensures
        result.entries() == member_entries(own.entries(), strategy@, source@, target@),
{
    let source_text = write_json(&text_array(source));
    let target_text = write_json(&text_array(target));
    let mut result = own.clone();
    result.insert("value_strategy", strategy);
    result.insert("source_members", source_text.as_str());
    result.insert("target_members", target_text.as_str());
    result
}

fn plan_temporal(
    own: &Parameters,
    parameters: &Parameters,
    source: &LogicalType,
    target: &LogicalType,
) -> (result: Parameters)
    ensures
        result.entries() == temporal_entries(own.entries(), parameters.entries(), *source, *target),
{
    let (source_kind, source_precision) = temporal_details(source);
    let (target_kind, target_precision) = temporal_details_with_parameters(target, parameters);
    let source_places = decimal_text(source_precision as u128);
    let target_places = decimal_text(target_precision as u128);
    let mut result = own.clone();
    result.insert("source_temporal_kind", source_kind);
    result.insert("target_temporal_kind", target_kind);
    result.insert("source_precision", source_places.as_str());
    result.insert("target_precision", target_places.as_str());
    result
}

fn plan_other(
    source: &LogicalType,
    target: &LogicalType,
    own: &Parameters,
    parameters: &Parameters,
) -> (result: Parameters)
    ensures
        result.entries() == other_entries(*source, *target, own.entries(), parameters.entries()),
{
    if let Some(kind) = recursive_type_kind(source) {
        if same_recursive_kind(source, target) && own.contains_key("recursive_kind") {
            return plan_structure(own, kind, "explicit");
        }
        if matches!(target, LogicalType::Json { .. }) && parameter_is(
            own,
            "conversion_kind",
            "recursive",
        ) {
            return plan_structure(own, kind, "json_value_carrier");
        }
    }
    if let LogicalType::Text { charset, max_length, length_unit, collation } = source {
        if parameter_is(own, "conversion_kind", "text") {
            let length = spell_length(max_length);
            let own_collation = read_optional_or(collation, "none");
            return plan_text(
                own,
                parameters,
                (
                    charset.as_str(),
                    length.as_str(),
                    format_length_unit(*length_unit),
                    own_collation.as_str(),
                ),
                target,
            );
        }
    }
    if matches!(source, LogicalType::Json { .. }) && matches!(target, LogicalType::Text { .. })
        && parameter_is(own, "conversion_kind", "json") {
        let mut result = plan_text(
            own,
            parameters,
            ("UTF8", "unbounded", "characters", "none"),
            target,
        );
        let strategy = chosen_or(parameters, "json_strategy", "normalized_text");
        result.insert("json_strategy", strategy.as_str());
        return result;
    }
    match (source, target) {
        (LogicalType::Enum { members: a }, LogicalType::Enum { members: b }) => plan_members(
            own,
            "enum_label",
            a,
            b,
        ),
        (LogicalType::SetType { members: a }, LogicalType::SetType { members: b }) => plan_members(
            own,
            "set_members",
            a,
            b,
        ),
        _ => if parameter_is(own, "conversion_kind", "temporal") {
            plan_temporal(own, parameters, source, target)
        } else {
            own.clone()
        },
    }
}

pub(crate) fn plan_target_representation(
    source: &LogicalType,
    target: &LogicalType,
    representation: &TargetRepresentation,
    parameters: &Parameters,
) -> (result: TargetRepresentation)
    ensures
        result.native_type@ == representation.native_type@,
        result.parameters.entries() == planned_entries(
            *source,
            *target,
            representation.native_type@,
            representation.parameters.entries(),
            parameters.entries(),
        ),
{
    let own = &representation.parameters;
    let native = representation.native_type.as_str();
    let planned = match plan_range(source, target, own) {
        Some(planned) => planned,
        None => match plan_bytes(source, target, native, own, parameters) {
            Some(planned) => planned,
            None => plan_other(source, target, own, parameters),
        },
    };
    TargetRepresentation { native_type: representation.native_type.clone(), parameters: planned }
}

} // verus!
