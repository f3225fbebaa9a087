//! Which capabilities of a manifest can hold a source field in a target field.
use crate::change_event::compatibility::capability::TargetCapabilityProbe;
use crate::change_event::compatibility::logical_type::LogicalType;
use crate::change_event::compatibility::types::{
    CapabilityEntry, CapabilityProbeStatus, FieldDefinition, PresenceState, QualificationLevel,
    RuleReference,
};
use crate::change_event::model::Operation;
use crate::change_event::validate::{eq_optional_text, same_optional_text};
use crate::json::{same_value, Contract};
use crate::parameters::Parameters;
use crate::text::{
    chars_of, concat, eq_ignore_case, has_prefix, lower, same, same_ignoring_case, starts_with,
    text_between, texts, to_lower, trim, trimmed,
};
use vstd::prelude::*;

verus! {

/// A field that belongs to a key or locates rows.
pub open spec fn key_like(field: FieldDefinition) -> bool {
    field.primary_key_ordinal is Some || field.unique || field.row_locator
}

pub(crate) fn is_key_like(field: &FieldDefinition) -> (result: bool)
    ensures
        result == key_like(*field),
{
    field.primary_key_ordinal.is_some() || field.unique || field.row_locator
}

/// A character set that text can be converted from and to.
pub open spec fn supported_charset(charset: Seq<char>) -> bool {
    let name = lower(charset);
    name == "utf8"@ || name == "utf8mb4"@ || name == "utf-8"@ || name == "ascii"@ || name
        == "latin1"@ || name == "iso-8859-1"@
}

pub(crate) fn text_charset_supported(charset: &str) -> (result: bool)
    ensures
        result == supported_charset(charset@),
{
    let name = to_lower(charset);
    let name = name.as_str();
    same(name, "utf8") || same(name, "utf8mb4") || same(name, "utf-8") || same(name, "ascii")
        || same(name, "latin1") || same(name, "iso-8859-1")
}

/// The shape of a structured type.
pub open spec fn recursive_kind(logical_type: LogicalType) -> Option<Seq<char>> {
    match logical_type {
        LogicalType::Array { .. } => Some("array"@),
        LogicalType::ArrayWithMetadata { .. } => Some("array"@),
        LogicalType::Struct { .. } => Some("struct"@),
        LogicalType::MapType { .. } => Some("map"@),
        LogicalType::Range { .. } => Some("range"@),
        LogicalType::MultiRange { .. } => Some("multi_range"@),
        _ => None,
    }
}

pub(crate) fn recursive_type_kind(logical_type: &LogicalType) -> (result: Option<&'static str>)
    ensures
        match result {
            Some(kind) => recursive_kind(*logical_type) == Some(kind@),
            None => recursive_kind(*logical_type) is None,
        },
{
    match logical_type {
        LogicalType::Array { .. } => Some("array"),
        LogicalType::ArrayWithMetadata { .. } => Some("array"),
        LogicalType::Struct { .. } => Some("struct"),
        LogicalType::MapType { .. } => Some("map"),
        LogicalType::Range { .. } => Some("range"),
        LogicalType::MultiRange { .. } => Some("multi_range"),
        _ => None,
    }
}

/// Two types have one shape, and it is a structured one.
pub(crate) fn same_recursive_kind(left: &LogicalType, right: &LogicalType) -> (result: bool)
    ensures
        result == (recursive_kind(*left) is Some && recursive_kind(*left) == recursive_kind(
            *right,
        )),
{
    match (recursive_type_kind(left), recursive_type_kind(right)) {
        (Some(a), Some(b)) => same(a, b),
        _ => false,
    }
}

/// The kind of a temporal type.
pub open spec fn temporal_name(logical_type: LogicalType) -> Seq<char> {
    match logical_type {
        LogicalType::LocalDatetime { .. } => "local_datetime"@,
        LogicalType::Instant { .. } => "instant"@,
        LogicalType::Duration { .. } => "duration"@,
        _ => "unknown"@,
    }
}

/// The precision of a temporal type.
pub open spec fn temporal_places(logical_type: LogicalType) -> u8 {
    match logical_type {
        LogicalType::LocalDatetime { fractional_precision } => fractional_precision,
        LogicalType::Instant { fractional_precision } => fractional_precision,
        LogicalType::Duration { fractional_precision } => fractional_precision,
        _ => 0,
    }
}

/// A type with a temporal kind.
pub open spec fn temporal_type(logical_type: LogicalType) -> bool {
    logical_type is LocalDatetime || logical_type is Instant || logical_type is Duration
}

pub(crate) fn temporal_details(logical_type: &LogicalType) -> (result: (&'static str, u8))
    ensures
        result.0@ == temporal_name(*logical_type),
        result.1 == temporal_places(*logical_type),
{
    match logical_type {
        LogicalType::LocalDatetime { fractional_precision } => (
            "local_datetime",
            *fractional_precision,
        ),
        LogicalType::Instant { fractional_precision } => ("instant", *fractional_precision),
        LogicalType::Duration { fractional_precision } => ("duration", *fractional_precision),
        _ => ("unknown", 0),
    }
}

pub(crate) fn is_temporal_type(logical_type: &LogicalType) -> (result: bool)
    ensures
        result == temporal_type(*logical_type),
{
    matches!(
        logical_type,
        LogicalType::LocalDatetime { .. } | LogicalType::Instant { .. } | LogicalType::Duration {
            ..
        }
    )
}

/// As many members, and every one among the others.
pub open spec fn same_members(left: Seq<String>, right: Seq<String>) -> bool {
    left.len() == right.len() && forall|i: int|
        0 <= i < left.len() ==> texts(right).contains((#[trigger] left[i])@)
}

pub(crate) fn have_same_members(left: &Vec<String>, right: &Vec<String>) -> (result: bool)
    ensures
        result == same_members(left@, right@),
{
    if left.len() != right.len() {
        return false;
    }
    let mut i: usize = 0;
    while i < left.len()
        invariant
            i <= left@.len() == right@.len(),
            forall|k: int| 0 <= k < i ==> texts(right@).contains((#[trigger] left@[k])@),
        decreases left@.len() - i,
    {
        if !crate::change_event::compatibility::values::members::is_listed(
            right,
            left[i].as_str(),
        ) {
            return false;
        }
        i += 1;
    }
    true
}

pub(crate) fn same_texts(left: &Vec<String>, right: &Vec<String>) -> (result: bool)
    ensures
        result == (texts(left@) == texts(right@)),
{
    if left.len() != right.len() {
        assert(texts(left@).len() != texts(right@).len());
        return false;
    }
    let mut i: usize = 0;
    while i < left.len()
        invariant
            i <= left@.len() == right@.len(),
            forall|k: int| 0 <= k < i ==> (#[trigger] texts(left@)[k]) == texts(right@)[k],
        decreases left@.len() - i,
    {
        if !same(left[i].as_str(), right[i].as_str()) {
            assert(texts(left@)[i as int] != texts(right@)[i as int]);
            return false;
        }
        i += 1;
    }
    assert(texts(left@) =~= texts(right@));
    true
}

pub(crate) fn same_length(left: &Option<u64>, right: &Option<u64>) -> (result: bool)
    ensures
        result == (*left == *right),
{
    match (left, right) {
        (Some(a), Some(b)) => *a == *b,
        (None, None) => true,
        _ => false,
    }
}

pub(crate) fn same_srid(left: &Option<i32>, right: &Option<i32>) -> (result: bool)
    ensures
        result == (*left == *right),
{
    match (left, right) {
        (Some(a), Some(b)) => *a == *b,
        (None, None) => true,
        _ => false,
    }
}

pub(crate) fn parameter_is(parameters: &Parameters, name: &str, wanted: &str) -> (result: bool)
    ensures
        result == (parameters.value_of(name@) == Some(wanted@)),
{
    match parameters.get(name) {
        Some(value) => same(value, wanted),
        None => false,
    }
}

// ---------------------------------------------------------------------------
// The source
// ---------------------------------------------------------------------------

/// The entry stands for all numbers of a family.
pub open spec fn range_template(entry: CapabilityEntry) -> bool {
    match entry.source_logical_type {
        LogicalType::Integer { bits, .. } => bits == 0,
        LogicalType::Decimal { precision, .. } => precision == 0,
        LogicalType::Float { bits } => bits == 0,
        _ => false,
    }
}

pub(crate) fn is_range_template(entry: &CapabilityEntry) -> (result: bool)
    ensures
        result == range_template(*entry),
{
    match &entry.source_logical_type {
        LogicalType::Integer { bits, .. } => *bits == 0,
        LogicalType::Decimal { precision, .. } => *precision == 0,
        LogicalType::Float { bits } => *bits == 0,
        _ => false,
    }
}

/// A pattern stands for a source type that it does not equal.
pub open spec fn pattern_matches(pattern: LogicalType, source: LogicalType) -> bool {
    match (pattern, source) {
        (LogicalType::Integer { bits: any, .. }, LogicalType::Integer { bits, .. }) => any == 0
            && crate::change_event::validate::supported_width(bits),
        (LogicalType::Decimal { precision: any, .. }, LogicalType::Decimal { precision, scale }) =>
            any == 0 && precision > 0 && scale >= 0,
        (LogicalType::Float { bits: any }, LogicalType::Float { bits }) => any == 0 && (bits == 32
            || bits == 64),
        (LogicalType::Text { charset: any, .. }, LogicalType::Text { charset, .. }) => any@ == "*"@
            && supported_charset(charset@),
        (
            LogicalType::LocalDatetime { fractional_precision },
            LogicalType::LocalDatetime { .. },
        ) => fractional_precision == 255,
        (LogicalType::Instant { fractional_precision }, LogicalType::Instant { .. }) =>
            fractional_precision == 255,
        (LogicalType::Duration { fractional_precision }, LogicalType::Duration { .. }) =>
            fractional_precision == 255,
        (LogicalType::Enum { members: any }, LogicalType::Enum { members }) => any@.len() == 0
            && members@.len() > 0,
        (LogicalType::SetType { members: any }, LogicalType::SetType { members }) => any@.len() == 0
            && members@.len() > 0,
        (LogicalType::Spatial { subtype, srid, dimensions }, LogicalType::Spatial { .. }) =>
            subtype@ == "*"@ && srid is None && dimensions == 0,
        (LogicalType::Opaque { source_type, format }, _) => source_type@ == "*"@ && format@
            == "recursive"@ && recursive_kind(source) is Some,
        _ => false,
    }
}

/// The entry describes the source type, or stands for it as a pattern.
pub open spec fn source_matches(entry: CapabilityEntry, source: LogicalType) -> bool {
    entry.source_logical_type.doc() == source.doc() || pattern_matches(
        entry.source_logical_type,
        source,
    )
}

fn does_pattern_match(pattern: &LogicalType, source: &LogicalType) -> (result: bool)
    ensures
        result == pattern_matches(*pattern, *source),
{
    match (pattern, source) {
        (LogicalType::Integer { bits: any, .. }, LogicalType::Integer { bits, .. }) => *any == 0
            && (*bits == 8 || *bits == 16 || *bits == 24 || *bits == 32 || *bits == 64),
        (LogicalType::Decimal { precision: any, .. }, LogicalType::Decimal { precision, scale }) =>
            *any == 0 && *precision > 0 && *scale >= 0,
        (LogicalType::Float { bits: any }, LogicalType::Float { bits }) => *any == 0 && (*bits == 32
            || *bits == 64),
        (LogicalType::Text { charset: any, .. }, LogicalType::Text { charset, .. }) => same(
            any.as_str(),
            "*",
        ) && text_charset_supported(charset.as_str()),
        (
            LogicalType::LocalDatetime { fractional_precision },
            LogicalType::LocalDatetime { .. },
        ) => *fractional_precision == 255,
        (LogicalType::Instant { fractional_precision }, LogicalType::Instant { .. }) =>
            *fractional_precision == 255,
        (LogicalType::Duration { fractional_precision }, LogicalType::Duration { .. }) =>
            *fractional_precision == 255,
        (LogicalType::Enum { members: any }, LogicalType::Enum { members }) => any.len() == 0
            && members.len() > 0,
        (LogicalType::SetType { members: any }, LogicalType::SetType { members }) => any.len() == 0
            && members.len() > 0,
        (LogicalType::Spatial { subtype, srid, dimensions }, LogicalType::Spatial { .. }) => same(
            subtype.as_str(),
            "*",
        ) && srid.is_none() && *dimensions == 0,
        (LogicalType::Opaque { source_type, format }, _) => same(source_type.as_str(), "*") && same(
            format.as_str(),
            "recursive",
        ) && recursive_type_kind(source).is_some(),
        _ => false,
    }
}

pub(crate) fn capability_matches_source(entry: &CapabilityEntry, source: &LogicalType) -> (result: bool)
    ensures
        result == source_matches(*entry, *source),
{
    same_value(&entry.source_logical_type, source) || does_pattern_match(
        &entry.source_logical_type,
        source,
    )
}

// ---------------------------------------------------------------------------
// The target
// ---------------------------------------------------------------------------

/// The text up to the first bracket, space or tab.
pub open spec fn base_name(text: Seq<char>) -> Seq<char>
    decreases text.len(),
{
    if text.len() == 0 || text[0] == '(' || text[0] == ' ' || text[0] == '\t' {
        Seq::empty()
    } else {
        seq![text[0]] + base_name(text.drop_first())
    }
}

pub(crate) fn read_base_name(text: &str) -> (result: String)
    ensures
        result@ == base_name(text@),
{
    let chars = chars_of(text);
    let mut at: usize = 0;
    assert(chars@.take(0) + base_name(chars@.skip(0)) =~= base_name(chars@)) by {
        assert(chars@.skip(0) =~= chars@);
    }
    while at < chars.len() && !(chars[at] == '(' || chars[at] == ' ' || chars[at] == '\t')
        invariant
            at <= chars@.len(),
            chars@.take(at as int) + base_name(chars@.skip(at as int)) == base_name(chars@),
        decreases chars@.len() - at,
    {
        let ghost rest = chars@.skip(at as int);
        assert(rest[0] == chars@[at as int]);
        assert(rest.drop_first() =~= chars@.skip(at + 1));
        assert(chars@.take(at + 1) + base_name(chars@.skip(at + 1)) =~= chars@.take(at as int) + (
        seq![rest[0]] + base_name(rest.drop_first())));
        at += 1;
    }
    let result = text_between(&chars, 0, at);
    assert(base_name(chars@.skip(at as int)) =~= Seq::<char>::empty());
    assert(result@ =~= base_name(chars@));
    result
}

/// A native type that holds geometries in MySQL.
pub open spec fn mysql_spatial(native_type: Seq<char>) -> bool {
    let base = base_name(lower(trim(native_type)));
    base == "geometry"@ || base == "point"@ || base == "linestring"@ || base == "polygon"@ || base
        == "multipoint"@ || base == "multilinestring"@ || base == "multipolygon"@ || base
        == "geometrycollection"@
}

pub(crate) fn mysql_spatial_native_type(native_type: &str) -> (result: bool)
    ensures
        result == mysql_spatial(native_type@),
{
    let kept = trimmed(native_type);
    let lowered = to_lower(kept.as_str());
    let base = read_base_name(lowered.as_str());
    let base = base.as_str();
    same(base, "geometry") || same(base, "point") || same(base, "linestring") || same(
        base,
        "polygon",
    ) || same(base, "multipoint") || same(base, "multilinestring") || same(base, "multipolygon")
        || same(base, "geometrycollection")
}

/// The target of an entry is a geometry column of any name.
pub open spec fn geometry_target(entry: CapabilityEntry) -> bool {
    entry.target.parameters.value_of("conversion_kind"@) == Some("spatial"@)
        || entry.target.parameters.value_of("target_storage"@) == Some("mysql_geometry"@)
}

fn is_geometry_target(entry: &CapabilityEntry) -> (result: bool)
    ensures
        result == geometry_target(*entry),
{
    parameter_is(&entry.target.parameters, "conversion_kind", "spatial") || parameter_is(
        &entry.target.parameters,
        "target_storage",
        "mysql_geometry",
    )
}

/// A name that takes arguments, with an argument list behind it.
pub open spec fn parametrized(native_type: Seq<char>, name: Seq<char>) -> bool {
    has_prefix(lower(trim(native_type)), name + "("@)
}

fn is_parametrized(native_type: &str, name: &str) -> (result: bool)
    ensures
        result == parametrized(native_type@, name@),
{
    let kept = trimmed(native_type);
    let lowered = to_lower(kept.as_str());
    let wanted = concat(name, "(");
    starts_with(lowered.as_str(), wanted.as_str())
}

/// The native type of an entry is the one of a target field.
pub open spec fn target_matches(entry: CapabilityEntry, target: FieldDefinition) -> bool {
    let native = lower(entry.target.native_type@);
    if same_ignoring_case(entry.target.native_type@, target.native_type@) {
        true
    } else if geometry_target(entry) {
        target.logical_type is Spatial && mysql_spatial(target.native_type@)
    } else if (native == "geometry"@ || native == "geography"@) && parametrized(
        target.native_type@,
        native,
    ) {
        target.logical_type is Spatial
    } else if native == "enum"@ && target.logical_type is Enum {
        parametrized(target.native_type@, "enum"@)
    } else if native == "set"@ && target.logical_type is SetType {
        parametrized(target.native_type@, "set"@)
    } else {
        false
    }
}

pub(crate) fn target_representation_matches_binding(
    entry: &CapabilityEntry,
    target: &FieldDefinition,
) -> (result: bool)
    ensures
        result == target_matches(*entry, *target),
{
    if eq_ignore_case(entry.target.native_type.as_str(), target.native_type.as_str()) {
        return true;
    }
    let spatial = matches!(target.logical_type, LogicalType::Spatial { .. });
    if is_geometry_target(entry) {
        return spatial && mysql_spatial_native_type(target.native_type.as_str());
    }
    let native = to_lower(entry.target.native_type.as_str());
    let native = native.as_str();
    if (same(native, "geometry") || same(native, "geography")) && is_parametrized(
        target.native_type.as_str(),
        native,
    ) {
        return spatial;
    }
    if same(native, "enum") && matches!(target.logical_type, LogicalType::Enum { .. }) {
        return is_parametrized(target.native_type.as_str(), "enum");
    }
    if same(native, "set") && matches!(target.logical_type, LogicalType::SetType { .. }) {
        return is_parametrized(target.native_type.as_str(), "set");
    }
    false
}

/// The native type of a candidate: that of the entry, or that of the target
/// field where the entry names a family of types.
pub open spec fn candidate_native(entry: CapabilityEntry, target: FieldDefinition) -> Seq<char> {
    let native = entry.target.native_type@;
    if lower(native) == "enum"@ || lower(native) == "set"@ || geometry_target(entry) {
        target.native_type@
    } else if (native == "geometry"@ || native == "geography"@) && parametrized(
        target.native_type@,
        native,
    ) {
        target.native_type@
    } else {
        native
    }
}

pub(crate) fn candidate_native_type(
    entry: &CapabilityEntry,
    target: &FieldDefinition,
) -> (result: String)
    ensures
        result@ == candidate_native(*entry, *target),
{
    let native = entry.target.native_type.as_str();
    let lowered = to_lower(native);
    if same(lowered.as_str(), "enum") || same(lowered.as_str(), "set") || is_geometry_target(
        entry,
    ) {
        return target.native_type.clone();
    }
    if (same(native, "geometry") || same(native, "geography")) && is_parametrized(
        target.native_type.as_str(),
        native,
    ) {
        return target.native_type.clone();
    }
    native.to_owned()
}

// ---------------------------------------------------------------------------
// Exact bindings
// ---------------------------------------------------------------------------

/// Every text of the source's character set is one of the target's. Both UTF8
/// and utf8mb4 represent complete UTF-8; a three-byte utf8 is safe only when the
/// target is the wider encoding, never in the reverse direction. Only the name in
/// capitals is the complete encoding, so case tells UTF8 and utf8 apart.
pub open spec fn charset_fits(source: Seq<char>, target: Seq<char>) -> bool {
    ||| same_ignoring_case(source, target) && (source == "UTF8"@ ==> target == "UTF8"@)
    ||| target == "UTF8"@ && (same_ignoring_case(source, "utf8"@) || same_ignoring_case(
        source,
        "utf8mb4"@,
    ))
    ||| source == "UTF8"@ && same_ignoring_case(target, "utf8mb4"@)
    ||| same_ignoring_case(source, "utf8"@) && same_ignoring_case(target, "utf8mb4"@)
}

pub fn text_charsets_are_compatible(source: &str, target: &str) -> (result: bool)
    ensures
        result == charset_fits(source@, target@),
{
    (eq_ignore_case(source, target) && (!same(source, "UTF8") || same(target, "UTF8"))) || (same(target, "UTF8") && (eq_ignore_case(source, "utf8")
        || eq_ignore_case(source, "utf8mb4"))) || (same(source, "UTF8") && eq_ignore_case(
        target,
        "utf8mb4",
    )) || (eq_ignore_case(source, "utf8") && eq_ignore_case(target, "utf8mb4"))
}

/// A three-byte utf8 takes no texts of a complete encoding.
pub proof fn law_complete_texts_are_never_narrowed(source: Seq<char>, target: Seq<char>)
    requires
        source == "UTF8"@ || same_ignoring_case(source, "utf8mb4"@),
        same_ignoring_case(target, "utf8"@),
        target != "UTF8"@,
    ensures
        !charset_fits(source, target),
{
    reveal_strlit("UTF8");
    reveal_strlit("utf8");
    reveal_strlit("utf8mb4");
    assert(lower("utf8mb4"@).len() == 7 && lower("utf8"@).len() == 4);
    assert(lower(source).len() == source.len() && lower(target).len() == target.len());
}

/// Every utf8 encoding widens to a complete one, and the complete ones take each
/// other's texts.
pub proof fn law_complete_encodings_take_every_text(source: Seq<char>, target: Seq<char>)
    requires
        same_ignoring_case(source, "utf8"@) || same_ignoring_case(source, "utf8mb4"@),
        target == "UTF8"@ || same_ignoring_case(target, "utf8mb4"@),
    ensures
        charset_fits(source, target),
{
    reveal_strlit("UTF8");
    reveal_strlit("utf8");
    reveal_strlit("utf8mb4");
    assert(lower("UTF8"@) =~= lower("utf8"@));
    assert(lower("utf8mb4"@).len() == 7 && lower("utf8"@).len() == 4);
}

/// A text field keeps its values in a target field.
pub open spec fn text_exact(source: FieldDefinition, target: FieldDefinition) -> bool {
    match (source.logical_type, target.logical_type) {
        (
            LogicalType::Text { charset: a, max_length: m, length_unit: u, .. },
            LogicalType::Text { charset: b, max_length: n, length_unit: v, .. },
        ) => charset_fits(a@, b@) && m == n && u == v && (source.collation is None
            || target.collation is None || same_optional_text(source.collation, target.collation)),
        _ => target.logical_type is Opaque,
    }
}

fn text_binding_is_exact(source: &FieldDefinition, target: &FieldDefinition) -> (result: bool)
    ensures
        result == text_exact(*source, *target),
{
    match (&source.logical_type, &target.logical_type) {
        (
            LogicalType::Text { charset: a, max_length: m, length_unit: u, .. },
            LogicalType::Text { charset: b, max_length: n, length_unit: v, .. },
        ) => text_charsets_are_compatible(a.as_str(), b.as_str()) && same_length(m, n) && *u == *v
            && (source.collation.is_none() || target.collation.is_none() || eq_optional_text(
            &source.collation,
            &target.collation,
        )),
        _ => matches!(target.logical_type, LogicalType::Opaque { .. }),
    }
}

/// A temporal field keeps its values in a target field.
pub open spec fn temporal_exact(source: FieldDefinition, target: FieldDefinition) -> bool {
    if temporal_type(target.logical_type) {
        temporal_name(source.logical_type) == temporal_name(target.logical_type) && temporal_places(
            source.logical_type,
        ) == temporal_places(target.logical_type)
    } else {
        target.logical_type is Opaque
    }
}

fn temporal_binding_is_exact(source: &FieldDefinition, target: &FieldDefinition) -> (result: bool)
    ensures
        result == temporal_exact(*source, *target),
{
    if !is_temporal_type(&target.logical_type) {
        return matches!(target.logical_type, LogicalType::Opaque { .. });
    }
    let (source_kind, source_precision) = temporal_details(&source.logical_type);
    let (target_kind, target_precision) = temporal_details(&target.logical_type);
    same(source_kind, target_kind) && source_precision == target_precision
}

/// A type whose exact representation an opaque target cannot promise.
pub open spec fn needs_declared_target(logical_type: LogicalType) -> bool {
    logical_type is Binary || logical_type is BitString || logical_type is Spatial
        || logical_type is Array || logical_type is Struct || logical_type is MapType
        || logical_type is Range || logical_type is MultiRange
}

/// An exact entry keeps the values of a source field in a target field. Exact
/// entries for integers, decimals and floating-point numbers may deliberately
/// use a wider target; the entry is the evidence for that.
pub open spec fn exact_matches(
    entry: CapabilityEntry,
    source: FieldDefinition,
    target: FieldDefinition,
) -> bool {
    if !(entry.rule.qualification is Exact) {
        true
    } else if target.logical_type is Opaque && !needs_declared_target(source.logical_type) {
        true
    } else {
        match source.logical_type {
            LogicalType::Text { .. } => text_exact(source, target),
            LogicalType::LocalDatetime { .. } => temporal_exact(source, target),
            LogicalType::Instant { .. } => temporal_exact(source, target),
            LogicalType::Duration { .. } => temporal_exact(source, target),
            LogicalType::Enum { members } => target.logical_type matches LogicalType::Enum {
                members: others,
            } && texts(members@) == texts(others@),
            LogicalType::SetType { members } => target.logical_type matches LogicalType::SetType {
                members: others,
            } && same_members(members@, others@),
            LogicalType::Binary { max_length } => target.logical_type matches LogicalType::Binary {
                max_length: other,
            } && max_length == other,
            LogicalType::BitString { length } => target.logical_type matches
                LogicalType::BitString { length: other } && length == other,
            LogicalType::Spatial { subtype, srid, dimensions } => target.logical_type matches
                LogicalType::Spatial { subtype: s, srid: i, dimensions: d } && same_ignoring_case(
                subtype@,
                s@,
            ) && srid == i && dimensions == d,
            LogicalType::Array { .. } => source.logical_type.doc() == target.logical_type.doc(),
            LogicalType::Struct { .. } => source.logical_type.doc() == target.logical_type.doc(),
            LogicalType::MapType { .. } => source.logical_type.doc() == target.logical_type.doc(),
            LogicalType::Range { .. } => source.logical_type.doc() == target.logical_type.doc(),
            LogicalType::MultiRange { .. } => source.logical_type.doc()
                == target.logical_type.doc(),
            _ => true,
        }
    }
}

pub(crate) fn exact_candidate_matches_binding(
    entry: &CapabilityEntry,
    source: &FieldDefinition,
    target: &FieldDefinition,
) -> (result: bool)
    ensures
        result == exact_matches(*entry, *source, *target),
{
    if !matches!(entry.rule.qualification, QualificationLevel::Exact) {
        return true;
    }
    if matches!(target.logical_type, LogicalType::Opaque { .. }) && !matches!(
        source.logical_type,
        LogicalType::Binary { .. }
            | LogicalType::BitString { .. }
            | LogicalType::Spatial { .. }
            | LogicalType::Array { .. }
            | LogicalType::Struct { .. }
            | LogicalType::MapType { .. }
            | LogicalType::Range { .. }
            | LogicalType::MultiRange { .. }
    ) {
        return true;
    }
    match &source.logical_type {
        LogicalType::Text { .. } => text_binding_is_exact(source, target),
        LogicalType::LocalDatetime { .. } => temporal_binding_is_exact(source, target),
        LogicalType::Instant { .. } => temporal_binding_is_exact(source, target),
        LogicalType::Duration { .. } => temporal_binding_is_exact(source, target),
        LogicalType::Enum { members } => match &target.logical_type {
            LogicalType::Enum { members: others } => same_texts(members, others),
            _ => false,
        },
        LogicalType::SetType { members } => match &target.logical_type {
            LogicalType::SetType { members: others } => have_same_members(members, others),
            _ => false,
        },
        LogicalType::Binary { max_length } => match &target.logical_type {
            LogicalType::Binary { max_length: other } => same_length(max_length, other),
            _ => false,
        },
        LogicalType::BitString { length } => match &target.logical_type {
            LogicalType::BitString { length: other } => *length == *other,
            _ => false,
        },
        LogicalType::Spatial { subtype, srid, dimensions } => match &target.logical_type {
            LogicalType::Spatial { subtype: s, srid: i, dimensions: d } => eq_ignore_case(
                subtype.as_str(),
                s.as_str(),
            ) && same_srid(srid, i) && *dimensions == *d,
            _ => false,
        },
        LogicalType::Array { .. } => same_value(&source.logical_type, &target.logical_type),
        LogicalType::Struct { .. } => same_value(&source.logical_type, &target.logical_type),
        LogicalType::MapType { .. } => same_value(&source.logical_type, &target.logical_type),
        LogicalType::Range { .. } => same_value(&source.logical_type, &target.logical_type),
        LogicalType::MultiRange { .. } => same_value(&source.logical_type, &target.logical_type),
        _ => true,
    }
}

// ---------------------------------------------------------------------------
// Explicit conversions
// ---------------------------------------------------------------------------

/// The selection names the rule of an entry.
pub open spec fn selects(selected: Option<RuleReference>, entry: CapabilityEntry) -> bool {
    selected matches Some(rule) && rule.id@ == entry.rule.id@
}

fn does_select(selected: &Option<RuleReference>, entry: &CapabilityEntry) -> (result: bool)
    ensures
        result == selects(*selected, *entry),
{
    match selected {
        Some(rule) => same(rule.id.as_str(), entry.rule.id.as_str()),
        None => false,
    }
}

/// An entry that converts explicitly does so between these fields. No field of
/// a key, and none that locates rows, is converted.
pub open spec fn explicit_matches(
    entry: CapabilityEntry,
    source: FieldDefinition,
    target: FieldDefinition,
    selected: Option<RuleReference>,
) -> bool {
    match entry.target.parameters.value_of("conversion_kind"@) {
        None => true,
        Some(kind) => if key_like(source) || key_like(target) {
            false
        } else if kind == "text"@ {
            source.logical_type matches LogicalType::Text { charset, .. } && supported_charset(
                charset@,
            ) && (selects(selected, entry) || !text_exact(source, target))
        } else if kind == "json"@ {
            source.logical_type is Json && target.logical_type is Text
        } else if kind == "enum"@ {
            source.logical_type matches LogicalType::Enum { members } && target.logical_type matches
                LogicalType::Enum { members: others } && same_members(members@, others@) && (selects(
                selected,
                entry,
            ) || texts(members@) != texts(others@))
        } else if kind == "temporal"@ {
            temporal_type(source.logical_type) && (selects(selected, entry) || !temporal_exact(
                source,
                target,
            ))
        } else if kind == "recursive"@ {
            recursive_kind(source.logical_type) is Some && target.logical_type is Json && (
            selected is None || selects(selected, entry))
        } else {
            false
        },
    }
}

pub(crate) fn explicit_template_matches_binding(
    entry: &CapabilityEntry,
    source: &FieldDefinition,
    target: &FieldDefinition,
    selected: &Option<RuleReference>,
) -> (result: bool)
    ensures
        result == explicit_matches(*entry, *source, *target, *selected),
{
    let kind = match entry.target.parameters.get("conversion_kind") {
        Some(kind) => kind,
        None => {
            return true;
        },
    };
    if is_key_like(source) || is_key_like(target) {
        return false;
    }
    if same(kind, "text") {
        match &source.logical_type {
            LogicalType::Text { charset, .. } => text_charset_supported(charset.as_str()) && (
            does_select(selected, entry) || !text_binding_is_exact(source, target)),
            _ => false,
        }
    } else if same(kind, "json") {
        matches!(source.logical_type, LogicalType::Json { .. }) && matches!(
            target.logical_type,
            LogicalType::Text { .. }
        )
    } else if same(kind, "enum") {
        match (&source.logical_type, &target.logical_type) {
            (LogicalType::Enum { members }, LogicalType::Enum { members: others }) => {
                have_same_members(members, others) && (does_select(selected, entry) || !same_texts(
                    members,
                    others,
                ))
            },
            _ => false,
        }
    } else if same(kind, "temporal") {
        is_temporal_type(&source.logical_type) && (does_select(selected, entry)
            || !temporal_binding_is_exact(source, target))
    } else if same(kind, "recursive") {
        recursive_type_kind(&source.logical_type).is_some() && matches!(
            target.logical_type,
            LogicalType::Json { .. }
        ) && (selected.is_none() || does_select(selected, entry))
    } else {
        false
    }
}

// ---------------------------------------------------------------------------
// Evidence, operations and presence
// ---------------------------------------------------------------------------

/// A probe, where there is one, has qualified the entry.
pub open spec fn probe_qualifies(probe: Option<TargetCapabilityProbe>, entry: CapabilityEntry) -> bool {
    probe matches Some(evidence) ==> exists|i: int|
        0 <= i < evidence.capabilities@.len() && (#[trigger] evidence.capabilities@[i]).identity@
            == entry.code@ && evidence.capabilities@[i].status is Qualified
}

pub(crate) fn probe_qualifies_capability(
    probe: &Option<TargetCapabilityProbe>,
    entry: &CapabilityEntry,
) -> (result: bool)
    ensures
        result == probe_qualifies(*probe, *entry),
{
    let evidence = match probe {
        Some(evidence) => evidence,
        None => {
            return true;
        },
    };
    let mut i: usize = 0;
    while i < evidence.capabilities.len()
        invariant
            i <= evidence.capabilities@.len(),
            *probe == Some(*evidence),
            forall|k: int|
                0 <= k < i ==> !((#[trigger] evidence.capabilities@[k]).identity@ == entry.code@
                    && evidence.capabilities@[k].status is Qualified),
        decreases evidence.capabilities@.len() - i,
    {
        if same(evidence.capabilities[i].identity.as_str(), entry.code.as_str()) && matches!(
            evidence.capabilities[i].status,
            CapabilityProbeStatus::Qualified
        ) {
            return true;
        }
        i += 1;
    }
    false
}

/// Everything that is required is supported.
pub open spec fn supports_all<T>(supported: Seq<T>, required: Seq<T>) -> bool {
    forall|i: int| 0 <= i < required.len() ==> supported.contains(#[trigger] required[i])
}

/// An entry and its rule support what is required; an empty list declares
/// nothing.
pub open spec fn supports_declared<T>(entry: Seq<T>, rule: Seq<T>, required: Seq<T>) -> bool {
    (entry.len() == 0 || supports_all(entry, required)) && (rule.len() == 0 || supports_all(
        rule,
        required,
    ))
}

fn supports_operation(supported: &Vec<Operation>, wanted: Operation) -> (result: bool)
    ensures
        result == supported@.contains(wanted),
{
    let mut i: usize = 0;
    while i < supported.len()
        invariant
            i <= supported@.len(),
            forall|k: int| 0 <= k < i ==> #[trigger] supported@[k] != wanted,
        decreases supported@.len() - i,
    {
        if supported[i] == wanted {
            assert(supported@[i as int] == wanted);
            return true;
        }
        i += 1;
    }
    false
}

fn supports_all_operations(supported: &Vec<Operation>, required: &Vec<Operation>) -> (result: bool)
    ensures
        result == supports_all(supported@, required@),
{
    let mut i: usize = 0;
    while i < required.len()
        invariant
            i <= required@.len(),
            forall|k: int| 0 <= k < i ==> supported@.contains(#[trigger] required@[k]),
        decreases required@.len() - i,
    {
        if !supports_operation(supported, required[i]) {
            return false;
        }
        i += 1;
    }
    true
}

pub(crate) fn operations_declared(
    entry: &Vec<Operation>,
    rule: &Vec<Operation>,
    required: &Vec<Operation>,
) -> (result: bool)
    ensures
        result == supports_declared(entry@, rule@, required@),
{
    (entry.len() == 0 || supports_all_operations(entry, required)) && (rule.len() == 0
        || supports_all_operations(rule, required))
}

pub(crate) fn supports_presence(supported: &Vec<PresenceState>, wanted: PresenceState) -> (result: bool)
    ensures
        result == supported@.contains(wanted),
{
    let mut i: usize = 0;
    while i < supported.len()
        invariant
            i <= supported@.len(),
            forall|k: int| 0 <= k < i ==> #[trigger] supported@[k] != wanted,
        decreases supported@.len() - i,
    {
        if supported[i] == wanted {
            assert(supported@[i as int] == wanted);
            return true;
        }
        i += 1;
    }
    false
}

fn supports_all_presences(
    supported: &Vec<PresenceState>,
    required: &Vec<PresenceState>,
) -> (result: bool)
    ensures
        result == supports_all(supported@, required@),
{
    let mut i: usize = 0;
    while i < required.len()
        invariant
            i <= required@.len(),
            forall|k: int| 0 <= k < i ==> supported@.contains(#[trigger] required@[k]),
        decreases required@.len() - i,
    {
        if !supports_presence(supported, required[i]) {
            return false;
        }
        i += 1;
    }
    true
}

pub(crate) fn presences_declared(
    entry: &Vec<PresenceState>,
    rule: &Vec<PresenceState>,
    required: &Vec<PresenceState>,
) -> (result: bool)
    ensures
        result == supports_declared(entry@, rule@, required@),
{
    (entry.len() == 0 || supports_all_presences(entry, required)) && (rule.len() == 0
        || supports_all_presences(rule, required))
}

// ---------------------------------------------------------------------------
// What a match promises
// ---------------------------------------------------------------------------

/// An exact entry binds a field only to one that keeps all of its values: texts
/// of the same length in the same unit, times of the same kind and precision,
/// the same labels in the same order, the same members, bytes and bits of the
/// same length, geometries of the same kind, and structures that are the same
/// altogether.
pub proof fn law_an_exact_binding_keeps_every_value(
    entry: CapabilityEntry,
    source: FieldDefinition,
    target: FieldDefinition,
)
    requires
        entry.rule.qualification is Exact,
        exact_matches(entry, source, target),
        !(target.logical_type is Opaque),
    ensures
        match source.logical_type {
            LogicalType::Text { charset, max_length, length_unit, .. } => {
                &&& target.logical_type matches LogicalType::Text {
                    charset: other,
                    max_length: other_length,
                    length_unit: other_unit,
                    ..
                }
                &&& max_length == other_length && length_unit == other_unit
                &&& charset_fits(charset@, other@)
                &&& source.collation is Some && target.collation is Some ==> source.collation->0@
                    == target.collation->0@
            },
            LogicalType::LocalDatetime { fractional_precision } => target.logical_type
                == LogicalType::LocalDatetime { fractional_precision },
            LogicalType::Instant { fractional_precision } => target.logical_type
                == LogicalType::Instant { fractional_precision },
            LogicalType::Duration { fractional_precision } => target.logical_type
                == LogicalType::Duration { fractional_precision },
            LogicalType::Enum { members } => target.logical_type matches LogicalType::Enum {
                members: others,
            } && members@.len() == others@.len() && forall|i: int|
                0 <= i < members@.len() ==> (#[trigger] members@[i])@ == others@[i]@,
            LogicalType::SetType { members } => target.logical_type matches LogicalType::SetType {
                members: others,
            } && members@.len() == others@.len() && forall|i: int|
                0 <= i < members@.len() ==> texts(others@).contains((#[trigger] members@[i])@),
            LogicalType::Binary { max_length } => target.logical_type == LogicalType::Binary {
                max_length,
            },
            LogicalType::BitString { length } => target.logical_type == LogicalType::BitString {
                length,
            },
            LogicalType::Spatial { subtype, srid, dimensions } => target.logical_type matches
                LogicalType::Spatial { subtype: s, srid: i, dimensions: d } && srid == i
                && dimensions == d && same_ignoring_case(subtype@, s@),
            LogicalType::Array { .. } => target.logical_type.doc() == source.logical_type.doc(),
            LogicalType::Struct { .. } => target.logical_type.doc() == source.logical_type.doc(),
            LogicalType::MapType { .. } => target.logical_type.doc() == source.logical_type.doc(),
            LogicalType::Range { .. } => target.logical_type.doc() == source.logical_type.doc(),
            LogicalType::MultiRange { .. } => target.logical_type.doc() == source.logical_type.doc(),
            _ => true,
        },
{
    reveal_strlit("local_datetime");
    reveal_strlit("instant");
    reveal_strlit("duration");
    assert("local_datetime"@.len() == 14 && "instant"@.len() == 7 && "duration"@.len() == 8);
    if let LogicalType::Enum { members } = source.logical_type {
        if let LogicalType::Enum { members: others } = target.logical_type {
            assert(texts(members@).len() == texts(others@).len());
            assert forall|i: int| 0 <= i < members@.len() implies (#[trigger] members@[i])@
                == others@[i]@ by {
                assert(texts(members@)[i] == texts(others@)[i]);
            }
        }
    }
    if let LogicalType::SetType { members } = source.logical_type {
        if let LogicalType::SetType { members: others } = target.logical_type {
            assert forall|i: int| 0 <= i < members@.len() implies texts(others@).contains(
                (#[trigger] members@[i])@,
            ) by {
                assert(texts(members@)[i] == members@[i]@);
            }
        }
    }
}

/// Bytes, bits, geometries and structures never go into a column whose type is
/// not known.
pub proof fn law_an_unknown_type_takes_no_bytes(
    entry: CapabilityEntry,
    source: FieldDefinition,
    target: FieldDefinition,
)
    requires
        entry.rule.qualification is Exact,
        target.logical_type is Opaque,
        source.logical_type is Binary || source.logical_type is BitString || source.logical_type
            is Spatial,
    ensures
        !exact_matches(entry, source, target),
{
}

/// An explicit conversion is never one of a key, and it converts what it says:
/// texts, documents into texts, labels into the same labels, times, and
/// structures into documents.
pub proof fn law_a_conversion_converts_what_it_says(
    entry: CapabilityEntry,
    source: FieldDefinition,
    target: FieldDefinition,
    selected: Option<RuleReference>,
    kind: Seq<char>,
)
    requires
        entry.target.parameters.value_of("conversion_kind"@) == Some(kind),
        explicit_matches(entry, source, target, selected),
    ensures
        source.primary_key_ordinal is None && !source.unique && !source.row_locator,
        target.primary_key_ordinal is None && !target.unique && !target.row_locator,
        kind == "text"@ || kind == "json"@ || kind == "enum"@ || kind == "temporal"@ || kind
            == "recursive"@,
        kind == "text"@ ==> source.logical_type is Text,
        kind == "json"@ ==> source.logical_type is Json && target.logical_type is Text,
        kind == "enum"@ ==> {
            &&& source.logical_type matches LogicalType::Enum { members }
            &&& target.logical_type matches LogicalType::Enum { members: others }
            &&& members@.len() == others@.len()
            &&& forall|i: int|
                0 <= i < members@.len() ==> texts(others@).contains((#[trigger] members@[i])@)
        },
        kind == "temporal"@ ==> source.logical_type is LocalDatetime || source.logical_type
            is Instant || source.logical_type is Duration,
        kind == "recursive"@ ==> target.logical_type is Json && (source.logical_type is Array
            || source.logical_type is ArrayWithMetadata || source.logical_type is Struct
            || source.logical_type is MapType || source.logical_type is Range
            || source.logical_type is MultiRange),
{
    reveal_strlit("text");
    reveal_strlit("json");
    reveal_strlit("enum");
    reveal_strlit("temporal");
    reveal_strlit("recursive");
    assert("text"@.len() == 4 && "json"@.len() == 4 && "enum"@.len() == 4 && "temporal"@.len() == 8
        && "recursive"@.len() == 9);
    assert("text"@[0] != "json"@[0] && "text"@[0] != "enum"@[0] && "json"@[0] != "enum"@[0]);
}

/// An entry speaks of the type of its source, or stands for all types of one
/// family; it never takes a type of another family.
pub proof fn law_an_entry_stays_in_its_family(entry: CapabilityEntry, source: LogicalType)
    requires
        source_matches(entry, source),
        entry.source_logical_type.doc() != source.doc(),
    ensures
        match entry.source_logical_type {
            LogicalType::Integer { bits, .. } => bits == 0 && (source matches LogicalType::Integer {
                bits: own,
                ..
            } && (own == 8 || own == 16 || own == 24 || own == 32 || own == 64)),
            LogicalType::Decimal { precision, .. } => precision == 0 && (source matches
                LogicalType::Decimal { precision: own, scale } && own > 0 && scale >= 0),
            LogicalType::Float { bits } => bits == 0 && (source matches LogicalType::Float {
                bits: own,
            } && (own == 32 || own == 64)),
            LogicalType::Text { charset, .. } => charset@ == "*"@ && source is Text,
            LogicalType::LocalDatetime { .. } => source is LocalDatetime,
            LogicalType::Instant { .. } => source is Instant,
            LogicalType::Duration { .. } => source is Duration,
            LogicalType::Enum { members } => members@.len() == 0 && source is Enum,
            LogicalType::SetType { members } => members@.len() == 0 && source is SetType,
            LogicalType::Spatial { .. } => source is Spatial,
            LogicalType::Opaque { .. } => source is Array || source is ArrayWithMetadata || source
                is Struct || source is MapType || source is Range || source is MultiRange,
            _ => false,
        },
{
}

/// The column of the target has the native type of the entry, but for a geometry
/// column, and for labels and members that the column lists itself.
pub proof fn law_a_target_has_the_native_type_of_its_entry(
    entry: CapabilityEntry,
    target: FieldDefinition,
)
    requires
        target_matches(entry, target),
        lower(entry.target.native_type@) != lower(target.native_type@),
    ensures
        target.logical_type is Spatial || (target.logical_type is Enum && has_prefix(
            lower(trim(target.native_type@)),
            "enum("@,
        )) || (target.logical_type is SetType && has_prefix(
            lower(trim(target.native_type@)),
            "set("@,
        )),
{
    reveal_strlit("enum");
    reveal_strlit("set");
    reveal_strlit("(");
    reveal_strlit("enum(");
    reveal_strlit("set(");
    assert("enum"@ + "("@ =~= "enum("@);
    assert("set"@ + "("@ =~= "set("@);
}

} // verus!
