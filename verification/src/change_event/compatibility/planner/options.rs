//! The options of a rule, and the parameters that a conversion needs.
use crate::change_event::compatibility::logical_type::{LengthUnit, LogicalType};
use crate::change_event::compatibility::planner::matching::{
    have_same_members, is_temporal_type, parameter_is, recursive_kind, recursive_type_kind,
    same_members, same_recursive_kind, same_srid, supported_charset, temporal_details,
    temporal_name, temporal_places, temporal_type, text_charset_supported,
};
use crate::change_event::compatibility::planner::representation::{
    bracketed, format_length_unit, length_text, named_precision, named_temporal, optional_or,
    read_bracketed, read_named_precision, read_named_temporal, read_optional_or, spell_length,
    unit_text, Entries,
};
use crate::change_event::compatibility::types::{
    ConversionRule, FieldDefinition, OptionSpec, OptionValueKind, TargetRepresentation,
};
use crate::change_event::compatibility::values::temporal::utc;
use crate::number::{
    decimal, parse_i128, parse_i32, parse_signed, parse_u64, parse_u8, parse_unsigned,
};
use crate::parameters::{law_lookup_after_setting, lookup, with_parameter, Parameters};
use crate::text::{
    chars_of, concat, concat3, contains_text, eq_ignore_case, has_part, has_prefix, lower, same,
    same_ignoring_case, split_at_first, split_once, starts_with, text_between, texts, to_lower,
};
use vstd::prelude::*;

verus! {

// ---------------------------------------------------------------------------
// Options of a rule
// ---------------------------------------------------------------------------

/// A value that an option takes.
pub open spec fn option_takes(option: OptionSpec, value: Seq<char>) -> bool {
    &&& value.len() > 0
    &&& match option.value_kind {
        OptionValueKind::Boolean => value == "true"@ || value == "false"@,
        OptionValueKind::Integer => parse_signed(value, i128::MIN as int, i128::MAX as int) is Some,
        OptionValueKind::String => true,
        OptionValueKind::Enum => true,
    }
    &&& option.allowed_values@.len() == 0 || texts(option.allowed_values@).contains(value)
}

pub(crate) fn is_text_listed(list: &Vec<String>, value: &str) -> (result: bool)
    ensures
        result == texts(list@).contains(value@),
{
    let mut i: usize = 0;
    while i < list.len()
        invariant
            i <= list@.len(),
            forall|k: int| 0 <= k < i ==> #[trigger] texts(list@)[k] != value@,
        decreases list@.len() - i,
    {
        if same(list[i].as_str(), value) {
            assert(texts(list@)[i as int] == value@);
            return true;
        }
        i += 1;
    }
    false
}

fn valid_option_value(option: &OptionSpec, value: &str) -> (result: bool)
    ensures
        result == option_takes(*option, value@),
{
    if value.is_empty() {
        return false;
    }
    let kind_valid = match option.value_kind {
        OptionValueKind::Boolean => same(value, "true") || same(value, "false"),
        OptionValueKind::Integer => parse_i128(value).is_some(),
        OptionValueKind::String => true,
        OptionValueKind::Enum => true,
    };
    kind_valid && (option.allowed_values.len() == 0 || is_text_listed(
        &option.allowed_values,
        value,
    ))
}

/// The option of a name; of several, the last.
pub open spec fn option_named(options: Seq<OptionSpec>, name: Seq<char>) -> Option<OptionSpec>
    decreases options.len(),
{
    if options.len() == 0 {
        None
    } else if options.last().name@ == name {
        Some(options.last())
    } else {
        option_named(options.drop_last(), name)
    }
}

fn find_option<'a>(options: &'a Vec<OptionSpec>, name: &str) -> (result: Option<&'a OptionSpec>)
    ensures
        match result {
            Some(option) => option_named(options@, name@) == Some(*option),
            None => option_named(options@, name@) is None,
        },
{
    let mut at: usize = options.len();
    assert(options@.take(at as int) =~= options@);
    while at > 0
        invariant
            at <= options@.len(),
            option_named(options@, name@) == option_named(options@.take(at as int), name@),
        decreases at,
    {
        assert(options@.take(at as int).last() == options@[at - 1]);
        assert(options@.take(at as int).drop_last() =~= options@.take(at - 1));
        if same(options[at - 1].name.as_str(), name) {
            return Some(&options[at - 1]);
        }
        at -= 1;
    }
    None
}

/// What normalizing gives: the parameters, the names of missing options, and
/// the descriptions of invalid ones.
pub type Normal = (Entries, Seq<Seq<char>>, Seq<Seq<char>>);

/// What the given parameters come to.
pub open spec fn given(options: Seq<OptionSpec>, entries: Entries) -> Normal
    decreases entries.len(),
{
    if entries.len() == 0 {
        (Seq::empty(), Seq::empty(), Seq::empty())
    } else {
        let before = given(options, entries.drop_last());
        let (name, value) = entries.last();
        match option_named(options, name) {
            None => (before.0, before.1, before.2.push("unknown option "@ + name)),
            Some(option) => if option_takes(option, value) {
                (with_parameter(before.0, name, value), before.1, before.2)
            } else {
                (before.0, before.1, before.2.push("option "@ + name))
            },
        }
    }
}

/// What the parameters come to with the defaults of the options.
pub open spec fn with_defaults(options: Seq<OptionSpec>, start: Normal) -> Normal
    decreases options.len(),
{
    if options.len() == 0 {
        start
    } else {
        let before = with_defaults(options.drop_last(), start);
        let option = options.last();
        if lookup(before.0, option.name@) is Some {
            before
        } else {
            match option.default {
                Some(value) => if option_takes(option, value@) {
                    (with_parameter(before.0, option.name@, value@), before.1, before.2)
                } else {
                    (before.0, before.1, before.2.push("default for option "@ + option.name@))
                },
                None => if option.required {
                    (before.0, before.1.push(option.name@), before.2)
                } else {
                    before
                },
            }
        }
    }
}

/// The given parameters, completed by the defaults of a rule.
pub open spec fn normalized(rule: ConversionRule, entries: Entries) -> Normal {
    with_defaults(rule.options@, given(rule.options@, entries))
}

/// Parameters that a rule has been applied to.
pub struct NormalizedOptions {
    pub parameters: Parameters,
    pub missing: Vec<String>,
    pub invalid: Vec<String>,
}

impl View for NormalizedOptions {
    type V = Normal;

    open spec fn view(&self) -> Normal {
        (self.parameters.entries(), texts(self.missing@), texts(self.invalid@))
    }
}

fn push_text(list: &mut Vec<String>, text: String)
    ensures
        texts(final(list)@) == texts(old(list)@).push(text@),
{
    list.push(text);
    assert(texts(list@) =~= texts(old(list)@).push(text@));
}

fn take_given(options: &Vec<OptionSpec>, parameters: &Parameters) -> (result: NormalizedOptions)
    ensures
        result@ == given(options@, parameters.entries()),
{
    let mut kept = Parameters::new();
    let missing: Vec<String> = Vec::new();
    let mut invalid: Vec<String> = Vec::new();
    let ghost entries = parameters.entries();
    let mut i: usize = 0;
    let length: usize = parameters.len();
    assert(entries.take(0) =~= Seq::<(Seq<char>, Seq<char>)>::empty());
    assert(texts(missing@) =~= Seq::<Seq<char>>::empty());
    assert(texts(invalid@) =~= Seq::<Seq<char>>::empty());
    while i < length
        invariant
            i <= length,
            length == entries.len(),
            entries == parameters.entries(),
            (kept.entries(), texts(missing@), texts(invalid@)) == given(
                options@,
                entries.take(i as int),
            ),
        decreases length - i,
    {
        assert(entries.take(i + 1).drop_last() =~= entries.take(i as int));
        assert(entries.take(i + 1).last() == entries[i as int]);
        let name = parameters.key_at(i);
        let value = parameters.value_at(i);
        match find_option(options, name) {
            None => push_text(&mut invalid, concat("unknown option ", name)),
            Some(option) => if valid_option_value(option, value) {
                kept.insert(name, value);
            } else {
                push_text(&mut invalid, concat("option ", name));
            },
        }
        i += 1;
    }
    assert(entries.take(length as int) =~= entries);
    NormalizedOptions { parameters: kept, missing, invalid }
}

fn add_defaults(options: &Vec<OptionSpec>, start: NormalizedOptions) -> (result: NormalizedOptions)
    ensures
        result@ == with_defaults(options@, start@),
{
    let ghost origin = start@;
    let NormalizedOptions { parameters, missing, invalid } = start;
    let mut parameters = parameters;
    let mut missing = missing;
    let mut invalid = invalid;
    let mut i: usize = 0;
    assert(options@.take(0) =~= Seq::<OptionSpec>::empty());
    while i < options.len()
        invariant
            i <= options@.len(),
            (parameters.entries(), texts(missing@), texts(invalid@)) == with_defaults(
                options@.take(i as int),
                origin,
            ),
        decreases options@.len() - i,
    {
        assert(options@.take(i + 1).drop_last() =~= options@.take(i as int));
        assert(options@.take(i + 1).last() == options@[i as int]);
        let option = &options[i];
        if !parameters.contains_key(option.name.as_str()) {
            match &option.default {
                Some(value) => if valid_option_value(option, value.as_str()) {
                    parameters.insert(option.name.as_str(), value.as_str());
                } else {
                    push_text(&mut invalid, concat("default for option ", option.name.as_str()));
                },
                None => if option.required {
                    push_text(&mut missing, option.name.clone());
                },
            }
        }
        i += 1;
    }
    assert(options@.take(i as int) =~= options@);
    NormalizedOptions { parameters, missing, invalid }
}

/// The given parameters, completed by the defaults of a rule.
pub(crate) fn normalize_options(
    rule: &ConversionRule,
    parameters: &Parameters,
) -> (result: NormalizedOptions)
    ensures
        result@ == normalized(*rule, parameters.entries()),
{
    add_defaults(&rule.options, take_given(&rule.options, parameters))
}

// ---------------------------------------------------------------------------
// Parameters that a conversion needs
// ---------------------------------------------------------------------------

/// What a check has found wrong.
pub open spec fn complaint(result: Result<(), String>) -> Option<Seq<char>> {
    match result {
        Ok(_) => None,
        Err(message) => Some(message@),
    }
}

fn complain(message: &str) -> (result: Result<(), String>)
    ensures
        complaint(result) == Some(message@),
{
    Err(message.to_owned())
}

/// The chosen value of a parameter, or that of the target.
pub open spec fn either(chosen: Entries, own: Entries, name: Seq<char>) -> Option<Seq<char>> {
    match lookup(chosen, name) {
        Some(value) => Some(value),
        None => lookup(own, name),
    }
}

fn find_either<'a>(chosen: &'a Parameters, own: &'a Parameters, name: &str) -> (result: Option<&'a str>)
    ensures
        match result {
            Some(value) => either(chosen.entries(), own.entries(), name@) == Some(value@),
            None => either(chosen.entries(), own.entries(), name@) is None,
        },
{
    match chosen.get(name) {
        Some(value) => Some(value),
        None => own.get(name),
    }
}

fn either_is(chosen: &Parameters, own: &Parameters, name: &str, wanted: &str) -> (result: bool)
    ensures
        result == (either(chosen.entries(), own.entries(), name@) == Some(wanted@)),
{
    match find_either(chosen, own, name) {
        Some(value) => same(value, wanted),
        None => false,
    }
}

/// A parameter that has been given a value.
pub open spec fn required(chosen: Entries, name: Seq<char>) -> Option<Seq<char>> {
    match lookup(chosen, name) {
        Some(value) if value.len() > 0 => Some(value),
        _ => None,
    }
}

pub open spec fn missing_text(name: Seq<char>) -> Seq<char> {
    "required conversion parameter "@ + name + " is missing"@
}

fn required_parameter<'a>(parameters: &'a Parameters, name: &str) -> (result: Result<
    &'a str,
    String,
>)
    ensures
        match result {
            Ok(value) => required(parameters.entries(), name@) == Some(value@),
            Err(message) => required(parameters.entries(), name@) is None && message@
                == missing_text(name@),
        },
{
    match parameters.get(name) {
        Some(value) => if value.is_empty() {
            Err(concat3("required conversion parameter ", name, " is missing"))
        } else {
            Ok(value)
        },
        None => Err(concat3("required conversion parameter ", name, " is missing")),
    }
}

/// What is wrong with a conversion of bytes.
pub open spec fn binary_complaint(
    source: FieldDefinition,
    destination: FieldDefinition,
    own: Entries,
    chosen: Entries,
) -> Option<Seq<char>> {
    if !(source.logical_type is Binary && destination.logical_type is Binary) {
        Some("binary conversion requires binary source and target fields"@)
    } else if either(chosen, own, "binary_encoding"@) != Some("raw_bytes"@) || either(
        chosen,
        own,
        "binary_length_unit"@,
    ) != Some("bytes"@) {
        Some("binary conversion must explicitly use raw bytes and byte length semantics"@)
    } else {
        match either(chosen, own, "target_length"@) {
            None => Some("binary target length is missing"@),
            Some(length) => if length != "unbounded"@ && parse_unsigned(
                length,
                u64::MAX as nat,
            ) is None {
                Some("binary target length is invalid"@)
            } else if either(chosen, own, "target_fixed"@) == Some("true"@) && !(either(
                chosen,
                own,
                "target_padding"@,
            ) == Some("zero"@) || either(chosen, own, "target_padding"@) == Some("one"@)) {
                Some("fixed binary targets require explicit padding semantics"@)
            } else {
                None
            },
        }
    }
}

fn check_binary(
    source: &FieldDefinition,
    destination: &FieldDefinition,
    own: &Parameters,
    chosen: &Parameters,
) -> (result: Result<(), String>)
    ensures
        complaint(result) == binary_complaint(
            *source,
            *destination,
            own.entries(),
            chosen.entries(),
        ),
{
    if !matches!(source.logical_type, LogicalType::Binary { .. })
        || !matches!(destination.logical_type, LogicalType::Binary { .. }) {
        return complain("binary conversion requires binary source and target fields");
    }
    if !either_is(chosen, own, "binary_encoding", "raw_bytes") || !either_is(
        chosen,
        own,
        "binary_length_unit",
        "bytes",
    ) {
        return complain(
            "binary conversion must explicitly use raw bytes and byte length semantics",
        );
    }
    match find_either(chosen, own, "target_length") {
        None => return complain("binary target length is missing"),
        Some(length) => if !same(length, "unbounded") && parse_u64(length).is_none() {
            return complain("binary target length is invalid");
        },
    }
    if either_is(chosen, own, "target_fixed", "true") && !either_is(
        chosen,
        own,
        "target_padding",
        "zero",
    ) && !either_is(chosen, own, "target_padding", "one") {
        return complain("fixed binary targets require explicit padding semantics");
    }
    Ok(())
}

/// What is wrong with a conversion of bit strings.
pub open spec fn bit_complaint(
    source: FieldDefinition,
    destination: FieldDefinition,
    own: Entries,
    chosen: Entries,
) -> Option<Seq<char>> {
    match (source.logical_type, destination.logical_type) {
        (LogicalType::BitString { length: m }, LogicalType::BitString { length: n }) => {
            if either(chosen, own, "binary_length_unit"@) != Some("bits"@) && either(
                chosen,
                own,
                "bit_length_unit"@,
            ) != Some("bits"@) {
                Some("bit-string length must be explicitly measured in bits"@)
            } else {
                match either(chosen, own, "target_bit_length"@) {
                    None => Some("target bit length is missing"@),
                    Some(text) => match parse_unsigned(text, u64::MAX as nat) {
                        None => Some("target bit length is invalid"@),
                        Some(declared) => if declared != n as nat || m != n {
                            Some("bit-string length conversion is not qualified"@)
                        } else if !(either(chosen, own, "target_bit_order"@) == Some("msb_first"@)
                            || either(chosen, own, "target_bit_order"@) == Some("lsb_first"@))
                            || !(either(chosen, own, "target_padding"@) == Some("none"@) || either(
                            chosen,
                            own,
                            "target_padding"@,
                        ) == Some("zero"@) || either(chosen, own, "target_padding"@) == Some(
                            "one"@,
                        )) {
                            Some("bit-string padding and bit order must be explicit"@)
                        } else {
                            None
                        },
                    },
                }
            }
        },
        _ => Some("bit-string conversion requires bit-string source and target fields"@),
    }
}

fn check_bits(
    source: &FieldDefinition,
    destination: &FieldDefinition,
    own: &Parameters,
    chosen: &Parameters,
) -> (result: Result<(), String>)
    ensures
        complaint(result) == bit_complaint(
            *source,
            *destination,
            own.entries(),
            chosen.entries(),
        ),
{
    match (&source.logical_type, &destination.logical_type) {
        (LogicalType::BitString { length: m }, LogicalType::BitString { length: n }) => {
            if !either_is(chosen, own, "binary_length_unit", "bits") && !either_is(
                chosen,
                own,
                "bit_length_unit",
                "bits",
            ) {
                return complain("bit-string length must be explicitly measured in bits");
            }
            let declared: u64 = match find_either(chosen, own, "target_bit_length") {
                None => return complain("target bit length is missing"),
                Some(text) => match parse_u64(text) {
                    None => return complain("target bit length is invalid"),
                    Some(declared) => declared,
                },
            };
            if declared != *n || *m != *n {
                return complain("bit-string length conversion is not qualified");
            }
            let ordered = either_is(chosen, own, "target_bit_order", "msb_first") || either_is(
                chosen,
                own,
                "target_bit_order",
                "lsb_first",
            );
            let padded = either_is(chosen, own, "target_padding", "none") || either_is(
                chosen,
                own,
                "target_padding",
                "zero",
            ) || either_is(chosen, own, "target_padding", "one");
            if !ordered || !padded {
                return complain("bit-string padding and bit order must be explicit");
            }
            Ok(())
        },
        _ => complain("bit-string conversion requires bit-string source and target fields"),
    }
}

/// A wire format of spatial values that can be written.
pub open spec fn spatial_format(format: Option<Seq<char>>) -> bool {
    format == Some("wkb"@) || format == Some("ewkb"@)
}

/// What is wrong with a conversion of spatial values.
pub open spec fn spatial_complaint(
    source: FieldDefinition,
    destination: FieldDefinition,
    own: Entries,
    chosen: Entries,
) -> Option<Seq<char>> {
    match (source.logical_type, destination.logical_type) {
        (
            LogicalType::Spatial { subtype: a, srid: i, dimensions: d },
            LogicalType::Spatial { subtype: b, srid: j, dimensions: e },
        ) => {
            let source_crs = either(chosen, own, "source_crs"@);
            let target_crs = either(chosen, own, "target_crs"@);
            if i is None || j is None || a@ != b@ || i != j || d != e {
                Some(
                    "spatial conversion requires equal qualified SRID, geometry type, and dimensions"@,
                )
            } else if !spatial_format(either(chosen, own, "source_spatial_format"@))
                || !spatial_format(either(chosen, own, "target_spatial_format"@)) {
                Some("spatial wire format must be explicitly qualified"@)
            } else if source_crs is None {
                Some("source CRS is missing"@)
            } else if target_crs is None {
                Some("target CRS is missing"@)
            } else if source_crs == Some("unknown"@) || target_crs == Some("unknown"@) || source_crs
                != target_crs {
                Some("spatial CRS is missing or not equivalent"@)
            } else {
                None
            }
        },
        _ => Some("spatial conversion requires spatial source and target fields"@),
    }
}

fn is_spatial_format(chosen: &Parameters, own: &Parameters, name: &str) -> (result: bool)
    ensures
        result == spatial_format(either(chosen.entries(), own.entries(), name@)),
{
    either_is(chosen, own, name, "wkb") || either_is(chosen, own, name, "ewkb")
}

fn check_spatial(
    source: &FieldDefinition,
    destination: &FieldDefinition,
    own: &Parameters,
    chosen: &Parameters,
) -> (result: Result<(), String>)
    ensures
        complaint(result) == spatial_complaint(
            *source,
            *destination,
            own.entries(),
            chosen.entries(),
        ),
{
    match (&source.logical_type, &destination.logical_type) {
        (
            LogicalType::Spatial { subtype: a, srid: i, dimensions: d },
            LogicalType::Spatial { subtype: b, srid: j, dimensions: e },
        ) => {
            if i.is_none() || j.is_none() || !same(a.as_str(), b.as_str()) || !same_srid(i, j) || *d
                != *e {
                return complain(
                    "spatial conversion requires equal qualified SRID, geometry type, and dimensions",
                );
            }
            if !is_spatial_format(chosen, own, "source_spatial_format") || !is_spatial_format(
                chosen,
                own,
                "target_spatial_format",
            ) {
                return complain("spatial wire format must be explicitly qualified");
            }
            let source_crs = match find_either(chosen, own, "source_crs") {
                None => return complain("source CRS is missing"),
                Some(crs) => crs,
            };
            let target_crs = match find_either(chosen, own, "target_crs") {
                None => return complain("target CRS is missing"),
                Some(crs) => crs,
            };
            if same(source_crs, "unknown") || same(target_crs, "unknown") || !same(
                source_crs,
                target_crs,
            ) {
                return complain("spatial CRS is missing or not equivalent");
            }
            Ok(())
        },
        _ => complain("spatial conversion requires spatial source and target fields"),
    }
}

/// What is wrong with a conversion of structured values.
pub open spec fn structure_complaint(
    source: FieldDefinition,
    destination: FieldDefinition,
    own: Entries,
    chosen: Entries,
) -> Option<Seq<char>> {
    let mapping = either(chosen, own, "structure_mapping"@);
    let kind = recursive_kind(source.logical_type);
    if kind is Some && destination.logical_type is Json && mapping == Some("json_value_carrier"@) {
        None
    } else if kind is None || kind != recursive_kind(destination.logical_type) {
        Some("recursive source and target structures are not equivalent"@)
    } else if mapping != Some("explicit"@) {
        Some("recursive conversion requires an explicit structure mapping"@)
    } else {
        None
    }
}

fn check_structure(
    source: &FieldDefinition,
    destination: &FieldDefinition,
    own: &Parameters,
    chosen: &Parameters,
) -> (result: Result<(), String>)
    ensures
        complaint(result) == structure_complaint(
            *source,
            *destination,
            own.entries(),
            chosen.entries(),
        ),
{
    let structured = recursive_type_kind(&source.logical_type).is_some();
    if structured && matches!(destination.logical_type, LogicalType::Json { .. }) && either_is(
        chosen,
        own,
        "structure_mapping",
        "json_value_carrier",
    ) {
        return Ok(());
    }
    if !structured || !same_recursive_kind(&source.logical_type, &destination.logical_type) {
        return complain("recursive source and target structures are not equivalent");
    }
    if !either_is(chosen, own, "structure_mapping", "explicit") {
        return complain("recursive conversion requires an explicit structure mapping");
    }
    Ok(())
}

/// What is missing of the parameters that describe a text target.
pub open spec fn missing_text_target(chosen: Entries) -> Option<Seq<char>> {
    if required(chosen, "target_charset"@) is None {
        Some(missing_text("target_charset"@))
    } else if required(chosen, "target_length"@) is None {
        Some(missing_text("target_length"@))
    } else if required(chosen, "target_length_unit"@) is None {
        Some(missing_text("target_length_unit"@))
    } else if required(chosen, "target_collation"@) is None {
        Some(missing_text("target_collation"@))
    } else {
        None
    }
}

/// A length that a text target may be declared with.
pub open spec fn declared_length(length: Seq<char>) -> bool {
    length == "unbounded"@ || (parse_unsigned(length, u64::MAX as nat) is Some && length != "0"@)
}

fn is_declared_length(length: &str) -> (result: bool)
    ensures
        result == declared_length(length@),
{
    same(length, "unbounded") || (parse_u64(length).is_some() && !same(length, "0"))
}

/// The parameters say what the text column is.
pub open spec fn text_column_agrees(
    column: LogicalType,
    charset: Seq<char>,
    length: Seq<char>,
    unit: Seq<char>,
) -> bool {
    match column {
        LogicalType::Text { charset: c, max_length: l, length_unit: u, .. } => same_ignoring_case(
            charset,
            c@,
        ) && length == length_text(l) && unit == unit_text(u),
        _ => true,
    }
}

fn does_text_column_agree(
    column: &LogicalType,
    charset: &str,
    length: &str,
    unit: &str,
) -> (result: bool)
    ensures
        result == text_column_agrees(*column, charset@, length@, unit@),
{
    match column {
        LogicalType::Text { charset: c, max_length: l, length_unit: u, .. } => {
            let expected = spell_length(l);
            eq_ignore_case(charset, c.as_str()) && same(length, expected.as_str()) && same(
                unit,
                format_length_unit(*u),
            )
        },
        _ => true,
    }
}

/// What is wrong with a conversion of text.
pub open spec fn text_complaint(
    source: FieldDefinition,
    destination: FieldDefinition,
    chosen: Entries,
) -> Option<Seq<char>> {
    let charset = required(chosen, "target_charset"@)->0;
    let length = required(chosen, "target_length"@)->0;
    let unit = required(chosen, "target_length_unit"@)->0;
    let collation = required(chosen, "target_collation"@)->0;
    match source.logical_type {
        LogicalType::Text { charset: source_charset, .. } => if !supported_charset(
            source_charset@,
        ) {
            Some(
                "source charset "@ + source_charset@
                    + " is not qualified for explicit conversion"@,
            )
        } else if missing_text_target(chosen) is Some {
            missing_text_target(chosen)
        } else if !supported_charset(charset) {
            Some("target charset "@ + charset + " is not qualified"@)
        } else if !declared_length(length) {
            Some("target_length must be a positive integer or unbounded"@)
        } else if unit != "bytes"@ && unit != "characters"@ {
            Some("target_length_unit must be bytes or characters"@)
        } else if !text_column_agrees(destination.logical_type, charset, length, unit) {
            Some("text conversion parameters do not match the pre-created target column"@)
        } else if !same_ignoring_case(collation, optional_or(destination.collation, "none"@)) {
            Some("target_collation does not match the pre-created target column"@)
        } else {
            None
        },
        _ => Some("text conversion requires a text source logical type"@),
    }
}

/// The parameters that describe a text target.
struct TextTarget<'a> {
    charset: &'a str,
    length: &'a str,
    unit: &'a str,
    collation: &'a str,
}

fn required_text_target<'a>(chosen: &'a Parameters) -> (result: Result<TextTarget<'a>, String>)
    ensures
        match result {
            Ok(target) => {
                &&& missing_text_target(chosen.entries()) is None
                &&& required(chosen.entries(), "target_charset"@) == Some(target.charset@)
                &&& required(chosen.entries(), "target_length"@) == Some(target.length@)
                &&& required(chosen.entries(), "target_length_unit"@) == Some(target.unit@)
                &&& required(chosen.entries(), "target_collation"@) == Some(target.collation@)
            },
            Err(message) => missing_text_target(chosen.entries()) == Some(message@),
        },
{
    let charset = match required_parameter(chosen, "target_charset") {
        Ok(value) => value,
        Err(message) => return Err(message),
    };
    let length = match required_parameter(chosen, "target_length") {
        Ok(value) => value,
        Err(message) => return Err(message),
    };
    let unit = match required_parameter(chosen, "target_length_unit") {
        Ok(value) => value,
        Err(message) => return Err(message),
    };
    let collation = match required_parameter(chosen, "target_collation") {
        Ok(value) => value,
        Err(message) => return Err(message),
    };
    Ok(TextTarget { charset, length, unit, collation })
}

fn check_text(source: &FieldDefinition, destination: &FieldDefinition, chosen: &Parameters) -> (result: Result<
    (),
    String,
>)
    ensures
        complaint(result) == text_complaint(*source, *destination, chosen.entries()),
{
    let source_charset = match &source.logical_type {
        LogicalType::Text { charset, .. } => charset,
        _ => return complain("text conversion requires a text source logical type"),
    };
    if !text_charset_supported(source_charset.as_str()) {
        return Err(
            concat3(
                "source charset ",
                source_charset.as_str(),
                " is not qualified for explicit conversion",
            ),
        );
    }
    let target = match required_text_target(chosen) {
        Ok(target) => target,
        Err(message) => return Err(message),
    };
    if !text_charset_supported(target.charset) {
        return Err(concat3("target charset ", target.charset, " is not qualified"));
    }
    if !is_declared_length(target.length) {
        return complain("target_length must be a positive integer or unbounded");
    }
    if !same(target.unit, "bytes") && !same(target.unit, "characters") {
        return complain("target_length_unit must be bytes or characters");
    }
    if !does_text_column_agree(
        &destination.logical_type,
        target.charset,
        target.length,
        target.unit,
    ) {
        return complain("text conversion parameters do not match the pre-created target column");
    }
    let expected = read_optional_or(&destination.collation, "none");
    if !eq_ignore_case(target.collation, expected.as_str()) {
        return complain("target_collation does not match the pre-created target column");
    }
    Ok(())
}

/// What is wrong with writing JSON as text.
pub open spec fn json_complaint(
    source: FieldDefinition,
    destination: FieldDefinition,
    chosen: Entries,
) -> Option<Seq<char>> {
    let charset = required(chosen, "target_charset"@)->0;
    let length = required(chosen, "target_length"@)->0;
    let unit = required(chosen, "target_length_unit"@)->0;
    let collation = required(chosen, "target_collation"@)->0;
    match source.logical_type {
        LogicalType::Json { profile } => if !profile.normalized {
            Some("source JSON profile is not normalized"@)
        } else {
            match required(chosen, "json_strategy"@) {
                None => Some(missing_text("json_strategy"@)),
                Some(strategy) => if strategy == "raw_text"@ {
                    Some(
                        "raw JSON text is unavailable because ChangeEvent stores normalized structure"@,
                    )
                } else if strategy != "normalized_text"@ {
                    Some("json_strategy must be normalized_text"@)
                } else if !(destination.logical_type is Text) {
                    Some("JSON text conversion requires a pre-created text target"@)
                } else if missing_text_target(chosen) is Some {
                    missing_text_target(chosen)
                } else if !supported_charset(charset) {
                    Some("target charset "@ + charset + " is not qualified"@)
                } else if !declared_length(length) {
                    Some("target_length must be a positive integer or unbounded"@)
                } else if unit != "bytes"@ && unit != "characters"@ {
                    Some("JSON text target parameters are incomplete"@)
                } else if !text_column_agrees(destination.logical_type, charset, length, unit)
                    || !same_ignoring_case(collation, optional_or(destination.collation, "none"@)) {
                    Some("JSON text parameters do not match the pre-created target column"@)
                } else {
                    None
                },
            }
        },
        _ => Some("JSON text conversion requires a JSON source logical type"@),
    }
}

fn check_json(source: &FieldDefinition, destination: &FieldDefinition, chosen: &Parameters) -> (result: Result<
    (),
    String,
>)
    ensures
        complaint(result) == json_complaint(*source, *destination, chosen.entries()),
{
    match &source.logical_type {
        LogicalType::Json { profile } => if !profile.normalized {
            return complain("source JSON profile is not normalized");
        },
        _ => return complain("JSON text conversion requires a JSON source logical type"),
    }
    let strategy = match required_parameter(chosen, "json_strategy") {
        Ok(value) => value,
        Err(message) => return Err(message),
    };
    if same(strategy, "raw_text") {
        return complain(
            "raw JSON text is unavailable because ChangeEvent stores normalized structure",
        );
    }
    if !same(strategy, "normalized_text") {
        return complain("json_strategy must be normalized_text");
    }
    if !matches!(destination.logical_type, LogicalType::Text { .. }) {
        return complain("JSON text conversion requires a pre-created text target");
    }
    let target = match required_text_target(chosen) {
        Ok(target) => target,
        Err(message) => return Err(message),
    };
    if !text_charset_supported(target.charset) {
        return Err(concat3("target charset ", target.charset, " is not qualified"));
    }
    if !is_declared_length(target.length) {
        return complain("target_length must be a positive integer or unbounded");
    }
    if !same(target.unit, "bytes") && !same(target.unit, "characters") {
        return complain("JSON text target parameters are incomplete");
    }
    let expected = read_optional_or(&destination.collation, "none");
    if !does_text_column_agree(
        &destination.logical_type,
        target.charset,
        target.length,
        target.unit,
    ) || !eq_ignore_case(target.collation, expected.as_str()) {
        return complain("JSON text parameters do not match the pre-created target column");
    }
    Ok(())
}

/// What is wrong with a conversion of enumerations.
pub open spec fn enum_complaint(
    source: FieldDefinition,
    destination: FieldDefinition,
    own: Entries,
) -> Option<Seq<char>> {
    match (source.logical_type, destination.logical_type) {
        (LogicalType::Enum { members: a }, LogicalType::Enum { members: b }) => if !same_members(
            a@,
            b@,
        ) {
            Some(
                "ENUM label conversion requires the same declared label set; ordinal remapping is forbidden"@,
            )
        } else if lookup(own, "value_strategy"@) != Some("enum_label"@) {
            Some("ENUM conversion must use enum_label"@)
        } else {
            None
        },
        _ => Some("ENUM label conversion requires ENUM source and target types"@),
    }
}

fn check_enum(source: &FieldDefinition, destination: &FieldDefinition, own: &Parameters) -> (result: Result<
    (),
    String,
>)
    ensures
        complaint(result) == enum_complaint(*source, *destination, own.entries()),
{
    match (&source.logical_type, &destination.logical_type) {
        (LogicalType::Enum { members: a }, LogicalType::Enum { members: b }) => {
            if !have_same_members(a, b) {
                return complain(
                    "ENUM label conversion requires the same declared label set; ordinal remapping is forbidden",
                );
            }
            if !parameter_is(own, "value_strategy", "enum_label") {
                return complain("ENUM conversion must use enum_label");
            }
            Ok(())
        },
        _ => complain("ENUM label conversion requires ENUM source and target types"),
    }
}

/// The temporal kind that a native type names.
pub open spec fn native_temporal(native: Seq<char>, chosen: Entries) -> Seq<char> {
    if has_part(native, "with time zone"@) {
        "instant"@
    } else if has_part(native, "without time zone"@) || has_prefix(native, "datetime"@)
        || has_prefix(native, "timestamp"@) {
        "local_datetime"@
    } else if has_prefix(native, "time"@) || has_prefix(native, "interval"@) {
        "duration"@
    } else {
        named_temporal(lookup(chosen, "target_temporal_kind"@))
    }
}

/// The kind of a temporal target field.
pub open spec fn target_kind(field: FieldDefinition, chosen: Entries) -> Seq<char> {
    if temporal_type(field.logical_type) {
        temporal_name(field.logical_type)
    } else {
        native_temporal(lower(field.native_type@), chosen)
    }
}

/// The precision that a native type names, or a parameter.
pub open spec fn native_precision(native: Seq<char>, chosen: Entries) -> nat {
    let named = match bracketed(native) {
        Some(inner) => parse_unsigned(inner, 255),
        None => None,
    };
    match named {
        Some(precision) => precision,
        None => match named_precision(chosen) {
            Some(precision) => precision,
            None => 0,
        },
    }
}

/// The precision of a temporal target field.
pub open spec fn target_precision(field: FieldDefinition, chosen: Entries) -> nat {
    if temporal_type(field.logical_type) {
        temporal_places(field.logical_type) as nat
    } else {
        native_precision(lower(field.native_type@), chosen)
    }
}

fn target_temporal_details(field: &FieldDefinition, chosen: &Parameters) -> (result: (
    &'static str,
    u8,
))
    ensures
        result.0@ == target_kind(*field, chosen.entries()),
        result.1 as nat == target_precision(*field, chosen.entries()),
{
    if is_temporal_type(&field.logical_type) {
        return temporal_details(&field.logical_type);
    }
    let native = to_lower(field.native_type.as_str());
    let native = native.as_str();
    let kind = if contains_text(native, "with time zone") {
        "instant"
    } else if contains_text(native, "without time zone") || starts_with(native, "datetime")
        || starts_with(native, "timestamp") {
        "local_datetime"
    } else if starts_with(native, "time") || starts_with(native, "interval") {
        "duration"
    } else {
        read_named_temporal(chosen)
    };
    let named: Option<u8> = match read_bracketed(native) {
        Some(inner) => parse_u8(inner.as_str()),
        None => None,
    };
    let precision: u8 = match named {
        Some(precision) => precision,
        None => match read_named_precision(chosen) {
            Some(precision) => precision,
            None => 0,
        },
    };
    (kind, precision)
}

/// What is wrong with a time zone.
pub open spec fn zone_complaint(zone: Seq<char>) -> Option<Seq<char>> {
    if utc(zone) {
        None
    } else if !(zone.len() > 0 && (zone[0] == '+' || zone[0] == '-')) {
        Some("time_zone must be UTC or a fixed +HH:MM/-HH:MM offset"@)
    } else {
        match split_once(zone.drop_first(), ':') {
            None => Some("time_zone must be a fixed +HH:MM/-HH:MM offset"@),
            Some((hours, minutes)) => match parse_signed(hours, i32::MIN as int, i32::MAX as int) {
                None => Some("time_zone hour is invalid"@),
                Some(h) => match parse_signed(minutes, i32::MIN as int, i32::MAX as int) {
                    None => Some("time_zone minute is invalid"@),
                    Some(m) => if h > 23 || m > 59 {
                        Some("time_zone offset is outside its qualified range"@)
                    } else {
                        None
                    },
                },
            },
        }
    }
}

fn check_zone(zone: &str) -> (result: Result<(), String>)
    ensures
        complaint(result) == zone_complaint(zone@),
{
    if eq_ignore_case(zone, "utc") || same(zone, "Z") {
        return Ok(());
    }
    let chars = chars_of(zone);
    if !(chars.len() > 0 && (chars[0] == '+' || chars[0] == '-')) {
        return complain("time_zone must be UTC or a fixed +HH:MM/-HH:MM offset");
    }
    let length: usize = chars.len();
    let rest = text_between(&chars, 1, length);
    assert(rest@ =~= zone@.drop_first());
    let (hours, minutes) = match split_at_first(rest.as_str(), ':') {
        None => return complain("time_zone must be a fixed +HH:MM/-HH:MM offset"),
        Some(parts) => parts,
    };
    let hours: i32 = match parse_i32(hours.as_str()) {
        None => return complain("time_zone hour is invalid"),
        Some(hours) => hours,
    };
    let minutes: i32 = match parse_i32(minutes.as_str()) {
        None => return complain("time_zone minute is invalid"),
        Some(minutes) => minutes,
    };
    if hours > 23 || minutes > 59 {
        return complain("time_zone offset is outside its qualified range");
    }
    Ok(())
}

/// The strategy by which one temporal kind becomes another.
pub open spec fn temporal_strategy(source: Seq<char>, target: Seq<char>) -> Option<Seq<char>> {
    if source == "local_datetime"@ && target == "instant"@ {
        Some("local_to_absolute"@)
    } else if source == "instant"@ && target == "local_datetime"@ {
        Some("absolute_to_local"@)
    } else if source == "local_datetime"@ && target == "local_datetime"@ {
        Some("preserve_local"@)
    } else if source == "instant"@ && target == "instant"@ {
        Some("preserve_absolute"@)
    } else if source == "duration"@ && target == "duration"@ {
        Some("preserve_duration"@)
    } else {
        None
    }
}

fn expected_strategy(source: &str, target: &str) -> (result: Option<&'static str>)
    ensures
        match result {
            Some(strategy) => temporal_strategy(source@, target@) == Some(strategy@),
            None => temporal_strategy(source@, target@) is None,
        },
{
    if same(source, "local_datetime") && same(target, "instant") {
        Some("local_to_absolute")
    } else if same(source, "instant") && same(target, "local_datetime") {
        Some("absolute_to_local")
    } else if same(source, "local_datetime") && same(target, "local_datetime") {
        Some("preserve_local")
    } else if same(source, "instant") && same(target, "instant") {
        Some("preserve_absolute")
    } else if same(source, "duration") && same(target, "duration") {
        Some("preserve_duration")
    } else {
        None
    }
}

/// What is wrong with the strategy of a temporal conversion.
pub open spec fn strategy_complaint(
    source_kind: Seq<char>,
    source_places: nat,
    target_kind: Seq<char>,
    target_places: nat,
    chosen: Entries,
) -> Option<Seq<char>> {
    match required(chosen, "temporal_strategy"@) {
        None => Some(missing_text("temporal_strategy"@)),
        Some(strategy) => match temporal_strategy(source_kind, target_kind) {
            None => Some("temporal conversion strategy is not qualified"@),
            Some(expected) => if strategy != expected {
                Some("temporal_strategy must be "@ + expected)
            } else if source_kind != target_kind {
                match required(chosen, "time_zone"@) {
                    None => Some(missing_text("time_zone"@)),
                    Some(zone) => zone_complaint(zone),
                }
            } else if source_places == target_places {
                Some("an explicit temporal conversion must change precision or time semantics"@)
            } else {
                None
            },
        },
    }
}

fn check_strategy(
    source_kind: &str,
    source_places: u8,
    target_kind: &str,
    target_places: u8,
    chosen: &Parameters,
) -> (result: Result<(), String>)
    ensures
        complaint(result) == strategy_complaint(
            source_kind@,
            source_places as nat,
            target_kind@,
            target_places as nat,
            chosen.entries(),
        ),
{
    let strategy = match required_parameter(chosen, "temporal_strategy") {
        Ok(value) => value,
        Err(message) => return Err(message),
    };
    let expected = match expected_strategy(source_kind, target_kind) {
        None => return complain("temporal conversion strategy is not qualified"),
        Some(expected) => expected,
    };
    if !same(strategy, expected) {
        return Err(concat("temporal_strategy must be ", expected));
    }
    if !same(source_kind, target_kind) {
        return match required_parameter(chosen, "time_zone") {
            Ok(zone) => check_zone(zone),
            Err(message) => Err(message),
        };
    }
    if source_places == target_places {
        return complain("an explicit temporal conversion must change precision or time semantics");
    }
    Ok(())
}

/// What is wrong with a conversion of temporal values.
pub open spec fn temporal_complaint(
    source: FieldDefinition,
    destination: FieldDefinition,
    chosen: Entries,
) -> Option<Seq<char>> {
    let kind = target_kind(destination, chosen);
    let places = target_precision(destination, chosen);
    if !temporal_type(source.logical_type) {
        Some("temporal conversion requires a temporal source logical type"@)
    } else if kind == "unknown"@ {
        Some("target temporal kind is not qualified"@)
    } else {
        match required(chosen, "target_precision"@) {
            None => Some(missing_text("target_precision"@)),
            Some(text) => match parse_unsigned(text, 255) {
                None => Some("target_precision must be an integer from 0 to 6"@),
                Some(declared) => if declared > 6 || declared != places {
                    Some("target_precision does not match the pre-created target column"@)
                } else {
                    strategy_complaint(
                        temporal_name(source.logical_type),
                        temporal_places(source.logical_type) as nat,
                        kind,
                        places,
                        chosen,
                    )
                },
            },
        }
    }
}

fn check_temporal(source: &FieldDefinition, destination: &FieldDefinition, chosen: &Parameters) -> (result: Result<
    (),
    String,
>)
    ensures
        complaint(result) == temporal_complaint(*source, *destination, chosen.entries()),
{
    if !is_temporal_type(&source.logical_type) {
        return complain("temporal conversion requires a temporal source logical type");
    }
    let (source_kind, source_places) = temporal_details(&source.logical_type);
    let (kind, places) = target_temporal_details(destination, chosen);
    if same(kind, "unknown") {
        return complain("target temporal kind is not qualified");
    }
    let declared: u8 = match required_parameter(chosen, "target_precision") {
        Ok(text) => match parse_u8(text) {
            None => return complain("target_precision must be an integer from 0 to 6"),
            Some(declared) => declared,
        },
        Err(message) => return Err(message),
    };
    if declared > 6 || declared != places {
        return complain("target_precision does not match the pre-created target column");
    }
    check_strategy(source_kind, source_places, kind, places, chosen)
}

/// What is wrong with the parameters of a conversion.
pub open spec fn parameters_complaint(
    own: Entries,
    source: FieldDefinition,
    destination: FieldDefinition,
    chosen: Entries,
) -> Option<Seq<char>> {
    let kind = lookup(own, "conversion_kind"@);
    if kind == Some("binary"@) {
        binary_complaint(source, destination, own, chosen)
    } else if kind == Some("bit_string"@) {
        bit_complaint(source, destination, own, chosen)
    } else if kind == Some("spatial"@) {
        spatial_complaint(source, destination, own, chosen)
    } else if kind == Some("recursive"@) {
        structure_complaint(source, destination, own, chosen)
    } else if kind == Some("text"@) {
        text_complaint(source, destination, chosen)
    } else if kind == Some("json"@) {
        json_complaint(source, destination, chosen)
    } else if kind == Some("enum"@) {
        enum_complaint(source, destination, own)
    } else if kind == Some("temporal"@) {
        temporal_complaint(source, destination, chosen)
    } else {
        None
    }
}

pub(crate) fn validate_explicit_parameters(
    target: &TargetRepresentation,
    source: &FieldDefinition,
    destination: &FieldDefinition,
    chosen: &Parameters,
) -> (result: Result<(), String>)
    ensures
        complaint(result) == parameters_complaint(
            target.parameters.entries(),
            *source,
            *destination,
            chosen.entries(),
        ),
{
    let own = &target.parameters;
    if parameter_is(own, "conversion_kind", "binary") {
        check_binary(source, destination, own, chosen)
    } else if parameter_is(own, "conversion_kind", "bit_string") {
        check_bits(source, destination, own, chosen)
    } else if parameter_is(own, "conversion_kind", "spatial") {
        check_spatial(source, destination, own, chosen)
    } else if parameter_is(own, "conversion_kind", "recursive") {
        check_structure(source, destination, own, chosen)
    } else if parameter_is(own, "conversion_kind", "text") {
        check_text(source, destination, chosen)
    } else if parameter_is(own, "conversion_kind", "json") {
        check_json(source, destination, chosen)
    } else if parameter_is(own, "conversion_kind", "enum") {
        check_enum(source, destination, own)
    } else if parameter_is(own, "conversion_kind", "temporal") {
        check_temporal(source, destination, chosen)
    } else {
        Ok(())
    }
}

// ---------------------------------------------------------------------------
// What normal options promise
// ---------------------------------------------------------------------------

/// Some option has the name and takes the value: one that is not empty, is of the
/// option's kind, and is among those that the option allows where it lists any.
pub open spec fn offered(options: Seq<OptionSpec>, name: Seq<char>, value: Seq<char>) -> bool {
    exists|i: int|
        0 <= i < options.len() && (#[trigger] options[i]).name@ == name && value.len() > 0 && (
        options[i].value_kind is Boolean ==> value == "true"@ || value == "false"@) && (
        options[i].value_kind is Integer ==> parse_signed(value, i128::MIN as int, i128::MAX as int)
            is Some) && (options[i].allowed_values@.len() > 0 ==> texts(
            options[i].allowed_values@,
        ).contains(value))
}

/// Some option has the name and the value for its default.
pub open spec fn defaulted(options: Seq<OptionSpec>, name: Seq<char>, value: Seq<char>) -> bool {
    exists|i: int|
        0 <= i < options.len() && (#[trigger] options[i]).name@ == name && (
        options[i].default matches Some(default) && default@ == value)
}

proof fn lemma_named(options: Seq<OptionSpec>, name: Seq<char>)
    requires
        option_named(options, name) is Some,
    ensures
        exists|i: int|
            0 <= i < options.len() && #[trigger] options[i] == option_named(options, name)->0
                && options[i].name@ == name,
    decreases options.len(),
{
    let shorter = options.drop_last();
    assert(options.last() == options[options.len() - 1]);
    if options.last().name@ != name {
        lemma_named(shorter, name);
        let i = choose|i: int|
            0 <= i < shorter.len() && #[trigger] shorter[i] == option_named(shorter, name)->0
                && shorter[i].name@ == name;
        assert(options[i] == shorter[i]);
    }
}

proof fn lemma_given(options: Seq<OptionSpec>, entries: Entries)
    requires
        given(options, entries).2.len() == 0,
    ensures
        given(options, entries).1.len() == 0,
        forall|name: Seq<char>| #[trigger]
            lookup(given(options, entries).0, name) == lookup(entries, name),
        forall|name: Seq<char>| #[trigger]
            lookup(entries, name) is Some ==> offered(options, name, lookup(entries, name)->0),
    decreases entries.len(),
{
    if entries.len() > 0 {
        let shorter = entries.drop_last();
        let (own, value) = entries.last();
        lemma_given(options, shorter);
        let before = given(options, shorter);
        lemma_named(options, own);
        assert forall|name: Seq<char>| #[trigger]
            lookup(given(options, entries).0, name) == lookup(entries, name) by {
            law_lookup_after_setting(before.0, own, value, name);
            assert(lookup(before.0, name) == lookup(shorter, name));
        }
        assert forall|name: Seq<char>| #[trigger] lookup(entries, name) is Some implies offered(
            options,
            name,
            lookup(entries, name)->0,
        ) by {
            if name != own {
                assert(lookup(shorter, name) is Some);
            }
        }
    }
}

proof fn lemma_defaults(options: Seq<OptionSpec>, start: Normal)
    requires
        with_defaults(options, start).1.len() == 0,
        with_defaults(options, start).2.len() == 0,
    ensures
        start.1.len() == 0,
        start.2.len() == 0,
        forall|name: Seq<char>| #[trigger]
            lookup(with_defaults(options, start).0, name) != lookup(start.0, name) ==> lookup(
                start.0,
                name,
            ) is None && defaulted(
                options,
                name,
                lookup(with_defaults(options, start).0, name)->0,
            ) && offered(options, name, lookup(with_defaults(options, start).0, name)->0),
        forall|i: int|
            0 <= i < options.len() && ((#[trigger] options[i]).required || options[i].default
                is Some) ==> lookup(with_defaults(options, start).0, options[i].name@) is Some,
    decreases options.len(),
{
    if options.len() > 0 {
        let shorter = options.drop_last();
        let option = options.last();
        let n = options.len() - 1;
        assert(option == options[n]);
        let before = with_defaults(shorter, start);
        let after = with_defaults(options, start);
        lemma_defaults(shorter, start);
        if lookup(before.0, option.name@) is None && option.default is Some {
            let value = option.default->0@;
            assert(offered(options, option.name@, value));
            assert(defaulted(options, option.name@, value));
            assert forall|name: Seq<char>| #[trigger] lookup(after.0, name) == (if name
                == option.name@ {
                Some(value)
            } else {
                lookup(before.0, name)
            }) by {
                law_lookup_after_setting(before.0, option.name@, value, name);
            }
        }
        assert forall|name: Seq<char>| #[trigger]
            lookup(after.0, name) != lookup(start.0, name) implies lookup(start.0, name) is None
            && defaulted(options, name, lookup(after.0, name)->0) && offered(
            options,
            name,
            lookup(after.0, name)->0,
        ) by {
            if lookup(after.0, name) == lookup(before.0, name) {
                let value = lookup(before.0, name)->0;
                assert(defaulted(shorter, name, value));
                let i = choose|i: int|
                    0 <= i < shorter.len() && (#[trigger] shorter[i]).name@ == name && (
                    shorter[i].default matches Some(default) && default@ == value);
                assert(options[i] == shorter[i]);
                let j = choose|i: int|
                    0 <= i < shorter.len() && (#[trigger] shorter[i]).name@ == name && value.len()
                        > 0 && (shorter[i].value_kind is Boolean ==> value == "true"@ || value
                        == "false"@) && (shorter[i].value_kind is Integer ==> parse_signed(
                        value,
                        i128::MIN as int,
                        i128::MAX as int,
                    ) is Some) && (shorter[i].allowed_values@.len() > 0 ==> texts(
                        shorter[i].allowed_values@,
                    ).contains(value));
                assert(options[j] == shorter[j]);
            } else {
                assert(name == option.name@);
                assert(lookup(before.0, name) == lookup(start.0, name));
            }
        }
        assert forall|i: int|
            0 <= i < options.len() && ((#[trigger] options[i]).required || options[i].default
                is Some) implies lookup(after.0, options[i].name@) is Some by {
            if i < n {
                assert(shorter[i] == options[i]);
                assert(lookup(before.0, options[i].name@) is Some);
            }
        }
    }
}

/// Options without a complaint are those that were given, as they were given, and
/// for the rest the rule's own defaults: each is one that the rule offers, none
/// that the rule asks for is missing, and a default never takes the place of what
/// was given.
pub proof fn law_normal_options_are_the_given_ones_and_defaults(
    rule: ConversionRule,
    entries: Entries,
    name: Seq<char>,
)
    requires
        normalized(rule, entries).1.len() == 0,
        normalized(rule, entries).2.len() == 0,
    ensures
        lookup(entries, name) is Some ==> lookup(normalized(rule, entries).0, name) == lookup(
            entries,
            name,
        ),
        lookup(normalized(rule, entries).0, name) matches Some(value) ==> offered(
            rule.options@,
            name,
            value,
        ) && (lookup(entries, name) is Some || defaulted(rule.options@, name, value)),
        forall|i: int|
            0 <= i < rule.options@.len() && ((#[trigger] rule.options@[i]).required
                || rule.options@[i].default is Some) ==> lookup(
                normalized(rule, entries).0,
                rule.options@[i].name@,
            ) is Some,
{
    let start = given(rule.options@, entries);
    lemma_defaults(rule.options@, start);
    lemma_given(rule.options@, entries);
    let after = normalized(rule, entries).0;
    assert(lookup(start.0, name) == lookup(entries, name));
    if lookup(after, name) != lookup(start.0, name) {
        assert(defaulted(rule.options@, name, lookup(after, name)->0) || lookup(after, name) is None);
    }
}

/// A conversion of texts or of documents into texts without a complaint writes
/// texts of the very character set, length, unit and collation of its column.
pub proof fn law_a_text_conversion_is_for_its_column(
    own: Entries,
    source: FieldDefinition,
    destination: FieldDefinition,
    chosen: Entries,
)
    requires
        lookup(own, "conversion_kind"@) == Some("text"@) || lookup(own, "conversion_kind"@) == Some(
            "json"@,
        ),
        parameters_complaint(own, source, destination, chosen) is None,
    ensures
        lookup(own, "conversion_kind"@) == Some("text"@) ==> source.logical_type is Text,
        lookup(own, "conversion_kind"@) == Some("json"@) ==> {
            &&& source.logical_type matches LogicalType::Json { profile }
            &&& profile.normalized
            &&& destination.logical_type is Text
            &&& lookup(chosen, "json_strategy"@) == Some("normalized_text"@)
        },
        lookup(chosen, "target_charset"@) matches Some(charset) && {
            &&& lookup(chosen, "target_length"@) matches Some(length)
            &&& lookup(chosen, "target_length_unit"@) matches Some(unit)
            &&& lookup(chosen, "target_collation"@) matches Some(collation)
            &&& charset.len() > 0 && length.len() > 0 && collation.len() > 0
            &&& unit == "bytes"@ || unit == "characters"@
            &&& length == "unbounded"@ || (parse_unsigned(length, u64::MAX as nat) is Some && length
                != "0"@)
            &&& lower(collation) == lower(
                match destination.collation {
                    Some(own) => own@,
                    None => "none"@,
                },
            )
            &&& destination.logical_type matches LogicalType::Text {
                charset: own,
                max_length,
                length_unit,
                ..
            } ==> {
                &&& lower(charset) == lower(own@)
                &&& length == match max_length {
                    Some(limit) => decimal(limit as nat),
                    None => "unbounded"@,
                }
                &&& unit == match length_unit {
                    LengthUnit::Bytes => "bytes"@,
                    LengthUnit::Characters => "characters"@,
                }
            }
        },
{
    lemma_conversion_kinds();
}

proof fn lemma_conversion_kinds()
    ensures
        "text"@ != "json"@ && "text"@ != "enum"@ && "json"@ != "enum"@,
        "text"@.len() == 4 && "json"@.len() == 4 && "enum"@.len() == 4,
        "binary"@.len() == 6 && "bit_string"@.len() == 10 && "spatial"@.len() == 7,
        "recursive"@.len() == 9 && "temporal"@.len() == 8,
{
    reveal_strlit("text");
    reveal_strlit("json");
    reveal_strlit("enum");
    reveal_strlit("binary");
    reveal_strlit("bit_string");
    reveal_strlit("spatial");
    reveal_strlit("recursive");
    reveal_strlit("temporal");
    assert("text"@[0] != "json"@[0] && "text"@[0] != "enum"@[0] && "json"@[0] != "enum"@[0]);
}

/// A conversion of bits, of geometries or of labels without a complaint is one
/// between fields of the same length, of the same known geometry in the same known
/// reference system, or of the same labels.
pub proof fn law_a_shaped_conversion_is_between_equals(
    own: Entries,
    source: FieldDefinition,
    destination: FieldDefinition,
    chosen: Entries,
    kind: Seq<char>,
)
    requires
        lookup(own, "conversion_kind"@) == Some(kind),
        parameters_complaint(own, source, destination, chosen) is None,
    ensures
        kind == "bit_string"@ ==> {
            &&& source.logical_type matches LogicalType::BitString { length }
            &&& destination.logical_type == (LogicalType::BitString { length })
            &&& either(chosen, own, "target_bit_length"@) matches Some(text)
            &&& parse_unsigned(text, u64::MAX as nat) == Some(length as nat)
        },
        kind == "spatial"@ ==> {
            &&& source.logical_type matches LogicalType::Spatial { subtype, srid, dimensions }
            &&& destination.logical_type matches LogicalType::Spatial {
                subtype: s,
                srid: i,
                dimensions: d,
            }
            &&& subtype@ == s@ && srid is Some && srid == i && dimensions == d
            &&& either(chosen, own, "source_crs"@) is Some
            &&& either(chosen, own, "source_crs"@) == either(chosen, own, "target_crs"@)
            &&& either(chosen, own, "source_crs"@) != Some("unknown"@)
        },
        kind == "enum"@ ==> {
            &&& source.logical_type matches LogicalType::Enum { members }
            &&& destination.logical_type matches LogicalType::Enum { members: others }
            &&& members@.len() == others@.len()
            &&& forall|i: int|
                0 <= i < members@.len() ==> texts(others@).contains((#[trigger] members@[i])@)
        },
        kind == "binary"@ ==> source.logical_type is Binary && destination.logical_type is Binary,
        kind == "recursive"@ ==> recursive_kind(source.logical_type) is Some && (
        destination.logical_type is Json || recursive_kind(destination.logical_type)
            == recursive_kind(source.logical_type)),
{
    lemma_conversion_kinds();
}

/// A conversion of times without a complaint has the precision of its column, and
/// it changes something: between a local time and an instant it goes by a time
/// zone, and within one kind it changes the precision.
pub proof fn law_a_temporal_conversion_changes_something(
    own: Entries,
    source: FieldDefinition,
    destination: FieldDefinition,
    chosen: Entries,
)
    requires
        lookup(own, "conversion_kind"@) == Some("temporal"@),
        parameters_complaint(own, source, destination, chosen) is None,
    ensures
        ({
            let from = source.logical_type;
            let to = destination.logical_type;
            &&& from is LocalDatetime || from is Instant || from is Duration
            &&& lookup(chosen, "target_precision"@) matches Some(text)
            &&& parse_unsigned(text, 255) matches Some(places)
            &&& places <= 6
            &&& temporal_type(to) ==> places == temporal_places(to) as nat
            &&& (from is LocalDatetime && to is LocalDatetime) || (from is Instant && to is Instant)
                || (from is Duration && to is Duration) ==> places != temporal_places(from) as nat
            &&& (from is LocalDatetime && to is Instant) || (from is Instant && to is LocalDatetime)
                ==> (lookup(chosen, "time_zone"@) matches Some(zone) && zone_complaint(zone)
                is None)
            &&& from is LocalDatetime && to is Instant ==> lookup(chosen, "temporal_strategy"@)
                == Some("local_to_absolute"@)
            &&& from is Instant && to is LocalDatetime ==> lookup(chosen, "temporal_strategy"@)
                == Some("absolute_to_local"@)
            &&& from is Duration && temporal_type(to) ==> to is Duration
            &&& to is Duration ==> from is Duration
        }),
{
    lemma_conversion_kinds();
    reveal_strlit("local_datetime");
    reveal_strlit("instant");
    reveal_strlit("duration");
    reveal_strlit("unknown");
    assert("local_datetime"@.len() == 14 && "instant"@.len() == 7 && "duration"@.len() == 8
        && "unknown"@.len() == 7);
    assert("instant"@[0] != "unknown"@[0]);
}

} // verus!
