//! Converting the values of a transaction by their plans.
use crate::change_event::compatibility::capability_failure::TargetCapabilityFailure;
use crate::change_event::compatibility::plan::ColumnConversionPlan;
use crate::change_event::compatibility::values::check::{
    check_fits, check_value, is_plan_failure, plan_failure, value_refusal,
};
use crate::change_event::compatibility::values::json_text::{
    normalized_json, render_normalized_json, DoubleText,
};
use crate::change_event::compatibility::values::members::{
    check_set, in_target_order, is_listed, named_members, order_members, plan_members,
};
use crate::change_event::compatibility::values::refusal::{
    plan_holds, plan_parameter, plan_value, refusal_of, refuse, Refusal, RefusalText,
};
use crate::change_event::compatibility::values::temporal::{
    convert_temporal_value, temporal_conversion_refusal, temporal_converted, temporal_fits,
};
use crate::change_event::compatibility::values::text::{
    decode_supported_text, decoded_text, encode_supported_text, encoded_text, optional_view,
    required_text_parameter, text_parameter,
};
use crate::change_event::model::{
    logical_value_doc, ChangeTransaction, ColumnDatum, Datum, LogicalValue, RowChange,
};
use crate::encoding::{base64url_decode, base64url_decoded, base64url_encode, base64url_encoded};
use crate::json::Contract;
use crate::number::{parse_unsigned, parse_usize};
use crate::text::{same, texts};
use vstd::prelude::*;

verus! {

// ---------------------------------------------------------------------------
// Binary values
// ---------------------------------------------------------------------------

/// The length that a plan fills binary values up to.
pub open spec fn fixed_length(plan: ColumnConversionPlan) -> Option<Seq<char>> {
    let length = plan_value(plan, "target_length"@);
    if plan_value(plan, "target_fixed"@) == Some("true"@) && length != Some("unbounded"@) {
        length
    } else {
        None
    }
}

/// The byte that a plan fills binary values up with.
pub open spec fn fill_byte(plan: ColumnConversionPlan) -> Option<u8> {
    let padding = plan_value(plan, "target_padding"@);
    if padding == Some("zero"@) {
        Some(0u8)
    } else if padding == Some("one"@) {
        Some(255u8)
    } else {
        None
    }
}

/// Bytes filled up to a length.
pub open spec fn filled(bytes: Seq<u8>, length: nat, byte: u8) -> Seq<u8> {
    bytes + Seq::new((length - bytes.len()) as nat, |i: int| byte)
}

/// The bytes of a binary value after its conversion, or why there are none.
pub open spec fn converted_bytes(plan: ColumnConversionPlan, bytes: Seq<u8>) -> Result<
    Seq<u8>,
    RefusalText,
> {
    match fixed_length(plan) {
        None => Ok(bytes),
        Some(text) => match parse_unsigned(text, usize::MAX as nat) {
            None => Err(
                (
                    "target_capability.binary_length_invalid"@,
                    "the saved binary target length is invalid"@,
                ),
            ),
            Some(length) => match fill_byte(plan) {
                None => Err(
                    (
                        "target_capability.binary_padding_invalid"@,
                        "fixed binary padding must be explicitly zero or one"@,
                    ),
                ),
                Some(byte) => if bytes.len() > length {
                    Err(
                        (
                            "target_capability.binary_length_out_of_range"@,
                            "binary value exceeds the qualified target length"@,
                        ),
                    )
                } else {
                    Ok(filled(bytes, length, byte))
                },
            },
        },
    }
}

/// Why a binary value cannot be converted by a plan that takes it.
pub open spec fn binary_conversion_refusal(plan: ColumnConversionPlan, value: LogicalValue) -> Option<RefusalText> {
    match value {
        LogicalValue::Binary { bytes_base64url } => match base64url_decoded(bytes_base64url@) {
            None => Some(
                (
                    "target_capability.binary_format_invalid"@,
                    "the binary value is not valid base64url bytes"@,
                ),
            ),
            Some(bytes) => match converted_bytes(plan, bytes) {
                Err(refusal) => Some(refusal),
                Ok(_) => None,
            },
        },
        _ => Some(
            (
                "target_capability.binary_type_mismatch"@,
                "the binary conversion plan received a non-binary value"@,
            ),
        ),
    }
}

/// The result holds the bytes of the value, filled up as the plan says.
pub open spec fn binary_converted(
    plan: ColumnConversionPlan,
    value: LogicalValue,
    result: LogicalValue,
) -> bool {
    value matches LogicalValue::Binary { bytes_base64url } && result matches LogicalValue::Binary {
        bytes_base64url: encoded,
    } && base64url_decoded(bytes_base64url@) matches Some(bytes) && converted_bytes(
        plan,
        bytes,
    ) matches Ok(kept) && encoded@ == base64url_encoded(kept) && base64url_decoded(encoded@)
        == Some(kept)
}

fn fill(bytes: Vec<u8>, length: usize, byte: u8) -> (result: Vec<u8>)
    requires
        bytes@.len() <= length,
    ensures
        result@ == filled(bytes@, length as nat, byte),
{
    let ghost given = bytes@;
    let mut result = bytes;
    assert(result@ =~= given + Seq::new(0, |i: int| byte));
    while result.len() < length
        invariant
            given.len() <= result@.len() <= length,
            result@ == given + Seq::new((result@.len() - given.len()) as nat, |i: int| byte),
        decreases length - result@.len(),
    {
        let ghost before = result@;
        result.push(byte);
        assert(result@ =~= given + Seq::new((result@.len() - given.len()) as nat, |i: int| byte));
    }
    result
}

fn convert_bytes(plan: &ColumnConversionPlan, bytes: Vec<u8>) -> (result: Result<Vec<u8>, Refusal>)
    ensures
        match result {
            Ok(kept) => converted_bytes(*plan, bytes@) == Ok::<Seq<u8>, RefusalText>(kept@),
            Err(refusal) => converted_bytes(*plan, bytes@) == Err::<Seq<u8>, RefusalText>(
                (refusal.code@, refusal.message@),
            ),
        },
{
    if !plan_holds(plan, "target_fixed", "true") {
        return Ok(bytes);
    }
    let text = match plan_parameter(plan, "target_length") {
        Some(text) => text,
        None => {
            return Ok(bytes);
        },
    };
    if same(text, "unbounded") {
        return Ok(bytes);
    }
    let length: usize = match parse_usize(text) {
        Some(length) => length,
        None => {
            return Err(
                refuse(
                    "target_capability.binary_length_invalid",
                    "the saved binary target length is invalid",
                ),
            );
        },
    };
    let byte: u8 = if plan_holds(plan, "target_padding", "zero") {
        0
    } else if plan_holds(plan, "target_padding", "one") {
        255
    } else {
        return Err(
            refuse(
                "target_capability.binary_padding_invalid",
                "fixed binary padding must be explicitly zero or one",
            ),
        );
    };
    if bytes.len() > length {
        return Err(
            refuse(
                "target_capability.binary_length_out_of_range",
                "binary value exceeds the qualified target length",
            ),
        );
    }
    Ok(fill(bytes, length, byte))
}

fn convert_binary_value(plan: &ColumnConversionPlan, value: &LogicalValue) -> (result: Result<
    LogicalValue,
    Refusal,
>)
    ensures
        refusal_of(result) == binary_conversion_refusal(*plan, *value),
        result matches Ok(converted) ==> binary_converted(*plan, *value, converted),
{
    match value {
        LogicalValue::Binary { bytes_base64url } => {
            let bytes = match base64url_decode(bytes_base64url.as_str()) {
                Some(bytes) => bytes,
                None => {
                    return Err(
                        refuse(
                            "target_capability.binary_format_invalid",
                            "the binary value is not valid base64url bytes",
                        ),
                    );
                },
            };
            match convert_bytes(plan, bytes) {
                Ok(kept) => Ok(LogicalValue::Binary { bytes_base64url: base64url_encode(&kept) }),
                Err(refusal) => Err(refusal),
            }
        },
        _ => Err(
            refuse(
                "target_capability.binary_type_mismatch",
                "the binary conversion plan received a non-binary value",
            ),
        ),
    }
}

// ---------------------------------------------------------------------------
// Text
// ---------------------------------------------------------------------------

/// The result is a text in a character set, with its bytes there.
pub open spec fn is_text_value(
    result: LogicalValue,
    charset: Seq<char>,
    bytes: Seq<u8>,
    text: Seq<char>,
) -> bool {
    result matches LogicalValue::Text { charset: c, bytes_base64url, text: t } && c@ == charset
        && bytes_base64url@ == base64url_encoded(bytes) && base64url_decoded(bytes_base64url@)
        == Some(bytes) && optional_view(t) == Some(text)
}

/// Why a text cannot be converted by a plan that takes it.
pub open spec fn text_conversion_refusal(plan: ColumnConversionPlan, value: LogicalValue) -> Option<RefusalText> {
    match value {
        LogicalValue::Text { charset, bytes_base64url, text } => match base64url_decoded(
            bytes_base64url@,
        ) {
            None => Some(
                (
                    "target_capability.text_encoding_invalid"@,
                    "the captured text bytes are not valid base64url"@,
                ),
            ),
            Some(bytes) => match decoded_text(charset@, bytes, optional_view(text)) {
                Err(code) => Some((code, "the captured text cannot be decoded"@)),
                Ok(decoded) => match text_parameter(plan, "target_charset"@) {
                    Err(refusal) => Some(refusal),
                    Ok(target) => match encoded_text(target, decoded) {
                        Err(code) => Some((code, "the target charset cannot represent the text"@)),
                        Ok(_) => None,
                    },
                },
            },
        },
        _ => Some(
            (
                "target_capability.text_type_mismatch"@,
                "the captured value is not text"@,
            ),
        ),
    }
}

/// The result is the same text in the character set of the target.
pub open spec fn text_converted(
    plan: ColumnConversionPlan,
    value: LogicalValue,
    result: LogicalValue,
) -> bool {
    value matches LogicalValue::Text { charset, bytes_base64url, text } && base64url_decoded(
        bytes_base64url@,
    ) matches Some(bytes) && decoded_text(charset@, bytes, optional_view(text)) matches Ok(decoded)
        && text_parameter(plan, "target_charset"@) matches Ok(target) && encoded_text(
        target,
        decoded,
    ) matches Ok(encoded) && is_text_value(result, target, encoded, decoded)
}

fn convert_text_value(plan: &ColumnConversionPlan, value: &LogicalValue) -> (result: Result<
    LogicalValue,
    Refusal,
>)
    ensures
        refusal_of(result) == text_conversion_refusal(*plan, *value),
        result matches Ok(converted) ==> text_converted(*plan, *value, converted),
{
    match value {
        LogicalValue::Text { charset, bytes_base64url, text } => {
            let bytes = match base64url_decode(bytes_base64url.as_str()) {
                Some(bytes) => bytes,
                None => {
                    return Err(
                        refuse(
                            "target_capability.text_encoding_invalid",
                            "the captured text bytes are not valid base64url",
                        ),
                    );
                },
            };
            let decoded = match decode_supported_text(charset.as_str(), &bytes, text) {
                Ok(decoded) => decoded,
                Err(code) => {
                    return Err(refuse(code, "the captured text cannot be decoded"));
                },
            };
            let target = match required_text_parameter(plan, "target_charset") {
                Ok(target) => target,
                Err(refusal) => {
                    return Err(refusal);
                },
            };
            let encoded = match encode_supported_text(target, decoded.as_str()) {
                Ok(encoded) => encoded,
                Err(code) => {
                    return Err(refuse(code, "the target charset cannot represent the text"));
                },
            };
            Ok(
                LogicalValue::Text {
                    charset: target.to_owned(),
                    bytes_base64url: base64url_encode(&encoded),
                    text: Some(decoded),
                },
            )
        },
        _ => Err(
            refuse("target_capability.text_type_mismatch", "the captured value is not text"),
        ),
    }
}

// ---------------------------------------------------------------------------
// JSON
// ---------------------------------------------------------------------------

/// The text that a JSON column value becomes, or why there is none.
pub open spec fn json_becomes(
    plan: ColumnConversionPlan,
    value: LogicalValue,
    doubles: Seq<DoubleText>,
) -> Result<Seq<char>, RefusalText> {
    match value {
        LogicalValue::Json { value } => {
            let strategy = plan_value(plan, "json_strategy"@);
            if strategy == Some("raw_text"@) {
                Err(
                    (
                        "target_capability.json_raw_text_unavailable"@,
                        "raw source JSON text is not retained by the ChangeEvent contract"@,
                    ),
                )
            } else if strategy != Some("normalized_text"@) {
                Err(
                    (
                        "target_capability.json_strategy_invalid"@,
                        "only normalized_text is valid for a JSON-to-text conversion plan"@,
                    ),
                )
            } else {
                match normalized_json(value, Some(doubles)) {
                    Ok(text) => Ok(text),
                    Err(message) => Err(
                        ("target_capability.json_normalization_failed"@, message),
                    ),
                }
            }
        },
        _ => Err(
            (
                "target_capability.json_type_mismatch"@,
                "the JSON conversion plan received a non-JSON value"@,
            ),
        ),
    }
}

/// Why a JSON column value cannot be converted by a plan that takes it.
pub open spec fn json_conversion_refusal(
    plan: ColumnConversionPlan,
    value: LogicalValue,
    doubles: Seq<DoubleText>,
) -> Option<RefusalText> {
    match json_becomes(plan, value, doubles) {
        Err(refusal) => Some(refusal),
        Ok(normalized) => match text_parameter(plan, "target_charset"@) {
            Err(refusal) => Some(refusal),
            Ok(target) => match encoded_text(target, normalized) {
                Err(code) => Some(
                    (code, "the normalized JSON cannot be represented by the target charset"@),
                ),
                Ok(_) => None,
            },
        },
    }
}

/// The result is the normalized text in the character set of the target.
pub open spec fn json_converted(
    plan: ColumnConversionPlan,
    value: LogicalValue,
    doubles: Seq<DoubleText>,
    result: LogicalValue,
) -> bool {
    json_becomes(plan, value, doubles) matches Ok(normalized) && text_parameter(
        plan,
        "target_charset"@,
    ) matches Ok(target) && encoded_text(target, normalized) matches Ok(encoded) && is_text_value(
        result,
        target,
        encoded,
        normalized,
    )
}

fn normalize_json_value(
    plan: &ColumnConversionPlan,
    value: &LogicalValue,
    doubles: &Vec<DoubleText>,
) -> (result: Result<String, Refusal>)
    ensures
        match result {
            Ok(text) => json_becomes(*plan, *value, doubles@) == Ok::<Seq<char>, RefusalText>(
                text@,
            ),
            Err(refusal) => json_becomes(*plan, *value, doubles@) == Err::<Seq<char>, RefusalText>(
                (refusal.code@, refusal.message@),
            ),
        },
{
    match value {
        LogicalValue::Json { value } => {
            proof {
                reveal_strlit("raw_text");
                reveal_strlit("normalized_text");
                assert("raw_text"@.len() != "normalized_text"@.len());
            }
            if plan_holds(plan, "json_strategy", "raw_text") {
                return Err(
                    refuse(
                        "target_capability.json_raw_text_unavailable",
                        "raw source JSON text is not retained by the ChangeEvent contract",
                    ),
                );
            }
            if !plan_holds(plan, "json_strategy", "normalized_text") {
                return Err(
                    refuse(
                        "target_capability.json_strategy_invalid",
                        "only normalized_text is valid for a JSON-to-text conversion plan",
                    ),
                );
            }
            match render_normalized_json(value, Some(doubles)) {
                Ok(text) => Ok(text),
                Err(message) => Err(
                    refuse("target_capability.json_normalization_failed", message.as_str()),
                ),
            }
        },
        _ => Err(
            refuse(
                "target_capability.json_type_mismatch",
                "the JSON conversion plan received a non-JSON value",
            ),
        ),
    }
}

fn convert_json_value(
    plan: &ColumnConversionPlan,
    value: &LogicalValue,
    doubles: &Vec<DoubleText>,
) -> (result: Result<LogicalValue, Refusal>)
    ensures
        refusal_of(result) == json_conversion_refusal(*plan, *value, doubles@),
        result matches Ok(converted) ==> json_converted(*plan, *value, doubles@, converted),
{
    let normalized = match normalize_json_value(plan, value, doubles) {
        Ok(normalized) => normalized,
        Err(refusal) => {
            return Err(refusal);
        },
    };
    let target = match required_text_parameter(plan, "target_charset") {
        Ok(target) => target,
        Err(refusal) => {
            return Err(refusal);
        },
    };
    let encoded = match encode_supported_text(target, normalized.as_str()) {
        Ok(encoded) => encoded,
        Err(code) => {
            return Err(
                refuse(code, "the normalized JSON cannot be represented by the target charset"),
            );
        },
    };
    Ok(
        LogicalValue::Text {
            charset: target.to_owned(),
            bytes_base64url: base64url_encode(&encoded),
            text: Some(normalized),
        },
    )
}

// ---------------------------------------------------------------------------
// Labels and members
// ---------------------------------------------------------------------------

/// The result is the label, or the members in the order of the target.
pub open spec fn members_converted(
    plan: ColumnConversionPlan,
    value: LogicalValue,
    result: LogicalValue,
) -> bool {
    named_members(plan, "target_members"@) matches Ok(targets) && match value {
        LogicalValue::Enum { label } => result matches LogicalValue::Enum { label: kept } && kept@
            == label@,
        LogicalValue::SetValue { members } => result matches LogicalValue::SetValue {
            members: kept,
        } && texts(kept@) == in_target_order(targets, texts(members@)),
        _ => false,
    }
}

fn convert_enum_set_value(plan: &ColumnConversionPlan, value: &LogicalValue) -> (result: Result<
    LogicalValue,
    Refusal,
>)
    ensures
        refusal_of(result)
            == crate::change_event::compatibility::values::members::enum_set_refusal(*plan, *value),
        result matches Ok(converted) ==> members_converted(*plan, *value, converted),
{
    let targets = match plan_members(plan, "target_members") {
        Ok(targets) => targets,
        Err(refusal) => {
            return Err(refusal);
        },
    };
    match value {
        LogicalValue::Enum { label } => {
            if is_listed(&targets, label.as_str()) {
                Ok(LogicalValue::Enum { label: label.clone() })
            } else {
                Err(
                    refuse(
                        "target_capability.enum_unknown_label",
                        "the ENUM label is not declared by the target definition",
                    ),
                )
            }
        },
        LogicalValue::SetValue { members } => {
            match check_set(members, &targets) {
                Ok(_) => {},
                Err(refusal) => {
                    return Err(refusal);
                },
            }
            // A SET is a mathematical collection of members. Its canonical form
            // in the order of the target makes order differences explicit while
            // preserving the set.
            Ok(LogicalValue::SetValue { members: order_members(&targets, members) })
        },
        _ => Err(
            refuse(
                "target_capability.enum_set_type_mismatch",
                "the ENUM/SET conversion plan received another LogicalValue family",
            ),
        ),
    }
}

// ---------------------------------------------------------------------------
// One value
// ---------------------------------------------------------------------------

/// How a plan says that a value is converted.
pub enum Conversion {
    Binary,
    Text,
    Json,
    Members,
    Temporal,
    Kept,
}

pub open spec fn conversion(plan: ColumnConversionPlan) -> Conversion {
    let kind = plan.target.parameters.value_of("conversion_kind"@);
    let strategy = plan.target.parameters.value_of("value_strategy"@);
    if kind == Some("binary"@) {
        Conversion::Binary
    } else if kind == Some("bit_string"@) || kind == Some("spatial"@) || kind == Some(
        "recursive"@,
    ) {
        Conversion::Kept
    } else if kind == Some("text"@) {
        Conversion::Text
    } else if kind == Some("json"@) {
        Conversion::Json
    } else if kind == Some("enum"@) || kind == Some("set"@) {
        Conversion::Members
    } else if kind == Some("temporal"@) {
        Conversion::Temporal
    } else if strategy == Some("enum_label"@) || strategy == Some("set_members"@) {
        Conversion::Members
    } else {
        Conversion::Kept
    }
}

/// Why a plan does not convert a value.
pub open spec fn conversion_refusal(
    plan: ColumnConversionPlan,
    value: LogicalValue,
    doubles: Seq<DoubleText>,
) -> Option<RefusalText> {
    match value_refusal(plan, value) {
        Some(refusal) => Some(refusal),
        None => match conversion(plan) {
            Conversion::Binary => binary_conversion_refusal(plan, value),
            Conversion::Text => text_conversion_refusal(plan, value),
            Conversion::Json => json_conversion_refusal(plan, value, doubles),
            Conversion::Members =>
                crate::change_event::compatibility::values::members::enum_set_refusal(plan, value),
            Conversion::Temporal => temporal_conversion_refusal(plan, value),
            Conversion::Kept => None,
        },
    }
}

/// The result is what a plan converts a value to.
pub open spec fn is_converted(
    plan: ColumnConversionPlan,
    value: LogicalValue,
    doubles: Seq<DoubleText>,
    result: LogicalValue,
) -> bool {
    match conversion(plan) {
        Conversion::Binary => binary_converted(plan, value, result),
        Conversion::Text => text_converted(plan, value, result),
        Conversion::Json => json_converted(plan, value, doubles, result),
        Conversion::Members => members_converted(plan, value, result),
        Conversion::Temporal => temporal_converted(plan, value, result),
        Conversion::Kept => logical_value_doc(result) == logical_value_doc(value),
    }
}

/// Checking and converting a value computes with numbers that fit their machine
/// words.
pub open spec fn conversion_fits(plan: ColumnConversionPlan, value: LogicalValue) -> bool {
    &&& check_fits(plan, value)
    &&& value_refusal(plan, value) is None && conversion(plan) is Temporal ==> temporal_fits(
        plan,
        value,
    )
}

fn is_kind(plan: &ColumnConversionPlan, kind: &str) -> (result: bool)
    ensures
        result == (plan.target.parameters.value_of("conversion_kind"@) == Some(kind@)),
{
    match plan.target.parameters.get("conversion_kind") {
        Some(name) => same(name, kind),
        None => false,
    }
}

fn is_strategy(plan: &ColumnConversionPlan, strategy: &str) -> (result: bool)
    ensures
        result == (plan.target.parameters.value_of("value_strategy"@) == Some(strategy@)),
{
    match plan.target.parameters.get("value_strategy") {
        Some(name) => same(name, strategy),
        None => false,
    }
}

fn convert_value_with_plan(
    plan: &ColumnConversionPlan,
    value: &LogicalValue,
    doubles: &Vec<DoubleText>,
) -> (result: Result<LogicalValue, Refusal>)
    requires
        conversion_fits(*plan, *value),
    ensures
        refusal_of(result) == conversion_refusal(*plan, *value, doubles@),
        result matches Ok(converted) ==> is_converted(*plan, *value, doubles@, converted),
{
    match check_value(plan, value) {
        Ok(_) => {},
        Err(refusal) => {
            return Err(refusal);
        },
    }
    if is_kind(plan, "binary") {
        convert_binary_value(plan, value)
    } else if is_kind(plan, "bit_string") || is_kind(plan, "spatial") || is_kind(
        plan,
        "recursive",
    ) {
        Ok(value.duplicate())
    } else if is_kind(plan, "text") {
        convert_text_value(plan, value)
    } else if is_kind(plan, "json") {
        convert_json_value(plan, value, doubles)
    } else if is_kind(plan, "enum") || is_kind(plan, "set") {
        convert_enum_set_value(plan, value)
    } else if is_kind(plan, "temporal") {
        convert_temporal_value(plan, value)
    } else if is_strategy(plan, "enum_label") || is_strategy(plan, "set_members") {
        convert_enum_set_value(plan, value)
    } else {
        Ok(value.duplicate())
    }
}

// ---------------------------------------------------------------------------
// Transactions
// ---------------------------------------------------------------------------

/// The lineage of a column.
pub open spec fn lineage_of(schema: Seq<char>, table: Seq<char>, column: Seq<char>) -> Seq<char> {
    "catalog:"@ + schema + "."@ + table + ("."@ + column)
}

/// The first plan for a lineage.
pub open spec fn plan_for(plans: Seq<ColumnConversionPlan>, lineage: Seq<char>) -> Option<
    ColumnConversionPlan,
>
    decreases plans.len(),
{
    if plans.len() == 0 {
        None
    } else if plans[0].source_field.lineage_id@ == lineage {
        Some(plans[0])
    } else {
        plan_for(plans.drop_first(), lineage)
    }
}

/// The plan that converts a column. A generated column, and one without a plan,
/// is left alone.
pub open spec fn column_plan(
    plans: Seq<ColumnConversionPlan>,
    schema: Seq<char>,
    table: Seq<char>,
    column: ColumnDatum,
) -> Option<ColumnConversionPlan> {
    if column.generated {
        None
    } else {
        plan_for(plans, lineage_of(schema, table, column.name@))
    }
}

/// Why a column cannot be converted, and by which plan.
pub open spec fn column_refusal(
    plans: Seq<ColumnConversionPlan>,
    doubles: Seq<DoubleText>,
    schema: Seq<char>,
    table: Seq<char>,
    column: ColumnDatum,
) -> Option<(ColumnConversionPlan, RefusalText)> {
    match column_plan(plans, schema, table, column) {
        None => None,
        Some(plan) => match column.datum {
            Datum::Value(value) => match conversion_refusal(plan, value, doubles) {
                Some(refusal) => Some((plan, refusal)),
                None => None,
            },
            Datum::Unavailable => Some(
                (
                    plan,
                    (
                        "target_capability.unavailable_value"@,
                        "an unavailable source value cannot be written by a conversion plan"@,
                    ),
                ),
            ),
            _ => None,
        },
    }
}

/// Only the datum of a column changes, and it as its plan says.
pub open spec fn column_converted(
    plans: Seq<ColumnConversionPlan>,
    doubles: Seq<DoubleText>,
    schema: Seq<char>,
    table: Seq<char>,
    column: ColumnDatum,
    result: ColumnDatum,
) -> bool {
    &&& result == (ColumnDatum { datum: result.datum, ..column })
    &&& match column_plan(plans, schema, table, column) {
        None => result.datum == column.datum,
        Some(plan) => match column.datum {
            Datum::Value(value) => result.datum matches Datum::Value(converted) && is_converted(
                plan,
                value,
                doubles,
                converted,
            ),
            _ => result.datum == column.datum,
        },
    }
}

/// The numbers fit for every column that has a plan.
pub open spec fn column_fits(
    plans: Seq<ColumnConversionPlan>,
    schema: Seq<char>,
    table: Seq<char>,
    column: ColumnDatum,
) -> bool {
    column_plan(plans, schema, table, column) matches Some(plan) ==> (column.datum matches
        Datum::Value(value) ==> conversion_fits(plan, value))
}

/// Why the columns from `from` on cannot be converted.
pub open spec fn image_refusal(
    plans: Seq<ColumnConversionPlan>,
    doubles: Seq<DoubleText>,
    schema: Seq<char>,
    table: Seq<char>,
    image: Seq<ColumnDatum>,
    from: int,
) -> Option<(ColumnConversionPlan, RefusalText)>
    decreases image.len() - from,
{
    if from < 0 || from >= image.len() {
        None
    } else {
        match column_refusal(plans, doubles, schema, table, image[from]) {
            Some(refusal) => Some(refusal),
            None => image_refusal(plans, doubles, schema, table, image, from + 1),
        }
    }
}

/// Every column of an image is converted.
pub open spec fn image_converted(
    plans: Seq<ColumnConversionPlan>,
    doubles: Seq<DoubleText>,
    schema: Seq<char>,
    table: Seq<char>,
    image: Seq<ColumnDatum>,
    result: Seq<ColumnDatum>,
) -> bool {
    &&& result.len() == image.len()
    &&& forall|i: int|
        #![trigger result[i]]
        0 <= i < image.len() ==> column_converted(
            plans,
            doubles,
            schema,
            table,
            image[i],
            result[i],
        )
}

/// The numbers fit for every column of an image.
pub open spec fn image_fits(
    plans: Seq<ColumnConversionPlan>,
    schema: Seq<char>,
    table: Seq<char>,
    image: Seq<ColumnDatum>,
) -> bool {
    forall|i: int|
        #![trigger image[i]]
        0 <= i < image.len() ==> column_fits(plans, schema, table, image[i])
}

pub open spec fn optional_refusal(
    plans: Seq<ColumnConversionPlan>,
    doubles: Seq<DoubleText>,
    change: RowChange,
    image: Option<Vec<ColumnDatum>>,
) -> Option<(ColumnConversionPlan, RefusalText)> {
    match image {
        Some(row) => image_refusal(plans, doubles, change.schema@, change.table@, row@, 0),
        None => None,
    }
}

pub open spec fn optional_converted(
    plans: Seq<ColumnConversionPlan>,
    doubles: Seq<DoubleText>,
    change: RowChange,
    image: Option<Vec<ColumnDatum>>,
    result: Option<Vec<ColumnDatum>>,
) -> bool {
    match (image, result) {
        (Some(row), Some(converted)) => image_converted(
            plans,
            doubles,
            change.schema@,
            change.table@,
            row@,
            converted@,
        ),
        (None, None) => true,
        _ => false,
    }
}

/// Why the changes from `from` on cannot be converted: their before images
/// first.
pub open spec fn changes_refusal(
    plans: Seq<ColumnConversionPlan>,
    doubles: Seq<DoubleText>,
    changes: Seq<RowChange>,
    from: int,
) -> Option<(ColumnConversionPlan, RefusalText)>
    decreases changes.len() - from,
{
    if from < 0 || from >= changes.len() {
        None
    } else {
        let change = changes[from];
        match optional_refusal(plans, doubles, change, change.before) {
            Some(refusal) => Some(refusal),
            None => match optional_refusal(plans, doubles, change, change.after) {
                Some(refusal) => Some(refusal),
                None => changes_refusal(plans, doubles, changes, from + 1),
            },
        }
    }
}

/// Only the images of a change differ, and they are converted.
pub open spec fn change_converted(
    plans: Seq<ColumnConversionPlan>,
    doubles: Seq<DoubleText>,
    change: RowChange,
    result: RowChange,
) -> bool {
    &&& result == (RowChange { before: result.before, after: result.after, ..change })
    &&& optional_converted(plans, doubles, change, change.before, result.before)
    &&& optional_converted(plans, doubles, change, change.after, result.after)
}

/// The numbers fit for every image of a change.
pub open spec fn change_fits(plans: Seq<ColumnConversionPlan>, change: RowChange) -> bool {
    &&& change.before matches Some(row) ==> image_fits(plans, change.schema@, change.table@, row@)
    &&& change.after matches Some(row) ==> image_fits(plans, change.schema@, change.table@, row@)
}

fn find_plan<'a>(plans: &'a Vec<ColumnConversionPlan>, lineage: &str) -> (result: Option<
    &'a ColumnConversionPlan,
>)
    ensures
        match result {
            Some(plan) => plan_for(plans@, lineage@) == Some(*plan),
            None => plan_for(plans@, lineage@) is None,
        },
{
    let mut i: usize = 0;
    assert(plans@.skip(0) =~= plans@);
    while i < plans.len()
        invariant
            i <= plans@.len(),
            plan_for(plans@, lineage@) == plan_for(plans@.skip(i as int), lineage@),
        decreases plans@.len() - i,
    {
        assert(plans@.skip(i as int)[0] == plans@[i as int]);
        assert(plans@.skip(i as int).drop_first() =~= plans@.skip(i + 1));
        if same(plans[i].source_field.lineage_id.as_str(), lineage) {
            return Some(&plans[i]);
        }
        i += 1;
    }
    None
}

/// A refusal, and the failure that names its plan.
spec fn failed_with(
    failure: TargetCapabilityFailure,
    refusal: Option<(ColumnConversionPlan, RefusalText)>,
) -> bool {
    refusal matches Some((plan, (code, message))) && is_plan_failure(failure, plan, code, message)
}

fn convert_column(
    plans: &Vec<ColumnConversionPlan>,
    doubles: &Vec<DoubleText>,
    schema: &str,
    table: &str,
    column: ColumnDatum,
) -> (result: Result<ColumnDatum, TargetCapabilityFailure>)
    requires
        column_fits(plans@, schema@, table@, column),
    ensures
        match result {
            Ok(converted) => column_refusal(plans@, doubles@, schema@, table@, column) is None
                && column_converted(plans@, doubles@, schema@, table@, column, converted),
            Err(failure) => failed_with(
                failure,
                column_refusal(plans@, doubles@, schema@, table@, column),
            ),
        },
{
    if column.generated {
        return Ok(column);
    }
    let head = crate::text::concat4("catalog:", schema, ".", table);
    let tail = crate::text::concat(".", column.name.as_str());
    let lineage = crate::text::concat(head.as_str(), tail.as_str());
    let plan = match find_plan(plans, lineage.as_str()) {
        Some(plan) => plan,
        None => {
            return Ok(column);
        },
    };
    match &column.datum {
        Datum::Value(value) => match convert_value_with_plan(plan, value, doubles) {
            Ok(converted) => Ok(ColumnDatum { datum: Datum::Value(converted), ..column }),
            Err(refusal) => Err(plan_failure(plan, refusal.code, refusal.message.as_str())),
        },
        Datum::Unavailable => Err(
            plan_failure(
                plan,
                "target_capability.unavailable_value",
                "an unavailable source value cannot be written by a conversion plan",
            ),
        ),
        _ => Ok(column),
    }
}

fn convert_image(
    plans: &Vec<ColumnConversionPlan>,
    doubles: &Vec<DoubleText>,
    schema: &str,
    table: &str,
    image: Vec<ColumnDatum>,
) -> (result: Result<Vec<ColumnDatum>, TargetCapabilityFailure>)
    requires
        image_fits(plans@, schema@, table@, image@),
    ensures
        match result {
            Ok(converted) => image_refusal(plans@, doubles@, schema@, table@, image@, 0) is None
                && image_converted(plans@, doubles@, schema@, table@, image@, converted@),
            Err(failure) => failed_with(
                failure,
                image_refusal(plans@, doubles@, schema@, table@, image@, 0),
            ),
        },
{
    let ghost all = image@;
    let mut converted: Vec<ColumnDatum> = Vec::new();
    for column in iter: image
        invariant
            iter.seq() == all,
            image_fits(plans@, schema@, table@, all),
            converted@.len() == iter.index(),
            image_refusal(plans@, doubles@, schema@, table@, all, 0) == image_refusal(
                plans@,
                doubles@,
                schema@,
                table@,
                all,
                iter.index() as int,
            ),
            forall|k: int|
                #![trigger converted@[k]]
                0 <= k < converted@.len() ==> column_converted(
                    plans@,
                    doubles@,
                    schema@,
                    table@,
                    all[k],
                    converted@[k],
                ),
    {
        assert(column == all[iter.index() as int]);
        match convert_column(plans, doubles, schema, table, column) {
            Ok(result) => converted.push(result),
            Err(failure) => {
                return Err(failure);
            },
        }
    }
    Ok(converted)
}

fn convert_change(
    plans: &Vec<ColumnConversionPlan>,
    doubles: &Vec<DoubleText>,
    change: RowChange,
) -> (result: Result<RowChange, TargetCapabilityFailure>)
    requires
        change_fits(plans@, change),
    ensures
        match result {
            Ok(converted) => optional_refusal(plans@, doubles@, change, change.before) is None
                && optional_refusal(plans@, doubles@, change, change.after) is None
                && change_converted(plans@, doubles@, change, converted),
            Err(failure) => failed_with(
                failure,
                match optional_refusal(plans@, doubles@, change, change.before) {
                    Some(refusal) => Some(refusal),
                    None => optional_refusal(plans@, doubles@, change, change.after),
                },
            ),
        },
{
    let before = match change.before {
        Some(image) => match convert_image(
            plans,
            doubles,
            change.schema.as_str(),
            change.table.as_str(),
            image,
        ) {
            Ok(converted) => Some(converted),
            Err(failure) => {
                return Err(failure);
            },
        },
        None => None,
    };
    let after = match change.after {
        Some(image) => match convert_image(
            plans,
            doubles,
            change.schema.as_str(),
            change.table.as_str(),
            image,
        ) {
            Ok(converted) => Some(converted),
            Err(failure) => {
                return Err(failure);
            },
        },
        None => None,
    };
    Ok(
        RowChange {
            database: change.database,
            operation: change.operation,
            schema: change.schema,
            table: change.table,
            source_cursor: change.source_cursor,
            source_timestamp: change.source_timestamp,
            schema_basis: change.schema_basis,
            before,
            after,
        },
    )
}

/// Apply the exact saved plans to a complete source transaction before a Sink
/// renders SQL. The function returns a new transaction so the capture event and
/// the persisted plan remain immutable and every retry starts from the same
/// source values. The texts of the doubles in JSON column values are given.
pub fn convert_transaction_with_plans(
    transaction: ChangeTransaction,
    plans: &Vec<ColumnConversionPlan>,
    doubles: &Vec<DoubleText>,
) -> (result: Result<ChangeTransaction, TargetCapabilityFailure>)
    requires
        forall|i: int|
            #![trigger transaction.changes@[i]]
            0 <= i < transaction.changes@.len() ==> change_fits(plans@, transaction.changes@[i]),
    ensures
        match result {
            Ok(converted) => {
                &&& changes_refusal(plans@, doubles@, transaction.changes@, 0) is None
                &&& converted == (ChangeTransaction { changes: converted.changes, ..transaction })
                &&& converted.changes@.len() == transaction.changes@.len()
                &&& forall|i: int|
                    #![trigger converted.changes@[i]]
                    0 <= i < converted.changes@.len() ==> change_converted(
                        plans@,
                        doubles@,
                        transaction.changes@[i],
                        converted.changes@[i],
                    )
            },
            Err(failure) => changes_refusal(plans@, doubles@, transaction.changes@, 0) matches Some(
                (plan, (code, message)),
            ) && is_plan_failure(failure, plan, code, message),
        },
{
    let ghost all = transaction.changes@;
    let mut changes: Vec<RowChange> = Vec::new();
    for change in iter: transaction.changes
        invariant
            iter.seq() == all,
            forall|i: int|
                #![trigger all[i]]
                0 <= i < all.len() ==> change_fits(plans@, all[i]),
            changes@.len() == iter.index(),
            all == transaction.changes@,
            changes_refusal(plans@, doubles@, all, 0) == changes_refusal(
                plans@,
                doubles@,
                all,
                iter.index() as int,
            ),
            forall|k: int|
                #![trigger changes@[k]]
                0 <= k < changes@.len() ==> change_converted(plans@, doubles@, all[k], changes@[k]),
    {
        assert(change == all[iter.index() as int]);
        match convert_change(plans, doubles, change) {
            Ok(converted) => changes.push(converted),
            Err(failure) => {
                return Err(failure);
            },
        }
    }
    Ok(
        ChangeTransaction {
            source: transaction.source,
            id: transaction.id,
            begin_cursor: transaction.begin_cursor,
            commit_cursor: transaction.commit_cursor,
            changes,
        },
    )
}

} // verus!
