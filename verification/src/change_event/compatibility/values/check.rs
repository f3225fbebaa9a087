//! One value, or one datum, against the plan that converts it.
use crate::change_event::compatibility::capability_failure::{
    sanitized, TargetCapabilityFailure,
};
use crate::change_event::compatibility::plan::ColumnConversionPlan;
use crate::change_event::compatibility::values::bytes::{
    binary_refusal, bit_string_refusal, spatial_refusal, validate_binary_plan_value,
    validate_bit_string_plan_value, validate_spatial_plan_value,
};
use crate::change_event::compatibility::values::json_text::{
    json_refusal, validate_json_plan_value,
};
use crate::change_event::compatibility::values::members::{
    enum_set_refusal, validate_enum_set_plan_value,
};
use crate::change_event::compatibility::values::numeric::{
    decimal_refusal, float_refusal, integer_refusal, validate_decimal_plan_value,
    validate_float_plan_value, validate_integer_plan_value,
};
use crate::change_event::compatibility::values::recursive::{
    recursive_refusal, validate_recursive_plan_value,
};
use crate::change_event::compatibility::values::refusal::{
    holds, refusal_of, refuse, Refusal, RefusalText,
};
use crate::change_event::compatibility::values::temporal::{
    offset_fits, reads_zone, temporal_refusal, validate_temporal_plan_value,
};
use crate::change_event::compatibility::values::text::{text_refusal, validate_text_plan_value};
use crate::change_event::failure::FailurePhase;
use crate::change_event::model::{Datum, LogicalValue};
use crate::json::{duplicate_optional, optional_doc, Contract};
use crate::text::{concat, debug_spelling, debug_text, same};
use vstd::prelude::*;

verus! {

pub open spec fn same_text(field: Option<String>, text: Seq<char>) -> bool {
    field matches Some(value) && value@ == text
}

/// The failure says that a plan refused something, and names the plan.
pub open spec fn is_plan_failure(
    failure: TargetCapabilityFailure,
    plan: ColumnConversionPlan,
    code: Seq<char>,
    message: Seq<char>,
) -> bool {
    &&& failure.class is TargetCapability
    &&& failure.code@ == code
    &&& same_text(failure.route_id, plan.route_id@)
    &&& failure.source is None
    &&& failure.sink is None
    &&& failure.source_transaction_id is None
    &&& failure.event_identity is None
    &&& failure.source_table_lineage is None
    &&& same_text(failure.source_field_lineage, plan.source_field.lineage_id@)
    &&& same_text(failure.target_field_lineage, plan.target_field.lineage_id@)
    &&& same_text(failure.source_definition_fingerprint, plan.source_field.schema_fingerprint@)
    &&& same_text(failure.target_definition_fingerprint, plan.target_field.schema_fingerprint@)
    &&& failure.target_schema_fingerprint is None
    &&& optional_doc(failure.target_server_build) == optional_doc(plan.target_build)
    &&& same_text(failure.capability_identity, plan.capability_code@)
    &&& optional_doc(failure.conversion_rule) == Some(plan.rule.doc())
    &&& same_text(failure.plan_digest, plan.plan_digest@)
    &&& failure.qualification == Some(plan.qualification)
    &&& failure.risk_code == plan.risk_code
    &&& failure.phase is Conversion
    &&& failure.retry is NotRetryable
    &&& failure.vendor_code is None
    &&& same_text(failure.cause, sanitized(message))
}

pub(crate) fn plan_failure(
    plan: &ColumnConversionPlan,
    code: &str,
    message: &str,
) -> (result: TargetCapabilityFailure)
    ensures
        is_plan_failure(result, *plan, code@, message@),
{
    let mut failure = TargetCapabilityFailure::new(message).with_code(code).with_route(
        plan.route_id.as_str(),
    ).with_plan_digest(plan.plan_digest.as_str());
    failure.source_field_lineage = Some(plan.source_field.lineage_id.clone());
    failure.target_field_lineage = Some(plan.target_field.lineage_id.clone());
    failure.source_definition_fingerprint = Some(plan.source_field.schema_fingerprint.clone());
    failure.target_definition_fingerprint = Some(plan.target_field.schema_fingerprint.clone());
    failure.target_server_build = duplicate_optional(&plan.target_build);
    failure.capability_identity = Some(plan.capability_code.clone());
    failure.conversion_rule = Some(plan.rule.duplicate());
    failure.qualification = Some(plan.qualification);
    failure.risk_code = plan.risk_code.clone();
    failure.phase = FailurePhase::Conversion;
    failure
}

/// How a plan says that a value is checked.
pub enum Checking {
    Integer,
    Decimal,
    Float,
    Binary,
    BitString,
    Spatial,
    Recursive,
    Text,
    Json,
    Members,
    Temporal,
    Structured,
    Anything,
    Refused(Seq<char>, Seq<char>),
}

/// How a plan without a range and without a conversion checks a value.
pub open spec fn strategy_checking(strategy: Option<Seq<char>>) -> Checking {
    match strategy {
        None => Checking::Anything,
        Some(name) => if name == "structured_json"@ {
            Checking::Structured
        } else if name == "enum_label"@ || name == "set_members"@ {
            Checking::Members
        } else if name == "binary"@ {
            Checking::Binary
        } else if name == "bit_string"@ {
            Checking::BitString
        } else if name == "spatial"@ {
            Checking::Spatial
        } else if name == "recursive"@ {
            Checking::Recursive
        } else {
            Checking::Refused(
                "target_capability.unknown_value_strategy"@,
                "unknown value strategy "@ + debug_text(name),
            )
        },
    }
}

/// How a plan without a range checks a value.
pub open spec fn conversion_checking(kind: Option<Seq<char>>, strategy: Option<Seq<char>>) -> Checking {
    match kind {
        None => strategy_checking(strategy),
        Some(name) => if name == "binary"@ {
            Checking::Binary
        } else if name == "bit_string"@ {
            Checking::BitString
        } else if name == "spatial"@ {
            Checking::Spatial
        } else if name == "recursive"@ {
            Checking::Recursive
        } else if name == "text"@ {
            Checking::Text
        } else if name == "json"@ {
            Checking::Json
        } else if name == "enum"@ || name == "set"@ {
            Checking::Members
        } else if name == "temporal"@ {
            Checking::Temporal
        } else {
            Checking::Refused(
                "target_capability.unknown_conversion_rule"@,
                "unknown explicit conversion rule "@ + debug_text(name),
            )
        },
    }
}

/// How a plan checks a value.
pub open spec fn checking(plan: ColumnConversionPlan) -> Checking {
    let p = plan.target.parameters;
    match p.value_of("range_kind"@) {
        None => conversion_checking(p.value_of("conversion_kind"@), p.value_of("value_strategy"@)),
        Some(range) => if p.value_of("range_check"@) != Some("strict"@) {
            Checking::Refused(
                "target_capability.range_check_missing"@,
                "the saved plan does not require a strict range check"@,
            )
        } else if (range == "decimal"@ || range == "float"@) && p.value_of("rounding_mode"@)
            != Some("reject"@) {
            Checking::Refused(
                "target_capability.rounding_policy_missing"@,
                "the saved plan does not reject implicit rounding"@,
            )
        } else if range == "integer"@ {
            Checking::Integer
        } else if range == "decimal"@ {
            Checking::Decimal
        } else if range == "float"@ {
            Checking::Float
        } else {
            Checking::Refused(
                "target_capability.unknown_range_rule"@,
                "unknown range rule "@ + debug_text(range),
            )
        },
    }
}

/// Why a plan refuses a value.
pub open spec fn value_refusal(plan: ColumnConversionPlan, value: LogicalValue) -> Option<
    RefusalText,
> {
    match checking(plan) {
        Checking::Integer => integer_refusal(plan, value),
        Checking::Decimal => decimal_refusal(plan, value),
        Checking::Float => float_refusal(plan, value),
        Checking::Binary => binary_refusal(plan, value),
        Checking::BitString => bit_string_refusal(plan, value),
        Checking::Spatial => spatial_refusal(plan, value),
        Checking::Recursive => recursive_refusal(plan, value),
        Checking::Text => text_refusal(plan, value),
        Checking::Json => json_refusal(plan, value),
        Checking::Members => enum_set_refusal(plan, value),
        Checking::Temporal => temporal_refusal(plan, value),
        Checking::Structured => if value is Json {
            None
        } else {
            Some(
                (
                    "target_capability.json_type_mismatch"@,
                    "the structured JSON plan received a non-JSON value"@,
                ),
            )
        },
        Checking::Anything => None,
        Checking::Refused(code, message) => Some((code, message)),
    }
}

/// The check of a value computes with numbers that fit their machine words.
pub open spec fn check_fits(plan: ColumnConversionPlan, value: LogicalValue) -> bool {
    checking(plan) is Temporal && reads_zone(plan, value) ==> offset_fits(plan)
}

fn refuse_unknown(code: &'static str, what: &str, name: &str) -> (result: Refusal)
    ensures
        result.code@ == code@,
        result.message@ == what@ + debug_text(name@),
{
    let spelling = debug_spelling(name);
    let message = concat(what, spelling.as_str());
    refuse(code, message.as_str())
}

fn check_strategy(plan: &ColumnConversionPlan, value: &LogicalValue) -> (result: Result<
    (),
    Refusal,
>)
    requires
        checking(*plan) == strategy_checking(plan.target.parameters.value_of("value_strategy"@)),
    ensures
        refusal_of(result) == value_refusal(*plan, *value),
{
    let name = match plan.target.parameters.get("value_strategy") {
        Some(name) => name,
        None => {
            return Ok(());
        },
    };
    if same(name, "structured_json") {
        match value {
            LogicalValue::Json { .. } => Ok(()),
            _ => Err(
                refuse(
                    "target_capability.json_type_mismatch",
                    "the structured JSON plan received a non-JSON value",
                ),
            ),
        }
    } else if same(name, "enum_label") || same(name, "set_members") {
        validate_enum_set_plan_value(plan, value)
    } else if same(name, "binary") {
        validate_binary_plan_value(plan, value)
    } else if same(name, "bit_string") {
        validate_bit_string_plan_value(plan, value)
    } else if same(name, "spatial") {
        validate_spatial_plan_value(plan, value)
    } else if same(name, "recursive") {
        validate_recursive_plan_value(plan, value)
    } else {
        Err(
            refuse_unknown(
                "target_capability.unknown_value_strategy",
                "unknown value strategy ",
                name,
            ),
        )
    }
}

fn check_conversion(plan: &ColumnConversionPlan, value: &LogicalValue) -> (result: Result<
    (),
    Refusal,
>)
    requires
        plan.target.parameters.value_of("range_kind"@) is None,
        check_fits(*plan, *value),
    ensures
        refusal_of(result) == value_refusal(*plan, *value),
{
    let kind = match plan.target.parameters.get("conversion_kind") {
        Some(kind) => kind,
        None => {
            return check_strategy(plan, value);
        },
    };
    if same(kind, "binary") {
        validate_binary_plan_value(plan, value)
    } else if same(kind, "bit_string") {
        validate_bit_string_plan_value(plan, value)
    } else if same(kind, "spatial") {
        validate_spatial_plan_value(plan, value)
    } else if same(kind, "recursive") {
        validate_recursive_plan_value(plan, value)
    } else if same(kind, "text") {
        validate_text_plan_value(plan, value)
    } else if same(kind, "json") {
        validate_json_plan_value(plan, value)
    } else if same(kind, "enum") || same(kind, "set") {
        validate_enum_set_plan_value(plan, value)
    } else if same(kind, "temporal") {
        validate_temporal_plan_value(plan, value)
    } else {
        Err(
            refuse_unknown(
                "target_capability.unknown_conversion_rule",
                "unknown explicit conversion rule ",
                kind,
            ),
        )
    }
}

pub(crate) fn check_value(plan: &ColumnConversionPlan, value: &LogicalValue) -> (result: Result<
    (),
    Refusal,
>)
    requires
        check_fits(*plan, *value),
    ensures
        refusal_of(result) == value_refusal(*plan, *value),
{
    let range = match plan.target.parameters.get("range_kind") {
        Some(range) => range,
        None => {
            return check_conversion(plan, value);
        },
    };
    if !holds(&plan.target.parameters, "range_check", "strict") {
        return Err(
            refuse(
                "target_capability.range_check_missing",
                "the saved plan does not require a strict range check",
            ),
        );
    }
    if (same(range, "decimal") || same(range, "float")) && !holds(
        &plan.target.parameters,
        "rounding_mode",
        "reject",
    ) {
        return Err(
            refuse(
                "target_capability.rounding_policy_missing",
                "the saved plan does not reject implicit rounding",
            ),
        );
    }
    if same(range, "integer") {
        validate_integer_plan_value(plan, value)
    } else if same(range, "decimal") {
        validate_decimal_plan_value(plan, value)
    } else if same(range, "float") {
        validate_float_plan_value(plan, value)
    } else {
        Err(
            refuse_unknown(
                "target_capability.unknown_range_rule",
                "unknown range rule ",
                range,
            ),
        )
    }
}

/// Validate one captured value against the fixed domain described by a
/// `ColumnConversionPlan`.
///
/// The planner is deliberately separate from this check: planning chooses a
/// target representation once, while this function applies that decision to
/// every row without widening the domain or consulting the observed value for
/// a different plan. Decimal values are accepted only when reducing their
/// scale is exact; implicit rounding is never performed.
pub fn validate_value_against_plan(
    plan: &ColumnConversionPlan,
    value: &LogicalValue,
) -> (result: Result<(), TargetCapabilityFailure>)
    requires
        check_fits(*plan, *value),
    ensures
        match result {
            Ok(_) => value_refusal(*plan, *value) is None,
            Err(failure) => value_refusal(*plan, *value) matches Some((code, message))
                && is_plan_failure(failure, *plan, code, message),
        },
{
    match check_value(plan, value) {
        Ok(_) => Ok(()),
        Err(refusal) => Err(plan_failure(plan, refusal.code, refusal.message.as_str())),
    }
}

/// Why a plan refuses a datum. An unchanged value is a control instruction for
/// an UPDATE and causes no conversion; an unavailable one is never writable.
pub open spec fn datum_refusal(plan: ColumnConversionPlan, datum: Datum) -> Option<RefusalText> {
    match datum {
        Datum::Value(value) => value_refusal(plan, value),
        Datum::Null => None,
        Datum::Unchanged => None,
        Datum::Unavailable => Some(
            (
                "target_capability.unavailable_value"@,
                "an unavailable source value cannot be written by a conversion plan"@,
            ),
        ),
    }
}

/// Validate a presence state against the same fixed plan.
pub fn validate_datum_against_plan(plan: &ColumnConversionPlan, datum: &Datum) -> (result: Result<
    (),
    TargetCapabilityFailure,
>)
    requires
        datum matches Datum::Value(value) ==> check_fits(*plan, *value),
    ensures
        match result {
            Ok(_) => datum_refusal(*plan, *datum) is None,
            Err(failure) => datum_refusal(*plan, *datum) matches Some((code, message))
                && is_plan_failure(failure, *plan, code, message),
        },
{
    match datum {
        Datum::Value(value) => validate_value_against_plan(plan, value),
        Datum::Null => Ok(()),
        Datum::Unchanged => Ok(()),
        Datum::Unavailable => Err(
            plan_failure(
                plan,
                "target_capability.unavailable_value",
                "an unavailable source value cannot be written by a conversion plan",
            ),
        ),
    }
}

} // verus!
