//! Why a plan refuses a value, and how a plan's parameters are read.
use crate::change_event::compatibility::plan::ColumnConversionPlan;
use crate::parameters::Parameters;
use crate::number::parse_unsigned;
use crate::text::same;
use vstd::prelude::*;

verus! {

/// A value that a plan does not take.
pub(crate) struct Refusal {
    pub code: &'static str,
    pub message: String,
}

/// The code and the message of a refusal.
pub type RefusalText = (Seq<char>, Seq<char>);

/// The refusal in a result.
pub(crate) open spec fn refusal_of<T>(result: Result<T, Refusal>) -> Option<RefusalText> {
    match result {
        Ok(_) => None,
        Err(refusal) => Some((refusal.code@, refusal.message@)),
    }
}

pub(crate) fn refuse(code: &'static str, message: &str) -> (result: Refusal)
    ensures
        result.code@ == code@,
        result.message@ == message@,
{
    Refusal { code, message: message.to_owned() }
}

/// A parameter of a plan: the chosen one, and that of the target otherwise.
pub open spec fn plan_value(plan: ColumnConversionPlan, name: Seq<char>) -> Option<Seq<char>> {
    match plan.parameters.value_of(name) {
        Some(value) => Some(value),
        None => plan.target.parameters.value_of(name),
    }
}

/// The text in an optional text.
pub open spec fn view_of(value: Option<&str>) -> Option<Seq<char>> {
    match value {
        Some(text) => Some(text@),
        None => None,
    }
}

pub(crate) fn plan_parameter<'a>(plan: &'a ColumnConversionPlan, name: &str) -> (result: Option<
    &'a str,
>)
    ensures
        view_of(result) == plan_value(*plan, name@),
{
    match plan.parameters.get(name) {
        Some(value) => Some(value),
        None => plan.target.parameters.get(name),
    }
}

/// Whether a parameter has a value.
pub(crate) fn holds(parameters: &Parameters, name: &str, wanted: &str) -> (result: bool)
    ensures
        result == (parameters.value_of(name@) == Some(wanted@)),
{
    match parameters.get(name) {
        Some(value) => same(value, wanted),
        None => false,
    }
}

/// Whether a parameter of a plan has a value.
pub(crate) fn plan_holds(plan: &ColumnConversionPlan, name: &str, wanted: &str) -> (result: bool)
    ensures
        result == (plan_value(*plan, name@) == Some(wanted@)),
{
    match plan_parameter(plan, name) {
        Some(value) => same(value, wanted),
        None => false,
    }
}

/// The truth value that a parameter spells.
pub open spec fn flag(value: Option<Seq<char>>) -> Option<bool> {
    if value == Some("true"@) {
        Some(true)
    } else if value == Some("false"@) {
        Some(false)
    } else {
        None
    }
}

pub(crate) fn read_flag(parameters: &Parameters, name: &str) -> (result: Option<bool>)
    ensures
        result == flag(parameters.value_of(name@)),
{
    if holds(parameters, name, "true") {
        Some(true)
    } else if holds(parameters, name, "false") {
        Some(false)
    } else {
        None
    }
}

/// The number that a parameter spells, where it is at most `max`.
pub open spec fn unsigned(value: Option<Seq<char>>, max: nat) -> Option<nat> {
    match value {
        Some(text) => parse_unsigned(text, max),
        None => None,
    }
}

} // verus!
