//! Structured values against a plan.
use crate::change_event::compatibility::plan::ColumnConversionPlan;
use crate::change_event::compatibility::values::refusal::{
    plan_parameter, plan_value, refusal_of, refuse, Refusal, RefusalText,
};
use crate::change_event::model::{LogicalValue, MapEntry, StructuredField};
use crate::change_event::validate::{
    entry_before, field_before, identifier, is_entry_before, is_field_before, is_identifier,
};
use crate::text::same;
use vstd::prelude::*;

verus! {

/// The first of two messages.
pub open spec fn first_message(first: Option<Seq<char>>, second: Option<Seq<char>>) -> Option<
    Seq<char>,
> {
    match first {
        Some(message) => Some(message),
        None => second,
    }
}

/// What is wrong with the structure of a value that stands `depth` levels deep.
pub open spec fn structure_fault(value: LogicalValue, depth: int) -> Option<Seq<char>>
    decreases 102 - depth, 0int,
{
    if depth > 100 {
        Some("recursive value exceeds the maximum structure depth"@)
    } else {
        match value {
            LogicalValue::Array { elements } => list_fault(elements@, 0, depth + 1),
            LogicalValue::ArrayWithMetadata { elements, dimensions, lower_bounds } => if dimensions
                == 0 || dimensions as int != lower_bounds@.len() {
                Some("array dimensions and lower bounds do not agree"@)
            } else {
                list_fault(elements@, 0, depth + 1)
            },
            LogicalValue::Struct { fields } => fields_fault(fields@, 0, depth + 1),
            LogicalValue::MapValue { entries } => entries_fault(entries@, 0, depth + 1),
            LogicalValue::Range { empty, lower, upper, .. } => if empty && (lower is Some
                || upper is Some) {
                Some("empty ranges cannot contain bounds"@)
            } else {
                first_message(
                    match lower {
                        Some(bound) => structure_fault(*bound, depth + 1),
                        None => None,
                    },
                    match upper {
                        Some(bound) => structure_fault(*bound, depth + 1),
                        None => None,
                    },
                )
            },
            LogicalValue::MultiRange { ranges } => multirange_fault(ranges@, 0, depth + 1),
            LogicalValue::Domain { value } => structure_fault(*value, depth + 1),
            LogicalValue::Raw { carrier } => match carrier.fault() {
                Some(_) => Some("raw value carrier lacks stable source evidence"@),
                None => None,
            },
            _ => None,
        }
    }
}

/// What is wrong with the elements from `from` on.
pub open spec fn list_fault(elements: Seq<LogicalValue>, from: int, depth: int) -> Option<Seq<char>>
    decreases 102 - depth, 1 + elements.len() - from,
{
    if from < 0 || from >= elements.len() || depth > 101 {
        None
    } else {
        first_message(structure_fault(elements[from], depth), list_fault(elements, from + 1, depth))
    }
}

/// What is wrong with the ranges from `from` on.
pub open spec fn multirange_fault(ranges: Seq<LogicalValue>, from: int, depth: int) -> Option<
    Seq<char>,
>
    decreases 102 - depth, 1 + ranges.len() - from,
{
    if from < 0 || from >= ranges.len() || depth > 101 {
        None
    } else if !(ranges[from] is Range) {
        Some("multirange entries must be ranges"@)
    } else {
        first_message(
            structure_fault(ranges[from], depth),
            multirange_fault(ranges, from + 1, depth),
        )
    }
}

/// What is wrong with the fields from `from` on.
pub open spec fn fields_fault(fields: Seq<StructuredField>, from: int, depth: int) -> Option<
    Seq<char>,
>
    decreases 102 - depth, 1 + fields.len() - from,
{
    if from < 0 || from >= fields.len() || depth > 101 {
        None
    } else if !identifier(fields[from].name@) || field_before(fields, from, fields[from].name@) {
        Some("struct field names must be unique and contain no NUL"@)
    } else {
        first_message(
            structure_fault(fields[from].value, depth),
            fields_fault(fields, from + 1, depth),
        )
    }
}

/// What is wrong with the entries from `from` on.
pub open spec fn entries_fault(entries: Seq<MapEntry>, from: int, depth: int) -> Option<Seq<char>>
    decreases 102 - depth, 1 + entries.len() - from,
{
    if from < 0 || from >= entries.len() || depth > 101 {
        None
    } else if entry_before(entries, from, entries[from].key) {
        Some("map keys must be unique"@)
    } else {
        first_message(
            structure_fault(entries[from].key, depth),
            first_message(
                structure_fault(entries[from].value, depth),
                entries_fault(entries, from + 1, depth),
            ),
        )
    }
}

spec fn told(result: Result<(), &'static str>) -> Option<Seq<char>> {
    match result {
        Ok(_) => None,
        Err(message) => Some(message@),
    }
}

fn check_list(elements: &Vec<LogicalValue>, depth: usize) -> (result: Result<(), &'static str>)
    requires
        1 <= depth <= 101,
    ensures
        told(result) == list_fault(elements@, 0, depth as int),
    decreases 102 - depth, 1int,
{
    let mut i: usize = 0;
    while i < elements.len()
        invariant
            i <= elements@.len(),
            1 <= depth <= 101,
            list_fault(elements@, 0, depth as int) == list_fault(
                elements@,
                i as int,
                depth as int,
            ),
        decreases elements@.len() - i,
    {
        match validate_recursive_value(&elements[i], depth) {
            Ok(_) => {},
            Err(message) => {
                return Err(message);
            },
        }
        i += 1;
    }
    Ok(())
}

fn check_ranges(ranges: &Vec<LogicalValue>, depth: usize) -> (result: Result<(), &'static str>)
    requires
        1 <= depth <= 101,
    ensures
        told(result) == multirange_fault(ranges@, 0, depth as int),
    decreases 102 - depth, 1int,
{
    let mut i: usize = 0;
    while i < ranges.len()
        invariant
            i <= ranges@.len(),
            1 <= depth <= 101,
            multirange_fault(ranges@, 0, depth as int) == multirange_fault(
                ranges@,
                i as int,
                depth as int,
            ),
        decreases ranges@.len() - i,
    {
        if !matches!(ranges[i], LogicalValue::Range { .. }) {
            return Err("multirange entries must be ranges");
        }
        match validate_recursive_value(&ranges[i], depth) {
            Ok(_) => {},
            Err(message) => {
                return Err(message);
            },
        }
        i += 1;
    }
    Ok(())
}

fn check_fields(fields: &Vec<StructuredField>, depth: usize) -> (result: Result<(), &'static str>)
    requires
        1 <= depth <= 101,
    ensures
        told(result) == fields_fault(fields@, 0, depth as int),
    decreases 102 - depth, 1int,
{
    let mut i: usize = 0;
    while i < fields.len()
        invariant
            i <= fields@.len(),
            1 <= depth <= 101,
            fields_fault(fields@, 0, depth as int) == fields_fault(
                fields@,
                i as int,
                depth as int,
            ),
        decreases fields@.len() - i,
    {
        if !is_identifier(fields[i].name.as_str()) || is_field_before(
            fields,
            i,
            fields[i].name.as_str(),
        ) {
            return Err("struct field names must be unique and contain no NUL");
        }
        match validate_recursive_value(&fields[i].value, depth) {
            Ok(_) => {},
            Err(message) => {
                return Err(message);
            },
        }
        i += 1;
    }
    Ok(())
}

fn check_entries(entries: &Vec<MapEntry>, depth: usize) -> (result: Result<(), &'static str>)
    requires
        1 <= depth <= 101,
    ensures
        told(result) == entries_fault(entries@, 0, depth as int),
    decreases 102 - depth, 1int,
{
    let mut i: usize = 0;
    while i < entries.len()
        invariant
            i <= entries@.len(),
            1 <= depth <= 101,
            entries_fault(entries@, 0, depth as int) == entries_fault(
                entries@,
                i as int,
                depth as int,
            ),
        decreases entries@.len() - i,
    {
        if is_entry_before(entries, i) {
            return Err("map keys must be unique");
        }
        match validate_recursive_value(&entries[i].key, depth) {
            Ok(_) => {},
            Err(message) => {
                return Err(message);
            },
        }
        match validate_recursive_value(&entries[i].value, depth) {
            Ok(_) => {},
            Err(message) => {
                return Err(message);
            },
        }
        i += 1;
    }
    Ok(())
}

fn validate_recursive_value(value: &LogicalValue, depth: usize) -> (result: Result<
    (),
    &'static str,
>)
    requires
        depth <= 101,
    ensures
        told(result) == structure_fault(*value, depth as int),
    decreases 102 - depth, 0int,
{
    if depth > 100 {
        return Err("recursive value exceeds the maximum structure depth");
    }
    match value {
        LogicalValue::Array { elements } => check_list(elements, depth + 1),
        LogicalValue::ArrayWithMetadata { elements, dimensions, lower_bounds } => {
            if *dimensions == 0 || *dimensions as usize != lower_bounds.len() {
                return Err("array dimensions and lower bounds do not agree");
            }
            check_list(elements, depth + 1)
        },
        LogicalValue::Struct { fields } => check_fields(fields, depth + 1),
        LogicalValue::MapValue { entries } => check_entries(entries, depth + 1),
        LogicalValue::Range { empty, lower, upper, .. } => {
            if *empty && (lower.is_some() || upper.is_some()) {
                return Err("empty ranges cannot contain bounds");
            }
            if let Some(bound) = lower {
                match validate_recursive_value(bound, depth + 1) {
                    Ok(_) => {},
                    Err(message) => {
                        return Err(message);
                    },
                }
            }
            if let Some(bound) = upper {
                return validate_recursive_value(bound, depth + 1);
            }
            Ok(())
        },
        LogicalValue::MultiRange { ranges } => check_ranges(ranges, depth + 1),
        LogicalValue::Domain { value } => validate_recursive_value(value, depth + 1),
        LogicalValue::Raw { carrier } => match carrier.validate() {
            Ok(_) => Ok(()),
            Err(_) => Err("raw value carrier lacks stable source evidence"),
        },
        _ => Ok(()),
    }
}

/// The shape of a structured value.
pub open spec fn shape_of(value: LogicalValue) -> Seq<char> {
    match value {
        LogicalValue::Array { .. } => "array"@,
        LogicalValue::ArrayWithMetadata { .. } => "array"@,
        LogicalValue::Struct { .. } => "struct"@,
        LogicalValue::MapValue { .. } => "map"@,
        LogicalValue::Range { .. } => "range"@,
        LogicalValue::MultiRange { .. } => "multi_range"@,
        _ => "other"@,
    }
}

/// Why a plan refuses a value as a structured one.
pub open spec fn recursive_refusal(plan: ColumnConversionPlan, value: LogicalValue) -> Option<
    RefusalText,
> {
    match plan_value(plan, "recursive_kind"@) {
        None => Some(
            (
                "target_capability.recursive_structure_rule_missing"@,
                "recursive values require an explicit structure mapping rule"@,
            ),
        ),
        Some(expected) => if shape_of(value) != expected {
            Some(
                (
                    "target_capability.recursive_structure_mismatch"@,
                    "the recursive value shape differs from the saved structure mapping"@,
                ),
            )
        } else {
            match structure_fault(value, 0) {
                Some(message) => Some(
                    ("target_capability.recursive_structure_invalid"@, message),
                ),
                None => None,
            }
        },
    }
}

pub(crate) fn validate_recursive_plan_value(
    plan: &ColumnConversionPlan,
    value: &LogicalValue,
) -> (result: Result<(), Refusal>)
    ensures
        refusal_of(result) == recursive_refusal(*plan, *value),
{
    let expected = match plan_parameter(plan, "recursive_kind") {
        Some(expected) => expected,
        None => {
            return Err(
                refuse(
                    "target_capability.recursive_structure_rule_missing",
                    "recursive values require an explicit structure mapping rule",
                ),
            );
        },
    };
    let actual = match value {
        LogicalValue::Array { .. } => "array",
        LogicalValue::ArrayWithMetadata { .. } => "array",
        LogicalValue::Struct { .. } => "struct",
        LogicalValue::MapValue { .. } => "map",
        LogicalValue::Range { .. } => "range",
        LogicalValue::MultiRange { .. } => "multi_range",
        _ => "other",
    };
    if !same(actual, expected) {
        return Err(
            refuse(
                "target_capability.recursive_structure_mismatch",
                "the recursive value shape differs from the saved structure mapping",
            ),
        );
    }
    match validate_recursive_value(value, 0) {
        Ok(_) => Ok(()),
        Err(message) => Err(
            refuse("target_capability.recursive_structure_invalid", message),
        ),
    }
}

} // verus!
