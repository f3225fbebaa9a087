//! What a planned representation promises of the values that it takes.
use crate::change_event::compatibility::logical_type::LogicalType;
use crate::change_event::compatibility::plan::ColumnConversionPlan;
use crate::change_event::compatibility::planner::representation::{
    decimal_entries, either_or, flag_text, float_entries, integer_entries, planned_entries,
    planned_precision, temporal_entries, Entries,
};
use crate::change_event::compatibility::values::numeric::{
    decimal_refusal, double_finite, float_refusal, highest, integer_refusal,
    law_exactly_the_fitting_decimals_are_taken, law_exactly_the_singles_fit_a_single, lemma_shape,
    lowest, same_magnitude, without_sign,
};
use crate::change_event::model::LogicalValue;
use crate::number::{
    decimal, decimal_signed, digits_value, law_decimal_round_trip, law_signed_decimal_round_trip,
    parse_hex, parse_signed,
};
use crate::parameters::{law_lookup_after_setting, lookup, with_parameter};
use crate::text::all_digits;
use vstd::arithmetic::power::pow;
use vstd::arithmetic::power2::pow2;
use vstd::prelude::*;
use vstd::utf8::encode_utf8;

verus! {

proof fn lemma_set(entries: Entries, key: Seq<char>, value: Seq<char>)
    ensures
        forall|other: Seq<char>| #[trigger]
            lookup(with_parameter(entries, key, value), other) == if other == key {
                Some(value)
            } else {
                lookup(entries, other)
            },
{
    assert forall|other: Seq<char>| #[trigger]
        lookup(with_parameter(entries, key, value), other) == if other == key {
            Some(value)
        } else {
            lookup(entries, other)
        } by {
        law_lookup_after_setting(entries, key, value, other);
    }
}

/// The number has a place among the integers of a shape: those of its bits, in
/// two's complement where it is signed.
pub open spec fn in_shape(number: int, signed: bool, bits: u8) -> bool {
    if signed {
        -pow2((bits - 1) as nat) <= number < pow2((bits - 1) as nat)
    } else {
        0 <= number < pow2(bits as nat)
    }
}

pub open spec fn whole_bytes(bits: u8) -> bool {
    bits == 8 || bits == 16 || bits == 24 || bits == 32 || bits == 64
}

/// A plan from one integer field to another takes exactly the integers that have
/// the shape of the source field and a place in the target field.
pub proof fn law_a_planned_integer_fits_its_field(
    plan: ColumnConversionPlan,
    native: Seq<char>,
    own: Entries,
    chosen: Entries,
    source: (bool, u8),
    target: (bool, u8),
    value: LogicalValue,
)
    requires
        lookup(own, "range_kind"@) is Some,
        whole_bytes(source.1),
        whole_bytes(target.1),
        plan.target.parameters.entries() == planned_entries(
            LogicalType::Integer { signed: source.0, bits: source.1 },
            LogicalType::Integer { signed: target.0, bits: target.1 },
            native,
            own,
            chosen,
        ),
    ensures
        integer_refusal(plan, value) is None <==> (value matches LogicalValue::Integer {
            signed,
            bits,
            value: text,
        } && {
            &&& signed == source.0 && bits == source.1
            &&& !signed && text@.len() > 0 ==> text@[0] != '-'
            &&& parse_signed(text@, i128::MIN as int, i128::MAX as int) matches Some(number)
            &&& in_shape(number, target.0, target.1)
        }),
{
    lemma_integer_lookups(own, source, target);
    law_signed_decimal_round_trip(
        lowest(target.0, target.1),
        i128::MIN as int,
        i128::MAX as int,
    );
    law_signed_decimal_round_trip(
        highest(target.0, target.1),
        i128::MIN as int,
        i128::MAX as int,
    );
    lemma_shape(target.0, target.1);
    law_decimal_round_trip(source.1 as nat, 255);
    law_decimal_round_trip(target.1 as nat, 255);
    reveal_strlit("true");
    reveal_strlit("false");
    assert("true"@.len() == 4 && "false"@.len() == 5);
}

proof fn lemma_integer_lookups(own: Entries, source: (bool, u8), target: (bool, u8))
    requires
        whole_bytes(target.1),
    ensures
        ({
            let e = integer_entries(own, source.0, source.1, target.0, target.1);
            &&& lookup(e, "source_signed"@) == Some(flag_text(source.0))
            &&& lookup(e, "source_bits"@) == Some(decimal(source.1 as nat))
            &&& lookup(e, "target_signed"@) == Some(flag_text(target.0))
            &&& lookup(e, "target_bits"@) == Some(decimal(target.1 as nat))
            &&& lookup(e, "target_min"@) == Some(decimal_signed(lowest(target.0, target.1)))
            &&& lookup(e, "target_max"@) == Some(decimal_signed(highest(target.0, target.1)))
        }),
{
    reveal_strlit("source_signed");
    reveal_strlit("source_bits");
    reveal_strlit("target_signed");
    reveal_strlit("target_bits");
    reveal_strlit("range_check");
    reveal_strlit("target_min");
    reveal_strlit("target_max");
    assert("source_signed"@.len() == 13 && "source_bits"@.len() == 11 && "target_signed"@.len() == 13
        && "target_bits"@.len() == 11 && "range_check"@.len() == 11 && "target_min"@.len() == 10
        && "target_max"@.len() == 10);
    assert("source_signed"@[0] != "target_signed"@[0]);
    assert("source_bits"@[0] != "target_bits"@[0]);
    assert("source_bits"@[0] != "range_check"@[0]);
    assert("target_bits"@[0] != "range_check"@[0]);
    assert("target_min"@[8] != "target_max"@[8]);
    let e1 = with_parameter(own, "source_signed"@, flag_text(source.0));
    let e2 = with_parameter(e1, "source_bits"@, decimal(source.1 as nat));
    let e3 = with_parameter(e2, "target_signed"@, flag_text(target.0));
    let e4 = with_parameter(e3, "target_bits"@, decimal(target.1 as nat));
    let e5 = with_parameter(e4, "range_check"@, "strict"@);
    let e6 = with_parameter(e5, "target_min"@, decimal_signed(lowest(target.0, target.1)));
    lemma_set(own, "source_signed"@, flag_text(source.0));
    lemma_set(e1, "source_bits"@, decimal(source.1 as nat));
    lemma_set(e2, "target_signed"@, flag_text(target.0));
    lemma_set(e3, "target_bits"@, decimal(target.1 as nat));
    lemma_set(e4, "range_check"@, "strict"@);
    lemma_set(e5, "target_min"@, decimal_signed(lowest(target.0, target.1)));
    lemma_set(e6, "target_max"@, decimal_signed(highest(target.0, target.1)));
}

/// A plan from one decimal field to another takes exactly the decimals with the
/// scale of the source field that have a place in the target field: nothing is
/// lost behind the point, and the digits in front of it fit.
pub proof fn law_a_planned_decimal_fits_its_field(
    plan: ColumnConversionPlan,
    native: Seq<char>,
    own: Entries,
    chosen: Entries,
    source: (u16, i32),
    target: (u16, i32),
    value: LogicalValue,
)
    requires
        lookup(own, "range_kind"@) is Some,
        0 < source.0 && 0 <= source.1 <= source.0,
        0 < target.0 && 0 <= target.1 <= target.0,
        plan.target.parameters.entries() == planned_entries(
            LogicalType::Decimal { precision: source.0, scale: source.1 },
            LogicalType::Decimal { precision: target.0, scale: target.1 },
            native,
            own,
            chosen,
        ),
    ensures
        decimal_refusal(plan, value) is None <==> (value matches LogicalValue::Decimal {
            unscaled,
            scale,
        } && {
            let digits = without_sign(unscaled@);
            let number = digits_value(digits) as int;
            &&& scale == source.1
            &&& digits.len() > 0 && all_digits(digits)
            &&& (number * pow(10, target.1 as nat)) % pow(10, source.1 as nat) == 0
            &&& number < pow(10, (target.0 - target.1 + source.1) as nat)
        }),
{
    lemma_decimal_lookups(own, source, target);
    law_decimal_round_trip(source.0 as nat, usize::MAX as nat);
    law_decimal_round_trip(source.1 as nat, usize::MAX as nat);
    law_decimal_round_trip(target.0 as nat, usize::MAX as nat);
    law_decimal_round_trip(target.1 as nat, usize::MAX as nat);
    law_decimal_round_trip((target.0 - target.1) as nat, usize::MAX as nat);
    if let LogicalValue::Decimal { unscaled, .. } = value {
        let digits = without_sign(unscaled@);
        if digits.len() > 0 && all_digits(digits) {
            law_exactly_the_fitting_decimals_are_taken(
                unscaled@,
                source.1 as nat,
                target.1 as nat,
                (target.0 - target.1) as nat,
            );
        }
    }
}

proof fn lemma_decimal_lookups(own: Entries, source: (u16, i32), target: (u16, i32))
    requires
        0 <= target.1 <= target.0,
    ensures
        ({
            let e = decimal_entries(own, source.0, source.1, target.0, target.1);
            &&& lookup(e, "source_precision"@) == Some(decimal(source.0 as nat))
            &&& lookup(e, "source_scale"@) == Some(decimal_signed(source.1 as int))
            &&& lookup(e, "target_precision"@) == Some(decimal(target.0 as nat))
            &&& lookup(e, "target_scale"@) == Some(decimal_signed(target.1 as int))
            &&& lookup(e, "target_integer_digits"@) == Some(
                decimal((target.0 - target.1) as nat),
            )
        }),
{
    reveal_strlit("source_precision");
    reveal_strlit("source_scale");
    reveal_strlit("target_precision");
    reveal_strlit("target_scale");
    reveal_strlit("range_check");
    reveal_strlit("rounding_mode");
    reveal_strlit("target_integer_digits");
    assert("source_precision"@.len() == 16 && "source_scale"@.len() == 12
        && "target_precision"@.len() == 16 && "target_scale"@.len() == 12 && "range_check"@.len()
        == 11 && "rounding_mode"@.len() == 13 && "target_integer_digits"@.len() == 21);
    assert("source_precision"@[0] != "target_precision"@[0]);
    assert("source_scale"@[0] != "target_scale"@[0]);
    let e1 = with_parameter(own, "source_precision"@, decimal(source.0 as nat));
    let e2 = with_parameter(e1, "source_scale"@, decimal_signed(source.1 as int));
    let e3 = with_parameter(e2, "target_precision"@, decimal(target.0 as nat));
    let e4 = with_parameter(e3, "target_scale"@, decimal_signed(target.1 as int));
    let e5 = with_parameter(e4, "range_check"@, "strict"@);
    let e6 = with_parameter(e5, "rounding_mode"@, "reject"@);
    lemma_set(own, "source_precision"@, decimal(source.0 as nat));
    lemma_set(e1, "source_scale"@, decimal_signed(source.1 as int));
    lemma_set(e2, "target_precision"@, decimal(target.0 as nat));
    lemma_set(e3, "target_scale"@, decimal_signed(target.1 as int));
    lemma_set(e4, "range_check"@, "strict"@);
    lemma_set(e5, "rounding_mode"@, "reject"@);
    lemma_set(e6, "target_integer_digits"@, decimal((target.0 - target.1) as nat));
}

/// A plan from a field of doubles to one of singles takes exactly the bit
/// patterns of finite doubles that some single has the magnitude of.
pub proof fn law_a_planned_double_fits_its_field(
    plan: ColumnConversionPlan,
    native: Seq<char>,
    own: Entries,
    chosen: Entries,
    value: LogicalValue,
)
    requires
        lookup(own, "range_kind"@) is Some,
        plan.target.parameters.entries() == planned_entries(
            LogicalType::Float { bits: 64 },
            LogicalType::Float { bits: 32 },
            native,
            own,
            chosen,
        ),
    ensures
        float_refusal(plan, value) is None <==> (value matches LogicalValue::Float {
            bits,
            ieee754_hex,
        } && {
            &&& bits == 64 && encode_utf8(ieee754_hex@).len() == 16
            &&& parse_hex(ieee754_hex@, u64::MAX as nat) matches Some(raw)
            &&& double_finite(raw as int)
            &&& exists|exponent: int, fraction: int|
                same_magnitude(raw as int, exponent, fraction)
        }),
{
    reveal_strlit("source_bits");
    reveal_strlit("target_bits");
    reveal_strlit("range_check");
    reveal_strlit("rounding_mode");
    assert("source_bits"@.len() == 11 && "target_bits"@.len() == 11 && "range_check"@.len() == 11
        && "rounding_mode"@.len() == 13);
    assert("source_bits"@[0] != "target_bits"@[0]);
    assert("source_bits"@[0] != "range_check"@[0]);
    assert("target_bits"@[0] != "range_check"@[0]);
    let e1 = with_parameter(own, "source_bits"@, decimal(64));
    let e2 = with_parameter(e1, "target_bits"@, decimal(32));
    let e3 = with_parameter(e2, "range_check"@, "strict"@);
    lemma_set(own, "source_bits"@, decimal(64));
    lemma_set(e1, "target_bits"@, decimal(32));
    lemma_set(e2, "range_check"@, "strict"@);
    lemma_set(e3, "rounding_mode"@, "reject"@);
    assert(plan.target.parameters.entries() == float_entries(own, 64, 32));
    law_decimal_round_trip(64, 255);
    law_decimal_round_trip(32, 255);
    if let LogicalValue::Float { ieee754_hex, .. } = value {
        if let Some(raw) = parse_hex(ieee754_hex@, u64::MAX as nat) {
            law_exactly_the_singles_fit_a_single(raw as int);
        }
    }
}

/// A plan between bit strings notes the lengths of both fields, and the order and
/// the padding that were chosen, the target's like the source's where nothing
/// else was.
pub proof fn law_a_planned_bit_string_has_its_lengths(
    native: Seq<char>,
    own: Entries,
    chosen: Entries,
    source: u64,
    target: u64,
)
    ensures
        ({
            let e = planned_entries(
                LogicalType::BitString { length: source },
                LogicalType::BitString { length: target },
                native,
                own,
                chosen,
            );
            &&& lookup(e, "source_bit_length"@) == Some(decimal(source as nat))
            &&& lookup(e, "target_bit_length"@) == Some(decimal(target as nat))
            &&& lookup(chosen, "source_bit_order"@) is Some ==> lookup(e, "source_bit_order"@)
                == lookup(chosen, "source_bit_order"@)
            &&& lookup(chosen, "target_bit_order"@) is Some ==> lookup(e, "target_bit_order"@)
                == lookup(chosen, "target_bit_order"@)
            &&& lookup(chosen, "target_bit_order"@) is None && lookup(own, "target_bit_order"@)
                is None ==> lookup(e, "target_bit_order"@) == lookup(e, "source_bit_order"@)
            &&& lookup(chosen, "source_padding"@) is Some ==> lookup(e, "source_padding"@)
                == lookup(chosen, "source_padding"@)
            &&& lookup(chosen, "target_padding"@) is Some ==> lookup(e, "target_padding"@)
                == lookup(chosen, "target_padding"@)
            &&& lookup(chosen, "target_padding"@) is None && lookup(own, "target_padding"@) is None
                ==> lookup(e, "target_padding"@) == lookup(e, "source_padding"@)
        }),
{
    reveal_strlit("conversion_kind");
    reveal_strlit("source_bit_length");
    reveal_strlit("target_bit_length");
    reveal_strlit("source_bit_order");
    reveal_strlit("target_bit_order");
    reveal_strlit("source_padding");
    reveal_strlit("target_padding");
    assert("conversion_kind"@.len() == 15 && "source_bit_length"@.len() == 17
        && "target_bit_length"@.len() == 17 && "source_bit_order"@.len() == 16
        && "target_bit_order"@.len() == 16 && "source_padding"@.len() == 14
        && "target_padding"@.len() == 14);
    assert("source_bit_length"@[0] != "target_bit_length"@[0]);
    assert("source_bit_order"@[0] != "target_bit_order"@[0]);
    assert("source_padding"@[0] != "target_padding"@[0]);
    let source_order = either_or(chosen, own, "source_bit_order"@, "msb_first"@);
    let target_order = either_or(chosen, own, "target_bit_order"@, source_order);
    let source_padding = either_or(chosen, own, "source_padding"@, "zero"@);
    let target_padding = either_or(chosen, own, "target_padding"@, source_padding);
    let e1 = with_parameter(own, "conversion_kind"@, "bit_string"@);
    let e2 = with_parameter(e1, "source_bit_length"@, decimal(source as nat));
    let e3 = with_parameter(e2, "target_bit_length"@, decimal(target as nat));
    let e4 = with_parameter(e3, "source_bit_order"@, source_order);
    let e5 = with_parameter(e4, "target_bit_order"@, target_order);
    let e6 = with_parameter(e5, "source_padding"@, source_padding);
    lemma_set(own, "conversion_kind"@, "bit_string"@);
    lemma_set(e1, "source_bit_length"@, decimal(source as nat));
    lemma_set(e2, "target_bit_length"@, decimal(target as nat));
    lemma_set(e3, "source_bit_order"@, source_order);
    lemma_set(e4, "target_bit_order"@, target_order);
    lemma_set(e5, "source_padding"@, source_padding);
    lemma_set(e6, "target_padding"@, target_padding);
}

/// The kind and the precision of a field of times.
pub open spec fn time_of(field: LogicalType) -> Option<(Seq<char>, u8)> {
    match field {
        LogicalType::LocalDatetime { fractional_precision } => Some(
            ("local_datetime"@, fractional_precision),
        ),
        LogicalType::Instant { fractional_precision } => Some(("instant"@, fractional_precision)),
        LogicalType::Duration { fractional_precision } => Some(("duration"@, fractional_precision)),
        _ => None,
    }
}

/// A conversion between times notes the kind of both fields, the precision of the
/// source field, and where no other was chosen that of the target field.
pub proof fn law_a_planned_time_has_its_kinds(
    native: Seq<char>,
    own: Entries,
    chosen: Entries,
    source: LogicalType,
    target: LogicalType,
)
    requires
        lookup(own, "conversion_kind"@) == Some("temporal"@),
        time_of(source) is Some,
        time_of(target) is Some,
    ensures
        ({
            let e = planned_entries(source, target, native, own, chosen);
            let (source_kind, source_places) = time_of(source)->0;
            let (target_kind, target_places) = time_of(target)->0;
            &&& lookup(e, "source_temporal_kind"@) == Some(source_kind)
            &&& lookup(e, "target_temporal_kind"@) == Some(target_kind)
            &&& lookup(e, "source_precision"@) == Some(decimal(source_places as nat))
            &&& lookup(chosen, "target_precision"@) is None ==> lookup(e, "target_precision"@)
                == Some(decimal(target_places as nat))
        }),
{
    reveal_strlit("source_temporal_kind");
    reveal_strlit("target_temporal_kind");
    reveal_strlit("source_precision");
    reveal_strlit("target_precision");
    assert("source_temporal_kind"@.len() == 20 && "target_temporal_kind"@.len() == 20
        && "source_precision"@.len() == 16 && "target_precision"@.len() == 16);
    assert("source_temporal_kind"@[0] != "target_temporal_kind"@[0]);
    assert("source_precision"@[0] != "target_precision"@[0]);
    let (source_kind, source_places) = time_of(source)->0;
    let (target_kind, target_places) = time_of(target)->0;
    let e1 = with_parameter(own, "source_temporal_kind"@, source_kind);
    let e2 = with_parameter(e1, "target_temporal_kind"@, target_kind);
    let e3 = with_parameter(e2, "source_precision"@, decimal(source_places as nat));
    lemma_set(own, "source_temporal_kind"@, source_kind);
    lemma_set(e1, "target_temporal_kind"@, target_kind);
    lemma_set(e2, "source_precision"@, decimal(source_places as nat));
    lemma_set(e3, "target_precision"@, decimal(planned_precision(target, chosen)));
    assert(planned_entries(source, target, native, own, chosen) == temporal_entries(
        own,
        chosen,
        source,
        target,
    ));
}

} // verus!
