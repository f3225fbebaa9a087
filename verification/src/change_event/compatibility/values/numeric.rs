//! Integers, decimals and floating-point numbers against a plan.
use crate::change_event::compatibility::plan::ColumnConversionPlan;
use crate::change_event::compatibility::values::refusal::{
    flag, read_flag, refusal_of, refuse, unsigned, Refusal, RefusalText,
};
use crate::change_event::model::LogicalValue;
use crate::change_event::validate::{integer_count, supported_width};
use crate::number::{
    digit_value, digits_value, lemma_digits_bound, lemma_digits_parts, lemma_ten_to, parse_hex,
    parse_hex_u64, parse_i128, parse_signed, parse_u8, parse_usize, ten_to,
};
use crate::parameters::Parameters;
use crate::text::{all_digits, are_digits, ascii_digit, byte_len, chars_of};
use vstd::arithmetic::power::{lemma_pow_adds, lemma_pow_increases, lemma_pow_positive, pow};
use vstd::arithmetic::power2::{
    lemma2_to64, lemma2_to64_rest, lemma_pow2_adds, lemma_pow2_pos, lemma_pow2_strictly_increases,
    lemma_pow2_unfold, pow2,
};
use vstd::prelude::*;
use vstd::utf8::encode_utf8;

verus! {

// ---------------------------------------------------------------------------
// Reading parameters
// ---------------------------------------------------------------------------

fn read_u8(parameters: &Parameters, name: &str) -> (result: Option<u8>)
    ensures
        match result {
            Some(value) => unsigned(parameters.value_of(name@), 255) == Some(value as nat),
            None => unsigned(parameters.value_of(name@), 255) is None,
        },
{
    match parameters.get(name) {
        Some(text) => parse_u8(text),
        None => None,
    }
}

fn read_usize(parameters: &Parameters, name: &str) -> (result: Option<usize>)
    ensures
        match result {
            Some(value) => unsigned(parameters.value_of(name@), usize::MAX as nat) == Some(
                value as nat,
            ),
            None => unsigned(parameters.value_of(name@), usize::MAX as nat) is None,
        },
{
    match parameters.get(name) {
        Some(text) => parse_usize(text),
        None => None,
    }
}

/// The signed number that a parameter spells.
pub open spec fn wide(value: Option<Seq<char>>) -> Option<int> {
    match value {
        Some(text) => parse_signed(text, i128::MIN as int, i128::MAX as int),
        None => None,
    }
}

fn read_i128(parameters: &Parameters, name: &str) -> (result: Option<i128>)
    ensures
        match result {
            Some(value) => wide(parameters.value_of(name@)) == Some(value as int),
            None => wide(parameters.value_of(name@)) is None,
        },
{
    match parameters.get(name) {
        Some(text) => parse_i128(text),
        None => None,
    }
}

// ---------------------------------------------------------------------------
// Integers
// ---------------------------------------------------------------------------

/// The least integer of a shape.
pub open spec fn lowest(signed: bool, bits: u8) -> int {
    if signed {
        -(integer_count(bits) / 2)
    } else {
        0
    }
}

/// The greatest integer of a shape.
pub open spec fn highest(signed: bool, bits: u8) -> int {
    if signed {
        integer_count(bits) / 2 - 1
    } else {
        integer_count(bits) - 1
    }
}

fn bounds(signed: bool, bits: u8) -> (result: (i128, i128))
    ensures
        result.0 as int == lowest(signed, bits),
        result.1 as int == highest(signed, bits),
{
    let count: i128 = if bits == 8 {
        0x100
    } else if bits == 16 {
        0x1_0000
    } else if bits == 24 {
        0x100_0000
    } else if bits == 32 {
        0x1_0000_0000
    } else {
        0x1_0000_0000_0000_0000
    };
    if signed {
        (-(count / 2), count / 2 - 1)
    } else {
        (0, count - 1)
    }
}

/// Why the integer parameters of a target are not enough.
pub open spec fn integer_rule_refusal(p: Parameters) -> Option<RefusalText> {
    if flag(p.value_of("target_signed"@)) is None {
        Some(
            (
                "target_capability.integer_range_missing"@,
                "integer range metadata is incomplete"@,
            ),
        )
    } else if unsigned(p.value_of("target_bits"@), 255) is None {
        Some(("target_capability.integer_range_missing"@, "integer target width is missing"@))
    } else if !supported_width(unsigned(p.value_of("target_bits"@), 255)->0 as u8) {
        Some(
            (
                "target_capability.integer_range_invalid"@,
                "integer target width is not qualified"@,
            ),
        )
    } else if wide(p.value_of("target_min"@)) is None {
        Some(("target_capability.integer_range_missing"@, "integer lower bound is missing"@))
    } else if wide(p.value_of("target_max"@)) is None {
        Some(("target_capability.integer_range_missing"@, "integer upper bound is missing"@))
    } else if flag(p.value_of("source_signed"@)) is None {
        Some(
            (
                "target_capability.integer_range_missing"@,
                "integer source signedness is missing"@,
            ),
        )
    } else if unsigned(p.value_of("source_bits"@), 255) is None {
        Some(("target_capability.integer_range_missing"@, "integer source width is missing"@))
    } else {
        None
    }
}

/// Why the target's parameters refuse an integer of a shape.
pub open spec fn integer_value_refusal(
    p: Parameters,
    signed: bool,
    bits: u8,
    text: Seq<char>,
) -> Option<RefusalText> {
    let target_signed = flag(p.value_of("target_signed"@))->0;
    let target_bits = unsigned(p.value_of("target_bits"@), 255)->0 as u8;
    let source_bits = unsigned(p.value_of("source_bits"@), 255)->0 as u8;
    let value = wide(Some(text));
    if !supported_width(source_bits) || flag(p.value_of("source_signed"@)) != Some(signed) || bits
        != source_bits {
        Some(
            (
                "target_capability.integer_source_shape_mismatch"@,
                "captured integer metadata differs from the saved source shape"@,
            ),
        )
    } else if !signed && text.len() > 0 && text[0] == '-' {
        Some(
            (
                "target_capability.integer_overflow"@,
                "a negative value cannot be written to an unsigned target"@,
            ),
        )
    } else if value is None {
        Some(
            (
                "target_capability.integer_invalid"@,
                if signed {
                    "signed integer value is invalid"@
                } else {
                    "unsigned integer value is invalid"@
                },
            ),
        )
    } else if wide(p.value_of("target_min"@)) != Some(lowest(target_signed, target_bits)) || wide(
        p.value_of("target_max"@),
    ) != Some(highest(target_signed, target_bits)) {
        Some(
            (
                "target_capability.integer_range_invalid"@,
                "saved integer bounds do not match the target width and signedness"@,
            ),
        )
    } else if !(lowest(target_signed, target_bits) <= value->0 <= highest(
        target_signed,
        target_bits,
    )) {
        Some(
            (
                "target_capability.integer_overflow"@,
                "integer value is outside the fixed target range"@,
            ),
        )
    } else {
        None
    }
}

/// Why a plan refuses a value as an integer.
pub open spec fn integer_refusal(plan: ColumnConversionPlan, value: LogicalValue) -> Option<
    RefusalText,
> {
    match value {
        LogicalValue::Integer { signed, bits, value } => match integer_rule_refusal(
            plan.target.parameters,
        ) {
            Some(refusal) => Some(refusal),
            None => integer_value_refusal(plan.target.parameters, signed, bits, value@),
        },
        _ => Some(
            (
                "target_capability.integer_type_mismatch"@,
                "the captured value is not an integer"@,
            ),
        ),
    }
}

fn has_supported_width(bits: u8) -> (result: bool)
    ensures
        result == supported_width(bits),
{
    bits == 8 || bits == 16 || bits == 24 || bits == 32 || bits == 64
}

fn check_integer(
    p: &Parameters,
    target: (bool, u8),
    saved: (i128, i128),
    source: (bool, u8),
    signed: bool,
    bits: u8,
    text: &str,
) -> (result: Result<(), Refusal>)
    requires
        flag(p.value_of("target_signed"@)) == Some(target.0),
        unsigned(p.value_of("target_bits"@), 255) == Some(target.1 as nat),
        wide(p.value_of("target_min"@)) == Some(saved.0 as int),
        wide(p.value_of("target_max"@)) == Some(saved.1 as int),
        flag(p.value_of("source_signed"@)) == Some(source.0),
        unsigned(p.value_of("source_bits"@), 255) == Some(source.1 as nat),
    ensures
        refusal_of(result) == integer_value_refusal(*p, signed, bits, text@),
{
    if !has_supported_width(source.1) || signed != source.0 || bits != source.1 {
        return Err(
            refuse(
                "target_capability.integer_source_shape_mismatch",
                "captured integer metadata differs from the saved source shape",
            ),
        );
    }
    let chars = chars_of(text);
    if !signed && chars.len() > 0 && chars[0] == '-' {
        return Err(
            refuse(
                "target_capability.integer_overflow",
                "a negative value cannot be written to an unsigned target",
            ),
        );
    }
    let parsed: i128 = match parse_i128(text) {
        Some(parsed) => parsed,
        None => {
            return Err(
                refuse(
                    "target_capability.integer_invalid",
                    if signed {
                        "signed integer value is invalid"
                    } else {
                        "unsigned integer value is invalid"
                    },
                ),
            );
        },
    };
    let (minimum, maximum) = bounds(target.0, target.1);
    if saved.0 != minimum || saved.1 != maximum {
        return Err(
            refuse(
                "target_capability.integer_range_invalid",
                "saved integer bounds do not match the target width and signedness",
            ),
        );
    }
    if parsed < minimum || parsed > maximum {
        return Err(
            refuse(
                "target_capability.integer_overflow",
                "integer value is outside the fixed target range",
            ),
        );
    }
    Ok(())
}

pub(crate) fn validate_integer_plan_value(
    plan: &ColumnConversionPlan,
    value: &LogicalValue,
) -> (result: Result<(), Refusal>)
    ensures
        refusal_of(result) == integer_refusal(*plan, *value),
{
    let p = &plan.target.parameters;
    match value {
        LogicalValue::Integer { signed, bits, value } => {
            let target_signed = match read_flag(p, "target_signed") {
                Some(flag) => flag,
                None => {
                    return Err(
                        refuse(
                            "target_capability.integer_range_missing",
                            "integer range metadata is incomplete",
                        ),
                    );
                },
            };
            let target_bits: u8 = match read_u8(p, "target_bits") {
                Some(bits) => bits,
                None => {
                    return Err(
                        refuse(
                            "target_capability.integer_range_missing",
                            "integer target width is missing",
                        ),
                    );
                },
            };
            if !has_supported_width(target_bits) {
                return Err(
                    refuse(
                        "target_capability.integer_range_invalid",
                        "integer target width is not qualified",
                    ),
                );
            }
            let minimum: i128 = match read_i128(p, "target_min") {
                Some(bound) => bound,
                None => {
                    return Err(
                        refuse(
                            "target_capability.integer_range_missing",
                            "integer lower bound is missing",
                        ),
                    );
                },
            };
            let maximum: i128 = match read_i128(p, "target_max") {
                Some(bound) => bound,
                None => {
                    return Err(
                        refuse(
                            "target_capability.integer_range_missing",
                            "integer upper bound is missing",
                        ),
                    );
                },
            };
            let source_signed = match read_flag(p, "source_signed") {
                Some(flag) => flag,
                None => {
                    return Err(
                        refuse(
                            "target_capability.integer_range_missing",
                            "integer source signedness is missing",
                        ),
                    );
                },
            };
            let source_bits: u8 = match read_u8(p, "source_bits") {
                Some(bits) => bits,
                None => {
                    return Err(
                        refuse(
                            "target_capability.integer_range_missing",
                            "integer source width is missing",
                        ),
                    );
                },
            };
            check_integer(
                p,
                (target_signed, target_bits),
                (minimum, maximum),
                (source_signed, source_bits),
                *signed,
                *bits,
                value.as_str(),
            )
        },
        _ => Err(
            refuse(
                "target_capability.integer_type_mismatch",
                "the captured value is not an integer",
            ),
        ),
    }
}

pub proof fn lemma_shape(signed: bool, bits: u8)
    requires
        supported_width(bits),
    ensures
        lowest(signed, bits) == if signed {
            -pow2((bits - 1) as nat)
        } else {
            0
        },
        highest(signed, bits) == if signed {
            pow2((bits - 1) as nat) - 1
        } else {
            pow2(bits as nat) - 1
        },
{
    lemma2_to64();
    lemma2_to64_rest();
}

/// A value that a plan takes as an integer is one of the numbers that the target
/// can hold: those of its bits, in two's complement where it is signed.
pub proof fn law_a_taken_integer_is_in_the_range_of_its_target(
    plan: ColumnConversionPlan,
    value: LogicalValue,
)
    requires
        integer_refusal(plan, value) is None,
    ensures
        value matches LogicalValue::Integer { signed, bits, value: text } && {
            let p = plan.target.parameters;
            &&& flag(p.value_of("source_signed"@)) == Some(signed)
            &&& unsigned(p.value_of("source_bits"@), 255) == Some(bits as nat)
            &&& parse_signed(text@, i128::MIN as int, i128::MAX as int) matches Some(number)
            &&& unsigned(p.value_of("target_bits"@), 255) matches Some(width)
            &&& flag(p.value_of("target_signed"@)) matches Some(target_signed)
            &&& if target_signed {
                -pow2((width - 1) as nat) <= number < pow2((width - 1) as nat)
            } else {
                0 <= number < pow2(width)
            }
        },
{
    let p = plan.target.parameters;
    lemma_shape(
        flag(p.value_of("target_signed"@))->0,
        unsigned(p.value_of("target_bits"@), 255)->0 as u8,
    );
}

/// Every integer of the planned source shape that the target can hold is taken
/// by a plan that takes an integer.
pub proof fn law_every_fitting_integer_is_taken(
    plan: ColumnConversionPlan,
    taken: LogicalValue,
    value: LogicalValue,
)
    requires
        integer_refusal(plan, taken) is None,
        value is Integer && value->Integer_signed == taken->Integer_signed && value->Integer_bits
            == taken->Integer_bits,
        !value->Integer_signed && value->Integer_value@.len() > 0 ==> value->Integer_value@[0]
            != '-',
        parse_signed(value->Integer_value@, i128::MIN as int, i128::MAX as int) matches Some(number)
            && {
            let p = plan.target.parameters;
            let width = unsigned(p.value_of("target_bits"@), 255)->0;
            if flag(p.value_of("target_signed"@)) == Some(true) {
                -pow2((width - 1) as nat) <= number < pow2((width - 1) as nat)
            } else {
                0 <= number < pow2(width)
            }
        },
    ensures
        integer_refusal(plan, value) is None,
{
    let p = plan.target.parameters;
    lemma_shape(
        flag(p.value_of("target_signed"@))->0,
        unsigned(p.value_of("target_bits"@), 255)->0 as u8,
    );
}

// ---------------------------------------------------------------------------
// Decimals
// ---------------------------------------------------------------------------

/// The text without one sign.
pub open spec fn without_sign(text: Seq<char>) -> Seq<char> {
    if text.len() > 0 && (text[0] == '-' || text[0] == '+') {
        text.drop_first()
    } else {
        text
    }
}

/// Where the digits of a literal begin.
pub(crate) fn sign_length(chars: &Vec<char>) -> (result: usize)
    ensures
        result <= chars@.len(),
        result <= 1,
        chars@.skip(result as int) == without_sign(chars@),
{
    let length: usize = if chars.len() > 0 && (chars[0] == '-' || chars[0] == '+') {
        1
    } else {
        0
    };
    assert(chars@.skip(length as int) =~= without_sign(chars@));
    length
}

/// The digits without leading zeros.
pub open spec fn without_zeros(digits: Seq<char>) -> Seq<char>
    decreases digits.len(),
{
    if digits.len() > 0 && digits[0] == '0' {
        without_zeros(digits.drop_first())
    } else {
        digits
    }
}

/// The first position that holds no zero.
pub(crate) fn skip_zeros(chars: &Vec<char>, from: usize, to: usize) -> (result: usize)
    requires
        from <= to <= chars@.len(),
    ensures
        from <= result <= to,
        chars@.subrange(result as int, to as int) == without_zeros(
            chars@.subrange(from as int, to as int),
        ),
{
    let mut at: usize = from;
    while at < to && chars[at] == '0'
        invariant
            from <= at <= to <= chars@.len(),
            without_zeros(chars@.subrange(at as int, to as int)) == without_zeros(
                chars@.subrange(from as int, to as int),
            ),
        decreases to - at,
    {
        assert(chars@.subrange(at as int, to as int).drop_first() =~= chars@.subrange(
            at + 1,
            to as int,
        ));
        at += 1;
    }
    at
}

/// The last `count` digits are zeros; a missing digit is one.
pub open spec fn ends_in_zeros(digits: Seq<char>, count: int) -> bool {
    forall|i: int| 0 <= i < digits.len() && digits.len() - count <= i ==> digits[i] == '0'
}

/// The digits in front of the decimal point.
pub open spec fn integer_part(digits: Seq<char>, scale: int) -> Seq<char> {
    if digits.len() >= scale {
        digits.take(digits.len() - scale)
    } else {
        Seq::empty()
    }
}

pub open spec fn size(value: Option<Seq<char>>) -> Option<nat> {
    unsigned(value, usize::MAX as nat)
}

/// Why the decimal parameters of a source refuse a scale.
pub open spec fn decimal_source_refusal(p: Parameters, scale: int) -> Option<RefusalText> {
    let precision = size(p.value_of("source_precision"@));
    let source_scale = size(p.value_of("source_scale"@));
    if precision is None {
        Some(
            (
                "target_capability.decimal_range_missing"@,
                "Decimal source precision is missing"@,
            ),
        )
    } else if source_scale is None {
        Some(("target_capability.decimal_range_missing"@, "Decimal source scale is missing"@))
    } else if precision->0 == 0 || source_scale->0 > precision->0 {
        Some(
            (
                "target_capability.decimal_range_invalid"@,
                "Decimal source precision and scale are invalid"@,
            ),
        )
    } else if scale != source_scale->0 {
        Some(
            (
                "target_capability.decimal_scale_mismatch"@,
                "Decimal value scale differs from the planned source scale"@,
            ),
        )
    } else {
        None
    }
}

/// Why the decimal parameters of a target are not enough.
pub open spec fn decimal_target_refusal(p: Parameters) -> Option<RefusalText> {
    let precision = size(p.value_of("target_precision"@));
    let scale = size(p.value_of("target_scale"@));
    let integer_digits = size(p.value_of("target_integer_digits"@));
    if precision is None {
        Some(
            (
                "target_capability.decimal_range_missing"@,
                "Decimal target precision is missing"@,
            ),
        )
    } else if scale is None {
        Some(("target_capability.decimal_range_missing"@, "Decimal target scale is missing"@))
    } else if integer_digits is None {
        Some(
            (
                "target_capability.decimal_range_missing"@,
                "Decimal target integer width is missing"@,
            ),
        )
    } else if precision->0 == 0 || scale->0 > precision->0 || integer_digits->0 as int
        != precision->0 - scale->0 {
        Some(
            (
                "target_capability.decimal_range_invalid"@,
                "Decimal target precision and scale are invalid"@,
            ),
        )
    } else {
        None
    }
}

/// Why digits with a scale do not fit a target exactly.
pub open spec fn decimal_digits_refusal(
    unscaled: Seq<char>,
    scale: int,
    target_scale: int,
    target_integer_digits: int,
) -> Option<RefusalText> {
    let digits = without_sign(unscaled);
    if digits.len() == 0 || !all_digits(digits) {
        Some(("target_capability.decimal_invalid"@, "Decimal unscaled value is invalid"@))
    } else if scale > target_scale && !ends_in_zeros(digits, scale - target_scale) {
        Some(
            (
                "target_capability.decimal_rounding_required"@,
                "Decimal scale reduction would require rounding"@,
            ),
        )
    } else if without_zeros(integer_part(digits, scale)).len() > target_integer_digits {
        Some(
            (
                "target_capability.decimal_overflow"@,
                "Decimal value is outside the target precision"@,
            ),
        )
    } else {
        None
    }
}

/// Why a plan refuses a value as a decimal.
pub open spec fn decimal_refusal(plan: ColumnConversionPlan, value: LogicalValue) -> Option<
    RefusalText,
> {
    let p = plan.target.parameters;
    match value {
        LogicalValue::Decimal { unscaled, scale } => match decimal_source_refusal(
            p,
            scale as int,
        ) {
            Some(refusal) => Some(refusal),
            None => match decimal_target_refusal(p) {
                Some(refusal) => Some(refusal),
                None => decimal_digits_refusal(
                    unscaled@,
                    scale as int,
                    size(p.value_of("target_scale"@))->0 as int,
                    size(p.value_of("target_integer_digits"@))->0 as int,
                ),
            },
        },
        _ => Some(
            (
                "target_capability.decimal_type_mismatch"@,
                "the captured value is not a Decimal"@,
            ),
        ),
    }
}

fn does_end_in_zeros(chars: &Vec<char>, from: usize, count: usize) -> (result: bool)
    requires
        from <= chars@.len(),
    ensures
        result == ends_in_zeros(chars@.skip(from as int), count as int),
{
    let digits: usize = chars.len() - from;
    let start: usize = if digits > count {
        from + (digits - count)
    } else {
        from
    };
    let ghost all = chars@.skip(from as int);
    let mut i: usize = start;
    while i < chars.len()
        invariant
            from <= start <= i <= chars@.len(),
            all == chars@.skip(from as int),
            digits == all.len(),
            start - from == (if digits > count {
                digits - count
            } else {
                0
            }),
            forall|k: int| start - from <= k < i - from ==> all[k] == '0',
        decreases chars@.len() - i,
    {
        if chars[i] != '0' {
            assert(all[i - from] == chars@[i as int]);
            return false;
        }
        assert(all[i - from] == chars@[i as int]);
        i += 1;
    }
    true
}

fn check_decimal_digits(
    unscaled: &str,
    scale: usize,
    target_scale: usize,
    target_integer_digits: usize,
) -> (result: Result<(), Refusal>)
    ensures
        refusal_of(result) == decimal_digits_refusal(
            unscaled@,
            scale as int,
            target_scale as int,
            target_integer_digits as int,
        ),
{
    let chars = chars_of(unscaled);
    let from: usize = sign_length(&chars);
    let length: usize = chars.len();
    let count: usize = length - from;
    if count == 0 || !are_digits(&chars, from) {
        return Err(
            refuse("target_capability.decimal_invalid", "Decimal unscaled value is invalid"),
        );
    }
    if scale > target_scale && !does_end_in_zeros(&chars, from, scale - target_scale) {
        return Err(
            refuse(
                "target_capability.decimal_rounding_required",
                "Decimal scale reduction would require rounding",
            ),
        );
    }
    let to: usize = if count >= scale {
        length - scale
    } else {
        from
    };
    assert(chars@.subrange(from as int, to as int) =~= integer_part(
        without_sign(unscaled@),
        scale as int,
    ));
    let first: usize = skip_zeros(&chars, from, to);
    if to - first > target_integer_digits {
        return Err(
            refuse(
                "target_capability.decimal_overflow",
                "Decimal value is outside the target precision",
            ),
        );
    }
    Ok(())
}

fn check_decimal_source(p: &Parameters, scale: usize) -> (result: Result<(), Refusal>)
    ensures
        refusal_of(result) == decimal_source_refusal(*p, scale as int),
{
    let precision: usize = match read_usize(p, "source_precision") {
        Some(precision) => precision,
        None => {
            return Err(
                refuse(
                    "target_capability.decimal_range_missing",
                    "Decimal source precision is missing",
                ),
            );
        },
    };
    let source_scale: usize = match read_usize(p, "source_scale") {
        Some(scale) => scale,
        None => {
            return Err(
                refuse(
                    "target_capability.decimal_range_missing",
                    "Decimal source scale is missing",
                ),
            );
        },
    };
    if precision == 0 || source_scale > precision {
        return Err(
            refuse(
                "target_capability.decimal_range_invalid",
                "Decimal source precision and scale are invalid",
            ),
        );
    }
    if scale != source_scale {
        return Err(
            refuse(
                "target_capability.decimal_scale_mismatch",
                "Decimal value scale differs from the planned source scale",
            ),
        );
    }
    Ok(())
}

pub(crate) fn validate_decimal_plan_value(
    plan: &ColumnConversionPlan,
    value: &LogicalValue,
) -> (result: Result<(), Refusal>)
    ensures
        refusal_of(result) == decimal_refusal(*plan, *value),
{
    let p = &plan.target.parameters;
    match value {
        LogicalValue::Decimal { unscaled, scale } => {
            match check_decimal_source(p, *scale) {
                Ok(_) => {},
                Err(refusal) => {
                    return Err(refusal);
                },
            }
            let precision: usize = match read_usize(p, "target_precision") {
                Some(precision) => precision,
                None => {
                    return Err(
                        refuse(
                            "target_capability.decimal_range_missing",
                            "Decimal target precision is missing",
                        ),
                    );
                },
            };
            let target_scale: usize = match read_usize(p, "target_scale") {
                Some(scale) => scale,
                None => {
                    return Err(
                        refuse(
                            "target_capability.decimal_range_missing",
                            "Decimal target scale is missing",
                        ),
                    );
                },
            };
            let integer_digits: usize = match read_usize(p, "target_integer_digits") {
                Some(digits) => digits,
                None => {
                    return Err(
                        refuse(
                            "target_capability.decimal_range_missing",
                            "Decimal target integer width is missing",
                        ),
                    );
                },
            };
            if precision == 0 || target_scale > precision || integer_digits != precision
                - target_scale {
                return Err(
                    refuse(
                        "target_capability.decimal_range_invalid",
                        "Decimal target precision and scale are invalid",
                    ),
                );
            }
            check_decimal_digits(unscaled.as_str(), *scale, target_scale, integer_digits)
        },
        _ => Err(
            refuse(
                "target_capability.decimal_type_mismatch",
                "the captured value is not a Decimal",
            ),
        ),
    }
}

/// A decimal that a plan takes loses nothing: reducing its scale divides the
/// unscaled number without a remainder, so no rounding is ever performed.
pub proof fn law_reducing_a_scale_is_exact(
    unscaled: Seq<char>,
    scale: int,
    target_scale: int,
    target_integer_digits: int,
)
    requires
        0 <= target_scale <= scale,
        decimal_digits_refusal(unscaled, scale, target_scale, target_integer_digits) is None,
    ensures
        digits_value(without_sign(unscaled)) % ten_to((scale - target_scale) as nat) == 0,
{
    let digits = without_sign(unscaled);
    if scale > target_scale {
        lemma_zeros_divide(digits, (scale - target_scale) as nat);
    }
}

/// Exactly the decimals are taken whose number has a place in the target: with
/// the point moved to the target's scale the number is whole, and it has no more
/// digits in front of the point than the target.
pub proof fn law_exactly_the_fitting_decimals_are_taken(
    unscaled: Seq<char>,
    scale: nat,
    target_scale: nat,
    target_integer_digits: nat,
)
    requires
        without_sign(unscaled).len() > 0,
        all_digits(without_sign(unscaled)),
    ensures
        decimal_digits_refusal(
            unscaled,
            scale as int,
            target_scale as int,
            target_integer_digits as int,
        ) is None <==> {
            let number = digits_value(without_sign(unscaled)) as int;
            &&& (number * pow(10, target_scale)) % pow(10, scale) == 0
            &&& number < pow(10, target_integer_digits + scale)
        },
{
    let digits = without_sign(unscaled);
    let number = digits_value(digits) as int;
    lemma_integer_digits(digits, scale, target_integer_digits);
    lemma_pow_positive(10, scale);
    lemma_pow_positive(10, target_scale);
    if scale > target_scale {
        let less = (scale - target_scale) as nat;
        lemma_ten_to(less);
        lemma_pow_adds(10, less, target_scale);
        let p = pow(10, less);
        let t = pow(10, target_scale);
        assert((number * t) % (p * t) == 0 <==> number % p == 0) by {
            lemma_common_factor(number, p, t);
        }
        if ends_in_zeros(digits, less as int) {
            lemma_zeros_divide(digits, less);
        }
        if number % p == 0 {
            lemma_divided_ends_in_zeros(digits, less);
        }
    } else {
        let more = (target_scale - scale) as nat;
        lemma_pow_adds(10, scale, more);
        let s = pow(10, scale);
        let m = pow(10, more);
        assert((number * (s * m)) % s == 0) by (nonlinear_arith)
            requires
                s > 0,
        {
            assert(number * (s * m) == s * (number * m));
        }
    }
}

/// A value that a plan takes as a decimal is one of the numbers that the target
/// can hold: it is whole in units of the target's scale, and it has at most as
/// many digits as the target's precision in those units.
pub proof fn law_a_taken_decimal_is_in_the_range_of_its_target(
    plan: ColumnConversionPlan,
    value: LogicalValue,
)
    requires
        decimal_refusal(plan, value) is None,
    ensures
        value matches LogicalValue::Decimal { unscaled, scale } && {
            let p = plan.target.parameters;
            let number = digits_value(without_sign(unscaled@)) as int;
            &&& unsigned(p.value_of("target_precision"@), usize::MAX as nat) matches Some(precision)
            &&& unsigned(p.value_of("target_scale"@), usize::MAX as nat) matches Some(target_scale)
            &&& unsigned(p.value_of("source_scale"@), usize::MAX as nat) == Some(scale as nat)
            &&& (number * pow(10, target_scale)) % pow(10, scale as nat) == 0
            &&& number * pow(10, target_scale) < pow(10, precision) * pow(10, scale as nat)
        },
{
    let p = plan.target.parameters;
    let unscaled = value->unscaled@;
    let scale = value->Decimal_scale as nat;
    let precision = size(p.value_of("target_precision"@))->0;
    let target_scale = size(p.value_of("target_scale"@))->0;
    let integer_digits = size(p.value_of("target_integer_digits"@))->0;
    let number = digits_value(without_sign(unscaled)) as int;
    law_exactly_the_fitting_decimals_are_taken(unscaled, scale, target_scale, integer_digits);
    assert(precision == integer_digits + target_scale);
    lemma_pow_adds(10, integer_digits, target_scale);
    lemma_pow_adds(10, integer_digits, scale);
    lemma_pow_positive(10, target_scale);
    let i = pow(10, integer_digits);
    let t = pow(10, target_scale);
    let s = pow(10, scale);
    assert(number * t < (i * t) * s) by (nonlinear_arith)
        requires
            number < i * s,
            t > 0,
    ;
}

proof fn lemma_common_factor(number: int, p: int, t: int)
    requires
        number >= 0,
        p > 0,
        t > 0,
    ensures
        (number * t) % (p * t) == 0 <==> number % p == 0,
{
    assert((number * t) % (p * t) == (number % p) * t) by {
        vstd::arithmetic::div_mod::lemma_truncate_middle(number, t, p);
        assert(number * t == t * number) by (nonlinear_arith);
        assert(p * t == t * p) by (nonlinear_arith);
        assert((number % p) * t == t * (number % p)) by (nonlinear_arith);
    }
    let r = number % p;
    assert(r * t == 0 <==> r == 0) by (nonlinear_arith)
        requires
            t > 0,
    ;
}

/// The digits in front of the point are as many as the number says.
proof fn lemma_integer_digits(digits: Seq<char>, scale: nat, count: nat)
    requires
        all_digits(digits),
    ensures
        without_zeros(integer_part(digits, scale as int)).len() > count <==> digits_value(digits)
            >= pow(10, count + scale),
{
    let front = integer_part(digits, scale as int);
    lemma_pow_adds(10, count, scale);
    lemma_pow_positive(10, scale);
    lemma_pow_positive(10, count);
    let c = pow(10, count);
    let s = pow(10, scale);
    if digits.len() >= scale {
        let at = digits.len() - scale;
        let rest = digits.skip(at);
        assert(all_digits(front)) by {
            assert forall|i: int| 0 <= i < front.len() implies ascii_digit(#[trigger] front[i]) by {
                assert(ascii_digit(digits[i]));
            }
        }
        assert(all_digits(rest)) by {
            assert forall|i: int| 0 <= i < rest.len() implies ascii_digit(#[trigger] rest[i]) by {
                assert(ascii_digit(digits[at + i]));
            }
        }
        lemma_digits_parts(digits, at);
        lemma_digits_bound(rest);
        lemma_without_zeros(front);
        let f = digits_value(front) as int;
        let r = digits_value(rest) as int;
        let kept = without_zeros(front);
        if kept.len() > count {
            lemma_pow_increases(10, count, (kept.len() - 1) as nat);
            assert(f * s + r >= c * s) by (nonlinear_arith)
                requires
                    f >= c,
                    s > 0,
                    r >= 0,
            ;
        } else {
            lemma_pow_increases(10, kept.len(), count);
            assert(f * s + r < c * s) by (nonlinear_arith)
                requires
                    f + 1 <= c,
                    s > 0,
                    r < s,
            ;
        }
    } else {
        lemma_digits_bound(digits);
        lemma_pow_increases(10, digits.len(), scale);
        assert(s <= c * s) by (nonlinear_arith)
            requires
                c > 0,
                s > 0,
        ;
    }
}

/// Leading zeros count for nothing, and what is left of a number has its digits.
pub proof fn lemma_without_zeros(digits: Seq<char>)
    requires
        all_digits(digits),
    ensures
        digits_value(without_zeros(digits)) == digits_value(digits),
        digits_value(digits) < pow(10, without_zeros(digits).len()),
        without_zeros(digits).len() > 0 ==> digits_value(digits) >= pow(
            10,
            (without_zeros(digits).len() - 1) as nat,
        ),
    decreases digits.len(),
{
    if digits.len() > 0 {
        let rest = digits.drop_first();
        assert forall|i: int| 0 <= i < rest.len() implies ascii_digit(#[trigger] rest[i]) by {
            assert(ascii_digit(digits[i + 1]));
        }
        lemma_digits_parts(digits, 1);
        assert(digits.skip(1) =~= rest);
        reveal_with_fuel(digits_value, 2);
        assert(digits.take(1).drop_last() =~= Seq::empty());
        assert(digits_value(digits.take(1)) == digit_value(digits[0]));
        assert(ascii_digit(digits[0]));
        if digits[0] == '0' {
            assert(0 * pow(10, rest.len()) == 0);
            assert(digits_value(digits) == digits_value(rest));
            lemma_without_zeros(rest);
        } else {
            lemma_digits_bound(digits);
            let power = pow(10, rest.len());
            lemma_pow_positive(10, rest.len());
            let d = digit_value(digits[0]) as int;
            assert(d * power >= power) by (nonlinear_arith)
                requires
                    d >= 1,
                    power > 0,
            ;
        }
    } else {
        lemma_digits_bound(digits);
    }
}

/// A number that a power of ten divides is written with that many zeros.
proof fn lemma_divided_ends_in_zeros(digits: Seq<char>, count: nat)
    requires
        all_digits(digits),
        digits_value(digits) as int % pow(10, count) == 0,
    ensures
        ends_in_zeros(digits, count as int),
    decreases digits.len(),
{
    reveal(pow);
    if digits.len() > 0 && count > 0 {
        let rest = digits.drop_last();
        assert forall|i: int| 0 <= i < rest.len() implies ascii_digit(#[trigger] rest[i]) by {
            assert(ascii_digit(digits[i]));
        }
        assert(ascii_digit(digits.last()));
        let t = pow(10, (count - 1) as nat);
        lemma_pow_positive(10, (count - 1) as nat);
        let n = digits_value(rest) as int;
        let d = digit_value(digits.last()) as int;
        let whole = 10 * n + d;
        let q = whole / (10 * t);
        assert(whole == (10 * t) * q) by (nonlinear_arith)
            requires
                t > 0,
                whole % (10 * t) == 0,
                q == whole / (10 * t),
        ;
        assert((10 * t) * q == 10 * (t * q)) by (nonlinear_arith);
        assert(d == 0 && n == t * q);
        assert(n % t == 0) by (nonlinear_arith)
            requires
                n == t * q,
                t > 0,
        ;
        lemma_divided_ends_in_zeros(rest, (count - 1) as nat);
        assert forall|i: int| 0 <= i < digits.len() && digits.len() - count <= i implies digits[i]
            == '0' by {
            if i < rest.len() {
                assert(rest[i] == '0');
            }
        }
    }
}

proof fn lemma_zeros_divide(digits: Seq<char>, count: nat)
    requires
        all_digits(digits),
        ends_in_zeros(digits, count as int),
    ensures
        ten_to(count) > 0,
        digits_value(digits) % ten_to(count) == 0,
    decreases digits.len() + count,
{
    lemma_ten_to_positive(count);
    if count == 0 {
    } else if digits.len() == 0 {
        assert(0nat % ten_to(count) == 0) by (nonlinear_arith)
            requires
                ten_to(count) > 0,
        ;
    } else {
        assert(digits[digits.len() - 1] == '0');
        let rest = digits.drop_last();
        let smaller = (count - 1) as nat;
        assert(ends_in_zeros(rest, smaller as int)) by {
            assert forall|i: int| 0 <= i < rest.len() && rest.len() - smaller <= i implies rest[i]
                == '0' by {
                assert(digits[i] == '0');
            }
        }
        assert(all_digits(rest)) by {
            assert forall|i: int| 0 <= i < rest.len() implies crate::text::ascii_digit(
                #[trigger] rest[i],
            ) by {
                assert(crate::text::ascii_digit(digits[i]));
            }
        }
        lemma_zeros_divide(rest, smaller);
        let n = digits_value(rest) as int;
        let t = ten_to(smaller) as int;
        assert(digits_value(digits) == 10 * n);
        let q = n / t;
        assert(n == t * q) by (nonlinear_arith)
            requires
                t > 0,
                n % t == 0,
                q == n / t,
        ;
        assert(10 * n == (10 * t) * q) by (nonlinear_arith)
            requires
                n == t * q,
        ;
        assert(((10 * t) * q) % (10 * t) == 0) by (nonlinear_arith)
            requires
                t > 0,
        ;
    }
}

proof fn lemma_ten_to_positive(exponent: nat)
    ensures
        ten_to(exponent) > 0,
    decreases exponent,
{
    if exponent > 0 {
        lemma_ten_to_positive((exponent - 1) as nat);
    }
}

// ---------------------------------------------------------------------------
// Floating-point numbers, by their bits
// ---------------------------------------------------------------------------

/// The lowest `count` bits of a number are zero.
pub open spec fn low_bits_zero(value: int, count: nat) -> bool
    decreases count,
{
    count == 0 || (value % 2 == 0 && low_bits_zero(value / 2, (count - 1) as nat))
}

fn are_low_bits_zero(value: u64, count: u64) -> (result: bool)
    ensures
        result == low_bits_zero(value as int, count as nat),
    decreases count,
{
    if count == 0 {
        return true;
    }
    value % 2 == 0 && are_low_bits_zero(value / 2, count - 1)
}

/// The biased exponent of a double.
pub open spec fn double_exponent(bits: int) -> int {
    (bits / 0x10_0000_0000_0000) % 0x800
}

/// The fraction of a double.
pub open spec fn double_fraction(bits: int) -> int {
    bits % 0x10_0000_0000_0000
}

/// The double is neither infinite nor no number.
pub open spec fn double_finite(bits: int) -> bool {
    double_exponent(bits) != 0x7ff
}

/// A double with these bits is finite, and a single-precision number has its
/// very value: its exponent is in the range of normal or subnormal singles, and
/// the bits of its fraction that a single does not keep are zero.
pub open spec fn single_exact(bits: int) -> bool {
    let exponent = double_exponent(bits);
    let fraction = double_fraction(bits);
    if exponent == 0 {
        fraction == 0
    } else if 897 <= exponent <= 1150 {
        low_bits_zero(fraction, 29)
    } else if 874 <= exponent <= 896 {
        low_bits_zero(fraction, (926 - exponent) as nat)
    } else {
        false
    }
}

pub(crate) fn is_double_finite(bits: u64) -> (result: bool)
    ensures
        result == double_finite(bits as int),
{
    (bits / 0x10_0000_0000_0000) % 0x800 != 0x7ff
}

fn is_single_exact(bits: u64) -> (result: bool)
    ensures
        result == single_exact(bits as int),
{
    let exponent: u64 = (bits / 0x10_0000_0000_0000) % 0x800;
    let fraction: u64 = bits % 0x10_0000_0000_0000;
    if exponent == 0 {
        fraction == 0
    } else if 897 <= exponent && exponent <= 1150 {
        are_low_bits_zero(fraction, 29)
    } else if 874 <= exponent && exponent <= 896 {
        are_low_bits_zero(fraction, 926 - exponent)
    } else {
        false
    }
}

/// Why a plan refuses a value as a floating-point number.
pub open spec fn float_refusal(plan: ColumnConversionPlan, value: LogicalValue) -> Option<
    RefusalText,
> {
    let p = plan.target.parameters;
    match value {
        LogicalValue::Float { bits, ieee754_hex } => {
            let target_bits = unsigned(p.value_of("target_bits"@), 255);
            let source_bits = unsigned(p.value_of("source_bits"@), 255);
            let raw = parse_hex(ieee754_hex@, u64::MAX as nat);
            if target_bits is None {
                Some(
                    (
                        "target_capability.float_range_missing"@,
                        "floating-point target width is missing"@,
                    ),
                )
            } else if source_bits is None {
                Some(
                    (
                        "target_capability.float_range_missing"@,
                        "floating-point source width is missing"@,
                    ),
                )
            } else if bits as nat != source_bits->0 || source_bits->0 != 64 || target_bits->0 != 32
                || encode_utf8(ieee754_hex@).len() != 16 {
                Some(
                    (
                        "target_capability.float_range_invalid"@,
                        "floating-point range rule does not match the captured value"@,
                    ),
                )
            } else if raw is None {
                Some(
                    (
                        "target_capability.float_invalid"@,
                        "floating-point bit pattern is invalid"@,
                    ),
                )
            } else if !single_exact(raw->0 as int) {
                Some(
                    (
                        "target_capability.float_rounding_or_overflow"@,
                        "floating-point conversion would round or overflow"@,
                    ),
                )
            } else {
                None
            }
        },
        _ => Some(
            (
                "target_capability.float_type_mismatch"@,
                "the captured value is not floating point"@,
            ),
        ),
    }
}

pub(crate) fn validate_float_plan_value(
    plan: &ColumnConversionPlan,
    value: &LogicalValue,
) -> (result: Result<(), Refusal>)
    ensures
        refusal_of(result) == float_refusal(*plan, *value),
{
    let p = &plan.target.parameters;
    match value {
        LogicalValue::Float { bits, ieee754_hex } => {
            let target_bits: u8 = match read_u8(p, "target_bits") {
                Some(bits) => bits,
                None => {
                    return Err(
                        refuse(
                            "target_capability.float_range_missing",
                            "floating-point target width is missing",
                        ),
                    );
                },
            };
            let source_bits: u8 = match read_u8(p, "source_bits") {
                Some(bits) => bits,
                None => {
                    return Err(
                        refuse(
                            "target_capability.float_range_missing",
                            "floating-point source width is missing",
                        ),
                    );
                },
            };
            if *bits != source_bits || source_bits != 64 || target_bits != 32 || byte_len(
                ieee754_hex.as_str(),
            ) != 16 {
                return Err(
                    refuse(
                        "target_capability.float_range_invalid",
                        "floating-point range rule does not match the captured value",
                    ),
                );
            }
            let raw: u64 = match parse_hex_u64(ieee754_hex.as_str()) {
                Some(raw) => raw,
                None => {
                    return Err(
                        refuse(
                            "target_capability.float_invalid",
                            "floating-point bit pattern is invalid",
                        ),
                    );
                },
            };
            if !is_single_exact(raw) {
                return Err(
                    refuse(
                        "target_capability.float_rounding_or_overflow",
                        "floating-point conversion would round or overflow",
                    ),
                );
            }
            Ok(())
        },
        _ => Err(
            refuse(
                "target_capability.float_type_mismatch",
                "the captured value is not floating point",
            ),
        ),
    }
}

// ---------------------------------------------------------------------------
// The numbers of floating-point bits
// ---------------------------------------------------------------------------

/// The magnitude of a finite double, counted in the least subnormal double.
pub open spec fn double_magnitude(exponent: int, fraction: int) -> int {
    if exponent == 0 {
        fraction
    } else {
        (pow2(52) + fraction) * pow2((exponent - 1) as nat)
    }
}

/// The magnitude of a finite single, counted in the least subnormal single.
pub open spec fn single_magnitude(exponent: int, fraction: int) -> int {
    if exponent == 0 {
        fraction
    } else {
        (pow2(23) + fraction) * pow2((exponent - 1) as nat)
    }
}

/// A finite single has the magnitude of the double: its least subnormal is that
/// of the doubles, nine hundred and twenty-five times doubled.
pub open spec fn same_magnitude(bits: int, exponent: int, fraction: int) -> bool {
    &&& 0 <= exponent < 255
    &&& 0 <= fraction < pow2(23)
    &&& double_magnitude(double_exponent(bits), double_fraction(bits)) == single_magnitude(
        exponent,
        fraction,
    ) * pow2(925)
}

proof fn lemma_low_bits(value: int, count: nat)
    requires
        value >= 0,
    ensures
        low_bits_zero(value, count) <==> value % (pow2(count) as int) == 0,
    decreases count,
{
    if count == 0 {
        lemma2_to64();
    } else {
        let less = (count - 1) as nat;
        lemma_low_bits(value / 2, less);
        lemma_pow2_unfold(count);
        lemma_pow2_pos(less);
        let p = pow2(less) as int;
        let half = value / 2;
        if value % 2 == 0 {
            assert(half * 2 == value);
            assert((half * 2) % (p * 2) == 0 <==> half % p == 0) by {
                lemma_common_factor(half, p, 2);
            }
        } else {
            assert(value % (2 * p) != 0) by {
                let q = value / (2 * p);
                if value % (2 * p) == 0 {
                    assert(value == 2 * (p * q)) by (nonlinear_arith)
                        requires
                            p > 0,
                            q == value / (2 * p),
                            value % (2 * p) == 0,
                    ;
                }
            }
        }
        assert(p * 2 == 2 * p);
    }
}

proof fn lemma_cut(value: int, a: nat, b: nat, other: int)
    requires
        value * pow2(a) == other * pow2(a + b),
    ensures
        value == other * pow2(b),
{
    lemma_pow2_adds(a, b);
    lemma_pow2_pos(a);
    let p = pow2(a) as int;
    let q = pow2(b) as int;
    assert(value == other * q) by (nonlinear_arith)
        requires
            p > 0,
            value * p == other * (p * q),
    ;
}

proof fn lemma_bounds(mantissa: int, width: nat, shift: nat)
    requires
        pow2(width) <= mantissa < pow2(width + 1),
    ensures
        pow2(width + shift) <= mantissa * pow2(shift) < pow2(width + 1 + shift),
{
    lemma_pow2_adds(width, shift);
    lemma_pow2_adds(width + 1, shift);
    lemma_pow2_pos(shift);
    let s = pow2(shift) as int;
    let low = pow2(width) as int;
    let high = pow2(width + 1) as int;
    assert(low * s <= mantissa * s < high * s) by (nonlinear_arith)
        requires
            s > 0,
            low <= mantissa < high,
    ;
}

proof fn lemma_up_to(a: nat, b: nat)
    requires
        a <= b,
    ensures
        pow2(a) <= pow2(b),
{
    if a < b {
        lemma_pow2_strictly_increases(a, b);
    }
}

/// Part of a whole that a power divides is divided by it where the rest is.
proof fn lemma_rest_divides(value: int, rest: nat, count: nat, part: int)
    requires
        value >= 0,
        count <= rest,
        pow2(rest) + value == part * pow2(count),
    ensures
        value % (pow2(count) as int) == 0,
{
    let more = (rest - count) as nat;
    lemma_pow2_adds(more, count);
    lemma_pow2_pos(count);
    let p = pow2(count) as int;
    let m = pow2(more) as int;
    assert(value == p * (part - m)) by (nonlinear_arith)
        requires
            m * p + value == part * p,
    ;
    vstd::arithmetic::div_mod::lemma_mod_multiples_basic(part - m, p);
    assert(p * (part - m) == (part - m) * p) by (nonlinear_arith);
}

proof fn lemma_exact_has_single(bits: int)
    requires
        single_exact(bits),
    ensures
        exists|exponent: int, fraction: int| same_magnitude(bits, exponent, fraction),
{
    let e = double_exponent(bits);
    let f = double_fraction(bits);
    lemma2_to64();
    lemma2_to64_rest();
    if e == 0 {
        lemma_pow2_pos(23);
        assert(0int * pow2(925) == 0);
        assert(same_magnitude(bits, 0, 0));
    } else if e >= 897 {
        lemma_low_bits(f, 29);
        let g = f / (pow2(29) as int);
        assert(f == g * 0x2000_0000 && 0 <= g < 0x80_0000);
        let shift = (e - 1) as nat;
        let less = (e - 897) as nat;
        lemma_pow2_adds(29, shift);
        lemma_pow2_adds(less, 925);
        let a = pow2(shift) as int;
        let b = pow2(less) as int;
        let c = pow2(925) as int;
        let m = 0x80_0000 + g;
        assert(29 + shift == less + 925);
        assert((m * 0x2000_0000) * a == (m * b) * c) by (nonlinear_arith)
            requires
                0x2000_0000 * a == b * c,
        ;
        assert(same_magnitude(bits, e - 896, g));
    } else {
        let count = (926 - e) as nat;
        lemma_low_bits(f, count);
        lemma_pow2_pos(count);
        let p = pow2(count) as int;
        let g = f / p;
        let more = (52 - count) as nat;
        lemma_pow2_adds(more, count);
        let m = pow2(more) as int;
        let sf = m + g;
        let shift = (e - 1) as nat;
        lemma_pow2_adds(count, shift);
        let a = pow2(shift) as int;
        assert(f == p * g) by (nonlinear_arith)
            requires
                p > 0,
                g == f / p,
                f % p == 0,
        ;
        assert(0 <= g < m) by (nonlinear_arith)
            requires
                p > 0,
                f == p * g,
                0 <= f < m * p,
        ;
        lemma_pow2_unfold(more + 1);
        lemma_up_to(more + 1, 23);
        assert((m * p + f) * a == sf * (p * a)) by (nonlinear_arith)
            requires
                f == p * g,
                sf == m + g,
        ;
        assert(same_magnitude(bits, 0, sf));
    }
}

proof fn lemma_single_is_exact(bits: int, exponent: int, fraction: int)
    requires
        double_finite(bits),
        same_magnitude(bits, exponent, fraction),
    ensures
        single_exact(bits),
{
    let e = double_exponent(bits);
    let f = double_fraction(bits);
    let unit = pow2(925) as int;
    let u = single_magnitude(exponent, fraction);
    lemma2_to64();
    lemma2_to64_rest();
    lemma_pow2_pos(925);
    if exponent > 0 {
        lemma_bounds(pow2(23) + fraction, 23, (exponent - 1) as nat);
        lemma_pow2_pos((23 + (exponent - 1)) as nat);
    }
    if e == 0 {
        lemma_up_to(52, 925);
        assert(f == 0) by (nonlinear_arith)
            requires
                f == u * unit,
                0 <= f < unit,
        ;
    } else {
        let shift = (e - 1) as nat;
        let whole = pow2(52) + f;
        lemma_bounds(whole, 52, shift);
        lemma_pow2_pos(52 + shift);
        assert(u >= 1) by (nonlinear_arith)
            requires
                u * unit > 0,
                unit > 0,
        ;
        if e < 874 {
            lemma_up_to(53 + shift, 925);
            assert(u * unit >= unit) by (nonlinear_arith)
                requires
                    u >= 1,
                    unit > 0,
            ;
        } else if e <= 896 {
            let count = (926 - e) as nat;
            lemma_cut(whole, shift, count, u);
            lemma_rest_divides(f, 52, count, u);
            lemma_low_bits(f, count);
        } else {
            lemma_up_to(948, 52 + shift);
            if exponent == 0 {
                lemma_pow2_adds(23, 925);
                let p = pow2(23) as int;
                assert(u * unit < p * unit) by (nonlinear_arith)
                    requires
                        u < p,
                        unit > 0,
                ;
            } else {
                let own = (exponent - 1) as nat;
                lemma_pow2_adds(own, 925);
                let m = pow2(23) + fraction;
                let s = pow2(own) as int;
                assert((m * s) * unit == m * (s * unit)) by (nonlinear_arith);
                lemma_bounds(m, 23, own + 925);
                if 53 + shift <= 23 + own + 925 {
                    lemma_up_to(53 + shift, 23 + (own + 925));
                }
                if 24 + own + 925 <= 52 + shift {
                    lemma_up_to(24 + (own + 925), 52 + shift);
                }
                assert(own + 925 == shift + 29);
                lemma_cut(whole, shift, 29, m);
                lemma_rest_divides(f, 52, 29, m);
                lemma_low_bits(f, 29);
            }
        }
    }
}

/// The bits of a double are its sign, its exponent and its fraction, from high to
/// low.
pub proof fn law_the_parts_of_a_double_are_its_bits(bits: int)
    requires
        0 <= bits < pow2(64),
    ensures
        0 <= double_exponent(bits) < pow2(11),
        0 <= double_fraction(bits) < pow2(52),
        bits - double_exponent(bits) * pow2(52) - double_fraction(bits) == 0 || bits
            - double_exponent(bits) * pow2(52) - double_fraction(bits) == pow2(63),
        double_finite(bits) <==> double_exponent(bits) != pow2(11) - 1,
{
    lemma2_to64();
    lemma2_to64_rest();
}

/// A double fits a single-precision target exactly where it is finite and some
/// single has its very magnitude: nothing is rounded, and nothing that could be
/// kept is refused.
pub proof fn law_exactly_the_singles_fit_a_single(bits: int)
    requires
        0 <= bits,
    ensures
        single_exact(bits) <==> double_finite(bits) && exists|exponent: int, fraction: int|
            same_magnitude(bits, exponent, fraction),
{
    if single_exact(bits) {
        lemma_exact_has_single(bits);
    }
    if double_finite(bits) && exists|exponent: int, fraction: int|
        same_magnitude(bits, exponent, fraction) {
        let (exponent, fraction) = choose|exponent: int, fraction: int|
            same_magnitude(bits, exponent, fraction);
        lemma_single_is_exact(bits, exponent, fraction);
    }
}

/// A value that a plan takes as a floating-point number is a double with the
/// magnitude of some single.
pub proof fn law_a_taken_double_is_a_single(plan: ColumnConversionPlan, value: LogicalValue)
    requires
        float_refusal(plan, value) is None,
    ensures
        value matches LogicalValue::Float { bits, ieee754_hex } && {
            &&& bits == 64
            &&& parse_hex(ieee754_hex@, u64::MAX as nat) matches Some(raw)
            &&& exists|exponent: int, fraction: int|
                same_magnitude(raw as int, exponent, fraction)
        },
{
    law_exactly_the_singles_fit_a_single(
        parse_hex(value->ieee754_hex@, u64::MAX as nat)->0 as int,
    );
}

} // verus!
