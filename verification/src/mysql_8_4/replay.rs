//! What is written at the target for a value that was captured.
use crate::change_event::compatibility::values::json_text::{
    fraction_part, or_zero, sign_of, DoubleText,
};
use crate::change_event::compatibility::values::numeric::{
    double_finite, integer_part, without_sign,
};
use crate::change_event::compatibility::values::temporal::{
    date_after, days_before, law_calendar_round_trip, law_days_round_trip, lemma_clock,
};
use crate::change_event::model::LogicalValue;
use crate::change_event::validate::days_in_month;
use crate::mysql_5_7::declaration::declared;
use crate::mysql_5_7::value::{
    binary_type, decimal_fault, decimal_parts, decoded_value, fraction_nanoseconds, labels_agree,
    lemma_fraction_of_microseconds, moment, moment_seconds, timestamp_parts, unscaled_text,
    value_fault, ColumnInfo,
};
use crate::mysql_8_4::error::SqlFault;
use crate::mysql_8_4::json_source::integer_source;
use crate::mysql_8_4::value::{bound, bound_decimal, bound_instant, single_finite, year_after};
use crate::mysql_source_contract::wire::{Bound, SqlValue};
use crate::number::{
    decimal, decimal_signed, law_decimal_round_trip, law_signed_decimal_round_trip,
    lemma_double_reads_back, lemma_single_reads_back, parse_signed, parse_unsigned, without_plus,
};
use crate::text::{
    ascii_digit, has_part, join, law_joining_undoes_splitting, lemma_first_index, lower,
    same_ignoring_case, texts,
};
use vstd::arithmetic::power2::{lemma2_to64, pow2};
use vstd::prelude::*;
use vstd::utf8::{decode_utf8, encode_utf8, is_ascii_chars, is_ascii_chars_encode_utf8};

verus! {

/// How a decimal is spelled: a sign where it is negative, at least one digit
/// before the point, and a point only where digits follow it.
pub open spec fn plain_spelling(text: Seq<char>) -> Seq<char> {
    let (whole, fraction) = decimal_parts(text);
    if fraction.len() == 0 {
        sign_of(text) + whole
    } else {
        sign_of(text) + or_zero(whole) + "."@ + fraction
    }
}

/// How many numbers the bytes of an integer column can hold.
pub open spec fn stored_numbers(data_type: Seq<char>) -> nat {
    let name = lower(data_type);
    if name == "tinyint"@ {
        pow2(8)
    } else if name == "smallint"@ {
        pow2(16)
    } else if name == "mediumint"@ {
        pow2(24)
    } else if name == "int"@ || name == "integer"@ {
        pow2(32)
    } else {
        pow2(64)
    }
}

/// What is written for a captured value that is not an instant given as a text:
/// the value itself, with an unsigned number read as such, a decimal spelled
/// plainly, a year as a number, and an hour of a later day carried into the
/// days. Nothing is written for numbers that are not finite, for decimals and
/// times that are too large, and for texts in a character set that the target
/// does not take.
pub open spec fn replayed(wire: SqlValue, info: ColumnInfo) -> Option<Bound> {
    let name = lower(info.data_type@);
    match wire {
        SqlValue::Null => None,
        SqlValue::Int(number) => if has_part(lower(info.native_type@), "unsigned"@) {
            Some(Bound::UInt((number as int % stored_numbers(info.data_type@) as int) as u64))
        } else {
            Some(wire@)
        },
        SqlValue::UInt(_) => Some(wire@),
        SqlValue::Float(bits) => if single_finite(bits as int) {
            Some(wire@)
        } else {
            None
        },
        SqlValue::Double(bits) => if double_finite(bits as int) {
            Some(wire@)
        } else {
            None
        },
        SqlValue::Date(year, month, day, ..) => if same_ignoring_case(info.data_type@, "date"@) {
            Some(Bound::Date(year, month, day, 0, 0, 0, 0))
        } else {
            Some(wire@)
        },
        SqlValue::Time(negative, days, hours, minutes, seconds, microsecond) => if days + hours / 24
            <= u32::MAX {
            Some(
                Bound::Time(
                    negative,
                    (days + hours / 24) as u32,
                    hours % 24,
                    minutes,
                    seconds,
                    microsecond,
                ),
            )
        } else {
            None
        },
        SqlValue::Bytes(bytes) => replayed_bytes(bytes@, info),
    }
}

/// What is written for a value that was captured as bytes.
pub open spec fn replayed_bytes(bytes: Seq<u8>, info: ColumnInfo) -> Option<Bound> {
    let name = lower(info.data_type@);
    if name == "timestamp"@ {
        None
    } else if name == "decimal"@ || name == "numeric"@ {
        let text = decode_utf8(bytes);
        let (whole, fraction) = decimal_parts(text);
        if whole.len() + fraction.len() <= 65 && fraction.len() <= 30 {
            Some(Bound::Bytes(encode_utf8(plain_spelling(text))))
        } else {
            None
        }
    } else if name == "year"@ {
        Some(Bound::UInt(parse_unsigned(decode_utf8(bytes), u16::MAX as nat)->0 as u64))
    } else if name == "enum"@ || name == "set"@ || name == "bit"@ || binary_type(name) {
        Some(Bound::Bytes(bytes))
    } else {
        match info.charset {
            Some(charset) => if lower(charset@) == "utf8"@ || lower(charset@) == "utf8mb4"@ {
                Some(Bound::Bytes(bytes))
            } else {
                None
            },
            None => None,
        }
    }
}

/// A captured value is written at the target as it was captured, wherever
/// something is written for it.
pub proof fn law_captured_values_are_written_back(
    value: LogicalValue,
    wire: SqlValue,
    info: ColumnInfo,
    doubles: Seq<DoubleText>,
)
    requires
        value_fault(wire, info) is None,
        decoded_value(value, wire, info),
        labels_agree(info),
        replayed(wire, info) is Some,
    ensures
        bound(value, doubles) == Ok::<_, SqlFault>(replayed(wire, info)->0),
{
    match wire {
        SqlValue::Null => {},
        SqlValue::Int(number) => {
            if has_part(lower(info.native_type@), "unsigned"@) {
                lemma2_to64();
                let rest = number as int % stored_numbers(info.data_type@) as int;
                law_decimal_round_trip(rest as nat, u64::MAX as nat);
            } else {
                law_signed_decimal_round_trip(number as int, i64::MIN as int, i64::MAX as int);
            }
        },
        SqlValue::UInt(number) => {
            law_decimal_round_trip(number as nat, u64::MAX as nat);
        },
        SqlValue::Float(bits) => {
            lemma_single_reads_back(bits);
        },
        SqlValue::Double(bits) => {
            lemma_double_reads_back(bits);
        },
        SqlValue::Date(year, month, day, hour, minute, second, microsecond) => {
            if same_ignoring_case(info.data_type@, "timestamp"@) && !same_ignoring_case(
                info.data_type@,
                "date"@,
            ) {
                lemma_moment_is_written_back(year, month, day, hour, minute, second, microsecond);
            }
        },
        SqlValue::Time(..) => {},
        SqlValue::Bytes(bytes) => {
            lemma_bytes_are_written_back(value, bytes, info, doubles);
        },
    }
}

proof fn lemma_moment_is_written_back(
    year: u16,
    month: u8,
    day: u8,
    hour: u8,
    minute: u8,
    second: u8,
    microsecond: u32,
)
    requires
        moment(year, month, day, hour, minute, second, microsecond),
    ensures
        bound_instant(
            decimal_signed(moment_seconds(year, month, day, hour, minute, second)),
            (microsecond * 1_000) as u32,
        ) == Ok::<_, SqlFault>(Bound::Date(year, month, day, hour, minute, second, microsecond)),
{
    let days = days_before(year as int, month as int, day as int);
    let clock = hour * 3_600 + minute * 60 + second;
    let seconds = moment_seconds(year, month, day, hour, minute, second);
    assert(1 <= month <= 12);
    assert(-1_000_000 <= days <= 30_000_000) by {
        lemma_days_bound(year as int, month as int, day as int);
    }
    assert(year_after(days) == year && date_after(days).1 == month && date_after(days).2 == day) by {
        law_calendar_round_trip(year as int, month as int, day as int);
    }
    assert(seconds / 86_400 == days && seconds % 86_400 == clock) by (nonlinear_arith)
        requires
            seconds == days * 86_400 + clock,
            0 <= clock < 86_400,
    ;
    law_signed_decimal_round_trip(seconds, i64::MIN as int, i64::MAX as int);
    lemma_signed_digits(seconds);
    lemma_clock(hour as int, minute as int, second as int);
}

/// The days of the years that sixteen bits hold.
proof fn lemma_days_bound(year: int, month: int, day: int)
    requires
        0 <= year <= 65_535,
        1 <= month <= 12,
        1 <= day <= 31,
    ensures
        -1_000_000 <= days_before(year, month, day) <= 30_000_000,
{
}

/// The decimal text of a number is an integer literal.
proof fn lemma_signed_digits(number: int)
    ensures
        integer_source(decimal_signed(number), true) == Ok::<_, Seq<char>>(decimal_signed(number)),
{
    if number < 0 {
        law_decimal_round_trip((-number) as nat, (-number) as nat);
        assert(without_sign(decimal_signed(number)) =~= decimal((-number) as nat));
    } else {
        law_decimal_round_trip(number as nat, number as nat);
        assert(ascii_digit(decimal(number as nat)[0]));
    }
}

proof fn lemma_bytes_are_written_back(
    value: LogicalValue,
    bytes: Vec<u8>,
    info: ColumnInfo,
    doubles: Seq<DoubleText>,
)
    requires
        value_fault(SqlValue::Bytes(bytes), info) is None,
        decoded_value(value, SqlValue::Bytes(bytes), info),
        labels_agree(info),
        replayed_bytes(bytes@, info) is Some,
    ensures
        bound(value, doubles) == Ok::<_, SqlFault>(replayed_bytes(bytes@, info)->0),
{
    let name = lower(info.data_type@);
    lemma_names_differ();
    if name == "decimal"@ || name == "numeric"@ {
        lemma_decimal_is_written_back(decode_utf8(bytes@));
    }
    if name == "enum"@ || name == "set"@ {
        let text = decode_utf8(bytes@);
        vstd::utf8::decode_utf8_encode_utf8(bytes@);
        if declared(info.native_type@)->Ok_0.base != "enum"@ {
            let members = value->SetValue_members;
            reveal_strlit(",");
            assert(","@ =~= seq![',']);
            if text.len() == 0 {
                assert(join(texts(members@), ","@) =~= text);
            } else {
                law_joining_undoes_splitting(text, ',');
            }
        }
    }
}

/// A decimal that fits the target is written with the digits that it was
/// captured with.
proof fn lemma_decimal_is_written_back(text: Seq<char>)
    requires
        decimal_fault(text) is None,
        decimal_parts(text).0.len() + decimal_parts(text).1.len() <= 65,
        decimal_parts(text).1.len() <= 30,
    ensures
        bound_decimal(unscaled_text(text), decimal_parts(text).1.len() as usize) == Ok::<
            _,
            SqlFault,
        >(Bound::Bytes(encode_utf8(plain_spelling(text)))),
{
    let (whole, fraction) = decimal_parts(text);
    let digits = whole + fraction;
    let unscaled = unscaled_text(text);
    reveal_strlit("-");
    assert(ascii_digit(digits[0]));
    assert(without_sign(unscaled) =~= digits);
    assert(sign_of(unscaled) == sign_of(text));
    assert forall|i: int| 0 <= i < digits.len() implies (#[trigger] digits[i]) as nat <= 127 by {
        assert(ascii_digit(digits[i]));
    }
    assert(is_ascii_chars(digits));
    is_ascii_chars_encode_utf8(digits);
    let scale = fraction.len() as int;
    assert(integer_part(digits, scale) =~= whole);
    assert(fraction_part(digits, scale) =~= fraction);
    if scale == 0 {
        assert(digits =~= whole);
    }
}

/// A decimal that is spelled plainly is written as it is spelled.
pub proof fn law_plain_decimals_keep_their_spelling(text: Seq<char>)
    requires
        decimal_fault(text) is None,
        text[0] != '+',
        decimal_parts(text).0.len() > 0,
        text.last() != '.',
    ensures
        plain_spelling(text) == text,
{
    let rest = without_sign(text);
    lemma_first_index(rest, '.');
    reveal_strlit("-");
    reveal_strlit("");
    reveal_strlit(".");
    assert(plain_spelling(text) =~= text);
}

/// An instant that was captured as a text is written as the local time of the
/// zone UTC that lies these seconds and this fraction of a second after the
/// epoch.
pub proof fn law_captured_instants_are_written_back(
    value: LogicalValue,
    bytes: Vec<u8>,
    info: ColumnInfo,
    doubles: Seq<DoubleText>,
)
    requires
        lower(info.data_type@) == "timestamp"@,
        value_fault(SqlValue::Bytes(bytes), info) is None,
        decoded_value(value, SqlValue::Bytes(bytes), info),
    ensures
        bound(value, doubles) matches Ok(
            Bound::Date(year, month, day, hour, minute, second, microsecond),
        ) && {
            let (seconds, fraction) = timestamp_parts(decode_utf8(bytes@));
            &&& moment(year, month, day, hour, minute, second, microsecond)
            &&& moment_seconds(year, month, day, hour, minute, second) == parse_unsigned(
                seconds,
                u32::MAX as nat,
            )->0
            &&& microsecond * 1_000 == fraction_nanoseconds(fraction)
        },
{
    lemma_names_differ();
    let (seconds, fraction) = timestamp_parts(decode_utf8(bytes@));
    lemma_fraction_of_microseconds(fraction);
    lemma_instant_is_written_back(seconds, value->nanoseconds);
}

proof fn lemma_instant_is_written_back(seconds: Seq<char>, nanoseconds: u32)
    requires
        parse_unsigned(seconds, u32::MAX as nat) is Some,
        nanoseconds < 1_000_000_000,
        nanoseconds % 1_000 == 0,
    ensures
        bound_instant(seconds, nanoseconds) matches Ok(
            Bound::Date(year, month, day, hour, minute, second, microsecond),
        ) && {
            &&& moment(year, month, day, hour, minute, second, microsecond)
            &&& moment_seconds(year, month, day, hour, minute, second) == parse_unsigned(
                seconds,
                u32::MAX as nat,
            )->0
            &&& microsecond * 1_000 == nanoseconds
        },
{
    let number = parse_unsigned(seconds, u32::MAX as nat)->0 as int;
    assert(ascii_digit(without_plus(seconds)[0]));
    assert(parse_signed(seconds, i64::MIN as int, i64::MAX as int) == Some(number));
    assert(without_sign(seconds) == without_plus(seconds));
    let days = number / 86_400;
    let (march_year, month, day) = date_after(days);
    let year = year_after(days);
    assert(1 <= month <= 12 && 1 <= day <= days_in_month(year, month) && days_before(
        year,
        month,
        day,
    ) == days) by {
        law_days_round_trip(days);
    }
    assert(1_970 <= year <= 2_107) by {
        lemma_recent_year(days);
    }
    lemma_clock_of(number % 86_400);
}

/// The hours, minutes and seconds of a day are those of its clock.
proof fn lemma_clock_of(clock: int)
    requires
        0 <= clock < 86_400,
    ensures
        0 <= clock / 3_600 < 24,
        0 <= (clock % 3_600) / 60 < 60,
        0 <= clock % 60 < 60,
        (clock / 3_600) * 3_600 + ((clock % 3_600) / 60) * 60 + clock % 60 == clock,
{
}

/// The years that thirty-two bits of seconds reach.
proof fn lemma_recent_year(days: int)
    requires
        0 <= days <= 49_711,
    ensures
        1_970 <= year_after(days) <= 2_107,
{
}

proof fn lemma_names_differ()
    ensures
        "timestamp"@ != "enum"@,
        "timestamp"@ != "set"@,
        "timestamp"@ != "decimal"@,
        "timestamp"@ != "numeric"@,
        "decimal"@ != "enum"@,
        "decimal"@ != "set"@,
        "numeric"@ != "enum"@,
        "numeric"@ != "set"@,
        "year"@ != "enum"@,
        "year"@ != "set"@,
{
    reveal_strlit("timestamp");
    reveal_strlit("year");
    reveal_strlit("enum");
    reveal_strlit("set");
    reveal_strlit("decimal");
    reveal_strlit("numeric");
    assert("timestamp"@.len() == 9 && "enum"@.len() == 4 && "set"@.len() == 3 && "decimal"@.len()
        == 7 && "numeric"@.len() == 7 && "year"@.len() == 4);
    assert("year"@[0] != "enum"@[0]);
}

} // verus!
