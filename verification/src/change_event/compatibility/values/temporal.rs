//! Dates and times against a plan, and the calendar.
use crate::change_event::compatibility::plan::ColumnConversionPlan;
use crate::change_event::compatibility::values::refusal::{
    holds, refusal_of, refuse, unsigned, Refusal, RefusalText,
};
use crate::change_event::model::{logical_value_doc, LogicalValue};
use crate::change_event::validate::{days_in_month, leap_year};
use crate::json::Contract;
use crate::number::{
    decimal_signed, decimal_text_signed, parse_i32, parse_i64, parse_signed, parse_u8, ten_to,
};
use crate::text::{
    chars_of, eq_ignore_case, same, same_ignoring_case, split_at_first, split_once, text_between,
};
use vstd::prelude::*;

verus! {

// ---------------------------------------------------------------------------
// The calendar
// ---------------------------------------------------------------------------

/// The days from 1970-01-01 to a date of the proleptic Gregorian calendar.
/// Years begin in March, so that a leap day ends one.
pub open spec fn days_before(year: int, month: int, day: int) -> int {
    let shifted = if month <= 2 {
        year - 1
    } else {
        year
    };
    let era = shifted / 400;
    let year_of_era = shifted - era * 400;
    let month_from_march = if month > 2 {
        month - 3
    } else {
        month + 9
    };
    let day_of_year = (153 * month_from_march + 2) / 5 + day - 1;
    era * 146_097 + year_of_era * 365 + year_of_era / 4 - year_of_era / 100 + day_of_year - 719_468
}

/// The date a number of days after 1970-01-01, before its year is cut to a
/// machine word.
pub open spec fn date_after(days: int) -> (int, int, int) {
    let z = days + 719_468;
    let era = z / 146_097;
    let day_of_era = z - era * 146_097;
    let year_of_era = (day_of_era - day_of_era / 1_460 + day_of_era / 36_524 - day_of_era / 146_096)
        / 365;
    let day_of_year = day_of_era - (365 * year_of_era + year_of_era / 4 - year_of_era / 100);
    let month_part = (5 * day_of_year + 2) / 153;
    let day = day_of_year - (153 * month_part + 2) / 5 + 1;
    let month = if month_part < 10 {
        month_part + 3
    } else {
        month_part - 9
    };
    (year_of_era + era * 400, month, day)
}

/// A number cut to thirty-two bits.
pub open spec fn cut_32(value: int) -> int {
    (value + 0x8000_0000) % 0x1_0000_0000 - 0x8000_0000
}

/// The year of a date: it begins in January.
pub open spec fn calendar_year(march_year: int, month: int) -> int {
    cut_32(march_year) + if month <= 2 {
        1int
    } else {
        0int
    }
}

fn floor_quotient(value: i64, divisor: i64) -> (result: i64)
    requires
        0 < divisor,
        value > i64::MIN,
    ensures
        result as int == value as int / divisor as int,
        result as int * divisor as int <= value as int,
        (value as int) < (result as int + 1) * divisor as int,
{
    let quotient: i64 = if value >= 0 {
        value / divisor
    } else {
        -((-(value + 1)) / divisor) - 1
    };
    proof {
        let v = value as int;
        let d = divisor as int;
        if v >= 0 {
            assert(quotient as int == v / d);
            assert(v == d * (v / d) + v % d && 0 <= v % d < d) by (nonlinear_arith)
                requires
                    d > 0,
            ;
            assert((quotient as int) * d <= v && v < (quotient as int + 1) * d)
                by (nonlinear_arith)
                requires
                    v == d * (v / d) + v % d,
                    0 <= v % d < d,
                    quotient as int == v / d,
            ;
        } else {
            let w = -(v + 1);
            let q = w / d;
            assert(w == d * q + w % d && 0 <= w % d < d) by (nonlinear_arith)
                requires
                    d > 0,
                    q == w / d,
            ;
            assert(quotient as int == -q - 1);
            assert((quotient as int) * d <= v && v < (quotient as int + 1) * d)
                by (nonlinear_arith)
                requires
                    w == d * q + w % d,
                    0 <= w % d < d,
                    w == -(v + 1),
                    quotient as int == -q - 1,
            ;
            let r = v - (quotient as int) * d;
            assert(v / d == quotient as int) by (nonlinear_arith)
                requires
                    d > 0,
                    (quotient as int) * d <= v,
                    v < (quotient as int + 1) * d,
            ;
        }
    }
    quotient
}

pub(crate) fn days_from_civil(year: u16, month: u8, day: u8) -> (result: i64)
    ensures
        result as int == days_before(year as int, month as int, day as int),
        -1_000_000 <= result <= 100_000_000,
{
    let shifted: i64 = if month <= 2 {
        year as i64 - 1
    } else {
        year as i64
    };
    let era: i64 = floor_quotient(shifted, 400);
    let year_of_era: i64 = shifted - era * 400;
    let month_from_march: i64 = if month > 2 {
        month as i64 - 3
    } else {
        month as i64 + 9
    };
    let day_of_year: i64 = (153 * month_from_march + 2) / 5 + day as i64 - 1;
    era * 146_097 + year_of_era * 365 + year_of_era / 4 - year_of_era / 100 + day_of_year - 719_468
}

/// The shifted year, the month and the day.
pub(crate) fn civil_from_days(days: i64) -> (result: (i64, u8, u8))
    requires
        -200_000_000_000_000 <= days <= 200_000_000_000_000,
    ensures
        (result.0 as int, result.1 as int, result.2 as int) == date_after(days as int),
        -1_000_000_000_000 <= result.0 <= 1_000_000_000_000,
{
    let z: i64 = days + 719_468;
    let era: i64 = floor_quotient(z, 146_097);
    let day_of_era: i64 = z - era * 146_097;
    let year_of_era: i64 = (day_of_era - day_of_era / 1_460 + day_of_era / 36_524 - day_of_era
        / 146_096) / 365;
    proof {
        lemma_year_of_era(day_of_era as int);
    }
    let day_of_year: i64 = day_of_era - (365 * year_of_era + year_of_era / 4 - year_of_era / 100);
    let month_part: i64 = (5 * day_of_year + 2) / 153;
    let day: i64 = day_of_year - (153 * month_part + 2) / 5 + 1;
    let month: i64 = if month_part < 10 {
        month_part + 3
    } else {
        month_part - 9
    };
    (year_of_era + era * 400, month as u8, day as u8)
}

/// The year of an era and the day of that year stay in their ranges.
proof fn lemma_year_of_era(day_of_era: int)
    requires
        0 <= day_of_era < 146_097,
    ensures
        ({
            let y = (day_of_era - day_of_era / 1_460 + day_of_era / 36_524 - day_of_era / 146_096)
                / 365;
            let d = day_of_era - (365 * y + y / 4 - y / 100);
            0 <= y <= 399 && 0 <= d <= 365
        }),
{
}

/// A date that is turned into days and back is the same date.
pub proof fn law_calendar_round_trip(year: int, month: int, day: int)
    requires
        1 <= month <= 12,
        1 <= day <= days_in_month(year, month),
    ensures
        ({
            let (march_year, back_month, back_day) = date_after(days_before(year, month, day));
            &&& march_year + (if back_month <= 2 {
                1int
            } else {
                0int
            }) == year
            &&& back_month == month
            &&& back_day == day
        }),
{
    let shifted = if month <= 2 {
        year - 1
    } else {
        year
    };
    let era = shifted / 400;
    let y = shifted - era * 400;
    let m = if month > 2 {
        month - 3
    } else {
        month + 9
    };
    let d = (153 * m + 2) / 5 + day - 1;
    let e = y * 365 + y / 4 - y / 100 + d;
    lemma_day_of_year(year, month, day);
    if d == 365 {
        lemma_leap_of_era(shifted);
    }
    lemma_days_of_era(y, d);
    lemma_month_of_year(m, day);
    let days = days_before(year, month, day);
    assert(days + 719_468 == era * 146_097 + e);
    lemma_date_after(days, era, y, m, day);
}

/// Days that are turned into a date and back are the same days, and the date is
/// one of the calendar.
pub proof fn law_days_round_trip(days: int)
    ensures
        ({
            let (march_year, month, day) = date_after(days);
            let year = march_year + (if month <= 2 {
                1int
            } else {
                0int
            });
            &&& 1 <= month <= 12
            &&& 1 <= day <= days_in_month(year, month)
            &&& days_before(year, month, day) == days
        }),
{
    let z = days + 719_468;
    let era = z / 146_097;
    let e = z - era * 146_097;
    let y = (e - e / 1_460 + e / 36_524 - e / 146_096) / 365;
    let d = e - (365 * y + y / 4 - y / 100);
    let (march_year, month, day) = date_after(days);
    lemma_year_of_era(e);
    lemma_last_day_of_era_year(e);
    assert(march_year / 400 == era);
    lemma_day_of_march_year(d);
    if d == 365 {
        assert(leap_year(march_year + 1));
    }
}

/// The date that follows a date of the calendar.
pub open spec fn next_date(year: int, month: int, day: int) -> (int, int, int) {
    if day < days_in_month(year, month) {
        (year, month, day + 1)
    } else if month < 12 {
        (year, month + 1, 1)
    } else {
        (year + 1, 1, 1)
    }
}

/// Days are counted one by one: the first of January 1970 has the number zero,
/// and the date after a date has the next number.
pub proof fn law_the_next_date_has_the_next_number(year: int, month: int, day: int)
    requires
        1 <= month <= 12,
        1 <= day <= days_in_month(year, month),
    ensures
        days_before(1970, 1, 1) == 0,
        ({
            let (next_year, next_month, next_day) = next_date(year, month, day);
            days_before(next_year, next_month, next_day) == days_before(year, month, day) + 1
        }),
{
    if month == 2 && day == days_in_month(year, month) {
        lemma_year_ends_with_february(year);
    }
}

/// The first of March follows the last day of February.
proof fn lemma_year_ends_with_february(year: int)
    ensures
        days_before(year, 3, 1) == days_before(year, 2, days_in_month(year, 2)) + 1,
{
    let era = (year - 1) / 400;
    let y = (year - 1) - era * 400;
    assert(leap_year(year) == ((y + 1) % 4 == 0 && ((y + 1) % 100 != 0 || y == 399)));
    if y == 399 {
        assert(year / 400 == era + 1);
    } else {
        assert(year / 400 == era);
    }
}

/// Only a leap year has a last day.
proof fn lemma_last_day_of_era_year(e: int)
    requires
        0 <= e < 146_097,
    ensures
        ({
            let y = (e - e / 1_460 + e / 36_524 - e / 146_096) / 365;
            e - (365 * y + y / 4 - y / 100) == 365 ==> (y + 1) % 4 == 0 && ((y + 1) % 100 != 0 || y
                == 399)
        }),
{
}

proof fn lemma_day_of_march_year(d: int)
    requires
        0 <= d <= 365,
    ensures
        ({
            let m = (5 * d + 2) / 153;
            let day = d - (153 * m + 2) / 5 + 1;
            &&& 0 <= m <= 11
            &&& 1 <= day <= 31
            &&& m == 1 || m == 3 || m == 6 || m == 8 ==> day <= 30
            &&& m == 11 ==> day <= 29 && (day == 29 ==> d == 365)
        }),
{
}

proof fn lemma_day_of_year(year: int, month: int, day: int)
    requires
        1 <= month <= 12,
        1 <= day <= days_in_month(year, month),
    ensures
        ({
            let m = if month > 2 {
                month - 3
            } else {
                month + 9
            };
            let d = (153 * m + 2) / 5 + day - 1;
            &&& 0 <= d <= 365
            &&& d == 365 ==> month == 2 && leap_year(year)
            &&& day <= 31
            &&& m == 1 || m == 3 || m == 6 || m == 8 ==> day <= 30
            &&& m == 11 ==> day <= 29
        }),
{
}

proof fn lemma_leap_of_era(shifted: int)
    requires
        leap_year(shifted + 1),
    ensures
        ({
            let y = shifted - (shifted / 400) * 400;
            &&& (y + 1) % 4 == 0
            &&& (y + 1) % 100 != 0 || y == 399
        }),
{
}

/// The parts of the days since the first era give the date.
proof fn lemma_date_after(days: int, era: int, y: int, m: int, day: int)
    requires
        0 <= m <= 11,
        ({
            let d = (153 * m + 2) / 5 + day - 1;
            let e = y * 365 + y / 4 - y / 100 + d;
            &&& days + 719_468 == era * 146_097 + e
            &&& 0 <= e < 146_097
            &&& (e - e / 1_460 + e / 36_524 - e / 146_096) / 365 == y
            &&& (5 * d + 2) / 153 == m
        }),
    ensures
        date_after(days) == (
            y + era * 400,
            if m < 10 {
                m + 3
            } else {
                m - 9
            },
            day,
        ),
{
    let d = (153 * m + 2) / 5 + day - 1;
    let e = y * 365 + y / 4 - y / 100 + d;
    let z = days + 719_468;
    assert(z / 146_097 == era) by (nonlinear_arith)
        requires
            z == era * 146_097 + e,
            0 <= e < 146_097,
    ;
}

/// The days of an era tell the year and the day of the year.
proof fn lemma_days_of_era(y: int, d: int)
    requires
        0 <= y < 400,
        0 <= d <= 365,
        d == 365 ==> (y + 1) % 4 == 0 && ((y + 1) % 100 != 0 || y == 399),
    ensures
        ({
            let e = y * 365 + y / 4 - y / 100 + d;
            &&& 0 <= e < 146_097
            &&& (e - e / 1_460 + e / 36_524 - e / 146_096) / 365 == y
        }),
{
    // The year is split into centuries, leap cycles and single years.
    let c = y / 100;
    let q = (y % 100) / 4;
    let s = y % 4;
    assert(y == 100 * c + 4 * q + s && 0 <= c <= 3 && 0 <= q <= 24 && 0 <= s <= 3);
    assert(y / 4 == 25 * c + q);
    let e = y * 365 + y / 4 - y / 100 + d;
    lemma_era_parts(c, q, s, d, e);
}

proof fn lemma_era_parts(c: int, q: int, s: int, d: int, e: int)
    requires
        0 <= c <= 3,
        0 <= q <= 24,
        0 <= s <= 3,
        0 <= d <= 365,
        d == 365 ==> s == 3 && (q != 24 || c == 3),
        e == 36_524 * c + 1_461 * q + 365 * s + d,
    ensures
        0 <= e < 146_097,
        (e - e / 1_460 + e / 36_524 - e / 146_096) / 365 == 100 * c + 4 * q + s,
{
    let w = 1_461 * q + 365 * s + d;
    assert(0 <= w <= 36_524);
    assert(e / 36_524 - e / 146_096 == c) by {
        if w == 36_524 {
            assert(c == 3 && e == 146_096);
        } else {
            assert(e / 36_524 == c);
            assert(e < 146_096);
        }
    }
    let t = 24 * c + q + 365 * s + d;
    assert(e == 1_460 * (25 * c + q) + t && 0 <= t < 2_920);
    let carry: int = if t >= 1_460 {
        1
    } else {
        0
    };
    assert(e / 1_460 == 25 * c + q + carry);
    let x = e - e / 1_460 + e / 36_524 - e / 146_096;
    assert(x == 365 * (100 * c + 4 * q + s) + (d - carry));
    assert(0 <= d - carry < 365);
}

/// The day of a year tells the month and the day of the month.
proof fn lemma_month_of_year(m: int, day: int)
    requires
        0 <= m <= 11,
        1 <= day <= 31,
        m == 1 || m == 3 || m == 6 || m == 8 ==> day <= 30,
        m == 11 ==> day <= 29,
    ensures
        ({
            let d = (153 * m + 2) / 5 + day - 1;
            &&& (5 * d + 2) / 153 == m
        }),
{
}

// ---------------------------------------------------------------------------
// Precision and time zones
// ---------------------------------------------------------------------------

/// The precision of a plan's target, where it is one.
pub open spec fn temporal_precision(plan: ColumnConversionPlan) -> Option<nat> {
    match unsigned(plan.target.parameters.value_of("target_precision"@), 255) {
        Some(precision) if precision <= 6 => Some(precision),
        _ => None,
    }
}

/// A temporal kind that a parameter names; nothing where there is none.
pub open spec fn temporal_kind(plan: ColumnConversionPlan, name: Seq<char>) -> Seq<char> {
    match plan.target.parameters.value_of(name) {
        Some(kind) => kind,
        None => ""@,
    }
}

/// The kinds of a plan's source and target.
pub open spec fn converts(
    plan: ColumnConversionPlan,
    source: Seq<char>,
    target: Seq<char>,
) -> bool {
    temporal_kind(plan, "source_temporal_kind"@) == source && temporal_kind(
        plan,
        "target_temporal_kind"@,
    ) == target
}

/// Why a fraction with so many places does not fit a precision.
pub open spec fn precision_refusal(fraction: u32, places: nat, precision: nat) -> Option<
    RefusalText,
> {
    if fraction as nat % ten_to((places - precision) as nat) != 0 {
        Some(
            (
                "target_capability.temporal_precision_loss"@,
                "temporal conversion would discard non-zero fractional precision"@,
            ),
        )
    } else {
        None
    }
}

/// The time zone that a plan has chosen.
pub open spec fn chosen_zone(plan: ColumnConversionPlan) -> Option<Seq<char>> {
    match plan.parameters.value_of("time_zone"@) {
        Some(zone) => Some(zone),
        None => plan.parameters.value_of("timezone"@),
    }
}

/// The parts of an offset such as +08:00: whether it is positive, its hours and
/// its minutes.
pub open spec fn zone_parts(zone: Seq<char>) -> Result<(bool, int, int), Seq<char>> {
    if !(zone.len() > 0 && (zone[0] == '+' || zone[0] == '-')) {
        Err("time zone must be UTC or a fixed offset such as +08:00"@)
    } else {
        match split_once(zone.drop_first(), ':') {
            None => Err("time zone must use a fixed +HH:MM or -HH:MM offset"@),
            Some((hours, minutes)) => match parse_signed(
                hours,
                i32::MIN as int,
                i32::MAX as int,
            ) {
                None => Err("time zone hour is invalid"@),
                Some(h) => match parse_signed(minutes, i32::MIN as int, i32::MAX as int) {
                    None => Err("time zone minute is invalid"@),
                    Some(m) => if h > 23 || m > 59 {
                        Err("time zone offset is outside its qualified range"@)
                    } else {
                        Ok((zone[0] == '+', h, m))
                    },
                },
            },
        }
    }
}

/// A zone that stands for no offset.
pub open spec fn utc(zone: Seq<char>) -> bool {
    same_ignoring_case(zone, "utc"@) || zone == "Z"@
}

/// The offset of a zone in seconds.
pub open spec fn zone_offset(zone: Seq<char>) -> Result<int, Seq<char>> {
    if utc(zone) {
        Ok(0int)
    } else {
        match zone_parts(zone) {
            Err(message) => Err(message),
            Ok((positive, h, m)) => Ok(
                if positive {
                    h * 3_600 + m * 60
                } else {
                    -(h * 3_600 + m * 60)
                },
            ),
        }
    }
}

/// The offset of a zone can be computed with thirty-two bits.
pub open spec fn zone_fits(zone: Seq<char>) -> bool {
    utc(zone) || match zone_parts(zone) {
        Err(_) => true,
        Ok((positive, h, m)) => {
            &&& i32::MIN <= h * 3_600
            &&& i32::MIN <= m * 60
            &&& i32::MIN <= h * 3_600 + m * 60
            &&& !positive ==> i32::MIN < h * 3_600 + m * 60
        },
    }
}

/// The offset of a plan's time zone, or why it has none.
pub open spec fn plan_offset(plan: ColumnConversionPlan) -> Result<int, RefusalText> {
    match chosen_zone(plan) {
        None => Err(
            (
                "target_capability.timezone_missing"@,
                "a fixed source time zone is required for local/absolute conversion"@,
            ),
        ),
        Some(zone) => match zone_offset(zone) {
            Ok(offset) => Ok(offset),
            Err(message) => Err(("target_capability.timezone_invalid"@, message)),
        },
    }
}

/// The offset of a plan's time zone can be computed with thirty-two bits.
pub open spec fn offset_fits(plan: ColumnConversionPlan) -> bool {
    chosen_zone(plan) matches Some(zone) ==> zone_fits(zone)
}

/// Why a plan's time zone is not enough.
pub open spec fn offset_refusal(plan: ColumnConversionPlan) -> Option<RefusalText> {
    match plan_offset(plan) {
        Ok(_) => None,
        Err(refusal) => Some(refusal),
    }
}

/// Why a plan is not enough for temporal values.
pub open spec fn temporal_rule_refusal(plan: ColumnConversionPlan) -> Option<RefusalText> {
    if temporal_precision(plan) is None {
        Some(
            (
                "target_capability.temporal_precision_invalid"@,
                "the target temporal precision is missing or invalid"@,
            ),
        )
    } else if plan.parameters.value_of("precision_policy"@) != Some("reject"@) {
        Some(
            (
                "target_capability.temporal_precision_policy_missing"@,
                "temporal precision conversion must reject non-zero discarded precision"@,
            ),
        )
    } else {
        None
    }
}

pub open spec fn temporal_mismatch() -> Option<RefusalText> {
    Some(
        (
            "target_capability.temporal_type_mismatch"@,
            "the captured temporal value does not match the saved conversion strategy"@,
        ),
    )
}

/// Why a fraction or the time zone of a plan refuses a conversion between local
/// and absolute time.
pub open spec fn mixed_refusal(
    plan: ColumnConversionPlan,
    fraction: u32,
    places: nat,
) -> Option<RefusalText> {
    match precision_refusal(fraction, places, temporal_precision(plan)->0) {
        Some(refusal) => Some(refusal),
        None => offset_refusal(plan),
    }
}

/// Why a plan refuses a value as a temporal one.
pub open spec fn temporal_refusal(plan: ColumnConversionPlan, value: LogicalValue) -> Option<
    RefusalText,
> {
    match temporal_rule_refusal(plan) {
        Some(refusal) => Some(refusal),
        None => match value {
            LogicalValue::LocalDatetime { microsecond, .. } => if converts(
                plan,
                "local_datetime"@,
                "local_datetime"@,
            ) {
                precision_refusal(microsecond, 6, temporal_precision(plan)->0)
            } else if converts(plan, "local_datetime"@, "instant"@) {
                mixed_refusal(plan, microsecond, 6)
            } else {
                temporal_mismatch()
            },
            LogicalValue::Instant { nanoseconds, .. } => if converts(
                plan,
                "instant"@,
                "instant"@,
            ) {
                precision_refusal(nanoseconds, 9, temporal_precision(plan)->0)
            } else if converts(plan, "instant"@, "local_datetime"@) {
                mixed_refusal(plan, nanoseconds, 9)
            } else {
                temporal_mismatch()
            },
            LogicalValue::Duration { microsecond, .. } => if converts(
                plan,
                "duration"@,
                "duration"@,
            ) {
                precision_refusal(microsecond, 6, temporal_precision(plan)->0)
            } else {
                temporal_mismatch()
            },
            _ => temporal_mismatch(),
        },
    }
}

/// The validation of a value reads the time zone of its plan.
pub open spec fn reads_zone(plan: ColumnConversionPlan, value: LogicalValue) -> bool {
    temporal_rule_refusal(plan) is None && match value {
        LogicalValue::LocalDatetime { microsecond, .. } => converts(
            plan,
            "local_datetime"@,
            "instant"@,
        ) && precision_refusal(microsecond, 6, temporal_precision(plan)->0) is None,
        LogicalValue::Instant { nanoseconds, .. } => converts(plan, "instant"@, "local_datetime"@)
            && precision_refusal(nanoseconds, 9, temporal_precision(plan)->0) is None,
        _ => false,
    }
}

fn power_of_ten(places: u8) -> (result: u32)
    requires
        places <= 9,
    ensures
        result as nat == ten_to(places as nat),
        result > 0,
{
    proof {
        reveal_with_fuel(ten_to, 10);
    }
    match places {
        0 => 1,
        1 => 10,
        2 => 100,
        3 => 1_000,
        4 => 10_000,
        5 => 100_000,
        6 => 1_000_000,
        7 => 10_000_000,
        8 => 100_000_000,
        _ => 1_000_000_000,
    }
}

fn check_precision(fraction: u32, places: u8, precision: u8) -> (result: Result<(), Refusal>)
    requires
        precision <= places <= 9,
    ensures
        refusal_of(result) == precision_refusal(fraction, places as nat, precision as nat),
{
    let factor: u32 = power_of_ten(places - precision);
    if fraction % factor != 0 {
        return Err(
            refuse(
                "target_capability.temporal_precision_loss",
                "temporal conversion would discard non-zero fractional precision",
            ),
        );
    }
    Ok(())
}

fn invalid_zone(message: &str) -> (result: Refusal)
    ensures
        result.code@ == "target_capability.timezone_invalid"@,
        result.message@ == message@,
{
    refuse("target_capability.timezone_invalid", message)
}

/// The offset of a zone in seconds, or what is wrong with the zone.
pub(crate) fn parse_zone(zone: &str) -> (result: Result<i32, &'static str>)
    requires
        zone_fits(zone@),
    ensures
        match result {
            Ok(offset) => zone_offset(zone@) == Ok::<int, Seq<char>>(offset as int),
            Err(message) => zone_offset(zone@) == Err::<int, Seq<char>>(message@),
        },
{
    if eq_ignore_case(zone, "utc") || same(zone, "Z") {
        return Ok(0);
    }
    let chars = chars_of(zone);
    if chars.len() == 0 || !(chars[0] == '+' || chars[0] == '-') {
        return Err("time zone must be UTC or a fixed offset such as +08:00");
    }
    let positive = chars[0] == '+';
    let rest = text_between(&chars, 1, chars.len());
    assert(rest@ =~= zone@.drop_first());
    let (hours, minutes) = match split_at_first(rest.as_str(), ':') {
        Some(parts) => parts,
        None => {
            return Err("time zone must use a fixed +HH:MM or -HH:MM offset");
        },
    };
    let h: i32 = match parse_i32(hours.as_str()) {
        Some(h) => h,
        None => {
            return Err("time zone hour is invalid");
        },
    };
    let m: i32 = match parse_i32(minutes.as_str()) {
        Some(m) => m,
        None => {
            return Err("time zone minute is invalid");
        },
    };
    if h > 23 || m > 59 {
        return Err("time zone offset is outside its qualified range");
    }
    let seconds: i32 = h * 3_600 + m * 60;
    if positive {
        Ok(seconds)
    } else {
        Ok(-seconds)
    }
}

pub(crate) fn parse_timezone_offset(plan: &ColumnConversionPlan) -> (result: Result<i32, Refusal>)
    requires
        offset_fits(*plan),
    ensures
        match result {
            Ok(offset) => plan_offset(*plan) == Ok::<int, RefusalText>(offset as int),
            Err(refusal) => plan_offset(*plan) == Err::<int, RefusalText>(
                (refusal.code@, refusal.message@),
            ),
        },
{
    let chosen = match plan.parameters.get("time_zone") {
        Some(zone) => Some(zone),
        None => plan.parameters.get("timezone"),
    };
    let zone = match chosen {
        Some(zone) => zone,
        None => {
            return Err(
                refuse(
                    "target_capability.timezone_missing",
                    "a fixed source time zone is required for local/absolute conversion",
                ),
            );
        },
    };
    match parse_zone(zone) {
        Ok(offset) => Ok(offset),
        Err(message) => Err(invalid_zone(message)),
    }
}

fn is_kind(plan: &ColumnConversionPlan, name: &str, kind: &str) -> (result: bool)
    ensures
        result == (temporal_kind(*plan, name@) == kind@),
{
    match plan.target.parameters.get(name) {
        Some(value) => same(value, kind),
        None => same("", kind),
    }
}

pub(crate) fn does_convert(plan: &ColumnConversionPlan, source: &str, target: &str) -> (result: bool)
    ensures
        result == converts(*plan, source@, target@),
{
    is_kind(plan, "source_temporal_kind", source) && is_kind(plan, "target_temporal_kind", target)
}

fn mismatch() -> (result: Refusal)
    ensures
        Some((result.code@, result.message@)) == temporal_mismatch(),
{
    refuse(
        "target_capability.temporal_type_mismatch",
        "the captured temporal value does not match the saved conversion strategy",
    )
}

fn check_mixed(
    plan: &ColumnConversionPlan,
    fraction: u32,
    places: u8,
    precision: u8,
) -> (result: Result<(), Refusal>)
    requires
        precision <= 6 <= places <= 9,
        temporal_precision(*plan) == Some(precision as nat),
        precision_refusal(fraction, places as nat, precision as nat) is None ==> offset_fits(*plan),
    ensures
        refusal_of(result) == mixed_refusal(*plan, fraction, places as nat),
{
    match check_precision(fraction, places, precision) {
        Ok(_) => {},
        Err(refusal) => {
            return Err(refusal);
        },
    }
    match parse_timezone_offset(plan) {
        Ok(_) => Ok(()),
        Err(refusal) => Err(refusal),
    }
}

fn read_precision(plan: &ColumnConversionPlan) -> (result: Option<u8>)
    ensures
        match result {
            Some(precision) => temporal_precision(*plan) == Some(precision as nat) && precision
                <= 6,
            None => temporal_precision(*plan) is None,
        },
{
    match plan.target.parameters.get("target_precision") {
        Some(text) => match parse_u8(text) {
            Some(precision) => if precision <= 6 {
                Some(precision)
            } else {
                None
            },
            None => None,
        },
        None => None,
    }
}

pub(crate) fn validate_temporal_plan_value(
    plan: &ColumnConversionPlan,
    value: &LogicalValue,
) -> (result: Result<(), Refusal>)
    requires
        reads_zone(*plan, *value) ==> offset_fits(*plan),
    ensures
        refusal_of(result) == temporal_refusal(*plan, *value),
{
    let precision: u8 = match read_precision(plan) {
        Some(precision) => precision,
        None => {
            return Err(
                refuse(
                    "target_capability.temporal_precision_invalid",
                    "the target temporal precision is missing or invalid",
                ),
            );
        },
    };
    if !holds(&plan.parameters, "precision_policy", "reject") {
        return Err(
            refuse(
                "target_capability.temporal_precision_policy_missing",
                "temporal precision conversion must reject non-zero discarded precision",
            ),
        );
    }
    match value {
        LogicalValue::LocalDatetime { microsecond, .. } => {
            if does_convert(plan, "local_datetime", "local_datetime") {
                check_precision(*microsecond, 6, precision)
            } else if does_convert(plan, "local_datetime", "instant") {
                check_mixed(plan, *microsecond, 6, precision)
            } else {
                Err(mismatch())
            }
        },
        LogicalValue::Instant { nanoseconds, .. } => {
            if does_convert(plan, "instant", "instant") {
                check_precision(*nanoseconds, 9, precision)
            } else if does_convert(plan, "instant", "local_datetime") {
                check_mixed(plan, *nanoseconds, 9, precision)
            } else {
                Err(mismatch())
            }
        },
        LogicalValue::Duration { microsecond, .. } => {
            if does_convert(plan, "duration", "duration") {
                check_precision(*microsecond, 6, precision)
            } else {
                Err(mismatch())
            }
        },
        _ => Err(mismatch()),
    }
}

// ---------------------------------------------------------------------------
// Conversion between local and absolute time
// ---------------------------------------------------------------------------

/// The seconds from the epoch to a local time with an offset.
pub open spec fn epoch_seconds(
    year: int,
    month: int,
    day: int,
    hour: int,
    minute: int,
    second: int,
    offset: int,
) -> int {
    days_before(year, month, day) * 86_400 + hour * 3_600 + minute * 60 + second - offset
}

/// The seconds of an instant.
pub open spec fn instant_seconds(text: Seq<char>) -> Option<int> {
    parse_signed(text, i64::MIN as int, i64::MAX as int)
}

/// The local time at a number of seconds from the epoch, as machine words hold
/// it.
pub open spec fn local_year(seconds: int) -> int {
    let (march_year, month, day) = date_after(seconds / 86_400);
    calendar_year(march_year, month)
}

/// The conversion of a temporal value computes with numbers that fit their
/// machine words.
pub open spec fn temporal_fits(plan: ColumnConversionPlan, value: LogicalValue) -> bool {
    match value {
        LogicalValue::LocalDatetime { microsecond, .. } => converts(
            plan,
            "local_datetime"@,
            "instant"@,
        ) ==> offset_fits(plan) && (plan_offset(plan) is Ok ==> microsecond * 1_000 <= u32::MAX),
        LogicalValue::Instant { unix_seconds, .. } => converts(
            plan,
            "instant"@,
            "local_datetime"@,
        ) ==> offset_fits(plan) && (plan_offset(plan) matches Ok(offset) ==> (instant_seconds(
            unix_seconds@,
        ) matches Some(seconds) ==> i64::MIN <= seconds + offset <= i64::MAX && local_year(
            seconds + offset,
        ) <= i32::MAX)),
        _ => true,
    }
}

/// Why a temporal value cannot be converted by a plan that takes it.
pub open spec fn temporal_conversion_refusal(plan: ColumnConversionPlan, value: LogicalValue) -> Option<RefusalText> {
    match value {
        LogicalValue::LocalDatetime { .. } => if converts(
            plan,
            "local_datetime"@,
            "local_datetime"@,
        ) {
            None
        } else if converts(plan, "local_datetime"@, "instant"@) {
            offset_refusal(plan)
        } else {
            temporal_mismatch()
        },
        LogicalValue::Instant { unix_seconds, .. } => if converts(plan, "instant"@, "instant"@) {
            None
        } else if converts(plan, "instant"@, "local_datetime"@) {
            match plan_offset(plan) {
                Err(refusal) => Some(refusal),
                Ok(offset) => match instant_seconds(unix_seconds@) {
                    None => Some(
                        (
                            "target_capability.temporal_value_invalid"@,
                            "instant seconds are invalid"@,
                        ),
                    ),
                    Some(seconds) => if 1 <= local_year(seconds + offset) <= u16::MAX {
                        None
                    } else {
                        Some(
                            (
                                "target_capability.temporal_value_invalid"@,
                                "the converted local datetime is outside the target range"@,
                            ),
                        )
                    },
                },
            }
        } else {
            temporal_mismatch()
        },
        LogicalValue::Duration { .. } => if converts(plan, "duration"@, "duration"@) {
            None
        } else {
            temporal_mismatch()
        },
        _ => temporal_mismatch(),
    }
}

/// The result of a conversion between local and absolute time; elsewhere the
/// value is kept.
pub open spec fn temporal_converted(
    plan: ColumnConversionPlan,
    value: LogicalValue,
    result: LogicalValue,
) -> bool {
    match value {
        LogicalValue::LocalDatetime { year, month, day, hour, minute, second, microsecond }
            if converts(plan, "local_datetime"@, "instant"@) && !converts(
            plan,
            "local_datetime"@,
            "local_datetime"@,
        ) => result matches LogicalValue::Instant { unix_seconds, nanoseconds } && unix_seconds@
            == decimal_signed(
            epoch_seconds(
                year as int,
                month as int,
                day as int,
                hour as int,
                minute as int,
                second as int,
                plan_offset(plan)->Ok_0,
            ),
        ) && nanoseconds == microsecond * 1_000,
        LogicalValue::Instant { unix_seconds, nanoseconds } if converts(
            plan,
            "instant"@,
            "local_datetime"@,
        ) && !converts(plan, "instant"@, "instant"@) => {
            let seconds = instant_seconds(unix_seconds@)->0 + plan_offset(plan)->Ok_0;
            let (march_year, month, day) = date_after(seconds / 86_400);
            result matches LogicalValue::LocalDatetime {
                year,
                month: local_month,
                day: local_day,
                hour,
                minute,
                second,
                microsecond,
            } && year == local_year(seconds) && local_month == month && local_day == day && hour == (
            seconds % 86_400) / 3_600 && minute == (seconds % 3_600) / 60 && second == seconds % 60
                && microsecond == nanoseconds / 1_000
        },
        _ => logical_value_doc(result) == logical_value_doc(value),
    }
}

pub(crate) fn convert_temporal_value(
    plan: &ColumnConversionPlan,
    value: &LogicalValue,
) -> (result: Result<LogicalValue, Refusal>)
    requires
        temporal_fits(*plan, *value),
    ensures
        refusal_of(result) == temporal_conversion_refusal(*plan, *value),
        result matches Ok(converted) ==> temporal_converted(*plan, *value, converted),
{
    proof {
        lemma_kinds_differ();
    }
    match value {
        LogicalValue::LocalDatetime { year, month, day, hour, minute, second, microsecond } => {
            if does_convert(plan, "local_datetime", "local_datetime") {
                return Ok(value.duplicate());
            }
            if !does_convert(plan, "local_datetime", "instant") {
                return Err(mismatch());
            }
            let offset: i32 = match parse_timezone_offset(plan) {
                Ok(offset) => offset,
                Err(refusal) => {
                    return Err(refusal);
                },
            };
            let days: i64 = days_from_civil(*year, *month, *day);
            let seconds: i64 = days * 86_400 + *hour as i64 * 3_600 + *minute as i64 * 60
                + *second as i64 - offset as i64;
            Ok(
                LogicalValue::Instant {
                    unix_seconds: decimal_text_signed(seconds as i128),
                    nanoseconds: *microsecond * 1_000,
                },
            )
        },
        LogicalValue::Instant { unix_seconds, nanoseconds } => {
            if does_convert(plan, "instant", "instant") {
                return Ok(value.duplicate());
            }
            if !does_convert(plan, "instant", "local_datetime") {
                return Err(mismatch());
            }
            let offset: i32 = match parse_timezone_offset(plan) {
                Ok(offset) => offset,
                Err(refusal) => {
                    return Err(refusal);
                },
            };
            let seconds: i64 = match parse_i64(unix_seconds.as_str()) {
                Some(seconds) => seconds + offset as i64,
                None => {
                    return Err(
                        refuse(
                            "target_capability.temporal_value_invalid",
                            "instant seconds are invalid",
                        ),
                    );
                },
            };
            match local_time(seconds, *nanoseconds / 1_000) {
                Some(local) => Ok(local),
                None => Err(
                    refuse(
                        "target_capability.temporal_value_invalid",
                        "the converted local datetime is outside the target range",
                    ),
                ),
            }
        },
        LogicalValue::Duration { .. } => {
            if does_convert(plan, "duration", "duration") {
                Ok(value.duplicate())
            } else {
                Err(mismatch())
            }
        },
        _ => Err(mismatch()),
    }
}

proof fn lemma_kinds_differ()
    ensures
        "local_datetime"@ != "instant"@,
{
    reveal_strlit("local_datetime");
    reveal_strlit("instant");
    assert("local_datetime"@.len() != "instant"@.len());
}

/// Seconds of a day, which may not be the machine's least number.
pub(crate) fn day_of(seconds: i64) -> (result: i64)
    ensures
        result as int == seconds as int / 86_400,
{
    if seconds == i64::MIN {
        -106_751_991_167_301
    } else {
        floor_quotient(seconds, 86_400)
    }
}

/// The local time at a number of seconds, where its year can be held.
fn local_time(seconds: i64, microsecond: u32) -> (result: Option<LogicalValue>)
    requires
        local_year(seconds as int) <= i32::MAX,
    ensures
        match result {
            None => !(1 <= local_year(seconds as int) <= u16::MAX),
            Some(local) => {
                let (march_year, month, day) = date_after(seconds as int / 86_400);
                &&& 1 <= local_year(seconds as int) <= u16::MAX
                &&& local matches LogicalValue::LocalDatetime {
                    year,
                    month: local_month,
                    day: local_day,
                    hour,
                    minute,
                    second,
                    microsecond: fraction,
                } && year == local_year(seconds as int) && local_month == month && local_day == day
                    && hour == (seconds as int % 86_400) / 3_600 && minute == (seconds as int
                    % 3_600) / 60 && second == seconds as int % 60 && fraction == microsecond
            },
        },
{
    let days: i64 = day_of(seconds);
    let day_seconds: i64 = (seconds as i128 - days as i128 * 86_400) as i64;
    proof {
        lemma_seconds_of_day(seconds as int);
    }
    let (march_year, month, day) = civil_from_days(days);
    let shifted: i64 = march_year + 0x8000_0000;
    let turns: i64 = floor_quotient(shifted, 0x1_0000_0000);
    let cut: i64 = shifted - turns * 0x1_0000_0000 - 0x8000_0000;
    assert(cut as int == cut_32(march_year as int));
    let year: i64 = if month <= 2 {
        cut + 1
    } else {
        cut
    };
    if year < 1 || year > 65_535 {
        return None;
    }
    Some(
        LogicalValue::LocalDatetime {
            year: year as u16,
            month,
            day,
            hour: (day_seconds / 3_600) as u8,
            minute: ((day_seconds % 3_600) / 60) as u8,
            second: (day_seconds % 60) as u8,
            microsecond,
        },
    )
}

pub proof fn lemma_seconds_of_day(seconds: int)
    ensures
        ({
            let rest = seconds - (seconds / 86_400) * 86_400;
            &&& rest == seconds % 86_400
            &&& 0 <= rest < 86_400
            &&& rest % 3_600 == seconds % 3_600
            &&& rest % 60 == seconds % 60
        }),
{
    let q = seconds / 86_400;
    let rest = seconds - q * 86_400;
    vstd::arithmetic::div_mod::lemma_mod_multiples_vanish(24 * q, rest, 3_600);
    vstd::arithmetic::div_mod::lemma_mod_multiples_vanish(1_440 * q, rest, 60);
    assert(3_600 * (24 * q) + rest == seconds);
    assert(60 * (1_440 * q) + rest == seconds);
}

/// A local time that is turned into an instant and back with one offset is the
/// same local time.
#[verifier::spinoff_prover]
pub proof fn law_local_time_survives_a_round_trip(
    year: int,
    month: int,
    day: int,
    hour: int,
    minute: int,
    second: int,
    offset: int,
)
    requires
        1 <= year <= 9999,
        1 <= month <= 12,
        1 <= day <= days_in_month(year, month),
        0 <= hour < 24,
        0 <= minute < 60,
        0 <= second < 60,
    ensures
        ({
            let seconds = epoch_seconds(year, month, day, hour, minute, second, offset) + offset;
            let (march_year, back_month, back_day) = date_after(seconds / 86_400);
            &&& local_year(seconds) == year
            &&& back_month == month
            &&& back_day == day
            &&& (seconds % 86_400) / 3_600 == hour
            &&& (seconds % 3_600) / 60 == minute
            &&& seconds % 60 == second
        }),
{
    let days = days_before(year, month, day);
    let clock = hour * 3_600 + minute * 60 + second;
    let seconds = epoch_seconds(year, month, day, hour, minute, second, offset) + offset;
    assert(seconds == days * 86_400 + clock);
    assert(0 <= clock < 86_400);
    assert(seconds / 86_400 == days && seconds % 86_400 == clock) by (nonlinear_arith)
        requires
            seconds == days * 86_400 + clock,
            0 <= clock < 86_400,
    ;
    assert((seconds % 86_400) / 3_600 == hour && (seconds % 3_600) / 60 == minute && seconds % 60
        == second) by {
        lemma_seconds_of_day(seconds);
        lemma_clock(hour, minute, second);
    }
    law_calendar_round_trip(year, month, day);
    let (march_year, back_month, back_day) = date_after(days);
    assert(cut_32(march_year) == march_year) by {
        assert(0 <= march_year <= 9999);
    }
}

pub proof fn lemma_clock(hour: int, minute: int, second: int)
    requires
        0 <= hour < 24,
        0 <= minute < 60,
        0 <= second < 60,
    ensures
        ({
            let clock = hour * 3_600 + minute * 60 + second;
            &&& clock / 3_600 == hour
            &&& (clock % 3_600) / 60 == minute
            &&& clock % 60 == second
        }),
{
}

} // verus!
