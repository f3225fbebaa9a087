//! Statement parameters.
use crate::change_event::compatibility::values::json_text::DoubleText;
use crate::change_event::compatibility::values::numeric::{
    double_finite, is_double_finite, sign_length, without_sign,
};
use crate::change_event::compatibility::values::temporal::{
    civil_from_days, date_after, day_of, days_before, law_calendar_round_trip, law_days_round_trip,
};
use crate::change_event::model::{Datum, LogicalValue};
use crate::change_event::validate::{days_in_month, is_uuid, uuid_text};
use crate::encoding::{base64url_read, read_base64url, utf8_bytes};
use crate::mysql_8_4::error::{incapable, invalid, SqlError, SqlFault};
use crate::mysql_8_4::json_source::{
    bad_pattern, bit_pattern, decimal_source, describe_bad_pattern, integer_source, json_source,
    parse_hex_bits, render_decimal, render_json, validate_integer,
};
use crate::mysql_source_contract::wire::{Bound, SqlValue};
use crate::number::{parse_i64, parse_signed, parse_u64, parse_unsigned};
use crate::text::{
    byte_len, chars_of, concat3, join, join_texts, lower, same, text_between, texts, to_lower,
};
use vstd::prelude::*;
use vstd::utf8::encode_utf8;

verus! {

/// What binding has given.
pub open spec fn bound_of(result: Result<SqlValue, SqlError>) -> Result<Bound, SqlFault> {
    match result {
        Ok(value) => Ok(value@),
        Err(error) => Err(error.fault()),
    }
}

fn refuse(message: &str) -> (result: Result<SqlValue, SqlError>)
    ensures
        bound_of(result) == Err::<Bound, _>(incapable(message@)),
{
    Err(SqlError::capability(message))
}

/// A single-precision number with these bits is finite.
pub open spec fn single_finite(bits: int) -> bool {
    (bits / 0x80_0000) % 0x100 != 0xff
}

// ---------------------------------------------------------------------------
// Single kinds of value
// ---------------------------------------------------------------------------

pub open spec fn bound_integer(signed: bool, text: Seq<char>) -> Result<Bound, SqlFault> {
    if signed {
        match parse_signed(text, i64::MIN as int, i64::MAX as int) {
            Some(value) => Ok(Bound::Int(value as i64)),
            None => Err(incapable("signed integer is outside MySQL range"@)),
        }
    } else {
        match parse_unsigned(text, u64::MAX as nat) {
            Some(value) => Ok(Bound::UInt(value as u64)),
            None => Err(incapable("unsigned integer is outside MySQL range"@)),
        }
    }
}

fn bind_integer(signed: bool, text: &str) -> (result: Result<SqlValue, SqlError>)
    ensures
        bound_of(result) == bound_integer(signed, text@),
{
    if signed {
        match parse_i64(text) {
            Some(value) => Ok(SqlValue::Int(value)),
            None => refuse("signed integer is outside MySQL range"),
        }
    } else {
        match parse_u64(text) {
            Some(value) => Ok(SqlValue::UInt(value)),
            None => refuse("unsigned integer is outside MySQL range"),
        }
    }
}

pub open spec fn bound_decimal(unscaled: Seq<char>, scale: usize) -> Result<Bound, SqlFault> {
    if encode_utf8(without_sign(unscaled)).len() > 65 || scale > 30 {
        Err(incapable("DECIMAL precision exceeds the MySQL target capability"@))
    } else {
        match decimal_source(unscaled, scale) {
            Ok(text) => Ok(Bound::Bytes(encode_utf8(text))),
            Err(message) => Err(invalid(message)),
        }
    }
}

fn bind_decimal(unscaled: &str, scale: usize) -> (result: Result<SqlValue, SqlError>)
    ensures
        bound_of(result) == bound_decimal(unscaled@, scale),
{
    let chars = chars_of(unscaled);
    let from: usize = sign_length(&chars);
    let digits = text_between(&chars, from, chars.len());
    assert(digits@ =~= without_sign(unscaled@));
    if byte_len(digits.as_str()) > 65 || scale > 30 {
        return refuse("DECIMAL precision exceeds the MySQL target capability");
    }
    match render_decimal(unscaled, scale) {
        Ok(text) => Ok(SqlValue::Bytes(utf8_bytes(text.as_str()))),
        Err(message) => Err(SqlError::invalid_data(message.as_str())),
    }
}

pub open spec fn bound_float(bits: u8, pattern: Seq<char>) -> Result<Bound, SqlFault> {
    if bits == 32 {
        match bit_pattern(pattern, 8) {
            None => Err(incapable(bad_pattern(pattern))),
            Some(value) => if single_finite(value as int) {
                Ok(Bound::Float(value as u32))
            } else {
                Err(incapable("MySQL does not preserve non-finite FLOAT values"@))
            },
        }
    } else if bits == 64 {
        match bit_pattern(pattern, 16) {
            None => Err(incapable(bad_pattern(pattern))),
            Some(value) => if double_finite(value as int) {
                Ok(Bound::Double(value as u64))
            } else {
                Err(incapable("MySQL does not preserve non-finite DOUBLE values"@))
            },
        }
    } else {
        Err(incapable("unsupported floating point width"@))
    }
}

fn bind_float(bits: u8, pattern: &str) -> (result: Result<SqlValue, SqlError>)
    ensures
        bound_of(result) == bound_float(bits, pattern@),
{
    if bits == 32 {
        match parse_hex_bits(pattern, 8) {
            None => {
                let message = describe_bad_pattern(pattern);
                refuse(message.as_str())
            },
            Some(value) => if (value / 0x80_0000) % 0x100 != 0xff {
                Ok(SqlValue::Float(value as u32))
            } else {
                refuse("MySQL does not preserve non-finite FLOAT values")
            },
        }
    } else if bits == 64 {
        match parse_hex_bits(pattern, 16) {
            None => {
                let message = describe_bad_pattern(pattern);
                refuse(message.as_str())
            },
            Some(value) => if is_double_finite(value) {
                Ok(SqlValue::Double(value))
            } else {
                refuse("MySQL does not preserve non-finite DOUBLE values")
            },
        }
    } else {
        refuse("unsupported floating point width")
    }
}

/// Bytes that are carried as unpadded base64url. A validated value always
/// decodes.
pub open spec fn bound_bytes(text: Seq<char>) -> Result<Bound, SqlFault> {
    match base64url_read(text) {
        Ok(bytes) => Ok(Bound::Bytes(bytes)),
        Err(message) => Err(invalid(message)),
    }
}

fn bind_bytes(text: &str) -> (result: Result<SqlValue, SqlError>)
    ensures
        bound_of(result) == bound_bytes(text@),
{
    match read_base64url(text) {
        Ok(bytes) => Ok(SqlValue::Bytes(bytes)),
        Err(message) => Err(SqlError::invalid_data(message.as_str())),
    }
}

pub open spec fn bound_text(charset: Seq<char>, bytes: Seq<char>) -> Result<Bound, SqlFault> {
    if lower(charset) == "utf8"@ || lower(charset) == "utf8mb4"@ {
        bound_bytes(bytes)
    } else {
        Err(incapable("text charset "@ + charset + " has no qualified MySQL mapping"@))
    }
}

fn bind_text(charset: &str, bytes: &str) -> (result: Result<SqlValue, SqlError>)
    ensures
        bound_of(result) == bound_text(charset@, bytes@),
{
    let name = to_lower(charset);
    if same(name.as_str(), "utf8") || same(name.as_str(), "utf8mb4") {
        bind_bytes(bytes)
    } else {
        let message = concat3("text charset ", charset, " has no qualified MySQL mapping");
        refuse(message.as_str())
    }
}

/// The calendar year of a date after the epoch.
pub open spec fn year_after(days: int) -> int {
    let (march_year, month, day) = date_after(days);
    march_year + if month <= 2 {
        1int
    } else {
        0int
    }
}

/// An instant, as the local time of the zone UTC.
pub open spec fn bound_instant(seconds: Seq<char>, nanoseconds: u32) -> Result<Bound, SqlFault> {
    if nanoseconds > 999_999_999 || nanoseconds % 1_000 != 0 {
        Err(incapable("MySQL target supports TIMESTAMP precision only through microseconds"@))
    } else {
        match integer_source(seconds, true) {
            Err(message) => Err(invalid(message)),
            Ok(_) => match parse_signed(seconds, i64::MIN as int, i64::MAX as int) {
                None => Err(incapable("instant seconds are outside MySQL range"@)),
                Some(number) => {
                    let (march_year, month, day) = date_after(number / 86_400);
                    let year = year_after(number / 86_400);
                    let clock = number % 86_400;
                    if 1 <= year <= 65_535 {
                        Ok(
                            Bound::Date(
                                year as u16,
                                month as u8,
                                day as u8,
                                (clock / 3_600) as u8,
                                ((clock % 3_600) / 60) as u8,
                                (clock % 60) as u8,
                                nanoseconds / 1_000,
                            ),
                        )
                    } else {
                        Err(incapable("instant is outside MySQL date range"@))
                    }
                },
            },
        }
    }
}

fn unix_instant_value(seconds: &str, nanoseconds: u32) -> (result: Result<SqlValue, SqlError>)
    ensures
        bound_of(result) == bound_instant(seconds@, nanoseconds),
{
    if nanoseconds > 999_999_999 || nanoseconds % 1_000 != 0 {
        return refuse("MySQL target supports TIMESTAMP precision only through microseconds");
    }
    match validate_integer(seconds, true) {
        Ok(_) => {},
        Err(message) => return Err(SqlError::invalid_data(message.as_str())),
    }
    let number: i64 = match parse_i64(seconds) {
        Some(number) => number,
        None => return refuse("instant seconds are outside MySQL range"),
    };
    let days: i64 = day_of(number);
    let clock: i64 = (number as i128 - days as i128 * 86_400) as i64;
    assert(clock as int == number as int % 86_400);
    let (march_year, month, day) = civil_from_days(days);
    let year: i64 = if month <= 2 {
        march_year + 1
    } else {
        march_year
    };
    if year < 1 || year > 65_535 {
        return refuse("instant is outside MySQL date range");
    }
    Ok(
        SqlValue::Date(
            year as u16,
            month,
            day,
            (clock / 3_600) as u8,
            ((clock % 3_600) / 60) as u8,
            (clock % 60) as u8,
            nanoseconds / 1_000,
        ),
    )
}

// ---------------------------------------------------------------------------
// Every kind of value
// ---------------------------------------------------------------------------

/// The parameter that carries a value, or why there is none. The texts of JSON
/// doubles are given.
pub open spec fn bound(value: LogicalValue, doubles: Seq<DoubleText>) -> Result<Bound, SqlFault> {
    match value {
        LogicalValue::Boolean { value } => Ok(
            Bound::Int(
                if value {
                    1
                } else {
                    0
                },
            ),
        ),
        LogicalValue::Uuid { value } => if uuid_text(value@) {
            Ok(Bound::Bytes(encode_utf8(value@)))
        } else {
            Err(incapable("Uuid value is not in canonical form"@))
        },
        LogicalValue::Integer { signed, value, .. } => bound_integer(signed, value@),
        LogicalValue::Decimal { unscaled, scale } => bound_decimal(unscaled@, scale),
        LogicalValue::Float { bits, ieee754_hex } => bound_float(bits, ieee754_hex@),
        LogicalValue::Text { charset, bytes_base64url, .. } => bound_text(
            charset@,
            bytes_base64url@,
        ),
        LogicalValue::Binary { bytes_base64url } => bound_bytes(bytes_base64url@),
        LogicalValue::BitString { bytes_base64url, .. } => bound_bytes(bytes_base64url@),
        LogicalValue::Date { year, month, day } => Ok(Bound::Date(year, month, day, 0, 0, 0, 0)),
        LogicalValue::LocalDatetime { year, month, day, hour, minute, second, microsecond } => Ok(
            Bound::Date(year, month, day, hour, minute, second, microsecond),
        ),
        LogicalValue::Duration { negative, hours, minutes, seconds, microsecond } => if hours / 24
            <= u32::MAX {
            Ok(
                Bound::Time(
                    negative,
                    (hours / 24) as u32,
                    (hours % 24) as u8,
                    minutes,
                    seconds,
                    microsecond,
                ),
            )
        } else {
            Err(incapable("duration is too large"@))
        },
        LogicalValue::Instant { unix_seconds, nanoseconds } => bound_instant(
            unix_seconds@,
            nanoseconds,
        ),
        LogicalValue::Year { value } => Ok(Bound::UInt(value as u64)),
        LogicalValue::Enum { label } => Ok(Bound::Bytes(encode_utf8(label@))),
        LogicalValue::SetValue { members } => Ok(
            Bound::Bytes(encode_utf8(join(texts(members@), ","@))),
        ),
        LogicalValue::Json { value } => match json_source(value, doubles) {
            Ok(text) => Ok(Bound::Bytes(encode_utf8(text))),
            Err(message) => Err(incapable(message)),
        },
        _ => Err(
            incapable(
                "MySQL 8.4 has no qualified target representation for this structured value"@,
            ),
        ),
    }
}

/// Bind a value to a parameter of a statement.
pub(crate) fn bind_logical_value(value: &LogicalValue, doubles: &Vec<DoubleText>) -> (result: Result<
    SqlValue,
    SqlError,
>)
    ensures
        bound_of(result) == bound(*value, doubles@),
{
    match value {
        LogicalValue::Boolean { value } => Ok(
            SqlValue::Int(
                if *value {
                    1
                } else {
                    0
                },
            ),
        ),
        LogicalValue::Uuid { value } => if is_uuid(value.as_str()) {
            Ok(SqlValue::Bytes(utf8_bytes(value.as_str())))
        } else {
            refuse("Uuid value is not in canonical form")
        },
        LogicalValue::Integer { signed, value, .. } => bind_integer(*signed, value.as_str()),
        LogicalValue::Decimal { unscaled, scale } => bind_decimal(unscaled.as_str(), *scale),
        LogicalValue::Float { bits, ieee754_hex } => bind_float(*bits, ieee754_hex.as_str()),
        LogicalValue::Text { charset, bytes_base64url, .. } => bind_text(
            charset.as_str(),
            bytes_base64url.as_str(),
        ),
        LogicalValue::Binary { bytes_base64url } => bind_bytes(bytes_base64url.as_str()),
        LogicalValue::BitString { bytes_base64url, .. } => bind_bytes(bytes_base64url.as_str()),
        LogicalValue::Date { year, month, day } => Ok(SqlValue::Date(*year, *month, *day, 0, 0, 0, 0)),
        LogicalValue::LocalDatetime { year, month, day, hour, minute, second, microsecond } => Ok(
            SqlValue::Date(*year, *month, *day, *hour, *minute, *second, *microsecond),
        ),
        LogicalValue::Duration { negative, hours, minutes, seconds, microsecond } => {
            let days: u64 = *hours / 24;
            if days > 4_294_967_295 {
                return refuse("duration is too large");
            }
            Ok(
                SqlValue::Time(
                    *negative,
                    days as u32,
                    (*hours % 24) as u8,
                    *minutes,
                    *seconds,
                    *microsecond,
                ),
            )
        },
        LogicalValue::Instant { unix_seconds, nanoseconds } => unix_instant_value(
            unix_seconds.as_str(),
            *nanoseconds,
        ),
        LogicalValue::Year { value } => Ok(SqlValue::UInt(*value as u64)),
        LogicalValue::Enum { label } => Ok(SqlValue::Bytes(utf8_bytes(label.as_str()))),
        LogicalValue::SetValue { members } => {
            let joined = join_texts(members, ",");
            Ok(SqlValue::Bytes(utf8_bytes(joined.as_str())))
        },
        LogicalValue::Json { value } => match render_json(value, doubles) {
            Ok(text) => Ok(SqlValue::Bytes(utf8_bytes(text.as_str()))),
            Err(message) => refuse(message.as_str()),
        },
        _ => refuse("MySQL 8.4 has no qualified target representation for this structured value"),
    }
}

/// The parameter that carries a datum.
pub open spec fn bound_datum(datum: Datum, doubles: Seq<DoubleText>) -> Result<Bound, SqlFault> {
    match datum {
        Datum::Null => Ok(Bound::Null),
        Datum::Value(value) => bound(value, doubles),
        _ => Err(incapable("cannot render an unavailable or unchanged datum"@)),
    }
}

pub(crate) fn bind_datum(datum: &Datum, doubles: &Vec<DoubleText>) -> (result: Result<
    SqlValue,
    SqlError,
>)
    ensures
        bound_of(result) == bound_datum(*datum, doubles@),
{
    match datum {
        Datum::Null => Ok(SqlValue::Null),
        Datum::Value(value) => bind_logical_value(value, doubles),
        _ => refuse("cannot render an unavailable or unchanged datum"),
    }
}

// ---------------------------------------------------------------------------
// What parameters stand for
// ---------------------------------------------------------------------------

/// An instant is bound as the date and the time that lie its seconds after the
/// first of January 1970, with all of its fraction.
pub proof fn law_a_bound_instant_is_its_moment(seconds: Seq<char>, nanoseconds: u32)
    requires
        bound_instant(seconds, nanoseconds) is Ok,
    ensures
        bound_instant(seconds, nanoseconds)->Ok_0 matches Bound::Date(
            year,
            month,
            day,
            hour,
            minute,
            second,
            microsecond,
        ) && {
            &&& 1 <= month <= 12 && 1 <= day <= days_in_month(year as int, month as int)
            &&& hour < 24 && minute < 60 && second < 60
            &&& parse_signed(seconds, i64::MIN as int, i64::MAX as int) == Some(
                days_before(year as int, month as int, day as int) * 86_400 + hour * 3_600 + minute
                    * 60 + second,
            )
            &&& microsecond * 1_000 == nanoseconds
        },
{
    let number = parse_signed(seconds, i64::MIN as int, i64::MAX as int)->0;
    law_days_round_trip(number / 86_400);
    let clock = number % 86_400;
    assert(number == (number / 86_400) * 86_400 + clock);
    assert(clock == (clock / 3_600) * 3_600 + ((clock % 3_600) / 60) * 60 + clock % 60);
}

/// Every instant in whole microseconds is bound whose date has a year that a
/// parameter can hold.
pub proof fn law_every_moment_of_the_range_is_bound(
    seconds: Seq<char>,
    nanoseconds: u32,
    date: (int, int, int),
    clock: int,
)
    requires
        nanoseconds < 1_000_000_000 && nanoseconds % 1_000 == 0,
        integer_source(seconds, true) is Ok,
        1 <= date.0 <= u16::MAX,
        1 <= date.1 <= 12 && 1 <= date.2 <= days_in_month(date.0, date.1),
        0 <= clock < 86_400,
        parse_signed(seconds, i64::MIN as int, i64::MAX as int) == Some(
            days_before(date.0, date.1, date.2) * 86_400 + clock,
        ),
    ensures
        bound_instant(seconds, nanoseconds) is Ok,
{
    law_calendar_round_trip(date.0, date.1, date.2);
    let days = days_before(date.0, date.1, date.2);
    let number = days * 86_400 + clock;
    assert(number / 86_400 == days) by (nonlinear_arith)
        requires
            number == days * 86_400 + clock,
            0 <= clock < 86_400,
    ;
}

/// A duration is bound with all of its hours, in days and hours of the day, and
/// with the rest of it as it is.
pub proof fn law_a_bound_duration_has_its_length(value: LogicalValue, doubles: Seq<DoubleText>)
    requires
        value is Duration,
        bound(value, doubles) is Ok,
    ensures
        value matches LogicalValue::Duration { negative, hours, minutes, seconds, microsecond } && {
            &&& bound(value, doubles)->Ok_0 matches Bound::Time(n, days, h, m, s, u)
            &&& days * 24 + h == hours && h < 24
            &&& n == negative && m == minutes && s == seconds && u == microsecond
        },
{
}

/// An integer is bound as the number that it spells, and every integer of 64 bits
/// is bound.
pub proof fn law_a_bound_integer_is_its_number(signed: bool, text: Seq<char>)
    ensures
        match bound_integer(signed, text) {
            Ok(Bound::Int(number)) => signed && parse_signed(text, i64::MIN as int, i64::MAX as int)
                == Some(number as int),
            Ok(Bound::UInt(number)) => !signed && parse_unsigned(text, u64::MAX as nat) == Some(
                number as nat,
            ),
            Ok(_) => false,
            Err(_) => if signed {
                parse_signed(text, i64::MIN as int, i64::MAX as int) is None
            } else {
                parse_unsigned(text, u64::MAX as nat) is None
            },
        },
{
}

} // verus!
