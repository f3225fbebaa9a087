//! Column values as the portable value contract carries them.
use crate::change_event::compatibility::values::numeric::{sign_length, without_sign};
use crate::change_event::compatibility::values::temporal::{days_before, days_from_civil};
use crate::change_event::model::{BitOrder, BitPadding, LogicalValue};
use crate::change_event::validate::{days_in_month, month_length};
use crate::encoding::{
    base64url_decoded, base64url_encode, base64url_encoded, read_utf8, utf8_complaint,
    utf8_decoded, utf8_text,
};
use crate::mysql_5_7::declaration::{declared, parse_declaration};
use crate::mysql_5_7::error::{invalid_data, other, undeclared, CaptureError, CaptureFault};
use crate::mysql_5_7::type_mapping::{source_mapping, source_type_mapping, view_of};
use crate::mysql_source_contract::wire::{copy_bytes, SqlValue};
use crate::number::{
    decimal, decimal_signed, decimal_text, decimal_text_signed, double_bytes,
    explain_unsigned, hex, law_decimal_round_trip, law_signed_decimal_round_trip, parse_signed,
    parse_u16, parse_u32, parse_u64, parse_unsigned, single_bytes, spell_double, spell_single,
    ten_to, unsigned_complaint,
};
use crate::text::{
    all_digits, are_digits, chars_of, concat, contains_text, debug_spelling, debug_text,
    eq_ignore_case, has_part, lower, same, same_ignoring_case, split, split_at_first, split_once,
    split_text, text_between, texts, to_lower, trim, trimmed,
};
use vstd::arithmetic::power2::{lemma2_to64, lemma2_to64_rest, pow2};
use vstd::prelude::*;

verus! {

/// What the catalog says of a column.
#[derive(Debug)]
pub struct ColumnInfo {
    pub name: String,
    pub native_type: String,
    pub data_type: String,
    pub charset: Option<String>,
    pub collation: Option<String>,
    pub generated: bool,
    pub primary_key_ordinal: Option<usize>,
}

impl ColumnInfo {
    /// A column as a row of the catalog gives it. A generation expression makes
    /// it generated, and places in a key count from one.
    pub fn from_catalog(
        name: String,
        native_type: String,
        data_type: String,
        charset: Option<String>,
        collation: Option<String>,
        expression: &str,
        key_position: Option<u64>,
    ) -> (result: Self)
        requires
            key_position matches Some(position) ==> 1 <= position <= usize::MAX,
        ensures
            result.name == name,
            result.native_type == native_type,
            result.data_type == data_type,
            result.charset == charset,
            result.collation == collation,
            result.generated == (expression@.len() > 0),
            match (result.primary_key_ordinal, key_position) {
                (Some(ordinal), Some(position)) => ordinal == position - 1,
                (None, None) => true,
                _ => false,
            },
    {
        let primary_key_ordinal: Option<usize> = match key_position {
            Some(position) => Some((position - 1) as usize),
            None => None,
        };
        ColumnInfo {
            name,
            native_type,
            data_type,
            charset,
            collation,
            generated: !expression.is_empty(),
            primary_key_ordinal,
        }
    }
}

/// A text, where there is one.
pub open spec fn text_of(text: Option<String>) -> Option<Seq<char>> {
    match text {
        Some(text) => Some(text@),
        None => None,
    }
}

fn borrowed(text: &Option<String>) -> (result: Option<&str>)
    ensures
        view_of(result) == text_of(*text),
{
    match text {
        Some(text) => Some(text.as_str()),
        None => None,
    }
}

/// A type with labels, by its bare name.
pub open spec fn labelled(data_type: Seq<char>) -> bool {
    lower(data_type) == "enum"@ || lower(data_type) == "set"@
}

/// The two names of a column's type agree on whether it has labels.
pub open spec fn labels_agree(info: ColumnInfo) -> bool {
    labelled(info.data_type@) ==> (source_mapping(
        info.native_type@,
        text_of(info.charset),
    ) matches Ok((base, _)) ==> base == "enum"@ || base == "set"@)
}

/// Whether the two names of a column's type agree on whether it has labels.
pub fn do_labels_agree(info: &ColumnInfo) -> (result: bool)
    ensures
        result == labels_agree(*info),
{
    let data_type = to_lower(info.data_type.as_str());
    if !same(data_type.as_str(), "enum") && !same(data_type.as_str(), "set") {
        return true;
    }
    match source_type_mapping(
        info.native_type.as_str(),
        borrowed(&info.charset),
        borrowed(&info.collation),
    ) {
        Err(_) => return true,
        Ok(_) => {},
    }
    match parse_declaration(info.native_type.as_str()) {
        Err(_) => true,
        Ok(d) => same(d.base.as_str(), "enum") || same(d.base.as_str(), "set"),
    }
}

// ---------------------------------------------------------------------------
// Numbers
// ---------------------------------------------------------------------------

/// The width of an integer type.
pub open spec fn integer_width(data_type: Seq<char>) -> u8 {
    let name = lower(data_type);
    if name == "tinyint"@ {
        8
    } else if name == "smallint"@ {
        16
    } else if name == "mediumint"@ {
        24
    } else if name == "int"@ || name == "integer"@ {
        32
    } else {
        64
    }
}

fn integer_bits(data_type: &str) -> (result: u8)
    ensures
        result == integer_width(data_type@),
{
    let name = to_lower(data_type);
    if same(name.as_str(), "tinyint") {
        8
    } else if same(name.as_str(), "smallint") {
        16
    } else if same(name.as_str(), "mediumint") {
        24
    } else if same(name.as_str(), "int") || same(name.as_str(), "integer") {
        32
    } else {
        64
    }
}

/// Two to the width of an integer type.
pub open spec fn modulus(width: u8) -> int {
    if width == 8 {
        0x100
    } else if width == 16 {
        0x1_0000
    } else if width == 24 {
        0x100_0000
    } else if width == 32 {
        0x1_0000_0000
    } else {
        0x1_0000_0000_0000_0000
    }
}

/// The bits of a signed number, read as an unsigned number of this width.
fn reinterpret(value: i64, width: u8) -> (result: u128)
    requires
        width == 8 || width == 16 || width == 24 || width == 32 || width == 64,
    ensures
        result as int == value as int % modulus(width),
        result < pow2(width as nat),
        (result - value) % (pow2(width as nat) as int) == 0,
{
    let raised: u128 = (value as i128 + 0x1_0000_0000_0000_0000) as u128;
    let size: u128 = if width == 8 {
        0x100
    } else if width == 16 {
        0x1_0000
    } else if width == 24 {
        0x100_0000
    } else if width == 32 {
        0x1_0000_0000
    } else {
        0x1_0000_0000_0000_0000
    };
    proof {
        let turns = 0x1_0000_0000_0000_0000int / (size as int);
        assert(size * turns == 0x1_0000_0000_0000_0000) by (nonlinear_arith)
            requires
                turns == 0x1_0000_0000_0000_0000int / (size as int),
                size == 0x100 || size == 0x1_0000 || size == 0x100_0000 || size == 0x1_0000_0000
                    || size == 0x1_0000_0000_0000_0000,
        ;
        lemma_modulus(width);
        vstd::arithmetic::div_mod::lemma_mod_multiples_vanish(turns, value as int, size as int);
    }
    raised % size
}

/// The declaration says that the numbers have no sign. The row itself does not.
pub open spec fn declared_unsigned(native_type: Seq<char>) -> bool {
    has_part(lower(native_type), "unsigned"@)
}

/// A decimal literal is a row of digits with at most one point, behind an
/// optional sign.
pub open spec fn decimal_parts(text: Seq<char>) -> (Seq<char>, Seq<char>) {
    let digits = without_sign(text);
    match split_once(digits, '.') {
        Some(parts) => parts,
        None => (digits, Seq::empty()),
    }
}

pub open spec fn decimal_fault(text: Seq<char>) -> Option<CaptureFault> {
    let (whole, fraction) = decimal_parts(text);
    if (whole + fraction).len() == 0 || !all_digits(whole + fraction) {
        Some(invalid_data("invalid decimal value "@ + debug_text(text)))
    } else {
        None
    }
}

/// The digits of a decimal literal without the point, behind a minus sign where
/// there is one.
pub open spec fn unscaled_text(text: Seq<char>) -> Seq<char> {
    let (whole, fraction) = decimal_parts(text);
    if text.len() > 0 && text[0] == '-' {
        "-"@ + (whole + fraction)
    } else {
        whole + fraction
    }
}

/// Reads a decimal literal as an unscaled number and a scale.
pub(crate) fn parse_decimal(text: &str) -> (result: Result<(String, usize), CaptureError>)
    ensures
        match result {
            Ok((unscaled, scale)) => {
                &&& decimal_fault(text@) is None
                &&& unscaled@ == unscaled_text(text@)
                &&& scale == decimal_parts(text@).1.len()
            },
            Err(error) => decimal_fault(text@) == Some(error.fault()),
        },
{
    let chars = chars_of(text);
    let from: usize = sign_length(&chars);
    let negative = chars.len() > 0 && chars[0] == '-';
    let unsigned = text_between(&chars, from, chars.len());
    assert(unsigned@ =~= without_sign(text@));
    let (whole, fraction) = match split_at_first(unsigned.as_str(), '.') {
        Some(parts) => parts,
        None => {
            let nothing = String::new();
            assert(nothing@ =~= Seq::empty());
            (unsigned, nothing)
        },
    };
    assert((whole@, fraction@) == decimal_parts(text@));
    let digits = concat(whole.as_str(), fraction.as_str());
    let digit_chars = chars_of(digits.as_str());
    assert(digit_chars@.skip(0) =~= digit_chars@);
    if digit_chars.len() == 0 || !are_digits(&digit_chars, 0) {
        let spelling = debug_spelling(text);
        let message = concat("invalid decimal value ", spelling.as_str());
        return Err(CaptureError::invalid_data(message.as_str()));
    }
    let scale: usize = chars_of(fraction.as_str()).len();
    let unscaled = if negative {
        concat("-", digits.as_str())
    } else {
        digits
    };
    Ok((unscaled, scale))
}

// ---------------------------------------------------------------------------
// Times
// ---------------------------------------------------------------------------

/// The seconds and the fraction of a TIMESTAMP text.
pub open spec fn timestamp_parts(text: Seq<char>) -> (Seq<char>, Seq<char>) {
    match split_once(text, '.') {
        Some(parts) => parts,
        None => (text, Seq::empty()),
    }
}

pub open spec fn timestamp_fault(text: Seq<char>) -> Option<CaptureFault> {
    let (seconds, fraction) = timestamp_parts(text);
    if parse_unsigned(seconds, u32::MAX as nat) is None || fraction.len() > 6 || !all_digits(
        fraction,
    ) {
        Some(other("invalid TIMESTAMP binlog value"@))
    } else {
        None
    }
}

/// The nanoseconds of a fraction of a second.
pub open spec fn fraction_nanoseconds(fraction: Seq<char>) -> nat {
    if fraction.len() == 0 {
        0
    } else {
        parse_unsigned(fraction, u32::MAX as nat)->0 * ten_to((9 - fraction.len()) as nat)
    }
}

fn power_of_ten(exponent: usize) -> (result: u32)
    requires
        3 <= exponent <= 9,
    ensures
        result as nat == ten_to(exponent as nat),
{
    reveal_with_fuel(ten_to, 10);
    if exponent == 3 {
        1_000
    } else if exponent == 4 {
        10_000
    } else if exponent == 5 {
        100_000
    } else if exponent == 6 {
        1_000_000
    } else if exponent == 7 {
        10_000_000
    } else if exponent == 8 {
        100_000_000
    } else {
        1_000_000_000
    }
}

proof fn lemma_digits_bound(digits: Seq<char>)
    requires
        all_digits(digits),
    ensures
        crate::number::digits_value(digits) < ten_to(digits.len()),
    decreases digits.len(),
{
    if digits.len() > 0 {
        let rest = digits.drop_last();
        assert(crate::text::ascii_digit(digits[digits.len() - 1]));
        assert forall|i: int| 0 <= i < rest.len() implies crate::text::ascii_digit(
            #[trigger] rest[i],
        ) by {
            assert(crate::text::ascii_digit(digits[i]));
        }
        lemma_digits_bound(rest);
    }
}

/// A fraction of at most six digits is a number below a billion nanoseconds.
proof fn lemma_fraction(fraction: Seq<char>)
    requires
        0 < fraction.len() <= 6,
        all_digits(fraction),
    ensures
        parse_unsigned(fraction, u32::MAX as nat) is Some,
        parse_unsigned(fraction, u32::MAX as nat)->0 * ten_to((9 - fraction.len()) as nat)
            < 1_000_000_000,
{
    lemma_digits_bound(fraction);
    reveal_with_fuel(ten_to, 10);
    assert(crate::text::ascii_digit(fraction[0]));
    assert(fraction[0] != '+');
    let value = crate::number::digits_value(fraction);
    let low = ten_to(fraction.len());
    let high = ten_to((9 - fraction.len()) as nat);
    assert(low * high == 1_000_000_000) by {
        if fraction.len() == 1 {
            assert(low * high == 1_000_000_000) by (nonlinear_arith)
                requires
                    low == 10,
                    high == 100000000,
            ;
        } else if fraction.len() == 2 {
            assert(low * high == 1_000_000_000) by (nonlinear_arith)
                requires
                    low == 100,
                    high == 10000000,
            ;
        } else if fraction.len() == 3 {
            assert(low * high == 1_000_000_000) by (nonlinear_arith)
                requires
                    low == 1000,
                    high == 1000000,
            ;
        } else if fraction.len() == 4 {
            assert(low * high == 1_000_000_000) by (nonlinear_arith)
                requires
                    low == 10000,
                    high == 100000,
            ;
        } else if fraction.len() == 5 {
            assert(low * high == 1_000_000_000) by (nonlinear_arith)
                requires
                    low == 100000,
                    high == 10000,
            ;
        } else if fraction.len() == 6 {
            assert(low * high == 1_000_000_000) by (nonlinear_arith)
                requires
                    low == 1000000,
                    high == 1000,
            ;
        }
    }
    assert(value * high < low * high) by (nonlinear_arith)
        requires
            value < low,
            high > 0,
    ;
}

/// A fraction of at most six digits is a number of whole microseconds.
pub proof fn lemma_fraction_of_microseconds(fraction: Seq<char>)
    requires
        fraction.len() <= 6,
        all_digits(fraction),
    ensures
        fraction_nanoseconds(fraction) < 1_000_000_000,
        fraction_nanoseconds(fraction) % 1_000 == 0,
{
    if fraction.len() > 0 {
        lemma_fraction(fraction);
        let number = parse_unsigned(fraction, u32::MAX as nat)->0;
        let rest = ten_to((6 - fraction.len()) as nat);
        let scale = ten_to((9 - fraction.len()) as nat);
        assert(scale == 1_000 * rest) by {
            reveal_with_fuel(ten_to, 4);
        }
        assert(number * scale == 1_000 * (number * rest)) by (nonlinear_arith)
            requires
                scale == 1_000 * rest,
        ;
    }
}

/// The seconds and the nanoseconds that a TIMESTAMP text gives.
fn timestamp(text: &str) -> (result: Result<(String, u32), CaptureError>)
    ensures
        match result {
            Ok((seconds, nanoseconds)) => {
                &&& timestamp_fault(text@) is None
                &&& seconds@ == timestamp_parts(text@).0
                &&& nanoseconds as nat == fraction_nanoseconds(timestamp_parts(text@).1)
            },
            Err(error) => timestamp_fault(text@) == Some(error.fault()),
        },
{
    let (seconds, fraction) = match split_at_first(text, '.') {
        Some(parts) => parts,
        None => {
            let nothing = String::new();
            assert(nothing@ =~= Seq::empty());
            (text.to_owned(), nothing)
        },
    };
    let digits = chars_of(fraction.as_str());
    assert(digits@.skip(0) =~= digits@);
    if parse_u32(seconds.as_str()).is_none() || digits.len() > 6 || !are_digits(&digits, 0) {
        return Err(CaptureError::other("invalid TIMESTAMP binlog value"));
    }
    if digits.len() == 0 {
        return Ok((seconds, 0));
    }
    proof {
        lemma_fraction(fraction@);
    }
    let number: u32 = match parse_u32(fraction.as_str()) {
        Some(number) => number,
        None => 0,
    };
    let scale: u32 = power_of_ten(9 - digits.len());
    Ok((seconds, number * scale))
}

/// The parts name a moment.
pub open spec fn moment(
    year: u16,
    month: u8,
    day: u8,
    hour: u8,
    minute: u8,
    second: u8,
    microsecond: u32,
) -> bool {
    &&& year != 0
    &&& 0 < day
    &&& day as int <= days_in_month(year as int, month as int)
    &&& hour < 24
    &&& minute < 60
    &&& second < 60
    &&& microsecond < 1_000_000
}

/// The seconds from the epoch to a moment.
pub open spec fn moment_seconds(year: u16, month: u8, day: u8, hour: u8, minute: u8, second: u8) -> int {
    days_before(year as int, month as int, day as int) * 86_400 + hour * 3_600 + minute * 60 + second
}

fn timestamp_from_components(
    year: u16,
    month: u8,
    day: u8,
    hour: u8,
    minute: u8,
    second: u8,
    microsecond: u32,
) -> (result: Result<(String, u32), CaptureError>)
    ensures
        match result {
            Ok((seconds, nanoseconds)) => {
                &&& moment(year, month, day, hour, minute, second, microsecond)
                &&& seconds@ == decimal_signed(
                    moment_seconds(year, month, day, hour, minute, second),
                )
                &&& nanoseconds == microsecond * 1_000
            },
            Err(error) => !moment(year, month, day, hour, minute, second, microsecond)
                && error.fault() == other("invalid TIMESTAMP date value"@),
        },
{
    if year == 0 || day == 0 || day > month_length(year, month) || hour >= 24 || minute >= 60
        || second >= 60 || microsecond >= 1_000_000 {
        return Err(CaptureError::other("invalid TIMESTAMP date value"));
    }
    let days: i64 = days_from_civil(year, month, day);
    let seconds: i64 = days * 86_400 + hour as i64 * 3_600 + minute as i64 * 60 + second as i64;
    Ok((decimal_text_signed(seconds as i128), microsecond * 1_000))
}

// ---------------------------------------------------------------------------
// Bytes
// ---------------------------------------------------------------------------

/// A type of bytes, by its bare name in lower case.
pub open spec fn binary_type(name: Seq<char>) -> bool {
    name == "binary"@ || name == "varbinary"@ || name == "tinyblob"@ || name == "blob"@ || name
        == "mediumblob"@ || name == "longblob"@ || name == "geometry"@
}

fn is_binary_type(name: &str) -> (result: bool)
    ensures
        result == binary_type(name@),
{
    same(name, "binary") || same(name, "varbinary") || same(name, "tinyblob") || same(name, "blob")
        || same(name, "mediumblob") || same(name, "longblob") || same(name, "geometry")
}

/// The text of the declared length of a BIT column.
pub open spec fn bit_length_text(native_type: Seq<char>) -> Seq<char> {
    match split_once(native_type, '(') {
        Some((_, rest)) => match split_once(rest, ')') {
            Some((length, _)) => trim(length),
            None => "1"@,
        },
        None => "1"@,
    }
}

/// The declared length of a BIT column, or what is wrong with it.
pub open spec fn bit_length(native_type: Seq<char>) -> Result<nat, CaptureFault> {
    match parse_unsigned(bit_length_text(native_type), u64::MAX as nat) {
        None => Err(invalid_data("invalid BIT length"@)),
        Some(length) => if 1 <= length <= 64 {
            Ok(length)
        } else {
            Err(invalid_data("BIT length is outside MySQL 5.7 limits"@))
        },
    }
}

fn native_bit_length(native_type: &str) -> (result: Result<u64, CaptureError>)
    ensures
        match result {
            Ok(length) => bit_length(native_type@) == Ok::<_, CaptureFault>(length as nat),
            Err(error) => bit_length(native_type@) == Err::<nat, _>(error.fault()),
        },
{
    let text = match split_at_first(native_type, '(') {
        Some((_, rest)) => match split_at_first(rest.as_str(), ')') {
            Some((length, _)) => trimmed(length.as_str()),
            None => "1".to_owned(),
        },
        None => "1".to_owned(),
    };
    match parse_u64(text.as_str()) {
        None => Err(CaptureError::invalid_data("invalid BIT length")),
        Some(length) => if 1 <= length && length <= 64 {
            Ok(length)
        } else {
            Err(CaptureError::invalid_data("BIT length is outside MySQL 5.7 limits"))
        },
    }
}

/// Bytes that have to be a text are not one.
pub open spec fn not_text(bytes: Seq<u8>) -> CaptureFault {
    invalid_data(utf8_complaint(bytes))
}

fn read_text(bytes: &Vec<u8>) -> (result: Result<String, CaptureError>)
    ensures
        match result {
            Ok(text) => utf8_decoded(bytes@) == Some(text@),
            Err(error) => utf8_decoded(bytes@) is None && error.fault() == not_text(bytes@),
        },
{
    match read_utf8(copy_bytes(bytes)) {
        Ok(text) => Ok(text),
        Err(message) => Err(CaptureError::invalid_data(message.as_str())),
    }
}

/// The values are declared members, each at most once.
pub open spec fn member_values(values: Seq<Seq<char>>, members: Seq<Seq<char>>) -> bool {
    &&& forall|i: int| 0 <= i < values.len() ==> members.contains(#[trigger] values[i])
    &&& forall|i: int, j: int|
        #![trigger values[i], values[j]]
        0 <= i < j < values.len() ==> values[i] != values[j]
}

fn is_among(list: &Vec<String>, upto: usize, text: &str) -> (result: bool)
    requires
        upto <= list@.len(),
    ensures
        result == texts(list@).take(upto as int).contains(text@),
{
    let ghost seen = texts(list@).take(upto as int);
    let mut i: usize = 0;
    while i < upto
        invariant
            i <= upto <= list@.len(),
            seen == texts(list@).take(upto as int),
            forall|k: int| 0 <= k < i ==> #[trigger] seen[k] != text@,
        decreases upto - i,
    {
        assert(seen[i as int] == list@[i as int]@);
        if same(list[i].as_str(), text) {
            return true;
        }
        i += 1;
    }
    false
}

fn are_member_values(values: &Vec<String>, members: &Vec<String>) -> (result: bool)
    ensures
        result == member_values(texts(values@), texts(members@)),
{
    let ghost all = texts(values@);
    let mut i: usize = 0;
    while i < values.len()
        invariant
            i <= values@.len(),
            all == texts(values@),
            forall|k: int| 0 <= k < i ==> texts(members@).contains(#[trigger] all[k]),
            forall|k: int, m: int|
                #![trigger all[k], all[m]]
                0 <= k < m < i ==> all[k] != all[m],
        decreases values@.len() - i,
    {
        assert(all[i as int] == values@[i as int]@);
        assert(texts(members@).take(members@.len() as int) =~= texts(members@));
        if !is_among(members, members.len(), values[i].as_str()) {
            return false;
        }
        if is_among(values, i, values[i].as_str()) {
            proof {
                let k = all.take(i as int).index_of(values@[i as int]@);
                assert(all.take(i as int)[k] == all[k]);
                assert(all[k] == all[i as int]);
            }
            return false;
        }
        assert forall|k: int, m: int|
            #![trigger all[k], all[m]]
            0 <= k < m < i + 1 implies all[k] != all[m] by {
            if m == i {
                assert(all.take(i as int)[k] == all[k]);
                assert(!all.take(i as int).contains(all[i as int]));
            }
        }
        i += 1;
    }
    true
}

/// The labels of a declaration.
pub open spec fn declared_labels(native_type: Seq<char>) -> Seq<Seq<char>> {
    declared(native_type)->Ok_0.arguments
}

/// What is wrong with the text of a labelled value.
pub open spec fn label_fault(native_type: Seq<char>, text: Seq<char>) -> Option<CaptureFault> {
    let labels = declared_labels(native_type);
    if declared(native_type)->Ok_0.base == "enum"@ {
        if labels.contains(text) {
            None
        } else {
            Some(invalid_data("ENUM value is not one of the declared labels"@))
        }
    } else if text.len() > 0 && !member_values(split(text, ','), labels) {
        Some(invalid_data("SET value contains an unknown or duplicate member"@))
    } else {
        None
    }
}

/// The value is the one that a text with labels gives.
pub open spec fn labelled_value(value: LogicalValue, native_type: Seq<char>, text: Seq<char>) -> bool {
    if declared(native_type)->Ok_0.base == "enum"@ {
        value matches LogicalValue::Enum { label } && label@ == text
    } else {
        value matches LogicalValue::SetValue { members } && texts(members@) == if text.len() == 0 {
            Seq::empty()
        } else {
            split(text, ',')
        }
    }
}

fn decode_labels(native_type: &str, text: String) -> (result: Result<LogicalValue, CaptureError>)
    requires
        declared(native_type@) is Ok,
    ensures
        match result {
            Ok(value) => label_fault(native_type@, text@) is None && labelled_value(
                value,
                native_type@,
                text@,
            ),
            Err(error) => label_fault(native_type@, text@) == Some(error.fault()),
        },
{
    let d = match parse_declaration(native_type) {
        Ok(d) => d,
        Err(error) => return Err(CaptureError::undeclared(&error)),
    };
    let members = &d.arguments;
    if same(d.base.as_str(), "enum") {
        assert(texts(members@).take(members@.len() as int) =~= texts(members@));
        if !is_among(members, members.len(), text.as_str()) {
            return Err(CaptureError::invalid_data("ENUM value is not one of the declared labels"));
        }
        return Ok(LogicalValue::Enum { label: text });
    }
    if text.as_str().is_empty() {
        let nothing: Vec<String> = Vec::new();
        assert(texts(nothing@) =~= Seq::empty());
        return Ok(LogicalValue::SetValue { members: nothing });
    }
    let values = split_text(text.as_str(), ',');
    if !are_member_values(&values, members) {
        return Err(
            CaptureError::invalid_data("SET value contains an unknown or duplicate member"),
        );
    }
    Ok(LogicalValue::SetValue { members: values })
}

/// What is wrong with the bytes of a value.
pub open spec fn bytes_fault(bytes: Seq<u8>, info: ColumnInfo) -> Option<CaptureFault> {
    let name = lower(info.data_type@);
    let textual = name == "enum"@ || name == "set"@ || name == "decimal"@ || name == "numeric"@
        || name == "timestamp"@ || name == "year"@;
    if textual && utf8_decoded(bytes) is None {
        Some(not_text(bytes))
    } else if name == "enum"@ || name == "set"@ {
        label_fault(info.native_type@, utf8_decoded(bytes)->0)
    } else if name == "decimal"@ || name == "numeric"@ {
        decimal_fault(utf8_decoded(bytes)->0)
    } else if name == "timestamp"@ {
        timestamp_fault(utf8_decoded(bytes)->0)
    } else if name == "year"@ {
        if parse_unsigned(utf8_decoded(bytes)->0, u16::MAX as nat) is None {
            Some(invalid_data(unsigned_complaint(utf8_decoded(bytes)->0, u16::MAX as nat)))
        } else {
            None
        }
    } else if name == "bit"@ {
        match bit_length(info.native_type@) {
            Ok(_) => None,
            Err(fault) => Some(fault),
        }
    } else {
        None
    }
}

/// The value is the one that bytes give.
pub open spec fn bytes_value(value: LogicalValue, bytes: Seq<u8>, info: ColumnInfo) -> bool {
    let name = lower(info.data_type@);
    if name == "enum"@ || name == "set"@ {
        labelled_value(value, info.native_type@, utf8_decoded(bytes)->0)
    } else if name == "decimal"@ || name == "numeric"@ {
        let text = utf8_decoded(bytes)->0;
        value matches LogicalValue::Decimal { unscaled, scale } && unscaled@ == unscaled_text(text)
            && scale == decimal_parts(text).1.len()
    } else if name == "timestamp"@ {
        let (seconds, fraction) = timestamp_parts(utf8_decoded(bytes)->0);
        value matches LogicalValue::Instant { unix_seconds, nanoseconds } && unix_seconds@
            == seconds && nanoseconds as nat == fraction_nanoseconds(fraction)
    } else if name == "year"@ {
        value matches LogicalValue::Year { value } && parse_unsigned(
            utf8_decoded(bytes)->0,
            u16::MAX as nat,
        ) == Some(value as nat)
    } else if name == "bit"@ {
        value matches LogicalValue::BitString {
            bytes_base64url,
            bit_length: length,
            padding,
            bit_order,
        } && bytes_base64url@ == base64url_encoded(bytes) && base64url_decoded(bytes_base64url@)
            == Some(bytes) && bit_length(info.native_type@) == Ok::<
            _,
            CaptureFault,
        >(length as nat) && bit_order is MsbFirst && if length % 8 == 0 {
            padding is NoPadding
        } else {
            padding is Zero
        }
    } else if binary_type(name) {
        value matches LogicalValue::Binary { bytes_base64url } && bytes_base64url@
            == base64url_encoded(bytes) && base64url_decoded(bytes_base64url@) == Some(bytes)
    } else {
        value matches LogicalValue::Text { charset, bytes_base64url, text } && charset@
            == match info.charset {
            Some(charset) => charset@,
            None => "unknown"@,
        } && bytes_base64url@ == base64url_encoded(bytes) && base64url_decoded(bytes_base64url@)
            == Some(bytes) && text_of(text) == utf8_decoded(bytes)
    }
}

fn decode_bytes(bytes: &Vec<u8>, info: &ColumnInfo) -> (result: Result<LogicalValue, CaptureError>)
    requires
        labelled(info.data_type@) ==> declared(info.native_type@) is Ok,
    ensures
        match result {
            Ok(value) => bytes_fault(bytes@, *info) is None && bytes_value(value, bytes@, *info),
            Err(error) => bytes_fault(bytes@, *info) == Some(error.fault()),
        },
{
    let data_type = to_lower(info.data_type.as_str());
    let name = data_type.as_str();
    if same(name, "enum") || same(name, "set") {
        let text = match read_text(bytes) {
            Ok(text) => text,
            Err(error) => return Err(error),
        };
        return decode_labels(info.native_type.as_str(), text);
    }
    if same(name, "decimal") || same(name, "numeric") {
        let text = match read_text(bytes) {
            Ok(text) => text,
            Err(error) => return Err(error),
        };
        return match parse_decimal(text.as_str()) {
            Ok((unscaled, scale)) => Ok(LogicalValue::Decimal { unscaled, scale }),
            Err(error) => Err(error),
        };
    }
    if same(name, "timestamp") {
        let text = match read_text(bytes) {
            Ok(text) => text,
            Err(error) => return Err(error),
        };
        return match timestamp(text.as_str()) {
            Ok((unix_seconds, nanoseconds)) => Ok(
                LogicalValue::Instant { unix_seconds, nanoseconds },
            ),
            Err(error) => Err(error),
        };
    }
    if same(name, "year") {
        let text = match read_text(bytes) {
            Ok(text) => text,
            Err(error) => return Err(error),
        };
        return match parse_u16(text.as_str()) {
            Some(value) => Ok(LogicalValue::Year { value }),
            None => {
                let message = explain_unsigned(text.as_str(), u16::MAX as u64);
                Err(CaptureError::invalid_data(message.as_str()))
            },
        };
    }
    let bytes_base64url = base64url_encode(bytes);
    if same(name, "bit") {
        return match native_bit_length(info.native_type.as_str()) {
            Ok(bit_length) => Ok(
                LogicalValue::BitString {
                    bytes_base64url,
                    bit_length,
                    padding: if bit_length % 8 == 0 {
                        BitPadding::NoPadding
                    } else {
                        BitPadding::Zero
                    },
                    bit_order: BitOrder::MsbFirst,
                },
            ),
            Err(error) => Err(error),
        };
    }
    if is_binary_type(name) {
        return Ok(LogicalValue::Binary { bytes_base64url });
    }
    let charset = match &info.charset {
        Some(charset) => charset.clone(),
        None => "unknown".to_owned(),
    };
    Ok(LogicalValue::Text { charset, bytes_base64url, text: utf8_text(copy_bytes(bytes)) })
}

// ---------------------------------------------------------------------------
// Every kind of value
// ---------------------------------------------------------------------------

/// What is wrong with a value of a column. Only declarations that have a source
/// type mapping are decoded, so that a type of bytes that is not supported
/// cannot become a text.
pub open spec fn value_fault(value: SqlValue, info: ColumnInfo) -> Option<CaptureFault> {
    match source_mapping(info.native_type@, text_of(info.charset)) {
        Err(complaint) => Some(undeclared(complaint)),
        Ok(_) => if labelled(info.data_type@) && !(value is Bytes) {
            Some(
                invalid_data(
                    "ENUM/SET binlog value is not label/member text; refusing ordinal conversion"@,
                ),
            )
        } else {
            match value {
                SqlValue::Null => Some(other("NULL must be represented by Datum::Null"@)),
                SqlValue::Bytes(bytes) => bytes_fault(bytes@, info),
                SqlValue::Date(year, month, day, hour, minute, second, microsecond) => if
                same_ignoring_case(info.data_type@, "timestamp"@) && !moment(
                    year,
                    month,
                    day,
                    hour,
                    minute,
                    second,
                    microsecond,
                ) {
                    Some(other("invalid TIMESTAMP date value"@))
                } else {
                    None
                },
                _ => None,
            }
        },
    }
}

/// The value is the one that a column value is decoded to.
pub open spec fn decoded_value(value: LogicalValue, wire: SqlValue, info: ColumnInfo) -> bool {
    match wire {
        SqlValue::Int(number) => {
            let unsigned = declared_unsigned(info.native_type@);
            value matches LogicalValue::Integer { signed, bits, value: text } && signed
                == !unsigned && bits == integer_width(info.data_type@) && text@ == if unsigned {
                decimal((number as int % modulus(integer_width(info.data_type@))) as nat)
            } else {
                decimal_signed(number as int)
            }
        },
        SqlValue::UInt(number) => value matches LogicalValue::Integer {
            signed,
            bits,
            value: text,
        } && !signed && bits == integer_width(info.data_type@) && text@ == decimal(number as nat),
        SqlValue::Float(pattern) => value matches LogicalValue::Float { bits, ieee754_hex } && bits
            == 32 && ieee754_hex@ == hex(single_bytes(pattern)),
        SqlValue::Double(pattern) => value matches LogicalValue::Float { bits, ieee754_hex } && bits
            == 64 && ieee754_hex@ == hex(double_bytes(pattern)),
        SqlValue::Date(year, month, day, hour, minute, second, microsecond) => if same_ignoring_case(
            info.data_type@,
            "date"@,
        ) {
            value == (LogicalValue::Date { year, month, day })
        } else if same_ignoring_case(info.data_type@, "timestamp"@) {
            value matches LogicalValue::Instant { unix_seconds, nanoseconds } && unix_seconds@
                == decimal_signed(moment_seconds(year, month, day, hour, minute, second))
                && nanoseconds == microsecond * 1_000
        } else {
            value == (LogicalValue::LocalDatetime {
                year,
                month,
                day,
                hour,
                minute,
                second,
                microsecond,
            })
        },
        SqlValue::Time(negative, days, hours, minutes, seconds, microsecond) => value matches LogicalValue::Duration {
            negative: sign,
            hours: total,
            minutes: kept_minutes,
            seconds: kept_seconds,
            microsecond: kept_microsecond,
        } && sign == negative && total == days * 24 + hours && kept_minutes == minutes
            && kept_seconds == seconds && kept_microsecond == microsecond,
        SqlValue::Bytes(bytes) => bytes_value(value, bytes@, info),
        SqlValue::Null => false,
    }
}

/// Decodes a column value.
pub fn decode_mysql_value(value: &SqlValue, info: &ColumnInfo) -> (result: Result<
    LogicalValue,
    CaptureError,
>)
    requires
        labels_agree(*info),
    ensures
        match result {
            Ok(decoded) => value_fault(*value, *info) is None && decoded_value(
                decoded,
                *value,
                *info,
            ),
            Err(error) => value_fault(*value, *info) == Some(error.fault()),
        },
{
    match source_type_mapping(
        info.native_type.as_str(),
        borrowed(&info.charset),
        borrowed(&info.collation),
    ) {
        Ok(_) => {},
        Err(error) => return Err(CaptureError::undeclared(&error)),
    }
    let data_type = to_lower(info.data_type.as_str());
    let has_labels = same(data_type.as_str(), "enum") || same(data_type.as_str(), "set");
    match value {
        SqlValue::Bytes(bytes) => return decode_bytes(bytes, info),
        _ => {},
    }
    if has_labels {
        return Err(
            CaptureError::invalid_data(
                "ENUM/SET binlog value is not label/member text; refusing ordinal conversion",
            ),
        );
    }
    match value {
        SqlValue::Int(number) => {
            let bits: u8 = integer_bits(info.data_type.as_str());
            // A row does not say whether its integers have a sign; the driver
            // takes them to be signed.
            let native_type = to_lower(info.native_type.as_str());
            let unsigned = contains_text(native_type.as_str(), "unsigned");
            let text = if unsigned {
                decimal_text(reinterpret(*number, bits))
            } else {
                decimal_text_signed(*number as i128)
            };
            Ok(LogicalValue::Integer { signed: !unsigned, bits, value: text })
        },
        SqlValue::UInt(number) => Ok(
            LogicalValue::Integer {
                signed: false,
                bits: integer_bits(info.data_type.as_str()),
                value: decimal_text(*number as u128),
            },
        ),
        SqlValue::Float(pattern) => Ok(
            LogicalValue::Float { bits: 32, ieee754_hex: spell_single(*pattern) },
        ),
        SqlValue::Double(pattern) => Ok(
            LogicalValue::Float { bits: 64, ieee754_hex: spell_double(*pattern) },
        ),
        SqlValue::Date(year, month, day, hour, minute, second, microsecond) => {
            if eq_ignore_case(info.data_type.as_str(), "date") {
                proof {
                    reveal_strlit("date");
                    reveal_strlit("timestamp");
                    assert(lower("date"@).len() != lower("timestamp"@).len());
                }
                return Ok(LogicalValue::Date { year: *year, month: *month, day: *day });
            }
            if eq_ignore_case(info.data_type.as_str(), "timestamp") {
                return match timestamp_from_components(
                    *year,
                    *month,
                    *day,
                    *hour,
                    *minute,
                    *second,
                    *microsecond,
                ) {
                    Ok((unix_seconds, nanoseconds)) => Ok(
                        LogicalValue::Instant { unix_seconds, nanoseconds },
                    ),
                    Err(error) => Err(error),
                };
            }
            Ok(
                LogicalValue::LocalDatetime {
                    year: *year,
                    month: *month,
                    day: *day,
                    hour: *hour,
                    minute: *minute,
                    second: *second,
                    microsecond: *microsecond,
                },
            )
        },
        SqlValue::Time(negative, days, hours, minutes, seconds, microsecond) => Ok(
            LogicalValue::Duration {
                negative: *negative,
                hours: *days as u64 * 24 + *hours as u64,
                minutes: *minutes,
                seconds: *seconds,
                microsecond: *microsecond,
            },
        ),
        _ => Err(CaptureError::other("NULL must be represented by Datum::Null")),
    }
}

// ---------------------------------------------------------------------------
// What capturing keeps
// ---------------------------------------------------------------------------

proof fn lemma_modulus(width: u8)
    requires
        width == 8 || width == 16 || width == 24 || width == 32 || width == 64,
    ensures
        modulus(width) == pow2(width as nat),
        pow2((width - 1) as nat) * 2 == pow2(width as nat),
{
    lemma2_to64();
    lemma2_to64_rest();
}

/// An integer column stores its numbers in one, two, three, four or eight bytes,
/// by its type, and its captured numbers have the bits of those bytes.
pub proof fn law_integers_have_the_width_of_their_storage(
    value: LogicalValue,
    wire: SqlValue,
    info: ColumnInfo,
    bytes: nat,
)
    requires
        wire is Int || wire is UInt,
        decoded_value(value, wire, info),
        bytes == 1 && lower(info.data_type@) == "tinyint"@ || bytes == 2 && lower(info.data_type@)
            == "smallint"@ || bytes == 3 && lower(info.data_type@) == "mediumint"@ || bytes == 4
            && (lower(info.data_type@) == "int"@ || lower(info.data_type@) == "integer"@) || bytes
            == 8 && lower(info.data_type@) == "bigint"@,
    ensures
        value matches LogicalValue::Integer { bits, .. } && bits == 8 * bytes,
{
    reveal_strlit("tinyint");
    reveal_strlit("smallint");
    reveal_strlit("mediumint");
    reveal_strlit("int");
    reveal_strlit("integer");
    reveal_strlit("bigint");
    assert("tinyint"@[0] != "integer"@[0]);
    assert("tinyint"@.len() == 7 && "smallint"@.len() == 8 && "mediumint"@.len() == 9 && "int"@.len()
        == 3 && "integer"@.len() == 7 && "bigint"@.len() == 6);
}

/// The number captured from a column that is declared unsigned has the bits of
/// the number on the wire: it is not negative, it is less than two to the width
/// of the column, and it differs from the number on the wire by a multiple of
/// that power.
pub proof fn law_unsigned_numbers_keep_their_bits(
    value: LogicalValue,
    number: i64,
    info: ColumnInfo,
)
    requires
        decoded_value(value, SqlValue::Int(number), info),
        has_part(lower(info.native_type@), "unsigned"@),
    ensures
        value matches LogicalValue::Integer { signed, bits, value: text } && !signed && {
            &&& parse_unsigned(text@, u64::MAX as nat) matches Some(kept) && kept < pow2(
                bits as nat,
            ) && (kept - number) % (pow2(bits as nat) as int) == 0
        },
{
    let bits = integer_width(info.data_type@);
    lemma_modulus(bits);
    lemma2_to64();
    let size = pow2(bits as nat) as int;
    let kept = number as int % size;
    law_decimal_round_trip(kept as nat, u64::MAX as nat);
    assert((kept - number) % size == 0) by (nonlinear_arith)
        requires
            size > 0,
            kept == number as int % size,
    {
        assert(number as int == size * (number as int / size) + kept);
        assert(kept - number == size * (-(number as int / size)));
    }
}

/// Different numbers that a signed column of this width could store are
/// captured as different numbers, though the column is declared unsigned.
pub proof fn law_stored_numbers_are_told_apart(
    left: LogicalValue,
    right: LogicalValue,
    a: i64,
    b: i64,
    info: ColumnInfo,
)
    requires
        decoded_value(left, SqlValue::Int(a), info),
        decoded_value(right, SqlValue::Int(b), info),
        left matches LogicalValue::Integer { bits, .. } && {
            &&& -pow2((bits - 1) as nat) <= a < pow2((bits - 1) as nat)
            &&& -pow2((bits - 1) as nat) <= b < pow2((bits - 1) as nat)
        },
        a != b,
    ensures
        left->Integer_value@ != right->Integer_value@,
{
    let bits = integer_width(info.data_type@);
    lemma_modulus(bits);
    if declared_unsigned(info.native_type@) {
        law_unsigned_numbers_keep_their_bits(left, a, info);
        law_unsigned_numbers_keep_their_bits(right, b, info);
        let size = pow2(bits as nat) as int;
        let x = parse_unsigned(left->Integer_value@, u64::MAX as nat)->0 as int;
        if left->Integer_value@ == right->Integer_value@ {
            assert(a == b) by (nonlinear_arith)
                requires
                    size > 0,
                    (x - a) % size == 0,
                    (x - b) % size == 0,
                    -size < a - b < size,
            {
                let p = (x - a) / size;
                let q = (x - b) / size;
                assert(x - a == size * p);
                assert(x - b == size * q);
                assert(b - a == size * (p - q));
                assert(p - q == 0);
            }
        }
    } else {
        law_signed_decimal_round_trip(a as int, i64::MIN as int, i64::MAX as int);
        law_signed_decimal_round_trip(b as int, i64::MIN as int, i64::MAX as int);
    }
}

/// The number captured from a column that is not declared unsigned is the
/// number on the wire, and so is one that is unsigned on the wire.
pub proof fn law_other_numbers_are_kept(value: LogicalValue, wire: SqlValue, info: ColumnInfo)
    requires
        decoded_value(value, wire, info),
    ensures
        wire matches SqlValue::Int(number) ==> !has_part(lower(info.native_type@), "unsigned"@) ==> {
            value matches LogicalValue::Integer { signed, value: text, .. } && signed
                && parse_signed(text@, i64::MIN as int, i64::MAX as int) == Some(number as int)
        },
        wire matches SqlValue::UInt(number) ==> {
            value matches LogicalValue::Integer { signed, value: text, .. } && !signed
                && parse_unsigned(text@, u64::MAX as nat) == Some(number as nat)
        },
{
    match wire {
        SqlValue::Int(number) => {
            law_signed_decimal_round_trip(number as int, i64::MIN as int, i64::MAX as int);
        },
        SqlValue::UInt(number) => {
            law_decimal_round_trip(number as nat, u64::MAX as nat);
        },
        _ => {},
    }
}

} // verus!
