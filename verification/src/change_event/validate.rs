//! The database-independent validation of a transaction.
use crate::change_event::bits::{
    byte_count, bytes_for, padding_bits, padding_expected, padding_fits, unused_bits,
};
use crate::change_event::failure::FailureClass;
use crate::change_event::model::{
    canonical_transaction_doc, carrier_fault_code, carrier_fault_message, logical_value_doc,
    BitOrder, BitPadding, ChangeTransaction, ColumnDatum, Datum, JsonEntry, JsonValue,
    LogicalValue, MapEntry, Operation, RowChange, Source, SourceCursor, SpatialFormat,
    StructuredField,
};
use crate::change_event::spatial::{
    code_dimensions, code_geometry, code_has_srid, dimensions_of, geometry_name, geometry_of,
    has_srid, read_u32, signed_32, to_signed_32, wire_u32,
};
use crate::encoding::{base64url_decode, base64url_decoded, digest_spelling};
use crate::json::{digest, same_value, Contract};
use crate::number::{digits_value, parse_i128, parse_u128};
use crate::text::{
    all_digits, all_hex_digits, are_digits, are_hex_digits, ascii_digit, ascii_hex_digit,
    ascii_letter, chars_of, concat3, contains_char, eq_ignore_case, is_ascii_digit,
    is_ascii_hex_digit, is_ascii_letter, same, same_ignoring_case, trim, trimmed,
};
use vstd::prelude::*;

verus! {

/// A change event breaks the contract.
#[derive(Debug, Clone, PartialEq, Eq)]
pub struct ChangeEventValidationError {
    message: String,
}

impl ChangeEventValidationError {
    pub closed spec fn text(&self) -> Seq<char> {
        self.message@
    }

    pub fn new(message: &str) -> (result: Self)
        ensures
            result.text() == message@,
    {
        Self { message: message.to_owned() }
    }

    pub fn code(&self) -> (result: &'static str)
        ensures
            result@ == "change_event.validation_failed"@,
    {
        "change_event.validation_failed"
    }

    pub fn class(&self) -> (result: FailureClass)
        ensures
            result is ChangeEventValidation,
    {
        FailureClass::ChangeEventValidation
    }

    pub fn message(&self) -> (result: &str)
        ensures
            result@ == self.text(),
    {
        self.message.as_str()
    }
}

/// The name of generic validation failures.
pub type ValidationError = ChangeEventValidationError;

/// An event breaks the contract of its source.
#[derive(Debug, Clone, PartialEq, Eq)]
pub struct SourceContractError {
    message: String,
}

impl SourceContractError {
    pub closed spec fn text(&self) -> Seq<char> {
        self.message@
    }

    pub fn new(message: &str) -> (result: Self)
        ensures
            result.text() == message@,
    {
        Self { message: message.to_owned() }
    }

    pub fn code(&self) -> (result: &'static str)
        ensures
            result@ == "source_contract.invalid"@,
    {
        "source_contract.invalid"
    }

    pub fn class(&self) -> (result: FailureClass)
        ensures
            result is SourceContract,
    {
        FailureClass::SourceContract
    }

    pub fn message(&self) -> (result: &str)
        ensures
            result@ == self.text(),
    {
        self.message.as_str()
    }
}

/// A logical value breaks the value contract.
#[derive(Debug, Clone, PartialEq, Eq)]
pub struct RawValueValidationError {
    message: String,
}

impl RawValueValidationError {
    pub closed spec fn text(&self) -> Seq<char> {
        self.message@
    }

    pub fn code(&self) -> (result: &'static str)
        ensures
            result@ == "logical_value.invalid"@,
    {
        "logical_value.invalid"
    }

    pub fn message(&self) -> (result: &str)
        ensures
            result@ == self.text(),
    {
        self.message.as_str()
    }
}

/// The message of a validation that failed.
pub open spec fn fault_of(result: Result<(), ChangeEventValidationError>) -> Option<Seq<char>> {
    match result {
        Ok(_) => None,
        Err(error) => Some(error.text()),
    }
}

pub(crate) fn ensure(ok: bool, message: &str) -> (result: Result<(), ChangeEventValidationError>)
    ensures
        fault_of(result) == fault_unless(ok, message@),
{
    if ok {
        Ok(())
    } else {
        Err(ChangeEventValidationError::new(message))
    }
}

/// The message, unless the condition holds.
pub open spec fn fault_unless(ok: bool, message: Seq<char>) -> Option<Seq<char>> {
    if ok {
        None
    } else {
        Some(message)
    }
}

/// The first of two faults.
pub open spec fn first_fault(first: Option<Seq<char>>, second: Option<Seq<char>>) -> Option<
    Seq<char>,
> {
    match first {
        Some(fault) => Some(fault),
        None => second,
    }
}

// ---------------------------------------------------------------------------
// Scalar values
// ---------------------------------------------------------------------------

pub open spec fn supported_width(bits: u8) -> bool {
    bits == 8 || bits == 16 || bits == 24 || bits == 32 || bits == 64
}

/// How many values an integer of a width has.
pub open spec fn integer_count(bits: u8) -> int {
    if bits == 8 {
        0x100
    } else if bits == 16 {
        0x1_0000
    } else if bits == 24 {
        0x100_0000
    } else if bits == 32 {
        0x1_0000_0000
    } else {
        0x1_0000_0000_0000_0000
    }
}

/// The digits of a literal: without one minus sign where it may have one.
pub open spec fn literal_digits(text: Seq<char>, signed: bool) -> Seq<char> {
    if signed && text.len() > 0 && text[0] == '-' {
        text.drop_first()
    } else {
        text
    }
}

/// The number that a literal stands for.
pub open spec fn literal_value(text: Seq<char>, signed: bool) -> int {
    if signed && text.len() > 0 && text[0] == '-' {
        -(digits_value(text.drop_first()) as int)
    } else {
        digits_value(text) as int
    }
}

/// What is wrong with an integer literal of a declared width.
pub open spec fn integer_fault(text: Seq<char>, signed: bool, bits: u8) -> Option<Seq<char>> {
    let digits = literal_digits(text, signed);
    let value = literal_value(text, signed);
    if !supported_width(bits) {
        Some("invalid integer width"@)
    } else if digits.len() == 0 || !all_digits(digits) {
        Some("invalid integer syntax"@)
    } else if signed && -integer_count(bits) <= 2 * value < integer_count(bits) {
        None
    } else if !signed && value < integer_count(bits) {
        None
    } else {
        Some("integer outside declared range"@)
    }
}

fn count_of(bits: u8) -> (result: u128)
    ensures
        result as int == integer_count(bits),
{
    if bits == 8 {
        0x100
    } else if bits == 16 {
        0x1_0000
    } else if bits == 24 {
        0x100_0000
    } else if bits == 32 {
        0x1_0000_0000
    } else {
        0x1_0000_0000_0000_0000
    }
}

pub(crate) fn integer(text: &str, signed: bool, bits: u8) -> (result: Result<
    (),
    ChangeEventValidationError,
>)
    ensures
        fault_of(result) == integer_fault(text@, signed, bits),
{
    if !(bits == 8 || bits == 16 || bits == 24 || bits == 32 || bits == 64) {
        return Err(ChangeEventValidationError::new("invalid integer width"));
    }
    let chars = chars_of(text);
    let from: usize = if signed && chars.len() > 0 && chars[0] == '-' {
        1
    } else {
        0
    };
    assert(chars@.skip(from as int) =~= literal_digits(text@, signed));
    if from == chars.len() || !are_digits(&chars, from) {
        return Err(ChangeEventValidationError::new("invalid integer syntax"));
    }
    let count: u128 = count_of(bits);
    proof {
        if from == 0 {
            assert(ascii_digit(literal_digits(text@, signed)[0]));
            assert(text@[0] != '+');
            if signed {
                assert(text@[0] != '-');
            }
        }
    }
    let fits = if signed {
        match parse_i128(text) {
            Some(value) => -((count / 2) as i128) <= value && value < (count / 2) as i128,
            None => false,
        }
    } else {
        match parse_u128(text) {
            Some(value) => value < count,
            None => false,
        }
    };
    ensure(fits, "integer outside declared range")
}

/// What is wrong with the bits of a floating-point number.
pub open spec fn float_fault(bits: u8, text: Seq<char>) -> Option<Seq<char>> {
    fault_unless(
        (bits == 32 || bits == 64) && text.len() == bits as int / 4 && all_hex_digits(text),
        "invalid floating-point bit pattern"@,
    )
}

pub(crate) fn float(bits: u8, text: &str) -> (result: Result<(), ChangeEventValidationError>)
    ensures
        fault_of(result) == float_fault(bits, text@),
{
    let chars = chars_of(text);
    ensure(
        (bits == 32 || bits == 64) && chars.len() == (bits / 4) as usize && are_hex_digits(&chars),
        "invalid floating-point bit pattern",
    )
}

pub open spec fn bytes_fault(text: Seq<char>) -> Option<Seq<char>> {
    fault_unless(base64url_decoded(text) is Some, "invalid base64url bytes"@)
}

fn bytes(text: &str) -> (result: Result<(), ChangeEventValidationError>)
    ensures
        fault_of(result) == bytes_fault(text@),
{
    ensure(base64url_decode(text).is_some(), "invalid base64url bytes")
}

pub open spec fn leap_year(year: int) -> bool {
    year % 4 == 0 && (year % 100 != 0 || year % 400 == 0)
}

/// How many days a month has; none where there is no such month.
pub open spec fn days_in_month(year: int, month: int) -> int {
    if month == 1 || month == 3 || month == 5 || month == 7 || month == 8 || month == 10 || month
        == 12 {
        31
    } else if month == 4 || month == 6 || month == 9 || month == 11 {
        30
    } else if month == 2 {
        if leap_year(year) {
            29
        } else {
            28
        }
    } else {
        0
    }
}

pub(crate) fn month_length(year: u16, month: u8) -> (result: u8)
    ensures
        result as int == days_in_month(year as int, month as int),
{
    match month {
        1 | 3 | 5 | 7 | 8 | 10 | 12 => 31,
        4 | 6 | 9 | 11 => 30,
        2 => if year % 4 == 0 && (year % 100 != 0 || year % 400 == 0) {
            29
        } else {
            28
        },
        _ => 0,
    }
}

pub open spec fn date_fault(year: u16, month: u8, day: u8) -> Option<Seq<char>> {
    fault_unless(
        1 <= year <= 9999 && 0 < day && day as int <= days_in_month(year as int, month as int),
        "invalid calendar date"@,
    )
}

fn date(year: u16, month: u8, day: u8) -> (result: Result<(), ChangeEventValidationError>)
    ensures
        fault_of(result) == date_fault(year, month, day),
{
    ensure(
        1 <= year && year <= 9999 && day > 0 && day <= month_length(year, month),
        "invalid calendar date",
    )
}

/// A UUID in its canonical spelling.
pub open spec fn uuid_text(text: Seq<char>) -> bool {
    text.len() == 36 && forall|i: int|
        0 <= i < 36 ==> if i == 8 || i == 13 || i == 18 || i == 23 {
            #[trigger] text[i] == '-'
        } else {
            ascii_hex_digit(text[i])
        }
}

pub fn is_uuid(text: &str) -> (result: bool)
    ensures
        result == uuid_text(text@),
{
    let chars = chars_of(text);
    if chars.len() != 36 {
        return false;
    }
    let mut i: usize = 0;
    while i < 36
        invariant
            i <= 36,
            chars@.len() == 36,
            chars@ == text@,
            forall|k: int|
                0 <= k < i ==> if k == 8 || k == 13 || k == 18 || k == 23 {
                    #[trigger] text@[k] == '-'
                } else {
                    ascii_hex_digit(text@[k])
                },
        decreases 36 - i,
    {
        let good = if i == 8 || i == 13 || i == 18 || i == 23 {
            chars[i] == '-'
        } else {
            is_ascii_hex_digit(chars[i])
        };
        if !good {
            assert(text@[i as int] == chars@[i as int]);
            return false;
        }
        i += 1;
    }
    true
}

/// What is wrong with an unscaled decimal.
pub open spec fn decimal_fault(unscaled: Seq<char>, scale: usize) -> Option<Seq<char>> {
    let digits = literal_digits(unscaled, true);
    fault_unless(
        0 < digits.len() <= 1000 && scale <= 1000 && all_digits(digits),
        "invalid or oversized decimal"@,
    )
}

fn decimal(unscaled: &str, scale: usize) -> (result: Result<(), ChangeEventValidationError>)
    ensures
        fault_of(result) == decimal_fault(unscaled@, scale),
{
    let chars = chars_of(unscaled);
    let from: usize = if chars.len() > 0 && chars[0] == '-' {
        1
    } else {
        0
    };
    assert(chars@.skip(from as int) =~= literal_digits(unscaled@, true));
    let length: usize = chars.len() - from;
    ensure(
        0 < length && length <= 1000 && scale <= 1000 && are_digits(&chars, from),
        "invalid or oversized decimal",
    )
}

/// A character set name.
pub open spec fn charset_name(text: Seq<char>) -> bool {
    text.len() > 0 && forall|i: int|
        0 <= i < text.len() ==> ascii_letter(#[trigger] text[i]) || ascii_digit(text[i]) || text[i]
            == '_'
}

fn is_charset_name(text: &str) -> (result: bool)
    ensures
        result == charset_name(text@),
{
    let chars = chars_of(text);
    if chars.len() == 0 {
        return false;
    }
    let mut i: usize = 0;
    while i < chars.len()
        invariant
            i <= chars@.len(),
            chars@ == text@,
            forall|k: int|
                0 <= k < i ==> ascii_letter(#[trigger] text@[k]) || ascii_digit(text@[k])
                    || text@[k] == '_',
        decreases chars@.len() - i,
    {
        if !(is_ascii_letter(chars[i]) || is_ascii_digit(chars[i]) || chars[i] == '_') {
            assert(text@[i as int] == chars@[i as int]);
            return false;
        }
        i += 1;
    }
    true
}

/// What is wrong with a bit string.
pub open spec fn bit_string_fault(
    encoded: Seq<char>,
    bit_length: u64,
    padding: BitPadding,
    bit_order: BitOrder,
) -> Option<Seq<char>> {
    match base64url_decoded(encoded) {
        None => Some("invalid bit string bytes"@),
        Some(bytes) => {
            let unused = unused_bits(bit_length as int);
            if bit_length == 0 {
                Some("bit string length must be positive"@)
            } else if bytes.len() != bytes_for(bit_length as int) {
                Some("bit string byte length does not match bit length"@)
            } else if unused == 0 {
                fault_unless(
                    padding is NoPadding,
                    "a byte-aligned bit string cannot declare padding"@,
                )
            } else if padding is NoPadding {
                Some("non-byte-aligned bit string needs padding"@)
            } else {
                fault_unless(
                    padding_bits(bytes.last(), unused, bit_order) == padding_expected(
                        unused,
                        padding,
                    ),
                    "bit string padding bits are invalid"@,
                )
            }
        },
    }
}

fn bit_string(
    encoded: &str,
    bit_length: u64,
    padding: BitPadding,
    bit_order: BitOrder,
) -> (result: Result<(), ChangeEventValidationError>)
    ensures
        fault_of(result) == bit_string_fault(encoded@, bit_length, padding, bit_order),
{
    let bytes = match base64url_decode(encoded) {
        Some(bytes) => bytes,
        None => {
            return Err(ChangeEventValidationError::new("invalid bit string bytes"));
        },
    };
    if bit_length == 0 {
        return Err(ChangeEventValidationError::new("bit string length must be positive"));
    }
    if bytes.len() as u64 != byte_count(bit_length) {
        return Err(
            ChangeEventValidationError::new("bit string byte length does not match bit length"),
        );
    }
    if bit_length % 8 == 0 {
        return ensure(
            matches!(padding, BitPadding::NoPadding),
            "a byte-aligned bit string cannot declare padding",
        );
    }
    if matches!(padding, BitPadding::NoPadding) {
        return Err(ChangeEventValidationError::new("non-byte-aligned bit string needs padding"));
    }
    let last: u8 = bytes[bytes.len() - 1];
    ensure(
        padding_fits(last, bit_length, padding, bit_order),
        "bit string padding bits are invalid",
    )
}

/// What is wrong with a spatial value, given its decoded bytes.
pub open spec fn spatial_bytes_fault(
    format: SpatialFormat,
    bytes: Seq<u8>,
    geometry_type: Seq<char>,
    dimensions: u8,
    srid: Option<i32>,
) -> Option<Seq<char>> {
    if bytes.len() < 5 {
        Some("spatial value has no complete WKB header"@)
    } else if bytes[0] > 1 {
        Some("invalid spatial byte order"@)
    } else {
        let little_endian = bytes[0] == 1;
        let code = wire_u32(bytes, 1, little_endian);
        match geometry_name(code_geometry(code)) {
            None => Some("unknown spatial geometry type"@),
            Some(name) => if !same_ignoring_case(name, geometry_type) {
                Some("spatial geometry type does not match its declaration"@)
            } else if code_dimensions(code) != dimensions as int {
                Some("spatial dimensions do not match its declaration"@)
            } else if code_has_srid(code) && bytes.len() < 9 {
                Some("EWKB SRID header is truncated"@)
            } else if format is Ewkb && !code_has_srid(code) {
                Some("EWKB spatial value is missing its SRID"@)
            } else if format is Wkb && code_has_srid(code) {
                Some("WKB spatial value unexpectedly contains EWKB SRID"@)
            } else {
                fault_unless(
                    match srid {
                        Some(expected) => code_has_srid(code) && signed_32(
                            wire_u32(bytes, 5, little_endian),
                        ) == expected as int,
                        None => !code_has_srid(code),
                    },
                    "spatial SRID does not match its declaration"@,
                )
            },
        }
    }
}

/// What is wrong with a spatial value.
pub open spec fn spatial_fault(
    format: SpatialFormat,
    encoded: Seq<char>,
    geometry_type: Seq<char>,
    dimensions: u8,
    srid: Option<i32>,
    crs: Option<String>,
) -> Option<Seq<char>> {
    if !(2 <= dimensions <= 4) {
        Some("spatial dimensions must be 2, 3, or 4"@)
    } else if geometry_type.len() == 0 || geometry_type.contains('\0') {
        Some("spatial geometry type is empty"@)
    } else if crs matches Some(text) && (text@.len() == 0 || text@.contains('\0')) {
        Some("invalid spatial CRS"@)
    } else {
        match base64url_decoded(encoded) {
            None => Some("invalid spatial bytes"@),
            Some(bytes) => spatial_bytes_fault(format, bytes, geometry_type, dimensions, srid),
        }
    }
}

fn spatial(
    format: SpatialFormat,
    encoded: &str,
    geometry_type: &str,
    dimensions: u8,
    srid: Option<i32>,
    crs: &Option<String>,
) -> (result: Result<(), ChangeEventValidationError>)
    ensures
        fault_of(result) == spatial_fault(
            format,
            encoded@,
            geometry_type@,
            dimensions,
            srid,
            *crs,
        ),
{
    if dimensions < 2 || dimensions > 4 {
        return Err(ChangeEventValidationError::new("spatial dimensions must be 2, 3, or 4"));
    }
    if geometry_type.is_empty() || contains_char(geometry_type, '\0') {
        return Err(ChangeEventValidationError::new("spatial geometry type is empty"));
    }
    if let Some(text) = crs {
        if text.as_str().is_empty() || contains_char(text.as_str(), '\0') {
            return Err(ChangeEventValidationError::new("invalid spatial CRS"));
        }
    }
    let bytes = match base64url_decode(encoded) {
        Some(bytes) => bytes,
        None => {
            return Err(ChangeEventValidationError::new("invalid spatial bytes"));
        },
    };
    if bytes.len() < 5 {
        return Err(ChangeEventValidationError::new("spatial value has no complete WKB header"));
    }
    if bytes[0] > 1 {
        return Err(ChangeEventValidationError::new("invalid spatial byte order"));
    }
    let little_endian = bytes[0] == 1;
    let code: u32 = read_u32(&bytes, 1, little_endian);
    let name = match geometry_of(code) {
        Some(name) => name,
        None => {
            return Err(ChangeEventValidationError::new("unknown spatial geometry type"));
        },
    };
    if !eq_ignore_case(name, geometry_type) {
        return Err(
            ChangeEventValidationError::new("spatial geometry type does not match its declaration"),
        );
    }
    if dimensions_of(code) != dimensions {
        return Err(
            ChangeEventValidationError::new("spatial dimensions do not match its declaration"),
        );
    }
    let embedded = has_srid(code);
    if embedded && bytes.len() < 9 {
        return Err(ChangeEventValidationError::new("EWKB SRID header is truncated"));
    }
    match format {
        SpatialFormat::Ewkb => if !embedded {
            return Err(ChangeEventValidationError::new("EWKB spatial value is missing its SRID"));
        },
        SpatialFormat::Wkb => if embedded {
            return Err(
                ChangeEventValidationError::new(
                    "WKB spatial value unexpectedly contains EWKB SRID",
                ),
            );
        },
    }
    let agrees = match srid {
        Some(expected) => embedded && to_signed_32(read_u32(&bytes, 5, little_endian)) == expected,
        None => !embedded,
    };
    ensure(agrees, "spatial SRID does not match its declaration")
}

// ---------------------------------------------------------------------------
// JSON column values
// ---------------------------------------------------------------------------

/// What is wrong with a JSON column value that stands `depth` levels deep.
pub open spec fn json_fault(value: JsonValue, depth: int) -> Option<Seq<char>>
    decreases 102 - depth, 0int,
{
    if depth > 100 {
        Some("JSON nesting exceeds 100"@)
    } else {
        match value {
            JsonValue::SignedInteger(text) => integer_fault(text@, true, 64),
            JsonValue::UnsignedInteger(text) => integer_fault(text@, false, 64),
            JsonValue::DoubleBits(text) => float_fault(64, text@),
            JsonValue::Decimal { unscaled, scale } => decimal_fault(unscaled@, scale),
            JsonValue::Array(items) => json_items_fault(items@, 0, depth + 1),
            JsonValue::Object(entries) => json_entries_fault(entries@, 0, depth + 1),
            _ => None,
        }
    }
}

/// What is wrong with the items from `from` on.
pub open spec fn json_items_fault(items: Seq<JsonValue>, from: int, depth: int) -> Option<Seq<char>>
    decreases 102 - depth, 1 + items.len() - from,
{
    if from < 0 || from >= items.len() || depth > 101 {
        None
    } else {
        first_fault(json_fault(items[from], depth), json_items_fault(items, from + 1, depth))
    }
}

/// What is wrong with the members from `from` on.
pub open spec fn json_entries_fault(entries: Seq<JsonEntry>, from: int, depth: int) -> Option<
    Seq<char>,
>
    decreases 102 - depth, 1 + entries.len() - from,
{
    if from < 0 || from >= entries.len() || depth > 101 {
        None
    } else if key_before(entries, from, entries[from].key@) {
        Some("duplicate JSON key"@)
    } else {
        first_fault(
            json_fault(entries[from].value, depth),
            json_entries_fault(entries, from + 1, depth),
        )
    }
}

/// Whether one of the first `end` members has the key.
pub open spec fn key_before(entries: Seq<JsonEntry>, end: int, key: Seq<char>) -> bool {
    exists|j: int| 0 <= j < end && (#[trigger] entries[j]).key@ == key
}

fn is_key_before(entries: &Vec<JsonEntry>, end: usize, key: &str) -> (result: bool)
    requires
        end <= entries@.len(),
    ensures
        result == key_before(entries@, end as int, key@),
{
    let mut j: usize = 0;
    while j < end
        invariant
            j <= end <= entries@.len(),
            forall|k: int| 0 <= k < j ==> (#[trigger] entries@[k]).key@ != key@,
        decreases end - j,
    {
        if same(entries[j].key.as_str(), key) {
            return true;
        }
        j += 1;
    }
    false
}

fn json_value(value: &JsonValue, depth: usize) -> (result: Result<(), ChangeEventValidationError>)
    requires
        depth <= 101,
    ensures
        fault_of(result) == json_fault(*value, depth as int),
    decreases 102 - depth,
{
    if depth > 100 {
        return Err(ChangeEventValidationError::new("JSON nesting exceeds 100"));
    }
    match value {
        JsonValue::SignedInteger(text) => integer(text.as_str(), true, 64),
        JsonValue::UnsignedInteger(text) => integer(text.as_str(), false, 64),
        JsonValue::DoubleBits(text) => float(64, text.as_str()),
        JsonValue::Decimal { unscaled, scale } => decimal(unscaled.as_str(), *scale),
        JsonValue::Array(items) => {
            let mut i: usize = 0;
            while i < items.len()
                invariant
                    i <= items@.len(),
                    depth <= 100,
                    *value == JsonValue::Array(*items),
                    json_fault(*value, depth as int) == json_items_fault(
                        items@,
                        i as int,
                        depth + 1,
                    ),
                decreases items@.len() - i,
            {
                match json_value(&items[i], depth + 1) {
                    Ok(_) => {},
                    Err(error) => {
                        return Err(error);
                    },
                }
                i += 1;
            }
            Ok(())
        },
        JsonValue::Object(entries) => {
            let mut i: usize = 0;
            while i < entries.len()
                invariant
                    i <= entries@.len(),
                    depth <= 100,
                    *value == JsonValue::Object(*entries),
                    json_fault(*value, depth as int) == json_entries_fault(
                        entries@,
                        i as int,
                        depth + 1,
                    ),
                decreases entries@.len() - i,
            {
                if is_key_before(entries, i, entries[i].key.as_str()) {
                    return Err(ChangeEventValidationError::new("duplicate JSON key"));
                }
                match json_value(&entries[i].value, depth + 1) {
                    Ok(_) => {},
                    Err(error) => {
                        return Err(error);
                    },
                }
                i += 1;
            }
            Ok(())
        },
        _ => Ok(()),
    }
}

// ---------------------------------------------------------------------------
// Logical values
// ---------------------------------------------------------------------------

/// What is wrong with the members of a SET value from `from` on.
pub open spec fn members_fault(members: Seq<String>, from: int) -> Option<Seq<char>>
    decreases members.len() - from,
{
    if from < 0 || from >= members.len() {
        None
    } else if members[from]@.contains('\0') {
        Some("invalid SET member"@)
    } else if member_before(members, from, members[from]@) {
        Some("duplicate SET member"@)
    } else {
        members_fault(members, from + 1)
    }
}

/// Whether one of the first `end` texts is `wanted`.
pub open spec fn member_before(members: Seq<String>, end: int, wanted: Seq<char>) -> bool {
    exists|j: int| 0 <= j < end && (#[trigger] members[j])@ == wanted
}

pub(crate) fn is_member_before(members: &Vec<String>, end: usize, wanted: &str) -> (result: bool)
    requires
        end <= members@.len(),
    ensures
        result == member_before(members@, end as int, wanted@),
{
    let mut j: usize = 0;
    while j < end
        invariant
            j <= end <= members@.len(),
            forall|k: int| 0 <= k < j ==> (#[trigger] members@[k])@ != wanted@,
        decreases end - j,
    {
        if same(members[j].as_str(), wanted) {
            return true;
        }
        j += 1;
    }
    false
}

/// An identifier: not empty and without NUL.
pub open spec fn identifier(text: Seq<char>) -> bool {
    text.len() > 0 && !text.contains('\0')
}

pub(crate) fn is_identifier(text: &str) -> (result: bool)
    ensures
        result == identifier(text@),
{
    !text.is_empty() && !contains_char(text, '\0')
}

/// What is wrong with a logical value that stands `depth` levels deep.
pub open spec fn value_fault(value: LogicalValue, depth: int) -> Option<Seq<char>>
    decreases 102 - depth, 0int,
{
    if depth > 100 {
        Some("logical value nesting exceeds 100"@)
    } else {
        match value {
            LogicalValue::Null => None,
            LogicalValue::Boolean { .. } => None,
            LogicalValue::Uuid { value } => fault_unless(
                uuid_text(value@),
                "invalid UUID value"@,
            ),
            LogicalValue::Integer { signed, bits, value } => integer_fault(value@, signed, bits),
            LogicalValue::Decimal { unscaled, scale } => decimal_fault(unscaled@, scale),
            LogicalValue::Float { bits, ieee754_hex } => float_fault(bits, ieee754_hex@),
            LogicalValue::Text { charset, bytes_base64url, text } => first_fault(
                fault_unless(charset_name(charset@), "invalid text charset"@),
                bytes_fault(bytes_base64url@),
            ),
            LogicalValue::Binary { bytes_base64url } => bytes_fault(bytes_base64url@),
            LogicalValue::Xml { bytes_base64url, text } => bytes_fault(bytes_base64url@),
            LogicalValue::BitString { bytes_base64url, bit_length, padding, bit_order } =>
                bit_string_fault(bytes_base64url@, bit_length, padding, bit_order),
            LogicalValue::Date { year, month, day } => date_fault(year, month, day),
            LogicalValue::LocalTime { hour, minute, second, microsecond } => fault_unless(
                hour < 24 && minute < 60 && second < 60 && microsecond < 1_000_000,
                "invalid local time"@,
            ),
            LogicalValue::LocalDatetime { year, month, day, hour, minute, second, microsecond } =>
                first_fault(
                    date_fault(year, month, day),
                    fault_unless(
                        hour < 24 && minute < 60 && second < 60 && microsecond < 1_000_000,
                        "invalid datetime"@,
                    ),
                ),
            LogicalValue::Duration { negative, hours, minutes, seconds, microsecond } =>
                fault_unless(
                    minutes < 60 && seconds < 60 && microsecond < 1_000_000,
                    "invalid duration"@,
                ),
            LogicalValue::Instant { unix_seconds, nanoseconds } => first_fault(
                integer_fault(unix_seconds@, true, 64),
                fault_unless(nanoseconds < 1_000_000_000, "invalid instant fraction"@),
            ),
            LogicalValue::Year { value } => fault_unless(value <= 9999, "invalid year"@),
            LogicalValue::Enum { label } => fault_unless(
                identifier(label@),
                "invalid ENUM label"@,
            ),
            LogicalValue::SetValue { members } => members_fault(members@, 0),
            LogicalValue::Spatial {
                format,
                bytes_base64url,
                geometry_type,
                dimensions,
                srid,
                crs,
            } => spatial_fault(
                format,
                bytes_base64url@,
                geometry_type@,
                dimensions,
                srid,
                crs,
            ),
            LogicalValue::Array { elements } => elements_fault(elements@, 0, depth + 1),
            LogicalValue::Struct { fields } => struct_fault(fields@, 0, depth + 1),
            LogicalValue::MapValue { entries } => map_fault(entries@, 0, depth + 1),
            LogicalValue::Range { empty, lower, upper, lower_inclusive, upper_inclusive } => if empty
                && (lower is Some || upper is Some) {
                Some("empty range has bounds"@)
            } else {
                first_fault(
                    match lower {
                        Some(bound) => value_fault(*bound, depth + 1),
                        None => None,
                    },
                    match upper {
                        Some(bound) => value_fault(*bound, depth + 1),
                        None => None,
                    },
                )
            },
            LogicalValue::MultiRange { ranges } => ranges_fault(ranges@, 0, depth + 1),
            LogicalValue::ArrayWithMetadata { elements, dimensions, lower_bounds } => if dimensions
                == 0 || dimensions as int != lower_bounds@.len() {
                Some("array dimensions and lower bounds do not agree"@)
            } else {
                elements_fault(elements@, 0, depth + 1)
            },
            LogicalValue::InvalidTemporal { kind, raw } => fault_unless(
                trim(kind@).len() > 0 && raw@.len() > 0,
                "invalid temporal value lacks kind or raw spelling"@,
            ),
            LogicalValue::Network { family, address, prefix_length } => first_fault(
                fault_unless(
                    trim(family@).len() > 0 && trim(address@).len() > 0 && !address@.contains('\0'),
                    "network value is incomplete"@,
                ),
                fault_unless(
                    prefix_length matches Some(prefix) ==> prefix <= 128,
                    "network prefix is invalid"@,
                ),
            ),
            LogicalValue::Domain { value } => value_fault(*value, depth + 1),
            LogicalValue::Raw { carrier } => match carrier.fault() {
                Some(fault) => Some(
                    carrier_fault_code(fault) + ": "@ + carrier_fault_message(fault),
                ),
                None => None,
            },
            LogicalValue::Json { value } => json_fault(value, 0),
        }
    }
}

/// What is wrong with the elements from `from` on.
pub open spec fn elements_fault(elements: Seq<LogicalValue>, from: int, depth: int) -> Option<
    Seq<char>,
>
    decreases 102 - depth, 1 + elements.len() - from,
{
    if from < 0 || from >= elements.len() || depth > 101 {
        None
    } else {
        first_fault(value_fault(elements[from], depth), elements_fault(elements, from + 1, depth))
    }
}

/// What is wrong with the ranges from `from` on.
pub open spec fn ranges_fault(ranges: Seq<LogicalValue>, from: int, depth: int) -> Option<Seq<char>>
    decreases 102 - depth, 1 + ranges.len() - from,
{
    if from < 0 || from >= ranges.len() || depth > 101 {
        None
    } else if !(ranges[from] is Range) {
        Some("multirange contains a non-range value"@)
    } else {
        first_fault(value_fault(ranges[from], depth), ranges_fault(ranges, from + 1, depth))
    }
}

/// Whether one of the first `end` fields has the name.
pub open spec fn field_before(fields: Seq<StructuredField>, end: int, name: Seq<char>) -> bool {
    exists|j: int| 0 <= j < end && (#[trigger] fields[j]).name@ == name
}

/// What is wrong with the fields from `from` on.
pub open spec fn struct_fault(fields: Seq<StructuredField>, from: int, depth: int) -> Option<
    Seq<char>,
>
    decreases 102 - depth, 1 + fields.len() - from,
{
    if from < 0 || from >= fields.len() || depth > 101 {
        None
    } else if !identifier(fields[from].name@) {
        Some("invalid structured field name"@)
    } else if field_before(fields, from, fields[from].name@) {
        Some("duplicate structured field name"@)
    } else {
        first_fault(value_fault(fields[from].value, depth), struct_fault(fields, from + 1, depth))
    }
}

/// Whether one of the first `end` entries has the same key.
pub open spec fn entry_before(entries: Seq<MapEntry>, end: int, key: LogicalValue) -> bool {
    exists|j: int|
        0 <= j < end && logical_value_doc((#[trigger] entries[j]).key) == logical_value_doc(key)
}

/// What is wrong with the entries from `from` on.
pub open spec fn map_fault(entries: Seq<MapEntry>, from: int, depth: int) -> Option<Seq<char>>
    decreases 102 - depth, 1 + entries.len() - from,
{
    if from < 0 || from >= entries.len() || depth > 101 {
        None
    } else if entry_before(entries, from, entries[from].key) {
        Some("duplicate map key"@)
    } else {
        first_fault(
            value_fault(entries[from].key, depth),
            first_fault(
                value_fault(entries[from].value, depth),
                map_fault(entries, from + 1, depth),
            ),
        )
    }
}

pub(crate) fn is_field_before(fields: &Vec<StructuredField>, end: usize, name: &str) -> (result: bool)
    requires
        end <= fields@.len(),
    ensures
        result == field_before(fields@, end as int, name@),
{
    let mut j: usize = 0;
    while j < end
        invariant
            j <= end <= fields@.len(),
            forall|k: int| 0 <= k < j ==> (#[trigger] fields@[k]).name@ != name@,
        decreases end - j,
    {
        if same(fields[j].name.as_str(), name) {
            return true;
        }
        j += 1;
    }
    false
}

pub(crate) fn is_entry_before(entries: &Vec<MapEntry>, end: usize) -> (result: bool)
    requires
        end < entries@.len(),
    ensures
        result == entry_before(entries@, end as int, entries@[end as int].key),
{
    let mut j: usize = 0;
    while j < end
        invariant
            j <= end < entries@.len(),
            forall|k: int|
                0 <= k < j ==> logical_value_doc((#[trigger] entries@[k]).key)
                    != logical_value_doc(entries@[end as int].key),
        decreases end - j,
    {
        if same_value(&entries[j].key, &entries[end].key) {
            return true;
        }
        j += 1;
    }
    false
}

fn logical_elements(elements: &Vec<LogicalValue>, depth: usize) -> (result: Result<
    (),
    ChangeEventValidationError,
>)
    requires
        1 <= depth <= 101,
    ensures
        fault_of(result) == elements_fault(elements@, 0, depth as int),
    decreases 102 - depth, 1int,
{
    let mut i: usize = 0;
    while i < elements.len()
        invariant
            i <= elements@.len(),
            1 <= depth <= 101,
            elements_fault(elements@, 0, depth as int) == elements_fault(
                elements@,
                i as int,
                depth as int,
            ),
        decreases elements@.len() - i,
    {
        match logical_value_at_depth(&elements[i], depth) {
            Ok(_) => {},
            Err(error) => {
                return Err(error);
            },
        }
        i += 1;
    }
    Ok(())
}

fn set_members(members: &Vec<String>) -> (result: Result<(), ChangeEventValidationError>)
    ensures
        fault_of(result) == members_fault(members@, 0),
{
    let mut i: usize = 0;
    while i < members.len()
        invariant
            i <= members@.len(),
            members_fault(members@, 0) == members_fault(members@, i as int),
        decreases members@.len() - i,
    {
        if contains_char(members[i].as_str(), '\0') {
            return Err(ChangeEventValidationError::new("invalid SET member"));
        }
        if is_member_before(members, i, members[i].as_str()) {
            return Err(ChangeEventValidationError::new("duplicate SET member"));
        }
        i += 1;
    }
    Ok(())
}

fn struct_fields(fields: &Vec<StructuredField>, depth: usize) -> (result: Result<
    (),
    ChangeEventValidationError,
>)
    requires
        1 <= depth <= 101,
    ensures
        fault_of(result) == struct_fault(fields@, 0, depth as int),
    decreases 102 - depth, 1int,
{
    let mut i: usize = 0;
    while i < fields.len()
        invariant
            i <= fields@.len(),
            1 <= depth <= 101,
            struct_fault(fields@, 0, depth as int) == struct_fault(
                fields@,
                i as int,
                depth as int,
            ),
        decreases fields@.len() - i,
    {
        if !is_identifier(fields[i].name.as_str()) {
            return Err(ChangeEventValidationError::new("invalid structured field name"));
        }
        if is_field_before(fields, i, fields[i].name.as_str()) {
            return Err(ChangeEventValidationError::new("duplicate structured field name"));
        }
        match logical_value_at_depth(&fields[i].value, depth) {
            Ok(_) => {},
            Err(error) => {
                return Err(error);
            },
        }
        i += 1;
    }
    Ok(())
}

fn map_entries(entries: &Vec<MapEntry>, depth: usize) -> (result: Result<
    (),
    ChangeEventValidationError,
>)
    requires
        1 <= depth <= 101,
    ensures
        fault_of(result) == map_fault(entries@, 0, depth as int),
    decreases 102 - depth, 1int,
{
    let mut i: usize = 0;
    while i < entries.len()
        invariant
            i <= entries@.len(),
            1 <= depth <= 101,
            map_fault(entries@, 0, depth as int) == map_fault(entries@, i as int, depth as int),
        decreases entries@.len() - i,
    {
        if is_entry_before(entries, i) {
            return Err(ChangeEventValidationError::new("duplicate map key"));
        }
        match logical_value_at_depth(&entries[i].key, depth) {
            Ok(_) => {},
            Err(error) => {
                return Err(error);
            },
        }
        match logical_value_at_depth(&entries[i].value, depth) {
            Ok(_) => {},
            Err(error) => {
                return Err(error);
            },
        }
        i += 1;
    }
    Ok(())
}

fn range_list(ranges: &Vec<LogicalValue>, depth: usize) -> (result: Result<
    (),
    ChangeEventValidationError,
>)
    requires
        1 <= depth <= 101,
    ensures
        fault_of(result) == ranges_fault(ranges@, 0, depth as int),
    decreases 102 - depth, 1int,
{
    let mut i: usize = 0;
    while i < ranges.len()
        invariant
            i <= ranges@.len(),
            1 <= depth <= 101,
            ranges_fault(ranges@, 0, depth as int) == ranges_fault(
                ranges@,
                i as int,
                depth as int,
            ),
        decreases ranges@.len() - i,
    {
        if !matches!(ranges[i], LogicalValue::Range { .. }) {
            return Err(ChangeEventValidationError::new("multirange contains a non-range value"));
        }
        match logical_value_at_depth(&ranges[i], depth) {
            Ok(_) => {},
            Err(error) => {
                return Err(error);
            },
        }
        i += 1;
    }
    Ok(())
}

fn logical_value_at_depth(value: &LogicalValue, depth: usize) -> (result: Result<
    (),
    ChangeEventValidationError,
>)
    requires
        depth <= 101,
    ensures
        fault_of(result) == value_fault(*value, depth as int),
    decreases 102 - depth, 0int,
{
    if depth > 100 {
        return Err(ChangeEventValidationError::new("logical value nesting exceeds 100"));
    }
    match value {
        LogicalValue::Null => Ok(()),
        LogicalValue::Boolean { .. } => Ok(()),
        LogicalValue::Uuid { value } => ensure(is_uuid(value.as_str()), "invalid UUID value"),
        LogicalValue::Integer { signed, bits, value } => integer(value.as_str(), *signed, *bits),
        LogicalValue::Decimal { unscaled, scale } => decimal(unscaled.as_str(), *scale),
        LogicalValue::Float { bits, ieee754_hex } => float(*bits, ieee754_hex.as_str()),
        LogicalValue::Text { charset, bytes_base64url, text } => {
            if !is_charset_name(charset.as_str()) {
                return Err(ChangeEventValidationError::new("invalid text charset"));
            }
            bytes(bytes_base64url.as_str())
        },
        LogicalValue::Binary { bytes_base64url } => bytes(bytes_base64url.as_str()),
        LogicalValue::Xml { bytes_base64url, text } => bytes(bytes_base64url.as_str()),
        LogicalValue::BitString { bytes_base64url, bit_length, padding, bit_order } => bit_string(
            bytes_base64url.as_str(),
            *bit_length,
            *padding,
            *bit_order,
        ),
        LogicalValue::Date { year, month, day } => date(*year, *month, *day),
        LogicalValue::LocalTime { hour, minute, second, microsecond } => ensure(
            *hour < 24 && *minute < 60 && *second < 60 && *microsecond < 1_000_000,
            "invalid local time",
        ),
        LogicalValue::LocalDatetime { year, month, day, hour, minute, second, microsecond } => {
            match date(*year, *month, *day) {
                Ok(_) => {},
                Err(error) => {
                    return Err(error);
                },
            }
            ensure(
                *hour < 24 && *minute < 60 && *second < 60 && *microsecond < 1_000_000,
                "invalid datetime",
            )
        },
        LogicalValue::Duration { negative, hours, minutes, seconds, microsecond } => ensure(
            *minutes < 60 && *seconds < 60 && *microsecond < 1_000_000,
            "invalid duration",
        ),
        LogicalValue::Instant { unix_seconds, nanoseconds } => {
            match integer(unix_seconds.as_str(), true, 64) {
                Ok(_) => {},
                Err(error) => {
                    return Err(error);
                },
            }
            ensure(*nanoseconds < 1_000_000_000, "invalid instant fraction")
        },
        LogicalValue::Year { value } => ensure(*value <= 9999, "invalid year"),
        LogicalValue::Enum { label } => ensure(
            is_identifier(label.as_str()),
            "invalid ENUM label",
        ),
        LogicalValue::SetValue { members } => set_members(members),
        LogicalValue::Spatial {
            format,
            bytes_base64url,
            geometry_type,
            dimensions,
            srid,
            crs,
        } => spatial(
            *format,
            bytes_base64url.as_str(),
            geometry_type.as_str(),
            *dimensions,
            *srid,
            crs,
        ),
        LogicalValue::Array { elements } => logical_elements(elements, depth + 1),
        LogicalValue::Struct { fields } => struct_fields(fields, depth + 1),
        LogicalValue::MapValue { entries } => map_entries(entries, depth + 1),
        LogicalValue::Range { empty, lower, upper, lower_inclusive, upper_inclusive } => {
            if *empty && (lower.is_some() || upper.is_some()) {
                return Err(ChangeEventValidationError::new("empty range has bounds"));
            }
            if let Some(bound) = lower {
                match logical_value_at_depth(bound, depth + 1) {
                    Ok(_) => {},
                    Err(error) => {
                        return Err(error);
                    },
                }
            }
            if let Some(bound) = upper {
                return logical_value_at_depth(bound, depth + 1);
            }
            Ok(())
        },
        LogicalValue::MultiRange { ranges } => range_list(ranges, depth + 1),
        LogicalValue::ArrayWithMetadata { elements, dimensions, lower_bounds } => {
            if *dimensions == 0 || *dimensions as usize != lower_bounds.len() {
                return Err(
                    ChangeEventValidationError::new(
                        "array dimensions and lower bounds do not agree",
                    ),
                );
            }
            logical_elements(elements, depth + 1)
        },
        LogicalValue::InvalidTemporal { kind, raw } => {
            let kept = trimmed(kind.as_str());
            ensure(
                !kept.as_str().is_empty() && !raw.as_str().is_empty(),
                "invalid temporal value lacks kind or raw spelling",
            )
        },
        LogicalValue::Network { family, address, prefix_length } => {
            let kept_family = trimmed(family.as_str());
            let kept_address = trimmed(address.as_str());
            if kept_family.as_str().is_empty() || kept_address.as_str().is_empty() || contains_char(
                address.as_str(),
                '\0',
            ) {
                return Err(ChangeEventValidationError::new("network value is incomplete"));
            }
            let fits = match prefix_length {
                Some(prefix) => *prefix <= 128,
                None => true,
            };
            ensure(fits, "network prefix is invalid")
        },
        LogicalValue::Domain { value } => logical_value_at_depth(value, depth + 1),
        LogicalValue::Raw { carrier } => match carrier.validate() {
            Ok(_) => Ok(()),
            Err(error) => {
                let message = error.message();
                let text = concat3(error.code(), ": ", message.as_str());
                Err(ChangeEventValidationError::new(text.as_str()))
            },
        },
        LogicalValue::Json { value } => json_value(value, 0),
    }
}

/// Validate one LogicalValue outside a transaction. Source adapters can use
/// this seam before assembling a change event, while `validate` remains the
/// transaction-level gate.
pub fn validate_value(value: &LogicalValue) -> (result: Result<(), ChangeEventValidationError>)
    ensures
        fault_of(result) == value_fault(*value, 0),
{
    logical_value_at_depth(value, 0)
}

impl LogicalValue {
    pub fn validate(&self) -> (result: Result<(), RawValueValidationError>)
        ensures
            match result {
                Ok(_) => value_fault(*self, 0) is None,
                Err(error) => value_fault(*self, 0) == Some(error.text()),
            },
    {
        match validate_value(self) {
            Ok(_) => Ok(()),
            Err(error) => Err(RawValueValidationError { message: error.message().to_owned() }),
        }
    }
}

// ---------------------------------------------------------------------------
// Row images
// ---------------------------------------------------------------------------

/// Whether an earlier column has the name or the ordinal of column `at`.
pub open spec fn column_before(row: Seq<ColumnDatum>, at: int) -> bool {
    exists|j: int|
        0 <= j < at && ((#[trigger] row[j]).name@ == row[at].name@ || row[j].ordinal
            == row[at].ordinal)
}

/// Whether an earlier column has the key ordinal.
pub open spec fn key_ordinal_before(row: Seq<ColumnDatum>, end: int, ordinal: usize) -> bool {
    exists|j: int| 0 <= j < end && (#[trigger] row[j]).primary_key_ordinal == Some(ordinal)
}

/// Where a datum may stand: an unavailable value in the before image of an
/// UPDATE or DELETE, an unchanged one in the after image of an UPDATE.
pub open spec fn presence_fault(datum: Datum, operation: Operation, is_before: bool) -> Option<
    Seq<char>,
> {
    match datum {
        Datum::Unavailable => fault_unless(
            is_before && !(operation is Insert),
            "unavailable value is only valid in a before image"@,
        ),
        Datum::Unchanged => fault_unless(
            !is_before && operation is Update,
            "unchanged value is only valid in an UPDATE after image"@,
        ),
        _ => None,
    }
}

/// What is wrong with column `at` of a row image.
pub open spec fn column_fault(
    row: Seq<ColumnDatum>,
    at: int,
    operation: Operation,
    is_before: bool,
) -> Option<Seq<char>> {
    let column = row[at];
    if !identifier(column.name@) {
        Some("invalid column identifier"@)
    } else if column.native_type@.len() == 0 {
        Some("native type is empty"@)
    } else if column_before(row, at) {
        Some("duplicate column in image"@)
    } else if column.primary_key_ordinal matches Some(ordinal) && key_ordinal_before(
        row,
        at,
        ordinal,
    ) {
        Some("duplicate primary key ordinal"@)
    } else if column.primary_key_ordinal is Some && !(column.datum is Value) {
        Some("primary key value is absent, unchanged or NULL"@)
    } else if column.primary_key_ordinal is Some && column.generated {
        Some("primary key column is generated"@)
    } else {
        first_fault(
            presence_fault(column.datum, operation, is_before),
            match column.datum {
                Datum::Value(value) => value_fault(value, 0),
                _ => None,
            },
        )
    }
}

/// What is wrong with the columns from `from` on.
pub open spec fn columns_fault(
    row: Seq<ColumnDatum>,
    from: int,
    operation: Operation,
    is_before: bool,
) -> Option<Seq<char>>
    decreases row.len() - from,
{
    if from < 0 || from >= row.len() {
        None
    } else {
        first_fault(
            column_fault(row, from, operation, is_before),
            columns_fault(row, from + 1, operation, is_before),
        )
    }
}

/// How many columns belong to the primary key.
pub open spec fn key_columns(row: Seq<ColumnDatum>) -> nat
    decreases row.len(),
{
    if row.len() == 0 {
        0
    } else {
        key_columns(row.drop_last()) + if row.last().primary_key_ordinal is Some {
            1nat
        } else {
            0nat
        }
    }
}

/// The key ordinals are the numbers below the count of key columns.
pub open spec fn contiguous_keys(row: Seq<ColumnDatum>) -> bool {
    forall|ordinal: usize|
        (ordinal as int) < key_columns(row) ==> #[trigger] key_ordinal_before(
            row,
            row.len() as int,
            ordinal,
        )
}

/// What is wrong with a row image.
pub open spec fn image_fault(
    row: Seq<ColumnDatum>,
    operation: Operation,
    is_before: bool,
) -> Option<Seq<char>> {
    if row.len() == 0 {
        Some("row image is empty"@)
    } else {
        first_fault(
            columns_fault(row, 0, operation, is_before),
            fault_unless(contiguous_keys(row), "primary key ordinals are not contiguous"@),
        )
    }
}

fn is_column_before(row: &Vec<ColumnDatum>, at: usize) -> (result: bool)
    requires
        at < row@.len(),
    ensures
        result == column_before(row@, at as int),
{
    let mut j: usize = 0;
    while j < at
        invariant
            j <= at < row@.len(),
            forall|k: int|
                0 <= k < j ==> (#[trigger] row@[k]).name@ != row@[at as int].name@ && row@[k].ordinal
                    != row@[at as int].ordinal,
        decreases at - j,
    {
        if same(row[j].name.as_str(), row[at].name.as_str()) || row[j].ordinal == row[at].ordinal {
            return true;
        }
        j += 1;
    }
    false
}

fn is_key_ordinal_before(row: &Vec<ColumnDatum>, end: usize, ordinal: usize) -> (result: bool)
    requires
        end <= row@.len(),
    ensures
        result == key_ordinal_before(row@, end as int, ordinal),
{
    let mut j: usize = 0;
    while j < end
        invariant
            j <= end <= row@.len(),
            forall|k: int|
                0 <= k < j ==> (#[trigger] row@[k]).primary_key_ordinal != Some(ordinal),
        decreases end - j,
    {
        if let Some(other) = row[j].primary_key_ordinal {
            if other == ordinal {
                return true;
            }
        }
        j += 1;
    }
    false
}

fn column(
    row: &Vec<ColumnDatum>,
    at: usize,
    operation: Operation,
    is_before: bool,
) -> (result: Result<(), ChangeEventValidationError>)
    requires
        at < row@.len(),
    ensures
        fault_of(result) == column_fault(row@, at as int, operation, is_before),
{
    let column = &row[at];
    if !is_identifier(column.name.as_str()) {
        return Err(ChangeEventValidationError::new("invalid column identifier"));
    }
    if column.native_type.as_str().is_empty() {
        return Err(ChangeEventValidationError::new("native type is empty"));
    }
    if is_column_before(row, at) {
        return Err(ChangeEventValidationError::new("duplicate column in image"));
    }
    if let Some(ordinal) = column.primary_key_ordinal {
        if is_key_ordinal_before(row, at, ordinal) {
            return Err(ChangeEventValidationError::new("duplicate primary key ordinal"));
        }
        if !matches!(column.datum, Datum::Value(_)) {
            return Err(
                ChangeEventValidationError::new("primary key value is absent, unchanged or NULL"),
            );
        }
        if column.generated {
            return Err(ChangeEventValidationError::new("primary key column is generated"));
        }
    }
    match &column.datum {
        Datum::Unavailable => ensure(
            is_before && !matches!(operation, Operation::Insert),
            "unavailable value is only valid in a before image",
        ),
        Datum::Unchanged => ensure(
            !is_before && matches!(operation, Operation::Update),
            "unchanged value is only valid in an UPDATE after image",
        ),
        Datum::Null => Ok(()),
        Datum::Value(value) => validate_value(value),
    }
}

fn count_keys(row: &Vec<ColumnDatum>) -> (result: usize)
    ensures
        result == key_columns(row@),
        result <= row@.len(),
{
    let mut count: usize = 0;
    let mut i: usize = 0;
    assert(row@.take(0) =~= Seq::<ColumnDatum>::empty());
    while i < row.len()
        invariant
            i <= row@.len(),
            count <= i,
            count == key_columns(row@.take(i as int)),
        decreases row@.len() - i,
    {
        assert(row@.take(i + 1).drop_last() =~= row@.take(i as int));
        if row[i].primary_key_ordinal.is_some() {
            count += 1;
        }
        i += 1;
    }
    assert(row@.take(i as int) =~= row@);
    count
}

fn has_contiguous_keys(row: &Vec<ColumnDatum>) -> (result: bool)
    ensures
        result == contiguous_keys(row@),
{
    let count: usize = count_keys(row);
    let length: usize = row.len();
    let mut ordinal: usize = 0;
    while ordinal < count
        invariant
            ordinal <= count == key_columns(row@),
            length == row@.len(),
            forall|k: usize|
                k < ordinal ==> #[trigger] key_ordinal_before(row@, row@.len() as int, k),
        decreases count - ordinal,
    {
        if !is_key_ordinal_before(row, length, ordinal) {
            return false;
        }
        ordinal += 1;
    }
    true
}

pub(crate) fn image(row: &Vec<ColumnDatum>, operation: Operation, is_before: bool) -> (result:
    Result<(), ChangeEventValidationError>)
    ensures
        fault_of(result) == image_fault(row@, operation, is_before),
{
    if row.len() == 0 {
        return Err(ChangeEventValidationError::new("row image is empty"));
    }
    let mut i: usize = 0;
    while i < row.len()
        invariant
            i <= row@.len(),
            columns_fault(row@, 0, operation, is_before) == columns_fault(
                row@,
                i as int,
                operation,
                is_before,
            ),
            row@.len() > 0,
        decreases row@.len() - i,
    {
        match column(row, i, operation, is_before) {
            Ok(_) => {},
            Err(error) => {
                return Err(error);
            },
        }
        i += 1;
    }
    ensure(has_contiguous_keys(row), "primary key ordinals are not contiguous")
}

// ---------------------------------------------------------------------------
// Transactions
// ---------------------------------------------------------------------------

pub open spec fn cursor_fault(cursor: SourceCursor) -> Option<Seq<char>> {
    fault_unless(
        cursor.format@.len() > 0 && cursor.value@.len() > 0,
        "source cursor is incomplete"@,
    )
}

fn cursor(value: &SourceCursor) -> (result: Result<(), ChangeEventValidationError>)
    ensures
        fault_of(result) == cursor_fault(*value),
{
    ensure(
        !value.format.as_str().is_empty() && !value.value.as_str().is_empty(),
        "source cursor is incomplete",
    )
}

/// An operation has the images that it needs and no other.
pub open spec fn shape_fits(change: RowChange) -> bool {
    match change.operation {
        Operation::Insert => change.before is None && change.after is Some,
        Operation::Update => change.before is Some && change.after is Some,
        Operation::Delete => change.before is Some && change.after is None,
    }
}

/// Two columns have one definition.
pub open spec fn same_definition(left: ColumnDatum, right: ColumnDatum) -> bool {
    &&& left.ordinal == right.ordinal
    &&& left.name@ == right.name@
    &&& left.native_type@ == right.native_type@
    &&& left.primary_key_ordinal == right.primary_key_ordinal
    &&& left.generated == right.generated
    &&& same_optional_text(left.collation, right.collation)
}

pub open spec fn same_optional_text(left: Option<String>, right: Option<String>) -> bool {
    match (left, right) {
        (Some(a), Some(b)) => a@ == b@,
        (None, None) => true,
        _ => false,
    }
}

pub fn eq_optional_text(left: &Option<String>, right: &Option<String>) -> (result: bool)
    ensures
        result == same_optional_text(*left, *right),
{
    match (left, right) {
        (Some(a), Some(b)) => *a == *b,
        (None, None) => true,
        _ => false,
    }
}

pub open spec fn same_definitions(before: Seq<ColumnDatum>, after: Seq<ColumnDatum>) -> bool {
    before.len() == after.len() && forall|i: int|
        #![trigger before[i]]
        0 <= i < before.len() ==> same_definition(before[i], after[i])
}

pub open spec fn optional_image_fault(
    image: Option<Vec<ColumnDatum>>,
    operation: Operation,
    is_before: bool,
) -> Option<Seq<char>> {
    match image {
        Some(row) => image_fault(row@, operation, is_before),
        None => None,
    }
}

/// What is wrong with one row change.
pub open spec fn change_fault(change: RowChange) -> Option<Seq<char>> {
    if !(identifier(change.schema@) && identifier(change.table@)) {
        Some("invalid table identifier"@)
    } else if change.schema_basis@.len() == 0 {
        Some("schema basis is missing"@)
    } else {
        first_fault(
            cursor_fault(change.source_cursor),
            first_fault(
                fault_unless(
                    shape_fits(change),
                    "operation has inconsistent before/after images"@,
                ),
                first_fault(
                    optional_image_fault(change.before, change.operation, true),
                    first_fault(
                        optional_image_fault(change.after, change.operation, false),
                        match (change.before, change.after) {
                            (Some(before), Some(after)) => fault_unless(
                                same_definitions(before@, after@),
                                "UPDATE before/after column definitions differ"@,
                            ),
                            _ => None,
                        },
                    ),
                ),
            ),
        )
    }
}

/// What is wrong with the changes from `from` on.
pub open spec fn changes_fault(changes: Seq<RowChange>, from: int) -> Option<Seq<char>>
    decreases changes.len() - from,
{
    if from < 0 || from >= changes.len() {
        None
    } else {
        first_fault(change_fault(changes[from]), changes_fault(changes, from + 1))
    }
}

/// What is wrong with the parts of a transaction.
pub open spec fn parts_fault(
    source: Source,
    id: Seq<char>,
    begin_cursor: SourceCursor,
    commit_cursor: SourceCursor,
    changes: Seq<RowChange>,
) -> Option<Seq<char>> {
    if trim(id).len() == 0 {
        Some("transaction id is empty"@)
    } else if source.kind@.len() == 0 || source.version@.len() == 0 || source.id@.len() == 0 {
        Some("source identity is incomplete"@)
    } else {
        first_fault(
            cursor_fault(begin_cursor),
            first_fault(
                cursor_fault(commit_cursor),
                first_fault(
                    fault_unless(changes.len() > 0, "transaction has no changes"@),
                    changes_fault(changes, 0),
                ),
            ),
        )
    }
}

/// What is wrong with a transaction.
pub open spec fn transaction_fault(transaction: ChangeTransaction) -> Option<Seq<char>> {
    parts_fault(
        transaction.source,
        transaction.id@,
        transaction.begin_cursor,
        transaction.commit_cursor,
        transaction.changes@,
    )
}

fn have_same_definitions(before: &Vec<ColumnDatum>, after: &Vec<ColumnDatum>) -> (result: bool)
    ensures
        result == same_definitions(before@, after@),
{
    if before.len() != after.len() {
        return false;
    }
    let mut i: usize = 0;
    while i < before.len()
        invariant
            i <= before@.len() == after@.len(),
            forall|k: int|
                #![trigger before@[k]]
                0 <= k < i ==> same_definition(before@[k], after@[k]),
        decreases before@.len() - i,
    {
        let b = &before[i];
        let a = &after[i];
        let same_key = match (b.primary_key_ordinal, a.primary_key_ordinal) {
            (Some(x), Some(y)) => x == y,
            (None, None) => true,
            _ => false,
        };
        if !(b.ordinal == a.ordinal && b.name == a.name && b.native_type == a.native_type
            && same_key && b.generated == a.generated && eq_optional_text(
            &b.collation,
            &a.collation,
        )) {
            assert(!same_definition(before@[i as int], after@[i as int]));
            return false;
        }
        i += 1;
    }
    true
}

fn row_change(change: &RowChange) -> (result: Result<(), ChangeEventValidationError>)
    ensures
        fault_of(result) == change_fault(*change),
{
    if !is_identifier(change.schema.as_str()) || !is_identifier(change.table.as_str()) {
        return Err(ChangeEventValidationError::new("invalid table identifier"));
    }
    if change.schema_basis.as_str().is_empty() {
        return Err(ChangeEventValidationError::new("schema basis is missing"));
    }
    match cursor(&change.source_cursor) {
        Ok(_) => {},
        Err(error) => {
            return Err(error);
        },
    }
    let fits = match change.operation {
        Operation::Insert => change.before.is_none() && change.after.is_some(),
        Operation::Update => change.before.is_some() && change.after.is_some(),
        Operation::Delete => change.before.is_some() && change.after.is_none(),
    };
    if !fits {
        return Err(
            ChangeEventValidationError::new("operation has inconsistent before/after images"),
        );
    }
    if let Some(row) = &change.before {
        match image(row, change.operation, true) {
            Ok(_) => {},
            Err(error) => {
                return Err(error);
            },
        }
    }
    if let Some(row) = &change.after {
        match image(row, change.operation, false) {
            Ok(_) => {},
            Err(error) => {
                return Err(error);
            },
        }
    }
    match (&change.before, &change.after) {
        (Some(before), Some(after)) => ensure(
            have_same_definitions(before, after),
            "UPDATE before/after column definitions differ",
        ),
        _ => Ok(()),
    }
}

/// Only validate() can construct this type. Access is read-only after
/// validation.
#[derive(Debug)]
pub struct ValidatedTransaction {
    transaction: ChangeTransaction,
}

impl ValidatedTransaction {
    /// The transaction inside.
    pub closed spec fn inner(&self) -> ChangeTransaction {
        self.transaction
    }

    #[verifier::type_invariant]
    spec fn is_valid(&self) -> bool {
        transaction_fault(self.transaction) is None
    }

    pub fn transaction(&self) -> (result: &ChangeTransaction)
        ensures
            *result == self.inner(),
            transaction_fault(*result) is None,
    {
        proof {
            use_type_invariant(self);
        }
        &self.transaction
    }

    pub fn content_digest(&self) -> (result: String)
        ensures
            result@ == digest(canonical_transaction_doc(self.inner())),
            digest_spelling(result@),
    {
        self.transaction.content_digest()
    }

    /// The transaction, no longer protected.
    pub fn into_transaction(self) -> (result: ChangeTransaction)
        ensures
            result == self.inner(),
            transaction_fault(result) is None,
    {
        proof {
            use_type_invariant(&self);
        }
        self.transaction
    }
}

/// Validate the database-independent row-only contract.
///
/// Source versions, identities, cursor encodings, transaction identifiers, and
/// native row-image rules belong to a Source Contract and are deliberately not
/// checked here.
pub fn validate(transaction: ChangeTransaction) -> (result: Result<
    ValidatedTransaction,
    ChangeEventValidationError,
>)
    ensures
        match result {
            Ok(validated) => transaction_fault(transaction) is None && validated.inner()
                == transaction,
            Err(error) => transaction_fault(transaction) == Some(error.text()),
        },
{
    let kept_id = trimmed(transaction.id.as_str());
    if kept_id.as_str().is_empty() {
        return Err(ChangeEventValidationError::new("transaction id is empty"));
    }
    if transaction.source.kind.as_str().is_empty() || transaction.source.version.as_str().is_empty()
        || transaction.source.id.as_str().is_empty() {
        return Err(ChangeEventValidationError::new("source identity is incomplete"));
    }
    match cursor(&transaction.begin_cursor) {
        Ok(_) => {},
        Err(error) => {
            return Err(error);
        },
    }
    match cursor(&transaction.commit_cursor) {
        Ok(_) => {},
        Err(error) => {
            return Err(error);
        },
    }
    if transaction.changes.len() == 0 {
        return Err(ChangeEventValidationError::new("transaction has no changes"));
    }
    let mut i: usize = 0;
    while i < transaction.changes.len()
        invariant
            i <= transaction.changes@.len(),
            transaction_fault(transaction) == changes_fault(transaction.changes@, i as int),
        decreases transaction.changes@.len() - i,
    {
        match row_change(&transaction.changes[i]) {
            Ok(_) => {},
            Err(error) => {
                return Err(error);
            },
        }
        i += 1;
    }
    Ok(ValidatedTransaction { transaction })
}

} // verus!
