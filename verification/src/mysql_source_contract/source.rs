//! What a transaction of a MySQL source must hold.
use crate::change_event::compatibility::planner::matching::{base_name, read_base_name};
use crate::change_event::compatibility::planner::representation::{bracketed, read_bracketed};
use crate::change_event::model::{ChangeTransaction, ColumnDatum, Datum, LogicalValue, RowChange};
use crate::change_event::validate::{
    fault_unless, first_fault, is_uuid, uuid_text, SourceContractError, ValidatedTransaction,
};
use crate::encoding::{base64url_decode, base64url_decoded};
use crate::mysql_source_contract::cursor::{binlog_position, position};
use crate::number::{
    parse_i64, parse_signed, parse_u16, parse_u32, parse_u64, parse_unsigned, parse_usize,
};
use crate::text::{
    after_prefix, ascii_digit, ascii_letter, chars_of, contains_char, contains_text, eq_ignore_case,
    has_part, is_ascii_digit, is_ascii_letter, join, law_joining_undoes_splitting, lower,
    rsplit_once, same, same_ignoring_case, split, split_at_first, split_at_last, split_once,
    split_text, strip_prefix, text_between, texts, to_lower, trim, trimmed,
};
use vstd::prelude::*;

verus! {

/// The versions of MySQL that can be captured.
#[derive(Clone, Copy, Debug, Eq, PartialEq, Structural)]
pub enum MysqlVersion {
    V57,
    V80,
    V84,
}

/// What a check of the source contract has found.
pub open spec fn source_fault_of(result: Result<(), SourceContractError>) -> Option<Seq<char>> {
    match result {
        Ok(_) => None,
        Err(error) => Some(error.text()),
    }
}

fn ensure(ok: bool, message: &str) -> (result: Result<(), SourceContractError>)
    ensures
        source_fault_of(result) == fault_unless(ok, message@),
{
    if ok {
        Ok(())
    } else {
        Err(SourceContractError::new(message))
    }
}

// ---------------------------------------------------------------------------
// Native types
// ---------------------------------------------------------------------------

/// A text without a suffix, where it ends in it.
pub open spec fn before_suffix(text: Seq<char>, c: char) -> Option<Seq<char>> {
    if text.len() > 0 && text.last() == c {
        Some(text.drop_last())
    } else {
        None
    }
}

pub(crate) fn strip_suffix(text: &str, c: char) -> (result: Option<String>)
    ensures
        (match result {
            Some(rest) => Some(rest@),
            None => None,
        }) == before_suffix(text@, c),
{
    let chars = chars_of(text);
    let length: usize = chars.len();
    if length > 0 && chars[length - 1] == c {
        let rest = text_between(&chars, 0, length - 1);
        assert(rest@ =~= text@.drop_last());
        Some(rest)
    } else {
        None
    }
}

/// The scale that a decimal type declares.
pub open spec fn declared_scale(native: Seq<char>) -> Option<nat> {
    let parameters = match after_prefix(native, "decimal("@) {
        Some(rest) => Some(rest),
        None => after_prefix(native, "numeric("@),
    };
    match parameters {
        None => None,
        Some(parameters) => match before_suffix(parameters, ')') {
            None => None,
            Some(parameters) => match split_once(parameters, ',') {
                None => None,
                Some((_, scale)) => parse_unsigned(trim(scale), usize::MAX as nat),
            },
        },
    }
}

fn decimal_scale(native: &str) -> (result: Option<usize>)
    ensures
        match result {
            Some(scale) => declared_scale(native@) == Some(scale as nat),
            None => declared_scale(native@) is None,
        },
{
    let parameters = match strip_prefix(native, "decimal(") {
        Some(rest) => Some(rest),
        None => strip_prefix(native, "numeric("),
    };
    match parameters {
        None => None,
        Some(parameters) => match strip_suffix(parameters.as_str(), ')') {
            None => None,
            Some(parameters) => match split_at_first(parameters.as_str(), ',') {
                None => None,
                Some((_, scale)) => {
                    let kept = trimmed(scale.as_str());
                    parse_usize(kept.as_str())
                },
            },
        },
    }
}

/// The length that a type declares in brackets.
pub open spec fn declared_length(native: Seq<char>) -> Option<nat> {
    match bracketed(native) {
        Some(inner) => parse_unsigned(trim(inner), usize::MAX as nat),
        None => None,
    }
}

/// A value of so many bytes fits a binary type.
pub open spec fn binary_length_fits(native: Seq<char>, length: nat) -> bool {
    let base = base_name(native);
    let declared = declared_length(native);
    if base == "binary"@ {
        length == match declared {
            Some(declared) => declared,
            None => 1,
        }
    } else if base == "varbinary"@ {
        declared matches Some(maximum) ==> length <= maximum
    } else if base == "tinyblob"@ {
        length <= 255
    } else if base == "blob"@ {
        length <= 65_535
    } else if base == "mediumblob"@ {
        length <= 16_777_215
    } else {
        base == "longblob"@
    }
}

fn binary_length_matches(native: &str, base: &str, length: usize) -> (result: bool)
    requires
        base@ == base_name(native@),
    ensures
        result == binary_length_fits(native@, length as nat),
{
    let declared: Option<usize> = match read_bracketed(native) {
        Some(inner) => {
            let kept = trimmed(inner.as_str());
            parse_usize(kept.as_str())
        },
        None => None,
    };
    if same(base, "binary") {
        match declared {
            Some(declared) => length == declared,
            None => length == 1,
        }
    } else if same(base, "varbinary") {
        match declared {
            Some(maximum) => length <= maximum,
            None => true,
        }
    } else if same(base, "tinyblob") {
        length <= 255
    } else if same(base, "blob") {
        length <= 65_535
    } else if same(base, "mediumblob") {
        length <= 16_777_215
    } else {
        same(base, "longblob")
    }
}

/// The width of a floating-point type.
pub open spec fn float_width(native: Seq<char>) -> Option<u8> {
    let base = base_name(native);
    if base == "float"@ {
        let precision = match after_prefix(native, "float("@) {
            None => None,
            Some(rest) => match split_once(rest, ')') {
                None => None,
                Some((inner, _)) => parse_unsigned(trim(inner), 65_535),
            },
        };
        match precision {
            Some(precision) if precision > 24 => Some(64),
            _ => Some(32),
        }
    } else if base == "double"@ || base == "real"@ {
        Some(64)
    } else {
        None
    }
}

fn float_bits(native: &str) -> (result: Option<u8>)
    ensures
        result == float_width(native@),
{
    let base = read_base_name(native);
    let base = base.as_str();
    if same(base, "float") {
        let precision: Option<u16> = match strip_prefix(native, "float(") {
            None => None,
            Some(rest) => match split_at_first(rest.as_str(), ')') {
                None => None,
                Some((inner, _)) => {
                    let kept = trimmed(inner.as_str());
                    parse_u16(kept.as_str())
                },
            },
        };
        match precision {
            Some(precision) => if precision > 24 {
                Some(64)
            } else {
                Some(32)
            },
            None => Some(32),
        }
    } else if same(base, "double") || same(base, "real") {
        Some(64)
    } else {
        None
    }
}

/// The width of an integer type.
pub open spec fn integer_width(base: Seq<char>) -> u8 {
    if base == "tinyint"@ {
        8
    } else if base == "smallint"@ {
        16
    } else if base == "mediumint"@ {
        24
    } else if base == "int"@ || base == "integer"@ {
        32
    } else if base == "bigint"@ {
        64
    } else {
        0
    }
}

fn integer_bits(base: &str) -> (result: u8)
    ensures
        result == integer_width(base@),
{
    if same(base, "tinyint") {
        8
    } else if same(base, "smallint") {
        16
    } else if same(base, "mediumint") {
        24
    } else if same(base, "int") || same(base, "integer") {
        32
    } else if same(base, "bigint") {
        64
    } else {
        0
    }
}

pub open spec fn text_base(base: Seq<char>) -> bool {
    base == "char"@ || base == "varchar"@ || base == "tinytext"@ || base == "text"@ || base
        == "mediumtext"@ || base == "longtext"@
}

fn is_text_base(base: &str) -> (result: bool)
    ensures
        result == text_base(base@),
{
    same(base, "char") || same(base, "varchar") || same(base, "tinytext") || same(base, "text")
        || same(base, "mediumtext") || same(base, "longtext")
}

/// The bits that a bit type declares.
pub open spec fn declared_bits(native: Seq<char>) -> Option<nat> {
    match bracketed(native) {
        Some(inner) => parse_unsigned(inner, u64::MAX as nat),
        None => Some(1),
    }
}

fn read_declared_bits(native: &str) -> (result: Option<u64>)
    ensures
        match result {
            Some(bits) => declared_bits(native@) == Some(bits as nat),
            None => declared_bits(native@) is None,
        },
{
    match read_bracketed(native) {
        Some(inner) => parse_u64(inner.as_str()),
        None => Some(1),
    }
}

/// The bytes that hold so many bits.
pub open spec fn bytes_for(bits: u64) -> int {
    (bits + 7) / 8
}

/// A label that can be declared.
pub open spec fn sound_label(label: Seq<char>) -> bool {
    label.len() > 0 && !label.contains('\0')
}

fn is_sound_label(label: &str) -> (result: bool)
    ensures
        result == sound_label(label@),
{
    !label.is_empty() && !contains_char(label, '\0')
}

fn are_sound_labels(labels: &Vec<String>) -> (result: bool)
    ensures
        result == forall|i: int| 0 <= i < labels@.len() ==> sound_label(#[trigger] labels@[i]@),
{
    let mut i: usize = 0;
    while i < labels.len()
        invariant
            i <= labels@.len(),
            forall|k: int| 0 <= k < i ==> sound_label(#[trigger] labels@[k]@),
        decreases labels@.len() - i,
    {
        if !is_sound_label(labels[i].as_str()) {
            assert(!sound_label(labels@[i as int]@));
            return false;
        }
        i += 1;
    }
    true
}

// ---------------------------------------------------------------------------
// Values
// ---------------------------------------------------------------------------

/// The value can be one of a column of the native type, in lower case.
pub open spec fn native_value(native: Seq<char>, value: LogicalValue) -> bool {
    let base = base_name(native);
    match value {
        LogicalValue::Integer { signed, bits, .. } => integer_width(base) == bits && signed
            == !has_part(native, " unsigned"@),
        LogicalValue::Decimal { scale, .. } => (base == "decimal"@ || base == "numeric"@) && (
        declared_scale(native) matches Some(declared) ==> declared == scale as nat),
        LogicalValue::Float { bits, .. } => float_width(native) == Some(bits),
        LogicalValue::Text { charset, .. } => text_base(base) && charset@.len() > 0 && charset@
            != "unknown"@,
        LogicalValue::Binary { bytes_base64url } => base64url_decoded(
            bytes_base64url@,
        ) matches Some(bytes) && binary_length_fits(native, bytes.len()),
        LogicalValue::BitString { bytes_base64url, bit_length, .. } => base64url_decoded(
            bytes_base64url@,
        ) matches Some(bytes) && base == "bit"@ && declared_bits(native) == Some(bit_length as nat)
            && bytes.len() == bytes_for(bit_length),
        LogicalValue::Date { .. } => base == "date"@,
        LogicalValue::LocalDatetime { .. } => base == "datetime"@,
        LogicalValue::Instant { .. } => base == "timestamp"@,
        LogicalValue::Duration { .. } => base == "time"@,
        LogicalValue::Year { .. } => base == "year"@,
        LogicalValue::Json { .. } => base == "json"@,
        LogicalValue::Enum { label } => base == "enum"@ && sound_label(label@),
        LogicalValue::SetValue { members } => base == "set"@ && forall|i: int|
            0 <= i < members@.len() ==> sound_label(#[trigger] members@[i]@),
        _ => false,
    }
}

/// What is wrong with the value of a column.
pub open spec fn column_fault(column: ColumnDatum) -> Option<Seq<char>> {
    match column.datum {
        Datum::Value(value) => match value {
            LogicalValue::Binary { bytes_base64url } if base64url_decoded(
                bytes_base64url@,
            ) is None => Some("binary value is not valid base64url bytes"@),
            LogicalValue::BitString { bytes_base64url, .. } if base64url_decoded(
                bytes_base64url@,
            ) is None => Some("BIT value is not valid base64url bytes"@),
            _ => fault_unless(
                native_value(lower(trim(column.native_type@)), value),
                "MySQL native type does not match LogicalValue"@,
            ),
        },
        _ => None,
    }
}

fn validate_column(column: &ColumnDatum) -> (result: Result<(), SourceContractError>)
    ensures
        source_fault_of(result) == column_fault(*column),
{
    let value = match &column.datum {
        Datum::Value(value) => value,
        _ => return Ok(()),
    };
    let kept = trimmed(column.native_type.as_str());
    let lowered = to_lower(kept.as_str());
    let native = lowered.as_str();
    let base = read_base_name(native);
    let base = base.as_str();
    let valid = match value {
        LogicalValue::Integer { signed, bits, .. } => integer_bits(base) == *bits && *signed
            == !contains_text(native, " unsigned"),
        LogicalValue::Decimal { scale, .. } => (same(base, "decimal") || same(base, "numeric"))
            && match decimal_scale(native) {
            Some(declared) => declared == *scale,
            None => true,
        },
        LogicalValue::Float { bits, .. } => match float_bits(native) {
            Some(width) => width == *bits,
            None => false,
        },
        LogicalValue::Text { charset, .. } => is_text_base(base) && !charset.as_str().is_empty()
            && !same(charset.as_str(), "unknown"),
        LogicalValue::Binary { bytes_base64url } => match base64url_decode(
            bytes_base64url.as_str(),
        ) {
            Some(bytes) => binary_length_matches(native, base, bytes.len()),
            None => return Err(
                SourceContractError::new("binary value is not valid base64url bytes"),
            ),
        },
        LogicalValue::BitString { bytes_base64url, bit_length, .. } => match base64url_decode(
            bytes_base64url.as_str(),
        ) {
            Some(bytes) => {
                let whole: u64 = *bit_length / 8;
                let needed: u64 = if *bit_length % 8 == 0 {
                    whole
                } else {
                    whole + 1
                };
                let declared = match read_declared_bits(native) {
                    Some(bits) => bits == *bit_length,
                    None => false,
                };
                same(base, "bit") && declared && bytes.len() as u64 == needed
            },
            None => return Err(
                SourceContractError::new("BIT value is not valid base64url bytes"),
            ),
        },
        LogicalValue::Date { .. } => same(base, "date"),
        LogicalValue::LocalDatetime { .. } => same(base, "datetime"),
        LogicalValue::Instant { .. } => same(base, "timestamp"),
        LogicalValue::Duration { .. } => same(base, "time"),
        LogicalValue::Year { .. } => same(base, "year"),
        LogicalValue::Json { .. } => same(base, "json"),
        LogicalValue::Enum { label } => same(base, "enum") && is_sound_label(label.as_str()),
        LogicalValue::SetValue { members } => same(base, "set") && are_sound_labels(members),
        _ => false,
    };
    ensure(valid, "MySQL native type does not match LogicalValue")
}

// ---------------------------------------------------------------------------
// Row images
// ---------------------------------------------------------------------------

/// What is wrong with the columns of an image from a position on.
pub open spec fn columns_fault(image: Seq<ColumnDatum>, from: int) -> Option<Seq<char>>
    decreases image.len() - from,
{
    if from < 0 || from >= image.len() {
        None
    } else {
        first_fault(column_fault(image[from]), columns_fault(image, from + 1))
    }
}

/// What is wrong with a full row image.
pub open spec fn full_image_fault(image: Seq<ColumnDatum>) -> Option<Seq<char>> {
    if exists|i: int|
        0 <= i < image.len() && !((#[trigger] image[i]).datum is Null || image[i].datum is Value) {
        Some("MySQL FULL images cannot contain unavailable or unchanged values"@)
    } else if exists|i: int| 0 <= i < image.len() && (#[trigger] image[i]).ordinal != i {
        Some("MySQL FULL row image must contain every column in ordinal order"@)
    } else if forall|i: int|
        0 <= i < image.len() ==> (#[trigger] image[i]).primary_key_ordinal is None {
        Some("MySQL capture requires a primary key Row Locator"@)
    } else {
        columns_fault(image, 0)
    }
}

pub open spec fn optional_image_fault(image: Option<Vec<ColumnDatum>>) -> Option<Seq<char>> {
    match image {
        Some(image) => full_image_fault(image@),
        None => None,
    }
}

fn is_full(image: &Vec<ColumnDatum>) -> (result: bool)
    ensures
        result == !exists|i: int|
            0 <= i < image@.len() && !((#[trigger] image@[i]).datum is Null
                || image@[i].datum is Value),
{
    let mut i: usize = 0;
    while i < image.len()
        invariant
            i <= image@.len(),
            forall|k: int|
                0 <= k < i ==> (#[trigger] image@[k]).datum is Null || image@[k].datum is Value,
        decreases image@.len() - i,
    {
        let full = match &image[i].datum {
            Datum::Null => true,
            Datum::Value(_) => true,
            _ => false,
        };
        if !full {
            assert(!(image@[i as int].datum is Null || image@[i as int].datum is Value));
            return false;
        }
        i += 1;
    }
    true
}

fn is_in_order(image: &Vec<ColumnDatum>) -> (result: bool)
    ensures
        result == !exists|i: int| 0 <= i < image@.len() && (#[trigger] image@[i]).ordinal != i,
{
    let mut i: usize = 0;
    while i < image.len()
        invariant
            i <= image@.len(),
            forall|k: int| 0 <= k < i ==> (#[trigger] image@[k]).ordinal == k,
        decreases image@.len() - i,
    {
        if image[i].ordinal != i {
            assert(image@[i as int].ordinal != i);
            return false;
        }
        i += 1;
    }
    true
}

fn has_key_column(image: &Vec<ColumnDatum>) -> (result: bool)
    ensures
        result == !(forall|i: int|
            0 <= i < image@.len() ==> (#[trigger] image@[i]).primary_key_ordinal is None),
{
    let mut i: usize = 0;
    while i < image.len()
        invariant
            i <= image@.len(),
            forall|k: int| 0 <= k < i ==> (#[trigger] image@[k]).primary_key_ordinal is None,
        decreases image@.len() - i,
    {
        if image[i].primary_key_ordinal.is_some() {
            assert(image@[i as int].primary_key_ordinal is Some);
            return true;
        }
        i += 1;
    }
    false
}

fn validate_image(image: &Option<Vec<ColumnDatum>>) -> (result: Result<(), SourceContractError>)
    ensures
        source_fault_of(result) == optional_image_fault(*image),
{
    let image = match image {
        Some(image) => image,
        None => return Ok(()),
    };
    if !is_full(image) {
        return Err(
            SourceContractError::new(
                "MySQL FULL images cannot contain unavailable or unchanged values",
            ),
        );
    }
    if !is_in_order(image) {
        return Err(
            SourceContractError::new(
                "MySQL FULL row image must contain every column in ordinal order",
            ),
        );
    }
    if !has_key_column(image) {
        return Err(
            SourceContractError::new("MySQL capture requires a primary key Row Locator"),
        );
    }
    validate_columns(image)
}

fn validate_columns(image: &Vec<ColumnDatum>) -> (result: Result<(), SourceContractError>)
    ensures
        source_fault_of(result) == columns_fault(image@, 0),
{
    let mut i: usize = 0;
    while i < image.len()
        invariant
            i <= image@.len(),
            columns_fault(image@, 0) == columns_fault(image@, i as int),
        decreases image@.len() - i,
    {
        match validate_column(&image[i]) {
            Ok(_) => {},
            Err(error) => return Err(error),
        }
        i += 1;
    }
    Ok(())
}

// ---------------------------------------------------------------------------
// Transactions
// ---------------------------------------------------------------------------

/// The first two numbers of a version.
pub open spec fn family(version: MysqlVersion) -> (Seq<char>, Seq<char>) {
    match version {
        MysqlVersion::V57 => ("5"@, "7"@),
        MysqlVersion::V80 => ("8"@, "0"@),
        MysqlVersion::V84 => ("8"@, "4"@),
    }
}

/// What is wrong with the source of a transaction.
pub open spec fn identity_fault(
    kind: Seq<char>,
    version: Seq<char>,
    id: Seq<char>,
    expected: MysqlVersion,
) -> Option<Seq<char>> {
    let parts = split(split(version, '-')[0], '.');
    if kind != "mysql"@ {
        Some("MySQL Source Contract requires source kind mysql"@)
    } else if parts.len() != 3 || parse_unsigned(parts[2], u32::MAX as nat) is None {
        Some("invalid MySQL source version"@)
    } else if (parts[0], parts[1]) != family(expected) {
        Some("unexpected MySQL source version"@)
    } else if !uuid_text(id) {
        Some("invalid MySQL server UUID"@)
    } else {
        None
    }
}

fn check_identity(kind: &str, version: &str, id: &str, expected: MysqlVersion) -> (result: Result<
    (),
    SourceContractError,
>)
    ensures
        source_fault_of(result) == identity_fault(kind@, version@, id@, expected),
{
    if !same(kind, "mysql") {
        return Err(SourceContractError::new("MySQL Source Contract requires source kind mysql"));
    }
    let pieces = split_text(version, '-');
    assert(texts(pieces@)[0] == pieces@[0]@);
    let parts = split_text(pieces[0].as_str(), '.');
    let ghost all = texts(parts@);
    assert(all == split(split(version@, '-')[0], '.'));
    if parts.len() != 3 {
        return Err(SourceContractError::new("invalid MySQL source version"));
    }
    assert(all[0] == parts@[0]@ && all[1] == parts@[1]@ && all[2] == parts@[2]@);
    if parse_u32(parts[2].as_str()).is_none() {
        return Err(SourceContractError::new("invalid MySQL source version"));
    }
    let (major, minor) = match expected {
        MysqlVersion::V57 => ("5", "7"),
        MysqlVersion::V80 => ("8", "0"),
        MysqlVersion::V84 => ("8", "4"),
    };
    if !same(parts[0].as_str(), major) || !same(parts[1].as_str(), minor) {
        return Err(SourceContractError::new("unexpected MySQL source version"));
    }
    ensure(is_uuid(id), "invalid MySQL server UUID")
}

/// A tag of a tagged transaction identifier.
pub open spec fn gtid_tag(tag: Seq<char>) -> bool {
    &&& 0 < tag.len() <= 32
    &&& ascii_letter(tag[0]) || tag[0] == '_'
    &&& forall|i: int|
        0 <= i < tag.len() ==> ascii_letter(#[trigger] tag[i]) || ascii_digit(tag[i]) || tag[i]
            == '_'
}

fn is_gtid_tag(tag: &str) -> (result: bool)
    ensures
        result == gtid_tag(tag@),
{
    let chars = chars_of(tag);
    if chars.len() == 0 || chars.len() > 32 || !(is_ascii_letter(chars[0]) || chars[0] == '_') {
        return false;
    }
    let mut i: usize = 0;
    while i < chars.len()
        invariant
            i <= chars@.len(),
            chars@ == tag@,
            forall|k: int|
                0 <= k < i ==> ascii_letter(#[trigger] tag@[k]) || ascii_digit(tag@[k]) || tag@[k]
                    == '_',
        decreases chars@.len() - i,
    {
        if !(is_ascii_letter(chars[i]) || is_ascii_digit(chars[i]) || chars[i] == '_') {
            assert(!(ascii_letter(tag@[i as int]) || ascii_digit(tag@[i as int]) || tag@[i as int]
                == '_'));
            return false;
        }
        i += 1;
    }
    true
}

/// A file and an offset that an anonymous transaction is named by.
pub open spec fn anonymous_position(position: Seq<char>) -> bool {
    match rsplit_once(position, ':') {
        Some((file, offset)) => file.len() > 0 && (match parse_unsigned(offset, u32::MAX as nat) {
            Some(offset) => offset >= 4,
            None => false,
        }),
        None => false,
    }
}

/// What is wrong with the identifier of a transaction.
pub open spec fn gtid_fault(id: Seq<char>, source_id: Seq<char>, expected: MysqlVersion) -> Option<
    Seq<char>,
> {
    match after_prefix(id, "anonymous:"@) {
        Some(position) => fault_unless(
            anonymous_position(position),
            "invalid anonymous MySQL transaction id"@,
        ),
        None => {
            let parts = split(id, ':');
            if parts.len() != 2 && parts.len() != 3 {
                Some("invalid MySQL GTID"@)
            } else if !uuid_text(parts[0]) {
                Some("invalid GTID source UUID"@)
            } else if !same_ignoring_case(parts[0], source_id) {
                Some("MySQL GTID source UUID does not match source identity"@)
            } else if !(parse_signed(
                parts.last(),
                i64::MIN as int,
                i64::MAX as int,
            ) matches Some(number) && number > 0) {
                Some("invalid GTID sequence"@)
            } else if parts.len() == 3 && expected != MysqlVersion::V84 {
                Some("tagged GTID requires MySQL 8.4"@)
            } else if parts.len() == 3 && !gtid_tag(parts[1]) {
                Some("invalid MySQL 8.4 GTID tag"@)
            } else {
                None
            }
        },
    }
}

fn check_gtid(id: &str, source_id: &str, expected: MysqlVersion) -> (result: Result<
    (),
    SourceContractError,
>)
    ensures
        source_fault_of(result) == gtid_fault(id@, source_id@, expected),
{
    if let Some(place) = strip_prefix(id, "anonymous:") {
        let valid = match split_at_last(place.as_str(), ':') {
            Some((file, offset)) => !file.as_str().is_empty() && match parse_u32(offset.as_str()) {
                Some(offset) => offset >= 4,
                None => false,
            },
            None => false,
        };
        return ensure(valid, "invalid anonymous MySQL transaction id");
    }
    let parts = split_text(id, ':');
    let ghost all = texts(parts@);
    let count: usize = parts.len();
    if count != 2 && count != 3 {
        return Err(SourceContractError::new("invalid MySQL GTID"));
    }
    assert(all[0] == parts@[0]@ && all[1] == parts@[1]@ && all.last() == parts@[count - 1]@);
    if !is_uuid(parts[0].as_str()) {
        return Err(SourceContractError::new("invalid GTID source UUID"));
    }
    if !eq_ignore_case(parts[0].as_str(), source_id) {
        return Err(
            SourceContractError::new("MySQL GTID source UUID does not match source identity"),
        );
    }
    let sequenced = match parse_i64(parts[count - 1].as_str()) {
        Some(number) => number > 0,
        None => false,
    };
    if !sequenced {
        return Err(SourceContractError::new("invalid GTID sequence"));
    }
    if count == 3 {
        if !matches!(expected, MysqlVersion::V84) {
            return Err(SourceContractError::new("tagged GTID requires MySQL 8.4"));
        }
        return ensure(is_gtid_tag(parts[1].as_str()), "invalid MySQL 8.4 GTID tag");
    }
    Ok(())
}

/// What is wrong with the changes from a position on, behind a row at offset
/// `previous`.
pub open spec fn rows_fault(
    changes: Seq<RowChange>,
    from: int,
    file: Seq<char>,
    begin: nat,
    commit: nat,
    previous: nat,
) -> Option<Seq<char>>
    decreases changes.len() - from,
{
    if from < 0 || from >= changes.len() {
        None
    } else {
        let change = changes[from];
        if change.database is Some {
            Some("MySQL database is carried in schema"@)
        } else {
            match binlog_position(change.source_cursor) {
                Err(fault) => Some(fault),
                Ok((row_file, row)) => if row_file != file || !(begin < row && previous <= row && row
                    < commit) {
                    Some("MySQL row cursor is outside its transaction or out of order"@)
                } else {
                    first_fault(
                        optional_image_fault(change.before),
                        first_fault(
                            optional_image_fault(change.after),
                            rows_fault(changes, from + 1, file, begin, commit, row),
                        ),
                    )
                },
            }
        }
    }
}

fn validate_rows(changes: &Vec<RowChange>, file: &str, begin: u32, commit: u32) -> (result: Result<
    (),
    SourceContractError,
>)
    ensures
        source_fault_of(result) == rows_fault(
            changes@,
            0,
            file@,
            begin as nat,
            commit as nat,
            begin as nat,
        ),
{
    let mut previous: u32 = begin;
    let mut i: usize = 0;
    while i < changes.len()
        invariant
            i <= changes@.len(),
            rows_fault(changes@, 0, file@, begin as nat, commit as nat, begin as nat) == rows_fault(
                changes@,
                i as int,
                file@,
                begin as nat,
                commit as nat,
                previous as nat,
            ),
        decreases changes@.len() - i,
    {
        let change = &changes[i];
        if change.database.is_some() {
            return Err(SourceContractError::new("MySQL database is carried in schema"));
        }
        let (row_file, row) = match position(&change.source_cursor) {
            Ok(place) => place,
            Err(error) => return Err(error),
        };
        if !(same(file, row_file.as_str()) && row > begin && row >= previous && row < commit) {
            return Err(
                SourceContractError::new(
                    "MySQL row cursor is outside its transaction or out of order",
                ),
            );
        }
        match validate_image(&change.before) {
            Ok(_) => {},
            Err(error) => return Err(error),
        }
        match validate_image(&change.after) {
            Ok(_) => {},
            Err(error) => return Err(error),
        }
        previous = row;
        i += 1;
    }
    Ok(())
}

/// What is wrong with a transaction of a MySQL source.
pub open spec fn source_fault(transaction: ChangeTransaction, expected: MysqlVersion) -> Option<
    Seq<char>,
> {
    first_fault(
        identity_fault(
            transaction.source.kind@,
            transaction.source.version@,
            transaction.source.id@,
            expected,
        ),
        first_fault(
            gtid_fault(transaction.id@, transaction.source.id@, expected),
            match binlog_position(transaction.begin_cursor) {
                Err(fault) => Some(fault),
                Ok((file, begin)) => match binlog_position(transaction.commit_cursor) {
                    Err(fault) => Some(fault),
                    Ok((commit_file, commit)) => if file != commit_file || begin >= commit {
                        Some(
                            "MySQL transaction must have ordered begin/commit positions in one file"@,
                        )
                    } else {
                        rows_fault(transaction.changes@, 0, file, begin, commit, begin)
                    },
                },
            },
        ),
    )
}

/// Validate the contract of a MySQL source of the expected version.
pub fn validate_source(transaction: &ValidatedTransaction, expected: MysqlVersion) -> (result: Result<
    (),
    SourceContractError,
>)
    ensures
        source_fault_of(result) == source_fault(transaction.inner(), expected),
{
    let tx = transaction.transaction();
    match check_identity(
        tx.source.kind.as_str(),
        tx.source.version.as_str(),
        tx.source.id.as_str(),
        expected,
    ) {
        Ok(_) => {},
        Err(error) => return Err(error),
    }
    match check_gtid(tx.id.as_str(), tx.source.id.as_str(), expected) {
        Ok(_) => {},
        Err(error) => return Err(error),
    }
    let (file, begin) = match position(&tx.begin_cursor) {
        Ok(place) => place,
        Err(error) => return Err(error),
    };
    let (commit_file, commit) = match position(&tx.commit_cursor) {
        Ok(place) => place,
        Err(error) => return Err(error),
    };
    if !(same(file.as_str(), commit_file.as_str()) && begin < commit) {
        return Err(
            SourceContractError::new(
                "MySQL transaction must have ordered begin/commit positions in one file",
            ),
        );
    }
    validate_rows(&tx.changes, file.as_str(), begin, commit)
}

// ---------------------------------------------------------------------------
// What holds of a transaction that is served
// ---------------------------------------------------------------------------

/// An image in which every column of the table has its place, with a value or
/// null, some of them are the key, and every value is one of its column's type.
pub open spec fn full_image(image: Option<Vec<ColumnDatum>>) -> bool {
    image matches Some(row) ==> {
        &&& forall|i: int|
            0 <= i < row@.len() ==> {
                &&& (#[trigger] row@[i]).datum is Null || row@[i].datum is Value
                &&& row@[i].ordinal == i
                &&& row@[i].datum matches Datum::Value(value) ==> native_value(
                    lower(trim(row@[i].native_type@)),
                    value,
                )
            }
        &&& exists|i: int| 0 <= i < row@.len() && (#[trigger] row@[i]).primary_key_ordinal is Some
    }
}

proof fn lemma_columns(image: Seq<ColumnDatum>, from: int)
    requires
        0 <= from <= image.len(),
    ensures
        columns_fault(image, from) is None <==> forall|i: int|
            from <= i < image.len() ==> ((#[trigger] image[i]).datum matches Datum::Value(value)
                ==> native_value(lower(trim(image[i].native_type@)), value)),
    decreases image.len() - from,
{
    if from < image.len() {
        lemma_columns(image, from + 1);
    }
}

proof fn lemma_full_image(image: Option<Vec<ColumnDatum>>)
    ensures
        optional_image_fault(image) is None <==> full_image(image),
{
    if let Some(row) = image {
        lemma_columns(row@, 0);
    }
}

/// A change lies between two places of a file and behind a third, and its images
/// are full.
pub open spec fn placed_between(
    change: RowChange,
    file: Seq<char>,
    begin: nat,
    commit: nat,
    previous: nat,
) -> bool {
    &&& change.database is None
    &&& binlog_position(change.source_cursor) matches Ok((own, at))
    &&& own == file && begin < at < commit && previous <= at
    &&& full_image(change.before) && full_image(change.after)
}

/// The place of a change in its file.
pub open spec fn place(change: RowChange) -> nat {
    binlog_position(change.source_cursor)->Ok_0.1
}

proof fn lemma_rows(
    changes: Seq<RowChange>,
    from: int,
    file: Seq<char>,
    begin: nat,
    commit: nat,
    previous: nat,
)
    requires
        0 <= from <= changes.len(),
    ensures
        rows_fault(changes, from, file, begin, commit, previous) is None <==> forall|i: int|
            from <= i < changes.len() ==> placed_between(
                #[trigger] changes[i],
                file,
                begin,
                commit,
                if i == from {
                    previous
                } else {
                    place(changes[i - 1])
                },
            ),
    decreases changes.len() - from,
{
    if from < changes.len() {
        let change = changes[from];
        lemma_full_image(change.before);
        lemma_full_image(change.after);
        if binlog_position(change.source_cursor) is Ok {
            lemma_rows(changes, from + 1, file, begin, commit, place(change));
        }
        if placed_between(change, file, begin, commit, previous) {
            assert(rows_fault(changes, from, file, begin, commit, previous) == rows_fault(
                changes,
                from + 1,
                file,
                begin,
                commit,
                place(change),
            ));
            if forall|i: int|
                from <= i < changes.len() ==> placed_between(
                    #[trigger] changes[i],
                    file,
                    begin,
                    commit,
                    if i == from {
                        previous
                    } else {
                        place(changes[i - 1])
                    },
                ) {
                assert forall|i: int| from + 1 <= i < changes.len() implies placed_between(
                    #[trigger] changes[i],
                    file,
                    begin,
                    commit,
                    if i == from + 1 {
                        place(change)
                    } else {
                        place(changes[i - 1])
                    },
                ) by {}
            }
        } else {
            assert(!placed_between(
                changes[from],
                file,
                begin,
                commit,
                if from == from {
                    previous
                } else {
                    place(changes[from - 1])
                },
            ));
        }
    }
}

/// A transaction is served exactly where its source is a server of the family, it
/// is named by that server, it begins and commits in one file, one behind the
/// other, and all of its changes lie in between, none before the one that it
/// follows, with full images.
pub proof fn law_exactly_the_ordered_transactions_are_served(
    transaction: ChangeTransaction,
    expected: MysqlVersion,
)
    ensures
        source_fault(transaction, expected) is None <==> {
            &&& identity_fault(
                transaction.source.kind@,
                transaction.source.version@,
                transaction.source.id@,
                expected,
            ) is None
            &&& gtid_fault(transaction.id@, transaction.source.id@, expected) is None
            &&& binlog_position(transaction.begin_cursor) matches Ok((file, begin))
            &&& binlog_position(transaction.commit_cursor) matches Ok((other, commit))
            &&& file == other && begin < commit
            &&& forall|i: int|
                0 <= i < transaction.changes@.len() ==> placed_between(
                    #[trigger] transaction.changes@[i],
                    file,
                    begin,
                    commit,
                    if i == 0 {
                        begin
                    } else {
                        place(transaction.changes@[i - 1])
                    },
                )
        },
{
    if let (Ok((file, begin)), Ok((_, commit))) = (
        binlog_position(transaction.begin_cursor),
        binlog_position(transaction.commit_cursor),
    ) {
        lemma_rows(transaction.changes@, 0, file, begin, commit, begin);
    }
}

/// The changes of a served transaction never go back in their file.
pub proof fn law_changes_never_go_back(
    transaction: ChangeTransaction,
    expected: MysqlVersion,
    i: int,
    j: int,
)
    requires
        source_fault(transaction, expected) is None,
        0 <= i <= j < transaction.changes@.len(),
    ensures
        place(transaction.changes@[i]) <= place(transaction.changes@[j]),
    decreases j - i,
{
    law_exactly_the_ordered_transactions_are_served(transaction, expected);
    if i < j {
        assert(placed_between(
            transaction.changes@[j],
            binlog_position(transaction.begin_cursor)->Ok_0.0,
            binlog_position(transaction.begin_cursor)->Ok_0.1,
            binlog_position(transaction.commit_cursor)->Ok_0.1,
            place(transaction.changes@[j - 1]),
        ));
        law_changes_never_go_back(transaction, expected, i, j - 1);
    }
}

/// A served source is MySQL, with a version that begins with the two numbers of
/// its family, and is named by a server UUID.
pub proof fn law_a_served_source_is_of_its_family(
    kind: Seq<char>,
    version: Seq<char>,
    id: Seq<char>,
    expected: MysqlVersion,
)
    requires
        identity_fault(kind, version, id, expected) is None,
    ensures
        kind == "mysql"@,
        uuid_text(id),
        exists|patch: Seq<char>|
            parse_unsigned(patch, u32::MAX as nat) is Some && split(version, '-')[0] == (match expected
            {
                MysqlVersion::V57 => "5.7."@,
                MysqlVersion::V80 => "8.0."@,
                MysqlVersion::V84 => "8.4."@,
            }) + patch,
{
    let front = split(version, '-')[0];
    let parts = split(front, '.');
    law_joining_undoes_splitting(front, '.');
    reveal_with_fuel(join, 4);
    reveal_strlit("5");
    reveal_strlit("7");
    reveal_strlit("8");
    reveal_strlit("0");
    reveal_strlit("4");
    reveal_strlit("5.7.");
    reveal_strlit("8.0.");
    reveal_strlit("8.4.");
    let patch = parts[2];
    assert(front =~= parts[0] + seq!['.'] + parts[1] + seq!['.'] + parts[2]);
    match expected {
        MysqlVersion::V57 => assert("5"@ + seq!['.'] + "7"@ + seq!['.'] =~= "5.7."@),
        MysqlVersion::V80 => assert("8"@ + seq!['.'] + "0"@ + seq!['.'] =~= "8.0."@),
        MysqlVersion::V84 => assert("8"@ + seq!['.'] + "4"@ + seq!['.'] =~= "8.4."@),
    }
}

/// A named transaction of a served source is one of that very server, with a
/// number above zero; and only a server of the newest family tags its
/// transactions.
pub proof fn law_a_transaction_is_named_by_its_server(
    id: Seq<char>,
    source_id: Seq<char>,
    expected: MysqlVersion,
)
    requires
        gtid_fault(id, source_id, expected) is None,
        after_prefix(id, "anonymous:"@) is None,
    ensures
        ({
            let parts = split(id, ':');
            &&& parts.len() == 2 || (parts.len() == 3 && expected is V84)
            &&& uuid_text(parts[0]) && lower(parts[0]) == lower(source_id)
            &&& parse_signed(parts.last(), i64::MIN as int, i64::MAX as int) matches Some(number)
            &&& number > 0
        }),
{
}

/// A value of a column has the shape of the column's type.
pub proof fn law_a_served_value_has_the_shape_of_its_column(native: Seq<char>, value: LogicalValue)
    requires
        native_value(native, value),
    ensures
        ({
            let base = base_name(native);
            match value {
                LogicalValue::Integer { signed, bits, .. } => {
                    &&& signed <==> !has_part(native, " unsigned"@)
                    &&& bits == 8 ==> base == "tinyint"@
                    &&& bits == 16 ==> base == "smallint"@
                    &&& bits == 24 ==> base == "mediumint"@
                    &&& bits == 32 ==> base == "int"@ || base == "integer"@
                    &&& bits == 64 ==> base == "bigint"@
                },
                LogicalValue::Decimal { .. } => base == "decimal"@ || base == "numeric"@,
                LogicalValue::Float { bits, .. } => {
                    &&& bits == 32 ==> base == "float"@
                    &&& bits == 64 ==> base == "float"@ || base == "double"@ || base == "real"@
                    &&& bits == 32 || bits == 64
                },
                LogicalValue::Date { .. } => base == "date"@,
                LogicalValue::LocalDatetime { .. } => base == "datetime"@,
                LogicalValue::Instant { .. } => base == "timestamp"@,
                LogicalValue::Duration { .. } => base == "time"@,
                LogicalValue::Year { .. } => base == "year"@,
                LogicalValue::Json { .. } => base == "json"@,
                LogicalValue::Enum { .. } => base == "enum"@,
                LogicalValue::SetValue { .. } => base == "set"@,
                LogicalValue::BitString { bytes_base64url, bit_length, .. } => {
                    &&& base == "bit"@
                    &&& base64url_decoded(bytes_base64url@) matches Some(bytes)
                    &&& 0 <= 8 * bytes.len() - bit_length < 8
                },
                LogicalValue::Text { .. } | LogicalValue::Binary { .. } => true,
                _ => false,
            }
        }),
{
}

} // verus!
