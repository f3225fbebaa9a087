//! The strict source type mapping of MySQL 5.7.
//!
//! The binary log holds values, but it is no schema authority: it does not
//! carry all of the declaration that is needed to interpret signedness, text
//! encoding or temporal precision. So the exact catalog declaration is mapped
//! before a value is decoded. Unknown types stay blocked; they are never
//! converted to text or bytes.
use crate::change_event::compatibility::logical_type::{family_members, LengthUnit, LogicalType};
use crate::change_event::compatibility::types::{ConnectorIdentity, SourceTypeMapping};
use crate::change_event::model::{LogicalValue, SpatialFormat};
use crate::change_event::spatial::{
    code_dimensions, code_geometry, code_has_srid, dimensions_of, geometry_name, geometry_of,
    has_srid, read_u32, wire_u32,
};
use crate::encoding::{base64url_encode, base64url_encoded};
use crate::json::{array, digest, digest_json, docs_of, with_present, Contract, Doc, Json};
use crate::mysql_5_7::declaration::{
    declared, invalid, parse_declaration, unsupported, Complaint, Declared, NativeDeclaration,
    SourceTypeMappingError,
};
use crate::mysql_source_contract::offers::{json_doc, text_doc};
use crate::number::{decimal_signed, decimal_text_signed, parse_u16, parse_u64, parse_unsigned};
use crate::text::{
    concat, concat4, debug_spelling, debug_text, eq_ignore_case, lower, same, same_ignoring_case,
    texts, to_lower, trim, trimmed,
};
use vstd::arithmetic::power2::{
    lemma2_to64, lemma_pow2_adds, lemma_pow2_pos, lemma_pow2_unfold, pow2,
};
use vstd::prelude::*;

verus! {

pub const MAPPING_VERSION: &'static str = "mysql-5.7.source-type-mapping.v1";

/// What a check of a declaration has found.
pub open spec fn complaint_of(result: Result<(), SourceTypeMappingError>) -> Option<Complaint> {
    match result {
        Ok(_) => None,
        Err(error) => Some(error.complaint()),
    }
}

fn reject(message: &str) -> (result: Result<(), SourceTypeMappingError>)
    ensures
        complaint_of(result) == Some(invalid(message@)),
{
    Err(SourceTypeMappingError::invalid(message))
}

// ---------------------------------------------------------------------------
// Arguments and modifiers
// ---------------------------------------------------------------------------

/// A text that is no number.
pub open spec fn bad_number(label: Seq<char>, value: Seq<char>) -> Complaint {
    invalid("invalid "@ + label + ": "@ + debug_text(value))
}

fn reject_number(label: &str, value: &str) -> (result: Result<(), SourceTypeMappingError>)
    ensures
        complaint_of(result) == Some(bad_number(label@, value@)),
{
    let spelled = debug_spelling(value);
    let message = concat4("invalid ", label, ": ", spelled.as_str());
    reject(message.as_str())
}

/// The first modifier at or behind a position that is not allowed.
pub open spec fn foreign_modifier(modifiers: Seq<Seq<char>>, allowed: Seq<char>, from: int) -> Option<
    Seq<char>,
>
    decreases modifiers.len() - from,
{
    if from < 0 || from >= modifiers.len() {
        None
    } else if modifiers[from] != allowed {
        Some(modifiers[from])
    } else {
        foreign_modifier(modifiers, allowed, from + 1)
    }
}

/// What is wrong with the modifiers; one may be allowed, the empty text stands
/// for none.
pub open spec fn modifier_fault(d: Declared, allowed: Seq<char>) -> Option<Complaint> {
    match foreign_modifier(d.modifiers, allowed, 0) {
        Some(modifier) => Some(
            invalid("native type modifier "@ + debug_text(modifier) + " is not qualified"@),
        ),
        None => None,
    }
}

fn reject_modifiers(d: &NativeDeclaration, allowed: &str) -> (result: Result<
    (),
    SourceTypeMappingError,
>)
    ensures
        complaint_of(result) == modifier_fault(d@, allowed@),
{
    let ghost all = d@.modifiers;
    let mut i: usize = 0;
    while i < d.modifiers.len()
        invariant
            i <= d.modifiers@.len(),
            all == texts(d.modifiers@),
            foreign_modifier(all, allowed@, 0) == foreign_modifier(all, allowed@, i as int),
        decreases d.modifiers@.len() - i,
    {
        if !same(d.modifiers[i].as_str(), allowed) {
            let spelled = debug_spelling(d.modifiers[i].as_str());
            let message = crate::text::concat3(
                "native type modifier ",
                spelled.as_str(),
                " is not qualified",
            );
            return reject(message.as_str());
        }
        i += 1;
    }
    Ok(())
}

/// What is wrong with a type that takes at most one length.
pub open spec fn optional_length_fault(
    d: Declared,
    too_many: Seq<char>,
    label: Seq<char>,
    maximum: nat,
    outside: Seq<char>,
) -> Option<Complaint> {
    if d.arguments.len() > 1 {
        Some(invalid(too_many))
    } else if d.arguments.len() == 1 && parse_unsigned(d.arguments[0], u64::MAX as nat) is None {
        Some(bad_number(label, d.arguments[0]))
    } else if !(1 <= optional_length(d) <= maximum) {
        Some(invalid(outside))
    } else {
        modifier_fault(d, ""@)
    }
}

/// The length that a type declares, or one.
pub open spec fn optional_length(d: Declared) -> nat {
    if d.arguments.len() > 0 {
        parse_unsigned(d.arguments[0], u64::MAX as nat)->0
    } else {
        1
    }
}

fn check_optional_length(
    d: &NativeDeclaration,
    too_many: &str,
    label: &str,
    maximum: u64,
    outside: &str,
) -> (result: Result<(), SourceTypeMappingError>)
    ensures
        complaint_of(result) == optional_length_fault(
            d@,
            too_many@,
            label@,
            maximum as nat,
            outside@,
        ),
{
    if d.arguments.len() > 1 {
        return reject(too_many);
    }
    let length: u64 = if d.arguments.len() > 0 {
        assert(texts(d.arguments@)[0] == d.arguments@[0]@);
        match parse_u64(d.arguments[0].as_str()) {
            Some(length) => length,
            None => return reject_number(label, d.arguments[0].as_str()),
        }
    } else {
        1
    };
    if length < 1 || length > maximum {
        return reject(outside);
    }
    reject_modifiers(d, "")
}

/// What is wrong with a type that takes one length.
pub open spec fn required_length_fault(
    d: Declared,
    count: Seq<char>,
    label: Seq<char>,
    outside: Seq<char>,
) -> Option<Complaint> {
    if d.arguments.len() != 1 {
        Some(invalid(count))
    } else {
        match parse_unsigned(d.arguments[0], u64::MAX as nat) {
            None => Some(bad_number(label, d.arguments[0])),
            Some(length) => if length == 0 || length > 65_535 {
                Some(invalid(outside))
            } else {
                modifier_fault(d, ""@)
            },
        }
    }
}

fn check_required_length(d: &NativeDeclaration, count: &str, label: &str, outside: &str) -> (result: Result<
    (),
    SourceTypeMappingError,
>)
    ensures
        complaint_of(result) == required_length_fault(d@, count@, label@, outside@),
{
    if d.arguments.len() != 1 {
        return reject(count);
    }
    assert(texts(d.arguments@)[0] == d.arguments@[0]@);
    let length: u64 = match parse_u64(d.arguments[0].as_str()) {
        Some(length) => length,
        None => return reject_number(label, d.arguments[0].as_str()),
    };
    if length == 0 || length > 65_535 {
        return reject(outside);
    }
    reject_modifiers(d, "")
}

/// What is wrong with a type without arguments.
pub open spec fn bare_fault(d: Declared, message: Seq<char>) -> Option<Complaint> {
    if d.arguments.len() > 0 {
        Some(invalid(message))
    } else {
        modifier_fault(d, ""@)
    }
}

fn check_bare(d: &NativeDeclaration, message: &str) -> (result: Result<(), SourceTypeMappingError>)
    ensures
        complaint_of(result) == bare_fault(d@, message@),
{
    if d.arguments.len() > 0 {
        return reject(message);
    }
    reject_modifiers(d, "")
}

/// What is wrong with a type that takes at most one small number.
pub open spec fn precision_fault(
    d: Declared,
    too_many: Seq<char>,
    label: Seq<char>,
    maximum: nat,
    outside: Seq<char>,
) -> Option<Complaint> {
    if d.arguments.len() > 1 {
        Some(invalid(too_many))
    } else if d.arguments.len() == 1 && parse_unsigned(d.arguments[0], 65_535) is None {
        Some(bad_number(label, d.arguments[0]))
    } else if d.arguments.len() == 1 && parse_unsigned(d.arguments[0], 65_535)->0 > maximum {
        Some(invalid(outside))
    } else {
        modifier_fault(d, ""@)
    }
}

fn check_precision(
    d: &NativeDeclaration,
    too_many: &str,
    label: &str,
    maximum: u16,
    outside: &str,
) -> (result: Result<(), SourceTypeMappingError>)
    ensures
        complaint_of(result) == precision_fault(
            d@,
            too_many@,
            label@,
            maximum as nat,
            outside@,
        ),
{
    if d.arguments.len() > 1 {
        return reject(too_many);
    }
    if d.arguments.len() == 1 {
        assert(texts(d.arguments@)[0] == d.arguments@[0]@);
        let precision: u16 = match parse_u16(d.arguments[0].as_str()) {
            Some(precision) => precision,
            None => return reject_number(label, d.arguments[0].as_str()),
        };
        if precision > maximum {
            return reject(outside);
        }
    }
    reject_modifiers(d, "")
}

/// What is wrong with a decimal type.
pub open spec fn decimal_fault(d: Declared) -> Option<Complaint> {
    if d.arguments.len() != 2 {
        Some(invalid("DECIMAL requires precision and scale"@))
    } else {
        match parse_unsigned(d.arguments[0], 65_535) {
            None => Some(bad_number("precision"@, d.arguments[0])),
            Some(precision) => match parse_unsigned(d.arguments[1], 65_535) {
                None => Some(bad_number("scale"@, d.arguments[1])),
                Some(scale) => if !(1 <= precision <= 65) || scale > 30 || scale > precision {
                    Some(invalid("DECIMAL precision/scale is outside MySQL 5.7 limits"@))
                } else {
                    modifier_fault(d, ""@)
                },
            },
        }
    }
}

fn check_decimal(d: &NativeDeclaration) -> (result: Result<(), SourceTypeMappingError>)
    ensures
        complaint_of(result) == decimal_fault(d@),
{
    if d.arguments.len() != 2 {
        return reject("DECIMAL requires precision and scale");
    }
    assert(texts(d.arguments@)[0] == d.arguments@[0]@);
    assert(texts(d.arguments@)[1] == d.arguments@[1]@);
    let precision: u16 = match parse_u16(d.arguments[0].as_str()) {
        Some(precision) => precision,
        None => return reject_number("precision", d.arguments[0].as_str()),
    };
    let scale: u16 = match parse_u16(d.arguments[1].as_str()) {
        Some(scale) => scale,
        None => return reject_number("scale", d.arguments[1].as_str()),
    };
    if precision < 1 || precision > 65 || scale > 30 || scale > precision {
        return reject("DECIMAL precision/scale is outside MySQL 5.7 limits");
    }
    reject_modifiers(d, "")
}

/// What is wrong with the reference system of a spatial type.
pub open spec fn srid_fault(d: Declared) -> Option<Complaint> {
    if d.modifiers.len() == 0 {
        None
    } else if d.modifiers.len() == 2 && d.modifiers[0] == "srid"@ {
        match parse_unsigned(d.modifiers[1], u64::MAX as nat) {
            None => Some(invalid("invalid spatial SRID: "@ + debug_text(d.modifiers[1]))),
            Some(srid) => if srid > i32::MAX {
                Some(unsupported("spatial SRID outside LogicalType range"@))
            } else {
                None
            },
        }
    } else {
        Some(invalid("spatial type accepts only an optional SRID declaration"@))
    }
}

/// The reference system that a spatial type declares.
pub open spec fn declared_srid(d: Declared) -> Option<i32> {
    if d.modifiers.len() == 0 {
        None
    } else {
        Some(parse_unsigned(d.modifiers[1], u64::MAX as nat)->0 as i32)
    }
}

fn spatial_srid(d: &NativeDeclaration) -> (result: Result<Option<i32>, SourceTypeMappingError>)
    ensures
        match result {
            Ok(srid) => srid_fault(d@) is None && srid == declared_srid(d@),
            Err(error) => srid_fault(d@) == Some(error.complaint()),
        },
{
    if d.modifiers.len() == 0 {
        return Ok(None);
    }
    if d.modifiers.len() == 2 {
        assert(texts(d.modifiers@)[0] == d.modifiers@[0]@);
        assert(texts(d.modifiers@)[1] == d.modifiers@[1]@);
        if same(d.modifiers[0].as_str(), "srid") {
            return match parse_u64(d.modifiers[1].as_str()) {
                None => {
                    let spelled = debug_spelling(d.modifiers[1].as_str());
                    let message = concat("invalid spatial SRID: ", spelled.as_str());
                    Err(SourceTypeMappingError::invalid(message.as_str()))
                },
                Some(srid) => if srid > i32::MAX as u64 {
                    Err(
                        SourceTypeMappingError::unsupported(
                            "spatial SRID outside LogicalType range",
                        ),
                    )
                } else {
                    Ok(Some(srid as i32))
                },
            };
        }
    }
    Err(
        SourceTypeMappingError::invalid("spatial type accepts only an optional SRID declaration"),
    )
}

// ---------------------------------------------------------------------------
// Shapes
// ---------------------------------------------------------------------------

pub open spec fn integer_base(base: Seq<char>) -> bool {
    base == "tinyint"@ || base == "smallint"@ || base == "mediumint"@ || base == "int"@ || base
        == "integer"@ || base == "bigint"@
}

fn is_integer_base(base: &str) -> (result: bool)
    ensures
        result == integer_base(base@),
{
    same(base, "tinyint") || same(base, "smallint") || same(base, "mediumint") || same(base, "int")
        || same(base, "integer") || same(base, "bigint")
}

pub open spec fn large_text_base(base: Seq<char>) -> bool {
    base == "tinytext"@ || base == "text"@ || base == "mediumtext"@ || base == "longtext"@
}

fn is_large_text_base(base: &str) -> (result: bool)
    ensures
        result == large_text_base(base@),
{
    same(base, "tinytext") || same(base, "text") || same(base, "mediumtext") || same(
        base,
        "longtext",
    )
}

pub open spec fn blob_base(base: Seq<char>) -> bool {
    base == "tinyblob"@ || base == "blob"@ || base == "mediumblob"@ || base == "longblob"@
}

fn is_blob_base(base: &str) -> (result: bool)
    ensures
        result == blob_base(base@),
{
    same(base, "tinyblob") || same(base, "blob") || same(base, "mediumblob") || same(
        base,
        "longblob",
    )
}

pub open spec fn spatial_base(base: Seq<char>) -> bool {
    base == "point"@ || base == "linestring"@ || base == "polygon"@ || base == "multipoint"@ || base
        == "multilinestring"@ || base == "multipolygon"@ || base == "geometrycollection"@
}

fn is_spatial_base(base: &str) -> (result: bool)
    ensures
        result == spatial_base(base@),
{
    same(base, "point") || same(base, "linestring") || same(base, "polygon") || same(
        base,
        "multipoint",
    ) || same(base, "multilinestring") || same(base, "multipolygon") || same(
        base,
        "geometrycollection",
    )
}

/// What is wrong with the shape of a declaration that holds a number.
pub open spec fn number_shape_fault(d: Declared) -> Option<Complaint> {
    if integer_base(d.base) {
        if d.arguments.len() > 1 {
            Some(invalid(d.base + " accepts at most one display-width argument"@))
        } else {
            modifier_fault(d, "unsigned"@)
        }
    } else if d.base == "decimal"@ || d.base == "numeric"@ {
        decimal_fault(d)
    } else if d.base == "float"@ {
        precision_fault(
            d,
            "FLOAT accepts at most one precision argument"@,
            "FLOAT precision"@,
            53,
            "FLOAT precision is outside MySQL 5.7 limits"@,
        )
    } else {
        bare_fault(d, "DOUBLE/REAL does not accept a precision argument here"@)
    }
}

pub open spec fn number_base(base: Seq<char>) -> bool {
    integer_base(base) || base == "decimal"@ || base == "numeric"@ || base == "float"@ || base
        == "double"@ || base == "real"@
}

fn check_number_shape(d: &NativeDeclaration) -> (result: Result<(), SourceTypeMappingError>)
    ensures
        complaint_of(result) == number_shape_fault(d@),
{
    let base = d.base.as_str();
    if is_integer_base(base) {
        if d.arguments.len() > 1 {
            let message = concat(base, " accepts at most one display-width argument");
            return reject(message.as_str());
        }
        return reject_modifiers(d, "unsigned");
    }
    if same(base, "decimal") || same(base, "numeric") {
        return check_decimal(d);
    }
    if same(base, "float") {
        return check_precision(
            d,
            "FLOAT accepts at most one precision argument",
            "FLOAT precision",
            53,
            "FLOAT precision is outside MySQL 5.7 limits",
        );
    }
    check_bare(d, "DOUBLE/REAL does not accept a precision argument here")
}

/// What is wrong with the shape of a declaration of text or bytes.
pub open spec fn sized_shape_fault(d: Declared) -> Option<Complaint> {
    if d.base == "char"@ {
        optional_length_fault(
            d,
            "CHAR accepts at most one length argument"@,
            "text length"@,
            255,
            "CHAR length is outside MySQL 5.7 limits"@,
        )
    } else if d.base == "varchar"@ {
        required_length_fault(
            d,
            "VARCHAR requires one length argument"@,
            "text length"@,
            "CHAR/VARCHAR length is outside MySQL 5.7 limits"@,
        )
    } else if large_text_base(d.base) {
        bare_fault(d, "TEXT types do not accept a length argument"@)
    } else if d.base == "binary"@ {
        optional_length_fault(
            d,
            "BINARY accepts at most one length argument"@,
            "binary length"@,
            255,
            "BINARY length is outside MySQL 5.7 limits"@,
        )
    } else if d.base == "bit"@ {
        optional_length_fault(
            d,
            "BIT accepts at most one length argument"@,
            "bit length"@,
            64,
            "BIT length is outside MySQL 5.7 limits"@,
        )
    } else if d.base == "varbinary"@ {
        required_length_fault(
            d,
            "VARBINARY requires one length argument"@,
            "binary length"@,
            "BINARY/VARBINARY length is outside MySQL 5.7 limits"@,
        )
    } else {
        bare_fault(d, "BLOB types do not accept a length argument"@)
    }
}

pub open spec fn sized_base(base: Seq<char>) -> bool {
    base == "char"@ || base == "varchar"@ || large_text_base(base) || base == "binary"@ || base
        == "bit"@ || base == "varbinary"@ || blob_base(base)
}

fn check_sized_shape(d: &NativeDeclaration) -> (result: Result<(), SourceTypeMappingError>)
    ensures
        complaint_of(result) == sized_shape_fault(d@),
{
    let base = d.base.as_str();
    if same(base, "char") {
        return check_optional_length(
            d,
            "CHAR accepts at most one length argument",
            "text length",
            255,
            "CHAR length is outside MySQL 5.7 limits",
        );
    }
    if same(base, "varchar") {
        return check_required_length(
            d,
            "VARCHAR requires one length argument",
            "text length",
            "CHAR/VARCHAR length is outside MySQL 5.7 limits",
        );
    }
    if is_large_text_base(base) {
        return check_bare(d, "TEXT types do not accept a length argument");
    }
    if same(base, "binary") {
        return check_optional_length(
            d,
            "BINARY accepts at most one length argument",
            "binary length",
            255,
            "BINARY length is outside MySQL 5.7 limits",
        );
    }
    if same(base, "bit") {
        return check_optional_length(
            d,
            "BIT accepts at most one length argument",
            "bit length",
            64,
            "BIT length is outside MySQL 5.7 limits",
        );
    }
    if same(base, "varbinary") {
        return check_required_length(
            d,
            "VARBINARY requires one length argument",
            "binary length",
            "BINARY/VARBINARY length is outside MySQL 5.7 limits",
        );
    }
    check_bare(d, "BLOB types do not accept a length argument")
}

pub open spec fn timed_base(base: Seq<char>) -> bool {
    base == "datetime"@ || base == "timestamp"@ || base == "time"@
}

/// What is wrong with a year type.
pub open spec fn year_fault(d: Declared) -> Option<Complaint> {
    if d.arguments.len() > 1 {
        Some(invalid("YEAR accepts at most one display-width argument"@))
    } else if d.arguments.len() == 1 && parse_unsigned(d.arguments[0], 65_535) is None {
        Some(bad_number("YEAR width"@, d.arguments[0]))
    } else if d.arguments.len() == 1 && parse_unsigned(d.arguments[0], 65_535)->0 != 4 {
        Some(unsupported("year(2)"@))
    } else {
        modifier_fault(d, ""@)
    }
}

fn check_year(d: &NativeDeclaration) -> (result: Result<(), SourceTypeMappingError>)
    ensures
        complaint_of(result) == year_fault(d@),
{
    if d.arguments.len() > 1 {
        return reject("YEAR accepts at most one display-width argument");
    }
    if d.arguments.len() == 1 {
        assert(texts(d.arguments@)[0] == d.arguments@[0]@);
        let width: u16 = match parse_u16(d.arguments[0].as_str()) {
            Some(width) => width,
            None => return reject_number("YEAR width", d.arguments[0].as_str()),
        };
        if width != 4 {
            return Err(SourceTypeMappingError::unsupported("year(2)"));
        }
    }
    reject_modifiers(d, "")
}

/// What is wrong with the shape of a declaration of another kind.
pub open spec fn other_shape_fault(d: Declared) -> Option<Complaint> {
    if d.base == "date"@ || d.base == "json"@ {
        bare_fault(d, d.base + " does not accept arguments"@)
    } else if spatial_base(d.base) {
        if d.arguments.len() > 0 {
            Some(invalid(d.base + " does not accept arguments"@))
        } else {
            srid_fault(d)
        }
    } else if d.base == "enum"@ || d.base == "set"@ {
        if d.arguments.len() == 0 {
            Some(invalid(d.base + " requires at least one member"@))
        } else {
            modifier_fault(d, ""@)
        }
    } else if timed_base(d.base) {
        precision_fault(
            d,
            d.base + " accepts at most one fractional-precision argument"@,
            "fractional precision"@,
            6,
            "fractional precision is outside MySQL 5.7 limits"@,
        )
    } else if d.base == "year"@ {
        year_fault(d)
    } else {
        Some(unsupported(d.base))
    }
}

fn check_other_shape(d: &NativeDeclaration) -> (result: Result<(), SourceTypeMappingError>)
    ensures
        complaint_of(result) == other_shape_fault(d@),
{
    let base = d.base.as_str();
    if same(base, "date") || same(base, "json") {
        let message = concat(base, " does not accept arguments");
        return check_bare(d, message.as_str());
    }
    if is_spatial_base(base) {
        if d.arguments.len() > 0 {
            let message = concat(base, " does not accept arguments");
            return reject(message.as_str());
        }
        return match spatial_srid(d) {
            Ok(_) => Ok(()),
            Err(error) => Err(error),
        };
    }
    if same(base, "enum") || same(base, "set") {
        if d.arguments.len() == 0 {
            let message = concat(base, " requires at least one member");
            return reject(message.as_str());
        }
        return reject_modifiers(d, "");
    }
    if same(base, "datetime") || same(base, "timestamp") || same(base, "time") {
        let message = concat(base, " accepts at most one fractional-precision argument");
        return check_precision(
            d,
            message.as_str(),
            "fractional precision",
            6,
            "fractional precision is outside MySQL 5.7 limits",
        );
    }
    if same(base, "year") {
        return check_year(d);
    }
    Err(SourceTypeMappingError::unsupported(base))
}

/// What is wrong with the shape of a declaration.
pub open spec fn shape_fault(d: Declared) -> Option<Complaint> {
    if number_base(d.base) {
        number_shape_fault(d)
    } else if sized_base(d.base) {
        sized_shape_fault(d)
    } else {
        other_shape_fault(d)
    }
}

fn validate_shape(d: &NativeDeclaration) -> (result: Result<(), SourceTypeMappingError>)
    ensures
        complaint_of(result) == shape_fault(d@),
{
    let base = d.base.as_str();
    if is_integer_base(base) || same(base, "decimal") || same(base, "numeric") || same(
        base,
        "float",
    ) || same(base, "double") || same(base, "real") {
        check_number_shape(d)
    } else if same(base, "char") || same(base, "varchar") || is_large_text_base(base) || same(
        base,
        "binary",
    ) || same(base, "bit") || same(base, "varbinary") || is_blob_base(base) {
        check_sized_shape(d)
    } else {
        check_other_shape(d)
    }
}

// ---------------------------------------------------------------------------
// Logical types
// ---------------------------------------------------------------------------

/// The width of an integer type.
pub open spec fn integer_bits(base: Seq<char>) -> u8 {
    if base == "tinyint"@ {
        8
    } else if base == "smallint"@ {
        16
    } else if base == "mediumint"@ {
        24
    } else if base == "bigint"@ {
        64
    } else {
        32
    }
}

/// The form of the type of a number.
pub open spec fn number_type(d: Declared) -> Doc {
    if integer_base(d.base) {
        (LogicalType::Integer {
            signed: !d.modifiers.contains("unsigned"@),
            bits: integer_bits(d.base),
        }).doc()
    } else if d.base == "decimal"@ || d.base == "numeric"@ {
        (LogicalType::Decimal {
            precision: parse_unsigned(d.arguments[0], 65_535)->0 as u16,
            scale: parse_unsigned(d.arguments[1], 65_535)->0 as i32,
        }).doc()
    } else if d.base == "float"@ && (d.arguments.len() == 0 || parse_unsigned(
        d.arguments[0],
        65_535,
    )->0 <= 24) {
        (LogicalType::Float { bits: 32 }).doc()
    } else {
        (LogicalType::Float { bits: 64 }).doc()
    }
}

fn has_modifier(d: &NativeDeclaration, wanted: &str) -> (result: bool)
    ensures
        result == d@.modifiers.contains(wanted@),
{
    let mut i: usize = 0;
    while i < d.modifiers.len()
        invariant
            i <= d.modifiers@.len(),
            forall|k: int| 0 <= k < i ==> #[trigger] texts(d.modifiers@)[k] != wanted@,
        decreases d.modifiers@.len() - i,
    {
        if same(d.modifiers[i].as_str(), wanted) {
            assert(texts(d.modifiers@)[i as int] == wanted@);
            return true;
        }
        i += 1;
    }
    false
}

/// The small number that an argument holds.
fn argument_number(d: &NativeDeclaration, at: usize) -> (result: u16)
    requires
        at < d@.arguments.len(),
        parse_unsigned(d@.arguments[at as int], 65_535) is Some,
    ensures
        parse_unsigned(d@.arguments[at as int], 65_535) == Some(result as nat),
{
    assert(texts(d.arguments@)[at as int] == d.arguments@[at as int]@);
    match parse_u16(d.arguments[at].as_str()) {
        Some(number) => number,
        None => 0,
    }
}

fn map_number(d: &NativeDeclaration) -> (result: LogicalType)
    requires
        number_base(d@.base),
        number_shape_fault(d@) is None,
    ensures
        result.doc() == number_type(d@),
{
    let base = d.base.as_str();
    if is_integer_base(base) {
        let bits: u8 = if same(base, "tinyint") {
            8
        } else if same(base, "smallint") {
            16
        } else if same(base, "mediumint") {
            24
        } else if same(base, "bigint") {
            64
        } else {
            32
        };
        return LogicalType::integer(!has_modifier(d, "unsigned"), bits);
    }
    if same(base, "decimal") || same(base, "numeric") {
        let precision = argument_number(d, 0);
        let scale = argument_number(d, 1);
        return LogicalType::decimal(precision, scale as i32);
    }
    if same(base, "float") && (d.arguments.len() == 0 || argument_number(d, 0) <= 24) {
        LogicalType::float(32)
    } else {
        LogicalType::float(64)
    }
}

/// The bytes that a large text or blob type holds.
pub open spec fn large_length(base: Seq<char>) -> u64 {
    if base == "tinytext"@ || base == "tinyblob"@ {
        255
    } else if base == "text"@ || base == "blob"@ {
        65_535
    } else if base == "mediumtext"@ || base == "mediumblob"@ {
        16_777_215
    } else {
        4_294_967_295
    }
}

fn large_length_of(base: &str) -> (result: u64)
    ensures
        result == large_length(base@),
{
    if same(base, "tinytext") || same(base, "tinyblob") {
        255
    } else if same(base, "text") || same(base, "blob") {
        65_535
    } else if same(base, "mediumtext") || same(base, "mediumblob") {
        16_777_215
    } else {
        4_294_967_295
    }
}

pub open spec fn text_base(base: Seq<char>) -> bool {
    base == "char"@ || base == "varchar"@ || large_text_base(base)
}

/// The declared length of a sized type.
pub open spec fn sized_length(d: Declared) -> u64 {
    if large_text_base(d.base) || blob_base(d.base) {
        large_length(d.base)
    } else {
        optional_length(d) as u64
    }
}

fn sized_length_of(d: &NativeDeclaration) -> (result: u64)
    requires
        sized_base(d@.base),
        sized_shape_fault(d@) is None,
    ensures
        result == sized_length(d@),
{
    let base = d.base.as_str();
    if is_large_text_base(base) || is_blob_base(base) {
        return large_length_of(base);
    }
    if d.arguments.len() == 0 {
        return 1;
    }
    assert(texts(d.arguments@)[0] == d.arguments@[0]@);
    match parse_u64(d.arguments[0].as_str()) {
        Some(length) => length,
        None => 0,
    }
}

/// A character set that the catalog proves, in lower case.
pub open spec fn proven_charset(charset: Option<Seq<char>>) -> Option<Seq<char>> {
    match charset {
        Some(name) => if trim(name).len() == 0 || same_ignoring_case(trim(name), "unknown"@) {
            None
        } else {
            Some(lower(trim(name)))
        },
        None => None,
    }
}

/// A text, where there is one.
pub open spec fn view_of(text: Option<&str>) -> Option<Seq<char>> {
    match text {
        Some(text) => Some(text@),
        None => None,
    }
}

/// The form of the type of text or bytes.
pub open spec fn sized_type(d: Declared, charset: Option<Seq<char>>) -> Result<Doc, Complaint> {
    let length = sized_length(d);
    if text_base(d.base) {
        match proven_charset(charset) {
            None => Err(invalid("text SourceTypeMapping requires a catalog character set"@)),
            Some(charset) => Ok(
                text_doc(
                    charset,
                    Some(length),
                    if d.base == "char"@ || d.base == "varchar"@ {
                        LengthUnit::Characters
                    } else {
                        LengthUnit::Bytes
                    },
                ),
            ),
        }
    } else if d.base == "bit"@ {
        Ok((LogicalType::BitString { length }).doc())
    } else {
        Ok((LogicalType::Binary { max_length: Some(length) }).doc())
    }
}

/// The type is the one of a declared text: in the proven character set, of the
/// declared length, and without a collation.
pub open spec fn is_declared_text(
    logical_type: LogicalType,
    d: Declared,
    charset: Option<Seq<char>>,
) -> bool {
    logical_type matches LogicalType::Text { charset: name, max_length, length_unit, collation } && {
        &&& proven_charset(charset) == Some(name@)
        &&& max_length == Some(sized_length(d))
        &&& length_unit == if d.base == "char"@ || d.base == "varchar"@ {
            LengthUnit::Characters
        } else {
            LengthUnit::Bytes
        }
        &&& collation is None
    }
}

/// What mapping has given.
pub open spec fn mapped(result: Result<LogicalType, SourceTypeMappingError>) -> Result<
    Doc,
    Complaint,
> {
    match result {
        Ok(logical_type) => Ok(logical_type.doc()),
        Err(error) => Err(error.complaint()),
    }
}

fn map_sized(d: &NativeDeclaration, charset: Option<&str>) -> (result: Result<
    LogicalType,
    SourceTypeMappingError,
>)
    requires
        sized_base(d@.base),
        sized_shape_fault(d@) is None,
    ensures
        mapped(result) == sized_type(d@, view_of(charset)),
        result matches Ok(logical) ==> text_base(d@.base) ==> is_declared_text(
            logical,
            d@,
            view_of(charset),
        ),
{
    let base = d.base.as_str();
    let length = sized_length_of(d);
    let counted = same(base, "char") || same(base, "varchar");
    if counted || is_large_text_base(base) {
        let name = match charset {
            Some(name) => trimmed(name),
            None => return Err(
                SourceTypeMappingError::invalid(
                    "text SourceTypeMapping requires a catalog character set",
                ),
            ),
        };
        if name.as_str().is_empty() || eq_ignore_case(name.as_str(), "unknown") {
            return Err(
                SourceTypeMappingError::invalid(
                    "text SourceTypeMapping requires a catalog character set",
                ),
            );
        }
        // The collation stays in the field definition: it is no property of a
        // value.
        return Ok(
            LogicalType::Text {
                charset: to_lower(name.as_str()),
                max_length: Some(length),
                length_unit: if counted {
                    LengthUnit::Characters
                } else {
                    LengthUnit::Bytes
                },
                collation: None,
            },
        );
    }
    if same(base, "bit") {
        Ok(LogicalType::bit_string(length))
    } else {
        Ok(LogicalType::binary(Some(length)))
    }
}

/// The form of a type with members.
pub open spec fn member_type(family: Seq<char>, members: Seq<Seq<char>>) -> Doc {
    Doc::Obj(
        family_members(family).push(
            ("members"@, Doc::Arr(Seq::new(members.len(), |i: int| Doc::Str(members[i])))),
        ),
    )
}

/// The form of a spatial type in the plane.
pub open spec fn spatial_type(subtype: Seq<char>, srid: Option<i32>) -> Doc {
    Doc::Obj(
        with_present(
            family_members("spatial"@).push(("subtype"@, Doc::Str(subtype))),
            "srid"@,
            match srid {
                Some(srid) => Some(Doc::Int(srid as int)),
                None => None,
            },
        ).push(("dimensions"@, Doc::Int(2))),
    )
}

/// The fractional precision of a temporal type.
pub open spec fn fractional(d: Declared) -> u8 {
    if d.arguments.len() == 0 {
        0
    } else {
        parse_unsigned(d.arguments[0], 65_535)->0 as u8
    }
}

/// The form of another type.
pub open spec fn other_type(d: Declared) -> Doc {
    if d.base == "date"@ {
        LogicalType::Date.doc()
    } else if d.base == "json"@ {
        json_doc()
    } else if spatial_base(d.base) {
        spatial_type(d.base, declared_srid(d))
    } else if d.base == "enum"@ {
        member_type("enum"@, d.arguments)
    } else if d.base == "set"@ {
        member_type("set"@, d.arguments)
    } else if d.base == "year"@ {
        LogicalType::Year.doc()
    } else if d.base == "datetime"@ {
        (LogicalType::LocalDatetime { fractional_precision: fractional(d) }).doc()
    } else if d.base == "timestamp"@ {
        (LogicalType::Instant { fractional_precision: fractional(d) }).doc()
    } else {
        (LogicalType::Duration { fractional_precision: fractional(d) }).doc()
    }
}

fn copy_texts(list: &Vec<String>) -> (result: Vec<String>)
    ensures
        texts(result@) == texts(list@),
{
    let mut result: Vec<String> = Vec::new();
    let mut i: usize = 0;
    while i < list.len()
        invariant
            i <= list@.len(),
            result@.len() == i,
            forall|k: int| 0 <= k < i ==> (#[trigger] result@[k])@ == list@[k]@,
        decreases list@.len() - i,
    {
        result.push(list[i].clone());
        i += 1;
    }
    assert(texts(result@) =~= texts(list@));
    result
}

proof fn lemma_member_docs(members: Seq<String>)
    ensures
        crate::json::texts_doc(members) == Doc::Arr(
            Seq::new(texts(members).len(), |i: int| Doc::Str(texts(members)[i])),
        ),
{
    assert(crate::json::texts_doc(members)->Arr_0 =~= Seq::new(
        texts(members).len(),
        |i: int| Doc::Str(texts(members)[i]),
    ));
}

fn map_other(d: &NativeDeclaration) -> (result: LogicalType)
    requires
        other_shape_fault(d@) is None,
    ensures
        result.doc() == other_type(d@),
{
    let base = d.base.as_str();
    if same(base, "date") {
        return LogicalType::date();
    }
    if same(base, "json") {
        return LogicalType::json();
    }
    if is_spatial_base(base) {
        let srid = match spatial_srid(d) {
            Ok(srid) => srid,
            Err(_) => None,
        };
        return LogicalType::spatial(base, srid, 2);
    }
    if same(base, "enum") {
        let members = copy_texts(&d.arguments);
        proof {
            lemma_member_docs(members@);
        }
        return LogicalType::Enum { members };
    }
    if same(base, "set") {
        let members = copy_texts(&d.arguments);
        proof {
            lemma_member_docs(members@);
        }
        return LogicalType::SetType { members };
    }
    if same(base, "year") {
        return LogicalType::year();
    }
    let fractional_precision: u8 = if d.arguments.len() == 0 {
        0
    } else {
        let number = argument_number(d, 0);
        number as u8
    };
    if same(base, "datetime") {
        LogicalType::LocalDatetime { fractional_precision }
    } else if same(base, "timestamp") {
        LogicalType::Instant { fractional_precision }
    } else {
        LogicalType::Duration { fractional_precision }
    }
}

proof fn lemma_text_bases_are_no_numbers(base: Seq<char>)
    requires
        text_base(base),
    ensures
        !number_base(base),
{
    reveal_strlit("char");
    reveal_strlit("varchar");
    reveal_strlit("tinytext");
    reveal_strlit("text");
    reveal_strlit("mediumtext");
    reveal_strlit("longtext");
    reveal_strlit("tinyint");
    reveal_strlit("smallint");
    reveal_strlit("mediumint");
    reveal_strlit("int");
    reveal_strlit("integer");
    reveal_strlit("bigint");
    reveal_strlit("decimal");
    reveal_strlit("numeric");
    reveal_strlit("float");
    reveal_strlit("double");
    reveal_strlit("real");
    assert(base.len() == 4 && base[0] == 'c' || base.len() == 7 && base[0] == 'v' || base.len() == 8
        && base[0] == 't' || base.len() == 4 && base[0] == 't' || base.len() == 10 && base[0] == 'm'
        || base.len() == 8 && base[0] == 'l');
}

/// The form of the type that a declaration maps to.
pub open spec fn mapped_type(d: Declared, charset: Option<Seq<char>>) -> Result<Doc, Complaint> {
    match shape_fault(d) {
        Some(complaint) => Err(complaint),
        None => if number_base(d.base) {
            Ok(number_type(d))
        } else if sized_base(d.base) {
            sized_type(d, charset)
        } else {
            Ok(other_type(d))
        },
    }
}

fn logical_type(d: &NativeDeclaration, charset: Option<&str>) -> (result: Result<
    LogicalType,
    SourceTypeMappingError,
>)
    ensures
        mapped(result) == mapped_type(d@, view_of(charset)),
        result matches Ok(logical) ==> text_base(d@.base) ==> is_declared_text(
            logical,
            d@,
            view_of(charset),
        ),
{
    match validate_shape(d) {
        Ok(_) => {},
        Err(error) => return Err(error),
    }
    proof {
        if text_base(d@.base) {
            lemma_text_bases_are_no_numbers(d@.base);
        }
    }
    let base = d.base.as_str();
    if is_integer_base(base) || same(base, "decimal") || same(base, "numeric") || same(
        base,
        "float",
    ) || same(base, "double") || same(base, "real") {
        Ok(map_number(d))
    } else if same(base, "char") || same(base, "varchar") || is_large_text_base(base) || same(
        base,
        "binary",
    ) || same(base, "bit") || same(base, "varbinary") || is_blob_base(base) {
        map_sized(d, charset)
    } else {
        Ok(map_other(d))
    }
}

// ---------------------------------------------------------------------------
// Mappings
// ---------------------------------------------------------------------------

/// A text, or null where there is none.
pub open spec fn nullable_text(text: Option<Seq<char>>) -> Doc {
    match text {
        Some(text) => Doc::Str(text),
        None => Doc::Null,
    }
}

fn nullable_text_json(text: Option<&str>) -> (result: Json)
    ensures
        result@ == nullable_text(view_of(text)),
{
    match text {
        Some(text) => Json::Text(text.to_owned()),
        None => Json::Null,
    }
}

/// The digest of the evidence of a mapping.
pub open spec fn mapping_evidence(
    native_type: Seq<char>,
    charset: Option<Seq<char>>,
    collation: Option<Seq<char>>,
    logical: Doc,
) -> Seq<char> {
    digest(
        Doc::Arr(
            seq![
                Doc::Str(MAPPING_VERSION@),
                Doc::Str(native_type),
                nullable_text(charset),
                nullable_text(collation),
                logical,
            ],
        ),
    )
}

fn evidence_digest(
    native_type: &str,
    charset: Option<&str>,
    collation: Option<&str>,
    logical: &LogicalType,
) -> (result: String)
    ensures
        result@ == mapping_evidence(
            native_type@,
            view_of(charset),
            view_of(collation),
            logical.doc(),
        ),
{
    let mut items: Vec<Json> = Vec::new();
    items.push(Json::Text(MAPPING_VERSION.to_owned()));
    items.push(Json::Text(native_type.to_owned()));
    items.push(nullable_text_json(charset));
    items.push(nullable_text_json(collation));
    items.push(logical.to_json());
    assert(docs_of(items@) =~= seq![
        Doc::Str(MAPPING_VERSION@),
        Doc::Str(native_type@),
        nullable_text(view_of(charset)),
        nullable_text(view_of(collation)),
        logical.doc(),
    ]);
    digest_json(&array(items))
}

/// What a native type maps to: the declared base and the form of the type.
pub open spec fn source_mapping(native_type: Seq<char>, charset: Option<Seq<char>>) -> Result<
    (Seq<char>, Doc),
    Complaint,
> {
    match declared(native_type) {
        Err(complaint) => Err(complaint),
        Ok(d) => match mapped_type(d, charset) {
            Err(complaint) => Err(complaint),
            Ok(logical) => Ok((d.base, logical)),
        },
    }
}

/// A text declaration maps to its own text type.
pub open spec fn keeps_text(
    logical_type: LogicalType,
    native_type: Seq<char>,
    charset: Option<Seq<char>>,
) -> bool {
    declared(native_type) matches Ok(d) ==> text_base(d.base) ==> is_declared_text(
        logical_type,
        d,
        charset,
    )
}

/// The mapping is the one that the declaration has.
pub open spec fn is_source_mapping(
    mapping: SourceTypeMapping,
    native_type: Seq<char>,
    charset: Option<Seq<char>>,
    collation: Option<Seq<char>>,
) -> bool {
    source_mapping(native_type, charset) matches Ok((base, logical)) && {
        &&& mapping.connector.kind@ == "mysql"@
        &&& mapping.connector.version@ == "5.7"@
        &&& mapping.native_type@ == lower(trim(native_type))
        &&& mapping.logical_type.doc() == logical
        &&& keeps_text(mapping.logical_type, native_type, charset)
        &&& mapping.mapping_id@ == "mysql57.source-type."@ + base
        &&& mapping.mapping_version@ == MAPPING_VERSION@
        &&& mapping.evidence_digest matches Some(evidence) && evidence@ == mapping_evidence(
            lower(trim(native_type)),
            charset,
            collation,
            logical,
        )
        &&& mapping.source_definition_fingerprint is None
        &&& mapping.source_build is None
        &&& mapping.environment_fingerprint is None
    }
}

/// Map one MySQL 5.7 column declaration to the database-neutral source type
/// mapping. The character set and the collation come from the same catalog row
/// as the declaration; a text mapping without a proven character set is
/// rejected.
pub fn source_type_mapping(native_type: &str, charset: Option<&str>, collation: Option<&str>) -> (result: Result<
    SourceTypeMapping,
    SourceTypeMappingError,
>)
    ensures
        match result {
            Ok(mapping) => is_source_mapping(
                mapping,
                native_type@,
                view_of(charset),
                view_of(collation),
            ),
            Err(error) => source_mapping(native_type@, view_of(charset)) == Err::<
                (Seq<char>, Doc),
                _,
            >(error.complaint()),
        },
{
    let d = match parse_declaration(native_type) {
        Ok(d) => d,
        Err(error) => return Err(error),
    };
    let logical = match logical_type(&d, charset) {
        Ok(logical) => logical,
        Err(error) => return Err(error),
    };
    let kept = trimmed(native_type);
    let native = to_lower(kept.as_str());
    let evidence = evidence_digest(native.as_str(), charset, collation, &logical);
    let mapping_id = concat("mysql57.source-type.", d.base.as_str());
    Ok(
        SourceTypeMapping {
            connector: ConnectorIdentity::new("mysql", "5.7"),
            native_type: native,
            logical_type: logical,
            mapping_id,
            mapping_version: MAPPING_VERSION.to_owned(),
            evidence_digest: Some(evidence),
            source_definition_fingerprint: None,
            source_build: None,
            environment_fingerprint: None,
        },
    )
}

/// Alias named after the public source type mapping boundary.
pub fn map_source_type(native_type: &str, charset: Option<&str>, collation: Option<&str>) -> (result: Result<
    SourceTypeMapping,
    SourceTypeMappingError,
>)
    ensures
        match result {
            Ok(mapping) => is_source_mapping(
                mapping,
                native_type@,
                view_of(charset),
                view_of(collation),
            ),
            Err(error) => source_mapping(native_type@, view_of(charset)) == Err::<
                (Seq<char>, Doc),
                _,
            >(error.complaint()),
        },
{
    source_type_mapping(native_type, charset, collation)
}

/// What is wrong with a native type.
pub open spec fn native_fault(native_type: Seq<char>) -> Option<Complaint> {
    match declared(native_type) {
        Err(complaint) => Some(complaint),
        Ok(d) => shape_fault(d),
    }
}

/// Validate a native declaration when there is no row value from which a
/// character set could be recovered, as in an image of nulls.
pub fn validate_native_type(native_type: &str) -> (result: Result<(), SourceTypeMappingError>)
    ensures
        complaint_of(result) == native_fault(native_type@),
{
    match parse_declaration(native_type) {
        Ok(d) => validate_shape(&d),
        Err(error) => Err(error),
    }
}

/// A declaration is accepted without a row exactly where it has a mapping with a
/// proven character set, and what is wrong with it is the same.
pub proof fn law_native_types_are_those_with_a_mapping(
    native_type: Seq<char>,
    charset: Seq<char>,
)
    requires
        proven_charset(Some(charset)) is Some,
    ensures
        native_fault(native_type) == match source_mapping(native_type, Some(charset)) {
            Ok(_) => None,
            Err(complaint) => Some(complaint),
        },
{
}

/// A text declaration that is in order has a mapping exactly where the catalog
/// names a character set: one that is there, not blank and not `unknown` in any
/// case. The type is then a text in that character set, trimmed and in lower
/// case, counted in characters for CHAR and VARCHAR and in bytes otherwise. It
/// has no collation, whatever the catalog says of one.
pub proof fn law_texts_need_a_character_set(native_type: Seq<char>, charset: Option<Seq<char>>)
    requires
        native_fault(native_type) is None,
        declared(native_type) matches Ok(d) && text_base(d.base),
    ensures
        source_mapping(native_type, charset) is Ok <==> (charset matches Some(name) && trim(
            name,
        ).len() > 0 && !same_ignoring_case(trim(name), "unknown"@)),
        source_mapping(native_type, charset) matches Ok((base, logical)) ==> {
            let d = declared(native_type)->Ok_0;
            &&& base == d.base
            &&& logical == text_doc(
                lower(trim(charset->0)),
                Some(sized_length(d)),
                if d.base == "char"@ || d.base == "varchar"@ {
                    LengthUnit::Characters
                } else {
                    LengthUnit::Bytes
                },
            )
        },
        source_mapping(native_type, charset) matches Err(complaint) ==> complaint == invalid(
            "text SourceTypeMapping requires a catalog character set"@,
        ),
{
    let d = declared(native_type)->Ok_0;
    assert(sized_base(d.base) && !number_base(d.base)) by {
        lemma_text_bases_are_no_numbers(d.base);
    }
}

// ---------------------------------------------------------------------------
// Labels and members on the wire
// ---------------------------------------------------------------------------

/// The members whose bit is set, lowest bit first.
pub open spec fn flagged_members(members: Seq<String>, flags: nat) -> Seq<Seq<char>>
    decreases members.len(),
{
    if members.len() == 0 {
        Seq::empty()
    } else {
        let rest = flagged_members(members.drop_first(), flags / 2);
        if flags % 2 == 1 {
            seq![members[0]@] + rest
        } else {
            rest
        }
    }
}

/// A number without its lowest bits.
pub open spec fn without_bits(flags: nat, bits: nat) -> nat
    decreases bits,
{
    if bits == 0 {
        flags
    } else {
        without_bits(flags / 2, (bits - 1) as nat)
    }
}

/// What an ENUM or SET number stands for.
pub enum Numbered {
    Label(Seq<char>),
    Members(Seq<Seq<char>>),
    Fault(Seq<char>),
}

/// What the number of an ENUM or SET value stands for: a position in the
/// labels, or the flags of the members.
pub open spec fn numbered(logical: LogicalType, value: u64) -> Numbered {
    match logical {
        LogicalType::Enum { members } => if value > usize::MAX {
            Numbered::Fault("ENUM ordinal does not fit the declared member index"@)
        } else if value == 0 || value > members@.len() {
            Numbered::Fault("ENUM ordinal is outside the declared label list"@)
        } else {
            Numbered::Label(members@[value - 1]@)
        },
        LogicalType::SetType { members } => if without_bits(value as nat, members@.len()) != 0 {
            Numbered::Fault("SET bitmask contains a member outside the declared list"@)
        } else {
            Numbered::Members(flagged_members(members@, value as nat))
        },
        _ => Numbered::Fault("native type is not ENUM or SET"@),
    }
}

/// The result says what a number stands for.
pub open spec fn is_numbered(result: Result<LogicalValue, String>, wanted: Numbered) -> bool {
    match wanted {
        Numbered::Label(wanted) => result matches Ok(LogicalValue::Enum { label }) && label@
            == wanted,
        Numbered::Members(wanted) => result matches Ok(LogicalValue::SetValue { members })
            && texts(members@) == wanted,
        Numbered::Fault(wanted) => result matches Err(message) && message@ == wanted,
    }
}

fn decode_set(members: &Vec<String>, value: u64) -> (result: Result<Vec<String>, String>)
    requires
        members@.len() <= 64,
    ensures
        match result {
            Ok(list) => without_bits(value as nat, members@.len()) == 0 && texts(list@)
                == flagged_members(members@, value as nat),
            Err(message) => without_bits(value as nat, members@.len()) != 0 && message@
                == "SET bitmask contains a member outside the declared list"@,
        },
{
    let mut rest: u64 = value;
    let mut list: Vec<String> = Vec::new();
    let mut i: usize = 0;
    assert(members@.skip(0) =~= members@);
    assert(texts(list@) =~= Seq::<Seq<char>>::empty());
    assert(texts(list@) + flagged_members(members@.skip(0), value as nat) =~= flagged_members(
        members@,
        value as nat,
    ));
    while i < members.len()
        invariant
            i <= members@.len(),
            texts(list@) + flagged_members(members@.skip(i as int), rest as nat)
                == flagged_members(members@, value as nat),
            without_bits(value as nat, members@.len()) == without_bits(
                rest as nat,
                (members@.len() - i) as nat,
            ),
        decreases members@.len() - i,
    {
        let ghost tail = members@.skip(i as int);
        let ghost before = texts(list@);
        assert(tail[0] == members@[i as int]);
        assert(tail.drop_first() =~= members@.skip(i + 1));
        if rest % 2 == 1 {
            list.push(members[i].clone());
            assert(texts(list@) =~= before.push(members@[i as int]@));
        }
        assert(texts(list@) + flagged_members(tail.drop_first(), rest as nat / 2) =~= before
            + flagged_members(tail, rest as nat));
        rest = rest / 2;
        i += 1;
    }
    assert(members@.skip(i as int) =~= Seq::<String>::empty());
    assert(texts(list@) =~= texts(list@) + flagged_members(
        members@.skip(i as int),
        rest as nat,
    ));
    if rest != 0 {
        return Err("SET bitmask contains a member outside the declared list".to_owned());
    }
    Ok(list)
}

/// Decode MySQL's native ENUM/SET number into the database-neutral label or
/// member representation. The number is only a wire encoding; it never crosses
/// the source boundary as an ordinal. A SET has at most sixty-four members.
pub fn decode_enum_set_ordinal(logical_type: &LogicalType, value: u64) -> (result: Result<
    LogicalValue,
    String,
>)
    requires
        *logical_type matches LogicalType::SetType { members } ==> members@.len() <= 64,
    ensures
        is_numbered(result, numbered(*logical_type, value)),
{
    match logical_type {
        LogicalType::Enum { members } => {
            if value > usize::MAX as u64 {
                return Err("ENUM ordinal does not fit the declared member index".to_owned());
            }
            let index: usize = value as usize;
            if index == 0 || index > members.len() {
                return Err("ENUM ordinal is outside the declared label list".to_owned());
            }
            Ok(LogicalValue::Enum { label: members[index - 1].clone() })
        },
        LogicalType::SetType { members } => match decode_set(members, value) {
            Ok(list) => Ok(LogicalValue::SetValue { members: list }),
            Err(message) => Err(message),
        },
        _ => Err("native type is not ENUM or SET".to_owned()),
    }
}

/// The number that bytes spell, lowest byte first.
pub open spec fn little_endian(bytes: Seq<u8>) -> nat
    decreases bytes.len(),
{
    if bytes.len() == 0 {
        0
    } else {
        bytes[0] as nat + 0x100 * little_endian(bytes.drop_first())
    }
}

proof fn lemma_little_endian_bound(bytes: Seq<u8>)
    requires
        bytes.len() <= 8,
    ensures
        little_endian(bytes) <= u64::MAX,
        bytes.len() <= 7 ==> little_endian(bytes) < 0x100_0000_0000_0000,
        bytes.len() <= 6 ==> little_endian(bytes) < 0x1_0000_0000_0000,
        bytes.len() <= 5 ==> little_endian(bytes) < 0x100_0000_0000,
        bytes.len() <= 4 ==> little_endian(bytes) < 0x1_0000_0000,
        bytes.len() <= 3 ==> little_endian(bytes) < 0x100_0000,
        bytes.len() <= 2 ==> little_endian(bytes) < 0x1_0000,
        bytes.len() <= 1 ==> little_endian(bytes) < 0x100,
        bytes.len() == 0 ==> little_endian(bytes) == 0,
    decreases bytes.len(),
{
    if bytes.len() > 0 {
        lemma_little_endian_bound(bytes.drop_first());
    }
}

fn read_little_endian(bytes: &Vec<u8>) -> (result: u64)
    requires
        bytes@.len() <= 8,
    ensures
        result == little_endian(bytes@),
{
    let mut value: u64 = 0;
    let mut i: usize = bytes.len();
    assert(bytes@.skip(i as int) =~= Seq::<u8>::empty());
    while i > 0
        invariant
            i <= bytes@.len(),
            bytes@.len() <= 8,
            value == little_endian(bytes@.skip(i as int)),
        decreases i,
    {
        let ghost longer = bytes@.skip(i - 1);
        assert(longer[0] == bytes@[i - 1]);
        assert(longer.drop_first() =~= bytes@.skip(i as int));
        proof {
            lemma_little_endian_bound(longer);
        }
        value = value * 0x100 + bytes[i - 1] as u64;
        i -= 1;
    }
    assert(bytes@.skip(0) =~= bytes@);
    value
}

/// Decode the little-endian bitmask of a SET value in the binary log: at most
/// eight bytes, which is what a SET of sixty-four members takes.
pub fn decode_set_bitmask(logical_type: &LogicalType, bytes: &Vec<u8>) -> (result: Result<
    LogicalValue,
    String,
>)
    requires
        bytes@.len() <= 8 || bytes@.len() > 64,
        *logical_type matches LogicalType::SetType { members } ==> members@.len() <= 64,
    ensures
        bytes@.len() > 64 ==> (result matches Err(message) && message@
            == "SET bitmask is wider than the portable 64-bit SET limit"@),
        bytes@.len() <= 8 ==> is_numbered(
            result,
            numbered(*logical_type, little_endian(bytes@) as u64),
        ),
{
    if bytes.len() > 64 {
        return Err("SET bitmask is wider than the portable 64-bit SET limit".to_owned());
    }
    let value = read_little_endian(bytes);
    decode_enum_set_ordinal(logical_type, value)
}

// ---------------------------------------------------------------------------
// Spatial values on the wire
// ---------------------------------------------------------------------------

/// The geometry and the dimensions that a WKB header declares.
pub open spec fn wire_header(bytes: Seq<u8>) -> Result<(Seq<char>, int), Seq<char>> {
    if bytes.len() < 5 {
        Err("spatial WKB header is truncated"@)
    } else if bytes[0] != 0 && bytes[0] != 1 {
        Err("spatial WKB byte order marker is invalid"@)
    } else {
        let code = wire_u32(bytes, 1, bytes[0] == 1);
        if code_has_srid(code) {
            Err("MySQL spatial value unexpectedly contains an EWKB SRID"@)
        } else if code_dimensions(code) == 0 {
            Err("spatial WKB dimension code is invalid"@)
        } else {
            match geometry_name(code_geometry(code)) {
                Some(name) => Ok((name, code_dimensions(code))),
                None => Err("spatial WKB geometry type is unsupported"@),
            }
        }
    }
}

fn spatial_wire_header(bytes: &Vec<u8>) -> (result: Result<(&'static str, u8), String>)
    ensures
        match result {
            Ok((name, dimensions)) => wire_header(bytes@) == Ok::<_, Seq<char>>(
                (name@, dimensions as int),
            ),
            Err(message) => wire_header(bytes@) == Err::<(Seq<char>, int), _>(message@),
        },
{
    if bytes.len() < 5 {
        return Err("spatial WKB header is truncated".to_owned());
    }
    if bytes[0] != 0 && bytes[0] != 1 {
        return Err("spatial WKB byte order marker is invalid".to_owned());
    }
    let code = read_u32(bytes, 1, bytes[0] == 1);
    if has_srid(code) {
        return Err("MySQL spatial value unexpectedly contains an EWKB SRID".to_owned());
    }
    let dimensions = dimensions_of(code);
    if dimensions == 0 {
        return Err("spatial WKB dimension code is invalid".to_owned());
    }
    match geometry_of(code) {
        Some(name) => Ok((name, dimensions)),
        None => Err("spatial WKB geometry type is unsupported".to_owned()),
    }
}

/// What is wrong with a spatial value on the wire.
pub open spec fn spatial_value_fault(logical: LogicalType, bytes: Seq<u8>) -> Option<Seq<char>> {
    match logical {
        LogicalType::Spatial { subtype, srid, dimensions } => if bytes.len() < 9 {
            Some("MySQL spatial value is missing its SRID or WKB header"@)
        } else if wire_u32(bytes, 0, true) > i32::MAX {
            Some("MySQL spatial SRID exceeds the portable range"@)
        } else if srid matches Some(expected) && expected != wire_u32(bytes, 0, true) {
            Some("MySQL spatial value SRID differs from the column declaration"@)
        } else {
            match wire_header(bytes.skip(4)) {
                Err(message) => Some(message),
                Ok((name, count)) => if !same_ignoring_case(name, subtype@) || count
                    != dimensions {
                    Some("MySQL spatial WKB header differs from the column declaration"@)
                } else {
                    None
                },
            }
        },
        _ => Some("native type is not spatial"@),
    }
}

/// The value is the one that the wire holds: standard WKB, with the reference
/// system beside it.
pub open spec fn is_spatial_value(value: LogicalValue, bytes: Seq<u8>) -> bool {
    let srid = wire_u32(bytes, 0, true);
    value matches LogicalValue::Spatial {
        format,
        bytes_base64url,
        geometry_type,
        dimensions,
        srid: kept,
        crs,
    } && wire_header(bytes.skip(4)) matches Ok((name, count)) && {
        &&& format is Wkb
        &&& bytes_base64url@ == base64url_encoded(bytes.skip(4))
        &&& geometry_type@ == name
        &&& dimensions == count
        &&& kept == Some(srid as i32)
        &&& crs matches Some(text) && text@ == "srid:"@ + decimal_signed(srid)
    }
}

/// Decode MySQL's internal spatial representation: a little-endian reference
/// system of four bytes before the WKB.
pub fn decode_spatial_value(logical_type: &LogicalType, bytes: &Vec<u8>) -> (result: Result<
    LogicalValue,
    String,
>)
    ensures
        match result {
            Ok(value) => spatial_value_fault(*logical_type, bytes@) is None && is_spatial_value(
                value,
                bytes@,
            ),
            Err(message) => spatial_value_fault(*logical_type, bytes@) == Some(message@),
        },
{
    let (subtype, expected_srid, expected_dimensions) = match logical_type {
        LogicalType::Spatial { subtype, srid, dimensions } => (subtype, srid, dimensions),
        _ => return Err("native type is not spatial".to_owned()),
    };
    if bytes.len() < 9 {
        return Err("MySQL spatial value is missing its SRID or WKB header".to_owned());
    }
    let number = read_u32(bytes, 0, true);
    if number > i32::MAX as u32 {
        return Err("MySQL spatial SRID exceeds the portable range".to_owned());
    }
    let srid: i32 = number as i32;
    if let Some(expected) = expected_srid {
        if *expected != srid {
            return Err(
                "MySQL spatial value SRID differs from the column declaration".to_owned(),
            );
        }
    }
    let mut wkb: Vec<u8> = Vec::new();
    let mut i: usize = 4;
    while i < bytes.len()
        invariant
            4 <= i <= bytes@.len(),
            wkb@ =~= bytes@.subrange(4, i as int),
        decreases bytes@.len() - i,
    {
        wkb.push(bytes[i]);
        i += 1;
    }
    assert(wkb@ =~= bytes@.skip(4));
    let (geometry_type, dimensions) = match spatial_wire_header(&wkb) {
        Ok(header) => header,
        Err(message) => return Err(message),
    };
    if !eq_ignore_case(geometry_type, subtype.as_str()) || dimensions != *expected_dimensions {
        return Err(
            "MySQL spatial WKB header differs from the column declaration".to_owned(),
        );
    }
    let digits = decimal_text_signed(srid as i128);
    Ok(
        LogicalValue::Spatial {
            format: SpatialFormat::Wkb,
            bytes_base64url: base64url_encode(&wkb),
            geometry_type: geometry_type.to_owned(),
            dimensions,
            srid: Some(srid),
            crs: Some(concat("srid:", digits.as_str())),
        },
    )
}

// ---------------------------------------------------------------------------
// What a mapping promises
// ---------------------------------------------------------------------------

proof fn lemma_base_names()
    ensures
        "tinyint"@.len() == 7,
        "tinyint"@[0] == 't',
        "tinyint"@[1] == 'i',
        "tinyint"@[6] == 't',
        "smallint"@.len() == 8,
        "smallint"@[0] == 's',
        "smallint"@[1] == 'm',
        "smallint"@[7] == 't',
        "mediumint"@.len() == 9,
        "mediumint"@[0] == 'm',
        "mediumint"@[1] == 'e',
        "mediumint"@[8] == 't',
        "int"@.len() == 3,
        "int"@[0] == 'i',
        "int"@[1] == 'n',
        "int"@[2] == 't',
        "integer"@.len() == 7,
        "integer"@[0] == 'i',
        "integer"@[1] == 'n',
        "integer"@[6] == 'r',
        "bigint"@.len() == 6,
        "bigint"@[0] == 'b',
        "bigint"@[1] == 'i',
        "bigint"@[5] == 't',
        "decimal"@.len() == 7,
        "decimal"@[0] == 'd',
        "decimal"@[1] == 'e',
        "decimal"@[6] == 'l',
        "numeric"@.len() == 7,
        "numeric"@[0] == 'n',
        "numeric"@[1] == 'u',
        "numeric"@[6] == 'c',
        "float"@.len() == 5,
        "float"@[0] == 'f',
        "float"@[1] == 'l',
        "float"@[4] == 't',
        "double"@.len() == 6,
        "double"@[0] == 'd',
        "double"@[1] == 'o',
        "double"@[5] == 'e',
        "real"@.len() == 4,
        "real"@[0] == 'r',
        "real"@[1] == 'e',
        "real"@[3] == 'l',
        "char"@.len() == 4,
        "char"@[0] == 'c',
        "char"@[1] == 'h',
        "char"@[3] == 'r',
        "varchar"@.len() == 7,
        "varchar"@[0] == 'v',
        "varchar"@[1] == 'a',
        "varchar"@[6] == 'r',
        "tinytext"@.len() == 8,
        "tinytext"@[0] == 't',
        "tinytext"@[1] == 'i',
        "tinytext"@[7] == 't',
        "text"@.len() == 4,
        "text"@[0] == 't',
        "text"@[1] == 'e',
        "text"@[3] == 't',
        "mediumtext"@.len() == 10,
        "mediumtext"@[0] == 'm',
        "mediumtext"@[1] == 'e',
        "mediumtext"@[9] == 't',
        "longtext"@.len() == 8,
        "longtext"@[0] == 'l',
        "longtext"@[1] == 'o',
        "longtext"@[7] == 't',
        "binary"@.len() == 6,
        "binary"@[0] == 'b',
        "binary"@[1] == 'i',
        "binary"@[5] == 'y',
        "bit"@.len() == 3,
        "bit"@[0] == 'b',
        "bit"@[1] == 'i',
        "bit"@[2] == 't',
        "varbinary"@.len() == 9,
        "varbinary"@[0] == 'v',
        "varbinary"@[1] == 'a',
        "varbinary"@[8] == 'y',
        "tinyblob"@.len() == 8,
        "tinyblob"@[0] == 't',
        "tinyblob"@[1] == 'i',
        "tinyblob"@[7] == 'b',
        "blob"@.len() == 4,
        "blob"@[0] == 'b',
        "blob"@[1] == 'l',
        "blob"@[3] == 'b',
        "mediumblob"@.len() == 10,
        "mediumblob"@[0] == 'm',
        "mediumblob"@[1] == 'e',
        "mediumblob"@[9] == 'b',
        "longblob"@.len() == 8,
        "longblob"@[0] == 'l',
        "longblob"@[1] == 'o',
        "longblob"@[7] == 'b',
        "date"@.len() == 4,
        "date"@[0] == 'd',
        "date"@[1] == 'a',
        "date"@[3] == 'e',
        "json"@.len() == 4,
        "json"@[0] == 'j',
        "json"@[1] == 's',
        "json"@[3] == 'n',
        "point"@.len() == 5,
        "point"@[0] == 'p',
        "point"@[1] == 'o',
        "point"@[4] == 't',
        "linestring"@.len() == 10,
        "linestring"@[0] == 'l',
        "linestring"@[1] == 'i',
        "linestring"@[9] == 'g',
        "polygon"@.len() == 7,
        "polygon"@[0] == 'p',
        "polygon"@[1] == 'o',
        "polygon"@[6] == 'n',
        "multipoint"@.len() == 10,
        "multipoint"@[0] == 'm',
        "multipoint"@[1] == 'u',
        "multipoint"@[9] == 't',
        "multilinestring"@.len() == 15,
        "multilinestring"@[0] == 'm',
        "multilinestring"@[1] == 'u',
        "multilinestring"@[14] == 'g',
        "multipolygon"@.len() == 12,
        "multipolygon"@[0] == 'm',
        "multipolygon"@[1] == 'u',
        "multipolygon"@[11] == 'n',
        "geometrycollection"@.len() == 18,
        "geometrycollection"@[0] == 'g',
        "geometrycollection"@[1] == 'e',
        "geometrycollection"@[17] == 'n',
        "enum"@.len() == 4,
        "enum"@[0] == 'e',
        "enum"@[1] == 'n',
        "enum"@[3] == 'm',
        "set"@.len() == 3,
        "set"@[0] == 's',
        "set"@[1] == 'e',
        "set"@[2] == 't',
        "datetime"@.len() == 8,
        "datetime"@[0] == 'd',
        "datetime"@[1] == 'a',
        "datetime"@[7] == 'e',
        "timestamp"@.len() == 9,
        "timestamp"@[0] == 't',
        "timestamp"@[1] == 'i',
        "timestamp"@[8] == 'p',
        "time"@.len() == 4,
        "time"@[0] == 't',
        "time"@[1] == 'i',
        "time"@[3] == 'e',
        "year"@.len() == 4,
        "year"@[0] == 'y',
        "year"@[1] == 'e',
        "year"@[3] == 'r',
{
    reveal_strlit("tinyint");
    reveal_strlit("smallint");
    reveal_strlit("mediumint");
    reveal_strlit("int");
    reveal_strlit("integer");
    reveal_strlit("bigint");
    reveal_strlit("decimal");
    reveal_strlit("numeric");
    reveal_strlit("float");
    reveal_strlit("double");
    reveal_strlit("real");
    reveal_strlit("char");
    reveal_strlit("varchar");
    reveal_strlit("tinytext");
    reveal_strlit("text");
    reveal_strlit("mediumtext");
    reveal_strlit("longtext");
    reveal_strlit("binary");
    reveal_strlit("bit");
    reveal_strlit("varbinary");
    reveal_strlit("tinyblob");
    reveal_strlit("blob");
    reveal_strlit("mediumblob");
    reveal_strlit("longblob");
    reveal_strlit("date");
    reveal_strlit("json");
    reveal_strlit("point");
    reveal_strlit("linestring");
    reveal_strlit("polygon");
    reveal_strlit("multipoint");
    reveal_strlit("multilinestring");
    reveal_strlit("multipolygon");
    reveal_strlit("geometrycollection");
    reveal_strlit("enum");
    reveal_strlit("set");
    reveal_strlit("datetime");
    reveal_strlit("timestamp");
    reveal_strlit("time");
    reveal_strlit("year");
}

/// An integer column is mapped to the integers of as many bytes as the server
/// stores for its type, signed unless it is declared unsigned.
pub proof fn law_an_integer_column_holds_its_bytes(
    native_type: Seq<char>,
    charset: Option<Seq<char>>,
    d: Declared,
    logical: Doc,
    bytes: u8,
)
    requires
        declared(native_type) == Ok::<_, Complaint>(d),
        source_mapping(native_type, charset) == Ok::<_, Complaint>((d.base, logical)),
        (bytes == 1 && d.base == "tinyint"@) || (bytes == 2 && d.base == "smallint"@) || (bytes == 3
            && d.base == "mediumint"@) || (bytes == 4 && (d.base == "int"@ || d.base
            == "integer"@)) || (bytes == 8 && d.base == "bigint"@),
    ensures
        logical == (LogicalType::Integer {
            signed: !d.modifiers.contains("unsigned"@),
            bits: (8 * bytes) as u8,
        }).doc(),
{
    lemma_base_names();
}

/// A decimal column is mapped to the decimals of its declared precision and scale,
/// within the limits of the server.
pub proof fn law_a_decimal_column_has_its_precision(
    native_type: Seq<char>,
    charset: Option<Seq<char>>,
    d: Declared,
    logical: Doc,
)
    requires
        declared(native_type) == Ok::<_, Complaint>(d),
        source_mapping(native_type, charset) == Ok::<_, Complaint>((d.base, logical)),
        d.base == "decimal"@ || d.base == "numeric"@,
    ensures
        d.arguments.len() == 2,
        parse_unsigned(d.arguments[0], 65_535) matches Some(precision) && (parse_unsigned(
            d.arguments[1],
            65_535,
        ) matches Some(scale) && {
            &&& 1 <= precision <= 65
            &&& scale <= 30 && scale <= precision
            &&& logical == (LogicalType::Decimal { precision: precision as u16, scale: scale as i32 })
                .doc()
        }),
{
    lemma_base_names();
}

/// A column of approximate numbers is mapped to single precision exactly where it
/// is a FLOAT of at most 24 bits, else to double precision.
pub proof fn law_an_approximate_column_has_its_width(
    native_type: Seq<char>,
    charset: Option<Seq<char>>,
    d: Declared,
    logical: Doc,
)
    requires
        declared(native_type) == Ok::<_, Complaint>(d),
        source_mapping(native_type, charset) == Ok::<_, Complaint>((d.base, logical)),
        d.base == "float"@ || d.base == "double"@ || d.base == "real"@,
    ensures
        ({
            let precision = if d.arguments.len() == 0 {
                0
            } else {
                parse_unsigned(d.arguments[0], 65_535)->0
            };
            let bits: u8 = if d.base == "float"@ && precision <= 24 {
                32
            } else {
                64
            };
            precision <= 53 && logical == (LogicalType::Float { bits }).doc()
        }),
{
    lemma_base_names();
}

/// A column of bytes or bits is mapped to as many as it is declared with, and a
/// BLOB to as many as the number in front of it can count.
pub proof fn law_a_byte_column_has_its_length(
    native_type: Seq<char>,
    charset: Option<Seq<char>>,
    d: Declared,
    logical: Doc,
)
    requires
        declared(native_type) == Ok::<_, Complaint>(d),
        source_mapping(native_type, charset) == Ok::<_, Complaint>((d.base, logical)),
    ensures
        d.base == "tinyblob"@ ==> logical == (LogicalType::Binary {
            max_length: Some((pow2(8) - 1) as u64),
        }).doc(),
        d.base == "blob"@ ==> logical == (LogicalType::Binary {
            max_length: Some((pow2(16) - 1) as u64),
        }).doc(),
        d.base == "mediumblob"@ ==> logical == (LogicalType::Binary {
            max_length: Some((pow2(24) - 1) as u64),
        }).doc(),
        d.base == "longblob"@ ==> logical == (LogicalType::Binary {
            max_length: Some((pow2(32) - 1) as u64),
        }).doc(),
        d.base == "binary"@ || d.base == "varbinary"@ || d.base == "bit"@ ==> {
            let length = if d.arguments.len() == 0 {
                1
            } else {
                parse_unsigned(d.arguments[0], u64::MAX as nat)->0
            };
            &&& d.arguments.len() == 0 || parse_unsigned(d.arguments[0], u64::MAX as nat) is Some
            &&& d.base == "varbinary"@ ==> d.arguments.len() == 1
            &&& 1 <= length <= 65_535
            &&& d.base == "binary"@ ==> length <= 255
            &&& d.base == "bit"@ ==> length <= 64
            &&& logical == if d.base == "bit"@ {
                (LogicalType::BitString { length: length as u64 }).doc()
            } else {
                (LogicalType::Binary { max_length: Some(length as u64) }).doc()
            }
        },
{
    lemma_base_names();
    lemma2_to64();
}

/// A column of times is mapped to the kind of time that the server keeps in it,
/// with its declared fraction: a DATETIME is local, a TIMESTAMP an instant, and a
/// TIME a length of time.
pub proof fn law_a_temporal_column_keeps_its_kind(
    native_type: Seq<char>,
    charset: Option<Seq<char>>,
    d: Declared,
    logical: Doc,
)
    requires
        declared(native_type) == Ok::<_, Complaint>(d),
        source_mapping(native_type, charset) == Ok::<_, Complaint>((d.base, logical)),
    ensures
        ({
            let places = if d.arguments.len() == 0 {
                0
            } else {
                parse_unsigned(d.arguments[0], 65_535)->0
            };
            &&& d.base == "datetime"@ || d.base == "timestamp"@ || d.base == "time"@ ==> places <= 6
            &&& d.base == "datetime"@ ==> logical == (LogicalType::LocalDatetime {
                fractional_precision: places as u8,
            }).doc()
            &&& d.base == "timestamp"@ ==> logical == (LogicalType::Instant {
                fractional_precision: places as u8,
            }).doc()
            &&& d.base == "time"@ ==> logical == (LogicalType::Duration {
                fractional_precision: places as u8,
            }).doc()
            &&& d.base == "date"@ ==> logical == LogicalType::Date.doc()
            &&& d.base == "year"@ ==> logical == LogicalType::Year.doc()
        }),
{
    lemma_base_names();
}

/// A column of labels is mapped to its labels in their order.
pub proof fn law_a_label_column_has_its_labels(
    native_type: Seq<char>,
    charset: Option<Seq<char>>,
    d: Declared,
    logical: Doc,
)
    requires
        declared(native_type) == Ok::<_, Complaint>(d),
        source_mapping(native_type, charset) == Ok::<_, Complaint>((d.base, logical)),
        d.base == "enum"@ || d.base == "set"@,
    ensures
        d.arguments.len() > 0,
        logical == Doc::Obj(
            family_members(d.base).push(
                (
                    "members"@,
                    Doc::Arr(Seq::new(d.arguments.len(), |i: int| Doc::Str(d.arguments[i]))),
                ),
            ),
        ),
{
    lemma_base_names();
}

/// The bit of a number at a place, counted from the lowest.
pub open spec fn bit_at(number: nat, place: nat) -> bool {
    (number / pow2(place)) % 2 == 1
}

proof fn lemma_next_bit(number: nat, place: nat)
    ensures
        bit_at(number, place + 1) == bit_at(number / 2, place),
        number / pow2(place + 1) == (number / 2) / pow2(place),
{
    lemma_pow2_unfold(place + 1);
    lemma_pow2_pos(place);
    vstd::arithmetic::div_mod::lemma_div_denominator(number as int, 2, pow2(place) as int);
}

proof fn lemma_flagged(members: Seq<String>, flags: nat, member: Seq<char>)
    ensures
        flagged_members(members, flags).contains(member) <==> exists|i: int|
            0 <= i < members.len() && (#[trigger] members[i])@ == member && bit_at(flags, i as nat),
    decreases members.len(),
{
    lemma2_to64();
    if members.len() > 0 {
        let rest = members.drop_first();
        let flagged = flagged_members(rest, flags / 2);
        lemma_flagged(rest, flags / 2, member);
        assert(bit_at(flags, 0) <==> flags % 2 == 1);
        if flagged.contains(member) {
            let i = choose|i: int|
                0 <= i < rest.len() && (#[trigger] rest[i])@ == member && bit_at(
                    flags / 2,
                    i as nat,
                );
            lemma_next_bit(flags, i as nat);
            assert(members[i + 1] == rest[i]);
            let j = choose|j: int| 0 <= j < flagged.len() && flagged[j] == member;
            if flags % 2 == 1 {
                assert((seq![members[0]@] + flagged)[j + 1] == member);
            }
        }
        if flags % 2 == 1 && members[0]@ == member {
            assert((seq![members[0]@] + flagged)[0] == member);
        }
        if flagged_members(members, flags).contains(member) && !flagged.contains(member) {
            let j = choose|j: int|
                0 <= j < flagged_members(members, flags).len() && flagged_members(members, flags)[j]
                    == member;
            if flags % 2 == 1 {
                if j > 0 {
                    assert(flagged[j - 1] == member);
                }
                assert(members[0]@ == member && bit_at(flags, 0));
            } else {
                assert(flagged[j] == member);
            }
        }
        if exists|i: int|
            0 <= i < members.len() && (#[trigger] members[i])@ == member && bit_at(flags, i as nat) {
            let i = choose|i: int|
                0 <= i < members.len() && (#[trigger] members[i])@ == member && bit_at(
                    flags,
                    i as nat,
                );
            if i > 0 {
                lemma_next_bit(flags, (i - 1) as nat);
                assert(rest[i - 1] == members[i]);
            }
        }
    }
}

proof fn lemma_without_bits(flags: nat, bits: nat)
    ensures
        without_bits(flags, bits) == flags / pow2(bits),
    decreases bits,
{
    lemma2_to64();
    assert(flags / 1 == flags);
    if bits > 0 {
        lemma_without_bits(flags / 2, (bits - 1) as nat);
        lemma_next_bit(flags, (bits - 1) as nat);
    }
}

/// A number on the wire stands for exactly the members whose bit it has, from the
/// lowest bit on, and for a set at all exactly where it has no bit beyond them.
pub proof fn law_a_set_number_has_the_bits_of_its_members(
    members: Vec<String>,
    number: u64,
    member: Seq<char>,
)
    ensures
        match numbered(LogicalType::SetType { members }, number) {
            Numbered::Members(kept) => {
                &&& number < pow2(members@.len())
                &&& kept.contains(member) <==> exists|i: int|
                    0 <= i < members@.len() && (#[trigger] members@[i])@ == member && bit_at(
                        number as nat,
                        i as nat,
                    )
            },
            Numbered::Label(_) => false,
            Numbered::Fault(_) => number >= pow2(members@.len()),
        },
{
    let count = members@.len();
    lemma_flagged(members@, number as nat, member);
    lemma_without_bits(number as nat, count);
    lemma_pow2_pos(count);
    let p = pow2(count) as int;
    let n = number as int;
    assert(n / p == 0 <==> n < p) by (nonlinear_arith)
        requires
            p > 0,
            n >= 0,
    ;
}

/// A label on the wire is counted from one, in the order of the declaration.
pub proof fn law_labels_are_counted_from_one(members: Vec<String>, number: u64)
    ensures
        match numbered(LogicalType::Enum { members }, number) {
            Numbered::Label(label) => 1 <= number <= members@.len() && label == members@[number
                - 1]@,
            Numbered::Members(_) => false,
            Numbered::Fault(_) => number == 0 || number > members@.len() || number > usize::MAX,
        },
{
}

/// The bytes of a bitmask come lowest first: each is the part of the number at its
/// place.
pub proof fn law_a_bitmask_comes_lowest_byte_first(bytes: Seq<u8>, i: nat)
    requires
        i < bytes.len(),
    ensures
        (little_endian(bytes) / pow2(8 * i)) % 256 == bytes[i as int] as nat,
    decreases i,
{
    lemma2_to64();
    let rest = bytes.drop_first();
    let number = little_endian(rest);
    assert(little_endian(bytes) == bytes[0] as nat + 0x100 * number);
    if i == 0 {
        assert(little_endian(bytes) / 1 == little_endian(bytes));
    } else {
        let less = (i - 1) as nat;
        law_a_bitmask_comes_lowest_byte_first(rest, less);
        lemma_pow2_adds(8, 8 * less);
        lemma_pow2_pos(8 * less);
        assert(8 * i == 8 + 8 * less);
        vstd::arithmetic::div_mod::lemma_div_denominator(
            little_endian(bytes) as int,
            256,
            pow2(8 * less) as int,
        );
        assert(little_endian(bytes) / 256 == number);
        assert(rest[less as int] == bytes[i as int]);
    }
}

} // verus!
