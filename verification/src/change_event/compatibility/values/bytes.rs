//! Binary values, bit strings and spatial values against a plan.
use crate::change_event::bits::{
    byte_count, bytes_for, padding_bits, padding_expected, padding_fits, unused_bits,
};
use crate::change_event::compatibility::plan::ColumnConversionPlan;
use crate::change_event::compatibility::values::refusal::{
    plan_holds, plan_parameter, plan_value, refusal_of, refuse, unsigned, Refusal, RefusalText,
};
use crate::change_event::model::{BitOrder, BitPadding, LogicalValue, SpatialFormat};
use crate::change_event::spatial::{
    code_dimensions, code_geometry, code_has_srid, dimensions_of, geometry_name, geometry_of,
    has_srid, read_u32, signed_32, to_signed_32, wire_u32,
};
use crate::encoding::{base64url_decode, base64url_decoded};
use crate::number::{
    decimal, decimal_text, parse_i32, parse_signed, parse_u64, parse_u8, parse_unsigned,
    parse_usize,
};
use crate::text::{eq_ignore_case, same, same_ignoring_case};
use vstd::prelude::*;

verus! {

// ---------------------------------------------------------------------------
// Binary values
// ---------------------------------------------------------------------------

/// A length parameter that names a limit.
pub open spec fn limit(value: Option<Seq<char>>) -> Option<Seq<char>> {
    if value == Some("unbounded"@) {
        None
    } else {
        value
    }
}

/// Why the target length of a plan refuses a number of bytes.
pub open spec fn binary_target_refusal(plan: ColumnConversionPlan, count: int) -> Option<
    RefusalText,
> {
    match limit(plan_value(plan, "target_length"@)) {
        None => None,
        Some(text) => match parse_unsigned(text, usize::MAX as nat) {
            None => Some(
                (
                    "target_capability.binary_length_invalid"@,
                    "the saved binary target length is invalid"@,
                ),
            ),
            Some(length) => if count > length || (plan_value(plan, "target_fixed"@) == Some(
                "true"@,
            ) && count < length && plan_value(plan, "target_padding"@) == Some("none"@)) {
                Some(
                    (
                        "target_capability.binary_length_out_of_range"@,
                        "binary bytes do not fit the saved target length or padding policy"@,
                    ),
                )
            } else {
                None
            },
        },
    }
}

/// Why the source length of a plan refuses a number of bytes.
pub open spec fn binary_source_refusal(plan: ColumnConversionPlan, count: int) -> Option<
    RefusalText,
> {
    match unsigned(limit(plan_value(plan, "source_length"@)), usize::MAX as nat) {
        None => None,
        Some(length) => if count > length || (plan_value(plan, "source_fixed"@) == Some("true"@)
            && count != length) {
            Some(
                (
                    "target_capability.binary_source_length_invalid"@,
                    "binary bytes do not match the saved source length semantics"@,
                ),
            )
        } else {
            None
        },
    }
}

/// Why a plan refuses a value as a binary one.
pub open spec fn binary_refusal(plan: ColumnConversionPlan, value: LogicalValue) -> Option<
    RefusalText,
> {
    match value {
        LogicalValue::Binary { bytes_base64url } => if plan_value(plan, "binary_encoding"@) != Some(
            "raw_bytes"@,
        ) {
            Some(
                (
                    "target_capability.binary_encoding_invalid"@,
                    "binary values require the raw_bytes representation; text or base64 text is not implicit"@,
                ),
            )
        } else {
            match base64url_decoded(bytes_base64url@) {
                None => Some(
                    (
                        "target_capability.binary_format_invalid"@,
                        "the binary value is not valid base64url bytes"@,
                    ),
                ),
                Some(bytes) => match binary_target_refusal(plan, bytes.len() as int) {
                    Some(refusal) => Some(refusal),
                    None => binary_source_refusal(plan, bytes.len() as int),
                },
            }
        },
        _ => Some(
            (
                "target_capability.binary_type_mismatch"@,
                "the binary conversion plan received a non-binary value"@,
            ),
        ),
    }
}

fn check_binary_target(plan: &ColumnConversionPlan, count: usize) -> (result: Result<(), Refusal>)
    ensures
        refusal_of(result) == binary_target_refusal(*plan, count as int),
{
    match plan_parameter(plan, "target_length") {
        None => Ok(()),
        Some(text) => {
            if same(text, "unbounded") {
                return Ok(());
            }
            match parse_usize(text) {
                None => Err(
                    refuse(
                        "target_capability.binary_length_invalid",
                        "the saved binary target length is invalid",
                    ),
                ),
                Some(length) => {
                    if count > length || (plan_holds(plan, "target_fixed", "true") && count < length
                        && plan_holds(plan, "target_padding", "none")) {
                        return Err(
                            refuse(
                                "target_capability.binary_length_out_of_range",
                                "binary bytes do not fit the saved target length or padding policy",
                            ),
                        );
                    }
                    Ok(())
                },
            }
        },
    }
}

fn check_binary_source(plan: &ColumnConversionPlan, count: usize) -> (result: Result<(), Refusal>)
    ensures
        refusal_of(result) == binary_source_refusal(*plan, count as int),
{
    match plan_parameter(plan, "source_length") {
        None => Ok(()),
        Some(text) => {
            if same(text, "unbounded") {
                return Ok(());
            }
            match parse_usize(text) {
                None => Ok(()),
                Some(length) => {
                    if count > length || (plan_holds(plan, "source_fixed", "true") && count
                        != length) {
                        return Err(
                            refuse(
                                "target_capability.binary_source_length_invalid",
                                "binary bytes do not match the saved source length semantics",
                            ),
                        );
                    }
                    Ok(())
                },
            }
        },
    }
}

pub(crate) fn validate_binary_plan_value(
    plan: &ColumnConversionPlan,
    value: &LogicalValue,
) -> (result: Result<(), Refusal>)
    ensures
        refusal_of(result) == binary_refusal(*plan, *value),
{
    match value {
        LogicalValue::Binary { bytes_base64url } => {
            if !plan_holds(plan, "binary_encoding", "raw_bytes") {
                return Err(
                    refuse(
                        "target_capability.binary_encoding_invalid",
                        "binary values require the raw_bytes representation; text or base64 text is not implicit",
                    ),
                );
            }
            let bytes = match base64url_decode(bytes_base64url.as_str()) {
                Some(bytes) => bytes,
                None => {
                    return Err(
                        refuse(
                            "target_capability.binary_format_invalid",
                            "the binary value is not valid base64url bytes",
                        ),
                    );
                },
            };
            match check_binary_target(plan, bytes.len()) {
                Ok(_) => check_binary_source(plan, bytes.len()),
                Err(refusal) => Err(refusal),
            }
        },
        _ => Err(
            refuse(
                "target_capability.binary_type_mismatch",
                "the binary conversion plan received a non-binary value",
            ),
        ),
    }
}

// ---------------------------------------------------------------------------
// Bit strings
// ---------------------------------------------------------------------------

/// The bit order that a parameter spells.
pub open spec fn order_of(value: Option<Seq<char>>) -> Option<BitOrder> {
    if value == Some("msb_first"@) {
        Some(BitOrder::MsbFirst)
    } else if value == Some("lsb_first"@) {
        Some(BitOrder::LsbFirst)
    } else {
        None
    }
}

/// The padding that a parameter spells.
pub open spec fn padding_of(value: Option<Seq<char>>) -> Option<BitPadding> {
    if value == Some("none"@) {
        Some(BitPadding::NoPadding)
    } else if value == Some("zero"@) {
        Some(BitPadding::Zero)
    } else if value == Some("one"@) {
        Some(BitPadding::One)
    } else {
        None
    }
}

/// The bit length of a plan's target.
pub open spec fn target_bit_length(plan: ColumnConversionPlan) -> Option<Seq<char>> {
    match plan_value(plan, "target_bit_length"@) {
        Some(text) => Some(text),
        None => plan_value(plan, "target_length"@),
    }
}

/// Why a plan refuses a bit length.
pub open spec fn bit_length_refusal(plan: ColumnConversionPlan, bit_length: u64) -> Option<
    RefusalText,
> {
    match target_bit_length(plan) {
        None => Some(
            (
                "target_capability.bit_string_length_missing"@,
                "the bit string plan does not declare a target bit length"@,
            ),
        ),
        Some(text) => match parse_unsigned(text, u64::MAX as nat) {
            None => Some(
                (
                    "target_capability.bit_string_length_invalid"@,
                    "the saved bit string length is invalid"@,
                ),
            ),
            Some(length) => if bit_length as nat != length {
                Some(
                    (
                        "target_capability.bit_string_length_mismatch"@,
                        "bit string length differs from the qualified target length"@,
                    ),
                )
            } else if unsigned(
                plan_value(plan, "source_bit_length"@),
                u64::MAX as nat,
            ) matches Some(source) && bit_length as nat != source {
                Some(
                    (
                        "target_capability.bit_string_source_length_mismatch"@,
                        "bit string length differs from the qualified source length"@,
                    ),
                )
            } else {
                None
            },
        },
    }
}

/// Why a plan refuses the bytes of a bit string.
pub open spec fn bit_bytes_refusal(
    encoded: Seq<char>,
    bit_length: u64,
    padding: BitPadding,
    bit_order: BitOrder,
) -> Option<RefusalText> {
    let unused = unused_bits(bit_length as int);
    match base64url_decoded(encoded) {
        None => Some(
            (
                "target_capability.bit_string_format_invalid"@,
                "the bit string value is not valid base64url bytes"@,
            ),
        ),
        Some(raw) => if raw.len() != bytes_for(bit_length as int) {
            Some(
                (
                    "target_capability.bit_string_length_invalid"@,
                    "bit string bytes do not match the declared bit length"@,
                ),
            )
        } else if unused == 0 {
            if padding is NoPadding {
                None
            } else {
                Some(
                    (
                        "target_capability.bit_padding_invalid"@,
                        "a byte-aligned bit string cannot contain padding bits"@,
                    ),
                )
            }
        } else if padding_bits(raw.last(), unused, bit_order) != padding_expected(
            unused,
            padding,
        ) {
            Some(
                (
                    "target_capability.bit_padding_invalid"@,
                    "unused bit padding does not match the qualified zero/one policy"@,
                ),
            )
        } else {
            None
        },
    }
}

/// Why a plan refuses a value as a bit string.
pub open spec fn bit_string_refusal(plan: ColumnConversionPlan, value: LogicalValue) -> Option<
    RefusalText,
> {
    match value {
        LogicalValue::BitString { bytes_base64url, bit_length, padding, bit_order } => {
            match bit_length_refusal(plan, bit_length) {
                Some(refusal) => Some(refusal),
                None => match order_of(plan_value(plan, "target_bit_order"@)) {
                    None => Some(
                        (
                            "target_capability.bit_order_missing"@,
                            "the bit string plan must declare bit order"@,
                        ),
                    ),
                    Some(order) => if bit_order != order {
                        Some(
                            (
                                "target_capability.bit_order_mismatch"@,
                                "bit order differs from the qualified target representation"@,
                            ),
                        )
                    } else {
                        match padding_of(plan_value(plan, "target_padding"@)) {
                            None => Some(
                                (
                                    "target_capability.bit_padding_missing"@,
                                    "the bit string plan must declare padding semantics"@,
                                ),
                            ),
                            Some(expected) => if padding != expected {
                                Some(
                                    (
                                        "target_capability.bit_padding_mismatch"@,
                                        "bit padding differs from the qualified target representation"@,
                                    ),
                                )
                            } else {
                                bit_bytes_refusal(bytes_base64url@, bit_length, padding, bit_order)
                            },
                        }
                    },
                },
            }
        },
        _ => Some(
            (
                "target_capability.bit_string_type_mismatch"@,
                "the bit string conversion plan received another LogicalValue family"@,
            ),
        ),
    }
}

fn check_bit_length(plan: &ColumnConversionPlan, bit_length: u64) -> (result: Result<(), Refusal>)
    ensures
        refusal_of(result) == bit_length_refusal(*plan, bit_length),
{
    let declared = match plan_parameter(plan, "target_bit_length") {
        Some(text) => Some(text),
        None => plan_parameter(plan, "target_length"),
    };
    let text = match declared {
        Some(text) => text,
        None => {
            return Err(
                refuse(
                    "target_capability.bit_string_length_missing",
                    "the bit string plan does not declare a target bit length",
                ),
            );
        },
    };
    let length: u64 = match parse_u64(text) {
        Some(length) => length,
        None => {
            return Err(
                refuse(
                    "target_capability.bit_string_length_invalid",
                    "the saved bit string length is invalid",
                ),
            );
        },
    };
    if bit_length != length {
        return Err(
            refuse(
                "target_capability.bit_string_length_mismatch",
                "bit string length differs from the qualified target length",
            ),
        );
    }
    if let Some(source) = plan_parameter(plan, "source_bit_length") {
        if let Some(source_length) = parse_u64(source) {
            if bit_length != source_length {
                return Err(
                    refuse(
                        "target_capability.bit_string_source_length_mismatch",
                        "bit string length differs from the qualified source length",
                    ),
                );
            }
        }
    }
    Ok(())
}

fn check_bit_bytes(
    encoded: &str,
    bit_length: u64,
    padding: BitPadding,
    bit_order: BitOrder,
) -> (result: Result<(), Refusal>)
    ensures
        refusal_of(result) == bit_bytes_refusal(encoded@, bit_length, padding, bit_order),
{
    let raw = match base64url_decode(encoded) {
        Some(raw) => raw,
        None => {
            return Err(
                refuse(
                    "target_capability.bit_string_format_invalid",
                    "the bit string value is not valid base64url bytes",
                ),
            );
        },
    };
    if raw.len() as u64 != byte_count(bit_length) {
        return Err(
            refuse(
                "target_capability.bit_string_length_invalid",
                "bit string bytes do not match the declared bit length",
            ),
        );
    }
    if bit_length % 8 == 0 {
        if !matches!(padding, BitPadding::NoPadding) {
            return Err(
                refuse(
                    "target_capability.bit_padding_invalid",
                    "a byte-aligned bit string cannot contain padding bits",
                ),
            );
        }
        return Ok(());
    }
    let last: u8 = raw[raw.len() - 1];
    if !padding_fits(last, bit_length, padding, bit_order) {
        return Err(
            refuse(
                "target_capability.bit_padding_invalid",
                "unused bit padding does not match the qualified zero/one policy",
            ),
        );
    }
    Ok(())
}

pub(crate) fn validate_bit_string_plan_value(
    plan: &ColumnConversionPlan,
    value: &LogicalValue,
) -> (result: Result<(), Refusal>)
    ensures
        refusal_of(result) == bit_string_refusal(*plan, *value),
{
    match value {
        LogicalValue::BitString { bytes_base64url, bit_length, padding, bit_order } => {
            match check_bit_length(plan, *bit_length) {
                Ok(_) => {},
                Err(refusal) => {
                    return Err(refusal);
                },
            }
            let order = if plan_holds(plan, "target_bit_order", "msb_first") {
                BitOrder::MsbFirst
            } else if plan_holds(plan, "target_bit_order", "lsb_first") {
                BitOrder::LsbFirst
            } else {
                return Err(
                    refuse(
                        "target_capability.bit_order_missing",
                        "the bit string plan must declare bit order",
                    ),
                );
            };
            if *bit_order != order {
                return Err(
                    refuse(
                        "target_capability.bit_order_mismatch",
                        "bit order differs from the qualified target representation",
                    ),
                );
            }
            let expected = if plan_holds(plan, "target_padding", "none") {
                BitPadding::NoPadding
            } else if plan_holds(plan, "target_padding", "zero") {
                BitPadding::Zero
            } else if plan_holds(plan, "target_padding", "one") {
                BitPadding::One
            } else {
                return Err(
                    refuse(
                        "target_capability.bit_padding_missing",
                        "the bit string plan must declare padding semantics",
                    ),
                );
            };
            if *padding != expected {
                return Err(
                    refuse(
                        "target_capability.bit_padding_mismatch",
                        "bit padding differs from the qualified target representation",
                    ),
                );
            }
            check_bit_bytes(bytes_base64url.as_str(), *bit_length, *padding, *bit_order)
        },
        _ => Err(
            refuse(
                "target_capability.bit_string_type_mismatch",
                "the bit string conversion plan received another LogicalValue family",
            ),
        ),
    }
}

// ---------------------------------------------------------------------------
// Spatial values
// ---------------------------------------------------------------------------

/// The spatial format that a parameter spells.
pub open spec fn format_of(value: Option<Seq<char>>) -> Option<SpatialFormat> {
    if value == Some("wkb"@) {
        Some(SpatialFormat::Wkb)
    } else if value == Some("ewkb"@) {
        Some(SpatialFormat::Ewkb)
    } else {
        None
    }
}

/// Why a plan refuses the format and the geometry of a spatial value.
pub open spec fn spatial_shape_refusal(
    plan: ColumnConversionPlan,
    format: SpatialFormat,
    geometry_type: Seq<char>,
) -> Option<RefusalText> {
    match format_of(plan_value(plan, "target_spatial_format"@)) {
        None => Some(
            (
                "target_capability.spatial_format_missing"@,
                "the spatial plan must declare WKB or EWKB format"@,
            ),
        ),
        Some(expected) => if format != expected {
            Some(
                (
                    "target_capability.spatial_format_mismatch"@,
                    "spatial wire format differs from the qualified target representation"@,
                ),
            )
        } else {
            match plan_value(plan, "target_geometry_type"@) {
                None => Some(
                    (
                        "target_capability.spatial_geometry_type_missing"@,
                        "the spatial plan must declare geometry type"@,
                    ),
                ),
                Some(geometry) => if !same_ignoring_case(geometry_type, geometry) {
                    Some(
                        (
                            "target_capability.spatial_geometry_type_mismatch"@,
                            "spatial geometry type differs from the qualified target representation"@,
                        ),
                    )
                } else if plan_value(plan, "source_geometry_type"@) matches Some(source)
                    && !same_ignoring_case(geometry_type, source) {
                    Some(
                        (
                            "target_capability.spatial_source_geometry_type_mismatch"@,
                            "spatial geometry type differs from the qualified source representation"@,
                        ),
                    )
                } else {
                    None
                },
            }
        },
    }
}

/// Why a plan refuses the dimensions of a spatial value.
pub open spec fn spatial_dimensions_refusal(plan: ColumnConversionPlan, dimensions: u8) -> Option<
    RefusalText,
> {
    match plan_value(plan, "target_dimensions"@) {
        None => Some(
            (
                "target_capability.spatial_dimensions_missing"@,
                "the spatial plan must declare dimensions"@,
            ),
        ),
        Some(text) => match parse_unsigned(text, 255) {
            None => Some(
                (
                    "target_capability.spatial_dimensions_invalid"@,
                    "the saved spatial dimensions are invalid"@,
                ),
            ),
            Some(expected) => if dimensions as nat != expected {
                Some(
                    (
                        "target_capability.spatial_dimensions_mismatch"@,
                        "spatial dimensions differ from the qualified target representation"@,
                    ),
                )
            } else if plan_value(plan, "source_dimensions"@) matches Some(source) && source
                != decimal(dimensions as nat) {
                Some(
                    (
                        "target_capability.spatial_source_dimensions_mismatch"@,
                        "spatial dimensions differ from the qualified source representation"@,
                    ),
                )
            } else {
                None
            },
        },
    }
}

/// The SRID that a text spells.
pub open spec fn srid_of(text: Seq<char>) -> Option<int> {
    parse_signed(text, i32::MIN as int, i32::MAX as int)
}

pub open spec fn srid_view(srid: Option<i32>) -> Option<int> {
    match srid {
        Some(srid) => Some(srid as int),
        None => None,
    }
}

/// Why a plan refuses the SRID of a spatial value.
pub open spec fn spatial_srid_refusal(plan: ColumnConversionPlan, srid: Option<i32>) -> Option<
    RefusalText,
> {
    match plan_value(plan, "target_srid"@) {
        None => Some(
            (
                "target_capability.spatial_srid_missing"@,
                "the spatial plan must declare SRID"@,
            ),
        ),
        Some(expected) => if expected != "unknown"@ && srid_view(srid) != srid_of(expected) {
            Some(
                (
                    "target_capability.spatial_srid_mismatch"@,
                    "spatial SRID differs from the qualified target representation"@,
                ),
            )
        } else if plan_value(plan, "source_srid"@) matches Some(source) && source != "unknown"@
            && srid_view(srid) != srid_of(source) {
            Some(
                (
                    "target_capability.spatial_source_srid_mismatch"@,
                    "spatial SRID differs from the qualified source representation"@,
                ),
            )
        } else {
            None
        },
    }
}

/// The CRS of a value is the one that is named, and is known.
pub open spec fn crs_is(crs: Option<String>, expected: Seq<char>) -> bool {
    expected != "unknown"@ && (crs matches Some(text) && text@ == expected)
}

/// Why a plan refuses the CRS and the source format of a spatial value.
pub open spec fn spatial_crs_refusal(
    plan: ColumnConversionPlan,
    format: SpatialFormat,
    crs: Option<String>,
) -> Option<RefusalText> {
    match plan_value(plan, "target_crs"@) {
        None => Some(
            (
                "target_capability.spatial_crs_missing"@,
                "the spatial plan must declare CRS identity"@,
            ),
        ),
        Some(expected) => if !crs_is(crs, expected) {
            Some(
                (
                    "target_capability.spatial_crs_mismatch"@,
                    "spatial CRS is missing or differs from the qualified target representation"@,
                ),
            )
        } else if plan_value(plan, "source_crs"@) matches Some(source) && !crs_is(crs, source) {
            Some(
                (
                    "target_capability.spatial_source_crs_mismatch"@,
                    "spatial CRS is missing or differs from the qualified source representation"@,
                ),
            )
        } else if plan_value(plan, "source_spatial_format"@) matches Some(source)
            && format_of(Some(source)) != Some(format) {
            Some(
                (
                    "target_capability.spatial_format_mismatch"@,
                    "the saved spatial source and target formats are not equivalent"@,
                ),
            )
        } else {
            None
        },
    }
}

/// Why the bytes of a spatial value do not say what a plan expects.
pub open spec fn spatial_wire_refusal(
    bytes: Seq<u8>,
    format: SpatialFormat,
    geometry_type: Seq<char>,
    dimensions: int,
    srid: Option<int>,
) -> Option<RefusalText> {
    if bytes.len() < 5 {
        Some(
            (
                "target_capability.spatial_format_invalid"@,
                "the spatial value has no complete WKB header"@,
            ),
        )
    } else if bytes[0] > 1 {
        Some(
            (
                "target_capability.spatial_format_invalid"@,
                "the spatial byte-order marker is invalid"@,
            ),
        )
    } else {
        let little_endian = bytes[0] == 1;
        let code = wire_u32(bytes, 1, little_endian);
        let embedded = code_has_srid(code);
        if !(geometry_name(code_geometry(code)) matches Some(name) && same_ignoring_case(
            name,
            geometry_type,
        )) || code_dimensions(code) != dimensions {
            Some(
                (
                    "target_capability.spatial_header_mismatch"@,
                    "the spatial wire header does not match geometry type or dimensions"@,
                ),
            )
        } else if embedded && bytes.len() < 9 {
            Some(
                (
                    "target_capability.spatial_format_invalid"@,
                    "the EWKB SRID header is truncated"@,
                ),
            )
        } else if (format is Ewkb) != embedded {
            Some(
                (
                    "target_capability.spatial_format_mismatch"@,
                    "the spatial value uses a different WKB/EWKB SRID format"@,
                ),
            )
        } else if srid != if embedded {
            Some(signed_32(wire_u32(bytes, 5, little_endian)))
        } else {
            None
        } {
            Some(
                (
                    "target_capability.spatial_srid_mismatch"@,
                    "the embedded spatial SRID differs from the qualified target SRID"@,
                ),
            )
        } else {
            None
        }
    }
}

/// Why a plan refuses a value as a spatial one.
pub open spec fn spatial_refusal(plan: ColumnConversionPlan, value: LogicalValue) -> Option<
    RefusalText,
> {
    match value {
        LogicalValue::Spatial {
            format,
            bytes_base64url,
            geometry_type,
            dimensions,
            srid,
            crs,
        } => {
            if spatial_shape_refusal(plan, format, geometry_type@) is Some {
                spatial_shape_refusal(plan, format, geometry_type@)
            } else if spatial_dimensions_refusal(plan, dimensions) is Some {
                spatial_dimensions_refusal(plan, dimensions)
            } else if spatial_srid_refusal(plan, srid) is Some {
                spatial_srid_refusal(plan, srid)
            } else if spatial_crs_refusal(plan, format, crs) is Some {
                spatial_crs_refusal(plan, format, crs)
            } else {
                match base64url_decoded(bytes_base64url@) {
                    None => Some(
                        (
                            "target_capability.spatial_format_invalid"@,
                            "the spatial value is not valid base64url wire bytes"@,
                        ),
                    ),
                    Some(bytes) => spatial_wire_refusal(
                        bytes,
                        format,
                        plan_value(plan, "target_geometry_type"@)->0,
                        dimensions as int,
                        if format is Ewkb {
                            srid_view(srid)
                        } else {
                            None
                        },
                    ),
                }
            }
        },
        _ => Some(
            (
                "target_capability.spatial_type_mismatch"@,
                "the spatial conversion plan received another LogicalValue family"@,
            ),
        ),
    }
}

fn check_spatial_shape(
    plan: &ColumnConversionPlan,
    format: SpatialFormat,
    geometry_type: &str,
) -> (result: Result<(), Refusal>)
    ensures
        refusal_of(result) == spatial_shape_refusal(*plan, format, geometry_type@),
{
    let expected = if plan_holds(plan, "target_spatial_format", "wkb") {
        SpatialFormat::Wkb
    } else if plan_holds(plan, "target_spatial_format", "ewkb") {
        SpatialFormat::Ewkb
    } else {
        return Err(
            refuse(
                "target_capability.spatial_format_missing",
                "the spatial plan must declare WKB or EWKB format",
            ),
        );
    };
    if format != expected {
        return Err(
            refuse(
                "target_capability.spatial_format_mismatch",
                "spatial wire format differs from the qualified target representation",
            ),
        );
    }
    let geometry = match plan_parameter(plan, "target_geometry_type") {
        Some(geometry) => geometry,
        None => {
            return Err(
                refuse(
                    "target_capability.spatial_geometry_type_missing",
                    "the spatial plan must declare geometry type",
                ),
            );
        },
    };
    if !eq_ignore_case(geometry_type, geometry) {
        return Err(
            refuse(
                "target_capability.spatial_geometry_type_mismatch",
                "spatial geometry type differs from the qualified target representation",
            ),
        );
    }
    if let Some(source) = plan_parameter(plan, "source_geometry_type") {
        if !eq_ignore_case(geometry_type, source) {
            return Err(
                refuse(
                    "target_capability.spatial_source_geometry_type_mismatch",
                    "spatial geometry type differs from the qualified source representation",
                ),
            );
        }
    }
    Ok(())
}

fn check_spatial_dimensions(plan: &ColumnConversionPlan, dimensions: u8) -> (result: Result<
    (),
    Refusal,
>)
    ensures
        refusal_of(result) == spatial_dimensions_refusal(*plan, dimensions),
{
    let text = match plan_parameter(plan, "target_dimensions") {
        Some(text) => text,
        None => {
            return Err(
                refuse(
                    "target_capability.spatial_dimensions_missing",
                    "the spatial plan must declare dimensions",
                ),
            );
        },
    };
    let expected: u8 = match parse_u8(text) {
        Some(expected) => expected,
        None => {
            return Err(
                refuse(
                    "target_capability.spatial_dimensions_invalid",
                    "the saved spatial dimensions are invalid",
                ),
            );
        },
    };
    if dimensions != expected {
        return Err(
            refuse(
                "target_capability.spatial_dimensions_mismatch",
                "spatial dimensions differ from the qualified target representation",
            ),
        );
    }
    if let Some(source) = plan_parameter(plan, "source_dimensions") {
        let spelled = decimal_text(dimensions as u128);
        if !same(source, spelled.as_str()) {
            return Err(
                refuse(
                    "target_capability.spatial_source_dimensions_mismatch",
                    "spatial dimensions differ from the qualified source representation",
                ),
            );
        }
    }
    Ok(())
}

fn is_srid(srid: Option<i32>, text: &str) -> (result: bool)
    ensures
        result == (srid_view(srid) == srid_of(text@)),
{
    match (srid, parse_i32(text)) {
        (Some(a), Some(b)) => a == b,
        (None, None) => true,
        _ => false,
    }
}

fn check_spatial_srid(plan: &ColumnConversionPlan, srid: Option<i32>) -> (result: Result<
    (),
    Refusal,
>)
    ensures
        refusal_of(result) == spatial_srid_refusal(*plan, srid),
{
    let expected = match plan_parameter(plan, "target_srid") {
        Some(expected) => expected,
        None => {
            return Err(
                refuse(
                    "target_capability.spatial_srid_missing",
                    "the spatial plan must declare SRID",
                ),
            );
        },
    };
    if !same(expected, "unknown") && !is_srid(srid, expected) {
        return Err(
            refuse(
                "target_capability.spatial_srid_mismatch",
                "spatial SRID differs from the qualified target representation",
            ),
        );
    }
    if let Some(source) = plan_parameter(plan, "source_srid") {
        if !same(source, "unknown") && !is_srid(srid, source) {
            return Err(
                refuse(
                    "target_capability.spatial_source_srid_mismatch",
                    "spatial SRID differs from the qualified source representation",
                ),
            );
        }
    }
    Ok(())
}

fn is_crs(crs: &Option<String>, expected: &str) -> (result: bool)
    ensures
        result == crs_is(*crs, expected@),
{
    match crs {
        Some(text) => !same(expected, "unknown") && same(text.as_str(), expected),
        None => false,
    }
}

fn check_spatial_crs(
    plan: &ColumnConversionPlan,
    format: SpatialFormat,
    crs: &Option<String>,
) -> (result: Result<(), Refusal>)
    ensures
        refusal_of(result) == spatial_crs_refusal(*plan, format, *crs),
{
    let expected = match plan_parameter(plan, "target_crs") {
        Some(expected) => expected,
        None => {
            return Err(
                refuse(
                    "target_capability.spatial_crs_missing",
                    "the spatial plan must declare CRS identity",
                ),
            );
        },
    };
    if !is_crs(crs, expected) {
        return Err(
            refuse(
                "target_capability.spatial_crs_mismatch",
                "spatial CRS is missing or differs from the qualified target representation",
            ),
        );
    }
    if let Some(source) = plan_parameter(plan, "source_crs") {
        if !is_crs(crs, source) {
            return Err(
                refuse(
                    "target_capability.spatial_source_crs_mismatch",
                    "spatial CRS is missing or differs from the qualified source representation",
                ),
            );
        }
    }
    if let Some(source) = plan_parameter(plan, "source_spatial_format") {
        let matching = match format {
            SpatialFormat::Wkb => same(source, "wkb"),
            SpatialFormat::Ewkb => same(source, "ewkb"),
        };
        proof {
            reveal_strlit("wkb");
            reveal_strlit("ewkb");
            assert("wkb"@.len() != "ewkb"@.len());
        }
        if !matching {
            return Err(
                refuse(
                    "target_capability.spatial_format_mismatch",
                    "the saved spatial source and target formats are not equivalent",
                ),
            );
        }
    }
    Ok(())
}

fn validate_spatial_wire(
    bytes: &Vec<u8>,
    format: SpatialFormat,
    geometry_type: &str,
    dimensions: u8,
    srid: Option<i32>,
) -> (result: Result<(), Refusal>)
    ensures
        refusal_of(result) == spatial_wire_refusal(
            bytes@,
            format,
            geometry_type@,
            dimensions as int,
            srid_view(srid),
        ),
{
    if bytes.len() < 5 {
        return Err(
            refuse(
                "target_capability.spatial_format_invalid",
                "the spatial value has no complete WKB header",
            ),
        );
    }
    if bytes[0] > 1 {
        return Err(
            refuse(
                "target_capability.spatial_format_invalid",
                "the spatial byte-order marker is invalid",
            ),
        );
    }
    let little_endian = bytes[0] == 1;
    let code: u32 = read_u32(bytes, 1, little_endian);
    let embedded = has_srid(code);
    let named = match geometry_of(code) {
        Some(name) => eq_ignore_case(name, geometry_type),
        None => false,
    };
    if !named || dimensions_of(code) != dimensions {
        return Err(
            refuse(
                "target_capability.spatial_header_mismatch",
                "the spatial wire header does not match geometry type or dimensions",
            ),
        );
    }
    if embedded && bytes.len() < 9 {
        return Err(
            refuse(
                "target_capability.spatial_format_invalid",
                "the EWKB SRID header is truncated",
            ),
        );
    }
    let expects_srid = matches!(format, SpatialFormat::Ewkb);
    if expects_srid != embedded {
        return Err(
            refuse(
                "target_capability.spatial_format_mismatch",
                "the spatial value uses a different WKB/EWKB SRID format",
            ),
        );
    }
    let agrees = match srid {
        Some(srid) => embedded && to_signed_32(read_u32(bytes, 5, little_endian)) == srid,
        None => !embedded,
    };
    if !agrees {
        return Err(
            refuse(
                "target_capability.spatial_srid_mismatch",
                "the embedded spatial SRID differs from the qualified target SRID",
            ),
        );
    }
    Ok(())
}

pub(crate) fn validate_spatial_plan_value(
    plan: &ColumnConversionPlan,
    value: &LogicalValue,
) -> (result: Result<(), Refusal>)
    ensures
        refusal_of(result) == spatial_refusal(*plan, *value),
{
    match value {
        LogicalValue::Spatial {
            format,
            bytes_base64url,
            geometry_type,
            dimensions,
            srid,
            crs,
        } => {
            match check_spatial_shape(plan, *format, geometry_type.as_str()) {
                Ok(_) => {},
                Err(refusal) => {
                    return Err(refusal);
                },
            }
            match check_spatial_dimensions(plan, *dimensions) {
                Ok(_) => {},
                Err(refusal) => {
                    return Err(refusal);
                },
            }
            match check_spatial_srid(plan, *srid) {
                Ok(_) => {},
                Err(refusal) => {
                    return Err(refusal);
                },
            }
            match check_spatial_crs(plan, *format, crs) {
                Ok(_) => {},
                Err(refusal) => {
                    return Err(refusal);
                },
            }
            let bytes = match base64url_decode(bytes_base64url.as_str()) {
                Some(bytes) => bytes,
                None => {
                    return Err(
                        refuse(
                            "target_capability.spatial_format_invalid",
                            "the spatial value is not valid base64url wire bytes",
                        ),
                    );
                },
            };
            let wire_srid: Option<i32> = match format {
                SpatialFormat::Ewkb => *srid,
                SpatialFormat::Wkb => None,
            };
            match plan_parameter(plan, "target_geometry_type") {
                Some(geometry) => validate_spatial_wire(
                    &bytes,
                    *format,
                    geometry,
                    *dimensions,
                    wire_srid,
                ),
                None => Ok(()),
            }
        },
        _ => Err(
            refuse(
                "target_capability.spatial_type_mismatch",
                "the spatial conversion plan received another LogicalValue family",
            ),
        ),
    }
}

} // verus!
