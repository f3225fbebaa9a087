//! Text and its character sets against a plan.
use crate::change_event::compatibility::plan::ColumnConversionPlan;
use crate::change_event::compatibility::values::refusal::{
    holds, refusal_of, refuse, Refusal, RefusalText,
};
use crate::change_event::model::LogicalValue;
use crate::encoding::{
    base64url_decode, base64url_decoded, utf8_bytes, utf8_decoded, utf8_text,
};
use crate::number::{parse_unsigned, parse_usize};
use crate::text::{
    chars_of, concat3, eq_ignore_case, lower, same, same_ignoring_case, to_lower,
};
use vstd::prelude::*;
use vstd::utf8::encode_utf8;

verus! {

/// A character set that holds all of UTF-8, by one of its names.
pub open spec fn unicode_charset(charset: Seq<char>) -> bool {
    charset == "utf8"@ || charset == "utf8mb4"@ || charset == "utf-8"@
}

pub open spec fn latin_charset(charset: Seq<char>) -> bool {
    charset == "latin1"@ || charset == "iso-8859-1"@
}

/// The characters with the numbers of the bytes.
pub open spec fn latin_text(bytes: Seq<u8>) -> Seq<char> {
    Seq::new(bytes.len(), |i: int| bytes[i] as char)
}

/// What bytes in a character set say; the code of the failure otherwise.
pub open spec fn decoded_text(
    charset: Seq<char>,
    bytes: Seq<u8>,
    declared: Option<Seq<char>>,
) -> Result<Seq<char>, Seq<char>> {
    let name = lower(charset);
    if unicode_charset(name) {
        match utf8_decoded(bytes) {
            None => Err("target_capability.text_encoding_invalid"@),
            Some(text) => if declared is Some && declared != Some(text) {
                Err("target_capability.text_encoding_invalid"@)
            } else {
                Ok(text)
            },
        }
    } else if name == "ascii"@ {
        if exists|i: int| 0 <= i < bytes.len() && #[trigger] bytes[i] > 0x7f {
            Err("target_capability.text_encoding_invalid"@)
        } else {
            Ok(latin_text(bytes))
        }
    } else if latin_charset(name) {
        Ok(latin_text(bytes))
    } else {
        Err("target_capability.text_charset_unsupported"@)
    }
}

/// Every character has a number of at most `limit`.
pub open spec fn all_up_to(text: Seq<char>, limit: int) -> bool {
    forall|i: int| 0 <= i < text.len() ==> #[trigger] text[i] as int <= limit
}

/// The bytes of a text in a character set; the code of the failure otherwise.
pub open spec fn encoded_text(charset: Seq<char>, text: Seq<char>) -> Result<Seq<u8>, Seq<char>> {
    let name = lower(charset);
    if name == "utf8"@ || name == "utf-8"@ {
        if all_up_to(text, 0xffff) {
            Ok(encode_utf8(text))
        } else {
            Err("target_capability.text_character_unrepresentable"@)
        }
    } else if name == "utf8mb4"@ {
        Ok(encode_utf8(text))
    } else if name == "ascii"@ {
        if all_up_to(text, 0x7f) {
            Ok(encode_utf8(text))
        } else {
            Err("target_capability.text_character_unrepresentable"@)
        }
    } else if latin_charset(name) {
        if all_up_to(text, 0xff) {
            Ok(Seq::new(text.len(), |i: int| text[i] as u8))
        } else {
            Err("target_capability.text_character_unrepresentable"@)
        }
    } else {
        Err("target_capability.text_charset_unsupported"@)
    }
}

pub open spec fn optional_view(text: Option<String>) -> Option<Seq<char>> {
    match text {
        Some(text) => Some(text@),
        None => None,
    }
}

pub open spec fn decoding(result: Result<String, &'static str>) -> Result<Seq<char>, Seq<char>> {
    match result {
        Ok(text) => Ok(text@),
        Err(code) => Err(code@),
    }
}

pub open spec fn encoding(result: Result<Vec<u8>, &'static str>) -> Result<Seq<u8>, Seq<char>> {
    match result {
        Ok(bytes) => Ok(bytes@),
        Err(code) => Err(code@),
    }
}

fn latin(bytes: &Vec<u8>) -> (result: String)
    ensures
        result@ == latin_text(bytes@),
{
    let mut text = String::new();
    let mut i: usize = 0;
    assert(text@ =~= latin_text(bytes@).take(0));
    while i < bytes.len()
        invariant
            i <= bytes@.len(),
            text@ == latin_text(bytes@).take(i as int),
        decreases bytes@.len() - i,
    {
        text.push(bytes[i] as char);
        assert(latin_text(bytes@).take(i + 1) =~= latin_text(bytes@).take(i as int).push(
            bytes@[i as int] as char,
        ));
        i += 1;
    }
    assert(latin_text(bytes@).take(i as int) =~= latin_text(bytes@));
    text
}

fn is_ascii(bytes: &Vec<u8>) -> (result: bool)
    ensures
        result == !(exists|i: int| 0 <= i < bytes@.len() && #[trigger] bytes@[i] > 0x7f),
{
    let mut i: usize = 0;
    while i < bytes.len()
        invariant
            i <= bytes@.len(),
            forall|k: int| 0 <= k < i ==> #[trigger] bytes@[k] <= 0x7f,
        decreases bytes@.len() - i,
    {
        if bytes[i] > 0x7f {
            return false;
        }
        i += 1;
    }
    true
}

fn number_of(c: char) -> (result: u32)
    ensures
        result as int == c as int,
{
    c as u32
}

fn are_up_to(chars: &Vec<char>, limit: u32) -> (result: bool)
    ensures
        result == all_up_to(chars@, limit as int),
{
    let mut i: usize = 0;
    while i < chars.len()
        invariant
            i <= chars@.len(),
            forall|k: int| 0 <= k < i ==> #[trigger] chars@[k] as int <= limit,
        decreases chars@.len() - i,
    {
        if number_of(chars[i]) > limit {
            return false;
        }
        i += 1;
    }
    true
}

fn copy_bytes(bytes: &Vec<u8>) -> (result: Vec<u8>)
    ensures
        result@ == bytes@,
{
    let mut result: Vec<u8> = Vec::new();
    let mut i: usize = 0;
    while i < bytes.len()
        invariant
            i <= bytes@.len(),
            result@ == bytes@.take(i as int),
        decreases bytes@.len() - i,
    {
        result.push(bytes[i]);
        assert(bytes@.take(i + 1) =~= bytes@.take(i as int).push(bytes@[i as int]));
        i += 1;
    }
    assert(bytes@.take(i as int) =~= bytes@);
    result
}

pub(crate) fn decode_supported_text(
    charset: &str,
    bytes: &Vec<u8>,
    declared: &Option<String>,
) -> (result: Result<String, &'static str>)
    ensures
        decoding(result) == decoded_text(charset@, bytes@, optional_view(*declared)),
{
    let name = to_lower(charset);
    let name = name.as_str();
    if same(name, "utf8") || same(name, "utf8mb4") || same(name, "utf-8") {
        match utf8_text(copy_bytes(bytes)) {
            None => Err("target_capability.text_encoding_invalid"),
            Some(text) => match declared {
                Some(spelled) => if same(spelled.as_str(), text.as_str()) {
                    Ok(text)
                } else {
                    Err("target_capability.text_encoding_invalid")
                },
                None => Ok(text),
            },
        }
    } else if same(name, "ascii") {
        if is_ascii(bytes) {
            Ok(latin(bytes))
        } else {
            Err("target_capability.text_encoding_invalid")
        }
    } else if same(name, "latin1") || same(name, "iso-8859-1") {
        Ok(latin(bytes))
    } else {
        Err("target_capability.text_charset_unsupported")
    }
}

fn latin_bytes(chars: &Vec<char>) -> (result: Vec<u8>)
    requires
        all_up_to(chars@, 0xff),
    ensures
        result@ == Seq::new(chars@.len(), |i: int| chars@[i] as u8),
{
    let mut result: Vec<u8> = Vec::new();
    let mut i: usize = 0;
    while i < chars.len()
        invariant
            i <= chars@.len(),
            result@.len() == i,
            forall|k: int| 0 <= k < i ==> #[trigger] result@[k] == chars@[k] as u8,
        decreases chars@.len() - i,
    {
        result.push(chars[i] as u8);
        i += 1;
    }
    assert(result@ =~= Seq::new(chars@.len(), |i: int| chars@[i] as u8));
    result
}

pub(crate) fn encode_supported_text(charset: &str, text: &str) -> (result: Result<
    Vec<u8>,
    &'static str,
>)
    ensures
        encoding(result) == encoded_text(charset@, text@),
{
    let name = to_lower(charset);
    let name = name.as_str();
    let chars = chars_of(text);
    if same(name, "utf8") || same(name, "utf-8") {
        if are_up_to(&chars, 0xffff) {
            Ok(utf8_bytes(text))
        } else {
            Err("target_capability.text_character_unrepresentable")
        }
    } else if same(name, "utf8mb4") {
        Ok(utf8_bytes(text))
    } else if same(name, "ascii") {
        if are_up_to(&chars, 0x7f) {
            Ok(utf8_bytes(text))
        } else {
            Err("target_capability.text_character_unrepresentable")
        }
    } else if same(name, "latin1") || same(name, "iso-8859-1") {
        if are_up_to(&chars, 0xff) {
            Ok(latin_bytes(&chars))
        } else {
            Err("target_capability.text_character_unrepresentable")
        }
    } else {
        Err("target_capability.text_charset_unsupported")
    }
}

/// A text parameter of the target that a plan cannot do without.
pub open spec fn text_parameter(plan: ColumnConversionPlan, name: Seq<char>) -> Result<
    Seq<char>,
    RefusalText,
> {
    match plan.target.parameters.value_of(name) {
        Some(value) if value.len() > 0 => Ok(value),
        _ => Err(
            (
                "target_capability.text_parameter_missing"@,
                "text parameter "@ + name + " is missing"@,
            ),
        ),
    }
}

pub(crate) fn required_text_parameter<'a>(
    plan: &'a ColumnConversionPlan,
    name: &str,
) -> (result: Result<&'a str, Refusal>)
    ensures
        match result {
            Ok(value) => text_parameter(*plan, name@) == Ok::<Seq<char>, RefusalText>(value@),
            Err(refusal) => text_parameter(*plan, name@) == Err::<Seq<char>, RefusalText>(
                (refusal.code@, refusal.message@),
            ),
        },
{
    match plan.target.parameters.get(name) {
        Some(value) => if !value.is_empty() {
            Ok(value)
        } else {
            let message = concat3("text parameter ", name, " is missing");
            Err(refuse("target_capability.text_parameter_missing", message.as_str()))
        },
        None => {
            let message = concat3("text parameter ", name, " is missing");
            Err(refuse("target_capability.text_parameter_missing", message.as_str()))
        },
    }
}

/// Why the target's length refuses a text and its bytes.
pub open spec fn text_length_refusal(
    plan: ColumnConversionPlan,
    characters: int,
    bytes: int,
) -> Option<RefusalText> {
    let unit = plan.target.parameters.value_of("target_length_unit"@);
    let actual = if unit == Some("bytes"@) {
        bytes
    } else {
        characters
    };
    match plan.target.parameters.value_of("target_length"@) {
        None => Some(
            ("target_capability.text_length_missing"@, "the target text length is missing"@),
        ),
        Some(text) => {
            let length = parse_unsigned(text, usize::MAX as nat);
            let bounded = !same_ignoring_case(text, "unbounded"@);
            if bounded && length is None {
                Some(
                    (
                        "target_capability.text_length_invalid"@,
                        "the target text length is invalid"@,
                    ),
                )
            } else if unit is None {
                Some(
                    (
                        "target_capability.text_length_unit_missing"@,
                        "the target text length unit is missing"@,
                    ),
                )
            } else if unit != Some("bytes"@) && unit != Some("characters"@) {
                Some(
                    (
                        "target_capability.text_length_unit_invalid"@,
                        "the target text length unit is invalid"@,
                    ),
                )
            } else if bounded && actual > length->0 {
                Some(
                    (
                        "target_capability.text_length_overflow"@,
                        "the text exceeds the configured target length; truncation is disabled"@,
                    ),
                )
            } else {
                None
            }
        },
    }
}

/// Why the chosen policies of a plan are not enough for text.
pub open spec fn text_policy_refusal(plan: ColumnConversionPlan) -> Option<RefusalText> {
    if plan.parameters.value_of("encoding_policy"@) != Some("strict"@) || plan.parameters.value_of(
        "length_policy"@,
    ) != Some("reject"@) || plan.parameters.value_of("collation_policy"@) != Some("target"@) {
        Some(
            (
                "target_capability.text_policy_missing"@,
                "text conversion must use strict encoding, rejection on overflow, and the saved target collation"@,
            ),
        )
    } else {
        None
    }
}

/// Why a plan refuses a value as text.
pub open spec fn text_refusal(plan: ColumnConversionPlan, value: LogicalValue) -> Option<
    RefusalText,
> {
    match value {
        LogicalValue::Text { charset, bytes_base64url, text } => match base64url_decoded(
            bytes_base64url@,
        ) {
            None => Some(
                (
                    "target_capability.text_encoding_invalid"@,
                    "the captured text bytes are not valid base64url"@,
                ),
            ),
            Some(bytes) => match decoded_text(charset@, bytes, optional_view(text)) {
                Err(code) => Some(
                    (code, "the captured text cannot be decoded with its source charset"@),
                ),
                Ok(decoded) => match text_parameter(plan, "target_charset"@) {
                    Err(refusal) => Some(refusal),
                    Ok(target_charset) => match encoded_text(target_charset, decoded) {
                        Err(code) => Some(
                            (
                                code,
                                "the text contains characters that the target charset cannot represent"@,
                            ),
                        ),
                        Ok(encoded) => match text_length_refusal(
                            plan,
                            decoded.len() as int,
                            encoded.len() as int,
                        ) {
                            Some(refusal) => Some(refusal),
                            None => text_policy_refusal(plan),
                        },
                    },
                },
            },
        },
        _ => Some(
            (
                "target_capability.text_type_mismatch"@,
                "the captured value is not text"@,
            ),
        ),
    }
}

fn check_text_length(
    plan: &ColumnConversionPlan,
    characters: usize,
    bytes: usize,
) -> (result: Result<(), Refusal>)
    ensures
        refusal_of(result) == text_length_refusal(*plan, characters as int, bytes as int),
{
    let text = match plan.target.parameters.get("target_length") {
        Some(text) => text,
        None => {
            return Err(
                refuse(
                    "target_capability.text_length_missing",
                    "the target text length is missing",
                ),
            );
        },
    };
    let length: Option<usize> = if eq_ignore_case(text, "unbounded") {
        None
    } else {
        match parse_usize(text) {
            Some(length) => Some(length),
            None => {
                return Err(
                    refuse(
                        "target_capability.text_length_invalid",
                        "the target text length is invalid",
                    ),
                );
            },
        }
    };
    let unit = match plan.target.parameters.get("target_length_unit") {
        Some(unit) => unit,
        None => {
            return Err(
                refuse(
                    "target_capability.text_length_unit_missing",
                    "the target text length unit is missing",
                ),
            );
        },
    };
    let actual: usize = if same(unit, "bytes") {
        bytes
    } else if same(unit, "characters") {
        characters
    } else {
        return Err(
            refuse(
                "target_capability.text_length_unit_invalid",
                "the target text length unit is invalid",
            ),
        );
    };
    if let Some(limit) = length {
        if actual > limit {
            return Err(
                refuse(
                    "target_capability.text_length_overflow",
                    "the text exceeds the configured target length; truncation is disabled",
                ),
            );
        }
    }
    Ok(())
}

pub(crate) fn validate_text_plan_value(
    plan: &ColumnConversionPlan,
    value: &LogicalValue,
) -> (result: Result<(), Refusal>)
    ensures
        refusal_of(result) == text_refusal(*plan, *value),
{
    match value {
        LogicalValue::Text { charset, bytes_base64url, text } => {
            let bytes = match base64url_decode(bytes_base64url.as_str()) {
                Some(bytes) => bytes,
                None => {
                    return Err(
                        refuse(
                            "target_capability.text_encoding_invalid",
                            "the captured text bytes are not valid base64url",
                        ),
                    );
                },
            };
            let decoded = match decode_supported_text(charset.as_str(), &bytes, text) {
                Ok(decoded) => decoded,
                Err(code) => {
                    return Err(
                        refuse(code, "the captured text cannot be decoded with its source charset"),
                    );
                },
            };
            let target_charset = match required_text_parameter(plan, "target_charset") {
                Ok(charset) => charset,
                Err(refusal) => {
                    return Err(refusal);
                },
            };
            let encoded = match encode_supported_text(target_charset, decoded.as_str()) {
                Ok(encoded) => encoded,
                Err(code) => {
                    return Err(
                        refuse(
                            code,
                            "the text contains characters that the target charset cannot represent",
                        ),
                    );
                },
            };
            let characters = chars_of(decoded.as_str());
            match check_text_length(plan, characters.len(), encoded.len()) {
                Ok(_) => {},
                Err(refusal) => {
                    return Err(refusal);
                },
            }
            if !holds(&plan.parameters, "encoding_policy", "strict") || !holds(
                &plan.parameters,
                "length_policy",
                "reject",
            ) || !holds(&plan.parameters, "collation_policy", "target") {
                return Err(
                    refuse(
                        "target_capability.text_policy_missing",
                        "text conversion must use strict encoding, rejection on overflow, and the saved target collation",
                    ),
                );
            }
            Ok(())
        },
        _ => Err(
            refuse("target_capability.text_type_mismatch", "the captured value is not text"),
        ),
    }
}

} // verus!
