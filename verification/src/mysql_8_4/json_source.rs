//! The JSON source of a JSON column value, as a statement parameter holds it.
//! The order of members and the spelling of numbers are kept.
use crate::change_event::compatibility::values::json_text::{
    all_texts, double_text, fault, find_double, first_failure, fraction_part, is_negative,
    lemma_first_failure_take, lemma_or_zero, lemma_parts_keep_the_number, or_zero, sign_of, spelled,
    spells, zeros_text, DoubleText,
};
use crate::change_event::compatibility::values::numeric::{
    double_finite, integer_part, is_double_finite, sign_length, without_sign,
};
use crate::change_event::model::{JsonEntry, JsonValue};
use crate::json::{json_text, write_json, Doc, Json};
use crate::number::{digits_value, hex_value, lemma_hex_bound, parse_hex_u64, sixteen_to};
use crate::text::{
    all_digits, all_hex_digits, are_digits, are_hex_digits, ascii_hex_digit, chars_of, concat,
    concat3, concat4, contains_char, debug_spelling, debug_text, join, join_texts, text_between,
    texts,
};
use vstd::arithmetic::power::pow;
use vstd::prelude::*;

verus! {

// ---------------------------------------------------------------------------
// Numbers
// ---------------------------------------------------------------------------

/// An integer is written as it is spelled.
pub open spec fn integer_source(text: Seq<char>, signed: bool) -> Result<Seq<char>, Seq<char>> {
    let digits = if signed {
        without_sign(text)
    } else {
        text
    };
    if digits.len() == 0 || !all_digits(digits) {
        Err("invalid integer literal "@ + debug_text(text))
    } else {
        Ok(text)
    }
}

pub(crate) fn validate_integer(text: &str, signed: bool) -> (result: Result<String, String>)
    ensures
        spelled(result) == integer_source(text@, signed),
{
    let chars = chars_of(text);
    let from: usize = if signed {
        sign_length(&chars)
    } else {
        0
    };
    assert(chars@.skip(0) =~= chars@);
    if from == chars.len() || !are_digits(&chars, from) {
        let spelling = debug_spelling(text);
        let message = concat("invalid integer literal ", spelling.as_str());
        return fault(message.as_str());
    }
    Ok(text.to_owned())
}

/// A decimal with its declared scale. No digit is dropped.
pub open spec fn decimal_source(unscaled: Seq<char>, scale: usize) -> Result<Seq<char>, Seq<char>> {
    let digits = without_sign(unscaled);
    if digits.len() == 0 || !all_digits(digits) {
        Err("invalid decimal unscaled value "@ + debug_text(unscaled))
    } else if scale == 0 {
        Ok(sign_of(unscaled) + digits)
    } else {
        Ok(
            sign_of(unscaled) + or_zero(integer_part(digits, scale as int)) + "."@ + fraction_part(
                digits,
                scale as int,
            ),
        )
    }
}

pub(crate) fn render_decimal(unscaled: &str, scale: usize) -> (result: Result<String, String>)
    ensures
        spelled(result) == decimal_source(unscaled@, scale),
{
    let chars = chars_of(unscaled);
    let from: usize = sign_length(&chars);
    let length: usize = chars.len();
    if from == length || !are_digits(&chars, from) {
        let spelling = debug_spelling(unscaled);
        let message = concat("invalid decimal unscaled value ", spelling.as_str());
        return fault(message.as_str());
    }
    let sign = if is_negative(&chars) {
        "-"
    } else {
        ""
    };
    let ghost digits = without_sign(unscaled@);
    assert(chars@.subrange(from as int, length as int) =~= digits);
    if scale == 0 {
        let whole = text_between(&chars, from, length);
        return Ok(concat(sign, whole.as_str()));
    }
    let count: usize = length - from;
    if count > scale {
        let split: usize = length - scale;
        let whole = text_between(&chars, from, split);
        let tail = text_between(&chars, split, length);
        assert(whole@ =~= integer_part(digits, scale as int));
        assert(tail@ =~= fraction_part(digits, scale as int));
        Ok(concat4(sign, whole.as_str(), ".", tail.as_str()))
    } else {
        let tail = text_between(&chars, from, length);
        let padding = zeros_text(scale - count);
        let fraction = concat(padding.as_str(), tail.as_str());
        assert(fraction@ =~= fraction_part(digits, scale as int));
        assert(integer_part(digits, scale as int) =~= Seq::<char>::empty());
        Ok(concat4(sign, "0", ".", fraction.as_str()))
    }
}

/// Hexadecimal digits that give a bit pattern.
pub open spec fn bit_pattern(text: Seq<char>, width: nat) -> Option<nat> {
    if text.len() == width && all_hex_digits(text) {
        Some(hex_value(text))
    } else {
        None
    }
}

pub open spec fn bad_pattern(text: Seq<char>) -> Seq<char> {
    "invalid IEEE-754 bit pattern "@ + debug_text(text)
}

pub(crate) fn describe_bad_pattern(text: &str) -> (result: String)
    ensures
        result@ == bad_pattern(text@),
{
    let spelling = debug_spelling(text);
    concat("invalid IEEE-754 bit pattern ", spelling.as_str())
}

pub(crate) fn parse_hex_bits(text: &str, width: usize) -> (result: Option<u64>)
    requires
        1 <= width <= 16,
    ensures
        match result {
            Some(bits) => bit_pattern(text@, width as nat) == Some(bits as nat),
            None => bit_pattern(text@, width as nat) is None,
        },
        width == 8 ==> (result matches Some(bits) ==> bits <= u32::MAX),
{
    let chars = chars_of(text);
    if chars.len() != width || !are_hex_digits(&chars) {
        return None;
    }
    proof {
        lemma_hex_bound(text@);
        lemma_sixteen_to_grows(width as nat);
        assert(ascii_hex_digit(text@[0]));
        assert(text@[0] != '+');
    }
    parse_hex_u64(text)
}

proof fn lemma_sixteen_to_grows(width: nat)
    requires
        width <= 16,
    ensures
        sixteen_to(width) <= 0x1_0000_0000_0000_0000,
        width == 8 ==> sixteen_to(width) <= 0x1_0000_0000,
{
    lemma_sixteen_to_monotonic(width, 16);
    reveal_with_fuel(sixteen_to, 17);
}

proof fn lemma_sixteen_to_monotonic(low: nat, high: nat)
    requires
        low <= high,
    ensures
        sixteen_to(low) <= sixteen_to(high),
    decreases high - low,
{
    if low < high {
        lemma_sixteen_to_monotonic(low, (high - 1) as nat);
    }
}

/// The number has a point or an exponent.
pub open spec fn fractional_spelling(text: Seq<char>) -> bool {
    text.contains('.') || text.contains('e') || text.contains('E')
}

/// A double, given by its bits in hexadecimal. A number that is spelled like an
/// integer is given a fraction.
pub open spec fn double_source(text: Seq<char>, doubles: Seq<DoubleText>) -> Result<
    Seq<char>,
    Seq<char>,
> {
    match bit_pattern(text, 16) {
        None => Err(bad_pattern(text)),
        Some(bits) => if !double_finite(bits as int) {
            Err("MySQL SQL output does not support non-finite DOUBLE values"@)
        } else if bits == 0x8000_0000_0000_0000 {
            Ok("-0.0"@)
        } else {
            match double_text(doubles, bits as u64) {
                None => Err("the text of a JSON double is missing"@),
                Some(spelling) => if fractional_spelling(spelling) {
                    Ok(spelling)
                } else {
                    Ok(spelling + ".0"@)
                },
            }
        },
    }
}

fn render_json_double(text: &str, doubles: &Vec<DoubleText>) -> (result: Result<String, String>)
    ensures
        spelled(result) == double_source(text@, doubles@),
{
    let bits: u64 = match parse_hex_bits(text, 16) {
        Some(bits) => bits,
        None => return Err(describe_bad_pattern(text)),
    };
    if !is_double_finite(bits) {
        return fault("MySQL SQL output does not support non-finite DOUBLE values");
    }
    if bits == 0x8000_0000_0000_0000 {
        return Ok("-0.0".to_owned());
    }
    match find_double(doubles, bits) {
        None => fault("the text of a JSON double is missing"),
        Some(spelling) => {
            if contains_char(spelling, '.') || contains_char(spelling, 'e') || contains_char(
                spelling,
                'E',
            ) {
                Ok(spelling.to_owned())
            } else {
                Ok(concat(spelling, ".0"))
            }
        },
    }
}

// ---------------------------------------------------------------------------
// Documents
// ---------------------------------------------------------------------------

/// A list of parts between brackets.
pub open spec fn enclosed(
    parts: Seq<Result<Seq<char>, Seq<char>>>,
    open: Seq<char>,
    close: Seq<char>,
) -> Result<Seq<char>, Seq<char>> {
    match first_failure(parts) {
        Some(message) => Err(message),
        None => Ok(open + join(all_texts(parts), ","@) + close),
    }
}

/// The source of a JSON column value, or why it has none.
pub open spec fn json_source(value: JsonValue, doubles: Seq<DoubleText>) -> Result<
    Seq<char>,
    Seq<char>,
>
    decreases value,
{
    match value {
        JsonValue::Null => Ok("null"@),
        JsonValue::Boolean(true) => Ok("true"@),
        JsonValue::Boolean(false) => Ok("false"@),
        JsonValue::String(text) => Ok(json_text(Doc::Str(text@))),
        JsonValue::SignedInteger(text) => integer_source(text@, true),
        JsonValue::UnsignedInteger(text) => integer_source(text@, false),
        JsonValue::DoubleBits(text) => double_source(text@, doubles),
        JsonValue::Decimal { unscaled, scale } => decimal_source(unscaled@, scale),
        JsonValue::Array(items) => enclosed(item_sources(items@, doubles), "["@, "]"@),
        JsonValue::Object(entries) => enclosed(entry_sources(entries@, doubles), "{"@, "}"@),
    }
}

/// The sources of the items of an array.
pub open spec fn item_sources(items: Seq<JsonValue>, doubles: Seq<DoubleText>) -> Seq<
    Result<Seq<char>, Seq<char>>,
>
    decreases items,
{
    if items.len() == 0 {
        Seq::empty()
    } else {
        item_sources(items.drop_last(), doubles).push(json_source(items.last(), doubles))
    }
}

/// The member of an object with this key.
pub open spec fn with_key(key: Seq<char>, value: Result<Seq<char>, Seq<char>>) -> Result<
    Seq<char>,
    Seq<char>,
> {
    match value {
        Ok(text) => Ok(json_text(Doc::Str(key)) + ":"@ + text),
        Err(message) => Err(message),
    }
}

/// The sources of the members of an object.
pub open spec fn entry_sources(entries: Seq<JsonEntry>, doubles: Seq<DoubleText>) -> Seq<
    Result<Seq<char>, Seq<char>>,
>
    decreases entries,
{
    if entries.len() == 0 {
        Seq::empty()
    } else {
        entry_sources(entries.drop_last(), doubles).push(
            with_key(entries.last().key@, json_source(entries.last().value, doubles)),
        )
    }
}

proof fn lemma_item_sources(items: Seq<JsonValue>, doubles: Seq<DoubleText>, n: int)
    requires
        0 <= n <= items.len(),
    ensures
        item_sources(items, doubles).len() == items.len(),
        item_sources(items, doubles).take(n) == item_sources(items.take(n), doubles),
    decreases items.len(),
{
    if items.len() == 0 {
        assert(items.take(n) =~= items);
        assert(item_sources(items, doubles).take(n) =~= item_sources(items, doubles));
    } else if n == items.len() {
        lemma_item_sources(items.drop_last(), doubles, 0);
        assert(items.take(n) =~= items);
        assert(item_sources(items, doubles).take(n) =~= item_sources(items, doubles));
    } else {
        lemma_item_sources(items.drop_last(), doubles, n);
        assert(items.take(n) =~= items.drop_last().take(n));
        assert(item_sources(items, doubles).take(n) =~= item_sources(
            items.drop_last(),
            doubles,
        ).take(n));
    }
}

proof fn lemma_entry_sources(entries: Seq<JsonEntry>, doubles: Seq<DoubleText>, n: int)
    requires
        0 <= n <= entries.len(),
    ensures
        entry_sources(entries, doubles).len() == entries.len(),
        entry_sources(entries, doubles).take(n) == entry_sources(entries.take(n), doubles),
    decreases entries.len(),
{
    if entries.len() == 0 {
        assert(entries.take(n) =~= entries);
        assert(entry_sources(entries, doubles).take(n) =~= entry_sources(entries, doubles));
    } else if n == entries.len() {
        lemma_entry_sources(entries.drop_last(), doubles, 0);
        assert(entries.take(n) =~= entries);
        assert(entry_sources(entries, doubles).take(n) =~= entry_sources(entries, doubles));
    } else {
        lemma_entry_sources(entries.drop_last(), doubles, n);
        assert(entries.take(n) =~= entries.drop_last().take(n));
        assert(entry_sources(entries, doubles).take(n) =~= entry_sources(
            entries.drop_last(),
            doubles,
        ).take(n));
    }
}

fn render_items(items: &Vec<JsonValue>, doubles: &Vec<DoubleText>) -> (result: Result<
    String,
    String,
>)
    ensures
        spelled(result) == enclosed(item_sources(items@, doubles@), "["@, "]"@),
    decreases items@,
{
    let ghost all = item_sources(items@, doubles@);
    let mut pieces: Vec<String> = Vec::new();
    let mut i: usize = 0;
    assert(items@.take(0) =~= Seq::empty());
    assert(texts(pieces@) =~= all_texts(item_sources(items@.take(0), doubles@)));
    while i < items.len()
        invariant
            i <= items@.len(),
            all == item_sources(items@, doubles@),
            first_failure(item_sources(items@.take(i as int), doubles@)) is None,
            texts(pieces@) == all_texts(item_sources(items@.take(i as int), doubles@)),
        decreases items@.len() - i,
    {
        let ghost next = item_sources(items@.take(i + 1), doubles@);
        proof {
            assert(items@.take(i + 1).drop_last() =~= items@.take(i as int));
            assert(items@.take(i + 1).last() == items@[i as int]);
            assert(next.drop_last() =~= item_sources(items@.take(i as int), doubles@));
            lemma_item_sources(items@, doubles@, i + 1);
            lemma_item_sources(items@.take(i as int), doubles@, 0);
        }
        match render_json(&items[i], doubles) {
            Ok(text) => {
                let ghost before = texts(pieces@);
                pieces.push(text);
                assert(texts(pieces@) =~= before.push(text@));
                assert(texts(pieces@) =~= all_texts(next));
            },
            Err(message) => {
                proof {
                    lemma_first_failure_take(all, i + 1);
                }
                return Err(message);
            },
        }
        i += 1;
    }
    assert(items@.take(i as int) =~= items@);
    let joined = join_texts(&pieces, ",");
    Ok(concat3("[", joined.as_str(), "]"))
}

fn render_entries(entries: &Vec<JsonEntry>, doubles: &Vec<DoubleText>) -> (result: Result<
    String,
    String,
>)
    ensures
        spelled(result) == enclosed(entry_sources(entries@, doubles@), "{"@, "}"@),
    decreases entries@,
{
    let ghost all = entry_sources(entries@, doubles@);
    let mut pieces: Vec<String> = Vec::new();
    let mut i: usize = 0;
    assert(entries@.take(0) =~= Seq::empty());
    assert(texts(pieces@) =~= all_texts(entry_sources(entries@.take(0), doubles@)));
    while i < entries.len()
        invariant
            i <= entries@.len(),
            all == entry_sources(entries@, doubles@),
            first_failure(entry_sources(entries@.take(i as int), doubles@)) is None,
            texts(pieces@) == all_texts(entry_sources(entries@.take(i as int), doubles@)),
        decreases entries@.len() - i,
    {
        let ghost next = entry_sources(entries@.take(i + 1), doubles@);
        proof {
            assert(entries@.take(i + 1).drop_last() =~= entries@.take(i as int));
            assert(entries@.take(i + 1).last() == entries@[i as int]);
            assert(next.drop_last() =~= entry_sources(entries@.take(i as int), doubles@));
            lemma_entry_sources(entries@, doubles@, i + 1);
            lemma_entry_sources(entries@.take(i as int), doubles@, 0);
        }
        match render_json(&entries[i].value, doubles) {
            Ok(text) => {
                let key = write_json(&Json::Text(entries[i].key.clone()));
                let piece = concat3(key.as_str(), ":", text.as_str());
                let ghost before = texts(pieces@);
                pieces.push(piece);
                assert(texts(pieces@) =~= before.push(piece@));
                assert(texts(pieces@) =~= all_texts(next));
            },
            Err(message) => {
                proof {
                    lemma_first_failure_take(all, i + 1);
                }
                return Err(message);
            },
        }
        i += 1;
    }
    assert(entries@.take(i as int) =~= entries@);
    let joined = join_texts(&pieces, ",");
    Ok(concat3("{", joined.as_str(), "}"))
}

pub(crate) fn render_json(value: &JsonValue, doubles: &Vec<DoubleText>) -> (result: Result<
    String,
    String,
>)
    ensures
        spelled(result) == json_source(*value, doubles@),
    decreases value,
{
    match value {
        JsonValue::Null => Ok("null".to_owned()),
        JsonValue::Boolean(flag) => if *flag {
            Ok("true".to_owned())
        } else {
            Ok("false".to_owned())
        },
        JsonValue::String(text) => Ok(write_json(&Json::Text(text.clone()))),
        JsonValue::SignedInteger(text) => validate_integer(text.as_str(), true),
        JsonValue::UnsignedInteger(text) => validate_integer(text.as_str(), false),
        JsonValue::DoubleBits(text) => render_json_double(text.as_str(), doubles),
        JsonValue::Decimal { unscaled, scale } => render_decimal(unscaled.as_str(), *scale),
        JsonValue::Array(items) => render_items(items, doubles),
        JsonValue::Object(entries) => render_entries(entries, doubles),
    }
}

/// A decimal is written as its very number, with as many digits behind the point
/// as its scale.
pub proof fn law_a_written_decimal_is_its_number(unscaled: Seq<char>, scale: usize)
    requires
        decimal_source(unscaled, scale) is Ok,
    ensures
        exists|whole: Seq<char>, fraction: Seq<char>|
            spells(
                decimal_source(unscaled, scale)->Ok_0,
                unscaled[0],
                digits_value(without_sign(unscaled)),
                scale as nat,
                whole,
                fraction,
            ),
{
    let digits = without_sign(unscaled);
    let text = decimal_source(unscaled, scale)->Ok_0;
    let number = digits_value(digits);
    reveal_strlit("");
    if scale == 0 {
        reveal(pow);
        assert(text =~= sign_of(unscaled) + digits + ""@);
        assert(digits_value(Seq::<char>::empty()) == 0);
        assert(spells(text, unscaled[0], number, 0, digits, Seq::empty()));
    } else {
        let whole = or_zero(integer_part(digits, scale as int));
        let fraction = fraction_part(digits, scale as int);
        lemma_parts_keep_the_number(digits, scale as nat);
        lemma_or_zero(integer_part(digits, scale as int));
        assert(text =~= sign_of(unscaled) + whole + ("."@ + fraction));
        assert(spells(text, unscaled[0], number, scale as nat, whole, fraction));
    }
}

} // verus!
