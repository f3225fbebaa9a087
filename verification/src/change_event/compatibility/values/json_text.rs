//! The normalized text of a JSON column value.
//!
//! Objects are sorted by key, arrays retain order, and every kind of number is
//! rendered deterministically. This is intentionally not a promise to preserve
//! the spelling of the source.
use crate::change_event::compatibility::plan::ColumnConversionPlan;
use crate::change_event::compatibility::values::numeric::{
    double_finite, integer_part, is_double_finite, lemma_without_zeros, sign_length, skip_zeros,
    without_sign, without_zeros,
};
use crate::change_event::compatibility::values::refusal::{
    plan_parameter, plan_value, refusal_of, refuse, Refusal, RefusalText,
};
use crate::change_event::model::{JsonEntry, JsonValue, LogicalValue};
use crate::json::{json_text, write_json, Doc, Json};
use crate::number::{
    digits_value, hex_value, lemma_digits_parts, lemma_hex_bound, parse_hex_u64, sixteen_to,
};
use crate::order::{keyed_of, second, sort_by_key, sort_keyed, Keyed};
use crate::text::{
    all_digits, all_hex_digits, are_digits, are_hex_digits, ascii_digit, chars_of, concat, concat3,
    concat4, debug_spelling, debug_text, join, join_texts, same, text_between, texts,
};
use vstd::arithmetic::power::pow;
use vstd::prelude::*;

verus! {

/// The text of a double, by its bits.
#[derive(Debug)]
pub struct DoubleText {
    pub bits: u64,
    pub text: String,
}

/// The text that the list has for a double.
pub open spec fn double_text(doubles: Seq<DoubleText>, bits: u64) -> Option<Seq<char>>
    decreases doubles.len(),
{
    if doubles.len() == 0 {
        None
    } else if doubles.last().bits == bits {
        Some(doubles.last().text@)
    } else {
        double_text(doubles.drop_last(), bits)
    }
}

pub(crate) fn find_double<'a>(doubles: &'a Vec<DoubleText>, bits: u64) -> (result: Option<&'a str>)
    ensures
        match result {
            Some(text) => double_text(doubles@, bits) == Some(text@),
            None => double_text(doubles@, bits) is None,
        },
{
    let mut at: usize = doubles.len();
    assert(doubles@.take(at as int) =~= doubles@);
    while at > 0
        invariant
            at <= doubles@.len(),
            double_text(doubles@, bits) == double_text(doubles@.take(at as int), bits),
        decreases at,
    {
        assert(doubles@.take(at as int).last() == doubles@[at - 1]);
        assert(doubles@.take(at as int).drop_last() =~= doubles@.take(at - 1));
        if doubles[at - 1].bits == bits {
            return Some(doubles[at - 1].text.as_str());
        }
        at -= 1;
    }
    None
}

// ---------------------------------------------------------------------------
// Numbers
// ---------------------------------------------------------------------------

/// The sign of a literal.
pub open spec fn sign_of(text: Seq<char>) -> Seq<char> {
    if text.len() > 0 && text[0] == '-' {
        "-"@
    } else {
        ""@
    }
}

/// The digits, or a zero where there is none.
pub open spec fn or_zero(digits: Seq<char>) -> Seq<char> {
    if digits.len() == 0 {
        "0"@
    } else {
        digits
    }
}

pub open spec fn zeros(count: nat) -> Seq<char> {
    Seq::new(count, |i: int| '0')
}

/// The normalized text of an integer.
pub open spec fn integer_text(text: Seq<char>, signed: bool) -> Result<Seq<char>, Seq<char>> {
    let digits = without_sign(text);
    if digits.len() == 0 || !all_digits(digits) {
        Err("invalid JSON integer"@)
    } else if !signed && text.len() > 0 && text[0] == '-' {
        Err("unsigned JSON integer is negative"@)
    } else {
        Ok(sign_of(text) + or_zero(without_zeros(digits)))
    }
}

/// The digits behind the decimal point: as many as the scale says.
pub open spec fn fraction_part(digits: Seq<char>, scale: int) -> Seq<char> {
    if digits.len() > scale {
        digits.skip(digits.len() - scale)
    } else {
        zeros((scale - digits.len()) as nat) + digits
    }
}

/// The normalized text of a decimal. The declared scale is kept: dropping
/// trailing zeros would erase the exact value.
pub open spec fn decimal_number(unscaled: Seq<char>, scale: usize) -> Result<Seq<char>, Seq<char>> {
    let digits = without_sign(unscaled);
    if digits.len() == 0 || !all_digits(digits) {
        Err("invalid JSON decimal"@)
    } else if scale == 0 {
        Ok(sign_of(unscaled) + or_zero(without_zeros(digits)))
    } else {
        Ok(
            sign_of(unscaled) + or_zero(without_zeros(integer_part(digits, scale as int))) + "."@
                + fraction_part(digits, scale as int),
        )
    }
}

/// The normalized text of a double, given by its bits in hexadecimal. Where
/// `doubles` is left out, any text will do.
pub open spec fn double_number(text: Seq<char>, doubles: Option<Seq<DoubleText>>) -> Result<
    Seq<char>,
    Seq<char>,
> {
    if text.len() != 16 || !all_hex_digits(text) {
        Err("invalid JSON double bit pattern"@)
    } else {
        let bits = hex_value(text) as int;
        if !double_finite(bits) {
            Err("JSON text cannot represent a non-finite number"@)
        } else if bits == 0x8000_0000_0000_0000 {
            Ok("-0.0"@)
        } else {
            match doubles {
                None => Ok(""@),
                Some(list) => match double_text(list, bits as u64) {
                    Some(spelled) => Ok(spelled),
                    None => Err("the text of a JSON double is missing"@),
                },
            }
        }
    }
}

pub open spec fn spelled(result: Result<String, String>) -> Result<Seq<char>, Seq<char>> {
    match result {
        Ok(text) => Ok(text@),
        Err(message) => Err(message@),
    }
}

pub(crate) fn fault(message: &str) -> (result: Result<String, String>)
    ensures
        spelled(result) == Err::<Seq<char>, Seq<char>>(message@),
{
    Err(message.to_owned())
}

pub(crate) fn is_negative(chars: &Vec<char>) -> (result: bool)
    ensures
        result == (chars@.len() > 0 && chars@[0] == '-'),
{
    chars.len() > 0 && chars[0] == '-'
}

/// The digits at `from..to` without leading zeros, or a zero.
fn trimmed_digits(chars: &Vec<char>, from: usize, to: usize) -> (result: String)
    requires
        from <= to <= chars@.len(),
    ensures
        result@ == or_zero(without_zeros(chars@.subrange(from as int, to as int))),
{
    let first: usize = skip_zeros(chars, from, to);
    if first == to {
        "0".to_owned()
    } else {
        text_between(chars, first, to)
    }
}

fn normalized_integer(text: &str, signed: bool) -> (result: Result<String, String>)
    ensures
        spelled(result) == integer_text(text@, signed),
{
    let chars = chars_of(text);
    let from: usize = sign_length(&chars);
    let length: usize = chars.len();
    if from == length || !are_digits(&chars, from) {
        return fault("invalid JSON integer");
    }
    let negative = is_negative(&chars);
    if !signed && negative {
        return fault("unsigned JSON integer is negative");
    }
    assert(chars@.subrange(from as int, length as int) =~= without_sign(text@));
    let digits = trimmed_digits(&chars, from, length);
    Ok(
        concat(
            if negative {
                "-"
            } else {
                ""
            },
            digits.as_str(),
        ),
    )
}

pub(crate) fn zeros_text(count: usize) -> (result: String)
    ensures
        result@ == zeros(count as nat),
{
    let mut text = String::new();
    let mut i: usize = 0;
    assert(text@ =~= zeros(0));
    while i < count
        invariant
            i <= count,
            text@ == zeros(i as nat),
        decreases count - i,
    {
        text.push('0');
        assert(text@ =~= zeros((i + 1) as nat));
        i += 1;
    }
    text
}

fn normalized_decimal(unscaled: &str, scale: usize) -> (result: Result<String, String>)
    ensures
        spelled(result) == decimal_number(unscaled@, scale),
{
    let chars = chars_of(unscaled);
    let from: usize = sign_length(&chars);
    let length: usize = chars.len();
    if from == length || !are_digits(&chars, from) {
        return fault("invalid JSON decimal");
    }
    let sign = if is_negative(&chars) {
        "-"
    } else {
        ""
    };
    let ghost digits = without_sign(unscaled@);
    assert(chars@.subrange(from as int, length as int) =~= digits);
    if scale == 0 {
        let whole = trimmed_digits(&chars, from, length);
        return Ok(concat(sign, whole.as_str()));
    }
    let count: usize = length - from;
    let split: usize = if count > scale {
        length - scale
    } else {
        from
    };
    assert(chars@.subrange(from as int, split as int) =~= integer_part(digits, scale as int));
    let whole = trimmed_digits(&chars, from, split);
    let tail = text_between(&chars, split, length);
    let fraction = if count > scale {
        assert(tail@ =~= fraction_part(digits, scale as int));
        tail
    } else {
        let padding = zeros_text(scale - count);
        let padded = concat(padding.as_str(), tail.as_str());
        assert(padded@ =~= fraction_part(digits, scale as int));
        padded
    };
    Ok(concat4(sign, whole.as_str(), ".", fraction.as_str()))
}

fn normalized_double(text: &str, doubles: Option<&Vec<DoubleText>>) -> (result: Result<
    String,
    String,
>)
    ensures
        spelled(result) == double_number(
            text@,
            match doubles {
                Some(list) => Some(list@),
                None => None,
            },
        ),
{
    let chars = chars_of(text);
    if chars.len() != 16 || !are_hex_digits(&chars) {
        return fault("invalid JSON double bit pattern");
    }
    proof {
        lemma_sixteen_digits(text@);
    }
    let bits: u64 = match parse_hex_u64(text) {
        Some(bits) => bits,
        None => {
            return fault("invalid JSON double bit pattern");
        },
    };
    if !is_double_finite(bits) {
        return fault("JSON text cannot represent a non-finite number");
    }
    if bits == 0x8000_0000_0000_0000 {
        return Ok("-0.0".to_owned());
    }
    match doubles {
        None => Ok("".to_owned()),
        Some(list) => match find_double(list, bits) {
            Some(spelling) => Ok(spelling.to_owned()),
            None => fault("the text of a JSON double is missing"),
        },
    }
}

/// Sixteen hexadecimal digits are a number of sixty-four bits.
proof fn lemma_sixteen_digits(text: Seq<char>)
    requires
        text.len() == 16,
        all_hex_digits(text),
    ensures
        hex_value(text) <= u64::MAX,
        crate::number::parse_hex(text, u64::MAX as nat) == Some(hex_value(text)),
{
    lemma_hex_bound(text);
    reveal_with_fuel(sixteen_to, 17);
    assert(crate::text::ascii_hex_digit(text[0]));
    assert(text[0] != '+');
}

// ---------------------------------------------------------------------------
// Documents
// ---------------------------------------------------------------------------

/// The first failure of a row.
pub open spec fn first_failure(parts: Seq<Result<Seq<char>, Seq<char>>>) -> Option<Seq<char>>
    decreases parts.len(),
{
    if parts.len() == 0 {
        None
    } else {
        match first_failure(parts.drop_last()) {
            Some(message) => Some(message),
            None => match parts.last() {
                Ok(_) => None,
                Err(message) => Some(message),
            },
        }
    }
}

/// The texts of a row without failures.
pub open spec fn all_texts(parts: Seq<Result<Seq<char>, Seq<char>>>) -> Seq<Seq<char>> {
    Seq::new(parts.len(), |i: int| parts[i]->Ok_0)
}

/// Two neighbours have one key.
pub open spec fn repeated_key<T>(sorted: Seq<(Seq<char>, T)>) -> bool {
    exists|i: int| 0 <= i < sorted.len() - 1 && (#[trigger] sorted[i]).0 == sorted[i + 1].0
}

/// The members of an object, as texts.
pub open spec fn member_texts(sorted: Seq<(Seq<char>, Result<Seq<char>, Seq<char>>)>) -> Seq<
    Seq<char>,
> {
    Seq::new(
        sorted.len(),
        |i: int| json_text(Doc::Str(sorted[i].0)) + ":"@ + sorted[i].1->Ok_0,
    )
}

/// The text of an array with these parts.
pub open spec fn array_text(parts: Seq<Result<Seq<char>, Seq<char>>>) -> Result<
    Seq<char>,
    Seq<char>,
> {
    match first_failure(parts) {
        Some(message) => Err(message),
        None => Ok("["@ + join(all_texts(parts), ","@) + "]"@),
    }
}

/// The text of an object with these members.
pub open spec fn object_text(members: Seq<(Seq<char>, Result<Seq<char>, Seq<char>>)>) -> Result<
    Seq<char>,
    Seq<char>,
> {
    let sorted = sort_by_key(members);
    if repeated_key(sorted) {
        Err("duplicate JSON object key"@)
    } else {
        match first_failure(second(sorted)) {
            Some(message) => Err(message),
            None => Ok("{"@ + join(member_texts(sorted), ","@) + "}"@),
        }
    }
}

/// The normalized text of a JSON column value, or why it has none. Where
/// `doubles` is left out, any text of a double will do.
pub open spec fn normalized_json(value: JsonValue, doubles: Option<Seq<DoubleText>>) -> Result<
    Seq<char>,
    Seq<char>,
>
    decreases value,
{
    match value {
        JsonValue::Null => Ok("null"@),
        JsonValue::Boolean(true) => Ok("true"@),
        JsonValue::Boolean(false) => Ok("false"@),
        JsonValue::String(text) => Ok(json_text(Doc::Str(text@))),
        JsonValue::SignedInteger(text) => integer_text(text@, true),
        JsonValue::UnsignedInteger(text) => integer_text(text@, false),
        JsonValue::DoubleBits(text) => double_number(text@, doubles),
        JsonValue::Decimal { unscaled, scale } => decimal_number(unscaled@, scale),
        JsonValue::Array(items) => array_text(item_parts(items@, doubles)),
        JsonValue::Object(entries) => object_text(member_parts(entries@, doubles)),
    }
}

/// The texts of the items of an array.
pub open spec fn item_parts(items: Seq<JsonValue>, doubles: Option<Seq<DoubleText>>) -> Seq<
    Result<Seq<char>, Seq<char>>,
>
    decreases items,
{
    if items.len() == 0 {
        Seq::empty()
    } else {
        item_parts(items.drop_last(), doubles).push(normalized_json(items.last(), doubles))
    }
}

/// The keys and the texts of the members of an object.
pub open spec fn member_parts(entries: Seq<JsonEntry>, doubles: Option<Seq<DoubleText>>) -> Seq<
    (Seq<char>, Result<Seq<char>, Seq<char>>),
>
    decreases entries,
{
    if entries.len() == 0 {
        Seq::empty()
    } else {
        member_parts(entries.drop_last(), doubles).push(
            (entries.last().key@, normalized_json(entries.last().value, doubles)),
        )
    }
}

/// A rendered part.
struct Part {
    result: Result<String, String>,
}

impl View for Part {
    type V = Result<Seq<char>, Seq<char>>;

    closed spec fn view(&self) -> Result<Seq<char>, Seq<char>> {
        spelled(self.result)
    }
}

spec fn part_views(parts: Seq<Part>) -> Seq<Result<Seq<char>, Seq<char>>> {
    Seq::new(parts.len(), |i: int| parts[i]@)
}

pub proof fn lemma_first_failure_take(parts: Seq<Result<Seq<char>, Seq<char>>>, n: int)
    requires
        0 <= n <= parts.len(),
        first_failure(parts.take(n)) is Some,
    ensures
        first_failure(parts) == first_failure(parts.take(n)),
    decreases parts.len() - n,
{
    if n < parts.len() {
        assert(parts.take(n + 1).drop_last() =~= parts.take(n));
        lemma_first_failure_take(parts, n + 1);
    } else {
        assert(parts.take(n) =~= parts);
    }
}

/// The text of an array.
fn join_parts(parts: Vec<Part>) -> (result: Result<String, String>)
    ensures
        spelled(result) == array_text(part_views(parts@)),
{
    let ghost all = part_views(parts@);
    let mut pieces: Vec<String> = Vec::new();
    assert(all.take(0) =~= Seq::empty());
    for part in iter: parts
        invariant
            part_views(iter.seq()) == all,
            pieces@.len() == iter.index(),
            first_failure(all.take(iter.index() as int)) is None,
            forall|k: int|
                0 <= k < pieces@.len() ==> (#[trigger] pieces@[k])@ == all[k]->Ok_0,
    {
        let ghost n = iter.index() as int;
        assert(part_views(iter.seq())[n] == all[n]);
        assert(all.take(n + 1).drop_last() =~= all.take(n));
        match part.result {
            Ok(text) => pieces.push(text),
            Err(message) => {
                proof {
                    lemma_first_failure_take(all, n + 1);
                }
                return Err(message);
            },
        }
    }
    assert(all.take(all.len() as int) =~= all);
    assert(texts(pieces@) =~= all_texts(all));
    let joined = join_texts(&pieces, ",");
    Ok(concat3("[", joined.as_str(), "]"))
}

fn has_repeated_key(sorted: &Vec<Keyed<Part>>) -> (result: bool)
    ensures
        result == repeated_key(keyed_of(sorted@)),
{
    let ghost all = keyed_of(sorted@);
    let mut i: usize = 1;
    while i < sorted.len()
        invariant
            1 <= i,
            all == keyed_of(sorted@),
            forall|k: int|
                0 <= k < i - 1 && k < all.len() - 1 ==> (#[trigger] all[k]).0 != all[k + 1].0,
        decreases sorted@.len() - i,
    {
        if same(sorted[i - 1].key.as_str(), sorted[i].key.as_str()) {
            assert(all[i - 1].0 == all[i - 1 + 1].0);
            return true;
        }
        assert(all[i - 1].0 != all[i as int].0);
        i += 1;
    }
    false
}

/// The text of an object.
fn join_members(members: Vec<Keyed<Part>>) -> (result: Result<String, String>)
    ensures
        spelled(result) == object_text(keyed_of(members@)),
{
    let sorted = sort_keyed(members);
    if has_repeated_key(&sorted) {
        return fault("duplicate JSON object key");
    }
    let ghost all = keyed_of(sorted@);
    let ghost parts = second(all);
    let mut pieces: Vec<String> = Vec::new();
    assert(parts.take(0) =~= Seq::empty());
    for member in iter: sorted
        invariant
            keyed_of(iter.seq()) == all,
            all == sort_by_key(keyed_of(members@)),
            !repeated_key(all),
            parts == second(all),
            pieces@.len() == iter.index(),
            first_failure(parts.take(iter.index() as int)) is None,
            forall|k: int|
                0 <= k < pieces@.len() ==> (#[trigger] pieces@[k])@ == member_texts(all)[k],
    {
        let ghost n = iter.index() as int;
        assert(keyed_of(iter.seq())[n] == all[n]);
        assert(parts.take(n + 1).drop_last() =~= parts.take(n));
        assert(parts.take(n + 1).last() == all[n].1);
        match member.item.result {
            Ok(text) => {
                let key = write_json(&Json::Text(member.key));
                pieces.push(concat3(key.as_str(), ":", text.as_str()));
            },
            Err(message) => {
                proof {
                    lemma_first_failure_take(parts, n + 1);
                }
                return Err(message);
            },
        }
    }
    assert(parts.take(parts.len() as int) =~= parts);
    assert(texts(pieces@) =~= member_texts(all));
    let joined = join_texts(&pieces, ",");
    Ok(concat3("{", joined.as_str(), "}"))
}

pub(crate) open spec fn list_of(doubles: Option<&Vec<DoubleText>>) -> Option<Seq<DoubleText>> {
    match doubles {
        Some(list) => Some(list@),
        None => None,
    }
}

pub(crate) fn render_normalized_json(
    value: &JsonValue,
    doubles: Option<&Vec<DoubleText>>,
) -> (result: Result<String, String>)
    ensures
        spelled(result) == normalized_json(*value, list_of(doubles)),
    decreases value,
{
    match value {
        JsonValue::Null => Ok("null".to_owned()),
        JsonValue::Boolean(truth) => if *truth {
            Ok("true".to_owned())
        } else {
            Ok("false".to_owned())
        },
        JsonValue::String(text) => Ok(write_json(&Json::Text(text.clone()))),
        JsonValue::SignedInteger(text) => normalized_integer(text.as_str(), true),
        JsonValue::UnsignedInteger(text) => normalized_integer(text.as_str(), false),
        JsonValue::DoubleBits(text) => normalized_double(text.as_str(), doubles),
        JsonValue::Decimal { unscaled, scale } => normalized_decimal(unscaled.as_str(), *scale),
        JsonValue::Array(items) => {
            let mut parts: Vec<Part> = Vec::new();
            let mut i: usize = 0;
            assert(part_views(parts@) =~= item_parts(items@.take(0), list_of(doubles)));
            while i < items.len()
                invariant
                    i <= items@.len(),
                    *value == JsonValue::Array(*items),
                    decreases_to!(*value => *items),
                    part_views(parts@) == item_parts(items@.take(i as int), list_of(doubles)),
                decreases items@.len() - i,
            {
                assert(items@.take(i + 1).drop_last() =~= items@.take(i as int));
                let ghost before = part_views(parts@);
                let part = Part { result: render_normalized_json(&items[i], doubles) };
                parts.push(part);
                assert(part_views(parts@) =~= before.push(part@));
                i += 1;
            }
            assert(items@.take(i as int) =~= items@);
            join_parts(parts)
        },
        JsonValue::Object(entries) => {
            let mut members: Vec<Keyed<Part>> = Vec::new();
            let mut i: usize = 0;
            assert(keyed_of(members@) =~= member_parts(entries@.take(0), list_of(doubles)));
            while i < entries.len()
                invariant
                    i <= entries@.len(),
                    *value == JsonValue::Object(*entries),
                    decreases_to!(*value => *entries),
                    keyed_of(members@) == member_parts(entries@.take(i as int), list_of(doubles)),
                decreases entries@.len() - i,
            {
                assert(entries@.take(i + 1).drop_last() =~= entries@.take(i as int));
                let ghost before = keyed_of(members@);
                let part = Part { result: render_normalized_json(&entries[i].value, doubles) };
                members.push(Keyed { key: entries[i].key.clone(), item: part });
                assert(keyed_of(members@) =~= before.push((entries@[i as int].key@, part@)));
                i += 1;
            }
            assert(entries@.take(i as int) =~= entries@);
            join_members(members)
        },
    }
}

/// Why a plan refuses a value as a JSON column value.
pub open spec fn json_refusal(plan: ColumnConversionPlan, value: LogicalValue) -> Option<
    RefusalText,
> {
    match value {
        LogicalValue::Json { value } => match plan_value(plan, "json_strategy"@) {
            None => None,
            Some(strategy) => if strategy == "normalized_text"@ {
                match normalized_json(value, None) {
                    Ok(_) => None,
                    Err(message) => Some(
                        ("target_capability.json_normalization_failed"@, message),
                    ),
                }
            } else if strategy == "raw_text"@ {
                Some(
                    (
                        "target_capability.json_raw_text_unavailable"@,
                        "the ChangeEvent does not retain source JSON spelling, whitespace, duplicate keys, or object-key order"@,
                    ),
                )
            } else if strategy == "structured"@ {
                None
            } else {
                Some(
                    (
                        "target_capability.json_strategy_invalid"@,
                        "unknown JSON representation strategy "@ + debug_text(strategy),
                    ),
                )
            },
        },
        _ => Some(
            (
                "target_capability.json_type_mismatch"@,
                "the JSON conversion plan received a non-JSON value"@,
            ),
        ),
    }
}

pub(crate) fn validate_json_plan_value(
    plan: &ColumnConversionPlan,
    value: &LogicalValue,
) -> (result: Result<(), Refusal>)
    ensures
        refusal_of(result) == json_refusal(*plan, *value),
{
    match value {
        LogicalValue::Json { value } => {
            let strategy = match plan_parameter(plan, "json_strategy") {
                Some(strategy) => strategy,
                None => {
                    return Ok(());
                },
            };
            if same(strategy, "normalized_text") {
                match render_normalized_json(value, None) {
                    Ok(_) => Ok(()),
                    Err(message) => Err(
                        refuse("target_capability.json_normalization_failed", message.as_str()),
                    ),
                }
            } else if same(strategy, "raw_text") {
                Err(
                    refuse(
                        "target_capability.json_raw_text_unavailable",
                        "the ChangeEvent does not retain source JSON spelling, whitespace, duplicate keys, or object-key order",
                    ),
                )
            } else if same(strategy, "structured") {
                Ok(())
            } else {
                let spelling = debug_spelling(strategy);
                let message = concat("unknown JSON representation strategy ", spelling.as_str());
                Err(refuse("target_capability.json_strategy_invalid", message.as_str()))
            }
        },
        _ => Err(
            refuse(
                "target_capability.json_type_mismatch",
                "the JSON conversion plan received a non-JSON value",
            ),
        ),
    }
}

// ---------------------------------------------------------------------------
// What a spelling stands for
// ---------------------------------------------------------------------------

proof fn lemma_zeros_value(count: nat)
    ensures
        digits_value(zeros(count)) == 0,
        all_digits(zeros(count)),
    decreases count,
{
    if count > 0 {
        lemma_zeros_value((count - 1) as nat);
        assert(zeros(count).drop_last() =~= zeros((count - 1) as nat));
        assert(zeros(count).last() == '0');
    }
}

/// The two parts of digits around a point hold the number: as many digits behind
/// the point as the scale, and the rest in front of it.
pub proof fn lemma_parts_keep_the_number(digits: Seq<char>, scale: nat)
    requires
        all_digits(digits),
    ensures
        ({
            let whole = integer_part(digits, scale as int);
            let fraction = fraction_part(digits, scale as int);
            &&& fraction.len() == scale
            &&& all_digits(whole) && all_digits(fraction)
            &&& digits_value(whole) * pow(10, scale) + digits_value(fraction) == digits_value(
                digits,
            )
        }),
{
    let whole = integer_part(digits, scale as int);
    let fraction = fraction_part(digits, scale as int);
    if digits.len() > scale {
        let at = digits.len() - scale;
        lemma_digits_parts(digits, at);
        assert forall|i: int| 0 <= i < whole.len() implies ascii_digit(#[trigger] whole[i]) by {
            assert(ascii_digit(digits[i]));
        }
        assert forall|i: int| 0 <= i < fraction.len() implies ascii_digit(#[trigger] fraction[i]) by {
            assert(ascii_digit(digits[at + i]));
        }
    } else {
        let count = (scale - digits.len()) as nat;
        lemma_zeros_value(count);
        lemma_digits_parts(fraction, count as int);
        assert(fraction.take(count as int) =~= zeros(count));
        assert(fraction.skip(count as int) =~= digits);
        assert forall|i: int| 0 <= i < fraction.len() implies ascii_digit(#[trigger] fraction[i]) by {
            if i < count {
                assert(ascii_digit(zeros(count)[i]));
            } else {
                assert(ascii_digit(digits[i - count]));
            }
        }
        assert(whole =~= Seq::empty());
        assert(digits_value(whole) == 0);
        assert(0int * pow(10, scale) == 0);
        assert(digits_value(zeros(count)) as int * pow(10, (fraction.len() - count) as nat) == 0)
            by (nonlinear_arith)
            requires
                digits_value(zeros(count)) == 0,
        ;
    }
}

/// The text is a minus sign where the source begins with one, digits, and for a
/// scale above zero a point and as many digits as the scale, which together are
/// the number.
pub open spec fn spells(
    text: Seq<char>,
    first: char,
    number: nat,
    scale: nat,
    whole: Seq<char>,
    fraction: Seq<char>,
) -> bool {
    &&& text == (if first == '-' {
        "-"@
    } else {
        ""@
    }) + whole + (if scale == 0 {
        ""@
    } else {
        "."@ + fraction
    })
    &&& whole.len() > 0 && all_digits(whole)
    &&& fraction.len() == scale && all_digits(fraction)
    &&& digits_value(whole) * pow(10, scale) + digits_value(fraction) == number
}

pub proof fn lemma_or_zero(digits: Seq<char>)
    requires
        all_digits(digits),
    ensures
        or_zero(digits).len() > 0,
        all_digits(or_zero(digits)),
        digits_value(or_zero(digits)) == digits_value(digits),
{
    reveal_strlit("0");
    if digits.len() == 0 {
        assert("0"@.len() == 1 && "0"@[0] == '0');
        assert("0"@.drop_last() =~= Seq::empty());
        reveal_with_fuel(digits_value, 2);
    }
}

proof fn lemma_without_zeros_digits(digits: Seq<char>)
    requires
        all_digits(digits),
    ensures
        all_digits(without_zeros(digits)),
    decreases digits.len(),
{
    if digits.len() > 0 && digits[0] == '0' {
        let rest = digits.drop_first();
        assert forall|i: int| 0 <= i < rest.len() implies ascii_digit(#[trigger] rest[i]) by {
            assert(ascii_digit(digits[i + 1]));
        }
        lemma_without_zeros_digits(rest);
    }
}

/// A decimal of a document is spelled as its very number, with every digit behind
/// the point.
pub proof fn law_a_spelled_decimal_is_its_number(unscaled: Seq<char>, scale: usize)
    requires
        decimal_number(unscaled, scale) is Ok,
    ensures
        exists|whole: Seq<char>, fraction: Seq<char>|
            spells(
                decimal_number(unscaled, scale)->Ok_0,
                unscaled[0],
                digits_value(without_sign(unscaled)),
                scale as nat,
                whole,
                fraction,
            ),
{
    let digits = without_sign(unscaled);
    let text = decimal_number(unscaled, scale)->Ok_0;
    let number = digits_value(digits);
    reveal_strlit("");
    if scale == 0 {
        let whole = or_zero(without_zeros(digits));
        lemma_without_zeros(digits);
        lemma_without_zeros_digits(digits);
        lemma_or_zero(without_zeros(digits));
        reveal(pow);
        assert(text =~= sign_of(unscaled) + whole + ""@);
        assert(digits_value(Seq::<char>::empty()) == 0);
        assert(spells(text, unscaled[0], number, 0, whole, Seq::empty()));
    } else {
        let front = integer_part(digits, scale as int);
        let fraction = fraction_part(digits, scale as int);
        lemma_parts_keep_the_number(digits, scale as nat);
        lemma_without_zeros(front);
        lemma_without_zeros_digits(front);
        lemma_or_zero(without_zeros(front));
        let whole = or_zero(without_zeros(front));
        assert(text =~= sign_of(unscaled) + whole + ("."@ + fraction));
        assert(spells(text, unscaled[0], number, scale as nat, whole, fraction));
    }
}

/// An integer of a document is spelled as its very number without zeros in front,
/// and an unsigned one without a sign.
pub proof fn law_a_spelled_integer_is_its_number(text: Seq<char>, signed: bool)
    requires
        integer_text(text, signed) is Ok,
    ensures
        exists|whole: Seq<char>|
            spells(
                integer_text(text, signed)->Ok_0,
                text[0],
                digits_value(without_sign(text)),
                0,
                whole,
                Seq::empty(),
            ),
        !signed ==> text[0] != '-',
{
    let digits = without_sign(text);
    let whole = or_zero(without_zeros(digits));
    lemma_without_zeros(digits);
    lemma_without_zeros_digits(digits);
    lemma_or_zero(without_zeros(digits));
    reveal(pow);
    reveal_strlit("");
    let spelled = integer_text(text, signed)->Ok_0;
    assert(spelled =~= sign_of(text) + whole + ""@);
    assert(digits_value(Seq::<char>::empty()) == 0);
    assert(spells(spelled, text[0], digits_value(digits), 0, whole, Seq::empty()));
}

} // verus!
