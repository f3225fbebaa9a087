//! What a plan keeps of the values that it takes.
use crate::change_event::compatibility::plan::ColumnConversionPlan;
use crate::change_event::bits::{small_power, unused_bits};
use crate::change_event::compatibility::values::bytes::{bit_bytes_refusal, bit_string_refusal};
use crate::change_event::compatibility::values::check::{datum_refusal, value_refusal};
use crate::change_event::compatibility::values::convert::{
    column_converted, column_plan, column_refusal, conversion_refusal, is_converted, lineage_of,
    plan_for,
};
use crate::change_event::compatibility::values::json_text::DoubleText;
use crate::change_event::compatibility::values::members::{
    in_target_order, law_target_order_keeps_the_set, set_refusal,
};
use crate::change_event::compatibility::values::numeric::{
    law_a_taken_decimal_is_in_the_range_of_its_target,
    law_a_taken_integer_is_in_the_range_of_its_target, without_sign,
};
use crate::change_event::compatibility::values::refusal::{flag, plan_value, unsigned};
use crate::change_event::compatibility::values::temporal::{
    cut_32, date_after, days_before, law_days_round_trip, lemma_seconds_of_day, local_year,
    temporal_conversion_refusal, temporal_converted, temporal_refusal, zone_offset,
};
use crate::change_event::compatibility::values::text::{decoded_text, encoded_text};
use crate::change_event::model::{
    logical_value_doc, BitOrder, BitPadding, ColumnDatum, Datum, LogicalValue,
};
use crate::change_event::validate::{days_in_month, member_before};
use crate::encoding::base64url_decoded;
use crate::json::json_text_list;
use crate::number::{
    digits_value, law_signed_decimal_round_trip, lemma_ten_to, parse_signed, parse_unsigned,
};
use crate::text::{all_digits, ascii_digit, lemma_first_index_is, lower, same_ignoring_case, texts};
use vstd::arithmetic::power::{lemma_pow_adds, lemma_pow_positive, pow};
use vstd::arithmetic::power2::{lemma2_to64, pow2};
use vstd::prelude::*;
use vstd::utf8::{
    decode_utf8_encode_utf8, encode_utf8, encode_utf8_decode_utf8, encode_utf8_valid_utf8,
    is_ascii_chars, is_ascii_chars_encode_utf8,
};

verus! {

// ---------------------------------------------------------------------------
// Texts
// ---------------------------------------------------------------------------

/// What bytes say is what their character set makes of them: in UTF-8 the bytes
/// are the encoding of the text, in Latin-1 and ASCII every byte is the number
/// of its character.
pub proof fn law_a_read_text_spells_its_bytes(
    charset: Seq<char>,
    bytes: Seq<u8>,
    declared: Option<Seq<char>>,
)
    ensures
        decoded_text(charset, bytes, declared) matches Ok(text) ==> {
            let name = lower(charset);
            &&& name == "utf8"@ || name == "utf8mb4"@ || name == "utf-8"@ ==> encode_utf8(text)
                == bytes && (declared is None || declared == Some(text))
            &&& name == "latin1"@ || name == "iso-8859-1"@ || name == "ascii"@ ==> text.len()
                == bytes.len() && forall|i: int|
                0 <= i < bytes.len() ==> #[trigger] text[i] as int == bytes[i] as int
            &&& name == "ascii"@ ==> forall|i: int| 0 <= i < bytes.len() ==> #[trigger] bytes[i] < 128
            &&& name == "utf8"@ || name == "utf8mb4"@ || name == "utf-8"@ || name == "latin1"@
                || name == "iso-8859-1"@ || name == "ascii"@
        },
{
    lemma_charsets_differ();
    if decoded_text(charset, bytes, declared) is Ok {
        let name = lower(charset);
        if name == "utf8"@ || name == "utf8mb4"@ || name == "utf-8"@ {
            decode_utf8_encode_utf8(bytes);
        }
    }
}

proof fn lemma_character(c: char)
    ensures
        0 <= c as int <= 0x10_ffff,
{
}

proof fn lemma_charsets_differ()
    ensures
        "ascii"@ != "utf8"@,
        "ascii"@ != "utf8mb4"@,
        "ascii"@ != "utf-8"@,
        "latin1"@ != "utf8"@,
        "latin1"@ != "utf8mb4"@,
        "latin1"@ != "utf-8"@,
        "iso-8859-1"@ != "utf8"@,
        "iso-8859-1"@ != "utf8mb4"@,
        "iso-8859-1"@ != "utf-8"@,
        "ascii"@ != "latin1"@,
        "ascii"@ != "iso-8859-1"@,
        "utf8"@ != "utf8mb4"@,
        "utf-8"@ != "utf8mb4"@,
{
    reveal_strlit("ascii");
    reveal_strlit("utf8");
    reveal_strlit("utf8mb4");
    reveal_strlit("utf-8");
    reveal_strlit("latin1");
    reveal_strlit("iso-8859-1");
    assert("ascii"@.len() == 5 && "utf8"@.len() == 4 && "utf8mb4"@.len() == 7 && "utf-8"@.len() == 5
        && "latin1"@.len() == 6 && "iso-8859-1"@.len() == 10);
    assert("ascii"@[0] != "utf-8"@[0]);
}

/// A text that is written in a character set reads back as the same text, and
/// exactly the texts are written whose characters the character set has.
pub proof fn law_a_written_text_reads_back(charset: Seq<char>, text: Seq<char>)
    ensures
        encoded_text(charset, text) matches Ok(bytes) ==> decoded_text(
            charset,
            bytes,
            None,
        ) == Ok::<_, Seq<char>>(text),
        encoded_text(charset, text) is Ok <==> {
            let name = lower(charset);
            ||| name == "utf8mb4"@
            ||| (name == "utf8"@ || name == "utf-8"@) && forall|i: int|
                0 <= i < text.len() ==> (#[trigger] text[i] as int) < 0x1_0000
            ||| name == "ascii"@ && forall|i: int|
                0 <= i < text.len() ==> (#[trigger] text[i] as int) < 0x80
            ||| (name == "latin1"@ || name == "iso-8859-1"@) && forall|i: int|
                0 <= i < text.len() ==> (#[trigger] text[i] as int) < 0x100
        },
{
    lemma_charsets_differ();
    let name = lower(charset);
    encode_utf8_valid_utf8(text);
    encode_utf8_decode_utf8(text);
    if encoded_text(charset, text) is Ok {
        let bytes = encoded_text(charset, text)->Ok_0;
        if name == "ascii"@ {
            assert forall|i: int| 0 <= i < text.len() implies '\0' <= #[trigger] text[i]
                <= '\u{7f}' by {
                lemma_character(text[i]);
                assert(text[i] as int <= 0x7f);
            }
            assert(is_ascii_chars(text));
            is_ascii_chars_encode_utf8(text);
            let read = decoded_text(charset, bytes, None);
            assert forall|i: int| 0 <= i < bytes.len() implies #[trigger] bytes[i] <= 0x7f && bytes[i]
                as char == text[i] by {
                lemma_character(text[i]);
                assert(text[i] as u8 == bytes[i]);
                assert(text[i] as int <= 0x7f);
            }
            assert(read->Ok_0 =~= text);
        } else if name == "latin1"@ || name == "iso-8859-1"@ {
            let read = decoded_text(charset, bytes, None);
            assert forall|i: int| 0 <= i < bytes.len() implies #[trigger] bytes[i] as char
                == text[i] by {
                assert(text[i] as int <= 0xff);
                lemma_character(text[i]);
                assert(bytes[i] == text[i] as u8);
                assert((text[i] as u8) as int == text[i] as int);
            }
            assert(read->Ok_0 =~= text);
        }
    }
}

/// A text that a plan converts says the same in the character set of the target
/// as it did at the source, and it is no longer than the target allows, counted
/// as the target counts.
pub proof fn law_a_converted_text_says_the_same(
    plan: ColumnConversionPlan,
    value: LogicalValue,
    doubles: Seq<DoubleText>,
    result: LogicalValue,
)
    requires
        plan.target.parameters.value_of("range_kind"@) is None,
        plan.target.parameters.value_of("conversion_kind"@) == Some("text"@),
        conversion_refusal(plan, value, doubles) is None,
        is_converted(plan, value, doubles, result),
    ensures
        ({
            let p = plan.target.parameters;
            &&& value matches LogicalValue::Text { charset, bytes_base64url, text: given }
            &&& result matches LogicalValue::Text {
                charset: target,
                bytes_base64url: written,
                text: kept,
            }
            &&& p.value_of("target_charset"@) == Some(target@)
            &&& base64url_decoded(bytes_base64url@) matches Some(source_bytes)
            &&& base64url_decoded(written@) matches Some(bytes)
            &&& kept matches Some(text)
            &&& decoded_text(charset@, source_bytes, None) == Ok::<_, Seq<char>>(text@)
            &&& decoded_text(target@, bytes, None) == Ok::<_, Seq<char>>(text@)
            &&& p.value_of("target_length"@) matches Some(length) && (same_ignoring_case(
                length,
                "unbounded"@,
            ) || (parse_unsigned(length, usize::MAX as nat) matches Some(limit) && (p.value_of(
                "target_length_unit"@,
            ) == Some("bytes"@) && bytes.len() <= limit || p.value_of("target_length_unit"@) == Some(
                "characters"@,
            ) && text@.len() <= limit)))
        }),
{
    lemma_kinds_differ();
    reveal_strlit("bytes");
    reveal_strlit("characters");
    assert("bytes"@.len() != "characters"@.len());
    let bytes = base64url_decoded(value->Text_bytes_base64url@)->0;
    let charset = value->Text_charset@;
    let text = result->Text_text->0@;
    law_a_written_text_reads_back(plan.target.parameters.value_of("target_charset"@)->0, text);
}

proof fn lemma_kinds_differ()
    ensures
        "text"@ != "binary"@,
        "text"@ != "bit_string"@,
        "text"@ != "spatial"@,
        "text"@ != "recursive"@,
        "text"@ != "json"@,
        "temporal"@ != "text"@,
        "temporal"@ != "binary"@,
        "temporal"@ != "bit_string"@,
        "temporal"@ != "spatial"@,
        "temporal"@ != "recursive"@,
        "temporal"@ != "json"@,
        "temporal"@ != "enum"@,
        "temporal"@ != "set"@,
        "enum"@ != "text"@,
        "enum"@ != "binary"@,
        "enum"@ != "bit_string"@,
        "enum"@ != "spatial"@,
        "enum"@ != "recursive"@,
        "enum"@ != "json"@,
        "set"@ != "text"@,
        "set"@ != "binary"@,
        "set"@ != "bit_string"@,
        "set"@ != "spatial"@,
        "set"@ != "recursive"@,
        "set"@ != "json"@,
        "bit_string"@ != "binary"@,
{
    reveal_strlit("text");
    reveal_strlit("binary");
    reveal_strlit("bit_string");
    reveal_strlit("spatial");
    reveal_strlit("recursive");
    reveal_strlit("json");
    reveal_strlit("temporal");
    reveal_strlit("enum");
    reveal_strlit("set");
    assert("text"@.len() == 4 && "binary"@.len() == 6 && "bit_string"@.len() == 10
        && "spatial"@.len() == 7 && "recursive"@.len() == 9 && "json"@.len() == 4
        && "temporal"@.len() == 8 && "enum"@.len() == 4 && "set"@.len() == 3);
    assert("text"@[0] == 't' && "json"@[0] == 'j' && "enum"@[0] == 'e');
}

// ---------------------------------------------------------------------------
// Bytes
// ---------------------------------------------------------------------------

/// Bytes that a plan converts stay as they are, but for the padding of a target
/// of fixed length: they are the front of the result, the rest of it is the
/// padding byte, and the result has the length of the target. No target takes
/// more bytes than its length.
pub proof fn law_converted_bytes_are_kept(
    plan: ColumnConversionPlan,
    value: LogicalValue,
    doubles: Seq<DoubleText>,
    result: LogicalValue,
)
    requires
        plan.target.parameters.value_of("range_kind"@) is None,
        plan.target.parameters.value_of("conversion_kind"@) == Some("binary"@),
        conversion_refusal(plan, value, doubles) is None,
        is_converted(plan, value, doubles, result),
    ensures
        ({
            let length = plan_value(plan, "target_length"@);
            let padding = plan_value(plan, "target_padding"@);
            let fixed = plan_value(plan, "target_fixed"@) == Some("true"@);
            &&& value matches LogicalValue::Binary { bytes_base64url: given }
            &&& result matches LogicalValue::Binary { bytes_base64url: written }
            &&& base64url_decoded(given@) matches Some(before)
            &&& base64url_decoded(written@) matches Some(after)
            &&& before.len() <= after.len() && after.take(before.len() as int) == before
            &&& length is None || length == Some("unbounded"@) ==> after == before
            &&& length is Some && length != Some("unbounded"@) ==> {
                &&& parse_unsigned(length->0, usize::MAX as nat) matches Some(limit)
                &&& after.len() <= limit
                &&& !fixed ==> after == before
                &&& fixed ==> after.len() == limit && (padding == Some("zero"@) || padding == Some(
                    "one"@,
                ))
                &&& fixed ==> forall|i: int|
                    before.len() <= i < after.len() ==> #[trigger] after[i] == if padding == Some(
                        "zero"@,
                    ) {
                        0u8
                    } else {
                        255u8
                    }
            }
        }),
{
    let before = base64url_decoded(value->Binary_bytes_base64url@)->0;
    let after = base64url_decoded(result->Binary_bytes_base64url@)->0;
    assert(after.take(before.len() as int) =~= before);
}

/// A bit string that a plan takes has as many bits as the target, in as many
/// bytes as hold them and no more, and the bits that are left over are all zero,
/// or all one where the padding says so.
pub proof fn law_a_taken_bit_string_fills_its_target(plan: ColumnConversionPlan, value: LogicalValue)
    requires
        plan.target.parameters.value_of("range_kind"@) is None,
        plan.target.parameters.value_of("conversion_kind"@) == Some("bit_string"@),
        value_refusal(plan, value) is None,
    ensures
        ({
            let wanted = match plan_value(plan, "target_bit_length"@) {
                Some(text) => Some(text),
                None => plan_value(plan, "target_length"@),
            };
            &&& value matches LogicalValue::BitString {
                bytes_base64url,
                bit_length,
                padding,
                bit_order,
            }
            &&& wanted matches Some(text) && parse_unsigned(text, u64::MAX as nat) == Some(
                bit_length as nat,
            )
            &&& base64url_decoded(bytes_base64url@) matches Some(raw)
            &&& bit_length <= 8 * raw.len() < bit_length + 8
            &&& 8 * raw.len() == bit_length ==> padding is NoPadding
            &&& 8 * raw.len() > bit_length ==> {
                let unused = (8 * raw.len() - bit_length) as nat;
                let left_over = match bit_order {
                    BitOrder::MsbFirst => raw.last() as int % pow2(unused) as int,
                    BitOrder::LsbFirst => raw.last() as int / pow2((8 - unused) as nat) as int,
                };
                left_over == if padding is One {
                    pow2(unused) - 1
                } else {
                    0
                }
            }
            &&& bit_order is MsbFirst <==> plan_value(plan, "target_bit_order"@) == Some(
                "msb_first"@,
            )
            &&& padding is One <==> plan_value(plan, "target_padding"@) == Some("one"@)
        }),
{
    assert(value_refusal(plan, value) == bit_string_refusal(plan, value)) by {
        lemma_kinds_differ();
    }
    lemma_bit_words_differ();
    lemma_bit_bytes(
        value->BitString_bytes_base64url@,
        value->BitString_bit_length,
        value->BitString_padding,
        value->BitString_bit_order,
    );
}

proof fn lemma_bit_words_differ()
    ensures
        "msb_first"@ != "lsb_first"@,
        "one"@ != "none"@,
        "one"@ != "zero"@,
        "none"@ != "zero"@,
{
    reveal_strlit("msb_first");
    reveal_strlit("lsb_first");
    assert("msb_first"@[0] != "lsb_first"@[0]);
    reveal_strlit("none");
    reveal_strlit("zero");
    reveal_strlit("one");
    assert("one"@.len() == 3 && "none"@.len() == 4 && "zero"@.len() == 4);
    assert("none"@[0] != "zero"@[0]);
}

proof fn lemma_bit_bytes(
    encoded: Seq<char>,
    bit_length: u64,
    padding: BitPadding,
    bit_order: BitOrder,
)
    requires
        bit_bytes_refusal(encoded, bit_length, padding, bit_order) is None,
    ensures
        base64url_decoded(encoded) matches Some(raw) && {
            &&& bit_length <= 8 * raw.len() < bit_length + 8
            &&& 8 * raw.len() == bit_length ==> padding is NoPadding
            &&& 8 * raw.len() > bit_length ==> {
                let unused = (8 * raw.len() - bit_length) as nat;
                let left_over = match bit_order {
                    BitOrder::MsbFirst => raw.last() as int % pow2(unused) as int,
                    BitOrder::LsbFirst => raw.last() as int / pow2((8 - unused) as nat) as int,
                };
                left_over == if padding is One {
                    pow2(unused) - 1
                } else {
                    0
                }
            }
        },
{
    let raw = base64url_decoded(encoded)->0;
    let unused = 8 * raw.len() - bit_length;
    assert(0 <= unused < 8);
    assert(unused == unused_bits(bit_length as int));
    assert(small_power(unused) == pow2(unused as nat) && small_power(8 - unused) == pow2(
        (8 - unused) as nat,
    )) by {
        lemma2_to64();
    }
}

// ---------------------------------------------------------------------------
// Labels and members
// ---------------------------------------------------------------------------

proof fn lemma_taken_set(members: Seq<String>, targets: Seq<Seq<char>>, from: int)
    requires
        0 <= from <= members.len(),
        set_refusal(members, targets, from) is None,
    ensures
        forall|i: int| from <= i < members.len() ==> targets.contains((#[trigger] members[i])@),
        forall|i: int, j: int|
            #![trigger members[i], members[j]]
            from <= j < members.len() && 0 <= i < j ==> members[i]@ != members[j]@,
    decreases members.len() - from,
{
    if from < members.len() {
        lemma_taken_set(members, targets, from + 1);
        assert forall|i: int, j: int|
            #![trigger members[i], members[j]]
            from <= j < members.len() && 0 <= i < j implies members[i]@ != members[j]@ by {
            if j == from && members[i]@ == members[j]@ {
                assert(member_before(members, from, members[from]@));
            }
        }
    }
}

/// The places of the kept members among the targets go up.
pub open spec fn in_order(list: Seq<Seq<char>>, targets: Seq<Seq<char>>, places: Seq<int>) -> bool {
    &&& places.len() == list.len()
    &&& forall|i: int|
        0 <= i < places.len() ==> 0 <= #[trigger] places[i] < targets.len() && targets[places[i]]
            == list[i]
    &&& forall|i: int, j: int|
        #![trigger places[i], places[j]]
        0 <= i < j < places.len() ==> places[i] < places[j]
}

proof fn lemma_order(targets: Seq<Seq<char>>, members: Seq<Seq<char>>) -> (places: Seq<int>)
    ensures
        in_order(in_target_order(targets, members), targets, places),
    decreases targets.len(),
{
    if targets.len() == 0 {
        Seq::empty()
    } else {
        let before = lemma_order(targets.drop_last(), members);
        let earlier = in_target_order(targets.drop_last(), members);
        assert forall|i: int| 0 <= i < before.len() implies 0 <= #[trigger] before[i]
            < targets.len() - 1 && targets[before[i]] == earlier[i] by {
            assert(targets.drop_last()[before[i]] == targets[before[i]]);
        }
        if members.contains(targets.last()) {
            before.push(targets.len() - 1)
        } else {
            before
        }
    }
}

/// A label that a plan converts is one of the labels of the target, and stays as
/// it is.
pub proof fn law_a_converted_label_is_one_of_the_target(
    plan: ColumnConversionPlan,
    label: String,
    doubles: Seq<DoubleText>,
    result: LogicalValue,
    list: Seq<char>,
)
    requires
        plan.target.parameters.value_of("range_kind"@) is None,
        plan.target.parameters.value_of("conversion_kind"@) == Some("enum"@),
        plan.target.parameters.value_of("target_members"@) == Some(list),
        conversion_refusal(plan, LogicalValue::Enum { label }, doubles) is None,
        is_converted(plan, LogicalValue::Enum { label }, doubles, result),
    ensures
        json_text_list(list) matches Some(targets) && targets.contains(label@),
        result matches LogicalValue::Enum { label: kept } && kept@ == label@,
{
    lemma_kinds_differ();
}

/// A set that a plan converts has the members that it had, each of them once and
/// one of the target's, and they come in the order of the target.
pub proof fn law_a_converted_set_has_its_members(
    plan: ColumnConversionPlan,
    members: Vec<String>,
    doubles: Seq<DoubleText>,
    result: LogicalValue,
    list: Seq<char>,
    text: Seq<char>,
)
    requires
        plan.target.parameters.value_of("range_kind"@) is None,
        plan.target.parameters.value_of("conversion_kind"@) == Some("set"@),
        plan.target.parameters.value_of("target_members"@) == Some(list),
        conversion_refusal(plan, LogicalValue::SetValue { members }, doubles) is None,
        is_converted(plan, LogicalValue::SetValue { members }, doubles, result),
    ensures
        json_text_list(list) is Some,
        result is SetValue,
        texts(result->SetValue_members@).contains(text) <==> texts(members@).contains(text),
        forall|i: int|
            0 <= i < members@.len() ==> json_text_list(list)->0.contains((#[trigger] members@[i])@),
        forall|i: int, j: int|
            #![trigger members@[i], members@[j]]
            0 <= i < j < members@.len() ==> members@[i]@ != members@[j]@,
        exists|places: Seq<int>| #[trigger]
            in_order(texts(result->SetValue_members@), json_text_list(list)->0, places),
{
    lemma_kinds_differ();
    let targets = json_text_list(list)->0;
    lemma_taken_set(members@, targets, 0);
    assert forall|i: int| 0 <= i < texts(members@).len() implies targets.contains(
        #[trigger] texts(members@)[i],
    ) by {
        assert(targets.contains(members@[i]@));
    }
    law_target_order_keeps_the_set(targets, texts(members@), text);
    let places = lemma_order(targets, texts(members@));
    assert(in_order(texts(result->SetValue_members@), targets, places));
}

// ---------------------------------------------------------------------------
// Times
// ---------------------------------------------------------------------------

/// A time that a plan takes has no fraction of a second below the precision of
/// its target, so that none is ever dropped.
pub proof fn law_a_taken_time_loses_no_fraction(plan: ColumnConversionPlan, value: LogicalValue)
    requires
        plan.target.parameters.value_of("range_kind"@) is None,
        plan.target.parameters.value_of("conversion_kind"@) == Some("temporal"@),
        value_refusal(plan, value) is None,
    ensures
        ({
            &&& unsigned(plan.target.parameters.value_of("target_precision"@), 255) matches Some(
                precision,
            )
            &&& precision <= 6
            &&& value matches LogicalValue::LocalDatetime { microsecond, .. } ==> microsecond as int
                % pow(10, (6 - precision) as nat) == 0
            &&& value matches LogicalValue::Duration { microsecond, .. } ==> microsecond as int
                % pow(10, (6 - precision) as nat) == 0
            &&& value matches LogicalValue::Instant { nanoseconds, .. } ==> nanoseconds as int
                % pow(10, (9 - precision) as nat) == 0
            &&& value is LocalDatetime || value is Duration || value is Instant
        }),
{
    lemma_kinds_differ();
    let precision = unsigned(plan.target.parameters.value_of("target_precision"@), 255)->0;
    lemma_ten_to((6 - precision) as nat);
    lemma_ten_to((9 - precision) as nat);
}

/// An offset is written as a sign, hours and minutes. East of Greenwich, behind
/// a plus sign, it counts up, and west of it down.
pub proof fn law_an_offset_counts_hours_and_minutes(
    sign: char,
    hours: Seq<char>,
    minutes: Seq<char>,
)
    requires
        sign == '+' || sign == '-',
        hours.len() == 2 && all_digits(hours),
        minutes.len() == 2 && all_digits(minutes),
    ensures
        ({
            let zone = seq![sign] + hours + seq![':'] + minutes;
            let h = digits_value(hours) as int;
            let m = digits_value(minutes) as int;
            &&& zone_offset(zone) is Ok <==> h < 24 && m < 60
            &&& zone_offset(zone) matches Ok(offset) ==> offset == if sign == '+' {
                60 * (60 * h + m)
            } else {
                -(60 * (60 * h + m))
            }
        }),
        zone_offset("UTC"@) == Ok::<int, Seq<char>>(0),
        zone_offset("Z"@) == Ok::<int, Seq<char>>(0),
{
    let zone = seq![sign] + hours + seq![':'] + minutes;
    let rest = zone.drop_first();
    reveal_strlit("utc");
    reveal_strlit("UTC");
    reveal_strlit("Z");
    assert(lower("UTC"@) =~= lower("utc"@));
    assert(zone.len() == 6 && lower(zone).len() == 6 && lower("utc"@).len() == 3);
    assert(rest =~= hours + seq![':'] + minutes);
    assert forall|i: int| 0 <= i < 2 implies rest[i] != ':' by {
        assert(ascii_digit(hours[i]));
    }
    lemma_first_index_is(rest, ':', 2);
    assert(rest.take(2) =~= hours);
    assert(rest.skip(3) =~= minutes);
    assert(ascii_digit(hours[0]) && ascii_digit(minutes[0]) && ascii_digit(hours[1]) && ascii_digit(
        minutes[1],
    ));
    lemma_two_digits(hours);
    lemma_two_digits(minutes);
}

proof fn lemma_two_digits(digits: Seq<char>)
    requires
        digits.len() == 2,
        all_digits(digits),
    ensures
        digits_value(digits) < 100,
        parse_signed(digits, i32::MIN as int, i32::MAX as int) == Some(digits_value(digits) as int),
{
    assert(ascii_digit(digits[0]) && ascii_digit(digits[1]));
    reveal_with_fuel(digits_value, 3);
    assert(digits.drop_last().len() == 1 && digits.drop_last().last() == digits[0]);
    assert(digits.drop_last().drop_last() =~= Seq::empty());
}

/// A local time becomes the instant that lies the offset of the plan's zone
/// before it: the seconds of the instant plus the offset are the days and the
/// clock of the local time. The fraction stays.
pub proof fn law_a_local_time_becomes_its_instant(
    plan: ColumnConversionPlan,
    value: LogicalValue,
    doubles: Seq<DoubleText>,
    result: LogicalValue,
    offset: int,
)
    requires
        plan.target.parameters.value_of("range_kind"@) is None,
        plan.target.parameters.value_of("conversion_kind"@) == Some("temporal"@),
        plan.target.parameters.value_of("source_temporal_kind"@) == Some("local_datetime"@),
        plan.target.parameters.value_of("target_temporal_kind"@) == Some("instant"@),
        conversion_refusal(plan, value, doubles) is None,
        is_converted(plan, value, doubles, result),
        (match plan.parameters.value_of("time_zone"@) {
            Some(zone) => Some(zone),
            None => plan.parameters.value_of("timezone"@),
        }) matches Some(zone) && zone_offset(zone) == Ok::<int, Seq<char>>(offset),
    ensures
        value matches LogicalValue::LocalDatetime {
            year,
            month,
            day,
            hour,
            minute,
            second,
            microsecond,
        } && result matches LogicalValue::Instant { unix_seconds, nanoseconds } && {
            let local = days_before(year as int, month as int, day as int) * 86_400 + hour * 3_600
                + minute * 60 + second;
            &&& nanoseconds == 1_000 * microsecond
            &&& parse_signed(unix_seconds@, local - offset, local - offset) == Some(local - offset)
        },
{
    lemma_temporal_plan(plan, value, doubles, result);
    lemma_temporal_words_differ();
    let days = days_before(
        value->LocalDatetime_year as int,
        value->LocalDatetime_month as int,
        value->LocalDatetime_day as int,
    );
    let seconds = days * 86_400 + value->LocalDatetime_hour * 3_600 + value->LocalDatetime_minute
        * 60 + value->LocalDatetime_second - offset;
    law_signed_decimal_round_trip(seconds, seconds, seconds);
}

/// An instant becomes the local time that lies the offset of the plan's zone
/// behind it: the days and the clock of the local time are the seconds of the
/// instant plus the offset, in years of thirty-two bits. The local time is one of
/// the calendar, and the fraction stays.
pub proof fn law_an_instant_becomes_its_local_time(
    plan: ColumnConversionPlan,
    value: LogicalValue,
    doubles: Seq<DoubleText>,
    result: LogicalValue,
    offset: int,
)
    requires
        plan.target.parameters.value_of("range_kind"@) is None,
        plan.target.parameters.value_of("conversion_kind"@) == Some("temporal"@),
        plan.target.parameters.value_of("source_temporal_kind"@) == Some("instant"@),
        plan.target.parameters.value_of("target_temporal_kind"@) == Some("local_datetime"@),
        conversion_refusal(plan, value, doubles) is None,
        is_converted(plan, value, doubles, result),
        (match plan.parameters.value_of("time_zone"@) {
            Some(zone) => Some(zone),
            None => plan.parameters.value_of("timezone"@),
        }) matches Some(zone) && zone_offset(zone) == Ok::<int, Seq<char>>(offset),
        value matches LogicalValue::Instant { unix_seconds, .. } && {
            let seconds = parse_signed(unix_seconds@, i64::MIN as int, i64::MAX as int)->0;
            -0x8000_0000 <= date_after((seconds + offset) / 86_400).0 < 0x8000_0000
        },
    ensures
        value matches LogicalValue::Instant { unix_seconds, nanoseconds } && result matches
            LogicalValue::LocalDatetime { year, month, day, hour, minute, second, microsecond } && {
            let seconds = parse_signed(unix_seconds@, i64::MIN as int, i64::MAX as int)->0;
            &&& 1_000 * microsecond == nanoseconds
            &&& hour < 24 && minute < 60 && second < 60
            &&& 1 <= month <= 12 && 1 <= day <= days_in_month(year as int, month as int)
            &&& days_before(year as int, month as int, day as int) * 86_400 + hour * 3_600 + minute
                * 60 + second == seconds + offset
        },
{
    lemma_temporal_plan(plan, value, doubles, result);
    lemma_temporal_words_differ();
    law_a_taken_time_loses_no_fraction(plan, value);
    let precision = unsigned(plan.target.parameters.value_of("target_precision"@), 255)->0;
    let seconds = parse_signed(value->unix_seconds@, i64::MIN as int, i64::MAX as int)->0 + offset;
    lemma_whole_microseconds(value->nanoseconds as int, precision);
    lemma_local_time(
        seconds,
        result->LocalDatetime_year as int,
        result->LocalDatetime_month as int,
        result->LocalDatetime_day as int,
        result->LocalDatetime_hour as int,
        result->LocalDatetime_minute as int,
        result->LocalDatetime_second as int,
    );
}

#[verifier::spinoff_prover]
#[verifier::rlimit(30)]
proof fn lemma_local_time(
    seconds: int,
    year: int,
    month: int,
    day: int,
    hour: int,
    minute: int,
    second: int,
)
    requires
        -0x8000_0000 <= date_after(seconds / 86_400).0 < 0x8000_0000,
        year == local_year(seconds),
        month == date_after(seconds / 86_400).1,
        day == date_after(seconds / 86_400).2,
        hour == (seconds % 86_400) / 3_600,
        minute == (seconds % 3_600) / 60,
        second == seconds % 60,
    ensures
        hour < 24 && minute < 60 && second < 60,
        1 <= month <= 12 && 1 <= day <= days_in_month(year, month),
        days_before(year, month, day) * 86_400 + hour * 3_600 + minute * 60 + second == seconds,
{
    lemma_day_and_clock(seconds);
    let days = seconds / 86_400;
    let march_year = date_after(days).0;
    assert(cut_32(march_year) == march_year);
    assert(year == march_year + (if month <= 2 {
        1int
    } else {
        0int
    }));
    law_days_round_trip(days);
    assert(days_before(year, month, day) == days);
}

/// A time whose kind does not change stays as it is.
pub proof fn law_a_time_of_the_same_kind_is_kept(
    plan: ColumnConversionPlan,
    value: LogicalValue,
    doubles: Seq<DoubleText>,
    result: LogicalValue,
)
    requires
        plan.target.parameters.value_of("range_kind"@) is None,
        plan.target.parameters.value_of("conversion_kind"@) == Some("temporal"@),
        plan.target.parameters.value_of("source_temporal_kind"@)
            == plan.target.parameters.value_of("target_temporal_kind"@),
        conversion_refusal(plan, value, doubles) is None,
        is_converted(plan, value, doubles, result),
    ensures
        logical_value_doc(result) == logical_value_doc(value),
{
    lemma_temporal_plan(plan, value, doubles, result);
    lemma_temporal_words_differ();
}

proof fn lemma_temporal_plan(
    plan: ColumnConversionPlan,
    value: LogicalValue,
    doubles: Seq<DoubleText>,
    result: LogicalValue,
)
    requires
        plan.target.parameters.value_of("range_kind"@) is None,
        plan.target.parameters.value_of("conversion_kind"@) == Some("temporal"@),
        conversion_refusal(plan, value, doubles) is None,
        is_converted(plan, value, doubles, result),
    ensures
        temporal_refusal(plan, value) is None,
        temporal_conversion_refusal(plan, value) is None,
        temporal_converted(plan, value, result),
{
    lemma_kinds_differ();
}

proof fn lemma_temporal_words_differ()
    ensures
        "local_datetime"@ != "instant"@,
        "local_datetime"@ != "duration"@,
        "instant"@ != "duration"@,
{
    reveal_strlit("local_datetime");
    reveal_strlit("instant");
    reveal_strlit("duration");
    assert("local_datetime"@.len() == 14 && "instant"@.len() == 7 && "duration"@.len() == 8);
}

proof fn lemma_whole_microseconds(nanoseconds: int, precision: nat)
    requires
        precision <= 6,
        nanoseconds % pow(10, (9 - precision) as nat) == 0,
    ensures
        nanoseconds % 1_000 == 0,
{
    let more = (6 - precision) as nat;
    reveal(pow);
    reveal_with_fuel(pow, 4);
    assert(pow(10, 3) == 1_000);
    lemma_pow_adds(10, 3, more);
    lemma_pow_positive(10, more);
    let q = pow(10, more);
    let k = nanoseconds / (1_000 * q);
    assert(nanoseconds == (1_000 * q) * k) by (nonlinear_arith)
        requires
            q > 0,
            nanoseconds % (1_000 * q) == 0,
            k == nanoseconds / (1_000 * q),
    ;
    assert((1_000 * q) * k == 1_000 * (q * k)) by (nonlinear_arith);
}

proof fn lemma_day_and_clock(seconds: int)
    ensures
        ({
            let clock = seconds % 86_400;
            &&& (seconds / 86_400) * 86_400 + clock == seconds
            &&& clock / 3_600 < 24 && (seconds % 3_600) / 60 < 60 && seconds % 60 < 60
            &&& (clock / 3_600) * 3_600 + ((seconds % 3_600) / 60) * 60 + seconds % 60 == clock
        }),
{
    let clock = seconds % 86_400;
    lemma_seconds_of_day(seconds);
    lemma_clock_of_day(clock);
}

proof fn lemma_clock_of_day(clock: int)
    requires
        0 <= clock < 86_400,
    ensures
        0 <= clock / 3_600 < 24,
        0 <= (clock % 3_600) / 60 < 60,
        0 <= clock % 60 < 60,
        (clock / 3_600) * 3_600 + ((clock % 3_600) / 60) * 60 + clock % 60 == clock,
{
}

// ---------------------------------------------------------------------------
// Numbers
// ---------------------------------------------------------------------------

/// A plan with a range takes a number only where it is one of those that the
/// target can hold, and only if it checks strictly; a range of another kind takes
/// nothing.
pub proof fn law_a_range_is_checked(plan: ColumnConversionPlan, value: LogicalValue, kind: Seq<char>)
    requires
        plan.target.parameters.value_of("range_kind"@) == Some(kind),
        value_refusal(plan, value) is None,
    ensures
        kind == "integer"@ || kind == "decimal"@ || kind == "float"@,
        plan.target.parameters.value_of("range_check"@) == Some("strict"@),
        kind == "decimal"@ || kind == "float"@ ==> plan.target.parameters.value_of(
            "rounding_mode"@,
        ) == Some("reject"@),
        kind == "integer"@ ==> {
            let p = plan.target.parameters;
            let width = unsigned(p.value_of("target_bits"@), 255)->0;
            &&& value matches LogicalValue::Integer { value: text, .. }
            &&& parse_signed(text@, i128::MIN as int, i128::MAX as int) matches Some(number)
            &&& flag(p.value_of("target_signed"@)) == Some(true) ==> -pow2((width - 1) as nat)
                <= number < pow2((width - 1) as nat)
            &&& flag(p.value_of("target_signed"@)) == Some(false) ==> 0 <= number < pow2(width)
        },
        kind == "decimal"@ ==> {
            let p = plan.target.parameters;
            let precision = unsigned(p.value_of("target_precision"@), usize::MAX as nat)->0;
            let target_scale = unsigned(p.value_of("target_scale"@), usize::MAX as nat)->0;
            &&& value matches LogicalValue::Decimal { unscaled, scale }
            &&& {
                let number = digits_value(without_sign(unscaled@)) as int;
                &&& (number * pow(10, target_scale)) % pow(10, scale as nat) == 0
                &&& number * pow(10, target_scale) < pow(10, precision) * pow(10, scale as nat)
            }
        },
        kind == "float"@ ==> value is Float,
{
    reveal_strlit("integer");
    reveal_strlit("decimal");
    reveal_strlit("float");
    assert("integer"@.len() == 7 && "decimal"@.len() == 7 && "float"@.len() == 5);
    assert("integer"@[0] != "decimal"@[0]);
    if kind == "integer"@ {
        law_a_taken_integer_is_in_the_range_of_its_target(plan, value);
    }
    if kind == "decimal"@ {
        law_a_taken_decimal_is_in_the_range_of_its_target(plan, value);
    }
}

/// A conversion that is not known takes nothing.
pub proof fn law_an_unknown_conversion_takes_nothing(
    plan: ColumnConversionPlan,
    value: LogicalValue,
    kind: Seq<char>,
)
    requires
        plan.target.parameters.value_of("range_kind"@) is None,
        plan.target.parameters.value_of("conversion_kind"@) == Some(kind),
        value_refusal(plan, value) is None,
    ensures
        kind == "binary"@ || kind == "bit_string"@ || kind == "spatial"@ || kind == "recursive"@
            || kind == "text"@ || kind == "json"@ || kind == "enum"@ || kind == "set"@ || kind
            == "temporal"@,
{
}

// ---------------------------------------------------------------------------
// Columns
// ---------------------------------------------------------------------------

proof fn lemma_plan_for(plans: Seq<ColumnConversionPlan>, lineage: Seq<char>)
    ensures
        plan_for(plans, lineage) matches Some(plan) ==> plans.contains(plan)
            && plan.source_field.lineage_id@ == lineage,
        plan_for(plans, lineage) is None ==> forall|i: int|
            0 <= i < plans.len() ==> (#[trigger] plans[i]).source_field.lineage_id@ != lineage,
    decreases plans.len(),
{
    if plans.len() > 0 {
        let rest = plans.drop_first();
        lemma_plan_for(rest, lineage);
        if plans[0].source_field.lineage_id@ == lineage {
            assert(plans.contains(plans[0]));
        } else if plan_for(rest, lineage) is Some {
            let plan = plan_for(rest, lineage)->0;
            let i = choose|i: int| 0 <= i < rest.len() && rest[i] == plan;
            assert(plans[i + 1] == plan);
        } else {
            assert forall|i: int| 0 <= i < plans.len() implies (
            #[trigger] plans[i]).source_field.lineage_id@ != lineage by {
                if i > 0 {
                    assert(plans[i] == rest[i - 1]);
                }
            }
        }
    }
}

/// A column is converted by a plan for its own table and name, and left alone
/// only where there is none, or where the column is generated. Only its datum
/// ever changes, null and unchanged data stay, and data that are not available
/// are refused.
pub proof fn law_a_column_is_converted_by_its_own_plan(
    plans: Seq<ColumnConversionPlan>,
    doubles: Seq<DoubleText>,
    schema: Seq<char>,
    table: Seq<char>,
    column: ColumnDatum,
    result: ColumnDatum,
)
    requires
        column_refusal(plans, doubles, schema, table, column) is None,
        column_converted(plans, doubles, schema, table, column, result),
    ensures
        result.name == column.name && result.ordinal == column.ordinal && result.native_type
            == column.native_type && result.generated == column.generated
            && result.primary_key_ordinal == column.primary_key_ordinal,
        column.datum is Null ==> result.datum is Null,
        column.datum is Unchanged ==> result.datum is Unchanged,
        result.datum is Value <==> column.datum is Value,
        column.generated ==> result.datum == column.datum,
        column_plan(plans, schema, table, column) matches Some(plan) ==> {
            &&& plans.contains(plan)
            &&& !column.generated && !(column.datum is Unavailable)
            &&& plan.source_field.lineage_id@ == "catalog:"@ + schema + "."@ + table + ("."@
                + column.name@)
            &&& column.datum matches Datum::Value(value) ==> conversion_refusal(
                plan,
                value,
                doubles,
            ) is None && is_converted(plan, value, doubles, result.datum->Value_0)
        },
        column_plan(plans, schema, table, column) is None ==> {
            &&& result.datum == column.datum
            &&& column.generated || forall|i: int|
                0 <= i < plans.len() ==> (#[trigger] plans[i]).source_field.lineage_id@
                    != "catalog:"@ + schema + "."@ + table + ("."@ + column.name@)
        },
{
    lemma_plan_for(plans, lineage_of(schema, table, column.name@));
}

/// A plan looks at values only: null and unchanged data are taken, data that are
/// not available never are.
pub proof fn law_only_values_are_looked_at(plan: ColumnConversionPlan, datum: Datum)
    ensures
        datum is Null || datum is Unchanged ==> datum_refusal(plan, datum) is None,
        datum is Unavailable ==> datum_refusal(plan, datum) is Some,
        datum matches Datum::Value(value) ==> datum_refusal(plan, datum) == value_refusal(
            plan,
            value,
        ),
{
}

} // verus!
