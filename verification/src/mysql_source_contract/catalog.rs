//! Every list of entries tells its entries apart.
use crate::change_event::compatibility::capability::{code_before, entries_fault, entry_fault};
use crate::change_event::compatibility::logical_type::{LengthUnit, LogicalType};
use crate::change_event::compatibility::types::{lemma_not_blank, CapabilityEntry};
use crate::json::{docs, Contract, Doc};
use crate::mysql_source_contract::codes::{
    charset_place, code_of, large_text_place, lemma_deliberate_offer, lemma_exact_offer,
    lemma_explicit_offer, lemma_five_words, lemma_four_words, lemma_join_told_apart,
    lemma_number_word, lemma_range_offer, lemma_spread_join, lemma_spread_one, lemma_spread_push,
    lemma_spread_tells_apart, lemma_spread_wider, lemma_three_words, lemma_two_words, native_of,
    place_of, placed, plain, spread, text_target_place, told_apart,
};
use crate::mysql_source_contract::offers::{
    all_integers, all_large_texts, binaries, binary_offers, bit_offers, bit_parameters, blob_offer,
    blobs, char_targets, chars, counted, counted_text, counted_texts, date_offer, dates_to_sets,
    decimal_native, decimal_offer, decimal_offers, decimal_range, decimal_suffix,
    deliberate_offer, exact_offer, float_offers, integer_offers, integer_range, integer_suffix,
    json_doc, json_text_options, large_text, large_texts, lengths, members_doc, scale_offers,
    signed_offers, sized, sized_binaries, sized_text_targets, sound_offer, sound_offers,
    structured_offers, temporal_offers,
    temporal_options, temporal_target, temporal_targets, text_doc, text_options,
    text_target_offers, text_targets, timed, timed_offers, timed_targets, unbounded_text,
    varchars, year_offer, Profile,
};
use crate::number::{decimal, lower_hex_digit};
use crate::parameters::with_parameter;
use vstd::prelude::*;

verus! {

// ---------------------------------------------------------------------------
// Numbers
// ---------------------------------------------------------------------------

/// Where the entries of an integer type begin.
pub open spec fn integer_start(signed: bool, bits: u8) -> int {
    8 * bits as int + if signed {
        0int
    } else {
        4int
    }
}

proof fn lemma_integer_label(signed: bool, bits: u8)
    ensures
        place_of("exact"@ + "."@ + integer_suffix(signed, bits)) == (
            1int,
            integer_start(signed, bits),
        ),
{
    reveal(place_of);
    reveal_strlit("exact");
    reveal_strlit("integer");
    reveal_strlit("integer.");
    reveal_strlit("signed");
    reveal_strlit("unsigned");
    reveal_strlit(".signed");
    reveal_strlit(".unsigned");
    reveal_strlit(".");
    let n = decimal(bits as nat);
    let sign = if signed {
        "signed"@
    } else {
        "unsigned"@
    };
    lemma_number_word(bits as nat);
    lemma_four_words("exact"@, "integer"@, n, sign);
    assert("exact"@ + "."@ + integer_suffix(signed, bits) =~= "exact"@ + "."@ + ("integer"@ + "."@
        + (n + "."@ + sign)));
}

proof fn lemma_displayed_label(signed: bool, bits: u8)
    ensures
        place_of("exact"@ + "."@ + (integer_suffix(signed, bits) + ".display_width_11"@)) == (
            1int,
            integer_start(signed, bits) + 1,
        ),
{
    reveal(place_of);
    reveal_strlit("exact");
    reveal_strlit("integer");
    reveal_strlit("integer.");
    reveal_strlit("signed");
    reveal_strlit("unsigned");
    reveal_strlit(".signed");
    reveal_strlit(".unsigned");
    reveal_strlit("display_width_11");
    reveal_strlit(".display_width_11");
    reveal_strlit(".");
    let n = decimal(bits as nat);
    let sign = if signed {
        "signed"@
    } else {
        "unsigned"@
    };
    lemma_number_word(bits as nat);
    lemma_five_words("exact"@, "integer"@, n, sign, "display_width_11"@);
    assert("exact"@ + "."@ + (integer_suffix(signed, bits) + ".display_width_11"@) =~= "exact"@
        + "."@ + ("integer"@ + "."@ + (n + "."@ + (sign + "."@ + "display_width_11"@))));
}

proof fn lemma_domain_label(signed: bool, bits: u8)
    ensures
        place_of("range_checked"@ + "."@ + (integer_suffix(signed, bits) + ".domain"@)) == (
            1int,
            integer_start(signed, bits) + 2,
        ),
{
    reveal(place_of);
    reveal_strlit("range_checked");
    reveal_strlit("integer");
    reveal_strlit("integer.");
    reveal_strlit("signed");
    reveal_strlit("unsigned");
    reveal_strlit(".signed");
    reveal_strlit(".unsigned");
    reveal_strlit("domain");
    reveal_strlit(".domain");
    reveal_strlit(".");
    let n = decimal(bits as nat);
    let sign = if signed {
        "signed"@
    } else {
        "unsigned"@
    };
    lemma_number_word(bits as nat);
    lemma_five_words("range_checked"@, "integer"@, n, sign, "domain"@);
    assert("range_checked"@ + "."@ + (integer_suffix(signed, bits) + ".domain"@)
        =~= "range_checked"@ + "."@ + ("integer"@ + "."@ + (n + "."@ + (sign + "."@
        + "domain"@))));
}

proof fn lemma_signed_offers(p: Profile<'_>, signed: bool, bits: u8, native: Seq<char>)
    requires
        native.len() > 0,
        'a' <= native[0] <= 'z',
    ensures
        spread(
            p,
            signed_offers(p, signed, bits, native),
            1,
            integer_start(signed, bits),
            integer_start(signed, bits) + 3,
        ),
{
    let logical = (LogicalType::Integer { signed, bits }).doc();
    let any = (LogicalType::Integer { signed: true, bits: 0 }).doc();
    let suffix = integer_suffix(signed, bits);
    let at = integer_start(signed, bits);
    let target = if signed {
        native
    } else {
        native + " unsigned"@
    };
    let displayed = if signed {
        native + "(11)"@
    } else {
        native + "(11) unsigned"@
    };
    lemma_integer_label(signed, bits);
    lemma_displayed_label(signed, bits);
    lemma_domain_label(signed, bits);
    lemma_exact_offer(p, logical, target, Seq::empty(), suffix, "v1"@, 1, at);
    lemma_exact_offer(
        p,
        logical,
        displayed,
        Seq::empty(),
        suffix + ".display_width_11"@,
        "v1"@,
        1,
        at + 1,
    );
    lemma_range_offer(
        p,
        any,
        target,
        integer_range(signed, bits),
        suffix + ".domain"@,
        1,
        at + 2,
    );
}

proof fn lemma_integer_offers(p: Profile<'_>, bits: u8, native: Seq<char>)
    requires
        native.len() > 0,
        'a' <= native[0] <= 'z',
    ensures
        spread(p, integer_offers(p, bits, native), 1, 8 * bits as int, 8 * bits as int + 8),
{
    let at = 8 * bits as int;
    lemma_signed_offers(p, true, bits, native);
    lemma_signed_offers(p, false, bits, native);
    lemma_spread_wider(p, signed_offers(p, true, bits, native), 1, at, at + 3, at, at + 4);
    lemma_spread_wider(p, signed_offers(p, false, bits, native), 1, at + 4, at + 7, at + 4, at + 8);
    lemma_spread_join(
        p,
        signed_offers(p, true, bits, native),
        signed_offers(p, false, bits, native),
        1,
        at,
        at + 4,
        at + 8,
    );
}

pub proof fn lemma_all_integers(p: Profile<'_>)
    ensures
        spread(p, all_integers(p), 1, 0, 520),
{
    reveal_strlit("tinyint");
    reveal_strlit("smallint");
    reveal_strlit("mediumint");
    reveal_strlit("int");
    reveal_strlit("bigint");
    let a = integer_offers(p, 8, "tinyint"@);
    let b = integer_offers(p, 16, "smallint"@);
    let c = integer_offers(p, 24, "mediumint"@);
    let d = integer_offers(p, 32, "int"@);
    let e = integer_offers(p, 64, "bigint"@);
    lemma_integer_offers(p, 8, "tinyint"@);
    lemma_integer_offers(p, 16, "smallint"@);
    lemma_integer_offers(p, 24, "mediumint"@);
    lemma_integer_offers(p, 32, "int"@);
    lemma_integer_offers(p, 64, "bigint"@);
    lemma_spread_wider(p, a, 1, 64, 72, 0, 128);
    lemma_spread_wider(p, b, 1, 128, 136, 128, 192);
    lemma_spread_wider(p, c, 1, 192, 200, 192, 256);
    lemma_spread_wider(p, d, 1, 256, 264, 256, 512);
    lemma_spread_join(p, a, b, 1, 0, 128, 192);
    lemma_spread_join(p, a + b, c, 1, 0, 192, 256);
    lemma_spread_join(p, a + b + c, d, 1, 0, 256, 512);
    lemma_spread_join(p, a + b + c + d, e, 1, 0, 512, 520);
}

/// The list of the decimal entries.
pub open spec fn decimal_list(ranged: bool) -> int {
    if ranged {
        4
    } else {
        2
    }
}

proof fn lemma_decimal_offer(p: Profile<'_>, ranged: bool, precision: u16, scale: u16)
    ensures
        placed(
            p,
            decimal_offer(p, ranged, precision, scale),
            decimal_list(ranged),
            100 * precision as int + scale as int,
        ),
{
    reveal(place_of);
    reveal_strlit("exact");
    reveal_strlit("range_checked");
    reveal_strlit("decimal");
    reveal_strlit("decimal.");
    reveal_strlit("decimal(");
    reveal_strlit(".");
    let m = decimal(precision as nat);
    let n = decimal(scale as nat);
    let native = decimal_native(precision as nat, scale as nat);
    let suffix = decimal_suffix(precision as nat, scale as nat);
    let number = 100 * precision as int + scale as int;
    lemma_number_word(precision as nat);
    lemma_number_word(scale as nat);
    assert(plain("exact"@) && plain("range_checked"@) && plain("decimal"@));
    if ranged {
        lemma_four_words("range_checked"@, "decimal"@, m, n);
        assert("range_checked"@ + "."@ + suffix =~= "range_checked"@ + "."@ + ("decimal"@ + "."@
            + (m + "."@ + n)));
        lemma_range_offer(
            p,
            (LogicalType::Decimal { precision: 0, scale: 0 }).doc(),
            native,
            decimal_range(precision as nat, scale as nat),
            suffix,
            4,
            number,
        );
    } else {
        lemma_four_words("exact"@, "decimal"@, m, n);
        assert("exact"@ + "."@ + suffix =~= "exact"@ + "."@ + ("decimal"@ + "."@ + (m + "."@ + n)));
        lemma_exact_offer(
            p,
            (LogicalType::Decimal { precision, scale: scale as i32 }).doc(),
            native,
            Seq::empty(),
            suffix,
            "v1"@,
            2,
            number,
        );
    }
}

proof fn lemma_scale_offers(p: Profile<'_>, ranged: bool, precision: int, count: int)
    requires
        0 <= precision <= 65,
        0 <= count <= 31,
    ensures
        spread(
            p,
            scale_offers(p, ranged, precision, count),
            decimal_list(ranged),
            100 * precision,
            100 * precision + count,
        ),
    decreases count,
{
    if count > 0 {
        lemma_scale_offers(p, ranged, precision, count - 1);
        lemma_decimal_offer(p, ranged, precision as u16, (count - 1) as u16);
        lemma_spread_push(
            p,
            scale_offers(p, ranged, precision, count - 1),
            decimal_offer(p, ranged, precision as u16, (count - 1) as u16),
            decimal_list(ranged),
            100 * precision,
            100 * precision + count - 1,
        );
    }
}

pub proof fn lemma_decimal_offers(p: Profile<'_>, ranged: bool, precision: int)
    requires
        0 <= precision <= 65,
    ensures
        spread(
            p,
            decimal_offers(p, ranged, precision),
            decimal_list(ranged),
            0,
            100 * precision + 100,
        ),
    decreases precision,
{
    if precision > 0 {
        let count: int = if precision < 30 {
            precision + 1
        } else {
            31
        };
        lemma_decimal_offers(p, ranged, precision - 1);
        lemma_scale_offers(p, ranged, precision, count);
        lemma_spread_wider(
            p,
            scale_offers(p, ranged, precision, count),
            decimal_list(ranged),
            100 * precision,
            100 * precision + count,
            100 * precision,
            100 * precision + 100,
        );
        lemma_spread_join(
            p,
            decimal_offers(p, ranged, precision - 1),
            scale_offers(p, ranged, precision, count),
            decimal_list(ranged),
            0,
            100 * precision,
            100 * precision + 100,
        );
    }
}

pub proof fn lemma_float_offers(p: Profile<'_>)
    ensures
        spread(p, float_offers(p), 3, 0, 3),
{
    reveal(place_of);
    reveal_strlit("exact");
    reveal_strlit("range_checked");
    reveal_strlit("float");
    reveal_strlit("double");
    reveal_strlit("float.32");
    reveal_strlit("float.64");
    reveal_strlit("float.64_to_32");
    reveal_strlit("32");
    reveal_strlit("64");
    reveal_strlit("64_to_32");
    reveal_strlit(".");
    let single = (LogicalType::Float { bits: 32 }).doc();
    let double = (LogicalType::Float { bits: 64 }).doc();
    let any = (LogicalType::Float { bits: 0 }).doc();
    let e = with_parameter(
        with_parameter(Seq::empty(), "range_kind"@, "float"@),
        "target_bits"@,
        "32"@,
    );
    assert(plain("exact"@) && plain("range_checked"@) && plain("float"@) && plain("32"@) && plain(
        "64"@,
    ) && plain("64_to_32"@));
    lemma_three_words("exact"@, "float"@, "32"@);
    lemma_three_words("exact"@, "float"@, "64"@);
    lemma_three_words("range_checked"@, "float"@, "64_to_32"@);
    assert("float.32"@ =~= "float"@ + "."@ + "32"@);
    assert("float.64"@ =~= "float"@ + "."@ + "64"@);
    assert("float.64_to_32"@ =~= "float"@ + "."@ + "64_to_32"@);
    lemma_exact_offer(p, single, "float"@, Seq::empty(), "float.32"@, "v1"@, 3, 0);
    lemma_exact_offer(p, double, "double"@, Seq::empty(), "float.64"@, "v1"@, 3, 1);
    lemma_range_offer(p, any, "float"@, e, "float.64_to_32"@, 3, 2);
}

// ---------------------------------------------------------------------------
// Text
// ---------------------------------------------------------------------------

/// Lengths that become larger.
pub open spec fn increasing(lengths: Seq<u64>) -> bool {
    forall|i: int, j: int|
        #![trigger lengths[i], lengths[j]]
        0 <= i < j < lengths.len() ==> lengths[i] < lengths[j]
}

/// One more than the last length.
pub open spec fn length_end(lengths: Seq<u64>) -> int {
    if lengths.len() == 0 {
        0
    } else {
        lengths.last() as int + 1
    }
}

proof fn lemma_counted(count: int)
    requires
        0 <= count <= 255,
    ensures
        counted(count).len() == count,
        forall|i: int| 0 <= i < count ==> #[trigger] counted(count)[i] == i + 1,
        increasing(counted(count)),
    decreases count,
{
    if count > 0 {
        lemma_counted(count - 1);
    }
}

proof fn lemma_lengths()
    ensures
        increasing(lengths()),
        length_end(lengths()) == 65_536,
{
    lemma_counted(255);
    let more = seq![256u64, 512, 1024, 2048, 4096, 8192, 16_383, 32_767, 65_535];
    assert forall|i: int, j: int|
        #![trigger lengths()[i], lengths()[j]]
        0 <= i < j < lengths().len() implies lengths()[i] < lengths()[j] by {
        if j < 255 {
            assert(counted(255)[i] < counted(255)[j]);
        } else if i < 255 {
            assert(counted(255)[i] <= 255 && more[j - 255] >= 256);
        } else {
            assert(more[i - 255] < more[j - 255]);
        }
    }
}

/// The name of a text type with a length.
pub open spec fn counted_name(name: Seq<char>) -> bool {
    plain(name) && (name.len() == 7 && name[0] == 'v' || name.len() == 4 && name[0] == 'c')
}

/// The list of text entries with a length.
pub open spec fn counted_list(name: Seq<char>, charset: Seq<char>) -> int {
    charset_place(charset) + if name.len() == 7 {
        10int
    } else {
        20int
    }
}

proof fn lemma_counted_text(p: Profile<'_>, name: Seq<char>, charset: Seq<char>, length: u64)
    requires
        counted_name(name),
        plain(charset),
        charset.len() > 0,
    ensures
        placed(
            p,
            counted_text(p, name, charset, length),
            counted_list(name, charset),
            length as int,
        ),
{
    reveal(place_of);
    reveal_strlit("exact");
    reveal_strlit("text");
    reveal_strlit("text.");
    reveal_strlit("(");
    reveal_strlit(".");
    let n = decimal(length as nat);
    let suffix = "text."@ + charset + "."@ + name + "."@ + n;
    lemma_number_word(length as nat);
    lemma_five_words("exact"@, "text"@, charset, name, n);
    assert("exact"@ + "."@ + suffix =~= "exact"@ + "."@ + ("text"@ + "."@ + (charset + "."@ + (name
        + "."@ + n))));
    lemma_exact_offer(
        p,
        text_doc(charset, Some(length), LengthUnit::Characters),
        sized(name, length as nat),
        Seq::empty(),
        suffix,
        "v1"@,
        counted_list(name, charset),
        length as int,
    );
}

proof fn lemma_counted_texts(
    p: Profile<'_>,
    name: Seq<char>,
    charset: Seq<char>,
    lengths: Seq<u64>,
)
    requires
        counted_name(name),
        plain(charset),
        charset.len() > 0,
        increasing(lengths),
    ensures
        spread(
            p,
            counted_texts(p, name, charset, lengths),
            counted_list(name, charset),
            0,
            length_end(lengths),
        ),
    decreases lengths.len(),
{
    if lengths.len() > 0 {
        let front = lengths.drop_last();
        let list = counted_list(name, charset);
        let at = lengths.last() as int;
        assert(increasing(front)) by {
            assert forall|i: int, j: int|
                #![trigger front[i], front[j]]
                0 <= i < j < front.len() implies front[i] < front[j] by {
                assert(lengths[i] < lengths[j]);
            }
        }
        assert(length_end(front) <= at) by {
            if front.len() > 0 {
                assert(lengths[front.len() - 1] < lengths[lengths.len() - 1]);
            }
        }
        lemma_counted_texts(p, name, charset, front);
        lemma_counted_text(p, name, charset, lengths.last());
        lemma_spread_wider(
            p,
            counted_texts(p, name, charset, front),
            list,
            0,
            length_end(front),
            0,
            at,
        );
        lemma_spread_push(
            p,
            counted_texts(p, name, charset, front),
            counted_text(p, name, charset, lengths.last()),
            list,
            0,
            at,
        );
    }
}

pub proof fn lemma_varchars(p: Profile<'_>, charset: Seq<char>)
    requires
        plain(charset),
        charset.len() > 0,
    ensures
        spread(p, varchars(p, charset), 10 + charset_place(charset), 0, 65_536),
{
    reveal_strlit("varchar");
    lemma_lengths();
    lemma_counted_texts(p, "varchar"@, charset, lengths());
}

pub proof fn lemma_chars(p: Profile<'_>, charset: Seq<char>)
    requires
        plain(charset),
        charset.len() > 0,
    ensures
        spread(p, chars(p, charset), 20 + charset_place(charset), 0, 256),
{
    reveal_strlit("char");
    lemma_counted(255);
    lemma_counted_texts(p, "char"@, charset, counted(255));
}

/// The character sets come in the order of their places.
pub open spec fn ordered_charsets(charsets: Seq<&str>) -> bool {
    forall|i: int|
        0 <= i < charsets.len() ==> plain((#[trigger] charsets[i])@) && charsets[i]@.len() > 0
            && charset_place(charsets[i]@) == i
}

/// The name of a text type without a length.
pub open spec fn large_name(native: Seq<char>) -> bool {
    &&& plain(native)
    &&& native.len() == 8 || native.len() == 4 || native.len() == 10
    &&& native[0] == 't' || native[0] == 'm' || native[0] == 'l'
}

proof fn lemma_large_text(p: Profile<'_>, native: Seq<char>, length: u64, charset: Seq<char>)
    requires
        large_name(native),
        plain(charset),
        charset.len() > 0,
    ensures
        placed(
            p,
            large_text(p, native, length, charset),
            30 + large_text_place(native),
            charset_place(charset),
        ),
{
    reveal(place_of);
    reveal_strlit("exact");
    reveal_strlit("text");
    reveal_strlit("text.");
    reveal_strlit(".");
    let suffix = "text."@ + charset + "."@ + native;
    lemma_four_words("exact"@, "text"@, charset, native);
    assert("exact"@ + "."@ + suffix =~= "exact"@ + "."@ + ("text"@ + "."@ + (charset + "."@
        + native)));
    lemma_exact_offer(
        p,
        text_doc(charset, Some(length), LengthUnit::Bytes),
        native,
        Seq::empty(),
        suffix,
        "v1"@,
        30 + large_text_place(native),
        charset_place(charset),
    );
}

proof fn lemma_large_texts(p: Profile<'_>, native: Seq<char>, length: u64, charsets: Seq<&str>)
    requires
        large_name(native),
        ordered_charsets(charsets),
    ensures
        spread(
            p,
            large_texts(p, native, length, charsets),
            30 + large_text_place(native),
            0,
            charsets.len() as int,
        ),
    decreases charsets.len(),
{
    if charsets.len() > 0 {
        let front = charsets.drop_last();
        assert(ordered_charsets(front)) by {
            assert forall|i: int| 0 <= i < front.len() implies plain((#[trigger] front[i])@)
                && front[i]@.len() > 0 && charset_place(front[i]@) == i by {
                assert(front[i] == charsets[i]);
            }
        }
        assert(charsets[charsets.len() - 1] == charsets.last());
        lemma_large_texts(p, native, length, front);
        lemma_large_text(p, native, length, charsets.last()@);
        lemma_spread_push(
            p,
            large_texts(p, native, length, front),
            large_text(p, native, length, charsets.last()@),
            30 + large_text_place(native),
            0,
            front.len() as int,
        );
    }
}

pub proof fn lemma_all_large_texts(p: Profile<'_>, charsets: Seq<&str>)
    requires
        ordered_charsets(charsets),
    ensures
        told_apart(p, all_large_texts(p, charsets), set![30int, 31int, 32int, 33int]),
{
    reveal_strlit("tinytext");
    reveal_strlit("text");
    reveal_strlit("mediumtext");
    reveal_strlit("longtext");
    let n = charsets.len() as int;
    let a = large_texts(p, "tinytext"@, 255, charsets);
    let b = large_texts(p, "text"@, 65_535, charsets);
    let c = large_texts(p, "mediumtext"@, 16_777_215, charsets);
    let d = large_texts(p, "longtext"@, 4_294_967_295, charsets);
    lemma_large_texts(p, "tinytext"@, 255, charsets);
    lemma_large_texts(p, "text"@, 65_535, charsets);
    lemma_large_texts(p, "mediumtext"@, 16_777_215, charsets);
    lemma_large_texts(p, "longtext"@, 4_294_967_295, charsets);
    lemma_spread_tells_apart(p, a, 30, 0, n);
    lemma_spread_tells_apart(p, b, 31, 0, n);
    lemma_spread_tells_apart(p, c, 32, 0, n);
    lemma_spread_tells_apart(p, d, 33, 0, n);
    lemma_join_told_apart(p, a, b, set![30int], set![31int]);
    lemma_join_told_apart(p, a + b, c, set![30int].union(set![31int]), set![32int]);
    lemma_join_told_apart(
        p,
        a + b + c,
        d,
        set![30int].union(set![31int]).union(set![32int]),
        set![33int],
    );
    assert(set![30int].union(set![31int]).union(set![32int]).union(set![33int]) =~= set![
        30int,
        31int,
        32int,
        33int,
    ]);
}

pub proof fn lemma_unbounded_text(p: Profile<'_>)
    ensures
        spread(p, seq![unbounded_text(p)], 35, 0, 1),
{
    reveal(place_of);
    reveal_strlit("exact");
    reveal_strlit("text");
    reveal_strlit("UTF8");
    reveal_strlit("longtext");
    reveal_strlit("unbounded");
    reveal_strlit("text.UTF8.longtext.unbounded");
    reveal_strlit(".");
    lemma_five_words("exact"@, "text"@, "UTF8"@, "longtext"@, "unbounded"@);
    assert("text.UTF8.longtext.unbounded"@ =~= "text"@ + "."@ + ("UTF8"@ + "."@ + ("longtext"@ + "."@
        + "unbounded"@)));
    lemma_exact_offer(
        p,
        text_doc("UTF8"@, None, LengthUnit::Characters),
        "longtext"@,
        Seq::empty(),
        "text.UTF8.longtext.unbounded"@,
        "v1"@,
        35,
        0,
    );
    lemma_spread_one(p, unbounded_text(p), 35, 0);
}

proof fn lemma_text_target(p: Profile<'_>, native: Seq<char>)
    requires
        plain(native),
        native.len() > 0,
        'a' <= native[0] <= 'z',
    ensures
        spread(
            p,
            text_target_offers(p, native),
            text_target_place(native, 0).0,
            text_target_place(native, 0).1,
            text_target_place(native, 0).1 + 2,
        ),
{
    let (list, number) = text_target_place(native, 0);
    assert(place_of("explicit"@ + "."@ + ("text."@ + native)) == (list, number)) by {
        reveal(place_of);
        reveal_strlit("explicit");
        reveal_strlit("text");
        reveal_strlit("text.");
        reveal_strlit(".");
        lemma_three_words("explicit"@, "text"@, native);
        assert("text."@ + native =~= "text"@ + "."@ + native);
    }
    assert(place_of("explicit"@ + "."@ + ("json_text."@ + native)) == (list, number + 1)) by {
        reveal(place_of);
        reveal_strlit("explicit");
        reveal_strlit("json_text");
        reveal_strlit("json_text.");
        reveal_strlit(".");
        lemma_three_words("explicit"@, "json_text"@, native);
        assert("json_text."@ + native =~= "json_text"@ + "."@ + native);
    }
    lemma_explicit_offer(
        p,
        text_doc("*"@, None, LengthUnit::Bytes),
        native,
        with_parameter(Seq::empty(), "conversion_kind"@, "text"@),
        "text."@ + native,
        text_options(),
        list,
        number,
    );
    lemma_explicit_offer(
        p,
        json_doc(),
        native,
        with_parameter(
            with_parameter(Seq::empty(), "conversion_kind"@, "json"@),
            "json_strategy"@,
            "normalized_text"@,
        ),
        "json_text."@ + native,
        json_text_options(),
        list,
        number + 1,
    );
}

/// The list of text types with a length that values are converted to.
pub open spec fn sized_list(name: Seq<char>) -> int {
    if name.len() == 7 {
        60
    } else {
        62
    }
}

proof fn lemma_sized_native(name: Seq<char>, length: u64)
    requires
        counted_name(name),
    ensures
        plain(sized(name, length as nat)),
        text_target_place(sized(name, length as nat), 0) == (sized_list(name), 2 * length as int),
{
    reveal_strlit("(");
    reveal_strlit(")");
    let n = decimal(length as nat);
    let native = sized(name, length as nat);
    lemma_number_word(length as nat);
    assert forall|i: int| 0 <= i < native.len() implies #[trigger] native[i] != '.' by {
        if i < name.len() {
            assert(native[i] == name[i]);
        } else if name.len() + 1 <= i < name.len() + 1 + n.len() {
            assert(native[i] == n[i - name.len() - 1]);
        }
    }
    assert(native.skip(name.len() as int + 1).drop_last() =~= n);
}

proof fn lemma_sized_text_targets(p: Profile<'_>, name: Seq<char>, lengths: Seq<u64>)
    requires
        counted_name(name),
        increasing(lengths),
    ensures
        spread(
            p,
            sized_text_targets(p, name, lengths),
            sized_list(name),
            0,
            2 * length_end(lengths),
        ),
    decreases lengths.len(),
{
    if lengths.len() > 0 {
        let front = lengths.drop_last();
        let list = sized_list(name);
        let at = 2 * lengths.last() as int;
        let native = sized(name, lengths.last() as nat);
        assert(increasing(front)) by {
            assert forall|i: int, j: int|
                #![trigger front[i], front[j]]
                0 <= i < j < front.len() implies front[i] < front[j] by {
                assert(lengths[i] < lengths[j]);
            }
        }
        assert(2 * length_end(front) <= at) by {
            if front.len() > 0 {
                assert(lengths[front.len() - 1] < lengths[lengths.len() - 1]);
            }
        }
        lemma_sized_text_targets(p, name, front);
        lemma_sized_native(name, lengths.last());
        lemma_text_target(p, native);
        lemma_spread_wider(
            p,
            sized_text_targets(p, name, front),
            list,
            0,
            2 * length_end(front),
            0,
            at,
        );
        lemma_spread_join(
            p,
            sized_text_targets(p, name, front),
            text_target_offers(p, native),
            list,
            0,
            at,
            at + 2,
        );
    }
}

pub proof fn lemma_text_targets(p: Profile<'_>)
    ensures
        told_apart(p, text_targets(p), set![60int, 61int]),
{
    reveal_strlit("varchar");
    reveal_strlit("tinytext");
    reveal_strlit("text");
    reveal_strlit("mediumtext");
    reveal_strlit("longtext");
    let a = sized_text_targets(p, "varchar"@, lengths());
    let b = text_target_offers(p, "tinytext"@);
    let c = text_target_offers(p, "text"@);
    let d = text_target_offers(p, "mediumtext"@);
    let e = text_target_offers(p, "longtext"@);
    lemma_lengths();
    lemma_sized_text_targets(p, "varchar"@, lengths());
    lemma_text_target(p, "tinytext"@);
    lemma_text_target(p, "text"@);
    lemma_text_target(p, "mediumtext"@);
    lemma_text_target(p, "longtext"@);
    lemma_spread_join(p, b, c, 61, 0, 2, 4);
    lemma_spread_join(p, b + c, d, 61, 0, 4, 6);
    lemma_spread_join(p, b + c + d, e, 61, 0, 6, 8);
    lemma_spread_tells_apart(p, a, 60, 0, 131_072);
    lemma_spread_tells_apart(p, b + c + d + e, 61, 0, 8);
    lemma_join_told_apart(p, a, b + c + d + e, set![60int], set![61int]);
    assert(text_targets(p) =~= a + (b + c + d + e));
    assert(set![60int].union(set![61int]) =~= set![60int, 61int]);
}

pub proof fn lemma_char_targets(p: Profile<'_>)
    ensures
        spread(p, char_targets(p), 62, 0, 512),
{
    reveal_strlit("char");
    lemma_counted(255);
    lemma_sized_text_targets(p, "char"@, counted(255));
}

// ---------------------------------------------------------------------------
// Bytes and bits
// ---------------------------------------------------------------------------

proof fn lemma_binary_offers(p: Profile<'_>, length: u64)
    ensures
        spread(p, binary_offers(p, length), 41, 2 * length as int, 2 * length as int + 2),
{
    let n = decimal(length as nat);
    let at = 2 * length as int;
    let logical = (LogicalType::Binary { max_length: Some(length) }).doc();
    reveal_strlit("varbinary");
    reveal_strlit("binary");
    lemma_number_word(length as nat);
    assert(place_of("exact"@ + "."@ + ("binary.varbinary."@ + n)) == (41int, at)) by {
        reveal(place_of);
        reveal_strlit("exact");
        reveal_strlit("binary.varbinary.");
        reveal_strlit(".");
        lemma_four_words("exact"@, "binary"@, "varbinary"@, n);
        assert("binary.varbinary."@ + n =~= "binary"@ + "."@ + ("varbinary"@ + "."@ + n));
    }
    assert(place_of("exact"@ + "."@ + ("binary.fixed."@ + n)) == (41int, at + 1)) by {
        reveal(place_of);
        reveal_strlit("exact");
        reveal_strlit("fixed");
        reveal_strlit("binary.fixed.");
        reveal_strlit(".");
        lemma_four_words("exact"@, "binary"@, "fixed"@, n);
        assert("binary.fixed."@ + n =~= "binary"@ + "."@ + ("fixed"@ + "."@ + n));
    }
    lemma_exact_offer(
        p,
        logical,
        sized("varbinary"@, length as nat),
        Seq::empty(),
        "binary.varbinary."@ + n,
        "v1"@,
        41,
        at,
    );
    lemma_exact_offer(
        p,
        logical,
        sized("binary"@, length as nat),
        Seq::empty(),
        "binary.fixed."@ + n,
        "v1"@,
        41,
        at + 1,
    );
}

proof fn lemma_sized_binaries(p: Profile<'_>, lengths: Seq<u64>)
    requires
        increasing(lengths),
    ensures
        spread(p, sized_binaries(p, lengths), 41, 0, 2 * length_end(lengths)),
    decreases lengths.len(),
{
    if lengths.len() > 0 {
        let front = lengths.drop_last();
        let at = 2 * lengths.last() as int;
        assert(increasing(front)) by {
            assert forall|i: int, j: int|
                #![trigger front[i], front[j]]
                0 <= i < j < front.len() implies front[i] < front[j] by {
                assert(lengths[i] < lengths[j]);
            }
        }
        assert(2 * length_end(front) <= at) by {
            if front.len() > 0 {
                assert(lengths[front.len() - 1] < lengths[lengths.len() - 1]);
            }
        }
        lemma_sized_binaries(p, front);
        lemma_binary_offers(p, lengths.last());
        lemma_spread_wider(p, sized_binaries(p, front), 41, 0, 2 * length_end(front), 0, at);
        lemma_spread_join(
            p,
            sized_binaries(p, front),
            binary_offers(p, lengths.last()),
            41,
            0,
            at,
            at + 2,
        );
    }
}

pub proof fn lemma_binaries(p: Profile<'_>)
    ensures
        spread(p, binaries(p), 41, 0, 131_072),
{
    lemma_lengths();
    lemma_sized_binaries(p, lengths());
}

/// The place of a type of bytes without a length.
pub open spec fn blob_place(native: Seq<char>) -> int {
    if native.len() == 4 {
        1
    } else if native.len() == 10 {
        2
    } else if native[0] == 't' {
        0
    } else {
        3
    }
}

proof fn lemma_blob_offer(p: Profile<'_>, native: Seq<char>, length: u64)
    requires
        plain(native),
        native.len() == 8 || native.len() == 4 || native.len() == 10,
        'a' <= native[0] <= 'z',
    ensures
        placed(p, blob_offer(p, native, length), 42, blob_place(native)),
{
    reveal(place_of);
    reveal_strlit("exact");
    reveal_strlit("binary");
    reveal_strlit("binary.");
    reveal_strlit(".");
    lemma_three_words("exact"@, "binary"@, native);
    assert("binary."@ + native =~= "binary"@ + "."@ + native);
    lemma_exact_offer(
        p,
        (LogicalType::Binary { max_length: Some(length) }).doc(),
        native,
        Seq::empty(),
        "binary."@ + native,
        "v1"@,
        42,
        blob_place(native),
    );
}

pub proof fn lemma_blobs(p: Profile<'_>)
    ensures
        spread(p, blobs(p), 42, 0, 4),
{
    reveal_strlit("tinyblob");
    reveal_strlit("blob");
    reveal_strlit("mediumblob");
    reveal_strlit("longblob");
    lemma_blob_offer(p, "tinyblob"@, 255);
    lemma_blob_offer(p, "blob"@, 65_535);
    lemma_blob_offer(p, "mediumblob"@, 16_777_215);
    lemma_blob_offer(p, "longblob"@, 4_294_967_295);
}

pub proof fn lemma_bit_offers(p: Profile<'_>, length: int)
    requires
        0 <= length <= 64,
    ensures
        spread(p, bit_offers(p, length), 40, 0, length + 1),
    decreases length,
{
    if length > 0 {
        let n = decimal(length as nat);
        let logical = (LogicalType::BitString { length: length as u64 }).doc();
        let entry = exact_offer(
            p,
            logical,
            sized("bit"@, length as nat),
            bit_parameters(length as u64),
            "bit."@ + n,
            "v1"@,
        );
        lemma_bit_offers(p, length - 1);
        lemma_number_word(length as nat);
        reveal_strlit("bit");
        assert(place_of("exact"@ + "."@ + ("bit."@ + n)) == (40int, length)) by {
            reveal(place_of);
            reveal_strlit("exact");
            reveal_strlit("bit.");
            reveal_strlit(".");
            lemma_three_words("exact"@, "bit"@, n);
            assert("bit."@ + n =~= "bit"@ + "."@ + n);
        }
        lemma_exact_offer(
            p,
            logical,
            sized("bit"@, length as nat),
            bit_parameters(length as u64),
            "bit."@ + n,
            "v1"@,
            40,
            length,
        );
        lemma_spread_push(p, bit_offers(p, length - 1), entry, 40, 0, length);
    }
}

// ---------------------------------------------------------------------------
// Times
// ---------------------------------------------------------------------------

proof fn lemma_timed_offers(p: Profile<'_>, precision: u8)
    ensures
        spread(p, timed_offers(p, precision), 51, 3 * precision as int, 3 * precision as int + 3),
{
    let n = decimal(precision as nat);
    let at = 3 * precision as int;
    lemma_number_word(precision as nat);
    reveal_strlit("datetime");
    reveal_strlit("timestamp");
    reveal_strlit("time");
    assert(place_of("exact"@ + "."@ + ("local_datetime."@ + n)) == (51int, at)) by {
        reveal(place_of);
        reveal_strlit("exact");
        reveal_strlit("local_datetime");
        reveal_strlit("local_datetime.");
        reveal_strlit(".");
        lemma_three_words("exact"@, "local_datetime"@, n);
        assert("local_datetime."@ + n =~= "local_datetime"@ + "."@ + n);
    }
    assert(place_of("exact"@ + "."@ + ("instant."@ + n)) == (51int, at + 1)) by {
        reveal(place_of);
        reveal_strlit("exact");
        reveal_strlit("instant");
        reveal_strlit("instant.");
        reveal_strlit(".");
        lemma_three_words("exact"@, "instant"@, n);
        assert("instant."@ + n =~= "instant"@ + "."@ + n);
    }
    assert(place_of("exact"@ + "."@ + ("duration."@ + n)) == (51int, at + 2)) by {
        reveal(place_of);
        reveal_strlit("exact");
        reveal_strlit("duration");
        reveal_strlit("duration.");
        reveal_strlit(".");
        lemma_three_words("exact"@, "duration"@, n);
        assert("duration."@ + n =~= "duration"@ + "."@ + n);
    }
    lemma_exact_offer(
        p,
        (LogicalType::LocalDatetime { fractional_precision: precision }).doc(),
        timed("datetime"@, precision),
        Seq::empty(),
        "local_datetime."@ + n,
        "v1"@,
        51,
        at,
    );
    lemma_exact_offer(
        p,
        (LogicalType::Instant { fractional_precision: precision }).doc(),
        timed("timestamp"@, precision),
        Seq::empty(),
        "instant."@ + n,
        "v1"@,
        51,
        at + 1,
    );
    lemma_exact_offer(
        p,
        (LogicalType::Duration { fractional_precision: precision }).doc(),
        timed("time"@, precision),
        Seq::empty(),
        "duration."@ + n,
        "v1"@,
        51,
        at + 2,
    );
}

proof fn lemma_temporal_offers(p: Profile<'_>, count: int)
    requires
        0 <= count <= 7,
    ensures
        spread(p, temporal_offers(p, count), 51, 0, 3 * count),
    decreases count,
{
    if count > 0 {
        lemma_temporal_offers(p, count - 1);
        lemma_timed_offers(p, (count - 1) as u8);
        lemma_spread_join(
            p,
            temporal_offers(p, count - 1),
            timed_offers(p, (count - 1) as u8),
            51,
            0,
            3 * (count - 1),
            3 * count,
        );
    }
}

/// The place of a temporal family that values are converted to.
pub open spec fn temporal_family_place(family: Seq<char>) -> int {
    if family.len() == 14 {
        0
    } else if family.len() == 7 {
        1
    } else if family.len() == 8 {
        2
    } else if family[0] == 'l' {
        3
    } else {
        4
    }
}

proof fn lemma_temporal_target(
    p: Profile<'_>,
    logical: Doc,
    native: Seq<char>,
    family: Seq<char>,
    precision: u8,
)
    requires
        plain(family),
        family.len() > 0,
        native.len() > 0,
        'a' <= native[0] <= 'z',
    ensures
        placed(
            p,
            temporal_target(p, logical, native, family + "."@ + decimal(precision as nat)),
            70,
            5 * precision as int + temporal_family_place(family),
        ),
{
    let n = decimal(precision as nat);
    let number = 5 * precision as int + temporal_family_place(family);
    let suffix = "temporal."@ + (family + "."@ + n);
    lemma_number_word(precision as nat);
    assert(place_of("explicit"@ + "."@ + suffix) == (70int, number)) by {
        reveal(place_of);
        reveal_strlit("explicit");
        reveal_strlit("temporal");
        reveal_strlit("temporal.");
        reveal_strlit(".");
        lemma_four_words("explicit"@, "temporal"@, family, n);
        assert(suffix =~= "temporal"@ + "."@ + (family + "."@ + n));
    }
    lemma_explicit_offer(
        p,
        logical,
        native,
        with_parameter(Seq::empty(), "conversion_kind"@, "temporal"@),
        suffix,
        temporal_options(),
        70,
        number,
    );
}

proof fn lemma_timed_targets(p: Profile<'_>, precision: u8)
    ensures
        spread(p, timed_targets(p, precision), 70, 5 * precision as int, 5 * precision as int + 5),
{
    reveal_strlit("datetime");
    reveal_strlit("timestamp");
    reveal_strlit("time");
    reveal_strlit("local_datetime");
    reveal_strlit("instant");
    reveal_strlit("duration");
    reveal_strlit("local_datetime_to_instant");
    reveal_strlit("instant_to_local_datetime");
    assert(plain("local_datetime"@) && plain("instant"@) && plain("duration"@) && plain(
        "local_datetime_to_instant"@,
    ) && plain("instant_to_local_datetime"@));
    let n = decimal(precision as nat);
    let local = (LogicalType::LocalDatetime { fractional_precision: u8::MAX }).doc();
    let instant = (LogicalType::Instant { fractional_precision: u8::MAX }).doc();
    let duration = (LogicalType::Duration { fractional_precision: u8::MAX }).doc();
    let a = timed("datetime"@, precision);
    let b = timed("timestamp"@, precision);
    let c = timed("time"@, precision);
    lemma_temporal_target(p, local, a, "local_datetime"@, precision);
    lemma_temporal_target(p, instant, b, "instant"@, precision);
    lemma_temporal_target(p, duration, c, "duration"@, precision);
    lemma_temporal_target(p, local, b, "local_datetime_to_instant"@, precision);
    lemma_temporal_target(p, instant, a, "instant_to_local_datetime"@, precision);
    lemma_family_spelling(n);
}

/// A family is spelled with the point behind it.
proof fn lemma_family_spelling(rest: Seq<char>)
    ensures
        "local_datetime."@ + rest == "local_datetime"@ + "."@ + rest,
        "instant."@ + rest == "instant"@ + "."@ + rest,
        "duration."@ + rest == "duration"@ + "."@ + rest,
        "local_datetime_to_instant."@ + rest == "local_datetime_to_instant"@ + "."@ + rest,
        "instant_to_local_datetime."@ + rest == "instant_to_local_datetime"@ + "."@ + rest,
{
    reveal_strlit("local_datetime");
    reveal_strlit("instant");
    reveal_strlit("duration");
    reveal_strlit("local_datetime_to_instant");
    reveal_strlit("instant_to_local_datetime");
    reveal_strlit("local_datetime.");
    reveal_strlit("instant.");
    reveal_strlit("duration.");
    reveal_strlit("local_datetime_to_instant.");
    reveal_strlit("instant_to_local_datetime.");
    reveal_strlit(".");
    assert("local_datetime."@ =~= "local_datetime"@ + "."@);
    assert("instant."@ =~= "instant"@ + "."@);
    assert("duration."@ =~= "duration"@ + "."@);
    assert("local_datetime_to_instant."@ =~= "local_datetime_to_instant"@ + "."@);
    assert("instant_to_local_datetime."@ =~= "instant_to_local_datetime"@ + "."@);
}

pub proof fn lemma_temporal_targets(p: Profile<'_>, count: int)
    requires
        0 <= count <= 7,
    ensures
        spread(p, temporal_targets(p, count), 70, 0, 5 * count),
    decreases count,
{
    if count > 0 {
        lemma_temporal_targets(p, count - 1);
        lemma_timed_targets(p, (count - 1) as u8);
        lemma_spread_join(
            p,
            temporal_targets(p, count - 1),
            timed_targets(p, (count - 1) as u8),
            70,
            0,
            5 * (count - 1),
            5 * count,
        );
    }
}

// ---------------------------------------------------------------------------
// Single entries
// ---------------------------------------------------------------------------

proof fn lemma_structured_labels()
    ensures
        place_of("exact"@ + "."@ + "date"@) == (50int, 0int),
        place_of("exact"@ + "."@ + "year"@) == (52int, 0int),
        place_of("exact"@ + "."@ + "json"@) == (53int, 0int),
        place_of("exact"@ + "."@ + "enum"@) == (53int, 1int),
        place_of("explicit"@ + "."@ + "enum_by_label"@) == (53int, 2int),
        place_of("exact"@ + "."@ + "set"@) == (53int, 3int),
{
    reveal(place_of);
    reveal_strlit("exact");
    reveal_strlit("explicit");
    reveal_strlit("date");
    reveal_strlit("year");
    reveal_strlit("json");
    reveal_strlit("enum");
    reveal_strlit("enum_by_label");
    reveal_strlit("set");
    lemma_two_words("exact"@, "date"@);
    lemma_two_words("exact"@, "year"@);
    lemma_two_words("exact"@, "json"@);
    lemma_two_words("exact"@, "enum"@);
    lemma_two_words("explicit"@, "enum_by_label"@);
    lemma_two_words("exact"@, "set"@);
}

proof fn lemma_structured_offers(p: Profile<'_>)
    ensures
        spread(p, structured_offers(p), 53, 0, 4),
{
    reveal_strlit("json");
    reveal_strlit("enum");
    reveal_strlit("set");
    lemma_structured_labels();
    lemma_exact_offer(
        p,
        json_doc(),
        "json"@,
        with_parameter(Seq::empty(), "json_strategy"@, "structured"@),
        "json"@,
        "v2"@,
        53,
        0,
    );
    lemma_exact_offer(
        p,
        members_doc("enum"@),
        "enum"@,
        with_parameter(Seq::empty(), "value_strategy"@, "enum_label"@),
        "enum"@,
        "v2"@,
        53,
        1,
    );
    lemma_explicit_offer(
        p,
        members_doc("enum"@),
        "enum"@,
        with_parameter(
            with_parameter(Seq::empty(), "conversion_kind"@, "enum"@),
            "value_strategy"@,
            "enum_label"@,
        ),
        "enum_by_label"@,
        Seq::empty(),
        53,
        2,
    );
    lemma_exact_offer(
        p,
        members_doc("set"@),
        "set"@,
        with_parameter(Seq::empty(), "value_strategy"@, "set_members"@),
        "set"@,
        "v2"@,
        53,
        3,
    );
}

pub proof fn lemma_dates_to_sets(p: Profile<'_>)
    ensures
        told_apart(p, dates_to_sets(p), set![50int, 51int, 52int, 53int]),
{
    reveal_strlit("date");
    reveal_strlit("year");
    let a = seq![date_offer(p)];
    let b = temporal_offers(p, 7);
    let c = seq![year_offer(p)];
    let d = structured_offers(p);
    lemma_structured_labels();
    lemma_exact_offer(p, LogicalType::Date.doc(), "date"@, Seq::empty(), "date"@, "v1"@, 50, 0);
    lemma_exact_offer(p, LogicalType::Year.doc(), "year"@, Seq::empty(), "year"@, "v1"@, 52, 0);
    lemma_spread_one(p, date_offer(p), 50, 0);
    lemma_temporal_offers(p, 7);
    lemma_spread_one(p, year_offer(p), 52, 0);
    lemma_structured_offers(p);
    lemma_spread_tells_apart(p, a, 50, 0, 1);
    lemma_spread_tells_apart(p, b, 51, 0, 21);
    lemma_spread_tells_apart(p, c, 52, 0, 1);
    lemma_spread_tells_apart(p, d, 53, 0, 4);
    lemma_join_told_apart(p, a, b, set![50int], set![51int]);
    lemma_join_told_apart(p, a + b, c, set![50int].union(set![51int]), set![52int]);
    lemma_join_told_apart(
        p,
        a + b + c,
        d,
        set![50int].union(set![51int]).union(set![52int]),
        set![53int],
    );
    assert(set![50int].union(set![51int]).union(set![52int]).union(set![53int]) =~= set![
        50int,
        51int,
        52int,
        53int,
    ]);
}

/// An entry for a truth value or a UUID.
pub proof fn lemma_conversion(
    p: Profile<'_>,
    logical: Doc,
    native: Seq<char>,
    family: Seq<char>,
    name: Seq<char>,
)
    requires
        family == "boolean"@ || family == "uuid"@,
        plain(name),
        native.len() > 0,
        'a' <= native[0] <= 'z',
    ensures
        placed(
            p,
            deliberate_offer(p, logical, native, family + "."@ + name),
            80,
            name.len() as int + if family == "boolean"@ {
                0int
            } else {
                100int
            },
        ),
{
    reveal_strlit("boolean");
    reveal_strlit("uuid");
    let number = name.len() as int + if family == "boolean"@ {
        0int
    } else {
        100int
    };
    assert(family.len() == 7 <==> family == "boolean"@);
    assert(place_of("explicit"@ + "."@ + (family + "."@ + name)) == (80int, number)) by {
        reveal(place_of);
        reveal_strlit("explicit");
        reveal_strlit(".");
        lemma_three_words("explicit"@, family, name);
    }
    lemma_deliberate_offer(p, logical, native, family + "."@ + name, 80, number);
}

// ---------------------------------------------------------------------------
// Manifests
// ---------------------------------------------------------------------------

/// No two entries have one code.
pub open spec fn distinct_codes(entries: Seq<CapabilityEntry>) -> bool {
    forall|i: int, j: int|
        #![trigger entries[i], entries[j]]
        0 <= i < j < entries.len() ==> entries[i].code@ != entries[j].code@
}

proof fn lemma_entry_names(entry: CapabilityEntry)
    ensures
        code_of(entry.doc()) == entry.code@,
        native_of(entry.doc()) == entry.target.native_type@,
{
}

proof fn lemma_entries_without_fault(entries: Seq<CapabilityEntry>, from: int)
    requires
        0 <= from <= entries.len(),
        forall|i: int| 0 <= i < entries.len() ==> entry_fault(entries, i) is None,
    ensures
        entries_fault(entries, from) is None,
    decreases entries.len() - from,
{
    if from < entries.len() {
        lemma_entries_without_fault(entries, from + 1);
    }
}

/// Entries that are sound and told apart make up a manifest without a fault.
pub proof fn lemma_entries_stand(
    p: Profile<'_>,
    entries: Seq<CapabilityEntry>,
    lists: Set<int>,
)
    requires
        told_apart(p, docs(entries), lists),
        sound_offers(entries),
    ensures
        distinct_codes(entries),
        entries_fault(entries, 0) is None,
{
    let forms = docs(entries);
    assert forall|i: int, j: int|
        #![trigger entries[i], entries[j]]
        0 <= i < j < entries.len() implies entries[i].code@ != entries[j].code@ by {
        lemma_entry_names(entries[i]);
        lemma_entry_names(entries[j]);
        assert(forms[i] == entries[i].doc() && forms[j] == entries[j].doc());
    }
    assert forall|i: int| 0 <= i < entries.len() implies entry_fault(entries, i) is None by {
        let entry = entries[i];
        assert(sound_offer(entry));
        lemma_entry_names(entry);
        assert(forms[i] == entry.doc());
        lemma_not_blank(entry.code@, p.prefix@.len() as int);
        lemma_not_blank(entry.target.native_type@, 0);
        assert(lower_hex_digit(entry.rule.evidence_digest@[0]));
        lemma_not_blank(entry.rule.evidence_digest@, 0);
        assert(!code_before(entries, i, entry.code@));
    }
    lemma_entries_without_fault(entries, 0);
}

} // verus!
