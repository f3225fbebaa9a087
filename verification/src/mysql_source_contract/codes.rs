//! The codes of capability entries tell the entries apart.
//!
//! A code is the prefix of a Sink, followed by words with points between them.
//! The words place an entry: they give the list that it stands in, and a number
//! within that list.
use crate::change_event::compatibility::planner::representation::Entries;
use crate::json::Doc;
use crate::mysql_source_contract::offers::{
    deliberate_offer, exact_offer, explicit_offer, offer_doc, range_offer, Profile,
};
use crate::number::{decimal, law_decimal_round_trip, parse_unsigned};
use crate::text::{ascii_digit, lemma_first_index_is, split_once};
use vstd::prelude::*;

verus! {

// ---------------------------------------------------------------------------
// Words
// ---------------------------------------------------------------------------

/// A word has no point.
pub open spec fn plain(word: Seq<char>) -> bool {
    forall|i: int| 0 <= i < word.len() ==> #[trigger] word[i] != '.'
}

/// The first word of a text, and what follows it.
pub open spec fn cut(text: Seq<char>) -> (Seq<char>, Seq<char>) {
    match split_once(text, '.') {
        Some(parts) => parts,
        None => (text, Seq::empty()),
    }
}

/// The first five words of a text.
#[verifier::opaque]
pub open spec fn words(text: Seq<char>) -> (
    Seq<char>,
    Seq<char>,
    Seq<char>,
    Seq<char>,
    Seq<char>,
) {
    let (a, rest) = cut(text);
    let (b, rest) = cut(rest);
    let (c, rest) = cut(rest);
    let (d, rest) = cut(rest);
    let (e, rest) = cut(rest);
    (a, b, c, d, e)
}

proof fn lemma_cut(word: Seq<char>, rest: Seq<char>)
    requires
        plain(word),
    ensures
        cut(word + "."@ + rest) == (word, rest),
        cut(word) == (word, Seq::<char>::empty()),
{
    reveal_strlit(".");
    let text = word + "."@ + rest;
    assert(text[word.len() as int] == '.');
    lemma_first_index_is(text, '.', word.len() as int);
    assert(text.take(word.len() as int) =~= word);
    assert(text.skip(word.len() as int + 1) =~= rest);
    lemma_first_index_is(word, '.', word.len() as int);
}

pub proof fn lemma_two_words(a: Seq<char>, b: Seq<char>)
    requires
        plain(a),
        plain(b),
    ensures
        words(a + "."@ + b) == (
            a,
            b,
            Seq::<char>::empty(),
            Seq::<char>::empty(),
            Seq::<char>::empty(),
        ),
{
    reveal(words);
    lemma_cut(a, b);
    lemma_cut(b, Seq::empty());
    lemma_cut(Seq::empty(), Seq::empty());
}

pub proof fn lemma_three_words(a: Seq<char>, b: Seq<char>, c: Seq<char>)
    requires
        plain(a),
        plain(b),
        plain(c),
    ensures
        words(a + "."@ + (b + "."@ + c)) == (
            a,
            b,
            c,
            Seq::<char>::empty(),
            Seq::<char>::empty(),
        ),
{
    reveal(words);
    lemma_cut(a, b + "."@ + c);
    lemma_cut(b, c);
    lemma_cut(c, Seq::empty());
    lemma_cut(Seq::empty(), Seq::empty());
}

pub proof fn lemma_four_words(a: Seq<char>, b: Seq<char>, c: Seq<char>, d: Seq<char>)
    requires
        plain(a),
        plain(b),
        plain(c),
        plain(d),
    ensures
        words(a + "."@ + (b + "."@ + (c + "."@ + d))) == (a, b, c, d, Seq::<char>::empty()),
{
    reveal(words);
    lemma_cut(a, b + "."@ + (c + "."@ + d));
    lemma_cut(b, c + "."@ + d);
    lemma_cut(c, d);
    lemma_cut(d, Seq::empty());
    lemma_cut(Seq::empty(), Seq::empty());
}

pub proof fn lemma_five_words(
    a: Seq<char>,
    b: Seq<char>,
    c: Seq<char>,
    d: Seq<char>,
    e: Seq<char>,
)
    requires
        plain(a),
        plain(b),
        plain(c),
        plain(d),
        plain(e),
    ensures
        words(a + "."@ + (b + "."@ + (c + "."@ + (d + "."@ + e)))) == (a, b, c, d, e),
{
    reveal(words);
    lemma_cut(a, b + "."@ + (c + "."@ + (d + "."@ + e)));
    lemma_cut(b, c + "."@ + (d + "."@ + e));
    lemma_cut(c, d + "."@ + e);
    lemma_cut(d, e);
    lemma_cut(e, Seq::empty());
}

/// The decimal text of a number is a word that reads as the number.
pub proof fn lemma_number_word(number: nat)
    requires
        number <= u64::MAX,
    ensures
        plain(decimal(number)),
        number_of(decimal(number)) == number,
        decimal(number).len() > 0,
{
    law_decimal_round_trip(number, u64::MAX as nat);
    assert forall|i: int| 0 <= i < decimal(number).len() implies #[trigger] decimal(number)[i]
        != '.' by {
        assert(ascii_digit(decimal(number)[i]));
    }
}

// ---------------------------------------------------------------------------
// Places
// ---------------------------------------------------------------------------

/// The number that a word stands for.
pub open spec fn number_of(word: Seq<char>) -> int {
    match parse_unsigned(word, u64::MAX as nat) {
        Some(number) => number as int,
        None => 0,
    }
}

/// The place of a character set among those that have entries.
pub open spec fn charset_place(word: Seq<char>) -> int {
    if word.len() == 7 {
        0
    } else if word.len() == 6 {
        2
    } else if word.len() == 5 {
        3
    } else if word[0] == 'u' {
        1
    } else {
        4
    }
}

/// The place of a text type without a length.
pub open spec fn large_text_place(word: Seq<char>) -> int {
    if word.len() == 4 {
        1
    } else if word.len() == 10 {
        2
    } else if word[0] == 't' {
        0
    } else {
        3
    }
}

/// The list and the number of a native text type that values are converted to.
pub open spec fn text_target_place(native: Seq<char>, json: int) -> (int, int) {
    if native[0] == 'v' {
        (60, 2 * number_of(native.skip(8).drop_last()) + json)
    } else if native[0] == 'c' {
        (62, 2 * number_of(native.skip(5).drop_last()) + json)
    } else {
        (61, 2 * large_text_place(native) + json)
    }
}

/// The place of an exact text entry.
pub open spec fn text_place(
    charset: Seq<char>,
    name: Seq<char>,
    length: Seq<char>,
) -> (int, int) {
    if name.len() == 7 {
        (10 + charset_place(charset), number_of(length))
    } else if name.len() == 4 && name[0] == 'c' {
        (20 + charset_place(charset), number_of(length))
    } else {
        (30 + large_text_place(name), charset_place(charset))
    }
}

/// The place of an exact entry that is not of a text.
pub open spec fn exact_place(
    family: Seq<char>,
    first: Seq<char>,
    second: Seq<char>,
    third: Seq<char>,
) -> (int, int) {
    if family.len() == 14 {
        (51, 3 * number_of(first))
    } else if family.len() == 8 {
        (51, 3 * number_of(first) + 2)
    } else if family.len() == 7 && family[0] == 'd' {
        (2, 100 * number_of(first) + number_of(second))
    } else if family.len() == 7 && family[6] == 'r' {
        (
            1,
            8 * number_of(first) + (if second.len() == 6 {
                0int
            } else {
                4int
            }) + (if third.len() == 0 {
                0int
            } else {
                1int
            }),
        )
    } else if family.len() == 7 {
        (51, 3 * number_of(first) + 1)
    } else if family.len() == 6 && first.len() == 9 {
        (41, 2 * number_of(second))
    } else if family.len() == 6 && first.len() == 5 {
        (41, 2 * number_of(second) + 1)
    } else if family.len() == 6 {
        (
            42,
            if first.len() == 4 {
                1
            } else if first.len() == 10 {
                2
            } else if first[0] == 't' {
                0
            } else {
                3
            },
        )
    } else if family.len() == 5 {
        (3, if first[0] == '3' {
            0
        } else {
            1
        })
    } else if family.len() == 3 && family[0] == 'b' {
        (40, number_of(first))
    } else if family.len() == 3 {
        (53, 3)
    } else if family[0] == 'd' {
        (50, 0)
    } else if family[0] == 'y' {
        (52, 0)
    } else if family[0] == 'j' {
        (53, 0)
    } else {
        (53, 1)
    }
}

/// The place of an entry that converts.
pub open spec fn explicit_place(
    family: Seq<char>,
    first: Seq<char>,
    second: Seq<char>,
) -> (int, int) {
    if family.len() == 4 && family[0] == 't' {
        text_target_place(first, 0)
    } else if family.len() == 9 {
        text_target_place(first, 1)
    } else if family.len() == 8 {
        (
            70,
            5 * number_of(second) + (if first.len() == 14 {
                0int
            } else if first.len() == 7 {
                1int
            } else if first.len() == 8 {
                2int
            } else if first[0] == 'l' {
                3int
            } else {
                4int
            }),
        )
    } else if family.len() == 13 {
        (53, 2)
    } else if family.len() == 7 {
        (80, first.len() as int)
    } else {
        (80, 100 + first.len() as int)
    }
}

/// The list that a label stands in, and its number there.
#[verifier::opaque]
pub open spec fn place_of(label: Seq<char>) -> (int, int) {
    let (kind, family, first, second, third) = words(label);
    if kind.len() == 5 {
        if family.len() == 4 && family[0] == 't' {
            if third.len() > 0 && second.len() == 8 {
                (35, 0)
            } else {
                text_place(first, second, third)
            }
        } else {
            exact_place(family, first, second, third)
        }
    } else if kind.len() == 8 {
        explicit_place(family, first, second)
    } else if family.len() == 5 {
        (3, 2)
    } else if family[0] == 'd' {
        (4, 100 * number_of(first) + number_of(second))
    } else {
        (
            1,
            8 * number_of(first) + (if second.len() == 6 {
                2int
            } else {
                6int
            }),
        )
    }
}

/// The code of an entry.
pub open spec fn code_of(entry: Doc) -> Seq<char> {
    entry->Obj_0[0].1->Str_0
}

/// The native type of an entry.
pub open spec fn native_of(entry: Doc) -> Seq<char> {
    entry->Obj_0[2].1->Obj_0[0].1->Str_0
}

/// The place of an entry among those of a Sink.
pub open spec fn entry_place(p: Profile<'_>, entry: Doc) -> (int, int) {
    place_of(code_of(entry).skip(p.prefix@.len() as int + 1))
}

/// The code begins with the prefix and a point, and the native type with a
/// letter.
pub open spec fn named_entry(p: Profile<'_>, entry: Doc) -> bool {
    &&& code_of(entry).len() > p.prefix@.len()
    &&& code_of(entry)[p.prefix@.len() as int] == '.'
    &&& native_of(entry).len() > 0
    &&& 'a' <= native_of(entry)[0] <= 'z'
}

/// The entry has a name and this place.
pub open spec fn placed(p: Profile<'_>, entry: Doc, list: int, number: int) -> bool {
    named_entry(p, entry) && entry_place(p, entry) == (list, number)
}

proof fn lemma_offer(
    p: Profile<'_>,
    entry: Doc,
    kind: Seq<char>,
    suffix: Seq<char>,
    native: Seq<char>,
    list: int,
    number: int,
)
    requires
        code_of(entry) == p.prefix@ + ("."@ + kind + "."@) + suffix,
        native_of(entry) == native,
        native.len() > 0,
        'a' <= native[0] <= 'z',
        place_of(kind + "."@ + suffix) == (list, number),
    ensures
        placed(p, entry, list, number),
{
    reveal_strlit(".");
    let code = code_of(entry);
    assert(code.skip(p.prefix@.len() as int + 1) =~= kind + "."@ + suffix);
    assert(code[p.prefix@.len() as int] == '.');
}

pub proof fn lemma_exact_offer(
    p: Profile<'_>,
    logical: Doc,
    native: Seq<char>,
    parameters: Entries,
    suffix: Seq<char>,
    revision: Seq<char>,
    list: int,
    number: int,
)
    requires
        native.len() > 0,
        'a' <= native[0] <= 'z',
        place_of("exact"@ + "."@ + suffix) == (list, number),
    ensures
        placed(p, exact_offer(p, logical, native, parameters, suffix, revision), list, number),
{
    reveal(offer_doc);
    reveal_strlit(".exact.");
    reveal_strlit("exact");
    reveal_strlit(".");
    assert(".exact."@ =~= "."@ + "exact"@ + "."@);
    lemma_offer(
        p,
        exact_offer(p, logical, native, parameters, suffix, revision),
        "exact"@,
        suffix,
        native,
        list,
        number,
    );
}

pub proof fn lemma_deliberate_offer(
    p: Profile<'_>,
    logical: Doc,
    native: Seq<char>,
    suffix: Seq<char>,
    list: int,
    number: int,
)
    requires
        native.len() > 0,
        'a' <= native[0] <= 'z',
        place_of("explicit"@ + "."@ + suffix) == (list, number),
    ensures
        placed(p, deliberate_offer(p, logical, native, suffix), list, number),
{
    reveal(offer_doc);
    reveal_strlit(".explicit.");
    reveal_strlit("explicit");
    reveal_strlit(".");
    assert(".explicit."@ =~= "."@ + "explicit"@ + "."@);
    lemma_offer(
        p,
        deliberate_offer(p, logical, native, suffix),
        "explicit"@,
        suffix,
        native,
        list,
        number,
    );
}

pub proof fn lemma_explicit_offer(
    p: Profile<'_>,
    logical: Doc,
    native: Seq<char>,
    parameters: Entries,
    suffix: Seq<char>,
    options: Seq<Doc>,
    list: int,
    number: int,
)
    requires
        native.len() > 0,
        'a' <= native[0] <= 'z',
        place_of("explicit"@ + "."@ + suffix) == (list, number),
    ensures
        placed(p, explicit_offer(p, logical, native, parameters, suffix, options), list, number),
{
    reveal(offer_doc);
    reveal_strlit(".explicit.");
    reveal_strlit("explicit");
    reveal_strlit(".");
    assert(".explicit."@ =~= "."@ + "explicit"@ + "."@);
    lemma_offer(
        p,
        explicit_offer(p, logical, native, parameters, suffix, options),
        "explicit"@,
        suffix,
        native,
        list,
        number,
    );
}

pub proof fn lemma_range_offer(
    p: Profile<'_>,
    logical: Doc,
    native: Seq<char>,
    parameters: Entries,
    suffix: Seq<char>,
    list: int,
    number: int,
)
    requires
        native.len() > 0,
        'a' <= native[0] <= 'z',
        place_of("range_checked"@ + "."@ + suffix) == (list, number),
    ensures
        placed(p, range_offer(p, logical, native, parameters, suffix), list, number),
{
    reveal(offer_doc);
    reveal_strlit(".range_checked.");
    reveal_strlit("range_checked");
    reveal_strlit(".");
    assert(".range_checked."@ =~= "."@ + "range_checked"@ + "."@);
    lemma_offer(
        p,
        range_offer(p, logical, native, parameters, suffix),
        "range_checked"@,
        suffix,
        native,
        list,
        number,
    );
}

// ---------------------------------------------------------------------------
// Lists
// ---------------------------------------------------------------------------

/// The entries stand in one list, with different numbers between two bounds.
pub open spec fn spread(p: Profile<'_>, entries: Seq<Doc>, list: int, low: int, high: int) -> bool {
    &&& forall|i: int|
        0 <= i < entries.len() ==> {
            &&& named_entry(p, #[trigger] entries[i])
            &&& entry_place(p, entries[i]).0 == list
            &&& low <= entry_place(p, entries[i]).1 < high
        }
    &&& forall|i: int, j: int|
        #![trigger entries[i], entries[j]]
        0 <= i < j < entries.len() ==> entry_place(p, entries[i]).1 != entry_place(p, entries[j]).1
}

/// The entries stand in some of these lists, and no code occurs twice.
pub open spec fn told_apart(p: Profile<'_>, entries: Seq<Doc>, lists: Set<int>) -> bool {
    &&& forall|i: int|
        0 <= i < entries.len() ==> named_entry(p, #[trigger] entries[i]) && lists.contains(
            entry_place(p, entries[i]).0,
        )
    &&& forall|i: int, j: int|
        #![trigger entries[i], entries[j]]
        0 <= i < j < entries.len() ==> code_of(entries[i]) != code_of(entries[j])
}

pub proof fn lemma_spread_one(p: Profile<'_>, entry: Doc, list: int, number: int)
    requires
        placed(p, entry, list, number),
    ensures
        spread(p, seq![entry], list, number, number + 1),
{
}

pub proof fn lemma_spread_join(
    p: Profile<'_>,
    a: Seq<Doc>,
    b: Seq<Doc>,
    list: int,
    low: int,
    middle: int,
    high: int,
)
    requires
        spread(p, a, list, low, middle),
        spread(p, b, list, middle, high),
        low <= middle <= high,
    ensures
        spread(p, a + b, list, low, high),
{
    let all = a + b;
    assert forall|i: int| 0 <= i < all.len() implies {
        &&& named_entry(p, #[trigger] all[i])
        &&& entry_place(p, all[i]).0 == list
        &&& low <= entry_place(p, all[i]).1 < high
    } by {
        if i < a.len() {
            assert(all[i] == a[i]);
        } else {
            assert(all[i] == b[i - a.len()]);
        }
    }
    assert forall|i: int, j: int|
        #![trigger all[i], all[j]]
        0 <= i < j < all.len() implies entry_place(p, all[i]).1 != entry_place(p, all[j]).1 by {
        if j < a.len() {
            assert(all[i] == a[i] && all[j] == a[j]);
        } else if i < a.len() {
            assert(all[i] == a[i] && all[j] == b[j - a.len()]);
        } else {
            assert(all[i] == b[i - a.len()] && all[j] == b[j - a.len()]);
        }
    }
}

pub proof fn lemma_spread_push(
    p: Profile<'_>,
    entries: Seq<Doc>,
    entry: Doc,
    list: int,
    low: int,
    number: int,
)
    requires
        spread(p, entries, list, low, number),
        placed(p, entry, list, number),
        low <= number,
    ensures
        spread(p, entries.push(entry), list, low, number + 1),
{
    lemma_spread_one(p, entry, list, number);
    lemma_spread_join(p, entries, seq![entry], list, low, number, number + 1);
    assert(entries.push(entry) =~= entries + seq![entry]);
}

pub proof fn lemma_spread_wider(
    p: Profile<'_>,
    entries: Seq<Doc>,
    list: int,
    low: int,
    high: int,
    lower: int,
    higher: int,
)
    requires
        spread(p, entries, list, low, high),
        lower <= low,
        high <= higher,
    ensures
        spread(p, entries, list, lower, higher),
{
}

pub proof fn lemma_spread_tells_apart(
    p: Profile<'_>,
    entries: Seq<Doc>,
    list: int,
    low: int,
    high: int,
)
    requires
        spread(p, entries, list, low, high),
    ensures
        told_apart(p, entries, set![list]),
{
    assert forall|i: int, j: int|
        #![trigger entries[i], entries[j]]
        0 <= i < j < entries.len() implies code_of(entries[i]) != code_of(entries[j]) by {
        assert(entry_place(p, entries[i]).1 != entry_place(p, entries[j]).1);
    }
}

pub proof fn lemma_join_told_apart(
    p: Profile<'_>,
    a: Seq<Doc>,
    b: Seq<Doc>,
    lists: Set<int>,
    others: Set<int>,
)
    requires
        told_apart(p, a, lists),
        told_apart(p, b, others),
        lists.disjoint(others),
    ensures
        told_apart(p, a + b, lists.union(others)),
{
    let all = a + b;
    assert forall|i: int| 0 <= i < all.len() implies named_entry(p, #[trigger] all[i])
        && lists.union(others).contains(entry_place(p, all[i]).0) by {
        if i < a.len() {
            assert(all[i] == a[i]);
        } else {
            assert(all[i] == b[i - a.len()]);
        }
    }
    assert forall|i: int, j: int|
        #![trigger all[i], all[j]]
        0 <= i < j < all.len() implies code_of(all[i]) != code_of(all[j]) by {
        if j < a.len() {
            assert(all[i] == a[i] && all[j] == a[j]);
        } else if i < a.len() {
            assert(all[i] == a[i] && all[j] == b[j - a.len()]);
            assert(lists.contains(entry_place(p, a[i]).0));
            assert(others.contains(entry_place(p, b[j - a.len()]).0));
        } else {
            assert(all[i] == b[i - a.len()] && all[j] == b[j - a.len()]);
        }
    }
}

} // verus!
