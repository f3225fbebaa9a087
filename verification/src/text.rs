//! Text as sequences of Unicode scalar values.
//!
//! Every function here works on the characters of a string. The specification
//! functions take `Seq<char>`, so that contracts elsewhere speak of the text
//! itself and not of its representation.
use vstd::prelude::*;

verus! {

/// `String::push` appends one character.
pub assume_specification[ std::string::String::push ](text: &mut std::string::String, c: char)
    ensures
        final(text)@ == old(text)@.push(c),
;

/// The texts have the same characters.
pub(crate) fn same(left: &str, right: &str) -> (result: bool)
    ensures
        result == (left@ == right@),
{
    left.to_owned() == right.to_owned()
}

/// The spelling of a text that `{:?}` writes.
pub uninterp spec fn debug_text(text: Seq<char>) -> Seq<char>;

/// The `Debug` form of a `str`, which is a function of the text.
#[verifier::external_body]
pub(crate) fn debug_spelling(text: &str) -> (result: String)
    ensures
        result@ == debug_text(text@),
{
    format!("{:?}", text)
}

/// The characters of a string.
pub fn chars_of(text: &str) -> (result: Vec<char>)
    ensures
        result@ == text@,
{
    let mut result: Vec<char> = Vec::new();
    for c in iter: text.chars()
        invariant
            iter.seq() == text@,
            result@ == text@.take(iter.index() as int),
    {
        assert(text@.take(iter.index() as int).push(c) == text@.take(iter.index() + 1));
        result.push(c);
    }
    assert(text@.take(text@.len() as int) == text@);
    result
}

/// The length of a text in UTF-8 bytes.
pub fn byte_len(text: &str) -> (result: usize)
    ensures
        result == vstd::utf8::encode_utf8(text@).len(),
{
    text.as_bytes().len()
}

/// The string made of the characters at positions `from..to`.
pub fn text_between(chars: &Vec<char>, from: usize, to: usize) -> (result: String)
    requires
        from <= to <= chars@.len(),
    ensures
        result@ == chars@.subrange(from as int, to as int),
{
    let mut result = String::new();
    let mut i: usize = from;
    while i < to
        invariant
            from <= i <= to <= chars@.len(),
            result@ == chars@.subrange(from as int, i as int),
        decreases to - i,
    {
        assert(chars@.subrange(from as int, i as int).push(chars@[i as int]) == chars@.subrange(
            from as int,
            i + 1,
        ));
        result.push(chars[i]);
        i += 1;
    }
    result
}

/// The text `a` followed by the text `b`.
pub fn concat(a: &str, b: &str) -> (result: String)
    ensures
        result@ == a@ + b@,
{
    let mut result = a.to_owned();
    result.append(b);
    result
}

/// Three texts in a row.
pub fn concat3(a: &str, b: &str, c: &str) -> (result: String)
    ensures
        result@ == a@ + b@ + c@,
{
    let mut result = a.to_owned();
    result.append(b);
    result.append(c);
    result
}

/// Four texts in a row.
pub fn concat4(a: &str, b: &str, c: &str, d: &str) -> (result: String)
    ensures
        result@ == a@ + b@ + c@ + d@,
{
    let mut result = a.to_owned();
    result.append(b);
    result.append(c);
    result.append(d);
    result
}

/// Five texts in a row.
pub fn concat5(a: &str, b: &str, c: &str, d: &str, e: &str) -> (result: String)
    ensures
        result@ == a@ + b@ + c@ + d@ + e@,
{
    let mut result = a.to_owned();
    result.append(b);
    result.append(c);
    result.append(d);
    result.append(e);
    result
}

// ---------------------------------------------------------------------------
// Character classes
// ---------------------------------------------------------------------------

/// Unicode's `White_Space` property.
pub open spec fn white_space(c: char) -> bool {
    let n = c as int;
    ||| 0x9 <= n <= 0xd
    ||| n == 0x20
    ||| n == 0x85
    ||| n == 0xa0
    ||| n == 0x1680
    ||| 0x2000 <= n <= 0x200a
    ||| n == 0x2028
    ||| n == 0x2029
    ||| n == 0x202f
    ||| n == 0x205f
    ||| n == 0x3000
}

pub fn is_white_space(c: char) -> (result: bool)
    ensures
        result == white_space(c),
{
    let n: u32 = c as u32;
    (0x9 <= n && n <= 0xd) || n == 0x20 || n == 0x85 || n == 0xa0 || n == 0x1680 || (0x2000 <= n
        && n <= 0x200a) || n == 0x2028 || n == 0x2029 || n == 0x202f || n == 0x205f || n == 0x3000
}

/// Unicode's general category `Cc`.
pub open spec fn control(c: char) -> bool {
    let n = c as int;
    n <= 0x1f || 0x7f <= n <= 0x9f
}

pub fn is_control(c: char) -> (result: bool)
    ensures
        result == control(c),
{
    let n: u32 = c as u32;
    n <= 0x1f || (0x7f <= n && n <= 0x9f)
}

pub open spec fn ascii_digit(c: char) -> bool {
    '0' <= c <= '9'
}

pub fn is_ascii_digit(c: char) -> (result: bool)
    ensures
        result == ascii_digit(c),
{
    '0' <= c && c <= '9'
}

pub open spec fn ascii_hex_digit(c: char) -> bool {
    ascii_digit(c) || 'a' <= c <= 'f' || 'A' <= c <= 'F'
}

pub fn is_ascii_hex_digit(c: char) -> (result: bool)
    ensures
        result == ascii_hex_digit(c),
{
    is_ascii_digit(c) || ('a' <= c && c <= 'f') || ('A' <= c && c <= 'F')
}

pub open spec fn ascii_letter(c: char) -> bool {
    'a' <= c <= 'z' || 'A' <= c <= 'Z'
}

pub fn is_ascii_letter(c: char) -> (result: bool)
    ensures
        result == ascii_letter(c),
{
    ('a' <= c && c <= 'z') || ('A' <= c && c <= 'Z')
}

pub open spec fn all_digits(text: Seq<char>) -> bool {
    forall|i: int| 0 <= i < text.len() ==> ascii_digit(#[trigger] text[i])
}

pub fn are_digits(chars: &Vec<char>, from: usize) -> (result: bool)
    requires
        from <= chars@.len(),
    ensures
        result == all_digits(chars@.skip(from as int)),
{
    let mut i: usize = from;
    while i < chars.len()
        invariant
            from <= i <= chars@.len(),
            forall|k: int| from <= k < i ==> ascii_digit(#[trigger] chars@[k]),
        decreases chars@.len() - i,
    {
        if !is_ascii_digit(chars[i]) {
            assert(chars@.skip(from as int)[i - from] == chars@[i as int]);
            return false;
        }
        i += 1;
    }
    assert forall|k: int| 0 <= k < chars@.skip(from as int).len() implies ascii_digit(
        #[trigger] chars@.skip(from as int)[k],
    ) by {
        assert(chars@.skip(from as int)[k] == chars@[from + k]);
    }
    true
}

pub open spec fn all_hex_digits(text: Seq<char>) -> bool {
    forall|i: int| 0 <= i < text.len() ==> ascii_hex_digit(#[trigger] text[i])
}

pub fn are_hex_digits(chars: &Vec<char>) -> (result: bool)
    ensures
        result == all_hex_digits(chars@),
{
    let mut i: usize = 0;
    while i < chars.len()
        invariant
            i <= chars@.len(),
            forall|k: int| 0 <= k < i ==> ascii_hex_digit(#[trigger] chars@[k]),
        decreases chars@.len() - i,
    {
        if !is_ascii_hex_digit(chars[i]) {
            return false;
        }
        i += 1;
    }
    true
}

// ---------------------------------------------------------------------------
// Letter case
// ---------------------------------------------------------------------------

pub open spec fn lower_char(c: char) -> char {
    if 'A' <= c <= 'Z' {
        (c as u8 + 32) as char
    } else {
        c
    }
}

pub fn to_lower_char(c: char) -> (result: char)
    ensures
        result == lower_char(c),
{
    if 'A' <= c && c <= 'Z' {
        let byte: u8 = c as u8;
        (byte + 32) as char
    } else {
        c
    }
}

/// The text with ASCII capitals replaced by small letters.
pub open spec fn lower(text: Seq<char>) -> Seq<char> {
    Seq::new(text.len(), |i: int| lower_char(text[i]))
}

pub fn to_lower(text: &str) -> (result: String)
    ensures
        result@ == lower(text@),
{
    let chars = chars_of(text);
    let mut result = String::new();
    let mut i: usize = 0;
    while i < chars.len()
        invariant
            i <= chars@.len(),
            result@ == lower(chars@.take(i as int)),
        decreases chars@.len() - i,
    {
        result.push(to_lower_char(chars[i]));
        i += 1;
        assert(result@ =~= lower(chars@.take(i as int)));
    }
    assert(chars@.take(i as int) == chars@);
    result
}

pub open spec fn upper_char(c: char) -> char {
    if 'a' <= c <= 'z' {
        (c as u8 - 32) as char
    } else {
        c
    }
}

fn to_upper_char(c: char) -> (result: char)
    ensures
        result == upper_char(c),
{
    if 'a' <= c && c <= 'z' {
        let byte: u8 = c as u8;
        (byte - 32) as char
    } else {
        c
    }
}

/// The text with ASCII small letters replaced by capitals.
pub open spec fn upper(text: Seq<char>) -> Seq<char> {
    Seq::new(text.len(), |i: int| upper_char(text[i]))
}

pub fn to_upper(text: &str) -> (result: String)
    ensures
        result@ == upper(text@),
{
    let chars = chars_of(text);
    let mut result = String::new();
    let mut i: usize = 0;
    while i < chars.len()
        invariant
            i <= chars@.len(),
            result@ == upper(chars@.take(i as int)),
        decreases chars@.len() - i,
    {
        result.push(to_upper_char(chars[i]));
        i += 1;
        assert(result@ =~= upper(chars@.take(i as int)));
    }
    assert(chars@.take(i as int) == chars@);
    result
}

/// Equality that does not tell ASCII capitals from small letters.
pub open spec fn same_ignoring_case(left: Seq<char>, right: Seq<char>) -> bool {
    lower(left) == lower(right)
}

pub fn eq_ignore_case(left: &str, right: &str) -> (result: bool)
    ensures
        result == same_ignoring_case(left@, right@),
{
    let a = to_lower(left);
    let b = to_lower(right);
    a == b
}

// ---------------------------------------------------------------------------
// Trimming
// ---------------------------------------------------------------------------

/// How many white-space characters the text begins with.
pub open spec fn leading_space(text: Seq<char>) -> nat
    decreases text.len(),
{
    if text.len() > 0 && white_space(text[0]) {
        1 + leading_space(text.drop_first())
    } else {
        0
    }
}

/// How many white-space characters the text ends with.
pub open spec fn trailing_space(text: Seq<char>) -> nat
    decreases text.len(),
{
    if text.len() > 0 && white_space(text.last()) {
        1 + trailing_space(text.drop_last())
    } else {
        0
    }
}

/// The text without white space at its start and its end.
pub open spec fn trim(text: Seq<char>) -> Seq<char> {
    let rest = text.skip(leading_space(text) as int);
    rest.take(rest.len() - trailing_space(rest))
}

/// White space at the start ends before a character that is none.
pub proof fn lemma_leading_space(text: Seq<char>, at: int)
    requires
        0 <= at < text.len(),
        !white_space(text[at]),
    ensures
        leading_space(text) <= at,
    decreases text.len(),
{
    if white_space(text[0]) {
        assert(text.drop_first()[at - 1] == text[at]);
        lemma_leading_space(text.drop_first(), at - 1);
    }
}

/// White space at the end begins behind a character that is none.
pub proof fn lemma_trailing_space(text: Seq<char>, at: int)
    requires
        0 <= at < text.len(),
        !white_space(text[at]),
    ensures
        trailing_space(text) < text.len() - at,
    decreases text.len(),
{
    if white_space(text.last()) {
        lemma_trailing_space(text.drop_last(), at);
    }
}

pub proof fn lemma_leading_space_bound(text: Seq<char>)
    ensures
        leading_space(text) <= text.len(),
    decreases text.len(),
{
    if text.len() > 0 && white_space(text[0]) {
        lemma_leading_space_bound(text.drop_first());
    }
}

pub proof fn lemma_trailing_space_bound(text: Seq<char>)
    ensures
        trailing_space(text) <= text.len(),
    decreases text.len(),
{
    if text.len() > 0 && white_space(text.last()) {
        lemma_trailing_space_bound(text.drop_last());
    }
}

pub fn trimmed(text: &str) -> (result: String)
    ensures
        result@ == trim(text@),
{
    let chars = chars_of(text);
    let mut from: usize = 0;
    assert(chars@.skip(0) == chars@);
    while from < chars.len() && is_white_space(chars[from])
        invariant
            from <= chars@.len(),
            leading_space(chars@) == from + leading_space(chars@.skip(from as int)),
        decreases chars@.len() - from,
    {
        assert(chars@.skip(from as int).drop_first() == chars@.skip(from + 1));
        from += 1;
    }
    let ghost rest = chars@.skip(from as int);
    assert(leading_space(rest) == 0);
    let mut to: usize = chars.len();
    assert(rest.take(rest.len() as int) == rest);
    while to > from && is_white_space(chars[to - 1])
        invariant
            from <= to <= chars@.len(),
            rest == chars@.skip(from as int),
            trailing_space(rest) == (chars@.len() - to) + trailing_space(rest.take(to - from)),
        decreases to,
    {
        assert(rest.take(to - from).last() == chars@[to - 1]);
        assert(rest.take(to - from).drop_last() == rest.take(to - 1 - from));
        to -= 1;
    }
    proof {
        if to > from {
            assert(rest.take(to - from).last() == chars@[to - 1]);
        }
        assert(trailing_space(rest.take(to - from)) == 0);
        assert(rest.take(to - from) == chars@.subrange(from as int, to as int));
    }
    text_between(&chars, from, to)
}

// ---------------------------------------------------------------------------
// Searching and splitting
// ---------------------------------------------------------------------------

/// The position of the first `c`, or the length of the text.
pub open spec fn first_index(text: Seq<char>, c: char) -> int
    decreases text.len(),
{
    if text.len() == 0 || text[0] == c {
        0
    } else {
        1 + first_index(text.drop_first(), c)
    }
}

pub proof fn lemma_first_index(text: Seq<char>, c: char)
    ensures
        0 <= first_index(text, c) <= text.len(),
        first_index(text, c) < text.len() ==> text[first_index(text, c)] == c,
        forall|i: int| 0 <= i < first_index(text, c) ==> text[i] != c,
        text.contains(c) <==> first_index(text, c) < text.len(),
    decreases text.len(),
{
    if text.len() > 0 && text[0] != c {
        let rest = text.drop_first();
        lemma_first_index(rest, c);
        assert forall|i: int| 0 <= i < first_index(text, c) implies text[i] != c by {
            if i > 0 {
                assert(text[i] == rest[i - 1]);
            }
        }
        if text.contains(c) {
            let k = choose|k: int| 0 <= k < text.len() && text[k] == c;
            assert(rest[k - 1] == c);
            assert(rest.contains(c));
        }
    } else if text.len() > 0 {
        assert(text[0] == c);
    }
}

/// A first occurrence is `first_index`.
pub proof fn lemma_first_index_is(text: Seq<char>, c: char, at: int)
    requires
        0 <= at <= text.len(),
        at < text.len() ==> text[at] == c,
        forall|i: int| 0 <= i < at ==> text[i] != c,
    ensures
        first_index(text, c) == at,
{
    lemma_first_index(text, c);
    let f = first_index(text, c);
    if f < at {
        assert(text[f] == c);
    }
    if at < f {
        assert(text[at] == c);
    }
}

/// The position of the first `c` at or after `from`, or the length.
pub fn find_from(chars: &Vec<char>, c: char, from: usize) -> (result: usize)
    requires
        from <= chars@.len(),
    ensures
        from <= result <= chars@.len(),
        result == from + first_index(chars@.skip(from as int), c),
        result < chars@.len() ==> chars@[result as int] == c,
        forall|i: int| from <= i < result ==> chars@[i] != c,
{
    let mut i: usize = from;
    while i < chars.len() && chars[i] != c
        invariant
            from <= i <= chars@.len(),
            forall|k: int| from <= k < i ==> chars@[k] != c,
        decreases chars@.len() - i,
    {
        i += 1;
    }
    proof {
        lemma_first_index_is(chars@.skip(from as int), c, i - from);
    }
    i
}

pub fn contains_char(text: &str, c: char) -> (result: bool)
    ensures
        result == text@.contains(c),
{
    let chars = chars_of(text);
    let at = find_from(&chars, c, 0);
    proof {
        assert(chars@.skip(0) == chars@);
        lemma_first_index(chars@, c);
    }
    at < chars.len()
}

/// What stands before and after the first `c`, if there is one.
pub open spec fn split_once(text: Seq<char>, c: char) -> Option<(Seq<char>, Seq<char>)> {
    let at = first_index(text, c);
    if at < text.len() {
        Some((text.take(at), text.skip(at + 1)))
    } else {
        None
    }
}

pub open spec fn pair_view(pair: Option<(String, String)>) -> Option<(Seq<char>, Seq<char>)> {
    match pair {
        Some((a, b)) => Some((a@, b@)),
        None => None,
    }
}

pub fn split_at_first(text: &str, c: char) -> (result: Option<(String, String)>)
    ensures
        pair_view(result) == split_once(text@, c),
{
    let chars = chars_of(text);
    let at = find_from(&chars, c, 0);
    proof {
        assert(chars@.skip(0) == chars@);
    }
    if at < chars.len() {
        let before = text_between(&chars, 0, at);
        let after = text_between(&chars, at + 1, chars.len());
        assert(before@ =~= text@.take(at as int));
        assert(after@ =~= text@.skip(at + 1));
        Some((before, after))
    } else {
        None
    }
}

/// The position of the last `c`, or -1.
pub open spec fn last_index(text: Seq<char>, c: char) -> int
    decreases text.len(),
{
    if text.len() == 0 {
        -1
    } else if text.last() == c {
        text.len() - 1
    } else {
        last_index(text.drop_last(), c)
    }
}

pub proof fn lemma_last_index(text: Seq<char>, c: char)
    ensures
        -1 <= last_index(text, c) < text.len(),
        last_index(text, c) >= 0 ==> text[last_index(text, c)] == c,
        forall|i: int| last_index(text, c) < i < text.len() ==> text[i] != c,
    decreases text.len(),
{
    if text.len() > 0 && text.last() != c {
        lemma_last_index(text.drop_last(), c);
        assert forall|i: int| last_index(text, c) < i < text.len() implies text[i] != c by {
            if i < text.len() - 1 {
                assert(text[i] == text.drop_last()[i]);
            }
        }
    }
}

pub proof fn lemma_last_index_is(text: Seq<char>, c: char, at: int)
    requires
        -1 <= at < text.len(),
        at >= 0 ==> text[at] == c,
        forall|i: int| at < i < text.len() ==> text[i] != c,
    ensures
        last_index(text, c) == at,
{
    lemma_last_index(text, c);
    let f = last_index(text, c);
    if f > at {
        assert(text[f] == c);
    }
    if at > f {
        assert(text[at] == c);
    }
}

/// What stands before and after the last `c`, if there is one.
pub open spec fn rsplit_once(text: Seq<char>, c: char) -> Option<(Seq<char>, Seq<char>)> {
    let at = last_index(text, c);
    if at >= 0 {
        Some((text.take(at), text.skip(at + 1)))
    } else {
        None
    }
}

/// The position of the last `c`.
pub fn find_last(chars: &Vec<char>, c: char) -> (result: Option<usize>)
    ensures
        match result {
            Some(at) => at == last_index(chars@, c) && at < chars@.len(),
            None => last_index(chars@, c) == -1,
        },
{
    let mut i: usize = chars.len();
    while i > 0
        invariant
            i <= chars@.len(),
            forall|k: int| i <= k < chars@.len() ==> chars@[k] != c,
        decreases i,
    {
        if chars[i - 1] == c {
            proof {
                lemma_last_index_is(chars@, c, i - 1);
            }
            return Some(i - 1);
        }
        i -= 1;
    }
    proof {
        lemma_last_index_is(chars@, c, -1);
    }
    None
}

pub fn split_at_last(text: &str, c: char) -> (result: Option<(String, String)>)
    ensures
        pair_view(result) == rsplit_once(text@, c),
{
    let chars = chars_of(text);
    let length: usize = chars.len();
    match find_last(&chars, c) {
        Some(at) => {
            let before = text_between(&chars, 0, at);
            let after = text_between(&chars, at + 1, length);
            assert(before@ =~= text@.take(at as int));
            assert(after@ =~= text@.skip(at + 1));
            Some((before, after))
        },
        None => None,
    }
}

/// The pieces of the text between its occurrences of `c`.
pub open spec fn split(text: Seq<char>, c: char) -> Seq<Seq<char>>
    decreases text.len(),
{
    let at = first_index(text, c);
    if 0 <= at < text.len() {
        seq![text.take(at)] + split(text.skip(at + 1), c)
    } else {
        seq![text]
    }
}

/// The texts of a list of strings.
pub open spec fn texts(list: Seq<String>) -> Seq<Seq<char>> {
    Seq::new(list.len(), |i: int| list[i]@)
}

pub fn split_text(text: &str, c: char) -> (result: Vec<String>)
    ensures
        texts(result@) == split(text@, c),
        result@.len() >= 1,
{
    let chars = chars_of(text);
    let mut result: Vec<String> = Vec::new();
    let mut from: usize = 0;
    proof {
        assert(chars@.skip(0) == chars@);
        assert(texts(result@) + split(chars@.skip(0), c) =~= split(text@, c));
    }
    loop
        invariant
            from <= chars@.len(),
            chars@ == text@,
            texts(result@) + split(chars@.skip(from as int), c) == split(text@, c),
        decreases chars@.len() - from,
    {
        let at = find_from(&chars, c, from);
        let piece = text_between(&chars, from, at);
        let ghost rest = chars@.skip(from as int);
        let ghost before = texts(result@);
        proof {
            lemma_first_index(rest, c);
            assert(piece@ =~= rest.take(at - from));
        }
        result.push(piece);
        assert(texts(result@) =~= before.push(piece@));
        if at == chars.len() {
            proof {
                assert(rest.take(at - from) =~= rest);
                assert(split(rest, c) == seq![rest]);
                assert(texts(result@) =~= before + seq![rest]);
            }
            return result;
        }
        proof {
            assert(chars@.skip(at + 1) =~= rest.skip(at - from + 1));
            assert(before.push(piece@) + split(chars@.skip(at + 1), c) =~= before + (seq![piece@]
                + split(chars@.skip(at + 1), c)));
        }
        from = at + 1;
    }
}

/// How many characters of the text stand before the first white space.
pub open spec fn word_length(text: Seq<char>) -> nat
    decreases text.len(),
{
    if text.len() == 0 || white_space(text[0]) {
        0
    } else {
        1 + word_length(text.drop_first())
    }
}

pub proof fn lemma_word_length_bound(text: Seq<char>)
    ensures
        word_length(text) <= text.len(),
        text.len() > 0 && !white_space(text[0]) ==> word_length(text) > 0,
    decreases text.len(),
{
    if text.len() > 0 && !white_space(text[0]) {
        lemma_word_length_bound(text.drop_first());
    }
}

/// The words of a text: what stands between white space.
pub open spec fn words(text: Seq<char>) -> Seq<Seq<char>>
    decreases text.len(),
{
    if text.len() == 0 {
        Seq::empty()
    } else if white_space(text[0]) {
        words(text.drop_first())
    } else {
        proof {
            lemma_word_length_bound(text);
        }
        let length = word_length(text) as int;
        seq![text.take(length)] + words(text.skip(length))
    }
}

/// The words of a text.
pub fn split_words(text: &str) -> (result: Vec<String>)
    ensures
        texts(result@) == words(text@),
{
    let chars = chars_of(text);
    let mut result: Vec<String> = Vec::new();
    let mut at: usize = 0;
    assert(chars@.skip(0) =~= text@);
    assert(texts(result@) + words(chars@.skip(0)) =~= words(text@));
    while at < chars.len()
        invariant
            at <= chars@.len(),
            texts(result@) + words(chars@.skip(at as int)) == words(text@),
        decreases chars@.len() - at,
    {
        let ghost rest = chars@.skip(at as int);
        assert(rest[0] == chars@[at as int]);
        if is_white_space(chars[at]) {
            assert(rest.drop_first() =~= chars@.skip(at + 1));
            at += 1;
        } else {
            let start: usize = at;
            while at < chars.len() && !is_white_space(chars[at])
                invariant
                    start <= at <= chars@.len(),
                    rest == chars@.skip(start as int),
                    word_length(rest) == (at - start) + word_length(chars@.skip(at as int)),
                decreases chars@.len() - at,
            {
                assert(chars@.skip(at as int)[0] == chars@[at as int]);
                assert(chars@.skip(at as int).drop_first() =~= chars@.skip(at + 1));
                at += 1;
            }
            proof {
                if at < chars@.len() {
                    assert(chars@.skip(at as int)[0] == chars@[at as int]);
                }
                assert(word_length(chars@.skip(at as int)) == 0);
                lemma_word_length_bound(rest);
            }
            let word = text_between(&chars, start, at);
            let ghost before = texts(result@);
            assert(word@ =~= rest.take(at - start));
            assert(rest.skip(at - start) =~= chars@.skip(at as int));
            result.push(word);
            assert(texts(result@) =~= before.push(word@));
            assert(texts(result@) + words(chars@.skip(at as int)) =~= before + words(rest));
        }
    }
    assert(chars@.skip(at as int) =~= Seq::<char>::empty());
    assert(texts(result@) =~= texts(result@) + words(chars@.skip(at as int)));
    result
}

/// Whether the text begins with `prefix`.
pub open spec fn has_prefix(text: Seq<char>, prefix: Seq<char>) -> bool {
    text.len() >= prefix.len() && text.take(prefix.len() as int) == prefix
}

/// What follows `prefix`, where the text begins with it.
pub open spec fn after_prefix(text: Seq<char>, prefix: Seq<char>) -> Option<Seq<char>> {
    if has_prefix(text, prefix) {
        Some(text.skip(prefix.len() as int))
    } else {
        None
    }
}

pub fn strip_prefix(text: &str, prefix: &str) -> (result: Option<String>)
    ensures
        (match result {
            Some(rest) => Some(rest@),
            None => None,
        }) == after_prefix(text@, prefix@),
{
    let chars = chars_of(text);
    let wanted = chars_of(prefix);
    if chars.len() < wanted.len() {
        return None;
    }
    let mut i: usize = 0;
    while i < wanted.len()
        invariant
            i <= wanted@.len() <= chars@.len(),
            chars@ == text@,
            wanted@ == prefix@,
            forall|k: int| 0 <= k < i ==> chars@[k] == wanted@[k],
        decreases wanted@.len() - i,
    {
        if chars[i] != wanted[i] {
            assert(chars@.take(wanted@.len() as int)[i as int] == chars@[i as int]);
            return None;
        }
        i += 1;
    }
    assert(chars@.take(wanted@.len() as int) =~= wanted@);
    let rest = text_between(&chars, wanted.len(), chars.len());
    assert(rest@ =~= text@.skip(prefix@.len() as int));
    Some(rest)
}

pub fn starts_with(text: &str, prefix: &str) -> (result: bool)
    ensures
        result == has_prefix(text@, prefix@),
{
    strip_prefix(text, prefix).is_some()
}

/// Whether `part` stands somewhere in the text.
pub open spec fn has_part(text: Seq<char>, part: Seq<char>) -> bool {
    exists|i: int|
        0 <= i && i + part.len() <= text.len() && #[trigger] text.subrange(i, i + part.len())
            == part
}

pub fn contains_text(text: &str, part: &str) -> (result: bool)
    ensures
        result == has_part(text@, part@),
{
    let chars = chars_of(text);
    let wanted = chars_of(part);
    if chars.len() < wanted.len() {
        return false;
    }
    let mut i: usize = 0;
    while i <= chars.len() - wanted.len()
        invariant
            wanted@.len() <= chars@.len(),
            chars@ == text@,
            wanted@ == part@,
            i <= chars@.len() - wanted@.len() + 1,
            forall|k: int|
                0 <= k < i ==> #[trigger] text@.subrange(k, k + part@.len()) != part@,
        decreases chars@.len() - wanted@.len() + 1 - i,
    {
        let mut j: usize = 0;
        let length: usize = chars.len();
        while j < wanted.len() && chars[i + j] == wanted[j]
            invariant
                j <= wanted@.len(),
                i + wanted@.len() <= chars@.len(),
                chars@.len() == length,
                forall|k: int| 0 <= k < j ==> chars@[i + k] == wanted@[k],
            decreases wanted@.len() - j,
        {
            j += 1;
        }
        if j == wanted.len() {
            assert(text@.subrange(i as int, i + part@.len()) =~= part@);
            return true;
        }
        assert(text@.subrange(i as int, i + part@.len())[j as int] == chars@[i + j]);
        if i == usize::MAX {
            return false;
        }
        i += 1;
    }
    false
}

/// The pieces of the text with `separator` between them.
pub open spec fn join(pieces: Seq<Seq<char>>, separator: Seq<char>) -> Seq<char>
    decreases pieces.len(),
{
    if pieces.len() == 0 {
        Seq::empty()
    } else if pieces.len() == 1 {
        pieces[0]
    } else {
        join(pieces.drop_last(), separator) + separator + pieces.last()
    }
}

proof fn lemma_join_front(first: Seq<char>, rest: Seq<Seq<char>>, separator: Seq<char>)
    requires
        rest.len() > 0,
    ensures
        join(seq![first] + rest, separator) == first + separator + join(rest, separator),
    decreases rest.len(),
{
    reveal_with_fuel(join, 2);
    let whole = seq![first] + rest;
    assert(whole.last() == rest.last());
    if rest.len() == 1 {
        assert(whole.drop_last() =~= seq![first]);
    } else {
        assert(whole.drop_last() =~= seq![first] + rest.drop_last());
        lemma_join_front(first, rest.drop_last(), separator);
    }
    assert(join(whole, separator) =~= first + separator + join(rest, separator));
}

/// A text that is split and joined again with the same character is the same
/// text.
pub proof fn law_joining_undoes_splitting(text: Seq<char>, c: char)
    ensures
        join(split(text, c), seq![c]) == text,
        split(text, c).len() > 0,
    decreases text.len(),
{
    lemma_first_index(text, c);
    let at = first_index(text, c);
    if at < text.len() {
        law_joining_undoes_splitting(text.skip(at + 1), c);
        lemma_join_front(text.take(at), split(text.skip(at + 1), c), seq![c]);
        assert(text =~= text.take(at) + seq![c] + text.skip(at + 1));
    }
}

pub fn join_texts(pieces: &Vec<String>, separator: &str) -> (result: String)
    ensures
        result@ == join(texts(pieces@), separator@),
{
    let mut result = String::new();
    let mut i: usize = 0;
    assert(texts(pieces@).take(0) =~= Seq::<Seq<char>>::empty());
    while i < pieces.len()
        invariant
            i <= pieces@.len(),
            result@ == join(texts(pieces@).take(i as int), separator@),
        decreases pieces@.len() - i,
    {
        let ghost next = texts(pieces@).take(i + 1);
        assert(next.drop_last() =~= texts(pieces@).take(i as int));
        if i > 0 {
            result.append(separator);
        }
        result.append(pieces[i].as_str());
        proof {
            assert(next.last() == pieces@[i as int]@);
            if i == 0 {
                assert(result@ =~= pieces@[0]@);
            }
        }
        i += 1;
    }
    assert(texts(pieces@).take(i as int) =~= texts(pieces@));
    result
}

// ---------------------------------------------------------------------------
// Order
// ---------------------------------------------------------------------------

/// Lexicographic order by scalar value, which is also the order of the UTF-8
/// bytes.
pub open spec fn text_le(left: Seq<char>, right: Seq<char>) -> bool
    decreases left.len(),
{
    if left.len() == 0 {
        true
    } else if right.len() == 0 {
        false
    } else if left[0] != right[0] {
        left[0] < right[0]
    } else {
        text_le(left.drop_first(), right.drop_first())
    }
}

pub proof fn lemma_text_le_total(left: Seq<char>, right: Seq<char>)
    ensures
        text_le(left, right) || text_le(right, left),
    decreases left.len(),
{
    if left.len() > 0 && right.len() > 0 && left[0] == right[0] {
        lemma_text_le_total(left.drop_first(), right.drop_first());
    }
}

pub proof fn lemma_text_le_antisymmetric(left: Seq<char>, right: Seq<char>)
    requires
        text_le(left, right),
        text_le(right, left),
    ensures
        left == right,
    decreases left.len(),
{
    if left.len() > 0 && right.len() > 0 {
        lemma_text_le_antisymmetric(left.drop_first(), right.drop_first());
        assert(left =~= seq![left[0]] + left.drop_first());
        assert(right =~= seq![right[0]] + right.drop_first());
    } else {
        assert(left =~= right);
    }
}

pub proof fn lemma_text_le_transitive(a: Seq<char>, b: Seq<char>, c: Seq<char>)
    requires
        text_le(a, b),
        text_le(b, c),
    ensures
        text_le(a, c),
    decreases a.len(),
{
    if a.len() > 0 && b.len() > 0 && c.len() > 0 && a[0] == b[0] && b[0] == c[0] {
        lemma_text_le_transitive(a.drop_first(), b.drop_first(), c.drop_first());
    }
}

pub fn le(left: &str, right: &str) -> (result: bool)
    ensures
        result == text_le(left@, right@),
{
    let a = chars_of(left);
    let b = chars_of(right);
    let mut i: usize = 0;
    assert(a@.skip(0) == a@);
    assert(b@.skip(0) == b@);
    while i < a.len() && i < b.len()
        invariant
            i <= a@.len(),
            i <= b@.len(),
            a@ == left@,
            b@ == right@,
            text_le(a@, b@) == text_le(a@.skip(i as int), b@.skip(i as int)),
        decreases a@.len() - i,
    {
        if a[i] != b[i] {
            return a[i] < b[i];
        }
        assert(a@.skip(i as int).drop_first() == a@.skip(i + 1));
        assert(b@.skip(i as int).drop_first() == b@.skip(i + 1));
        i += 1;
    }
    i == a.len()
}

} // verus!
