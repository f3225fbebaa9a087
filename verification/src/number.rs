//! Numbers written as text: decimal and hexadecimal.
use crate::text::{
    all_digits, all_hex_digits, are_digits, ascii_digit, ascii_hex_digit, chars_of,
    is_ascii_digit, is_ascii_hex_digit, text_between,
};
use vstd::arithmetic::power::pow;
use vstd::prelude::*;

verus! {

// ---------------------------------------------------------------------------
// Decimal
// ---------------------------------------------------------------------------

pub open spec fn digit_value(c: char) -> nat {
    (c as int - '0' as int) as nat
}

/// The number that a row of decimal digits stands for.
pub open spec fn digits_value(digits: Seq<char>) -> nat
    decreases digits.len(),
{
    if digits.len() == 0 {
        0
    } else {
        digits_value(digits.drop_last()) * 10 + digit_value(digits.last())
    }
}

pub proof fn lemma_digits_value_prefix(digits: Seq<char>, n: int)
    requires
        0 <= n <= digits.len(),
    ensures
        digits_value(digits.take(n)) <= digits_value(digits),
    decreases digits.len() - n,
{
    if n < digits.len() {
        assert(digits.take(n + 1).drop_last() == digits.take(n));
        lemma_digits_value_prefix(digits, n + 1);
    } else {
        assert(digits.take(n) == digits);
    }
}

/// A power of ten.
pub open spec fn ten_to(exponent: nat) -> nat
    decreases exponent,
{
    if exponent == 0 {
        1
    } else {
        10 * ten_to((exponent - 1) as nat)
    }
}

pub proof fn lemma_ten_to(exponent: nat)
    ensures
        ten_to(exponent) == pow(10, exponent),
        ten_to(exponent) > 0,
    decreases exponent,
{
    reveal(pow);
    if exponent > 0 {
        lemma_ten_to((exponent - 1) as nat);
    }
}

/// A row of digits stands for less than the power of ten of its length.
pub proof fn lemma_digits_bound(digits: Seq<char>)
    requires
        all_digits(digits),
    ensures
        digits_value(digits) < pow(10, digits.len()),
    decreases digits.len(),
{
    reveal(pow);
    if digits.len() > 0 {
        let rest = digits.drop_last();
        assert forall|i: int| 0 <= i < rest.len() implies ascii_digit(#[trigger] rest[i]) by {
            assert(ascii_digit(digits[i]));
        }
        lemma_digits_bound(rest);
        assert(ascii_digit(digits.last()));
    }
}

/// The front of a row of digits counts by the power of ten of the rest.
pub proof fn lemma_digits_parts(digits: Seq<char>, at: int)
    requires
        0 <= at <= digits.len(),
    ensures
        digits_value(digits) == digits_value(digits.take(at)) * pow(
            10,
            (digits.len() - at) as nat,
        ) + digits_value(digits.skip(at)),
    decreases digits.len() - at,
{
    reveal(pow);
    if at == digits.len() {
        assert(digits.take(at) =~= digits);
        assert(digits.skip(at) =~= Seq::empty());
    } else {
        let shorter = digits.drop_last();
        lemma_digits_parts(shorter, at);
        assert(shorter.take(at) =~= digits.take(at));
        assert(shorter.skip(at) =~= digits.skip(at).drop_last());
        assert(digits.skip(at).last() == digits.last());
        let front = digits_value(digits.take(at)) as int;
        let power = pow(10, (shorter.len() - at) as nat);
        assert((front * power) * 10 == front * (10 * power)) by (nonlinear_arith);
    }
}

/// The number written by a non-empty row of decimal digits.
pub open spec fn magnitude(text: Seq<char>) -> Option<nat> {
    if text.len() > 0 && all_digits(text) {
        Some(digits_value(text))
    } else {
        None
    }
}

/// A text without one leading plus sign.
pub open spec fn without_plus(text: Seq<char>) -> Seq<char> {
    if text.len() > 0 && text[0] == '+' {
        text.drop_first()
    } else {
        text
    }
}

/// How an unsigned integer no larger than `max` is read: an optional plus
/// sign and at least one decimal digit.
pub open spec fn parse_unsigned(text: Seq<char>, max: nat) -> Option<nat> {
    match magnitude(without_plus(text)) {
        Some(value) if value <= max => Some(value),
        _ => None,
    }
}

/// How many digits a text begins with.
pub open spec fn leading_digits(text: Seq<char>) -> nat
    decreases text.len(),
{
    if text.len() == 0 || !ascii_digit(text[0]) {
        0
    } else {
        1 + leading_digits(text.drop_first())
    }
}

/// Why a text is no unsigned integer up to `max`, where it is none. Digits are
/// read from the left, so that a number that is too large is reported before a
/// later character that is no digit.
pub open spec fn unsigned_complaint(text: Seq<char>, max: nat) -> Seq<char> {
    let digits = without_plus(text);
    if text.len() == 0 {
        "cannot parse integer from empty string"@
    } else if digits_value(digits.take(leading_digits(digits) as int)) > max {
        "number too large to fit in target type"@
    } else {
        "invalid digit found in string"@
    }
}

/// How a signed integer between `min` and `max` is read: an optional sign and
/// at least one decimal digit.
pub open spec fn parse_signed(text: Seq<char>, min: int, max: int) -> Option<int> {
    if text.len() > 0 && text[0] == '-' {
        match magnitude(text.drop_first()) {
            Some(value) if -(value as int) >= min => Some(-(value as int)),
            _ => None,
        }
    } else {
        match magnitude(without_plus(text)) {
            Some(value) if value <= max => Some(value as int),
            _ => None,
        }
    }
}

fn read_digits(chars: &Vec<char>, from: usize) -> (result: Option<u128>)
    requires
        from <= chars@.len(),
    ensures
        match result {
            Some(value) => magnitude(chars@.skip(from as int)) == Some(value as nat),
            None => match magnitude(chars@.skip(from as int)) {
                Some(value) => value > u128::MAX,
                None => true,
            },
        },
{
    let ghost digits = chars@.skip(from as int);
    if from == chars.len() || !are_digits(chars, from) {
        return None;
    }
    let mut value: u128 = 0;
    let mut i: usize = from;
    assert(digits.take(0) == Seq::<char>::empty());
    while i < chars.len()
        invariant
            from <= i <= chars@.len(),
            digits == chars@.skip(from as int),
            digits.len() > 0,
            all_digits(digits),
            value == digits_value(digits.take(i - from)),
        decreases chars@.len() - i,
    {
        assert(digits[i - from] == chars@[i as int]);
        assert(ascii_digit(digits[i - from]));
        let digit: u128 = (chars[i] as u32 - 48) as u128;
        proof {
            assert(digits.take(i - from + 1).drop_last() == digits.take(i - from));
            assert(digits.take(i - from + 1).last() == digits[i - from]);
            lemma_digits_value_prefix(digits, i - from + 1);
        }
        if value > (u128::MAX - digit) / 10 {
            assert(value * 10 + digit > u128::MAX);
            return None;
        }
        value = value * 10 + digit;
        i += 1;
    }
    assert(digits.take(digits.len() as int) == digits);
    Some(value)
}

pub fn parse_u128(text: &str) -> (result: Option<u128>)
    ensures
        match result {
            Some(value) => parse_unsigned(text@, u128::MAX as nat) == Some(value as nat),
            None => parse_unsigned(text@, u128::MAX as nat) is None,
        },
{
    let chars = chars_of(text);
    if chars.len() > 0 && chars[0] == '+' {
        assert(chars@.skip(1) == text@.drop_first());
        read_digits(&chars, 1)
    } else {
        assert(chars@.skip(0) == text@);
        read_digits(&chars, 0)
    }
}

pub fn parse_u64(text: &str) -> (result: Option<u64>)
    ensures
        match result {
            Some(value) => parse_unsigned(text@, u64::MAX as nat) == Some(value as nat),
            None => parse_unsigned(text@, u64::MAX as nat) is None,
        },
{
    match parse_u128(text) {
        Some(value) => if value <= u64::MAX as u128 {
            Some(value as u64)
        } else {
            None
        },
        None => None,
    }
}

pub fn parse_u32(text: &str) -> (result: Option<u32>)
    ensures
        match result {
            Some(value) => parse_unsigned(text@, u32::MAX as nat) == Some(value as nat),
            None => parse_unsigned(text@, u32::MAX as nat) is None,
        },
{
    match parse_u128(text) {
        Some(value) => if value <= u32::MAX as u128 {
            Some(value as u32)
        } else {
            None
        },
        None => None,
    }
}

pub fn parse_u16(text: &str) -> (result: Option<u16>)
    ensures
        match result {
            Some(value) => parse_unsigned(text@, u16::MAX as nat) == Some(value as nat),
            None => parse_unsigned(text@, u16::MAX as nat) is None,
        },
{
    match parse_u128(text) {
        Some(value) => if value <= u16::MAX as u128 {
            Some(value as u16)
        } else {
            None
        },
        None => None,
    }
}

pub fn parse_u8(text: &str) -> (result: Option<u8>)
    ensures
        match result {
            Some(value) => parse_unsigned(text@, u8::MAX as nat) == Some(value as nat),
            None => parse_unsigned(text@, u8::MAX as nat) is None,
        },
{
    match parse_u128(text) {
        Some(value) => if value <= u8::MAX as u128 {
            Some(value as u8)
        } else {
            None
        },
        None => None,
    }
}

pub fn parse_usize(text: &str) -> (result: Option<usize>)
    ensures
        match result {
            Some(value) => parse_unsigned(text@, usize::MAX as nat) == Some(value as nat),
            None => parse_unsigned(text@, usize::MAX as nat) is None,
        },
{
    match parse_u128(text) {
        Some(value) => if value <= usize::MAX as u128 {
            Some(value as usize)
        } else {
            None
        },
        None => None,
    }
}

pub fn parse_i128(text: &str) -> (result: Option<i128>)
    ensures
        match result {
            Some(value) => parse_signed(text@, i128::MIN as int, i128::MAX as int) == Some(
                value as int,
            ),
            None => parse_signed(text@, i128::MIN as int, i128::MAX as int) is None,
        },
{
    let chars = chars_of(text);
    if chars.len() > 0 && chars[0] == '-' {
        assert(chars@.skip(1) == text@.drop_first());
        match read_digits(&chars, 1) {
            Some(value) => if value <= i128::MAX as u128 {
                Some(-(value as i128))
            } else if value == 0x8000_0000_0000_0000_0000_0000_0000_0000u128 {
                Some(i128::MIN)
            } else {
                None
            },
            None => None,
        }
    } else {
        match parse_u128(text) {
            Some(value) => if value <= i128::MAX as u128 {
                Some(value as i128)
            } else {
                None
            },
            None => None,
        }
    }
}

pub fn parse_i64(text: &str) -> (result: Option<i64>)
    ensures
        match result {
            Some(value) => parse_signed(text@, i64::MIN as int, i64::MAX as int) == Some(
                value as int,
            ),
            None => parse_signed(text@, i64::MIN as int, i64::MAX as int) is None,
        },
{
    match parse_i128(text) {
        Some(value) => if i64::MIN as i128 <= value && value <= i64::MAX as i128 {
            Some(value as i64)
        } else {
            None
        },
        None => None,
    }
}

pub fn parse_i32(text: &str) -> (result: Option<i32>)
    ensures
        match result {
            Some(value) => parse_signed(text@, i32::MIN as int, i32::MAX as int) == Some(
                value as int,
            ),
            None => parse_signed(text@, i32::MIN as int, i32::MAX as int) is None,
        },
{
    match parse_i128(text) {
        Some(value) => if i32::MIN as i128 <= value && value <= i32::MAX as i128 {
            Some(value as i32)
        } else {
            None
        },
        None => None,
    }
}

pub open spec fn digit_char(value: nat) -> char {
    (48 + value) as char
}

/// The shortest decimal text of a number.
pub open spec fn decimal(value: nat) -> Seq<char>
    decreases value,
{
    if value < 10 {
        seq![digit_char(value)]
    } else {
        decimal(value / 10).push(digit_char(value % 10))
    }
}

/// The shortest decimal text of a signed number.
pub open spec fn decimal_signed(value: int) -> Seq<char> {
    if value < 0 {
        seq!['-'] + decimal((-value) as nat)
    } else {
        decimal(value as nat)
    }
}

pub fn decimal_text(value: u128) -> (result: String)
    ensures
        result@ == decimal(value as nat),
    decreases value,
{
    let digit: u8 = (value % 10) as u8;
    let c: char = (48u8 + digit) as char;
    assert(c == digit_char((value % 10) as nat));
    if value < 10 {
        let mut result = String::new();
        result.push(c);
        assert(result@ =~= seq![c]);
        result
    } else {
        let mut result = decimal_text(value / 10);
        result.push(c);
        result
    }
}

pub fn decimal_text_signed(value: i128) -> (result: String)
    requires
        value > i128::MIN,
    ensures
        result@ == decimal_signed(value as int),
{
    if value < 0 {
        let digits = decimal_text((-value) as u128);
        let mut result = String::new();
        result.push('-');
        result.append(digits.as_str());
        assert(result@ =~= seq!['-'] + digits@);
        result
    } else {
        decimal_text(value as u128)
    }
}

/// Reading the decimal text of a number gives the number back.
pub proof fn law_decimal_round_trip(value: nat, max: nat)
    requires
        value <= max,
    ensures
        all_digits(decimal(value)),
        digits_value(decimal(value)) == value,
        decimal(value).len() >= 1,
        parse_unsigned(decimal(value), max) == Some(value),
    decreases value,
{
    if value < 10 {
        reveal_with_fuel(digits_value, 2);
        assert(decimal(value).drop_last() =~= Seq::<char>::empty());
        assert(decimal(value).last() == digit_char(value));
    } else {
        law_decimal_round_trip(value / 10, max);
        assert(decimal(value).drop_last() == decimal(value / 10));
        assert(decimal(value).last() == digit_char(value % 10));
        assert(decimal(value)[0] == decimal(value / 10)[0]);
        assert forall|i: int| 0 <= i < decimal(value).len() implies ascii_digit(
            #[trigger] decimal(value)[i],
        ) by {
            if i < decimal(value).len() - 1 {
                assert(decimal(value)[i] == decimal(value / 10)[i]);
            }
        }
    }
    assert(ascii_digit(decimal(value)[0]));
}

/// Reading the decimal text of a signed number gives the number back.
pub proof fn law_signed_decimal_round_trip(value: int, min: int, max: int)
    requires
        min <= value <= max,
    ensures
        parse_signed(decimal_signed(value), min, max) == Some(value),
{
    if value < 0 {
        law_decimal_round_trip((-value) as nat, (-value) as nat);
        assert(decimal_signed(value).drop_first() =~= decimal((-value) as nat));
    } else {
        law_decimal_round_trip(value as nat, value as nat);
        assert(ascii_digit(decimal(value as nat)[0]));
    }
}

// ---------------------------------------------------------------------------
// Hexadecimal
// ---------------------------------------------------------------------------

pub open spec fn hex_char(value: int) -> char {
    if value < 10 {
        (48 + value) as char
    } else {
        (87 + value) as char
    }
}

fn to_hex_char(value: u8) -> (result: char)
    requires
        value < 16,
    ensures
        result == hex_char(value as int),
{
    if value < 10 {
        (48u8 + value) as char
    } else {
        (87u8 + value) as char
    }
}

/// Two lower-case hexadecimal digits for each byte.
pub open spec fn hex(bytes: Seq<u8>) -> Seq<char>
    decreases bytes.len(),
{
    if bytes.len() == 0 {
        Seq::empty()
    } else {
        hex(bytes.drop_last()).push(hex_char(bytes.last() as int / 16)).push(
            hex_char(bytes.last() as int % 16),
        )
    }
}

pub fn hex_text(bytes: &Vec<u8>) -> (result: String)
    ensures
        result@ == hex(bytes@),
{
    let mut result = String::new();
    let mut i: usize = 0;
    assert(bytes@.take(0) =~= Seq::<u8>::empty());
    while i < bytes.len()
        invariant
            i <= bytes@.len(),
            result@ == hex(bytes@.take(i as int)),
        decreases bytes@.len() - i,
    {
        let byte: u8 = bytes[i];
        assert(bytes@.take(i + 1).drop_last() =~= bytes@.take(i as int));
        result.push(to_hex_char(byte / 16));
        result.push(to_hex_char(byte % 16));
        i += 1;
    }
    assert(bytes@.take(i as int) =~= bytes@);
    result
}

/// A lower-case hexadecimal digit.
pub open spec fn lower_hex_digit(c: char) -> bool {
    '0' <= c <= '9' || 'a' <= c <= 'f'
}

pub proof fn lemma_hex_digits(bytes: Seq<u8>)
    ensures
        forall|i: int| 0 <= i < hex(bytes).len() ==> lower_hex_digit(#[trigger] hex(bytes)[i]),
    decreases bytes.len(),
{
    if bytes.len() > 0 {
        lemma_hex_digits(bytes.drop_last());
        let front = hex(bytes.drop_last());
        let high = hex_char(bytes.last() as int / 16);
        let low = hex_char(bytes.last() as int % 16);
        assert(lower_hex_digit(high) && lower_hex_digit(low));
        assert forall|i: int| 0 <= i < hex(bytes).len() implies lower_hex_digit(
            #[trigger] hex(bytes)[i],
        ) by {
            if i < front.len() {
                assert(hex(bytes)[i] == front[i]);
            }
        }
    }
}

pub proof fn lemma_hex_len(bytes: Seq<u8>)
    ensures
        hex(bytes).len() == 2 * bytes.len(),
    decreases bytes.len(),
{
    if bytes.len() > 0 {
        lemma_hex_len(bytes.drop_last());
    }
}

/// The bytes of a word of thirty-two bits, highest first.
pub open spec fn single_bytes(bits: u32) -> Seq<u8> {
    seq![
        (bits / 0x100_0000) as u8,
        (bits / 0x1_0000 % 0x100) as u8,
        (bits / 0x100 % 0x100) as u8,
        (bits % 0x100) as u8,
    ]
}

/// The bytes of a word of sixty-four bits, highest first.
pub open spec fn double_bytes(bits: u64) -> Seq<u8> {
    single_bytes((bits / 0x1_0000_0000) as u32) + single_bytes((bits % 0x1_0000_0000) as u32)
}

fn push_bytes(bytes: &mut Vec<u8>, bits: u32)
    ensures
        final(bytes)@ == old(bytes)@ + single_bytes(bits),
{
    bytes.push((bits / 0x100_0000) as u8);
    bytes.push((bits / 0x1_0000 % 0x100) as u8);
    bytes.push((bits / 0x100 % 0x100) as u8);
    bytes.push((bits % 0x100) as u8);
    assert(bytes@ =~= old(bytes)@ + single_bytes(bits));
}

pub(crate) fn spell_single(bits: u32) -> (result: String)
    ensures
        result@ == hex(single_bytes(bits)),
{
    let mut bytes: Vec<u8> = Vec::new();
    push_bytes(&mut bytes, bits);
    assert(bytes@ =~= single_bytes(bits));
    hex_text(&bytes)
}

pub(crate) fn spell_double(bits: u64) -> (result: String)
    ensures
        result@ == hex(double_bytes(bits)),
{
    let mut bytes: Vec<u8> = Vec::new();
    push_bytes(&mut bytes, (bits / 0x1_0000_0000) as u32);
    push_bytes(&mut bytes, (bits % 0x1_0000_0000) as u32);
    assert(bytes@ =~= double_bytes(bits));
    hex_text(&bytes)
}

pub open spec fn hex_digit_value(c: char) -> nat {
    if ascii_digit(c) {
        (c as int - 48) as nat
    } else if 'a' <= c <= 'f' {
        (c as int - 87) as nat
    } else {
        (c as int - 55) as nat
    }
}

/// The number that a row of hexadecimal digits stands for.
pub open spec fn hex_value(digits: Seq<char>) -> nat
    decreases digits.len(),
{
    if digits.len() == 0 {
        0
    } else {
        hex_value(digits.drop_last()) * 16 + hex_digit_value(digits.last())
    }
}

pub proof fn lemma_hex_value_prefix(digits: Seq<char>, n: int)
    requires
        0 <= n <= digits.len(),
    ensures
        hex_value(digits.take(n)) <= hex_value(digits),
    decreases digits.len() - n,
{
    if n < digits.len() {
        assert(digits.take(n + 1).drop_last() == digits.take(n));
        lemma_hex_value_prefix(digits, n + 1);
    } else {
        assert(digits.take(n) == digits);
    }
}

/// Reading the hexadecimal text of bytes gives their number, highest byte
/// first.
pub proof fn lemma_hex_reads_back(bytes: Seq<u8>)
    ensures
        hex(bytes).len() == 2 * bytes.len(),
        all_hex_digits(hex(bytes)),
        bytes.len() > 0 ==> hex_value(hex(bytes)) == hex_value(hex(bytes.drop_last())) * 256
            + bytes.last(),
    decreases bytes.len(),
{
    if bytes.len() > 0 {
        let front = hex(bytes.drop_last());
        let high = hex_char(bytes.last() as int / 16);
        let low = hex_char(bytes.last() as int % 16);
        lemma_hex_reads_back(bytes.drop_last());
        assert(front.push(high).push(low).drop_last() =~= front.push(high));
        assert(front.push(high).drop_last() =~= front);
        assert(hex_digit_value(high) == bytes.last() as int / 16);
        assert(hex_digit_value(low) == bytes.last() as int % 16);
        assert(hex_value(hex(bytes)) == hex_value(front.push(high)) * 16 + hex_digit_value(low));
        assert forall|i: int| 0 <= i < hex(bytes).len() implies ascii_hex_digit(
            #[trigger] hex(bytes)[i],
        ) by {
            if i < front.len() {
                assert(hex(bytes)[i] == front[i]);
            }
        }
    }
}

/// Reading the hexadecimal text of a word of thirty-two bits gives its bits.
pub proof fn lemma_single_reads_back(bits: u32)
    ensures
        hex(single_bytes(bits)).len() == 8,
        all_hex_digits(hex(single_bytes(bits))),
        hex_value(hex(single_bytes(bits))) == bits,
{
    lemma_word_reads_back(Seq::empty(), bits);
    assert(Seq::<u8>::empty() + single_bytes(bits) =~= single_bytes(bits));
}

proof fn lemma_bytes_of_word(bits: int)
    requires
        0 <= bits < 0x1_0000_0000,
    ensures
        0 <= bits / 0x100_0000 < 0x100,
        (bits / 0x100_0000) * 0x100_0000 + (bits / 0x1_0000 % 0x100) * 0x1_0000 + (bits / 0x100
            % 0x100) * 0x100 + bits % 0x100 == bits,
{
    let high = bits / 0x100;
    let higher = high / 0x100;
    assert(bits / 0x1_0000 == higher);
    assert(bits / 0x100_0000 == higher / 0x100);
}

/// Four more bytes move a number up by thirty-two bits.
proof fn lemma_word_reads_back(front: Seq<u8>, bits: u32)
    ensures
        hex(front + single_bytes(bits)).len() == 2 * front.len() + 8,
        all_hex_digits(hex(front + single_bytes(bits))),
        hex_value(hex(front + single_bytes(bits))) == hex_value(hex(front)) * 0x1_0000_0000 + bits,
{
    let first = (bits / 0x100_0000) as u8;
    let second = (bits / 0x1_0000 % 0x100) as u8;
    let third = (bits / 0x100 % 0x100) as u8;
    let fourth = (bits % 0x100) as u8;
    let one = front.push(first);
    let two = one.push(second);
    let three = two.push(third);
    let whole = three.push(fourth);
    assert(front + single_bytes(bits) =~= whole);
    assert(whole.drop_last() =~= three);
    assert(three.drop_last() =~= two);
    assert(two.drop_last() =~= one);
    assert(one.drop_last() =~= front);
    lemma_hex_reads_back(whole);
    lemma_hex_reads_back(three);
    lemma_hex_reads_back(two);
    lemma_hex_reads_back(one);
    assert(first as int * 0x100_0000 + second as int * 0x1_0000 + third as int * 0x100
        + fourth as int == bits as int) by {
        lemma_bytes_of_word(bits as int);
    }
}

/// Reading the hexadecimal text of a word of sixty-four bits gives its bits.
pub proof fn lemma_double_reads_back(bits: u64)
    ensures
        hex(double_bytes(bits)).len() == 16,
        all_hex_digits(hex(double_bytes(bits))),
        hex_value(hex(double_bytes(bits))) == bits,
{
    lemma_single_reads_back((bits / 0x1_0000_0000) as u32);
    lemma_word_reads_back(
        single_bytes((bits / 0x1_0000_0000) as u32),
        (bits % 0x1_0000_0000) as u32,
    );
}

/// A power of sixteen.
pub open spec fn sixteen_to(count: nat) -> nat
    decreases count,
{
    if count == 0 {
        1
    } else {
        16 * sixteen_to((count - 1) as nat)
    }
}

/// A row of hexadecimal digits is less than the power of sixteen of its length.
pub proof fn lemma_hex_bound(digits: Seq<char>)
    requires
        all_hex_digits(digits),
    ensures
        hex_value(digits) < sixteen_to(digits.len()),
    decreases digits.len(),
{
    if digits.len() > 0 {
        let rest = digits.drop_last();
        assert(ascii_hex_digit(digits[digits.len() - 1]));
        assert forall|i: int| 0 <= i < rest.len() implies ascii_hex_digit(
            #[trigger] rest[i],
        ) by {
            assert(ascii_hex_digit(digits[i]));
        }
        lemma_hex_bound(rest);
    }
}

/// How many hexadecimal digits a text begins with.
pub open spec fn leading_hex_digits(text: Seq<char>) -> nat
    decreases text.len(),
{
    if text.len() == 0 || !ascii_hex_digit(text[0]) {
        0
    } else {
        1 + leading_hex_digits(text.drop_first())
    }
}

/// Why a text is no hexadecimal number up to `max`, where it is none.
pub open spec fn hex_complaint(text: Seq<char>, max: nat) -> Seq<char> {
    let digits = without_plus(text);
    if text.len() == 0 {
        "cannot parse integer from empty string"@
    } else if hex_value(digits.take(leading_hex_digits(digits) as int)) > max {
        "number too large to fit in target type"@
    } else {
        "invalid digit found in string"@
    }
}

/// How a hexadecimal number no larger than `max` is read: an optional plus
/// sign and at least one hexadecimal digit.
pub open spec fn parse_hex(text: Seq<char>, max: nat) -> Option<nat> {
    let digits = without_plus(text);
    if digits.len() > 0 && all_hex_digits(digits) && hex_value(digits) <= max {
        Some(hex_value(digits))
    } else {
        None
    }
}

pub fn parse_hex_u64(text: &str) -> (result: Option<u64>)
    ensures
        match result {
            Some(value) => parse_hex(text@, u64::MAX as nat) == Some(value as nat),
            None => parse_hex(text@, u64::MAX as nat) is None,
        },
{
    let chars = chars_of(text);
    let from: usize = if chars.len() > 0 && chars[0] == '+' {
        1
    } else {
        0
    };
    let ghost digits = chars@.skip(from as int);
    assert(digits =~= without_plus(text@));
    if from == chars.len() {
        return None;
    }
    let mut value: u64 = 0;
    let mut i: usize = from;
    assert(digits.take(0) == Seq::<char>::empty());
    while i < chars.len()
        invariant
            from <= i <= chars@.len(),
            digits == chars@.skip(from as int),
            digits == without_plus(text@),
            forall|k: int| 0 <= k < i - from ==> ascii_hex_digit(#[trigger] digits[k]),
            value == hex_value(digits.take(i - from)),
        decreases chars@.len() - i,
    {
        let c: char = chars[i];
        assert(digits[i - from] == c);
        if !is_ascii_hex_digit(c) {
            assert(!all_hex_digits(digits));
            return None;
        }
        let digit: u64 = if '0' <= c && c <= '9' {
            (c as u32 - 48) as u64
        } else if 'a' <= c && c <= 'f' {
            (c as u32 - 87) as u64
        } else {
            (c as u32 - 55) as u64
        };
        proof {
            assert(digits.take(i - from + 1).drop_last() == digits.take(i - from));
            assert(digits.take(i - from + 1).last() == digits[i - from]);
            lemma_hex_value_prefix(digits, i - from + 1);
        }
        if value > (u64::MAX - digit) / 16 {
            assert(value * 16 + digit > u64::MAX);
            return None;
        }
        value = value * 16 + digit;
        i += 1;
    }
    assert(digits.take(digits.len() as int) == digits);
    Some(value)
}


// ---------------------------------------------------------------------------
// Why a number is not read
// ---------------------------------------------------------------------------

proof fn lemma_leading_digits(text: Seq<char>, n: int)
    requires
        0 <= n <= text.len(),
        forall|i: int| 0 <= i < n ==> ascii_digit(#[trigger] text[i]),
        n < text.len() ==> !ascii_digit(text[n]),
    ensures
        leading_digits(text) == n,
    decreases text.len(),
{
    if n > 0 {
        let rest = text.drop_first();
        assert(ascii_digit(text[0]));
        assert forall|i: int| 0 <= i < n - 1 implies ascii_digit(#[trigger] rest[i]) by {
            assert(rest[i] == text[i + 1]);
        }
        lemma_leading_digits(rest, n - 1);
    }
}

proof fn lemma_leading_hex_digits(text: Seq<char>, n: int)
    requires
        0 <= n <= text.len(),
        forall|i: int| 0 <= i < n ==> ascii_hex_digit(#[trigger] text[i]),
        n < text.len() ==> !ascii_hex_digit(text[n]),
    ensures
        leading_hex_digits(text) == n,
    decreases text.len(),
{
    if n > 0 {
        let rest = text.drop_first();
        assert(ascii_hex_digit(text[0]));
        assert forall|i: int| 0 <= i < n - 1 implies ascii_hex_digit(#[trigger] rest[i]) by {
            assert(rest[i] == text[i + 1]);
        }
        lemma_leading_hex_digits(rest, n - 1);
    }
}

/// Where the digits of a literal begin behind a plus sign.
fn plus_length(chars: &Vec<char>) -> (result: usize)
    ensures
        result <= chars@.len(),
        chars@.skip(result as int) == without_plus(chars@),
{
    if chars.len() > 0 && chars[0] == '+' {
        assert(chars@.skip(1) =~= chars@.drop_first());
        1
    } else {
        assert(chars@.skip(0) =~= chars@);
        0
    }
}

/// Says why a text is no unsigned integer up to `max`.
pub fn explain_unsigned(text: &str, max: u64) -> (result: String)
    ensures
        result@ == unsigned_complaint(text@, max as nat),
{
    let chars = chars_of(text);
    if chars.len() == 0 {
        return "cannot parse integer from empty string".to_owned();
    }
    let from: usize = plus_length(&chars);
    let ghost digits = without_plus(text@);
    let mut to: usize = from;
    while to < chars.len() && is_ascii_digit(chars[to])
        invariant
            from <= to <= chars@.len(),
            digits == chars@.skip(from as int),
            forall|i: int| 0 <= i < to - from ==> ascii_digit(#[trigger] digits[i]),
        decreases chars@.len() - to,
    {
        to += 1;
    }
    let prefix = text_between(&chars, from, to);
    proof {
        if to < chars@.len() {
            assert(digits[to - from] == chars@[to as int]);
        }
        lemma_leading_digits(digits, to - from);
        assert(prefix@ =~= digits.take(to - from));
    }
    if from == to {
        return "invalid digit found in string".to_owned();
    }
    assert(ascii_digit(digits[0]));
    assert(prefix@[0] == digits[0]);
    match parse_u64(prefix.as_str()) {
        Some(value) if value <= max => "invalid digit found in string".to_owned(),
        _ => "number too large to fit in target type".to_owned(),
    }
}

/// Says why a text is no hexadecimal number of sixty-four bits.
pub fn explain_hex(text: &str) -> (result: String)
    ensures
        result@ == hex_complaint(text@, u64::MAX as nat),
{
    let chars = chars_of(text);
    if chars.len() == 0 {
        return "cannot parse integer from empty string".to_owned();
    }
    let from: usize = plus_length(&chars);
    let ghost digits = without_plus(text@);
    let mut to: usize = from;
    while to < chars.len() && is_ascii_hex_digit(chars[to])
        invariant
            from <= to <= chars@.len(),
            digits == chars@.skip(from as int),
            forall|i: int| 0 <= i < to - from ==> ascii_hex_digit(#[trigger] digits[i]),
        decreases chars@.len() - to,
    {
        to += 1;
    }
    let prefix = text_between(&chars, from, to);
    proof {
        if to < chars@.len() {
            assert(digits[to - from] == chars@[to as int]);
        }
        lemma_leading_hex_digits(digits, to - from);
        assert(prefix@ =~= digits.take(to - from));
    }
    if from == to {
        return "invalid digit found in string".to_owned();
    }
    assert(ascii_hex_digit(digits[0]));
    assert(prefix@[0] == digits[0]);
    match parse_hex_u64(prefix.as_str()) {
        Some(_) => "invalid digit found in string".to_owned(),
        None => "number too large to fit in target type".to_owned(),
    }
}

} // verus!
