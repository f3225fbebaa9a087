//! Positions in the binary log as source cursors.
use crate::change_event::model::SourceCursor;
use crate::change_event::validate::SourceContractError;
use crate::encoding::{
    base64url_decode, base64url_decoded, base64url_encode, base64url_encoded, utf8_bytes,
    utf8_decoded, utf8_text,
};
use crate::number::{decimal, decimal_text};
use crate::text::{chars_of, concat3, same};
use vstd::prelude::*;
use vstd::utf8::{encode_scalar, encode_utf8, encode_utf8_decode_utf8, encode_utf8_valid_utf8};

verus! {

/// The format of a cursor that names a file and a position in it.
pub const CURSOR_FORMAT: &'static str = "mysql.binlog.file-position.v1";

/// A character that the name of a log file may hold.
pub open spec fn file_char(c: char) -> bool {
    0 < (c as u32) && (c as u32) < 0x80 && c != '/' && c != '\\'
}

/// Every character may stand in the name of a log file.
pub open spec fn plain_file(file: Seq<char>) -> bool {
    forall|i: int| 0 <= i < file.len() ==> file_char(#[trigger] file[i])
}

fn is_file_char(c: char) -> (result: bool)
    ensures
        result == file_char(c),
{
    0 < (c as u32) && (c as u32) < 0x80 && c != '/' && c != '\\'
}

pub(crate) fn is_plain_file(file: &str) -> (result: bool)
    ensures
        result == plain_file(file@),
{
    let chars = chars_of(file);
    let mut i: usize = 0;
    while i < chars.len()
        invariant
            i <= chars@.len(),
            chars@ == file@,
            forall|k: int| 0 <= k < i ==> file_char(#[trigger] file@[k]),
        decreases chars@.len() - i,
    {
        if !is_file_char(chars[i]) {
            assert(!file_char(file@[i as int]));
            return false;
        }
        i += 1;
    }
    true
}

/// The number that four bytes spell, highest byte first.
pub open spec fn big_endian(bytes: Seq<u8>) -> nat {
    (bytes[0] * 0x100_0000 + bytes[1] * 0x1_0000 + bytes[2] * 0x100 + bytes[3]) as nat
}

/// The four bytes that spell a number, highest byte first.
pub open spec fn big_endian_bytes(number: u32) -> Seq<u8> {
    seq![
        (number / 0x100_0000) as u8,
        (number / 0x1_0000 % 0x100) as u8,
        (number / 0x100 % 0x100) as u8,
        (number % 0x100) as u8,
    ]
}

/// How a position is shown.
pub open spec fn position_text(file: Seq<char>, position: nat) -> Seq<char> {
    file + ":"@ + decimal(position)
}

/// The bytes of a position: the file, a zero byte and the offset.
pub open spec fn position_bytes(file: Seq<char>, position: u32) -> Seq<u8> {
    encode_utf8(file).push(0) + big_endian_bytes(position)
}

/// The file and the offset that a cursor names, or why it names none.
pub open spec fn binlog_position(cursor: SourceCursor) -> Result<(Seq<char>, nat), Seq<char>> {
    if cursor.format@ != CURSOR_FORMAT@ {
        Err("invalid MySQL cursor format"@)
    } else {
        match base64url_decoded(cursor.value@) {
            None => Err("invalid MySQL cursor encoding"@),
            Some(bytes) => if bytes.len() < 6 {
                Err("truncated MySQL cursor"@)
            } else {
                let name = bytes.take(bytes.len() - 5);
                let position = big_endian(bytes.skip(bytes.len() - 4));
                if bytes[bytes.len() - 5] != 0 || name.contains(0) {
                    Err("invalid MySQL cursor filename"@)
                } else {
                    match utf8_decoded(name) {
                        None => Err("invalid MySQL cursor filename UTF-8"@),
                        Some(file) => if name.len() > 255 || !plain_file(file) {
                            Err("invalid MySQL cursor filename"@)
                        } else if position < 4 || cursor.display@ != position_text(
                            file,
                            position,
                        ) {
                            Err("MySQL cursor display/value mismatch"@)
                        } else {
                            Ok((file, position))
                        },
                    }
                }
            },
        }
    }
}

fn has_zero(bytes: &Vec<u8>) -> (result: bool)
    ensures
        result == bytes@.contains(0),
{
    let mut i: usize = 0;
    while i < bytes.len()
        invariant
            i <= bytes@.len(),
            forall|k: int| 0 <= k < i ==> #[trigger] bytes@[k] != 0,
        decreases bytes@.len() - i,
    {
        if bytes[i] == 0 {
            assert(bytes@[i as int] == 0);
            return true;
        }
        i += 1;
    }
    false
}

/// The file and the offset of a cursor.
pub(crate) fn position(cursor: &SourceCursor) -> (result: Result<
    (String, u32),
    SourceContractError,
>)
    ensures
        match result {
            Ok((file, position)) => binlog_position(*cursor) == Ok::<_, Seq<char>>(
                (file@, position as nat),
            ),
            Err(error) => binlog_position(*cursor) == Err::<(Seq<char>, nat), _>(error.text()),
        },
{
    if !same(cursor.format.as_str(), CURSOR_FORMAT) {
        return Err(SourceContractError::new("invalid MySQL cursor format"));
    }
    let bytes = match base64url_decode(cursor.value.as_str()) {
        None => return Err(SourceContractError::new("invalid MySQL cursor encoding")),
        Some(bytes) => bytes,
    };
    let length: usize = bytes.len();
    if length < 6 {
        return Err(SourceContractError::new("truncated MySQL cursor"));
    }
    let split: usize = length - 5;
    let mut name: Vec<u8> = Vec::new();
    let mut i: usize = 0;
    while i < split
        invariant
            i <= split,
            split < bytes@.len(),
            name@ =~= bytes@.take(i as int),
        decreases split - i,
    {
        name.push(bytes[i]);
        i += 1;
    }
    if bytes[split] != 0 || has_zero(&name) {
        return Err(SourceContractError::new("invalid MySQL cursor filename"));
    }
    let file = match utf8_text(name) {
        None => return Err(SourceContractError::new("invalid MySQL cursor filename UTF-8")),
        Some(file) => file,
    };
    if split > 255 || !is_plain_file(file.as_str()) {
        return Err(SourceContractError::new("invalid MySQL cursor filename"));
    }
    let number: u32 = bytes[split + 1] as u32 * 0x100_0000 + bytes[split + 2] as u32 * 0x1_0000
        + bytes[split + 3] as u32 * 0x100 + bytes[split + 4] as u32;
    assert(number == big_endian(bytes@.skip(bytes@.len() - 4)));
    let digits = decimal_text(number as u128);
    let shown = concat3(file.as_str(), ":", digits.as_str());
    if number < 4 || !same(cursor.display.as_str(), shown.as_str()) {
        return Err(SourceContractError::new("MySQL cursor display/value mismatch"));
    }
    Ok((file, number))
}

/// The cursor of a position.
pub open spec fn cursor_of(cursor: SourceCursor, file: Seq<char>, position: u32) -> bool {
    &&& cursor.format@ == CURSOR_FORMAT@
    &&& cursor.value@ == base64url_encoded(position_bytes(file, position))
    &&& base64url_decoded(cursor.value@) == Some(position_bytes(file, position))
    &&& cursor.display@ == position_text(file, position as nat)
}

/// The cursor of a position.
pub fn binlog_cursor(file: &str, position: u32) -> (result: SourceCursor)
    ensures
        cursor_of(result, file@, position),
{
    let mut bytes = utf8_bytes(file);
    bytes.push(0);
    bytes.push((position / 0x100_0000) as u8);
    bytes.push((position / 0x1_0000 % 0x100) as u8);
    bytes.push((position / 0x100 % 0x100) as u8);
    bytes.push((position % 0x100) as u8);
    assert(bytes@ =~= position_bytes(file@, position));
    let digits = decimal_text(position as u128);
    SourceCursor {
        format: CURSOR_FORMAT.to_owned(),
        value: base64url_encode(&bytes),
        display: concat3(file, ":", digits.as_str()),
    }
}

pub proof fn lemma_plain_bytes(file: Seq<char>)
    requires
        plain_file(file),
    ensures
        encode_utf8(file).len() == file.len(),
        !encode_utf8(file).contains(0),
    decreases file.len(),
{
    if file.len() > 0 {
        let rest = file.drop_first();
        assert(file_char(file[0]));
        assert forall|i: int| 0 <= i < rest.len() implies file_char(#[trigger] rest[i]) by {
            assert(file_char(file[i + 1]));
        }
        lemma_plain_bytes(rest);
        let first = file[0] as u32;
        let bytes = encode_utf8(file);
        assert(bytes == encode_scalar(first) + encode_utf8(rest));
        assert(0 < first < 0x80 ==> (first & 0x7f) as u8 != 0) by (bit_vector);
        assert(0 < first < 0x80);
        assert(encode_scalar(first).len() == 1);
        assert(encode_scalar(first)[0] != 0);
        assert forall|i: int| 0 <= i < bytes.len() implies #[trigger] bytes[i] != 0 by {
            if i > 0 {
                assert(bytes[i] == encode_utf8(rest)[i - 1]);
                assert(encode_utf8(rest).contains(encode_utf8(rest)[i - 1]));
            }
        }
    }
}

/// A cursor names the position that it was made of.
pub proof fn law_cursor_names_its_position(cursor: SourceCursor, file: Seq<char>, position: u32)
    requires
        cursor_of(cursor, file, position),
        0 < file.len() <= 255,
        plain_file(file),
        position >= 4,
    ensures
        binlog_position(cursor) == Ok::<_, Seq<char>>((file, position as nat)),
{
    let name = encode_utf8(file);
    let bytes = position_bytes(file, position);
    lemma_plain_bytes(file);
    assert(utf8_decoded(name) == Some(file)) by {
        encode_utf8_valid_utf8(file);
        encode_utf8_decode_utf8(file);
    }
    assert(bytes.take(bytes.len() - 5) =~= name);
    assert(bytes[bytes.len() - 5] == 0);
    assert(bytes.skip(bytes.len() - 4) =~= big_endian_bytes(position));
    lemma_big_endian(position);
}

/// Reading the bytes of a word gives the word back.
pub proof fn lemma_big_endian(word: u32)
    ensures
        big_endian(big_endian_bytes(word)) == word,
{
}

} // verus!
