//! Positions in the history of a source, and their order.
use crate::change_event::model::SourceCursor;
use crate::encoding::{
    base64url_decoded, base64url_read, read_base64url, read_utf8, utf8_complaint, utf8_decoded,
};
use crate::mysql_source_contract::cursor::{
    big_endian, big_endian_bytes, cursor_of, is_plain_file, lemma_big_endian, lemma_plain_bytes,
    plain_file, position_bytes, CURSOR_FORMAT,
};
use crate::number::{
    explain_hex, explain_unsigned, hex_complaint, parse_hex, parse_hex_u64, parse_u64,
    parse_unsigned, unsigned_complaint,
};
use crate::text::{
    chars_of, rsplit_once, same, split_at_first, split_at_last, split_once,
};
use std::cmp::Ordering;
use vstd::prelude::*;

verus! {

/// An error of a checkpoint, with its message.
#[derive(Debug)]
pub struct CheckpointError {
    message: String,
}

impl CheckpointError {
    pub closed spec fn text(&self) -> Seq<char> {
        self.message@
    }

    pub fn new(message: &str) -> (result: Self)
        ensures
            result.text() == message@,
    {
        Self { message: message.to_owned() }
    }

    pub fn message(&self) -> (result: &str)
        ensures
            result@ == self.text(),
    {
        self.message.as_str()
    }
}

/// What a call has ended with.
pub open spec fn complaint_of<T>(result: Result<T, CheckpointError>) -> Option<Seq<char>> {
    match result {
        Ok(_) => None,
        Err(error) => Some(error.text()),
    }
}

pub(crate) fn refuse<T>(message: &str) -> (result: Result<T, CheckpointError>)
    ensures
        complaint_of(result) == Some(message@),
        result is Err,
{
    Err(CheckpointError::new(message))
}

// ---------------------------------------------------------------------------
// Reading positions
// ---------------------------------------------------------------------------

pub const LSN_FORMAT: &'static str = "postgresql.lsn.v1";

/// The two halves of a log sequence number.
pub open spec fn lsn_halves(text: Seq<char>) -> Result<(nat, nat), Seq<char>> {
    match split_once(text, '/') {
        None => Err("invalid PostgreSQL LSN"@),
        Some((high, low)) => match parse_hex(high, u64::MAX as nat) {
            None => Err(hex_complaint(high, u64::MAX as nat)),
            Some(upper) => match parse_hex(low, u64::MAX as nat) {
                None => Err(hex_complaint(low, u64::MAX as nat)),
                Some(lower) => Ok((upper, lower)),
            },
        },
    }
}

fn read_lsn_halves(text: &str) -> (result: Result<(u64, u64), CheckpointError>)
    ensures
        match result {
            Ok((high, low)) => lsn_halves(text@) == Ok::<_, Seq<char>>((high as nat, low as nat)),
            Err(error) => lsn_halves(text@) == Err::<(nat, nat), _>(error.text()),
        },
{
    match split_at_first(text, '/') {
        None => Err(CheckpointError::new("invalid PostgreSQL LSN")),
        Some((high, low)) => match parse_hex_u64(high.as_str()) {
            None => {
                let message = explain_hex(high.as_str());
                Err(CheckpointError::new(message.as_str()))
            },
            Some(upper) => match parse_hex_u64(low.as_str()) {
                None => {
                    let message = explain_hex(low.as_str());
                    Err(CheckpointError::new(message.as_str()))
                },
                Some(lower) => Ok((upper, lower)),
            },
        },
    }
}

/// The number that a log sequence number stands for.
pub open spec fn lsn(text: Seq<char>) -> Result<nat, Seq<char>> {
    match lsn_halves(text) {
        Err(message) => Err(message),
        Ok((high, low)) => if high > u32::MAX || low > u32::MAX {
            Err("invalid PostgreSQL LSN"@)
        } else {
            Ok(high * 0x1_0000_0000 + low)
        },
    }
}

fn parse_postgresql_lsn(text: &str) -> (result: Result<u64, CheckpointError>)
    ensures
        match result {
            Ok(number) => lsn(text@) == Ok::<_, Seq<char>>(number as nat),
            Err(error) => lsn(text@) == Err::<nat, _>(error.text()),
        },
{
    match read_lsn_halves(text) {
        Err(error) => Err(error),
        Ok((high, low)) => {
            if high > 0xffff_ffff || low > 0xffff_ffff {
                return Err(CheckpointError::new("invalid PostgreSQL LSN"));
            }
            Ok(high * 0x1_0000_0000 + low)
        },
    }
}

/// A position that a binary log can have.
pub open spec fn possible_position(file: Seq<char>, position: nat) -> bool {
    0 < file.len() <= 255 && plain_file(file) && 4 <= position <= u32::MAX
}

pub open spec fn position_fault(file: Seq<char>, position: nat) -> Option<Seq<char>> {
    if possible_position(file, position) {
        None
    } else {
        Some("invalid binlog file or position"@)
    }
}

pub(crate) fn validate_position(file: &str, position: u64) -> (result: Result<(), CheckpointError>)
    ensures
        complaint_of(result) == position_fault(file@, position as nat),
{
    let length: usize = chars_of(file).len();
    if length == 0 || length > 255 || !is_plain_file(file) || position < 4 || position > 0xffff_ffff {
        return Err(CheckpointError::new("invalid binlog file or position"));
    }
    Ok(())
}

/// Where the first zero byte is, or the length where there is none.
pub open spec fn first_zero(bytes: Seq<u8>) -> int
    decreases bytes.len(),
{
    if bytes.len() == 0 || bytes[0] == 0 {
        0
    } else {
        1 + first_zero(bytes.drop_first())
    }
}

proof fn lemma_first_zero(bytes: Seq<u8>, at: int)
    requires
        0 <= at <= bytes.len(),
        forall|i: int| 0 <= i < at ==> #[trigger] bytes[i] != 0,
        at < bytes.len() ==> bytes[at] == 0,
    ensures
        first_zero(bytes) == at,
    decreases bytes.len(),
{
    if at > 0 {
        let rest = bytes.drop_first();
        assert forall|i: int| 0 <= i < at - 1 implies #[trigger] rest[i] != 0 by {
            assert(rest[i] == bytes[i + 1]);
        }
        lemma_first_zero(rest, at - 1);
    }
}

/// The position that a cursor names: a log sequence number, or a file and an
/// offset.
pub open spec fn named_position(cursor: SourceCursor) -> Result<(Seq<char>, nat), Seq<char>> {
    if cursor.format@ == LSN_FORMAT@ {
        match lsn_halves(cursor.value@) {
            Err(message) => Err(message),
            Ok((high, low)) => if low > u32::MAX {
                Err("invalid PostgreSQL LSN"@)
            } else {
                Ok((cursor.value@, high % 0x1_0000_0000 * 0x1_0000_0000 + low))
            },
        }
    } else if cursor.format@ != CURSOR_FORMAT@ {
        Err("unsupported source cursor"@)
    } else {
        match base64url_read(cursor.value@) {
            Err(message) => Err(message),
            Ok(bytes) => {
                let at = first_zero(bytes);
                if at >= bytes.len() {
                    Err("invalid source cursor"@)
                } else {
                    match utf8_decoded(bytes.take(at)) {
                        None => Err(utf8_complaint(bytes.take(at))),
                        Some(file) => if bytes.len() - at - 1 != 4 {
                            Err("invalid cursor position"@)
                        } else {
                            let position = big_endian(bytes.skip(at + 1));
                            match position_fault(file, position) {
                                Some(message) => Err(message),
                                None => Ok((file, position)),
                            }
                        },
                    }
                }
            },
        }
    }
}

fn find_zero(bytes: &Vec<u8>) -> (result: usize)
    ensures
        result as int == first_zero(bytes@),
        result <= bytes@.len(),
{
    let mut i: usize = 0;
    while i < bytes.len()
        invariant
            i <= bytes@.len(),
            forall|k: int| 0 <= k < i ==> #[trigger] bytes@[k] != 0,
        decreases bytes@.len() - i,
    {
        if bytes[i] == 0 {
            proof {
                lemma_first_zero(bytes@, i as int);
            }
            return i;
        }
        i += 1;
    }
    proof {
        lemma_first_zero(bytes@, i as int);
    }
    i
}

fn take_bytes(bytes: &Vec<u8>, count: usize) -> (result: Vec<u8>)
    requires
        count <= bytes@.len(),
    ensures
        result@ == bytes@.take(count as int),
{
    let mut list: Vec<u8> = Vec::new();
    let mut i: usize = 0;
    while i < count
        invariant
            i <= count <= bytes@.len(),
            list@ == bytes@.take(i as int),
        decreases count - i,
    {
        list.push(bytes[i]);
        assert(list@ =~= bytes@.take(i + 1));
        i += 1;
    }
    list
}

/// The position that a cursor names.
pub fn file_position(cursor: &SourceCursor) -> (result: Result<(String, u64), CheckpointError>)
    ensures
        match result {
            Ok((file, position)) => named_position(*cursor) == Ok::<_, Seq<char>>(
                (file@, position as nat),
            ),
            Err(error) => named_position(*cursor) == Err::<(Seq<char>, nat), _>(error.text()),
        },
{
    if same(cursor.format.as_str(), LSN_FORMAT) {
        let (high, low) = match read_lsn_halves(cursor.value.as_str()) {
            Ok(halves) => halves,
            Err(error) => return Err(error),
        };
        if low > 0xffff_ffff {
            return Err(CheckpointError::new("invalid PostgreSQL LSN"));
        }
        return Ok((cursor.value.clone(), high % 0x1_0000_0000 * 0x1_0000_0000 + low));
    }
    if !same(cursor.format.as_str(), CURSOR_FORMAT) {
        return Err(CheckpointError::new("unsupported source cursor"));
    }
    let bytes = match read_base64url(cursor.value.as_str()) {
        Ok(bytes) => bytes,
        Err(message) => return Err(CheckpointError::new(message.as_str())),
    };
    let at: usize = find_zero(&bytes);
    if at == bytes.len() {
        return Err(CheckpointError::new("invalid source cursor"));
    }
    let file = match read_utf8(take_bytes(&bytes, at)) {
        Ok(file) => file,
        Err(message) => return Err(CheckpointError::new(message.as_str())),
    };
    if bytes.len() - at - 1 != 4 {
        return Err(CheckpointError::new("invalid cursor position"));
    }
    let ghost rest = bytes@.skip(at + 1);
    assert(rest[0] == bytes@[at + 1] && rest[1] == bytes@[at + 2] && rest[2] == bytes@[at + 3]
        && rest[3] == bytes@[at + 4]);
    let position: u64 = bytes[at + 1] as u64 * 0x100_0000 + bytes[at + 2] as u64 * 0x1_0000
        + bytes[at + 3] as u64 * 0x100 + bytes[at + 4] as u64;
    match validate_position(file.as_str(), position) {
        Ok(_) => Ok((file, position)),
        Err(error) => Err(error),
    }
}

/// The cursor of a position names that position.
pub proof fn law_position_of_a_cursor(cursor: SourceCursor, file: Seq<char>, position: u32)
    requires
        cursor_of(cursor, file, position),
        possible_position(file, position as nat),
    ensures
        named_position(cursor) == Ok::<_, Seq<char>>((file, position as nat)),
{
    reveal_strlit("postgresql.lsn.v1");
    reveal_strlit("mysql.binlog.file-position.v1");
    assert(LSN_FORMAT@.len() == 17);
    assert(CURSOR_FORMAT@.len() == 29);
    let bytes = position_bytes(file, position);
    assert(base64url_decoded(cursor.value@) == Some(bytes));
    let name = vstd::utf8::encode_utf8(file);
    lemma_plain_bytes(file);
    vstd::utf8::encode_utf8_valid_utf8(file);
    vstd::utf8::encode_utf8_decode_utf8(file);
    assert(bytes[name.len() as int] == 0);
    assert forall|i: int| 0 <= i < name.len() implies #[trigger] bytes[i] != 0 by {
        assert(bytes[i] == name[i]);
        assert(name.contains(name[i]));
    }
    lemma_first_zero(bytes, name.len() as int);
    assert(bytes.take(name.len() as int) =~= name);
    assert(bytes.skip((name.len() + 1) as int) =~= big_endian_bytes(position));
    lemma_big_endian(position);
    assert(first_zero(bytes) == name.len());
    assert(utf8_decoded(name) == Some(file));
    assert(bytes.len() - name.len() - 1 == 4);
}

// ---------------------------------------------------------------------------
// The order of positions
// ---------------------------------------------------------------------------

/// The order of two numbers: negative, zero or positive.
pub open spec fn number_order(a: nat, b: nat) -> int {
    if a < b {
        -1
    } else if a == b {
        0
    } else {
        1
    }
}

/// The prefix and the number of a log file.
pub open spec fn file_parts(file: Seq<char>) -> Result<(Seq<char>, nat), Seq<char>> {
    match rsplit_once(file, '.') {
        None => Err("cannot compare binlog files"@),
        Some((prefix, number)) => match parse_unsigned(number, u64::MAX as nat) {
            None => Err(unsigned_complaint(number, u64::MAX as nat)),
            Some(number) => Ok((prefix, number)),
        },
    }
}

fn split_file(file: &str) -> (result: Result<(String, u64), CheckpointError>)
    ensures
        match result {
            Ok((prefix, number)) => file_parts(file@) == Ok::<_, Seq<char>>(
                (prefix@, number as nat),
            ),
            Err(error) => file_parts(file@) == Err::<(Seq<char>, nat), _>(error.text()),
        },
{
    match split_at_last(file, '.') {
        None => Err(CheckpointError::new("cannot compare binlog files")),
        Some((prefix, number)) => match parse_u64(number.as_str()) {
            None => {
                let message = explain_unsigned(number.as_str(), u64::MAX);
                Err(CheckpointError::new(message.as_str()))
            },
            Some(number) => Ok((prefix, number)),
        },
    }
}

/// The order of two positions. Files are ordered by their number, so that a
/// rotation from nine to ten goes forward; another prefix is another history.
pub open spec fn position_order(a: Seq<char>, ap: nat, b: Seq<char>, bp: nat) -> Result<
    int,
    Seq<char>,
> {
    if a == b {
        Ok(number_order(ap, bp))
    } else {
        match file_parts(a) {
            Err(message) => Err(message),
            Ok((prefix_a, number_a)) => match file_parts(b) {
                Err(message) => Err(message),
                Ok((prefix_b, number_b)) => if prefix_a != prefix_b {
                    Err("binlog history prefix changed"@)
                } else if number_a != number_b {
                    Ok(number_order(number_a, number_b))
                } else {
                    Ok(number_order(ap, bp))
                },
            },
        }
    }
}

/// The number of an order.
pub open spec fn order_sign(order: Ordering) -> int {
    match order {
        Ordering::Less => -1,
        Ordering::Equal => 0,
        Ordering::Greater => 1,
    }
}

/// What ordering has given.
pub open spec fn order_of(result: Result<Ordering, CheckpointError>) -> Result<int, Seq<char>> {
    match result {
        Ok(order) => Ok(order_sign(order)),
        Err(error) => Err(error.text()),
    }
}

/// A number without its width.
pub open spec fn natural(number: u64) -> nat {
    number as nat
}

fn order_numbers(a: u64, b: u64) -> (result: Ordering)
    ensures
        order_sign(result) == number_order(natural(a), natural(b)),
{
    if a < b {
        Ordering::Less
    } else if a == b {
        Ordering::Equal
    } else {
        Ordering::Greater
    }
}

/// The order of two positions in a binary log.
pub fn compare_position(a: &str, ap: u64, b: &str, bp: u64) -> (result: Result<
    Ordering,
    CheckpointError,
>)
    ensures
        order_of(result) == position_order(a@, natural(ap), b@, natural(bp)),
{
    if same(a, b) {
        return Ok(order_numbers(ap, bp));
    }
    let (prefix_a, number_a) = match split_file(a) {
        Ok(parts) => parts,
        Err(error) => return Err(error),
    };
    let (prefix_b, number_b) = match split_file(b) {
        Ok(parts) => parts,
        Err(error) => return Err(error),
    };
    if !same(prefix_a.as_str(), prefix_b.as_str()) {
        return Err(CheckpointError::new("binlog history prefix changed"));
    }
    if number_a != number_b {
        return Ok(order_numbers(number_a, number_b));
    }
    Ok(order_numbers(ap, bp))
}

/// The order of two positions in the history of a source.
pub open spec fn history_order(
    mode: Option<Seq<char>>,
    a: Seq<char>,
    ap: nat,
    b: Seq<char>,
    bp: nat,
) -> Result<int, Seq<char>> {
    if mode == Some("postgresql_lsn"@) {
        match lsn(a) {
            Err(message) => Err(message),
            Ok(number_a) => if number_a != ap {
                Err("PostgreSQL LSN and checkpoint position disagree"@)
            } else {
                match lsn(b) {
                    Err(message) => Err(message),
                    Ok(number_b) => if number_b != bp {
                        Err("PostgreSQL LSN and checkpoint position disagree"@)
                    } else {
                        Ok(number_order(ap, bp))
                    },
                }
            },
        }
    } else {
        position_order(a, ap, b, bp)
    }
}

fn is_lsn(text: &str, position: u64) -> (result: Result<bool, CheckpointError>)
    ensures
        match result {
            Ok(agrees) => lsn(text@) is Ok && agrees == (lsn(text@) == Ok::<nat, Seq<char>>(
                natural(position),
            )),
            Err(error) => lsn(text@) == Err::<nat, _>(error.text()),
        },
{
    match parse_postgresql_lsn(text) {
        Ok(number) => Ok(number == position),
        Err(error) => Err(error),
    }
}

/// The mode is that of log sequence numbers.
fn by_lsn(mode: Option<&str>) -> (result: bool)
    ensures
        result == (crate::mysql_5_7::type_mapping::view_of(mode) == Some("postgresql_lsn"@)),
{
    match mode {
        Some(mode) => same(mode, "postgresql_lsn"),
        None => false,
    }
}

/// The order of two positions in the history of a source.
pub fn compare_checkpoint_position(mode: Option<&str>, a: &str, ap: u64, b: &str, bp: u64) -> (result: Result<
    Ordering,
    CheckpointError,
>)
    ensures
        order_of(result) == history_order(
            crate::mysql_5_7::type_mapping::view_of(mode),
            a@,
            natural(ap),
            b@,
            natural(bp),
        ),
{
    if by_lsn(mode) {
        match is_lsn(a, ap) {
            Err(error) => return Err(error),
            Ok(agrees) => if !agrees {
                return Err(
                    CheckpointError::new("PostgreSQL LSN and checkpoint position disagree"),
                );
            },
        }
        match is_lsn(b, bp) {
            Err(error) => return Err(error),
            Ok(agrees) => if !agrees {
                return Err(
                    CheckpointError::new("PostgreSQL LSN and checkpoint position disagree"),
                );
            },
        }
        return Ok(order_numbers(ap, bp));
    }
    compare_position(a, ap, b, bp)
}

/// What is wrong with the position of a checkpoint.
pub open spec fn checkpoint_position_fault(mode: Seq<char>, file: Seq<char>, position: nat) -> Option<
    Seq<char>,
> {
    if mode == "postgresql_lsn"@ {
        match lsn(file) {
            Err(message) => Some(message),
            Ok(number) => if number != position {
                Some("PostgreSQL LSN and checkpoint position disagree"@)
            } else {
                None
            },
        }
    } else {
        position_fault(file, position)
    }
}

pub(crate) fn validate_checkpoint_position(mode: &str, file: &str, position: u64) -> (result: Result<
    (),
    CheckpointError,
>)
    ensures
        complaint_of(result) == checkpoint_position_fault(mode@, file@, position as nat),
{
    if same(mode, "postgresql_lsn") {
        return match is_lsn(file, position) {
            Err(error) => Err(error),
            Ok(agrees) => if agrees {
                Ok(())
            } else {
                Err(CheckpointError::new("PostgreSQL LSN and checkpoint position disagree"))
            },
        };
    }
    validate_position(file, position)
}

/// Turning a comparison round turns its result round.
pub proof fn law_order_is_antisymmetric(
    mode: Option<Seq<char>>,
    a: Seq<char>,
    ap: nat,
    b: Seq<char>,
    bp: nat,
)
    requires
        history_order(mode, a, ap, b, bp) is Ok,
    ensures
        history_order(mode, b, bp, a, ap) is Ok,
        history_order(mode, b, bp, a, ap)->Ok_0 == -history_order(mode, a, ap, b, bp)->Ok_0,
{
}

/// Positions that follow one another are in order.
pub proof fn law_order_is_transitive(
    mode: Option<Seq<char>>,
    a: Seq<char>,
    ap: nat,
    b: Seq<char>,
    bp: nat,
    c: Seq<char>,
    cp: nat,
)
    requires
        history_order(mode, a, ap, b, bp) matches Ok(order) && order <= 0,
        history_order(mode, b, bp, c, cp) matches Ok(order) && order <= 0,
    ensures
        history_order(mode, a, ap, c, cp) matches Ok(order) && order <= 0,
{
}

} // verus!
