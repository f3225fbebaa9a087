//! Where a capture starts, what it requires of its source, and what it hands
//! on.
use crate::change_event::model::{ChangeTransaction, ColumnDatum, RowChange};
use crate::change_event::validate::{transaction_fault, validate, ValidatedTransaction};
use crate::mysql_5_7::decoder::{decoded, event_fits, BinlogEvent, Capture, Decoder, EventHeader};
use crate::mysql_5_7::error::{capture_fault, other, undeclared, CaptureError, CaptureFault};
use crate::mysql_5_7::gtid::{bounded_set, entries_view, gtid_set, parse_gtid_set, GtidEntry};
use crate::mysql_5_7::type_mapping::{native_fault, validate_native_type, view_of};
use crate::mysql_source_contract::source::{source_fault, validate_source, MysqlVersion};
use crate::number::{decimal, decimal_text, hex, hex_text};
use crate::text::{
    chars_of, concat, concat3, concat4, concat5, eq_ignore_case, has_prefix, lower, same,
    same_ignoring_case, starts_with, to_upper, upper,
};
use vstd::prelude::*;

verus! {

// ---------------------------------------------------------------------------
// Configuration
// ---------------------------------------------------------------------------

/// A position in the binary log.
#[derive(Debug)]
pub struct BinlogPosition {
    pub file: String,
    pub position: u64,
}

impl Clone for BinlogPosition {
    fn clone(&self) -> (result: Self)
        ensures
            result.file@ == self.file@,
            result.position == self.position,
    {
        BinlogPosition { file: self.file.clone(), position: self.position }
    }
}

/// How a capture finds its start.
#[derive(Debug, Clone, Copy, PartialEq, Eq, Structural)]
pub enum BinlogStartMode {
    Auto,
    Gtid,
    Position,
}

impl BinlogStartMode {
    pub open spec fn label_spec(self) -> Seq<char> {
        match self {
            BinlogStartMode::Auto => "auto"@,
            BinlogStartMode::Gtid => "gtid"@,
            BinlogStartMode::Position => "position"@,
        }
    }

    pub fn label(self) -> (result: &'static str)
        ensures
            result@ == self.label_spec(),
    {
        match self {
            Self::Auto => "auto",
            Self::Gtid => "gtid",
            Self::Position => "position",
        }
    }
}

/// Explicit configuration; nothing is read from the process environment.
pub struct BinlogConfig {
    pub host: String,
    pub port: u16,
    pub user: String,
    pub password: String,
    pub server_id: u32,
    pub start_mode: BinlogStartMode,
    pub start: Option<BinlogPosition>,
    pub gtid_set: Option<String>,
    pub non_blocking: bool,
    /// Protocol event limit; a partial final transaction is an error.
    pub max_events: Option<usize>,
    /// Optional local append-only log of raw replication protocol events.
    pub binlog_log_path: Option<String>,
    /// Fail closed on schema and statement events when used by a row-only
    /// replication worker.
    pub reject_statements: bool,
    /// Only decode these tables. Empty means unrestricted capture.
    pub tables: Vec<(String, String)>,
}

/// The number under which a capture registers with its source.
pub open spec fn default_server_id(process_id: u32) -> int {
    if 2_000_000 + process_id > u32::MAX {
        u32::MAX as int
    } else {
        2_000_000 + process_id
    }
}

impl BinlogConfig {
    pub fn new(host: &str, port: u16, user: &str, password: &str, process_id: u32) -> (result: Self)
        ensures
            result.host@ == host@,
            result.port == port,
            result.user@ == user@,
            result.password@ == password@,
            result.server_id == default_server_id(process_id),
            result.start_mode is Auto,
            result.start is None,
            result.gtid_set is None,
            !result.non_blocking,
            result.max_events is None,
            result.binlog_log_path is None,
            result.reject_statements,
            result.tables@.len() == 0,
    {
        let server_id: u32 = if process_id > 4_292_967_295 {
            4_294_967_295
        } else {
            2_000_000 + process_id
        };
        Self {
            host: host.to_owned(),
            port,
            user: user.to_owned(),
            password: password.to_owned(),
            server_id,
            start_mode: BinlogStartMode::Auto,
            start: None,
            gtid_set: None,
            non_blocking: false,
            max_events: None,
            binlog_log_path: None,
            reject_statements: true,
            tables: Vec::new(),
        }
    }
}

/// A position that the log can have.
pub open spec fn possible_position(position: BinlogPosition) -> bool {
    position.file@.len() > 0 && 4 <= position.position <= u32::MAX
}

/// What is wrong with a configuration.
pub open spec fn config_fault(config: BinlogConfig) -> Option<CaptureFault> {
    if config.server_id == 0 || config.max_events == Some(0usize) {
        Some(other("server_id and max_events must be greater than zero"@))
    } else if config.start matches Some(position) && !possible_position(position) {
        Some(other("invalid binlog file/position"@))
    } else if config.start is Some && config.gtid_set is Some {
        Some(other("binlog position and GTID set are mutually exclusive"@))
    } else if config.start_mode is Gtid && config.start is Some {
        Some(other("GTID start mode cannot be combined with binlog file/position"@))
    } else if config.start_mode is Position && config.gtid_set is Some {
        Some(other("position start mode cannot be combined with a GTID set"@))
    } else {
        None
    }
}

/// Checks a configuration before a connection is opened.
pub fn check_config(config: &BinlogConfig) -> (result: Result<(), CaptureError>)
    ensures
        capture_fault(result) == config_fault(*config),
{
    let no_events = match config.max_events {
        Some(limit) => limit == 0,
        None => false,
    };
    if config.server_id == 0 || no_events {
        return Err(CaptureError::other("server_id and max_events must be greater than zero"));
    }
    if let Some(position) = &config.start {
        if position.file.as_str().is_empty() || position.position < 4 || position.position
            > 4_294_967_295 {
            return Err(CaptureError::other("invalid binlog file/position"));
        }
    }
    if config.start.is_some() && config.gtid_set.is_some() {
        return Err(CaptureError::other("binlog position and GTID set are mutually exclusive"));
    }
    if config.start_mode == BinlogStartMode::Gtid && config.start.is_some() {
        return Err(
            CaptureError::other("GTID start mode cannot be combined with binlog file/position"),
        );
    }
    if config.start_mode == BinlogStartMode::Position && config.gtid_set.is_some() {
        return Err(
            CaptureError::other("position start mode cannot be combined with a GTID set"),
        );
    }
    Ok(())
}

/// What is wrong with a source.
pub open spec fn preflight_fault(
    version: Seq<char>,
    log_bin: u8,
    format: Seq<char>,
    image: Seq<char>,
) -> Option<CaptureFault> {
    if !has_prefix(version, "5.7."@) {
        Some(other("mysql_5_7 requires MySQL 5.7; source is "@ + version))
    } else if log_bin != 1 || format != "ROW"@ || image != "FULL"@ {
        Some(
            other(
                "mysql_5_7 requires log_bin=ON, binlog_format=ROW, binlog_row_image=FULL"@,
            ),
        )
    } else {
        None
    }
}

/// Checks what a source says of itself.
pub fn check_preflight(version: &str, log_bin: u8, format: &str, image: &str) -> (result: Result<
    (),
    CaptureError,
>)
    ensures
        capture_fault(result) == preflight_fault(version@, log_bin, format@, image@),
{
    if !starts_with(version, "5.7.") {
        let message = concat("mysql_5_7 requires MySQL 5.7; source is ", version);
        return Err(CaptureError::other(message.as_str()));
    }
    if log_bin != 1 || !same(format, "ROW") || !same(image, "FULL") {
        return Err(
            CaptureError::other(
                "mysql_5_7 requires log_bin=ON, binlog_format=ROW, binlog_row_image=FULL",
            ),
        );
    }
    Ok(())
}

// ---------------------------------------------------------------------------
// The start
// ---------------------------------------------------------------------------

/// The source numbers its transactions.
pub open spec fn gtid_enabled(mode: Seq<char>) -> bool {
    same_ignoring_case(mode, "ON"@) || same_ignoring_case(mode, "ON_PERMISSIVE"@)
}

fn gtid_mode_enabled(mode: &str) -> (result: bool)
    ensures
        result == gtid_enabled(mode@),
{
    eq_ignore_case(mode, "ON") || eq_ignore_case(mode, "ON_PERMISSIVE")
}

/// Where a capture starts: a position, or a set of transactions that have been
/// seen.
pub open spec fn starts_by_gtid(
    requested: BinlogStartMode,
    position: Option<BinlogPosition>,
    gtid_mode: Seq<char>,
) -> bool {
    match requested {
        BinlogStartMode::Position => false,
        BinlogStartMode::Gtid => true,
        BinlogStartMode::Auto => position is None && gtid_enabled(gtid_mode),
    }
}

/// Whether a start reads a set of transactions.
pub fn reads_gtid_set(
    requested: BinlogStartMode,
    position: &Option<BinlogPosition>,
    gtid_mode: &str,
) -> (result: bool)
    ensures
        result == (starts_by_gtid(requested, *position, gtid_mode@) && gtid_enabled(gtid_mode@)),
{
    match requested {
        BinlogStartMode::Position => false,
        BinlogStartMode::Gtid => gtid_mode_enabled(gtid_mode),
        BinlogStartMode::Auto => position.is_none() && gtid_mode_enabled(gtid_mode),
    }
}

/// The set that a capture by transactions starts behind.
pub open spec fn start_set(requested: Option<Seq<char>>, executed: Seq<char>) -> Seq<char> {
    match requested {
        Some(set) => set,
        None => executed,
    }
}

/// Why a capture cannot start.
pub open spec fn start_fault(
    requested: BinlogStartMode,
    position: Option<BinlogPosition>,
    gtids: Option<Seq<char>>,
    gtid_mode: Seq<char>,
    executed: Seq<char>,
) -> Option<CaptureFault> {
    if requested is Gtid && !gtid_enabled(gtid_mode) {
        Some(other("GTID start requested but source GTID_MODE="@ + gtid_mode))
    } else if starts_by_gtid(requested, position, gtid_mode) {
        match gtid_set(start_set(gtids, executed)) {
            Ok(_) => None,
            Err(fault) => Some(fault),
        }
    } else {
        None
    }
}

/// Resolves where a capture starts. A requested position wins over automatic
/// numbering, and the current position is the last resort.
pub fn resolve_start(
    requested_mode: BinlogStartMode,
    requested_position: Option<BinlogPosition>,
    requested_gtid: Option<&str>,
    current_position: BinlogPosition,
    gtid_mode: &str,
    executed_gtids: &str,
) -> (result: Result<(BinlogStartMode, BinlogPosition, Vec<GtidEntry>), CaptureError>)
    requires
        starts_by_gtid(requested_mode, requested_position, gtid_mode@) && gtid_enabled(gtid_mode@)
            ==> bounded_set(start_set(view_of(requested_gtid), executed_gtids@)),
    ensures
        capture_fault(result) == start_fault(
            requested_mode,
            requested_position,
            view_of(requested_gtid),
            gtid_mode@,
            executed_gtids@,
        ),
        result matches Ok((mode, start, entries)) ==> if starts_by_gtid(
            requested_mode,
            requested_position,
            gtid_mode@,
        ) {
            &&& mode is Gtid
            &&& start == current_position
            &&& Ok::<_, CaptureFault>(entries_view(entries@)) == gtid_set(
                start_set(view_of(requested_gtid), executed_gtids@),
            )
        } else {
            &&& mode is Position
            &&& start == match requested_position {
                Some(position) => position,
                None => current_position,
            }
            &&& entries@.len() == 0
        },
{
    if requested_mode == BinlogStartMode::Gtid && !gtid_mode_enabled(gtid_mode) {
        let message = concat("GTID start requested but source GTID_MODE=", gtid_mode);
        return Err(CaptureError::other(message.as_str()));
    }
    if reads_gtid_set(requested_mode, &requested_position, gtid_mode) {
        let set = match requested_gtid {
            Some(set) => set,
            None => executed_gtids,
        };
        return match parse_gtid_set(set) {
            Ok(entries) => Ok((BinlogStartMode::Gtid, current_position, entries)),
            Err(error) => Err(error),
        };
    }
    let start = match requested_position {
        Some(position) => position,
        None => current_position,
    };
    Ok((BinlogStartMode::Position, start, Vec::new()))
}

/// The set that is reported as the start of a capture by transactions.
pub fn start_gtid_set(mode: BinlogStartMode, requested: Option<&str>, executed: &str) -> (result: Option<
    String,
>)
    ensures
        match result {
            Some(set) => mode is Gtid && set@ == start_set(view_of(requested), executed@),
            None => !(mode is Gtid),
        },
{
    if mode != BinlogStartMode::Gtid {
        return None;
    }
    match requested {
        Some(set) => Some(set.to_owned()),
        None => Some(executed.to_owned()),
    }
}

// ---------------------------------------------------------------------------
// Validation
// ---------------------------------------------------------------------------

/// What is wrong with the declaration of a column from `from` on.
pub open spec fn natives_fault(row: Seq<ColumnDatum>, from: int) -> Option<CaptureFault>
    decreases row.len() - from,
{
    if from < 0 || from >= row.len() {
        None
    } else {
        match native_fault(row[from].native_type@) {
            Some(complaint) => Some(undeclared(complaint)),
            None => natives_fault(row, from + 1),
        }
    }
}

pub open spec fn image_natives_fault(image: Option<Vec<ColumnDatum>>) -> Option<CaptureFault> {
    match image {
        Some(row) => natives_fault(row@, 0),
        None => None,
    }
}

/// What is wrong with the declarations of the changes from `from` on. The old
/// row comes first.
pub open spec fn changes_natives_fault(changes: Seq<RowChange>, from: int) -> Option<CaptureFault>
    decreases changes.len() - from,
{
    if from < 0 || from >= changes.len() {
        None
    } else {
        match image_natives_fault(changes[from].before) {
            Some(fault) => Some(fault),
            None => match image_natives_fault(changes[from].after) {
                Some(fault) => Some(fault),
                None => changes_natives_fault(changes, from + 1),
            },
        }
    }
}

/// What is wrong with a captured transaction.
pub open spec fn captured_fault(transaction: ChangeTransaction) -> Option<CaptureFault> {
    match transaction_fault(transaction) {
        Some(message) => Some(other(message)),
        None => match source_fault(transaction, MysqlVersion::V57) {
            Some(message) => Some(other(message)),
            None => changes_natives_fault(transaction.changes@, 0),
        },
    }
}

fn check_image(image: &Option<Vec<ColumnDatum>>) -> (result: Result<(), CaptureError>)
    ensures
        capture_fault(result) == image_natives_fault(*image),
{
    match image {
        None => Ok(()),
        Some(row) => {
            let mut i: usize = 0;
            while i < row.len()
                invariant
                    i <= row@.len(),
                    *image == Some(*row),
                    image_natives_fault(*image) == natives_fault(row@, i as int),
                decreases row@.len() - i,
            {
                match validate_native_type(row[i].native_type.as_str()) {
                    Ok(_) => {},
                    Err(error) => return Err(CaptureError::undeclared(&error)),
                }
                i += 1;
            }
            Ok(())
        },
    }
}

/// Validate one decoded transaction at the boundary of the source.
pub fn validate_change_event(transaction: ChangeTransaction) -> (result: Result<
    ValidatedTransaction,
    CaptureError,
>)
    ensures
        match result {
            Ok(validated) => captured_fault(transaction) is None && validated.inner()
                == transaction,
            Err(error) => captured_fault(transaction) == Some(error.fault()),
        },
{
    let validated = match validate(transaction) {
        Ok(validated) => validated,
        Err(error) => return Err(CaptureError::other(error.message())),
    };
    match validate_source(&validated, MysqlVersion::V57) {
        Ok(_) => {},
        Err(error) => return Err(CaptureError::other(error.message())),
    }
    let inner = validated.transaction();
    let mut i: usize = 0;
    while i < inner.changes.len()
        invariant
            i <= inner.changes@.len(),
            *inner == transaction,
            transaction_fault(transaction) is None,
            source_fault(transaction, MysqlVersion::V57) is None,
            captured_fault(transaction) == changes_natives_fault(inner.changes@, i as int),
        decreases inner.changes@.len() - i,
    {
        match check_image(&inner.changes[i].before) {
            Ok(_) => {},
            Err(error) => return Err(error),
        }
        match check_image(&inner.changes[i].after) {
            Ok(_) => {},
            Err(error) => return Err(error),
        }
        i += 1;
    }
    Ok(validated)
}

// ---------------------------------------------------------------------------
// The stream
// ---------------------------------------------------------------------------

/// What the reader of a stream does next.
#[derive(Debug)]
pub enum Turn {
    /// Read the next event.
    Read,
    /// The stream has ended.
    End,
    /// The stream has ended with an error.
    Fail(CaptureError),
}

/// A stream of committed transactions. An error ends it.
#[derive(Debug)]
pub struct BinlogStream {
    decoder: Decoder,
    count: usize,
    max_events: Option<usize>,
    ended: bool,
}

/// What a stream knows.
pub struct Stream {
    pub capture: Capture,
    pub count: usize,
    pub max_events: Option<usize>,
    pub ended: bool,
}

/// A stream must not end inside a transaction.
pub open spec fn incomplete(capture: Capture) -> Option<CaptureFault> {
    match capture.pending {
        Some(_) => Some(
            other("stream ended inside a transaction; no partial transaction was emitted"@),
        ),
        None => None,
    }
}

/// The turn ends the stream, with an error where there is a fault.
pub open spec fn ends(turn: Turn, fault: Option<CaptureFault>) -> bool {
    match (turn, fault) {
        (Turn::End, None) => true,
        (Turn::Fail(error), Some(fault)) => error.fault() == fault,
        _ => false,
    }
}

impl BinlogStream {
    /// What the stream knows.
    pub closed spec fn stream(&self) -> Stream {
        Stream {
            capture: self.decoder.state(),
            count: self.count,
            max_events: self.max_events,
            ended: self.ended,
        }
    }

    pub fn new(decoder: Decoder, max_events: Option<usize>) -> (result: Self)
        ensures
            result.stream() == (Stream {
                capture: decoder.state(),
                count: 0,
                max_events,
                ended: false,
            }),
    {
        Self { decoder, count: 0, max_events, ended: false }
    }

    /// How many events have been read.
    pub fn protocol_events(&self) -> (result: usize)
        ensures
            result == self.stream().count,
    {
        self.count
    }

    pub fn captures(&self, schema: &str, table: &str) -> (result: bool)
        ensures
            result == crate::mysql_5_7::decoder::captured(
                self.stream().capture.scope,
                schema@,
                table@,
            ),
    {
        self.decoder.captures(schema, table)
    }

    /// What comes before an event is read. A cancelled stream discards an
    /// uncommitted transaction; one at its limit must not be inside one.
    pub fn begin_turn(&mut self, stopped: bool) -> (result: Turn)
        ensures
            ({
                let before = old(self).stream();
                let limited = before.max_events matches Some(limit) && before.count >= limit;
                if before.ended {
                    result is End && final(self).stream() == before
                } else if stopped {
                    result is End && final(self).stream() == (Stream { ended: true, ..before })
                } else if limited {
                    ends(result, incomplete(before.capture)) && final(self).stream() == (Stream {
                        ended: true,
                        ..before
                    })
                } else {
                    result is Read && final(self).stream() == before
                }
            }),
    {
        if self.ended {
            return Turn::End;
        }
        if stopped {
            self.ended = true;
            return Turn::End;
        }
        let limited = match self.max_events {
            Some(limit) => self.count >= limit,
            None => false,
        };
        if limited {
            return self.finish();
        }
        Turn::Read
    }

    /// The source has no further event.
    pub fn finish(&mut self) -> (result: Turn)
        ensures
            ends(result, incomplete(old(self).stream().capture)),
            final(self).stream() == (Stream { ended: true, ..old(self).stream() }),
    {
        self.ended = true;
        match self.decoder.ensure_complete() {
            Ok(_) => Turn::End,
            Err(error) => Turn::Fail(error),
        }
    }

    /// The driver has failed. Where the stream was cancelled meanwhile, that is
    /// no error.
    pub fn fail(&mut self, stopped: bool, message: &str) -> (result: Turn)
        ensures
            ends(
                result,
                if stopped {
                    None
                } else {
                    Some(other(message@))
                },
            ),
            final(self).stream() == (Stream { ended: true, ..old(self).stream() }),
    {
        self.ended = true;
        if stopped {
            return Turn::End;
        }
        Turn::Fail(CaptureError::other(message))
    }

    /// Takes one event. A transaction with changes is handed on once it is
    /// valid; one without only marks a position.
    pub fn take_event(&mut self, header: EventHeader, event: BinlogEvent) -> (result: Result<
        Option<ChangeTransaction>,
        CaptureError,
    >)
        requires
            old(self).stream().capture.fits(),
            old(self).stream().count < usize::MAX,
            event_fits(event),
        ensures
            final(self).stream().capture.fits(),
            final(self).stream().count == old(self).stream().count + 1,
            final(self).stream().max_events == old(self).stream().max_events,
            final(self).stream().ended == (result is Err || old(self).stream().ended),
            exists|raw: Result<Option<ChangeTransaction>, CaptureError>|
                #[trigger] decoded(
                    old(self).stream().capture,
                    header,
                    event,
                    final(self).stream().capture,
                    raw,
                ) && handed_on(raw, result),
    {
        self.count = self.count + 1;
        let raw = self.decoder.decode(header, event);
        let ghost kept = raw;
        match raw {
            Ok(Some(transaction)) => {
                if transaction.changes.len() == 0 {
                    return Ok(Some(transaction));
                }
                match validate_change_event(transaction) {
                    Ok(validated) => {
                        let inner = validated.into_transaction();
                        Ok(Some(inner))
                    },
                    Err(error) => {
                        self.ended = true;
                        Err(error)
                    },
                }
            },
            Ok(None) => Ok(None),
            Err(error) => {
                self.ended = true;
                Err(error)
            },
        }
    }
}

/// What is handed on of what was decoded.
pub open spec fn handed_on(
    raw: Result<Option<ChangeTransaction>, CaptureError>,
    result: Result<Option<ChangeTransaction>, CaptureError>,
) -> bool {
    match raw {
        Ok(Some(transaction)) => if transaction.changes@.len() == 0 || captured_fault(transaction)
            is None {
            result == raw
        } else {
            capture_fault(result) == captured_fault(transaction)
        },
        _ => result == raw,
    }
}

// ---------------------------------------------------------------------------
// The raw log
// ---------------------------------------------------------------------------

/// What the raw log keeps of an event.
#[derive(Debug)]
pub struct RawEvent {
    pub event_type: String,
    pub log_pos: u32,
    pub timestamp: u32,
    pub server_id: u32,
    pub event_size: u32,
    pub flags: u16,
    pub payload_bytes: usize,
    /// The file and the position that a rotation goes on with.
    pub rotation: Option<(String, u64)>,
}

/// The first line of a raw log.
pub open spec fn raw_head(
    mode: BinlogStartMode,
    file: Seq<char>,
    position: u64,
    version: Seq<char>,
    server_uuid: Seq<char>,
) -> Seq<char> {
    "# stream_start mode="@ + mode.label_spec() + " file="@ + file + " position="@ + decimal(
        position as nat,
    ) + " source_version="@ + version + " server_uuid="@ + server_uuid
}

pub fn raw_log_head(
    mode: BinlogStartMode,
    start: &BinlogPosition,
    version: &str,
    server_uuid: &str,
) -> (result: String)
    ensures
        result@ == raw_head(mode, start.file@, start.position, version@, server_uuid@),
{
    let number = decimal_text(start.position as u128);
    let head = concat4("# stream_start mode=", mode.label(), " file=", start.file.as_str());
    let middle = concat3(head.as_str(), " position=", number.as_str());
    concat5(middle.as_str(), " source_version=", version, " server_uuid=", server_uuid)
}

/// A number with at least six digits.
pub open spec fn six_digits(number: nat) -> Seq<char> {
    let digits = decimal(number);
    if digits.len() < 6 {
        Seq::new((6 - digits.len()) as nat, |i: int| '0') + digits
    } else {
        digits
    }
}

fn spell_six_digits(number: usize) -> (result: String)
    ensures
        result@ == six_digits(number as nat),
{
    let digits = decimal_text(number as u128);
    let length: usize = chars_of(digits.as_str()).len();
    let mut text = String::new();
    let mut i: usize = length;
    assert(text@ =~= Seq::new(0, |k: int| '0'));
    while i < 6
        invariant
            length <= i,
            length < 6 ==> i <= 6,
            length >= 6 ==> i == length,
            text@ == Seq::new((i - length) as nat, |k: int| '0'),
        decreases 6 - i,
    {
        text.push('0');
        assert(text@ =~= Seq::new((i + 1 - length) as nat, |k: int| '0'));
        i += 1;
    }
    let padded = concat(text.as_str(), digits.as_str());
    assert(padded@ =~= six_digits(number as nat));
    padded
}

/// Four hexadecimal digits in capitals.
pub open spec fn flag_digits(flags: u16) -> Seq<char> {
    upper(hex(seq![(flags / 0x100) as u8, (flags % 0x100) as u8]))
}

fn spell_flags(flags: u16) -> (result: String)
    ensures
        result@ == flag_digits(flags),
{
    let mut bytes: Vec<u8> = Vec::new();
    bytes.push((flags / 0x100) as u8);
    bytes.push((flags % 0x100) as u8);
    assert(bytes@ =~= seq![(flags / 0x100) as u8, (flags % 0x100) as u8]);
    let text = hex_text(&bytes);
    to_upper(text.as_str())
}

/// The line of an event in a raw log.
pub open spec fn raw_line(sequence: usize, file: Seq<char>, position: u64, event: RawEvent) -> Seq<
    char,
> {
    let from = if event.rotation is Some {
        0
    } else {
        position as nat
    };
    let to = match event.rotation {
        Some((_, next)) => next as nat,
        None => event.log_pos as nat,
    };
    "["@ + six_digits(sequence as nat) + "] file="@ + file + " event_position="@ + decimal(from)
        + " next_position="@ + decimal(to) + " timestamp="@ + decimal(event.timestamp as nat)
        + " type="@ + event.event_type@ + " server_id="@ + decimal(event.server_id as nat)
        + " event_size="@ + decimal(event.event_size as nat) + " flags=0x"@ + flag_digits(
        event.flags,
    ) + " payload_bytes="@ + decimal(event.payload_bytes as nat)
}

/// Where a raw log stands.
#[derive(Debug)]
pub struct RawLog {
    pub file: String,
    pub position: u64,
}

impl RawLog {
    /// The line of an event. The log then stands behind it.
    pub fn line(&mut self, sequence: usize, event: &RawEvent) -> (result: String)
        ensures
            result@ == raw_line(sequence, old(self).file@, old(self).position, *event),
            match event.rotation {
                Some((file, position)) => final(self).file@ == file@ && final(self).position
                    == position,
                None => final(self).file@ == old(self).file@ && final(self).position
                    == event.log_pos,
            },
    {
        let from: u64 = if event.rotation.is_some() {
            0
        } else {
            self.position
        };
        let to: u64 = match &event.rotation {
            Some((_, next)) => *next,
            None => event.log_pos as u64,
        };
        let number = spell_six_digits(sequence);
        let from_text = decimal_text(from as u128);
        let to_text = decimal_text(to as u128);
        let time_text = decimal_text(event.timestamp as u128);
        let server_text = decimal_text(event.server_id as u128);
        let size_text = decimal_text(event.event_size as u128);
        let flags_text = spell_flags(event.flags);
        let payload_text = decimal_text(event.payload_bytes as u128);
        let a = concat4("[", number.as_str(), "] file=", self.file.as_str());
        let b = concat5(
            a.as_str(),
            " event_position=",
            from_text.as_str(),
            " next_position=",
            to_text.as_str(),
        );
        let c = concat5(
            b.as_str(),
            " timestamp=",
            time_text.as_str(),
            " type=",
            event.event_type.as_str(),
        );
        let d = concat5(
            c.as_str(),
            " server_id=",
            server_text.as_str(),
            " event_size=",
            size_text.as_str(),
        );
        let line = concat5(
            d.as_str(),
            " flags=0x",
            flags_text.as_str(),
            " payload_bytes=",
            payload_text.as_str(),
        );
        match &event.rotation {
            Some((file, position)) => {
                self.file = file.clone();
                self.position = *position;
            },
            None => {
                self.position = event.log_pos as u64;
            },
        }
        line
    }
}

// ---------------------------------------------------------------------------
// What a capture promises
// ---------------------------------------------------------------------------

/// A configuration is taken exactly where it names a server and a limit above
/// zero, a place in a file behind its header, and at most one kind of start, of
/// the mode that it asks for.
pub proof fn law_exactly_one_start_is_taken(config: BinlogConfig)
    ensures
        config_fault(config) is None <==> {
            &&& config.server_id > 0
            &&& config.max_events matches Some(limit) ==> limit > 0
            &&& config.start matches Some(place) ==> place.file@.len() > 0 && 4 <= place.position
                <= u32::MAX
            &&& config.start is None || config.gtid_set is None
            &&& config.start is Some ==> config.start_mode is Auto || config.start_mode is Position
            &&& config.gtid_set is Some ==> config.start_mode is Auto || config.start_mode is Gtid
        },
{
}

/// No start that was asked for is passed over: a place is where the capture
/// starts, a set of transactions is what it starts behind where the source keeps
/// such sets, a mode that was asked for is kept, and without any of them the
/// capture starts by transactions exactly where the source keeps sets.
pub proof fn law_a_given_start_is_used(
    config: BinlogConfig,
    gtid_mode: Seq<char>,
    executed: Seq<char>,
)
    requires
        config_fault(config) is None,
        start_fault(
            config.start_mode,
            config.start,
            match config.gtid_set {
                Some(set) => Some(set@),
                None => None,
            },
            gtid_mode,
            executed,
        ) is None,
    ensures
        ({
            let by_gtid = starts_by_gtid(config.start_mode, config.start, gtid_mode);
            let kept = lower(gtid_mode) == lower("ON"@) || lower(gtid_mode) == lower(
                "ON_PERMISSIVE"@,
            );
            &&& config.start is Some ==> !by_gtid
            &&& config.gtid_set is Some && kept ==> by_gtid
            &&& config.start_mode is Gtid ==> by_gtid
            &&& config.start_mode is Position ==> !by_gtid
            &&& by_gtid ==> kept
            &&& config.start_mode is Auto && config.start is None ==> by_gtid == kept
        }),
{
}

proof fn lemma_natives(row: Seq<ColumnDatum>, from: int)
    requires
        0 <= from <= row.len(),
        natives_fault(row, from) is None,
    ensures
        forall|i: int|
            from <= i < row.len() ==> native_fault((#[trigger] row[i]).native_type@) is None,
    decreases row.len() - from,
{
    if from < row.len() {
        lemma_natives(row, from + 1);
    }
}

proof fn lemma_changes_natives(changes: Seq<RowChange>, from: int)
    requires
        0 <= from <= changes.len(),
        changes_natives_fault(changes, from) is None,
    ensures
        forall|i: int|
            from <= i < changes.len() ==> image_natives_fault((#[trigger] changes[i]).before) is None
                && image_natives_fault(changes[i].after) is None,
    decreases changes.len() - from,
{
    if from < changes.len() {
        lemma_changes_natives(changes, from + 1);
    }
}

/// A transaction with changes is handed on as it was collected, and only where it
/// is valid, comes from the served version and has no column of a type that is not
/// declared.
pub proof fn law_only_valid_transactions_are_handed_on(
    raw: Result<Option<ChangeTransaction>, CaptureError>,
    result: Result<Option<ChangeTransaction>, CaptureError>,
    change: int,
    column: int,
)
    requires
        handed_on(raw, result),
        result matches Ok(Some(transaction)) && transaction.changes@.len() > 0,
    ensures
        result == raw,
        ({
            let transaction = result->Ok_0->0;
            &&& transaction_fault(transaction) is None
            &&& source_fault(transaction, MysqlVersion::V57) is None
            &&& 0 <= change < transaction.changes@.len() ==> {
                let images = transaction.changes@[change];
                &&& images.before matches Some(row) ==> 0 <= column < row@.len() ==> native_fault(
                    row@[column].native_type@,
                ) is None
                &&& images.after matches Some(row) ==> 0 <= column < row@.len() ==> native_fault(
                    row@[column].native_type@,
                ) is None
            }
        }),
{
    let transaction = result->Ok_0->0;
    assert(raw matches Ok(Some(_)));
    if captured_fault(raw->Ok_0->0) is None {
        lemma_changes_natives(transaction.changes@, 0);
        if 0 <= change < transaction.changes@.len() {
            let images = transaction.changes@[change];
            if let Some(row) = images.before {
                lemma_natives(row@, 0);
            }
            if let Some(row) = images.after {
                lemma_natives(row@, 0);
            }
        }
    }
}

} // verus!
