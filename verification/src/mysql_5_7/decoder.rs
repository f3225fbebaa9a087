//! The decoder: it collects the row changes of a transaction and publishes them
//! when the transaction commits.
use crate::change_event::model::{
    ChangeTransaction, ColumnDatum, Operation, RowChange, Source, SourceCursor,
};
use crate::json::{json_text, write_json, Contract};
use crate::mysql_5_7::error::{capture_fault, invalid_data, other, CaptureError, CaptureFault};
use crate::mysql_5_7::row::{
    all_labels_agree, decode_row, decoded_image, image_fault, RowCell,
};
use crate::mysql_5_7::value::ColumnInfo;
use crate::mysql_source_contract::cursor::{binlog_cursor, cursor_of, position_text};
use crate::number::{decimal, decimal_text, hex, hex_text};
use crate::text::{
    byte_len, concat, concat4, concat5, has_prefix, same, starts_with, to_upper, trim, trimmed,
    upper,
};
use std::collections::HashMap;
use vstd::prelude::*;
use vstd::utf8::encode_utf8;

verus! {

broadcast use vstd::std_specs::hash::group_hash_axioms;

/// How large the changes of a transaction may be, as JSON.
pub const MAX_TRANSACTION_BYTES: usize = 0x400_0000;

// ---------------------------------------------------------------------------
// Events
// ---------------------------------------------------------------------------

/// What stands in front of every event.
#[derive(Debug, Clone, Copy)]
pub struct EventHeader {
    /// The number of the kind of event.
    pub event_type: u8,
    /// Where the next event begins.
    pub log_pos: u32,
    pub timestamp: u32,
}

/// One row of a row event.
#[derive(Debug)]
pub enum EventRow {
    Images { before: Option<Vec<RowCell>>, after: Option<Vec<RowCell>> },
    /// The driver cannot read the row, and says why.
    Broken(String),
}

/// An event of the binary log.
#[derive(Debug)]
pub enum BinlogEvent {
    Rotate { name: String },
    /// A table, and what the catalog says of its columns.
    TableMap {
        table_id: u64,
        schema: String,
        table: String,
        columns_count: u64,
        columns: Vec<ColumnInfo>,
    },
    Gtid { sid: [u8; 16], gno: u64 },
    AnonymousGtid,
    Query { text: String },
    Rows { table_id: u64, operation: Operation, rows: Vec<EventRow> },
    Xid,
    /// An event without a meaning for row changes.
    Ignored,
    /// An event that is known and not supported, as the driver shows it.
    Unsupported(String),
    Unknown,
    /// The driver cannot read the event, and says why.
    Broken(String),
}

/// Kinds of events that stop the capture.
pub open spec fn event_type_fault(event_type: u8) -> Option<CaptureFault> {
    if event_type == 0x28 {
        Some(
            other(
                "compressed binlog transactions are unsupported; transaction was not emitted"@,
            ),
        )
    } else if event_type == 0x27 {
        Some(
            other("partial JSON updates are unsupported; require binlog_row_value_options=''"@),
        )
    } else if event_type == 0x26 {
        Some(other("XA transactions are unsupported"@))
    } else if event_type == 0x2a {
        Some(other("tagged GTID requires mysql_8_4"@))
    } else {
        None
    }
}

fn check_event_type(event_type: u8) -> (result: Result<(), CaptureError>)
    ensures
        capture_fault(result) == event_type_fault(event_type),
{
    if event_type == 0x28 {
        Err(
            CaptureError::other(
                "compressed binlog transactions are unsupported; transaction was not emitted",
            ),
        )
    } else if event_type == 0x27 {
        Err(
            CaptureError::other(
                "partial JSON updates are unsupported; require binlog_row_value_options=''",
            ),
        )
    } else if event_type == 0x26 {
        Err(CaptureError::other("XA transactions are unsupported"))
    } else if event_type == 0x2a {
        Err(CaptureError::other("tagged GTID requires mysql_8_4"))
    } else {
        Ok(())
    }
}

/// The text of a GTID: the source as a UUID, and a number.
pub open spec fn gtid_text(sid: Seq<u8>, gno: u64) -> Seq<char> {
    hex(sid.subrange(0, 4)) + "-"@ + hex(sid.subrange(4, 6)) + "-"@ + hex(sid.subrange(6, 8)) + "-"@
        + hex(sid.subrange(8, 10)) + "-"@ + hex(sid.subrange(10, 16)) + ":"@ + decimal(gno as nat)
}

fn hex_part(sid: &[u8; 16], from: usize, to: usize) -> (result: String)
    requires
        from <= to <= 16,
    ensures
        result@ == hex(sid@.subrange(from as int, to as int)),
{
    let mut bytes: Vec<u8> = Vec::new();
    let mut i: usize = from;
    while i < to
        invariant
            from <= i <= to <= 16,
            bytes@ == sid@.subrange(from as int, i as int),
        decreases to - i,
    {
        bytes.push(sid[i]);
        assert(bytes@ =~= sid@.subrange(from as int, i + 1));
        i += 1;
    }
    hex_text(&bytes)
}

fn format_gtid(sid: &[u8; 16], gno: u64) -> (result: String)
    ensures
        result@ == gtid_text(sid@, gno),
{
    let a = hex_part(sid, 0, 4);
    let b = hex_part(sid, 4, 6);
    let c = hex_part(sid, 6, 8);
    let d = hex_part(sid, 8, 10);
    let e = hex_part(sid, 10, 16);
    let number = decimal_text(gno as u128);
    let head = concat5(a.as_str(), "-", b.as_str(), "-", c.as_str());
    let tail = concat4(head.as_str(), "-", d.as_str(), "-");
    let text = concat4(tail.as_str(), e.as_str(), ":", number.as_str());
    assert(text@ =~= gtid_text(sid@, gno));
    text
}

// ---------------------------------------------------------------------------
// The open transaction
// ---------------------------------------------------------------------------

/// A transaction that has not committed. Nothing of it is published yet.
#[derive(Debug)]
pub struct PendingTransaction {
    pub id: String,
    pub begin_cursor: SourceCursor,
    pub began: bool,
    pub changes: Vec<RowChange>,
    pub bytes: usize,
}

/// The size of a change, as JSON.
pub open spec fn change_size(change: RowChange) -> nat {
    encode_utf8(json_text(change.doc())).len()
}

/// The size of changes.
pub open spec fn changes_size(changes: Seq<RowChange>) -> nat
    decreases changes.len(),
{
    if changes.len() == 0 {
        0
    } else {
        changes_size(changes.drop_last()) + change_size(changes.last())
    }
}

impl PendingTransaction {
    /// The size is that of the changes, and within the limit.
    pub open spec fn sized(&self) -> bool {
        self.bytes == changes_size(self.changes@) && self.bytes <= MAX_TRANSACTION_BYTES
    }

    /// The transaction is the one that has just been opened.
    pub open spec fn opened(&self, id: Seq<char>, began: bool) -> bool {
        &&& self.id@ == id
        &&& self.began == began
        &&& self.changes@.len() == 0
        &&& self.bytes == 0
    }

    pub fn new(id: String, begin_cursor: SourceCursor, began: bool) -> (result: Self)
        ensures
            result.opened(id@, began),
            result.begin_cursor == begin_cursor,
            result.sized(),
    {
        Self { id, begin_cursor, began, changes: Vec::new(), bytes: 0 }
    }

    /// Adds a change, unless the transaction has not begun or would grow beyond
    /// the limit.
    pub fn push(&mut self, change: RowChange, byte_limit: usize) -> (result: Result<
        (),
        CaptureError,
    >)
        ensures
            capture_fault(result) == push_fault(*old(self), change, byte_limit),
            result is Err ==> *final(self) == *old(self),
            result is Ok ==> *final(self) == (PendingTransaction {
                changes: final(self).changes,
                bytes: final(self).bytes,
                ..*old(self)
            }) && final(self).changes@ == old(self).changes@.push(change) && final(self).bytes
                == old(self).bytes + change_size(change) && (byte_limit
                == MAX_TRANSACTION_BYTES && old(self).sized() ==> final(self).sized()),
    {
        if !self.began {
            return Err(CaptureError::other("row before BEGIN; start at a transaction boundary"));
        }
        let text = write_json(&change.to_json());
        let size: usize = byte_len(text.as_str());
        let room: usize = if self.bytes <= byte_limit {
            byte_limit - self.bytes
        } else {
            0
        };
        if size > room {
            return Err(
                CaptureError::other(
                    "transaction exceeds buffer limit; no events from it were emitted",
                ),
            );
        }
        let ghost before = self.changes@;
        if self.bytes <= byte_limit {
            self.bytes = self.bytes + size;
        }
        self.changes.push(change);
        assert(self.changes@.drop_last() =~= before);
        Ok(())
    }
}

/// The room that is left.
pub open spec fn room(bytes: int, byte_limit: int) -> int {
    if bytes <= byte_limit {
        byte_limit - bytes
    } else {
        0
    }
}

/// Why a change cannot be added.
pub open spec fn push_fault(pending: PendingTransaction, change: RowChange, byte_limit: usize) -> Option<
    CaptureFault,
> {
    if !pending.began {
        Some(other("row before BEGIN; start at a transaction boundary"@))
    } else if change_size(change) > room(pending.bytes as int, byte_limit as int) {
        Some(other("transaction exceeds buffer limit; no events from it were emitted"@))
    } else {
        None
    }
}

/// How many of the changes from `from` on fit behind so many bytes: the number
/// of the first that does not.
pub open spec fn accepted(bytes: int, changes: Seq<RowChange>, from: int) -> int
    decreases changes.len() - from,
{
    if from < 0 || from >= changes.len() {
        changes.len() as int
    } else if change_size(changes[from]) > room(bytes, MAX_TRANSACTION_BYTES as int) {
        from
    } else {
        accepted(bytes + change_size(changes[from]), changes, from + 1)
    }
}

// ---------------------------------------------------------------------------
// The decoder
// ---------------------------------------------------------------------------

/// A table that rows refer to by its number. A table outside the scope has no
/// columns.
#[derive(Debug)]
pub struct TableInfo {
    pub schema: String,
    pub table: String,
    pub columns: Vec<ColumnInfo>,
}

/// Collects the events of a binary log.
#[derive(Debug)]
pub struct Decoder {
    current_file: String,
    source: Source,
    tables: HashMap<u64, TableInfo>,
    pending: Option<PendingTransaction>,
    reject_statements: bool,
    capture_tables: Vec<(String, String)>,
}

/// What a decoder holds.
#[verifier::ext_equal]
pub struct Capture {
    pub file: Seq<char>,
    pub source: Source,
    pub tables: Map<u64, TableInfo>,
    pub pending: Option<PendingTransaction>,
    pub reject_statements: bool,
    pub scope: Seq<(String, String)>,
}

/// What a call has published.
pub type Decoded = Result<Option<ChangeTransaction>, CaptureError>;

/// A table is in the scope. Without a scope every table is.
pub open spec fn captured(scope: Seq<(String, String)>, schema: Seq<char>, table: Seq<char>) -> bool {
    scope.len() == 0 || exists|i: int|
        0 <= i < scope.len() && (#[trigger] scope[i]).0@ == schema && scope[i].1@ == table
}

/// The call fails and changes nothing.
pub open spec fn refused(before: Capture, after: Capture, result: Decoded, fault: CaptureFault) -> bool {
    after == before && capture_fault(result) == Some(fault)
}

/// The call publishes nothing.
pub open spec fn nothing(result: Decoded) -> bool {
    result matches Ok(None)
}

/// A transaction is opened.
pub open spec fn opening(
    before: Capture,
    after: Capture,
    id: Seq<char>,
    began: bool,
    log_pos: u32,
) -> bool {
    &&& after == (Capture { pending: after.pending, ..before })
    &&& after.pending matches Some(pending) && pending.opened(id, began) && cursor_of(
        pending.begin_cursor,
        before.file,
        log_pos,
    )
}

/// A transaction begins with its number.
pub open spec fn starting(
    before: Capture,
    after: Capture,
    result: Decoded,
    id: Seq<char>,
    log_pos: u32,
) -> bool {
    if before.pending is Some {
        refused(
            before,
            after,
            result,
            other("a new GTID arrived before the previous transaction committed"@),
        )
    } else {
        opening(before, after, id, false, log_pos) && nothing(result)
    }
}

/// The transaction that is published.
pub open spec fn publication(
    transaction: ChangeTransaction,
    source: Source,
    pending: PendingTransaction,
    file: Seq<char>,
    log_pos: u32,
) -> bool {
    &&& transaction.source.doc() == source.doc()
    &&& transaction.id@ == pending.id@
    &&& transaction.begin_cursor == pending.begin_cursor
    &&& cursor_of(transaction.commit_cursor, file, log_pos)
    &&& transaction.changes@ == pending.changes@
}

/// A transaction commits. With a scope an empty one is published too, so that
/// its position is kept.
pub open spec fn finishing(
    before: Capture,
    pending: Option<PendingTransaction>,
    after: Capture,
    result: Decoded,
    log_pos: u32,
) -> bool {
    &&& after == (Capture { pending: None, ..before })
    &&& match pending {
        None => nothing(result),
        Some(pending) => if !pending.began {
            capture_fault(result) == Some(other("commit without BEGIN"@))
        } else if pending.changes@.len() == 0 && before.scope.len() == 0 {
            nothing(result)
        } else {
            result matches Ok(Some(transaction)) && publication(
                transaction,
                before.source,
                pending,
                before.file,
                log_pos,
            )
        },
    }
}

/// A statement that prepares the reserved control schema.
pub open spec fn control_statement(statement: Seq<char>) -> bool {
    ||| statement == "CREATE DATABASE IF NOT EXISTS CDC"@
    ||| has_prefix(statement, "CREATE TABLE IF NOT EXISTS CDC.LOG_INFO ("@)
    ||| statement
        == "ALTER TABLE CDC.LOG_INFO ADD COLUMN PHASE VARCHAR(16) NOT NULL DEFAULT 'INCREMENTAL'"@
    ||| statement
        == "ALTER TABLE CDC.LOG_INFO ADD COLUMN SNAPSHOT_ROWS BIGINT UNSIGNED NOT NULL DEFAULT 0"@
    ||| statement
        == "ALTER TABLE CDC.LOG_INFO ADD COLUMN SNAPSHOT_GTIDS LONGTEXT CHARACTER SET ASCII"@
}

fn is_control_statement(statement: &str) -> (result: bool)
    ensures
        result == control_statement(statement@),
{
    same(statement, "CREATE DATABASE IF NOT EXISTS CDC") || starts_with(
        statement,
        "CREATE TABLE IF NOT EXISTS CDC.LOG_INFO (",
    ) || same(
        statement,
        "ALTER TABLE CDC.LOG_INFO ADD COLUMN PHASE VARCHAR(16) NOT NULL DEFAULT 'INCREMENTAL'",
    ) || same(
        statement,
        "ALTER TABLE CDC.LOG_INFO ADD COLUMN SNAPSHOT_ROWS BIGINT UNSIGNED NOT NULL DEFAULT 0",
    ) || same(
        statement,
        "ALTER TABLE CDC.LOG_INFO ADD COLUMN SNAPSHOT_GTIDS LONGTEXT CHARACTER SET ASCII",
    )
}

/// A statement that begins a transaction.
pub open spec fn begin_statement(statement: Seq<char>) -> bool {
    statement == "BEGIN"@ || has_prefix(statement, "BEGIN "@)
}

/// A transaction that its statement begins.
pub open spec fn beginning(before: Capture, after: Capture, result: Decoded, log_pos: u32) -> bool {
    match before.pending {
        None => opening(
            before,
            after,
            "anonymous:"@ + position_text(before.file, log_pos as nat),
            true,
            log_pos,
        ) && nothing(result),
        Some(pending) => if pending.began {
            refused(before, after, result, other("nested BEGIN in MySQL transaction"@))
        } else {
            &&& after == (Capture { pending: after.pending, ..before })
            &&& after.pending matches Some(begun) && begun == (PendingTransaction {
                began: true,
                begin_cursor: begun.begin_cursor,
                ..pending
            }) && cursor_of(begun.begin_cursor, before.file, log_pos)
            &&& nothing(result)
        },
    }
}

/// A statement in the log. A row change is never invented for one.
pub open spec fn queried(
    before: Capture,
    query: Seq<char>,
    after: Capture,
    result: Decoded,
    log_pos: u32,
) -> bool {
    let statement = upper(trim(query));
    if begin_statement(statement) {
        beginning(before, after, result, log_pos)
    } else if statement == "COMMIT"@ {
        finishing(before, before.pending, after, result, log_pos)
    } else if statement == "ROLLBACK"@ {
        after == (Capture { pending: None, ..before }) && nothing(result)
    } else if before.reject_statements && !control_statement(statement) {
        refused(
            before,
            after,
            result,
            other(
                "发现 DDL 或语句型事件；当前任务仅支持行变更，已停止且未推进该事件位点"@,
            ),
        )
    } else if control_statement(statement) && before.scope.len() > 0 {
        finishing(
            before,
            match before.pending {
                Some(pending) => Some(PendingTransaction { began: true, ..pending }),
                None => None,
            },
            after,
            result,
            log_pos,
        )
    } else {
        let dropped = before.pending matches Some(pending) && pending.changes@.len() == 0;
        nothing(result) && after == if dropped {
            Capture { pending: None, ..before }
        } else {
            before
        }
    }
}

/// A table is announced.
pub open spec fn announced(
    before: Capture,
    table_id: u64,
    schema: String,
    table: String,
    columns_count: u64,
    columns: Vec<ColumnInfo>,
    after: Capture,
    result: Decoded,
) -> bool {
    let expected = columns_count as usize;
    if captured(before.scope, schema@, table@) && columns@.len() != expected {
        refused(
            before,
            after,
            result,
            other(
                "cannot construct ChangeEvent for "@ + schema@ + "."@ + table@ + ": TABLE_MAP has "@
                    + decimal(expected as nat) + " columns but INFORMATION_SCHEMA returned "@
                    + decimal(columns@.len()),
            ),
        )
    } else {
        &&& nothing(result)
        &&& after == (Capture { tables: after.tables, ..before })
        &&& after.tables == before.tables.insert(table_id, after.tables[table_id])
        &&& after.tables[table_id].schema == schema
        &&& after.tables[table_id].table == table
        &&& if captured(before.scope, schema@, table@) {
            after.tables[table_id].columns == columns
        } else {
            after.tables[table_id].columns@.len() == 0
        }
    }
}

/// What is wrong with an image, where there is one.
pub open spec fn optional_fault(image: Option<Vec<RowCell>>, columns: Seq<ColumnInfo>) -> Option<
    CaptureFault,
> {
    match image {
        Some(row) => image_fault(row@, columns),
        None => None,
    }
}

/// What is wrong with a row.
pub open spec fn event_row_fault(row: EventRow, columns: Seq<ColumnInfo>) -> Option<CaptureFault> {
    match row {
        EventRow::Broken(message) => Some(invalid_data(message@)),
        EventRow::Images { before, after } => match optional_fault(before, columns) {
            Some(fault) => Some(fault),
            None => optional_fault(after, columns),
        },
    }
}

/// What is wrong with the rows from `from` on.
pub open spec fn event_rows_fault(rows: Seq<EventRow>, columns: Seq<ColumnInfo>, from: int) -> Option<
    CaptureFault,
>
    decreases rows.len() - from,
{
    if from < 0 || from >= rows.len() {
        None
    } else {
        match event_row_fault(rows[from], columns) {
            Some(fault) => Some(fault),
            None => event_rows_fault(rows, columns, from + 1),
        }
    }
}

/// The columns are what an image is decoded to, where there is one.
pub open spec fn optional_image(
    image: Option<Vec<ColumnDatum>>,
    row: Option<Vec<RowCell>>,
    columns: Seq<ColumnInfo>,
) -> bool {
    match (image, row) {
        (Some(image), Some(row)) => decoded_image(image@, row@, columns),
        (None, None) => true,
        _ => false,
    }
}

/// The change is the one that a row of a table stands for.
pub open spec fn row_change(
    change: RowChange,
    row: EventRow,
    table: TableInfo,
    operation: Operation,
    file: Seq<char>,
    header: EventHeader,
) -> bool {
    &&& change.database is None
    &&& change.operation == operation
    &&& change.schema@ == table.schema@
    &&& change.table@ == table.table@
    &&& cursor_of(change.source_cursor, file, header.log_pos)
    &&& change.source_timestamp == header.timestamp
    &&& change.schema_basis@ == "information_schema_at_capture"@
    &&& row matches EventRow::Images { before, after } && optional_image(
        change.before,
        before,
        table.columns@,
    ) && optional_image(change.after, after, table.columns@)
}

/// The changes are the ones that the rows of a table stand for.
pub open spec fn row_changes(
    changes: Seq<RowChange>,
    rows: Seq<EventRow>,
    table: TableInfo,
    operation: Operation,
    file: Seq<char>,
    header: EventHeader,
) -> bool {
    &&& changes.len() == rows.len()
    &&& forall|i: int|
        0 <= i < rows.len() ==> row_change(
            #[trigger] changes[i],
            rows[i],
            table,
            operation,
            file,
            header,
        )
}

/// Changes are added to the open transaction, as many as fit.
pub open spec fn buffered(
    before: Capture,
    pending: PendingTransaction,
    changes: Seq<RowChange>,
    after: Capture,
    result: Decoded,
) -> bool {
    let count = accepted(pending.bytes as int, changes, 0);
    &&& after == (Capture { pending: after.pending, ..before })
    &&& after.pending matches Some(grown) && grown == (PendingTransaction {
        changes: grown.changes,
        bytes: grown.bytes,
        ..pending
    }) && grown.changes@ == pending.changes@ + changes.take(count)
    &&& if count == changes.len() {
        nothing(result)
    } else {
        capture_fault(result) == Some(
            other("transaction exceeds buffer limit; no events from it were emitted"@),
        )
    }
}

/// Rows of a table have changed.
pub open spec fn rows_changed(
    before: Capture,
    header: EventHeader,
    table_id: u64,
    operation: Operation,
    rows: Seq<EventRow>,
    after: Capture,
    result: Decoded,
) -> bool {
    if !before.tables.dom().contains(table_id) {
        refused(
            before,
            after,
            result,
            other("row event refers to unknown TABLE_MAP id "@ + decimal(table_id as nat)),
        )
    } else {
        let table = before.tables[table_id];
        if table.columns@.len() == 0 && before.scope.len() > 0 {
            after == before && nothing(result)
        } else {
            match event_rows_fault(rows, table.columns@, 0) {
                Some(fault) => refused(before, after, result, fault),
                None => match before.pending {
                    None => refused(
                        before,
                        after,
                        result,
                        other(
                            "row event arrived without a GTID/BEGIN; resume from a transaction boundary"@,
                        ),
                    ),
                    Some(pending) => if !pending.began {
                        refused(
                            before,
                            after,
                            result,
                            other(
                                "row event arrived before BEGIN; resume from a transaction boundary"@,
                            ),
                        )
                    } else {
                        exists|changes: Seq<RowChange>|
                            #[trigger] row_changes(
                                changes,
                                rows,
                                table,
                                operation,
                                before.file,
                                header,
                            ) && buffered(before, pending, changes, after, result)
                    },
                },
            }
        }
    }
}

/// What an event does.
pub open spec fn decoded(
    before: Capture,
    header: EventHeader,
    event: BinlogEvent,
    after: Capture,
    result: Decoded,
) -> bool {
    match event_type_fault(header.event_type) {
        Some(fault) => refused(before, after, result, fault),
        None => match event {
            BinlogEvent::Rotate { name } => if before.pending is Some {
                refused(
                    before,
                    after,
                    result,
                    other("binlog rotated with an uncommitted transaction in the buffer"@),
                )
            } else {
                after == (Capture { file: name@, tables: Map::empty(), ..before }) && nothing(
                    result,
                )
            },
            BinlogEvent::TableMap { table_id, schema, table, columns_count, columns } => announced(
                before,
                table_id,
                schema,
                table,
                columns_count,
                columns,
                after,
                result,
            ),
            BinlogEvent::Gtid { sid, gno } => starting(
                before,
                after,
                result,
                gtid_text(sid@, gno),
                header.log_pos,
            ),
            BinlogEvent::AnonymousGtid => starting(
                before,
                after,
                result,
                "anonymous:"@ + position_text(before.file, header.log_pos as nat),
                header.log_pos,
            ),
            BinlogEvent::Query { text } => queried(before, text@, after, result, header.log_pos),
            BinlogEvent::Rows { table_id, operation, rows } => rows_changed(
                before,
                header,
                table_id,
                operation,
                rows@,
                after,
                result,
            ),
            BinlogEvent::Xid => finishing(before, before.pending, after, result, header.log_pos),
            BinlogEvent::Ignored => after == before && nothing(result),
            BinlogEvent::Unsupported(shown) => refused(
                before,
                after,
                result,
                other("unsupported 5.7 binlog event: "@ + shown@),
            ),
            BinlogEvent::Unknown => refused(
                before,
                after,
                result,
                other("unknown binlog event; capture stopped"@),
            ),
            BinlogEvent::Broken(message) => refused(
                before,
                after,
                result,
                invalid_data(message@),
            ),
        },
    }
}

/// Nothing is published before a transaction commits: a transaction comes from
/// a commit or from a control statement, it holds exactly the changes that were
/// collected, and nothing of it stays behind.
pub proof fn law_only_a_commit_publishes(
    before: Capture,
    header: EventHeader,
    event: BinlogEvent,
    after: Capture,
    result: Decoded,
)
    requires
        decoded(before, header, event, after, result),
        result matches Ok(Some(_)),
    ensures
        event is Xid || (event matches BinlogEvent::Query { text } && (upper(trim(text@))
            == "COMMIT"@ || control_statement(upper(trim(text@))))),
        before.pending is Some,
        (result->Ok_0)->0.changes@ == before.pending->0.changes@,
        (result->Ok_0)->0.id@ == before.pending->0.id@,
        after.pending is None,
{
}

/// A row event adds exactly its rows to the open transaction, behind those that
/// are there and in their order. Each is a change of the announced table, by the
/// operation of the event, with an image before and behind it where the row has
/// one, and every image is what its row is decoded to.
pub proof fn law_a_row_event_adds_its_rows(
    before: Capture,
    header: EventHeader,
    table_id: u64,
    operation: Operation,
    rows: Vec<EventRow>,
    after: Capture,
    result: Decoded,
    at: int,
)
    requires
        decoded(before, header, BinlogEvent::Rows { table_id, operation, rows }, after, result),
        result is Ok,
        before.tables.dom().contains(table_id) && before.tables[table_id].columns@.len() > 0,
        0 <= at < rows@.len(),
    ensures
        result->Ok_0 is None,
        before.pending is Some && after.pending is Some,
        after.pending->0.id == before.pending->0.id,
        after.pending->0.began && before.pending->0.began,
        after.pending->0.changes@.len() == before.pending->0.changes@.len() + rows@.len(),
        after.pending->0.changes@.take(before.pending->0.changes@.len() as int)
            == before.pending->0.changes@,
        ({
            let table = before.tables[table_id];
            let change = after.pending->0.changes@[before.pending->0.changes@.len() + at];
            &&& change.operation == operation
            &&& change.schema@ == table.schema@ && change.table@ == table.table@
            &&& change.source_timestamp == header.timestamp
            &&& cursor_of(change.source_cursor, before.file, header.log_pos)
            &&& rows@[at] matches EventRow::Images { before: old_row, after: new_row } && {
                &&& change.before is Some <==> old_row is Some
                &&& change.after is Some <==> new_row is Some
                &&& old_row matches Some(row) ==> image_fault(row@, table.columns@) is None
                    && decoded_image(change.before->0@, row@, table.columns@)
                &&& new_row matches Some(row) ==> image_fault(row@, table.columns@) is None
                    && decoded_image(change.after->0@, row@, table.columns@)
            }
        }),
        after.tables == before.tables && after.file == before.file && after.scope == before.scope,
{
    let table = before.tables[table_id];
    let pending = before.pending->0;
    let changes = choose|changes: Seq<RowChange>| #[trigger]
        row_changes(changes, rows@, table, operation, before.file, header) && buffered(
            before,
            pending,
            changes,
            after,
            result,
        );
    assert(row_changes(changes, rows@, table, operation, before.file, header));
    assert(changes.take(changes.len() as int) =~= changes);
    let grown = after.pending->0.changes@;
    assert(grown == pending.changes@ + changes);
    assert(grown.take(pending.changes@.len() as int) =~= pending.changes@);
    assert(grown[pending.changes@.len() + at] == changes[at]);
    assert(row_change(changes[at], rows@[at], table, operation, before.file, header));
    lemma_no_row_fault(rows@, table.columns@, 0, at);
}

proof fn lemma_no_row_fault(rows: Seq<EventRow>, columns: Seq<ColumnInfo>, from: int, at: int)
    requires
        0 <= from <= at < rows.len(),
        event_rows_fault(rows, columns, from) is None,
    ensures
        event_row_fault(rows[at], columns) is None,
    decreases at - from,
{
    if from < at {
        lemma_no_row_fault(rows, columns, from + 1, at);
    }
}

/// A transaction with changes that commits is published, with its source, and
/// with the position of the commit as its cursor.
pub proof fn law_a_commit_publishes_what_was_collected(
    before: Capture,
    header: EventHeader,
    after: Capture,
    result: Decoded,
)
    requires
        decoded(before, header, BinlogEvent::Xid, after, result),
        event_type_fault(header.event_type) is None,
        before.pending matches Some(pending) && pending.began && pending.changes@.len() > 0,
    ensures
        result matches Ok(Some(transaction)) && {
            &&& transaction.changes@ == before.pending->0.changes@
            &&& transaction.id@ == before.pending->0.id@
            &&& transaction.begin_cursor == before.pending->0.begin_cursor
            &&& transaction.source.doc() == before.source.doc()
            &&& cursor_of(transaction.commit_cursor, before.file, header.log_pos)
        },
        after.pending is None,
{
}

/// What is rolled back is never published, and neither is a row of a table that
/// is not captured.
pub proof fn law_dropped_rows_leave_no_trace(
    before: Capture,
    header: EventHeader,
    event: BinlogEvent,
    after: Capture,
    result: Decoded,
)
    requires
        decoded(before, header, event, after, result),
        result is Ok,
    ensures
        event matches BinlogEvent::Query { text } ==> upper(trim(text@)) == "ROLLBACK"@ ==> {
            after.pending is None && result->Ok_0 is None
        },
        event matches BinlogEvent::Rows { table_id, .. } ==> before.tables.dom().contains(table_id)
            && before.tables[table_id].columns@.len() == 0 && before.scope.len() > 0 ==> after
            == before && result->Ok_0 is None,
        event matches BinlogEvent::TableMap { table_id, schema, table, columns, .. } ==> {
            &&& after.pending == before.pending && result->Ok_0 is None
            &&& after.tables.dom().contains(table_id)
            &&& after.tables[table_id].schema@ == schema@ && after.tables[table_id].table@ == table@
            &&& if before.scope.len() == 0 || exists|i: int|
                0 <= i < before.scope.len() && (#[trigger] before.scope[i]).0@ == schema@
                    && before.scope[i].1@ == table@ {
                after.tables[table_id].columns@ == columns@
            } else {
                after.tables[table_id].columns@.len() == 0
            }
        },
{
    if let BinlogEvent::Query { text } = event {
        lemma_rollback_is_no_begin();
    }
}

proof fn lemma_rollback_is_no_begin()
    ensures
        !begin_statement("ROLLBACK"@),
        "ROLLBACK"@ != "COMMIT"@,
{
    reveal_strlit("ROLLBACK");
    reveal_strlit("COMMIT");
    reveal_strlit("BEGIN");
    reveal_strlit("BEGIN ");
    assert("ROLLBACK"@.len() == 8 && "COMMIT"@.len() == 6 && "BEGIN"@.len() == 5);
    if has_prefix("ROLLBACK"@, "BEGIN "@) {
        assert("ROLLBACK"@.take(6)[0] == "BEGIN "@[0]);
    }
}

/// The columns of an announced table name their types consistently.
pub open spec fn event_fits(event: BinlogEvent) -> bool {
    event matches BinlogEvent::TableMap { columns, .. } ==> all_labels_agree(columns@)
}

impl Capture {
    /// The tables have consistent columns, and the open transaction is within
    /// the limit.
    pub open spec fn fits(&self) -> bool {
        &&& forall|id: u64|
            self.tables.dom().contains(id) ==> all_labels_agree(
                (#[trigger] self.tables[id]).columns@,
            )
        &&& self.pending matches Some(pending) ==> pending.sized()
    }
}

proof fn lemma_one_more_table(before: Capture, after: Capture, table_id: u64)
    requires
        before.fits(),
        after.pending == before.pending,
        after.tables == before.tables.insert(table_id, after.tables[table_id]),
        all_labels_agree(after.tables[table_id].columns@),
    ensures
        after.fits(),
{
    assert forall|id: u64| after.tables.dom().contains(id) implies all_labels_agree(
        (#[trigger] after.tables[id]).columns@,
    ) by {
        if id != table_id {
            assert(before.tables.dom().contains(id));
            assert(after.tables[id] == before.tables[id]);
        }
    }
}

impl Decoder {
    /// What the decoder holds.
    pub closed spec fn state(&self) -> Capture {
        Capture {
            file: self.current_file@,
            source: self.source,
            tables: self.tables@,
            pending: self.pending,
            reject_statements: self.reject_statements,
            scope: self.capture_tables@,
        }
    }

    /// A decoder at the begin of a file. It rejects statements and captures
    /// every table.
    pub fn new(current_file: String, version: String, server_uuid: String) -> (result: Self)
        ensures
            result.state().file == current_file@,
            result.state().source.kind@ == "mysql"@,
            result.state().source.version == version,
            result.state().source.id == server_uuid,
            result.state().tables == Map::<u64, TableInfo>::empty(),
            result.state().pending is None,
            result.state().reject_statements,
            result.state().scope.len() == 0,
            result.state().fits(),
    {
        Self {
            current_file,
            source: Source { kind: "mysql".to_owned(), version, id: server_uuid },
            tables: HashMap::new(),
            pending: None,
            reject_statements: true,
            capture_tables: Vec::new(),
        }
    }

    /// The decoder, with a policy for statements and a scope.
    pub fn scoped(
        self,
        reject_statements: bool,
        capture_tables: Vec<(String, String)>,
    ) -> (result: Self)
        ensures
            result.state() == (Capture {
                reject_statements,
                scope: capture_tables@,
                ..self.state()
            }),
            self.state().fits() ==> result.state().fits(),
    {
        Self {
            current_file: self.current_file,
            source: self.source,
            tables: self.tables,
            pending: self.pending,
            reject_statements,
            capture_tables,
        }
    }

    /// Whether the catalog has to be asked for the columns of a table.
    pub fn captures(&self, schema: &str, table: &str) -> (result: bool)
        ensures
            result == captured(self.state().scope, schema@, table@),
    {
        if self.capture_tables.len() == 0 {
            return true;
        }
        let mut i: usize = 0;
        while i < self.capture_tables.len()
            invariant
                i <= self.capture_tables@.len(),
                self.capture_tables@.len() > 0,
                forall|k: int|
                    0 <= k < i ==> !((#[trigger] self.capture_tables@[k]).0@ == schema@
                        && self.capture_tables@[k].1@ == table@),
            decreases self.capture_tables@.len() - i,
        {
            let entry = &self.capture_tables[i];
            if same(entry.0.as_str(), schema) && same(entry.1.as_str(), table) {
                return true;
            }
            i += 1;
        }
        false
    }

    /// Takes one event. A transaction is published when it commits, and never
    /// in parts.
    pub fn decode(&mut self, header: EventHeader, event: BinlogEvent) -> (result: Decoded)
        requires
            old(self).state().fits(),
            event_fits(event),
        ensures
            decoded(old(self).state(), header, event, final(self).state(), result),
            final(self).state().fits(),
            result matches Ok(Some(transaction)) ==> changes_size(transaction.changes@)
                <= MAX_TRANSACTION_BYTES,
    {
        match check_event_type(header.event_type) {
            Ok(_) => {},
            Err(error) => return Err(error),
        }
        let cursor = binlog_cursor(self.current_file.as_str(), header.log_pos);
        match event {
            BinlogEvent::Rotate { name } => {
                if self.pending.is_some() {
                    return Err(
                        CaptureError::other(
                            "binlog rotated with an uncommitted transaction in the buffer",
                        ),
                    );
                }
                self.pending = None;
                self.current_file = name;
                self.tables.clear();
                Ok(None)
            },
            BinlogEvent::TableMap { table_id, schema, table, columns_count, columns } => {
                match self.store_table_map(table_id, schema, table, columns_count, columns) {
                    Ok(_) => Ok(None),
                    Err(error) => Err(error),
                }
            },
            BinlogEvent::Gtid { sid, gno } => {
                let id = format_gtid(&sid, gno);
                self.start_transaction(id, cursor, Ghost(header.log_pos))
            },
            BinlogEvent::AnonymousGtid => {
                let id = concat("anonymous:", cursor.display.as_str());
                self.start_transaction(id, cursor, Ghost(header.log_pos))
            },
            BinlogEvent::Query { text } => self.handle_query(text.as_str(), cursor, Ghost(header.log_pos)),
            BinlogEvent::Rows { table_id, operation, rows } => self.handle_rows(
                table_id,
                operation,
                &rows,
                header,
            ),
            BinlogEvent::Xid => self.finish_transaction(cursor, Ghost(header.log_pos)),
            BinlogEvent::Ignored => Ok(None),
            BinlogEvent::Unsupported(shown) => {
                let message = concat("unsupported 5.7 binlog event: ", shown.as_str());
                Err(CaptureError::other(message.as_str()))
            },
            BinlogEvent::Unknown => Err(
                CaptureError::other("unknown binlog event; capture stopped"),
            ),
            BinlogEvent::Broken(message) => Err(CaptureError::invalid_data(message.as_str())),
        }
    }

    fn store_table_map(
        &mut self,
        table_id: u64,
        schema: String,
        table: String,
        columns_count: u64,
        columns: Vec<ColumnInfo>,
    ) -> (result: Result<(), CaptureError>)
        requires
            old(self).state().fits(),
            all_labels_agree(columns@),
        ensures
            final(self).state().fits(),
            announced(
                old(self).state(),
                table_id,
                schema,
                table,
                columns_count,
                columns,
                final(self).state(),
                match result {
                    Ok(_) => Ok(None),
                    Err(error) => Err(error),
                },
            ),
    {
        if !self.captures(schema.as_str(), table.as_str()) {
            let none: Vec<ColumnInfo> = Vec::new();
            self.tables.insert(table_id, TableInfo { schema, table, columns: none });
            proof {
                lemma_one_more_table(old(self).state(), self.state(), table_id);
            }
            return Ok(());
        }
        let expected: usize = columns_count as usize;
        if columns.len() != expected {
            let wanted = decimal_text(expected as u128);
            let found = decimal_text(columns.len() as u128);
            let head = concat5(
                "cannot construct ChangeEvent for ",
                schema.as_str(),
                ".",
                table.as_str(),
                ": TABLE_MAP has ",
            );
            let message = concat4(
                head.as_str(),
                wanted.as_str(),
                " columns but INFORMATION_SCHEMA returned ",
                found.as_str(),
            );
            return Err(CaptureError::other(message.as_str()));
        }
        self.tables.insert(table_id, TableInfo { schema, table, columns });
        proof {
            lemma_one_more_table(old(self).state(), self.state(), table_id);
        }
        Ok(())
    }

    fn start_transaction(
        &mut self,
        id: String,
        cursor: SourceCursor,
        Ghost(log_pos): Ghost<u32>,
    ) -> (result: Decoded)
        requires
            old(self).state().fits(),
            cursor_of(cursor, old(self).state().file, log_pos),
        ensures
            starting(old(self).state(), final(self).state(), result, id@, log_pos),
            final(self).state().fits(),
            !(result matches Ok(Some(_))),
    {
        if self.pending.is_some() {
            return Err(
                CaptureError::other("a new GTID arrived before the previous transaction committed"),
            );
        }
        self.pending = Some(PendingTransaction::new(id, cursor, false));
        assert(self.state().tables == old(self).state().tables);
        assert(self.state().pending->0.sized());
        Ok(None)
    }

    fn handle_query(
        &mut self,
        query: &str,
        cursor: SourceCursor,
        Ghost(log_pos): Ghost<u32>,
    ) -> (result: Decoded)
        requires
            old(self).state().fits(),
            cursor_of(cursor, old(self).state().file, log_pos),
        ensures
            queried(old(self).state(), query@, final(self).state(), result, log_pos),
            final(self).state().fits(),
            result matches Ok(Some(transaction)) ==> changes_size(transaction.changes@)
                <= MAX_TRANSACTION_BYTES,
    {
        let kept = trimmed(query);
        let upper_case = to_upper(kept.as_str());
        let statement = upper_case.as_str();
        if same(statement, "BEGIN") || starts_with(statement, "BEGIN ") {
            let pending = self.pending.take();
            match pending {
                None => {
                    let id = concat("anonymous:", cursor.display.as_str());
                    self.pending = Some(PendingTransaction::new(id, cursor, true));
                    return Ok(None);
                },
                Some(transaction) => {
                    if transaction.began {
                        self.pending = Some(transaction);
                        return Err(CaptureError::other("nested BEGIN in MySQL transaction"));
                    }
                    self.pending = Some(
                        PendingTransaction {
                            id: transaction.id,
                            begin_cursor: cursor,
                            began: true,
                            changes: transaction.changes,
                            bytes: transaction.bytes,
                        },
                    );
                    return Ok(None);
                },
            }
        }
        if same(statement, "COMMIT") {
            return self.finish_transaction(cursor, Ghost(log_pos));
        }
        if same(statement, "ROLLBACK") {
            self.pending = None;
            return Ok(None);
        }
        // Other Sink tasks may initialize the reserved control schema.

        let control = is_control_statement(statement);
        if self.reject_statements && !control {
            return Err(
                CaptureError::other(
                    "发现 DDL 或语句型事件；当前任务仅支持行变更，已停止且未推进该事件位点",
                ),
            );
        }
        if control && self.capture_tables.len() > 0 {
            let pending = self.pending.take();
            self.pending = match pending {
                Some(transaction) => Some(
                    PendingTransaction {
                        id: transaction.id,
                        begin_cursor: transaction.begin_cursor,
                        began: true,
                        changes: transaction.changes,
                        bytes: transaction.bytes,
                    },
                ),
                None => None,
            };
            return self.finish_transaction(cursor, Ghost(log_pos));
        }
        // A statement that defines or changes data: no row change is invented
        // for it.

        let empty = match &self.pending {
            Some(transaction) => transaction.changes.len() == 0,
            None => false,
        };
        if empty {
            self.pending = None;
        }
        Ok(None)
    }

    fn finish_transaction(
        &mut self,
        cursor: SourceCursor,
        Ghost(log_pos): Ghost<u32>,
    ) -> (result: Decoded)
        requires
            old(self).state().fits(),
            cursor_of(cursor, old(self).state().file, log_pos),
        ensures
            finishing(
                old(self).state(),
                old(self).state().pending,
                final(self).state(),
                result,
                log_pos,
            ),
            final(self).state().fits(),
            result matches Ok(Some(transaction)) ==> changes_size(transaction.changes@)
                <= MAX_TRANSACTION_BYTES,
    {
        let transaction = match self.pending.take() {
            Some(transaction) => transaction,
            None => return Ok(None),
        };
        if !transaction.began {
            return Err(CaptureError::other("commit without BEGIN"));
        }
        if transaction.changes.len() == 0 && self.capture_tables.len() == 0 {
            return Ok(None);
        }
        Ok(
            Some(
                ChangeTransaction {
                    source: self.source.clone(),
                    id: transaction.id,
                    begin_cursor: transaction.begin_cursor,
                    commit_cursor: cursor,
                    changes: transaction.changes,
                },
            ),
        )
    }

    fn handle_rows(
        &mut self,
        table_id: u64,
        operation: Operation,
        rows: &Vec<EventRow>,
        header: EventHeader,
    ) -> (result: Decoded)
        requires
            old(self).state().fits(),
        ensures
            rows_changed(
                old(self).state(),
                header,
                table_id,
                operation,
                rows@,
                final(self).state(),
                result,
            ),
            final(self).state().fits(),
            !(result matches Ok(Some(_))),
    {
        let changes = match self.tables.get(&table_id) {
            None => {
                let number = decimal_text(table_id as u128);
                let message = concat(
                    "row event refers to unknown TABLE_MAP id ",
                    number.as_str(),
                );
                return Err(CaptureError::other(message.as_str()));
            },
            Some(table) => {
                if table.columns.len() == 0 && self.capture_tables.len() > 0 {
                    return Ok(None);
                }
                match decode_rows(rows, table, operation, self.current_file.as_str(), header) {
                    Ok(changes) => changes,
                    Err(error) => return Err(error),
                }
            },
        };
        let mut pending = match self.pending.take() {
            None => {
                return Err(
                    CaptureError::other(
                        "row event arrived without a GTID/BEGIN; resume from a transaction boundary",
                    ),
                );
            },
            Some(pending) => pending,
        };
        if !pending.began {
            self.pending = Some(pending);
            return Err(
                CaptureError::other(
                    "row event arrived before BEGIN; resume from a transaction boundary",
                ),
            );
        }
        let ghost all = changes@;
        let outcome = buffer_changes(&mut pending, changes);
        self.pending = Some(pending);
        assert(row_changes(
            all,
            rows@,
            old(self).state().tables[table_id],
            operation,
            old(self).state().file,
            header,
        ));
        match outcome {
            Ok(_) => Ok(None),
            Err(error) => Err(error),
        }
    }

    /// A stream must not end inside a transaction.
    pub fn ensure_complete(&self) -> (result: Result<(), CaptureError>)
        ensures
            capture_fault(result) == match self.state().pending {
                Some(_) => Some(
                    other(
                        "stream ended inside a transaction; no partial transaction was emitted"@,
                    ),
                ),
                None => None,
            },
    {
        if self.pending.is_some() {
            return Err(
                CaptureError::other(
                    "stream ended inside a transaction; no partial transaction was emitted",
                ),
            );
        }
        Ok(())
    }
}

fn decode_optional(row: &Option<Vec<RowCell>>, columns: &Vec<ColumnInfo>) -> (result: Result<
    Option<Vec<ColumnDatum>>,
    CaptureError,
>)
    requires
        all_labels_agree(columns@),
    ensures
        match result {
            Ok(image) => optional_fault(*row, columns@) is None && optional_image(
                image,
                *row,
                columns@,
            ),
            Err(error) => optional_fault(*row, columns@) == Some(error.fault()),
        },
{
    match row {
        None => Ok(None),
        Some(row) => match decode_row(row, columns) {
            Ok(image) => Ok(Some(image)),
            Err(error) => Err(error),
        },
    }
}

/// Decodes the rows of a table as changes.
fn decode_rows(
    rows: &Vec<EventRow>,
    table: &TableInfo,
    operation: Operation,
    file: &str,
    header: EventHeader,
) -> (result: Result<Vec<RowChange>, CaptureError>)
    requires
        all_labels_agree(table.columns@),
    ensures
        match result {
            Ok(changes) => event_rows_fault(rows@, table.columns@, 0) is None && row_changes(
                changes@,
                rows@,
                *table,
                operation,
                file@,
                header,
            ),
            Err(error) => event_rows_fault(rows@, table.columns@, 0) == Some(error.fault()),
        },
{
    let mut changes: Vec<RowChange> = Vec::new();
    let mut i: usize = 0;
    while i < rows.len()
        invariant
            i <= rows@.len(),
            all_labels_agree(table.columns@),
            changes@.len() == i,
            event_rows_fault(rows@, table.columns@, 0) == event_rows_fault(
                rows@,
                table.columns@,
                i as int,
            ),
            forall|k: int|
                0 <= k < i ==> row_change(
                    #[trigger] changes@[k],
                    rows@[k],
                    *table,
                    operation,
                    file@,
                    header,
                ),
        decreases rows@.len() - i,
    {
        match &rows[i] {
            EventRow::Broken(message) => return Err(CaptureError::invalid_data(message.as_str())),
            EventRow::Images { before, after } => {
                let before_image = match decode_optional(before, &table.columns) {
                    Ok(image) => image,
                    Err(error) => return Err(error),
                };
                let after_image = match decode_optional(after, &table.columns) {
                    Ok(image) => image,
                    Err(error) => return Err(error),
                };
                changes.push(
                    RowChange {
                        database: None,
                        operation,
                        schema: table.schema.clone(),
                        table: table.table.clone(),
                        source_cursor: binlog_cursor(file, header.log_pos),
                        source_timestamp: header.timestamp,
                        schema_basis: "information_schema_at_capture".to_owned(),
                        before: before_image,
                        after: after_image,
                    },
                );
            },
        }
        i += 1;
    }
    Ok(changes)
}

/// Adds changes to an open transaction, as many as fit.
fn buffer_changes(pending: &mut PendingTransaction, changes: Vec<RowChange>) -> (result: Result<
    (),
    CaptureError,
>)
    requires
        old(pending).began,
        old(pending).sized(),
    ensures
        final(pending).sized(),
        *final(pending) == (PendingTransaction {
            changes: final(pending).changes,
            bytes: final(pending).bytes,
            ..*old(pending)
        }),
        final(pending).changes@ == old(pending).changes@ + changes@.take(
            accepted(old(pending).bytes as int, changes@, 0),
        ),
        capture_fault(result) == if accepted(old(pending).bytes as int, changes@, 0)
            == changes@.len() {
            None
        } else {
            Some(other("transaction exceeds buffer limit; no events from it were emitted"@))
        },
{
    let ghost all = changes@;
    let ghost start = *pending;
    for change in iter: changes
        invariant
            iter.seq() == all,
            start == *old(pending),
            start.began,
            pending.sized(),
            *pending == (PendingTransaction {
                changes: pending.changes,
                bytes: pending.bytes,
                ..start
            }),
            pending.changes@ == start.changes@ + all.take(iter.index() as int),
            accepted(start.bytes as int, all, 0) == accepted(
                pending.bytes as int,
                all,
                iter.index() as int,
            ),
    {
        let ghost n = iter.index() as int;
        assert(change == all[n]);
        match pending.push(change, MAX_TRANSACTION_BYTES) {
            Ok(_) => {
                assert(all.take(n + 1) =~= all.take(n).push(all[n]));
                assert(pending.changes@ =~= start.changes@ + all.take(n + 1));
            },
            Err(error) => {
                return Err(error);
            },
        }
    }
    assert(all.take(all.len() as int) =~= all);
    Ok(())
}

} // verus!
