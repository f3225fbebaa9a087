//! Replication progress that is committed together with business data.
//!
//! The writer holds what is known and decides; the driver holds the connection
//! and the advisory lock of the task, and runs the statements.
use crate::change_event::failure::CommitResolution;
use crate::change_event::model::{ChangeTransaction, SourceCursor};
use crate::change_event::snapshot::{
    batch_fault, validate_snapshot, SnapshotBatch, SnapshotBoundary, SnapshotTable,
    ValidatedSnapshotBatch,
};
use crate::mysql_5_7::type_mapping::view_of;
use crate::mysql_5_7::value::text_of;
use crate::mysql_8_0::position::{
    checkpoint_position_fault, compare_checkpoint_position, complaint_of, file_parts,
    file_position, history_order, lsn, named_position, natural, order_sign, position_fault, refuse,
    validate_checkpoint_position, validate_position, CheckpointError,
};
use crate::mysql_source_contract::boundary::{
    cursor_boundary, decode_snapshot_boundary, Boundary,
};
use crate::number::{parse_u64, parse_unsigned};
use crate::text::{
    all_hex_digits, are_hex_digits, ascii_digit, ascii_letter, chars_of, concat3,
    contains_char, is_ascii_digit, is_ascii_letter, join, join_texts, lemma_last_index,
    rsplit_once, same,
    split_at_last, text_between, texts,
};
use std::cmp::Ordering;
use vstd::prelude::*;

verus! {

// ---------------------------------------------------------------------------
// Checkpoints
// ---------------------------------------------------------------------------

/// How far a task has come.
#[derive(Debug)]
pub struct ReplicationCheckpoint {
    pub task_id: String,
    pub source_uuid: String,
    pub sink_uuid: String,
    pub binding: String,
    pub mode: String,
    pub file: String,
    pub position: u64,
    pub gtid_set: Option<String>,
    pub last_transaction_id: Option<String>,
    pub revision: u64,
    pub applied_transactions: u64,
    pub applied_rows: u64,
    pub phase: String,
    pub snapshot_rows: u64,
    pub snapshot_gtids: Option<String>,
}

/// What a checkpoint holds.
pub struct Progress {
    pub task_id: Seq<char>,
    pub source_uuid: Seq<char>,
    pub sink_uuid: Seq<char>,
    pub binding: Seq<char>,
    pub mode: Seq<char>,
    pub file: Seq<char>,
    pub position: u64,
    pub gtid_set: Option<Seq<char>>,
    pub last_transaction_id: Option<Seq<char>>,
    pub revision: u64,
    pub applied_transactions: u64,
    pub applied_rows: u64,
    pub phase: Seq<char>,
    pub snapshot_rows: u64,
    pub snapshot_gtids: Option<Seq<char>>,
}

impl View for ReplicationCheckpoint {
    type V = Progress;

    open spec fn view(&self) -> Progress {
        Progress {
            task_id: self.task_id@,
            source_uuid: self.source_uuid@,
            sink_uuid: self.sink_uuid@,
            binding: self.binding@,
            mode: self.mode@,
            file: self.file@,
            position: self.position,
            gtid_set: text_of(self.gtid_set),
            last_transaction_id: text_of(self.last_transaction_id),
            revision: self.revision,
            applied_transactions: self.applied_transactions,
            applied_rows: self.applied_rows,
            phase: self.phase@,
            snapshot_rows: self.snapshot_rows,
            snapshot_gtids: text_of(self.snapshot_gtids),
        }
    }
}

/// What a checkpoint holds, where there is one.
pub open spec fn progress_of(checkpoint: Option<ReplicationCheckpoint>) -> Option<Progress> {
    match checkpoint {
        Some(checkpoint) => Some(checkpoint@),
        None => None,
    }
}

fn copy_text(text: &Option<String>) -> (result: Option<String>)
    ensures
        text_of(result) == text_of(*text),
{
    match text {
        Some(text) => Some(text.clone()),
        None => None,
    }
}

impl Clone for ReplicationCheckpoint {
    fn clone(&self) -> (result: Self)
        ensures
            result@ == self@,
    {
        ReplicationCheckpoint {
            task_id: self.task_id.clone(),
            source_uuid: self.source_uuid.clone(),
            sink_uuid: self.sink_uuid.clone(),
            binding: self.binding.clone(),
            mode: self.mode.clone(),
            file: self.file.clone(),
            position: self.position,
            gtid_set: copy_text(&self.gtid_set),
            last_transaction_id: copy_text(&self.last_transaction_id),
            revision: self.revision,
            applied_transactions: self.applied_transactions,
            applied_rows: self.applied_rows,
            phase: self.phase.clone(),
            snapshot_rows: self.snapshot_rows,
            snapshot_gtids: copy_text(&self.snapshot_gtids),
        }
    }
}

fn same_text(a: &Option<String>, b: &Option<String>) -> (result: bool)
    ensures
        result == (text_of(*a) == text_of(*b)),
{
    match (a, b) {
        (Some(a), Some(b)) => same(a.as_str(), b.as_str()),
        (None, None) => true,
        _ => false,
    }
}

/// Whether two checkpoints hold the same.
pub fn same_checkpoint(a: &ReplicationCheckpoint, b: &ReplicationCheckpoint) -> (result: bool)
    ensures
        result == (a@ == b@),
{
    same(a.task_id.as_str(), b.task_id.as_str()) && same(
        a.source_uuid.as_str(),
        b.source_uuid.as_str(),
    ) && same(a.sink_uuid.as_str(), b.sink_uuid.as_str()) && same(
        a.binding.as_str(),
        b.binding.as_str(),
    ) && same(a.mode.as_str(), b.mode.as_str()) && same(a.file.as_str(), b.file.as_str())
        && a.position == b.position && same_text(&a.gtid_set, &b.gtid_set) && same_text(
        &a.last_transaction_id,
        &b.last_transaction_id,
    ) && a.revision == b.revision && a.applied_transactions == b.applied_transactions
        && a.applied_rows == b.applied_rows && same(a.phase.as_str(), b.phase.as_str())
        && a.snapshot_rows == b.snapshot_rows && same_text(&a.snapshot_gtids, &b.snapshot_gtids)
}

fn same_optional(a: &Option<ReplicationCheckpoint>, b: &Option<ReplicationCheckpoint>) -> (result: bool)
    ensures
        result == (progress_of(*a) == progress_of(*b)),
{
    match (a, b) {
        (Some(a), Some(b)) => same_checkpoint(a, b),
        (None, None) => true,
        _ => false,
    }
}

/// A way in which positions are kept.
pub open spec fn known_mode(mode: Seq<char>) -> bool {
    mode == "gtid"@ || mode == "binlog"@ || mode == "postgresql_lsn"@
}

/// Exactly the numbered history has a set of transactions.
pub open spec fn mode_fits(mode: Seq<char>, has_set: bool) -> bool {
    known_mode(mode) && (mode == "gtid"@) == has_set
}

fn does_mode_fit(mode: &str, has_set: bool) -> (result: bool)
    ensures
        result == mode_fits(mode@, has_set),
{
    (same(mode, "gtid") || same(mode, "binlog") || same(mode, "postgresql_lsn")) && same(
        mode,
        "gtid",
    ) == has_set
}

/// Why a saved checkpoint cannot be used.
pub open spec fn binding_fault(
    saved: Progress,
    source: Seq<char>,
    sink: Seq<char>,
    binding: Seq<char>,
) -> Option<Seq<char>> {
    if saved.source_uuid != source || saved.sink_uuid != sink || saved.binding != binding {
        Some("saved checkpoint belongs to a different source, sink or task configuration"@)
    } else if saved.phase != "snapshot"@ && saved.phase != "incremental"@ {
        Some("invalid checkpoint phase"@)
    } else {
        match checkpoint_position_fault(saved.mode, saved.file, saved.position as nat) {
            Some(message) => Some(message),
            None => if mode_fits(saved.mode, saved.gtid_set is Some) {
                None
            } else {
                Some("invalid saved checkpoint mode"@)
            },
        }
    }
}

pub fn check_binding(saved: &ReplicationCheckpoint, source: &str, sink: &str, binding: &str) -> (result: Result<
    (),
    CheckpointError,
>)
    ensures
        complaint_of(result) == binding_fault(saved@, source@, sink@, binding@),
{
    if !same(saved.source_uuid.as_str(), source) || !same(saved.sink_uuid.as_str(), sink) || !same(
        saved.binding.as_str(),
        binding,
    ) {
        return refuse(
            "saved checkpoint belongs to a different source, sink or task configuration",
        );
    }
    if !same(saved.phase.as_str(), "snapshot") && !same(saved.phase.as_str(), "incremental") {
        return refuse("invalid checkpoint phase");
    }
    match validate_checkpoint_position(saved.mode.as_str(), saved.file.as_str(), saved.position) {
        Ok(_) => {},
        Err(error) => return Err(error),
    }
    if !does_mode_fit(saved.mode.as_str(), saved.gtid_set.is_some()) {
        return refuse("invalid saved checkpoint mode");
    }
    Ok(())
}

// ---------------------------------------------------------------------------
// Identities
// ---------------------------------------------------------------------------

/// A character of the name of a task.
pub open spec fn task_char(c: char) -> bool {
    ascii_letter(c) || ascii_digit(c) || c == '_' || c == '-'
}

pub open spec fn all_task_chars(text: Seq<char>) -> bool {
    forall|i: int| 0 <= i < text.len() ==> task_char(#[trigger] text[i])
}

fn are_task_chars(chars: &Vec<char>) -> (result: bool)
    ensures
        result == all_task_chars(chars@),
{
    let mut i: usize = 0;
    while i < chars.len()
        invariant
            i <= chars@.len(),
            forall|k: int| 0 <= k < i ==> task_char(#[trigger] chars@[k]),
        decreases chars@.len() - i,
    {
        let c: char = chars[i];
        if !(is_ascii_letter(c) || is_ascii_digit(c) || c == '_' || c == '-') {
            assert(!task_char(chars@[i as int]));
            return false;
        }
        i += 1;
    }
    true
}

pub open spec fn ascii(text: Seq<char>) -> bool {
    forall|i: int| 0 <= i < text.len() ==> (#[trigger] text[i] as u32) < 0x80
}

fn is_ascii(chars: &Vec<char>) -> (result: bool)
    ensures
        result == ascii(chars@),
{
    let mut i: usize = 0;
    while i < chars.len()
        invariant
            i <= chars@.len(),
            forall|k: int| 0 <= k < i ==> (#[trigger] chars@[k] as u32) < 0x80,
        decreases chars@.len() - i,
    {
        if chars[i] as u32 >= 0x80 {
            assert(chars@[i as int] as u32 >= 0x80);
            return false;
        }
        i += 1;
    }
    true
}

/// What names a task: itself, its source, and the digest of its configuration.
pub open spec fn task_identity(task_id: Seq<char>, source_uuid: Seq<char>, binding: Seq<char>) -> bool {
    &&& 0 < task_id.len() <= 128
    &&& all_task_chars(task_id)
    &&& 0 < source_uuid.len() <= 255
    &&& ascii(source_uuid)
    &&& binding.len() == 64
    &&& all_hex_digits(binding)
}

/// Checks what names a task before a connection is opened.
pub fn check_identity(task_id: &str, source_uuid: &str, binding: &str) -> (result: Result<
    (),
    CheckpointError,
>)
    ensures
        complaint_of(result) == if task_identity(task_id@, source_uuid@, binding@) {
            None
        } else {
            Some("invalid task identity or configuration binding"@)
        },
{
    let task = chars_of(task_id);
    let source = chars_of(source_uuid);
    let bound = chars_of(binding);
    if task.len() == 0 || task.len() > 128 || !are_task_chars(&task) || source.len() == 0
        || source.len() > 255 || !is_ascii(&source) || bound.len() != 64 || !are_hex_digits(
        &bound,
    ) {
        return refuse("invalid task identity or configuration binding");
    }
    Ok(())
}

/// A source cannot be its own sink.
pub fn check_sink(sink_uuid: &str, source_uuid: &str) -> (result: Result<(), CheckpointError>)
    ensures
        complaint_of(result) == if sink_uuid@ == source_uuid@ {
            Some("source and sink must be different MySQL instances"@)
        } else {
            None
        },
{
    if same(sink_uuid, source_uuid) {
        return refuse("source and sink must be different MySQL instances");
    }
    Ok(())
}

/// Only one writer owns a task.
pub fn check_ownership(acquired: Option<u8>) -> (result: Result<(), CheckpointError>)
    ensures
        complaint_of(result) == if acquired == Some(1u8) {
            None
        } else {
            Some("task is already owned by another writer"@)
        },
{
    match acquired {
        Some(1) => Ok(()),
        _ => refuse("task is already owned by another writer"),
    }
}

/// Only one writer migrates the control table.
pub fn check_migration(acquired: Option<u8>) -> (result: Result<(), CheckpointError>)
    ensures
        complaint_of(result) == if acquired == Some(1u8) {
            None
        } else {
            Some("CDC schema migration is busy"@)
        },
{
    match acquired {
        Some(1) => Ok(()),
        _ => refuse("CDC schema migration is busy"),
    }
}

/// The control table has transactions.
pub open spec fn control_engine(engine: Option<Seq<char>>) -> bool {
    engine == Some("InnoDB"@)
}

fn is_control_engine(engine: Option<&str>) -> (result: bool)
    ensures
        result == control_engine(view_of(engine)),
{
    match engine {
        Some(name) => same(name, "InnoDB"),
        None => false,
    }
}

/// What is wrong with the control table.
pub open spec fn control_fault(engine: Option<Seq<char>>, keys: Seq<Seq<char>>) -> Option<Seq<char>> {
    if !control_engine(engine) {
        Some("CDC.log_info must use InnoDB"@)
    } else if keys.len() != 1 || keys[0] != "task_id"@ {
        Some("CDC.log_info requires PRIMARY KEY(task_id)"@)
    } else {
        None
    }
}

pub fn check_control_table(engine: Option<&str>, keys: &Vec<String>) -> (result: Result<
    (),
    CheckpointError,
>)
    ensures
        complaint_of(result) == control_fault(view_of(engine), texts(keys@)),
{
    if !is_control_engine(engine) {
        return refuse("CDC.log_info must use InnoDB");
    }
    if keys.len() != 1 || !same(keys[0].as_str(), "task_id") {
        return refuse("CDC.log_info requires PRIMARY KEY(task_id)");
    }
    Ok(())
}

// ---------------------------------------------------------------------------
// The writer
// ---------------------------------------------------------------------------

/// The progress of a task, as its owner knows it.
#[derive(Debug)]
pub struct CheckpointWriter {
    task_id: String,
    source_uuid: String,
    sink_uuid: String,
    binding: String,
    checkpoint: Option<ReplicationCheckpoint>,
    observed_gtids: Option<String>,
    observed_position: Option<(String, u64)>,
}

/// What a writer knows.
pub struct Writer {
    pub task_id: Seq<char>,
    pub source_uuid: Seq<char>,
    pub sink_uuid: Seq<char>,
    pub binding: Seq<char>,
    pub checkpoint: Option<Progress>,
    pub observed_gtids: Option<Seq<char>>,
    pub observed_position: Option<(Seq<char>, u64)>,
}

/// The position that a filtered transaction is remembered with, and the
/// transactions that have to be brought into their canonical form.
#[derive(Debug)]
pub struct Observation {
    pub file: String,
    pub position: u64,
    pub combined: Option<String>,
}

/// The text without commas at its start and its end.
pub open spec fn trim_commas(text: Seq<char>) -> Seq<char>
    decreases text.len(),
{
    if text.len() > 0 && text[0] == ',' {
        trim_commas(text.drop_first())
    } else if text.len() > 0 && text.last() == ',' {
        trim_commas(text.drop_last())
    } else {
        text
    }
}

fn trim_comma_text(text: &str) -> (result: String)
    ensures
        result@ == trim_commas(text@),
{
    let chars = chars_of(text);
    let mut from: usize = 0;
    let mut to: usize = chars.len();
    assert(chars@.subrange(0, chars@.len() as int) =~= chars@);
    while from < to && (chars[from] == ',' || chars[to - 1] == ',')
        invariant
            from <= to <= chars@.len(),
            chars@ == text@,
            trim_commas(text@) == trim_commas(chars@.subrange(from as int, to as int)),
        decreases to - from,
    {
        let ghost part = chars@.subrange(from as int, to as int);
        assert(part[0] == chars@[from as int]);
        assert(part.last() == chars@[to - 1]);
        if chars[from] == ',' {
            assert(part.drop_first() =~= chars@.subrange(from + 1, to as int));
            from += 1;
        } else {
            assert(part.drop_last() =~= chars@.subrange(from as int, to - 1));
            to -= 1;
        }
    }
    let ghost part = chars@.subrange(from as int, to as int);
    proof {
        if from < to {
            assert(part[0] == chars@[from as int]);
            assert(part.last() == chars@[to - 1]);
        }
        assert(trim_commas(part) == part);
    }
    text_between(&chars, from, to)
}

/// A text, or none.
pub open spec fn or_empty(text: Option<Seq<char>>) -> Seq<char> {
    match text {
        Some(text) => text,
        None => ""@,
    }
}

/// The texts that are not empty.
pub open spec fn non_empty(list: Seq<Seq<char>>) -> Seq<Seq<char>>
    decreases list.len(),
{
    if list.len() == 0 {
        Seq::empty()
    } else if list.last().len() == 0 {
        non_empty(list.drop_last())
    } else {
        non_empty(list.drop_last()).push(list.last())
    }
}

/// Why a filtered transaction cannot be observed.
pub open spec fn observation_fault(writer: Writer, transaction: ChangeTransaction) -> Option<Seq<char>> {
    if transaction.changes@.len() > 0 || transaction.source.id@ != writer.source_uuid {
        Some("observe requires an empty projection from this source"@)
    } else {
        match named_position(transaction.commit_cursor) {
            Err(message) => Some(message),
            Ok((file, position)) => match writer.observed_position {
                None => None,
                Some((old_file, old_position)) => match history_order(
                    mode_of(writer.checkpoint),
                    file,
                    position,
                    old_file,
                    old_position as nat,
                ) {
                    Err(message) => Some(message),
                    Ok(order) => if order > 0 {
                        None
                    } else {
                        Some("filtered transactions must be observed in source order"@)
                    },
                },
            },
        }
    }
}

pub open spec fn mode_of(checkpoint: Option<Progress>) -> Option<Seq<char>> {
    match checkpoint {
        Some(checkpoint) => Some(checkpoint.mode),
        None => None,
    }
}

/// The transactions that have been observed, with one more.
pub open spec fn observed_set(writer: Writer, id: Seq<char>) -> Option<Seq<char>> {
    if mode_of(writer.checkpoint) == Some("gtid"@) {
        Some(trim_commas(or_empty(writer.observed_gtids) + ","@ + id))
    } else {
        None
    }
}

/// Why a route cannot start where it was told to.
pub open spec fn initial_fault(mode: Seq<char>, file: Seq<char>, position: u64, has_set: bool) -> Option<
    Seq<char>,
> {
    match checkpoint_position_fault(mode, file, position as nat) {
        Some(message) => Some(message),
        None => if mode_fits(mode, has_set) {
            None
        } else {
            Some("checkpoint mode and GTID set disagree"@)
        },
    }
}

/// Why a snapshot cannot be marked.
pub open spec fn marker_fault(writer: Writer, boundary: SnapshotBoundary) -> Option<Seq<char>> {
    if boundary.source.id@ != writer.source_uuid {
        Some("snapshot source identity mismatch"@)
    } else {
        match cursor_boundary(boundary.cursor) {
            Err(message) => Some(message),
            Ok(parts) => match position_fault(parts.1, parts.2 as nat) {
                Some(message) => Some(message),
                None => if parts.0 != "gtid"@ && parts.0 != "binlog"@ {
                    Some("invalid snapshot mode"@)
                } else if writer.checkpoint matches Some(saved) && saved.phase != "snapshot"@ {
                    Some("incremental checkpoint cannot be replaced by a snapshot"@)
                } else {
                    None
                },
            },
        }
    }
}

/// Why there is no snapshot to copy.
pub open spec fn unmarked_fault(writer: Writer) -> Option<Seq<char>> {
    match writer.checkpoint {
        None => Some("snapshot was not prepared"@),
        Some(expected) => if expected.phase != "snapshot"@ {
            Some("snapshot phase required"@)
        } else {
            None
        },
    }
}

/// Why a snapshot cannot be copied behind the checkpoint that is saved.
pub open spec fn changed_marker_fault(writer: Writer, saved: Option<Progress>) -> Option<Seq<char>> {
    match unmarked_fault(writer) {
        Some(message) => Some(message),
        None => if saved != writer.checkpoint {
            Some("snapshot checkpoint changed"@)
        } else {
            None
        },
    }
}

/// Why a lost acknowledgement cannot be resolved at all.
pub open spec fn resolution_fault(writer: Writer, transaction: ChangeTransaction) -> Option<Seq<char>> {
    if transaction.source.id@ != writer.source_uuid || transaction.id@.len() == 0 {
        Some("commit resolution source identity mismatch"@)
    } else {
        match named_position(transaction.commit_cursor) {
            Err(message) => Some(message),
            Ok(_) => None,
        }
    }
}

/// Whether the saved set tells which transactions were applied: the checkpoint
/// is one of a numbered history.
pub open spec fn numbered(saved: Option<Progress>) -> bool {
    saved matches Some(saved) && saved.mode == "gtid"@
}

/// How a transaction whose acknowledgement was lost is ordered after the saved
/// checkpoint, unless the checkpoint names it; or why nothing can be said of it
/// whatever the saved set holds.
pub open spec fn lost_standing(
    writer: Writer,
    saved: Option<Progress>,
    id: Seq<char>,
    file: Seq<char>,
    position: nat,
) -> Result<Option<int>, Seq<char>> {
    match saved {
        None => Err("CDC.log_info checkpoint is missing"@),
        Some(saved) => match binding_fault(
            saved,
            writer.source_uuid,
            writer.sink_uuid,
            writer.binding,
        ) {
            Some(message) => Err(message),
            None => if saved.last_transaction_id == Some(id) {
                Ok(None)
            } else {
                match history_order(
                    Some(saved.mode),
                    file,
                    position,
                    saved.file,
                    saved.position as nat,
                ) {
                    Err(message) => Err(message),
                    Ok(order) => Ok(Some(order)),
                }
            },
        },
    }
}

/// What became of a transaction whose acknowledgement was lost: the checkpoint
/// names it, or lies behind or before it. An equal position without the exact
/// transaction proves nothing.
pub open spec fn resolution(
    writer: Writer,
    saved: Option<Progress>,
    id: Seq<char>,
    file: Seq<char>,
    position: nat,
    included: bool,
) -> Result<CommitResolution, Seq<char>> {
    match lost_standing(writer, saved, id, file, position) {
        Err(message) => Err(message),
        Ok(None) => Ok(CommitResolution::Applied),
        Ok(Some(order)) => if numbered(saved) && included || order < 0 {
            Ok(CommitResolution::Applied)
        } else if order > 0 {
            Ok(CommitResolution::NotApplied)
        } else {
            Ok(CommitResolution::Unprovable)
        },
    }
}

/// What a resolution has given.
pub open spec fn resolved_of(result: Result<CommitResolution, CheckpointError>) -> Result<
    CommitResolution,
    Seq<char>,
> {
    match result {
        Ok(resolution) => Ok(resolution),
        Err(error) => Err(error.text()),
    }
}

/// Why a transaction cannot be applied at all.
pub open spec fn apply_fault(
    writer: Writer,
    source_uuid: Seq<char>,
    id: Seq<char>,
    cursor: SourceCursor,
) -> Option<Seq<char>> {
    if source_uuid != writer.source_uuid || id.len() > 512 || id.len() == 0 || !ascii(id) {
        Some("transaction source identity mismatch"@)
    } else if writer.checkpoint matches Some(saved) && saved.phase != "incremental"@ {
        Some("snapshot is not committed yet"@)
    } else {
        match named_position(cursor) {
            Err(message) => Some(message),
            Ok(_) => if writer.checkpoint is None {
                Some("initialize checkpoint before apply"@)
            } else {
                None
            },
        }
    }
}

/// One transaction, by its number.
pub open spec fn single_gtid_fault(id: Seq<char>) -> Option<Seq<char>> {
    match rsplit_once(id, ':') {
        None => Some("missing transaction GTID"@),
        Some((_, number)) => match parse_unsigned(number, u64::MAX as nat) {
            Some(number) => if number > 0 && !id.contains(',') {
                None
            } else {
                Some("invalid single transaction GTID"@)
            },
            None => Some("invalid single transaction GTID"@),
        },
    }
}

/// Checks that a transaction is one, by its number.
pub fn check_single_gtid(id: &str) -> (result: Result<(), CheckpointError>)
    ensures
        complaint_of(result) == single_gtid_fault(id@),
{
    let number = match split_at_last(id, ':') {
        None => return refuse("missing transaction GTID"),
        Some((_, number)) => number,
    };
    match parse_u64(number.as_str()) {
        Some(number) => if number > 0 && !contains_char(id, ',') {
            Ok(())
        } else {
            refuse("invalid single transaction GTID")
        },
        None => refuse("invalid single transaction GTID"),
    }
}

/// How a transaction is ordered after the saved checkpoint, or why it cannot be
/// applied whatever the saved set holds.
pub open spec fn standing(
    writer: Writer,
    saved: Option<Progress>,
    engine: Option<Seq<char>>,
    file: Seq<char>,
    position: nat,
) -> Result<int, Seq<char>> {
    match saved {
        None => Err("CDC.log_info checkpoint is missing; refusing a new baseline"@),
        Some(saved) => if !control_engine(engine) {
            Err("CDC.log_info is no longer InnoDB"@)
        } else {
            match binding_fault(saved, writer.source_uuid, writer.sink_uuid, writer.binding) {
                Some(message) => Err(message),
                None => if writer.checkpoint != Some(saved) {
                    Err("checkpoint changed outside this writer"@)
                } else {
                    history_order(
                        Some(saved.mode),
                        file,
                        position,
                        saved.file,
                        saved.position as nat,
                    )
                },
            }
        },
    }
}

/// Whether a transaction has been applied before, as the saved checkpoint shows
/// it, or why it cannot be applied.
pub open spec fn decision(
    writer: Writer,
    saved: Option<Progress>,
    engine: Option<Seq<char>>,
    id: Seq<char>,
    file: Seq<char>,
    position: nat,
    included: bool,
) -> Result<bool, Seq<char>> {
    match standing(writer, saved, engine, file, position) {
        Err(message) => Err(message),
        Ok(order) => match already_applied(saved->0, id, order, included) {
            Err(message) => Err(message),
            Ok(true) => Ok(true),
            Ok(false) => match ahead_fault(writer, saved->0, file, position) {
                Some(message) => Err(message),
                None => Ok(false),
            },
        },
    }
}

/// Whether a transaction has been applied before. A numbered history goes by
/// its set, which must not contradict the position.
pub open spec fn already_applied(saved: Progress, id: Seq<char>, order: int, included: bool) -> Result<
    bool,
    Seq<char>,
> {
    if saved.mode == "gtid"@ {
        match single_gtid_fault(id) {
            Some(message) => Err(message),
            None => if !included && order <= 0 {
                Err("GTID and binlog history disagree"@)
            } else {
                Ok(included)
            },
        }
    } else {
        Ok(order <= 0)
    }
}

/// Observations must not become durable before their position.
pub open spec fn ahead_fault(writer: Writer, saved: Progress, file: Seq<char>, position: nat) -> Option<
    Seq<char>,
> {
    match writer.observed_position {
        None => None,
        Some((old_file, old_position)) => match history_order(
            Some(saved.mode),
            file,
            position,
            old_file,
            old_position as nat,
        ) {
            Err(message) => Some(message),
            Ok(order) => if order < 0 {
                Some("cannot commit ahead-of-cursor GTID observations"@)
            } else {
                None
            },
        },
    }
}

/// What a decision has given.
pub open spec fn decided_of(result: Result<bool, CheckpointError>) -> Result<bool, Seq<char>> {
    match result {
        Ok(applied) => Ok(applied),
        Err(error) => Err(error.text()),
    }
}

/// Where the saved set is not asked, it does not count: what it holds changes
/// neither a decision nor a resolution.
pub proof fn law_the_saved_set_counts_only_where_it_is_asked(
    writer: Writer,
    saved: Option<Progress>,
    engine: Option<Seq<char>>,
    id: Seq<char>,
    file: Seq<char>,
    position: nat,
)
    ensures
        standing(writer, saved, engine, file, position) is Err || !numbered(saved) ==> decision(
            writer,
            saved,
            engine,
            id,
            file,
            position,
            true,
        ) == decision(writer, saved, engine, id, file, position, false),
        lost_standing(writer, saved, id, file, position) matches Ok(Some(_)) && numbered(saved)
            || resolution(writer, saved, id, file, position, true) == resolution(
            writer,
            saved,
            id,
            file,
            position,
            false,
        ),
{
}

/// The transactions that are known once another one is applied.
pub open spec fn applied_set(writer: Writer, saved: Progress, id: Seq<char>) -> Option<Seq<char>> {
    if saved.mode == "gtid"@ {
        Some(
            trim_commas(
                join(
                    non_empty(
                        seq![or_empty(saved.gtid_set), or_empty(writer.observed_gtids), id],
                    ),
                    ","@,
                ),
            ),
        )
    } else {
        None
    }
}

/// The checkpoint behind an applied transaction.
pub open spec fn advanced(
    saved: Progress,
    file: Seq<char>,
    position: u64,
    id: Seq<char>,
    rows: usize,
    gtid_set: Option<Seq<char>>,
) -> Progress {
    Progress {
        file,
        position,
        gtid_set: if saved.mode == "gtid"@ {
            gtid_set
        } else {
            saved.gtid_set
        },
        last_transaction_id: Some(id),
        revision: (saved.revision + 1) as u64,
        applied_transactions: if rows > 0 {
            (saved.applied_transactions + 1) as u64
        } else {
            saved.applied_transactions
        },
        applied_rows: (saved.applied_rows + rows) as u64,
        ..saved
    }
}

fn borrowed(text: &Option<String>) -> (result: &str)
    ensures
        result@ == or_empty(text_of(*text)),
{
    match text {
        Some(text) => text.as_str(),
        None => "",
    }
}

fn mode_text(checkpoint: &Option<ReplicationCheckpoint>) -> (result: Option<&str>)
    ensures
        view_of(result) == mode_of(progress_of(*checkpoint)),
{
    match checkpoint {
        Some(checkpoint) => Some(checkpoint.mode.as_str()),
        None => None,
    }
}

/// What an order says, as a number.
fn order_number(order: Ordering) -> (result: i32)
    ensures
        result == order_sign(order),
{
    match order {
        Ordering::Less => -1,
        Ordering::Equal => 0,
        Ordering::Greater => 1,
    }
}

fn is_numbered(saved: &Option<ReplicationCheckpoint>) -> (result: bool)
    ensures
        result == numbered(progress_of(*saved)),
{
    match saved {
        Some(saved) => same(saved.mode.as_str(), "gtid"),
        None => false,
    }
}

/// The order of two positions in the history of a source, as a number.
fn history(mode: Option<&str>, a: &str, ap: u64, b: &str, bp: u64) -> (result: Result<
    i32,
    CheckpointError,
>)
    ensures
        match result {
            Ok(order) => history_order(view_of(mode), a@, natural(ap), b@, natural(bp)) matches Ok(
                expected,
            ) && order == expected,
            Err(error) => history_order(view_of(mode), a@, natural(ap), b@, natural(bp)) == Err::<
                int,
                _,
            >(error.text()),
        },
{
    match compare_checkpoint_position(mode, a, ap, b, bp) {
        Ok(order) => Ok(order_number(order)),
        Err(error) => Err(error),
    }
}

fn join_non_empty(a: &str, b: &str, c: &str) -> (result: String)
    ensures
        result@ == join(non_empty(seq![a@, b@, c@]), ","@),
{
    let mut pieces: Vec<String> = Vec::new();
    assert(texts(pieces@) =~= Seq::empty());
    let ghost all = seq![a@, b@, c@];
    assert(all.drop_last() =~= seq![a@, b@]);
    assert(all.drop_last().drop_last() =~= seq![a@]);
    assert(all.drop_last().drop_last().drop_last() =~= Seq::empty());
    reveal_with_fuel(non_empty, 4);
    if !a.is_empty() {
        let ghost before = texts(pieces@);
        pieces.push(a.to_owned());
        assert(texts(pieces@) =~= before.push(a@));
    }
    assert(texts(pieces@) == non_empty(seq![a@]));
    if !b.is_empty() {
        let ghost before = texts(pieces@);
        pieces.push(b.to_owned());
        assert(texts(pieces@) =~= before.push(b@));
    }
    assert(texts(pieces@) == non_empty(seq![a@, b@]));
    if !c.is_empty() {
        let ghost before = texts(pieces@);
        pieces.push(c.to_owned());
        assert(texts(pieces@) =~= before.push(c@));
    }
    join_texts(&pieces, ",")
}

impl CheckpointWriter {
    /// What the writer knows.
    pub closed spec fn writer(&self) -> Writer {
        Writer {
            task_id: self.task_id@,
            source_uuid: self.source_uuid@,
            sink_uuid: self.sink_uuid@,
            binding: self.binding@,
            checkpoint: progress_of(self.checkpoint),
            observed_gtids: text_of(self.observed_gtids),
            observed_position: match self.observed_position {
                Some((file, position)) => Some((file@, position)),
                None => None,
            },
        }
    }

    /// Opens a task with the checkpoint that was saved for it.
    pub fn open(
        task_id: &str,
        source_uuid: &str,
        sink_uuid: &str,
        binding: &str,
        checkpoint: Option<ReplicationCheckpoint>,
    ) -> (result: Result<Self, CheckpointError>)
        ensures
            complaint_of(result) == match progress_of(checkpoint) {
                Some(saved) => binding_fault(saved, source_uuid@, sink_uuid@, binding@),
                None => None,
            },
            result matches Ok(opened) ==> opened.writer() == (Writer {
                task_id: task_id@,
                source_uuid: source_uuid@,
                sink_uuid: sink_uuid@,
                binding: binding@,
                checkpoint: progress_of(checkpoint),
                observed_gtids: None,
                observed_position: None,
            }),
    {
        if let Some(saved) = &checkpoint {
            match check_binding(saved, source_uuid, sink_uuid, binding) {
                Ok(_) => {},
                Err(error) => return Err(error),
            }
        }
        Ok(
            Self {
                task_id: task_id.to_owned(),
                source_uuid: source_uuid.to_owned(),
                sink_uuid: sink_uuid.to_owned(),
                binding: binding.to_owned(),
                checkpoint,
                observed_gtids: None,
                observed_position: None,
            },
        )
    }

    /// The checkpoint, as it was last committed.
    pub fn checkpoint(&self) -> (result: Option<&ReplicationCheckpoint>)
        ensures
            (match result {
                Some(saved) => Some(saved@),
                None => None,
            }) == self.writer().checkpoint,
    {
        self.checkpoint.as_ref()
    }

    pub fn task_id(&self) -> (result: &str)
        ensures
            result@ == self.writer().task_id,
    {
        self.task_id.as_str()
    }

    pub fn source_uuid(&self) -> (result: &str)
        ensures
            result@ == self.writer().source_uuid,
    {
        self.source_uuid.as_str()
    }

    pub fn sink_uuid(&self) -> (result: &str)
        ensures
            result@ == self.writer().sink_uuid,
    {
        self.sink_uuid.as_str()
    }

    pub fn binding(&self) -> (result: &str)
        ensures
            result@ == self.writer().binding,
    {
        self.binding.as_str()
    }

    /// The position of a transaction whose acknowledgement was lost.
    pub fn lost_position(&self, transaction: &ChangeTransaction) -> (result: Result<
        (String, u64),
        CheckpointError,
    >)
        ensures
            complaint_of(result) == resolution_fault(self.writer(), *transaction),
            result matches Ok((file, position)) ==> named_position(transaction.commit_cursor)
                == Ok::<_, Seq<char>>((file@, position as nat)),
    {
        if !same(transaction.source.id.as_str(), self.source_uuid.as_str())
            || transaction.id.as_str().is_empty() {
            return refuse("commit resolution source identity mismatch");
        }
        file_position(&transaction.commit_cursor)
    }

    fn lost_order(
        &self,
        saved: &Option<ReplicationCheckpoint>,
        id: &str,
        file: &str,
        position: u64,
    ) -> (result: Result<Option<i32>, CheckpointError>)
        ensures
            match result {
                Ok(found) => saved is Some && (lost_standing(
                    self.writer(),
                    progress_of(*saved),
                    id@,
                    file@,
                    natural(position),
                ) matches Ok(expected) && match found {
                    Some(order) => expected matches Some(expected) && order == expected,
                    None => expected is None,
                }),
                Err(error) => lost_standing(
                    self.writer(),
                    progress_of(*saved),
                    id@,
                    file@,
                    natural(position),
                ) == Err::<Option<int>, _>(error.text()),
            },
    {
        let saved = match saved {
            Some(saved) => saved,
            None => return refuse("CDC.log_info checkpoint is missing"),
        };
        match check_binding(
            saved,
            self.source_uuid.as_str(),
            self.sink_uuid.as_str(),
            self.binding.as_str(),
        ) {
            Ok(_) => {},
            Err(error) => return Err(error),
        }
        if let Some(last) = &saved.last_transaction_id {
            if same(last.as_str(), id) {
                return Ok(None);
            }
        }
        match history(
            Some(saved.mode.as_str()),
            file,
            position,
            saved.file.as_str(),
            saved.position,
        ) {
            Ok(order) => Ok(Some(order)),
            Err(error) => Err(error),
        }
    }

    /// Whether the saved set has to be asked before a lost acknowledgement is
    /// resolved. What stands in the way of any resolution is reported first.
    pub fn lost_asks_saved_set(
        &self,
        saved: &Option<ReplicationCheckpoint>,
        id: &str,
        file: &str,
        position: u64,
    ) -> (result: Result<bool, CheckpointError>)
        ensures
            decided_of(result) == match lost_standing(
                self.writer(),
                progress_of(*saved),
                id@,
                file@,
                natural(position),
            ) {
                Ok(order) => Ok(order is Some && numbered(progress_of(*saved))),
                Err(message) => Err(message),
            },
    {
        match self.lost_order(saved, id, file, position) {
            Err(error) => Err(error),
            Ok(None) => Ok(false),
            Ok(Some(_)) => Ok(is_numbered(saved)),
        }
    }

    /// Resolve a lost COMMIT acknowledgement from the saved checkpoint alone.
    /// `included` says whether the saved set holds the transaction; it counts
    /// for a numbered history only.
    pub fn resolve_commit_unknown(
        &self,
        saved: &Option<ReplicationCheckpoint>,
        id: &str,
        file: &str,
        position: u64,
        included: bool,
    ) -> (result: Result<CommitResolution, CheckpointError>)
        ensures
            resolved_of(result) == resolution(
                self.writer(),
                progress_of(*saved),
                id@,
                file@,
                natural(position),
                included,
            ),
    {
        let order: i32 = match self.lost_order(saved, id, file, position) {
            Err(error) => return Err(error),
            Ok(None) => return Ok(CommitResolution::Applied),
            Ok(Some(order)) => order,
        };
        if is_numbered(saved) && included || order < 0 {
            Ok(CommitResolution::Applied)
        } else if order > 0 {
            Ok(CommitResolution::NotApplied)
        } else {
            Ok(CommitResolution::Unprovable)
        }
    }

    /// What has to be remembered of a filtered transaction.
    pub fn observe(&self, transaction: &ChangeTransaction) -> (result: Result<
        Observation,
        CheckpointError,
    >)
        ensures
            complaint_of(result) == observation_fault(self.writer(), *transaction),
            result matches Ok(observation) ==> {
                &&& named_position(transaction.commit_cursor) == Ok::<_, Seq<char>>(
                    (observation.file@, observation.position as nat),
                )
                &&& text_of(observation.combined) == observed_set(self.writer(), transaction.id@)
            },
    {
        if transaction.changes.len() > 0 || !same(
            transaction.source.id.as_str(),
            self.source_uuid.as_str(),
        ) {
            return refuse("observe requires an empty projection from this source");
        }
        let (file, position) = match file_position(&transaction.commit_cursor) {
            Ok(found) => found,
            Err(error) => return Err(error),
        };
        if let Some((old_file, old_position)) = &self.observed_position {
            match history(
                mode_text(&self.checkpoint),
                file.as_str(),
                position,
                old_file.as_str(),
                *old_position,
            ) {
                Ok(order) => if order <= 0 {
                    return refuse("filtered transactions must be observed in source order");
                },
                Err(error) => return Err(error),
            }
        }
        let numbered = match mode_text(&self.checkpoint) {
            Some(mode) => same(mode, "gtid"),
            None => false,
        };
        let combined = if numbered {
            let joined = concat3(borrowed(&self.observed_gtids), ",", transaction.id.as_str());
            Some(trim_comma_text(joined.as_str()))
        } else {
            None
        };
        Ok(Observation { file, position, combined })
    }

    /// Remembers a filtered transaction. It becomes durable together with the
    /// next apply, never ahead of it. `canonical` is the canonical form of the
    /// combined set, where there is one.
    pub fn remember(&mut self, observation: Observation, canonical: Option<String>)
        ensures
            final(self).writer() == (Writer {
                observed_gtids: if observation.combined is Some {
                    text_of(canonical)
                } else {
                    old(self).writer().observed_gtids
                },
                observed_position: Some((observation.file@, observation.position)),
                ..old(self).writer()
            }),
    {
        if observation.combined.is_some() {
            self.observed_gtids = canonical;
        }
        self.observed_position = Some((observation.file, observation.position));
    }

    /// Where a route starts: at the checkpoint that it has, or else at the
    /// boundary that is given, which then has to be saved before any
    /// transaction is consumed.
    pub fn initialize(&self, mode: &str, file: &str, position: u64, gtid_set: Option<&str>) -> (result: Result<
        Option<ReplicationCheckpoint>,
        CheckpointError,
    >)
        ensures
            complaint_of(result) == if self.writer().checkpoint is Some {
                None
            } else {
                initial_fault(mode@, file@, position, gtid_set is Some)
            },
            result matches Ok(existing) ==> progress_of(existing) == self.writer().checkpoint,
    {
        if let Some(saved) = &self.checkpoint {
            return Ok(Some(saved.clone()));
        }
        match validate_checkpoint_position(mode, file, position) {
            Ok(_) => {},
            Err(error) => return Err(error),
        }
        if !does_mode_fit(mode, gtid_set.is_some()) {
            return refuse("checkpoint mode and GTID set disagree");
        }
        Ok(None)
    }

    /// The boundary that a snapshot is marked with.
    pub fn prepare_snapshot(&self, boundary: &SnapshotBoundary) -> (result: Result<
        Boundary,
        CheckpointError,
    >)
        ensures
            complaint_of(result) == marker_fault(self.writer(), *boundary),
            result matches Ok(parts) ==> cursor_boundary(boundary.cursor) == Ok::<_, Seq<char>>(
                parts.parts(),
            ),
    {
        if !same(boundary.source.id.as_str(), self.source_uuid.as_str()) {
            return refuse("snapshot source identity mismatch");
        }
        let parts = match decode_snapshot_boundary(&boundary.cursor) {
            Ok(parts) => parts,
            Err(message) => return refuse(message.as_str()),
        };
        match validate_position(parts.file.as_str(), parts.position) {
            Ok(_) => {},
            Err(error) => return Err(error),
        }
        if !same(parts.mode.as_str(), "gtid") && !same(parts.mode.as_str(), "binlog") {
            return refuse("invalid snapshot mode");
        }
        if let Some(saved) = &self.checkpoint {
            if !same(saved.phase.as_str(), "snapshot") {
                return refuse("incremental checkpoint cannot be replaced by a snapshot");
            }
        }
        Ok(parts)
    }

    /// The set that a marked snapshot continues from: only a numbered history
    /// has one.
    pub fn marked_set(mode: &str, executed: &str) -> (result: Option<String>)
        ensures
            text_of(result) == if mode@ == "gtid"@ {
                Some(executed@)
            } else {
                None
            },
    {
        if same(mode, "gtid") {
            Some(executed.to_owned())
        } else {
            None
        }
    }

    /// The saved checkpoint has to be the one that the writer knows.
    pub fn check_unchanged(&self, saved: &Option<ReplicationCheckpoint>) -> (result: Result<
        (),
        CheckpointError,
    >)
        ensures
            complaint_of(result) == if progress_of(*saved) == self.writer().checkpoint {
                None
            } else {
                Some("snapshot checkpoint changed outside its owner"@)
            },
    {
        if !same_optional(saved, &self.checkpoint) {
            return refuse("snapshot checkpoint changed outside its owner");
        }
        Ok(())
    }

    /// Checks that a snapshot has been marked.
    pub fn check_marked(&self) -> (result: Result<(), CheckpointError>)
        ensures
            complaint_of(result) == unmarked_fault(self.writer()),
    {
        match &self.checkpoint {
            None => refuse("snapshot was not prepared"),
            Some(expected) => if same(expected.phase.as_str(), "snapshot") {
                Ok(())
            } else {
                refuse("snapshot phase required")
            },
        }
    }

    /// Checks that the marker of a snapshot is saved as it was.
    pub fn check_marker(&self, saved: &Option<ReplicationCheckpoint>) -> (result: Result<
        (),
        CheckpointError,
    >)
        ensures
            complaint_of(result) == changed_marker_fault(self.writer(), progress_of(*saved)),
    {
        match self.check_marked() {
            Ok(_) => {},
            Err(error) => return Err(error),
        }
        if same_optional(saved, &self.checkpoint) {
            Ok(())
        } else {
            refuse("snapshot checkpoint changed")
        }
    }

    /// Begins to copy a snapshot that has been marked.
    pub fn copy_snapshot(&self, saved: &Option<ReplicationCheckpoint>, engine: Option<&str>) -> (result: Result<
        SnapshotCopy,
        CheckpointError,
    >)
        ensures
            complaint_of(result) == match changed_marker_fault(
                self.writer(),
                progress_of(*saved),
            ) {
                Some(message) => Some(message),
                None => if !control_engine(view_of(engine)) {
                    Some("CDC.log_info must use InnoDB"@)
                } else {
                    None
                },
            },
            result matches Ok(copy) ==> copy.table_index == 0 && copy.row_count == 0,
    {
        match self.check_marker(saved) {
            Ok(_) => {},
            Err(error) => return Err(error),
        }
        if !is_control_engine(engine) {
            return refuse("CDC.log_info must use InnoDB");
        }
        Ok(SnapshotCopy { table_index: 0, row_count: 0 })
    }

    /// The position of a transaction that is to be applied.
    pub fn begin_apply(&self, source_uuid: &str, id: &str, cursor: &SourceCursor) -> (result: Result<
        (String, u64),
        CheckpointError,
    >)
        ensures
            complaint_of(result) == apply_fault(self.writer(), source_uuid@, id@, *cursor),
            result matches Ok((file, position)) ==> named_position(*cursor) == Ok::<_, Seq<char>>(
                (file@, position as nat),
            ),
    {
        let chars = chars_of(id);
        if !same(source_uuid, self.source_uuid.as_str()) || chars.len() > 512 || chars.len() == 0
            || !is_ascii(&chars) {
            return refuse("transaction source identity mismatch");
        }
        if let Some(saved) = &self.checkpoint {
            if !same(saved.phase.as_str(), "incremental") {
                return refuse("snapshot is not committed yet");
            }
        }
        match file_position(cursor) {
            Err(error) => Err(error),
            Ok(found) => {
                if self.checkpoint.is_none() {
                    return refuse("initialize checkpoint before apply");
                }
                Ok(found)
            },
        }
    }

    /// The position of a transaction without changes in the scope of the route.
    pub fn advance(&self, transaction: &ChangeTransaction) -> (result: Result<
        (String, u64),
        CheckpointError,
    >)
        ensures
            complaint_of(result) == if transaction.changes@.len() > 0 {
                Some("advance requires an empty route projection"@)
            } else {
                apply_fault(
                    self.writer(),
                    transaction.source.id@,
                    transaction.id@,
                    transaction.commit_cursor,
                )
            },
            result matches Ok((file, position)) ==> named_position(transaction.commit_cursor)
                == Ok::<_, Seq<char>>((file@, position as nat)),
    {
        if transaction.changes.len() > 0 {
            return refuse("advance requires an empty route projection");
        }
        self.begin_apply(
            transaction.source.id.as_str(),
            transaction.id.as_str(),
            &transaction.commit_cursor,
        )
    }

    fn stand(
        &self,
        saved: &Option<ReplicationCheckpoint>,
        engine: Option<&str>,
        file: &str,
        position: u64,
    ) -> (result: Result<i32, CheckpointError>)
        ensures
            match result {
                Ok(order) => saved is Some && (standing(
                    self.writer(),
                    progress_of(*saved),
                    view_of(engine),
                    file@,
                    natural(position),
                ) matches Ok(expected) && order == expected),
                Err(error) => standing(
                    self.writer(),
                    progress_of(*saved),
                    view_of(engine),
                    file@,
                    natural(position),
                ) == Err::<int, _>(error.text()),
            },
    {
        let current = match saved {
            Some(current) => current,
            None => return refuse(
                "CDC.log_info checkpoint is missing; refusing a new baseline",
            ),
        };
        if !is_control_engine(engine) {
            return refuse("CDC.log_info is no longer InnoDB");
        }
        match check_binding(
            current,
            self.source_uuid.as_str(),
            self.sink_uuid.as_str(),
            self.binding.as_str(),
        ) {
            Ok(_) => {},
            Err(error) => return Err(error),
        }
        if !same_optional(saved, &self.checkpoint) {
            return refuse("checkpoint changed outside this writer");
        }
        history(
            Some(current.mode.as_str()),
            file,
            position,
            current.file.as_str(),
            current.position,
        )
    }

    /// Whether the saved set has to be asked before a decision. What stands in
    /// the way of any decision is reported first.
    pub fn asks_saved_set(
        &self,
        saved: &Option<ReplicationCheckpoint>,
        engine: Option<&str>,
        file: &str,
        position: u64,
    ) -> (result: Result<bool, CheckpointError>)
        ensures
            decided_of(result) == match standing(
                self.writer(),
                progress_of(*saved),
                view_of(engine),
                file@,
                natural(position),
            ) {
                Ok(_) => Ok(numbered(progress_of(*saved))),
                Err(message) => Err(message),
            },
    {
        match self.stand(saved, engine, file, position) {
            Err(error) => Err(error),
            Ok(_) => Ok(is_numbered(saved)),
        }
    }

    /// Whether a transaction has been applied before.
    pub fn decide(
        &self,
        saved: &Option<ReplicationCheckpoint>,
        engine: Option<&str>,
        id: &str,
        file: &str,
        position: u64,
        included: bool,
    ) -> (result: Result<bool, CheckpointError>)
        ensures
            decided_of(result) == decision(
                self.writer(),
                progress_of(*saved),
                view_of(engine),
                id@,
                file@,
                natural(position),
                included,
            ),
    {
        let order: i32 = match self.stand(saved, engine, file, position) {
            Ok(order) => order,
            Err(error) => return Err(error),
        };
        let current = match saved {
            Some(current) => current,
            None => return refuse(
                "CDC.log_info checkpoint is missing; refusing a new baseline",
            ),
        };
        let mode = current.mode.as_str();
        let applied = if same(mode, "gtid") {
            match check_single_gtid(id) {
                Ok(_) => {},
                Err(error) => return Err(error),
            }
            if !included && order <= 0 {
                return refuse("GTID and binlog history disagree");
            }
            included
        } else {
            order <= 0
        };
        if applied {
            return Ok(true);
        }
        if let Some((old_file, old_position)) = &self.observed_position {
            match history(Some(mode), file, position, old_file.as_str(), *old_position) {
                Ok(order) => if order < 0 {
                    return refuse("cannot commit ahead-of-cursor GTID observations");
                },
                Err(error) => return Err(error),
            }
        }
        Ok(false)
    }

    /// The transactions that have to be brought into their canonical form when
    /// another one is applied.
    pub fn combine(&self, saved: &ReplicationCheckpoint, id: &str) -> (result: Option<String>)
        ensures
            text_of(result) == applied_set(self.writer(), saved@, id@),
    {
        if !same(saved.mode.as_str(), "gtid") {
            return None;
        }
        let joined = join_non_empty(borrowed(&saved.gtid_set), borrowed(&self.observed_gtids), id);
        Some(trim_comma_text(joined.as_str()))
    }

    /// The checkpoint behind an applied transaction.
    pub fn apply(
        saved: &ReplicationCheckpoint,
        file: &str,
        position: u64,
        id: &str,
        rows: usize,
        gtid_set: Option<String>,
    ) -> (result: Result<ReplicationCheckpoint, CheckpointError>)
        requires
            saved.revision < u64::MAX && rows > 0 ==> saved.applied_transactions < u64::MAX,
            saved.revision < u64::MAX ==> saved.applied_rows + rows <= u64::MAX,
        ensures
            complaint_of(result) == if saved.revision == u64::MAX {
                Some("checkpoint revision overflow"@)
            } else {
                None
            },
            result matches Ok(next) ==> next@ == advanced(
                saved@,
                file@,
                position,
                id@,
                rows,
                text_of(gtid_set),
            ),
            result matches Ok(next) ==> saved.mode@ == "gtid"@ ==> text_of(next.gtid_set)
                == text_of(gtid_set),
    {
        if saved.revision == 18_446_744_073_709_551_615 {
            return refuse("checkpoint revision overflow");
        }
        let mut next = saved.clone();
        if same(saved.mode.as_str(), "gtid") {
            next.gtid_set = gtid_set;
        }
        next.file = file.to_owned();
        next.position = position;
        next.last_transaction_id = Some(id.to_owned());
        next.revision = next.revision + 1;
        if rows > 0 {
            next.applied_transactions = next.applied_transactions + 1;
        }
        next.applied_rows = next.applied_rows + rows as u64;
        Ok(next)
    }

    /// A transaction has been committed with its checkpoint. What was observed
    /// before is durable now.
    pub fn committed(&mut self, checkpoint: ReplicationCheckpoint)
        ensures
            final(self).writer() == (Writer {
                checkpoint: Some(checkpoint@),
                observed_gtids: None,
                observed_position: None,
                ..old(self).writer()
            }),
    {
        self.checkpoint = Some(checkpoint);
        self.observed_gtids = None;
        self.observed_position = None;
    }

    /// A checkpoint has been committed alone.
    pub fn saved(&mut self, checkpoint: ReplicationCheckpoint)
        ensures
            final(self).writer() == (Writer {
                checkpoint: Some(checkpoint@),
                ..old(self).writer()
            }),
    {
        self.checkpoint = Some(checkpoint);
    }
}

/// What applying a transaction has come to.
#[derive(Debug)]
pub struct CheckpointApplyResult {
    pub checkpoint: ReplicationCheckpoint,
    pub statements_executed: usize,
    pub already_applied: bool,
}

// ---------------------------------------------------------------------------
// Copying a snapshot
// ---------------------------------------------------------------------------

/// How far the copy of a snapshot has come.
#[derive(Debug)]
pub struct SnapshotCopy {
    pub table_index: usize,
    pub row_count: u64,
}

/// Why a batch cannot be copied.
pub open spec fn copy_fault(
    copy: SnapshotCopy,
    tables: Seq<SnapshotTable>,
    source_uuid: Seq<char>,
    batch: SnapshotBatch,
) -> Option<Seq<char>> {
    if copy.table_index >= tables.len() {
        Some("unexpected extra snapshot table"@)
    } else if batch.source.id@ != source_uuid || batch.schema@
        != tables[copy.table_index as int].schema@ || batch.table@
        != tables[copy.table_index as int].table@ {
        Some("snapshot batch identity/order mismatch"@)
    } else {
        batch_fault(batch)
    }
}

impl SnapshotCopy {
    /// Takes a batch that is next in order.
    pub fn accept(&self, tables: &Vec<SnapshotTable>, source_uuid: &str, batch: SnapshotBatch) -> (result: Result<
        ValidatedSnapshotBatch,
        CheckpointError,
    >)
        ensures
            complaint_of(result) == copy_fault(*self, tables@, source_uuid@, batch),
            result matches Ok(validated) ==> validated.inner() == batch,
    {
        if self.table_index >= tables.len() {
            return refuse("unexpected extra snapshot table");
        }
        let scope = &tables[self.table_index];
        if !same(batch.source.id.as_str(), source_uuid) || !same(
            batch.schema.as_str(),
            scope.schema.as_str(),
        ) || !same(batch.table.as_str(), scope.table.as_str()) {
            return refuse("snapshot batch identity/order mismatch");
        }
        match validate_snapshot(batch) {
            Ok(validated) => Ok(validated),
            Err(error) => refuse(error.message()),
        }
    }

    /// A batch has been written.
    pub fn wrote(&mut self, batch: &SnapshotBatch) -> (result: Result<(), CheckpointError>)
        requires
            batch.last_in_table ==> old(self).table_index < usize::MAX,
        ensures
            complaint_of(result) == if old(self).row_count + batch.rows@.len() > u64::MAX {
                Some("snapshot row count overflow"@)
            } else {
                None
            },
            result is Err ==> *final(self) == *old(self),
            result is Ok ==> {
                &&& final(self).row_count == old(self).row_count + batch.rows@.len()
                &&& final(self).table_index == old(self).table_index + if batch.last_in_table {
                    1int
                } else {
                    0int
                }
            },
    {
        let added: u64 = batch.rows.len() as u64;
        if added > 18_446_744_073_709_551_615 - self.row_count {
            return refuse("snapshot row count overflow");
        }
        self.row_count = self.row_count + added;
        if batch.last_in_table {
            self.table_index = self.table_index + 1;
        }
        Ok(())
    }

    /// Every table has to be complete before the copy commits.
    pub fn finish(&self, tables: &Vec<SnapshotTable>) -> (result: Result<u64, CheckpointError>)
        ensures
            complaint_of(result) == if self.table_index != tables@.len() {
                Some("snapshot stream ended before all tables completed"@)
            } else {
                None
            },
            result matches Ok(rows) ==> rows == self.row_count,
    {
        if self.table_index != tables.len() {
            return refuse("snapshot stream ended before all tables completed");
        }
        Ok(self.row_count)
    }
}

// ---------------------------------------------------------------------------
// Laws
// ---------------------------------------------------------------------------

/// A transaction stands in a set that is written with commas, from this place
/// on.
pub open spec fn listed_at(set: Seq<char>, id: Seq<char>, from: int) -> bool {
    let to = from + id.len();
    &&& 0 <= from <= to <= set.len()
    &&& set.subrange(from, to) == id
    &&& from == 0 || set[from - 1] == ','
    &&& to == set.len() || set[to] == ','
}

/// A transaction stands in a set that is written with commas.
pub open spec fn listed(set: Seq<char>, id: Seq<char>) -> bool {
    exists|from: int| listed_at(set, id, from)
}

/// The target knows its sets: the canonical form of a set holds every
/// transaction that stands in it.
pub open spec fn knows_sets(
    canonical: spec_fn(Seq<char>) -> Seq<char>,
    holds: spec_fn(Seq<char>, Seq<char>) -> bool,
) -> bool {
    forall|set: Seq<char>, id: Seq<char>| #[trigger]
        listed(set, id) && id.len() > 0 && !id.contains(',') ==> holds(canonical(set), id)
}

proof fn lemma_trimmed_set_lists(set: Seq<char>, id: Seq<char>, from: int)
    requires
        listed_at(set, id, from),
        id.len() > 0,
        !id.contains(','),
    ensures
        listed(trim_commas(set), id),
    decreases set.len(),
{
    let to = from + id.len();
    assert(set.subrange(from, to)[0] == set[from]);
    assert(set.subrange(from, to)[id.len() - 1] == set[to - 1]);
    assert(id.contains(id[0]) && id.contains(id[id.len() - 1]));
    if set[0] == ',' {
        let rest = set.drop_first();
        assert(rest.subrange(from - 1, to - 1) =~= set.subrange(from, to));
        assert(listed_at(rest, id, from - 1));
        lemma_trimmed_set_lists(rest, id, from - 1);
    } else if set.last() == ',' {
        let rest = set.drop_last();
        assert(rest.subrange(from, to) =~= set.subrange(from, to));
        assert(listed_at(rest, id, from));
        lemma_trimmed_set_lists(rest, id, from);
    } else {
        assert(listed_at(set, id, from));
    }
}

proof fn lemma_longer_set_lists(set: Seq<char>, more: Seq<char>, id: Seq<char>)
    ensures
        listed(set, id) ==> listed(set + ","@ + more, id),
        listed(more, id) ==> listed(set + ","@ + more, id),
{
    reveal_strlit(",");
    let whole = set + ","@ + more;
    assert(whole[set.len() as int] == ',');
    if listed(set, id) {
        let from = choose|from: int| listed_at(set, id, from);
        assert(whole.subrange(from, from + id.len()) =~= set.subrange(from, from + id.len()));
        assert(listed_at(whole, id, from));
    }
    if listed(more, id) {
        let from = choose|from: int| listed_at(more, id, from);
        let at = set.len() + 1 + from;
        assert(whole.subrange(at, at + id.len()) =~= more.subrange(from, from + id.len()));
        assert(listed_at(whole, id, at));
    }
}

proof fn lemma_alone(id: Seq<char>)
    ensures
        listed(id, id),
{
    assert(id.subrange(0, id.len() as int) =~= id);
    assert(listed_at(id, id, 0));
}

/// Nothing is forgotten: the set of an applied transaction lists the transaction
/// itself, every transaction of the saved set, and every one that was observed
/// since.
pub proof fn law_an_applied_set_lists_every_transaction(
    writer: Writer,
    saved: Progress,
    id: Seq<char>,
    other: Seq<char>,
)
    requires
        saved.mode == "gtid"@,
        other.len() > 0,
        !other.contains(','),
        id.len() > 0,
        other == id || (saved.gtid_set matches Some(set) && listed(set, other)) || (
        writer.observed_gtids matches Some(set) && listed(set, other)),
    ensures
        applied_set(writer, saved, id) matches Some(set) && listed(set, other),
{
    reveal_strlit("");
    lemma_alone(id);
    let a = or_empty(saved.gtid_set);
    let b = or_empty(writer.observed_gtids);
    let all = seq![a, b, id];
    assert(all.drop_last() =~= seq![a, b]);
    assert(all.drop_last().drop_last() =~= seq![a]);
    assert(all.drop_last().drop_last().drop_last() =~= Seq::empty());
    reveal_with_fuel(non_empty, 4);
    reveal_with_fuel(join, 4);
    let kept = non_empty(all);
    let whole = join(kept, ","@);
    if a.len() == 0 && b.len() == 0 {
        assert(kept =~= seq![id]);
        assert(whole == id);
    } else if a.len() == 0 {
        assert(kept =~= seq![b, id]);
        assert(kept.drop_last() =~= seq![b]);
        assert(whole == b + ","@ + id);
        lemma_longer_set_lists(b, id, other);
    } else if b.len() == 0 {
        assert(kept =~= seq![a, id]);
        assert(kept.drop_last() =~= seq![a]);
        assert(whole == a + ","@ + id);
        lemma_longer_set_lists(a, id, other);
    } else {
        assert(kept =~= seq![a, b, id]);
        assert(kept.drop_last() =~= seq![a, b]);
        assert(kept.drop_last().drop_last() =~= seq![a]);
        assert(whole == (a + ","@ + b) + ","@ + id);
        lemma_longer_set_lists(a, b, other);
        lemma_longer_set_lists(a + ","@ + b, id, other);
    }
    assert(listed(whole, other));
    let from = choose|from: int| listed_at(whole, other, from);
    lemma_trimmed_set_lists(whole, other, from);
}

/// What is observed is remembered: the set of an observation lists the
/// transaction itself and every one that was observed before it.
pub proof fn law_an_observed_set_lists_every_transaction(
    writer: Writer,
    id: Seq<char>,
    other: Seq<char>,
)
    requires
        writer.checkpoint matches Some(checkpoint) && checkpoint.mode == "gtid"@,
        other.len() > 0,
        !other.contains(','),
        other == id || (writer.observed_gtids matches Some(set) && listed(set, other)),
    ensures
        observed_set(writer, id) matches Some(set) && listed(set, other),
{
    let seen = or_empty(writer.observed_gtids);
    lemma_alone(id);
    lemma_longer_set_lists(seen, id, other);
    let whole = seen + ","@ + id;
    let from = choose|from: int| listed_at(whole, other, from);
    lemma_trimmed_set_lists(whole, other, from);
}

/// The checkpoint behind an applied transaction is at the transaction's position
/// and names it. A numbered history goes on with the set that was computed for
/// it. The counters grow by the one transaction, where it had rows, and by its
/// rows. Whose checkpoint it is does not change.
pub proof fn law_a_checkpoint_carries_what_was_applied(
    saved: Progress,
    file: Seq<char>,
    position: u64,
    id: Seq<char>,
    rows: usize,
    gtid_set: Option<Seq<char>>,
)
    requires
        saved.revision < u64::MAX,
        saved.applied_transactions < u64::MAX,
        saved.applied_rows + rows <= u64::MAX,
    ensures
        ({
            let next = advanced(saved, file, position, id, rows, gtid_set);
            &&& next.file == file && next.position == position
            &&& next.last_transaction_id == Some(id)
            &&& saved.mode == "gtid"@ ==> next.gtid_set == gtid_set
            &&& saved.mode != "gtid"@ ==> next.gtid_set == saved.gtid_set
            &&& next.revision == saved.revision + 1
            &&& rows == 0 ==> next.applied_transactions == saved.applied_transactions
            &&& rows > 0 ==> next.applied_transactions == saved.applied_transactions + 1
            &&& next.applied_rows == saved.applied_rows + rows
            &&& next.task_id == saved.task_id && next.source_uuid == saved.source_uuid
            &&& next.sink_uuid == saved.sink_uuid && next.binding == saved.binding
            &&& next.mode == saved.mode && next.phase == saved.phase
            &&& next.snapshot_rows == saved.snapshot_rows
            &&& next.snapshot_gtids == saved.snapshot_gtids
        }),
{
}

proof fn lemma_single_gtid(id: Seq<char>)
    requires
        single_gtid_fault(id) is None,
    ensures
        id.len() > 0,
        !id.contains(','),
{
    lemma_last_index(id, ':');
}

/// A transaction is applied once: behind its own checkpoint it counts as
/// applied, and nothing of it runs again. In a numbered history this is what the
/// saved set itself answers, brought into its canonical form by a target that
/// knows its sets. So do the transactions that were in the set before, and those
/// that were observed since, wherever they are not behind the checkpoint.
pub proof fn law_an_applied_transaction_is_not_applied_again(
    writer: Writer,
    saved: Progress,
    file: Seq<char>,
    position: u64,
    id: Seq<char>,
    rows: usize,
    canonical: spec_fn(Seq<char>) -> Seq<char>,
    holds: spec_fn(Seq<char>, Seq<char>) -> bool,
    other: Seq<char>,
    other_file: Seq<char>,
    other_position: nat,
)
    requires
        binding_fault(saved, writer.source_uuid, writer.sink_uuid, writer.binding) is None,
        checkpoint_position_fault(saved.mode, file, position as nat) is None,
        history_order(Some(saved.mode), other_file, other_position, file, position as nat) matches Ok(
            order,
        ) && order <= 0,
        saved.mode == "gtid"@ ==> {
            &&& knows_sets(canonical, holds)
            &&& single_gtid_fault(id) is None
            &&& single_gtid_fault(other) is None
            &&& other == id || listed(saved.gtid_set->0, other) || (
            writer.observed_gtids matches Some(set) && listed(set, other))
        },
    ensures
        ({
            let set = match applied_set(writer, saved, id) {
                Some(set) => Some(canonical(set)),
                None => None,
            };
            let next = advanced(saved, file, position, id, rows, set);
            decision(
                Writer {
                    checkpoint: Some(next),
                    observed_gtids: None,
                    observed_position: None,
                    ..writer
                },
                Some(next),
                Some("InnoDB"@),
                other,
                other_file,
                other_position,
                next.gtid_set matches Some(saved_set) && holds(saved_set, other),
            )
        }) == Ok::<_, Seq<char>>(true),
{
    if saved.mode == "gtid"@ {
        lemma_single_gtid(id);
        lemma_single_gtid(other);
        law_an_applied_set_lists_every_transaction(writer, saved, id, other);
    }
}

/// Only a transaction that is new is applied: one that no saved set holds, where
/// sets are kept.
pub proof fn law_only_new_transactions_are_applied(
    writer: Writer,
    saved: Progress,
    engine: Option<Seq<char>>,
    id: Seq<char>,
    file: Seq<char>,
    position: nat,
    included: bool,
)
    requires
        decision(writer, Some(saved), engine, id, file, position, included) == Ok::<_, Seq<char>>(
            false,
        ),
    ensures
        saved.mode == "gtid"@ ==> !included && single_gtid_fault(id) is None,
        engine == Some("InnoDB"@),
        writer.checkpoint == Some(saved),
        saved.source_uuid == writer.source_uuid,
        saved.sink_uuid == writer.sink_uuid,
        saved.binding == writer.binding,
{
}

/// A transaction that is resolved as not applied lies behind the checkpoint and
/// is not in its set. One that is resolved as applied is the last one of the
/// checkpoint, or in its set, or lies before it.
pub proof fn law_resolutions_go_by_the_checkpoint(
    writer: Writer,
    saved: Progress,
    id: Seq<char>,
    file: Seq<char>,
    position: nat,
    included: bool,
)
    ensures
        resolution(writer, Some(saved), id, file, position, included) matches Ok(found) ==> {
            let order = history_order(
                Some(saved.mode),
                file,
                position,
                saved.file,
                saved.position as nat,
            );
            &&& found is NotApplied ==> (order matches Ok(order) && order > 0)
                && saved.last_transaction_id != Some(id) && !(saved.mode == "gtid"@ && included)
            &&& found is Applied ==> saved.last_transaction_id == Some(id) || saved.mode
                == "gtid"@ && included || (order matches Ok(order) && order < 0)
            &&& found is Unprovable ==> order == Ok::<int, Seq<char>>(0)
        },
        resolution(writer, None, id, file, position, included) is Err,
{
}

/// An order is the order of the history: in one file positions go up, files of
/// one prefix go by their number, and log sequence numbers by their value.
pub proof fn law_history_goes_up(
    mode: Seq<char>,
    a: Seq<char>,
    ap: nat,
    b: Seq<char>,
    bp: nat,
)
    ensures
        mode != "postgresql_lsn"@ && a == b ==> {
            &&& history_order(Some(mode), a, ap, b, bp) matches Ok(order)
            &&& order > 0 <==> ap > bp
            &&& order < 0 <==> ap < bp
        },
        mode != "postgresql_lsn"@ && a != b ==> {
            file_parts(a) matches Ok(left) ==> file_parts(b) matches Ok(right) ==> {
                &&& history_order(Some(mode), a, ap, b, bp) is Ok <==> left.0 == right.0
                &&& history_order(Some(mode), a, ap, b, bp) matches Ok(order) ==> {
                    &&& left.1 > right.1 ==> order > 0
                    &&& left.1 < right.1 ==> order < 0
                    &&& left.1 == right.1 ==> (order > 0 <==> ap > bp) && (order < 0 <==> ap < bp)
                }
            }
        },
        mode == "postgresql_lsn"@ ==> {
            history_order(Some(mode), a, ap, b, bp) matches Ok(order) ==> {
                &&& order > 0 <==> ap > bp
                &&& order < 0 <==> ap < bp
                &&& lsn(a) == Ok::<nat, Seq<char>>(ap) && lsn(b) == Ok::<nat, Seq<char>>(bp)
            }
        },
{
}

/// A checkpoint only moves forward: a transaction is applied only where it lies
/// behind the saved position.
pub proof fn law_a_checkpoint_only_moves_forward(
    writer: Writer,
    saved: Progress,
    engine: Option<Seq<char>>,
    id: Seq<char>,
    file: Seq<char>,
    position: nat,
    included: bool,
)
    requires
        decision(writer, Some(saved), engine, id, file, position, included) == Ok::<_, Seq<char>>(
            false,
        ),
    ensures
        history_order(
            Some(saved.mode),
            file,
            position,
            saved.file,
            saved.position as nat,
        ) matches Ok(order) && order > 0,
{
}

/// What was observed becomes durable together with a transaction at or behind
/// it, never ahead of it.
pub proof fn law_observations_are_never_durable_ahead(
    writer: Writer,
    saved: Progress,
    engine: Option<Seq<char>>,
    id: Seq<char>,
    file: Seq<char>,
    position: nat,
    included: bool,
)
    requires
        decision(writer, Some(saved), engine, id, file, position, included) == Ok::<_, Seq<char>>(
            false,
        ),
    ensures
        writer.observed_position matches Some((seen_file, seen_position)) ==> {
            history_order(
                Some(saved.mode),
                file,
                position,
                seen_file,
                seen_position as nat,
            ) matches Ok(order) && order >= 0
        },
{
}

/// A lost acknowledgement of a transaction that was committed with its
/// checkpoint is always resolved as applied.
pub proof fn law_a_committed_transaction_is_resolved_as_applied(
    writer: Writer,
    saved: Progress,
    file: Seq<char>,
    position: u64,
    id: Seq<char>,
    rows: usize,
    gtid_set: Option<Seq<char>>,
    included: bool,
)
    requires
        binding_fault(saved, writer.source_uuid, writer.sink_uuid, writer.binding) is None,
        checkpoint_position_fault(saved.mode, file, position as nat) is None,
        saved.mode == "gtid"@ ==> gtid_set is Some,
    ensures
        resolution(
            writer,
            Some(advanced(saved, file, position, id, rows, gtid_set)),
            id,
            file,
            position as nat,
            included,
        ) == Ok::<_, Seq<char>>(CommitResolution::Applied),
{
}

/// A lost acknowledgement is never guessed: at an equal position, without the
/// exact transaction and without its number in the saved set, nothing is
/// proved.
pub proof fn law_an_equal_position_proves_nothing(
    writer: Writer,
    saved: Progress,
    id: Seq<char>,
)
    requires
        binding_fault(saved, writer.source_uuid, writer.sink_uuid, writer.binding) is None,
        saved.last_transaction_id != Some(id),
    ensures
        resolution(writer, Some(saved), id, saved.file, saved.position as nat, false) == Ok::<
            _,
            Seq<char>,
        >(CommitResolution::Unprovable),
{
}

} // verus!
