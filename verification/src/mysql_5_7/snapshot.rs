//! A consistent read of whole tables, in batches by primary key.
//!
//! The reader holds what is decided; the driver holds the lock, the read view
//! and the connection.
use crate::change_event::model::{ColumnDatum, Datum, LogicalValue, Source};
use crate::change_event::snapshot::{SnapshotBatch, SnapshotBoundary, SnapshotTable};
use crate::json::{json_text, Contract};
use crate::mysql_5_7::binlog::BinlogStartMode;
use crate::mysql_5_7::error::{
    capture_fault, other, undeclared, CaptureError, CaptureErrorKind, CaptureFault,
};
use crate::mysql_5_7::type_mapping::{native_fault, validate_native_type, view_of};
use crate::mysql_5_7::value::{
    decode_mysql_value, decoded_value, labelled, labels_agree, text_of, value_fault, ColumnInfo,
};
use crate::mysql_source_contract::boundary::{
    boundary_cursor, boundary_doc, cursor_boundary, BOUNDARY_FORMAT,
};
use crate::mysql_source_contract::identifier::{
    qualified_table, quote_identifier, quoted, table_name,
};
use crate::mysql_source_contract::wire::SqlValue;
use crate::number::decimal;
use crate::read_json::{column_doc, column_value, json_read, read_json};
use crate::text::{
    concat3, concat4, concat5, eq_ignore_case, has_prefix, join, join_texts, lower, same,
    same_ignoring_case, starts_with, texts,
};
use vstd::prelude::*;

verus! {

/// How many rows a batch holds.
pub const BATCH_ROWS: usize = 256;

/// How large a batch may be.
pub const MAX_BATCH_BYTES: usize = 0x100_0000;

/// The seconds in which the read view has to stand.
pub const BUDGET_SECONDS: u64 = 8;

// ---------------------------------------------------------------------------
// Before the read view
// ---------------------------------------------------------------------------

/// A cancelled snapshot stops.
pub open spec fn stop_fault(stopped: bool) -> Option<CaptureFault> {
    if stopped {
        Some((CaptureErrorKind::Interrupted, "全量同步已取消，未提交数据将回滚"@))
    } else {
        None
    }
}

pub fn check_stop(stopped: bool) -> (result: Result<(), CaptureError>)
    ensures
        capture_fault(result) == stop_fault(stopped),
{
    if stopped {
        Err(CaptureError::interrupted("全量同步已取消，未提交数据将回滚"))
    } else {
        Ok(())
    }
}

/// A table that a snapshot can read.
pub open spec fn readable_table(table: SnapshotTable) -> bool {
    !same_ignoring_case(table.schema@, "CDC"@) && table.schema@.len() > 0 && table.table@.len() > 0
}

/// Two tables have one name.
pub open spec fn same_table(a: SnapshotTable, b: SnapshotTable) -> bool {
    a.schema@ == b.schema@ && a.table@ == b.table@
}

pub open spec fn all_readable(tables: Seq<SnapshotTable>) -> bool {
    forall|i: int| 0 <= i < tables.len() ==> readable_table(#[trigger] tables[i])
}

pub open spec fn distinct_tables(tables: Seq<SnapshotTable>) -> bool {
    forall|i: int, j: int|
        #![trigger tables[i], tables[j]]
        0 <= i < j < tables.len() ==> !same_table(tables[i], tables[j])
}

/// What is wrong with the scope of a snapshot.
pub open spec fn snapshot_scope_fault(tables: Seq<SnapshotTable>) -> Option<CaptureFault> {
    if tables.len() == 0 || !all_readable(tables) {
        Some(other("invalid or empty snapshot scope"@))
    } else if !distinct_tables(tables) {
        Some(other("duplicate snapshot table"@))
    } else {
        None
    }
}

fn are_readable(tables: &Vec<SnapshotTable>) -> (result: bool)
    ensures
        result == all_readable(tables@),
{
    let mut i: usize = 0;
    while i < tables.len()
        invariant
            i <= tables@.len(),
            forall|k: int| 0 <= k < i ==> readable_table(#[trigger] tables@[k]),
        decreases tables@.len() - i,
    {
        if eq_ignore_case(tables[i].schema.as_str(), "CDC") || tables[i].schema.as_str().is_empty()
            || tables[i].table.as_str().is_empty() {
            assert(!readable_table(tables@[i as int]));
            return false;
        }
        i += 1;
    }
    true
}

fn are_distinct(tables: &Vec<SnapshotTable>) -> (result: bool)
    ensures
        result == distinct_tables(tables@),
{
    let mut j: usize = 0;
    while j < tables.len()
        invariant
            j <= tables@.len(),
            forall|a: int, b: int|
                #![trigger tables@[a], tables@[b]]
                0 <= a < b < j ==> !same_table(tables@[a], tables@[b]),
        decreases tables@.len() - j,
    {
        let mut i: usize = 0;
        while i < j
            invariant
                i <= j < tables@.len(),
                forall|a: int| 0 <= a < i ==> !same_table(#[trigger] tables@[a], tables@[j as int]),
            decreases j - i,
        {
            if same(tables[i].schema.as_str(), tables[j].schema.as_str()) && same(
                tables[i].table.as_str(),
                tables[j].table.as_str(),
            ) {
                assert(same_table(tables@[i as int], tables@[j as int]));
                return false;
            }
            i += 1;
        }
        j += 1;
    }
    true
}

/// Checks a snapshot before a connection is opened.
pub fn check_snapshot_scope(stopped: bool, tables: &Vec<SnapshotTable>) -> (result: Result<
    (),
    CaptureError,
>)
    ensures
        capture_fault(result) == match stop_fault(stopped) {
            Some(fault) => Some(fault),
            None => snapshot_scope_fault(tables@),
        },
{
    match check_stop(stopped) {
        Ok(_) => {},
        Err(error) => return Err(error),
    }
    if tables.len() == 0 || !are_readable(tables) {
        return Err(CaptureError::other("invalid or empty snapshot scope"));
    }
    if !are_distinct(tables) {
        return Err(CaptureError::other("duplicate snapshot table"));
    }
    Ok(())
}

/// How changes are found behind a snapshot.
pub open spec fn snapshot_mode(requested: BinlogStartMode, gtid_mode: Seq<char>) -> Seq<char> {
    match requested {
        BinlogStartMode::Gtid => "gtid"@,
        BinlogStartMode::Auto => if gtid_mode == "ON"@ {
            "gtid"@
        } else {
            "binlog"@
        },
        BinlogStartMode::Position => "binlog"@,
    }
}

/// What is wrong with the source of a snapshot.
pub open spec fn snapshot_source_fault(
    version: Seq<char>,
    log_bin: u8,
    format: Seq<char>,
    image: Seq<char>,
    requested: BinlogStartMode,
    gtid_mode: Seq<char>,
) -> Option<CaptureFault> {
    if !has_prefix(version, "5.7"@) || log_bin != 1 || format != "ROW"@ || image != "FULL"@ {
        Some(other("snapshot requires the matching MySQL version and ROW/FULL binlog"@))
    } else if requested is Gtid && gtid_mode != "ON"@ {
        Some(other("首次全量的 GTID 模式要求源端 GTID_MODE=ON"@))
    } else {
        None
    }
}

/// Checks what a source says of itself, and chooses how changes are found
/// behind the snapshot.
pub fn choose_snapshot_mode(
    version: &str,
    log_bin: u8,
    format: &str,
    image: &str,
    requested: BinlogStartMode,
    gtid_mode: &str,
) -> (result: Result<&'static str, CaptureError>)
    ensures
        capture_fault(result) == snapshot_source_fault(
            version@,
            log_bin,
            format@,
            image@,
            requested,
            gtid_mode@,
        ),
        result matches Ok(mode) ==> mode@ == snapshot_mode(requested, gtid_mode@),
{
    if !starts_with(version, "5.7") || log_bin != 1 || !same(format, "ROW") || !same(image, "FULL") {
        return Err(
            CaptureError::other("snapshot requires the matching MySQL version and ROW/FULL binlog"),
        );
    }
    match requested {
        BinlogStartMode::Gtid => {
            if !same(gtid_mode, "ON") {
                return Err(
                    CaptureError::other("首次全量的 GTID 模式要求源端 GTID_MODE=ON"),
                );
            }
            Ok("gtid")
        },
        BinlogStartMode::Auto => if same(gtid_mode, "ON") {
            Ok("gtid")
        } else {
            Ok("binlog")
        },
        BinlogStartMode::Position => Ok("binlog"),
    }
}

/// Both connections have to reach one server.
pub open spec fn lock_fault(lock_uuid: Option<Seq<char>>, uuid: Seq<char>) -> Option<CaptureFault> {
    if lock_uuid == Some(uuid) {
        None
    } else {
        Some(other("snapshot and lock connections reached different servers"@))
    }
}

pub fn check_lock_server(lock_uuid: Option<&str>, uuid: &str) -> (result: Result<(), CaptureError>)
    ensures
        capture_fault(result) == lock_fault(view_of(lock_uuid), uuid@),
{
    let one = match lock_uuid {
        Some(lock_uuid) => same(lock_uuid, uuid),
        None => false,
    };
    if one {
        Ok(())
    } else {
        Err(CaptureError::other("snapshot and lock connections reached different servers"))
    }
}

/// While tables are pinned, and when all are, the lock must not be held too
/// long.
pub open spec fn budget_fault(elapsed_seconds: u64, pinning: bool) -> Option<CaptureFault> {
    if elapsed_seconds < BUDGET_SECONDS {
        None
    } else if pinning {
        Some(other("全量快照初始化超过 8 秒预算，放弃本次初始化"@))
    } else {
        Some(other("snapshot initialization exceeded time budget"@))
    }
}

pub fn check_budget(elapsed_seconds: u64, pinning: bool) -> (result: Result<(), CaptureError>)
    ensures
        capture_fault(result) == budget_fault(elapsed_seconds, pinning),
{
    if elapsed_seconds < BUDGET_SECONDS {
        Ok(())
    } else if pinning {
        Err(CaptureError::other("全量快照初始化超过 8 秒预算，放弃本次初始化"))
    } else {
        Err(CaptureError::other("snapshot initialization exceeded time budget"))
    }
}

/// The boundary of a snapshot.
pub fn snapshot_boundary(
    version: String,
    uuid: String,
    mode: &str,
    file: &str,
    position: u64,
    executed_gtids: &str,
) -> (result: SnapshotBoundary)
    ensures
        result.source.kind@ == "mysql"@,
        result.source.version == version,
        result.source.id == uuid,
        result.cursor.format@ == BOUNDARY_FORMAT@,
        result.cursor.value@ == json_text(
            boundary_doc((mode@, file@, position, executed_gtids@)),
        ),
        result.cursor.display@ == mode@ + ":"@ + file@ + ":"@ + decimal(position as nat),
        cursor_boundary(result.cursor) == Ok::<_, Seq<char>>(
            (mode@, file@, position, executed_gtids@),
        ),
{
    SnapshotBoundary {
        source: Source { kind: "mysql".to_owned(), version, id: uuid },
        cursor: boundary_cursor(mode, file, position, executed_gtids),
    }
}

// ---------------------------------------------------------------------------
// The columns of a table
// ---------------------------------------------------------------------------

/// The names hold a name.
pub open spec fn named(names: Seq<String>, name: Seq<char>) -> bool {
    texts(names).contains(name)
}

fn is_named(names: &Vec<String>, name: &str) -> (result: bool)
    ensures
        result == named(names@, name@),
{
    let ghost all = texts(names@);
    let mut i: usize = 0;
    while i < names.len()
        invariant
            i <= names@.len(),
            all == texts(names@),
            forall|k: int| 0 <= k < i ==> #[trigger] all[k] != name@,
        decreases names@.len() - i,
    {
        assert(all[i as int] == names@[i as int]@);
        if same(names[i].as_str(), name) {
            return true;
        }
        i += 1;
    }
    false
}

/// A column is read. Without a selection every column is.
pub open spec fn selected(scope: SnapshotTable, column: ColumnInfo) -> bool {
    scope.columns@.len() == 0 || named(scope.columns@, column.name@)
}

fn is_selected(scope: &SnapshotTable, column: &ColumnInfo) -> (result: bool)
    ensures
        result == selected(*scope, *column),
{
    scope.columns.len() == 0 || is_named(&scope.columns, column.name.as_str())
}

/// The places of the columns that are read.
pub open spec fn selection(scope: SnapshotTable, columns: Seq<ColumnInfo>) -> Seq<int>
    decreases columns.len(),
{
    if columns.len() == 0 {
        Seq::empty()
    } else if selected(scope, columns.last()) {
        selection(scope, columns.drop_last()).push(columns.len() - 1)
    } else {
        selection(scope, columns.drop_last())
    }
}

/// Places, as numbers.
pub open spec fn places_view(places: Seq<usize>) -> Seq<int> {
    Seq::new(places.len(), |i: int| places[i] as int)
}

fn select(scope: &SnapshotTable, columns: &Vec<ColumnInfo>) -> (result: Vec<usize>)
    ensures
        places_view(result@) == selection(*scope, columns@),
        forall|k: int| 0 <= k < result@.len() ==> #[trigger] result@[k] < columns@.len(),
{
    let mut places: Vec<usize> = Vec::new();
    let mut i: usize = 0;
    assert(columns@.take(0) =~= Seq::empty());
    assert(places_view(places@) =~= Seq::empty());
    while i < columns.len()
        invariant
            i <= columns@.len(),
            places_view(places@) == selection(*scope, columns@.take(i as int)),
            forall|k: int| 0 <= k < places@.len() ==> #[trigger] places@[k] < columns@.len(),
        decreases columns@.len() - i,
    {
        assert(columns@.take(i + 1).drop_last() =~= columns@.take(i as int));
        if is_selected(scope, &columns[i]) {
            let ghost before = places_view(places@);
            places.push(i);
            assert(places_view(places@) =~= before.push(i as int));
        }
        i += 1;
    }
    assert(columns@.take(i as int) =~= columns@);
    places
}

/// The place of a column in its key.
pub open spec fn key_rank(columns: Seq<ColumnInfo>, place: int) -> int {
    columns[place].primary_key_ordinal->0 as int
}

/// The places with one more, behind those of no higher rank.
pub open spec fn with_place(columns: Seq<ColumnInfo>, places: Seq<int>, place: int) -> Seq<int>
    decreases places.len(),
{
    if places.len() == 0 || key_rank(columns, places.last()) <= key_rank(columns, place) {
        places.push(place)
    } else {
        with_place(columns, places.drop_last(), place).push(places.last())
    }
}

/// The places of the key columns among the first `count`, by their rank.
pub open spec fn key_places(columns: Seq<ColumnInfo>, count: int) -> Seq<int>
    decreases count,
{
    if count <= 0 {
        Seq::empty()
    } else if columns[count - 1].primary_key_ordinal is Some {
        with_place(columns, key_places(columns, count - 1), count - 1)
    } else {
        key_places(columns, count - 1)
    }
}

proof fn lemma_with_place(columns: Seq<ColumnInfo>, places: Seq<int>, place: int, at: int)
    requires
        0 <= at <= places.len(),
        forall|i: int|
            at <= i < places.len() ==> key_rank(columns, #[trigger] places[i]) > key_rank(
                columns,
                place,
            ),
        at > 0 ==> key_rank(columns, places[at - 1]) <= key_rank(columns, place),
    ensures
        with_place(columns, places, place) == places.insert(at, place),
    decreases places.len(),
{
    if places.len() == 0 || at == places.len() {
        assert(places.insert(at, place) =~= places.push(place));
    } else {
        lemma_with_place(columns, places.drop_last(), place, at);
        assert(places.insert(at, place) =~= places.drop_last().insert(at, place).push(
            places.last(),
        ));
    }
}

fn rank_of(columns: &Vec<ColumnInfo>, place: usize) -> (result: usize)
    requires
        place < columns@.len(),
        columns@[place as int].primary_key_ordinal is Some,
    ensures
        result as int == key_rank(columns@, place as int),
{
    match columns[place].primary_key_ordinal {
        Some(rank) => rank,
        None => 0,
    }
}

fn find_keys(columns: &Vec<ColumnInfo>) -> (result: Vec<usize>)
    ensures
        places_view(result@) == key_places(columns@, columns@.len() as int),
        forall|k: int| 0 <= k < result@.len() ==> #[trigger] result@[k] < columns@.len(),
{
    let mut places: Vec<usize> = Vec::new();
    let mut i: usize = 0;
    assert(places_view(places@) =~= Seq::empty());
    while i < columns.len()
        invariant
            i <= columns@.len(),
            places_view(places@) == key_places(columns@, i as int),
            forall|k: int|
                0 <= k < places@.len() ==> #[trigger] places@[k] < columns@.len()
                    && columns@[places@[k] as int].primary_key_ordinal is Some,
        decreases columns@.len() - i,
    {
        if columns[i].primary_key_ordinal.is_some() {
            let own: usize = rank_of(columns, i);
            let mut at: usize = places.len();
            while at > 0 && rank_of(columns, places[at - 1]) > own
                invariant
                    at <= places@.len(),
                    own == key_rank(columns@, i as int),
                    forall|k: int|
                        0 <= k < places@.len() ==> #[trigger] places@[k] < columns@.len()
                            && columns@[places@[k] as int].primary_key_ordinal is Some,
                    forall|k: int|
                        at <= k < places@.len() ==> key_rank(
                            columns@,
                            #[trigger] places@[k] as int,
                        ) > own,
                decreases at,
            {
                at -= 1;
            }
            let ghost before = places@;
            let ghost ranked = places_view(before);
            proof {
                assert forall|k: int| at <= k < ranked.len() implies key_rank(
                    columns@,
                    #[trigger] ranked[k],
                ) > key_rank(columns@, i as int) by {
                    assert(ranked[k] == before[k] as int);
                }
                lemma_with_place(columns@, ranked, i as int, at as int);
            }
            places.insert(at, i);
            assert(places_view(places@) =~= ranked.insert(at as int, i as int));
            assert forall|k: int| 0 <= k < places@.len() implies #[trigger] places@[k]
                < columns@.len() && columns@[places@[k] as int].primary_key_ordinal is Some by {
                if k < at {
                    assert(places@[k] == before[k]);
                } else if k > at {
                    assert(places@[k] == before[k - 1]);
                }
            }
        }
        i += 1;
    }
    places
}

/// A type that a snapshot can read, by its bare name.
pub open spec fn snapshot_type(name: Seq<char>) -> bool {
    ||| name == "tinyint"@ || name == "smallint"@ || name == "mediumint"@ || name == "int"@
    ||| name == "bigint"@ || name == "decimal"@ || name == "float"@ || name == "double"@
    ||| name == "char"@ || name == "varchar"@ || name == "tinytext"@ || name == "text"@
    ||| name == "mediumtext"@ || name == "longtext"@ || name == "binary"@ || name == "varbinary"@
    ||| name == "tinyblob"@ || name == "blob"@ || name == "mediumblob"@ || name == "longblob"@
    ||| name == "date"@ || name == "datetime"@ || name == "time"@ || name == "timestamp"@
    ||| name == "year"@ || name == "json"@
}

fn is_snapshot_type(name: &str) -> (result: bool)
    ensures
        result == snapshot_type(name@),
{
    same(name, "tinyint") || same(name, "smallint") || same(name, "mediumint") || same(name, "int")
        || same(name, "bigint") || same(name, "decimal") || same(name, "float") || same(
        name,
        "double",
    ) || same(name, "char") || same(name, "varchar") || same(name, "tinytext") || same(name, "text")
        || same(name, "mediumtext") || same(name, "longtext") || same(name, "binary") || same(
        name,
        "varbinary",
    ) || same(name, "tinyblob") || same(name, "blob") || same(name, "mediumblob") || same(
        name,
        "longblob",
    ) || same(name, "date") || same(name, "datetime") || same(name, "time") || same(
        name,
        "timestamp",
    ) || same(name, "year") || same(name, "json")
}

/// What is wrong with the declaration of a column from `from` on.
pub open spec fn declarations_fault(columns: Seq<ColumnInfo>, from: int) -> Option<CaptureFault>
    decreases columns.len() - from,
{
    if from < 0 || from >= columns.len() {
        None
    } else {
        match native_fault(columns[from].native_type@) {
            Some(complaint) => Some(undeclared(complaint)),
            None => declarations_fault(columns, from + 1),
        }
    }
}

/// The type of a column that is read is not supported, from `from` on.
pub open spec fn types_fault(scope: SnapshotTable, columns: Seq<ColumnInfo>, from: int) -> Option<
    CaptureFault,
>
    decreases columns.len() - from,
{
    if from < 0 || from >= columns.len() {
        None
    } else if selected(scope, columns[from]) && !snapshot_type(columns[from].data_type@) {
        Some(
            other(
                "snapshot type unsupported: "@ + scope.schema@ + "."@ + scope.table@ + "."@
                    + columns[from].name@ + " "@ + columns[from].native_type@,
            ),
        )
    } else {
        types_fault(scope, columns, from + 1)
    }
}

/// The key columns are read, and there is one.
pub open spec fn keys_selected(scope: SnapshotTable, columns: Seq<ColumnInfo>) -> bool {
    let keys = key_places(columns, columns.len() as int);
    keys.len() > 0 && forall|i: int|
        0 <= i < keys.len() ==> selected(scope, columns[#[trigger] keys[i]])
}

/// A column has this name.
pub open spec fn has_column(columns: Seq<ColumnInfo>, name: Seq<char>) -> bool {
    exists|i: int| 0 <= i < columns.len() && (#[trigger] columns[i]).name@ == name
}

/// Every name of the selection is a column.
pub open spec fn selection_exists(scope: SnapshotTable, columns: Seq<ColumnInfo>) -> bool {
    forall|i: int|
        0 <= i < scope.columns@.len() ==> has_column(columns, (#[trigger] scope.columns@[i])@)
}

/// Why a table cannot be read.
pub open spec fn scan_fault(
    scope: SnapshotTable,
    engine: Option<Seq<char>>,
    columns: Seq<ColumnInfo>,
) -> Option<CaptureFault> {
    if engine != Some("InnoDB"@) {
        Some(other("snapshot requires InnoDB source tables"@))
    } else {
        match declarations_fault(columns, 0) {
            Some(fault) => Some(fault),
            None => if !keys_selected(scope, columns) {
                Some(other("snapshot selection must contain every primary-key column"@))
            } else if !selection_exists(scope, columns) {
                Some(other("snapshot selected column is missing"@))
            } else {
                types_fault(scope, columns, 0)
            },
        }
    }
}

/// No column that is read has a type with labels.
pub open spec fn without_labels(scope: SnapshotTable, columns: Seq<ColumnInfo>) -> bool {
    forall|i: int|
        0 <= i < columns.len() && selected(scope, #[trigger] columns[i]) ==> !labelled(
            columns[i].data_type@,
        )
}

/// The types that are read have no labels.
proof fn lemma_types_without_labels(scope: SnapshotTable, columns: Seq<ColumnInfo>, from: int)
    requires
        0 <= from <= columns.len(),
        types_fault(scope, columns, from) is None,
    ensures
        forall|i: int|
            from <= i < columns.len() && selected(scope, #[trigger] columns[i]) ==> !labelled(
                columns[i].data_type@,
            ),
    decreases columns.len() - from,
{
    if from < columns.len() {
        lemma_types_without_labels(scope, columns, from + 1);
        if selected(scope, columns[from]) {
            lemma_snapshot_type_without_labels(columns[from].data_type@);
        }
    }
}

/// A type that is read is not spelled like one with labels.
proof fn lemma_snapshot_type_without_labels(name: Seq<char>)
    requires
        snapshot_type(name),
    ensures
        !labelled(name),
{
    reveal_strlit("enum");
    reveal_strlit("set");
    reveal_strlit("tinyint");
    reveal_strlit("smallint");
    reveal_strlit("mediumint");
    reveal_strlit("int");
    reveal_strlit("bigint");
    reveal_strlit("decimal");
    reveal_strlit("float");
    reveal_strlit("double");
    reveal_strlit("char");
    reveal_strlit("varchar");
    reveal_strlit("tinytext");
    reveal_strlit("text");
    reveal_strlit("mediumtext");
    reveal_strlit("longtext");
    reveal_strlit("binary");
    reveal_strlit("varbinary");
    reveal_strlit("tinyblob");
    reveal_strlit("blob");
    reveal_strlit("mediumblob");
    reveal_strlit("longblob");
    reveal_strlit("date");
    reveal_strlit("datetime");
    reveal_strlit("time");
    reveal_strlit("timestamp");
    reveal_strlit("year");
    reveal_strlit("json");
    assert(lower(name).len() == name.len());
    if name.len() == 4 || name.len() == 3 {
        assert(lower(name)[0] == name[0]);
        assert("enum"@[0] != name[0] && "set"@[0] != name[0]);
    } else {
        assert("enum"@.len() == 4 && "set"@.len() == 3);
    }
}

/// The places of the selection are those of selected columns.
proof fn lemma_selection_is_selected(scope: SnapshotTable, columns: Seq<ColumnInfo>, k: int)
    requires
        0 <= k < selection(scope, columns).len(),
    ensures
        0 <= selection(scope, columns)[k] < columns.len(),
        selected(scope, columns[selection(scope, columns)[k]]),
    decreases columns.len(),
{
    let front = columns.drop_last();
    if k < selection(scope, front).len() {
        lemma_selection_is_selected(scope, front, k);
    }
}

/// A table that is read, with its columns and the places of its key.
#[derive(Debug)]
pub struct ScanTable {
    pub scope: SnapshotTable,
    pub columns: Vec<ColumnInfo>,
    pub keys: Vec<usize>,
}

impl ScanTable {
    /// The key is that of the columns, and no column that is read has labels.
    pub open spec fn fits(&self) -> bool {
        &&& places_view(self.keys@) == key_places(self.columns@, self.columns@.len() as int)
        &&& self.keys@.len() > 0
        &&& forall|k: int|
            0 <= k < self.keys@.len() ==> #[trigger] self.keys@[k] < self.columns@.len()
        &&& without_labels(self.scope, self.columns@)
    }
}

fn check_declarations(columns: &Vec<ColumnInfo>) -> (result: Result<(), CaptureError>)
    ensures
        capture_fault(result) == declarations_fault(columns@, 0),
{
    let mut i: usize = 0;
    while i < columns.len()
        invariant
            i <= columns@.len(),
            declarations_fault(columns@, 0) == declarations_fault(columns@, i as int),
        decreases columns@.len() - i,
    {
        match validate_native_type(columns[i].native_type.as_str()) {
            Ok(_) => {},
            Err(error) => return Err(CaptureError::undeclared(&error)),
        }
        i += 1;
    }
    Ok(())
}

fn are_keys_selected(
    scope: &SnapshotTable,
    columns: &Vec<ColumnInfo>,
    keys: &Vec<usize>,
) -> (result: bool)
    requires
        places_view(keys@) == key_places(columns@, columns@.len() as int),
        forall|k: int| 0 <= k < keys@.len() ==> #[trigger] keys@[k] < columns@.len(),
    ensures
        result == keys_selected(*scope, columns@),
{
    let ghost places = key_places(columns@, columns@.len() as int);
    if keys.len() == 0 {
        return false;
    }
    let mut i: usize = 0;
    while i < keys.len()
        invariant
            i <= keys@.len(),
            keys@.len() > 0,
            places == key_places(columns@, columns@.len() as int),
            places_view(keys@) == places,
            forall|k: int| 0 <= k < keys@.len() ==> #[trigger] keys@[k] < columns@.len(),
            forall|k: int| 0 <= k < i ==> selected(*scope, columns@[#[trigger] places[k]]),
        decreases keys@.len() - i,
    {
        assert(places[i as int] == keys@[i as int]);
        if !is_selected(scope, &columns[keys[i]]) {
            return false;
        }
        i += 1;
    }
    true
}

fn is_column(columns: &Vec<ColumnInfo>, name: &str) -> (result: bool)
    ensures
        result == has_column(columns@, name@),
{
    let mut i: usize = 0;
    while i < columns.len()
        invariant
            i <= columns@.len(),
            forall|k: int| 0 <= k < i ==> (#[trigger] columns@[k]).name@ != name@,
        decreases columns@.len() - i,
    {
        if same(columns[i].name.as_str(), name) {
            return true;
        }
        i += 1;
    }
    false
}

fn does_selection_exist(scope: &SnapshotTable, columns: &Vec<ColumnInfo>) -> (result: bool)
    ensures
        result == selection_exists(*scope, columns@),
{
    let mut i: usize = 0;
    while i < scope.columns.len()
        invariant
            i <= scope.columns@.len(),
            forall|k: int|
                0 <= k < i ==> has_column(columns@, (#[trigger] scope.columns@[k])@),
        decreases scope.columns@.len() - i,
    {
        if !is_column(columns, scope.columns[i].as_str()) {
            assert(!has_column(columns@, scope.columns@[i as int]@));
            return false;
        }
        i += 1;
    }
    true
}

fn check_types(scope: &SnapshotTable, columns: &Vec<ColumnInfo>) -> (result: Result<
    (),
    CaptureError,
>)
    ensures
        capture_fault(result) == types_fault(*scope, columns@, 0),
{
    let mut i: usize = 0;
    while i < columns.len()
        invariant
            i <= columns@.len(),
            types_fault(*scope, columns@, 0) == types_fault(*scope, columns@, i as int),
        decreases columns@.len() - i,
    {
        if is_selected(scope, &columns[i]) && !is_snapshot_type(columns[i].data_type.as_str()) {
            let head = concat4(
                "snapshot type unsupported: ",
                scope.schema.as_str(),
                ".",
                scope.table.as_str(),
            );
            let message = concat5(
                head.as_str(),
                ".",
                columns[i].name.as_str(),
                " ",
                columns[i].native_type.as_str(),
            );
            return Err(CaptureError::other(message.as_str()));
        }
        i += 1;
    }
    Ok(())
}

/// Plans how a table is read.
pub fn plan_scan(scope: SnapshotTable, engine: Option<&str>, columns: Vec<ColumnInfo>) -> (result: Result<
    ScanTable,
    CaptureError,
>)
    ensures
        capture_fault(result) == scan_fault(scope, view_of(engine), columns@),
        result matches Ok(scan) ==> scan.fits() && scan.scope == scope && scan.columns == columns,
{
    let transactional = match engine {
        Some(name) => same(name, "InnoDB"),
        None => false,
    };
    if !transactional {
        return Err(CaptureError::other("snapshot requires InnoDB source tables"));
    }
    match check_declarations(&columns) {
        Ok(_) => {},
        Err(error) => return Err(error),
    }
    let keys = find_keys(&columns);
    if !are_keys_selected(&scope, &columns, &keys) {
        return Err(
            CaptureError::other("snapshot selection must contain every primary-key column"),
        );
    }
    if !does_selection_exist(&scope, &columns) {
        return Err(CaptureError::other("snapshot selected column is missing"));
    }
    match check_types(&scope, &columns) {
        Ok(_) => {},
        Err(error) => return Err(error),
    }
    assert(places_view(keys@).len() == keys@.len());
    proof {
        lemma_types_without_labels(scope, columns@, 0);
    }
    Ok(ScanTable { scope, columns, keys })
}

// ---------------------------------------------------------------------------
// The query of a batch
// ---------------------------------------------------------------------------

/// How a column is read.
pub open spec fn column_expression(column: ColumnInfo) -> Seq<char> {
    let name = quoted(column.name@);
    if column.data_type@ == "timestamp"@ {
        "CAST(UNIX_TIMESTAMP("@ + name + ") AS CHAR)"@
    } else if column.data_type@ == "year"@ {
        "CAST("@ + name + " AS CHAR)"@
    } else {
        name
    }
}

/// Whether a JSON document survives as text. A temporal or opaque scalar does
/// not, and would silently become a text.
pub open spec fn round_trip_expression(column: ColumnInfo) -> Seq<char> {
    let name = quoted(column.name@);
    "("@ + name + " IS NULL OR "@ + name + "=CAST(CAST("@ + name
        + " AS CHAR CHARACTER SET utf8mb4) AS JSON))"@
}

fn write_expression(column: &ColumnInfo) -> (result: String)
    ensures
        result@ == column_expression(*column),
{
    let name = quote_identifier(column.name.as_str());
    if same(column.data_type.as_str(), "timestamp") {
        concat3("CAST(UNIX_TIMESTAMP(", name.as_str(), ") AS CHAR)")
    } else if same(column.data_type.as_str(), "year") {
        concat3("CAST(", name.as_str(), " AS CHAR)")
    } else {
        name
    }
}

fn write_round_trip(column: &ColumnInfo) -> (result: String)
    ensures
        result@ == round_trip_expression(*column),
{
    let name = quote_identifier(column.name.as_str());
    let head = concat4("(", name.as_str(), " IS NULL OR ", name.as_str());
    concat4(
        head.as_str(),
        "=CAST(CAST(",
        name.as_str(),
        " AS CHAR CHARACTER SET utf8mb4) AS JSON))",
    )
}

/// How the columns at some places are read.
pub open spec fn column_expressions(columns: Seq<ColumnInfo>, places: Seq<int>) -> Seq<Seq<char>> {
    Seq::new(places.len(), |i: int| column_expression(columns[places[i]]))
}

/// The quoted names of the columns at some places.
pub open spec fn place_names(columns: Seq<ColumnInfo>, places: Seq<int>) -> Seq<Seq<char>> {
    Seq::new(places.len(), |i: int| quoted(columns[places[i]].name@))
}

/// The places of documents.
pub open spec fn document_places(columns: Seq<ColumnInfo>, places: Seq<int>) -> Seq<int>
    decreases places.len(),
{
    if places.len() == 0 {
        Seq::empty()
    } else if columns[places.last()].data_type@ == "json"@ {
        document_places(columns, places.drop_last()).push(places.last())
    } else {
        document_places(columns, places.drop_last())
    }
}

pub open spec fn round_trip_expressions(columns: Seq<ColumnInfo>, places: Seq<int>) -> Seq<
    Seq<char>,
> {
    Seq::new(places.len(), |i: int| round_trip_expression(columns[places[i]]))
}

impl ScanTable {
    /// The places of the columns that are read.
    pub open spec fn selection(&self) -> Seq<int> {
        selection(self.scope, self.columns@)
    }

    /// Whether a row holds every value that is read and the key.
    pub fn holds_row(&self, values: &Vec<SqlValue>) -> (result: bool)
        requires
            self.fits(),
        ensures
            result == (values@.len() >= self.selection().len() + self.key_selection().len()),
    {
        let places = select(&self.scope, &self.columns);
        assert(places_view(places@).len() == places@.len());
        assert(places_view(self.keys@).len() == self.keys@.len());
        values.len() >= places.len() && values.len() - places.len() >= self.keys.len()
    }

    /// The places of the key columns.
    pub open spec fn key_selection(&self) -> Seq<int> {
        key_places(self.columns@, self.columns@.len() as int)
    }

    /// The places of the documents that are read.
    pub open spec fn documents(&self) -> Seq<int> {
        document_places(self.columns@, self.selection())
    }
}

/// A list of placeholders, without spaces.
pub open spec fn marks(count: nat) -> Seq<Seq<char>> {
    Seq::new(count, |i: int| "?"@)
}

/// The query of a batch. Behind the columns stand the key, as it is, and for
/// each document whether it survives as text.
pub open spec fn scan_query(table: ScanTable, continued: bool) -> Seq<char> {
    let keys = place_names(table.columns@, table.key_selection());
    let expressions = column_expressions(table.columns@, table.selection()) + keys
        + round_trip_expressions(table.columns@, table.documents());
    "SELECT "@ + join(expressions, ","@) + " FROM "@ + table_name(
        table.scope.schema@,
        table.scope.table@,
    ) + (if continued {
        " WHERE ("@ + join(keys, ","@) + ") > ("@ + join(marks(keys.len()), ","@) + ")"@
    } else {
        ""@
    }) + " ORDER BY "@ + join(keys, ","@) + " LIMIT 256"@
}

fn list_names(columns: &Vec<ColumnInfo>, places: &Vec<usize>) -> (result: Vec<String>)
    requires
        forall|k: int| 0 <= k < places@.len() ==> #[trigger] places@[k] < columns@.len(),
    ensures
        texts(result@) == place_names(columns@, places_view(places@)),
{
    let mut names: Vec<String> = Vec::new();
    let mut i: usize = 0;
    while i < places.len()
        invariant
            i <= places@.len(),
            names@.len() == i,
            forall|k: int| 0 <= k < places@.len() ==> #[trigger] places@[k] < columns@.len(),
            forall|k: int|
                0 <= k < i ==> (#[trigger] names@[k])@ == quoted(
                    columns@[places@[k] as int].name@,
                ),
        decreases places@.len() - i,
    {
        names.push(quote_identifier(columns[places[i]].name.as_str()));
        i += 1;
    }
    assert(texts(names@) =~= place_names(columns@, places_view(places@)));
    names
}

fn list_marks(count: usize) -> (result: Vec<String>)
    ensures
        texts(result@) == marks(count as nat),
{
    let mut list: Vec<String> = Vec::new();
    let mut i: usize = 0;
    while i < count
        invariant
            i <= count,
            list@.len() == i,
            forall|k: int| 0 <= k < i ==> (#[trigger] list@[k])@ == "?"@,
        decreases count - i,
    {
        list.push("?".to_owned());
        i += 1;
    }
    assert(texts(list@) =~= marks(count as nat));
    list
}

fn list_documents(columns: &Vec<ColumnInfo>, places: &Vec<usize>) -> (result: Vec<usize>)
    requires
        forall|k: int| 0 <= k < places@.len() ==> #[trigger] places@[k] < columns@.len(),
    ensures
        places_view(result@) == document_places(columns@, places_view(places@)),
        forall|k: int| 0 <= k < result@.len() ==> #[trigger] result@[k] < columns@.len(),
{
    let ghost all = places_view(places@);
    let mut found: Vec<usize> = Vec::new();
    let mut i: usize = 0;
    assert(all.take(0) =~= Seq::empty());
    assert(places_view(found@) =~= Seq::empty());
    while i < places.len()
        invariant
            i <= places@.len(),
            all == places_view(places@),
            forall|k: int| 0 <= k < places@.len() ==> #[trigger] places@[k] < columns@.len(),
            forall|k: int| 0 <= k < found@.len() ==> #[trigger] found@[k] < columns@.len(),
            places_view(found@) == document_places(columns@, all.take(i as int)),
        decreases places@.len() - i,
    {
        assert(all.take(i + 1).drop_last() =~= all.take(i as int));
        assert(all.take(i + 1).last() == places@[i as int]);
        if same(columns[places[i]].data_type.as_str(), "json") {
            let ghost before = places_view(found@);
            found.push(places[i]);
            assert(places_view(found@) =~= before.push(places@[i as int] as int));
        }
        i += 1;
    }
    assert(all.take(i as int) =~= all);
    found
}

/// Writes the query of a batch.
pub fn write_scan_query(table: &ScanTable, continued: bool) -> (result: String)
    requires
        table.fits(),
    ensures
        result@ == scan_query(*table, continued),
{
    let columns = &table.columns;
    let places = select(&table.scope, columns);
    let keys = list_names(columns, &table.keys);
    let documents = list_documents(columns, &places);
    let ghost read = column_expressions(columns@, table.selection());
    let ghost named = place_names(columns@, table.key_selection());
    let ghost checked = round_trip_expressions(columns@, table.documents());
    let mut expressions: Vec<String> = Vec::new();
    let mut i: usize = 0;
    while i < places.len()
        invariant
            i <= places@.len(),
            places_view(places@) == table.selection(),
            read == column_expressions(columns@, table.selection()),
            columns@ == table.columns@,
            forall|k: int| 0 <= k < places@.len() ==> #[trigger] places@[k] < columns@.len(),
            expressions@.len() == i,
            forall|k: int| 0 <= k < i ==> (#[trigger] expressions@[k])@ == read[k],
        decreases places@.len() - i,
    {
        assert(table.selection()[i as int] == places@[i as int]);
        expressions.push(write_expression(&columns[places[i]]));
        i += 1;
    }
    assert(places_view(places@).len() == places@.len());
    assert(texts(expressions@) =~= read);
    let mut i: usize = 0;
    assert(named.take(0) =~= Seq::empty());
    assert(read + named.take(0) =~= read);
    while i < keys.len()
        invariant
            i <= keys@.len(),
            texts(keys@) == named,
            texts(expressions@) == read + named.take(i as int),
        decreases keys@.len() - i,
    {
        let ghost before = texts(expressions@);
        assert(named[i as int] == keys@[i as int]@);
        expressions.push(keys[i].clone());
        assert(texts(expressions@) =~= before.push(keys@[i as int]@));
        assert(texts(expressions@) =~= read + named.take(i + 1));
        i += 1;
    }
    assert(texts(keys@).len() == keys@.len());
    assert(named.take(i as int) =~= named);
    let mut i: usize = 0;
    assert(read + named + checked.take(0) =~= read + named);
    while i < documents.len()
        invariant
            i <= documents@.len(),
            columns@ == table.columns@,
            places_view(documents@) == table.documents(),
            checked == round_trip_expressions(columns@, table.documents()),
            forall|k: int| 0 <= k < documents@.len() ==> #[trigger] documents@[k] < columns@.len(),
            texts(expressions@) == read + named + checked.take(i as int),
        decreases documents@.len() - i,
    {
        let ghost before = texts(expressions@);
        assert(table.documents()[i as int] == documents@[i as int]);
        let check = write_round_trip(&columns[documents[i]]);
        assert(check@ == checked[i as int]);
        expressions.push(check);
        assert(texts(expressions@) =~= before.push(check@));
        assert(texts(expressions@) =~= read + named + checked.take(i + 1));
        i += 1;
    }
    assert(places_view(documents@).len() == documents@.len());
    assert(checked.take(i as int) =~= checked);
    let listed = join_texts(&expressions, ",");
    let name = qualified_table(table.scope.schema.as_str(), table.scope.table.as_str());
    let order = join_texts(&keys, ",");
    let condition = if continued {
        let list = list_marks(keys.len());
        let marked = join_texts(&list, ",");
        concat5(" WHERE (", order.as_str(), ") > (", marked.as_str(), ")")
    } else {
        "".to_owned()
    };
    let head = concat5("SELECT ", listed.as_str(), " FROM ", name.as_str(), condition.as_str());
    concat4(head.as_str(), " ORDER BY ", order.as_str(), " LIMIT 256")
}

// ---------------------------------------------------------------------------
// The rows of a batch
// ---------------------------------------------------------------------------

/// What a value counts for in the size of a batch.
pub open spec fn value_size(value: SqlValue) -> nat {
    match value {
        SqlValue::Bytes(bytes) => bytes@.len(),
        _ => 32,
    }
}

pub open spec fn values_size(values: Seq<SqlValue>) -> nat
    decreases values.len(),
{
    if values.len() == 0 {
        0
    } else {
        values_size(values.drop_last()) + value_size(values.last())
    }
}

/// The document survives as text.
pub open spec fn confirmed(value: SqlValue) -> bool {
    value == SqlValue::Int(1) || value == SqlValue::UInt(1)
}

fn is_confirmed(value: &SqlValue) -> (result: bool)
    ensures
        result == confirmed(*value),
{
    match value {
        SqlValue::Int(number) => *number == 1,
        SqlValue::UInt(number) => *number == 1,
        _ => false,
    }
}

/// What is wrong with a value of a column.
pub open spec fn snapshot_value_fault(value: SqlValue, info: ColumnInfo) -> Option<CaptureFault> {
    if info.data_type@ == "json"@ {
        match value {
            SqlValue::Bytes(bytes) => match json_read(bytes@) {
                Ok(_) => None,
                Err(message) => Some(other(message)),
            },
            _ => Some(other("invalid snapshot JSON representation"@)),
        }
    } else {
        value_fault(value, info)
    }
}

/// The value is what a column value is decoded to.
pub open spec fn snapshot_value(value: LogicalValue, wire: SqlValue, info: ColumnInfo) -> bool {
    if info.data_type@ == "json"@ {
        value matches LogicalValue::Json { value } && wire matches SqlValue::Bytes(bytes)
            && json_read(bytes@) matches Ok(document) && value.doc() == column_doc(document)
    } else {
        decoded_value(value, wire, info)
    }
}

fn decode_value(value: &SqlValue, info: &ColumnInfo) -> (result: Result<LogicalValue, CaptureError>)
    requires
        labels_agree(*info),
    ensures
        match result {
            Ok(decoded) => snapshot_value_fault(*value, *info) is None && snapshot_value(
                decoded,
                *value,
                *info,
            ),
            Err(error) => snapshot_value_fault(*value, *info) == Some(error.fault()),
        },
{
    if same(info.data_type.as_str(), "json") {
        return match value {
            SqlValue::Bytes(bytes) => match read_json(bytes) {
                Ok(document) => Ok(LogicalValue::Json { value: column_value(&document) }),
                Err(message) => Err(CaptureError::other(message.as_str())),
            },
            _ => Err(CaptureError::other("invalid snapshot JSON representation")),
        };
    }
    decode_mysql_value(value, info)
}

/// What is wrong with the columns of a row from `from` on.
pub open spec fn row_values_fault(
    columns: Seq<ColumnInfo>,
    places: Seq<int>,
    values: Seq<SqlValue>,
    from: int,
) -> Option<CaptureFault>
    decreases places.len() - from,
{
    if from < 0 || from >= places.len() {
        None
    } else if values[from] is Null {
        row_values_fault(columns, places, values, from + 1)
    } else {
        match snapshot_value_fault(values[from], columns[places[from]]) {
            Some(fault) => Some(fault),
            None => row_values_fault(columns, places, values, from + 1),
        }
    }
}

/// What is wrong with a row, given the size of the batch before it.
pub open spec fn batch_row_fault(table: ScanTable, bytes: nat, values: Seq<SqlValue>) -> Option<
    CaptureFault,
> {
    let key_end = table.selection().len() + table.key_selection().len();
    if bytes + values_size(values) > MAX_BATCH_BYTES {
        Some(other("snapshot batch exceeds 16 MiB limit; no data committed"@))
    } else if exists|i: int| key_end <= i < values.len() && !confirmed(#[trigger] values[i]) {
        Some(
            other(
                "snapshot JSON contains a value that cannot round-trip through JSON text; refusing lossy conversion"@,
            ),
        )
    } else {
        row_values_fault(table.columns@, table.selection(), values, 0)
    }
}

/// The column is what a value at some place is decoded to.
pub open spec fn snapshot_column(
    column: ColumnDatum,
    place: int,
    value: SqlValue,
    columns: Seq<ColumnInfo>,
) -> bool {
    let info = columns[place];
    &&& column.ordinal == place
    &&& column.name@ == info.name@
    &&& column.native_type@ == info.native_type@
    &&& column.primary_key_ordinal == info.primary_key_ordinal
    &&& column.generated == info.generated
    &&& text_of(column.collation) == text_of(info.collation)
    &&& if value is Null {
        column.datum is Null
    } else {
        column.datum matches Datum::Value(decoded) && snapshot_value(decoded, value, info)
    }
}

/// The columns are what a row is decoded to.
pub open spec fn snapshot_row(row: Seq<ColumnDatum>, table: ScanTable, values: Seq<SqlValue>) -> bool {
    &&& row.len() == table.selection().len()
    &&& forall|i: int|
        0 <= i < row.len() ==> snapshot_column(
            #[trigger] row[i],
            table.selection()[i],
            values[i],
            table.columns@,
        )
}

/// The rows of a batch so far, and where the next batch begins.
#[derive(Debug)]
pub struct BatchRows {
    pub rows: Vec<Vec<ColumnDatum>>,
    pub bytes: usize,
    /// The key of the last row.
    pub last_key: Vec<SqlValue>,
}

/// What values hold.
pub open spec fn wire_view(values: Seq<SqlValue>) -> Seq<
    crate::mysql_source_contract::wire::Bound,
> {
    Seq::new(values.len(), |i: int| values[i]@)
}

fn measure(values: &Vec<SqlValue>, bytes: usize) -> (result: Option<usize>)
    requires
        bytes <= MAX_BATCH_BYTES,
    ensures
        match result {
            Some(total) => total == bytes + values_size(values@) && total <= MAX_BATCH_BYTES,
            None => bytes + values_size(values@) > MAX_BATCH_BYTES,
        },
{
    let mut total: usize = bytes;
    let mut i: usize = 0;
    assert(values@.take(0) =~= Seq::empty());
    while i < values.len()
        invariant
            i <= values@.len(),
            bytes <= MAX_BATCH_BYTES,
            total == bytes + values_size(values@.take(i as int)),
            total <= MAX_BATCH_BYTES,
        decreases values@.len() - i,
    {
        assert(values@.take(i + 1).drop_last() =~= values@.take(i as int));
        assert(values@.take(i + 1).last() == values@[i as int]);
        let size: usize = match &values[i] {
            SqlValue::Bytes(content) => content.len(),
            _ => 32,
        };
        if size > MAX_BATCH_BYTES - total {
            proof {
                lemma_values_size_grows(values@, i + 1);
            }
            return None;
        }
        total = total + size;
        i += 1;
    }
    assert(values@.take(i as int) =~= values@);
    Some(total)
}

proof fn lemma_values_size_grows(values: Seq<SqlValue>, n: int)
    requires
        0 <= n <= values.len(),
    ensures
        values_size(values.take(n)) <= values_size(values),
    decreases values.len() - n,
{
    if n < values.len() {
        assert(values.take(n + 1).drop_last() =~= values.take(n));
        lemma_values_size_grows(values, n + 1);
    } else {
        assert(values.take(n) =~= values);
    }
}

fn are_confirmed(values: &Vec<SqlValue>, from: usize) -> (result: bool)
    requires
        from <= values@.len(),
    ensures
        result == !(exists|i: int| from <= i < values@.len() && !confirmed(#[trigger] values@[i])),
{
    let mut i: usize = from;
    while i < values.len()
        invariant
            from <= i <= values@.len(),
            forall|k: int| from <= k < i ==> confirmed(#[trigger] values@[k]),
        decreases values@.len() - i,
    {
        if !is_confirmed(&values[i]) {
            return false;
        }
        i += 1;
    }
    true
}

fn copy_key(values: &Vec<SqlValue>, from: usize, to: usize) -> (result: Vec<SqlValue>)
    requires
        from <= to <= values@.len(),
    ensures
        wire_view(result@) == wire_view(values@.subrange(from as int, to as int)),
{
    let mut key: Vec<SqlValue> = Vec::new();
    let mut i: usize = from;
    while i < to
        invariant
            from <= i <= to <= values@.len(),
            key@.len() == i - from,
            forall|k: int| 0 <= k < i - from ==> (#[trigger] key@[k])@ == values@[from + k]@,
        decreases to - i,
    {
        key.push(values[i].clone());
        i += 1;
    }
    assert(wire_view(key@) =~= wire_view(values@.subrange(from as int, to as int)));
    key
}

fn decode_columns(table: &ScanTable, places: &Vec<usize>, values: &Vec<SqlValue>) -> (result: Result<
    Vec<ColumnDatum>,
    CaptureError,
>)
    requires
        table.fits(),
        places_view(places@) == table.selection(),
        forall|k: int| 0 <= k < places@.len() ==> #[trigger] places@[k] < table.columns@.len(),
        places@.len() <= values@.len(),
    ensures
        match result {
            Ok(row) => row_values_fault(table.columns@, table.selection(), values@, 0) is None
                && snapshot_row(row@, *table, values@),
            Err(error) => row_values_fault(table.columns@, table.selection(), values@, 0) == Some(
                error.fault(),
            ),
        },
{
    let ghost all = table.selection();
    let columns = &table.columns;
    let mut row: Vec<ColumnDatum> = Vec::new();
    let mut i: usize = 0;
    while i < places.len()
        invariant
            i <= places@.len() <= values@.len(),
            table.fits(),
            columns@ == table.columns@,
            all == table.selection(),
            places_view(places@) == all,
            forall|k: int| 0 <= k < places@.len() ==> #[trigger] places@[k] < columns@.len(),
            row@.len() == i,
            row_values_fault(columns@, all, values@, 0) == row_values_fault(
                columns@,
                all,
                values@,
                i as int,
            ),
            forall|k: int|
                0 <= k < i ==> snapshot_column(#[trigger] row@[k], all[k], values@[k], columns@),
        decreases places@.len() - i,
    {
        assert(all.len() == places@.len());
        assert(all[i as int] == places@[i as int]);
        let info = &columns[places[i]];
        proof {
            lemma_selection_is_selected(table.scope, columns@, i as int);
        }
        let datum = match &values[i] {
            SqlValue::Null => Datum::Null,
            value => match decode_value(value, info) {
                Ok(value) => Datum::Value(value),
                Err(error) => return Err(error),
            },
        };
        let collation = match &info.collation {
            Some(collation) => Some(collation.clone()),
            None => None,
        };
        row.push(
            ColumnDatum {
                ordinal: places[i],
                name: info.name.clone(),
                native_type: info.native_type.clone(),
                primary_key_ordinal: info.primary_key_ordinal,
                generated: info.generated,
                collation,
                datum,
            },
        );
        i += 1;
    }
    assert(places_view(places@).len() == places@.len());
    Ok(row)
}

impl BatchRows {
    /// A batch without rows, behind a key.
    pub fn new(last_key: Vec<SqlValue>) -> (result: Self)
        ensures
            result.rows@.len() == 0,
            result.bytes == 0,
            result.last_key == last_key,
    {
        Self { rows: Vec::new(), bytes: 0, last_key }
    }

    /// Adds a row: the columns that are read, the key, and what was said of
    /// each document.
    pub fn add(&mut self, table: &ScanTable, values: &Vec<SqlValue>) -> (result: Result<
        (),
        CaptureError,
    >)
        requires
            table.fits(),
            old(self).bytes <= MAX_BATCH_BYTES,
            values@.len() >= table.selection().len() + table.key_selection().len(),
        ensures
            capture_fault(result) == batch_row_fault(*table, old(self).bytes as nat, values@),
            final(self).bytes <= MAX_BATCH_BYTES,
            result is Ok ==> {
                &&& final(self).rows@.len() == old(self).rows@.len() + 1
                &&& final(self).rows@.drop_last() == old(self).rows@
                &&& snapshot_row(final(self).rows@.last()@, *table, values@)
                &&& final(self).bytes == old(self).bytes + values_size(values@)
                &&& wire_view(final(self).last_key@) == wire_view(
                    values@.subrange(
                        table.selection().len() as int,
                        (table.selection().len() + table.key_selection().len()) as int,
                    ),
                )
            },
            result is Err ==> final(self).rows@ == old(self).rows@,
    {
        let places = select(&table.scope, &table.columns);
        assert(places_view(places@).len() == places@.len());
        assert(places_view(table.keys@).len() == table.keys@.len());
        let total: usize = match measure(values, self.bytes) {
            Some(total) => total,
            None => return Err(
                CaptureError::other("snapshot batch exceeds 16 MiB limit; no data committed"),
            ),
        };
        let width: usize = values.len();
        assert(places@.len() + table.keys@.len() <= width);
        let key_end: usize = places.len() + table.keys.len();
        self.bytes = total;
        if !are_confirmed(values, key_end) {
            return Err(
                CaptureError::other(
                    "snapshot JSON contains a value that cannot round-trip through JSON text; refusing lossy conversion",
                ),
            );
        }
        self.last_key = copy_key(values, places.len(), key_end);
        match decode_columns(table, &places, values) {
            Ok(row) => {
                let ghost before = self.rows@;
                self.rows.push(row);
                assert(self.rows@.drop_last() =~= before);
                Ok(())
            },
            Err(error) => Err(error),
        }
    }
}

// ---------------------------------------------------------------------------
// The reader
// ---------------------------------------------------------------------------

/// Reads the tables of a snapshot, one after the other.
#[derive(Debug)]
pub struct SnapshotReader {
    pub boundary: SnapshotBoundary,
    pub tables: Vec<ScanTable>,
    pub table_index: usize,
    pub last_key: Vec<SqlValue>,
    pub ended: bool,
}

impl SnapshotReader {
    pub open spec fn fits(&self) -> bool {
        &&& self.table_index <= self.tables@.len()
        &&& forall|i: int| 0 <= i < self.tables@.len() ==> (#[trigger] self.tables@[i]).fits()
    }

    pub fn new(boundary: SnapshotBoundary, tables: Vec<ScanTable>) -> (result: Self)
        requires
            forall|i: int| 0 <= i < tables@.len() ==> (#[trigger] tables@[i]).fits(),
        ensures
            result.fits(),
            result.boundary == boundary,
            result.tables == tables,
            result.table_index == 0,
            result.last_key@.len() == 0,
            !result.ended,
    {
        Self { boundary, tables, table_index: 0, last_key: Vec::new(), ended: false }
    }

    /// Where the snapshot was taken.
    pub fn boundary(&self) -> (result: &SnapshotBoundary)
        ensures
            *result == self.boundary,
    {
        &self.boundary
    }

    /// The table that the next batch is read from.
    pub fn current(&self) -> (result: Option<&ScanTable>)
        requires
            self.fits(),
        ensures
            match result {
                Some(table) => !self.ended && self.table_index < self.tables@.len() && *table
                    == self.tables@[self.table_index as int],
                None => self.ended || self.table_index == self.tables@.len(),
            },
    {
        if self.ended || self.table_index == self.tables.len() {
            return None;
        }
        Some(&self.tables[self.table_index])
    }

    /// An error ends the reading.
    pub fn fail(&mut self)
        ensures
            *final(self) == (SnapshotReader { ended: true, ..*old(self) }),
    {
        self.ended = true;
    }

    /// Ends a batch. A batch that is not full is the last of its table, also an
    /// empty one; the next one then begins the next table.
    pub fn finish_batch(&mut self, batch: BatchRows) -> (result: SnapshotBatch)
        requires
            old(self).fits(),
            old(self).table_index < old(self).tables@.len(),
        ensures
            result.source.doc() == old(self).boundary.source.doc(),
            result.schema@ == old(self).tables@[old(self).table_index as int].scope.schema@,
            result.table@ == old(self).tables@[old(self).table_index as int].scope.table@,
            result.rows == batch.rows,
            result.last_in_table == (batch.rows@.len() < BATCH_ROWS),
            final(self).fits(),
            *final(self) == (SnapshotReader {
                table_index: final(self).table_index,
                last_key: final(self).last_key,
                ..*old(self)
            }),
            if result.last_in_table {
                final(self).table_index == old(self).table_index + 1 && final(self).last_key@.len()
                    == 0
            } else {
                final(self).table_index == old(self).table_index && final(self).last_key
                    == batch.last_key
            },
    {
        let count: usize = self.tables.len();
        assert(self.table_index < count);
        let table = &self.tables[self.table_index];
        let schema = table.scope.schema.clone();
        let name = table.scope.table.clone();
        let source = self.boundary.source.clone();
        let last_in_table = batch.rows.len() < BATCH_ROWS;
        if last_in_table {
            self.table_index = self.table_index + 1;
            self.last_key = Vec::new();
        } else {
            self.last_key = batch.last_key;
        }
        SnapshotBatch { source, schema, table: name, rows: batch.rows, last_in_table }
    }
}

// ---------------------------------------------------------------------------
// What a scan reads
// ---------------------------------------------------------------------------

/// These are the places below `count` that are wanted, from left to right.
pub open spec fn lists_wanted(places: Seq<int>, count: int, wanted: spec_fn(int) -> bool) -> bool {
    &&& forall|i: int|
        0 <= i < places.len() ==> 0 <= #[trigger] places[i] < count && wanted(places[i])
    &&& forall|i: int, j: int|
        #![trigger places[i], places[j]]
        0 <= i < j < places.len() ==> places[i] < places[j]
    &&& forall|k: int| 0 <= k < count && #[trigger] wanted(k) ==> places.contains(k)
}

/// These are the places of the key columns, by their rank in the key and, where
/// that is the same, from left to right.
pub open spec fn lists_key(columns: Seq<ColumnInfo>, count: int, places: Seq<int>) -> bool {
    &&& forall|i: int|
        0 <= i < places.len() ==> 0 <= #[trigger] places[i] < count
            && columns[places[i]].primary_key_ordinal is Some
    &&& forall|i: int, j: int|
        #![trigger places[i], places[j]]
        0 <= i < j < places.len() ==> {
            let first = columns[places[i]].primary_key_ordinal->0;
            let later = columns[places[j]].primary_key_ordinal->0;
            first < later || first == later && places[i] < places[j]
        }
    &&& forall|k: int|
        0 <= k < count && (#[trigger] columns[k]).primary_key_ordinal is Some ==> places.contains(k)
}

proof fn lemma_one_list(a: Seq<int>, b: Seq<int>, count: int, wanted: spec_fn(int) -> bool)
    requires
        lists_wanted(a, count, wanted),
        lists_wanted(b, count, wanted),
    ensures
        a == b,
    decreases a.len(),
{
    if a.len() == 0 {
        if b.len() > 0 {
            assert(wanted(b[0]));
            assert(a.contains(b[0]));
        }
        assert(a =~= b);
    } else {
        assert(wanted(a[a.len() - 1]));
        assert(b.contains(a[a.len() - 1]));
        assert(wanted(b[b.len() - 1]));
        assert(a.contains(b[b.len() - 1]));
        let x = choose|x: int| 0 <= x < b.len() && b[x] == a[a.len() - 1];
        let y = choose|y: int| 0 <= y < a.len() && a[y] == b[b.len() - 1];
        let last = a[a.len() - 1];
        if x < b.len() - 1 {
            assert(b[x] < b[b.len() - 1]);
            if y < a.len() - 1 {
                assert(a[y] < a[a.len() - 1]);
            }
        }
        assert(b[b.len() - 1] == last);
        let below = |k: int| wanted(k) && k < last;
        lemma_list_front(a, count, wanted, below);
        lemma_list_front(b, count, wanted, below);
        lemma_one_list(a.drop_last(), b.drop_last(), count, below);
        assert(a =~= a.drop_last().push(last));
        assert(b =~= b.drop_last().push(last));
    }
}

proof fn lemma_list_front(
    places: Seq<int>,
    count: int,
    wanted: spec_fn(int) -> bool,
    below: spec_fn(int) -> bool,
)
    requires
        places.len() > 0,
        lists_wanted(places, count, wanted),
        forall|k: int| #[trigger] below(k) <==> wanted(k) && k < places[places.len() - 1],
    ensures
        lists_wanted(places.drop_last(), count, below),
{
    let front = places.drop_last();
    assert forall|i: int| 0 <= i < front.len() implies 0 <= #[trigger] front[i] < count && below(
        front[i],
    ) by {
        assert(front[i] == places[i] && places[i] < places[places.len() - 1]);
    }
    assert forall|k: int| 0 <= k < count && #[trigger] below(k) implies front.contains(k) by {
        assert(wanted(k));
        let x = choose|x: int| 0 <= x < places.len() && places[x] == k;
        assert(front[x] == k);
    }
}

proof fn lemma_selection_lists(scope: SnapshotTable, columns: Seq<ColumnInfo>)
    ensures
        lists_wanted(
            selection(scope, columns),
            columns.len() as int,
            |k: int| selected(scope, columns[k]),
        ),
    decreases columns.len(),
{
    let places = selection(scope, columns);
    let wanted = |k: int| selected(scope, columns[k]);
    if columns.len() > 0 {
        let front = columns.drop_last();
        let before = selection(scope, front);
        let wanted_before = |k: int| selected(scope, front[k]);
        lemma_selection_lists(scope, front);
        assert forall|i: int| 0 <= i < places.len() implies 0 <= #[trigger] places[i]
            < columns.len() && wanted(places[i]) by {
            if i < before.len() {
                assert(places[i] == before[i] && wanted_before(before[i]));
            }
        }
        assert forall|i: int, j: int|
            #![trigger places[i], places[j]]
            0 <= i < j < places.len() implies places[i] < places[j] by {
            assert(places[i] == before[i]);
            if j < before.len() {
                assert(places[j] == before[j]);
            }
        }
        assert forall|k: int| 0 <= k < columns.len() && #[trigger] wanted(k) implies places.contains(
            k,
        ) by {
            if k < columns.len() - 1 {
                assert(wanted_before(k));
                let x = choose|x: int| 0 <= x < before.len() && before[x] == k;
                assert(places[x] == k);
            } else {
                assert(places[places.len() - 1] == k);
            }
        }
    }
}

proof fn lemma_documents_list(columns: Seq<ColumnInfo>, places: Seq<int>, count: int)
    requires
        forall|i: int| 0 <= i < places.len() ==> 0 <= #[trigger] places[i] < count,
        forall|i: int, j: int|
            #![trigger places[i], places[j]]
            0 <= i < j < places.len() ==> places[i] < places[j],
    ensures
        lists_wanted(
            document_places(columns, places),
            count,
            |k: int| places.contains(k) && columns[k].data_type@ == "json"@,
        ),
    decreases places.len(),
{
    let found = document_places(columns, places);
    let wanted = |k: int| places.contains(k) && columns[k].data_type@ == "json"@;
    if places.len() > 0 {
        let front = places.drop_last();
        let before = document_places(columns, front);
        let wanted_before = |k: int| front.contains(k) && columns[k].data_type@ == "json"@;
        assert forall|i: int| 0 <= i < front.len() implies 0 <= #[trigger] front[i] < count by {
            assert(front[i] == places[i]);
        }
        lemma_documents_list(columns, front, count);
        assert(places[places.len() - 1] == places.last());
        assert forall|k: int| #[trigger] front.contains(k) implies places.contains(k) && k
            < places.last() by {
            let x = choose|x: int| 0 <= x < front.len() && front[x] == k;
            assert(places[x] == k);
        }
        assert forall|i: int| 0 <= i < found.len() implies 0 <= #[trigger] found[i] < count
            && wanted(found[i]) by {
            if i < before.len() {
                assert(found[i] == before[i] && wanted_before(before[i]));
            }
        }
        assert forall|i: int, j: int|
            #![trigger found[i], found[j]]
            0 <= i < j < found.len() implies found[i] < found[j] by {
            assert(found[i] == before[i] && wanted_before(before[i]));
            if j < before.len() {
                assert(found[j] == before[j]);
            }
        }
        assert forall|k: int| 0 <= k < count && #[trigger] wanted(k) implies found.contains(k) by {
            let x = choose|x: int| 0 <= x < places.len() && places[x] == k;
            if x < front.len() {
                assert(front[x] == k);
                assert(wanted_before(k));
                let y = choose|y: int| 0 <= y < before.len() && before[y] == k;
                assert(found[y] == k);
            } else {
                assert(found[found.len() - 1] == k);
            }
        }
    }
}

proof fn lemma_key_places(columns: Seq<ColumnInfo>, count: int, places: Seq<int>)
    requires
        0 <= count <= columns.len(),
        lists_key(columns, count, places),
    ensures
        key_places(columns, count) == places,
    decreases count,
{
    if count == 0 {
        if places.len() > 0 {
            assert(0 <= places[0] < count);
        }
        assert(key_places(columns, count) =~= places);
    } else {
        let last = count - 1;
        if places.contains(last) {
            let at = choose|at: int| 0 <= at < places.len() && places[at] == last;
            let left = places.remove(at);
            assert forall|i: int| 0 <= i < left.len() implies 0 <= #[trigger] left[i] < last
                && columns[left[i]].primary_key_ordinal is Some by {
                let j = if i < at {
                    i
                } else {
                    i + 1
                };
                assert(left[i] == places[j]);
                if j < at {
                    assert(places[j] != places[at]);
                } else {
                    assert(places[at] != places[j]);
                }
            }
            assert forall|i: int, j: int|
                #![trigger left[i], left[j]]
                0 <= i < j < left.len() implies {
                let first = columns[left[i]].primary_key_ordinal->0;
                let later = columns[left[j]].primary_key_ordinal->0;
                first < later || first == later && left[i] < left[j]
            } by {
                let x = if i < at {
                    i
                } else {
                    i + 1
                };
                let y = if j < at {
                    j
                } else {
                    j + 1
                };
                assert(left[i] == places[x] && left[j] == places[y]);
            }
            assert forall|k: int|
                0 <= k < last && (#[trigger] columns[k]).primary_key_ordinal is Some implies left.contains(
            k) by {
                let x = choose|x: int| 0 <= x < places.len() && places[x] == k;
                if x < at {
                    assert(left[x] == k);
                } else {
                    assert(left[x - 1] == k);
                }
            }
            lemma_key_places(columns, last, left);
            assert forall|i: int| at <= i < left.len() implies key_rank(columns, #[trigger] left[i])
                > key_rank(columns, last) by {
                assert(left[i] == places[i + 1] && places[at] == last);
            }
            if at > 0 {
                assert(left[at - 1] == places[at - 1] && places[at] == last);
            }
            lemma_with_place(columns, left, last, at);
            assert(left.insert(at, last) =~= places);
        } else {
            assert forall|i: int| 0 <= i < places.len() implies 0 <= #[trigger] places[i] < last
                && columns[places[i]].primary_key_ordinal is Some by {
                assert(places.contains(places[i]));
            }
            assert(columns[last].primary_key_ordinal is None);
            lemma_key_places(columns, last, places);
        }
    }
}

/// A batch reads the columns of the selection, from left to right, the key, and
/// for each document whether it survives as text. Its rows come in the order of
/// the key, and a batch that continues another takes the rows whose key lies
/// behind the last one, by all columns of the key.
pub proof fn law_a_scan_goes_along_the_key(
    table: ScanTable,
    continued: bool,
    read: Seq<int>,
    keys: Seq<int>,
    documents: Seq<int>,
)
    requires
        lists_wanted(
            read,
            table.columns@.len() as int,
            |k: int|
                table.scope.columns@.len() == 0 || texts(table.scope.columns@).contains(
                    table.columns@[k].name@,
                ),
        ),
        lists_key(table.columns@, table.columns@.len() as int, keys),
        lists_wanted(
            documents,
            table.columns@.len() as int,
            |k: int| read.contains(k) && table.columns@[k].data_type@ == "json"@,
        ),
    ensures
        scan_query(table, continued) == "SELECT "@ + join(
            Seq::new(
                read.len(),
                |i: int|
                    {
                        let name = quoted(table.columns@[read[i]].name@);
                        if table.columns@[read[i]].data_type@ == "timestamp"@ {
                            "CAST(UNIX_TIMESTAMP("@ + name + ") AS CHAR)"@
                        } else if table.columns@[read[i]].data_type@ == "year"@ {
                            "CAST("@ + name + " AS CHAR)"@
                        } else {
                            name
                        }
                    },
            ) + Seq::new(keys.len(), |i: int| quoted(table.columns@[keys[i]].name@)) + Seq::new(
                documents.len(),
                |i: int|
                    {
                        let name = quoted(table.columns@[documents[i]].name@);
                        "("@ + name + " IS NULL OR "@ + name + "=CAST(CAST("@ + name
                            + " AS CHAR CHARACTER SET utf8mb4) AS JSON))"@
                    },
            ),
            ","@,
        ) + " FROM "@ + table_name(table.scope.schema@, table.scope.table@) + (if continued {
            " WHERE ("@ + join(
                Seq::new(keys.len(), |i: int| quoted(table.columns@[keys[i]].name@)),
                ","@,
            ) + ") > ("@ + join(Seq::new(keys.len(), |i: int| "?"@), ","@) + ")"@
        } else {
            ""@
        }) + " ORDER BY "@ + join(
            Seq::new(keys.len(), |i: int| quoted(table.columns@[keys[i]].name@)),
            ","@,
        ) + " LIMIT 256"@,
        table.selection() == read,
        table.key_selection() == keys,
        table.documents() == documents,
{
    let columns = table.columns@;
    let count = columns.len() as int;
    lemma_selection_lists(table.scope, columns);
    let own = |k: int| selected(table.scope, columns[k]);
    assert forall|k: int| #[trigger] own(k) == (table.scope.columns@.len() == 0 || texts(
        table.scope.columns@,
    ).contains(columns[k].name@)) by {}
    assert(lists_wanted(read, count, own)) by {
        let given = |k: int|
            table.scope.columns@.len() == 0 || texts(table.scope.columns@).contains(
                columns[k].name@,
            );
        assert(lists_wanted(read, count, given));
        assert forall|i: int| 0 <= i < read.len() implies 0 <= #[trigger] read[i] < count && own(
            read[i],
        ) by {
            assert(given(read[i]));
        }
        assert forall|k: int| 0 <= k < count && #[trigger] own(k) implies read.contains(k) by {
            assert(given(k));
        }
    }
    lemma_one_list(table.selection(), read, count, own);
    lemma_key_places(columns, count, keys);
    lemma_documents_list(columns, read, count);
    lemma_one_list(
        document_places(columns, read),
        documents,
        count,
        |k: int| read.contains(k) && columns[k].data_type@ == "json"@,
    );
    assert(column_expressions(columns, read) =~= Seq::new(
        read.len(),
        |i: int|
            {
                let name = quoted(columns[read[i]].name@);
                if columns[read[i]].data_type@ == "timestamp"@ {
                    "CAST(UNIX_TIMESTAMP("@ + name + ") AS CHAR)"@
                } else if columns[read[i]].data_type@ == "year"@ {
                    "CAST("@ + name + " AS CHAR)"@
                } else {
                    name
                }
            },
    ));
    assert(place_names(columns, keys) =~= Seq::new(
        keys.len(),
        |i: int| quoted(columns[keys[i]].name@),
    ));
    assert(round_trip_expressions(columns, documents) =~= Seq::new(
        documents.len(),
        |i: int|
            {
                let name = quoted(columns[documents[i]].name@);
                "("@ + name + " IS NULL OR "@ + name + "=CAST(CAST("@ + name
                    + " AS CHAR CHARACTER SET utf8mb4) AS JSON))"@
            },
    ));
    assert(marks(keys.len()) =~= Seq::new(keys.len(), |i: int| "?"@));
}

/// A snapshot is taken exactly of one or more tables, each named, none twice, and
/// none in the schema of the control data.
pub proof fn law_exactly_the_named_tables_are_in_scope(tables: Seq<SnapshotTable>)
    ensures
        snapshot_scope_fault(tables) is None <==> {
            &&& tables.len() > 0
            &&& forall|i: int|
                0 <= i < tables.len() ==> {
                    &&& (#[trigger] tables[i]).schema@.len() > 0 && tables[i].table@.len() > 0
                    &&& lower(tables[i].schema@) != lower("CDC"@)
                }
            &&& forall|i: int, j: int|
                #![trigger tables[i], tables[j]]
                0 <= i < j < tables.len() ==> tables[i].schema@ != tables[j].schema@
                    || tables[i].table@ != tables[j].table@
        },
{
}

proof fn lemma_declarations(columns: Seq<ColumnInfo>, from: int)
    requires
        0 <= from <= columns.len(),
        declarations_fault(columns, from) is None,
    ensures
        forall|i: int|
            from <= i < columns.len() ==> native_fault((#[trigger] columns[i]).native_type@) is None,
    decreases columns.len() - from,
{
    if from < columns.len() {
        lemma_declarations(columns, from + 1);
    }
}

proof fn lemma_place_kept(columns: Seq<ColumnInfo>, places: Seq<int>, place: int, other: int)
    ensures
        with_place(columns, places, place).contains(other) <==> other == place || places.contains(
            other,
        ),
    decreases places.len(),
{
    let next = with_place(columns, places, place);
    if places.len() == 0 || key_rank(columns, places.last()) <= key_rank(columns, place) {
        assert(next[next.len() - 1] == place);
        if places.contains(other) {
            let k = choose|k: int| 0 <= k < places.len() && places[k] == other;
            assert(next[k] == other);
        }
    } else {
        let shorter = places.drop_last();
        let before = with_place(columns, shorter, place);
        lemma_place_kept(columns, shorter, place, other);
        assert(next[next.len() - 1] == places.last());
        if before.contains(other) {
            let k = choose|k: int| 0 <= k < before.len() && before[k] == other;
            assert(next[k] == other);
        }
        if next.contains(other) {
            let k = choose|k: int| 0 <= k < next.len() && next[k] == other;
            if k < before.len() {
                assert(before[k] == other);
            }
        }
        if shorter.contains(other) {
            let k = choose|k: int| 0 <= k < shorter.len() && shorter[k] == other;
            assert(places[k] == other);
        }
        if places.contains(other) {
            let k = choose|k: int| 0 <= k < places.len() && places[k] == other;
            if k < shorter.len() {
                assert(shorter[k] == other);
            }
        }
    }
}

proof fn lemma_key_place(columns: Seq<ColumnInfo>, count: int, place: int)
    requires
        0 <= count <= columns.len(),
    ensures
        key_places(columns, count).contains(place) <==> 0 <= place < count
            && columns[place].primary_key_ordinal is Some,
    decreases count,
{
    if count > 0 {
        lemma_key_place(columns, count - 1, place);
        if columns[count - 1].primary_key_ordinal is Some {
            lemma_place_kept(columns, key_places(columns, count - 1), count - 1, place);
        }
    }
}

/// A table that is scanned takes part in transactions, has a key, all of whose
/// columns are selected, has every column that was asked for, and has only types
/// that are declared; what is selected of it holds no labels.
pub proof fn law_a_scanned_table_is_read_by_its_key(
    scope: SnapshotTable,
    engine: Option<Seq<char>>,
    columns: Seq<ColumnInfo>,
)
    requires
        scan_fault(scope, engine, columns) is None,
    ensures
        engine == Some("InnoDB"@),
        exists|i: int| 0 <= i < columns.len() && (#[trigger] columns[i]).primary_key_ordinal is Some,
        forall|i: int|
            0 <= i < columns.len() && (#[trigger] columns[i]).primary_key_ordinal is Some
                && scope.columns@.len() > 0 ==> texts(scope.columns@).contains(columns[i].name@),
        forall|k: int|
            0 <= k < scope.columns@.len() ==> exists|i: int|
                0 <= i < columns.len() && (#[trigger] columns[i]).name@ == (
                #[trigger] scope.columns@[k])@,
        forall|i: int|
            0 <= i < columns.len() ==> native_fault((#[trigger] columns[i]).native_type@) is None,
        without_labels(scope, columns),
{
    let keys = key_places(columns, columns.len() as int);
    lemma_declarations(columns, 0);
    lemma_types_without_labels(scope, columns, 0);
    lemma_key_place(columns, columns.len() as int, keys[0]);
    assert(keys.contains(keys[0]));
    assert forall|i: int|
        0 <= i < columns.len() && (#[trigger] columns[i]).primary_key_ordinal is Some
            && scope.columns@.len() > 0 implies texts(scope.columns@).contains(columns[i].name@) by {
        lemma_key_place(columns, columns.len() as int, i);
        let k = choose|k: int| 0 <= k < keys.len() && keys[k] == i;
        assert(selected(scope, columns[keys[k]]));
    }
    assert forall|k: int| 0 <= k < scope.columns@.len() implies exists|i: int|
        0 <= i < columns.len() && (#[trigger] columns[i]).name@ == (#[trigger] scope.columns@[k])@ by {
        assert(has_column(columns, scope.columns@[k]@));
    }
}

} // verus!
