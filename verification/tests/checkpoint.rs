//! Replication progress: positions, ownership, recovery and snapshots.
use base64::engine::general_purpose::URL_SAFE_NO_PAD;
use base64::Engine as _;
use cdc_contract::change_event::failure::CommitResolution;
use cdc_contract::change_event::model::{ChangeTransaction, Source, SourceCursor};
use cdc_contract::change_event::snapshot::{SnapshotBatch, SnapshotTable};
use cdc_contract::mysql_5_7::snapshot::snapshot_boundary;
use cdc_contract::mysql_8_0::checkpoint::{
    check_binding, check_control_table, check_identity, check_migration, check_ownership,
    check_single_gtid, check_sink, same_checkpoint, CheckpointWriter, ReplicationCheckpoint, SnapshotCopy,
};
use cdc_contract::mysql_8_0::position::{
    compare_checkpoint_position, compare_position, file_position,
};
use cdc_contract::mysql_source_contract::cursor::binlog_cursor;
use std::cmp::Ordering;

const SOURCE: &str = "430c326c-ab91-11f1-a23b-0242ac160004";
const SINK: &str = "530c326c-ab91-11f1-a23b-0242ac160004";
const BINDING: &str = "0123456789abcdef0123456789abcdef0123456789abcdef0123456789abcdef";

fn saved(mode: &str, gtid_set: Option<&str>) -> ReplicationCheckpoint {
    ReplicationCheckpoint {
        task_id: "task-1".into(),
        source_uuid: SOURCE.into(),
        sink_uuid: SINK.into(),
        binding: BINDING.into(),
        mode: mode.into(),
        file: "bin.000001".into(),
        position: 100,
        gtid_set: gtid_set.map(str::to_owned),
        last_transaction_id: None,
        revision: 3,
        applied_transactions: 1,
        applied_rows: 5,
        phase: "incremental".into(),
        snapshot_rows: 0,
        snapshot_gtids: None,
    }
}

fn writer(checkpoint: Option<ReplicationCheckpoint>) -> CheckpointWriter {
    CheckpointWriter::open("task-1", SOURCE, SINK, BINDING, checkpoint).unwrap()
}

fn filtered(id: &str, position: u32) -> ChangeTransaction {
    ChangeTransaction {
        source: Source { kind: "mysql".into(), version: "5.7.44".into(), id: SOURCE.into() },
        id: id.into(),
        begin_cursor: binlog_cursor("bin.000001", position),
        commit_cursor: binlog_cursor("bin.000001", position),
        changes: vec![],
    }
}

fn lsn(value: &str) -> SourceCursor {
    SourceCursor { format: "postgresql.lsn.v1".into(), value: value.into(), display: value.into() }
}

#[test]
fn a_task_is_named_before_anything_is_opened() {
    check_identity("task-1", SOURCE, BINDING).unwrap();
    for (task, source, binding) in [
        ("", SOURCE, BINDING),
        ("task 1", SOURCE, BINDING),
        ("task-1", "", BINDING),
        ("task-1", "\u{e9}", BINDING),
        ("task-1", SOURCE, "0123"),
        ("task-1", SOURCE, &BINDING.replace('a', "g")),
    ] {
        assert_eq!(
            check_identity(task, source, binding).unwrap_err().message(),
            "invalid task identity or configuration binding"
        );
    }
    check_identity(&"t".repeat(128), SOURCE, BINDING).unwrap();
    assert!(check_identity(&"t".repeat(129), SOURCE, BINDING).is_err());
    check_sink(SINK, SOURCE).unwrap();
    assert_eq!(
        check_sink(SOURCE, SOURCE).unwrap_err().message(),
        "source and sink must be different MySQL instances"
    );
    check_ownership(Some(1)).unwrap();
    assert_eq!(
        check_ownership(Some(0)).unwrap_err().message(),
        "task is already owned by another writer"
    );
    check_migration(Some(1)).unwrap();
    assert_eq!(check_migration(None).unwrap_err().message(), "CDC schema migration is busy");
    check_control_table(Some("InnoDB"), &vec!["task_id".into()]).unwrap();
    assert_eq!(
        check_control_table(Some("MyISAM"), &vec!["task_id".into()]).unwrap_err().message(),
        "CDC.log_info must use InnoDB"
    );
    assert_eq!(
        check_control_table(Some("InnoDB"), &vec!["task_id".into(), "x".into()])
            .unwrap_err()
            .message(),
        "CDC.log_info requires PRIMARY KEY(task_id)"
    );
}

#[test]
fn a_saved_checkpoint_belongs_to_its_task() {
    let complaint = |checkpoint: &ReplicationCheckpoint| {
        check_binding(checkpoint, SOURCE, SINK, BINDING).unwrap_err().message().to_owned()
    };
    check_binding(&saved("binlog", None), SOURCE, SINK, BINDING).unwrap();
    let mut other = saved("binlog", None);
    other.sink_uuid = "x".into();
    assert_eq!(
        complaint(&other),
        "saved checkpoint belongs to a different source, sink or task configuration"
    );
    let mut phase = saved("binlog", None);
    phase.phase = "done".into();
    assert_eq!(complaint(&phase), "invalid checkpoint phase");
    let mut position = saved("binlog", None);
    position.position = 3;
    assert_eq!(complaint(&position), "invalid binlog file or position");
    assert_eq!(complaint(&saved("gtid", None)), "invalid saved checkpoint mode");
    assert_eq!(complaint(&saved("binlog", Some(""))), "invalid saved checkpoint mode");
    assert_eq!(complaint(&saved("other", None)), "invalid saved checkpoint mode");
    assert!(CheckpointWriter::open("task-1", SOURCE, SINK, BINDING, Some(saved("gtid", None)))
        .is_err());
    assert!(same_checkpoint(&saved("gtid", Some("a")), &saved("gtid", Some("a"))));
    assert!(!same_checkpoint(&saved("gtid", Some("a")), &saved("gtid", Some("b"))));
}

#[test]
fn positions_are_read_from_cursors() {
    let (file, position) = file_position(&binlog_cursor("bin.000001", 200)).unwrap();
    assert_eq!((file.as_str(), position), ("bin.000001", 200));
    let (file, position) = file_position(&lsn("16/B374D848")).unwrap();
    assert_eq!((file.as_str(), position), ("16/B374D848", 0x16_b374_d848));
    let complaint =
        |cursor: SourceCursor| file_position(&cursor).unwrap_err().message().to_owned();
    assert_eq!(complaint(lsn("16")), "invalid PostgreSQL LSN");
    assert_eq!(complaint(lsn("0/100000000")), "invalid PostgreSQL LSN");
    assert_eq!(
        complaint(SourceCursor { format: "x".into(), ..lsn("0/0") }),
        "unsupported source cursor"
    );
    assert_eq!(complaint(binlog_cursor("bin/1", 200)), "invalid binlog file or position");
    assert_eq!(complaint(binlog_cursor("bin.1", 3)), "invalid binlog file or position");
}

#[test]
fn history_is_compared_by_its_own_rule() {
    assert_eq!(
        compare_checkpoint_position(Some("postgresql_lsn"), "0/10", 16, "0/F", 15).unwrap(),
        Ordering::Greater
    );
    assert_eq!(
        compare_checkpoint_position(Some("postgresql_lsn"), "0/10", 17, "0/F", 15)
            .unwrap_err()
            .message(),
        "PostgreSQL LSN and checkpoint position disagree"
    );
    assert_eq!(
        compare_checkpoint_position(None, "bin.2", 4, "bin.10", 4).unwrap(),
        Ordering::Less
    );
    assert_eq!(compare_position("bin", 4, "bin", 4).unwrap(), Ordering::Equal);
    assert_eq!(
        compare_position("bin", 4, "bim", 4).unwrap_err().message(),
        "cannot compare binlog files"
    );
    assert_eq!(
        compare_position("a.1", 4, "b.1", 4).unwrap_err().message(),
        "binlog history prefix changed"
    );
}

#[test]
fn an_applied_transaction_is_not_applied_again() {
    let before = saved("binlog", None);
    let mut writer = writer(Some(before.clone()));
    let (file, position) =
        writer.begin_apply(SOURCE, "anonymous:bin.000001:200", &binlog_cursor("bin.000001", 200)).unwrap();
    let decide = |writer: &CheckpointWriter, checkpoint: ReplicationCheckpoint| {
        writer.decide(
            &Some(checkpoint),
            Some("InnoDB"),
            "anonymous:bin.000001:200",
            &file,
            position,
            false,
        )
    };
    assert!(!decide(&writer, before.clone()).unwrap());
    let next =
        CheckpointWriter::apply(&before, &file, position, "anonymous:bin.000001:200", 2, None)
            .unwrap();
    assert_eq!(next.position, 200);
    assert_eq!(next.revision, 4);
    assert_eq!(next.applied_transactions, 2);
    assert_eq!(next.applied_rows, 7);
    assert_eq!(next.last_transaction_id.as_deref(), Some("anonymous:bin.000001:200"));
    writer.committed(next.clone());
    assert!(decide(&writer, next.clone()).unwrap());
    assert_eq!(
        decide(&writer, before).unwrap_err().message(),
        "checkpoint changed outside this writer"
    );
    let mut last = next;
    last.revision = u64::MAX;
    assert_eq!(
        CheckpointWriter::apply(&last, &file, position, "x", 0, None).unwrap_err().message(),
        "checkpoint revision overflow"
    );
}

#[test]
fn a_numbered_history_goes_by_its_set() {
    let checkpoint = saved("gtid", Some("430c326c-ab91-11f1-a23b-0242ac160004:1-4"));
    let writer = writer(Some(checkpoint.clone()));
    let decide = |id: &str, position: u64, included: bool| {
        writer.decide(
            &Some(checkpoint.clone()),
            Some("InnoDB"),
            id,
            "bin.000001",
            position,
            included,
        )
    };
    let id = "430c326c-ab91-11f1-a23b-0242ac160004:5";
    assert!(!decide(id, 200, false).unwrap());
    assert!(decide(id, 200, true).unwrap());
    assert_eq!(
        decide(id, 100, false).unwrap_err().message(),
        "GTID and binlog history disagree"
    );
    assert_eq!(decide("5", 200, false).unwrap_err().message(), "missing transaction GTID");
    assert_eq!(decide("a:0", 200, false).unwrap_err().message(), "invalid single transaction GTID");
    assert_eq!(
        decide("a:1,b:2", 200, false).unwrap_err().message(),
        "invalid single transaction GTID"
    );
    assert_eq!(
        writer.combine(&checkpoint, id).as_deref(),
        Some("430c326c-ab91-11f1-a23b-0242ac160004:1-4,430c326c-ab91-11f1-a23b-0242ac160004:5")
    );
    assert_eq!(writer.combine(&saved("binlog", None), id), None);
    assert_eq!(
        writer.decide(&None, Some("InnoDB"), id, "bin.000001", 200, false).unwrap_err().message(),
        "CDC.log_info checkpoint is missing; refusing a new baseline"
    );
    assert_eq!(
        writer
            .decide(&Some(checkpoint.clone()), None, id, "bin.000001", 200, false)
            .unwrap_err()
            .message(),
        "CDC.log_info is no longer InnoDB"
    );
}

#[test]
fn the_saved_set_is_asked_only_behind_every_other_check() {
    let numbered = saved("gtid", Some("a:1-4"));
    let asked = writer(Some(numbered.clone()));
    let asks = |checkpoint: &Option<ReplicationCheckpoint>, engine: Option<&str>, file: &str| {
        asked
            .asks_saved_set(checkpoint, engine, file, 200)
            .map_err(|error| error.message().to_owned())
    };
    assert_eq!(asks(&Some(numbered.clone()), Some("InnoDB"), "bin.000001"), Ok(true));
    assert_eq!(
        asks(&None, None, "bin.000001").unwrap_err(),
        "CDC.log_info checkpoint is missing; refusing a new baseline"
    );
    let mut other = numbered.clone();
    other.binding = "x".into();
    assert_eq!(
        asks(&Some(other.clone()), Some("MyISAM"), "bin.000001").unwrap_err(),
        "CDC.log_info is no longer InnoDB"
    );
    assert_eq!(
        asks(&Some(other), Some("InnoDB"), "bin.000001").unwrap_err(),
        "saved checkpoint belongs to a different source, sink or task configuration"
    );
    let mut moved = numbered.clone();
    moved.revision = 4;
    assert_eq!(
        asks(&Some(moved), Some("InnoDB"), "other.000001").unwrap_err(),
        "checkpoint changed outside this writer"
    );
    assert_eq!(
        asks(&Some(numbered.clone()), Some("InnoDB"), "other.000001").unwrap_err(),
        "binlog history prefix changed"
    );
    let plain = saved("binlog", None);
    assert!(!writer(Some(plain.clone()))
        .asks_saved_set(&Some(plain.clone()), Some("InnoDB"), "bin.000001", 200)
        .unwrap());
    check_single_gtid("a:5").unwrap();
    assert_eq!(check_single_gtid("5").unwrap_err().message(), "missing transaction GTID");
    assert_eq!(
        check_single_gtid("a:1,b:2").unwrap_err().message(),
        "invalid single transaction GTID"
    );

    let lost = |checkpoint: &Option<ReplicationCheckpoint>, id: &str, file: &str| {
        asked
            .lost_asks_saved_set(checkpoint, id, file, 200)
            .map_err(|error| error.message().to_owned())
    };
    assert_eq!(lost(&Some(numbered.clone()), "a:5", "bin.000001"), Ok(true));
    assert_eq!(lost(&Some(plain), "a:5", "bin.000001"), Ok(false));
    assert_eq!(lost(&None, "a:5", "bin.000001").unwrap_err(), "CDC.log_info checkpoint is missing");
    assert_eq!(
        lost(&Some(numbered.clone()), "a:5", "other.000001").unwrap_err(),
        "binlog history prefix changed"
    );
    let mut named = numbered;
    named.last_transaction_id = Some("a:5".into());
    assert_eq!(lost(&Some(named), "a:5", "other.000001"), Ok(false));
}

#[test]
fn a_transaction_is_refused_before_its_time() {
    let cursor = binlog_cursor("bin.000001", 200);
    assert_eq!(
        writer(None).begin_apply(SOURCE, "a:1", &cursor).unwrap_err().message(),
        "initialize checkpoint before apply"
    );
    assert_eq!(
        writer(None).begin_apply(SINK, "a:1", &cursor).unwrap_err().message(),
        "transaction source identity mismatch"
    );
    let mut copying = saved("binlog", None);
    copying.phase = "snapshot".into();
    assert_eq!(
        writer(Some(copying)).begin_apply(SOURCE, "a:1", &cursor).unwrap_err().message(),
        "snapshot is not committed yet"
    );
}

#[test]
fn filtered_transactions_become_durable_in_source_order() {
    let mut writer = writer(Some(saved("gtid", Some(""))));
    let first = writer.observe(&filtered("a:1", 150)).unwrap();
    assert_eq!(first.combined.as_deref(), Some("a:1"));
    writer.remember(first, Some("a:1".into()));
    let second = writer.observe(&filtered("a:2", 160)).unwrap();
    assert_eq!(second.combined.as_deref(), Some("a:1,a:2"));
    assert_eq!(
        writer.observe(&filtered("a:3", 150)).unwrap_err().message(),
        "filtered transactions must be observed in source order"
    );
    assert_eq!(
        writer
            .decide(
                &Some(saved("gtid", Some(""))),
                Some("InnoDB"),
                "a:4",
                "bin.000001",
                140,
                false,
            )
            .unwrap_err()
            .message(),
        "cannot commit ahead-of-cursor GTID observations"
    );
    assert_eq!(writer.combine(&saved("gtid", Some("")), "a:9").as_deref(), Some("a:1,a:9"));
    let (file, position) = writer.advance(&filtered("a:5", 170)).unwrap();
    assert_eq!((file.as_str(), position), ("bin.000001", 170));
}

#[test]
fn a_lost_acknowledgement_is_resolved_or_left_open() {
    let mut checkpoint = saved("binlog", None);
    checkpoint.last_transaction_id = Some("a:1".into());
    let writer = writer(Some(checkpoint.clone()));
    let lost = filtered("a:1", 100);
    let (file, position) = writer.lost_position(&lost).unwrap();
    let resolve = |id: &str, position: u64, included: bool| {
        writer
            .resolve_commit_unknown(&Some(checkpoint.clone()), id, &file, position, included)
            .unwrap()
    };
    assert_eq!(resolve("a:1", position, false), CommitResolution::Applied);
    assert_eq!(resolve("a:2", position, false), CommitResolution::Unprovable);
    assert_eq!(resolve("a:2", 99, false), CommitResolution::Applied);
    assert_eq!(resolve("a:2", 101, false), CommitResolution::NotApplied);
    assert_eq!(resolve("a:2", 101, true), CommitResolution::NotApplied);
    assert_eq!(
        writer.resolve_commit_unknown(&None, "a:1", &file, position, false).unwrap_err().message(),
        "CDC.log_info checkpoint is missing"
    );
    let mut nameless = filtered("", 100);
    assert_eq!(
        writer.lost_position(&nameless).unwrap_err().message(),
        "commit resolution source identity mismatch"
    );
    nameless.id = "a:1".into();
    nameless.source.id = SINK.into();
    assert!(writer.lost_position(&nameless).is_err());
}

#[test]
fn a_route_starts_once() {
    assert!(writer(None).initialize("binlog", "bin.1", 4, None).unwrap().is_none());
    assert_eq!(
        writer(None).initialize("gtid", "bin.1", 4, None).unwrap_err().message(),
        "checkpoint mode and GTID set disagree"
    );
    assert_eq!(
        writer(None).initialize("postgresql_lsn", "0/10", 4, None).unwrap_err().message(),
        "PostgreSQL LSN and checkpoint position disagree"
    );
    let existing = writer(Some(saved("binlog", None))).initialize("gtid", "", 0, None).unwrap();
    assert!(same_checkpoint(&existing.unwrap(), &saved("binlog", None)));
}

#[test]
fn a_snapshot_is_marked_copied_and_finished() {
    let boundary = snapshot_boundary("5.7.44".into(), SOURCE.into(), "gtid", "bin.1", 154, "a:1-2");
    let parts = writer(None).prepare_snapshot(&boundary).unwrap();
    assert_eq!(parts.position, 154);
    assert_eq!(CheckpointWriter::marked_set("gtid", "a:1-2").as_deref(), Some("a:1-2"));
    assert_eq!(CheckpointWriter::marked_set("binlog", "a:1-2"), None);
    assert_eq!(
        writer(Some(saved("binlog", None))).prepare_snapshot(&boundary).unwrap_err().message(),
        "incremental checkpoint cannot be replaced by a snapshot"
    );
    let mut marked = saved("gtid", Some("a:1-2"));
    marked.phase = "snapshot".into();
    let copying = writer(Some(marked.clone()));
    copying.check_unchanged(&Some(marked.clone())).unwrap();
    assert_eq!(
        copying.check_unchanged(&None).unwrap_err().message(),
        "snapshot checkpoint changed outside its owner"
    );
    assert_eq!(
        writer(None).copy_snapshot(&None, Some("InnoDB")).unwrap_err().message(),
        "snapshot was not prepared"
    );
    assert_eq!(writer(None).check_marked().unwrap_err().message(), "snapshot was not prepared");
    assert_eq!(
        writer(Some(saved("binlog", None))).check_marked().unwrap_err().message(),
        "snapshot phase required"
    );
    copying.check_marked().unwrap();
    copying.check_marker(&Some(marked.clone())).unwrap();
    assert_eq!(
        copying.check_marker(&None).unwrap_err().message(),
        "snapshot checkpoint changed"
    );
    assert_eq!(
        copying.copy_snapshot(&Some(marked.clone()), Some("MyISAM")).unwrap_err().message(),
        "CDC.log_info must use InnoDB"
    );
    let mut copy = copying.copy_snapshot(&Some(marked), Some("InnoDB")).unwrap();
    let tables = vec![SnapshotTable { schema: "s".into(), table: "t".into(), columns: vec![] }];
    let batch = |table: &str| SnapshotBatch {
        source: Source { kind: "mysql".into(), version: "5.7.44".into(), id: SOURCE.into() },
        schema: "s".into(),
        table: table.into(),
        rows: vec![],
        last_in_table: true,
    };
    assert_eq!(
        copy.accept(&tables, SOURCE, batch("other")).unwrap_err().message(),
        "snapshot batch identity/order mismatch"
    );
    assert_eq!(
        copy.finish(&tables).unwrap_err().message(),
        "snapshot stream ended before all tables completed"
    );
    let validated = copy.accept(&tables, SOURCE, batch("t")).unwrap();
    copy.wrote(validated.batch()).unwrap();
    assert_eq!(
        copy.accept(&tables, SOURCE, batch("t")).unwrap_err().message(),
        "unexpected extra snapshot table"
    );
    assert_eq!(copy.finish(&tables).unwrap(), 0);
    let full = SnapshotCopy { table_index: 1, row_count: 9 };
    assert_eq!(full.finish(&tables).unwrap(), 9);
}

#[test]
fn errors_of_positions_are_handed_on() {
    let complaint =
        |cursor: SourceCursor| file_position(&cursor).unwrap_err().message().to_owned();
    for text in ["", "+", "g", "10000000000000000", "10000000000000000g"] {
        let expected = u64::from_str_radix(text, 16).unwrap_err().to_string();
        assert_eq!(complaint(lsn(&format!("{text}/zz"))), expected);
        assert_eq!(complaint(lsn(&format!("0/{text}"))), expected);
        let order = compare_checkpoint_position(Some("postgresql_lsn"), &format!("0/{text}"), 0, "0/0", 0);
        assert_eq!(order.unwrap_err().message(), expected);
    }
    for number in ["", "x1", "18446744073709551616"] {
        let expected = number.parse::<u64>().unwrap_err().to_string();
        let file = format!("bin.{number}");
        assert_eq!(compare_position(&file, 4, "bin.1", 4).unwrap_err().message(), expected);
    }
    let cursor = |value: String| SourceCursor {
        value,
        ..binlog_cursor("bin.000001", 200)
    };
    assert_eq!(
        complaint(cursor("a!".into())),
        URL_SAFE_NO_PAD.decode("a!").unwrap_err().to_string()
    );
    let bytes = vec![0xff, 0, 0, 0, 0, 4];
    assert_eq!(
        complaint(cursor(URL_SAFE_NO_PAD.encode(&bytes))),
        String::from_utf8(vec![0xff]).unwrap_err().to_string()
    );
}
