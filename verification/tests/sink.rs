//! The MySQL 8.4 sink: statements, bound values and the run of a plan.
use cdc_contract::change_event::adapter::{SinkAdapter as _, SinkCompatibilityAdapter as _};
use cdc_contract::change_event::compatibility::types::ServerBuildIdentity;
use cdc_contract::change_event::compatibility::values::json_text::DoubleText;
use cdc_contract::change_event::failure::TargetApplyErrorKind;
use cdc_contract::change_event::model::{
    ChangeTransaction, ColumnDatum, Datum, JsonEntry, JsonValue, LogicalValue, Operation, RowChange,
    Source,
};
use cdc_contract::change_event::snapshot::{validate_snapshot, SnapshotBatch, SnapshotTable};
use cdc_contract::change_event::validate::{validate, ValidatedTransaction};
use cdc_contract::mysql_5_7::value::{decode_mysql_value, ColumnInfo};
use cdc_contract::mysql_8_4::adapter::{applied, capability_manifest, SinkAdapter, TargetConfig};
use cdc_contract::mysql_8_4::apply::{
    check_server, check_snapshot_insert, check_snapshot_scope, check_snapshot_target,
    classify_apply_error, commit_outcome_unknown, first_step, lock_query, next_step,
    snapshot_probe, ApplyFailure, IoFailure, Reply, SnapshotTarget, Step,
};
use cdc_contract::mysql_8_4::error::SqlErrorClass;
use cdc_contract::mysql_8_4::sql::{snapshot_sql, sql, SqlTransaction};
use cdc_contract::mysql_source_contract::cursor::binlog_cursor;
use cdc_contract::mysql_source_contract::identifier::{qualified_table, quote_identifier};
use cdc_contract::mysql_source_contract::wire::SqlValue;

const SOURCE: &str = "430c326c-ab91-11f1-a23b-0242ac160004";

fn integer(value: &str) -> LogicalValue {
    LogicalValue::Integer { signed: true, bits: 64, value: value.into() }
}

fn text(value: &str, encoded: &str) -> LogicalValue {
    LogicalValue::Text {
        charset: "utf8mb4".into(),
        bytes_base64url: encoded.into(),
        text: Some(value.into()),
    }
}

fn column(ordinal: usize, name: &str, key: Option<usize>, datum: Datum) -> ColumnDatum {
    ColumnDatum {
        ordinal,
        name: name.into(),
        native_type: "any".into(),
        primary_key_ordinal: key,
        generated: false,
        collation: None,
        datum,
    }
}

fn change(
    operation: Operation,
    before: Option<Vec<ColumnDatum>>,
    after: Option<Vec<ColumnDatum>>,
) -> RowChange {
    RowChange {
        database: None,
        operation,
        schema: "shop".into(),
        table: "it`ems".into(),
        source_cursor: binlog_cursor("binlog.000001", 150),
        source_timestamp: 0,
        schema_basis: "fixture".into(),
        before,
        after,
    }
}

fn transaction(changes: Vec<RowChange>) -> ValidatedTransaction {
    validate(ChangeTransaction {
        source: Source { kind: "mysql".into(), version: "5.7.44".into(), id: SOURCE.into() },
        id: format!("{SOURCE}:1"),
        begin_cursor: binlog_cursor("binlog.000001", 100),
        commit_cursor: binlog_cursor("binlog.000001", 200),
        changes,
    })
    .unwrap()
}

fn row(id: &str, name: Datum) -> Vec<ColumnDatum> {
    vec![
        column(0, "id", Some(0), Datum::Value(integer(id))),
        column(1, "name", None, name),
    ]
}

fn three_changes() -> ValidatedTransaction {
    let name = || Datum::Value(text("a", "YQ"));
    transaction(vec![
        change(Operation::Insert, None, Some(row("7", name()))),
        change(Operation::Update, Some(row("7", name())), Some(row("7", Datum::Null))),
        change(Operation::Delete, Some(row("7", Datum::Null)), None),
    ])
}

fn planned() -> SqlTransaction {
    sql(&three_changes(), &vec![]).unwrap()
}

/// What is bound for one value beside the key.
fn bound(value: LogicalValue, doubles: Vec<DoubleText>) -> Result<SqlValue, String> {
    let plan = sql(
        &transaction(vec![change(Operation::Insert, None, Some(row("7", Datum::Value(value))))]),
        &doubles,
    );
    match plan {
        Ok(plan) => Ok(plan.parameters()[0][1].clone()),
        Err(error) => Err(error.message()),
    }
}

// ---------------------------------------------------------------------------
// Statements
// ---------------------------------------------------------------------------

#[test]
fn each_change_has_one_statement_and_locators_go_by_the_key() {
    let plan = planned();
    assert_eq!(
        plan.statements(),
        [
            "INSERT INTO `shop`.`it``ems` (`id`, `name`) VALUES (?, ?);",
            "UPDATE `shop`.`it``ems` SET `id` = ?, `name` = ? WHERE `id` = ?;",
            "DELETE FROM `shop`.`it``ems` WHERE `id` = ?;",
        ]
    );
    assert!(matches!(
        plan.parameters()[1].as_slice(),
        [SqlValue::Int(7), SqlValue::Null, SqlValue::Int(7)]
    ));
    assert!(plan.planned_statements()[0].probe.is_none());
    let probe = plan.planned_statements()[2].probe.as_ref().unwrap();
    assert_eq!(
        probe.sql,
        "SELECT 1 FROM `shop`.`it``ems` WHERE `id` = ? LIMIT 2 FOR UPDATE"
    );
    assert_eq!(plan.tables().as_slice(), [("shop".to_owned(), "it`ems".to_owned())]);
    assert_eq!(plan.source_transaction_id(), format!("{SOURCE}:1"));
    assert_eq!(plan.source_uuid(), SOURCE);
    assert_eq!(*plan.commit_cursor(), binlog_cursor("binlog.000001", 200));
    assert_eq!(
        plan.script(),
        format!(
            "-- cdc transaction={SOURCE}:1 target=mysql-8.4\nSTART TRANSACTION;\n\
             INSERT INTO `shop`.`it``ems` (`id`, `name`) VALUES (?, ?);\n\
             UPDATE `shop`.`it``ems` SET `id` = ?, `name` = ? WHERE `id` = ?;\n\
             DELETE FROM `shop`.`it``ems` WHERE `id` = ?;\nCOMMIT;\n"
        )
    );
    let result = applied(&plan);
    assert_eq!(result.statements_executed, 3);
    assert_eq!(result.source_transaction_id, format!("{SOURCE}:1"));
}

#[test]
fn text_keys_are_located_by_their_bytes_and_in_key_order() {
    let before = vec![
        column(0, "b", Some(1), Datum::Value(integer("2"))),
        column(1, "a", Some(0), Datum::Value(text("a", "YQ"))),
    ];
    let plan =
        sql(&transaction(vec![change(Operation::Delete, Some(before), None)]), &vec![]).unwrap();
    assert_eq!(
        plan.statements()[0],
        "DELETE FROM `shop`.`it``ems` WHERE CAST(`a` AS BINARY) = CAST(? AS BINARY) AND `b` = ?;"
    );
    assert!(matches!(
        plan.parameters()[0].as_slice(),
        [SqlValue::Bytes(bytes), SqlValue::Int(2)] if bytes == b"a"
    ));
}

#[test]
fn identifiers_are_quoted_apart() {
    assert_eq!(quote_identifier("a`b"), "`a``b`");
    assert_eq!(qualified_table("s", "t"), "`s`.`t`");
    assert_ne!(qualified_table("a`.`b", "c"), qualified_table("a", "b`.`c"));
}

#[test]
fn rows_without_a_key_are_refused() {
    let keyless = vec![column(0, "id", None, Datum::Value(integer("7")))];
    let error = sql(&transaction(vec![change(Operation::Insert, None, Some(keyless))]), &vec![])
        .unwrap_err();
    assert_eq!(error.class(), SqlErrorClass::Capability);
    assert!(error.message().contains("row has no primary key"));
    assert!(error.failure().is_some());
}

// ---------------------------------------------------------------------------
// Values
// ---------------------------------------------------------------------------

#[test]
fn values_are_bound_in_their_exact_form() {
    let is = |value: LogicalValue, expected: SqlValue| {
        assert_eq!(format!("{:?}", bound(value, vec![]).unwrap()), format!("{expected:?}"));
    };
    is(
        LogicalValue::Decimal { unscaled: "-5".into(), scale: 3 },
        SqlValue::Bytes(b"-0.005".to_vec()),
    );
    is(
        LogicalValue::Decimal { unscaled: "12345".into(), scale: 2 },
        SqlValue::Bytes(b"123.45".to_vec()),
    );
    is(
        LogicalValue::Float { bits: 64, ieee754_hex: "3ff8000000000000".into() },
        SqlValue::Double(1.5f64.to_bits()),
    );
    is(
        LogicalValue::Float { bits: 32, ieee754_hex: "3fc00000".into() },
        SqlValue::Float(1.5f32.to_bits()),
    );
    is(
        LogicalValue::Duration {
            negative: true,
            hours: 51,
            minutes: 4,
            seconds: 5,
            microsecond: 6,
        },
        SqlValue::Time(true, 2, 3, 4, 5, 6),
    );
    is(
        LogicalValue::Instant { unix_seconds: "1789347723".into(), nanoseconds: 123_456_000 },
        SqlValue::Date(2026, 9, 14, 1, 2, 3, 123_456),
    );
    is(
        LogicalValue::Instant { unix_seconds: "-1".into(), nanoseconds: 0 },
        SqlValue::Date(1969, 12, 31, 23, 59, 59, 0),
    );
    is(LogicalValue::Year { value: 2026 }, SqlValue::UInt(2026));
    is(
        LogicalValue::SetValue { members: vec!["b".into(), "a".into()] },
        SqlValue::Bytes(b"b,a".to_vec()),
    );
    is(
        LogicalValue::Binary { bytes_base64url: "AP8".into() },
        SqlValue::Bytes(vec![0, 255]),
    );
}

#[test]
fn values_without_a_form_at_the_target_are_refused() {
    let refused = |value: LogicalValue, reason: &str| {
        let message = bound(value, vec![]).unwrap_err();
        assert!(message.contains(reason), "{message}");
    };
    refused(
        LogicalValue::Float { bits: 64, ieee754_hex: "7ff0000000000000".into() },
        "MySQL does not preserve non-finite DOUBLE values",
    );
    refused(
        LogicalValue::Instant { unix_seconds: "0".into(), nanoseconds: 1 },
        "MySQL target supports TIMESTAMP precision only through microseconds",
    );
    refused(
        LogicalValue::Text {
            charset: "latin1".into(),
            bytes_base64url: "YQ".into(),
            text: Some("a".into()),
        },
        "text charset latin1 has no qualified MySQL mapping",
    );
    refused(
        LogicalValue::LocalTime { hour: 1, minute: 2, second: 3, microsecond: 0 },
        "MySQL 8.4 has no qualified target representation for this structured value",
    );
    refused(
        LogicalValue::Decimal { unscaled: "1".repeat(66), scale: 0 },
        "DECIMAL precision exceeds the MySQL target capability",
    );
}

#[test]
fn documents_are_written_with_the_texts_of_their_doubles() {
    let entry = |key: &str, value: JsonValue| JsonEntry { key: key.into(), value };
    let document = JsonValue::Object(vec![
        entry("a\"", JsonValue::Array(vec![JsonValue::Null, JsonValue::Boolean(false)])),
        entry("d", JsonValue::DoubleBits("4000000000000000".into())),
        entry("z", JsonValue::DoubleBits("8000000000000000".into())),
        entry("n", JsonValue::Decimal { unscaled: "-15".into(), scale: 1 }),
        entry("s", JsonValue::String("x\n".into())),
        entry("i", JsonValue::SignedInteger("-1".into())),
    ]);
    let doubles = vec![
        DoubleText { bits: 2f64.to_bits(), text: 2f64.to_string() },
        DoubleText { bits: (-0f64).to_bits(), text: (-0f64).to_string() },
    ];
    assert!(matches!(
        bound(LogicalValue::Json { value: document }, doubles).unwrap(),
        SqlValue::Bytes(bytes) if bytes
            == b"{\"a\\\"\":[null,false],\"d\":2.0,\"z\":-0.0,\"n\":-1.5,\"s\":\"x\\n\",\"i\":-1}"
    ));
}

#[test]
fn captured_values_are_written_back() {
    let wires = [
        (SqlValue::Int(-7), "bigint", "bigint", SqlValue::Int(-7)),
        (SqlValue::Int(-1), "int unsigned", "int", SqlValue::UInt(4_294_967_295)),
        (SqlValue::Double(1.5f64.to_bits()), "double", "double", SqlValue::Double(1.5f64.to_bits())),
        (
            SqlValue::Date(2000, 2, 29, 23, 59, 59, 999_999),
            "timestamp(6)",
            "timestamp",
            SqlValue::Date(2000, 2, 29, 23, 59, 59, 999_999),
        ),
        (
            SqlValue::Time(true, 34, 22, 59, 59, 1),
            "time(6)",
            "time",
            SqlValue::Time(true, 34, 22, 59, 59, 1),
        ),
        (SqlValue::Bytes(vec![0, 255]), "blob", "blob", SqlValue::Bytes(vec![0, 255])),
        (
            SqlValue::Bytes(b"b,a".to_vec()),
            "set('a','b')",
            "set",
            SqlValue::Bytes(b"b,a".to_vec()),
        ),
        (
            SqlValue::Bytes(b"-12.30".to_vec()),
            "decimal(10,2)",
            "decimal",
            SqlValue::Bytes(b"-12.30".to_vec()),
        ),
        (
            SqlValue::Bytes(b"+.5".to_vec()),
            "decimal(10,1)",
            "decimal",
            SqlValue::Bytes(b"0.5".to_vec()),
        ),
        (SqlValue::Bytes(b"2024".to_vec()), "year(4)", "year", SqlValue::UInt(2024)),
        (
            SqlValue::Bytes(b"4102444799.5".to_vec()),
            "timestamp(1)",
            "timestamp",
            SqlValue::Date(2099, 12, 31, 23, 59, 59, 500_000),
        ),
    ];
    for (wire, native_type, data_type, expected) in wires {
        let info = ColumnInfo {
            name: "name".into(),
            native_type: native_type.into(),
            data_type: data_type.into(),
            charset: None,
            collation: None,
            generated: false,
            primary_key_ordinal: None,
        };
        let captured = decode_mysql_value(&wire, &info).unwrap();
        let written = bound(captured, vec![]).unwrap();
        assert_eq!(format!("{written:?}"), format!("{expected:?}"));
    }
}

// ---------------------------------------------------------------------------
// Running a plan
// ---------------------------------------------------------------------------

#[test]
fn a_plan_locks_checks_probes_and_commits() {
    let plan = planned();
    let mut step = first_step(&plan).unwrap();
    let mut steps = vec![step];
    while step != Step::Commit {
        let reply = match step {
            Step::Lock(_) => Reply::Locked,
            Step::ReadEngine(_) => Reply::Engine(Some("InnoDB".into())),
            Step::CountTriggers(_) => Reply::Count(0),
            Step::Probe(_) => Reply::Rows(1),
            Step::Execute(_) => Reply::Applied { warnings: 0, affected: 1 },
            Step::Commit => unreachable!(),
        };
        step = next_step(&plan, step, &reply).unwrap();
        steps.push(step);
    }
    assert_eq!(
        steps,
        [
            Step::Lock(0),
            Step::ReadEngine(0),
            Step::CountTriggers(0),
            Step::Execute(0),
            Step::Probe(1),
            Step::Execute(1),
            Step::Probe(2),
            Step::Execute(2),
            Step::Commit,
        ]
    );
    assert_eq!(lock_query("shop", "it`ems"), "SELECT * FROM `shop`.`it``ems` LIMIT 0");
}

#[test]
fn a_plan_stops_at_the_first_refusal() {
    let plan = planned();
    let refusal = |step: Step, reply: Reply| next_step(&plan, step, &reply).unwrap_err().message();
    assert!(refusal(Step::ReadEngine(0), Reply::Engine(None))
        .contains("atomic Sink writes require InnoDB business tables"));
    assert!(refusal(Step::CountTriggers(0), Reply::Count(1))
        .contains("Sink triggers require separate qualification; transaction rolled back"));
    assert_eq!(
        refusal(Step::Probe(1), Reply::Rows(2)),
        "row locator matched 2 rows; transaction rolled back"
    );
    assert_eq!(
        refusal(Step::Execute(0), Reply::Applied { warnings: 1, affected: 1 }),
        "target reported SQL warnings; transaction rolled back"
    );
    assert_eq!(
        refusal(Step::Execute(2), Reply::Applied { warnings: 0, affected: 0 }),
        "unexpected affected row count 0; transaction rolled back"
    );
    assert!(next_step(&plan, Step::Execute(1), &Reply::Applied { warnings: 0, affected: 0 }).is_ok());
}

#[test]
fn failures_are_told_apart_for_the_retry_decision() {
    let server = |code: u16| ApplyFailure::Driver { connectivity: false, server_code: Some(code) };
    for (failure, kind) in [
        (ApplyFailure::CommitUnknown, TargetApplyErrorKind::CommitUnknown),
        (ApplyFailure::Capability, TargetApplyErrorKind::Capability),
        (
            ApplyFailure::Driver { connectivity: true, server_code: None },
            TargetApplyErrorKind::Connection,
        ),
        (server(1205), TargetApplyErrorKind::LockTimeout),
        (server(1213), TargetApplyErrorKind::LockTimeout),
        (server(1062), TargetApplyErrorKind::Constraint),
        (server(1048), TargetApplyErrorKind::Constraint),
        (server(1064), TargetApplyErrorKind::Sql),
        (ApplyFailure::Io(IoFailure::BrokenPipe), TargetApplyErrorKind::Connection),
        (ApplyFailure::Io(IoFailure::Other), TargetApplyErrorKind::Sql),
    ] {
        assert_eq!(classify_apply_error(&failure), kind);
        assert_eq!(
            commit_outcome_unknown(&failure),
            kind == TargetApplyErrorKind::CommitUnknown
        );
    }
    check_server("8.4.8").unwrap();
    assert!(check_server("8.0.36")
        .unwrap_err()
        .message()
        .contains("mysql_8.4 cannot write target version 8.0.36"));
}

// ---------------------------------------------------------------------------
// Snapshots and the adapter
// ---------------------------------------------------------------------------

#[test]
fn snapshot_rows_are_inserted_one_by_one() {
    let batch = SnapshotBatch {
        source: Source { kind: "mysql".into(), version: "5.7.44".into(), id: SOURCE.into() },
        schema: "shop".into(),
        table: "items".into(),
        rows: vec![row("7", Datum::Null), row("8", Datum::Null)],
        last_in_table: true,
    };
    let mut reserved = batch.clone();
    reserved.schema = "cdc".into();
    let plan = snapshot_sql(&validate_snapshot(batch).unwrap(), &vec![]).unwrap();
    assert_eq!(
        plan.statements().as_slice(),
        [
            "INSERT INTO `shop`.`items` (`id`, `name`) VALUES (?, ?);",
            "INSERT INTO `shop`.`items` (`id`, `name`) VALUES (?, ?);",
        ]
    );
    assert!(matches!(plan.parameters()[1].as_slice(), [SqlValue::Int(8), SqlValue::Null]));
    assert!(snapshot_sql(&validate_snapshot(reserved).unwrap(), &vec![])
        .unwrap_err()
        .message()
        .contains("CDC is reserved"));
    check_snapshot_insert(0, 1).unwrap();
    assert_eq!(
        check_snapshot_insert(0, 2).unwrap_err().message(),
        "snapshot INSERT warnings or unexpected affected rows; rolling back"
    );
}

#[test]
fn snapshot_targets_are_empty_transactional_tables() {
    let table =
        SnapshotTable { schema: "shop".into(), table: "items".into(), columns: vec![] };
    assert_eq!(
        snapshot_probe(&table, true).unwrap(),
        "SELECT 1 FROM `shop`.`items` LIMIT 1 FOR UPDATE"
    );
    assert!(check_snapshot_scope(&vec![]).unwrap_err().message().contains("snapshot scope is empty"));
    let target = |present: bool, engine: &str, triggers: u64, foreign_keys: u64| SnapshotTarget {
        present,
        engine: Some(engine.into()),
        triggers,
        foreign_keys,
    };
    check_snapshot_target(&table, &target(false, "InnoDB", 0, 0)).unwrap();
    assert_eq!(
        check_snapshot_target(&table, &target(true, "InnoDB", 0, 0)).unwrap_err().class(),
        SqlErrorClass::Other
    );
    assert!(check_snapshot_target(&table, &target(false, "MyISAM", 0, 0))
        .unwrap_err()
        .message()
        .contains("snapshot targets require InnoDB"));
    assert!(check_snapshot_target(&table, &target(false, "InnoDB", 1, 0)).is_err());
    assert!(check_snapshot_target(&table, &target(false, "InnoDB", 0, 1)).is_err());
}

#[test]
fn the_adapter_plans_what_the_statements_say() {
    let adapter = SinkAdapter::new();
    let manifest = adapter.capability_manifest();
    assert_eq!(manifest, capability_manifest());
    assert_eq!(manifest.connector, "mysql_8_4");
    assert_eq!(manifest.target, "mysql-8.4");
    assert!(manifest.requires_primary_key);
    assert_eq!(manifest.supported_logical_types.len(), 16);
    let transaction = three_changes();
    adapter.qualify(&transaction).unwrap();
    assert_eq!(adapter.plan(&transaction).unwrap().script(), planned().script());
    let double = JsonValue::DoubleBits("4000000000000000".into());
    let document = self::transaction(vec![change(
        Operation::Insert,
        None,
        Some(row("7", Datum::Value(LogicalValue::Json { value: double }))),
    )]);
    assert!(adapter.plan(&document).is_err());
    let text = DoubleText { bits: 2f64.to_bits(), text: "2".into() };
    let plan = SinkAdapter::with_doubles(vec![text]).plan(&document).unwrap();
    assert!(matches!(&plan.parameters()[0][1], SqlValue::Bytes(bytes) if bytes == b"2.0"));
    let build = ServerBuildIdentity::new("mysql", "oracle", "8.4.8", "mysql-8.4.8");
    assert!(adapter.structured_capability_manifest(build).verify_digest());
    let config = TargetConfig::new("localhost", "writer", "");
    assert_eq!(config.port, 3306);
}
