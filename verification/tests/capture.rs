//! Capture from MySQL 5.7: the binary log, row values, positions and snapshots.
use cdc_contract::change_event::model::{
    BitOrder, BitPadding, Datum, JsonEntry, JsonValue, LogicalValue, Operation,
};
use cdc_contract::change_event::snapshot::SnapshotTable;
use cdc_contract::change_event::validate::validate;
use cdc_contract::mysql_5_7::binlog::{
    check_config, check_preflight, raw_log_head, reads_gtid_set, resolve_start, start_gtid_set,
    validate_change_event, BinlogConfig, BinlogPosition, BinlogStartMode, BinlogStream, RawEvent,
    RawLog, Turn,
};
use cdc_contract::mysql_5_7::decoder::{BinlogEvent, Decoder, EventHeader, EventRow};
use cdc_contract::mysql_5_7::error::CaptureErrorKind;
use cdc_contract::mysql_5_7::gtid::{is_bounded_set, parse_gtid_set};
use cdc_contract::mysql_5_7::json_value::{WireJson, WireMember};
use cdc_contract::mysql_5_7::row::{decode_row, RowCell, RowValue};
use cdc_contract::mysql_5_7::snapshot::{
    check_budget, check_lock_server, check_snapshot_scope, choose_snapshot_mode, plan_scan,
    snapshot_boundary, write_scan_query, BatchRows, SnapshotReader,
};
use cdc_contract::mysql_5_7::value::{decode_mysql_value, do_labels_agree, ColumnInfo};
use cdc_contract::mysql_source_contract::boundary::decode_snapshot_boundary;
use cdc_contract::mysql_source_contract::cursor::binlog_cursor;
use cdc_contract::mysql_source_contract::source::{validate_source, MysqlVersion};
use cdc_contract::mysql_source_contract::wire::SqlValue;

const SOURCE: &str = "430c326c-ab91-11f1-a23b-0242ac160004";

fn column(name: &str, native_type: &str, data_type: &str, key: Option<usize>) -> ColumnInfo {
    ColumnInfo {
        name: name.into(),
        native_type: native_type.into(),
        data_type: data_type.into(),
        charset: None,
        collation: None,
        generated: false,
        primary_key_ordinal: key,
    }
}

fn text_column(name: &str, native_type: &str, data_type: &str) -> ColumnInfo {
    ColumnInfo { charset: Some("utf8mb4".into()), ..column(name, native_type, data_type, None) }
}

fn decoded(value: SqlValue, native_type: &str, data_type: &str) -> LogicalValue {
    let info = column("c", native_type, data_type, None);
    assert!(do_labels_agree(&info));
    decode_mysql_value(&value, &info).unwrap()
}

fn refused(value: SqlValue, native_type: &str, data_type: &str) -> (CaptureErrorKind, String) {
    let info = column("c", native_type, data_type, None);
    let error = decode_mysql_value(&value, &info).unwrap_err();
    (error.kind(), error.message().to_owned())
}

fn bytes(text: &str) -> SqlValue {
    SqlValue::Bytes(text.as_bytes().to_vec())
}

fn cell(name: &str, value: SqlValue) -> RowCell {
    RowCell { name: name.into(), value: Some(RowValue::Value(value)) }
}

// ---------------------------------------------------------------------------
// Values
// ---------------------------------------------------------------------------

#[test]
fn unsigned_integers_are_read_back_from_their_signed_bytes() {
    assert_eq!(
        decoded(SqlValue::Int(-1), "int unsigned", "int"),
        LogicalValue::Integer { signed: false, bits: 32, value: "4294967295".into() }
    );
    assert_eq!(
        decoded(SqlValue::Int(-1), "mediumint(8) unsigned", "mediumint"),
        LogicalValue::Integer { signed: false, bits: 24, value: "16777215".into() }
    );
    assert_eq!(
        decoded(SqlValue::Int(-1), "bigint unsigned", "bigint"),
        LogicalValue::Integer { signed: false, bits: 64, value: "18446744073709551615".into() }
    );
    assert_eq!(
        decoded(SqlValue::Int(-128), "tinyint", "tinyint"),
        LogicalValue::Integer { signed: true, bits: 8, value: "-128".into() }
    );
    assert_eq!(
        decoded(SqlValue::UInt(40000), "smallint unsigned", "smallint"),
        LogicalValue::Integer { signed: false, bits: 16, value: "40000".into() }
    );
}

#[test]
fn decimals_floats_and_temporal_values_keep_every_digit() {
    assert_eq!(
        decoded(bytes("-12.340"), "decimal(8,3)", "decimal"),
        LogicalValue::Decimal { unscaled: "-12340".into(), scale: 3 }
    );
    assert_eq!(
        decoded(bytes("+7"), "decimal(8,0)", "decimal"),
        LogicalValue::Decimal { unscaled: "7".into(), scale: 0 }
    );
    assert_eq!(
        refused(bytes("1x"), "decimal(8,3)", "decimal"),
        (CaptureErrorKind::InvalidData, "invalid decimal value \"1x\"".to_owned())
    );
    assert_eq!(
        decoded(SqlValue::Double(1.5f64.to_bits()), "double", "double"),
        LogicalValue::Float { bits: 64, ieee754_hex: "3ff8000000000000".into() }
    );
    assert_eq!(
        decoded(SqlValue::Float(1.5f32.to_bits()), "float", "float"),
        LogicalValue::Float { bits: 32, ieee754_hex: "3fc00000".into() }
    );
    assert_eq!(
        decoded(SqlValue::Date(2026, 9, 14, 0, 0, 0, 0), "date", "date"),
        LogicalValue::Date { year: 2026, month: 9, day: 14 }
    );
    assert_eq!(
        decoded(SqlValue::Time(true, 2, 3, 4, 5, 6), "time(6)", "time"),
        LogicalValue::Duration {
            negative: true,
            hours: 51,
            minutes: 4,
            seconds: 5,
            microsecond: 6
        }
    );
    assert_eq!(
        decoded(bytes("1789347723.12"), "timestamp(2)", "timestamp"),
        LogicalValue::Instant { unix_seconds: "1789347723".into(), nanoseconds: 120_000_000 }
    );
    assert_eq!(
        refused(bytes("17.1234567"), "timestamp(6)", "timestamp").1,
        "invalid TIMESTAMP binlog value"
    );
    assert_eq!(
        refused(SqlValue::Date(2025, 2, 29, 0, 0, 0, 0), "timestamp", "timestamp").1,
        "invalid TIMESTAMP date value"
    );
    assert_eq!(
        decoded(SqlValue::Date(2000, 2, 29, 0, 0, 0, 0), "timestamp", "timestamp"),
        LogicalValue::Instant { unix_seconds: "951782400".into(), nanoseconds: 0 }
    );
    assert_eq!(decoded(bytes("2026"), "year(4)", "year"), LogicalValue::Year { value: 2026 });
    assert_eq!(
        refused(bytes("20x6"), "year(4)", "year").0,
        CaptureErrorKind::InvalidData
    );
}

#[test]
fn bytes_become_bits_binaries_or_texts_by_their_declaration() {
    assert_eq!(
        decoded(SqlValue::Bytes(vec![1, 2]), "bit(10)", "bit"),
        LogicalValue::BitString {
            bytes_base64url: "AQI".into(),
            bit_length: 10,
            padding: BitPadding::Zero,
            bit_order: BitOrder::MsbFirst,
        }
    );
    assert_eq!(
        decoded(SqlValue::Bytes(vec![255]), "bit(8)", "bit"),
        LogicalValue::BitString {
            bytes_base64url: "_w".into(),
            bit_length: 8,
            padding: BitPadding::NoPadding,
            bit_order: BitOrder::MsbFirst,
        }
    );
    assert_eq!(
        decoded(SqlValue::Bytes(vec![0, 255]), "varbinary(4)", "varbinary"),
        LogicalValue::Binary { bytes_base64url: "AP8".into() }
    );
    let text = text_column("t", "varchar(10)", "varchar");
    assert_eq!(
        decode_mysql_value(&bytes("h\u{e9}"), &text).unwrap(),
        LogicalValue::Text {
            charset: "utf8mb4".into(),
            bytes_base64url: "aMOp".into(),
            text: Some("h\u{e9}".into()),
        }
    );
    assert_eq!(
        decode_mysql_value(&SqlValue::Bytes(vec![255]), &text).unwrap(),
        LogicalValue::Text {
            charset: "utf8mb4".into(),
            bytes_base64url: "_w".into(),
            text: None,
        }
    );
    assert_eq!(
        decode_mysql_value(&SqlValue::Null, &text).unwrap_err().message(),
        "NULL must be represented by Datum::Null"
    );
}

#[test]
fn enumerations_refuse_ordinals_and_repeated_members() {
    assert_eq!(
        refused(SqlValue::Int(1), "enum('a','b')", "enum"),
        (
            CaptureErrorKind::InvalidData,
            "ENUM/SET binlog value is not label/member text; refusing ordinal conversion"
                .to_owned()
        )
    );
    assert_eq!(
        refused(bytes("a,a"), "set('a','b')", "set").1,
        "SET value contains an unknown or duplicate member"
    );
    assert_eq!(
        refused(bytes("c"), "enum('a','b')", "enum").1,
        "ENUM value is not one of the declared labels"
    );
    assert_eq!(
        decoded(bytes(""), "set('a','b')", "set"),
        LogicalValue::SetValue { members: vec![] }
    );
}

// ---------------------------------------------------------------------------
// Rows
// ---------------------------------------------------------------------------

fn member(key: &str, value: WireJson) -> WireMember {
    WireMember { key: key.into(), value }
}

#[test]
fn rows_have_every_column_and_keep_nested_documents() {
    let columns = vec![column("id", "bigint", "bigint", Some(0)), column("doc", "json", "json", None)];
    let document = WireJson::Object(vec![
        member("n", WireJson::Decimal("-1.50".into())),
        member("d", WireJson::Double((-0.25f64).to_bits())),
        member("l", WireJson::Array(vec![WireJson::Int(-1), WireJson::Uint(2), WireJson::Null])),
        member("b", WireJson::Boolean(true)),
        member("s", WireJson::String("x".into())),
    ]);
    let row = decode_row(
        &vec![
            cell("@0", SqlValue::Int(7)),
            RowCell { name: "@1".into(), value: Some(RowValue::Json(document)) },
        ],
        &columns,
    )
    .unwrap();
    assert_eq!(row.len(), 2);
    assert_eq!(row[1].ordinal, 1);
    assert_eq!(row[1].name, "doc");
    let entry = |key: &str, value: JsonValue| JsonEntry { key: key.into(), value };
    assert!(matches!(
        &row[1].datum,
        Datum::Value(LogicalValue::Json { value }) if *value == JsonValue::Object(vec![
            entry("n", JsonValue::Decimal { unscaled: "-150".into(), scale: 2 }),
            entry("d", JsonValue::DoubleBits("bfd0000000000000".into())),
            entry("l", JsonValue::Array(vec![
                JsonValue::SignedInteger("-1".into()),
                JsonValue::UnsignedInteger("2".into()),
                JsonValue::Null,
            ])),
            entry("b", JsonValue::Boolean(true)),
            entry("s", JsonValue::String("x".into())),
        ])
    ));

    let short = decode_row(&vec![cell("@0", SqlValue::Int(7))], &columns).unwrap_err();
    assert_eq!(
        short.message(),
        "row image is incomplete: decoded 1 columns, expected 2; binlog_row_image must be FULL"
    );
    let far = decode_row(
        &vec![cell("@0", SqlValue::Int(7)), cell("@9", SqlValue::Null)],
        &columns,
    )
    .unwrap_err();
    assert_eq!(far.message(), "row image column ordinal 9 is out of range");
    let partial = decode_row(
        &vec![
            cell("@0", SqlValue::Int(7)),
            RowCell { name: "@1".into(), value: Some(RowValue::PartialJson) },
        ],
        &columns,
    )
    .unwrap_err();
    assert_eq!(
        partial.message(),
        "partial JSON image cannot become a complete ChangeEvent row"
    );
    let opaque = decode_row(
        &vec![
            cell("@0", SqlValue::Int(7)),
            RowCell { name: "@1".into(), value: Some(RowValue::Json(WireJson::Other)) },
        ],
        &columns,
    )
    .unwrap_err();
    assert_eq!(
        opaque.message(),
        "JSON temporal/opaque scalar is unsupported; refusing lossy string conversion"
    );
    let consumed = decode_row(
        &vec![cell("@0", SqlValue::Int(7)), RowCell { name: "@1".into(), value: None }],
        &columns,
    )
    .unwrap_err();
    assert_eq!(consumed.message(), "row value was consumed before conversion");
}

// ---------------------------------------------------------------------------
// Events
// ---------------------------------------------------------------------------

fn at(log_pos: u32) -> EventHeader {
    EventHeader { event_type: 2, log_pos, timestamp: 1_700_000_000 }
}

fn decoder() -> Decoder {
    Decoder::new("binlog.000001".into(), "5.7.44-log".into(), SOURCE.into())
}

fn gtid() -> BinlogEvent {
    BinlogEvent::Gtid {
        sid: [
            0x43, 0x0c, 0x32, 0x6c, 0xab, 0x91, 0x11, 0xf1, 0xa2, 0x3b, 0x02, 0x42, 0xac, 0x16,
            0x00, 0x04,
        ],
        gno: 1,
    }
}

fn query(text: &str) -> BinlogEvent {
    BinlogEvent::Query { text: text.into() }
}

fn table_map() -> BinlogEvent {
    BinlogEvent::TableMap {
        table_id: 9,
        schema: "CDC_test".into(),
        table: "items".into(),
        columns_count: 1,
        columns: vec![column("id", "bigint", "bigint", Some(0))],
    }
}

fn insert() -> BinlogEvent {
    BinlogEvent::Rows {
        table_id: 9,
        operation: Operation::Insert,
        rows: vec![EventRow::Images {
            before: None,
            after: Some(vec![cell("@0", SqlValue::Int(7))]),
        }],
    }
}

#[test]
fn a_committed_transaction_is_published_whole() {
    let mut decoder = decoder();
    assert!(decoder.decode(at(100), gtid()).unwrap().is_none());
    assert!(decoder.decode(at(120), query("begin")).unwrap().is_none());
    assert!(decoder.decode(at(140), table_map()).unwrap().is_none());
    assert!(decoder.decode(at(160), insert()).unwrap().is_none());
    assert_eq!(
        decoder.ensure_complete().unwrap_err().message(),
        "stream ended inside a transaction; no partial transaction was emitted"
    );
    let transaction = decoder.decode(at(200), BinlogEvent::Xid).unwrap().unwrap();
    decoder.ensure_complete().unwrap();
    assert_eq!(transaction.id, "430c326c-ab91-11f1-a23b-0242ac160004:1");
    assert_eq!(transaction.source.kind, "mysql");
    assert_eq!(transaction.source.id, SOURCE);
    assert_eq!(transaction.begin_cursor.display, "binlog.000001:120");
    assert_eq!(transaction.commit_cursor, binlog_cursor("binlog.000001", 200));
    assert_eq!(transaction.changes.len(), 1);
    assert_eq!(transaction.changes[0].source_timestamp, 1_700_000_000);
    assert_eq!(transaction.changes[0].schema_basis, "information_schema_at_capture");

    let validated = validate(transaction).unwrap();
    validate_source(&validated, MysqlVersion::V57).unwrap();
    assert_eq!(
        validate_source(&validated, MysqlVersion::V80).unwrap_err().message(),
        "unexpected MySQL source version"
    );
    assert!(validate_change_event(validated.into_transaction()).is_ok());
}

#[test]
fn a_rolled_back_transaction_is_never_published() {
    let mut decoder = decoder();
    decoder.decode(at(100), gtid()).unwrap();
    decoder.decode(at(120), query("BEGIN")).unwrap();
    decoder.decode(at(140), table_map()).unwrap();
    decoder.decode(at(160), insert()).unwrap();
    assert!(decoder.decode(at(180), query("ROLLBACK")).unwrap().is_none());
    assert!(decoder.decode(at(200), BinlogEvent::Xid).unwrap().is_none());
    decoder.ensure_complete().unwrap();
}

#[test]
fn the_log_is_followed_strictly() {
    let message = |result: Result<_, cdc_contract::mysql_5_7::error::CaptureError>| {
        let result: Result<Option<cdc_contract::change_event::model::ChangeTransaction>, _> = result;
        result.unwrap_err().message().to_owned()
    };
    let mut started = decoder();
    started.decode(at(100), gtid()).unwrap();
    assert_eq!(
        message(started.decode(at(110), gtid())),
        "a new GTID arrived before the previous transaction committed"
    );
    assert_eq!(
        message(started.decode(at(110), BinlogEvent::Rotate { name: "binlog.000002".into() })),
        "binlog rotated with an uncommitted transaction in the buffer"
    );
    started.decode(at(120), table_map()).unwrap();
    assert_eq!(
        message(started.decode(at(130), insert())),
        "row event arrived before BEGIN; resume from a transaction boundary"
    );
    started.decode(at(140), query("BEGIN")).unwrap();
    assert_eq!(message(started.decode(at(150), query("BEGIN"))), "nested BEGIN in MySQL transaction");

    let mut idle = decoder();
    assert_eq!(
        message(idle.decode(at(100), insert())),
        "row event refers to unknown TABLE_MAP id 9"
    );
    idle.decode(at(110), table_map()).unwrap();
    assert_eq!(
        message(idle.decode(at(120), insert())),
        "row event arrived without a GTID/BEGIN; resume from a transaction boundary"
    );
    assert_eq!(
        message(idle.decode(at(130), BinlogEvent::Unknown)),
        "unknown binlog event; capture stopped"
    );
    for (event_type, expected) in [
        (
            0x28,
            "compressed binlog transactions are unsupported; transaction was not emitted",
        ),
        (
            0x27,
            "partial JSON updates are unsupported; require binlog_row_value_options=''",
        ),
        (0x26, "XA transactions are unsupported"),
        (0x2a, "tagged GTID requires mysql_8_4"),
    ] {
        let header = EventHeader { event_type, log_pos: 140, timestamp: 0 };
        assert_eq!(message(idle.decode(header, BinlogEvent::Ignored)), expected);
    }
    let mut committed = decoder();
    committed.decode(at(100), gtid()).unwrap();
    assert_eq!(message(committed.decode(at(110), BinlogEvent::Xid)), "commit without BEGIN");
}

#[test]
fn statements_stop_a_row_only_capture_but_not_the_control_schema() {
    let mut strict = decoder();
    assert!(strict.decode(at(100), query("DROP TABLE t")).is_err());
    assert!(strict
        .decode(at(120), query("create database if not exists CDC"))
        .unwrap()
        .is_none());
    let mut open = decoder().scoped(false, vec![]);
    assert!(open.decode(at(100), query("DROP TABLE t")).unwrap().is_none());
}

#[test]
fn tables_out_of_scope_leave_an_empty_projection() {
    let mut decoder = decoder().scoped(true, vec![("CDC_test".into(), "other".into())]);
    assert!(!decoder.captures("CDC_test", "items"));
    assert!(decoder.captures("CDC_test", "other"));
    decoder.decode(at(100), gtid()).unwrap();
    decoder.decode(at(120), query("BEGIN")).unwrap();
    decoder.decode(at(140), table_map()).unwrap();
    decoder.decode(at(160), insert()).unwrap();
    let transaction = decoder.decode(at(200), BinlogEvent::Xid).unwrap().unwrap();
    assert!(transaction.changes.is_empty());
}

#[test]
fn an_unnamed_transaction_is_named_by_its_place() {
    let mut decoder = decoder();
    decoder.decode(at(100), BinlogEvent::AnonymousGtid).unwrap();
    decoder.decode(at(120), query("BEGIN")).unwrap();
    decoder.decode(at(140), table_map()).unwrap();
    decoder.decode(at(160), insert()).unwrap();
    let transaction = decoder.decode(at(200), query(" commit ")).unwrap().unwrap();
    assert_eq!(transaction.id, "anonymous:binlog.000001:100");
}

#[test]
fn a_stream_ends_at_its_limit_and_between_transactions() {
    let mut stream = BinlogStream::new(decoder(), Some(1));
    assert!(matches!(stream.begin_turn(false), Turn::Read));
    assert!(stream.take_event(at(100), BinlogEvent::Ignored).unwrap().is_none());
    assert_eq!(stream.protocol_events(), 1);
    assert!(matches!(stream.begin_turn(false), Turn::End));
    assert!(matches!(stream.begin_turn(false), Turn::End));

    let mut cut = BinlogStream::new(decoder(), None);
    assert!(cut.take_event(at(100), gtid()).unwrap().is_none());
    assert!(matches!(
        cut.finish(),
        Turn::Fail(error) if error.message()
            == "stream ended inside a transaction; no partial transaction was emitted"
    ));
}

// ---------------------------------------------------------------------------
// Positions
// ---------------------------------------------------------------------------

#[test]
fn a_cursor_has_the_exact_published_encoding() {
    let cursor = binlog_cursor("binlog.000001", 200);
    assert_eq!(cursor.format, "mysql.binlog.file-position.v1");
    assert_eq!(cursor.value, "YmlubG9nLjAwMDAwMQAAAADI");
    assert_eq!(cursor.display, "binlog.000001:200");
}

#[test]
fn gtid_sets_give_their_sources_and_intervals() {
    let set = parse_gtid_set(
        " 430c326c-ab91-11f1-a23b-0242ac160004:1-10:20 , ,00000000-0000-0000-0000-000000000001:5",
    )
    .unwrap();
    assert_eq!(set.len(), 2);
    assert_eq!(
        set[0].uuid,
        [
            0x43, 0x0c, 0x32, 0x6c, 0xab, 0x91, 0x11, 0xf1, 0xa2, 0x3b, 0x02, 0x42, 0xac, 0x16,
            0x00, 0x04
        ]
    );
    assert_eq!(set[0].tag, None);
    assert_eq!(set[0].intervals, [(1, 11), (20, 21)]);
    assert_eq!(set[1].intervals, [(5, 6)]);
    assert!(parse_gtid_set("  ").unwrap().is_empty());
    let error = parse_gtid_set("not-a-set").unwrap_err();
    assert!(error.message().starts_with("invalid GTID set entry \"not-a-set\": "));
    assert!(is_bounded_set("430c326c-ab91-11f1-a23b-0242ac160004:1"));
    assert!(!is_bounded_set("430c326c-ab91-11f1-a23b-0242ac160004:18446744073709551615"));
}

#[test]
fn the_requested_start_decides_over_the_current_one() {
    let here = || BinlogPosition { file: "mysql-bin.000001".into(), position: 123 };
    let there = BinlogPosition { file: "mysql-bin.000007".into(), position: 4 };
    let (mode, start, entries) =
        resolve_start(BinlogStartMode::Auto, Some(there), None, here(), "ON", "").unwrap();
    assert_eq!(mode, BinlogStartMode::Position);
    assert_eq!((start.file.as_str(), start.position), ("mysql-bin.000007", 4));
    assert!(entries.is_empty());
    assert_eq!(
        start_gtid_set(BinlogStartMode::Gtid, None, "executed").as_deref(),
        Some("executed")
    );
    assert_eq!(
        start_gtid_set(BinlogStartMode::Gtid, Some("asked"), "executed").as_deref(),
        Some("asked")
    );
    assert_eq!(start_gtid_set(BinlogStartMode::Position, None, "executed"), None);
}

#[test]
fn a_source_must_log_full_row_images() {
    check_preflight("5.7.44-log", 1, "ROW", "FULL").unwrap();
    assert!(check_preflight("8.0.36", 1, "ROW", "FULL").is_err());
    assert!(check_preflight("5.7.44-log", 0, "ROW", "FULL").is_err());
    assert!(check_preflight("5.7.44-log", 1, "MIXED", "FULL").is_err());
    assert!(check_preflight("5.7.44-log", 1, "ROW", "MINIMAL").is_err());
    check_config(&BinlogConfig::new("localhost", 3306, "reader", "", 77)).unwrap();
}

#[test]
fn the_protocol_log_follows_rotations() {
    let start = BinlogPosition { file: "binlog.000001".into(), position: 4 };
    let head = raw_log_head(BinlogStartMode::Position, &start, "5.7.44-log", SOURCE);
    assert_eq!(
        head,
        format!(
            "# stream_start mode=position file=binlog.000001 position=4 \
             source_version=5.7.44-log server_uuid={SOURCE}"
        )
    );
    let mut log = RawLog { file: "binlog.000001".into(), position: 4 };
    let event = |log_pos: u32, rotation: Option<(String, u64)>| RawEvent {
        event_type: "ROTATE_EVENT".into(),
        log_pos,
        timestamp: 1,
        server_id: 2,
        event_size: 40,
        flags: 0,
        payload_bytes: 21,
        rotation,
    };
    let line = log.line(1, &event(100, Some(("binlog.000002".into(), 4))));
    assert_eq!(
        line,
        "[000001] file=binlog.000001 event_position=0 next_position=4 timestamp=1 \
         type=ROTATE_EVENT server_id=2 event_size=40 flags=0x0000 payload_bytes=21"
    );
    assert_eq!((log.file.as_str(), log.position), ("binlog.000002", 4));
    let line = log.line(2, &RawEvent { event_type: "XID_EVENT".into(), flags: 0x80a, ..event(120, None) });
    assert_eq!(
        line,
        "[000002] file=binlog.000002 event_position=4 next_position=120 timestamp=1 \
         type=XID_EVENT server_id=2 event_size=40 flags=0x080A payload_bytes=21"
    );
    assert_eq!((log.file.as_str(), log.position), ("binlog.000002", 120));
}

// ---------------------------------------------------------------------------
// Snapshots
// ---------------------------------------------------------------------------

fn scope(columns: Vec<&str>) -> SnapshotTable {
    SnapshotTable {
        schema: "CDC_test".into(),
        table: "items".into(),
        columns: columns.into_iter().map(str::to_owned).collect(),
    }
}

fn scanned() -> Vec<ColumnInfo> {
    vec![
        text_column("na`me", "varchar(10)", "varchar"),
        column("id", "bigint", "bigint", Some(0)),
        column("at", "timestamp", "timestamp", None),
        column("doc", "json", "json", None),
    ]
}

#[test]
fn a_scope_names_every_table_once_and_never_the_control_schema() {
    check_snapshot_scope(false, &vec![scope(vec![])]).unwrap();
    assert_eq!(
        check_snapshot_scope(false, &vec![]).unwrap_err().message(),
        "invalid or empty snapshot scope"
    );
    let mut control = scope(vec![]);
    control.schema = "cdc".into();
    assert_eq!(
        check_snapshot_scope(false, &vec![control]).unwrap_err().message(),
        "invalid or empty snapshot scope"
    );
    assert_eq!(
        check_snapshot_scope(false, &vec![scope(vec![]), scope(vec!["id"])]).unwrap_err().message(),
        "duplicate snapshot table"
    );
}

#[test]
fn a_snapshot_continues_the_way_its_source_logs() {
    let choose = |mode, gtid_mode| choose_snapshot_mode("5.7.44", 1, "ROW", "FULL", mode, gtid_mode);
    assert_eq!(choose(BinlogStartMode::Auto, "ON").unwrap(), "gtid");
    assert_eq!(choose(BinlogStartMode::Auto, "OFF").unwrap(), "binlog");
    assert_eq!(choose(BinlogStartMode::Position, "ON").unwrap(), "binlog");
    assert!(choose(BinlogStartMode::Gtid, "OFF").is_err());
    assert_eq!(
        choose_snapshot_mode("8.0.36", 1, "ROW", "FULL", BinlogStartMode::Auto, "ON")
            .unwrap_err()
            .message(),
        "snapshot requires the matching MySQL version and ROW/FULL binlog"
    );
    check_lock_server(Some(SOURCE), SOURCE).unwrap();
    assert_eq!(
        check_lock_server(None, SOURCE).unwrap_err().message(),
        "snapshot and lock connections reached different servers"
    );
    check_budget(7, false).unwrap();
    assert_eq!(
        check_budget(8, false).unwrap_err().message(),
        "snapshot initialization exceeded time budget"
    );
}

#[test]
fn a_boundary_gives_back_what_it_was_made_of() {
    let boundary = snapshot_boundary(
        "5.7.44".into(),
        SOURCE.into(),
        "gtid",
        "binlog.000003",
        154,
        "430c326c-ab91-11f1-a23b-0242ac160004:1-5",
    );
    assert_eq!(boundary.cursor.format, "mysql.snapshot-boundary.v1");
    assert_eq!(boundary.cursor.display, "gtid:binlog.000003:154");
    assert_eq!(
        boundary.cursor.value,
        "{\"executed_gtids\":\"430c326c-ab91-11f1-a23b-0242ac160004:1-5\",\
         \"file\":\"binlog.000003\",\"mode\":\"gtid\",\"position\":154}"
    );
    let parts = decode_snapshot_boundary(&boundary.cursor).unwrap();
    assert_eq!(parts.mode, "gtid");
    assert_eq!(parts.file, "binlog.000003");
    assert_eq!(parts.position, 154);
    assert_eq!(parts.executed_gtids, "430c326c-ab91-11f1-a23b-0242ac160004:1-5");
}

#[test]
fn a_boundary_that_lacks_a_part_is_refused() {
    let mut boundary = snapshot_boundary("5.7.44".into(), SOURCE.into(), "gtid", "b.1", 4, "");
    let refusal = |boundary: &cdc_contract::change_event::snapshot::SnapshotBoundary| {
        decode_snapshot_boundary(&boundary.cursor).unwrap_err()
    };
    boundary.cursor.value = "{\"mode\":\"gtid\",\"file\":\"b.1\",\"position\":4}".into();
    assert_eq!(refusal(&boundary), "snapshot boundary is missing executed_gtids");
    boundary.cursor.value = "{\"mode\":1,\"file\":\"b.1\",\"position\":4}".into();
    assert_eq!(refusal(&boundary), "snapshot boundary mode is not text");
    boundary.cursor.value = "{\"mode\":\"gtid\",\"file\":\"b.1\",\"position\":-4}".into();
    assert_eq!(refusal(&boundary), "snapshot boundary position is not an integer");
    boundary.cursor.format = "other".into();
    assert_eq!(refusal(&boundary), "unsupported snapshot boundary cursor");
}

#[test]
fn a_scan_reads_keys_in_order_and_checks_documents() {
    let table = plan_scan(scope(vec![]), Some("InnoDB"), scanned()).unwrap();
    assert_eq!(
        write_scan_query(&table, false),
        "SELECT `na``me`,`id`,CAST(UNIX_TIMESTAMP(`at`) AS CHAR),`doc`,`id`,\
         (`doc` IS NULL OR `doc`=CAST(CAST(`doc` AS CHAR CHARACTER SET utf8mb4) AS JSON)) \
         FROM `CDC_test`.`items` ORDER BY `id` LIMIT 256"
    );
    assert_eq!(
        write_scan_query(&plan_scan(scope(vec!["id"]), Some("InnoDB"), scanned()).unwrap(), true),
        "SELECT `id`,`id` FROM `CDC_test`.`items` WHERE (`id`) > (?) ORDER BY `id` LIMIT 256"
    );
    let refusal = |scope, engine| {
        plan_scan(scope, engine, scanned()).unwrap_err().message().to_owned()
    };
    assert_eq!(refusal(scope(vec![]), Some("MyISAM")), "snapshot requires InnoDB source tables");
    assert_eq!(
        refusal(scope(vec!["at"]), Some("InnoDB")),
        "snapshot selection must contain every primary-key column"
    );
    assert_eq!(
        refusal(scope(vec!["id", "gone"]), Some("InnoDB")),
        "snapshot selected column is missing"
    );
}

#[test]
fn batches_end_a_table_when_they_are_short() {
    let boundary = snapshot_boundary("5.7.44".into(), SOURCE.into(), "binlog", "b.1", 4, "");
    let table = plan_scan(scope(vec![]), Some("InnoDB"), scanned()).unwrap();
    let mut reader = SnapshotReader::new(boundary, vec![table]);
    let mut rows = BatchRows::new(vec![]);
    let values = vec![
        bytes("a"),
        SqlValue::Int(7),
        bytes("951782400"),
        bytes("{\"b\":1,\"a\":[true,null,1.5,18446744073709551615]}"),
        SqlValue::Int(7),
        SqlValue::Int(1),
    ];
    rows.add(reader.current().unwrap(), &values).unwrap();
    let entry = |key: &str, value: JsonValue| JsonEntry { key: key.into(), value };
    assert!(matches!(
        &rows.rows[0][3].datum,
        Datum::Value(LogicalValue::Json { value }) if *value == JsonValue::Object(vec![
            entry("a", JsonValue::Array(vec![
                JsonValue::Boolean(true),
                JsonValue::Null,
                JsonValue::DoubleBits("3ff8000000000000".into()),
                JsonValue::UnsignedInteger("18446744073709551615".into()),
            ])),
            entry("b", JsonValue::SignedInteger("1".into())),
        ])
    ));
    let lossy = vec![
        SqlValue::Null,
        SqlValue::Int(8),
        SqlValue::Null,
        SqlValue::Null,
        SqlValue::Int(8),
        SqlValue::Int(0),
    ];
    assert_eq!(
        rows.add(reader.current().unwrap(), &lossy).unwrap_err().message(),
        "snapshot JSON contains a value that cannot round-trip through JSON text; refusing lossy conversion"
    );
    let batch = reader.finish_batch(rows);
    assert!(batch.last_in_table);
    assert_eq!(batch.rows.len(), 1);
    assert_eq!(batch.source.id, SOURCE);
    assert!(reader.current().is_none());
}

#[test]
fn errors_of_texts_and_numbers_are_handed_on() {
    let broken = SqlValue::Bytes(vec![b'a', 0xff]);
    let utf8 = String::from_utf8(vec![b'a', 0xff]).unwrap_err().to_string();
    assert_eq!(
        refused(broken, "decimal(5,2)", "decimal"),
        (CaptureErrorKind::InvalidData, utf8)
    );
    for year in ["", "+", "-1", "x", "70000", "70000x", "6x70000", "65536", "\u{e9}"] {
        let expected = year.parse::<u16>().unwrap_err().to_string();
        assert_eq!(
            refused(bytes(year), "year(4)", "year"),
            (CaptureErrorKind::InvalidData, expected)
        );
    }
}

#[test]
fn labels_outside_the_selection_do_not_stop_a_scan() {
    let mut columns = scanned();
    columns.push(column("tag", "bigint", "enum", None));
    assert!(!do_labels_agree(&columns[4]));
    plan_scan(scope(vec!["id"]), Some("InnoDB"), columns).unwrap();
    let mut columns = scanned();
    columns.push(column("tag", "enum('a')", "enum", None));
    assert_eq!(
        plan_scan(scope(vec!["id", "tag"]), Some("InnoDB"), columns).unwrap_err().message(),
        "snapshot type unsupported: CDC_test.items.tag enum('a')"
    );
    let table = plan_scan(scope(vec!["id"]), Some("InnoDB"), scanned()).unwrap();
    assert!(!table.holds_row(&vec![SqlValue::Int(7)]));
    assert!(table.holds_row(&vec![SqlValue::Int(7), SqlValue::Int(7)]));
}

#[test]
fn a_boundary_cursor_is_spelled_in_full() {
    let boundary = snapshot_boundary("5.7.44".into(), SOURCE.into(), "gtid", "b.1", 4, "u:1-2");
    assert_eq!(boundary.cursor.format, "mysql.snapshot-boundary.v1");
    assert_eq!(boundary.cursor.display, "gtid:b.1:4");
    assert_eq!(
        boundary.cursor.value,
        "{\"executed_gtids\":\"u:1-2\",\"file\":\"b.1\",\"mode\":\"gtid\",\"position\":4}"
    );
}

#[test]
fn only_a_start_by_numbers_reads_a_set() {
    let position = Some(BinlogPosition { file: "b.1".into(), position: 4 });
    assert!(!reads_gtid_set(BinlogStartMode::Position, &None, "ON"));
    assert!(!reads_gtid_set(BinlogStartMode::Auto, &position, "ON"));
    assert!(!reads_gtid_set(BinlogStartMode::Auto, &None, "OFF"));
    assert!(reads_gtid_set(BinlogStartMode::Auto, &None, "on_permissive"));
    assert!(reads_gtid_set(BinlogStartMode::Gtid, &position, "ON"));
}
