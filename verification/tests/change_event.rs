//! The change event: validation, its JSON lines, digests and planning.
use base64::engine::general_purpose::URL_SAFE_NO_PAD;
use base64::Engine as _;
use cdc_contract::change_event::compatibility::capability::{
    TargetCapabilityManifest, TargetCapabilityProbe,
};
use cdc_contract::change_event::compatibility::capability_failure::TargetCapabilityFailure;
use cdc_contract::change_event::compatibility::error::CompatibilityError;
use cdc_contract::change_event::compatibility::logical_type::LogicalType;
use cdc_contract::change_event::compatibility::plan::{
    CompatibilityInput, CompatibilityResult, FieldCompatibilityInput, RouteOptions,
};
use cdc_contract::change_event::compatibility::planner::explain::{
    explain_compatibility, explain_field_compatibility, plan_compatibility,
    plan_field_compatibility,
};
use cdc_contract::change_event::compatibility::planner::matching::text_charsets_are_compatible;
use cdc_contract::change_event::compatibility::types::{
    CapabilityEntry, CapabilityProbeEntry, CapabilityProbeStatus, CompatibilityStatus,
    ConnectorIdentity, ConversionRule, DefinitionReference, FailurePolicy, FieldDefinition,
    LocatorImpact, OptionSpec, OptionValueKind, PlanConfirmationState, PresenceState,
    QualificationLevel, RiskConfirmation, RiskLevel, ServerBuildIdentity, SourceTypeMapping,
    TargetColumnMetadata, TargetRepresentation, TargetSessionProfile,
};
use cdc_contract::change_event::events::{json, ChangeEvent, Payload, Transaction};
use cdc_contract::change_event::failure::{
    CommitResolution, FailureClass, FailurePhase, RetryClassification, TargetApplyErrorKind,
};
use cdc_contract::change_event::model::{
    ChangeTransaction, ColumnDatum, Datum, JsonEntry, JsonValue, LogicalValue, MapEntry, Operation,
    RawValueCarrier, RowChange, Source, SourceCursor, StructuredField, FORMAT, LEGACY_FORMAT,
};
use cdc_contract::change_event::reader::{JsonReader, ReadError};
use cdc_contract::change_event::snapshot::{
    validate_snapshot, validate_snapshot_boundary, SnapshotBatch, SnapshotBoundary,
};
use cdc_contract::change_event::validate::{
    validate, validate_value, ChangeEventValidationError, SourceContractError,
    ValidatedTransaction,
};
use cdc_contract::json::{Contract, Json};

// ---------------------------------------------------------------------------
// Reading JSON
// ---------------------------------------------------------------------------

fn value_of(json: &Json) -> serde_json::Value {
    match json {
        Json::Null => serde_json::Value::Null,
        Json::Bool(value) => serde_json::Value::Bool(*value),
        Json::Signed(value) => serde_json::Value::from(*value),
        Json::Unsigned(value) => serde_json::Value::from(*value),
        Json::Text(value) => serde_json::Value::String(value.clone()),
        Json::Array(items) => serde_json::Value::Array(items.iter().map(value_of).collect()),
        Json::Object(members) => {
            let mut object = serde_json::Map::new();
            for member in members {
                object.insert(member.key.clone(), value_of(&member.value));
            }
            serde_json::Value::Object(object)
        }
    }
}

fn written<T: Contract>(value: &T) -> String {
    value_of(&value.to_json()).to_string()
}

fn parsed(text: &str) -> serde_json::Value {
    serde_json::from_str(text).unwrap()
}

fn text(value: &serde_json::Value) -> Option<String> {
    value.as_str().map(str::to_owned)
}

fn number(value: &serde_json::Value) -> Option<u64> {
    value.as_u64()
}

fn read_cursor(value: &serde_json::Value) -> Option<SourceCursor> {
    Some(SourceCursor {
        format: text(&value["format"])?,
        value: text(&value["value"])?,
        display: text(&value["display"])?,
    })
}

fn read_source(value: &serde_json::Value) -> Option<Source> {
    Some(Source {
        kind: text(&value["kind"])?,
        version: text(&value["version"])?,
        id: text(&value["id"]).or_else(|| text(&value["server_uuid"]))?,
    })
}

fn read_carrier(value: &serde_json::Value) -> Option<RawValueCarrier> {
    Some(RawValueCarrier {
        codec_identity: text(&value["codec_identity"])?,
        native_type: text(&value["native_type"])?,
        source_definition_digest: text(&value["source_definition_digest"])?,
        encoding: text(&value["encoding"])?,
        raw_bytes_base64url: text(&value["raw_bytes_base64url"])?,
        canonical_text: text(&value["canonical_text"]),
    })
}

fn read_value(value: &serde_json::Value) -> Option<LogicalValue> {
    match value["type"].as_str()? {
        "null" => Some(LogicalValue::Null),
        "integer" => Some(LogicalValue::Integer {
            signed: value["signed"].as_bool()?,
            bits: number(&value["bits"])? as u8,
            value: text(&value["value"])?,
        }),
        "raw" => Some(LogicalValue::Raw { carrier: read_carrier(&value["carrier"])? }),
        "struct" => {
            let mut fields = Vec::new();
            for field in value["fields"].as_array()? {
                fields.push(StructuredField {
                    name: text(&field["name"])?,
                    value: read_value(&field["value"])?,
                });
            }
            Some(LogicalValue::Struct { fields })
        }
        "array_with_metadata" => {
            let mut elements = Vec::new();
            for element in value["elements"].as_array()? {
                elements.push(read_value(element)?);
            }
            let mut lower_bounds = Vec::new();
            for bound in value["lower_bounds"].as_array()? {
                lower_bounds.push(bound.as_i64()? as i32);
            }
            Some(LogicalValue::ArrayWithMetadata {
                elements,
                dimensions: number(&value["dimensions"])? as u8,
                lower_bounds,
            })
        }
        _ => None,
    }
}

fn read_image(value: &serde_json::Value) -> Option<Vec<ColumnDatum>> {
    let mut columns = Vec::new();
    for column in value.as_array()? {
        columns.push(ColumnDatum {
            ordinal: number(&column["ordinal"])? as usize,
            name: text(&column["name"])?,
            native_type: text(&column["native_type"])?,
            primary_key_ordinal: number(&column["primary_key_ordinal"]).map(|n| n as usize),
            generated: column["generated"].as_bool()?,
            collation: text(&column["collation"]),
            datum: match column["presence"].as_str()? {
                "unavailable" => Datum::Unavailable,
                "unchanged" => Datum::Unchanged,
                "null" => Datum::Null,
                _ => Datum::Value(read_value(&column["value"])?),
            },
        });
    }
    Some(columns)
}

fn read_event(line: &[u8]) -> Option<ChangeEvent> {
    let value: serde_json::Value = serde_json::from_slice(line).ok()?;
    let place = &value["transaction"];
    let payload = &value["payload"];
    Some(ChangeEvent {
        format: text(&value["format"])?,
        source: read_source(&value["source"])?,
        transaction: Transaction {
            id: text(&place["id"])?,
            sequence: number(&place["sequence"])? as usize,
            begin_cursor: read_cursor(&place["begin_cursor"])?,
            commit_cursor: read_cursor(&place["commit_cursor"])?,
        },
        payload: match payload["type"].as_str()? {
            "transaction_begin" => Payload::TransactionBegin,
            "transaction_commit" => Payload::TransactionCommit {
                change_count: number(&payload["change_count"])? as usize,
            },
            _ => Payload::RowChange {
                change: Box::new(RowChange {
                    database: text(&payload["database"]),
                    operation: match payload["operation"].as_str()? {
                        "insert" => Operation::Insert,
                        "update" => Operation::Update,
                        _ => Operation::Delete,
                    },
                    schema: text(&payload["schema"])?,
                    table: text(&payload["table"])?,
                    source_cursor: read_cursor(&payload["source_cursor"])?,
                    source_timestamp: number(&payload["source_timestamp"])? as u32,
                    schema_basis: text(&payload["schema_basis"])?,
                    before: read_image(&payload["before"]),
                    after: read_image(&payload["after"]),
                }),
            },
        },
    })
}

/// A reader over a text that is at hand.
struct Lines {
    reader: JsonReader,
    input: Vec<u8>,
    at: usize,
}

impl Lines {
    fn new(input: String) -> Self {
        Lines { reader: JsonReader::new(), input: input.into_bytes(), at: 0 }
    }

    fn next_transaction(&mut self) -> Result<Option<ValidatedTransaction>, ReadError> {
        while self.at < self.input.len() {
            let taken = self.reader.take_line(&self.input[self.at..])?;
            self.at += taken.consumed;
            if let Some(line) = taken.line {
                let event = match read_event(&line) {
                    Some(event) => event,
                    None => return Err(self.reader.reject("the line holds no event")),
                };
                if let Some(validated) = self.reader.next_transaction(event)? {
                    return Ok(Some(validated));
                }
            }
        }
        Ok(None)
    }

    fn finish(&self) -> Result<(), ReadError> {
        self.reader.finish()
    }
}

// ---------------------------------------------------------------------------
// Transactions
// ---------------------------------------------------------------------------

fn cursor(display: &str) -> SourceCursor {
    let (file, position) = display.rsplit_once(':').unwrap();
    let mut raw = file.as_bytes().to_vec();
    raw.push(0);
    raw.extend_from_slice(&position.parse::<u32>().unwrap().to_be_bytes());
    SourceCursor {
        format: "mysql.binlog.file-position.v1".to_owned(),
        value: URL_SAFE_NO_PAD.encode(raw),
        display: display.to_owned(),
    }
}

fn insert_transaction() -> ChangeTransaction {
    ChangeTransaction {
        source: Source {
            kind: "mysql".to_owned(),
            version: "5.7.44-log".to_owned(),
            id: "430c326c-ab91-11f1-a23b-0242ac160004".to_owned(),
        },
        id: "430c326c-ab91-11f1-a23b-0242ac160004:1".to_owned(),
        begin_cursor: cursor("binlog.000001:100"),
        commit_cursor: cursor("binlog.000001:200"),
        changes: vec![RowChange {
            database: None,
            operation: Operation::Insert,
            schema: "CDC_test".to_owned(),
            table: "items".to_owned(),
            source_cursor: cursor("binlog.000001:150"),
            source_timestamp: 1_700_000_000,
            schema_basis: "test_fixture".into(),
            before: None,
            after: Some(vec![ColumnDatum {
                ordinal: 0,
                name: "id".to_owned(),
                native_type: "bigint".to_owned(),
                primary_key_ordinal: Some(0),
                generated: false,
                collation: None,
                datum: Datum::Value(LogicalValue::Integer {
                    signed: true,
                    bits: 64,
                    value: "7".to_owned(),
                }),
            }]),
        }],
    }
}

#[test]
fn validation_accepts_a_complete_insert_transaction() {
    let validated = validate(insert_transaction()).expect("fixture should be valid");
    assert_eq!(validated.transaction().changes.len(), 1);
}

#[test]
fn validation_rejects_inconsistent_images_and_bad_values() {
    let mut transaction = insert_transaction();
    transaction.changes[0].before = Some(vec![]);
    assert!(validate(transaction).is_err());

    let mut transaction = insert_transaction();
    let Some(after) = transaction.changes[0].after.as_mut() else { unreachable!() };
    let Datum::Value(LogicalValue::Integer { value, .. }) = &mut after[0].datum else {
        unreachable!()
    };
    *value = "not-an-integer".to_owned();
    assert!(validate(transaction).is_err());
}

#[test]
fn json_emits_begin_row_and_commit_lines() {
    let validated = validate(insert_transaction()).expect("fixture should be valid");
    let output = json(&validated);
    assert!(output.lines().all(|line| line.contains("cdc.change-event-json.v0.3")));
    let lines: Vec<_> = output.lines().collect();
    assert_eq!(lines.len(), 3);
    assert!(lines[0].contains("transaction_begin"));
    assert!(lines[1].contains("row_change"));
    assert!(lines[2].contains("transaction_commit"));
}

#[test]
fn json_lines_have_the_exact_published_form() {
    let validated = validate(insert_transaction()).unwrap();
    let output = json(&validated);
    let lines: Vec<_> = output.lines().collect();
    let head = concat_head();
    assert_eq!(
        lines[0],
        format!("{head}\"sequence\":0,{}\"payload\":{{\"type\":\"transaction_begin\"}}}}", place())
    );
    assert_eq!(
        lines[1],
        format!(
            "{head}\"sequence\":1,{}\"payload\":{{\"type\":\"row_change\",\"operation\":\"insert\",\
             \"schema\":\"CDC_test\",\"table\":\"items\",\"source_cursor\":{{\
             \"format\":\"mysql.binlog.file-position.v1\",\"value\":\"{}\",\
             \"display\":\"binlog.000001:150\"}},\"source_timestamp\":1700000000,\
             \"schema_basis\":\"test_fixture\",\"after\":[{{\"ordinal\":0,\"name\":\"id\",\
             \"native_type\":\"bigint\",\"primary_key_ordinal\":0,\"generated\":false,\
             \"collation\":null,\"presence\":\"value\",\"value\":{{\"type\":\"integer\",\
             \"signed\":true,\"bits\":64,\"value\":\"7\"}}}}]}}}}",
            place(),
            cursor("binlog.000001:150").value
        )
    );
    assert_eq!(
        lines[2],
        format!(
            "{head}\"sequence\":2,{}\"payload\":{{\"type\":\"transaction_commit\",\"change_count\":1}}}}",
            place()
        )
    );
    assert!(output.ends_with('\n'));
}

fn concat_head() -> String {
    "{\"format\":\"cdc.change-event-json.v0.3\",\"source\":{\"kind\":\"mysql\",\
     \"version\":\"5.7.44-log\",\"id\":\"430c326c-ab91-11f1-a23b-0242ac160004\"},\
     \"transaction\":{\"id\":\"430c326c-ab91-11f1-a23b-0242ac160004:1\","
        .to_owned()
}

fn place() -> String {
    format!(
        "\"begin_cursor\":{{\"format\":\"mysql.binlog.file-position.v1\",\"value\":\"{}\",\
         \"display\":\"binlog.000001:100\"}},\"commit_cursor\":{{\
         \"format\":\"mysql.binlog.file-position.v1\",\"value\":\"{}\",\
         \"display\":\"binlog.000001:200\"}}}},",
        cursor("binlog.000001:100").value,
        cursor("binlog.000001:200").value
    )
}

#[test]
fn json_reader_accepts_the_previous_v02_contract() {
    let validated = validate(insert_transaction()).expect("fixture should be valid");
    let output =
        json(&validated).replace("cdc.change-event-json.v0.3", "cdc.change-event-json.v0.2");
    let mut reader = Lines::new(output);
    assert!(reader.next_transaction().unwrap().is_some());
    reader.finish().unwrap();
}

#[test]
fn json_reader_keeps_v01_mysql_compatibility_source_scoped() {
    let validated = validate(insert_transaction()).unwrap();
    let output = json(&validated)
        .replace(FORMAT, LEGACY_FORMAT)
        .replace("\"kind\":\"mysql\"", "\"kind\":\"oracle\"");
    let mut reader = Lines::new(output);
    assert!(reader.next_transaction().is_err());
}

#[test]
fn json_reader_follows_several_transactions_of_the_first_format() {
    let mut input = String::new();
    for number in 1..=3 {
        let mut transaction = insert_transaction();
        transaction.id = format!("430c326c-ab91-11f1-a23b-0242ac160004:{number}");
        input += &json(&validate(transaction).unwrap());
    }
    let mut reader = Lines::new(input.replace(FORMAT, "cdc.change-event-json.v0").replace(
        "\"id\":\"430c326c-ab91-11f1-a23b-0242ac160004\"",
        "\"server_uuid\":\"430c326c-ab91-11f1-a23b-0242ac160004\"",
    ));
    let mut transactions = 0;
    while reader.next_transaction().unwrap().is_some() {
        transactions += 1;
    }
    reader.finish().unwrap();
    assert_eq!(transactions, 3);
}

#[test]
fn json_reader_stops_for_good_after_an_error() {
    let output = json(&validate(insert_transaction()).unwrap());
    let row = output.lines().nth(1).unwrap().to_owned() + "\n";
    let mut reader = Lines::new(row + &output);
    assert_eq!(reader.next_transaction().unwrap_err().message(), "row without begin");
    assert_eq!(
        reader.next_transaction().unwrap_err().message(),
        "reader stopped after an earlier error"
    );
    assert!(reader.finish().is_err());

    let begin = output.lines().next().unwrap().to_owned() + "\n";
    let message = |text: String| Lines::new(text).next_transaction().unwrap_err().message().to_owned();
    assert_eq!(
        message(begin.clone() + &begin),
        "interleaved transaction or inconsistent identity/cursor/sequence"
    );
    assert_eq!(
        message(output.lines().nth(2).unwrap().to_owned() + "\n"),
        "commit without begin"
    );
    assert_eq!(
        message(output.replace("\"change_count\":1", "\"change_count\":2")),
        "commit change_count mismatch"
    );
    assert_eq!(
        message(output.replace(FORMAT, "other")),
        "unsupported ChangeEvent format other; recapture with cdc.change-event-json.v0.3"
    );
    assert_eq!(message("{}\n".to_owned()), "the line holds no event");
}

#[test]
fn generic_validation_accepts_an_unlisted_source_kind() {
    let mut transaction = insert_transaction();
    transaction.source = Source {
        kind: "oracle".into(),
        version: "23c".into(),
        id: "opaque-source-identity".into(),
    };
    assert!(validate(transaction).is_ok());
}

#[test]
fn generic_validation_preserves_keyless_rows_for_target_capability_checks() {
    let mut transaction = insert_transaction();
    transaction.changes[0].after.as_mut().unwrap()[0].primary_key_ordinal = None;
    assert!(validate(transaction).is_ok());
}

#[test]
fn json_reader_returns_only_a_complete_validated_transaction() {
    let validated = validate(insert_transaction()).expect("fixture should be valid");
    let output = json(&validated);
    let mut reader = Lines::new(output);
    let decoded = reader
        .next_transaction()
        .expect("JSON should be readable")
        .expect("one transaction should be returned");
    assert_eq!(decoded.transaction().id, validated.transaction().id);
    assert!(reader.next_transaction().unwrap().is_none());
    reader.finish().expect("input ended on a complete commit");
}

#[test]
fn raw_value_carrier_requires_stable_source_evidence() {
    let carrier = RawValueCarrier::new(
        "postgresql.hstore.v1",
        "hstore",
        "sha256:definition-1",
        "binary",
        URL_SAFE_NO_PAD.encode([0, 255, 1]).as_str(),
        Some("\"a\"=>\"b\""),
    );
    carrier.validate().expect("complete carrier should validate");
    assert_eq!(carrier.raw_bytes().unwrap(), [0, 255, 1]);
    let encoded = written(&carrier);
    let decoded = read_carrier(&parsed(&encoded)).unwrap();
    assert_eq!(decoded, carrier);

    let mut incomplete = carrier;
    incomplete.codec_identity.clear();
    let error = incomplete.validate().unwrap_err();
    assert_eq!(error.code(), "raw_value_carrier.missing_evidence");
}

#[test]
fn recursive_values_preserve_nulls_and_array_shape() {
    let value = LogicalValue::ArrayWithMetadata {
        elements: vec![
            LogicalValue::Null,
            LogicalValue::Struct {
                fields: vec![StructuredField {
                    name: "value".into(),
                    value: LogicalValue::Integer { signed: true, bits: 32, value: "7".into() },
                }],
            },
        ],
        dimensions: 2,
        lower_bounds: vec![0, -2],
    };

    value.validate().expect("recursive value should validate");
    let roundtrip = read_value(&parsed(&written(&value))).unwrap();
    assert_eq!(roundtrip, value);

    let duplicate_map = LogicalValue::MapValue {
        entries: vec![
            MapEntry {
                key: LogicalValue::Text {
                    charset: "utf8".into(),
                    bytes_base64url: "YQ".into(),
                    text: Some("a".into()),
                },
                value: LogicalValue::Null,
            },
            MapEntry {
                key: LogicalValue::Text {
                    charset: "utf8".into(),
                    bytes_base64url: "YQ".into(),
                    text: Some("a".into()),
                },
                value: LogicalValue::Null,
            },
        ],
    };
    assert!(validate_value(&duplicate_map).is_err());
}

#[test]
fn stable_digests_are_reproducible_and_change_with_semantics() {
    let first = LogicalValue::Integer { signed: true, bits: 32, value: "7".into() };
    let second = first.clone();
    assert_eq!(first.stable_digest(), second.stable_digest());

    let changed = LogicalValue::Integer { signed: true, bits: 32, value: "8".into() };
    assert_ne!(second.stable_digest(), changed.stable_digest());

    let ordered = LogicalValue::Json {
        value: JsonValue::Object(vec![
            JsonEntry { key: "b".into(), value: JsonValue::Boolean(true) },
            JsonEntry { key: "a".into(), value: JsonValue::Boolean(false) },
        ]),
    };
    let reordered = LogicalValue::Json {
        value: JsonValue::Object(vec![
            JsonEntry { key: "a".into(), value: JsonValue::Boolean(false) },
            JsonEntry { key: "b".into(), value: JsonValue::Boolean(true) },
        ]),
    };
    assert_eq!(ordered.stable_digest(), reordered.stable_digest());
}

#[test]
fn logical_type_validation_and_matching_are_database_neutral() {
    let logical = LogicalType::domain(
        "positive_int",
        LogicalType::integer(true, 32),
        vec!["value > 0".into()],
        true,
        None,
        "sha256:domain-1",
    );
    logical.validate().expect("domain definition should validate");
    assert!(logical.matches_value(&LogicalValue::Domain {
        value: Box::new(LogicalValue::Integer { signed: true, bits: 32, value: "7".into() }),
    }));

    let invalid = LogicalType::array_with_metadata(LogicalType::integer(true, 32), 2, vec![0]);
    assert!(invalid.validate().is_err());
}

#[test]
fn json_v03_replays_raw_and_recursive_values_without_target_metadata() {
    let mut transaction = insert_transaction();
    transaction.changes[0].after.as_mut().unwrap()[0].datum = Datum::Value(LogicalValue::Raw {
        carrier: RawValueCarrier::new(
            "custom.codec.v1",
            "vendor_type",
            "sha256:source-definition",
            "binary",
            URL_SAFE_NO_PAD.encode([1, 2, 3]).as_str(),
            Some("010203"),
        ),
    });
    let validated = validate(transaction).expect("raw value with evidence is valid");
    let encoded = json(&validated);
    assert!(encoded.contains("custom.codec.v1"));

    let mut reader = Lines::new(encoded);
    let replayed = reader.next_transaction().unwrap().unwrap();
    reader.finish().unwrap();
    assert_eq!(
        replayed.transaction().content_digest(),
        validated.transaction().content_digest()
    );
}

#[test]
fn contract_errors_expose_stable_categories() {
    let validation = ChangeEventValidationError::new("bad event");
    assert_eq!(validation.code(), "change_event.validation_failed");
    assert_eq!(validation.class(), FailureClass::ChangeEventValidation);

    let source = SourceContractError::new("bad source");
    assert_eq!(source.code(), "source_contract.invalid");
    assert_eq!(source.class(), FailureClass::SourceContract);

    let target = TargetCapabilityFailure::new("unsupported target");
    assert_eq!(target.class(), FailureClass::TargetCapability);
    assert_eq!(target.stable_code(), "target_capability.unspecified");
}

#[test]
fn json_reader_rejects_an_incomplete_transaction() {
    let validated = validate(insert_transaction()).unwrap();
    let output = json(&validated);
    let truncated = output.lines().take(2).collect::<Vec<_>>().join("\n") + "\n";
    let mut reader = Lines::new(truncated);
    assert!(reader.next_transaction().unwrap().is_none());
    assert!(reader.finish().is_err());
}

#[test]
fn accepts_all_three_mysql_versions() {
    for version in ["5.7.44-log", "8.0.45", "8.4.8"] {
        let mut tx = insert_transaction();
        tx.source.version = version.into();
        let validated = validate(tx).unwrap();
        let rows: Vec<serde_json::Value> = json(&validated).lines().map(parsed).collect();
        assert_eq!(rows.len(), 3);
        for (sequence, row) in rows.iter().enumerate() {
            assert_eq!(row["source"]["version"], version);
            assert_eq!(row["transaction"]["sequence"], sequence);
            assert_eq!(
                row["transaction"]["commit_cursor"]["display"],
                "binlog.000001:200"
            );
        }
    }
}

#[test]
fn rejects_integer_overflow_and_mismatched_update_images() {
    let mut tx = insert_transaction();
    tx.changes[0].after.as_mut().unwrap()[0].datum = Datum::Value(LogicalValue::Integer {
        signed: false,
        bits: 8,
        value: "256".into(),
    });
    assert!(validate(tx).is_err());
    let mut tx = insert_transaction();
    tx.changes[0].operation = Operation::Update;
    tx.changes[0].before = tx.changes[0].after.clone();
    tx.changes[0].after.as_mut().unwrap()[0].name = "other".into();
    assert!(validate(tx).is_err());
}

#[test]
fn generic_validation_restricts_presence_states_by_image_operation() {
    let mut insert = insert_transaction();
    insert.changes[0].after.as_mut().unwrap()[0].datum = Datum::Unavailable;
    assert!(validate(insert).is_err());

    let mut insert = insert_transaction();
    insert.changes[0].after.as_mut().unwrap()[0].datum = Datum::Unchanged;
    assert!(validate(insert).is_err());

    let mut update = insert_transaction();
    update.changes[0].operation = Operation::Update;
    update.changes[0].before = update.changes[0].after.clone();
    update.changes[0].before.as_mut().unwrap()[0].datum = Datum::Unchanged;
    assert!(validate(update).is_err());

    let mut update = insert_transaction();
    update.changes[0].operation = Operation::Update;
    update.changes[0].before = update.changes[0].after.clone();
    update.changes[0].after.as_mut().unwrap()[0].datum = Datum::Unavailable;
    assert!(validate(update).is_err());
}

#[test]
fn reads_historical_mysql_v01_source_identity() {
    let original = validate(insert_transaction()).unwrap();
    let text = json(&original).replace(FORMAT, LEGACY_FORMAT).replace(
        "\"id\":\"430c326c-ab91-11f1-a23b-0242ac160004\"",
        "\"server_uuid\":\"430c326c-ab91-11f1-a23b-0242ac160004\"",
    );
    let mut reader = Lines::new(text);
    assert_eq!(
        reader.next_transaction().unwrap().unwrap().transaction().source,
        original.transaction().source
    );
    reader.finish().unwrap();
}

#[test]
fn mysql_snapshot_rejects_absent_values() {
    let tx = insert_transaction();
    let row = tx.changes[0].after.clone().unwrap();
    let batch = SnapshotBatch {
        source: tx.source,
        schema: "CDC_test".into(),
        table: "items".into(),
        rows: vec![row],
        last_in_table: true,
    };
    assert!(validate_snapshot(batch.clone()).is_ok());
    for datum in [Datum::Unavailable, Datum::Unchanged] {
        let mut invalid = batch.clone();
        let mut column = invalid.rows[0][0].clone();
        column.ordinal = 1;
        column.name = "other".into();
        column.primary_key_ordinal = None;
        column.datum = datum;
        invalid.rows[0].push(column);
        assert!(validate_snapshot(invalid).is_err());
    }
}

#[test]
fn snapshot_validation_is_source_agnostic() {
    let mut tx = insert_transaction();
    tx.source = Source {
        kind: "oracle".into(),
        version: "23c".into(),
        id: "opaque-source-identity".into(),
    };
    let batch = SnapshotBatch {
        source: tx.source,
        schema: "CDC_test".into(),
        table: "items".into(),
        rows: vec![tx.changes[0].after.clone().unwrap()],
        last_in_table: true,
    };
    assert!(validate_snapshot(batch).is_ok());
}

#[test]
fn snapshot_boundary_validates_only_opaque_cursor_shape() {
    let boundary = SnapshotBoundary {
        source: Source {
            kind: "oracle".into(),
            version: "23c".into(),
            id: "opaque-source-identity".into(),
        },
        cursor: SourceCursor {
            format: "oracle.scn.v1".into(),
            value: "opaque-boundary".into(),
            display: "SCN 42".into(),
        },
    };
    assert!(validate_snapshot_boundary(&boundary).is_ok());
}

// ---------------------------------------------------------------------------
// Planning
// ---------------------------------------------------------------------------

fn compatibility_field(key: Option<usize>) -> FieldDefinition {
    FieldDefinition {
        reference: DefinitionReference::new("source-column-1", "source-schema-1"),
        ordinal: 0,
        name: "id".into(),
        native_type: "bigint".into(),
        logical_type: LogicalType::integer(true, 64),
        nullable: false,
        collation: None,
        generated: false,
        primary_key_ordinal: key,
        unique: key.is_some(),
        row_locator: key.is_some(),
    }
}

fn compatibility_mapping() -> SourceTypeMapping {
    SourceTypeMapping::new(
        ConnectorIdentity::new("mysql", "5.7"),
        "bigint",
        LogicalType::integer(true, 64),
        "mysql.type-mapping",
        "1",
    )
}

fn compatibility_rule(
    id: &str,
    qualification: QualificationLevel,
    risk: RiskLevel,
    requires_confirmation: bool,
    allows_key: bool,
) -> ConversionRule {
    ConversionRule {
        id: id.into(),
        version: "1".into(),
        qualification,
        risk,
        risk_code: (risk != RiskLevel::NoRisk).then(|| "test.risk".into()),
        requires_confirmation,
        options: Vec::new(),
        supported_operations: vec![Operation::Insert],
        supported_presence: vec![PresenceState::Value],
        allows_key,
        failure_policy: FailurePolicy::Reject,
        evidence_digest: "qualification-evidence-1".into(),
    }
}

fn compatibility_manifest(
    target_native_type: &str,
    rule: ConversionRule,
    requires_primary_key: bool,
) -> TargetCapabilityManifest {
    TargetCapabilityManifest::new(
        ConnectorIdentity::new("mysql", "5.7"),
        ServerBuildIdentity::new("mysql", "oracle", "5.7.44", "build-1"),
        vec![CapabilityEntry {
            code: "test.integer".into(),
            source_logical_type: LogicalType::integer(true, 64),
            target: TargetRepresentation::new(target_native_type),
            rule,
            supported_operations: Vec::new(),
            supported_presence: Vec::new(),
        }],
        requires_primary_key,
    )
}

fn compatibility_input<'a>(
    transaction: &'a ValidatedTransaction,
    source_field: FieldDefinition,
    target_field: FieldDefinition,
    mapping: SourceTypeMapping,
    manifest: &'a TargetCapabilityManifest,
    options: RouteOptions,
) -> CompatibilityInput<'a> {
    CompatibilityInput {
        transaction,
        source_field,
        target_field,
        source_type_mapping: mapping,
        source_connector: ConnectorIdentity::new("mysql", "5.7"),
        sink_connector: ConnectorIdentity::new("mysql", "5.7"),
        source_build: Some(ServerBuildIdentity::new("mysql", "oracle", "5.7.44", "build-1")),
        target_build: Some(manifest.target_build.clone()),
        manifest,
        options,
    }
}

fn compatibility_options() -> RouteOptions {
    RouteOptions {
        route_id: "route-1".into(),
        configuration_revision: "revision-1".into(),
        ..RouteOptions::default()
    }
}

fn target_capability_probe() -> TargetCapabilityProbe {
    TargetCapabilityProbe::new(
        ServerBuildIdentity::new("mysql", "oracle", "5.7.44", "build-1"),
        "cdc",
        "items",
        "id",
        TargetColumnMetadata::new("target-schema-1")
            .with_native_type("bigint")
            .with_precision(19)
            .with_constraints(vec!["PRIMARY KEY".to_owned()])
            .with_indexes(vec!["PRIMARY".to_owned()]),
        vec![CapabilityProbeEntry::qualified("test.integer")],
        vec![CapabilityProbeEntry::installed("mysql_native")],
        TargetSessionProfile::new("mysql.strict.v1", vec![("sql_mode", "STRICT_ALL_TABLES")]),
    )
}

fn read_texts(value: &serde_json::Value) -> Vec<String> {
    value.as_array().unwrap().iter().map(|item| text(item).unwrap()).collect()
}

/// Reads a manifest of integer capabilities whose rules take no options.
fn read_manifest(value: &serde_json::Value) -> TargetCapabilityManifest {
    let build = &value["target_build"];
    let mut capabilities = Vec::new();
    for entry in value["capabilities"].as_array().unwrap() {
        let rule = &entry["rule"];
        assert_eq!(entry["source_logical_type"]["family"], "integer");
        assert_eq!(rule["qualification"], "EXACT");
        assert_eq!(rule["risk"], "NONE");
        assert_eq!(read_texts(&rule["supported_operations"]), ["insert"]);
        assert_eq!(read_texts(&rule["supported_presence"]), ["VALUE"]);
        assert_eq!(rule["failure_policy"], "REJECT");
        capabilities.push(CapabilityEntry {
            code: text(&entry["code"]).unwrap(),
            source_logical_type: LogicalType::integer(
                entry["source_logical_type"]["signed"].as_bool().unwrap(),
                number(&entry["source_logical_type"]["bits"]).unwrap() as u8,
            ),
            target: TargetRepresentation::new(&text(&entry["target"]["native_type"]).unwrap()),
            rule: ConversionRule {
                id: text(&rule["id"]).unwrap(),
                version: text(&rule["version"]).unwrap(),
                qualification: QualificationLevel::Exact,
                risk: RiskLevel::NoRisk,
                risk_code: text(&rule["risk_code"]),
                requires_confirmation: rule["requires_confirmation"].as_bool().unwrap(),
                options: Vec::new(),
                supported_operations: vec![Operation::Insert],
                supported_presence: vec![PresenceState::Value],
                allows_key: rule["allows_key"].as_bool().unwrap(),
                failure_policy: FailurePolicy::Reject,
                evidence_digest: text(&rule["evidence_digest"]).unwrap(),
            },
            supported_operations: Vec::new(),
            supported_presence: Vec::new(),
        });
    }
    TargetCapabilityManifest {
        connector: ConnectorIdentity::new(
            &text(&value["connector"]["kind"]).unwrap(),
            &text(&value["connector"]["version"]).unwrap(),
        ),
        target_build: ServerBuildIdentity::new(
            &text(&build["product"]).unwrap(),
            &text(&build["distribution"]).unwrap(),
            &text(&build["version"]).unwrap(),
            &text(&build["build"]).unwrap(),
        ),
        contract: text(&value["contract"]).unwrap(),
        requires_primary_key: value["requires_primary_key"].as_bool().unwrap(),
        capabilities,
        digest: text(&value["digest"]).unwrap(),
    }
}

#[test]
fn target_capability_probe_is_content_addressed_and_qualification_is_explicit() {
    let probe = target_capability_probe();
    assert!(probe.verify_digest());
    assert!(probe.is_qualified());
    assert_eq!(probe.column_metadata.typmod, None);
    assert_eq!(probe.column_metadata.precision, Some(19));

    let mut changed = probe.clone();
    changed.session.settings.insert("time_zone", "UTC");
    changed.refresh_digest();
    assert_ne!(probe.digest, changed.digest);
    assert!(changed.verify_digest());

    let mut unqualified = probe;
    unqualified.capabilities[0].status = CapabilityProbeStatus::PermissionDenied;
    unqualified.refresh_digest();
    assert!(!unqualified.is_qualified());
    assert!(unqualified.validate().is_ok());
}

#[test]
fn compatibility_plan_is_structured_serializable_and_reproducible() {
    let transaction = validate(insert_transaction()).unwrap();
    let source = compatibility_field(Some(0));
    let mut target = source.clone();
    target.reference = DefinitionReference::new("target-column-1", "target-schema-1");
    target.native_type = "BIGINT".into();
    let manifest = compatibility_manifest(
        "bigint",
        compatibility_rule(
            "integer.exact",
            QualificationLevel::Exact,
            RiskLevel::NoRisk,
            false,
            true,
        ),
        true,
    );
    let mut input = compatibility_input(
        &transaction,
        source,
        target,
        compatibility_mapping(),
        &manifest,
        compatibility_options(),
    );
    input.options.target_probe = Some(target_capability_probe());

    let result = explain_compatibility(input.clone()).unwrap();
    assert_eq!(result.status, CompatibilityStatus::Compatible);
    assert_eq!(result.qualification, QualificationLevel::Exact);
    assert!(result.is_selectable());
    let plan = result.plan.as_ref().expect("qualified field has a plan");
    assert!(plan.verify_digest());
    assert_eq!(
        plan.target_probe_digest,
        input.options.target_probe.as_ref().map(|probe| probe.digest.clone())
    );
    assert_eq!(plan.locator_impact, LocatorImpact::Preserved);
    assert!(!plan.loss.value);
    assert_eq!(plan.confirmation, PlanConfirmationState::NotRequired);
    assert_eq!(plan.plan_digest, result.summary.as_ref().unwrap().plan_digest);
    let encoded = written(&result);
    assert!(encoded.contains("integer.exact"));
    assert!(!encoded.contains("\"value\":\"7\""));
    let manifest_json = written(&manifest);
    let decoded_manifest = read_manifest(&parsed(&manifest_json));
    assert!(decoded_manifest.verify_digest());
    assert!(plan.validate_against(input.clone()).is_ok());

    let mut stale_input = input.clone();
    stale_input.target_field.reference.schema_fingerprint = "changed-target-schema".into();
    let stale = plan.validate_against(stale_input).unwrap_err();
    assert_eq!(stale.class(), FailureClass::StaleInput);

    let mut changed_probe_input = input.clone();
    let probe = changed_probe_input.options.target_probe.as_mut().unwrap();
    probe.session.settings.insert("time_zone", "UTC");
    probe.refresh_digest();
    let invalidated = plan.validate_against(changed_probe_input).unwrap_err();
    assert_eq!(invalidated.code(), "compatibility.plan_inputs_changed");
    assert!(matches!(invalidated, CompatibilityError::PlanInvalidated(_)));

    let repeated = explain_compatibility(input).unwrap();
    assert_eq!(
        repeated.plan.as_ref().unwrap().plan_digest,
        plan.plan_digest,
        "the same normalized inputs must produce the same plan digest"
    );
}

#[test]
fn compatibility_requires_parameters_and_exact_risk_confirmation() {
    let mut raw = insert_transaction();
    raw.changes[0].after.as_mut().unwrap()[0].primary_key_ordinal = None;
    let transaction = validate(raw).unwrap();
    let source = compatibility_field(None);
    let mut target = source.clone();
    target.reference = DefinitionReference::new("target-column-1", "target-schema-1");
    target.native_type = "varchar(64)".into();
    let mut rule = compatibility_rule(
        "integer.explicit",
        QualificationLevel::ExplicitConversion,
        RiskLevel::High,
        true,
        false,
    );
    rule.options.push(OptionSpec {
        name: "encoding".into(),
        value_kind: OptionValueKind::Enum,
        required: true,
        default: None,
        allowed_values: vec!["decimal-string".into()],
    });
    let manifest = compatibility_manifest("varchar(64)", rule, false);
    let mut input = compatibility_input(
        &transaction,
        source,
        target,
        compatibility_mapping(),
        &manifest,
        compatibility_options(),
    );

    let missing = explain_compatibility(input.clone()).unwrap();
    assert_eq!(missing.status, CompatibilityStatus::NeedsConfiguration);
    assert_eq!(missing.failure.as_ref().unwrap().class, FailureClass::MissingConfirmation);

    input.options.parameters.insert("encoding", "decimal-string");
    let pending = explain_compatibility(input.clone()).unwrap();
    assert_eq!(pending.status, CompatibilityStatus::NeedsConfirmation);
    let plan = pending.plan.as_ref().unwrap();
    assert!(pending.requires_confirmation);

    input.options.confirmations.push(RiskConfirmation {
        source_field_lineage: plan.source_field.lineage_id.clone(),
        target_field_lineage: plan.target_field.lineage_id.clone(),
        rule: plan.rule.clone(),
        plan_digest: plan.plan_digest.clone(),
        actor: "operator-1".into(),
        confirmed_at: "2026-09-17T00:00:00Z".into(),
        reason: Some("approved for this route only".into()),
    });
    let confirmed = explain_compatibility(input).unwrap();
    assert_eq!(confirmed.status, CompatibilityStatus::Compatible);
    assert!(confirmed.failure.is_none());
    let confirmed_plan = confirmed.plan.as_ref().unwrap();
    assert_eq!(confirmed_plan.confirmation, PlanConfirmationState::Confirmed);
    assert!(confirmed_plan.loss.value);
    assert_eq!(confirmed_plan.locator_impact, LocatorImpact::ValueOnly);
    assert_eq!(confirmed_plan.plan_digest, plan.plan_digest);
}

fn check_summary(result: &CompatibilityResult) {
    let plan = result.plan.as_ref().unwrap();
    let summary = result.summary.as_ref().unwrap();
    assert!(plan.verify_digest());
    assert_eq!(summary.plan_digest, plan.plan_digest);
    assert_eq!(summary.input_digest, plan.input_digest);
    assert_eq!(summary.rule, plan.rule);
    assert_eq!(summary.capability_code, plan.capability_code);
}

#[test]
fn a_summary_names_its_plan_and_the_plan_its_confirmation() {
    for asks in [false, true] {
        let (qualification, risk, native_type) = if asks {
            (QualificationLevel::ExplicitConversion, RiskLevel::High, "varchar(64)")
        } else {
            (QualificationLevel::Exact, RiskLevel::NoRisk, "bigint")
        };
        let rule = compatibility_rule("integer.rule", qualification, risk, asks, false);
        let mut target = compatibility_field(None);
        target.reference = DefinitionReference::new("target-column-1", "target-schema-1");
        target.native_type = native_type.into();
        let manifest = compatibility_manifest(native_type, rule, true);
        let mut input = FieldCompatibilityInput {
            source_field: compatibility_field(None),
            target_field: target,
            source_type_mapping: compatibility_mapping(),
            source_connector: ConnectorIdentity::new("mysql", "5.7"),
            sink_connector: ConnectorIdentity::new("mysql", "5.7"),
            source_build: None,
            target_build: Some(manifest.target_build.clone()),
            manifest: &manifest,
            operations: vec![Operation::Insert],
            presences: vec![PresenceState::Value],
            source_has_primary_key: true,
            options: compatibility_options(),
        };
        let first = explain_field_compatibility(input.clone()).unwrap();
        check_summary(&first);
        let plan = first.plan.as_ref().unwrap();
        if !asks {
            assert_eq!(first.status, CompatibilityStatus::Compatible);
            assert!(!first.requires_confirmation && first.failure.is_none());
            assert_eq!(plan.confirmation, PlanConfirmationState::NotRequired);
            continue;
        }
        assert_eq!(first.status, CompatibilityStatus::NeedsConfirmation);
        assert!(first.requires_confirmation && first.failure.is_some());
        assert_eq!(plan.confirmation, PlanConfirmationState::Required);
        input.options.confirmations.push(RiskConfirmation {
            source_field_lineage: plan.source_field.lineage_id.clone(),
            target_field_lineage: plan.target_field.lineage_id.clone(),
            rule: plan.rule.clone(),
            plan_digest: plan.plan_digest.clone(),
            actor: "operator-1".into(),
            confirmed_at: "2026-09-17T00:00:00Z".into(),
            reason: None,
        });
        let confirmed = explain_field_compatibility(input.clone()).unwrap();
        check_summary(&confirmed);
        assert!(confirmed.is_selectable() && confirmed.requires_confirmation);
        assert_eq!(confirmed.plan.unwrap().confirmation, PlanConfirmationState::Confirmed);
        input.source_has_primary_key = false;
        let refused = explain_field_compatibility(input).unwrap();
        assert!(refused.plan.is_none() && refused.summary.is_none() && refused.failure.is_some());
    }
}

#[test]
fn unqualified_target_probe_blocks_plan_selection() {
    let transaction = validate(insert_transaction()).unwrap();
    let source = compatibility_field(Some(0));
    let mut target = source.clone();
    target.reference = DefinitionReference::new("target-column-1", "target-schema-1");
    let manifest = compatibility_manifest(
        "bigint",
        compatibility_rule(
            "integer.exact",
            QualificationLevel::Exact,
            RiskLevel::NoRisk,
            false,
            true,
        ),
        true,
    );
    let mut input = compatibility_input(
        &transaction,
        source,
        target,
        compatibility_mapping(),
        &manifest,
        compatibility_options(),
    );
    let mut probe = target_capability_probe();
    probe.capabilities[0].status = CapabilityProbeStatus::PermissionDenied;
    probe.refresh_digest();
    input.options.target_probe = Some(probe);

    let error = explain_compatibility(input).unwrap_err();
    assert_eq!(error.code(), "target_capability.probe_not_qualified");
}

#[test]
fn compatibility_reports_unsupported_and_protects_key_fields() {
    let transaction = validate(insert_transaction()).unwrap();
    let source = compatibility_field(Some(0));
    let mut target = source.clone();
    target.reference = DefinitionReference::new("target-column-1", "target-schema-1");

    let unsupported_manifest = TargetCapabilityManifest::new(
        ConnectorIdentity::new("mysql", "5.7"),
        ServerBuildIdentity::new("mysql", "oracle", "5.7.44", "build-1"),
        Vec::new(),
        true,
    );
    let unsupported = explain_compatibility(compatibility_input(
        &transaction,
        source.clone(),
        target.clone(),
        compatibility_mapping(),
        &unsupported_manifest,
        compatibility_options(),
    ))
    .unwrap();
    assert_eq!(unsupported.status, CompatibilityStatus::Unsupported);
    assert_eq!(unsupported.failure.as_ref().unwrap().class, FailureClass::TargetCapability);

    let blocked_manifest = compatibility_manifest(
        "varchar(64)",
        compatibility_rule(
            "integer.lossy",
            QualificationLevel::ExplicitConversion,
            RiskLevel::High,
            true,
            false,
        ),
        true,
    );
    target.native_type = "varchar(64)".into();
    let blocked = explain_compatibility(compatibility_input(
        &transaction,
        source,
        target,
        compatibility_mapping(),
        &blocked_manifest,
        compatibility_options(),
    ))
    .unwrap();
    assert_eq!(blocked.status, CompatibilityStatus::Blocked);
    assert_eq!(blocked.reason_code, "target_capability.lossy_key_conversion");
    assert_eq!(blocked.risk, RiskLevel::Critical);
}

#[test]
fn compatibility_failures_distinguish_stale_input_and_source_contract() {
    let transaction = validate(insert_transaction()).unwrap();
    let mut source = compatibility_field(Some(0));
    source.reference = DefinitionReference::new("", "");
    let target = compatibility_field(Some(0));
    let manifest = compatibility_manifest(
        "bigint",
        compatibility_rule(
            "integer.exact",
            QualificationLevel::Exact,
            RiskLevel::NoRisk,
            false,
            true,
        ),
        true,
    );
    let stale = explain_compatibility(compatibility_input(
        &transaction,
        source,
        target.clone(),
        compatibility_mapping(),
        &manifest,
        compatibility_options(),
    ))
    .unwrap_err();
    assert_eq!(stale.class(), FailureClass::StaleInput);
    assert_eq!(stale.code(), "compatibility.missing_schema_fingerprint");

    let mut mapping = compatibility_mapping();
    mapping.logical_type = LogicalType::Boolean;
    let source_contract = explain_compatibility(compatibility_input(
        &transaction,
        compatibility_field(Some(0)),
        target,
        mapping,
        &manifest,
        compatibility_options(),
    ))
    .unwrap_err();
    assert_eq!(source_contract.class(), FailureClass::SourceContract);
    assert_eq!(source_contract.code(), "source_contract.type_mapping_mismatch");

    let diagnostic = TargetCapabilityFailure::new("target representation is unavailable");
    assert_eq!(diagnostic.class(), FailureClass::TargetCapability);
    assert_eq!(diagnostic.stable_code(), "target_capability.unspecified");
    assert!(!diagnostic.is_retryable());
    let json = written(&diagnostic);
    assert!(json.contains("TARGET_CAPABILITY"));
    assert!(json.contains("target_capability.unspecified"));
}

#[test]
fn target_apply_error_contract_only_retries_safe_transaction_failures() {
    assert!(TargetApplyErrorKind::Connection.is_retryable());
    assert!(TargetApplyErrorKind::LockTimeout.is_retryable());
    assert!(!TargetApplyErrorKind::Conversion.is_retryable());
    assert!(!TargetApplyErrorKind::Constraint.is_retryable());
    assert!(!TargetApplyErrorKind::Sql.is_retryable());
    assert_eq!(
        TargetApplyErrorKind::CommitUnknown.retry_classification(),
        RetryClassification::CommitUnknown
    );
    assert_eq!(TargetApplyErrorKind::LockTimeout.stable_code(), "target_apply.lock_timeout");
    let json = written(&CommitResolution::Unprovable);
    assert_eq!(json, "\"UNPROVABLE\"");
}

#[test]
fn every_apply_failure_has_one_class_phase_and_code() {
    for (kind, class, phase, code) in [
        (
            TargetApplyErrorKind::Conversion,
            FailureClass::TargetCapability,
            FailurePhase::Conversion,
            "target_apply.conversion_failed",
        ),
        (
            TargetApplyErrorKind::Capability,
            FailureClass::TargetCapability,
            FailurePhase::CapabilityQualification,
            "target_apply.capability_failed",
        ),
        (
            TargetApplyErrorKind::Constraint,
            FailureClass::InvalidInput,
            FailurePhase::Apply,
            "target_apply.constraint_failed",
        ),
        (
            TargetApplyErrorKind::Sql,
            FailureClass::InvalidInput,
            FailurePhase::Apply,
            "target_apply.sql_error",
        ),
        (
            TargetApplyErrorKind::Connection,
            FailureClass::TransientTarget,
            FailurePhase::Apply,
            "target_apply.connection_failed",
        ),
        (
            TargetApplyErrorKind::CommitUnknown,
            FailureClass::CommitUnknown,
            FailurePhase::Commit,
            "target_apply.commit_unknown",
        ),
        (
            TargetApplyErrorKind::CheckpointConflict,
            FailureClass::InvalidInput,
            FailurePhase::Apply,
            "target_apply.checkpoint_conflict",
        ),
    ] {
        assert_eq!(kind.failure_class(), class);
        assert_eq!(kind.phase(), phase);
        assert_eq!(kind.stable_code(), code);
    }
}

#[test]
fn catalog_planning_needs_no_row() {
    let manifest = compatibility_manifest(
        "bigint",
        compatibility_rule(
            "integer.exact",
            QualificationLevel::Exact,
            RiskLevel::NoRisk,
            false,
            true,
        ),
        true,
    );
    let mut target = compatibility_field(Some(0));
    target.reference = DefinitionReference::new("target-column-1", "target-schema-1");
    let input = FieldCompatibilityInput {
        source_field: compatibility_field(Some(0)),
        target_field: target,
        source_type_mapping: compatibility_mapping(),
        source_connector: ConnectorIdentity::new("mysql", "5.7"),
        sink_connector: ConnectorIdentity::new("mysql", "5.7"),
        source_build: None,
        target_build: Some(manifest.target_build.clone()),
        manifest: &manifest,
        operations: vec![Operation::Insert],
        presences: vec![PresenceState::Value],
        source_has_primary_key: true,
        options: compatibility_options(),
    };
    let explained = explain_field_compatibility(input.clone()).unwrap();
    assert_eq!(explained.status, CompatibilityStatus::Compatible);
    assert!(explained.plan.as_ref().unwrap().verify_digest());
    assert_eq!(plan_field_compatibility(input.clone()).unwrap(), explained);

    let mut keyless = input.clone();
    keyless.source_has_primary_key = false;
    let refused = explain_field_compatibility(keyless).unwrap();
    assert_eq!(refused.status, CompatibilityStatus::Blocked);
    assert_eq!(refused.reason_code, "target_capability.primary_key_required");
    assert_eq!(refused.risk, RiskLevel::Critical);
    assert!(refused.plan.is_none());

    let mut deleting = input;
    deleting.operations = vec![Operation::Delete];
    assert_ne!(
        explain_field_compatibility(deleting).unwrap().status,
        CompatibilityStatus::Compatible
    );
}

#[test]
fn planning_says_what_explaining_says() {
    let transaction = validate(insert_transaction()).unwrap();
    let manifest = compatibility_manifest(
        "bigint",
        compatibility_rule(
            "integer.exact",
            QualificationLevel::Exact,
            RiskLevel::NoRisk,
            false,
            true,
        ),
        true,
    );
    let mut target = compatibility_field(Some(0));
    target.reference = DefinitionReference::new("target-column-1", "target-schema-1");
    let input = compatibility_input(
        &transaction,
        compatibility_field(Some(0)),
        target,
        compatibility_mapping(),
        &manifest,
        compatibility_options(),
    );
    assert_eq!(
        plan_compatibility(input.clone()).unwrap(),
        explain_compatibility(input).unwrap()
    );
}

#[test]
fn target_metadata_is_built_field_by_field() {
    let metadata = TargetColumnMetadata::new("f")
        .with_native_type("decimal(10,2)")
        .with_precision(10)
        .with_scale(2)
        .with_length(5)
        .with_charset("utf8mb4")
        .with_collation("utf8mb4_bin")
        .with_timezone("UTC")
        .with_domain("d")
        .with_extension("e");
    assert_eq!(metadata.definition_fingerprint, "f");
    assert_eq!(metadata.native_type, "decimal(10,2)");
    assert_eq!((metadata.precision, metadata.scale, metadata.length), (Some(10), Some(2), Some(5)));
    assert_eq!(metadata.charset.as_deref(), Some("utf8mb4"));
    assert_eq!(metadata.collation.as_deref(), Some("utf8mb4_bin"));
    assert_eq!(metadata.timezone.as_deref(), Some("UTC"));
    assert_eq!(metadata.domain.as_deref(), Some("d"));
    assert_eq!(metadata.extension.as_deref(), Some("e"));
    let entry = CapabilityProbeEntry::installed("x").with_version("1").with_evidence_digest("d");
    assert_eq!(entry.status, CapabilityProbeStatus::Installed);
    assert_eq!(entry.version.as_deref(), Some("1"));
    assert_eq!(entry.evidence_digest.as_deref(), Some("d"));
}

#[test]
fn complete_texts_are_never_narrowed() {
    for (source, target) in [
        ("utf8", "UTF8"),
        ("utf8", "utf8mb4"),
        ("utf8mb4", "UTF8"),
        ("UTF8", "utf8mb4"),
        ("UTF8", "UTF8"),
        ("utf8", "Utf8"),
        ("LATIN1", "latin1"),
    ] {
        assert!(text_charsets_are_compatible(source, target), "{source} to {target}");
    }
    for (source, target) in [
        ("UTF8", "utf8"),
        ("UTF8", "Utf8"),
        ("utf8mb4", "utf8"),
        ("latin1", "utf8mb4"),
    ] {
        assert!(!text_charsets_are_compatible(source, target), "{source} to {target}");
    }
}

#[test]
fn digests_are_spelled_with_lower_case_digits() {
    let digest = LogicalValue::Boolean { value: true }.stable_digest();
    assert_eq!(digest.len(), 64);
    assert!(digest.chars().all(|c| matches!(c, '0'..='9' | 'a'..='f')));
}

#[test]
fn orders_without_meaning_leave_a_digest_at_any_depth() {
    let entry = |key: &str, value: JsonValue| JsonEntry { key: key.into(), value };
    let inner = |first: &str, second: &str| {
        JsonValue::Object(vec![
            entry(first, JsonValue::String(first.into())),
            entry(second, JsonValue::String(second.into())),
        ])
    };
    let document = |turned: bool| LogicalValue::Json {
        value: JsonValue::Array(vec![if turned { inner("b", "a") } else { inner("a", "b") }]),
    };
    let members = |turned: bool| LogicalValue::SetValue {
        members: if turned { vec!["y".into(), "x".into()] } else { vec!["x".into(), "y".into()] },
    };
    let map = |turned: bool| {
        let one = MapEntry { key: members(turned), value: document(turned) };
        let two = MapEntry { key: document(turned), value: members(turned) };
        LogicalValue::MapValue { entries: if turned { vec![two, one] } else { vec![one, two] } }
    };
    let array = |turned: bool| LogicalValue::Array { elements: vec![map(turned), members(turned)] };
    assert_eq!(array(false).stable_digest(), array(true).stable_digest());
    let swapped = LogicalValue::Array { elements: vec![members(false), map(false)] };
    assert_ne!(array(false).stable_digest(), swapped.stable_digest());
}

#[test]
fn bound_source_evidence_is_told_apart() {
    let mapping = || {
        SourceTypeMapping::new(
            ConnectorIdentity::new("mysql", "5.7"),
            "int",
            LogicalType::integer(true, 32),
            "mapping",
            "v1",
        )
    };
    let build = |patch: &str| ServerBuildIdentity::new("mysql", "oracle", patch, patch);
    let bound = |definition: &str, patch: &str, environment: &str| {
        mapping().with_source_evidence(definition, build(patch), environment).evidence_digest
    };
    assert_eq!(bound("d", "5.7.44", "e"), bound("d", "5.7.44", "e"));
    assert_ne!(bound("d", "5.7.44", "e"), bound("c", "5.7.44", "e"));
    assert_ne!(bound("d", "5.7.44", "e"), bound("d", "5.7.43", "e"));
    assert_ne!(bound("d", "5.7.44", "e"), bound("d", "5.7.44", "f"));
}
