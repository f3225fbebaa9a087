//! Values that a saved plan converts, and the laws of texts, numbers and order.
use cdc_contract::change_event::compatibility::plan::ColumnConversionPlan;
use cdc_contract::change_event::compatibility::types::{
    ConnectorIdentity, DefinitionReference, FailurePolicy, LocatorImpact, LossAssessment,
    PlanConfirmationState, QualificationLevel, RiskLevel, RuleReference, TargetRepresentation,
};
use cdc_contract::change_event::compatibility::values::check::{
    validate_datum_against_plan, validate_value_against_plan,
};
use cdc_contract::change_event::compatibility::values::convert::convert_transaction_with_plans;
use cdc_contract::change_event::compatibility::values::json_text::DoubleText;
use cdc_contract::change_event::model::{
    ChangeTransaction, ColumnDatum, Datum, JsonEntry, JsonValue, LogicalValue, MapEntry, Operation,
    RowChange, Source,
};
use cdc_contract::mysql_source_contract::cursor::binlog_cursor;
use cdc_contract::parameters::Parameters;

fn plan(target: &[(&str, &str)], chosen: &[(&str, &str)]) -> ColumnConversionPlan {
    let mut representation = TargetRepresentation::new("any");
    for (key, value) in target {
        representation.parameters.insert(key, value);
    }
    let mut parameters = Parameters::new();
    for (key, value) in chosen {
        parameters.insert(key, value);
    }
    ColumnConversionPlan {
        format: "cdc.change-event-compatibility.v0.1".into(),
        route_id: "route-1".into(),
        configuration_revision: "1".into(),
        source_field: DefinitionReference::new("catalog:s.t.c", "a"),
        target_field: DefinitionReference::new("target", "b"),
        source_connector: ConnectorIdentity::new("mysql", "5.7"),
        sink_connector: ConnectorIdentity::new("mysql", "8.4"),
        source_build: None,
        target_build: None,
        source_mapping_id: "m".into(),
        source_mapping_version: "1".into(),
        target: representation,
        rule: RuleReference { id: "rule".into(), version: "1".into() },
        rule_digest: "r".into(),
        capability_code: "code".into(),
        capability_manifest_digest: "m".into(),
        target_probe_digest: None,
        qualification: QualificationLevel::ExplicitConversion,
        risk: RiskLevel::NoRisk,
        risk_code: None,
        loss: LossAssessment::default(),
        examples: vec![],
        locator_impact: LocatorImpact::NotUsed,
        confirmation: PlanConfirmationState::NotRequired,
        parameters,
        failure_policy: FailurePolicy::Reject,
        input_digest: "i".into(),
        plan_digest: "p".into(),
    }
}

fn transaction(datum: Datum) -> ChangeTransaction {
    ChangeTransaction {
        source: Source { kind: "mysql".into(), version: "5.7.44".into(), id: "x".into() },
        id: "x:1".into(),
        begin_cursor: binlog_cursor("b.1", 4),
        commit_cursor: binlog_cursor("b.1", 9),
        changes: vec![RowChange {
            database: None,
            operation: Operation::Insert,
            schema: "s".into(),
            table: "t".into(),
            source_cursor: binlog_cursor("b.1", 5),
            source_timestamp: 0,
            schema_basis: "fixture".into(),
            before: None,
            after: Some(vec![ColumnDatum {
                ordinal: 0,
                name: "c".into(),
                native_type: "any".into(),
                primary_key_ordinal: None,
                generated: false,
                collation: None,
                datum,
            }]),
        }],
    }
}

/// What a plan makes of one value, or the code of its refusal.
fn converted(plan: ColumnConversionPlan, value: LogicalValue) -> Result<LogicalValue, String> {
    match convert_transaction_with_plans(transaction(Datum::Value(value)), &vec![plan], &vec![]) {
        Ok(mut result) => match result.changes.remove(0).after.unwrap().remove(0).datum {
            Datum::Value(value) => Ok(value),
            _ => unreachable!(),
        },
        Err(failure) => Err(failure.stable_code().to_owned()),
    }
}

fn integer(value: &str) -> LogicalValue {
    LogicalValue::Integer { signed: true, bits: 64, value: value.into() }
}

#[test]
fn integers_must_fit_the_range_that_was_saved() {
    let range = [
        ("range_kind", "integer"),
        ("range_check", "strict"),
        ("target_signed", "true"),
        ("target_bits", "8"),
        ("target_min", "-128"),
        ("target_max", "127"),
        ("source_signed", "true"),
        ("source_bits", "64"),
    ];
    assert_eq!(converted(plan(&range, &[]), integer("127")).unwrap(), integer("127"));
    assert_eq!(
        converted(plan(&range, &[]), integer("128")).unwrap_err(),
        "target_capability.integer_overflow"
    );
    assert_eq!(
        converted(plan(&[("range_kind", "integer")], &[]), integer("1")).unwrap_err(),
        "target_capability.range_check_missing"
    );
    assert_eq!(
        converted(plan(&range, &[]), LogicalValue::Boolean { value: true }).unwrap_err(),
        "target_capability.integer_type_mismatch"
    );
    let failure = validate_value_against_plan(&plan(&range, &[]), &integer("-129")).unwrap_err();
    assert_eq!(failure.route_id.as_deref(), Some("route-1"));
    assert_eq!(failure.plan_digest.as_deref(), Some("p"));
    assert_eq!(failure.source_field_lineage.as_deref(), Some("catalog:s.t.c"));
    assert_eq!(failure.capability_identity.as_deref(), Some("code"));
}

#[test]
fn sets_take_the_order_of_the_target() {
    let members = [("conversion_kind", "set"), ("target_members", "[\"b\",\"a\",\"c\"]")];
    let set = |members: &[&str]| LogicalValue::SetValue {
        members: members.iter().map(|member| (*member).to_owned()).collect(),
    };
    assert_eq!(converted(plan(&members, &[]), set(&["a", "b"])).unwrap(), set(&["b", "a"]));
    assert_eq!(
        converted(plan(&members, &[]), set(&["a", "a"])).unwrap_err(),
        "target_capability.set_duplicate_member"
    );
    assert_eq!(
        converted(plan(&members, &[]), set(&["d"])).unwrap_err(),
        "target_capability.set_unknown_member"
    );
    assert_eq!(
        converted(plan(&members, &[]), LogicalValue::Enum { label: "d".into() }).unwrap_err(),
        "target_capability.enum_unknown_label"
    );
    assert_eq!(
        converted(plan(&[("conversion_kind", "set")], &[]), set(&[])).unwrap_err(),
        "target_capability.enum_set_mapping_missing"
    );
    assert_eq!(
        converted(plan(&[("conversion_kind", "set"), ("target_members", "[1]")], &[]), set(&[]))
            .unwrap_err(),
        "target_capability.enum_set_mapping_invalid"
    );
}

#[test]
fn local_times_and_instants_meet_at_a_fixed_offset() {
    let kinds = |source: &'static str, target: &'static str, precision: &'static str| {
        [
            ("conversion_kind", "temporal"),
            ("source_temporal_kind", source),
            ("target_temporal_kind", target),
            ("target_precision", precision),
        ]
    };
    let zone = [("precision_policy", "reject"), ("time_zone", "+08:00")];
    let local = LogicalValue::LocalDatetime {
        year: 2026,
        month: 9,
        day: 14,
        hour: 9,
        minute: 2,
        second: 3,
        microsecond: 120_000,
    };
    let instant =
        LogicalValue::Instant { unix_seconds: "1789347723".into(), nanoseconds: 120_000_000 };
    assert_eq!(
        converted(plan(&kinds("local_datetime", "instant", "6"), &zone), local.clone()).unwrap(),
        instant.clone()
    );
    assert_eq!(
        converted(plan(&kinds("instant", "local_datetime", "6"), &zone), instant.clone()).unwrap(),
        local.clone()
    );
    assert_eq!(
        converted(plan(&kinds("local_datetime", "instant", "1"), &zone), local.clone())
            .unwrap_err(),
        "target_capability.temporal_precision_loss"
    );
    assert_eq!(
        converted(plan(&kinds("local_datetime", "instant", "6"), &zone[..1]), local.clone())
            .unwrap_err(),
        "target_capability.timezone_missing"
    );
    assert_eq!(
        converted(plan(&kinds("local_datetime", "instant", "6"), &[]), local.clone()).unwrap_err(),
        "target_capability.temporal_precision_policy_missing"
    );
    assert_eq!(
        converted(plan(&kinds("duration", "instant", "6"), &zone), local).unwrap_err(),
        "target_capability.temporal_type_mismatch"
    );
}

#[test]
fn the_next_date_has_the_next_day_number() {
    let kinds = [
        ("conversion_kind", "temporal"),
        ("source_temporal_kind", "local_datetime"),
        ("target_temporal_kind", "instant"),
        ("target_precision", "6"),
    ];
    let zone = [("precision_policy", "reject"), ("time_zone", "+00:00")];
    let day_number = |year: u16, month: u8, day: u8| -> i64 {
        let midnight = LogicalValue::LocalDatetime {
            year,
            month,
            day,
            hour: 0,
            minute: 0,
            second: 0,
            microsecond: 0,
        };
        match converted(plan(&kinds, &zone), midnight).unwrap() {
            LogicalValue::Instant { unix_seconds, .. } => {
                unix_seconds.parse::<i64>().unwrap() / 86_400
            }
            _ => panic!("an instant was wanted"),
        }
    };
    assert_eq!(day_number(1970, 1, 1), 0);
    assert_eq!(day_number(2000, 1, 1), 10_957);
    for (date, next) in [
        ((1970, 1, 1), (1970, 1, 2)),
        ((1969, 12, 31), (1970, 1, 1)),
        ((2023, 4, 30), (2023, 5, 1)),
        ((2023, 7, 31), (2023, 8, 1)),
        ((2023, 2, 28), (2023, 3, 1)),
        ((2024, 2, 28), (2024, 2, 29)),
        ((2024, 2, 29), (2024, 3, 1)),
        ((1900, 2, 28), (1900, 3, 1)),
        ((2000, 2, 28), (2000, 2, 29)),
        ((2000, 2, 29), (2000, 3, 1)),
        ((1999, 12, 31), (2000, 1, 1)),
    ] {
        assert_eq!(day_number(next.0, next.1, next.2), day_number(date.0, date.1, date.2) + 1);
    }
}

#[test]
fn fixed_binaries_are_padded_as_the_plan_says() {
    let target = [
        ("conversion_kind", "binary"),
        ("binary_encoding", "raw_bytes"),
        ("source_length", "4"),
        ("target_length", "4"),
        ("target_fixed", "true"),
        ("target_padding", "zero"),
    ];
    let binary = |bytes: &str| LogicalValue::Binary { bytes_base64url: bytes.into() };
    assert_eq!(converted(plan(&target, &[]), binary("AQ")).unwrap(), binary("AQAAAA"));
    assert_eq!(
        converted(plan(&[("conversion_kind", "binary")], &[]), binary("AQ")).unwrap_err(),
        "target_capability.binary_encoding_invalid"
    );
    assert_eq!(
        converted(plan(&target, &[]), binary("AQIDBAU")).unwrap_err(),
        "target_capability.binary_length_out_of_range"
    );
}

#[test]
fn documents_become_normalized_texts() {
    let target = [("conversion_kind", "json"), ("target_charset", "utf8mb4")];
    let chosen = [("json_strategy", "normalized_text"), ("duplicate_keys", "reject")];
    let document = LogicalValue::Json {
        value: JsonValue::Object(vec![
            JsonEntry { key: "b".into(), value: JsonValue::UnsignedInteger("1".into()) },
            JsonEntry {
                key: "a".into(),
                value: JsonValue::Array(vec![
                    JsonValue::DoubleBits("3ff8000000000000".into()),
                    JsonValue::Null,
                ]),
            },
        ]),
    };
    let result = convert_transaction_with_plans(
        transaction(Datum::Value(document)),
        &vec![plan(&target, &chosen)],
        &vec![DoubleText { bits: 1.5f64.to_bits(), text: 1.5f64.to_string() }],
    )
    .unwrap();
    assert!(matches!(
        &result.changes[0].after.as_ref().unwrap()[0].datum,
        Datum::Value(LogicalValue::Text { charset, text: Some(text), .. })
            if charset == "utf8mb4" && text == "{\"a\":[1.5,null],\"b\":1}"
    ));
}

#[test]
fn only_present_values_are_converted() {
    let kept = |datum: Datum| {
        convert_transaction_with_plans(transaction(datum), &vec![plan(&[], &[])], &vec![])
    };
    assert!(matches!(
        kept(Datum::Null).unwrap().changes[0].after.as_ref().unwrap()[0].datum,
        Datum::Null
    ));
    assert!(matches!(
        kept(Datum::Unchanged).unwrap().changes[0].after.as_ref().unwrap()[0].datum,
        Datum::Unchanged
    ));
    assert_eq!(
        kept(Datum::Unavailable).unwrap_err().stable_code(),
        "target_capability.unavailable_value"
    );
    validate_datum_against_plan(&plan(&[], &[]), &Datum::Null).unwrap();
    assert_eq!(
        converted(plan(&[("conversion_kind", "other")], &[]), integer("1")).unwrap_err(),
        "target_capability.unknown_conversion_rule"
    );
    assert_eq!(
        converted(plan(&[("value_strategy", "other")], &[]), integer("1")).unwrap_err(),
        "target_capability.unknown_value_strategy"
    );
}

// ---------------------------------------------------------------------------
// Laws on chosen values
// ---------------------------------------------------------------------------

#[test]
fn a_digest_is_the_hash_of_the_compact_document() {
    assert_eq!(
        LogicalValue::Integer { signed: true, bits: 32, value: "7".into() }.stable_digest(),
        "b40adfcaa56d0c1f621932b688fb0a13464d160461872d2199b970e6a16bcaec"
    );
}

#[test]
fn order_is_no_part_of_a_set_or_a_map() {
    let set = |members: [&str; 2]| LogicalValue::SetValue {
        members: members.iter().map(|member| (*member).to_owned()).collect(),
    };
    assert_eq!(set(["a", "b"]).stable_digest(), set(["b", "a"]).stable_digest());
    assert_ne!(set(["a", "b"]).stable_digest(), set(["a", "c"]).stable_digest());
    let map = |keys: [&str; 2]| LogicalValue::MapValue {
        entries: keys
            .iter()
            .map(|key| MapEntry { key: integer(key), value: LogicalValue::Null })
            .collect(),
    };
    assert_eq!(map(["1", "2"]).stable_digest(), map(["2", "1"]).stable_digest());
}

#[test]
fn parameters_are_found_under_their_last_value() {
    let mut parameters = Parameters::new();
    parameters.insert("b", "1");
    parameters.insert("a", "2");
    parameters.insert("b", "3");
    assert_eq!(parameters.len(), 2);
    assert_eq!(parameters.get("b"), Some("3"));
    assert_eq!(parameters.get("c"), None);
    assert_eq!((parameters.key_at(0), parameters.key_at(1)), ("a", "b"));
}
