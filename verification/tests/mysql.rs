//! MySQL: declared types, captured values, published manifests and positions.
use cdc_contract::change_event::compatibility::logical_type::{LengthUnit, LogicalType};
use cdc_contract::change_event::compatibility::types::{QualificationLevel, ServerBuildIdentity};
use cdc_contract::change_event::model::{LogicalValue, SpatialFormat};
use cdc_contract::mysql_5_7::binlog::{resolve_start, BinlogPosition, BinlogStartMode};
use cdc_contract::mysql_5_7::error::CaptureErrorKind;
use cdc_contract::mysql_5_7::snapshot::check_snapshot_scope;
use cdc_contract::mysql_5_7::type_mapping::{
    decode_enum_set_ordinal, decode_set_bitmask, decode_spatial_value, map_source_type,
    source_type_mapping, validate_native_type,
};
use cdc_contract::mysql_5_7::value::{decode_mysql_value, ColumnInfo};
use cdc_contract::mysql_8_0::compatibility::compatibility_manifest;
use cdc_contract::mysql_8_0::position::compare_position;
use cdc_contract::mysql_source_contract::wire::SqlValue;
use std::cmp::Ordering;
use std::collections::BTreeSet;

fn current_position() -> BinlogPosition {
    BinlogPosition { file: "mysql-bin.000001".into(), position: 123 }
}

#[test]
fn auto_prefers_gtid_when_enabled() {
    let (mode, position, sids) = resolve_start(
        BinlogStartMode::Auto,
        None,
        None,
        current_position(),
        "ON",
        "430c326c-ab91-11f1-a23b-0242ac160004:1-10",
    )
    .unwrap();
    assert_eq!(mode, BinlogStartMode::Gtid);
    assert_eq!(position.position, 123);
    assert_eq!(sids.len(), 1);
}

#[test]
fn auto_falls_back_to_position_when_gtid_is_disabled() {
    let (mode, _, sids) = resolve_start(
        BinlogStartMode::Auto,
        None,
        None,
        current_position(),
        "OFF",
        "430c326c-ab91-11f1-a23b-0242ac160004:1-10",
    )
    .unwrap();
    assert_eq!(mode, BinlogStartMode::Position);
    assert!(sids.is_empty());
}

#[test]
fn explicit_gtid_rejects_disabled_source() {
    let error = resolve_start(
        BinlogStartMode::Gtid,
        None,
        Some("430c326c-ab91-11f1-a23b-0242ac160004:1"),
        current_position(),
        "OFF",
        "",
    )
    .unwrap_err();
    assert!(error.message().contains("GTID_MODE=OFF"));
}

#[test]
fn manifest_is_versioned_and_contains_cross_connector_conversions() {
    let manifest = cdc_contract::mysql_5_7::compatibility::compatibility_manifest(
        ServerBuildIdentity::new("mysql", "oracle", "5.7.44", "mysql-5.7.44"),
    );
    assert!(manifest.verify_digest());
    manifest.validate().unwrap();
    assert!(manifest.capabilities.iter().any(|entry| {
        entry.source_logical_type == LogicalType::Boolean
            && entry.target.native_type == "tinyint(1)"
    }));
    assert!(manifest.capabilities.iter().any(|entry| {
        entry.source_logical_type == LogicalType::Uuid && entry.target.native_type == "char(36)"
    }));
}

#[test]
fn compatibility_manifest_is_versioned_and_contains_cross_connector_conversions() {
    let manifest = cdc_contract::mysql_8_4::compatibility::compatibility_manifest(
        ServerBuildIdentity::new("mysql", "oracle", "8.4.8", "mysql-8.4.8"),
    );
    assert!(manifest.verify_digest());
    manifest.validate().unwrap();
    assert!(manifest.capabilities.iter().any(|entry| {
        entry.source_logical_type == LogicalType::Boolean
            && entry.target.native_type == "tinyint(1)"
    }));
}

#[test]
fn timestamp_date_values_are_instants() {
    let info = ColumnInfo {
        name: "created_at".into(),
        native_type: "timestamp(6)".into(),
        data_type: "timestamp".into(),
        charset: None,
        collation: None,
        generated: false,
        primary_key_ordinal: None,
    };
    let value = decode_mysql_value(&SqlValue::Date(2026, 9, 14, 1, 2, 3, 123456), &info).unwrap();
    assert!(matches!(
        value,
        LogicalValue::Instant {
            unix_seconds,
            nanoseconds: 123_456_000,
        } if unix_seconds == "1789347723"
    ));
}

#[test]
fn enum_and_set_bytes_decode_as_labels_and_members() {
    let enum_info = ColumnInfo {
        name: "state".into(),
        native_type: "enum('Ready','blocked')".into(),
        data_type: "enum".into(),
        charset: None,
        collation: None,
        generated: false,
        primary_key_ordinal: None,
    };
    assert!(matches!(
        decode_mysql_value(&SqlValue::Bytes(b"blocked".to_vec()), &enum_info).unwrap(),
        LogicalValue::Enum { label } if label == "blocked"
    ));
    let set_info = ColumnInfo {
        name: "flags".into(),
        native_type: "set('a','b')".into(),
        data_type: "set".into(),
        charset: None,
        collation: None,
        generated: false,
        primary_key_ordinal: None,
    };
    assert!(matches!(
        decode_mysql_value(&SqlValue::Bytes(b"b,a".to_vec()), &set_info).unwrap(),
        LogicalValue::SetValue { members } if members == vec!["b", "a"]
    ));
    assert!(decode_mysql_value(&SqlValue::Bytes(b"unknown".to_vec()), &enum_info).is_err());
}

#[test]
fn cancelled_snapshot_does_not_connect() {
    assert_eq!(
        check_snapshot_scope(true, &Vec::new()).err().unwrap().kind(),
        CaptureErrorKind::Interrupted
    );
}

#[test]
fn maps_signedness_width_and_declared_parameters() {
    assert_eq!(
        source_type_mapping("INT(11) UNSIGNED", None, None).unwrap().logical_type,
        LogicalType::integer(false, 32)
    );
    assert_eq!(
        source_type_mapping("mediumint", None, None).unwrap().logical_type,
        LogicalType::integer(true, 24)
    );
    assert_eq!(
        source_type_mapping("decimal(30,6)", None, None).unwrap().logical_type,
        LogicalType::decimal(30, 6)
    );
    assert_eq!(
        source_type_mapping("datetime(6)", None, None).unwrap().logical_type,
        LogicalType::LocalDatetime { fractional_precision: 6 }
    );
}

#[test]
fn tinyint_one_is_integer_not_boolean() {
    assert_eq!(
        source_type_mapping("tinyint(1)", None, None).unwrap().logical_type,
        LogicalType::integer(true, 8)
    );
}

#[test]
fn text_mapping_requires_catalog_encoding_and_keeps_bounds() {
    let mapping =
        source_type_mapping("varchar(255)", Some("utf8mb4"), Some("utf8mb4_bin")).unwrap();
    assert_eq!(
        mapping.logical_type,
        LogicalType::Text {
            charset: "utf8mb4".into(),
            max_length: Some(255),
            length_unit: LengthUnit::Characters,
            collation: None,
        }
    );
    assert!(source_type_mapping("varchar(255)", None, None).is_err());
}

#[test]
fn texts_map_by_their_character_set_and_never_by_a_collation() {
    let large = [
        ("tinytext", 255, LengthUnit::Bytes),
        ("text", 65_535, LengthUnit::Bytes),
        ("mediumtext", 16_777_215, LengthUnit::Bytes),
        ("longtext", 4_294_967_295, LengthUnit::Bytes),
        ("char(3)", 3, LengthUnit::Characters),
        ("VARCHAR(9)", 9, LengthUnit::Characters),
    ];
    for (declaration, length, length_unit) in large {
        for collation in [None, Some("utf8mb4_bin")] {
            let mapping =
                source_type_mapping(declaration, Some(" UTF8MB4 "), collation).unwrap();
            assert_eq!(
                mapping.logical_type,
                LogicalType::Text {
                    charset: "utf8mb4".into(),
                    max_length: Some(length),
                    length_unit,
                    collation: None,
                }
            );
        }
        for charset in [None, Some(""), Some("  "), Some("unknown"), Some(" UnKnown ")] {
            let error = source_type_mapping(declaration, charset, None).unwrap_err();
            assert_eq!(error.code(), "mysql57.source_type.invalid_declaration");
            validate_native_type(declaration).unwrap();
        }
    }
}

#[test]
fn char_mapping_is_text_with_fixed_declared_length() {
    let mapping = source_type_mapping("char(10)", Some("utf8mb4"), Some("utf8mb4_bin")).unwrap();
    assert_eq!(
        mapping.logical_type,
        LogicalType::Text {
            charset: "utf8mb4".into(),
            max_length: Some(10),
            length_unit: LengthUnit::Characters,
            collation: None,
        }
    );
}

#[test]
fn unsupported_or_out_of_range_types_fail_closed() {
    assert_eq!(
        source_type_mapping("geometry", Some("utf8mb4"), None).unwrap_err().code(),
        "mysql57.source_type.unsupported"
    );
    assert!(source_type_mapping("decimal(66,0)", None, None).is_err());
    assert!(source_type_mapping("datetime(7)", None, None).is_err());
    assert!(source_type_mapping("decimal(10,2) unsigned", None, None).is_err());
    assert_eq!(
        source_type_mapping("bit(8)", None, None).unwrap().logical_type,
        LogicalType::bit_string(8)
    );
    assert_eq!(
        source_type_mapping("binary(16)", None, None).unwrap().logical_type,
        LogicalType::binary(Some(16))
    );
}

#[test]
fn enum_and_set_preserve_labels_without_ordinal_semantics() {
    assert_eq!(
        source_type_mapping("ENUM('Ready','blocked')", None, None).unwrap().logical_type,
        LogicalType::Enum { members: vec!["Ready".into(), "blocked".into()] }
    );
    assert_eq!(
        source_type_mapping("set('a','b\\'s')", None, None).unwrap().logical_type,
        LogicalType::SetType { members: vec!["a".into(), "b's".into()] }
    );
    assert!(source_type_mapping("enum('a','a')", None, None).is_err());
    assert!(source_type_mapping("set(a,b)", None, None).is_err());
}

#[test]
fn native_validation_rejects_unsupported_null_only_columns() {
    assert!(validate_native_type("enum('a','b')").is_ok());
    assert!(validate_native_type("varchar(255)").is_ok());
}

#[test]
fn maps_declared_spatial_subtypes_and_rejects_unbounded_geometry() {
    assert_eq!(
        source_type_mapping("POINT SRID 4326", None, None).unwrap().logical_type,
        LogicalType::Spatial { subtype: "point".into(), srid: Some(4326), dimensions: 2 }
    );
    assert_eq!(
        source_type_mapping("linestring", None, None).unwrap().logical_type,
        LogicalType::Spatial { subtype: "linestring".into(), srid: None, dimensions: 2 }
    );
    assert_eq!(
        source_type_mapping("geometry", None, None).unwrap_err().code(),
        "mysql57.source_type.unsupported"
    );
}

#[test]
fn rotation_is_numeric_and_history_changes_are_rejected() {
    assert_eq!(compare_position("bin.10", 4, "bin.9", 999).unwrap(), Ordering::Greater);
    assert_eq!(compare_position("bin.10", 4, "bin.10", 8).unwrap(), Ordering::Less);
    assert!(compare_position("other.11", 4, "bin.10", 8).is_err());
}

fn build() -> ServerBuildIdentity {
    ServerBuildIdentity::new("mysql", "oracle", "8.0.36", "mysql-8.0.36")
}

#[test]
fn manifest_is_versioned_valid_and_reproducible() {
    let first = compatibility_manifest(build());
    let second = compatibility_manifest(build());
    assert_eq!(first, second);
    assert!(first.verify_digest());
    first.validate().unwrap();
    assert!(first.capabilities.iter().any(|entry| entry.target.native_type == "bigint unsigned"));
    assert!(first.capabilities.iter().any(|entry| entry.target.native_type == "decimal(30,6)"));
}

#[test]
fn exact_manifest_does_not_qualify_an_unlisted_text_bound() {
    let manifest = compatibility_manifest(build());
    assert!(!manifest.capabilities.iter().any(|entry| {
        entry.source_logical_type
            == LogicalType::Text {
                charset: "utf8mb4".into(),
                max_length: Some(257),
                length_unit: LengthUnit::Characters,
                collation: None,
            }
    }));
}

#[test]
fn text_conversion_manifest_includes_precreated_char_targets() {
    let manifest = compatibility_manifest(build());
    assert!(manifest.capabilities.iter().any(|entry| {
        entry.target.native_type == "char(255)"
            && entry.target.parameters.get("conversion_kind") == Some("text")
    }));
}

#[test]
fn ordinals_and_bitmasks_name_declared_members() {
    let members = || vec!["a".to_owned(), "b".to_owned(), "c".to_owned()];
    let labels = LogicalType::Enum { members: members() };
    let set = LogicalType::SetType { members: members() };
    assert_eq!(
        decode_enum_set_ordinal(&labels, 2).unwrap(),
        LogicalValue::Enum { label: "b".into() }
    );
    assert_eq!(
        decode_enum_set_ordinal(&labels, 0).unwrap_err(),
        "ENUM ordinal is outside the declared label list"
    );
    assert!(decode_enum_set_ordinal(&labels, 4).is_err());
    assert_eq!(
        decode_set_bitmask(&set, &vec![0b101]).unwrap(),
        LogicalValue::SetValue { members: vec!["a".into(), "c".into()] }
    );
    assert_eq!(
        decode_set_bitmask(&set, &vec![0b1000]).unwrap_err(),
        "SET bitmask contains a member outside the declared list"
    );
    assert!(decode_set_bitmask(&set, &vec![0, 1]).is_err());
    assert_eq!(
        decode_set_bitmask(&set, &vec![0; 65]).unwrap_err(),
        "SET bitmask is wider than the portable 64-bit SET limit"
    );
    assert_eq!(
        decode_enum_set_ordinal(&LogicalType::Boolean, 1).unwrap_err(),
        "native type is not ENUM or SET"
    );
}

#[test]
fn spatial_values_keep_their_wire_form_and_reference_system() {
    let declared = LogicalType::Spatial { subtype: "point".into(), srid: None, dimensions: 2 };
    let mut bytes = 4326u32.to_le_bytes().to_vec();
    bytes.push(1);
    bytes.extend_from_slice(&1u32.to_le_bytes());
    bytes.extend_from_slice(&[0; 16]);
    assert_eq!(
        decode_spatial_value(&declared, &bytes).unwrap(),
        LogicalValue::Spatial {
            format: SpatialFormat::Wkb,
            bytes_base64url: "AQEAAAAAAAAAAAAAAAAAAAAAAAAA".into(),
            geometry_type: "point".into(),
            dimensions: 2,
            srid: Some(4326),
            crs: Some("srid:4326".into()),
        }
    );
    let refused = |bytes: Vec<u8>, declared: &LogicalType| {
        decode_spatial_value(declared, &bytes).unwrap_err()
    };
    assert_eq!(
        refused(vec![0; 8], &declared),
        "MySQL spatial value is missing its SRID or WKB header"
    );
    let elsewhere =
        LogicalType::Spatial { subtype: "point".into(), srid: Some(3857), dimensions: 2 };
    assert_eq!(
        refused(bytes.clone(), &elsewhere),
        "MySQL spatial value SRID differs from the column declaration"
    );
    let line = LogicalType::Spatial { subtype: "linestring".into(), srid: None, dimensions: 2 };
    assert_eq!(
        refused(bytes.clone(), &line),
        "MySQL spatial WKB header differs from the column declaration"
    );
    let mut marker = bytes.clone();
    marker[4] = 7;
    assert_eq!(refused(marker, &declared), "spatial WKB byte order marker is invalid");
    let mut negative = bytes;
    negative[3] = 0x80;
    assert_eq!(refused(negative, &declared), "MySQL spatial SRID exceeds the portable range");
}

#[test]
fn a_mapping_has_evidence_of_its_declaration() {
    let mapping = map_source_type("varchar(10)", Some("utf8mb4"), None).unwrap();
    let again = source_type_mapping("varchar(10)", Some("utf8mb4"), None).unwrap();
    assert_eq!(mapping, again);
    assert_eq!(mapping.connector.kind, "mysql");
    let evidence = mapping.evidence_digest.clone().unwrap();
    assert_eq!(evidence.len(), 64);
    let other = source_type_mapping("varchar(11)", Some("utf8mb4"), None).unwrap();
    assert_ne!(other.evidence_digest.unwrap(), evidence);
    let bound = mapping.with_source_evidence("fingerprint", build(), "environment");
    assert_ne!(bound.evidence_digest.unwrap(), evidence);
    assert_eq!(bound.source_definition_fingerprint.as_deref(), Some("fingerprint"));
}

#[test]
fn the_connectors_publish_under_their_own_names() {
    let five = cdc_contract::mysql_5_7::compatibility::compatibility_manifest(build());
    let eight = compatibility_manifest(build());
    let nine = cdc_contract::mysql_8_4::compatibility::compatibility_manifest(build());
    assert_ne!(five.connector, eight.connector);
    assert_ne!(eight.connector, nine.connector);
    for manifest in [&five, &eight, &nine] {
        manifest.validate().unwrap();
        let mut codes: Vec<&str> =
            manifest.capabilities.iter().map(|entry| entry.code.as_str()).collect();
        codes.sort_unstable();
        codes.dedup();
        assert_eq!(codes.len(), manifest.capabilities.len());
    }
    let mut stale = five;
    stale.requires_primary_key = !stale.requires_primary_key;
    assert!(!stale.verify_digest());
    assert!(stale.validate().is_err());
}

#[test]
fn published_entries_stand_in_every_manifest() {
    let manifests = [
        cdc_contract::mysql_5_7::compatibility::capability_manifest_for(build()),
        cdc_contract::mysql_8_0::compatibility::capability_manifest_for(build()),
        cdc_contract::mysql_8_4::compatibility::capability_manifest_for(build()),
    ];
    for manifest in manifests {
        manifest.validate().unwrap();
        assert!(manifest.requires_primary_key);
        let codes: BTreeSet<&str> =
            manifest.capabilities.iter().map(|entry| entry.code.as_str()).collect();
        assert_eq!(codes.len(), manifest.capabilities.len());
        for entry in &manifest.capabilities {
            let exact = entry.rule.qualification == QualificationLevel::Exact;
            assert_eq!(entry.rule.allows_key, exact);
            assert_eq!(entry.rule.requires_confirmation, !exact);
        }
    }
}

#[test]
fn another_build_never_inherits_a_manifest() {
    let first = compatibility_manifest(build());
    let second = compatibility_manifest(ServerBuildIdentity::new(
        "mysql",
        "oracle",
        "8.0.37",
        "mysql-8.0.37",
    ));
    assert_eq!(first.capabilities, second.capabilities);
    assert_ne!(first.digest, second.digest);
    let mut changed = compatibility_manifest(build());
    changed.requires_primary_key = false;
    assert!(!changed.verify_digest());
    changed.requires_primary_key = true;
    assert!(changed.verify_digest());
    changed.digest = String::new();
    assert!(!changed.verify_digest());
}

#[test]
fn native_types_are_those_with_a_mapping() {
    for native in ["enum('a','b')", "varchar(255)", "varchar(", "bigint(20) unsigned", "geometry2"] {
        let mapping = source_type_mapping(native, Some("utf8mb4"), None);
        match validate_native_type(native) {
            Ok(_) => assert!(mapping.is_ok()),
            Err(error) => assert_eq!(mapping.unwrap_err().message(), error.message()),
        }
    }
    validate_native_type("enum('a','b')").unwrap();
    validate_native_type("varchar(255)").unwrap();
}
