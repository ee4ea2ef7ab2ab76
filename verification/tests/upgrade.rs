use clove1db::backup::{BackupOperation, BackupRecord};
use clove1db::fsutil::is_corrupt_index_bytes;
use clove1db::json::{JsonNumber, JsonValue};
use clove1db::migration::types::{MigrationIndexEntry, MigrationKind, TargetConflictPolicy};
use clove1db::upgrade::backup_normalize::{check_bulk_entries, normalize_entry, verify_normalized, EntryAction};
use clove1db::upgrade::legacy_migration::{
    convert_manifest, is_legacy_root_index, layout_hash_or_unknown, parse_conflict_policy, sort_chain_entries,
    LegacyChainUpgrade, LegacyManifest, LegacySchemaRef, LegacyVersionScope,
};
use clove1db::upgrade::legacy_record::{backup_key, canonicalize_record, parse_backup_value, parse_versioned_key};
use clove1db::upgrade::migration_refs::{normalize_ref_json, refresh_ref_file};
use clove1db::ClError;

#[test]
fn detects_nul_corruption() {
    assert!(is_corrupt_index_bytes(&[]));
    assert!(is_corrupt_index_bytes(&[0, 0, 0, 0]));
    assert!(is_corrupt_index_bytes(b"not-json"));
    assert!(!is_corrupt_index_bytes(br#"{"a":1}"#));
}

#[test]
fn corrupt_index_edge_cases() {
    assert!(is_corrupt_index_bytes(b"   \n\t"));
    assert!(is_corrupt_index_bytes(&[0xff, 0xfe, b'{', b'}']));
    assert!(!is_corrupt_index_bytes(b"  [1, 2]  "));
    assert!(!is_corrupt_index_bytes(b"\n{\"k\": \"v\"}\n"));
}

fn record(table: &str) -> BackupRecord {
    BackupRecord {
        version: 1,
        timestamp: 1,
        date: "d".to_string(),
        operation: BackupOperation::Write,
        table: table.to_string(),
        key: "k".to_string(),
        data: Some(b"{\"id\":\"k\"}".to_vec()),
        bulk_id: None,
        restored_version: None,
    }
}

/// Decodes the stored JSON of a current backup record, as the application
/// does before handing the record to the library.
fn decode_current(bytes: &[u8]) -> Option<BackupRecord> {
    let v: serde_json::Value = serde_json::from_slice(bytes).ok()?;
    let operation = match v.get("operation")?.as_str()? {
        "Set" => BackupOperation::Write,
        "Delete" => BackupOperation::Delete,
        "Restore" => BackupOperation::Restore,
        "RestoreBulk" => BackupOperation::RestoreBulk,
        _ => return None,
    };
    let data = match v.get("data")? {
        serde_json::Value::Null => None,
        serde_json::Value::Array(items) => Some(items.iter().map(|x| x.as_u64().map(|n| n as u8)).collect::<Option<Vec<u8>>>()?),
        _ => return None,
    };
    Some(BackupRecord {
        version: v.get("version")?.as_u64()?,
        timestamp: v.get("timestamp")?.as_i64()?,
        date: v.get("date")?.as_str()?.to_string(),
        operation,
        table: v.get("table")?.as_str()?.to_string(),
        key: v.get("key")?.as_str()?.to_string(),
        data,
        bulk_id: v.get("bulk_id").and_then(|b| b.as_str()).map(|b| b.to_string()),
        restored_version: v.get("restored_version").and_then(|r| r.as_u64()),
    })
}

#[test]
fn parses_current_backup_record() {
    let bytes = br#"{"version":1,"timestamp":1,"date":"d","operation":"Set","table":"t","key":"k","data":[123,34,105,100,34,58,34,107,34,125],"bulk_id":null,"restored_version":null}"#;
    let decoded = decode_current(bytes);
    assert!(decoded.is_some());
    let parsed = parse_backup_value("t", "k:1", bytes, decoded, None).unwrap();
    assert_eq!(parsed.version, 1);
    assert!(parsed.data.is_some());
    assert_eq!(parsed.data.unwrap(), b"{\"id\":\"k\"}".to_vec());
    assert_eq!(parsed.table, "t");
}

#[test]
fn fallback_raw_entity() {
    let bytes = br#"{"id":"a","v":1}"#;
    let parsed = parse_backup_value("products", "a:2", bytes, None, None).unwrap();
    assert_eq!(parsed.version, 2);
    assert_eq!(parsed.key, "a");
    assert!(matches!(parsed.operation, BackupOperation::Write));
}

#[test]
fn delete_raw_empty_value() {
    let parsed = parse_backup_value("products", "a:3", &[], None, None).unwrap();
    assert!(matches!(parsed.operation, BackupOperation::Delete));
    assert!(parsed.data.is_none());
}

#[test]
fn legacy_shape_is_canonicalized() {
    let parsed = parse_backup_value("products", "k:1", b"{}", None, Some(record(""))).unwrap();
    assert_eq!(parsed.table, "unknown");
    assert_eq!(parsed.key, "k");
    let kept = canonicalize_record(record("orders"));
    assert_eq!(kept.table, "orders");
}

#[test]
fn raw_entity_keeps_bytes_and_table() {
    let parsed = parse_backup_value("products", "a:b:7", b"xyz", None, None).unwrap();
    assert_eq!(parsed.key, "a:b");
    assert_eq!(parsed.version, 7);
    assert_eq!(parsed.table, "products");
    assert_eq!(parsed.timestamp, 0);
    assert_eq!(parsed.data, Some(b"xyz".to_vec()));
}

#[test]
fn versioned_key_errors() {
    match parse_versioned_key("plain") {
        Err(ClError::BackupNormalizeFailed { reason }) => assert_eq!(reason, "key 'plain' is not versioned"),
        _ => panic!("expected an error"),
    }
    match parse_versioned_key("a:x1") {
        Err(ClError::BackupNormalizeFailed { reason }) => assert_eq!(reason, "invalid version suffix in 'a:x1'"),
        _ => panic!("expected an error"),
    }
    match parse_versioned_key("a:") {
        Err(ClError::BackupNormalizeFailed { reason }) => assert_eq!(reason, "invalid version suffix in 'a:'"),
        _ => panic!("expected an error"),
    }
    let (k, v) = parse_versioned_key("a:+5").unwrap();
    assert_eq!((k.as_str(), v), ("a", 5));
}

#[test]
fn backup_key_roundtrips() {
    for (k, v) in [("a", 0u64), ("x:y", 42), ("", u64::MAX)] {
        let bk = backup_key(k, v);
        assert_eq!(bk, format!("{}:{}", k, v));
        let (k2, v2) = parse_versioned_key(&bk).unwrap();
        assert_eq!(k2, k);
        assert_eq!(v2, v);
    }
}

#[test]
fn normalize_entries() {
    assert!(matches!(normalize_entry("t", "k:1", b"{}", true, None), Ok(EntryAction::Keep)));
    match normalize_entry("t", "k:4", b"raw", false, None) {
        Ok(EntryAction::Rewrite(r)) => {
            assert_eq!(r.version, 4);
            assert_eq!(r.key, "k");
        }
        _ => panic!("expected a rewrite"),
    }
    assert!(matches!(normalize_entry("t", "nokey", b"raw", false, None), Err(ClError::BackupNormalizeFailed { .. })));
}

#[test]
fn verify_normalized_errors() {
    assert!(verify_normalized(3, true, 3).is_ok());
    match verify_normalized(3, false, 3) {
        Err(ClError::BackupNormalizeFailed { reason }) => {
            assert_eq!(reason, "verify failed: not all entries parse as BackupRecord")
        }
        _ => panic!("expected an error"),
    }
    match verify_normalized(3, true, 2) {
        Err(ClError::BackupNormalizeFailed { reason }) => assert_eq!(reason, "entry count mismatch: before 3 after 2"),
        _ => panic!("expected an error"),
    }
}

#[test]
fn bulk_entries_must_decode() {
    assert!(check_bulk_entries(&vec![("a".to_string(), true)]).is_ok());
    match check_bulk_entries(&vec![("a".to_string(), true), ("b".to_string(), false), ("c".to_string(), false)]) {
        Err(ClError::BackupNormalizeFailed { reason }) => {
            assert_eq!(reason, "bulk entry 'b' is not valid BulkRecord JSON")
        }
        _ => panic!("expected an error"),
    }
}

fn arr(items: Vec<JsonValue>) -> JsonValue {
    JsonValue::Array(items)
}

fn n(v: u64) -> JsonValue {
    JsonValue::Number(JsonNumber::PosInt(v))
}

fn s(v: &str) -> JsonValue {
    JsonValue::String(v.to_string())
}

#[test]
fn normalizes_byte_array_ref() {
    let input = arr(vec![arr(vec![s("k1"), arr(vec![n(1), n(2), n(3)])])]);
    let out = normalize_ref_json(&input).unwrap();
    assert_eq!(out[0].0, "k1");
    assert_eq!(out[0].1, "010203");
}

#[test]
fn ref_errors_and_truncation() {
    let msg = |v: &JsonValue| match normalize_ref_json(v) {
        Err(ClError::MigrationError(m)) => m,
        _ => panic!("expected an error"),
    };
    assert_eq!(msg(&s("x")), "migration ref must be a JSON array");
    assert_eq!(msg(&arr(vec![s("x")])), "migration ref entry must be [key, bytes]");
    assert_eq!(msg(&arr(vec![arr(vec![s("x")])])), "migration ref entry must have exactly 2 elements");
    assert_eq!(msg(&arr(vec![arr(vec![n(1), s("00")])])), "ref key must be string");
    assert_eq!(msg(&arr(vec![arr(vec![s("k"), n(1)])])), "ref bytes must be hex string or byte array");
    let out = normalize_ref_json(&arr(vec![
        arr(vec![s("a"), s("ff")]),
        arr(vec![s("b"), arr(vec![n(256 + 10), s("skip"), n(255)])]),
    ]))
    .unwrap();
    assert_eq!(out, vec![("a".to_string(), "ff".to_string()), ("b".to_string(), "0aff".to_string())]);
}

#[test]
fn ref_file_rewritten_only_when_it_changes() {
    let parsed = arr(vec![arr(vec![s("k1"), arr(vec![n(1)])])]);
    let out = refresh_ref_file("[]", &parsed).unwrap();
    let text = out.expect("a rewrite");
    assert!(text.contains("\"k1\"") && text.contains("\"01\""));
    let again = refresh_ref_file(&text, &arr(vec![arr(vec![s("k1"), s("01")])])).unwrap();
    assert!(again.is_none());
}

#[test]
fn legacy_root_index_detection() {
    assert!(is_legacy_root_index(r#"{"current_schema":"a"}"#));
    assert!(!is_legacy_root_index(r#"{"current_schema":"a","index_version":2}"#));
    assert!(!is_legacy_root_index("not json"));
    assert!(!is_legacy_root_index("[1]"));
}

#[test]
fn conflict_policies() {
    assert_eq!(parse_conflict_policy("Skip").unwrap(), TargetConflictPolicy::Skip);
    assert_eq!(parse_conflict_policy("OverwriteIfCompatible").unwrap(), TargetConflictPolicy::OverwriteIfCompatible);
    match parse_conflict_policy("Merge") {
        Err(ClError::MigrationError(m)) => assert_eq!(m, "unknown legacy conflict policy: Merge"),
        _ => panic!("expected an error"),
    }
}

fn entry(id: &str, order: u32) -> MigrationIndexEntry {
    MigrationIndexEntry { migration_id: id.to_string(), order }
}

#[test]
fn chain_entries_sort_stably() {
    let sorted = sort_chain_entries(vec![entry("c", 3), entry("a1", 1), entry("b", 2), entry("a2", 1)]);
    let ids: Vec<&str> = sorted.iter().map(|e| e.migration_id.as_str()).collect();
    assert_eq!(ids, vec!["a1", "a2", "b", "c"]);
}

fn legacy_manifest(kind: &str, target: Option<&str>, key: Option<&str>) -> LegacyManifest {
    LegacyManifest {
        migration_id: "mig-test".to_string(),
        parent_migration_id: None,
        timestamp: 9,
        kind: kind.to_string(),
        from: LegacySchemaRef { db: "retail".to_string(), table: "products".to_string(), schema: "s1".to_string() },
        to: LegacySchemaRef { db: "retail".to_string(), table: "products".to_string(), schema: "s2".to_string() },
        version_scope: LegacyVersionScope { backup_versions_from: 1, backup_versions_to: 7, primary_snapshot_ref: None },
        decoder: "auto".to_string(),
        key_conflict_policy: key.map(|k| k.to_string()),
        target_conflict_policy: target.map(|t| t.to_string()),
    }
}

#[test]
fn legacy_manifest_conversion() {
    let m = convert_manifest(&legacy_manifest("SameDbRemapTable", None, Some("Skip")), 1, 2, "h1".to_string(), "h2".to_string()).unwrap();
    assert_eq!(m.kind, MigrationKind::InPlaceEvolve);
    assert_eq!(m.target_conflict_policy, TargetConflictPolicy::Skip);
    assert_eq!((m.from.schema_version, m.to.schema_version), (1, 2));
    assert_eq!(m.version_scope.scope_table, "products");
    assert_eq!(m.version_scope.backup_versions_to, 7);
    assert_eq!(m.from_layout_hash, "h1");
    let m2 = convert_manifest(&legacy_manifest("CrossDbMove", Some("Overwrite"), Some("Skip")), 1, 2, "a".to_string(), "b".to_string()).unwrap();
    assert_eq!(m2.kind, MigrationKind::DataTransfer);
    assert_eq!(m2.target_conflict_policy, TargetConflictPolicy::Overwrite);
    let m3 = convert_manifest(&legacy_manifest("ExternalImport", None, None), 1, 2, "a".to_string(), "b".to_string()).unwrap();
    assert_eq!(m3.target_conflict_policy, TargetConflictPolicy::Fail);
    match convert_manifest(&legacy_manifest("Teleport", None, None), 1, 2, "a".to_string(), "b".to_string()) {
        Err(ClError::MigrationError(m)) => assert_eq!(m, "unknown legacy migration kind: Teleport"),
        _ => panic!("expected an error"),
    }
    assert_eq!(layout_hash_or_unknown(None, 4), "unknown-v4");
    assert_eq!(layout_hash_or_unknown(Some("abc".to_string()), 4), "abc");
}

#[test]
fn legacy_chain_upgrade_steps_tables() {
    let registered = vec!["products".to_string(), "buyers".to_string()];
    let mut st = LegacyChainUpgrade::new(&registered);
    assert_eq!(st.version_of("products"), 1);
    let (f, t) = st.begin_entry("products");
    assert_eq!((f, t), (1, 2));
    st.finish_entry("products", entry("mig-test", 1), t).unwrap();
    let (f2, t2) = st.begin_entry("products");
    assert_eq!((f2, t2), (2, 3));
    st.finish_entry("products", entry("mig-2", 2), t2).unwrap();
    let c = st.chain_of("products").unwrap();
    assert_eq!(c.current_version, 3);
    assert_eq!(c.chain.len(), 2);
    assert_eq!(st.chain_of("buyers").unwrap().current_version, 1);
    match st.finish_entry("ghosts", entry("m", 1), 2) {
        Err(ClError::MigrationError(m)) => assert_eq!(m, "legacy migration targets unregistered table 'ghosts'"),
        _ => panic!("expected an error"),
    }
    let root = st.root_index("retail".to_string(), &registered);
    assert_eq!(root.index_version, 2);
    assert_eq!(root.db_name, "retail");
    let p = &root.tables.iter().find(|(n, _)| n == "products").unwrap().1;
    assert_eq!((p.current_version, p.initial_version), (3, 1));
    assert_eq!(root.tables.len(), 2);
}

#[test]
fn current_refs_normalize_to_themselves() {
    let value = arr(vec![arr(vec![s("k1"), s("010203")]), arr(vec![s("k2"), s("")])]);
    let out = normalize_ref_json(&value).unwrap();
    assert_eq!(out, vec![("k1".to_string(), "010203".to_string()), ("k2".to_string(), String::new())]);
}

#[test]
fn scalar_json_index_is_corrupt() {
    assert!(is_corrupt_index_bytes(b"42"));
    assert!(is_corrupt_index_bytes(b" \"text\" "));
    assert!(is_corrupt_index_bytes(b"null"));
    assert!(is_corrupt_index_bytes(b"{not json"));
    assert!(!is_corrupt_index_bytes(b"[]"));
}
