use clove1db::metadata::inspect::{inspect_database, DatabaseProbe, FileKind};
use clove1db::metadata::types::{CloveMeta, FileEra, TableStorageMode};
use clove1db::migration::layout::FieldLayout;
use clove1db::json::JsonValue;
use clove1db::upgrade::backup_normalize::BackupNormalizeResult;
use clove1db::upgrade::pipeline::{
    adopt_existing_meta, build_meta, check_stored_layout, finish_meta, needs_backup_normalize, record_backup_normalize,
    record_refs_upgrade, reject_foreign_file, resolve_file_era, sync_table_meta, upgrade_paths, validate_tables,
    TableRegistration,
};
use clove1db::ClError;

fn reg(name: &str) -> TableRegistration {
    TableRegistration {
        name: name.to_string(),
        layout: FieldLayout::from_json_value(&JsonValue::Object(vec![("id".to_string(), JsonValue::String(String::new()))])),
        storage: TableStorageMode::InlineJson,
    }
}

#[test]
fn paths_of_a_database() {
    let p = upgrade_paths("./target/x", Some("./bk"), "users", "users");
    assert_eq!(p.db_dir, "./target/x/users");
    assert_eq!(p.primary_path, "./target/x/users/users.cldb");
    assert_eq!(p.migration_dir, "./target/x/users/users.migration");
    assert_eq!(p.backup_parent.as_deref(), Some("./bk/users"));
    assert_eq!(p.backup_path.as_deref(), Some("./bk/users/users.cldb.bak"));
    let q = upgrade_paths("d", None, "a", "b");
    assert!(q.backup_path.is_none() && q.backup_parent.is_none());
}

#[test]
fn foreign_files_are_refused() {
    assert!(reject_foreign_file(FileKind::New, "p").is_ok());
    assert!(reject_foreign_file(FileKind::Authenticated, "p").is_ok());
    match reject_foreign_file(FileKind::ExternalRedb, "p/x.cldb") {
        Err(ClError::NotCloveDatabase { path }) => assert_eq!(path, "p/x.cldb"),
        _ => panic!("expected an error"),
    }
    assert!(reject_foreign_file(FileKind::Invalid, "p").is_err());
}

#[test]
fn tables_must_be_found() {
    let expected = vec!["users".to_string(), "orders".to_string()];
    assert!(validate_tables(&expected, &vec![]).is_ok());
    assert!(validate_tables(&expected, &vec!["orders".to_string(), "users".to_string(), "x".to_string()]).is_ok());
    match validate_tables(&expected, &vec!["users".to_string()]) {
        Err(ClError::TableMismatch { expected: e, found: f }) => {
            assert_eq!(e, expected);
            assert_eq!(f, vec!["users".to_string()]);
        }
        _ => panic!("expected an error"),
    }
}

fn inspection(exists: bool, migration: bool) -> clove1db::metadata::inspect::DatabaseInspection {
    inspect_database("p", None, "m", DatabaseProbe {
        primary_exists: exists,
        primary_is_dir: false,
        backup_exists: false,
        migration_exists: migration,
        tables: vec![("users".to_string(), Some(br#"{"id":"1"}"#.to_vec()))],
        meta: Ok(None),
    })
    .unwrap()
}

#[test]
fn file_era_is_resolved() {
    assert_eq!(resolve_file_era(&inspection(false, false)), FileEra::Current);
    assert_eq!(resolve_file_era(&inspection(true, false)), FileEra::Legacy042);
    assert_eq!(resolve_file_era(&inspection(true, true)), FileEra::Clove049);
}

#[test]
fn pipeline_meta_steps() {
    let regs = vec![reg("users"), reg("orders")];
    let mut meta = build_meta("users", &regs, true, FileEra::Current);
    assert_eq!(meta.tables.len(), 2);
    assert_eq!(meta.tables[1].name, "orders");
    assert_eq!(meta.tables[1].schema_version, 1);
    assert!(!meta.backup_upgraded);
    assert!(needs_backup_normalize(true, true, &meta));
    assert!(!needs_backup_normalize(false, true, &meta));
    let result = BackupNormalizeResult::rewritten(3, 2, false);
    record_backup_normalize(&mut meta, &result, "b.bak.pre-upgrade", true);
    assert_eq!(meta.backup_pre_upgrade_path.as_deref(), Some("b.bak.pre-upgrade"));
    assert!(meta.backup_upgraded);
    assert_eq!(meta.backup_format, "json_wrapped_v1");
    let last = meta.upgrade_log.last().unwrap();
    assert_eq!(last.step, "backup_normalize");
    assert_eq!(last.detail.as_deref(), Some("converted=3 skipped=2 pre_upgrade_removed=false"));
    let removed = BackupNormalizeResult::rewritten(0, 0, true);
    record_backup_normalize(&mut meta, &removed, "b.bak.pre-upgrade", true);
    assert!(meta.backup_pre_upgrade_path.is_none());
    record_refs_upgrade(&mut meta, 0);
    assert_eq!(meta.upgrade_log.len(), 2);
    record_refs_upgrade(&mut meta, 4);
    assert_eq!(meta.upgrade_log.last().unwrap().detail.as_deref(), Some("files_updated=4"));
    sync_table_meta(&mut meta, "orders", 5, "hh");
    assert_eq!(meta.tables[1].schema_version, 5);
    assert_eq!(meta.tables[1].layout_hash, "hh");
    assert_eq!(meta.tables[0].schema_version, 1);
    finish_meta(&mut meta);
    assert!(meta.upgrade_complete);
    assert_eq!(meta.upgrade_log.last().unwrap().step, "upgrade_complete");
    assert!(meta.upgrade_log.last().unwrap().detail.is_none());
}

#[test]
fn existing_meta_of_current_version_is_kept() {
    let fresh = CloveMeta::new("users", FileEra::Current, false, vec![]);
    let mut old = CloveMeta::new("users", FileEra::Legacy042, true, vec![]);
    old.framework_version = "0.0.1".to_string();
    let kept = adopt_existing_meta(fresh, Some(old));
    assert_eq!(kept.file_era, FileEra::Legacy042);
    assert_eq!(kept.framework_version, "0.0.105");
    let fresh2 = CloveMeta::new("users", FileEra::Current, false, vec![]);
    let mut stale = CloveMeta::new("users", FileEra::Legacy042, true, vec![]);
    stale.meta_version = 1;
    assert_eq!(adopt_existing_meta(fresh2, Some(stale)).file_era, FileEra::Current);
}

#[test]
fn stored_layout_mismatch() {
    assert!(check_stored_layout(FileKind::New, "t", "a", Some("b"), 1, true).is_ok());
    assert!(check_stored_layout(FileKind::Authenticated, "t", "a", Some("a"), 1, true).is_ok());
    assert!(check_stored_layout(FileKind::Authenticated, "t", "a", Some("b"), 1, false).is_ok());
    assert!(check_stored_layout(FileKind::Authenticated, "t", "a", None, 1, true).is_ok());
    match check_stored_layout(FileKind::Legacy042, "t", "a", Some("b"), 2, true) {
        Err(ClError::LayoutMismatch { table, registered, chain_version }) => {
            assert_eq!((table.as_str(), registered.as_str(), chain_version), ("t", "a", 2));
        }
        _ => panic!("expected an error"),
    }
}

#[test]
fn pipeline_writes_meta_on_new_db() {
    let tables = vec![reg("users")];
    let mut meta = build_meta("users", &tables, false, FileEra::Current);
    sync_table_meta(&mut meta, "users", 1, &tables[0].layout.layout_hash);
    record_refs_upgrade(&mut meta, 0);
    finish_meta(&mut meta);
    assert!(meta.upgrade_complete);
    assert_eq!(meta.tables[0].schema_id, "users");
    assert_eq!(meta.tables[0].schema_version, 1);
    let accepted = clove1db::metadata::store::accept_meta(meta).unwrap();
    assert_eq!(accepted.framework, "clove1db");
}
