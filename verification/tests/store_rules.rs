use clove1db::backup::{BackupOperation, BackupRecord};
use clove1db::blob::{blob_path, blob_root, blob_table_dir, blobs_root, BlobStore};
use clove1db::durability::{DurabilityMode, DEFAULT_MAX_COMMIT_BATCH_ENTRIES};
use clove1db::handle::{write_settings, DbSlot, RedbOptions};
use clove1db::json::JsonValue;
use clove1db::metadata::types::TableStorageMode;
use clove1db::migration::layout::FieldLayout;
use clove1db::repository::{
    cache_key, cache_weight, commit_chunks, record_at, require_backup, restore_plan, CommitChunk, PrimaryChange,
};
use clove1db::storage::{DatabaseConfig, StorageBuilder, StorageConfig, DEFAULT_CACHE_CAPACITY};
use clove1db::ClError;

#[test]
fn cache_keys_and_weights() {
    assert_eq!(cache_key("users", "u1"), "users:u1");
    assert_eq!(cache_weight(3, 4), 7);
    assert_eq!(cache_weight(usize::MAX, 1), u32::MAX);
    assert_eq!(cache_weight(u32::MAX as usize, 0), u32::MAX);
}

#[test]
fn small_batch_is_one_commit() {
    assert_eq!(commit_chunks(3, 2, 5), vec![CommitChunk { write_start: 0, write_end: 3, delete_start: 0, delete_end: 2 }]);
    assert_eq!(commit_chunks(0, 0, 1), vec![CommitChunk { write_start: 0, write_end: 0, delete_start: 0, delete_end: 0 }]);
}

#[test]
fn large_batch_is_split_writes_then_deletes() {
    let chunks = commit_chunks(5, 3, 2);
    let expected = vec![
        CommitChunk { write_start: 0, write_end: 2, delete_start: 0, delete_end: 0 },
        CommitChunk { write_start: 2, write_end: 4, delete_start: 0, delete_end: 0 },
        CommitChunk { write_start: 4, write_end: 5, delete_start: 0, delete_end: 0 },
        CommitChunk { write_start: 0, write_end: 0, delete_start: 0, delete_end: 2 },
        CommitChunk { write_start: 0, write_end: 0, delete_start: 2, delete_end: 3 },
    ];
    assert_eq!(chunks, expected);
    let covered: usize = chunks.iter().map(|c| (c.write_end - c.write_start) + (c.delete_end - c.delete_start)).sum();
    assert_eq!(covered, 8);
}

fn rec(version: u64, ts: i64, op: BackupOperation, data: Option<&[u8]>) -> BackupRecord {
    BackupRecord {
        version,
        timestamp: ts,
        date: String::new(),
        operation: op,
        table: "t".to_string(),
        key: "k".to_string(),
        data: data.map(|d| d.to_vec()),
        bulk_id: Some("b1".to_string()),
        restored_version: None,
    }
}

#[test]
fn restore_plans() {
    let p = restore_plan(rec(1, 1, BackupOperation::Write, Some(b"v1")));
    assert!(matches!(p.primary, PrimaryChange::Put(ref d) if d == b"v1"));
    assert_eq!(p.restored_data, Some(b"v1".to_vec()));
    assert_eq!(p.restored_bulk_id.as_deref(), Some("b1"));
    let q = restore_plan(rec(2, 2, BackupOperation::Restore, None));
    assert!(matches!(q.primary, PrimaryChange::Keep));
    let d = restore_plan(rec(3, 3, BackupOperation::Delete, Some(b"x")));
    assert!(matches!(d.primary, PrimaryChange::Remove));
    assert!(d.restored_data.is_none() && d.restored_bulk_id.is_none());
}

#[test]
fn point_in_time_selects_last_record_before() {
    let history = vec![
        rec(1, 10, BackupOperation::Write, None),
        rec(2, 20, BackupOperation::Write, None),
        rec(3, 30, BackupOperation::Write, None),
    ];
    assert_eq!(record_at(&history, 25).unwrap(), 1);
    assert_eq!(record_at(&history, 30).unwrap(), 2);
    assert_eq!(record_at(&history, 100).unwrap(), 2);
    match record_at(&history, 5) {
        Err(ClError::NotFound(m)) => assert_eq!(m, "no record at this timestamp"),
        _ => panic!("expected an error"),
    }
    match require_backup(false) {
        Err(ClError::NotFound(m)) => assert_eq!(m, "backup not configured"),
        _ => panic!("expected an error"),
    }
    assert!(require_backup(true).is_ok());
}

fn layout() -> FieldLayout {
    FieldLayout::from_json_value(&JsonValue::Object(vec![("id".to_string(), JsonValue::String(String::new()))]))
}

#[test]
fn config_flags_exclude_blobs_with_cache_or_backup() {
    let c = DatabaseConfig::new("dir", "db");
    assert!(c.has_cache && !c.blob_enabled && !c.backup_enabled);
    assert_eq!(c.cache_capacity, DEFAULT_CACHE_CAPACITY);
    assert_eq!(c.max_commit_batch_entries, DEFAULT_MAX_COMMIT_BATCH_ENTRIES);
    let b = c.blob_enabled(true);
    assert!(b.blob_enabled && !b.has_cache && !b.backup_enabled);
    let b = b.backup_enabled(true);
    assert!(!b.blob_enabled && b.backup_enabled);
    let b = b.blob_enabled(true).cache_bytes(5, 6, 7);
    assert!(!b.blob_enabled && b.has_cache);
    assert_eq!((b.cache_capacity, b.cache_ttl, b.cache_idle), (5, 6, 7));
    let b = b.blob_enabled(true).has_cache(true);
    assert!(!b.blob_enabled);
    let b = b.blob_enabled(true).backup_dir("bk".to_string());
    assert!(!b.blob_enabled && b.backup_enabled);
    assert_eq!(b.backup_dir_path.as_deref(), Some("bk"));
    let m = DatabaseConfig::new("d", "n").max_commit_batch_entries(0);
    assert_eq!(m.max_commit_batch_entries, 1);
}

#[test]
fn config_validation() {
    match DatabaseConfig::new("d", "n").validate() {
        Err(ClError::Validation(m)) => assert_eq!(m, "DatabaseConfig must register at least one table"),
        _ => panic!("expected an error"),
    }
    let c = DatabaseConfig::new("d", "n").register("users", layout()).register_blob("files", layout());
    assert_eq!(c.tables.len(), 2);
    assert_eq!(c.tables[1].storage, TableStorageMode::BlobSidecar);
    match c.validate() {
        Err(ClError::Validation(m)) => assert_eq!(m, "register_blob requires blob_enabled(true) on DatabaseConfig"),
        _ => panic!("expected an error"),
    }
    let ok = DatabaseConfig::new("d", "n").blob_enabled(true).register_blob("files", layout());
    assert!(ok.validate().is_ok());
}

#[test]
fn add_database_fills_in_defaults() {
    let storage = StorageConfig::in_dir("/srv/app".to_string()).durability(DurabilityMode::Fast);
    assert_eq!(storage.name, "storage");
    let b = StorageBuilder::new(storage)
        .add_database(DatabaseConfig::new("d", "a").backup_enabled(true))
        .add_database(DatabaseConfig::new("d", "b").dir_path("/data".to_string()).durability(DurabilityMode::Strict));
    let a = &b.database_configs[0];
    assert_eq!(a.dir_path, "/srv/app");
    assert_eq!(a.backup_dir_path.as_deref(), Some("/srv/app"));
    assert_eq!(a.durability, Some(DurabilityMode::Fast));
    let c = &b.database_configs[1];
    assert_eq!(c.dir_path, "/data");
    assert!(c.backup_dir_path.is_none());
    assert_eq!(c.durability, Some(DurabilityMode::Strict));
}

#[test]
fn blob_paths() {
    assert_eq!(blob_root("db", "shop"), "db/shop.blobs");
    assert_eq!(blobs_root("db/", "shop"), "db/shop.blobs");
    assert_eq!(blob_table_dir("db", "shop", "files"), "db/shop.blobs/files");
    assert_eq!(blob_path("db", "shop", "files", "f1"), "db/shop.blobs/files/f1");
    let s = BlobStore::new("db", "shop");
    assert_eq!(s.path("files", "f1"), "db/shop.blobs/files/f1");
    assert_eq!(s.root(), "db/shop.blobs");
    assert_eq!(s.table_dir("t"), "db/shop.blobs/t");
}

#[test]
fn closed_slot_fails_with_its_path() {
    let mut slot = DbSlot::new(7u32, "p/x.cldb".to_string());
    assert_eq!(*slot.get().unwrap(), 7);
    assert!(!slot.is_closed());
    assert_eq!(slot.close(), Some(7));
    assert!(slot.is_closed());
    assert_eq!(slot.close(), None);
    match slot.get() {
        Err(ClError::Closed { path }) => assert_eq!(path, "p/x.cldb"),
        _ => panic!("expected Closed"),
    }
    let ws = write_settings(DurabilityMode::Strict, true);
    assert!(ws.immediate && ws.quick_repair);
    assert!(!write_settings(DurabilityMode::Fast, false).immediate);
    let o = RedbOptions::default();
    assert!(o.cache_bytes.is_none() && !o.quick_repair);
}
