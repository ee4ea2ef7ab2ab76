use clove1db::json::{JsonNumber, JsonValue};
use clove1db::metadata::types::TableStorageMode;
use clove1db::migration::batch::MigrationBatch;
use clove1db::migration::decoder::{merge_defaults, SchemaDecoderRegistry};
use clove1db::migration::field_map::{FieldMap, FieldTransform};
use clove1db::migration::layout::FieldLayout;
use clove1db::migration::migrate_to::{
    auto_migrate_json, blob_outcome_of, migrate_json_unimplemented, skip_record, skip_record_silent, MigrateOutcome,
};
use clove1db::migration::plan::{resolve_plan, MigrationSource};
use clove1db::migration::report::MigrationReport;
use clove1db::migration::runner::{
    blob_action, build_manifest, compatibility_action, executed_result, max_backup_version, begin_report, migration_id_from_uuid,
    should_flush, target_action, to_version, BlobAction, MigratedRow, RowEvent, RunEnd, RunState, TargetAction,
};
use clove1db::migration::scan::{scan_record, MigrationScanReport};
use clove1db::migration::step_registry::{MigrationStepKey, MigrationStepRegistry};
use clove1db::migration::types::{MigrationFrom, MigrationKind, MigrationTo, TargetConflictPolicy};
use clove1db::ClError;

fn s(v: &str) -> JsonValue {
    JsonValue::String(v.to_string())
}

fn obj(members: Vec<(&str, JsonValue)>) -> JsonValue {
    JsonValue::Object(members.into_iter().map(|(k, v)| (k.to_string(), v)).collect())
}

fn keys(v: &JsonValue) -> Vec<String> {
    match v {
        JsonValue::Object(m) => m.iter().map(|(k, _)| k.clone()).collect(),
        _ => vec![],
    }
}

#[test]
fn merge_defaults_fills_missing_members_only() {
    let mut target = obj(vec![("id", s("1")), ("name", s("test"))]);
    merge_defaults(&mut target, obj(vec![("name", s("")), ("sku", s(""))]));
    assert_eq!(keys(&target), vec!["id", "name", "sku"]);
    match &target {
        JsonValue::Object(m) => {
            assert!(matches!(&m[1].1, JsonValue::String(x) if x == "test"));
            assert!(matches!(&m[2].1, JsonValue::String(x) if x.is_empty()));
        }
        _ => panic!("expected an object"),
    }
    let mut not_obj = s("x");
    merge_defaults(&mut not_obj, obj(vec![("a", s(""))]));
    assert!(matches!(not_obj, JsonValue::String(ref x) if x == "x"));
}

#[test]
fn auto_migration_adds_target_defaults() {
    match auto_migrate_json(obj(vec![("id", s("1")), ("name", s("test"))]), obj(vec![("id", s("")), ("name", s("")), ("sku", s(""))])) {
        Ok(MigrateOutcome::Migrate(v)) => assert_eq!(keys(&v), vec!["id", "name", "sku"]),
        _ => panic!("expected a migrated row"),
    }
}

#[test]
fn skips_and_blob_outcomes() {
    assert!(matches!(skip_record("filtered by name"), Ok(MigrateOutcome::Skip(Some(ref r))) if r == "filtered by name"));
    assert!(matches!(skip_record_silent(), Ok(MigrateOutcome::Skip(None))));
    match migrate_json_unimplemented() {
        Err(ClError::MigrationError(m)) => {
            assert_eq!(m, "migrate_json not implemented; use migrate_blob for raw/binary sources")
        }
        _ => panic!("expected an error"),
    }
    match blob_outcome_of(MigrateOutcome::Migrate(s("m"))) {
        MigrateOutcome::Migrate((payload, meta)) => {
            assert!(payload.is_empty());
            assert!(matches!(meta, Some(JsonValue::String(ref x)) if x == "m"));
        }
        _ => panic!("expected a migrated row"),
    }
    assert!(matches!(blob_outcome_of(MigrateOutcome::Skip(None)), MigrateOutcome::Skip(None)));
}

#[test]
fn field_map_renames_and_converts() {
    let map = FieldMap::new().rename("old", "new").transform("price", "price_cents", FieldTransform::UsdToCents).rename("old", "newer");
    let d = map.build_decoder();
    assert_eq!(d.target_key("old"), "newer");
    assert_eq!(d.target_key("price"), "price_cents");
    assert_eq!(d.target_key("other"), "other");
    assert_eq!(d.transform_for("price"), Some(FieldTransform::UsdToCents));
    assert_eq!(d.transform_for("old"), None);
}

#[test]
fn decoder_registry_by_name() {
    let mut reg: SchemaDecoderRegistry<u8> = SchemaDecoderRegistry::new();
    reg.register("a".to_string(), 1);
    reg.register("a".to_string(), 2);
    assert_eq!(*reg.get("a").unwrap(), 2);
    match reg.get("b") {
        Err(ClError::DecoderNotFound { from_layout_hash, to_layout_hash, migration_id }) => {
            assert_eq!(from_layout_hash, "b");
            assert!(to_layout_hash.is_empty() && migration_id.is_empty());
        }
        _ => panic!("expected an error"),
    }
}

#[test]
fn step_registry_keeps_first_registration() {
    let mut reg: MigrationStepRegistry<&str> = MigrationStepRegistry::new();
    let key = MigrationStepKey { from_layout_hash: "h1".to_string(), to_layout_hash: "h2".to_string() };
    let k = reg.register(key.clone(), "first");
    assert_eq!(k.from_layout_hash, "h1");
    reg.register(key, "second");
    assert_eq!(*reg.get_by_layout("h1", "h2").unwrap(), "first");
    match reg.get_by_layout("h2", "h1") {
        Err(ClError::DecoderNotFound { from_layout_hash, to_layout_hash, .. }) => {
            assert_eq!((from_layout_hash.as_str(), to_layout_hash.as_str()), ("h2", "h1"));
        }
        _ => panic!("expected an error"),
    }
}

#[test]
fn scan_counts_and_estimates() {
    let mut r = MigrationScanReport::new("a", "b");
    scan_record(&mut r, "k1", br#"{"data":1}"#, TableStorageMode::InlineJson, TableStorageMode::InlineJson).unwrap();
    scan_record(&mut r, "k2", br#"{"x":1}"#, TableStorageMode::InlineJson, TableStorageMode::InlineJson).unwrap();
    assert_eq!(r.record_count, 2);
    assert_eq!(r.inline_with_payload_hint, 1);
    assert_eq!(r.estimated_metadata_bytes, 17);
    scan_record(&mut r, "k3", b"abc", TableStorageMode::BlobSidecar, TableStorageMode::BlobSidecar).unwrap();
    assert_eq!(r.blob_sidecar_sources, 1);
    assert_eq!(r.estimated_blob_bytes, 1);
    assert_eq!(r.estimated_metadata_bytes, 20);
    assert_eq!(r.from_storage, TableStorageMode::BlobSidecar);
}

#[test]
fn target_actions_by_policy() {
    assert_eq!(target_action(false, false, TargetConflictPolicy::Fail), TargetAction::Insert);
    assert_eq!(target_action(true, true, TargetConflictPolicy::Fail), TargetAction::Overwrite);
    assert_eq!(target_action(true, false, TargetConflictPolicy::Fail), TargetAction::Conflict);
    assert_eq!(target_action(true, false, TargetConflictPolicy::Skip), TargetAction::KeepExisting);
    assert_eq!(target_action(true, false, TargetConflictPolicy::Overwrite), TargetAction::Overwrite);
    assert_eq!(target_action(true, false, TargetConflictPolicy::OverwriteIfCompatible), TargetAction::CheckCompatible);
    assert_eq!(compatibility_action(false), TargetAction::Conflict);
    assert_eq!(blob_action(TableStorageMode::BlobSidecar, TableStorageMode::BlobSidecar, false), BlobAction::Copy);
    assert_eq!(blob_action(TableStorageMode::InlineJson, TableStorageMode::BlobSidecar, true), BlobAction::Write);
    assert_eq!(blob_action(TableStorageMode::InlineJson, TableStorageMode::BlobSidecar, false), BlobAction::Nothing);
    assert!(should_flush(false, 10, 10));
    assert!(!should_flush(true, 10, 10));
    assert_eq!(to_version(MigrationKind::ExternalImport, 0), 1);
    assert_eq!(to_version(MigrationKind::DataTransfer, 3), 4);
    assert_eq!(max_backup_version(&vec![Some(3), None, Some(9), Some(2)], Some(100)), 9);
    assert_eq!(max_backup_version(&vec![None], Some(100)), 100);
    assert_eq!(max_backup_version(&vec![], None), 0);
}

#[test]
fn report_accounts_every_row_once() {
    let mut r = MigrationReport::new("mig-1".to_string(), false);
    r.source_count = 4;
    r.record_source_skip("a".to_string(), Some("why".to_string()));
    assert!(r.record_target_action("t", "b", TargetAction::Insert, TargetConflictPolicy::Fail));
    assert!(!r.record_target_action("t", "c", TargetAction::Conflict, TargetConflictPolicy::Fail));
    assert!(!r.record_target_action("t", "d", TargetAction::KeepExisting, TargetConflictPolicy::Skip));
    assert_eq!(r.source_skipped + r.conflicts.len() + r.would_skip + r.would_insert + r.would_overwrite, 4);
    assert!(r.has_errors());
    assert_eq!(r.finish_run(TargetConflictPolicy::Fail, 1, false, true), RunEnd::Conflicts);
    assert!(!r.would_delete_old_db);
}

#[test]
fn nothing_to_migrate_is_an_error() {
    let mut r = MigrationReport::new("mig-2".to_string(), true);
    r.source_count = 1;
    r.record_target_action("t", "a", TargetAction::KeepExisting, TargetConflictPolicy::Skip);
    assert_eq!(r.finish_run(TargetConflictPolicy::Skip, 0, true, false), RunEnd::NothingToMigrate);
    assert_eq!(r.errors, vec!["no records to migrate after conflict resolution".to_string()]);
    let mut d = MigrationReport::new("mig-3".to_string(), true);
    d.source_count = 1;
    d.record_target_action("t", "a", TargetAction::Insert, TargetConflictPolicy::Skip);
    assert_eq!(d.finish_run(TargetConflictPolicy::Skip, 1, true, true), RunEnd::DryRun);
    assert!(d.would_delete_old_db);
    let res = executed_result(d);
    assert_eq!(res.records_migrated, 1);
}

#[test]
fn manifest_of_a_committed_run() {
    let src = MigrationSource::Clove(MigrationFrom { db: "wh".to_string(), table: "products".to_string() });
    let plan = resolve_plan(&src, Some(&MigrationTo::new("wh").table("items"))).unwrap();
    let m = build_manifest("mig-abc", None, 5, &plan, 2, 3, 40, "h1".to_string(), "h2".to_string(), TargetConflictPolicy::Skip);
    assert_eq!(m.version_scope.primary_snapshot_ref.as_deref(), Some("primary_before_mig-abc"));
    assert_eq!(m.version_scope.backup_versions_to, 40);
    let rename = m.table_rename.unwrap();
    assert_eq!((rename.from_table.as_str(), rename.to_table.as_str()), ("products", "items"));
    assert!(rename.backup_rewrite);
    let report = begin_report(true, TableStorageMode::InlineJson, TableStorageMode::BlobSidecar);
    let id = report.migration_id.clone();
    assert_eq!(id.len(), 12);
    assert!(id.starts_with("mig-"));
    assert!(id[4..].chars().all(|c| c.is_ascii_hexdigit()));
    assert!(report.dry_run);
    assert_eq!(report.from_storage, Some(TableStorageMode::InlineJson));
    assert_eq!(report.to_storage, Some(TableStorageMode::BlobSidecar));
    assert_eq!(report.source_count, 0);
    assert_ne!(begin_report(false, TableStorageMode::InlineJson, TableStorageMode::InlineJson).migration_id, id);
}

#[test]
fn batch_flattens_writes_by_table() {
    let mut b = MigrationBatch::new();
    b.stage_write("a", "k1", vec![1]);
    b.stage_write("b", "k2", vec![2]);
    b.stage_write("a", "k3", vec![3]);
    b.stage_delete("a", "old");
    assert_eq!(b.write_count(), 3);
    b.stage_write("c", "k4", vec![4]);
    assert_eq!(b.write_count(), 4);
    let tables: Vec<String> = b.flat_writes().into_iter().map(|(t, _, _)| t).collect();
    assert_eq!(tables, vec!["a", "a", "b", "c"]);
    let rows = b.flat_writes();
    let ks: Vec<(&str, &str)> = rows.iter().map(|(t, k, _)| (t.as_str(), k.as_str())).collect();
    assert_eq!(ks, vec![("a", "k1"), ("a", "k3"), ("b", "k2"), ("c", "k4")]);
    assert_eq!(b.flat_deletes(), vec![("a".to_string(), "old".to_string())]);
    b.clear();
    assert_eq!(b.write_count(), 0);
    let _ = JsonValue::Number(JsonNumber::PosInt(0));
}

fn v1_default() -> JsonValue {
    obj(vec![("id", s("")), ("name", s(""))])
}

fn v2_default() -> JsonValue {
    obj(vec![("id", s("")), ("name", s("")), ("sku", s(""))])
}

#[test]
fn register_and_migrate_by_layout_hash() {
    let mut reg: MigrationStepRegistry<fn() -> JsonValue> = MigrationStepRegistry::new();
    let from = FieldLayout::from_json_value(&v1_default()).layout_hash;
    let to = FieldLayout::from_json_value(&v2_default()).layout_hash;
    assert_ne!(from, to);
    let key = reg.register(MigrationStepKey { from_layout_hash: from, to_layout_hash: to }, v2_default);
    let template = reg.get_by_layout(&key.from_layout_hash, &key.to_layout_hash).unwrap();
    let input = obj(vec![("id", s("1")), ("name", s("test"))]);
    match auto_migrate_json(input, template()) {
        Ok(MigrateOutcome::Migrate(JsonValue::Object(m))) => {
            let sku = m.iter().find(|(k, _)| k == "sku").map(|(_, v)| v);
            assert!(matches!(sku, Some(JsonValue::String(x)) if x.is_empty()));
        }
        _ => panic!("expected a migrated row"),
    }
}

fn row(key: &str, blob: Option<Vec<u8>>) -> MigratedRow {
    MigratedRow { key: key.to_string(), metadata: format!("{{\"id\":\"{key}\"}}").into_bytes(), blob }
}

#[test]
fn run_state_stages_counts_and_flushes() {
    let report = MigrationReport::new("mig-1".to_string(), false);
    let mut st = RunState::new(
        report,
        "items".to_string(),
        TargetConflictPolicy::Overwrite,
        TableStorageMode::InlineJson,
        TableStorageMode::BlobSidecar,
        2,
    );
    st.report.source_count = 4;
    let a = target_action(false, false, TargetConflictPolicy::Overwrite);
    assert!(!st.place_row(row("a", Some(vec![1, 2])), a));
    let b = target_action(true, false, TargetConflictPolicy::Overwrite);
    assert!(st.place_row(row("b", None), b));
    assert_eq!(st.batch.write_count(), 2);
    assert_eq!(st.pending_blobs.len(), 1);
    assert_eq!(st.pending_blobs[0], ("a".to_string(), vec![1, 2]));
    st.committed();
    assert_eq!(st.batch.write_count(), 0);
    assert!(st.pending_blobs.is_empty());
    assert!(!st.place_row(row("c", None), TargetAction::KeepExisting));
    assert!(!st.place_row(row("d", None), TargetAction::Conflict));
    assert_eq!(st.snapshot.len(), 2);
    assert_eq!((st.report.would_insert, st.report.would_overwrite, st.report.would_skip), (1, 1, 1));
    assert_eq!(st.report.conflicts.len(), 1);
    assert_eq!(st.report.conflicts[0].table, "items");
    assert_eq!(st.report.blobs_written, 1);
    assert_eq!(st.finish(true), RunEnd::Commit);
    assert!(st.report.would_delete_old_db);
}

#[test]
fn dry_run_state_keeps_nothing_and_never_flushes() {
    let report = MigrationReport::new("mig-2".to_string(), true);
    let mut st = RunState::new(
        report,
        "items".to_string(),
        TargetConflictPolicy::Fail,
        TableStorageMode::BlobSidecar,
        TableStorageMode::BlobSidecar,
        1,
    );
    st.report.source_count = 2;
    assert!(!st.place_row(row("a", None), TargetAction::Insert));
    assert!(!st.place_row(row("b", None), TargetAction::Conflict));
    assert!(st.snapshot.is_empty() && st.pending_copies.is_empty());
    assert_eq!(st.report.blobs_copied, 1);
    assert_eq!(st.batch.write_count(), 1);
    assert_eq!(st.finish(false), RunEnd::Conflicts);
}

#[test]
fn field_map_plans_each_member() {
    let d = FieldMap::new().rename("old", "new").transform("price", "price_cents", FieldTransform::UsdToCents).build_decoder();
    let plan = d.member_plan(&vec!["id".to_string(), "old".to_string(), "price".to_string()]);
    assert_eq!(
        plan,
        vec![
            ("id".to_string(), None),
            ("new".to_string(), None),
            ("price_cents".to_string(), Some(FieldTransform::UsdToCents)),
        ]
    );
}

#[test]
fn migration_id_takes_the_first_eight_uuid_digits() {
    assert_eq!(migration_id_from_uuid("0123abcd-ef01-4234-8567-89abcdef0123"), "mig-0123abcd");
}

#[test]
fn dry_run_rows_counts_every_row_once() {
    let mut report = MigrationReport::new("mig-3".to_string(), true);
    report.source_count = 4;
    let mut st = RunState::new(
        report,
        "items".to_string(),
        TargetConflictPolicy::Skip,
        TableStorageMode::InlineJson,
        TableStorageMode::InlineJson,
        10,
    );
    st.dry_run_rows(vec![
        RowEvent::Skipped { key: "a".to_string(), reason: Some("empty".to_string()) },
        RowEvent::Migrated { row: row("b", None), action: TargetAction::Insert },
        RowEvent::Migrated { row: row("c", None), action: TargetAction::KeepExisting },
        RowEvent::Migrated { row: row("d", None), action: TargetAction::Overwrite },
    ]);
    let r = &st.report;
    assert_eq!((r.source_skipped, r.would_insert, r.would_skip, r.would_overwrite, r.conflicts.len()), (1, 1, 1, 1, 0));
    assert_eq!(r.source_skipped + r.conflicts.len() + r.would_skip + r.would_insert + r.would_overwrite, r.source_count);
    assert_eq!(r.skipped_entries[0].reason.as_deref(), Some("empty"));
    assert!(st.snapshot.is_empty());
    assert_eq!(st.batch.write_count(), 2);
}
