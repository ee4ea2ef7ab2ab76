use clove1db::durability::DurabilityMode;
use clove1db::migration::chain::{
    accept_root_index, check_root_presence, needs_legacy_upgrade, step_for_manifest, table_index_or_initial,
    DbMigrationIndex, TableMigrationChain,
};
use clove1db::migration::step_registry::{MigrationStepKey, MigrationStepRegistry};
use clove1db::migration::types::{
    DbMigrationRootIndex, MigrationKind, MigrationManifest, SchemaRef, TableChainIndex, TargetConflictPolicy,
    VersionScope,
};
use clove1db::repository::check_restorable;
use clove1db::ClError;

fn manifest(id: &str, parent: Option<&str>, from: u32, to: u32, scope: (u64, u64), from_hash: &str, to_hash: &str) -> MigrationManifest {
    MigrationManifest {
        migration_id: id.to_string(),
        parent_migration_id: parent.map(|p| p.to_string()),
        timestamp: from as i64,
        kind: MigrationKind::InPlaceEvolve,
        from: SchemaRef { db: "d".to_string(), table: "products".to_string(), schema_id: "products".to_string(), schema_version: from },
        to: SchemaRef { db: "d".to_string(), table: "products".to_string(), schema_id: "products".to_string(), schema_version: to },
        version_scope: VersionScope {
            backup_versions_from: scope.0,
            backup_versions_to: scope.1,
            scope_table: "products".to_string(),
            primary_snapshot_ref: None,
        },
        from_layout_hash: from_hash.to_string(),
        to_layout_hash: to_hash.to_string(),
        target_conflict_policy: TargetConflictPolicy::Fail,
        table_rename: None,
        field_diff: None,
    }
}

fn products_chain() -> TableMigrationChain {
    TableMigrationChain {
        table: "products".to_string(),
        dir: "/tmp".to_string(),
        index: TableChainIndex { schema_id: "products".to_string(), current_version: 3, initial_version: 1, chain: vec![] },
        manifests: vec![
            manifest("mig-001", None, 1, 2, (1, 10), "hash-v1", "hash-v2"),
            manifest("mig-002", Some("mig-001"), 2, 3, (11, 20), "hash-v2", "hash-v3"),
        ],
        durability: DurabilityMode::Strict,
    }
}

#[test]
fn schema_version_for_backup_respects_chain() {
    let chain = products_chain();
    assert_eq!(chain.schema_version_for_backup(5), 1);
    assert_eq!(chain.schema_version_for_backup(15), 2);
    assert_eq!(chain.schema_version_for_backup(25), 3);
    assert!(!chain.is_restorable(5));
    assert!(chain.is_restorable(25));
}

#[test]
fn migration_id_for_version_follows_scope() {
    let chain = products_chain();
    assert_eq!(chain.migration_id_for_version(10), Some("mig-001"));
    assert_eq!(chain.migration_id_for_version(11), Some("mig-002"));
    assert_eq!(chain.migration_id_for_version(21), None);
}

#[test]
fn normalization_replays_from_era() {
    let chain = products_chain();
    let plan = chain.normalization_plan(5);
    assert_eq!(plan.era_version, 1);
    assert_eq!(plan.steps, vec![0, 1]);
    assert_eq!(plan.decode_path, vec!["products@1".to_string(), "products@2".to_string(), "products@3".to_string()]);
    let current = chain.normalization_plan(30);
    assert_eq!(current.era_version, 3);
    assert!(current.steps.is_empty());
    assert_eq!(current.decode_path, vec!["products@3".to_string()]);
}

#[test]
fn restorability_error_names_schemas() {
    let chain = products_chain();
    assert!(check_restorable(&chain, 25).is_ok());
    match check_restorable(&chain, 15) {
        Err(ClError::NotRestorable { version, schema_at_version, current_schema_version, migration_id }) => {
            assert_eq!(version, 15);
            assert_eq!(schema_at_version, "products@2");
            assert_eq!(current_schema_version, "products@3");
            assert_eq!(migration_id, "mig-002");
        }
        _ => panic!("expected NotRestorable"),
    }
}

#[test]
fn empty_index_has_initial_chains() {
    let tables = vec!["items".to_string(), "users".to_string()];
    let idx = DbMigrationIndex::empty("db/demo.migration".to_string(), "demo", &tables, DurabilityMode::Fast);
    assert_eq!(idx.root.index_version, 2);
    let chain = idx.table_chain("items").unwrap();
    assert_eq!(chain.index.schema_id, "items");
    assert_eq!(chain.index.current_version, 1);
    assert_eq!(chain.dir, "db/demo.migration/tables/items");
    match idx.table_chain("missing") {
        Err(ClError::MigrationError(m)) => assert_eq!(m, "table chain 'missing' not found"),
        _ => panic!("expected an error"),
    }
}

#[test]
fn migration_path_joins() {
    assert_eq!(DbMigrationIndex::migration_path("data/db", "demo"), "data/db/demo.migration");
}

#[test]
fn legacy_root_detection() {
    assert!(needs_legacy_upgrade(br#"{"db_name":"x","current_schema":"a","initial_schema":"a","chain":[]}"#));
    assert!(!needs_legacy_upgrade(br#"{"index_version":2,"db_name":"x","tables":{}}"#));
    assert!(!needs_legacy_upgrade(&[0u8; 16]));
    assert!(!needs_legacy_upgrade(b""));
}

#[test]
fn root_presence_and_version() {
    assert!(check_root_presence(true, false, "m/index.json").is_ok());
    assert!(check_root_presence(false, true, "m/index.json").is_ok());
    match check_root_presence(false, false, "m/index.json") {
        Err(ClError::LegacyMigrationFormat { path }) => assert_eq!(path, "m/index.json"),
        _ => panic!("expected LegacyMigrationFormat"),
    }
    let old = DbMigrationRootIndex { index_version: 1, db_name: "d".to_string(), tables: vec![] };
    assert!(matches!(accept_root_index(old, "p"), Err(ClError::LegacyMigrationFormat { .. })));
    let cur = DbMigrationRootIndex { index_version: 2, db_name: "d".to_string(), tables: vec![] };
    assert_eq!(accept_root_index(cur, "p").unwrap().db_name, "d");
}

#[test]
fn missing_table_index_is_initial() {
    let t = table_index_or_initial(None, "items");
    assert_eq!(t.schema_id, "items");
    assert_eq!((t.current_version, t.initial_version), (1, 1));
    assert!(t.chain.is_empty());
}

#[test]
fn record_append_extends_chain() {
    let tables = vec!["products".to_string()];
    let mut idx = DbMigrationIndex::empty("m".to_string(), "demo", &tables, DurabilityMode::Strict);
    idx.record_append("products", manifest("mig-x", None, 1, 2, (1, 4), "a", "b")).unwrap();
    let chain = idx.table_chain("products").unwrap();
    assert_eq!(chain.current_version(), 2);
    assert_eq!(chain.index.chain.len(), 1);
    assert_eq!(chain.index.chain[0].order, 1);
    assert_eq!(chain.index.chain[0].migration_id, "mig-x");
    idx.sync_root_summaries();
    let s = &idx.root.tables.iter().find(|(n, _)| n == "products").unwrap().1;
    assert_eq!(s.current_version, 2);
    assert!(idx.record_append("nope", manifest("m", None, 1, 2, (1, 1), "a", "b")).is_err());
}

#[test]
fn recording_a_migration_guards_older_backups() {
    let mut chain = TableMigrationChain {
        table: "products".to_string(),
        dir: "/tmp".to_string(),
        index: TableChainIndex { schema_id: "products".to_string(), current_version: 1, initial_version: 1, chain: vec![] },
        manifests: vec![],
        durability: DurabilityMode::Strict,
    };
    assert!(chain.is_restorable(3));
    assert!(chain.is_restorable(40));
    chain.record_append(manifest("mig-a", None, 1, 2, (1, 10), "h1", "h2"));
    assert_eq!(chain.current_version(), 2);
    assert_eq!(chain.schema_version_for_backup(3), 1);
    assert!(!chain.is_restorable(3));
    assert!(chain.is_restorable(11));
    chain.record_append(manifest("mig-b", Some("mig-a"), 2, 3, (1, 20), "h2", "h3"));
    assert_eq!(chain.schema_version_for_backup(3), 1);
    assert_eq!(chain.schema_version_for_backup(15), 2);
    assert!(chain.is_restorable(21));
}

#[test]
fn step_for_manifest_names_the_migration_when_missing() {
    let mut reg: MigrationStepRegistry<u8> = MigrationStepRegistry::new();
    let m = manifest("mig-s", None, 1, 2, (1, 1), "h1", "h2");
    match step_for_manifest(&reg, &m) {
        Err(ClError::DecoderNotFound { from_layout_hash, to_layout_hash, migration_id }) => {
            assert_eq!((from_layout_hash.as_str(), to_layout_hash.as_str(), migration_id.as_str()), ("h1", "h2", "mig-s"));
        }
        _ => panic!("expected an error"),
    }
    reg.register(MigrationStepKey { from_layout_hash: "h1".to_string(), to_layout_hash: "h2".to_string() }, 7);
    assert_eq!(*step_for_manifest(&reg, &m).unwrap(), 7);
}
