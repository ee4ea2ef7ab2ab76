use clove1db::durability::DurabilityMode;
use clove1db::metadata::inspect::{
    cldb_locations, inspect_database, inspect_report, is_clove_framework_meta, pre_upgrade_path, upgrading_path,
    value_looks_like_clove_entity, DatabaseProbe, FileKind,
};
use clove1db::metadata::store::accept_meta;
use clove1db::metadata::types::{CloveMeta, FileEra, TableMeta};
use clove1db::ClError;

fn meta(upgraded: bool) -> CloveMeta {
    let mut m = CloveMeta::new(
        "users",
        FileEra::Current,
        true,
        vec![TableMeta { name: "users".to_string(), schema_id: "users".to_string(), schema_version: 4, layout_hash: "h".to_string() }],
    );
    m.backup_upgraded = upgraded;
    m
}

fn probe(exists: bool, is_dir: bool, tables: Vec<(&str, Option<&[u8]>)>, meta: Result<Option<CloveMeta>, ClError>) -> DatabaseProbe {
    DatabaseProbe {
        primary_exists: exists,
        primary_is_dir: is_dir,
        backup_exists: true,
        migration_exists: false,
        tables: tables.into_iter().map(|(n, v)| (n.to_string(), v.map(|b| b.to_vec()))).collect(),
        meta,
    }
}

#[test]
fn inspect_new_database() {
    let i = inspect_database("./target/test_inspect_new/users.cldb", None, "./target/test_inspect_new/users.migration", DatabaseProbe {
        primary_exists: false,
        primary_is_dir: false,
        backup_exists: false,
        migration_exists: false,
        tables: vec![],
        meta: Ok(None),
    })
    .unwrap();
    assert_eq!(i.kind, FileKind::New);
    assert!(i.backup_upgraded);
}

#[test]
fn directory_is_invalid() {
    let i = inspect_database("p", Some("b"), "m", probe(true, true, vec![], Ok(None))).unwrap();
    assert_eq!(i.kind, FileKind::Invalid);
    assert!(!i.backup_upgraded);
    assert_eq!(i.backup_path.as_deref(), Some("b"));
}

#[test]
fn file_without_entities_is_external() {
    let i = inspect_database(
        "p",
        None,
        "m",
        probe(true, false, vec![("_clove_meta", Some(br#"{"id":"x"}"#)), ("stuff", Some(b"[1]")), ("users_version", Some(br#"{"id":"v"}"#))], Ok(None)),
    )
    .unwrap();
    assert_eq!(i.kind, FileKind::ExternalRedb);
    assert_eq!(i.tables, vec!["stuff".to_string()]);
}

#[test]
fn entity_file_kinds() {
    let rows = || vec![("users", Some(&br#"{"id":"u1","name":"x"}"#[..])), ("users_bulk", None)];
    let a = inspect_database("p", None, "m", probe(true, false, rows(), Ok(Some(meta(true))))).unwrap();
    assert_eq!(a.kind, FileKind::Authenticated);
    assert_eq!(a.file_era, Some(FileEra::Current));
    assert!(a.backup_upgraded);
    assert_eq!(a.tables, vec!["users".to_string()]);
    let mut p = probe(true, false, rows(), Ok(None));
    p.migration_exists = true;
    assert_eq!(inspect_database("p", None, "m", p).unwrap().kind, FileKind::Clove049);
    let l = inspect_database("p", None, "m", probe(true, false, rows(), Ok(None))).unwrap();
    assert_eq!(l.kind, FileKind::Legacy042);
    assert!(!l.backup_upgraded);
    let e = inspect_database("p", None, "m", probe(true, false, rows(), Err(ClError::Database("boom".to_string()))));
    assert!(matches!(e, Err(ClError::Database(m)) if m == "boom"));
}

#[test]
fn entity_detection() {
    assert!(value_looks_like_clove_entity(br#"{"id":"a"}"#));
    assert!(!value_looks_like_clove_entity(br#"{"id":1}"#));
    assert!(!value_looks_like_clove_entity(b"not json"));
    assert!(is_clove_framework_meta(br#"{"framework":"clove1db"}"#));
    assert!(!is_clove_framework_meta(br#"{"framework":"other"}"#));
}

#[test]
fn upgrade_paths_and_locations() {
    assert_eq!(pre_upgrade_path("b/users.cldb.bak"), "b/users.cldb.bak.pre-upgrade");
    assert_eq!(upgrading_path("b/users.cldb.bak"), "b/users.cldb.bak.upgrading");
    let l = cldb_locations(Some("data".to_string()), Some("users.cldb".to_string()));
    assert_eq!(l.db_name, "users");
    assert_eq!(l.backup_path, "data/users.cldb.bak");
    assert_eq!(l.migration_dir, "data/users.migration");
    let d = cldb_locations(None, None);
    assert_eq!(d.parent, ".");
    assert_eq!(d.db_name, "unknown");
    assert_eq!(d.backup_path, "./unknown.cldb.bak");
    let e = cldb_locations(Some(String::new()), Some("users".to_string()));
    assert_eq!(e.backup_path, "users.cldb.bak");
}

#[test]
fn report_reads_meta_of_authenticated_file() {
    let rows = vec![("users", Some(&br#"{"id":"u1"}"#[..]))];
    let i = inspect_database("p", None, "m", probe(true, false, rows, Ok(Some(meta(true))))).unwrap();
    let r = inspect_report("p", i, Some(meta(true)));
    assert_eq!(r.framework_version.as_deref(), Some("0.0.105"));
    assert_eq!(r.table_schemas, vec![("users".to_string(), 4)]);
    let j = inspect_database("p", None, "m", probe(false, false, vec![], Ok(None))).unwrap();
    let r2 = inspect_report("p", j, Some(meta(true)));
    assert!(r2.framework_version.is_none());
    assert!(r2.table_schemas.is_empty());
}

#[test]
fn meta_of_another_framework_is_refused() {
    let mut m = meta(true);
    assert!(accept_meta(meta(true)).is_ok());
    m.framework = "other".to_string();
    match accept_meta(m) {
        Err(ClError::NotCloveDatabase { path }) => assert_eq!(path, "primary"),
        _ => panic!("expected an error"),
    }
    let _ = DurabilityMode::default();
}

#[test]
fn fresh_meta_record() {
    let m = CloveMeta::new("users", FileEra::Legacy042, false, vec![]);
    assert_eq!(m.framework, "clove1db");
    assert_eq!(m.meta_version, 2);
    assert_eq!(m.backup_format, "unknown");
    assert!(m.backup_upgraded);
    assert!(!m.upgrade_complete);
    let b = CloveMeta::new("users", FileEra::Current, true, vec![]);
    assert_eq!(b.backup_format, "json_wrapped_v1");
    assert!(!b.backup_upgraded);
}

#[test]
fn reopen_empty_authenticated_db_without_entity_rows() {
    let tables = vec![("_clove_meta", Some(&br#"{"framework":"clove1db"}"#[..])), ("bots", None), ("bots_version", None)];
    let i = inspect_database("bots/bots.cldb", None, "bots/bots.migration", probe(true, false, tables, Ok(Some(meta(true)))))
        .unwrap();
    assert_eq!(i.kind, FileKind::Authenticated);
    assert_eq!(i.tables, vec!["bots".to_string()]);
    assert_eq!(i.file_era, Some(FileEra::Current));
    let other = probe(true, false, vec![("bots", None)], Err(ClError::NotCloveDatabase { path: "primary".to_string() }));
    assert_eq!(inspect_database("p", None, "m", other).unwrap().kind, FileKind::ExternalRedb);
}
