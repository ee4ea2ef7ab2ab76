use clove1db::migration::plan::{resolve_plan, MigrationSource};
use clove1db::migration::types::{ExternalFrom, KeyDecoder, MigrationFrom, MigrationKind, MigrationTo, ValueDecoder};
use clove1db::ClError;

fn from(db: &str, table: &str) -> MigrationSource {
    MigrationSource::Clove(MigrationFrom { db: db.to_string(), table: table.to_string() })
}

#[test]
fn no_to_is_inplace() {
    let plan = resolve_plan(&from("legacy", "products"), None).unwrap();
    assert_eq!(plan.kind, MigrationKind::InPlaceEvolve);
    assert!(!plan.effective_delete_source);
}

#[test]
fn same_from_to_ignores_delete_source() {
    let to = MigrationTo { db: "legacy".to_string(), table: Some("products".to_string()), delete_source: true };
    let plan = resolve_plan(&from("legacy", "products"), Some(&to)).unwrap();
    assert_eq!(plan.kind, MigrationKind::InPlaceEvolve);
    assert!(!plan.effective_delete_source);
}

#[test]
fn cross_db_same_table() {
    let plan = resolve_plan(&from("wh", "products"), Some(&MigrationTo::new("shop"))).unwrap();
    assert_eq!(plan.kind, MigrationKind::DataTransfer);
    assert_eq!(plan.to.table, "products");
}

#[test]
fn external_requires_to() {
    let ext = ExternalFrom {
        path: "x.redb".to_string(),
        table: "v".to_string(),
        key_decoder: KeyDecoder::Utf8String,
        value_decoder: ValueDecoder::JsonValidate,
    };
    assert!(resolve_plan(&MigrationSource::External(ext), None).is_err());
}

#[test]
fn transfer_honours_delete_source() {
    let to = MigrationTo::new("shop").table("items").delete_source(true);
    let plan = resolve_plan(&from("wh", "products"), Some(&to)).unwrap();
    assert_eq!(plan.kind, MigrationKind::DataTransfer);
    assert!(plan.effective_delete_source);
    assert_eq!(plan.from.db, "wh");
    assert_eq!(plan.from.table, "products");
    assert_eq!(plan.to.db, "shop");
    assert_eq!(plan.to.table, "items");
}

#[test]
fn same_db_other_table_is_transfer() {
    let to = MigrationTo::new("wh").table("items");
    let plan = resolve_plan(&from("wh", "products"), Some(&to)).unwrap();
    assert_eq!(plan.kind, MigrationKind::DataTransfer);
}

#[test]
fn external_import_targets_given_table() {
    let ext = ExternalFrom {
        path: "x.redb".to_string(),
        table: "v".to_string(),
        key_decoder: KeyDecoder::U64AsString,
        value_decoder: ValueDecoder::RawPassthrough,
    };
    let to = MigrationTo::new("shop").table("imported");
    let plan = resolve_plan(&MigrationSource::External(ext), Some(&to)).unwrap();
    assert_eq!(plan.kind, MigrationKind::ExternalImport);
    assert_eq!(plan.to.db, "shop");
    assert_eq!(plan.to.table, "imported");
    assert!(plan.external.is_some());
}

#[test]
fn external_without_target_table_is_refused() {
    let ext = ExternalFrom {
        path: "x.redb".to_string(),
        table: "v".to_string(),
        key_decoder: KeyDecoder::Utf8String,
        value_decoder: ValueDecoder::JsonValidate,
    };
    let r = resolve_plan(&MigrationSource::External(ext), Some(&MigrationTo::new("shop")));
    match r {
        Err(ClError::MigrationError(m)) => assert_eq!(m, "external migration requires to.table"),
        _ => panic!("expected a migration error"),
    }
}
