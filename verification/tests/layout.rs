use clove1db::json::{JsonNumber, JsonValue};
use clove1db::migration::guard::{assert_target_available, check_compatible_overwrite};
use clove1db::migration::layout::{compute_hash, json_type_name, FieldLayout, FieldSpec, LayoutDiffKind};
use clove1db::migration::plan::{resolve_plan, MigrationSource};
use clove1db::migration::types::{MigrationFrom, MigrationTo, TargetConflictPolicy};
use clove1db::ClError;

fn s(v: &str) -> JsonValue {
    JsonValue::String(v.to_string())
}

fn obj(members: Vec<(&str, JsonValue)>) -> JsonValue {
    JsonValue::Object(members.into_iter().map(|(k, v)| (k.to_string(), v)).collect())
}

#[test]
fn auto_safe_on_added_fields() {
    let v1 = FieldLayout::from_json_value(&obj(vec![("id", s("a")), ("name", s("x"))]));
    let v2 = FieldLayout::from_json_value(&obj(vec![("id", s("a")), ("name", s("x")), ("sku", s("s"))]));
    assert_eq!(v1.diff(&v2).kind, LayoutDiffKind::AutoSafe);
}

#[test]
fn breaking_on_removed_field() {
    let v1 = FieldLayout::from_json_value(&obj(vec![("id", s("a")), ("name", s("x"))]));
    let v2 = FieldLayout::from_json_value(&obj(vec![("id", s("a"))]));
    assert_eq!(v1.diff(&v2).kind, LayoutDiffKind::Breaking);
}

#[test]
fn compatible_when_same_shape() {
    let layout = FieldLayout::from_json_value(&obj(vec![("id", s("1")), ("name", s("a"))]));
    let existing = obj(vec![("id", s("1")), ("name", s("a"))]);
    let incoming = obj(vec![("id", s("1")), ("name", s("b"))]);
    assert!(check_compatible_overwrite(&existing, &incoming, &layout));
}

#[test]
fn incompatible_when_existing_differs_from_target() {
    let layout = FieldLayout::from_json_value(&obj(vec![("id", s("1")), ("name", s("a"))]));
    let existing = obj(vec![("id", s("1"))]);
    let incoming = obj(vec![("id", s("1")), ("name", s("b"))]);
    assert!(!check_compatible_overwrite(&existing, &incoming, &layout));
}

#[test]
fn incompatible_when_incoming_has_extra_field() {
    let layout = FieldLayout::from_json_value(&obj(vec![("id", s("1"))]));
    let existing = obj(vec![("id", s("1"))]);
    let incoming = obj(vec![("id", s("1")), ("extra", s("b"))]);
    assert!(!check_compatible_overwrite(&existing, &incoming, &layout));
}

#[test]
fn fields_are_sorted_by_name_and_typed() {
    let v = obj(vec![
        ("zeta", JsonValue::Bool(true)),
        ("alpha", JsonValue::Number(JsonNumber::PosInt(3))),
        ("mid", JsonValue::Null),
        ("list", JsonValue::Array(vec![])),
        ("neg", JsonValue::Number(JsonNumber::NegInt(-2))),
        ("f", JsonValue::Number(JsonNumber::Float(0x3ff0000000000000))),
    ]);
    let layout = FieldLayout::from_json_value(&v);
    let names: Vec<&str> = layout.fields.iter().map(|f| f.name.as_str()).collect();
    assert_eq!(names, vec!["alpha", "f", "list", "mid", "neg", "zeta"]);
    let types: Vec<&str> = layout.fields.iter().map(|f| f.json_type.as_str()).collect();
    assert_eq!(types, vec!["integer", "number", "array", "null", "integer", "bool"]);
    assert!(layout.fields.iter().all(|f| f.required));
    assert_eq!(layout.layout_hash.len(), 16);
    assert!(layout.layout_hash.chars().all(|c| c.is_ascii_hexdigit() && !c.is_ascii_uppercase()));
}

#[test]
fn non_object_has_no_fields() {
    let layout = FieldLayout::from_json_value(&JsonValue::Array(vec![s("x")]));
    assert!(layout.fields.is_empty());
    assert_eq!(layout.layout_hash, compute_hash(&Vec::new()));
}

#[test]
fn json_type_names() {
    assert_eq!(json_type_name(&JsonValue::Null), "null");
    assert_eq!(json_type_name(&JsonValue::Bool(false)), "bool");
    assert_eq!(json_type_name(&JsonValue::Number(JsonNumber::PosInt(1))), "integer");
    assert_eq!(json_type_name(&JsonValue::Number(JsonNumber::Float(0))), "number");
    assert_eq!(json_type_name(&s("x")), "string");
    assert_eq!(json_type_name(&obj(vec![])), "object");
}

#[test]
fn same_shape_different_values_is_identical() {
    let a = FieldLayout::from_json_value(&obj(vec![("id", s("1")), ("n", JsonValue::Number(JsonNumber::PosInt(5)))]));
    let b = FieldLayout::from_json_value(&obj(vec![("id", s("2")), ("n", JsonValue::Number(JsonNumber::PosInt(7)))]));
    assert_eq!(a.layout_hash, b.layout_hash);
    let d = a.diff(&b);
    assert_eq!(d.kind, LayoutDiffKind::Identical);
    assert!(d.added_fields.is_empty() && d.removed_fields.is_empty() && d.type_changes.is_empty());
}

#[test]
fn order_of_members_does_not_change_the_hash() {
    let a = FieldLayout::from_json_value(&obj(vec![("a", s("1")), ("b", s("2"))]));
    let b = FieldLayout::from_json_value(&obj(vec![("b", s("2")), ("a", s("1"))]));
    assert_eq!(a.layout_hash, b.layout_hash);
}

#[test]
fn type_change_is_breaking_and_listed() {
    let a = FieldLayout::from_json_value(&obj(vec![("id", s("1")), ("n", s("5"))]));
    let b = FieldLayout::from_json_value(&obj(vec![("id", s("1")), ("n", JsonValue::Number(JsonNumber::PosInt(5)))]));
    let d = a.diff(&b);
    assert_eq!(d.kind, LayoutDiffKind::Breaking);
    assert_eq!(d.type_changes, vec![("n".to_string(), "string".to_string(), "integer".to_string())]);
    assert!(d.added_fields.is_empty());
    assert!(d.removed_fields.is_empty());
}

#[test]
fn diff_lists_names_in_order() {
    let a = FieldLayout::from_json_value(&obj(vec![("id", s("1")), ("z", s("1")), ("b", s("1"))]));
    let b = FieldLayout::from_json_value(&obj(vec![("id", s("1")), ("y", s("1")), ("c", s("1"))]));
    let d = a.diff(&b);
    assert_eq!(d.added_fields, vec!["c".to_string(), "y".to_string()]);
    assert_eq!(d.removed_fields, vec!["b".to_string(), "z".to_string()]);
    assert_eq!(d.kind, LayoutDiffKind::Breaking);
    let back = b.diff(&a);
    assert_eq!(back.added_fields, d.removed_fields);
    assert_eq!(back.removed_fields, d.added_fields);
}

#[test]
fn same_fields_other_hash_requires_decoder() {
    let a = FieldLayout::from_json_value(&obj(vec![("id", s("1"))]));
    let mut b = FieldLayout::from_json_value(&obj(vec![("id", s("1"))]));
    b.layout_hash = "0000000000000000".to_string();
    assert_eq!(a.diff(&b).kind, LayoutDiffKind::RequiresDecoder);
}

#[test]
fn duplicate_field_names_keep_the_last_type() {
    let a = FieldLayout {
        fields: vec![
            FieldSpec { name: "x".to_string(), json_type: "string".to_string(), required: true },
            FieldSpec { name: "x".to_string(), json_type: "integer".to_string(), required: true },
        ],
        layout_hash: "a".to_string(),
    };
    let b = FieldLayout {
        fields: vec![FieldSpec { name: "x".to_string(), json_type: "integer".to_string(), required: true }],
        layout_hash: "b".to_string(),
    };
    let d = a.diff(&b);
    assert!(d.type_changes.is_empty());
    assert_eq!(d.kind, LayoutDiffKind::RequiresDecoder);
}

fn transfer_plan() -> clove1db::migration::plan::MigrationPlan {
    let src = MigrationSource::Clove(MigrationFrom { db: "wh".to_string(), table: "products".to_string() });
    resolve_plan(&src, Some(&MigrationTo::new("shop"))).unwrap()
}

#[test]
fn occupied_target_fails_under_fail_policy() {
    let plan = transfer_plan();
    match assert_target_available(&plan, 3, TargetConflictPolicy::Fail) {
        Err(ClError::TargetTableOccupied { db, table, existing_keys }) => {
            assert_eq!(db, "shop");
            assert_eq!(table, "products");
            assert_eq!(existing_keys, 3);
        }
        _ => panic!("expected TargetTableOccupied"),
    }
    assert!(assert_target_available(&plan, 3, TargetConflictPolicy::Skip).is_ok());
    assert!(assert_target_available(&plan, 0, TargetConflictPolicy::Fail).is_ok());
}

#[test]
fn in_place_never_checks_occupancy() {
    let src = MigrationSource::Clove(MigrationFrom { db: "wh".to_string(), table: "products".to_string() });
    let plan = resolve_plan(&src, None).unwrap();
    assert!(assert_target_available(&plan, 10, TargetConflictPolicy::Fail).is_ok());
}

#[test]
fn undoing_added_fields_breaks_and_self_is_identical() {
    let v1 = FieldLayout::from_json_value(&obj(vec![("id", s("1")), ("name", s("a"))]));
    let v2 = FieldLayout::from_json_value(&obj(vec![("id", s("1")), ("name", s("a")), ("sku", s("x"))]));
    assert_eq!(v1.diff(&v2).kind, LayoutDiffKind::AutoSafe);
    assert_eq!(v2.diff(&v1).kind, LayoutDiffKind::Breaking);
    assert_eq!(v2.diff(&v1).removed_fields, vec!["sku".to_string()]);
    assert_eq!(v1.diff(&v1).kind, LayoutDiffKind::Identical);
}
