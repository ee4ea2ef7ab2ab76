use std::collections::HashMap;

use clove1db::backup::{BackupOperation, BackupRecord};
use clove1db::cache::{
    answer_from_cache, commit_cache_effects, delete_cache_effect, fill_after_read, restore_cache_effect,
    write_cache_effect, CacheEffect,
};
use clove1db::repository::{restore_plan, PrimaryChange};

fn apply(cache: &mut HashMap<String, Vec<u8>>, e: CacheEffect) {
    match e {
        CacheEffect::Insert(k, v) => {
            cache.insert(k, v);
        }
        CacheEffect::Invalidate(k) => {
            cache.remove(&k);
        }
    }
}

#[test]
fn commit_caches_writes_then_drops_deletes() {
    let writes = vec![
        ("users".to_string(), "a".to_string(), vec![1u8]),
        ("users".to_string(), "b:x".to_string(), vec![2u8]),
    ];
    let deletes = vec![("logs".to_string(), "c".to_string())];
    let effects = commit_cache_effects(true, &writes, &deletes);
    assert_eq!(effects.len(), 3);
    assert!(matches!(&effects[0], CacheEffect::Insert(k, v) if k == "users:a" && v == &vec![1u8]));
    assert!(matches!(&effects[1], CacheEffect::Insert(k, v) if k == "users:b:x" && v == &vec![2u8]));
    assert!(matches!(&effects[2], CacheEffect::Invalidate(k) if k == "logs:c"));
    assert!(commit_cache_effects(false, &writes, &deletes).is_empty());
}

#[test]
fn single_operations_touch_the_cache_only_when_it_is_on() {
    assert!(matches!(write_cache_effect(true, "t", "k", &vec![9]), Some(CacheEffect::Insert(k, v)) if k == "t:k" && v == vec![9]));
    assert!(write_cache_effect(false, "t", "k", &vec![9]).is_none());
    assert!(matches!(delete_cache_effect(true, "t", "k"), Some(CacheEffect::Invalidate(k)) if k == "t:k"));
    assert!(delete_cache_effect(false, "t", "k").is_none());
    assert_eq!(answer_from_cache(true, Some(vec![1])), Some(vec![1]));
    assert_eq!(answer_from_cache(false, Some(vec![1])), None);
    assert_eq!(answer_from_cache(true, None), None);
    assert!(matches!(fill_after_read(true, "t", "k", &Some(vec![3])), Some(CacheEffect::Insert(k, v)) if k == "t:k" && v == vec![3]));
    assert!(fill_after_read(true, "t", "k", &None).is_none());
    assert!(fill_after_read(false, "t", "k", &Some(vec![3])).is_none());
}

fn read(has_cache: bool, cache: &HashMap<String, Vec<u8>>, primary: &HashMap<(String, String), Vec<u8>>, t: &str, k: &str) -> Option<Vec<u8>> {
    match answer_from_cache(has_cache, cache.get(&format!("{t}:{k}")).cloned()) {
        Some(v) => Some(v),
        None => primary.get(&(t.to_string(), k.to_string())).cloned(),
    }
}

#[test]
fn read_gives_back_write_and_nothing_after_delete() {
    let mut cache = HashMap::new();
    let mut primary = HashMap::new();
    for has_cache in [true, false] {
        primary.insert(("users".to_string(), "a".to_string()), vec![1]);
        if let Some(e) = write_cache_effect(has_cache, "users", "a", &vec![1]) {
            apply(&mut cache, e);
        }
        primary.insert(("users".to_string(), "a".to_string()), vec![2]);
        if let Some(e) = write_cache_effect(has_cache, "users", "a", &vec![2]) {
            apply(&mut cache, e);
        }
        assert_eq!(read(has_cache, &cache, &primary, "users", "a"), Some(vec![2]));
        primary.remove(&("users".to_string(), "a".to_string()));
        if let Some(e) = delete_cache_effect(has_cache, "users", "a") {
            apply(&mut cache, e);
        }
        assert_eq!(read(has_cache, &cache, &primary, "users", "a"), None);
    }
}

fn backup_record(op: BackupOperation, data: Option<&[u8]>) -> BackupRecord {
    BackupRecord {
        version: 1,
        timestamp: 1,
        date: String::new(),
        operation: op,
        table: "users".to_string(),
        key: "a".to_string(),
        data: data.map(|d| d.to_vec()),
        bulk_id: None,
        restored_version: None,
    }
}

#[test]
fn restore_gives_back_the_version() {
    let mut cache = HashMap::new();
    let mut primary = HashMap::new();
    primary.insert(("users".to_string(), "a".to_string()), vec![9]);
    cache.insert("users:a".to_string(), vec![9]);
    let plan = restore_plan(backup_record(BackupOperation::Write, Some(&[1, 2])));
    if let PrimaryChange::Put(d) = &plan.primary {
        primary.insert(("users".to_string(), "a".to_string()), d.clone());
    }
    if let Some(e) = restore_cache_effect(true, "users", "a", &plan.primary) {
        apply(&mut cache, e);
    }
    assert_eq!(read(true, &cache, &primary, "users", "a"), Some(vec![1, 2]));
    let plan = restore_plan(backup_record(BackupOperation::Delete, Some(&[1])));
    assert!(matches!(plan.primary, PrimaryChange::Remove));
    primary.remove(&("users".to_string(), "a".to_string()));
    if let Some(e) = restore_cache_effect(true, "users", "a", &plan.primary) {
        apply(&mut cache, e);
    }
    assert_eq!(read(true, &cache, &primary, "users", "a"), None);
    let keep = restore_plan(backup_record(BackupOperation::Restore, None));
    assert!(restore_cache_effect(true, "users", "a", &keep.primary).is_none());
}
