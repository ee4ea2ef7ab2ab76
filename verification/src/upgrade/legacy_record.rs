//! Reading a backup value of any format the backup has had: the current
//! record, a record of an older shape, or the raw entity bytes that the
//! earliest backups stored under `{key}:{version}`.
//!
//! Decoding the JSON of a record is done by the caller, which passes the
//! record each shape decodes to, if any.

use vstd::prelude::*;

use crate::backup::{BackupOperation, BackupRecord};
use crate::text::{
    last_index_of, lemma_last_index_of_bounds, lemma_last_index_of_concat, lemma_no_colon_in_decimal,
    lemma_parse_decimal_roundtrip, parse_u64, spec_decimal, spec_last_index_of, spec_parse_u64, substring,
    u64_to_decimal,
};
use crate::units::{ClError, Result};

verus! {

/// The key a backup record is stored under: `{key}:{version}`.
pub open spec fn spec_backup_key(key: Seq<char>, version: u64) -> Seq<char> {
    key + seq![':'] + spec_decimal(version as nat)
}

pub fn backup_key(key: &str, version: u64) -> (r: String)
    ensures
        r@ == spec_backup_key(key@, version),
{
    proof { reveal_strlit(":"); }
    let mut s = key.to_owned();
    s.append(":");
    let d = u64_to_decimal(version);
    s.append(d.as_str());
    s
}

/// How a backup key splits: the text before its last `:` and the version
/// after it; `None` with the reason when there is no `:` or the version is
/// not a `u64`.
pub open spec fn spec_split_versioned_key(k: Seq<char>) -> core::result::Result<(Seq<char>, u64), Seq<char>> {
    let i = spec_last_index_of(k, ':');
    if i < 0 {
        Err("key '"@ + k + "' is not versioned"@)
    } else {
        match spec_parse_u64(k.subrange(i + 1, k.len() as int)) {
            Some(v) => Ok((k.subrange(0, i), v)),
            None => Err("invalid version suffix in '"@ + k + "'"@),
        }
    }
}

/// Splits a backup key into the entity key and the version.
pub fn parse_versioned_key(backup_key: &str) -> (r: Result<(String, u64)>)
    ensures
        match spec_split_versioned_key(backup_key@) {
            Ok((k, v)) => r matches Ok(p) && p.0@ == k && p.1 == v,
            Err(reason) => r matches Err(ClError::BackupNormalizeFailed { reason: m }) && m@ == reason,
        },
{
    proof { lemma_last_index_of_bounds(backup_key@, ':'); }
    match last_index_of(backup_key, ':') {
        None => {
            let mut m = "key '".to_owned();
            m.append(backup_key);
            m.append("' is not versioned");
            Err(ClError::BackupNormalizeFailed { reason: m })
        },
        Some(i) => {
            let n = backup_key.unicode_len();
            let suffix = substring(backup_key, i + 1, n);
            match parse_u64(suffix.as_str()) {
                Some(v) => Ok((substring(backup_key, 0, i), v)),
                None => {
                    let mut m = "invalid version suffix in '".to_owned();
                    m.append(backup_key);
                    m.append("'");
                    Err(ClError::BackupNormalizeFailed { reason: m })
                },
            }
        },
    }
}

/// A backup key splits back into the key and the version it was made from,
/// whatever the key holds (a `:` too).
pub proof fn law_backup_key_roundtrip(key: Seq<char>, version: u64)
    ensures
        spec_split_versioned_key(spec_backup_key(key, version)) == Ok::<(Seq<char>, u64), Seq<char>>((key, version)),
{
    let d = spec_decimal(version as nat);
    lemma_no_colon_in_decimal(version as nat);
    lemma_last_index_of_concat(key, ':', d);
    let k = spec_backup_key(key, version);
    assert(k =~= key.push(':') + d);
    assert(k.subrange(key.len() + 1int, k.len() as int) =~= d);
    assert(k.subrange(0, key.len() as int) =~= key);
    lemma_parse_decimal_roundtrip(version);
}

/// The current local time as `%Y-%m-%d %H:%M:%S%.3f`.
///
/// Calls `chrono::Local::now().format(..)`. Nothing is stated of the text: it
/// is the clock's, in the machine's time zone.
#[verifier::external_body]
fn local_now_text() -> (r: String) {
    chrono::Local::now().format("%Y-%m-%d %H:%M:%S%.3f").to_string()
}

/// A record made from raw entity bytes stored under `{key}:{version}`: empty
/// bytes are a delete, other bytes a write of those bytes; timestamp 0, dated
/// now. A key that does not split is an error.
pub fn from_raw_entity(backup_key: &str, table_name: &str, value: &[u8]) -> (r: Result<BackupRecord>)
    ensures
        match spec_split_versioned_key(backup_key@) {
            Ok((k, v)) => r matches Ok(rec) && {
                &&& rec.version == v
                &&& rec.timestamp == 0
                &&& rec.operation == (if value@.len() == 0 { BackupOperation::Delete } else { BackupOperation::Write })
                &&& rec.table@ == table_name@
                &&& rec.key@ == k
                &&& (if value@.len() == 0 { rec.data is None } else { rec.data matches Some(d) && d@ == value@ })
                &&& rec.bulk_id is None
                &&& rec.restored_version is None
            },
            Err(reason) => r matches Err(ClError::BackupNormalizeFailed { reason: m }) && m@ == reason,
        },
{
    let (entity_key, version) = match parse_versioned_key(backup_key) {
        Ok(p) => p,
        Err(e) => return Err(e),
    };
    let empty = value.len() == 0;
    let operation = if empty { BackupOperation::Delete } else { BackupOperation::Write };
    let data: Option<Vec<u8>> = if empty { None } else { Some(vstd::slice::slice_to_vec(value)) };
    Ok(BackupRecord {
        version,
        timestamp: 0,
        date: local_now_text(),
        operation,
        table: table_name.to_owned(),
        key: entity_key,
        data,
        bulk_id: None,
        restored_version: None,
    })
}

/// `r` is `record` with the table `unknown` in place of an empty table name.
pub open spec fn is_canonical_of(r: BackupRecord, record: BackupRecord) -> bool {
    &&& (record.table@.len() == 0 ==> r.table@ == "unknown"@)
    &&& (record.table@.len() > 0 ==> r.table == record.table)
    &&& r.version == record.version
    &&& r.timestamp == record.timestamp
    &&& r.date == record.date
    &&& r.operation == record.operation
    &&& r.key == record.key
    &&& r.data == record.data
    &&& r.bulk_id == record.bulk_id
    &&& r.restored_version == record.restored_version
}

/// A record with an empty table name gets the table `unknown`; otherwise it is
/// kept as it is.
pub fn canonicalize_record(record: BackupRecord) -> (r: BackupRecord)
    ensures
        is_canonical_of(r, record),
{
    let mut record = record;
    if record.table.as_str().unicode_len() == 0 {
        record.table = "unknown".to_owned();
    }
    record
}

/// Reads a backup value: empty bytes are a raw delete; bytes that decode as a
/// current record (`current`) or as a record of the older shape (`legacy`)
/// give that record, canonicalized; any other bytes are raw entity bytes.
pub fn parse_backup_value(table_name: &str, backup_key: &str, value: &[u8], current: Option<BackupRecord>, legacy: Option<BackupRecord>) -> (r: Result<BackupRecord>)
    ensures
        value@.len() > 0 && current is Some ==> (r matches Ok(rec) && is_canonical_of(rec, current.unwrap())),
        value@.len() > 0 && current is None && legacy is Some ==> (r matches Ok(rec) && is_canonical_of(rec, legacy.unwrap())),
        (value@.len() == 0 || (current is None && legacy is None)) ==> match spec_split_versioned_key(backup_key@) {
            Ok((k, v)) => r matches Ok(rec) && {
                &&& rec.version == v
                &&& rec.timestamp == 0
                &&& rec.operation == (if value@.len() == 0 { BackupOperation::Delete } else { BackupOperation::Write })
                &&& rec.table@ == table_name@
                &&& rec.key@ == k
                &&& (if value@.len() == 0 { rec.data is None } else { rec.data matches Some(d) && d@ == value@ })
                &&& rec.bulk_id is None
                &&& rec.restored_version is None
            },
            Err(reason) => r matches Err(ClError::BackupNormalizeFailed { reason: m }) && m@ == reason,
        },
{
    if value.len() == 0 {
        return from_raw_entity(backup_key, table_name, value);
    }
    match current {
        Some(rec) => Ok(canonicalize_record(rec)),
        None => match legacy {
            Some(rec) => Ok(canonicalize_record(rec)),
            None => from_raw_entity(backup_key, table_name, value),
        },
    }
}

} // verus!
