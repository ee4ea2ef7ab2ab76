//! The rules of the three-level store (memory cache, primary file, backup
//! file) that do not touch the files: cache keys and weights, how a large
//! commit is split, what a restore writes, and which backup record a point
//! in time selects.

use vstd::prelude::*;

use crate::backup::{BackupOperation, BackupRecord};
use crate::migration::chain::{first_scope_index, spec_version_label, version_label, TableMigrationChain};
use crate::text::str_eq;
use crate::assoc::{assoc_find, assoc_get, assoc_index, assoc_upsert, lemma_assoc_index};
use crate::json::{JsonNumber, JsonValue};
use crate::metadata::types::TableStorageMode;
use crate::units::{ClError, Result};

verus! {

/// A calendar date.
#[derive(Debug, Clone, Copy)]
pub struct Date {
    pub day: u32,
    pub month: u32,
    pub year: u32,
}

// ── cache ────────────────────────────────────────────────────────────────────

/// The cache key of a row: `{table}:{key}`.
pub open spec fn spec_cache_key(table: Seq<char>, key: Seq<char>) -> Seq<char> {
    table + seq![':'] + key
}

pub fn cache_key(table: &str, key: &str) -> (r: String)
    ensures
        r@ == spec_cache_key(table@, key@),
{
    proof { reveal_strlit(":"); }
    let mut s = table.to_owned();
    s.append(":");
    s.append(key);
    s
}

/// The weight of a cache entry, in bytes: its key's and its value's lengths
/// together, capped at `u32::MAX` (an entry that large takes the whole
/// budget).
pub fn cache_weight(key_len: usize, value_len: usize) -> (r: u32)
    ensures
        r as int == if key_len + value_len > u32::MAX { u32::MAX as int } else { key_len + value_len },
{
    let sum = key_len.saturating_add(value_len);
    if sum > 0xffff_ffffusize {
        0xffff_ffffu32
    } else {
        sum as u32
    }
}

// ── commit batches ───────────────────────────────────────────────────────────

/// One commit of a batch: the writes `[write_start, write_end)` and the
/// deletes `[delete_start, delete_end)`.
#[derive(Debug, Clone, Copy, PartialEq, Eq, Structural)]
pub struct CommitChunk {
    pub write_start: usize,
    pub write_end: usize,
    pub delete_start: usize,
    pub delete_end: usize,
}

/// Consecutive ranges of at most `limit` items covering `[start, n)`.
pub open spec fn spec_ranges(start: int, n: int, limit: int) -> Seq<(int, int)>
    decreases n - start,
{
    if start >= n || limit <= 0 {
        Seq::empty()
    } else {
        let end = if start + limit < n { start + limit } else { n };
        seq![(start, end)] + spec_ranges(end, n, limit)
    }
}

pub open spec fn chunk_view(c: CommitChunk) -> (int, int, int, int) {
    (c.write_start as int, c.write_end as int, c.delete_start as int, c.delete_end as int)
}

/// How a batch of `writes` writes and `deletes` deletes is committed: in one
/// commit when it holds at most `limit` entries; otherwise the writes in
/// commits of at most `limit`, then the deletes likewise.
pub open spec fn spec_commit_chunks(writes: int, deletes: int, limit: int) -> Seq<(int, int, int, int)> {
    if writes + deletes <= limit {
        seq![(0, writes, 0, deletes)]
    } else {
        spec_ranges(0, writes, limit).map_values(|r: (int, int)| (r.0, r.1, 0int, 0int))
            + spec_ranges(0, deletes, limit).map_values(|r: (int, int)| (0int, 0int, r.0, r.1))
    }
}

fn ranges(n: usize, limit: usize) -> (r: Vec<(usize, usize)>)
    requires
        limit >= 1,
    ensures
        r@.map_values(|p: (usize, usize)| (p.0 as int, p.1 as int)) == spec_ranges(0, n as int, limit as int),
{
    let mut out: Vec<(usize, usize)> = Vec::new();
    let mut start: usize = 0;
    while start < n
        invariant
            start <= n,
            limit >= 1,
            out@.map_values(|p: (usize, usize)| (p.0 as int, p.1 as int)) + spec_ranges(start as int, n as int, limit as int)
                == spec_ranges(0, n as int, limit as int),
        decreases n - start,
    {
        let end = if limit < n - start { start + limit } else { n };
        let ghost before = out@.map_values(|p: (usize, usize)| (p.0 as int, p.1 as int));
        out.push((start, end));
        proof {
            assert(out@.map_values(|p: (usize, usize)| (p.0 as int, p.1 as int)) =~= before.push((start as int, end as int)));
            assert(spec_ranges(start as int, n as int, limit as int)
                =~= seq![(start as int, end as int)] + spec_ranges(end as int, n as int, limit as int));
            assert(before.push((start as int, end as int)) + spec_ranges(end as int, n as int, limit as int)
                =~= before + (seq![(start as int, end as int)] + spec_ranges(end as int, n as int, limit as int)));
        }
        start = end;
    }
    assert(spec_ranges(start as int, n as int, limit as int) =~= Seq::<(int, int)>::empty());
    assert(out@.map_values(|p: (usize, usize)| (p.0 as int, p.1 as int))
        + Seq::<(int, int)>::empty() =~= out@.map_values(|p: (usize, usize)| (p.0 as int, p.1 as int)));
    out
}

/// The commits of a batch of `writes` writes and `deletes` deletes, at most
/// `limit` entries per commit when the batch is larger than that.
pub fn commit_chunks(writes: usize, deletes: usize, limit: usize) -> (r: Vec<CommitChunk>)
    requires
        limit >= 1,
    ensures
        r@.map_values(|c: CommitChunk| chunk_view(c)) == spec_commit_chunks(writes as int, deletes as int, limit as int),
{
    let over = writes > limit || deletes > limit - writes;
    let mut out: Vec<CommitChunk> = Vec::new();
    if !over {
        out.push(CommitChunk { write_start: 0, write_end: writes, delete_start: 0, delete_end: deletes });
        assert(out@.map_values(|c: CommitChunk| chunk_view(c)) =~= seq![(0int, writes as int, 0int, deletes as int)]);
        return out;
    }
    let w = ranges(writes, limit);
    let d = ranges(deletes, limit);
    let ghost ws = spec_ranges(0, writes as int, limit as int).map_values(|r: (int, int)| (r.0, r.1, 0int, 0int));
    let ghost ds = spec_ranges(0, deletes as int, limit as int).map_values(|r: (int, int)| (0int, 0int, r.0, r.1));
    let mut i: usize = 0;
    while i < w.len()
        invariant
            i <= w@.len(),
            w@.map_values(|p: (usize, usize)| (p.0 as int, p.1 as int)) == spec_ranges(0, writes as int, limit as int),
            ws == spec_ranges(0, writes as int, limit as int).map_values(|r: (int, int)| (r.0, r.1, 0int, 0int)),
            out@.map_values(|c: CommitChunk| chunk_view(c)) == ws.take(i as int),
        decreases w@.len() - i,
    {
        let ghost before = out@.map_values(|c: CommitChunk| chunk_view(c));
        out.push(CommitChunk { write_start: w[i].0, write_end: w[i].1, delete_start: 0, delete_end: 0 });
        proof {
            let sr = spec_ranges(0, writes as int, limit as int);
            assert(w@.map_values(|p: (usize, usize)| (p.0 as int, p.1 as int))[i as int] == (w@[i as int].0 as int, w@[i as int].1 as int));
            assert(sr.len() == w@.len());
            assert(ws[i as int] == (sr[i as int].0, sr[i as int].1, 0int, 0int));
            assert(out@.map_values(|c: CommitChunk| chunk_view(c)) =~= before.push(ws[i as int]));
            assert(ws.take(i + 1) =~= ws.take(i as int).push(ws[i as int]));
        }
        i = i + 1;
    }
    assert(ws.take(w@.len() as int) =~= ws);
    let mut j: usize = 0;
    while j < d.len()
        invariant
            j <= d@.len(),
            d@.map_values(|p: (usize, usize)| (p.0 as int, p.1 as int)) == spec_ranges(0, deletes as int, limit as int),
            ds == spec_ranges(0, deletes as int, limit as int).map_values(|r: (int, int)| (0int, 0int, r.0, r.1)),
            out@.map_values(|c: CommitChunk| chunk_view(c)) == ws + ds.take(j as int),
        decreases d@.len() - j,
    {
        let ghost before = out@.map_values(|c: CommitChunk| chunk_view(c));
        out.push(CommitChunk { write_start: 0, write_end: 0, delete_start: d[j].0, delete_end: d[j].1 });
        proof {
            let sr = spec_ranges(0, deletes as int, limit as int);
            assert(d@.map_values(|p: (usize, usize)| (p.0 as int, p.1 as int))[j as int] == (d@[j as int].0 as int, d@[j as int].1 as int));
            assert(sr.len() == d@.len());
            assert(ds[j as int] == (0int, 0int, sr[j as int].0, sr[j as int].1));
            assert(out@.map_values(|c: CommitChunk| chunk_view(c)) =~= before.push(ds[j as int]));
            assert(ds.take(j + 1) =~= ds.take(j as int).push(ds[j as int]));
            assert(ws + ds.take(j + 1) =~= (ws + ds.take(j as int)).push(ds[j as int]));
        }
        j = j + 1;
    }
    assert(ds.take(d@.len() as int) =~= ds);
    out
}

proof fn lemma_ranges_cover(start: int, n: int, limit: int)
    requires
        0 <= start <= n,
        limit >= 1,
    ensures
        ({
            let s = spec_ranges(start, n, limit);
            &&& forall|k: int| 0 <= k < s.len() ==> (#[trigger] s[k]).0 < s[k].1 <= s[k].0 + limit
            &&& forall|k: int| 0 <= k < s.len() - 1 ==> (#[trigger] s[k]).1 == s[k + 1].0
            &&& s.len() > 0 ==> s[0].0 == start && s.last().1 == n
            &&& s.len() == 0 <==> start == n
        }),
    decreases n - start,
{
    if start < n {
        let end = if start + limit < n { start + limit } else { n };
        lemma_ranges_cover(end, n, limit);
        let s = spec_ranges(start, n, limit);
        let t = spec_ranges(end, n, limit);
        assert(s =~= seq![(start, end)] + t);
        assert forall|k: int| 0 <= k < s.len() - 1 implies (#[trigger] s[k]).1 == s[k + 1].0 by {
            if k > 0 {
                assert(s[k] == t[k - 1] && s[k + 1] == t[k]);
            } else {
                assert(s[1] == t[0]);
            }
        }
        assert forall|k: int| 0 <= k < s.len() implies (#[trigger] s[k]).0 < s[k].1 <= s[k].0 + limit by {
            if k > 0 {
                assert(s[k] == t[k - 1]);
            }
        }
        if t.len() > 0 {
            assert(s.last() == t.last());
        }
    }
}

/// A batch that is split is split without gaps or overlaps: the writes'
/// ranges follow each other from 0 to the number of writes, each holding at
/// least one and at most `limit` writes, and the deletes' ranges likewise.
pub proof fn law_split_batch_covers_every_entry_once(n: int, limit: int)
    requires
        0 <= n,
        limit >= 1,
    ensures
        ({
            let s = spec_ranges(0, n, limit);
            &&& forall|k: int| 0 <= k < s.len() ==> (#[trigger] s[k]).0 < s[k].1 <= s[k].0 + limit
            &&& forall|k: int| 0 <= k < s.len() - 1 ==> (#[trigger] s[k]).1 == s[k + 1].0
            &&& (n > 0 ==> s[0].0 == 0 && s.last().1 == n)
            &&& (n == 0 ==> s.len() == 0)
        }),
{
    lemma_ranges_cover(0, n, limit);
}

// ── restoring ────────────────────────────────────────────────────────────────

/// What a restore does to the primary table.
#[derive(Debug)]
pub enum PrimaryChange {
    /// Write these bytes under the key (and into the cache).
    Put(Vec<u8>),
    /// Remove the key (and its cache entry).
    Remove,
    /// Leave the primary as it is.
    Keep,
}

/// A restore of one backup record: the change to the primary, and what the
/// backup records about the restore (the restored data and bulk id).
#[derive(Debug)]
pub struct RestorePlan {
    pub primary: PrimaryChange,
    pub restored_data: Option<Vec<u8>>,
    pub restored_bulk_id: Option<String>,
}

/// `plan` is the restore of `record`: a record that wrote data puts the data
/// back (one with no data leaves the primary alone) and records the data and
/// bulk id; the restore of a delete removes the key and records neither.
pub open spec fn restores(record: BackupRecord, plan: RestorePlan) -> bool {
    if record.operation == BackupOperation::Delete {
        &&& plan.primary is Remove
        &&& plan.restored_data is None
        &&& plan.restored_bulk_id is None
    } else {
        &&& match record.data {
            Some(d) => plan.primary matches PrimaryChange::Put(p) && p@ == d@,
            None => plan.primary is Keep,
        }
        &&& plan.restored_data == record.data
        &&& plan.restored_bulk_id == record.bulk_id
    }
}

/// What restoring `record` does (see `restores`).
pub fn restore_plan(record: BackupRecord) -> (r: RestorePlan)
    ensures
        restores(record, r),
{
    match record.operation {
        BackupOperation::Delete => RestorePlan { primary: PrimaryChange::Remove, restored_data: None, restored_bulk_id: None },
        _ => {
            let primary = match &record.data {
                Some(d) => PrimaryChange::Put(crate::migration::batch::copy_bytes(d)),
                None => PrimaryChange::Keep,
            };
            RestorePlan { primary, restored_data: record.data, restored_bulk_id: record.bulk_id }
        },
    }
}

/// The last record (in history order) written at or before `timestamp`.
pub open spec fn spec_last_at_or_before(stamps: Seq<i64>, timestamp: i64) -> int
    decreases stamps.len(),
{
    if stamps.len() == 0 {
        -1
    } else if stamps.last() <= timestamp {
        stamps.len() - 1
    } else {
        spec_last_at_or_before(stamps.drop_last(), timestamp)
    }
}

pub open spec fn record_stamps(records: Seq<BackupRecord>) -> Seq<i64> {
    records.map_values(|r: BackupRecord| r.timestamp)
}

/// The position of the record a point in time selects: the last one written
/// at or before it; an error when there is none.
pub fn record_at(records: &Vec<BackupRecord>, timestamp: i64) -> (r: Result<usize>)
    ensures
        match r {
            Ok(i) => i as int == spec_last_at_or_before(record_stamps(records@), timestamp),
            Err(e) => spec_last_at_or_before(record_stamps(records@), timestamp) == -1
                && (e matches ClError::NotFound(m) && m@ == "no record at this timestamp"@),
        },
{
    let ghost stamps = record_stamps(records@);
    let mut i: usize = records.len();
    assert(stamps.take(i as int) =~= stamps);
    while i > 0
        invariant
            i <= records@.len(),
            stamps == record_stamps(records@),
            spec_last_at_or_before(stamps, timestamp) == spec_last_at_or_before(stamps.take(i as int), timestamp),
        decreases i,
    {
        assert(stamps.take(i as int).last() == records@[i - 1].timestamp);
        if records[i - 1].timestamp <= timestamp {
            return Ok(i - 1);
        }
        assert(stamps.take(i as int).drop_last() =~= stamps.take(i - 1));
        i = i - 1;
    }
    Err(ClError::NotFound("no record at this timestamp".to_owned()))
}

/// A backup version can be restored only when it was written under the
/// table's current schema; otherwise the error names the schema it was
/// written under, the current one and the migration between them.
pub fn check_restorable(chain: &TableMigrationChain, version: u64) -> (r: Result<()>)
    ensures
        r is Ok <==> chain.spec_schema_version_for_backup(version) == chain.index.current_version,
        r matches Err(e) ==> (e matches ClError::NotRestorable { version: v, schema_at_version, current_schema_version, migration_id }
            && v == version
            && schema_at_version@ == spec_version_label(chain.index.schema_id@, chain.spec_schema_version_for_backup(version))
            && current_schema_version@ == spec_version_label(chain.index.schema_id@, chain.index.current_version)
            && migration_id@ == ({
                let i = first_scope_index(chain.manifests@, version);
                if i >= 0 { chain.manifests@[i].migration_id@ } else { Seq::<char>::empty() }
            })),
{
    if chain.is_restorable(version) {
        return Ok(());
    }
    let era = chain.schema_version_for_backup(version);
    let schema_at_version = version_label(chain.index.schema_id.as_str(), era);
    let current_schema_version = version_label(chain.index.schema_id.as_str(), chain.index.current_version);
    let migration_id = match chain.migration_id_for_version(version) {
        Some(m) => m.to_owned(),
        None => String::new(),
    };
    Err(ClError::NotRestorable { version, schema_at_version, current_schema_version, migration_id })
}

/// Restoring needs a backup: without one the error is `NotFound`.
pub fn require_backup(configured: bool) -> (r: Result<()>)
    ensures
        r is Ok <==> configured,
        r matches Err(e) ==> (e matches ClError::NotFound(m) && m@ == "backup not configured"@),
{
    if configured {
        Ok(())
    } else {
        Err(ClError::NotFound("backup not configured".to_owned()))
    }
}

// ── tables ───────────────────────────────────────────────────────────────────

/// The directory of a database and of its backup, if it has one.
#[derive(Debug, Clone)]
pub struct Dir {
    pub dir: String,
    pub backup_dir: Option<String>,
}

/// How `table` stores its rows: as registered, inline JSON when it is not
/// registered.
pub open spec fn spec_storage_mode(table_storage: Seq<(String, TableStorageMode)>, table: Seq<char>) -> TableStorageMode {
    match assoc_get(table_storage, table) {
        Some(m) => m,
        None => TableStorageMode::InlineJson,
    }
}

pub fn table_storage_mode(table_storage: &Vec<(String, TableStorageMode)>, table: &str) -> (r: TableStorageMode)
    ensures
        r == spec_storage_mode(table_storage@, table@),
{
    proof { lemma_assoc_index(table_storage@, table@); }
    match assoc_find(table_storage, table) {
        Some(i) => table_storage[i].1,
        None => TableStorageMode::InlineJson,
    }
}

pub fn is_blob_table(table_storage: &Vec<(String, TableStorageMode)>, table: &str) -> (r: bool)
    ensures
        r == (spec_storage_mode(table_storage@, table@) == TableStorageMode::BlobSidecar),
{
    table_storage_mode(table_storage, table) == TableStorageMode::BlobSidecar
}

/// Blob operations need a table registered as a blob sidecar table.
pub fn require_blob_table(is_blob: bool, table: &str) -> (r: Result<()>)
    ensures
        r is Ok <==> is_blob,
        r matches Err(e) ==> (e matches ClError::Validation(m)
            && m@ == "table '"@ + table@ + "' is not registered as blob sidecar"@),
{
    if is_blob {
        return Ok(());
    }
    let mut m = "table '".to_owned();
    m.append(table);
    m.append("' is not registered as blob sidecar");
    Err(ClError::Validation(m))
}

/// The metadata stored beside a blob: the entity's JSON object with its
/// `size_bytes` member set to the blob's size (anything but an object is
/// stored as it is).
pub fn with_size_bytes(meta: JsonValue, size: usize) -> (r: JsonValue)
    ensures
        match meta {
            JsonValue::Object(m) => r matches JsonValue::Object(n) && {
                let i = assoc_index(m@, "size_bytes"@);
                if i >= 0 {
                    n@ == m@.update(i, (m@[i].0, JsonValue::Number(JsonNumber::PosInt(size as u64))))
                } else {
                    n@.drop_last() == m@ && n@.last().0@ == "size_bytes"@
                        && n@.last().1 == JsonValue::Number(JsonNumber::PosInt(size as u64))
                }
            },
            _ => r == meta,
        },
{
    match meta {
        JsonValue::Object(members) => {
            let mut m = members;
            let ghost before = m@;
            let key = "size_bytes".to_owned();
            proof { reveal_strlit("size_bytes"); }
            assoc_upsert(&mut m, key, JsonValue::Number(JsonNumber::PosInt(size as u64)));
            proof {
                if assoc_index(before, "size_bytes"@) < 0 {
                    assert(m@.drop_last() =~= before);
                }
            }
            JsonValue::Object(m)
        },
        other => other,
    }
}

} // verus!
