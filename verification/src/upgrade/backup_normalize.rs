//! Rewriting a backup file whose records are in older formats into the
//! current record format. The caller copies and swaps the files and reads and
//! writes the tables; this module decides what each entry becomes and whether
//! the result can be trusted.

use vstd::prelude::*;

use crate::backup::{BackupOperation, BackupRecord};
use crate::text::{spec_decimal, u64_to_decimal};
use crate::units::{ClError, Result};
use crate::upgrade::legacy_record::{is_canonical_of, parse_backup_value, spec_split_versioned_key};

verus! {

/// Entries are written back in batches of this many.
pub const BATCH_SIZE: usize = 1000;

pub struct BackupNormalizeResult {
    pub upgraded: bool,
    pub entries_converted: usize,
    pub entries_skipped: usize,
    pub pre_upgrade_removed: bool,
}

impl BackupNormalizeResult {
    /// Nothing was rewritten; `entries_skipped` entries were already current.
    pub fn untouched(entries_skipped: usize) -> (r: Self)
        ensures
            !r.upgraded,
            r.entries_converted == 0,
            r.entries_skipped == entries_skipped,
            !r.pre_upgrade_removed,
    {
        BackupNormalizeResult { upgraded: false, entries_converted: 0, entries_skipped, pre_upgrade_removed: false }
    }

    /// The backup was rewritten.
    pub fn rewritten(entries_converted: usize, entries_skipped: usize, pre_upgrade_removed: bool) -> (r: Self)
        ensures
            r.upgraded,
            r.entries_converted == entries_converted,
            r.entries_skipped == entries_skipped,
            r.pre_upgrade_removed == pre_upgrade_removed,
    {
        BackupNormalizeResult { upgraded: true, entries_converted, entries_skipped, pre_upgrade_removed }
    }
}

/// What happens to one entry of a data table.
pub enum EntryAction {
    /// Already a current record: kept as it is.
    Keep,
    /// Rewritten as this record, in the current format.
    Rewrite(BackupRecord),
}

/// One entry: a value that decodes as a current record (`is_current`) is
/// kept; any other is read as a record of the older shape (`legacy`, when it
/// decodes as one) or as raw entity bytes, and rewritten.
pub fn normalize_entry(table_name: &str, key: &str, value: &[u8], is_current: bool, legacy: Option<BackupRecord>) -> (r: Result<EntryAction>)
    ensures
        is_current ==> r matches Ok(EntryAction::Keep),
        !is_current && value@.len() > 0 && legacy is Some ==>
            (r matches Ok(EntryAction::Rewrite(rec)) && is_canonical_of(rec, legacy.unwrap())),
        !is_current && (value@.len() == 0 || legacy is None) ==> match spec_split_versioned_key(key@) {
            Ok((k, v)) => r matches Ok(EntryAction::Rewrite(rec)) && {
                &&& rec.key@ == k
                &&& rec.version == v
                &&& rec.table@ == table_name@
                &&& rec.timestamp == 0
                &&& rec.operation == (if value@.len() == 0 { BackupOperation::Delete } else { BackupOperation::Write })
                &&& (if value@.len() == 0 { rec.data is None } else { rec.data matches Some(d) && d@ == value@ })
                &&& rec.bulk_id is None
                &&& rec.restored_version is None
            },
            Err(reason) => r matches Err(ClError::BackupNormalizeFailed { reason: m }) && m@ == reason,
        },
{
    if is_current {
        return Ok(EntryAction::Keep);
    }
    match parse_backup_value(table_name, key, value, None, legacy) {
        Ok(rec) => Ok(EntryAction::Rewrite(rec)),
        Err(e) => Err(e),
    }
}

/// Whether a batch of `len` pending entries is written now.
pub fn batch_is_full(len: usize) -> (r: bool)
    ensures
        r == (len >= BATCH_SIZE),
{
    len >= BATCH_SIZE
}

/// Checks a rewritten backup: every entry must now decode, and the number of
/// entries must not have changed.
pub fn verify_normalized(before: usize, fully_normalized: bool, after: usize) -> (r: Result<()>)
    ensures
        r is Ok <==> (fully_normalized && before == after),
        !fully_normalized ==> (r matches Err(ClError::BackupNormalizeFailed { reason })
            && reason@ == "verify failed: not all entries parse as BackupRecord"@),
        fully_normalized && before != after ==> (r matches Err(ClError::BackupNormalizeFailed { reason })
            && reason@ == "entry count mismatch: before "@ + spec_decimal(before as nat) + " after "@ + spec_decimal(after as nat)),
{
    if !fully_normalized {
        return Err(ClError::BackupNormalizeFailed {
            reason: "verify failed: not all entries parse as BackupRecord".to_owned(),
        });
    }
    if before != after {
        let mut m = "entry count mismatch: before ".to_owned();
        let b = u64_to_decimal(before as u64);
        m.append(b.as_str());
        m.append(" after ");
        let a = u64_to_decimal(after as u64);
        m.append(a.as_str());
        return Err(ClError::BackupNormalizeFailed { reason: m });
    }
    Ok(())
}

/// Checks the entries of a bulk table, each with whether it decodes as a bulk
/// record: the first that does not is an error.
pub fn check_bulk_entries(entries: &Vec<(String, bool)>) -> (r: Result<()>)
    ensures
        r is Ok <==> forall|i: int| 0 <= i < entries@.len() ==> (#[trigger] entries@[i]).1,
        r matches Err(e) ==> exists|i: int| 0 <= i < entries@.len() && !(#[trigger] entries@[i]).1
            && (forall|j: int| 0 <= j < i ==> (#[trigger] entries@[j]).1)
            && (e matches ClError::BackupNormalizeFailed { reason }
                && reason@ == "bulk entry '"@ + entries@[i].0@ + "' is not valid BulkRecord JSON"@),
{
    let mut i: usize = 0;
    while i < entries.len()
        invariant
            i <= entries@.len(),
            forall|j: int| 0 <= j < i ==> (#[trigger] entries@[j]).1,
        decreases entries@.len() - i,
    {
        if !entries[i].1 {
            let mut m = "bulk entry '".to_owned();
            m.append(entries[i].0.as_str());
            m.append("' is not valid BulkRecord JSON");
            return Err(ClError::BackupNormalizeFailed { reason: m });
        }
        i = i + 1;
    }
    Ok(())
}

} // verus!
