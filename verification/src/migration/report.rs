//! What a migration run did, or would do on a dry run.

use vstd::prelude::*;

use crate::metadata::types::TableStorageMode;
use crate::migration::types::TargetConflictPolicy;

verus! {

#[derive(Debug, Clone)]
pub struct ConflictEntry {
    pub table: String,
    pub key: String,
    pub policy: TargetConflictPolicy,
}

/// A source row skipped by the migration transform.
#[derive(Debug, Clone)]
pub struct SkippedEntry {
    pub key: String,
    pub reason: Option<String>,
}

#[derive(Debug, Clone)]
pub struct MigrationReport {
    pub dry_run: bool,
    pub migration_id: String,
    pub source_count: usize,
    pub would_insert: usize,
    pub would_overwrite: usize,
    /// Rows skipped because the target key already exists (`TargetConflictPolicy::Skip`).
    pub would_skip: usize,
    /// Rows skipped by the migration transform.
    pub source_skipped: usize,
    pub skipped_entries: Vec<SkippedEntry>,
    pub conflicts: Vec<ConflictEntry>,
    pub would_delete_old_db: bool,
    pub errors: Vec<String>,
    pub blobs_written: usize,
    pub blobs_copied: usize,
    pub blobs_deleted: usize,
    pub metadata_only_rows: usize,
    pub from_storage: Option<TableStorageMode>,
    pub to_storage: Option<TableStorageMode>,
}

impl MigrationReport {
    /// A report with nothing counted yet and no storage modes recorded.
    pub open spec fn is_fresh(&self) -> bool {
        &&& self.counts_fresh()
        &&& self.from_storage.is_none()
        &&& self.to_storage.is_none()
    }

    /// A report with nothing counted yet.
    pub open spec fn counts_fresh(&self) -> bool {
        &&& self.source_count == 0
        &&& self.would_insert == 0
        &&& self.would_overwrite == 0
        &&& self.would_skip == 0
        &&& self.source_skipped == 0
        &&& self.skipped_entries@.len() == 0
        &&& self.conflicts@.len() == 0
        &&& !self.would_delete_old_db
        &&& self.errors@.len() == 0
        &&& self.blobs_written == 0
        &&& self.blobs_copied == 0
        &&& self.blobs_deleted == 0
        &&& self.metadata_only_rows == 0
    }

    pub fn new(migration_id: String, dry_run: bool) -> (r: Self)
        ensures
            r.migration_id == migration_id,
            r.dry_run == dry_run,
            r.is_fresh(),
    {
        MigrationReport {
            dry_run,
            migration_id,
            source_count: 0,
            would_insert: 0,
            would_overwrite: 0,
            would_skip: 0,
            source_skipped: 0,
            skipped_entries: Vec::new(),
            conflicts: Vec::new(),
            would_delete_old_db: false,
            errors: Vec::new(),
            blobs_written: 0,
            blobs_copied: 0,
            blobs_deleted: 0,
            metadata_only_rows: 0,
            from_storage: None,
            to_storage: None,
        }
    }

    pub open spec fn spec_has_errors(&self) -> bool {
        self.errors@.len() > 0 || self.conflicts@.len() > 0
    }

    /// A run has errors when it recorded an error message or a conflict.
    pub fn has_errors(&self) -> (r: bool)
        ensures
            r == self.spec_has_errors(),
    {
        self.errors.len() != 0 || self.conflicts.len() != 0
    }
}

#[derive(Debug, Clone)]
pub struct MigrationResult {
    pub migration_id: String,
    pub records_migrated: usize,
    pub report: MigrationReport,
}

#[derive(Debug, Clone)]
pub struct ExternalScanSummary {
    pub table: String,
    pub row_count: usize,
    pub total_value_bytes: u64,
}

/// A fresh report has no errors.
pub proof fn law_fresh_report_has_no_errors(report: MigrationReport)
    requires
        report.is_fresh(),
    ensures
        !report.spec_has_errors(),
{
}

} // verus!
