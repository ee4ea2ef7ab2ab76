//! The decisions of a migration run.
//!
//! A run reads every source row, lets the registered transform turn it into a
//! target row (or skip it), looks at the target table, and stages writes. The
//! reading, transforming and writing are done by the caller; the functions here
//! decide what happens to each row, keep the report's counts, and decide how a
//! run ends.

use vstd::prelude::*;

use crate::metadata::types::TableStorageMode;
use crate::migration::batch::{copy_bytes, staged, MigrationBatch};
use crate::migration::plan::MigrationPlan;
use crate::text::substring;
use crate::migration::report::{ConflictEntry, MigrationReport, MigrationResult, SkippedEntry};
use crate::migration::types::{
    MigrationKind, MigrationManifest, SchemaRef, TableRenameInfo, TargetConflictPolicy, VersionScope,
};

verus! {

/// What happens to a migrated row, given whether its key exists in the target.
#[derive(Debug, Clone, Copy, PartialEq, Eq, Structural)]
pub enum TargetAction {
    /// Write it; the key is new.
    Insert,
    /// Write it over the existing row.
    Overwrite,
    /// Do not write it; record a conflict.
    Conflict,
    /// Do not write it; the existing row stays (`TargetConflictPolicy::Skip`).
    KeepExisting,
    /// Compare the existing row's layout with the target layout first.
    CheckCompatible,
}

pub open spec fn spec_target_action(exists: bool, in_place: bool, policy: TargetConflictPolicy) -> TargetAction {
    if exists && !in_place {
        match policy {
            TargetConflictPolicy::Fail => TargetAction::Conflict,
            TargetConflictPolicy::Skip => TargetAction::KeepExisting,
            TargetConflictPolicy::Overwrite => TargetAction::Overwrite,
            TargetConflictPolicy::OverwriteIfCompatible => TargetAction::CheckCompatible,
        }
    } else if exists {
        TargetAction::Overwrite
    } else {
        TargetAction::Insert
    }
}

/// What happens to a migrated row. An in-place evolve always rewrites its own
/// rows; a transfer into an occupied key follows the conflict policy.
pub fn target_action(exists: bool, in_place: bool, policy: TargetConflictPolicy) -> (r: TargetAction)
    ensures
        r == spec_target_action(exists, in_place, policy),
{
    if exists && !in_place {
        match policy {
            TargetConflictPolicy::Fail => TargetAction::Conflict,
            TargetConflictPolicy::Skip => TargetAction::KeepExisting,
            TargetConflictPolicy::Overwrite => TargetAction::Overwrite,
            TargetConflictPolicy::OverwriteIfCompatible => TargetAction::CheckCompatible,
        }
    } else if exists {
        TargetAction::Overwrite
    } else {
        TargetAction::Insert
    }
}

/// The outcome of `CheckCompatible`: a compatible row is overwritten, any
/// other is a conflict.
pub fn compatibility_action(compatible: bool) -> (r: TargetAction)
    ensures
        r == (if compatible { TargetAction::Overwrite } else { TargetAction::Conflict }),
{
    if compatible { TargetAction::Overwrite } else { TargetAction::Conflict }
}

/// What happens to a row's blob payload.
#[derive(Debug, Clone, Copy, PartialEq, Eq, Structural)]
pub enum BlobAction {
    /// Copy the source's sidecar blob to the target's.
    Copy,
    /// Write the payload the transform produced as the target's blob.
    Write,
    Nothing,
}

pub open spec fn spec_blob_action(from: TableStorageMode, to: TableStorageMode, has_payload: bool) -> BlobAction {
    if from == TableStorageMode::BlobSidecar && to == TableStorageMode::BlobSidecar {
        BlobAction::Copy
    } else if to == TableStorageMode::BlobSidecar && has_payload {
        BlobAction::Write
    } else {
        BlobAction::Nothing
    }
}

pub fn blob_action(from: TableStorageMode, to: TableStorageMode, has_payload: bool) -> (r: BlobAction)
    ensures
        r == spec_blob_action(from, to, has_payload),
{
    if from == TableStorageMode::BlobSidecar && to == TableStorageMode::BlobSidecar {
        BlobAction::Copy
    } else if to == TableStorageMode::BlobSidecar && has_payload {
        BlobAction::Write
    } else {
        BlobAction::Nothing
    }
}

/// How a run ends once every row has been seen.
#[derive(Debug, Clone, Copy, PartialEq, Eq, Structural)]
pub enum RunEnd {
    /// Conflicts under `TargetConflictPolicy::Fail`: nothing is committed.
    Conflicts,
    /// No row is left to write; an error is recorded.
    NothingToMigrate,
    /// A dry run: nothing is written.
    DryRun,
    /// Write the rest, record the migration, delete the source if asked.
    Commit,
}

/// Rows accounted for by a report: each row is counted exactly once, as
/// skipped by the transform, a conflict, kept, inserted or overwritten.
pub open spec fn accounted(r: MigrationReport) -> int {
    r.source_skipped + r.conflicts@.len() + r.would_skip + r.would_insert + r.would_overwrite
}

/// The report's fields that row accounting leaves alone.
pub open spec fn same_frame(a: MigrationReport, b: MigrationReport) -> bool {
    &&& a.dry_run == b.dry_run
    &&& a.migration_id == b.migration_id
    &&& a.source_count == b.source_count
    &&& a.would_delete_old_db == b.would_delete_old_db
    &&& a.errors == b.errors
    &&& a.blobs_written == b.blobs_written
    &&& a.blobs_copied == b.blobs_copied
    &&& a.blobs_deleted == b.blobs_deleted
    &&& a.metadata_only_rows == b.metadata_only_rows
    &&& a.from_storage == b.from_storage
    &&& a.to_storage == b.to_storage
}

/// Counts of a report that can each grow by one.
pub open spec fn room_for_one(r: MigrationReport) -> bool {
    &&& r.source_skipped < usize::MAX
    &&& r.would_skip < usize::MAX
    &&& r.would_insert < usize::MAX
    &&& r.would_overwrite < usize::MAX
    &&& r.blobs_copied < usize::MAX
    &&& r.blobs_written < usize::MAX
}

impl MigrationReport {
    /// Records a row that the transform skipped.
    pub fn record_source_skip(&mut self, key: String, reason: Option<String>)
        requires
            room_for_one(*old(self)),
        ensures
            final(self).source_skipped == old(self).source_skipped + 1,
            final(self).skipped_entries@ == old(self).skipped_entries@.push(SkippedEntry { key, reason }),
            final(self).conflicts == old(self).conflicts,
            final(self).would_skip == old(self).would_skip,
            final(self).would_insert == old(self).would_insert,
            final(self).would_overwrite == old(self).would_overwrite,
            same_frame(*old(self), *final(self)),
            accounted(*final(self)) == accounted(*old(self)) + 1,
    {
        self.source_skipped = self.source_skipped + 1;
        self.skipped_entries.push(SkippedEntry { key, reason });
    }

    /// Records what happened to a migrated row. Returns whether the row is to
    /// be written.
    pub fn record_target_action(&mut self, table: &str, key: &str, action: TargetAction, policy: TargetConflictPolicy) -> (write: bool)
        requires
            action != TargetAction::CheckCompatible,
            room_for_one(*old(self)),
        ensures
            write == (action == TargetAction::Insert || action == TargetAction::Overwrite),
            final(self).would_insert == old(self).would_insert + (if action == TargetAction::Insert { 1int } else { 0 }),
            final(self).would_overwrite == old(self).would_overwrite + (if action == TargetAction::Overwrite { 1int } else { 0 }),
            final(self).would_skip == old(self).would_skip + (if action == TargetAction::KeepExisting { 1int } else { 0 }),
            action == TargetAction::Conflict ==> final(self).conflicts@ == old(self).conflicts@.push(ConflictEntry {
                table: final(self).conflicts@.last().table,
                key: final(self).conflicts@.last().key,
                policy,
            }) && final(self).conflicts@.last().table@ == table@ && final(self).conflicts@.last().key@ == key@,
            action != TargetAction::Conflict ==> final(self).conflicts == old(self).conflicts,
            final(self).source_skipped == old(self).source_skipped,
            final(self).skipped_entries == old(self).skipped_entries,
            same_frame(*old(self), *final(self)),
            accounted(*final(self)) == accounted(*old(self)) + 1,
    {
        match action {
            TargetAction::Insert => {
                self.would_insert = self.would_insert + 1;
                true
            },
            TargetAction::Overwrite => {
                self.would_overwrite = self.would_overwrite + 1;
                true
            },
            TargetAction::KeepExisting => {
                self.would_skip = self.would_skip + 1;
                false
            },
            _ => {
                self.conflicts.push(ConflictEntry { table: table.to_owned(), key: key.to_owned(), policy });
                false
            },
        }
    }

    /// Counts a row's blob work.
    pub fn record_blob_action(&mut self, action: BlobAction)
        requires
            old(self).blobs_copied < usize::MAX,
            old(self).blobs_written < usize::MAX,
        ensures
            final(self).blobs_copied == old(self).blobs_copied + (if action == BlobAction::Copy { 1int } else { 0 }),
            final(self).blobs_written == old(self).blobs_written + (if action == BlobAction::Write { 1int } else { 0 }),
            final(self).source_skipped == old(self).source_skipped,
            final(self).skipped_entries == old(self).skipped_entries,
            final(self).conflicts == old(self).conflicts,
            final(self).would_skip == old(self).would_skip,
            final(self).would_insert == old(self).would_insert,
            final(self).would_overwrite == old(self).would_overwrite,
            final(self).errors == old(self).errors,
            final(self).source_count == old(self).source_count,
            final(self).would_delete_old_db == old(self).would_delete_old_db,
            final(self).dry_run == old(self).dry_run,
            final(self).migration_id == old(self).migration_id,
    {
        match action {
            BlobAction::Copy => {
                self.blobs_copied = self.blobs_copied + 1;
            },
            BlobAction::Write => {
                self.blobs_written = self.blobs_written + 1;
            },
            BlobAction::Nothing => {},
        }
    }

    /// Decides how the run ends, once every row has been seen; `pending_writes`
    /// is the number of writes staged and not yet committed.
    ///
    /// Conflicts under `Fail` end the run with nothing committed. When nothing
    /// is staged and every source row was kept because its key existed, an
    /// error is recorded. A dry run then reports whether the source would be
    /// deleted; otherwise the run commits.
    pub fn finish_run(&mut self, policy: TargetConflictPolicy, pending_writes: usize, dry_run: bool, effective_delete_source: bool) -> (end: RunEnd)
        ensures
            end == (if old(self).conflicts@.len() > 0 && policy == TargetConflictPolicy::Fail {
                RunEnd::Conflicts
            } else if pending_writes == 0 && old(self).would_skip == old(self).source_count {
                RunEnd::NothingToMigrate
            } else if dry_run {
                RunEnd::DryRun
            } else {
                RunEnd::Commit
            }),
            end == RunEnd::NothingToMigrate ==> final(self).errors@.len() == old(self).errors@.len() + 1
                && final(self).errors@.drop_last() == old(self).errors@
                && final(self).errors@.last()@ == "no records to migrate after conflict resolution"@,
            end != RunEnd::NothingToMigrate ==> final(self).errors == old(self).errors,
            end == RunEnd::DryRun || end == RunEnd::Commit ==> final(self).would_delete_old_db == effective_delete_source,
            end == RunEnd::Conflicts || end == RunEnd::NothingToMigrate ==> final(self).would_delete_old_db == old(self).would_delete_old_db,
            accounted(*final(self)) == accounted(*old(self)),
            final(self).conflicts == old(self).conflicts,
            final(self).would_insert == old(self).would_insert,
            final(self).would_overwrite == old(self).would_overwrite,
            final(self).would_skip == old(self).would_skip,
            final(self).source_count == old(self).source_count,
    {
        if self.conflicts.len() != 0 && policy == TargetConflictPolicy::Fail {
            return RunEnd::Conflicts;
        }
        if pending_writes == 0 && self.would_skip == self.source_count {
            let ghost before = self.errors@;
            self.errors.push("no records to migrate after conflict resolution".to_owned());
            assert(self.errors@.drop_last() =~= before);
            return RunEnd::NothingToMigrate;
        }
        self.would_delete_old_db = effective_delete_source;
        if dry_run {
            RunEnd::DryRun
        } else {
            RunEnd::Commit
        }
    }
}

/// A row the transform migrated.
#[derive(Debug)]
pub struct MigratedRow {
    pub key: String,
    /// The row as the target table stores it.
    pub metadata: Vec<u8>,
    /// The payload for the target's blob sidecar, when the transform gave one.
    pub blob: Option<Vec<u8>>,
}

/// A run in progress: its report, the writes staged and not yet committed,
/// and what is to follow each commit.
pub struct RunState {
    pub report: MigrationReport,
    pub batch: MigrationBatch,
    /// Every row written so far, for the migration's snapshot (empty on a dry run).
    pub snapshot: Vec<(String, Vec<u8>)>,
    /// Payloads to write as target blobs after the next commit, by key.
    pub pending_blobs: Vec<(String, Vec<u8>)>,
    /// Source blobs to copy to the target after the next commit: source key, target key.
    pub pending_copies: Vec<(String, String)>,
    pub to_table: String,
    pub policy: TargetConflictPolicy,
    pub dry_run: bool,
    pub from_storage: TableStorageMode,
    pub to_storage: TableStorageMode,
    /// Staged writes are committed once this many are pending.
    pub batch_size: usize,
}

/// The parts of a run's state that rows do not change.
pub open spec fn same_setup(a: RunState, b: RunState) -> bool {
    &&& a.to_table == b.to_table
    &&& a.policy == b.policy
    &&& a.dry_run == b.dry_run
    &&& a.from_storage == b.from_storage
    &&& a.to_storage == b.to_storage
    &&& a.batch_size == b.batch_size
}

pub open spec fn writes_row(action: TargetAction) -> bool {
    action == TargetAction::Insert || action == TargetAction::Overwrite
}

impl RunState {
    /// A run with nothing staged yet, writing into `to_table`.
    pub fn new(
        report: MigrationReport,
        to_table: String,
        policy: TargetConflictPolicy,
        from_storage: TableStorageMode,
        to_storage: TableStorageMode,
        batch_size: usize,
    ) -> (r: Self)
        ensures
            r.report == report,
            r.batch.spec_groups().len() == 0,
            r.batch.spec_write_count() == 0,
            r.snapshot@.len() == 0,
            r.pending_blobs@.len() == 0,
            r.pending_copies@.len() == 0,
            r.to_table == to_table,
            r.policy == policy,
            r.dry_run == report.dry_run,
            r.from_storage == from_storage,
            r.to_storage == to_storage,
            r.batch_size == batch_size,
    {
        let dry_run = report.dry_run;
        RunState {
            report,
            batch: MigrationBatch::new(),
            snapshot: Vec::new(),
            pending_blobs: Vec::new(),
            pending_copies: Vec::new(),
            to_table,
            policy,
            dry_run,
            from_storage,
            to_storage,
            batch_size,
        }
    }

    /// Places a migrated row whose fate `action` decided (after the
    /// compatibility check, if the policy asked for one). A row to be written
    /// is counted, kept for the snapshot (unless on a dry run) and staged in
    /// the target table; its blob is to be copied from the source (both
    /// tables keep blobs) or written from the payload (only the target does,
    /// and there is one). A row not written is only counted. Returns whether
    /// the staged writes are to be committed now: on a run that writes, once
    /// `batch_size` of them are pending.
    pub fn place_row(&mut self, row: MigratedRow, action: TargetAction) -> (flush: bool)
        requires
            action != TargetAction::CheckCompatible,
            room_for_one(old(self).report),
            old(self).batch.spec_write_count() < usize::MAX,
        ensures
            same_setup(*old(self), *final(self)),
            final(self).report.would_insert == old(self).report.would_insert + (if action == TargetAction::Insert { 1int } else { 0 }),
            final(self).report.would_overwrite == old(self).report.would_overwrite + (if action == TargetAction::Overwrite { 1int } else { 0 }),
            final(self).report.would_skip == old(self).report.would_skip + (if action == TargetAction::KeepExisting { 1int } else { 0 }),
            action == TargetAction::Conflict ==> final(self).report.conflicts@.len() == old(self).report.conflicts@.len() + 1
                && final(self).report.conflicts@.drop_last() == old(self).report.conflicts@
                && final(self).report.conflicts@.last().table@ == old(self).to_table@
                && final(self).report.conflicts@.last().key@ == row.key@
                && final(self).report.conflicts@.last().policy == old(self).policy,
            action != TargetAction::Conflict ==> final(self).report.conflicts == old(self).report.conflicts,
            final(self).report.source_skipped == old(self).report.source_skipped,
            final(self).report.skipped_entries == old(self).report.skipped_entries,
            final(self).report.errors == old(self).report.errors,
            final(self).report.source_count == old(self).report.source_count,
            final(self).report.migration_id == old(self).report.migration_id,
            final(self).report.dry_run == old(self).report.dry_run,
            accounted(final(self).report) == accounted(old(self).report) + 1,
            !writes_row(action) ==> {
                &&& final(self).report.blobs_copied == old(self).report.blobs_copied
                &&& final(self).report.blobs_written == old(self).report.blobs_written
                &&& final(self).batch.spec_groups() == old(self).batch.spec_groups()
                &&& final(self).batch.spec_write_count() == old(self).batch.spec_write_count()
                &&& final(self).snapshot == old(self).snapshot
                &&& final(self).pending_blobs == old(self).pending_blobs
                &&& final(self).pending_copies == old(self).pending_copies
                &&& !flush
            },
            writes_row(action) ==> {
                let b = spec_blob_action(old(self).from_storage, old(self).to_storage, row.blob is Some);
                &&& staged(old(self).batch.spec_groups(), final(self).batch.spec_groups(), old(self).to_table@, row.key@, row.metadata@)
                &&& final(self).batch.spec_write_count() == old(self).batch.spec_write_count() + 1
                &&& final(self).batch.spec_deletes() == old(self).batch.spec_deletes()
                &&& (if old(self).dry_run {
                    final(self).snapshot == old(self).snapshot
                } else {
                    final(self).snapshot@.drop_last() == old(self).snapshot@
                        && final(self).snapshot@.last().0@ == row.key@
                        && final(self).snapshot@.last().1@ == row.metadata@
                })
                &&& final(self).report.blobs_copied == old(self).report.blobs_copied + (if b == BlobAction::Copy { 1int } else { 0 })
                &&& final(self).report.blobs_written == old(self).report.blobs_written + (if b == BlobAction::Write { 1int } else { 0 })
                &&& (if b == BlobAction::Copy && !old(self).dry_run {
                    final(self).pending_copies@.drop_last() == old(self).pending_copies@
                        && final(self).pending_copies@.last().0@ == row.key@
                        && final(self).pending_copies@.last().1@ == row.key@
                } else {
                    final(self).pending_copies == old(self).pending_copies
                })
                &&& (if b == BlobAction::Write && !old(self).dry_run {
                    final(self).pending_blobs@.drop_last() == old(self).pending_blobs@
                        && final(self).pending_blobs@.last().0@ == row.key@
                        && final(self).pending_blobs@.last().1@ == row.blob.unwrap()@
                } else {
                    final(self).pending_blobs == old(self).pending_blobs
                })
                &&& flush == (!old(self).dry_run && final(self).batch.spec_write_count() >= old(self).batch_size)
            },
    {
        let write = self.report.record_target_action(self.to_table.as_str(), row.key.as_str(), action, self.policy);
        if !write {
            return false;
        }
        let MigratedRow { key, metadata, blob } = row;
        if !self.dry_run {
            let ghost before = self.snapshot@;
            self.snapshot.push((key.clone(), copy_bytes(&metadata)));
            assert(self.snapshot@.drop_last() =~= before);
        }
        self.batch.stage_write(self.to_table.as_str(), key.as_str(), metadata);
        let b = blob_action(self.from_storage, self.to_storage, blob.is_some());
        match b {
            BlobAction::Copy => {
                if !self.dry_run {
                    let ghost before = self.pending_copies@;
                    self.pending_copies.push((key.clone(), key.clone()));
                    assert(self.pending_copies@.drop_last() =~= before);
                }
            },
            BlobAction::Write => {
                if !self.dry_run {
                    match blob {
                        Some(payload) => {
                            let ghost before = self.pending_blobs@;
                            self.pending_blobs.push((key.clone(), payload));
                            assert(self.pending_blobs@.drop_last() =~= before);
                        },
                        None => {},
                    }
                }
            },
            BlobAction::Nothing => {},
        }
        self.report.record_blob_action(b);
        should_flush(self.dry_run, self.batch.write_count(), self.batch_size)
    }

    /// After the staged writes were committed and the pending blobs written
    /// and copied: nothing is staged or pending any more.
    pub fn committed(&mut self)
        ensures
            same_setup(*old(self), *final(self)),
            final(self).report == old(self).report,
            final(self).snapshot == old(self).snapshot,
            final(self).batch.spec_groups().len() == 0,
            final(self).batch.spec_write_count() == 0,
            final(self).batch.spec_deletes().len() == 0,
            final(self).pending_blobs@.len() == 0,
            final(self).pending_copies@.len() == 0,
    {
        self.batch.clear();
        self.pending_blobs = Vec::new();
        self.pending_copies = Vec::new();
    }

    /// How the run ends once every row was seen (see `finish_run`), with the
    /// staged writes still pending.
    pub fn finish(&mut self, effective_delete_source: bool) -> (end: RunEnd)
        requires
            old(self).batch.spec_write_count() <= usize::MAX,
        ensures
            same_setup(*old(self), *final(self)),
            final(self).batch == old(self).batch,
            final(self).snapshot == old(self).snapshot,
            final(self).pending_blobs == old(self).pending_blobs,
            final(self).pending_copies == old(self).pending_copies,
            end == (if old(self).report.conflicts@.len() > 0 && old(self).policy == TargetConflictPolicy::Fail {
                RunEnd::Conflicts
            } else if old(self).batch.spec_write_count() == 0 && old(self).report.would_skip == old(self).report.source_count {
                RunEnd::NothingToMigrate
            } else if old(self).dry_run {
                RunEnd::DryRun
            } else {
                RunEnd::Commit
            }),
            end == RunEnd::NothingToMigrate ==> final(self).report.errors@.len() == old(self).report.errors@.len() + 1
                && final(self).report.errors@.last()@ == "no records to migrate after conflict resolution"@,
            end != RunEnd::NothingToMigrate ==> final(self).report.errors == old(self).report.errors,
            end == RunEnd::DryRun || end == RunEnd::Commit ==> final(self).report.would_delete_old_db == effective_delete_source,
            accounted(final(self).report) == accounted(old(self).report),
    {
        let pending = self.batch.write_count();
        self.report.finish_run(self.policy, pending, self.dry_run, effective_delete_source)
    }
}

/// A run counts every source row exactly once. The reports of a run, from the
/// one it starts with (nothing counted) through one report per source row,
/// each made by the step that counted that row (`record_source_skip`,
/// `record_target_action` or `RunState::place_row`, which each account for one
/// more row), account for exactly as many rows as the run saw; so a run over
/// `source_count` rows ends with skipped + conflicts + kept + inserted +
/// overwritten == `source_count`, which `finish_run` leaves as it is.
pub proof fn law_run_counts_every_row_once(reports: Seq<MigrationReport>)
    requires
        reports.len() >= 1,
        reports[0].counts_fresh(),
        forall|i: int| 0 < i < reports.len() ==> accounted(#[trigger] reports[i]) == accounted(reports[i - 1]) + 1,
    ensures
        accounted(reports.last()) == reports.len() - 1,
        reports.last().source_count == reports.len() - 1 ==> accounted(reports.last()) == reports.last().source_count,
    decreases reports.len(),
{
    if reports.len() > 1 {
        let init = reports.drop_last();
        assert forall|i: int| 0 < i < init.len() implies accounted(#[trigger] init[i]) == accounted(init[i - 1]) + 1 by {
            assert(init[i] == reports[i] && init[i - 1] == reports[i - 1]);
        }
        assert(init[0] == reports[0]);
        law_run_counts_every_row_once(init);
        assert(accounted(reports[reports.len() - 1]) == accounted(reports[reports.len() - 2]) + 1);
    }
}

/// One source row of a run: left out by the transform, or migrated and placed
/// as its target decided (after the compatibility check, if there was one).
#[derive(Debug)]
pub enum RowEvent {
    Skipped { key: String, reason: Option<String> },
    Migrated { row: MigratedRow, action: TargetAction },
}

pub open spec fn event_decided(e: RowEvent) -> bool {
    e matches RowEvent::Migrated { action, .. } ==> action != TargetAction::CheckCompatible
}

/// Counts of a report that can each grow by `n`.
pub open spec fn room_for(r: MigrationReport, n: int) -> bool {
    &&& r.source_skipped + n < usize::MAX
    &&& r.would_skip + n < usize::MAX
    &&& r.would_insert + n < usize::MAX
    &&& r.would_overwrite + n < usize::MAX
    &&& r.blobs_copied + n < usize::MAX
    &&& r.blobs_written + n < usize::MAX
}

impl RunState {
    /// Places the rows of a dry run, in order: a row the transform left out is
    /// counted as skipped, a migrated row is placed as its action says. A dry
    /// run commits nothing, so its rows go through in one pass, and every row
    /// is counted exactly once: a run that starts with nothing counted over
    /// its `source_count` rows accounts for all of them.
    pub fn dry_run_rows(&mut self, events: Vec<RowEvent>)
        requires
            old(self).dry_run,
            forall|i: int| 0 <= i < events@.len() ==> event_decided(#[trigger] events@[i]),
            room_for(old(self).report, events@.len() as int),
            old(self).batch.spec_write_count() + events@.len() < usize::MAX,
        ensures
            same_setup(*old(self), *final(self)),
            accounted(final(self).report) == accounted(old(self).report) + events@.len(),
            final(self).report.source_count == old(self).report.source_count,
            old(self).report.counts_fresh() && old(self).report.source_count == events@.len() ==>
                accounted(final(self).report) == final(self).report.source_count,
            final(self).snapshot == old(self).snapshot,
            final(self).pending_blobs == old(self).pending_blobs,
            final(self).pending_copies == old(self).pending_copies,
    {
        let ghost all = events@;
        let ghost start = *self;
        let mut rest = events;
        let mut i: usize = 0;
        assert(all.skip(0) =~= all);
        while rest.len() > 0
            invariant
                i <= all.len(),
                rest@ == all.skip(i as int),
                forall|k: int| 0 <= k < all.len() ==> event_decided(#[trigger] all[k]),
                same_setup(start, *self),
                self.dry_run,
                accounted(self.report) == accounted(start.report) + i,
                self.report.source_count == start.report.source_count,
                self.report.source_skipped <= start.report.source_skipped + i,
                self.report.would_skip <= start.report.would_skip + i,
                self.report.would_insert <= start.report.would_insert + i,
                self.report.would_overwrite <= start.report.would_overwrite + i,
                self.report.blobs_copied <= start.report.blobs_copied + i,
                self.report.blobs_written <= start.report.blobs_written + i,
                room_for(start.report, all.len() as int),
                self.batch.spec_write_count() <= start.batch.spec_write_count() + i,
                start.batch.spec_write_count() + all.len() < usize::MAX,
                self.snapshot == start.snapshot,
                self.pending_blobs == start.pending_blobs,
                self.pending_copies == start.pending_copies,
            decreases rest@.len(),
        {
            let e = rest.remove(0);
            proof {
                assert(all.skip(i as int)[0] == all[i as int]);
                assert(all.skip(i + 1) =~= all.skip(i as int).subrange(1, all.skip(i as int).len() as int));
                assert(event_decided(all[i as int]));
            }
            match e {
                RowEvent::Skipped { key, reason } => {
                    self.report.record_source_skip(key, reason);
                },
                RowEvent::Migrated { row, action } => {
                    self.place_row(row, action);
                },
            }
            i = i + 1;
        }
        assert(all.skip(i as int).len() == 0);
    }
}

/// Whether staged writes must be committed now.
pub fn should_flush(dry_run: bool, pending_writes: usize, batch_size: usize) -> (r: bool)
    ensures
        r == (!dry_run && pending_writes >= batch_size),
{
    !dry_run && pending_writes >= batch_size
}

/// The schema version a run writes: an external import into a table without a
/// chain starts at 1, every other run one past the source's version.
pub open spec fn spec_to_version(kind: MigrationKind, from_version: u32) -> int {
    if kind == MigrationKind::ExternalImport && from_version == 0 { 1 } else { from_version + 1 }
}

pub fn to_version(kind: MigrationKind, from_version: u32) -> (r: u32)
    requires
        from_version < u32::MAX,
    ensures
        r == spec_to_version(kind, from_version),
{
    if kind == MigrationKind::ExternalImport && from_version == 0 { 1 } else { from_version + 1 }
}

/// A rename is recorded when a run moves rows to another table of the same
/// database, so that the backup history follows the rows.
pub fn table_rename(plan: &MigrationPlan) -> (r: Option<TableRenameInfo>)
    ensures
        match r {
            Some(info) => {
                &&& plan.from.table@ != plan.to.table@
                &&& plan.from.db@ == plan.to.db@
                &&& info.from_table@ == plan.from.table@
                &&& info.to_table@ == plan.to.table@
                &&& info.backup_rewrite
            },
            None => !(plan.from.table@ != plan.to.table@ && plan.from.db@ == plan.to.db@),
        },
{
    if plan.from.table != plan.to.table && plan.from.db == plan.to.db {
        Some(TableRenameInfo {
            from_table: plan.from.table.clone(),
            to_table: plan.to.table.clone(),
            backup_rewrite: true,
        })
    } else {
        None
    }
}

/// The highest backup version among the migrated keys (keys whose version is
/// unknown are ignored); when none is known, the end of the last migration's
/// backup scope; else 0.
pub open spec fn spec_max_backup_version(versions: Seq<Option<u64>>, last_scope_to: Option<u64>) -> u64 {
    let m = max_known(versions);
    if m > 0 {
        m
    } else {
        match last_scope_to {
            Some(v) => v,
            None => 0,
        }
    }
}

pub open spec fn max_known(versions: Seq<Option<u64>>) -> u64
    decreases versions.len(),
{
    if versions.len() == 0 {
        0
    } else {
        let m = max_known(versions.drop_last());
        match versions.last() {
            Some(v) => if v > m { v } else { m },
            None => m,
        }
    }
}

pub fn max_backup_version(versions: &Vec<Option<u64>>, last_scope_to: Option<u64>) -> (r: u64)
    ensures
        r == spec_max_backup_version(versions@, last_scope_to),
{
    let mut max: u64 = 0;
    let mut i: usize = 0;
    while i < versions.len()
        invariant
            i <= versions@.len(),
            max == max_known(versions@.take(i as int)),
        decreases versions@.len() - i,
    {
        assert(versions@.take(i + 1).drop_last() =~= versions@.take(i as int));
        match versions[i] {
            Some(v) => {
                if v > max {
                    max = v;
                }
            },
            None => {},
        }
        i = i + 1;
    }
    assert(versions@.take(versions@.len() as int) =~= versions@);
    if max > 0 {
        return max;
    }
    match last_scope_to {
        Some(v) => v,
        None => 0,
    }
}

/// A lowercase hexadecimal digit.
pub open spec fn is_lower_hex_digit(c: char) -> bool {
    ('0' <= c && c <= '9') || ('a' <= c && c <= 'f')
}

/// The text of a random (version 4) UUID.
///
/// Calls `uuid::Uuid::new_v4` and its `to_string`, which writes the hyphenated
/// lowercase form: 36 characters, the first eight of them lowercase hex
/// digits. Nothing else is stated of the random value.
#[verifier::external_body]
fn random_uuid_text() -> (r: String)
    ensures
        r@.len() == 36,
        forall|i: int| 0 <= i < 8 ==> is_lower_hex_digit(#[trigger] r@[i]),
{
    uuid::Uuid::new_v4().to_string()
}

/// The id of a migration made from the text of a UUID: `mig-` and its first
/// eight characters.
pub fn migration_id_from_uuid(uuid_text: &str) -> (r: String)
    requires
        uuid_text@.len() >= 8,
    ensures
        r@ == "mig-"@ + uuid_text@.subrange(0, 8),
{
    let mut id = "mig-".to_owned();
    let head = substring(uuid_text, 0, 8);
    id.append(head.as_str());
    id
}

/// The report a run starts with: a fresh migration id (`mig-` and the first
/// eight hex digits of a random UUID), nothing counted yet, and the storage
/// modes of the source and target tables.
pub fn begin_report(dry_run: bool, from_storage: TableStorageMode, to_storage: TableStorageMode) -> (r: MigrationReport)
    ensures
        r.migration_id@.len() == 12,
        r.migration_id@.subrange(0, 4) == "mig-"@,
        forall|i: int| 4 <= i < 12 ==> is_lower_hex_digit(#[trigger] r.migration_id@[i]),
        r.dry_run == dry_run,
        r.counts_fresh(),
        r.from_storage == Some(from_storage),
        r.to_storage == Some(to_storage),
{
    let uuid_text = random_uuid_text();
    let id = migration_id_from_uuid(uuid_text.as_str());
    proof {
        reveal_strlit("mig-");
        assert forall|i: int| 4 <= i < 12 implies is_lower_hex_digit(#[trigger] id@[i]) by {
            assert(id@[i] == uuid_text@[i - 4]);
        }
        assert(id@.subrange(0, 4) =~= "mig-"@);
    }
    let mut report = MigrationReport::new(id, dry_run);
    report.from_storage = Some(from_storage);
    report.to_storage = Some(to_storage);
    report
}

/// The manifest a committed run records.
pub fn build_manifest(
    migration_id: &str,
    parent_migration_id: Option<String>,
    timestamp: i64,
    plan: &MigrationPlan,
    from_version: u32,
    to_version: u32,
    max_version: u64,
    from_layout_hash: String,
    to_layout_hash: String,
    policy: TargetConflictPolicy,
) -> (r: MigrationManifest)
    ensures
        r.migration_id@ == migration_id@,
        r.parent_migration_id == parent_migration_id,
        r.timestamp == timestamp,
        r.kind == plan.kind,
        r.from.db@ == plan.from.db@ && r.from.table@ == plan.from.table@ && r.from.schema_id@ == plan.from.table@,
        r.from.schema_version == from_version,
        r.to.db@ == plan.to.db@ && r.to.table@ == plan.to.table@ && r.to.schema_id@ == plan.to.table@,
        r.to.schema_version == to_version,
        r.version_scope.backup_versions_from == 1,
        r.version_scope.backup_versions_to == max_version,
        r.version_scope.scope_table@ == plan.from.table@,
        r.version_scope.primary_snapshot_ref matches Some(s) && s@ == "primary_before_"@ + migration_id@,
        r.from_layout_hash == from_layout_hash,
        r.to_layout_hash == to_layout_hash,
        r.target_conflict_policy == policy,
        match r.table_rename {
            Some(info) => plan.from.table@ != plan.to.table@ && plan.from.db@ == plan.to.db@
                && info.from_table@ == plan.from.table@ && info.to_table@ == plan.to.table@,
            None => !(plan.from.table@ != plan.to.table@ && plan.from.db@ == plan.to.db@),
        },
        r.field_diff.is_none(),
{
    let mut snapshot_ref = "primary_before_".to_owned();
    snapshot_ref.append(migration_id);
    MigrationManifest {
        migration_id: migration_id.to_owned(),
        parent_migration_id,
        timestamp,
        kind: plan.kind,
        from: SchemaRef {
            db: plan.from.db.clone(),
            table: plan.from.table.clone(),
            schema_id: plan.from.table.clone(),
            schema_version: from_version,
        },
        to: SchemaRef {
            db: plan.to.db.clone(),
            table: plan.to.table.clone(),
            schema_id: plan.to.table.clone(),
            schema_version: to_version,
        },
        version_scope: VersionScope {
            backup_versions_from: 1,
            backup_versions_to: max_version,
            scope_table: plan.from.table.clone(),
            primary_snapshot_ref: Some(snapshot_ref),
        },
        from_layout_hash,
        to_layout_hash,
        target_conflict_policy: policy,
        table_rename: table_rename(plan),
        field_diff: None,
    }
}

/// The result of an executed run: rows migrated are those inserted or overwritten.
pub fn executed_result(report: MigrationReport) -> (r: MigrationResult)
    requires
        report.would_insert + report.would_overwrite <= usize::MAX,
    ensures
        r.migration_id == report.migration_id,
        r.records_migrated == report.would_insert + report.would_overwrite,
        r.report == report,
{
    MigrationResult {
        migration_id: report.migration_id.clone(),
        records_migrated: report.would_insert + report.would_overwrite,
        report,
    }
}

/// The conflict policy decides only for a transfer into an occupied key: a
/// key that is not in the target is always inserted, and an in-place evolve
/// always rewrites its own rows, whatever the policy.
pub proof fn law_policy_only_guards_occupied_transfer_targets(exists: bool, in_place: bool, policy: TargetConflictPolicy)
    ensures
        !exists ==> spec_target_action(exists, in_place, policy) == TargetAction::Insert,
        exists && in_place ==> spec_target_action(exists, in_place, policy) == TargetAction::Overwrite,
        spec_target_action(exists, in_place, policy) == TargetAction::Conflict
            || spec_target_action(exists, in_place, policy) == TargetAction::KeepExisting
            || spec_target_action(exists, in_place, policy) == TargetAction::CheckCompatible
            ==> exists && !in_place,
{
}

/// On a transfer into an occupied key each policy does what its name says:
/// `Fail` records a conflict, `Skip` keeps the existing row, `Overwrite`
/// writes over it, and `OverwriteIfCompatible` asks for the compatibility
/// check, after which a compatible row is overwritten and any other is a
/// conflict.
pub proof fn law_policies_on_occupied_transfer_targets(compatible: bool)
    ensures
        spec_target_action(true, false, TargetConflictPolicy::Fail) == TargetAction::Conflict,
        spec_target_action(true, false, TargetConflictPolicy::Skip) == TargetAction::KeepExisting,
        spec_target_action(true, false, TargetConflictPolicy::Overwrite) == TargetAction::Overwrite,
        spec_target_action(true, false, TargetConflictPolicy::OverwriteIfCompatible) == TargetAction::CheckCompatible,
{
}

/// A blob is copied when both tables keep blobs, written from the payload
/// when only the target does and there is a payload, and otherwise left
/// alone; a target that keeps no blobs never gets one.
pub proof fn law_blobs_follow_the_target_storage(from: TableStorageMode, to: TableStorageMode, has_payload: bool)
    ensures
        to == TableStorageMode::InlineJson ==> spec_blob_action(from, to, has_payload) == BlobAction::Nothing,
        from == TableStorageMode::BlobSidecar && to == TableStorageMode::BlobSidecar
            ==> spec_blob_action(from, to, has_payload) == BlobAction::Copy,
        from == TableStorageMode::InlineJson && to == TableStorageMode::BlobSidecar
            ==> spec_blob_action(from, to, has_payload) == (if has_payload { BlobAction::Write } else { BlobAction::Nothing }),
{
}

/// Every run advances the schema version by one, except an external import
/// into a table that has no chain yet, which writes version 1.
pub proof fn law_runs_advance_the_version_by_one(kind: MigrationKind, from_version: u32)
    ensures
        !(kind == MigrationKind::ExternalImport && from_version == 0) ==> spec_to_version(kind, from_version) == from_version + 1,
        kind == MigrationKind::ExternalImport && from_version == 0 ==> spec_to_version(kind, from_version) == 1,
        spec_to_version(kind, from_version) > from_version,
{
}

} // verus!
