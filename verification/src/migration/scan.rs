//! A dry run of a migration: counting the records and estimating the bytes
//! it will write.

use vstd::prelude::*;

use crate::json::{json_bytes_have_member, json_bytes_member_present};
use crate::metadata::types::TableStorageMode;
use crate::units::Result;

verus! {

#[derive(Debug, Clone)]
pub struct MigrationScanReport {
    pub source_table: String,
    pub target_table: String,
    pub from_storage: TableStorageMode,
    pub to_storage: TableStorageMode,
    pub record_count: usize,
    pub estimated_metadata_bytes: u64,
    pub estimated_blob_bytes: u64,
    pub blob_sidecar_sources: usize,
    pub inline_with_payload_hint: usize,
}

impl MigrationScanReport {
    /// An empty report for a migration from `source_table` to `target_table`.
    pub fn new(source_table: &str, target_table: &str) -> (r: Self)
        ensures
            r.source_table@ == source_table@,
            r.target_table@ == target_table@,
            r.from_storage == TableStorageMode::InlineJson,
            r.to_storage == TableStorageMode::InlineJson,
            r.record_count == 0,
            r.estimated_metadata_bytes == 0,
            r.estimated_blob_bytes == 0,
            r.blob_sidecar_sources == 0,
            r.inline_with_payload_hint == 0,
    {
        MigrationScanReport {
            source_table: source_table.to_owned(),
            target_table: target_table.to_owned(),
            from_storage: TableStorageMode::InlineJson,
            to_storage: TableStorageMode::InlineJson,
            record_count: 0,
            estimated_metadata_bytes: 0,
            estimated_blob_bytes: 0,
            blob_sidecar_sources: 0,
            inline_with_payload_hint: 0,
        }
    }
}

/// Counts one record of `bytes`: every record adds its size to the metadata
/// estimate; a blob-sidecar source counts as one, and one more blob when the
/// target keeps blobs too; an inline record whose JSON has a `data` member
/// counts as one with a payload.
pub fn scan_record(report: &mut MigrationScanReport, key: &str, bytes: &[u8], from_storage: TableStorageMode, to_storage: TableStorageMode) -> (r: Result<()>)
    requires
        old(report).record_count < usize::MAX,
        old(report).blob_sidecar_sources < usize::MAX,
        old(report).inline_with_payload_hint < usize::MAX,
        old(report).estimated_blob_bytes < u64::MAX,
        old(report).estimated_metadata_bytes + bytes@.len() <= u64::MAX,
    ensures
        r is Ok,
        final(report).record_count == old(report).record_count + 1,
        final(report).from_storage == from_storage,
        final(report).to_storage == to_storage,
        final(report).estimated_metadata_bytes == old(report).estimated_metadata_bytes + bytes@.len(),
        final(report).blob_sidecar_sources == old(report).blob_sidecar_sources
            + (if from_storage == TableStorageMode::BlobSidecar { 1int } else { 0int }),
        final(report).estimated_blob_bytes == old(report).estimated_blob_bytes
            + (if from_storage == TableStorageMode::BlobSidecar && to_storage == TableStorageMode::BlobSidecar { 1int } else { 0int }),
        final(report).inline_with_payload_hint == old(report).inline_with_payload_hint
            + (if from_storage == TableStorageMode::InlineJson && json_bytes_member_present(bytes@, "data"@) { 1int } else { 0int }),
        final(report).source_table == old(report).source_table,
        final(report).target_table == old(report).target_table,
{
    report.record_count = report.record_count + 1;
    report.from_storage = from_storage;
    report.to_storage = to_storage;
    match from_storage {
        TableStorageMode::BlobSidecar => {
            report.blob_sidecar_sources = report.blob_sidecar_sources + 1;
            report.estimated_metadata_bytes = report.estimated_metadata_bytes + bytes.len() as u64;
            if to_storage == TableStorageMode::BlobSidecar {
                report.estimated_blob_bytes = report.estimated_blob_bytes + 1;
            }
        },
        TableStorageMode::InlineJson => {
            report.estimated_metadata_bytes = report.estimated_metadata_bytes + bytes.len() as u64;
            if json_bytes_have_member(bytes, "data") {
                report.inline_with_payload_hint = report.inline_with_payload_hint + 1;
            }
        },
    }
    Ok(())
}

} // verus!
