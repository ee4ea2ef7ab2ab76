//! Records of the backup file: every write to a table leaves one, keyed
//! `{key}:{version}`.

pub mod view;

use vstd::prelude::*;

verus! {

#[derive(Debug, Clone, Copy, PartialEq, Eq, Structural)]
pub enum BackupOperation {
    Write,
    Delete,
    Restore,
    RestoreBulk,
}

/// One version of one key, as the backup keeps it. `Write` is the operation
/// of a plain set.
#[derive(Debug, Clone)]
pub struct BackupRecord {
    pub version: u64,
    pub timestamp: i64,
    pub date: String,
    pub operation: BackupOperation,
    pub table: String,
    pub key: String,
    pub data: Option<Vec<u8>>,
    pub bulk_id: Option<String>,
    pub restored_version: Option<u64>,
}

} // verus!
