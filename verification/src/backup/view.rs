//! How a backup record is shown to a reader of its history.

use vstd::prelude::*;

use crate::backup::BackupOperation;
use crate::json::JsonValue;

verus! {

#[derive(Debug, Clone, Copy, PartialEq, Eq, Structural)]
pub enum HistoryDisplayMode {
    AsStored,
    Normalized,
}

impl Default for HistoryDisplayMode {
    fn default() -> (r: Self)
        ensures
            r == HistoryDisplayMode::AsStored,
    {
        HistoryDisplayMode::AsStored
    }
}

/// The data of a record: decoded into the entity's type and back, read as
/// plain JSON, or absent (a delete).
#[derive(Debug)]
pub enum RecordData {
    Typed(JsonValue),
    Json(JsonValue),
    Absent,
}

impl RecordData {
    /// The JSON of the record, if it has data.
    pub fn as_json(&self) -> (r: Option<&JsonValue>)
        ensures
            match self {
                RecordData::Typed(v) => r == Some(v),
                RecordData::Json(v) => r == Some(v),
                RecordData::Absent => r is None,
            },
    {
        match self {
            RecordData::Typed(v) => Some(v),
            RecordData::Json(v) => Some(v),
            RecordData::Absent => None,
        }
    }
}

#[derive(Debug)]
pub struct BackupRecordView {
    pub version: u64,
    pub timestamp: i64,
    pub date: String,
    pub operation: BackupOperation,
    pub table: String,
    pub key: String,
    pub data: RecordData,
    pub schema_at_version: String,
    pub migration_id: Option<String>,
    pub readable: bool,
    pub restorable: bool,
    pub decode_path: Vec<String>,
    pub bulk_id: Option<String>,
    pub restored_version: Option<u64>,
}

} // verus!
