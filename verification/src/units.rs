//! The library's error type.
//!
//! Errors that originate in the database engine or in JSON decoding are carried
//! as their rendered message.

use vstd::prelude::*;

verus! {

#[derive(Debug, Clone)]
pub enum ClError {
    IoError(String),
    ValidationError(String),
    SearchError(String),
    PermissionDenied(String),
    ExecutionError(String),
    ImageNotFound(String),
    InvalidCoordinates(String),
    KeyNotFound(String),
    DirectoryNotFound(String),
    /// An error of the database engine, by its message.
    Database(String),
    /// A JSON (de)serialization error, by its message.
    Serialization(String),
    CorruptMigrationIndex { path: String, detail: String },
    NotFound(String),
    Validation(String),
    Cache(String),
    Utf8Error(String),
    OptionNone,
    MigrationError(String),
    NotRestorable {
        version: u64,
        schema_at_version: String,
        current_schema_version: String,
        migration_id: String,
    },
    MigrationConflict { table: String, key: String, policy: String },
    DecoderNotFound { from_layout_hash: String, to_layout_hash: String, migration_id: String },
    LayoutMismatch { table: String, registered: String, chain_version: u32 },
    LegacyMigrationFormat { path: String },
    TargetTableOccupied { db: String, table: String, existing_keys: usize },
    ExternalMappingRequired { table: String },
    IncompatibleOverwrite { table: String, key: String },
    TableMismatch { expected: Vec<String>, found: Vec<String> },
    BackupNormalizeFailed { reason: String },
    NotCloveDatabase { path: String },
    UpgradeIncomplete { db_name: String },
    /// The database file was closed; every later operation on it fails.
    Closed { path: String },
}

pub type Result<T> = core::result::Result<T, ClError>;

} // verus!
