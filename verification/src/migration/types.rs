//! Records of the migration chain (manifests and indexes) and the API types
//! that describe a migration's endpoints.

use vstd::prelude::*;

use crate::json::JsonValue;
use crate::text::{path_join, spec_path_join};

verus! {

pub const MIGRATION_INDEX_VERSION: u32 = 2;

#[derive(Debug, Clone, Copy, PartialEq, Eq, Structural)]
pub enum MigrationKind {
    InPlaceEvolve,
    DataTransfer,
    ExternalImport,
}

/// What a migration does when a key it writes already exists in the target.
#[derive(Debug, Clone, Copy, PartialEq, Eq, Structural)]
pub enum TargetConflictPolicy {
    Fail,
    Skip,
    OverwriteIfCompatible,
    Overwrite,
}

impl Default for TargetConflictPolicy {
    fn default() -> (r: Self)
        ensures
            r == TargetConflictPolicy::Fail,
    {
        TargetConflictPolicy::Fail
    }
}

#[derive(Debug, Clone, Copy, PartialEq, Eq, Structural)]
pub enum KeyDecoder {
    Utf8String,
    U64AsString,
}

#[derive(Debug, Clone, Copy, PartialEq, Eq, Structural)]
pub enum ValueDecoder {
    RawPassthrough,
    JsonValidate,
    /// `u64` keys with JSON stored in redb's `String` column (legacy API style).
    JsonString,
}

#[derive(Debug, Clone)]
pub struct SchemaRef {
    pub db: String,
    pub table: String,
    pub schema_id: String,
    pub schema_version: u32,
}

#[derive(Debug, Clone)]
pub struct VersionScope {
    pub backup_versions_from: u64,
    pub backup_versions_to: u64,
    pub scope_table: String,
    pub primary_snapshot_ref: Option<String>,
}

#[derive(Debug, Clone)]
pub struct TableRenameInfo {
    pub from_table: String,
    pub to_table: String,
    pub backup_rewrite: bool,
}

#[derive(Debug)]
pub struct FieldDiffEntry {
    pub op: String,
    pub field: String,
    pub default: Option<JsonValue>,
    pub from_field: Option<String>,
}

#[derive(Debug)]
pub struct MigrationManifest {
    pub migration_id: String,
    pub parent_migration_id: Option<String>,
    pub timestamp: i64,
    pub kind: MigrationKind,
    pub from: SchemaRef,
    pub to: SchemaRef,
    pub version_scope: VersionScope,
    pub from_layout_hash: String,
    pub to_layout_hash: String,
    pub target_conflict_policy: TargetConflictPolicy,
    pub table_rename: Option<TableRenameInfo>,
    pub field_diff: Option<Vec<FieldDiffEntry>>,
}

#[derive(Debug, Clone)]
pub struct MigrationIndexEntry {
    pub migration_id: String,
    pub order: u32,
}

#[derive(Debug, Clone)]
pub struct TableChainSummary {
    pub schema_id: String,
    pub current_version: u32,
    pub initial_version: u32,
}

#[derive(Debug, Clone)]
pub struct TableChainIndex {
    pub schema_id: String,
    pub current_version: u32,
    pub initial_version: u32,
    pub chain: Vec<MigrationIndexEntry>,
}

/// The root `index.json` of a database's migration directory: one summary per
/// table, keyed by table name (names are distinct).
#[derive(Debug, Clone)]
pub struct DbMigrationRootIndex {
    pub index_version: u32,
    pub db_name: String,
    pub tables: Vec<(String, TableChainSummary)>,
}

// ── API types ────────────────────────────────────────────────────────────────

#[derive(Debug, Clone)]
pub struct MigrationFrom {
    pub db: String,
    pub table: String,
}

#[derive(Debug, Clone)]
pub struct MigrationTo {
    pub db: String,
    pub table: Option<String>,
    pub delete_source: bool,
}

impl MigrationTo {
    pub fn new(db: &str) -> (r: Self)
        ensures
            r.db@ == db@,
            r.table.is_none(),
            !r.delete_source,
    {
        MigrationTo { db: db.to_owned(), table: None, delete_source: false }
    }

    pub fn table(self, table: &str) -> (r: Self)
        ensures
            r.db == self.db,
            r.table matches Some(t) && t@ == table@,
            r.delete_source == self.delete_source,
    {
        MigrationTo { table: Some(table.to_owned()), ..self }
    }

    pub fn delete_source(self, delete: bool) -> (r: Self)
        ensures
            r.db == self.db,
            r.table == self.table,
            r.delete_source == delete,
    {
        MigrationTo { delete_source: delete, ..self }
    }
}

#[derive(Debug, Clone)]
pub struct ExternalFrom {
    /// Path of the external redb file.
    pub path: String,
    pub table: String,
    pub key_decoder: KeyDecoder,
    pub value_decoder: ValueDecoder,
}

impl ExternalFrom {
    /// An identical copy.
    pub fn duplicate(&self) -> (r: Self)
        ensures
            r == *self,
    {
        ExternalFrom {
            path: self.path.clone(),
            table: self.table.clone(),
            key_decoder: self.key_decoder,
            value_decoder: self.value_decoder,
        }
    }
}

#[derive(Debug, Clone)]
pub struct RedbTableSpec {
    pub source_table: String,
    pub key_decoder: KeyDecoder,
    pub value_decoder: ValueDecoder,
}

// ── on-disk layout of the migration directory ───────────────────────────────

pub open spec fn spec_migration_dir_name(db_name: Seq<char>) -> Seq<char> {
    db_name + ".migration"@
}

/// `{db_name}.migration`
pub fn migration_dir_name(db_name: &str) -> (r: String)
    ensures
        r@ == spec_migration_dir_name(db_name@),
{
    let mut s = db_name.to_owned();
    s.append(".migration");
    s
}

pub open spec fn spec_table_chain_dir(migration_dir: Seq<char>, table: Seq<char>) -> Seq<char> {
    spec_path_join(spec_path_join(migration_dir, "tables"@), table)
}

/// `{migration_dir}/tables/{table}`
pub fn table_chain_dir(migration_dir: &str, table: &str) -> (r: String)
    ensures
        r@ == spec_table_chain_dir(migration_dir@, table@),
{
    let tables = path_join(migration_dir, "tables");
    path_join(tables.as_str(), table)
}

pub open spec fn spec_layout_file_name(version: u32) -> Seq<char> {
    seq!['v'] + crate::text::spec_decimal(version as nat) + ".json"@
}

pub open spec fn spec_layout_path(table_dir: Seq<char>, version: u32) -> Seq<char> {
    spec_path_join(spec_path_join(table_dir, "layouts"@), spec_layout_file_name(version))
}

/// `{table_dir}/layouts/v{version}.json`
pub fn layout_path(table_dir: &str, version: u32) -> (r: String)
    ensures
        r@ == spec_layout_path(table_dir@, version),
{
    proof {
        reveal_strlit("v");
    }
    let mut name = "v".to_owned();
    let digits = crate::text::u64_to_decimal(version as u64);
    name.append(digits.as_str());
    name.append(".json");
    let layouts = path_join(table_dir, "layouts");
    path_join(layouts.as_str(), name.as_str())
}

} // verus!
