//! The `_clove_meta` record stored inside every authenticated `.cldb`.

use vstd::prelude::*;

verus! {

pub const META_TABLE: &'static str = "_clove_meta";
pub const META_KEY: &'static str = "meta";
pub const FRAMEWORK_ID: &'static str = "clove1db";
pub const META_VERSION: u32 = 2;
pub const BACKUP_FORMAT_JSON: &'static str = "json_wrapped_v1";
pub const BACKUP_PRE_UPGRADE_SUFFIX: &'static str = ".pre-upgrade";
pub const BACKUP_UPGRADING_SUFFIX: &'static str = ".upgrading";
/// The framework version written into `_clove_meta`.
pub const FRAMEWORK_VERSION: &'static str = "0.0.105";

/// How a registered table stores its rows: inline JSON in the `.cldb`, or
/// JSON metadata in the `.cldb` with the payload in a sidecar blob file.
#[derive(Debug, Clone, Copy, PartialEq, Eq, Structural)]
pub enum TableStorageMode {
    InlineJson,
    BlobSidecar,
}

impl Default for TableStorageMode {
    fn default() -> (r: Self)
        ensures
            r == TableStorageMode::InlineJson,
    {
        TableStorageMode::InlineJson
    }
}

#[derive(Debug, Clone, Copy, PartialEq, Eq, Structural)]
pub enum FileEra {
    Legacy042,
    Clove049,
    Current,
}

#[derive(Debug, Clone, Copy, PartialEq, Eq, Structural)]
pub enum BackupFormat {
    JsonWrappedV1,
    Unknown,
}

pub open spec fn spec_backup_format_str(f: BackupFormat) -> Seq<char> {
    match f {
        BackupFormat::JsonWrappedV1 => BACKUP_FORMAT_JSON@,
        BackupFormat::Unknown => "unknown"@,
    }
}

impl BackupFormat {
    pub fn as_str(self) -> (r: &'static str)
        ensures
            r@ == spec_backup_format_str(self),
    {
        match self {
            BackupFormat::JsonWrappedV1 => BACKUP_FORMAT_JSON,
            BackupFormat::Unknown => "unknown",
        }
    }
}

#[derive(Debug, Clone)]
pub struct TableMeta {
    pub name: String,
    pub schema_id: String,
    pub schema_version: u32,
    pub layout_hash: String,
}

#[derive(Debug, Clone)]
pub struct UpgradeLogEntry {
    pub step: String,
    pub at: i64,
    pub detail: Option<String>,
}

#[derive(Debug, Clone)]
pub struct CloveMeta {
    pub framework: String,
    pub meta_version: u32,
    pub framework_version: String,
    pub file_era: FileEra,
    pub db_name: String,
    pub backup_enabled: bool,
    pub backup_format: String,
    pub backup_upgraded: bool,
    pub backup_pre_upgrade_path: Option<String>,
    pub tables: Vec<TableMeta>,
    pub upgrade_complete: bool,
    pub upgrade_log: Vec<UpgradeLogEntry>,
}

/// Seconds since the Unix epoch, now.
///
/// Calls `chrono::Utc::now().timestamp()`. Nothing is stated of the value: it is
/// the clock's.
#[verifier::external_body]
fn unix_now_seconds() -> (r: i64) {
    chrono::Utc::now().timestamp()
}

impl CloveMeta {
    /// A fresh record for a database whose tables are `tables`.
    pub fn new(db_name: &str, file_era: FileEra, backup_enabled: bool, tables: Vec<TableMeta>) -> (r: Self)
        ensures
            r.framework@ == FRAMEWORK_ID@,
            r.meta_version == META_VERSION,
            r.framework_version@ == FRAMEWORK_VERSION@,
            r.file_era == file_era,
            r.db_name@ == db_name@,
            r.backup_enabled == backup_enabled,
            r.backup_format@ == (if backup_enabled {
                spec_backup_format_str(BackupFormat::JsonWrappedV1)
            } else {
                spec_backup_format_str(BackupFormat::Unknown)
            }),
            r.backup_upgraded == !backup_enabled,
            r.backup_pre_upgrade_path.is_none(),
            r.tables@ == tables@,
            !r.upgrade_complete,
            r.upgrade_log@.len() == 0,
    {
        CloveMeta {
            framework: FRAMEWORK_ID.to_owned(),
            meta_version: META_VERSION,
            framework_version: FRAMEWORK_VERSION.to_owned(),
            file_era,
            db_name: db_name.to_owned(),
            backup_enabled,
            backup_format: if backup_enabled {
                BackupFormat::JsonWrappedV1.as_str().to_owned()
            } else {
                BackupFormat::Unknown.as_str().to_owned()
            },
            backup_upgraded: !backup_enabled,
            backup_pre_upgrade_path: None,
            tables,
            upgrade_complete: false,
            upgrade_log: Vec::new(),
        }
    }

    /// Index of the first table named `table`, if any.
    pub open spec fn spec_table_index(&self, table: Seq<char>) -> int {
        first_table_index(self.tables@, table)
    }

    /// The first table meta whose name is `table`.
    pub fn table_meta(&self, table: &str) -> (r: Option<&TableMeta>)
        ensures
            match r {
                Some(t) => {
                    let i = self.spec_table_index(table@);
                    &&& 0 <= i < self.tables@.len()
                    &&& *t == self.tables@[i]
                },
                None => self.spec_table_index(table@) == -1,
            },
    {
        proof { lemma_first_table_index(self.tables@, table@); }
        match find_table(&self.tables, table) {
            Some(i) => Some(&self.tables[i]),
            None => None,
        }
    }

    /// Appends one entry to the upgrade log, stamped with the current time.
    pub fn push_log(&mut self, step: &str, detail: Option<String>)
        ensures
            final(self).upgrade_log@.len() == old(self).upgrade_log@.len() + 1,
            final(self).upgrade_log@.drop_last() == old(self).upgrade_log@,
            final(self).upgrade_log@.last().step@ == step@,
            final(self).upgrade_log@.last().detail == detail,
            final(self).tables == old(self).tables,
            final(self).framework == old(self).framework,
            final(self).meta_version == old(self).meta_version,
            final(self).framework_version == old(self).framework_version,
            final(self).file_era == old(self).file_era,
            final(self).db_name == old(self).db_name,
            final(self).backup_enabled == old(self).backup_enabled,
            final(self).backup_format == old(self).backup_format,
            final(self).backup_upgraded == old(self).backup_upgraded,
            final(self).backup_pre_upgrade_path == old(self).backup_pre_upgrade_path,
            final(self).upgrade_complete == old(self).upgrade_complete,
    {
        let at = unix_now_seconds();
        self.upgrade_log.push(UpgradeLogEntry { step: step.to_owned(), at, detail });
        assert(self.upgrade_log@.drop_last() =~= old(self).upgrade_log@);
    }
}

/// Index of the first table whose name is `name`, or `-1`.
pub open spec fn first_table_index(tables: Seq<TableMeta>, name: Seq<char>) -> int
    decreases tables.len(),
{
    if tables.len() == 0 {
        -1
    } else if tables[0].name@ == name {
        0
    } else {
        let i = first_table_index(tables.drop_first(), name);
        if i == -1 { -1 } else { i + 1 }
    }
}

pub proof fn lemma_first_table_index(tables: Seq<TableMeta>, name: Seq<char>)
    ensures
        -1 <= first_table_index(tables, name) < tables.len(),
        first_table_index(tables, name) >= 0 ==> tables[first_table_index(tables, name)].name@ == name,
        forall|j: int| 0 <= j < tables.len() && (j < first_table_index(tables, name) || first_table_index(tables, name) == -1)
            ==> tables[j].name@ != name,
    decreases tables.len(),
{
    if tables.len() > 0 && tables[0].name@ != name {
        lemma_first_table_index(tables.drop_first(), name);
        assert forall|j: int| 0 <= j < tables.len() && (j < first_table_index(tables, name) || first_table_index(tables, name) == -1)
            implies tables[j].name@ != name by {
            if j > 0 {
                assert(tables[j] == tables.drop_first()[j - 1]);
            }
        }
    }
}

/// Position of the first table named `name`.
pub fn find_table(tables: &Vec<TableMeta>, name: &str) -> (r: Option<usize>)
    ensures
        match r {
            Some(i) => i as int == first_table_index(tables@, name@),
            None => first_table_index(tables@, name@) == -1,
        },
{
    let target = name.to_owned();
    let mut i: usize = 0;
    while i < tables.len()
        invariant
            i <= tables@.len(),
            target@ == name@,
            forall|j: int| 0 <= j < i ==> tables@[j].name@ != name@,
        decreases tables@.len() - i,
    {
        if tables[i].name == target {
            proof { lemma_first_index_is(tables@, name@, i as int); }
            return Some(i);
        }
        i = i + 1;
    }
    proof { lemma_first_index_none(tables@, name@); }
    None
}

proof fn lemma_first_index_is(tables: Seq<TableMeta>, name: Seq<char>, i: int)
    requires
        0 <= i < tables.len(),
        tables[i].name@ == name,
        forall|j: int| 0 <= j < i ==> tables[j].name@ != name,
    ensures
        first_table_index(tables, name) == i,
    decreases i,
{
    if i > 0 {
        lemma_first_index_is(tables.drop_first(), name, i - 1);
    }
}

proof fn lemma_first_index_none(tables: Seq<TableMeta>, name: Seq<char>)
    requires
        forall|j: int| 0 <= j < tables.len() ==> tables[j].name@ != name,
    ensures
        first_table_index(tables, name) == -1,
    decreases tables.len(),
{
    if tables.len() > 0 {
        lemma_first_index_none(tables.drop_first(), name);
    }
}

} // verus!
