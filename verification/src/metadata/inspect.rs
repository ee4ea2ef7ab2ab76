//! What a database file on disk is: new, legacy, authenticated, someone
//! else's redb file, or not a database at all.
//!
//! The file system and the redb file are read by the caller, which hands the
//! facts it found over as a `DatabaseProbe`; the classification is here.

use vstd::prelude::*;

use crate::json::{json_string_member, json_string_member_of};
use crate::metadata::types::{
    CloveMeta, FileEra, BACKUP_PRE_UPGRADE_SUFFIX, BACKUP_UPGRADING_SUFFIX, FRAMEWORK_ID, META_TABLE,
};
use crate::migration::types::{migration_dir_name, spec_migration_dir_name};
use crate::text::{ends_with, path_join, spec_ends_with, spec_path_join, str_eq, substring};
use crate::units::{ClError, Result};

verus! {

#[derive(Debug, Clone, Copy, PartialEq, Eq, Structural)]
pub enum FileKind {
    New,
    Legacy042,
    Clove049,
    Authenticated,
    ExternalRedb,
    Invalid,
}

#[derive(Debug, Clone)]
pub struct DatabaseInspection {
    pub kind: FileKind,
    pub primary_path: String,
    pub backup_path: Option<String>,
    pub migration_dir: String,
    pub primary_exists: bool,
    pub backup_exists: bool,
    pub migration_exists: bool,
    pub tables: Vec<String>,
    pub file_era: Option<FileEra>,
    pub backup_upgraded: bool,
}

#[derive(Debug, Clone)]
pub struct InspectReport {
    pub primary_path: String,
    pub backup_path: Option<String>,
    pub kind: FileKind,
    pub tables: Vec<String>,
    pub file_era: Option<FileEra>,
    pub backup_exists: bool,
    pub backup_upgraded: bool,
    pub migration_exists: bool,
    pub framework_version: Option<String>,
    pub table_schemas: Vec<(String, u32)>,
}

/// What the caller found on disk about a primary file.
#[derive(Debug)]
pub struct DatabaseProbe {
    pub primary_exists: bool,
    pub primary_is_dir: bool,
    pub backup_exists: bool,
    /// Whether `index.json` exists in the migration directory.
    pub migration_exists: bool,
    /// Every table of the primary file, with the bytes of its first row when
    /// it opens as a text-keyed byte table and holds one.
    pub tables: Vec<(String, Option<Vec<u8>>)>,
    /// The `_clove_meta` record, or the error met reading it.
    pub meta: Result<Option<CloveMeta>>,
}

// ── tables ───────────────────────────────────────────────────────────────────

/// A table that holds entities: not the meta table, not a version or bulk
/// table of the backup.
pub open spec fn is_user_table(name: Seq<char>) -> bool {
    name != META_TABLE@ && !spec_ends_with(name, "_version"@) && !spec_ends_with(name, "_bulk"@)
}

pub fn user_table(name: &str) -> (r: bool)
    ensures
        r == is_user_table(name@),
{
    !str_eq(name, META_TABLE) && !ends_with(name, "_version") && !ends_with(name, "_bulk")
}

/// Whether JSON bytes look like a stored entity: an object with a string
/// `id` member, which every entity serializes.
pub open spec fn looks_like_entity(bytes: Seq<u8>) -> bool {
    json_string_member(bytes, "id"@) is Some
}

pub fn value_looks_like_clove_entity(bytes: &[u8]) -> (r: bool)
    ensures
        r == looks_like_entity(bytes@),
{
    json_string_member_of(bytes, "id").is_some()
}

/// Whether JSON bytes are a meta record of this framework: an object whose
/// `framework` member is the framework's id.
pub fn is_clove_framework_meta(bytes: &[u8]) -> (r: bool)
    ensures
        r == (json_string_member(bytes@, "framework"@) == Some(FRAMEWORK_ID@)),
{
    match json_string_member_of(bytes, "framework") {
        Some(f) => str_eq(f.as_str(), FRAMEWORK_ID),
        None => false,
    }
}

pub open spec fn table_names(tables: Seq<(String, Option<Vec<u8>>)>) -> Seq<Seq<char>> {
    tables.map_values(|t: (String, Option<Vec<u8>>)| t.0@)
}

/// The user tables among `tables`, in their order.
pub open spec fn spec_user_tables(names: Seq<Seq<char>>) -> Seq<Seq<char>> {
    names.filter(|n: Seq<char>| is_user_table(n))
}

/// Whether a table is a user table whose first row looks like an entity.
pub open spec fn entity_row(t: (String, Option<Vec<u8>>)) -> bool {
    is_user_table(t.0@) && match t.1 {
        Some(b) => looks_like_entity(b@),
        None => false,
    }
}

/// Whether some user table's first row looks like an entity.
pub open spec fn has_entity_row(tables: Seq<(String, Option<Vec<u8>>)>) -> bool {
    exists|i: int| 0 <= i < tables.len() && entity_row(#[trigger] tables[i])
}

pub open spec fn string_views(v: Seq<String>) -> Seq<Seq<char>> {
    v.map_values(|s: String| s@)
}

fn list_user_tables(tables: &Vec<(String, Option<Vec<u8>>)>) -> (r: Vec<String>)
    ensures
        string_views(r@) == spec_user_tables(table_names(tables@)),
{
    let mut out: Vec<String> = Vec::new();
    let mut i: usize = 0;
    let ghost names = table_names(tables@);
    while i < tables.len()
        invariant
            i <= tables@.len(),
            names == table_names(tables@),
            string_views(out@) == spec_user_tables(names.take(i as int)),
        decreases tables@.len() - i,
    {
        proof {
            assert(names.take(i + 1).drop_last() =~= names.take(i as int));
            assert(names.take(i + 1).last() == tables@[i as int].0@);
            reveal_with_fuel(Seq::filter, 1);
        }
        let name = &tables[i].0;
        if user_table(name.as_str()) {
            let ghost before = string_views(out@);
            out.push(name.clone());
            assert(string_views(out@) =~= before.push(name@));
        }
        i = i + 1;
    }
    assert(names.take(tables@.len() as int) =~= names);
    out
}

fn primary_has_clove_entity_json(tables: &Vec<(String, Option<Vec<u8>>)>) -> (r: bool)
    ensures
        r == has_entity_row(tables@),
{
    let mut i: usize = 0;
    while i < tables.len()
        invariant
            i <= tables@.len(),
            forall|j: int| 0 <= j < i ==> !entity_row(#[trigger] tables@[j]),
        decreases tables@.len() - i,
    {
        let (name, first) = &tables[i];
        if user_table(name.as_str()) {
            match first {
                Some(b) => {
                    if value_looks_like_clove_entity(b.as_slice()) {
                        assert(entity_row(tables@[i as int]));
                        return true;
                    }
                },
                None => {},
            }
        }
        i = i + 1;
    }
    false
}

// ── classification ───────────────────────────────────────────────────────────

/// The kind of an existing primary file that holds entity rows.
pub open spec fn spec_entity_file_kind(meta: Option<CloveMeta>, migration_exists: bool) -> FileKind {
    if meta is Some {
        FileKind::Authenticated
    } else if migration_exists {
        FileKind::Clove049
    } else {
        FileKind::Legacy042
    }
}

/// Whether the backup is already in the current format: no backup needs no
/// upgrade; otherwise the meta record says.
pub open spec fn spec_backup_upgraded(meta: Option<CloveMeta>, backup_exists: bool) -> bool {
    if backup_exists {
        match meta {
            Some(m) => m.backup_upgraded,
            None => false,
        }
    } else {
        true
    }
}

/// The meta record read from a file, when it was read and is a record of
/// this framework.
pub open spec fn clove_meta_of(meta: Result<Option<CloveMeta>>) -> Option<CloveMeta> {
    match meta {
        Ok(Some(m)) => if m.framework@ == FRAMEWORK_ID@ { Some(m) } else { None },
        _ => None,
    }
}

/// Classifies a primary file from what was found on disk: a missing file is
/// `New`, a directory `Invalid`; a file with no entity rows is `Authenticated`
/// when it holds a meta record of this framework (a database that has no rows
/// yet) and `ExternalRedb` otherwise; a file with entity rows is classified by
/// its meta record (an error reading it is returned): `Authenticated`,
/// `Clove049` (a migration index exists) or `Legacy042`.
pub fn inspect_database(primary_path: &str, backup_path: Option<&str>, migration_dir: &str, probe: DatabaseProbe) -> (r: Result<DatabaseInspection>)
    ensures
        r is Err <==> (probe.primary_exists && !probe.primary_is_dir && has_entity_row(probe.tables@) && probe.meta is Err),
        r matches Err(e) ==> probe.meta == Err::<Option<CloveMeta>, ClError>(e),
        r matches Ok(i) ==> {
            &&& i.primary_path@ == primary_path@
            &&& i.backup_path.is_some() == backup_path.is_some()
            &&& (i.backup_path matches Some(b) ==> b@ == backup_path.unwrap()@)
            &&& i.migration_dir@ == migration_dir@
            &&& i.primary_exists == probe.primary_exists
            &&& i.backup_exists == probe.backup_exists
            &&& i.migration_exists == probe.migration_exists
            &&& if !probe.primary_exists {
                &&& i.kind == FileKind::New
                &&& i.tables@.len() == 0
                &&& i.file_era is None
                &&& i.backup_upgraded == !probe.backup_exists
            } else if probe.primary_is_dir {
                &&& i.kind == FileKind::Invalid
                &&& i.tables@.len() == 0
                &&& i.file_era is None
                &&& i.backup_upgraded == !probe.backup_exists
            } else if !has_entity_row(probe.tables@) && clove_meta_of(probe.meta) is Some {
                let m = clove_meta_of(probe.meta).unwrap();
                &&& i.kind == FileKind::Authenticated
                &&& string_views(i.tables@) == spec_user_tables(table_names(probe.tables@))
                &&& i.file_era == Some(m.file_era)
                &&& i.backup_upgraded == spec_backup_upgraded(Some(m), probe.backup_exists)
            } else if !has_entity_row(probe.tables@) {
                &&& i.kind == FileKind::ExternalRedb
                &&& string_views(i.tables@) == spec_user_tables(table_names(probe.tables@))
                &&& i.file_era is None
                &&& i.backup_upgraded == !probe.backup_exists
            } else {
                let meta = probe.meta.unwrap();
                &&& i.kind == spec_entity_file_kind(meta, probe.migration_exists)
                &&& string_views(i.tables@) == spec_user_tables(table_names(probe.tables@))
                &&& i.file_era == (match meta { Some(m) => Some(m.file_era), None => None::<FileEra> })
                &&& i.backup_upgraded == spec_backup_upgraded(meta, probe.backup_exists)
            }
        },
{
    let backup_owned: Option<String> = match backup_path {
        Some(b) => Some(b.to_owned()),
        None => None,
    };
    let primary_exists = probe.primary_exists;
    let backup_exists = probe.backup_exists;
    let migration_exists = probe.migration_exists;
    if !primary_exists || probe.primary_is_dir {
        let kind = if !primary_exists { FileKind::New } else { FileKind::Invalid };
        return Ok(DatabaseInspection {
            kind,
            primary_path: primary_path.to_owned(),
            backup_path: backup_owned,
            migration_dir: migration_dir.to_owned(),
            primary_exists,
            backup_exists,
            migration_exists,
            tables: Vec::new(),
            file_era: None,
            backup_upgraded: !backup_exists,
        });
    }
    let tables = list_user_tables(&probe.tables);
    if !primary_has_clove_entity_json(&probe.tables) {
        let own_meta: Option<&CloveMeta> = match &probe.meta {
            Ok(Some(m)) => if str_eq(m.framework.as_str(), FRAMEWORK_ID) { Some(m) } else { None },
            _ => None,
        };
        match own_meta {
            Some(m) => {
                let backup_upgraded = if backup_exists { m.backup_upgraded } else { true };
                return Ok(DatabaseInspection {
                    kind: FileKind::Authenticated,
                    primary_path: primary_path.to_owned(),
                    backup_path: backup_owned,
                    migration_dir: migration_dir.to_owned(),
                    primary_exists: true,
                    backup_exists,
                    migration_exists,
                    tables,
                    file_era: Some(m.file_era),
                    backup_upgraded,
                });
            },
            None => {},
        }
        return Ok(DatabaseInspection {
            kind: FileKind::ExternalRedb,
            primary_path: primary_path.to_owned(),
            backup_path: backup_owned,
            migration_dir: migration_dir.to_owned(),
            primary_exists: true,
            backup_exists,
            migration_exists,
            tables,
            file_era: None,
            backup_upgraded: !backup_exists,
        });
    }
    let meta = match probe.meta {
        Ok(m) => m,
        Err(e) => return Err(e),
    };
    let file_era = match &meta {
        Some(m) => Some(m.file_era),
        None => None,
    };
    let kind = if meta.is_some() {
        FileKind::Authenticated
    } else if migration_exists {
        FileKind::Clove049
    } else {
        FileKind::Legacy042
    };
    let backup_upgraded = if backup_exists {
        match &meta {
            Some(m) => m.backup_upgraded,
            None => false,
        }
    } else {
        true
    };
    Ok(DatabaseInspection {
        kind,
        primary_path: primary_path.to_owned(),
        backup_path: backup_owned,
        migration_dir: migration_dir.to_owned(),
        primary_exists: true,
        backup_exists,
        migration_exists,
        tables,
        file_era,
        backup_upgraded,
    })
}

// ── paths ────────────────────────────────────────────────────────────────────

/// `{backup_path}.pre-upgrade`
pub fn pre_upgrade_path(backup_path: &str) -> (r: String)
    ensures
        r@ == backup_path@ + BACKUP_PRE_UPGRADE_SUFFIX@,
{
    let mut s = backup_path.to_owned();
    s.append(BACKUP_PRE_UPGRADE_SUFFIX);
    s
}

/// `{backup_path}.upgrading`
pub fn upgrading_path(backup_path: &str) -> (r: String)
    ensures
        r@ == backup_path@ + BACKUP_UPGRADING_SUFFIX@,
{
    let mut s = backup_path.to_owned();
    s.append(BACKUP_UPGRADING_SUFFIX);
    s
}

/// What `std::path::Path::parent` gives for a path.
pub uninterp spec fn path_parent_of(path: Seq<char>) -> Option<Seq<char>>;

/// What `std::path::Path::file_stem` gives for a path.
pub uninterp spec fn path_file_stem_of(path: Seq<char>) -> Option<Seq<char>>;

/// The parent directory of a path.
///
/// Calls `std::path::Path::parent`; its result, a function of the path, is
/// named `path_parent_of`.
#[verifier::external_body]
fn path_parent(path: &str) -> (r: Option<String>)
    ensures
        r.is_some() == path_parent_of(path@).is_some(),
        r matches Some(p) ==> path_parent_of(path@) == Some(p@),
{
    std::path::Path::new(path).parent().map(|p| p.to_string_lossy().into_owned())
}

/// The file name of a path without its last extension.
///
/// Calls `std::path::Path::file_stem`; its result, a function of the path, is
/// named `path_file_stem_of`.
#[verifier::external_body]
fn path_file_stem(path: &str) -> (r: Option<String>)
    ensures
        r.is_some() == path_file_stem_of(path@).is_some(),
        r matches Some(s) ==> path_file_stem_of(path@) == Some(s@),
{
    std::path::Path::new(path).file_stem().map(|s| s.to_string_lossy().into_owned())
}

/// Where the files of a `.cldb` database are.
#[derive(Debug, Clone)]
pub struct CldbLocations {
    pub parent: String,
    pub db_name: String,
    pub backup_path: String,
    pub migration_dir: String,
}

/// The database name a file stem stands for: the stem without a trailing
/// `.cldb`, or `unknown` when there is no stem.
pub open spec fn spec_db_name(stem: Option<Seq<char>>) -> Seq<char> {
    match stem {
        Some(s) => if spec_ends_with(s, ".cldb"@) { s.subrange(0, s.len() - 5) } else { s },
        None => "unknown"@,
    }
}

pub open spec fn spec_locations_ok(parent: Option<Seq<char>>, stem: Option<Seq<char>>, r: CldbLocations) -> bool {
    let dir = match parent { Some(p) => p, None => "."@ };
    let name = spec_db_name(stem);
    &&& r.parent@ == dir
    &&& r.db_name@ == name
    &&& r.backup_path@ == spec_path_join(dir, name + ".cldb.bak"@)
    &&& r.migration_dir@ == spec_path_join(dir, spec_migration_dir_name(name))
}

/// The locations beside a primary file whose parent directory and file stem
/// are `parent` and `stem`: the parent (`.` when there is none), the database
/// name, `{name}.cldb.bak` and `{name}.migration` in the parent.
pub fn cldb_locations(parent: Option<String>, stem: Option<String>) -> (r: CldbLocations)
    ensures
        spec_locations_ok(
            match parent { Some(p) => Some(p@), None => None::<Seq<char>> },
            match stem { Some(s) => Some(s@), None => None::<Seq<char>> },
            r),
{
    proof {
        reveal_strlit(".cldb");
        reveal_strlit(".");
        reveal_strlit("unknown");
    }
    let dir = match parent {
        Some(p) => p,
        None => ".".to_owned(),
    };
    let db_name = match stem {
        Some(s) => {
            if ends_with(s.as_str(), ".cldb") {
                let n = s.as_str().unicode_len();
                substring(s.as_str(), 0, n - 5)
            } else {
                s
            }
        },
        None => "unknown".to_owned(),
    };
    let mut bak = db_name.clone();
    bak.append(".cldb.bak");
    let backup_path = path_join(dir.as_str(), bak.as_str());
    let mdir = migration_dir_name(db_name.as_str());
    let migration_dir = path_join(dir.as_str(), mdir.as_str());
    CldbLocations { parent: dir, db_name, backup_path, migration_dir }
}

/// The locations beside the primary file at `primary_path`.
pub fn locate_cldb(primary_path: &str) -> (r: CldbLocations)
    ensures
        spec_locations_ok(path_parent_of(primary_path@), path_file_stem_of(primary_path@), r),
{
    let parent = path_parent(primary_path);
    let stem = path_file_stem(primary_path);
    cldb_locations(parent, stem)
}

/// The report of an inspection; for an authenticated file, the framework
/// version and the schema version of each table come from its meta record.
pub fn inspect_report(primary_path: &str, inspection: DatabaseInspection, meta: Option<CloveMeta>) -> (r: InspectReport)
    ensures
        r.primary_path@ == primary_path@,
        r.backup_path == inspection.backup_path,
        r.kind == inspection.kind,
        r.tables == inspection.tables,
        r.file_era == inspection.file_era,
        r.backup_exists == inspection.backup_exists,
        r.backup_upgraded == inspection.backup_upgraded,
        r.migration_exists == inspection.migration_exists,
        (inspection.kind == FileKind::Authenticated && meta.is_some()) ==> {
            let m = meta.unwrap();
            &&& r.framework_version matches Some(v) && v@ == m.framework_version@
            &&& r.table_schemas@.len() == m.tables@.len()
            &&& forall|i: int| 0 <= i < m.tables@.len() ==> (#[trigger] r.table_schemas@[i]).0@ == m.tables@[i].name@
                && r.table_schemas@[i].1 == m.tables@[i].schema_version
        },
        !(inspection.kind == FileKind::Authenticated && meta.is_some()) ==>
            r.framework_version is None && r.table_schemas@.len() == 0,
{
    let mut framework_version: Option<String> = None;
    let mut table_schemas: Vec<(String, u32)> = Vec::new();
    if inspection.kind == FileKind::Authenticated {
        match &meta {
            Some(m) => {
                framework_version = Some(m.framework_version.clone());
                let mut i: usize = 0;
                while i < m.tables.len()
                    invariant
                        i <= m.tables@.len(),
                        table_schemas@.len() == i,
                        forall|k: int| 0 <= k < i ==> (#[trigger] table_schemas@[k]).0@ == m.tables@[k].name@
                            && table_schemas@[k].1 == m.tables@[k].schema_version,
                    decreases m.tables@.len() - i,
                {
                    table_schemas.push((m.tables[i].name.clone(), m.tables[i].schema_version));
                    i = i + 1;
                }
            },
            None => {},
        }
    }
    InspectReport {
        primary_path: primary_path.to_owned(),
        backup_path: inspection.backup_path,
        kind: inspection.kind,
        tables: inspection.tables,
        file_era: inspection.file_era,
        backup_exists: inspection.backup_exists,
        backup_upgraded: inspection.backup_upgraded,
        migration_exists: inspection.migration_exists,
        framework_version,
        table_schemas,
    }
}

/// A file with entity rows is classified by its meta record first: one with
/// a meta record is `Authenticated` whether or not a migration index exists;
/// only a file without one is `Clove049` (with a migration index) or
/// `Legacy042` (without).
pub proof fn law_meta_record_decides_before_migration_index(meta: Option<CloveMeta>, migration_exists: bool)
    ensures
        meta is Some ==> spec_entity_file_kind(meta, migration_exists) == FileKind::Authenticated,
        meta is None && migration_exists ==> spec_entity_file_kind(meta, migration_exists) == FileKind::Clove049,
        meta is None && !migration_exists ==> spec_entity_file_kind(meta, migration_exists) == FileKind::Legacy042,
{
}

} // verus!
