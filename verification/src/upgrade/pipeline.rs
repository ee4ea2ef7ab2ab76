//! The decisions of opening a database: where its files are, whether the file
//! on disk may be opened, what meta record it gets, and what is recorded in
//! the record's upgrade log. The caller runs the steps that touch the disk
//! between these decisions.

use vstd::prelude::*;

use crate::durability::DurabilityMode;
use crate::metadata::inspect::{DatabaseInspection, FileKind};
use crate::metadata::types::{
    first_table_index, lemma_first_table_index, find_table, spec_backup_format_str, BackupFormat, CloveMeta, FRAMEWORK_ID,
    FileEra, TableMeta, TableStorageMode, BACKUP_FORMAT_JSON, FRAMEWORK_VERSION, META_VERSION,
};
use crate::migration::layout::FieldLayout;
use crate::migration::types::{migration_dir_name, spec_migration_dir_name};
use crate::text::{path_join, spec_decimal, spec_path_join, str_eq, u64_to_decimal};
use crate::units::{ClError, Result};
use crate::upgrade::backup_normalize::BackupNormalizeResult;

verus! {

pub struct TableRegistration {
    pub name: String,
    pub layout: FieldLayout,
    pub storage: TableStorageMode,
}

pub struct UpgradeInput {
    pub dir_path: String,
    pub backup_dir_path: Option<String>,
    pub dir_name: String,
    pub db_name: String,
    pub tables: Vec<TableRegistration>,
    pub backup_enabled: bool,
    pub blob_enabled: bool,
    pub has_cache: bool,
    pub durability: DurabilityMode,
}

/// What opening a database gives: its meta record and the layout of each
/// registered table.
pub struct UpgradeOutput {
    pub meta: CloveMeta,
    pub table_layouts: Vec<(String, FieldLayout)>,
}

/// Where the files of a database live.
#[derive(Debug, Clone)]
pub struct UpgradePaths {
    /// `{dir_path}/{dir_name}`
    pub db_dir: String,
    /// `{backup_dir_path}/{dir_name}`, when backups have a directory.
    pub backup_parent: Option<String>,
    /// `{db_dir}/{db_name}.cldb`
    pub primary_path: String,
    /// `{backup_parent}/{db_name}.cldb.bak`
    pub backup_path: Option<String>,
    /// `{db_dir}/{db_name}.migration`
    pub migration_dir: String,
}

pub open spec fn spec_upgrade_paths_ok(dir_path: Seq<char>, backup_dir_path: Option<Seq<char>>, dir_name: Seq<char>, db_name: Seq<char>, r: UpgradePaths) -> bool {
    let db_dir = spec_path_join(dir_path, dir_name);
    &&& r.db_dir@ == db_dir
    &&& r.primary_path@ == spec_path_join(db_dir, db_name + ".cldb"@)
    &&& r.migration_dir@ == spec_path_join(db_dir, spec_migration_dir_name(db_name))
    &&& match backup_dir_path {
        Some(b) => {
            &&& r.backup_parent matches Some(p) && p@ == spec_path_join(b, dir_name)
            &&& r.backup_path matches Some(p) && p@ == spec_path_join(spec_path_join(b, dir_name), db_name + ".cldb.bak"@)
        },
        None => r.backup_parent is None && r.backup_path is None,
    }
}

pub fn upgrade_paths(dir_path: &str, backup_dir_path: Option<&str>, dir_name: &str, db_name: &str) -> (r: UpgradePaths)
    ensures
        spec_upgrade_paths_ok(dir_path@, match backup_dir_path { Some(b) => Some(b@), None => None::<Seq<char>> }, dir_name@, db_name@, r),
{
    let db_dir = path_join(dir_path, dir_name);
    let mut primary_name = db_name.to_owned();
    primary_name.append(".cldb");
    let primary_path = path_join(db_dir.as_str(), primary_name.as_str());
    let mdir = migration_dir_name(db_name);
    let migration_dir = path_join(db_dir.as_str(), mdir.as_str());
    let (backup_parent, backup_path) = match backup_dir_path {
        Some(b) => {
            let parent = path_join(b, dir_name);
            let mut bak = db_name.to_owned();
            bak.append(".cldb.bak");
            let path = path_join(parent.as_str(), bak.as_str());
            (Some(parent), Some(path))
        },
        None => (None, None),
    };
    UpgradePaths { db_dir, backup_parent, primary_path, backup_path, migration_dir }
}

/// Only a file of this framework (or none yet) may be opened: a directory or
/// another program's redb file is refused.
pub fn reject_foreign_file(kind: FileKind, primary_path: &str) -> (r: Result<()>)
    ensures
        r is Ok <==> (kind != FileKind::Invalid && kind != FileKind::ExternalRedb),
        r matches Err(e) ==> (e matches ClError::NotCloveDatabase { path } && path@ == primary_path@),
{
    match kind {
        FileKind::Invalid | FileKind::ExternalRedb => Err(ClError::NotCloveDatabase { path: primary_path.to_owned() }),
        _ => Ok(()),
    }
}

pub open spec fn string_views(v: Seq<String>) -> Seq<Seq<char>> {
    v.map_values(|s: String| s@)
}

/// The tables found in an existing file must include every registered one;
/// a file with no tables at all is accepted.
pub fn validate_tables(expected: &Vec<String>, found: &Vec<String>) -> (r: Result<()>)
    ensures
        r is Ok <==> (found@.len() == 0
            || forall|i: int| 0 <= i < expected@.len() ==> string_views(found@).contains(#[trigger] expected@[i]@)),
        r matches Err(e) ==> (e matches ClError::TableMismatch { expected: x, found: f }
            && string_views(x@) == string_views(expected@) && string_views(f@) == string_views(found@)),
{
    if found.len() == 0 {
        return Ok(());
    }
    let mut i: usize = 0;
    while i < expected.len()
        invariant
            i <= expected@.len(),
            found@.len() > 0,
            forall|k: int| 0 <= k < i ==> string_views(found@).contains(#[trigger] expected@[k]@),
        decreases expected@.len() - i,
    {
        let mut j: usize = 0;
        let mut present = false;
        while j < found.len()
            invariant
                j <= found@.len(),
                i < expected@.len(),
                found@.len() > 0,
                present == exists|q: int| 0 <= q < j && found@[q]@ == expected@[i as int]@,
            decreases found@.len() - j,
        {
            if str_eq(found[j].as_str(), expected[i].as_str()) {
                present = true;
            }
            j = j + 1;
        }
        if !present {
            proof {
                assert(!string_views(found@).contains(expected@[i as int]@)) by {
                    if string_views(found@).contains(expected@[i as int]@) {
                        let q = choose|q: int| 0 <= q < string_views(found@).len() && string_views(found@)[q] == expected@[i as int]@;
                        assert(found@[q]@ == expected@[i as int]@);
                    }
                }
            }
            let x = clone_names(expected);
            let f = clone_names(found);
            return Err(ClError::TableMismatch { expected: x, found: f });
        }
        proof {
            let q = choose|q: int| 0 <= q < j && found@[q]@ == expected@[i as int]@;
            assert(string_views(found@)[q] == expected@[i as int]@);
        }
        i = i + 1;
    }
    Ok(())
}

fn clone_names(v: &Vec<String>) -> (r: Vec<String>)
    ensures
        string_views(r@) == string_views(v@),
{
    let mut out: Vec<String> = Vec::new();
    let mut i: usize = 0;
    while i < v.len()
        invariant
            i <= v@.len(),
            string_views(out@) == string_views(v@.take(i as int)),
        decreases v@.len() - i,
    {
        let ghost before = string_views(out@);
        let c = v[i].clone();
        out.push(c);
        proof {
            assert(string_views(out@) =~= before.push(v@[i as int]@));
            assert(string_views(v@.take(i + 1)) =~= string_views(v@.take(i as int)).push(v@[i as int]@));
        }
        i = i + 1;
    }
    assert(v@.take(v@.len() as int) =~= v@);
    out
}

/// The era a file is from: as its meta record says, else a file with a
/// migration index is from the 0.0.49 era, another existing file from the
/// 0.0.42 era, and a new file is current.
pub open spec fn spec_file_era(i: DatabaseInspection) -> FileEra {
    match i.file_era {
        Some(e) => e,
        None => if i.migration_exists {
            FileEra::Clove049
        } else if i.primary_exists {
            FileEra::Legacy042
        } else {
            FileEra::Current
        },
    }
}

pub fn resolve_file_era(inspection: &DatabaseInspection) -> (r: FileEra)
    ensures
        r == spec_file_era(*inspection),
{
    match inspection.file_era {
        Some(e) => e,
        None => if inspection.migration_exists {
            FileEra::Clove049
        } else if inspection.primary_exists {
            FileEra::Legacy042
        } else {
            FileEra::Current
        },
    }
}

/// The meta record of a registered table before its chain is known: version
/// 1 of a schema named after the table.
pub open spec fn is_fresh_table_meta(t: TableMeta, reg: TableRegistration) -> bool {
    &&& t.name@ == reg.name@
    &&& t.schema_id@ == reg.name@
    &&& t.schema_version == 1
    &&& t.layout_hash@ == reg.layout.layout_hash@
}

/// A fresh meta record for the registered tables.
pub fn build_meta(db_name: &str, tables: &Vec<TableRegistration>, backup_enabled: bool, file_era: FileEra) -> (r: CloveMeta)
    ensures
        r.framework@ == FRAMEWORK_ID@,
        r.db_name@ == db_name@,
        r.file_era == file_era,
        r.meta_version == META_VERSION,
        r.framework_version@ == FRAMEWORK_VERSION@,
        r.backup_enabled == backup_enabled,
        r.backup_upgraded == !backup_enabled,
        r.backup_format@ == (if backup_enabled {
            spec_backup_format_str(BackupFormat::JsonWrappedV1)
        } else {
            spec_backup_format_str(BackupFormat::Unknown)
        }),
        !r.upgrade_complete,
        r.upgrade_log@.len() == 0,
        r.tables@.len() == tables@.len(),
        forall|i: int| 0 <= i < tables@.len() ==> is_fresh_table_meta(#[trigger] r.tables@[i], tables@[i]),
{
    let mut metas: Vec<TableMeta> = Vec::new();
    let mut i: usize = 0;
    while i < tables.len()
        invariant
            i <= tables@.len(),
            metas@.len() == i,
            forall|k: int| 0 <= k < i ==> is_fresh_table_meta(#[trigger] metas@[k], tables@[k]),
        decreases tables@.len() - i,
    {
        let reg = &tables[i];
        metas.push(TableMeta {
            name: reg.name.clone(),
            schema_id: reg.name.clone(),
            schema_version: 1,
            layout_hash: reg.layout.layout_hash.clone(),
        });
        i = i + 1;
    }
    CloveMeta::new(db_name, file_era, backup_enabled, metas)
}

/// An authenticated file keeps its own meta record when that is of the
/// current meta version, stamped with this framework version; otherwise the
/// fresh record is used.
pub fn adopt_existing_meta(fresh: CloveMeta, existing: Option<CloveMeta>) -> (r: CloveMeta)
    ensures
        match existing {
            Some(e) => if e.meta_version == META_VERSION {
                &&& r.framework_version@ == FRAMEWORK_VERSION@
                &&& r.framework == e.framework && r.meta_version == e.meta_version
                &&& r.file_era == e.file_era && r.db_name == e.db_name
                &&& r.backup_enabled == e.backup_enabled && r.backup_format == e.backup_format
                &&& r.backup_upgraded == e.backup_upgraded
                &&& r.backup_pre_upgrade_path == e.backup_pre_upgrade_path
                &&& r.tables == e.tables && r.upgrade_complete == e.upgrade_complete
                &&& r.upgrade_log == e.upgrade_log
            } else {
                r == fresh
            },
            None => r == fresh,
        },
{
    match existing {
        Some(e) => {
            if e.meta_version == META_VERSION {
                let mut m = e;
                m.framework_version = FRAMEWORK_VERSION.to_owned();
                m
            } else {
                fresh
            }
        },
        None => fresh,
    }
}

/// The backup is rewritten into the current format when it exists, backups
/// are enabled, and the meta record does not say it already was.
pub fn needs_backup_normalize(backup_exists: bool, backup_enabled: bool, meta: &CloveMeta) -> (r: bool)
    ensures
        r == (backup_exists && backup_enabled && !meta.backup_upgraded),
{
    backup_exists && backup_enabled && !meta.backup_upgraded
}

pub open spec fn bool_text(b: bool) -> Seq<char> {
    if b { "true"@ } else { "false"@ }
}

fn bool_str(b: bool) -> (r: &'static str)
    ensures
        r@ == bool_text(b),
{
    if b { "true" } else { "false" }
}

/// The log detail of a backup rewrite.
pub open spec fn spec_normalize_detail(r: BackupNormalizeResult) -> Seq<char> {
    "converted="@ + spec_decimal(r.entries_converted as nat)
        + " skipped="@ + spec_decimal(r.entries_skipped as nat)
        + " pre_upgrade_removed="@ + bool_text(r.pre_upgrade_removed)
}

/// Whether `after` is `before` with one more log entry, `step` with `detail`.
pub open spec fn logged(before: CloveMeta, after: CloveMeta, step: Seq<char>, detail: Option<Seq<char>>) -> bool {
    &&& after.upgrade_log@.len() == before.upgrade_log@.len() + 1
    &&& after.upgrade_log@.drop_last() == before.upgrade_log@
    &&& after.upgrade_log@.last().step@ == step
    &&& match detail {
        Some(d) => after.upgrade_log@.last().detail matches Some(x) && x@ == d,
        None => after.upgrade_log@.last().detail is None,
    }
}

/// Records a backup rewrite in the meta record: where the pre-upgrade copy
/// is (none once it was removed), a log entry with the counts, and that the
/// backup is now in the current format.
pub fn record_backup_normalize(meta: &mut CloveMeta, result: &BackupNormalizeResult, pre_path: &str, pre_exists: bool)
    ensures
        pre_exists && result.pre_upgrade_removed ==> final(meta).backup_pre_upgrade_path is None,
        pre_exists && !result.pre_upgrade_removed ==>
            (final(meta).backup_pre_upgrade_path matches Some(p) && p@ == pre_path@),
        !pre_exists ==> final(meta).backup_pre_upgrade_path == old(meta).backup_pre_upgrade_path,
        logged(*old(meta), *final(meta), "backup_normalize"@, Some(spec_normalize_detail(*result))),
        final(meta).backup_upgraded,
        final(meta).backup_format@ == BACKUP_FORMAT_JSON@,
        final(meta).tables == old(meta).tables,
        final(meta).file_era == old(meta).file_era,
        final(meta).upgrade_complete == old(meta).upgrade_complete,
        final(meta).meta_version == old(meta).meta_version,
        final(meta).framework == old(meta).framework && final(meta).db_name == old(meta).db_name,
        *final(meta) == (CloveMeta {
            backup_pre_upgrade_path: final(meta).backup_pre_upgrade_path,
            upgrade_log: final(meta).upgrade_log,
            backup_upgraded: true,
            backup_format: final(meta).backup_format,
            ..*old(meta)
        }),
{
    if pre_exists && result.pre_upgrade_removed {
        meta.backup_pre_upgrade_path = None;
    } else if pre_exists {
        meta.backup_pre_upgrade_path = Some(pre_path.to_owned());
    }
    let mut detail = "converted=".to_owned();
    let c = u64_to_decimal(result.entries_converted as u64);
    detail.append(c.as_str());
    detail.append(" skipped=");
    let s = u64_to_decimal(result.entries_skipped as u64);
    detail.append(s.as_str());
    detail.append(" pre_upgrade_removed=");
    detail.append(bool_str(result.pre_upgrade_removed));
    meta.push_log("backup_normalize", Some(detail));
    meta.backup_upgraded = true;
    meta.backup_format = BACKUP_FORMAT_JSON.to_owned();
}

/// Records in the log how many snapshot reference files were rewritten, when
/// any were.
pub fn record_refs_upgrade(meta: &mut CloveMeta, refs_upgraded: usize)
    ensures
        refs_upgraded == 0 ==> *final(meta) == *old(meta),
        refs_upgraded > 0 ==> logged(*old(meta), *final(meta), "migration_refs_upgrade"@,
            Some("files_updated="@ + spec_decimal(refs_upgraded as nat))),
        final(meta).tables == old(meta).tables,
        final(meta).backup_upgraded == old(meta).backup_upgraded,
        final(meta).framework == old(meta).framework && final(meta).db_name == old(meta).db_name,
        *final(meta) == (CloveMeta { upgrade_log: final(meta).upgrade_log, ..*old(meta) }),
{
    if refs_upgraded > 0 {
        let mut detail = "files_updated=".to_owned();
        let n = u64_to_decimal(refs_upgraded as u64);
        detail.append(n.as_str());
        meta.push_log("migration_refs_upgrade", Some(detail));
    }
}

/// Brings the meta record of a registered table in line with its chain: the
/// first table meta of that name gets the table's schema, the chain's current
/// version and the registered layout's hash.
pub fn sync_table_meta(meta: &mut CloveMeta, name: &str, chain_version: u32, layout_hash: &str)
    ensures
        ({
            let i = first_table_index(old(meta).tables@, name@);
            if i >= 0 {
                &&& final(meta).tables@.len() == old(meta).tables@.len()
                &&& final(meta).tables@[i].name == old(meta).tables@[i].name
                &&& final(meta).tables@[i].schema_id@ == name@
                &&& final(meta).tables@[i].schema_version == chain_version
                &&& final(meta).tables@[i].layout_hash@ == layout_hash@
                &&& forall|j: int| 0 <= j < old(meta).tables@.len() && j != i ==>
                    #[trigger] final(meta).tables@[j] == old(meta).tables@[j]
            } else {
                final(meta).tables == old(meta).tables
            }
        }),
        final(meta).upgrade_log == old(meta).upgrade_log,
        final(meta).backup_upgraded == old(meta).backup_upgraded,
        final(meta).upgrade_complete == old(meta).upgrade_complete,
        final(meta).framework == old(meta).framework && final(meta).db_name == old(meta).db_name,
        *final(meta) == (CloveMeta { tables: final(meta).tables, ..*old(meta) }),
{
    proof { lemma_first_table_index(meta.tables@, name@); }
    match find_table(&meta.tables, name) {
        Some(i) => {
            let t = meta.tables.remove(i);
            let updated = TableMeta {
                name: t.name,
                schema_id: name.to_owned(),
                schema_version: chain_version,
                layout_hash: layout_hash.to_owned(),
            };
            meta.tables.insert(i, updated);

        },
        None => {},
    }
}

/// On reopening an existing file, a layout stored for the chain's current
/// version that differs from the registered one is a mismatch, unless the
/// chain has migrations (which explain the difference).
pub fn check_stored_layout(kind: FileKind, table: &str, registered_hash: &str, stored_hash: Option<&str>, chain_version: u32, manifests_empty: bool) -> (r: Result<()>)
    ensures
        r is Err <==> (kind != FileKind::New && stored_hash is Some
            && stored_hash.unwrap()@ != registered_hash@ && manifests_empty),
        r matches Err(e) ==> (e matches ClError::LayoutMismatch { table: t, registered, chain_version: v }
            && t@ == table@ && registered@ == registered_hash@ && v == chain_version),
{
    if kind == FileKind::New {
        return Ok(());
    }
    match stored_hash {
        Some(h) => {
            if !str_eq(h, registered_hash) && manifests_empty {
                return Err(ClError::LayoutMismatch {
                    table: table.to_owned(),
                    registered: registered_hash.to_owned(),
                    chain_version,
                });
            }
            Ok(())
        },
        None => Ok(()),
    }
}

/// Marks the upgrade complete, stamps this framework version and logs it.
pub fn finish_meta(meta: &mut CloveMeta)
    ensures
        final(meta).upgrade_complete,
        final(meta).framework_version@ == FRAMEWORK_VERSION@,
        logged(*old(meta), *final(meta), "upgrade_complete"@, None),
        final(meta).tables == old(meta).tables,
        final(meta).backup_upgraded == old(meta).backup_upgraded,
        final(meta).backup_format == old(meta).backup_format,
        final(meta).backup_pre_upgrade_path == old(meta).backup_pre_upgrade_path,
        final(meta).file_era == old(meta).file_era,
        final(meta).db_name == old(meta).db_name,
        final(meta).meta_version == old(meta).meta_version,
        final(meta).framework == old(meta).framework && final(meta).db_name == old(meta).db_name,
        *final(meta) == (CloveMeta {
            upgrade_complete: true,
            framework_version: final(meta).framework_version,
            upgrade_log: final(meta).upgrade_log,
            ..*old(meta)
        }),
{
    meta.upgrade_complete = true;
    meta.framework_version = FRAMEWORK_VERSION.to_owned();
    meta.push_log("upgrade_complete", None);
}

/// The record an open writes is this framework's and complete, so the next
/// open accepts it: the pipeline starts from `build_meta` (or an existing
/// record of this framework kept by `adopt_existing_meta`), every step in
/// between (`record_backup_normalize`, `record_refs_upgrade`,
/// `sync_table_meta`) keeps the framework, and `finish_meta` ends it.
pub proof fn law_opened_record_is_accepted(records: Seq<CloveMeta>, finished: CloveMeta)
    requires
        records.len() >= 1,
        records[0].framework@ == FRAMEWORK_ID@,
        forall|i: int| 0 < i < records.len() ==> (#[trigger] records[i]).framework == records[i - 1].framework,
        finished == (CloveMeta {
            upgrade_complete: true,
            framework_version: finished.framework_version,
            upgrade_log: finished.upgrade_log,
            ..records.last()
        }),
    ensures
        finished.framework@ == FRAMEWORK_ID@,
        finished.upgrade_complete,
    decreases records.len(),
{
    if records.len() > 1 {
        let init = records.drop_last();
        assert forall|i: int| 0 < i < init.len() implies (#[trigger] init[i]).framework == init[i - 1].framework by {
            assert(init[i] == records[i] && init[i - 1] == records[i - 1]);
        }
        assert(init[0] == records[0]);
        let f = CloveMeta {
            upgrade_complete: true,
            framework_version: finished.framework_version,
            upgrade_log: finished.upgrade_log,
            ..init.last()
        };
        law_opened_record_is_accepted(init, f);
        assert(records.last().framework == records[records.len() - 2].framework);
    }
}

/// The era a file's meta record states is the era it is opened as; only a
/// file without a recorded era is judged by what is on disk: a migration
/// index means the 0.0.49 era, any other existing file the 0.0.42 era, and no
/// file at all the current era.
pub proof fn law_recorded_era_wins(i: DatabaseInspection)
    ensures
        i.file_era matches Some(e) ==> spec_file_era(i) == e,
        i.file_era is None && i.migration_exists ==> spec_file_era(i) == FileEra::Clove049,
        i.file_era is None && !i.migration_exists && i.primary_exists ==> spec_file_era(i) == FileEra::Legacy042,
        i.file_era is None && !i.migration_exists && !i.primary_exists ==> spec_file_era(i) == FileEra::Current,
{
}

} // verus!
