//! Per-table migration chains: which schema version a backup version was
//! written under, whether it can be restored, and which migration steps replay
//! it to the current schema. Reading and writing the chain's files is done by
//! the caller; this module keeps the chain's records consistent.

use vstd::prelude::*;

use crate::assoc::{assoc_find, assoc_index, assoc_get, assoc_upsert, lemma_assoc_index, lemma_upsert_get};
use crate::durability::DurabilityMode;
use crate::migration::step_registry::{step_index, MigrationStepRegistry};
use crate::migration::types::{
    spec_migration_dir_name, spec_table_chain_dir, table_chain_dir, DbMigrationRootIndex,
    MigrationIndexEntry, MigrationManifest, TableChainIndex, TableChainSummary,
    MIGRATION_INDEX_VERSION,
};
use crate::text::{hex_encode, path_join, spec_decimal, spec_hex, spec_path_join, u64_to_decimal};
use crate::units::{ClError, Result};
use crate::fsutil::{is_corrupt_index_bytes, spec_corrupt_index};
use crate::json::{json_member_present, utf8_decode};
use crate::upgrade::legacy_migration::is_legacy_root_index;
use vstd::utf8::{decode_utf8, encode_utf8_decode_utf8};

verus! {

#[derive(Debug)]
pub struct TableMigrationChain {
    pub table: String,
    /// `{migration_dir}/tables/{table}`
    pub dir: String,
    pub index: TableChainIndex,
    pub manifests: Vec<MigrationManifest>,
    pub durability: DurabilityMode,
}

/// A database's migration index: the root summaries and one chain per table,
/// keyed by table name.
#[derive(Debug)]
pub struct DbMigrationIndex {
    pub dir: String,
    pub db_name: String,
    pub root: DbMigrationRootIndex,
    pub tables: Vec<(String, TableMigrationChain)>,
    pub durability: DurabilityMode,
}

/// The chain index of a table that has never migrated.
pub open spec fn is_initial_index(index: TableChainIndex, table: Seq<char>) -> bool {
    &&& index.schema_id@ == table
    &&& index.current_version == 1
    &&& index.initial_version == 1
    &&& index.chain@.len() == 0
}

/// The chain index of a table that has never migrated.
pub fn initial_chain_index(table: &str) -> (r: TableChainIndex)
    ensures
        is_initial_index(r, table@),
{
    TableChainIndex {
        schema_id: table.to_owned(),
        current_version: 1,
        initial_version: 1,
        chain: Vec::new(),
    }
}

pub open spec fn is_initial_summary(s: TableChainSummary, table: Seq<char>) -> bool {
    s.schema_id@ == table && s.current_version == 1 && s.initial_version == 1
}

/// Index of the first manifest whose backup scope reaches `backup_version`, or `-1`.
pub open spec fn first_scope_index(ms: Seq<MigrationManifest>, backup_version: u64) -> int
    decreases ms.len(),
{
    if ms.len() == 0 {
        -1
    } else if backup_version <= ms[0].version_scope.backup_versions_to {
        0
    } else {
        let i = first_scope_index(ms.drop_first(), backup_version);
        if i == -1 { -1 } else { i + 1 }
    }
}

proof fn lemma_first_scope_index_is(ms: Seq<MigrationManifest>, v: u64, i: int)
    requires
        0 <= i <= ms.len(),
        i < ms.len() ==> v <= ms[i].version_scope.backup_versions_to,
        forall|j: int| 0 <= j < i && j < ms.len() ==> v > #[trigger] ms[j].version_scope.backup_versions_to,
    ensures
        first_scope_index(ms, v) == (if i == ms.len() { -1 } else { i }),
    decreases ms.len(),
{
    if ms.len() > 0 && i > 0 {
        assert forall|j: int| 0 <= j < i - 1 && j < ms.len() - 1 implies v > #[trigger] ms.drop_first()[j].version_scope.backup_versions_to by {
            assert(ms.drop_first()[j] == ms[j + 1]);
        }
        assert(v > ms[0].version_scope.backup_versions_to);
        if i < ms.len() {
            assert(ms.drop_first()[i - 1] == ms[i]);
        }
        lemma_first_scope_index_is(ms.drop_first(), v, i - 1);
    }
}

/// The label of one schema version on a decode path: `{schema_id}@{version}`.
pub open spec fn spec_version_label(schema_id: Seq<char>, version: u32) -> Seq<char> {
    schema_id + seq!['@'] + spec_decimal(version as nat)
}

pub fn version_label(schema_id: &str, version: u32) -> (r: String)
    ensures
        r@ == spec_version_label(schema_id@, version),
{
    proof {
        reveal_strlit("@");
    }
    let mut s = schema_id.to_owned();
    s.append("@");
    let digits = u64_to_decimal(version as u64);
    s.append(digits.as_str());
    s
}

/// The manifests, by index from `i` on, that replay a record from schema
/// version `cur` towards `target`: a manifest applies when it starts at the
/// version reached so far, and the walk stops once `target` is reached.
pub open spec fn normalize_steps(ms: Seq<MigrationManifest>, i: int, cur: u32, target: u32) -> Seq<int>
    decreases ms.len() - i,
{
    if i < 0 || i >= ms.len() {
        Seq::empty()
    } else {
        let applies = cur == ms[i].from.schema_version;
        let next = if applies { ms[i].to.schema_version } else { cur };
        let rest = if next == target { Seq::<int>::empty() } else { normalize_steps(ms, i + 1, next, target) };
        if applies { seq![i] + rest } else { rest }
    }
}

/// The schema version reached after the steps of `normalize_steps`.
pub open spec fn normalize_end(ms: Seq<MigrationManifest>, i: int, cur: u32, target: u32) -> u32
    decreases ms.len() - i,
{
    if i < 0 || i >= ms.len() {
        cur
    } else {
        let applies = cur == ms[i].from.schema_version;
        let next = if applies { ms[i].to.schema_version } else { cur };
        if next == target { next } else { normalize_end(ms, i + 1, next, target) }
    }
}

/// How a stored record is replayed to the current schema.
pub struct NormalizationPlan {
    /// The schema version the record was written under.
    pub era_version: u32,
    /// Indexes into the chain's manifests, in the order they apply.
    pub steps: Vec<usize>,
    /// `{schema_id}@{version}` for the era version and after every step.
    pub decode_path: Vec<String>,
}

impl TableMigrationChain {
    pub fn current_version(&self) -> (r: u32)
        ensures
            r == self.index.current_version,
    {
        self.index.current_version
    }

    pub fn schema_id(&self) -> (r: &str)
        ensures
            r@ == self.index.schema_id@,
    {
        self.index.schema_id.as_str()
    }

    /// The schema version a backup version was written under: the `from`
    /// version of the first migration whose backup scope reaches it, else the
    /// current version.
    pub open spec fn spec_schema_version_for_backup(&self, backup_version: u64) -> u32 {
        let i = first_scope_index(self.manifests@, backup_version);
        if i >= 0 { self.manifests@[i].from.schema_version } else { self.index.current_version }
    }

    fn scope_index(&self, backup_version: u64) -> (r: Option<usize>)
        ensures
            match r {
                Some(i) => i as int == first_scope_index(self.manifests@, backup_version) && i < self.manifests@.len(),
                None => first_scope_index(self.manifests@, backup_version) == -1,
            },
    {
        let mut i: usize = 0;
        while i < self.manifests.len()
            invariant
                i <= self.manifests@.len(),
                forall|j: int| 0 <= j < i ==> backup_version > #[trigger] self.manifests@[j].version_scope.backup_versions_to,
            decreases self.manifests@.len() - i,
        {
            if backup_version <= self.manifests[i].version_scope.backup_versions_to {
                proof {
                    lemma_first_scope_index_is(self.manifests@, backup_version, i as int);
                }
                return Some(i);
            }
            i = i + 1;
        }
        proof {
            lemma_first_scope_index_is(self.manifests@, backup_version, self.manifests@.len() as int);
        }
        None
    }

    pub fn schema_version_for_backup(&self, backup_version: u64) -> (r: u32)
        ensures
            r == self.spec_schema_version_for_backup(backup_version),
    {
        match self.scope_index(backup_version) {
            Some(i) => self.manifests[i].from.schema_version,
            None => self.index.current_version,
        }
    }

    /// The migration whose backup scope first reaches `backup_version`.
    pub fn migration_id_for_version(&self, backup_version: u64) -> (r: Option<&str>)
        ensures
            ({
                let i = first_scope_index(self.manifests@, backup_version);
                match r {
                    Some(id) => i >= 0 && id@ == self.manifests@[i].migration_id@,
                    None => i == -1,
                }
            }),
    {
        match self.scope_index(backup_version) {
            Some(i) => Some(self.manifests[i].migration_id.as_str()),
            None => None,
        }
    }

    /// A backup version can be restored when it was written under the current schema.
    pub fn is_restorable(&self, backup_version: u64) -> (r: bool)
        ensures
            r == (self.spec_schema_version_for_backup(backup_version) == self.index.current_version),
    {
        self.schema_version_for_backup(backup_version) == self.index.current_version
    }

    /// The migration steps that replay a record of `backup_version` to the
    /// current schema, with the decode path they walk.
    pub fn normalization_plan(&self, backup_version: u64) -> (r: NormalizationPlan)
        ensures
            r.era_version == self.spec_schema_version_for_backup(backup_version),
            r.steps@.len() == normalize_steps(self.manifests@, 0, r.era_version, self.index.current_version).len(),
            forall|k: int| 0 <= k < r.steps@.len() ==>
                r.steps@[k] as int == #[trigger] normalize_steps(self.manifests@, 0, r.era_version, self.index.current_version)[k],
            r.decode_path@.len() == r.steps@.len() + 1,
            r.decode_path@[0]@ == spec_version_label(self.index.schema_id@, r.era_version),
            forall|k: int| 0 <= k < r.steps@.len() ==>
                (#[trigger] r.decode_path@[k + 1])@ == spec_version_label(
                    self.index.schema_id@,
                    self.manifests@[r.steps@[k] as int].to.schema_version,
                ),
    {
        let era = self.schema_version_for_backup(backup_version);
        let target = self.index.current_version;
        let ghost ms = self.manifests@;
        let mut steps: Vec<usize> = Vec::new();
        let mut path: Vec<String> = Vec::new();
        path.push(version_label(self.index.schema_id.as_str(), era));
        let mut cur = era;
        let mut i: usize = 0;
        let mut done = false;
        while i < self.manifests.len() && !done
            invariant
                i <= ms.len(),
                ms == self.manifests@,
                target == self.index.current_version,
                normalize_steps(ms, 0, era, target)
                    == steps@.map_values(|s: usize| s as int) + (if done { Seq::<int>::empty() } else { normalize_steps(ms, i as int, cur, target) }),
                path@.len() == steps@.len() + 1,
                path@[0]@ == spec_version_label(self.index.schema_id@, era),
                forall|k: int| 0 <= k < steps@.len() ==>
                    (#[trigger] path@[k + 1])@ == spec_version_label(self.index.schema_id@, ms[steps@[k] as int].to.schema_version),
                forall|k: int| 0 <= k < steps@.len() ==> #[trigger] steps@[k] < ms.len(),
            decreases ms.len() - i,
        {
            let m = &self.manifests[i];
            let applies = cur == m.from.schema_version;
            let ghost old_steps = steps@;
            let ghost old_cur = cur;
            if applies {
                steps.push(i);
                cur = m.to.schema_version;
                path.push(version_label(self.index.schema_id.as_str(), cur));
            }
            proof {
                let rest = if cur == target { Seq::<int>::empty() } else { normalize_steps(ms, i + 1, cur, target) };
                assert(normalize_steps(ms, i as int, old_cur, target) == (if applies { seq![i as int] + rest } else { rest }));
                if applies {
                    assert(steps@.map_values(|s: usize| s as int) =~= old_steps.map_values(|s: usize| s as int).push(i as int));
                    assert(old_steps.map_values(|s: usize| s as int).push(i as int) + rest
                        =~= old_steps.map_values(|s: usize| s as int) + (seq![i as int] + rest));
                }
            }
            if cur == target {
                done = true;
            }
            i = i + 1;
        }
        proof {
            if !done {
                assert(normalize_steps(ms, i as int, cur, target) =~= Seq::<int>::empty());
            }
            assert(normalize_steps(ms, 0, era, target) =~= steps@.map_values(|s: usize| s as int));
            assert forall|k: int| 0 <= k < steps@.len() implies
                steps@[k] as int == #[trigger] normalize_steps(ms, 0, era, target)[k] by {
                assert(steps@.map_values(|s: usize| s as int)[k] == steps@[k] as int);
            }
        }
        NormalizationPlan { era_version: era, steps, decode_path: path }
    }

    /// Records a new migration at the end of the chain: the index gains an
    /// entry in the next order position and the current version becomes the
    /// manifest's target version.
    pub fn record_append(&mut self, manifest: MigrationManifest)
        requires
            old(self).index.chain@.len() < usize::MAX,
        ensures
            final(self).index.chain@.len() == old(self).index.chain@.len() + 1,
            final(self).index.chain@.drop_last() == old(self).index.chain@,
            final(self).index.chain@.last().migration_id@ == manifest.migration_id@,
            final(self).index.chain@.last().order == (old(self).index.chain@.len() + 1) as u32,
            final(self).index.current_version == manifest.to.schema_version,
            final(self).index.schema_id == old(self).index.schema_id,
            final(self).index.initial_version == old(self).index.initial_version,
            final(self).manifests@ == old(self).manifests@.push(manifest),
            final(self).table == old(self).table,
            final(self).dir == old(self).dir,
            final(self).durability == old(self).durability,
    {
        let order = (self.index.chain.len() + 1) as u32;
        self.index.chain.push(MigrationIndexEntry {
            migration_id: manifest.migration_id.clone(),
            order,
        });
        self.index.current_version = manifest.to.schema_version;
        self.manifests.push(manifest);
        assert(self.index.chain@.drop_last() =~= old(self).index.chain@);
    }

    /// The summary of this chain as the root index records it.
    pub fn summary(&self) -> (r: TableChainSummary)
        ensures
            r.schema_id@ == self.index.schema_id@,
            r.current_version == self.index.current_version,
            r.initial_version == self.index.initial_version,
    {
        TableChainSummary {
            schema_id: self.index.schema_id.clone(),
            current_version: self.index.current_version,
            initial_version: self.index.initial_version,
        }
    }
}

proof fn lemma_first_scope_index_push(ms: Seq<MigrationManifest>, m: MigrationManifest, v: u64)
    ensures
        first_scope_index(ms.push(m), v) == (if first_scope_index(ms, v) >= 0 {
            first_scope_index(ms, v)
        } else if v <= m.version_scope.backup_versions_to {
            ms.len() as int
        } else {
            -1
        }),
    decreases ms.len(),
{
    lemma_first_scope_index_range(ms, v);
    if ms.len() > 0 {
        assert(ms.push(m)[0] == ms[0]);
        if v > ms[0].version_scope.backup_versions_to {
            assert(ms.push(m).drop_first() =~= ms.drop_first().push(m));
            lemma_first_scope_index_push(ms.drop_first(), m, v);
            lemma_first_scope_index_range(ms.drop_first(), v);
            assert(first_scope_index(ms.push(m), v) == (if first_scope_index(ms.push(m).drop_first(), v) == -1 { -1 } else {
                first_scope_index(ms.push(m).drop_first(), v) + 1 }));
            assert(first_scope_index(ms, v) == (if first_scope_index(ms.drop_first(), v) == -1 { -1 } else {
                first_scope_index(ms.drop_first(), v) + 1 }));
        }
    } else {
        assert(ms.push(m)[0] == m);
        assert(ms.push(m).drop_first() =~= Seq::<MigrationManifest>::empty());
        assert(first_scope_index(ms.push(m).drop_first(), v) == -1);
        assert(first_scope_index(ms, v) == -1);
    }
}

proof fn lemma_first_scope_index_range(ms: Seq<MigrationManifest>, v: u64)
    ensures
        -1 <= first_scope_index(ms, v) < ms.len(),
    decreases ms.len(),
{
    if ms.len() > 0 {
        lemma_first_scope_index_range(ms.drop_first(), v);
    }
}

/// A table that has never migrated can restore every backup version.
pub proof fn law_unmigrated_table_restores_every_version(chain: TableMigrationChain, v: u64)
    requires
        chain.manifests@.len() == 0,
    ensures
        chain.spec_schema_version_for_backup(v) == chain.index.current_version,
{
}

/// Once a migration is recorded (`record_append`), a backup version that no
/// earlier migration's scope reaches but the new one's does was written under
/// the new migration's source schema, so it is no longer restorable when the
/// migration changed the version; a backup version beyond every scope is still
/// restorable; and versions an earlier migration covers keep their schema.
pub proof fn law_recorded_migration_guards_older_backups(
    before: TableMigrationChain,
    manifest: MigrationManifest,
    after: TableMigrationChain,
    v: u64,
)
    requires
        after.manifests@ == before.manifests@.push(manifest),
        after.index.current_version == manifest.to.schema_version,
    ensures
        first_scope_index(before.manifests@, v) >= 0 ==>
            after.spec_schema_version_for_backup(v) == before.spec_schema_version_for_backup(v),
        first_scope_index(before.manifests@, v) == -1 && v <= manifest.version_scope.backup_versions_to ==>
            after.spec_schema_version_for_backup(v) == manifest.from.schema_version,
        first_scope_index(before.manifests@, v) == -1 && v <= manifest.version_scope.backup_versions_to
            && manifest.from.schema_version != manifest.to.schema_version ==>
            after.spec_schema_version_for_backup(v) != after.index.current_version,
        first_scope_index(after.manifests@, v) == -1 ==>
            after.spec_schema_version_for_backup(v) == after.index.current_version,
{
    lemma_first_scope_index_push(before.manifests@, manifest, v);
    lemma_first_scope_index_range(before.manifests@, v);
    let i = first_scope_index(before.manifests@, v);
    if i >= 0 {
        assert(after.manifests@[i] == before.manifests@[i]);
    } else if v <= manifest.version_scope.backup_versions_to {
        assert(after.manifests@[before.manifests@.len() as int] == manifest);
    }
}

/// The registered step that replays `manifest`, found by its layout hashes;
/// when none is registered, the error names the manifest's hashes and its
/// migration.
pub fn step_for_manifest<'a, D>(registry: &'a MigrationStepRegistry<D>, manifest: &MigrationManifest) -> (r: Result<&'a D>)
    ensures
        ({
            let i = step_index(registry.steps@, manifest.from_layout_hash@, manifest.to_layout_hash@);
            if i >= 0 {
                r == Ok::<&D, ClError>(&registry.steps@[i].1)
            } else {
                r matches Err(ClError::DecoderNotFound { from_layout_hash, to_layout_hash, migration_id })
                    && from_layout_hash@ == manifest.from_layout_hash@ && to_layout_hash@ == manifest.to_layout_hash@
                    && migration_id@ == manifest.migration_id@
            }
        }),
{
    match registry.get_by_layout(manifest.from_layout_hash.as_str(), manifest.to_layout_hash.as_str()) {
        Ok(d) => Ok(d),
        Err(_) => Err(ClError::DecoderNotFound {
            from_layout_hash: manifest.from_layout_hash.clone(),
            to_layout_hash: manifest.to_layout_hash.clone(),
            migration_id: manifest.migration_id.clone(),
        }),
    }
}

/// Name of the snapshot file a migration writes before it changes the primary:
/// the manifest's reference, or `primary_before_{migration_id}`.
pub open spec fn spec_snapshot_ref_name(manifest: MigrationManifest) -> Seq<char> {
    match manifest.version_scope.primary_snapshot_ref {
        Some(r) => r@,
        None => "primary_before_"@ + manifest.migration_id@,
    }
}

pub fn snapshot_ref_name(manifest: &MigrationManifest) -> (r: String)
    ensures
        r@ == spec_snapshot_ref_name(*manifest),
{
    match &manifest.version_scope.primary_snapshot_ref {
        Some(r) => r.clone(),
        None => {
            let mut s = "primary_before_".to_owned();
            s.append(manifest.migration_id.as_str());
            s
        },
    }
}

/// The snapshot file's content: every row as its key and the hex of its bytes.
pub fn snapshot_entries(rows: &Vec<(String, Vec<u8>)>) -> (r: Vec<(String, String)>)
    ensures
        r@.len() == rows@.len(),
        forall|i: int| 0 <= i < rows@.len() ==> {
            &&& (#[trigger] r@[i]).0@ == rows@[i].0@
            &&& r@[i].1@ == spec_hex(rows@[i].1@)
        },
{
    let mut out: Vec<(String, String)> = Vec::new();
    let mut i: usize = 0;
    while i < rows.len()
        invariant
            i <= rows@.len(),
            out@.len() == i,
            forall|j: int| 0 <= j < i ==> {
                &&& (#[trigger] out@[j]).0@ == rows@[j].0@
                &&& out@[j].1@ == spec_hex(rows@[j].1@)
            },
        decreases rows@.len() - i,
    {
        let key = rows[i].0.clone();
        let hex = hex_encode(rows[i].1.as_slice());
        out.push((key, hex));
        i = i + 1;
    }
    out
}

/// The chain of a table that has never migrated, in `migration_dir`.
pub open spec fn is_initial_chain(c: TableMigrationChain, migration_dir: Seq<char>, table: Seq<char>, d: DurabilityMode) -> bool {
    &&& c.table@ == table
    &&& c.dir@ == spec_table_chain_dir(migration_dir, table)
    &&& is_initial_index(c.index, table)
    &&& c.manifests@.len() == 0
    &&& c.durability == d
}

fn initial_chain(migration_dir: &str, table: &str, durability: DurabilityMode) -> (r: TableMigrationChain)
    ensures
        is_initial_chain(r, migration_dir@, table@, durability),
{
    TableMigrationChain {
        table: table.to_owned(),
        dir: table_chain_dir(migration_dir, table),
        index: initial_chain_index(table),
        manifests: Vec::new(),
        durability,
    }
}

pub open spec fn spec_migration_path(db_dir: Seq<char>, db_name: Seq<char>) -> Seq<char> {
    spec_path_join(db_dir, spec_migration_dir_name(db_name))
}

impl DbMigrationIndex {
    /// `{db_dir}/{db_name}.migration`
    pub fn migration_path(db_dir: &str, db_name: &str) -> (r: String)
        ensures
            r@ == spec_migration_path(db_dir@, db_name@),
    {
        let name = crate::migration::types::migration_dir_name(db_name);
        path_join(db_dir, name.as_str())
    }

    /// The index of a database that has no migration directory yet: every
    /// registered table at version 1, with an empty chain.
    pub fn empty(dir: String, db_name: &str, tables: &Vec<String>, durability: DurabilityMode) -> (r: Self)
        ensures
            r.dir == dir,
            r.db_name@ == db_name@,
            r.durability == durability,
            r.root.index_version == MIGRATION_INDEX_VERSION,
            r.root.db_name@ == db_name@,
            forall|k: int| 0 <= k < tables@.len() ==> {
                &&& assoc_get(r.tables@, #[trigger] tables@[k]@) matches Some(c)
                &&& is_initial_chain(c, dir@, tables@[k]@, durability)
                &&& assoc_get(r.root.tables@, tables@[k]@) matches Some(s)
                &&& is_initial_summary(s, tables@[k]@)
            },
            forall|name: Seq<char>| #[trigger] assoc_index(r.tables@, name) >= 0 ==>
                exists|k: int| 0 <= k < tables@.len() && tables@[k]@ == name,
    {
        let mut table_map: Vec<(String, TableMigrationChain)> = Vec::new();
        let mut summaries: Vec<(String, TableChainSummary)> = Vec::new();
        let mut i: usize = 0;
        while i < tables.len()
            invariant
                i <= tables@.len(),
                forall|k: int| 0 <= k < i ==> {
                    &&& assoc_get(table_map@, #[trigger] tables@[k]@) matches Some(c)
                    &&& is_initial_chain(c, dir@, tables@[k]@, durability)
                    &&& assoc_get(summaries@, tables@[k]@) matches Some(s)
                    &&& is_initial_summary(s, tables@[k]@)
                },
                forall|name: Seq<char>| #[trigger] assoc_index(table_map@, name) >= 0 ==>
                    exists|k: int| 0 <= k < i && tables@[k]@ == name,
            decreases tables@.len() - i,
        {
            let t = &tables[i];
            let ghost before_map = table_map@;
            let ghost before_sum = summaries@;
            let summary = TableChainSummary {
                schema_id: t.clone(),
                current_version: 1,
                initial_version: 1,
            };
            let ghost sv = summary;
            let k1 = t.clone();
            let ghost kk1 = k1;
            assoc_upsert(&mut summaries, k1, summary);
            let chain = initial_chain(dir.as_str(), t.as_str(), durability);
            let ghost cv = chain;
            let k2 = t.clone();
            let ghost kk2 = k2;
            assoc_upsert(&mut table_map, k2, chain);
            proof {
                assert forall|k: int| 0 <= k < i + 1 implies {
                    &&& assoc_get(table_map@, #[trigger] tables@[k]@) matches Some(c)
                    &&& is_initial_chain(c, dir@, tables@[k]@, durability)
                    &&& assoc_get(summaries@, tables@[k]@) matches Some(s)
                    &&& is_initial_summary(s, tables@[k]@)
                } by {
                    lemma_upsert_get(before_map, table_map@, kk2, cv, tables@[k]@);
                    lemma_upsert_get(before_sum, summaries@, kk1, sv, tables@[k]@);
                }
                assert forall|name: Seq<char>| #[trigger] assoc_index(table_map@, name) >= 0 implies
                    exists|k: int| 0 <= k < i + 1 && tables@[k]@ == name by {
                    lemma_upsert_get(before_map, table_map@, kk2, cv, name);
                    lemma_assoc_index(table_map@, name);
                    lemma_assoc_index(before_map, name);
                    if name != tables@[i as int]@ {
                        assert(assoc_get(before_map, name) is Some);
                        assert(assoc_index(before_map, name) >= 0);
                    }
                }
            }
            i = i + 1;
        }
        DbMigrationIndex {
            dir,
            db_name: db_name.to_owned(),
            root: DbMigrationRootIndex {
                index_version: MIGRATION_INDEX_VERSION,
                db_name: db_name.to_owned(),
                tables: summaries,
            },
            tables: table_map,
            durability,
        }
    }

    /// Adds an initial chain for `table` unless it has one, and makes the
    /// root record a summary for it.
    pub fn ensure_table_entry(&mut self, table: &str)
        ensures
            final(self).dir == old(self).dir,
            final(self).durability == old(self).durability,
            assoc_index(old(self).tables@, table@) >= 0 ==> final(self).tables == old(self).tables,
            assoc_index(old(self).tables@, table@) == -1 ==> {
                &&& assoc_get(final(self).tables@, table@) matches Some(c)
                &&& is_initial_chain(c, old(self).dir@, table@, old(self).durability)
                &&& assoc_get(final(self).root.tables@, table@) matches Some(s)
                &&& is_initial_summary(s, table@)
            },
            forall|other: Seq<char>| other != table@ ==>
                assoc_get(#[trigger] final(self).tables@, other) == assoc_get(old(self).tables@, other),
    {
        match assoc_find(&self.tables, table) {
            Some(_) => {},
            None => {
                let ghost before = self.tables@;
                let chain = initial_chain(self.dir.as_str(), table, self.durability);
                let ghost c = chain;
                let tkey = table.to_owned();
                let ghost tk = tkey;
                assoc_upsert(&mut self.tables, tkey, chain);
                let ghost before_root = self.root.tables@;
                let summary = TableChainSummary {
                    schema_id: table.to_owned(),
                    current_version: 1,
                    initial_version: 1,
                };
                let ghost s = summary;
                let key = table.to_owned();
                let ghost k = key;
                assoc_upsert(&mut self.root.tables, key, summary);
                proof {
                    lemma_upsert_get(before_root, self.root.tables@, k, s, table@);
                    assert forall|other: Seq<char>| other != table@ implies
                        assoc_get(#[trigger] self.tables@, other) == assoc_get(before, other) by {
                        lemma_upsert_get(before, self.tables@, tk, c, other);
                    }
                    lemma_upsert_get(before, self.tables@, tk, c, table@);
                }
            },
        }
    }

    /// The chain of `table`.
    pub fn table_chain(&self, table: &str) -> (r: Result<&TableMigrationChain>)
        ensures
            match r {
                Ok(c) => assoc_get(self.tables@, table@) == Some(*c),
                Err(e) => assoc_index(self.tables@, table@) == -1
                    && (e matches ClError::MigrationError(m) && m@ == "table chain '"@ + table@ + "' not found"@),
            },
    {
        proof {
            lemma_assoc_index(self.tables@, table@);
        }
        match assoc_find(&self.tables, table) {
            Some(i) => Ok(&self.tables[i].1),
            None => {
                let mut msg = "table chain '".to_owned();
                msg.append(table);
                msg.append("' not found");
                Err(ClError::MigrationError(msg))
            },
        }
    }

    /// Brings the root summaries in line with the chains: every chain's
    /// summary is recorded under its table name.
    pub fn sync_root_summaries(&mut self)
        ensures
            final(self).tables == old(self).tables,
            final(self).dir == old(self).dir,
            final(self).db_name == old(self).db_name,
            final(self).durability == old(self).durability,
            final(self).root.index_version == old(self).root.index_version,
            final(self).root.db_name == old(self).root.db_name,
            forall|k: int| 0 <= k < final(self).tables@.len() ==> {
                let (name, c) = #[trigger] final(self).tables@[k];
                &&& assoc_get(final(self).root.tables@, name@) matches Some(s)
                &&& s.schema_id@ == c.index.schema_id@
                &&& s.current_version == c.index.current_version
                &&& s.initial_version == c.index.initial_version
            } || exists|j: int| k < j < final(self).tables@.len() && final(self).tables@[j].0@ == final(self).tables@[k].0@,
    {
        let n = self.tables.len();
        let mut i: usize = 0;
        while i < n
            invariant
                n == self.tables@.len(),
                i <= n,
                self.tables == old(self).tables,
                self.dir == old(self).dir,
                self.db_name == old(self).db_name,
                self.durability == old(self).durability,
                self.root.index_version == old(self).root.index_version,
                self.root.db_name == old(self).root.db_name,
                forall|k: int| 0 <= k < i ==> {
                    let (name, c) = #[trigger] self.tables@[k];
                    &&& assoc_get(self.root.tables@, name@) matches Some(s)
                    &&& s.schema_id@ == c.index.schema_id@
                    &&& s.current_version == c.index.current_version
                    &&& s.initial_version == c.index.initial_version
                } || exists|j: int| k < j < i && self.tables@[j].0@ == self.tables@[k].0@,
            decreases n - i,
        {
            let name = self.tables[i].0.clone();
            let summary = self.tables[i].1.summary();
            let ghost before = self.root.tables@;
            let ghost nm = name;
            let ghost sm = summary;
            assoc_upsert(&mut self.root.tables, name, summary);
            proof {
                assert forall|k: int| 0 <= k < i + 1 implies {
                    let (name, c) = #[trigger] self.tables@[k];
                    &&& assoc_get(self.root.tables@, name@) matches Some(s)
                    &&& s.schema_id@ == c.index.schema_id@
                    &&& s.current_version == c.index.current_version
                    &&& s.initial_version == c.index.initial_version
                } || exists|j: int| k < j < i + 1 && self.tables@[j].0@ == self.tables@[k].0@ by {
                    lemma_upsert_get(before, self.root.tables@, nm, sm, self.tables@[k].0@);
                    if k < i && self.tables@[k].0@ == nm@ {
                        assert(self.tables@[i as int].0@ == self.tables@[k].0@);
                    }
                }
            }
            i = i + 1;
        }
    }

    /// Records a new migration at the end of `table`'s chain.
    pub fn record_append(&mut self, table: &str, manifest: MigrationManifest) -> (r: Result<()>)
        requires
            forall|j: int| 0 <= j < old(self).tables@.len() ==> (#[trigger] old(self).tables@[j]).1.index.chain@.len() < usize::MAX,
        ensures
            final(self).dir == old(self).dir,
            final(self).root == old(self).root,
            match r {
                Ok(()) => {
                    let i = assoc_index(old(self).tables@, table@);
                    &&& i >= 0
                    &&& final(self).tables@.len() == old(self).tables@.len()
                    &&& forall|j: int| 0 <= j < old(self).tables@.len() && j != i ==>
                        #[trigger] final(self).tables@[j] == old(self).tables@[j]
                    &&& final(self).tables@[i].0 == old(self).tables@[i].0
                    &&& final(self).tables@[i].1.index.current_version == manifest.to.schema_version
                    &&& final(self).tables@[i].1.manifests@ == old(self).tables@[i].1.manifests@.push(manifest)
                    &&& final(self).tables@[i].1.index.chain@.len() == old(self).tables@[i].1.index.chain@.len() + 1
                },
                Err(e) => final(self).tables == old(self).tables && assoc_index(old(self).tables@, table@) == -1
                    && (e matches ClError::MigrationError(m) && m@ == "table chain '"@ + table@ + "' not found"@),
            },
    {
        let i = match assoc_find(&self.tables, table) {
            Some(i) => i,
            None => {
                let mut msg = "table chain '".to_owned();
                msg.append(table);
                msg.append("' not found");
                return Err(ClError::MigrationError(msg));
            },
        };
        let (name, mut chain) = self.tables.remove(i);
        chain.record_append(manifest);
        self.tables.insert(i, (name, chain));
        assert forall|j: int| 0 <= j < old(self).tables@.len() && j != i implies
            #[trigger] self.tables@[j] == old(self).tables@[j] by {
            if j < i {
            } else {
            }
        }
        Ok(())
    }
}

// ── loading ──────────────────────────────────────────────────────────────────

/// Whether root index bytes are readable and in the single-root format, and
/// so are converted to one chain per table before they are loaded.
pub fn needs_legacy_upgrade(data: &[u8]) -> (r: bool)
    ensures
        r == (!spec_corrupt_index(data@)
            && !json_member_present(decode_utf8(data@), "index_version"@)
            && json_member_present(decode_utf8(data@), "current_schema"@)),
{
    if is_corrupt_index_bytes(data) {
        return false;
    }
    match utf8_decode(data) {
        Some(text) => {
            proof { encode_utf8_decode_utf8(text@); }
            is_legacy_root_index(text.as_str())
        },
        None => false,
    }
}

/// A migration directory needs a root index or a `tables` directory; one
/// with neither is of a format older than any that can be read.
pub fn check_root_presence(root_exists: bool, tables_dir_exists: bool, root_path: &str) -> (r: Result<()>)
    ensures
        r is Ok <==> (root_exists || tables_dir_exists),
        r matches Err(e) ==> (e matches ClError::LegacyMigrationFormat { path } && path@ == root_path@),
{
    if !root_exists && !tables_dir_exists {
        return Err(ClError::LegacyMigrationFormat { path: root_path.to_owned() });
    }
    Ok(())
}

/// A parsed root index is accepted only in the current index version.
pub fn accept_root_index(parsed: DbMigrationRootIndex, root_path: &str) -> (r: Result<DbMigrationRootIndex>)
    ensures
        parsed.index_version == MIGRATION_INDEX_VERSION ==> r == Ok::<DbMigrationRootIndex, ClError>(parsed),
        parsed.index_version != MIGRATION_INDEX_VERSION ==>
            (r matches Err(ClError::LegacyMigrationFormat { path }) && path@ == root_path@),
{
    if parsed.index_version != MIGRATION_INDEX_VERSION {
        return Err(ClError::LegacyMigrationFormat { path: root_path.to_owned() });
    }
    Ok(parsed)
}

/// The root index loaded, or a fresh one with no tables when there was none
/// (or it was corrupt).
pub fn root_or_fresh(root: Option<DbMigrationRootIndex>, db_name: &str) -> (r: DbMigrationRootIndex)
    ensures
        root matches Some(x) ==> r == x,
        root is None ==> r.index_version == MIGRATION_INDEX_VERSION && r.db_name@ == db_name@ && r.tables@.len() == 0,
{
    match root {
        Some(x) => x,
        None => DbMigrationRootIndex {
            index_version: MIGRATION_INDEX_VERSION,
            db_name: db_name.to_owned(),
            tables: Vec::new(),
        },
    }
}

/// A table's chain index loaded, or the initial one when there was none (or
/// it was corrupt).
pub fn table_index_or_initial(index: Option<TableChainIndex>, table: &str) -> (r: TableChainIndex)
    ensures
        index matches Some(x) ==> r == x,
        index is None ==> is_initial_index(r, table@),
{
    match index {
        Some(x) => x,
        None => initial_chain_index(table),
    }
}

} // verus!
