//! Converting a migration directory of the single-root format (one chain
//! for the whole database) into one chain per table.
//!
//! The caller reads the old files and performs the moves and writes; this
//! module decides the order of the steps, the schema version each step gives
//! its table, the converted manifests and the new indexes.

use vstd::prelude::*;

use crate::assoc::{assoc_find, assoc_get, assoc_has, assoc_index, assoc_upsert, lemma_assoc_index, lemma_upsert_get};
use crate::json::{json_has_member, json_member_present};
use crate::migration::chain::{initial_chain_index, is_initial_index};
use crate::migration::types::{
    DbMigrationRootIndex, MigrationIndexEntry, MigrationKind, MigrationManifest, SchemaRef,
    TableChainIndex, TableChainSummary, TargetConflictPolicy, VersionScope, MIGRATION_INDEX_VERSION,
};
use crate::text::{spec_decimal, str_eq, u64_to_decimal};
use crate::units::{ClError, Result};

verus! {

/// The root `index.json` of the single-root format.
#[derive(Debug)]
pub struct LegacyRootIndex {
    pub db_name: String,
    pub current_schema: String,
    pub initial_schema: String,
    pub chain: Vec<MigrationIndexEntry>,
}

#[derive(Debug, Clone)]
pub struct LegacySchemaRef {
    pub db: String,
    pub table: String,
    pub schema: String,
}

#[derive(Debug, Clone)]
pub struct LegacyVersionScope {
    pub backup_versions_from: u64,
    pub backup_versions_to: u64,
    pub primary_snapshot_ref: Option<String>,
}

/// The description of one step, as the single-root layout stored it.
#[derive(Debug, Clone)]
pub struct LegacyManifest {
    pub migration_id: String,
    pub parent_migration_id: Option<String>,
    pub timestamp: i64,
    pub kind: String,
    pub from: LegacySchemaRef,
    pub to: LegacySchemaRef,
    pub version_scope: LegacyVersionScope,
    pub decoder: String,
    pub key_conflict_policy: Option<String>,
    pub target_conflict_policy: Option<String>,
}

/// A root index is of the single-root format when it is JSON with a
/// `current_schema` member and no `index_version` member.
pub fn is_legacy_root_index(data: &str) -> (r: bool)
    ensures
        r == (!json_member_present(data@, "index_version"@) && json_member_present(data@, "current_schema"@)),
{
    !json_has_member(data, "index_version") && json_has_member(data, "current_schema")
}

// ── ordering the steps ───────────────────────────────────────────────────────

/// Where a stable insertion by `order` puts `e`: after every entry whose
/// order is not greater.
pub open spec fn order_insert_pos(s: Seq<MigrationIndexEntry>, e: MigrationIndexEntry) -> int
    decreases s.len(),
{
    if s.len() == 0 {
        0
    } else if e.order < s[0].order {
        0
    } else {
        1 + order_insert_pos(s.drop_first(), e)
    }
}

/// The entries sorted by `order`, equal orders keeping their relative order
/// (what a stable sort by `order` gives).
pub open spec fn sort_by_order(s: Seq<MigrationIndexEntry>) -> Seq<MigrationIndexEntry>
    decreases s.len(),
{
    if s.len() == 0 {
        Seq::empty()
    } else {
        let r = sort_by_order(s.drop_last());
        r.insert(order_insert_pos(r, s.last()), s.last())
    }
}

pub open spec fn ordered(s: Seq<MigrationIndexEntry>) -> bool {
    forall|i: int, j: int| 0 <= i < j < s.len() ==> (#[trigger] s[i]).order <= (#[trigger] s[j]).order
}

proof fn lemma_order_insert_pos(s: Seq<MigrationIndexEntry>, e: MigrationIndexEntry)
    ensures
        0 <= order_insert_pos(s, e) <= s.len(),
        forall|j: int| 0 <= j < order_insert_pos(s, e) ==> (#[trigger] s[j]).order <= e.order,
        order_insert_pos(s, e) < s.len() ==> e.order < s[order_insert_pos(s, e)].order,
    decreases s.len(),
{
    if s.len() > 0 && e.order >= s[0].order {
        lemma_order_insert_pos(s.drop_first(), e);
        assert forall|j: int| 0 <= j < order_insert_pos(s, e) implies (#[trigger] s[j]).order <= e.order by {
            if j > 0 {
                assert(s[j] == s.drop_first()[j - 1]);
            }
        }
    }
}

proof fn lemma_insert_keeps_order(s: Seq<MigrationIndexEntry>, e: MigrationIndexEntry)
    requires
        ordered(s),
    ensures
        ordered(s.insert(order_insert_pos(s, e), e)),
        s.insert(order_insert_pos(s, e), e).to_multiset() =~= s.to_multiset().insert(e),
        s.insert(order_insert_pos(s, e), e).len() == s.len() + 1,
{
    lemma_order_insert_pos(s, e);
    let p = order_insert_pos(s, e);
    let t = s.insert(p, e);
    s.insert_ensures(p, e);
    assert forall|i: int, j: int| 0 <= i < j < t.len() implies (#[trigger] t[i]).order <= (#[trigger] t[j]).order by {
        if i < p && j == p {
        } else if i == p && j > p {
            assert(t[j] == s[j - 1]);
            if j - 1 > p {
                assert(s[p].order <= s[j - 1].order);
            }
        } else if i < p && j < p {
        } else if i < p && j > p {
            assert(t[j] == s[j - 1]);
        } else {
            assert(t[i] == s[i - 1] && t[j] == s[j - 1]);
        }
    }
    assert(t.remove(p) =~= s);
    broadcast use vstd::seq_lib::group_to_multiset_ensures;
    assert(t.remove(p).to_multiset() =~= t.to_multiset().remove(e));
    assert(t.contains(e)) by {
        assert(t[p] == e);
    }
    assert(t.to_multiset().count(e) > 0);
}

/// Sorting the entries by order keeps every entry, as often as it occurs, and
/// leaves the orders non-decreasing.
pub proof fn law_sorted_entries_are_ordered_permutation(s: Seq<MigrationIndexEntry>)
    ensures
        ordered(sort_by_order(s)),
        sort_by_order(s).to_multiset() =~= s.to_multiset(),
        sort_by_order(s).len() == s.len(),
    decreases s.len(),
{
    broadcast use vstd::seq_lib::group_to_multiset_ensures;
    if s.len() > 0 {
        law_sorted_entries_are_ordered_permutation(s.drop_last());
        lemma_insert_keeps_order(sort_by_order(s.drop_last()), s.last());
        assert(s.drop_last().push(s.last()) =~= s);
    } else {
        assert(sort_by_order(s).to_multiset() =~= s.to_multiset());
    }
}

fn find_order_pos(out: &Vec<MigrationIndexEntry>, e: &MigrationIndexEntry) -> (r: usize)
    ensures
        r as int == order_insert_pos(out@, *e),
{
    let mut i: usize = 0;
    assert(out@.skip(0) =~= out@);
    while i < out.len() && !(e.order < out[i].order)
        invariant
            i <= out@.len(),
            order_insert_pos(out@, *e) == i + order_insert_pos(out@.skip(i as int), *e),
        decreases out@.len() - i,
    {
        assert(out@.skip(i as int).drop_first() =~= out@.skip(i + 1));
        assert(out@.skip(i as int)[0] == out@[i as int]);
        i = i + 1;
    }
    if i < out.len() {
        assert(out@.skip(i as int)[0] == out@[i as int]);
    }
    i
}

/// The chain entries in step order: sorted by `order`, ties kept in the
/// order they were listed.
pub fn sort_chain_entries(entries: Vec<MigrationIndexEntry>) -> (r: Vec<MigrationIndexEntry>)
    ensures
        r@ == sort_by_order(entries@),
{
    let mut out: Vec<MigrationIndexEntry> = Vec::new();
    let mut i: usize = 0;
    while i < entries.len()
        invariant
            i <= entries@.len(),
            out@ == sort_by_order(entries@.take(i as int)),
        decreases entries@.len() - i,
    {
        let e = MigrationIndexEntry { migration_id: entries[i].migration_id.clone(), order: entries[i].order };
        assert(e == entries@[i as int]);
        let p = find_order_pos(&out, &e);
        proof {
            lemma_order_insert_pos(out@, e);
            let t = entries@.take(i + 1);
            assert(t.drop_last() =~= entries@.take(i as int));
            assert(t.last() == entries@[i as int]);
        }
        out.insert(p, e);
        i = i + 1;
    }
    assert(entries@.take(entries@.len() as int) =~= entries@);
    out
}

// ── converting a manifest ────────────────────────────────────────────────────

pub open spec fn spec_legacy_kind(kind: Seq<char>) -> Option<MigrationKind> {
    if kind == "SameDbRemapTable"@ {
        Some(MigrationKind::InPlaceEvolve)
    } else if kind == "CrossDbMove"@ {
        Some(MigrationKind::DataTransfer)
    } else if kind == "ExternalImport"@ {
        Some(MigrationKind::ExternalImport)
    } else {
        None
    }
}

/// The migration kind a legacy kind name stands for.
pub fn legacy_kind(kind: &str) -> (r: Result<MigrationKind>)
    ensures
        match spec_legacy_kind(kind@) {
            Some(k) => r == Ok::<MigrationKind, ClError>(k),
            None => r matches Err(ClError::MigrationError(m)) && m@ == "unknown legacy migration kind: "@ + kind@,
        },
{
    if str_eq(kind, "SameDbRemapTable") {
        Ok(MigrationKind::InPlaceEvolve)
    } else if str_eq(kind, "CrossDbMove") {
        Ok(MigrationKind::DataTransfer)
    } else if str_eq(kind, "ExternalImport") {
        Ok(MigrationKind::ExternalImport)
    } else {
        let mut m = "unknown legacy migration kind: ".to_owned();
        m.append(kind);
        Err(ClError::MigrationError(m))
    }
}

pub open spec fn spec_conflict_policy(s: Seq<char>) -> Option<TargetConflictPolicy> {
    if s == "Fail"@ {
        Some(TargetConflictPolicy::Fail)
    } else if s == "Skip"@ {
        Some(TargetConflictPolicy::Skip)
    } else if s == "Overwrite"@ {
        Some(TargetConflictPolicy::Overwrite)
    } else if s == "OverwriteIfCompatible"@ {
        Some(TargetConflictPolicy::OverwriteIfCompatible)
    } else {
        None
    }
}

/// The conflict policy a legacy policy name stands for.
pub fn parse_conflict_policy(s: &str) -> (r: Result<TargetConflictPolicy>)
    ensures
        match spec_conflict_policy(s@) {
            Some(p) => r == Ok::<TargetConflictPolicy, ClError>(p),
            None => r matches Err(ClError::MigrationError(m)) && m@ == "unknown legacy conflict policy: "@ + s@,
        },
{
    if str_eq(s, "Fail") {
        Ok(TargetConflictPolicy::Fail)
    } else if str_eq(s, "Skip") {
        Ok(TargetConflictPolicy::Skip)
    } else if str_eq(s, "Overwrite") {
        Ok(TargetConflictPolicy::Overwrite)
    } else if str_eq(s, "OverwriteIfCompatible") {
        Ok(TargetConflictPolicy::OverwriteIfCompatible)
    } else {
        let mut m = "unknown legacy conflict policy: ".to_owned();
        m.append(s);
        Err(ClError::MigrationError(m))
    }
}

/// The policy name a legacy manifest gives: its target policy, else its key
/// policy.
pub open spec fn legacy_policy_name(m: LegacyManifest) -> Option<String> {
    match m.target_conflict_policy {
        Some(p) => Some(p),
        None => m.key_conflict_policy,
    }
}

/// The layout hash of a stored layout, or `unknown-v{version}` when there is
/// none to read.
pub open spec fn spec_layout_hash_or_unknown(stored: Option<Seq<char>>, version: u32) -> Seq<char> {
    match stored {
        Some(h) => h,
        None => "unknown-v"@ + spec_decimal(version as nat),
    }
}

pub fn layout_hash_or_unknown(stored: Option<String>, version: u32) -> (r: String)
    ensures
        r@ == spec_layout_hash_or_unknown(match stored { Some(h) => Some(h@), None => None::<Seq<char>> }, version),
{
    match stored {
        Some(h) => h,
        None => {
            let mut s = "unknown-v".to_owned();
            let d = u64_to_decimal(version as u64);
            s.append(d.as_str());
            s
        },
    }
}

/// The manifest of a legacy step in the per-table format: the step takes its
/// table from `from_version` to `to_version`, whose layouts have the hashes
/// given; the policy is the legacy target (else key) policy, `Fail` when
/// neither is set. An unknown kind or policy name is an error.
pub fn convert_manifest(legacy: &LegacyManifest, from_version: u32, to_version: u32, from_layout_hash: String, to_layout_hash: String) -> (r: Result<MigrationManifest>)
    ensures
        spec_legacy_kind(legacy.kind@) is None ==> (r matches Err(ClError::MigrationError(m))
            && m@ == "unknown legacy migration kind: "@ + legacy.kind@),
        spec_legacy_kind(legacy.kind@) is Some ==> match legacy_policy_name(*legacy) {
            Some(p) => spec_conflict_policy(p@) is None ==> (r matches Err(ClError::MigrationError(m))
                && m@ == "unknown legacy conflict policy: "@ + p@),
            None => true,
        },
        r is Ok <==> (spec_legacy_kind(legacy.kind@) is Some && match legacy_policy_name(*legacy) {
            Some(p) => spec_conflict_policy(p@) is Some,
            None => true,
        }),
        r matches Ok(m) ==> {
            &&& Some(m.kind) == spec_legacy_kind(legacy.kind@)
            &&& m.target_conflict_policy == match legacy_policy_name(*legacy) {
                Some(p) => spec_conflict_policy(p@).unwrap(),
                None => TargetConflictPolicy::Fail,
            }
            &&& m.migration_id == legacy.migration_id
            &&& m.parent_migration_id == legacy.parent_migration_id
            &&& m.timestamp == legacy.timestamp
            &&& m.from.db == legacy.from.db && m.from.table == legacy.from.table
            &&& m.from.schema_id == legacy.from.table && m.from.schema_version == from_version
            &&& m.to.db == legacy.to.db && m.to.table == legacy.to.table
            &&& m.to.schema_id == legacy.to.table && m.to.schema_version == to_version
            &&& m.version_scope.backup_versions_from == legacy.version_scope.backup_versions_from
            &&& m.version_scope.backup_versions_to == legacy.version_scope.backup_versions_to
            &&& m.version_scope.scope_table == legacy.from.table
            &&& m.version_scope.primary_snapshot_ref == legacy.version_scope.primary_snapshot_ref
            &&& m.from_layout_hash == from_layout_hash
            &&& m.to_layout_hash == to_layout_hash
            &&& m.table_rename is None
            &&& m.field_diff is None
        },
{
    let kind = match legacy_kind(legacy.kind.as_str()) {
        Ok(k) => k,
        Err(e) => return Err(e),
    };
    let policy_name: Option<&String> = match &legacy.target_conflict_policy {
        Some(p) => Some(p),
        None => match &legacy.key_conflict_policy {
            Some(p) => Some(p),
            None => None,
        },
    };
    let policy = match policy_name {
        Some(p) => match parse_conflict_policy(p.as_str()) {
            Ok(x) => x,
            Err(e) => return Err(e),
        },
        None => TargetConflictPolicy::Fail,
    };
    Ok(MigrationManifest {
        migration_id: legacy.migration_id.clone(),
        parent_migration_id: legacy.parent_migration_id.clone(),
        timestamp: legacy.timestamp,
        kind,
        from: SchemaRef {
            db: legacy.from.db.clone(),
            table: legacy.from.table.clone(),
            schema_id: legacy.from.table.clone(),
            schema_version: from_version,
        },
        to: SchemaRef {
            db: legacy.to.db.clone(),
            table: legacy.to.table.clone(),
            schema_id: legacy.to.table.clone(),
            schema_version: to_version,
        },
        version_scope: VersionScope {
            backup_versions_from: legacy.version_scope.backup_versions_from,
            backup_versions_to: legacy.version_scope.backup_versions_to,
            scope_table: legacy.from.table.clone(),
            primary_snapshot_ref: legacy.version_scope.primary_snapshot_ref.clone(),
        },
        from_layout_hash,
        to_layout_hash,
        target_conflict_policy: policy,
        table_rename: None,
        field_diff: None,
    })
}

// ── the conversion's state ──────────────────────────────────────────────────

pub open spec fn string_views(v: Seq<String>) -> Seq<Seq<char>> {
    v.map_values(|s: String| s@)
}

/// The state of a conversion: the schema version each table has reached, and
/// the new chain index of each registered table.
#[derive(Debug)]
pub struct LegacyChainUpgrade {
    pub table_versions: Vec<(String, u32)>,
    pub table_chains: Vec<(String, TableChainIndex)>,
}

/// Every registered table's new chain stands at the version its steps have
/// reached so far.
pub open spec fn chains_at_reached_versions(s: LegacyChainUpgrade) -> bool {
    forall|t: Seq<char>| #[trigger] assoc_has(s.table_chains@, t) ==>
        assoc_get(s.table_chains@, t).unwrap().current_version == s.spec_version_of(t)
}

/// A conversion starts with every chain at the version its table reached
/// (1), and a step on a registered table (`begin_entry`, then `finish_entry`
/// succeeding with the version `begin_entry` gave) keeps every chain at the
/// version its table reached.
pub proof fn law_chains_follow_reached_versions(
    registered: Seq<Seq<char>>,
    start: LegacyChainUpgrade,
    before: LegacyChainUpgrade,
    mid: LegacyChainUpgrade,
    after: LegacyChainUpgrade,
    table: Seq<char>,
    versions: (u32, u32),
)
    requires
        forall|t: Seq<char>| #[trigger] assoc_get(start.table_versions@, t)
            == (if registered.contains(t) { Some(1u32) } else { None }),
        forall|t: Seq<char>| #[trigger] assoc_has(start.table_chains@, t) <==> registered.contains(t),
        forall|t: Seq<char>| registered.contains(t) ==> is_initial_index(#[trigger] assoc_get(start.table_chains@, t).unwrap(), t),
        chains_at_reached_versions(before),
        versions.0 == before.spec_version_of(table),
        versions.1 == versions.0 + 1,
        mid.spec_version_of(table) == versions.1,
        forall|t: Seq<char>| t != table ==> #[trigger] mid.spec_version_of(t) == before.spec_version_of(t),
        mid.table_chains == before.table_chains,
        assoc_has(mid.table_chains@, table),
        after.table_versions == mid.table_versions,
        assoc_has(after.table_chains@, table),
        assoc_get(after.table_chains@, table).unwrap().current_version == versions.1,
        forall|t: Seq<char>| t != table ==> #[trigger] assoc_get(after.table_chains@, t) == assoc_get(mid.table_chains@, t),
        forall|t: Seq<char>| #[trigger] assoc_has(after.table_chains@, t) == assoc_has(mid.table_chains@, t),
    ensures
        chains_at_reached_versions(start),
        chains_at_reached_versions(after),
{
    assert forall|t: Seq<char>| #[trigger] assoc_has(start.table_chains@, t) implies
        assoc_get(start.table_chains@, t).unwrap().current_version == start.spec_version_of(t) by {
        assert(registered.contains(t));
        assert(is_initial_index(assoc_get(start.table_chains@, t).unwrap(), t));
        assert(assoc_get(start.table_versions@, t) == Some(1u32));
    }
    assert forall|t: Seq<char>| #[trigger] assoc_has(after.table_chains@, t) implies
        assoc_get(after.table_chains@, t).unwrap().current_version == after.spec_version_of(t) by {
        assert(after.spec_version_of(t) == mid.spec_version_of(t));
        if t != table {
            assert(assoc_has(before.table_chains@, t));
            assert(assoc_get(after.table_chains@, t) == assoc_get(before.table_chains@, t));
        }
    }
}

impl LegacyChainUpgrade {
    pub open spec fn spec_version_of(&self, table: Seq<char>) -> u32 {
        match assoc_get(self.table_versions@, table) {
            Some(v) => v,
            None => 1,
        }
    }

    /// The start of a conversion: every registered table at version 1 with
    /// an empty chain.
    pub fn new(registered_tables: &Vec<String>) -> (r: Self)
        ensures
            forall|t: Seq<char>| #[trigger] assoc_get(r.table_versions@, t)
                == (if string_views(registered_tables@).contains(t) { Some(1u32) } else { None }),
            forall|t: Seq<char>| #[trigger] assoc_has(r.table_chains@, t) <==> string_views(registered_tables@).contains(t),
            forall|t: Seq<char>| string_views(registered_tables@).contains(t) ==>
                is_initial_index(#[trigger] assoc_get(r.table_chains@, t).unwrap(), t),
    {
        let mut table_versions: Vec<(String, u32)> = Vec::new();
        let mut table_chains: Vec<(String, TableChainIndex)> = Vec::new();
        let ghost names = string_views(registered_tables@);
        let mut i: usize = 0;
        while i < registered_tables.len()
            invariant
                i <= registered_tables@.len(),
                names == string_views(registered_tables@),
                forall|t: Seq<char>| #[trigger] assoc_get(table_versions@, t)
                    == (if names.take(i as int).contains(t) { Some(1u32) } else { None }),
                forall|t: Seq<char>| #[trigger] assoc_has(table_chains@, t) <==> names.take(i as int).contains(t),
                forall|t: Seq<char>| names.take(i as int).contains(t) ==>
                    is_initial_index(#[trigger] assoc_get(table_chains@, t).unwrap(), t),
            decreases registered_tables@.len() - i,
        {
            let t = &registered_tables[i];
            let ghost tv = table_versions@;
            let ghost tc = table_chains@;
            assoc_upsert(&mut table_versions, t.clone(), 1u32);
            let ic = initial_chain_index(t.as_str());
            let ghost icv = ic;
            assoc_upsert(&mut table_chains, t.clone(), ic);
            proof {
                assert(names.take(i + 1) =~= names.take(i as int).push(t@));
                assert forall|u: Seq<char>| #[trigger] assoc_get(table_versions@, u)
                    == (if names.take(i + 1).contains(u) { Some(1u32) } else { None }) by {
                    lemma_upsert_get(tv, table_versions@, *t, 1u32, u);
                    lemma_push_contains(names.take(i as int), t@, u);
                }
                assert forall|u: Seq<char>| #[trigger] assoc_has(table_chains@, u) <==> names.take(i + 1).contains(u) by {
                    lemma_upsert_get(tc, table_chains@, *t, icv, u);
                    lemma_assoc_index(tc, u);
                    lemma_assoc_index(table_chains@, u);
                    lemma_push_contains(names.take(i as int), t@, u);
                }
                assert forall|u: Seq<char>| names.take(i + 1).contains(u) implies
                    is_initial_index(#[trigger] assoc_get(table_chains@, u).unwrap(), u) by {
                    lemma_upsert_get(tc, table_chains@, *t, icv, u);
                    lemma_push_contains(names.take(i as int), t@, u);
                }
            }
            i = i + 1;
        }
        assert(names.take(registered_tables@.len() as int) =~= names);
        LegacyChainUpgrade { table_versions, table_chains }
    }

    /// The schema version `table` has reached (1 before its first step).
    pub fn version_of(&self, table: &str) -> (r: u32)
        ensures
            r == self.spec_version_of(table@),
    {
        proof { lemma_assoc_index(self.table_versions@, table@); }
        match assoc_find(&self.table_versions, table) {
            Some(i) => self.table_versions[i].1,
            None => 1,
        }
    }

    /// Starts a step on `table`: it goes from the version it has reached to
    /// the next one, which it has reached from now on.
    pub fn begin_entry(&mut self, table: &str) -> (r: (u32, u32))
        requires
            old(self).spec_version_of(table@) < u32::MAX,
        ensures
            r.0 == old(self).spec_version_of(table@),
            r.1 == r.0 + 1,
            final(self).spec_version_of(table@) == r.1,
            forall|t: Seq<char>| t != table@ ==> #[trigger] final(self).spec_version_of(t) == old(self).spec_version_of(t),
            final(self).table_chains == old(self).table_chains,
    {
        let from = self.version_of(table);
        let to = from + 1;
        let ghost before = self.table_versions@;
        let key = table.to_owned();
        assoc_upsert(&mut self.table_versions, key, to);
        proof {
            assert forall|t: Seq<char>| t != table@ implies #[trigger] self.spec_version_of(t) == old(self).spec_version_of(t) by {
                lemma_upsert_get(before, self.table_versions@, key, to, t);
            }
            lemma_upsert_get(before, self.table_versions@, key, to, table@);
        }
        (from, to)
    }

    /// Records a step on `table` in its chain, which then stands at
    /// `to_version`; a table that is not registered is an error.
    pub fn finish_entry(&mut self, table: &str, entry: MigrationIndexEntry, to_version: u32) -> (r: Result<()>)
        ensures
            r is Err <==> !assoc_has(old(self).table_chains@, table@),
            r matches Err(e) ==> (e matches ClError::MigrationError(m)
                && m@ == "legacy migration targets unregistered table '"@ + table@ + "'"@),
            r is Err ==> final(self).table_chains == old(self).table_chains,
            final(self).table_versions == old(self).table_versions,
            r is Ok ==> {
                let c = assoc_get(old(self).table_chains@, table@).unwrap();
                let d = assoc_get(final(self).table_chains@, table@).unwrap();
                &&& assoc_has(final(self).table_chains@, table@)
                &&& d.schema_id == c.schema_id
                &&& d.initial_version == c.initial_version
                &&& d.current_version == to_version
                &&& d.chain@ == c.chain@.push(entry)
            },
            r is Ok ==> forall|t: Seq<char>| t != table@ ==>
                #[trigger] assoc_get(final(self).table_chains@, t) == assoc_get(old(self).table_chains@, t),
            forall|t: Seq<char>| #[trigger] assoc_has(final(self).table_chains@, t) == assoc_has(old(self).table_chains@, t),
    {
        proof { lemma_assoc_index(self.table_chains@, table@); }
        match assoc_find(&self.table_chains, table) {
            None => {
                let mut m = "legacy migration targets unregistered table '".to_owned();
                m.append(table);
                m.append("'");
                Err(ClError::MigrationError(m))
            },
            Some(i) => {
                let ghost before = self.table_chains@;
                let (k, mut c) = self.table_chains.remove(i);
                c.chain.push(entry);
                c.current_version = to_version;
                let ghost cc = c;
                self.table_chains.insert(i, (k, c));
                proof {
                    let after = self.table_chains@;
                    assert(after =~= before.update(i as int, (before[i as int].0, cc)));
                    lemma_upsert_get(before, after, before[i as int].0, cc, table@);
                    assert forall|t: Seq<char>| t != table@ implies
                        #[trigger] assoc_get(after, t) == assoc_get(before, t) by {
                        lemma_upsert_get(before, after, before[i as int].0, cc, t);
                    }
                    assert forall|t: Seq<char>| #[trigger] assoc_has(after, t) == assoc_has(before, t) by {
                        lemma_upsert_get(before, after, before[i as int].0, cc, t);
                        lemma_assoc_index(before, t);
                        lemma_assoc_index(after, t);
                    }
                }
                Ok(())
            },
        }
    }

    /// The new chain index of `table`, if it is registered.
    pub fn chain_of(&self, table: &str) -> (r: Option<&TableChainIndex>)
        ensures
            match assoc_get(self.table_chains@, table@) {
                Some(c) => r == Some(&c),
                None => r is None,
            },
    {
        proof { lemma_assoc_index(self.table_chains@, table@); }
        match assoc_find(&self.table_chains, table) {
            Some(i) => Some(&self.table_chains[i].1),
            None => None,
        }
    }

    /// The new root index: one summary per registered table, from its chain.
    pub fn root_index(&self, db_name: String, registered_tables: &Vec<String>) -> (r: DbMigrationRootIndex)
        requires
            forall|t: Seq<char>| string_views(registered_tables@).contains(t) ==> #[trigger] assoc_has(self.table_chains@, t),
        ensures
            r.index_version == MIGRATION_INDEX_VERSION,
            r.db_name == db_name,
            forall|t: Seq<char>| #[trigger] assoc_has(r.tables@, t) <==> string_views(registered_tables@).contains(t),
            forall|t: Seq<char>| string_views(registered_tables@).contains(t) ==> {
                let s = #[trigger] assoc_get(r.tables@, t).unwrap();
                let c = assoc_get(self.table_chains@, t).unwrap();
                &&& s.schema_id@ == t
                &&& s.current_version == c.current_version
                &&& s.initial_version == c.initial_version
            },
    {
        let mut tables: Vec<(String, TableChainSummary)> = Vec::new();
        let ghost names = string_views(registered_tables@);
        let mut i: usize = 0;
        while i < registered_tables.len()
            invariant
                i <= registered_tables@.len(),
                names == string_views(registered_tables@),
                forall|t: Seq<char>| names.contains(t) ==> #[trigger] assoc_has(self.table_chains@, t),
                forall|t: Seq<char>| #[trigger] assoc_has(tables@, t) <==> names.take(i as int).contains(t),
                forall|t: Seq<char>| names.take(i as int).contains(t) ==> {
                    let s = #[trigger] assoc_get(tables@, t).unwrap();
                    let c = assoc_get(self.table_chains@, t).unwrap();
                    &&& s.schema_id@ == t
                    &&& s.current_version == c.current_version
                    &&& s.initial_version == c.initial_version
                },
            decreases registered_tables@.len() - i,
        {
            let t = &registered_tables[i];
            assert(names[i as int] == t@);
            assert(names.contains(t@));
            proof { lemma_assoc_index(self.table_chains@, t@); }
            let c = self.chain_of(t.as_str());
            let c = match c {
                Some(c) => c,
                None => { assert(false); return DbMigrationRootIndex { index_version: MIGRATION_INDEX_VERSION, db_name, tables }; },
            };
            let summary = TableChainSummary {
                schema_id: t.clone(),
                current_version: c.current_version,
                initial_version: c.initial_version,
            };
            let ghost before = tables@;
            let ghost sv = summary;
            assoc_upsert(&mut tables, t.clone(), summary);
            proof {
                assert(names.take(i + 1) =~= names.take(i as int).push(t@));
                assert forall|u: Seq<char>| #[trigger] assoc_has(tables@, u) <==> names.take(i + 1).contains(u) by {
                    lemma_upsert_get(before, tables@, *t, sv, u);
                    lemma_assoc_index(before, u);
                    lemma_assoc_index(tables@, u);
                    lemma_push_contains(names.take(i as int), t@, u);
                }
                assert forall|u: Seq<char>| names.take(i + 1).contains(u) implies {
                    let s = #[trigger] assoc_get(tables@, u).unwrap();
                    let c = assoc_get(self.table_chains@, u).unwrap();
                    &&& s.schema_id@ == u
                    &&& s.current_version == c.current_version
                    &&& s.initial_version == c.initial_version
                } by {
                    lemma_upsert_get(before, tables@, *t, sv, u);
                    lemma_push_contains(names.take(i as int), t@, u);
                }
            }
            i = i + 1;
        }
        assert(names.take(registered_tables@.len() as int) =~= names);
        DbMigrationRootIndex { index_version: MIGRATION_INDEX_VERSION, db_name, tables }
    }
}

proof fn lemma_push_contains<A>(s: Seq<A>, x: A, y: A)
    ensures
        s.push(x).contains(y) <==> (s.contains(y) || y == x),
{
    if s.contains(y) {
        let i = choose|i: int| 0 <= i < s.len() && s[i] == y;
        assert(s.push(x)[i] == y);
    }
    if y == x {
        assert(s.push(x)[s.len() as int] == x);
    }
    if s.push(x).contains(y) {
        let i = choose|i: int| 0 <= i < s.len() + 1 && s.push(x)[i] == y;
        if i < s.len() {
            assert(s[i] == y);
        }
    }
}

/// The name a conflict policy has in a legacy manifest: its own name.
pub open spec fn policy_name(p: TargetConflictPolicy) -> Seq<char> {
    match p {
        TargetConflictPolicy::Fail => "Fail"@,
        TargetConflictPolicy::Skip => "Skip"@,
        TargetConflictPolicy::Overwrite => "Overwrite"@,
        TargetConflictPolicy::OverwriteIfCompatible => "OverwriteIfCompatible"@,
    }
}

/// A legacy policy name stands for the policy of that name and nothing
/// else: every policy is read back from its own name, and a name read as a
/// policy is that policy's name.
pub proof fn law_legacy_policy_names_match_policies(p: TargetConflictPolicy, s: Seq<char>)
    ensures
        spec_conflict_policy(policy_name(p)) == Some(p),
        spec_conflict_policy(s) == Some(p) ==> s == policy_name(p),
{
    reveal_strlit("Fail");
    reveal_strlit("Skip");
    reveal_strlit("Overwrite");
    reveal_strlit("OverwriteIfCompatible");
    assert("Skip"@[0] != "Fail"@[0]);
    assert("Overwrite"@.len() != "Fail"@.len() && "Overwrite"@.len() != "Skip"@.len());
    assert("OverwriteIfCompatible"@.len() != "Fail"@.len() && "OverwriteIfCompatible"@.len() != "Skip"@.len()
        && "OverwriteIfCompatible"@.len() != "Overwrite"@.len());
}

/// The name a migration kind had in the single-root format.
pub open spec fn legacy_kind_name(k: MigrationKind) -> Seq<char> {
    match k {
        MigrationKind::InPlaceEvolve => "SameDbRemapTable"@,
        MigrationKind::DataTransfer => "CrossDbMove"@,
        MigrationKind::ExternalImport => "ExternalImport"@,
    }
}

/// Each legacy kind name stands for one kind and each kind is read back from
/// its legacy name: `SameDbRemapTable` is an in-place evolve, `CrossDbMove` a
/// data transfer, `ExternalImport` an external import.
pub proof fn law_legacy_kind_names_match_kinds(k: MigrationKind, s: Seq<char>)
    ensures
        spec_legacy_kind(legacy_kind_name(k)) == Some(k),
        spec_legacy_kind(s) == Some(k) ==> s == legacy_kind_name(k),
{
    reveal_strlit("SameDbRemapTable");
    reveal_strlit("CrossDbMove");
    reveal_strlit("ExternalImport");
    assert("SameDbRemapTable"@.len() != "CrossDbMove"@.len());
    assert("ExternalImport"@.len() != "CrossDbMove"@.len());
    assert("SameDbRemapTable"@.len() != "ExternalImport"@.len());
}

} // verus!
