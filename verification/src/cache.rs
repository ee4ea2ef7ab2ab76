//! The memory cache in front of a database's primary file.
//!
//! Writes go to the primary first and then to the cache (write-through); a
//! read is answered by the cache when it holds the key, and otherwise by the
//! primary, whose answer is then cached (cache-aside). The caller performs
//! the reads and writes; this module says which cache changes follow each
//! operation, and proves that they keep the cache in agreement with the
//! primary, so that a read gives back what was last written.
//!
//! The cache is keyed `{table}:{key}`; the primary by table and key.

use vstd::prelude::*;

use crate::migration::batch::copy_bytes;
use crate::backup::{BackupOperation, BackupRecord};
use crate::repository::{cache_key, restores, spec_cache_key, PrimaryChange, RestorePlan};

verus! {

/// A change to the cache.
#[derive(Debug)]
pub enum CacheEffect {
    /// Cache `value` under the cache key.
    Insert(String, Vec<u8>),
    /// Drop the cache key's entry.
    Invalidate(String),
}

/// A cache change, by value.
pub enum CacheEffectView {
    Insert(Seq<char>, Seq<u8>),
    Invalidate(Seq<char>),
}

pub open spec fn effect_view(e: CacheEffect) -> CacheEffectView {
    match e {
        CacheEffect::Insert(k, v) => CacheEffectView::Insert(k@, v@),
        CacheEffect::Invalidate(k) => CacheEffectView::Invalidate(k@),
    }
}

pub open spec fn effect_views(s: Seq<CacheEffect>) -> Seq<CacheEffectView> {
    s.map_values(|e: CacheEffect| effect_view(e))
}

// ── the two stores, as maps ─────────────────────────────────────────────────

/// The cache after the changes, in order.
pub open spec fn apply_cache_effects(cache: Map<Seq<char>, Seq<u8>>, effects: Seq<CacheEffectView>) -> Map<Seq<char>, Seq<u8>>
    decreases effects.len(),
{
    if effects.len() == 0 {
        cache
    } else {
        let c = apply_cache_effects(cache, effects.drop_last());
        match effects.last() {
            CacheEffectView::Insert(k, v) => c.insert(k, v),
            CacheEffectView::Invalidate(k) => c.remove(k),
        }
    }
}

/// The primary after the writes, in order: `(table, key, value)`.
pub open spec fn apply_writes(
    primary: Map<(Seq<char>, Seq<char>), Seq<u8>>,
    writes: Seq<(Seq<char>, Seq<char>, Seq<u8>)>,
) -> Map<(Seq<char>, Seq<char>), Seq<u8>>
    decreases writes.len(),
{
    if writes.len() == 0 {
        primary
    } else {
        let w = writes.last();
        apply_writes(primary, writes.drop_last()).insert((w.0, w.1), w.2)
    }
}

/// The primary after the deletes, in order: `(table, key)`.
pub open spec fn apply_deletes(
    primary: Map<(Seq<char>, Seq<char>), Seq<u8>>,
    deletes: Seq<(Seq<char>, Seq<char>)>,
) -> Map<(Seq<char>, Seq<char>), Seq<u8>>
    decreases deletes.len(),
{
    if deletes.len() == 0 {
        primary
    } else {
        apply_deletes(primary, deletes.drop_last()).remove(deletes.last())
    }
}

/// A table name without `:`, so that its cache keys cannot be mistaken for
/// another table's.
pub open spec fn plain_table(table: Seq<char>) -> bool {
    !table.contains(':')
}

/// The cache agrees with the primary: an entry cached for a key of a plain
/// table holds what the primary holds for that key, which it does hold.
pub open spec fn coherent(cache: Map<Seq<char>, Seq<u8>>, primary: Map<(Seq<char>, Seq<char>), Seq<u8>>) -> bool {
    forall|t: Seq<char>, k: Seq<char>|
        plain_table(t) && #[trigger] cache.contains_key(spec_cache_key(t, k)) ==> {
            &&& primary.contains_key((t, k))
            &&& cache[spec_cache_key(t, k)] == primary[(t, k)]
        }
}

/// What a read of `key` in `table` answers: the cached value when the cache
/// is on and holds the key, otherwise the primary's.
pub open spec fn read_answer(
    has_cache: bool,
    cache: Map<Seq<char>, Seq<u8>>,
    primary: Map<(Seq<char>, Seq<char>), Seq<u8>>,
    table: Seq<char>,
    key: Seq<char>,
) -> Option<Seq<u8>> {
    if has_cache && cache.contains_key(spec_cache_key(table, key)) {
        Some(cache[spec_cache_key(table, key)])
    } else if primary.contains_key((table, key)) {
        Some(primary[(table, key)])
    } else {
        None
    }
}

// ── the cache changes of each operation ─────────────────────────────────────

pub open spec fn write_views(s: Seq<(String, String, Vec<u8>)>) -> Seq<(Seq<char>, Seq<char>, Seq<u8>)> {
    s.map_values(|w: (String, String, Vec<u8>)| (w.0@, w.1@, w.2@))
}

pub open spec fn delete_views(s: Seq<(String, String)>) -> Seq<(Seq<char>, Seq<char>)> {
    s.map_values(|d: (String, String)| (d.0@, d.1@))
}

pub open spec fn insert_effect(w: (Seq<char>, Seq<char>, Seq<u8>)) -> CacheEffectView {
    CacheEffectView::Insert(spec_cache_key(w.0, w.1), w.2)
}

pub open spec fn invalidate_effect(d: (Seq<char>, Seq<char>)) -> CacheEffectView {
    CacheEffectView::Invalidate(spec_cache_key(d.0, d.1))
}

/// The cache changes after a committed batch: with the cache on, every write
/// is cached, in order, then every deleted key dropped; with it off, none.
pub open spec fn spec_commit_effects(
    has_cache: bool,
    writes: Seq<(Seq<char>, Seq<char>, Seq<u8>)>,
    deletes: Seq<(Seq<char>, Seq<char>)>,
) -> Seq<CacheEffectView> {
    if has_cache {
        writes.map_values(|w: (Seq<char>, Seq<char>, Seq<u8>)| insert_effect(w))
            + deletes.map_values(|d: (Seq<char>, Seq<char>)| invalidate_effect(d))
    } else {
        Seq::empty()
    }
}

/// The cache changes that follow a committed batch of writes and deletes.
pub fn commit_cache_effects(has_cache: bool, writes: &Vec<(String, String, Vec<u8>)>, deletes: &Vec<(String, String)>) -> (r: Vec<CacheEffect>)
    ensures
        effect_views(r@) == spec_commit_effects(has_cache, write_views(writes@), delete_views(deletes@)),
{
    let mut out: Vec<CacheEffect> = Vec::new();
    if !has_cache {
        assert(effect_views(out@) =~= Seq::<CacheEffectView>::empty());
        return out;
    }
    let ghost ws = write_views(writes@).map_values(|w: (Seq<char>, Seq<char>, Seq<u8>)| insert_effect(w));
    let ghost ds = delete_views(deletes@).map_values(|d: (Seq<char>, Seq<char>)| invalidate_effect(d));
    let mut i: usize = 0;
    while i < writes.len()
        invariant
            i <= writes@.len(),
            ws == write_views(writes@).map_values(|w: (Seq<char>, Seq<char>, Seq<u8>)| insert_effect(w)),
            effect_views(out@) == ws.take(i as int),
        decreases writes@.len() - i,
    {
        let ghost before = effect_views(out@);
        let w = &writes[i];
        let ck = cache_key(w.0.as_str(), w.1.as_str());
        out.push(CacheEffect::Insert(ck, copy_bytes(&w.2)));
        proof {
            assert(effect_views(out@) =~= before.push(ws[i as int]));
            assert(ws.take(i + 1) =~= ws.take(i as int).push(ws[i as int]));
        }
        i = i + 1;
    }
    assert(ws.take(writes@.len() as int) =~= ws);
    let mut j: usize = 0;
    while j < deletes.len()
        invariant
            j <= deletes@.len(),
            ws == write_views(writes@).map_values(|w: (Seq<char>, Seq<char>, Seq<u8>)| insert_effect(w)),
            ds == delete_views(deletes@).map_values(|d: (Seq<char>, Seq<char>)| invalidate_effect(d)),
            effect_views(out@) == ws + ds.take(j as int),
        decreases deletes@.len() - j,
    {
        let ghost before = effect_views(out@);
        let d = &deletes[j];
        let ck = cache_key(d.0.as_str(), d.1.as_str());
        out.push(CacheEffect::Invalidate(ck));
        proof {
            assert(effect_views(out@) =~= before.push(ds[j as int]));
            assert(ws + ds.take(j + 1) =~= (ws + ds.take(j as int)).push(ds[j as int]));
        }
        j = j + 1;
    }
    assert(ds.take(deletes@.len() as int) =~= ds);
    out
}

/// The cache change after `value` was written for `key` in `table`: cache it,
/// when the cache is on.
pub fn write_cache_effect(has_cache: bool, table: &str, key: &str, value: &Vec<u8>) -> (r: Option<CacheEffect>)
    ensures
        match r {
            Some(e) => has_cache && effect_view(e) == insert_effect((table@, key@, value@)),
            None => !has_cache,
        },
{
    if has_cache {
        Some(CacheEffect::Insert(cache_key(table, key), copy_bytes(value)))
    } else {
        None
    }
}

/// The cache change after `key` was deleted from `table`: drop its entry,
/// when the cache is on.
pub fn delete_cache_effect(has_cache: bool, table: &str, key: &str) -> (r: Option<CacheEffect>)
    ensures
        match r {
            Some(e) => has_cache && effect_view(e) == invalidate_effect((table@, key@)),
            None => !has_cache,
        },
{
    if has_cache {
        Some(CacheEffect::Invalidate(cache_key(table, key)))
    } else {
        None
    }
}

/// The answer of a read from the cache, if the cache gives one: what it
/// holds for the key (`cached`), when the cache is on; otherwise the primary
/// is read.
pub fn answer_from_cache(has_cache: bool, cached: Option<Vec<u8>>) -> (r: Option<Vec<u8>>)
    ensures
        r == (if has_cache { cached } else { None }),
{
    if has_cache { cached } else { None }
}

/// The cache change after a read that went to the primary and found `found`:
/// a value found is cached, when the cache is on.
pub fn fill_after_read(has_cache: bool, table: &str, key: &str, found: &Option<Vec<u8>>) -> (r: Option<CacheEffect>)
    ensures
        match r {
            Some(e) => has_cache && found is Some && effect_view(e) == insert_effect((table@, key@, found.unwrap()@)),
            None => !has_cache || found is None,
        },
{
    match found {
        Some(v) => write_cache_effect(has_cache, table, key, v),
        None => None,
    }
}

/// The cache change after a restore changed the primary: the restored data
/// is cached, a removed key dropped (when the cache is on).
pub fn restore_cache_effect(has_cache: bool, table: &str, key: &str, change: &PrimaryChange) -> (r: Option<CacheEffect>)
    ensures
        match r {
            Some(e) => has_cache && match *change {
                PrimaryChange::Put(d) => effect_view(e) == insert_effect((table@, key@, d@)),
                PrimaryChange::Remove => effect_view(e) == invalidate_effect((table@, key@)),
                PrimaryChange::Keep => false,
            },
            None => !has_cache || change is Keep,
        },
{
    match change {
        PrimaryChange::Put(d) => write_cache_effect(has_cache, table, key, d),
        PrimaryChange::Remove => delete_cache_effect(has_cache, table, key),
        PrimaryChange::Keep => None,
    }
}

/// The primary after a restore's change to `key` in `table`.
pub open spec fn apply_primary_change(
    primary: Map<(Seq<char>, Seq<char>), Seq<u8>>,
    table: Seq<char>,
    key: Seq<char>,
    change: PrimaryChange,
) -> Map<(Seq<char>, Seq<char>), Seq<u8>> {
    match change {
        PrimaryChange::Put(d) => primary.insert((table, key), d@),
        PrimaryChange::Remove => primary.remove((table, key)),
        PrimaryChange::Keep => primary,
    }
}

/// The cache after the change `restore_cache_effect` gives for a restore.
pub open spec fn apply_restore_to_cache(
    has_cache: bool,
    cache: Map<Seq<char>, Seq<u8>>,
    table: Seq<char>,
    key: Seq<char>,
    change: PrimaryChange,
) -> Map<Seq<char>, Seq<u8>> {
    if !has_cache {
        cache
    } else {
        match change {
            PrimaryChange::Put(d) => cache.insert(spec_cache_key(table, key), d@),
            PrimaryChange::Remove => cache.remove(spec_cache_key(table, key)),
            PrimaryChange::Keep => cache,
        }
    }
}

// ── why the cache stays right ───────────────────────────────────────────────

proof fn lemma_contains_at(s: Seq<char>, i: int)
    requires
        0 <= i < s.len(),
        s[i] == ':',
    ensures
        s.contains(':'),
{
}

/// Cache keys of plain tables tell their table and key apart.
pub proof fn lemma_cache_key_injective(t1: Seq<char>, k1: Seq<char>, t2: Seq<char>, k2: Seq<char>)
    requires
        plain_table(t1),
        plain_table(t2),
        spec_cache_key(t1, k1) == spec_cache_key(t2, k2),
    ensures
        t1 == t2,
        k1 == k2,
{
    let a = spec_cache_key(t1, k1);
    if t1.len() < t2.len() {
        assert(a[t1.len() as int] == ':');
        assert(a[t1.len() as int] == t2[t1.len() as int]);
        lemma_contains_at(t2, t1.len() as int);
    } else if t2.len() < t1.len() {
        assert(a[t2.len() as int] == ':');
        assert(a[t2.len() as int] == t1[t2.len() as int]);
        lemma_contains_at(t1, t2.len() as int);
    }
    assert(t1 =~= a.subrange(0, t1.len() as int));
    assert(t2 =~= a.subrange(0, t2.len() as int));
    assert(k1 =~= a.subrange(t1.len() + 1int, a.len() as int));
    assert(k2 =~= a.subrange(t2.len() + 1int, a.len() as int));
}

proof fn lemma_insert_keeps_coherent(
    cache: Map<Seq<char>, Seq<u8>>,
    primary: Map<(Seq<char>, Seq<char>), Seq<u8>>,
    t0: Seq<char>,
    k0: Seq<char>,
    v: Seq<u8>,
)
    requires
        coherent(cache, primary),
        plain_table(t0),
    ensures
        coherent(cache.insert(spec_cache_key(t0, k0), v), primary.insert((t0, k0), v)),
{
    let c = cache.insert(spec_cache_key(t0, k0), v);
    let p = primary.insert((t0, k0), v);
    assert forall|t: Seq<char>, k: Seq<char>| plain_table(t) && #[trigger] c.contains_key(spec_cache_key(t, k)) implies {
        &&& p.contains_key((t, k))
        &&& c[spec_cache_key(t, k)] == p[(t, k)]
    } by {
        if spec_cache_key(t, k) == spec_cache_key(t0, k0) {
            lemma_cache_key_injective(t, k, t0, k0);
        } else {
            assert(cache.contains_key(spec_cache_key(t, k)));
            assert((t, k) != (t0, k0));
        }
    }
}

proof fn lemma_remove_keeps_coherent(
    cache: Map<Seq<char>, Seq<u8>>,
    primary: Map<(Seq<char>, Seq<char>), Seq<u8>>,
    t0: Seq<char>,
    k0: Seq<char>,
)
    requires
        coherent(cache, primary),
    ensures
        coherent(cache.remove(spec_cache_key(t0, k0)), primary.remove((t0, k0))),
{
    let c = cache.remove(spec_cache_key(t0, k0));
    let p = primary.remove((t0, k0));
    assert forall|t: Seq<char>, k: Seq<char>| plain_table(t) && #[trigger] c.contains_key(spec_cache_key(t, k)) implies {
        &&& p.contains_key((t, k))
        &&& c[spec_cache_key(t, k)] == p[(t, k)]
    } by {
        assert(cache.contains_key(spec_cache_key(t, k)));
        assert((t, k) != (t0, k0));
    }
}

proof fn lemma_apply_effects_concat(cache: Map<Seq<char>, Seq<u8>>, a: Seq<CacheEffectView>, b: Seq<CacheEffectView>)
    ensures
        apply_cache_effects(cache, a + b) == apply_cache_effects(apply_cache_effects(cache, a), b),
    decreases b.len(),
{
    if b.len() == 0 {
        assert(a + b =~= a);
    } else {
        assert((a + b).drop_last() =~= a + b.drop_last());
        assert((a + b).last() == b.last());
        lemma_apply_effects_concat(cache, a, b.drop_last());
    }
}

proof fn lemma_writes_keep_coherent(
    cache: Map<Seq<char>, Seq<u8>>,
    primary: Map<(Seq<char>, Seq<char>), Seq<u8>>,
    writes: Seq<(Seq<char>, Seq<char>, Seq<u8>)>,
)
    requires
        coherent(cache, primary),
        forall|i: int| 0 <= i < writes.len() ==> plain_table(#[trigger] writes[i].0),
    ensures
        coherent(
            apply_cache_effects(cache, writes.map_values(|w: (Seq<char>, Seq<char>, Seq<u8>)| insert_effect(w))),
            apply_writes(primary, writes),
        ),
    decreases writes.len(),
{
    let effects = writes.map_values(|w: (Seq<char>, Seq<char>, Seq<u8>)| insert_effect(w));
    if writes.len() == 0 {
        assert(effects.len() == 0);
    } else {
        let init = writes.drop_last();
        assert forall|i: int| 0 <= i < init.len() implies plain_table(#[trigger] init[i].0) by {
            assert(init[i] == writes[i]);
        }
        lemma_writes_keep_coherent(cache, primary, init);
        assert(effects.drop_last() =~= init.map_values(|w: (Seq<char>, Seq<char>, Seq<u8>)| insert_effect(w)));
        let w = writes.last();
        assert(plain_table(writes[writes.len() - 1].0));
        lemma_insert_keeps_coherent(
            apply_cache_effects(cache, effects.drop_last()),
            apply_writes(primary, init),
            w.0,
            w.1,
            w.2,
        );
    }
}

proof fn lemma_deletes_keep_coherent(
    cache: Map<Seq<char>, Seq<u8>>,
    primary: Map<(Seq<char>, Seq<char>), Seq<u8>>,
    deletes: Seq<(Seq<char>, Seq<char>)>,
)
    requires
        coherent(cache, primary),
    ensures
        coherent(
            apply_cache_effects(cache, deletes.map_values(|d: (Seq<char>, Seq<char>)| invalidate_effect(d))),
            apply_deletes(primary, deletes),
        ),
    decreases deletes.len(),
{
    let effects = deletes.map_values(|d: (Seq<char>, Seq<char>)| invalidate_effect(d));
    if deletes.len() == 0 {
        assert(effects.len() == 0);
    } else {
        let init = deletes.drop_last();
        lemma_deletes_keep_coherent(cache, primary, init);
        assert(effects.drop_last() =~= init.map_values(|d: (Seq<char>, Seq<char>)| invalidate_effect(d)));
        let d = deletes.last();
        lemma_remove_keeps_coherent(
            apply_cache_effects(cache, effects.drop_last()),
            apply_deletes(primary, init),
            d.0,
            d.1,
        );
    }
}

/// A read through a cache that agrees with the primary answers what the
/// primary holds.
pub proof fn law_coherent_read_gives_primary(
    has_cache: bool,
    cache: Map<Seq<char>, Seq<u8>>,
    primary: Map<(Seq<char>, Seq<char>), Seq<u8>>,
    table: Seq<char>,
    key: Seq<char>,
)
    requires
        coherent(cache, primary),
        plain_table(table),
    ensures
        read_answer(has_cache, cache, primary, table, key)
            == (if primary.contains_key((table, key)) { Some(primary[(table, key)]) } else { None::<Seq<u8>> }),
{
}

/// Committing a batch (the primary takes the writes, then the deletes; the
/// cache takes the changes `commit_cache_effects` gives) keeps a cache that
/// agreed with the primary in agreement with it.
pub proof fn law_commit_keeps_cache_coherent(
    cache: Map<Seq<char>, Seq<u8>>,
    primary: Map<(Seq<char>, Seq<char>), Seq<u8>>,
    writes: Seq<(Seq<char>, Seq<char>, Seq<u8>)>,
    deletes: Seq<(Seq<char>, Seq<char>)>,
)
    requires
        coherent(cache, primary),
        forall|i: int| 0 <= i < writes.len() ==> plain_table(#[trigger] writes[i].0),
    ensures
        coherent(
            apply_cache_effects(cache, spec_commit_effects(true, writes, deletes)),
            apply_deletes(apply_writes(primary, writes), deletes),
        ),
{
    let we = writes.map_values(|w: (Seq<char>, Seq<char>, Seq<u8>)| insert_effect(w));
    let de = deletes.map_values(|d: (Seq<char>, Seq<char>)| invalidate_effect(d));
    lemma_apply_effects_concat(cache, we, de);
    lemma_writes_keep_coherent(cache, primary, writes);
    lemma_deletes_keep_coherent(apply_cache_effects(cache, we), apply_writes(primary, writes), deletes);
}

/// Caching what a read found in the primary, and dropping any entry (the
/// cache evicts entries on its own), keep the cache in agreement.
pub proof fn law_fill_and_evict_keep_cache_coherent(
    cache: Map<Seq<char>, Seq<u8>>,
    primary: Map<(Seq<char>, Seq<char>), Seq<u8>>,
    table: Seq<char>,
    key: Seq<char>,
    evicted: Seq<char>,
)
    requires
        coherent(cache, primary),
        plain_table(table),
        primary.contains_key((table, key)),
    ensures
        coherent(cache.insert(spec_cache_key(table, key), primary[(table, key)]), primary),
        coherent(cache.remove(evicted), primary),
{
    lemma_insert_keeps_coherent(cache, primary, table, key, primary[(table, key)]);
    assert(primary.insert((table, key), primary[(table, key)]) =~= primary);
    let c = cache.remove(evicted);
    assert forall|t: Seq<char>, k: Seq<char>| plain_table(t) && #[trigger] c.contains_key(spec_cache_key(t, k)) implies {
        &&& primary.contains_key((t, k))
        &&& c[spec_cache_key(t, k)] == primary[(t, k)]
    } by {
        assert(cache.contains_key(spec_cache_key(t, k)));
    }
}

/// A read after a write gives back what was written: once `value` is written
/// for `key` in `table` (the primary first, then the cache change of
/// `write_cache_effect`), a read answers `value`, whether the cache is on or
/// off.
pub proof fn law_read_gives_back_write(
    has_cache: bool,
    cache: Map<Seq<char>, Seq<u8>>,
    primary: Map<(Seq<char>, Seq<char>), Seq<u8>>,
    table: Seq<char>,
    key: Seq<char>,
    value: Seq<u8>,
)
    requires
        coherent(cache, primary),
        plain_table(table),
    ensures
        ({
            let p = primary.insert((table, key), value);
            let c = if has_cache { cache.insert(spec_cache_key(table, key), value) } else { cache };
            read_answer(has_cache, c, p, table, key) == Some(value)
        }),
{
    lemma_insert_keeps_coherent(cache, primary, table, key, value);
}

/// A read after a delete finds nothing: once `key` is deleted from `table`
/// (the primary, then the cache change of `delete_cache_effect`), a read
/// answers `None`.
pub proof fn law_read_after_delete_finds_nothing(
    has_cache: bool,
    cache: Map<Seq<char>, Seq<u8>>,
    primary: Map<(Seq<char>, Seq<char>), Seq<u8>>,
    table: Seq<char>,
    key: Seq<char>,
)
    requires
        coherent(cache, primary),
        plain_table(table),
    ensures
        ({
            let p = primary.remove((table, key));
            let c = if has_cache { cache.remove(spec_cache_key(table, key)) } else { cache };
            read_answer(has_cache, c, p, table, key) is None
        }),
{
    lemma_remove_keeps_coherent(cache, primary, table, key);
}

/// Restoring a version gives it back: after the restore of `record` (its
/// change to the primary, then the cache change of `restore_cache_effect`), a
/// read answers the restored data, nothing for a restored delete, and what it
/// answered before for a record without data; a cache that agreed with the
/// primary still does.
pub proof fn law_restore_gives_back_the_version(
    record: BackupRecord,
    plan: RestorePlan,
    has_cache: bool,
    cache: Map<Seq<char>, Seq<u8>>,
    primary: Map<(Seq<char>, Seq<char>), Seq<u8>>,
    table: Seq<char>,
    key: Seq<char>,
)
    requires
        restores(record, plan),
        coherent(cache, primary),
        plain_table(table),
    ensures
        ({
            let p = apply_primary_change(primary, table, key, plan.primary);
            let c = apply_restore_to_cache(has_cache, cache, table, key, plan.primary);
            &&& read_answer(has_cache, c, p, table, key) == (if record.operation == BackupOperation::Delete {
                None::<Seq<u8>>
            } else {
                match record.data {
                    Some(d) => Some(d@),
                    None => read_answer(has_cache, cache, primary, table, key),
                }
            })
            &&& (has_cache ==> coherent(c, p))
        }),
{
    match plan.primary {
        PrimaryChange::Put(d) => {
            lemma_insert_keeps_coherent(cache, primary, table, key, d@);
        },
        PrimaryChange::Remove => {
            lemma_remove_keeps_coherent(cache, primary, table, key);
        },
        PrimaryChange::Keep => {},
    }
}

} // verus!
