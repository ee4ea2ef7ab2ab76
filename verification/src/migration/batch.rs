//! Writes and deletes staged by a migration, committed together.

use vstd::prelude::*;

use crate::assoc::{assoc_find, assoc_index, lemma_assoc_index};

verus! {

/// A copy of a byte vector.
pub fn copy_bytes(v: &Vec<u8>) -> (r: Vec<u8>)
    ensures
        r@ == v@,
{
    let mut out: Vec<u8> = Vec::new();
    let mut i: usize = 0;
    while i < v.len()
        invariant
            i <= v@.len(),
            out@ == v@.take(i as int),
        decreases v@.len() - i,
    {
        out.push(v[i]);
        assert(v@.take(i + 1) =~= v@.take(i as int).push(v@[i as int]));
        i = i + 1;
    }
    assert(v@.take(v@.len() as int) =~= v@);
    out
}

/// Staged writes grouped by table (in the order tables were first staged),
/// and staged deletes in staging order.
#[derive(Debug)]
pub struct MigrationBatch {
    writes: Vec<(String, Vec<(String, Vec<u8>)>)>,
    deletes: Vec<(String, String)>,
}

/// A group of staged writes, by value.
pub open spec fn group_view(g: (String, Vec<(String, Vec<u8>)>)) -> (Seq<char>, Seq<(Seq<char>, Seq<u8>)>) {
    (g.0@, g.1@.map_values(|e: (String, Vec<u8>)| (e.0@, e.1@)))
}

/// `after` is `before` with the row `(key, value)` staged for `table`: at the
/// end of the first group of that table, or in a new group at the end when
/// the table has none.
pub open spec fn staged(
    before: Seq<(Seq<char>, Seq<(Seq<char>, Seq<u8>)>)>,
    after: Seq<(Seq<char>, Seq<(Seq<char>, Seq<u8>)>)>,
    table: Seq<char>,
    key: Seq<char>,
    value: Seq<u8>,
) -> bool {
    let row = (key, value);
    ||| exists|i: int|
        #![trigger before[i]]
        0 <= i < before.len() && before[i].0 == table && (forall|j: int| 0 <= j < i ==> #[trigger] before[j].0 != table)
            && after == before.update(i, (table, before[i].1.push(row)))
    ||| (forall|j: int| 0 <= j < before.len() ==> #[trigger] before[j].0 != table)
            && after == before.push((table, seq![row]))
}

/// Number of writes in all groups.
pub open spec fn count_writes(groups: Seq<(String, Vec<(String, Vec<u8>)>)>) -> int
    decreases groups.len(),
{
    if groups.len() == 0 {
        0
    } else {
        count_writes(groups.drop_last()) + groups.last().1@.len()
    }
}

/// The staged writes as `(table, key, value)` rows, group after group.
pub open spec fn flatten_writes(groups: Seq<(String, Vec<(String, Vec<u8>)>)>) -> Seq<(Seq<char>, Seq<char>, Seq<u8>)>
    decreases groups.len(),
{
    if groups.len() == 0 {
        Seq::empty()
    } else {
        let g = groups.last();
        flatten_writes(groups.drop_last()) + g.1@.map_values(|e: (String, Vec<u8>)| (g.0@, e.0@, e.1@))
    }
}

proof fn lemma_count_writes_update(groups: Seq<(String, Vec<(String, Vec<u8>)>)>, i: int, g: (String, Vec<(String, Vec<u8>)>))
    requires
        0 <= i < groups.len(),
    ensures
        count_writes(groups.update(i, g)) == count_writes(groups) - groups[i].1@.len() + g.1@.len(),
    decreases groups.len(),
{
    if i == groups.len() - 1 {
        assert(groups.update(i, g).drop_last() =~= groups.drop_last());
    } else {
        assert(groups.update(i, g).drop_last() =~= groups.drop_last().update(i, g));
        lemma_count_writes_update(groups.drop_last(), i, g);
    }
}

proof fn lemma_count_writes_nonneg(groups: Seq<(String, Vec<(String, Vec<u8>)>)>)
    ensures
        count_writes(groups) >= 0,
    decreases groups.len(),
{
    if groups.len() > 0 {
        lemma_count_writes_nonneg(groups.drop_last());
    }
}

proof fn lemma_count_writes_bound(groups: Seq<(String, Vec<(String, Vec<u8>)>)>, i: int)
    requires
        0 <= i < groups.len(),
    ensures
        groups[i].1@.len() <= count_writes(groups),
    decreases groups.len(),
{
    lemma_count_writes_nonneg(groups.drop_last());
    if i < groups.len() - 1 {
        lemma_count_writes_bound(groups.drop_last(), i);
    }
}

pub proof fn lemma_flatten_len(groups: Seq<(String, Vec<(String, Vec<u8>)>)>)
    ensures
        flatten_writes(groups).len() == count_writes(groups),
    decreases groups.len(),
{
    if groups.len() > 0 {
        lemma_flatten_len(groups.drop_last());
    }
}

impl MigrationBatch {
    pub closed spec fn spec_write_count(&self) -> int {
        count_writes(self.writes@)
    }

    pub closed spec fn spec_flat_writes(&self) -> Seq<(Seq<char>, Seq<char>, Seq<u8>)> {
        flatten_writes(self.writes@)
    }

    /// The staged writes, one group per table: the table's name and its
    /// `(key, value)` rows in staging order.
    pub closed spec fn spec_groups(&self) -> Seq<(Seq<char>, Seq<(Seq<char>, Seq<u8>)>)> {
        self.writes@.map_values(|g: (String, Vec<(String, Vec<u8>)>)| group_view(g))
    }

    pub closed spec fn spec_deletes(&self) -> Seq<(Seq<char>, Seq<char>)> {
        self.deletes@.map_values(|d: (String, String)| (d.0@, d.1@))
    }

    pub fn new() -> (r: Self)
        ensures
            r.spec_groups().len() == 0,
            r.spec_write_count() == 0,
            r.spec_flat_writes().len() == 0,
            r.spec_deletes().len() == 0,
    {
        MigrationBatch { writes: Vec::new(), deletes: Vec::new() }
    }

    /// Stages `value` for `key` in `table`: the row joins the end of the
    /// table's group, or a new group at the end when the table has none yet.
    pub fn stage_write(&mut self, table: &str, key: &str, value: Vec<u8>)
        ensures
            staged(old(self).spec_groups(), final(self).spec_groups(), table@, key@, value@),
            final(self).spec_write_count() == old(self).spec_write_count() + 1,
            final(self).spec_deletes() == old(self).spec_deletes(),
    {
        let ghost before = self.writes@;
        let ghost gs = old(self).spec_groups();
        let ghost row = (key@, value@);
        proof {
            lemma_assoc_index(before, table@);
        }
        match assoc_find(&self.writes, table) {
            Some(i) => {
                let (name, mut entries) = self.writes.remove(i);
                let ghost old_entries = entries@;
                entries.push((key.to_owned(), value));
                let ghost g = (name, entries);
                self.writes.insert(i, (name, entries));
                proof {
                    assert(self.writes@ =~= before.update(i as int, g));
                    lemma_count_writes_update(before, i as int, g);
                    assert(gs[i as int] == group_view(before[i as int]));
                    assert(group_view(g).1 =~= gs[i as int].1.push(row));
                    assert forall|j: int| 0 <= j < i implies #[trigger] gs[j].0 != table@ by {
                        assert(gs[j] == group_view(before[j]));
                    }
                    assert(self.spec_groups() =~= gs.update(i as int, (table@, gs[i as int].1.push(row))));
                }
            },
            None => {
                let mut entries: Vec<(String, Vec<u8>)> = Vec::new();
                entries.push((key.to_owned(), value));
                self.writes.push((table.to_owned(), entries));
                proof {
                    assert(self.writes@.drop_last() =~= before);
                    assert forall|j: int| 0 <= j < gs.len() implies #[trigger] gs[j].0 != table@ by {
                        assert(gs[j] == group_view(before[j]));
                    }
                    assert(group_view(self.writes@.last()).1 =~= seq![row]);
                    assert(self.spec_groups() =~= gs.push((table@, seq![row])));
                }
            },
        }
    }

    /// Stages the deletion of `key` in `table`.
    pub fn stage_delete(&mut self, table: &str, key: &str)
        ensures
            final(self).spec_write_count() == old(self).spec_write_count(),
            final(self).spec_flat_writes() == old(self).spec_flat_writes(),
            final(self).spec_deletes() == old(self).spec_deletes().push((table@, key@)),
    {
        self.deletes.push((table.to_owned(), key.to_owned()));
        assert(self.spec_deletes() =~= old(self).spec_deletes().push((table@, key@)));
    }

    /// Number of staged writes.
    pub fn write_count(&self) -> (r: usize)
        requires
            self.spec_write_count() <= usize::MAX,
        ensures
            r == self.spec_write_count(),
    {
        let mut total: usize = 0;
        let mut i: usize = 0;
        while i < self.writes.len()
            invariant
                i <= self.writes@.len(),
                total == count_writes(self.writes@.take(i as int)),
                count_writes(self.writes@) <= usize::MAX,
            decreases self.writes@.len() - i,
        {
            proof {
                assert(self.writes@.take(i + 1).drop_last() =~= self.writes@.take(i as int));
                lemma_count_writes_bound(self.writes@.take(i + 1), i as int);
                lemma_count_writes_prefix(self.writes@, i + 1);
            }
            total = total + self.writes[i].1.len();
            i = i + 1;
        }
        assert(self.writes@.take(self.writes@.len() as int) =~= self.writes@);
        total
    }

    /// The staged writes as `(table, key, value)` rows, and the staged deletes,
    /// as one commit takes them.
    pub fn flat_writes(&self) -> (r: Vec<(String, String, Vec<u8>)>)
        ensures
            r@.len() == self.spec_flat_writes().len(),
            forall|k: int| 0 <= k < r@.len() ==> {
                let (t, key, v) = #[trigger] r@[k];
                (t@, key@, v@) == self.spec_flat_writes()[k]
            },
    {
        let mut out: Vec<(String, String, Vec<u8>)> = Vec::new();
        let mut i: usize = 0;
        while i < self.writes.len()
            invariant
                i <= self.writes@.len(),
                out@.len() == flatten_writes(self.writes@.take(i as int)).len(),
                forall|k: int| 0 <= k < out@.len() ==> {
                    let (t, key, v) = #[trigger] out@[k];
                    (t@, key@, v@) == flatten_writes(self.writes@.take(i as int))[k]
                },
            decreases self.writes@.len() - i,
        {
            let group = &self.writes[i];
            let ghost before = out@;
            let ghost g = self.writes@[i as int];
            let mut j: usize = 0;
            while j < group.1.len()
                invariant
                    j <= group.1@.len(),
                    *group == g,
                    out@.len() == before.len() + j,
                    forall|k: int| 0 <= k < before.len() ==> #[trigger] out@[k] == before[k],
                    forall|k: int| 0 <= k < j ==> {
                        let (t, key, v) = #[trigger] out@[before.len() + k];
                        (t@, key@, v@) == (g.0@, g.1@[k].0@, g.1@[k].1@)
                    },
                decreases group.1@.len() - j,
            {
                let entry = &group.1[j];
                out.push((group.0.clone(), entry.0.clone(), copy_bytes(&entry.1)));
                proof {
                    assert forall|k: int| 0 <= k < j + 1 implies {
                        let (t, key, v) = #[trigger] out@[before.len() + k];
                        (t@, key@, v@) == (g.0@, g.1@[k].0@, g.1@[k].1@)
                    } by {
                        if k < j {
                            assert(out@[before.len() + k] == old_out_at(out@, before.len() + k));
                        }
                    }
                }
                j = j + 1;
            }
            proof {
                let t = self.writes@.take(i + 1);
                assert(t.drop_last() =~= self.writes@.take(i as int));
                assert(t.last() == g);
                let mapped = g.1@.map_values(|e: (String, Vec<u8>)| (g.0@, e.0@, e.1@));
                assert(flatten_writes(t) == flatten_writes(self.writes@.take(i as int)) + mapped);
                assert forall|k: int| 0 <= k < out@.len() implies {
                    let (tt, key, v) = #[trigger] out@[k];
                    (tt@, key@, v@) == flatten_writes(t)[k]
                } by {
                    if k >= before.len() {
                        assert(mapped[k - before.len()] == (g.0@, g.1@[k - before.len()].0@, g.1@[k - before.len()].1@));
                        assert(out@[before.len() + (k - before.len())] == out@[k]);
                    }
                }
            }
            i = i + 1;
        }
        assert(self.writes@.take(self.writes@.len() as int) =~= self.writes@);
        out
    }

    /// The staged deletes, as `(table, key)` rows.
    pub fn flat_deletes(&self) -> (r: Vec<(String, String)>)
        ensures
            r@.map_values(|d: (String, String)| (d.0@, d.1@)) == self.spec_deletes(),
    {
        let mut out: Vec<(String, String)> = Vec::new();
        let mut i: usize = 0;
        while i < self.deletes.len()
            invariant
                i <= self.deletes@.len(),
                out@.len() == i,
                forall|k: int| 0 <= k < i ==> (#[trigger] out@[k]).0@ == self.deletes@[k].0@ && out@[k].1@ == self.deletes@[k].1@,
            decreases self.deletes@.len() - i,
        {
            out.push((self.deletes[i].0.clone(), self.deletes[i].1.clone()));
            i = i + 1;
        }
        assert(out@.map_values(|d: (String, String)| (d.0@, d.1@)) =~= self.spec_deletes());
        out
    }

    /// Drops everything staged.
    pub fn clear(&mut self)
        ensures
            final(self).spec_groups().len() == 0,
            final(self).spec_write_count() == 0,
            final(self).spec_flat_writes().len() == 0,
            final(self).spec_deletes().len() == 0,
    {
        self.writes = Vec::new();
        self.deletes = Vec::new();
    }
}

spec fn old_out_at(s: Seq<(String, String, Vec<u8>)>, k: int) -> (String, String, Vec<u8>) {
    s[k]
}

proof fn lemma_count_writes_prefix(groups: Seq<(String, Vec<(String, Vec<u8>)>)>, i: int)
    requires
        0 <= i <= groups.len(),
    ensures
        count_writes(groups.take(i)) <= count_writes(groups),
    decreases groups.len() - i,
{
    if i < groups.len() {
        lemma_count_writes_prefix(groups, i + 1);
        assert(groups.take(i + 1).drop_last() =~= groups.take(i));
        lemma_count_writes_nonneg(groups.take(i));
    } else {
        assert(groups.take(i) =~= groups);
    }
}

/// Every staged write is one row of the commit.
pub proof fn law_commit_rows_match_staged_writes(batch: MigrationBatch)
    ensures
        batch.spec_flat_writes().len() == batch.spec_write_count(),
{
    lemma_flatten_len(batch.writes@);
}

} // verus!
