//! Association lists keyed by text: a `Vec<(String, V)>` read as a map from the
//! first occurrence of each key to its value. The library keeps keyed tables
//! this way so that their order is the order of insertion.

use vstd::prelude::*;

verus! {

/// Index of the first entry whose key is `key`, or `-1`.
pub open spec fn assoc_index<V>(entries: Seq<(String, V)>, key: Seq<char>) -> int
    decreases entries.len(),
{
    if entries.len() == 0 {
        -1
    } else if entries[0].0@ == key {
        0
    } else {
        let i = assoc_index(entries.drop_first(), key);
        if i == -1 { -1 } else { i + 1 }
    }
}

/// Whether some entry has key `key`.
pub open spec fn assoc_has<V>(entries: Seq<(String, V)>, key: Seq<char>) -> bool {
    exists|j: int| 0 <= j < entries.len() && #[trigger] entries[j].0@ == key
}

/// The value of the first entry with key `key`.
pub open spec fn assoc_get<V>(entries: Seq<(String, V)>, key: Seq<char>) -> Option<V> {
    let i = assoc_index(entries, key);
    if i >= 0 { Some(entries[i].1) } else { None }
}

pub proof fn lemma_assoc_index<V>(entries: Seq<(String, V)>, key: Seq<char>)
    ensures
        -1 <= assoc_index(entries, key) < entries.len(),
        assoc_index(entries, key) >= 0 ==> entries[assoc_index(entries, key)].0@ == key,
        forall|j: int|
            0 <= j < entries.len() && (j < assoc_index(entries, key) || assoc_index(entries, key) == -1)
                ==> #[trigger] entries[j].0@ != key,
        assoc_has(entries, key) <==> assoc_index(entries, key) >= 0,
    decreases entries.len(),
{
    if entries.len() > 0 && entries[0].0@ != key {
        lemma_assoc_index(entries.drop_first(), key);
        assert forall|j: int|
            0 <= j < entries.len() && (j < assoc_index(entries, key) || assoc_index(entries, key) == -1)
                implies #[trigger] entries[j].0@ != key by {
            if j > 0 {
                assert(entries[j] == entries.drop_first()[j - 1]);
            }
        }
        if assoc_has(entries, key) {
            let j = choose|j: int| 0 <= j < entries.len() && #[trigger] entries[j].0@ == key;
            assert(entries.drop_first()[j - 1] == entries[j]);
        }
        if assoc_index(entries, key) >= 0 {
            let i = assoc_index(entries, key);
            assert(entries[i].0@ == key);
        }
    }
    if entries.len() > 0 && entries[0].0@ == key {
        assert(entries[0].0@ == key);
    }
}

proof fn lemma_assoc_index_is<V>(entries: Seq<(String, V)>, key: Seq<char>, i: int)
    requires
        0 <= i < entries.len(),
        entries[i].0@ == key,
        forall|j: int| 0 <= j < i ==> #[trigger] entries[j].0@ != key,
    ensures
        assoc_index(entries, key) == i,
    decreases i,
{
    if i > 0 {
        assert forall|j: int| 0 <= j < i - 1 implies #[trigger] entries.drop_first()[j].0@ != key by {
            assert(entries.drop_first()[j] == entries[j + 1]);
        }
        lemma_assoc_index_is(entries.drop_first(), key, i - 1);
    }
}

proof fn lemma_assoc_index_none<V>(entries: Seq<(String, V)>, key: Seq<char>)
    requires
        forall|j: int| 0 <= j < entries.len() ==> #[trigger] entries[j].0@ != key,
    ensures
        assoc_index(entries, key) == -1,
    decreases entries.len(),
{
    if entries.len() > 0 {
        assert forall|j: int| 0 <= j < entries.len() - 1 implies #[trigger] entries.drop_first()[j].0@ != key by {
            assert(entries.drop_first()[j] == entries[j + 1]);
        }
        lemma_assoc_index_none(entries.drop_first(), key);
    }
}

/// Looking a key up after an entry is appended: an earlier entry of that key
/// still answers; otherwise the new entry does, if it has the key.
pub proof fn lemma_assoc_get_push<V>(entries: Seq<(String, V)>, e: (String, V), key: Seq<char>)
    ensures
        assoc_get(entries.push(e), key) == (if assoc_has(entries, key) {
            assoc_get(entries, key)
        } else if e.0@ == key {
            Some(e.1)
        } else {
            None
        }),
        assoc_has(entries.push(e), key) == (assoc_has(entries, key) || e.0@ == key),
{
    let s = entries.push(e);
    lemma_assoc_index(entries, key);
    lemma_assoc_index(s, key);
    let i = assoc_index(entries, key);
    if i >= 0 {
        assert forall|j: int| 0 <= j < i implies #[trigger] s[j].0@ != key by {
            assert(s[j] == entries[j]);
        }
        assert(s[i] == entries[i]);
        lemma_assoc_index_is(s, key, i);
    } else if e.0@ == key {
        assert forall|j: int| 0 <= j < entries.len() implies #[trigger] s[j].0@ != key by {
            assert(s[j] == entries[j]);
        }
        lemma_assoc_index_is(s, key, entries.len() as int);
    } else {
        assert forall|j: int| 0 <= j < s.len() implies #[trigger] s[j].0@ != key by {
            if j < entries.len() {
                assert(s[j] == entries[j]);
            }
        }
        lemma_assoc_index_none(s, key);
    }
}

/// Position of the first entry with key `key`.
pub fn assoc_find<V>(entries: &Vec<(String, V)>, key: &str) -> (r: Option<usize>)
    ensures
        match r {
            Some(i) => i as int == assoc_index(entries@, key@) && i < entries@.len(),
            None => assoc_index(entries@, key@) == -1,
        },
{
    let target = key.to_owned();
    let mut i: usize = 0;
    while i < entries.len()
        invariant
            i <= entries@.len(),
            target@ == key@,
            forall|j: int| 0 <= j < i ==> #[trigger] entries@[j].0@ != key@,
        decreases entries@.len() - i,
    {
        if entries[i].0 == target {
            proof {
                lemma_assoc_index_is(entries@, key@, i as int);
            }
            return Some(i);
        }
        i = i + 1;
    }
    proof {
        lemma_assoc_index_none(entries@, key@);
    }
    None
}

/// Sets the value of `key`: replaces the value of its first entry, or appends
/// a new entry when the key is absent.
pub fn assoc_upsert<V>(entries: &mut Vec<(String, V)>, key: String, value: V)
    ensures
        ({
            let i = assoc_index(old(entries)@, key@);
            if i >= 0 {
                final(entries)@ == old(entries)@.update(i, (old(entries)@[i].0, value))
            } else {
                final(entries)@ == old(entries)@.push((key, value))
            }
        }),
{
    match assoc_find(entries, key.as_str()) {
        Some(i) => {
            let k = entries[i].0.clone();
            entries.set(i, (k, value));
        },
        None => {
            entries.push((key, value));
        },
    }
}

/// After setting `key`, looking it up gives the new value and every other
/// key keeps its value.
pub proof fn lemma_upsert_get<V>(before: Seq<(String, V)>, after: Seq<(String, V)>, key: String, value: V, other: Seq<char>)
    requires
        ({
            let i = assoc_index(before, key@);
            if i >= 0 {
                after == before.update(i, (before[i].0, value))
            } else {
                after == before.push((key, value))
            }
        }),
    ensures
        assoc_get(after, key@) == Some(value),
        other != key@ ==> assoc_get(after, other) == assoc_get(before, other),
{
    lemma_assoc_index(before, key@);
    lemma_assoc_index(before, other);
    let i = assoc_index(before, key@);
    if i >= 0 {
        assert forall|j: int| 0 <= j < i implies #[trigger] after[j].0@ != key@ by {
            assert(after[j] == before[j]);
        }
        lemma_assoc_index_is(after, key@, i);
        if other != key@ {
            let k = assoc_index(before, other);
            if k >= 0 {
                assert forall|j: int| 0 <= j < k implies #[trigger] after[j].0@ != other by {
                    if j != i {
                        assert(after[j] == before[j]);
                    }
                }
                lemma_assoc_index_is(after, other, k);
            } else {
                assert forall|j: int| 0 <= j < after.len() implies #[trigger] after[j].0@ != other by {
                    if j != i {
                        assert(after[j] == before[j]);
                    }
                }
                lemma_assoc_index_none(after, other);
            }
        }
    } else {
        assert forall|j: int| 0 <= j < before.len() implies #[trigger] after[j].0@ != key@ by {
            assert(after[j] == before[j]);
        }
        lemma_assoc_index_is(after, key@, before.len() as int);
        if other != key@ {
            let k = assoc_index(before, other);
            if k >= 0 {
                assert forall|j: int| 0 <= j < k implies #[trigger] after[j].0@ != other by {
                    assert(after[j] == before[j]);
                }
                lemma_assoc_index_is(after, other, k);
            } else {
                assert forall|j: int| 0 <= j < after.len() implies #[trigger] after[j].0@ != other by {
                    if j < before.len() {
                        assert(after[j] == before[j]);
                    }
                }
                lemma_assoc_index_none(after, other);
            }
        }
    }
}

} // verus!
