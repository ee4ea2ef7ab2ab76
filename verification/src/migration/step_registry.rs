//! The registry of migration steps, keyed by the layout hashes of the schema
//! a step migrates from and the one it migrates to.

use vstd::prelude::*;

use crate::text::str_eq;
use crate::units::{ClError, Result};

verus! {

#[derive(Debug, Clone)]
pub struct MigrationStepKey {
    pub from_layout_hash: String,
    pub to_layout_hash: String,
}

/// Index of the first step registered under `(from, to)`, or `-1`.
pub open spec fn step_index<D>(steps: Seq<(MigrationStepKey, D)>, from: Seq<char>, to: Seq<char>) -> int
    decreases steps.len(),
{
    if steps.len() == 0 {
        -1
    } else if steps[0].0.from_layout_hash@ == from && steps[0].0.to_layout_hash@ == to {
        0
    } else {
        let i = step_index(steps.drop_first(), from, to);
        if i == -1 { -1 } else { i + 1 }
    }
}

proof fn lemma_step_index<D>(steps: Seq<(MigrationStepKey, D)>, from: Seq<char>, to: Seq<char>)
    ensures
        -1 <= step_index(steps, from, to) < steps.len(),
        step_index(steps, from, to) >= 0 ==> {
            let i = step_index(steps, from, to);
            steps[i].0.from_layout_hash@ == from && steps[i].0.to_layout_hash@ == to
        },
    decreases steps.len(),
{
    if steps.len() > 0 && !(steps[0].0.from_layout_hash@ == from && steps[0].0.to_layout_hash@ == to) {
        lemma_step_index(steps.drop_first(), from, to);
    }
}

proof fn lemma_step_index_is<D>(steps: Seq<(MigrationStepKey, D)>, from: Seq<char>, to: Seq<char>, i: int)
    requires
        0 <= i < steps.len(),
        steps[i].0.from_layout_hash@ == from && steps[i].0.to_layout_hash@ == to,
        forall|j: int| 0 <= j < i ==> !((#[trigger] steps[j]).0.from_layout_hash@ == from && steps[j].0.to_layout_hash@ == to),
    ensures
        step_index(steps, from, to) == i,
    decreases i,
{
    if i > 0 {
        assert forall|j: int| 0 <= j < i - 1 implies !((#[trigger] steps.drop_first()[j]).0.from_layout_hash@ == from
            && steps.drop_first()[j].0.to_layout_hash@ == to) by {
            assert(steps.drop_first()[j] == steps[j + 1]);
        }
        lemma_step_index_is(steps.drop_first(), from, to, i - 1);
    }
}

proof fn lemma_step_index_none<D>(steps: Seq<(MigrationStepKey, D)>, from: Seq<char>, to: Seq<char>)
    requires
        forall|j: int| 0 <= j < steps.len() ==> !((#[trigger] steps[j]).0.from_layout_hash@ == from && steps[j].0.to_layout_hash@ == to),
    ensures
        step_index(steps, from, to) == -1,
    decreases steps.len(),
{
    if steps.len() > 0 {
        assert forall|j: int| 0 <= j < steps.len() - 1 implies !((#[trigger] steps.drop_first()[j]).0.from_layout_hash@ == from
            && steps.drop_first()[j].0.to_layout_hash@ == to) by {
            assert(steps.drop_first()[j] == steps[j + 1]);
        }
        lemma_step_index_none(steps.drop_first(), from, to);
    }
}

/// Registering a step under a key gives a registry in which that key is
/// found, at the step registered first.
proof fn lemma_step_index_after_push<D>(steps: Seq<(MigrationStepKey, D)>, key: MigrationStepKey, step: D)
    requires
        step_index(steps, key.from_layout_hash@, key.to_layout_hash@) == -1,
    ensures
        step_index(steps.push((key, step)), key.from_layout_hash@, key.to_layout_hash@) == steps.len(),
    decreases steps.len(),
{
    let s = steps.push((key, step));
    let (f, t) = (key.from_layout_hash@, key.to_layout_hash@);
    assert forall|j: int| 0 <= j < steps.len() implies !((#[trigger] s[j]).0.from_layout_hash@ == f && s[j].0.to_layout_hash@ == t) by {
        assert(s[j] == steps[j]);
        if steps[j].0.from_layout_hash@ == f && steps[j].0.to_layout_hash@ == t {
            lemma_step_index_first(steps, f, t, j);
        }
    }
    lemma_step_index_is(s, f, t, steps.len() as int);
}

proof fn lemma_step_index_first<D>(steps: Seq<(MigrationStepKey, D)>, from: Seq<char>, to: Seq<char>, j: int)
    requires
        0 <= j < steps.len(),
        steps[j].0.from_layout_hash@ == from && steps[j].0.to_layout_hash@ == to,
    ensures
        0 <= step_index(steps, from, to) <= j,
    decreases steps.len(),
{
    if !(steps[0].0.from_layout_hash@ == from && steps[0].0.to_layout_hash@ == to) {
        assert(steps.drop_first()[j - 1] == steps[j]);
        lemma_step_index_first(steps.drop_first(), from, to, j - 1);
    }
}

/// Registering the same key twice changes nothing the second time: after a
/// first `register` of `key` (whatever the registry held), a second one
/// leaves the steps as they are, and the key finds the step it found after
/// the first.
pub proof fn law_second_registration_changes_nothing<D>(
    before: Seq<(MigrationStepKey, D)>,
    mid: Seq<(MigrationStepKey, D)>,
    after: Seq<(MigrationStepKey, D)>,
    key: MigrationStepKey,
    first: D,
    second: D,
)
    requires
        step_index(before, key.from_layout_hash@, key.to_layout_hash@) >= 0 ==> mid == before,
        step_index(before, key.from_layout_hash@, key.to_layout_hash@) == -1 ==> mid == before.push((key, first)),
        step_index(mid, key.from_layout_hash@, key.to_layout_hash@) >= 0 ==> after == mid,
        step_index(mid, key.from_layout_hash@, key.to_layout_hash@) == -1 ==> after == mid.push((key, second)),
    ensures
        after == mid,
        step_index(after, key.from_layout_hash@, key.to_layout_hash@) >= 0,
{
    lemma_step_index(before, key.from_layout_hash@, key.to_layout_hash@);
    lemma_step_index(mid, key.from_layout_hash@, key.to_layout_hash@);
    if step_index(before, key.from_layout_hash@, key.to_layout_hash@) == -1 {
        lemma_step_index_after_push(before, key, first);
    }
}

/// Migration steps by `(from layout hash, to layout hash)`.
pub struct MigrationStepRegistry<D> {
    pub steps: Vec<(MigrationStepKey, D)>,
}

impl<D> MigrationStepRegistry<D> {
    pub fn new() -> (r: Self)
        ensures
            r.steps@.len() == 0,
    {
        MigrationStepRegistry { steps: Vec::new() }
    }

    fn find(&self, from: &str, to: &str) -> (r: Option<usize>)
        ensures
            match r {
                Some(i) => i as int == step_index(self.steps@, from@, to@) && i < self.steps@.len(),
                None => step_index(self.steps@, from@, to@) == -1,
            },
    {
        let mut i: usize = 0;
        while i < self.steps.len()
            invariant
                i <= self.steps@.len(),
                forall|j: int| 0 <= j < i ==> !((#[trigger] self.steps@[j]).0.from_layout_hash@ == from@
                    && self.steps@[j].0.to_layout_hash@ == to@),
            decreases self.steps@.len() - i,
        {
            let k = &self.steps[i].0;
            if str_eq(k.from_layout_hash.as_str(), from) && str_eq(k.to_layout_hash.as_str(), to) {
                proof { lemma_step_index_is(self.steps@, from@, to@, i as int); }
                return Some(i);
            }
            i = i + 1;
        }
        proof { lemma_step_index_none(self.steps@, from@, to@); }
        None
    }

    /// Registers `step` under `key` unless a step is registered under it
    /// already (the first registration stays); gives the key back.
    pub fn register(&mut self, key: MigrationStepKey, step: D) -> (r: MigrationStepKey)
        ensures
            r == key,
            step_index(old(self).steps@, key.from_layout_hash@, key.to_layout_hash@) >= 0 ==> final(self).steps == old(self).steps,
            step_index(old(self).steps@, key.from_layout_hash@, key.to_layout_hash@) == -1 ==>
                final(self).steps@ == old(self).steps@.push((key, step)),
    {
        match self.find(key.from_layout_hash.as_str(), key.to_layout_hash.as_str()) {
            Some(_) => key,
            None => {
                let k = MigrationStepKey {
                    from_layout_hash: key.from_layout_hash.clone(),
                    to_layout_hash: key.to_layout_hash.clone(),
                };
                assert(k == key);
                self.steps.push((k, step));
                key
            },
        }
    }

    /// The step registered under `(from_hash, to_hash)`.
    pub fn get_by_layout(&self, from_hash: &str, to_hash: &str) -> (r: Result<&D>)
        ensures
            ({
                let i = step_index(self.steps@, from_hash@, to_hash@);
                if i >= 0 {
                    r == Ok::<&D, ClError>(&self.steps@[i].1)
                } else {
                    r matches Err(ClError::DecoderNotFound { from_layout_hash, to_layout_hash, migration_id })
                        && from_layout_hash@ == from_hash@ && to_layout_hash@ == to_hash@ && migration_id@.len() == 0
                }
            }),
    {
        match self.find(from_hash, to_hash) {
            Some(i) => Ok(&self.steps[i].1),
            None => Err(ClError::DecoderNotFound {
                from_layout_hash: from_hash.to_owned(),
                to_layout_hash: to_hash.to_owned(),
                migration_id: String::new(),
            }),
        }
    }
}

} // verus!
