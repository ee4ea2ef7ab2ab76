//! Field maps: a decoder that renames fields (and converts some of them) as
//! records pass from one schema to another.

use vstd::prelude::*;

use crate::assoc::{assoc_find, assoc_get, assoc_index, assoc_upsert, lemma_assoc_index, lemma_upsert_get};

verus! {

#[derive(Debug, Clone, Copy, PartialEq, Eq, Structural)]
pub enum FieldTransform {
    Identity,
    /// A dollar amount, as a number, to whole cents.
    UsdToCents,
}

/// Renames of fields (old name to new name) and the conversion applied to
/// some of them, each keyed by the old name.
pub struct FieldMap {
    pub renames: Vec<(String, String)>,
    pub transforms: Vec<(String, FieldTransform)>,
}

pub struct FieldMapDecoder {
    pub renames: Vec<(String, String)>,
    pub transforms: Vec<(String, FieldTransform)>,
}

fn copy_renames(v: &Vec<(String, String)>) -> (r: Vec<(String, String)>)
    ensures
        r@ == v@,
{
    let mut out: Vec<(String, String)> = Vec::new();
    let mut i: usize = 0;
    while i < v.len()
        invariant
            i <= v@.len(),
            out@ == v@.take(i as int),
        decreases v@.len() - i,
    {
        out.push((v[i].0.clone(), v[i].1.clone()));
        assert(out@ =~= v@.take(i + 1));
        i = i + 1;
    }
    assert(v@.take(v@.len() as int) =~= v@);
    out
}

fn copy_transforms(v: &Vec<(String, FieldTransform)>) -> (r: Vec<(String, FieldTransform)>)
    ensures
        r@ == v@,
{
    let mut out: Vec<(String, FieldTransform)> = Vec::new();
    let mut i: usize = 0;
    while i < v.len()
        invariant
            i <= v@.len(),
            out@ == v@.take(i as int),
        decreases v@.len() - i,
    {
        out.push((v[i].0.clone(), v[i].1));
        assert(out@ =~= v@.take(i + 1));
        i = i + 1;
    }
    assert(v@.take(v@.len() as int) =~= v@);
    out
}

impl FieldMap {
    pub fn new() -> (r: Self)
        ensures
            r.renames@.len() == 0,
            r.transforms@.len() == 0,
    {
        FieldMap { renames: Vec::new(), transforms: Vec::new() }
    }

    /// Renames field `from` to `to` (replacing an earlier rename of `from`).
    pub fn rename(self, from: &str, to: &str) -> (r: Self)
        ensures
            assoc_get(r.renames@, from@) matches Some(t) && t@ == to@,
            forall|k: Seq<char>| k != from@ ==> #[trigger] assoc_get(r.renames@, k) == assoc_get(self.renames@, k),
            r.transforms == self.transforms,
    {
        let mut m = self;
        let ghost before = m.renames@;
        let key = from.to_owned();
        let val = to.to_owned();
        let ghost (kk, vv) = (key, val);
        assoc_upsert(&mut m.renames, key, val);
        proof {
            lemma_upsert_get(before, m.renames@, kk, vv, from@);
            assert forall|k: Seq<char>| k != from@ implies #[trigger] assoc_get(m.renames@, k) == assoc_get(before, k) by {
                lemma_upsert_get(before, m.renames@, kk, vv, k);
            }
        }
        m
    }

    /// Renames field `from` to `to` and converts its value by `rule`.
    pub fn transform(self, from: &str, to: &str, rule: FieldTransform) -> (r: Self)
        ensures
            assoc_get(r.renames@, from@) matches Some(t) && t@ == to@,
            forall|k: Seq<char>| k != from@ ==> #[trigger] assoc_get(r.renames@, k) == assoc_get(self.renames@, k),
            assoc_get(r.transforms@, from@) == Some(rule),
            forall|k: Seq<char>| k != from@ ==> #[trigger] assoc_get(r.transforms@, k) == assoc_get(self.transforms@, k),
    {
        let mut m = self.rename(from, to);
        let ghost before = m.transforms@;
        let key = from.to_owned();
        let ghost kk = key;
        assoc_upsert(&mut m.transforms, key, rule);
        proof {
            lemma_upsert_get(before, m.transforms@, kk, rule, from@);
            assert forall|k: Seq<char>| k != from@ implies #[trigger] assoc_get(m.transforms@, k) == assoc_get(before, k) by {
                lemma_upsert_get(before, m.transforms@, kk, rule, k);
            }
        }
        m
    }

    /// A decoder applying this map.
    pub fn build_decoder(&self) -> (r: FieldMapDecoder)
        ensures
            r.renames@ == self.renames@,
            r.transforms@ == self.transforms@,
    {
        FieldMapDecoder { renames: copy_renames(&self.renames), transforms: copy_transforms(&self.transforms) }
    }
}

impl FieldMapDecoder {
    /// The name field `k` has after the map: its rename, else itself.
    pub fn target_key(&self, k: &str) -> (r: String)
        ensures
            match assoc_get(self.renames@, k@) {
                Some(t) => r@ == t@,
                None => r@ == k@,
            },
    {
        proof { lemma_assoc_index(self.renames@, k@); }
        match assoc_find(&self.renames, k) {
            Some(i) => self.renames[i].1.clone(),
            None => k.to_owned(),
        }
    }

    /// What the map makes of each member name, in order: the name the member
    /// gets and the conversion applied to its value, if any.
    pub fn member_plan(&self, names: &Vec<String>) -> (r: Vec<(String, Option<FieldTransform>)>)
        ensures
            r@.len() == names@.len(),
            forall|i: int| 0 <= i < names@.len() ==> {
                &&& (#[trigger] r@[i]).0@ == (match assoc_get(self.renames@, names@[i]@) {
                    Some(t) => t@,
                    None => names@[i]@,
                })
                &&& r@[i].1 == assoc_get(self.transforms@, names@[i]@)
            },
    {
        let mut out: Vec<(String, Option<FieldTransform>)> = Vec::new();
        let mut i: usize = 0;
        while i < names.len()
            invariant
                i <= names@.len(),
                out@.len() == i,
                forall|j: int| 0 <= j < i ==> {
                    &&& (#[trigger] out@[j]).0@ == (match assoc_get(self.renames@, names@[j]@) {
                        Some(t) => t@,
                        None => names@[j]@,
                    })
                    &&& out@[j].1 == assoc_get(self.transforms@, names@[j]@)
                },
            decreases names@.len() - i,
        {
            let target = self.target_key(names[i].as_str());
            let rule = self.transform_for(names[i].as_str());
            out.push((target, rule));
            i = i + 1;
        }
        out
    }

    /// The conversion applied to field `k`, if any.
    pub fn transform_for(&self, k: &str) -> (r: Option<FieldTransform>)
        ensures
            r == assoc_get(self.transforms@, k@),
    {
        proof { lemma_assoc_index(self.transforms@, k@); }
        match assoc_find(&self.transforms, k) {
            Some(i) => Some(self.transforms[i].1),
            None => None,
        }
    }
}

} // verus!
