//! Decoders that turn stored JSON of one schema into another: merging
//! defaults into a record, and the registry that finds a decoder by name.

use vstd::prelude::*;

use crate::assoc::{assoc_find, assoc_get, assoc_has, assoc_index, assoc_upsert, lemma_assoc_get_push, lemma_assoc_index, lemma_upsert_get};
use crate::json::JsonValue;
use crate::units::{ClError, Result};

verus! {

/// The members of `base` followed by those of `template` whose key is not
/// there yet (a later duplicate of a key added from the template is left out).
pub open spec fn merged_members(base: Seq<(String, JsonValue)>, template: Seq<(String, JsonValue)>) -> Seq<(String, JsonValue)>
    decreases template.len(),
{
    if template.len() == 0 {
        base
    } else {
        let m = merged_members(base, template.drop_last());
        if assoc_has(m, template.last().0@) {
            m
        } else {
            m.push(template.last())
        }
    }
}

/// Merging defaults keeps every member the record has and adds, for each key
/// only the template has, the template's value: a member is never
/// overwritten, and no key of either is lost.
pub proof fn law_merge_keeps_existing_and_fills_missing(base: Seq<(String, JsonValue)>, template: Seq<(String, JsonValue)>, key: Seq<char>)
    ensures
        assoc_get(merged_members(base, template), key) == (if assoc_has(base, key) {
            assoc_get(base, key)
        } else {
            assoc_get(template, key)
        }),
        assoc_has(merged_members(base, template), key) == (assoc_has(base, key) || assoc_has(template, key)),
    decreases template.len(),
{
    lemma_assoc_index(base, key);
    if template.len() == 0 {
        lemma_assoc_index(template, key);
    } else {
        let init = template.drop_last();
        let last = template.last();
        law_merge_keeps_existing_and_fills_missing(base, init, key);
        assert(init.push(last) =~= template);
        lemma_assoc_get_push(init, last, key);
        let m = merged_members(base, init);
        lemma_assoc_get_push(m, last, key);
        let r = merged_members(base, template);
        assert(r == (if assoc_has(m, last.0@) { m } else { m.push(last) }));
        if !assoc_has(base, key) && !assoc_has(init, key) && last.0@ != key {
            lemma_assoc_index(init, key);
        }
    }
}

/// Fills in the members of the template object that the target object
/// lacks; anything but two objects is left as it is.
pub fn merge_defaults(target: &mut JsonValue, template: JsonValue)
    ensures
        match (*old(target), template) {
            (JsonValue::Object(t), JsonValue::Object(tp)) =>
                *final(target) matches JsonValue::Object(n) && n@ == merged_members(t@, tp@),
            _ => *final(target) == *old(target),
        },
{
    let mut current = JsonValue::Null;
    std::mem::swap(&mut current, target);
    match (current, template) {
        (JsonValue::Object(tgt), JsonValue::Object(tpl)) => {
            let ghost base = tgt@;
            let ghost all = tpl@;
            let n_tpl = tpl.len();
            let mut out = tgt;
            let mut rest = tpl;
            let mut i: usize = 0;
            assert(all.take(0) =~= Seq::<(String, JsonValue)>::empty());
            assert(all.skip(0) =~= all);
            while rest.len() > 0
                invariant
                    i <= all.len(),
                    all.len() == n_tpl,
                    rest@ == all.skip(i as int),
                    out@ == merged_members(base, all.take(i as int)),
                decreases rest@.len(),
            {
                let (k, v) = rest.remove(0);
                proof {
                    assert(all.take(i + 1).drop_last() =~= all.take(i as int));
                    assert(all.take(i + 1).last() == all[i as int]);
                    assert(all.skip(i as int)[0] == all[i as int]);
                    assert(all.skip(i + 1) =~= all.skip(i as int).subrange(1, all.skip(i as int).len() as int));
                    lemma_assoc_index(out@, k@);
                }
                match assoc_find(&out, k.as_str()) {
                    Some(_) => {},
                    None => {
                        out.push((k, v));
                    },
                }
                i = i + 1;
            }
            assert(all.take(i as int) =~= all);
            *target = JsonValue::Object(out);
        },
        (c, _) => {
            *target = c;
        },
    }
}

/// Decoders found by name.
pub struct SchemaDecoderRegistry<D> {
    pub decoders: Vec<(String, D)>,
}

impl<D> SchemaDecoderRegistry<D> {
    pub fn new() -> (r: Self)
        ensures
            r.decoders@.len() == 0,
    {
        SchemaDecoderRegistry { decoders: Vec::new() }
    }

    /// Registers `decoder` under `name`, replacing one of that name.
    pub fn register(&mut self, name: String, decoder: D)
        ensures
            assoc_get(final(self).decoders@, name@) == Some(decoder),
            forall|n: Seq<char>| n != name@ ==> #[trigger] assoc_get(final(self).decoders@, n) == assoc_get(old(self).decoders@, n),
    {
        let ghost before = self.decoders@;
        let ghost k = name;
        let ghost d = decoder;
        assoc_upsert(&mut self.decoders, name, decoder);
        proof {
            lemma_upsert_get(before, self.decoders@, k, d, k@);
            assert forall|n: Seq<char>| n != k@ implies #[trigger] assoc_get(self.decoders@, n) == assoc_get(before, n) by {
                lemma_upsert_get(before, self.decoders@, k, d, n);
            }
        }
    }

    /// The decoder registered under `name`.
    pub fn get(&self, name: &str) -> (r: Result<&D>)
        ensures
            match assoc_get(self.decoders@, name@) {
                Some(d) => r == Ok::<&D, ClError>(&d),
                None => r matches Err(ClError::DecoderNotFound { from_layout_hash, to_layout_hash, migration_id })
                    && from_layout_hash@ == name@ && to_layout_hash@.len() == 0 && migration_id@.len() == 0,
            },
    {
        proof { lemma_assoc_index(self.decoders@, name@); }
        match assoc_find(&self.decoders, name) {
            Some(i) => Ok(&self.decoders[i].1),
            None => Err(ClError::DecoderNotFound {
                from_layout_hash: name.to_owned(),
                to_layout_hash: String::new(),
                migration_id: String::new(),
            }),
        }
    }
}

} // verus!
