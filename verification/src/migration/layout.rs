//! The field layout of a stored entity: its field names and JSON types, and a
//! hash that identifies the layout. Layouts are compared to decide whether a
//! schema change is safe.

use vstd::prelude::*;
use vstd::utf8::encode_utf8;
use std::collections::hash_map::DefaultHasher;
use std::hash::Hasher;
use vstd::std_specs::hash::DefaultHasherAdditionalSpecFns;

use crate::json::{JsonNumber, JsonValue};
use crate::text::{hex_u64_16, lex_lt, spec_hex_fixed, str_eq, str_lt, lemma_lex_irreflexive, lemma_lex_asymmetric, lemma_lex_transitive, lemma_lex_total};

verus! {

#[derive(Debug, Clone)]
pub struct FieldSpec {
    pub name: String,
    pub json_type: String,
    pub required: bool,
}

#[derive(Debug, Clone)]
pub struct FieldLayout {
    pub fields: Vec<FieldSpec>,
    pub layout_hash: String,
}

#[derive(Debug, Clone, Copy, PartialEq, Eq, Structural)]
pub enum LayoutDiffKind {
    Identical,
    AutoSafe,
    RequiresDecoder,
    Breaking,
}

#[derive(Debug, Clone)]
pub struct LayoutDiff {
    pub kind: LayoutDiffKind,
    pub added_fields: Vec<String>,
    pub removed_fields: Vec<String>,
    /// `(field, type before, type after)`
    pub type_changes: Vec<(String, String, String)>,
}

// ── type names ───────────────────────────────────────────────────────────────

pub open spec fn spec_json_type_name(v: JsonValue) -> Seq<char> {
    match v {
        JsonValue::Null => "null"@,
        JsonValue::Bool(_) => "bool"@,
        JsonValue::Number(n) => match n {
            JsonNumber::Float(_) => "number"@,
            _ => "integer"@,
        },
        JsonValue::String(_) => "string"@,
        JsonValue::Array(_) => "array"@,
        JsonValue::Object(_) => "object"@,
    }
}

/// The JSON type of a value; integers (`u64` or `i64`) are `integer`, other
/// numbers `number`.
pub fn json_type_name(v: &JsonValue) -> (r: String)
    ensures
        r@ == spec_json_type_name(*v),
{
    match v {
        JsonValue::Null => "null".to_owned(),
        JsonValue::Bool(_) => "bool".to_owned(),
        JsonValue::Number(n) => match n {
            JsonNumber::Float(_) => "number".to_owned(),
            _ => "integer".to_owned(),
        },
        JsonValue::String(_) => "string".to_owned(),
        JsonValue::Array(_) => "array".to_owned(),
        JsonValue::Object(_) => "object".to_owned(),
    }
}

// ── capture ──────────────────────────────────────────────────────────────────

/// A field spec by value: name, JSON type, `required`.
pub struct FieldView {
    pub name: Seq<char>,
    pub json_type: Seq<char>,
    pub required: bool,
}

pub open spec fn fview(f: FieldSpec) -> FieldView {
    FieldView { name: f.name@, json_type: f.json_type@, required: f.required }
}

pub open spec fn fviews(s: Seq<FieldSpec>) -> Seq<FieldView> {
    s.map_values(|f: FieldSpec| fview(f))
}

/// The field a JSON object member describes: its name, its JSON type, required.
pub open spec fn member_field(e: (String, JsonValue)) -> FieldView {
    FieldView { name: e.0@, json_type: spec_json_type_name(e.1), required: true }
}

/// Where a stable insertion sort puts `f`: before the first field whose name
/// sorts after `f`'s.
pub open spec fn insert_pos(s: Seq<FieldView>, f: FieldView) -> int
    decreases s.len(),
{
    if s.len() == 0 {
        0
    } else if lex_lt(f.name, s[0].name) {
        0
    } else {
        1 + insert_pos(s.drop_first(), f)
    }
}

/// Fields sorted by name, keeping the original order among equal names.
pub open spec fn sort_fields(s: Seq<FieldView>) -> Seq<FieldView>
    decreases s.len(),
{
    if s.len() == 0 {
        Seq::empty()
    } else {
        let r = sort_fields(s.drop_last());
        r.insert(insert_pos(r, s.last()), s.last())
    }
}

/// Fields whose names never decrease.
pub open spec fn sorted_by_name(s: Seq<FieldView>) -> bool {
    forall|i: int, j: int| 0 <= i < j < s.len() ==> !lex_lt(#[trigger] s[j].name, #[trigger] s[i].name)
}

proof fn lemma_insert_pos_bounds(s: Seq<FieldView>, f: FieldView)
    ensures
        0 <= insert_pos(s, f) <= s.len(),
        forall|j: int| 0 <= j < insert_pos(s, f) ==> !lex_lt(f.name, #[trigger] s[j].name),
        insert_pos(s, f) < s.len() ==> lex_lt(f.name, s[insert_pos(s, f)].name),
    decreases s.len(),
{
    if s.len() > 0 && !lex_lt(f.name, s[0].name) {
        lemma_insert_pos_bounds(s.drop_first(), f);
        assert forall|j: int| 0 <= j < insert_pos(s, f) implies !lex_lt(f.name, #[trigger] s[j].name) by {
            if j > 0 {
                assert(s[j] == s.drop_first()[j - 1]);
            }
        }
    }
}

proof fn lemma_insert_keeps_sorted(s: Seq<FieldView>, f: FieldView)
    requires
        sorted_by_name(s),
    ensures
        sorted_by_name(s.insert(insert_pos(s, f), f)),
        s.insert(insert_pos(s, f), f).len() == s.len() + 1,
{
    lemma_insert_pos_bounds(s, f);
    let p = insert_pos(s, f);
    let t = s.insert(p, f);
    assert forall|i: int, j: int| 0 <= i < j < t.len() implies !lex_lt(#[trigger] t[j].name, #[trigger] t[i].name) by {
        if i < p && j == p {
            assert(t[i] == s[i]);
            lemma_lex_total(f.name, s[i].name);
            lemma_lex_asymmetric(f.name, s[i].name);
        } else if i == p && j > p {
            assert(t[j] == s[j - 1]);
            if lex_lt(s[j - 1].name, f.name) {
                if j - 1 == p {
                    lemma_lex_asymmetric(f.name, s[p].name);
                } else {
                    assert(!lex_lt(s[j - 1].name, s[p].name));
                    lemma_lex_transitive(s[j - 1].name, f.name, s[p].name);
                }
            }
        } else if i < p && j < p {
            assert(t[i] == s[i] && t[j] == s[j]);
        } else if i < p && j > p {
            assert(t[i] == s[i] && t[j] == s[j - 1]);
        } else {
            assert(t[i] == s[i - 1] && t[j] == s[j - 1]);
        }
    }
}

/// Sorting by name gives fields whose names never decrease, one per input field.
pub proof fn law_sorted_fields_are_sorted(s: Seq<FieldView>)
    ensures
        sorted_by_name(sort_fields(s)),
        sort_fields(s).len() == s.len(),
    decreases s.len(),
{
    if s.len() > 0 {
        law_sorted_fields_are_sorted(s.drop_last());
        lemma_insert_keeps_sorted(sort_fields(s.drop_last()), s.last());
    }
}

fn find_insert_pos(out: &Vec<FieldSpec>, f: &FieldSpec) -> (r: usize)
    ensures
        r as int == insert_pos(fviews(out@), fview(*f)),
{
    let ghost v = fviews(out@);
    let mut i: usize = 0;
    assert(v.skip(0) =~= v);
    while i < out.len() && !str_lt(f.name.as_str(), out[i].name.as_str())
        invariant
            i <= out@.len(),
            v == fviews(out@),
            insert_pos(v, fview(*f)) == i + insert_pos(v.skip(i as int), fview(*f)),
        decreases out@.len() - i,
    {
        assert(v.skip(i as int).drop_first() =~= v.skip(i + 1));
        assert(v.skip(i as int)[0] == fview(out@[i as int]));
        i = i + 1;
    }
    if i < out.len() {
        assert(v.skip(i as int)[0] == fview(out@[i as int]));
    }
    i
}

/// The bytes hashed for a field list: per field, its name and `0xff`, its
/// JSON type and `0xff` (as `Hash` writes a `str`), and one byte for
/// `required` (as `Hash` writes a `bool`).
pub open spec fn hash_input(fields: Seq<FieldView>) -> Seq<Seq<u8>>
    decreases fields.len(),
{
    if fields.len() == 0 {
        Seq::empty()
    } else {
        let f = fields.last();
        hash_input(fields.drop_last()) + seq![
            encode_utf8(f.name),
            seq![0xffu8],
            encode_utf8(f.json_type),
            seq![0xffu8],
            seq![if f.required { 1u8 } else { 0u8 }],
        ]
    }
}

/// The layout hash of a field list: the 64-bit `DefaultHasher` digest of
/// `hash_input`, in sixteen lower-case hex digits.
pub open spec fn spec_layout_hash(fields: Seq<FieldView>) -> Seq<char> {
    spec_hex_fixed(DefaultHasher::spec_finish(hash_input(fields)) as nat, 16)
}

proof fn lemma_fviews_take(s: Seq<FieldSpec>, i: int)
    requires
        0 <= i < s.len(),
    ensures
        fviews(s.take(i + 1)).drop_last() == fviews(s.take(i)),
        fviews(s.take(i + 1)).last() == fview(s[i]),
        fviews(s.take(i + 1)).len() == i + 1,
{
    assert(fviews(s.take(i + 1)).drop_last() =~= fviews(s.take(i)));
}

/// Hashes the fields as `Hash` does for a `str` (its bytes, then `0xff`) and
/// for a `bool` (one byte), in field order.
pub fn compute_hash(fields: &Vec<FieldSpec>) -> (r: String)
    ensures
        r@ == spec_layout_hash(fviews(fields@)),
        r@.len() == 16,
{
    let mut hasher = DefaultHasher::new();
    assert(fviews(fields@.take(0)) =~= Seq::<FieldView>::empty());
    let sep: Vec<u8> = vec![0xffu8];
    let mut i: usize = 0;
    while i < fields.len()
        invariant
            i <= fields@.len(),
            sep@ == seq![0xffu8],
            hasher@ == hash_input(fviews(fields@.take(i as int))),
        decreases fields@.len() - i,
    {
        let f = &fields[i];
        let ghost before = hasher@;
        hasher.write(f.name.as_str().as_bytes());
        hasher.write(sep.as_slice());
        hasher.write(f.json_type.as_str().as_bytes());
        hasher.write(sep.as_slice());
        let flag: Vec<u8> = if f.required { vec![1u8] } else { vec![0u8] };
        hasher.write(flag.as_slice());
        proof {
            lemma_fviews_take(fields@, i as int);
            let flag_bytes: Seq<u8> = seq![if f.required { 1u8 } else { 0u8 }];
            assert(flag@ =~= flag_bytes);
            assert(hasher@ =~= before + seq![
                encode_utf8(f.name@),
                seq![0xffu8],
                encode_utf8(f.json_type@),
                seq![0xffu8],
                flag_bytes,
            ]);
        }
        i = i + 1;
    }
    assert(fields@.take(fields@.len() as int) =~= fields@);
    let h = hasher.finish();
    hex_u64_16(h)
}

pub open spec fn member_fields(value: JsonValue) -> Seq<FieldView> {
    match value {
        JsonValue::Object(entries) => entries@.map_values(|e: (String, JsonValue)| member_field(e)),
        _ => Seq::empty(),
    }
}

/// The fields captured from a JSON value, sorted by name.
pub open spec fn value_fields(value: JsonValue) -> Seq<FieldView> {
    sort_fields(member_fields(value))
}

/// The layout hash of the fields captured from a JSON value.
pub open spec fn value_hash(value: JsonValue) -> Seq<char> {
    spec_layout_hash(value_fields(value))
}

impl FieldLayout {
    /// The layout of a JSON value: one required field per member of an object
    /// (none for any other value), sorted by name, and their hash.
    pub fn from_json_value(value: &JsonValue) -> (r: Self)
        ensures
            fviews(r.fields@) == value_fields(*value),
            r.layout_hash@ == value_hash(*value),
    {
        let mut fields: Vec<FieldSpec> = Vec::new();
        let ghost mapped = member_fields(*value);
        match value {
            JsonValue::Object(entries) => {
                let mut i: usize = 0;
                while i < entries.len()
                    invariant
                        i <= entries@.len(),
                        mapped == entries@.map_values(|e: (String, JsonValue)| member_field(e)),
                        fviews(fields@) == sort_fields(mapped.take(i as int)),
                    decreases entries@.len() - i,
                {
                    let (name, v) = &entries[i];
                    let f = FieldSpec { name: name.clone(), json_type: json_type_name(v), required: true };
                    assert(fview(f) == mapped[i as int]);
                    let p = find_insert_pos(&fields, &f);
                    let ghost before = fields@;
                    proof {
                        lemma_insert_pos_bounds(fviews(before), fview(f));
                    }
                    fields.insert(p, f);
                    proof {
                        let t = mapped.take(i + 1);
                        assert(t.drop_last() =~= mapped.take(i as int));
                        assert(t.last() == mapped[i as int]);
                        lemma_insert_pos_bounds(fviews(before), fview(f));
                        assert(fviews(fields@) =~= fviews(before).insert(p as int, fview(f)));
                    }
                    i = i + 1;
                }
                assert(mapped.take(entries@.len() as int) =~= mapped);
            },
            _ => {
                assert(fviews(fields@) =~= Seq::<FieldView>::empty());
            },
        }
        let layout_hash = compute_hash(&fields);
        FieldLayout { fields, layout_hash }
    }
}


// ── diff ─────────────────────────────────────────────────────────────────────

/// The JSON type recorded for each field name. Where a name occurs twice the
/// later field wins, as when the fields are collected into a map.
pub open spec fn field_types(fields: Seq<FieldView>) -> Map<Seq<char>, Seq<char>>
    decreases fields.len(),
{
    if fields.len() == 0 {
        Map::empty()
    } else {
        field_types(fields.drop_last()).insert(fields.last().name, fields.last().json_type)
    }
}

/// The JSON type of each field name of a layout.
pub open spec fn layout_types(l: FieldLayout) -> Map<Seq<char>, Seq<char>> {
    field_types(fviews(l.fields@))
}

/// Names in strictly increasing order (so each occurs once).
pub open spec fn strictly_sorted(s: Seq<Seq<char>>) -> bool {
    forall|i: int, j: int| 0 <= i < j < s.len() ==> lex_lt(#[trigger] s[i], #[trigger] s[j])
}

pub open spec fn string_views(v: Seq<String>) -> Seq<Seq<char>> {
    v.map_values(|s: String| s@)
}

pub open spec fn change_views(v: Seq<(String, String, String)>) -> Seq<(Seq<char>, Seq<char>, Seq<char>)> {
    v.map_values(|c: (String, String, String)| (c.0@, c.1@, c.2@))
}

/// Whether some field of `before` has no field of the same name in `after`.
pub open spec fn loses_field(before: Map<Seq<char>, Seq<char>>, after: Map<Seq<char>, Seq<char>>) -> bool {
    exists|n: Seq<char>| #[trigger] before.contains_key(n) && !after.contains_key(n)
}

/// Whether some field name has another JSON type in `after` than in `before`.
pub open spec fn changes_type(before: Map<Seq<char>, Seq<char>>, after: Map<Seq<char>, Seq<char>>) -> bool {
    exists|n: Seq<char>| #[trigger] before.contains_key(n) && after.contains_key(n) && before[n] != after[n]
}

/// How a change from fields `before` (with hash `before_hash`) to `after` is
/// classified: the same hash is identical; a lost field or a changed type
/// breaks; only new fields are safe; anything else (same names and types,
/// another hash) needs a decoder.
pub open spec fn diff_kind(before: Seq<FieldView>, before_hash: Seq<char>, after: Seq<FieldView>, after_hash: Seq<char>) -> LayoutDiffKind {
    let b = field_types(before);
    let a = field_types(after);
    if before_hash == after_hash {
        LayoutDiffKind::Identical
    } else if loses_field(b, a) || changes_type(b, a) {
        LayoutDiffKind::Breaking
    } else if loses_field(a, b) {
        LayoutDiffKind::AutoSafe
    } else {
        LayoutDiffKind::RequiresDecoder
    }
}

/// The kind of the change from layout `before` to layout `after`.
pub open spec fn layout_diff_kind(before: FieldLayout, after: FieldLayout) -> LayoutDiffKind {
    diff_kind(fviews(before.fields@), before.layout_hash@, fviews(after.fields@), after.layout_hash@)
}

spec fn entry_views(s: Seq<(String, String)>) -> Seq<(Seq<char>, Seq<char>)> {
    s.map_values(|e: (String, String)| (e.0@, e.1@))
}

spec fn names_ascending(s: Seq<(Seq<char>, Seq<char>)>) -> bool {
    forall|i: int, j: int| 0 <= i < j < s.len() ==> lex_lt(#[trigger] s[i].0, #[trigger] s[j].0)
}

/// `s` lists exactly the entries of `m`.
spec fn lists(s: Seq<(Seq<char>, Seq<char>)>, m: Map<Seq<char>, Seq<char>>) -> bool {
    &&& forall|i: int| 0 <= i < s.len() ==> #[trigger] m.contains_key(s[i].0) && m[s[i].0] == s[i].1
    &&& forall|n: Seq<char>| #[trigger] m.contains_key(n) ==> exists|i: int| 0 <= i < s.len() && s[i].0 == n
}

/// The first position whose name does not sort before `name`.
fn lower_bound(t: &Vec<(String, String)>, name: &str) -> (p: usize)
    requires
        names_ascending(entry_views(t@)),
    ensures
        p <= t@.len(),
        forall|j: int| 0 <= j < p ==> lex_lt(#[trigger] t@[j].0@, name@),
        p < t@.len() ==> !lex_lt(t@[p as int].0@, name@),
{
    let mut i: usize = 0;
    while i < t.len() && str_lt(t[i].0.as_str(), name)
        invariant
            i <= t@.len(),
            forall|j: int| 0 <= j < i ==> lex_lt(#[trigger] t@[j].0@, name@),
        decreases t@.len() - i,
    {
        i = i + 1;
    }
    i
}

proof fn lemma_table_replace(before: Seq<(Seq<char>, Seq<char>)>, p: int, name: Seq<char>, ty: Seq<char>, m: Map<Seq<char>, Seq<char>>)
    requires
        names_ascending(before),
        lists(before, m),
        0 <= p < before.len(),
        before[p].0 == name,
    ensures
        names_ascending(before.update(p, (name, ty))),
        lists(before.update(p, (name, ty)), m.insert(name, ty)),
{
    let after = before.update(p, (name, ty));
    let m2 = m.insert(name, ty);
    assert forall|a: int, b: int| 0 <= a < b < after.len() implies lex_lt(#[trigger] after[a].0, #[trigger] after[b].0) by {
        assert(before[a].0 == after[a].0 && before[b].0 == after[b].0);
    }
    assert forall|k: int| 0 <= k < after.len() implies #[trigger] m2.contains_key(after[k].0) && m2[after[k].0] == after[k].1 by {
        if k != p {
            assert(after[k] == before[k]);
            assert(m.contains_key(before[k].0));
            if before[k].0 == name {
                lemma_lex_irreflexive(name);
                if k < p {
                    assert(lex_lt(before[k].0, before[p].0));
                } else {
                    assert(lex_lt(before[p].0, before[k].0));
                }
            }
        }
    }
    assert forall|n: Seq<char>| #[trigger] m2.contains_key(n) implies exists|k: int| 0 <= k < after.len() && after[k].0 == n by {
        if n == name {
            assert(after[p].0 == n);
        } else {
            assert(m.contains_key(n));
            let k = choose|k: int| 0 <= k < before.len() && before[k].0 == n;
            assert(after[k].0 == n);
        }
    }
}

proof fn lemma_table_insert(before: Seq<(Seq<char>, Seq<char>)>, p: int, name: Seq<char>, ty: Seq<char>, m: Map<Seq<char>, Seq<char>>)
    requires
        names_ascending(before),
        lists(before, m),
        0 <= p <= before.len(),
        forall|j: int| 0 <= j < p ==> lex_lt(#[trigger] before[j].0, name),
        p < before.len() ==> !lex_lt(before[p].0, name) && before[p].0 != name,
    ensures
        names_ascending(before.insert(p, (name, ty))),
        lists(before.insert(p, (name, ty)), m.insert(name, ty)),
{
    let after = before.insert(p, (name, ty));
    let m2 = m.insert(name, ty);
    before.insert_ensures(p, (name, ty));
    assert forall|k: int| p <= k < before.len() implies lex_lt(name, #[trigger] before[k].0) by {
        lemma_lex_total(before[p].0, name);
        if k > p {
            lemma_lex_transitive(name, before[p].0, before[k].0);
        }
    }
    assert forall|a: int, b: int| 0 <= a < b < after.len() implies lex_lt(#[trigger] after[a].0, #[trigger] after[b].0) by {
        if a < p && b == p {
            assert(after[a] == before[a]);
        } else if a < p && b > p {
            assert(after[a] == before[a] && after[b] == before[b - 1]);
            assert(lex_lt(before[a].0, before[b - 1].0));
        } else if a == p {
            assert(after[b] == before[b - 1]);
        } else if b < p {
            assert(after[a] == before[a] && after[b] == before[b]);
        } else {
            assert(after[a] == before[a - 1] && after[b] == before[b - 1]);
        }
    }
    assert forall|k: int| 0 <= k < after.len() implies #[trigger] m2.contains_key(after[k].0) && m2[after[k].0] == after[k].1 by {
        if k < p {
            assert(after[k] == before[k]);
            assert(m.contains_key(before[k].0));
            lemma_lex_irreflexive(name);
        } else if k > p {
            assert(after[k] == before[k - 1]);
            assert(m.contains_key(before[k - 1].0));
            lemma_lex_irreflexive(name);
        }
    }
    assert forall|n: Seq<char>| #[trigger] m2.contains_key(n) implies exists|k: int| 0 <= k < after.len() && after[k].0 == n by {
        if n == name {
            assert(after[p].0 == n);
        } else {
            assert(m.contains_key(n));
            let k = choose|k: int| 0 <= k < before.len() && before[k].0 == n;
            if k < p {
                assert(after[k].0 == n);
            } else {
                assert(after[k + 1].0 == n);
            }
        }
    }
}

/// The fields' names and types, one entry per name, in name order.
fn type_table(fields: &Vec<FieldSpec>) -> (r: Vec<(String, String)>)
    ensures
        names_ascending(entry_views(r@)),
        lists(entry_views(r@), field_types(fviews(fields@))),
{
    let mut t: Vec<(String, String)> = Vec::new();
    let mut i: usize = 0;
    assert(fviews(fields@.take(0)) =~= Seq::<FieldView>::empty());
    assert(entry_views(t@) =~= Seq::<(Seq<char>, Seq<char>)>::empty());
    while i < fields.len()
        invariant
            i <= fields@.len(),
            names_ascending(entry_views(t@)),
            lists(entry_views(t@), field_types(fviews(fields@.take(i as int)))),
        decreases fields@.len() - i,
    {
        let f = &fields[i];
        let p = lower_bound(&t, f.name.as_str());
        let ghost before = entry_views(t@);
        let ghost m = field_types(fviews(fields@.take(i as int)));
        let e = (f.name.clone(), f.json_type.clone());
        proof {
            lemma_fviews_take(fields@, i as int);
        }
        assert(field_types(fviews(fields@.take(i + 1))) == m.insert(f.name@, f.json_type@));
        if p < t.len() && str_eq(t[p].0.as_str(), f.name.as_str()) {
            t.set(p, e);
            proof {
                lemma_table_replace(before, p as int, f.name@, f.json_type@, m);
                assert(entry_views(t@) =~= before.update(p as int, (f.name@, f.json_type@)));
            }
        } else {
            t.insert(p, e);
            proof {
                lemma_table_insert(before, p as int, f.name@, f.json_type@, m);
                assert(entry_views(t@) =~= before.insert(p as int, (f.name@, f.json_type@)));
            }
        }
        i = i + 1;
    }
    assert(fields@.take(fields@.len() as int) =~= fields@);
    t
}

/// Where `name` stands in a type table, if it does.
fn table_find(t: &Vec<(String, String)>, name: &str) -> (r: Option<usize>)
    ensures
        match r {
            Some(k) => k < t@.len() && t@[k as int].0@ == name@,
            None => forall|k: int| 0 <= k < t@.len() ==> #[trigger] t@[k].0@ != name@,
        },
{
    let mut i: usize = 0;
    while i < t.len()
        invariant
            i <= t@.len(),
            forall|k: int| 0 <= k < i ==> #[trigger] t@[k].0@ != name@,
        decreases t@.len() - i,
    {
        if str_eq(t[i].0.as_str(), name) {
            return Some(i);
        }
        i = i + 1;
    }
    None
}

proof fn lemma_push_contains<A>(s: Seq<A>, x: A, y: A)
    ensures
        s.push(x).contains(y) <==> (s.contains(y) || y == x),
{
    if s.contains(y) {
        let i = choose|i: int| 0 <= i < s.len() && s[i] == y;
        assert(s.push(x)[i] == y);
    }
    if y == x {
        assert(s.push(x)[s.len() as int] == x);
    }
    if s.push(x).contains(y) {
        let i = choose|i: int| 0 <= i < s.len() + 1 && s.push(x)[i] == y;
        if i < s.len() {
            assert(s[i] == y);
        }
    }
}

proof fn lemma_push_sorted(s: Seq<Seq<char>>, x: Seq<char>)
    requires
        strictly_sorted(s),
        forall|k: int| 0 <= k < s.len() ==> lex_lt(#[trigger] s[k], x),
    ensures
        strictly_sorted(s.push(x)),
{
    assert forall|a: int, b: int| 0 <= a < b < s.push(x).len() implies lex_lt(#[trigger] s.push(x)[a], #[trigger] s.push(x)[b]) by {
        assert(s.push(x)[a] == s[a]);
        if b < s.len() {
            assert(s.push(x)[b] == s[b]);
        }
    }
}

/// `found` holds, in order, the names among the first `j` entries of `t` that
/// `other` lacks.
spec fn only_in(found: Seq<Seq<char>>, t: Seq<(Seq<char>, Seq<char>)>, j: int, other: Map<Seq<char>, Seq<char>>) -> bool {
    &&& strictly_sorted(found)
    &&& forall|k: int| 0 <= k < found.len() ==> exists|q: int| 0 <= q < j && t[q].0 == #[trigger] found[k]
    &&& forall|n: Seq<char>| #[trigger] found.contains(n) <==> (exists|q: int| 0 <= q < j && t[q].0 == n) && !other.contains_key(n)
}

proof fn lemma_only_in_step(found: Seq<Seq<char>>, t: Seq<(Seq<char>, Seq<char>)>, j: int, other: Map<Seq<char>, Seq<char>>)
    requires
        only_in(found, t, j, other),
        names_ascending(t),
        0 <= j < t.len(),
    ensures
        other.contains_key(t[j].0) ==> only_in(found, t, j + 1, other),
        !other.contains_key(t[j].0) ==> only_in(found.push(t[j].0), t, j + 1, other),
{
    let x = t[j].0;
    assert forall|k: int| 0 <= k < found.len() implies lex_lt(#[trigger] found[k], x) by {
        let q = choose|q: int| 0 <= q < j && t[q].0 == found[k];
        assert(lex_lt(t[q].0, t[j].0));
    }
    assert(!found.contains(x)) by {
        if found.contains(x) {
            let k = choose|k: int| 0 <= k < found.len() && found[k] == x;
            assert(lex_lt(found[k], x));
            lemma_lex_irreflexive(x);
        }
    }
    if other.contains_key(x) {
        assert forall|n: Seq<char>| #[trigger] found.contains(n) <==> (exists|q: int| 0 <= q < j + 1 && t[q].0 == n) && !other.contains_key(n) by {
            if exists|q: int| 0 <= q < j + 1 && t[q].0 == n {
                let q = choose|q: int| 0 <= q < j + 1 && t[q].0 == n;
                if q < j {
                    assert(exists|q: int| 0 <= q < j && t[q].0 == n);
                }
            }
        }
        assert forall|k: int| 0 <= k < found.len() implies exists|q: int| 0 <= q < j + 1 && t[q].0 == #[trigger] found[k] by {
            let q = choose|q: int| 0 <= q < j && t[q].0 == found[k];
        }
    } else {
        let f2 = found.push(x);
        lemma_push_sorted(found, x);
        assert forall|n: Seq<char>| #[trigger] f2.contains(n) <==> (exists|q: int| 0 <= q < j + 1 && t[q].0 == n) && !other.contains_key(n) by {
            lemma_push_contains(found, x, n);
            if exists|q: int| 0 <= q < j + 1 && t[q].0 == n {
                let q = choose|q: int| 0 <= q < j + 1 && t[q].0 == n;
                if q < j {
                    assert(exists|q: int| 0 <= q < j && t[q].0 == n);
                }
            }
            if n == x {
                assert(t[j].0 == n);
            }
        }
        assert forall|k: int| 0 <= k < f2.len() implies exists|q: int| 0 <= q < j + 1 && t[q].0 == #[trigger] f2[k] by {
            if k < found.len() {
                assert(f2[k] == found[k]);
                let q = choose|q: int| 0 <= q < j && t[q].0 == found[k];
            } else {
                assert(t[j].0 == f2[k]);
            }
        }
    }
}

proof fn lemma_only_in_done(found: Seq<Seq<char>>, t: Seq<(Seq<char>, Seq<char>)>, m: Map<Seq<char>, Seq<char>>, other: Map<Seq<char>, Seq<char>>)
    requires
        only_in(found, t, t.len() as int, other),
        lists(t, m),
    ensures
        forall|n: Seq<char>| #[trigger] found.contains(n) <==> (m.contains_key(n) && !other.contains_key(n)),
        found.len() > 0 <==> exists|n: Seq<char>| #[trigger] m.contains_key(n) && !other.contains_key(n),
{
    assert forall|n: Seq<char>| #[trigger] found.contains(n) <==> (m.contains_key(n) && !other.contains_key(n)) by {
        if found.contains(n) {
            let q = choose|q: int| 0 <= q < t.len() && t[q].0 == n;
            assert(m.contains_key(t[q].0));
        }
        if m.contains_key(n) {
            let q = choose|q: int| 0 <= q < t.len() && t[q].0 == n;
        }
    }
    if found.len() > 0 {
        assert(found.contains(found[0]));
        assert(m.contains_key(found[0]) && !other.contains_key(found[0]));
    }
    if exists|n: Seq<char>| #[trigger] m.contains_key(n) && !other.contains_key(n) {
        let n = choose|n: Seq<char>| #[trigger] m.contains_key(n) && !other.contains_key(n);
        assert(found.contains(n));
    }
}

pub open spec fn change_names(c: Seq<(Seq<char>, Seq<char>, Seq<char>)>) -> Seq<Seq<char>> {
    c.map_values(|x: (Seq<char>, Seq<char>, Seq<char>)| x.0)
}

/// `found` holds, in name order, `(name, type in mine, type in theirs)` for
/// the names among the first `j` entries of `t` whose type differs.
spec fn changed_in(found: Seq<(Seq<char>, Seq<char>, Seq<char>)>, t: Seq<(Seq<char>, Seq<char>)>, j: int, mine: Map<Seq<char>, Seq<char>>, theirs: Map<Seq<char>, Seq<char>>) -> bool {
    &&& strictly_sorted(change_names(found))
    &&& forall|k: int| 0 <= k < found.len() ==> exists|q: int| 0 <= q < j && t[q].0 == (#[trigger] found[k]).0
    &&& forall|c: (Seq<char>, Seq<char>, Seq<char>)| #[trigger] found.contains(c) <==> (
        (exists|q: int| 0 <= q < j && t[q].0 == c.0)
        && mine.contains_key(c.0) && theirs.contains_key(c.0)
        && c.1 == mine[c.0] && c.2 == theirs[c.0] && c.1 != c.2)
}

proof fn lemma_changed_step(found: Seq<(Seq<char>, Seq<char>, Seq<char>)>, t: Seq<(Seq<char>, Seq<char>)>, j: int, mine: Map<Seq<char>, Seq<char>>, theirs: Map<Seq<char>, Seq<char>>)
    requires
        changed_in(found, t, j, mine, theirs),
        names_ascending(t),
        lists(t, theirs),
        0 <= j < t.len(),
    ensures
        ({
            let n = t[j].0;
            if mine.contains_key(n) && mine[n] != theirs[n] {
                changed_in(found.push((n, mine[n], theirs[n])), t, j + 1, mine, theirs)
            } else {
                changed_in(found, t, j + 1, mine, theirs)
            }
        }),
{
    let x = t[j].0;
    assert(theirs.contains_key(t[j].0));
    assert forall|k: int| 0 <= k < found.len() implies lex_lt(#[trigger] found[k].0, x) by {
        let q = choose|q: int| 0 <= q < j && t[q].0 == found[k].0;
        assert(lex_lt(t[q].0, t[j].0));
    }
    assert forall|c: (Seq<char>, Seq<char>, Seq<char>)| c.0 == x implies !found.contains(c) by {
        if found.contains(c) {
            let k = choose|k: int| 0 <= k < found.len() && found[k] == c;
            assert(lex_lt(found[k].0, x));
            lemma_lex_irreflexive(x);
        }
    }
    let names = change_names(found);
    assert forall|k: int| 0 <= k < names.len() implies lex_lt(#[trigger] names[k], x) by {
        assert(names[k] == found[k].0);
    }
    if mine.contains_key(x) && mine[x] != theirs[x] {
        let nc = (x, mine[x], theirs[x]);
        let f2 = found.push(nc);
        lemma_push_sorted(names, x);
        assert(change_names(f2) =~= names.push(x));
        assert forall|c: (Seq<char>, Seq<char>, Seq<char>)| #[trigger] f2.contains(c) <==> (
            (exists|q: int| 0 <= q < j + 1 && t[q].0 == c.0)
            && mine.contains_key(c.0) && theirs.contains_key(c.0)
            && c.1 == mine[c.0] && c.2 == theirs[c.0] && c.1 != c.2) by {
            lemma_push_contains(found, nc, c);
            if exists|q: int| 0 <= q < j + 1 && t[q].0 == c.0 {
                let q = choose|q: int| 0 <= q < j + 1 && t[q].0 == c.0;
                if q < j {
                    assert(exists|q: int| 0 <= q < j && t[q].0 == c.0);
                }
            }
            if c == nc {
                assert(t[j].0 == c.0);
            }
        }
        assert forall|k: int| 0 <= k < f2.len() implies exists|q: int| 0 <= q < j + 1 && t[q].0 == (#[trigger] f2[k]).0 by {
            if k < found.len() {
                assert(f2[k] == found[k]);
                let q = choose|q: int| 0 <= q < j && t[q].0 == found[k].0;
            } else {
                assert(t[j].0 == f2[k].0);
            }
        }
    } else {
        assert forall|c: (Seq<char>, Seq<char>, Seq<char>)| #[trigger] found.contains(c) <==> (
            (exists|q: int| 0 <= q < j + 1 && t[q].0 == c.0)
            && mine.contains_key(c.0) && theirs.contains_key(c.0)
            && c.1 == mine[c.0] && c.2 == theirs[c.0] && c.1 != c.2) by {
            if exists|q: int| 0 <= q < j + 1 && t[q].0 == c.0 {
                let q = choose|q: int| 0 <= q < j + 1 && t[q].0 == c.0;
                if q < j {
                    assert(exists|q: int| 0 <= q < j && t[q].0 == c.0);
                }
            }
        }
        assert forall|k: int| 0 <= k < found.len() implies exists|q: int| 0 <= q < j + 1 && t[q].0 == (#[trigger] found[k]).0 by {
            let q = choose|q: int| 0 <= q < j && t[q].0 == found[k].0;
        }
    }
}

proof fn lemma_changed_done(found: Seq<(Seq<char>, Seq<char>, Seq<char>)>, t: Seq<(Seq<char>, Seq<char>)>, mine: Map<Seq<char>, Seq<char>>, theirs: Map<Seq<char>, Seq<char>>)
    requires
        changed_in(found, t, t.len() as int, mine, theirs),
        lists(t, theirs),
    ensures
        forall|c: (Seq<char>, Seq<char>, Seq<char>)| #[trigger] found.contains(c) <==> (
            mine.contains_key(c.0) && theirs.contains_key(c.0)
            && c.1 == mine[c.0] && c.2 == theirs[c.0] && c.1 != c.2),
        found.len() > 0 <==> exists|n: Seq<char>| #[trigger] mine.contains_key(n) && theirs.contains_key(n) && mine[n] != theirs[n],
{
    assert forall|c: (Seq<char>, Seq<char>, Seq<char>)| #[trigger] found.contains(c) <==> (
        mine.contains_key(c.0) && theirs.contains_key(c.0)
        && c.1 == mine[c.0] && c.2 == theirs[c.0] && c.1 != c.2) by {
        if theirs.contains_key(c.0) {
            let q = choose|q: int| 0 <= q < t.len() && t[q].0 == c.0;
        }
    }
    if found.len() > 0 {
        assert(found.contains(found[0]));
    }
    if exists|n: Seq<char>| #[trigger] mine.contains_key(n) && theirs.contains_key(n) && mine[n] != theirs[n] {
        let n = choose|n: Seq<char>| #[trigger] mine.contains_key(n) && theirs.contains_key(n) && mine[n] != theirs[n];
        assert(found.contains((n, mine[n], theirs[n])));
    }
}

/// `r` is the diff from `before` to `after`: the names only in `after`, the
/// names only in `before`, and the names whose type changed (with both
/// types), each list in strictly increasing name order; and the kind of the
/// change.
pub open spec fn is_diff_of(before: FieldLayout, after: FieldLayout, r: LayoutDiff) -> bool {
    &&& strictly_sorted(string_views(r.added_fields@))
    &&& forall|n: Seq<char>| #[trigger] string_views(r.added_fields@).contains(n) <==>
        (layout_types(after).contains_key(n) && !layout_types(before).contains_key(n))
    &&& strictly_sorted(string_views(r.removed_fields@))
    &&& forall|n: Seq<char>| #[trigger] string_views(r.removed_fields@).contains(n) <==>
        (layout_types(before).contains_key(n) && !layout_types(after).contains_key(n))
    &&& strictly_sorted(change_names(change_views(r.type_changes@)))
    &&& forall|c: (Seq<char>, Seq<char>, Seq<char>)| #[trigger] change_views(r.type_changes@).contains(c) <==> (
        layout_types(before).contains_key(c.0)
        && layout_types(after).contains_key(c.0)
        && c.1 == layout_types(before)[c.0]
        && c.2 == layout_types(after)[c.0]
        && c.1 != c.2)
    &&& r.kind == layout_diff_kind(before, after)
}

/// Two strictly sorted lists of names that hold the same names are equal.
proof fn lemma_sorted_same_names_equal(s: Seq<Seq<char>>, t: Seq<Seq<char>>)
    requires
        strictly_sorted(s),
        strictly_sorted(t),
        forall|n: Seq<char>| s.contains(n) <==> t.contains(n),
    ensures
        s == t,
    decreases s.len() + t.len(),
{
    if s.len() == 0 {
        if t.len() > 0 {
            assert(t.contains(t[0]));
        }
        assert(t =~= s);
    } else {
        assert(s.contains(s[0]));
        let j = choose|j: int| 0 <= j < t.len() && t[j] == s[0];
        assert(t.contains(t[0]));
        let k = choose|k: int| 0 <= k < s.len() && s[k] == t[0];
        if j > 0 {
            assert(lex_lt(t[0], t[j]));
            if k == 0 {
                lemma_lex_irreflexive(s[0]);
            } else {
                assert(lex_lt(s[0], s[k]));
                lemma_lex_asymmetric(s[0], t[0]);
            }
        }
        assert(t[0] == s[0]);
        let s1 = s.drop_first();
        let t1 = t.drop_first();
        assert forall|n: Seq<char>| s1.contains(n) implies t1.contains(n) by {
            let a = choose|a: int| 0 <= a < s1.len() && s1[a] == n;
            assert(s[a + 1] == n);
            assert(lex_lt(s[0], s[a + 1]));
            lemma_lex_irreflexive(n);
            assert(t.contains(n));
            let b = choose|b: int| 0 <= b < t.len() && t[b] == n;
            assert(b != 0);
            assert(t1[b - 1] == n);
        }
        assert forall|n: Seq<char>| t1.contains(n) implies s1.contains(n) by {
            let a = choose|a: int| 0 <= a < t1.len() && t1[a] == n;
            assert(t[a + 1] == n);
            assert(lex_lt(t[0], t[a + 1]));
            lemma_lex_irreflexive(n);
            assert(s.contains(n));
            let b = choose|b: int| 0 <= b < s.len() && s[b] == n;
            assert(b != 0);
            assert(s1[b - 1] == n);
        }
        assert(strictly_sorted(s1)) by {
            assert forall|a: int, b: int| 0 <= a < b < s1.len() implies lex_lt(#[trigger] s1[a], #[trigger] s1[b]) by {
                assert(s1[a] == s[a + 1] && s1[b] == s[b + 1]);
            }
        }
        assert(strictly_sorted(t1)) by {
            assert forall|a: int, b: int| 0 <= a < b < t1.len() implies lex_lt(#[trigger] t1[a], #[trigger] t1[b]) by {
                assert(t1[a] == t[a + 1] && t1[b] == t[b + 1]);
            }
        }
        lemma_sorted_same_names_equal(s1, t1);
        assert(s =~= seq![s[0]] + s1);
        assert(t =~= seq![t[0]] + t1);
    }
}

/// The diff of two layouts mirrors the diff back: the fields added one way
/// are the fields removed the other way and the other way round, and undoing
/// an `AutoSafe` change breaks; a layout compared with itself is `Identical`
/// with nothing added, removed or changed.
pub proof fn law_diff_directions_mirror(a: FieldLayout, b: FieldLayout, ab: LayoutDiff, ba: LayoutDiff, aa: LayoutDiff)
    requires
        is_diff_of(a, b, ab),
        is_diff_of(b, a, ba),
        is_diff_of(a, a, aa),
    ensures
        string_views(ab.added_fields@) == string_views(ba.removed_fields@),
        string_views(ab.removed_fields@) == string_views(ba.added_fields@),
        ab.kind == LayoutDiffKind::AutoSafe ==> ba.kind == LayoutDiffKind::Breaking,
        aa.kind == LayoutDiffKind::Identical,
        aa.added_fields@.len() == 0,
        aa.removed_fields@.len() == 0,
        aa.type_changes@.len() == 0,
{
    assert forall|n: Seq<char>| string_views(ab.added_fields@).contains(n) <==> string_views(ba.removed_fields@).contains(n) by {
        assert(string_views(ab.added_fields@).contains(n) == (layout_types(b).contains_key(n) && !layout_types(a).contains_key(n)));
        assert(string_views(ba.removed_fields@).contains(n) == (layout_types(b).contains_key(n) && !layout_types(a).contains_key(n)));
    }
    lemma_sorted_same_names_equal(string_views(ab.added_fields@), string_views(ba.removed_fields@));
    assert forall|n: Seq<char>| string_views(ab.removed_fields@).contains(n) <==> string_views(ba.added_fields@).contains(n) by {
        assert(string_views(ab.removed_fields@).contains(n) == (layout_types(a).contains_key(n) && !layout_types(b).contains_key(n)));
        assert(string_views(ba.added_fields@).contains(n) == (layout_types(a).contains_key(n) && !layout_types(b).contains_key(n)));
    }
    lemma_sorted_same_names_equal(string_views(ab.removed_fields@), string_views(ba.added_fields@));
    if aa.added_fields@.len() > 0 {
        let n = string_views(aa.added_fields@)[0];
        assert(string_views(aa.added_fields@).contains(n));
    }
    if aa.removed_fields@.len() > 0 {
        let n = string_views(aa.removed_fields@)[0];
        assert(string_views(aa.removed_fields@).contains(n));
    }
    if aa.type_changes@.len() > 0 {
        let c = change_views(aa.type_changes@)[0];
        assert(change_views(aa.type_changes@).contains(c));
    }
}

impl FieldLayout {
    /// Compares this layout (before) with `other` (after): the names only in
    /// `other`, the names only here, and the names whose type changed (with
    /// both types), each list in name order; and the kind of the change.
    pub fn diff(&self, other: &Self) -> (r: LayoutDiff)
        ensures
            is_diff_of(*self, *other, r),
    {
        let mine = type_table(&self.fields);
        let theirs = type_table(&other.fields);
        let ghost sm = layout_types(*self);
        let ghost om = layout_types(*other);
        let ghost me = entry_views(mine@);
        let ghost te = entry_views(theirs@);
        let mut added: Vec<String> = Vec::new();
        let mut removed: Vec<String> = Vec::new();
        let mut type_changes: Vec<(String, String, String)> = Vec::new();
        proof {
            assert(string_views(added@) =~= Seq::<Seq<char>>::empty());
            assert(string_views(removed@) =~= Seq::<Seq<char>>::empty());
            assert(change_views(type_changes@) =~= Seq::<(Seq<char>, Seq<char>, Seq<char>)>::empty());
            assert(change_names(change_views(type_changes@)) =~= Seq::<Seq<char>>::empty());
        }
        let mut j: usize = 0;
        while j < theirs.len()
            invariant
                j <= te.len(),
                te == entry_views(theirs@),
                me == entry_views(mine@),
                names_ascending(te),
                lists(me, sm),
                lists(te, om),
                only_in(string_views(added@), te, j as int, sm),
                changed_in(change_views(type_changes@), te, j as int, sm, om),
            decreases te.len() - j,
        {
            let name = &theirs[j].0;
            let ty = &theirs[j].1;
            assert(te[j as int] == (name@, ty@));
            proof {
                lemma_only_in_step(string_views(added@), te, j as int, sm);
                lemma_changed_step(change_views(type_changes@), te, j as int, sm, om);
                assert(om.contains_key(te[j as int].0));
                assert(om.contains_key(name@) && om[name@] == ty@);
            }
            match table_find(&mine, name.as_str()) {
                Some(k) => {
                    assert(me[k as int].0 == name@);
                    assert(sm.contains_key(name@) && sm[name@] == me[k as int].1);
                    if !str_eq(mine[k].1.as_str(), ty.as_str()) {
                        let ghost before = change_views(type_changes@);
                        type_changes.push((name.clone(), mine[k].1.clone(), ty.clone()));
                        proof {
                            assert(change_views(type_changes@) =~= before.push((name@, sm[name@], om[name@])));
                        }
                    }
                },
                None => {
                    assert(!sm.contains_key(name@)) by {
                        if sm.contains_key(name@) {
                            let q = choose|q: int| 0 <= q < me.len() && me[q].0 == name@;
                            assert(mine@[q].0@ == name@);
                        }
                    }
                    let ghost before = string_views(added@);
                    added.push(name.clone());
                    proof {
                        assert(string_views(added@) =~= before.push(name@));
                    }
                },
            }
            j = j + 1;
        }
        proof {
            lemma_only_in_done(string_views(added@), te, om, sm);
            lemma_changed_done(change_views(type_changes@), te, sm, om);
        }
        j = 0;
        while j < mine.len()
            invariant
                j <= me.len(),
                te == entry_views(theirs@),
                me == entry_views(mine@),
                names_ascending(me),
                lists(me, sm),
                lists(te, om),
                only_in(string_views(removed@), me, j as int, om),
            decreases me.len() - j,
        {
            let name = &mine[j].0;
            assert(me[j as int].0 == name@);
            proof {
                lemma_only_in_step(string_views(removed@), me, j as int, om);
            }
            match table_find(&theirs, name.as_str()) {
                None => {
                    assert(!om.contains_key(name@)) by {
                        if om.contains_key(name@) {
                            let q = choose|q: int| 0 <= q < te.len() && te[q].0 == name@;
                            assert(theirs@[q].0@ == name@);
                        }
                    }
                    let ghost before = string_views(removed@);
                    removed.push(name.clone());
                    proof {
                        assert(string_views(removed@) =~= before.push(name@));
                    }
                },
                Some(k) => {
                    assert(te[k as int].0 == name@);
                    assert(om.contains_key(te[k as int].0));
                },
            }
            j = j + 1;
        }
        proof {
            lemma_only_in_done(string_views(removed@), me, sm, om);
        }
        let kind = if str_eq(self.layout_hash.as_str(), other.layout_hash.as_str()) {
            LayoutDiffKind::Identical
        } else if removed.len() > 0 || type_changes.len() > 0 {
            LayoutDiffKind::Breaking
        } else if added.len() > 0 {
            LayoutDiffKind::AutoSafe
        } else {
            LayoutDiffKind::RequiresDecoder
        };
        LayoutDiff { kind, added_fields: added, removed_fields: removed, type_changes }
    }
}

/// Undoing a change that only added fields removes them again, which breaks
/// records of the larger layout: if the change from `before` to `after` is
/// `AutoSafe`, the change back is `Breaking`.
pub proof fn law_undoing_added_fields_breaks(before: Seq<FieldView>, before_hash: Seq<char>, after: Seq<FieldView>, after_hash: Seq<char>)
    requires
        diff_kind(before, before_hash, after, after_hash) == LayoutDiffKind::AutoSafe,
    ensures
        diff_kind(after, after_hash, before, before_hash) == LayoutDiffKind::Breaking,
{
}

/// A layout compared with itself is `Identical`.
pub proof fn law_layout_identical_to_itself(fields: Seq<FieldView>, hash: Seq<char>)
    ensures
        diff_kind(fields, hash, fields, hash) == LayoutDiffKind::Identical,
{
}

/// Two JSON values whose members have the same names and types, in the same
/// order, are captured with the same hash, so the change from one to the
/// other is `Identical` whatever the member values are.
pub proof fn law_same_shape_is_identical(a: JsonValue, b: JsonValue)
    requires
        member_fields(a) == member_fields(b),
    ensures
        value_hash(a) == value_hash(b),
        diff_kind(value_fields(a), value_hash(a), value_fields(b), value_hash(b)) == LayoutDiffKind::Identical,
{
}

} // verus!
