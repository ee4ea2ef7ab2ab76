//! Snapshot reference files (`refs/*.json`) of the migration directory: a
//! JSON array of `[key, bytes]` pairs, the bytes in hex. Older files held the
//! bytes as an array of numbers; they are rewritten in the hex form.

use vstd::prelude::*;

use crate::json::{JsonNumber, JsonValue};
use crate::text::{hex_encode, spec_hex, str_eq};
use crate::units::{ClError, Result};

verus! {

/// The bytes an array of JSON numbers stands for: each number that is a
/// `u64` gives its low byte, anything else is left out.
pub open spec fn ref_bytes(items: Seq<JsonValue>) -> Seq<u8>
    decreases items.len(),
{
    if items.len() == 0 {
        Seq::empty()
    } else {
        let rest = ref_bytes(items.drop_last());
        match items.last() {
            JsonValue::Number(JsonNumber::PosInt(n)) => rest.push(n as u8),
            _ => rest,
        }
    }
}

/// One `[key, bytes]` entry, with the bytes in hex; or why it is malformed.
pub open spec fn spec_ref_entry(item: JsonValue) -> core::result::Result<(Seq<char>, Seq<char>), Seq<char>> {
    match item {
        JsonValue::Array(pair) => if pair@.len() != 2 {
            Err("migration ref entry must have exactly 2 elements"@)
        } else {
            match pair@[0] {
                JsonValue::String(k) => match pair@[1] {
                    JsonValue::String(s) => Ok((k@, s@)),
                    JsonValue::Array(a) => Ok((k@, spec_hex(ref_bytes(a@)))),
                    _ => Err("ref bytes must be hex string or byte array"@),
                },
                _ => Err("ref key must be string"@),
            }
        },
        _ => Err("migration ref entry must be [key, bytes]"@),
    }
}

/// The entries of a ref array, or the first malformed entry's reason.
pub open spec fn spec_ref_entries(items: Seq<JsonValue>) -> core::result::Result<Seq<(Seq<char>, Seq<char>)>, Seq<char>>
    decreases items.len(),
{
    if items.len() == 0 {
        Ok(Seq::empty())
    } else {
        match spec_ref_entries(items.drop_last()) {
            Err(e) => Err(e),
            Ok(r) => match spec_ref_entry(items.last()) {
                Err(e) => Err(e),
                Ok(p) => Ok(r.push(p)),
            },
        }
    }
}

pub open spec fn spec_normalize_ref(value: JsonValue) -> core::result::Result<Seq<(Seq<char>, Seq<char>)>, Seq<char>> {
    match value {
        JsonValue::Array(items) => spec_ref_entries(items@),
        _ => Err("migration ref must be a JSON array"@),
    }
}

pub open spec fn pair_views(v: Seq<(String, String)>) -> Seq<(Seq<char>, Seq<char>)> {
    v.map_values(|p: (String, String)| (p.0@, p.1@))
}

fn byte_list(items: &Vec<JsonValue>) -> (r: Vec<u8>)
    ensures
        r@ == ref_bytes(items@),
{
    let mut out: Vec<u8> = Vec::new();
    let mut i: usize = 0;
    while i < items.len()
        invariant
            i <= items@.len(),
            out@ == ref_bytes(items@.take(i as int)),
        decreases items@.len() - i,
    {
        proof {
            assert(items@.take(i + 1).drop_last() =~= items@.take(i as int));
            assert(items@.take(i + 1).last() == items@[i as int]);
        }
        match &items[i] {
            JsonValue::Number(JsonNumber::PosInt(n)) => {
                out.push(*n as u8);
            },
            _ => {},
        }
        i = i + 1;
    }
    assert(items@.take(items@.len() as int) =~= items@);
    out
}

fn ref_entry(item: &JsonValue) -> (r: Result<(String, String)>)
    ensures
        match spec_ref_entry(*item) {
            Ok(p) => r matches Ok(q) && q.0@ == p.0 && q.1@ == p.1,
            Err(m) => r matches Err(ClError::MigrationError(e)) && e@ == m,
        },
{
    match item {
        JsonValue::Array(pair) => {
            if pair.len() != 2 {
                return Err(ClError::MigrationError("migration ref entry must have exactly 2 elements".to_owned()));
            }
            match &pair[0] {
                JsonValue::String(k) => match &pair[1] {
                    JsonValue::String(s) => Ok((k.clone(), s.clone())),
                    JsonValue::Array(a) => {
                        let bytes = byte_list(a);
                        Ok((k.clone(), hex_encode(bytes.as_slice())))
                    },
                    _ => Err(ClError::MigrationError("ref bytes must be hex string or byte array".to_owned())),
                },
                _ => Err(ClError::MigrationError("ref key must be string".to_owned())),
            }
        },
        _ => Err(ClError::MigrationError("migration ref entry must be [key, bytes]".to_owned())),
    }
}

/// The `(key, hex bytes)` pairs of a ref file's JSON, or the reason it is
/// malformed.
pub fn normalize_ref_json(value: &JsonValue) -> (r: Result<Vec<(String, String)>>)
    ensures
        match spec_normalize_ref(*value) {
            Ok(v) => r matches Ok(out) && pair_views(out@) == v,
            Err(m) => r matches Err(ClError::MigrationError(e)) && e@ == m,
        },
{
    let items = match value {
        JsonValue::Array(items) => items,
        _ => return Err(ClError::MigrationError("migration ref must be a JSON array".to_owned())),
    };
    let mut out: Vec<(String, String)> = Vec::new();
    let mut i: usize = 0;
    assert(items@.take(0) =~= Seq::<JsonValue>::empty());
    assert(pair_views(out@) =~= Seq::<(Seq<char>, Seq<char>)>::empty());
    while i < items.len()
        invariant
            i <= items@.len(),
            *value == JsonValue::Array(*items),
            spec_ref_entries(items@.take(i as int)) == Ok::<Seq<(Seq<char>, Seq<char>)>, Seq<char>>(pair_views(out@)),
        decreases items@.len() - i,
    {
        proof {
            assert(items@.take(i + 1).drop_last() =~= items@.take(i as int));
            assert(items@.take(i + 1).last() == items@[i as int]);
        }
        let e = match ref_entry(&items[i]) {
            Ok(e) => e,
            Err(err) => {
                proof { lemma_entries_error_propagates(items@, i as int); }
                return Err(err);
            },
        };
        let ghost before = pair_views(out@);
        out.push(e);
        assert(pair_views(out@) =~= before.push((e.0@, e.1@)));
        i = i + 1;
    }
    assert(items@.take(items@.len() as int) =~= items@);
    Ok(out)
}

proof fn lemma_entries_error_propagates(items: Seq<JsonValue>, i: int)
    requires
        0 <= i < items.len(),
        spec_ref_entries(items.take(i)) is Ok,
        spec_ref_entry(items[i]) is Err,
    ensures
        spec_ref_entries(items) == Err::<Seq<(Seq<char>, Seq<char>)>, Seq<char>>(spec_ref_entry(items[i])->Err_0),
    decreases items.len() - i,
{
    if i == items.len() - 1 {
        assert(items.drop_last() =~= items.take(i));
    } else {
        assert(items.drop_last().take(i) =~= items.take(i));
        assert(items.drop_last()[i] == items[i]);
        lemma_entries_error_propagates(items.drop_last(), i);
    }
}

/// An entry already in the current form: `[key, hex]`, both strings.
pub open spec fn is_string_pair(item: JsonValue) -> bool {
    item matches JsonValue::Array(p) && p@.len() == 2 && p@[0] is String && p@[1] is String
}

/// The two strings of a `[key, hex]` entry.
pub open spec fn string_pair_view(item: JsonValue) -> (Seq<char>, Seq<char>) {
    match item {
        JsonValue::Array(p) => match p@[0] {
            JsonValue::String(k) => match p@[1] {
                JsonValue::String(h) => (k@, h@),
                _ => (k@, Seq::empty()),
            },
            _ => (Seq::empty(), Seq::empty()),
        },
        _ => (Seq::empty(), Seq::empty()),
    }
}

/// A ref array already in the current form normalizes to its own entries, so
/// rewriting it changes nothing: normalizing is idempotent.
pub proof fn law_current_refs_normalize_to_themselves(items: Seq<JsonValue>)
    requires
        forall|i: int| 0 <= i < items.len() ==> is_string_pair(#[trigger] items[i]),
    ensures
        spec_ref_entries(items) == Ok::<Seq<(Seq<char>, Seq<char>)>, Seq<char>>(
            items.map_values(|it: JsonValue| string_pair_view(it))),
    decreases items.len(),
{
    if items.len() == 0 {
        assert(items.map_values(|it: JsonValue| string_pair_view(it)) =~= Seq::<(Seq<char>, Seq<char>)>::empty());
    } else {
        let init = items.drop_last();
        assert forall|i: int| 0 <= i < init.len() implies is_string_pair(#[trigger] init[i]) by {
            assert(init[i] == items[i]);
        }
        law_current_refs_normalize_to_themselves(init);
        let last = items.last();
        assert(is_string_pair(last));
        assert(spec_ref_entry(last) == Ok::<(Seq<char>, Seq<char>), Seq<char>>(string_pair_view(last)));
        assert(init.map_values(|it: JsonValue| string_pair_view(it)).push(string_pair_view(items.last()))
            =~= items.map_values(|it: JsonValue| string_pair_view(it)));
    }
}

/// What `serde_json::to_string_pretty` writes for a list of text pairs.
pub uninterp spec fn pretty_pairs_text(pairs: Seq<(Seq<char>, Seq<char>)>) -> Seq<char>;

/// Renders pairs as pretty-printed JSON (an array of two-element arrays).
///
/// Calls `serde_json::to_string_pretty`; the text, a function of the pairs, is
/// named `pretty_pairs_text`. serde_json fails only where a `Serialize` impl
/// fails or a map has keys that are not strings, neither of which a list of
/// string pairs has, so the result is always there.
#[verifier::external_body]
fn pretty_pairs(pairs: &Vec<(String, String)>) -> (r: Option<String>)
    ensures
        r is Some,
        r matches Some(s) ==> s@ == pretty_pairs_text(pair_views(pairs@)),
{
    serde_json::to_string_pretty(pairs).ok()
}

/// The text a ref file should hold, when it differs from what it holds
/// (`data`, which parsed as `parsed`); `None` when it is already normalized.
pub fn refresh_ref_file(data: &str, parsed: &JsonValue) -> (r: Result<Option<String>>)
    ensures
        spec_normalize_ref(*parsed) matches Err(m) ==> (r matches Err(ClError::MigrationError(e)) && e@ == m),
        r matches Ok(Some(out)) ==> (spec_normalize_ref(*parsed) matches Ok(v)
            && out@ == pretty_pairs_text(v) && out@ != data@),
        r matches Ok(None) ==> (spec_normalize_ref(*parsed) matches Ok(v) && pretty_pairs_text(v) == data@),
        r is Ok <==> spec_normalize_ref(*parsed) is Ok,
        (spec_normalize_ref(*parsed) matches Ok(v) && pretty_pairs_text(v) == data@) ==> r matches Ok(None),
{
    let normalized = match normalize_ref_json(parsed) {
        Ok(n) => n,
        Err(e) => return Err(e),
    };
    let out = pretty_pairs(&normalized).unwrap();
    if str_eq(out.as_str(), data) {
        Ok(None)
    } else {
        Ok(Some(out))
    }
}

/// A ref file that a refresh wrote is left alone by the next refresh: when
/// the file holds the text written for some `[key, hex]` pairs and that text
/// parses back as those pairs, the pairs normalize to themselves and print as
/// the same text, so `refresh_ref_file` answers `Ok(None)`. That serde_json
/// parses its pretty text back into the same strings is the premise, not a
/// conclusion: nothing here states serde_json's parser.
pub proof fn law_refreshed_file_is_left_alone(parsed: JsonValue, data: Seq<char>)
    requires
        parsed matches JsonValue::Array(items) && {
            &&& forall|i: int| 0 <= i < items@.len() ==> is_string_pair(#[trigger] items@[i])
            &&& data == pretty_pairs_text(items@.map_values(|it: JsonValue| string_pair_view(it)))
        },
    ensures
        spec_normalize_ref(parsed) matches Ok(v) && pretty_pairs_text(v) == data,
{
    match parsed {
        JsonValue::Array(items) => {
            law_current_refs_normalize_to_themselves(items@);
        },
        _ => {},
    }
}

} // verus!
