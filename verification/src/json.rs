//! JSON values as the library reads them, and the few questions about JSON text
//! that are answered by `serde_json` itself.
//!
//! A `JsonValue` mirrors one `serde_json::Value`: numbers keep serde_json's three
//! representations, a float being held by its IEEE-754 bits; an object keeps its
//! members in the order serde_json iterates them.

use vstd::prelude::*;
use vstd::utf8::{valid_utf8, encode_utf8};

verus! {

#[derive(Debug, Clone, Copy, PartialEq, Eq, Structural)]
pub enum JsonNumber {
    /// A non-negative integer.
    PosInt(u64),
    /// A negative integer.
    NegInt(i64),
    /// A floating-point number, by its IEEE-754 bit pattern.
    Float(u64),
}

#[derive(Debug)]
pub enum JsonValue {
    Null,
    Bool(bool),
    Number(JsonNumber),
    String(String),
    Array(Vec<JsonValue>),
    Object(Vec<(String, JsonValue)>),
}

// ── questions answered by serde_json ────────────────────────────────────────

/// Whether `serde_json` parses `text` as a JSON value.
pub uninterp spec fn json_text_valid(text: Seq<char>) -> bool;

/// Whether `text` parses as a JSON value.
///
/// Calls `serde_json::from_str::<serde_json::Value>`; claims only that the
/// answer is a function of the text, named `json_text_valid`.
#[verifier::external_body]
pub(crate) fn json_parses(text: &str) -> (r: bool)
    ensures
        r == json_text_valid(text@),
{
    serde_json::from_str::<serde_json::Value>(text).is_ok()
}

/// The string value of member `key` of the JSON object that `bytes` hold, or
/// `None` when the bytes are not JSON, not an object, lack the member, or the
/// member is not a string.
pub uninterp spec fn json_string_member(bytes: Seq<u8>, key: Seq<char>) -> Option<Seq<char>>;

/// Parses `bytes` with `serde_json::from_slice::<serde_json::Value>` and looks
/// up member `key` with `Value::get` and `Value::as_str`.
///
/// Claims only that the answer is a function of the bytes and the key, named
/// `json_string_member`.
#[verifier::external_body]
pub(crate) fn json_string_member_of(bytes: &[u8], key: &str) -> (r: Option<String>)
    ensures
        match r {
            Some(s) => json_string_member(bytes@, key@) == Some(s@),
            None => json_string_member(bytes@, key@).is_none(),
        },
{
    serde_json::from_slice::<serde_json::Value>(bytes)
        .ok()
        .and_then(|v| v.get(key).and_then(|m| m.as_str()).map(|s| s.to_string()))
}

/// Whether `text` is JSON with a member `key` (only an object has members).
pub uninterp spec fn json_member_present(text: Seq<char>, key: Seq<char>) -> bool;

/// Parses `text` with `serde_json::from_str::<serde_json::Value>` and asks
/// `Value::get` for member `key`; false when the text is not JSON.
///
/// Claims only that the answer is a function of the text and the key, named
/// `json_member_present`.
#[verifier::external_body]
pub(crate) fn json_has_member(text: &str, key: &str) -> (r: bool)
    ensures
        r == json_member_present(text@, key@),
{
    serde_json::from_str::<serde_json::Value>(text).map(|v| v.get(key).is_some()).unwrap_or(false)
}

/// Whether `bytes` are JSON with a member `key` (only an object has members).
pub uninterp spec fn json_bytes_member_present(bytes: Seq<u8>, key: Seq<char>) -> bool;

/// Parses `bytes` with `serde_json::from_slice::<serde_json::Value>` and asks
/// `Value::get` for member `key`; false when the bytes are not JSON.
///
/// Claims only that the answer is a function of the bytes and the key, named
/// `json_bytes_member_present`.
#[verifier::external_body]
pub(crate) fn json_bytes_have_member(bytes: &[u8], key: &str) -> (r: bool)
    ensures
        r == json_bytes_member_present(bytes@, key@),
{
    serde_json::from_slice::<serde_json::Value>(bytes).map(|v| v.get(key).is_some()).unwrap_or(false)
}

/// Decodes UTF-8 text.
///
/// Calls `std::str::from_utf8`, which succeeds exactly on valid UTF-8 and then
/// yields the text those bytes encode.
#[verifier::external_body]
pub(crate) fn utf8_decode(bytes: &[u8]) -> (r: Option<String>)
    ensures
        r.is_some() <==> valid_utf8(bytes@),
        r matches Some(s) ==> encode_utf8(s@) == bytes@,
{
    std::str::from_utf8(bytes).ok().map(|s| s.to_string())
}

// ── whitespace ───────────────────────────────────────────────────────────────

/// The Unicode `White_Space` property, which `char::is_whitespace` tests.
pub open spec fn is_unicode_whitespace(c: char) -> bool {
    let u = c as u32;
    ||| (0x09 <= u && u <= 0x0d)
    ||| u == 0x20
    ||| u == 0x85
    ||| u == 0xa0
    ||| u == 0x1680
    ||| (0x2000 <= u && u <= 0x200a)
    ||| u == 0x2028
    ||| u == 0x2029
    ||| u == 0x202f
    ||| u == 0x205f
    ||| u == 0x3000
}

fn char_is_whitespace(c: char) -> (r: bool)
    ensures
        r == is_unicode_whitespace(c),
{
    let u = c as u32;
    (0x09 <= u && u <= 0x0d) || u == 0x20 || u == 0x85 || u == 0xa0 || u == 0x1680
        || (0x2000 <= u && u <= 0x200a) || u == 0x2028 || u == 0x2029 || u == 0x202f
        || u == 0x205f || u == 0x3000
}

/// Number of leading whitespace characters.
pub open spec fn leading_ws(s: Seq<char>) -> int
    decreases s.len(),
{
    if s.len() > 0 && is_unicode_whitespace(s[0]) {
        1 + leading_ws(s.drop_first())
    } else {
        0
    }
}

/// Number of trailing whitespace characters.
pub open spec fn trailing_ws(s: Seq<char>) -> int
    decreases s.len(),
{
    if s.len() > 0 && is_unicode_whitespace(s.last()) {
        1 + trailing_ws(s.drop_last())
    } else {
        0
    }
}

/// `str::trim`: the text without leading and trailing whitespace.
pub open spec fn spec_trim(s: Seq<char>) -> Seq<char> {
    if leading_ws(s) == s.len() {
        Seq::empty()
    } else {
        s.subrange(leading_ws(s), s.len() - trailing_ws(s))
    }
}

proof fn lemma_leading_ws_step(s: Seq<char>, i: int)
    requires
        0 <= i <= s.len(),
        forall|j: int| 0 <= j < i ==> is_unicode_whitespace(#[trigger] s[j]),
    ensures
        leading_ws(s) == i + leading_ws(s.subrange(i, s.len() as int)),
    decreases i,
{
    if i == 0 {
        assert(s.subrange(0, s.len() as int) =~= s);
    } else {
        assert(is_unicode_whitespace(s[0]));
        let t = s.drop_first();
        assert forall|j: int| 0 <= j < i - 1 implies is_unicode_whitespace(#[trigger] t[j]) by {
            assert(t[j] == s[j + 1]);
        }
        lemma_leading_ws_step(t, i - 1);
        assert(t.subrange(i - 1, t.len() as int) =~= s.subrange(i, s.len() as int));
    }
}

proof fn lemma_trailing_ws_step(s: Seq<char>, k: int)
    requires
        0 <= k <= s.len(),
        forall|j: int| s.len() - k <= j < s.len() ==> is_unicode_whitespace(#[trigger] s[j]),
    ensures
        trailing_ws(s) == k + trailing_ws(s.subrange(0, s.len() - k)),
    decreases k,
{
    if k == 0 {
        assert(s.subrange(0, s.len() as int) =~= s);
    } else {
        assert(is_unicode_whitespace(s[s.len() - 1]));
        let t = s.drop_last();
        assert forall|j: int| t.len() - (k - 1) <= j < t.len() implies is_unicode_whitespace(#[trigger] t[j]) by {
            assert(t[j] == s[j]);
        }
        lemma_trailing_ws_step(t, k - 1);
        assert(t.subrange(0, t.len() - (k - 1)) =~= s.subrange(0, s.len() - k));
    }
}

/// `str::trim` on text.
pub fn trim(s: &str) -> (r: String)
    ensures
        r@ == spec_trim(s@),
{
    let n = s.unicode_len();
    let mut i: usize = 0;
    while i < n && char_is_whitespace(s.get_char(i))
        invariant
            i <= n,
            n == s@.len(),
            forall|j: int| 0 <= j < i ==> is_unicode_whitespace(#[trigger] s@[j]),
        decreases n - i,
    {
        i = i + 1;
    }
    proof {
        lemma_leading_ws_step(s@, i as int);
    }
    if i == n {
        assert(s@.subrange(n as int, n as int).len() == 0);
        assert(leading_ws(s@.subrange(n as int, n as int)) == 0);
        return String::new();
    }
    assert(leading_ws(s@.subrange(i as int, n as int)) == 0) by {
        assert(s@.subrange(i as int, n as int)[0] == s@[i as int]);
    }
    let mut k: usize = 0;
    while k < n - i - 1 && char_is_whitespace(s.get_char(n - 1 - k))
        invariant
            i < n,
            k <= n - i - 1,
            n == s@.len(),
            !is_unicode_whitespace(s@[i as int]),
            forall|j: int| n - k <= j < n ==> is_unicode_whitespace(#[trigger] s@[j]),
        decreases n - i - 1 - k,
    {
        k = k + 1;
    }
    proof {
        lemma_trailing_ws_step(s@, k as int);
        let rest = s@.subrange(0, n - k);
        assert(rest.last() == s@[n - 1 - k]);
        assert(!is_unicode_whitespace(rest.last()));
        assert(trailing_ws(rest) == 0);
    }
    crate::text::substring(s, i, n - k)
}

} // verus!
