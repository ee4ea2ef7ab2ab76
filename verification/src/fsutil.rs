//! Telling a corrupt index file from a readable one. Writing files atomically
//! is the caller's part.

use vstd::prelude::*;
use vstd::utf8::{decode_utf8, encode_utf8, encode_utf8_decode_utf8, valid_utf8};

use crate::json::{json_parses, json_text_valid, spec_trim, trim, utf8_decode};

verus! {

/// Whether text starts a JSON object or array.
pub open spec fn starts_object_or_array(text: Seq<char>) -> bool {
    text.len() > 0 && (text[0] == '{' || text[0] == '[')
}

/// An index file's bytes are corrupt when they are empty, all NUL, not UTF-8,
/// blank, or, once trimmed, not a JSON object or array: they must start one
/// and parse as JSON.
pub open spec fn spec_corrupt_index(data: Seq<u8>) -> bool {
    ||| data.len() == 0
    ||| (forall|i: int| 0 <= i < data.len() ==> data[i] == 0u8)
    ||| !valid_utf8(data)
    ||| spec_trim(decode_utf8(data)).len() == 0
    ||| !starts_object_or_array(spec_trim(decode_utf8(data)))
    ||| !json_text_valid(spec_trim(decode_utf8(data)))
}

pub fn is_corrupt_index_bytes(data: &[u8]) -> (r: bool)
    ensures
        r == spec_corrupt_index(data@),
{
    if data.len() == 0 {
        return true;
    }
    let mut all_nul = true;
    let mut i: usize = 0;
    while i < data.len()
        invariant
            i <= data@.len(),
            all_nul == (forall|j: int| 0 <= j < i ==> data@[j] == 0u8),
        decreases data@.len() - i,
    {
        if data[i] != 0 {
            all_nul = false;
        }
        i = i + 1;
    }
    if all_nul {
        return true;
    }
    let text = match utf8_decode(data) {
        Some(t) => t,
        None => return true,
    };
    proof { encode_utf8_decode_utf8(text@); }
    let trimmed = trim(text.as_str());
    if trimmed.as_str().unicode_len() == 0 {
        return true;
    }
    let first = trimmed.as_str().get_char(0);
    if first != '{' && first != '[' {
        return true;
    }
    !json_parses(trimmed.as_str())
}

} // verus!
