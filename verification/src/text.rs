//! Text helpers shared by the rest of the library: path joining, decimal and
//! hexadecimal rendering, decimal parsing and a few searches on strings.
//!
//! Paths are kept as text with `/` as separator; a relative segment is appended
//! after a separator, an absolute one replaces the base, as `Path::join` does.

use vstd::prelude::*;

verus! {

// ── characters ───────────────────────────────────────────────────────────────

/// The decimal digit character for `d < 10`.
pub open spec fn digit_char(d: int) -> char {
    if d == 0 { '0' }
    else if d == 1 { '1' }
    else if d == 2 { '2' }
    else if d == 3 { '3' }
    else if d == 4 { '4' }
    else if d == 5 { '5' }
    else if d == 6 { '6' }
    else if d == 7 { '7' }
    else if d == 8 { '8' }
    else { '9' }
}

/// The lowercase hexadecimal digit character for `d < 16`.
pub open spec fn hex_char(d: int) -> char {
    if d < 10 { digit_char(d) }
    else if d == 10 { 'a' }
    else if d == 11 { 'b' }
    else if d == 12 { 'c' }
    else if d == 13 { 'd' }
    else if d == 14 { 'e' }
    else { 'f' }
}

pub open spec fn is_digit(c: char) -> bool {
    '0' <= c && c <= '9'
}

/// The value of a decimal digit character.
pub open spec fn digit_value(c: char) -> int {
    c as int - '0' as int
}

pub fn digit_str(d: u64) -> (r: &'static str)
    requires
        d < 10,
    ensures
        r@ == seq![digit_char(d as int)],
{
    proof {
        reveal_strlit("0");
        reveal_strlit("1");
        reveal_strlit("2");
        reveal_strlit("3");
        reveal_strlit("4");
        reveal_strlit("5");
        reveal_strlit("6");
        reveal_strlit("7");
        reveal_strlit("8");
        reveal_strlit("9");
    }
    if d == 0 { "0" }
    else if d == 1 { "1" }
    else if d == 2 { "2" }
    else if d == 3 { "3" }
    else if d == 4 { "4" }
    else if d == 5 { "5" }
    else if d == 6 { "6" }
    else if d == 7 { "7" }
    else if d == 8 { "8" }
    else { "9" }
}

pub fn hex_digit_str(d: u64) -> (r: &'static str)
    requires
        d < 16,
    ensures
        r@ == seq![hex_char(d as int)],
{
    proof {
        reveal_strlit("a");
        reveal_strlit("b");
        reveal_strlit("c");
        reveal_strlit("d");
        reveal_strlit("e");
        reveal_strlit("f");
    }
    if d < 10 { digit_str(d) }
    else if d == 10 { "a" }
    else if d == 11 { "b" }
    else if d == 12 { "c" }
    else if d == 13 { "d" }
    else if d == 14 { "e" }
    else { "f" }
}

// ── decimal ──────────────────────────────────────────────────────────────────

/// Decimal rendering of a natural number, most significant digit first, no padding.
pub open spec fn spec_decimal(n: nat) -> Seq<char>
    decreases n,
{
    if n < 10 {
        seq![digit_char(n as int)]
    } else {
        spec_decimal(n / 10).push(digit_char((n % 10) as int))
    }
}

/// The number that a sequence of decimal digits denotes.
pub open spec fn digits_value(s: Seq<char>) -> int
    decreases s.len(),
{
    if s.len() == 0 {
        0
    } else {
        digits_value(s.drop_last()) * 10 + digit_value(s.last())
    }
}

pub open spec fn all_digits(s: Seq<char>) -> bool {
    forall|i: int| 0 <= i < s.len() ==> is_digit(#[trigger] s[i])
}

/// What `str::parse::<u64>` accepts: an optional `+`, then at least one decimal
/// digit, with a value that fits in a `u64`.
pub open spec fn spec_parse_u64(s: Seq<char>) -> Option<u64> {
    let body = if s.len() > 0 && s[0] == '+' { s.drop_first() } else { s };
    if body.len() > 0 && all_digits(body) && digits_value(body) <= u64::MAX {
        Some(digits_value(body) as u64)
    } else {
        None
    }
}

pub proof fn lemma_digit_char_is_digit(d: int)
    requires
        0 <= d < 10,
    ensures
        is_digit(digit_char(d)),
        digit_value(digit_char(d)) == d,
{
}

pub proof fn lemma_decimal_digits(n: nat)
    ensures
        spec_decimal(n).len() > 0,
        all_digits(spec_decimal(n)),
        digits_value(spec_decimal(n)) == n,
    decreases n,
{
    if n < 10 {
        lemma_digit_char_is_digit(n as int);
        assert(spec_decimal(n).drop_last() =~= Seq::<char>::empty());
        assert(digits_value(Seq::<char>::empty()) == 0);
        assert(digits_value(spec_decimal(n)) == digits_value(spec_decimal(n).drop_last()) * 10
            + digit_value(spec_decimal(n).last()));
    } else {
        lemma_decimal_digits(n / 10);
        lemma_digit_char_is_digit((n % 10) as int);
        let s = spec_decimal(n);
        assert(s.drop_last() =~= spec_decimal(n / 10));
        assert(s.last() == digit_char((n % 10) as int));
        assert(digits_value(s) == digits_value(spec_decimal(n / 10)) * 10 + digit_value(s.last()));
        assert((n / 10) * 10 + n % 10 == n);
        assert forall|i: int| 0 <= i < s.len() implies is_digit(#[trigger] s[i]) by {
            if i < s.len() - 1 {
                assert(s[i] == spec_decimal(n / 10)[i]);
            }
        }
    }
}

/// Every natural number's decimal rendering parses back to it.
pub proof fn lemma_parse_decimal_roundtrip(n: u64)
    ensures
        spec_parse_u64(spec_decimal(n as nat)) == Some(n),
{
    lemma_decimal_digits(n as nat);
    let s = spec_decimal(n as nat);
    assert(is_digit(s[0]));
}

pub proof fn lemma_no_colon_in_decimal(n: nat)
    ensures
        forall|i: int| 0 <= i < spec_decimal(n).len() ==> spec_decimal(n)[i] != ':',
{
    lemma_decimal_digits(n);
    assert forall|i: int| 0 <= i < spec_decimal(n).len() implies spec_decimal(n)[i] != ':' by {
        assert(is_digit(spec_decimal(n)[i]));
    }
}

/// Decimal rendering of `n`, as `format!("{}", n)` writes it.
pub fn u64_to_decimal(n: u64) -> (r: String)
    ensures
        r@ == spec_decimal(n as nat),
    decreases n,
{
    if n < 10 {
        digit_str(n).to_owned()
    } else {
        let mut s = u64_to_decimal(n / 10);
        s.append(digit_str(n % 10));
        s
    }
}

proof fn lemma_digits_value_push(s: Seq<char>, c: char)
    ensures
        digits_value(s.push(c)) == digits_value(s) * 10 + digit_value(c),
{
    assert(s.push(c).drop_last() =~= s);
}

proof fn lemma_digits_value_nonneg(s: Seq<char>)
    requires
        all_digits(s),
    ensures
        digits_value(s) >= 0,
    decreases s.len(),
{
    if s.len() > 0 {
        assert(all_digits(s.drop_last())) by {
            assert forall|i: int| 0 <= i < s.drop_last().len() implies is_digit(#[trigger] s.drop_last()[i]) by {
                assert(s.drop_last()[i] == s[i]);
            }
        }
        lemma_digits_value_nonneg(s.drop_last());
        assert(is_digit(s[s.len() - 1]));
    }
}

/// Digits appended after a prefix never make the value smaller.
proof fn lemma_digits_value_prefix_le(s: Seq<char>, i: int)
    requires
        all_digits(s),
        0 <= i <= s.len(),
    ensures
        digits_value(s.take(i)) <= digits_value(s),
    decreases s.len() - i,
{
    if i < s.len() {
        lemma_digits_value_prefix_le(s, i + 1);
        let t = s.take(i + 1);
        assert(t.drop_last() =~= s.take(i));
        assert(is_digit(s[i]));
        assert(all_digits(s.take(i))) by {
            assert forall|j: int| 0 <= j < s.take(i).len() implies is_digit(#[trigger] s.take(i)[j]) by {
                assert(s.take(i)[j] == s[j]);
            }
        }
        lemma_digits_value_nonneg(s.take(i));
    } else {
        assert(s.take(i) =~= s);
    }
}

/// Parses a decimal `u64` as `str::parse::<u64>` does.
pub fn parse_u64(s: &str) -> (r: Option<u64>)
    ensures
        r == spec_parse_u64(s@),
{
    let n = s.unicode_len();
    let mut start: usize = 0;
    if n > 0 && s.get_char(0) == '+' {
        start = 1;
    }
    let ghost body = if s@.len() > 0 && s@[0] == '+' { s@.drop_first() } else { s@ };
    assert(body =~= s@.subrange(start as int, n as int));
    if start >= n {
        return None;
    }
    let mut value: u64 = 0;
    let mut i: usize = start;
    while i < n
        invariant
            start <= i <= n,
            n == s@.len(),
            body == (if s@.len() > 0 && s@[0] == '+' { s@.drop_first() } else { s@ }),
            body =~= s@.subrange(start as int, n as int),
            all_digits(body.take(i - start)),
            value == digits_value(body.take(i - start)),
        decreases n - i,
    {
        let c = s.get_char(i);
        let ghost pre = body.take(i - start);
        assert(body.take(i - start + 1) =~= pre.push(c));
        if !('0' <= c && c <= '9') {
            proof {
                assert(body[i - start] == c);
                assert(!all_digits(body));
            }
            return None;
        }
        proof {
            lemma_digits_value_push(pre, c);
        }
        let d = (c as u64) - ('0' as u64);
        if value > (u64::MAX - d) / 10 {
            proof {
                assert(all_digits(body.take(i - start + 1))) by {
                    assert forall|j: int| 0 <= j < body.take(i - start + 1).len() implies is_digit(#[trigger] body.take(i - start + 1)[j]) by {
                        if j < i - start {
                            assert(body.take(i - start + 1)[j] == pre[j]);
                        }
                    }
                }
                assert(digits_value(body.take(i - start + 1)) > u64::MAX) by (nonlinear_arith)
                    requires
                        value > (u64::MAX - d) / 10,
                        digits_value(body.take(i - start + 1)) == value * 10 + d,
                        d <= 9,
                ;
                if all_digits(body) {
                    lemma_digits_value_prefix_le(body, i - start + 1);
                }
            }
            return None;
        }
        assert(value * 10 + d <= u64::MAX) by (nonlinear_arith)
            requires
                value <= (u64::MAX - d) / 10,
                d <= 9,
        ;
        value = value * 10 + d;
        proof {
            assert forall|j: int| 0 <= j < body.take(i - start + 1).len() implies is_digit(#[trigger] body.take(i - start + 1)[j]) by {
                if j < i - start {
                    assert(body.take(i - start + 1)[j] == pre[j]);
                }
            }
        }
        i = i + 1;
    }
    assert(body.take(n - start) =~= body);
    Some(value)
}

// ── hexadecimal ──────────────────────────────────────────────────────────────

/// Two lowercase hex digits for one byte, as `format!("{:02x}", b)` writes them.
pub open spec fn spec_hex_byte(b: u8) -> Seq<char> {
    seq![hex_char((b / 16) as int), hex_char((b % 16) as int)]
}

/// Lowercase hex rendering of a byte sequence, two digits per byte.
pub open spec fn spec_hex(bytes: Seq<u8>) -> Seq<char>
    decreases bytes.len(),
{
    if bytes.len() == 0 {
        Seq::empty()
    } else {
        spec_hex(bytes.drop_last()) + spec_hex_byte(bytes.last())
    }
}

pub proof fn lemma_hex_len(bytes: Seq<u8>)
    ensures
        spec_hex(bytes).len() == 2 * bytes.len(),
    decreases bytes.len(),
{
    if bytes.len() > 0 {
        lemma_hex_len(bytes.drop_last());
    }
}

/// Lowercase hex encoding of `bytes`, two digits per byte.
pub fn hex_encode(bytes: &[u8]) -> (r: String)
    ensures
        r@ == spec_hex(bytes@),
{
    let mut out = String::new();
    let mut i: usize = 0;
    while i < bytes.len()
        invariant
            i <= bytes@.len(),
            out@ == spec_hex(bytes@.take(i as int)),
        decreases bytes@.len() - i,
    {
        let b = bytes[i];
        out.append(hex_digit_str((b / 16) as u64));
        out.append(hex_digit_str((b % 16) as u64));
        assert(bytes@.take(i + 1).drop_last() =~= bytes@.take(i as int));
        i = i + 1;
    }
    assert(bytes@.take(bytes@.len() as int) =~= bytes@);
    out
}

/// Fixed-width lowercase hex rendering of `n` in `width` digits, most
/// significant first, zero padded.
pub open spec fn spec_hex_fixed(n: nat, width: nat) -> Seq<char>
    decreases width,
{
    if width == 0 {
        Seq::empty()
    } else {
        spec_hex_fixed(n / 16, (width - 1) as nat).push(hex_char((n % 16) as int))
    }
}

pub proof fn lemma_hex_fixed_len(n: nat, width: nat)
    ensures
        spec_hex_fixed(n, width).len() == width,
    decreases width,
{
    if width > 0 {
        lemma_hex_fixed_len(n / 16, (width - 1) as nat);
    }
}

fn hex_fixed(n: u64, width: u64) -> (r: String)
    ensures
        r@ == spec_hex_fixed(n as nat, width as nat),
    decreases width,
{
    if width == 0 {
        String::new()
    } else {
        let mut s = hex_fixed(n / 16, width - 1);
        s.append(hex_digit_str(n % 16));
        s
    }
}

/// Sixteen lowercase hex digits for `n`, as `format!("{:016x}", n)` writes them.
pub fn hex_u64_16(n: u64) -> (r: String)
    ensures
        r@ == spec_hex_fixed(n as nat, 16),
        r@.len() == 16,
{
    proof {
        lemma_hex_fixed_len(n as nat, 16);
    }
    hex_fixed(n, 16)
}

// ── paths ────────────────────────────────────────────────────────────────────

/// Joining a path with one more component: an absolute component replaces the
/// base, an empty base gives the component, otherwise a `/` separates them
/// unless the base already ends in one.
pub open spec fn spec_path_join(base: Seq<char>, seg: Seq<char>) -> Seq<char> {
    if seg.len() > 0 && seg[0] == '/' {
        seg
    } else if base.len() == 0 {
        seg
    } else if base.last() == '/' {
        base + seg
    } else {
        base + seq!['/'] + seg
    }
}

pub fn path_join(base: &str, seg: &str) -> (r: String)
    ensures
        r@ == spec_path_join(base@, seg@),
{
    proof {
        reveal_strlit("/");
    }
    let seg_len = seg.unicode_len();
    if seg_len > 0 && seg.get_char(0) == '/' {
        return seg.to_owned();
    }
    let base_len = base.unicode_len();
    if base_len == 0 {
        return seg.to_owned();
    }
    let mut out = base.to_owned();
    if base.get_char(base_len - 1) != '/' {
        out.append("/");
    }
    out.append(seg);
    out
}

// ── searching ────────────────────────────────────────────────────────────────

pub open spec fn spec_ends_with(s: Seq<char>, suffix: Seq<char>) -> bool {
    suffix.len() <= s.len() && s.subrange(s.len() - suffix.len(), s.len() as int) == suffix
}

pub fn ends_with(s: &str, suffix: &str) -> (r: bool)
    ensures
        r == spec_ends_with(s@, suffix@),
{
    let n = s.unicode_len();
    let m = suffix.unicode_len();
    if m > n {
        return false;
    }
    let mut i: usize = 0;
    while i < m
        invariant
            m <= n,
            n == s@.len(),
            m == suffix@.len(),
            i <= m,
            forall|j: int| 0 <= j < i ==> s@[n - m + j] == suffix@[j],
        decreases m - i,
    {
        if s.get_char(n - m + i) != suffix.get_char(i) {
            assert(s@.subrange(n - m, n as int)[i as int] != suffix@[i as int]);
            return false;
        }
        i = i + 1;
    }
    assert(s@.subrange(n - m, n as int) =~= suffix@);
    true
}

/// Index of the last occurrence of `c` in `s`, or `-1` when there is none.
pub open spec fn spec_last_index_of(s: Seq<char>, c: char) -> int
    decreases s.len(),
{
    if s.len() == 0 {
        -1
    } else if s.last() == c {
        s.len() - 1
    } else {
        spec_last_index_of(s.drop_last(), c)
    }
}

pub proof fn lemma_last_index_of_bounds(s: Seq<char>, c: char)
    ensures
        -1 <= spec_last_index_of(s, c) < s.len(),
        spec_last_index_of(s, c) >= 0 ==> s[spec_last_index_of(s, c)] == c,
        forall|j: int| spec_last_index_of(s, c) < j < s.len() ==> s[j] != c,
    decreases s.len(),
{
    if s.len() > 0 && s.last() != c {
        lemma_last_index_of_bounds(s.drop_last(), c);
        assert forall|j: int| spec_last_index_of(s, c) < j < s.len() implies s[j] != c by {
            if j < s.len() - 1 {
                assert(s[j] == s.drop_last()[j]);
            }
        }
    }
}

/// The last occurrence of `c` is at the end of a prefix when what follows it
/// holds no `c`.
pub proof fn lemma_last_index_of_concat(a: Seq<char>, c: char, b: Seq<char>)
    requires
        forall|j: int| 0 <= j < b.len() ==> b[j] != c,
    ensures
        spec_last_index_of(a.push(c) + b, c) == a.len(),
    decreases b.len(),
{
    if b.len() == 0 {
        assert(a.push(c) + b =~= a.push(c));
    } else {
        assert((a.push(c) + b).drop_last() =~= a.push(c) + b.drop_last());
        lemma_last_index_of_concat(a, c, b.drop_last());
    }
}

pub fn last_index_of(s: &str, c: char) -> (r: Option<usize>)
    ensures
        match r {
            Some(i) => i as int == spec_last_index_of(s@, c),
            None => spec_last_index_of(s@, c) == -1,
        },
{
    let n = s.unicode_len();
    let mut i: usize = n;
    assert(s@.take(n as int) =~= s@);
    while i > 0
        invariant
            i <= n,
            n == s@.len(),
            spec_last_index_of(s@, c) == spec_last_index_of(s@.take(i as int), c),
        decreases i,
    {
        let ghost t = s@.take(i as int);
        if s.get_char(i - 1) == c {
            return Some(i - 1);
        }
        assert(t.drop_last() =~= s@.take(i - 1));
        i = i - 1;
    }
    None
}

pub fn substring(s: &str, from: usize, to: usize) -> (r: String)
    requires
        from <= to <= s@.len(),
    ensures
        r@ == s@.subrange(from as int, to as int),
{
    s.substring_char(from, to).to_owned()
}

pub fn str_eq(a: &str, b: &str) -> (r: bool)
    ensures
        r == (a@ == b@),
{
    let sa = a.to_owned();
    let sb = b.to_owned();
    sa == sb
}

} // verus!

verus! {

// ── ordering ─────────────────────────────────────────────────────────────────

/// Lexicographic order of texts by code point, which is the order `String`'s
/// `Ord` gives (it compares the UTF-8 bytes, and UTF-8 keeps code point order).
pub open spec fn lex_lt(a: Seq<char>, b: Seq<char>) -> bool
    decreases a.len(),
{
    if a.len() == 0 {
        b.len() > 0
    } else if b.len() == 0 {
        false
    } else if a[0] != b[0] {
        (a[0] as int) < (b[0] as int)
    } else {
        lex_lt(a.drop_first(), b.drop_first())
    }
}

pub proof fn lemma_lex_irreflexive(a: Seq<char>)
    ensures
        !lex_lt(a, a),
    decreases a.len(),
{
    if a.len() > 0 {
        lemma_lex_irreflexive(a.drop_first());
    }
}

pub proof fn lemma_lex_asymmetric(a: Seq<char>, b: Seq<char>)
    ensures
        lex_lt(a, b) ==> !lex_lt(b, a),
    decreases a.len(),
{
    if a.len() > 0 && b.len() > 0 && a[0] == b[0] {
        lemma_lex_asymmetric(a.drop_first(), b.drop_first());
    }
}

pub proof fn lemma_lex_transitive(a: Seq<char>, b: Seq<char>, c: Seq<char>)
    requires
        lex_lt(a, b),
        lex_lt(b, c),
    ensures
        lex_lt(a, c),
    decreases a.len(),
{
    if a.len() > 0 && b.len() > 0 && c.len() > 0 {
        if a[0] == b[0] && b[0] == c[0] {
            lemma_lex_transitive(a.drop_first(), b.drop_first(), c.drop_first());
        }
    }
}

pub proof fn lemma_lex_total(a: Seq<char>, b: Seq<char>)
    ensures
        a != b ==> lex_lt(a, b) || lex_lt(b, a),
    decreases a.len(),
{
    if a.len() > 0 && b.len() > 0 {
        if a[0] == b[0] {
            lemma_lex_total(a.drop_first(), b.drop_first());
            if a.drop_first() == b.drop_first() {
                assert(a =~= seq![a[0]] + a.drop_first());
                assert(b =~= seq![b[0]] + b.drop_first());
            }
        } else {
            assert((a[0] as int) != (b[0] as int));
        }
    } else if a.len() == 0 && b.len() == 0 {
        assert(a =~= b);
    }
}

/// Whether `a` sorts before `b`.
pub fn str_lt(a: &str, b: &str) -> (r: bool)
    ensures
        r == lex_lt(a@, b@),
{
    let n = a.unicode_len();
    let m = b.unicode_len();
    let mut i: usize = 0;
    assert(a@.skip(0) =~= a@);
    assert(b@.skip(0) =~= b@);
    while i < n && i < m
        invariant
            i <= n,
            i <= m,
            n == a@.len(),
            m == b@.len(),
            lex_lt(a@, b@) == lex_lt(a@.skip(i as int), b@.skip(i as int)),
        decreases n - i,
    {
        let ca = a.get_char(i);
        let cb = b.get_char(i);
        assert(a@.skip(i as int)[0] == ca);
        assert(b@.skip(i as int)[0] == cb);
        if ca != cb {
            return ca < cb;
        }
        assert(a@.skip(i as int).drop_first() =~= a@.skip(i + 1));
        assert(b@.skip(i as int).drop_first() =~= b@.skip(i + 1));
        i = i + 1;
    }
    i == n && i < m
}

} // verus!
