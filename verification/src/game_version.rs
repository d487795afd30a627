//! Reading the game's content version out of `globalgamemanagers`.
use crate::aob::occurs_at;
use crate::text::{append_string, decimal_text, fmt_decimal, push_char};
use vstd::bytes::{spec_u32_from_le_bytes, u32_from_le_bytes};
use vstd::prelude::*;
use vstd::slice::slice_subrange;
use vstd::string::{StrSliceExecFns, StringExecFns, StringSliceAdditionalSpecFns};

verus! {

/// The only content version this tool knows the memory layout of.
pub const SUPPORTED_CONTENT_VERSION: &'static str = "0.29j";

/// `globalgamemanagers` files larger than this are refused.
pub const MAX_GLOBAL_GAME_MANAGERS_BYTES: u64 = 64 * 1024 * 1024;

/// `AliceInCradle` in ASCII: text found near the version string in
/// `globalgamemanagers`.
pub const GAME_MARKER: [u8; 13] = [
    0x41, 0x6C, 0x69, 0x63, 0x65, 0x49, 0x6E, 0x43, 0x72, 0x61, 0x64, 0x6C, 0x65,
];

/// `NanameHacha` in ASCII: the studio's name, the second place to look near.
pub const STUDIO_MARKER: [u8; 11] = [0x4E, 0x61, 0x6E, 0x61, 0x6D, 0x65, 0x48, 0x61, 0x63, 0x68, 0x61];

// ---------------------------------------------------------------------------
// Whitespace and the supported version
// ---------------------------------------------------------------------------

/// Unicode `White_Space`, the whitespace of `char::is_whitespace`.
pub open spec fn is_white_space(c: char) -> bool {
    let u = c as u32;
    (0x09 <= u && u <= 0x0D) || u == 0x20 || u == 0x85 || u == 0xA0 || u == 0x1680 || (0x2000 <= u
        && u <= 0x200A) || u == 0x2028 || u == 0x2029 || u == 0x202F || u == 0x205F || u == 0x3000
}

/// `s` without its leading whitespace.
pub open spec fn trim_start_ws(s: Seq<char>) -> Seq<char>
    decreases s.len(),
{
    if s.len() > 0 && is_white_space(s[0]) {
        trim_start_ws(s.drop_first())
    } else {
        s
    }
}

/// `s` without its trailing whitespace.
pub open spec fn trim_end_ws(s: Seq<char>) -> Seq<char>
    decreases s.len(),
{
    if s.len() > 0 && is_white_space(s.last()) {
        trim_end_ws(s.drop_last())
    } else {
        s
    }
}

/// `s` without leading and trailing whitespace.
pub open spec fn trim_ws(s: Seq<char>) -> Seq<char> {
    trim_end_ws(trim_start_ws(s))
}

fn is_white_space_char(c: char) -> (b: bool)
    ensures
        b == is_white_space(c),
{
    let u = c as u32;
    (0x09 <= u && u <= 0x0D) || u == 0x20 || u == 0x85 || u == 0xA0 || u == 0x1680 || (0x2000 <= u
        && u <= 0x200A) || u == 0x2028 || u == 0x2029 || u == 0x202F || u == 0x205F || u == 0x3000
}

/// Dropping the leading whitespace of `s` leaves what follows its first
/// other character, at `lo`.
proof fn lemma_trim_start(s: Seq<char>, lo: int)
    requires
        0 <= lo <= s.len(),
        forall|k: int| 0 <= k < lo ==> is_white_space(#[trigger] s[k]),
        lo == s.len() || !is_white_space(s[lo]),
    ensures
        trim_start_ws(s) == s.subrange(lo, s.len() as int),
    decreases lo,
{
    if lo == 0 {
        assert(s.subrange(0, s.len() as int) =~= s);
    } else {
        let t = s.drop_first();
        assert(is_white_space(s[0]));
        assert forall|k: int| 0 <= k < lo - 1 implies is_white_space(#[trigger] t[k]) by {
            assert(t[k] == s[k + 1]);
        }
        if lo - 1 < t.len() {
            assert(t[lo - 1] == s[lo]);
        }
        lemma_trim_start(t, lo - 1);
        assert(t.subrange(lo - 1, t.len() as int) =~= s.subrange(lo, s.len() as int));
    }
}

/// Dropping the trailing whitespace of `t` leaves what precedes its last
/// other character's end, at `hi`.
proof fn lemma_trim_end(t: Seq<char>, hi: int)
    requires
        0 <= hi <= t.len(),
        forall|k: int| hi <= k < t.len() ==> is_white_space(#[trigger] t[k]),
        hi == 0 || !is_white_space(t[hi - 1]),
    ensures
        trim_end_ws(t) == t.subrange(0, hi),
    decreases t.len() - hi,
{
    if hi == t.len() {
        assert(t.subrange(0, hi) =~= t);
    } else {
        let u = t.drop_last();
        assert(is_white_space(t[t.len() - 1]));
        assert forall|k: int| hi <= k < u.len() implies is_white_space(#[trigger] u[k]) by {
            assert(u[k] == t[k]);
        }
        if hi > 0 {
            assert(u[hi - 1] == t[hi - 1]);
        }
        lemma_trim_end(u, hi);
        assert(u.subrange(0, hi) =~= t.subrange(0, hi));
    }
}

/// Whether a content version, once trimmed, is one this tool supports.
pub open spec fn supported(v: Seq<char>) -> bool {
    trim_ws(v) == SUPPORTED_CONTENT_VERSION@
}

pub fn is_supported(version: &str) -> (b: bool)
    ensures
        b == supported(version@),
{
    let n = version.unicode_len();
    let mut lo: usize = 0;
    while lo < n && is_white_space_char(version.get_char(lo))
        invariant
            n == version@.len(),
            lo <= n,
            forall|k: int| 0 <= k < lo ==> is_white_space(#[trigger] version@[k]),
        decreases n - lo,
    {
        lo = lo + 1;
    }
    let mut hi: usize = n;
    while hi > lo && is_white_space_char(version.get_char(hi - 1))
        invariant
            n == version@.len(),
            lo <= hi <= n,
            forall|k: int| hi <= k < n ==> is_white_space(#[trigger] version@[k]),
        decreases hi,
    {
        hi = hi - 1;
    }
    let ghost v = version@;
    let ghost t = v.subrange(lo as int, n as int);
    proof {
        lemma_trim_start(v, lo as int);
        assert forall|k: int| hi - lo <= k < t.len() implies is_white_space(#[trigger] t[k]) by {
            assert(t[k] == v[lo + k]);
        }
        if hi > lo {
            assert(t[hi - lo - 1] == v[hi - 1]);
        }
        lemma_trim_end(t, hi - lo);
        assert(t.subrange(0, hi - lo) =~= v.subrange(lo as int, hi as int));
    }
    let want = SUPPORTED_CONTENT_VERSION;
    let m = want.unicode_len();
    if hi - lo != m {
        return false;
    }
    let mut k: usize = 0;
    while k < m
        invariant
            n == version@.len(),
            v == version@,
            trim_ws(v) == v.subrange(lo as int, hi as int),
            want@ == SUPPORTED_CONTENT_VERSION@,
            m == want@.len(),
            lo <= hi <= n,
            hi - lo == m,
            forall|j: int| 0 <= j < k ==> version@[lo + j] == want@[j],
            k <= m,
        decreases m - k,
    {
        if version.get_char(lo + k) != want.get_char(k) {
            assert(v.subrange(lo as int, hi as int)[k as int] != want@[k as int]);
            return false;
        }
        k = k + 1;
    }
    assert(v.subrange(lo as int, hi as int) =~= want@);
    true
}

// ---------------------------------------------------------------------------
// Length-prefixed strings
// ---------------------------------------------------------------------------

pub open spec fn is_printable(b: u8) -> bool {
    0x20 <= b && b < 0x7f
}

pub open spec fn all_printable(s: Seq<u8>) -> bool {
    forall|k: int| 0 <= k < s.len() ==> is_printable(#[trigger] s[k])
}

/// The strings that Unity serialises as a little-endian 32-bit length of 1 to
/// 24 followed by that many printable ASCII bytes, found by a scan from `i`
/// that skips past each string, each with the offset of its first byte.
pub open spec fn unity_strings(b: Seq<u8>, i: int) -> Seq<(int, Seq<u8>)>
    decreases b.len() - i,
{
    if i < 0 || i + 4 >= b.len() {
        seq![]
    } else {
        let ln = spec_u32_from_le_bytes(b.subrange(i, i + 4)) as int;
        if 1 <= ln && ln <= 24 && i + 4 + ln <= b.len() && all_printable(
            b.subrange(i + 4, i + 4 + ln),
        ) {
            seq![(i + 4, b.subrange(i + 4, i + 4 + ln))] + unity_strings(b, i + 4 + ln)
        } else {
            unity_strings(b, i + 1)
        }
    }
}

/// A candidate: offset and bytes.
pub open spec fn cand_view(c: (usize, Vec<u8>)) -> (int, Seq<u8>) {
    (c.0 as int, c.1@)
}

pub open spec fn cands_view(cs: Seq<(usize, Vec<u8>)>) -> Seq<(int, Seq<u8>)> {
    cs.map_values(|c: (usize, Vec<u8>)| cand_view(c))
}

fn printable_range(b: &[u8], from: usize, to: usize) -> (ok: bool)
    requires
        from <= to <= b@.len(),
    ensures
        ok == all_printable(b@.subrange(from as int, to as int)),
{
    let mut k = from;
    while k < to
        invariant
            from <= k <= to,
            to <= b@.len(),
            forall|j: int| from <= j < k ==> is_printable(b@[j]),
        decreases to - k,
    {
        if b[k] < 0x20 || b[k] >= 0x7f {
            assert(!is_printable(b@.subrange(from as int, to as int)[k - from]));
            return false;
        }
        k = k + 1;
    }
    assert forall|j: int| 0 <= j < to - from implies is_printable(
        #[trigger] b@.subrange(from as int, to as int)[j],
    ) by {
        assert(b@.subrange(from as int, to as int)[j] == b@[from + j]);
    }
    true
}

/// Finds the length-prefixed printable strings of `bytes`.
pub fn extract_unity_len_strings(bytes: &[u8]) -> (out: Vec<(usize, Vec<u8>)>)
    ensures
        cands_view(out@) == unity_strings(bytes@, 0),
{
    let n = bytes.len();
    let mut out: Vec<(usize, Vec<u8>)> = Vec::new();
    let mut i: usize = 0;
    while i < n && n - i > 4
        invariant
            n == bytes@.len(),
            i <= n,
            cands_view(out@) + unity_strings(bytes@, i as int) == unity_strings(bytes@, 0),
        decreases n - i,
    {
        let ghost before = cands_view(out@);
        let ln = u32_from_le_bytes(slice_subrange(bytes, i, i + 4)) as usize;
        let start = i + 4;
        if 1 <= ln && ln <= 24 && ln <= n - start && printable_range(bytes, start, start + ln) {
            let s = vstd::slice::slice_to_vec(slice_subrange(bytes, start, start + ln));
            out.push((start, s));
            proof {
                let rest = unity_strings(bytes@, (start + ln) as int);
                assert(unity_strings(bytes@, i as int) == seq![
                    (start as int, bytes@.subrange(start as int, start + ln)),
                ] + rest);
                assert(cands_view(out@) =~= before.push(
                    (start as int, bytes@.subrange(start as int, start + ln)),
                ));
                assert(before + (seq![(start as int, bytes@.subrange(start as int, start + ln))]
                    + rest) =~= cands_view(out@) + rest);
            }
            i = start + ln;
        } else {
            i = i + 1;
        }
    }
    assert(unity_strings(bytes@, i as int) =~= seq![]);
    assert(cands_view(out@) + seq![] =~= cands_view(out@));
    out
}

// ---------------------------------------------------------------------------
// What a version looks like
// ---------------------------------------------------------------------------

pub open spec fn is_digit(b: u8) -> bool {
    48 <= b && b <= 57
}

pub open spec fn is_alpha(b: u8) -> bool {
    (65 <= b && b <= 90) || (97 <= b && b <= 122)
}

pub open spec fn count_where(s: Seq<u8>, p: spec_fn(u8) -> bool) -> nat
    decreases s.len(),
{
    if s.len() == 0 {
        0
    } else {
        count_where(s.drop_last(), p) + if p(s.last()) { 1nat } else { 0nat }
    }
}

/// A version token: only digits, dots and ASCII letters, with a dot and a
/// digit; not a date-like string starting with `20`, and not a Unity engine
/// version (an `f` with four or more digits and two or more dots).
pub open spec fn version_token(s: Seq<u8>) -> bool {
    &&& forall|k: int| 0 <= k < s.len() ==> is_digit(#[trigger] s[k]) || s[k] == 46 || is_alpha(s[k])
    &&& s.contains(46)
    &&& exists|k: int| 0 <= k < s.len() && is_digit(#[trigger] s[k])
    &&& !(s.len() >= 6 && s[0] == 50 && s[1] == 48)
    &&& !(s.contains(102) && count_where(s, |b: u8| is_digit(b)) >= 4 && count_where(s, |b: u8| b == 46) >= 2)
}

/// A plausible content version: a version token of at most 12 bytes.
pub open spec fn plausible(s: Seq<u8>) -> bool {
    version_token(s) && s.len() <= 12
}

/// Score of a version candidate; higher is more likely the content version.
pub open spec fn score(s: Seq<u8>) -> int {
    (if s.contains(46) { 10int } else { 0int }) + (if exists|k: int| 0 <= k < s.len() && is_alpha(#[trigger] s[k]) {
        5int
    } else {
        0int
    }) + (if s.len() > 0 && s[0] == 48 { 4int } else { 0int }) - (if s == seq![49u8, 46u8, 48u8] || s
        == seq![49u8, 46u8, 48u8, 46u8, 48u8] {
        20int
    } else {
        0int
    }) + (if s.len() <= 8 { 3int } else { 0int })
}

fn contains_byte(s: &[u8], b: u8) -> (r: bool)
    ensures
        r == s@.contains(b),
{
    let n = s.len();
    let mut k: usize = 0;
    while k < n
        invariant
            n == s@.len(),
            k <= n,
            forall|j: int| 0 <= j < k ==> s@[j] != b,
        decreases n - k,
    {
        if s[k] == b {
            assert(s@[k as int] == b);
            return true;
        }
        k = k + 1;
    }
    false
}

fn any_alpha(s: &[u8]) -> (r: bool)
    ensures
        r == exists|k: int| 0 <= k < s@.len() && is_alpha(#[trigger] s@[k]),
{
    let n = s.len();
    let mut k: usize = 0;
    while k < n
        invariant
            n == s@.len(),
            k <= n,
            forall|j: int| 0 <= j < k ==> !is_alpha(#[trigger] s@[j]),
        decreases n - k,
    {
        let c = s[k];
        if (65 <= c && c <= 90) || (97 <= c && c <= 122) {
            assert(is_alpha(s@[k as int]));
            return true;
        }
        k = k + 1;
    }
    false
}

fn equals_bytes(s: &[u8], t: &[u8]) -> (r: bool)
    ensures
        r == (s@ == t@),
{
    if s.len() != t.len() {
        return false;
    }
    let n = s.len();
    let mut k: usize = 0;
    while k < n
        invariant
            n == s@.len(),
            n == t@.len(),
            k <= n,
            forall|j: int| 0 <= j < k ==> s@[j] == t@[j],
        decreases n - k,
    {
        if s[k] != t[k] {
            return false;
        }
        k = k + 1;
    }
    assert(s@ =~= t@);
    true
}

pub fn version_score(v: &[u8]) -> (sc: i32)
    ensures
        sc == score(v@),
{
    let mut sc: i32 = 0;
    if contains_byte(v, 46) {
        sc += 10;
    }
    if any_alpha(v) {
        sc += 5;
    }
    if v.len() > 0 && v[0] == 48 {
        sc += 4;
    }
    let one: [u8; 3] = [49, 46, 48];
    let one_zero: [u8; 5] = [49, 46, 48, 46, 48];
    let a: &[u8] = &one;
    let b: &[u8] = &one_zero;
    assert(a@ =~= seq![49u8, 46u8, 48u8]);
    assert(b@ =~= seq![49u8, 46u8, 48u8, 46u8, 48u8]);
    if equals_bytes(v, a) || equals_bytes(v, b) {
        sc -= 20;
    }
    if v.len() <= 8 {
        sc += 3;
    }
    sc
}

fn count_digits(s: &[u8]) -> (c: usize)
    ensures
        c == count_where(s@, |b: u8| is_digit(b)),
{
    let n = s.len();
    let mut c: usize = 0;
    let mut k: usize = 0;
    while k < n
        invariant
            n == s@.len(),
            k <= n,
            c <= k,
            c == count_where(s@.take(k as int), |b: u8| is_digit(b)),
        decreases n - k,
    {
        assert(s@.take(k + 1).drop_last() =~= s@.take(k as int));
        if 48 <= s[k] && s[k] <= 57 {
            c = c + 1;
        }
        k = k + 1;
    }
    assert(s@.take(n as int) =~= s@);
    c
}

fn count_dots(s: &[u8]) -> (c: usize)
    ensures
        c == count_where(s@, |b: u8| b == 46),
{
    let n = s.len();
    let mut c: usize = 0;
    let mut k: usize = 0;
    while k < n
        invariant
            n == s@.len(),
            k <= n,
            c <= k,
            c == count_where(s@.take(k as int), |b: u8| b == 46),
        decreases n - k,
    {
        assert(s@.take(k + 1).drop_last() =~= s@.take(k as int));
        if s[k] == 46 {
            c = c + 1;
        }
        k = k + 1;
    }
    assert(s@.take(n as int) =~= s@);
    c
}

pub fn looks_like_version_token(s: &[u8]) -> (r: bool)
    ensures
        r == version_token(s@),
{
    let n = s.len();
    let mut k: usize = 0;
    let mut has_digit = false;
    while k < n
        invariant
            n == s@.len(),
            k <= n,
            forall|j: int| 0 <= j < k ==> is_digit(#[trigger] s@[j]) || s@[j] == 46 || is_alpha(s@[j]),
            has_digit == exists|j: int| 0 <= j < k && is_digit(#[trigger] s@[j]),
        decreases n - k,
    {
        let c = s[k];
        let digit = 48 <= c && c <= 57;
        let alpha = (65 <= c && c <= 90) || (97 <= c && c <= 122);
        if !(digit || c == 46 || alpha) {
            assert(!(is_digit(s@[k as int]) || s@[k as int] == 46 || is_alpha(s@[k as int])));
            return false;
        }
        if digit {
            has_digit = true;
        }
        k = k + 1;
    }
    if !contains_byte(s, 46) || !has_digit {
        return false;
    }
    if n >= 6 && s[0] == 50 && s[1] == 48 {
        return false;
    }
    if contains_byte(s, 102) && count_digits(s) >= 4 && count_dots(s) >= 2 {
        return false;
    }
    true
}

pub fn is_plausible_content_version(s: &[u8]) -> (r: bool)
    ensures
        r == plausible(s@),
{
    looks_like_version_token(s) && s.len() <= 12
}

// ---------------------------------------------------------------------------
// Choosing the version
// ---------------------------------------------------------------------------

/// Index of the first occurrence of `needle` in `hay` at or after `j`.
pub open spec fn first_occurrence(hay: Seq<u8>, needle: Seq<u8>, j: int) -> Option<int>
    decreases hay.len() + 1 - j,
{
    if j < 0 || j + needle.len() > hay.len() {
        None
    } else if occurs_at(hay, needle, j) {
        Some(j)
    } else {
        first_occurrence(hay, needle, j + 1)
    }
}

fn equal_at(hay: &[u8], i: usize, pat: &[u8]) -> (eq: bool)
    requires
        i + pat@.len() <= hay@.len(),
    ensures
        eq == (hay@.subrange(i as int, i + pat@.len()) == pat@),
{
    let n = pat.len();
    let hl = hay.len();
    let mut k: usize = 0;
    while k < n
        invariant
            n == pat@.len(),
            hl == hay@.len(),
            i + n <= hay@.len(),
            k <= n,
            forall|j: int| 0 <= j < k ==> hay@[i + j] == pat@[j],
        decreases n - k,
    {
        if hay[i + k] != pat[k] {
            assert(hay@.subrange(i as int, i + n)[k as int] != pat@[k as int]);
            return false;
        }
        k = k + 1;
    }
    assert(hay@.subrange(i as int, i + n) =~= pat@);
    true
}

/// Position of the first occurrence of `needle` in `hay`.
pub fn find_slice(hay: &[u8], needle: &[u8]) -> (r: Option<usize>)
    requires
        needle@.len() > 0,
    ensures
        match r {
            Some(k) => first_occurrence(hay@, needle@, 0) == Some(k as int),
            None => first_occurrence(hay@, needle@, 0) is None,
        },
{
    let n = hay.len();
    let m = needle.len();
    if m > n {
        return None;
    }
    let mut j: usize = 0;
    while j <= n - m
        invariant
            n == hay@.len(),
            m == needle@.len(),
            0 < m <= n,
            j <= n - m + 1,
            first_occurrence(hay@, needle@, 0) == first_occurrence(hay@, needle@, j as int),
        decreases n - m + 1 - j,
    {
        if equal_at(hay, j, needle) {
            return Some(j);
        }
        j = j + 1;
    }
    None
}

pub open spec fn dist(off: int, at: int) -> int {
    if off >= at { off - at } else { at - off }
}

pub open spec fn near_key(c: (int, Seq<u8>), at: int) -> int {
    score(c.1) * -1000 + dist(c.0, at)
}

/// Among the first `k` candidates, the index of the one within 2048 bytes of
/// `at` with the smallest key (highest score, then nearest), the earliest of
/// equal keys.
pub open spec fn best_near_upto(cs: Seq<(int, Seq<u8>)>, at: int, k: int) -> Option<int>
    decreases k,
{
    if k <= 0 || k > cs.len() {
        None
    } else {
        let prev = best_near_upto(cs, at, k - 1);
        let c = cs[k - 1];
        if dist(c.0, at) < 2048 && (prev is None || near_key(c, at) < near_key(cs[prev->0], at)) {
            Some(k - 1)
        } else {
            prev
        }
    }
}

/// The candidate picked near the marker's first occurrence, if the marker
/// occurs.
pub open spec fn near_marker(bytes: Seq<u8>, cs: Seq<(int, Seq<u8>)>, marker: Seq<u8>) -> Option<Seq<u8>> {
    match first_occurrence(bytes, marker, 0) {
        None => None,
        Some(at) => match best_near_upto(cs, at, cs.len() as int) {
            Some(i) => Some(cs[i].1),
            None => None,
        },
    }
}

pub fn pick_best_near_marker(bytes: &[u8], cands: &Vec<(usize, Vec<u8>)>, marker: &[u8]) -> (r: Option<Vec<u8>>)
    requires
        marker@.len() > 0,
    ensures
        r matches Some(v) ==> near_marker(bytes@, cands_view(cands@), marker@) == Some(v@),
        r is None ==> near_marker(bytes@, cands_view(cands@), marker@) is None,
{
    let at = match find_slice(bytes, marker) {
        Some(a) => a,
        None => return None,
    };
    let ghost cs = cands_view(cands@);
    let n = cands.len();
    let mut best: Option<usize> = None;
    let mut best_key: i64 = 0;
    let mut k: usize = 0;
    while k < n
        invariant
            n == cands@.len(),
            cs == cands_view(cands@),
            k <= n,
            best == match best_near_upto(cs, at as int, k as int) {
                Some(i) => Some(i as usize),
                None => None::<usize>,
            },
            best matches Some(i) ==> i < k,
            best_near_upto(cs, at as int, k as int) matches Some(i) ==> 0 <= i < k,
            best matches Some(i) ==> best_key == near_key(cs[i as int], at as int),
        decreases n - k,
    {
        let off = cands[k].0;
        let d: usize = if off >= at {
            off - at
        } else {
            at - off
        };
        proof {
            assert(cs[k as int] == cand_view(cands@[k as int]));
        }
        if d < 2048 {
            let key: i64 = (version_score(cands[k].1.as_slice()) as i64) * -1000 + d as i64;
            match best {
                None => {
                    best = Some(k);
                    best_key = key;
                },
                Some(_) => {
                    if key < best_key {
                        best = Some(k);
                        best_key = key;
                    }
                },
            }
        }
        k = k + 1;
    }
    match best {
        Some(i) => {
            assert(cs[i as int] == cand_view(cands@[i as int]));
            Some(vstd::slice::slice_to_vec(cands[i].1.as_slice()))
        },
        None => None,
    }
}

/// Among the first `k` candidates, the index of the one with the highest
/// score, the earliest of equal scores.
pub open spec fn best_score_upto(cs: Seq<(int, Seq<u8>)>, k: int) -> Option<int>
    decreases k,
{
    if k <= 0 || k > cs.len() {
        None
    } else {
        let prev = best_score_upto(cs, k - 1);
        if prev is None || score(cs[k - 1].1) > score(cs[prev->0].1) {
            Some(k - 1)
        } else {
            prev
        }
    }
}

pub open spec fn best_version(cs: Seq<(int, Seq<u8>)>) -> Option<Seq<u8>> {
    match best_score_upto(cs, cs.len() as int) {
        Some(i) => Some(cs[i].1),
        None => None,
    }
}

pub fn pick_best_version(cands: &Vec<(usize, Vec<u8>)>) -> (r: Option<Vec<u8>>)
    ensures
        r matches Some(v) ==> best_version(cands_view(cands@)) == Some(v@),
        r is None ==> best_version(cands_view(cands@)) is None,
{
    let ghost cs = cands_view(cands@);
    let n = cands.len();
    let mut best: Option<usize> = None;
    let mut best_score: i32 = 0;
    let mut k: usize = 0;
    while k < n
        invariant
            n == cands@.len(),
            cs == cands_view(cands@),
            k <= n,
            best == match best_score_upto(cs, k as int) {
                Some(i) => Some(i as usize),
                None => None::<usize>,
            },
            best matches Some(i) ==> i < k,
            best_score_upto(cs, k as int) matches Some(i) ==> 0 <= i < k,
            best matches Some(i) ==> best_score == score(cs[i as int].1),
        decreases n - k,
    {
        proof {
            assert(cs[k as int] == cand_view(cands@[k as int]));
        }
        let sc = version_score(cands[k].1.as_slice());
        match best {
            None => {
                best = Some(k);
                best_score = sc;
            },
            Some(_) => {
                if sc > best_score {
                    best = Some(k);
                    best_score = sc;
                }
            },
        }
        k = k + 1;
    }
    match best {
        Some(i) => {
            assert(cs[i as int] == cand_view(cands@[i as int]));
            Some(vstd::slice::slice_to_vec(cands[i].1.as_slice()))
        },
        None => None,
    }
}

/// The candidates that are plausible content versions, in order.
pub open spec fn plausible_only(cs: Seq<(int, Seq<u8>)>) -> Seq<(int, Seq<u8>)>
    decreases cs.len(),
{
    if cs.len() == 0 {
        seq![]
    } else if plausible(cs.last().1) {
        plausible_only(cs.drop_last()).push(cs.last())
    } else {
        plausible_only(cs.drop_last())
    }
}

/// The content version found in the bytes of `globalgamemanagers`: the best
/// plausible length-prefixed string near the game's name, else near the
/// studio's name, else the best one anywhere.
pub open spec fn ggm_version(bytes: Seq<u8>) -> Option<Seq<u8>> {
    let cs = plausible_only(unity_strings(bytes, 0));
    match near_marker(bytes, cs, GAME_MARKER@) {
        Some(v) => Some(v),
        None => match near_marker(bytes, cs, STUDIO_MARKER@) {
            Some(v) => Some(v),
            None => best_version(cs),
        },
    }
}

proof fn lemma_plausible_only_all(cs: Seq<(int, Seq<u8>)>)
    ensures
        forall|i: int| 0 <= i < plausible_only(cs).len() ==> plausible(#[trigger] plausible_only(cs)[i].1),
    decreases cs.len(),
{
    if cs.len() > 0 {
        let rest = plausible_only(cs.drop_last());
        lemma_plausible_only_all(cs.drop_last());
        if plausible(cs.last().1) {
            assert forall|i: int| 0 <= i < rest.push(cs.last()).len() implies plausible(
                #[trigger] rest.push(cs.last())[i].1,
            ) by {
                if i < rest.len() {
                    assert(rest.push(cs.last())[i] == rest[i]);
                }
            }
        }
    }
}

/// How far apart two offsets are.
pub open spec fn gap(a: int, b: int) -> int {
    if a < b { b - a } else { a - b }
}

/// The candidate picked near a marker: it lies within 2048 bytes of the
/// marker, and it ranks first by score, with a thousand bytes of distance
/// worth one point. So no candidate near the marker scores three points or
/// more above it, one that scores higher lies more than a thousand bytes per
/// point farther away, among equal scores the nearest wins, and of
/// candidates that rank alike the earliest wins. With no candidate near the
/// marker, none is picked.
pub proof fn lemma_best_near_law(cs: Seq<(int, Seq<u8>)>, at: int, k: int)
    requires
        0 <= k <= cs.len(),
    ensures
        best_near_upto(cs, at, k) matches Some(i) ==> {
            &&& 0 <= i < k
            &&& gap(cs[i].0, at) < 2048
            &&& forall|j: int|
                0 <= j < k && gap(#[trigger] cs[j].0, at) < 2048 ==> 1000 * score(cs[j].1) - gap(cs[j].0, at)
                    <= 1000 * score(cs[i].1) - gap(cs[i].0, at)
            &&& forall|j: int|
                0 <= j < i && gap(#[trigger] cs[j].0, at) < 2048 ==> 1000 * score(cs[j].1) - gap(cs[j].0, at)
                    < 1000 * score(cs[i].1) - gap(cs[i].0, at)
            &&& forall|j: int| 0 <= j < k && gap(#[trigger] cs[j].0, at) < 2048 ==> score(cs[j].1) < score(cs[i].1) + 3
            &&& forall|j: int|
                0 <= j < k && gap(#[trigger] cs[j].0, at) < 2048 && score(cs[j].1) == score(cs[i].1) ==> gap(
                    cs[i].0,
                    at,
                ) <= gap(cs[j].0, at)
        },
        best_near_upto(cs, at, k) is None ==> forall|j: int| 0 <= j < k ==> gap(#[trigger] cs[j].0, at) >= 2048,
    decreases k,
{
    if k > 0 {
        lemma_best_near_law(cs, at, k - 1);
        let prev = best_near_upto(cs, at, k - 1);
        let c = cs[k - 1];
        if gap(c.0, at) < 2048 && (prev is None || near_key(c, at) < near_key(cs[prev->0], at)) {
            assert(best_near_upto(cs, at, k) == Some(k - 1));
        } else {
            assert(best_near_upto(cs, at, k) == prev);
        }
        if let Some(i) = best_near_upto(cs, at, k) {
            assert forall|j: int| 0 <= j < k && gap(#[trigger] cs[j].0, at) < 2048 implies score(cs[j].1) < score(
                cs[i].1,
            ) + 3 by {
                assert(1000 * score(cs[j].1) - gap(cs[j].0, at) <= 1000 * score(cs[i].1) - gap(cs[i].0, at));
                assert(gap(cs[j].0, at) >= 0 && gap(cs[i].0, at) >= 0);
            }
        }
    }
}

proof fn lemma_best_near_in_range(cs: Seq<(int, Seq<u8>)>, at: int, k: int)
    ensures
        best_near_upto(cs, at, k) matches Some(i) ==> 0 <= i < k && k <= cs.len(),
    decreases k,
{
    if k > 0 && k <= cs.len() {
        lemma_best_near_in_range(cs, at, k - 1);
    }
}

proof fn lemma_best_score_in_range(cs: Seq<(int, Seq<u8>)>, k: int)
    ensures
        best_score_upto(cs, k) matches Some(i) ==> 0 <= i < k && k <= cs.len(),
    decreases k,
{
    if k > 0 && k <= cs.len() {
        lemma_best_score_in_range(cs, k - 1);
    }
}

/// Whatever version is read from `globalgamemanagers` is a plausible content
/// version: letters, digits and dots only, with a dot and a digit, at most
/// twelve bytes, and not a date or an engine build number.
pub proof fn lemma_version_is_plausible(bytes: Seq<u8>)
    ensures
        ggm_version(bytes) matches Some(v) ==> plausible(v),
{
    let cs = plausible_only(unity_strings(bytes, 0));
    lemma_plausible_only_all(unity_strings(bytes, 0));
    let game = first_occurrence(bytes, GAME_MARKER@, 0);
    let studio = first_occurrence(bytes, STUDIO_MARKER@, 0);
    if let Some(at) = game {
        lemma_best_near_in_range(cs, at, cs.len() as int);
    }
    if let Some(at) = studio {
        lemma_best_near_in_range(cs, at, cs.len() as int);
    }
    lemma_best_score_in_range(cs, cs.len() as int);
}

/// Bytes read as ASCII characters.
pub open spec fn ascii_chars(s: Seq<u8>) -> Seq<char> {
    s.map_values(|b: u8| b as char)
}

fn ascii_string(b: &[u8]) -> (s: String)
    ensures
        s@ == ascii_chars(b@),
{
    let mut s = String::new();
    let n = b.len();
    let mut k: usize = 0;
    while k < n
        invariant
            n == b@.len(),
            k <= n,
            s@ == ascii_chars(b@.take(k as int)),
        decreases n - k,
    {
        push_char(&mut s, b[k] as char);
        assert(s@ =~= ascii_chars(b@.take(k + 1)));
        k = k + 1;
    }
    assert(b@.take(n as int) =~= b@);
    s
}

fn retain_plausible(cands: Vec<(usize, Vec<u8>)>) -> (out: Vec<(usize, Vec<u8>)>)
    ensures
        cands_view(out@) == plausible_only(cands_view(cands@)),
{
    let ghost cs = cands_view(cands@);
    let n = cands.len();
    let mut out: Vec<(usize, Vec<u8>)> = Vec::new();
    let mut k: usize = 0;
    while k < n
        invariant
            n == cands@.len(),
            cs == cands_view(cands@),
            k <= n,
            cands_view(out@) == plausible_only(cs.take(k as int)),
        decreases n - k,
    {
        assert(cs.take(k + 1).drop_last() =~= cs.take(k as int));
        assert(cs[k as int] == cand_view(cands@[k as int]));
        if is_plausible_content_version(cands[k].1.as_slice()) {
            let c = (cands[k].0, vstd::slice::slice_to_vec(cands[k].1.as_slice()));
            out.push(c);
            assert(cands_view(out@) =~= plausible_only(cs.take(k as int)).push(cs[k as int]));
        }
        k = k + 1;
    }
    assert(cs.take(n as int) =~= cs);
    out
}

/// The content version from the bytes of `globalgamemanagers`.
pub fn version_from_ggm_bytes(bytes: &[u8]) -> (r: Result<String, String>)
    ensures
        match ggm_version(bytes@) {
            Some(v) => r matches Ok(s) && s@ == ascii_chars(v),
            None => r matches Err(m) && m@ == "globalgamemanagers 中未解析到游戏版本"@,
        },
{
    let cands = retain_plausible(extract_unity_len_strings(bytes));
    let game: &[u8] = &GAME_MARKER;
    let studio: &[u8] = &STUDIO_MARKER;
    if let Some(v) = pick_best_near_marker(bytes, &cands, game) {
        return Ok(ascii_string(v.as_slice()));
    }
    if let Some(v) = pick_best_near_marker(bytes, &cands, studio) {
        return Ok(ascii_string(v.as_slice()));
    }
    match pick_best_version(&cands) {
        Some(v) => Ok(ascii_string(v.as_slice())),
        None => Err(String::from_str("globalgamemanagers 中未解析到游戏版本")),
    }
}

/// Refuses a `globalgamemanagers` file larger than the limit.
pub fn check_ggm_size(size: u64) -> (r: Result<(), String>)
    ensures
        size <= MAX_GLOBAL_GAME_MANAGERS_BYTES ==> r is Ok,
        size > MAX_GLOBAL_GAME_MANAGERS_BYTES ==> (r matches Err(m) && m@ == "globalgamemanagers 过大 ("@
            + decimal_text(size as nat) + " bytes, 上限 "@ + decimal_text(
            MAX_GLOBAL_GAME_MANAGERS_BYTES as nat,
        ) + ")"@),
{
    if size > MAX_GLOBAL_GAME_MANAGERS_BYTES {
        let mut m = String::from_str("globalgamemanagers 过大 (");
        append_string(&mut m, &fmt_decimal(size));
        m.append(" bytes, 上限 ");
        append_string(&mut m, &fmt_decimal(MAX_GLOBAL_GAME_MANAGERS_BYTES));
        m.append(")");
        return Err(m);
    }
    Ok(())
}

/// Whether a file name is the game's executable, ignoring ASCII case.
pub fn is_game_exe_name(name: &str) -> (b: bool)
    ensures
        b == crate::text::eq_ignore_ascii_case_spec(name.spec_bytes(), "AliceInCradle.exe".spec_bytes()),
{
    crate::text::eq_ignore_ascii_case(name, "AliceInCradle.exe")
}

} // verus!
