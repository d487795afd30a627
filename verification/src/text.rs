//! Text building: hexadecimal and decimal rendering, UTF-16 decoding.
use vstd::prelude::*;
use vstd::string::{StringExecFns, StringSliceAdditionalSpecFns};

verus! {

/// `String::push`: appends one character.
#[verifier::external_body]
pub(crate) fn push_char(s: &mut String, c: char)
    ensures
        final(s)@ == old(s)@.push(c),
{
    s.push(c)
}

/// `char::from_u32`: the character with code point `v`, when `v` is a Unicode
/// scalar value (below 0xD800, or from 0xE000 through 0x10FFFF).
#[verifier::external_body]
fn char_from_u32(v: u32) -> (r: Option<char>)
    ensures
        r is Some <==> (v < 0xD800 || (0xE000 <= v && v <= 0x10FFFF)),
        r matches Some(c) ==> c as u32 == v,
{
    char::from_u32(v)
}

/// Upper-case hexadecimal digit of `d` (`0..16`).
pub open spec fn hex_upper(d: int) -> char {
    if d < 10 { (48 + d) as char } else { (55 + d) as char }
}

/// Lower-case hexadecimal digit of `d` (`0..16`).
pub open spec fn hex_lower(d: int) -> char {
    if d < 10 { (48 + d) as char } else { (87 + d) as char }
}

/// Decimal digit of `d` (`0..10`).
pub open spec fn dec_digit(d: int) -> char {
    (48 + d) as char
}

/// A byte as two upper-case hexadecimal digits (`{:02X}`).
pub open spec fn byte_hex(b: u8) -> Seq<char> {
    seq![hex_upper((b / 16) as int), hex_upper((b % 16) as int)]
}

/// Bytes as two-digit upper-case hexadecimal, separated by single spaces.
pub open spec fn hex_bytes_text(bs: Seq<u8>) -> Seq<char>
    decreases bs.len(),
{
    if bs.len() == 0 {
        seq![]
    } else if bs.len() == 1 {
        byte_hex(bs[0])
    } else {
        hex_bytes_text(bs.drop_last()) + seq![' '] + byte_hex(bs.last())
    }
}

/// Lower-case hexadecimal digits of `v`, without leading zeros (`"0"` for zero).
pub open spec fn lower_hex_digits(v: nat) -> Seq<char>
    decreases v,
{
    if v < 16 {
        seq![hex_lower(v as int)]
    } else {
        lower_hex_digits(v / 16).push(hex_lower((v % 16) as int))
    }
}

/// `v` rendered as `{:#x}`: `0x` followed by its lower-case hexadecimal digits.
pub open spec fn hex_text(v: nat) -> Seq<char> {
    seq!['0', 'x'] + lower_hex_digits(v)
}

/// Decimal digits of `v`, without leading zeros (`"0"` for zero).
pub open spec fn decimal_text(v: nat) -> Seq<char>
    decreases v,
{
    if v < 10 {
        seq![dec_digit(v as int)]
    } else {
        decimal_text(v / 10).push(dec_digit((v % 10) as int))
    }
}

pub(crate) fn hex_upper_char(d: u8) -> (c: char)
    requires
        d < 16,
    ensures
        c == hex_upper(d as int),
{
    if d < 10 {
        (48u8 + d) as char
    } else {
        (55u8 + d) as char
    }
}

fn hex_lower_char(d: u8) -> (c: char)
    requires
        d < 16,
    ensures
        c == hex_lower(d as int),
{
    if d < 10 {
        (48u8 + d) as char
    } else {
        (87u8 + d) as char
    }
}

/// Appends the lower-case hexadecimal digits of `v`.
fn push_lower_hex(s: &mut String, v: u64)
    ensures
        final(s)@ == old(s)@ + lower_hex_digits(v as nat),
    decreases v,
{
    if v >= 16 {
        push_lower_hex(s, v / 16);
    }
    push_char(s, hex_lower_char((v % 16) as u8));
    proof {
        if v < 16 {
            assert(final(s)@ =~= old(s)@ + lower_hex_digits(v as nat));
        } else {
            assert(final(s)@ =~= old(s)@ + lower_hex_digits(v as nat));
        }
    }
}

/// Renders `v` as `{:#x}` does, e.g. `0x1f`.
pub fn fmt_hex(v: u64) -> (s: String)
    ensures
        s@ == hex_text(v as nat),
{
    let mut s = String::new();
    push_char(&mut s, '0');
    push_char(&mut s, 'x');
    push_lower_hex(&mut s, v);
    assert(s@ =~= hex_text(v as nat));
    s
}

/// Appends the decimal digits of `v`.
fn push_decimal(s: &mut String, v: u64)
    ensures
        final(s)@ == old(s)@ + decimal_text(v as nat),
    decreases v,
{
    if v >= 10 {
        push_decimal(s, v / 10);
    }
    push_char(s, (48u8 + (v % 10) as u8) as char);
    assert(final(s)@ =~= old(s)@ + decimal_text(v as nat));
}

/// Renders `v` in decimal, as `{}` does.
pub fn fmt_decimal(v: u64) -> (s: String)
    ensures
        s@ == decimal_text(v as nat),
{
    let mut s = String::new();
    push_decimal(&mut s, v);
    assert(s@ =~= decimal_text(v as nat));
    s
}

/// Appends `b` to `a`.
pub fn append_string(a: &mut String, b: &String)
    ensures
        final(a)@ == old(a)@ + b@,
{
    a.append(b.as_str());
}

// ---------------------------------------------------------------------------
// UTF-16
// ---------------------------------------------------------------------------

/// The replacement character U+FFFD.
pub open spec fn replacement() -> char {
    0xFFFDu32 as char
}

pub open spec fn is_high_surrogate(u: u16) -> bool {
    0xD800 <= u && u < 0xDC00
}

pub open spec fn is_low_surrogate(u: u16) -> bool {
    0xDC00 <= u && u < 0xE000
}

/// UTF-16 decoding in which each unpaired surrogate becomes U+FFFD.
pub open spec fn utf16_lossy(us: Seq<u16>) -> Seq<char>
    decreases us.len(),
{
    if us.len() == 0 {
        seq![]
    } else if !is_high_surrogate(us[0]) && !is_low_surrogate(us[0]) {
        seq![(us[0] as u32) as char] + utf16_lossy(us.drop_first())
    } else if is_high_surrogate(us[0]) && us.len() >= 2 && is_low_surrogate(us[1]) {
        seq![((0x10000 + (us[0] - 0xD800) * 0x400 + (us[1] - 0xDC00)) as u32) as char] + utf16_lossy(
            us.subrange(2, us.len() as int),
        )
    } else {
        seq![replacement()] + utf16_lossy(us.drop_first())
    }
}

/// Decodes UTF-16, replacing each unpaired surrogate with U+FFFD.
pub fn decode_utf16_lossy(us: &[u16]) -> (s: String)
    ensures
        s@ == utf16_lossy(us@),
{
    let mut s = String::new();
    let n = us.len();
    let mut k: usize = 0;
    assert(us@.subrange(0, n as int) =~= us@);
    assert(s@ + utf16_lossy(us@) =~= utf16_lossy(us@));
    while k < n
        invariant
            n == us@.len(),
            k <= n,
            s@ + utf16_lossy(us@.subrange(k as int, n as int)) == utf16_lossy(us@),
        decreases n - k,
    {
        let ghost rest = us@.subrange(k as int, n as int);
        let ghost s0 = s@;
        let u = us[k];
        if u < 0xD800 || u >= 0xE000 {
            let c = char_from_u32(u as u32);
            let c = match c {
                Some(c) => c,
                None => {
                    assert(false);
                    ' '
                },
            };
            push_char(&mut s, c);
            proof {
                assert(rest.drop_first() =~= us@.subrange(k + 1, n as int));
                vstd::utf8::char_u32_cast(c, u as u32);
                assert(rest[0] == u);
                assert(utf16_lossy(rest) == seq![(u as u32) as char] + utf16_lossy(rest.drop_first()));
                assert(s@ + utf16_lossy(us@.subrange(k + 1, n as int)) =~= s0 + utf16_lossy(rest));
            }
            k = k + 1;
        } else if u < 0xDC00 && k + 1 < n && us[k + 1] >= 0xDC00 && us[k + 1] < 0xE000 {
            let lo = us[k + 1];
            let v: u32 = 0x10000 + ((u - 0xD800) as u32) * 0x400 + ((lo - 0xDC00) as u32);
            let c = char_from_u32(v);
            let c = match c {
                Some(c) => c,
                None => {
                    assert(false);
                    ' '
                },
            };
            push_char(&mut s, c);
            proof {
                assert(rest.subrange(2, rest.len() as int) =~= us@.subrange(k + 2, n as int));
                assert(rest[0] == u && rest[1] == lo);
                vstd::utf8::char_u32_cast(c, v);
                assert(utf16_lossy(rest) == seq![v as char] + utf16_lossy(rest.subrange(2, rest.len() as int)));
                assert(s@ + utf16_lossy(us@.subrange(k + 2, n as int)) =~= s0 + utf16_lossy(rest));
            }
            k = k + 2;
        } else {
            push_char(&mut s, '\u{FFFD}');
            proof {
                assert(rest.drop_first() =~= us@.subrange(k + 1, n as int));
                assert(rest[0] == u);
                assert('\u{FFFD}' == replacement());
                assert(utf16_lossy(rest) == seq![replacement()] + utf16_lossy(rest.drop_first()));
                assert(s@ + utf16_lossy(us@.subrange(k + 1, n as int)) =~= s0 + utf16_lossy(rest));
            }
            k = k + 1;
        }
    }
    assert(us@.subrange(n as int, n as int) =~= seq![]);
    assert(s@ + seq![] =~= s@);
    s
}

/// Addresses rendered as `{:#x}` and joined by `", "`.
pub open spec fn join_hex(s: Seq<u64>) -> Seq<char>
    decreases s.len(),
{
    if s.len() == 0 {
        seq![]
    } else if s.len() == 1 {
        hex_text(s[0] as nat)
    } else {
        join_hex(s.drop_last()) + seq![',', ' '] + hex_text(s.last() as nat)
    }
}

/// Renders addresses as `{:#x}` joined by `", "`.
pub fn fmt_hex_list(v: &[u64]) -> (s: String)
    ensures
        s@ == join_hex(v@),
{
    let mut s = String::new();
    let n = v.len();
    let mut k: usize = 0;
    while k < n
        invariant
            n == v@.len(),
            k <= n,
            s@ == join_hex(v@.take(k as int)),
        decreases n - k,
    {
        assert(v@.take(k + 1).drop_last() =~= v@.take(k as int));
        assert(v@.take(k + 1).last() == v@[k as int]);
        let h = fmt_hex(v[k]);
        if k > 0 {
            push_char(&mut s, ',');
            push_char(&mut s, ' ');
        }
        append_string(&mut s, &h);
        proof {
            if k == 0 {
                assert(v@.take(1) =~= seq![v@[0]]);
                assert(s@ =~= hex_text(v@[0] as nat));
            } else {
                assert(s@ =~= join_hex(v@.take(k as int)) + seq![',', ' '] + hex_text(v@[k as int] as nat));
            }
        }
        k = k + 1;
    }
    assert(v@.take(n as int) =~= v@);
    s
}

// ---------------------------------------------------------------------------
// ASCII case
// ---------------------------------------------------------------------------

pub open spec fn ascii_lower(b: u8) -> u8 {
    if 65 <= b && b <= 90 { (b + 32) as u8 } else { b }
}

/// Equal byte strings once ASCII letters are lower-cased.
pub open spec fn eq_ignore_ascii_case_spec(a: Seq<u8>, b: Seq<u8>) -> bool {
    a.len() == b.len() && forall|k: int| 0 <= k < a.len() ==> ascii_lower(#[trigger] a[k]) == ascii_lower(b[k])
}

/// `str::eq_ignore_ascii_case`, on the UTF-8 bytes of both strings.
pub fn eq_ignore_ascii_case(a: &str, b: &str) -> (r: bool)
    ensures
        r == eq_ignore_ascii_case_spec(a.spec_bytes(), b.spec_bytes()),
{
    let x = a.as_bytes();
    let y = b.as_bytes();
    if x.len() != y.len() {
        return false;
    }
    let n = x.len();
    let mut k: usize = 0;
    while k < n
        invariant
            n == x@.len(),
            n == y@.len(),
            x@ == a.spec_bytes(),
            y@ == b.spec_bytes(),
            k <= n,
            forall|j: int| 0 <= j < k ==> ascii_lower(#[trigger] x@[j]) == ascii_lower(y@[j]),
        decreases n - k,
    {
        let p = x[k];
        let q = y[k];
        let lp = if 65 <= p && p <= 90 { p + 32 } else { p };
        let lq = if 65 <= q && q <= 90 { q + 32 } else { q };
        if lp != lq {
            assert(ascii_lower(x@[k as int]) != ascii_lower(y@[k as int]));
            return false;
        }
        k = k + 1;
    }
    true
}

/// What `{:?}` renders a string as: quoted, with escapes.
pub uninterp spec fn debug_text(s: Seq<char>) -> Seq<char>;

/// `<str as Debug>::fmt`, through `format!("{s:?}")`: the string quoted and
/// escaped. Its result is a function of the characters alone; which escapes
/// it uses is not stated here.
#[verifier::external_body]
pub(crate) fn debug_str(s: &str) -> (r: String)
    ensures
        r@ == debug_text(s@),
{
    format!("{s:?}")
}

/// `v` in decimal, with a leading `-` when negative.
pub open spec fn signed_decimal_text(v: int) -> Seq<char> {
    if v < 0 { seq!['-'] + decimal_text((-v) as nat) } else { decimal_text(v as nat) }
}

/// Renders a signed value in decimal, as `{}` does.
pub fn fmt_signed(v: i64) -> (s: String)
    ensures
        s@ == signed_decimal_text(v as int),
{
    if v < 0 {
        let mag: u64 = if v == i64::MIN {
            0x8000_0000_0000_0000u64
        } else {
            (-v) as u64
        };
        let mut s = String::new();
        push_char(&mut s, '-');
        append_string(&mut s, &fmt_decimal(mag));
        assert(s@ =~= signed_decimal_text(v as int));
        s
    } else {
        fmt_decimal(v as u64)
    }
}

} // verus!
