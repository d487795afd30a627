//! Log levels and the timestamp of a log line.
use crate::text::{append_string, decimal_text, fmt_decimal, push_char};
use vstd::prelude::*;
use vstd::string::StringExecFns;

verus! {

pub enum Level {
    Info,
    Warn,
    Error,
}

pub open spec fn tag_text(l: Level) -> Seq<char> {
    match l {
        Level::Info => "I"@,
        Level::Warn => "W"@,
        Level::Error => "E"@,
    }
}

impl Level {
    /// The one-letter tag of a level in a log line.
    pub fn tag(&self) -> (t: &'static str)
        ensures
            t@ == tag_text(*self),
    {
        match self {
            Level::Info => "I",
            Level::Warn => "W",
            Level::Error => "E",
        }
    }
}

/// A log line: timestamp, bracketed level tag, message.
pub fn log_line(ts: &str, level: &Level, msg: &str) -> (line: String)
    ensures
        line@ == ts@ + " ["@ + tag_text(*level) + "] "@ + msg@,
{
    let mut line = String::from_str(ts);
    line.append(" [");
    line.append(level.tag());
    line.append("] ");
    line.append(msg);
    line
}

// ---------------------------------------------------------------------------
// Calendar
// ---------------------------------------------------------------------------

/// Year of the era of a day of the 400-year era (0 to 146096).
pub open spec fn yoe_of(doe: int) -> int {
    (doe - doe / 1460 + doe / 36524 - doe / 146096) / 365
}

/// Day of the (March-based) year of a day of the era.
pub open spec fn doy_of(doe: int) -> int {
    doe - (365 * yoe_of(doe) + yoe_of(doe) / 4 - yoe_of(doe) / 100)
}

#[verifier::rlimit(100)]
proof fn lemma_year_of_era_part(doe: int, b: int)
    requires
        0 <= doe < 146097,
        36524 * b <= doe < 36524 * b + 36524,
        0 <= b <= 4,
    ensures
        0 <= doy_of(doe) <= 365,
        0 <= yoe_of(doe) <= 399,
{
    let a = doe / 1460;
    let c = doe / 146096;
    assert(1460 * a <= doe < 1460 * a + 1460);
    assert(doe / 36524 == b);
    assert(146096 * c <= doe < 146096 * c + 146096);
    let t = doe - a + b - c;
    let y = t / 365;
    assert(365 * y <= t < 365 * y + 365);
    let q = y / 4;
    let r = y / 100;
    assert(4 * q <= y < 4 * q + 4);
    assert(100 * r <= y < 100 * r + 100);
    if b == 0 {
        assert(r == 0);
    } else if b == 1 {
        assert(r <= 1);
    } else if b == 2 {
        assert(r <= 2);
    } else if b == 3 {
        assert(r <= 3);
    }
}

/// Within a 400-year era, the year of the era is at most 399 and the day of
/// the year at most 365.
pub proof fn lemma_year_of_era(doe: int)
    requires
        0 <= doe < 146097,
    ensures
        0 <= doy_of(doe) <= 365,
        0 <= yoe_of(doe) <= 399,
{
    lemma_year_of_era_part(doe, doe / 36524);
}

/// The civil date (year, month, day) of a count of days since 1970-01-01.
pub open spec fn civil_from_days(days: int) -> (int, int, int) {
    let z = days + 719468;
    let era = z / 146097;
    let doe = z - era * 146097;
    let yoe = yoe_of(doe);
    let y = yoe + era * 400;
    let doy = doy_of(doe);
    let mp = (5 * doy + 2) / 153;
    let d = doy - (153 * mp + 2) / 5 + 1;
    let m = if mp < 10 { mp + 3 } else { mp - 9 };
    (if m <= 2 { y + 1 } else { y }, m, d)
}

/// Every date has a month from 1 to 12 and a day from 1 to 31.
pub proof fn lemma_civil_ranges(days: int)
    requires
        days >= 0,
    ensures
        1 <= civil_from_days(days).1 <= 12,
        1 <= civil_from_days(days).2 <= 31,
        civil_from_days(days).0 >= 1970,
{
    let z = days + 719468;
    let era = z / 146097;
    let doe = z - era * 146097;
    lemma_year_of_era(doe);
    let doy = doy_of(doe);
    let mp = (5 * doy + 2) / 153;
    assert(153 * mp <= 5 * doy + 2 < 153 * mp + 153);
    let k = (153 * mp + 2) / 5;
    assert(5 * k <= 153 * mp + 2 < 5 * k + 5);
    assert(era >= 4);
}

/// `v` in decimal, padded with leading zeros to `w` digits.
pub open spec fn padded(v: nat, w: nat) -> Seq<char> {
    let t = decimal_text(v);
    if t.len() < w { Seq::new((w - t.len()) as nat, |i: int| '0') + t } else { t }
}

proof fn lemma_decimal_len(v: nat)
    ensures
        decimal_text(v).len() >= 1,
        v < 10 ==> decimal_text(v).len() == 1,
        10 <= v < 100 ==> decimal_text(v).len() == 2,
        100 <= v < 1000 ==> decimal_text(v).len() == 3,
        1000 <= v < 10000 ==> decimal_text(v).len() == 4,
        10000 <= v ==> decimal_text(v).len() >= 5,
    decreases v,
{
    if v >= 10 {
        lemma_decimal_len(v / 10);
    }
}

fn push_padded(s: &mut String, v: u64, w: u64)
    requires
        w <= 4,
    ensures
        final(s)@ == old(s)@ + padded(v as nat, w as nat),
{
    let t = fmt_decimal(v);
    proof {
        lemma_decimal_len(v as nat);
    }
    let len: u64 = if v < 10 {
        1
    } else if v < 100 {
        2
    } else if v < 1000 {
        3
    } else if v < 10000 {
        4
    } else {
        5
    };
    assert(len < w ==> len == decimal_text(v as nat).len());
    assert(len >= w ==> decimal_text(v as nat).len() >= w);
    let ghost s0 = s@;
    if len < w {
        let mut k: u64 = len;
        while k < w
            invariant
                len <= k <= w,
                s@ == s0 + Seq::new((k - len) as nat, |i: int| '0'),
            decreases w - k,
        {
            push_char(s, '0');
            assert(s@ =~= s0 + Seq::new((k + 1 - len) as nat, |i: int| '0'));
            k = k + 1;
        }
    }
    append_string(s, &t);
    assert(s@ =~= s0 + padded(v as nat, w as nat));
}

/// A log timestamp `YYYY-MM-DD hh:mm:ss.mmm` (UTC) of seconds and
/// milliseconds since 1970-01-01.
pub open spec fn timestamp_text(secs: nat, millis: nat) -> Seq<char> {
    let (y, m, d) = civil_from_days((secs / 86400) as int);
    padded(y as nat, 4) + seq!['-'] + padded(m as nat, 2) + seq!['-'] + padded(d as nat, 2) + seq![' ']
        + padded(((secs % 86400) / 3600) as nat, 2) + seq![':'] + padded(((secs % 3600) / 60) as nat, 2)
        + seq![':'] + padded((secs % 60) as nat, 2) + seq!['.'] + padded(millis, 3)
}

pub fn timestamp(total_secs: u64, millis: u32) -> (s: String)
    requires
        total_secs <= i64::MAX,
    ensures
        s@ == timestamp_text(total_secs as nat, millis as nat),
{
    let days: u64 = total_secs / 86_400;
    let z: u64 = days + 719_468;
    let era: u64 = z / 146_097;
    let doe: u64 = z - era * 146_097;
    proof {
        lemma_year_of_era(doe as int);
    }
    let yoe: u64 = (doe - doe / 1460 + doe / 36524 - doe / 146_096) / 365;
    let y: u64 = yoe + era * 400;
    let doy: u64 = doe - (365 * yoe + yoe / 4 - yoe / 100);
    let mp: u64 = (5 * doy + 2) / 153;
    let d: u64 = doy - (153 * mp + 2) / 5 + 1;
    let m: u64 = if mp < 10 {
        mp + 3
    } else {
        mp - 9
    };
    let y: u64 = if m <= 2 {
        y + 1
    } else {
        y
    };
    let h: u64 = (total_secs % 86_400) / 3600;
    let mi: u64 = (total_secs % 3600) / 60;
    let sec: u64 = total_secs % 60;
    proof {
        lemma_civil_ranges(days as int);
        let c = civil_from_days(days as int);
        assert(c.0 == y && c.1 == m && c.2 == d);
    }
    let mut s = String::new();
    push_padded(&mut s, y, 4);
    push_char(&mut s, '-');
    push_padded(&mut s, m, 2);
    push_char(&mut s, '-');
    push_padded(&mut s, d, 2);
    push_char(&mut s, ' ');
    push_padded(&mut s, h, 2);
    push_char(&mut s, ':');
    push_padded(&mut s, mi, 2);
    push_char(&mut s, ':');
    push_padded(&mut s, sec, 2);
    push_char(&mut s, '.');
    push_padded(&mut s, millis as u64, 3);
    assert(s@ =~= timestamp_text(total_secs as nat, millis as nat));
    s
}

} // verus!
