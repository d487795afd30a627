//! Unlocking the in-game debug menu by patching the IL of `initDebugger`.
use crate::cancel::stop_requested;
use crate::text::{
    append_string, fmt_decimal, fmt_hex, fmt_hex_list, hex_bytes_text, hex_text, hex_upper_char,
    push_char, byte_hex, decimal_text, join_hex,
};
use std::sync::atomic::AtomicBool;
use vstd::prelude::*;
use vstd::string::StringExecFns;

verus! {

/// The original IL bytes at the start of `initDebugger`.
pub const IL_ORIG: [u8; 24] = [
    0x7E, 0x77, 0x1D, 0x00, 0x04, 0x2C, 0x07, 0x7E, 0x7E, 0x1D, 0x00, 0x04, 0x2D, 0x03, 0x16, 0x2B,
    0x01, 0x17, 0x80, 0x71, 0x00, 0x00, 0x04, 0x7E,
];

/// The patched IL: store `true` into the debug flag, then `nop`s.
pub const IL_PATCH: [u8; 23] = [
    0x17, 0x80, 0x71, 0x00, 0x00, 0x04, 0x00, 0x00, 0x00, 0x00, 0x00, 0x00, 0x00, 0x00, 0x00, 0x00,
    0x00, 0x00, 0x00, 0x00, 0x00, 0x00, 0x00,
];

/// Distance between the starts of two consecutive reads of a region.
pub const IL_SCAN_CHUNK: usize = 0x1_0000;

/// Length of the read buffer: one chunk plus the length of the original IL.
pub const IL_BUF_LEN: usize = 0x1_0018;

/// At most this many bytes of a region are scanned.
pub const IL_REGION_SCAN_MAX: u64 = 0x30_0000;

/// Scanning stops after a region once more than this many hits were found.
pub const IL_MAX_HITS: usize = 8;

/// Where the patch was written in this session.
#[derive(Clone, Debug)]
pub struct F7Patch {
    pub addr: u64,
    pub applied: bool,
}

impl F7Patch {
    pub fn empty() -> (p: Self)
        ensures
            p.addr == 0,
            !p.applied,
    {
        F7Patch { addr: 0, applied: false }
    }
}

#[derive(Clone, Debug)]
pub enum PatchOutcome {
    Applied { addr: u64 },
    AlreadyPatched { addr: u64 },
}

#[derive(Clone, Debug)]
pub enum PatchError {
    Cancelled,
    NotFound,
    Multiple { count: usize, sample: Vec<u64> },
    Unexpected { addr: u64, bytes: Vec<u8> },
    WriteFailed { addr: u64 },
    VerifyFailed { addr: u64 },
}

/// The text of an error.
pub open spec fn patch_error_text(e: PatchError) -> Seq<char> {
    match e {
        PatchError::Cancelled => "扫描已取消"@,
        PatchError::NotFound => "未找到 initDebugger IL 特征（游戏未就绪或版本不匹配）"@,
        PatchError::Multiple { count, sample } => "IL 特征命中 "@ + decimal_text(count as nat)
            + " 处，拒绝写入（样本: "@ + join_hex(sample@) + "）"@,
        PatchError::Unexpected { addr, bytes } => "地址 "@ + hex_text(addr as nat) + " 字节非预期: "@
            + hex_bytes_text(bytes@),
        PatchError::WriteFailed { addr } => "写入失败 addr="@ + hex_text(addr as nat),
        PatchError::VerifyFailed { addr } => "写入后校验失败 addr="@ + hex_text(addr as nat),
    }
}

impl PatchError {
    pub fn message(&self) -> (s: String)
        ensures
            s@ == patch_error_text(*self),
    {
        match self {
            PatchError::Cancelled => String::from_str("扫描已取消"),
            PatchError::NotFound => String::from_str("未找到 initDebugger IL 特征（游戏未就绪或版本不匹配）"),
            PatchError::Multiple { count, sample } => {
                let mut s = String::from_str("IL 特征命中 ");
                append_string(&mut s, &fmt_decimal(*count as u64));
                s.append(" 处，拒绝写入（样本: ");
                append_string(&mut s, &fmt_hex_list(sample.as_slice()));
                s.append("）");
                s
            },
            PatchError::Unexpected { addr, bytes } => {
                let mut s = String::from_str("地址 ");
                append_string(&mut s, &fmt_hex(*addr));
                s.append(" 字节非预期: ");
                append_string(&mut s, &hex_bytes(bytes.as_slice()));
                s
            },
            PatchError::WriteFailed { addr } => {
                let mut s = String::from_str("写入失败 addr=");
                append_string(&mut s, &fmt_hex(*addr));
                s
            },
            PatchError::VerifyFailed { addr } => {
                let mut s = String::from_str("写入后校验失败 addr=");
                append_string(&mut s, &fmt_hex(*addr));
                s
            },
        }
    }
}

/// Renders bytes as upper-case hexadecimal pairs joined by spaces, e.g.
/// `[0x7E, 0x00]` gives `"7E 00"`.
pub fn hex_bytes(b: &[u8]) -> (s: String)
    ensures
        s@ == hex_bytes_text(b@),
{
    let mut s = String::new();
    let n = b.len();
    let mut k: usize = 0;
    while k < n
        invariant
            n == b@.len(),
            k <= n,
            s@ == hex_bytes_text(b@.take(k as int)),
        decreases n - k,
    {
        let x = b[k];
        assert(b@.take(k + 1).drop_last() =~= b@.take(k as int));
        assert(b@.take(k + 1).last() == x);
        if k > 0 {
            push_char(&mut s, ' ');
        }
        push_char(&mut s, hex_upper_char(x / 16));
        push_char(&mut s, hex_upper_char(x % 16));
        proof {
            if k == 0 {
                assert(b@.take(1) =~= seq![x]);
                assert(s@ =~= byte_hex(x));
            } else {
                assert(s@ =~= hex_bytes_text(b@.take(k as int)) + seq![' '] + byte_hex(x));
            }
        }
        k = k + 1;
    }
    assert(b@.take(n as int) =~= b@);
    s
}


// ---------------------------------------------------------------------------
// Region order
// ---------------------------------------------------------------------------

/// How promising a readable region is for holding the IL: mid-sized regions
/// and regions high in the address space first, tiny regions last.
pub open spec fn priority(base: u64, size: u64) -> int {
    (if 0x10_0000 <= size && size < 0x200_0000 { 3int } else { 0int })
        + (if 0x1_0000_0000 <= base && base < 0x8000_0000_0000 { 2int } else { 0int })
        - (if size < 0x1000 { 5int } else { 0int })
}

pub fn region_priority(base: u64, size: u64) -> (p: i32)
    ensures
        p == priority(base, size),
{
    let mut p: i32 = 0;
    if 0x10_0000 <= size && size < 0x200_0000 {
        p += 3;
    }
    if 0x1_0000_0000 <= base && base < 0x8000_0000_0000 {
        p += 2;
    }
    if size < 0x1000 {
        p -= 5;
    }
    p
}

/// The priorities a region can have, highest first.
pub open spec fn priority_levels() -> Seq<int> {
    seq![5int, 3int, 2int, 0int, -3int, -5int]
}

/// Every region has one of the six priority levels.
pub proof fn lemma_priority_levels(base: u64, size: u64)
    ensures
        priority_levels().contains(priority(base, size)),
{
    let p = priority(base, size);
    if p == 5 {
        assert(priority_levels()[0] == p);
    } else if p == 3 {
        assert(priority_levels()[1] == p);
    } else if p == 2 {
        assert(priority_levels()[2] == p);
    } else if p == 0 {
        assert(priority_levels()[3] == p);
    } else if p == -3 {
        assert(priority_levels()[4] == p);
    } else {
        assert(priority_levels()[5] == p);
    }
}

/// The regions of priority `p`, in their original order.
pub open spec fn with_priority(rs: Seq<(u64, u64)>, p: int) -> Seq<(u64, u64)>
    decreases rs.len(),
{
    if rs.len() == 0 {
        seq![]
    } else if priority(rs.last().0, rs.last().1) == p {
        with_priority(rs.drop_last(), p).push(rs.last())
    } else {
        with_priority(rs.drop_last(), p)
    }
}

/// Regions sorted by descending priority, keeping the original order among
/// regions of equal priority (a stable sort).
pub open spec fn by_priority(rs: Seq<(u64, u64)>) -> Seq<(u64, u64)> {
    with_priority(rs, 5) + with_priority(rs, 3) + with_priority(rs, 2) + with_priority(rs, 0)
        + with_priority(rs, -3) + with_priority(rs, -5)
}

fn push_with_priority(rs: &[(u64, u64)], p: i32, out: &mut Vec<(u64, u64)>)
    ensures
        final(out)@ == old(out)@ + with_priority(rs@, p as int),
{
    let n = rs.len();
    let ghost o0 = out@;
    let mut k: usize = 0;
    while k < n
        invariant
            n == rs@.len(),
            k <= n,
            out@ == o0 + with_priority(rs@.take(k as int), p as int),
        decreases n - k,
    {
        assert(rs@.take(k + 1).drop_last() =~= rs@.take(k as int));
        let (b, s) = rs[k];
        if region_priority(b, s) == p {
            out.push((b, s));
            assert(out@ =~= o0 + with_priority(rs@.take(k + 1), p as int));
        }
        k = k + 1;
    }
    assert(rs@.take(n as int) =~= rs@);
}

/// Orders regions by descending priority, stably.
pub fn sort_regions(rs: &[(u64, u64)]) -> (out: Vec<(u64, u64)>)
    ensures
        out@ == by_priority(rs@),
{
    let mut out: Vec<(u64, u64)> = Vec::new();
    push_with_priority(rs, 5, &mut out);
    push_with_priority(rs, 3, &mut out);
    push_with_priority(rs, 2, &mut out);
    push_with_priority(rs, 0, &mut out);
    push_with_priority(rs, -3, &mut out);
    push_with_priority(rs, -5, &mut out);
    assert(out@ =~= by_priority(rs@));
    out
}

// ---------------------------------------------------------------------------
// Scanning one buffer for the original and the patched IL
// ---------------------------------------------------------------------------

/// Last start position examined in a buffer of `want` valid bytes.
pub open spec fn il_limit(want: int) -> int {
    if want >= 24 { want - 24 } else { 0 }
}

/// Matches of the original IL (first) and of the patched IL (second) found by
/// a left-to-right scan of `buf` from `i`, which skips past each match. A
/// patched match counts only when the byte after it, if among the `want`
/// valid bytes, is `0x7E`.
pub open spec fn il_scan(buf: Seq<u8>, want: int, i: int) -> (Seq<int>, Seq<int>)
    decreases il_limit(want) + 25 - i,
{
    if i < 0 || i > il_limit(want) || i + 24 > buf.len() {
        (seq![], seq![])
    } else if buf.subrange(i, i + 24) == IL_ORIG@ {
        let rest = il_scan(buf, want, i + 24);
        (seq![i] + rest.0, rest.1)
    } else if buf.subrange(i, i + 23) == IL_PATCH@ {
        let rest = il_scan(buf, want, i + 23);
        let ok_tail = if i + 23 < want { buf[i + 23] == 0x7E } else { true };
        (rest.0, if ok_tail { seq![i] + rest.1 } else { rest.1 })
    } else {
        il_scan(buf, want, i + 1)
    }
}

fn equal_at(buf: &[u8], i: usize, pat: &[u8]) -> (eq: bool)
    requires
        i + pat@.len() <= buf@.len(),
    ensures
        eq == (buf@.subrange(i as int, i + pat@.len()) == pat@),
{
    let n = pat.len();
    let bl = buf.len();
    let mut k: usize = 0;
    while k < n
        invariant
            n == pat@.len(),
            bl == buf@.len(),
            i + n <= buf@.len(),
            k <= n,
            forall|j: int| 0 <= j < k ==> buf@[i + j] == pat@[j],
        decreases n - k,
    {
        if buf[i + k] != pat[k] {
            assert(buf@.subrange(i as int, i + n)[k as int] != pat@[k as int]);
            return false;
        }
        k = k + 1;
    }
    assert(buf@.subrange(i as int, i + n) =~= pat@);
    true
}

/// Addresses of buffer positions when the buffer was read at `addr`.
pub open spec fn addrs_of(pos: Seq<int>, addr: int) -> Seq<u64> {
    pos.map_values(|k: int| (addr + k) as u64)
}

/// Scans the first `want` bytes of `buf`, read at `addr`, for the original and
/// the patched IL and appends the addresses found. Checks `stop` at every
/// 4096th position and gives up with `Cancelled` when it is set.
pub fn scan_il_buffer(
    buf: &[u8],
    want: usize,
    addr: u64,
    stop: &AtomicBool,
    orig_hits: &mut Vec<u64>,
    patch_hits: &mut Vec<u64>,
) -> (r: Result<(), PatchError>)
    requires
        want <= buf@.len(),
        il_limit(want as int) + 24 <= buf@.len(),
        addr + want <= u64::MAX,
    ensures
        final(orig_hits)@.len() + final(patch_hits)@.len() <= old(orig_hits)@.len() + old(
            patch_hits,
        )@.len() + il_limit(want as int) + 1,
        r is Err ==> r matches Err(PatchError::Cancelled),
        r is Ok ==> {
            let found = il_scan(buf@, want as int, 0);
            &&& final(orig_hits)@ == old(orig_hits)@ + addrs_of(found.0, addr as int)
            &&& final(patch_hits)@ == old(patch_hits)@ + addrs_of(found.1, addr as int)
        },
{
    let ghost o0 = orig_hits@;
    let ghost p0 = patch_hits@;
    let ghost all = il_scan(buf@, want as int, 0);
    let orig: &[u8] = &IL_ORIG;
    let patch: &[u8] = &IL_PATCH;
    let limit = if want >= 24 { want - 24 } else { 0 };
    let mut i: usize = 0;
    while i <= limit
        invariant
            want <= buf@.len(),
            limit == il_limit(want as int),
            limit + 24 <= buf@.len(),
            addr + want <= u64::MAX,
            orig@ == IL_ORIG@,
            patch@ == IL_PATCH@,
            i <= limit + 24,
            o0 == old(orig_hits)@,
            p0 == old(patch_hits)@,
            orig_hits@.len() + patch_hits@.len() <= o0.len() + p0.len() + i,
            o0 + addrs_of(all.0, addr as int) == orig_hits@ + addrs_of(
                il_scan(buf@, want as int, i as int).0,
                addr as int,
            ),
            p0 + addrs_of(all.1, addr as int) == patch_hits@ + addrs_of(
                il_scan(buf@, want as int, i as int).1,
                addr as int,
            ),
        decreases limit + 25 - i,
    {
        if (i & 0xFFF) == 0 && stop_requested(stop) {
            assert(o0 == old(orig_hits)@ && p0 == old(patch_hits)@);
            assert(orig_hits@.len() + patch_hits@.len() <= o0.len() + p0.len() + limit);
            return Err(PatchError::Cancelled);
        }
        let ghost before_o = orig_hits@;
        let ghost before_p = patch_hits@;
        if equal_at(buf, i, orig) {
            orig_hits.push(addr + i as u64);
            proof {
                let rest = il_scan(buf@, want as int, i + 24);
                assert(il_scan(buf@, want as int, i as int) == (seq![i as int] + rest.0, rest.1));
                assert(addrs_of(seq![i as int] + rest.0, addr as int) =~= seq![(addr + i) as u64]
                    + addrs_of(rest.0, addr as int));
                assert(before_o + (seq![(addr + i) as u64] + addrs_of(rest.0, addr as int))
                    =~= orig_hits@ + addrs_of(rest.0, addr as int));
            }
            i = i + 24;
        } else if equal_at(buf, i, patch) {
            let ok_tail = if i + 23 < want {
                buf[i + 23] == 0x7E
            } else {
                true
            };
            if ok_tail {
                patch_hits.push(addr + i as u64);
            }
            proof {
                let rest = il_scan(buf@, want as int, i + 23);
                if ok_tail {
                    assert(il_scan(buf@, want as int, i as int) == (rest.0, seq![i as int]
                        + rest.1));
                    assert(addrs_of(seq![i as int] + rest.1, addr as int) =~= seq![
                        (addr + i) as u64,
                    ] + addrs_of(rest.1, addr as int));
                    assert(before_p + (seq![(addr + i) as u64] + addrs_of(rest.1, addr as int))
                        =~= patch_hits@ + addrs_of(rest.1, addr as int));
                } else {
                    assert(il_scan(buf@, want as int, i as int) == (rest.0, rest.1));
                }
            }
            i = i + 23;
        } else {
            i = i + 1;
        }
    }
    proof {
        lemma_il_scan_count(buf@, want as int, 0);
        let rest = il_scan(buf@, want as int, i as int);
        assert(rest.0 =~= seq![]);
        assert(rest.1 =~= seq![]);
        assert(orig_hits@ + addrs_of(seq![], addr as int) =~= orig_hits@);
        assert(patch_hits@ + addrs_of(seq![], addr as int) =~= patch_hits@);
    }
    Ok(())
}

// ---------------------------------------------------------------------------
// Deciding from the hits
// ---------------------------------------------------------------------------

/// What the scan's hits mean: one original IL site is the target; with no
/// original site, one patched site means the patch is already in place;
/// nothing found, or several sites, is an error, the latter with the first
/// four addresses (original sites first) as a sample.
pub open spec fn il_verdict(orig: Seq<u64>, patch: Seq<u64>, r: Result<(u64, bool), PatchError>) -> bool {
    if orig.len() == 1 {
        r == Ok::<(u64, bool), PatchError>((orig[0], false))
    } else if orig.len() == 0 && patch.len() == 1 {
        r == Ok::<(u64, bool), PatchError>((patch[0], true))
    } else if orig.len() == 0 && patch.len() == 0 {
        r matches Err(PatchError::NotFound)
    } else {
        r matches Err(PatchError::Multiple { count, sample }) && count == orig.len() + patch.len()
            && sample@ == (orig + patch).take(if orig.len() + patch.len() < 4 {
            orig.len() + patch.len()
        } else {
            4
        } as int)
    }
}

pub fn classify_il_hits(orig: &Vec<u64>, patch: &Vec<u64>) -> (r: Result<(u64, bool), PatchError>)
    requires
        orig@.len() + patch@.len() <= usize::MAX,
    ensures
        il_verdict(orig@, patch@, r),
{
    if orig.len() == 1 {
        return Ok((orig[0], false));
    }
    if orig.len() == 0 && patch.len() == 1 {
        return Ok((patch[0], true));
    }
    if orig.len() == 0 && patch.len() == 0 {
        return Err(PatchError::NotFound);
    }
    let mut sample: Vec<u64> = Vec::new();
    let mut k: usize = 0;
    while k < orig.len() && sample.len() < 4
        invariant
            k <= orig@.len(),
            sample@.len() == k,
            k <= 4,
            sample@ == orig@.take(k as int),
        decreases orig@.len() - k,
    {
        sample.push(orig[k]);
        assert(sample@ =~= orig@.take(k + 1));
        k = k + 1;
    }
    let mut j: usize = 0;
    while j < patch.len() && sample.len() < 4
        invariant
            j <= patch@.len(),
            sample@.len() <= 4,
            (orig@.len() < 4 ==> sample@ == orig@ + patch@.take(j as int)),
            (orig@.len() >= 4 ==> sample@ == orig@.take(4) && j == 0),
            (orig@.len() < 4 ==> sample@.len() == orig@.len() + j),
        decreases patch@.len() - j,
    {
        sample.push(patch[j]);
        assert(sample@ =~= orig@ + patch@.take(j + 1));
        j = j + 1;
    }
    proof {
        let all = orig@ + patch@;
        let n = if orig@.len() + patch@.len() < 4 { orig@.len() + patch@.len() } else { 4 };
        if orig@.len() >= 4 {
            assert(sample@ =~= all.take(n as int));
        } else {
            assert(sample@ =~= all.take(n as int));
        }
    }
    Err(PatchError::Multiple { count: orig.len() + patch.len(), sample })
}

/// Each match consumes at least one position, so a scan from `i` finds at
/// most `il_limit(want) + 1 - i` matches.
pub proof fn lemma_il_scan_count(buf: Seq<u8>, want: int, i: int)
    requires
        0 <= i,
    ensures
        il_scan(buf, want, i).0.len() + il_scan(buf, want, i).1.len() <= if i <= il_limit(want) + 1 {
            il_limit(want) + 1 - i
        } else {
            0
        },
    decreases il_limit(want) + 25 - i,
{
    if i < 0 || i > il_limit(want) || i + 24 > buf.len() {
    } else if buf.subrange(i, i + 24) == IL_ORIG@ {
        lemma_il_scan_count(buf, want, i + 24);
    } else if buf.subrange(i, i + 23) == IL_PATCH@ {
        lemma_il_scan_count(buf, want, i + 23);
    } else {
        lemma_il_scan_count(buf, want, i + 1);
    }
}

// ---------------------------------------------------------------------------
// The scan over all readable regions
// ---------------------------------------------------------------------------

/// What the region scan asks for next.
pub enum IlStep {
    /// Read `len` bytes at `addr` and hand them to `IlScan::feed`.
    Read { addr: u64, len: usize },
    /// The scan is over.
    Finished(Result<(u64, bool), PatchError>),
}

/// The scanned length of a region of `size` bytes.
pub open spec fn scan_size(size: u64) -> u64 {
    if size < IL_REGION_SCAN_MAX { size } else { IL_REGION_SCAN_MAX }
}

/// Index of the first region, from `j` on, large enough to hold the IL.
pub open spec fn next_scannable(rs: Seq<(u64, u64)>, j: int) -> int
    decreases rs.len() - j,
{
    if j < 0 || j >= rs.len() {
        rs.len() as int
    } else if rs[j].1 >= 24 {
        j
    } else {
        next_scannable(rs, j + 1)
    }
}

/// One step of the region scan, for the stop flag seen as `stopped`: what
/// `IlScan::next_observed` does.
pub open spec fn il_next_post(o: IlScan, s: IlScan, stopped: bool, step: IlStep) -> bool {
    &&& s.wf()
    &&& s.regions@ == o.regions@
    &&& s.orig_hits@ == o.orig_hits@
    &&& s.patch_hits@ == o.patch_hits@
    &&& s.buf@ == o.buf@
    &&& if o.finished {
        &&& step matches IlStep::Finished(r) && il_verdict(o.orig_hits@, o.patch_hits@, r)
        &&& s.finished
    } else if stopped && (o.in_region || o.ri < o.regions@.len()) {
        step matches IlStep::Finished(Err(PatchError::Cancelled))
    } else if o.in_region {
        &&& s.ri == o.ri
        &&& s.off == o.off
        &&& s.in_region
        &&& step == IlStep::Read { addr: (o.regions@[o.ri as int].0 + o.off) as u64, len: o.want() as usize }
    } else {
        let j = next_scannable(o.regions@, o.ri as int);
        if j >= o.regions@.len() {
            &&& step matches IlStep::Finished(r) && il_verdict(o.orig_hits@, o.patch_hits@, r)
            &&& s.finished
        } else {
            &&& s.ri == j
            &&& s.off == 0
            &&& s.in_region
            &&& step == IlStep::Read { addr: o.regions@[j].0, len: s.want() as usize }
        }
    }
}

/// Whether the original IL or the patched IL starts at `r` in `b`.
pub open spec fn il_like_at(b: Seq<u8>, r: int) -> bool {
    ||| (0 <= r && r + 24 <= b.len() && b.subrange(r, r + 24) == IL_ORIG@)
    ||| (0 <= r && r + 23 <= b.len() && b.subrange(r, r + 23) == IL_PATCH@)
}

/// The search in one buffer finds an original IL that starts at `q` when
/// nothing IL-like starts between `i` and `q`, and the IL lies within the
/// `want` valid bytes.
pub proof fn lemma_il_scan_finds(buf: Seq<u8>, want: int, i: int, q: int)
    requires
        0 <= i <= q,
        q + 24 <= want <= buf.len(),
        buf.subrange(q, q + 24) == IL_ORIG@,
        forall|r: int| i <= r < q ==> !#[trigger] il_like_at(buf, r),
    ensures
        il_scan(buf, want, i).0.contains(q),
    decreases q - i,
{
    if i == q {
        assert(il_scan(buf, want, i).0[0] == q);
    } else {
        assert(!il_like_at(buf, i));
        lemma_il_scan_finds(buf, want, i + 1, q);
        assert(il_scan(buf, want, i) == il_scan(buf, want, i + 1));
    }
}

/// A region is searched up to `min(size, 0x30_0000)` bytes: an original IL
/// lying wholly within that part of the region, with nothing IL-like
/// starting before it, is found by the chunk read at some offset of the
/// scan (a multiple of `IL_SCAN_CHUNK` below the scanned length, read for
/// `min(IL_BUF_LEN, scanned length - offset)` bytes), whatever the rest of
/// the scan buffer holds.
pub proof fn lemma_il_region_covered(mem: Seq<u8>, size: u64, p: int)
    requires
        mem.len() == size,
        0 <= p,
        p + 24 <= (if size < 0x30_0000 { size as int } else { 0x30_0000int }),
        mem.subrange(p, p + 24) == IL_ORIG@,
        forall|r: int| 0 <= r < p ==> !#[trigger] il_like_at(mem, r),
    ensures
        exists|c: int|
            {
                let off = c * IL_SCAN_CHUNK;
                let w = if scan_size(size) - off < IL_BUF_LEN { scan_size(size) - off } else { IL_BUF_LEN as int };
                &&& 0 <= c
                &&& #[trigger] (c * IL_SCAN_CHUNK) < scan_size(size)
                &&& off <= p
                &&& p + 24 <= off + w
                &&& forall|tail: Seq<u8>| #[trigger] il_scan(mem.subrange(off, off + w) + tail, w, 0).0.contains(p - off)
            },
{
    let c = p / (IL_SCAN_CHUNK as int);
    let off = c * IL_SCAN_CHUNK;
    assert(off <= p < off + IL_SCAN_CHUNK);
    let ss = scan_size(size);
    assert(ss == (if size < 0x30_0000 { size as int } else { 0x30_0000int }));
    let w = if ss - off < IL_BUF_LEN { ss - off } else { IL_BUF_LEN as int };
    assert(p + 24 <= off + w);
    assert forall|tail: Seq<u8>| #[trigger] il_scan(mem.subrange(off, off + w) + tail, w, 0).0.contains(p - off) by {
        let buf = mem.subrange(off, off + w) + tail;
        assert(buf.subrange(p - off, p - off + 24) =~= mem.subrange(p, p + 24));
        assert forall|r: int| 0 <= r < p - off implies !#[trigger] il_like_at(buf, r) by {
            assert(buf.subrange(r, r + 24) =~= mem.subrange(off + r, off + r + 24));
            assert(buf.subrange(r, r + 23) =~= mem.subrange(off + r, off + r + 23));
            assert(!il_like_at(mem, off + r));
        }
        lemma_il_scan_finds(buf, w, 0, p - off);
    }
    assert(0 <= c && c * IL_SCAN_CHUNK < ss);
}

/// State of the search for the IL over the readable regions, in priority
/// order. Each region is read in chunks of `IL_BUF_LEN` bytes whose starts
/// are `IL_SCAN_CHUNK` apart, up to `IL_REGION_SCAN_MAX` bytes; the search
/// ends after the last region, or after a region once more than
/// `IL_MAX_HITS` sites were found.
pub struct IlScan {
    pub regions: Vec<(u64, u64)>,
    pub ri: usize,
    pub in_region: bool,
    pub off: u64,
    pub chunks: u64,
    pub finished: bool,
    pub buf: Vec<u8>,
    pub orig_hits: Vec<u64>,
    pub patch_hits: Vec<u64>,
}

impl IlScan {
    pub open spec fn total(&self) -> int {
        (self.orig_hits@.len() + self.patch_hits@.len()) as int
    }

    /// Length of the read for the current chunk.
    pub open spec fn want(&self) -> int {
        let rest = scan_size(self.regions@[self.ri as int].1) - self.off;
        if rest < IL_BUF_LEN { rest } else { IL_BUF_LEN as int }
    }

    pub open spec fn wf(&self) -> bool {
        &&& self.buf@.len() == IL_BUF_LEN
        &&& self.ri <= self.regions@.len()
        &&& forall|k: int|
            0 <= k < self.regions@.len() ==> #[trigger] self.regions@[k].0 + self.regions@[k].1
                <= u64::MAX
        &&& self.total() <= 8 + 49 * IL_BUF_LEN
        &&& self.in_region ==> {
            &&& self.ri < self.regions@.len()
            &&& self.regions@[self.ri as int].1 >= 24
            &&& self.off < scan_size(self.regions@[self.ri as int].1)
            &&& self.off == self.chunks * IL_SCAN_CHUNK
            &&& self.total() <= 8 + self.chunks * IL_BUF_LEN
            &&& !self.finished
        }
        &&& (!self.in_region && !self.finished) ==> self.total() <= 8
    }

    pub fn new(regions: &[(u64, u64)]) -> (s: Self)
        requires
            forall|k: int| 0 <= k < regions@.len() ==> #[trigger] regions@[k].0 + regions@[k].1 <= u64::MAX,
        ensures
            s.wf(),
            s.regions@ == by_priority(regions@),
            s.ri == 0,
            !s.in_region,
            !s.finished,
            s.orig_hits@ == Seq::<u64>::empty(),
            s.patch_hits@ == Seq::<u64>::empty(),
    {
        let sorted = sort_regions(regions);
        proof {
            assert forall|k: int| 0 <= k < sorted@.len() implies #[trigger] sorted@[k].0
                + sorted@[k].1 <= u64::MAX by {
                lemma_by_priority_members(regions@, k);
            }
        }
        IlScan {
            regions: sorted,
            ri: 0,
            in_region: false,
            off: 0,
            chunks: 0,
            finished: false,
            buf: vec![0u8; IL_BUF_LEN],
            orig_hits: Vec::new(),
            patch_hits: Vec::new(),
        }
    }

    fn want_len(&self) -> (w: usize)
        requires
            self.wf(),
            self.in_region,
        ensures
            w == self.want(),
    {
        let size = self.regions[self.ri].1;
        let ss = if size < IL_REGION_SCAN_MAX {
            size
        } else {
            IL_REGION_SCAN_MAX
        };
        let rest = ss - self.off;
        if rest < IL_BUF_LEN as u64 {
            rest as usize
        } else {
            IL_BUF_LEN
        }
    }

    /// The next step when the stop flag was seen as `stopped`. A finished
    /// scan gives its verdict. Otherwise a set flag ends the scan with
    /// `Cancelled` while a region remains to be looked at (the flag is not
    /// looked at once every region is done); a clear one asks for the next
    /// chunk, moving on to the next region large enough for the IL, or gives
    /// the verdict when none is left.
    pub fn next_observed(&mut self, stopped: bool) -> (step: IlStep)
        requires
            old(self).wf(),
        ensures
            il_next_post(*old(self), *final(self), stopped, step),
    {
        if self.finished {
            return IlStep::Finished(classify_il_hits(&self.orig_hits, &self.patch_hits));
        }
        if !self.in_region {
            let n = self.regions.len();
            if stopped && self.ri < n {
                return IlStep::Finished(Err(PatchError::Cancelled));
            }
            while self.ri < n
                invariant
                    n == self.regions@.len(),
                    self.wf(),
                    !self.in_region,
                    !self.finished,
                    self.regions@ == old(self).regions@,
                    self.orig_hits@ == old(self).orig_hits@,
                    self.patch_hits@ == old(self).patch_hits@,
                    self.buf@ == old(self).buf@,
                    next_scannable(self.regions@, self.ri as int) == next_scannable(
                        old(self).regions@,
                        old(self).ri as int,
                    ),
                ensures
                    self.wf(),
                    !self.in_region,
                    !self.finished,
                    self.regions@ == old(self).regions@,
                    self.orig_hits@ == old(self).orig_hits@,
                    self.patch_hits@ == old(self).patch_hits@,
                    self.buf@ == old(self).buf@,
                    self.ri <= n,
                    self.ri < n ==> self.regions@[self.ri as int].1 >= 24,
                    next_scannable(old(self).regions@, old(self).ri as int) == self.ri,
                decreases n - self.ri,
            {
                if self.regions[self.ri].1 >= 24 {
                    break;
                }
                self.ri = self.ri + 1;
            }
            if self.ri >= n {
                self.finished = true;
                return IlStep::Finished(classify_il_hits(&self.orig_hits, &self.patch_hits));
            }
            self.in_region = true;
            self.off = 0;
            self.chunks = 0;
        } else if stopped {
            return IlStep::Finished(Err(PatchError::Cancelled));
        }
        let want = self.want_len();
        IlStep::Read { addr: self.regions[self.ri].0 + self.off, len: want }
    }

    /// The next step: the stop flag is looked at unless the scan is finished,
    /// and the step is the one `next_observed` gives for what was seen.
    pub fn next(&mut self, stop: &AtomicBool) -> (step: IlStep)
        requires
            old(self).wf(),
        ensures
            il_next_post(*old(self), *final(self), false, step) || (!old(self).finished && il_next_post(
                *old(self),
                *final(self),
                true,
                step,
            )),
    {
        let stopped = if self.finished {
            false
        } else {
            stop_requested(stop)
        };
        self.next_observed(stopped)
    }

    /// Takes the outcome of the read that `next` asked for: the bytes, or
    /// `None` when the read failed. The bytes overwrite the start of the scan
    /// buffer and the first `want` bytes of the buffer are searched, looking at
    /// the stop flag every 4096 positions; a failed read skips the chunk
    /// without looking at the flag.
    pub fn feed(&mut self, data: Option<&[u8]>, stop: &AtomicBool) -> (r: Result<(), PatchError>)
        requires
            old(self).wf(),
            !old(self).finished,
            old(self).in_region,
            data matches Some(d) ==> d@.len() == old(self).want(),
        ensures
            final(self).wf(),
            final(self).regions@ == old(self).regions@,
            data is None ==> r is Ok,
            r is Err ==> r matches Err(PatchError::Cancelled),
            r is Ok ==> {
                let buf2 = match data {
                    Some(d) => d@ + old(self).buf@.subrange(d@.len() as int, IL_BUF_LEN as int),
                    None => old(self).buf@,
                };
                let found = match data {
                    Some(d) => il_scan(buf2, old(self).want(), 0),
                    None => (Seq::<int>::empty(), Seq::<int>::empty()),
                };
                let addr = old(self).regions@[old(self).ri as int].0 + old(self).off;
                let off2 = old(self).off + IL_SCAN_CHUNK;
                &&& final(self).buf@ == buf2
                &&& final(self).orig_hits@ == old(self).orig_hits@ + addrs_of(found.0, addr)
                &&& final(self).patch_hits@ == old(self).patch_hits@ + addrs_of(found.1, addr)
                &&& if off2 < scan_size(old(self).regions@[old(self).ri as int].1) {
                    &&& final(self).in_region
                    &&& final(self).ri == old(self).ri
                    &&& final(self).off == off2
                    &&& !final(self).finished
                } else {
                    &&& !final(self).in_region
                    &&& final(self).ri == old(self).ri + 1
                    &&& final(self).finished == (final(self).total() > IL_MAX_HITS)
                }
            },
    {
        let want = self.want_len();
        let base = self.regions[self.ri].0;
        let size = self.regions[self.ri].1;
        let addr = base + self.off;
        proof {
            assert(self.regions@[self.ri as int].0 + self.regions@[self.ri as int].1 <= u64::MAX);
        }
        match data {
            None => {},
            Some(d) => {
                let ghost b0 = self.buf@;
                let mut k: usize = 0;
                while k < want
                    invariant
                        want == d@.len(),
                        want <= IL_BUF_LEN,
                        b0.len() == IL_BUF_LEN,
                        self.buf@.len() == IL_BUF_LEN,
                        k <= want,
                        forall|j: int| 0 <= j < k ==> self.buf@[j] == d@[j],
                        forall|j: int| k <= j < IL_BUF_LEN ==> self.buf@[j] == b0[j],
                        self.regions@ == old(self).regions@,
                        self.ri == old(self).ri,
                        self.off == old(self).off,
                        self.chunks == old(self).chunks,
                        self.in_region == old(self).in_region,
                        self.finished == old(self).finished,
                        self.orig_hits@ == old(self).orig_hits@,
                        self.patch_hits@ == old(self).patch_hits@,
                    decreases want - k,
                {
                    self.buf.set(k, d[k]);
                    k = k + 1;
                }
                assert(self.buf@ =~= d@ + b0.subrange(want as int, IL_BUF_LEN as int));
                let ghost t0 = self.total();
                let r = scan_il_buffer(
                    self.buf.as_slice(),
                    want,
                    addr,
                    stop,
                    &mut self.orig_hits,
                    &mut self.patch_hits,
                );
                proof {
                    lemma_il_scan_count(self.buf@, want as int, 0);
                }
                if r.is_err() {
                    self.finished = true;
                    self.in_region = false;
                    return r;
                }
            },
        }
        let off2 = self.off + IL_SCAN_CHUNK as u64;
        let ss = if size < IL_REGION_SCAN_MAX {
            size
        } else {
            IL_REGION_SCAN_MAX
        };
        if off2 < ss {
            self.off = off2;
            self.chunks = self.chunks + 1;
        } else {
            let _n = self.regions.len();
            self.in_region = false;
            self.ri = self.ri + 1;
            if self.orig_hits.len() + self.patch_hits.len() > IL_MAX_HITS {
                self.finished = true;
            }
        }
        Ok(())
    }
}

/// Every region of the priority order is one of the input regions.
pub proof fn lemma_by_priority_members(rs: Seq<(u64, u64)>, k: int)
    requires
        0 <= k < by_priority(rs).len(),
    ensures
        rs.contains(by_priority(rs)[k]),
{
    let levels = by_priority(rs);
    assert forall|p: int, j: int| 0 <= j < with_priority(rs, p).len() implies rs.contains(
        #[trigger] with_priority(rs, p)[j],
    ) by {
        lemma_with_priority_members(rs, p, j);
    }
    let a = with_priority(rs, 5);
    let b = with_priority(rs, 3);
    let c = with_priority(rs, 2);
    let d = with_priority(rs, 0);
    let e = with_priority(rs, -3);
    let f = with_priority(rs, -5);
    if k < a.len() {
        assert(levels[k] == a[k]);
    } else if k < a.len() + b.len() {
        assert(levels[k] == b[k - a.len()]);
    } else if k < a.len() + b.len() + c.len() {
        assert(levels[k] == c[k - a.len() - b.len()]);
    } else if k < a.len() + b.len() + c.len() + d.len() {
        assert(levels[k] == d[k - a.len() - b.len() - c.len()]);
    } else if k < a.len() + b.len() + c.len() + d.len() + e.len() {
        assert(levels[k] == e[k - a.len() - b.len() - c.len() - d.len()]);
    } else {
        assert(levels[k] == f[k - a.len() - b.len() - c.len() - d.len() - e.len()]);
    }
}

proof fn lemma_with_priority_members(rs: Seq<(u64, u64)>, p: int, j: int)
    requires
        0 <= j < with_priority(rs, p).len(),
    ensures
        rs.contains(with_priority(rs, p)[j]),
    decreases rs.len(),
{
    if rs.len() == 0 {
    } else {
        let init = rs.drop_last();
        if priority(rs.last().0, rs.last().1) == p && j == with_priority(init, p).len() {
            assert(rs[rs.len() - 1] == rs.last());
        } else {
            lemma_with_priority_members(init, p, j);
            let x = with_priority(rs, p)[j];
            let i = choose|i: int| 0 <= i < init.len() && init[i] == x;
            assert(rs[i] == x);
        }
    }
}

// ---------------------------------------------------------------------------
// Patching at a known address
// ---------------------------------------------------------------------------

/// What the `IL_PATCH.len()` bytes read at `addr` say: an unreadable address
/// fails the write; the patched bytes mean there is nothing to do; anything
/// else means the original bytes must be checked next.
pub open spec fn current_verdict(addr: u64, cur: Option<Seq<u8>>) -> Result<Option<PatchOutcome>, PatchError> {
    match cur {
        None => Err(PatchError::WriteFailed { addr }),
        Some(c) => if c == IL_PATCH@ {
            Ok(Some(PatchOutcome::AlreadyPatched { addr }))
        } else {
            Ok(None)
        },
    }
}

pub fn check_current(addr: u64, cur: Option<&[u8]>) -> (r: Result<Option<PatchOutcome>, PatchError>)
    requires
        cur matches Some(c) ==> c@.len() == IL_PATCH@.len(),
    ensures
        r == current_verdict(
            addr,
            match cur {
                Some(c) => Some(c@),
                None => None,
            },
        ),
{
    match cur {
        None => Err(PatchError::WriteFailed { addr }),
        Some(c) => {
            let patch: &[u8] = &IL_PATCH;
            if equal_at(c, 0, patch) {
                assert(c@.subrange(0, 23) =~= c@);
                Ok(Some(PatchOutcome::AlreadyPatched { addr }))
            } else {
                assert(c@.subrange(0, 23) =~= c@);
                Ok(None)
            }
        },
    }
}

/// The original IL must be at `addr` before it is overwritten; otherwise the
/// bytes first read there (`cur`) are reported.
pub fn check_original(addr: u64, cur: &[u8], full: Option<&[u8]>) -> (r: Result<(), PatchError>)
    requires
        full matches Some(f) ==> f@.len() == IL_ORIG@.len(),
    ensures
        (full matches Some(f) && f@ == IL_ORIG@) ==> r is Ok,
        !(full matches Some(f) && f@ == IL_ORIG@) ==> (r matches Err(
            PatchError::Unexpected { addr: a, bytes },
        ) && a == addr && bytes@ == cur@),
{
    let orig: &[u8] = &IL_ORIG;
    match full {
        Some(f) => {
            if equal_at(f, 0, orig) {
                assert(f@.subrange(0, 24) =~= f@);
                return Ok(());
            }
            assert(f@.subrange(0, 24) =~= f@);
        },
        None => {},
    }
    Err(PatchError::Unexpected { addr, bytes: vstd::slice::slice_to_vec(cur) })
}

/// The patch must have been written, by a plain write or one that lifts the
/// page protection.
pub fn check_written(addr: u64, written: bool) -> (r: Result<(), PatchError>)
    ensures
        written ==> r is Ok,
        !written ==> r == Err::<(), PatchError>(PatchError::WriteFailed { addr }),
{
    if written {
        Ok(())
    } else {
        Err(PatchError::WriteFailed { addr })
    }
}

/// Reading the patched bytes back confirms the patch.
pub open spec fn verify_verdict(addr: u64, back: Option<Seq<u8>>) -> Result<PatchOutcome, PatchError> {
    match back {
        Some(v) => if v == IL_PATCH@ {
            Ok(PatchOutcome::Applied { addr })
        } else {
            Err(PatchError::VerifyFailed { addr })
        },
        None => Err(PatchError::VerifyFailed { addr }),
    }
}

pub fn check_verify(addr: u64, back: Option<&[u8]>) -> (r: Result<PatchOutcome, PatchError>)
    requires
        back matches Some(v) ==> v@.len() == IL_PATCH@.len(),
    ensures
        r == verify_verdict(
            addr,
            match back {
                Some(v) => Some(v@),
                None => None,
            },
        ),
{
    match back {
        Some(v) => {
            let patch: &[u8] = &IL_PATCH;
            assert(v@.subrange(0, 23) =~= v@);
            if equal_at(v, 0, patch) {
                Ok(PatchOutcome::Applied { addr })
            } else {
                Err(PatchError::VerifyFailed { addr })
            }
        },
        None => Err(PatchError::VerifyFailed { addr }),
    }
}

/// Patching is idempotent: once the patch is confirmed at `addr`, the same
/// bytes read there again mean that it is already in place, and nothing is
/// written.
pub proof fn lemma_patch_idempotent(addr: u64, back: Seq<u8>)
    requires
        verify_verdict(addr, Some(back)) is Ok,
    ensures
        current_verdict(addr, Some(back)) == Ok::<Option<PatchOutcome>, PatchError>(
            Some(PatchOutcome::AlreadyPatched { addr }),
        ),
{
}

/// Whether the result of patching at a remembered address stands: bytes that
/// are neither original nor patched, or a failed write, send the search back
/// to a full scan.
pub fn cached_attempt_stands(r: &Result<PatchOutcome, PatchError>) -> (stands: bool)
    ensures
        stands == !(r matches Err(PatchError::Unexpected { .. }) || r matches Err(
            PatchError::WriteFailed { .. },
        )),
{
    match r {
        Err(PatchError::Unexpected { .. }) => false,
        Err(PatchError::WriteFailed { .. }) => false,
        _ => true,
    }
}

// ---------------------------------------------------------------------------
// Retrying
// ---------------------------------------------------------------------------

/// Number of attempts at patching.
pub const F7_ATTEMPTS: u32 = 5;

/// What the retry loop does next.
pub enum F7Action {
    /// Make one attempt, after a pause when `pause_first` is set.
    Attempt { pause_first: bool },
    /// Stop with this result.
    Finish(Result<F7Patch, String>),
}

/// The retry loop around patching: up to `F7_ATTEMPTS` attempts, a pause
/// before each but the first; the first success ends it; an error with
/// several sites or a cancellation ends it at once; the message of the last
/// error is the result otherwise.
pub struct F7Apply {
    pub attempt: u32,
    pub last_err: String,
    pub done: Option<Result<u64, ()>>,
}

impl F7Apply {
    pub open spec fn wf(&self) -> bool {
        self.attempt <= F7_ATTEMPTS
    }

    pub fn new() -> (s: Self)
        ensures
            s.wf(),
            s.attempt == 0,
            s.last_err@ == Seq::<char>::empty(),
            s.done is None,
    {
        F7Apply { attempt: 0, last_err: String::new(), done: None }
    }

    pub fn next_action(&self) -> (a: F7Action)
        requires
            self.wf(),
        ensures
            match self.done {
                Some(Ok(addr)) => a matches F7Action::Finish(Ok(p)) && p.addr == addr && p.applied,
                Some(Err(())) => a matches F7Action::Finish(Err(m)) && m@ == self.last_err@,
                None => if self.attempt < F7_ATTEMPTS {
                    a matches F7Action::Attempt { pause_first } && pause_first == (self.attempt > 0)
                } else {
                    a matches F7Action::Finish(Err(m)) && m@ == self.last_err@
                },
            },
    {
        match self.done {
            Some(Ok(addr)) => F7Action::Finish(Ok(F7Patch { addr, applied: true })),
            Some(Err(())) => F7Action::Finish(Err(self.last_err.clone())),
            None => {
                if self.attempt < F7_ATTEMPTS {
                    F7Action::Attempt { pause_first: self.attempt > 0 }
                } else {
                    F7Action::Finish(Err(self.last_err.clone()))
                }
            },
        }
    }

    /// Takes the outcome of one attempt.
    pub fn record(&mut self, outcome: &Result<PatchOutcome, PatchError>)
        requires
            old(self).wf(),
            old(self).done is None,
            old(self).attempt < F7_ATTEMPTS,
        ensures
            final(self).wf(),
            match outcome {
                Ok(PatchOutcome::Applied { addr }) => final(self).done == Some(Ok::<u64, ()>(*addr))
                    && final(self).attempt == old(self).attempt,
                Ok(PatchOutcome::AlreadyPatched { addr }) => final(self).done == Some(Ok::<u64, ()>(*addr))
                    && final(self).attempt == old(self).attempt,
                Err(e) => {
                    &&& final(self).last_err@ == patch_error_text(*e)
                    &&& final(self).attempt == old(self).attempt + 1
                    &&& final(self).done == if (e matches PatchError::Multiple { .. } || e matches PatchError::Cancelled) {
                        Some(Err::<u64, ()>(()))
                    } else {
                        None::<Result<u64, ()>>
                    }
                },
            },
    {
        match outcome {
            Ok(PatchOutcome::Applied { addr }) => {
                self.done = Some(Ok(*addr));
            },
            Ok(PatchOutcome::AlreadyPatched { addr }) => {
                self.done = Some(Ok(*addr));
            },
            Err(e) => {
                self.last_err = e.message();
                self.attempt = self.attempt + 1;
                match e {
                    PatchError::Multiple { .. } => {
                        self.done = Some(Err(()));
                    },
                    PatchError::Cancelled => {
                        self.done = Some(Err(()));
                    },
                    _ => {},
                }
            },
        }
    }
}

// ---------------------------------------------------------------------------
// Status line
// ---------------------------------------------------------------------------

pub open spec fn f7_status_text(bak: F7Patch, cur: Option<Seq<u8>>) -> Seq<char> {
    if !bak.applied || bak.addr == 0 {
        "关"@
    } else {
        match cur {
            None => "地址不可读 (addr="@ + hex_text(bak.addr as nat) + ")"@,
            Some(c) => if c == IL_PATCH@ {
                "开 (addr="@ + hex_text(bak.addr as nat) + ")"@
            } else {
                "状态未知 (addr="@ + hex_text(bak.addr as nat) + ")"@
            },
        }
    }
}

/// The menu's status of the debug-menu patch, from the bytes read at the
/// patched address (`None` when unreadable).
pub fn status_text(bak: &F7Patch, cur: Option<&[u8]>) -> (s: String)
    requires
        cur matches Some(c) ==> c@.len() == IL_PATCH@.len(),
    ensures
        s@ == f7_status_text(
            *bak,
            match cur {
                Some(c) => Some(c@),
                None => None,
            },
        ),
{
    if !bak.applied || bak.addr == 0 {
        return String::from_str("关");
    }
    let mut s = match cur {
        None => String::from_str("地址不可读 (addr="),
        Some(c) => {
            let patch: &[u8] = &IL_PATCH;
            assert(c@.subrange(0, 23) =~= c@);
            if equal_at(c, 0, patch) {
                String::from_str("开 (addr=")
            } else {
                String::from_str("状态未知 (addr=")
            }
        },
    };
    append_string(&mut s, &fmt_hex(bak.addr));
    s.append(")");
    s
}

} // verus!
