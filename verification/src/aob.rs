//! Byte-pattern and pointer scanning over memory read in chunks.
use vstd::bytes::{spec_u64_from_le_bytes, u64_from_le_bytes};
use crate::text::{decode_utf16_lossy, utf16_lossy};
use vstd::bytes::{spec_u16_from_le_bytes, u16_from_le_bytes};
use vstd::prelude::*;
use vstd::slice::{slice_subrange, slice_to_vec};
use vstd::string::StringSliceAdditionalSpecFns;

verus! {

/// Size of one read while scanning a region.
pub const SCAN_CHUNK: usize = 0x10_0000;

/// Offset of the first UTF-16 code unit inside a Mono string object.
pub const MONO_STRING_CHARS: u64 = 0x14;

/// Offset of the 32-bit length field inside a Mono string object.
pub const MONO_STRING_LEN: u64 = 0x10;

// ---------------------------------------------------------------------------
// Patterns
// ---------------------------------------------------------------------------

/// The UTF-16LE search pattern of a key: each byte of the key followed by a
/// zero byte, then a two-byte zero terminator.
pub open spec fn utf16le_of(bytes: Seq<u8>) -> Seq<u8> {
    Seq::new(
        2 * bytes.len() + 2,
        |i: int| if i < 2 * bytes.len() && i % 2 == 0 { bytes[i / 2] } else { 0u8 },
    )
}

pub fn utf16le_pattern(key: &str) -> (out: Vec<u8>)
    requires
        2 * key.spec_bytes().len() + 2 <= usize::MAX,
    ensures
        out@ == utf16le_of(key.spec_bytes()),
{
    let bytes = key.as_bytes();
    let n = bytes.len();
    let mut out: Vec<u8> = Vec::with_capacity(n * 2 + 2);
    let mut k: usize = 0;
    while k < n
        invariant
            n == bytes@.len(),
            bytes@ == key.spec_bytes(),
            2 * n + 2 <= usize::MAX,
            k <= n,
            out@.len() == 2 * k,
            forall|i: int|
                0 <= i < 2 * k ==> out@[i] == (if i % 2 == 0 { bytes@[i / 2] } else { 0u8 }),
        decreases n - k,
    {
        out.push(bytes[k]);
        out.push(0u8);
        k = k + 1;
    }
    out.push(0u8);
    out.push(0u8);
    assert(out@ =~= utf16le_of(key.spec_bytes()));
    out
}

// ---------------------------------------------------------------------------
// Greedy non-overlapping search inside one buffer
// ---------------------------------------------------------------------------

/// `pat` occurs in `hay` starting at `i`.
pub open spec fn occurs_at(hay: Seq<u8>, pat: Seq<u8>, i: int) -> bool {
    0 <= i && i + pat.len() <= hay.len() && hay.subrange(i, i + pat.len()) == pat
}

/// Positions found by a left-to-right search from `i` that resumes right after
/// each match, stopping after `budget` matches. An empty pattern matches at
/// `i` again and again, until the budget is spent.
pub open spec fn greedy_matches(hay: Seq<u8>, pat: Seq<u8>, i: int, budget: nat) -> Seq<int>
    decreases budget, hay.len() - i,
{
    if budget == 0 || i < 0 || i + pat.len() > hay.len() {
        seq![]
    } else if pat.len() == 0 || hay.subrange(i, i + pat.len()) == pat {
        seq![i] + greedy_matches(hay, pat, i + pat.len(), (budget - 1) as nat)
    } else {
        greedy_matches(hay, pat, i + 1, budget)
    }
}

/// How many more hits a list of `len` hits may take under a cap of `max`.
pub open spec fn room(len: int, max: int) -> nat {
    if len < max { (max - len) as nat } else { 0 }
}

/// Addresses of a list of buffer positions when the buffer starts at `base`.
pub open spec fn at_base(pos: Seq<int>, base: int) -> Seq<u64> {
    pos.map_values(|k: int| (base + k) as u64)
}

/// Each greedy match is an occurrence, at increasing, non-overlapping positions.
pub proof fn lemma_greedy_matches_sound(hay: Seq<u8>, pat: Seq<u8>, i: int, budget: nat)
    requires
        0 <= i,
    ensures
        greedy_matches(hay, pat, i, budget).len() <= budget,
        forall|j: int|
            0 <= j < greedy_matches(hay, pat, i, budget).len() ==> {
                &&& occurs_at(hay, pat, #[trigger] greedy_matches(hay, pat, i, budget)[j])
                &&& i <= greedy_matches(hay, pat, i, budget)[j]
            },
        forall|j: int|
            0 <= j && j + 1 < greedy_matches(hay, pat, i, budget).len() ==>
                #[trigger] greedy_matches(hay, pat, i, budget)[j] + pat.len()
                    <= greedy_matches(hay, pat, i, budget)[j + 1],
    decreases budget, hay.len() - i,
{
    if budget == 0 || i < 0 || i + pat.len() > hay.len() {
    } else if pat.len() == 0 || hay.subrange(i, i + pat.len()) == pat {
        assert(hay.subrange(i, i + pat.len()) =~= pat);
        lemma_greedy_matches_sound(hay, pat, i + pat.len(), (budget - 1) as nat);
        let rest = greedy_matches(hay, pat, i + pat.len(), (budget - 1) as nat);
        let all = greedy_matches(hay, pat, i, budget);
        assert(all == seq![i] + rest);
        assert forall|j: int| 0 <= j < all.len() implies occurs_at(hay, pat, #[trigger] all[j])
            && i <= all[j] by {
            if j > 0 {
                assert(all[j] == rest[j - 1]);
            }
        }
        assert forall|j: int| 0 <= j && j + 1 < all.len() implies #[trigger] all[j] + pat.len()
            <= all[j + 1] by {
            assert(all[j + 1] == rest[j]);
            if j > 0 {
                assert(all[j] == rest[j - 1]);
            }
        }
    } else {
        lemma_greedy_matches_sound(hay, pat, i + 1, budget);
    }
}

/// A pattern scan never holds more hits than its cap: the matches taken from
/// one buffer fill at most the room left under `max_hits`.
pub proof fn lemma_scan_respects_cap(hay: Seq<u8>, pat: Seq<u8>, held: nat, max_hits: nat)
    requires
        held <= max_hits,
    ensures
        held + greedy_matches(hay, pat, 0, room(held as int, max_hits as int)).len() <= max_hits,
{
    lemma_greedy_matches_sound(hay, pat, 0, room(held as int, max_hits as int));
}

/// Compares `pat` with the bytes of `hay` that start at `i`.
fn bytes_equal_at(hay: &[u8], i: usize, pat: &[u8]) -> (eq: bool)
    requires
        i + pat@.len() <= hay@.len(),
    ensures
        eq == (hay@.subrange(i as int, i + pat@.len()) == pat@),
{
    let n = pat.len();
    let hl = hay.len();
    let mut k: usize = 0;
    while k < n
        invariant
            n == pat@.len(),
            hl == hay@.len(),
            i + n <= hay@.len(),
            k <= n,
            forall|j: int| 0 <= j < k ==> hay@[i + j] == pat@[j],
        decreases n - k,
    {
        if hay[i + k] != pat[k] {
            assert(hay@.subrange(i as int, i + n)[k as int] != pat@[k as int]);
            return false;
        }
        k = k + 1;
    }
    assert(hay@.subrange(i as int, i + n) =~= pat@);
    true
}

/// Appends to `hits` the addresses (`base_addr` plus offset) of the matches of
/// `pat` in `hay`, scanning left to right and resuming after each match, while
/// `hits` holds fewer than `max_hits` entries.
pub fn find_in_buffer(hay: &[u8], pat: &[u8], base_addr: u64, max_hits: usize, hits: &mut Vec<u64>)
    requires
        base_addr + hay@.len() <= u64::MAX,
    ensures
        final(hits)@ == old(hits)@ + at_base(
            greedy_matches(hay@, pat@, 0, room(old(hits)@.len() as int, max_hits as int)),
            base_addr as int,
        ),
{
    let ghost h0 = hits@;
    let ghost b0 = room(h0.len() as int, max_hits as int);
    if pat.len() > hay.len() {
        assert(greedy_matches(hay@, pat@, 0, b0) =~= seq![]);
        assert(hits@ =~= h0 + at_base(seq![], base_addr as int));
        return ;
    }
    let hl = hay.len();
    let last = hl - pat.len();
    let mut i: usize = 0;
    while i <= last && hits.len() < max_hits
        invariant
            hl == hay@.len(),
            last == hay@.len() - pat@.len(),
            base_addr + hay@.len() <= u64::MAX,
            i <= hay@.len(),
            h0 + at_base(greedy_matches(hay@, pat@, 0, b0), base_addr as int) == hits@ + at_base(
                greedy_matches(hay@, pat@, i as int, room(hits@.len() as int, max_hits as int)),
                base_addr as int,
            ),
        decreases hay@.len() - i, max_hits - hits@.len(),
    {
        let ghost r = room(hits@.len() as int, max_hits as int);
        let ghost before = hits@;
        if bytes_equal_at(hay, i, pat) {
            hits.push(base_addr + i as u64);
            proof {
                let rest = greedy_matches(hay@, pat@, i + pat@.len(), (r - 1) as nat);
                assert(greedy_matches(hay@, pat@, i as int, r) == seq![i as int] + rest);
                assert(room(hits@.len() as int, max_hits as int) == (r - 1) as nat);
                assert(at_base(seq![i as int] + rest, base_addr as int) =~= seq![
                    (base_addr + i) as u64,
                ] + at_base(rest, base_addr as int));
                assert(before + at_base(seq![i as int] + rest, base_addr as int) =~= hits@
                    + at_base(rest, base_addr as int));
            }
            i = i + pat.len();
        } else {
            assert(pat@.len() > 0) by {
                if pat@.len() == 0 {
                    assert(hay@.subrange(i as int, i as int) =~= pat@);
                }
            }
            i = i + 1;
        }
    }
    proof {
        let r = room(hits@.len() as int, max_hits as int);
        assert(greedy_matches(hay@, pat@, i as int, r) =~= seq![]);
        assert(hits@ + at_base(seq![], base_addr as int) =~= hits@);
    }
}


// ---------------------------------------------------------------------------
// Chunked pattern scan over one region
// ---------------------------------------------------------------------------

/// The bytes kept from one chunk's haystack so that a match straddling the
/// boundary with the next chunk is still seen: the last `pat_len - 1` bytes,
/// or the whole haystack when that is shorter or when nothing needs keeping.
pub open spec fn carry_tail(hay: Seq<u8>, pat_len: nat) -> Seq<u8> {
    let keep = if pat_len >= 1 { pat_len - 1 } else { 0 };
    if keep > 0 && hay.len() >= keep {
        hay.subrange(hay.len() - keep, hay.len() as int)
    } else {
        hay
    }
}

/// State of a pattern scan over the region `[base, base + size)`, read one
/// chunk at a time.
pub struct RegionScan {
    pub base: u64,
    pub size: u64,
    pub off: u64,
    pub tail: Vec<u8>,
}

impl RegionScan {
    pub open spec fn wf(&self) -> bool {
        &&& self.off <= self.size
        &&& self.base + self.size <= u64::MAX
        &&& self.tail@.len() <= self.off
    }

    /// Length of the next chunk: the rest of the region, at most one chunk.
    pub open spec fn spec_take(&self) -> u64 {
        if self.size - self.off < SCAN_CHUNK { (self.size - self.off) as u64 } else { SCAN_CHUNK as u64 }
    }

    pub fn new(base: u64, size: u64) -> (s: Self)
        requires
            base + size <= u64::MAX,
        ensures
            s.wf(),
            s.base == base,
            s.size == size,
            s.off == 0,
            s.tail@ == Seq::<u8>::empty(),
    {
        RegionScan { base, size, off: 0, tail: Vec::new() }
    }

    fn take(&self) -> (t: u64)
        requires
            self.off <= self.size,
        ensures
            t == self.spec_take(),
    {
        let rest = self.size - self.off;
        if rest < SCAN_CHUNK as u64 {
            rest
        } else {
            SCAN_CHUNK as u64
        }
    }

    /// The next read to make, address and length, while the region is not
    /// exhausted and fewer than `max_hits` hits are held.
    pub fn next_read(&self, hits_len: usize, max_hits: usize) -> (r: Option<(u64, usize)>)
        requires
            self.wf(),
        ensures
            r == if self.off < self.size && hits_len < max_hits {
                Some(((self.base + self.off) as u64, self.spec_take() as usize))
            } else {
                None::<(u64, usize)>
            },
    {
        if self.off < self.size && hits_len < max_hits {
            let t = self.take();
            Some((self.base + self.off, t as usize))
        } else {
            None
        }
    }

    /// Takes the outcome of the read that `next_read` asked for: the bytes, or
    /// `None` when the read failed. A failed read drops the carried bytes; a
    /// successful one is searched together with the carried bytes in front.
    pub fn feed(&mut self, data: Option<&[u8]>, pat: &[u8], max_hits: usize, hits: &mut Vec<u64>)
        requires
            old(self).wf(),
            old(self).off < old(self).size,
            pat@.len() > 0,
            data matches Some(d) ==> d@.len() == old(self).spec_take(),
        ensures
            final(self).wf(),
            final(self).base == old(self).base,
            final(self).size == old(self).size,
            final(self).off == old(self).off + old(self).spec_take(),
            data is None ==> final(self).tail@ == Seq::<u8>::empty() && final(hits)@ == old(hits)@,
            data matches Some(d) ==> {
                let hay = old(self).tail@ + d@;
                &&& final(hits)@ == old(hits)@ + at_base(
                    greedy_matches(hay, pat@, 0, room(old(hits)@.len() as int, max_hits as int)),
                    old(self).base + old(self).off - old(self).tail@.len(),
                )
                &&& final(self).tail@ == carry_tail(hay, pat@.len())
            },
    {
        let take = self.take();
        match data {
            None => {
                self.tail.clear();
            },
            Some(buf) => {
                let prev_len = self.tail.len();
                let mut hay: Vec<u8> = Vec::new();
                std::mem::swap(&mut hay, &mut self.tail);
                hay.extend_from_slice(buf);
                assert(hay@ =~= old(self).tail@ + buf@);
                let start_addr = (self.base + self.off) - prev_len as u64;
                find_in_buffer(hay.as_slice(), pat, start_addr, max_hits, hits);
                let keep = pat.len() - 1;
                if keep > 0 && hay.len() >= keep {
                    let n = hay.len();
                    self.tail = slice_to_vec(slice_subrange(hay.as_slice(), n - keep, n));
                } else {
                    self.tail = hay;
                }
            },
        }
        self.off = self.off + take;
    }
}

/// The carried bytes of a region scan are the region's bytes just before
/// the scan's offset.
pub open spec fn tail_matches_region(s: RegionScan, mem: Seq<u8>) -> bool {
    &&& mem.len() == s.size
    &&& s.tail@.len() <= s.off
    &&& s.tail@ == mem.subrange(s.off - s.tail@.len(), s.off as int)
}

/// What a region scan reports is really there: when the chunks fed to it
/// are the region's bytes, every hit that a successful read adds is the
/// address of an occurrence of the pattern in the region, and the carried
/// bytes stay the region's bytes before the new offset. A failed read adds
/// nothing and carries nothing.
pub proof fn lemma_region_scan_sound(
    o: RegionScan,
    s: RegionScan,
    mem: Seq<u8>,
    data: Option<Seq<u8>>,
    pat: Seq<u8>,
    budget: nat,
    added: Seq<u64>,
)
    requires
        o.wf(),
        o.off < o.size,
        tail_matches_region(o, mem),
        s.base == o.base,
        s.size == o.size,
        s.off == o.off + o.spec_take(),
        data matches Some(d) ==> d == mem.subrange(o.off as int, o.off + o.spec_take()),
        data is None ==> s.tail@ == Seq::<u8>::empty() && added == Seq::<u64>::empty(),
        data matches Some(d) ==> {
            let hay = o.tail@ + d;
            &&& added == at_base(greedy_matches(hay, pat, 0, budget), o.base + o.off - o.tail@.len())
            &&& s.tail@ == carry_tail(hay, pat.len())
        },
    ensures
        tail_matches_region(s, mem),
        forall|j: int|
            0 <= j < added.len() ==> o.base <= #[trigger] added[j] && occurs_at(mem, pat, added[j] - o.base),
{
    let take = o.spec_take();
    match data {
        None => {
            assert(mem.subrange(s.off as int, s.off as int) =~= s.tail@);
        },
        Some(d) => {
            let tl = o.tail@.len();
            let start = o.off - tl;
            let hay = o.tail@ + d;
            assert(hay =~= mem.subrange(start, o.off + take));
            lemma_greedy_matches_sound(hay, pat, 0, budget);
            let ps = greedy_matches(hay, pat, 0, budget);
            assert forall|j: int| 0 <= j < added.len() implies o.base <= #[trigger] added[j] && occurs_at(
                mem,
                pat,
                added[j] - o.base,
            ) by {
                let p = ps[j];
                assert(occurs_at(hay, pat, p));
                assert(added[j] == (o.base + start + p) as u64);
                assert(o.base + start + p <= o.base + o.size);
                assert(mem.subrange(start + p, start + p + pat.len()) =~= hay.subrange(p, p + pat.len()));
            }
            let keep: int = if pat.len() >= 1 { pat.len() - 1 } else { 0 };
            if keep > 0 && hay.len() >= keep {
                assert(s.tail@ =~= mem.subrange(s.off - keep, s.off as int));
            } else {
                assert(s.tail@ =~= mem.subrange(s.off - hay.len(), s.off as int));
            }
        },
    }
}

// ---------------------------------------------------------------------------
// Pointer scan: 8-byte little-endian words compared against targets
// ---------------------------------------------------------------------------

/// Index of the first element of `s`, from `j` on, equal to `v`.
pub open spec fn first_index_from(s: Seq<u64>, v: u64, j: int) -> Option<int>
    decreases s.len() - j,
{
    if j < 0 || j >= s.len() {
        None
    } else if s[j] == v {
        Some(j)
    } else {
        first_index_from(s, v, j + 1)
    }
}

pub open spec fn first_index(s: Seq<u64>, v: u64) -> Option<int> {
    first_index_from(s, v, 0)
}

/// Index of the first element of `s` equal to `v`.
pub fn position_of(s: &[u64], v: u64) -> (r: Option<usize>)
    ensures
        r == match first_index(s@, v) {
            Some(k) => Some(k as usize),
            None => None::<usize>,
        },
{
    let n = s.len();
    let mut j: usize = 0;
    while j < n
        invariant
            n == s@.len(),
            j <= n,
            first_index_from(s@, v, 0) == first_index_from(s@, v, j as int),
        decreases n - j,
    {
        if s[j] == v {
            return Some(j);
        }
        j = j + 1;
    }
    None
}

/// The `k`-th little-endian 64-bit word of `buf`.
pub open spec fn word_at(buf: Seq<u8>, k: int) -> u64 {
    spec_u64_from_le_bytes(buf.subrange(8 * k, 8 * k + 8))
}

/// Hits of the words of `buf` from word `k` on: each word equal to a target
/// gives its address and the index of the first such target, at most
/// `budget` hits.
pub open spec fn word_hits(buf: Seq<u8>, targets: Seq<u64>, addr: int, k: int, budget: nat) -> Seq<(u64, usize)>
    decreases buf.len() - 8 * k,
{
    if budget == 0 || k < 0 || 8 * k + 8 > buf.len() {
        seq![]
    } else {
        match first_index(targets, word_at(buf, k)) {
            Some(t) => seq![((addr + 8 * k) as u64, t as usize)] + word_hits(
                buf,
                targets,
                addr,
                k + 1,
                (budget - 1) as nat,
            ),
            None => word_hits(buf, targets, addr, k + 1, budget),
        }
    }
}

proof fn lemma_first_index_from(s: Seq<u64>, v: u64, j: int)
    ensures
        first_index_from(s, v, j) matches Some(i) ==> j <= i < s.len() && s[i] == v,
    decreases s.len() - j,
{
    if 0 <= j < s.len() && s[j] != v {
        lemma_first_index_from(s, v, j + 1);
    }
}

/// Every pointer hit names an aligned word of the buffer, at its address,
/// that holds the target it names; there are at most `budget` of them.
pub proof fn lemma_word_hits_sound(buf: Seq<u8>, targets: Seq<u64>, addr: int, k: int, budget: nat)
    requires
        0 <= addr,
        0 <= k,
        addr + buf.len() <= u64::MAX,
        targets.len() <= usize::MAX,
    ensures
        word_hits(buf, targets, addr, k, budget).len() <= budget,
        forall|j: int|
            0 <= j < word_hits(buf, targets, addr, k, budget).len() ==> {
                let (a, t) = #[trigger] word_hits(buf, targets, addr, k, budget)[j];
                exists|w: int|
                    k <= w && 8 * w + 8 <= buf.len() && a == addr + 8 * w && t < targets.len()
                        && targets[t as int] == word_at(buf, w)
            },
    decreases buf.len() - 8 * k,
{
    if budget == 0 || k < 0 || 8 * k + 8 > buf.len() {
    } else {
        lemma_first_index_from(targets, word_at(buf, k), 0);
        match first_index(targets, word_at(buf, k)) {
            Some(t) => {
                lemma_word_hits_sound(buf, targets, addr, k + 1, (budget - 1) as nat);
                let rest = word_hits(buf, targets, addr, k + 1, (budget - 1) as nat);
                let all = word_hits(buf, targets, addr, k, budget);
                assert(all == seq![((addr + 8 * k) as u64, t as usize)] + rest);
                assert forall|j: int| 0 <= j < all.len() implies {
                    let (a, t2) = #[trigger] all[j];
                    exists|w: int|
                        k <= w && 8 * w + 8 <= buf.len() && a == addr + 8 * w && t2 < targets.len()
                            && targets[t2 as int] == word_at(buf, w)
                } by {
                    if j == 0 {
                        lemma_first_index_from(targets, word_at(buf, k), 0);
                        assert(0 <= t < targets.len());
                        assert(all[0] == ((addr + 8 * k) as u64, t as usize));
                        assert((addr + 8 * k) as u64 == addr + 8 * k);
                        assert((t as usize) as int == t);
                        assert(k <= k && 8 * k + 8 <= buf.len() && all[0].0 == addr + 8 * k
                            && all[0].1 < targets.len() && targets[all[0].1 as int] == word_at(buf, k));
                    } else {
                        assert(all[j] == rest[j - 1]);
                        let (a, t2) = rest[j - 1];
                        let w = choose|w: int|
                            k + 1 <= w && 8 * w + 8 <= buf.len() && a == addr + 8 * w && t2 < targets.len()
                                && targets[t2 as int] == word_at(buf, w);
                        assert(k <= w);
                    }
                }
            },
            None => {
                lemma_word_hits_sound(buf, targets, addr, k + 1, budget);
            },
        }
    }
}

/// State of a pointer scan over the region `[base, base + size)`, read one
/// chunk (a whole number of words) at a time, stopping once `max_hits` hits
/// were found in this region.
pub struct PtrRegionScan {
    pub base: u64,
    pub size: u64,
    pub off: u64,
    pub max_hits: usize,
    pub hit_count: usize,
    pub done: bool,
}

impl PtrRegionScan {
    pub open spec fn wf(&self) -> bool {
        &&& self.off <= self.size
        &&& self.base + self.size <= u64::MAX
        &&& self.max_hits > 0
        &&& self.hit_count <= self.max_hits
        &&& (!self.done ==> self.hit_count < self.max_hits)
    }

    /// Length of the next chunk: the rest of the region, at most one chunk,
    /// rounded down to whole words.
    pub open spec fn spec_take(&self) -> u64 {
        let t = if self.size - self.off < SCAN_CHUNK { (self.size - self.off) as int } else { SCAN_CHUNK as int };
        ((t / 8) * 8) as u64
    }

    pub fn new(base: u64, size: u64, max_hits: usize) -> (s: Self)
        requires
            base + size <= u64::MAX,
            max_hits > 0,
        ensures
            s.wf(),
            s.base == base,
            s.size == size,
            s.max_hits == max_hits,
            s.off == 0,
            s.hit_count == 0,
            !s.done,
    {
        PtrRegionScan { base, size, off: 0, max_hits, hit_count: 0, done: false }
    }

    fn take(&self) -> (t: u64)
        requires
            self.off <= self.size,
        ensures
            t == self.spec_take(),
            t <= self.size - self.off,
            t <= SCAN_CHUNK,
    {
        let rest = self.size - self.off;
        let t = if rest < SCAN_CHUNK as u64 {
            rest
        } else {
            SCAN_CHUNK as u64
        };
        assert((t / 8) * 8 <= t) by (nonlinear_arith);
        (t / 8) * 8
    }

    /// The next read to make: none once the region is exhausted, the rest is
    /// shorter than a word, or the hit cap was reached.
    pub fn next_read(&self) -> (r: Option<(u64, usize)>)
        requires
            self.wf(),
        ensures
            r == if !self.done && self.off < self.size && self.spec_take() > 0 {
                Some(((self.base + self.off) as u64, self.spec_take() as usize))
            } else {
                None::<(u64, usize)>
            },
    {
        if self.done || self.off >= self.size {
            return None;
        }
        let t = self.take();
        if t == 0 {
            None
        } else {
            Some((self.base + self.off, t as usize))
        }
    }

    /// Takes the outcome of the read that `next_read` asked for and appends
    /// the hits found in it.
    pub fn feed(&mut self, data: Option<&[u8]>, targets: &[u64], hits: &mut Vec<(u64, usize)>)
        requires
            old(self).wf(),
            !old(self).done,
            old(self).off < old(self).size,
            old(self).spec_take() > 0,
            data matches Some(d) ==> d@.len() == old(self).spec_take(),
        ensures
            final(self).wf(),
            final(self).base == old(self).base,
            final(self).size == old(self).size,
            final(self).max_hits == old(self).max_hits,
            final(self).off == old(self).off + old(self).spec_take(),
            data is None ==> final(hits)@ == old(hits)@ && final(self).hit_count == old(self).hit_count
                && !final(self).done,
            data matches Some(d) ==> {
                let found = word_hits(
                    d@,
                    targets@,
                    old(self).base + old(self).off,
                    0,
                    (old(self).max_hits - old(self).hit_count) as nat,
                );
                &&& final(hits)@ == old(hits)@ + found
                &&& final(self).hit_count == old(self).hit_count + found.len()
                &&& final(self).done == (final(self).hit_count >= old(self).max_hits)
            },
    {
        let take = self.take();
        assert(take <= self.size - self.off);
        match data {
            None => {},
            Some(buf) => {
                let ghost h0 = hits@;
                let ghost c0 = self.hit_count;
                let ghost addr = self.base + self.off;
                let ghost all = word_hits(buf@, targets@, addr, 0, (self.max_hits - c0) as nat);
                let n = buf.len() / 8;
                let chunk_addr = self.base + self.off;
                let mut k: usize = 0;
                while k < n && !self.done
                    invariant
                        n == buf@.len() / 8,
                        buf@.len() == take,
                        take <= SCAN_CHUNK,
                        chunk_addr == addr,
                        addr + buf@.len() <= u64::MAX,
                        k <= n,
                        self.max_hits == old(self).max_hits,
                        self.base == old(self).base,
                        self.size == old(self).size,
                        self.off == old(self).off,
                        old(self).wf(),
                        c0 <= self.hit_count <= self.max_hits,
                        self.done == (self.hit_count >= self.max_hits),
                        h0 + all == hits@ + word_hits(
                            buf@,
                            targets@,
                            addr,
                            k as int,
                            (self.max_hits - self.hit_count) as nat,
                        ),
                        hits@.len() - h0.len() == self.hit_count - c0,
                    decreases n - k,
                {
                    let ghost r = (self.max_hits - self.hit_count) as nat;
                    let ghost before = hits@;
                    let w = u64_from_le_bytes(slice_subrange(buf, 8 * k, 8 * k + 8));
                    match position_of(targets, w) {
                        Some(t) => {
                            hits.push((chunk_addr + (8 * k) as u64, t));
                            self.hit_count = self.hit_count + 1;
                            proof {
                                let rest = word_hits(buf@, targets@, addr, k + 1, (r - 1) as nat);
                                assert(word_hits(buf@, targets@, addr, k as int, r) == seq![
                                    ((addr + 8 * k) as u64, t),
                                ] + rest);
                                assert(before + (seq![((addr + 8 * k) as u64, t)] + rest) =~= hits@
                                    + rest);
                            }
                            if self.hit_count >= self.max_hits {
                                self.done = true;
                            }
                        },
                        None => {},
                    }
                    k = k + 1;
                }
                proof {
                    assert(word_hits(
                        buf@,
                        targets@,
                        addr,
                        k as int,
                        (self.max_hits - self.hit_count) as nat,
                    ) =~= seq![]);
                    assert(hits@ + seq![] =~= hits@);
                }
            },
        }
        self.off = self.off + take;
    }
}

/// The non-zero elements of `s`, in order.
pub open spec fn nonzero(s: Seq<u64>) -> Seq<u64>
    decreases s.len(),
{
    if s.len() == 0 {
        seq![]
    } else if s.last() != 0 {
        nonzero(s.drop_last()).push(s.last())
    } else {
        nonzero(s.drop_last())
    }
}

/// The targets of a pointer scan with null targets removed.
pub fn clean_targets(targets: &[u64]) -> (out: Vec<u64>)
    ensures
        out@ == nonzero(targets@),
{
    let n = targets.len();
    let mut out: Vec<u64> = Vec::new();
    let mut k: usize = 0;
    while k < n
        invariant
            n == targets@.len(),
            k <= n,
            out@ == nonzero(targets@.take(k as int)),
        decreases n - k,
    {
        assert(targets@.take(k + 1).drop_last() =~= targets@.take(k as int));
        if targets[k] != 0 {
            out.push(targets[k]);
        }
        k = k + 1;
    }
    assert(targets@.take(n as int) =~= targets@);
    out
}

// ---------------------------------------------------------------------------
// Mono strings
// ---------------------------------------------------------------------------

/// Address of the Mono string object whose characters start at `chars_addr`.
pub fn mono_string_from_chars(chars_addr: u64) -> (obj: u64)
    ensures
        obj == if chars_addr >= MONO_STRING_CHARS { (chars_addr - MONO_STRING_CHARS) as u64 } else { 0 },
{
    chars_addr.saturating_sub(MONO_STRING_CHARS)
}

/// A Mono string's characters are read back from the object that
/// `mono_string_from_chars` names.
pub proof fn lemma_mono_string_chars_roundtrip(chars_addr: u64)
    requires
        chars_addr >= MONO_STRING_CHARS,
    ensures
        (if chars_addr >= MONO_STRING_CHARS { (chars_addr - MONO_STRING_CHARS) as u64 } else { 0 })
            + MONO_STRING_CHARS == chars_addr,
{
}

/// Longest Mono string, in UTF-16 units, that is read.
pub const MONO_STRING_MAX_LEN: u32 = 256;

/// Number of bytes to read for a Mono string of `len` units; none above the
/// limit.
pub fn mono_string_byte_len(len: u32) -> (r: Option<usize>)
    ensures
        len <= MONO_STRING_MAX_LEN ==> r == Some((2 * len) as usize),
        len > MONO_STRING_MAX_LEN ==> r is None,
{
    if len > MONO_STRING_MAX_LEN {
        None
    } else {
        Some((len as usize) * 2)
    }
}

/// Little-endian 16-bit units of a byte sequence of even length.
pub open spec fn le_units(b: Seq<u8>) -> Seq<u16> {
    Seq::new(b.len() / 2, |k: int| spec_u16_from_le_bytes(b.subrange(2 * k, 2 * k + 2)))
}

/// Decodes the UTF-16LE characters of a Mono string, replacing unpaired
/// surrogates with U+FFFD.
pub fn decode_mono_chars(buf: &[u8]) -> (s: String)
    ensures
        s@ == utf16_lossy(le_units(buf@)),
{
    let bl = buf.len();
    let n = bl / 2;
    let mut units: Vec<u16> = Vec::new();
    let mut k: usize = 0;
    while k < n
        invariant
            bl == buf@.len(),
            n == buf@.len() / 2,
            k <= n,
            units@ == le_units(buf@).take(k as int),
        decreases n - k,
    {
        let u = u16_from_le_bytes(slice_subrange(buf, 2 * k, 2 * k + 2));
        units.push(u);
        assert(units@ =~= le_units(buf@).take(k + 1));
        k = k + 1;
    }
    assert(units@ =~= le_units(buf@));
    decode_utf16_lossy(units.as_slice())
}

} // verus!
