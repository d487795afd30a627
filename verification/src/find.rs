//! Locating the cane and juice items from scan hits.
use crate::aob::{mono_string_from_chars, MONO_STRING_CHARS};
use crate::mem::{is_user_ptr_shape, user_ptr_shape, USER_MAX, USER_MIN};
use crate::offsets::GameLayout;
use vstd::prelude::*;

verus! {

/// Where the beginner's cane lives.
#[derive(Clone, Debug)]
pub struct CaneTargets {
    pub nel_item: u64,
    pub cane_item: u64,
    pub pr_equip: Option<u64>,
}

/// Where the Noel juice item lives.
#[derive(Clone, Debug)]
pub struct JuiceTarget {
    pub nel_item: u64,
}

// ---------------------------------------------------------------------------
// String objects
// ---------------------------------------------------------------------------

/// The Mono string objects whose characters start at the given hits.
pub fn string_object_candidates(char_hits: &[u64]) -> (out: Vec<u64>)
    ensures
        out@.len() == char_hits@.len(),
        forall|k: int|
            0 <= k < out@.len() ==> #[trigger] out@[k] == (if char_hits@[k] >= MONO_STRING_CHARS {
                (char_hits@[k] - MONO_STRING_CHARS) as u64
            } else {
                0
            }),
{
    let n = char_hits.len();
    let mut out: Vec<u64> = Vec::new();
    let mut k: usize = 0;
    while k < n
        invariant
            n == char_hits@.len(),
            k <= n,
            out@.len() == k,
            forall|j: int|
                0 <= j < k ==> #[trigger] out@[j] == (if char_hits@[j] >= MONO_STRING_CHARS {
                    (char_hits@[j] - MONO_STRING_CHARS) as u64
                } else {
                    0
                }),
        decreases n - k,
    {
        out.push(mono_string_from_chars(char_hits[k]));
        k = k + 1;
    }
    out
}

proof fn lemma_push_to_set(s: Seq<u64>, x: u64)
    ensures
        s.push(x).to_set() == s.to_set().insert(x),
{
    assert forall|y: u64| s.push(x).to_set().contains(y) <==> s.to_set().insert(x).contains(y) by {
        if s.push(x).contains(y) {
            let i = choose|i: int| 0 <= i < s.push(x).len() && s.push(x)[i] == y;
            if i < s.len() {
                assert(s[i] == y);
            }
        }
        if s.contains(y) {
            let i = choose|i: int| 0 <= i < s.len() && s[i] == y;
            assert(s.push(x)[i] == y);
        }
        if y == x {
            assert(s.push(x)[s.len() as int] == x);
        }
    }
    assert(s.push(x).to_set() =~= s.to_set().insert(x));
}

pub open spec fn strictly_increasing(s: Seq<u64>) -> bool {
    forall|i: int, j: int| 0 <= i < j < s.len() ==> s[i] < s[j]
}

/// The distinct values of `v` in increasing order (a sort followed by removal
/// of duplicates).
pub fn sorted_unique(v: &[u64]) -> (out: Vec<u64>)
    ensures
        strictly_increasing(out@),
        out@.to_set() == v@.to_set(),
{
    let n = v.len();
    let mut out: Vec<u64> = Vec::new();
    let mut k: usize = 0;
    while k < n
        invariant
            n == v@.len(),
            k <= n,
            strictly_increasing(out@),
            out@.to_set() == v@.take(k as int).to_set(),
        decreases n - k,
    {
        let x = v[k];
        let m = out.len();
        let mut p: usize = 0;
        while p < m && out[p] < x
            invariant
                m == out@.len(),
                p <= m,
                forall|j: int| 0 <= j < p ==> out@[j] < x,
            decreases m - p,
        {
            p = p + 1;
        }
        assert(v@.take(k + 1) =~= v@.take(k as int).push(x));
        proof {
            lemma_push_to_set(v@.take(k as int), x);
        }
        if p < m && out[p] == x {
            assert(out@.to_set() =~= out@.to_set().insert(x)) by {
                assert(out@[p as int] == x);
                assert(out@.to_set().contains(x));
            }
        } else {
            let ghost before = out@;
            out.insert(p, x);
            proof {
                assert(out@ =~= before.take(p as int).push(x) + before.skip(p as int));
                assert forall|i: int, j: int| 0 <= i < j < out@.len() implies out@[i] < out@[j] by {
                    if j < p {
                        assert(out@[i] == before[i] && out@[j] == before[j]);
                    } else if j == p {
                        assert(out@[i] == before[i]);
                    } else if i < p {
                        assert(out@[i] == before[i] && out@[j] == before[j - 1]);
                        assert(before[j - 1] >= x);
                    } else if i == p {
                        assert(out@[j] == before[j - 1]);
                        assert(before[j - 1] >= before[p as int]);
                    } else {
                        assert(out@[i] == before[i - 1] && out@[j] == before[j - 1]);
                    }
                }
                assert(out@.to_set() =~= before.to_set().insert(x)) by {
                    assert forall|y: u64| out@.to_set().contains(y) <==> before.to_set().insert(x).contains(y) by {
                        if out@.contains(y) {
                            let i = choose|i: int| 0 <= i < out@.len() && out@[i] == y;
                            if i < p {
                                assert(before[i] == y);
                            } else if i > p {
                                assert(before[i - 1] == y);
                            }
                        }
                        if before.contains(y) {
                            let i = choose|i: int| 0 <= i < before.len() && before[i] == y;
                            if i < p {
                                assert(out@[i] == y);
                            } else {
                                assert(out@[i + 1] == y);
                            }
                        }
                        if y == x {
                            assert(out@[p as int] == x);
                        }
                    }
                }
            }
        }
        k = k + 1;
    }
    assert(v@.take(n as int) =~= v@);
    out
}

// ---------------------------------------------------------------------------
// NelItem candidates
// ---------------------------------------------------------------------------

/// What was read about one pointer hit that might be the key field of a
/// `NelItem`.
#[derive(Clone, Copy, Debug)]
pub struct NelProbe {
    /// Address of the slot that holds a pointer to a key string.
    pub hit: u64,
    /// Index of the string object it points to.
    pub target: usize,
    /// Whether the candidate item's first eight bytes could be read.
    pub readable: bool,
    /// The candidate's key field.
    pub key: Option<u64>,
    /// The candidate's price field.
    pub price: Option<u32>,
    /// The candidate's id field.
    pub id: Option<u16>,
}

/// The item that holds its key at `hit`.
pub open spec fn nel_of_hit(hit: u64, layout: GameLayout) -> u64 {
    if hit >= layout.nel_key { (hit - layout.nel_key) as u64 } else { 0 }
}

pub fn nel_candidate(hit: u64, layout: &GameLayout) -> (nel: u64)
    ensures
        nel == nel_of_hit(hit, *layout),
{
    hit.saturating_sub(layout.nel_key)
}

/// A probe names the item: an aligned, readable user-space object whose key
/// is the string hit, whose price is `price` (read as a signed 32-bit value),
/// and whose id is `want` or, without one, above 100.
pub open spec fn nel_accepted(p: NelProbe, strs: Seq<u64>, price: i32, want: Option<u16>, layout: GameLayout) -> bool {
    let nel = nel_of_hit(p.hit, layout);
    &&& user_ptr_shape(nel)
    &&& p.readable
    &&& p.key == Some(strs[p.target as int])
    &&& p.price matches Some(v) && v as i32 == price
    &&& p.id matches Some(got) && match want {
        Some(w) => got == w,
        None => got > 100,
    }
}

/// Index of the first accepted probe.
pub open spec fn first_accepted(ps: Seq<NelProbe>, strs: Seq<u64>, price: i32, want: Option<u16>, layout: GameLayout, k: int) -> Option<int>
    decreases ps.len() - k,
{
    if k < 0 || k >= ps.len() {
        None
    } else if nel_accepted(ps[k], strs, price, want, layout) {
        Some(k)
    } else {
        first_accepted(ps, strs, price, want, layout, k + 1)
    }
}

/// What makes a probe name the item, spelled out: the candidate is an
/// aligned user-space object that could be read, its key field holds the
/// very string object that the probe's own pointer hit refers to, its price
/// (as a signed 32-bit value) is `price`, and its id is `want` or, without
/// one, above 100.
pub open spec fn probe_names_item(p: NelProbe, strs: Seq<u64>, price: i32, want: Option<u16>, layout: GameLayout) -> bool {
    let nel = if p.hit >= layout.nel_key { (p.hit - layout.nel_key) as u64 } else { 0u64 };
    &&& USER_MIN <= nel && nel <= USER_MAX && nel % 8 == 0
    &&& p.readable
    &&& 0 <= p.target < strs.len()
    &&& p.key == Some(strs[p.target as int])
    &&& (p.price matches Some(v) && v as i32 == price)
    &&& (p.id matches Some(got) && if want is Some { got == want->0 } else { got > 100 })
}

/// The item chosen from the probes is named by the earliest probe that names
/// it: that probe's key is the string object its own hit points to (no other
/// string object counts), every earlier probe fails, and when a probe names
/// the item, one is chosen.
pub proof fn lemma_select_nel_law(ps: Seq<NelProbe>, strs: Seq<u64>, price: i32, want: Option<u16>, layout: GameLayout)
    requires
        forall|k: int| 0 <= k < ps.len() ==> (#[trigger] ps[k]).target < strs.len(),
    ensures
        first_accepted(ps, strs, price, want, layout, 0) matches Some(k) ==> {
            &&& 0 <= k < ps.len()
            &&& probe_names_item(ps[k], strs, price, want, layout)
            &&& forall|j: int| 0 <= j < k ==> !probe_names_item(#[trigger] ps[j], strs, price, want, layout)
        },
        (exists|k: int| 0 <= k < ps.len() && probe_names_item(#[trigger] ps[k], strs, price, want, layout))
            ==> first_accepted(ps, strs, price, want, layout, 0) is Some,
{
    lemma_first_accepted_from(ps, strs, price, want, layout, 0);
}

proof fn lemma_first_accepted_from(ps: Seq<NelProbe>, strs: Seq<u64>, price: i32, want: Option<u16>, layout: GameLayout, i: int)
    requires
        0 <= i,
        forall|k: int| 0 <= k < ps.len() ==> (#[trigger] ps[k]).target < strs.len(),
    ensures
        first_accepted(ps, strs, price, want, layout, i) matches Some(k) ==> {
            &&& i <= k < ps.len()
            &&& probe_names_item(ps[k], strs, price, want, layout)
            &&& forall|j: int| i <= j < k ==> !probe_names_item(#[trigger] ps[j], strs, price, want, layout)
        },
        (exists|k: int| i <= k < ps.len() && probe_names_item(#[trigger] ps[k], strs, price, want, layout))
            ==> first_accepted(ps, strs, price, want, layout, i) is Some,
    decreases ps.len() - i,
{
    if i < ps.len() {
        let p = ps[i];
        assert(p.target < strs.len());
        assert(nel_accepted(p, strs, price, want, layout) == probe_names_item(p, strs, price, want, layout));
        lemma_first_accepted_from(ps, strs, price, want, layout, i + 1);
        if exists|k: int| i <= k < ps.len() && probe_names_item(#[trigger] ps[k], strs, price, want, layout) {
            let k = choose|k: int| i <= k < ps.len() && probe_names_item(#[trigger] ps[k], strs, price, want, layout);
            if k > i {
                assert(i + 1 <= k < ps.len() && probe_names_item(ps[k], strs, price, want, layout));
            }
        }
    }
}

/// The `NelItem` named by the first accepted probe.
pub fn select_nel(probes: &[NelProbe], strs: &[u64], price: i32, want: Option<u16>, layout: &GameLayout) -> (r: Option<u64>)
    requires
        forall|k: int| 0 <= k < probes@.len() ==> (#[trigger] probes@[k]).target < strs@.len(),
    ensures
        match first_accepted(probes@, strs@, price, want, *layout, 0) {
            Some(k) => r == Some(nel_of_hit(probes@[k].hit, *layout)),
            None => r is None,
        },
{
    let n = probes.len();
    let mut k: usize = 0;
    while k < n
        invariant
            n == probes@.len(),
            k <= n,
            forall|j: int| 0 <= j < probes@.len() ==> (#[trigger] probes@[j]).target < strs@.len(),
            first_accepted(probes@, strs@, price, want, *layout, 0) == first_accepted(
                probes@,
                strs@,
                price,
                want,
                *layout,
                k as int,
            ),
        decreases n - k,
    {
        let p = probes[k];
        let nel = nel_candidate(p.hit, layout);
        let mut ok = is_user_ptr_shape(nel) && p.readable;
        if ok {
            ok = match p.key {
                Some(key) => key == strs[p.target],
                None => false,
            };
        }
        if ok {
            ok = match p.price {
                Some(v) => v as i32 == price,
                None => false,
            };
        }
        if ok {
            ok = match p.id {
                Some(got) => match want {
                    Some(w) => got == w,
                    None => got > 100,
                },
                None => false,
            };
        }
        if ok {
            return Some(nel);
        }
        k = k + 1;
    }
    None
}

// ---------------------------------------------------------------------------
// PrCaneEquip candidates
// ---------------------------------------------------------------------------

/// What was read about one pointer hit that might be the source-cane field of
/// a `PrCaneEquip`.
#[derive(Clone, Copy, Debug)]
pub struct PrProbe {
    /// Address of the slot that holds a pointer to the cane.
    pub hit: u64,
    /// Whether the candidate's first eight bytes could be read.
    pub readable: bool,
    /// The candidate's source-cane field.
    pub src: Option<u64>,
    /// Whether its `near_power` and `near_reach` were read, finite and within
    /// 0.05 to 30.
    pub fields_ok: bool,
    /// Its grade byte.
    pub grade: Option<u8>,
}

pub open spec fn pe_of_hit(hit: u64, layout: GameLayout) -> u64 {
    if hit >= layout.pe_src_cane { (hit - layout.pe_src_cane) as u64 } else { 0 }
}

/// The `PrCaneEquip` that holds its source cane at `hit`.
pub fn pe_candidate(hit: u64, layout: &GameLayout) -> (pe: u64)
    ensures
        pe == pe_of_hit(hit, *layout),
{
    hit.saturating_sub(layout.pe_src_cane)
}

pub open spec fn pr_accepted(p: PrProbe, cane: u64, layout: GameLayout) -> bool {
    &&& user_ptr_shape(pe_of_hit(p.hit, layout))
    &&& p.readable
    &&& p.src == Some(cane)
    &&& p.fields_ok
    &&& p.grade is Some
}

/// Lower grades score higher: `100 - min(grade, 10)`.
pub open spec fn pr_score(grade: u8) -> int {
    100 - (if grade < 10 { grade as int } else { 10int })
}

/// Among the first `k` probes, the index of the accepted one with the
/// highest score, the earliest of equal scores.
pub open spec fn best_pr_upto(ps: Seq<PrProbe>, cane: u64, layout: GameLayout, k: int) -> Option<int>
    decreases k,
{
    if k <= 0 || k > ps.len() {
        None
    } else {
        let prev = best_pr_upto(ps, cane, layout, k - 1);
        let p = ps[k - 1];
        if pr_accepted(p, cane, layout) && (prev is None || pr_score(p.grade->0) > pr_score(
            ps[prev->0].grade->0,
        )) {
            Some(k - 1)
        } else {
            prev
        }
    }
}

/// The `PrCaneEquip` of the best accepted probe.
pub fn select_pr(probes: &[PrProbe], cane: u64, layout: &GameLayout) -> (r: Option<u64>)
    ensures
        match best_pr_upto(probes@, cane, *layout, probes@.len() as int) {
            Some(k) => r == Some(pe_of_hit(probes@[k].hit, *layout)),
            None => r is None,
        },
{
    let n = probes.len();
    let mut best: Option<(usize, i32)> = None;
    let mut k: usize = 0;
    while k < n
        invariant
            n == probes@.len(),
            k <= n,
            match best_pr_upto(probes@, cane, *layout, k as int) {
                Some(i) => best matches Some((j, s)) && j == i && 0 <= i < k && s == pr_score(probes@[i].grade->0),
                None => best is None,
            },
        decreases n - k,
    {
        let p = probes[k];
        let pe = pe_candidate(p.hit, layout);
        let ok = is_user_ptr_shape(pe) && p.readable && match p.src {
            Some(s) => s == cane,
            None => false,
        } && p.fields_ok && p.grade.is_some();
        if ok {
            let g = match p.grade {
                Some(g) => g,
                None => 0,
            };
            let score: i32 = 100 - (if g < 10 { g as i32 } else { 10 });
            match best {
                None => {
                    best = Some((k, score));
                },
                Some((_, s)) => {
                    if score > s {
                        best = Some((k, score));
                    }
                },
            }
        }
        k = k + 1;
    }
    match best {
        Some((i, _)) => Some(pe_candidate(probes[i].hit, layout)),
        None => None,
    }
}

} // verus!
