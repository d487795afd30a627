//! Pure parts of remote-process access: pointer shape, region walking,
//! remote-call parameter blocks, C strings and wide strings.
use vstd::bytes::{spec_u64_from_le_bytes, spec_u64_to_le_bytes, u64_to_le_bytes};
use vstd::prelude::*;
use vstd::string::StringExecFns;

verus! {

/// Lowest address of a user-space allocation.
pub const USER_MIN: u64 = 0x10000;

/// Highest user-space address on 64-bit Windows.
pub const USER_MAX: u64 = 0x0000_7FFF_FFFF_FFFF;

/// A plausible user-space pointer: in the user range and 8-byte aligned.
pub open spec fn user_ptr_shape(p: u64) -> bool {
    USER_MIN <= p && p <= USER_MAX && p % 8 == 0
}

/// Whether `p` has the shape of a user-space pointer (whether it can be read
/// is for the caller to find out).
pub fn is_user_ptr_shape(p: u64) -> (b: bool)
    ensures
        b == user_ptr_shape(p),
{
    USER_MIN <= p && p <= USER_MAX && p % 8 == 0
}

// ---------------------------------------------------------------------------
// Walking the address space
// ---------------------------------------------------------------------------

/// Windows page protections (`PAGE_*`) and the committed state (`MEM_COMMIT`).
pub const PAGE_READONLY: u32 = 0x02;
pub const PAGE_READWRITE: u32 = 0x04;
pub const PAGE_WRITECOPY: u32 = 0x08;
pub const PAGE_EXECUTE_READ: u32 = 0x20;
pub const PAGE_EXECUTE_READWRITE: u32 = 0x40;
pub const MEM_COMMIT: u32 = 0x1000;

/// First address queried when walking the address space.
pub const WALK_START: u64 = 0x10000;

/// Protections under which a region can be read.
pub open spec fn readable_protect(p: u32) -> bool {
    p == PAGE_READONLY || p == PAGE_READWRITE || p == PAGE_WRITECOPY || p == PAGE_EXECUTE_READ
        || p == PAGE_EXECUTE_READWRITE
}

/// Protections under which a region can be written.
pub open spec fn writable_protect(p: u32) -> bool {
    p == PAGE_READWRITE || p == PAGE_WRITECOPY || p == PAGE_EXECUTE_READWRITE
}

pub fn is_readable_protect(p: u32) -> (b: bool)
    ensures
        b == readable_protect(p),
{
    p == PAGE_READONLY || p == PAGE_READWRITE || p == PAGE_WRITECOPY || p == PAGE_EXECUTE_READ
        || p == PAGE_EXECUTE_READWRITE
}

pub fn is_writable_protect(p: u32) -> (b: bool)
    ensures
        b == writable_protect(p),
{
    p == PAGE_READWRITE || p == PAGE_WRITECOPY || p == PAGE_EXECUTE_READWRITE
}

/// One step of the walk over the address space: given the query address and
/// what the query said of the region there, the region to keep (committed,
/// of a wanted protection, non-empty) and the next address to query, none
/// when the walk cannot advance.
pub fn region_step(addr: u64, base: u64, size: u64, state: u32, protect: u32, writable_only: bool) -> (r: (Option<(u64, u64)>, Option<u64>))
    ensures
        r.0 == (if state == MEM_COMMIT && (if writable_only { writable_protect(protect) } else { readable_protect(protect) }) && size > 0 {
            Some((base, size))
        } else {
            None::<(u64, u64)>
        }),
        ({
            let next: int = if base + size <= u64::MAX { base + size } else { u64::MAX as int };
            r.1 == (if next <= addr { None::<u64> } else { Some(next as u64) })
        }),
{
    let wanted = if writable_only {
        is_writable_protect(protect)
    } else {
        is_readable_protect(protect)
    };
    let keep = if state == MEM_COMMIT && wanted && size > 0 {
        Some((base, size))
    } else {
        None
    };
    let next = base.saturating_add(size);
    if next <= addr {
        (keep, None)
    } else {
        (keep, Some(next))
    }
}

// ---------------------------------------------------------------------------
// Parameter blocks of remote calls
// ---------------------------------------------------------------------------

/// Little-endian bytes of a sequence of 64-bit words.
pub open spec fn words_le(ws: Seq<u64>) -> Seq<u8>
    decreases ws.len(),
{
    if ws.len() == 0 {
        seq![]
    } else {
        words_le(ws.drop_last()) + spec_u64_to_le_bytes(ws.last())
    }
}

proof fn lemma_words_le_len(ws: Seq<u64>)
    ensures
        words_le(ws).len() == 8 * ws.len(),
    decreases ws.len(),
{
    vstd::bytes::lemma_auto_spec_u64_to_from_le_bytes();
    if ws.len() > 0 {
        lemma_words_le_len(ws.drop_last());
    }
}

/// Each word can be read back from its eight bytes of the block.
pub proof fn lemma_words_le_roundtrip(ws: Seq<u64>, k: int)
    requires
        0 <= k < ws.len(),
    ensures
        words_le(ws).len() == 8 * ws.len(),
        spec_u64_from_le_bytes(words_le(ws).subrange(8 * k, 8 * k + 8)) == ws[k],
    decreases ws.len(),
{
    vstd::bytes::lemma_auto_spec_u64_to_from_le_bytes();
    lemma_words_le_len(ws);
    lemma_words_le_len(ws.drop_last());
    let init = ws.drop_last();
    if k < ws.len() - 1 {
        lemma_words_le_roundtrip(init, k);
        assert(words_le(ws).subrange(8 * k, 8 * k + 8) =~= words_le(init).subrange(8 * k, 8 * k + 8));
    } else {
        assert(words_le(ws).subrange(8 * k, 8 * k + 8) =~= spec_u64_to_le_bytes(ws.last()));
    }
}

fn words_to_le(ws: &[u64]) -> (out: Vec<u8>)
    ensures
        out@ == words_le(ws@),
{
    let n = ws.len();
    let mut out: Vec<u8> = Vec::new();
    let mut k: usize = 0;
    while k < n
        invariant
            n == ws@.len(),
            k <= n,
            out@ == words_le(ws@.take(k as int)),
        decreases n - k,
    {
        assert(ws@.take(k + 1).drop_last() =~= ws@.take(k as int));
        let mut b = u64_to_le_bytes(ws[k]);
        out.append(&mut b);
        k = k + 1;
    }
    assert(ws@.take(n as int) =~= ws@);
    out
}

/// Offset of the result word in both parameter blocks.
pub const REMOTE_RESULT_OFFSET: usize = 40;

/// The parameter block of a call of `func` with up to four arguments: the
/// function, four argument words (missing ones zero), and the result word,
/// zero before the call.
pub open spec fn remote_call_words(func: u64, args: Seq<u64>) -> Seq<u64> {
    seq![func] + Seq::new(4, |k: int| if k < args.len() { args[k] } else { 0u64 }) + seq![0u64]
}

pub fn remote_call_layout(func: u64, args: &[u64]) -> (r: Result<Vec<u8>, String>)
    ensures
        func == 0 ==> (r matches Err(m) && m@ == "null function"@),
        func != 0 && args@.len() > 4 ==> (r matches Err(m) && m@ == "at most 4 args"@),
        func != 0 && args@.len() <= 4 ==> (r matches Ok(b) && b@ == words_le(remote_call_words(func, args@))),
{
    if func == 0 {
        return Err(String::from_str("null function"));
    }
    if args.len() > 4 {
        return Err(String::from_str("at most 4 args"));
    }
    let mut ws: Vec<u64> = Vec::new();
    ws.push(func);
    let mut k: usize = 0;
    while k < 4
        invariant
            args@.len() <= 4,
            k <= 4,
            ws@ == seq![func] + Seq::new(k as nat, |i: int| if i < args@.len() { args@[i] } else { 0u64 }),
        decreases 4 - k,
    {
        let a = if k < args.len() {
            args[k]
        } else {
            0
        };
        ws.push(a);
        assert(ws@ =~= seq![func] + Seq::new((k + 1) as nat, |i: int| if i < args@.len() { args@[i] } else { 0u64 }));
        k = k + 1;
    }
    ws.push(0);
    assert(ws@ =~= remote_call_words(func, args@));
    Ok(words_to_le(ws.as_slice()))
}

/// The parameter block of JIT-compiling a Mono method on a thread attached
/// to the root domain: the five inputs, then the result, a pad word and a
/// scratch word for the domain, all zero before the call.
pub open spec fn mono_compile_words(get_root_domain: u64, thread_attach: u64, domain_set: u64, compile_method: u64, method: u64) -> Seq<u64> {
    seq![get_root_domain, thread_attach, domain_set, compile_method, method, 0u64, 0u64, 0u64]
}

pub fn mono_compile_layout(get_root_domain: u64, thread_attach: u64, domain_set: u64, compile_method: u64, method: u64) -> (r: Result<Vec<u8>, String>)
    ensures
        (get_root_domain == 0 || thread_attach == 0 || compile_method == 0 || method == 0) ==> (r matches Err(m)
            && m@ == "null mono compile arg"@),
        !(get_root_domain == 0 || thread_attach == 0 || compile_method == 0 || method == 0) ==> (r matches Ok(b)
            && b@ == words_le(mono_compile_words(get_root_domain, thread_attach, domain_set, compile_method, method))),
{
    if get_root_domain == 0 || thread_attach == 0 || compile_method == 0 || method == 0 {
        return Err(String::from_str("null mono compile arg"));
    }
    let ws: Vec<u64> = vec![get_root_domain, thread_attach, domain_set, compile_method, method, 0, 0, 0];
    assert(ws@ =~= mono_compile_words(get_root_domain, thread_attach, domain_set, compile_method, method));
    Ok(words_to_le(ws.as_slice()))
}

/// The result word of both blocks is the sixth word, at `REMOTE_RESULT_OFFSET`,
/// and the function to call is the first.
pub proof fn lemma_remote_call_block(func: u64, args: Seq<u64>)
    requires
        args.len() <= 4,
    ensures
        words_le(remote_call_words(func, args)).len() == 48,
        spec_u64_from_le_bytes(words_le(remote_call_words(func, args)).subrange(0, 8)) == func,
        forall|k: int| 0 <= k < args.len() ==> spec_u64_from_le_bytes(#[trigger] words_le(remote_call_words(func, args)).subrange(8 + 8 * k, 16 + 8 * k)) == args[k],
        spec_u64_from_le_bytes(words_le(remote_call_words(func, args)).subrange(REMOTE_RESULT_OFFSET as int, REMOTE_RESULT_OFFSET + 8)) == 0,
{
    let ws = remote_call_words(func, args);
    assert(ws.len() == 6);
    lemma_words_le_roundtrip(ws, 0);
    lemma_words_le_roundtrip(ws, 5);
    assert forall|k: int| 0 <= k < args.len() implies spec_u64_from_le_bytes(#[trigger] words_le(ws).subrange(8 + 8 * k, 16 + 8 * k)) == args[k] by {
        lemma_words_le_roundtrip(ws, k + 1);
        assert(ws[k + 1] == args[k]);
    }
}

// ---------------------------------------------------------------------------
// Strings read from the process
// ---------------------------------------------------------------------------

/// The bytes of a C string: everything before the first NUL, or all.
pub open spec fn c_prefix(b: Seq<u8>) -> Seq<u8>
    decreases b.len(),
{
    if b.len() == 0 {
        seq![]
    } else if b[0] == 0 {
        seq![]
    } else {
        seq![b[0]] + c_prefix(b.drop_first())
    }
}

pub fn c_string_prefix(b: &[u8]) -> (out: Vec<u8>)
    ensures
        out@ == c_prefix(b@),
{
    let n = b.len();
    let mut out: Vec<u8> = Vec::new();
    let mut k: usize = 0;
    assert(b@.subrange(0, n as int) =~= b@);
    assert(out@ + c_prefix(b@) =~= c_prefix(b@));
    while k < n && b[k] != 0
        invariant
            n == b@.len(),
            k <= n,
            out@ + c_prefix(b@.subrange(k as int, n as int)) == c_prefix(b@),
        decreases n - k,
    {
        let ghost rest = b@.subrange(k as int, n as int);
        out.push(b[k]);
        assert(rest.drop_first() =~= b@.subrange(k + 1, n as int));
        assert(out@ + c_prefix(b@.subrange(k + 1, n as int)) =~= c_prefix(b@));
        k = k + 1;
    }
    proof {
        let rest = b@.subrange(k as int, n as int);
        assert(c_prefix(rest) =~= seq![]);
        assert(out@ + seq![] =~= out@);
    }
    out
}

/// The C string read byte by byte after a bulk read failed: the bytes read
/// before the first NUL or the first unreadable byte; none when nothing was
/// read and no NUL was seen.
pub fn c_string_bytewise(read: &[u8], nul_seen: bool) -> (r: Option<Vec<u8>>)
    ensures
        (nul_seen || read@.len() > 0) ==> (r matches Some(v) && v@ == read@),
        !(nul_seen || read@.len() > 0) ==> r is None,
{
    if nul_seen || read.len() > 0 {
        Some(vstd::slice::slice_to_vec(read))
    } else {
        None
    }
}

/// UTF-16 text of a fixed-size wide-character buffer, up to the first NUL.
pub open spec fn wide_prefix(b: Seq<u16>) -> Seq<u16>
    decreases b.len(),
{
    if b.len() == 0 || b[0] == 0 {
        seq![]
    } else {
        seq![b[0]] + wide_prefix(b.drop_first())
    }
}

/// The name held in a wide-character buffer: the units before the first
/// NUL, decoded with unpaired surrogates replaced.
pub fn widestr(buf: &[u16]) -> (s: String)
    ensures
        s@ == crate::text::utf16_lossy(wide_prefix(buf@)),
{
    let n = buf.len();
    let mut units: Vec<u16> = Vec::new();
    let mut k: usize = 0;
    assert(buf@.subrange(0, n as int) =~= buf@);
    assert(units@ + wide_prefix(buf@) =~= wide_prefix(buf@));
    while k < n && buf[k] != 0
        invariant
            n == buf@.len(),
            k <= n,
            units@ + wide_prefix(buf@.subrange(k as int, n as int)) == wide_prefix(buf@),
        decreases n - k,
    {
        let ghost rest = buf@.subrange(k as int, n as int);
        units.push(buf[k]);
        assert(rest.drop_first() =~= buf@.subrange(k + 1, n as int));
        assert(units@ + wide_prefix(buf@.subrange(k + 1, n as int)) =~= wide_prefix(buf@));
        k = k + 1;
    }
    proof {
        let rest = buf@.subrange(k as int, n as int);
        assert(wide_prefix(rest) =~= seq![]);
        assert(units@ + seq![] =~= units@);
    }
    crate::text::decode_utf16_lossy(units.as_slice())
}

// ---------------------------------------------------------------------------
// Opening the process
// ---------------------------------------------------------------------------

/// Why the game process could not be opened.
#[derive(Debug)]
pub enum OpenError {
    NotFound { name: String },
    Multiple { name: String, count: usize },
    AccessDenied { pid: u32 },
}

impl OpenError {
    /// The error's text, as its `Display` shows it.
    pub fn message(&self) -> (s: String)
        ensures
            s@ == match *self {
                OpenError::NotFound { name } => "process not found: "@ + name@,
                OpenError::Multiple { name, count } => "found "@ + crate::text::decimal_text(count as nat)
                    + " processes named "@ + name@ + "; close the extras and retry"@,
                OpenError::AccessDenied { pid } => "OpenProcess("@ + crate::text::decimal_text(pid as nat)
                    + ") failed — run as Administrator?"@,
            },
    {
        match self {
            OpenError::NotFound { name } => {
                let mut s = String::from_str("process not found: ");
                s.append(name.as_str());
                s
            },
            OpenError::Multiple { name, count } => {
                let mut s = String::from_str("found ");
                crate::text::append_string(&mut s, &crate::text::fmt_decimal(*count as u64));
                s.append(" processes named ");
                s.append(name.as_str());
                s.append("; close the extras and retry");
                s
            },
            OpenError::AccessDenied { pid } => {
                let mut s = String::from_str("OpenProcess(");
                crate::text::append_string(&mut s, &crate::text::fmt_decimal(*pid as u64));
                s.append(") failed — run as Administrator?");
                s
            },
        }
    }
}

/// Which process to open from the ids found under a name: exactly one is
/// required.
pub fn choose_pid(name: &str, pids: &[u32]) -> (r: Result<u32, OpenError>)
    ensures
        pids@.len() == 0 ==> (r matches Err(OpenError::NotFound { name: n }) && n@ == name@),
        pids@.len() == 1 ==> (r matches Ok(p) && p == pids@[0]),
        pids@.len() > 1 ==> (r matches Err(OpenError::Multiple { name: n, count }) && n@ == name@ && count == pids@.len()),
{
    if pids.len() == 0 {
        Err(OpenError::NotFound { name: String::from_str(name) })
    } else if pids.len() == 1 {
        Ok(pids[0])
    } else {
        Err(OpenError::Multiple { name: String::from_str(name), count: pids.len() })
    }
}

/// Module information.
#[derive(Clone, Debug)]
pub struct ModuleInfo {
    pub base: u64,
}

} // verus!
