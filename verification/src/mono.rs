//! Finding Mono's exports in the game process and checking the results of
//! remote Mono calls.
use crate::mem::user_ptr_shape;
use crate::text::{append_string, fmt_hex, fmt_signed, hex_text, signed_decimal_text};
use vstd::prelude::*;
use vstd::string::{StringExecFns, StringSliceAdditionalSpecFns};

verus! {

/// File name of the Mono runtime module.
pub const MONO_MOD: &'static str = "mono-2.0-bdwgc.dll";

/// Longest export name read.
pub const EXPORT_NAME_MAX: usize = 256;

/// PE32+ optional-header magic.
pub const PE32_PLUS_MAGIC: u16 = 0x20B;

// ---------------------------------------------------------------------------
// Reading the export directory
// ---------------------------------------------------------------------------

/// A read the export walk asks for.
#[derive(Clone, Copy, Debug, PartialEq, Eq, Structural)]
pub enum ExportRead {
    /// A little-endian 32-bit value.
    U32 { addr: u64 },
    /// A little-endian 16-bit value.
    U16 { addr: u64 },
    /// A NUL-terminated name of at most `EXPORT_NAME_MAX` bytes.
    Name { addr: u64 },
}

/// The outcome of the read asked for.
pub enum ExportEvent {
    U32(Option<u32>),
    U16(Option<u16>),
    Name(Option<Vec<u8>>),
}

/// Where the walk is.
#[derive(Clone, Copy, Debug, PartialEq, Eq, Structural)]
pub enum ExportPhase {
    Lfanew,
    Magic,
    ExportRva,
    ExportSize,
    NameCount,
    Funcs,
    Names,
    Ords,
    NameRva,
    Name,
    Ord,
    Func,
    Done,
}

/// The walk over a PE image's export directory that resolves `names` to
/// addresses: the header fields first, then each exported name in turn,
/// until every wanted name is resolved. For a wanted name the walk reads its
/// ordinal, then the function RVA in that ordinal's slot of the function
/// table, and resolves the name to the image base plus that RVA. A name whose function RVA points
/// inside the export directory (a forwarder) is not resolved.
pub struct ExportResolver {
    pub base: u64,
    pub names: Vec<Vec<u8>>,
    pub found: Vec<u64>,
    pub remaining: usize,
    pub phase: ExportPhase,
    pub pe: u64,
    pub export_rva: u64,
    pub export_size: u64,
    pub exp: u64,
    pub n_names: u64,
    pub addr_funcs: u64,
    pub addr_names: u64,
    pub addr_ords: u64,
    pub i: u64,
    pub name_rva: u64,
    pub idx: usize,
    pub ord: u16,
    pub result: Option<Result<Vec<u64>, String>>,
}

/// Index of the first wanted name equal to `b`.
pub open spec fn name_index_from(names: Seq<Vec<u8>>, b: Seq<u8>, j: int) -> Option<int>
    decreases names.len() - j,
{
    if j < 0 || j >= names.len() {
        None
    } else if names[j]@ == b {
        Some(j)
    } else {
        name_index_from(names, b, j + 1)
    }
}

/// Wanted names not resolved, in order.
pub open spec fn missing_list(names: Seq<Vec<u8>>, found: Seq<u64>) -> Seq<Seq<u8>>
    decreases names.len(),
{
    if names.len() == 0 || found.len() != names.len() {
        seq![]
    } else if found.last() == 0 {
        missing_list(names.drop_last(), found.drop_last()).push(names.last()@)
    } else {
        missing_list(names.drop_last(), found.drop_last())
    }
}

/// Names joined by `", "`.
pub open spec fn join_names(list: Seq<Seq<u8>>) -> Seq<char>
    decreases list.len(),
{
    if list.len() == 0 {
        seq![]
    } else if list.len() == 1 {
        ascii_text(list[0])
    } else {
        join_names(list.drop_last()) + seq![',', ' '] + ascii_text(list.last())
    }
}

/// Wanted names not resolved, joined by `", "`.
pub open spec fn missing_text(names: Seq<Vec<u8>>, found: Seq<u64>) -> Seq<char> {
    join_names(missing_list(names, found))
}

/// Bytes read as characters, one per byte.
pub open spec fn ascii_text(b: Seq<u8>) -> Seq<char> {
    b.map_values(|x: u8| x as char)
}

impl ExportResolver {
    pub open spec fn wf(&self) -> bool {
        &&& self.found@.len() == self.names@.len()
        &&& self.remaining <= self.names@.len()
        &&& (self.phase == ExportPhase::Ord || self.phase == ExportPhase::Func) ==> self.idx
            < self.names@.len()
        &&& (self.phase == ExportPhase::NameRva || self.phase == ExportPhase::Name
            || self.phase == ExportPhase::Ord || self.phase == ExportPhase::Func) ==> self.remaining > 0 && self.i < self.n_names
        &&& self.n_names <= u32::MAX
        &&& self.export_rva <= u32::MAX
        &&& self.export_size <= u32::MAX
        &&& (self.phase == ExportPhase::Done) == (self.result is Some)
    }

    /// The read the walk asks for in its current phase.
    pub open spec fn spec_request(&self) -> Option<ExportRead> {
        match self.phase {
            ExportPhase::Lfanew => Some(ExportRead::U32 { addr: self.base.wrapping_add(0x3C) }),
            ExportPhase::Magic => Some(ExportRead::U32 { addr: self.pe.wrapping_add(0x18) }),
            ExportPhase::ExportRva => Some(ExportRead::U32 { addr: self.pe.wrapping_add(0x88) }),
            ExportPhase::ExportSize => Some(ExportRead::U32 { addr: self.pe.wrapping_add(0x8C) }),
            ExportPhase::NameCount => Some(ExportRead::U32 { addr: self.exp.wrapping_add(0x18) }),
            ExportPhase::Funcs => Some(ExportRead::U32 { addr: self.exp.wrapping_add(0x1C) }),
            ExportPhase::Names => Some(ExportRead::U32 { addr: self.exp.wrapping_add(0x20) }),
            ExportPhase::Ords => Some(ExportRead::U32 { addr: self.exp.wrapping_add(0x24) }),
            ExportPhase::NameRva => Some(ExportRead::U32 { addr: self.addr_names.wrapping_add((self.i * 4) as u64) }),
            ExportPhase::Name => Some(ExportRead::Name { addr: self.base.wrapping_add(self.name_rva) }),
            ExportPhase::Ord => Some(ExportRead::U16 { addr: self.addr_ords.wrapping_add((self.i * 2) as u64) }),
            ExportPhase::Func => Some(ExportRead::U32 { addr: self.addr_funcs.wrapping_add((self.ord * 4) as u64) }),
            ExportPhase::Done => None,
        }
    }

    /// Starts resolving `names` in the image loaded at `base`.
    pub fn new(base: u64, names: &[&str]) -> (s: Self)
        ensures
            s.wf(),
            s.base == base,
            s.names@.len() == names@.len(),
            forall|k: int| 0 <= k < names@.len() ==> (#[trigger] s.names@[k])@ == names@[k].spec_bytes(),
            forall|k: int| 0 <= k < names@.len() ==> #[trigger] s.found@[k] == 0,
            s.remaining == names@.len(),
            s.phase == ExportPhase::Lfanew,
            s.result is None,
    {
        let n = names.len();
        let mut ns: Vec<Vec<u8>> = Vec::new();
        let mut found: Vec<u64> = Vec::new();
        let mut k: usize = 0;
        while k < n
            invariant
                n == names@.len(),
                k <= n,
                ns@.len() == k,
                found@.len() == k,
                forall|j: int| 0 <= j < k ==> (#[trigger] ns@[j])@ == names@[j].spec_bytes(),
                forall|j: int| 0 <= j < k ==> #[trigger] found@[j] == 0,
            decreases n - k,
        {
            ns.push(vstd::slice::slice_to_vec(names[k].as_bytes()));
            found.push(0);
            k = k + 1;
        }
        ExportResolver {
            base,
            names: ns,
            found,
            remaining: n,
            phase: ExportPhase::Lfanew,
            pe: 0,
            export_rva: 0,
            export_size: 0,
            exp: 0,
            n_names: 0,
            addr_funcs: 0,
            addr_names: 0,
            addr_ords: 0,
            i: 0,
            name_rva: 0,
            idx: 0,
            ord: 0,
            result: None,
        }
    }

    /// The read to make next; `None` once the walk is over (see `result`).
    pub fn request(&self) -> (r: Option<ExportRead>)
        requires
            self.wf(),
        ensures
            r == self.spec_request(),
    {
        match self.phase {
            ExportPhase::Lfanew => Some(ExportRead::U32 { addr: self.base.wrapping_add(0x3C) }),
            ExportPhase::Magic => Some(ExportRead::U32 { addr: self.pe.wrapping_add(0x18) }),
            ExportPhase::ExportRva => Some(ExportRead::U32 { addr: self.pe.wrapping_add(0x88) }),
            ExportPhase::ExportSize => Some(ExportRead::U32 { addr: self.pe.wrapping_add(0x8C) }),
            ExportPhase::NameCount => Some(ExportRead::U32 { addr: self.exp.wrapping_add(0x18) }),
            ExportPhase::Funcs => Some(ExportRead::U32 { addr: self.exp.wrapping_add(0x1C) }),
            ExportPhase::Names => Some(ExportRead::U32 { addr: self.exp.wrapping_add(0x20) }),
            ExportPhase::Ords => Some(ExportRead::U32 { addr: self.exp.wrapping_add(0x24) }),
            ExportPhase::NameRva => Some(ExportRead::U32 { addr: self.addr_names.wrapping_add(self.i * 4) }),
            ExportPhase::Name => Some(ExportRead::Name { addr: self.base.wrapping_add(self.name_rva) }),
            ExportPhase::Ord => Some(ExportRead::U16 { addr: self.addr_ords.wrapping_add(self.i * 2) }),
            ExportPhase::Func => Some(ExportRead::U32 { addr: self.addr_funcs.wrapping_add((self.ord as u64) * 4) }),
            ExportPhase::Done => None,
        }
    }

    /// The outcome of a finished walk: the addresses of the wanted names, in
    /// order, or the error that ended it.
    pub fn into_result(self) -> (r: Result<Vec<u64>, String>)
        requires
            self.wf(),
            self.phase == ExportPhase::Done,
        ensures
            self.result == Some(r),
    {
        match self.result {
            Some(r) => r,
            None => {
                assert(false);
                Err(String::new())
            },
        }
    }

    fn fail(&mut self, msg: &str)
        requires
            old(self).wf(),
        ensures
            final(self).wf(),
            final(self).phase == ExportPhase::Done,
            final(self).result matches Some(Err(m)) && m@ == msg@,
            final(self).names@ == old(self).names@,
            final(self).base == old(self).base,
    {
        self.phase = ExportPhase::Done;
        self.result = Some(Err(String::from_str(msg)));
    }

    fn fail_read(&mut self, what: &str)
        requires
            old(self).wf(),
        ensures
            final(self).wf(),
            final(self).phase == ExportPhase::Done,
            final(self).result matches Some(Err(m)) && m@ == "read "@ + what@ + " failed"@,
            final(self).names@ == old(self).names@,
            final(self).base == old(self).base,
    {
        let mut m = String::from_str("read ");
        m.append(what);
        m.append(" failed");
        self.phase = ExportPhase::Done;
        self.result = Some(Err(m));
    }

    /// The loop over exported names: go on with the next name while some
    /// wanted name is unresolved and names remain; finish otherwise.
    fn next_name(&mut self)
        requires
            old(self).found@.len() == old(self).names@.len(),
            old(self).remaining <= old(self).names@.len(),
            old(self).n_names <= u32::MAX,
            old(self).export_rva <= u32::MAX,
            old(self).export_size <= u32::MAX,
            old(self).result is None,
        ensures
            final(self).wf(),
            final(self).names@ == old(self).names@,
            final(self).base == old(self).base,
            final(self).found@ == old(self).found@,
            final(self).remaining == old(self).remaining,
            final(self).i == old(self).i,
            kept_walk_ptrs(*old(self), *final(self)),
            (old(self).remaining > 0 && old(self).i < old(self).n_names) ==> final(self).phase
                == ExportPhase::NameRva && final(self).result is None,
            !(old(self).remaining > 0 && old(self).i < old(self).n_names) ==> {
                &&& final(self).phase == ExportPhase::Done
                &&& if old(self).remaining > 0 {
                    final(self).result matches Some(Err(m)) && m@ == "missing mono exports: "@ + missing_text(
                        old(self).names@,
                        old(self).found@,
                    )
                } else {
                    final(self).result matches Some(Ok(v)) && v@ == old(self).found@
                }
            },
    {
        if self.remaining > 0 && self.i < self.n_names {
            self.phase = ExportPhase::NameRva;
            return ;
        }
        self.phase = ExportPhase::Done;
        if self.remaining > 0 {
            let mut m = String::from_str("missing mono exports: ");
            let list = missing_names(&self.names, &self.found);
            append_string(&mut m, &list);
            self.result = Some(Err(m));
        } else {
            let v = vstd::slice::slice_to_vec(self.found.as_slice());
            self.result = Some(Ok(v));
        }
    }

    /// Takes the outcome of the read that `request` asked for.
    pub fn feed(&mut self, ev: ExportEvent)
        requires
            old(self).wf(),
            old(self).phase != ExportPhase::Done,
            old(self).spec_request() matches Some(ExportRead::U32 { .. }) ==> ev is U32,
            old(self).spec_request() matches Some(ExportRead::U16 { .. }) ==> ev is U16,
            old(self).spec_request() matches Some(ExportRead::Name { .. }) ==> ev is Name,
        ensures
            final(self).wf(),
            final(self).names@ == old(self).names@,
            final(self).base == old(self).base,
            feed_post(*old(self), *final(self), ev),
    {
        match self.phase {
            ExportPhase::Lfanew => match ev {
                ExportEvent::U32(Some(e)) => {
                    self.pe = self.base.wrapping_add(e as u64);
                    self.phase = ExportPhase::Magic;
                },
                _ => self.fail_read("PE e_lfanew"),
            },
            ExportPhase::Magic => match ev {
                ExportEvent::U32(Some(m)) => {
                    if m as u16 != PE32_PLUS_MAGIC {
                        self.fail("mono module is not PE32+");
                    } else {
                        self.phase = ExportPhase::ExportRva;
                    }
                },
                _ => self.fail_read("PE magic"),
            },
            ExportPhase::ExportRva => match ev {
                ExportEvent::U32(Some(r)) => {
                    self.export_rva = r as u64;
                    self.phase = ExportPhase::ExportSize;
                },
                _ => self.fail_read("export RVA"),
            },
            ExportPhase::ExportSize => match ev {
                ExportEvent::U32(Some(sz)) => {
                    self.export_size = sz as u64;
                    if self.export_rva == 0 || sz == 0 {
                        self.fail("mono export directory empty");
                    } else {
                        self.exp = self.base.wrapping_add(self.export_rva);
                        self.phase = ExportPhase::NameCount;
                    }
                },
                _ => self.fail_read("export size"),
            },
            ExportPhase::NameCount => match ev {
                ExportEvent::U32(Some(n)) => {
                    self.n_names = n as u64;
                    self.phase = ExportPhase::Funcs;
                },
                _ => self.fail_read("export name count"),
            },
            ExportPhase::Funcs => match ev {
                ExportEvent::U32(Some(f)) => {
                    self.addr_funcs = self.base.wrapping_add(f as u64);
                    self.phase = ExportPhase::Names;
                },
                _ => self.fail_read("AddressOfFunctions"),
            },
            ExportPhase::Names => match ev {
                ExportEvent::U32(Some(a)) => {
                    self.addr_names = self.base.wrapping_add(a as u64);
                    self.phase = ExportPhase::Ords;
                },
                _ => self.fail_read("AddressOfNames"),
            },
            ExportPhase::Ords => match ev {
                ExportEvent::U32(Some(a)) => {
                    self.addr_ords = self.base.wrapping_add(a as u64);
                    self.i = 0;
                    self.next_name();
                },
                _ => self.fail_read("AddressOfNameOrdinals"),
            },
            ExportPhase::NameRva => match ev {
                ExportEvent::U32(Some(r)) => {
                    self.name_rva = r as u64;
                    self.phase = ExportPhase::Name;
                },
                _ => self.fail_read("name RVA"),
            },
            ExportPhase::Name => match ev {
                ExportEvent::Name(Some(b)) => match name_index(&self.names, b.as_slice()) {
                    Some(k) => {
                        self.idx = k;
                        self.phase = ExportPhase::Ord;
                    },
                    None => {
                        self.i = self.i + 1;
                        self.next_name();
                    },
                },
                _ => self.fail("read export name failed"),
            },
            ExportPhase::Ord => match ev {
                ExportEvent::U16(Some(o)) => {
                    self.ord = o;
                    self.phase = ExportPhase::Func;
                },
                _ => self.fail("read ordinal failed"),
            },
            ExportPhase::Func => match ev {
                ExportEvent::U32(Some(f)) => {
                    let f = f as u64;
                    if !(self.export_rva <= f && f < self.export_rva + self.export_size) {
                        self.found.set(self.idx, self.base.wrapping_add(f));
                        self.remaining = self.remaining - 1;
                    }
                    self.i = self.i + 1;
                    self.next_name();
                },
                _ => self.fail_read("func RVA"),
            },
            ExportPhase::Done => {},
        }
    }
}

/// What one step of the walk does with the outcome of its read.
pub open spec fn feed_post(o: ExportResolver, s: ExportResolver, ev: ExportEvent) -> bool {
    let failed_read = |what: Seq<char>| s.phase == ExportPhase::Done && (s.result matches Some(Err(m)) && m@ == "read "@ + what + " failed"@);
    match o.phase {
        ExportPhase::Lfanew => match ev {
            ExportEvent::U32(Some(e)) => s.phase == ExportPhase::Magic && s.pe == o.base.wrapping_add(e as u64),
            _ => failed_read("PE e_lfanew"@),
        },
        ExportPhase::Magic => match ev {
            ExportEvent::U32(Some(m)) => if m as u16 != PE32_PLUS_MAGIC {
                s.phase == ExportPhase::Done && (s.result matches Some(Err(msg)) && msg@ == "mono module is not PE32+"@)
            } else {
                s.phase == ExportPhase::ExportRva && s.pe == o.pe
            },
            _ => failed_read("PE magic"@),
        },
        ExportPhase::ExportRva => match ev {
            ExportEvent::U32(Some(r)) => s.phase == ExportPhase::ExportSize && s.export_rva == r && s.pe == o.pe,
            _ => failed_read("export RVA"@),
        },
        ExportPhase::ExportSize => match ev {
            ExportEvent::U32(Some(sz)) => if o.export_rva == 0 || sz == 0 {
                s.phase == ExportPhase::Done && (s.result matches Some(Err(msg)) && msg@ == "mono export directory empty"@)
            } else {
                s.phase == ExportPhase::NameCount && s.export_rva == o.export_rva && s.export_size == sz
                    && s.exp == o.base.wrapping_add(o.export_rva)
            },
            _ => failed_read("export size"@),
        },
        ExportPhase::NameCount => match ev {
            ExportEvent::U32(Some(n)) => s.phase == ExportPhase::Funcs && s.n_names == n && s.exp == o.exp
                && s.export_rva == o.export_rva && s.export_size == o.export_size,
            _ => failed_read("export name count"@),
        },
        ExportPhase::Funcs => match ev {
            ExportEvent::U32(Some(f)) => s.phase == ExportPhase::Names && s.addr_funcs == o.base.wrapping_add(f as u64)
                && s.exp == o.exp && s.n_names == o.n_names && s.export_rva == o.export_rva
                && s.export_size == o.export_size,
            _ => failed_read("AddressOfFunctions"@),
        },
        ExportPhase::Names => match ev {
            ExportEvent::U32(Some(a)) => s.phase == ExportPhase::Ords && s.addr_names == o.base.wrapping_add(a as u64)
                && s.exp == o.exp && s.addr_funcs == o.addr_funcs && s.n_names == o.n_names
                && s.export_rva == o.export_rva && s.export_size == o.export_size,
            _ => failed_read("AddressOfNames"@),
        },
        ExportPhase::Ords => match ev {
            ExportEvent::U32(Some(a)) => s.addr_ords == o.base.wrapping_add(a as u64) && s.i == 0 && s.addr_names
                == o.addr_names && s.addr_funcs == o.addr_funcs && s.n_names == o.n_names
                && s.export_rva == o.export_rva && s.export_size == o.export_size && loop_head(o, s),
            _ => failed_read("AddressOfNameOrdinals"@),
        },
        ExportPhase::NameRva => match ev {
            ExportEvent::U32(Some(r)) => s.phase == ExportPhase::Name && s.name_rva == r && s.i == o.i
                && kept_walk(o, s),
            _ => failed_read("name RVA"@),
        },
        ExportPhase::Name => match ev {
            ExportEvent::Name(Some(b)) => match name_index_from(o.names@, b@, 0) {
                Some(k) => s.phase == ExportPhase::Ord && s.idx == k && s.i == o.i && kept_walk(o, s),
                None => s.i == o.i + 1 && kept_walk_ptrs(o, s) && loop_head(o, s),
            },
            _ => s.phase == ExportPhase::Done && (s.result matches Some(Err(m)) && m@ == "read export name failed"@),
        },
        ExportPhase::Ord => match ev {
            ExportEvent::U16(Some(v)) => s.phase == ExportPhase::Func && s.ord == v && s.idx == o.idx && s.i == o.i
                && kept_walk(o, s),
            _ => s.phase == ExportPhase::Done && (s.result matches Some(Err(m)) && m@ == "read ordinal failed"@),
        },
        ExportPhase::Func => match ev {
            ExportEvent::U32(Some(f)) => {
                let forwarder = o.export_rva <= f && f < o.export_rva + o.export_size;
                &&& s.i == o.i + 1
                &&& kept_walk_ptrs(o, s)
                &&& if forwarder {
                    s.found@ == o.found@ && s.remaining == o.remaining
                } else {
                    s.found@ == o.found@.update(o.idx as int, o.base.wrapping_add(f as u64)) && s.remaining == o.remaining - 1
                }
                &&& loop_head(ExportResolver { found: s.found, remaining: s.remaining, ..o }, s)
            },
            _ => failed_read("func RVA"@),
        },
        ExportPhase::Done => true,
    }
}

/// Resolving a wanted name from the function RVA read in its ordinal's slot:
/// an RVA outside the export directory `[export RVA, export RVA + size)`
/// resolves the name to the image base plus the RVA and counts it as found;
/// only an RVA inside that range (a forwarder) leaves the name unresolved.
pub proof fn lemma_func_rva_resolves(o: ExportResolver, s: ExportResolver, f: u32)
    requires
        o.wf(),
        o.phase == ExportPhase::Func,
        feed_post(o, s, ExportEvent::U32(Some(f))),
    ensures
        (f < o.export_rva || o.export_rva + o.export_size <= f) ==> {
            &&& s.found@[o.idx as int] == o.base.wrapping_add(f as u64)
            &&& s.remaining + 1 == o.remaining
            &&& forall|k: int| 0 <= k < o.found@.len() && k != o.idx ==> #[trigger] s.found@[k] == o.found@[k]
        },
        (o.export_rva <= f < o.export_rva + o.export_size) ==> s.found@ == o.found@ && s.remaining
            == o.remaining,
{
}

/// The walk's pointers into the image are unchanged.
pub open spec fn kept_walk_ptrs(o: ExportResolver, s: ExportResolver) -> bool {
    &&& s.addr_names == o.addr_names
    &&& s.addr_funcs == o.addr_funcs
    &&& s.addr_ords == o.addr_ords
    &&& s.n_names == o.n_names
    &&& s.export_rva == o.export_rva
    &&& s.export_size == o.export_size
}

/// The walk's pointers and progress are unchanged.
pub open spec fn kept_walk(o: ExportResolver, s: ExportResolver) -> bool {
    &&& kept_walk_ptrs(o, s)
    &&& s.found@ == o.found@
    &&& s.remaining == o.remaining
}

/// After one exported name: the next one while a wanted name is unresolved
/// and names remain, otherwise the end, with the addresses or the list of
/// the names still missing.
pub open spec fn loop_head(o: ExportResolver, s: ExportResolver) -> bool {
    if s.remaining > 0 && s.i < s.n_names {
        s.phase == ExportPhase::NameRva && s.result is None
    } else if s.remaining > 0 {
        s.phase == ExportPhase::Done && (s.result matches Some(Err(m)) && m@ == "missing mono exports: "@
            + missing_text(o.names@, s.found@))
    } else {
        s.phase == ExportPhase::Done && (s.result matches Some(Ok(v)) && v@ == s.found@)
    }
}

proof fn lemma_name_index_bound(names: Seq<Vec<u8>>, b: Seq<u8>, j: int)
    ensures
        name_index_from(names, b, j) matches Some(q) ==> 0 <= q < names.len(),
    decreases names.len() - j,
{
    if j >= 0 && j < names.len() && names[j]@ != b {
        lemma_name_index_bound(names, b, j + 1);
    }
}

fn name_index(names: &Vec<Vec<u8>>, b: &[u8]) -> (r: Option<usize>)
    ensures
        match r {
            Some(k) => name_index_from(names@, b@, 0) == Some(k as int) && k < names@.len(),
            None => name_index_from(names@, b@, 0) is None,
        },
{
    proof {
        lemma_name_index_bound(names@, b@, 0);
    }
    let n = names.len();
    let mut j: usize = 0;
    while j < n
        invariant
            n == names@.len(),
            j <= n,
            name_index_from(names@, b@, 0) == name_index_from(names@, b@, j as int),
        decreases n - j,
    {
        if bytes_eq(names[j].as_slice(), b) {
            return Some(j);
        }
        j = j + 1;
    }
    None
}

fn bytes_eq(s: &[u8], t: &[u8]) -> (r: bool)
    ensures
        r == (s@ == t@),
{
    if s.len() != t.len() {
        return false;
    }
    let n = s.len();
    let mut k: usize = 0;
    while k < n
        invariant
            n == s@.len(),
            n == t@.len(),
            k <= n,
            forall|j: int| 0 <= j < k ==> s@[j] == t@[j],
        decreases n - k,
    {
        if s[k] != t[k] {
            return false;
        }
        k = k + 1;
    }
    assert(s@ =~= t@);
    true
}

fn missing_names(names: &Vec<Vec<u8>>, found: &Vec<u64>) -> (s: String)
    requires
        names@.len() == found@.len(),
    ensures
        s@ == missing_text(names@, found@),
{
    let n = names.len();
    let mut s = String::new();
    let mut count: usize = 0;
    let mut k: usize = 0;
    while k < n
        invariant
            n == names@.len(),
            n == found@.len(),
            k <= n,
            count == missing_list(names@.take(k as int), found@.take(k as int)).len(),
            count <= k,
            s@ == join_names(missing_list(names@.take(k as int), found@.take(k as int))),
        decreases n - k,
    {
        assert(names@.take(k + 1).drop_last() =~= names@.take(k as int));
        assert(found@.take(k + 1).drop_last() =~= found@.take(k as int));
        let ghost prev = missing_list(names@.take(k as int), found@.take(k as int));
        if found[k] == 0 {
            if count > 0 {
                crate::text::push_char(&mut s, ',');
                crate::text::push_char(&mut s, ' ');
            }
            let nm = names[k].as_slice();
            let m = nm.len();
            let ghost s0 = s@;
            let mut j: usize = 0;
            while j < m
                invariant
                    m == nm@.len(),
                    j <= m,
                    s@ == s0 + ascii_text(nm@.take(j as int)),
                decreases m - j,
            {
                crate::text::push_char(&mut s, nm[j] as char);
                assert(ascii_text(nm@.take(j + 1)) =~= ascii_text(nm@.take(j as int)).push(nm@[j as int] as char));
                j = j + 1;
            }
            assert(nm@.take(m as int) =~= nm@);
            proof {
                let cur = prev.push(names@[k as int]@);
                assert(missing_list(names@.take(k + 1), found@.take(k + 1)) == cur);
                if count == 0 {
                    assert(cur =~= seq![names@[k as int]@]);
                    assert(s@ =~= join_names(cur));
                } else {
                    assert(cur.drop_last() =~= prev);
                    assert(s@ =~= join_names(cur));
                }
            }
            count = count + 1;
        }
        k = k + 1;
    }
    assert(names@.take(n as int) =~= names@);
    assert(found@.take(n as int) =~= found@);
    s
}

// ---------------------------------------------------------------------------
// Results of remote Mono calls
// ---------------------------------------------------------------------------

/// A remote call's result: its error prefixed with the function's name, or
/// `null_msg` when the call returned null and null is an error.
pub fn checked_call(r: Result<u64, String>, what: &str, null_msg: Option<&str>) -> (out: Result<u64, String>)
    ensures
        match r {
            Err(e) => out matches Err(m) && m@ == what@ + ": "@ + e@,
            Ok(v) => match null_msg {
                Some(nm) => if v == 0 { out matches Err(m) && m@ == nm@ } else { out == Ok::<u64, String>(v) },
                None => out == Ok::<u64, String>(v),
            },
        },
{
    match r {
        Err(e) => {
            let mut m = String::from_str(what);
            m.append(": ");
            m.append(e.as_str());
            Err(m)
        },
        Ok(v) => match null_msg {
            Some(nm) => {
                if v == 0 {
                    Err(String::from_str(nm))
                } else {
                    Ok(v)
                }
            },
            None => Ok(v),
        },
    }
}

/// A field offset as `mono_field_get_offset` returns it: the low 32 bits,
/// signed.
pub fn field_offset_from_raw(raw: u64) -> (off: i64)
    ensures
        off == (raw as i32) as i64,
{
    (raw as i32) as i64
}

/// A static field's offset must lie within 0 to 0x10000.
pub fn check_field_offset(off: i64) -> (r: Result<(), String>)
    ensures
        (0 <= off && off <= 0x10000) ==> r is Ok,
        !(0 <= off && off <= 0x10000) ==> (r matches Err(m) && m@ == "invalid field offset "@
            + signed_decimal_text(off as int)),
{
    if !(0 <= off && off <= 0x10000) {
        let mut m = String::from_str("invalid field offset ");
        append_string(&mut m, &fmt_signed(off));
        return Err(m);
    }
    Ok(())
}

/// Address of a static field: its class's static data plus the offset.
pub fn static_field_addr(static_data: u64, off: i64) -> (a: u64)
    requires
        0 <= off <= 0x10000,
    ensures
        a == static_data.wrapping_add(off as u64),
{
    static_data.wrapping_add(off as u64)
}

/// `CaneManager.DefaultCane` read at `addr`: it must have been read and be a
/// readable user-space pointer.
pub fn check_default_cane(addr: u64, cane: Option<u64>, readable: bool) -> (r: Result<u64, String>)
    ensures
        cane is None ==> (r matches Err(m) && m@ == "read DefaultCane at "@ + hex_text(addr as nat) + " failed"@),
        cane matches Some(c) ==> if c != 0 && user_ptr_shape(c) && readable {
            r == Ok::<u64, String>(c)
        } else {
            r matches Err(m) && m@ == "DefaultCane invalid: "@ + hex_text(c as nat)
        },
{
    match cane {
        None => {
            let mut m = String::from_str("read DefaultCane at ");
            append_string(&mut m, &fmt_hex(addr));
            m.append(" failed");
            Err(m)
        },
        Some(c) => {
            if c == 0 || !(crate::mem::is_user_ptr_shape(c) && readable) {
                let mut m = String::from_str("DefaultCane invalid: ");
                append_string(&mut m, &fmt_hex(c));
                Err(m)
            } else {
                Ok(c)
            }
        },
    }
}

/// Before JIT-compiling: the method must be known and the game running.
pub fn check_compile_start(method: u64, alive: Option<bool>) -> (r: Result<(), String>)
    ensures
        method == 0 ==> (r matches Err(m) && m@ == "null method"@),
        method != 0 && alive == Some(false) ==> (r matches Err(m) && m@ == "游戏进程已退出"@),
        method != 0 && alive != Some(false) ==> r is Ok,
{
    if method == 0 {
        return Err(String::from_str("null method"));
    }
    if alive == Some(false) {
        return Err(String::from_str("游戏进程已退出"));
    }
    Ok(())
}

/// After JIT-compiling: the game must still run and the code address be set.
pub fn check_compile_result(addr: u64, alive: Option<bool>) -> (r: Result<u64, String>)
    ensures
        alive == Some(false) ==> (r matches Err(m) && m@ == "mono_compile_method 导致游戏进程退出"@),
        alive != Some(false) && addr == 0 ==> (r matches Err(m) && m@ == "mono_compile_method returned null"@),
        alive != Some(false) && addr != 0 ==> r == Ok::<u64, String>(addr),
{
    if alive == Some(false) {
        return Err(String::from_str("mono_compile_method 导致游戏进程退出"));
    }
    if addr == 0 {
        return Err(String::from_str("mono_compile_method returned null"));
    }
    Ok(addr)
}

} // verus!
