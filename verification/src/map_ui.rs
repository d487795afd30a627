//! Showing the cane's radar on Noel juice by borrowing the cane's detail
//! view, and undoing it.
use crate::find::{CaneTargets, JuiceTarget};
use crate::offsets::GameLayout;
use crate::text::{append_string, debug_str, debug_text, fmt_hex, hex_text};
use vstd::prelude::*;
use vstd::string::StringExecFns;

verus! {

/// What the mapping overwrote, to put it back.
#[derive(Clone, Debug)]
pub struct MapBackup {
    pub juice: u64,
    pub def_cane: u64,
    pub cat: u32,
    pub fn_detail: u64,
    pub key_ptr: u64,
    pub itemdata: u64,
    pub applied: bool,
}

impl MapBackup {
    pub fn empty() -> (b: Self)
        ensures
            b.juice == 0 && b.def_cane == 0 && b.cat == 0 && b.fn_detail == 0 && b.key_ptr == 0
                && b.itemdata == 0 && !b.applied,
    {
        MapBackup { juice: 0, def_cane: 0, cat: 0, fn_detail: 0, key_ptr: 0, itemdata: 0, applied: false }
    }
}

/// A value to store.
#[derive(Clone, Copy, Debug, PartialEq, Eq, Structural)]
pub enum WriteValue {
    U32(u32),
    U64(u64),
}

/// One store into the game's memory, named for the error message.
#[derive(Clone, Copy, Debug)]
pub struct MemWrite {
    pub addr: u64,
    pub value: WriteValue,
    pub name: &'static str,
}

/// The message for a failed read.
pub open spec fn read_failed_text(name: Seq<char>, addr: u64) -> Seq<char> {
    "读取 "@ + name + " 失败 addr="@ + hex_text(addr as nat)
}

/// The message for a failed write.
pub open spec fn write_failed_text(name: Seq<char>, addr: u64) -> Seq<char> {
    "写入 "@ + name + " 失败 addr="@ + hex_text(addr as nat)
}

/// A read value, or the error naming what could not be read where.
pub fn read_or<T>(v: Option<T>, addr: u64, name: &str) -> (r: Result<T, String>)
    ensures
        match v {
            Some(x) => r == Ok::<T, String>(x),
            None => r matches Err(m) && m@ == read_failed_text(name@, addr),
        },
{
    match v {
        Some(x) => Ok(x),
        None => {
            let mut m = String::from_str("读取 ");
            m.append(name);
            m.append(" 失败 addr=");
            append_string(&mut m, &fmt_hex(addr));
            Err(m)
        },
    }
}

/// Success of a write, or the error naming what could not be written where.
pub fn write_or(ok: bool, addr: u64, name: &str) -> (r: Result<(), String>)
    ensures
        ok ==> r is Ok,
        !ok ==> (r matches Err(m) && m@ == write_failed_text(name@, addr)),
{
    if ok {
        Ok(())
    } else {
        let mut m = String::from_str("写入 ");
        m.append(name);
        m.append(" 失败 addr=");
        append_string(&mut m, &fmt_hex(addr));
        Err(m)
    }
}

/// What was read before mapping, each `None` when the read failed.
#[derive(Clone, Debug)]
pub struct JuiceMapReads {
    /// Juice: category bits.
    pub cat: Option<u32>,
    /// Juice: `FnGetDetail`.
    pub fn_detail: Option<u64>,
    /// Juice: key string.
    pub key_ptr: Option<u64>,
    /// Default cane: `ItemData`.
    pub itemdata: Option<u64>,
    /// Cane item: `FnGetDetail`.
    pub cane_fn: Option<u64>,
    /// Default cane: key string.
    pub default_str: Option<u64>,
    /// The text of the default cane's key string, when it could be read.
    pub default_key: Option<String>,
}

/// The first step of a mapping, before anything is read: the juice item,
/// the cane item and the default cane must all be known.
pub fn check_map_targets(juice: &JuiceTarget, cane: &CaneTargets) -> (r: Result<(), String>)
    ensures
        (juice.nel_item == 0 || cane.nel_item == 0 || cane.cane_item == 0) ==> (r matches Err(m) && m@
            == "地址无效，请先重新定位"@),
        (juice.nel_item != 0 && cane.nel_item != 0 && cane.cane_item != 0) ==> r is Ok,
{
    if juice.nel_item == 0 || cane.nel_item == 0 || cane.cane_item == 0 {
        return Err(String::from_str("地址无效，请先重新定位"));
    }
    Ok(())
}

/// The four stores of the mapping, in order, for the given targets and the
/// new values.
pub open spec fn map_writes(layout: GameLayout, j: u64, def_cane: u64, new_cat: u32, cane_fn: u64, default_str: u64) -> Seq<(u64, WriteValue)> {
    seq![
        ((j + layout.nel_category) as u64, WriteValue::U32(new_cat)),
        ((j + layout.nel_fn_get_detail) as u64, WriteValue::U64(cane_fn)),
        ((j + layout.nel_key) as u64, WriteValue::U64(default_str)),
        ((def_cane + layout.cane_item_data) as u64, WriteValue::U64(j)),
    ]
}

pub open spec fn writes_view(ws: Seq<MemWrite>) -> Seq<(u64, WriteValue)> {
    ws.map_values(|w: MemWrite| (w.addr, w.value))
}

/// The labels of a list of stores, which name the field in the error of a
/// failed store.
pub open spec fn write_names(ws: Seq<MemWrite>) -> Seq<Seq<char>> {
    ws.map_values(|w: MemWrite| w.name@)
}

/// The labels of the stores of a mapping.
pub open spec fn map_write_names() -> Seq<Seq<char>> {
    seq!["category"@, "FnGetDetail"@, "key→default"@, "CaneItem.ItemData"@]
}

/// The labels of the stores that undo a mapping.
pub open spec fn restore_write_names(b: MapBackup) -> Seq<Seq<char>> {
    seq!["restore category"@, "restore FnGetDetail"@, "restore key"@] + if b.def_cane != 0 {
        seq!["restore ItemData"@]
    } else {
        seq![]
    }
}

/// The targets' addresses plus any offset of the layout stay in range.
pub open spec fn map_addrs_ok(layout: GameLayout, juice: u64, def_cane: u64) -> bool {
    &&& juice + layout.nel_category <= u64::MAX
    &&& juice + layout.nel_fn_get_detail <= u64::MAX
    &&& juice + layout.nel_key <= u64::MAX
    &&& def_cane + layout.cane_item_data <= u64::MAX
    &&& def_cane + layout.cane_key <= u64::MAX
}

/// Plans the mapping from what was read: checks each read in turn, refuses a
/// cane without a detail delegate or whose default key is not `default`, and
/// returns the backup of the old values with the stores to make: the juice's
/// category gains the cane bits, it takes the cane's `FnGetDetail` and the
/// default key, and the default cane's `ItemData` points at the juice.
pub fn plan_juice_map(layout: &GameLayout, juice: &JuiceTarget, cane: &CaneTargets, reads: &JuiceMapReads) -> (r: Result<(MapBackup, Vec<MemWrite>), String>)
    requires
        map_addrs_ok(*layout, juice.nel_item, cane.cane_item),
        cane.nel_item + layout.nel_fn_get_detail <= u64::MAX,
    ensures
        (juice.nel_item == 0 || cane.nel_item == 0 || cane.cane_item == 0) ==> (r matches Err(m) && m@
            == "地址无效，请先重新定位"@),
        (juice.nel_item != 0 && cane.nel_item != 0 && cane.cane_item != 0) ==> {
            let j = juice.nel_item;
            let c = cane.nel_item;
            let d = cane.cane_item;
            if reads.cat is None {
                r matches Err(m) && m@ == read_failed_text("juice category"@, (j + layout.nel_category) as u64)
            } else if reads.fn_detail is None {
                r matches Err(m) && m@ == read_failed_text("juice FnGetDetail"@, (j + layout.nel_fn_get_detail) as u64)
            } else if reads.key_ptr is None {
                r matches Err(m) && m@ == read_failed_text("juice key"@, (j + layout.nel_key) as u64)
            } else if reads.itemdata is None {
                r matches Err(m) && m@ == read_failed_text("DefaultCane.ItemData"@, (d + layout.cane_item_data) as u64)
            } else if reads.cane_fn is None {
                r matches Err(m) && m@ == read_failed_text("cane FnGetDetail"@, (c + layout.nel_fn_get_detail) as u64)
            } else if reads.cane_fn == Some(0u64) {
                r matches Err(m) && m@ == "法杖 FnGetDetail 为空，无法复制委托"@
            } else if reads.default_str is None {
                r matches Err(m) && m@ == read_failed_text("DefaultCane.key"@, (d + layout.cane_key) as u64)
            } else if reads.default_key matches Some(s) && s@ != "default"@ {
                r matches Err(m) && m@ == "DefaultCane.key 预期 default，实际 "@ + debug_text(reads.default_key->0@)
            } else {
                r matches Ok((bak, ws)) && {
                    &&& bak.juice == j
                    &&& bak.def_cane == d
                    &&& bak.cat == reads.cat->0
                    &&& bak.fn_detail == reads.fn_detail->0
                    &&& bak.key_ptr == reads.key_ptr->0
                    &&& bak.itemdata == reads.itemdata->0
                    &&& bak.applied
                    &&& writes_view(ws@) == map_writes(
                        *layout,
                        j,
                        d,
                        reads.cat->0 | layout.cat_cane_bits,
                        reads.cane_fn->0,
                        reads.default_str->0,
                    )
                    &&& write_names(ws@) == map_write_names()
                }
            }
        },
{
    let j = juice.nel_item;
    let c = cane.nel_item;
    let def_cane = cane.cane_item;
    if let Err(m) = check_map_targets(juice, cane) {
        return Err(m);
    }
    let cat = read_or(reads.cat, j + layout.nel_category, "juice category")?;
    let fn_detail = read_or(reads.fn_detail, j + layout.nel_fn_get_detail, "juice FnGetDetail")?;
    let key_ptr = read_or(reads.key_ptr, j + layout.nel_key, "juice key")?;
    let itemdata = read_or(reads.itemdata, def_cane + layout.cane_item_data, "DefaultCane.ItemData")?;
    let cane_fn = read_or(reads.cane_fn, c + layout.nel_fn_get_detail, "cane FnGetDetail")?;
    if cane_fn == 0 {
        return Err(String::from_str("法杖 FnGetDetail 为空，无法复制委托"));
    }
    let default_str = read_or(reads.default_str, def_cane + layout.cane_key, "DefaultCane.key")?;
    match &reads.default_key {
        Some(s) => {
            let want = String::from_str("default");
            if !(*s == want) {
                let mut m = String::from_str("DefaultCane.key 预期 default，实际 ");
                append_string(&mut m, &debug_str(s.as_str()));
                return Err(m);
            }
        },
        None => {},
    }
    let new_cat = cat | layout.cat_cane_bits;
    let backup = MapBackup { juice: j, def_cane, cat, fn_detail, key_ptr, itemdata, applied: true };
    let mut ws: Vec<MemWrite> = Vec::new();
    ws.push(MemWrite { addr: j + layout.nel_category, value: WriteValue::U32(new_cat), name: "category" });
    ws.push(MemWrite { addr: j + layout.nel_fn_get_detail, value: WriteValue::U64(cane_fn), name: "FnGetDetail" });
    ws.push(MemWrite { addr: j + layout.nel_key, value: WriteValue::U64(default_str), name: "key→default" });
    ws.push(MemWrite { addr: def_cane + layout.cane_item_data, value: WriteValue::U64(j), name: "CaneItem.ItemData" });
    assert(writes_view(ws@) =~= map_writes(*layout, j, def_cane, new_cat, cane_fn, default_str));
    assert(write_names(ws@) =~= map_write_names());
    Ok((backup, ws))
}

/// Whether a category value reads as a cane: under the kind mask, its bits
/// are the cane bits.
pub fn is_cane_category(cat: u32, layout: &GameLayout) -> (b: bool)
    ensures
        b == (cat & layout.cat_cane_mask == layout.cat_cane_bits),
{
    cat & layout.cat_cane_mask == layout.cat_cane_bits
}

/// The stores that undo a mapping: the old category, `FnGetDetail` and key
/// of the juice, then, when a default cane was mapped, its old `ItemData`.
pub open spec fn restore_writes(layout: GameLayout, b: MapBackup) -> Seq<(u64, WriteValue)> {
    seq![
        ((b.juice + layout.nel_category) as u64, WriteValue::U32(b.cat)),
        ((b.juice + layout.nel_fn_get_detail) as u64, WriteValue::U64(b.fn_detail)),
        ((b.juice + layout.nel_key) as u64, WriteValue::U64(b.key_ptr)),
    ] + if b.def_cane != 0 {
        seq![((b.def_cane + layout.cane_item_data) as u64, WriteValue::U64(b.itemdata))]
    } else {
        seq![]
    }
}

/// Plans undoing a mapping.
pub fn plan_restore_juice_map(layout: &GameLayout, bak: &MapBackup) -> (r: Result<Vec<MemWrite>, String>)
    requires
        map_addrs_ok(*layout, bak.juice, bak.def_cane),
    ensures
        (!bak.applied || bak.juice == 0) ==> (r matches Err(m) && m@ == "没有可恢复的映射备份"@),
        (bak.applied && bak.juice != 0) ==> (r matches Ok(ws) && writes_view(ws@) == restore_writes(*layout, *bak)
            && write_names(ws@) == restore_write_names(*bak)),
{
    if !bak.applied || bak.juice == 0 {
        return Err(String::from_str("没有可恢复的映射备份"));
    }
    let mut ws: Vec<MemWrite> = Vec::new();
    ws.push(MemWrite { addr: bak.juice + layout.nel_category, value: WriteValue::U32(bak.cat), name: "restore category" });
    ws.push(MemWrite { addr: bak.juice + layout.nel_fn_get_detail, value: WriteValue::U64(bak.fn_detail), name: "restore FnGetDetail" });
    ws.push(MemWrite { addr: bak.juice + layout.nel_key, value: WriteValue::U64(bak.key_ptr), name: "restore key" });
    if bak.def_cane != 0 {
        ws.push(MemWrite { addr: bak.def_cane + layout.cane_item_data, value: WriteValue::U64(bak.itemdata), name: "restore ItemData" });
    }
    assert(writes_view(ws@) =~= restore_writes(*layout, *bak));
    assert(write_names(ws@) =~= restore_write_names(*bak));
    Ok(ws)
}

/// Restoring undoes mapping: after a successful plan, the restore stores hit
/// the same addresses in the same order, each putting back the value that
/// was read there before the mapping.
pub proof fn lemma_restore_undoes_map(layout: GameLayout, j: u64, d: u64, reads_cat: u32, reads_fn: u64, reads_key: u64, reads_itemdata: u64, new_cat: u32, cane_fn: u64, default_str: u64, bak: MapBackup)
    requires
        j != 0,
        d != 0,
        bak.juice == j,
        bak.def_cane == d,
        bak.cat == reads_cat,
        bak.fn_detail == reads_fn,
        bak.key_ptr == reads_key,
        bak.itemdata == reads_itemdata,
        bak.applied,
    ensures
        ({
            let applied = map_writes(layout, j, d, new_cat, cane_fn, default_str);
            let undone = restore_writes(layout, bak);
            let before = seq![
                WriteValue::U32(reads_cat),
                WriteValue::U64(reads_fn),
                WriteValue::U64(reads_key),
                WriteValue::U64(reads_itemdata),
            ];
            &&& undone.len() == applied.len()
            &&& forall|k: int| 0 <= k < applied.len() ==> (#[trigger] undone[k]).0 == applied[k].0 && undone[k].1 == before[k]
        }),
{
    let undone = restore_writes(layout, bak);
    assert(undone.len() == 4);
}

} // verus!
