//! The cane's radar axes: which fields each axis sets, and the value arrays
//! of the cane item. The arithmetic between displayed values and fields is
//! floating point and lives with the program.
use crate::offsets::GameLayout;
use crate::text::{append_string, fmt_hex, hex_text};
use vstd::bytes::{spec_u32_from_le_bytes, spec_u32_to_le_bytes, u32_from_le_bytes, u32_to_le_bytes};
use vstd::prelude::*;
use vstd::slice::slice_subrange;
use vstd::string::StringExecFns;

verus! {

/// One axis of the radar chart.
#[derive(Clone, Copy, Debug)]
pub struct AxisDef {
    pub id: u8,
    pub name_zh: &'static str,
    pub formula_hint: &'static str,
}

/// Chinese name of axis `k` (0 to 8) on the radar chart.
pub open spec fn axis_name(k: int) -> Seq<char> {
    if k == 0 {
        "近战攻击距离"@
    } else if k == 1 {
        "近战威力"@
    } else if k == 2 {
        "射击威力"@
    } else if k == 3 {
        "锁定性能"@
    } else if k == 4 {
        "魔力稳定性"@
    } else if k == 5 {
        "魔力消耗效率"@
    } else if k == 6 {
        "魔力亲和性"@
    } else if k == 7 {
        "咏唱速度"@
    } else {
        "近战挥击速度"@
    }
}

/// How the displayed value of axis `k` (0 to 8) relates to the fields.
pub open spec fn axis_hint(k: int) -> Seq<char> {
    if k == 0 {
        "显示值 ≈ 50 × near_reach  →  字段 = 显示值 / 50"@
    } else if k == 1 {
        "显示=50×[1+(near_power-1)×0.25]×near_shotgun×1.1（本工具令二者=x）"@
    } else if k == 2 {
        "显示值 ≈ 50 × far_power × 0.92  →  字段 = 显示值 / 46"@
    } else if k == 3 {
        "显示值 ≈ 50 × lockon_power  →  字段 = 显示值 / 50"@
    } else if k == 4 {
        "显示值 ≈ 50 × stability × mana_splash × 1.1 × overhold^0.75 × drain^0.5\n  （本工具只改 stability，其余保持当前读值）→ stability = 显示值 / 分母"@
    } else if k == 5 {
        "目标<65：mp=sqrt(65/目标)；目标65–169：mp=(169-目标)/104"@
    } else if k == 6 {
        "显示值 ≈ 50 × neutral × 1.2  →  字段 = 显示值 / 60"@
    } else if k == 7 {
        "简化：显示值 ≈ 50 × castspeed（magic_prepare/overhold 保持当前）→ castspeed = 显示值 / 50"@
    } else {
        "显示值 ≈ 50 × near_punch_speed  →  字段 = 显示值 / 50"@
    }
}

/// The nine axes, in display order, with their names and formula hints.
pub fn axes() -> (v: Vec<AxisDef>)
    ensures
        v@.len() == 9,
        forall|k: int| 0 <= k < 9 ==> (#[trigger] v@[k]).id == k && v@[k].name_zh@ == axis_name(k) && v@[k].formula_hint@
            == axis_hint(k),
{
    let v = vec![
        AxisDef { id: 0, name_zh: "近战攻击距离", formula_hint: "显示值 ≈ 50 × near_reach  →  字段 = 显示值 / 50" },
        AxisDef { id: 1, name_zh: "近战威力", formula_hint: "显示=50×[1+(near_power-1)×0.25]×near_shotgun×1.1（本工具令二者=x）" },
        AxisDef { id: 2, name_zh: "射击威力", formula_hint: "显示值 ≈ 50 × far_power × 0.92  →  字段 = 显示值 / 46" },
        AxisDef { id: 3, name_zh: "锁定性能", formula_hint: "显示值 ≈ 50 × lockon_power  →  字段 = 显示值 / 50" },
        AxisDef { id: 4, name_zh: "魔力稳定性", formula_hint: "显示值 ≈ 50 × stability × mana_splash × 1.1 × overhold^0.75 × drain^0.5\n  （本工具只改 stability，其余保持当前读值）→ stability = 显示值 / 分母" },
        AxisDef { id: 5, name_zh: "魔力消耗效率", formula_hint: "目标<65：mp=sqrt(65/目标)；目标65–169：mp=(169-目标)/104" },
        AxisDef { id: 6, name_zh: "魔力亲和性", formula_hint: "显示值 ≈ 50 × neutral × 1.2  →  字段 = 显示值 / 60" },
        AxisDef { id: 7, name_zh: "咏唱速度", formula_hint: "简化：显示值 ≈ 50 × castspeed（magic_prepare/overhold 保持当前）→ castspeed = 显示值 / 50" },
        AxisDef { id: 8, name_zh: "近战挥击速度", formula_hint: "显示值 ≈ 50 × near_punch_speed  →  字段 = 显示值 / 50" },
    ];
    v
}

/// The float fields of `PrCaneEquip`.
#[derive(Clone, Copy, Debug, PartialEq, Eq, Structural)]
pub enum PrField {
    NearPower,
    NearShotgun,
    NearReach,
    NearPunch,
    MagicPrepare,
    DrainAfterLock,
    Lockon,
    FarPower,
    ManaSplash,
    MpUse,
    Stability,
    Neutral,
    Castspeed,
    CastspeedOverhold,
}

pub open spec fn field_offset(layout: GameLayout, f: PrField) -> u64 {
    match f {
        PrField::NearPower => layout.pe_near_power,
        PrField::NearShotgun => layout.pe_near_shotgun,
        PrField::NearReach => layout.pe_near_reach,
        PrField::NearPunch => layout.pe_near_punch,
        PrField::MagicPrepare => layout.pe_magic_prepare,
        PrField::DrainAfterLock => layout.pe_drain_after_lock,
        PrField::Lockon => layout.pe_lockon,
        PrField::FarPower => layout.pe_far_power,
        PrField::ManaSplash => layout.pe_mana_splash,
        PrField::MpUse => layout.pe_mp_use,
        PrField::Stability => layout.pe_stability,
        PrField::Neutral => layout.pe_neutral,
        PrField::Castspeed => layout.pe_castspeed,
        PrField::CastspeedOverhold => layout.pe_castspeed_overhold,
    }
}

/// Offset of a field within `PrCaneEquip`.
pub fn pr_field_offset(layout: &GameLayout, f: PrField) -> (off: u64)
    ensures
        off == field_offset(*layout, f),
{
    match f {
        PrField::NearPower => layout.pe_near_power,
        PrField::NearShotgun => layout.pe_near_shotgun,
        PrField::NearReach => layout.pe_near_reach,
        PrField::NearPunch => layout.pe_near_punch,
        PrField::MagicPrepare => layout.pe_magic_prepare,
        PrField::DrainAfterLock => layout.pe_drain_after_lock,
        PrField::Lockon => layout.pe_lockon,
        PrField::FarPower => layout.pe_far_power,
        PrField::ManaSplash => layout.pe_mana_splash,
        PrField::MpUse => layout.pe_mp_use,
        PrField::Stability => layout.pe_stability,
        PrField::Neutral => layout.pe_neutral,
        PrField::Castspeed => layout.pe_castspeed,
        PrField::CastspeedOverhold => layout.pe_castspeed_overhold,
    }
}

/// The fields an axis sets: one each, but two for melee power.
pub open spec fn axis_fields_spec(axis_id: u8) -> Option<Seq<PrField>> {
    if axis_id == 0 {
        Some(seq![PrField::NearReach])
    } else if axis_id == 1 {
        Some(seq![PrField::NearPower, PrField::NearShotgun])
    } else if axis_id == 2 {
        Some(seq![PrField::FarPower])
    } else if axis_id == 3 {
        Some(seq![PrField::Lockon])
    } else if axis_id == 4 {
        Some(seq![PrField::Stability])
    } else if axis_id == 5 {
        Some(seq![PrField::MpUse])
    } else if axis_id == 6 {
        Some(seq![PrField::Neutral])
    } else if axis_id == 7 {
        Some(seq![PrField::Castspeed])
    } else if axis_id == 8 {
        Some(seq![PrField::NearPunch])
    } else {
        None
    }
}

pub fn axis_fields(axis_id: u8) -> (r: Result<Vec<PrField>, String>)
    ensures
        match axis_fields_spec(axis_id) {
            Some(fs) => r matches Ok(v) && v@ == fs,
            None => r matches Err(m) && m@ == "未知轴"@,
        },
{
    let v = if axis_id == 0 {
        vec![PrField::NearReach]
    } else if axis_id == 1 {
        vec![PrField::NearPower, PrField::NearShotgun]
    } else if axis_id == 2 {
        vec![PrField::FarPower]
    } else if axis_id == 3 {
        vec![PrField::Lockon]
    } else if axis_id == 4 {
        vec![PrField::Stability]
    } else if axis_id == 5 {
        vec![PrField::MpUse]
    } else if axis_id == 6 {
        vec![PrField::Neutral]
    } else if axis_id == 7 {
        vec![PrField::Castspeed]
    } else if axis_id == 8 {
        vec![PrField::NearPunch]
    } else {
        return Err(String::from_str("未知轴"));
    };
    assert(axis_fields_spec(axis_id) == Some(v@));
    Ok(v)
}

/// The word by which the formula hints name a field.
pub open spec fn field_word(f: PrField) -> Seq<char> {
    match f {
        PrField::NearPower => "near_power"@,
        PrField::NearShotgun => "near_shotgun"@,
        PrField::NearReach => "near_reach"@,
        PrField::NearPunch => "near_punch"@,
        PrField::MagicPrepare => "magic_prepare"@,
        PrField::DrainAfterLock => "drain"@,
        PrField::Lockon => "lockon"@,
        PrField::FarPower => "far_power"@,
        PrField::ManaSplash => "mana_splash"@,
        PrField::MpUse => "mp"@,
        PrField::Stability => "stability"@,
        PrField::Neutral => "neutral"@,
        PrField::Castspeed => "castspeed"@,
        PrField::CastspeedOverhold => "overhold"@,
    }
}

/// `w` occurs in `h`.
pub open spec fn mentions(h: Seq<char>, w: Seq<char>) -> bool {
    exists|i: int| 0 <= i && i + w.len() <= h.len() && #[trigger] h.subrange(i, i + w.len()) == w
}

/// Each radar axis sets fields, and only fields that its formula hint (the
/// text shown when the axis is edited) names: the lock-on axis sets
/// `lockon`, the mana-affinity axis `neutral`, and so on.
pub proof fn lemma_axis_fields_named(k: u8)
    requires
        k < 9,
    ensures
        axis_fields_spec(k) matches Some(fs) && fs.len() > 0 && forall|j: int|
            0 <= j < fs.len() ==> mentions(axis_hint(k as int), field_word(#[trigger] fs[j])),
{
    if k == 0 {
        reveal_strlit("显示值 ≈ 50 × near_reach  →  字段 = 显示值 / 50");
        reveal_strlit("near_reach");
        assert(axis_hint(0).subrange(11 as int, 11 + field_word(PrField::NearReach).len() as int) =~= field_word(PrField::NearReach));
        assert(mentions(axis_hint(0), field_word(PrField::NearReach)));
    } else if k == 1 {
        reveal_strlit("显示=50×[1+(near_power-1)×0.25]×near_shotgun×1.1（本工具令二者=x）");
        reveal_strlit("near_power");
        assert(axis_hint(1).subrange(10 as int, 10 + field_word(PrField::NearPower).len() as int) =~= field_word(PrField::NearPower));
        assert(mentions(axis_hint(1), field_word(PrField::NearPower)));
        reveal_strlit("near_shotgun");
        assert(axis_hint(1).subrange(30 as int, 30 + field_word(PrField::NearShotgun).len() as int) =~= field_word(PrField::NearShotgun));
        assert(mentions(axis_hint(1), field_word(PrField::NearShotgun)));
    } else if k == 2 {
        reveal_strlit("显示值 ≈ 50 × far_power × 0.92  →  字段 = 显示值 / 46");
        reveal_strlit("far_power");
        assert(axis_hint(2).subrange(11 as int, 11 + field_word(PrField::FarPower).len() as int) =~= field_word(PrField::FarPower));
        assert(mentions(axis_hint(2), field_word(PrField::FarPower)));
    } else if k == 3 {
        reveal_strlit("显示值 ≈ 50 × lockon_power  →  字段 = 显示值 / 50");
        reveal_strlit("lockon");
        assert(axis_hint(3).subrange(11 as int, 11 + field_word(PrField::Lockon).len() as int) =~= field_word(PrField::Lockon));
        assert(mentions(axis_hint(3), field_word(PrField::Lockon)));
    } else if k == 4 {
        reveal_strlit("显示值 ≈ 50 × stability × mana_splash × 1.1 × overhold^0.75 × drain^0.5\n  （本工具只改 stability，其余保持当前读值）→ stability = 显示值 / 分母");
        reveal_strlit("stability");
        assert(axis_hint(4).subrange(11 as int, 11 + field_word(PrField::Stability).len() as int) =~= field_word(PrField::Stability));
        assert(mentions(axis_hint(4), field_word(PrField::Stability)));
    } else if k == 5 {
        reveal_strlit("目标<65：mp=sqrt(65/目标)；目标65–169：mp=(169-目标)/104");
        reveal_strlit("mp");
        assert(axis_hint(5).subrange(6 as int, 6 + field_word(PrField::MpUse).len() as int) =~= field_word(PrField::MpUse));
        assert(mentions(axis_hint(5), field_word(PrField::MpUse)));
    } else if k == 6 {
        reveal_strlit("显示值 ≈ 50 × neutral × 1.2  →  字段 = 显示值 / 60");
        reveal_strlit("neutral");
        assert(axis_hint(6).subrange(11 as int, 11 + field_word(PrField::Neutral).len() as int) =~= field_word(PrField::Neutral));
        assert(mentions(axis_hint(6), field_word(PrField::Neutral)));
    } else if k == 7 {
        reveal_strlit("简化：显示值 ≈ 50 × castspeed（magic_prepare/overhold 保持当前）→ castspeed = 显示值 / 50");
        reveal_strlit("castspeed");
        assert(axis_hint(7).subrange(14 as int, 14 + field_word(PrField::Castspeed).len() as int) =~= field_word(PrField::Castspeed));
        assert(mentions(axis_hint(7), field_word(PrField::Castspeed)));
    } else if k == 8 {
        reveal_strlit("显示值 ≈ 50 × near_punch_speed  →  字段 = 显示值 / 50");
        reveal_strlit("near_punch");
        assert(axis_hint(8).subrange(11 as int, 11 + field_word(PrField::NearPunch).len() as int) =~= field_word(PrField::NearPunch));
        assert(mentions(axis_hint(8), field_word(PrField::NearPunch)));
    }
}

/// Two different axes share no field: writing one axis leaves the fields of
/// every other axis as they were.
pub proof fn lemma_axes_disjoint(a: u8, b: u8)
    requires
        a != b,
    ensures
        (axis_fields_spec(a), axis_fields_spec(b)) matches (Some(fa), Some(fb)) ==> forall|i: int, j: int|
            0 <= i < fa.len() && 0 <= j < fb.len() ==> #[trigger] fa[i] != #[trigger] fb[j],
{
}

/// How the second element of a cane-table array follows the first.
#[derive(Clone, Copy, Debug, PartialEq, Eq, Structural)]
pub enum HiScale {
    /// The same value.
    Same,
    /// 1.15 times the value.
    Times115,
    /// 1.1 times the value.
    Times110,
    /// 1.1 times the value, at most 5.
    Times110AtMost5,
}

/// One value array of the cane item that an axis updates.
#[derive(Clone, Copy, Debug, PartialEq, Eq, Structural)]
pub struct TableSlot {
    /// Offset of the array reference within the cane item.
    pub off: u64,
    /// The field whose value goes into the array.
    pub field: PrField,
    /// The second element.
    pub hi: HiScale,
}

pub open spec fn table_slots_spec(layout: GameLayout, axis_id: u8) -> Option<Seq<TableSlot>> {
    if axis_id == 0 {
        Some(seq![TableSlot { off: 0x58, field: PrField::NearReach, hi: HiScale::Same }])
    } else if axis_id == 1 {
        Some(seq![
            TableSlot { off: layout.cane_near_power, field: PrField::NearPower, hi: HiScale::Times115 },
            TableSlot { off: 0x50, field: PrField::NearShotgun, hi: HiScale::Times115 },
        ])
    } else if axis_id == 2 {
        Some(seq![TableSlot { off: 0x70, field: PrField::FarPower, hi: HiScale::Times115 }])
    } else if axis_id == 3 {
        Some(seq![TableSlot { off: 0xB0, field: PrField::Lockon, hi: HiScale::Times110 }])
    } else if axis_id == 4 {
        Some(seq![TableSlot { off: 0x88, field: PrField::Stability, hi: HiScale::Times110 }])
    } else if axis_id == 5 {
        Some(seq![TableSlot { off: 0x80, field: PrField::MpUse, hi: HiScale::Times110AtMost5 }])
    } else if axis_id == 6 {
        Some(seq![TableSlot { off: 0x90, field: PrField::Neutral, hi: HiScale::Times110 }])
    } else if axis_id == 7 {
        Some(seq![TableSlot { off: 0x98, field: PrField::Castspeed, hi: HiScale::Times110 }])
    } else if axis_id == 8 {
        Some(seq![TableSlot { off: 0x60, field: PrField::NearPunch, hi: HiScale::Same }])
    } else {
        None
    }
}

/// The cane item's value arrays that an axis updates.
pub fn table_slots(layout: &GameLayout, axis_id: u8) -> (r: Result<Vec<TableSlot>, String>)
    ensures
        match table_slots_spec(*layout, axis_id) {
            Some(ts) => r matches Ok(v) && v@ == ts,
            None => r matches Err(m) && m@ == "未知轴"@,
        },
{
    let v = if axis_id == 0 {
        vec![TableSlot { off: 0x58, field: PrField::NearReach, hi: HiScale::Same }]
    } else if axis_id == 1 {
        vec![
            TableSlot { off: layout.cane_near_power, field: PrField::NearPower, hi: HiScale::Times115 },
            TableSlot { off: 0x50, field: PrField::NearShotgun, hi: HiScale::Times115 },
        ]
    } else if axis_id == 2 {
        vec![TableSlot { off: 0x70, field: PrField::FarPower, hi: HiScale::Times115 }]
    } else if axis_id == 3 {
        vec![TableSlot { off: 0xB0, field: PrField::Lockon, hi: HiScale::Times110 }]
    } else if axis_id == 4 {
        vec![TableSlot { off: 0x88, field: PrField::Stability, hi: HiScale::Times110 }]
    } else if axis_id == 5 {
        vec![TableSlot { off: 0x80, field: PrField::MpUse, hi: HiScale::Times110AtMost5 }]
    } else if axis_id == 6 {
        vec![TableSlot { off: 0x90, field: PrField::Neutral, hi: HiScale::Times110 }]
    } else if axis_id == 7 {
        vec![TableSlot { off: 0x98, field: PrField::Castspeed, hi: HiScale::Times110 }]
    } else if axis_id == 8 {
        vec![TableSlot { off: 0x60, field: PrField::NearPunch, hi: HiScale::Same }]
    } else {
        return Err(String::from_str("未知轴"));
    };
    assert(table_slots_spec(*layout, axis_id) == Some(v@));
    Ok(v)
}

/// Every axis that sets fields of the equipped cane also updates the cane
/// item's arrays of the same fields, in the same order.
pub proof fn lemma_slots_match_fields(layout: GameLayout, axis_id: u8)
    ensures
        axis_fields_spec(axis_id) is Some <==> table_slots_spec(layout, axis_id) is Some,
        axis_fields_spec(axis_id) matches Some(fs) ==> {
            let ts = table_slots_spec(layout, axis_id)->0;
            &&& ts.len() == fs.len()
            &&& forall|k: int| 0 <= k < fs.len() ==> (#[trigger] ts[k]).field == fs[k]
        },
{
}

// ---------------------------------------------------------------------------
// Value arrays
// ---------------------------------------------------------------------------

/// Length of a Mono array header.
pub const ARRAY_HEADER_LEN: usize = 32;

/// The element count of a new array made from a template header: the
/// template's count, at least two.
pub open spec fn new_array_count(header: Seq<u8>) -> u32 {
    let n = spec_u32_from_le_bytes(header.subrange(0x18, 0x1C));
    if n < 2 { 2 } else { n }
}

/// A template header with its bounds, length and count words (at 0x10, 0x14
/// and 0x18) all set to `n`.
pub open spec fn array_header_with(header: Seq<u8>, n: u32) -> Seq<u8> {
    header.subrange(0, 0x10) + spec_u32_to_le_bytes(n) + spec_u32_to_le_bytes(n) + spec_u32_to_le_bytes(n)
        + header.subrange(0x1C, 0x20)
}

/// The header and allocation size of an array made from a template array's
/// header: the count is the template's, at least two, written into the
/// bounds, length and count words; the size covers the header and four bytes
/// per element.
pub fn array_from_template(header: &[u8]) -> (r: (Vec<u8>, u64))
    requires
        header@.len() == ARRAY_HEADER_LEN,
    ensures
        r.0@ == array_header_with(header@, new_array_count(header@)),
        r.1 == 0x20 + 4 * new_array_count(header@),
{
    let n0 = u32_from_le_bytes(slice_subrange(header, 0x18, 0x1C));
    let n = if n0 < 2 {
        2
    } else {
        n0
    };
    let mut out = vstd::slice::slice_to_vec(slice_subrange(header, 0, 0x10));
    let mut a = u32_to_le_bytes(n);
    let mut b = u32_to_le_bytes(n);
    let mut c = u32_to_le_bytes(n);
    out.append(&mut a);
    out.append(&mut b);
    out.append(&mut c);
    let mut tail = vstd::slice::slice_to_vec(slice_subrange(header, 0x1C, 0x20));
    out.append(&mut tail);
    assert(out@ =~= array_header_with(header@, n));
    (out, 0x20 + 4 * (n as u64))
}

/// An array reference read from the cane item can be written through when
/// it was read, is not null, and is a readable user-space pointer.
pub fn usable_array(arr: Option<u64>, readable: bool) -> (r: Option<u64>)
    ensures
        r == (if arr matches Some(a) && a != 0 && crate::mem::user_ptr_shape(a) && readable {
            arr
        } else {
            None::<u64>
        }),
{
    match arr {
        Some(a) => {
            if a != 0 && crate::mem::is_user_ptr_shape(a) && readable {
                Some(a)
            } else {
                None
            }
        },
        None => None,
    }
}

/// How many elements of an array are written: both when its length was read
/// as two or more, else only the first (an unreadable length counts as one).
pub fn elements_to_write(len: Option<u32>) -> (n: usize)
    ensures
        n == (if len matches Some(l) && l >= 2 { 2usize } else { 1usize }),
{
    let l = match len {
        Some(l) => l,
        None => 1,
    };
    if l >= 2 {
        2
    } else {
        1
    }
}

/// The message for a failed write of element `index` of the array at `off`.
pub fn array_write_failed(index: usize, off: u64) -> (m: String)
    requires
        index < 2,
    ensures
        m@ == (if index == 0 { "write array[0] cane+"@ } else { "write array[1] cane+"@ }) + hex_text(off as nat),
{
    let mut m = if index == 0 {
        String::from_str("write array[0] cane+")
    } else {
        String::from_str("write array[1] cane+")
    };
    append_string(&mut m, &fmt_hex(off));
    m
}

} // verus!
