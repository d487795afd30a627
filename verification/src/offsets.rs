//! Where the game keeps the fields this tool reads and writes.
use vstd::prelude::*;

verus! {

/// Field offsets and item facts of one game build. The values belong to the
/// game version this tool supports and are supplied by the caller.
#[derive(Clone, Copy, Debug)]
pub struct GameLayout {
    /// `NelItem`: the item's key string.
    pub nel_key: u64,
    /// `NelItem`: the item's price (32-bit).
    pub nel_price: u64,
    /// `NelItem`: the item's numeric id (16-bit).
    pub nel_id: u64,
    /// `NelItem`: the category bit field (32-bit).
    pub nel_category: u64,
    /// `NelItem`: the `FnGetDetail` delegate.
    pub nel_fn_get_detail: u64,
    /// `CaneItem`: its `ItemData` reference.
    pub cane_item_data: u64,
    /// `CaneItem`: its key string.
    pub cane_key: u64,
    /// `CaneItem`: the `near_power` value array, the template for missing arrays.
    pub cane_near_power: u64,
    /// Category bits that mark a cane.
    pub cat_cane_bits: u32,
    /// Mask of the category bits that tell the item kind.
    pub cat_cane_mask: u32,
    /// Price of the beginner's cane.
    pub cane_price: i32,
    /// Id of the beginner's cane.
    pub cane_id: u16,
    /// Price of Noel juice.
    pub juice_price: i32,
    /// `PrCaneEquip`: its source `CaneItem`.
    pub pe_src_cane: u64,
    /// `PrCaneEquip`: its grade byte.
    pub pe_grade: u64,
    /// `PrCaneEquip`: the float fields, in the order of `PrField`.
    pub pe_near_power: u64,
    pub pe_near_shotgun: u64,
    pub pe_near_reach: u64,
    pub pe_near_punch: u64,
    pub pe_magic_prepare: u64,
    pub pe_drain_after_lock: u64,
    pub pe_lockon: u64,
    pub pe_far_power: u64,
    pub pe_mana_splash: u64,
    pub pe_mp_use: u64,
    pub pe_stability: u64,
    pub pe_neutral: u64,
    pub pe_castspeed: u64,
    pub pe_castspeed_overhold: u64,
    /// Mono array: its 32-bit length.
    pub arr_len: u64,
    /// Mono array: its first element.
    pub arr_data: u64,
}

/// Key of the beginner's cane item.
pub const CANE_ITEM_KEY: &'static str = "cane_default";

/// Key of the Noel juice item.
pub const JUICE_ITEM_KEY: &'static str = "mtr_noel_juice0";

} // verus!
