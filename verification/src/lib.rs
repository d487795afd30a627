//! Memory tools for Alice In Cradle: locating game objects by scanning the
//! game's memory, editing the beginner's cane, mapping its radar view onto
//! Noel juice, and patching the mosaic and the debug menu. This crate holds
//! the scanning, parsing and patching decisions; reading and writing the
//! game's memory is done by the caller.
use vstd::prelude::*;

pub mod aob;
pub mod cancel;
pub mod find;
pub mod force_debug_menu;
pub mod formula;
pub mod game_version;
pub mod log;
pub mod map_ui;
pub mod mem;
pub mod mono;
pub mod mosaic;
pub mod offsets;
pub mod text;
pub mod ui;

verus! {
} // verus!
