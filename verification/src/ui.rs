//! Decisions of the interactive menu.
use crate::text::{append_string, fmt_hex, hex_text};
use vstd::prelude::*;
use vstd::string::StringExecFns;

verus! {

/// Name of the game's process.
pub const PROC_NAME: &'static str = "AliceInCradle.exe";

/// Whether the game still runs, from the exit-code query (`None` when the
/// query failed).
pub fn alive_check(alive: Option<bool>) -> (r: Result<(), String>)
    ensures
        alive == Some(true) ==> r is Ok,
        alive == Some(false) ==> (r matches Err(m) && m@ == "游戏进程已退出"@),
        alive is None ==> (r matches Err(m) && m@ == "无法查询进程状态"@),
{
    match alive {
        Some(true) => Ok(()),
        Some(false) => Err(String::from_str("游戏进程已退出")),
        None => Err(String::from_str("无法查询进程状态")),
    }
}

/// A remembered address must still be a readable user-space pointer (a null
/// one is not checked).
pub fn cached_addr_check(addr: u64, label: &str, still_valid: bool) -> (r: Result<(), String>)
    ensures
        (addr == 0 || still_valid) ==> r is Ok,
        !(addr == 0 || still_valid) ==> (r matches Err(m) && m@ == label@ + " 地址 "@ + hex_text(addr as nat)
            + " 不再可读，请选 4 重新定位"@),
{
    if addr != 0 && !still_valid {
        let mut m = String::from_str(label);
        m.append(" 地址 ");
        append_string(&mut m, &fmt_hex(addr));
        m.append(" 不再可读，请选 4 重新定位");
        return Err(m);
    }
    Ok(())
}

/// The error for a game version this tool does not support; the list shows
/// the supported version quoted.
pub fn unsupported_version_message(version: &str) -> (m: String)
    ensures
        m@ == "版本 "@ + version@ + " 不在支持列表 [\"0.29j\"]"@,
{
    let mut m = String::from_str("版本 ");
    m.append(version);
    m.append(" 不在支持列表 [\"0.29j\"]");
    m
}

/// A menu entry.
#[derive(Clone, Copy, Debug, PartialEq, Eq, Structural)]
pub enum MenuChoice {
    CaneStats,
    MapJuice,
    RestoreMap,
    Relocate,
    DisableMosaic,
    RestoreMosaic,
    EnableF7,
    Quit,
    Nothing,
}

pub open spec fn menu_choice_of(s: Seq<char>) -> MenuChoice {
    if s == "1"@ {
        MenuChoice::CaneStats
    } else if s == "2"@ {
        MenuChoice::MapJuice
    } else if s == "3"@ {
        MenuChoice::RestoreMap
    } else if s == "4"@ {
        MenuChoice::Relocate
    } else if s == "5"@ {
        MenuChoice::DisableMosaic
    } else if s == "6"@ {
        MenuChoice::RestoreMosaic
    } else if s == "7"@ {
        MenuChoice::EnableF7
    } else if s == "0"@ || s == "q"@ || s == "Q"@ {
        MenuChoice::Quit
    } else {
        MenuChoice::Nothing
    }
}

fn is(line: &String, lit: &str) -> (b: bool)
    ensures
        b == (line@ == lit@),
{
    let t = String::from_str(lit);
    *line == t
}

/// The entry chosen by an input line (already trimmed).
pub fn parse_menu_choice(line: &str) -> (c: MenuChoice)
    ensures
        c == menu_choice_of(line@),
{
    let l = String::from_str(line);
    if is(&l, "1") {
        MenuChoice::CaneStats
    } else if is(&l, "2") {
        MenuChoice::MapJuice
    } else if is(&l, "3") {
        MenuChoice::RestoreMap
    } else if is(&l, "4") {
        MenuChoice::Relocate
    } else if is(&l, "5") {
        MenuChoice::DisableMosaic
    } else if is(&l, "6") {
        MenuChoice::RestoreMosaic
    } else if is(&l, "7") {
        MenuChoice::EnableF7
    } else if is(&l, "0") || is(&l, "q") || is(&l, "Q") {
        MenuChoice::Quit
    } else {
        MenuChoice::Nothing
    }
}

/// Adds an axis to the ones chosen for writing, once.
pub fn select_axis(selected: &mut Vec<u8>, id: u8)
    ensures
        old(selected)@.contains(id) ==> final(selected)@ == old(selected)@,
        !old(selected)@.contains(id) ==> final(selected)@ == old(selected)@.push(id),
{
    let n = selected.len();
    let mut k: usize = 0;
    while k < n
        invariant
            n == selected@.len(),
            k <= n,
            forall|j: int| 0 <= j < k ==> selected@[j] != id,
        decreases n - k,
    {
        if selected[k] == id {
            assert(selected@[k as int] == id);
            return ;
        }
        k = k + 1;
    }
    selected.push(id);
}

} // verus!
