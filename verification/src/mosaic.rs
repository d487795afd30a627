//! Disabling the dynamic mosaic by making `MosaicShower.FnDrawMosaic` return
//! at once, and restoring it.
use crate::mem::{USER_MAX, USER_MIN};
use crate::text::{append_string, fmt_hex, hex_text};
use vstd::prelude::*;
use vstd::string::StringExecFns;

verus! {

/// `xor eax, eax; ret`: the entry of the patched method.
pub const MOSAIC_PATCH: [u8; 3] = [0x31, 0xC0, 0xC3];

/// Where the patch was written and what it overwrote.
#[derive(Clone, Debug)]
pub struct MosaicPatch {
    pub addr: u64,
    pub orig: Option<[u8; 3]>,
    pub applied: bool,
}

impl MosaicPatch {
    pub fn empty() -> (p: Self)
        ensures
            p.addr == 0,
            p.orig is None,
            !p.applied,
    {
        MosaicPatch { addr: 0, orig: None, applied: false }
    }
}

fn msg_with_addr(prefix: &str, addr: u64) -> (m: String)
    ensures
        m@ == prefix@ + hex_text(addr as nat),
{
    let mut m = String::from_str(prefix);
    append_string(&mut m, &fmt_hex(addr));
    m
}

/// The compiled method's entry must be a user-space address.
pub fn check_entry_addr(addr: u64) -> (r: Result<(), String>)
    ensures
        (addr != 0 && USER_MIN <= addr && addr <= USER_MAX) ==> r is Ok,
        !(addr != 0 && USER_MIN <= addr && addr <= USER_MAX) ==> (r matches Err(m) && m@
            == "FnDrawMosaic 原生地址无效: "@ + hex_text(addr as nat)),
{
    if addr == 0 || !(USER_MIN <= addr && addr <= USER_MAX) {
        return Err(msg_with_addr("FnDrawMosaic 原生地址无效: ", addr));
    }
    Ok(())
}

/// What the entry bytes say before patching: unreadable is an error; the
/// patch already in place is kept, with the earlier backup when it was taken
/// at the same address; anything else is to be patched (`Ok(None)`).
pub open spec fn head_verdict_ok(addr: u64, head: Option<[u8; 3]>, prev: MosaicPatch, r: Result<Option<MosaicPatch>, String>) -> bool {
    match head {
        None => r matches Err(m) && m@ == "读取 FnDrawMosaic 入口失败 addr="@ + hex_text(addr as nat),
        Some(h) => if h@ == MOSAIC_PATCH@ {
            r matches Ok(Some(p)) && p.addr == addr && p.applied && p.orig == (if prev.addr == addr {
                prev.orig
            } else {
                None
            })
        } else {
            r matches Ok(None)
        },
    }
}

fn same3(a: &[u8; 3], b: &[u8; 3]) -> (r: bool)
    ensures
        r == (a@ == b@),
{
    let r = a[0] == b[0] && a[1] == b[1] && a[2] == b[2];
    if r {
        assert(a@ =~= b@);
    }
    r
}

pub fn check_head(addr: u64, head: Option<[u8; 3]>, prev: &MosaicPatch) -> (r: Result<Option<MosaicPatch>, String>)
    ensures
        head_verdict_ok(addr, head, *prev, r),
{
    match head {
        None => Err(msg_with_addr("读取 FnDrawMosaic 入口失败 addr=", addr)),
        Some(h) => {
            if same3(&h, &MOSAIC_PATCH) {
                let orig = if prev.addr == addr {
                    prev.orig
                } else {
                    None
                };
                Ok(Some(MosaicPatch { addr, orig, applied: true }))
            } else {
                Ok(None)
            }
        },
    }
}

/// The patch must have been written.
pub fn check_mosaic_written(addr: u64, written: bool) -> (r: Result<(), String>)
    ensures
        written ==> r is Ok,
        !written ==> (r matches Err(m) && m@ == "写入马赛克补丁失败 addr="@ + hex_text(addr as nat)),
{
    if written {
        Ok(())
    } else {
        Err(msg_with_addr("写入马赛克补丁失败 addr=", addr))
    }
}

/// Reading the entry back confirms the patch; the backup then holds the
/// bytes that were there before.
pub open spec fn verify_verdict_ok(addr: u64, head: [u8; 3], back: Option<[u8; 3]>, r: Result<MosaicPatch, String>) -> bool {
    if back matches Some(b) && b@ == MOSAIC_PATCH@ {
        r matches Ok(p) && p.addr == addr && p.orig == Some(head) && p.applied
    } else {
        r matches Err(m) && m@ == "补丁校验失败 addr="@ + hex_text(addr as nat)
    }
}

pub fn check_mosaic_verify(addr: u64, head: [u8; 3], back: Option<[u8; 3]>) -> (r: Result<MosaicPatch, String>)
    ensures
        verify_verdict_ok(addr, head, back, r),
{
    match back {
        Some(b) => {
            if same3(&b, &MOSAIC_PATCH) {
                return Ok(MosaicPatch { addr, orig: Some(head), applied: true });
            }
        },
        None => {},
    }
    Err(msg_with_addr("补丁校验失败 addr=", addr))
}

/// What restoring writes: the saved bytes back at the patched address.
pub open spec fn restore_verdict(bak: MosaicPatch) -> Option<(u64, [u8; 3])> {
    if !bak.applied || bak.addr == 0 {
        None
    } else {
        match bak.orig {
            Some(o) => Some((bak.addr, o)),
            None => None,
        }
    }
}

/// Plans restoring: the address and the bytes to write back.
pub fn plan_mosaic_restore(bak: &MosaicPatch) -> (r: Result<(u64, [u8; 3]), String>)
    ensures
        (!bak.applied || bak.addr == 0) ==> (r matches Err(m) && m@ == "没有可恢复的马赛克补丁"@),
        (bak.applied && bak.addr != 0 && bak.orig is None) ==> (r matches Err(m) && m@
            == "无原始字节备份，请重启游戏"@),
        r is Ok ==> restore_verdict(*bak) == Some(r->Ok_0),
        restore_verdict(*bak) is Some ==> r is Ok,
{
    if !bak.applied || bak.addr == 0 {
        return Err(String::from_str("没有可恢复的马赛克补丁"));
    }
    match bak.orig {
        Some(o) => Ok((bak.addr, o)),
        None => Err(String::from_str("无原始字节备份，请重启游戏")),
    }
}

/// The message when writing the saved bytes back failed.
pub fn restore_failed_message(addr: u64) -> (m: String)
    ensures
        m@ == "恢复马赛克失败 addr="@ + hex_text(addr as nat),
{
    msg_with_addr("恢复马赛克失败 addr=", addr)
}

/// Restoring undoes patching: once a patch is confirmed, restoring writes
/// back, at the patched address, exactly the bytes that were read there
/// before patching.
pub proof fn lemma_restore_undoes_patch(addr: u64, head: [u8; 3], back: Option<[u8; 3]>, p: MosaicPatch)
    requires
        addr != 0,
        verify_verdict_ok(addr, head, back, Ok(p)),
    ensures
        restore_verdict(p) == Some((addr, head)),
{
}

/// Patching twice keeps the first backup: finding the patch already in place
/// at the address of the earlier patch keeps the bytes saved then.
pub proof fn lemma_repatch_keeps_backup(addr: u64, prev: MosaicPatch, r: Result<Option<MosaicPatch>, String>)
    requires
        prev.addr == addr,
        head_verdict_ok(addr, Some(MOSAIC_PATCH), prev, r),
    ensures
        r matches Ok(Some(p)) && p.orig == prev.orig && p.addr == addr,
{
}

pub open spec fn mosaic_status_text(bak: MosaicPatch, cur: Option<[u8; 3]>) -> Seq<char> {
    if !bak.applied || bak.addr == 0 {
        "关"@
    } else {
        match cur {
            None => "地址不可读 (addr="@ + hex_text(bak.addr as nat) + ")"@,
            Some(c) => if c@ == MOSAIC_PATCH@ {
                "已禁用 (addr="@ + hex_text(bak.addr as nat) + ")"@
            } else {
                "已恢复/未生效 (addr="@ + hex_text(bak.addr as nat) + ")"@
            },
        }
    }
}

/// The menu's status of the mosaic patch, from the bytes read at the patched
/// address (`None` when unreadable).
pub fn status_text(bak: &MosaicPatch, cur: Option<[u8; 3]>) -> (s: String)
    ensures
        s@ == mosaic_status_text(*bak, cur),
{
    if !bak.applied || bak.addr == 0 {
        return String::from_str("关");
    }
    let mut s = match cur {
        None => String::from_str("地址不可读 (addr="),
        Some(c) => {
            if same3(&c, &MOSAIC_PATCH) {
                String::from_str("已禁用 (addr=")
            } else {
                String::from_str("已恢复/未生效 (addr=")
            }
        },
    };
    append_string(&mut s, &fmt_hex(bak.addr));
    s.append(")");
    s
}

} // verus!
