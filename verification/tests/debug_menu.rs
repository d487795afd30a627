use aic_tools::force_debug_menu::{
    cached_attempt_stands, check_current, check_original, check_verify, check_written,
    classify_il_hits, hex_bytes, region_priority, scan_il_buffer, sort_regions, status_text,
    F7Action, F7Apply, F7Patch, IlScan, IlStep, PatchError, PatchOutcome, IL_BUF_LEN, IL_ORIG,
    IL_PATCH,
};
use std::sync::atomic::AtomicBool;

#[test]
fn hex_bytes_formats_upper_case_pairs() {
    assert_eq!(hex_bytes(&[0x7E, 0x00, 0xAB]), "7E 00 AB");
    assert_eq!(hex_bytes(&[0x05]), "05");
    assert_eq!(hex_bytes(&[]), "");
}

#[test]
fn f7_patch_starts_empty() {
    let p = F7Patch::empty();
    assert_eq!(p.addr, 0);
    assert!(!p.applied);
}

#[test]
fn patch_error_messages() {
    assert_eq!(PatchError::Cancelled.message(), "扫描已取消");
    assert_eq!(
        PatchError::NotFound.message(),
        "未找到 initDebugger IL 特征（游戏未就绪或版本不匹配）"
    );
    assert_eq!(
        PatchError::Multiple { count: 3, sample: vec![0x10, 0xabc] }.message(),
        "IL 特征命中 3 处，拒绝写入（样本: 0x10, 0xabc）"
    );
    assert_eq!(
        PatchError::Unexpected { addr: 0x1000, bytes: vec![0x7E, 0x01] }.message(),
        "地址 0x1000 字节非预期: 7E 01"
    );
    assert_eq!(PatchError::WriteFailed { addr: 0 }.message(), "写入失败 addr=0x0");
    assert_eq!(PatchError::VerifyFailed { addr: 0xff }.message(), "写入后校验失败 addr=0xff");
}

#[test]
fn region_priority_levels() {
    assert_eq!(region_priority(0x1_0000_0000, 0x20_0000), 5);
    assert_eq!(region_priority(0x1000, 0x20_0000), 3);
    assert_eq!(region_priority(0x1_0000_0000, 0x1000), 2);
    assert_eq!(region_priority(0x1000, 0x1000), 0);
    assert_eq!(region_priority(0x1_0000_0000, 0x10), -3);
    assert_eq!(region_priority(0x1000, 0x10), -5);
}

#[test]
fn regions_sorted_by_priority_stably() {
    let rs = vec![
        (0x1000, 0x10),
        (0x2000, 0x20_0000),
        (0x1_0000_0000, 0x20_0000),
        (0x3000, 0x30_0000),
        (0x4000, 0x5000),
    ];
    let sorted = sort_regions(&rs);
    assert_eq!(
        sorted,
        vec![
            (0x1_0000_0000, 0x20_0000),
            (0x2000, 0x20_0000),
            (0x3000, 0x30_0000),
            (0x4000, 0x5000),
            (0x1000, 0x10),
        ]
    );
}

fn buffer_with(at_orig: usize, at_patch: usize, tail: u8) -> Vec<u8> {
    let mut buf = vec![0xCCu8; 256];
    buf[at_orig..at_orig + IL_ORIG.len()].copy_from_slice(&IL_ORIG);
    buf[at_patch..at_patch + IL_PATCH.len()].copy_from_slice(&IL_PATCH);
    buf[at_patch + IL_PATCH.len()] = tail;
    buf
}

#[test]
fn il_buffer_scan_finds_both_kinds() {
    let buf = buffer_with(5, 100, 0x7E);
    let stop = AtomicBool::new(false);
    let mut o = Vec::new();
    let mut p = Vec::new();
    scan_il_buffer(&buf, buf.len(), 0x1000, &stop, &mut o, &mut p).unwrap();
    assert_eq!(o, vec![0x1005]);
    assert_eq!(p, vec![0x1000 + 100]);
}

#[test]
fn il_buffer_patch_needs_ldsfld_after_it() {
    let buf = buffer_with(5, 100, 0x00);
    let stop = AtomicBool::new(false);
    let mut o = Vec::new();
    let mut p = Vec::new();
    scan_il_buffer(&buf, buf.len(), 0, &stop, &mut o, &mut p).unwrap();
    assert_eq!(o, vec![5]);
    assert!(p.is_empty());
}

#[test]
fn il_buffer_scan_can_be_cancelled() {
    let buf = buffer_with(5, 100, 0x7E);
    let stop = AtomicBool::new(true);
    let mut o = Vec::new();
    let mut p = Vec::new();
    let r = scan_il_buffer(&buf, buf.len(), 0, &stop, &mut o, &mut p);
    assert!(matches!(r, Err(PatchError::Cancelled)));
}

#[test]
fn classify_hits() {
    assert!(matches!(classify_il_hits(&vec![7], &vec![8, 9]), Ok((7, false))));
    assert!(matches!(classify_il_hits(&vec![], &vec![9]), Ok((9, true))));
    assert!(matches!(classify_il_hits(&vec![], &vec![]), Err(PatchError::NotFound)));
    match classify_il_hits(&vec![1, 2, 3], &vec![4, 5]) {
        Err(PatchError::Multiple { count, sample }) => {
            assert_eq!(count, 5);
            assert_eq!(sample, vec![1, 2, 3, 4]);
        }
        _ => panic!("expected Multiple"),
    }
    match classify_il_hits(&vec![], &vec![4, 5]) {
        Err(PatchError::Multiple { count, sample }) => {
            assert_eq!(count, 2);
            assert_eq!(sample, vec![4, 5]);
        }
        _ => panic!("expected Multiple"),
    }
}

fn run_scan(regions: &[(u64, u64)], mem_at: impl Fn(u64, usize) -> Option<Vec<u8>>) -> Result<(u64, bool), PatchError> {
    let stop = AtomicBool::new(false);
    let mut scan = IlScan::new(regions);
    loop {
        match scan.next(&stop) {
            IlStep::Read { addr, len } => {
                let data = mem_at(addr, len);
                scan.feed(data.as_deref(), &stop)?;
            }
            IlStep::Finished(r) => return r,
        }
    }
}

#[test]
fn il_scan_over_regions_finds_single_site() {
    let region = (0x10_0000u64, 0x2000u64);
    let mut mem = vec![0u8; 0x2000];
    mem[0x300..0x300 + IL_ORIG.len()].copy_from_slice(&IL_ORIG);
    let r = run_scan(&[(0x5000, 0x10), region], |addr, len| {
        let off = (addr - 0x10_0000) as usize;
        Some(mem[off..off + len].to_vec())
    });
    assert!(matches!(r, Ok((0x10_0300, false))));
}

#[test]
fn il_scan_unreadable_memory_finds_nothing() {
    let r = run_scan(&[(0x10_0000, 0x2000)], |_, _| None);
    assert!(matches!(r, Err(PatchError::NotFound)));
}

#[test]
fn il_scan_reads_chunks_with_overlap() {
    let stop = AtomicBool::new(false);
    let mut scan = IlScan::new(&[(0x100_0000, 0x2_0000)]);
    match scan.next(&stop) {
        IlStep::Read { addr, len } => {
            assert_eq!(addr, 0x100_0000);
            assert_eq!(len, IL_BUF_LEN);
            scan.feed(None, &stop).unwrap();
        }
        _ => panic!("expected a read"),
    }
    match scan.next(&stop) {
        IlStep::Read { addr, len } => {
            assert_eq!(addr, 0x101_0000);
            assert_eq!(len, 0x1_0000);
        }
        _ => panic!("expected a read"),
    }
}

#[test]
fn apply_at_decisions() {
    assert!(matches!(check_current(5, None), Err(PatchError::WriteFailed { addr: 5 })));
    assert!(matches!(
        check_current(5, Some(&IL_PATCH)),
        Ok(Some(PatchOutcome::AlreadyPatched { addr: 5 }))
    ));
    assert!(matches!(check_current(5, Some(&[0u8; 23])), Ok(None)));
    assert!(check_original(5, &[1u8; 23], Some(&IL_ORIG)).is_ok());
    match check_original(5, &[1u8; 23], Some(&[0u8; 24])) {
        Err(PatchError::Unexpected { addr, bytes }) => {
            assert_eq!(addr, 5);
            assert_eq!(bytes, vec![1u8; 23]);
        }
        _ => panic!("expected Unexpected"),
    }
    assert!(matches!(check_original(5, &[1u8; 23], None), Err(PatchError::Unexpected { .. })));
    assert!(check_written(5, true).is_ok());
    assert!(matches!(check_written(5, false), Err(PatchError::WriteFailed { addr: 5 })));
    assert!(matches!(check_verify(5, Some(&IL_PATCH)), Ok(PatchOutcome::Applied { addr: 5 })));
    assert!(matches!(check_verify(5, Some(&[0u8; 23])), Err(PatchError::VerifyFailed { addr: 5 })));
    assert!(matches!(check_verify(5, None), Err(PatchError::VerifyFailed { addr: 5 })));
}

#[test]
fn patching_twice_finds_patch_in_place() {
    let after = check_verify(0x40, Some(&IL_PATCH));
    assert!(after.is_ok());
    assert!(matches!(
        check_current(0x40, Some(&IL_PATCH)),
        Ok(Some(PatchOutcome::AlreadyPatched { addr: 0x40 }))
    ));
}

#[test]
fn cached_attempt_falls_back_to_scan() {
    assert!(!cached_attempt_stands(&Err(PatchError::Unexpected { addr: 1, bytes: vec![] })));
    assert!(!cached_attempt_stands(&Err(PatchError::WriteFailed { addr: 1 })));
    assert!(cached_attempt_stands(&Err(PatchError::VerifyFailed { addr: 1 })));
    assert!(cached_attempt_stands(&Ok(PatchOutcome::Applied { addr: 1 })));
}

#[test]
fn retry_gives_up_after_five_failures() {
    let mut m = F7Apply::new();
    let mut attempts = 0;
    loop {
        match m.next_action() {
            F7Action::Attempt { pause_first } => {
                assert_eq!(pause_first, attempts > 0);
                attempts += 1;
                m.record(&Err(PatchError::NotFound));
            }
            F7Action::Finish(r) => {
                assert_eq!(r.unwrap_err(), "未找到 initDebugger IL 特征（游戏未就绪或版本不匹配）");
                break;
            }
        }
    }
    assert_eq!(attempts, 5);
}

#[test]
fn retry_stops_on_multiple_sites() {
    let mut m = F7Apply::new();
    m.record(&Err(PatchError::Multiple { count: 2, sample: vec![1, 2] }));
    match m.next_action() {
        F7Action::Finish(Err(e)) => assert_eq!(e, "IL 特征命中 2 处，拒绝写入（样本: 0x1, 0x2）"),
        _ => panic!("expected finish"),
    }
}

#[test]
fn retry_succeeds_on_applied_or_present() {
    let mut m = F7Apply::new();
    m.record(&Err(PatchError::NotFound));
    m.record(&Ok(PatchOutcome::AlreadyPatched { addr: 0x77 }));
    match m.next_action() {
        F7Action::Finish(Ok(p)) => {
            assert_eq!(p.addr, 0x77);
            assert!(p.applied);
        }
        _ => panic!("expected success"),
    }
}

#[test]
fn f7_status_lines() {
    assert_eq!(status_text(&F7Patch::empty(), None), "关");
    let p = F7Patch { addr: 0x10, applied: true };
    assert_eq!(status_text(&p, None), "地址不可读 (addr=0x10)");
    assert_eq!(status_text(&p, Some(&IL_PATCH)), "开 (addr=0x10)");
    assert_eq!(status_text(&p, Some(&[0u8; 23])), "状态未知 (addr=0x10)");
}

#[test]
fn stop_flag_cancels_until_finished() {
    let mut scan = IlScan::new(&[(0x10_0000, 0x2000)]);
    assert!(matches!(scan.next_observed(true), IlStep::Finished(Err(PatchError::Cancelled))));
    let step = scan.next_observed(false);
    assert!(matches!(step, IlStep::Read { addr: 0x10_0000, len: 0x2000 }));
    assert!(matches!(scan.next_observed(true), IlStep::Finished(Err(PatchError::Cancelled))));
    scan.feed(None, &AtomicBool::new(true)).unwrap();
    assert!(matches!(scan.next_observed(true), IlStep::Finished(Err(PatchError::NotFound))));
    assert!(matches!(scan.next_observed(true), IlStep::Finished(Err(PatchError::NotFound))));
}

#[test]
fn empty_scan_finishes_without_looking_at_the_flag() {
    let mut scan = IlScan::new(&[(0x10_0000, 0x10)]);
    assert!(matches!(scan.next_observed(true), IlStep::Finished(Err(PatchError::Cancelled))));
    let mut scan = IlScan::new(&[]);
    assert!(matches!(scan.next_observed(true), IlStep::Finished(Err(PatchError::NotFound))));
}
