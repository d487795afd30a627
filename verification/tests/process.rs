use aic_tools::find::{
    nel_candidate, pe_candidate, select_nel, select_pr, sorted_unique, string_object_candidates, NelProbe, PrProbe,
};
use aic_tools::mem::{
    c_string_bytewise, c_string_prefix, choose_pid, is_readable_protect, is_user_ptr_shape,
    is_writable_protect, mono_compile_layout, region_step, remote_call_layout, widestr, OpenError,
    REMOTE_RESULT_OFFSET,
};
use aic_tools::mono::{
    check_compile_result, check_compile_start, check_default_cane, check_field_offset,
    checked_call, field_offset_from_raw, static_field_addr, ExportEvent, ExportRead,
    ExportResolver,
};
use aic_tools::offsets::GameLayout;

fn layout() -> GameLayout {
    GameLayout {
        nel_key: 0x10,
        nel_price: 0x48,
        nel_id: 0x40,
        nel_category: 0x58,
        nel_fn_get_detail: 0x30,
        cane_item_data: 0x18,
        cane_key: 0x10,
        cane_near_power: 0x48,
        cat_cane_bits: 0x40,
        cat_cane_mask: 0xF0,
        cane_price: 100,
        cane_id: 200,
        juice_price: 30,
        pe_src_cane: 0x20,
        pe_grade: 0x90,
        pe_near_power: 0x30,
        pe_near_shotgun: 0x34,
        pe_near_reach: 0x38,
        pe_near_punch: 0x3C,
        pe_magic_prepare: 0x40,
        pe_drain_after_lock: 0x44,
        pe_lockon: 0x48,
        pe_far_power: 0x4C,
        pe_mana_splash: 0x50,
        pe_mp_use: 0x54,
        pe_stability: 0x58,
        pe_neutral: 0x5C,
        pe_castspeed: 0x60,
        pe_castspeed_overhold: 0x64,
        arr_len: 0x18,
        arr_data: 0x20,
    }
}

#[test]
fn string_objects_from_char_hits() {
    assert_eq!(string_object_candidates(&[0x1014, 0x5]), vec![0x1000, 0]);
    assert_eq!(sorted_unique(&[5, 3, 5, 1, 3]), vec![1, 3, 5]);
    assert!(sorted_unique(&[]).is_empty());
}

fn probe(hit: u64) -> NelProbe {
    NelProbe { hit, target: 0, readable: true, key: Some(0x9000), price: Some(100), id: Some(200) }
}

#[test]
fn nel_selection_checks_every_field() {
    let l = layout();
    let strs = [0x9000u64];
    assert_eq!(nel_candidate(0x10010, &l), 0x10000);
    assert_eq!(select_nel(&[probe(0x10010)], &strs, 100, Some(200), &l), Some(0x10000));
    let mut bad_align = probe(0x10014);
    bad_align.hit = 0x10014;
    let mut bad_key = probe(0x20010);
    bad_key.key = Some(1);
    let mut bad_price = probe(0x30010);
    bad_price.price = Some(99);
    let mut bad_id = probe(0x40010);
    bad_id.id = Some(201);
    let good = probe(0x50010);
    let ps = [bad_align, bad_key, bad_price, bad_id, good];
    assert_eq!(select_nel(&ps, &strs, 100, Some(200), &l), Some(0x50000));
    let mut low = probe(0x60010);
    low.id = Some(100);
    assert_eq!(select_nel(&[low], &strs, 100, None, &l), None);
    let mut high = probe(0x60010);
    high.id = Some(101);
    assert_eq!(select_nel(&[high], &strs, 100, None, &l), Some(0x60000));
    let mut neg = probe(0x70010);
    neg.price = Some(0xFFFF_FFFF);
    assert_eq!(select_nel(&[neg], &strs, -1, Some(200), &l), Some(0x70000));
}

#[test]
fn pr_selection_prefers_low_grade() {
    let l = layout();
    let p = |hit: u64, grade: u8| PrProbe { hit, readable: true, src: Some(0xCA), fields_ok: true, grade: Some(grade) };
    let ps = [p(0x10020, 5), p(0x20020, 3), p(0x30020, 3), p(0x40020, 12)];
    assert_eq!(select_pr(&ps, 0xCA, &l), Some(0x20000));
    let mut bad = p(0x50020, 0);
    bad.fields_ok = false;
    assert_eq!(select_pr(&[bad], 0xCA, &l), None);
    assert_eq!(select_pr(&[p(0x60020, 11), p(0x70020, 10)], 0xCA, &l), Some(0x60000));
}

#[test]
fn user_pointer_shape() {
    assert!(is_user_ptr_shape(0x10000));
    assert!(!is_user_ptr_shape(0x10004));
    assert!(!is_user_ptr_shape(0x8000));
    assert!(!is_user_ptr_shape(0x8000_0000_0000));
}

#[test]
fn region_walk_steps() {
    assert!(is_readable_protect(0x02) && is_readable_protect(0x20));
    assert!(!is_writable_protect(0x02) && is_writable_protect(0x04));
    assert!(!is_readable_protect(0x01));
    assert_eq!(region_step(0x10000, 0x10000, 0x1000, 0x1000, 0x04, false), (Some((0x10000, 0x1000)), Some(0x11000)));
    assert_eq!(region_step(0x10000, 0x10000, 0x1000, 0x2000, 0x04, false), (None, Some(0x11000)));
    assert_eq!(region_step(0x10000, 0x10000, 0x1000, 0x1000, 0x20, true), (None, Some(0x11000)));
    assert_eq!(region_step(0x20000, 0x10000, 0x1000, 0x1000, 0x04, true), (Some((0x10000, 0x1000)), None));
    assert_eq!(region_step(5, u64::MAX - 1, 0x1000, 0x1000, 0x04, true).1, Some(u64::MAX));
}

#[test]
fn remote_call_block_layout() {
    let b = remote_call_layout(0x1122, &[1, 2]).unwrap();
    assert_eq!(b.len(), 48);
    let word = |k: usize| u64::from_le_bytes(b[8 * k..8 * k + 8].try_into().unwrap());
    assert_eq!([word(0), word(1), word(2), word(3), word(4), word(5)], [0x1122, 1, 2, 0, 0, 0]);
    assert_eq!(REMOTE_RESULT_OFFSET, 40);
    assert_eq!(remote_call_layout(0, &[]).unwrap_err(), "null function");
    assert_eq!(remote_call_layout(1, &[1, 2, 3, 4, 5]).unwrap_err(), "at most 4 args");
}

#[test]
fn mono_compile_block_layout() {
    let b = mono_compile_layout(1, 2, 0, 4, 5).unwrap();
    assert_eq!(b.len(), 64);
    let word = |k: usize| u64::from_le_bytes(b[8 * k..8 * k + 8].try_into().unwrap());
    assert_eq!((0..8).map(word).collect::<Vec<_>>(), vec![1, 2, 0, 4, 5, 0, 0, 0]);
    assert_eq!(mono_compile_layout(1, 2, 3, 4, 0).unwrap_err(), "null mono compile arg");
}

#[test]
fn c_strings() {
    assert_eq!(c_string_prefix(b"abc\0def"), b"abc".to_vec());
    assert_eq!(c_string_prefix(b"abc"), b"abc".to_vec());
    assert_eq!(c_string_bytewise(b"ab", false), Some(b"ab".to_vec()));
    assert_eq!(c_string_bytewise(b"", true), Some(vec![]));
    assert_eq!(c_string_bytewise(b"", false), None);
}

#[test]
fn wide_strings() {
    let mut buf = [0u16; 8];
    for (i, c) in "mono".encode_utf16().enumerate() {
        buf[i] = c;
    }
    assert_eq!(widestr(&buf), "mono");
    assert_eq!(widestr(&[0x41, 0xD800, 0x42, 0, 0x43]), "A\u{FFFD}B");
}

#[test]
fn open_errors() {
    assert!(matches!(choose_pid("a.exe", &[]), Err(OpenError::NotFound { .. })));
    assert_eq!(choose_pid("a.exe", &[42]).unwrap(), 42);
    let e = choose_pid("a.exe", &[1, 2]).unwrap_err();
    assert_eq!(e.message(), "found 2 processes named a.exe; close the extras and retry");
    assert_eq!(OpenError::NotFound { name: "x".to_string() }.message(), "process not found: x");
    assert_eq!(OpenError::AccessDenied { pid: 7 }.message(), "OpenProcess(7) failed — run as Administrator?");
}

fn put32(m: &mut [u8], at: usize, v: u32) {
    m[at..at + 4].copy_from_slice(&v.to_le_bytes());
}

fn fake_image() -> Vec<u8> {
    let mut m = vec![0u8; 0x1000];
    put32(&mut m, 0x3C, 0x80);
    put32(&mut m, 0x80 + 0x18, 0x20B);
    put32(&mut m, 0x80 + 0x18 + 0x70, 0x400);
    put32(&mut m, 0x80 + 0x18 + 0x74, 0x100);
    let exp = 0x400;
    put32(&mut m, exp + 0x18, 3);
    put32(&mut m, exp + 0x1C, 0x600);
    put32(&mut m, exp + 0x20, 0x700);
    put32(&mut m, exp + 0x24, 0x800);
    let names = ["alpha", "beta", "gamma"];
    for (i, n) in names.iter().enumerate() {
        let at = 0x900 + 0x20 * i;
        m[at..at + n.len()].copy_from_slice(n.as_bytes());
        put32(&mut m, 0x700 + 4 * i, at as u32);
        m[0x800 + 2 * i..0x800 + 2 * i + 2].copy_from_slice(&((2 - i) as u16).to_le_bytes());
    }
    put32(&mut m, 0x600, 0x1111);
    put32(&mut m, 0x604, 0x410);
    put32(&mut m, 0x608, 0x3333);
    m
}

fn resolve(base: u64, m: &[u8], names: &[&str]) -> Result<Vec<u64>, String> {
    let mut r = ExportResolver::new(base, names);
    let rd32 = |a: u64| -> Option<u32> {
        let o = a.checked_sub(base)? as usize;
        m.get(o..o + 4).map(|b| u32::from_le_bytes(b.try_into().unwrap()))
    };
    loop {
        if r.phase == aic_tools::mono::ExportPhase::Done {
            return r.into_result();
        }
        match r.request().unwrap() {
            ExportRead::U32 { addr } => r.feed(ExportEvent::U32(rd32(addr))),
            ExportRead::U16 { addr } => {
                let o = (addr - base) as usize;
                let v = u16::from_le_bytes(m[o..o + 2].try_into().unwrap());
                r.feed(ExportEvent::U16(Some(v)));
            }
            ExportRead::Name { addr } => {
                let o = (addr - base) as usize;
                r.feed(ExportEvent::Name(Some(c_string_prefix(&m[o..o + 32]))));
            }
        }
    }
}

#[test]
fn exports_resolved_from_pe_image() {
    let m = fake_image();
    let base = 0x7FF0_0000_0000u64;
    assert_eq!(resolve(base, &m, &["gamma", "alpha"]).unwrap(), vec![base + 0x1111, base + 0x3333]);
}

#[test]
fn forwarded_export_is_missing() {
    let m = fake_image();
    let base = 0x7FF0_0000_0000u64;
    assert_eq!(resolve(base, &m, &["beta", "delta"]).unwrap_err(), "missing mono exports: beta, delta");
}

#[test]
fn export_walk_errors() {
    let mut m = fake_image();
    put32(&mut m, 0x80 + 0x18, 0x10B);
    assert_eq!(resolve(0x10000, &m, &["alpha"]).unwrap_err(), "mono module is not PE32+");
    let mut m = fake_image();
    put32(&mut m, 0x80 + 0x18 + 0x74, 0);
    assert_eq!(resolve(0x10000, &m, &["alpha"]).unwrap_err(), "mono export directory empty");
    let mut m = fake_image();
    put32(&mut m, 0x3C, 0x2000);
    assert_eq!(resolve(0x10000, &m, &["alpha"]).unwrap_err(), "read PE magic failed");
}

#[test]
fn mono_call_checks() {
    assert_eq!(checked_call(Err("boom".to_string()), "mono_x", None).unwrap_err(), "mono_x: boom");
    assert_eq!(checked_call(Ok(0), "mono_x", Some("null!")).unwrap_err(), "null!");
    assert_eq!(checked_call(Ok(0), "mono_x", None).unwrap(), 0);
    assert_eq!(checked_call(Ok(9), "mono_x", Some("null!")).unwrap(), 9);
    assert_eq!(field_offset_from_raw(0xFFFF_FFFF), -1);
    assert_eq!(field_offset_from_raw(0x1_0000_0010), 0x10);
    assert!(check_field_offset(0x10000).is_ok());
    assert_eq!(check_field_offset(-1).unwrap_err(), "invalid field offset -1");
    assert_eq!(check_field_offset(0x10001).unwrap_err(), "invalid field offset 65537");
    assert_eq!(static_field_addr(0x1000, 0x20), 0x1020);
    assert_eq!(check_default_cane(0x40, None, true).unwrap_err(), "read DefaultCane at 0x40 failed");
    assert_eq!(check_default_cane(0x40, Some(0), true).unwrap_err(), "DefaultCane invalid: 0x0");
    assert_eq!(check_default_cane(0x40, Some(0x20000), false).unwrap_err(), "DefaultCane invalid: 0x20000");
    assert_eq!(check_default_cane(0x40, Some(0x20000), true).unwrap(), 0x20000);
    assert_eq!(check_compile_start(0, Some(true)).unwrap_err(), "null method");
    assert_eq!(check_compile_start(1, Some(false)).unwrap_err(), "游戏进程已退出");
    assert!(check_compile_start(1, None).is_ok());
    assert_eq!(check_compile_result(5, Some(false)).unwrap_err(), "mono_compile_method 导致游戏进程退出");
    assert_eq!(check_compile_result(0, Some(true)).unwrap_err(), "mono_compile_method returned null");
    assert_eq!(check_compile_result(5, None).unwrap(), 5);
}

#[test]
fn candidate_objects_from_hits() {
    let l = layout();
    assert_eq!(pe_candidate(0x10020, &l), 0x10020 - l.pe_src_cane);
    assert_eq!(pe_candidate(0, &l), 0);
    assert_eq!(nel_candidate(0x10010, &l), 0x10010 - l.nel_key);
    assert_eq!(nel_candidate(1, &l), 0);
}

#[test]
fn function_rva_is_read_at_the_ordinal_slot() {
    let m = fake_image();
    let base = 0x10000u64;
    let mut r = ExportResolver::new(base, &["alpha"]);
    let rd32 = |a: u64| {
        let o = (a - base) as usize;
        Some(u32::from_le_bytes(m[o..o + 4].try_into().unwrap()))
    };
    loop {
        match r.request().unwrap() {
            ExportRead::U32 { addr } => r.feed(ExportEvent::U32(rd32(addr))),
            ExportRead::Name { addr } => {
                let o = (addr - base) as usize;
                r.feed(ExportEvent::Name(Some(c_string_prefix(&m[o..o + 32]))));
            }
            ExportRead::U16 { .. } => {
                r.feed(ExportEvent::U16(Some(2)));
                break;
            }
        }
    }
    assert_eq!(r.request(), Some(ExportRead::U32 { addr: base + 0x600 + 8 }));
}
