use aic_tools::find::{CaneTargets, JuiceTarget};
use aic_tools::map_ui::{
    is_cane_category, plan_juice_map, plan_restore_juice_map, read_or, write_or, JuiceMapReads, MapBackup,
    WriteValue,
};
use aic_tools::mosaic::{
    check_entry_addr, check_head, check_mosaic_verify, check_mosaic_written,
    plan_mosaic_restore, restore_failed_message, status_text, MosaicPatch, MOSAIC_PATCH,
};
use aic_tools::offsets::GameLayout;

pub fn layout() -> GameLayout {
    GameLayout {
        nel_key: 0x10,
        nel_price: 0x48,
        nel_id: 0x40,
        nel_category: 0x58,
        nel_fn_get_detail: 0x30,
        cane_item_data: 0x18,
        cane_key: 0x10,
        cane_near_power: 0x48,
        cat_cane_bits: 0x40,
        cat_cane_mask: 0xF0,
        cane_price: 100,
        cane_id: 200,
        juice_price: 30,
        pe_src_cane: 0x20,
        pe_grade: 0x90,
        pe_near_power: 0x30,
        pe_near_shotgun: 0x34,
        pe_near_reach: 0x38,
        pe_near_punch: 0x3C,
        pe_magic_prepare: 0x40,
        pe_drain_after_lock: 0x44,
        pe_lockon: 0x48,
        pe_far_power: 0x4C,
        pe_mana_splash: 0x50,
        pe_mp_use: 0x54,
        pe_stability: 0x58,
        pe_neutral: 0x5C,
        pe_castspeed: 0x60,
        pe_castspeed_overhold: 0x64,
        arr_len: 0x18,
        arr_data: 0x20,
    }
}

fn good_reads() -> JuiceMapReads {
    JuiceMapReads {
        cat: Some(0x0102),
        fn_detail: Some(0xAAAA),
        key_ptr: Some(0xBBBB),
        itemdata: Some(0xCCCC),
        cane_fn: Some(0xDDDD),
        default_str: Some(0xEEEE),
        default_key: Some("default".to_string()),
    }
}

#[test]
fn map_plan_writes_cane_view_onto_juice() {
    let l = layout();
    let juice = JuiceTarget { nel_item: 0x1000 };
    let cane = CaneTargets { nel_item: 0x2000, cane_item: 0x3000, pr_equip: None };
    let (bak, ws) = plan_juice_map(&l, &juice, &cane, &good_reads()).unwrap();
    assert_eq!(bak.juice, 0x1000);
    assert_eq!(bak.def_cane, 0x3000);
    assert_eq!(bak.cat, 0x0102);
    assert!(bak.applied);
    let got: Vec<(u64, WriteValue, &str)> = ws.iter().map(|w| (w.addr, w.value, w.name)).collect();
    assert_eq!(
        got,
        vec![
            (0x1058, WriteValue::U32(0x0142), "category"),
            (0x1030, WriteValue::U64(0xDDDD), "FnGetDetail"),
            (0x1010, WriteValue::U64(0xEEEE), "key→default"),
            (0x3018, WriteValue::U64(0x1000), "CaneItem.ItemData"),
        ]
    );
}

#[test]
fn map_restore_undoes_the_plan() {
    let l = layout();
    let juice = JuiceTarget { nel_item: 0x1000 };
    let cane = CaneTargets { nel_item: 0x2000, cane_item: 0x3000, pr_equip: Some(5) };
    let (bak, ws) = plan_juice_map(&l, &juice, &cane, &good_reads()).unwrap();
    let rs = plan_restore_juice_map(&l, &bak).unwrap();
    assert_eq!(rs.len(), ws.len());
    let old = [
        WriteValue::U32(0x0102),
        WriteValue::U64(0xAAAA),
        WriteValue::U64(0xBBBB),
        WriteValue::U64(0xCCCC),
    ];
    for k in 0..ws.len() {
        assert_eq!(rs[k].addr, ws[k].addr);
        assert_eq!(rs[k].value, old[k]);
    }
}

#[test]
fn map_plan_errors() {
    let l = layout();
    let juice = JuiceTarget { nel_item: 0x1000 };
    let cane = CaneTargets { nel_item: 0x2000, cane_item: 0x3000, pr_equip: None };
    let zero = JuiceTarget { nel_item: 0 };
    assert_eq!(plan_juice_map(&l, &zero, &cane, &good_reads()).unwrap_err(), "地址无效，请先重新定位");

    let mut r = good_reads();
    r.cat = None;
    assert_eq!(
        plan_juice_map(&l, &juice, &cane, &r).unwrap_err(),
        "读取 juice category 失败 addr=0x1058"
    );
    let mut r = good_reads();
    r.cane_fn = Some(0);
    r.default_str = None;
    assert_eq!(
        plan_juice_map(&l, &juice, &cane, &r).unwrap_err(),
        "法杖 FnGetDetail 为空，无法复制委托"
    );
    let mut r = good_reads();
    r.default_str = None;
    assert_eq!(
        plan_juice_map(&l, &juice, &cane, &r).unwrap_err(),
        "读取 DefaultCane.key 失败 addr=0x3010"
    );
    let mut r = good_reads();
    r.default_key = Some("other".to_string());
    assert_eq!(
        plan_juice_map(&l, &juice, &cane, &r).unwrap_err(),
        "DefaultCane.key 预期 default，实际 \"other\""
    );
    let mut r = good_reads();
    r.default_key = None;
    assert!(plan_juice_map(&l, &juice, &cane, &r).is_ok());
}

#[test]
fn map_restore_without_backup() {
    let l = layout();
    assert_eq!(plan_restore_juice_map(&l, &MapBackup::empty()).unwrap_err(), "没有可恢复的映射备份");
    let bak = MapBackup { juice: 0x1000, def_cane: 0, cat: 1, fn_detail: 2, key_ptr: 3, itemdata: 4, applied: true };
    assert_eq!(plan_restore_juice_map(&l, &bak).unwrap().len(), 3);
}

#[test]
fn read_and_write_messages() {
    assert_eq!(read_or(Some(5u32), 0x10, "x").unwrap(), 5);
    assert_eq!(read_or::<u32>(None, 0x10, "x").unwrap_err(), "读取 x 失败 addr=0x10");
    assert!(write_or(true, 0x10, "y").is_ok());
    assert_eq!(write_or(false, 0x1f, "y").unwrap_err(), "写入 y 失败 addr=0x1f");
}

#[test]
fn mosaic_patch_is_xor_eax_ret() {
    assert_eq!(MOSAIC_PATCH, [0x31, 0xC0, 0xC3]);
    let p = MosaicPatch::empty();
    assert_eq!((p.addr, p.orig, p.applied), (0, None, false));
}

#[test]
fn mosaic_entry_address_checks() {
    assert!(check_entry_addr(0x7FF0_0000_0000).is_ok());
    assert_eq!(check_entry_addr(0).unwrap_err(), "FnDrawMosaic 原生地址无效: 0x0");
    assert_eq!(
        check_entry_addr(0xFFFF_8000_0000_0000).unwrap_err(),
        "FnDrawMosaic 原生地址无效: 0xffff800000000000"
    );
}

#[test]
fn mosaic_apply_then_restore_puts_back_original() {
    let addr = 0x7FF0_1234_0000u64;
    let head = [0x48, 0x83, 0xEC];
    let prev = MosaicPatch::empty();
    assert!(matches!(check_head(addr, Some(head), &prev), Ok(None)));
    assert!(check_mosaic_written(addr, true).is_ok());
    let p = check_mosaic_verify(addr, head, Some(MOSAIC_PATCH)).unwrap();
    assert_eq!(p.orig, Some(head));
    assert_eq!(plan_mosaic_restore(&p).unwrap(), (addr, head));
}

#[test]
fn mosaic_repatch_keeps_first_backup() {
    let addr = 0x7FF0_1234_0000u64;
    let prev = MosaicPatch { addr, orig: Some([1, 2, 3]), applied: true };
    let p = check_head(addr, Some(MOSAIC_PATCH), &prev).unwrap().unwrap();
    assert_eq!(p.orig, Some([1, 2, 3]));
    let other = MosaicPatch { addr: 5, orig: Some([1, 2, 3]), applied: true };
    let q = check_head(addr, Some(MOSAIC_PATCH), &other).unwrap().unwrap();
    assert_eq!(q.orig, None);
    assert_eq!(plan_mosaic_restore(&q).unwrap_err(), "无原始字节备份，请重启游戏");
}

#[test]
fn mosaic_failures() {
    let prev = MosaicPatch::empty();
    assert_eq!(check_head(0x20, None, &prev).unwrap_err(), "读取 FnDrawMosaic 入口失败 addr=0x20");
    assert_eq!(check_mosaic_written(0x20, false).unwrap_err(), "写入马赛克补丁失败 addr=0x20");
    assert_eq!(check_mosaic_verify(0x20, [0; 3], Some([0; 3])).unwrap_err(), "补丁校验失败 addr=0x20");
    assert_eq!(check_mosaic_verify(0x20, [0; 3], None).unwrap_err(), "补丁校验失败 addr=0x20");
    assert_eq!(plan_mosaic_restore(&prev).unwrap_err(), "没有可恢复的马赛克补丁");
    assert_eq!(restore_failed_message(0x20), "恢复马赛克失败 addr=0x20");
}

#[test]
fn mosaic_status_lines() {
    assert_eq!(status_text(&MosaicPatch::empty(), None), "关");
    let p = MosaicPatch { addr: 0x30, orig: None, applied: true };
    assert_eq!(status_text(&p, None), "地址不可读 (addr=0x30)");
    assert_eq!(status_text(&p, Some(MOSAIC_PATCH)), "已禁用 (addr=0x30)");
    assert_eq!(status_text(&p, Some([0, 0, 0])), "已恢复/未生效 (addr=0x30)");
}

#[test]
fn cane_category_bits() {
    let l = layout();
    assert!(is_cane_category(0x0142, &l));
    assert!(!is_cane_category(0x0102, &l));
    assert!(is_cane_category(0x0102 | l.cat_cane_bits, &l));
}

#[test]
fn store_labels_name_the_fields() {
    let l = layout();
    let juice = JuiceTarget { nel_item: 0x1000 };
    let cane = CaneTargets { nel_item: 0x2000, cane_item: 0x3000, pr_equip: None };
    let (bak, ws) = plan_juice_map(&l, &juice, &cane, &good_reads()).unwrap();
    let names: Vec<&str> = ws.iter().map(|w| w.name).collect();
    assert_eq!(names, vec!["category", "FnGetDetail", "key→default", "CaneItem.ItemData"]);
    let rs = plan_restore_juice_map(&l, &bak).unwrap();
    let names: Vec<&str> = rs.iter().map(|w| w.name).collect();
    assert_eq!(names, vec!["restore category", "restore FnGetDetail", "restore key", "restore ItemData"]);
}
