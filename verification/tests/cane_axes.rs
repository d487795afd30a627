use aic_tools::formula::{
    array_from_template, array_write_failed, axes, axis_fields, elements_to_write, pr_field_offset,
    table_slots, usable_array, HiScale, PrField, ARRAY_HEADER_LEN,
};
use aic_tools::offsets::GameLayout;

fn layout() -> GameLayout {
    GameLayout {
        nel_key: 0x10,
        nel_price: 0x48,
        nel_id: 0x40,
        nel_category: 0x58,
        nel_fn_get_detail: 0x30,
        cane_item_data: 0x18,
        cane_key: 0x10,
        cane_near_power: 0x48,
        cat_cane_bits: 0x40,
        cat_cane_mask: 0xF0,
        cane_price: 100,
        cane_id: 200,
        juice_price: 30,
        pe_src_cane: 0x20,
        pe_grade: 0x90,
        pe_near_power: 0x40,
        pe_near_shotgun: 0x44,
        pe_near_reach: 0x48,
        pe_near_punch: 0x4C,
        pe_magic_prepare: 0x50,
        pe_drain_after_lock: 0x54,
        pe_lockon: 0x58,
        pe_far_power: 0x5C,
        pe_mana_splash: 0x60,
        pe_mp_use: 0x64,
        pe_stability: 0x68,
        pe_neutral: 0x6C,
        pe_castspeed: 0x70,
        pe_castspeed_overhold: 0x74,
        arr_len: 0x18,
        arr_data: 0x20,
    }
}

#[test]
fn nine_axes_in_display_order() {
    let a = axes();
    assert_eq!(a.len(), 9);
    for (k, ax) in a.iter().enumerate() {
        assert_eq!(ax.id as usize, k);
        assert!(!ax.name_zh.is_empty());
    }
    assert_eq!(a[0].name_zh, "近战攻击距离");
    assert_eq!(a[8].name_zh, "近战挥击速度");
}

#[test]
fn axis_fields_per_axis() {
    assert_eq!(axis_fields(0).unwrap(), vec![PrField::NearReach]);
    assert_eq!(axis_fields(1).unwrap(), vec![PrField::NearPower, PrField::NearShotgun]);
    assert_eq!(axis_fields(5).unwrap(), vec![PrField::MpUse]);
    assert_eq!(axis_fields(8).unwrap(), vec![PrField::NearPunch]);
    assert_eq!(axis_fields(9).unwrap_err(), "未知轴");
}

#[test]
fn field_offsets_come_from_layout() {
    let l = layout();
    assert_eq!(pr_field_offset(&l, PrField::NearPower), 0x40);
    assert_eq!(pr_field_offset(&l, PrField::Stability), 0x68);
    assert_eq!(pr_field_offset(&l, PrField::CastspeedOverhold), 0x74);
}

#[test]
fn table_slots_match_axis_fields() {
    let l = layout();
    for id in 0u8..9 {
        let fs = axis_fields(id).unwrap();
        let ts = table_slots(&l, id).unwrap();
        assert_eq!(fs.len(), ts.len());
        for (f, t) in fs.iter().zip(ts.iter()) {
            assert_eq!(*f, t.field);
        }
    }
    let melee = table_slots(&l, 1).unwrap();
    assert_eq!(melee[0].off, 0x48);
    assert_eq!(melee[1].off, 0x50);
    assert_eq!(melee[0].hi, HiScale::Times115);
    assert_eq!(table_slots(&l, 5).unwrap()[0].hi, HiScale::Times110AtMost5);
    assert_eq!(table_slots(&l, 0).unwrap()[0].hi, HiScale::Same);
    assert_eq!(table_slots(&l, 42).unwrap_err(), "未知轴");
}

#[test]
fn array_from_template_sets_counts() {
    let mut h = vec![0u8; ARRAY_HEADER_LEN];
    for (i, b) in h.iter_mut().enumerate() {
        *b = i as u8;
    }
    h[0x18..0x1C].copy_from_slice(&5u32.to_le_bytes());
    let (out, size) = array_from_template(&h);
    assert_eq!(out.len(), ARRAY_HEADER_LEN);
    assert_eq!(&out[0..0x10], &h[0..0x10]);
    assert_eq!(&out[0x10..0x14], &5u32.to_le_bytes());
    assert_eq!(&out[0x14..0x18], &5u32.to_le_bytes());
    assert_eq!(&out[0x18..0x1C], &5u32.to_le_bytes());
    assert_eq!(&out[0x1C..0x20], &h[0x1C..0x20]);
    assert_eq!(size, 0x20 + 20);
}

#[test]
fn array_from_template_at_least_two() {
    let h = vec![0u8; ARRAY_HEADER_LEN];
    let (out, size) = array_from_template(&h);
    assert_eq!(&out[0x10..0x14], &2u32.to_le_bytes());
    assert_eq!(&out[0x18..0x1C], &2u32.to_le_bytes());
    assert_eq!(size, 0x28);
}

#[test]
fn usable_array_checks() {
    assert_eq!(usable_array(Some(0x1234_0000), true), Some(0x1234_0000));
    assert_eq!(usable_array(Some(0x1234_0000), false), None);
    assert_eq!(usable_array(Some(0), true), None);
    assert_eq!(usable_array(Some(0x8000_0000_0000), true), None);
    assert_eq!(usable_array(None, true), None);
}

#[test]
fn elements_written() {
    assert_eq!(elements_to_write(Some(2)), 2);
    assert_eq!(elements_to_write(Some(7)), 2);
    assert_eq!(elements_to_write(Some(1)), 1);
    assert_eq!(elements_to_write(Some(0)), 1);
    assert_eq!(elements_to_write(None), 1);
}

#[test]
fn array_write_failure_message() {
    assert_eq!(array_write_failed(0, 0x58), "write array[0] cane+0x58");
    assert_eq!(array_write_failed(1, 0xb0), "write array[1] cane+0xb0");
}

#[test]
fn axes_touch_disjoint_fields() {
    for a in 0u8..9 {
        for b in 0u8..9 {
            if a == b {
                continue;
            }
            let fa = axis_fields(a).unwrap();
            let fb = axis_fields(b).unwrap();
            assert!(fa.iter().all(|f| !fb.contains(f)), "axes {a} and {b} share a field");
        }
    }
}
