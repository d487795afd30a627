use aic_tools::log::{log_line, timestamp, Level};
use aic_tools::text::{
    decode_utf16_lossy, eq_ignore_ascii_case, fmt_decimal, fmt_hex, fmt_hex_list,
    fmt_signed,
};
use aic_tools::ui::{
    alive_check, cached_addr_check, parse_menu_choice, select_axis, unsupported_version_message,
    MenuChoice, PROC_NAME,
};

#[test]
fn hex_formatting_matches_std() {
    for v in [0u64, 1, 9, 10, 15, 16, 0xdead_beef, u64::MAX] {
        assert_eq!(fmt_hex(v), format!("{v:#x}"));
    }
    assert_eq!(fmt_hex(0x1f), "0x1f");
}

#[test]
fn decimal_formatting_matches_std() {
    for v in [0u64, 7, 10, 99, 100, 12345, u64::MAX] {
        assert_eq!(fmt_decimal(v), v.to_string());
    }
    for v in [0i64, -1, 42, -42, i64::MAX, i64::MIN] {
        assert_eq!(fmt_signed(v), v.to_string());
    }
}

#[test]
fn hex_lists_are_comma_separated() {
    assert_eq!(fmt_hex_list(&[]), "");
    assert_eq!(fmt_hex_list(&[0x10]), "0x10");
    assert_eq!(fmt_hex_list(&[0x10, 0xab, 0]), "0x10, 0xab, 0x0");
}

#[test]
fn ascii_case_insensitive_compare() {
    assert!(eq_ignore_ascii_case("AliceInCradle.exe", "aliceincradle.EXE"));
    assert!(!eq_ignore_ascii_case("AliceInCradle.exe", "AliceInCradle.ex"));
    assert!(!eq_ignore_ascii_case("abc", "abd"));
    assert!(eq_ignore_ascii_case("", ""));
}

#[test]
fn utf16_lossy_decoding() {
    let s = "Noel ジュース 🍹";
    let units: Vec<u16> = s.encode_utf16().collect();
    assert_eq!(decode_utf16_lossy(&units), s);
    assert_eq!(decode_utf16_lossy(&[0x41, 0xD800, 0x42]), "A\u{FFFD}B");
    assert_eq!(decode_utf16_lossy(&[0xDC00]), "\u{FFFD}");
    assert_eq!(decode_utf16_lossy(&[0xD83C, 0xDF79]), "🍹");
}

#[test]
fn log_lines_carry_level_tag() {
    assert_eq!(log_line("T", &Level::Info, "hello"), "T [I] hello");
    assert_eq!(log_line("T", &Level::Warn, "x"), "T [W] x");
    assert_eq!(log_line("T", &Level::Error, ""), "T [E] ");
}

#[test]
fn timestamps_at_known_instants() {
    assert_eq!(timestamp(0, 0), "1970-01-01 00:00:00.000");
    assert_eq!(timestamp(1_700_000_000, 123), "2023-11-14 22:13:20.123");
    assert_eq!(timestamp(951_782_400, 5), "2000-02-29 00:00:00.005");
    assert_eq!(timestamp(4_107_542_399, 999), "2100-02-28 23:59:59.999");
    assert_eq!(timestamp(4_107_542_400, 0), "2100-03-01 00:00:00.000");
}

#[test]
fn process_liveness() {
    assert!(alive_check(Some(true)).is_ok());
    assert_eq!(alive_check(Some(false)).unwrap_err(), "游戏进程已退出");
    assert_eq!(alive_check(None).unwrap_err(), "无法查询进程状态");
}

#[test]
fn cached_address_rechecked() {
    assert!(cached_addr_check(0, "NelItem(cane)", false).is_ok());
    assert!(cached_addr_check(0x1000, "NelItem(cane)", true).is_ok());
    assert_eq!(
        cached_addr_check(0x1000, "NelItem(cane)", false).unwrap_err(),
        "NelItem(cane) 地址 0x1000 不再可读，请选 4 重新定位"
    );
}

#[test]
fn unsupported_version_names_supported_one() {
    assert_eq!(unsupported_version_message("0.28"), "版本 0.28 不在支持列表 [\"0.29j\"]");
}

#[test]
fn menu_choices() {
    assert_eq!(parse_menu_choice("1"), MenuChoice::CaneStats);
    assert_eq!(parse_menu_choice("2"), MenuChoice::MapJuice);
    assert_eq!(parse_menu_choice("3"), MenuChoice::RestoreMap);
    assert_eq!(parse_menu_choice("4"), MenuChoice::Relocate);
    assert_eq!(parse_menu_choice("5"), MenuChoice::DisableMosaic);
    assert_eq!(parse_menu_choice("6"), MenuChoice::RestoreMosaic);
    assert_eq!(parse_menu_choice("7"), MenuChoice::EnableF7);
    assert_eq!(parse_menu_choice("0"), MenuChoice::Quit);
    assert_eq!(parse_menu_choice("q"), MenuChoice::Quit);
    assert_eq!(parse_menu_choice("Q"), MenuChoice::Quit);
    assert_eq!(parse_menu_choice(""), MenuChoice::Nothing);
    assert_eq!(parse_menu_choice("8"), MenuChoice::Nothing);
    assert_eq!(parse_menu_choice("11"), MenuChoice::Nothing);
}

#[test]
fn axis_selected_once() {
    let mut sel = vec![];
    select_axis(&mut sel, 3);
    select_axis(&mut sel, 1);
    select_axis(&mut sel, 3);
    assert_eq!(sel, vec![3, 1]);
}

#[test]
fn process_name() {
    assert_eq!(PROC_NAME, "AliceInCradle.exe");
}
