use aic_tools::game_version::{
    check_ggm_size, extract_unity_len_strings, find_slice, is_game_exe_name,
    is_plausible_content_version, is_supported, looks_like_version_token, pick_best_near_marker,
    pick_best_version, version_from_ggm_bytes, version_score,
};

fn len_string(s: &str) -> Vec<u8> {
    let mut v = (s.len() as u32).to_le_bytes().to_vec();
    v.extend_from_slice(s.as_bytes());
    v
}

#[test]
fn supported_version_is_trimmed() {
    assert!(is_supported("0.29j"));
    assert!(is_supported("  0.29j\n"));
    assert!(!is_supported("0.29k"));
    assert!(!is_supported("0.29j1"));
}

#[test]
fn unity_strings_are_length_prefixed_printable() {
    let mut bytes = vec![0xFFu8, 0xFF];
    bytes.extend(len_string("0.29j"));
    bytes.extend([0u8; 3]);
    bytes.extend(len_string("hello"));
    bytes.push(0);
    let found = extract_unity_len_strings(&bytes);
    let got: Vec<(usize, String)> =
        found.into_iter().map(|(o, s)| (o, String::from_utf8(s).unwrap())).collect();
    assert_eq!(got, vec![(6, "0.29j".to_string()), (18, "hello".to_string())]);
}

#[test]
fn unity_strings_reject_unprintable_and_long() {
    let mut bytes = vec![2u8, 0, 0, 0, 0x01, 0x41, 0, 0, 0];
    bytes.extend([25u8, 0, 0, 0]);
    bytes.extend([0x41u8; 25]);
    let found = extract_unity_len_strings(&bytes);
    assert!(found.is_empty());
}

#[test]
fn version_scores() {
    assert_eq!(version_score(b"0.29j"), 22);
    assert_eq!(version_score(b"1.0"), -7);
    assert_eq!(version_score(b"1.0.0"), -7);
    assert_eq!(version_score(b"2.5.10.beta"), 15);
    assert_eq!(version_score(b""), 3);
}

#[test]
fn version_tokens() {
    assert!(looks_like_version_token(b"0.29j"));
    assert!(looks_like_version_token(b"1.2"));
    assert!(!looks_like_version_token(b"abc"));
    assert!(!looks_like_version_token(b"12"));
    assert!(!looks_like_version_token(b"1.2-x"));
    assert!(!looks_like_version_token(b"2021.3"));
    assert!(!looks_like_version_token(b"2022.3.16f1"));
    assert!(!looks_like_version_token(b"5.3.16f1"));
    assert!(looks_like_version_token(b"5.3f1"));
    assert!(is_plausible_content_version(b"0.29j"));
    assert!(!is_plausible_content_version(b"1.2.3.4.5.6.7"));
}

#[test]
fn find_slice_first_occurrence() {
    assert_eq!(find_slice(b"abcabc", b"bc"), Some(1));
    assert_eq!(find_slice(b"abc", b"abcd"), None);
    assert_eq!(find_slice(b"abc", b"x"), None);
}

#[test]
fn pick_near_marker_prefers_score_then_distance() {
    let mut bytes = vec![0u8; 4000];
    bytes[1000..1013].copy_from_slice(b"AliceInCradle");
    let cands = vec![
        (900usize, b"1.0".to_vec()),
        (1100usize, b"0.29j".to_vec()),
        (1050usize, b"0.29i".to_vec()),
        (3500usize, b"0.30a".to_vec()),
    ];
    let r = pick_best_near_marker(&bytes, &cands, b"AliceInCradle");
    assert_eq!(r, Some(b"0.29i".to_vec()));
    assert_eq!(pick_best_near_marker(&bytes, &cands, b"NanameHacha"), None);
}

#[test]
fn pick_best_version_takes_first_highest() {
    let cands = vec![(0usize, b"1.0".to_vec()), (5, b"0.1a".to_vec()), (9, b"0.2b".to_vec())];
    assert_eq!(pick_best_version(&cands), Some(b"0.1a".to_vec()));
    assert_eq!(pick_best_version(&vec![]), None);
}

#[test]
fn version_from_globalgamemanagers_bytes() {
    let mut bytes = vec![0u8; 16];
    bytes.extend(len_string("2022.3.16f1"));
    bytes.extend(len_string("NanameHacha"));
    bytes.extend(len_string("AliceInCradle"));
    bytes.extend(len_string("0.29j"));
    bytes.extend([0u8; 8]);
    assert_eq!(version_from_ggm_bytes(&bytes).unwrap(), "0.29j");
}

#[test]
fn version_missing_is_an_error() {
    assert_eq!(
        version_from_ggm_bytes(&[0u8; 64]).unwrap_err(),
        "globalgamemanagers 中未解析到游戏版本"
    );
}

#[test]
fn version_without_markers_uses_best_score() {
    let mut bytes = vec![0u8; 4];
    bytes.extend(len_string("1.0"));
    bytes.extend(len_string("0.7b"));
    bytes.extend([0u8; 4]);
    assert_eq!(version_from_ggm_bytes(&bytes).unwrap(), "0.7b");
}

#[test]
fn oversized_globalgamemanagers_is_refused() {
    assert!(check_ggm_size(64 * 1024 * 1024).is_ok());
    assert_eq!(
        check_ggm_size(64 * 1024 * 1024 + 1).unwrap_err(),
        "globalgamemanagers 过大 (67108865 bytes, 上限 67108864)"
    );
}

#[test]
fn game_exe_name_ignores_ascii_case() {
    assert!(is_game_exe_name("AliceInCradle.exe"));
    assert!(is_game_exe_name("aliceincradle.EXE"));
    assert!(!is_game_exe_name("AliceInCradle2.exe"));
}

#[test]
fn reported_version_is_always_plausible() {
    let mut bytes = vec![0u8; 8];
    bytes.extend(len_string("AliceInCradle"));
    bytes.extend(len_string("2022.3.16f1"));
    bytes.extend(len_string("0.1.2.3.4.5.6"));
    bytes.extend(len_string("v1"));
    bytes.extend(vec![0u8; 3000]);
    bytes.extend(len_string("0.29j"));
    bytes.extend([0u8; 8]);
    let v = version_from_ggm_bytes(&bytes).unwrap();
    assert_eq!(v, "0.29j");
    assert!(is_plausible_content_version(v.as_bytes()));
}

#[test]
fn supported_version_trims_unicode_whitespace_only() {
    assert!(is_supported("\u{3000}\t0.29j\u{2028} "));
    assert!(!is_supported("0.29 j"));
    assert!(!is_supported(""));
    assert!(!is_supported("   "));
    assert!(!is_supported("_0.29j"));
}
