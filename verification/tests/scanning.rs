use aic_tools::aob::{
    clean_targets, decode_mono_chars, find_in_buffer, mono_string_byte_len, mono_string_from_chars,
    position_of, utf16le_pattern, PtrRegionScan, RegionScan, SCAN_CHUNK,
};

#[test]
fn utf16le_pattern_interleaves_zeros_and_terminates() {
    assert_eq!(utf16le_pattern("ab"), vec![0x61, 0, 0x62, 0, 0, 0]);
    assert_eq!(utf16le_pattern(""), vec![0, 0]);
    let p = utf16le_pattern("cane_default");
    assert_eq!(p.len(), 2 * 12 + 2);
}

#[test]
fn find_in_buffer_skips_past_each_match() {
    let mut hits = Vec::new();
    find_in_buffer(&[1, 2, 1, 2, 1, 2], &[1, 2], 100, 10, &mut hits);
    assert_eq!(hits, vec![100, 102, 104]);

    let mut hits = Vec::new();
    find_in_buffer(b"aaaa", b"aa", 0, 10, &mut hits);
    assert_eq!(hits, vec![0, 2]);

    let mut hits = Vec::new();
    find_in_buffer(b"aaa", b"aa", 0, 10, &mut hits);
    assert_eq!(hits, vec![0]);
}

#[test]
fn find_in_buffer_respects_the_cap() {
    let mut hits = vec![7];
    find_in_buffer(&[9, 9, 9, 9], &[9], 0, 3, &mut hits);
    assert_eq!(hits, vec![7, 0, 1]);

    let mut hits = vec![1, 2];
    find_in_buffer(&[9, 9], &[9], 0, 2, &mut hits);
    assert_eq!(hits, vec![1, 2]);
}

#[test]
fn find_in_buffer_pattern_longer_than_buffer() {
    let mut hits = Vec::new();
    find_in_buffer(&[1], &[1, 2], 0, 5, &mut hits);
    assert!(hits.is_empty());
}

#[test]
fn region_scan_finds_match_across_chunk_boundary() {
    let base = 0x10_0000u64;
    let size = (SCAN_CHUNK as u64) + 16;
    let mut mem = vec![0u8; size as usize];
    let at = SCAN_CHUNK - 2;
    mem[at..at + 4].copy_from_slice(&[0xDE, 0xAD, 0xBE, 0xEF]);
    let pat = [0xDE, 0xAD, 0xBE, 0xEF];
    let mut scan = RegionScan::new(base, size);
    let mut hits = Vec::new();
    let mut reads = Vec::new();
    while let Some((addr, len)) = scan.next_read(hits.len(), 16) {
        reads.push((addr, len));
        let off = (addr - base) as usize;
        let data = mem[off..off + len].to_vec();
        scan.feed(Some(&data), &pat, 16, &mut hits);
    }
    assert_eq!(reads, vec![(base, SCAN_CHUNK), (base + SCAN_CHUNK as u64, 16)]);
    assert_eq!(hits, vec![base + at as u64]);
}

#[test]
fn region_scan_failed_read_drops_carried_bytes() {
    let base = 0x20_0000u64;
    let size = (SCAN_CHUNK as u64) + 4;
    let pat = [1u8, 2, 3];
    let mut scan = RegionScan::new(base, size);
    let mut hits = Vec::new();
    let (_, len) = scan.next_read(0, 8).unwrap();
    let mut first = vec![0u8; len];
    first[len - 1] = 1;
    scan.feed(Some(&first), &pat, 8, &mut hits);
    assert_eq!(scan.tail, vec![0, 1]);
    let (_, len2) = scan.next_read(hits.len(), 8).unwrap();
    assert_eq!(len2, 4);
    scan.feed(None, &pat, 8, &mut hits);
    assert!(scan.tail.is_empty());
    assert!(hits.is_empty());
    assert_eq!(scan.next_read(hits.len(), 8), None);
}

#[test]
fn region_scan_stops_when_cap_reached() {
    let scan = RegionScan::new(0x1000, 0x10);
    assert_eq!(scan.next_read(4, 4), None);
    assert_eq!(scan.next_read(3, 4), Some((0x1000, 0x10)));
}

#[test]
fn pointer_scan_reports_address_and_target_index() {
    let base = 0x30_0000u64;
    let mut mem = Vec::new();
    for w in [5u64, 0x1234, 7, 0x1234, 9] {
        mem.extend_from_slice(&w.to_le_bytes());
    }
    let size = mem.len() as u64 + 3;
    let mut scan = PtrRegionScan::new(base, size, 10);
    let mut hits = Vec::new();
    let (addr, len) = scan.next_read().unwrap();
    assert_eq!((addr, len), (base, 40));
    scan.feed(Some(&mem[..len]), &[7, 0x1234], &mut hits);
    assert_eq!(hits, vec![(base + 8, 1), (base + 16, 0), (base + 24, 1)]);
    assert_eq!(scan.next_read(), None);
}

#[test]
fn pointer_scan_stops_at_per_region_cap() {
    let base = 0x40_0000u64;
    let mut mem = Vec::new();
    for _ in 0..4 {
        mem.extend_from_slice(&42u64.to_le_bytes());
    }
    let mut scan = PtrRegionScan::new(base, mem.len() as u64, 2);
    let mut hits = Vec::new();
    let (_, len) = scan.next_read().unwrap();
    scan.feed(Some(&mem[..len]), &[42], &mut hits);
    assert_eq!(hits, vec![(base, 0), (base + 8, 0)]);
    assert!(scan.done);
    assert_eq!(scan.next_read(), None);
}

#[test]
fn clean_targets_drops_nulls() {
    assert_eq!(clean_targets(&[0, 5, 0, 7]), vec![5, 7]);
    assert!(clean_targets(&[0, 0]).is_empty());
}

#[test]
fn position_of_first_match() {
    assert_eq!(position_of(&[3, 4, 3], 3), Some(0));
    assert_eq!(position_of(&[3, 4, 3], 4), Some(1));
    assert_eq!(position_of(&[3, 4, 3], 5), None);
}

#[test]
fn mono_string_object_and_chars_roundtrip() {
    assert_eq!(mono_string_from_chars(0x100), 0xEC);
    assert_eq!(mono_string_from_chars(0xEC + 0x14), 0xEC);
    assert_eq!(mono_string_from_chars(0x10), 0);
}

#[test]
fn mono_string_length_limit() {
    assert_eq!(mono_string_byte_len(0), Some(0));
    assert_eq!(mono_string_byte_len(256), Some(512));
    assert_eq!(mono_string_byte_len(257), None);
}

#[test]
fn mono_chars_decode_lossily() {
    assert_eq!(decode_mono_chars(&[0x48, 0, 0x69, 0]), "Hi");
    assert_eq!(decode_mono_chars(&[0x3D, 0xD8, 0x00, 0xDE]), "\u{1F600}");
    assert_eq!(decode_mono_chars(&[0x00, 0xD8, 0x41, 0x00]), "\u{FFFD}A");
    assert_eq!(decode_mono_chars(&[0x00, 0xDC]), "\u{FFFD}");
    assert_eq!(decode_mono_chars(&[0x41, 0x00, 0x42]), "A");
}

#[test]
fn find_in_buffer_empty_pattern_repeats_start_up_to_cap() {
    let mut hits = vec![7u64];
    find_in_buffer(b"abc", b"", 0x100, 4, &mut hits);
    assert_eq!(hits, vec![7, 0x100, 0x100, 0x100]);
}
