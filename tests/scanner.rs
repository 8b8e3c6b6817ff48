use fps_unlock::scanner::{get_fps_address, i32_from_le, pattern_scan, resolve_relative_target, RelativeLayout};

fn fps_buffer() -> Vec<u8> {
    let mut b = vec![0x90u8; 24];
    b[10..16].copy_from_slice(&[0xB9, 0x3C, 0x00, 0x00, 0x00, 0xE8]);
    b[16..20].copy_from_slice(&[0x00, 0x10, 0x00, 0x00]);
    b
}

#[test]
fn scan_returns_smallest_offset() {
    let data = [1u8, 2, 3, 1, 2, 3];
    assert_eq!(pattern_scan(&data, &[Some(1), Some(2)]), Some(0));
    assert_eq!(pattern_scan(&data, &[Some(2), Some(3), Some(1)]), Some(1));
    assert_eq!(pattern_scan(&data, &[Some(3), None, Some(2)]), Some(2));
}

#[test]
fn scan_wildcards_match_any_byte() {
    let data = [9u8, 7, 5, 4];
    assert_eq!(pattern_scan(&data, &[None, None, Some(4)]), Some(1));
    assert_eq!(pattern_scan(&data, &[None]), Some(0));
}

#[test]
fn scan_reports_absence() {
    let data = [1u8, 2, 3];
    assert_eq!(pattern_scan(&data, &[Some(4)]), None);
    assert_eq!(pattern_scan(&data, &[Some(2), Some(2)]), None);
}

#[test]
fn scan_pattern_longer_than_buffer() {
    assert_eq!(pattern_scan(&[1u8], &[Some(1), Some(2)]), None);
    assert_eq!(pattern_scan(&[], &[None]), None);
}

#[test]
fn scan_empty_pattern_matches_at_start() {
    assert_eq!(pattern_scan(&[5u8, 6], &[]), Some(0));
}

#[test]
fn fps_address_resolves_call_target() {
    assert_eq!(get_fps_address(&fps_buffer(), 0x400000), Some(0x401014));
}

#[test]
fn fps_address_negative_displacement() {
    let mut b = fps_buffer();
    b[16..20].copy_from_slice(&[0xF0, 0xFF, 0xFF, 0xFF]);
    assert_eq!(get_fps_address(&b, 0x400000), Some(0x400004));
}

#[test]
fn fps_address_truncated_displacement() {
    let b = fps_buffer();
    assert_eq!(get_fps_address(&b[..19], 0x400000), None);
    assert_eq!(get_fps_address(&b[..20], 0x400000), Some(0x401014));
}

#[test]
fn fps_address_without_signature() {
    assert_eq!(get_fps_address(&[0u8; 32], 0x400000), None);
}

#[test]
fn relative_target_with_other_layout() {
    // jmp rel32 right at the match: E9 xx xx xx xx
    let data = [0xCCu8, 0xE9, 0x10, 0x00, 0x00, 0x00, 0xCC];
    let layout = RelativeLayout { instr_offset: 0, disp_offset: 1, instr_len: 5 };
    assert_eq!(resolve_relative_target(&data, &[Some(0xE9)], 0x1000, layout), Some(0x1000 + 1 + 5 + 0x10));
}

#[test]
fn le_decoding() {
    assert_eq!(i32_from_le(0x00, 0x10, 0x00, 0x00), 0x1000);
    assert_eq!(i32_from_le(0xFF, 0xFF, 0xFF, 0xFF), -1);
    assert_eq!(i32_from_le(0x00, 0x00, 0x00, 0x80), i32::MIN);
}
