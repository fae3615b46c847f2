use anchorscope::hash::{compute, to_hex};
use anchorscope::trueid;

#[test]
fn test_true_id_uses_hex_encoded_scope_hashes() {
    let parent_scope_hash = "abc123def4567890";
    let child_scope_hash = "1112223334445556";
    let true_id = compute(format!("{}_{}", parent_scope_hash, child_scope_hash).as_bytes());
    assert_eq!(true_id.len(), 16);
    assert!(true_id.chars().all(|c| c.is_ascii_hexdigit()));
    let true_id2 = compute(format!("{}_{}", parent_scope_hash, child_scope_hash).as_bytes());
    assert_eq!(true_id, true_id2);
}

#[test]
fn test_true_id_hex_vs_raw_bytes() {
    let parent_scope_hash_u64: u64 = 0x1234567890ABCDEF;
    let child_scope_hash_u64: u64 = 0xFEDCBA0987654321;
    let parent_hex = format!("{:016x}", parent_scope_hash_u64);
    let child_hex = format!("{:016x}", child_scope_hash_u64);
    let expected_true_id = compute(format!("{}_{}", parent_hex, child_hex).as_bytes());
    let raw_bytes_true_id = compute(format!("{:x}{:x}", parent_scope_hash_u64, child_scope_hash_u64).as_bytes());
    assert_eq!(expected_true_id.len(), 16);
    assert_eq!(raw_bytes_true_id.len(), 16);
}

#[test]
fn test_true_id_deterministic_across_levels() {
    let parent_hash = "abc123def4567890";
    let child_hash = "1112223334445556";
    let true_id_1 = compute(format!("{}_{}", parent_hash, child_hash).as_bytes());
    let true_id_2 = compute(format!("{}_{}", parent_hash, child_hash).as_bytes());
    assert_eq!(true_id_1, true_id_2, "True ID should be deterministic");
}

#[test]
fn test_true_id_different_scope_hashes_different_true_ids() {
    let parent_hash = "abc123def4567890";
    let true_id_1 = compute(format!("{}_{}", parent_hash, "1112223334445556").as_bytes());
    let true_id_2 = compute(format!("{}_{}", parent_hash, "2223334445556667").as_bytes());
    assert_ne!(true_id_1, true_id_2, "Different child scopes should produce different True IDs");
}

#[test]
fn test_true_id_spec_example() {
    let parent_hash = "abcd1234567890ef";
    let child_hash = "fedc9876543210ba";
    let true_id = compute(format!("{}_{}", parent_hash, child_hash).as_bytes());
    assert_eq!(true_id.len(), 16);
    assert!(true_id.chars().all(|c| c.is_ascii_hexdigit()));
    let expected_true_id = compute(format!("{}_{}", parent_hash, child_hash).as_bytes());
    assert_eq!(true_id, expected_true_id);
}

// ── Further cases ──────────────────────────────────────────────

#[test]
fn to_hex_pads_and_lowercases() {
    assert_eq!(to_hex(0), "0000000000000000");
    assert_eq!(to_hex(0x3a7f1c2d4e5b6f8a), "3a7f1c2d4e5b6f8a");
    assert_eq!(to_hex(0xABC), "0000000000000abc");
    assert_eq!(to_hex(u64::MAX), "ffffffffffffffff");
}

#[test]
fn compute_is_xxh3_as_hex() {
    for data in [&b""[..], b"TARGET", b"AAA\nBBB"] {
        assert_eq!(compute(data), format!("{:016x}", xxhash_rust::xxh3::xxh3_64(data)));
    }
    // The hash is not the identity on its input.
    assert_ne!(compute(b"0000000000000000"), "0000000000000000");
}

#[test]
fn true_id_root_level_uses_file_hash() {
    let raw = b"line1\r\nline2\r\n";
    let file_hash = compute(b"line1\nline2\n");
    let region_hash = compute(b"line2");
    let expected = compute(format!("{}_{}", file_hash, region_hash).as_bytes());
    assert_eq!(trueid::compute(raw, &region_hash, None), expected);
}

#[test]
fn true_id_child_level_uses_parent() {
    let region_hash = compute(b"3");
    // The region hash recorded for the parent region "234".
    let parent = &compute(b"234")[..];
    let expected = compute(format!("{}_{}", parent, region_hash).as_bytes());
    assert_eq!(trueid::compute(b"12345", &region_hash, Some(parent)), expected);
}

#[test]
fn true_id_of_located_region() {
    let raw = b"a\r\nfn x() {}\r\nb\n";
    let id = anchorscope::trueid::locate_region(raw, b"fn x() {}", None).unwrap();
    assert_eq!(id.region_hash, anchorscope::hash::compute(b"fn x() {}"));
    let file_hash = anchorscope::hash::compute(b"a\nfn x() {}\nb\n");
    assert_eq!(id.true_id, anchorscope::hash::compute(format!("{}_{}", file_hash, id.region_hash).as_bytes()));
    assert_eq!((id.location.start_line, id.location.end_line), (2, 2));
    let nested = anchorscope::trueid::locate_region(raw, b"fn x() {}", Some("parent")).unwrap();
    assert_eq!(nested.true_id, anchorscope::hash::compute(format!("parent_{}", id.region_hash).as_bytes()));
    assert_eq!(anchorscope::trueid::locate_region(raw, b"fn x() {}\r\n", None).unwrap_err(), "NO_MATCH");
    assert_eq!(anchorscope::trueid::locate_region(b"aa", b"a", None).unwrap_err(), "MULTIPLE_MATCHES");
    assert_eq!(anchorscope::trueid::locate_region(&[0xFE], b"a", None).unwrap_err(), "IO_ERROR: invalid UTF-8");
}
