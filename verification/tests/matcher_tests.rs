use anchorscope::matcher::{map_to_original, normalize_line_endings, resolve, verify_offset, MatchError};

#[test]
fn normalize_lf_only() {
    let raw = b"hello\nworld";
    let (normalized, offset_map) = normalize_line_endings(raw);
    assert_eq!(normalized.as_slice(), b"hello\nworld");
    assert_eq!(offset_map, vec![0, 1, 2, 3, 4, 5, 6, 7, 8, 9, 10]);
}

#[test]
fn normalize_crlf() {
    let raw = b"hello\r\nworld\r\n";
    let (normalized, offset_map) = normalize_line_endings(raw);
    assert_eq!(normalized.as_slice(), b"hello\nworld\n");
    assert_eq!(offset_map, vec![0, 1, 2, 3, 4, 5, 7, 8, 9, 10, 11, 12]);
}

#[test]
fn resolve_single_match() {
    let haystack = b"AAABBBCCC";
    let anchor = b"BBB";
    let m = resolve(haystack, anchor).unwrap();
    assert_eq!(m.byte_start, 3);
    assert_eq!(m.byte_end, 6);
}

#[test]
fn resolve_no_match() {
    let haystack = b"AAABBBCCC";
    let anchor = b"XXX";
    assert!(matches!(resolve(haystack, anchor), Err(MatchError::NoMatch)));
}

#[test]
fn resolve_multiple_matches() {
    let haystack = b"AAA BBB AAA";
    let anchor = b"AAA";
    assert!(matches!(resolve(haystack, anchor), Err(MatchError::MultipleMatches)));
}

#[test]
fn map_to_original_crlf_no_newline() {
    let raw = b"AAA\r\nBBB\r\nCCC\r\n";
    let (normalized, offset_map) = normalize_line_endings(raw);
    let (orig_start, orig_end) = map_to_original(raw, &normalized, &offset_map, 4, 7, raw.len());
    assert_eq!(orig_start, 5);
    assert_eq!(orig_end, 8);
    assert_eq!(&raw[orig_start..orig_end], b"BBB");
}

#[test]
fn map_to_original_crlf_with_newline() {
    let raw = b"AAA\r\nBBB\r\nCCC\r\n";
    let (normalized, offset_map) = normalize_line_endings(raw);
    let (orig_start, orig_end) = map_to_original(raw, &normalized, &offset_map, 4, 8, raw.len());
    assert_eq!(orig_start, 5);
    assert_eq!(orig_end, 10);
    assert_eq!(&raw[orig_start..orig_end], b"BBB\r\n");
}

#[test]
fn verify_offset_formula_crlf() {
    let raw = b"AAA\r\nBBB\r\nCCC\r\n";
    assert!(verify_offset(raw, 4, 5));
    assert!(verify_offset(raw, 7, 8));
    assert!(verify_offset(raw, 8, 10));
    assert!(verify_offset(raw, 11, 13));
}

#[test]
fn end_to_end_crlf_single_line() {
    let raw = b"AAA\r\nBBB\r\nCCC\r\n";
    let anchor = b"BBB";
    let (normalized, offset_map) = normalize_line_endings(raw);
    let anchor_norm = normalize_line_endings(anchor).0;
    let m = resolve(&normalized, &anchor_norm).unwrap();
    assert_eq!(m.byte_start, 4);
    assert_eq!(m.byte_end, 7);
    let (orig_start, orig_end) =
        map_to_original(raw, &normalized, &offset_map, m.byte_start, m.byte_end, raw.len());
    assert_eq!(orig_start, 5);
    assert_eq!(orig_end, 8);
    assert_eq!(&raw[orig_start..orig_end], b"BBB");
}

#[test]
fn end_to_end_crlf_multiline() {
    let raw = b"HEADER\r\nfn foo() {\r\n    return 1;\r\n}\r\nFOOTER\r\n";
    let anchor = b"fn foo() {\n    return 1;\n}";
    let (normalized, offset_map) = normalize_line_endings(raw);
    let anchor_norm = normalize_line_endings(anchor).0;
    let m = resolve(&normalized, &anchor_norm).unwrap();
    assert_eq!(m.byte_start, 7);
    assert_eq!(m.byte_end, 33);
    let (orig_start, orig_end) =
        map_to_original(raw, &normalized, &offset_map, m.byte_start, m.byte_end, raw.len());
    assert_eq!(orig_start, 8);
    assert_eq!(orig_end, 36);
    assert_eq!(&raw[orig_start..orig_end], b"fn foo() {\r\n    return 1;\r\n}");
}

#[test]
fn end_to_end_crlf_multiline_with_trailing_newline() {
    let raw = b"HEADER\r\nfn foo() {\r\n    return 1;\r\n}\r\nFOOTER\r\n";
    let anchor = b"fn foo() {\n    return 1;\n}\n";
    let (normalized, offset_map) = normalize_line_endings(raw);
    let anchor_norm = normalize_line_endings(anchor).0;
    let m = resolve(&normalized, &anchor_norm).unwrap();
    assert_eq!(m.byte_start, 7);
    assert_eq!(m.byte_end, 34);
    let (orig_start, orig_end) =
        map_to_original(raw, &normalized, &offset_map, m.byte_start, m.byte_end, raw.len());
    assert_eq!(orig_start, 8);
    assert_eq!(orig_end, 38);
    assert_eq!(&raw[orig_start..orig_end], b"fn foo() {\r\n    return 1;\r\n}\r\n");
}

#[test]
fn end_to_end_mixed_line_endings() {
    let raw = b"AAA\r\nBBB\nCCC\r\n";
    let anchor = b"BBB";
    let (normalized, offset_map) = normalize_line_endings(raw);
    assert_eq!(normalized.as_slice(), b"AAA\nBBB\nCCC\n");
    let anchor_norm = normalize_line_endings(anchor).0;
    let m = resolve(&normalized, &anchor_norm).unwrap();
    assert_eq!(m.byte_start, 4);
    assert_eq!(m.byte_end, 7);
    let (orig_start, orig_end) =
        map_to_original(raw, &normalized, &offset_map, m.byte_start, m.byte_end, raw.len());
    assert_eq!(orig_start, 5);
    assert_eq!(orig_end, 8);
    assert_eq!(&raw[orig_start..orig_end], b"BBB");
}

#[test]
fn end_to_end_mixed_multiline_anchor() {
    let raw = b"HDR\r\nAAA\r\nBBB\nCCC\nFOOTER\r\n";
    let anchor = b"AAA\nBBB\nCCC";
    let (normalized, offset_map) = normalize_line_endings(raw);
    assert_eq!(normalized.as_slice(), b"HDR\nAAA\nBBB\nCCC\nFOOTER\n");
    let anchor_norm = normalize_line_endings(anchor).0;
    let m = resolve(&normalized, &anchor_norm).unwrap();
    assert_eq!(m.byte_start, 4);
    let (orig_start, orig_end) =
        map_to_original(raw, &normalized, &offset_map, m.byte_start, m.byte_end, raw.len());
    assert_eq!(&raw[orig_start..orig_end], b"AAA\r\nBBB\nCCC");
}

// ── Further cases ──────────────────────────────────────────────

#[test]
fn normalize_keeps_lone_cr() {
    let (normalized, offset_map) = normalize_line_endings(b"a\rb\r");
    assert_eq!(normalized, b"a\rb\r".to_vec());
    assert_eq!(offset_map, vec![0, 1, 2, 3]);
}

#[test]
fn normalize_cr_cr_lf_is_not_idempotent() {
    let (once, map) = normalize_line_endings(b"\r\r\n");
    assert_eq!(once, b"\r\n".to_vec());
    assert_eq!(map, vec![0, 1]);
    let (twice, _) = normalize_line_endings(&once);
    assert_eq!(twice, b"\n".to_vec());
}

#[test]
fn normalize_empty() {
    let (normalized, offset_map) = normalize_line_endings(b"");
    assert!(normalized.is_empty());
    assert!(offset_map.is_empty());
}

#[test]
fn resolve_empty_anchor_is_no_match() {
    assert!(matches!(resolve(b"abc", b""), Err(MatchError::NoMatch)));
}

#[test]
fn resolve_anchor_longer_than_haystack() {
    assert!(matches!(resolve(b"ab", b"abc"), Err(MatchError::NoMatch)));
}

#[test]
fn resolve_overlapping_matches_count() {
    assert!(matches!(resolve(b"aaaa", b"aaa"), Err(MatchError::MultipleMatches)));
}

#[test]
fn resolve_reports_lines() {
    let m = resolve(b"a\nb\nc\nd", b"b\nc").unwrap();
    assert_eq!((m.byte_start, m.byte_end), (2, 5));
    assert_eq!((m.start_line, m.end_line), (2, 3));
    let m = resolve(b"a\nb\nc", b"b\n").unwrap();
    assert_eq!((m.start_line, m.end_line), (2, 2));
}

#[test]
fn map_to_original_ends_where_the_next_byte_comes_from() {
    // The scope ends with LF and a CRLF pair follows: the end stays before it.
    let raw = b"A\n\r\nB";
    let (normalized, offset_map) = normalize_line_endings(raw);
    assert_eq!(normalized, b"A\n\nB".to_vec());
    let (s, e) = map_to_original(raw, &normalized, &offset_map, 0, 2, raw.len());
    assert_eq!((s, e), (0, 2));
    assert!(verify_offset(raw, 2, e));
    // A scope ending with a CRLF-derived LF followed by a blank CRLF line.
    let raw = b"A\r\n\r\nB";
    let (normalized, offset_map) = normalize_line_endings(raw);
    let (s, e) = map_to_original(raw, &normalized, &offset_map, 0, 2, raw.len());
    assert_eq!((s, e), (0, 3));
    assert!(verify_offset(raw, 2, e));
    let (s, e) = map_to_original(raw, &normalized, &offset_map, 2, 4, raw.len());
    assert_eq!((s, e), (3, 6));
}

#[test]
fn verify_offset_with_lone_cr() {
    let raw = b"a\rb";
    assert!(!verify_offset(raw, 2, 2));
    assert!(verify_offset(raw, 0, 0));
}

#[test]
fn match_error_strings() {
    assert_eq!(MatchError::NoMatch.to_spec_string(), "NO_MATCH");
    assert_eq!(MatchError::MultipleMatches.to_spec_string(), "MULTIPLE_MATCHES");
}
