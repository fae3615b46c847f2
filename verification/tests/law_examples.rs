//! Concrete instances of the library's laws.

use anchorscope::matcher::normalize_line_endings;
use anchorscope::{read, AnchorScopeError};

#[test]
fn read_hash_is_accepted_by_write() {
    let raw = b"one\r\ntwo\nthree\r\n";
    for anchor in [&b"two"[..], b"one\ntwo", b"three\r\n"] {
        let r = read(raw, anchor).unwrap();
        match anchorscope::write(raw, anchor, &r.scope_hash, b"X") {
            Ok(_) => {}
            Err(AnchorScopeError::IoError(m)) => assert_eq!(m, "IO_ERROR: write failure"),
            Err(e) => panic!("unexpected {:?}", e),
        }
    }
}

#[test]
fn write_replaces_exactly_the_scope_on_crlf_file() {
    let raw = b"a\r\nb\r\nc\r\n";
    let r = read(raw, b"b\n").unwrap();
    let (out, _) = anchorscope::write(raw, b"b\n", &r.scope_hash, b"Z").unwrap();
    // The original bytes of the scope are "b\r\n"; everything around them stays.
    assert_eq!(out, b"a\r\nZc\r\n".to_vec());
}

#[test]
fn write_keeps_bytes_after_lf_scope() {
    // Scope "x\n" ends with LF; the mapped end is followed by a CRLF pair.
    let raw = b"x\n\r\ny";
    let r = read(raw, b"x\n").unwrap();
    let (out, _) = anchorscope::write(raw, b"x\n", &r.scope_hash, b"Q").unwrap();
    assert_eq!(out, b"Q\r\ny".to_vec());
}

#[test]
fn lone_cr_inside_scope_fails_the_offset_check() {
    // A lone CR counts in the offset formula, so the scope's end does not pass it.
    let raw = b"\ry\n\r\nz";
    let r = read(raw, b"\ry\n").unwrap();
    let err = anchorscope::write(raw, b"\ry\n", &r.scope_hash, b"Q").unwrap_err();
    assert!(matches!(err, AnchorScopeError::IoError(ref m) if m == "IO_ERROR: write failure"));
}

#[test]
fn normalization_without_cr_is_identity() {
    let raw = b"plain\ntext\n";
    let (n, map) = normalize_line_endings(raw);
    assert_eq!(n, raw.to_vec());
    assert_eq!(map, (0..raw.len()).collect::<Vec<usize>>());
}

#[test]
fn segment_between_boundaries_normalizes_to_slice() {
    let raw = b"A\r\nB\nC\r\n";
    let (n, map) = normalize_line_endings(raw);
    let boundary = |k: usize| if k < map.len() { map[k] } else { raw.len() };
    for a in 0..=n.len() {
        for b in a..=n.len() {
            let segment = &raw[boundary(a)..boundary(b)];
            assert_eq!(normalize_line_endings(segment).0, n[a..b].to_vec());
        }
    }
}

#[test]
fn read_content_equals_normalized_anchor() {
    let raw = b"p\r\nq\r\nr";
    let anchor = b"p\r\nq";
    let r = read(raw, anchor).unwrap();
    assert_eq!(r.content, normalize_line_endings(anchor).0);
}

#[test]
fn nested_true_id_follows_parent_not_file() {
    let parent = |depth: usize| anchorscope::nested_read::ParentScope {
        content: b"xay".to_vec(),
        true_id: "p".to_string(),
        depth: Ok(depth),
        scope_hash: Ok(anchorscope::hash::compute(b"xay")),
    };
    let a = anchorscope::nested_read::nested_read(b"one xay file", b"a", Some(parent(0)), 5).unwrap();
    let b = anchorscope::nested_read::nested_read(b"another\r\nxay", b"a", Some(parent(2)), 9).unwrap();
    assert_ne!(a.file_hash, b.file_hash);
    assert_eq!(a.scope_hash, b.scope_hash);
    assert_eq!(a.true_id, b.true_id);
}

#[test]
fn nesting_limit_examples() {
    let parent = |depth: usize| anchorscope::nested_read::ParentScope {
        content: b"xay".to_vec(),
        true_id: "p".to_string(),
        depth: Ok(depth),
        scope_hash: Ok("h".to_string()),
    };
    assert!(anchorscope::nested_read::nested_read(b"xay", b"a", Some(parent(1)), 3).is_ok());
    assert!(anchorscope::nested_read::nested_read(b"xay", b"a", Some(parent(2)), 3).is_err());
    assert_eq!(anchorscope::nested_read::nested_read(b"xay", b"q", None, 1).unwrap_err(), "NO_MATCH");
}
