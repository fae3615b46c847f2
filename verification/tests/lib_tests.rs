use anchorscope::error::{io_error, map_io_error_read, map_io_error_write, IoErrorCause, IoErrorKind};
use anchorscope::hash;
use anchorscope::{read, AnchorScopeError};

#[test]
fn read_basic() {
    let result = read(b"AAA\nBBB\nCCC\n", b"BBB").unwrap();
    assert_eq!(result.content, b"BBB");
    assert_eq!(result.scope_hash.len(), 16);
}

#[test]
fn lib_read_no_match() {
    let err = read(b"AAA\nBBB\nCCC\n", b"XXX").unwrap_err();
    assert!(matches!(err, AnchorScopeError::NoMatch));
}

#[test]
fn lib_read_multiple_matches() {
    let err = read(b"AAA\nBBB\nAAA\n", b"AAA").unwrap_err();
    assert!(matches!(err, AnchorScopeError::MultipleMatches));
}

#[test]
fn write_basic() {
    let raw = b"AAA\nBBB\nCCC\n";
    let read_result = read(raw, b"BBB").unwrap();
    let (content, write_result) = anchorscope::write(raw, b"BBB", &read_result.scope_hash, b"REPLACED").unwrap();
    assert_eq!(String::from_utf8(content).unwrap(), "AAA\nREPLACED\nCCC\n");
    assert!(write_result.bytes_written > 0);
}

#[test]
fn lib_write_hash_mismatch() {
    let err = anchorscope::write(b"AAA\nBBB\nCCC\n", b"BBB", "0000000000000000", b"X").unwrap_err();
    assert!(matches!(err, AnchorScopeError::HashMismatch));
}

#[test]
fn error_display() {
    assert_eq!(AnchorScopeError::NoMatch.to_spec_string(), "NO_MATCH");
    assert_eq!(AnchorScopeError::MultipleMatches.to_spec_string(), "MULTIPLE_MATCHES");
    assert_eq!(AnchorScopeError::HashMismatch.to_spec_string(), "HASH_MISMATCH");
    assert_eq!(
        AnchorScopeError::IoError("IO_ERROR: file not found".to_string()).to_spec_string(),
        "IO_ERROR: file not found"
    );
}

// ── Further cases ──────────────────────────────────────────────

#[test]
fn read_invalid_utf8_is_io_error() {
    let err = read(b"\xFF\xFE", b"any").unwrap_err();
    match err {
        AnchorScopeError::IoError(msg) => assert_eq!(msg, "IO_ERROR: invalid UTF-8"),
        other => panic!("unexpected {:?}", other),
    }
}

#[test]
fn write_invalid_utf8_is_io_error() {
    let err = anchorscope::write(b"\xFF", b"any", "0123456789abcdef", b"new").unwrap_err();
    assert!(matches!(err, AnchorScopeError::IoError(ref m) if m == "IO_ERROR: invalid UTF-8"));
}

#[test]
fn read_content_is_normalized_anchor() {
    let result = read(b"Some prefix\r\nTARGET\r\nSome suffix\r\n", b"TARGET").unwrap();
    assert_eq!(result.content, b"TARGET");
    let result = read(b"x\r\ny\r\nz", b"x\r\ny").unwrap();
    assert_eq!(result.content, b"x\ny");
    assert_eq!(result.scope_hash, hash::compute(b"x\ny"));
}

#[test]
fn read_hash_is_hash_of_content() {
    let result = read(b"AAA\nBBB\nCCC\n", b"BBB").unwrap();
    assert_eq!(result.scope_hash, hash::compute(&result.content));
    assert!(result.scope_hash.chars().all(|c| c.is_ascii_hexdigit() && !c.is_ascii_uppercase()));
}

#[test]
fn write_crlf_preserves_line_endings_outside_scope() {
    let raw = b"AAA\r\nBBB\r\nCCC\r\n";
    let r = read(raw, b"BBB").unwrap();
    let (out, res) = anchorscope::write(raw, b"BBB", &r.scope_hash, b"REPLACED").unwrap();
    assert_eq!(out, b"AAA\r\nREPLACED\r\nCCC\r\n".to_vec());
    assert_eq!(res.bytes_written, out.len());
}

#[test]
fn write_crlf_multiline_anchor_keeps_outside_bytes() {
    let raw = b"HEADER\r\nfn foo() {\r\n    return 1;\r\n}\r\nFOOTER\r\n";
    let anchor = b"fn foo() {\n    return 1;\n}";
    let r = read(raw, anchor).unwrap();
    let (out, _) = anchorscope::write(raw, anchor, &r.scope_hash, b"fn foo() {\n    return 42;\n}").unwrap();
    assert_eq!(out, b"HEADER\r\nfn foo() {\n    return 42;\n}\r\nFOOTER\r\n".to_vec());
}

#[test]
fn write_keeps_crlf_after_lf_scope() {
    // The scope "A\n" ends with LF and the next original bytes are a CRLF pair.
    let raw = b"A\n\r\nB";
    let r = read(raw, b"A\n").unwrap();
    let (out, res) = anchorscope::write(raw, b"A\n", &r.scope_hash, b"X").unwrap();
    assert_eq!(out, b"X\r\nB".to_vec());
    assert_eq!(res.bytes_written, 4);
}

#[test]
fn write_scope_followed_by_blank_crlf_line() {
    let raw = b"A\r\n\r\nB";
    let r = read(raw, b"A\n").unwrap();
    let (out, res) = anchorscope::write(raw, b"A\n", &r.scope_hash, b"X").unwrap();
    assert_eq!(out, b"X\r\nB".to_vec());
    assert_eq!(res.bytes_written, 4);
}

#[test]
fn write_with_lone_cr_before_scope_is_write_failure() {
    let raw = b"a\rb\n";
    let r = read(raw, b"b").unwrap();
    let err = anchorscope::write(raw, b"b", &r.scope_hash, b"X").unwrap_err();
    assert!(matches!(err, AnchorScopeError::IoError(ref m) if m == "IO_ERROR: write failure"));
}

#[test]
fn write_empty_replacement_deletes_scope() {
    let raw = b"keep DROP keep";
    let r = read(raw, b"DROP ").unwrap();
    let (out, res) = anchorscope::write(raw, b"DROP ", &r.scope_hash, b"").unwrap();
    assert_eq!(out, b"keep keep".to_vec());
    assert_eq!(res.bytes_written, 9);
}

#[test]
fn io_error_strings() {
    assert_eq!(io_error(map_io_error_read(IoErrorCause::NotFound)), "IO_ERROR: file not found");
    assert_eq!(io_error(IoErrorKind::PermissionDenied), "IO_ERROR: permission denied");
    assert_eq!(io_error(IoErrorKind::ReadFailure), "IO_ERROR: read failure");
    assert_eq!(io_error(IoErrorKind::WriteFailure), "IO_ERROR: write failure");
    assert_eq!(io_error(IoErrorKind::InvalidUtf8), "IO_ERROR: invalid UTF-8");
    assert_eq!(anchorscope::error::hash_mismatch(), "HASH_MISMATCH");
    assert_eq!(AnchorScopeError::DuplicateTrueId.to_spec_string(), "DUPLICATE_TRUE_ID");
    assert!(AnchorScopeError::BufferNotFound.to_spec_string().starts_with("IO_ERROR:"));
}

#[test]
fn io_error_mapping() {
    assert_eq!(map_io_error_read(IoErrorCause::PermissionDenied), IoErrorKind::PermissionDenied);
    assert_eq!(map_io_error_read(IoErrorCause::Other), IoErrorKind::ReadFailure);
    assert_eq!(map_io_error_write(IoErrorCause::NotFound), IoErrorKind::WriteFailure);
    assert_eq!(map_io_error_write(IoErrorCause::PermissionDenied), IoErrorKind::PermissionDenied);
    assert_eq!(map_io_error_write(IoErrorCause::Other), IoErrorKind::WriteFailure);
}
