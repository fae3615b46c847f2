use anchorscope::commands::{load_anchor, load_replacement, validated_replacement};
use anchorscope::config::{allowed_tools, max_depth, max_file_size, max_nesting_depth, DEFAULT_MAX_DEPTH};
use anchorscope::AnchorScopeError;

#[test]
fn test_max_depth_default() {
    assert_eq!(max_depth(None), DEFAULT_MAX_DEPTH);
}

#[test]
fn test_max_depth_env_override() {
    assert_eq!(max_depth(Some("7")), 7);
}

#[test]
fn test_max_depth_clamped() {
    assert_eq!(max_depth(Some("500")), 100);
}

#[test]
fn test_max_depth_invalid_value() {
    assert_eq!(max_depth(Some("invalid")), DEFAULT_MAX_DEPTH);
}

#[test]
fn pipe_stdout_in_validates_utf8() {
    let result = validated_replacement(&[0xFF, 0xFE]);
    assert!(result.is_err(), "should reject invalid UTF-8");
    assert!(result.unwrap_err().to_spec_string().starts_with("IO_ERROR: invalid UTF-8"));
}

#[test]
fn pipe_stdout_in_normalizes_crlf_to_lf() {
    let saved = validated_replacement(b"line1\r\nline2\r\n").unwrap();
    assert_eq!(saved, b"line1\nline2\n", "CRLF should be normalized to LF");
}

#[test]
fn pipe_file_io_mode_validates_tool_output() {
    let result = validated_replacement(&[0xFF, 0xFE]);
    assert!(matches!(result, Err(AnchorScopeError::IoError(ref m)) if m.starts_with("IO_ERROR: invalid UTF-8")));
}

#[test]
fn pipe_file_io_mode_normalizes_tool_output() {
    assert_eq!(validated_replacement(b"line1\r\nline2\r\n").unwrap(), b"line1\nline2\n");
}

#[test]
fn pipe_file_io_mode_passes_content_path_to_tool() {
    let mut output = b"MODIFIED: ".to_vec();
    output.extend(b"test content for file-io\n");
    assert_eq!(validated_replacement(&output).unwrap(), b"MODIFIED: test content for file-io\n");
}

// ── Further cases ──────────────────────────────────────────────

#[test]
fn numeric_settings() {
    assert_eq!(max_depth(Some("0")), 1);
    assert_eq!(max_depth(Some("+12")), 12);
    assert_eq!(max_depth(Some("-3")), DEFAULT_MAX_DEPTH);
    assert_eq!(max_depth(Some(" 7")), DEFAULT_MAX_DEPTH);
    assert_eq!(max_depth(Some("")), DEFAULT_MAX_DEPTH);
    assert_eq!(max_depth(Some("+")), DEFAULT_MAX_DEPTH);
    assert_eq!(max_depth(Some("99999999999999999999999")), DEFAULT_MAX_DEPTH);
    assert_eq!(max_nesting_depth(None), 100);
    assert_eq!(max_nesting_depth(Some("5000")), 1000);
    assert_eq!(max_nesting_depth(Some("42")), 42);
    assert_eq!(max_file_size(None), 100 * 1024 * 1024);
    assert_eq!(max_file_size(Some("0")), 1);
    assert_eq!(max_file_size(Some("4096")), 4096);
    assert_eq!(max_file_size(Some("99999999999")), 1024 * 1024 * 1024);
    assert_eq!(max_file_size(Some("18446744073709551615")), 1024 * 1024 * 1024);
    assert_eq!(max_file_size(Some("18446744073709551616")), 100 * 1024 * 1024);
    assert_eq!(max_depth(Some("007")), 7);
    assert_eq!(max_depth(Some("12a")), DEFAULT_MAX_DEPTH);
    assert_eq!(max_depth(Some("++3")), DEFAULT_MAX_DEPTH);
}

#[test]
fn tool_lists() {
    assert_eq!(allowed_tools(None), vec!["sed", "awk", "perl", "python3", "node"]);
    assert_eq!(allowed_tools(Some(" cat , ,tr,")), vec!["cat", "tr"]);
    assert_eq!(allowed_tools(Some("")), Vec::<String>::new());
    assert_eq!(allowed_tools(Some("jq")), vec!["jq"]);
    assert_eq!(allowed_tools(Some("\u{3000}wc\t,sort")), vec!["wc", "sort"]);
}

#[test]
fn anchor_sources() {
    assert_eq!(load_anchor(Some("abc"), None).unwrap(), b"abc");
    assert_eq!(load_anchor(Some(""), None).unwrap_err(), "NO_MATCH");
    assert_eq!(
        load_anchor(None, None).unwrap_err(),
        "ERROR: either --anchor or --anchor-file must be provided"
    );
    assert_eq!(
        load_anchor(Some("a"), Some(Ok(b"b".to_vec()))).unwrap_err(),
        "ERROR: --anchor and --anchor-file are mutually exclusive"
    );
    assert_eq!(load_anchor(None, Some(Ok(b"x\r\ny".to_vec()))).unwrap(), b"x\r\ny");
    assert_eq!(load_anchor(None, Some(Ok(Vec::new()))).unwrap_err(), "NO_MATCH");
    assert_eq!(load_anchor(None, Some(Ok(vec![0xC3]))).unwrap_err(), "IO_ERROR: invalid UTF-8");
    assert_eq!(load_anchor(None, Some(Err("IO_ERROR: read failure".to_string()))).unwrap_err(), "IO_ERROR: read failure");
}

#[test]
fn replacement_sources() {
    assert_eq!(load_replacement(Some("new"), None).unwrap(), b"new");
    assert_eq!(load_replacement(Some(""), None).unwrap_err(), "IO_ERROR: no replacement provided");
    assert_eq!(load_replacement(None, Some(Ok(Vec::new()))).unwrap(), b"");
    assert_eq!(load_replacement(None, Some(Ok(b"r\r\n".to_vec()))).unwrap(), b"r\r\n");
    assert_eq!(load_replacement(None, Some(Ok(vec![0xFF]))).unwrap_err(), "IO_ERROR: invalid UTF-8");
    assert_eq!(
        load_replacement(None, None).unwrap_err(),
        "ERROR: either --replacement or --replacement-file must be provided"
    );
    assert_eq!(
        load_replacement(Some("a"), Some(Ok(b"b".to_vec()))).unwrap_err(),
        "ERROR: --replacement and --replacement-file are mutually exclusive"
    );
}

#[test]
fn error_no_replacement_tests_write_no_replacement_returns_error() {
    let err = load_replacement(Some(""), None).unwrap_err();
    assert!(err.contains("IO_ERROR: no replacement provided"), "got: {}", err);
}
