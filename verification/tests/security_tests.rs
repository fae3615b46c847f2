use anchorscope::security::{default_allowed_tools, validate_file_path, validate_file_size, validate_tool_name};
use anchorscope::AnchorScopeError;

fn denied(r: &Result<(), AnchorScopeError>) -> bool {
    matches!(r, Err(AnchorScopeError::IoError(m)) if m == "IO_ERROR: permission denied")
}

#[test]
fn test_validate_tool_name_allows_whitelisted_tool() {
    let allowed = default_allowed_tools();
    assert!(validate_tool_name("sed", &allowed).is_ok());
    assert!(validate_tool_name("awk", &allowed).is_ok());
    assert!(validate_tool_name("perl", &allowed).is_ok());
}

#[test]
fn test_validate_tool_name_blocks_path() {
    let allowed = default_allowed_tools();
    assert!(validate_tool_name("/bin/sh", &allowed).is_err());
    assert!(validate_tool_name("../tmp/malicious", &allowed).is_err());
}

#[test]
fn test_validate_tool_name_blocks_injection() {
    let allowed = default_allowed_tools();
    assert!(validate_tool_name("sed;rm -rf /", &allowed).is_err());
    assert!(validate_tool_name("tool|cat /etc/passwd", &allowed).is_err());
    assert!(validate_tool_name("tool$()", &allowed).is_err());
}

#[test]
fn command_injection_blocked() {
    let r = validate_tool_name("sed;rm -rf /", &default_allowed_tools());
    assert!(r.is_err());
    assert!(r.unwrap_err().to_spec_string().contains("IO_ERROR"));
}

#[test]
fn invalid_tool_blocked() {
    let r = validate_tool_name("malicious_tool", &default_allowed_tools());
    assert!(r.is_err());
    assert!(r.unwrap_err().to_spec_string().contains("IO_ERROR"));
}

#[test]
fn absolute_path_blocked() {
    let r = validate_tool_name("/bin/sh", &default_allowed_tools());
    assert!(r.is_err());
    assert!(r.unwrap_err().to_spec_string().contains("IO_ERROR"));
}

#[test]
fn path_traversal_blocked() {
    let r = validate_file_path("../etc/passwd", "/home/user");
    assert!(r.is_err());
    let msg = r.unwrap_err().to_spec_string();
    assert!(msg.contains("IO_ERROR") || msg.contains("permission"));
}

// ── Further cases ──────────────────────────────────────────────

#[test]
fn default_tools_are_listed() {
    let tools = default_allowed_tools();
    assert_eq!(tools, vec!["sed", "awk", "perl", "python3", "node"]);
}

#[test]
fn tool_must_be_on_list_and_plain() {
    let allowed = vec!["cat".to_string(), "a\\b".to_string()];
    assert!(validate_tool_name("cat", &allowed).is_ok());
    assert!(denied(&validate_tool_name("sed", &allowed)));
    assert!(denied(&validate_tool_name("a\\b", &allowed)));
    assert!(denied(&validate_tool_name("cat\t", &allowed)));
    assert!(denied(&validate_tool_name("`cat`", &allowed)));
}

#[test]
fn file_path_resolution() {
    assert_eq!(validate_file_path("a/b.txt", "/work").unwrap(), "/work/a/b.txt");
    assert_eq!(validate_file_path("b.txt", "/work/").unwrap(), "/work/b.txt");
    assert_eq!(validate_file_path("/abs/b.txt", "/work").unwrap(), "/abs/b.txt");
    assert_eq!(validate_file_path("b.txt", "").unwrap(), "b.txt");
    assert!(validate_file_path("a/../b", "/work").is_err());
    assert!(validate_file_path("a..b", "/work").is_err());
    assert!(validate_file_path("a.b", "/work").is_ok());
    let long = "x".repeat(2049);
    assert!(validate_file_path(&long, "/work").is_err());
    let limit = "x".repeat(2048);
    assert!(validate_file_path(&limit, "/work").is_ok());
}

#[test]
fn file_size_limit() {
    assert!(validate_file_size(13).is_ok());
    assert!(validate_file_size(100 * 1024 * 1024).is_ok());
    assert!(denied(&validate_file_size(100 * 1024 * 1024 + 1)));
}
