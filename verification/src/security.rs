//! Checks that guard paths and external tool names.

use vstd::prelude::*;
use crate::error::{io_error, io_error_text, IoErrorKind};
use crate::text::{contains_pair, is_absolute_path, join_path, path_join, str_contains_char, str_contains_pair};
use crate::AnchorScopeError;
use vstd::utf8::encode_utf8;

verus! {

/// Maximum path length (in bytes), to prevent resource exhaustion.
pub const MAX_PATH_LENGTH: usize = 2048;

/// Maximum file size (100MB).
pub const MAX_FILE_SIZE: u64 = 104857600;

/// The error every refused check reports.
pub open spec fn is_permission_denied(e: AnchorScopeError) -> bool {
    e matches AnchorScopeError::IoError(msg) && msg@ == io_error_text(IoErrorKind::PermissionDenied)
}

fn permission_denied() -> (e: AnchorScopeError)
    ensures
        is_permission_denied(e),
{
    AnchorScopeError::IoError(io_error(IoErrorKind::PermissionDenied))
}

/// A shell metacharacter or control character that a tool name may not hold.
pub open spec fn is_dangerous_char(c: char) -> bool {
    c == ';' || c == '|' || c == '&' || c == '$' || c == '`' || c == '\n' || c == '\r' || c == '\t'
}

/// The tool name holds no path separator and no dangerous character.
pub open spec fn tool_name_is_plain(tool: Seq<char>) -> bool {
    &&& !tool.contains('/')
    &&& !tool.contains('\\')
    &&& forall|i: int| 0 <= i < tool.len() ==> !is_dangerous_char(#[trigger] tool[i])
}

/// The character views of a list of strings.
pub open spec fn string_views(v: Seq<String>) -> Seq<Seq<char>> {
    v.map_values(|s: String| s@)
}

/// The tools allowed when no list is configured.
pub fn default_allowed_tools() -> (tools: Vec<String>)
    ensures
        string_views(tools@) == seq!["sed"@, "awk"@, "perl"@, "python3"@, "node"@],
{
    let mut tools: Vec<String> = Vec::new();
    tools.push(String::from_str("sed"));
    tools.push(String::from_str("awk"));
    tools.push(String::from_str("perl"));
    tools.push(String::from_str("python3"));
    tools.push(String::from_str("node"));
    assert(string_views(tools@) =~= seq!["sed"@, "awk"@, "perl"@, "python3"@, "node"@]);
    tools
}

fn has_dangerous_char(tool: &str) -> (r: bool)
    ensures
        r == exists|i: int| 0 <= i < tool@.len() && is_dangerous_char(#[trigger] tool@[i]),
{
    let n = tool.unicode_len();
    let mut i: usize = 0;
    while i < n
        invariant
            n == tool@.len(),
            i <= n,
            forall|k: int| 0 <= k < i ==> !is_dangerous_char(#[trigger] tool@[k]),
        decreases n - i,
    {
        let c = tool.get_char(i);
        if c == ';' || c == '|' || c == '&' || c == '$' || c == '`' || c == '\n' || c == '\r' || c == '\t' {
            assert(is_dangerous_char(tool@[i as int]));
            return true;
        }
        i = i + 1;
    }
    false
}

fn list_contains(list: &Vec<String>, item: &str) -> (r: bool)
    ensures
        r == string_views(list@).contains(item@),
{
    let wanted = String::from_str(item);
    let mut i: usize = 0;
    while i < list.len()
        invariant
            i <= list@.len(),
            wanted@ == item@,
            forall|k: int| 0 <= k < i ==> list@[k]@ != item@,
        decreases list@.len() - i,
    {
        if list[i] == wanted {
            assert(string_views(list@)[i as int] == item@);
            return true;
        }
        i = i + 1;
    }
    assert forall|k: int| 0 <= k < string_views(list@).len() implies string_views(list@)[k] != item@ by {
        assert(string_views(list@)[k] == list@[k]@);
    }
    false
}

/// Validate a tool name to prevent command injection: it may hold no path
/// separator and no shell metacharacter, and must be on the allowed list.
pub fn validate_tool_name(tool: &str, allowed_tools: &Vec<String>) -> (r: Result<(), AnchorScopeError>)
    ensures
        r is Ok <==> tool_name_is_plain(tool@) && string_views(allowed_tools@).contains(tool@),
        r matches Err(e) ==> is_permission_denied(e),
{
    if str_contains_char(tool, '/') || str_contains_char(tool, '\\') {
        return Err(permission_denied());
    }
    if has_dangerous_char(tool) {
        return Err(permission_denied());
    }
    if !list_contains(allowed_tools, tool) {
        return Err(permission_denied());
    }
    Ok(())
}

/// The path that `validate_file_path` accepts `path` as, relative to
/// `working_dir`, or `None` when it refuses it.
pub open spec fn resolved_path(path: Seq<char>, working_dir: Seq<char>) -> Option<Seq<char>> {
    if encode_utf8(path).len() > MAX_PATH_LENGTH || contains_pair(path, '.', '.') {
        None
    } else if is_absolute_path(path) {
        Some(path)
    } else {
        Some(path_join(working_dir, path))
    }
}

/// Validate a file path: refuse paths longer than `MAX_PATH_LENGTH` bytes and
/// paths holding `..`, and resolve relative paths against `working_dir`.
pub fn validate_file_path(path: &str, working_dir: &str) -> (r: Result<String, AnchorScopeError>)
    ensures
        match r {
            Ok(p) => resolved_path(path@, working_dir@) == Some(p@),
            Err(e) => resolved_path(path@, working_dir@) is None && is_permission_denied(e),
        },
{
    if path.as_bytes().len() > MAX_PATH_LENGTH {
        return Err(permission_denied());
    }
    if str_contains_pair(path, '.', '.') {
        return Err(permission_denied());
    }
    if path.unicode_len() > 0 && path.get_char(0) == '/' {
        Ok(String::from_str(path))
    } else {
        Ok(join_path(working_dir, path))
    }
}

/// Validate a file size: files larger than `MAX_FILE_SIZE` are refused.
pub fn validate_file_size(len: u64) -> (r: Result<(), AnchorScopeError>)
    ensures
        r is Ok <==> len <= MAX_FILE_SIZE,
        r matches Err(e) ==> is_permission_denied(e),
{
    if len > MAX_FILE_SIZE {
        return Err(permission_denied());
    }
    Ok(())
}

} // verus!
