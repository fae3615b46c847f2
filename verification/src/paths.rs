//! The content and replacement file paths of a buffer.

use vstd::prelude::*;
use crate::buffer_path::{spec_true_id_dir, true_id_dir};
use crate::pipe::PipeTarget;
use crate::error::{io_error, io_error_text, lemma_io_error_prefix, IoErrorKind};
use crate::text::{has_prefix, join_path, path_join};
use crate::AnchorScopeError;

verus! {

/// Result of the paths command.
#[derive(Debug)]
pub struct PathsResult {
    pub content_path: String,
    pub replacement_path: String,
}

/// Return the content and replacement paths for a True ID, given the file
/// hash that a search of the buffer found for it.
pub fn execute_for_true_id(temp_dir: &str, true_id: &str, file_hash: Result<String, AnchorScopeError>) -> (r: Result<PathsResult, String>)
    ensures
        match file_hash {
            Ok(h) => r matches Ok(p) && {
                &&& p.content_path@ == path_join(spec_true_id_dir(temp_dir@, h@, true_id@), "content"@)
                &&& p.replacement_path@ == path_join(spec_true_id_dir(temp_dir@, h@, true_id@), "replacement"@)
            },
            Err(e) => r matches Err(msg) && msg@ == match e {
                AnchorScopeError::NoMatch => "NO_MATCH"@,
                AnchorScopeError::MultipleMatches => "MULTIPLE_MATCHES"@,
                AnchorScopeError::HashMismatch => "HASH_MISMATCH"@,
                AnchorScopeError::IoError(m) => m@,
                AnchorScopeError::BufferNotFound => "IO_ERROR: buffer metadata not found"@,
                AnchorScopeError::DuplicateTrueId => "DUPLICATE_TRUE_ID"@,
            },
        },
{
    let file_hash = match file_hash {
        Ok(h) => h,
        Err(e) => return Err(e.to_spec_string()),
    };
    let dir = true_id_dir(temp_dir, file_hash.as_str(), true_id);
    let content_path = join_path(dir.as_str(), "content");
    let replacement_path = join_path(dir.as_str(), "replacement");
    Ok(PathsResult { content_path, replacement_path })
}

/// Return the content and replacement paths for the True ID a label names,
/// given what looking the label up gave (the True ID, or the kind of I/O
/// failure that kept it from being read, such as a missing label file) and,
/// when it named a True ID, the file hash that a search of the buffer found
/// for that True ID. A label that cannot be looked up is reported as an
/// `IO_ERROR:` message.
pub fn execute_for_label(
    temp_dir: &str,
    label_target: Result<String, IoErrorKind>,
    file_hash: Result<String, AnchorScopeError>,
) -> (r: Result<PathsResult, String>)
    ensures
        match label_target {
            Err(kind) => r matches Err(msg) && msg@ == io_error_text(kind) && has_prefix(msg@, "IO_ERROR:"@),
            Ok(t) => match file_hash {
                Ok(h) => r matches Ok(p) && {
                    &&& p.content_path@ == path_join(spec_true_id_dir(temp_dir@, h@, t@), "content"@)
                    &&& p.replacement_path@ == path_join(spec_true_id_dir(temp_dir@, h@, t@), "replacement"@)
                },
                Err(e) => r matches Err(msg) && msg@ == match e {
                    AnchorScopeError::NoMatch => "NO_MATCH"@,
                    AnchorScopeError::MultipleMatches => "MULTIPLE_MATCHES"@,
                    AnchorScopeError::HashMismatch => "HASH_MISMATCH"@,
                    AnchorScopeError::IoError(m) => m@,
                    AnchorScopeError::BufferNotFound => "IO_ERROR: buffer metadata not found"@,
                    AnchorScopeError::DuplicateTrueId => "DUPLICATE_TRUE_ID"@,
                },
            },
        },
{
    let true_id = match label_target {
        Ok(t) => t,
        Err(kind) => {
            proof {
                lemma_io_error_prefix(kind);
            }
            return Err(io_error(kind));
        },
    };
    execute_for_true_id(temp_dir, true_id.as_str(), file_hash)
}

/// Choose the buffer a paths command addresses from `--label` and
/// `--true-id`: exactly one must be given; both together are ambiguous.
pub fn select_paths_target(label: Option<&str>, true_id: Option<&str>) -> (r: Result<PipeTarget, String>)
    ensures
        match (label, true_id) {
            (Some(l), None) => r matches Ok(PipeTarget::Label(s)) && s@ == l@,
            (None, Some(t)) => r matches Ok(PipeTarget::TrueId(s)) && s@ == t@,
            (Some(_), Some(_)) => r matches Err(e) && e@ == "AMBIGUOUS_ANCHOR"@,
            (None, None) => r matches Err(e) && e@ == "IO_ERROR: either --label or --true-id must be provided"@,
        },
{
    match (label, true_id) {
        (Some(l), None) => Ok(PipeTarget::Label(String::from_str(l))),
        (None, Some(t)) => Ok(PipeTarget::TrueId(String::from_str(t))),
        (Some(_), Some(_)) => Err(String::from_str("AMBIGUOUS_ANCHOR")),
        (None, None) => Err(String::from_str("IO_ERROR: either --label or --true-id must be provided")),
    }
}

} // verus!
