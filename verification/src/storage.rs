//! Records of the anchor buffer and the decisions taken on what a search of
//! the buffer found.

use vstd::prelude::*;
use crate::error::{buffer_failure, buffer_failure_kind, io_error, io_error_text, map_io_error_read, IoErrorCause, IoErrorKind};
use crate::AnchorScopeError;

verus! {

/// Raised when the same true_id exists in multiple locations, violating determinism.
#[derive(Debug)]
pub struct AmbiguousAnchorError {
    pub true_id: String,
    pub locations: Vec<String>,
}

/// Metadata of an anchor: the file, the anchor text, its scope hash and lines.
#[derive(Debug)]
pub struct AnchorMeta {
    pub file: String,
    pub anchor: String,
    pub hash: String,
    pub line_range: (usize, usize),
}

/// Metadata of a buffer: its True ID, its parent's, its scope hash and anchor.
#[derive(Debug)]
pub struct BufferMeta {
    pub true_id: String,
    pub parent_true_id: Option<String>,
    pub scope_hash: String,
    /// The anchor text that was matched.
    pub anchor: String,
}

/// A label: an alias for a True ID.
#[derive(Debug)]
pub struct LabelMeta {
    pub true_id: String,
}

/// The outcome of a search that found the locations in `found` (in the order
/// found, the search stopping at the second): none, exactly one, or an
/// ambiguity.
pub fn unique_location(true_id: &str, found: Vec<String>) -> (r: Result<Option<String>, AmbiguousAnchorError>)
    ensures
        found@.len() == 0 ==> r == Ok::<Option<String>, AmbiguousAnchorError>(None),
        found@.len() == 1 ==> r == Ok::<Option<String>, AmbiguousAnchorError>(Some(found@[0])),
        found@.len() > 1 ==> (r matches Err(e) && e.true_id@ == true_id@ && e.locations@ == found@),
{
    if found.len() == 0 {
        Ok(None)
    } else if found.len() == 1 {
        let mut found = found;
        let first = found.pop();
        match first {
            Some(f) => Ok(Some(f)),
            None => Ok(None),
        }
    } else {
        Err(AmbiguousAnchorError { true_id: String::from_str(true_id), locations: found })
    }
}

/// Return the file hash found for a True ID: `BufferNotFound` when the search
/// found none, `DuplicateTrueId` when it found the True ID under several file
/// hashes.
pub fn file_hash_for_true_id(search: Result<Option<String>, AmbiguousAnchorError>) -> (r: Result<String, AnchorScopeError>)
    ensures
        match search {
            Ok(Some(h)) => r == Ok::<String, AnchorScopeError>(h),
            Ok(None) => r matches Err(AnchorScopeError::BufferNotFound),
            Err(_) => r matches Err(AnchorScopeError::DuplicateTrueId),
        },
{
    match search {
        Ok(Some(hash)) => Ok(hash),
        Ok(None) => Err(AnchorScopeError::BufferNotFound),
        Err(_) => Err(AnchorScopeError::DuplicateTrueId),
    }
}

/// `DuplicateTrueId` when the search found the True ID at several places
/// within one file hash.
pub fn check_duplicate_true_id_in_file_hash(search: Result<Option<String>, AmbiguousAnchorError>) -> (r: Result<(), AnchorScopeError>)
    ensures
        search is Ok <==> r is Ok,
        r matches Err(e) ==> e is DuplicateTrueId,
{
    match search {
        Ok(_) => Ok(()),
        Err(_) => Err(AnchorScopeError::DuplicateTrueId),
    }
}

/// The error reported for a failed buffer file operation.
pub fn io_error_to_spec(cause: IoErrorCause) -> (e: AnchorScopeError)
    ensures
        e matches AnchorScopeError::IoError(msg) && msg@ == io_error_text(buffer_failure_kind(cause)),
{
    AnchorScopeError::IoError(io_error(buffer_failure(cause)))
}

/// Loaded buffer metadata answers for `true_id` when it records that True ID
/// or that scope hash.
pub fn buffer_meta_matches(meta: &BufferMeta, true_id: &str) -> (r: bool)
    ensures
        r == (meta.true_id@ == true_id@ || meta.scope_hash@ == true_id@),
{
    let wanted = String::from_str(true_id);
    meta.true_id == wanted || meta.scope_hash == wanted
}

/// The anchor metadata that a buffer's metadata stands for, given the source
/// file path recorded for its file hash.
pub fn anchor_meta_from_buffer(file: String, buffer_meta: &BufferMeta) -> (r: AnchorMeta)
    ensures
        r.file == file,
        r.anchor@ == buffer_meta.anchor@,
        r.hash@ == buffer_meta.scope_hash@,
        r.line_range == (0usize, 0usize),
{
    AnchorMeta {
        file,
        anchor: buffer_meta.anchor.clone(),
        hash: buffer_meta.scope_hash.clone(),
        line_range: (0, 0),
    }
}

} // verus!
