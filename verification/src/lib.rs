//! Deterministic scoped editing: exact byte-level anchor matching over
//! CRLF-normalized content, with hash verification of the matched scope.
//!
//! `read` locates an anchor in a file's bytes and returns the hash and bytes
//! of the matched scope; `write` checks that hash and splices a replacement
//! into the original bytes, leaving everything outside the scope untouched.

pub mod buffer_path;
pub mod cli;
pub mod commands;
pub mod config;
pub mod error;
pub mod hash;
pub mod label;
pub mod laws;
pub mod matcher;
pub mod nested_read;
pub mod paths;
pub mod pipe;
pub mod security;
pub mod storage;
pub mod text;
pub mod tree;
pub mod trueid;

use vstd::prelude::*;
use vstd::utf8::valid_utf8;
use crate::error::{io_error, IoErrorKind, io_error_text};
use crate::hash::{compute, hex16, xxh3_64_digest};
use crate::matcher::{
    as_ints, count_byte, lemma_count_byte_le_len, lemma_offsets_in_bounds, map_to_original, normalize,
    normalize_line_endings, no_occurrence, offset_consistent, offsets, original_range, resolve,
    several_occurrences, unique_occurrence_at, verify_offset, MatchError, CR,
};
use crate::text::{append_range, copy_range, is_valid_utf8};

verus! {

/// Result of a successful read operation.
#[derive(Debug)]
pub struct ReadResult {
    /// xxh3_64 hash of the matched scope (lowercase 16-char hex).
    pub scope_hash: String,
    /// Raw bytes of the matched scope (normalized: CRLF → LF).
    pub content: Vec<u8>,
}

/// Result of a successful write operation.
#[derive(Debug)]
pub struct WriteResult {
    /// Total number of bytes written to the file.
    pub bytes_written: usize,
}

/// Errors that can occur during read/write operations.
#[derive(Debug)]
pub enum AnchorScopeError {
    /// The anchor was not found in the file.
    NoMatch,
    /// The anchor matched multiple locations in the file.
    MultipleMatches,
    /// The computed hash does not match the expected hash.
    HashMismatch,
    /// I/O error with a description.
    IoError(String),
    /// No anchor buffer holds the requested True ID.
    BufferNotFound,
    /// The same True ID was found at more than one place in the anchor buffer.
    DuplicateTrueId,
}

impl AnchorScopeError {
    /// The protocol's error string for this error.
    pub fn to_spec_string(&self) -> (s: String)
        ensures
            s@ == match self {
                AnchorScopeError::NoMatch => "NO_MATCH"@,
                AnchorScopeError::MultipleMatches => "MULTIPLE_MATCHES"@,
                AnchorScopeError::HashMismatch => "HASH_MISMATCH"@,
                AnchorScopeError::IoError(msg) => msg@,
                AnchorScopeError::BufferNotFound => "IO_ERROR: buffer metadata not found"@,
                AnchorScopeError::DuplicateTrueId => "DUPLICATE_TRUE_ID"@,
            },
    {
        match self {
            AnchorScopeError::NoMatch => String::from_str("NO_MATCH"),
            AnchorScopeError::MultipleMatches => String::from_str("MULTIPLE_MATCHES"),
            AnchorScopeError::HashMismatch => String::from_str("HASH_MISMATCH"),
            AnchorScopeError::IoError(msg) => msg.clone(),
            AnchorScopeError::BufferNotFound => String::from_str("IO_ERROR: buffer metadata not found"),
            AnchorScopeError::DuplicateTrueId => String::from_str("DUPLICATE_TRUE_ID"),
        }
    }
}

/// The outcome that `read` owes on the bytes `raw` of a file and an anchor.
pub open spec fn read_outcome(raw: Seq<u8>, anchor: Seq<u8>, r: Result<ReadResult, AnchorScopeError>) -> bool {
    let n = normalize(raw);
    let a = normalize(anchor);
    match r {
        Ok(res) => {
            &&& valid_utf8(raw)
            &&& exists|p: int| unique_occurrence_at(n, a, p)
            &&& res.content@ == a
            &&& res.scope_hash@ == hex16(xxh3_64_digest(a))
        },
        Err(AnchorScopeError::IoError(msg)) => !valid_utf8(raw) && msg@ == io_error_text(IoErrorKind::InvalidUtf8),
        Err(AnchorScopeError::NoMatch) => valid_utf8(raw) && no_occurrence(n, a),
        Err(AnchorScopeError::MultipleMatches) => valid_utf8(raw) && several_occurrences(n, a),
        Err(_) => false,
    }
}

/// Read a scoped region from the bytes `raw` of a file.
///
/// Matches `anchor` against the content (with CRLF → LF normalization of
/// both), and returns the xxh3_64 hash and the bytes of the matched scope.
pub fn read(raw: &[u8], anchor: &[u8]) -> (r: Result<ReadResult, AnchorScopeError>)
    ensures
        read_outcome(raw@, anchor@, r),
{
    if !is_valid_utf8(raw) {
        return Err(AnchorScopeError::IoError(io_error(IoErrorKind::InvalidUtf8)));
    }
    let (file_normalized, _offset_map) = normalize_line_endings(raw);
    let (anchor_normalized, _anchor_map) = normalize_line_endings(anchor);
    let m = match resolve(file_normalized.as_slice(), anchor_normalized.as_slice()) {
        Ok(m) => m,
        Err(MatchError::NoMatch) => return Err(AnchorScopeError::NoMatch),
        Err(MatchError::MultipleMatches) => return Err(AnchorScopeError::MultipleMatches),
    };
    let content = copy_range(file_normalized.as_slice(), m.byte_start, m.byte_end);
    assert(content@ == anchor_normalized@);
    let scope_hash = compute(content.as_slice());
    Ok(ReadResult { scope_hash, content })
}


/// The original byte range that replaces the normalized scope `ns..ne` of `raw`.
pub open spec fn scope_range(raw: Seq<u8>, ns: int, ne: int) -> (int, int) {
    original_range(offsets(raw), ns, ne, raw.len() as int)
}

/// Both ends of the original range pass the offset formula check.
pub open spec fn scope_range_verified(raw: Seq<u8>, ns: int, ne: int) -> bool {
    &&& offset_consistent(raw, ns, scope_range(raw, ns, ne).0)
    &&& offset_consistent(raw, ne, scope_range(raw, ns, ne).1)
}

/// `raw` with the original range of the normalized scope `ns..ne` replaced by `replacement`.
pub open spec fn spliced(raw: Seq<u8>, replacement: Seq<u8>, ns: int, ne: int) -> Seq<u8> {
    raw.take(scope_range(raw, ns, ne).0) + replacement + raw.skip(scope_range(raw, ns, ne).1)
}

/// The outcome that `write` owes on the bytes `raw` of a file, an anchor, the
/// expected scope hash and a replacement.
pub open spec fn write_outcome(
    raw: Seq<u8>,
    anchor: Seq<u8>,
    expected_hash: Seq<char>,
    replacement: Seq<u8>,
    r: Result<(Vec<u8>, WriteResult), AnchorScopeError>,
) -> bool {
    let n = normalize(raw);
    let a = normalize(anchor);
    let hash_ok = hex16(xxh3_64_digest(a)) == expected_hash;
    match r {
        Ok((out, res)) => {
            &&& valid_utf8(raw)
            &&& hash_ok
            &&& exists|p: int| {
                &&& #[trigger] unique_occurrence_at(n, a, p)
                &&& scope_range_verified(raw, p, p + a.len())
                &&& out@ == spliced(raw, replacement, p, p + a.len())
            }
            &&& res.bytes_written == out@.len()
        },
        Err(AnchorScopeError::HashMismatch) => {
            &&& valid_utf8(raw)
            &&& exists|p: int| unique_occurrence_at(n, a, p)
            &&& !hash_ok
        },
        Err(AnchorScopeError::IoError(msg)) => {
            ||| !valid_utf8(raw) && msg@ == io_error_text(IoErrorKind::InvalidUtf8)
            ||| {
                &&& valid_utf8(raw)
                &&& hash_ok
                &&& exists|p: int| #[trigger] unique_occurrence_at(n, a, p) && !scope_range_verified(raw, p, p + a.len())
                &&& msg@ == io_error_text(IoErrorKind::WriteFailure)
            }
        },
        Err(AnchorScopeError::NoMatch) => valid_utf8(raw) && no_occurrence(n, a),
        Err(AnchorScopeError::MultipleMatches) => valid_utf8(raw) && several_occurrences(n, a),
        Err(_) => false,
    }
}

/// Maps the normalized scope `ns..ne` back to `raw` and checks both ends
/// against the offset formula; `None` when a check fails.
fn checked_scope_range(
    raw: &[u8],
    file_normalized: &Vec<u8>,
    offset_map: &Vec<usize>,
    ns: usize,
    ne: usize,
) -> (r: Option<(usize, usize)>)
    requires
        raw@.len() <= isize::MAX,
        file_normalized@ == normalize(raw@),
        as_ints(offset_map@) == offsets(raw@),
        ns < ne <= file_normalized@.len(),
    ensures
        r is Some <==> scope_range_verified(raw@, ns as int, ne as int),
        r matches Some((s, e)) ==> {
            &&& (s as int, e as int) == scope_range(raw@, ns as int, ne as int)
            &&& s <= raw@.len()
            &&& e <= raw@.len()
        },
{
    proof {
        lemma_offsets_in_bounds(raw@);
        if (ne as int) < offset_map@.len() {
            assert(as_ints(offset_map@)[ne as int] == offset_map@[ne as int] as int);
        }
        assert(as_ints(offset_map@)[ns as int] == offset_map@[ns as int] as int);
    }
    let (orig_start, orig_end) = map_to_original(
        raw,
        file_normalized.as_slice(),
        offset_map.as_slice(),
        ns,
        ne,
        raw.len(),
    );
    proof {
        assert(orig_start < raw@.len());
        assert(orig_end <= raw@.len());
        lemma_count_byte_le_len(raw@.take(orig_start as int), CR);
        lemma_count_byte_le_len(raw@.take(orig_end as int), CR);
    }
    if !verify_offset(raw, ns, orig_start) {
        return None;
    }
    if !verify_offset(raw, ne, orig_end) {
        return None;
    }
    Some((orig_start, orig_end))
}

/// `raw[..start] + replacement + raw[end..]`.
fn splice(raw: &[u8], start: usize, end: usize, replacement: &[u8]) -> (out: Vec<u8>)
    requires
        start <= raw@.len(),
        end <= raw@.len(),
    ensures
        out@ == raw@.take(start as int) + replacement@ + raw@.skip(end as int),
{
    let mut result = copy_range(raw, 0, start);
    append_range(&mut result, replacement, 0, replacement.len());
    append_range(&mut result, raw, end, raw.len());
    assert(raw@.subrange(0, start as int) == raw@.take(start as int));
    assert(replacement@.subrange(0, replacement@.len() as int) == replacement@);
    assert(raw@.subrange(end as int, raw@.len() as int) == raw@.skip(end as int));
    result
}

/// Write a replacement into a scoped region of the bytes `raw` of a file.
///
/// Matches `anchor`, verifies the scope hash against `expected_hash`, then
/// returns the new file bytes, in which the matched region is replaced by
/// `replacement` in the original content, together with the byte count.
/// CRLF line endings outside the matched scope are preserved.
pub fn write(raw: &[u8], anchor: &[u8], expected_hash: &str, replacement: &[u8]) -> (r: Result<
    (Vec<u8>, WriteResult),
    AnchorScopeError,
>)
    requires
        raw@.len() <= isize::MAX,
    ensures
        write_outcome(raw@, anchor@, expected_hash@, replacement@, r),
{
    if !is_valid_utf8(raw) {
        return Err(AnchorScopeError::IoError(io_error(IoErrorKind::InvalidUtf8)));
    }
    let (file_normalized, offset_map) = normalize_line_endings(raw);
    let (anchor_normalized, _anchor_map) = normalize_line_endings(anchor);
    let m = match resolve(file_normalized.as_slice(), anchor_normalized.as_slice()) {
        Ok(m) => m,
        Err(MatchError::NoMatch) => return Err(AnchorScopeError::NoMatch),
        Err(MatchError::MultipleMatches) => return Err(AnchorScopeError::MultipleMatches),
    };
    let ghost p = m.byte_start as int;
    let scope = copy_range(file_normalized.as_slice(), m.byte_start, m.byte_end);
    assert(scope@ == anchor_normalized@);
    let actual_hash = compute(scope.as_slice());
    let expected = String::from_str(expected_hash);
    if actual_hash != expected {
        return Err(AnchorScopeError::HashMismatch);
    }
    let (orig_start, orig_end) = match checked_scope_range(
        raw,
        &file_normalized,
        &offset_map,
        m.byte_start,
        m.byte_end,
    ) {
        Some(range) => range,
        None => return Err(AnchorScopeError::IoError(io_error(IoErrorKind::WriteFailure))),
    };
    let result = splice(raw, orig_start, orig_end, replacement);
    let bytes_written = result.len();
    Ok((result, WriteResult { bytes_written }))
}

} // verus!
