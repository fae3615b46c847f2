//! Input handling shared by the commands: where the anchor and the
//! replacement come from, and what a tool's output must be to serve as a
//! replacement.

use vstd::prelude::*;
use vstd::utf8::{encode_utf8, valid_utf8};
use crate::error::{io_error, io_error_text, IoErrorKind};
use crate::hash::{compute, hex16, xxh3_64_digest};
use crate::matcher::{
    line_of, no_occurrence, normalize, normalize_line_endings, resolve, several_occurrences, unique_occurrence_at,
    Match, MatchError,
};
use crate::text::{copy_range, is_valid_utf8};
use crate::AnchorScopeError;

verus! {

/// The anchor bytes owed for an inline anchor `anchor` and the result
/// `anchor_file` of reading the anchor file, when one was named.
pub open spec fn anchor_outcome(
    anchor: Option<Seq<char>>,
    anchor_file: Option<Result<Seq<u8>, Seq<char>>>,
) -> Result<Seq<u8>, Seq<char>> {
    match (anchor, anchor_file) {
        (None, None) => Err("ERROR: either --anchor or --anchor-file must be provided"@),
        (Some(a), None) => if a.len() == 0 {
            Err("NO_MATCH"@)
        } else {
            Ok(encode_utf8(a))
        },
        (None, Some(Err(e))) => Err(e),
        (None, Some(Ok(content))) => if !valid_utf8(content) {
            Err(io_error_text(IoErrorKind::InvalidUtf8))
        } else if content.len() == 0 {
            Err("NO_MATCH"@)
        } else {
            Ok(content)
        },
        (Some(_), Some(_)) => Err("ERROR: --anchor and --anchor-file are mutually exclusive"@),
    }
}

fn to_vec(s: &str) -> (v: Vec<u8>)
    ensures
        v@ == encode_utf8(s@),
{
    let bytes = s.as_bytes();
    copy_range(bytes, 0, bytes.len())
}

/// Load the anchor from either the inline string or the anchor file's
/// contents (`anchor_file` holds the outcome of reading it, as bytes or as
/// the error message to report). Returns the raw anchor bytes (not
/// normalized); an empty anchor is reported as `NO_MATCH`.
pub fn load_anchor(anchor: Option<&str>, anchor_file: Option<Result<Vec<u8>, String>>) -> (r: Result<Vec<u8>, String>)
    ensures
        match r {
            Ok(v) => anchor_outcome(
                match anchor { Some(a) => Some(a@), None => None },
                match anchor_file { Some(Ok(c)) => Some(Ok(c@)), Some(Err(e)) => Some(Err(e@)), None => None },
            ) == Ok::<Seq<u8>, Seq<char>>(v@),
            Err(e) => anchor_outcome(
                match anchor { Some(a) => Some(a@), None => None },
                match anchor_file { Some(Ok(c)) => Some(Ok(c@)), Some(Err(e)) => Some(Err(e@)), None => None },
            ) == Err::<Seq<u8>, Seq<char>>(e@),
        },
        match (anchor, anchor_file) {
            (Some(a), None) => a@.len() > 0 ==> (r matches Ok(v) && v@ == encode_utf8(a@)),
            (None, Some(Ok(c))) => valid_utf8(c@) && c@.len() > 0 ==> (r matches Ok(v) && v@ == c@),
            _ => true,
        },
{
    match (anchor, anchor_file) {
        (None, None) => Err(String::from_str("ERROR: either --anchor or --anchor-file must be provided")),
        (Some(a), None) => {
            if a.is_empty() {
                Err(String::from_str("NO_MATCH"))
            } else {
                Ok(to_vec(a))
            }
        },
        (None, Some(Err(e))) => Err(e),
        (None, Some(Ok(content))) => {
            if !is_valid_utf8(content.as_slice()) {
                return Err(io_error(IoErrorKind::InvalidUtf8));
            }
            if content.len() == 0 {
                return Err(String::from_str("NO_MATCH"));
            }
            Ok(content)
        },
        (Some(_), Some(_)) => Err(String::from_str("ERROR: --anchor and --anchor-file are mutually exclusive")),
    }
}

/// The replacement bytes owed for an inline replacement and the result of
/// reading the replacement file, when one was named.
pub open spec fn replacement_outcome(
    replacement: Option<Seq<char>>,
    replacement_file: Option<Result<Seq<u8>, Seq<char>>>,
) -> Result<Seq<u8>, Seq<char>> {
    match (replacement, replacement_file) {
        (Some(r), None) => if r.len() == 0 {
            Err("IO_ERROR: no replacement provided"@)
        } else {
            Ok(encode_utf8(r))
        },
        (None, Some(Err(e))) => Err(e),
        (None, Some(Ok(content))) => if !valid_utf8(content) {
            Err(io_error_text(IoErrorKind::InvalidUtf8))
        } else {
            Ok(content)
        },
        (None, None) => Err("ERROR: either --replacement or --replacement-file must be provided"@),
        (Some(_), Some(_)) => Err("ERROR: --replacement and --replacement-file are mutually exclusive"@),
    }
}

/// Load the replacement from either the inline string or the replacement
/// file's contents. Returns raw replacement bytes (not normalized: the
/// replacement is written as-is); an empty inline replacement is refused.
pub fn load_replacement(replacement: Option<&str>, replacement_file: Option<Result<Vec<u8>, String>>) -> (r: Result<Vec<u8>, String>)
    ensures
        match r {
            Ok(v) => replacement_outcome(
                match replacement { Some(a) => Some(a@), None => None },
                match replacement_file { Some(Ok(c)) => Some(Ok(c@)), Some(Err(e)) => Some(Err(e@)), None => None },
            ) == Ok::<Seq<u8>, Seq<char>>(v@),
            Err(e) => replacement_outcome(
                match replacement { Some(a) => Some(a@), None => None },
                match replacement_file { Some(Ok(c)) => Some(Ok(c@)), Some(Err(e)) => Some(Err(e@)), None => None },
            ) == Err::<Seq<u8>, Seq<char>>(e@),
        },
        match (replacement, replacement_file) {
            (Some(a), None) => a@.len() > 0 ==> (r matches Ok(v) && v@ == encode_utf8(a@)),
            (None, Some(Ok(c))) => valid_utf8(c@) ==> (r matches Ok(v) && v@ == c@),
            _ => true,
        },
{
    match (replacement, replacement_file) {
        (Some(r), None) => {
            if r.is_empty() {
                Err(String::from_str("IO_ERROR: no replacement provided"))
            } else {
                Ok(to_vec(r))
            }
        },
        (None, Some(Err(e))) => Err(e),
        (None, Some(Ok(content))) => {
            if !is_valid_utf8(content.as_slice()) {
                return Err(io_error(IoErrorKind::InvalidUtf8));
            }
            Ok(content)
        },
        (None, None) => Err(String::from_str("ERROR: either --replacement or --replacement-file must be provided")),
        (Some(_), Some(_)) => Err(String::from_str("ERROR: --replacement and --replacement-file are mutually exclusive")),
    }
}

/// An anchor is loaded byte for byte: an inline anchor as its UTF-8 bytes,
/// and a valid UTF-8 anchor file as exactly its bytes, newlines and CRs
/// included; nothing is trimmed or normalized on loading.
pub proof fn theorem_anchor_loaded_exactly(a: Seq<char>, c: Seq<u8>)
    ensures
        a.len() > 0 ==> anchor_outcome(Some(a), None) == Ok::<Seq<u8>, Seq<char>>(encode_utf8(a)),
        valid_utf8(c) && c.len() > 0 ==> anchor_outcome(None, Some(Ok(c))) == Ok::<Seq<u8>, Seq<char>>(c),
{
}

/// A replacement is taken as given: a non-empty inline replacement as its
/// UTF-8 bytes, and a valid UTF-8 replacement file as exactly its bytes.
pub proof fn theorem_replacement_loaded_exactly(r: Seq<char>, c: Seq<u8>)
    ensures
        r.len() > 0 ==> replacement_outcome(Some(r), None) == Ok::<Seq<u8>, Seq<char>>(encode_utf8(r)),
        valid_utf8(c) ==> replacement_outcome(None, Some(Ok(c))) == Ok::<Seq<u8>, Seq<char>>(c),
{
}

/// Check that bytes handed in as a replacement (from standard input or an
/// external tool) are UTF-8, and normalize their line endings (CRLF → LF).
pub fn validated_replacement(bytes: &[u8]) -> (r: Result<Vec<u8>, AnchorScopeError>)
    ensures
        valid_utf8(bytes@) ==> (r matches Ok(v) && v@ == normalize(bytes@)),
        !valid_utf8(bytes@) ==> (r matches Err(AnchorScopeError::IoError(msg)) && msg@ == io_error_text(IoErrorKind::InvalidUtf8)),
{
    if !is_valid_utf8(bytes) {
        return Err(AnchorScopeError::IoError(io_error(IoErrorKind::InvalidUtf8)));
    }
    let (normalized, _offset_map) = normalize_line_endings(bytes);
    Ok(normalized)
}


/// The error of the anchor command when the region's hash differs from the
/// expected one.
pub open spec fn hash_mismatch_report(expected: Seq<char>, actual: Seq<char>) -> Seq<char> {
    "HASH_MISMATCH: expected="@ + expected + " actual="@ + actual
}

/// Check an anchor definition against the file bytes `raw`: the content must
/// be UTF-8, the anchor (as loaded, not normalized) must match exactly once
/// in the normalized content, and the matched region's hash must equal
/// `expected_hash`. Returns the match and the region's hash.
pub fn verify_anchor(raw: &[u8], anchor: Result<Vec<u8>, String>, expected_hash: &str) -> (r: Result<(Match, String), String>)
    ensures
        !valid_utf8(raw@) ==> (r matches Err(e) && e@ == io_error_text(IoErrorKind::InvalidUtf8)),
        valid_utf8(raw@) ==> match anchor {
            Err(e) => r matches Err(msg) && msg@ == e@,
            Ok(a) => {
                let n = normalize(raw@);
                match r {
                    Ok((m, h)) => {
                        &&& unique_occurrence_at(n, a@, m.byte_start as int)
                        &&& m.byte_end == m.byte_start + a@.len()
                        &&& m.start_line == line_of(n, m.byte_start as int)
                        &&& m.end_line == line_of(n, m.byte_end - 1)
                        &&& h@ == hex16(xxh3_64_digest(a@))
                        &&& h@ == expected_hash@
                    },
                    Err(msg) => {
                        ||| no_occurrence(n, a@) && msg@ == "NO_MATCH"@
                        ||| several_occurrences(n, a@) && msg@ == "MULTIPLE_MATCHES"@
                        ||| (exists|p: int| unique_occurrence_at(n, a@, p)) && hex16(xxh3_64_digest(a@)) != expected_hash@
                            && msg@ == hash_mismatch_report(expected_hash@, hex16(xxh3_64_digest(a@)))
                    },
                }
            },
        },
{
    if !is_valid_utf8(raw) {
        return Err(io_error(IoErrorKind::InvalidUtf8));
    }
    let (normalized, _offset_map) = normalize_line_endings(raw);
    let anchor_bytes = match anchor {
        Ok(a) => a,
        Err(e) => return Err(e),
    };
    let m = match resolve(normalized.as_slice(), anchor_bytes.as_slice()) {
        Ok(m) => m,
        Err(e) => return Err(e.to_spec_string()),
    };
    let region = copy_range(normalized.as_slice(), m.byte_start, m.byte_end);
    assert(region@ == anchor_bytes@);
    let actual_hash = compute(region.as_slice());
    let expected = String::from_str(expected_hash);
    if actual_hash != expected {
        let mut msg = String::from_str("HASH_MISMATCH: expected=");
        msg.append(expected_hash);
        msg.append(" actual=");
        msg.append(actual_hash.as_str());
        return Err(msg);
    }
    Ok((m, actual_hash))
}

} // verus!
