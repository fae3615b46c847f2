//! Properties that relate `read`, `write` and the matcher to each other.

use vstd::prelude::*;
use vstd::utf8::valid_utf8;
use crate::error::{io_error_text, IoErrorKind};
use crate::hash::{hex16, is_lower_hex, lemma_hex_digits_shape, xxh3_64_digest};
use crate::matcher::{
    boundary, count_byte, is_crlf_at, lemma_boundary_monotone,
    lemma_count_take_step, lemma_offset_at, lemma_offsets, lemma_segment_normalizes, normalize,
    no_occurrence, offset_consistent, offsets, occurs_at, several_occurrences, unique_occurrence_at,
    CR, LF,
};
use crate::nested_read::{nested_read_outcome, LocatedScope, ParentScope};
use crate::{read_outcome, scope_range, scope_range_verified, write_outcome, AnchorScopeError, ReadResult, WriteResult};

verus! {

/// Every CR byte of `raw` starts a CRLF pair (the file uses LF or CRLF line
/// endings only).
pub open spec fn crs_paired(raw: Seq<u8>) -> bool {
    forall|i: int| 0 <= i < raw.len() && raw[i] == CR ==> #[trigger] is_crlf_at(raw, i)
}

/// In a file whose CRs all belong to CRLF pairs, every boundary between
/// normalized bytes satisfies the offset formula
/// `original_offset == normalized_offset + number_of_CR_before_original_offset`.
pub proof fn lemma_boundaries_consistent(raw: Seq<u8>, k: int)
    requires
        crs_paired(raw),
        0 <= k <= normalize(raw).len(),
    ensures
        offset_consistent(raw, k, boundary(raw, k)),
    decreases k,
{
    lemma_offsets(raw);
    if k > 0 {
        lemma_boundaries_consistent(raw, k - 1);
        lemma_offset_at(raw, k - 1);
        let b = boundary(raw, k - 1);
        lemma_count_take_step(raw, b, CR);
        if is_crlf_at(raw, b) {
            lemma_count_take_step(raw, b + 1, CR);
        } else {
            assert(raw[b] != CR);
        }
    } else {
        assert(raw.take(0) == Seq::<u8>::empty());
    }
}

/// A read that succeeds hands back a hash that `write` accepts on the same
/// bytes and anchor: such a write never reports a hash mismatch, a missing or
/// repeated anchor, or invalid UTF-8, whatever the replacement; on a file
/// whose line endings are LF or CRLF only, it succeeds.
pub proof fn theorem_read_hash_accepted_by_write(
    raw: Seq<u8>,
    anchor: Seq<u8>,
    replacement: Seq<u8>,
    read_result: ReadResult,
    w: Result<(Vec<u8>, WriteResult), AnchorScopeError>,
)
    requires
        read_outcome(raw, anchor, Ok(read_result)),
        write_outcome(raw, anchor, read_result.scope_hash@, replacement, w),
    ensures
        w is Ok || (w matches Err(AnchorScopeError::IoError(msg)) && msg@ == io_error_text(IoErrorKind::WriteFailure)),
        crs_paired(raw) ==> w is Ok,
{
    let n = normalize(raw);
    let a = normalize(anchor);
    let p = choose|p: int| unique_occurrence_at(n, a, p);
    if crs_paired(raw) {
        theorem_write_on_paired_line_endings(raw, anchor, read_result.scope_hash@, replacement, p, w);
    }
    match w {
        Err(AnchorScopeError::NoMatch) => {
            assert(occurs_at(n, a, p));
        },
        Err(AnchorScopeError::MultipleMatches) => {
            let (i, j) = choose|i: int, j: int| i != j && #[trigger] occurs_at(n, a, i) && #[trigger] occurs_at(n, a, j);
            assert(i == p && j == p);
        },
        _ => {},
    }
}

/// On a file whose line endings are LF or CRLF only, a write whose anchor
/// occurs exactly once and whose hash matches succeeds: it replaces exactly
/// the original bytes of the matched scope (which normalize to the
/// normalized anchor) by the replacement as given, and keeps every byte
/// before and after them.
pub proof fn theorem_write_on_paired_line_endings(
    raw: Seq<u8>,
    anchor: Seq<u8>,
    expected_hash: Seq<char>,
    replacement: Seq<u8>,
    p: int,
    w: Result<(Vec<u8>, WriteResult), AnchorScopeError>,
)
    requires
        valid_utf8(raw),
        crs_paired(raw),
        unique_occurrence_at(normalize(raw), normalize(anchor), p),
        hex16(xxh3_64_digest(normalize(anchor))) == expected_hash,
        write_outcome(raw, anchor, expected_hash, replacement, w),
    ensures
        w matches Ok((out, res)) && {
            let q = p + normalize(anchor).len();
            &&& out@ == raw.take(boundary(raw, p)) + replacement + raw.skip(boundary(raw, q))
            &&& normalize(raw.subrange(boundary(raw, p), boundary(raw, q))) == normalize(anchor)
            &&& res.bytes_written == out@.len()
        },
{
    let n = normalize(raw);
    let a = normalize(anchor);
    let q = p + a.len();
    lemma_offsets(raw);
    lemma_offset_at(raw, p);
    lemma_boundary_monotone(raw, q, n.len() as int);
    lemma_boundaries_consistent(raw, p);
    lemma_boundaries_consistent(raw, q);
    assert(scope_range(raw, p, q).0 == boundary(raw, p));
    assert(scope_range(raw, p, q).1 == boundary(raw, q));
    assert(scope_range_verified(raw, p, q));
    lemma_segment_normalizes(raw, p, q);
    assert(n.subrange(p, q) == a);
    match w {
        Err(AnchorScopeError::NoMatch) => {
            assert(occurs_at(n, a, p));
        },
        Err(AnchorScopeError::MultipleMatches) => {
            let (i, j) = choose|i: int, j: int| i != j && #[trigger] occurs_at(n, a, i) && #[trigger] occurs_at(n, a, j);
            assert(i == p && j == p);
        },
        Err(AnchorScopeError::IoError(msg)) => {
            if valid_utf8(raw) && msg@ != io_error_text(IoErrorKind::InvalidUtf8) {
                let p2 = choose|p2: int| #[trigger] unique_occurrence_at(n, a, p2) && !scope_range_verified(raw, p2, p2 + a.len());
                assert(occurs_at(n, a, p2));
            }
        },
        Ok((out, res)) => {
            let p2 = choose|p2: int| {
                &&& #[trigger] unique_occurrence_at(n, a, p2)
                &&& scope_range_verified(raw, p2, p2 + a.len())
                &&& out@ == crate::spliced(raw, replacement, p2, p2 + a.len())
            };
            assert(occurs_at(n, a, p2));
        },
        _ => {},
    }
}


/// The scope hash that `read` reports depends on the matched scope alone:
/// two reads that hand back the same content report the same hash, and every
/// scope hash is 16 lowercase hex digits.
pub proof fn theorem_scope_hash_determined_by_content(
    raw1: Seq<u8>,
    anchor1: Seq<u8>,
    r1: ReadResult,
    raw2: Seq<u8>,
    anchor2: Seq<u8>,
    r2: ReadResult,
)
    requires
        read_outcome(raw1, anchor1, Ok(r1)),
        read_outcome(raw2, anchor2, Ok(r2)),
        r1.content@ == r2.content@,
    ensures
        r1.scope_hash@ == r2.scope_hash@,
        r1.scope_hash@.len() == 16,
        forall|i: int| 0 <= i < 16 ==> is_lower_hex(#[trigger] r1.scope_hash@[i]),
{
    lemma_hex_digits_shape(xxh3_64_digest(normalize(anchor1)) as nat, 16);
}

/// Operations succeed only when the anchor matches at exactly one place:
/// a successful `read` or `write` implies a unique occurrence of the
/// normalized anchor in the normalized content.
pub proof fn theorem_success_needs_unique_match(
    raw: Seq<u8>,
    anchor: Seq<u8>,
    expected_hash: Seq<char>,
    replacement: Seq<u8>,
    r: Result<ReadResult, AnchorScopeError>,
    w: Result<(Vec<u8>, WriteResult), AnchorScopeError>,
)
    requires
        read_outcome(raw, anchor, r),
        write_outcome(raw, anchor, expected_hash, replacement, w),
    ensures
        r is Ok ==> exists|p: int| unique_occurrence_at(normalize(raw), normalize(anchor), p),
        w is Ok ==> exists|p: int| unique_occurrence_at(normalize(raw), normalize(anchor), p),
{
}

/// Errors are evaluated in a fixed order: content that is not valid UTF-8 is
/// refused before any matching, and a missing or repeated anchor is reported
/// before the hash is compared, whatever the expected hash.
pub proof fn theorem_error_order(
    raw: Seq<u8>,
    anchor: Seq<u8>,
    expected_hash: Seq<char>,
    replacement: Seq<u8>,
    r: Result<ReadResult, AnchorScopeError>,
    w: Result<(Vec<u8>, WriteResult), AnchorScopeError>,
)
    requires
        read_outcome(raw, anchor, r),
        write_outcome(raw, anchor, expected_hash, replacement, w),
    ensures
        !valid_utf8(raw) ==> (r matches Err(AnchorScopeError::IoError(m)) && m@ == io_error_text(IoErrorKind::InvalidUtf8)),
        !valid_utf8(raw) ==> (w matches Err(AnchorScopeError::IoError(m)) && m@ == io_error_text(IoErrorKind::InvalidUtf8)),
        valid_utf8(raw) && no_occurrence(normalize(raw), normalize(anchor)) ==> (r matches Err(AnchorScopeError::NoMatch) && w matches Err(AnchorScopeError::NoMatch)),
        valid_utf8(raw) && several_occurrences(normalize(raw), normalize(anchor)) ==> (r matches Err(AnchorScopeError::MultipleMatches) && w matches Err(AnchorScopeError::MultipleMatches)),
{
    let n = normalize(raw);
    let a = normalize(anchor);
    if valid_utf8(raw) && no_occurrence(n, a) {
        if exists|p: int| unique_occurrence_at(n, a, p) {
            let p = choose|p: int| unique_occurrence_at(n, a, p);
            assert(occurs_at(n, a, p));
        }
        if several_occurrences(n, a) {
            let (i, j) = choose|i: int, j: int| i != j && #[trigger] occurs_at(n, a, i) && #[trigger] occurs_at(n, a, j);
        }
    }
    if valid_utf8(raw) && several_occurrences(n, a) {
        let (i, j) = choose|i: int, j: int| i != j && #[trigger] occurs_at(n, a, i) && #[trigger] occurs_at(n, a, j);
        if exists|p: int| unique_occurrence_at(n, a, p) {
            let p = choose|p: int| unique_occurrence_at(n, a, p);
            assert(i == p && j == p);
        }
    }
}

/// A nested region's True ID is fixed by its parent buffer and the parent's
/// recorded scope hash: two nested reads of the same anchor in parents with
/// the same content and the same recorded scope hash locate the same scope
/// and give it the same True ID and scope hash, whatever file each was read
/// from and however deep each parent lies.
pub proof fn theorem_nested_true_id_follows_parent(
    raw1: Seq<u8>,
    raw2: Seq<u8>,
    anchor: Seq<u8>,
    p1: ParentScope,
    p2: ParentScope,
    max1: nat,
    max2: nat,
    r1: Result<LocatedScope, String>,
    r2: Result<LocatedScope, String>,
)
    requires
        p1.content@ == p2.content@,
        p1.scope_hash matches Ok(h1) && p2.scope_hash matches Ok(h2) && h1@ == h2@,
        nested_read_outcome(raw1, anchor, Some(p1), max1, r1),
        nested_read_outcome(raw2, anchor, Some(p2), max2, r2),
        r1 is Ok,
        r2 is Ok,
    ensures
        r1->Ok_0.scope@ == r2->Ok_0.scope@,
        r1->Ok_0.scope_hash@ == r2->Ok_0.scope_hash@,
        r1->Ok_0.true_id@ == r2->Ok_0.true_id@,
{
}

/// Nesting stays below the limit: a nested read succeeds only when its
/// parent's depth is known and one more level stays below `max_depth`; a
/// read of the file itself fails only for invalid UTF-8 or a missing or
/// repeated anchor, never for depth.
pub proof fn theorem_nesting_limit(
    raw: Seq<u8>,
    anchor: Seq<u8>,
    parent: Option<ParentScope>,
    max_depth: nat,
    r: Result<LocatedScope, String>,
)
    requires
        nested_read_outcome(raw, anchor, parent, max_depth, r),
    ensures
        (r is Ok && parent is Some) ==> (parent->Some_0.depth matches Ok(d) && d + 1 < max_depth),
        parent is None ==> (r matches Err(e) ==> (e@ == io_error_text(IoErrorKind::InvalidUtf8)
            || e@ == "NO_MATCH"@ || e@ == "MULTIPLE_MATCHES"@)),
{
}

} // verus!
