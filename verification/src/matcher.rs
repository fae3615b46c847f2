//! Line-ending normalization and exact anchor matching.

use vstd::prelude::*;

verus! {

/// Carriage return byte.
pub const CR: u8 = 13u8;

/// Line feed byte.
pub const LF: u8 = 10u8;

/// A CRLF pair starts at index `i` of `raw`.
pub open spec fn is_crlf_at(raw: Seq<u8>, i: int) -> bool {
    0 <= i && i + 1 < raw.len() && raw[i] == CR && raw[i + 1] == LF
}

/// Number of original bytes that the normalized byte produced at `i` stands for.
pub open spec fn token_width(raw: Seq<u8>, i: int) -> int {
    if is_crlf_at(raw, i) { 2 } else { 1 }
}

/// The normalized byte produced at original index `i`.
pub open spec fn token_byte(raw: Seq<u8>, i: int) -> u8 {
    if is_crlf_at(raw, i) { LF } else { raw[i] }
}

/// Normalized bytes produced from the original bytes starting at `i`.
pub open spec fn normalized_from(raw: Seq<u8>, i: int) -> Seq<u8>
    decreases raw.len() - i,
{
    if i < 0 || i >= raw.len() {
        Seq::empty()
    } else {
        seq![token_byte(raw, i)] + normalized_from(raw, i + token_width(raw, i))
    }
}

/// Original index of each normalized byte produced from index `i` on.
pub open spec fn offsets_from(raw: Seq<u8>, i: int) -> Seq<int>
    decreases raw.len() - i,
{
    if i < 0 || i >= raw.len() {
        Seq::empty()
    } else {
        seq![i] + offsets_from(raw, i + token_width(raw, i))
    }
}

/// `raw` with every CRLF pair replaced by a single LF.
pub open spec fn normalize(raw: Seq<u8>) -> Seq<u8> {
    normalized_from(raw, 0)
}

/// For each byte of `normalize(raw)`, the index in `raw` it comes from
/// (for a CRLF pair, the index of its CR).
pub open spec fn offsets(raw: Seq<u8>) -> Seq<int> {
    offsets_from(raw, 0)
}

/// Views a vector of offsets as integers.
pub open spec fn as_ints(v: Seq<usize>) -> Seq<int> {
    v.map_values(|x: usize| x as int)
}

/// Normalize CRLF to LF in a byte slice.
///
/// Returns the normalized bytes and, for each of them, the offset in `raw`
/// of the byte it comes from (the CR for a CRLF pair).
pub fn normalize_line_endings(raw: &[u8]) -> (res: (Vec<u8>, Vec<usize>))
    ensures
        res.0@ == normalize(raw@),
        as_ints(res.1@) == offsets(raw@),
{
    let mut out: Vec<u8> = Vec::new();
    let mut offset_map: Vec<usize> = Vec::new();
    let mut i: usize = 0;
    while i < raw.len()
        invariant
            i <= raw@.len(),
            out@ + normalized_from(raw@, i as int) == normalize(raw@),
            as_ints(offset_map@) + offsets_from(raw@, i as int) == offsets(raw@),
        decreases raw@.len() - i,
    {
        let ghost prev_out = out@;
        let ghost prev_map = as_ints(offset_map@);
        if raw[i] == CR && i + 1 < raw.len() && raw[i + 1] == LF {
            out.push(LF);
            offset_map.push(i);
            assert(as_ints(offset_map@) == prev_map.push(i as int));
            assert(prev_out.push(LF) + normalized_from(raw@, i + 2) == prev_out + normalized_from(raw@, i as int));
            assert(prev_map.push(i as int) + offsets_from(raw@, i + 2) == prev_map + offsets_from(raw@, i as int));
            i = i + 2;
        } else {
            out.push(raw[i]);
            offset_map.push(i);
            assert(as_ints(offset_map@) == prev_map.push(i as int));
            assert(prev_out.push(raw@[i as int]) + normalized_from(raw@, i + 1) == prev_out + normalized_from(raw@, i as int));
            assert(prev_map.push(i as int) + offsets_from(raw@, i + 1) == prev_map + offsets_from(raw@, i as int));
            i = i + 1;
        }
    }
    assert(out@ == out@ + normalized_from(raw@, i as int));
    assert(as_ints(offset_map@) == as_ints(offset_map@) + offsets_from(raw@, i as int));
    (out, offset_map)
}


/// `needle` occurs in `hay` at index `i`.
pub open spec fn occurs_at(hay: Seq<u8>, needle: Seq<u8>, i: int) -> bool {
    0 <= i && i + needle.len() <= hay.len() && hay.subrange(i, i + needle.len()) == needle
}

/// `needle` is empty or occurs nowhere in `hay`.
pub open spec fn no_occurrence(hay: Seq<u8>, needle: Seq<u8>) -> bool {
    needle.len() == 0 || forall|i: int| !#[trigger] occurs_at(hay, needle, i)
}

/// `needle` is non-empty and occurs in `hay` at two different indices.
pub open spec fn several_occurrences(hay: Seq<u8>, needle: Seq<u8>) -> bool {
    needle.len() > 0 && exists|i: int, j: int|
        i != j && #[trigger] occurs_at(hay, needle, i) && #[trigger] occurs_at(hay, needle, j)
}

/// `needle` is non-empty and `p` is the only index where it occurs in `hay`.
pub open spec fn unique_occurrence_at(hay: Seq<u8>, needle: Seq<u8>, p: int) -> bool {
    &&& needle.len() > 0
    &&& occurs_at(hay, needle, p)
    &&& forall|i: int| #[trigger] occurs_at(hay, needle, i) ==> i == p
}

/// Number of bytes equal to `b` in `s`.
pub open spec fn count_byte(s: Seq<u8>, b: u8) -> nat
    decreases s.len(),
{
    if s.len() == 0 {
        0
    } else {
        count_byte(s.drop_last(), b) + if s.last() == b { 1nat } else { 0nat }
    }
}

/// The 1-based line number of byte `i` of `s`.
pub open spec fn line_of(s: Seq<u8>, i: int) -> int {
    1 + count_byte(s.take(i), LF) as int
}

/// A count of bytes never exceeds the length.
pub proof fn lemma_count_byte_le_len(s: Seq<u8>, b: u8)
    ensures
        count_byte(s, b) <= s.len(),
    decreases s.len(),
{
    if s.len() > 0 {
        lemma_count_byte_le_len(s.drop_last(), b);
    }
}

/// Counts the bytes equal to `b` among the first `end` bytes of `s`.
pub fn count_in_prefix(s: &[u8], end: usize, b: u8) -> (c: usize)
    requires
        end <= s@.len(),
    ensures
        c == count_byte(s@.take(end as int), b),
{
    let mut c: usize = 0;
    let mut k: usize = 0;
    while k < end
        invariant
            k <= end <= s@.len(),
            c == count_byte(s@.take(k as int), b),
            c <= k,
        decreases end - k,
    {
        assert(s@.take(k + 1).drop_last() == s@.take(k as int));
        if s[k] == b {
            c = c + 1;
        }
        k = k + 1;
    }
    c
}

/// A single exact match found in the normalized content.
#[derive(Debug)]
pub struct Match {
    /// Byte offset of the match start (in normalized content).
    pub byte_start: usize,
    /// Byte offset one past the match end (in normalized content).
    pub byte_end: usize,
    /// 1-based line of the first matched byte.
    pub start_line: usize,
    /// 1-based line of the last matched byte.
    pub end_line: usize,
}

/// Errors returned by the matcher.
#[derive(Debug, PartialEq, Eq, Structural)]
pub enum MatchError {
    NoMatch,
    MultipleMatches,
}

impl MatchError {
    /// The protocol's error string for this error.
    pub fn to_spec_string(&self) -> (s: String)
        ensures
            s@ == match self {
                MatchError::NoMatch => "NO_MATCH"@,
                MatchError::MultipleMatches => "MULTIPLE_MATCHES"@,
            },
    {
        match self {
            MatchError::NoMatch => String::from_str("NO_MATCH"),
            MatchError::MultipleMatches => String::from_str("MULTIPLE_MATCHES"),
        }
    }
}

/// `needle` occurs in `hay` at `i` (with `i + needle.len() <= hay.len()`).
fn occurs_at_exec(hay: &[u8], needle: &[u8], i: usize) -> (r: bool)
    requires
        i + needle@.len() <= hay@.len(),
    ensures
        r == occurs_at(hay@, needle@, i as int),
{
    let n = needle.len();
    let mut j: usize = 0;
    while j < n
        invariant
            n == needle@.len(),
            i + n <= hay.len(),
            j <= n,
            forall|k: int| 0 <= k < j ==> hay@[i + k] == needle@[k],
        decreases n - j,
    {
        if hay[i + j] != needle[j] {
            assert(hay@.subrange(i as int, i + n)[j as int] != needle@[j as int]);
            return false;
        }
        j = j + 1;
    }
    assert(hay@.subrange(i as int, i + n) == needle@);
    true
}

/// Find ALL exact (byte-level) occurrences of `needle` in `haystack`,
/// overlapping ones included, in increasing order.
fn find_all(haystack: &[u8], needle: &[u8]) -> (positions: Vec<usize>)
    ensures
        needle@.len() == 0 ==> positions@.len() == 0,
        forall|k: int| 0 <= k < positions@.len() ==> occurs_at(haystack@, needle@, #[trigger] positions@[k] as int),
        forall|k1: int, k2: int| 0 <= k1 < k2 < positions@.len() ==> positions@[k1] < positions@[k2],
        needle@.len() > 0 ==> forall|i: int| #[trigger] occurs_at(haystack@, needle@, i)
            ==> exists|k: int| 0 <= k < positions@.len() && positions@[k] == i,
{
    if needle.len() == 0 || needle.len() > haystack.len() {
        return Vec::new();
    }
    let mut positions: Vec<usize> = Vec::new();
    let limit = haystack.len() - needle.len();
    let mut i: usize = 0;
    while i <= limit
        invariant
            0 < needle@.len() <= haystack@.len(),
            limit == haystack.len() - needle.len(),
            limit < usize::MAX,
            i <= limit + 1,
            forall|k: int| 0 <= k < positions@.len() ==> #[trigger] positions@[k] < i,
            forall|k: int| 0 <= k < positions@.len() ==> occurs_at(haystack@, needle@, #[trigger] positions@[k] as int),
            forall|k1: int, k2: int| 0 <= k1 < k2 < positions@.len() ==> positions@[k1] < positions@[k2],
            forall|j: int| 0 <= j < i && #[trigger] occurs_at(haystack@, needle@, j)
                ==> exists|k: int| 0 <= k < positions@.len() && positions@[k] == j,
        decreases limit + 1 - i,
    {
        let ghost prev = positions@;
        if occurs_at_exec(haystack, needle, i) {
            positions.push(i);
            assert(positions@[positions@.len() - 1] == i);
        }
        assert forall|j: int| 0 <= j < i + 1 && #[trigger] occurs_at(haystack@, needle@, j)
            implies exists|k: int| 0 <= k < positions@.len() && positions@[k] == j by {
            if j < i {
                let k = choose|k: int| 0 <= k < prev.len() && prev[k] == j;
                assert(positions@[k] == j);
            } else {
                assert(positions@[positions@.len() - 1] == j);
            }
        }
        i = i + 1;
    }
    positions
}

/// Resolve anchor to a single unique match in the given content, or return an error.
/// Counts ALL exact byte-level matches. Overlapping matches are included.
pub fn resolve(haystack: &[u8], anchor: &[u8]) -> (r: Result<Match, MatchError>)
    ensures
        match r {
            Ok(m) => {
                &&& unique_occurrence_at(haystack@, anchor@, m.byte_start as int)
                &&& m.byte_end == m.byte_start + anchor@.len()
                &&& m.start_line == line_of(haystack@, m.byte_start as int)
                &&& m.end_line == line_of(haystack@, m.byte_end - 1)
            },
            Err(MatchError::NoMatch) => no_occurrence(haystack@, anchor@),
            Err(MatchError::MultipleMatches) => several_occurrences(haystack@, anchor@),
        },
{
    let positions = find_all(haystack, anchor);
    if positions.len() == 0 {
        assert forall|i: int| !#[trigger] occurs_at(haystack@, anchor@, i) || anchor@.len() == 0 by {
            if anchor@.len() > 0 && occurs_at(haystack@, anchor@, i) {
                let k = choose|k: int| 0 <= k < positions@.len() && positions@[k] == i;
            }
        }
        Err(MatchError::NoMatch)
    } else if positions.len() == 1 {
        let byte_start = positions[0];
        assert(byte_start + anchor.len() <= haystack.len());
        assert(occurs_at(haystack@, anchor@, byte_start as int));
        assert forall|i: int| #[trigger] occurs_at(haystack@, anchor@, i) implies i == byte_start by {
            let k = choose|k: int| 0 <= k < positions@.len() && positions@[k] == i;
        }
        let byte_end = byte_start + anchor.len();
        let start_count = count_in_prefix(haystack, byte_start, LF);
        let end_count = count_in_prefix(haystack, byte_end - 1, LF);
        proof {
            lemma_count_byte_le_len(haystack@.take(byte_start as int), LF);
            lemma_count_byte_le_len(haystack@.take(byte_end - 1), LF);
        }
        Ok(Match { byte_start, byte_end, start_line: start_count + 1, end_line: end_count + 1 })
    } else {
        assert(occurs_at(haystack@, anchor@, positions@[0] as int));
        assert(occurs_at(haystack@, anchor@, positions@[1] as int));
        Err(MatchError::MultipleMatches)
    }
}


/// The original index where normalized byte `k` starts, or the end of `raw`
/// when `k` is one past the last normalized byte.
pub open spec fn boundary(raw: Seq<u8>, k: int) -> int {
    if k < offsets(raw).len() { offsets(raw)[k] } else { raw.len() as int }
}

/// Shape of the offsets produced from index `i` on.
proof fn lemma_offsets_from(raw: Seq<u8>, i: int)
    requires
        0 <= i <= raw.len(),
    ensures
        offsets_from(raw, i).len() == normalized_from(raw, i).len(),
        normalized_from(raw, i).len() <= raw.len() - i,
        offsets_from(raw, i).len() == 0 <==> i == raw.len(),
        offsets_from(raw, i).len() > 0 ==> offsets_from(raw, i)[0] == i,
        forall|j: int| 0 <= j < offsets_from(raw, i).len() ==> {
            &&& i <= #[trigger] offsets_from(raw, i)[j] < raw.len()
            &&& normalized_from(raw, i)[j] == token_byte(raw, offsets_from(raw, i)[j])
            &&& offsets_from(raw, i)[j] + token_width(raw, offsets_from(raw, i)[j]) == if j + 1
                < offsets_from(raw, i).len() {
                offsets_from(raw, i)[j + 1]
            } else {
                raw.len() as int
            }
        },
    decreases raw.len() - i,
{
    if i < raw.len() {
        let w = token_width(raw, i);
        lemma_offsets_from(raw, i + w);
        let rest = offsets_from(raw, i + w);
        let nrest = normalized_from(raw, i + w);
        assert forall|j: int| 0 <= j < offsets_from(raw, i).len() implies {
            &&& i <= #[trigger] offsets_from(raw, i)[j] < raw.len()
            &&& normalized_from(raw, i)[j] == token_byte(raw, offsets_from(raw, i)[j])
            &&& offsets_from(raw, i)[j] + token_width(raw, offsets_from(raw, i)[j]) == if j + 1
                < offsets_from(raw, i).len() {
                offsets_from(raw, i)[j + 1]
            } else {
                raw.len() as int
            }
        } by {
            if j > 0 {
                assert(offsets_from(raw, i)[j] == rest[j - 1]);
                assert(normalized_from(raw, i)[j] == nrest[j - 1]);
            }
        }
    }
}

/// Shape of `offsets(raw)`: one entry per normalized byte, each the start of
/// the original bytes that produced it, consecutive entries a token apart.
pub proof fn lemma_offsets(raw: Seq<u8>)
    ensures
        offsets(raw).len() == normalize(raw).len(),
        forall|k: int| 0 <= k < offsets(raw).len() ==> {
            &&& 0 <= #[trigger] offsets(raw)[k] < raw.len()
            &&& normalize(raw)[k] == token_byte(raw, offsets(raw)[k])
            &&& boundary(raw, k + 1) == offsets(raw)[k] + token_width(raw, offsets(raw)[k])
        },
        boundary(raw, 0) == 0,
{
    lemma_offsets_from(raw, 0);
}

/// Every offset indexes into `raw`, one offset per normalized byte.
pub proof fn lemma_offsets_in_bounds(raw: Seq<u8>)
    ensures
        offsets(raw).len() == normalize(raw).len(),
        normalize(raw).len() <= raw.len(),
        forall|k: int| 0 <= k < offsets(raw).len() ==> 0 <= #[trigger] offsets(raw)[k] < raw.len(),
{
    lemma_offsets_from(raw, 0);
}

/// Counting one more byte of a prefix.
pub proof fn lemma_count_take_step(s: Seq<u8>, n: int, b: u8)
    requires
        0 <= n < s.len(),
    ensures
        count_byte(s.take(n + 1), b) == count_byte(s.take(n), b) + if s[n] == b { 1nat } else { 0nat },
{
    assert(s.take(n + 1).drop_last() == s.take(n));
}

/// Boundaries never decrease.
pub proof fn lemma_boundary_monotone(raw: Seq<u8>, k1: int, k2: int)
    requires
        0 <= k1 <= k2 <= normalize(raw).len(),
    ensures
        boundary(raw, k1) <= boundary(raw, k2),
    decreases k2 - k1,
{
    lemma_offsets(raw);
    if k1 < k2 {
        lemma_boundary_monotone(raw, k1 + 1, k2);
    }
}

/// Without any CR byte, normalization is the identity.
pub proof fn lemma_normalize_without_cr(raw: Seq<u8>)
    requires
        forall|i: int| 0 <= i < raw.len() ==> raw[i] != CR,
    ensures
        normalize(raw) == raw,
        forall|k: int| 0 <= k < raw.len() ==> #[trigger] offsets(raw)[k] == k,
        offsets(raw).len() == raw.len(),
{
    lemma_from_without_cr(raw, 0);
    assert(raw.skip(0) == raw);
}

proof fn lemma_from_without_cr(raw: Seq<u8>, i: int)
    requires
        forall|i: int| 0 <= i < raw.len() ==> raw[i] != CR,
        0 <= i <= raw.len(),
    ensures
        normalized_from(raw, i) == raw.skip(i),
        offsets_from(raw, i).len() == raw.len() - i,
        forall|k: int| 0 <= k < raw.len() - i ==> #[trigger] offsets_from(raw, i)[k] == i + k,
    decreases raw.len() - i,
{
    if i < raw.len() {
        lemma_from_without_cr(raw, i + 1);
        assert(raw.skip(i) == seq![raw[i]] + raw.skip(i + 1));
        assert forall|k: int| 0 <= k < raw.len() - i implies #[trigger] offsets_from(raw, i)[k] == i + k by {
            if k > 0 {
                assert(offsets_from(raw, i)[k] == offsets_from(raw, i + 1)[k - 1]);
            }
        }
    }
}

/// The original bytes between two boundaries normalize to exactly the
/// normalized bytes between them.
pub proof fn lemma_segment_normalizes(raw: Seq<u8>, a: int, b: int)
    requires
        0 <= a <= b <= normalize(raw).len(),
    ensures
        normalize(raw.subrange(boundary(raw, a), boundary(raw, b))) == normalize(raw).subrange(a, b),
{
    lemma_offsets(raw);
    lemma_boundary_monotone(raw, a, b);
    lemma_boundary_monotone(raw, b, normalize(raw).len() as int);
    lemma_segment_from(raw, a, b, a);
    assert(raw.subrange(boundary(raw, a), boundary(raw, b)).len() >= 0);
}

/// Facts about one normalized byte and the original bytes it comes from.
pub proof fn lemma_offset_at(raw: Seq<u8>, k: int)
    requires
        0 <= k < normalize(raw).len(),
    ensures
        k < offsets(raw).len(),
        0 <= offsets(raw)[k] < raw.len(),
        boundary(raw, k) == offsets(raw)[k],
        normalize(raw)[k] == token_byte(raw, offsets(raw)[k]),
        boundary(raw, k + 1) == offsets(raw)[k] + token_width(raw, offsets(raw)[k]),
{
    lemma_offsets(raw);
}

proof fn lemma_segment_from(raw: Seq<u8>, a: int, b: int, k: int)
    requires
        0 <= a <= k <= b <= normalize(raw).len(),
        0 <= boundary(raw, a) <= boundary(raw, k) <= boundary(raw, b) <= raw.len(),
    ensures
        normalized_from(raw.subrange(boundary(raw, a), boundary(raw, b)), boundary(raw, k) - boundary(raw, a))
            == normalize(raw).subrange(k, b),
    decreases b - k,
{
    let s = boundary(raw, a);
    let e = boundary(raw, b);
    let sub = raw.subrange(s, e);
    if k < b {
        let i = boundary(raw, k);
        lemma_offset_at(raw, k);
        let w = token_width(raw, i);
        lemma_boundary_monotone(raw, k + 1, b);
        assert(i + w <= e);
        assert(sub[i - s] == raw[i]);
        if i + 1 < e {
            assert(sub[i - s + 1] == raw[i + 1]);
        }
        assert(is_crlf_at(sub, i - s) == is_crlf_at(raw, i));
        assert(token_byte(sub, i - s) == normalize(raw)[k]);
        assert(token_width(sub, i - s) == w);
        lemma_segment_from(raw, a, b, k + 1);
        assert(normalized_from(sub, i - s) == seq![normalize(raw)[k]] + normalized_from(sub, i + w - s));
        assert(normalize(raw).subrange(k, b) == seq![normalize(raw)[k]] + normalize(raw).subrange(k + 1, b));
    } else {
        assert(sub.len() == e - s);
        assert(normalize(raw).subrange(k, b) == Seq::<u8>::empty());
    }
}

/// End of the original range of a normalized range ending at `norm_end`:
/// where the next normalized byte comes from, or the end of the content.
pub open spec fn base_end(offset_map: Seq<int>, norm_end: int, raw_len: int) -> int {
    if norm_end < offset_map.len() { offset_map[norm_end] } else { raw_len }
}

/// The original range of the normalized range `norm_start..norm_end`: from
/// where its first byte comes from to where the byte after it comes from.
pub open spec fn original_range(offset_map: Seq<int>, norm_start: int, norm_end: int, raw_len: int) -> (int, int) {
    (offset_map[norm_start], base_end(offset_map, norm_end, raw_len))
}

/// Convert a byte range in normalized content to the corresponding byte range
/// in the original (pre-normalization) content.
///
/// `offset_map` maps each normalized index to the original index. For
/// CRLF→LF, the \n maps to the \r position; the end is where the byte after
/// the range comes from, so a range ending with such a \n ends past the
/// whole \r\n pair. When `normalized` and `offset_map` are those of `raw`,
/// the original range normalizes to the normalized range.
pub fn map_to_original(
    raw: &[u8],
    normalized: &[u8],
    offset_map: &[usize],
    norm_start: usize,
    norm_end: usize,
    raw_len: usize,
) -> (r: (usize, usize))
    requires
        norm_start < offset_map@.len(),
        norm_end <= normalized@.len(),
    ensures
        (r.0 as int, r.1 as int) == original_range(
            as_ints(offset_map@),
            norm_start as int,
            norm_end as int,
            raw_len as int,
        ),
        normalized@ == normalize(raw@) && as_ints(offset_map@) == offsets(raw@) && raw_len == raw@.len()
            && norm_start <= norm_end ==> {
            &&& r.0 <= r.1 <= raw@.len()
            &&& normalize(raw@.subrange(r.0 as int, r.1 as int)) == normalized@.subrange(norm_start as int, norm_end as int)
        },
{
    let orig_start = offset_map[norm_start];
    let orig_end = if norm_end < offset_map.len() {
        offset_map[norm_end]
    } else {
        raw_len
    };
    proof {
        assert(as_ints(offset_map@)[norm_start as int] == offset_map@[norm_start as int] as int);
        if norm_end < offset_map.len() {
            assert(as_ints(offset_map@)[norm_end as int] == offset_map@[norm_end as int] as int);
        }
        if normalized@ == normalize(raw@) && as_ints(offset_map@) == offsets(raw@) && raw_len == raw@.len()
            && norm_start <= norm_end {
            lemma_offsets(raw@);
            lemma_offset_at(raw@, norm_start as int);
            lemma_boundary_monotone(raw@, norm_start as int, norm_end as int);
            lemma_boundary_monotone(raw@, norm_end as int, normalize(raw@).len() as int);
            lemma_segment_normalizes(raw@, norm_start as int, norm_end as int);
            assert(boundary(raw@, norm_end as int) == orig_end);
        }
    }
    (orig_start, orig_end)
}

/// The mapped original offset satisfies
/// `original_offset == normalized_offset + number_of_CR_before_original_offset`.
pub open spec fn offset_consistent(raw: Seq<u8>, norm_offset: int, orig_offset: int) -> bool {
    orig_offset == norm_offset + count_byte(raw.take(orig_offset), CR)
}

/// Verify that the mapped original offset matches the formula:
/// `original_offset == normalized_offset + number_of_CR_before_original_offset`.
pub fn verify_offset(raw: &[u8], norm_offset: usize, orig_offset: usize) -> (r: bool)
    requires
        orig_offset <= raw@.len(),
        norm_offset + count_byte(raw@.take(orig_offset as int), CR) <= usize::MAX,
    ensures
        r == offset_consistent(raw@, norm_offset as int, orig_offset as int),
{
    let cr_count = count_in_prefix(raw, orig_offset, CR);
    orig_offset == norm_offset + cr_count
}

} // verus!
