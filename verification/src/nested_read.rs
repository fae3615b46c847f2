//! Reads made inside anchor buffers: which target a read names, the buffer a
//! label or True ID leads to, the nesting limit, and the True ID of a region
//! found inside a parent buffer.

use vstd::prelude::*;
use vstd::utf8::valid_utf8;
use crate::error::{io_error, io_error_text, IoErrorKind};
use crate::hash::{compute, hex16, xxh3_64_digest};
use crate::matcher::{
    line_of, no_occurrence, normalize, normalize_line_endings, resolve, several_occurrences,
    unique_occurrence_at, Match,
};
use crate::text::{copy_range, has_prefix, is_valid_utf8, push_char, str_starts_with};
use crate::trueid::{keyed_true_id, true_id_input};

verus! {

/// The ASCII digit of `d` (for `d < 10`).
pub open spec fn digit_char(d: nat) -> char {
    (d + 48) as char
}

/// The decimal numeral of `n`: its digits, most significant first, with no
/// leading zero.
pub open spec fn decimal(n: nat) -> Seq<char>
    decreases n,
{
    if n < 10 {
        seq![digit_char(n)]
    } else {
        decimal(n / 10).push(digit_char(n % 10))
    }
}

fn digit(d: usize) -> (c: char)
    requires
        d < 10,
    ensures
        c == digit_char(d as nat),
{
    if d == 0 { '0' } else if d == 1 { '1' } else if d == 2 { '2' } else if d == 3 { '3' }
    else if d == 4 { '4' } else if d == 5 { '5' } else if d == 6 { '6' } else if d == 7 { '7' }
    else if d == 8 { '8' } else { '9' }
}

/// Appends the decimal numeral of `n` to `out`.
fn push_decimal(out: &mut String, n: usize)
    ensures
        final(out)@ == old(out)@ + decimal(n as nat),
    decreases n,
{
    let ghost start = out@;
    if n >= 10 {
        push_decimal(out, n / 10);
    }
    push_char(out, digit(n % 10));
    proof {
        if n >= 10 {
            assert(out@ == start + decimal((n / 10) as nat).push(digit_char((n % 10) as nat)));
        } else {
            assert(out@ == start + seq![digit_char(n as nat)]);
        }
    }
}

/// The error of a read whose nesting would reach `max_depth`.
pub open spec fn depth_exceeded_message(max_depth: nat) -> Seq<char> {
    "IO_ERROR: maximum nesting depth ("@ + decimal(max_depth) + ") exceeded"@
}

/// The error of a read naming a True ID that no buffer holds.
pub open spec fn missing_buffer_message(true_id: Seq<char>) -> Seq<char> {
    "IO_ERROR: buffer metadata for true_id '"@ + true_id + "' not found"@
}

/// Builds the message of `depth_exceeded_message`.
pub fn depth_exceeded(max_depth: usize) -> (r: String)
    ensures
        r@ == depth_exceeded_message(max_depth as nat),
{
    let mut r = String::from_str("IO_ERROR: maximum nesting depth (");
    push_decimal(&mut r, max_depth);
    r.append(") exceeded");
    r
}

/// Builds the message of `missing_buffer_message`.
pub fn missing_buffer(true_id: &str) -> (r: String)
    ensures
        r@ == missing_buffer_message(true_id@),
{
    let mut r = String::from_str("IO_ERROR: buffer metadata for true_id '");
    r.append(true_id);
    r.append("' not found");
    r
}

/// What a read command names.
#[derive(Debug, PartialEq, Eq)]
pub enum ReadTarget {
    /// A file, read directly.
    File { file: String },
    /// The buffer that a label (or a True ID given as a label) names; the
    /// file is still named.
    Label { file: String, label: String },
    /// The buffer of a True ID, searched for an inline anchor.
    TrueId { true_id: String, anchor: String },
}

/// Choose what a read names from its arguments. With `--true-id`, neither
/// `--label` nor `--anchor-file` may be given and an inline anchor is
/// required; otherwise `--file` is required, and `--label` reads inside the
/// buffer the label names.
pub fn select_read_target(
    file: Option<&str>,
    anchor: Option<&str>,
    anchor_file: Option<&str>,
    label: Option<&str>,
    true_id: Option<&str>,
) -> (r: Result<ReadTarget, String>)
    ensures
        match true_id {
            Some(t) => if label is Some {
                r matches Err(e) && e@ == "IO_ERROR: cannot specify both --label and --true-id"@
            } else if anchor_file is Some {
                r matches Err(e) && e@ == "IO_ERROR: --anchor-file not allowed with --true-id"@
            } else {
                match anchor {
                    Some(a) => r matches Ok(ReadTarget::TrueId { true_id: s, anchor: b }) && s@ == t@ && b@ == a@,
                    None => r matches Err(e) && e@ == "ANCHOR_REQUIRED"@,
                }
            },
            None => match file {
                None => r matches Err(e) && e@ == "IO_ERROR: must specify either --file or --true-id"@,
                Some(f) => match label {
                    Some(l) => r matches Ok(ReadTarget::Label { file: g, label: m }) && g@ == f@ && m@ == l@,
                    None => r matches Ok(ReadTarget::File { file: g }) && g@ == f@,
                },
            },
        },
{
    if let Some(t) = true_id {
        if label.is_some() {
            return Err(String::from_str("IO_ERROR: cannot specify both --label and --true-id"));
        }
        if anchor_file.is_some() {
            return Err(String::from_str("IO_ERROR: --anchor-file not allowed with --true-id"));
        }
        return match anchor {
            Some(a) => Ok(ReadTarget::TrueId { true_id: String::from_str(t), anchor: String::from_str(a) }),
            None => Err(String::from_str("ANCHOR_REQUIRED")),
        };
    }
    match file {
        None => Err(String::from_str("IO_ERROR: must specify either --file or --true-id")),
        Some(f) => match label {
            Some(l) => Ok(ReadTarget::Label { file: String::from_str(f), label: String::from_str(l) }),
            None => Ok(ReadTarget::File { file: String::from_str(f) }),
        },
    }
}

/// The True ID that `--label` names, given what looking the label up gave
/// (`target`) and whether a buffer holds a True ID equal to the label: a
/// stored label gives its True ID; a label that is not stored is taken as a
/// True ID when a buffer holds it; any other failure is reported as it came.
pub fn label_true_id(label: &str, target: Result<String, String>, buffer_exists: bool) -> (r: Result<String, String>)
    ensures
        match target {
            Ok(t) => r matches Ok(s) && s@ == t@,
            Err(e) => if has_prefix(e@, "IO_ERROR: file not found"@) {
                if buffer_exists {
                    r matches Ok(s) && s@ == label@
                } else {
                    r matches Err(m) && m@ == missing_buffer_message(label@)
                }
            } else {
                r matches Err(m) && m@ == e@
            },
        },
{
    match target {
        Ok(t) => Ok(t),
        Err(e) => {
            if str_starts_with(e.as_str(), "IO_ERROR: file not found") {
                if buffer_exists {
                    Ok(String::from_str(label))
                } else {
                    Err(missing_buffer(label))
                }
            } else {
                Err(e)
            }
        },
    }
}

/// A buffer a read is made in: where its file's records are kept, the source
/// file it was read from, and its content.
#[derive(Debug)]
pub struct OpenBuffer {
    pub file_hash: String,
    pub source_path: String,
    pub content: Vec<u8>,
}

/// The outcome owed for opening the buffer of `true_id`, given whether a
/// buffer holds it, the file hash under which it was found with the lookup
/// of that file's source path, and the buffer's content when it could be
/// loaded.
pub open spec fn open_buffer_outcome(
    true_id: Seq<char>,
    buffer_exists: bool,
    located: Option<(Seq<char>, Result<Seq<char>, Seq<char>>)>,
    content: Option<Seq<u8>>,
) -> Result<(Seq<char>, Seq<char>, Seq<u8>), Seq<char>> {
    if !buffer_exists {
        Err(missing_buffer_message(true_id))
    } else {
        match located {
            None => Err(missing_buffer_message(true_id)),
            Some((_, Err(e))) => if e == "DUPLICATE_TRUE_ID"@ {
                Err(e)
            } else {
                Err("IO_ERROR: cannot load source path: "@ + e)
            },
            Some((file_hash, Ok(source))) => match content {
                None => Err("IO_ERROR: cannot load buffer content"@),
                Some(c) => if !valid_utf8(c) {
                    Err(io_error_text(IoErrorKind::InvalidUtf8))
                } else {
                    Ok((file_hash, source, c))
                },
            },
        }
    }
}

/// Open the buffer of `true_id` from what the lookups about it gave, in the
/// order they are made: whether a buffer holds it, the file hash it is
/// found under with that file's source path, then its content, which must
/// be UTF-8.
pub fn open_buffer(
    true_id: &str,
    buffer_exists: bool,
    located: Option<(String, Result<String, String>)>,
    content: Option<Vec<u8>>,
) -> (r: Result<OpenBuffer, String>)
    ensures
        match r {
            Ok(b) => open_buffer_outcome(
                true_id@,
                buffer_exists,
                match located { Some((h, Ok(s))) => Some((h@, Ok(s@))), Some((h, Err(e))) => Some((h@, Err(e@))), None => None },
                match content { Some(c) => Some(c@), None => None },
            ) == Ok::<(Seq<char>, Seq<char>, Seq<u8>), Seq<char>>((b.file_hash@, b.source_path@, b.content@)),
            Err(m) => open_buffer_outcome(
                true_id@,
                buffer_exists,
                match located { Some((h, Ok(s))) => Some((h@, Ok(s@))), Some((h, Err(e))) => Some((h@, Err(e@))), None => None },
                match content { Some(c) => Some(c@), None => None },
            ) == Err::<(Seq<char>, Seq<char>, Seq<u8>), Seq<char>>(m@),
        },
{
    if !buffer_exists {
        return Err(missing_buffer(true_id));
    }
    let (file_hash, source) = match located {
        None => return Err(missing_buffer(true_id)),
        Some(pair) => pair,
    };
    let source_path = match source {
        Ok(s) => s,
        Err(e) => {
            let duplicate = String::from_str("DUPLICATE_TRUE_ID");
            proof {
                reveal_strlit("DUPLICATE_TRUE_ID");
            }
            if e == duplicate {
                return Err(e);
            }
            let mut m = String::from_str("IO_ERROR: cannot load source path: ");
            m.append(e.as_str());
            return Err(m);
        },
    };
    let content = match content {
        None => return Err(String::from_str("IO_ERROR: cannot load buffer content")),
        Some(c) => c,
    };
    if !is_valid_utf8(content.as_slice()) {
        return Err(io_error(IoErrorKind::InvalidUtf8));
    }
    Ok(OpenBuffer { file_hash, source_path, content })
}

/// The parent buffer a nested read is made in, with what the lookups about
/// it gave.
#[derive(Debug)]
pub struct ParentScope {
    /// The parent buffer's content, which the anchor is matched against.
    pub content: Vec<u8>,
    /// The parent's True ID.
    pub true_id: String,
    /// The parent's nesting depth (0 for a region of the file itself), or
    /// the error of looking it up.
    pub depth: Result<usize, String>,
    /// The scope hash recorded for the parent, or the error of loading it.
    pub scope_hash: Result<String, String>,
}

/// A region located by a read and the identifiers it is kept under.
#[derive(Debug)]
pub struct LocatedScope {
    /// Where the anchor matched, in the normalized content.
    pub location: Match,
    /// The content the anchor was matched against, normalized.
    pub normalized: Vec<u8>,
    /// The anchor, normalized.
    pub anchor: Vec<u8>,
    /// The matched scope.
    pub scope: Vec<u8>,
    /// The hash of the matched scope.
    pub scope_hash: String,
    /// The hash of the file's bytes as read.
    pub file_hash: String,
    /// The True ID of the region.
    pub true_id: String,
    /// The parent's True ID, for a nested read.
    pub parent_true_id: Option<String>,
}

/// The bytes a read matches against: the parent buffer's content for a
/// nested read, else the file's.
pub open spec fn matched_bytes(raw: Seq<u8>, parent: Option<ParentScope>) -> Seq<u8> {
    match parent {
        Some(p) => p.content@,
        None => raw,
    }
}

/// The error reported when the parent's recorded scope hash could not be loaded.
pub open spec fn parent_metadata_error(e: Seq<char>) -> Seq<char> {
    if e == "DUPLICATE_TRUE_ID"@ {
        e
    } else {
        "IO_ERROR: parent buffer metadata corrupted: "@ + e
    }
}

/// The error owed by a read of the file bytes `raw` with `anchor`, made in
/// `parent` when it is given, under the nesting limit `max_depth`; `None`
/// when the read succeeds. The checks come in this order: the file must be
/// UTF-8; the normalized anchor must occur exactly once in the normalized
/// content; a nested read needs its parent's depth, must stay below the
/// limit, and needs the parent's recorded scope hash.
pub open spec fn nested_read_error(
    raw: Seq<u8>,
    anchor: Seq<u8>,
    parent: Option<ParentScope>,
    max_depth: nat,
) -> Option<Seq<char>> {
    let n = normalize(matched_bytes(raw, parent));
    let a = normalize(anchor);
    if !valid_utf8(raw) {
        Some(io_error_text(IoErrorKind::InvalidUtf8))
    } else if no_occurrence(n, a) {
        Some("NO_MATCH"@)
    } else if several_occurrences(n, a) {
        Some("MULTIPLE_MATCHES"@)
    } else {
        match parent {
            None => None,
            Some(p) => match p.depth {
                Err(e) => Some(e@),
                Ok(d) => if d + 1 >= max_depth {
                    Some(depth_exceeded_message(max_depth))
                } else {
                    match p.scope_hash {
                        Err(e) => Some(parent_metadata_error(e@)),
                        Ok(_) => None,
                    }
                },
            },
        }
    }
}

/// The True ID of the region whose normalized scope is `scope`: keyed by
/// the parent's recorded scope hash for a nested read, else by the hash of
/// the file's bytes `raw`.
pub open spec fn region_true_id(raw: Seq<u8>, scope: Seq<u8>, parent_scope_hash: Option<Seq<char>>) -> Seq<char> {
    let key = match parent_scope_hash {
        Some(h) => h,
        None => hex16(xxh3_64_digest(raw)),
    };
    hex16(xxh3_64_digest(true_id_input(key, hex16(xxh3_64_digest(scope)))))
}

/// The outcome owed by a read of the file bytes `raw` with `anchor`, made in
/// `parent` when it is given, under the nesting limit `max_depth`.
pub open spec fn nested_read_outcome(
    raw: Seq<u8>,
    anchor: Seq<u8>,
    parent: Option<ParentScope>,
    max_depth: nat,
    r: Result<LocatedScope, String>,
) -> bool {
    match r {
        Err(e) => nested_read_error(raw, anchor, parent, max_depth) == Some(e@),
        Ok(s) => {
            let n = normalize(matched_bytes(raw, parent));
            let a = normalize(anchor);
            &&& nested_read_error(raw, anchor, parent, max_depth) is None
            &&& unique_occurrence_at(n, a, s.location.byte_start as int)
            &&& s.location.byte_end == s.location.byte_start + a.len()
            &&& s.location.start_line == line_of(n, s.location.byte_start as int)
            &&& s.location.end_line == line_of(n, s.location.byte_end - 1)
            &&& s.normalized@ == n
            &&& s.anchor@ == a
            &&& s.scope@ == a
            &&& s.scope_hash@ == hex16(xxh3_64_digest(a))
            &&& s.file_hash@ == hex16(xxh3_64_digest(raw))
            &&& match parent {
                None => s.parent_true_id is None && s.true_id@ == region_true_id(raw, a, None),
                Some(p) => p.scope_hash matches Ok(h) && s.parent_true_id matches Some(t)
                    && t@ == p.true_id@ && s.true_id@ == region_true_id(raw, a, Some(h@)),
            }
        },
    }
}

/// Locate `anchor` in the file bytes `raw`, or in the parent buffer's
/// content for a nested read, and compute the hashes and the True ID the
/// region is kept under. The errors and their order are those of
/// `nested_read_error`.
pub fn nested_read(raw: &[u8], anchor: &[u8], parent: Option<ParentScope>, max_depth: usize) -> (r: Result<LocatedScope, String>)
    requires
        max_depth >= 1,
    ensures
        nested_read_outcome(raw@, anchor@, parent, max_depth as nat, r),
{
    if !is_valid_utf8(raw) {
        return Err(io_error(IoErrorKind::InvalidUtf8));
    }
    let (normalized, _offset_map) = match &parent {
        Some(p) => normalize_line_endings(p.content.as_slice()),
        None => normalize_line_endings(raw),
    };
    let (anchor_normalized, _anchor_map) = normalize_line_endings(anchor);
    let location = match resolve(normalized.as_slice(), anchor_normalized.as_slice()) {
        Ok(m) => m,
        Err(e) => return Err(e.to_spec_string()),
    };
    let scope = copy_range(normalized.as_slice(), location.byte_start, location.byte_end);
    assert(scope@ == anchor_normalized@);
    let scope_hash = compute(scope.as_slice());
    let file_hash = compute(raw);
    match parent {
        None => {
            let true_id = keyed_true_id(file_hash.as_str(), scope_hash.as_str());
            Ok(LocatedScope {
                location,
                normalized,
                anchor: anchor_normalized,
                scope,
                scope_hash,
                file_hash,
                true_id,
                parent_true_id: None,
            })
        },
        Some(p) => {
            let ParentScope { content: _, true_id: parent_true_id, depth, scope_hash: parent_hash } = p;
            match depth {
                Err(e) => return Err(e),
                Ok(d) => {
                    if d >= max_depth - 1 {
                        return Err(depth_exceeded(max_depth));
                    }
                },
            }
            let parent_hash = match parent_hash {
                Ok(h) => h,
                Err(e) => {
                    let duplicate = String::from_str("DUPLICATE_TRUE_ID");
                    proof {
                        reveal_strlit("DUPLICATE_TRUE_ID");
                    }
                    if e == duplicate {
                        return Err(e);
                    }
                    let mut m = String::from_str("IO_ERROR: parent buffer metadata corrupted: ");
                    m.append(e.as_str());
                    return Err(m);
                },
            };
            let true_id = keyed_true_id(parent_hash.as_str(), scope_hash.as_str());
            Ok(LocatedScope {
                location,
                normalized,
                anchor: anchor_normalized,
                scope,
                scope_hash,
                file_hash,
                true_id,
                parent_true_id: Some(parent_true_id),
            })
        },
    }
}

/// The views of buffer entries found on disk: each a True ID and the True
/// ID of the buffer it is nested in (`None` for a region of the file itself).
pub open spec fn entry_views(entries: Seq<(String, Option<String>)>) -> Seq<(Seq<char>, Option<Seq<char>>)> {
    entries.map_values(|e: (String, Option<String>)| (e.0@, match e.1 { Some(p) => Some(p@), None => None }))
}

/// The parent recorded for `true_id` by the first entry that names it, or
/// `None` when no entry names it.
pub open spec fn parent_of(entries: Seq<(Seq<char>, Option<Seq<char>>)>, true_id: Seq<char>) -> Option<Option<Seq<char>>>
    decreases entries.len(),
{
    if entries.len() == 0 {
        None
    } else if entries[0].0 == true_id {
        Some(entries[0].1)
    } else {
        parent_of(entries.skip(1), true_id)
    }
}

/// The number of ancestors of `true_id` along its parent chain, following at
/// most `fuel` links; `None` when the chain reaches a True ID no entry names,
/// or runs longer than `fuel` (a chain that loops).
pub open spec fn chain_depth(entries: Seq<(Seq<char>, Option<Seq<char>>)>, true_id: Seq<char>, fuel: nat) -> Option<nat>
    decreases fuel,
{
    if fuel == 0 {
        None
    } else {
        match parent_of(entries, true_id) {
            None => None,
            Some(None) => Some(0),
            Some(Some(p)) => match chain_depth(entries, p, (fuel - 1) as nat) {
                Some(d) => Some(d + 1),
                None => None,
            },
        }
    }
}

/// `depth` added to a depth that may be missing.
pub open spec fn deeper(d: Option<nat>, depth: nat) -> Option<nat> {
    match d {
        Some(x) => Some(x + depth),
        None => None,
    }
}

/// The parent recorded for `true_id` by the first entry naming it.
fn lookup_parent(entries: &Vec<(String, Option<String>)>, true_id: &str) -> (r: Option<Option<String>>)
    ensures
        match r {
            None => parent_of(entry_views(entries@), true_id@) is None,
            Some(None) => parent_of(entry_views(entries@), true_id@) == Some(None::<Seq<char>>),
            Some(Some(p)) => parent_of(entry_views(entries@), true_id@) == Some(Some(p@)),
        },
{
    let ghost all = entry_views(entries@);
    assert(all.skip(0) == all);
    let wanted = String::from_str(true_id);
    let mut i: usize = 0;
    while i < entries.len()
        invariant
            i <= entries@.len(),
            all == entry_views(entries@),
            wanted@ == true_id@,
            parent_of(all, true_id@) == parent_of(all.skip(i as int), true_id@),
        decreases entries@.len() - i,
    {
        let ghost rest = all.skip(i as int);
        assert(rest[0] == all[i as int]);
        if entries[i].0 == wanted {
            return match &entries[i].1 {
                Some(p) => Some(Some(p.clone())),
                None => Some(None),
            };
        }
        assert(rest.skip(1) == all.skip(i + 1));
        i = i + 1;
    }
    assert(all.skip(i as int).len() == 0);
    None
}

/// The nesting depth of the buffer of `true_id`: the number of its ancestors
/// along the parent chain recorded by `entries` (0 for a region of the file
/// itself). When the chain reaches a True ID no entry names, or loops, the
/// buffer is reported as not found.
pub fn nesting_depth(entries: &Vec<(String, Option<String>)>, true_id: &str) -> (r: Result<usize, String>)
    ensures
        match chain_depth(entry_views(entries@), true_id@, (entries@.len() + 1) as nat) {
            Some(d) => r == Ok::<usize, String>(d as usize),
            None => r matches Err(m) && m@ == missing_buffer_message(true_id@),
        },
{
    let ghost es = entry_views(entries@);
    let ghost total: nat = (entries@.len() + 1) as nat;
    let mut current = String::from_str(true_id);
    let mut depth: usize = 0;
    let n: usize = entries.len();
    let mut fuel: usize = n;
    loop
        invariant_except_break
            n == entries@.len(),
            depth + fuel == n,
            depth + fuel + 1 == total,
            chain_depth(es, true_id@, total) == deeper(chain_depth(es, current@, (fuel + 1) as nat), depth as nat),
            es == entry_views(entries@),
            total == entries@.len() + 1,
        ensures
            chain_depth(es, true_id@, total) is None,
        decreases fuel,
    {
        match lookup_parent(entries, current.as_str()) {
            None => {
                break;
            },
            Some(None) => {
                return Ok(depth);
            },
            Some(Some(p)) => {
                if fuel == 0 {
                    assert(chain_depth(es, p@, 0) is None);
                    break;
                }
                current = p;
                depth = depth + 1;
                fuel = fuel - 1;
            },
        }
    }
    Err(missing_buffer(true_id))
}

} // verus!
