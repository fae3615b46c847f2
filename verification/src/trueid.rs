//! True IDs: stable identifiers of a region, derived from the hash of its
//! parent (or of its file) and its own region hash.

use vstd::prelude::*;
use vstd::utf8::encode_utf8;
use crate::hash::{compute as hash_compute, hex16, xxh3_64_digest};
use vstd::utf8::valid_utf8;
use crate::error::{io_error, io_error_text, IoErrorKind};
use crate::matcher::{
    line_of, no_occurrence, normalize, normalize_line_endings, resolve, several_occurrences,
    unique_occurrence_at, Match,
};
use crate::text::{append_range, copy_range, is_valid_utf8};

verus! {

/// The bytes hashed for a True ID: `key`, an underscore, then the region hash.
pub open spec fn true_id_input(key: Seq<char>, region_hash: Seq<char>) -> Seq<u8> {
    encode_utf8(key) + seq![95u8] + encode_utf8(region_hash)
}

/// The key of a True ID: the parent's region hash for a nested region, else
/// the hash of the normalized file content.
pub open spec fn true_id_key(raw: Seq<u8>, parent_region_hash: Option<Seq<char>>) -> Seq<char> {
    match parent_region_hash {
        Some(p) => p,
        None => hex16(xxh3_64_digest(normalize(raw))),
    }
}

fn append_str(out: &mut Vec<u8>, s: &str)
    ensures
        final(out)@ == old(out)@ + encode_utf8(s@),
{
    let bytes = s.as_bytes();
    append_range(out, bytes, 0, bytes.len());
    assert(bytes@.subrange(0, bytes@.len() as int) == bytes@);
}

/// The True ID under `key` (a parent's scope hash or True ID, or a file
/// hash) of a region whose hash is `region_hash`: the hash of `key`, an
/// underscore and `region_hash`.
pub fn keyed_true_id(key: &str, region_hash: &str) -> (r: String)
    ensures
        r@ == hex16(xxh3_64_digest(true_id_input(key@, region_hash@))),
{
    let mut input: Vec<u8> = Vec::new();
    append_str(&mut input, key);
    input.push(95u8);
    append_str(&mut input, region_hash);
    assert(input@ == true_id_input(key@, region_hash@));
    hash_compute(input.as_slice())
}

/// Compute the True ID of a region of the file whose bytes are `raw`.
/// True ID = xxh3_64(parent_region_hash + "_" + region_hash) for a nested
/// region, `parent_region_hash` being the region hash recorded for the
/// parent; at root level, True ID = xxh3_64(file_hash + "_" + region_hash).
pub fn compute(raw: &[u8], region_hash: &str, parent_region_hash: Option<&str>) -> (r: String)
    ensures
        r@ == hex16(xxh3_64_digest(true_id_input(
            true_id_key(raw@, match parent_region_hash { Some(p) => Some(p@), None => None }),
            region_hash@,
        ))),
{
    match parent_region_hash {
        Some(parent) => keyed_true_id(parent, region_hash),
        None => {
            let (normalized, _offset_map) = normalize_line_endings(raw);
            let file_hash = hash_compute(normalized.as_slice());
            keyed_true_id(file_hash.as_str(), region_hash)
        },
    }
}

/// A region located for the True ID command.
#[derive(Debug)]
pub struct RegionId {
    /// Where the anchor matched, in the normalized content.
    pub location: Match,
    /// The hash of the region.
    pub region_hash: String,
    /// The region's True ID.
    pub true_id: String,
}

/// Locate `anchor` (as loaded, not normalized) in the normalized content of
/// the file bytes `raw`, and compute the region's hash and its True ID under
/// the parent's region hash `parent_region_hash` or, at the first level,
/// under the file's hash.
pub fn locate_region(raw: &[u8], anchor: &[u8], parent_region_hash: Option<&str>) -> (r: Result<RegionId, String>)
    ensures
        !valid_utf8(raw@) ==> (r matches Err(e) && e@ == io_error_text(IoErrorKind::InvalidUtf8)),
        valid_utf8(raw@) ==> {
            let n = normalize(raw@);
            match r {
                Ok(id) => {
                    &&& unique_occurrence_at(n, anchor@, id.location.byte_start as int)
                    &&& id.location.byte_end == id.location.byte_start + anchor@.len()
                    &&& id.location.start_line == line_of(n, id.location.byte_start as int)
                    &&& id.location.end_line == line_of(n, id.location.byte_end - 1)
                    &&& id.region_hash@ == hex16(xxh3_64_digest(anchor@))
                    &&& id.true_id@ == hex16(xxh3_64_digest(true_id_input(
                        true_id_key(raw@, match parent_region_hash { Some(p) => Some(p@), None => None }),
                        id.region_hash@,
                    )))
                },
                Err(e) => {
                    ||| no_occurrence(n, anchor@) && e@ == "NO_MATCH"@
                    ||| several_occurrences(n, anchor@) && e@ == "MULTIPLE_MATCHES"@
                },
            }
        },
{
    if !is_valid_utf8(raw) {
        return Err(io_error(IoErrorKind::InvalidUtf8));
    }
    let (normalized, _offset_map) = normalize_line_endings(raw);
    let location = match resolve(normalized.as_slice(), anchor) {
        Ok(m) => m,
        Err(e) => return Err(e.to_spec_string()),
    };
    let region = copy_range(normalized.as_slice(), location.byte_start, location.byte_end);
    assert(region@ == anchor@);
    let region_hash = hash_compute(region.as_slice());
    let true_id = compute(raw, region_hash.as_str(), parent_region_hash);
    Ok(RegionId { location, region_hash, true_id })
}

} // verus!
