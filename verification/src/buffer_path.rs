//! Locations of the anchor buffer, under the system's temporary directory.

use vstd::prelude::*;
use crate::text::{join_path, path_join};

verus! {

/// `{temp_dir}/anchorscope`, the base of the anchor buffer.
pub open spec fn spec_anchorscope_dir(temp_dir: Seq<char>) -> Seq<char> {
    path_join(temp_dir, "anchorscope"@)
}

/// Returns `{temp_dir}/anchorscope`, the base of the anchor buffer.
pub fn anchorscope_temp_dir(temp_dir: &str) -> (r: String)
    ensures
        r@ == spec_anchorscope_dir(temp_dir@),
{
    join_path(temp_dir, "anchorscope")
}

/// Returns `{temp_dir}/anchorscope/anchors` (the earlier anchor metadata store).
pub fn anchors_dir(temp_dir: &str) -> (r: String)
    ensures
        r@ == path_join(spec_anchorscope_dir(temp_dir@), "anchors"@),
{
    let base = anchorscope_temp_dir(temp_dir);
    join_path(base.as_str(), "anchors")
}

/// Returns `{temp_dir}/anchorscope/labels`, the alias store.
pub fn labels_dir(temp_dir: &str) -> (r: String)
    ensures
        r@ == path_join(spec_anchorscope_dir(temp_dir@), "labels"@),
{
    let base = anchorscope_temp_dir(temp_dir);
    join_path(base.as_str(), "labels")
}

/// `{temp_dir}/anchorscope/{file_hash}`.
pub open spec fn spec_file_dir(temp_dir: Seq<char>, file_hash: Seq<char>) -> Seq<char> {
    path_join(spec_anchorscope_dir(temp_dir), file_hash)
}

/// Returns `{temp_dir}/anchorscope/{file_hash}`.
pub fn file_dir(temp_dir: &str, file_hash: &str) -> (r: String)
    ensures
        r@ == spec_file_dir(temp_dir@, file_hash@),
{
    let base = anchorscope_temp_dir(temp_dir);
    join_path(base.as_str(), file_hash)
}

/// `{temp_dir}/anchorscope/{file_hash}/{true_id}`.
pub open spec fn spec_true_id_dir(temp_dir: Seq<char>, file_hash: Seq<char>, true_id: Seq<char>) -> Seq<char> {
    path_join(spec_file_dir(temp_dir, file_hash), true_id)
}

/// Returns `{temp_dir}/anchorscope/{file_hash}/{true_id}`.
pub fn true_id_dir(temp_dir: &str, file_hash: &str, true_id: &str) -> (r: String)
    ensures
        r@ == spec_true_id_dir(temp_dir@, file_hash@, true_id@),
{
    let dir = file_dir(temp_dir, file_hash);
    join_path(dir.as_str(), true_id)
}

/// Returns `{temp_dir}/anchorscope/{file_hash}/{parent_true_id}/{true_id}` for a nested buffer.
pub fn nested_true_id_dir(temp_dir: &str, file_hash: &str, parent_true_id: &str, true_id: &str) -> (r: String)
    ensures
        r@ == path_join(spec_true_id_dir(temp_dir@, file_hash@, parent_true_id@), true_id@),
{
    let dir = true_id_dir(temp_dir, file_hash, parent_true_id);
    join_path(dir.as_str(), true_id)
}

} // verus!
