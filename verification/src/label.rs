//! Decisions of the label command, and the names of stored labels.

use vstd::prelude::*;
use crate::nested_read::{missing_buffer, missing_buffer_message};
use crate::text::{has_prefix, str_starts_with};

verus! {

/// A failure message in the protocol's form: kept when it already starts
/// with `IO_ERROR:`, else prefixed with `IO_ERROR: `.
pub open spec fn as_io_error(msg: Seq<char>) -> Seq<char> {
    if has_prefix(msg, "IO_ERROR:"@) { msg } else { "IO_ERROR: "@ + msg }
}

/// Puts a failure message in the protocol's form.
pub fn io_error_message(msg: String) -> (r: String)
    ensures
        r@ == as_io_error(msg@),
{
    if str_starts_with(msg.as_str(), "IO_ERROR:") {
        msg
    } else {
        let mut r = String::from_str("IO_ERROR: ");
        r.append(msg.as_str());
        r
    }
}

/// The outcome owed for assigning label `name` to `true_id` when a buffer
/// holds that True ID or not (`buffer_exists`) and looking up the label gave
/// `existing` (the True ID it names, or the failure message).
pub open spec fn assignment_outcome(
    name: Seq<char>,
    true_id: Seq<char>,
    buffer_exists: bool,
    existing: Result<Seq<char>, Seq<char>>,
) -> Result<(), Seq<char>> {
    if !buffer_exists {
        Err(missing_buffer_message(true_id))
    } else if name.len() == 0 {
        Err("IO_ERROR: label name must not be empty"@)
    } else if true_id.len() == 0 {
        Err("IO_ERROR: true_id must not be empty"@)
    } else {
        match existing {
            Ok(t) => if t != true_id { Err("LABEL_EXISTS"@) } else { Ok(()) },
            Err(msg) => if has_prefix(msg, "IO_ERROR: file not found"@) { Ok(()) } else { Err(as_io_error(msg)) },
        }
    }
}

/// Decide whether label `name` may be (re)assigned to `true_id`: a buffer
/// must hold the True ID, both must be non-empty, and an existing label must
/// already name the same True ID (assigning it again is idempotent); a
/// missing label is created.
pub fn label_assignment(name: &str, true_id: &str, buffer_exists: bool, existing: Result<String, String>) -> (r: Result<(), String>)
    ensures
        match r {
            Ok(()) => assignment_outcome(name@, true_id@, buffer_exists, match existing { Ok(t) => Ok(t@), Err(m) => Err(m@) }) == Ok::<(), Seq<char>>(()),
            Err(e) => assignment_outcome(name@, true_id@, buffer_exists, match existing { Ok(t) => Ok(t@), Err(m) => Err(m@) }) == Err::<(), Seq<char>>(e@),
        },
{
    if !buffer_exists {
        return Err(missing_buffer(true_id));
    }
    if name.is_empty() {
        return Err(String::from_str("IO_ERROR: label name must not be empty"));
    }
    if true_id.is_empty() {
        return Err(String::from_str("IO_ERROR: true_id must not be empty"));
    }
    match existing {
        Ok(existing_true_id) => {
            let wanted = String::from_str(true_id);
            if existing_true_id != wanted {
                Err(String::from_str("LABEL_EXISTS"))
            } else {
                Ok(())
            }
        },
        Err(msg) => {
            if str_starts_with(msg.as_str(), "IO_ERROR: file not found") {
                Ok(())
            } else {
                Err(io_error_message(msg))
            }
        },
    }
}

/// The report of a label assigned to a True ID.
pub open spec fn alias_defined_text(name: Seq<char>, true_id: Seq<char>) -> Seq<char> {
    "OK: alias '"@ + name + "' defined for true_id '"@ + true_id + "'"@
}

/// Builds the report of a label assigned to a True ID.
pub fn alias_defined(name: &str, true_id: &str) -> (r: String)
    ensures
        r@ == alias_defined_text(name@, true_id@),
{
    let mut r = String::from_str("OK: alias '");
    r.append(name);
    r.append("' defined for true_id '");
    r.append(true_id);
    r.append("'");
    r
}

/// `s` with every trailing `.json` removed.
pub open spec fn without_json_suffixes(s: Seq<char>) -> Seq<char>
    decreases s.len(),
{
    if s.len() >= 5 && s.subrange(s.len() - 5, s.len() as int) == ".json"@ {
        without_json_suffixes(s.subrange(0, s.len() - 5))
    } else {
        s
    }
}

/// The alias a label file stands for: its name with trailing `.json`
/// extensions removed.
pub fn alias_name(file_name: &str) -> (r: String)
    ensures
        r@ == without_json_suffixes(file_name@),
{
    proof {
        reveal_strlit(".json");
    }
    let n = file_name.unicode_len();
    let mut end: usize = n;
    assert(file_name@.subrange(0, n as int) == file_name@);
    while end >= 5 && file_name.get_char(end - 5) == '.' && file_name.get_char(end - 4) == 'j'
        && file_name.get_char(end - 3) == 's' && file_name.get_char(end - 2) == 'o'
        && file_name.get_char(end - 1) == 'n'
        invariant
            n == file_name@.len(),
            end <= n,
            without_json_suffixes(file_name@) == without_json_suffixes(file_name@.subrange(0, end as int)),
        decreases end,
    {
        proof {
            reveal_strlit(".json");
        }
        let ghost t = file_name@.subrange(0, end as int);
        assert(t.subrange(t.len() - 5, t.len() as int) =~= ".json"@);
        assert(t.subrange(0, t.len() - 5) == file_name@.subrange(0, end - 5));
        end = end - 5;
    }
    let ghost t = file_name@.subrange(0, end as int);
    if end >= 5 {
        assert(t.subrange(t.len() - 5, t.len() as int) != ".json"@) by {
            let u = t.subrange(t.len() - 5, t.len() as int);
            if u == ".json"@ {
                assert(u[0] == file_name@[end - 5]);
                assert(u[1] == file_name@[end - 4]);
                assert(u[2] == file_name@[end - 3]);
                assert(u[3] == file_name@[end - 2]);
                assert(u[4] == file_name@[end - 1]);
            }
        }
    }
    file_name.substring_char(0, end).to_owned()
}

} // verus!
