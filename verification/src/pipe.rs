//! Decisions of the pipe command: which buffer it addresses, in which mode
//! it runs, and the argument list handed to an external tool.

use vstd::prelude::*;
use crate::config::is_white_space;
use crate::text::push_char;

verus! {

/// The buffer a pipe command addresses.
#[derive(Debug, PartialEq, Eq)]
pub enum PipeTarget {
    /// A label, to be resolved to its True ID.
    Label(String),
    /// A True ID given directly.
    TrueId(String),
}

/// Choose the addressed buffer from `--label` and `--true-id`, exactly one of
/// which must be given.
pub fn select_target(label: Option<&str>, true_id: Option<&str>) -> (r: Result<PipeTarget, String>)
    ensures
        match (label, true_id) {
            (Some(l), None) => r matches Ok(PipeTarget::Label(s)) && s@ == l@,
            (None, Some(t)) => r matches Ok(PipeTarget::TrueId(s)) && s@ == t@,
            (Some(_), Some(_)) => r matches Err(e) && e@ == "IO_ERROR: mutually exclusive options: --label and --true-id"@,
            (None, None) => r matches Err(e) && e@ == "IO_ERROR: either --label or --true-id must be provided"@,
        },
{
    match (label, true_id) {
        (Some(l), None) => Ok(PipeTarget::Label(String::from_str(l))),
        (None, Some(t)) => Ok(PipeTarget::TrueId(String::from_str(t))),
        (Some(_), Some(_)) => Err(String::from_str("IO_ERROR: mutually exclusive options: --label and --true-id")),
        (None, None) => Err(String::from_str("IO_ERROR: either --label or --true-id must be provided")),
    }
}

/// How the pipe command exchanges the buffer content.
#[derive(Debug, PartialEq, Eq)]
pub enum PipeMode {
    /// Stream the buffer content to standard output.
    Out,
    /// Read the replacement from standard input.
    In,
    /// Run an external tool on the content and keep its output as the replacement.
    FileIo(String),
}

/// The `--tool` requirement of file-io mode, checked before anything else.
pub fn require_tool(file_io: bool, tool: Option<&str>) -> (r: Result<Option<String>, String>)
    ensures
        !file_io ==> r == Ok::<Option<String>, String>(None),
        file_io ==> match tool {
            Some(t) => r matches Ok(Some(s)) && s@ == t@,
            None => r matches Err(e) && e@ == "IO_ERROR: --tool required for --file-io mode"@,
        },
{
    if !file_io {
        return Ok(None);
    }
    match tool {
        Some(t) => Ok(Some(String::from_str(t))),
        None => Err(String::from_str("IO_ERROR: --tool required for --file-io mode")),
    }
}

/// The mode of a pipe command: file-io with its tool when one was required,
/// else `--out`, else `--in`; neither is an error.
pub fn select_mode(tool: Option<String>, out: bool, input: bool) -> (r: Result<PipeMode, String>)
    ensures
        match tool {
            Some(t) => r matches Ok(PipeMode::FileIo(s)) && s@ == t@,
            None => if out {
                r matches Ok(PipeMode::Out)
            } else if input {
                r matches Ok(PipeMode::In)
            } else {
                r matches Err(e) && e@ == "IO_ERROR: either --out or --in must be specified"@
            },
        },
{
    match tool {
        Some(t) => Ok(PipeMode::FileIo(t)),
        None => {
            if out {
                Ok(PipeMode::Out)
            } else if input {
                Ok(PipeMode::In)
            } else {
                Err(String::from_str("IO_ERROR: either --out or --in must be specified"))
            }
        },
    }
}

/// The words of `s` that are complete, and the (possibly empty) word that
/// `s` ends in.
pub open spec fn words_with_tail(s: Seq<char>) -> (Seq<Seq<char>>, Seq<char>)
    decreases s.len(),
{
    if s.len() == 0 {
        (Seq::empty(), Seq::empty())
    } else {
        let (done, tail) = words_with_tail(s.drop_last());
        if is_white_space(s.last()) {
            (if tail.len() > 0 { done.push(tail) } else { done }, Seq::empty())
        } else {
            (done, tail.push(s.last()))
        }
    }
}

/// The words of `s`, the unfinished last one included.
pub open spec fn split_words(s: Seq<char>) -> Seq<Seq<char>> {
    let (done, tail) = words_with_tail(s);
    if tail.len() > 0 { done.push(tail) } else { done }
}

/// The views of a list of strings.
pub open spec fn views(v: Seq<String>) -> Seq<Seq<char>> {
    v.map_values(|s: String| s@)
}

/// `s` with its white-space characters removed.
pub open spec fn without_white_space(s: Seq<char>) -> Seq<char>
    decreases s.len(),
{
    if s.len() == 0 {
        s
    } else if is_white_space(s.last()) {
        without_white_space(s.drop_last())
    } else {
        without_white_space(s.drop_last()).push(s.last())
    }
}

/// Words laid end to end.
pub open spec fn concat_words(ws: Seq<Seq<char>>) -> Seq<char>
    decreases ws.len(),
{
    if ws.len() == 0 {
        Seq::empty()
    } else {
        concat_words(ws.drop_last()) + ws.last()
    }
}

/// A word: one or more characters, none of them white space.
pub open spec fn is_word(w: Seq<char>) -> bool {
    w.len() > 0 && forall|i: int| 0 <= i < w.len() ==> !is_white_space(#[trigger] w[i])
}

/// The number of places where a word starts in `s`: a character that is not
/// white space and either opens `s` or follows white space.
pub open spec fn word_starts(s: Seq<char>) -> nat
    decreases s.len(),
{
    if s.len() == 0 {
        0
    } else {
        word_starts(s.drop_last()) + if !is_white_space(s.last())
            && (s.len() == 1 || is_white_space(s.drop_last().last())) { 1nat } else { 0nat }
    }
}

proof fn lemma_concat_push(ws: Seq<Seq<char>>, w: Seq<char>)
    ensures
        concat_words(ws.push(w)) == concat_words(ws) + w,
{
    assert(ws.push(w).drop_last() == ws);
}

proof fn lemma_words_with_tail(s: Seq<char>)
    ensures
        ({
            let (done, tail) = words_with_tail(s);
            &&& concat_words(done) + tail == without_white_space(s)
            &&& forall|k: int| 0 <= k < done.len() ==> is_word(#[trigger] done[k])
            &&& forall|i: int| 0 <= i < tail.len() ==> !is_white_space(#[trigger] tail[i])
            &&& (tail.len() > 0) == (s.len() > 0 && !is_white_space(s.last()))
            &&& done.len() + (if tail.len() > 0 { 1nat } else { 0nat }) == word_starts(s)
        }),
    decreases s.len(),
{
    if s.len() > 0 {
        let p = s.drop_last();
        lemma_words_with_tail(p);
        let (done, tail) = words_with_tail(p);
        let c = s.last();
        if is_white_space(c) {
            if tail.len() > 0 {
                lemma_concat_push(done, tail);
                let d2 = done.push(tail);
                assert forall|k: int| 0 <= k < d2.len() implies is_word(#[trigger] d2[k]) by {
                    if k < done.len() {
                        assert(d2[k] == done[k]);
                    }
                }
            }
            assert(concat_words(words_with_tail(s).0) + words_with_tail(s).1 == without_white_space(s));
        } else {
            let t2 = tail.push(c);
            assert(concat_words(done) + t2 == (concat_words(done) + tail).push(c));
            assert forall|i: int| 0 <= i < t2.len() implies !is_white_space(#[trigger] t2[i]) by {
                if i < tail.len() {
                    assert(t2[i] == tail[i]);
                }
            }
        }
    }
}

/// Splitting at white space keeps every other character, in order, and
/// only at the places where a word starts: the words laid end to end are the
/// input without its white space, each word is non-empty and holds no white
/// space, and there is one word per place in the input where a character
/// that is not white space opens the input or follows white space.
pub proof fn theorem_split_words_partition(s: Seq<char>)
    ensures
        concat_words(split_words(s)) == without_white_space(s),
        forall|k: int| 0 <= k < split_words(s).len() ==> is_word(#[trigger] split_words(s)[k]),
        split_words(s).len() == word_starts(s),
{
    lemma_words_with_tail(s);
    let (done, tail) = words_with_tail(s);
    if tail.len() > 0 {
        lemma_concat_push(done, tail);
        let d2 = done.push(tail);
        assert forall|k: int| 0 <= k < d2.len() implies is_word(#[trigger] d2[k]) by {
            if k < done.len() {
                assert(d2[k] == done[k]);
            }
        }
    } else {
        assert(tail == Seq::<char>::empty());
        assert(concat_words(done) + tail == concat_words(done));
    }
}

/// Split the tool arguments at runs of white space.
pub fn tool_arguments(args: &str) -> (r: Vec<String>)
    ensures
        views(r@) == split_words(args@),
        concat_words(views(r@)) == without_white_space(args@),
        forall|k: int| 0 <= k < views(r@).len() ==> is_word(#[trigger] views(r@)[k]),
        r@.len() == word_starts(args@),
{
    proof {
        theorem_split_words_partition(args@);
    }
    let n = args.unicode_len();
    let mut done: Vec<String> = Vec::new();
    let mut tail = String::new();
    let mut i: usize = 0;
    while i < n
        invariant
            n == args@.len(),
            i <= n,
            views(done@) == words_with_tail(args@.take(i as int)).0,
            tail@ == words_with_tail(args@.take(i as int)).1,
        decreases n - i,
    {
        let c = args.get_char(i);
        assert(args@.take(i + 1).drop_last() == args@.take(i as int));
        if crate::config::white_space_char(c) {
            if tail.unicode_len() > 0 {
                done.push(tail);
                assert(views(done@) == words_with_tail(args@.take(i + 1)).0);
            }
            tail = String::new();
        } else {
            push_char(&mut tail, c);
        }
        i = i + 1;
    }
    assert(args@.take(n as int) == args@);
    if tail.unicode_len() > 0 {
        done.push(tail);
    }
    done
}

} // verus!
