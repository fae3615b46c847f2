//! The buffer tree listing: the alias shown for each True ID and the line
//! drawn for each entry of the tree.

use vstd::prelude::*;
use crate::label::{alias_name, without_json_suffixes};

verus! {

/// The alias shown for `true_id`, given the label files as (file name, True
/// ID named) pairs in the order they are listed: the name of the first label
/// naming it, without its `.json` extensions, else the True ID itself.
pub open spec fn alias_of(true_id: Seq<char>, labels: Seq<(Seq<char>, Seq<char>)>) -> Seq<char>
    decreases labels.len(),
{
    if labels.len() == 0 {
        true_id
    } else if labels[0].1 == true_id {
        without_json_suffixes(labels[0].0)
    } else {
        alias_of(true_id, labels.skip(1))
    }
}

/// The views of a list of label files.
pub open spec fn label_views(labels: Seq<(String, String)>) -> Seq<(Seq<char>, Seq<char>)> {
    labels.map_values(|l: (String, String)| (l.0@, l.1@))
}

/// The alias shown for `true_id` among the label files `labels`, each a file
/// name and the True ID it names.
pub fn alias_for_true_id(true_id: &str, labels: &Vec<(String, String)>) -> (r: String)
    ensures
        r@ == alias_of(true_id@, label_views(labels@)),
{
    let ghost all = label_views(labels@);
    assert(all.skip(0) == all);
    let mut i: usize = 0;
    while i < labels.len()
        invariant
            i <= labels@.len(),
            all == label_views(labels@),
            alias_of(true_id@, all) == alias_of(true_id@, all.skip(i as int)),
        decreases labels@.len() - i,
    {
        let ghost rest = all.skip(i as int);
        assert(rest[0] == (labels@[i as int].0@, labels@[i as int].1@));
        let wanted = String::from_str(true_id);
        if labels[i].1 == wanted {
            return alias_name(labels[i].0.as_str());
        }
        assert(rest.skip(1) == all.skip(i + 1));
        i = i + 1;
    }
    assert(all.skip(i as int).len() == 0);
    String::from_str(true_id)
}

/// The lead of a tree line below ancestors of which `ancestors_last` tells,
/// outermost first, whether each was the last of its siblings.
pub open spec fn tree_indent(ancestors_last: Seq<bool>) -> Seq<char>
    decreases ancestors_last.len(),
{
    if ancestors_last.len() == 0 {
        Seq::empty()
    } else {
        tree_indent(ancestors_last.drop_last()) + if ancestors_last.last() {
            "    "@
        } else {
            "│   "@
        }
    }
}

/// The branch drawn before an entry: the last of its siblings closes the branch.
pub open spec fn tree_branch(is_last: bool) -> Seq<char> {
    if is_last {
        "└── "@
    } else {
        "├── "@
    }
}

/// The line of a tree entry named `name` with alias `alias`.
pub open spec fn tree_line_text(ancestors_last: Seq<bool>, is_last: bool, name: Seq<char>, alias: Seq<char>) -> Seq<char> {
    tree_indent(ancestors_last) + tree_branch(is_last) + name + "  ["@ + alias + "]"@
}

/// The column drawn below an ancestor: blank below the last of its
/// siblings, a vertical bar otherwise.
pub open spec fn tree_column(ancestor_last: bool) -> Seq<char> {
    if ancestor_last {
        "    "@
    } else {
        "│   "@
    }
}

/// The indentation of a tree line has one 4-character column per ancestor,
/// outermost first, each drawn for that ancestor alone.
pub proof fn theorem_tree_indent_columns(s: Seq<bool>)
    ensures
        tree_indent(s).len() == 4 * s.len(),
        forall|i: int| 0 <= i < s.len() ==> tree_indent(s).subrange(4 * i, 4 * i + 4) == tree_column(#[trigger] s[i]),
    decreases s.len(),
{
    reveal_strlit("    ");
    reveal_strlit("│   ");
    if s.len() > 0 {
        let p = s.drop_last();
        theorem_tree_indent_columns(p);
        let ind = tree_indent(s);
        assert(ind == tree_indent(p) + tree_column(s.last()));
        assert forall|i: int| 0 <= i < s.len() implies ind.subrange(4 * i, 4 * i + 4) == tree_column(#[trigger] s[i]) by {
            if i < p.len() {
                assert(p[i] == s[i]);
                assert(ind.subrange(4 * i, 4 * i + 4) =~= tree_indent(p).subrange(4 * i, 4 * i + 4));
            } else {
                assert(ind.subrange(4 * i, 4 * i + 4) =~= tree_column(s.last()));
            }
        }
    }
}

/// A tree line is its indentation, then its branch, then the entry's name,
/// two spaces and its alias in brackets; the indentation has one column per
/// ancestor and the branch is a closing corner exactly for the last sibling.
pub proof fn theorem_tree_line_layout(ancestors_last: Seq<bool>, is_last: bool, name: Seq<char>, alias: Seq<char>)
    ensures
        ({
            let t = tree_line_text(ancestors_last, is_last, name, alias);
            let n: int = 4 * ancestors_last.len() as int;
            &&& t.len() == n + 4 + name.len() + 3 + alias.len() + 1
            &&& forall|i: int| 0 <= i < ancestors_last.len()
                ==> t.subrange(4 * i, 4 * i + 4) == tree_column(#[trigger] ancestors_last[i])
            &&& t.subrange(n, n + 4) == (if is_last { "└── "@ } else { "├── "@ })
            &&& t.subrange(n + 4, n + 4 + name.len() as int) == name
            &&& t.subrange(n + 4 + name.len() as int, n + 4 + name.len() + 3) == "  ["@
            &&& t.subrange(n + 7 + name.len() as int, n + 7 + name.len() + alias.len()) == alias
            &&& t.last() == ']'
        }),
{
    theorem_tree_indent_columns(ancestors_last);
    reveal_strlit("└── ");
    reveal_strlit("├── ");
    reveal_strlit("  [");
    reveal_strlit("]");
    let ind = tree_indent(ancestors_last);
    let t = tree_line_text(ancestors_last, is_last, name, alias);
    let n: int = 4 * ancestors_last.len() as int;
    assert forall|i: int| 0 <= i < ancestors_last.len()
        implies t.subrange(4 * i, 4 * i + 4) == tree_column(#[trigger] ancestors_last[i]) by {
        assert(t.subrange(4 * i, 4 * i + 4) =~= ind.subrange(4 * i, 4 * i + 4));
    }
    assert(t.subrange(n, n + 4) =~= tree_branch(is_last));
    assert(t.subrange(n + 4, n + 4 + name.len() as int) =~= name);
    assert(t.subrange(n + 4 + name.len() as int, n + 4 + name.len() + 3) =~= "  ["@);
    assert(t.subrange(n + 7 + name.len() as int, n + 7 + name.len() + alias.len()) =~= alias);
}

/// Draw the line of a tree entry: the indentation its ancestors call for,
/// its branch, its name and its alias.
pub fn tree_line(ancestors_last: &[bool], is_last: bool, name: &str, alias: &str) -> (r: String)
    ensures
        r@ == tree_line_text(ancestors_last@, is_last, name@, alias@),
        r@.len() == 4 * ancestors_last@.len() + 4 + name@.len() + 3 + alias@.len() + 1,
        forall|i: int| 0 <= i < ancestors_last@.len()
            ==> r@.subrange(4 * i, 4 * i + 4) == tree_column(#[trigger] ancestors_last@[i]),
{
    proof {
        theorem_tree_line_layout(ancestors_last@, is_last, name@, alias@);
    }
    let mut r = String::new();
    let mut i: usize = 0;
    while i < ancestors_last.len()
        invariant
            i <= ancestors_last@.len(),
            r@ == tree_indent(ancestors_last@.take(i as int)),
        decreases ancestors_last@.len() - i,
    {
        let ghost before = r@;
        if ancestors_last[i] {
            r.append("    ");
        } else {
            r.append("│   ");
        }
        assert(ancestors_last@.take(i + 1).drop_last() == ancestors_last@.take(i as int));
        i = i + 1;
    }
    assert(ancestors_last@.take(i as int) == ancestors_last@);
    if is_last {
        r.append("└── ");
    } else {
        r.append("├── ");
    }
    r.append(name);
    r.append("  [");
    r.append(alias);
    r.append("]");
    r
}

} // verus!
