//! Configuration read from environment variables: the value of a variable is
//! handed in (`None` when it is not set) and turned into a setting here.

use vstd::prelude::*;
use crate::security::{default_allowed_tools, string_views};
use crate::text::push_char;

verus! {

/// Maximum nesting depth for anchors when none is configured.
pub const DEFAULT_MAX_DEPTH: usize = 5;

/// An ASCII decimal digit.
pub open spec fn is_digit(c: char) -> bool {
    '0' <= c && c <= '9'
}

/// The value of a string of decimal digits.
pub open spec fn digits_value(s: Seq<char>) -> nat
    decreases s.len(),
{
    if s.len() == 0 {
        0
    } else {
        digits_value(s.drop_last()) * 10 + ((s.last() as int - 48) as nat)
    }
}

/// Every character of `d` is an ASCII digit.
pub open spec fn all_digits(d: Seq<char>) -> bool {
    forall|i: int| 0 <= i < d.len() ==> is_digit(#[trigger] d[i])
}

/// The digits of an unsigned number as `str::parse` reads it: `s` without a
/// leading `+` (a lone `+` is kept, and is then no digit).
pub open spec fn unsigned_digits(s: Seq<char>) -> Seq<char> {
    if s.len() > 1 && s[0] == '+' { s.skip(1) } else { s }
}

/// The value that `str::parse` gives an unsigned integer type whose largest
/// value is `max`: an optional `+` followed by one or more ASCII digits whose
/// value is at most `max`; anything else is rejected.
pub open spec fn parsed_unsigned(s: Seq<char>, max: nat) -> Option<nat> {
    let d = unsigned_digits(s);
    if d.len() > 0 && all_digits(d) && digits_value(d) <= max {
        Some(digits_value(d))
    } else {
        None
    }
}

/// A string of digits is worth at least each of its prefixes.
proof fn lemma_digits_prefix(t: Seq<char>, k: int)
    requires
        0 <= k <= t.len(),
        forall|i: int| 0 <= i < t.len() ==> is_digit(#[trigger] t[i]),
    ensures
        digits_value(t.take(k)) <= digits_value(t),
    decreases t.len(),
{
    if k < t.len() {
        let u = t.drop_last();
        assert(u.take(k) == t.take(k));
        assert forall|i: int| 0 <= i < u.len() implies is_digit(#[trigger] u[i]) by {
            assert(u[i] == t[i]);
        }
        lemma_digits_prefix(u, k);
    } else {
        assert(t.take(k) == t);
    }
}

/// Parse an unsigned decimal number no larger than `max`, as `str::parse`
/// does for an unsigned integer type whose largest value is `max`: an
/// optional `+`, then one or more ASCII digits.
fn parse_unsigned(s: &str, max: u64) -> (r: Option<u64>)
    requires
        max >= 9,
    ensures
        match parsed_unsigned(s@, max as nat) {
            Some(v) => r == Some(v as u64),
            None => r is None,
        },
{
    let n = s.unicode_len();
    let start: usize = if n > 1 && s.get_char(0) == '+' { 1 } else { 0 };
    let ghost d = unsigned_digits(s@);
    assert(d == s@.subrange(start as int, n as int));
    if start >= n {
        return None;
    }
    let mut acc: u64 = 0;
    let mut i: usize = start;
    assert(s@.subrange(start as int, i as int) =~= Seq::<char>::empty());
    while i < n
        invariant
            n == s@.len(),
            start <= i <= n,
            max >= 9,
            d == s@.subrange(start as int, n as int),
            d == unsigned_digits(s@),
            forall|k: int| start <= k < i ==> is_digit(#[trigger] s@[k]),
            acc as nat == digits_value(s@.subrange(start as int, i as int)),
            acc <= max,
        decreases n - i,
    {
        let c = s.get_char(i);
        if !('0' <= c && c <= '9') {
            assert(d[i - start] == s@[i as int]);
            assert(!is_digit(d[i - start]));
            assert(!all_digits(d));
            return None;
        }
        let dv: u64 = (c as u32 - 48) as u64;
        let ghost pre = s@.subrange(start as int, i as int);
        let ghost next = s@.subrange(start as int, i + 1);
        assert(next.drop_last() == pre);
        assert(digits_value(next) == digits_value(pre) * 10 + dv);
        if acc > (max - dv) / 10 {
            assert(acc * 10 + dv > max) by (nonlinear_arith)
                requires acc > (max - dv) / 10, dv <= 9, max >= 9;
            proof {
                if all_digits(d) {
                    assert(next =~= d.take(i + 1 - start));
                    lemma_digits_prefix(d, i + 1 - start);
                    assert(digits_value(d) > max);
                }
            }
            return None;
        }
        assert(acc * 10 + dv <= max) by (nonlinear_arith)
            requires acc <= (max - dv) / 10, dv <= 9, max >= 9;
        acc = acc * 10 + dv;
        i = i + 1;
    }
    assert(s@.subrange(start as int, n as int) == d);
    assert forall|k: int| 0 <= k < d.len() implies is_digit(#[trigger] d[k]) by {
        assert(d[k] == s@[start + k]);
    }
    assert(all_digits(d));
    Some(acc)
}

/// Parse a `usize` as `str::parse::<usize>` does.
fn parse_usize(s: &str) -> (r: Option<usize>)
    ensures
        match parsed_unsigned(s@, usize::MAX as nat) {
            Some(v) => r == Some(v as usize),
            None => r is None,
        },
{
    match parse_unsigned(s, usize::MAX as u64) {
        Some(v) => Some(v as usize),
        None => None,
    }
}

/// Parse a `u64` as `str::parse::<u64>` does.
fn parse_u64(s: &str) -> (r: Option<u64>)
    ensures
        match parsed_unsigned(s@, u64::MAX as nat) {
            Some(v) => r == Some(v as u64),
            None => r is None,
        },
{
    parse_unsigned(s, u64::MAX)
}

/// `v` clamped to `lo..=hi`.
pub open spec fn clamp(v: int, lo: int, hi: int) -> int {
    if v < lo { lo } else if v > hi { hi } else { v }
}

/// The configured value of a numeric setting: the parsed value clamped to
/// `lo..=hi`, or `default` when the variable is unset or does not parse.
pub open spec fn numeric_setting(value: Option<Seq<char>>, max: nat, lo: int, hi: int, default: int) -> int {
    match value {
        Some(v) => match parsed_unsigned(v, max) {
            Some(n) => clamp(n as int, lo, hi),
            None => default,
        },
        None => default,
    }
}

/// Maximum nesting depth from the value of `ANCHORSCOPE_MAX_DEPTH`: clamped
/// to 1..=100; the default when unset or invalid.
pub fn max_depth(value: Option<&str>) -> (r: usize)
    ensures
        r == numeric_setting(match value { Some(v) => Some(v@), None => None }, usize::MAX as nat, 1, 100, DEFAULT_MAX_DEPTH as int),
{
    if let Some(val) = value {
        if let Some(depth) = parse_usize(val) {
            return if depth < 1 { 1 } else if depth > 100 { 100 } else { depth };
        }
    }
    DEFAULT_MAX_DEPTH
}

/// Maximum file size from the value of `ANCHORSCOPE_MAX_FILE_SIZE`: clamped
/// to 1 byte..=1GB; 100MB when unset or invalid.
pub fn max_file_size(value: Option<&str>) -> (r: u64)
    ensures
        r == numeric_setting(match value { Some(v) => Some(v@), None => None }, u64::MAX as nat, 1, 1073741824, 104857600),
{
    if let Some(val) = value {
        if let Some(size) = parse_u64(val) {
            return if size < 1 { 1 } else if size > 1073741824 { 1073741824 } else { size };
        }
    }
    104857600
}

/// Maximum nesting depth from the value of `ANCHORSCOPE_MAX_NESTING_DEPTH`:
/// clamped to 1..=1000; 100 when unset or invalid.
pub fn max_nesting_depth(value: Option<&str>) -> (r: usize)
    ensures
        r == numeric_setting(match value { Some(v) => Some(v@), None => None }, usize::MAX as nat, 1, 1000, 100),
{
    if let Some(val) = value {
        if let Some(depth) = parse_usize(val) {
            return if depth < 1 { 1 } else if depth > 1000 { 1000 } else { depth };
        }
    }
    100
}

/// A white-space character (the Unicode `White_Space` property, which
/// `char::is_whitespace` follows).
pub open spec fn is_white_space(c: char) -> bool {
    let u = c as u32;
    (0x09 <= u && u <= 0x0D) || u == 0x20 || u == 0x85 || u == 0xA0 || u == 0x1680
        || (0x2000 <= u && u <= 0x200A) || u == 0x2028 || u == 0x2029 || u == 0x202F
        || u == 0x205F || u == 0x3000
}

pub fn white_space_char(c: char) -> (r: bool)
    ensures
        r == is_white_space(c),
{
    let u = c as u32;
    (0x09 <= u && u <= 0x0D) || u == 0x20 || u == 0x85 || u == 0xA0 || u == 0x1680
        || (0x2000 <= u && u <= 0x200A) || u == 0x2028 || u == 0x2029 || u == 0x202F
        || u == 0x205F || u == 0x3000
}

/// The pieces of `s` between occurrences of `sep` (one more piece than
/// there are separators).
pub open spec fn split_on(s: Seq<char>, sep: char) -> Seq<Seq<char>>
    decreases s.len(),
{
    if s.len() == 0 {
        seq![Seq::empty()]
    } else {
        let rest = split_on(s.drop_last(), sep);
        if s.last() == sep {
            rest.push(Seq::empty())
        } else {
            rest.update(rest.len() - 1, rest.last().push(s.last()))
        }
    }
}

/// `s` without leading and trailing white space.
pub open spec fn trim(s: Seq<char>) -> Seq<char>
    decreases s.len(),
{
    if s.len() == 0 {
        s
    } else if is_white_space(s[0]) {
        trim(s.skip(1))
    } else if is_white_space(s.last()) {
        trim(s.drop_last())
    } else {
        s
    }
}

/// The trimmed pieces that are not empty, in order.
pub open spec fn nonempty_trimmed(pieces: Seq<Seq<char>>) -> Seq<Seq<char>>
    decreases pieces.len(),
{
    if pieces.len() == 0 {
        Seq::empty()
    } else {
        let rest = nonempty_trimmed(pieces.drop_last());
        if trim(pieces.last()).len() > 0 {
            rest.push(trim(pieces.last()))
        } else {
            rest
        }
    }
}

proof fn lemma_split_nonempty(s: Seq<char>, sep: char)
    ensures
        split_on(s, sep).len() >= 1,
    decreases s.len(),
{
    if s.len() > 0 {
        lemma_split_nonempty(s.drop_last(), sep);
    }
}

fn trimmed(s: &Vec<char>) -> (r: String)
    ensures
        r@ == trim(s@),
{
    let n = s.len();
    let mut lo: usize = 0;
    let mut hi: usize = n;
    assert(s@.subrange(0, n as int) == s@);
    while lo < hi && (white_space_char(s[lo]) || white_space_char(s[hi - 1]))
        invariant
            lo <= hi <= n == s@.len(),
            trim(s@) == trim(s@.subrange(lo as int, hi as int)),
        decreases hi - lo,
    {
        let ghost t = s@.subrange(lo as int, hi as int);
        if white_space_char(s[lo]) {
            assert(t.skip(1) == s@.subrange(lo + 1, hi as int));
            lo = lo + 1;
        } else {
            assert(t.drop_last() == s@.subrange(lo as int, hi - 1));
            hi = hi - 1;
        }
    }
    let mut r = String::new();
    let mut k: usize = lo;
    while k < hi
        invariant
            lo <= k <= hi <= n == s@.len(),
            r@ == s@.subrange(lo as int, k as int),
        decreases hi - k,
    {
        push_char(&mut r, s[k]);
        assert(s@.subrange(lo as int, k + 1) == s@.subrange(lo as int, k as int).push(s@[k as int]));
        k = k + 1;
    }
    r
}

/// The tools listed in `value`: its comma-separated items, trimmed, empty
/// ones dropped.
pub open spec fn configured_tools(value: Seq<char>) -> Seq<Seq<char>> {
    nonempty_trimmed(split_on(value, ','))
}

/// Allowed tools for the pipe command from the value of
/// `ANCHORSCOPE_ALLOWED_TOOLS` (comma-separated), or the default list when it
/// is unset.
pub fn allowed_tools(value: Option<&str>) -> (r: Vec<String>)
    ensures
        string_views(r@) == match value {
            Some(v) => configured_tools(v@),
            None => seq!["sed"@, "awk"@, "perl"@, "python3"@, "node"@],
        },
{
    let val = match value {
        Some(v) => v,
        None => return default_allowed_tools(),
    };
    let n = val.unicode_len();
    let mut tools: Vec<String> = Vec::new();
    let mut current: Vec<char> = Vec::new();
    let mut i: usize = 0;
    while i < n
        invariant
            n == val@.len(),
            i <= n,
            split_on(val@.take(i as int), ',').len() >= 1,
            split_on(val@.take(i as int), ',').last() == current@,
            string_views(tools@) == nonempty_trimmed(split_on(val@.take(i as int), ',').drop_last()),
        decreases n - i,
    {
        let c = val.get_char(i);
        let ghost before = split_on(val@.take(i as int), ',');
        assert(val@.take(i + 1).drop_last() == val@.take(i as int));
        proof {
            lemma_split_nonempty(val@.take(i + 1), ',');
        }
        if c == ',' {
            let piece = trimmed(&current);
            assert(split_on(val@.take(i + 1), ',').drop_last() == before);
            if piece.unicode_len() > 0 {
                tools.push(piece);
                assert(string_views(tools@) == nonempty_trimmed(before));
            } else {
                assert(string_views(tools@) == nonempty_trimmed(before));
            }
            current = Vec::new();
        } else {
            current.push(c);
            assert(split_on(val@.take(i + 1), ',').drop_last() == before.drop_last());
        }
        i = i + 1;
    }
    assert(val@.take(n as int) == val@);
    let piece = trimmed(&current);
    if piece.unicode_len() > 0 {
        tools.push(piece);
    }
    assert(string_views(tools@) == nonempty_trimmed(split_on(val@, ',')));
    tools
}

} // verus!
