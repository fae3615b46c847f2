//! Scope hashing: XXH3-64 of the bytes, written as 16 lowercase hex digits.

use vstd::prelude::*;
use crate::text::push_char;

verus! {

/// The XXH3 64-bit digest (seed 0, default secret) of `data`.
pub uninterp spec fn xxh3_64_digest(data: Seq<u8>) -> u64;

/// Calls `xxhash_rust::xxh3::xxh3_64`, the one-shot XXH3 64-bit hash with seed 0.
/// The contract claims only that the result is that digest of the input bytes,
/// i.e. that equal byte sequences hash equally; nothing is stated about its value.
#[verifier::external_body]
fn xxh3_64(data: &[u8]) -> (h: u64)
    ensures
        h == xxh3_64_digest(data@),
{
    xxhash_rust::xxh3::xxh3_64(data)
}

/// The lowercase hex digit for `d` (`d < 16`).
pub open spec fn hex_char(d: int) -> char {
    if d < 10 {
        (48 + d) as char
    } else {
        (87 + d) as char
    }
}

/// The last `n` hex digits of `v`, most significant first.
pub open spec fn hex_digits(v: nat, n: nat) -> Seq<char>
    decreases n,
{
    if n == 0 {
        Seq::empty()
    } else {
        hex_digits(v / 16, (n - 1) as nat).push(hex_char((v % 16) as int))
    }
}

/// `h` as 16 lowercase hex digits, zero-padded.
pub open spec fn hex16(h: u64) -> Seq<char> {
    hex_digits(h as nat, 16)
}

/// A lowercase hex digit.
pub open spec fn is_lower_hex(c: char) -> bool {
    ('0' <= c && c <= '9') || ('a' <= c && c <= 'f')
}

/// `hex_digits` has `n` digits, all lowercase hex.
pub proof fn lemma_hex_digits_shape(v: nat, n: nat)
    ensures
        hex_digits(v, n).len() == n,
        forall|i: int| 0 <= i < n ==> is_lower_hex(#[trigger] hex_digits(v, n)[i]),
    decreases n,
{
    if n > 0 {
        lemma_hex_digits_shape(v / 16, (n - 1) as nat);
    }
}

fn hex_digit(d: u64) -> (c: char)
    requires
        d < 16,
    ensures
        c == hex_char(d as int),
{
    if d < 10 {
        ((48 + d) as u8) as char
    } else {
        ((87 + d) as u8) as char
    }
}

fn hex_digits_exec(v: u64, n: usize) -> (s: String)
    ensures
        s@ == hex_digits(v as nat, n as nat),
    decreases n,
{
    if n == 0 {
        String::new()
    } else {
        let mut s = hex_digits_exec(v / 16, n - 1);
        push_char(&mut s, hex_digit(v % 16));
        s
    }
}

/// Formats `h` as 16 lowercase hex digits (zero-padded).
pub fn to_hex(h: u64) -> (s: String)
    ensures
        s@ == hex16(h),
        s@.len() == 16,
        forall|i: int| 0 <= i < 16 ==> is_lower_hex(#[trigger] s@[i]),
{
    proof {
        lemma_hex_digits_shape(h as nat, 16);
    }
    hex_digits_exec(h, 16)
}

/// Computes the XXH3-64 hash of `bytes` as a lowercase 16-character hex string.
/// Deterministic: same bytes, same output.
pub fn compute(bytes: &[u8]) -> (s: String)
    ensures
        s@ == hex16(xxh3_64_digest(bytes@)),
{
    let h = xxh3_64(bytes);
    to_hex(h)
}

} // verus!
