//! Verified text utilities: substring search and string equality.
//!
//! The pattern detectors decide matches by the textual presence of small
//! markers in a file's source, so the substring test is the one primitive
//! they all share.

use vstd::prelude::*;
use vstd::string::StringSliceAdditionalSpecFns;

verus! {

/// `needle` occurs in `hay` starting at position `i`.
pub open spec fn contains_at(hay: Seq<u8>, needle: Seq<u8>, i: int) -> bool {
    &&& 0 <= i
    &&& i + needle.len() <= hay.len()
    &&& hay.subrange(i, i + needle.len() as int) == needle
}

/// `needle` occurs somewhere in `hay`.
pub open spec fn contains_seq(hay: Seq<u8>, needle: Seq<u8>) -> bool {
    exists|i: int| contains_at(hay, needle, i)
}

/// `needle` occurs in the UTF-8 bytes of the string slice `hay`.
pub open spec fn str_contains(hay: &str, needle: &str) -> bool {
    contains_seq(hay.spec_bytes(), needle.spec_bytes())
}

fn matches_at(hay: &[u8], needle: &[u8], i: usize) -> (r: bool)
    requires
        i + needle@.len() <= hay@.len(),
    ensures
        r == contains_at(hay@, needle@, i as int),
{
    let n = hay.len();
    let m = needle.len();
    for j in 0..m
        invariant
            n == hay@.len(),
            m == needle@.len(),
            i + m <= n,
            forall|k: int| 0 <= k < j ==> hay@[i + k] == needle@[k],
    {
        if hay[i + j] != needle[j] {
            assert(hay@.subrange(i as int, i + needle@.len() as int)[j as int] == hay@[i + j]);
            return false;
        }
    }
    assert(hay@.subrange(i as int, i + needle@.len() as int) =~= needle@);
    true
}

/// Whether `needle` occurs as a contiguous run of bytes inside `hay`.
pub fn contains_bytes(hay: &[u8], needle: &[u8]) -> (r: bool)
    ensures
        r == contains_seq(hay@, needle@),
{
    let n = hay.len();
    let m = needle.len();
    if m > n {
        assert(forall|i: int| !contains_at(hay@, needle@, i));
        return false;
    }
    if m == 0 {
        assert(hay@.subrange(0, 0) =~= needle@);
        assert(contains_at(hay@, needle@, 0));
        return true;
    }
    for i in 0..(n - m) + 1
        invariant
            n == hay@.len(),
            m == needle@.len(),
            m <= n,
            forall|k: int| 0 <= k < i ==> !contains_at(hay@, needle@, k),
    {
        if matches_at(hay, needle, i) {
            return true;
        }
    }
    assert forall|k: int| !contains_at(hay@, needle@, k) by {
        if 0 <= k <= n - m {
            assert(!contains_at(hay@, needle@, k));
        }
    }
    false
}

/// Whether the marker `needle` occurs in the source text `hay`.
pub fn contains_str(hay: &str, needle: &str) -> (r: bool)
    ensures
        r == str_contains(hay, needle),
{
    contains_bytes(hay.as_bytes(), needle.as_bytes())
}

/// `p` is a prefix of `s`.
pub open spec fn spec_starts_with(s: Seq<char>, p: Seq<char>) -> bool {
    p.len() <= s.len() && s.subrange(0, p.len() as int) == p
}

/// Whether `s` starts with `prefix`, stated over the character sequences.
pub fn str_starts_with(s: &str, prefix: &str) -> (r: bool)
    ensures
        r == spec_starts_with(s@, prefix@),
{
    let n = s.unicode_len();
    let m = prefix.unicode_len();
    if m > n {
        return false;
    }
    for j in 0..m
        invariant
            n == s@.len(),
            m == prefix@.len(),
            m <= n,
            forall|k: int| 0 <= k < j ==> s@[k] == prefix@[k],
    {
        if s.get_char(j) != prefix.get_char(j) {
            assert(s@.subrange(0, prefix@.len() as int)[j as int] == s@[j as int]);
            return false;
        }
    }
    assert(s@.subrange(0, prefix@.len() as int) =~= prefix@);
    true
}

/// String-slice equality, stated over the character sequences.
pub fn str_eq(a: &str, b: &str) -> (r: bool)
    ensures
        r == (a@ == b@),
{
    let sa: String = a.to_owned();
    let sb: String = b.to_owned();
    sa == sb
}

} // verus!
