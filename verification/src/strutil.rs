//! Character-level string utilities: conversion between `String` and
//! `Vec<char>`, searching, trimming, and case-insensitive lexicographic
//! comparison.

use vstd::prelude::*;
use vstd::string::*;
use core::cmp::Ordering;

verus! {

/// What `str::to_lowercase` returns for a given character sequence; the
/// result depends on the characters alone.
pub uninterp spec fn lower_of(s: Seq<char>) -> Seq<char>;

/// Relies on `str::to_lowercase`: returns the lowercase equivalent of the
/// string, a function of its characters alone.
#[verifier::external_body]
pub(crate) fn to_lowercase(s: &str) -> (r: String)
    ensures
        r@ == lower_of(s@),
{
    s.to_lowercase()
}

/// Relies on `String::push`: appends exactly the given character.
#[verifier::external_body]
pub(crate) fn push_char(s: &mut String, c: char)
    ensures
        final(s)@ == old(s)@.push(c),
{
    s.push(c)
}

/// The characters of a string slice, as a vector.
pub fn chars_of(s: &str) -> (v: Vec<char>)
    ensures
        v@ == s@,
{
    let n = s.unicode_len();
    let mut v: Vec<char> = Vec::new();
    let mut i: usize = 0;
    while i < n
        invariant
            i <= n,
            n == s@.len(),
            v@ == s@.subrange(0, i as int),
        decreases n - i,
    {
        let c = s.get_char(i);
        v.push(c);
        proof {
            assert(v@ =~= s@.subrange(0, i + 1 as int));
        }
        i = i + 1;
    }
    proof {
        assert(v@ =~= s@);
    }
    v
}

/// A `String` holding exactly the given characters.
pub fn chars_to_string(v: &Vec<char>) -> (s: String)
    ensures
        s@ == v@,
{
    let mut s = String::new();
    let mut i: usize = 0;
    while i < v.len()
        invariant
            i <= v.len(),
            s@ == v@.subrange(0, i as int),
        decreases v.len() - i,
    {
        push_char(&mut s, v[i]);
        proof {
            assert(s@ =~= v@.subrange(0, i + 1 as int));
        }
        i = i + 1;
    }
    proof {
        assert(s@ =~= v@);
    }
    s
}

/// The copy of `v` between the indices `a` (inclusive) and `b` (exclusive).
pub fn subvec(v: &Vec<char>, a: usize, b: usize) -> (r: Vec<char>)
    requires
        a <= b <= v.len(),
    ensures
        r@ == v@.subrange(a as int, b as int),
{
    let mut r: Vec<char> = Vec::new();
    let mut i: usize = a;
    while i < b
        invariant
            a <= i <= b <= v.len(),
            r@ == v@.subrange(a as int, i as int),
        decreases b - i,
    {
        r.push(v[i]);
        proof {
            assert(r@ =~= v@.subrange(a as int, i + 1 as int));
        }
        i = i + 1;
    }
    r
}

/// The index of the first occurrence of `c` in `s` at or after `i`, or
/// `s.len()` if there is none.
pub open spec fn find_char_from(s: Seq<char>, c: char, i: int) -> int
    decreases s.len() - i,
        when 0 <= i
{
    if i >= s.len() {
        s.len() as int
    } else if s[i] == c {
        i
    } else {
        find_char_from(s, c, i + 1)
    }
}

pub proof fn lemma_find_char_from(s: Seq<char>, c: char, i: int)
    requires
        0 <= i <= s.len(),
    ensures
        i <= find_char_from(s, c, i) <= s.len(),
        find_char_from(s, c, i) < s.len() ==> s[find_char_from(s, c, i)] == c,
        forall|j: int| i <= j < find_char_from(s, c, i) ==> s[j] != c,
    decreases s.len() - i,
{
    if i < s.len() && s[i] != c {
        lemma_find_char_from(s, c, i + 1);
    }
}

/// The index of the first occurrence of `c` in `v` at or after `from`, or
/// `v.len()` if there is none.
pub fn find_char(v: &Vec<char>, c: char, from: usize) -> (r: usize)
    requires
        from <= v.len(),
    ensures
        r == find_char_from(v@, c, from as int),
{
    let mut i: usize = from;
    while i < v.len()
        invariant
            from <= i <= v.len(),
            find_char_from(v@, c, from as int) == find_char_from(v@, c, i as int),
        decreases v.len() - i,
    {
        if v[i] == c {
            return i;
        }
        i = i + 1;
    }
    i
}

/// The first index at or after `i` whose character is not a space, or
/// `s.len()` if all remaining characters are spaces.
pub open spec fn trim_start_idx(s: Seq<char>, i: int) -> int
    decreases s.len() - i,
        when 0 <= i
{
    if i >= s.len() {
        s.len() as int
    } else if s[i] == ' ' {
        trim_start_idx(s, i + 1)
    } else {
        i
    }
}

/// The index just after the last non-space character strictly before `j`,
/// or `0` if all of them are spaces.
pub open spec fn trim_end_idx(s: Seq<char>, j: int) -> int
    decreases j,
        when j >= 0
{
    if j <= 0 {
        0
    } else if s[j - 1] == ' ' {
        trim_end_idx(s, j - 1)
    } else {
        j
    }
}

/// `s` with leading and trailing spaces removed.
pub open spec fn trim_spec(s: Seq<char>) -> Seq<char> {
    let a = trim_start_idx(s, 0);
    let b = trim_end_idx(s, s.len() as int);
    if a <= b {
        s.subrange(a, b)
    } else {
        Seq::empty()
    }
}

proof fn lemma_trim_end_idx(s: Seq<char>, j: int)
    requires
        0 <= j <= s.len(),
    ensures
        0 <= trim_end_idx(s, j) <= j,
    decreases j,
{
    if j > 0 && s[j - 1] == ' ' {
        lemma_trim_end_idx(s, j - 1);
    }
}

/// The copy of `v` with leading and trailing spaces removed.
pub fn trim(v: &Vec<char>) -> (r: Vec<char>)
    ensures
        r@ == trim_spec(v@),
{
    let mut a: usize = 0;
    while a < v.len() && v[a] == ' '
        invariant
            a <= v.len(),
            trim_start_idx(v@, 0) == trim_start_idx(v@, a as int),
        decreases v.len() - a,
    {
        a = a + 1;
    }
    let mut b: usize = v.len();
    while b > a && v[b - 1] == ' '
        invariant
            a <= b <= v.len(),
            trim_start_idx(v@, 0) == a as int,
            trim_end_idx(v@, v.len() as int) == trim_end_idx(v@, b as int),
        decreases b,
    {
        b = b - 1;
    }
    proof {
        if b == a {
            lemma_trim_end_idx(v@, a as int);
        }
    }
    subvec(v, a, b)
}

/// Lexicographic comparison of the character sequences `x` and `y` from
/// index `i` on, by code point.
pub open spec fn lex_cmp_from(x: Seq<char>, y: Seq<char>, i: int) -> Ordering
    decreases x.len() - i,
        when 0 <= i
{
    if i >= x.len() && i >= y.len() {
        Ordering::Equal
    } else if i >= x.len() {
        Ordering::Less
    } else if i >= y.len() {
        Ordering::Greater
    } else if (x[i] as u32) < (y[i] as u32) {
        Ordering::Less
    } else if (y[i] as u32) < (x[i] as u32) {
        Ordering::Greater
    } else {
        lex_cmp_from(x, y, i + 1)
    }
}

/// Lexicographic comparison of two character sequences, by code point.
pub open spec fn lex_cmp(x: Seq<char>, y: Seq<char>) -> Ordering {
    lex_cmp_from(x, y, 0)
}

/// Comparison in the other direction reverses the answer.
pub proof fn lemma_lex_cmp_antisym(x: Seq<char>, y: Seq<char>, i: int)
    requires
        0 <= i,
    ensures
        lex_cmp_from(x, y, i) == Ordering::Less <==> lex_cmp_from(y, x, i) == Ordering::Greater,
        lex_cmp_from(x, y, i) == Ordering::Equal <==> lex_cmp_from(y, x, i) == Ordering::Equal,
    decreases x.len() + y.len() - i,
{
    if i < x.len() && i < y.len() && (x[i] as u32) == (y[i] as u32) {
        lemma_lex_cmp_antisym(x, y, i + 1);
    }
}

/// The non-strict lexicographic order is transitive.
pub proof fn lemma_lex_le_trans(x: Seq<char>, y: Seq<char>, z: Seq<char>, i: int)
    requires
        0 <= i,
        lex_cmp_from(x, y, i) != Ordering::Greater,
        lex_cmp_from(y, z, i) != Ordering::Greater,
    ensures
        lex_cmp_from(x, z, i) != Ordering::Greater,
    decreases x.len() + y.len() + z.len() - i,
{
    if i < x.len() && i < y.len() && i < z.len() && (x[i] as u32) == (y[i] as u32) && (y[i] as u32)
        == (z[i] as u32) {
        lemma_lex_le_trans(x, y, z, i + 1);
    }
}

/// Lexicographic comparison of two character vectors, by code point.
pub fn lex_cmp_vec(x: &Vec<char>, y: &Vec<char>) -> (r: Ordering)
    ensures
        r == lex_cmp(x@, y@),
{
    let mut i: usize = 0;
    loop
        invariant
            i <= x.len(),
            i <= y.len(),
            lex_cmp(x@, y@) == lex_cmp_from(x@, y@, i as int),
        decreases x.len() - i,
    {
        if i >= x.len() && i >= y.len() {
            return Ordering::Equal;
        } else if i >= x.len() {
            return Ordering::Less;
        } else if i >= y.len() {
            return Ordering::Greater;
        } else {
            let cx = x[i] as u32;
            let cy = y[i] as u32;
            if cx < cy {
                return Ordering::Less;
            } else if cy < cx {
                return Ordering::Greater;
            }
        }
        i = i + 1;
    }
}

} // verus!
