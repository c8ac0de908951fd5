//! Character-sequence utilities shared by the text-processing functions:
//! conversion between strings and character vectors, substring search, prefix
//! tests and whitespace trimming, each against a spec-level definition.

use vstd::prelude::*;
use vstd::string::*;

verus! {

/// Names the result of `char::is_whitespace`: whether a character is Unicode
/// whitespace, a property of the character alone.
pub uninterp spec fn is_white(c: char) -> bool;

/// Relies on `char::is_whitespace`: returns whether the character is Unicode
/// whitespace, a function of the character alone.
#[verifier::external_body]
pub fn char_is_whitespace(c: char) -> (r: bool)
    ensures
        r == is_white(c),
{
    c.is_whitespace()
}

/// Names the result of `char::to_uppercase` truncated to its first character:
/// the leading character of the Unicode uppercase mapping.
pub uninterp spec fn upper_char(c: char) -> char;

/// Relies on `char::to_uppercase`: the iterator always yields at least one
/// character, and the mapping depends on the character alone.
#[verifier::external_body]
pub fn char_to_upper(c: char) -> (r: char)
    ensures
        r == upper_char(c),
{
    c.to_uppercase().next().unwrap()
}

/// Relies on `String`'s `FromIterator` implementation: collecting characters
/// yields the string of exactly those characters in order.
#[verifier::external_body]
pub(crate) fn chars_to_string(v: &Vec<char>) -> (s: String)
    ensures
        s@ == v@,
{
    v.iter().collect()
}

/// Copies the characters of a string slice into a vector.
pub fn str_chars(s: &str) -> (v: Vec<char>)
    ensures
        v@ == s@,
{
    let n = s.unicode_len();
    let mut v: Vec<char> = Vec::new();
    let mut i: usize = 0;
    while i < n
        invariant
            i <= n,
            n == s@.len(),
            v@ =~= s@.take(i as int),
        decreases n - i,
    {
        let c = s.get_char(i);
        v.push(c);
        i = i + 1;
    }
    assert(s@.take(n as int) =~= s@);
    v
}

/// The first position at or after `from` where `pat` occurs in `s`.
pub open spec fn first_match_from(s: Seq<char>, pat: Seq<char>, from: int) -> Option<int>
    decreases s.len() - from + 1,
{
    if from < 0 || from + pat.len() > s.len() {
        None
    } else if s.subrange(from, from + pat.len() as int) == pat {
        Some(from)
    } else {
        first_match_from(s, pat, from + 1)
    }
}

/// The first position at or after `from` holding the character `c`.
pub open spec fn first_char_from(s: Seq<char>, c: char, from: int) -> Option<int>
    decreases s.len() - from,
{
    if from < 0 || from >= s.len() {
        None
    } else if s[from] == c {
        Some(from)
    } else {
        first_char_from(s, c, from + 1)
    }
}

/// The first position at or after `from` holding either `c1` or `c2`.
pub open spec fn first_of_two_from(s: Seq<char>, c1: char, c2: char, from: int) -> Option<int>
    decreases s.len() - from,
{
    if from < 0 || from >= s.len() {
        None
    } else if s[from] == c1 || s[from] == c2 {
        Some(from)
    } else {
        first_of_two_from(s, c1, c2, from + 1)
    }
}

/// Whether `p` is a prefix of `s`.
pub open spec fn has_prefix(s: Seq<char>, p: Seq<char>) -> bool {
    p.len() <= s.len() && s.take(p.len() as int) == p
}

/// Substring search: the leftmost occurrence of `pat` in `hay` at or after `from`.
pub fn find_str_from(hay: &Vec<char>, pat: &str, from: usize) -> (r: Option<usize>)
    ensures
        match r {
            Some(i) => first_match_from(hay@, pat@, from as int) == Some(i as int) && from <= i
                && i + pat@.len() <= hay@.len(),
            None => first_match_from(hay@, pat@, from as int) is None,
        },
{
    let m = pat.unicode_len();
    let n = hay.len();
    let mut i = from;
    loop
        invariant
            from <= i,
            m == pat@.len(),
            n == hay@.len(),
            first_match_from(hay@, pat@, from as int) == first_match_from(hay@, pat@, i as int),
        ensures
            m == pat@.len(),
            n == hay@.len(),
            from <= i,
            first_match_from(hay@, pat@, from as int) == first_match_from(hay@, pat@, i as int),
            i + m > n || hay@.subrange(i as int, i + m) =~= pat@,
            i + m > n ==> first_match_from(hay@, pat@, i as int) is None,
        decreases n + 1 - i,
    {
        if i > n || m > n - i {
            assert(first_match_from(hay@, pat@, i as int) is None);
            break;
        }
        let mut j: usize = 0;
        let mut mismatch = false;
        while j < m
            invariant_except_break
                !mismatch,
            invariant
                j <= m,
                i + m <= n,
                m == pat@.len(),
                n == hay@.len(),
                !mismatch ==> hay@.subrange(i as int, i + j) =~= pat@.take(j as int),
                mismatch ==> hay@.subrange(i as int, i + m) != pat@,
            ensures
                mismatch ==> hay@.subrange(i as int, i + m) != pat@,
                !mismatch ==> j == m && hay@.subrange(i as int, i + j) =~= pat@.take(j as int),
            decreases m - j,
        {
            let hc = hay[i + j];
            let pc = pat.get_char(j);
            if hc != pc {
                proof {
                    assert(hay@.subrange(i as int, i + m)[j as int] != pat@[j as int]);
                }
                mismatch = true;
                break;
            }
            proof {
                assert(hay@.subrange(i as int, i + j + 1) =~= hay@.subrange(i as int, i + j).push(
                    hay@[i + j],
                ));
                assert(pat@.take(j + 1) =~= pat@.take(j as int).push(pat@[j as int]));
            }
            j = j + 1;
        }
        if !mismatch {
            assert(hay@.subrange(i as int, i + m) =~= pat@.take(m as int));
            assert(pat@.take(m as int) =~= pat@);
            break;
        }
        i = i + 1;
    }
    if i <= n && m <= n - i {
        Some(i)
    } else {
        None
    }
}

/// The leftmost occurrence of the character `c` in `hay` at or after `from`.
#[verifier::loop_isolation(false)]
pub fn find_char_from(hay: &Vec<char>, c: char, from: usize) -> (r: Option<usize>)
    ensures
        match r {
            Some(i) => first_char_from(hay@, c, from as int) == Some(i as int) && from <= i && i
                < hay@.len(),
            None => first_char_from(hay@, c, from as int) is None,
        },
{
    let n = hay.len();
    let mut i = from;
    while i < n
        invariant
            from <= i,
            first_char_from(hay@, c, from as int) == first_char_from(hay@, c, i as int),
        decreases n - i,
    {
        if hay[i] == c {
            return Some(i);
        }
        i = i + 1;
    }
    None
}

/// The leftmost occurrence of `c1` or `c2` in `hay` at or after `from`.
#[verifier::loop_isolation(false)]
pub fn find_of_two_from(hay: &Vec<char>, c1: char, c2: char, from: usize) -> (r: Option<usize>)
    ensures
        match r {
            Some(i) => first_of_two_from(hay@, c1, c2, from as int) == Some(i as int) && from <= i
                && i < hay@.len(),
            None => first_of_two_from(hay@, c1, c2, from as int) is None,
        },
{
    let n = hay.len();
    let mut i = from;
    while i < n
        invariant
            from <= i,
            first_of_two_from(hay@, c1, c2, from as int) == first_of_two_from(
                hay@,
                c1,
                c2,
                i as int,
            ),
        decreases n - i,
    {
        if hay[i] == c1 || hay[i] == c2 {
            return Some(i);
        }
        i = i + 1;
    }
    None
}

/// Prefix test against a pattern given as a string slice.
#[verifier::loop_isolation(false)]
pub fn begins_with(hay: &Vec<char>, pat: &str) -> (r: bool)
    ensures
        r == has_prefix(hay@, pat@),
{
    let m = pat.unicode_len();
    let n = hay.len();
    if m > n {
        return false;
    }
    let mut j: usize = 0;
    while j < m
        invariant
            j <= m <= n,
            hay@.take(j as int) =~= pat@.take(j as int),
        decreases m - j,
    {
        if hay[j] != pat.get_char(j) {
            proof {
                assert(hay@.take(m as int)[j as int] != pat@[j as int]);
            }
            return false;
        }
        proof {
            assert(hay@.take(j + 1) =~= hay@.take(j as int).push(hay@[j as int]));
            assert(pat@.take(j + 1) =~= pat@.take(j as int).push(pat@[j as int]));
        }
        j = j + 1;
    }
    assert(hay@.take(m as int) =~= pat@.take(m as int));
    assert(pat@.take(m as int) =~= pat@);
    true
}

/// Copies the characters of `v` between `a` and `b` into a fresh vector.
#[verifier::loop_isolation(false)]
pub fn subrange_chars(v: &Vec<char>, a: usize, b: usize) -> (r: Vec<char>)
    requires
        a <= b <= v@.len(),
    ensures
        r@ == v@.subrange(a as int, b as int),
{
    let mut r: Vec<char> = Vec::new();
    let mut i = a;
    while i < b
        invariant
            a <= i <= b,
            r@ =~= v@.subrange(a as int, i as int),
        decreases b - i,
    {
        r.push(v[i]);
        proof {
            assert(v@.subrange(a as int, i + 1) =~= v@.subrange(a as int, i as int).push(
                v@[i as int],
            ));
        }
        i = i + 1;
    }
    r
}

/// `s` with leading whitespace removed.
pub open spec fn ltrim(s: Seq<char>) -> Seq<char>
    decreases s.len(),
{
    if s.len() > 0 && is_white(s[0]) {
        ltrim(s.drop_first())
    } else {
        s
    }
}

/// `s` with trailing whitespace removed.
pub open spec fn rtrim(s: Seq<char>) -> Seq<char>
    decreases s.len(),
{
    if s.len() > 0 && is_white(s.last()) {
        rtrim(s.drop_last())
    } else {
        s
    }
}

/// `s` with whitespace removed from both ends.
pub open spec fn trim_spec(s: Seq<char>) -> Seq<char> {
    rtrim(ltrim(s))
}

/// Removes Unicode whitespace from both ends, as `str::trim` does.
#[verifier::loop_isolation(false)]
pub fn trim_chars(v: &Vec<char>) -> (r: Vec<char>)
    ensures
        r@ == trim_spec(v@),
{
    let n = v.len();
    let mut a: usize = 0;
    proof {
        assert(v@.skip(0) =~= v@);
    }
    while a < n && char_is_whitespace(v[a])
        invariant
            a <= n,
            ltrim(v@) == ltrim(v@.skip(a as int)),
        decreases n - a,
    {
        proof {
            assert(v@.skip(a as int).drop_first() =~= v@.skip(a + 1));
        }
        a = a + 1;
    }
    proof {
        if a < n {
            assert(ltrim(v@.skip(a as int)) == v@.skip(a as int));
        } else {
            assert(v@.skip(a as int) =~= Seq::<char>::empty());
        }
        assert(ltrim(v@) == v@.skip(a as int));
    }
    let mut b: usize = n;
    while b > a && char_is_whitespace(v[b - 1])
        invariant
            a <= b <= n,
            rtrim(v@.skip(a as int)) == rtrim(v@.subrange(a as int, b as int)),
        decreases b,
    {
        proof {
            assert(v@.subrange(a as int, b as int).drop_last() =~= v@.subrange(a as int, b - 1));
        }
        b = b - 1;
    }
    proof {
        if b > a {
            assert(rtrim(v@.subrange(a as int, b as int)) == v@.subrange(a as int, b as int));
        } else {
            assert(v@.subrange(a as int, b as int) =~= Seq::<char>::empty());
        }
    }
    let mut r: Vec<char> = Vec::new();
    let mut i = a;
    while i < b
        invariant
            a <= i <= b <= n,
            r@ =~= v@.subrange(a as int, i as int),
        decreases b - i,
    {
        r.push(v[i]);
        proof {
            assert(v@.subrange(a as int, i + 1) =~= v@.subrange(a as int, i as int).push(v@[i as int]));
        }
        i = i + 1;
    }
    r
}

} // verus!
