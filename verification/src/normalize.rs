//! Title normalization: the fallback transforms tried when a title misses in
//! the store. Two named strategies exist because the data was built with
//! slightly different capitalization heuristics: capitalizing every
//! word-initial character, or only the very first character.

use vstd::prelude::*;
use crate::chars::{str_chars, chars_to_string, char_to_upper, upper_char};

verus! {

/// The word-initial capitalization of `s`: a space stays a space, a character
/// right after a space is uppercased, every other character is unchanged.
pub open spec fn spec_titlecase(s: Seq<char>) -> Seq<char> {
    Seq::new(
        s.len(),
        |i: int|
            if s[i] == ' ' {
                ' '
            } else if i > 0 && s[i - 1] == ' ' {
                upper_char(s[i])
            } else {
                s[i]
            },
    )
}

/// `s` with only its first character uppercased.
pub open spec fn spec_capitalize_first(s: Seq<char>) -> Seq<char> {
    if s.len() == 0 {
        s
    } else {
        seq![upper_char(s[0])] + s.drop_first()
    }
}

/// Capitalizes each word-initial character, leaving everything else as it is.
#[verifier::loop_isolation(false)]
pub fn to_titlecase(name: &String) -> (r: String)
    ensures
        r@ == spec_titlecase(name@),
{
    let chars = str_chars(name.as_str());
    let n = chars.len();
    let mut out: Vec<char> = Vec::new();
    let mut capitalise = false;
    let mut i: usize = 0;
    while i < n
        invariant
            i <= n,
            capitalise == (i > 0 && chars@[i - 1] == ' '),
            out@ =~= spec_titlecase(chars@).take(i as int),
        decreases n - i,
    {
        let c = chars[i];
        if c == ' ' {
            capitalise = true;
            out.push(' ');
        } else if capitalise {
            out.push(char_to_upper(c));
            capitalise = false;
        } else {
            out.push(c);
            capitalise = false;
        }
        proof {
            assert(spec_titlecase(chars@).take(i + 1) =~= spec_titlecase(chars@).take(
                i as int,
            ).push(spec_titlecase(chars@)[i as int]));
        }
        i = i + 1;
    }
    proof {
        assert(spec_titlecase(chars@).take(n as int) =~= spec_titlecase(chars@));
    }
    chars_to_string(&out)
}

/// Capitalizes only the first character of the title.
#[verifier::loop_isolation(false)]
pub fn capitalize_first(name: &String) -> (r: String)
    ensures
        r@ == spec_capitalize_first(name@),
{
    let chars = str_chars(name.as_str());
    let n = chars.len();
    let mut out: Vec<char> = Vec::new();
    let mut i: usize = 0;
    while i < n
        invariant
            i <= n,
            out@ =~= spec_capitalize_first(chars@).take(i as int),
        decreases n - i,
    {
        if i == 0 {
            out.push(char_to_upper(chars[0]));
        } else {
            out.push(chars[i]);
        }
        proof {
            assert(spec_capitalize_first(chars@).take(i + 1) =~= spec_capitalize_first(
                chars@,
            ).take(i as int).push(spec_capitalize_first(chars@)[i as int]));
        }
        i = i + 1;
    }
    proof {
        assert(spec_capitalize_first(chars@).take(n as int) =~= spec_capitalize_first(chars@));
    }
    chars_to_string(&out)
}

/// Which normalization transform the engine tries when a title misses.
#[derive(Clone, Copy, PartialEq, Eq, Structural, Debug)]
pub enum NormalizeStrategy {
    /// Capitalize every word-initial character.
    TitleCase,
    /// Capitalize only the first character.
    FirstOnly,
}

/// The transform selected by `strategy`, applied to `s`.
pub open spec fn spec_normalize(strategy: NormalizeStrategy, s: Seq<char>) -> Seq<char> {
    match strategy {
        NormalizeStrategy::TitleCase => spec_titlecase(s),
        NormalizeStrategy::FirstOnly => spec_capitalize_first(s),
    }
}

/// Applies the selected normalization strategy to a title.
pub fn normalize_title(strategy: NormalizeStrategy, name: &String) -> (r: String)
    ensures
        r@ == spec_normalize(strategy, name@),
{
    match strategy {
        NormalizeStrategy::TitleCase => to_titlecase(name),
        NormalizeStrategy::FirstOnly => capitalize_first(name),
    }
}

} // verus!
