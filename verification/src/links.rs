//! The stored form of a non-redirect entry's payload: outbound link titles
//! joined by the reserved delimiter `<|>`, which is guaranteed never to occur
//! inside a title.

use vstd::prelude::*;
use vstd::string::*;
use crate::chars::{first_match_from, find_str_from, str_chars};

verus! {

/// The pieces of `s` from `from` onward, cut at each occurrence of `<|>`.
pub open spec fn split_links_from(s: Seq<char>, from: int) -> Seq<Seq<char>>
    decreases s.len() - from + 1,
{
    if from < 0 || from > s.len() {
        seq![]
    } else {
        match first_match_from(s, "<|>"@, from) {
            None => seq![s.subrange(from, s.len() as int)],
            Some(i) => if from <= i && i + 3 <= s.len() {
                seq![s.subrange(from, i)] + split_links_from(s, i + 3)
            } else {
                seq![s.subrange(from, s.len() as int)]
            },
        }
    }
}

/// The pieces of `s` cut at each occurrence of the delimiter.
pub open spec fn split_links_spec(s: Seq<char>) -> Seq<Seq<char>> {
    split_links_from(s, 0)
}

/// The pieces of `ls` from `from` onward, joined by the delimiter.
pub open spec fn join_links_from(ls: Seq<Seq<char>>, from: int) -> Seq<char>
    decreases ls.len() - from,
{
    if from < 0 || from >= ls.len() {
        Seq::empty()
    } else if from == ls.len() - 1 {
        ls[from]
    } else {
        ls[from] + "<|>"@ + join_links_from(ls, from + 1)
    }
}

/// The pieces of `ls` joined by the delimiter.
pub open spec fn join_links_spec(ls: Seq<Seq<char>>) -> Seq<char> {
    join_links_from(ls, 0)
}

/// Splits a stored payload into its link titles at each `<|>`.
pub fn split_links(payload: &String) -> (r: Vec<String>)
    ensures
        r@.map_values(|x: String| x@) == split_links_spec(payload@),
{
    proof {
        reveal_strlit("<|>");
    }
    let chars = str_chars(payload.as_str());
    let n = chars.len();
    let mut out: Vec<String> = Vec::new();
    let mut pos: usize = 0;
    loop
        invariant_except_break
            split_links_spec(payload@) =~= out@.map_values(|x: String| x@) + split_links_from(
                payload@,
                pos as int,
            ),
        invariant
            pos <= n,
            n == payload@.len(),
            chars@ == payload@,
            "<|>"@.len() == 3,
        ensures
            split_links_spec(payload@) =~= out@.map_values(|x: String| x@),
        decreases n - pos,
    {
        match find_str_from(&chars, "<|>", pos) {
            Some(i) => {
                let piece = payload.as_str().substring_char(pos, i).to_owned();
                proof {
                    assert(split_links_from(payload@, pos as int) =~= seq![
                        payload@.subrange(pos as int, i as int),
                    ] + split_links_from(payload@, i + 3));
                    assert((out@.push(piece)).map_values(|x: String| x@) =~= out@.map_values(
                        |x: String| x@,
                    ).push(piece@));
                }
                out.push(piece);
                pos = i + 3;
            },
            None => {
                let piece = payload.as_str().substring_char(pos, n).to_owned();
                proof {
                    assert(split_links_from(payload@, pos as int) =~= seq![
                        payload@.subrange(pos as int, payload@.len() as int),
                    ]);
                    assert((out@.push(piece)).map_values(|x: String| x@) =~= out@.map_values(
                        |x: String| x@,
                    ).push(piece@));
                }
                out.push(piece);
                proof {
                    assert(split_links_spec(payload@) =~= out@.map_values(|x: String| x@));
                }
                break;
            },
        }
    }
    out
}

/// Joins link titles with the delimiter, forming a stored payload.
#[verifier::loop_isolation(false)]
pub fn join_links(ls: &Vec<String>) -> (r: String)
    ensures
        r@ == join_links_spec(ls@.map_values(|x: String| x@)),
{
    let n = ls.len();
    if n == 0 {
        return String::new();
    }
    let ghost view_seq = ls@.map_values(|x: String| x@);
    let mut r = ls[0].clone();
    let mut i: usize = 1;
    while i < n
        invariant
            1 <= i <= n,
            n == view_seq.len(),
            view_seq == ls@.map_values(|x: String| x@),
            i < n ==> join_links_spec(view_seq) =~= r@ + "<|>"@ + join_links_from(
                view_seq,
                i as int,
            ),
            i == n ==> join_links_spec(view_seq) =~= r@,
        decreases n - i,
    {
        r.append("<|>");
        r.append(ls[i].as_str());
        proof {
            if i + 1 < n {
                assert(join_links_from(view_seq, i as int) =~= view_seq[i as int] + "<|>"@
                    + join_links_from(view_seq, i + 1));
            } else {
                assert(join_links_from(view_seq, i as int) =~= view_seq[i as int]);
            }
        }
        i = i + 1;
    }
    r
}

} // verus!
