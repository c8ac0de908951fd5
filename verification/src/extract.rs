//! Link extraction from raw article markup: the producer side of the
//! adjacency store. A body that opens with the redirect marker yields a
//! redirect entry (with an empty target when the target falls into a filtered
//! namespace); any other body yields the titles of its wiki links up to the
//! see-also or references section, joined by the reserved delimiter.

use vstd::prelude::*;
use vstd::string::*;
use crate::chars::{
    begins_with, find_char_from, find_of_two_from, find_str_from, first_char_from,
    first_match_from, first_of_two_from, has_prefix, str_chars, subrange_chars, trim_chars,
    trim_spec, chars_to_string,
};
use crate::links::{join_links, join_links_spec};

verus! {

/// The namespace prefixes whose pages are excluded from the graph.
pub open spec fn forbidden_patterns_spec() -> Seq<Seq<char>> {
    seq![
        "Wikipedia:"@,
        "Category:"@,
        "File:"@,
        "Special:"@,
        "Template:"@,
        "Template_talk:"@,
        "User:"@,
        "WP:"@,
        "Help:"@,
    ]
}

/// Whether a title starts with a filtered namespace prefix.
pub open spec fn has_forbidden_prefix(s: Seq<char>) -> bool {
    exists|i: int|
        0 <= i < forbidden_patterns_spec().len() && has_prefix(s, forbidden_patterns_spec()[i])
}

/// Tests a title against every filtered namespace prefix.
fn is_forbidden(link: &Vec<char>) -> (r: bool)
    ensures
        r == has_forbidden_prefix(link@),
{
    let ghost ps = forbidden_patterns_spec();
    if begins_with(link, "Wikipedia:") {
        proof {
            assert(has_prefix(link@, ps[0]));
        }
        return true;
    }
    if begins_with(link, "Category:") {
        proof {
            assert(has_prefix(link@, ps[1]));
        }
        return true;
    }
    if begins_with(link, "File:") {
        proof {
            assert(has_prefix(link@, ps[2]));
        }
        return true;
    }
    if begins_with(link, "Special:") {
        proof {
            assert(has_prefix(link@, ps[3]));
        }
        return true;
    }
    if begins_with(link, "Template:") {
        proof {
            assert(has_prefix(link@, ps[4]));
        }
        return true;
    }
    if begins_with(link, "Template_talk:") {
        proof {
            assert(has_prefix(link@, ps[5]));
        }
        return true;
    }
    if begins_with(link, "User:") {
        proof {
            assert(has_prefix(link@, ps[6]));
        }
        return true;
    }
    if begins_with(link, "WP:") {
        proof {
            assert(has_prefix(link@, ps[7]));
        }
        return true;
    }
    if begins_with(link, "Help:") {
        proof {
            assert(has_prefix(link@, ps[8]));
        }
        return true;
    }
    proof {
        assert forall|i: int| 0 <= i < ps.len() implies !has_prefix(link@, ps[i]) by {
            if i == 0 {
            } else if i == 1 {
            } else if i == 2 {
            } else if i == 3 {
            } else if i == 4 {
            } else if i == 5 {
            } else if i == 6 {
            } else if i == 7 {
            } else {
                assert(i == 8);
            }
        }
    }
    false
}

/// Whether the body opens with the redirect marker.
pub open spec fn is_redirect_body(body: Seq<char>) -> bool {
    body.len() > "#REDIRECT [["@.len() && has_prefix(body, "#REDIRECT [["@)
}

/// `s` cut at its first `#`, or whole if it has none.
pub open spec fn upto_hash(s: Seq<char>) -> Seq<char> {
    match first_char_from(s, '#', 0) {
        None => s,
        Some(h) => if 0 <= h <= s.len() {
            s.take(h)
        } else {
            s
        },
    }
}

/// The redirect target a redirect body denotes: the text between the marker
/// and the first `]]`, trimmed, cut at a section anchor, and trimmed again;
/// empty if it falls into a filtered namespace. `None` when no `]]` closes
/// the marker.
pub open spec fn spec_redirect_target(body: Seq<char>) -> Option<Seq<char>> {
    match first_match_from(body, "]]"@, 0) {
        None => None,
        Some(e) => if "#REDIRECT [["@.len() <= e <= body.len() {
            let t = trim_spec(upto_hash(trim_spec(body.subrange("#REDIRECT [["@.len() as int, e))));
            if has_forbidden_prefix(t) {
                Some(Seq::empty())
            } else {
                Some(t)
            }
        } else {
            None
        },
    }
}

/// Where the link scan stops: the see-also section, else the references
/// section, else the end of the body.
pub open spec fn scan_limit(body: Seq<char>) -> int {
    match first_match_from(body, "==See also=="@, 0) {
        Some(i) => i,
        None => match first_match_from(body, "==References=="@, 0) {
            Some(i) => i,
            None => body.len() as int,
        },
    }
}

/// The link titles of the occurrences of `[[` at or after `from`: each link
/// runs to the first `|` or `]`, is trimmed, dropped if it starts with a
/// filtered prefix or a section anchor, and cut at its first `#`. A `[[`
/// that no `|` or `]` ever follows ends the scan.
pub open spec fn collect_links_from(body: Seq<char>, from: int) -> Seq<Seq<char>>
    decreases body.len() - from + 1,
{
    if from < 0 || from > body.len() {
        seq![]
    } else {
        match first_match_from(body, "[["@, from) {
            None => seq![],
            Some(p) => if from <= p && p + 2 <= body.len() {
                match first_of_two_from(body, '|', ']', p + 2) {
                    None => seq![],
                    Some(endpos) => {
                        let link0 = trim_spec(body.subrange(p + 2, endpos));
                        let rest = collect_links_from(body, p + 2);
                        if has_forbidden_prefix(link0) {
                            rest
                        } else {
                            match first_char_from(link0, '#', 0) {
                                Some(h) => if h == 0 {
                                    rest
                                } else if 0 <= h <= link0.len() {
                                    seq![link0.take(h)] + rest
                                } else {
                                    rest
                                },
                                None => seq![link0] + rest,
                            }
                        }
                    },
                }
            } else {
                seq![]
            },
        }
    }
}

/// The error text reported when a redirect marker is never closed.
pub open spec fn redirect_err_msg(title: Seq<char>) -> Seq<char> {
    "Getting redirect link from '"@ + title + "' failed"@
}

/// What `get_links_from_body` computes from a body and its title.
pub open spec fn extract_links_spec(body: Seq<char>, title: Seq<char>) -> Result<
    (Seq<char>, bool),
    Seq<char>,
> {
    if is_redirect_body(body) {
        match spec_redirect_target(body) {
            Some(t) => Ok((t, true)),
            None => Err(redirect_err_msg(title)),
        }
    } else {
        Ok((join_links_spec(collect_links_from(body.take(scan_limit(body)), 0)), false))
    }
}

/// Turns an article body into its stored entry: the redirect target when the
/// body opens with the redirect marker (empty if the target is filtered), or
/// the delimiter-joined titles of its outbound links otherwise. Fails only
/// when a redirect marker is never closed by `]]`.
pub fn get_links_from_body(body: String, title: &String) -> (r: Result<(String, bool), String>)
    ensures
        match r {
            Ok(p) => extract_links_spec(body@, title@) == Ok::<(Seq<char>, bool), Seq<char>>(
                (p.0@, p.1),
            ),
            Err(m) => extract_links_spec(body@, title@) == Err::<(Seq<char>, bool), Seq<char>>(m@),
        },
{
    proof {
        reveal_strlit("#REDIRECT [[");
    }
    let chars = str_chars(body.as_str());
    let n = chars.len();
    if n > 12 && begins_with(&chars, "#REDIRECT [[") {
        match find_str_from(&chars, "]]", 0) {
            Some(e) if 12 <= e => {
                proof {
                    reveal_strlit("]]");
                }
                let t1 = trim_chars(&subrange_chars(&chars, 12, e));
                let t2 = match find_char_from(&t1, '#', 0) {
                    Some(h) => subrange_chars(&t1, 0, h),
                    None => t1,
                };
                let t3 = trim_chars(&t2);
                if is_forbidden(&t3) {
                    Ok((String::new(), true))
                } else {
                    Ok((chars_to_string(&t3), true))
                }
            },
            _ => {
                let mut m = String::from_str("Getting redirect link from '");
                m.append(title.as_str());
                m.append("' failed");
                Err(m)
            },
        }
    } else {
        let limit = match find_str_from(&chars, "==See also==", 0) {
            Some(i) => i,
            None => match find_str_from(&chars, "==References==", 0) {
                Some(i) => i,
                None => n,
            },
        };
        let trunc = subrange_chars(&chars, 0, limit);
        let ghost tv = trunc@;
        let m = trunc.len();
        let mut out: Vec<String> = Vec::new();
        let mut pos: usize = 0;
        proof {
            reveal_strlit("[[");
        }
        loop
            invariant_except_break
                collect_links_from(tv, 0) =~= out@.map_values(|x: String| x@)
                    + collect_links_from(tv, pos as int),
            invariant
                pos <= m,
                m == tv.len(),
                tv == trunc@,
                "[["@.len() == 2,
            ensures
                collect_links_from(tv, 0) =~= out@.map_values(|x: String| x@),
            decreases m - pos,
        {
            proof {
                reveal_strlit("[[");
            }
            match find_str_from(&trunc, "[[", pos) {
                None => {
                    break;
                },
                Some(p) => {
                    match find_of_two_from(&trunc, '|', ']', p + 2) {
                        None => {
                            proof {
                                assert(collect_links_from(tv, pos as int) =~= Seq::<
                                    Seq<char>,
                                >::empty());
                            }
                            break;
                        },
                        Some(endpos) => {
                            let link0 = trim_chars(&subrange_chars(&trunc, p + 2, endpos));
                            let ghost rest = collect_links_from(tv, p + 2);
                            if !is_forbidden(&link0) {
                                match find_char_from(&link0, '#', 0) {
                                    Some(h) => {
                                        if h > 0 {
                                            let piece = chars_to_string(
                                                &subrange_chars(&link0, 0, h),
                                            );
                                            proof {
                                                lemma_map_push(out@, piece);
                                            }
                                            out.push(piece);
                                        }
                                    },
                                    None => {
                                        let piece = chars_to_string(&link0);
                                        proof {
                                            lemma_map_push(out@, piece);
                                        }
                                        out.push(piece);
                                    },
                                }
                            }
                            pos = p + 2;
                        },
                    }
                },
            }
        }
        let payload = join_links(&out);
        Ok((payload, false))
    }
}

/// Pushing a string onto a vector appends its view to the mapped views.
proof fn lemma_map_push(s: Seq<String>, x: String)
    ensures
        s.push(x).map_values(|q: String| q@) =~= s.map_values(|q: String| q@).push(x@),
{
}

} // verus!
