//! The persistent path chain: immutable candidate-path nodes that share their
//! ancestry by reference count. Extending a path never copies the ancestor
//! list, so total memory stays proportional to the number of distinct
//! discovered titles rather than branches times depth.

use vstd::prelude::*;
use vstd::string::*;
use std::rc::Rc;

verus! {

/// A shared handle to an immutable path node.
pub struct PageHolder {
    /// The node itself, shared with every descendant that branched from it.
    pub page: Rc<Page>,
}

/// One candidate-path node: a title, how it was reached, and its predecessor.
pub struct Page {
    /// The title this node stands for.
    pub page: String,
    /// Whether this node was reached by folding a redirect rather than by
    /// following a direct link.
    pub from_redirect: bool,
    /// The predecessor node, or none for the root of the search.
    pub from: Option<PageHolder>,
}

impl Page {
    /// The titles from the root to this node, each with its hop kind.
    pub open spec fn path_seq(self) -> Seq<(Seq<char>, bool)>
        decreases self,
    {
        match self.from {
            None => seq![(self.page@, self.from_redirect)],
            Some(prev) => (*prev.page).path_seq() + seq![(self.page@, self.from_redirect)],
        }
    }

    /// A path always holds at least its own node.
    pub proof fn lemma_path_nonempty(&self)
        ensures
            self.path_seq().len() >= 1,
            self.path_seq().last() == (self.page@, self.from_redirect),
    {
    }

    /// Builds a node; the chain is immutable from here on.
    pub fn new(page: String, from_redirect: bool, from: Option<PageHolder>) -> (p: Page)
        ensures
            p.page == page,
            p.from_redirect == from_redirect,
            p.from == from,
    {
        Page { page, from_redirect, from }
    }
}

/// Relies on std's `Rc::clone`: the clone is a handle to the very same node.
#[verifier::external_body]
fn clone_rc(rc: &Rc<Page>) -> (r: Rc<Page>)
    ensures
        r == *rc,
{
    Rc::clone(rc)
}

impl Clone for PageHolder {
    /// Clones the handle, sharing the node rather than copying the chain.
    fn clone(&self) -> (r: Self)
        ensures
            r == *self,
    {
        PageHolder { page: clone_rc(&self.page) }
    }
}

impl PageHolder {
    /// The titles from the root to this node, each with its hop kind.
    pub open spec fn path(self) -> Seq<(Seq<char>, bool)> {
        (*self.page).path_seq()
    }

    /// The title of this node itself.
    pub open spec fn title(self) -> Seq<char> {
        (*self.page).page@
    }

    /// Wraps a freshly built node in a shared handle.
    pub fn from_page(page: Page) -> (r: PageHolder)
        ensures
            *r.page == page,
            r.path() == page.path_seq(),
    {
        PageHolder { page: Rc::new(page) }
    }

    /// Borrows the node behind the handle.
    pub fn get_page(&self) -> (r: &Page)
        ensures
            *r == *self.page,
    {
        &*self.page
    }

    /// Extends a path by one hop, sharing the predecessor by reference.
    pub fn add_to_path(prev: &PageHolder, next: String, from_redirect: bool) -> (r: PageHolder)
        ensures
            r.path() == prev.path() + seq![(next@, from_redirect)],
            r.title() == next@,
    {
        PageHolder::from_page(Page::new(next, from_redirect, Some(prev.clone())))
    }

    /// Walks the chain back to the root and lays the path out in order,
    /// root first. Cost is proportional to the path length.
    pub fn materialize(&self) -> (v: Vec<(String, bool)>)
        ensures
            v@.map_values(|p: (String, bool)| (p.0@, p.1)) == self.path(),
            v@.len() == self.path().len(),
    {
        let v = materialize_page(self.get_page());
        proof {
            assert(v@.map_values(|p: (String, bool)| (p.0@, p.1)).len() == v@.len());
        }
        v
    }
}

/// Names the result of `url_escape::encode_path_to_string`: the
/// percent-encoded form of a title under the path character set, a function
/// of the characters alone.
pub uninterp spec fn escape_path_of(s: Seq<char>) -> Seq<char>;

/// Relies on `url_escape::encode_path_to_string`: appends the percent-encoded
/// form of the text (path character set) to the output string.
#[verifier::external_body]
fn append_escaped(title: &str, out: &mut String)
    ensures
        final(out)@ == old(out)@ + escape_path_of(title@),
{
    url_escape::encode_path_to_string(title, out);
}

/// The arrow that introduces a hop of this kind.
pub open spec fn spec_arrow(from_redirect: bool) -> Seq<char> {
    if from_redirect {
        " -r->\n"@
    } else {
        " ===>\n"@
    }
}

/// The page reference rendered for a title.
pub open spec fn spec_link(t: Seq<char>) -> Seq<char> {
    "https://en.wikipedia.org/wiki/"@ + escape_path_of(t)
}

/// One rendered hop: its arrow, then its page reference.
pub open spec fn spec_segment(t: (Seq<char>, bool)) -> Seq<char> {
    spec_arrow(t.1) + spec_link(t.0)
}

/// The rendered hops of `p` from position `from` onward.
pub open spec fn spec_render_tail(p: Seq<(Seq<char>, bool)>, from: int) -> Seq<char>
    decreases p.len() - from,
{
    if from < 0 || from >= p.len() {
        Seq::empty()
    } else {
        spec_segment(p[from]) + spec_render_tail(p, from + 1)
    }
}

/// The human-readable rendering of a path: the root's page reference, then
/// each later hop with an arrow telling a direct link from a folded redirect.
/// A zero-hop path is one page reference with no arrow at all.
pub open spec fn spec_render(p: Seq<(Seq<char>, bool)>) -> Seq<char> {
    if p.len() == 0 {
        Seq::empty()
    } else if p.len() == 1 {
        spec_link(p[0].0)
    } else {
        spec_link(p[0].0) + " "@ + spec_render_tail(p, 1)
    }
}

impl PageHolder {
    /// Renders the whole path as a chain of page references joined by
    /// hop-kind arrows.
    #[verifier::loop_isolation(false)]
    pub fn to_str(&self) -> (r: String)
        ensures
            r@ == spec_render(self.path()),
    {
        let ghost pv = self.path();
        proof {
            (*self.page).lemma_path_nonempty();
        }
        let nodes = self.materialize();
        let n = nodes.len();
        if n == 1 {
            let mut s = String::from_str("https://en.wikipedia.org/wiki/");
            append_escaped(nodes[0].0.as_str(), &mut s);
            proof {
                assert(pv[0] == (nodes@[0].0@, nodes@[0].1));
                assert(s@ =~= spec_render(pv));
            }
            s
        } else {
            let mut s = String::from_str("https://en.wikipedia.org/wiki/");
            append_escaped(nodes[0].0.as_str(), &mut s);
            s.append(" ");
            proof {
                assert(pv[0] == (nodes@[0].0@, nodes@[0].1));
                assert(s@ =~= spec_link(pv[0].0) + " "@);
            }
            let mut i: usize = 1;
            while i < n
                invariant
                    1 <= i <= n,
                    spec_render(pv) =~= s@ + spec_render_tail(pv, i as int),
                decreases n - i,
            {
                let ghost prev = s@;
                if nodes[i].1 {
                    s.append(" -r->\n");
                } else {
                    s.append(" ===>\n");
                }
                s.append("https://en.wikipedia.org/wiki/");
                append_escaped(nodes[i].0.as_str(), &mut s);
                proof {
                    assert(pv[i as int] == (nodes@[i as int].0@, nodes@[i as int].1));
                    assert(s@ =~= prev + spec_segment(pv[i as int]));
                    assert(spec_render_tail(pv, i as int) =~= spec_segment(pv[i as int])
                        + spec_render_tail(pv, i + 1));
                    assert(spec_render(pv) =~= s@ + spec_render_tail(pv, i + 1));
                }
                i = i + 1;
            }
            proof {
                assert(spec_render_tail(pv, n as int) =~= Seq::<char>::empty());
                assert(spec_render(pv) =~= s@);
            }
            s
        }
    }
}

/// Recursive worker for `materialize`.
fn materialize_page(p: &Page) -> (v: Vec<(String, bool)>)
    ensures
        v@.map_values(|q: (String, bool)| (q.0@, q.1)) == p.path_seq(),
    decreases *p,
{
    let ghost f = |q: (String, bool)| (q.0@, q.1);
    let mut v: Vec<(String, bool)> = match &p.from {
        Some(prev) => materialize_page(prev.get_page()),
        None => Vec::new(),
    };
    let ghost before = v@;
    v.push((p.page.clone(), p.from_redirect));
    proof {
        assert(v@.map_values(f) =~= before.map_values(f).push((p.page@, p.from_redirect)));
        match &p.from {
            None => {
                assert(before.map_values(f) =~= Seq::<(Seq<char>, bool)>::empty());
                assert(v@.map_values(f) =~= p.path_seq());
            },
            Some(prev) => {
                assert(v@.map_values(f) =~= (*prev.page).path_seq() + seq![
                    (p.page@, p.from_redirect),
                ]);
            },
        }
    }
    v
}

} // verus!
