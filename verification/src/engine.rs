//! The search engine: a breadth-first search over the adjacency store that
//! folds redirect chains inline. The engine itself is a state machine driven
//! by lookup results, so a caller that owns the store (a database handle, or
//! the in-memory `Store`) performs each lookup the engine asks for and hands
//! the entry back. `search` runs that loop against an in-memory `Store` and
//! is proved to terminate on every finite store.
//!
//! Strict FIFO processing of the frontier guarantees that every node at hop
//! depth `k` is dequeued before any node at depth `k + 1`, so the first match
//! is a shortest path counted in direct-link hops; redirect hops are resolved
//! inside a single expansion and stay free.

use vstd::prelude::*;
use vstd::set_lib::lemma_len_subset;
use std::collections::VecDeque;
use crate::links::split_links_spec;
use crate::normalize::{normalize_title, spec_normalize, NormalizeStrategy};
use crate::path::{Page, PageHolder};
use crate::resolve::{resolve_entry, Resolution, MAX_REDIRECT_DEPTH};
use crate::store::{entry_titles, Entry, Store};
use crate::visited::VisitedSet;

verus! {

/// How a finished search ended.
pub enum SearchOutcome {
    /// The goal was reached; the node holds the full path from the start.
    Found(PageHolder),
    /// The frontier emptied without reaching the goal: no path exists in the
    /// store. This is a result, not an error.
    Exhausted,
}

impl Clone for SearchOutcome {
    /// Clones the outcome; a found path is shared, not copied.
    fn clone(&self) -> (r: Self)
        ensures
            r == *self,
    {
        match self {
            SearchOutcome::Found(n) => SearchOutcome::Found(n.clone()),
            SearchOutcome::Exhausted => SearchOutcome::Exhausted,
        }
    }
}

/// What the engine asks its driver to do next.
pub enum Action {
    /// Look this title up in the store, byte-for-byte, and call `provide`
    /// with the result.
    Lookup(String),
    /// The search is over.
    Done(SearchOutcome),
}

/// Where the engine stands between two driver calls.
enum Phase {
    /// Nothing in flight: the next action dequeues from the frontier.
    Ready,
    /// Waiting for the lookup of the node's own title, at this redirect depth.
    Primary(PageHolder, u32),
    /// The primary lookup missed: waiting for the lookup of the normalized
    /// title, the one fallback attempt.
    Fallback(PageHolder, u32, String),
    /// The search ended and the outcome is fixed.
    Finished(SearchOutcome),
}

/// The titles an optional lookup result can put in play.
pub open spec fn opt_entry_titles(found: Option<Entry>) -> Set<Seq<char>> {
    match found {
        None => Set::empty(),
        Some(e) => entry_titles(e.payload@, e.is_redirect),
    }
}

/// The payload and redirect flag of an optional lookup result.
pub open spec fn opt_entry_view(found: Option<Entry>) -> Option<(Seq<char>, bool)> {
    match found {
        None => None,
        Some(e) => Some((e.payload@, e.is_redirect)),
    }
}

/// What a lookup of `t` in the table `m` returns.
pub open spec fn lookup_model(m: Map<Seq<char>, (Seq<char>, bool)>, t: Seq<char>) -> Option<
    (Seq<char>, bool),
> {
    if m.contains_key(t) {
        Some(m[t])
    } else {
        None
    }
}

/// Whether the answer `pv` of a lookup accounts for the hop: a redirect hop
/// needs a redirect entry whose non-empty target is the hop's title (an empty
/// target marks a filtered namespace and is never followed), a direct hop a
/// link entry one of whose links is the hop's title.
pub open spec fn answer_matches(pv: (Seq<char>, bool), hop: (Seq<char>, bool)) -> bool {
    if hop.1 {
        pv.1 && pv.0 == hop.0 && pv.0.len() > 0
    } else {
        !pv.1 && split_links_spec(pv.0).contains(hop.0)
    }
}

/// What expanding a resolved entry's link titles does, processed in stored
/// order against the visited set: an empty title is skipped; a title equal to
/// the goal ends the expansion at once as found; a fresh title joins the
/// visited set and the titles to be appended to the frontier, in order; an
/// already-visited title is discarded. Returns the visited set after the
/// expansion, the titles scheduled (front to back), and whether the goal was
/// met.
pub open spec fn schedule_links(
    visited: Set<Seq<char>>,
    titles: Seq<Seq<char>>,
    goal: Seq<char>,
) -> (Set<Seq<char>>, Seq<Seq<char>>, bool)
    decreases titles.len(),
{
    if titles.len() == 0 {
        (visited, seq![], false)
    } else {
        let t = titles[0];
        let rest = titles.drop_first();
        if t.len() == 0 {
            schedule_links(visited, rest, goal)
        } else if t == goal {
            (visited, seq![], true)
        } else if visited.contains(t) {
            schedule_links(visited, rest, goal)
        } else {
            let r = schedule_links(visited.insert(t), rest, goal);
            (r.0, seq![t] + r.1, r.2)
        }
    }
}

/// The node in flight was pruned: the engine is back to dequeueing, with
/// nothing new scheduled and nothing found. Pruning is local and never ends
/// the search by itself.
pub open spec fn prunes_to_ready(pre: Engine, post: Engine) -> bool {
    &&& post.visited_view() == pre.visited_view()
    &&& post.frontier_titles() == pre.frontier_titles()
    &&& !post.is_done()
    &&& post.phase_rank() == 0
    &&& (post.pending_node() is None)
}

/// The primary lookup missed: the engine now waits for exactly one fallback
/// lookup, keyed by the normalized title of the same node, at the same depth.
pub open spec fn fallback_started(pre: Engine, post: Engine) -> bool {
    &&& post.visited_view() == pre.visited_view()
    &&& post.frontier_titles() == pre.frontier_titles()
    &&& !post.is_done()
    &&& post.in_fallback()
    &&& post.pending_node() == pre.pending_node()
    &&& post.pending_depth() == pre.pending_depth()
    &&& (pre.pending_node() matches Some(n) ==> post.pending_title() == Some(
        spec_normalize(pre.strategy_view(), n.title()),
    ))
}

/// The search ended in success with exactly this path.
pub open spec fn found_with(post: Engine, path: Seq<(Seq<char>, bool)>) -> bool {
    &&& post.is_done()
    &&& (post.found_node() matches Some(f) && f.path() == path)
}

/// An in-bound redirect was followed: the target was checked against the goal
/// (it differs), registered in the visited set, and became the pending node,
/// one deeper, without ever occupying a frontier slot.
pub open spec fn advanced_to(
    pre: Engine,
    post: Engine,
    n: PageHolder,
    target: Seq<char>,
    d: u32,
) -> bool {
    &&& post.visited_view() == pre.visited_view().insert(target)
    &&& post.frontier_titles() == pre.frontier_titles()
    &&& !post.is_done()
    &&& !post.in_fallback()
    &&& (post.pending_node() matches Some(c) && c.path() == n.path().push((target, true))
        && c.title() == target)
    &&& post.pending_depth() == Some((d + 1) as u32)
    &&& post.pending_title() == Some(target)
}

/// A non-redirect entry was expanded: the outcome is exactly what
/// `schedule_links` says of its link titles in stored order — the new visited
/// set, the titles appended to the back of the frontier, and whether a goal
/// link ended the search with the node extended by that one direct hop.
pub open spec fn expanded_with(
    pre: Engine,
    post: Engine,
    n: PageHolder,
    links: Seq<Seq<char>>,
) -> bool {
    let sr = schedule_links(pre.visited_view(), links, pre.goal_view());
    &&& post.visited_view() == sr.0
    &&& post.frontier_titles() == pre.frontier_titles() + sr.1
    &&& (sr.2 ==> found_with(post, n.path().push((pre.goal_view(), false))))
    &&& (!sr.2 ==> (!post.is_done() && post.phase_rank() == 0 && (post.pending_node() is None)))
}

/// Everything one `provide` call does, case by case: a primary miss starts
/// the one normalization fallback; a fallback miss prunes the node as not
/// found; a filtered (empty) redirect target is pruned without ever being
/// compared to the goal; an in-bound redirect target is goal-checked,
/// registered and followed for free; a redirect at the depth bound is pruned;
/// a non-redirect entry is expanded link by link in stored order.
pub open spec fn provide_transition(pre: Engine, post: Engine, found: Option<Entry>) -> bool {
    pre.phase_rank() > 0 ==> (pre.pending_node() matches Some(n) && pre.pending_depth()
        matches Some(d) && (match found {
        None => if !pre.in_fallback() {
            fallback_started(pre, post)
        } else {
            prunes_to_ready(pre, post)
        },
        Some(e) => if e.is_redirect {
            if e.payload@.len() == 0 {
                prunes_to_ready(pre, post)
            } else if d + 1 < MAX_REDIRECT_DEPTH {
                if e.payload@ == pre.goal_view() {
                    post.visited_view() == pre.visited_view() && post.frontier_titles()
                        == pre.frontier_titles() && found_with(
                        post,
                        n.path().push((e.payload@, true)),
                    )
                } else {
                    advanced_to(pre, post, n, e.payload@, d)
                }
            } else {
                prunes_to_ready(pre, post)
            }
        } else {
            expanded_with(pre, post, n, split_links_spec(e.payload@))
        },
    }))
}

/// Whether position `j` of the lookup log answered `pv` for `title` itself or
/// for its normalization.
pub open spec fn log_entry_matches(
    log: Seq<(Seq<char>, Option<(Seq<char>, bool)>)>,
    strategy: NormalizeStrategy,
    title: Seq<char>,
    pv: (Seq<char>, bool),
    j: int,
) -> bool {
    &&& 0 <= j < log.len()
    &&& (log[j].0 == title || log[j].0 == spec_normalize(strategy, title))
    &&& log[j].1 == Some(pv)
}

/// Whether some answered lookup accounts for taking this hop away from
/// `title`.
pub open spec fn hop_justified(
    log: Seq<(Seq<char>, Option<(Seq<char>, bool)>)>,
    strategy: NormalizeStrategy,
    title: Seq<char>,
    hop: (Seq<char>, bool),
) -> bool {
    exists|j: int, pv: (Seq<char>, bool)|
        #[trigger] log_entry_matches(log, strategy, title, pv, j) && answer_matches(pv, hop)
}

/// Whether every hop of the path is accounted for by an answered lookup.
pub open spec fn path_justified(
    log: Seq<(Seq<char>, Option<(Seq<char>, bool)>)>,
    strategy: NormalizeStrategy,
    p: Seq<(Seq<char>, bool)>,
) -> bool {
    forall|i: int| 1 <= i < p.len() ==> hop_justified(log, strategy, p[i - 1].0, #[trigger] p[i])
}

/// Whether the table `m` accounts for this hop: the predecessor title, or its
/// normalization, has an entry that carries the hop's title.
pub open spec fn store_hop_valid(
    m: Map<Seq<char>, (Seq<char>, bool)>,
    strategy: NormalizeStrategy,
    title: Seq<char>,
    hop: (Seq<char>, bool),
) -> bool {
    exists|f: Seq<char>|
        (f == title || f == spec_normalize(strategy, title)) && #[trigger] m.contains_key(f)
            && answer_matches(m[f], hop)
}

/// Whether the path is a real chain in the table `m`: each hop follows a
/// redirect or a listed link of its predecessor (possibly under the
/// normalization fallback). A search can only report such a path, so a
/// reported path can never beat the true shortest distance.
pub open spec fn store_path_valid(
    m: Map<Seq<char>, (Seq<char>, bool)>,
    strategy: NormalizeStrategy,
    p: Seq<(Seq<char>, bool)>,
) -> bool {
    forall|i: int| 1 <= i < p.len() ==> store_hop_valid(m, strategy, p[i - 1].0, #[trigger] p[i])
}

/// A hop stays justified when the log grows.
proof fn lemma_hop_monotone(
    log: Seq<(Seq<char>, Option<(Seq<char>, bool)>)>,
    x: (Seq<char>, Option<(Seq<char>, bool)>),
    strategy: NormalizeStrategy,
    title: Seq<char>,
    hop: (Seq<char>, bool),
)
    requires
        hop_justified(log, strategy, title, hop),
    ensures
        hop_justified(log.push(x), strategy, title, hop),
{
    let (j, pv) = choose|j: int, pv: (Seq<char>, bool)|
        #[trigger] log_entry_matches(log, strategy, title, pv, j) && answer_matches(pv, hop);
    assert(log.push(x)[j] == log[j]);
    assert(log_entry_matches(log.push(x), strategy, title, pv, j));
}

/// A whole path stays justified when the log grows.
proof fn lemma_path_monotone(
    log: Seq<(Seq<char>, Option<(Seq<char>, bool)>)>,
    x: (Seq<char>, Option<(Seq<char>, bool)>),
    strategy: NormalizeStrategy,
    p: Seq<(Seq<char>, bool)>,
)
    requires
        path_justified(log, strategy, p),
    ensures
        path_justified(log.push(x), strategy, p),
{
    assert forall|i: int|
        1 <= i < p.len() implies hop_justified(log.push(x), strategy, p[i - 1].0, #[trigger] p[i]) by {
        assert(hop_justified(log, strategy, p[i - 1].0, p[i]));
        lemma_hop_monotone(log, x, strategy, p[i - 1].0, p[i]);
    }
}

/// An answered lookup that matches a hop justifies that hop.
proof fn lemma_hop_found(
    log: Seq<(Seq<char>, Option<(Seq<char>, bool)>)>,
    strategy: NormalizeStrategy,
    title: Seq<char>,
    pv: (Seq<char>, bool),
    hop: (Seq<char>, bool),
    j: int,
)
    requires
        log_entry_matches(log, strategy, title, pv, j),
        answer_matches(pv, hop),
    ensures
        hop_justified(log, strategy, title, hop),
{
    assert(log_entry_matches(log, strategy, title, pv, j) && answer_matches(pv, hop));
}

/// A justified path extended by a justified hop stays justified.
proof fn lemma_path_extend(
    log: Seq<(Seq<char>, Option<(Seq<char>, bool)>)>,
    strategy: NormalizeStrategy,
    p: Seq<(Seq<char>, bool)>,
    hop: (Seq<char>, bool),
)
    requires
        path_justified(log, strategy, p),
        p.len() >= 1,
        hop_justified(log, strategy, p.last().0, hop),
    ensures
        path_justified(log, strategy, p.push(hop)),
{
    let q = p.push(hop);
    assert forall|i: int|
        1 <= i < q.len() implies hop_justified(log, strategy, q[i - 1].0, #[trigger] q[i]) by {
        if i < p.len() {
            assert(q[i] == p[i]);
            assert(q[i - 1] == p[i - 1]);
            assert(hop_justified(log, strategy, p[i - 1].0, p[i]));
        } else {
            assert(q[i] == hop);
            assert(q[i - 1] == p.last());
        }
    }
}

/// A justified path is a real chain in any table that every answered lookup
/// agrees with.
proof fn lemma_justified_path_in_store(
    m: Map<Seq<char>, (Seq<char>, bool)>,
    log: Seq<(Seq<char>, Option<(Seq<char>, bool)>)>,
    strategy: NormalizeStrategy,
    p: Seq<(Seq<char>, bool)>,
)
    requires
        path_justified(log, strategy, p),
        forall|j: int| 0 <= j < log.len() ==> (#[trigger] log[j]).1 == lookup_model(m, log[j].0),
    ensures
        store_path_valid(m, strategy, p),
{
    assert forall|i: int|
        1 <= i < p.len() implies store_hop_valid(m, strategy, p[i - 1].0, #[trigger] p[i]) by {
        assert(hop_justified(log, strategy, p[i - 1].0, p[i]));
        let (j, pv) = choose|j: int, pv: (Seq<char>, bool)|
            #[trigger] log_entry_matches(log, strategy, p[i - 1].0, pv, j) && answer_matches(
                pv,
                p[i],
            );
        let f = log[j].0;
        assert(log[j].1 == lookup_model(m, f));
        assert(m.contains_key(f) && m[f] == pv);
    }
}

/// The breadth-first search engine, driven by lookup results.
pub struct Engine {
    goal: String,
    strategy: NormalizeStrategy,
    visited: VisitedSet,
    frontier: VecDeque<PageHolder>,
    phase: Phase,
    start_title: Ghost<Seq<char>>,
    log: Ghost<Seq<(Seq<char>, Option<(Seq<char>, bool)>)>>,
}

impl Engine {
    /// The goal title the search is heading for.
    pub closed spec fn goal_view(&self) -> Seq<char> {
        self.goal@
    }

    /// The start title the search began at.
    pub closed spec fn start_view(&self) -> Seq<char> {
        self.start_title@
    }

    /// The titles scheduled so far.
    pub closed spec fn visited_view(&self) -> Set<Seq<char>> {
        self.visited@
    }

    /// How many nodes await expansion.
    pub closed spec fn frontier_len(&self) -> nat {
        self.frontier@.len()
    }

    /// The titles of the frontier nodes, front first.
    pub closed spec fn frontier_titles(&self) -> Seq<Seq<char>> {
        self.frontier@.map_values(|n: PageHolder| n.title())
    }

    /// Whether the search has ended.
    pub closed spec fn is_done(&self) -> bool {
        self.phase is Finished
    }

    /// Every lookup answered so far: the title asked, and the entry the store
    /// returned for it.
    pub closed spec fn lookup_log(&self) -> Seq<(Seq<char>, Option<(Seq<char>, bool)>)> {
        self.log@
    }

    /// The normalization strategy the fallback uses.
    pub closed spec fn strategy_view(&self) -> NormalizeStrategy {
        self.strategy
    }

    /// The title whose lookup the engine is waiting for, if any.
    pub closed spec fn pending_title(&self) -> Option<Seq<char>> {
        match self.phase {
            Phase::Primary(n, _) => Some(n.title()),
            Phase::Fallback(_, _, fb) => Some(fb@),
            _ => None,
        }
    }

    /// The node under resolution, if any.
    pub closed spec fn pending_node(&self) -> Option<PageHolder> {
        match self.phase {
            Phase::Primary(n, _) => Some(n),
            Phase::Fallback(n, _, _) => Some(n),
            _ => None,
        }
    }

    /// The redirect depth of the resolution in flight, if any.
    pub closed spec fn pending_depth(&self) -> Option<u32> {
        match self.phase {
            Phase::Primary(_, d) => Some(d),
            Phase::Fallback(_, d, _) => Some(d),
            _ => None,
        }
    }

    /// Whether the lookup in flight is the one normalization fallback.
    pub closed spec fn in_fallback(&self) -> bool {
        self.phase is Fallback
    }

    /// The found node, once the search has ended in success.
    pub closed spec fn found_node(&self) -> Option<PageHolder> {
        match self.phase {
            Phase::Finished(SearchOutcome::Found(n)) => Some(n),
            _ => None,
        }
    }

    /// A measure of the in-flight resolution: zero when nothing is in flight,
    /// and strictly decreasing across every `provide` that changes no state
    /// otherwise. Together with the visited set and the frontier length it
    /// bounds the whole search.
    pub closed spec fn phase_rank(&self) -> int {
        match self.phase {
            Phase::Ready => 0,
            Phase::Finished(_) => 0,
            Phase::Primary(_, d) => 2 * (MAX_REDIRECT_DEPTH - d),
            Phase::Fallback(_, d, _) => 2 * (MAX_REDIRECT_DEPTH - d) - 1,
        }
    }

    /// A node the engine may hold: a non-empty path rooted at the start,
    /// every hop of which some answered lookup accounts for.
    pub closed spec fn node_ok(&self, n: PageHolder) -> bool {
        &&& n.path().len() >= 1
        &&& n.path()[0] == ((self.start_title@, false))
        &&& path_justified(self.log@, self.strategy, n.path())
    }

    /// The engine's internal invariant.
    pub closed spec fn wf(&self) -> bool {
        &&& self.visited.wf()
        &&& self.visited@.finite()
        &&& forall|i: int|
            0 <= i < self.frontier@.len() ==> self.node_ok(#[trigger] self.frontier@[i])
        &&& match self.phase {
            Phase::Ready => true,
            Phase::Primary(n, d) => self.node_ok(n) && d < MAX_REDIRECT_DEPTH,
            Phase::Fallback(n, d, fb) => self.node_ok(n) && d < MAX_REDIRECT_DEPTH && fb@
                == spec_normalize(self.strategy, n.title()),
            Phase::Finished(o) => match o {
                SearchOutcome::Found(n) => self.node_ok(n) && n.title() == self.goal@
                    && n.path().last().0 == self.goal@,
                SearchOutcome::Exhausted => true,
            },
        }
    }

    /// Seeds the search: the start title is marked visited and its root node
    /// is the whole frontier.
    pub fn new(start: String, goal: String, strategy: NormalizeStrategy) -> (e: Engine)
        ensures
            e.wf(),
            !e.is_done(),
            e.phase_rank() == 0,
            e.goal_view() == goal@,
            e.start_view() == start@,
            e.visited_view() == Set::<Seq<char>>::empty().insert(start@),
            e.frontier_titles() == seq![start@],
            e.frontier_len() == 1,
            e.lookup_log() == Seq::<(Seq<char>, Option<(Seq<char>, bool)>)>::empty(),
            e.strategy_view() == strategy,
    {
        let ghost start_view = start@;
        let mut visited = VisitedSet::new();
        visited.insert(&start);
        let root = PageHolder::from_page(Page::new(start, false, None));
        let mut frontier: VecDeque<PageHolder> = VecDeque::new();
        frontier.push_back(root);
        let e = Engine {
            goal,
            strategy,
            visited,
            frontier,
            phase: Phase::Ready,
            start_title: Ghost(start_view),
            log: Ghost(Seq::empty()),
        };
        proof {
            assert(e.frontier@ =~= seq![root]);
            assert(root.path() =~= seq![(start_view, false)]);
            assert(e.frontier_titles() =~= seq![start_view]);
        }
        e
    }

    /// How many distinct titles have been scheduled so far, for progress
    /// reporting.
    pub fn visited_count(&self) -> (n: usize)
        requires
            self.wf(),
        ensures
            n == self.visited_view().len(),
    {
        self.visited.len()
    }

    /// How many nodes await expansion, for progress reporting.
    pub fn frontier_count(&self) -> (n: usize)
        ensures
            n == self.frontier_len(),
    {
        self.frontier.len()
    }

    /// Tells the driver what to do next. Repeated calls without an
    /// intervening `provide` ask for the same lookup again; once the search
    /// has ended, every further call reports the same outcome.
    pub fn next_action(&mut self) -> (a: Action)
        requires
            old(self).wf(),
        ensures
            final(self).wf(),
            final(self).goal_view() == old(self).goal_view(),
            final(self).start_view() == old(self).start_view(),
            final(self).visited_view() == old(self).visited_view(),
            final(self).lookup_log() == old(self).lookup_log(),
            final(self).strategy_view() == old(self).strategy_view(),
            match a {
                Action::Lookup(t) => {
                    &&& final(self).phase_rank() > 0
                    &&& !final(self).is_done()
                    &&& final(self).pending_title() == Some(t@)
                    &&& (old(self).phase_rank() > 0 ==> *final(self) == *old(self))
                    &&& (old(self).phase_rank() == 0 ==> {
                        &&& old(self).frontier_len() > 0
                        &&& final(self).frontier_len() == old(self).frontier_len() - 1
                        &&& final(self).frontier_titles() == old(
                            self,
                        ).frontier_titles().drop_first()
                        &&& t@ == old(self).frontier_titles()[0]
                        &&& (final(self).pending_node() matches Some(n) && n.title() == t@)
                        &&& final(self).pending_depth() == Some(0u32)
                        &&& !final(self).in_fallback()
                    })
                },
                Action::Done(o) => {
                    &&& final(self).is_done()
                    &&& final(self).phase_rank() == 0
                    &&& final(self).frontier_len() <= old(self).frontier_len()
                    &&& match o {
                        SearchOutcome::Found(n) => {
                            &&& n.path().len() >= 1
                            &&& n.path()[0] == ((old(self).start_view(), false))
                            &&& n.path().last().0 == old(self).goal_view()
                            &&& path_justified(
                                old(self).lookup_log(),
                                old(self).strategy_view(),
                                n.path(),
                            )
                        },
                        SearchOutcome::Exhausted => old(self).frontier_len() == 0 || old(self).is_done(),
                    }
                },
            },
            !old(self).is_done() && old(self).phase_rank() == 0 && old(self).frontier_len() > 0
                && old(self).frontier_titles()[0] == old(self).goal_view() ==> a matches
                Action::Done(SearchOutcome::Found(_)),
    {
        match &self.phase {
            Phase::Finished(o) => {
                let out = o.clone();
                Action::Done(out)
            },
            Phase::Primary(n, _) => Action::Lookup(n.get_page().page.clone()),
            Phase::Fallback(_, _, fb) => Action::Lookup(fb.clone()),
            Phase::Ready => {
                match self.frontier.pop_front() {
                    None => {
                        self.phase = Phase::Finished(SearchOutcome::Exhausted);
                        Action::Done(SearchOutcome::Exhausted)
                    },
                    Some(node) => {
                        proof {
                            assert(old(self).frontier@[0] == node);
                            assert(old(self).node_ok(node));
                            (*node.page).lemma_path_nonempty();
                            assert(old(self).frontier_titles()[0] == node.title());
                        }
                        if node.get_page().page == self.goal {
                            let out = SearchOutcome::Found(node.clone());
                            self.phase = Phase::Finished(SearchOutcome::Found(node));
                            Action::Done(out)
                        } else {
                            let title = node.get_page().page.clone();
                            self.phase = Phase::Primary(node, 0);
                            proof {
                                assert(self.frontier_titles() =~= old(
                                    self,
                                ).frontier_titles().drop_first());
                            }
                            Action::Lookup(title)
                        }
                    },
                }
            },
        }
    }

    /// Feeds the engine the result of the lookup it asked for. Every title
    /// the call schedules comes from the entry handed in; if the engine was
    /// not waiting for a lookup, nothing changes.
    pub fn provide(&mut self, found: Option<Entry>)
        requires
            old(self).wf(),
        ensures
            final(self).wf(),
            final(self).goal_view() == old(self).goal_view(),
            final(self).start_view() == old(self).start_view(),
            old(self).visited_view().subset_of(final(self).visited_view()),
            final(self).visited_view().subset_of(
                old(self).visited_view().union(opt_entry_titles(found)),
            ),
            old(self).phase_rank() == 0 ==> *final(self) == *old(self),
            old(self).phase_rank() > 0 ==> ((final(self).visited_view().len() > old(self).visited_view().len()) || (final(self).visited_view() == old(self).visited_view()
                && final(self).frontier_len() == old(self).frontier_len() && 0 <= final(self).phase_rank() && final(self).phase_rank() < old(self).phase_rank())),
            final(self).strategy_view() == old(self).strategy_view(),
            old(self).phase_rank() > 0 ==> (old(self).pending_title() matches Some(t)
                && final(self).lookup_log() == old(self).lookup_log().push(
                (t, opt_entry_view(found)),
            )),
            provide_transition(*old(self), *final(self), found),
    {
        let mut ph = Phase::Ready;
        std::mem::swap(&mut ph, &mut self.phase);
        match ph {
            Phase::Ready => {
                self.phase = Phase::Ready;
            },
            Phase::Finished(o) => {
                self.phase = Phase::Finished(o);
            },
            Phase::Primary(node, d) => {
                self.record(Ghost(node.title()), &found, Ghost(node));
                match found {
                    None => {
                        let fb = normalize_title(self.strategy, &node.get_page().page);
                        self.phase = Phase::Fallback(node, d, fb);
                    },
                    Some(e) => {
                        let ghost jw = self.log@.len() - 1;
                        proof {
                            assert(log_entry_matches(
                                self.log@,
                                self.strategy,
                                node.title(),
                                (e.payload@, e.is_redirect),
                                jw,
                            ));
                        }
                        self.handle_entry(node, d, e, Ghost(jw));
                    },
                }
            },
            Phase::Fallback(node, d, fb) => {
                self.record(Ghost(fb@), &found, Ghost(node));
                match found {
                    None => {
                        self.phase = Phase::Ready;
                    },
                    Some(e) => {
                        let ghost jw = self.log@.len() - 1;
                        proof {
                            assert(fb@ == spec_normalize(self.strategy, node.title()));
                            assert(log_entry_matches(
                                self.log@,
                                self.strategy,
                                node.title(),
                                (e.payload@, e.is_redirect),
                                jw,
                            ));
                        }
                        self.handle_entry(node, d, e, Ghost(jw));
                    },
                }
            },
        }
    }

    /// Appends one answered lookup to the ghost log; every node the engine
    /// holds stays justified because the log only grows.
    fn record(&mut self, asked: Ghost<Seq<char>>, found: &Option<Entry>, node: Ghost<PageHolder>)
        requires
            old(self).wf(),
            (old(self).phase is Ready),
            old(self).node_ok(node@),
        ensures
            *final(self) == (Engine {
                log: Ghost(old(self).log@.push((asked@, opt_entry_view(*found)))),
                ..*old(self)
            }),
            final(self).wf(),
            final(self).node_ok(node@),
    {
        proof {
            let x = (asked@, opt_entry_view(*found));
            let stg = self.strategy;
            assert forall|i: int|
                0 <= i < self.frontier@.len() implies path_justified(
                self.log@.push(x),
                stg,
                (#[trigger] self.frontier@[i]).path(),
            ) by {
                assert(self.node_ok(self.frontier@[i]));
                lemma_path_monotone(self.log@, x, stg, self.frontier@[i].path());
            }
            lemma_path_monotone(self.log@, x, stg, node@.path());
            self.log@ = self.log@.push(x);
        }
    }

    /// Applies one resolver transition to the node under resolution, then
    /// either follows the redirect, expands the links, or prunes the node.
    fn handle_entry(&mut self, node: PageHolder, d: u32, e: Entry, jw: Ghost<int>)
        requires
            old(self).wf(),
            old(self).node_ok(node),
            (old(self).phase is Ready),
            d < MAX_REDIRECT_DEPTH,
            log_entry_matches(
                old(self).lookup_log(),
                old(self).strategy_view(),
                node.title(),
                ((e.payload@, e.is_redirect)),
                jw@,
            ),
        ensures
            final(self).wf(),
            final(self).lookup_log() == old(self).lookup_log(),
            final(self).strategy_view() == old(self).strategy_view(),
            final(self).goal_view() == old(self).goal_view(),
            final(self).start_view() == old(self).start_view(),
            old(self).visited_view().subset_of(final(self).visited_view()),
            final(self).visited_view().subset_of(
                old(self).visited_view().union(entry_titles(e.payload@, e.is_redirect)),
            ),
            (final(self).visited_view().len() > old(self).visited_view().len()) || (final(self).visited_view() == old(self).visited_view() && final(self).frontier_len() == old(self).frontier_len() && 0 <= final(self).phase_rank() && final(self).phase_rank() + 1 < 2
                * (MAX_REDIRECT_DEPTH - d)),
            e.is_redirect && e.payload@.len() == 0 ==> prunes_to_ready(*old(self), *final(self)),
            e.is_redirect && e.payload@.len() > 0 && d + 1 >= MAX_REDIRECT_DEPTH
                ==> prunes_to_ready(*old(self), *final(self)),
            e.is_redirect && e.payload@.len() > 0 && d + 1 < MAX_REDIRECT_DEPTH && e.payload@
                == old(self).goal_view() ==> (final(self).visited_view() == old(
                self,
            ).visited_view() && final(self).frontier_titles() == old(self).frontier_titles()
                && found_with(*final(self), node.path().push((e.payload@, true)))),
            e.is_redirect && e.payload@.len() > 0 && d + 1 < MAX_REDIRECT_DEPTH && e.payload@
                != old(self).goal_view() ==> advanced_to(
                *old(self),
                *final(self),
                node,
                e.payload@,
                d,
            ),
            !e.is_redirect ==> expanded_with(
                *old(self),
                *final(self),
                node,
                split_links_spec(e.payload@),
            ),
    {
        let ghost old_visited = self.visited@;
        match resolve_entry(Some(&e), d) {
            Resolution::Abandoned(_) => {
                self.phase = Phase::Ready;
            },
            Resolution::Advance(target) => {
                proof {
                    (*node.page).lemma_path_nonempty();
                    lemma_hop_found(
                        self.log@,
                        self.strategy,
                        node.title(),
                        (e.payload@, e.is_redirect),
                        (e.payload@, true),
                        jw@,
                    );
                    lemma_path_extend(self.log@, self.strategy, node.path(), (e.payload@, true));
                }
                if target == self.goal {
                    let child = PageHolder::add_to_path(&node, target, true);
                    proof {
                        (*child.page).lemma_path_nonempty();
                        assert(child.path()[0] == node.path()[0]);
                        assert(child.path() =~= node.path().push((e.payload@, true)));
                    }
                    self.phase = Phase::Finished(SearchOutcome::Found(child));
                } else {
                    self.visited.insert(&target);
                    let child = PageHolder::add_to_path(&node, target, true);
                    proof {
                        assert(child.path()[0] == node.path()[0]);
                        assert(child.path() =~= node.path().push((e.payload@, true)));
                        assert(entry_titles(e.payload@, e.is_redirect) =~= set![e.payload@]);
                        assert(self.visited@.subset_of(old_visited.insert(e.payload@)));
                        if !old_visited.contains(e.payload@) {
                            assert(self.visited@.len() > old_visited.len());
                        } else {
                            assert(self.visited@ =~= old_visited);
                        }
                    }
                    self.phase = Phase::Primary(child, d + 1);
                }
            },
            Resolution::Resolved(links) => {
                proof {
                    let vs = links@.map_values(|s: String| s@);
                    assert forall|i: int|
                        0 <= i < links@.len() implies split_links_spec(e.payload@).contains(
                        #[trigger] links@[i]@,
                    ) by {
                        assert(vs[i] == links@[i]@);
                        assert(split_links_spec(e.payload@).contains(vs[i]));
                    }
                }
                self.expand(&node, links, Ghost((e.payload@, e.is_redirect)), jw);
            },
        }
    }

    /// Expands a resolved node: every non-empty link becomes a candidate
    /// child; the goal ends the search, a fresh title joins the frontier, and
    /// an already-visited title is discarded.
    fn expand(
        &mut self,
        node: &PageHolder,
        links: Vec<String>,
        entry: Ghost<(Seq<char>, bool)>,
        jw: Ghost<int>,
    )
        requires
            old(self).wf(),
            old(self).node_ok(*node),
            (old(self).phase is Ready),
            !entry@.1,
            forall|i: int|
                0 <= i < links@.len() ==> split_links_spec(entry@.0).contains(
                    #[trigger] links@[i]@,
                ),
            log_entry_matches(
                old(self).lookup_log(),
                old(self).strategy_view(),
                node.title(),
                entry@,
                jw@,
            ),
        ensures
            final(self).wf(),
            final(self).lookup_log() == old(self).lookup_log(),
            final(self).strategy_view() == old(self).strategy_view(),
            final(self).goal_view() == old(self).goal_view(),
            final(self).start_view() == old(self).start_view(),
            old(self).visited_view().subset_of(final(self).visited_view()),
            final(self).visited_view().subset_of(
                old(self).visited_view().union(entry_titles(entry@.0, entry@.1)),
            ),
            (final(self).visited_view().len() > old(self).visited_view().len()) || (final(self).visited_view() == old(self).visited_view() && final(self).frontier_len() == old(self).frontier_len() && final(self).phase_rank() == 0),
            expanded_with(*old(self), *final(self), *node, links@.map_values(|s: String| s@)),
    {
        proof {
            (*node.page).lemma_path_nonempty();
        }
        let ghost v0 = old(self).visited_view();
        let ghost f0 = old(self).frontier_titles();
        let ghost lv = links@.map_values(|s: String| s@);
        let ghost g = old(self).goal_view();
        let ghost sr = schedule_links(v0, lv, g);
        let ghost mut added: Seq<Seq<char>> = seq![];
        proof {
            assert(lv.skip(0) =~= lv);
            assert(self.frontier_titles() =~= f0 + added);
        }
        let n = links.len();
        let mut i: usize = 0;
        while i < n
            invariant
                i <= n,
                n == links@.len(),
                self.wf(),
                self.node_ok(*node),
                self.phase is Ready,
                self.lookup_log() == old(self).lookup_log(),
                self.strategy_view() == old(self).strategy_view(),
                self.goal_view() == old(self).goal_view(),
                self.start_view() == old(self).start_view(),
                node.path().len() >= 1,
                node.path().last().0 == node.title(),
                !entry@.1,
                forall|k: int|
                    0 <= k < links@.len() ==> split_links_spec(entry@.0).contains(
                        #[trigger] links@[k]@,
                    ),
                log_entry_matches(
                    old(self).lookup_log(),
                    old(self).strategy_view(),
                    node.title(),
                    entry@,
                    jw@,
                ),
                old(self).visited_view().subset_of(self.visited@),
                self.visited@.subset_of(
                    old(self).visited_view().union(entry_titles(entry@.0, entry@.1)),
                ),
                self.visited@.len() == old(self).visited_view().len() ==> (self.visited@ == old(self).visited_view() && self.frontier@.len() == old(self).frontier_len()),
                v0 == old(self).visited_view(),
                f0 == old(self).frontier_titles(),
                g == old(self).goal_view(),
                lv == links@.map_values(|s: String| s@),
                sr == schedule_links(v0, lv, g),
                self.frontier_titles() == f0 + added,
                sr.0 == schedule_links(self.visited@, lv.skip(i as int), g).0,
                sr.1 == added + schedule_links(self.visited@, lv.skip(i as int), g).1,
                sr.2 == schedule_links(self.visited@, lv.skip(i as int), g).2,
            decreases n - i,
        {
            let ghost tail = schedule_links(self.visited@, lv.skip(i as int), g);
            proof {
                assert(links@[i as int]@ == lv[i as int]);
                assert(lv.skip(i as int).len() > 0);
                assert(lv.skip(i as int)[0] == lv[i as int]);
                assert(lv.skip(i as int).drop_first() =~= lv.skip(i + 1));
            }
            let link = &links[i];
            if !link.as_str().is_empty() {
                proof {
                    lemma_hop_found(
                        self.log@,
                        self.strategy,
                        node.title(),
                        entry@,
                        (links@[i as int]@, false),
                        jw@,
                    );
                    lemma_path_extend(
                        self.log@,
                        self.strategy,
                        node.path(),
                        (links@[i as int]@, false),
                    );
                }
                if *link == self.goal {
                    let child = PageHolder::add_to_path(node, link.clone(), false);
                    proof {
                        (*child.page).lemma_path_nonempty();
                        assert(child.path()[0] == node.path()[0]);
                        assert(child.path() =~= node.path().push((links@[i as int]@, false)));
                    }
                    self.phase = Phase::Finished(SearchOutcome::Found(child));
                    proof {
                        lemma_len_subset(old(self).visited_view(), self.visited@);
                        assert(lv[i as int] == g);
                        assert(tail.0 == self.visited@ && tail.2 == true);
                        assert(tail.1 =~= Seq::<Seq<char>>::empty());
                        assert(sr.1 =~= added);
                        assert(self.frontier_titles() == f0 + sr.1);
                        assert(child.path() =~= node.path().push((g, false)));
                        assert(found_with(*self, node.path().push((g, false))));
                    }
                    return;
                }
                let ghost visited_before = self.visited@;
                proof {
                    lemma_len_subset(old(self).visited_view(), visited_before);
                    assert(split_links_spec(entry@.0).to_set().contains(links@[i as int]@));
                }
                if self.visited.insert(link) {
                    proof {
                        assert(!visited_before.contains(lv[i as int]));
                        assert(self.visited@ == visited_before.insert(lv[i as int]));
                    }
                    let child = PageHolder::add_to_path(node, link.clone(), false);
                    proof {
                        assert(child.path()[0] == node.path()[0]);
                        assert(child.path() =~= node.path().push((links@[i as int]@, false)));
                    }
                    let ghost frontier_before = self.frontier@;
                    self.frontier.push_back(child);
                    proof {
                        assert(self.frontier@ =~= frontier_before.push(child));
                        assert forall|k: int|
                            0 <= k < self.frontier@.len() implies self.node_ok(
                            #[trigger] self.frontier@[k],
                        ) by {
                            if k < frontier_before.len() {
                                assert(frontier_before[k] == self.frontier@[k]);
                            }
                        }
                        lemma_len_subset(old(self).visited_view(), self.visited@);
                        let rest = schedule_links(self.visited@, lv.skip(i + 1), g);
                        assert(tail.0 == rest.0);
                        assert(tail.1 == seq![lv[i as int]] + rest.1);
                        assert(tail.2 == rest.2);
                        assert(self.frontier_titles() =~= (f0 + added).push(child.title()));
                        added = added + seq![lv[i as int]];
                        assert(self.frontier_titles() =~= f0 + added);
                        assert(sr.1 =~= added + rest.1);
                    }
                } else {
                    proof {
                        assert(self.visited@ =~= visited_before);
                        assert(visited_before.contains(lv[i as int]));
                    }
                }
            }
            i = i + 1;
        }
        proof {
            lemma_len_subset(old(self).visited_view(), self.visited@);
            assert(lv.skip(n as int) =~= Seq::<Seq<char>>::empty());
            let tail_end = schedule_links(self.visited@, lv.skip(n as int), g);
            assert(tail_end.0 == self.visited@ && tail_end.2 == false);
            assert(tail_end.1 =~= Seq::<Seq<char>>::empty());
            assert(sr.1 =~= added);
            assert(self.frontier_titles() == f0 + sr.1);
        }
        self.phase = Phase::Ready;
    }
}

/// Runs the whole search against an in-memory store, answering every lookup
/// the engine asks for. Terminates on every finite store: the visited set can
/// only grow within the store's finite title universe, the frontier shrinks
/// when it does not, and each redirect chain is cut off by the depth bound.
pub fn search(store: &Store, start: String, goal: String, strategy: NormalizeStrategy) -> (r:
    SearchOutcome)
    requires
        store.wf(),
    ensures
        match r {
            SearchOutcome::Found(n) => {
                &&& n.path().len() >= 1
                &&& n.path()[0] == ((start@, false))
                &&& n.path().last().0 == goal@
                &&& store_path_valid(store@, strategy, n.path())
            },
            SearchOutcome::Exhausted => start@ != goal@,
        },
{
    let ghost universe = store.title_universe().insert(start@);
    proof {
        store.lemma_universe_finite();
    }
    let mut engine = Engine::new(start, goal, strategy);
    loop
        invariant
            engine.wf(),
            engine.goal_view() == goal@,
            engine.start_view() == start@,
            engine.strategy_view() == strategy,
            engine.visited_view().subset_of(universe),
            universe.finite(),
            store.wf(),
            universe == store.title_universe().insert(start@),
            forall|j: int|
                0 <= j < engine.lookup_log().len() ==> (#[trigger] engine.lookup_log()[j]).1
                    == lookup_model(store@, engine.lookup_log()[j].0),
            start@ == goal@ ==> (!engine.is_done() && engine.phase_rank() == 0
                && engine.frontier_len() > 0 && engine.frontier_titles()[0] == goal@),
        decreases
                universe.len() - engine.visited_view().len(),
                engine.frontier_len(),
                engine.phase_rank(),
    {
        proof {
            lemma_len_subset(engine.visited_view(), universe);
        }
        match engine.next_action() {
            Action::Done(outcome) => {
                proof {
                    match &outcome {
                        SearchOutcome::Found(n) => {
                            lemma_justified_path_in_store(
                                store@,
                                engine.lookup_log(),
                                strategy,
                                n.path(),
                            );
                        },
                        SearchOutcome::Exhausted => {},
                    }
                }
                return outcome;
            },
            Action::Lookup(title) => {
                let ghost log_before = engine.lookup_log();
                let found: Option<Entry> = match store.lookup(&title) {
                    Some(e) => {
                        proof {
                            store.lemma_entry_titles_in_universe(title@);
                        }
                        Some(e.duplicate())
                    },
                    None => None,
                };
                proof {
                    assert(opt_entry_view(found) == lookup_model(store@, title@));
                }
                engine.provide(found);
                proof {
                    lemma_len_subset(engine.visited_view(), universe);
                    assert(engine.lookup_log() =~= log_before.push(
                        (title@, opt_entry_view(found)),
                    ));
                }
            },
        }
    }
}

} // verus!
