//! The visited set: title-keyed membership that guarantees single expansion.
//! Equality is on the title value alone, never on the path node that
//! discovered it: the first node to reach a title wins, and every later
//! discovery of the same title is discarded.

use vstd::prelude::*;

verus! {

broadcast use vstd::seq_lib::seq_to_set_is_finite;

/// Titles already scheduled for expansion in this run.
pub struct VisitedSet {
    titles: Vec<String>,
}

impl View for VisitedSet {
    type V = Set<Seq<char>>;

    closed spec fn view(&self) -> Set<Seq<char>> {
        self.titles@.map_values(|s: String| s@).to_set()
    }
}

impl VisitedSet {
    /// No title is recorded twice.
    pub closed spec fn wf(&self) -> bool {
        forall|i: int, j: int|
            0 <= i < j < self.titles@.len() ==> self.titles@[i]@ != self.titles@[j]@
    }

    /// An empty set.
    pub fn new() -> (v: VisitedSet)
        ensures
            v.wf(),
            v@ == Set::<Seq<char>>::empty(),
            v@.finite(),
    {
        let v = VisitedSet { titles: Vec::new() };
        proof {
            assert(v.titles@.map_values(|s: String| s@) =~= Seq::<Seq<char>>::empty());
            assert(v@ =~= Set::<Seq<char>>::empty());
        }
        v
    }

    /// Membership keyed by the title value alone.
    pub fn contains(&self, title: &String) -> (r: bool)
        ensures
            r == self@.contains(title@),
    {
        let n = self.titles.len();
        let mut i: usize = 0;
        while i < n
            invariant
                i <= n,
                n == self.titles@.len(),
                forall|k: int| 0 <= k < i ==> self.titles@[k]@ != title@,
            decreases n - i,
        {
            if self.titles[i] == *title {
                proof {
                    let m = self.titles@.map_values(|s: String| s@);
                    assert(m[i as int] == title@);
                    assert(m.contains(title@));
                }
                return true;
            }
            i = i + 1;
        }
        proof {
            let m = self.titles@.map_values(|s: String| s@);
            if m.contains(title@) {
                let k = choose|k: int| 0 <= k < m.len() && m[k] == title@;
                assert(self.titles@[k]@ == title@);
                assert(false);
            }
        }
        false
    }

    /// Atomic check-and-set: records the title and reports whether it was new.
    /// A title is marked at scheduling time, so two frontier entries in the
    /// same layer can never both schedule it.
    pub fn insert(&mut self, title: &String) -> (r: bool)
        requires
            old(self).wf(),
        ensures
            final(self).wf(),
            r == !old(self)@.contains(title@),
            final(self)@ == old(self)@.insert(title@),
            final(self)@.finite(),
            r ==> final(self)@.len() == old(self)@.len() + 1,
            !r ==> *final(self) == *old(self),
    {
        if self.contains(title) {
            proof {
                assert(self@ =~= self@.insert(title@));
            }
            return false;
        }
        let ghost old_titles = self.titles@;
        self.titles.push(title.clone());
        proof {
            let f = |s: String| s@;
            assert(self.titles@.map_values(f) =~= old_titles.map_values(f).push(title@));
            old_titles.map_values(f).lemma_push_to_set_commute(title@);
            assert(self@ =~= old(self)@.insert(title@));
            assert(self.wf()) by {
                assert forall|i: int, j: int|
                    0 <= i < j < self.titles@.len() implies self.titles@[i]@ != self.titles@[j]@ by {
                    if j == self.titles@.len() - 1 {
                        let m = old_titles.map_values(f);
                        if old_titles[i]@ == title@ {
                            assert(m[i] == title@);
                            assert(m.contains(title@));
                            assert(old(self)@.contains(title@));
                        }
                    }
                }
            }
        }
        true
    }

    /// How many distinct titles have been scheduled.
    pub fn len(&self) -> (n: usize)
        requires
            self.wf(),
        ensures
            n == self@.len(),
    {
        proof {
            let f = |s: String| s@;
            let m = self.titles@.map_values(f);
            assert forall|i: int, j: int| 0 <= i < j < m.len() implies m[i] != m[j] by {
                assert(self.titles@[i]@ != self.titles@[j]@);
            }
            m.unique_seq_to_set();
        }
        self.titles.len()
    }
}

/// Single expansion: once a title has been recorded, a second `insert` of the
/// same title reports it as already present and leaves the set unchanged,
/// whatever was inserted in between included it or not.
pub proof fn lemma_single_expansion(
    v0: Set<Seq<char>>,
    v1: Set<Seq<char>>,
    v2: Set<Seq<char>>,
    t: Seq<char>,
    second_was_new: bool,
)
    requires
        v1 == v0.insert(t),
        second_was_new == !v1.contains(t),
        v2 == v1.insert(t),
    ensures
        !second_was_new,
        v2 == v1,
{
    assert(v2 =~= v1);
}

} // verus!
