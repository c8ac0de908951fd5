//! The adjacency store: a read-only, title-keyed table of entries. Each entry
//! is either a list of outbound link titles (joined by the reserved delimiter)
//! or a redirect to a single target title; an empty redirect target marks a
//! namespace excluded by policy.

use vstd::prelude::*;
use crate::links::split_links_spec;

verus! {

broadcast use vstd::seq_lib::seq_to_set_is_finite;

/// One stored row: the payload string and whether it is a redirect.
pub struct Entry {
    /// For a redirect, the target title (possibly empty); otherwise the
    /// outbound link titles joined by the reserved delimiter.
    pub payload: String,
    /// Whether this entry aliases another title instead of listing links.
    pub is_redirect: bool,
}

impl View for Entry {
    type V = (Seq<char>, bool);

    open spec fn view(&self) -> (Seq<char>, bool) {
        (self.payload@, self.is_redirect)
    }
}

impl Entry {
    /// A field-for-field copy of the entry.
    pub fn duplicate(&self) -> (e: Entry)
        ensures
            e == *self,
    {
        Entry { payload: self.payload.clone(), is_redirect: self.is_redirect }
    }
}

/// The titles an entry can put in play during a search: the redirect target,
/// or every link title of a non-redirect payload.
pub open spec fn entry_titles(payload: Seq<char>, is_redirect: bool) -> Set<Seq<char>> {
    if is_redirect {
        set![payload]
    } else {
        split_links_spec(payload).to_set()
    }
}

/// The titles that any of the rows can put in play.
pub open spec fn rows_titles(rows: Seq<(String, Entry)>) -> Set<Seq<char>>
    decreases rows.len(),
{
    if rows.len() == 0 {
        Set::empty()
    } else {
        rows_titles(rows.drop_last()).union(
            entry_titles(rows.last().1.payload@, rows.last().1.is_redirect),
        )
    }
}

/// The persisted lookup table, keyed by exact-byte title.
pub struct Store {
    rows: Vec<(String, Entry)>,
}

impl View for Store {
    type V = Map<Seq<char>, (Seq<char>, bool)>;

    closed spec fn view(&self) -> Map<Seq<char>, (Seq<char>, bool)> {
        Map::new(|t: Seq<char>| self.contains_title(t), |t: Seq<char>| self.entry_view_at(t))
    }
}

impl Store {
    /// Keys are pairwise distinct, as a primary key guarantees.
    pub closed spec fn wf(&self) -> bool {
        forall|i: int, j: int|
            0 <= i < j < self.rows@.len() ==> self.rows@[i].0@ != self.rows@[j].0@
    }

    pub closed spec fn contains_title(&self, t: Seq<char>) -> bool {
        exists|i: int| 0 <= i < self.rows@.len() && self.rows@[i].0@ == t
    }

    pub closed spec fn title_index(&self, t: Seq<char>) -> int {
        choose|i: int| 0 <= i < self.rows@.len() && self.rows@[i].0@ == t
    }

    pub closed spec fn entry_view_at(&self, t: Seq<char>) -> (Seq<char>, bool) {
        self.rows@[self.title_index(t)].1@
    }

    /// Every title that any stored entry can put in play.
    pub closed spec fn title_universe(&self) -> Set<Seq<char>> {
        rows_titles(self.rows@)
    }

    /// An empty table.
    pub fn new() -> (s: Store)
        ensures
            s.wf(),
            s@ == Map::<Seq<char>, (Seq<char>, bool)>::empty(),
            s.title_universe() == Set::<Seq<char>>::empty(),
    {
        let s = Store { rows: Vec::new() };
        proof {
            assert(s@ =~= Map::<Seq<char>, (Seq<char>, bool)>::empty());
        }
        s
    }

    /// Adds a row under a fresh title; a duplicate key is rejected, as the
    /// table's primary key rejects it.
    pub fn put(&mut self, title: String, payload: String, is_redirect: bool) -> (r: bool)
        requires
            old(self).wf(),
        ensures
            final(self).wf(),
            r == !old(self)@.contains_key(title@),
            r ==> final(self)@ == old(self)@.insert(title@, (payload@, is_redirect)),
            !r ==> *final(self) == *old(self),
    {
        let n = self.rows.len();
        let mut i: usize = 0;
        while i < n
            invariant
                i <= n,
                n == self.rows@.len(),
                *self == *old(self),
                self.wf(),
                forall|k: int| 0 <= k < i ==> self.rows@[k].0@ != title@,
            decreases n - i,
        {
            if self.rows[i].0 == title {
                proof {
                    assert(self.contains_title(title@));
                }
                return false;
            }
            i = i + 1;
        }
        proof {
            assert(!self.contains_title(title@));
        }
        let ghost old_rows = self.rows@;
        let ghost old_view = self@;
        self.rows.push((title, Entry { payload, is_redirect }));
        proof {
            let rows = self.rows@;
            assert(self.wf()) by {
                assert forall|a: int, b: int|
                    0 <= a < b < rows.len() implies rows[a].0@ != rows[b].0@ by {
                    if b < old_rows.len() {
                        assert(old_rows[a].0@ != old_rows[b].0@);
                    } else {
                        assert(old_rows[a].0@ == rows[a].0@);
                        if rows[a].0@ == title@ {
                            assert(old(self).contains_title(title@));
                        }
                    }
                }
            }
            assert(self@ =~= old_view.insert(title@, (payload@, is_redirect))) by {
                assert forall|t: Seq<char>| #[trigger]
                    self.contains_title(t) == (old(self).contains_title(t) || t == title@) by {
                    if self.contains_title(t) {
                        let j = choose|j: int| 0 <= j < rows.len() && rows[j].0@ == t;
                        if j < old_rows.len() {
                            assert(old_rows[j].0@ == t);
                            assert(old(self).contains_title(t));
                        } else {
                            assert(t == title@);
                        }
                    }
                    if old(self).contains_title(t) {
                        let j = choose|j: int|
                            0 <= j < old_rows.len() && old_rows[j].0@ == t;
                        assert(rows[j].0@ == t);
                        assert(self.contains_title(t));
                    }
                    if t == title@ {
                        assert(rows[old_rows.len() as int].0@ == t);
                        assert(self.contains_title(t));
                    }
                }
                assert forall|t: Seq<char>| self.contains_title(t) implies #[trigger]
                    self.entry_view_at(t) == (if t == title@ {
                        (payload@, is_redirect)
                    } else {
                        old(self).entry_view_at(t)
                    }) by {
                    let j = self.title_index(t);
                    assert(0 <= j < rows.len() && rows[j].0@ == t);
                    if t == title@ {
                        if j < old_rows.len() {
                            assert(old(self).contains_title(t));
                        }
                        assert(j == old_rows.len());
                    } else {
                        assert(j < old_rows.len());
                        let j0 = old(self).title_index(t);
                        assert(0 <= j0 < old_rows.len() && old_rows[j0].0@ == t);
                        assert(rows[j0].0@ == t);
                        if j != j0 {
                            assert(false);
                        }
                    }
                }
            }
        }
        true
    }

    /// Looks a title up by exact byte identity; the store never normalizes.
    pub fn lookup(&self, title: &String) -> (r: Option<&Entry>)
        requires
            self.wf(),
        ensures
            match r {
                Some(e) => self@.contains_key(title@) && e@ == self@[title@],
                None => !self@.contains_key(title@),
            },
    {
        let n = self.rows.len();
        let mut i: usize = 0;
        while i < n
            invariant
                i <= n,
                n == self.rows@.len(),
                self.wf(),
                forall|k: int| 0 <= k < i ==> self.rows@[k].0@ != title@,
            decreases n - i,
        {
            if self.rows[i].0 == *title {
                proof {
                    assert(self.contains_title(title@));
                    let j = self.title_index(title@);
                    assert(0 <= j < self.rows@.len() && self.rows@[j].0@ == title@);
                    if j != i {
                        assert(false);
                    }
                }
                return Some(&self.rows[i].1);
            }
            i = i + 1;
        }
        proof {
            if self.contains_title(title@) {
                let j = self.title_index(title@);
                assert(self.rows@[j].0@ == title@);
                assert(false);
            }
        }
        None
    }

    /// The title universe is finite: a search can only ever schedule
    /// finitely many distinct titles.
    pub proof fn lemma_universe_finite(&self)
        ensures
            self.title_universe().finite(),
    {
        Self::lemma_rows_titles_finite(self.rows@);
    }

    proof fn lemma_rows_titles_finite(rows: Seq<(String, Entry)>)
        ensures
            rows_titles(rows).finite(),
        decreases rows.len(),
    {
        if rows.len() > 0 {
            Self::lemma_rows_titles_finite(rows.drop_last());
        }
    }

    proof fn lemma_row_titles_in_universe(rows: Seq<(String, Entry)>, i: int)
        requires
            0 <= i < rows.len(),
        ensures
            entry_titles(rows[i].1.payload@, rows[i].1.is_redirect).subset_of(rows_titles(rows)),
        decreases rows.len(),
    {
        if i == rows.len() - 1 {
            assert(rows[i] == rows.last());
        } else {
            Self::lemma_row_titles_in_universe(rows.drop_last(), i);
            assert(rows.drop_last()[i] == rows[i]);
        }
    }

    /// Whatever `lookup` returns, the titles that entry can put in play lie in
    /// the store's title universe.
    pub proof fn lemma_entry_titles_in_universe(&self, t: Seq<char>)
        requires
            self@.contains_key(t),
        ensures
            entry_titles(self@[t].0, self@[t].1).subset_of(self.title_universe()),
    {
        let j = self.title_index(t);
        assert(0 <= j < self.rows@.len() && self.rows@[j].0@ == t);
        Self::lemma_row_titles_in_universe(self.rows@, j);
        assert(self@[t] == self.rows@[j].1@);
    }
}

} // verus!
