//! Directory sets and the diff engine: a `DirSet` is a unique, unordered
//! collection of root-relative directory paths, and `diff` is the pure
//! set difference between the enumerations of two roots.

use vstd::prelude::*;

verus! {

/// A set of root-relative directory paths, each held once.
pub struct DirSet {
    items: Vec<String>,
}

/// Pushing an element onto a sequence adds it to the induced set.
pub proof fn lemma_push_to_set(s: Seq<Seq<char>>, x: Seq<char>)
    ensures
        s.push(x).to_set() =~= s.to_set().insert(x),
{
    assert forall|y: Seq<char>| s.push(x).to_set().contains(y) implies s.to_set().insert(
        x,
    ).contains(y) by {
        let i = choose|i: int| 0 <= i < s.push(x).len() && s.push(x)[i] == y;
        if i < s.len() {
            assert(s[i] == y);
        }
    }
    assert forall|y: Seq<char>| s.to_set().insert(x).contains(y) implies s.push(
        x,
    ).to_set().contains(y) by {
        if y == x {
            assert(s.push(x)[s.len() as int] == y);
        } else {
            let i = choose|i: int| 0 <= i < s.len() && s[i] == y;
            assert(s.push(x)[i] == y);
        }
    }
}

impl DirSet {
    /// The paths, in insertion order.
    pub closed spec fn seq_view(&self) -> Seq<Seq<char>> {
        self.items.deep_view()
    }

    /// No path is held twice.
    pub closed spec fn wf(&self) -> bool {
        self.seq_view().no_duplicates()
    }

    /// An empty set.
    pub fn new() -> (r: DirSet)
        ensures
            r.wf(),
            r@ == Set::<Seq<char>>::empty(),
    {
        let items: Vec<String> = Vec::new();
        proof {
            assert(items.deep_view() =~= Seq::<Seq<char>>::empty());
            assert(items.deep_view().to_set() =~= Set::<Seq<char>>::empty());
        }
        DirSet { items }
    }

    /// Whether `path` is in the set.
    pub fn contains(&self, path: &str) -> (r: bool)
        ensures
            r == self@.contains(path@),
    {
        let mut i: usize = 0;
        while i < self.items.len()
            invariant
                0 <= i <= self.items.len(),
                forall|j: int| 0 <= j < i ==> self.seq_view()[j] != path@,
            decreases self.items.len() - i,
        {
            if crate::paths::str_eq(self.items[i].as_str(), path) {
                assert(self.seq_view()[i as int] == path@);
                assert(self@.contains(path@));
                return true;
            }
            i = i + 1;
        }
        assert(!self@.contains(path@)) by {
            if self@.contains(path@) {
                let k = choose|k: int|
                    0 <= k < self.seq_view().len() && self.seq_view()[k] == path@;
            }
        }
        false
    }

    /// Adds `path`; a path already present is not added again.
    pub fn insert(&mut self, path: String)
        requires
            old(self).wf(),
        ensures
            final(self).wf(),
            final(self)@ == old(self)@.insert(path@),
    {
        if !self.contains(path.as_str()) {
            let ghost dv = self.seq_view();
            self.items.push(path);
            proof {
                assert(self.seq_view() =~= dv.push(path@));
                assert(self.seq_view().drop_last() =~= dv);
                lemma_push_to_set(dv, path@);
                assert(self@ =~= old(self)@.insert(path@));
            }
        } else {
            proof {
                assert(self@ =~= old(self)@.insert(path@));
            }
        }
    }

    /// How many paths the set holds.
    pub fn len(&self) -> (r: usize)
        requires
            self.wf(),
        ensures
            r == self@.len(),
    {
        proof {
            self.seq_view().unique_seq_to_set();
        }
        self.items.len()
    }

    /// Whether the set holds no path.
    pub fn is_empty(&self) -> (r: bool)
        requires
            self.wf(),
        ensures
            r == (self@ =~= Set::<Seq<char>>::empty()),
    {
        proof {
            self.seq_view().unique_seq_to_set();
            if self.seq_view().len() != 0 {
                assert(self@.contains(self.seq_view()[0]));
            }
            if self@.len() == 0 {
                assert(self@ =~= Set::<Seq<char>>::empty());
            }
        }
        self.items.len() == 0
    }

    /// The paths as a list, for callers that walk the set.
    pub fn as_vec(&self) -> (r: &Vec<String>)
        ensures
            r.deep_view() == self.seq_view(),
            r.deep_view().to_set() == self@,
    {
        &self.items
    }

    /// The union of two sets.
    pub fn union(&self, other: &DirSet) -> (r: DirSet)
        requires
            self.wf(),
            other.wf(),
        ensures
            r.wf(),
            r@ == self@.union(other@),
    {
        let mut out = DirSet { items: Vec::new() };
        proof {
            assert(out.seq_view() =~= Seq::<Seq<char>>::empty());
            assert(out@ =~= Set::<Seq<char>>::empty());
        }
        let mut i: usize = 0;
        while i < self.items.len()
            invariant
                out.wf(),
                0 <= i <= self.items.len(),
                out@ =~= self.seq_view().take(i as int).to_set(),
            decreases self.items.len() - i,
        {
            let ghost pre = out@;
            out.insert(self.items[i].clone());
            proof {
                assert(self.seq_view().take(i + 1) =~= self.seq_view().take(i as int).push(
                    self.seq_view()[i as int],
                ));
                lemma_push_to_set(self.seq_view().take(i as int), self.seq_view()[i as int]);
            }
            i = i + 1;
        }
        proof {
            assert(self.seq_view().take(self.seq_view().len() as int) =~= self.seq_view());
        }
        let mut j: usize = 0;
        while j < other.items.len()
            invariant
                out.wf(),
                0 <= j <= other.items.len(),
                out@ =~= self@.union(other.seq_view().take(j as int).to_set()),
            decreases other.items.len() - j,
        {
            out.insert(other.items[j].clone());
            proof {
                assert(other.seq_view().take(j + 1) =~= other.seq_view().take(j as int).push(
                    other.seq_view()[j as int],
                ));
                lemma_push_to_set(other.seq_view().take(j as int), other.seq_view()[j as int]);
                assert(out@ =~= self@.union(other.seq_view().take(j + 1).to_set()));
            }
            j = j + 1;
        }
        proof {
            assert(other.seq_view().take(other.seq_view().len() as int) =~= other.seq_view());
        }
        out
    }

    /// The paths of this set that the other set lacks.
    pub fn difference(&self, other: &DirSet) -> (r: DirSet)
        requires
            self.wf(),
            other.wf(),
        ensures
            r.wf(),
            r@ == self@.difference(other@),
    {
        let mut out = DirSet { items: Vec::new() };
        proof {
            assert(out.seq_view() =~= Seq::<Seq<char>>::empty());
            assert(out@ =~= Set::<Seq<char>>::empty());
        }
        let mut i: usize = 0;
        while i < self.items.len()
            invariant
                out.wf(),
                0 <= i <= self.items.len(),
                out@ =~= self.seq_view().take(i as int).to_set().difference(other@),
            decreases self.items.len() - i,
        {
            proof {
                assert(self.seq_view().take(i + 1) =~= self.seq_view().take(i as int).push(
                    self.seq_view()[i as int],
                ));
                lemma_push_to_set(self.seq_view().take(i as int), self.seq_view()[i as int]);
            }
            if !other.contains(self.items[i].as_str()) {
                out.insert(self.items[i].clone());
            }
            proof {
                assert(out@ =~= self.seq_view().take(i + 1).to_set().difference(other@));
            }
            i = i + 1;
        }
        proof {
            assert(self.seq_view().take(self.seq_view().len() as int) =~= self.seq_view());
        }
        out
    }
}

impl View for DirSet {
    type V = Set<Seq<char>>;

    open spec fn view(&self) -> Set<Seq<char>> {
        self.seq_view().to_set()
    }
}

/// The two sides of a structural comparison: what the right root lacks
/// and what the left root lacks. The two sets are disjoint, and both are
/// empty exactly when the trees agree under the active filter.
pub struct DiffResult {
    pub missing_in_right: DirSet,
    pub missing_in_left: DirSet,
}

/// Pure set difference between two enumerated trees:
/// `missing_in_right` is `left − right` and `missing_in_left` is
/// `right − left`.
pub fn diff(left: &DirSet, right: &DirSet) -> (r: DiffResult)
    requires
        left.wf(),
        right.wf(),
    ensures
        r.missing_in_right.wf(),
        r.missing_in_left.wf(),
        r.missing_in_right@ == left@.difference(right@),
        r.missing_in_left@ == right@.difference(left@),
{
    DiffResult { missing_in_right: left.difference(right), missing_in_left: right.difference(left) }
}

/// Diffing a tree against itself reports nothing missing on either side;
/// with `diff`'s contract this gives that both result sets of
/// `diff(l, l)` are empty.
pub proof fn lemma_diff_self(s: Set<Seq<char>>)
    ensures
        s.difference(s) =~= Set::<Seq<char>>::empty(),
{
}

/// The two sides of a diff are disjoint: no path is at once missing in
/// the right tree and missing in the left tree.
pub proof fn lemma_diff_disjoint(l: Set<Seq<char>>, r: Set<Seq<char>>)
    ensures
        l.difference(r).intersect(r.difference(l)) =~= Set::<Seq<char>>::empty(),
{
}

/// Both sides of a diff are empty exactly when the two sets agree.
pub proof fn lemma_diff_empty_iff_equal(l: Set<Seq<char>>, r: Set<Seq<char>>)
    ensures
        (l.difference(r) =~= Set::<Seq<char>>::empty() && r.difference(l) =~= Set::<
            Seq<char>,
        >::empty()) <==> l =~= r,
{
    if l.difference(r) =~= Set::<Seq<char>>::empty() && r.difference(l) =~= Set::<
        Seq<char>,
    >::empty() {
        assert forall|x: Seq<char>| l.contains(x) implies r.contains(x) by {
            assert(!l.difference(r).contains(x));
        }
        assert forall|x: Seq<char>| r.contains(x) implies l.contains(x) by {
            assert(!r.difference(l).contains(x));
        }
    }
}

} // verus!
