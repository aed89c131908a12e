//! Points-to sets: an explicit array for small sets, a bit vector for large sets.

use vstd::prelude::*;

use crate::util::bit_vec::{BitIter, BitVec, Idx, index_set, bits_of};

verus! {

/// The number of elements a small set holds before it turns into a bit vector.
pub const SMALL_SET_CAPACITY: usize = 32;

/// A set of abstract objects that a pointer may point to.
pub trait PointsToSet<T: Idx>: Sized {
    /// The indices of the elements of the set.
    spec fn elems(&self) -> Set<int>;

    /// The set's representation is consistent.
    spec fn well_formed(&self) -> bool;

    fn new() -> (r: Self)
        ensures
            r.well_formed(),
            r.elems() == Set::<int>::empty(),
    ;

    /// Clear all elements.
    fn clear(&mut self)
        requires
            old(self).well_formed(),
        ensures
            final(self).well_formed(),
            final(self).elems() == Set::<int>::empty(),
    ;

    /// Count the number of elements in the set.
    fn count(&self) -> (r: usize)
        requires
            self.well_formed(),
        ensures
            self.elems().finite(),
            r == self.elems().len(),
    ;

    /// Returns `true` if `self` contains `elem`.
    fn contains(&self, elem: T) -> (r: bool)
        requires
            self.well_formed(),
        ensures
            r == self.elems().contains(elem.spec_index() as int),
    ;

    fn is_empty(&self) -> (r: bool)
        requires
            self.well_formed(),
        ensures
            r == (self.elems() == Set::<int>::empty()),
    ;

    /// Is `self` is a superset of `other`?
    fn superset(&self, other: &Self) -> (r: bool)
        requires
            self.well_formed(),
            other.well_formed(),
        ensures
            r == other.elems().subset_of(self.elems()),
    ;

    /// Adds `elem` to this set, returns true if n was not already in this set.
    fn insert(&mut self, elem: T) -> (r: bool)
        requires
            old(self).well_formed(),
            idx_ok::<T>(elem.spec_index() as int),
        ensures
            final(self).well_formed(),
            final(self).elems() == old(self).elems().insert(elem.spec_index() as int),
            r == !old(self).elems().contains(elem.spec_index() as int),
    ;

    fn remove(&mut self, elem: T) -> (r: bool)
        requires
            old(self).well_formed(),
        ensures
            final(self).well_formed(),
            final(self).elems() == old(self).elems().remove(elem.spec_index() as int),
            r == old(self).elems().contains(elem.spec_index() as int),
    ;

    fn union(&mut self, other: &Self) -> (r: bool)
        requires
            old(self).well_formed(),
            other.well_formed(),
        ensures
            final(self).well_formed(),
            final(self).elems() == old(self).elems().union(other.elems()),
            r == (final(self).elems() != old(self).elems()),
    ;

    fn subtract(&mut self, other: &Self) -> (r: bool)
        requires
            old(self).well_formed(),
            other.well_formed(),
        ensures
            final(self).well_formed(),
            final(self).elems() == old(self).elems().difference(other.elems()),
            r == (final(self).elems() != old(self).elems()),
    ;

    fn intersect(&mut self, other: &Self) -> (r: bool)
        requires
            old(self).well_formed(),
            other.well_formed(),
        ensures
            final(self).well_formed(),
            final(self).elems().subset_of(old(self).elems()),
            old(self).elems().intersect(other.elems()).subset_of(final(self).elems()),
    ;
}

/// Hybrid implementation of points to set,
/// which uses an explicit array for small sets, and a bit vector for large sets.
pub struct HybridPointsToSet<T> {
    pub points_to: HybridSet<T>,
}

impl<T: Idx> View for HybridPointsToSet<T> {
    type V = Set<int>;

    open spec fn view(&self) -> Set<int> {
        self.points_to@
    }
}

impl<T: Idx> Clone for HybridPointsToSet<T> {
    fn clone(&self) -> (r: Self)
        ensures
            self.points_to.wf() ==> r.points_to.wf(),
            self.points_to.wf() ==> r@ == self@,
            (r.points_to is SmallSet) == (self.points_to is SmallSet),
    {
        HybridPointsToSet { points_to: self.points_to.clone() }
    }
}

impl<T: Idx> Clone for HybridSet<T> {
    fn clone(&self) -> (r: Self)
        ensures
            self.wf() ==> r.wf(),
            self.wf() ==> r@ == self@,
            (r is SmallSet) == (self is SmallSet),
    {
        self.duplicate()
    }
}

impl<T: Idx> HybridSet<T> {
    fn duplicate(&self) -> (r: Self)
        ensures
            self.wf() ==> r.wf(),
            self.wf() ==> r@ == self@,
            (r is SmallSet) == (self is SmallSet),
    {
        match self {
            HybridSet::SmallSet(small) => HybridSet::SmallSet(copy_small(small)),
            HybridSet::LargeSet(large) => {
                let c = large.clone();
                assert(c@ == large@);
                HybridSet::LargeSet(c)
            },
        }
    }
}

impl<T: Idx> HybridPointsToSet<T> {
    pub fn iter(&self) -> (r: HybridIter<'_, T>)
        requires
            self.points_to.wf(),
        ensures
            r.wf(),
            r.remaining() == self@,
            r.remaining().finite(),
            (r is LargeIter) == (self.points_to is LargeSet),
    {
        self.points_to.iter()
    }
}

impl<T: Idx> PointsToSet<T> for HybridPointsToSet<T> {
    open spec fn elems(&self) -> Set<int> {
        self.points_to@
    }

    open spec fn well_formed(&self) -> bool {
        self.points_to.wf()
    }

    fn new() -> (r: Self)
        ensures
            r.points_to is SmallSet,
    {
        HybridPointsToSet { points_to: HybridSet::new() }
    }

    fn clear(&mut self) {
        self.points_to.clear();
    }

    fn count(&self) -> (r: usize) {
        self.points_to.count()
    }

    fn contains(&self, elem: T) -> (r: bool) {
        self.points_to.contains(elem)
    }

    fn is_empty(&self) -> (r: bool) {
        self.points_to.is_empty()
    }

    fn superset(&self, other: &HybridPointsToSet<T>) -> (r: bool) {
        self.points_to.superset(&other.points_to)
    }

    fn insert(&mut self, elem: T) -> (r: bool)
        ensures
            (final(self).points_to is SmallSet) == (old(self).points_to is SmallSet && (old(self)@.contains(elem.spec_index() as int) || old(self)@.len() < SMALL_SET_CAPACITY)),
    {
        self.points_to.insert(elem)
    }

    fn remove(&mut self, elem: T) -> (r: bool)
        ensures
            (final(self).points_to is SmallSet) == (old(self).points_to is SmallSet),
    {
        self.points_to.remove(elem)
    }

    fn union(&mut self, other: &HybridPointsToSet<T>) -> (r: bool)
        ensures
            r == !other@.subset_of(old(self)@),
    {
        self.points_to.union(&other.points_to)
    }

    fn subtract(&mut self, other: &HybridPointsToSet<T>) -> (r: bool) {
        self.points_to.subtract(&other.points_to)
    }

    fn intersect(&mut self, other: &HybridPointsToSet<T>) -> (r: bool)
        ensures
            final(self)@ == Set::new(
                |i: int| old(self)@.contains(i) && old(self).points_to.intersect_keeps(other.points_to, i),
            ),
            r == if old(self).points_to is LargeSet && other.points_to is SmallSet {
                !other@.subset_of(old(self)@)
            } else {
                final(self)@ != old(self)@
            },
            (final(self).points_to is SmallSet) == (old(self).points_to is SmallSet
                || other.points_to is SmallSet),
    {
        self.points_to.intersect(&other.points_to)
    }
}

/// An index that a points-to set can hold: it is one that `T` can stand for,
/// and it leaves room for the words of a bit vector that holds it.
pub open spec fn idx_ok<T: Idx>(i: int) -> bool {
    &&& 0 <= i
    &&& i + 64 <= usize::MAX
    &&& i <= T::max_index()
}

/// No two values of `s` stand for the same index.
pub open spec fn distinct_indices<T: Idx>(s: Seq<T>) -> bool {
    forall|i: int, j: int|
        0 <= i < s.len() && 0 <= j < s.len() && i != j ==> #[trigger] s[i].spec_index()
            != #[trigger] s[j].spec_index()
}

/// A sequence of values that stand for distinct indices holds as many indices as values.
pub proof fn lemma_index_set_card<T: Idx>(s: Seq<T>)
    requires
        distinct_indices(s),
    ensures
        index_set(s).finite(),
        index_set(s).len() == s.len(),
    decreases s.len(),
{
    if s.len() == 0 {
        assert(index_set(s) =~= Set::<int>::empty());
    } else {
        let d = s.drop_last();
        assert(distinct_indices(d)) by {
            assert forall|i: int, j: int|
                0 <= i < d.len() && 0 <= j < d.len() && i != j implies #[trigger] d[i].spec_index()
                != #[trigger] d[j].spec_index() by {
                assert(d[i] == s[i] && d[j] == s[j]);
            }
        }
        lemma_index_set_card(d);
        lemma_index_set_push(d, s.last());
        assert(d.push(s.last()) =~= s);
        if index_set(d).contains(s.last().spec_index() as int) {
            let j = choose|j: int| 0 <= j < d.len() && d[j].spec_index() == s.last().spec_index();
            assert(s[j] == d[j]);
            assert(s[s.len() - 1] == s.last());
        }
    }
}

/// Pushing a value adds its index.
pub proof fn lemma_index_set_push<T: Idx>(s: Seq<T>, x: T)
    ensures
        index_set(s.push(x)) == index_set(s).insert(x.spec_index() as int),
{
    let t = s.push(x);
    assert forall|i: int| #[trigger] index_set(t).contains(i) == index_set(s).insert(
        x.spec_index() as int,
    ).contains(i) by {
        if index_set(t).contains(i) {
            let j = choose|j: int| 0 <= j < t.len() && t[j].spec_index() == i;
            if j < s.len() {
                assert(s[j] == t[j]);
            }
        }
        if index_set(s).contains(i) {
            let j = choose|j: int| 0 <= j < s.len() && s[j].spec_index() == i;
            assert(t[j] == s[j]);
        }
        if i == x.spec_index() {
            assert(t[s.len() as int] == x);
        }
    }
    assert(index_set(t) =~= index_set(s).insert(x.spec_index() as int));
}

/// A set of indices held either as a small array or as a bit vector.
pub enum HybridSet<T> {
    SmallSet(Vec<T>),
    LargeSet(BitVec<T>),
}

impl<T: Idx> View for HybridSet<T> {
    type V = Set<int>;

    open spec fn view(&self) -> Set<int> {
        match self {
            HybridSet::SmallSet(small) => index_set(small@),
            HybridSet::LargeSet(large) => large@,
        }
    }
}

impl<T: Idx> HybridSet<T> {
    pub open spec fn wf(&self) -> bool {
        match self {
            HybridSet::SmallSet(small) => {
                &&& small@.len() <= SMALL_SET_CAPACITY
                &&& distinct_indices(small@)
                &&& forall|j: int| 0 <= j < small@.len() ==> idx_ok::<T>(#[trigger] small@[j].spec_index() as int)
            },
            HybridSet::LargeSet(large) => {
                &&& large.wf()
                &&& forall|i: int| #[trigger] large@.contains(i) ==> idx_ok::<T>(i)
            },
        }
    }

    /// Every index held is one that a points-to set can hold, and there are finitely many.
    pub proof fn lemma_wf_view(&self)
        requires
            self.wf(),
        ensures
            self@.finite(),
            forall|i: int| #[trigger] self@.contains(i) ==> idx_ok::<T>(i),
    {
        match self {
            HybridSet::SmallSet(small) => {
                lemma_index_set_card(small@);
                assert forall|i: int| #[trigger] self@.contains(i) implies idx_ok::<T>(i) by {
                    let j = choose|j: int| 0 <= j < small@.len() && small@[j].spec_index() == i;
                }
            },
            HybridSet::LargeSet(large) => {
                crate::util::bit_vec::lemma_bits_card(large.words_view());
            },
        }
    }

    /// A small set holds at most `SMALL_SET_CAPACITY` elements.
    pub proof fn lemma_small_len(&self)
        requires
            self.wf(),
        ensures
            *self is SmallSet ==> self@.len() <= SMALL_SET_CAPACITY,
    {
        if let HybridSet::SmallSet(small) = self {
            lemma_index_set_card(small@);
        }
    }

    pub fn new() -> (r: Self)
        ensures
            r.wf(),
            r is SmallSet,
            r@ == Set::<int>::empty(),
    {
        let r = HybridSet::SmallSet(Vec::with_capacity(SMALL_SET_CAPACITY));
        assert(r@ =~= Set::<int>::empty());
        r
    }

    /// Clear all elements.
    pub fn clear(&mut self)
        requires
            old(self).wf(),
        ensures
            final(self).wf(),
            *final(self) is SmallSet,
            final(self)@ == Set::<int>::empty(),
    {
        *self = HybridSet::SmallSet(Vec::with_capacity(SMALL_SET_CAPACITY));
        assert(self@ =~= Set::<int>::empty());
    }

    /// Count the number of elements in the set.
    pub fn count(&self) -> (r: usize)
        requires
            self.wf(),
        ensures
            self@.finite(),
            r == self@.len(),
    {
        match self {
            HybridSet::SmallSet(small) => {
                proof {
                    lemma_index_set_card(small@);
                }
                small.len()
            },
            HybridSet::LargeSet(large) => large.count(),
        }
    }

    /// Returns `true` if `self` contains `elem`.
    pub fn contains(&self, elem: T) -> (r: bool)
        requires
            self.wf(),
        ensures
            r == self@.contains(elem.spec_index() as int),
    {
        match self {
            HybridSet::SmallSet(small) => small_contains(small, elem),
            HybridSet::LargeSet(large) => large.contains(elem),
        }
    }

    pub fn is_empty(&self) -> (r: bool)
        requires
            self.wf(),
        ensures
            r == (self@ == Set::<int>::empty()),
    {
        match self {
            HybridSet::SmallSet(small) => {
                proof {
                    lemma_index_set_card(small@);
                    if small@.len() == 0 {
                        assert(index_set(small@) =~= Set::<int>::empty());
                    }
                }
                small.len() == 0
            },
            HybridSet::LargeSet(large) => large.is_empty(),
        }
    }
}

impl<T: Idx> HybridSet<T> {
    /// Adds `elem` to this set, returns true if n was not already in this set.
    pub fn insert(&mut self, elem: T) -> (r: bool)
        requires
            old(self).wf(),
            idx_ok::<T>(elem.spec_index() as int),
        ensures
            final(self).wf(),
            final(self)@ == old(self)@.insert(elem.spec_index() as int),
            r == !old(self)@.contains(elem.spec_index() as int),
            (*final(self) is SmallSet) == (*old(self) is SmallSet && (old(self)@.contains(
                elem.spec_index() as int,
            ) || old(self)@.len() < SMALL_SET_CAPACITY)),
    {
        proof {
            old(self).lemma_wf_view();
        }
        match self {
            HybridSet::SmallSet(small) => {
                proof {
                    lemma_index_set_card(small@);
                }
                if small_contains(small, elem) {
                    // The set is small and `elem` is present.
                    assert(old(self)@.insert(elem.spec_index() as int) =~= old(self)@);
                    return false;
                }
                if small.len() < SMALL_SET_CAPACITY {
                    // The set is small and has space for `elem`.
                    let ghost before = small@;
                    small.push(elem);
                    proof {
                        lemma_index_set_push(before, elem);
                        assert(small@ == before.push(elem));
                        assert forall|i: int, j: int|
                            0 <= i < small@.len() && 0 <= j < small@.len() && i != j implies #[trigger] small@[i].spec_index()
                            != #[trigger] small@[j].spec_index() by {
                            if i < before.len() && j < before.len() {
                                assert(small@[i] == before[i] && small@[j] == before[j]);
                            } else if i < before.len() {
                                assert(small@[i] == before[i]);
                                assert(index_set(before).contains(before[i].spec_index() as int));
                            } else {
                                assert(small@[j] == before[j]);
                                assert(index_set(before).contains(before[j].spec_index() as int));
                            }
                        }
                        assert forall|j: int| 0 <= j < small@.len() implies idx_ok::<T>(#[trigger] small@[j].spec_index() as int) by {
                            if j < before.len() {
                                assert(small@[j] == before[j]);
                            }
                        }
                    }
                    return true;
                }
                // The set is small and full. Convert to a large set.
                let mut large = small_to_large(small);
                let changed = large.insert(elem);
                *self = HybridSet::LargeSet(large);
                changed
            },
            HybridSet::LargeSet(large) => large.insert(elem),
        }
    }

    pub fn remove(&mut self, elem: T) -> (r: bool)
        requires
            old(self).wf(),
        ensures
            final(self).wf(),
            final(self)@ == old(self)@.remove(elem.spec_index() as int),
            r == old(self)@.contains(elem.spec_index() as int),
            (*final(self) is SmallSet) == (*old(self) is SmallSet),
    {
        // Note: we currently don't bother going from Large back to Small.
        match self {
            HybridSet::SmallSet(small) => {
                match small_position(small, elem) {
                    Some(pos) => {
                        let ghost before = small@;
                        small.swap_remove(pos);
                        proof {
                            lemma_swap_remove(before, pos as int);
                        }
                        true
                    },
                    None => {
                        assert(old(self)@.remove(elem.spec_index() as int) =~= old(self)@);
                        false
                    },
                }
            },
            HybridSet::LargeSet(large) => large.remove(elem),
        }
    }

    pub fn iter(&self) -> (r: HybridIter<'_, T>)
        requires
            self.wf(),
        ensures
            r.wf(),
            r.remaining() == self@,
            r.remaining().finite(),
            (r is LargeIter) == (*self is LargeSet),
    {
        proof {
            self.lemma_wf_view();
        }
        match self {
            HybridSet::SmallSet(small) => {
                let r = HybridIter::SmallIter(small.as_slice(), 0);
                assert(small@.subrange(0, small@.len() as int) =~= small@);
                r
            },
            HybridSet::LargeSet(large) => HybridIter::LargeIter(large.iter()),
        }
    }

    /// Is `self` is a superset of `other`?
    pub fn superset(&self, other: &HybridSet<T>) -> (r: bool)
        requires
            self.wf(),
            other.wf(),
        ensures
            r == other@.subset_of(self@),
    {
        match (self, other) {
            (HybridSet::LargeSet(self_large), HybridSet::LargeSet(other_large)) => {
                self_large.superset(&other_large)
            },
            _ => {
                let mut it = other.iter();
                loop
                    invariant
                        self.wf(),
                        it.wf(),
                        it.remaining().finite(),
                        it.remaining().subset_of(other@),
                        forall|i: int|
                            #[trigger] other@.contains(i) && !it.remaining().contains(i)
                                ==> self@.contains(i),
                    decreases it.remaining().len(),
                {
                    let ghost before = it.remaining();
                    match it.next() {
                        None => {
                            return true;
                        },
                        Some(elem) => {
                            if !self.contains(elem) {
                                return false;
                            }
                            proof {
                                assert(it.remaining().len() < before.len());
                            }
                        },
                    }
                }
            },
        }
    }
}

impl<T: Idx> HybridSet<T> {
    /// Whether the intersection of `self` with `other` keeps index `i` of `self`:
    /// the index is in `other`, or both sets are large and the index lies past
    /// the words of `other`.
    pub open spec fn intersect_keeps(self, other: HybridSet<T>, i: int) -> bool {
        ||| other@.contains(i)
        ||| match (self, other) {
            (HybridSet::LargeSet(_), HybridSet::LargeSet(o)) => i >= o.spec_capacity(),
            _ => false,
        }
    }

    pub fn union(&mut self, other: &HybridSet<T>) -> (r: bool)
        requires
            old(self).wf(),
            other.wf(),
        ensures
            final(self).wf(),
            final(self)@ == old(self)@.union(other@),
            r == !other@.subset_of(old(self)@),
            r == (final(self)@ != old(self)@),
            (*final(self) is SmallSet) == (*old(self) is SmallSet && *other is SmallSet
                && final(self)@.len() <= SMALL_SET_CAPACITY),
    {
        proof {
            old(self).lemma_wf_view();
            other.lemma_wf_view();
            lemma_union_changed(old(self)@, other@);
        }
        match other {
            HybridSet::LargeSet(other_large) => {
                let self_small_copy: Option<BitVec<T>> = match self {
                    HybridSet::SmallSet(self_small) => Some(small_to_large(self_small)),
                    HybridSet::LargeSet(_) => None,
                };
                match self_small_copy {
                    Some(mut self_large) => {
                        // convert self set to a large set
                        let changed = self_large.union(other_large);
                        *self = HybridSet::LargeSet(self_large);
                        changed
                    },
                    None => {
                        match self {
                            HybridSet::LargeSet(self_large) => self_large.union(other_large),
                            HybridSet::SmallSet(_) => {
                                assert(false);
                                false
                            },
                        }
                    },
                }
            },
            HybridSet::SmallSet(other_small) => {
                let n = other_small.len();
                let mut changed = false;
                let mut i: usize = 0;
                proof {
                    old(self).lemma_small_len();
                    assert(other_small@.subrange(0, 0) =~= Seq::<T>::empty());
                    assert(index_set(Seq::<T>::empty()) =~= Set::<int>::empty());
                    assert(old(self)@.union(Set::<int>::empty()) =~= old(self)@);
                }
                while i < n
                    invariant
                        i <= n,
                        n == other_small@.len(),
                        *other is SmallSet,
                        other.wf(),
                        other@ == index_set(other_small@),
                        self.wf(),
                        self@ == old(self)@.union(index_set(other_small@.subrange(0, i as int))),
                        changed == !index_set(other_small@.subrange(0, i as int)).subset_of(
                            old(self)@,
                        ),
                        old(self)@.finite(),
                        forall|j: int| 0 <= j < other_small@.len() ==> idx_ok::<T>(#[trigger] other_small@[j].spec_index() as int),
                        (*self is SmallSet) == (*old(self) is SmallSet && self@.len()
                            <= SMALL_SET_CAPACITY),
                    decreases n - i,
                {
                    let elem = other_small[i];
                    let ghost before = self@;
                    proof {
                        self.lemma_wf_view();
                        lemma_index_set_push(other_small@.subrange(0, i as int), elem);
                        assert(other_small@.subrange(0, i + 1) =~= other_small@.subrange(
                            0,
                            i as int,
                        ).push(elem));
                        assert(other_small@[i as int] == elem);
                    }
                    let added = self.insert(elem);
                    changed = changed || added;
                    proof {
                        self.lemma_wf_view();
                        self.lemma_small_len();
                        if !before.contains(elem.spec_index() as int) {
                            assert(self@.len() == before.len() + 1);
                        }
                        assert(self@ =~= old(self)@.union(index_set(other_small@.subrange(0, i + 1))));
                    }
                    i = i + 1;
                }
                proof {
                    assert(other_small@.subrange(0, n as int) =~= other_small@);
                }
                changed
            },
        }
    }

    pub fn subtract(&mut self, other: &HybridSet<T>) -> (r: bool)
        requires
            old(self).wf(),
            other.wf(),
        ensures
            final(self).wf(),
            final(self)@ == old(self)@.difference(other@),
            r == (final(self)@ != old(self)@),
            (*final(self) is SmallSet) == (*old(self) is SmallSet),
    {
        let kept: Option<Vec<T>> = match self {
            HybridSet::SmallSet(self_small) => Some(keep_by_set(self_small, other, false)),
            HybridSet::LargeSet(_) => None,
        };
        match kept {
            Some(kept) => {
                let changed = match self {
                    HybridSet::SmallSet(self_small) => kept.len() != self_small.len(),
                    HybridSet::LargeSet(_) => false,
                };
                *self = HybridSet::SmallSet(kept);
                proof {
                    assert(self@ =~= old(self)@.difference(other@));
                }
                changed
            },
            None => {
                match self {
                    HybridSet::LargeSet(self_large) => match other {
                        HybridSet::LargeSet(other_large) => {
                            let changed = self_large.subtract(other_large);
                            proof {
                                assert forall|i: int| #[trigger] self_large@.contains(i) implies idx_ok::<T>(i) by {
                                    assert(old(self)@.contains(i));
                                }
                            }
                            changed
                        },
                        HybridSet::SmallSet(other_small) => {
                            let n = other_small.len();
                            let mut changed = false;
                            let mut i: usize = 0;
                            while i < n
                                invariant
                                    i <= n,
                                    n == other_small@.len(),
                                    other@ == index_set(other_small@),
                                    self_large.wf(),
                                    forall|k: int| #[trigger] self_large@.contains(k) ==> idx_ok::<T>(k),
                                    self_large@ == old(self)@.difference(
                                        index_set(other_small@.subrange(0, i as int)),
                                    ),
                                    changed == (self_large@ != old(self)@),
                                decreases n - i,
                            {
                                let elem = other_small[i];
                                let ghost before = self_large@;
                                proof {
                                    lemma_index_set_push(other_small@.subrange(0, i as int), elem);
                                    assert(other_small@.subrange(0, i + 1) =~= other_small@.subrange(
                                        0,
                                        i as int,
                                    ).push(elem));
                                }
                                let removed = self_large.remove(elem);
                                changed = changed || removed;
                                proof {
                                    assert(self_large@ =~= old(self)@.difference(
                                        index_set(other_small@.subrange(0, i + 1)),
                                    ));
                                    if removed && !(before != old(self)@) {
                                        assert(!self_large@.contains(elem.spec_index() as int));
                                        assert(old(self)@.contains(elem.spec_index() as int));
                                    }
                                    if !removed {
                                        assert(self_large@ =~= before);
                                    }
                                }
                                i = i + 1;
                            }
                            proof {
                                assert(other_small@.subrange(0, n as int) =~= other_small@);
                            }
                            changed
                        },
                    },
                    HybridSet::SmallSet(_) => {
                        assert(false);
                        false
                    },
                }
            },
        }
    }

    /// Keeps the elements of `self` that `other` holds; where both sets are large,
    /// the indices of `self` past the words of `other` are kept as well.  When a
    /// large `self` meets a small `other`, `self` becomes the elements of `other`
    /// that `self` holds, and the result says whether `other` held any element
    /// that `self` did not.
    pub fn intersect(&mut self, other: &HybridSet<T>) -> (r: bool)
        requires
            old(self).wf(),
            other.wf(),
        ensures
            final(self).wf(),
            final(self)@ == Set::new(
                |i: int| old(self)@.contains(i) && old(self).intersect_keeps(*other, i),
            ),
            r == if *old(self) is LargeSet && *other is SmallSet {
                !other@.subset_of(old(self)@)
            } else {
                final(self)@ != old(self)@
            },
            (*final(self) is SmallSet) == (*old(self) is SmallSet || *other is SmallSet),
    {
        let small_result: Option<(Vec<T>, bool)> = match self {
            HybridSet::SmallSet(self_small) => {
                let kept = keep_by_set(self_small, other, true);
                let changed = kept.len() != self_small.len();
                Some((kept, changed))
            },
            HybridSet::LargeSet(_) => match other {
                HybridSet::SmallSet(other_small) => {
                    // convert self set to a small set
                    let kept = keep_by_set(other_small, self, true);
                    let changed = kept.len() != other_small.len();
                    Some((kept, changed))
                },
                HybridSet::LargeSet(_) => None,
            },
        };
        match small_result {
            Some((kept, changed)) => {
                *self = HybridSet::SmallSet(kept);
                proof {
                    let target = Set::new(
                        |i: int| old(self)@.contains(i) && old(self).intersect_keeps(*other, i),
                    );
                    assert(self@ =~= target);
                    if *old(self) is LargeSet && *other is SmallSet {
                        if other@.subset_of(old(self)@) {
                            assert(self@ =~= other@);
                        } else {
                            let x = choose|x: int| other@.contains(x) && !old(self)@.contains(x);
                            assert(!self@.contains(x));
                        }
                    }
                }
                changed
            },
            None => match self {
                HybridSet::LargeSet(self_large) => match other {
                    HybridSet::LargeSet(other_large) => {
                        let changed = self_large.intersect(other_large);
                        proof {
                            assert forall|i: int| #[trigger] self_large@.contains(i) implies idx_ok::<T>(i) by {
                                assert(old(self)@.contains(i));
                            }
                            let target = Set::new(
                                |i: int| old(self)@.contains(i) && old(self).intersect_keeps(*other, i),
                            );
                            assert(self_large@ =~= target);
                        }
                        changed
                    },
                    HybridSet::SmallSet(_) => {
                        assert(false);
                        false
                    },
                },
                HybridSet::SmallSet(_) => {
                    assert(false);
                    false
                },
            },
        }
    }
}

/// The union of `a` with `b` differs from `a` exactly when `b` is not a subset of `a`.
proof fn lemma_union_changed(a: Set<int>, b: Set<int>)
    ensures
        (a.union(b) != a) == !b.subset_of(a),
{
    if b.subset_of(a) {
        assert(a.union(b) =~= a);
    } else {
        let x = choose|x: int| b.contains(x) && !a.contains(x);
        assert(a.union(b).contains(x));
    }
}

/// The values of `small` whose indices `other` holds (`keep_members`) or does not
/// hold (otherwise), in their order in `small`.
fn keep_by_set<T: Idx>(small: &Vec<T>, other: &HybridSet<T>, keep_members: bool) -> (kept: Vec<T>)
    requires
        distinct_indices(small@),
        small@.len() <= SMALL_SET_CAPACITY,
        forall|j: int| 0 <= j < small@.len() ==> idx_ok::<T>(#[trigger] small@[j].spec_index() as int),
        other.wf(),
    ensures
        kept@.len() <= small@.len(),
        distinct_indices(kept@),
        forall|j: int| 0 <= j < kept@.len() ==> idx_ok::<T>(#[trigger] kept@[j].spec_index() as int),
        index_set(kept@) == Set::new(
            |i: int| index_set(small@).contains(i) && other@.contains(i) == keep_members,
        ),
        (kept@.len() == small@.len()) == (index_set(kept@) == index_set(small@)),
{
    let n = small.len();
    let mut kept: Vec<T> = Vec::new();
    let mut i: usize = 0;
    while i < n
        invariant
            i <= n,
            n == small@.len(),
            distinct_indices(small@),
            forall|j: int| 0 <= j < small@.len() ==> idx_ok::<T>(#[trigger] small@[j].spec_index() as int),
            other.wf(),
            kept@.len() <= i,
            distinct_indices(kept@),
            forall|j: int| 0 <= j < kept@.len() ==> idx_ok::<T>(#[trigger] kept@[j].spec_index() as int),
            index_set(kept@) == Set::new(
                |k: int| index_set(small@.subrange(0, i as int)).contains(k) && other@.contains(k)
                    == keep_members,
            ),
        decreases n - i,
    {
        let elem = small[i];
        let ghost pre = small@.subrange(0, i as int);
        proof {
            lemma_index_set_push(pre, elem);
            assert(small@.subrange(0, i + 1) =~= pre.push(elem));
            if index_set(pre).contains(elem.spec_index() as int) {
                let j = choose|j: int| 0 <= j < pre.len() && pre[j].spec_index() == elem.spec_index();
                assert(small@[j] == pre[j]);
                assert(small@[i as int] == elem);
            }
        }
        if other.contains(elem) == keep_members {
            let ghost before = kept@;
            kept.push(elem);
            proof {
                lemma_index_set_push(before, elem);
                assert(kept@ == before.push(elem));
                assert(!index_set(before).contains(elem.spec_index() as int));
                assert forall|a: int, b: int|
                    0 <= a < kept@.len() && 0 <= b < kept@.len() && a != b implies #[trigger] kept@[a].spec_index()
                    != #[trigger] kept@[b].spec_index() by {
                    if a < before.len() && b < before.len() {
                        assert(kept@[a] == before[a] && kept@[b] == before[b]);
                    } else if a < before.len() {
                        assert(kept@[a] == before[a]);
                        assert(index_set(before).contains(before[a].spec_index() as int));
                    } else {
                        assert(kept@[b] == before[b]);
                        assert(index_set(before).contains(before[b].spec_index() as int));
                    }
                }
                assert forall|j: int| 0 <= j < kept@.len() implies idx_ok::<T>(#[trigger] kept@[j].spec_index() as int) by {
                    if j < before.len() {
                        assert(kept@[j] == before[j]);
                    }
                }
                assert(index_set(kept@) =~= Set::new(
                    |k: int| index_set(small@.subrange(0, i + 1)).contains(k) && other@.contains(k)
                        == keep_members,
                ));
            }
        } else {
            proof {
                assert(index_set(kept@) =~= Set::new(
                    |k: int| index_set(small@.subrange(0, i + 1)).contains(k) && other@.contains(k)
                        == keep_members,
                ));
            }
        }
        i = i + 1;
    }
    proof {
        assert(small@.subrange(0, n as int) =~= small@);
        lemma_index_set_card(kept@);
        lemma_index_set_card(small@);
        if index_set(kept@) == index_set(small@) {
            assert(kept@.len() == small@.len());
        }
        if kept@.len() == small@.len() {
            vstd::set_lib::lemma_subset_equality(index_set(kept@), index_set(small@));
        }
    }
    kept
}

/// A copy of the values of `small`.
fn copy_small<T: Idx>(small: &Vec<T>) -> (r: Vec<T>)
    ensures
        r@ == small@,
{
    let n = small.len();
    let mut copy: Vec<T> = Vec::new();
    let mut i: usize = 0;
    while i < n
        invariant
            i <= n,
            n == small@.len(),
            copy@ == small@.subrange(0, i as int),
        decreases n - i,
    {
        copy.push(small[i]);
        i = i + 1;
    }
    assert(copy@ =~= small@);
    copy
}

/// The values of `small`, held as a bit vector.
fn small_to_large<T: Idx>(small: &Vec<T>) -> (r: BitVec<T>)
    requires
        forall|j: int| 0 <= j < small@.len() ==> idx_ok::<T>(#[trigger] small@[j].spec_index() as int),
    ensures
        r.wf(),
        r@ == index_set(small@),
        forall|i: int| #[trigger] r@.contains(i) ==> idx_ok::<T>(i),
{
    let r = BitVec::from_vec(small);
    assert forall|i: int| #[trigger] r@.contains(i) implies idx_ok::<T>(i) by {
        let j = choose|j: int| 0 <= j < small@.len() && small@[j].spec_index() == i;
    }
    r
}

/// Removing the value at `pos` by swapping in the last value keeps the indices
/// distinct and takes away the index of the removed value.
proof fn lemma_swap_remove<T: Idx>(s: Seq<T>, pos: int)
    requires
        distinct_indices(s),
        0 <= pos < s.len(),
    ensures
        distinct_indices(s.update(pos, s.last()).drop_last()),
        index_set(s.update(pos, s.last()).drop_last()) == index_set(s).remove(
            s[pos].spec_index() as int,
        ),
        forall|x: T| s.update(pos, s.last()).drop_last().contains(x) ==> s.contains(x),
{
    let t = s.update(pos, s.last()).drop_last();
    let n = s.len() - 1;
    assert forall|j: int| 0 <= j < t.len() implies #[trigger] t[j] == (if j == pos { s[n] } else { s[j] }) by {}
    assert forall|i: int, j: int|
        0 <= i < t.len() && 0 <= j < t.len() && i != j implies #[trigger] t[i].spec_index()
        != #[trigger] t[j].spec_index() by {
        let a = if i == pos { n } else { i };
        let b = if j == pos { n } else { j };
        assert(t[i] == s[a] && t[j] == s[b]);
    }
    let e = s[pos].spec_index() as int;
    assert forall|x: int| #[trigger] index_set(t).contains(x) == index_set(s).remove(e).contains(x) by {
        if index_set(t).contains(x) {
            let j = choose|j: int| 0 <= j < t.len() && t[j].spec_index() == x;
            let a = if j == pos { n } else { j };
            assert(t[j] == s[a]);
            assert(a != pos);
        }
        if index_set(s).remove(e).contains(x) {
            let j = choose|j: int| 0 <= j < s.len() && s[j].spec_index() == x;
            assert(j != pos);
            if j == n {
                assert(t[pos] == s[n]);
            } else {
                assert(t[j] == s[j]);
            }
        }
    }
    assert(index_set(t) =~= index_set(s).remove(e));
    assert forall|x: T| t.contains(x) implies s.contains(x) by {
        let j = choose|j: int| 0 <= j < t.len() && t[j] == x;
        let a = if j == pos { n } else { j };
        assert(s[a] == x);
    }
}

/// An iterator over the elements of a hybrid set.
pub enum HybridIter<'a, T: Idx> {
    /// The elements of a small set, from the given position on.
    SmallIter(&'a [T], usize),
    LargeIter(BitIter<'a, T>),
}

impl<'a, T: Idx> HybridIter<'a, T> {
    /// The indices that the iterator has yet to hand out.
    pub open spec fn remaining(&self) -> Set<int> {
        match self {
            HybridIter::SmallIter(elems, pos) => index_set(elems@.subrange(*pos as int, elems@.len() as int)),
            HybridIter::LargeIter(large) => large.remaining(),
        }
    }

    pub open spec fn wf(&self) -> bool {
        match self {
            HybridIter::SmallIter(elems, pos) => {
                &&& *pos <= elems@.len()
                &&& distinct_indices(elems@)
                &&& forall|j: int| 0 <= j < elems@.len() ==> idx_ok::<T>(#[trigger] elems@[j].spec_index() as int)
            },
            HybridIter::LargeIter(large) => {
                &&& large.wf()
                &&& forall|i: int| #[trigger] large.remaining().contains(i) ==> idx_ok::<T>(i)
            },
        }
    }

    /// Hands out an element not yet handed out, or `None` when there is none.
    pub fn next(&mut self) -> (r: Option<T>)
        requires
            old(self).wf(),
        ensures
            final(self).wf(),
            final(self).remaining().finite(),
            match r {
                None => old(self).remaining() == Set::<int>::empty() && final(self).remaining()
                    == Set::<int>::empty(),
                Some(x) => {
                    &&& old(self).remaining().contains(x.spec_index() as int)
                    &&& final(self).remaining() == old(self).remaining().remove(
                        x.spec_index() as int,
                    )
                    &&& (*old(self) is LargeIter ==> forall|y: int| #[trigger] old(self).remaining().contains(y) ==> x.spec_index() <= y)
                },
            },
            (*final(self) is LargeIter) == (*old(self) is LargeIter),
    {
        match self {
            HybridIter::SmallIter(elems, pos) => {
                let ghost s = elems@;
                let ghost p = *pos as int;
                proof {
                    lemma_suffix_distinct(s, p);
                    lemma_index_set_card(s.subrange(p, s.len() as int));
                }
                if *pos < elems.len() {
                    let x = elems[*pos];
                    *pos = *pos + 1;
                    proof {
                        let rest = s.subrange(p + 1, s.len() as int);
                        lemma_suffix_distinct(s, p + 1);
                        lemma_index_set_card(rest);
                        assert(s.subrange(p, s.len() as int) =~= seq![x] + rest);
                        assert forall|i: int| #[trigger] index_set(s.subrange(p, s.len() as int)).contains(i) == index_set(rest).insert(x.spec_index() as int).contains(i) by {
                            let whole = s.subrange(p, s.len() as int);
                            if index_set(whole).contains(i) {
                                let j = choose|j: int| 0 <= j < whole.len() && whole[j].spec_index() == i;
                                if j > 0 {
                                    assert(rest[j - 1] == whole[j]);
                                }
                            }
                            if index_set(rest).contains(i) {
                                let j = choose|j: int| 0 <= j < rest.len() && rest[j].spec_index() == i;
                                assert(whole[j + 1] == rest[j]);
                            }
                            if i == x.spec_index() {
                                assert(whole[0] == x);
                            }
                        }
                        assert(index_set(s.subrange(p, s.len() as int)) =~= index_set(rest).insert(x.spec_index() as int));
                        if index_set(rest).contains(x.spec_index() as int) {
                            let j = choose|j: int| 0 <= j < rest.len() && rest[j].spec_index() == x.spec_index();
                            assert(s[p + 1 + j] == rest[j]);
                            assert(s[p] == x);
                        }
                        assert(index_set(rest) =~= index_set(s.subrange(p, s.len() as int)).remove(x.spec_index() as int));
                    }
                    Some(x)
                } else {
                    assert(index_set(s.subrange(p, s.len() as int)) =~= Set::<int>::empty());
                    None
                }
            },
            HybridIter::LargeIter(large) => {
                let ghost before = large.remaining();
                let r = large.next();
                proof {
                    assert forall|i: int| #[trigger] large.remaining().contains(i) implies idx_ok::<T>(i) by {
                        assert(before.contains(i));
                    }
                }
                r
            },
        }
    }
}

/// A suffix of a sequence with distinct indices has distinct indices.
proof fn lemma_suffix_distinct<T: Idx>(s: Seq<T>, p: int)
    requires
        distinct_indices(s),
        0 <= p <= s.len(),
    ensures
        distinct_indices(s.subrange(p, s.len() as int)),
{
    let t = s.subrange(p, s.len() as int);
    assert forall|i: int, j: int|
        0 <= i < t.len() && 0 <= j < t.len() && i != j implies #[trigger] t[i].spec_index()
        != #[trigger] t[j].spec_index() by {
        assert(t[i] == s[p + i] && t[j] == s[p + j]);
    }
}

/// The position in `small` of the value that stands for the index of `elem`.
fn small_position<T: Idx>(small: &Vec<T>, elem: T) -> (r: Option<usize>)
    ensures
        match r {
            Some(p) => p < small@.len() && small@[p as int].spec_index() == elem.spec_index(),
            None => !index_set(small@).contains(elem.spec_index() as int),
        },
{
    let n = small.len();
    let e = elem.index();
    let mut i: usize = 0;
    while i < n
        invariant
            i <= n,
            n == small@.len(),
            e == elem.spec_index(),
            forall|j: int| 0 <= j < i ==> #[trigger] small@[j].spec_index() != e,
        decreases n - i,
    {
        if small[i].index() == e {
            return Some(i);
        }
        i = i + 1;
    }
    None
}

/// Does `small` hold a value that stands for the index of `elem`?
fn small_contains<T: Idx>(small: &Vec<T>, elem: T) -> (r: bool)
    ensures
        r == index_set(small@).contains(elem.spec_index() as int),
{
    match small_position(small, elem) {
        Some(_) => true,
        None => false,
    }
}


/// After a union with `other`, a set holds all of `other`, so that `superset`
/// answers true and a second union with `other` reports no change.
pub proof fn law_union_then_superset(s: Set<int>, other: Set<int>)
    ensures
        other.subset_of(s.union(other)),
        s.union(other).union(other) == s.union(other),
{
    assert(s.union(other).union(other) =~= s.union(other));
}

/// After subtracting `other`, a set shares no element with `other`, and
/// subtracting it again reports no change.
pub proof fn law_subtract_then_disjoint(s: Set<int>, other: Set<int>)
    ensures
        s.difference(other).intersect(other) == Set::<int>::empty(),
        s.difference(other).difference(other) == s.difference(other),
{
    assert(s.difference(other).intersect(other) =~= Set::<int>::empty());
    assert(s.difference(other).difference(other) =~= s.difference(other));
}

/// Inserting an element that a set lacks and then removing it gives the set back.
pub proof fn law_insert_then_remove(s: Set<int>, x: int)
    requires
        !s.contains(x),
    ensures
        s.insert(x).remove(x) == s,
{
    assert(s.insert(x).remove(x) =~= s);
}


/// The indices of the elements of `vs`.
pub open spec fn indices_of<T: Idx>(vs: Seq<T>) -> Set<int> {
    Set::new(|i: int| exists|k: int| 0 <= k < vs.len() && #[trigger] vs[k].spec_index() == i)
}

/// `states[k + 1]` is what `HybridSet::insert` makes of `states[k]` with `vs[k]`,
/// starting from a new set (small and empty).
pub open spec fn insert_run<T: Idx>(states: Seq<HybridSet<T>>, vs: Seq<T>) -> bool {
    &&& states.len() == vs.len() + 1
    &&& states[0] is SmallSet
    &&& states[0]@ == Set::<int>::empty()
    &&& forall|k: int| 0 <= k < vs.len() ==> {
        &&& #[trigger] states[k + 1]@ == states[k]@.insert(vs[k].spec_index() as int)
        &&& (states[k + 1] is SmallSet) == (states[k] is SmallSet && (states[k]@.contains(vs[k].spec_index() as int)
            || states[k]@.len() < SMALL_SET_CAPACITY))
    }
}

/// After a run of inserts into a new hybrid set, it holds exactly the elements
/// inserted, so that its count is the number of distinct ones; and it is large
/// exactly when more distinct elements than the small limit went in.
pub proof fn law_insert_run<T: Idx>(states: Seq<HybridSet<T>>, vs: Seq<T>)
    requires
        insert_run(states, vs),
    ensures
        states.last()@ == indices_of(vs),
        indices_of(vs).finite(),
        (states.last() is SmallSet) == (indices_of(vs).len() <= SMALL_SET_CAPACITY),
    decreases vs.len(),
{
    if vs.len() == 0 {
        assert(indices_of(vs) =~= Set::<int>::empty());
    } else {
        let n = vs.len() - 1;
        let ps = states.drop_last();
        let pv = vs.drop_last();
        assert(insert_run(ps, pv)) by {
            assert forall|k: int| 0 <= k < pv.len() implies {
                &&& #[trigger] ps[k + 1]@ == ps[k]@.insert(pv[k].spec_index() as int)
                &&& (ps[k + 1] is SmallSet) == (ps[k] is SmallSet && (ps[k]@.contains(pv[k].spec_index() as int)
                    || ps[k]@.len() < SMALL_SET_CAPACITY))
            } by {
                assert(states[k + 1]@ == states[k]@.insert(vs[k].spec_index() as int));
            }
        }
        law_insert_run(ps, pv);
        let x = vs[n].spec_index() as int;
        assert(indices_of(vs) =~= indices_of(pv).insert(x)) by {
            assert forall|i: int| indices_of(vs).contains(i) implies indices_of(pv).insert(x).contains(i) by {
                let k = choose|k: int| 0 <= k < vs.len() && #[trigger] vs[k].spec_index() == i;
                if k < n {
                    assert(pv[k].spec_index() == i);
                }
            }
            assert forall|i: int| indices_of(pv).insert(x).contains(i) implies indices_of(vs).contains(i) by {
                if i == x {
                    assert(vs[n].spec_index() == i);
                } else {
                    let k = choose|k: int| 0 <= k < pv.len() && #[trigger] pv[k].spec_index() == i;
                    assert(vs[k].spec_index() == i);
                }
            }
        }
        assert(states[n + 1]@ == states[n]@.insert(x));
        assert(ps.last() == states[n]);
    }
}

/// After a run of inserts into a new hybrid set and the removal of `r`, the set
/// holds exactly the inserted elements other than `r`.
pub proof fn law_insert_run_then_remove<T: Idx>(states: Seq<HybridSet<T>>, vs: Seq<T>, after: HybridSet<T>, r: T)
    requires
        insert_run(states, vs),
        after@ == states.last()@.remove(r.spec_index() as int),
    ensures
        forall|i: int| #[trigger] after@.contains(i) <==> (indices_of(vs).contains(i) && i != r.spec_index()),
        !after@.contains(r.spec_index() as int),
{
    law_insert_run(states, vs);
}


/// `rems[k]` is what an iteration over a hybrid set has yet to hand out before its
/// `k`-th step, which hands out `outs[k]` and removes it, as `HybridIter::next`
/// does; the iteration starts from the set `held` and ends with nothing left.
pub open spec fn hybrid_iteration_run(held: Set<int>, rems: Seq<Set<int>>, outs: Seq<int>) -> bool {
    &&& rems.len() == outs.len() + 1
    &&& rems[0] == held
    &&& rems.last() == Set::<int>::empty()
    &&& forall|k: int| 0 <= k < outs.len() ==> {
        &&& #[trigger] rems[k].contains(outs[k])
        &&& rems[k + 1] == rems[k].remove(outs[k])
    }
}

proof fn lemma_hybrid_iteration_prefix(held: Set<int>, rems: Seq<Set<int>>, outs: Seq<int>, k: int)
    requires
        hybrid_iteration_run(held, rems, outs),
        0 <= k <= outs.len(),
    ensures
        forall|j: int| 0 <= j < k ==> !rems[k].contains(#[trigger] outs[j]),
        forall|i: int, j: int| 0 <= i < j < k ==> #[trigger] outs[i] != #[trigger] outs[j],
        forall|x: int| #[trigger] held.contains(x) <==> (rems[k].contains(x) || exists|j: int| 0 <= j < k && outs[j] == x),
    decreases k,
{
    if k > 0 {
        lemma_hybrid_iteration_prefix(held, rems, outs, k - 1);
        let m = k - 1;
        assert(rems[m].contains(outs[m]));
        assert(rems[m + 1] == rems[m].remove(outs[m]));
        assert forall|x: int| #[trigger] held.contains(x) <==> (rems[k].contains(x) || exists|j: int| 0 <= j < k && outs[j] == x) by {
            if held.contains(x) && !rems[k].contains(x) {
                if rems[m].contains(x) {
                    assert(x == outs[m]);
                } else {
                    let j = choose|j: int| 0 <= j < m && outs[j] == x;
                    assert(0 <= j < k && outs[j] == x);
                }
            }
            if exists|j: int| 0 <= j < k && outs[j] == x {
                let j = choose|j: int| 0 <= j < k && outs[j] == x;
                if j < m {
                    assert(held.contains(x));
                } else {
                    assert(rems[m].contains(x));
                }
            }
        }
        assert forall|i: int, j: int| 0 <= i < j < k implies #[trigger] outs[i] != #[trigger] outs[j] by {
            if j == m {
                assert(!rems[m].contains(outs[i]));
            }
        }
    }
}

/// An iteration over a hybrid set hands out each element it holds once, and
/// nothing else, so that it yields as many items as the set's count (for a large
/// set, in increasing order: see `law_iteration_sorted`).
pub proof fn law_hybrid_iteration(held: Set<int>, rems: Seq<Set<int>>, outs: Seq<int>)
    requires
        hybrid_iteration_run(held, rems, outs),
    ensures
        outs.no_duplicates(),
        outs.to_set() == held,
        held.finite(),
        outs.len() == held.len(),
{
    lemma_hybrid_iteration_prefix(held, rems, outs, outs.len() as int);
    assert(outs.to_set() =~= held) by {
        assert forall|x: int| outs.to_set().contains(x) <==> held.contains(x) by {
            if outs.contains(x) {
                let j = choose|j: int| 0 <= j < outs.len() && outs[j] == x;
                assert(exists|j: int| 0 <= j < outs.len() && outs[j] == x);
            }
            if held.contains(x) {
                assert(!rems[outs.len() as int].contains(x));
            }
        }
    }
    outs.unique_seq_to_set();
}

} // verus!
