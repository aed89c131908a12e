//! Points-to data: for each key (a variable), the set of objects it may point to.

use std::collections::{HashMap, HashSet};
use std::hash::Hash;

use vstd::prelude::*;
use vstd::std_specs::hash::obeys_key_model;

use super::points_to::{HybridPointsToSet, PointsToSet, idx_ok};
use crate::util::bit_vec::Idx;

verus! {

broadcast use vstd::std_specs::hash::group_hash_axioms;

/// Basic points-to data structure
/// Given a key (variable/condition variable), return its points-to data (pts/condition pts)
/// It is designed flexible for different context, heap and path sensitive analysis
///
/// K  (Key):     "owning" variable of a points-to set.
/// KS (KeySet):  collection of keys.
/// D  (Data):    elements in points-to sets.
/// DS (DataSet): the points-to set; a collection of Data.
pub struct BasePTData<K, KS, D, DS> {
    pts_map: HashMap<K, DS>,
    rev_pts_map: HashMap<D, KS>,
}

/// The indices in the points-to set of `k` in `m`, empty where `m` has no set for `k`.
pub open spec fn pts_of<K, D: Idx>(m: Map<K, HybridPointsToSet<D>>, k: K) -> Set<int> {
    if m.contains_key(k) {
        m[k]@
    } else {
        Set::empty()
    }
}

/// The keys in the reverse set of `d` in `m`, empty where `m` has no set for `d`.
pub open spec fn rev_of<K, D>(m: Map<D, HashSet<K>>, d: D) -> Set<K> {
    if m.contains_key(d) {
        m[d]@
    } else {
        Set::empty()
    }
}

impl<K: Hash + Eq + Copy, D: Idx + Hash + Eq> BasePTData<K, HashSet<K>, D, HybridPointsToSet<D>> {
    /// The points-to sets, by key.
    pub closed spec fn pts(&self) -> Map<K, HybridPointsToSet<D>> {
        self.pts_map@
    }

    /// The reverse points-to sets: for each element, the keys whose sets hold it.
    pub closed spec fn rev(&self) -> Map<D, HashSet<K>> {
        self.rev_pts_map@
    }

    /// Every points-to set is well formed, and the reverse sets are exactly the
    /// inverse of the points-to sets.
    pub open spec fn wf(&self) -> bool {
        &&& obeys_key_model::<K>()
        &&& obeys_key_model::<D>()
        &&& forall|k: K| #[trigger] self.pts().contains_key(k) ==> self.pts()[k].well_formed()
        &&& forall|k: K, d: D|
            #[trigger] pts_of(self.pts(), k).contains(d.spec_index() as int) == #[trigger] rev_of(
                self.rev(),
                d,
            ).contains(k)
    }

    pub fn new() -> (r: Self)
        requires
            obeys_key_model::<K>(),
            obeys_key_model::<D>(),
        ensures
            r.wf(),
            r.pts() == Map::<K, HybridPointsToSet<D>>::empty(),
            r.rev() == Map::<D, HashSet<K>>::empty(),
    {
        BasePTData { pts_map: HashMap::new(), rev_pts_map: HashMap::new() }
    }

    /// Return Points-to map
    pub fn get_pts_map(&self) -> (r: &HashMap<K, HybridPointsToSet<D>>)
        ensures
            r@ == self.pts(),
    {
        &self.pts_map
    }

    pub fn clear(&mut self)
        requires
            old(self).wf(),
        ensures
            final(self).wf(),
            final(self).pts() == Map::<K, HybridPointsToSet<D>>::empty(),
            final(self).rev() == Map::<D, HashSet<K>>::empty(),
    {
        self.pts_map.clear();
        self.rev_pts_map.clear();
    }

    /// Get points-to set of a var.
    pub fn get_pts(&self, var: K) -> (r: Option<&HybridPointsToSet<D>>)
        requires
            self.wf(),
        ensures
            match r {
                Some(ds) => self.pts().contains_key(var) && *ds == self.pts()[var]
                    && ds.well_formed(),
                None => !self.pts().contains_key(var),
            },
    {
        self.pts_map.get(&var)
    }

    /// The points-to set of `var`, to be changed in place; the reverse sets are
    /// left as they are.
    pub fn get_mut_pts(&mut self, var: K) -> (r: Option<&mut HybridPointsToSet<D>>)
        requires
            old(self).wf(),
        ensures
            match r {
                Some(ds) => {
                    &&& old(self).pts().contains_key(var)
                    &&& *ds == old(self).pts()[var]
                    &&& final(self).pts() == old(self).pts().insert(var, *final(ds))
                    &&& final(self).rev() == old(self).rev()
                },
                None => {
                    &&& !old(self).pts().contains_key(var)
                    &&& final(self).pts() == old(self).pts()
                    &&& final(self).rev() == old(self).rev()
                },
            },
    {
        match self.pts_map.entry(var) {
            std::collections::hash_map::Entry::Occupied(o) => Some(o.into_mut()),
            std::collections::hash_map::Entry::Vacant(_) => None,
        }
    }

    /// A write through `get_mut_pts` that leaves the set of `var` well formed and
    /// with the same elements keeps the invariant.
    pub proof fn lemma_written_keeps_wf(before: &Self, after: &Self, var: K)
        requires
            before.wf(),
            before.pts().contains_key(var),
            after.pts() == before.pts().insert(var, after.pts()[var]),
            after.rev() == before.rev(),
            after.pts()[var].well_formed(),
            after.pts()[var]@ == before.pts()[var]@,
        ensures
            after.wf(),
    {
        assert forall|k: K, d: D| #[trigger] pts_of(after.pts(), k).contains(d.spec_index() as int) == #[trigger] rev_of(after.rev(), d).contains(k) by {
            assert(pts_of(after.pts(), k) == pts_of(before.pts(), k));
        }
    }

    /// Get reverse points-to set of a elem.
    pub fn get_rev_pts(&self, elem: D) -> (r: Option<&HashSet<K>>)
        requires
            self.wf(),
        ensures
            match r {
                Some(ks) => self.rev().contains_key(elem) && *ks == self.rev()[elem],
                None => !self.rev().contains_key(elem),
            },
    {
        self.rev_pts_map.get(&elem)
    }

    /// Add `var` to the reversed pts set for each data in `data_set`.
    fn add_rev_pts(&mut self, data_set: &HybridPointsToSet<D>, var: K)
        requires
            obeys_key_model::<K>(),
            obeys_key_model::<D>(),
            data_set.well_formed(),
        ensures
            final(self).pts() == old(self).pts(),
            forall|d: D| #[trigger] rev_of(final(self).rev(), d) == if data_set@.contains(d.spec_index() as int) {
                rev_of(old(self).rev(), d).insert(var)
            } else {
                rev_of(old(self).rev(), d)
            },
    {
        let mut it = data_set.iter();
        loop
            invariant
                obeys_key_model::<K>(),
                obeys_key_model::<D>(),
                it.wf(),
                it.remaining().finite(),
                it.remaining().subset_of(data_set@),
                self.pts() == old(self).pts(),
                forall|d: D| #[trigger] rev_of(self.rev(), d) == if data_set@.contains(d.spec_index() as int) && !it.remaining().contains(d.spec_index() as int) {
                    rev_of(old(self).rev(), d).insert(var)
                } else {
                    rev_of(old(self).rev(), d)
                },
            decreases it.remaining().len(),
        {
            let ghost before_it = it.remaining();
            let ghost before_rev = self.rev();
            match it.next() {
                None => {
                    return;
                },
                Some(elem) => {
                    let ks = self.rev_pts_map.entry(elem).or_insert(HashSet::new());
                    ks.insert(var);
                    assert(self.rev_pts_map@ == before_rev.insert(elem, *ks));
                    proof {
                        assert forall|d: D| #[trigger] rev_of(self.rev(), d) == if data_set@.contains(d.spec_index() as int) && !it.remaining().contains(d.spec_index() as int) {
                            rev_of(old(self).rev(), d).insert(var)
                        } else {
                            rev_of(old(self).rev(), d)
                        } by {
                            if d.spec_index() == elem.spec_index() {
                                D::lemma_index_injective(d, elem);
                            }
                            assert(rev_of(before_rev, d) == if data_set@.contains(d.spec_index() as int) && !before_it.contains(d.spec_index() as int) {
                                rev_of(old(self).rev(), d).insert(var)
                            } else {
                                rev_of(old(self).rev(), d)
                            });
                            if d == elem {
                                assert(rev_of(self.rev(), d) =~= rev_of(before_rev, d).insert(var));
                            }
                        }
                        assert(it.remaining().len() < before_it.len());
                    }
                },
            }
        }
    }

    /// Performs pts(dst_var) = pts(dst_var) U src_dataset.
    pub fn union_pts_to(&mut self, dst_var: K, src_ds: &HybridPointsToSet<D>) -> (r: bool)
        requires
            old(self).wf(),
            src_ds.well_formed(),
        ensures
            final(self).wf(),
            final(self).pts().contains_key(dst_var),
            forall|k: K| #[trigger] pts_of(final(self).pts(), k) == if k == dst_var {
                pts_of(old(self).pts(), k).union(src_ds@)
            } else {
                pts_of(old(self).pts(), k)
            },
            r == (pts_of(final(self).pts(), dst_var) != pts_of(old(self).pts(), dst_var)),
    {
        self.add_rev_pts(src_ds, dst_var);
        let ghost mid_pts = self.pts_map@;
        let ghost mid_rev = self.rev();
        proof {
            if mid_pts.contains_key(dst_var) {
                assert(old(self).pts().contains_key(dst_var));
            }
        }
        let dst_ds = self.pts_map.entry(dst_var).or_insert(HybridPointsToSet::new());
        assert(dst_ds.well_formed());
        let ghost before = dst_ds@;
        let changed = dst_ds.union(src_ds);
        assert(self.pts_map@ == mid_pts.insert(dst_var, *dst_ds));
        proof {
            assert(before == pts_of(old(self).pts(), dst_var));
            assert forall|k: K| #[trigger] self.pts().contains_key(k) implies self.pts()[k].well_formed() by {
                if k != dst_var {
                    assert(old(self).pts().contains_key(k));
                }
            }
            assert forall|k: K, d: D|
                #[trigger] pts_of(self.pts(), k).contains(d.spec_index() as int) == #[trigger] rev_of(
                    self.rev(),
                    d,
                ).contains(k) by {
                assert(pts_of(old(self).pts(), k).contains(d.spec_index() as int) == rev_of(
                    old(self).rev(),
                    d,
                ).contains(k));
                assert(rev_of(mid_rev, d) == if src_ds@.contains(d.spec_index() as int) {
                    rev_of(old(self).rev(), d).insert(dst_var)
                } else {
                    rev_of(old(self).rev(), d)
                });
            }
            assert forall|k: K| #[trigger] pts_of(self.pts(), k) == if k == dst_var {
                pts_of(old(self).pts(), k).union(src_ds@)
            } else {
                pts_of(old(self).pts(), k)
            } by {}
        }
        changed
    }

    /// Performs pts(dst_var) = pts(dst_var) U pts(src_var).
    pub fn union_pts(&mut self, dst_var: K, src_var: K) -> (r: bool)
        requires
            old(self).wf(),
        ensures
            final(self).wf(),
            forall|k: K| #[trigger] pts_of(final(self).pts(), k) == if k == dst_var {
                pts_of(old(self).pts(), k).union(pts_of(old(self).pts(), src_var))
            } else {
                pts_of(old(self).pts(), k)
            },
            r == (pts_of(final(self).pts(), dst_var) != pts_of(old(self).pts(), dst_var)),
    {
        let src = match self.get_pts(src_var) {
            Some(src_ds) => Some(src_ds.clone()),
            None => None,
        };
        match src {
            Some(src_ds) => self.union_pts_to(dst_var, &src_ds),
            None => {
                proof {
                    assert forall|k: K| #[trigger] pts_of(self.pts(), k) == if k == dst_var {
                        pts_of(old(self).pts(), k).union(pts_of(old(self).pts(), src_var))
                    } else {
                        pts_of(old(self).pts(), k)
                    } by {
                        assert(pts_of(old(self).pts(), src_var) =~= Set::<int>::empty());
                        assert(pts_of(old(self).pts(), k).union(Set::<int>::empty()) =~= pts_of(old(self).pts(), k));
                    }
                }
                false
            },
        }
    }

    /// Removes element from the points-to set of var.
    pub fn remove_pts_elem(&mut self, var: K, elem: D) -> (r: bool)
        requires
            old(self).wf(),
        ensures
            final(self).wf(),
            forall|k: K| #[trigger] pts_of(final(self).pts(), k) == if k == var {
                pts_of(old(self).pts(), k).remove(elem.spec_index() as int)
            } else {
                pts_of(old(self).pts(), k)
            },
            r == pts_of(old(self).pts(), var).contains(elem.spec_index() as int),
    {
        let ghost old_pts = self.pts_map@;
        let ghost old_rev = self.rev_pts_map@;
        // Remove var from rev_pts_map[elem]
        if self.rev_pts_map.contains_key(&elem) {
            let vars = self.rev_pts_map.entry(elem).or_insert(HashSet::new());
            vars.remove(&var);
            assert(self.rev_pts_map@ == old_rev.insert(elem, *vars));
        }
        let ghost mid_rev = self.rev_pts_map@;
        let r = if self.pts_map.contains_key(&var) {
            proof {
                assert(old(self).pts().contains_key(var));
            }
            let pts = self.pts_map.entry(var).or_insert(HybridPointsToSet::new());
            let removed = pts.remove(elem);
            assert(self.pts_map@ == old_pts.insert(var, *pts));
            removed
        } else {
            false
        };
        proof {
            let e = elem.spec_index() as int;
            assert forall|k: K| #[trigger] self.pts().contains_key(k) implies self.pts()[k].well_formed() by {
                if k != var {
                    assert(old(self).pts().contains_key(k));
                }
            }
            assert forall|k: K, d: D|
                #[trigger] pts_of(self.pts(), k).contains(d.spec_index() as int) == #[trigger] rev_of(
                    self.rev(),
                    d,
                ).contains(k) by {
                if d.spec_index() == elem.spec_index() {
                    D::lemma_index_injective(d, elem);
                }
                assert(pts_of(old(self).pts(), k).contains(d.spec_index() as int) == rev_of(
                    old(self).rev(),
                    d,
                ).contains(k));
            }
            assert forall|k: K| #[trigger] pts_of(self.pts(), k) == if k == var {
                pts_of(old(self).pts(), k).remove(e)
            } else {
                pts_of(old(self).pts(), k)
            } by {
                if k == var && !old_pts.contains_key(var) {
                    assert(pts_of(old(self).pts(), k).remove(e) =~= Set::<int>::empty());
                }
            }
        }
        r
    }

    /// Fully clears the points-to set of var.
    pub fn clear_pts(&mut self, var: K)
        requires
            old(self).wf(),
        ensures
            final(self).wf(),
            forall|k: K| #[trigger] pts_of(final(self).pts(), k) == if k == var {
                Set::<int>::empty()
            } else {
                pts_of(old(self).pts(), k)
            },
    {
        let ghost old_pts = self.pts_map@;
        if self.pts_map.contains_key(&var) {
            proof {
                assert(old(self).pts().contains_key(var));
            }
            let pts = self.pts_map.get(&var).unwrap().clone();
            let mut it = pts.iter();
            loop
                invariant
                    obeys_key_model::<K>(),
                    obeys_key_model::<D>(),
                    old(self).wf(),
                    pts@ == pts_of(old(self).pts(), var),
                    it.wf(),
                    it.remaining().finite(),
                    it.remaining().subset_of(pts@),
                    self.pts() == old(self).pts(),
                    forall|d: D| #[trigger] rev_of(self.rev(), d) == if pts@.contains(d.spec_index() as int) && !it.remaining().contains(d.spec_index() as int) {
                        rev_of(old(self).rev(), d).remove(var)
                    } else {
                        rev_of(old(self).rev(), d)
                    },
                ensures
                    it.remaining() == Set::<int>::empty(),
                decreases it.remaining().len(),
            {
                let ghost before_it = it.remaining();
                let ghost before_rev = self.rev();
                match it.next() {
                    None => {
                        break;
                    },
                    Some(elem) => {
                        proof {
                            assert(pts_of(old(self).pts(), var).contains(elem.spec_index() as int));
                            assert(rev_of(old(self).rev(), elem).contains(var));
                            assert(rev_of(before_rev, elem) == rev_of(old(self).rev(), elem));
                        }
                        let ks = self.rev_pts_map.entry(elem).or_insert(HashSet::new());
                        ks.remove(&var);
                        assert(self.rev_pts_map@ == before_rev.insert(elem, *ks));
                        proof {
                            assert forall|d: D| #[trigger] rev_of(self.rev(), d) == if pts@.contains(d.spec_index() as int) && !it.remaining().contains(d.spec_index() as int) {
                                rev_of(old(self).rev(), d).remove(var)
                            } else {
                                rev_of(old(self).rev(), d)
                            } by {
                                if d.spec_index() == elem.spec_index() {
                                    D::lemma_index_injective(d, elem);
                                }
                                assert(rev_of(before_rev, d) == if pts@.contains(d.spec_index() as int) && !before_it.contains(d.spec_index() as int) {
                                    rev_of(old(self).rev(), d).remove(var)
                                } else {
                                    rev_of(old(self).rev(), d)
                                });
                                if d == elem {
                                    assert(rev_of(self.rev(), d) =~= rev_of(before_rev, d).remove(var));
                                }
                            }
                            assert(it.remaining().len() < before_it.len());
                        }
                    },
                }
            }
            let ghost mid_pts = self.pts_map@;
            let ghost loop_rev = self.rev();
            let ds = self.pts_map.entry(var).or_insert(HybridPointsToSet::new());
            ds.clear();
            assert(self.pts_map@ == mid_pts.insert(var, *ds));
            proof {
                assert forall|k: K, d: D|
                    #[trigger] pts_of(self.pts(), k).contains(d.spec_index() as int) == #[trigger] rev_of(
                        self.rev(),
                        d,
                    ).contains(k) by {
                    assert(pts_of(old(self).pts(), k).contains(d.spec_index() as int) == rev_of(
                        old(self).rev(),
                        d,
                    ).contains(k));
                    assert(rev_of(loop_rev, d) == if pts@.contains(d.spec_index() as int) {
                        rev_of(old(self).rev(), d).remove(var)
                    } else {
                        rev_of(old(self).rev(), d)
                    });
                    assert(pts_of(old(self).pts(), var).contains(d.spec_index() as int) == rev_of(
                        old(self).rev(),
                        d,
                    ).contains(var));
                }
            }
        }
        proof {
            assert forall|k: K| #[trigger] self.pts().contains_key(k) implies self.pts()[k].well_formed() by {
                if k != var {
                    assert(old(self).pts().contains_key(k));
                }
            }
            assert forall|k: K, d: D|
                #[trigger] pts_of(self.pts(), k).contains(d.spec_index() as int) == #[trigger] rev_of(
                    self.rev(),
                    d,
                ).contains(k) by {
                assert(pts_of(old(self).pts(), k).contains(d.spec_index() as int) == rev_of(
                    old(self).rev(),
                    d,
                ).contains(k));
            }
            assert forall|k: K| #[trigger] pts_of(self.pts(), k) == if k == var {
                Set::<int>::empty()
            } else {
                pts_of(old(self).pts(), k)
            } by {
                if k == var && !old_pts.contains_key(var) {
                    assert(pts_of(old(self).pts(), k) =~= Set::<int>::empty());
                }
            }
        }
    }

    /// Adds element to the points-to set associated with var.
    pub fn add_pts(&mut self, var: K, elem: D) -> (r: bool)
        requires
            old(self).wf(),
            idx_ok::<D>(elem.spec_index() as int),
        ensures
            final(self).wf(),
            forall|k: K| #[trigger] pts_of(final(self).pts(), k) == if k == var {
                pts_of(old(self).pts(), k).insert(elem.spec_index() as int)
            } else {
                pts_of(old(self).pts(), k)
            },
            r == !pts_of(old(self).pts(), var).contains(elem.spec_index() as int),
    {
        let ghost old_pts = self.pts_map@;
        let ghost old_rev = self.rev_pts_map@;
        proof {
            if old_pts.contains_key(var) {
                assert(old(self).pts().contains_key(var));
            }
        }
        let ks = self.rev_pts_map.entry(elem).or_insert(HashSet::new());
        ks.insert(var);
        assert(self.rev_pts_map@ == old_rev.insert(elem, *ks));
        let ds = self.pts_map.entry(var).or_insert(HybridPointsToSet::new());
        assert(ds.well_formed());
        let changed = ds.insert(elem);
        assert(self.pts_map@ == old_pts.insert(var, *ds));
        proof {
            let e = elem.spec_index() as int;
            assert forall|k: K| #[trigger] self.pts().contains_key(k) implies self.pts()[k].well_formed() by {
                if k != var {
                    assert(old(self).pts().contains_key(k));
                }
            }
            assert forall|k: K, d: D|
                #[trigger] pts_of(self.pts(), k).contains(d.spec_index() as int) == #[trigger] rev_of(
                    self.rev(),
                    d,
                ).contains(k) by {
                if d.spec_index() == elem.spec_index() {
                    D::lemma_index_injective(d, elem);
                }
                assert(pts_of(old(self).pts(), k).contains(d.spec_index() as int) == rev_of(
                    old(self).rev(),
                    d,
                ).contains(k));
            }
            assert forall|k: K| #[trigger] pts_of(self.pts(), k) == if k == var {
                pts_of(old(self).pts(), k).insert(e)
            } else {
                pts_of(old(self).pts(), k)
            } by {
                if k == var && !old_pts.contains_key(var) {
                    assert(pts_of(old(self).pts(), k) =~= Set::<int>::empty());
                }
            }
        }
        changed
    }
}

} // verus!

verus! {

/// Diff points-to data.
/// This is an optimisation on top of the base points-to data structure.
/// The points-to information is propagated incrementally only for the different parts.
pub struct DiffPTData<K, D, DS> {
    /// Diff points-to to be propagated.
    diff_pts_map: HashMap<K, DS>,
    /// Points-to already propagated.
    propa_pts_map: HashMap<K, DS>,
    marker: core::marker::PhantomData<D>,
}

impl<K: Hash + Eq + Copy, D: Idx> DiffPTData<K, D, HybridPointsToSet<D>> {
    /// The points-to sets still to be propagated, by key.
    pub closed spec fn diff(&self) -> Map<K, HybridPointsToSet<D>> {
        self.diff_pts_map@
    }

    /// The points-to sets already propagated, by key.
    pub closed spec fn propa(&self) -> Map<K, HybridPointsToSet<D>> {
        self.propa_pts_map@
    }

    /// The whole points-to set of `k`: what was propagated and what is still to be.
    pub open spec fn total_of(&self, k: K) -> Set<int> {
        pts_of(self.diff(), k).union(pts_of(self.propa(), k))
    }

    /// Every set is well formed, and no element is both propagated and still to
    /// be propagated.
    pub open spec fn wf(&self) -> bool {
        &&& obeys_key_model::<K>()
        &&& vstd::laws_eq::obeys_concrete_eq::<K>()
        &&& forall|k: K| #[trigger] self.diff().contains_key(k) ==> self.diff()[k].well_formed()
        &&& forall|k: K| #[trigger] self.propa().contains_key(k) ==> self.propa()[k].well_formed()
        &&& forall|k: K| #[trigger] pts_of(self.diff(), k).disjoint(pts_of(self.propa(), k))
    }

    pub fn new() -> (r: Self)
        requires
            obeys_key_model::<K>(),
            vstd::laws_eq::obeys_concrete_eq::<K>(),
        ensures
            r.wf(),
            r.diff() == Map::<K, HybridPointsToSet<D>>::empty(),
            r.propa() == Map::<K, HybridPointsToSet<D>>::empty(),
    {
        let r = DiffPTData {
            diff_pts_map: HashMap::new(),
            propa_pts_map: HashMap::new(),
            marker: core::marker::PhantomData,
        };
        assert forall|k: K| #[trigger] pts_of(r.diff(), k).disjoint(pts_of(r.propa(), k)) by {}
        r
    }

    pub fn clear(&mut self)
        requires
            old(self).wf(),
        ensures
            final(self).wf(),
            final(self).diff() == Map::<K, HybridPointsToSet<D>>::empty(),
            final(self).propa() == Map::<K, HybridPointsToSet<D>>::empty(),
    {
        self.diff_pts_map.clear();
        self.propa_pts_map.clear();
        assert forall|k: K| #[trigger] pts_of(self.diff(), k).disjoint(pts_of(self.propa(), k)) by {}
    }

    /// Adds element to the points-to set associated with var.
    /// Returns false if elem is already in this set
    pub fn add_pts(&mut self, var: K, elem: D) -> (r: bool)
        requires
            old(self).wf(),
            idx_ok::<D>(elem.spec_index() as int),
        ensures
            final(self).wf(),
            final(self).propa() == old(self).propa(),
            forall|k: K| #[trigger] pts_of(final(self).diff(), k) == if k == var
                && !pts_of(old(self).propa(), var).contains(elem.spec_index() as int) {
                pts_of(old(self).diff(), k).insert(elem.spec_index() as int)
            } else {
                pts_of(old(self).diff(), k)
            },
            final(self).diff().dom() == if pts_of(old(self).propa(), var).contains(
                elem.spec_index() as int,
            ) {
                old(self).diff().dom()
            } else {
                old(self).diff().dom().insert(var)
            },
            forall|k: K| #[trigger] final(self).total_of(k) == if k == var {
                old(self).total_of(k).insert(elem.spec_index() as int)
            } else {
                old(self).total_of(k)
            },
            r == !old(self).total_of(var).contains(elem.spec_index() as int),
    {
        let ghost e = elem.spec_index() as int;
        if let Some(propa) = self.propa_pts_map.get(&var) {
            proof {
                assert(old(self).propa().contains_key(var));
            }
            if propa.contains(elem) {
                proof {
                    assert forall|k: K| #[trigger] self.total_of(k) == if k == var {
                        old(self).total_of(k).insert(e)
                    } else {
                        old(self).total_of(k)
                    } by {
                        if k == var {
                            assert(self.total_of(k) =~= old(self).total_of(k).insert(e));
                        }
                    }
                }
                return false;
            }
        }
        let ghost old_diff = self.diff_pts_map@;
        proof {
            if old_diff.contains_key(var) {
                assert(old(self).diff().contains_key(var));
            }
        }
        let diff = self.diff_pts_map.entry(var).or_insert(HybridPointsToSet::new());
        let changed = diff.insert(elem);
        assert(self.diff_pts_map@ == old_diff.insert(var, *diff));
        proof {
            assert forall|k: K| #[trigger] self.diff().contains_key(k) implies self.diff()[k].well_formed() by {
                if k != var {
                    assert(old(self).diff().contains_key(k));
                }
            }
            assert forall|k: K| #[trigger] pts_of(self.diff(), k) == if k == var
                && !pts_of(old(self).propa(), var).contains(e) {
                pts_of(old(self).diff(), k).insert(e)
            } else {
                pts_of(old(self).diff(), k)
            } by {
                if k == var && !old_diff.contains_key(var) {
                    assert(pts_of(old(self).diff(), k) =~= Set::<int>::empty());
                }
            }
            assert forall|k: K| #[trigger] pts_of(self.diff(), k).disjoint(pts_of(self.propa(), k)) by {
                assert(pts_of(old(self).diff(), k).disjoint(pts_of(old(self).propa(), k)));
            }
            assert forall|k: K| #[trigger] self.total_of(k) == if k == var {
                old(self).total_of(k).insert(e)
            } else {
                old(self).total_of(k)
            } by {
                if k == var {
                    assert(self.total_of(k) =~= old(self).total_of(k).insert(e));
                }
            }
            assert(self.diff().dom() =~= old(self).diff().dom().insert(var));
        }
        changed
    }

    /// Performs diff_pts(dst_var) = diff_pts(dst_var) U (src_ds - propa_pts(dst_var)).
    pub fn union_pts_to(&mut self, dst_var: K, src_ds: &HybridPointsToSet<D>) -> (r: bool)
        requires
            old(self).wf(),
            src_ds.well_formed(),
        ensures
            final(self).wf(),
            final(self).diff().dom() == old(self).diff().dom().insert(dst_var),
            final(self).propa().dom() == old(self).propa().dom().insert(dst_var),
            forall|k: K| #[trigger] pts_of(final(self).propa(), k) == pts_of(old(self).propa(), k),
            forall|k: K| #[trigger] pts_of(final(self).diff(), k) == if k == dst_var {
                pts_of(old(self).diff(), k).union(src_ds@.difference(pts_of(old(self).propa(), k)))
            } else {
                pts_of(old(self).diff(), k)
            },
            forall|k: K| #[trigger] final(self).total_of(k) == if k == dst_var {
                old(self).total_of(k).union(src_ds@)
            } else {
                old(self).total_of(k)
            },
            r == (pts_of(final(self).diff(), dst_var) != pts_of(old(self).diff(), dst_var)),
    {
        let ghost old_diff = self.diff_pts_map@;
        let ghost old_propa = self.propa_pts_map@;
        proof {
            if old_diff.contains_key(dst_var) {
                assert(old(self).diff().contains_key(dst_var));
            }
            if old_propa.contains_key(dst_var) {
                assert(old(self).propa().contains_key(dst_var));
            }
        }
        let diff = self.diff_pts_map.entry(dst_var).or_insert(HybridPointsToSet::new());
        let propa = self.propa_pts_map.entry(dst_var).or_insert(HybridPointsToSet::new());
        let mut new = src_ds.clone();
        new.subtract(propa);
        let changed = diff.union(&new);
        assert(self.diff_pts_map@ == old_diff.insert(dst_var, *diff));
        assert(self.propa_pts_map@ == old_propa.insert(dst_var, *propa));
        proof {
            let pd = pts_of(old(self).propa(), dst_var);
            assert(propa@ == pd);
            assert forall|k: K| #[trigger] self.diff().contains_key(k) implies self.diff()[k].well_formed() by {
                if k != dst_var {
                    assert(old(self).diff().contains_key(k));
                }
            }
            assert forall|k: K| #[trigger] self.propa().contains_key(k) implies self.propa()[k].well_formed() by {
                if k != dst_var {
                    assert(old(self).propa().contains_key(k));
                }
            }
            assert forall|k: K| #[trigger] pts_of(self.propa(), k) == pts_of(old(self).propa(), k) by {}
            assert forall|k: K| #[trigger] pts_of(self.diff(), k) == if k == dst_var {
                pts_of(old(self).diff(), k).union(src_ds@.difference(pts_of(old(self).propa(), k)))
            } else {
                pts_of(old(self).diff(), k)
            } by {}
            assert forall|k: K| #[trigger] pts_of(self.diff(), k).disjoint(pts_of(self.propa(), k)) by {
                assert(pts_of(old(self).diff(), k).disjoint(pts_of(old(self).propa(), k)));
            }
            assert forall|k: K| #[trigger] self.total_of(k) == if k == dst_var {
                old(self).total_of(k).union(src_ds@)
            } else {
                old(self).total_of(k)
            } by {
                if k == dst_var {
                    assert(self.total_of(k) =~= old(self).total_of(k).union(src_ds@));
                }
            }
            assert(self.diff().dom() =~= old(self).diff().dom().insert(dst_var));
            assert(self.propa().dom() =~= old(self).propa().dom().insert(dst_var));
        }
        changed
    }

    /// diff_pts(dst_var) = diff_pts(dst_var) U (diff_pts(src_var) - propa_pts(dst_var)).
    pub fn union_diff_pts(&mut self, dst_var: K, src_var: K) -> (r: bool)
        requires
            old(self).wf(),
        ensures
            final(self).wf(),
            !(dst_var != src_var && old(self).diff().contains_key(src_var)) ==> {
                &&& final(self).diff() == old(self).diff()
                &&& final(self).propa() == old(self).propa()
                &&& !r
            },
            dst_var != src_var && old(self).diff().contains_key(src_var) ==> {
                &&& final(self).diff().dom() == old(self).diff().dom().insert(dst_var)
                &&& final(self).propa().dom() == old(self).propa().dom().insert(dst_var)
                &&& forall|k: K| #[trigger] pts_of(final(self).propa(), k) == pts_of(old(self).propa(), k)
                &&& forall|k: K| #[trigger] pts_of(final(self).diff(), k) == if k == dst_var {
                    pts_of(old(self).diff(), k).union(
                        pts_of(old(self).diff(), src_var).difference(pts_of(old(self).propa(), k)),
                    )
                } else {
                    pts_of(old(self).diff(), k)
                }
                &&& forall|k: K| #[trigger] final(self).total_of(k) == if k == dst_var {
                    old(self).total_of(k).union(pts_of(old(self).diff(), src_var))
                } else {
                    old(self).total_of(k)
                }
                &&& r == (pts_of(final(self).diff(), dst_var) != pts_of(old(self).diff(), dst_var))
            },
    {
        proof {
            reveal(vstd::laws_eq::obeys_concrete_eq);
        }
        if dst_var == src_var {
            return false;
        }
        let mut changed = false;
        let src = match self.diff_pts_map.get(&src_var) {
            Some(diff) => Some(diff.clone()),
            None => None,
        };
        if let Some(src_ds) = src {
            proof {
                assert(old(self).diff().contains_key(src_var));
            }
            changed = self.union_pts_to(dst_var, &src_ds);
        }
        changed
    }

    /// diff_pts(dst_var) = diff_pts(dst_var) U (pts(src_var) - propa_pts(dst_var)).
    pub fn union_pts(&mut self, dst_var: K, src_var: K) -> (r: bool)
        requires
            old(self).wf(),
        ensures
            final(self).wf(),
            dst_var == src_var ==> final(self).diff() == old(self).diff() && final(self).propa()
                == old(self).propa() && !r,
            dst_var != src_var ==> {
                &&& forall|k: K| #[trigger] pts_of(final(self).propa(), k) == pts_of(old(self).propa(), k)
                &&& forall|k: K| #[trigger] pts_of(final(self).diff(), k) == if k == dst_var {
                    pts_of(old(self).diff(), k).union(
                        old(self).total_of(src_var).difference(pts_of(old(self).propa(), k)),
                    )
                } else {
                    pts_of(old(self).diff(), k)
                }
                &&& forall|k: K| #[trigger] final(self).total_of(k) == if k == dst_var {
                    old(self).total_of(k).union(old(self).total_of(src_var))
                } else {
                    old(self).total_of(k)
                }
                &&& r == (pts_of(final(self).diff(), dst_var) != pts_of(old(self).diff(), dst_var))
            },
    {
        proof {
            reveal(vstd::laws_eq::obeys_concrete_eq);
        }
        if dst_var == src_var {
            return false;
        }
        let mut changed = false;
        let src = match self.diff_pts_map.get(&src_var) {
            Some(diff) => Some(diff.clone()),
            None => None,
        };
        let ghost s0 = *self;
        if let Some(src_ds) = src {
            proof {
                assert(old(self).diff().contains_key(src_var));
            }
            changed = self.union_pts_to(dst_var, &src_ds);
        }
        let ghost s1 = *self;
        proof {
            assert(pts_of(s1.propa(), src_var) == pts_of(old(self).propa(), src_var));
        }
        let src = match self.propa_pts_map.get(&src_var) {
            Some(propa) => Some(propa.clone()),
            None => None,
        };
        if let Some(src_ds) = src {
            proof {
                assert(s1.propa().contains_key(src_var));
            }
            let c = self.union_pts_to(dst_var, &src_ds);
            changed = changed || c;
        }
        proof {
            let d0 = pts_of(old(self).diff(), dst_var);
            let d1 = pts_of(s1.diff(), dst_var);
            let d2 = pts_of(self.diff(), dst_var);
            assert(d0.subset_of(d1));
            assert(d1.subset_of(d2));
            if d2 == d0 {
                assert(d1 =~= d0);
            }
            assert forall|k: K| #[trigger] pts_of(self.propa(), k) == pts_of(old(self).propa(), k) by {
                assert(pts_of(s1.propa(), k) == pts_of(old(self).propa(), k));
            }
            assert forall|k: K| #[trigger] pts_of(self.diff(), k) == if k == dst_var {
                pts_of(old(self).diff(), k).union(
                    old(self).total_of(src_var).difference(pts_of(old(self).propa(), k)),
                )
            } else {
                pts_of(old(self).diff(), k)
            } by {
                assert(pts_of(s1.propa(), k) == pts_of(old(self).propa(), k));
                assert(pts_of(s1.diff(), k) == if k == dst_var && old(self).diff().contains_key(src_var) {
                    pts_of(old(self).diff(), k).union(pts_of(old(self).diff(), src_var).difference(pts_of(old(self).propa(), k)))
                } else {
                    pts_of(old(self).diff(), k)
                });
                if k == dst_var {
                    assert(pts_of(self.diff(), k) =~= pts_of(old(self).diff(), k).union(
                        old(self).total_of(src_var).difference(pts_of(old(self).propa(), k)),
                    ));
                }
            }
            assert forall|k: K| #[trigger] self.total_of(k) == if k == dst_var {
                old(self).total_of(k).union(old(self).total_of(src_var))
            } else {
                old(self).total_of(k)
            } by {
                assert(pts_of(s1.propa(), k) == pts_of(old(self).propa(), k));
                if k == dst_var {
                    assert(self.total_of(k) =~= old(self).total_of(k).union(old(self).total_of(src_var)));
                } else {
                    assert(self.total_of(k) =~= old(self).total_of(k));
                }
            }
        }
        changed
    }

    /// Removes element from the points-to set of var.
    pub fn remove_pts_elem(&mut self, var: K, elem: D) -> (r: bool)
        requires
            old(self).wf(),
        ensures
            final(self).wf(),
            final(self).diff().dom() == old(self).diff().dom().insert(var),
            final(self).propa().dom() == old(self).propa().dom().insert(var),
            forall|k: K| #[trigger] pts_of(final(self).diff(), k) == if k == var {
                pts_of(old(self).diff(), k).remove(elem.spec_index() as int)
            } else {
                pts_of(old(self).diff(), k)
            },
            forall|k: K| #[trigger] pts_of(final(self).propa(), k) == if k == var {
                pts_of(old(self).propa(), k).remove(elem.spec_index() as int)
            } else {
                pts_of(old(self).propa(), k)
            },
            r == old(self).total_of(var).contains(elem.spec_index() as int),
    {
        let ghost e = elem.spec_index() as int;
        let ghost old_diff = self.diff_pts_map@;
        let ghost old_propa = self.propa_pts_map@;
        proof {
            if old_diff.contains_key(var) {
                assert(old(self).diff().contains_key(var));
            }
            if old_propa.contains_key(var) {
                assert(old(self).propa().contains_key(var));
            }
        }
        let diff = self.diff_pts_map.entry(var).or_insert(HybridPointsToSet::new());
        let propa = self.propa_pts_map.entry(var).or_insert(HybridPointsToSet::new());
        let a = diff.remove(elem);
        let b = propa.remove(elem);
        assert(self.diff_pts_map@ == old_diff.insert(var, *diff));
        assert(self.propa_pts_map@ == old_propa.insert(var, *propa));
        proof {
            assert forall|k: K| #[trigger] self.diff().contains_key(k) implies self.diff()[k].well_formed() by {
                if k != var {
                    assert(old(self).diff().contains_key(k));
                }
            }
            assert forall|k: K| #[trigger] self.propa().contains_key(k) implies self.propa()[k].well_formed() by {
                if k != var {
                    assert(old(self).propa().contains_key(k));
                }
            }
            assert forall|k: K| #[trigger] pts_of(self.diff(), k) == if k == var {
                pts_of(old(self).diff(), k).remove(e)
            } else {
                pts_of(old(self).diff(), k)
            } by {
                if k == var && !old_diff.contains_key(var) {
                    assert(pts_of(old(self).diff(), k).remove(e) =~= Set::<int>::empty());
                }
            }
            assert forall|k: K| #[trigger] pts_of(self.propa(), k) == if k == var {
                pts_of(old(self).propa(), k).remove(e)
            } else {
                pts_of(old(self).propa(), k)
            } by {
                if k == var && !old_propa.contains_key(var) {
                    assert(pts_of(old(self).propa(), k).remove(e) =~= Set::<int>::empty());
                }
            }
            assert forall|k: K| #[trigger] pts_of(self.diff(), k).disjoint(pts_of(self.propa(), k)) by {
                assert(pts_of(old(self).diff(), k).disjoint(pts_of(old(self).propa(), k)));
            }
            assert(self.diff().dom() =~= old(self).diff().dom().insert(var));
            assert(self.propa().dom() =~= old(self).propa().dom().insert(var));
        }
        a || b
    }

    /// Get diff points to.
    pub fn get_diff_pts(&self, var: K) -> (r: Option<&HybridPointsToSet<D>>)
        requires
            self.wf(),
        ensures
            match r {
                Some(ds) => self.diff().contains_key(var) && *ds == self.diff()[var]
                    && ds.well_formed(),
                None => !self.diff().contains_key(var),
            },
    {
        self.diff_pts_map.get(&var)
    }

    /// Returns a mutable reference to the diff points to set.
    pub fn get_mut_diff_pts(&mut self, var: K) -> (r: Option<&mut HybridPointsToSet<D>>)
        requires
            old(self).wf(),
        ensures
            match r {
                Some(ds) => {
                    &&& old(self).diff().contains_key(var)
                    &&& *ds == old(self).diff()[var]
                    &&& final(self).diff() == old(self).diff().insert(var, *final(ds))
                    &&& final(self).propa() == old(self).propa()
                },
                None => {
                    &&& !old(self).diff().contains_key(var)
                    &&& final(self).diff() == old(self).diff()
                    &&& final(self).propa() == old(self).propa()
                },
            },
    {
        match self.diff_pts_map.entry(var) {
            std::collections::hash_map::Entry::Occupied(o) => Some(o.into_mut()),
            std::collections::hash_map::Entry::Vacant(_) => None,
        }
    }

    /// Get propagated points to.
    pub fn get_propa_pts(&self, var: K) -> (r: Option<&HybridPointsToSet<D>>)
        requires
            self.wf(),
        ensures
            match r {
                Some(ds) => self.propa().contains_key(var) && *ds == self.propa()[var]
                    && ds.well_formed(),
                None => !self.propa().contains_key(var),
            },
    {
        self.propa_pts_map.get(&var)
    }

    /// Returns a mutable reference to the propa points to set.
    pub fn get_mut_propa_pts(&mut self, var: K) -> (r: Option<&mut HybridPointsToSet<D>>)
        requires
            old(self).wf(),
        ensures
            match r {
                Some(ds) => {
                    &&& old(self).propa().contains_key(var)
                    &&& *ds == old(self).propa()[var]
                    &&& final(self).propa() == old(self).propa().insert(var, *final(ds))
                    &&& final(self).diff() == old(self).diff()
                },
                None => {
                    &&& !old(self).propa().contains_key(var)
                    &&& final(self).diff() == old(self).diff()
                    &&& final(self).propa() == old(self).propa()
                },
            },
    {
        match self.propa_pts_map.entry(var) {
            std::collections::hash_map::Entry::Occupied(o) => Some(o.into_mut()),
            std::collections::hash_map::Entry::Vacant(_) => None,
        }
    }

    /// A write through `get_mut_diff_pts` that leaves the set of `var` well formed
    /// and apart from what was propagated for `var` keeps the invariant.
    pub proof fn lemma_diff_written_keeps_wf(before: &Self, after: &Self, var: K)
        requires
            before.wf(),
            before.diff().contains_key(var),
            after.diff() == before.diff().insert(var, after.diff()[var]),
            after.propa() == before.propa(),
            after.diff()[var].well_formed(),
            after.diff()[var]@.disjoint(pts_of(before.propa(), var)),
        ensures
            after.wf(),
    {
        assert forall|k: K| #[trigger] pts_of(after.diff(), k).disjoint(pts_of(after.propa(), k)) by {
            if k != var {
                assert(pts_of(after.diff(), k) == pts_of(before.diff(), k));
            }
        }
    }

    /// A write through `get_mut_propa_pts` that leaves the set of `var` well formed
    /// and apart from what is still to be propagated for `var` keeps the invariant.
    pub proof fn lemma_propa_written_keeps_wf(before: &Self, after: &Self, var: K)
        requires
            before.wf(),
            before.propa().contains_key(var),
            after.propa() == before.propa().insert(var, after.propa()[var]),
            after.diff() == before.diff(),
            after.propa()[var].well_formed(),
            pts_of(before.diff(), var).disjoint(after.propa()[var]@),
        ensures
            after.wf(),
    {
        assert forall|k: K| #[trigger] pts_of(after.diff(), k).disjoint(pts_of(after.propa(), k)) by {
            if k != var {
                assert(pts_of(after.propa(), k) == pts_of(before.propa(), k));
            }
        }
    }

    /// Sets all diff elems to propa elems.
    pub fn flush(&mut self, var: K)
        requires
            old(self).wf(),
        ensures
            final(self).wf(),
            !old(self).diff().contains_key(var) ==> final(self).diff() == old(self).diff()
                && final(self).propa() == old(self).propa(),
            old(self).diff().contains_key(var) ==> {
                &&& final(self).diff().dom() == old(self).diff().dom()
                &&& final(self).propa().dom() == old(self).propa().dom().insert(var)
                &&& forall|k: K| #[trigger] pts_of(final(self).diff(), k) == if k == var {
                    Set::<int>::empty()
                } else {
                    pts_of(old(self).diff(), k)
                }
                &&& forall|k: K| #[trigger] pts_of(final(self).propa(), k) == if k == var {
                    old(self).total_of(k)
                } else {
                    pts_of(old(self).propa(), k)
                }
            },
            forall|k: K| #[trigger] final(self).total_of(k) == old(self).total_of(k),
    {
        if !self.diff_pts_map.contains_key(&var) {
            return;
        }
        let ghost old_diff = self.diff_pts_map@;
        let ghost old_propa = self.propa_pts_map@;
        proof {
            assert(old(self).diff().contains_key(var));
            if old_propa.contains_key(var) {
                assert(old(self).propa().contains_key(var));
            }
        }
        let diff = self.diff_pts_map.entry(var).or_insert(HybridPointsToSet::new());
        let propa = self.propa_pts_map.entry(var).or_insert(HybridPointsToSet::new());
        propa.union(diff);
        diff.clear();
        assert(self.diff_pts_map@ == old_diff.insert(var, *diff));
        assert(self.propa_pts_map@ == old_propa.insert(var, *propa));
        proof {
            assert forall|k: K| #[trigger] self.diff().contains_key(k) implies self.diff()[k].well_formed() by {
                if k != var {
                    assert(old(self).diff().contains_key(k));
                }
            }
            assert forall|k: K| #[trigger] self.propa().contains_key(k) implies self.propa()[k].well_formed() by {
                if k != var {
                    assert(old(self).propa().contains_key(k));
                }
            }
            assert forall|k: K| #[trigger] pts_of(self.diff(), k) == if k == var {
                Set::<int>::empty()
            } else {
                pts_of(old(self).diff(), k)
            } by {}
            assert forall|k: K| #[trigger] pts_of(self.propa(), k) == if k == var {
                old(self).total_of(k)
            } else {
                pts_of(old(self).propa(), k)
            } by {
                if k == var {
                    assert(pts_of(self.propa(), k) =~= old(self).total_of(k));
                }
            }
            assert forall|k: K| #[trigger] pts_of(self.diff(), k).disjoint(pts_of(self.propa(), k)) by {
                assert(pts_of(old(self).diff(), k).disjoint(pts_of(old(self).propa(), k)));
            }
            assert forall|k: K| #[trigger] self.total_of(k) == old(self).total_of(k) by {
                assert(self.total_of(k) =~= old(self).total_of(k));
            }
            assert(self.diff().dom() =~= old(self).diff().dom());
            assert(self.propa().dom() =~= old(self).propa().dom().insert(var));
        }
    }

    /// Fully clears the points-to set of var.
    pub fn clear_pts(&mut self, var: K)
        requires
            old(self).wf(),
        ensures
            final(self).wf(),
            final(self).diff().dom() == old(self).diff().dom(),
            final(self).propa().dom() == old(self).propa().dom(),
            forall|k: K| #[trigger] pts_of(final(self).diff(), k) == if k == var {
                Set::<int>::empty()
            } else {
                pts_of(old(self).diff(), k)
            },
            forall|k: K| #[trigger] pts_of(final(self).propa(), k) == if k == var {
                Set::<int>::empty()
            } else {
                pts_of(old(self).propa(), k)
            },
    {
        self.clear_diff_set(var);
        self.clear_propa_pts(var);
    }

    /// Empties the set of `var` still to be propagated.
    fn clear_diff_set(&mut self, var: K)
        requires
            old(self).wf(),
        ensures
            final(self).wf(),
            final(self).diff().dom() == old(self).diff().dom(),
            final(self).propa() == old(self).propa(),
            forall|k: K| #[trigger] pts_of(final(self).diff(), k) == if k == var {
                Set::<int>::empty()
            } else {
                pts_of(old(self).diff(), k)
            },
    {
        let ghost old_diff = self.diff_pts_map@;
        if self.diff_pts_map.contains_key(&var) {
            proof {
                assert(old(self).diff().contains_key(var));
            }
            let diff = self.diff_pts_map.entry(var).or_insert(HybridPointsToSet::new());
            diff.clear();
            assert(self.diff_pts_map@ == old_diff.insert(var, *diff));
        }
        proof {
            assert forall|k: K| #[trigger] self.diff().contains_key(k) implies self.diff()[k].well_formed() by {
                if k != var {
                    assert(old(self).diff().contains_key(k));
                }
            }
            assert forall|k: K| #[trigger] pts_of(self.diff(), k) == if k == var {
                Set::<int>::empty()
            } else {
                pts_of(old(self).diff(), k)
            } by {}
            assert forall|k: K| #[trigger] pts_of(self.diff(), k).disjoint(pts_of(self.propa(), k)) by {
                assert(pts_of(old(self).diff(), k).disjoint(pts_of(old(self).propa(), k)));
            }
            assert forall|k: K| #[trigger] self.propa().contains_key(k) implies self.propa()[k].well_formed() by {
                assert(old(self).propa().contains_key(k));
            }
            assert(self.diff().dom() =~= old(self).diff().dom());
        }
    }

    /// Clear propagated points-to set of var: the propagated set of `var` is
    /// emptied, and nothing else changes.
    pub fn clear_diff_pts(&mut self, var: K)
        requires
            old(self).wf(),
        ensures
            final(self).wf(),
            final(self).propa().dom() == old(self).propa().dom(),
            final(self).diff() == old(self).diff(),
            forall|k: K| #[trigger] pts_of(final(self).propa(), k) == if k == var {
                Set::<int>::empty()
            } else {
                pts_of(old(self).propa(), k)
            },
    {
        self.clear_propa_pts(var);
    }

    /// Clear propagated points-to set of var.
    pub fn clear_propa_pts(&mut self, var: K)
        requires
            old(self).wf(),
        ensures
            final(self).wf(),
            final(self).propa().dom() == old(self).propa().dom(),
            final(self).diff() == old(self).diff(),
            forall|k: K| #[trigger] pts_of(final(self).propa(), k) == if k == var {
                Set::<int>::empty()
            } else {
                pts_of(old(self).propa(), k)
            },
    {
        let ghost old_propa = self.propa_pts_map@;
        if self.propa_pts_map.contains_key(&var) {
            proof {
                assert(old(self).propa().contains_key(var));
            }
            let propa = self.propa_pts_map.entry(var).or_insert(HybridPointsToSet::new());
            propa.clear();
            assert(self.propa_pts_map@ == old_propa.insert(var, *propa));
        }
        proof {
            assert forall|k: K| #[trigger] self.propa().contains_key(k) implies self.propa()[k].well_formed() by {
                if k != var {
                    assert(old(self).propa().contains_key(k));
                }
            }
            assert forall|k: K| #[trigger] pts_of(self.propa(), k) == if k == var {
                Set::<int>::empty()
            } else {
                pts_of(old(self).propa(), k)
            } by {}
            assert forall|k: K| #[trigger] pts_of(self.diff(), k).disjoint(pts_of(self.propa(), k)) by {
                assert(pts_of(old(self).diff(), k).disjoint(pts_of(old(self).propa(), k)));
            }
            assert forall|k: K| #[trigger] self.diff().contains_key(k) implies self.diff()[k].well_formed() by {
                assert(old(self).diff().contains_key(k));
            }
            assert(self.propa().dom() =~= old(self).propa().dom());
        }
    }
}


/// A points-to map and its reverse agree: the set of `var` holds `elem` exactly
/// where the reverse set of `elem` holds `var`, so that what `add_pts` writes is
/// read back from both sides.
pub proof fn law_points_to_matches_reverse<K: Hash + Eq + Copy, D: Idx + Hash + Eq>(data: &BasePTData<K, HashSet<K>, D, HybridPointsToSet<D>>, var: K, elem: D)
    requires
        data.wf(),
    ensures
        pts_of(data.pts(), var).contains(elem.spec_index() as int) <==> rev_of(data.rev(), elem).contains(var),
{
}

} // verus!
