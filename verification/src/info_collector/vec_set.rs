//! A vector whose elements are all distinct: random access by position, with
//! each value stored once.

use std::rc::Rc;
use vstd::prelude::*;
use crate::util::SameValue;

verus! {

/// A vector whose elements are all distinct. Inserting a value that is already
/// stored gives back its position and leaves the vector as it is; values are the
/// same when they stand for the same thing.
pub struct VecSet<T> {
    pub data: Vec<Rc<T>>,
}

impl<T: SameValue> View for VecSet<T> {
    type V = Seq<T::Model>;

    open spec fn view(&self) -> Seq<T::Model> {
        self.data@.map_values(|r: Rc<T>| (*r).model())
    }
}

impl<T: SameValue> VecSet<T> {
    /// No value is stored twice.
    pub open spec fn wf(&self) -> bool {
        forall|i: int, j: int| 0 <= i < self@.len() && 0 <= j < self@.len() && i != j ==> #[trigger] self@[i] != #[trigger] self@[j]
    }
}

impl<T: SameValue> Default for VecSet<T> {
    fn default() -> (r: Self)
        ensures
            r.wf(),
            r@ == Seq::<T::Model>::empty(),
    {
        let r = VecSet { data: Vec::new() };
        assert(r@ =~= Seq::<T::Model>::empty());
        r
    }
}

impl<T: SameValue> VecSet<T> {
    /// An empty set.
    pub fn new() -> (r: Self)
        ensures
            r.wf(),
            r@ == Seq::<T::Model>::empty(),
    {
        let r = VecSet { data: Vec::new() };
        assert(r@ =~= Seq::<T::Model>::empty());
        r
    }

    /// The position of `value`, which is appended if it is not stored yet.
    pub fn insert(&mut self, value: T) -> (idx: usize)
        requires
            old(self).wf(),
        ensures
            final(self).wf(),
            old(self)@.contains(value.model()) ==> final(self)@ == old(self)@,
            !old(self)@.contains(value.model()) ==> final(self)@ == old(self)@.push(value.model()) && idx == old(self)@.len(),
            idx < final(self)@.len(),
            final(self)@[idx as int] == value.model(),
    {
        let n = self.data.len();
        let mut i: usize = 0;
        while i < n
            invariant
                i <= n,
                n == self@.len(),
                self.wf(),
                self@ == old(self)@,
                forall|j: int| 0 <= j < i ==> self@[j] != value.model(),
            decreases n - i,
        {
            let item: &T = &self.data[i];
            if item.same_value(&value) {
                assert(self@[i as int] == value.model());
                return i;
            }
            i = i + 1;
        }
        let ghost before = self@;
        let ghost m = value.model();
        self.data.push(Rc::new(value));
        proof {
            assert(self@ =~= before.push(m));
            assert(!before.contains(m)) by {
                if before.contains(m) {
                    let j = choose|j: int| 0 <= j < before.len() && before[j] == m;
                    assert(before[j] != m);
                }
            }
        }
        n
    }
}


/// A value stands at one position of a vector set at most, so that inserting it
/// again gives the position it has.
pub proof fn law_one_position_per_value<T: SameValue>(set: &VecSet<T>, i: int, j: int)
    requires
        set.wf(),
        0 <= i < set@.len(),
        0 <= j < set@.len(),
        set@[i] == set@[j],
    ensures
        i == j,
{
}

} // verus!
