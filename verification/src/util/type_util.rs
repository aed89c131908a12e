//! Numbering of the types that the analysis meets.

use vstd::prelude::*;
use crate::util::SameValue;

verus! {

/// Numbers types: each type the cache meets gets the next number, once, and can
/// be retrieved by it.
pub struct TypeCache<T> {
    type_list: Vec<T>,
}

impl<T: SameValue + Copy> TypeCache<T> {
    /// What the numbered types stand for, by number.
    pub closed spec fn types(&self) -> Seq<T::Model> {
        self.type_list@.map_values(|t: T| t.model())
    }

    /// No type is numbered twice.
    pub open spec fn wf(&self) -> bool {
        forall|i: int, j: int|
            0 <= i < self.types().len() && 0 <= j < self.types().len() && i != j ==> #[trigger] self.types()[i] != #[trigger] self.types()[j]
    }

    pub fn new() -> (r: Self)
        ensures
            r.wf(),
            r.types() == Seq::<T::Model>::empty(),
    {
        let r = TypeCache { type_list: Vec::new() };
        assert(r.types() =~= Seq::<T::Model>::empty());
        r
    }

    /// Returns an index that can be used to retrieve ty via get_type: the type's
    /// number, which it gets now if the cache has not met it before.
    pub fn get_index(&mut self, ty: &T) -> (index: usize)
        requires
            old(self).wf(),
        ensures
            final(self).wf(),
            old(self).types().contains(ty.model()) ==> final(self).types() == old(self).types(),
            !old(self).types().contains(ty.model()) ==> final(self).types() == old(self).types().push(ty.model()),
            index < final(self).types().len(),
            final(self).types()[index as int] == ty.model(),
    {
        let n = self.type_list.len();
        let mut i: usize = 0;
        while i < n
            invariant
                i <= n,
                n == self.types().len(),
                self.wf(),
                self.types() == old(self).types(),
                forall|j: int| 0 <= j < i ==> self.types()[j] != ty.model(),
            decreases n - i,
        {
            if self.type_list[i].same_value(ty) {
                assert(self.types()[i as int] == ty.model());
                return i;
            }
            i = i + 1;
        }
        let ghost before = self.types();
        self.type_list.push(*ty);
        proof {
            assert(self.types() =~= before.push(ty.model()));
            assert(!before.contains(ty.model())) by {
                if before.contains(ty.model()) {
                    let j = choose|j: int| 0 <= j < before.len() && before[j] == ty.model();
                    assert(before[j] != ty.model());
                }
            }
        }
        n
    }

    /// Returns the type that was stored at this index, or None if the index is
    /// not less than the length of the type list.
    pub fn get_type(&self, index: usize) -> (r: Option<T>)
        ensures
            r is Some <==> index < self.types().len(),
            r matches Some(t) ==> t.model() == self.types()[index as int],
    {
        if index < self.type_list.len() {
            Some(self.type_list[index])
        } else {
            None
        }
    }

    /// The types of the cache, by number.
    pub fn type_list(&self) -> (r: &Vec<T>)
        ensures
            r@.map_values(|t: T| t.model()) == self.types(),
    {
        &self.type_list
    }
}

impl<T: SameValue + Copy> Default for TypeCache<T> {
    fn default() -> (r: Self)
        ensures
            r.wf(),
            r.types() == Seq::<T::Model>::empty(),
    {
        Self::new()
    }
}

} // verus!
