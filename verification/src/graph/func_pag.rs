//! The part of the program assignment graph that one function contributes: its
//! edges between paths, the static variables it uses, and its calls.

use std::rc::Rc;
use vstd::prelude::*;
use crate::mir::call_site::CallSite;
use crate::mir::function::FuncId;
use crate::mir::path::{Path, PathV};
use crate::util::SameValue;
use crate::util::chunked_queue::{ChunkedQueue, Iter};

verus! {

/// A tuple type consisting of source path, destination path and path edge type.
pub type InternalEdge<K> = (Rc<Path>, Rc<Path>, K);

/// The graph of one function; the kinds of its edges are `K`.
pub struct FuncPAG<K> {
    pub(crate) func_id: FuncId,
    pub(crate) internal_edges: ChunkedQueue<InternalEdge<K>>,
    /// Each static variable once.
    pub(crate) static_variables_involved: Vec<Rc<Path>>,
    /// Call sites that can be statically resolved, including the Fn* trait calls
    /// that can be directly resolved.
    pub(crate) static_dispatch_callsites: Vec<(Rc<CallSite>, FuncId)>,
    /// Special calls like alloc()
    pub(crate) special_callsites: Vec<(Rc<CallSite>, FuncId)>,
    /// Pairs of the dynamic type receiver and its corresponding callsite.
    pub(crate) dynamic_dispatch_callsites: Vec<(Rc<Path>, Rc<CallSite>)>,
    /// Pairs of the first argument of Fn::call, FnMut::call_mut, FnOnce::call_once
    /// call and the callsite that need to be resolved on-the-fly
    pub(crate) dynamic_fntrait_callsites: Vec<(Rc<Path>, Rc<CallSite>)>,
    /// Pairs of the function pointer and its corresponding callsite, including the
    /// fnptr callsites that are specialized from a Fn* trait callsite.
    pub(crate) fnptr_callsites: Vec<(Rc<Path>, Rc<CallSite>)>,
}

impl<K> FuncPAG<K> {
    /// The function whose graph this is.
    pub closed spec fn func(&self) -> FuncId {
        self.func_id
    }

    /// The edges, in the order they were added.
    pub closed spec fn edges(&self) -> Seq<InternalEdge<K>> {
        self.internal_edges@
    }

    /// What the static variables the function uses denote.
    pub closed spec fn static_variables(&self) -> Set<PathV> {
        Set::new(|v: PathV| exists|i: int| 0 <= i < self.static_variables_involved@.len() && #[trigger] self.static_variables_involved@[i]@ == v)
    }

    pub closed spec fn static_dispatch_calls(&self) -> Seq<(Rc<CallSite>, FuncId)> {
        self.static_dispatch_callsites@
    }

    pub closed spec fn special_calls(&self) -> Seq<(Rc<CallSite>, FuncId)> {
        self.special_callsites@
    }

    pub closed spec fn dynamic_dispatch_calls(&self) -> Seq<(Rc<Path>, Rc<CallSite>)> {
        self.dynamic_dispatch_callsites@
    }

    pub closed spec fn dynamic_fntrait_calls(&self) -> Seq<(Rc<Path>, Rc<CallSite>)> {
        self.dynamic_fntrait_callsites@
    }

    pub closed spec fn fnptr_calls(&self) -> Seq<(Rc<Path>, Rc<CallSite>)> {
        self.fnptr_callsites@
    }

    /// The edge queue is sound, and no static variable is listed twice.
    pub closed spec fn wf(&self) -> bool {
        &&& self.internal_edges.wf()
        &&& forall|i: int, j: int| 0 <= i < j < self.static_variables_involved@.len()
            ==> #[trigger] self.static_variables_involved@[i]@ != #[trigger] self.static_variables_involved@[j]@
    }

    pub fn new(func_id: FuncId) -> (r: Self)
        ensures
            r.wf(),
            r.func() == func_id,
            r.edges() == Seq::<InternalEdge<K>>::empty(),
            r.static_variables() == Set::<PathV>::empty(),
            r.static_dispatch_calls() == Seq::<(Rc<CallSite>, FuncId)>::empty(),
            r.special_calls() == Seq::<(Rc<CallSite>, FuncId)>::empty(),
            r.dynamic_dispatch_calls() == Seq::<(Rc<Path>, Rc<CallSite>)>::empty(),
            r.dynamic_fntrait_calls() == Seq::<(Rc<Path>, Rc<CallSite>)>::empty(),
            r.fnptr_calls() == Seq::<(Rc<Path>, Rc<CallSite>)>::empty(),
    {
        let r = FuncPAG {
            func_id,
            internal_edges: ChunkedQueue::new(),
            static_variables_involved: Vec::new(),
            static_dispatch_callsites: Vec::new(),
            special_callsites: Vec::new(),
            dynamic_fntrait_callsites: Vec::new(),
            dynamic_dispatch_callsites: Vec::new(),
            fnptr_callsites: Vec::new(),
        };
        assert(r.static_variables() =~= Set::<PathV>::empty());
        r
    }

    /// Adds an edge of kind `kind` from `src` to `dst`, after those added before.
    pub fn add_internal_edge(&mut self, src: Rc<Path>, dst: Rc<Path>, kind: K)
        requires
            old(self).wf(),
            old(self).edges().len() < usize::MAX,
        ensures
            final(self).wf(),
            final(self).edges() == old(self).edges().push((src, dst, kind)),
            final(self).func() == old(self).func(),
            final(self).static_variables() == old(self).static_variables(),
            final(self).static_dispatch_calls() == old(self).static_dispatch_calls(),
            final(self).special_calls() == old(self).special_calls(),
            final(self).dynamic_dispatch_calls() == old(self).dynamic_dispatch_calls(),
            final(self).dynamic_fntrait_calls() == old(self).dynamic_fntrait_calls(),
            final(self).fnptr_calls() == old(self).fnptr_calls(),
    {
        self.internal_edges.push((src, dst, kind));
    }

    /// An iterator over the edges, from the first added.
    pub fn internal_edges_iter(&self) -> (r: Iter<'_, InternalEdge<K>>)
        requires
            self.wf(),
        ensures
            r.wf(),
            r.position() == 0,
            r.queue()@ == self.edges(),
    {
        self.internal_edges.iter()
    }

    /// Records that the function uses the static variable at `static_variable`.
    pub fn add_static_variables_involved(&mut self, static_variable: Rc<Path>)
        requires
            old(self).wf(),
        ensures
            final(self).wf(),
            final(self).static_variables() == old(self).static_variables().insert(static_variable@),
            final(self).func() == old(self).func(),
            final(self).edges() == old(self).edges(),
            final(self).static_dispatch_calls() == old(self).static_dispatch_calls(),
            final(self).special_calls() == old(self).special_calls(),
            final(self).dynamic_dispatch_calls() == old(self).dynamic_dispatch_calls(),
            final(self).dynamic_fntrait_calls() == old(self).dynamic_fntrait_calls(),
            final(self).fnptr_calls() == old(self).fnptr_calls(),
    {
        let n = self.static_variables_involved.len();
        let mut i: usize = 0;
        while i < n
            invariant
                n == self.static_variables_involved@.len(),
                i <= n,
                *self == *old(self),
                self.wf(),
                forall|j: int| 0 <= j < i ==> #[trigger] self.static_variables_involved@[j]@ != static_variable@,
            decreases n - i,
        {
            if self.static_variables_involved[i].same_value(&static_variable) {
                proof {
                    assert(self.static_variables().contains(static_variable@)) by {
                        assert(self.static_variables_involved@[i as int]@ == static_variable@);
                    }
                    assert(self.static_variables().insert(static_variable@) =~= self.static_variables());
                }
                return;
            }
            i = i + 1;
        }
        let ghost before = self.static_variables_involved@;
        self.static_variables_involved.push(static_variable);
        proof {
            let after = self.static_variables_involved@;
            assert(after =~= before.push(static_variable));
            assert forall|v: PathV| self.static_variables().contains(v) implies old(self).static_variables().insert(static_variable@).contains(v) by {
                let w = choose|w: int| 0 <= w < after.len() && #[trigger] after[w]@ == v;
                if w < n {
                    assert(before[w]@ == v);
                }
            }
            assert forall|v: PathV| old(self).static_variables().insert(static_variable@).contains(v) implies self.static_variables().contains(v) by {
                if v == static_variable@ {
                    assert(after[n as int]@ == v);
                } else {
                    let w = choose|w: int| 0 <= w < before.len() && #[trigger] before[w]@ == v;
                    assert(after[w]@ == v);
                }
            }
            assert(self.static_variables() =~= old(self).static_variables().insert(static_variable@));
            assert forall|a: int, b: int| 0 <= a < b < after.len() implies #[trigger] after[a]@ != #[trigger] after[b]@ by {
                if b < n {
                    assert(before[a]@ != before[b]@);
                }
            }
        }
    }

    pub fn add_static_dispatch_callsite(&mut self, callsite: Rc<CallSite>, callee: FuncId)
        requires
            old(self).wf(),
        ensures
            final(self).wf(),
            final(self).static_dispatch_calls() == old(self).static_dispatch_calls().push((callsite, callee)),
            final(self).func() == old(self).func(),
            final(self).edges() == old(self).edges(),
            final(self).static_variables() == old(self).static_variables(),
            final(self).special_calls() == old(self).special_calls(),
            final(self).dynamic_dispatch_calls() == old(self).dynamic_dispatch_calls(),
            final(self).dynamic_fntrait_calls() == old(self).dynamic_fntrait_calls(),
            final(self).fnptr_calls() == old(self).fnptr_calls(),
    {
        self.static_dispatch_callsites.push((callsite, callee));
    }

    pub fn add_dynamic_fntrait_callsite(&mut self, dynamic_fn_obj: Rc<Path>, std_ops_callsite: Rc<CallSite>)
        requires
            old(self).wf(),
        ensures
            final(self).wf(),
            final(self).dynamic_fntrait_calls() == old(self).dynamic_fntrait_calls().push((dynamic_fn_obj, std_ops_callsite)),
            final(self).func() == old(self).func(),
            final(self).edges() == old(self).edges(),
            final(self).static_variables() == old(self).static_variables(),
            final(self).static_dispatch_calls() == old(self).static_dispatch_calls(),
            final(self).special_calls() == old(self).special_calls(),
            final(self).dynamic_dispatch_calls() == old(self).dynamic_dispatch_calls(),
            final(self).fnptr_calls() == old(self).fnptr_calls(),
    {
        self.dynamic_fntrait_callsites.push((dynamic_fn_obj, std_ops_callsite));
    }

    pub fn add_dynamic_dispatch_callsite(&mut self, dynamic_obj: Rc<Path>, dyn_callsite: Rc<CallSite>)
        requires
            old(self).wf(),
        ensures
            final(self).wf(),
            final(self).dynamic_dispatch_calls() == old(self).dynamic_dispatch_calls().push((dynamic_obj, dyn_callsite)),
            final(self).func() == old(self).func(),
            final(self).edges() == old(self).edges(),
            final(self).static_variables() == old(self).static_variables(),
            final(self).static_dispatch_calls() == old(self).static_dispatch_calls(),
            final(self).special_calls() == old(self).special_calls(),
            final(self).dynamic_fntrait_calls() == old(self).dynamic_fntrait_calls(),
            final(self).fnptr_calls() == old(self).fnptr_calls(),
    {
        self.dynamic_dispatch_callsites.push((dynamic_obj, dyn_callsite));
    }

    pub fn add_fnptr_callsite(&mut self, fn_ptr: Rc<Path>, callsite: Rc<CallSite>)
        requires
            old(self).wf(),
        ensures
            final(self).wf(),
            final(self).fnptr_calls() == old(self).fnptr_calls().push((fn_ptr, callsite)),
            final(self).func() == old(self).func(),
            final(self).edges() == old(self).edges(),
            final(self).static_variables() == old(self).static_variables(),
            final(self).static_dispatch_calls() == old(self).static_dispatch_calls(),
            final(self).special_calls() == old(self).special_calls(),
            final(self).dynamic_dispatch_calls() == old(self).dynamic_dispatch_calls(),
            final(self).dynamic_fntrait_calls() == old(self).dynamic_fntrait_calls(),
    {
        self.fnptr_callsites.push((fn_ptr, callsite));
    }

    pub fn add_special_callsite(&mut self, callsite: Rc<CallSite>, callee: FuncId)
        requires
            old(self).wf(),
        ensures
            final(self).wf(),
            final(self).special_calls() == old(self).special_calls().push((callsite, callee)),
            final(self).func() == old(self).func(),
            final(self).edges() == old(self).edges(),
            final(self).static_variables() == old(self).static_variables(),
            final(self).static_dispatch_calls() == old(self).static_dispatch_calls(),
            final(self).dynamic_dispatch_calls() == old(self).dynamic_dispatch_calls(),
            final(self).dynamic_fntrait_calls() == old(self).dynamic_fntrait_calls(),
            final(self).fnptr_calls() == old(self).fnptr_calls(),
    {
        self.special_callsites.push((callsite, callee));
    }
}

} // verus!
