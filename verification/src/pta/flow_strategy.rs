//! Flow strategies for flow-sensitive pointer analyses: how the flow context of a
//! callee is made from that of its caller and the path of execution that led there.

use std::rc::Rc;
use vstd::prelude::*;
use crate::mir::call_site::{call_site_model, BaseCallSite, CSCallSite, CallSiteS, Location};
use crate::mir::context::share;
use crate::mir::function::CSFuncId;
use crate::mir::path::PathV;
use crate::mir::context::{Context, ContextCache, ContextId};
use crate::mir::path::CSPath;
use crate::pta::context_strategy::k_limited;

verus! {

/// How the flow contexts of the functions analyzed are made and numbered.
pub trait FlowStrategy {
    /// The strategy's own invariant.
    spec fn inv(&self) -> bool;

    /// The strategy knows the flow context numbered `cid`.
    spec fn has_context(&self, cid: ContextId) -> bool;

    fn empty_flow_context(&self) -> Rc<Context<BaseCallSite>>;

    fn get_empty_flow_context_id(&mut self) -> (r: ContextId)
        requires
            old(self).inv(),
        ensures
            final(self).inv(),
            final(self).has_context(r),
    ;

    fn get_flow_context_id(&mut self, context: &Rc<Context<BaseCallSite>>) -> (r: ContextId)
        requires
            old(self).inv(),
        ensures
            final(self).inv(),
            final(self).has_context(r),
    ;

    fn get_flow_context_by_id(&self, context_id: ContextId) -> Rc<Context<BaseCallSite>>
        requires
            self.inv(),
    ;

    fn new_instance_flow_context(&mut self, callsite: &Rc<CSCallSite>, receiver: Option<&Rc<CSPath>>, path: &[CSCallSite]) -> (r: Option<ContextId>)
        requires
            old(self).inv(),
            old(self).has_context(callsite.func.cid),
        ensures
            final(self).inv(),
            r matches Some(id) ==> final(self).has_context(id),
    ;

    fn new_static_flow_context(&mut self, callsite: &Rc<CSCallSite>, path: &[CSCallSite]) -> (r: ContextId)
        requires
            old(self).inv(),
            old(self).has_context(callsite.func.cid),
        ensures
            final(self).inv(),
            final(self).has_context(r),
    ;

    /// The flow context of a branch, taken or not as `condition` says.
    fn handle_branch(&mut self, condition: bool, callsite: &Rc<CSCallSite>, path: &[CSCallSite]) -> (r: ContextId)
        requires
            old(self).inv(),
            old(self).has_context(callsite.func.cid),
        ensures
            final(self).inv(),
            final(self).has_context(r),
    ;
}

/// The flow-insensitive strategy: every function is analyzed in the one empty flow
/// context, numbered 0.
pub struct FlowInsensitive {}

impl FlowStrategy for FlowInsensitive {
    open spec fn inv(&self) -> bool {
        true
    }

    open spec fn has_context(&self, cid: ContextId) -> bool {
        cid.index == 0
    }

    fn empty_flow_context(&self) -> (r: Rc<Context<BaseCallSite>>)
        ensures
            r@ == Seq::<BaseCallSite>::empty(),
    {
        Context::new_empty()
    }

    fn get_empty_flow_context_id(&mut self) -> (r: ContextId)
        ensures
            r.index == 0,
    {
        ContextId::new(0)
    }

    fn get_flow_context_id(&mut self, _context: &Rc<Context<BaseCallSite>>) -> (r: ContextId)
        ensures
            r.index == 0,
    {
        ContextId::new(0)
    }

    fn get_flow_context_by_id(&self, _context_id: ContextId) -> (r: Rc<Context<BaseCallSite>>)
        ensures
            r@ == Seq::<BaseCallSite>::empty(),
    {
        self.empty_flow_context()
    }

    fn new_instance_flow_context(&mut self, _callsite: &Rc<CSCallSite>, _receiver: Option<&Rc<CSPath>>, _path: &[CSCallSite]) -> (r: Option<ContextId>)
        ensures
            r == Some(ContextId { index: 0 }),
    {
        Some(ContextId::new(0))
    }

    fn new_static_flow_context(&mut self, _callsite: &Rc<CSCallSite>, _path: &[CSCallSite]) -> (r: ContextId)
        ensures
            r.index == 0,
    {
        ContextId::new(0)
    }

    fn handle_branch(&mut self, _condition: bool, _callsite: &Rc<CSCallSite>, _path: &[CSCallSite]) -> (r: ContextId)
        ensures
            r.index == 0,
    {
        ContextId::new(0)
    }
}

/// What a path of execution stands for: what its call sites stand for, in order.
pub open spec fn path_model(p: Seq<CSCallSite>) -> Seq<(CSFuncId, Location, Seq<(ContextId, PathV)>, (ContextId, PathV))> {
    p.map_values(|c: CSCallSite| call_site_model(c))
}

/// A copy of a call site, sharing the paths of its arguments and destination.
fn copy_call_site(c: &CSCallSite) -> (r: CSCallSite)
    ensures
        call_site_model(r) == call_site_model(*c),
{
    let mut args = Vec::new();
    let mut i: usize = 0;
    while i < c.args.len()
        invariant
            i <= c.args@.len(),
            args@.len() == i,
            forall|j: int| 0 <= j < i ==> #[trigger] args@[j] == c.args@[j],
        decreases c.args@.len() - i,
    {
        args.push(share(&c.args[i]));
        i = i + 1;
    }
    let r = CallSiteS { func: c.func, location: c.location, args, destination: share(&c.destination) };
    assert(r.args@ =~= c.args@);
    r
}

/// The k-limited flow-sensitive strategy: the flow context of a callee is that of
/// its caller with the call site added first, cut to `k` call sites; the paths of
/// execution that led to calls are recorded.
pub struct KFlowSensitive {
    /// Context length limit for methods
    k: usize,
    pub(crate) flow_cache: ContextCache<BaseCallSite>,
    /// The paths of execution met, in order.
    execution_paths: Vec<Vec<CSCallSite>>,
}

impl KFlowSensitive {
    /// The limit on the length of flow contexts.
    pub closed spec fn limit(&self) -> nat {
        self.k as nat
    }

    /// The flow contexts met so far, by number.
    pub closed spec fn contexts(&self) -> Seq<Seq<BaseCallSite>> {
        self.flow_cache.contexts()
    }

    /// The paths of execution recorded, in order.
    pub closed spec fn paths(&self) -> Seq<Seq<(CSFuncId, Location, Seq<(ContextId, PathV)>, (ContextId, PathV))>> {
        self.execution_paths@.map_values(|p: Vec<CSCallSite>| path_model(p@))
    }

    pub closed spec fn wf(&self) -> bool {
        self.flow_cache.wf()
    }

    pub fn new(k: usize) -> (r: Self)
        ensures
            r.wf(),
            r.limit() == k,
            r.contexts() == Seq::<Seq<BaseCallSite>>::empty(),
            r.paths().len() == 0,
    {
        let r = Self { k, flow_cache: ContextCache::new(), execution_paths: Vec::new() };
        assert(r.paths().len() == 0);
        r
    }

    /// Records the path of execution, and gives the number of the flow context of a
    /// function called at `callsite`.
    pub fn new_flow_context(&mut self, callsite: &Rc<CSCallSite>, path: &[CSCallSite]) -> (r: ContextId)
        requires
            old(self).wf(),
            callsite.func.cid.index < old(self).contexts().len(),
        ensures
            final(self).wf(),
            final(self).limit() == old(self).limit(),
            r.index < final(self).contexts().len(),
            k_limited(old(self).contexts()[callsite.func.cid.index as int], BaseCallSite { func: callsite.func.func_id, location: callsite.location }, old(self).limit(), final(self).contexts()[r.index as int]),
            old(self).contexts().is_prefix_of(final(self).contexts()),
            final(self).paths() == old(self).paths().push(path_model(path@)),
    {
        let mut copy: Vec<CSCallSite> = Vec::new();
        let mut i: usize = 0;
        while i < path.len()
            invariant
                i <= path@.len(),
                copy@.len() == i,
                forall|j: int| 0 <= j < i ==> call_site_model(#[trigger] copy@[j]) == call_site_model(path@[j]),
            decreases path@.len() - i,
        {
            copy.push(copy_call_site(&path[i]));
            i = i + 1;
        }
        let ghost before = self.paths();
        proof {
            assert(path_model(copy@) =~= path_model(path@));
        }
        self.execution_paths.push(copy);
        proof {
            assert(self.paths() =~= before.push(path_model(path@)));
        }
        let caller_ctx = self.flow_cache.get_context(callsite.func.cid).unwrap();
        let site = BaseCallSite::from_cs_call_site(&**callsite);
        let callee_ctx = Context::new_k_limited_context(&caller_ctx, site, self.k);
        let id = self.flow_cache.get_context_id(&callee_ctx);
        proof {
            assert(old(self).contexts().is_prefix_of(self.contexts()));
        }
        id
    }
}

impl FlowStrategy for KFlowSensitive {
    open spec fn inv(&self) -> bool {
        self.wf()
    }

    open spec fn has_context(&self, cid: ContextId) -> bool {
        cid.index < self.contexts().len()
    }

    fn empty_flow_context(&self) -> (r: Rc<Context<BaseCallSite>>)
        ensures
            r@ == Seq::<BaseCallSite>::empty(),
    {
        Context::new_empty()
    }

    fn get_flow_context_id(&mut self, context: &Rc<Context<BaseCallSite>>) -> (r: ContextId)
        ensures
            final(self).contexts()[r.index as int] == context@,
            old(self).contexts().is_prefix_of(final(self).contexts()),
            old(self).contexts().contains(context@) ==> final(self).contexts() == old(self).contexts(),
            final(self).limit() == old(self).limit(),
            final(self).paths() == old(self).paths(),
    {
        let id = self.flow_cache.get_context_id(context);
        proof {
            assert(old(self).contexts().is_prefix_of(self.contexts()));
        }
        id
    }

    fn get_flow_context_by_id(&self, context_id: ContextId) -> (r: Rc<Context<BaseCallSite>>)
        ensures
            context_id.index < self.contexts().len() ==> r@ == self.contexts()[context_id.index as int],
            context_id.index >= self.contexts().len() ==> r@ == Seq::<BaseCallSite>::empty(),
    {
        match self.flow_cache.get_context(context_id) {
            Some(c) => c,
            None => Context::new_empty(),
        }
    }

    fn get_empty_flow_context_id(&mut self) -> (r: ContextId)
        ensures
            final(self).contexts()[r.index as int] == Seq::<BaseCallSite>::empty(),
            old(self).contexts().is_prefix_of(final(self).contexts()),
            final(self).limit() == old(self).limit(),
            final(self).paths() == old(self).paths(),
    {
        let empty = Context::new_empty();
        self.get_flow_context_id(&empty)
    }

    fn new_instance_flow_context(&mut self, callsite: &Rc<CSCallSite>, _receiver: Option<&Rc<CSPath>>, path: &[CSCallSite]) -> (r: Option<ContextId>)
        ensures
            r matches Some(id) && k_limited(old(self).contexts()[callsite.func.cid.index as int], BaseCallSite { func: callsite.func.func_id, location: callsite.location }, old(self).limit(), final(self).contexts()[id.index as int]),
            old(self).contexts().is_prefix_of(final(self).contexts()),
            final(self).limit() == old(self).limit(),
            final(self).paths() == old(self).paths().push(path_model(path@)),
    {
        Some(self.new_flow_context(callsite, path))
    }

    fn new_static_flow_context(&mut self, callsite: &Rc<CSCallSite>, path: &[CSCallSite]) -> (r: ContextId)
        ensures
            k_limited(old(self).contexts()[callsite.func.cid.index as int], BaseCallSite { func: callsite.func.func_id, location: callsite.location }, old(self).limit(), final(self).contexts()[r.index as int]),
            old(self).contexts().is_prefix_of(final(self).contexts()),
            final(self).limit() == old(self).limit(),
            final(self).paths() == old(self).paths().push(path_model(path@)),
    {
        self.new_flow_context(callsite, path)
    }

    /// Both branches get a flow context made from the call site and the path of
    /// execution alike.
    fn handle_branch(&mut self, condition: bool, callsite: &Rc<CSCallSite>, path: &[CSCallSite]) -> (r: ContextId)
        ensures
            k_limited(old(self).contexts()[callsite.func.cid.index as int], BaseCallSite { func: callsite.func.func_id, location: callsite.location }, old(self).limit(), final(self).contexts()[r.index as int]),
            old(self).contexts().is_prefix_of(final(self).contexts()),
            final(self).limit() == old(self).limit(),
            final(self).paths() == old(self).paths().push(path_model(path@)),
    {
        let branch_context_id = if condition {
            self.new_flow_context(callsite, path)
        } else {
            self.new_flow_context(callsite, path)
        };
        branch_context_id
    }
}

} // verus!
