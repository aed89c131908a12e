//! Context strategies for context-sensitive pointer analyses: how the context of a
//! callee is made from that of its caller.

use std::rc::Rc;
use vstd::prelude::*;
use crate::mir::call_site::{BaseCallSite, CSCallSite};
use crate::mir::context::{share, Context, ContextCache, ContextElement, ContextId, HybridCtxElem, HybridCtxV, k_limited_seq};
use crate::mir::path::{CSPath, Path, PathV};

verus! {

/// How the contexts of the functions analyzed are made and numbered.
pub trait ContextStrategy {
    type E: ContextElement;

    /// The strategy's own invariant.
    spec fn inv(&self) -> bool;

    /// The strategy knows the context numbered `cid`, in which a caller may be
    /// analyzed.
    spec fn has_context(&self, cid: ContextId) -> bool;

    fn empty_context(&self) -> Rc<Context<Self::E>>;

    fn get_empty_context_id(&mut self) -> (r: ContextId)
        requires
            old(self).inv(),
        ensures
            final(self).inv(),
            final(self).has_context(r),
    ;

    fn get_context_id(&mut self, context: &Rc<Context<Self::E>>) -> (r: ContextId)
        requires
            old(self).inv(),
        ensures
            final(self).inv(),
            final(self).has_context(r),
    ;

    fn get_context_by_id(&self, context_id: ContextId) -> Rc<Context<Self::E>>
        requires
            self.inv(),
    ;

    fn new_instance_call_context(&mut self, callsite: &Rc<CSCallSite>, receiver: Option<&Rc<CSPath>>) -> (r: Option<ContextId>)
        requires
            old(self).inv(),
            old(self).has_context(callsite.func.cid),
            receiver matches Some(p) ==> old(self).has_context(p.cid),
        ensures
            final(self).inv(),
            r matches Some(id) ==> final(self).has_context(id),
    ;

    fn new_static_call_context(&mut self, callsite: &Rc<CSCallSite>) -> (r: ContextId)
        requires
            old(self).inv(),
            old(self).has_context(callsite.func.cid),
        ensures
            final(self).inv(),
            final(self).has_context(r),
    ;
}

/// The context-insensitive strategy: every function is analyzed in the one empty
/// context, numbered 0.
pub struct FlowInsetive {}

impl ContextStrategy for FlowInsetive {
    type E = BaseCallSite;

    open spec fn inv(&self) -> bool {
        true
    }

    open spec fn has_context(&self, cid: ContextId) -> bool {
        cid.index == 0
    }

    fn empty_context(&self) -> (r: Rc<Context<BaseCallSite>>)
        ensures
            r@ == Seq::<BaseCallSite>::empty(),
    {
        Context::new_empty()
    }

    fn get_empty_context_id(&mut self) -> (r: ContextId)
        ensures
            r.index == 0,
    {
        ContextId::new(0)
    }

    fn get_context_id(&mut self, _context: &Rc<Context<BaseCallSite>>) -> (r: ContextId)
        ensures
            r.index == 0,
    {
        ContextId::new(0)
    }

    fn get_context_by_id(&self, _context_id: ContextId) -> (r: Rc<Context<BaseCallSite>>)
        ensures
            r@ == Seq::<BaseCallSite>::empty(),
    {
        self.empty_context()
    }

    fn new_instance_call_context(&mut self, _callsite: &Rc<CSCallSite>, _receiver: Option<&Rc<CSPath>>) -> (r: Option<ContextId>)
        ensures
            r == Some(ContextId { index: 0 }),
    {
        Some(ContextId::new(0))
    }

    fn new_static_call_context(&mut self, _callsite: &Rc<CSCallSite>) -> (r: ContextId)
        ensures
            r.index == 0,
    {
        ContextId::new(0)
    }
}

/// The k-call-site-sensitive strategy: the context of a callee is that of its
/// caller with the call site added first, cut to `k` call sites.
pub struct KCallSiteSensitive {
    /// Context length limit for methods
    k: usize,
    pub(crate) ctx_cache: ContextCache<BaseCallSite>,
}

/// `callee` is the context that `caller` gives by a call at `site` under a limit
/// of `k` call sites: the call site, then the caller's call sites, cut to `k`.
pub open spec fn k_limited(caller: Seq<BaseCallSite>, site: BaseCallSite, k: nat, callee: Seq<BaseCallSite>) -> bool {
    callee == k_limited_seq(caller, site, k)
}

impl KCallSiteSensitive {
    /// The limit on the length of contexts.
    pub closed spec fn limit(&self) -> nat {
        self.k as nat
    }

    /// The contexts met so far, by number.
    pub closed spec fn contexts(&self) -> Seq<Seq<BaseCallSite>> {
        self.ctx_cache.contexts()
    }

    pub closed spec fn wf(&self) -> bool {
        self.ctx_cache.wf()
    }

    pub fn new(k: usize) -> (r: Self)
        ensures
            r.wf(),
            r.limit() == k,
            r.contexts() == Seq::<Seq<BaseCallSite>>::empty(),
    {
        Self { k, ctx_cache: ContextCache::new() }
    }

    /// The number of the context of a function called at `callsite` from a
    /// function analyzed in a context this strategy has numbered.
    pub fn new_context(&mut self, callsite: &Rc<CSCallSite>) -> (r: ContextId)
        requires
            old(self).wf(),
            callsite.func.cid.index < old(self).contexts().len(),
        ensures
            final(self).wf(),
            final(self).limit() == old(self).limit(),
            r.index < final(self).contexts().len(),
            k_limited(old(self).contexts()[callsite.func.cid.index as int], BaseCallSite { func: callsite.func.func_id, location: callsite.location }, old(self).limit(), final(self).contexts()[r.index as int]),
            old(self).contexts().is_prefix_of(final(self).contexts()),
            final(self).contexts().len() <= old(self).contexts().len() + 1,
    {
        let caller_ctx = self.ctx_cache.get_context(callsite.func.cid).unwrap();
        let site = BaseCallSite::from_cs_call_site(&**callsite);
        let callee_ctx = Context::new_k_limited_context(&caller_ctx, site, self.k);
        let id = self.ctx_cache.get_context_id(&callee_ctx);
        proof {
            assert(old(self).contexts().is_prefix_of(self.contexts()));
        }
        id
    }
}

impl ContextStrategy for KCallSiteSensitive {
    type E = BaseCallSite;

    open spec fn inv(&self) -> bool {
        self.wf()
    }

    open spec fn has_context(&self, cid: ContextId) -> bool {
        cid.index < self.contexts().len()
    }

    fn empty_context(&self) -> (r: Rc<Context<BaseCallSite>>)
        ensures
            r@ == Seq::<BaseCallSite>::empty(),
    {
        Context::new_empty()
    }

    fn get_context_id(&mut self, context: &Rc<Context<BaseCallSite>>) -> (r: ContextId)
        ensures
            r.index < final(self).contexts().len(),
            final(self).contexts()[r.index as int] == context@,
            old(self).contexts().is_prefix_of(final(self).contexts()),
    {
        let id = self.ctx_cache.get_context_id(context);
        proof {
            assert(old(self).contexts().is_prefix_of(self.contexts()));
        }
        id
    }

    fn get_context_by_id(&self, context_id: ContextId) -> (r: Rc<Context<BaseCallSite>>)
        ensures
            context_id.index < self.contexts().len() ==> r@ == self.contexts()[context_id.index as int],
            context_id.index >= self.contexts().len() ==> r@ == Seq::<BaseCallSite>::empty(),
    {
        match self.ctx_cache.get_context(context_id) {
            Some(c) => c,
            None => Context::new_empty(),
        }
    }

    fn get_empty_context_id(&mut self) -> (r: ContextId)
        ensures
            final(self).contexts()[r.index as int] == Seq::<BaseCallSite>::empty(),
            old(self).contexts().is_prefix_of(final(self).contexts()),
    {
        let empty = Context::new_empty();
        self.get_context_id(&empty)
    }

    fn new_instance_call_context(&mut self, callsite: &Rc<CSCallSite>, _receiver: Option<&Rc<CSPath>>) -> (r: Option<ContextId>)
        ensures
            r matches Some(id) && k_limited(old(self).contexts()[callsite.func.cid.index as int], BaseCallSite { func: callsite.func.func_id, location: callsite.location }, old(self).limit(), final(self).contexts()[id.index as int]),
    {
        Some(self.new_context(callsite))
    }

    fn new_static_call_context(&mut self, callsite: &Rc<CSCallSite>) -> (r: ContextId)
        ensures
            k_limited(old(self).contexts()[callsite.func.cid.index as int], BaseCallSite { func: callsite.func.func_id, location: callsite.location }, old(self).limit(), final(self).contexts()[r.index as int]),
    {
        self.new_context(callsite)
    }
}

/// The k-object-sensitive strategy: a method called on an object is analyzed in
/// the context of the object, with the object's path added first and cut to `k`
/// elements; a function called statically stays in its caller's context.
pub struct KObjectSensitive {
    /// Context length limit for methods
    k: usize,
    pub(crate) ctx_cache: ContextCache<Rc<Path>>,
}

impl KObjectSensitive {
    /// The limit on the length of contexts.
    pub closed spec fn limit(&self) -> nat {
        self.k as nat
    }

    /// The contexts met so far, by number.
    pub closed spec fn contexts(&self) -> Seq<Seq<PathV>> {
        self.ctx_cache.contexts()
    }

    pub closed spec fn wf(&self) -> bool {
        self.ctx_cache.wf()
    }

    pub fn new(k: usize) -> (r: Self)
        ensures
            r.wf(),
            r.limit() == k,
            r.contexts() == Seq::<Seq<PathV>>::empty(),
    {
        Self { k, ctx_cache: ContextCache::new() }
    }

    /// The number of the context of a method called on the object at `receiver`,
    /// whose context this strategy has numbered.
    pub fn new_context(&mut self, receiver: Rc<CSPath>) -> (r: ContextId)
        requires
            old(self).wf(),
            receiver.cid.index < old(self).contexts().len(),
        ensures
            final(self).wf(),
            final(self).limit() == old(self).limit(),
            r.index < final(self).contexts().len(),
            final(self).contexts()[r.index as int] == k_limited_seq(old(self).contexts()[receiver.cid.index as int], receiver.path@, old(self).limit()),
            old(self).contexts().is_prefix_of(final(self).contexts()),
            final(self).contexts().len() <= old(self).contexts().len() + 1,
    {
        let receiver_ctx = self.ctx_cache.get_context(receiver.cid).unwrap();
        let callee_ctx = Context::new_k_limited_context(&receiver_ctx, share(&receiver.path), self.k);
        let id = self.ctx_cache.get_context_id(&callee_ctx);
        proof {
            assert(old(self).contexts().is_prefix_of(self.contexts()));
        }
        id
    }
}

impl ContextStrategy for KObjectSensitive {
    type E = Rc<Path>;

    open spec fn inv(&self) -> bool {
        self.wf()
    }

    open spec fn has_context(&self, cid: ContextId) -> bool {
        cid.index < self.contexts().len()
    }

    fn empty_context(&self) -> (r: Rc<Context<Rc<Path>>>)
        ensures
            r@ == Seq::<PathV>::empty(),
    {
        Context::new_empty()
    }

    fn get_context_id(&mut self, context: &Rc<Context<Rc<Path>>>) -> (r: ContextId)
        ensures
            final(self).contexts()[r.index as int] == context@,
            old(self).contexts().is_prefix_of(final(self).contexts()),
            old(self).contexts().contains(context@) ==> final(self).contexts() == old(self).contexts(),
            final(self).limit() == old(self).limit(),
    {
        let id = self.ctx_cache.get_context_id(context);
        proof {
            assert(old(self).contexts().is_prefix_of(self.contexts()));
        }
        id
    }

    fn get_context_by_id(&self, context_id: ContextId) -> (r: Rc<Context<Rc<Path>>>)
        ensures
            context_id.index < self.contexts().len() ==> r@ == self.contexts()[context_id.index as int],
            context_id.index >= self.contexts().len() ==> r@ == Seq::<PathV>::empty(),
    {
        match self.ctx_cache.get_context(context_id) {
            Some(c) => c,
            None => Context::new_empty(),
        }
    }

    fn get_empty_context_id(&mut self) -> (r: ContextId)
        ensures
            final(self).contexts()[r.index as int] == Seq::<PathV>::empty(),
            old(self).contexts().is_prefix_of(final(self).contexts()),
            final(self).limit() == old(self).limit(),
    {
        let empty = Context::new_empty();
        self.get_context_id(&empty)
    }

    /// A method called on an object gets the object's context extended by the
    /// object; with no receiver there is none.
    fn new_instance_call_context(&mut self, _callsite: &Rc<CSCallSite>, receiver: Option<&Rc<CSPath>>) -> (r: Option<ContextId>)
        ensures
            receiver is None ==> r is None && *final(self) == *old(self),
            receiver matches Some(p) ==> r matches Some(id) && final(self).contexts()[id.index as int] == k_limited_seq(old(self).contexts()[p.cid.index as int], p.path@, old(self).limit())
                && old(self).contexts().is_prefix_of(final(self).contexts()),
    {
        match receiver {
            Some(cs_path) => Some(self.new_context(share(cs_path))),
            None => None,
        }
    }

    /// A function called statically stays in its caller's context.
    fn new_static_call_context(&mut self, callsite: &Rc<CSCallSite>) -> (r: ContextId)
        ensures
            r == callsite.func.cid,
            *final(self) == *old(self),
    {
        callsite.func.cid
    }
}

/// A simple hybrid context sensitive approach, which analyzes instance-invoked
/// methods in a object-sensitive way and statically invoked functions in a
/// callsite-sensitive way; contexts hold both, cut to `k` elements.
pub struct SimpleHybridContextSensitive {
    /// Context length limit for methods
    k: usize,
    pub(crate) ctx_cache: ContextCache<HybridCtxElem>,
}

impl SimpleHybridContextSensitive {
    /// The limit on the length of contexts.
    pub closed spec fn limit(&self) -> nat {
        self.k as nat
    }

    /// The contexts met so far, by number.
    pub closed spec fn contexts(&self) -> Seq<Seq<HybridCtxV>> {
        self.ctx_cache.contexts()
    }

    pub closed spec fn wf(&self) -> bool {
        self.ctx_cache.wf()
    }

    pub fn new(k: usize) -> (r: Self)
        ensures
            r.wf(),
            r.limit() == k,
            r.contexts() == Seq::<Seq<HybridCtxV>>::empty(),
    {
        Self { k, ctx_cache: ContextCache::new() }
    }

    /// The number of the context of a method called on the object at `receiver`:
    /// the object's context, extended by the object.
    pub fn new_object_context(&mut self, receiver: Rc<CSPath>) -> (r: ContextId)
        requires
            old(self).wf(),
            receiver.cid.index < old(self).contexts().len(),
        ensures
            final(self).wf(),
            final(self).limit() == old(self).limit(),
            r.index < final(self).contexts().len(),
            final(self).contexts()[r.index as int] == k_limited_seq(old(self).contexts()[receiver.cid.index as int], HybridCtxV::Object(receiver.path@), old(self).limit()),
            old(self).contexts().is_prefix_of(final(self).contexts()),
    {
        let receiver_ctx = self.ctx_cache.get_context(receiver.cid).unwrap();
        let callee_ctx = Context::new_k_limited_context(&receiver_ctx, HybridCtxElem::Object(share(&receiver.path)), self.k);
        let id = self.ctx_cache.get_context_id(&callee_ctx);
        proof {
            assert(old(self).contexts().is_prefix_of(self.contexts()));
        }
        id
    }

    /// The number of the context of a function called statically at `callsite`:
    /// the caller's context, extended by the call site.
    pub fn new_call_site_context(&mut self, callsite: &Rc<CSCallSite>) -> (r: ContextId)
        requires
            old(self).wf(),
            callsite.func.cid.index < old(self).contexts().len(),
        ensures
            final(self).wf(),
            final(self).limit() == old(self).limit(),
            r.index < final(self).contexts().len(),
            final(self).contexts()[r.index as int] == k_limited_seq(old(self).contexts()[callsite.func.cid.index as int], HybridCtxV::CallSite(BaseCallSite { func: callsite.func.func_id, location: callsite.location }), old(self).limit()),
            old(self).contexts().is_prefix_of(final(self).contexts()),
    {
        let caller_ctx = self.ctx_cache.get_context(callsite.func.cid).unwrap();
        let site = BaseCallSite::from_cs_call_site(&**callsite);
        let callee_ctx = Context::new_k_limited_context(&caller_ctx, HybridCtxElem::CallSite(site), self.k);
        let id = self.ctx_cache.get_context_id(&callee_ctx);
        proof {
            assert(old(self).contexts().is_prefix_of(self.contexts()));
        }
        id
    }
}

impl ContextStrategy for SimpleHybridContextSensitive {
    type E = HybridCtxElem;

    open spec fn inv(&self) -> bool {
        self.wf()
    }

    open spec fn has_context(&self, cid: ContextId) -> bool {
        cid.index < self.contexts().len()
    }

    fn empty_context(&self) -> (r: Rc<Context<HybridCtxElem>>)
        ensures
            r@ == Seq::<HybridCtxV>::empty(),
    {
        Context::new_empty()
    }

    fn get_context_id(&mut self, context: &Rc<Context<HybridCtxElem>>) -> (r: ContextId)
        ensures
            final(self).contexts()[r.index as int] == context@,
            old(self).contexts().is_prefix_of(final(self).contexts()),
            old(self).contexts().contains(context@) ==> final(self).contexts() == old(self).contexts(),
            final(self).limit() == old(self).limit(),
    {
        let id = self.ctx_cache.get_context_id(context);
        proof {
            assert(old(self).contexts().is_prefix_of(self.contexts()));
        }
        id
    }

    fn get_context_by_id(&self, context_id: ContextId) -> (r: Rc<Context<HybridCtxElem>>)
        ensures
            context_id.index < self.contexts().len() ==> r@ == self.contexts()[context_id.index as int],
            context_id.index >= self.contexts().len() ==> r@ == Seq::<HybridCtxV>::empty(),
    {
        match self.ctx_cache.get_context(context_id) {
            Some(c) => c,
            None => Context::new_empty(),
        }
    }

    fn get_empty_context_id(&mut self) -> (r: ContextId)
        ensures
            final(self).contexts()[r.index as int] == Seq::<HybridCtxV>::empty(),
            old(self).contexts().is_prefix_of(final(self).contexts()),
            final(self).limit() == old(self).limit(),
    {
        let empty = Context::new_empty();
        self.get_context_id(&empty)
    }

    /// A method called on an object gets the object's context extended by the
    /// object; with no receiver there is none.
    fn new_instance_call_context(&mut self, _callsite: &Rc<CSCallSite>, receiver: Option<&Rc<CSPath>>) -> (r: Option<ContextId>)
        ensures
            receiver is None ==> r is None && *final(self) == *old(self),
            receiver matches Some(p) ==> r matches Some(id) && final(self).contexts()[id.index as int] == k_limited_seq(old(self).contexts()[p.cid.index as int], HybridCtxV::Object(p.path@), old(self).limit())
                && old(self).contexts().is_prefix_of(final(self).contexts()),
    {
        match receiver {
            Some(cs_path) => Some(self.new_object_context(share(cs_path))),
            None => None,
        }
    }

    /// A function called statically gets its caller's context extended by the
    /// call site.
    fn new_static_call_context(&mut self, callsite: &Rc<CSCallSite>) -> (r: ContextId)
        ensures
            final(self).contexts()[r.index as int] == k_limited_seq(old(self).contexts()[callsite.func.cid.index as int], HybridCtxV::CallSite(BaseCallSite { func: callsite.func.func_id, location: callsite.location }), old(self).limit()),
            old(self).contexts().is_prefix_of(final(self).contexts()),
            final(self).limit() == old(self).limit(),
    {
        self.new_call_site_context(callsite)
    }
}

} // verus!
