//! Calling contexts: bounded sequences of context elements (call sites, objects).

use std::fmt::Debug;
use std::hash::Hash;
use std::rc::Rc;
use vstd::prelude::*;
use crate::mir::call_site::BaseCallSite;
use crate::mir::path::{Path, PathV};
use crate::util::SameValue;

verus! {

/// The kinds of values that can make up a calling context. An element stands for
/// its `model`: two elements with the same model are the same element.
pub trait ContextElement: SameValue + Clone + Eq + PartialEq + Debug + Hash {
    /// A copy of the element.
    fn copy_element(&self) -> (r: Self)
        ensures
            r.model() == self.model(),
    ;
}

/// A calling context: the most recent context element first.
#[derive(Clone, PartialEq, Eq, Hash, Debug)]
pub struct Context<E: ContextElement> {
    pub(crate) context_elems: Vec<E>,
}

/// Calls `Rc::clone`, which gives a second handle on the value that `rc` shares,
/// without copying the value. Claimed: the new handle denotes the same value.
#[verifier::external_body]
pub(crate) fn share<T>(rc: &Rc<T>) -> (r: Rc<T>)
    ensures
        r == *rc,
{
    Rc::clone(rc)
}

/// What the elements of `s` stand for, in order.
pub open spec fn models<E: ContextElement>(s: Seq<E>) -> Seq<E::Model> {
    s.map_values(|e: E| e.model())
}

impl<E: ContextElement> View for Context<E> {
    type V = Seq<E::Model>;

    closed spec fn view(&self) -> Seq<E::Model> {
        models(self.context_elems@)
    }
}

/// The context `old` extended by `elem`, which comes first, and cut to its first
/// `k` elements.
pub open spec fn k_limited_seq<M>(old: Seq<M>, elem: M, k: nat) -> Seq<M> {
    if k == 0 {
        Seq::empty()
    } else if old.len() < k {
        seq![elem] + old
    } else {
        seq![elem] + old.subrange(0, k - 1)
    }
}

/// The length of a context of `old_len` elements extended by one element and cut
/// to `k` elements.
pub open spec fn k_limited_len(old_len: nat, k: nat) -> nat {
    if k == 0 {
        0
    } else if old_len < k {
        old_len + 1
    } else {
        k
    }
}

impl<E: ContextElement> Context<E> {
    /// The empty context.
    pub fn new_empty() -> (r: Rc<Self>)
        ensures
            r@ == Seq::<E::Model>::empty(),
    {
        let r = Rc::new(Context { context_elems: Vec::new() });
        assert(r@ =~= Seq::<E::Model>::empty());
        r
    }

    /// The context of the given elements.
    pub fn new(context_elems: Vec<E>) -> (r: Rc<Self>)
        ensures
            r@ == models(context_elems@),
    {
        Rc::new(Context { context_elems })
    }

    /// The number of elements of the context.
    pub fn len(&self) -> (r: usize)
        ensures
            r == self@.len(),
    {
        self.context_elems.len()
    }

    /// Composes a new context from a given context and a new context element: the
    /// new element comes first, and the oldest elements are dropped so that the
    /// context holds at most `k` elements.
    pub fn new_k_limited_context(old_ctx: &Rc<Context<E>>, elem: E, k: usize) -> (r: Rc<Self>)
        ensures
            r@ == k_limited_seq(old_ctx@, elem.model(), k as nat),
            r@.len() == k_limited_len(old_ctx@.len(), k as nat),
    {
        let mut elems: Vec<E> = Vec::with_capacity(k);
        if k > 0 {
            elems.push(elem);
            let n = if old_ctx.len() < k {
                old_ctx.len()
            } else {
                k - 1
            };
            let mut i: usize = 0;
            while i < n
                invariant
                    i <= n,
                    n <= old_ctx@.len(),
                    n == (if old_ctx@.len() < k { old_ctx@.len() } else { (k - 1) as nat }),
                    k > 0,
                    elems@.len() == i + 1,
                    elems@[0].model() == elem.model(),
                    forall|j: int| 1 <= j <= i ==> #[trigger] elems@[j].model() == old_ctx@[j - 1],
                decreases n - i,
            {
                let e = old_ctx.context_elems[i].copy_element();
                elems.push(e);
                i = i + 1;
            }
            let r = Rc::new(Context { context_elems: elems });
            proof {
                assert(r@ =~= k_limited_seq(old_ctx@, elem.model(), k as nat));
            }
            r
        } else {
            let r = Rc::new(Context { context_elems: elems });
            assert(r@ =~= Seq::<E::Model>::empty());
            r
        }
    }

    /// The context cut to its first `k` elements; the same context where it has no
    /// more than `k`.
    pub fn k_limited_context(ctx: &Rc<Context<E>>, k: usize) -> (r: Rc<Self>)
        ensures
            ctx@.len() <= k ==> r@ == ctx@,
            ctx@.len() > k ==> r@ == ctx@.subrange(0, k as int),
    {
        if ctx.len() <= k {
            share(ctx)
        } else {
            let mut elems: Vec<E> = Vec::new();
            let mut i: usize = 0;
            while i < k
                invariant
                    i <= k,
                    k < ctx@.len(),
                    elems@.len() == i,
                    forall|j: int| 0 <= j < i ==> #[trigger] elems@[j].model() == ctx@[j],
                decreases k - i,
            {
                let e = ctx.context_elems[i].copy_element();
                elems.push(e);
                i = i + 1;
            }
            let r = Rc::new(Context { context_elems: elems });
            proof {
                assert(r@ =~= ctx@.subrange(0, k as int));
            }
            r
        }
    }

    /// The elements of the context, the most recent first.
    pub fn elems(&self) -> (r: &Vec<E>)
        ensures
            models(r@) == self@,
    {
        &self.context_elems
    }

    /// The most recent element of the context, if it has one.
    pub fn first_context_element(&self) -> (r: Option<&E>)
        ensures
            r is Some <==> self@.len() > 0,
            r matches Some(e) ==> e.model() == self@[0],
    {
        if self.context_elems.len() > 0 {
            Some(&self.context_elems[0])
        } else {
            None
        }
    }

    /// The oldest element of the context, if it has one.
    pub fn last_context_element(&self) -> (r: Option<&E>)
        ensures
            r is Some <==> self@.len() > 0,
            r matches Some(e) ==> e.model() == self@.last(),
    {
        let n = self.context_elems.len();
        if n > 0 {
            Some(&self.context_elems[n - 1])
        } else {
            None
        }
    }
}

/// A context element of the hybrid strategy: a call site, or an object.
#[derive(Clone, Debug, PartialEq, Eq, Hash)]
pub enum HybridCtxElem {
    CallSite(BaseCallSite),
    Object(Rc<Path>),
}

/// What a hybrid context element stands for: a call site, or what the path of
/// an object denotes.
pub enum HybridCtxV {
    CallSite(BaseCallSite),
    Object(PathV),
}

impl SameValue for HybridCtxElem {
    type Model = HybridCtxV;

    open spec fn model(&self) -> HybridCtxV {
        match self {
            HybridCtxElem::CallSite(c) => HybridCtxV::CallSite(*c),
            HybridCtxElem::Object(p) => HybridCtxV::Object((**p)@),
        }
    }

    fn same_value(&self, other: &Self) -> (r: bool) {
        match (self, other) {
            (HybridCtxElem::CallSite(a), HybridCtxElem::CallSite(b)) => a.same_value(b),
            (HybridCtxElem::Object(a), HybridCtxElem::Object(b)) => a.same_value(b),
            _ => false,
        }
    }
}

impl ContextElement for HybridCtxElem {

    fn copy_element(&self) -> (r: Self) {
        match self {
            HybridCtxElem::CallSite(c) => HybridCtxElem::CallSite(*c),
            HybridCtxElem::Object(p) => HybridCtxElem::Object(p.copy_element()),
        }
    }
}

/// The number of a context in a context cache.
#[derive(Clone, Copy, PartialEq, Eq, Hash, Debug, Structural)]
pub struct ContextId {
    pub index: usize,
}

impl ContextId {
    /// The context id with the given number.
    pub fn new(index: usize) -> (r: Self)
        ensures
            r.index == index,
    {
        ContextId { index }
    }

    /// The number of the context id.
    pub fn index(self) -> (r: usize)
        ensures
            r == self.index,
    {
        self.index
    }
}

/// The contexts met so far, each numbered once, in the order they were first met.
pub struct ContextCache<E: ContextElement> {
    context_list: Vec<Rc<Context<E>>>,
}

/// Two contexts with the same elements, compared element by element.
fn same_context<E: ContextElement>(a: &Context<E>, b: &Context<E>) -> (r: bool)
    ensures
        r == (a@ == b@),
{
    let n = a.context_elems.len();
    if n != b.context_elems.len() {
        return false;
    }
    let mut i: usize = 0;
    while i < n
        invariant
            i <= n,
            n == a@.len(),
            n == b@.len(),
            forall|j: int| 0 <= j < i ==> a@[j] == b@[j],
        decreases n - i,
    {
        if !a.context_elems[i].same_value(&b.context_elems[i]) {
            assert(a@[i as int] != b@[i as int]);
            return false;
        }
        i = i + 1;
    }
    assert(a@ =~= b@);
    true
}

impl<E: ContextElement> ContextCache<E> {
    /// The contexts of the cache, by number.
    pub closed spec fn contexts(&self) -> Seq<Seq<E::Model>> {
        self.context_list@.map_values(|c: Rc<Context<E>>| c@)
    }

    /// No context is numbered twice.
    pub open spec fn wf(&self) -> bool {
        forall|i: int, j: int|
            0 <= i < self.contexts().len() && 0 <= j < self.contexts().len() && i != j ==> #[trigger] self.contexts()[i] != #[trigger] self.contexts()[j]
    }

    /// An empty cache.
    pub fn new() -> (r: Self)
        ensures
            r.wf(),
            r.contexts() == Seq::<Seq<E::Model>>::empty(),
    {
        let r = ContextCache { context_list: Vec::new() };
        assert(r.contexts() =~= Seq::<Seq<E::Model>>::empty());
        r
    }

    /// The number of the given context, which is numbered anew if the cache has
    /// not met it before.
    pub fn get_context_id(&mut self, context: &Rc<Context<E>>) -> (id: ContextId)
        requires
            old(self).wf(),
        ensures
            final(self).wf(),
            old(self).contexts().contains(context@) ==> final(self).contexts() == old(self).contexts(),
            !old(self).contexts().contains(context@) ==> final(self).contexts() == old(self).contexts().push(context@),
            id.index < final(self).contexts().len(),
            final(self).contexts()[id.index as int] == context@,
    {
        let n = self.context_list.len();
        let mut i: usize = 0;
        while i < n
            invariant
                i <= n,
                n == self.contexts().len(),
                self.wf(),
                self.contexts() == old(self).contexts(),
                forall|j: int| 0 <= j < i ==> self.contexts()[j] != context@,
            decreases n - i,
        {
            if same_context(&self.context_list[i], context) {
                assert(self.contexts()[i as int] == context@);
                return ContextId { index: i };
            }
            i = i + 1;
        }
        let ghost before = self.contexts();
        self.context_list.push(share(context));
        proof {
            assert(self.contexts() =~= before.push(context@));
            assert(!before.contains(context@)) by {
                if before.contains(context@) {
                    let j = choose|j: int| 0 <= j < before.len() && before[j] == context@;
                    assert(before[j] != context@);
                }
            }
        }
        ContextId { index: n }
    }

    /// The context with the given number, if there is one.
    pub fn get_context(&self, id: ContextId) -> (r: Option<Rc<Context<E>>>)
        ensures
            r is Some <==> id.index < self.contexts().len(),
            r is Some ==> r->0@ == self.contexts()[id.index as int],
    {
        if id.index < self.context_list.len() {
            Some(share(&self.context_list[id.index]))
        } else {
            None
        }
    }

    /// The contexts of the cache, by number.
    pub fn context_list(&self) -> (r: &Vec<Rc<Context<E>>>)
        ensures
            r@.map_values(|c: Rc<Context<E>>| c@) == self.contexts(),
    {
        &self.context_list
    }
}

impl<E: ContextElement> Default for ContextCache<E> {
    fn default() -> (r: Self)
        ensures
            r.wf(),
            r.contexts() == Seq::<Seq<E::Model>>::empty(),
    {
        Self::new()
    }
}


/// A context extended and cut to `k` elements holds at most `k` elements, and at
/// most one more than the context it extends.
pub proof fn law_k_limited_len(old_len: nat, k: nat)
    ensures
        k_limited_len(old_len, k) <= k,
        k_limited_len(old_len, k) <= old_len + 1,
{
}

/// Extending a context puts the new element first and keeps the older elements
/// after it, the most recent first, as many as fit in `k`: the oldest are dropped.
pub proof fn law_k_limited_keeps_recent<M>(old: Seq<M>, elem: M, k: nat)
    ensures
        k_limited_seq(old, elem, k).len() == k_limited_len(old.len(), k),
        k > 0 ==> k_limited_seq(old, elem, k)[0] == elem,
        forall|i: int| 1 <= i < k_limited_seq(old, elem, k).len() ==> #[trigger] k_limited_seq(old, elem, k)[i] == old[i - 1],
{
}

/// A cache numbers a context once: two numbers of the cache never stand for the
/// same context, so that numbering a context again gives the number it had.
pub proof fn law_context_numbered_once<E: ContextElement>(cache: &ContextCache<E>, i: int, j: int)
    requires
        cache.wf(),
        0 <= i < cache.contexts().len(),
        0 <= j < cache.contexts().len(),
        cache.contexts()[i] == cache.contexts()[j],
    ensures
        i == j,
{
}

} // verus!
