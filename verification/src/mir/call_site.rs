//! Call sites and the kinds of calls.

use vstd::prelude::*;
use crate::mir::context::ContextElement;
use crate::util::{value_models, SameValue};
use std::rc::Rc;
use crate::mir::function::{CSFuncId, FuncId};
use crate::mir::path::{CSPath, Path};

verus! {

/// The type of a call graph edge
#[derive(Clone, PartialEq, Eq, Hash, Debug, Structural)]
pub enum CallType {
    /// Calls resolved by static dispatch, including static Fn* trait calls
    StaticDispatch,
    /// Calls resolved by dynamic dispatch, excluding dynamic Fn* trait calls
    DynamicDispatch,
    /// Fn* trait calls resolved by dynamic dispatch
    DynamicFnTrait,
    /// function pointer calls
    FnPtr,
}

/// A place in a function body: a basic block and a statement in it.
#[derive(Clone, Copy, PartialEq, Eq, Hash, Debug, Structural)]
pub struct Location {
    pub block: u32,
    pub statement_index: usize,
}

/// A call site: the calling function and the place of the call in it.
#[derive(Clone, Copy, PartialEq, Eq, Hash, Debug, Structural)]
pub struct BaseCallSiteS<F> {
    pub func: F,
    pub location: Location,
}

/// A call site in a function instance.
pub type BaseCallSite = BaseCallSiteS<FuncId>;

/// A call site in a function instance in a calling context.
pub type CSBaseCallSite = BaseCallSiteS<CSFuncId>;

/// A call site, with the paths of its arguments and destination.
pub type CallSite = CallSiteS<FuncId, Rc<Path>>;

/// A call site in a calling context, with the paths of its arguments and
/// destination.
pub type CSCallSite = CallSiteS<CSFuncId, Rc<CSPath>>;

impl BaseCallSiteS<FuncId> {
    /// The call site, without its context, of a call in a calling context.
    pub fn from_cs_call_site<P>(callsite: &CallSiteS<CSFuncId, P>) -> (r: BaseCallSite)
        ensures
            r.func == callsite.func.func_id,
            r.location == callsite.location,
    {
        BaseCallSiteS { func: callsite.func.func_id, location: callsite.location }
    }
}

impl<F> BaseCallSiteS<F> {
    pub fn new(func: F, location: Location) -> (r: Self)
        ensures
            r.func == func,
            r.location == location,
    {
        BaseCallSiteS { func, location }
    }
}

impl SameValue for BaseCallSite {
    type Model = BaseCallSite;

    open spec fn model(&self) -> BaseCallSite {
        *self
    }

    fn same_value(&self, other: &Self) -> (r: bool) {
        *self == *other
    }
}

impl ContextElement for BaseCallSite {

    fn copy_element(&self) -> (r: Self) {
        *self
    }
}

/// A call site with the paths of its arguments and of its destination.
#[derive(Clone, PartialEq, Eq, Hash, Debug)]
pub struct CallSiteS<F, P> {
    pub func: F,
    pub location: Location,
    pub args: Vec<P>,
    pub destination: P,
}

impl<F, P> CallSiteS<F, P> {
    pub fn new(func: F, location: Location, args: Vec<P>, destination: P) -> (r: Self)
        ensures
            r.func == func,
            r.location == location,
            r.args == args,
            r.destination == destination,
    {
        CallSiteS { func, location, args, destination }
    }
}

/// A call site in a calling context, without its context.
impl From<CSBaseCallSite> for BaseCallSite {
    fn from(callsite: CSBaseCallSite) -> (r: Self) {
        BaseCallSiteS { func: callsite.func.func_id, location: callsite.location }
    }
}

impl vstd::std_specs::convert::FromSpecImpl<CSBaseCallSite> for BaseCallSite {
    open spec fn obeys_from_spec() -> bool {
        true
    }

    open spec fn from_spec(v: CSBaseCallSite) -> BaseCallSite {
        BaseCallSiteS { func: v.func.func_id, location: v.location }
    }
}

/// The call site of a call in a calling context, with its context.
impl From<&Rc<CSCallSite>> for CSBaseCallSite {
    fn from(callsite: &Rc<CSCallSite>) -> (r: Self) {
        BaseCallSiteS { func: callsite.func, location: callsite.location }
    }
}

impl vstd::std_specs::convert::FromSpecImpl<&Rc<CSCallSite>> for CSBaseCallSite {
    open spec fn obeys_from_spec() -> bool {
        true
    }

    open spec fn from_spec(v: &Rc<CSCallSite>) -> CSBaseCallSite {
        BaseCallSiteS { func: v.func, location: v.location }
    }
}


/// What a call site stands for: its function, its place, and what its arguments
/// and its destination stand for.
pub open spec fn call_site_model<F: SameValue, P: SameValue>(c: CallSiteS<F, P>) -> (F::Model, Location, Seq<P::Model>, P::Model) {
    (c.func.model(), c.location, c.args@.map_values(|p: P| p.model()), c.destination.model())
}

/// Two call sites are the same when their functions, places, arguments and
/// destinations are.
impl<F: SameValue, P: SameValue> SameValue for Rc<CallSiteS<F, P>> {
    type Model = (F::Model, Location, Seq<P::Model>, P::Model);

    open spec fn model(&self) -> (F::Model, Location, Seq<P::Model>, P::Model) {
        call_site_model(**self)
    }

    fn same_value(&self, other: &Self) -> (r: bool) {
        if !self.func.same_value(&other.func) || self.location != other.location
            || !self.destination.same_value(&other.destination) || self.args.len() != other.args.len() {
            return false;
        }
        let n = self.args.len();
        let mut i: usize = 0;
        while i < n
            invariant
                n == self.args@.len(),
                n == other.args@.len(),
                i <= n,
                forall|j: int| 0 <= j < i ==> #[trigger] self.args@[j].model() == other.args@[j].model(),
            decreases n - i,
        {
            if !self.args[i].same_value(&other.args[i]) {
                assert(self.args@.map_values(|p: P| p.model())[i as int] != other.args@.map_values(|p: P| p.model())[i as int]);
                return false;
            }
            i = i + 1;
        }
        assert(self.args@.map_values(|p: P| p.model()) =~= other.args@.map_values(|p: P| p.model()));
        true
    }
}

/// Groups of values by key, as a map from what each key stands for to the set of
/// what the values of its group stand for.
pub open spec fn grouped<K: SameValue, V: SameValue>(g: Seq<(K, Vec<V>)>) -> Map<K::Model, Set<V::Model>> {
    Map::new(
        |k: K::Model| exists|i: int| 0 <= i < g.len() && #[trigger] g[i].0.model() == k,
        |k: K::Model| Set::new(|v: V::Model| exists|i: int, j: int|
            0 <= i < g.len() && g[i].0.model() == k && 0 <= j < g[i].1@.len() && #[trigger] g[i].1@[j].model() == v),
    )
}

/// Each key has one group, no group is empty, and no group holds a value twice.
pub open spec fn groups_wf<K: SameValue, V: SameValue>(g: Seq<(K, Vec<V>)>) -> bool {
    &&& forall|i: int, j: int| 0 <= i < j < g.len() ==> #[trigger] g[i].0.model() != #[trigger] g[j].0.model()
    &&& forall|i: int| 0 <= i < g.len() ==> #[trigger] g[i].1@.len() > 0
    &&& forall|i: int, a: int, b: int| 0 <= i < g.len() && 0 <= a < b < g[i].1@.len()
        ==> #[trigger] g[i].1@[a].model() != #[trigger] g[i].1@[b].model()
}

/// The groups `m` with `v` added to the group of `k`, which is made where there is
/// none.
pub open spec fn group_added<KM, VM>(m: Map<KM, Set<VM>>, k: KM, v: VM) -> Map<KM, Set<VM>> {
    if m.contains_key(k) {
        m.insert(k, m[k].insert(v))
    } else {
        m.insert(k, set![v])
    }
}

/// The group of `key`, if it has one.
fn find_group<'a, K: SameValue, V: SameValue>(g: &'a Vec<(K, Vec<V>)>, key: &K) -> (r: Option<&'a Vec<V>>)
    requires
        groups_wf(g@),
    ensures
        r is Some <==> grouped(g@).contains_key(key.model()),
        r matches Some(vs) ==> value_models(vs@) == grouped(g@)[key.model()],
{
    let n = g.len();
    let mut i: usize = 0;
    while i < n
        invariant
            n == g@.len(),
            groups_wf(g@),
            i <= n,
            forall|j: int| 0 <= j < i ==> #[trigger] g@[j].0.model() != key.model(),
        decreases n - i,
    {
        if g[i].0.same_value(key) {
            let vs = &g[i].1;
            proof {
                let km = key.model();
                assert(grouped(g@).contains_key(km)) by {
                    assert(g@[i as int].0.model() == km);
                }
                assert(value_models(vs@) =~= grouped(g@)[km]) by {
                    assert forall|v: V::Model| grouped(g@)[km].contains(v) implies value_models(vs@).contains(v) by {
                        let (w, a) = choose|w: int, a: int|
                            0 <= w < g@.len() && g@[w].0.model() == km && 0 <= a < g@[w].1@.len() && #[trigger] g@[w].1@[a].model() == v;
                        if w != i {
                            if w < i {
                                assert(g@[w].0.model() != g@[i as int].0.model());
                            } else {
                                assert(g@[i as int].0.model() != g@[w].0.model());
                            }
                        }
                        assert(vs@[a].model() == v);
                    }
                    assert forall|v: V::Model| value_models(vs@).contains(v) implies grouped(g@)[km].contains(v) by {
                        let a = choose|a: int| 0 <= a < vs@.len() && #[trigger] vs@[a].model() == v;
                        assert(g@[i as int].1@[a].model() == v);
                    }
                }
            }
            return Some(vs);
        }
        i = i + 1;
    }
    proof {
        let km = key.model();
        if grouped(g@).contains_key(km) {
            let w = choose|w: int| 0 <= w < g@.len() && #[trigger] g@[w].0.model() == km;
            assert(g@[w].0.model() != km);
        }
    }
    None
}

/// Adds `value` to the group of `key`, unless it is there already; a key with no
/// group gets one.
fn add_to_group<K: SameValue, V: SameValue>(g: &mut Vec<(K, Vec<V>)>, key: K, value: V)
    requires
        groups_wf(old(g)@),
    ensures
        groups_wf(final(g)@),
        grouped(final(g)@) == group_added(grouped(old(g)@), key.model(), value.model()),
{
    let ghost km = key.model();
    let ghost vm = value.model();
    let ghost m0 = grouped(old(g)@);
    let n = g.len();
    let mut i: usize = 0;
    while i < n
        invariant
            n == g@.len(),
            g@ == old(g)@,
            groups_wf(g@),
            m0 == grouped(old(g)@),
            i <= n,
            km == key.model(),
            vm == value.model(),
            forall|j: int| 0 <= j < i ==> #[trigger] g@[j].0.model() != km,
        decreases n - i,
    {
        if g[i].0.same_value(&key) {
            let len = g[i].1.len();
            let mut j: usize = 0;
            while j < len
                invariant
                    i < n,
                    n == g@.len(),
                    g@ == old(g)@,
                    groups_wf(g@),
                    m0 == grouped(old(g)@),
                    g@[i as int].0.model() == km,
                    len == g@[i as int].1@.len(),
                    j <= len,
                    km == key.model(),
                    vm == value.model(),
                    forall|a: int| 0 <= a < j ==> #[trigger] g@[i as int].1@[a].model() != vm,
                decreases len - j,
            {
                if g[i].1[j].same_value(&value) {
                    proof {
                        assert(m0.contains_key(km)) by {
                            assert(g@[i as int].0.model() == km);
                        }
                        assert(m0[km].contains(vm)) by {
                            assert(g@[i as int].1@[j as int].model() == vm);
                        }
                        assert(grouped(g@) =~= group_added(m0, km, vm)) by {
                            assert(m0[km].insert(vm) =~= m0[km]);
                        }
                    }
                    return;
                }
                j = j + 1;
            }
            let (k, mut vs) = g.remove(i);
            vs.push(value);
            g.insert(i, (k, vs));
            proof {
                lemma_group_extended(old(g)@, g@, i as int, vm);
            }
            return;
        }
        i = i + 1;
    }
    let mut vs: Vec<V> = Vec::new();
    vs.push(value);
    g.push((key, vs));
    proof {
        lemma_group_made(old(g)@, g@, km, vm);
    }
}

/// Adding a new value at the end of the group at `i` adds it to that key's set.
#[verifier::spinoff_prover]
proof fn lemma_group_extended<K: SameValue, V: SameValue>(g0: Seq<(K, Vec<V>)>, g1: Seq<(K, Vec<V>)>, i: int, vm: V::Model)
    requires
        groups_wf(g0),
        0 <= i < g0.len(),
        g1.len() == g0.len(),
        forall|j: int| 0 <= j < g0.len() && j != i ==> g1[j] == g0[j],
        g1[i].0.model() == g0[i].0.model(),
        g1[i].1@ =~= g0[i].1@.push(g1[i].1@.last()),
        g1[i].1@.last().model() == vm,
        forall|a: int| 0 <= a < g0[i].1@.len() ==> #[trigger] g0[i].1@[a].model() != vm,
    ensures
        groups_wf(g1),
        grouped(g1) == group_added(grouped(g0), g0[i].0.model(), vm),
{
    let km = g0[i].0.model();
    let m0 = grouped(g0);
    let m1 = grouped(g1);
    assert(m0.contains_key(km)) by {
        assert(g0[i].0.model() == km);
    }
    assert(m1.dom() =~= m0.dom()) by {
        assert forall|k: K::Model| m1.dom().contains(k) implies m0.dom().contains(k) by {
            let w = choose|w: int| 0 <= w < g1.len() && #[trigger] g1[w].0.model() == k;
            assert(g0[w].0.model() == k);
        }
        assert forall|k: K::Model| m0.dom().contains(k) implies m1.dom().contains(k) by {
            let w = choose|w: int| 0 <= w < g0.len() && #[trigger] g0[w].0.model() == k;
            assert(g1[w].0.model() == k);
        }
    }
    assert forall|k: K::Model| m1.dom().contains(k) implies m1[k] =~= (if k == km { m0[k].insert(vm) } else { m0[k] }) by {
        assert forall|v: V::Model| m1[k].contains(v) implies (if k == km { m0[k].insert(vm) } else { m0[k] }).contains(v) by {
            let (w, a) = choose|w: int, a: int|
                0 <= w < g1.len() && g1[w].0.model() == k && 0 <= a < g1[w].1@.len() && #[trigger] g1[w].1@[a].model() == v;
            if w == i && a == g0[i].1@.len() {
            } else {
                assert(g0[w].1@[a].model() == v);
            }
        }
        assert forall|v: V::Model| (if k == km { m0[k].insert(vm) } else { m0[k] }).contains(v) implies m1[k].contains(v) by {
            if k == km && v == vm {
                assert(g1[i].1@[g0[i].1@.len() as int].model() == v);
            } else {
                let (w, a) = choose|w: int, a: int|
                    0 <= w < g0.len() && g0[w].0.model() == k && 0 <= a < g0[w].1@.len() && #[trigger] g0[w].1@[a].model() == v;
                assert(g1[w].1@[a].model() == v);
            }
        }
    }
    assert(m1 =~= group_added(m0, km, vm));
    assert forall|w: int, a: int, b: int| 0 <= w < g1.len() && 0 <= a < b < g1[w].1@.len()
        implies #[trigger] g1[w].1@[a].model() != #[trigger] g1[w].1@[b].model() by {
        if w == i && b == g0[i].1@.len() {
            assert(g0[i].1@[a].model() != vm);
        } else {
            assert(g0[w].1@[a].model() != g0[w].1@[b].model());
        }
    }
    assert forall|a: int, b: int| 0 <= a < b < g1.len() implies #[trigger] g1[a].0.model() != #[trigger] g1[b].0.model() by {
        assert(g0[a].0.model() != g0[b].0.model());
    }
    assert forall|w: int| 0 <= w < g1.len() implies #[trigger] g1[w].1@.len() > 0 by {
        if w != i {
            assert(g0[w].1@.len() > 0);
        }
    }
}

/// A new group at the end, of a new key and one value, gives the key that set.
#[verifier::spinoff_prover]
proof fn lemma_group_made<K: SameValue, V: SameValue>(g0: Seq<(K, Vec<V>)>, g1: Seq<(K, Vec<V>)>, km: K::Model, vm: V::Model)
    requires
        groups_wf(g0),
        g1.len() == g0.len() + 1,
        forall|j: int| 0 <= j < g0.len() ==> g1[j] == g0[j],
        forall|j: int| 0 <= j < g0.len() ==> #[trigger] g0[j].0.model() != km,
        g1.last().0.model() == km,
        g1.last().1@.len() == 1,
        g1.last().1@[0].model() == vm,
    ensures
        groups_wf(g1),
        grouped(g1) == group_added(grouped(g0), km, vm),
{
    let n = g0.len() as int;
    let m0 = grouped(g0);
    let m1 = grouped(g1);
    assert(!m0.contains_key(km));
    assert(g1[n].0.model() == km);
    assert(m1.dom() =~= m0.dom().insert(km)) by {
        assert forall|k: K::Model| m1.dom().contains(k) implies m0.dom().insert(km).contains(k) by {
            let w = choose|w: int| 0 <= w < g1.len() && #[trigger] g1[w].0.model() == k;
            if w < n {
                assert(g0[w].0.model() == k);
            }
        }
        assert forall|k: K::Model| m0.dom().insert(km).contains(k) implies m1.dom().contains(k) by {
            if k != km {
                let w = choose|w: int| 0 <= w < g0.len() && #[trigger] g0[w].0.model() == k;
                assert(g1[w].0.model() == k);
            }
        }
    }
    assert forall|k: K::Model| m1.dom().contains(k) implies m1[k] =~= (if k == km { set![vm] } else { m0[k] }) by {
        assert forall|v: V::Model| m1[k].contains(v) implies (if k == km { set![vm] } else { m0[k] }).contains(v) by {
            let (w, a) = choose|w: int, a: int|
                0 <= w < g1.len() && g1[w].0.model() == k && 0 <= a < g1[w].1@.len() && #[trigger] g1[w].1@[a].model() == v;
            if w < n {
                assert(g1[w] == g0[w]);
                assert(g0[w].0.model() == k);
                assert(k != km);
                assert(g0[w].1@[a].model() == v);
                assert(m0.dom().contains(k));
            } else {
                assert(w == n);
                assert(k == km);
                assert(a == 0);
                assert(v == vm);
            }
        }
        assert forall|v: V::Model| (if k == km { set![vm] } else { m0[k] }).contains(v) implies m1[k].contains(v) by {
            if k == km {
                assert(g1[n].1@[0].model() == v);
            } else {
                let (w, a) = choose|w: int, a: int|
                    0 <= w < g0.len() && g0[w].0.model() == k && 0 <= a < g0[w].1@.len() && #[trigger] g0[w].1@[a].model() == v;
                assert(g1[w].1@[a].model() == v);
            }
        }
    }
    assert(m1 =~= group_added(m0, km, vm));
    assert forall|a: int, b: int| 0 <= a < b < g1.len() implies #[trigger] g1[a].0.model() != #[trigger] g1[b].0.model() by {
        if b < n {
            assert(g0[a].0.model() != g0[b].0.model());
        }
    }
    assert forall|w: int| 0 <= w < g1.len() implies #[trigger] g1[w].1@.len() > 0 by {
        if w < n {
            assert(g0[w].1@.len() > 0);
        }
    }
    assert forall|w: int, a: int, b: int| 0 <= w < g1.len() && 0 <= a < b < g1[w].1@.len()
        implies #[trigger] g1[w].1@[a].model() != #[trigger] g1[w].1@[b].model() by {
        assert(g0[w].1@[a].model() != g0[w].1@[b].model());
    }
}

/// Adding a value to a group puts it there, and adding it a second time changes
/// nothing: each group holds a value once.
pub proof fn law_group_added_once<KM, VM>(m: Map<KM, Set<VM>>, k: KM, v: VM)
    ensures
        group_added(m, k, v).contains_key(k),
        group_added(m, k, v)[k].contains(v),
        group_added(group_added(m, k, v), k, v) == group_added(m, k, v),
        forall|k2: KM| k2 != k ==> (#[trigger] group_added(m, k, v).contains_key(k2)) == m.contains_key(k2)
            && (m.contains_key(k2) ==> group_added(m, k, v)[k2] == m[k2]),
{
    let m1 = group_added(m, k, v);
    assert(m1[k].insert(v) =~= m1[k]);
    assert(group_added(m1, k, v) =~= m1);
}

/// The calls whose callees depend on what a pointer points to, grouped by the
/// pointer: each group holds a call once.
pub struct AssocCallGroup<I, F, P> {
    /// Pairs of the self pointer and the associated function callsites that can be statically dispatched.
    pub(crate) static_dispatch_instance_calls: Vec<(I, Vec<(Rc<CallSiteS<F, P>>, FuncId)>)>,
    /// Pairs of the dynamic trait object and its callsites.
    pub(crate) dynamic_dispatch_calls: Vec<(I, Vec<Rc<CallSiteS<F, P>>>)>,
    /// Pairs of the dynamic trait object and the callsite of std::ops::Fn|FnOnce|FnMuT calls.
    pub(crate) dynamic_fntrait_calls: Vec<(I, Vec<Rc<CallSiteS<F, P>>>)>,
    /// Pairs of the function pointer and its callsites.
    pub(crate) fnptr_calls: Vec<(I, Vec<Rc<CallSiteS<F, P>>>)>,
}

impl<I: SameValue, F: SameValue, P: SameValue> AssocCallGroup<I, F, P> {
    /// The statically dispatched instance calls, with their callees, by self pointer.
    pub closed spec fn static_dispatch_instance_calls_view(&self) -> Map<I::Model, Set<((F::Model, Location, Seq<P::Model>, P::Model), FuncId)>> {
        grouped(self.static_dispatch_instance_calls@)
    }

    /// The dynamically dispatched calls by trait object.
    pub closed spec fn dynamic_dispatch_calls_view(&self) -> Map<I::Model, Set<(F::Model, Location, Seq<P::Model>, P::Model)>> {
        grouped(self.dynamic_dispatch_calls@)
    }

    /// The dynamic `Fn*` trait calls by trait object.
    pub closed spec fn dynamic_fntrait_calls_view(&self) -> Map<I::Model, Set<(F::Model, Location, Seq<P::Model>, P::Model)>> {
        grouped(self.dynamic_fntrait_calls@)
    }

    /// The function pointer calls by function pointer.
    pub closed spec fn fnptr_calls_view(&self) -> Map<I::Model, Set<(F::Model, Location, Seq<P::Model>, P::Model)>> {
        grouped(self.fnptr_calls@)
    }

    pub closed spec fn wf(&self) -> bool {
        &&& groups_wf(self.static_dispatch_instance_calls@)
        &&& groups_wf(self.dynamic_dispatch_calls@)
        &&& groups_wf(self.dynamic_fntrait_calls@)
        &&& groups_wf(self.fnptr_calls@)
    }

    pub fn new() -> (r: Self)
        ensures
            r.wf(),
            r.static_dispatch_instance_calls_view().is_empty(),
            r.dynamic_dispatch_calls_view().is_empty(),
            r.dynamic_fntrait_calls_view().is_empty(),
            r.fnptr_calls_view().is_empty(),
    {
        let r = AssocCallGroup {
            static_dispatch_instance_calls: Vec::new(),
            dynamic_dispatch_calls: Vec::new(),
            dynamic_fntrait_calls: Vec::new(),
            fnptr_calls: Vec::new(),
        };
        assert(r.static_dispatch_instance_calls_view() =~= Map::empty());
        assert(r.dynamic_dispatch_calls_view() =~= Map::empty());
        assert(r.dynamic_fntrait_calls_view() =~= Map::empty());
        assert(r.fnptr_calls_view() =~= Map::empty());
        r
    }

    /// The statically dispatched instance calls on `self_ref`, each once, if there are any.
    pub fn static_dispatch_instance_calls_of(&self, self_ref: &I) -> (r: Option<&Vec<(Rc<CallSiteS<F, P>>, FuncId)>>)
        requires
            self.wf(),
        ensures
            r is Some <==> self.static_dispatch_instance_calls_view().contains_key(self_ref.model()),
            r matches Some(vs) ==> value_models(vs@) == self.static_dispatch_instance_calls_view()[self_ref.model()],
    {
        find_group(&self.static_dispatch_instance_calls, self_ref)
    }

    /// The dynamically dispatched calls on `dyn_var`, each once, if there are any.
    pub fn dynamic_dispatch_calls_of(&self, dyn_var: &I) -> (r: Option<&Vec<Rc<CallSiteS<F, P>>>>)
        requires
            self.wf(),
        ensures
            r is Some <==> self.dynamic_dispatch_calls_view().contains_key(dyn_var.model()),
            r matches Some(vs) ==> value_models(vs@) == self.dynamic_dispatch_calls_view()[dyn_var.model()],
    {
        find_group(&self.dynamic_dispatch_calls, dyn_var)
    }

    /// The dynamic `Fn*` trait calls on `dyn_fn_obj`, each once, if there are any.
    pub fn dynamic_fntrait_calls_of(&self, dyn_fn_obj: &I) -> (r: Option<&Vec<Rc<CallSiteS<F, P>>>>)
        requires
            self.wf(),
        ensures
            r is Some <==> self.dynamic_fntrait_calls_view().contains_key(dyn_fn_obj.model()),
            r matches Some(vs) ==> value_models(vs@) == self.dynamic_fntrait_calls_view()[dyn_fn_obj.model()],
    {
        find_group(&self.dynamic_fntrait_calls, dyn_fn_obj)
    }

    /// The calls through the function pointer `fn_ptr`, each once, if there are any.
    pub fn fnptr_calls_of(&self, fn_ptr: &I) -> (r: Option<&Vec<Rc<CallSiteS<F, P>>>>)
        requires
            self.wf(),
        ensures
            r is Some <==> self.fnptr_calls_view().contains_key(fn_ptr.model()),
            r matches Some(vs) ==> value_models(vs@) == self.fnptr_calls_view()[fn_ptr.model()],
    {
        find_group(&self.fnptr_calls, fn_ptr)
    }

    pub fn add_static_dispatch_instance_call(&mut self, self_ref: I, instance_callsite: Rc<CallSiteS<F, P>>, callee: FuncId)
        requires
            old(self).wf(),
        ensures
            final(self).wf(),
            final(self).static_dispatch_instance_calls_view() == group_added(old(self).static_dispatch_instance_calls_view(), self_ref.model(), (instance_callsite.model(), callee)),
            final(self).dynamic_dispatch_calls_view() == old(self).dynamic_dispatch_calls_view(),
            final(self).dynamic_fntrait_calls_view() == old(self).dynamic_fntrait_calls_view(),
            final(self).fnptr_calls_view() == old(self).fnptr_calls_view(),
    {
        add_to_group(&mut self.static_dispatch_instance_calls, self_ref, (instance_callsite, callee));
    }

    pub fn add_dynamic_dispatch_call(&mut self, dyn_var: I, dyn_callsite: Rc<CallSiteS<F, P>>)
        requires
            old(self).wf(),
        ensures
            final(self).wf(),
            final(self).dynamic_dispatch_calls_view() == group_added(old(self).dynamic_dispatch_calls_view(), dyn_var.model(), dyn_callsite.model()),
            final(self).static_dispatch_instance_calls_view() == old(self).static_dispatch_instance_calls_view(),
            final(self).dynamic_fntrait_calls_view() == old(self).dynamic_fntrait_calls_view(),
            final(self).fnptr_calls_view() == old(self).fnptr_calls_view(),
    {
        add_to_group(&mut self.dynamic_dispatch_calls, dyn_var, dyn_callsite);
    }

    pub fn add_dynamic_fntrait_call(&mut self, dyn_fn_obj: I, dyn_fntrait_callsite: Rc<CallSiteS<F, P>>)
        requires
            old(self).wf(),
        ensures
            final(self).wf(),
            final(self).dynamic_fntrait_calls_view() == group_added(old(self).dynamic_fntrait_calls_view(), dyn_fn_obj.model(), dyn_fntrait_callsite.model()),
            final(self).static_dispatch_instance_calls_view() == old(self).static_dispatch_instance_calls_view(),
            final(self).dynamic_dispatch_calls_view() == old(self).dynamic_dispatch_calls_view(),
            final(self).fnptr_calls_view() == old(self).fnptr_calls_view(),
    {
        add_to_group(&mut self.dynamic_fntrait_calls, dyn_fn_obj, dyn_fntrait_callsite);
    }

    pub fn add_fnptr_call(&mut self, fn_ptr: I, callsite: Rc<CallSiteS<F, P>>)
        requires
            old(self).wf(),
        ensures
            final(self).wf(),
            final(self).fnptr_calls_view() == group_added(old(self).fnptr_calls_view(), fn_ptr.model(), callsite.model()),
            final(self).static_dispatch_instance_calls_view() == old(self).static_dispatch_instance_calls_view(),
            final(self).dynamic_dispatch_calls_view() == old(self).dynamic_dispatch_calls_view(),
            final(self).dynamic_fntrait_calls_view() == old(self).dynamic_fntrait_calls_view(),
    {
        add_to_group(&mut self.fnptr_calls, fn_ptr, callsite);
    }
}

} // verus!
