//! Statistics of a call graph: how many calls of each kind it resolved, and with
//! how many edges; a context-sensitive graph is counted by its call sites and
//! callees without their contexts.

use vstd::prelude::*;
use crate::graph::call_graph::CallGraph;
use crate::mir::call_site::{BaseCallSite, BaseCallSiteS, CSBaseCallSite, CallType};
use crate::mir::function::{CSFuncId, DefId, FuncId};
use crate::util::{distinct_models, push_unique, value_models, SameValue};

verus! {

/// The call sites that label some edge of `edges`.
pub open spec fn call_sites_of(edges: Seq<(int, int, BaseCallSite)>) -> Set<BaseCallSite> {
    Set::new(|s: BaseCallSite| exists|e: int| 0 <= e < edges.len() && #[trigger] edges[e].2 == s)
}

/// The call site has the type `t`.
pub open spec fn has_type(types: Map<BaseCallSite, CallType>, t: CallType) -> spec_fn(BaseCallSite) -> bool {
    |s: BaseCallSite| types[s] == t
}

/// The edge's call site has the type `t`.
pub open spec fn edge_has_type(types: Map<BaseCallSite, CallType>, t: CallType) -> spec_fn((int, int, BaseCallSite)) -> bool {
    |e: (int, int, BaseCallSite)| types[e.2] == t
}

/// The definitions of the reachable functions.
pub open spec fn reach_defs(reach: Seq<FuncId>, def_ids: Seq<DefId>) -> Set<DefId> {
    Set::new(|d: DefId| exists|k: int| 0 <= k < reach.len() && #[trigger] def_ids[reach[k].index as int] == d)
}

/// The statistics of a call graph. Each list holds a value once, so that its
/// length is the count; the dynamic calls are those of the three dynamic kinds
/// (a dynamic `Fn*` trait call counted once per call site, however many call
/// sites it was specialized into).
pub struct CallGraphStats {
    pub num_reach_funcs: usize,
    pub num_call_graph_edges: usize,
    /// The definitions of the reachable functions.
    pub reach_defids: Vec<DefId>,
    /// The call sites resolved.
    pub call_sites: Vec<BaseCallSite>,
    pub static_calls: Vec<BaseCallSite>,
    pub dynamic_dispatch_calls: Vec<BaseCallSite>,
    pub fnptr_calls: Vec<BaseCallSite>,
    pub dynamic_fntrait_calls: Vec<BaseCallSite>,
    pub num_dynamic_calls: usize,
    pub dynamic_dispatch_call_edges: usize,
    pub fnptr_call_edges: usize,
    pub dynamic_fntrait_call_edges: usize,
    pub num_dynamic_call_edges: usize,
}

/// The statistics of a context-insensitive call graph, whose every call site has
/// a type recorded; `def_ids` gives the definition of each function.
pub fn ci_call_graph_stat(call_graph: &CallGraph<FuncId, BaseCallSite>, def_ids: &Vec<DefId>) -> (r: CallGraphStats)
    requires
        call_graph.wf(),
        forall|e: int| 0 <= e < call_graph.edges().len() ==> call_graph.callsite_types().dom().contains(#[trigger] call_graph.edges()[e].2),
        forall|k: int| 0 <= k < call_graph.reach().len() ==> (#[trigger] call_graph.reach()[k]).index < def_ids@.len(),
    ensures
        r.num_reach_funcs == call_graph.reach().len(),
        r.num_call_graph_edges == call_graph.edges().len(),
        distinct_models(r.reach_defids@),
        value_models(r.reach_defids@) == reach_defs(call_graph.reach(), def_ids@),
        distinct_models(r.call_sites@),
        value_models(r.call_sites@) == call_sites_of(call_graph.edges()),
        r.static_calls@ == r.call_sites@.filter(has_type(call_graph.callsite_types(), CallType::StaticDispatch)),
        r.dynamic_dispatch_calls@ == r.call_sites@.filter(has_type(call_graph.callsite_types(), CallType::DynamicDispatch)),
        r.fnptr_calls@ == r.call_sites@.filter(has_type(call_graph.callsite_types(), CallType::FnPtr)),
        r.dynamic_fntrait_calls@ == r.call_sites@.filter(has_type(call_graph.callsite_types(), CallType::DynamicFnTrait)),
        r.num_dynamic_calls == r.dynamic_dispatch_calls@.len() + r.fnptr_calls@.len() + r.dynamic_fntrait_calls@.len(),
        r.dynamic_dispatch_call_edges == call_graph.edges().filter(edge_has_type(call_graph.callsite_types(), CallType::DynamicDispatch)).len(),
        r.fnptr_call_edges == call_graph.edges().filter(edge_has_type(call_graph.callsite_types(), CallType::FnPtr)).len(),
        r.dynamic_fntrait_call_edges == call_graph.edges().filter(edge_has_type(call_graph.callsite_types(), CallType::DynamicFnTrait)).len(),
        r.num_dynamic_call_edges == r.dynamic_dispatch_call_edges + r.fnptr_call_edges + r.dynamic_fntrait_call_edges,
{
    let ghost types = call_graph.callsite_types();
    let ghost edges = call_graph.edges();
    // The definitions of the reachable functions.
    let queue = call_graph.reach_funcs();
    let mut it = call_graph.reach_funcs_iter();
    let total = queue.len();
    let mut reach_defids: Vec<DefId> = Vec::new();
    let mut k: usize = 0;
    proof {
        assert(value_models(reach_defids@) =~= Set::<DefId>::empty());
    }
    while k < total
        invariant
            k <= total,
            total == queue@.len(),
            queue.wf(),
            queue@ == call_graph.reach(),
            it.wf(),
            it.position() == k,
            forall|j: int| 0 <= j < call_graph.reach().len() ==> (#[trigger] call_graph.reach()[j]).index < def_ids@.len(),
            distinct_models(reach_defids@),
            value_models(reach_defids@) == reach_defs(queue@.take(k as int), def_ids@),
        decreases total - k,
    {
        let f = it.next(queue).unwrap();
        let ghost before = reach_defs(queue@.take(k as int), def_ids@);
        let d = def_ids[f.index as usize];
        push_unique(&mut reach_defids, d);
        proof {
            let after = reach_defs(queue@.take(k + 1), def_ids@);
            let q = queue@;
            assert forall|x: DefId| after.contains(x) <==> before.insert(d).contains(x) by {
                if after.contains(x) {
                    let j = choose|j: int| 0 <= j < k + 1 && #[trigger] def_ids@[q.take(k + 1)[j].index as int] == x;
                    if j < k {
                        assert(q.take(k as int)[j] == q.take(k + 1)[j]);
                        assert(def_ids@[q.take(k as int)[j].index as int] == x);
                    }
                }
                if before.contains(x) {
                    let j = choose|j: int| 0 <= j < k && #[trigger] def_ids@[q.take(k as int)[j].index as int] == x;
                    assert(q.take(k as int)[j] == q.take(k + 1)[j]);
                    assert(def_ids@[q.take(k + 1)[j].index as int] == x);
                }
                if x == d {
                    assert(q.take(k + 1)[k as int] == f);
                    assert(def_ids@[q.take(k + 1)[k as int].index as int] == x);
                }
            }
            assert(after =~= before.insert(d));
        }
        k = k + 1;
    }
    proof {
        assert(queue@.take(total as int) =~= queue@);
    }
    // The call sites, and the edges of each kind.
    let m = call_graph.edge_count();
    let mut call_sites: Vec<BaseCallSite> = Vec::new();
    let mut dd_edges: usize = 0;
    let mut fp_edges: usize = 0;
    let mut ft_edges: usize = 0;
    let mut dyn_edges: usize = 0;
    let mut e: usize = 0;
    proof {
        assert(value_models(call_sites@) =~= call_sites_of(edges.take(0)));
        assert(edges.take(0) =~= Seq::<(int, int, BaseCallSite)>::empty());
        reveal(Seq::filter);
    }
    while e < m
        invariant
            e <= m,
            m == edges.len(),
            edges == call_graph.edges(),
            types == call_graph.callsite_types(),
            call_graph.wf(),
            forall|x: int| 0 <= x < edges.len() ==> types.dom().contains(#[trigger] edges[x].2),
            distinct_models(call_sites@),
            value_models(call_sites@) == call_sites_of(edges.take(e as int)),
            dd_edges == edges.take(e as int).filter(edge_has_type(types, CallType::DynamicDispatch)).len(),
            fp_edges == edges.take(e as int).filter(edge_has_type(types, CallType::FnPtr)).len(),
            ft_edges == edges.take(e as int).filter(edge_has_type(types, CallType::DynamicFnTrait)).len(),
            dyn_edges == dd_edges + fp_edges + ft_edges,
            dyn_edges <= e,
        decreases m - e,
    {
        let site = call_graph.edge_callsite(e).unwrap();
        let ghost before = call_sites_of(edges.take(e as int));
        let ghost x = edges[e as int];
        push_unique(&mut call_sites, site);
        let t = call_graph.get_callsite_type(&site).unwrap();
        proof {
            assert(edges.take(e + 1) =~= edges.take(e as int).push(x));
            edges.take(e as int).lemma_filter_push(x, edge_has_type(types, CallType::DynamicDispatch));
            edges.take(e as int).lemma_filter_push(x, edge_has_type(types, CallType::FnPtr));
            edges.take(e as int).lemma_filter_push(x, edge_has_type(types, CallType::DynamicFnTrait));
            let after = call_sites_of(edges.take(e + 1));
            assert forall|s: BaseCallSite| after.contains(s) <==> before.insert(site).contains(s) by {
                if after.contains(s) {
                    let j = choose|j: int| 0 <= j < e + 1 && #[trigger] edges.take(e + 1)[j].2 == s;
                    if j < e {
                        assert(edges.take(e as int)[j].2 == s);
                    }
                }
                if before.contains(s) {
                    let j = choose|j: int| 0 <= j < e && #[trigger] edges.take(e as int)[j].2 == s;
                    assert(edges.take(e + 1)[j].2 == s);
                }
                if s == site {
                    assert(edges.take(e + 1)[e as int].2 == s);
                }
            }
            assert(after =~= before.insert(site));
        }
        match t {
            CallType::DynamicDispatch => {
                dd_edges = dd_edges + 1;
                dyn_edges = dyn_edges + 1;
            },
            CallType::FnPtr => {
                fp_edges = fp_edges + 1;
                dyn_edges = dyn_edges + 1;
            },
            CallType::DynamicFnTrait => {
                ft_edges = ft_edges + 1;
                dyn_edges = dyn_edges + 1;
            },
            CallType::StaticDispatch => {},
        }
        e = e + 1;
    }
    proof {
        assert(edges.take(m as int) =~= edges);
    }
    // The call sites of each kind.
    let n = call_sites.len();
    let mut static_calls: Vec<BaseCallSite> = Vec::new();
    let mut dd_calls: Vec<BaseCallSite> = Vec::new();
    let mut fp_calls: Vec<BaseCallSite> = Vec::new();
    let mut ft_calls: Vec<BaseCallSite> = Vec::new();
    let mut dyn_calls: usize = 0;
    let mut i: usize = 0;
    proof {
        assert(call_sites@.take(0) =~= Seq::<BaseCallSite>::empty());
    }
    while i < n
        invariant
            i <= n,
            n == call_sites@.len(),
            types == call_graph.callsite_types(),
            call_graph.wf(),
            forall|x: int| 0 <= x < edges.len() ==> types.dom().contains(#[trigger] edges[x].2),
            edges == call_graph.edges(),
            value_models(call_sites@) == call_sites_of(edges),
            static_calls@ == call_sites@.take(i as int).filter(has_type(types, CallType::StaticDispatch)),
            dd_calls@ == call_sites@.take(i as int).filter(has_type(types, CallType::DynamicDispatch)),
            fp_calls@ == call_sites@.take(i as int).filter(has_type(types, CallType::FnPtr)),
            ft_calls@ == call_sites@.take(i as int).filter(has_type(types, CallType::DynamicFnTrait)),
            dyn_calls == dd_calls@.len() + fp_calls@.len() + ft_calls@.len(),
            dyn_calls <= i,
        decreases n - i,
    {
        let s = call_sites[i];
        proof {
            assert(value_models(call_sites@).contains(s)) by {
                assert(call_sites@[i as int].model() == s);
            }
        }
        let t = call_graph.get_callsite_type(&s).unwrap();
        proof {
            assert(call_sites@.take(i + 1) =~= call_sites@.take(i as int).push(s));
            call_sites@.take(i as int).lemma_filter_push(s, has_type(types, CallType::StaticDispatch));
            call_sites@.take(i as int).lemma_filter_push(s, has_type(types, CallType::DynamicDispatch));
            call_sites@.take(i as int).lemma_filter_push(s, has_type(types, CallType::FnPtr));
            call_sites@.take(i as int).lemma_filter_push(s, has_type(types, CallType::DynamicFnTrait));
        }
        match t {
            CallType::StaticDispatch => {
                static_calls.push(s);
            },
            CallType::DynamicDispatch => {
                dd_calls.push(s);
                dyn_calls = dyn_calls + 1;
            },
            CallType::FnPtr => {
                fp_calls.push(s);
                dyn_calls = dyn_calls + 1;
            },
            CallType::DynamicFnTrait => {
                ft_calls.push(s);
                dyn_calls = dyn_calls + 1;
            },
        }
        i = i + 1;
    }
    proof {
        assert(call_sites@.take(n as int) =~= call_sites@);
    }
    CallGraphStats {
        num_reach_funcs: total,
        num_call_graph_edges: m,
        reach_defids,
        call_sites,
        static_calls,
        dynamic_dispatch_calls: dd_calls,
        fnptr_calls: fp_calls,
        dynamic_fntrait_calls: ft_calls,
        num_dynamic_calls: dyn_calls,
        dynamic_dispatch_call_edges: dd_edges,
        fnptr_call_edges: fp_edges,
        dynamic_fntrait_call_edges: ft_edges,
        num_dynamic_call_edges: dyn_edges,
    }
}


/// A call site without its context.
pub open spec fn ci_site(s: CSBaseCallSite) -> BaseCallSite {
    BaseCallSiteS { func: s.func.func_id, location: s.location }
}

/// The call sites, without their contexts, that label some edge of `edges`.
pub open spec fn ci_sites_of(edges: Seq<(int, int, CSBaseCallSite)>) -> Set<BaseCallSite> {
    Set::new(|s: BaseCallSite| exists|e: int| 0 <= e < edges.len() && #[trigger] ci_site(edges[e].2) == s)
}

/// The edges of a context-sensitive graph without their contexts: the call site
/// and the callee's function.
pub open spec fn ci_edges_of(edges: Seq<(int, int, CSBaseCallSite)>, funcs: Seq<CSFuncId>) -> Set<(BaseCallSite, FuncId)> {
    Set::new(|p: (BaseCallSite, FuncId)| exists|e: int| 0 <= e < edges.len() && #[trigger] ci_site(edges[e].2) == p.0 && funcs[edges[e].1].func_id == p.1)
}

/// The functions, without their contexts, of the reachable ones.
pub open spec fn ci_funcs_of(reach: Seq<CSFuncId>) -> Set<FuncId> {
    Set::new(|f: FuncId| exists|k: int| 0 <= k < reach.len() && #[trigger] reach[k].func_id == f)
}

/// The call site of the edge has the type `t`.
pub open spec fn pair_has_type(types: Map<BaseCallSite, CallType>, t: CallType) -> spec_fn((BaseCallSite, FuncId)) -> bool {
    |p: (BaseCallSite, FuncId)| types[p.0] == t
}

/// The statistics of a context-sensitive call graph, counted without contexts.
/// Each list holds a value once, so that its length is the count.
pub struct CsCallGraphStats {
    pub num_cs_reach_funcs: usize,
    pub num_cs_call_graph_edges: usize,
    /// The reachable functions without their contexts.
    pub ci_reach_funcs: Vec<FuncId>,
    /// The edges without their contexts.
    pub ci_call_edges: Vec<(BaseCallSite, FuncId)>,
    /// The call sites without their contexts.
    pub call_sites: Vec<BaseCallSite>,
    pub static_calls: Vec<BaseCallSite>,
    pub dynamic_dispatch_calls: Vec<BaseCallSite>,
    pub fnptr_calls: Vec<BaseCallSite>,
    pub dynamic_fntrait_calls: Vec<BaseCallSite>,
    pub num_dynamic_calls: usize,
    pub dynamic_dispatch_call_edges: usize,
    pub fnptr_call_edges: usize,
    pub dynamic_fntrait_call_edges: usize,
    pub num_dynamic_call_edges: usize,
}

/// The statistics of a context-sensitive call graph, counted by call sites and
/// callees without their contexts; every call site has a type recorded for it
/// without its context.
pub fn cs_call_graph_stat(call_graph: &CallGraph<CSFuncId, CSBaseCallSite>) -> (r: CsCallGraphStats)
    requires
        call_graph.wf(),
        forall|e: int| 0 <= e < call_graph.edges().len() ==> call_graph.callsite_types().dom().contains(#[trigger] ci_site(call_graph.edges()[e].2)),
    ensures
        r.num_cs_reach_funcs == call_graph.reach().len(),
        r.num_cs_call_graph_edges == call_graph.edges().len(),
        distinct_models(r.ci_reach_funcs@),
        value_models(r.ci_reach_funcs@) == ci_funcs_of(call_graph.reach()),
        distinct_models(r.ci_call_edges@),
        value_models(r.ci_call_edges@) == ci_edges_of(call_graph.edges(), call_graph.funcs()),
        distinct_models(r.call_sites@),
        value_models(r.call_sites@) == ci_sites_of(call_graph.edges()),
        r.static_calls@ == r.call_sites@.filter(has_type(call_graph.callsite_types(), CallType::StaticDispatch)),
        r.dynamic_dispatch_calls@ == r.call_sites@.filter(has_type(call_graph.callsite_types(), CallType::DynamicDispatch)),
        r.fnptr_calls@ == r.call_sites@.filter(has_type(call_graph.callsite_types(), CallType::FnPtr)),
        r.dynamic_fntrait_calls@ == r.call_sites@.filter(has_type(call_graph.callsite_types(), CallType::DynamicFnTrait)),
        r.num_dynamic_calls == r.dynamic_dispatch_calls@.len() + r.fnptr_calls@.len() + r.dynamic_fntrait_calls@.len(),
        r.dynamic_dispatch_call_edges == r.ci_call_edges@.filter(pair_has_type(call_graph.callsite_types(), CallType::DynamicDispatch)).len(),
        r.fnptr_call_edges == r.ci_call_edges@.filter(pair_has_type(call_graph.callsite_types(), CallType::FnPtr)).len(),
        r.dynamic_fntrait_call_edges == r.ci_call_edges@.filter(pair_has_type(call_graph.callsite_types(), CallType::DynamicFnTrait)).len(),
        r.num_dynamic_call_edges == r.dynamic_dispatch_call_edges + r.fnptr_call_edges + r.dynamic_fntrait_call_edges,
{
    let ghost types = call_graph.callsite_types();
    let ghost edges = call_graph.edges();
    let ghost funcs = call_graph.funcs();
    // The reachable functions without their contexts.
    let queue = call_graph.reach_funcs();
    let mut it = call_graph.reach_funcs_iter();
    let total = queue.len();
    let mut ci_reach_funcs: Vec<FuncId> = Vec::new();
    let mut k: usize = 0;
    proof {
        assert(value_models(ci_reach_funcs@) =~= Set::<FuncId>::empty());
    }
    while k < total
        invariant
            k <= total,
            total == queue@.len(),
            queue.wf(),
            queue@ == call_graph.reach(),
            it.wf(),
            it.position() == k,
            distinct_models(ci_reach_funcs@),
            value_models(ci_reach_funcs@) == ci_funcs_of(queue@.take(k as int)),
        decreases total - k,
    {
        let f = it.next(queue).unwrap();
        let ghost before = ci_funcs_of(queue@.take(k as int));
        push_unique(&mut ci_reach_funcs, f.func_id);
        proof {
            let q = queue@;
            let after = ci_funcs_of(q.take(k + 1));
            assert forall|x: FuncId| after.contains(x) <==> before.insert(f.func_id).contains(x) by {
                if after.contains(x) {
                    let j = choose|j: int| 0 <= j < k + 1 && #[trigger] q.take(k + 1)[j].func_id == x;
                    if j < k {
                        assert(q.take(k as int)[j] == q.take(k + 1)[j]);
                    }
                }
                if before.contains(x) {
                    let j = choose|j: int| 0 <= j < k && #[trigger] q.take(k as int)[j].func_id == x;
                    assert(q.take(k as int)[j] == q.take(k + 1)[j]);
                }
                if x == f.func_id {
                    assert(q.take(k + 1)[k as int] == f);
                }
            }
            assert(after =~= before.insert(f.func_id));
        }
        k = k + 1;
    }
    proof {
        assert(queue@.take(total as int) =~= queue@);
    }
    // The call sites and the edges without contexts.
    let m = call_graph.edge_count();
    let mut call_sites: Vec<BaseCallSite> = Vec::new();
    let mut ci_call_edges: Vec<(BaseCallSite, FuncId)> = Vec::new();
    let mut e: usize = 0;
    proof {
        assert(value_models(call_sites@) =~= ci_sites_of(edges.take(0)));
        assert(value_models(ci_call_edges@) =~= ci_edges_of(edges.take(0), funcs));
    }
    while e < m
        invariant
            e <= m,
            m == edges.len(),
            edges == call_graph.edges(),
            funcs == call_graph.funcs(),
            call_graph.wf(),
            distinct_models(call_sites@),
            value_models(call_sites@) == ci_sites_of(edges.take(e as int)),
            distinct_models(ci_call_edges@),
            value_models(ci_call_edges@) == ci_edges_of(edges.take(e as int), funcs),
        decreases m - e,
    {
        let cs = call_graph.edge_callsite(e).unwrap();
        let callee = call_graph.get_callee_id_of_edge(e).unwrap();
        let site = BaseCallSiteS { func: cs.func.func_id, location: cs.location };
        let ghost bs = ci_sites_of(edges.take(e as int));
        let ghost be = ci_edges_of(edges.take(e as int), funcs);
        push_unique(&mut call_sites, site);
        push_unique(&mut ci_call_edges, (site, callee.func_id));
        proof {
            let t1 = edges.take(e + 1);
            let t0 = edges.take(e as int);
            let as_ = ci_sites_of(t1);
            assert forall|s: BaseCallSite| as_.contains(s) <==> bs.insert(site).contains(s) by {
                if as_.contains(s) {
                    let j = choose|j: int| 0 <= j < t1.len() && #[trigger] ci_site(t1[j].2) == s;
                    if j < e {
                        assert(t0[j] == t1[j]);
                    }
                }
                if bs.contains(s) {
                    let j = choose|j: int| 0 <= j < t0.len() && #[trigger] ci_site(t0[j].2) == s;
                    assert(t0[j] == t1[j]);
                }
                if s == site {
                    assert(t1[e as int] == edges[e as int]);
                    assert(ci_site(t1[e as int].2) == s);
                }
            }
            assert(as_ =~= bs.insert(site));
            let ae = ci_edges_of(t1, funcs);
            let pr = (site, callee.func_id);
            assert forall|p: (BaseCallSite, FuncId)| ae.contains(p) <==> be.insert(pr).contains(p) by {
                if ae.contains(p) {
                    let j = choose|j: int| 0 <= j < t1.len() && #[trigger] ci_site(t1[j].2) == p.0 && funcs[t1[j].1].func_id == p.1;
                    if j < e {
                        assert(t0[j] == t1[j]);
                    }
                }
                if be.contains(p) {
                    let j = choose|j: int| 0 <= j < t0.len() && #[trigger] ci_site(t0[j].2) == p.0 && funcs[t0[j].1].func_id == p.1;
                    assert(t0[j] == t1[j]);
                }
                if p == pr {
                    assert(t1[e as int] == edges[e as int]);
                    assert(ci_site(t1[e as int].2) == p.0);
                }
            }
            assert(ae =~= be.insert(pr));
        }
        e = e + 1;
    }
    proof {
        assert(edges.take(m as int) =~= edges);
    }
    // The edges of each kind.
    let pn = ci_call_edges.len();
    let mut dd_edges: usize = 0;
    let mut fp_edges: usize = 0;
    let mut ft_edges: usize = 0;
    let mut dyn_edges: usize = 0;
    let mut j: usize = 0;
    proof {
        assert(ci_call_edges@.take(0) =~= Seq::<(BaseCallSite, FuncId)>::empty());
        reveal(Seq::filter);
    }
    while j < pn
        invariant
            j <= pn,
            pn == ci_call_edges@.len(),
            types == call_graph.callsite_types(),
            edges == call_graph.edges(),
            funcs == call_graph.funcs(),
            call_graph.wf(),
            forall|x: int| 0 <= x < edges.len() ==> types.dom().contains(#[trigger] ci_site(edges[x].2)),
            value_models(ci_call_edges@) == ci_edges_of(edges, funcs),
            dd_edges == ci_call_edges@.take(j as int).filter(pair_has_type(types, CallType::DynamicDispatch)).len(),
            fp_edges == ci_call_edges@.take(j as int).filter(pair_has_type(types, CallType::FnPtr)).len(),
            ft_edges == ci_call_edges@.take(j as int).filter(pair_has_type(types, CallType::DynamicFnTrait)).len(),
            dyn_edges == dd_edges + fp_edges + ft_edges,
            dyn_edges <= j,
        decreases pn - j,
    {
        let p = ci_call_edges[j];
        proof {
            assert(value_models(ci_call_edges@).contains(p)) by {
                assert(ci_call_edges@[j as int].model() == p);
            }
            let w = choose|w: int| 0 <= w < edges.len() && #[trigger] ci_site(edges[w].2) == p.0 && funcs[edges[w].1].func_id == p.1;
            assert(types.dom().contains(ci_site(edges[w].2)));
        }
        let t = call_graph.get_callsite_type(&p.0).unwrap();
        proof {
            let t0 = ci_call_edges@.take(j as int);
            assert(ci_call_edges@.take(j + 1) =~= t0.push(p));
            t0.lemma_filter_push(p, pair_has_type(types, CallType::DynamicDispatch));
            t0.lemma_filter_push(p, pair_has_type(types, CallType::FnPtr));
            t0.lemma_filter_push(p, pair_has_type(types, CallType::DynamicFnTrait));
        }
        match t {
            CallType::DynamicDispatch => {
                dd_edges = dd_edges + 1;
                dyn_edges = dyn_edges + 1;
            },
            CallType::FnPtr => {
                fp_edges = fp_edges + 1;
                dyn_edges = dyn_edges + 1;
            },
            CallType::DynamicFnTrait => {
                ft_edges = ft_edges + 1;
                dyn_edges = dyn_edges + 1;
            },
            CallType::StaticDispatch => {},
        }
        j = j + 1;
    }
    proof {
        assert(ci_call_edges@.take(pn as int) =~= ci_call_edges@);
    }
    // The call sites of each kind.
    let n = call_sites.len();
    let mut static_calls: Vec<BaseCallSite> = Vec::new();
    let mut dd_calls: Vec<BaseCallSite> = Vec::new();
    let mut fp_calls: Vec<BaseCallSite> = Vec::new();
    let mut ft_calls: Vec<BaseCallSite> = Vec::new();
    let mut dyn_calls: usize = 0;
    let mut i: usize = 0;
    proof {
        assert(call_sites@.take(0) =~= Seq::<BaseCallSite>::empty());
    }
    while i < n
        invariant
            i <= n,
            n == call_sites@.len(),
            types == call_graph.callsite_types(),
            call_graph.wf(),
            forall|x: int| 0 <= x < edges.len() ==> types.dom().contains(#[trigger] ci_site(edges[x].2)),
            edges == call_graph.edges(),
            value_models(call_sites@) == ci_sites_of(edges),
            static_calls@ == call_sites@.take(i as int).filter(has_type(types, CallType::StaticDispatch)),
            dd_calls@ == call_sites@.take(i as int).filter(has_type(types, CallType::DynamicDispatch)),
            fp_calls@ == call_sites@.take(i as int).filter(has_type(types, CallType::FnPtr)),
            ft_calls@ == call_sites@.take(i as int).filter(has_type(types, CallType::DynamicFnTrait)),
            dyn_calls == dd_calls@.len() + fp_calls@.len() + ft_calls@.len(),
            dyn_calls <= i,
        decreases n - i,
    {
        let s = call_sites[i];
        proof {
            assert(value_models(call_sites@).contains(s)) by {
                assert(call_sites@[i as int].model() == s);
            }
        }
        let t = call_graph.get_callsite_type(&s).unwrap();
        proof {
            assert(call_sites@.take(i + 1) =~= call_sites@.take(i as int).push(s));
            call_sites@.take(i as int).lemma_filter_push(s, has_type(types, CallType::StaticDispatch));
            call_sites@.take(i as int).lemma_filter_push(s, has_type(types, CallType::DynamicDispatch));
            call_sites@.take(i as int).lemma_filter_push(s, has_type(types, CallType::FnPtr));
            call_sites@.take(i as int).lemma_filter_push(s, has_type(types, CallType::DynamicFnTrait));
        }
        match t {
            CallType::StaticDispatch => {
                static_calls.push(s);
            },
            CallType::DynamicDispatch => {
                dd_calls.push(s);
                dyn_calls = dyn_calls + 1;
            },
            CallType::FnPtr => {
                fp_calls.push(s);
                dyn_calls = dyn_calls + 1;
            },
            CallType::DynamicFnTrait => {
                ft_calls.push(s);
                dyn_calls = dyn_calls + 1;
            },
        }
        i = i + 1;
    }
    proof {
        assert(call_sites@.take(n as int) =~= call_sites@);
    }
    CsCallGraphStats {
        num_cs_reach_funcs: total,
        num_cs_call_graph_edges: m,
        ci_reach_funcs,
        ci_call_edges,
        call_sites,
        static_calls,
        dynamic_dispatch_calls: dd_calls,
        fnptr_calls: fp_calls,
        dynamic_fntrait_calls: ft_calls,
        num_dynamic_calls: dyn_calls,
        dynamic_dispatch_call_edges: dd_edges,
        fnptr_call_edges: fp_edges,
        dynamic_fntrait_call_edges: ft_edges,
        num_dynamic_call_edges: dyn_edges,
    }
}

} // verus!
