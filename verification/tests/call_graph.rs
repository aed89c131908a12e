use rupta::graph::call_graph::CallGraph;
use rupta::mir::call_site::{BaseCallSite, BaseCallSiteS, CSBaseCallSite, CallType, Location};
use rupta::mir::context::ContextId;
use rupta::mir::function::{CSFuncId, DefId, FuncId};
use rupta::util::unsafe_statistics::UnsafeStat;

fn site(f: u32, block: u32) -> BaseCallSite {
    BaseCallSite::new(FuncId::new(f), Location { block, statement_index: 0 })
}

fn reach(g: &CallGraph<FuncId, BaseCallSite>) -> Vec<u32> {
    let mut it = g.reach_funcs_iter();
    let mut out = Vec::new();
    while let Some(f) = it.next(g.reach_funcs()) {
        out.push(f.index);
    }
    out
}

#[test]
fn add_edge_reports_new_edges_only() {
    let mut g: CallGraph<FuncId, BaseCallSite> = CallGraph::new();
    let s = site(0, 1);
    assert!(g.add_edge(s, FuncId::new(0), FuncId::new(1)));
    assert!(!g.add_edge(s, FuncId::new(0), FuncId::new(1)));
    assert!(g.add_edge(s, FuncId::new(0), FuncId::new(2)));
    assert!(g.has_edge(&s, FuncId::new(2)));
    assert!(!g.has_edge(&site(0, 2), FuncId::new(2)));
    let mut callees: Vec<u32> = g.get_callees(&s).iter().map(|f| f.index).collect();
    callees.sort();
    assert_eq!(callees, vec![1, 2]);
    assert_eq!(g.node_count(), 3);
    assert_eq!(g.edge_count(), 2);
    assert_eq!(reach(&g), vec![0, 1, 2]);
    assert_eq!(g.get_callee_id_of_edge(1), Some(FuncId::new(2)));
    assert_eq!(g.get_callee_id_of_edge(2), None);
    assert_eq!(g.edge_endpoints(0), Some((0, 1)));
}

#[test]
fn nodes_are_added_once() {
    let mut g: CallGraph<FuncId, BaseCallSite> = CallGraph::new();
    g.add_node(FuncId::new(7));
    g.add_node(FuncId::new(7));
    assert_eq!(g.node_count(), 1);
    g.add_reach_func(FuncId::new(7));
    assert_eq!(reach(&g), vec![7, 7]);
}

#[test]
fn callsite_types_keep_the_last_one_set() {
    let mut g: CallGraph<FuncId, BaseCallSite> = CallGraph::new();
    let s = site(3, 4);
    assert!(g.get_callsite_type(&s).is_none());
    g.set_callsite_type(s, CallType::StaticDispatch);
    g.set_callsite_type(s, CallType::FnPtr);
    assert_eq!(g.get_callsite_type(&s), Some(&CallType::FnPtr));
    assert!(g.get_callsite_type(&site(3, 5)).is_none());
}

#[test]
fn unsafety_spreads_to_callers() {
    // 0 -> 1 -> 2 -> 3, 4 -> 3, 5 -> 4; 3 is explicitly unsafe, 4 is a library function
    let mut g: CallGraph<FuncId, BaseCallSite> = CallGraph::new();
    let f = FuncId::new;
    g.add_edge(site(0, 0), f(0), f(1));
    g.add_edge(site(1, 0), f(1), f(2));
    g.add_edge(site(2, 0), f(2), f(3));
    g.add_edge(site(4, 0), f(4), f(3));
    g.add_edge(site(5, 0), f(5), f(4));
    let is_library = vec![false, false, false, false, true, false];
    let stat = UnsafeStat::new(&g, is_library);
    let declared = vec![false, false, false, true, false, false];
    let none = vec![false; 6];
    let explicit = stat.collect_explicit_unsafe_functions(true, &declared, &none, &none);
    assert_eq!(explicit, declared);
    let possible = stat.collect_possibile_unsafe_functrions(&explicit);
    assert_eq!(possible, vec![true, true, true, false, false, false]);
}

#[test]
fn explicit_unsafety_from_blocks() {
    let mut g: CallGraph<FuncId, BaseCallSite> = CallGraph::new();
    g.add_node(FuncId::new(0));
    g.add_node(FuncId::new(1));
    g.add_node(FuncId::new(2));
    let stat = UnsafeStat::new(&g, vec![false, false, true]);
    let none = vec![false; 3];
    let user = vec![true, false, true];
    let generated = vec![false, true, false];
    assert_eq!(stat.collect_explicit_unsafe_functions(false, &none, &user, &generated), vec![true, false, false]);
    assert_eq!(stat.collect_explicit_unsafe_functions(true, &none, &user, &generated), vec![true, true, false]);
}

#[test]
fn unsafe_counts_by_crate() {
    let mut g: CallGraph<FuncId, BaseCallSite> = CallGraph::new();
    let f = FuncId::new;
    g.add_edge(site(0, 0), f(0), f(1));
    g.add_edge(site(1, 0), f(1), f(2));
    g.add_edge(site(2, 0), f(2), f(3));
    g.add_edge(site(4, 0), f(4), f(3));
    g.add_edge(site(5, 0), f(5), f(4));
    let stat = UnsafeStat::new(&g, vec![false, false, false, false, true, false]);
    let d = |krate: u32, index: u32| DefId { krate, index };
    let defs = vec![d(0, 0), d(0, 1), d(1, 7), d(1, 7), d(2, 3), d(0, 9)];
    let explicit = vec![false, false, false, true, false, false];
    let possible = vec![true, true, true, false, false, false];
    let counts = stat.count_unsafe_functions(&explicit, &possible, &defs);
    assert_eq!(counts.explicit_funcids, vec![3]);
    assert_eq!(counts.explicit_defids, vec![d(1, 7)]);
    assert_eq!(counts.possible_funcids, vec![0, 1, 2]);
    assert_eq!(counts.possible_defids.len(), 3);
    assert_eq!(counts.crates.len(), 3);
    let c1 = counts.crates.iter().find(|c| c.krate == 1).unwrap();
    assert_eq!((c1.funcids.len(), c1.defids.len()), (2, 1));
    assert_eq!((c1.explicit_funcids.len(), c1.explicit_defids.len()), (1, 1));
    assert_eq!((c1.possible_funcids.len(), c1.possible_defids.len()), (1, 1));
    let c0 = counts.crates.iter().find(|c| c.krate == 0).unwrap();
    assert_eq!((c0.funcids.len(), c0.defids.len()), (3, 3));
    assert_eq!((c0.explicit_funcids.len(), c0.explicit_defids.len()), (0, 0));
    assert_eq!((c0.possible_funcids.len(), c0.possible_defids.len()), (2, 2));
    let c2 = counts.crates.iter().find(|c| c.krate == 2).unwrap();
    assert_eq!((c2.funcids.len(), c2.possible_funcids.len()), (1, 0));
}

#[test]
fn call_graph_statistics_by_call_kind() {
    let mut g: CallGraph<FuncId, BaseCallSite> = CallGraph::new();
    let f = FuncId::new;
    g.add_edge(site(0, 0), f(0), f(1));
    g.add_edge(site(1, 0), f(1), f(2));
    g.add_edge(site(1, 0), f(1), f(3));
    g.add_edge(site(2, 0), f(2), f(3));
    g.add_edge(site(3, 0), f(3), f(0));
    g.set_callsite_type(site(0, 0), CallType::StaticDispatch);
    g.set_callsite_type(site(1, 0), CallType::DynamicDispatch);
    g.set_callsite_type(site(2, 0), CallType::FnPtr);
    g.set_callsite_type(site(3, 0), CallType::DynamicFnTrait);
    let d = |index: u32| DefId { krate: 0, index };
    let defs = vec![d(0), d(1), d(1), d(2)];
    let s = rupta::util::call_graph_stat::ci_call_graph_stat(&g, &defs);
    assert_eq!(s.num_reach_funcs, 4);
    assert_eq!(s.reach_defids.len(), 3);
    assert_eq!(s.num_call_graph_edges, 5);
    assert_eq!(s.call_sites.len(), 4);
    assert_eq!(s.static_calls, vec![site(0, 0)]);
    assert_eq!(s.dynamic_dispatch_calls, vec![site(1, 0)]);
    assert_eq!(s.dynamic_dispatch_call_edges, 2);
    assert_eq!((s.fnptr_calls.len(), s.fnptr_call_edges), (1, 1));
    assert_eq!((s.dynamic_fntrait_calls.len(), s.dynamic_fntrait_call_edges), (1, 1));
    assert_eq!((s.num_dynamic_calls, s.num_dynamic_call_edges), (3, 4));
}

#[test]
fn context_sensitive_statistics_drop_contexts() {
    let cf = |c: usize, f: u32| CSFuncId::new(ContextId::new(c), FuncId::new(f));
    let cs = |c: usize, f: u32, block: u32| -> CSBaseCallSite {
        BaseCallSiteS::new(cf(c, f), Location { block, statement_index: 0 })
    };
    let mut g: CallGraph<CSFuncId, CSBaseCallSite> = CallGraph::new();
    // the same call, in two contexts, to the same function in two contexts
    g.add_edge(cs(0, 0, 1), cf(0, 0), cf(0, 1));
    g.add_edge(cs(1, 0, 1), cf(1, 0), cf(1, 1));
    // a dynamic call with two callees
    g.add_edge(cs(0, 1, 2), cf(0, 1), cf(0, 2));
    g.add_edge(cs(0, 1, 2), cf(0, 1), cf(0, 3));
    g.set_callsite_type(site(0, 1), CallType::StaticDispatch);
    g.set_callsite_type(site(1, 2), CallType::DynamicDispatch);
    let s = rupta::util::call_graph_stat::cs_call_graph_stat(&g);
    assert_eq!(s.num_cs_reach_funcs, 6);
    assert_eq!(s.ci_reach_funcs.len(), 4);
    assert_eq!(s.num_cs_call_graph_edges, 4);
    assert_eq!(s.ci_call_edges.len(), 3);
    assert_eq!(s.call_sites.len(), 2);
    assert_eq!(s.static_calls, vec![site(0, 1)]);
    assert_eq!(s.dynamic_dispatch_calls, vec![site(1, 2)]);
    assert_eq!((s.dynamic_dispatch_call_edges, s.num_dynamic_calls, s.num_dynamic_call_edges), (2, 1, 2));
}
