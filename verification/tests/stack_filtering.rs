use std::rc::Rc;

use rupta::graph::call_graph::CallGraph;
use rupta::mir::call_site::{BaseCallSite, CSCallSite, CallSiteS, Location};
use rupta::mir::context::ContextId;
use rupta::mir::function::{CSFuncId, FuncId};
use rupta::mir::path::{CSPath, Path};
use rupta::pta::context_strategy::{ContextStrategy, KCallSiteSensitive};
use rupta::pta::strategies::stack_filtering::{
    match_suffix_and_prefix, FunctionReachabilityAnalysis, ReachabilityRelation, RowRelation, SFReachable, StackFilter,
};
use rupta::pts_set::points_to::PointsToSet;
use rupta::util::bit_vec::BitVec;

fn site(f: u32, block: u32) -> BaseCallSite {
    BaseCallSite::new(FuncId::new(f), Location { block, statement_index: 0 })
}

/// 0 -> 1 -> 2 -> 1, 3 alone
fn graph() -> CallGraph<FuncId, BaseCallSite> {
    let mut g = CallGraph::new();
    let f = FuncId::new;
    g.add_edge(site(0, 0), f(0), f(1));
    g.add_edge(site(1, 0), f(1), f(2));
    g.add_edge(site(2, 0), f(2), f(1));
    g.add_node(f(3));
    g
}

#[test]
fn relation_rows_and_counts() {
    let mut r: ReachabilityRelation<Vec<bool>> = ReachabilityRelation::new(3);
    assert!(!r.is_reachable(0, 1));
    r.add_reachable(0, 1);
    r.add_reachable(0, 1);
    r.add_reachable(2, 0);
    assert!(r.is_reachable(0, 1));
    assert!(!r.is_reachable(1, 0));
    assert!(!r.is_reachable(5, 0));
    assert_eq!(r.num_reach_relations(), 2);
    let mut b: BitVec<usize> = RowRelation::with_capacity(10);
    RowRelation::insert(&mut b, 7);
    assert!(RowRelation::contains(&b, 7));
    assert_eq!(RowRelation::count(&b), 1);
}

#[test]
fn reachability_of_the_call_graph() {
    let g = graph();
    let r: ReachabilityRelation<BitVec<usize>> = FunctionReachabilityAnalysis::compute_func_reach_relations(&g);
    assert_eq!(r.num_nodes, 4);
    assert!(r.is_reachable(0, 1) && r.is_reachable(0, 2));
    assert!(r.is_reachable(1, 1) && r.is_reachable(2, 2));
    assert!(!r.is_reachable(0, 0));
    assert!(!r.is_reachable(1, 0));
    assert!(!r.is_reachable(3, 0));
    assert_eq!(r.num_reach_relations(), 6);
    let lists = g.successor_lists();
    let row: Vec<bool> = FunctionReachabilityAnalysis::compute_reach_row(&lists, 1);
    assert_eq!(row, vec![false, true, true, false]);
}

#[test]
fn suffix_prefix_matches() {
    let f = |v: &[u32]| v.iter().map(|i| FuncId::new(*i)).collect::<Vec<FuncId>>();
    assert!(match_suffix_and_prefix(&f(&[1, 2, 3]), &f(&[3, 4])));
    assert!(match_suffix_and_prefix(&f(&[1, 2, 3]), &f(&[2, 3, 9])));
    assert!(!match_suffix_and_prefix(&f(&[1, 2, 3]), &f(&[2, 4])));
    assert!(!match_suffix_and_prefix(&f(&[]), &f(&[1])));
}

#[test]
fn naive_reachability_and_edge_records() {
    let mut sf: StackFilter<FuncId> = StackFilter::new(graph());
    assert!(sf.naive_reachability_relation(FuncId::new(0), FuncId::new(2)));
    assert!(sf.naive_reachability_relation(FuncId::new(3), FuncId::new(3)));
    assert!(!sf.naive_reachability_relation(FuncId::new(2), FuncId::new(0)));
    let kcs = KCallSiteSensitive::new(1);
    assert!(FuncId::new(2).is_reachable_from(&FuncId::new(0), &sf, &kcs));
    assert!(FuncId::new(0).is_reachable_to(&FuncId::new(2), &sf, &kcs));
    sf.add_pag_edges_in_func(vec![4, 5], FuncId::new(1));
    sf.add_pag_edge_in_func(6, FuncId::new(2));
    assert_eq!(sf.get_container_func_of_edge(&5), Some(&FuncId::new(1)));
    assert_eq!(sf.get_container_func_of_edge(&7), None);
    sf.collect_filtered_pts(4, 9);
    assert_eq!(sf.get_filtered_pts_of_edge_mut(4).count(), 0);
    sf.set_collect_filtered_pts(true);
    sf.collect_filtered_pts(4, 9);
    sf.add_filtered_pts(4, 10);
    assert_eq!(sf.get_filtered_pts_of_edge_mut(4).count(), 2);
}

fn call_at(cid: usize, func: u32, block: u32) -> Rc<CSCallSite> {
    let dest = CSPath::new_cs_path(ContextId::new(cid), Path::new_local(FuncId::new(func), 0));
    Rc::new(CallSiteS::new(CSFuncId::new(ContextId::new(cid), FuncId::new(func)), Location { block, statement_index: 0 }, vec![], dest))
}

#[test]
fn context_sensitive_reachability() {
    let mut sf: StackFilter<CSFuncId> = StackFilter::new(graph());
    sf.with_kcs_context_strategy();
    let mut kcs = KCallSiteSensitive::new(2);
    let empty = kcs.get_empty_context_id();
    // 1 called from 0, and 2 called from 1 in that context
    let c1 = kcs.new_static_call_context(&call_at(empty.index, 0, 0));
    let c2 = kcs.new_static_call_context(&call_at(c1.index, 1, 0));
    let f0 = CSFuncId::new(empty, FuncId::new(0));
    let f1 = CSFuncId::new(c1, FuncId::new(1));
    let f2 = CSFuncId::new(c2, FuncId::new(2));
    // the chain 1, 0 of f1 ends the chain 2, 1, 0 of f2
    assert!(f2.is_reachable_from(&f1, &sf, &kcs));
    // f0 has the empty context: the graph decides, from 0 to the end of the chain
    assert!(f2.is_reachable_from(&f0, &sf, &kcs));
    assert!(f1.is_reachable_from(&f0, &sf, &kcs));
    // no suffix of 1, 0 starts 2, 1, 0, and 2 does not reach 0 in the graph
    assert!(!f1.is_reachable_from(&f2, &sf, &kcs));
    let f3 = CSFuncId::new(empty, FuncId::new(3));
    assert!(!f0.is_reachable_from(&f3, &sf, &kcs));
    // without contexts only the graph decides
    let plain: StackFilter<CSFuncId> = StackFilter::new(graph());
    assert!(f2.is_reachable_from(&f1, &plain, &kcs));
    assert!(!f0.is_reachable_from(&f1, &plain, &kcs));
    assert!(f1.is_reachable_from(&f2, &plain, &kcs));
}

#[test]
fn objects_potentially_alive() {
    let sf: StackFilter<FuncId> = StackFilter::new(graph());
    let kcs = KCallSiteSensitive::new(1);
    let f = FuncId::new;
    // an object of 1 while 2 runs: 1 calls 2
    assert!(sf.is_potentially_alive(&kcs, f(2), &Path::new_local(f(1), 1), false));
    // an object of 2 while 0 runs: 2 never calls 0
    assert!(!sf.is_potentially_alive(&kcs, f(0), &Path::new_local(f(2), 1), false));
    assert!(!sf.is_potentially_alive(&kcs, f(0), &Path::new_field(Path::new_local(f(2), 1), 0), false));
    // unless 2 is a constant
    assert!(sf.is_potentially_alive(&kcs, f(0), &Path::new_local(f(2), 1), true));
    // objects of the running function, heap objects and static ones
    assert!(sf.is_potentially_alive(&kcs, f(0), &Path::new_local(f(0), 4), false));
    assert!(sf.is_potentially_alive(&kcs, f(0), &Path::new_heap_obj(f(2), Location { block: 0, statement_index: 1 }), false));
    assert!(sf.is_potentially_alive(&kcs, f(0), &Path::new_field(Path::new_heap_obj(f(2), Location { block: 0, statement_index: 1 }), 2), false));
    assert!(sf.is_potentially_alive(&kcs, f(0), &Path::new_constant(), false));
}

#[test]
fn relation_from_rows_made_apart() {
    let rows: Vec<Vec<bool>> = vec![vec![false, true], vec![false, false]];
    let r: ReachabilityRelation<Vec<bool>> = ReachabilityRelation::from_rows(rows);
    assert_eq!(r.num_nodes, 2);
    assert!(r.is_reachable(0, 1));
    assert!(!r.is_reachable(1, 0));
    assert_eq!(r.num_reach_relations(), 1);
}
