use std::rc::Rc;

use rupta::graph::func_pag::FuncPAG;
use rupta::mir::call_site::{CallSiteS, Location};
use rupta::mir::function::{DefId, FuncId};
use rupta::mir::path::Path;

#[derive(Clone, Copy, Debug, PartialEq)]
enum Kind {
    Direct,
    Load,
}

#[test]
fn function_graph_keeps_edges_in_order() {
    let f = FuncId::new(2);
    let mut g: FuncPAG<Kind> = FuncPAG::new(f);
    let a = Path::new_local(f, 1);
    let b = Path::new_local(f, 2);
    let c = Path::new_deref(a.clone());
    g.add_internal_edge(a.clone(), b.clone(), Kind::Direct);
    g.add_internal_edge(c.clone(), b.clone(), Kind::Load);
    let mut it = g.internal_edges_iter();
    let first = it.next().unwrap();
    assert_eq!((&first.0, &first.1, first.2), (&a, &b, Kind::Direct));
    let second = it.next().unwrap();
    assert_eq!((&second.0, &second.1, second.2), (&c, &b, Kind::Load));
    assert!(it.next().is_none());
}

#[test]
fn function_graph_records_calls_and_statics() {
    let f = FuncId::new(2);
    let mut g: FuncPAG<Kind> = FuncPAG::new(f);
    let s = Path::new_static_variable(DefId { krate: 0, index: 4 });
    g.add_static_variables_involved(s.clone());
    g.add_static_variables_involved(Path::new_static_variable(DefId { krate: 0, index: 4 }));
    let site = Rc::new(CallSiteS::new(f, Location { block: 0, statement_index: 1 }, vec![], Path::new_local(f, 0)));
    g.add_static_dispatch_callsite(site.clone(), FuncId::new(3));
    g.add_special_callsite(site.clone(), FuncId::new(4));
    g.add_dynamic_dispatch_callsite(Path::new_local(f, 1), site.clone());
    g.add_dynamic_fntrait_callsite(Path::new_local(f, 1), site.clone());
    g.add_fnptr_callsite(Path::new_local(f, 1), site);
    assert!(g.internal_edges_iter().next().is_none());
}
