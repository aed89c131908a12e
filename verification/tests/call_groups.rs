use std::rc::Rc;

use rupta::mir::call_site::{AssocCallGroup, CallSite, CallSiteS, Location};
use rupta::mir::function::FuncId;
use rupta::mir::path::Path;
use rupta::util::SameValue;

fn call(block: u32, arg: usize) -> Rc<CallSite> {
    let f = FuncId::new(1);
    Rc::new(CallSiteS::new(
        f,
        Location { block, statement_index: 0 },
        vec![Path::new_local(f, arg)],
        Path::new_local(f, 0),
    ))
}

#[test]
fn call_groups_hold_each_call_once() {
    let mut g: AssocCallGroup<usize, FuncId, Rc<Path>> = AssocCallGroup::new();
    assert!(g.fnptr_calls_of(&3).is_none());
    g.add_fnptr_call(3, call(1, 1));
    g.add_fnptr_call(3, call(2, 1));
    g.add_fnptr_call(3, call(1, 1));
    g.add_fnptr_call(4, call(1, 2));
    let calls = g.fnptr_calls_of(&3).unwrap();
    assert_eq!(calls.len(), 2);
    assert_eq!(calls[0], call(1, 1));
    assert_eq!(calls[1], call(2, 1));
    assert_eq!(g.fnptr_calls_of(&4).unwrap().len(), 1);
    assert!(g.dynamic_dispatch_calls_of(&3).is_none());
}

#[test]
fn call_groups_are_kept_apart() {
    let mut g: AssocCallGroup<usize, FuncId, Rc<Path>> = AssocCallGroup::new();
    g.add_dynamic_dispatch_call(1, call(5, 1));
    g.add_dynamic_fntrait_call(1, call(6, 1));
    g.add_static_dispatch_instance_call(1, call(7, 1), FuncId::new(9));
    g.add_static_dispatch_instance_call(1, call(7, 1), FuncId::new(10));
    g.add_static_dispatch_instance_call(1, call(7, 1), FuncId::new(9));
    assert_eq!(g.dynamic_dispatch_calls_of(&1).unwrap().len(), 1);
    assert_eq!(g.dynamic_fntrait_calls_of(&1).unwrap()[0], call(6, 1));
    let statics = g.static_dispatch_instance_calls_of(&1).unwrap();
    assert_eq!(statics.len(), 2);
    assert_eq!(statics[1].1, FuncId::new(10));
    assert!(g.fnptr_calls_of(&1).is_none());
}

#[test]
fn call_sites_differ_by_arguments() {
    assert!(call(1, 1).same_value(&call(1, 1)));
    assert!(!call(1, 1).same_value(&call(1, 2)));
    assert!(!call(1, 1).same_value(&call(2, 1)));
}
