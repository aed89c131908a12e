use std::rc::Rc;

use rupta::mir::call_site::{CallSite, CallSiteS, Location};
use rupta::mir::function::FuncId;
use rupta::mir::path::{Path, PathSelector};
use rupta::pta::propagator::{fntrait_call_for, FnObjKind};

fn fntrait_site() -> CallSite {
    let f = FuncId::new(1);
    CallSiteS::new(
        f,
        Location { block: 3, statement_index: 0 },
        vec![Path::new_local(f, 1), Path::new_local(f, 2)],
        Path::new_local(f, 0),
    )
}

#[test]
fn fntrait_calls_by_kind_of_callee() {
    let cs = fntrait_site();
    let f = FuncId::new(1);
    let fields = vec![
        Path::new_qualified(Path::new_local(f, 2), vec![PathSelector::Field(0)]),
        Path::new_qualified(Path::new_local(f, 2), vec![PathSelector::Field(1)]),
    ];
    let (c, callee) = fntrait_call_for(FnObjKind::FnDef(FuncId::new(7)), &cs, Some(2)).unwrap();
    assert_eq!(callee, Some(FuncId::new(7)));
    assert_eq!(c.args, fields);
    assert_eq!(c.destination, cs.destination);
    assert_eq!(c.location, cs.location);

    let (c, callee) = fntrait_call_for(FnObjKind::Closure(FuncId::new(8)), &cs, Some(2)).unwrap();
    assert_eq!(callee, Some(FuncId::new(8)));
    assert_eq!(c.args.len(), 3);
    assert_eq!(c.args[0], Path::new_local(f, 1));
    assert_eq!(c.args[1..].to_vec(), fields);

    let (c, callee) = fntrait_call_for(FnObjKind::FnPtr, &cs, None).unwrap();
    assert_eq!(callee, None);
    assert!(c.args.is_empty());

    assert!(fntrait_call_for(FnObjKind::Other, &cs, Some(2)).is_none());
    let _: Rc<Path> = cs.destination.clone();
}
