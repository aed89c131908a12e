use std::rc::Rc;

use rupta::mir::call_site::{BaseCallSite, BaseCallSiteS, CSBaseCallSite, CSCallSite, CallSiteS, Location};
use rupta::mir::context::{Context, ContextId, HybridCtxElem};
use rupta::mir::function::{CSFuncId, DefId, FuncId};
use rupta::mir::path::{CSPath, PAGPath, Path, PathEnum, PathSelector, PathSupport};
use rupta::pta::context_strategy::{ContextStrategy, FlowInsetive, KCallSiteSensitive, KObjectSensitive, SimpleHybridContextSensitive};
use rupta::pta::flow_strategy::{FlowInsensitive, FlowStrategy, KFlowSensitive};
use rupta::util::qualified_path_to_offset_path;

fn projection(p: &Rc<Path>) -> Vec<PathSelector> {
    match &p.value {
        PathEnum::QualifiedPath { projection, .. } => projection.clone(),
        _ => vec![],
    }
}

#[test]
fn projections_append_and_truncate() {
    let local = Path::new_local(FuncId::new(1), 3);
    let field = Path::new_field(local.clone(), 2);
    let index = Path::new_index(field.clone());
    assert_eq!(projection(&index), vec![PathSelector::Field(2), PathSelector::Index]);
    assert!(index.is_field_of(&field));
    assert!(field.is_field_of(&local));
    assert!(!field.is_field_of(&index));
    let back = Path::truncate_projection_elems(&index, 1);
    assert_eq!(back, field);
    let base = Path::truncate_projection_elems(&index, 0);
    assert_eq!(base, local);
    let same = Path::truncate_projection_elems(&index, 5);
    assert_eq!(same, index);
    let more = Path::append_projection(&field, &vec![PathSelector::Deref, PathSelector::Cast(4)]);
    assert_eq!(projection(&more), vec![PathSelector::Field(2), PathSelector::Deref, PathSelector::Cast(4)]);
    assert_eq!(Path::remove_cast(&more), Path::append_projection_elem(&field, PathSelector::Deref));
    assert_eq!(Path::append_projection(&field, &vec![]), field);
}

#[test]
fn offsets_add_up() {
    let p = Path::new_deref(Path::new_parameter(FuncId::new(0), 1));
    assert!(p.is_deref_path());
    let a = Path::add_offset(&p, 8);
    let b = Path::add_offset(&a, 4);
    assert_eq!(b, Path::new_offset(p.clone(), 12));
    assert!(b.is_deref_path());
    assert_eq!(Path::add_offset(&p, 0), p);
    assert_eq!(Path::dyn_ptr_metadata(&p), Path::new_offset(p.clone(), 8));
    assert!(!Path::new_constant().is_deref_path());
    assert!(Path::new_constant().is_constant());
}

#[test]
fn locals_parameters_and_results() {
    let f = FuncId::new(9);
    assert_eq!(Path::new_local_parameter_or_result(f, 0, 2), Path::new_return_value(f));
    assert_eq!(Path::new_local_parameter_or_result(f, 2, 2), Path::new_parameter(f, 2));
    assert_eq!(Path::new_local_parameter_or_result(f, 3, 2), Path::new_local(f, 3));
}

fn call_at(cid: usize, block: u32) -> Rc<CSCallSite> {
    let dest = rupta::mir::path::CSPath::new_cs_path(ContextId::new(cid), Path::new_local(FuncId::new(1), 0));
    Rc::new(CallSiteS::new(CSFuncId::new(ContextId::new(cid), FuncId::new(1)), Location { block, statement_index: 0 }, vec![], dest))
}

#[test]
fn call_site_sensitive_contexts() {
    let mut s = KCallSiteSensitive::new(2);
    let empty = s.get_empty_context_id();
    assert_eq!(empty.index, 0);
    let c1 = s.new_static_call_context(&call_at(0, 1));
    let c2 = s.new_static_call_context(&call_at(c1.index, 2));
    let c3 = s.new_static_call_context(&call_at(c2.index, 3));
    let site = |b: u32| BaseCallSite::new(FuncId::new(1), Location { block: b, statement_index: 0 });
    assert_eq!(*s.get_context_by_id(c3), *Context::new(vec![site(3), site(2)]));
    assert_eq!(s.new_static_call_context(&call_at(0, 1)), c1);
    assert_eq!(s.get_context_by_id(ContextId::new(99)).len(), 0);

    let mut ins = FlowInsetive {};
    assert_eq!(ins.new_static_call_context(&call_at(0, 1)).index, 0);
}

#[test]
fn flow_sensitive_contexts() {
    let mut s = KFlowSensitive::new(1);
    let empty = s.get_empty_flow_context_id();
    let c = s.handle_branch(true, &call_at(empty.index, 5), &[]);
    let site = BaseCallSite::new(FuncId::new(1), Location { block: 5, statement_index: 0 });
    assert_eq!(*s.get_flow_context_by_id(c), *Context::new(vec![site]));
    let mut ins = FlowInsensitive {};
    assert_eq!(ins.handle_branch(false, &call_at(0, 5), &[]).index, 0);
}

#[test]
fn containing_functions_of_paths() {
    let f = FuncId::new(7);
    let local = Path::new_local(f, 2);
    let deref = Path::new_deref(Path::new_field(local.clone(), 1));
    assert_eq!(deref.get_containing_func(), Some(f));
    assert_eq!(Path::add_offset(&Path::new_deref(Path::new_parameter(f, 1)), 8).get_containing_func(), Some(f));
    assert_eq!(Path::new_heap_obj(f, Location { block: 1, statement_index: 2 }).get_containing_func(), Some(f));
    assert_eq!(Path::new_constant().get_containing_func(), None);
    assert_eq!(Path::new_field(Path::new_function(f), 0).get_containing_func(), None);
    let cid = ContextId::new(3);
    let cs = CSPath::new_cs_path(cid, Path::new_field(local, 0));
    assert_eq!(cs.get_containing_func(), Some(CSFuncId::new(cid, f)));
    let param = <Rc<CSPath> as PAGPath>::new_parameter(CSFuncId::new(cid, f), 1);
    assert_eq!(param.cid, cid);
    assert!(matches!(param.value(), PathEnum::Parameter { ordinal: 1, .. }));
    let moved = param.add_offset(16);
    assert!(matches!(moved.value(), PathEnum::OffsetPath { offset: 16, .. }));
    assert_eq!(moved.get_containing_func(), Some(CSFuncId::new(cid, f)));
    let cast = <Rc<Path> as PAGPath>::append_projection(&Path::new_local(f, 1), &vec![PathSelector::Field(0), PathSelector::Cast(4)]);
    assert_eq!(projection(&PAGPath::remove_cast(&cast)), vec![PathSelector::Field(0)]);
}

#[test]
fn other_kinds_of_paths() {
    let f = FuncId::new(2);
    assert!(matches!(Path::new_aux(f, 5).value, PathEnum::Auxiliary { ordinal: 5, .. }));
    let def = DefId { krate: 1, index: 9 };
    assert!(matches!(Path::new_static_variable(def).value, PathEnum::StaticVariable { def_id } if def_id == def));
    assert!(matches!(Path::new_promoted(def, 3).value, PathEnum::PromotedConstant { ordinal: 3, .. }));
    assert!(matches!(Path::new_argumentv1_arr().value, PathEnum::PromotedArgumentV1Array));
    assert!(matches!(Path::new_str_ref_arr().value, PathEnum::PromotedStrRefArray));
    assert!(matches!(Path::new_type(4).value, PathEnum::Type(4)));
    let local = Path::new_local(f, 1);
    assert_eq!(projection(&Path::new_union_field(local.clone(), 2)), vec![PathSelector::UnionField(2)]);
    assert_eq!(
        projection(&Path::new_downcast(Path::new_field(local, 0), 1)),
        vec![PathSelector::Field(0), PathSelector::Downcast(1)]
    );
    assert!(Path::new_constant().is_constant());
    assert!(!Path::new_type(4).is_constant());
}

#[test]
fn call_sites_without_and_with_contexts() {
    let cid = ContextId::new(4);
    let location = Location { block: 2, statement_index: 1 };
    let cs: CSBaseCallSite = BaseCallSiteS::new(CSFuncId::new(cid, FuncId::new(8)), location);
    let base: BaseCallSite = BaseCallSite::from(cs);
    assert_eq!(base, BaseCallSite::new(FuncId::new(8), location));
    let dest = CSPath::new_cs_path(cid, Path::new_local(FuncId::new(8), 0));
    let call: Rc<CSCallSite> = Rc::new(CallSiteS::new(CSFuncId::new(cid, FuncId::new(8)), location, vec![], dest));
    assert_eq!(CSBaseCallSite::from(&call), cs);
    assert_eq!(BaseCallSite::from_cs_call_site(&*call), base);
}

#[test]
fn qualified_paths_as_offsets() {
    let f = FuncId::new(3);
    let local = Path::new_local(f, 1);
    // field 2 of the local lies 16 bytes into it; through a dereference, field 1 at 8
    let offsets = |through_deref: bool, elems: &Vec<PathSelector>| -> usize {
        match (through_deref, elems.as_slice()) {
            (false, [PathSelector::Field(2)]) => 16,
            (true, [PathSelector::Field(1)]) => 8,
            _ => 0,
        }
    };
    let field = qualified_path_to_offset_path(Path::new_field(local.clone(), 2), offsets);
    assert!(matches!(&field.value, PathEnum::OffsetPath { base, offset: 16 } if **base == *local));
    let deref_field = Path::new_field(Path::new_deref(local.clone()), 1);
    let through = qualified_path_to_offset_path(deref_field, offsets);
    match &through.value {
        PathEnum::OffsetPath { base, offset } => {
            assert_eq!(*offset, 8);
            assert_eq!(**base, *Path::new_deref(local.clone()));
        }
        _ => panic!("an offset path was expected"),
    }
    // field 0 lies at offset 0: the base itself
    let first = qualified_path_to_offset_path(Path::new_field(local.clone(), 0), offsets);
    assert_eq!(*first, *local);
    // a plain dereference and an unqualified path stay as they are
    let deref = Path::new_deref(local.clone());
    assert_eq!(*qualified_path_to_offset_path(deref.clone(), offsets), *deref);
    assert_eq!(*qualified_path_to_offset_path(local.clone(), offsets), *local);
}

#[test]
fn object_sensitive_contexts() {
    let mut s = KObjectSensitive::new(2);
    let empty = s.get_empty_context_id();
    assert_eq!(empty.index, 0);
    let o1 = Path::new_heap_obj(FuncId::new(1), Location { block: 1, statement_index: 0 });
    let o2 = Path::new_heap_obj(FuncId::new(1), Location { block: 2, statement_index: 0 });
    let o3 = Path::new_heap_obj(FuncId::new(1), Location { block: 3, statement_index: 0 });
    let c1 = s.new_context(CSPath::new_cs_path(empty, o1.clone()));
    let c2 = s.new_context(CSPath::new_cs_path(c1, o2.clone()));
    let c3 = s.new_context(CSPath::new_cs_path(c2, o3.clone()));
    assert_eq!(*s.get_context_by_id(c3), *Context::new(vec![o3.clone(), o2.clone()]));
    assert_eq!(s.new_context(CSPath::new_cs_path(empty, o1.clone())), c1);

    let recv = CSPath::new_cs_path(c1, o2.clone());
    let site = call_at(0, 4);
    assert_eq!(ContextStrategy::new_instance_call_context(&mut s, &site, Some(&recv)), Some(c2));
    assert_eq!(ContextStrategy::new_instance_call_context(&mut s, &site, None), None);
    assert_eq!(ContextStrategy::new_static_call_context(&mut s, &call_at(c2.index, 4)), c2);
}

#[test]
fn hybrid_contexts() {
    let mut s = SimpleHybridContextSensitive::new(2);
    let empty = s.get_empty_context_id();
    let obj = Path::new_heap_obj(FuncId::new(1), Location { block: 1, statement_index: 0 });
    let c1 = s.new_object_context(CSPath::new_cs_path(empty, obj.clone()));
    let c2 = s.new_call_site_context(&call_at(c1.index, 7));
    let site = BaseCallSite::new(FuncId::new(1), Location { block: 7, statement_index: 0 });
    assert_eq!(
        *s.get_context_by_id(c2),
        *Context::new(vec![HybridCtxElem::CallSite(site), HybridCtxElem::Object(obj.clone())])
    );
    let c3 = s.new_call_site_context(&call_at(c2.index, 8));
    assert_eq!(s.get_context_by_id(c3).len(), 2);
    assert_eq!(
        ContextStrategy::new_instance_call_context(&mut s, &call_at(0, 9), Some(&CSPath::new_cs_path(empty, obj.clone()))),
        Some(c1)
    );
    assert_eq!(ContextStrategy::new_instance_call_context(&mut s, &call_at(0, 9), None), None);
    assert_eq!(ContextStrategy::new_static_call_context(&mut s, &call_at(c1.index, 7)), c2);
}
