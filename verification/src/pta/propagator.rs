//! How the propagation of points-to facts resolves a dynamic `Fn*` trait call.

use std::rc::Rc;
use vstd::prelude::*;
use crate::mir::call_site::CallSiteS;
use crate::mir::context::share;
use crate::mir::function::FuncId;
use crate::mir::path::{appended, path_ok, PAGPath, PathSelector};

verus! {

/// What the first argument of a dynamic `Fn*` trait call was found to point to.
#[derive(Clone, Copy, PartialEq, Eq, Debug, Structural)]
pub enum FnObjKind {
    /// A function item, resolved to the given function.
    FnDef(FuncId),
    /// A closure (or coroutine), the given function.
    Closure(FuncId),
    /// A function pointer.
    FnPtr,
    /// Anything else.
    Other,
}

/// `args` are the `n` fields of the arguments tuple `tuple`, in order.
pub open spec fn unpacked<T>(args: Seq<Rc<T>>, tuple: Rc<T>, n: nat) -> bool where Rc<T>: PAGPath {
    &&& args.len() == n
    &&& forall|i: int| 0 <= i < n ==> #[trigger] args[i].path_of() == appended(tuple.path_of(), seq![PathSelector::Field(i as usize)])
}

/// The number of fields of the arguments tuple: none where it is no tuple (a
/// constant `()`).
pub open spec fn tuple_len(arity: Option<usize>) -> nat {
    match arity {
        Some(n) => n as nat,
        None => 0,
    }
}

/// The fields of the arguments tuple `tuple`, whose arity is `arity` (`None` where
/// its type is no tuple).
fn unpack_args_tuple<T>(tuple: &Rc<T>, arity: Option<usize>) -> (r: Vec<Rc<T>>)
    where Rc<T>: PAGPath
    requires
        path_ok(tuple.path_of()),
    ensures
        unpacked(r@, *tuple, tuple_len(arity)),
{
    let n = match arity {
        Some(n) => n,
        None => 0,
    };
    let mut r: Vec<Rc<T>> = Vec::new();
    let mut i: usize = 0;
    while i < n
        invariant
            i <= n,
            n == tuple_len(arity),
            path_ok(tuple.path_of()),
            r@.len() == i,
            forall|j: int| 0 <= j < i ==> #[trigger] r@[j].path_of() == appended(tuple.path_of(), seq![PathSelector::Field(j as usize)]),
        decreases n - i,
    {
        let elems = vec![PathSelector::Field(i)];
        let p = tuple.append_projection(&elems);
        proof {
            assert(elems@ =~= seq![PathSelector::Field(i)]);
        }
        r.push(p);
        i = i + 1;
    }
    r
}

/// The call that a dynamic `Fn*` trait call at `cs` becomes, for a first argument
/// that points to an object of the given kind, whose arguments tuple (`cs.args[1]`)
/// has `arity` fields (`None` where it is no tuple): for a function item, a call
/// of that function with the tuple's fields as arguments; for a closure, a call of
/// the closure with the first argument, then the tuple's fields; for a function
/// pointer, the call with the tuple's fields, whose callee the pointer's targets
/// give; for anything else, none.
pub fn fntrait_call_for<F: Copy, T>(kind: FnObjKind, cs: &CallSiteS<F, Rc<T>>, arity: Option<usize>) -> (r: Option<(CallSiteS<F, Rc<T>>, Option<FuncId>)>)
    where Rc<T>: PAGPath
    requires
        kind !is Other ==> cs.args@.len() >= 2 && path_ok(cs.args@[1].path_of()),
    ensures
        match kind {
            FnObjKind::Other => r is None,
            FnObjKind::FnDef(f) => r matches Some((c, callee)) && callee == Some(f) && c.func == cs.func
                && c.location == cs.location && c.destination == cs.destination
                && unpacked(c.args@, cs.args@[1], tuple_len(arity)),
            FnObjKind::Closure(f) => r matches Some((c, callee)) && callee == Some(f) && c.func == cs.func
                && c.location == cs.location && c.destination == cs.destination
                && c.args@.len() >= 1 && c.args@[0] == cs.args@[0]
                && unpacked(c.args@.drop_first(), cs.args@[1], tuple_len(arity)),
            FnObjKind::FnPtr => r matches Some((c, callee)) && callee is None && c.func == cs.func
                && c.location == cs.location && c.destination == cs.destination
                && unpacked(c.args@, cs.args@[1], tuple_len(arity)),
        },
{
    match kind {
        FnObjKind::Other => None,
        FnObjKind::FnDef(f) => {
            let args = unpack_args_tuple(&cs.args[1], arity);
            Some((CallSiteS { func: cs.func, location: cs.location, args, destination: share(&cs.destination) }, Some(f)))
        },
        FnObjKind::Closure(f) => {
            let fields = unpack_args_tuple(&cs.args[1], arity);
            let mut args: Vec<Rc<T>> = Vec::new();
            args.push(share(&cs.args[0]));
            let mut i: usize = 0;
            while i < fields.len()
                invariant
                    i <= fields@.len(),
                    args@.len() == i + 1,
                    args@[0] == cs.args@[0],
                    forall|j: int| 0 <= j < i ==> #[trigger] args@[j + 1] == fields@[j],
                decreases fields@.len() - i,
            {
                args.push(share(&fields[i]));
                i = i + 1;
            }
            proof {
                assert(args@.drop_first() =~= fields@);
            }
            Some((CallSiteS { func: cs.func, location: cs.location, args, destination: share(&cs.destination) }, Some(f)))
        },
        FnObjKind::FnPtr => {
            let args = unpack_args_tuple(&cs.args[1], arity);
            Some((CallSiteS { func: cs.func, location: cs.location, args, destination: share(&cs.destination) }, None))
        },
    }
}

} // verus!
