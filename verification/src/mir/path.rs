//! Paths: the representation of local variables, heap objects, their fields and
//! the places reached from them.

use std::rc::Rc;
use vstd::prelude::*;
use crate::mir::call_site::Location;
use crate::mir::context::{share, ContextElement, ContextId};
use crate::mir::function::{CSFuncId, DefId, FuncId};
use crate::util::SameValue;

verus! {

/// The PathSelector denotes a de-referenced item, field, or element, or slice.
#[derive(Copy, Clone, PartialEq, Eq, Hash, Debug, Structural)]
pub enum PathSelector {
    /// Given a path that denotes a reference, select the thing the reference points to.
    Deref,
    /// Select the struct field with the given index.
    Field(usize),
    /// Selects a particular type case from a type union.
    /// all fields of a union share common storage. As a result, writes to one field of
    /// a union can overwrite its other fields, and size of a union is determined by the
    /// size of its largest field.
    UnionField(usize),
    /// Index into a slice/array
    Index,
    /// These indices are generated by slice patterns.
    ///
    /// If `from_end` is true `slice[from..slice.len() - to]`.
    /// Otherwise `array[from..to]`.
    Subslice { from: u64, to: u64, from_end: bool },
    /// "Downcast" to a variant of an ADT. Currently, MIR only introduces
    /// this for ADTs with more than one variant. The value is the ordinal of the variant.
    Downcast(usize),
    /// The tag used to indicate which case of an enum is used for a particular enum value.
    Discriminant,
    /// Cast a path into another type.
    /// The most common cases are casting a transparent wrapper tyoe into its inner type or
    /// casting a type into a transparent wrapper type via pointer casting.
    Cast(usize),
}

/// The customized representation for a local variable, heap objects, ...
///
/// Resembles the `Place` type in rustc.
#[derive(Clone, Eq, Hash, Debug)]
pub struct Path {
    pub value: PathEnum,
}

/// Paths are equal when they denote the same thing.
impl PartialEq for Path {
    fn eq(&self, other: &Self) -> (r: bool) {
        same_path(self, other)
    }
}

impl vstd::std_specs::cmp::PartialEqSpecImpl for Path {
    open spec fn obeys_eq_spec() -> bool {
        true
    }

    open spec fn eq_spec(&self, other: &Self) -> bool {
        self@ == other@
    }
}

/// Different kinds of `Path` used in our analysis.
#[derive(Clone, PartialEq, Eq, Hash, Debug)]
pub enum PathEnum {
    /// Locals [arg_count+1..] are the local variables and compiler temporaries.
    LocalVariable { func_id: FuncId, ordinal: usize },
    /// Locals [1..=arg_count] are the parameters
    Parameter { func_id: FuncId, ordinal: usize },
    /// Local 0 is the return value temporary
    ReturnValue { func_id: FuncId },
    /// Auxiliary local variable created when running pointer analysis
    Auxiliary { func_id: FuncId, ordinal: usize },
    /// A dynamically allocated memory object.
    HeapObj { func_id: FuncId, location: Location },
    Constant,
    StaticVariable { def_id: DefId },
    /// The ordinal is an index into a method level table of MIR bodies.
    PromotedConstant { def_id: DefId, ordinal: usize },
    /// The base denotes some struct, collection or heap_obj.
    /// projection: a non-empty list of projections
    QualifiedPath { base: Rc<Path>, projection: Vec<PathSelector> },
    OffsetPath { base: Rc<Path>, offset: usize },
    /// A function instance which can be pointed to by a function pointer.
    Function(FuncId),
    PromotedStrRefArray,
    PromotedArgumentV1Array,
    /// A type instance uniquely identified by the type's index in type cache
    Type(usize),
}

/// What a path denotes, with its projection as a sequence.
pub enum PathV {
    LocalVariable { func_id: FuncId, ordinal: usize },
    Parameter { func_id: FuncId, ordinal: usize },
    ReturnValue { func_id: FuncId },
    Auxiliary { func_id: FuncId, ordinal: usize },
    HeapObj { func_id: FuncId, location: Location },
    Constant,
    StaticVariable { def_id: DefId },
    PromotedConstant { def_id: DefId, ordinal: usize },
    QualifiedPath { base: Box<PathV>, projection: Seq<PathSelector> },
    OffsetPath { base: Box<PathV>, offset: usize },
    Function(FuncId),
    PromotedStrRefArray,
    PromotedArgumentV1Array,
    Type(usize),
}

/// What the path `p` denotes.
pub open spec fn path_view(p: Path) -> PathV
    decreases p,
{
    match p.value {
        PathEnum::LocalVariable { func_id, ordinal } => PathV::LocalVariable { func_id, ordinal },
        PathEnum::Parameter { func_id, ordinal } => PathV::Parameter { func_id, ordinal },
        PathEnum::ReturnValue { func_id } => PathV::ReturnValue { func_id },
        PathEnum::Auxiliary { func_id, ordinal } => PathV::Auxiliary { func_id, ordinal },
        PathEnum::HeapObj { func_id, location } => PathV::HeapObj { func_id, location },
        PathEnum::Constant => PathV::Constant,
        PathEnum::StaticVariable { def_id } => PathV::StaticVariable { def_id },
        PathEnum::PromotedConstant { def_id, ordinal } => PathV::PromotedConstant { def_id, ordinal },
        PathEnum::QualifiedPath { base, projection } => PathV::QualifiedPath { base: Box::new(path_view(*base)), projection: projection@ },
        PathEnum::OffsetPath { base, offset } => PathV::OffsetPath { base: Box::new(path_view(*base)), offset },
        PathEnum::Function(f) => PathV::Function(f),
        PathEnum::PromotedStrRefArray => PathV::PromotedStrRefArray,
        PathEnum::PromotedArgumentV1Array => PathV::PromotedArgumentV1Array,
        PathEnum::Type(t) => PathV::Type(t),
    }
}

impl View for Path {
    type V = PathV;

    open spec fn view(&self) -> PathV {
        path_view(*self)
    }
}

/// Byte offset of metadata in fat pointer
pub const PTR_METADATA_OFFSET: usize = 8;

/// A path built by the constructors: the base of a qualified path is never itself
/// qualified, and its projection is never empty.
pub open spec fn path_ok(p: PathV) -> bool
    decreases p,
{
    match p {
        PathV::QualifiedPath { base, projection } => projection.len() > 0 && !(*base is QualifiedPath) && path_ok(*base),
        PathV::OffsetPath { base, offset } => path_ok(*base),
        _ => true,
    }
}

/// The path `p` qualified by the projection `elems`, which extend its own
/// projection where it has one.
pub open spec fn appended(p: PathV, elems: Seq<PathSelector>) -> PathV {
    match p {
        PathV::QualifiedPath { base, projection } => PathV::QualifiedPath { base, projection: projection + elems },
        _ => PathV::QualifiedPath { base: Box::new(p), projection: elems },
    }
}

/// The path `p` displaced by `offset` bytes, which add to its own offset where it
/// has one.
pub open spec fn offset_by(p: PathV, offset: usize) -> PathV {
    if offset == 0 {
        p
    } else {
        match p {
            PathV::OffsetPath { base, offset: old_offset } => PathV::OffsetPath { base, offset: (old_offset + offset) as usize },
            _ => PathV::OffsetPath { base: Box::new(p), offset },
        }
    }
}

/// A displacement of `offset` bytes can be applied to `p`: a qualified path must
/// be a plain dereference, and offsets must not overflow.
pub open spec fn offset_ok(p: PathV, offset: usize) -> bool {
    offset != 0 ==> match p {
        PathV::OffsetPath { base, offset: old_offset } => old_offset + offset <= usize::MAX,
        PathV::QualifiedPath { base, projection } => projection == seq![PathSelector::Deref],
        _ => true,
    }
}

/// The path `p` with its projection cut to its first `len` elements; `p` itself
/// where it is not qualified or has fewer.
pub open spec fn truncated(p: PathV, len: nat) -> PathV {
    match p {
        PathV::QualifiedPath { base, projection } => if projection.len() < len {
            p
        } else if len == 0 {
            *base
        } else {
            PathV::QualifiedPath { base, projection: projection.subrange(0, len as int) }
        },
        _ => p,
    }
}

/// A path augmented with a context.
pub struct CSPath {
    pub cid: ContextId,
    pub path: Rc<Path>,
}

impl CSPath {
    pub fn new_cs_path(cid: ContextId, path: Rc<Path>) -> (r: Rc<CSPath>)
        ensures
            r.cid == cid,
            r.path@ == path@,
    {
        Rc::new(CSPath { cid, path })
    }
}

/// A path stands for what it denotes.
impl SameValue for Rc<Path> {
    type Model = PathV;

    open spec fn model(&self) -> PathV {
        (**self)@
    }

    fn same_value(&self, other: &Self) -> (r: bool) {
        same_path(&**self, &**other)
    }
}

/// A path in a calling context stands for what it denotes, its context aside.
impl SameValue for Rc<CSPath> {
    type Model = (ContextId, PathV);

    open spec fn model(&self) -> (ContextId, PathV) {
        (self.cid, self.path@)
    }

    fn same_value(&self, other: &Self) -> (r: bool) {
        self.cid == other.cid && same_path(&*self.path, &*other.path)
    }
}

/// Paths can make up a calling context: object-sensitive contexts.
impl ContextElement for Rc<Path> {

    fn copy_element(&self) -> (r: Self) {
        share(self)
    }
}

/// The two paths denote the same thing.
fn same_path(a: &Path, b: &Path) -> (r: bool)
    ensures
        r == (a@ == b@),
    decreases a,
{
    match (&a.value, &b.value) {
        (PathEnum::LocalVariable { func_id: f1, ordinal: o1 }, PathEnum::LocalVariable { func_id: f2, ordinal: o2 }) => *f1 == *f2 && *o1 == *o2,
        (PathEnum::Parameter { func_id: f1, ordinal: o1 }, PathEnum::Parameter { func_id: f2, ordinal: o2 }) => *f1 == *f2 && *o1 == *o2,
        (PathEnum::ReturnValue { func_id: f1 }, PathEnum::ReturnValue { func_id: f2 }) => *f1 == *f2,
        (PathEnum::Auxiliary { func_id: f1, ordinal: o1 }, PathEnum::Auxiliary { func_id: f2, ordinal: o2 }) => *f1 == *f2 && *o1 == *o2,
        (PathEnum::HeapObj { func_id: f1, location: l1 }, PathEnum::HeapObj { func_id: f2, location: l2 }) => *f1 == *f2 && *l1 == *l2,
        (PathEnum::Constant, PathEnum::Constant) => true,
        (PathEnum::StaticVariable { def_id: d1 }, PathEnum::StaticVariable { def_id: d2 }) => *d1 == *d2,
        (PathEnum::PromotedConstant { def_id: d1, ordinal: o1 }, PathEnum::PromotedConstant { def_id: d2, ordinal: o2 }) => *d1 == *d2 && *o1 == *o2,
        (PathEnum::QualifiedPath { base: b1, projection: p1 }, PathEnum::QualifiedPath { base: b2, projection: p2 }) => {
            if !same_projection(p1, p2) {
                return false;
            }
            let r = same_path(&**b1, &**b2);
            proof {
                if r {
                    assert(a@ == b@);
                } else {
                    assert(path_view(**b1) != path_view(**b2));
                }
            }
            r
        },
        (PathEnum::OffsetPath { base: b1, offset: o1 }, PathEnum::OffsetPath { base: b2, offset: o2 }) => {
            if *o1 != *o2 {
                return false;
            }
            let r = same_path(&**b1, &**b2);
            proof {
                if !r {
                    assert(path_view(**b1) != path_view(**b2));
                }
            }
            r
        },
        (PathEnum::Function(f1), PathEnum::Function(f2)) => *f1 == *f2,
        (PathEnum::PromotedStrRefArray, PathEnum::PromotedStrRefArray) => true,
        (PathEnum::PromotedArgumentV1Array, PathEnum::PromotedArgumentV1Array) => true,
        (PathEnum::Type(t1), PathEnum::Type(t2)) => *t1 == *t2,
        _ => false,
    }
}

/// The two projections select the same things.
fn same_projection(a: &Vec<PathSelector>, b: &Vec<PathSelector>) -> (r: bool)
    ensures
        r == (a@ == b@),
{
    if a.len() != b.len() {
        return false;
    }
    let n = a.len();
    let mut i: usize = 0;
    while i < n
        invariant
            i <= n,
            n == a@.len(),
            n == b@.len(),
            forall|j: int| 0 <= j < i ==> a@[j] == b@[j],
        decreases n - i,
    {
        if a[i] != b[i] {
            return false;
        }
        i = i + 1;
    }
    assert(a@ =~= b@);
    true
}

/// The first `len` selectors of a projection.
fn prefix_of(p: &Vec<PathSelector>, len: usize) -> (r: Vec<PathSelector>)
    requires
        len <= p@.len(),
    ensures
        r@ == p@.subrange(0, len as int),
{
    let mut r: Vec<PathSelector> = Vec::new();
    let mut i: usize = 0;
    while i < len
        invariant
            i <= len,
            len <= p@.len(),
            r@ == p@.subrange(0, i as int),
        decreases len - i,
    {
        r.push(p[i]);
        i = i + 1;
    }
    r
}

impl Path {
    /// Creates a path to the local variable corresponding to the ordinal.
    pub fn new_local(func_id: FuncId, ordinal: usize) -> (r: Rc<Path>)
        ensures
            r@ == (PathV::LocalVariable { func_id, ordinal }),
    {
        Rc::new(Path { value: PathEnum::LocalVariable { func_id, ordinal } })
    }

    /// Creates a path to the parameter corresponding to the ordinal.
    pub fn new_parameter(func_id: FuncId, ordinal: usize) -> (r: Rc<Path>)
        ensures
            r@ == (PathV::Parameter { func_id, ordinal }),
    {
        Rc::new(Path { value: PathEnum::Parameter { func_id, ordinal } })
    }

    /// Creates a path to the return value.
    pub fn new_return_value(func_id: FuncId) -> (r: Rc<Path>)
        ensures
            r@ == (PathV::ReturnValue { func_id }),
    {
        Rc::new(Path { value: PathEnum::ReturnValue { func_id } })
    }

    /// Creates a path to the local variable, parameter or result local, corresponding to the ordinal.
    pub fn new_local_parameter_or_result(func_id: FuncId, ordinal: usize, argument_count: usize) -> (r: Rc<Path>)
        ensures
            r@ == if ordinal == 0 {
                PathV::ReturnValue { func_id }
            } else if ordinal <= argument_count {
                PathV::Parameter { func_id, ordinal }
            } else {
                PathV::LocalVariable { func_id, ordinal }
            },
    {
        if ordinal == 0 {
            Self::new_return_value(func_id)
        } else if ordinal <= argument_count {
            Self::new_parameter(func_id, ordinal)
        } else {
            Self::new_local(func_id, ordinal)
        }
    }

    /// Creates a new auxiliary path.
    pub fn new_aux(func_id: FuncId, ordinal: usize) -> (r: Rc<Path>)
        ensures
            r@ == (PathV::Auxiliary { func_id, ordinal }),
    {
        Rc::new(Path { value: PathEnum::Auxiliary { func_id, ordinal } })
    }

    /// Creates a path to the heap object.
    pub fn new_heap_obj(func_id: FuncId, location: Location) -> (r: Rc<Path>)
        ensures
            r@ == (PathV::HeapObj { func_id, location }),
    {
        Rc::new(Path { value: PathEnum::HeapObj { func_id, location } })
    }

    /// Creates a path to a constant.
    pub fn new_constant() -> (r: Rc<Path>)
        ensures
            r@ == PathV::Constant,
    {
        Rc::new(Path { value: PathEnum::Constant })
    }

    /// Creates a path to a static variable.
    pub fn new_static_variable(def_id: DefId) -> (r: Rc<Path>)
        ensures
            r@ == (PathV::StaticVariable { def_id }),
    {
        Rc::new(Path { value: PathEnum::StaticVariable { def_id } })
    }

    /// Creates a path to a promoted constant.
    pub fn new_promoted(def_id: DefId, ordinal: usize) -> (r: Rc<Path>)
        ensures
            r@ == (PathV::PromotedConstant { def_id, ordinal }),
    {
        Rc::new(Path { value: PathEnum::PromotedConstant { def_id, ordinal } })
    }

    /// Creates a path to a argumentv1 array.
    pub fn new_argumentv1_arr() -> (r: Rc<Path>)
        ensures
            r@ == PathV::PromotedArgumentV1Array,
    {
        Rc::new(Path { value: PathEnum::PromotedArgumentV1Array })
    }

    /// Creates a path to a &str array.
    pub fn new_str_ref_arr() -> (r: Rc<Path>)
        ensures
            r@ == PathV::PromotedStrRefArray,
    {
        Rc::new(Path { value: PathEnum::PromotedStrRefArray })
    }

    /// Creates a path that qualifies the given root path with the given projection.
    pub fn new_qualified(base: Rc<Path>, projection: Vec<PathSelector>) -> (r: Rc<Path>)
        requires
            !(base@ is QualifiedPath),
        ensures
            r@ == (PathV::QualifiedPath { base: Box::new(base@), projection: projection@ }),
    {
        Rc::new(Path { value: PathEnum::QualifiedPath { base, projection } })
    }

    /// Creates a path that qualifies the given root path with the given offset.
    pub fn new_offset(base: Rc<Path>, offset: usize) -> (r: Rc<Path>)
        ensures
            offset == 0 ==> r@ == base@,
            offset != 0 ==> r@ == (PathV::OffsetPath { base: Box::new(base@), offset }),
    {
        if offset == 0 {
            base
        } else {
            Rc::new(Path { value: PathEnum::OffsetPath { base, offset } })
        }
    }

    /// Creates a path that selects the element at a given index value of the array at the given path.
    pub fn new_index(collection_path: Rc<Path>) -> (r: Rc<Path>)
        requires
            path_ok(collection_path@),
        ensures
            r@ == appended(collection_path@, seq![PathSelector::Index]),
    {
        Path::append_projection_elem(&collection_path, PathSelector::Index)
    }

    /// Creates a path that selects the given field of the struct at the given path.
    pub fn new_field(base: Rc<Path>, field_index: usize) -> (r: Rc<Path>)
        requires
            path_ok(base@),
        ensures
            r@ == appended(base@, seq![PathSelector::Field(field_index)]),
    {
        Self::append_projection_elem(&base, PathSelector::Field(field_index))
    }

    /// Creates a path that selects the given union field of the union at the given path.
    pub fn new_union_field(base: Rc<Path>, field_index: usize) -> (r: Rc<Path>)
        requires
            path_ok(base@),
        ensures
            r@ == appended(base@, seq![PathSelector::UnionField(field_index)]),
    {
        Self::append_projection_elem(&base, PathSelector::UnionField(field_index))
    }

    /// Creates a path that selects the given downcast of the enum at the given path.
    pub fn new_downcast(base: Rc<Path>, downcast_variant: usize) -> (r: Rc<Path>)
        requires
            path_ok(base@),
        ensures
            r@ == appended(base@, seq![PathSelector::Downcast(downcast_variant)]),
    {
        Self::append_projection_elem(&base, PathSelector::Downcast(downcast_variant))
    }

    /// Creates a path referring to function item.
    pub fn new_function(func_id: FuncId) -> (r: Rc<Path>)
        ensures
            r@ == PathV::Function(func_id),
    {
        Rc::new(Path { value: PathEnum::Function(func_id) })
    }

    /// Creates a path referring to a type item.
    pub fn new_type(index: usize) -> (r: Rc<Path>)
        ensures
            r@ == PathV::Type(index),
    {
        Rc::new(Path { value: PathEnum::Type(index) })
    }

    /// Creates a path to the target memory of a reference value.
    pub fn new_deref(address_path: Rc<Path>) -> (r: Rc<Path>)
        requires
            !(address_path@ is QualifiedPath),
        ensures
            r@ == (PathV::QualifiedPath { base: Box::new(address_path@), projection: seq![PathSelector::Deref] }),
    {
        Rc::new(Path { value: PathEnum::QualifiedPath { base: address_path, projection: single(PathSelector::Deref) } })
    }

    /// Creates a path representing the metadata of a dynamic pointer.
    pub fn dyn_ptr_metadata(dyn_ptr_path: &Rc<Path>) -> (r: Rc<Path>)
        requires
            offset_ok(dyn_ptr_path@, PTR_METADATA_OFFSET),
        ensures
            r@ == offset_by(dyn_ptr_path@, PTR_METADATA_OFFSET),
    {
        Path::add_offset(dyn_ptr_path, PTR_METADATA_OFFSET)
    }

    /// Creates a path by appending the projection elem.
    pub fn append_projection_elem(path: &Rc<Path>, projection_elem: PathSelector) -> (r: Rc<Path>)
        requires
            path_ok(path@),
        ensures
            r@ == appended(path@, seq![projection_elem]),
    {
        match &path.value {
            PathEnum::QualifiedPath { base, projection } => {
                let ghost old_projection = projection@;
                let mut projection = clone_projection(projection);
                projection.push(projection_elem);
                assert(projection@ =~= old_projection + seq![projection_elem]);
                Path::new_qualified(share(base), projection)
            },
            _ => Path::new_qualified(share(path), single(projection_elem)),
        }
    }

    /// Creates a path by appending the projection elems.
    pub fn append_projection(path: &Rc<Path>, projection_elems: &Vec<PathSelector>) -> (r: Rc<Path>)
        requires
            path_ok(path@),
        ensures
            projection_elems@.len() == 0 ==> r@ == path@,
            projection_elems@.len() > 0 ==> r@ == appended(path@, projection_elems@),
    {
        if projection_elems.len() == 0 {
            return share(path);
        }
        match &path.value {
            PathEnum::QualifiedPath { base, projection } => {
                let mut projection = clone_projection(projection);
                let mut more = clone_projection(projection_elems);
                projection.append(&mut more);
                Path::new_qualified(share(base), projection)
            },
            _ => Path::new_qualified(share(path), clone_projection(projection_elems)),
        }
    }

    /// Displaces a path by `offset` bytes: offsets add up, and a displaced
    /// qualified path must be a plain dereference.
    pub fn add_offset(path: &Rc<Path>, offset: usize) -> (r: Rc<Path>)
        requires
            offset_ok(path@, offset),
        ensures
            r@ == offset_by(path@, offset),
    {
        if offset == 0 {
            return share(path);
        }
        match &path.value {
            PathEnum::OffsetPath { base, offset: old_offset } => Path::new_offset(share(base), *old_offset + offset),
            _ => Path::new_offset(share(path), offset),
        }
    }

    /// Creates a path by truncating the projection elems.
    pub fn truncate_projection_elems(path: &Rc<Path>, len: usize) -> (r: Rc<Path>)
        requires
            path_ok(path@),
        ensures
            r@ == truncated(path@, len as nat),
    {
        match &path.value {
            PathEnum::QualifiedPath { base, projection } => {
                if projection.len() < len {
                    share(path)
                } else if len == 0 {
                    share(base)
                } else {
                    Path::new_qualified(share(base), prefix_of(projection, len))
                }
            },
            _ => share(path),
        }
    }

    /// Returns the path that was cast, by removing the cast.
    pub fn remove_cast(path: &Rc<Path>) -> (r: Rc<Path>)
        requires
            path_ok(path@),
        ensures
            r@ == match path@ {
                PathV::QualifiedPath { base, projection } => if projection.last() is Cast {
                    truncated(path@, (projection.len() - 1) as nat)
                } else {
                    path@
                },
                _ => path@,
            },
    {
        match &path.value {
            PathEnum::QualifiedPath { base: _, projection } => {
                let n = projection.len();
                match projection[n - 1] {
                    PathSelector::Cast(_) => Path::truncate_projection_elems(path, n - 1),
                    _ => share(path),
                }
            },
            _ => share(path),
        }
    }

    pub fn is_constant(&self) -> (r: bool)
        ensures
            r == (self@ is Constant),
    {
        match self.value {
            PathEnum::Constant => true,
            _ => false,
        }
    }
}

/// The projection of the one selector `elem`.
fn single(elem: PathSelector) -> (r: Vec<PathSelector>)
    ensures
        r@ == seq![elem],
{
    let mut r: Vec<PathSelector> = Vec::new();
    r.push(elem);
    assert(r@ =~= seq![elem]);
    r
}

/// A copy of a projection.
fn clone_projection(p: &Vec<PathSelector>) -> (r: Vec<PathSelector>)
    ensures
        r@ == p@,
{
    prefix_of(p, p.len())
}

/// `a` is a field of `b`: both have the same base, and the projection of `b` is a
/// proper prefix of that of `a`; or `b` is the base of `a`.
pub open spec fn field_of(a: PathV, b: PathV) -> bool {
    match a {
        PathV::QualifiedPath { base: sb, projection: sp } => match b {
            PathV::QualifiedPath { base, projection } => *sb == *base && sp.len() > projection.len() && sp.subrange(0, projection.len() as int) == projection,
            _ => *sb == b,
        },
        _ => false,
    }
}

/// `p` is a dereferenced value or a field of one.
pub open spec fn deref_path(p: PathV) -> bool
    decreases p,
{
    match p {
        PathV::QualifiedPath { base, projection } => projection[0] == PathSelector::Deref,
        PathV::OffsetPath { base, offset } => deref_path(*base),
        _ => false,
    }
}

pub trait PathSupport {
    fn is_field_of(&self, path: &Rc<Path>) -> bool;

    fn is_deref_path(&self) -> bool;
}

impl PathSupport for Rc<Path> {
    /// Returns true if this path is the field of the given path.
    /// e.g. `_1.0.1` and `_1.0`
    fn is_field_of(&self, path: &Rc<Path>) -> (r: bool)
        ensures
            r == field_of((*self)@, (*path)@),
    {
        match &self.value {
            PathEnum::QualifiedPath { base: self_base, projection: self_projection } => match &path.value {
                PathEnum::QualifiedPath { base, projection } => {
                    if same_path(&**self_base, &**base) && self_projection.len() > projection.len() {
                        let prefix = prefix_of(self_projection, projection.len());
                        same_projection(&prefix, projection)
                    } else {
                        false
                    }
                },
                _ => same_path(&**self_base, &**path),
            },
            _ => false,
        }
    }

    /// Returns true if this path represents a dereferenced value or a field of a dereferenced value.
    fn is_deref_path(&self) -> (r: bool)
        ensures
            path_ok((*self)@) ==> r == deref_path((*self)@),
    {
        is_deref(&**self)
    }
}

/// The path is a dereferenced value or a field of one.
fn is_deref(p: &Path) -> (r: bool)
    ensures
        path_ok(p@) ==> r == deref_path(p@),
    decreases p,
{
    match &p.value {
        PathEnum::QualifiedPath { base: _, projection } => {
            if projection.len() == 0 {
                false
            } else {
                projection[0] == PathSelector::Deref
            }
        },
        PathEnum::OffsetPath { base, offset: _ } => is_deref(&**base),
        _ => false,
    }
}

/// The function whose local variable, parameter, return value, auxiliary variable
/// or heap object the path is, or is a part of; none for other paths.
pub open spec fn containing_func(p: PathV) -> Option<FuncId>
    decreases p,
{
    match p {
        PathV::LocalVariable { func_id, ordinal: _ } => Some(func_id),
        PathV::Parameter { func_id, ordinal: _ } => Some(func_id),
        PathV::ReturnValue { func_id } => Some(func_id),
        PathV::Auxiliary { func_id, ordinal: _ } => Some(func_id),
        PathV::HeapObj { func_id, location: _ } => Some(func_id),
        PathV::QualifiedPath { base, projection: _ } => containing_func(*base),
        PathV::OffsetPath { base, offset: _ } => containing_func(*base),
        _ => None,
    }
}

/// The function that the path belongs to, if any.
fn containing_func_of(p: &Path) -> (r: Option<FuncId>)
    ensures
        r == containing_func(p@),
    decreases p,
{
    match &p.value {
        PathEnum::LocalVariable { func_id, .. } => Some(*func_id),
        PathEnum::Parameter { func_id, .. } => Some(*func_id),
        PathEnum::ReturnValue { func_id } => Some(*func_id),
        PathEnum::Auxiliary { func_id, .. } => Some(*func_id),
        PathEnum::HeapObj { func_id, .. } => Some(*func_id),
        PathEnum::QualifiedPath { base, .. } => containing_func_of(&**base),
        PathEnum::OffsetPath { base, .. } => containing_func_of(&**base),
        _ => None,
    }
}

/// The path is a heap object, or a part of one.
pub open spec fn heap_based(p: PathV) -> bool {
    match p {
        PathV::HeapObj { func_id: _, location: _ } => true,
        PathV::QualifiedPath { base, projection: _ } => *base is HeapObj,
        PathV::OffsetPath { base, offset: _ } => *base is HeapObj,
        _ => false,
    }
}

/// The paths that stand in a pointer assignment graph: plain paths, or paths in a
/// calling context. A path denotes `path_of`.
pub trait PAGPath: Sized {
    /// The functions the paths belong to.
    type FuncTy;

    /// What the path denotes.
    spec fn path_of(&self) -> PathV;

    /// The function the path belongs to, if any.
    spec fn containing(&self) -> Option<Self::FuncTy>;

    /// The path of the parameter of `func` with the given ordinal.
    fn new_parameter(func: Self::FuncTy, ordinal: usize) -> Self;

    /// The path of the return value of `func`.
    fn new_return_value(func: Self::FuncTy) -> Self;

    /// The kind of the path.
    fn value(&self) -> (r: &PathEnum)
        ensures
            path_view((Path { value: *r })) == self.path_of(),
    ;

    /// The path qualified by the projection elems.
    fn append_projection(&self, projection_elems: &Vec<PathSelector>) -> (r: Self)
        requires
            path_ok(self.path_of()),
        ensures
            projection_elems@.len() == 0 ==> r.path_of() == self.path_of(),
            projection_elems@.len() > 0 ==> r.path_of() == appended(self.path_of(), projection_elems@),
    ;

    /// The path displaced by `offset` bytes.
    fn add_offset(&self, offset: usize) -> (r: Self)
        requires
            offset_ok(self.path_of(), offset),
        ensures
            r.path_of() == offset_by(self.path_of(), offset),
    ;

    /// The path of the metadata of a dynamic pointer.
    fn dyn_ptr_metadata(&self) -> (r: Self)
        requires
            offset_ok(self.path_of(), PTR_METADATA_OFFSET),
        ensures
            r.path_of() == offset_by(self.path_of(), PTR_METADATA_OFFSET),
    ;

    /// The path without its last projection elem where that is a cast.
    fn remove_cast(&self) -> (r: Self)
        requires
            path_ok(self.path_of()),
        ensures
            r.path_of() == match self.path_of() {
                PathV::QualifiedPath { base, projection } => if projection.last() is Cast {
                    truncated(self.path_of(), (projection.len() - 1) as nat)
                } else {
                    self.path_of()
                },
                _ => self.path_of(),
            },
    ;

    /// The function the path belongs to, if any.
    fn get_containing_func(&self) -> (r: Option<Self::FuncTy>)
        ensures
            r == self.containing(),
    ;
}

impl PAGPath for Rc<Path> {
    type FuncTy = FuncId;

    open spec fn path_of(&self) -> PathV {
        (**self)@
    }

    open spec fn containing(&self) -> Option<FuncId> {
        containing_func((**self)@)
    }

    fn new_parameter(func: FuncId, ordinal: usize) -> (r: Self)
        ensures
            r@ == (PathV::Parameter { func_id: func, ordinal }),
    {
        Path::new_parameter(func, ordinal)
    }

    fn new_return_value(func: FuncId) -> (r: Self)
        ensures
            r@ == (PathV::ReturnValue { func_id: func }),
    {
        Path::new_return_value(func)
    }

    fn value(&self) -> (r: &PathEnum) {
        &self.value
    }

    fn append_projection(&self, projection_elems: &Vec<PathSelector>) -> (r: Self) {
        Path::append_projection(self, projection_elems)
    }

    fn add_offset(&self, offset: usize) -> (r: Self) {
        Path::add_offset(self, offset)
    }

    fn dyn_ptr_metadata(&self) -> (r: Self) {
        Path::dyn_ptr_metadata(self)
    }

    fn remove_cast(&self) -> (r: Self) {
        Path::remove_cast(self)
    }

    fn get_containing_func(&self) -> (r: Option<FuncId>) {
        containing_func_of(&**self)
    }
}

impl PAGPath for Rc<CSPath> {
    type FuncTy = CSFuncId;

    open spec fn path_of(&self) -> PathV {
        self.path@
    }

    open spec fn containing(&self) -> Option<CSFuncId> {
        match containing_func(self.path@) {
            Some(f) => Some(CSFuncId { cid: self.cid, func_id: f }),
            None => None,
        }
    }

    fn new_parameter(func: CSFuncId, ordinal: usize) -> (r: Self)
        ensures
            r.cid == func.cid,
            r.path@ == (PathV::Parameter { func_id: func.func_id, ordinal }),
    {
        CSPath::new_cs_path(func.cid, Path::new_parameter(func.func_id, ordinal))
    }

    fn new_return_value(func: CSFuncId) -> (r: Self)
        ensures
            r.cid == func.cid,
            r.path@ == (PathV::ReturnValue { func_id: func.func_id }),
    {
        CSPath::new_cs_path(func.cid, Path::new_return_value(func.func_id))
    }

    fn value(&self) -> (r: &PathEnum) {
        &self.path.value
    }

    fn append_projection(&self, projection_elems: &Vec<PathSelector>) -> (r: Self)
        ensures
            r.cid == self.cid,
    {
        CSPath::new_cs_path(self.cid, Path::append_projection(&self.path, projection_elems))
    }

    fn add_offset(&self, offset: usize) -> (r: Self)
        ensures
            r.cid == self.cid,
    {
        CSPath::new_cs_path(self.cid, Path::add_offset(&self.path, offset))
    }

    fn dyn_ptr_metadata(&self) -> (r: Self)
        ensures
            r.cid == self.cid,
    {
        CSPath::new_cs_path(self.cid, Path::dyn_ptr_metadata(&self.path))
    }

    fn remove_cast(&self) -> (r: Self)
        ensures
            r.cid == self.cid,
    {
        CSPath::new_cs_path(self.cid, Path::remove_cast(&self.path))
    }

    fn get_containing_func(&self) -> (r: Option<CSFuncId>) {
        match containing_func_of(&*self.path) {
            Some(func_id) => Some(CSFuncId { cid: self.cid, func_id }),
            None => None,
        }
    }
}

/// Appending projections one after the other is appending them at once.
pub proof fn law_append_associative(p: PathV, a: Seq<PathSelector>, b: Seq<PathSelector>)
    ensures
        appended(appended(p, a), b) == appended(p, a + b),
{
    match p {
        PathV::QualifiedPath { base, projection } => {
            assert(projection + a + b =~= projection + (a + b));
        },
        _ => {},
    }
}

/// Truncating an appended path to the length of its former projection gives the
/// path back.
pub proof fn law_truncate_undoes_append(p: PathV, elems: Seq<PathSelector>)
    requires
        path_ok(p),
    ensures
        truncated(appended(p, elems), match p {
            PathV::QualifiedPath { base, projection } => projection.len(),
            _ => 0,
        }) == p,
{
    match p {
        PathV::QualifiedPath { base, projection } => {
            assert((projection + elems).subrange(0, projection.len() as int) =~= projection);
        },
        _ => {},
    }
}

/// Appending a non-empty projection, or displacing by an allowed offset, keeps a
/// path well built.
pub proof fn law_constructors_keep_paths_ok(p: PathV, elems: Seq<PathSelector>, offset: usize)
    requires
        path_ok(p),
    ensures
        elems.len() > 0 ==> path_ok(appended(p, elems)),
        path_ok(offset_by(p, offset)),
{
}

/// Displacements add up.
pub proof fn law_offsets_add(p: PathV, a: usize, b: usize)
    requires
        a > 0,
        b > 0,
        a + b <= usize::MAX,
        match p {
            PathV::OffsetPath { base, offset } => offset + a + b <= usize::MAX,
            _ => true,
        },
    ensures
        offset_by(offset_by(p, a), b) == offset_by(p, (a + b) as usize),
{
}

/// No path is a field of itself, and of two paths one at most is a field of the
/// other: a field's projection is strictly longer than that of the path it is a
/// field of, when both are qualified.
pub proof fn law_field_of_strict(a: PathV, b: PathV)
    ensures
        !field_of(a, a),
        field_of(a, b) ==> !field_of(b, a),
        field_of(a, b) ==> match (a, b) {
            (PathV::QualifiedPath { base: _, projection: pa }, PathV::QualifiedPath { base: _, projection: pb }) => pa.len() > pb.len(),
            _ => true,
        },
{
}

/// A path qualified by more projection elements is a field of the path it was
/// built from.
pub proof fn law_appended_is_field(p: PathV, elems: Seq<PathSelector>)
    requires
        path_ok(p),
        elems.len() > 0,
    ensures
        field_of(appended(p, elems), p),
        !field_of(p, appended(p, elems)),
{
    match p {
        PathV::QualifiedPath { base, projection } => {
            assert((projection + elems).subrange(0, projection.len() as int) =~= projection);
        },
        _ => {},
    }
}

/// A heap object, any projection of it and any displacement into it are based on
/// the heap object, and so are potentially alive in every function, whatever the
/// call graph.
pub proof fn law_heap_parts_heap_based(func_id: FuncId, location: Location, elems: Seq<PathSelector>, offset: usize)
    ensures
        heap_based(PathV::HeapObj { func_id, location }),
        heap_based(appended(PathV::HeapObj { func_id, location }, elems)),
        heap_based(offset_by(PathV::HeapObj { func_id, location }, offset)),
{
}

/// A field of a field of a path is a field of that path.
pub proof fn law_field_of_transitive(a: PathV, b: PathV, c: PathV)
    requires
        field_of(a, b),
        field_of(b, c),
    ensures
        field_of(a, c),
{
    match (a, b, c) {
        (PathV::QualifiedPath { base: _, projection: pa }, PathV::QualifiedPath { base: _, projection: pb }, PathV::QualifiedPath { base: _, projection: pc }) => {
            assert(pa.subrange(0, pc.len() as int) =~= pa.subrange(0, pb.len() as int).subrange(0, pc.len() as int));
        },
        _ => {},
    }
}

/// A path qualified by more projection elements, or displaced by some bytes,
/// belongs to the function the path it was built from belongs to.
pub proof fn law_containing_func_kept(p: PathV, elems: Seq<PathSelector>, offset: usize)
    ensures
        containing_func(appended(p, elems)) == containing_func(p),
        containing_func(offset_by(p, offset)) == containing_func(p),
{
    reveal_with_fuel(containing_func, 2);
}

} // verus!
