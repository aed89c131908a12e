//! Special handling of calls to well known functions: which functions are
//! handled so, and how a call to each is handled.

use vstd::prelude::*;
use crate::mir::function::DefId;
use crate::mir::known_names::{KnownNames, KnownNamesCache, PathElem, known_name_of, name_at, is_foreign_at};
use crate::mir::known_names::{law_alloc_fns_recognized, law_alloc_foreign_fns_recognized, lemma_ptr_methods_reached};
use crate::mir::known_names::{disambiguator_at, mut_ptr_table, const_ptr_table, lemma_foreign_intrinsics_reached};
use crate::mir::known_names::{lemma_wrapper_fns_recognized, law_allocator_methods_recognized};

verus! {

/// How a call to a well known function is handled.
#[derive(Clone, Copy, Debug, PartialEq, Eq, Structural)]
pub enum SpecialHandling {
    /// `transmute`: the result is the argument, seen at another type.
    Transmute,
    /// Pointer arithmetic: the result points into the object the argument points to.
    Offset,
    /// A pointer cast: the result is the argument, cast.
    PtrCast,
    /// `RawVec::allocate_in`: a fresh heap object for the vector's buffer.
    RawVecAllocateIn,
    /// `Builder::spawn_unchecked`: the closure is called on the new thread.
    ThreadBuilderSpawnUnchecked,
    /// `NonNull::as_ptr`: the result is the pointer the argument wraps.
    NonNullAsPtr,
    /// `Unique::new_unchecked`: the result wraps the argument.
    UniqueNewUnchecked,
    /// `Result::map_err`: the `Ok` value is kept.
    ResultMapErr,
    /// `Into::into`: handled where it turns a `Unique` into a `NonNull`.
    ConvertInto,
    /// An allocation: the result is the address of a fresh heap object.
    Alloc,
    /// `Allocator::allocate`: the `Ok` of the result holds the address of a fresh
    /// heap object.
    AllocatorAllocate,
    /// A reallocation: the result is the object given.
    Realloc,
    /// `Allocator::grow` and `shrink`: the `Ok` of the result holds the pointer
    /// given, cast.
    AllocatorResize,
    /// A deallocation or an allocation error: nothing to do.
    Free,
    /// No special handling.
    NotSpecial,
}

/// How a call to the function with the given well known name is handled.
pub open spec fn handling_of(name: KnownNames) -> SpecialHandling {
    match name {
        KnownNames::StdIntrinsicsTransmute => SpecialHandling::Transmute,
        KnownNames::AllocRawVecAllocateIn => SpecialHandling::RawVecAllocateIn,
        KnownNames::StdThreadBuilderSpawnUnchecked => SpecialHandling::ThreadBuilderSpawnUnchecked,
        KnownNames::StdPtrNonNullAsPtr => SpecialHandling::NonNullAsPtr,
        KnownNames::StdPtrUniqueNewUnchecked => SpecialHandling::UniqueNewUnchecked,
        KnownNames::StdResultMapErr => SpecialHandling::ResultMapErr,
        KnownNames::StdConvertInto => SpecialHandling::ConvertInto,
        KnownNames::StdIntrinsicsOffset
        | KnownNames::StdIntrinsicsArithOffset
        | KnownNames::StdPtrConstPtrAdd
        | KnownNames::StdPtrConstPtrSub
        | KnownNames::StdPtrConstPtrOffset
        | KnownNames::StdPtrConstPtrByteAdd
        | KnownNames::StdPtrConstPtrByteSub
        | KnownNames::StdPtrConstPtrByteOffset
        | KnownNames::StdPtrConstPtrWrappingAdd
        | KnownNames::StdPtrConstPtrWrappingSub
        | KnownNames::StdPtrConstPtrWrappingOffset
        | KnownNames::StdPtrConstPtrWrappingByteAdd
        | KnownNames::StdPtrConstPtrWrappingByteSub
        | KnownNames::StdPtrConstPtrWrappingByteOffset
        | KnownNames::StdPtrMutPtrAdd
        | KnownNames::StdPtrMutPtrSub
        | KnownNames::StdPtrMutPtrOffset
        | KnownNames::StdPtrMutPtrByteAdd
        | KnownNames::StdPtrMutPtrByteSub
        | KnownNames::StdPtrMutPtrByteOffset
        | KnownNames::StdPtrMutPtrWrappingAdd
        | KnownNames::StdPtrMutPtrWrappingSub
        | KnownNames::StdPtrMutPtrWrappingOffset
        | KnownNames::StdPtrMutPtrWrappingByteAdd
        | KnownNames::StdPtrMutPtrWrappingByteSub
        | KnownNames::StdPtrMutPtrWrappingByteOffset => SpecialHandling::Offset,
        KnownNames::StdPtrConstPtrCast
        | KnownNames::StdPtrMutPtrCast => SpecialHandling::PtrCast,
        KnownNames::RustAlloc
        | KnownNames::RustAllocZeroed
        | KnownNames::StdAllocAlloc
        | KnownNames::StdAllocAllocZeroed
        | KnownNames::StdAllocExchangeMalloc => SpecialHandling::Alloc,
        KnownNames::StdAllocAllocatorAllocate
        | KnownNames::StdAllocAllocatorAllocateZeroed => SpecialHandling::AllocatorAllocate,
        KnownNames::RustRealloc
        | KnownNames::StdAllocRealloc => SpecialHandling::Realloc,
        KnownNames::StdAllocAllocatorGrow
        | KnownNames::StdAllocAllocatorGrowZeroed
        | KnownNames::StdAllocAllocatorShrink => SpecialHandling::AllocatorResize,
        KnownNames::RustDealloc
        | KnownNames::RustAllocErrorHandler
        | KnownNames::StdAllocDealloc
        | KnownNames::StdAllocBoxFree
        | KnownNames::StdAllocHandleAllocError
        | KnownNames::StdAllocAllocatorDeallocate => SpecialHandling::Free,
        _ => SpecialHandling::NotSpecial,
    }
}

/// The well known functions that are specially handled.
pub open spec fn specially_handled(name: KnownNames) -> bool {
    match name {
        KnownNames::StdIntrinsicsTransmute
        | KnownNames::StdIntrinsicsOffset
        | KnownNames::StdIntrinsicsArithOffset
        | KnownNames::StdPtrConstPtrCast
        | KnownNames::StdPtrConstPtrAdd
        | KnownNames::StdPtrConstPtrSub
        | KnownNames::StdPtrConstPtrOffset
        | KnownNames::StdPtrConstPtrByteAdd
        | KnownNames::StdPtrConstPtrByteSub
        | KnownNames::StdPtrConstPtrByteOffset
        | KnownNames::StdPtrConstPtrWrappingAdd
        | KnownNames::StdPtrConstPtrWrappingSub
        | KnownNames::StdPtrConstPtrWrappingOffset
        | KnownNames::StdPtrConstPtrWrappingByteAdd
        | KnownNames::StdPtrConstPtrWrappingByteSub
        | KnownNames::StdPtrConstPtrWrappingByteOffset
        | KnownNames::StdPtrMutPtrCast
        | KnownNames::StdPtrMutPtrAdd
        | KnownNames::StdPtrMutPtrSub
        | KnownNames::StdPtrMutPtrOffset
        | KnownNames::StdPtrMutPtrByteAdd
        | KnownNames::StdPtrMutPtrByteSub
        | KnownNames::StdPtrMutPtrByteOffset
        | KnownNames::StdPtrMutPtrWrappingAdd
        | KnownNames::StdPtrMutPtrWrappingSub
        | KnownNames::StdPtrMutPtrWrappingOffset
        | KnownNames::StdPtrMutPtrWrappingByteAdd
        | KnownNames::StdPtrMutPtrWrappingByteSub
        | KnownNames::StdPtrMutPtrWrappingByteOffset
        | KnownNames::AllocRawVecAllocateIn
        | KnownNames::StdThreadBuilderSpawnUnchecked
        | KnownNames::StdPtrNonNullAsPtr
        | KnownNames::StdPtrUniqueNewUnchecked
        | KnownNames::StdResultMapErr
        | KnownNames::RustAlloc
        | KnownNames::RustAllocZeroed
        | KnownNames::StdAllocAlloc
        | KnownNames::StdAllocAllocZeroed
        | KnownNames::StdAllocExchangeMalloc
        | KnownNames::StdAllocAllocatorAllocate
        | KnownNames::StdAllocAllocatorAllocateZeroed
        | KnownNames::RustRealloc
        | KnownNames::StdAllocRealloc
        | KnownNames::StdAllocAllocatorGrow
        | KnownNames::StdAllocAllocatorGrowZeroed
        | KnownNames::StdAllocAllocatorShrink
        | KnownNames::RustDealloc
        | KnownNames::RustAllocErrorHandler
        | KnownNames::StdAllocDealloc
        | KnownNames::StdAllocBoxFree
        | KnownNames::StdAllocHandleAllocError
        | KnownNames::StdAllocAllocatorDeallocate => true,
        _ => false,
    }
}

/// How a call to the function with the given well known name is handled.
pub fn special_handling(name: KnownNames) -> (r: SpecialHandling)
    ensures
        r == handling_of(name),
{
    match name {
        KnownNames::StdIntrinsicsTransmute => SpecialHandling::Transmute,
        KnownNames::AllocRawVecAllocateIn => SpecialHandling::RawVecAllocateIn,
        KnownNames::StdThreadBuilderSpawnUnchecked => SpecialHandling::ThreadBuilderSpawnUnchecked,
        KnownNames::StdPtrNonNullAsPtr => SpecialHandling::NonNullAsPtr,
        KnownNames::StdPtrUniqueNewUnchecked => SpecialHandling::UniqueNewUnchecked,
        KnownNames::StdResultMapErr => SpecialHandling::ResultMapErr,
        KnownNames::StdConvertInto => SpecialHandling::ConvertInto,
        KnownNames::StdIntrinsicsOffset
        | KnownNames::StdIntrinsicsArithOffset
        | KnownNames::StdPtrConstPtrAdd
        | KnownNames::StdPtrConstPtrSub
        | KnownNames::StdPtrConstPtrOffset
        | KnownNames::StdPtrConstPtrByteAdd
        | KnownNames::StdPtrConstPtrByteSub
        | KnownNames::StdPtrConstPtrByteOffset
        | KnownNames::StdPtrConstPtrWrappingAdd
        | KnownNames::StdPtrConstPtrWrappingSub
        | KnownNames::StdPtrConstPtrWrappingOffset
        | KnownNames::StdPtrConstPtrWrappingByteAdd
        | KnownNames::StdPtrConstPtrWrappingByteSub
        | KnownNames::StdPtrConstPtrWrappingByteOffset
        | KnownNames::StdPtrMutPtrAdd
        | KnownNames::StdPtrMutPtrSub
        | KnownNames::StdPtrMutPtrOffset
        | KnownNames::StdPtrMutPtrByteAdd
        | KnownNames::StdPtrMutPtrByteSub
        | KnownNames::StdPtrMutPtrByteOffset
        | KnownNames::StdPtrMutPtrWrappingAdd
        | KnownNames::StdPtrMutPtrWrappingSub
        | KnownNames::StdPtrMutPtrWrappingOffset
        | KnownNames::StdPtrMutPtrWrappingByteAdd
        | KnownNames::StdPtrMutPtrWrappingByteSub
        | KnownNames::StdPtrMutPtrWrappingByteOffset => SpecialHandling::Offset,
        KnownNames::StdPtrConstPtrCast
        | KnownNames::StdPtrMutPtrCast => SpecialHandling::PtrCast,
        KnownNames::RustAlloc
        | KnownNames::RustAllocZeroed
        | KnownNames::StdAllocAlloc
        | KnownNames::StdAllocAllocZeroed
        | KnownNames::StdAllocExchangeMalloc => SpecialHandling::Alloc,
        KnownNames::StdAllocAllocatorAllocate
        | KnownNames::StdAllocAllocatorAllocateZeroed => SpecialHandling::AllocatorAllocate,
        KnownNames::RustRealloc
        | KnownNames::StdAllocRealloc => SpecialHandling::Realloc,
        KnownNames::StdAllocAllocatorGrow
        | KnownNames::StdAllocAllocatorGrowZeroed
        | KnownNames::StdAllocAllocatorShrink => SpecialHandling::AllocatorResize,
        KnownNames::RustDealloc
        | KnownNames::RustAllocErrorHandler
        | KnownNames::StdAllocDealloc
        | KnownNames::StdAllocBoxFree
        | KnownNames::StdAllocHandleAllocError
        | KnownNames::StdAllocAllocatorDeallocate => SpecialHandling::Free,
        _ => SpecialHandling::NotSpecial,
    }
}

/// Whether the function with the given well known name is specially handled.
pub fn is_specially_handled_name(name: KnownNames) -> (r: bool)
    ensures
        r == specially_handled(name),
{
    match name {
        KnownNames::StdIntrinsicsTransmute
        | KnownNames::StdIntrinsicsOffset
        | KnownNames::StdIntrinsicsArithOffset
        | KnownNames::StdPtrConstPtrCast
        | KnownNames::StdPtrConstPtrAdd
        | KnownNames::StdPtrConstPtrSub
        | KnownNames::StdPtrConstPtrOffset
        | KnownNames::StdPtrConstPtrByteAdd
        | KnownNames::StdPtrConstPtrByteSub
        | KnownNames::StdPtrConstPtrByteOffset
        | KnownNames::StdPtrConstPtrWrappingAdd
        | KnownNames::StdPtrConstPtrWrappingSub
        | KnownNames::StdPtrConstPtrWrappingOffset
        | KnownNames::StdPtrConstPtrWrappingByteAdd
        | KnownNames::StdPtrConstPtrWrappingByteSub
        | KnownNames::StdPtrConstPtrWrappingByteOffset
        | KnownNames::StdPtrMutPtrCast
        | KnownNames::StdPtrMutPtrAdd
        | KnownNames::StdPtrMutPtrSub
        | KnownNames::StdPtrMutPtrOffset
        | KnownNames::StdPtrMutPtrByteAdd
        | KnownNames::StdPtrMutPtrByteSub
        | KnownNames::StdPtrMutPtrByteOffset
        | KnownNames::StdPtrMutPtrWrappingAdd
        | KnownNames::StdPtrMutPtrWrappingSub
        | KnownNames::StdPtrMutPtrWrappingOffset
        | KnownNames::StdPtrMutPtrWrappingByteAdd
        | KnownNames::StdPtrMutPtrWrappingByteSub
        | KnownNames::StdPtrMutPtrWrappingByteOffset
        | KnownNames::AllocRawVecAllocateIn
        | KnownNames::StdThreadBuilderSpawnUnchecked
        | KnownNames::StdPtrNonNullAsPtr
        | KnownNames::StdPtrUniqueNewUnchecked
        | KnownNames::StdResultMapErr
        | KnownNames::RustAlloc
        | KnownNames::RustAllocZeroed
        | KnownNames::StdAllocAlloc
        | KnownNames::StdAllocAllocZeroed
        | KnownNames::StdAllocExchangeMalloc
        | KnownNames::StdAllocAllocatorAllocate
        | KnownNames::StdAllocAllocatorAllocateZeroed
        | KnownNames::RustRealloc
        | KnownNames::StdAllocRealloc
        | KnownNames::StdAllocAllocatorGrow
        | KnownNames::StdAllocAllocatorGrowZeroed
        | KnownNames::StdAllocAllocatorShrink
        | KnownNames::RustDealloc
        | KnownNames::RustAllocErrorHandler
        | KnownNames::StdAllocDealloc
        | KnownNames::StdAllocBoxFree
        | KnownNames::StdAllocHandleAllocError
        | KnownNames::StdAllocAllocatorDeallocate => true,
        _ => false,
    }
}

/// Returns true if the function with `def_id` is specially handled: its well known
/// name, which the cache gives (worked out from what `describe` tells of the
/// definition where the cache has not met it yet), is one of those handled.
pub fn is_specially_handled_function<F: Fn(DefId) -> (String, Vec<PathElem>)>(cache: &mut KnownNamesCache, def_id: DefId, describe: F) -> (r: bool)
    requires
        old(cache).wf(),
        describe.requires((def_id,)),
    ensures
        final(cache).wf(),
        final(cache).cached(def_id) matches Some(name) && r == specially_handled(name),
        old(cache).cached(def_id) is Some ==> final(cache).entries() == old(cache).entries(),
{
    let name = cache.get(def_id, describe);
    is_specially_handled_name(name)
}

/// The functions in the set of those specially handled are those whose calls get
/// a special handling, but for `Into::into`, which is handled in one case only and
/// is not in the set.
pub proof fn law_handled_set_matches_handling(name: KnownNames)
    requires
        name != KnownNames::StdConvertInto,
    ensures
        specially_handled(name) <==> handling_of(name) != SpecialHandling::NotSpecial,
{
}

/// In a standard crate, a call to a function of `alloc::alloc` is handled by what
/// the function does: `realloc` as a reallocation, whose result is the object
/// given; `alloc`, `alloc_zeroed` and `exchange_malloc` as an allocation of a fresh
/// heap object, never as a deallocation; `dealloc`, `box_free` and
/// `handle_alloc_error` as a deallocation or an allocation error, with nothing to do.
pub proof fn law_alloc_fns_handling(crate_name: Seq<char>, p: Seq<PathElem>, n: Seq<char>)
    requires
        crate_name == "alloc"@ || crate_name == "core"@ || crate_name == "std"@,
        name_at(p, 0) == Some("alloc"@),
        !is_foreign_at(p, 1),
        name_at(p, 1) == Some(n),
    ensures
        n == "realloc"@ ==> handling_of(known_name_of(crate_name, p)) == SpecialHandling::Realloc,
        n == "alloc"@ || n == "alloc_zeroed"@ || n == "exchange_malloc"@
            ==> handling_of(known_name_of(crate_name, p)) == SpecialHandling::Alloc,
        n == "dealloc"@ || n == "box_free"@ || n == "handle_alloc_error"@
            ==> handling_of(known_name_of(crate_name, p)) == SpecialHandling::Free,
{
    law_alloc_fns_recognized(crate_name, p, n);
}

/// In a standard crate, a call to one of the allocator functions that the
/// allocator declares in the foreign module of `alloc` is handled as the function of
/// `alloc::alloc` of the same name, less its `__rust_` prefix: the allocation and
/// zeroed allocation, the deallocation and the reallocation functions of the two
/// get the same handling.
pub proof fn law_foreign_alloc_fns_handled_alike(crate_name: Seq<char>, p: Seq<PathElem>, q: Seq<PathElem>, n: Seq<char>)
    requires
        crate_name == "alloc"@ || crate_name == "core"@ || crate_name == "std"@,
        n == "alloc"@ || n == "alloc_zeroed"@ || n == "dealloc"@ || n == "realloc"@,
        name_at(p, 0) == Some("alloc"@),
        !is_foreign_at(p, 1),
        name_at(p, 1) == Some(n),
        name_at(q, 0) == Some("alloc"@),
        is_foreign_at(q, 1),
        name_at(q, 2) == Some("__rust_"@ + n),
    ensures
        handling_of(known_name_of(crate_name, q)) == handling_of(known_name_of(crate_name, p)),
{
    law_alloc_fns_recognized(crate_name, p, n);
    law_alloc_foreign_fns_recognized(crate_name, q, "__rust_"@ + n);
    reveal_strlit("__rust_");
    reveal_strlit("alloc");
    reveal_strlit("alloc_zeroed");
    reveal_strlit("dealloc");
    reveal_strlit("realloc");
    reveal_strlit("__rust_alloc");
    reveal_strlit("__rust_alloc_zeroed");
    reveal_strlit("__rust_dealloc");
    reveal_strlit("__rust_realloc");
    if n == "alloc"@ {
        assert("__rust_"@ + n =~= "__rust_alloc"@);
    } else if n == "alloc_zeroed"@ {
        assert("__rust_"@ + n =~= "__rust_alloc_zeroed"@);
    } else if n == "dealloc"@ {
        assert("__rust_"@ + n =~= "__rust_dealloc"@);
    } else {
        assert("__rust_"@ + n =~= "__rust_realloc"@);
    }
}

/// The names of the pointer arithmetic methods of `*const T` and `*mut T`.
pub open spec fn pointer_arithmetic_name(n: Seq<char>) -> bool {
    n == "add"@ || n == "sub"@ || n == "offset"@
        || n == "byte_add"@ || n == "byte_sub"@ || n == "byte_offset"@
        || n == "wrapping_add"@ || n == "wrapping_sub"@ || n == "wrapping_offset"@
        || n == "wrapping_byte_add"@ || n == "wrapping_byte_sub"@ || n == "wrapping_byte_offset"@
}

/// In a standard crate, a call to a method of `*mut T` is handled as a call to the
/// method of `*const T` of the same name; `cast` is handled as a pointer cast, and
/// the pointer arithmetic methods as an offset into the object pointed to.
pub proof fn law_pointer_methods_handling(crate_name: Seq<char>, p: Seq<PathElem>, q: Seq<PathElem>, n: Seq<char>)
    requires
        crate_name == "alloc"@ || crate_name == "core"@ || crate_name == "std"@,
        name_at(p, 0) == Some("ptr"@),
        name_at(p, 1) == Some("mut_ptr"@),
        disambiguator_at(p, 2) == Some(0u32),
        name_at(p, 3) == Some(n),
        name_at(q, 0) == Some("ptr"@),
        name_at(q, 1) == Some("const_ptr"@),
        disambiguator_at(q, 2) == Some(0u32),
        name_at(q, 3) == Some(n),
    ensures
        handling_of(known_name_of(crate_name, p)) == handling_of(known_name_of(crate_name, q)),
        n == "cast"@ ==> handling_of(known_name_of(crate_name, p)) == SpecialHandling::PtrCast,
        pointer_arithmetic_name(n) ==> handling_of(known_name_of(crate_name, p)) == SpecialHandling::Offset,
{
    lemma_ptr_methods_reached(crate_name, p);
    lemma_ptr_methods_reached(crate_name, q);
    assert(known_name_of(crate_name, p) == mut_ptr_table(n));
    assert(known_name_of(crate_name, q) == const_ptr_table(n));
    reveal_strlit("write_bytes");
    reveal_strlit("cast");
    reveal_strlit("add");
    reveal_strlit("sub");
    reveal_strlit("offset");
    reveal_strlit("byte_add");
    reveal_strlit("byte_sub");
    reveal_strlit("byte_offset");
    reveal_strlit("wrapping_add");
    reveal_strlit("wrapping_sub");
    reveal_strlit("wrapping_offset");
    reveal_strlit("wrapping_byte_add");
    reveal_strlit("wrapping_byte_sub");
    reveal_strlit("wrapping_byte_offset");
    assert("write_bytes"@.len() == 11 && "cast"@.len() == 4 && "add"@.len() == 3 && "sub"@.len() == 3);
    assert("offset"@.len() == 6 && "byte_add"@.len() == 8 && "byte_sub"@.len() == 8);
    assert("byte_offset"@.len() == 11 && "byte_offset"@[0] != "write_bytes"@[0]);
    assert("wrapping_add"@.len() == 12 && "wrapping_sub"@.len() == 12 && "wrapping_offset"@.len() == 15);
    assert("wrapping_byte_add"@.len() == 17 && "wrapping_byte_sub"@.len() == 17 && "wrapping_byte_offset"@.len() == 20);
}

/// In a standard crate, a call to the `transmute` intrinsic is handled as a
/// transmutation, whose result is the argument seen at another type, and a call to
/// the `offset` or `arith_offset` intrinsic as an offset into the object pointed
/// to.
pub proof fn law_intrinsics_handling(crate_name: Seq<char>, p: Seq<PathElem>, n: Seq<char>)
    requires
        crate_name == "alloc"@ || crate_name == "core"@ || crate_name == "std"@,
        name_at(p, 0) == Some("intrinsics"@),
        is_foreign_at(p, 1),
        disambiguator_at(p, 1) == Some(0u32),
        name_at(p, 2) == Some(n),
    ensures
        n == "transmute"@ ==> handling_of(known_name_of(crate_name, p)) == SpecialHandling::Transmute,
        n == "offset"@ || n == "arith_offset"@ ==> handling_of(known_name_of(crate_name, p)) == SpecialHandling::Offset,
{
    lemma_foreign_intrinsics_reached(crate_name, p, n);
}

/// In a standard crate, each function that wraps or unwraps a pointer, or hands a
/// closure or a fresh buffer on, is handled in its own way: `NonNull::as_ptr` gives
/// the pointer it wraps, `Unique::new_unchecked` wraps its argument,
/// `Result::map_err` keeps the `Ok` value, `Into::into` is handled as a
/// conversion, `Builder::spawn_unchecked` calls its closure on the new thread, and
/// `RawVec::allocate_in` allocates a fresh heap object for the buffer.
pub proof fn law_wrapper_calls_handling(crate_name: Seq<char>, p: Seq<PathElem>)
    requires
        crate_name == "alloc"@ || crate_name == "core"@ || crate_name == "std"@,
    ensures
        name_at(p, 0) == Some("ptr"@) && name_at(p, 1) == Some("non_null"@) && name_at(p, 3) == Some("as_ptr"@)
            ==> handling_of(known_name_of(crate_name, p)) == SpecialHandling::NonNullAsPtr,
        name_at(p, 0) == Some("ptr"@) && name_at(p, 1) == Some("unique"@) && name_at(p, 3) == Some("new_unchecked"@)
            ==> handling_of(known_name_of(crate_name, p)) == SpecialHandling::UniqueNewUnchecked,
        name_at(p, 0) == Some("result"@) && name_at(p, 2) == Some("map_err"@)
            ==> handling_of(known_name_of(crate_name, p)) == SpecialHandling::ResultMapErr,
        name_at(p, 0) == Some("convert"@) && name_at(p, 2) == Some("into"@)
            ==> handling_of(known_name_of(crate_name, p)) == SpecialHandling::ConvertInto,
        name_at(p, 0) == Some("thread"@) && disambiguator_at(p, 1) == Some(0u32) && name_at(p, 2) == Some("spawn_unchecked"@)
            ==> handling_of(known_name_of(crate_name, p)) == SpecialHandling::ThreadBuilderSpawnUnchecked,
        name_at(p, 0) == Some("raw_vec"@) && name_at(p, 2) == Some("allocate_in"@)
            ==> handling_of(known_name_of(crate_name, p)) == SpecialHandling::RawVecAllocateIn,
{
    lemma_wrapper_fns_recognized(crate_name, p);
}

/// In a standard crate, a call to a method of the `Allocator` trait is handled by
/// what it does: `allocate` and `allocate_zeroed` give a fresh heap object,
/// `grow`, `grow_zeroed` and `shrink` give the pointer given back, cast, and
/// `deallocate` has nothing to do.
pub proof fn law_allocator_methods_handling(crate_name: Seq<char>, p: Seq<PathElem>, n: Seq<char>)
    requires
        crate_name == "alloc"@ || crate_name == "core"@ || crate_name == "std"@,
        name_at(p, 0) == Some("alloc"@),
        !is_foreign_at(p, 1),
        name_at(p, 1) == Some("Allocator"@),
        name_at(p, 2) == Some(n),
    ensures
        n == "allocate"@ || n == "allocate_zeroed"@
            ==> handling_of(known_name_of(crate_name, p)) == SpecialHandling::AllocatorAllocate,
        n == "grow"@ || n == "grow_zeroed"@ || n == "shrink"@
            ==> handling_of(known_name_of(crate_name, p)) == SpecialHandling::AllocatorResize,
        n == "deallocate"@ ==> handling_of(known_name_of(crate_name, p)) == SpecialHandling::Free,
{
    law_allocator_methods_recognized(crate_name, p, n);
}

/// In a standard crate, a call to one of the allocator functions of the foreign
/// module of `alloc` is handled by what the function does: `__rust_realloc` as a
/// reallocation, whose result is the object given; `__rust_alloc` and
/// `__rust_alloc_zeroed` as an allocation of a fresh heap object;
/// `__rust_dealloc` and `__rust_alloc_error_handler` with nothing to do.
pub proof fn law_foreign_alloc_fns_handling(crate_name: Seq<char>, p: Seq<PathElem>, n: Seq<char>)
    requires
        crate_name == "alloc"@ || crate_name == "core"@ || crate_name == "std"@,
        name_at(p, 0) == Some("alloc"@),
        is_foreign_at(p, 1),
        name_at(p, 2) == Some(n),
    ensures
        n == "__rust_realloc"@ ==> handling_of(known_name_of(crate_name, p)) == SpecialHandling::Realloc,
        n == "__rust_alloc"@ || n == "__rust_alloc_zeroed"@
            ==> handling_of(known_name_of(crate_name, p)) == SpecialHandling::Alloc,
        n == "__rust_dealloc"@ || n == "__rust_alloc_error_handler"@
            ==> handling_of(known_name_of(crate_name, p)) == SpecialHandling::Free,
{
    law_alloc_foreign_fns_recognized(crate_name, p, n);
}

} // verus!
