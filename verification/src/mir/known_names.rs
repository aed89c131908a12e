//! Well known definitions (language provided items) that are treated in special
//! ways, and how they are recognized from their definition paths.

use vstd::prelude::*;
use vstd::string::*;
use crate::mir::function::DefId;

verus! {

/// Well known definitions (language provided items) that are treated in special ways.
#[derive(Clone, Copy, Debug, Eq, PartialOrd, PartialEq, Hash, Ord, Structural)]
pub enum KnownNames {
    /// This is not a known name
    NotKnown,
    AllocRawVecMinNonZeroCap,

    // These are the magic symbols to call the global allocator.  rustc generates
    // them to call `__rg_alloc` etc. if there is a `#[global_allocator]` attribute
    // (the code expanding that attribute macro generates those functions), or to call
    // the default implementations in libstd otherwise.
    RustAlloc,
    RustAllocZeroed,
    RustDealloc,
    RustRealloc,
    RustAllocErrorHandler,

    // Allocate|Deallocate memory with the global allocator. Wrappers of `__rust_alloc`, `__rust_alloc_zeroed`...
    StdAllocAlloc,
    StdAllocAllocZeroed,
    StdAllocDealloc,
    StdAllocRealloc,
    StdAllocExchangeMalloc,
    StdAllocBoxFree,
    StdAllocHandleAllocError,

    // Implementations of functions in trait Allocator, the default implementation type of Allocator in Box and Vec... is alloc::Global,
    // which is a wrapper of alloc::alloc|alloc::alloc_zeroed
    StdAllocAllocatorAllocate,
    StdAllocAllocatorAllocateZeroed,
    StdAllocAllocatorDeallocate,
    StdAllocAllocatorGrow,
    StdAllocAllocatorGrowZeroed,
    StdAllocAllocatorShrink,

    AllocRawVecCurrnetMemory,
    AllocRawVecGrowAmortized,
    AllocRawVecGrowExact,
    AllocRawVecShrink,
    AllocRawVecFinishGrow,
    AllocRawVecAllocateIn,
    StdResultMapErr,
    
    StdCloneClone,
    StdFutureFromGenerator,
    StdIntrinsicsArithOffset,
    StdIntrinsicsBitreverse,
    StdIntrinsicsBswap,
    StdIntrinsicsCeilf32,
    StdIntrinsicsCeilf64,
    StdIntrinsicsCopy,
    StdIntrinsicsCopyNonOverlapping,
    StdIntrinsicsCopysignf32,
    StdIntrinsicsCopysignf64,
    StdIntrinsicsCosf32,
    StdIntrinsicsCosf64,
    StdIntrinsicsCtlz,
    StdIntrinsicsCtlzNonzero,
    StdIntrinsicsCtpop,
    StdIntrinsicsCttz,
    StdIntrinsicsCttzNonzero,
    StdIntrinsicsDiscriminantValue,
    StdIntrinsicsExp2f32,
    StdIntrinsicsExp2f64,
    StdIntrinsicsExpf32,
    StdIntrinsicsExpf64,
    StdIntrinsicsFabsf32,
    StdIntrinsicsFabsf64,
    StdIntrinsicsFaddFast,
    StdIntrinsicsFdivFast,
    StdIntrinsicsFloorf32,
    StdIntrinsicsFloorf64,
    StdIntrinsicsFmulFast,
    StdIntrinsicsFremFast,
    StdIntrinsicsFsubFast,
    StdIntrinsicsLog10f32,
    StdIntrinsicsLog10f64,
    StdIntrinsicsLog2f32,
    StdIntrinsicsLog2f64,
    StdIntrinsicsLogf32,
    StdIntrinsicsLogf64,
    StdIntrinsicsMaxnumf32,
    StdIntrinsicsMaxnumf64,
    StdIntrinsicsMinAlignOfVal,
    StdIntrinsicsMinnumf32,
    StdIntrinsicsMinnumf64,
    StdIntrinsicsMulWithOverflow,
    StdIntrinsicsNearbyintf32,
    StdIntrinsicsNearbyintf64,
    StdIntrinsicsNeedsDrop,
    StdIntrinsicsOffset,
    StdIntrinsicsPowf32,
    StdIntrinsicsPowf64,
    StdIntrinsicsPowif32,
    StdIntrinsicsPowif64,
    StdIntrinsicsRawEq,
    StdIntrinsicsRintf32,
    StdIntrinsicsRintf64,
    StdIntrinsicsRoundf32,
    StdIntrinsicsRoundf64,
    StdIntrinsicsSinf32,
    StdIntrinsicsSinf64,
    StdIntrinsicsSizeOf,
    StdIntrinsicsSizeOfVal,
    StdIntrinsicsSqrtf32,
    StdIntrinsicsSqrtf64,
    StdIntrinsicsTransmute,
    StdIntrinsicsTruncf32,
    StdIntrinsicsTruncf64,
    StdIntrinsicsWriteBytes,
    StdMarkerPhantomData,
    StdMemReplace,

    // Indirect function calls via Fn::call|FnOnce::call_once|FnMut::call_mut
    StdOpsFunctionImpls,
    StdOpsFunctionFnCall,
    StdOpsFunctionFnMutCallMut,
    StdOpsFunctionFnOnceCallOnce,

    StdPanickingAssertFailed,
    StdPanickingBeginPanic,
    StdPanickingBeginPanicFmt,

    StdPtrSwapNonOverlapping,
    StdPtrNonNullAsPtr,
    StdPtrNonNullAsRef,
    StdPtrNonNullAsMut,
    StdPtrNonNullCast,
    StdPtrUniqueNewUnchecked,
    StdPtrConstPtrCast,
    StdPtrConstPtrAdd,
    StdPtrConstPtrSub,
    StdPtrConstPtrOffset,
    StdPtrConstPtrByteAdd,
    StdPtrConstPtrByteSub,
    StdPtrConstPtrByteOffset,
    StdPtrConstPtrWrappingAdd,
    StdPtrConstPtrWrappingSub,
    StdPtrConstPtrWrappingOffset,
    StdPtrConstPtrWrappingByteAdd,
    StdPtrConstPtrWrappingByteSub,
    StdPtrConstPtrWrappingByteOffset,
    StdPtrMutPtrCast,
    StdPtrMutPtrAdd,
    StdPtrMutPtrSub,
    StdPtrMutPtrOffset,
    StdPtrMutPtrByteAdd,
    StdPtrMutPtrByteSub,
    StdPtrMutPtrByteOffset,
    StdPtrMutPtrWrappingAdd,
    StdPtrMutPtrWrappingSub,
    StdPtrMutPtrWrappingOffset,
    StdPtrMutPtrWrappingByteAdd,
    StdPtrMutPtrWrappingByteSub,
    StdPtrMutPtrWrappingByteOffset,

    StdSliceCmpMemcmp,
    StdSliceIndexIndex,
    StdSliceIndexIndexMut,

    StdThreadBuilderSpawnUnchecked,
    StdThreadBuilderSpawnUnchecked_,

    StdConvertInto,
}

/// The data of one element of a definition path: a name in the type or value
/// namespace, a foreign module, or some other element without a name.
pub enum PathData {
    TypeNs(String),
    ValueNs(String),
    ForeignMod,
    Other,
}

/// One element of a definition path, with the number that tells it apart from
/// elements of the same name.
pub struct PathElem {
    pub data: PathData,
    pub disambiguator: u32,
}

/// The name of a path element, if it has one.
pub open spec fn elem_name(e: PathElem) -> Option<Seq<char>> {
    match e.data {
        PathData::TypeNs(s) => Some(s@),
        PathData::ValueNs(s) => Some(s@),
        _ => None,
    }
}

/// The name of the `i`-th element of the path, if there is one and it has a name.
pub open spec fn name_at(p: Seq<PathElem>, i: int) -> Option<Seq<char>> {
    if 0 <= i < p.len() {
        elem_name(p[i])
    } else {
        None
    }
}

/// The disambiguator of the `i`-th element of the path, if there is one.
pub open spec fn disambiguator_at(p: Seq<PathElem>, i: int) -> Option<u32> {
    if 0 <= i < p.len() {
        Some(p[i].disambiguator)
    } else {
        None
    }
}

/// The `i`-th element of the path is a foreign module.
pub open spec fn is_foreign_at(p: Seq<PathElem>, i: int) -> bool {
    0 <= i < p.len() && p[i].data is ForeignMod
}

/// The known name that `table` gives to the `i`-th name of the path; none if that
/// element has no name.
pub open spec fn table_at(p: Seq<PathElem>, i: int, table: spec_fn(Seq<char>) -> KnownNames) -> KnownNames {
    match name_at(p, i) {
        Some(n) => table(n),
        None => KnownNames::NotKnown,
    }
}

/// The allocator functions declared in the foreign module of `alloc`.
pub open spec fn alloc_foreign_table(n: Seq<char>) -> KnownNames {
    if n == "__rust_alloc"@ {
        KnownNames::RustAlloc
    } else if n == "__rust_alloc_zeroed"@ {
        KnownNames::RustAllocZeroed
    } else if n == "__rust_dealloc"@ {
        KnownNames::RustDealloc
    } else if n == "__rust_realloc"@ {
        KnownNames::RustRealloc
    } else if n == "__rust_alloc_error_handler"@ {
        KnownNames::RustAllocErrorHandler
    } else {
        KnownNames::NotKnown
    }
}

/// The methods of the `Allocator` trait.
pub open spec fn alloc_allocator_table(n: Seq<char>) -> KnownNames {
    if n == "allocate"@ {
        KnownNames::StdAllocAllocatorAllocate
    } else if n == "allocate_zeroed"@ {
        KnownNames::StdAllocAllocatorAllocateZeroed
    } else if n == "deallocate"@ {
        KnownNames::StdAllocAllocatorDeallocate
    } else if n == "grow"@ {
        KnownNames::StdAllocAllocatorGrow
    } else if n == "grow_zeroed"@ {
        KnownNames::StdAllocAllocatorGrowZeroed
    } else if n == "shrink"@ {
        KnownNames::StdAllocAllocatorShrink
    } else {
        KnownNames::NotKnown
    }
}

/// The functions of `alloc::alloc`.
pub open spec fn alloc_fns_table(n: Seq<char>) -> KnownNames {
    if n == "alloc"@ {
        KnownNames::StdAllocAlloc
    } else if n == "alloc_zeroed"@ {
        KnownNames::StdAllocAllocZeroed
    } else if n == "dealloc"@ {
        KnownNames::StdAllocDealloc
    } else if n == "realloc"@ {
        KnownNames::StdAllocRealloc
    } else if n == "exchange_malloc"@ {
        KnownNames::StdAllocExchangeMalloc
    } else if n == "handle_alloc_error"@ {
        KnownNames::StdAllocHandleAllocError
    } else if n == "box_free"@ {
        KnownNames::StdAllocBoxFree
    } else {
        KnownNames::NotKnown
    }
}

/// The methods of the `Clone` trait.
pub open spec fn clone_trait_table(n: Seq<char>) -> KnownNames {
    if n == "clone"@ {
        KnownNames::StdCloneClone
    } else {
        KnownNames::NotKnown
    }
}

/// The functions of `future`.
pub open spec fn future_table(n: Seq<char>) -> KnownNames {
    if n == "from_generator"@ {
        KnownNames::StdFutureFromGenerator
    } else {
        KnownNames::NotKnown
    }
}

/// The intrinsics declared in the foreign module of `intrinsics`.
pub open spec fn intrinsics_foreign_table(n: Seq<char>) -> KnownNames {
    if n == "arith_offset"@ {
        KnownNames::StdIntrinsicsArithOffset
    } else if n == "bitreverse"@ {
        KnownNames::StdIntrinsicsBitreverse
    } else if n == "bswap"@ {
        KnownNames::StdIntrinsicsBswap
    } else if n == "ceilf32"@ {
        KnownNames::StdIntrinsicsCeilf32
    } else if n == "ceilf64"@ {
        KnownNames::StdIntrinsicsCeilf64
    } else if n == "compare_bytes"@ {
        KnownNames::StdSliceCmpMemcmp
    } else if n == "copysignf32"@ {
        KnownNames::StdIntrinsicsCopysignf32
    } else if n == "copysignf64"@ {
        KnownNames::StdIntrinsicsCopysignf64
    } else if n == "cosf32"@ {
        KnownNames::StdIntrinsicsCosf32
    } else if n == "cosf64"@ {
        KnownNames::StdIntrinsicsCosf64
    } else if n == "ctlz"@ {
        KnownNames::StdIntrinsicsCtlz
    } else if n == "ctlz_nonzero"@ {
        KnownNames::StdIntrinsicsCtlzNonzero
    } else if n == "ctpop"@ {
        KnownNames::StdIntrinsicsCtpop
    } else if n == "cttz"@ {
        KnownNames::StdIntrinsicsCttz
    } else if n == "cttz_nonzero"@ {
        KnownNames::StdIntrinsicsCttzNonzero
    } else if n == "discriminant_value"@ {
        KnownNames::StdIntrinsicsDiscriminantValue
    } else if n == "exp2f32"@ {
        KnownNames::StdIntrinsicsExp2f32
    } else if n == "exp2f64"@ {
        KnownNames::StdIntrinsicsExp2f64
    } else if n == "expf32"@ {
        KnownNames::StdIntrinsicsExpf32
    } else if n == "expf64"@ {
        KnownNames::StdIntrinsicsExpf64
    } else if n == "fabsf32"@ {
        KnownNames::StdIntrinsicsFabsf32
    } else if n == "fabsf64"@ {
        KnownNames::StdIntrinsicsFabsf64
    } else if n == "fadd_fast"@ {
        KnownNames::StdIntrinsicsFaddFast
    } else if n == "fdiv_fast"@ {
        KnownNames::StdIntrinsicsFdivFast
    } else if n == "floorf32"@ {
        KnownNames::StdIntrinsicsFloorf32
    } else if n == "floorf64"@ {
        KnownNames::StdIntrinsicsFloorf64
    } else if n == "fmul_fast"@ {
        KnownNames::StdIntrinsicsFmulFast
    } else if n == "frem_fast"@ {
        KnownNames::StdIntrinsicsFremFast
    } else if n == "fsub_fast"@ {
        KnownNames::StdIntrinsicsFsubFast
    } else if n == "log10f32"@ {
        KnownNames::StdIntrinsicsLog10f32
    } else if n == "log10f64"@ {
        KnownNames::StdIntrinsicsLog10f64
    } else if n == "log2f32"@ {
        KnownNames::StdIntrinsicsLog2f32
    } else if n == "log2f64"@ {
        KnownNames::StdIntrinsicsLog2f64
    } else if n == "logf32"@ {
        KnownNames::StdIntrinsicsLogf32
    } else if n == "logf64"@ {
        KnownNames::StdIntrinsicsLogf64
    } else if n == "maxnumf32"@ {
        KnownNames::StdIntrinsicsMaxnumf32
    } else if n == "maxnumf64"@ {
        KnownNames::StdIntrinsicsMaxnumf64
    } else if n == "min_align_of_val"@ {
        KnownNames::StdIntrinsicsMinAlignOfVal
    } else if n == "minnumf32"@ {
        KnownNames::StdIntrinsicsMinnumf32
    } else if n == "minnumf64"@ {
        KnownNames::StdIntrinsicsMinnumf64
    } else if n == "mul_with_overflow"@ {
        KnownNames::StdIntrinsicsMulWithOverflow
    } else if n == "nearbyintf32"@ {
        KnownNames::StdIntrinsicsNearbyintf32
    } else if n == "nearbyintf64"@ {
        KnownNames::StdIntrinsicsNearbyintf64
    } else if n == "needs_drop"@ {
        KnownNames::StdIntrinsicsNeedsDrop
    } else if n == "offset"@ {
        KnownNames::StdIntrinsicsOffset
    } else if n == "powf32"@ {
        KnownNames::StdIntrinsicsPowf32
    } else if n == "powf64"@ {
        KnownNames::StdIntrinsicsPowf64
    } else if n == "powif32"@ {
        KnownNames::StdIntrinsicsPowif32
    } else if n == "powif64"@ {
        KnownNames::StdIntrinsicsPowif64
    } else if n == "raw_eq"@ {
        KnownNames::StdIntrinsicsRawEq
    } else if n == "rintf32"@ {
        KnownNames::StdIntrinsicsRintf32
    } else if n == "rintf64"@ {
        KnownNames::StdIntrinsicsRintf64
    } else if n == "roundf32"@ {
        KnownNames::StdIntrinsicsRintf32
    } else if n == "roundf64"@ {
        KnownNames::StdIntrinsicsRintf64
    } else if n == "sinf32"@ {
        KnownNames::StdIntrinsicsSinf32
    } else if n == "sinf64"@ {
        KnownNames::StdIntrinsicsSinf64
    } else if n == "size_of"@ {
        KnownNames::StdIntrinsicsSizeOf
    } else if n == "size_of_val"@ {
        KnownNames::StdIntrinsicsSizeOfVal
    } else if n == "sqrtf32"@ {
        KnownNames::StdIntrinsicsSqrtf32
    } else if n == "sqrtf64"@ {
        KnownNames::StdIntrinsicsSqrtf64
    } else if n == "transmute"@ {
        KnownNames::StdIntrinsicsTransmute
    } else if n == "truncf32"@ {
        KnownNames::StdIntrinsicsTruncf32
    } else if n == "truncf64"@ {
        KnownNames::StdIntrinsicsTruncf64
    } else {
        KnownNames::NotKnown
    }
}

/// The intrinsics defined in `intrinsics` itself.
pub open spec fn intrinsics_fns_table(n: Seq<char>) -> KnownNames {
    if n == "copy"@ {
        KnownNames::StdIntrinsicsCopy
    } else if n == "copy_nonoverlapping"@ {
        KnownNames::StdIntrinsicsCopyNonOverlapping
    } else if n == "write_bytes"@ {
        KnownNames::StdIntrinsicsWriteBytes
    } else {
        KnownNames::NotKnown
    }
}

/// The items of `marker`.
pub open spec fn marker_table(n: Seq<char>) -> KnownNames {
    if n == "PhantomData"@ {
        KnownNames::StdMarkerPhantomData
    } else {
        KnownNames::NotKnown
    }
}

/// The functions of `mem`.
pub open spec fn mem_table(n: Seq<char>) -> KnownNames {
    if n == "replace"@ {
        KnownNames::StdMemReplace
    } else {
        KnownNames::NotKnown
    }
}

/// The methods of the `Fn`, `FnMut` and `FnOnce` traits.
pub open spec fn fn_trait_method_table(n: Seq<char>) -> KnownNames {
    if n == "call"@ {
        KnownNames::StdOpsFunctionFnCall
    } else if n == "call_mut"@ {
        KnownNames::StdOpsFunctionFnMutCallMut
    } else if n == "call_once"@ || n == "call_once_force"@ {
        KnownNames::StdOpsFunctionFnOnceCallOnce
    } else {
        KnownNames::NotKnown
    }
}

/// The functions of `panicking` and `rt`.
pub open spec fn panicking_table(n: Seq<char>) -> KnownNames {
    if n == "assert_failed"@ {
        KnownNames::StdPanickingAssertFailed
    } else if n == "begin_panic"@ || n == "panic"@ {
        KnownNames::StdPanickingBeginPanic
    } else if n == "begin_panic_fmt"@ || n == "panic_fmt"@ {
        KnownNames::StdPanickingBeginPanicFmt
    } else {
        KnownNames::NotKnown
    }
}

/// The methods of `*mut T`.
pub open spec fn mut_ptr_table(n: Seq<char>) -> KnownNames {
    if n == "write_bytes"@ {
        KnownNames::StdIntrinsicsWriteBytes
    } else if n == "cast"@ {
        KnownNames::StdPtrMutPtrCast
    } else if n == "add"@ {
        KnownNames::StdPtrMutPtrAdd
    } else if n == "sub"@ {
        KnownNames::StdPtrMutPtrSub
    } else if n == "offset"@ {
        KnownNames::StdPtrMutPtrOffset
    } else if n == "byte_add"@ {
        KnownNames::StdPtrMutPtrByteAdd
    } else if n == "byte_sub"@ {
        KnownNames::StdPtrMutPtrByteSub
    } else if n == "byte_offset"@ {
        KnownNames::StdPtrMutPtrByteOffset
    } else if n == "wrapping_add"@ {
        KnownNames::StdPtrMutPtrWrappingAdd
    } else if n == "wrapping_sub"@ {
        KnownNames::StdPtrMutPtrWrappingSub
    } else if n == "wrapping_offset"@ {
        KnownNames::StdPtrMutPtrWrappingOffset
    } else if n == "wrapping_byte_add"@ {
        KnownNames::StdPtrMutPtrWrappingByteAdd
    } else if n == "wrapping_byte_sub"@ {
        KnownNames::StdPtrMutPtrWrappingByteSub
    } else if n == "wrapping_byte_offset"@ {
        KnownNames::StdPtrMutPtrWrappingByteOffset
    } else {
        KnownNames::NotKnown
    }
}

/// The methods of `*const T`.
pub open spec fn const_ptr_table(n: Seq<char>) -> KnownNames {
    if n == "write_bytes"@ {
        KnownNames::StdIntrinsicsWriteBytes
    } else if n == "cast"@ {
        KnownNames::StdPtrConstPtrCast
    } else if n == "add"@ {
        KnownNames::StdPtrConstPtrAdd
    } else if n == "sub"@ {
        KnownNames::StdPtrConstPtrSub
    } else if n == "offset"@ {
        KnownNames::StdPtrConstPtrOffset
    } else if n == "byte_add"@ {
        KnownNames::StdPtrConstPtrByteAdd
    } else if n == "byte_sub"@ {
        KnownNames::StdPtrConstPtrByteSub
    } else if n == "byte_offset"@ {
        KnownNames::StdPtrConstPtrByteOffset
    } else if n == "wrapping_add"@ {
        KnownNames::StdPtrConstPtrWrappingAdd
    } else if n == "wrapping_sub"@ {
        KnownNames::StdPtrConstPtrWrappingSub
    } else if n == "wrapping_offset"@ {
        KnownNames::StdPtrConstPtrWrappingOffset
    } else if n == "wrapping_byte_add"@ {
        KnownNames::StdPtrConstPtrWrappingByteAdd
    } else if n == "wrapping_byte_sub"@ {
        KnownNames::StdPtrConstPtrWrappingByteSub
    } else if n == "wrapping_byte_offset"@ {
        KnownNames::StdPtrConstPtrWrappingByteOffset
    } else {
        KnownNames::NotKnown
    }
}

/// The methods of `NonNull`.
pub open spec fn non_null_table(n: Seq<char>) -> KnownNames {
    if n == "as_ptr"@ {
        KnownNames::StdPtrNonNullAsPtr
    } else if n == "as_mut"@ {
        KnownNames::StdPtrNonNullAsMut
    } else if n == "as_ref"@ {
        KnownNames::StdPtrNonNullAsRef
    } else if n == "cast"@ {
        KnownNames::StdPtrNonNullCast
    } else {
        KnownNames::NotKnown
    }
}

/// The methods of `Unique`.
pub open spec fn unique_table(n: Seq<char>) -> KnownNames {
    if n == "new_unchecked"@ {
        KnownNames::StdPtrUniqueNewUnchecked
    } else {
        KnownNames::NotKnown
    }
}

/// The functions of `slice::cmp`.
pub open spec fn slice_compare_table(n: Seq<char>) -> KnownNames {
    if n == "memcmp"@ {
        KnownNames::StdSliceCmpMemcmp
    } else {
        KnownNames::NotKnown
    }
}

/// The methods of the slice index implementations.
pub open spec fn slice_index_table(n: Seq<char>) -> KnownNames {
    if n == "index"@ {
        KnownNames::StdSliceIndexIndex
    } else if n == "index_mut"@ {
        KnownNames::StdSliceIndexIndexMut
    } else {
        KnownNames::NotKnown
    }
}

/// The methods of `Once`.
pub open spec fn sync_once_table(n: Seq<char>) -> KnownNames {
    if n == "call_once"@ || n == "call_once_force"@ {
        KnownNames::StdOpsFunctionFnOnceCallOnce
    } else {
        KnownNames::NotKnown
    }
}

/// The items of the first implementation block of `RawVec`.
pub open spec fn raw_vec_impl_table(n: Seq<char>) -> KnownNames {
    if n == "MIN_NON_ZERO_CAP"@ {
        KnownNames::AllocRawVecMinNonZeroCap
    } else if n == "allocate_in"@ {
        KnownNames::AllocRawVecAllocateIn
    } else if n == "current_memory"@ {
        KnownNames::AllocRawVecCurrnetMemory
    } else {
        KnownNames::NotKnown
    }
}

/// The other items of `raw_vec`.
pub open spec fn raw_vec_fns_table(n: Seq<char>) -> KnownNames {
    if n == "allocate_in"@ {
        KnownNames::AllocRawVecAllocateIn
    } else if n == "current_memory"@ {
        KnownNames::AllocRawVecCurrnetMemory
    } else if n == "grow_amortized"@ {
        KnownNames::AllocRawVecGrowAmortized
    } else if n == "grow_exact"@ {
        KnownNames::AllocRawVecGrowExact
    } else if n == "finish_grow"@ {
        KnownNames::AllocRawVecFinishGrow
    } else if n == "shrink"@ {
        KnownNames::AllocRawVecShrink
    } else {
        KnownNames::NotKnown
    }
}

/// The methods of the thread builder.
pub open spec fn thread_table(n: Seq<char>) -> KnownNames {
    if n == "spawn_unchecked"@ {
        KnownNames::StdThreadBuilderSpawnUnchecked
    } else if n == "spawn_unchecked_"@ {
        KnownNames::StdThreadBuilderSpawnUnchecked_
    } else {
        KnownNames::NotKnown
    }
}

/// The methods of `Result`.
pub open spec fn result_table(n: Seq<char>) -> KnownNames {
    if n == "map_err"@ {
        KnownNames::StdResultMapErr
    } else {
        KnownNames::NotKnown
    }
}

/// The methods of `Into`.
pub open spec fn convert_table(n: Seq<char>) -> KnownNames {
    if n == "into"@ {
        KnownNames::StdConvertInto
    } else {
        KnownNames::NotKnown
    }
}

fn alloc_foreign(n: &str) -> (r: KnownNames)
    ensures
        r == alloc_foreign_table(n@),
{
    if str_eq(n, "__rust_alloc") {
        KnownNames::RustAlloc
    } else if str_eq(n, "__rust_alloc_zeroed") {
        KnownNames::RustAllocZeroed
    } else if str_eq(n, "__rust_dealloc") {
        KnownNames::RustDealloc
    } else if str_eq(n, "__rust_realloc") {
        KnownNames::RustRealloc
    } else if str_eq(n, "__rust_alloc_error_handler") {
        KnownNames::RustAllocErrorHandler
    } else {
        KnownNames::NotKnown
    }
}

fn alloc_allocator(n: &str) -> (r: KnownNames)
    ensures
        r == alloc_allocator_table(n@),
{
    if str_eq(n, "allocate") {
        KnownNames::StdAllocAllocatorAllocate
    } else if str_eq(n, "allocate_zeroed") {
        KnownNames::StdAllocAllocatorAllocateZeroed
    } else if str_eq(n, "deallocate") {
        KnownNames::StdAllocAllocatorDeallocate
    } else if str_eq(n, "grow") {
        KnownNames::StdAllocAllocatorGrow
    } else if str_eq(n, "grow_zeroed") {
        KnownNames::StdAllocAllocatorGrowZeroed
    } else if str_eq(n, "shrink") {
        KnownNames::StdAllocAllocatorShrink
    } else {
        KnownNames::NotKnown
    }
}

fn alloc_fns(n: &str) -> (r: KnownNames)
    ensures
        r == alloc_fns_table(n@),
{
    if str_eq(n, "alloc") {
        KnownNames::StdAllocAlloc
    } else if str_eq(n, "alloc_zeroed") {
        KnownNames::StdAllocAllocZeroed
    } else if str_eq(n, "dealloc") {
        KnownNames::StdAllocDealloc
    } else if str_eq(n, "realloc") {
        KnownNames::StdAllocRealloc
    } else if str_eq(n, "exchange_malloc") {
        KnownNames::StdAllocExchangeMalloc
    } else if str_eq(n, "handle_alloc_error") {
        KnownNames::StdAllocHandleAllocError
    } else if str_eq(n, "box_free") {
        KnownNames::StdAllocBoxFree
    } else {
        KnownNames::NotKnown
    }
}

fn clone_trait(n: &str) -> (r: KnownNames)
    ensures
        r == clone_trait_table(n@),
{
    if str_eq(n, "clone") {
        KnownNames::StdCloneClone
    } else {
        KnownNames::NotKnown
    }
}

fn future(n: &str) -> (r: KnownNames)
    ensures
        r == future_table(n@),
{
    if str_eq(n, "from_generator") {
        KnownNames::StdFutureFromGenerator
    } else {
        KnownNames::NotKnown
    }
}

fn intrinsics_foreign(n: &str) -> (r: KnownNames)
    ensures
        r == intrinsics_foreign_table(n@),
{
    if str_eq(n, "arith_offset") {
        KnownNames::StdIntrinsicsArithOffset
    } else if str_eq(n, "bitreverse") {
        KnownNames::StdIntrinsicsBitreverse
    } else if str_eq(n, "bswap") {
        KnownNames::StdIntrinsicsBswap
    } else if str_eq(n, "ceilf32") {
        KnownNames::StdIntrinsicsCeilf32
    } else if str_eq(n, "ceilf64") {
        KnownNames::StdIntrinsicsCeilf64
    } else if str_eq(n, "compare_bytes") {
        KnownNames::StdSliceCmpMemcmp
    } else if str_eq(n, "copysignf32") {
        KnownNames::StdIntrinsicsCopysignf32
    } else if str_eq(n, "copysignf64") {
        KnownNames::StdIntrinsicsCopysignf64
    } else if str_eq(n, "cosf32") {
        KnownNames::StdIntrinsicsCosf32
    } else if str_eq(n, "cosf64") {
        KnownNames::StdIntrinsicsCosf64
    } else if str_eq(n, "ctlz") {
        KnownNames::StdIntrinsicsCtlz
    } else if str_eq(n, "ctlz_nonzero") {
        KnownNames::StdIntrinsicsCtlzNonzero
    } else if str_eq(n, "ctpop") {
        KnownNames::StdIntrinsicsCtpop
    } else if str_eq(n, "cttz") {
        KnownNames::StdIntrinsicsCttz
    } else if str_eq(n, "cttz_nonzero") {
        KnownNames::StdIntrinsicsCttzNonzero
    } else if str_eq(n, "discriminant_value") {
        KnownNames::StdIntrinsicsDiscriminantValue
    } else if str_eq(n, "exp2f32") {
        KnownNames::StdIntrinsicsExp2f32
    } else if str_eq(n, "exp2f64") {
        KnownNames::StdIntrinsicsExp2f64
    } else if str_eq(n, "expf32") {
        KnownNames::StdIntrinsicsExpf32
    } else if str_eq(n, "expf64") {
        KnownNames::StdIntrinsicsExpf64
    } else if str_eq(n, "fabsf32") {
        KnownNames::StdIntrinsicsFabsf32
    } else if str_eq(n, "fabsf64") {
        KnownNames::StdIntrinsicsFabsf64
    } else if str_eq(n, "fadd_fast") {
        KnownNames::StdIntrinsicsFaddFast
    } else if str_eq(n, "fdiv_fast") {
        KnownNames::StdIntrinsicsFdivFast
    } else if str_eq(n, "floorf32") {
        KnownNames::StdIntrinsicsFloorf32
    } else if str_eq(n, "floorf64") {
        KnownNames::StdIntrinsicsFloorf64
    } else if str_eq(n, "fmul_fast") {
        KnownNames::StdIntrinsicsFmulFast
    } else if str_eq(n, "frem_fast") {
        KnownNames::StdIntrinsicsFremFast
    } else if str_eq(n, "fsub_fast") {
        KnownNames::StdIntrinsicsFsubFast
    } else if str_eq(n, "log10f32") {
        KnownNames::StdIntrinsicsLog10f32
    } else if str_eq(n, "log10f64") {
        KnownNames::StdIntrinsicsLog10f64
    } else if str_eq(n, "log2f32") {
        KnownNames::StdIntrinsicsLog2f32
    } else if str_eq(n, "log2f64") {
        KnownNames::StdIntrinsicsLog2f64
    } else if str_eq(n, "logf32") {
        KnownNames::StdIntrinsicsLogf32
    } else if str_eq(n, "logf64") {
        KnownNames::StdIntrinsicsLogf64
    } else if str_eq(n, "maxnumf32") {
        KnownNames::StdIntrinsicsMaxnumf32
    } else if str_eq(n, "maxnumf64") {
        KnownNames::StdIntrinsicsMaxnumf64
    } else if str_eq(n, "min_align_of_val") {
        KnownNames::StdIntrinsicsMinAlignOfVal
    } else if str_eq(n, "minnumf32") {
        KnownNames::StdIntrinsicsMinnumf32
    } else if str_eq(n, "minnumf64") {
        KnownNames::StdIntrinsicsMinnumf64
    } else if str_eq(n, "mul_with_overflow") {
        KnownNames::StdIntrinsicsMulWithOverflow
    } else if str_eq(n, "nearbyintf32") {
        KnownNames::StdIntrinsicsNearbyintf32
    } else if str_eq(n, "nearbyintf64") {
        KnownNames::StdIntrinsicsNearbyintf64
    } else if str_eq(n, "needs_drop") {
        KnownNames::StdIntrinsicsNeedsDrop
    } else if str_eq(n, "offset") {
        KnownNames::StdIntrinsicsOffset
    } else if str_eq(n, "powf32") {
        KnownNames::StdIntrinsicsPowf32
    } else if str_eq(n, "powf64") {
        KnownNames::StdIntrinsicsPowf64
    } else if str_eq(n, "powif32") {
        KnownNames::StdIntrinsicsPowif32
    } else if str_eq(n, "powif64") {
        KnownNames::StdIntrinsicsPowif64
    } else if str_eq(n, "raw_eq") {
        KnownNames::StdIntrinsicsRawEq
    } else if str_eq(n, "rintf32") {
        KnownNames::StdIntrinsicsRintf32
    } else if str_eq(n, "rintf64") {
        KnownNames::StdIntrinsicsRintf64
    } else if str_eq(n, "roundf32") {
        KnownNames::StdIntrinsicsRintf32
    } else if str_eq(n, "roundf64") {
        KnownNames::StdIntrinsicsRintf64
    } else if str_eq(n, "sinf32") {
        KnownNames::StdIntrinsicsSinf32
    } else if str_eq(n, "sinf64") {
        KnownNames::StdIntrinsicsSinf64
    } else if str_eq(n, "size_of") {
        KnownNames::StdIntrinsicsSizeOf
    } else if str_eq(n, "size_of_val") {
        KnownNames::StdIntrinsicsSizeOfVal
    } else if str_eq(n, "sqrtf32") {
        KnownNames::StdIntrinsicsSqrtf32
    } else if str_eq(n, "sqrtf64") {
        KnownNames::StdIntrinsicsSqrtf64
    } else if str_eq(n, "transmute") {
        KnownNames::StdIntrinsicsTransmute
    } else if str_eq(n, "truncf32") {
        KnownNames::StdIntrinsicsTruncf32
    } else if str_eq(n, "truncf64") {
        KnownNames::StdIntrinsicsTruncf64
    } else {
        KnownNames::NotKnown
    }
}

fn intrinsics_fns(n: &str) -> (r: KnownNames)
    ensures
        r == intrinsics_fns_table(n@),
{
    if str_eq(n, "copy") {
        KnownNames::StdIntrinsicsCopy
    } else if str_eq(n, "copy_nonoverlapping") {
        KnownNames::StdIntrinsicsCopyNonOverlapping
    } else if str_eq(n, "write_bytes") {
        KnownNames::StdIntrinsicsWriteBytes
    } else {
        KnownNames::NotKnown
    }
}

fn marker(n: &str) -> (r: KnownNames)
    ensures
        r == marker_table(n@),
{
    if str_eq(n, "PhantomData") {
        KnownNames::StdMarkerPhantomData
    } else {
        KnownNames::NotKnown
    }
}

fn mem(n: &str) -> (r: KnownNames)
    ensures
        r == mem_table(n@),
{
    if str_eq(n, "replace") {
        KnownNames::StdMemReplace
    } else {
        KnownNames::NotKnown
    }
}

fn fn_trait_method(n: &str) -> (r: KnownNames)
    ensures
        r == fn_trait_method_table(n@),
{
    if str_eq(n, "call") {
        KnownNames::StdOpsFunctionFnCall
    } else if str_eq(n, "call_mut") {
        KnownNames::StdOpsFunctionFnMutCallMut
    } else if str_eq(n, "call_once") || str_eq(n, "call_once_force") {
        KnownNames::StdOpsFunctionFnOnceCallOnce
    } else {
        KnownNames::NotKnown
    }
}

fn panicking(n: &str) -> (r: KnownNames)
    ensures
        r == panicking_table(n@),
{
    if str_eq(n, "assert_failed") {
        KnownNames::StdPanickingAssertFailed
    } else if str_eq(n, "begin_panic") || str_eq(n, "panic") {
        KnownNames::StdPanickingBeginPanic
    } else if str_eq(n, "begin_panic_fmt") || str_eq(n, "panic_fmt") {
        KnownNames::StdPanickingBeginPanicFmt
    } else {
        KnownNames::NotKnown
    }
}

fn mut_ptr(n: &str) -> (r: KnownNames)
    ensures
        r == mut_ptr_table(n@),
{
    if str_eq(n, "write_bytes") {
        KnownNames::StdIntrinsicsWriteBytes
    } else if str_eq(n, "cast") {
        KnownNames::StdPtrMutPtrCast
    } else if str_eq(n, "add") {
        KnownNames::StdPtrMutPtrAdd
    } else if str_eq(n, "sub") {
        KnownNames::StdPtrMutPtrSub
    } else if str_eq(n, "offset") {
        KnownNames::StdPtrMutPtrOffset
    } else if str_eq(n, "byte_add") {
        KnownNames::StdPtrMutPtrByteAdd
    } else if str_eq(n, "byte_sub") {
        KnownNames::StdPtrMutPtrByteSub
    } else if str_eq(n, "byte_offset") {
        KnownNames::StdPtrMutPtrByteOffset
    } else if str_eq(n, "wrapping_add") {
        KnownNames::StdPtrMutPtrWrappingAdd
    } else if str_eq(n, "wrapping_sub") {
        KnownNames::StdPtrMutPtrWrappingSub
    } else if str_eq(n, "wrapping_offset") {
        KnownNames::StdPtrMutPtrWrappingOffset
    } else if str_eq(n, "wrapping_byte_add") {
        KnownNames::StdPtrMutPtrWrappingByteAdd
    } else if str_eq(n, "wrapping_byte_sub") {
        KnownNames::StdPtrMutPtrWrappingByteSub
    } else if str_eq(n, "wrapping_byte_offset") {
        KnownNames::StdPtrMutPtrWrappingByteOffset
    } else {
        KnownNames::NotKnown
    }
}

fn const_ptr(n: &str) -> (r: KnownNames)
    ensures
        r == const_ptr_table(n@),
{
    if str_eq(n, "write_bytes") {
        KnownNames::StdIntrinsicsWriteBytes
    } else if str_eq(n, "cast") {
        KnownNames::StdPtrConstPtrCast
    } else if str_eq(n, "add") {
        KnownNames::StdPtrConstPtrAdd
    } else if str_eq(n, "sub") {
        KnownNames::StdPtrConstPtrSub
    } else if str_eq(n, "offset") {
        KnownNames::StdPtrConstPtrOffset
    } else if str_eq(n, "byte_add") {
        KnownNames::StdPtrConstPtrByteAdd
    } else if str_eq(n, "byte_sub") {
        KnownNames::StdPtrConstPtrByteSub
    } else if str_eq(n, "byte_offset") {
        KnownNames::StdPtrConstPtrByteOffset
    } else if str_eq(n, "wrapping_add") {
        KnownNames::StdPtrConstPtrWrappingAdd
    } else if str_eq(n, "wrapping_sub") {
        KnownNames::StdPtrConstPtrWrappingSub
    } else if str_eq(n, "wrapping_offset") {
        KnownNames::StdPtrConstPtrWrappingOffset
    } else if str_eq(n, "wrapping_byte_add") {
        KnownNames::StdPtrConstPtrWrappingByteAdd
    } else if str_eq(n, "wrapping_byte_sub") {
        KnownNames::StdPtrConstPtrWrappingByteSub
    } else if str_eq(n, "wrapping_byte_offset") {
        KnownNames::StdPtrConstPtrWrappingByteOffset
    } else {
        KnownNames::NotKnown
    }
}

fn non_null(n: &str) -> (r: KnownNames)
    ensures
        r == non_null_table(n@),
{
    if str_eq(n, "as_ptr") {
        KnownNames::StdPtrNonNullAsPtr
    } else if str_eq(n, "as_mut") {
        KnownNames::StdPtrNonNullAsMut
    } else if str_eq(n, "as_ref") {
        KnownNames::StdPtrNonNullAsRef
    } else if str_eq(n, "cast") {
        KnownNames::StdPtrNonNullCast
    } else {
        KnownNames::NotKnown
    }
}

fn unique(n: &str) -> (r: KnownNames)
    ensures
        r == unique_table(n@),
{
    if str_eq(n, "new_unchecked") {
        KnownNames::StdPtrUniqueNewUnchecked
    } else {
        KnownNames::NotKnown
    }
}

fn slice_compare(n: &str) -> (r: KnownNames)
    ensures
        r == slice_compare_table(n@),
{
    if str_eq(n, "memcmp") {
        KnownNames::StdSliceCmpMemcmp
    } else {
        KnownNames::NotKnown
    }
}

fn slice_index(n: &str) -> (r: KnownNames)
    ensures
        r == slice_index_table(n@),
{
    if str_eq(n, "index") {
        KnownNames::StdSliceIndexIndex
    } else if str_eq(n, "index_mut") {
        KnownNames::StdSliceIndexIndexMut
    } else {
        KnownNames::NotKnown
    }
}

fn sync_once(n: &str) -> (r: KnownNames)
    ensures
        r == sync_once_table(n@),
{
    if str_eq(n, "call_once") || str_eq(n, "call_once_force") {
        KnownNames::StdOpsFunctionFnOnceCallOnce
    } else {
        KnownNames::NotKnown
    }
}

fn raw_vec_impl(n: &str) -> (r: KnownNames)
    ensures
        r == raw_vec_impl_table(n@),
{
    if str_eq(n, "MIN_NON_ZERO_CAP") {
        KnownNames::AllocRawVecMinNonZeroCap
    } else if str_eq(n, "allocate_in") {
        KnownNames::AllocRawVecAllocateIn
    } else if str_eq(n, "current_memory") {
        KnownNames::AllocRawVecCurrnetMemory
    } else {
        KnownNames::NotKnown
    }
}

fn raw_vec_fns(n: &str) -> (r: KnownNames)
    ensures
        r == raw_vec_fns_table(n@),
{
    if str_eq(n, "allocate_in") {
        KnownNames::AllocRawVecAllocateIn
    } else if str_eq(n, "current_memory") {
        KnownNames::AllocRawVecCurrnetMemory
    } else if str_eq(n, "grow_amortized") {
        KnownNames::AllocRawVecGrowAmortized
    } else if str_eq(n, "grow_exact") {
        KnownNames::AllocRawVecGrowExact
    } else if str_eq(n, "finish_grow") {
        KnownNames::AllocRawVecFinishGrow
    } else if str_eq(n, "shrink") {
        KnownNames::AllocRawVecShrink
    } else {
        KnownNames::NotKnown
    }
}

fn thread(n: &str) -> (r: KnownNames)
    ensures
        r == thread_table(n@),
{
    if str_eq(n, "spawn_unchecked") {
        KnownNames::StdThreadBuilderSpawnUnchecked
    } else if str_eq(n, "spawn_unchecked_") {
        KnownNames::StdThreadBuilderSpawnUnchecked_
    } else {
        KnownNames::NotKnown
    }
}

fn result(n: &str) -> (r: KnownNames)
    ensures
        r == result_table(n@),
{
    if str_eq(n, "map_err") {
        KnownNames::StdResultMapErr
    } else {
        KnownNames::NotKnown
    }
}

fn convert(n: &str) -> (r: KnownNames)
    ensures
        r == convert_table(n@),
{
    if str_eq(n, "into") {
        KnownNames::StdConvertInto
    } else {
        KnownNames::NotKnown
    }
}

/// The known name of an item of the `alloc` namespace whose path continues at `i`.
pub open spec fn alloc_namespace(p: Seq<PathElem>, i: int) -> KnownNames {
    if is_foreign_at(p, i) {
        table_at(p, i + 1, |n: Seq<char>| alloc_foreign_table(n))
    } else {
        match name_at(p, i) {
            Some(n) => if n == "Allocator"@ {
                table_at(p, i + 1, |m: Seq<char>| alloc_allocator_table(m))
            } else {
                alloc_fns_table(n)
            },
            None => KnownNames::NotKnown,
        }
    }
}

/// The known name of an item of the `clone` namespace whose path continues at `i`.
pub open spec fn clone_namespace(p: Seq<PathElem>, i: int) -> KnownNames {
    match name_at(p, i) {
        Some(n) => if n == "Clone"@ {
            table_at(p, i + 1, |m: Seq<char>| clone_trait_table(m))
        } else {
            KnownNames::NotKnown
        },
        None => KnownNames::NotKnown,
    }
}

/// The known name of an item of the `intrinsics` namespace whose path continues at `i`.
pub open spec fn intrinsics_namespace(p: Seq<PathElem>, i: int) -> KnownNames {
    if disambiguator_at(p, i) == Some(0u32) {
        if is_foreign_at(p, i) {
            table_at(p, i + 1, |n: Seq<char>| intrinsics_foreign_table(n))
        } else {
            table_at(p, i, |n: Seq<char>| intrinsics_fns_table(n))
        }
    } else {
        KnownNames::NotKnown
    }
}

/// The known name of an item of the `ops` namespace whose path continues at `i`.
pub open spec fn ops_namespace(p: Seq<PathElem>, i: int) -> KnownNames {
    match name_at(p, i) {
        Some(n) => if n == "function"@ {
            match name_at(p, i + 1) {
                Some(t) => if t == "Fn"@ || t == "FnMut"@ || t == "FnOnce"@ {
                    table_at(p, i + 2, |m: Seq<char>| fn_trait_method_table(m))
                } else {
                    KnownNames::NotKnown
                },
                None => KnownNames::NotKnown,
            }
        } else {
            KnownNames::NotKnown
        },
        None => KnownNames::NotKnown,
    }
}

/// The known name given by `table` to the name after the `i`-th element when that
/// element has the disambiguator `d`.
pub open spec fn table_after_disambiguator(p: Seq<PathElem>, i: int, d: u32, table: spec_fn(Seq<char>) -> KnownNames) -> KnownNames {
    if disambiguator_at(p, i) == Some(d) {
        table_at(p, i + 1, table)
    } else {
        KnownNames::NotKnown
    }
}

/// The known name of an item of the `ptr` namespace whose path continues at `i`.
pub open spec fn ptr_namespace(p: Seq<PathElem>, i: int) -> KnownNames {
    match name_at(p, i) {
        Some(n) => if n == "swap_nonoverlapping"@ {
            KnownNames::StdPtrSwapNonOverlapping
        } else if n == "mut_ptr"@ {
            table_after_disambiguator(p, i + 1, 0, |m: Seq<char>| mut_ptr_table(m))
        } else if n == "const_ptr"@ {
            table_after_disambiguator(p, i + 1, 0, |m: Seq<char>| const_ptr_table(m))
        } else if n == "non_null"@ {
            table_at(p, i + 2, |m: Seq<char>| non_null_table(m))
        } else if n == "unique"@ {
            table_at(p, i + 2, |m: Seq<char>| unique_table(m))
        } else {
            KnownNames::NotKnown
        },
        None => KnownNames::NotKnown,
    }
}

/// The known name of an item of the `raw_vec` namespace whose path continues at `i`.
pub open spec fn raw_vec_namespace(p: Seq<PathElem>, i: int) -> KnownNames {
    if disambiguator_at(p, i) == Some(1u32) {
        table_at(p, i + 1, |n: Seq<char>| raw_vec_impl_table(n))
    } else {
        table_at(p, i + 1, |n: Seq<char>| raw_vec_fns_table(n))
    }
}

/// The known name of an item of the `slice` namespace whose path continues at `i`.
pub open spec fn slice_namespace(p: Seq<PathElem>, i: int) -> KnownNames {
    match name_at(p, i) {
        Some(n) => if n == "cmp"@ {
            table_after_disambiguator(p, i + 1, 0, |m: Seq<char>| slice_compare_table(m))
        } else if n == "index"@ {
            table_after_disambiguator(p, i + 1, 0, |m: Seq<char>| slice_index_table(m))
        } else {
            KnownNames::NotKnown
        },
        None => KnownNames::NotKnown,
    }
}

/// The known name of an item of the `sync` namespace whose path continues at `i`.
pub open spec fn sync_namespace(p: Seq<PathElem>, i: int) -> KnownNames {
    match name_at(p, i) {
        Some(n) => if n == "once"@ {
            table_after_disambiguator(p, i + 1, 2, |m: Seq<char>| sync_once_table(m))
        } else {
            KnownNames::NotKnown
        },
        None => KnownNames::NotKnown,
    }
}

/// The known name of an item of a standard crate whose path continues at `i`
/// with the name of a top-level namespace.
pub open spec fn known_crate_namespace(p: Seq<PathElem>, i: int) -> KnownNames {
    match name_at(p, i) {
        Some(n) => if n == "alloc"@ {
            alloc_namespace(p, i + 1)
        } else if n == "clone"@ {
            clone_namespace(p, i + 1)
        } else if n == "future"@ {
            table_at(p, i + 1, |m: Seq<char>| future_table(m))
        } else if n == "intrinsics"@ {
            intrinsics_namespace(p, i + 1)
        } else if n == "marker"@ {
            table_at(p, i + 1, |m: Seq<char>| marker_table(m))
        } else if n == "mem"@ {
            table_at(p, i + 1, |m: Seq<char>| mem_table(m))
        } else if n == "ops"@ {
            ops_namespace(p, i + 1)
        } else if n == "panicking"@ {
            table_at(p, i + 1, |m: Seq<char>| panicking_table(m))
        } else if n == "ptr"@ {
            ptr_namespace(p, i + 1)
        } else if n == "raw_vec"@ {
            raw_vec_namespace(p, i + 1)
        } else if n == "result"@ {
            table_at(p, i + 2, |m: Seq<char>| result_table(m))
        } else if n == "rt"@ {
            table_at(p, i + 1, |m: Seq<char>| panicking_table(m))
        } else if n == "slice"@ {
            slice_namespace(p, i + 1)
        } else if n == "sync"@ {
            sync_namespace(p, i + 1)
        } else if n == "thread"@ {
            table_after_disambiguator(p, i + 1, 0, |m: Seq<char>| thread_table(m))
        } else if n == "convert"@ {
            table_at(p, i + 2, |m: Seq<char>| convert_table(m))
        } else {
            KnownNames::NotKnown
        },
        None => KnownNames::NotKnown,
    }
}

/// The well known name of the definition of the given crate with the given path;
/// `KnownNames::NotKnown` for a definition that is not well known.
pub open spec fn known_name_of(crate_name: Seq<char>, p: Seq<PathElem>) -> KnownNames {
    if crate_name == "alloc"@ || crate_name == "core"@ || crate_name == "std"@ {
        known_crate_namespace(p, 0)
    } else {
        KnownNames::NotKnown
    }
}

/// The two strings hold the same characters.
pub(crate) fn str_eq(a: &str, b: &str) -> (r: bool)
    ensures
        r == (a@ == b@),
{
    let n = a.unicode_len();
    if n != b.unicode_len() {
        return false;
    }
    let mut i: usize = 0;
    while i < n
        invariant
            i <= n,
            n == a@.len(),
            n == b@.len(),
            forall|j: int| 0 <= j < i ==> a@[j] == b@[j],
        decreases n - i,
    {
        if a.get_char(i) != b.get_char(i) {
            return false;
        }
        i = i + 1;
    }
    assert(a@ =~= b@);
    true
}

/// The name of the `i`-th element of the path.
fn path_name(p: &Vec<PathElem>, i: usize) -> (r: Option<&str>)
    ensures
        match r {
            Some(s) => name_at(p@, i as int) == Some(s@),
            None => name_at(p@, i as int) is None,
        },
{
    if i < p.len() {
        match &p[i].data {
            PathData::TypeNs(s) => Some(s.as_str()),
            PathData::ValueNs(s) => Some(s.as_str()),
            _ => None,
        }
    } else {
        None
    }
}

/// The disambiguator of the `i`-th element of the path.
fn path_disambiguator(p: &Vec<PathElem>, i: usize) -> (r: Option<u32>)
    ensures
        r == disambiguator_at(p@, i as int),
{
    if i < p.len() {
        Some(p[i].disambiguator)
    } else {
        None
    }
}

/// The `i`-th element of the path is a foreign module.
fn path_is_foreign(p: &Vec<PathElem>, i: usize) -> (r: bool)
    ensures
        r == is_foreign_at(p@, i as int),
{
    if i < p.len() {
        match &p[i].data {
            PathData::ForeignMod => true,
            _ => false,
        }
    } else {
        false
    }
}

fn alloc_namespace_of(p: &Vec<PathElem>, i: usize) -> (r: KnownNames)
    requires
        i <= 2,
    ensures
        r == alloc_namespace(p@, i as int),
{
    if path_is_foreign(p, i) {
        match path_name(p, i + 1) {
            Some(n) => alloc_foreign(n),
            None => KnownNames::NotKnown,
        }
    } else {
        match path_name(p, i) {
            Some(n) => if str_eq(n, "Allocator") {
                match path_name(p, i + 1) {
                    Some(m) => alloc_allocator(m),
                    None => KnownNames::NotKnown,
                }
            } else {
                alloc_fns(n)
            },
            None => KnownNames::NotKnown,
        }
    }
}

fn clone_namespace_of(p: &Vec<PathElem>, i: usize) -> (r: KnownNames)
    requires
        i <= 2,
    ensures
        r == clone_namespace(p@, i as int),
{
    match path_name(p, i) {
        Some(n) => if str_eq(n, "Clone") {
            match path_name(p, i + 1) {
                Some(m) => clone_trait(m),
                None => KnownNames::NotKnown,
            }
        } else {
            KnownNames::NotKnown
        },
        None => KnownNames::NotKnown,
    }
}

fn intrinsics_namespace_of(p: &Vec<PathElem>, i: usize) -> (r: KnownNames)
    requires
        i <= 2,
    ensures
        r == intrinsics_namespace(p@, i as int),
{
    if path_disambiguator(p, i) == Some(0u32) {
        if path_is_foreign(p, i) {
            match path_name(p, i + 1) {
                Some(n) => intrinsics_foreign(n),
                None => KnownNames::NotKnown,
            }
        } else {
            match path_name(p, i) {
                Some(n) => intrinsics_fns(n),
                None => KnownNames::NotKnown,
            }
        }
    } else {
        KnownNames::NotKnown
    }
}

fn ops_namespace_of(p: &Vec<PathElem>, i: usize) -> (r: KnownNames)
    requires
        i <= 2,
    ensures
        r == ops_namespace(p@, i as int),
{
    match path_name(p, i) {
        Some(n) => if str_eq(n, "function") {
            match path_name(p, i + 1) {
                Some(t) => if str_eq(t, "Fn") || str_eq(t, "FnMut") || str_eq(t, "FnOnce") {
                    match path_name(p, i + 2) {
                        Some(m) => fn_trait_method(m),
                        None => KnownNames::NotKnown,
                    }
                } else {
                    KnownNames::NotKnown
                },
                None => KnownNames::NotKnown,
            }
        } else {
            KnownNames::NotKnown
        },
        None => KnownNames::NotKnown,
    }
}

fn ptr_namespace_of(p: &Vec<PathElem>, i: usize) -> (r: KnownNames)
    requires
        i <= 2,
    ensures
        r == ptr_namespace(p@, i as int),
{
    match path_name(p, i) {
        Some(n) => if str_eq(n, "swap_nonoverlapping") {
            KnownNames::StdPtrSwapNonOverlapping
        } else if str_eq(n, "mut_ptr") {
            if path_disambiguator(p, i + 1) == Some(0u32) {
                match path_name(p, i + 2) {
                    Some(m) => mut_ptr(m),
                    None => KnownNames::NotKnown,
                }
            } else {
                KnownNames::NotKnown
            }
        } else if str_eq(n, "const_ptr") {
            if path_disambiguator(p, i + 1) == Some(0u32) {
                match path_name(p, i + 2) {
                    Some(m) => const_ptr(m),
                    None => KnownNames::NotKnown,
                }
            } else {
                KnownNames::NotKnown
            }
        } else if str_eq(n, "non_null") {
            match path_name(p, i + 2) {
                Some(m) => non_null(m),
                None => KnownNames::NotKnown,
            }
        } else if str_eq(n, "unique") {
            match path_name(p, i + 2) {
                Some(m) => unique(m),
                None => KnownNames::NotKnown,
            }
        } else {
            KnownNames::NotKnown
        },
        None => KnownNames::NotKnown,
    }
}

fn raw_vec_namespace_of(p: &Vec<PathElem>, i: usize) -> (r: KnownNames)
    requires
        i <= 2,
    ensures
        r == raw_vec_namespace(p@, i as int),
{
    if path_disambiguator(p, i) == Some(1u32) {
        match path_name(p, i + 1) {
            Some(n) => raw_vec_impl(n),
            None => KnownNames::NotKnown,
        }
    } else {
        match path_name(p, i + 1) {
            Some(n) => raw_vec_fns(n),
            None => KnownNames::NotKnown,
        }
    }
}

fn slice_namespace_of(p: &Vec<PathElem>, i: usize) -> (r: KnownNames)
    requires
        i <= 2,
    ensures
        r == slice_namespace(p@, i as int),
{
    match path_name(p, i) {
        Some(n) => if str_eq(n, "cmp") {
            if path_disambiguator(p, i + 1) == Some(0u32) {
                match path_name(p, i + 2) {
                    Some(m) => slice_compare(m),
                    None => KnownNames::NotKnown,
                }
            } else {
                KnownNames::NotKnown
            }
        } else if str_eq(n, "index") {
            if path_disambiguator(p, i + 1) == Some(0u32) {
                match path_name(p, i + 2) {
                    Some(m) => slice_index(m),
                    None => KnownNames::NotKnown,
                }
            } else {
                KnownNames::NotKnown
            }
        } else {
            KnownNames::NotKnown
        },
        None => KnownNames::NotKnown,
    }
}

fn sync_namespace_of(p: &Vec<PathElem>, i: usize) -> (r: KnownNames)
    requires
        i <= 2,
    ensures
        r == sync_namespace(p@, i as int),
{
    match path_name(p, i) {
        Some(n) => if str_eq(n, "once") {
            if path_disambiguator(p, i + 1) == Some(2u32) {
                match path_name(p, i + 2) {
                    Some(m) => sync_once(m),
                    None => KnownNames::NotKnown,
                }
            } else {
                KnownNames::NotKnown
            }
        } else {
            KnownNames::NotKnown
        },
        None => KnownNames::NotKnown,
    }
}

fn known_crate_namespace_of(p: &Vec<PathElem>) -> (r: KnownNames)
    ensures
        r == known_crate_namespace(p@, 0),
{
    match path_name(p, 0) {
        Some(n) => if str_eq(n, "alloc") {
            alloc_namespace_of(p, 1)
        } else if str_eq(n, "clone") {
            clone_namespace_of(p, 1)
        } else if str_eq(n, "future") {
            match path_name(p, 1) {
                Some(m) => future(m),
                None => KnownNames::NotKnown,
            }
        } else if str_eq(n, "intrinsics") {
            intrinsics_namespace_of(p, 1)
        } else if str_eq(n, "marker") {
            match path_name(p, 1) {
                Some(m) => marker(m),
                None => KnownNames::NotKnown,
            }
        } else if str_eq(n, "mem") {
            match path_name(p, 1) {
                Some(m) => mem(m),
                None => KnownNames::NotKnown,
            }
        } else if str_eq(n, "ops") {
            ops_namespace_of(p, 1)
        } else if str_eq(n, "panicking") {
            match path_name(p, 1) {
                Some(m) => panicking(m),
                None => KnownNames::NotKnown,
            }
        } else if str_eq(n, "ptr") {
            ptr_namespace_of(p, 1)
        } else if str_eq(n, "raw_vec") {
            raw_vec_namespace_of(p, 1)
        } else if str_eq(n, "result") {
            match path_name(p, 2) {
                Some(m) => result(m),
                None => KnownNames::NotKnown,
            }
        } else if str_eq(n, "rt") {
            match path_name(p, 1) {
                Some(m) => panicking(m),
                None => KnownNames::NotKnown,
            }
        } else if str_eq(n, "slice") {
            slice_namespace_of(p, 1)
        } else if str_eq(n, "sync") {
            sync_namespace_of(p, 1)
        } else if str_eq(n, "thread") {
            if path_disambiguator(p, 1) == Some(0u32) {
                match path_name(p, 2) {
                    Some(m) => thread(m),
                    None => KnownNames::NotKnown,
                }
            } else {
                KnownNames::NotKnown
            }
        } else if str_eq(n, "convert") {
            match path_name(p, 2) {
                Some(m) => convert(m),
                None => KnownNames::NotKnown,
            }
        } else {
            KnownNames::NotKnown
        },
        None => KnownNames::NotKnown,
    }
}

/// The well known name of the definition of the given crate with the given path
/// (its elements after the crate root); `KnownNames::NotKnown` for a definition
/// that is not well known.
pub fn get_known_name_for(crate_name: &str, def_path: &Vec<PathElem>) -> (r: KnownNames)
    ensures
        r == known_name_of(crate_name@, def_path@),
{
    if str_eq(crate_name, "alloc") || str_eq(crate_name, "core") || str_eq(crate_name, "std") {
        known_crate_namespace_of(def_path)
    } else {
        KnownNames::NotKnown
    }
}

/// A cache of the well known names of definitions: the first look-up of a
/// definition works its name out, and later ones give the name found then.
pub struct KnownNamesCache {
    name_cache: Vec<(DefId, KnownNames)>,
}

impl KnownNamesCache {
    /// The definitions looked up so far, with their names, in the order met.
    pub closed spec fn entries(&self) -> Seq<(DefId, KnownNames)> {
        self.name_cache@
    }

    /// No definition is cached twice.
    pub open spec fn wf(&self) -> bool {
        forall|i: int, j: int| 0 <= i < self.entries().len() && 0 <= j < self.entries().len() && i != j ==> #[trigger] self.entries()[i].0 != #[trigger] self.entries()[j].0
    }

    /// The name cached for `def_id`, if it was looked up.
    pub open spec fn cached(&self, def_id: DefId) -> Option<KnownNames> {
        if exists|i: int| 0 <= i < self.entries().len() && self.entries()[i].0 == def_id {
            Some(self.entries()[choose|i: int| 0 <= i < self.entries().len() && self.entries()[i].0 == def_id].1)
        } else {
            None
        }
    }

    /// Create an empty known names cache.
    /// This cache is re-used by every successive MIR visitor instance.
    pub fn create_cache_from_language_items() -> (r: KnownNamesCache)
        ensures
            r.wf(),
            r.entries() == Seq::<(DefId, KnownNames)>::empty(),
    {
        KnownNamesCache { name_cache: Vec::new() }
    }

    /// Get the well known name for the given def id and cache the association.
    /// The first call for a def id works the name out from the crate name and the
    /// definition path that `describe` gives of it; later calls give the cached
    /// name. If the def_id does not have an actual well known name, this returns
    /// `KnownNames::NotKnown`.
    pub fn get<F: Fn(DefId) -> (String, Vec<PathElem>)>(&mut self, def_id: DefId, describe: F) -> (r: KnownNames)
        requires
            old(self).wf(),
            describe.requires((def_id,)),
        ensures
            final(self).wf(),
            final(self).cached(def_id) == Some(r),
            old(self).cached(def_id) matches Some(n) ==> r == n && final(self).entries() == old(self).entries(),
            old(self).cached(def_id) is None ==> final(self).entries() == old(self).entries().push((def_id, r))
                && exists|d: (String, Vec<PathElem>)| describe.ensures((def_id,), d) && r == known_name_of(d.0@, d.1@),
    {
        let n = self.name_cache.len();
        let mut i: usize = 0;
        while i < n
            invariant
                i <= n,
                n == self.entries().len(),
                self.wf(),
                self.entries() == old(self).entries(),
                forall|j: int| 0 <= j < i ==> self.entries()[j].0 != def_id,
            decreases n - i,
        {
            if self.name_cache[i].0 == def_id {
                let name = self.name_cache[i].1;
                proof {
                    let k = choose|k: int| 0 <= k < self.entries().len() && self.entries()[k].0 == def_id;
                    assert(self.entries()[i as int].0 == def_id);
                    assert(k == i);
                }
                return name;
            }
            i = i + 1;
        }
        let (crate_name, def_path) = describe(def_id);
        let name = get_known_name_for(crate_name.as_str(), &def_path);
        let ghost before = self.entries();
        self.name_cache.push((def_id, name));
        proof {
            assert(self.entries() == before.push((def_id, name)));
            assert(self.entries()[n as int].0 == def_id);
            let k = choose|k: int| 0 <= k < self.entries().len() && self.entries()[k].0 == def_id;
            assert(k == n);
        }
        name
    }
}

/// A definition is looked up once: later look-ups give the name cached then,
/// whatever would be found anew.
pub proof fn law_name_cached_once(cache: &KnownNamesCache, def_id: DefId, i: int, j: int)
    requires
        cache.wf(),
        0 <= i < cache.entries().len(),
        0 <= j < cache.entries().len(),
        cache.entries()[i].0 == def_id,
        cache.entries()[j].0 == def_id,
    ensures
        i == j,
        cache.cached(def_id) == Some(cache.entries()[i].1),
{
}

/// In a standard crate, a path that starts with `alloc` is read in the `alloc`
/// namespace.
proof fn lemma_alloc_namespace_reached(crate_name: Seq<char>, p: Seq<PathElem>)
    requires
        crate_name == "alloc"@ || crate_name == "core"@ || crate_name == "std"@,
        name_at(p, 0) == Some("alloc"@),
    ensures
        known_name_of(crate_name, p) == alloc_namespace(p, 1),
{
}

/// In a standard crate, a path that starts with `ptr` is read in the `ptr`
/// namespace; one that goes on with `mut_ptr` or `const_ptr` and the first
/// implementation block there names a method of `*mut T` or `*const T`.
pub proof fn lemma_ptr_methods_reached(crate_name: Seq<char>, p: Seq<PathElem>)
    requires
        crate_name == "alloc"@ || crate_name == "core"@ || crate_name == "std"@,
        name_at(p, 0) == Some("ptr"@),
    ensures
        known_name_of(crate_name, p) == ptr_namespace(p, 1),
        name_at(p, 1) == Some("mut_ptr"@) && disambiguator_at(p, 2) == Some(0u32)
            ==> known_name_of(crate_name, p) == table_at(p, 3, |m: Seq<char>| mut_ptr_table(m)),
        name_at(p, 1) == Some("const_ptr"@) && disambiguator_at(p, 2) == Some(0u32)
            ==> known_name_of(crate_name, p) == table_at(p, 3, |m: Seq<char>| const_ptr_table(m)),
{
    reveal_strlit("alloc");
    reveal_strlit("core");
    reveal_strlit("std");
    reveal_strlit("clone");
    reveal_strlit("future");
    reveal_strlit("intrinsics");
    reveal_strlit("marker");
    reveal_strlit("mem");
    reveal_strlit("ops");
    reveal_strlit("panicking");
    reveal_strlit("ptr");
    reveal_strlit("swap_nonoverlapping");
    reveal_strlit("mut_ptr");
    reveal_strlit("const_ptr");
    assert("alloc"@.len() == 5 && "clone"@.len() == 5 && "future"@.len() == 6 && "intrinsics"@.len() == 10);
    assert("marker"@.len() == 6 && "panicking"@.len() == 9 && "ptr"@.len() == 3);
    assert("mem"@.len() == 3 && "ops"@.len() == 3 && "ptr"@[0] != "mem"@[0] && "ptr"@[0] != "ops"@[0]);
    assert("swap_nonoverlapping"@.len() == 19 && "mut_ptr"@.len() == 7 && "const_ptr"@.len() == 9);
    assert(known_name_of(crate_name, p) == ptr_namespace(p, 1));
}

/// In a standard crate, a path that starts with `intrinsics` and goes on with its
/// foreign module names an intrinsic of that module; `transmute` is the
/// transmutation intrinsic, and `offset` and `arith_offset` the offset intrinsics.
pub proof fn lemma_foreign_intrinsics_reached(crate_name: Seq<char>, p: Seq<PathElem>, n: Seq<char>)
    requires
        crate_name == "alloc"@ || crate_name == "core"@ || crate_name == "std"@,
        name_at(p, 0) == Some("intrinsics"@),
        is_foreign_at(p, 1),
        disambiguator_at(p, 1) == Some(0u32),
        name_at(p, 2) == Some(n),
    ensures
        known_name_of(crate_name, p) == intrinsics_foreign_table(n),
        n == "transmute"@ ==> known_name_of(crate_name, p) == KnownNames::StdIntrinsicsTransmute,
        n == "offset"@ ==> known_name_of(crate_name, p) == KnownNames::StdIntrinsicsOffset,
        n == "arith_offset"@ ==> known_name_of(crate_name, p) == KnownNames::StdIntrinsicsArithOffset,
{
    reveal_strlit("alloc");
    reveal_strlit("core");
    reveal_strlit("std");
    reveal_strlit("clone");
    reveal_strlit("future");
    reveal_strlit("intrinsics");
    assert("alloc"@.len() == 5 && "clone"@.len() == 5 && "future"@.len() == 6 && "intrinsics"@.len() == 10);
    assert(known_name_of(crate_name, p) == intrinsics_namespace(p, 1));
    reveal_strlit("arith_offset");
    reveal_strlit("bitreverse");
    reveal_strlit("bswap");
    reveal_strlit("ceilf32");
    reveal_strlit("ceilf64");
    reveal_strlit("compare_bytes");
    reveal_strlit("copysignf32");
    reveal_strlit("copysignf64");
    reveal_strlit("cosf32");
    reveal_strlit("cosf64");
    reveal_strlit("ctlz");
    reveal_strlit("ctlz_nonzero");
    reveal_strlit("ctpop");
    reveal_strlit("cttz");
    reveal_strlit("cttz_nonzero");
    reveal_strlit("discriminant_value");
    reveal_strlit("exp2f32");
    reveal_strlit("exp2f64");
    reveal_strlit("expf32");
    reveal_strlit("expf64");
    reveal_strlit("fabsf32");
    reveal_strlit("fabsf64");
    reveal_strlit("fadd_fast");
    reveal_strlit("fdiv_fast");
    reveal_strlit("floorf32");
    reveal_strlit("floorf64");
    reveal_strlit("fmul_fast");
    reveal_strlit("frem_fast");
    reveal_strlit("fsub_fast");
    reveal_strlit("log10f32");
    reveal_strlit("log10f64");
    reveal_strlit("log2f32");
    reveal_strlit("log2f64");
    reveal_strlit("logf32");
    reveal_strlit("logf64");
    reveal_strlit("maxnumf32");
    reveal_strlit("maxnumf64");
    reveal_strlit("min_align_of_val");
    reveal_strlit("minnumf32");
    reveal_strlit("minnumf64");
    reveal_strlit("mul_with_overflow");
    reveal_strlit("nearbyintf32");
    reveal_strlit("nearbyintf64");
    reveal_strlit("needs_drop");
    reveal_strlit("offset");
    reveal_strlit("powf32");
    reveal_strlit("powf64");
    reveal_strlit("powif32");
    reveal_strlit("powif64");
    reveal_strlit("raw_eq");
    reveal_strlit("rintf32");
    reveal_strlit("rintf64");
    reveal_strlit("roundf32");
    reveal_strlit("roundf64");
    reveal_strlit("sinf32");
    reveal_strlit("sinf64");
    reveal_strlit("size_of");
    reveal_strlit("size_of_val");
    reveal_strlit("sqrtf32");
    reveal_strlit("sqrtf64");
    reveal_strlit("transmute");
    reveal_strlit("truncf32");
    reveal_strlit("truncf64");
    assert("arith_offset"@.len() == 12 && "arith_offset"@[0] == 'a');
    assert("bitreverse"@.len() == 10 && "bitreverse"@[0] == 'b');
    assert("bswap"@.len() == 5 && "bswap"@[0] == 'b');
    assert("ceilf32"@.len() == 7 && "ceilf32"@[0] == 'c');
    assert("ceilf64"@.len() == 7 && "ceilf64"@[0] == 'c');
    assert("compare_bytes"@.len() == 13 && "compare_bytes"@[0] == 'c');
    assert("copysignf32"@.len() == 11 && "copysignf32"@[0] == 'c');
    assert("copysignf64"@.len() == 11 && "copysignf64"@[0] == 'c');
    assert("cosf32"@.len() == 6 && "cosf32"@[0] == 'c');
    assert("cosf64"@.len() == 6 && "cosf64"@[0] == 'c');
    assert("ctlz"@.len() == 4 && "ctlz"@[0] == 'c');
    assert("ctlz_nonzero"@.len() == 12 && "ctlz_nonzero"@[0] == 'c');
    assert("ctpop"@.len() == 5 && "ctpop"@[0] == 'c');
    assert("cttz"@.len() == 4 && "cttz"@[0] == 'c');
    assert("cttz_nonzero"@.len() == 12 && "cttz_nonzero"@[0] == 'c');
    assert("discriminant_value"@.len() == 18 && "discriminant_value"@[0] == 'd');
    assert("exp2f32"@.len() == 7 && "exp2f32"@[0] == 'e');
    assert("exp2f64"@.len() == 7 && "exp2f64"@[0] == 'e');
    assert("expf32"@.len() == 6 && "expf32"@[0] == 'e');
    assert("expf64"@.len() == 6 && "expf64"@[0] == 'e');
    assert("fabsf32"@.len() == 7 && "fabsf32"@[0] == 'f');
    assert("fabsf64"@.len() == 7 && "fabsf64"@[0] == 'f');
    assert("fadd_fast"@.len() == 9 && "fadd_fast"@[0] == 'f');
    assert("fdiv_fast"@.len() == 9 && "fdiv_fast"@[0] == 'f');
    assert("floorf32"@.len() == 8 && "floorf32"@[0] == 'f');
    assert("floorf64"@.len() == 8 && "floorf64"@[0] == 'f');
    assert("fmul_fast"@.len() == 9 && "fmul_fast"@[0] == 'f');
    assert("frem_fast"@.len() == 9 && "frem_fast"@[0] == 'f');
    assert("fsub_fast"@.len() == 9 && "fsub_fast"@[0] == 'f');
    assert("log10f32"@.len() == 8 && "log10f32"@[0] == 'l');
    assert("log10f64"@.len() == 8 && "log10f64"@[0] == 'l');
    assert("log2f32"@.len() == 7 && "log2f32"@[0] == 'l');
    assert("log2f64"@.len() == 7 && "log2f64"@[0] == 'l');
    assert("logf32"@.len() == 6 && "logf32"@[0] == 'l');
    assert("logf64"@.len() == 6 && "logf64"@[0] == 'l');
    assert("maxnumf32"@.len() == 9 && "maxnumf32"@[0] == 'm');
    assert("maxnumf64"@.len() == 9 && "maxnumf64"@[0] == 'm');
    assert("min_align_of_val"@.len() == 16 && "min_align_of_val"@[0] == 'm');
    assert("minnumf32"@.len() == 9 && "minnumf32"@[0] == 'm');
    assert("minnumf64"@.len() == 9 && "minnumf64"@[0] == 'm');
    assert("mul_with_overflow"@.len() == 17 && "mul_with_overflow"@[0] == 'm');
    assert("nearbyintf32"@.len() == 12 && "nearbyintf32"@[0] == 'n');
    assert("nearbyintf64"@.len() == 12 && "nearbyintf64"@[0] == 'n');
    assert("needs_drop"@.len() == 10 && "needs_drop"@[0] == 'n');
    assert("offset"@.len() == 6 && "offset"@[0] == 'o');
    assert("powf32"@.len() == 6 && "powf32"@[0] == 'p');
    assert("powf64"@.len() == 6 && "powf64"@[0] == 'p');
    assert("powif32"@.len() == 7 && "powif32"@[0] == 'p');
    assert("powif64"@.len() == 7 && "powif64"@[0] == 'p');
    assert("raw_eq"@.len() == 6 && "raw_eq"@[0] == 'r');
    assert("rintf32"@.len() == 7 && "rintf32"@[0] == 'r');
    assert("rintf64"@.len() == 7 && "rintf64"@[0] == 'r');
    assert("roundf32"@.len() == 8 && "roundf32"@[0] == 'r');
    assert("roundf64"@.len() == 8 && "roundf64"@[0] == 'r');
    assert("sinf32"@.len() == 6 && "sinf32"@[0] == 's');
    assert("sinf64"@.len() == 6 && "sinf64"@[0] == 's');
    assert("size_of"@.len() == 7 && "size_of"@[0] == 's');
    assert("size_of_val"@.len() == 11 && "size_of_val"@[0] == 's');
    assert("sqrtf32"@.len() == 7 && "sqrtf32"@[0] == 's');
    assert("sqrtf64"@.len() == 7 && "sqrtf64"@[0] == 's');
    assert("transmute"@.len() == 9 && "transmute"@[0] == 't');
    assert("truncf32"@.len() == 8 && "truncf32"@[0] == 't');
    assert("truncf64"@.len() == 8 && "truncf64"@[0] == 't');
}

/// In a standard crate, the functions that wrap or unwrap a pointer, or hand a
/// closure or a fresh buffer on, are recognized by their paths: `NonNull::as_ptr`,
/// `Unique::new_unchecked`, `Result::map_err`, `Into::into`,
/// `Builder::spawn_unchecked` and `RawVec::allocate_in`.
pub proof fn lemma_wrapper_fns_recognized(crate_name: Seq<char>, p: Seq<PathElem>)
    requires
        crate_name == "alloc"@ || crate_name == "core"@ || crate_name == "std"@,
    ensures
        name_at(p, 0) == Some("ptr"@) && name_at(p, 1) == Some("non_null"@) && name_at(p, 3) == Some("as_ptr"@)
            ==> known_name_of(crate_name, p) == KnownNames::StdPtrNonNullAsPtr,
        name_at(p, 0) == Some("ptr"@) && name_at(p, 1) == Some("unique"@) && name_at(p, 3) == Some("new_unchecked"@)
            ==> known_name_of(crate_name, p) == KnownNames::StdPtrUniqueNewUnchecked,
        name_at(p, 0) == Some("result"@) && name_at(p, 2) == Some("map_err"@)
            ==> known_name_of(crate_name, p) == KnownNames::StdResultMapErr,
        name_at(p, 0) == Some("convert"@) && name_at(p, 2) == Some("into"@)
            ==> known_name_of(crate_name, p) == KnownNames::StdConvertInto,
        name_at(p, 0) == Some("thread"@) && disambiguator_at(p, 1) == Some(0u32) && name_at(p, 2) == Some("spawn_unchecked"@)
            ==> known_name_of(crate_name, p) == KnownNames::StdThreadBuilderSpawnUnchecked,
        name_at(p, 0) == Some("raw_vec"@) && name_at(p, 2) == Some("allocate_in"@)
            ==> known_name_of(crate_name, p) == KnownNames::AllocRawVecAllocateIn,
{
    reveal_strlit("core");
    reveal_strlit("std");
    reveal_strlit("alloc");
    reveal_strlit("clone");
    reveal_strlit("future");
    reveal_strlit("intrinsics");
    reveal_strlit("marker");
    reveal_strlit("mem");
    reveal_strlit("ops");
    reveal_strlit("panicking");
    reveal_strlit("ptr");
    reveal_strlit("raw_vec");
    reveal_strlit("result");
    reveal_strlit("rt");
    reveal_strlit("slice");
    reveal_strlit("sync");
    reveal_strlit("thread");
    reveal_strlit("convert");
    reveal_strlit("swap_nonoverlapping");
    reveal_strlit("mut_ptr");
    reveal_strlit("const_ptr");
    reveal_strlit("non_null");
    reveal_strlit("unique");
    reveal_strlit("as_ptr");
    reveal_strlit("new_unchecked");
    reveal_strlit("map_err");
    reveal_strlit("into");
    reveal_strlit("spawn_unchecked");
    reveal_strlit("MIN_NON_ZERO_CAP");
    reveal_strlit("allocate_in");
    assert("alloc"@.len() == 5 && "alloc"@[0] == 'a');
    assert("clone"@.len() == 5 && "clone"@[0] == 'c');
    assert("future"@.len() == 6 && "future"@[0] == 'f');
    assert("intrinsics"@.len() == 10 && "intrinsics"@[0] == 'i');
    assert("marker"@.len() == 6 && "marker"@[0] == 'm');
    assert("mem"@.len() == 3 && "mem"@[0] == 'm');
    assert("ops"@.len() == 3 && "ops"@[0] == 'o');
    assert("panicking"@.len() == 9 && "panicking"@[0] == 'p');
    assert("ptr"@.len() == 3 && "ptr"@[0] == 'p');
    assert("raw_vec"@.len() == 7 && "raw_vec"@[0] == 'r');
    assert("result"@.len() == 6 && "result"@[0] == 'r');
    assert("rt"@.len() == 2 && "rt"@[0] == 'r');
    assert("slice"@.len() == 5 && "slice"@[0] == 's');
    assert("sync"@.len() == 4 && "sync"@[0] == 's');
    assert("thread"@.len() == 6 && "thread"@[0] == 't');
    assert("convert"@.len() == 7 && "convert"@[0] == 'c');
    assert("swap_nonoverlapping"@.len() == 19 && "swap_nonoverlapping"@[0] == 's');
    assert("mut_ptr"@.len() == 7 && "mut_ptr"@[0] == 'm');
    assert("const_ptr"@.len() == 9 && "const_ptr"@[0] == 'c');
    assert("non_null"@.len() == 8 && "non_null"@[0] == 'n');
    assert("unique"@.len() == 6 && "unique"@[0] == 'u');
    assert("as_ptr"@.len() == 6 && "as_ptr"@[0] == 'a');
    assert("new_unchecked"@.len() == 13 && "new_unchecked"@[0] == 'n');
    assert("map_err"@.len() == 7 && "map_err"@[0] == 'm');
    assert("into"@.len() == 4 && "into"@[0] == 'i');
    assert("spawn_unchecked"@.len() == 15 && "spawn_unchecked"@[0] == 's');
    assert("MIN_NON_ZERO_CAP"@.len() == 16 && "MIN_NON_ZERO_CAP"@[0] == 'M');
    assert("allocate_in"@.len() == 11 && "allocate_in"@[0] == 'a');
}

/// In a standard crate, the functions of `alloc::alloc` are recognized by their
/// names, and each gets a known name of its own: `dealloc` is the deallocation
/// function and nothing else is, `realloc` the reallocation function and nothing
/// else is, and so on for `alloc`, `alloc_zeroed`, `exchange_malloc`,
/// `handle_alloc_error` and `box_free`.
pub proof fn law_alloc_fns_recognized(crate_name: Seq<char>, p: Seq<PathElem>, n: Seq<char>)
    requires
        crate_name == "alloc"@ || crate_name == "core"@ || crate_name == "std"@,
        name_at(p, 0) == Some("alloc"@),
        !is_foreign_at(p, 1),
        name_at(p, 1) == Some(n),
    ensures
        (known_name_of(crate_name, p) == KnownNames::StdAllocAlloc) <==> n == "alloc"@,
        (known_name_of(crate_name, p) == KnownNames::StdAllocAllocZeroed) <==> n == "alloc_zeroed"@,
        (known_name_of(crate_name, p) == KnownNames::StdAllocDealloc) <==> n == "dealloc"@,
        (known_name_of(crate_name, p) == KnownNames::StdAllocRealloc) <==> n == "realloc"@,
        (known_name_of(crate_name, p) == KnownNames::StdAllocExchangeMalloc) <==> n == "exchange_malloc"@,
        (known_name_of(crate_name, p) == KnownNames::StdAllocHandleAllocError) <==> n == "handle_alloc_error"@,
        (known_name_of(crate_name, p) == KnownNames::StdAllocBoxFree) <==> n == "box_free"@,
{
    reveal_strlit("alloc");
    reveal_strlit("core");
    reveal_strlit("std");
    reveal_strlit("Allocator");
    lemma_alloc_namespace_reached(crate_name, p);
    if n == "Allocator"@ {
        assert(known_name_of(crate_name, p) == table_at(p, 2, |m: Seq<char>| alloc_allocator_table(m)));
    } else {
        assert(known_name_of(crate_name, p) == alloc_fns_table(n));
    }
    reveal_strlit("alloc_zeroed");
    reveal_strlit("dealloc");
    reveal_strlit("realloc");
    reveal_strlit("exchange_malloc");
    reveal_strlit("handle_alloc_error");
    reveal_strlit("box_free");
    assert("alloc"@.len() == 5 && "Allocator"@.len() == 9 && "alloc_zeroed"@.len() == 12);
    assert("dealloc"@.len() == 7 && "realloc"@.len() == 7 && "dealloc"@[0] != "realloc"@[0]);
    assert("exchange_malloc"@.len() == 15 && "handle_alloc_error"@.len() == 18 && "box_free"@.len() == 8);
}

/// In a standard crate, the allocator functions of the foreign module of `alloc`
/// are recognized by their names, each with a known name of its own.
pub proof fn law_alloc_foreign_fns_recognized(crate_name: Seq<char>, p: Seq<PathElem>, n: Seq<char>)
    requires
        crate_name == "alloc"@ || crate_name == "core"@ || crate_name == "std"@,
        name_at(p, 0) == Some("alloc"@),
        is_foreign_at(p, 1),
        name_at(p, 2) == Some(n),
    ensures
        (known_name_of(crate_name, p) == KnownNames::RustAlloc) <==> n == "__rust_alloc"@,
        (known_name_of(crate_name, p) == KnownNames::RustAllocZeroed) <==> n == "__rust_alloc_zeroed"@,
        (known_name_of(crate_name, p) == KnownNames::RustDealloc) <==> n == "__rust_dealloc"@,
        (known_name_of(crate_name, p) == KnownNames::RustRealloc) <==> n == "__rust_realloc"@,
        (known_name_of(crate_name, p) == KnownNames::RustAllocErrorHandler) <==> n == "__rust_alloc_error_handler"@,
{
    reveal_strlit("alloc");
    reveal_strlit("core");
    reveal_strlit("std");
    lemma_alloc_namespace_reached(crate_name, p);
    assert(known_name_of(crate_name, p) == alloc_foreign_table(n));
    reveal_strlit("__rust_alloc");
    reveal_strlit("__rust_alloc_zeroed");
    reveal_strlit("__rust_dealloc");
    reveal_strlit("__rust_realloc");
    reveal_strlit("__rust_alloc_error_handler");
    assert("__rust_alloc"@.len() == 12 && "__rust_alloc_zeroed"@.len() == 19);
    assert("__rust_dealloc"@.len() == 14 && "__rust_realloc"@.len() == 14 && "__rust_dealloc"@[7] != "__rust_realloc"@[7]);
    assert("__rust_alloc_error_handler"@.len() == 26);
}

/// In a standard crate, the methods of the `Allocator` trait are recognized by
/// their names, each with a known name of its own.
pub proof fn law_allocator_methods_recognized(crate_name: Seq<char>, p: Seq<PathElem>, n: Seq<char>)
    requires
        crate_name == "alloc"@ || crate_name == "core"@ || crate_name == "std"@,
        name_at(p, 0) == Some("alloc"@),
        !is_foreign_at(p, 1),
        name_at(p, 1) == Some("Allocator"@),
        name_at(p, 2) == Some(n),
    ensures
        (known_name_of(crate_name, p) == KnownNames::StdAllocAllocatorAllocate) <==> n == "allocate"@,
        (known_name_of(crate_name, p) == KnownNames::StdAllocAllocatorAllocateZeroed) <==> n == "allocate_zeroed"@,
        (known_name_of(crate_name, p) == KnownNames::StdAllocAllocatorDeallocate) <==> n == "deallocate"@,
        (known_name_of(crate_name, p) == KnownNames::StdAllocAllocatorGrow) <==> n == "grow"@,
        (known_name_of(crate_name, p) == KnownNames::StdAllocAllocatorGrowZeroed) <==> n == "grow_zeroed"@,
        (known_name_of(crate_name, p) == KnownNames::StdAllocAllocatorShrink) <==> n == "shrink"@,
{
    reveal_strlit("alloc");
    reveal_strlit("core");
    reveal_strlit("std");
    reveal_strlit("Allocator");
    lemma_alloc_namespace_reached(crate_name, p);
    assert(known_name_of(crate_name, p) == alloc_allocator_table(n));
    reveal_strlit("allocate");
    reveal_strlit("allocate_zeroed");
    reveal_strlit("deallocate");
    reveal_strlit("grow");
    reveal_strlit("grow_zeroed");
    reveal_strlit("shrink");
    assert("allocate"@.len() == 8 && "allocate_zeroed"@.len() == 15 && "deallocate"@.len() == 10);
    assert("grow"@.len() == 4 && "grow_zeroed"@.len() == 11 && "shrink"@.len() == 6);
}

/// In a standard crate, the methods of the `Clone` trait and of the `Fn`, `FnMut`
/// and `FnOnce` traits are recognized by their paths, each with a known name of
/// its own.
pub proof fn law_trait_methods_recognized(crate_name: Seq<char>, p: Seq<PathElem>)
    requires
        crate_name == "alloc"@ || crate_name == "core"@ || crate_name == "std"@,
    ensures
        name_at(p, 0) == Some("clone"@) && name_at(p, 1) == Some("Clone"@) && name_at(p, 2) == Some("clone"@)
            ==> known_name_of(crate_name, p) == KnownNames::StdCloneClone,
        name_at(p, 0) == Some("ops"@) && name_at(p, 1) == Some("function"@) && name_at(p, 2) == Some("Fn"@) && name_at(p, 3) == Some("call"@)
            ==> known_name_of(crate_name, p) == KnownNames::StdOpsFunctionFnCall,
        name_at(p, 0) == Some("ops"@) && name_at(p, 1) == Some("function"@) && name_at(p, 2) == Some("Fn"@) && name_at(p, 3) == Some("call_mut"@)
            ==> known_name_of(crate_name, p) == KnownNames::StdOpsFunctionFnMutCallMut,
        name_at(p, 0) == Some("ops"@) && name_at(p, 1) == Some("function"@) && name_at(p, 2) == Some("Fn"@) && name_at(p, 3) == Some("call_once"@)
            ==> known_name_of(crate_name, p) == KnownNames::StdOpsFunctionFnOnceCallOnce,
        name_at(p, 0) == Some("ops"@) && name_at(p, 1) == Some("function"@) && name_at(p, 2) == Some("FnMut"@) && name_at(p, 3) == Some("call"@)
            ==> known_name_of(crate_name, p) == KnownNames::StdOpsFunctionFnCall,
        name_at(p, 0) == Some("ops"@) && name_at(p, 1) == Some("function"@) && name_at(p, 2) == Some("FnMut"@) && name_at(p, 3) == Some("call_mut"@)
            ==> known_name_of(crate_name, p) == KnownNames::StdOpsFunctionFnMutCallMut,
        name_at(p, 0) == Some("ops"@) && name_at(p, 1) == Some("function"@) && name_at(p, 2) == Some("FnMut"@) && name_at(p, 3) == Some("call_once"@)
            ==> known_name_of(crate_name, p) == KnownNames::StdOpsFunctionFnOnceCallOnce,
        name_at(p, 0) == Some("ops"@) && name_at(p, 1) == Some("function"@) && name_at(p, 2) == Some("FnOnce"@) && name_at(p, 3) == Some("call"@)
            ==> known_name_of(crate_name, p) == KnownNames::StdOpsFunctionFnCall,
        name_at(p, 0) == Some("ops"@) && name_at(p, 1) == Some("function"@) && name_at(p, 2) == Some("FnOnce"@) && name_at(p, 3) == Some("call_mut"@)
            ==> known_name_of(crate_name, p) == KnownNames::StdOpsFunctionFnMutCallMut,
        name_at(p, 0) == Some("ops"@) && name_at(p, 1) == Some("function"@) && name_at(p, 2) == Some("FnOnce"@) && name_at(p, 3) == Some("call_once"@)
            ==> known_name_of(crate_name, p) == KnownNames::StdOpsFunctionFnOnceCallOnce,
{
    reveal_strlit("core");
    reveal_strlit("std");
    reveal_strlit("alloc");
    reveal_strlit("clone");
    reveal_strlit("future");
    reveal_strlit("intrinsics");
    reveal_strlit("marker");
    reveal_strlit("mem");
    reveal_strlit("ops");
    reveal_strlit("panicking");
    reveal_strlit("ptr");
    reveal_strlit("raw_vec");
    reveal_strlit("result");
    reveal_strlit("rt");
    reveal_strlit("slice");
    reveal_strlit("sync");
    reveal_strlit("thread");
    reveal_strlit("convert");
    reveal_strlit("Clone");
    reveal_strlit("function");
    reveal_strlit("Fn");
    reveal_strlit("FnMut");
    reveal_strlit("FnOnce");
    reveal_strlit("call");
    reveal_strlit("call_mut");
    reveal_strlit("call_once");
    reveal_strlit("call_once_force");
    assert("alloc"@.len() == 5 && "alloc"@[0] == 'a');
    assert("clone"@.len() == 5 && "clone"@[0] == 'c');
    assert("future"@.len() == 6 && "future"@[0] == 'f');
    assert("intrinsics"@.len() == 10 && "intrinsics"@[0] == 'i');
    assert("marker"@.len() == 6 && "marker"@[0] == 'm');
    assert("mem"@.len() == 3 && "mem"@[0] == 'm');
    assert("ops"@.len() == 3 && "ops"@[0] == 'o');
    assert("panicking"@.len() == 9 && "panicking"@[0] == 'p');
    assert("ptr"@.len() == 3 && "ptr"@[0] == 'p');
    assert("raw_vec"@.len() == 7 && "raw_vec"@[0] == 'r');
    assert("result"@.len() == 6 && "result"@[0] == 'r');
    assert("rt"@.len() == 2 && "rt"@[0] == 'r');
    assert("slice"@.len() == 5 && "slice"@[0] == 's');
    assert("sync"@.len() == 4 && "sync"@[0] == 's');
    assert("thread"@.len() == 6 && "thread"@[0] == 't');
    assert("convert"@.len() == 7 && "convert"@[0] == 'c');
    assert("Clone"@.len() == 5 && "Clone"@[0] == 'C');
    assert("function"@.len() == 8 && "function"@[0] == 'f');
    assert("Fn"@.len() == 2 && "Fn"@[0] == 'F');
    assert("FnMut"@.len() == 5 && "FnMut"@[0] == 'F');
    assert("FnOnce"@.len() == 6 && "FnOnce"@[0] == 'F');
    assert("call"@.len() == 4 && "call"@[0] == 'c');
    assert("call_mut"@.len() == 8 && "call_mut"@[0] == 'c');
    assert("call_once"@.len() == 9 && "call_once"@[0] == 'c');
    assert("call_once_force"@.len() == 15 && "call_once_force"@[0] == 'c');
}

/// In a standard crate, the panicking functions of `panicking` and `rt`,
/// `mem::replace`, `marker::PhantomData` and `future::from_generator` are
/// recognized by their paths.
pub proof fn law_runtime_fns_recognized(crate_name: Seq<char>, p: Seq<PathElem>)
    requires
        crate_name == "alloc"@ || crate_name == "core"@ || crate_name == "std"@,
    ensures
        name_at(p, 0) == Some("panicking"@) && name_at(p, 1) == Some("assert_failed"@)
            ==> known_name_of(crate_name, p) == KnownNames::StdPanickingAssertFailed,
        name_at(p, 0) == Some("panicking"@) && name_at(p, 1) == Some("begin_panic"@)
            ==> known_name_of(crate_name, p) == KnownNames::StdPanickingBeginPanic,
        name_at(p, 0) == Some("panicking"@) && name_at(p, 1) == Some("panic"@)
            ==> known_name_of(crate_name, p) == KnownNames::StdPanickingBeginPanic,
        name_at(p, 0) == Some("panicking"@) && name_at(p, 1) == Some("begin_panic_fmt"@)
            ==> known_name_of(crate_name, p) == KnownNames::StdPanickingBeginPanicFmt,
        name_at(p, 0) == Some("panicking"@) && name_at(p, 1) == Some("panic_fmt"@)
            ==> known_name_of(crate_name, p) == KnownNames::StdPanickingBeginPanicFmt,
        name_at(p, 0) == Some("rt"@) && name_at(p, 1) == Some("assert_failed"@)
            ==> known_name_of(crate_name, p) == KnownNames::StdPanickingAssertFailed,
        name_at(p, 0) == Some("rt"@) && name_at(p, 1) == Some("begin_panic"@)
            ==> known_name_of(crate_name, p) == KnownNames::StdPanickingBeginPanic,
        name_at(p, 0) == Some("rt"@) && name_at(p, 1) == Some("panic"@)
            ==> known_name_of(crate_name, p) == KnownNames::StdPanickingBeginPanic,
        name_at(p, 0) == Some("rt"@) && name_at(p, 1) == Some("begin_panic_fmt"@)
            ==> known_name_of(crate_name, p) == KnownNames::StdPanickingBeginPanicFmt,
        name_at(p, 0) == Some("rt"@) && name_at(p, 1) == Some("panic_fmt"@)
            ==> known_name_of(crate_name, p) == KnownNames::StdPanickingBeginPanicFmt,
        name_at(p, 0) == Some("mem"@) && name_at(p, 1) == Some("replace"@)
            ==> known_name_of(crate_name, p) == KnownNames::StdMemReplace,
        name_at(p, 0) == Some("marker"@) && name_at(p, 1) == Some("PhantomData"@)
            ==> known_name_of(crate_name, p) == KnownNames::StdMarkerPhantomData,
        name_at(p, 0) == Some("future"@) && name_at(p, 1) == Some("from_generator"@)
            ==> known_name_of(crate_name, p) == KnownNames::StdFutureFromGenerator,
{
    reveal_strlit("core");
    reveal_strlit("std");
    reveal_strlit("alloc");
    reveal_strlit("clone");
    reveal_strlit("future");
    reveal_strlit("intrinsics");
    reveal_strlit("marker");
    reveal_strlit("mem");
    reveal_strlit("ops");
    reveal_strlit("panicking");
    reveal_strlit("ptr");
    reveal_strlit("raw_vec");
    reveal_strlit("result");
    reveal_strlit("rt");
    reveal_strlit("slice");
    reveal_strlit("sync");
    reveal_strlit("thread");
    reveal_strlit("convert");
    reveal_strlit("assert_failed");
    reveal_strlit("begin_panic");
    reveal_strlit("panic");
    reveal_strlit("begin_panic_fmt");
    reveal_strlit("panic_fmt");
    reveal_strlit("replace");
    reveal_strlit("PhantomData");
    reveal_strlit("from_generator");
    assert("alloc"@.len() == 5 && "alloc"@[0] == 'a');
    assert("clone"@.len() == 5 && "clone"@[0] == 'c');
    assert("future"@.len() == 6 && "future"@[0] == 'f');
    assert("intrinsics"@.len() == 10 && "intrinsics"@[0] == 'i');
    assert("marker"@.len() == 6 && "marker"@[0] == 'm');
    assert("mem"@.len() == 3 && "mem"@[0] == 'm');
    assert("ops"@.len() == 3 && "ops"@[0] == 'o');
    assert("panicking"@.len() == 9 && "panicking"@[0] == 'p');
    assert("ptr"@.len() == 3 && "ptr"@[0] == 'p');
    assert("raw_vec"@.len() == 7 && "raw_vec"@[0] == 'r');
    assert("result"@.len() == 6 && "result"@[0] == 'r');
    assert("rt"@.len() == 2 && "rt"@[0] == 'r');
    assert("slice"@.len() == 5 && "slice"@[0] == 's');
    assert("sync"@.len() == 4 && "sync"@[0] == 's');
    assert("thread"@.len() == 6 && "thread"@[0] == 't');
    assert("convert"@.len() == 7 && "convert"@[0] == 'c');
    assert("assert_failed"@.len() == 13 && "assert_failed"@[0] == 'a');
    assert("begin_panic"@.len() == 11 && "begin_panic"@[0] == 'b');
    assert("panic"@.len() == 5 && "panic"@[0] == 'p');
    assert("begin_panic_fmt"@.len() == 15 && "begin_panic_fmt"@[0] == 'b');
    assert("panic_fmt"@.len() == 9 && "panic_fmt"@[0] == 'p');
    assert("replace"@.len() == 7 && "replace"@[0] == 'r');
    assert("PhantomData"@.len() == 11 && "PhantomData"@[0] == 'P');
    assert("from_generator"@.len() == 14 && "from_generator"@[0] == 'f');
    assert("panicking"@[5] != "panic_fmt"@[5]);
    assert("raw_vec"@[1] != "replace"@[1]);
}

/// In a standard crate, the comparison and indexing functions of `slice`, the
/// methods of `Once`, the copying intrinsics, `ptr::swap_nonoverlapping`, the
/// other methods of `NonNull` and the second spawning method of the thread builder
/// are recognized by their paths.
pub proof fn law_library_fns_recognized(crate_name: Seq<char>, p: Seq<PathElem>)
    requires
        crate_name == "alloc"@ || crate_name == "core"@ || crate_name == "std"@,
    ensures
        name_at(p, 0) == Some("slice"@) && name_at(p, 1) == Some("cmp"@) && disambiguator_at(p, 2) == Some(0u32) && name_at(p, 3) == Some("memcmp"@)
            ==> known_name_of(crate_name, p) == KnownNames::StdSliceCmpMemcmp,
        name_at(p, 0) == Some("slice"@) && name_at(p, 1) == Some("index"@) && disambiguator_at(p, 2) == Some(0u32) && name_at(p, 3) == Some("index"@)
            ==> known_name_of(crate_name, p) == KnownNames::StdSliceIndexIndex,
        name_at(p, 0) == Some("slice"@) && name_at(p, 1) == Some("index"@) && disambiguator_at(p, 2) == Some(0u32) && name_at(p, 3) == Some("index_mut"@)
            ==> known_name_of(crate_name, p) == KnownNames::StdSliceIndexIndexMut,
        name_at(p, 0) == Some("sync"@) && name_at(p, 1) == Some("once"@) && disambiguator_at(p, 2) == Some(2u32) && name_at(p, 3) == Some("call_once"@)
            ==> known_name_of(crate_name, p) == KnownNames::StdOpsFunctionFnOnceCallOnce,
        name_at(p, 0) == Some("sync"@) && name_at(p, 1) == Some("once"@) && disambiguator_at(p, 2) == Some(2u32) && name_at(p, 3) == Some("call_once_force"@)
            ==> known_name_of(crate_name, p) == KnownNames::StdOpsFunctionFnOnceCallOnce,
        !is_foreign_at(p, 1) && name_at(p, 0) == Some("intrinsics"@) && disambiguator_at(p, 1) == Some(0u32) && name_at(p, 1) == Some("copy"@)
            ==> known_name_of(crate_name, p) == KnownNames::StdIntrinsicsCopy,
        !is_foreign_at(p, 1) && name_at(p, 0) == Some("intrinsics"@) && disambiguator_at(p, 1) == Some(0u32) && name_at(p, 1) == Some("copy_nonoverlapping"@)
            ==> known_name_of(crate_name, p) == KnownNames::StdIntrinsicsCopyNonOverlapping,
        !is_foreign_at(p, 1) && name_at(p, 0) == Some("intrinsics"@) && disambiguator_at(p, 1) == Some(0u32) && name_at(p, 1) == Some("write_bytes"@)
            ==> known_name_of(crate_name, p) == KnownNames::StdIntrinsicsWriteBytes,
        name_at(p, 0) == Some("ptr"@) && name_at(p, 1) == Some("swap_nonoverlapping"@)
            ==> known_name_of(crate_name, p) == KnownNames::StdPtrSwapNonOverlapping,
        name_at(p, 0) == Some("ptr"@) && name_at(p, 1) == Some("non_null"@) && name_at(p, 3) == Some("as_mut"@)
            ==> known_name_of(crate_name, p) == KnownNames::StdPtrNonNullAsMut,
        name_at(p, 0) == Some("ptr"@) && name_at(p, 1) == Some("non_null"@) && name_at(p, 3) == Some("as_ref"@)
            ==> known_name_of(crate_name, p) == KnownNames::StdPtrNonNullAsRef,
        name_at(p, 0) == Some("ptr"@) && name_at(p, 1) == Some("non_null"@) && name_at(p, 3) == Some("cast"@)
            ==> known_name_of(crate_name, p) == KnownNames::StdPtrNonNullCast,
        name_at(p, 0) == Some("thread"@) && disambiguator_at(p, 1) == Some(0u32) && name_at(p, 2) == Some("spawn_unchecked_"@)
            ==> known_name_of(crate_name, p) == KnownNames::StdThreadBuilderSpawnUnchecked_,
{
    reveal_strlit("core");
    reveal_strlit("std");
    reveal_strlit("alloc");
    reveal_strlit("clone");
    reveal_strlit("future");
    reveal_strlit("intrinsics");
    reveal_strlit("marker");
    reveal_strlit("mem");
    reveal_strlit("ops");
    reveal_strlit("panicking");
    reveal_strlit("ptr");
    reveal_strlit("raw_vec");
    reveal_strlit("result");
    reveal_strlit("rt");
    reveal_strlit("slice");
    reveal_strlit("sync");
    reveal_strlit("thread");
    reveal_strlit("convert");
    reveal_strlit("cmp");
    reveal_strlit("memcmp");
    reveal_strlit("index");
    reveal_strlit("index_mut");
    reveal_strlit("once");
    reveal_strlit("call_once");
    reveal_strlit("call_once_force");
    reveal_strlit("copy");
    reveal_strlit("copy_nonoverlapping");
    reveal_strlit("write_bytes");
    reveal_strlit("swap_nonoverlapping");
    reveal_strlit("mut_ptr");
    reveal_strlit("const_ptr");
    reveal_strlit("non_null");
    reveal_strlit("as_ptr");
    reveal_strlit("as_mut");
    reveal_strlit("as_ref");
    reveal_strlit("cast");
    reveal_strlit("spawn_unchecked");
    reveal_strlit("spawn_unchecked_");
    assert("alloc"@.len() == 5 && "alloc"@[0] == 'a');
    assert("clone"@.len() == 5 && "clone"@[0] == 'c');
    assert("future"@.len() == 6 && "future"@[0] == 'f');
    assert("intrinsics"@.len() == 10 && "intrinsics"@[0] == 'i');
    assert("marker"@.len() == 6 && "marker"@[0] == 'm');
    assert("mem"@.len() == 3 && "mem"@[0] == 'm');
    assert("ops"@.len() == 3 && "ops"@[0] == 'o');
    assert("panicking"@.len() == 9 && "panicking"@[0] == 'p');
    assert("ptr"@.len() == 3 && "ptr"@[0] == 'p');
    assert("raw_vec"@.len() == 7 && "raw_vec"@[0] == 'r');
    assert("result"@.len() == 6 && "result"@[0] == 'r');
    assert("rt"@.len() == 2 && "rt"@[0] == 'r');
    assert("slice"@.len() == 5 && "slice"@[0] == 's');
    assert("sync"@.len() == 4 && "sync"@[0] == 's');
    assert("thread"@.len() == 6 && "thread"@[0] == 't');
    assert("convert"@.len() == 7 && "convert"@[0] == 'c');
    assert("cmp"@.len() == 3 && "cmp"@[0] == 'c');
    assert("memcmp"@.len() == 6 && "memcmp"@[0] == 'm');
    assert("index"@.len() == 5 && "index"@[0] == 'i');
    assert("index_mut"@.len() == 9 && "index_mut"@[0] == 'i');
    assert("once"@.len() == 4 && "once"@[0] == 'o');
    assert("call_once"@.len() == 9 && "call_once"@[0] == 'c');
    assert("call_once_force"@.len() == 15 && "call_once_force"@[0] == 'c');
    assert("copy"@.len() == 4 && "copy"@[0] == 'c');
    assert("copy_nonoverlapping"@.len() == 19 && "copy_nonoverlapping"@[0] == 'c');
    assert("write_bytes"@.len() == 11 && "write_bytes"@[0] == 'w');
    assert("swap_nonoverlapping"@.len() == 19 && "swap_nonoverlapping"@[0] == 's');
    assert("mut_ptr"@.len() == 7 && "mut_ptr"@[0] == 'm');
    assert("const_ptr"@.len() == 9 && "const_ptr"@[0] == 'c');
    assert("non_null"@.len() == 8 && "non_null"@[0] == 'n');
    assert("as_ptr"@.len() == 6 && "as_ptr"@[0] == 'a');
    assert("as_mut"@.len() == 6 && "as_mut"@[0] == 'a');
    assert("as_ref"@.len() == 6 && "as_ref"@[0] == 'a');
    assert("cast"@.len() == 4 && "cast"@[0] == 'c');
    assert("spawn_unchecked"@.len() == 15 && "spawn_unchecked"@[0] == 's');
    assert("spawn_unchecked_"@.len() == 16 && "spawn_unchecked_"@[0] == 's');
    assert("marker"@[1] != "memcmp"@[1]);
    assert("call_once"@[1] != "const_ptr"@[1]);
    assert("copy"@[1] != "cast"@[1]);
    assert("as_ptr"@[3] != "as_mut"@[3]);
    assert("as_ptr"@[3] != "as_ref"@[3]);
    assert("as_mut"@[3] != "as_ref"@[3]);
}

/// In a standard crate, the items of `RawVec` are recognized by their paths: its
/// minimal capacity, its buffer functions, and its growing and shrinking
/// functions outside its first implementation block.
pub proof fn law_raw_vec_fns_recognized(crate_name: Seq<char>, p: Seq<PathElem>)
    requires
        crate_name == "alloc"@ || crate_name == "core"@ || crate_name == "std"@,
    ensures
        name_at(p, 0) == Some("raw_vec"@) && disambiguator_at(p, 1) == Some(1u32) && name_at(p, 2) == Some("MIN_NON_ZERO_CAP"@)
            ==> known_name_of(crate_name, p) == KnownNames::AllocRawVecMinNonZeroCap,
        name_at(p, 0) == Some("raw_vec"@) && name_at(p, 2) == Some("current_memory"@)
            ==> known_name_of(crate_name, p) == KnownNames::AllocRawVecCurrnetMemory,
        name_at(p, 0) == Some("raw_vec"@) && disambiguator_at(p, 1) != Some(1u32) && name_at(p, 2) == Some("grow_amortized"@)
            ==> known_name_of(crate_name, p) == KnownNames::AllocRawVecGrowAmortized,
        name_at(p, 0) == Some("raw_vec"@) && disambiguator_at(p, 1) != Some(1u32) && name_at(p, 2) == Some("grow_exact"@)
            ==> known_name_of(crate_name, p) == KnownNames::AllocRawVecGrowExact,
        name_at(p, 0) == Some("raw_vec"@) && disambiguator_at(p, 1) != Some(1u32) && name_at(p, 2) == Some("finish_grow"@)
            ==> known_name_of(crate_name, p) == KnownNames::AllocRawVecFinishGrow,
        name_at(p, 0) == Some("raw_vec"@) && disambiguator_at(p, 1) != Some(1u32) && name_at(p, 2) == Some("shrink"@)
            ==> known_name_of(crate_name, p) == KnownNames::AllocRawVecShrink,
{
    reveal_strlit("core");
    reveal_strlit("std");
    reveal_strlit("alloc");
    reveal_strlit("clone");
    reveal_strlit("future");
    reveal_strlit("intrinsics");
    reveal_strlit("marker");
    reveal_strlit("mem");
    reveal_strlit("ops");
    reveal_strlit("panicking");
    reveal_strlit("ptr");
    reveal_strlit("raw_vec");
    reveal_strlit("result");
    reveal_strlit("rt");
    reveal_strlit("slice");
    reveal_strlit("sync");
    reveal_strlit("thread");
    reveal_strlit("convert");
    reveal_strlit("MIN_NON_ZERO_CAP");
    reveal_strlit("allocate_in");
    reveal_strlit("current_memory");
    reveal_strlit("grow_amortized");
    reveal_strlit("grow_exact");
    reveal_strlit("finish_grow");
    reveal_strlit("shrink");
    assert("alloc"@.len() == 5 && "alloc"@[0] == 'a');
    assert("clone"@.len() == 5 && "clone"@[0] == 'c');
    assert("future"@.len() == 6 && "future"@[0] == 'f');
    assert("intrinsics"@.len() == 10 && "intrinsics"@[0] == 'i');
    assert("marker"@.len() == 6 && "marker"@[0] == 'm');
    assert("mem"@.len() == 3 && "mem"@[0] == 'm');
    assert("ops"@.len() == 3 && "ops"@[0] == 'o');
    assert("panicking"@.len() == 9 && "panicking"@[0] == 'p');
    assert("ptr"@.len() == 3 && "ptr"@[0] == 'p');
    assert("raw_vec"@.len() == 7 && "raw_vec"@[0] == 'r');
    assert("result"@.len() == 6 && "result"@[0] == 'r');
    assert("rt"@.len() == 2 && "rt"@[0] == 'r');
    assert("slice"@.len() == 5 && "slice"@[0] == 's');
    assert("sync"@.len() == 4 && "sync"@[0] == 's');
    assert("thread"@.len() == 6 && "thread"@[0] == 't');
    assert("convert"@.len() == 7 && "convert"@[0] == 'c');
    assert("MIN_NON_ZERO_CAP"@.len() == 16 && "MIN_NON_ZERO_CAP"@[0] == 'M');
    assert("allocate_in"@.len() == 11 && "allocate_in"@[0] == 'a');
    assert("current_memory"@.len() == 14 && "current_memory"@[0] == 'c');
    assert("grow_amortized"@.len() == 14 && "grow_amortized"@[0] == 'g');
    assert("grow_exact"@.len() == 10 && "grow_exact"@[0] == 'g');
    assert("finish_grow"@.len() == 11 && "finish_grow"@[0] == 'f');
    assert("shrink"@.len() == 6 && "shrink"@[0] == 's');
}

} // verus!
