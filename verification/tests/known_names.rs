use std::cell::Cell;

use rupta::mir::function::DefId;
use rupta::mir::known_names::{get_known_name_for, KnownNames, KnownNamesCache, PathData, PathElem};

fn ty(name: &str) -> PathElem {
    PathElem { data: PathData::TypeNs(name.to_string()), disambiguator: 0 }
}

fn val(name: &str) -> PathElem {
    PathElem { data: PathData::ValueNs(name.to_string()), disambiguator: 0 }
}

fn with_disambiguator(mut e: PathElem, d: u32) -> PathElem {
    e.disambiguator = d;
    e
}

fn foreign() -> PathElem {
    PathElem { data: PathData::ForeignMod, disambiguator: 0 }
}

fn other() -> PathElem {
    PathElem { data: PathData::Other, disambiguator: 0 }
}

#[test]
fn only_standard_crates_have_known_names() {
    let path = vec![ty("mem"), val("replace")];
    assert_eq!(get_known_name_for("core", &path), KnownNames::StdMemReplace);
    assert_eq!(get_known_name_for("std", &path), KnownNames::StdMemReplace);
    assert_eq!(get_known_name_for("alloc", &path), KnownNames::StdMemReplace);
    assert_eq!(get_known_name_for("mycrate", &path), KnownNames::NotKnown);
}

#[test]
fn alloc_namespace_names() {
    assert_eq!(get_known_name_for("alloc", &vec![ty("alloc"), val("alloc")]), KnownNames::StdAllocAlloc);
    assert_eq!(get_known_name_for("alloc", &vec![ty("alloc"), val("box_free")]), KnownNames::StdAllocBoxFree);
    assert_eq!(
        get_known_name_for("alloc", &vec![ty("alloc"), foreign(), val("__rust_dealloc")]),
        KnownNames::RustDealloc
    );
    assert_eq!(
        get_known_name_for("alloc", &vec![ty("alloc"), foreign(), val("__rust_alloc")]),
        KnownNames::RustAlloc
    );
    assert_eq!(
        get_known_name_for("alloc", &vec![ty("alloc"), foreign(), val("RawVec")]),
        KnownNames::NotKnown
    );
    assert_eq!(
        get_known_name_for("core", &vec![ty("alloc"), ty("Allocator"), val("grow_zeroed")]),
        KnownNames::StdAllocAllocatorGrowZeroed
    );
    assert_eq!(get_known_name_for("core", &vec![ty("alloc"), ty("Allocator")]), KnownNames::NotKnown);
}

#[test]
fn intrinsics_need_disambiguator_zero() {
    let foreign_path = vec![ty("intrinsics"), foreign(), val("size_of")];
    assert_eq!(get_known_name_for("core", &foreign_path), KnownNames::StdIntrinsicsSizeOf);
    let local = vec![ty("intrinsics"), val("copy_nonoverlapping")];
    assert_eq!(get_known_name_for("core", &local), KnownNames::StdIntrinsicsCopyNonOverlapping);
    let other_disambiguator = vec![ty("intrinsics"), with_disambiguator(val("copy"), 1)];
    assert_eq!(get_known_name_for("core", &other_disambiguator), KnownNames::NotKnown);
    // rounding intrinsics are treated as their `rint` counterparts
    let round = vec![ty("intrinsics"), foreign(), val("roundf64")];
    assert_eq!(get_known_name_for("core", &round), KnownNames::StdIntrinsicsRintf64);
    let cmp = vec![ty("intrinsics"), foreign(), val("compare_bytes")];
    assert_eq!(get_known_name_for("core", &cmp), KnownNames::StdSliceCmpMemcmp);
}

#[test]
fn fn_trait_calls() {
    for t in ["Fn", "FnMut", "FnOnce"] {
        let path = vec![ty("ops"), ty("function"), ty(t), val("call_once")];
        assert_eq!(get_known_name_for("core", &path), KnownNames::StdOpsFunctionFnOnceCallOnce);
    }
    let call = vec![ty("ops"), ty("function"), ty("Fn"), val("call")];
    assert_eq!(get_known_name_for("core", &call), KnownNames::StdOpsFunctionFnCall);
    let bad = vec![ty("ops"), ty("function"), ty("Clone"), val("call")];
    assert_eq!(get_known_name_for("core", &bad), KnownNames::NotKnown);
}

#[test]
fn pointer_methods() {
    let mut_add = vec![ty("ptr"), ty("mut_ptr"), other(), val("wrapping_byte_add")];
    assert_eq!(get_known_name_for("core", &mut_add), KnownNames::StdPtrMutPtrWrappingByteAdd);
    let const_cast = vec![ty("ptr"), ty("const_ptr"), other(), val("cast")];
    assert_eq!(get_known_name_for("core", &const_cast), KnownNames::StdPtrConstPtrCast);
    let impl_one = vec![ty("ptr"), ty("const_ptr"), with_disambiguator(other(), 1), val("cast")];
    assert_eq!(get_known_name_for("core", &impl_one), KnownNames::NotKnown);
    let non_null = vec![ty("ptr"), ty("non_null"), with_disambiguator(other(), 5), val("as_ref")];
    assert_eq!(get_known_name_for("core", &non_null), KnownNames::StdPtrNonNullAsRef);
    let unique = vec![ty("ptr"), ty("unique"), other(), val("new_unchecked")];
    assert_eq!(get_known_name_for("core", &unique), KnownNames::StdPtrUniqueNewUnchecked);
    let swap = vec![ty("ptr"), val("swap_nonoverlapping")];
    assert_eq!(get_known_name_for("core", &swap), KnownNames::StdPtrSwapNonOverlapping);
}

#[test]
fn raw_vec_slice_sync_thread_result_convert() {
    let min_cap = vec![ty("raw_vec"), with_disambiguator(other(), 1), val("MIN_NON_ZERO_CAP")];
    assert_eq!(get_known_name_for("alloc", &min_cap), KnownNames::AllocRawVecMinNonZeroCap);
    let grow = vec![ty("raw_vec"), other(), val("grow_exact")];
    assert_eq!(get_known_name_for("alloc", &grow), KnownNames::AllocRawVecGrowExact);
    let index = vec![ty("slice"), ty("index"), other(), val("index_mut")];
    assert_eq!(get_known_name_for("core", &index), KnownNames::StdSliceIndexIndexMut);
    let memcmp = vec![ty("slice"), ty("cmp"), other(), val("memcmp")];
    assert_eq!(get_known_name_for("core", &memcmp), KnownNames::StdSliceCmpMemcmp);
    let once = vec![ty("sync"), ty("once"), with_disambiguator(other(), 2), val("call_once_force")];
    assert_eq!(get_known_name_for("std", &once), KnownNames::StdOpsFunctionFnOnceCallOnce);
    let spawn = vec![ty("thread"), other(), val("spawn_unchecked_")];
    assert_eq!(get_known_name_for("std", &spawn), KnownNames::StdThreadBuilderSpawnUnchecked_);
    let map_err = vec![ty("result"), other(), val("map_err")];
    assert_eq!(get_known_name_for("core", &map_err), KnownNames::StdResultMapErr);
    let into = vec![ty("convert"), other(), val("into")];
    assert_eq!(get_known_name_for("core", &into), KnownNames::StdConvertInto);
    let panic = vec![ty("rt"), val("panic_fmt")];
    assert_eq!(get_known_name_for("std", &panic), KnownNames::StdPanickingBeginPanicFmt);
    let clone = vec![ty("clone"), ty("Clone"), val("clone")];
    assert_eq!(get_known_name_for("core", &clone), KnownNames::StdCloneClone);
    let phantom = vec![ty("marker"), ty("PhantomData")];
    assert_eq!(get_known_name_for("core", &phantom), KnownNames::StdMarkerPhantomData);
    let future = vec![ty("future"), val("from_generator")];
    assert_eq!(get_known_name_for("core", &future), KnownNames::StdFutureFromGenerator);
}

#[test]
fn unnamed_or_short_paths_are_not_known() {
    assert_eq!(get_known_name_for("core", &vec![]), KnownNames::NotKnown);
    assert_eq!(get_known_name_for("core", &vec![other(), val("replace")]), KnownNames::NotKnown);
    assert_eq!(get_known_name_for("core", &vec![ty("mem")]), KnownNames::NotKnown);
}

#[test]
fn names_are_worked_out_once() {
    let mut cache = KnownNamesCache::create_cache_from_language_items();
    let calls = Cell::new(0);
    let describe = |d: DefId| {
        calls.set(calls.get() + 1);
        if d.index == 1 {
            ("core".to_string(), vec![ty("mem"), val("replace")])
        } else {
            ("mine".to_string(), vec![ty("mem"), val("replace")])
        }
    };
    let swap = DefId { krate: 2, index: 1 };
    let other = DefId { krate: 5, index: 7 };
    assert_eq!(cache.get(swap, describe), KnownNames::StdMemReplace);
    assert_eq!(cache.get(other, describe), KnownNames::NotKnown);
    assert_eq!(calls.get(), 2);
    // the names found are given back without asking again
    assert_eq!(cache.get(swap, |_| ("std".to_string(), vec![])), KnownNames::StdMemReplace);
    assert_eq!(cache.get(other, describe), KnownNames::NotKnown);
    assert_eq!(calls.get(), 2);
}
