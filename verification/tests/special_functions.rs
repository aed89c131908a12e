use rupta::builder::special_function_handler::{
    is_specially_handled_function, is_specially_handled_name, special_handling, SpecialHandling,
};
use rupta::mir::function::DefId;
use rupta::mir::known_names::{KnownNames, KnownNamesCache, PathData, PathElem};

fn elem(name: &str) -> PathElem {
    PathElem { data: PathData::TypeNs(name.to_string()), disambiguator: 0 }
}

fn value(name: &str) -> PathElem {
    PathElem { data: PathData::ValueNs(name.to_string()), disambiguator: 0 }
}

#[test]
fn handlings_of_well_known_functions() {
    assert_eq!(special_handling(KnownNames::StdIntrinsicsTransmute), SpecialHandling::Transmute);
    assert_eq!(special_handling(KnownNames::StdPtrMutPtrWrappingByteOffset), SpecialHandling::Offset);
    assert_eq!(special_handling(KnownNames::StdPtrConstPtrCast), SpecialHandling::PtrCast);
    assert_eq!(special_handling(KnownNames::StdAllocExchangeMalloc), SpecialHandling::Alloc);
    assert_eq!(special_handling(KnownNames::StdAllocAllocatorAllocateZeroed), SpecialHandling::AllocatorAllocate);
    assert_eq!(special_handling(KnownNames::RustRealloc), SpecialHandling::Realloc);
    assert_eq!(special_handling(KnownNames::StdAllocAllocatorShrink), SpecialHandling::AllocatorResize);
    assert_eq!(special_handling(KnownNames::StdAllocBoxFree), SpecialHandling::Free);
    assert_eq!(special_handling(KnownNames::StdConvertInto), SpecialHandling::ConvertInto);
    assert_eq!(special_handling(KnownNames::StdMemReplace), SpecialHandling::NotSpecial);
    assert_eq!(special_handling(KnownNames::NotKnown), SpecialHandling::NotSpecial);
}

#[test]
fn specially_handled_names() {
    assert!(is_specially_handled_name(KnownNames::StdIntrinsicsArithOffset));
    assert!(is_specially_handled_name(KnownNames::StdAllocHandleAllocError));
    assert!(is_specially_handled_name(KnownNames::StdResultMapErr));
    assert!(!is_specially_handled_name(KnownNames::StdConvertInto));
    assert!(!is_specially_handled_name(KnownNames::StdPtrNonNullAsRef));
    assert!(!is_specially_handled_name(KnownNames::NotKnown));
}

#[test]
fn specially_handled_functions_by_definition() {
    let mut cache = KnownNamesCache::create_cache_from_language_items();
    let transmute = DefId { krate: 1, index: 1 };
    let replace = DefId { krate: 1, index: 2 };
    let describe = |d: DefId| {
        let path = if d.index == 1 {
            vec![elem("intrinsics"), PathElem { data: PathData::ForeignMod, disambiguator: 0 }, value("transmute")]
        } else {
            vec![elem("mem"), value("replace")]
        };
        ("core".to_string(), path)
    };
    assert!(is_specially_handled_function(&mut cache, transmute, describe));
    assert!(!is_specially_handled_function(&mut cache, replace, describe));
    // the cache answers the second time
    assert!(is_specially_handled_function(&mut cache, transmute, |_| ("mine".to_string(), vec![])));
}
