use rupta::info_collector::{fix_incorrect_local_path, replace_str};
use rupta::util::find_sysroot;

#[test]
fn fixes_compiler_source_paths() {
    let p = "/home/u/.rustup/toolchains/nightly/lib/rustlib/src/rust/compiler/rustc_middle/src/lib.rs";
    assert_eq!(
        fix_incorrect_local_path(p),
        "/home/u/.rustup/toolchains/nightly/lib/rustlib/rustc-src/rust/compiler/rustc_middle/src/lib.rs"
    );
    let other = "/home/u/project/src/main.rs";
    assert_eq!(fix_incorrect_local_path(other), other);
}

#[test]
fn replaces_every_occurrence_left_to_right() {
    assert_eq!(replace_str("aaa", "aa", "b"), "aaa".replace("aa", "b"));
    assert_eq!(replace_str("xabyabz", "ab", "-"), "x-y-z");
    assert_eq!(replace_str("", "ab", "-"), "");
    assert_eq!(replace_str("é€ab", "ab", "ü"), "é€ü");
}

#[test]
fn sysroot_from_rustup_or_variable() {
    assert_eq!(find_sysroot(Some("/r"), Some("nightly"), Some("/x")), "/r/toolchains/nightly");
    assert_eq!(find_sysroot(Some("/r"), None, Some("/x")), "/x");
    assert_eq!(find_sysroot(None, None, Some("/sys")), "/sys");
}
