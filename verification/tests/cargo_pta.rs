use rupta::cargo_pta::{toolchain_target_in, cargo_target_args, get_arg_flag_value, has_arg_flag, should_call_pta, split_pta_args};

fn args(list: &[&str]) -> Vec<String> {
    list.iter().map(|s| s.to_string()).collect()
}

#[test]
fn flags_before_the_separator_only() {
    let a = args(&["cargo-pta", "pta", "--lib", "--", "-v"]);
    assert!(has_arg_flag(&a, "--lib"));
    assert!(!has_arg_flag(&a, "-v"));
    assert!(!has_arg_flag(&a, "--li"));
}

#[test]
fn flag_values_in_both_forms() {
    let a = args(&["x", "--bin", "main", "--manifest-path=/p/Cargo.toml", "--", "--target", "t"]);
    assert_eq!(get_arg_flag_value(&a, "--bin"), Some("main".to_string()));
    assert_eq!(get_arg_flag_value(&a, "--manifest-path"), Some("/p/Cargo.toml".to_string()));
    assert_eq!(get_arg_flag_value(&a, "--target"), None);
    let b = args(&["x", "--binary", "--bin"]);
    assert_eq!(get_arg_flag_value(&b, "--bin"), None);
    let c = args(&["x", "--bin", "--", "y"]);
    assert_eq!(get_arg_flag_value(&c, "--bin"), None);
}

#[test]
fn analysis_or_compiler() {
    assert!(should_call_pta(Some("foo"), Some("foo"), Some("bin"), Some("bin")));
    assert!(!should_call_pta(Some("foo"), Some("foo"), Some("bin"), Some("lib")));
    assert!(should_call_pta(Some("foo"), Some("foo"), Some("test"), None));
    assert!(!should_call_pta(Some("foo"), Some("foo"), Some("bin"), None));
    assert!(!should_call_pta(Some("foo"), Some("bar"), Some("bin"), Some("bin")));
    assert!(!should_call_pta(None, Some("foo"), Some("bin"), Some("bin")));
}

#[test]
fn cargo_commands_for_targets() {
    let extra = args(&["--release", "--lib"]);
    assert_eq!(cargo_target_args("app", "bin", false, &extra), Some(args(&["check", "--bin", "app", "--verbose", "--release"])));
    assert_eq!(cargo_target_args("app", "bin", true, &extra), Some(args(&["check", "--verbose", "--release"])));
    assert_eq!(cargo_target_args("app", "lib", false, &vec![]), Some(args(&["check", "--lib", "--verbose"])));
    assert_eq!(cargo_target_args("app", "test", false, &vec![]), Some(args(&["test", "--no-run", "--verbose"])));
    assert_eq!(cargo_target_args("app", "bench", false, &vec![]), None);
}

#[test]
fn arguments_for_cargo_and_for_the_analysis() {
    let (cargo, pta) = split_pta_args(&args(&["--release", "--", "--entry-func", "main"]));
    assert_eq!(cargo, args(&["--release"]));
    assert_eq!(pta, args(&["--entry-func", "main"]));
    let (cargo, pta) = split_pta_args(&args(&["--release"]));
    assert_eq!(cargo, args(&["--release"]));
    assert!(pta.is_empty());
}

#[test]
fn toolchain_target_from_listing() {
    let listing = "aarch64-apple-darwin\nx86_64-unknown-linux-gnu (installed)\nx86_64-unknown-linux-musl\n";
    let sysroot = "/home/u/.rustup/toolchains/nightly-2024-02-01-x86_64-unknown-linux-gnu";
    assert_eq!(toolchain_target_in(sysroot, listing), Ok(Some("x86_64-unknown-linux-gnu".to_string())));
    assert_eq!(toolchain_target_in("/opt/rust", listing), Ok(None));
    assert_eq!(toolchain_target_in(sysroot, ""), Ok(None));
    assert_eq!(toolchain_target_in("/t/i686-pc-windows-gnu", " \ti686-pc-windows-gnu\t(installed)"), Ok(Some("i686-pc-windows-gnu".to_string())));
    // a line without a word before the match
    assert_eq!(toolchain_target_in(sysroot, "aarch64-apple-darwin\n  \nx86_64-unknown-linux-gnu\n"), Err(21));
    // but none is met once the target is found
    assert_eq!(toolchain_target_in(sysroot, "x86_64-unknown-linux-gnu\n\n"), Ok(Some("x86_64-unknown-linux-gnu".to_string())));
}

#[test]
fn analysis_arguments_travel_as_json() {
    assert_eq!(rupta::cargo_pta::pta_flags(&vec![]), None);
    let args = vec!["--entry-func".to_string(), "ma\"in".to_string()];
    assert_eq!(rupta::cargo_pta::pta_flags(&args), Some("[\"--entry-func\",\"ma\\\"in\"]".to_string()));
}
