use rupta::info_collector::get_cargo_toml_path_from_source_file_path_buf;
use rupta::pta::PTAType;
use rupta::util::options::{parse_options, AnalysisOptions, ParseAction, ParseErrorKind, ParsedOptions};

fn args(list: &[&str]) -> Vec<String> {
    list.iter().map(|s| s.to_string()).collect()
}

fn parsed(pta: Option<&str>, inputs: &[&str]) -> ParsedOptions {
    ParsedOptions {
        entry_func: Some("main".to_string()),
        entry_def_id: Some(4),
        pta_type: pta.map(|s| s.to_string()),
        context_depth: Some(3),
        no_cast_constraint: true,
        dump_stats: false,
        call_graph_output: Some("cg.dot".to_string()),
        pts_output: None,
        mir_output: None,
        unsafe_stat_output: None,
        dyn_calls_output: None,
        type_indices_output: None,
        inputs: args(inputs),
    }
}

#[test]
fn default_options() {
    let o = AnalysisOptions::default();
    assert_eq!(o.pta_type, PTAType::CallSiteSensitive);
    assert_eq!(o.context_depth, 1);
    assert!(o.cast_constraint && o.dump_stats);
}

#[test]
fn options_then_compiler_arguments() {
    let mut o = AnalysisOptions::default();
    let a = args(&["--pta-type", "ander", "--", "-O", "x.rs"]);
    assert_eq!(AnalysisOptions::find_separator(&a), Some(2));
    match o.apply_parse_result(&a, false, Ok(parsed(Some("ander"), &["in.rs"]))) {
        ParseAction::Proceed(rest) => assert_eq!(rest, args(&["-O", "x.rs", "in.rs"])),
        _ => panic!("expected to proceed"),
    }
    assert_eq!(o.pta_type, PTAType::Andersen);
    assert_eq!(o.entry_func, "main");
    assert_eq!(o.context_depth, 3);
    assert!(!o.cast_constraint);
    assert_eq!(o.call_graph_output.as_deref(), Some("cg.dot"));
}

#[test]
fn arguments_not_meant_for_the_analysis() {
    let mut o = AnalysisOptions::default();
    let a = args(&["--crate-name", "foo"]);
    match o.apply_parse_result(&a, false, Err(ParseErrorKind::UnknownArgument)) {
        ParseAction::PassThrough(all, help) => {
            assert_eq!(all, a);
            assert!(!help);
        }
        _ => panic!("expected the arguments back"),
    }
    assert!(matches!(o.apply_parse_result(&a, true, Err(ParseErrorKind::UnknownArgument)), ParseAction::Exit(ParseErrorKind::UnknownArgument)));
    assert!(matches!(o.apply_parse_result(&a, false, Err(ParseErrorKind::Other)), ParseAction::Exit(ParseErrorKind::Other)));
    let b = args(&["--bad", "--", "x"]);
    assert!(matches!(o.apply_parse_result(&b, false, Err(ParseErrorKind::DisplayHelp)), ParseAction::Exit(ParseErrorKind::DisplayHelp)));
    match o.apply_parse_result(&a, false, Ok(parsed(None, &[]))) {
        ParseAction::Proceed(rest) => assert!(rest.is_empty()),
        _ => panic!("expected to proceed"),
    }
    assert_eq!(o.pta_type, PTAType::CallSiteSensitive);
}

#[test]
fn nearest_manifest_wins() {
    let found = get_cargo_toml_path_from_source_file_path_buf("/a/b/src/lib.rs", |p: &str| {
        p == "/a/b/Cargo.toml" || p == "/a/Cargo.toml"
    });
    assert_eq!(found, Ok("/a/b/Cargo.toml".to_string()));
    let none = get_cargo_toml_path_from_source_file_path_buf("/a/b/src/lib.rs", |_p: &str| false);
    assert_eq!(none, Err("No Cargo.toml found: /a/b/src/lib.rs".to_string()));
}

#[test]
fn grammar_defaults() {
    let p = parse_options(&args(&["main.rs"])).ok().unwrap();
    assert_eq!(p.pta_type.as_deref(), Some("callsite-sensitive"));
    assert_eq!(p.context_depth, Some(1));
    assert_eq!(p.inputs, args(&["main.rs"]));
    assert!(p.entry_func.is_none() && !p.dump_stats && !p.no_cast_constraint);
}

#[test]
fn grammar_values_and_flags() {
    let p = parse_options(&args(&[
        "--entry-func", "start", "--pta-type=ander", "--context-depth", "+3", "--entry-id=7",
        "--dump-stats", "--no-cast-constraint", "--dump-call-graph", "cg.dot", "a.rs",
    ]))
    .ok()
    .unwrap();
    assert_eq!(p.entry_func.as_deref(), Some("start"));
    assert_eq!(p.pta_type.as_deref(), Some("ander"));
    assert_eq!(p.context_depth, Some(3));
    assert_eq!(p.entry_def_id, Some(7));
    assert!(p.dump_stats && p.no_cast_constraint);
    assert_eq!(p.call_graph_output.as_deref(), Some("cg.dot"));
    assert_eq!(p.inputs, args(&["a.rs"]));
}

#[test]
fn grammar_refusals() {
    let kind = |list: &[&str]| parse_options(&args(list)).err();
    assert_eq!(kind(&["--help"]), Some(ParseErrorKind::DisplayHelp));
    assert_eq!(kind(&["-h"]), Some(ParseErrorKind::DisplayHelp));
    assert_eq!(kind(&["--version"]), Some(ParseErrorKind::DisplayVersion));
    assert_eq!(kind(&["--crate-name", "x"]), Some(ParseErrorKind::UnknownArgument));
    assert_eq!(kind(&["-O"]), Some(ParseErrorKind::UnknownArgument));
    assert_eq!(kind(&["--pta-type", "steens"]), Some(ParseErrorKind::Other));
    assert_eq!(kind(&["--context-depth", "4294967296"]), Some(ParseErrorKind::Other));
    assert_eq!(kind(&["--context-depth=-1"]), Some(ParseErrorKind::Other));
    assert_eq!(kind(&["--entry-func"]), Some(ParseErrorKind::Other));
    assert_eq!(kind(&["--entry-func", "--dump-stats"]), Some(ParseErrorKind::Other));
    assert_eq!(kind(&["--dump-stats", "--dump-stats"]), Some(ParseErrorKind::Other));
    assert_eq!(kind(&["--dump-stats=yes"]), Some(ParseErrorKind::Other));
    assert_eq!(parse_options(&args(&["--context-depth=4294967295"])).ok().unwrap().context_depth, Some(4294967295));
}

#[test]
fn command_lines_end_to_end() {
    let mut o = AnalysisOptions::default();
    match o.parse_from_args(&args(&["--pta-type", "cs", "--context-depth", "2", "--", "-O", "x.rs"]), false) {
        ParseAction::Proceed(rest) => assert_eq!(rest, args(&["-O", "x.rs"])),
        _ => panic!("expected to proceed"),
    }
    assert_eq!(o.context_depth, 2);
    assert_eq!(o.pta_type, PTAType::CallSiteSensitive);
    match o.parse_from_args(&args(&["--help"]), false) {
        ParseAction::PassThrough(all, help) => {
            assert_eq!(all, args(&["--help"]));
            assert!(help);
        }
        _ => panic!("expected the arguments back"),
    }
    assert!(matches!(o.parse_from_args(&args(&["--bogus", "--", "x"]), false), ParseAction::Exit(ParseErrorKind::UnknownArgument)));
    assert_eq!(o.context_depth, 2);
}
