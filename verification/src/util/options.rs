//! Analysis options, and how they are taken from the command line.

use vstd::prelude::*;
use vstd::string::*;
use crate::mir::known_names::str_eq;
use crate::pta::PTAType;

verus! {

/// The options of an analysis.
#[derive(Clone, Debug)]
pub struct AnalysisOptions {
    pub entry_func: String,
    pub entry_def_id: Option<u32>,
    pub pta_type: PTAType,
    /// options for context-sensitive analysis
    pub context_depth: u32,
    /// options for handling cast propagation
    pub cast_constraint: bool,
    pub dump_stats: bool,
    pub call_graph_output: Option<String>,
    pub pts_output: Option<String>,
    pub mir_output: Option<String>,
    pub type_indices_output: Option<String>,
    pub dyn_calls_output: Option<String>,
    pub unsafe_stat_output: Option<String>,
    pub func_ctxts_output: Option<String>,
}

impl Default for AnalysisOptions {
    fn default() -> (r: Self)
        ensures
            r.entry_func@ == Seq::<char>::empty(),
            r.entry_def_id is None,
            r.pta_type == PTAType::CallSiteSensitive,
            r.context_depth == 1,
            r.cast_constraint,
            r.dump_stats,
            r.call_graph_output is None,
            r.pts_output is None,
            r.mir_output is None,
            r.type_indices_output is None,
            r.dyn_calls_output is None,
            r.unsafe_stat_output is None,
            r.func_ctxts_output is None,
    {
        Self {
            entry_func: String::new(),
            entry_def_id: None,
            pta_type: PTAType::CallSiteSensitive,
            context_depth: 1,
            cast_constraint: true,
            dump_stats: true,
            call_graph_output: None,
            pts_output: None,
            mir_output: None,
            type_indices_output: None,
            dyn_calls_output: None,
            unsafe_stat_output: None,
            func_ctxts_output: None,
        }
    }
}

/// The options found on a command line by the option parser, as written there.
pub struct ParsedOptions {
    pub entry_func: Option<String>,
    pub entry_def_id: Option<u32>,
    /// The kind of analysis: `andersen`, `ander`, `callsite-sensitive` or `cs`.
    pub pta_type: Option<String>,
    pub context_depth: Option<u32>,
    pub no_cast_constraint: bool,
    pub dump_stats: bool,
    pub call_graph_output: Option<String>,
    pub pts_output: Option<String>,
    pub mir_output: Option<String>,
    pub unsafe_stat_output: Option<String>,
    pub dyn_calls_output: Option<String>,
    pub type_indices_output: Option<String>,
    /// The input files named on the command line.
    pub inputs: Vec<String>,
}

/// Why the option parser refused a command line.
#[derive(Clone, Copy, Debug, PartialEq, Eq, Structural)]
pub enum ParseErrorKind {
    /// Help was asked for.
    DisplayHelp,
    /// An option is unknown.
    UnknownArgument,
    /// The version was asked for.
    DisplayVersion,
    /// Any other error.
    Other,
}

/// What to do with a command line once the option parser has read the options
/// before its first `--`.
pub enum ParseAction {
    /// Run the analysis; the arguments for the compiler are given.
    Proceed(Vec<String>),
    /// The arguments are not meant for the analysis: hand them all to the compiler,
    /// after showing the help where it was asked for (the flag).
    PassThrough(Vec<String>, bool),
    /// Report why the command line was refused (or show the version) and exit.
    Exit(ParseErrorKind),
}

/// The kind of analysis that its name on the command line stands for.
pub open spec fn pta_type_named(name: Seq<char>) -> Option<PTAType> {
    if name == "andersen"@ || name == "ander"@ {
        Some(PTAType::Andersen)
    } else if name == "callsite-sensitive"@ || name == "cs"@ {
        Some(PTAType::CallSiteSensitive)
    } else {
        None
    }
}

/// The position of the first `--` among the arguments, if there is one.
pub open spec fn first_separator(args: Seq<String>) -> Option<int> {
    if exists|i: int| 0 <= i < args.len() && args[i]@ == "--"@ {
        Some(choose|i: int| 0 <= i < args.len() && args[i]@ == "--"@ && forall|j: int| 0 <= j < i ==> args[j]@ != "--"@)
    } else {
        None
    }
}

/// The texts of a sequence of strings.
pub open spec fn texts(s: Seq<String>) -> Seq<Seq<char>> {
    s.map_values(|x: String| x@)
}

/// A copy of `args[from..]`, with `more` after it.
fn args_from(args: &Vec<String>, from: usize, more: &Vec<String>) -> (r: Vec<String>)
    requires
        from <= args@.len(),
    ensures
        texts(r@) == texts(args@.subrange(from as int, args@.len() as int)) + texts(more@),
{
    let mut r: Vec<String> = Vec::new();
    let mut i: usize = from;
    while i < args.len()
        invariant
            from <= i <= args@.len(),
            r@.len() == i - from,
            forall|k: int| 0 <= k < r@.len() ==> #[trigger] r@[k]@ == args@[from + k]@,
        decreases args@.len() - i,
    {
        r.push(args[i].clone());
        i = i + 1;
    }
    let n = r.len();
    let mut j: usize = 0;
    while j < more.len()
        invariant
            j <= more@.len(),
            n == args@.len() - from,
            r@.len() == n + j,
            forall|k: int| 0 <= k < n ==> #[trigger] r@[k]@ == args@[from + k]@,
            forall|k: int| 0 <= k < j ==> #[trigger] r@[n + k]@ == more@[k]@,
        decreases more@.len() - j,
    {
        r.push(more[j].clone());
        j = j + 1;
    }
    proof {
        let lhs = texts(r@);
        let rhs = texts(args@.subrange(from as int, args@.len() as int)) + texts(more@);
        assert forall|k: int| 0 <= k < lhs.len() implies lhs[k] == rhs[k] by {
            if k < n {
                assert(r@[k]@ == args@[from + k]@);
            } else {
                assert(r@[n + (k - n)]@ == more@[k - n]@);
            }
        }
        assert(lhs =~= rhs);
    }
    r
}

/// Where the options of a command line end: at its first `--`, or its end.
pub open spec fn options_end(args: Seq<String>) -> int {
    match first_separator(args) {
        Some(i) => i,
        None => args.len() as int,
    }
}

/// A copy of `args[..end]`.
fn args_before(args: &Vec<String>, end: usize) -> (r: Vec<String>)
    requires
        end <= args@.len(),
    ensures
        texts(r@) == texts(args@).subrange(0, end as int),
{
    let mut r: Vec<String> = Vec::new();
    let mut i: usize = 0;
    while i < end
        invariant
            i <= end <= args@.len(),
            r@.len() == i,
            forall|k: int| 0 <= k < i ==> #[trigger] r@[k]@ == args@[k]@,
        decreases end - i,
    {
        r.push(args[i].clone());
        i = i + 1;
    }
    assert(texts(r@) =~= texts(args@).subrange(0, end as int));
    r
}

/// `after` holds the options of `before`, with those of `parsed` set.
pub open spec fn options_applied(before: AnalysisOptions, parsed: OptionsV, after: AnalysisOptions) -> bool {
    &&& parsed.entry_func matches Some(s) ==> after.entry_func@ == s
    &&& parsed.entry_func is None ==> after.entry_func@ == before.entry_func@
    &&& after.entry_def_id == parsed.entry_def_id
    &&& parsed.pta_type matches Some(t) ==> after.pta_type == pta_type_named(t)->0
    &&& parsed.pta_type is None ==> after.pta_type == before.pta_type
    &&& parsed.context_depth matches Some(d) ==> after.context_depth == d
    &&& parsed.context_depth is None ==> after.context_depth == before.context_depth
    &&& after.cast_constraint == !parsed.no_cast_constraint
    &&& after.dump_stats == parsed.dump_stats
    &&& opt_text(after.call_graph_output) == parsed.call_graph_output
    &&& opt_text(after.pts_output) == parsed.pts_output
    &&& opt_text(after.mir_output) == parsed.mir_output
    &&& opt_text(after.unsafe_stat_output) == parsed.unsafe_stat_output
    &&& opt_text(after.dyn_calls_output) == parsed.dyn_calls_output
    &&& opt_text(after.type_indices_output) == parsed.type_indices_output
    &&& after.func_ctxts_output == before.func_ctxts_output
}

/// A copy of a string that may be absent.
fn clone_opt(s: &Option<String>) -> (r: Option<String>)
    ensures
        r is Some <==> s is Some,
        r is Some ==> r->0@ == s->0@,
{
    match s {
        Some(x) => Some(x.clone()),
        None => None,
    }
}

/// The text of a string that may be absent.
pub open spec fn opt_text(s: Option<String>) -> Option<Seq<char>> {
    match s {
        Some(x) => Some(x@),
        None => None,
    }
}

/// The options of a command line as the grammar reads them, each as written.
pub struct OptionsV {
    pub entry_func: Option<Seq<char>>,
    pub entry_def_id: Option<u32>,
    pub pta_type: Option<Seq<char>>,
    pub context_depth: Option<u32>,
    pub no_cast_constraint: bool,
    pub dump_stats: bool,
    pub call_graph_output: Option<Seq<char>>,
    pub pts_output: Option<Seq<char>>,
    pub mir_output: Option<Seq<char>>,
    pub unsafe_stat_output: Option<Seq<char>>,
    pub dyn_calls_output: Option<Seq<char>>,
    pub type_indices_output: Option<Seq<char>>,
    pub inputs: Seq<Seq<char>>,
}

/// What the parsed options say.
pub open spec fn parsed_view(p: ParsedOptions) -> OptionsV {
    OptionsV {
        entry_func: opt_text(p.entry_func),
        entry_def_id: p.entry_def_id,
        pta_type: opt_text(p.pta_type),
        context_depth: p.context_depth,
        no_cast_constraint: p.no_cast_constraint,
        dump_stats: p.dump_stats,
        call_graph_output: opt_text(p.call_graph_output),
        pts_output: opt_text(p.pts_output),
        mir_output: opt_text(p.mir_output),
        unsafe_stat_output: opt_text(p.unsafe_stat_output),
        dyn_calls_output: opt_text(p.dyn_calls_output),
        type_indices_output: opt_text(p.type_indices_output),
        inputs: texts(p.inputs@),
    }
}

/// No option given, no input named.
pub open spec fn no_options() -> OptionsV {
    OptionsV {
        entry_func: None,
        entry_def_id: None,
        pta_type: None,
        context_depth: None,
        no_cast_constraint: false,
        dump_stats: false,
        call_graph_output: None,
        pts_output: None,
        mir_output: None,
        unsafe_stat_output: None,
        dyn_calls_output: None,
        type_indices_output: None,
        inputs: Seq::empty(),
    }
}

/// The options that the analysis takes, each written `--` and its name.
#[derive(Clone, Copy, PartialEq, Eq, Debug, Structural)]
pub enum OptKey {
    /// `--entry-func NAME`: the name of the entry function.
    EntryFunc,
    /// `--entry-id N`: the def_id of the entry function.
    EntryId,
    /// `--pta-type TYPE`: `andersen`, `ander`, `callsite-sensitive` or `cs`.
    PtaType,
    /// `--context-depth N`: the context depth limit.
    ContextDepth,
    /// `--no-cast-constraint`, a flag.
    NoCastConstraint,
    /// `--dump-stats`, a flag.
    DumpStats,
    /// `--dump-call-graph FILE`
    CallGraph,
    /// `--dump-pts FILE`
    Pts,
    /// `--dump-mir FILE`
    Mir,
    /// `--dump-unsafe-stats FILE`
    UnsafeStats,
    /// `--dump-dyn-calls FILE`
    DynCalls,
    /// `--dump-type-indices FILE`
    TypeIndices,
}

/// The option of the given name.
pub open spec fn key_named(name: Seq<char>) -> Option<OptKey> {
    if name == "entry-func"@ { Some(OptKey::EntryFunc) }
    else if name == "entry-id"@ { Some(OptKey::EntryId) }
    else if name == "pta-type"@ { Some(OptKey::PtaType) }
    else if name == "context-depth"@ { Some(OptKey::ContextDepth) }
    else if name == "no-cast-constraint"@ { Some(OptKey::NoCastConstraint) }
    else if name == "dump-stats"@ { Some(OptKey::DumpStats) }
    else if name == "dump-call-graph"@ { Some(OptKey::CallGraph) }
    else if name == "dump-pts"@ { Some(OptKey::Pts) }
    else if name == "dump-mir"@ { Some(OptKey::Mir) }
    else if name == "dump-unsafe-stats"@ { Some(OptKey::UnsafeStats) }
    else if name == "dump-dyn-calls"@ { Some(OptKey::DynCalls) }
    else if name == "dump-type-indices"@ { Some(OptKey::TypeIndices) }
    else { None }
}

/// The option takes a value; the two flags take none.
pub open spec fn takes_value(k: OptKey) -> bool {
    !(k is NoCastConstraint || k is DumpStats)
}

pub open spec fn is_digit(c: char) -> bool {
    '0' <= c && c <= '9'
}

/// The number that the decimal digits `s` write.
pub open spec fn digits_value(s: Seq<char>) -> int
    decreases s.len(),
{
    if s.len() == 0 {
        0
    } else {
        digits_value(s.drop_last()) * 10 + (s.last() as int - '0' as int)
    }
}

/// The text after a sign, if the text starts with one.
pub open spec fn unsigned_part(v: Seq<char>) -> Seq<char> {
    if v.len() > 0 && (v[0] == '+' || v[0] == '-') { v.subrange(1, v.len() as int) } else { v }
}

/// The number a value of a numeric option writes: an optional sign and decimal
/// digits, for a number that fits in 32 bits and is not below zero.
pub open spec fn u32_text(v: Seq<char>) -> Option<u32> {
    let body = unsigned_part(v);
    let neg = v.len() > 0 && v[0] == '-';
    if body.len() > 0 && (forall|i: int| 0 <= i < body.len() ==> is_digit(#[trigger] body[i]))
        && (if neg { digits_value(body) == 0 } else { digits_value(body) <= u32::MAX }) {
        Some(digits_value(body) as u32)
    } else {
        None
    }
}

/// The options `st` with option `k` given the value `v` (ignored for flags); none
/// where the option was given before or the value is not one it takes.
pub open spec fn set_value(st: OptionsV, k: OptKey, v: Seq<char>) -> Option<OptionsV> {
    match k {
        OptKey::EntryFunc => if st.entry_func is Some { None } else { Some(OptionsV { entry_func: Some(v), ..st }) },
        OptKey::EntryId => if st.entry_def_id is Some || u32_text(v) is None { None } else { Some(OptionsV { entry_def_id: u32_text(v), ..st }) },
        OptKey::PtaType => if st.pta_type is Some || pta_type_named(v) is None { None } else { Some(OptionsV { pta_type: Some(v), ..st }) },
        OptKey::ContextDepth => if st.context_depth is Some || u32_text(v) is None { None } else { Some(OptionsV { context_depth: u32_text(v), ..st }) },
        OptKey::NoCastConstraint => if st.no_cast_constraint { None } else { Some(OptionsV { no_cast_constraint: true, ..st }) },
        OptKey::DumpStats => if st.dump_stats { None } else { Some(OptionsV { dump_stats: true, ..st }) },
        OptKey::CallGraph => if st.call_graph_output is Some { None } else { Some(OptionsV { call_graph_output: Some(v), ..st }) },
        OptKey::Pts => if st.pts_output is Some { None } else { Some(OptionsV { pts_output: Some(v), ..st }) },
        OptKey::Mir => if st.mir_output is Some { None } else { Some(OptionsV { mir_output: Some(v), ..st }) },
        OptKey::UnsafeStats => if st.unsafe_stat_output is Some { None } else { Some(OptionsV { unsafe_stat_output: Some(v), ..st }) },
        OptKey::DynCalls => if st.dyn_calls_output is Some { None } else { Some(OptionsV { dyn_calls_output: Some(v), ..st }) },
        OptKey::TypeIndices => if st.type_indices_output is Some { None } else { Some(OptionsV { type_indices_output: Some(v), ..st }) },
    }
}

/// The first position at or after `k` of `c` in `s`.
pub open spec fn find_char(s: Seq<char>, c: char, k: int) -> Option<int>
    decreases s.len() - k,
{
    if k < 0 || k >= s.len() {
        None
    } else if s[k] == c {
        Some(k)
    } else {
        find_char(s, c, k + 1)
    }
}

/// The argument starts like an option (`-` and more), so it is no option's value.
pub open spec fn flag_like(t: Seq<char>) -> bool {
    t.len() >= 2 && t[0] == '-'
}

/// Reads the argument at `i`, with what follows it where it is an option's value:
/// the options so far and the position of the next argument, or why the command
/// line is refused. `--name=value` and `--name value` give an option its value; a
/// flag takes none; `--help` and `-h` ask for the help, `--version` and `-V` for the
/// version; any other argument that starts with `-` is unknown; the rest name inputs.
pub open spec fn step(args: Seq<Seq<char>>, i: int, st: OptionsV) -> Result<(OptionsV, int), ParseErrorKind> {
    let t = args[i];
    if t.len() >= 2 && t[0] == '-' && t[1] == '-' {
        let body = t.subrange(2, t.len() as int);
        let e = find_char(body, '=', 0);
        let name = match e {
            Some(p) => body.subrange(0, p),
            None => body,
        };
        match key_named(name) {
            None => if name == "help"@ {
                Err(ParseErrorKind::DisplayHelp)
            } else if name == "version"@ {
                Err(ParseErrorKind::DisplayVersion)
            } else {
                Err(ParseErrorKind::UnknownArgument)
            },
            Some(k) => if takes_value(k) {
                match e {
                    Some(p) => match set_value(st, k, body.subrange(p + 1, body.len() as int)) {
                        Some(s2) => Ok((s2, i + 1)),
                        None => Err(ParseErrorKind::Other),
                    },
                    None => if i + 1 < args.len() && !flag_like(args[i + 1]) {
                        match set_value(st, k, args[i + 1]) {
                            Some(s2) => Ok((s2, i + 2)),
                            None => Err(ParseErrorKind::Other),
                        }
                    } else {
                        Err(ParseErrorKind::Other)
                    },
                }
            } else if e is Some {
                Err(ParseErrorKind::Other)
            } else {
                match set_value(st, k, Seq::empty()) {
                    Some(s2) => Ok((s2, i + 1)),
                    None => Err(ParseErrorKind::Other),
                }
            },
        }
    } else if t.len() >= 2 && t[0] == '-' {
        if t == "-h"@ {
            Err(ParseErrorKind::DisplayHelp)
        } else if t == "-V"@ {
            Err(ParseErrorKind::DisplayVersion)
        } else {
            Err(ParseErrorKind::UnknownArgument)
        }
    } else {
        Ok((OptionsV { inputs: st.inputs.push(t), ..st }, i + 1))
    }
}

/// The options of the arguments from `i` on, after those of `st`.
pub open spec fn parse_run(args: Seq<Seq<char>>, i: int, st: OptionsV) -> Result<OptionsV, ParseErrorKind>
    decreases args.len() - i,
{
    if i < 0 || i >= args.len() {
        Ok(st)
    } else {
        match step(args, i, st) {
            Err(e) => Err(e),
            Ok((s2, j)) => if i < j <= args.len() { parse_run(args, j, s2) } else { Ok(s2) },
        }
    }
}

/// The options with their defaults: a call-site-sensitive analysis, with contexts
/// of depth 1.
pub open spec fn with_defaults(st: OptionsV) -> OptionsV {
    OptionsV {
        pta_type: if st.pta_type is None { Some("callsite-sensitive"@) } else { st.pta_type },
        context_depth: if st.context_depth is None { Some(1u32) } else { st.context_depth },
        ..st
    }
}

/// What the options on a command line (those before its first `--`) say, or why
/// they are refused.
pub open spec fn options_of(args: Seq<Seq<char>>) -> Result<OptionsV, ParseErrorKind> {
    match parse_run(args, 0, no_options()) {
        Ok(st) => Ok(with_defaults(st)),
        Err(e) => Err(e),
    }
}

/// The position of the first `=` in `s`.
fn find_eq(s: &str) -> (r: Option<usize>)
    ensures
        r matches Some(k) ==> find_char(s@, '=', 0) == Some(k as int),
        r is None ==> find_char(s@, '=', 0) is None,
{
    let n = s.unicode_len();
    let mut k: usize = 0;
    while k < n
        invariant
            k <= n,
            n == s@.len(),
            find_char(s@, '=', 0) == find_char(s@, '=', k as int),
        decreases n - k,
    {
        if s.get_char(k) == '=' {
            return Some(k);
        }
        k = k + 1;
    }
    None
}

/// The option of the given name.
fn key_of(name: &str) -> (r: Option<OptKey>)
    ensures
        r == key_named(name@),
{
    if str_eq(name, "entry-func") { Some(OptKey::EntryFunc) }
    else if str_eq(name, "entry-id") { Some(OptKey::EntryId) }
    else if str_eq(name, "pta-type") { Some(OptKey::PtaType) }
    else if str_eq(name, "context-depth") { Some(OptKey::ContextDepth) }
    else if str_eq(name, "no-cast-constraint") { Some(OptKey::NoCastConstraint) }
    else if str_eq(name, "dump-stats") { Some(OptKey::DumpStats) }
    else if str_eq(name, "dump-call-graph") { Some(OptKey::CallGraph) }
    else if str_eq(name, "dump-pts") { Some(OptKey::Pts) }
    else if str_eq(name, "dump-mir") { Some(OptKey::Mir) }
    else if str_eq(name, "dump-unsafe-stats") { Some(OptKey::UnsafeStats) }
    else if str_eq(name, "dump-dyn-calls") { Some(OptKey::DynCalls) }
    else if str_eq(name, "dump-type-indices") { Some(OptKey::TypeIndices) }
    else { None }
}

proof fn lemma_digits_grow(s: Seq<char>, j: int)
    requires
        0 <= j <= s.len(),
        forall|i: int| 0 <= i < s.len() ==> is_digit(#[trigger] s[i]),
    ensures
        0 <= digits_value(s.subrange(0, j)) <= digits_value(s),
    decreases s.len() - j,
{
    if j < s.len() {
        let t = s.drop_last();
        assert forall|i: int| 0 <= i < t.len() implies is_digit(#[trigger] t[i]) by {
            assert(t[i] == s[i]);
        }
        lemma_digits_grow(t, j);
        assert(t.subrange(0, j) =~= s.subrange(0, j));
        lemma_digits_nonneg(t);
    } else {
        assert(s.subrange(0, j) =~= s);
        lemma_digits_nonneg(s);
    }
}

proof fn lemma_digits_nonneg(s: Seq<char>)
    requires
        forall|i: int| 0 <= i < s.len() ==> is_digit(#[trigger] s[i]),
    ensures
        digits_value(s) >= 0,
    decreases s.len(),
{
    if s.len() > 0 {
        let t = s.drop_last();
        assert forall|i: int| 0 <= i < t.len() implies is_digit(#[trigger] t[i]) by {
            assert(t[i] == s[i]);
        }
        lemma_digits_nonneg(t);
        assert(is_digit(s[s.len() - 1]));
    }
}

/// The number a value of a numeric option writes.
fn parse_u32(v: &str) -> (r: Option<u32>)
    ensures
        r == u32_text(v@),
{
    let n = v.unicode_len();
    let mut start: usize = 0;
    let mut neg = false;
    if n > 0 {
        let c = v.get_char(0);
        if c == '+' || c == '-' {
            start = 1;
            neg = c == '-';
        }
    }
    let ghost body = unsigned_part(v@);
    proof {
        assert(body =~= v@.subrange(start as int, n as int));
    }
    if start >= n {
        return None;
    }
    let mut acc: u64 = 0;
    let mut k: usize = start;
    while k < n
        invariant
            start <= k <= n,
            n == v@.len(),
            body =~= v@.subrange(start as int, n as int),
            body == unsigned_part(v@),
            forall|i: int| 0 <= i < k - start ==> is_digit(#[trigger] body[i]),
            acc as int == digits_value(body.subrange(0, k - start)),
            acc <= u32::MAX,
        decreases n - k,
    {
        let c = v.get_char(k);
        proof {
            assert(body[k - start] == v@[k as int]);
        }
        if !('0' <= c && c <= '9') {
            proof {
                assert(!is_digit(body[k - start]));
            }
            return None;
        }
        let d = (c as u32 - '0' as u32) as u64;
        proof {
            let pre = body.subrange(0, k + 1 - start);
            assert(pre.drop_last() =~= body.subrange(0, k - start));
            assert(pre.last() == c);
            assert(d as int == c as int - '0' as int);
            assert(digits_value(pre) == acc * 10 + d);
        }
        let next = acc * 10 + d;
        if next > 4294967295u64 {
            proof {
                assert forall|i: int| 0 <= i < k + 1 - start implies is_digit(#[trigger] body[i]) by {}
                if forall|i: int| 0 <= i < body.len() ==> is_digit(#[trigger] body[i]) {
                    lemma_digits_grow(body, k + 1 - start);
                }
            }
            return None;
        }
        acc = next;
        k = k + 1;
    }
    proof {
        assert(body.subrange(0, n - start) =~= body);
    }
    if neg && acc != 0 {
        return None;
    }
    Some(acc as u32)
}

/// Gives option `k` of `p` the value `v` (ignored for flags); false, with `p` left
/// as it may be, where the grammar refuses that.
fn set_value_exec(p: &mut ParsedOptions, k: OptKey, v: &str) -> (ok: bool)
    ensures
        ok == set_value(parsed_view(*old(p)), k, v@) is Some,
        ok ==> parsed_view(*final(p)) == set_value(parsed_view(*old(p)), k, v@)->0,
        ok && (old(p).pta_type matches Some(t) ==> pta_type_named(t@) is Some) ==> (final(p).pta_type matches Some(t) ==> pta_type_named(t@) is Some),
{
    let ghost st = parsed_view(*p);
    match k {
        OptKey::EntryFunc => {
            if p.entry_func.is_some() { return false; }
            p.entry_func = Some(String::from_str(v));
        },
        OptKey::EntryId => {
            if p.entry_def_id.is_some() { return false; }
            match parse_u32(v) {
                Some(n) => { p.entry_def_id = Some(n); },
                None => { return false; },
            }
        },
        OptKey::PtaType => {
            if p.pta_type.is_some() { return false; }
            proof {
                reveal_strlit("andersen");
                reveal_strlit("ander");
                reveal_strlit("callsite-sensitive");
                reveal_strlit("cs");
            }
            if !(str_eq(v, "andersen") || str_eq(v, "ander") || str_eq(v, "callsite-sensitive") || str_eq(v, "cs")) {
                return false;
            }
            p.pta_type = Some(String::from_str(v));
        },
        OptKey::ContextDepth => {
            if p.context_depth.is_some() { return false; }
            match parse_u32(v) {
                Some(n) => { p.context_depth = Some(n); },
                None => { return false; },
            }
        },
        OptKey::NoCastConstraint => {
            if p.no_cast_constraint { return false; }
            p.no_cast_constraint = true;
        },
        OptKey::DumpStats => {
            if p.dump_stats { return false; }
            p.dump_stats = true;
        },
        OptKey::CallGraph => {
            if p.call_graph_output.is_some() { return false; }
            p.call_graph_output = Some(String::from_str(v));
        },
        OptKey::Pts => {
            if p.pts_output.is_some() { return false; }
            p.pts_output = Some(String::from_str(v));
        },
        OptKey::Mir => {
            if p.mir_output.is_some() { return false; }
            p.mir_output = Some(String::from_str(v));
        },
        OptKey::UnsafeStats => {
            if p.unsafe_stat_output.is_some() { return false; }
            p.unsafe_stat_output = Some(String::from_str(v));
        },
        OptKey::DynCalls => {
            if p.dyn_calls_output.is_some() { return false; }
            p.dyn_calls_output = Some(String::from_str(v));
        },
        OptKey::TypeIndices => {
            if p.type_indices_output.is_some() { return false; }
            p.type_indices_output = Some(String::from_str(v));
        },
    }
    proof {
        assert(parsed_view(*p) =~= set_value(st, k, v@)->0);
    }
    true
}

/// Reads the argument at `i` (with its value where it is an option that takes
/// one) into `p`, and gives the position of the next argument.
fn parse_token(args: &Vec<String>, i: usize, p: &mut ParsedOptions) -> (r: Result<usize, ParseErrorKind>)
    requires
        i < args@.len(),
    ensures
        match step(texts(args@), i as int, parsed_view(*old(p))) {
            Ok((s2, j)) => r matches Ok(n) && n == j && parsed_view(*final(p)) == s2,
            Err(e) => r == Err::<usize, ParseErrorKind>(e),
        },
        r matches Ok(n) ==> i < n <= args@.len(),
        r is Ok && (old(p).pta_type matches Some(t) ==> pta_type_named(t@) is Some) ==> (final(p).pta_type matches Some(t) ==> pta_type_named(t@) is Some),
{
    let ghost a = texts(args@);
    let ghost st = parsed_view(*p);
    let total = args.len();
    let t = args[i].as_str();
    let len = t.unicode_len();
    proof {
        assert(a[i as int] == t@);
        reveal_strlit("help");
        reveal_strlit("version");
        reveal_strlit("-h");
        reveal_strlit("-V");
    }
    if len >= 2 && t.get_char(0) == '-' && t.get_char(1) == '-' {
        let body = t.substring_char(2, len);
        let blen = body.unicode_len();
        let e = find_eq(body);
        proof {
            if let Some(k) = e {
                assert(0 <= k < body@.len()) by {
                    lemma_find_char_in(body@, '=', 0);
                }
            }
        }
        let name = match e {
            Some(k) => body.substring_char(0, k),
            None => body,
        };
        match key_of(name) {
            None => {
                if str_eq(name, "help") {
                    Err(ParseErrorKind::DisplayHelp)
                } else if str_eq(name, "version") {
                    Err(ParseErrorKind::DisplayVersion)
                } else {
                    Err(ParseErrorKind::UnknownArgument)
                }
            },
            Some(k) => {
                let takes = match k {
                    OptKey::NoCastConstraint => false,
                    OptKey::DumpStats => false,
                    _ => true,
                };
                if takes {
                    match e {
                        Some(q) => {
                            let value = body.substring_char(q + 1, blen);
                            if set_value_exec(p, k, value) { Ok(i + 1) } else { Err(ParseErrorKind::Other) }
                        },
                        None => {
                            if i + 1 < args.len() {
                                let next = args[i + 1].as_str();
                                proof {
                                    assert(a[i + 1] == next@);
                                }
                                let flag = next.unicode_len() >= 2 && next.get_char(0) == '-';
                                if !flag {
                                    if set_value_exec(p, k, next) { Ok(i + 2) } else { Err(ParseErrorKind::Other) }
                                } else {
                                    Err(ParseErrorKind::Other)
                                }
                            } else {
                                Err(ParseErrorKind::Other)
                            }
                        },
                    }
                } else {
                    match e {
                        Some(_) => Err(ParseErrorKind::Other),
                        None => {
                            let empty = "";
                            proof {
                                reveal_strlit("");
                                assert(empty@ =~= Seq::<char>::empty());
                            }
                            if set_value_exec(p, k, empty) { Ok(i + 1) } else { Err(ParseErrorKind::Other) }
                        },
                    }
                }
            },
        }
    } else if len >= 2 && t.get_char(0) == '-' {
        if str_eq(t, "-h") {
            Err(ParseErrorKind::DisplayHelp)
        } else if str_eq(t, "-V") {
            Err(ParseErrorKind::DisplayVersion)
        } else {
            Err(ParseErrorKind::UnknownArgument)
        }
    } else {
        p.inputs.push(args[i].clone());
        proof {
            assert(parsed_view(*p).inputs =~= st.inputs.push(t@));
            assert(parsed_view(*p) =~= (OptionsV { inputs: st.inputs.push(t@), ..st }));
        }
        Ok(i + 1)
    }
}

proof fn lemma_find_char_in(s: Seq<char>, c: char, k: int)
    ensures
        find_char(s, c, k) matches Some(p) ==> k <= p < s.len() && s[p] == c,
    decreases s.len() - k,
{
    if k >= 0 && k < s.len() && s[k] != c {
        lemma_find_char_in(s, c, k + 1);
    }
}

/// Reads the options on a command line (the arguments before its first `--`): what
/// they say, with the defaults for those not given, or why they are refused.
pub fn parse_options(args: &Vec<String>) -> (r: Result<ParsedOptions, ParseErrorKind>)
    ensures
        match options_of(texts(args@)) {
            Ok(o) => r matches Ok(p) && parsed_view(p) == o,
            Err(e) => r == Err::<ParsedOptions, ParseErrorKind>(e),
        },
        r matches Ok(p) ==> p.pta_type matches Some(t) && pta_type_named(t@) is Some,
{
    let mut p = ParsedOptions {
        entry_func: None,
        entry_def_id: None,
        pta_type: None,
        context_depth: None,
        no_cast_constraint: false,
        dump_stats: false,
        call_graph_output: None,
        pts_output: None,
        mir_output: None,
        unsafe_stat_output: None,
        dyn_calls_output: None,
        type_indices_output: None,
        inputs: Vec::new(),
    };
    proof {
        assert(texts(p.inputs@) =~= Seq::<Seq<char>>::empty());
        assert(parsed_view(p) =~= no_options());
    }
    let n = args.len();
    let mut i: usize = 0;
    while i < n
        invariant
            i <= n,
            n == args@.len(),
            parse_run(texts(args@), 0, no_options()) == parse_run(texts(args@), i as int, parsed_view(p)),
            p.pta_type matches Some(t) ==> pta_type_named(t@) is Some,
        decreases n - i,
    {
        match parse_token(args, i, &mut p) {
            Err(e) => {
                return Err(e);
            },
            Ok(j) => {
                proof {
                    reveal_strlit("andersen");
                    reveal_strlit("ander");
                    reveal_strlit("callsite-sensitive");
                    reveal_strlit("cs");
                }
                i = j;
            },
        }
    }
    if p.pta_type.is_none() {
        p.pta_type = Some(String::from_str("callsite-sensitive"));
    }
    if p.context_depth.is_none() {
        p.context_depth = Some(1);
    }
    proof {
        reveal_strlit("callsite-sensitive");
    }
    Ok(p)
}

impl AnalysisOptions {
    /// The position of the first `--` among the arguments, if there is one.
    pub fn find_separator(args: &Vec<String>) -> (r: Option<usize>)
        ensures
            r matches Some(p) ==> first_separator(args@) == Some(p as int) && p < args@.len(),
            r is None ==> first_separator(args@) is None,
    {
        proof {
            reveal_strlit("--");
        }
        let mut i: usize = 0;
        while i < args.len()
            invariant
                i <= args@.len(),
                forall|j: int| 0 <= j < i ==> args@[j]@ != "--"@,
            decreases args@.len() - i,
        {
            if str_eq(args[i].as_str(), "--") {
                proof {
                    let w = choose|p: int| 0 <= p < args@.len() && args@[p]@ == "--"@ && forall|j: int| 0 <= j < p ==> args@[j]@ != "--"@;
                    assert(w == i) by {
                        if w < i {
                            assert(args@[w]@ != "--"@);
                        }
                        if w > i {
                            assert(args@[i as int]@ == "--"@);
                        }
                    }
                }
                return Some(i);
            }
            i = i + 1;
        }
        None
    }

    /// Sets the options to those parsed.
    pub fn apply_parsed(&mut self, parsed: &ParsedOptions)
        requires
            parsed.pta_type matches Some(t) ==> pta_type_named(t@) is Some,
        ensures
            options_applied(*old(self), parsed_view(*parsed), *final(self)),
    {
        if let Some(s) = &parsed.entry_func {
            self.entry_func = s.clone();
        }
        self.entry_def_id = parsed.entry_def_id;
        if let Some(t) = &parsed.pta_type {
            proof {
                reveal_strlit("andersen");
                reveal_strlit("ander");
                reveal_strlit("callsite-sensitive");
                reveal_strlit("cs");
            }
            if str_eq(t.as_str(), "andersen") || str_eq(t.as_str(), "ander") {
                self.pta_type = PTAType::Andersen;
            } else {
                self.pta_type = PTAType::CallSiteSensitive;
            }
        }
        if let Some(depth) = parsed.context_depth {
            self.context_depth = depth;
        }
        self.cast_constraint = !parsed.no_cast_constraint;
        self.dump_stats = parsed.dump_stats;
        self.call_graph_output = clone_opt(&parsed.call_graph_output);
        self.pts_output = clone_opt(&parsed.pts_output);
        self.mir_output = clone_opt(&parsed.mir_output);
        self.unsafe_stat_output = clone_opt(&parsed.unsafe_stat_output);
        self.dyn_calls_output = clone_opt(&parsed.dyn_calls_output);
        self.type_indices_output = clone_opt(&parsed.type_indices_output);
    }

    /// Takes the options from a command line, given what the grammar made of its
    /// arguments before the first `--` (all of them where there is none). Where
    /// there is no `--` and the options do not come from the environment, the
    /// arguments may not be meant for the analysis: an unknown option or a request
    /// for help hands them all on to the compiler (with the help shown where it was
    /// asked for). Otherwise a refusal ends the program. The arguments for the
    /// compiler are those after the first `--` (none without one), then the input
    /// files named among the options.
    pub fn apply_parse_result(&mut self, args: &Vec<String>, from_env: bool, parsed: Result<ParsedOptions, ParseErrorKind>) -> (r: ParseAction)
        requires
            parsed matches Ok(p) ==> (p.pta_type matches Some(t) ==> pta_type_named(t@) is Some),
        ensures
            match parsed {
                Err(kind) => if !from_env && first_separator(args@) is None && (kind == ParseErrorKind::DisplayHelp || kind == ParseErrorKind::UnknownArgument) {
                    r matches ParseAction::PassThrough(a, help) && texts(a@) == texts(args@) && help == (kind == ParseErrorKind::DisplayHelp)
                } else {
                    r == ParseAction::Exit(kind)
                },
                Ok(p) => r matches ParseAction::Proceed(rest) && texts(rest@) == texts(match first_separator(args@) {
                    Some(i) => args@.subrange(i + 1, args@.len() as int),
                    None => Seq::<String>::empty(),
                }) + parsed_view(p).inputs,
            },
            parsed is Err ==> *final(self) == *old(self),
            parsed matches Ok(p) ==> options_applied(*old(self), parsed_view(p), *final(self)),
    {
        let n = args.len();
        let separator = Self::find_separator(args);
        match parsed {
            Err(kind) => {
                let no_separator = match separator {
                    Some(_) => false,
                    None => true,
                };
                let passes = match kind {
                    ParseErrorKind::DisplayHelp => true,
                    ParseErrorKind::UnknownArgument => true,
                    _ => false,
                };
                if !from_env && no_separator && passes {
                    let none: Vec<String> = Vec::new();
                    let all = args_from(args, 0, &none);
                    proof {
                        assert(args@.subrange(0, args@.len() as int) =~= args@);
                        assert(texts(none@) =~= Seq::<Seq<char>>::empty());
                        assert(texts(args@) + Seq::<Seq<char>>::empty() =~= texts(args@));
                    }
                    let help = match kind {
                        ParseErrorKind::DisplayHelp => true,
                        _ => false,
                    };
                    ParseAction::PassThrough(all, help)
                } else {
                    ParseAction::Exit(kind)
                }
            },
            Ok(p) => {
                self.apply_parsed(&p);
                let start = match separator {
                    Some(i) => i + 1,
                    None => n,
                };
                let rest = args_from(args, start, &p.inputs);
                proof {
                    if separator is None {
                        assert(args@.subrange(args@.len() as int, args@.len() as int) =~= Seq::<String>::empty());
                    }
                }
                ParseAction::Proceed(rest)
            },
        }
    }

    /// Parses options from a list of strings: the options are those before the
    /// first `--` (all of them where there is none), read by the grammar of
    /// `options_of`; what follows is as `apply_parse_result` says.
    pub fn parse_from_args(&mut self, args: &Vec<String>, from_env: bool) -> (r: ParseAction)
        ensures
            match options_of(texts(args@).subrange(0, options_end(args@))) {
                Err(kind) => (if !from_env && first_separator(args@) is None && (kind == ParseErrorKind::DisplayHelp || kind == ParseErrorKind::UnknownArgument) {
                    r matches ParseAction::PassThrough(a, help) && texts(a@) == texts(args@) && help == (kind == ParseErrorKind::DisplayHelp)
                } else {
                    r == ParseAction::Exit(kind)
                }) && *final(self) == *old(self),
                Ok(o) => (r matches ParseAction::Proceed(rest) && texts(rest@) == texts(match first_separator(args@) {
                    Some(i) => args@.subrange(i + 1, args@.len() as int),
                    None => Seq::<String>::empty(),
                }) + o.inputs) && options_applied(*old(self), o, *final(self)),
            },
    {
        let end = match Self::find_separator(args) {
            Some(i) => i,
            None => args.len(),
        };
        let head = args_before(args, end);
        let parsed = parse_options(&head);
        self.apply_parse_result(args, from_env, parsed)
    }
}

/// The names of the options that name an output file are read as those options.
proof fn lemma_output_option_names()
    ensures
        key_named("dump-call-graph"@) == Some(OptKey::CallGraph),
        key_named("dump-pts"@) == Some(OptKey::Pts),
        key_named("dump-mir"@) == Some(OptKey::Mir),
        key_named("dump-unsafe-stats"@) == Some(OptKey::UnsafeStats),
        key_named("dump-dyn-calls"@) == Some(OptKey::DynCalls),
        key_named("dump-type-indices"@) == Some(OptKey::TypeIndices),
        find_char("dump-call-graph"@, '=', 0) is None,
        find_char("dump-pts"@, '=', 0) is None,
        find_char("dump-mir"@, '=', 0) is None,
        find_char("dump-unsafe-stats"@, '=', 0) is None,
        find_char("dump-dyn-calls"@, '=', 0) is None,
        find_char("dump-type-indices"@, '=', 0) is None,
{
    reveal_strlit("entry-func");
    reveal_strlit("entry-id");
    reveal_strlit("pta-type");
    reveal_strlit("context-depth");
    reveal_strlit("no-cast-constraint");
    reveal_strlit("dump-stats");
    reveal_strlit("dump-call-graph");
    reveal_strlit("dump-pts");
    reveal_strlit("dump-mir");
    reveal_strlit("dump-unsafe-stats");
    reveal_strlit("dump-dyn-calls");
    reveal_strlit("dump-type-indices");
    assert("entry-func"@.len() == 10 && "entry-id"@.len() == 8 && "pta-type"@.len() == 8);
    assert("context-depth"@.len() == 13 && "no-cast-constraint"@.len() == 18 && "dump-stats"@.len() == 10);
    assert("dump-call-graph"@.len() == 15 && "dump-pts"@.len() == 8 && "dump-mir"@.len() == 8);
    assert("dump-unsafe-stats"@.len() == 17 && "dump-dyn-calls"@.len() == 14 && "dump-type-indices"@.len() == 17);
    assert("dump-pts"@[0] != "entry-id"@[0] && "dump-pts"@[0] != "pta-type"@[0]);
    assert("dump-mir"@[0] != "entry-id"@[0] && "dump-mir"@[0] != "pta-type"@[0] && "dump-mir"@[5] != "dump-pts"@[5]);
    assert("dump-type-indices"@[5] != "dump-unsafe-stats"@[5]);
    reveal_with_fuel(find_char, 18);
}

/// An option that takes a value, given alone and followed by its value as the next
/// argument, sets that value and nothing else than the defaults.
proof fn lemma_value_option(name: Seq<char>, k: OptKey, v: Seq<char>)
    requires
        key_named(name) == Some(k),
        takes_value(k),
        find_char(name, '=', 0) is None,
        !flag_like(v),
        set_value(no_options(), k, v) is Some,
    ensures
        options_of(seq!["--"@ + name, v]) == Ok::<OptionsV, ParseErrorKind>(with_defaults(set_value(no_options(), k, v).unwrap())),
{
    reveal_strlit("--");
    let args = seq!["--"@ + name, v];
    let t = args[0];
    assert(t.subrange(2, t.len() as int) =~= name);
    assert(args[1] == v);
    reveal_with_fuel(parse_run, 2);
    assert(step(args, 0, no_options()) == Ok::<(OptionsV, int), ParseErrorKind>((set_value(no_options(), k, v).unwrap(), 2int)));
}

/// Each option that names an output file sets that file and no other: given alone
/// with its value, `--dump-pts FILE` names the file the points-to sets are written
/// to, `--dump-mir FILE` the file the MIR is written to, and so
/// `--dump-call-graph`, `--dump-unsafe-stats`, `--dump-dyn-calls` and
/// `--dump-type-indices` for the call graph, the unsafe statistics, the dynamic
/// calls and the type indices; every other option keeps its default.
pub proof fn law_output_options(v: Seq<char>)
    requires
        !flag_like(v),
    ensures
        options_of(seq!["--dump-pts"@, v]) == Ok::<OptionsV, ParseErrorKind>(with_defaults((OptionsV { pts_output: Some(v), ..no_options() }))),
        options_of(seq!["--dump-mir"@, v]) == Ok::<OptionsV, ParseErrorKind>(with_defaults((OptionsV { mir_output: Some(v), ..no_options() }))),
        options_of(seq!["--dump-call-graph"@, v]) == Ok::<OptionsV, ParseErrorKind>(with_defaults((OptionsV { call_graph_output: Some(v), ..no_options() }))),
        options_of(seq!["--dump-unsafe-stats"@, v]) == Ok::<OptionsV, ParseErrorKind>(with_defaults((OptionsV { unsafe_stat_output: Some(v), ..no_options() }))),
        options_of(seq!["--dump-dyn-calls"@, v]) == Ok::<OptionsV, ParseErrorKind>(with_defaults((OptionsV { dyn_calls_output: Some(v), ..no_options() }))),
        options_of(seq!["--dump-type-indices"@, v]) == Ok::<OptionsV, ParseErrorKind>(with_defaults((OptionsV { type_indices_output: Some(v), ..no_options() }))),
{
    lemma_output_option_names();
    reveal_strlit("--");
    reveal_strlit("dump-call-graph");
    reveal_strlit("dump-pts");
    reveal_strlit("dump-mir");
    reveal_strlit("dump-unsafe-stats");
    reveal_strlit("dump-dyn-calls");
    reveal_strlit("dump-type-indices");
    reveal_strlit("--dump-call-graph");
    reveal_strlit("--dump-pts");
    reveal_strlit("--dump-mir");
    reveal_strlit("--dump-unsafe-stats");
    reveal_strlit("--dump-dyn-calls");
    reveal_strlit("--dump-type-indices");
    assert("--dump-pts"@ =~= "--"@ + "dump-pts"@);
    assert("--dump-mir"@ =~= "--"@ + "dump-mir"@);
    assert("--dump-call-graph"@ =~= "--"@ + "dump-call-graph"@);
    assert("--dump-unsafe-stats"@ =~= "--"@ + "dump-unsafe-stats"@);
    assert("--dump-dyn-calls"@ =~= "--"@ + "dump-dyn-calls"@);
    assert("--dump-type-indices"@ =~= "--"@ + "dump-type-indices"@);
    lemma_value_option("dump-pts"@, OptKey::Pts, v);
    lemma_value_option("dump-mir"@, OptKey::Mir, v);
    lemma_value_option("dump-call-graph"@, OptKey::CallGraph, v);
    lemma_value_option("dump-unsafe-stats"@, OptKey::UnsafeStats, v);
    lemma_value_option("dump-dyn-calls"@, OptKey::DynCalls, v);
    lemma_value_option("dump-type-indices"@, OptKey::TypeIndices, v);
}

/// Arguments that are not read as options run to their end as inputs.
proof fn lemma_inputs_run(args: Seq<Seq<char>>, i: int, st: OptionsV)
    requires
        0 <= i <= args.len(),
        forall|j: int| 0 <= j < args.len() ==> !flag_like(#[trigger] args[j]),
    ensures
        parse_run(args, i, st) == Ok::<OptionsV, ParseErrorKind>((OptionsV { inputs: st.inputs + args.subrange(i, args.len() as int), ..st })),
    decreases args.len() - i,
{
    if i == args.len() {
        assert(st.inputs + args.subrange(i, args.len() as int) =~= st.inputs);
    } else {
        let s2 = OptionsV { inputs: st.inputs.push(args[i]), ..st };
        assert(!flag_like(args[i]));
        assert(step(args, i, st) == Ok::<(OptionsV, int), ParseErrorKind>((s2, i + 1)));
        lemma_inputs_run(args, i + 1, s2);
        assert(s2.inputs + args.subrange(i + 1, args.len() as int) =~= st.inputs + args.subrange(i, args.len() as int));
    }
}

/// A command line without options names inputs only: each argument that does not
/// start like an option is an input, in the order given, and every option keeps
/// its default: a call-site-sensitive analysis with contexts of depth 1, no entry
/// function named, casts constrained, no statistics and no output file.
pub proof fn law_arguments_name_inputs(args: Seq<Seq<char>>)
    requires
        forall|j: int| 0 <= j < args.len() ==> !flag_like(#[trigger] args[j]),
    ensures
        options_of(args) == Ok::<OptionsV, ParseErrorKind>((OptionsV {
            entry_func: None,
            entry_def_id: None,
            pta_type: Some("callsite-sensitive"@),
            context_depth: Some(1u32),
            no_cast_constraint: false,
            dump_stats: false,
            call_graph_output: None,
            pts_output: None,
            mir_output: None,
            unsafe_stat_output: None,
            dyn_calls_output: None,
            type_indices_output: None,
            inputs: args,
        })),
{
    lemma_inputs_run(args, 0, no_options());
    assert(no_options().inputs + args.subrange(0, args.len() as int) =~= args);
}

/// A command line that starts by asking for the help (`--help` or `-h`) or the
/// version (`--version` or `-V`) is answered so, whatever follows.
pub proof fn law_help_and_version_first(args: Seq<Seq<char>>)
    requires
        args.len() > 0,
    ensures
        args[0] == "--help"@ || args[0] == "-h"@ ==> options_of(args) == Err::<OptionsV, ParseErrorKind>(ParseErrorKind::DisplayHelp),
        args[0] == "--version"@ || args[0] == "-V"@ ==> options_of(args) == Err::<OptionsV, ParseErrorKind>(ParseErrorKind::DisplayVersion),
{
    reveal_strlit("--help");
    reveal_strlit("-h");
    reveal_strlit("--version");
    reveal_strlit("-V");
    reveal_strlit("help");
    reveal_strlit("version");
    reveal_strlit("entry-func");
    reveal_strlit("entry-id");
    reveal_strlit("pta-type");
    reveal_strlit("context-depth");
    reveal_strlit("no-cast-constraint");
    reveal_strlit("dump-stats");
    reveal_strlit("dump-call-graph");
    reveal_strlit("dump-pts");
    reveal_strlit("dump-mir");
    reveal_strlit("dump-unsafe-stats");
    reveal_strlit("dump-dyn-calls");
    reveal_strlit("dump-type-indices");
    assert("help"@.len() == 4 && "version"@.len() == 7);
    assert("entry-func"@.len() == 10 && "entry-id"@.len() == 8 && "pta-type"@.len() == 8);
    assert("context-depth"@.len() == 13 && "no-cast-constraint"@.len() == 18 && "dump-stats"@.len() == 10);
    assert("dump-call-graph"@.len() == 15 && "dump-pts"@.len() == 8 && "dump-mir"@.len() == 8);
    assert("dump-unsafe-stats"@.len() == 17 && "dump-dyn-calls"@.len() == 14 && "dump-type-indices"@.len() == 17);
    reveal_with_fuel(find_char, 8);
    let t = args[0];
    if t == "--help"@ {
        assert(t.subrange(2, t.len() as int) =~= "help"@);
    } else if t == "--version"@ {
        assert(t.subrange(2, t.len() as int) =~= "version"@);
    }
}

/// The first `=` after a text without one is the one that follows that text.
proof fn lemma_find_char_after(a: Seq<char>, b: Seq<char>, c: char, k: int)
    requires
        0 <= k <= a.len(),
        find_char(a, c, k) is None,
        b.len() > 0,
        b[0] == c,
    ensures
        find_char(a + b, c, k) == Some(a.len() as int),
    decreases a.len() - k,
{
    if k < a.len() {
        assert((a + b)[k] == a[k]);
        lemma_find_char_after(a, b, c, k + 1);
    } else {
        assert((a + b)[k] == b[0]);
    }
}

/// An option that takes a value, written `--name=value` alone, sets that value and
/// nothing else than the defaults.
proof fn lemma_value_option_joined(name: Seq<char>, k: OptKey, v: Seq<char>)
    requires
        key_named(name) == Some(k),
        takes_value(k),
        find_char(name, '=', 0) is None,
        set_value(no_options(), k, v) is Some,
    ensures
        options_of(seq!["--"@ + name + "="@ + v]) == Ok::<OptionsV, ParseErrorKind>(with_defaults(set_value(no_options(), k, v).unwrap())),
{
    reveal_strlit("--");
    reveal_strlit("=");
    let args = seq!["--"@ + name + "="@ + v];
    let t = args[0];
    let body = t.subrange(2, t.len() as int);
    assert(body =~= name + ("="@ + v));
    lemma_find_char_after(name, "="@ + v, '=', 0);
    let p = name.len() as int;
    assert(body.subrange(0, p) =~= name);
    assert(body.subrange(p + 1, body.len() as int) =~= v);
    reveal_with_fuel(parse_run, 2);
    assert(step(args, 0, no_options()) == Ok::<(OptionsV, int), ParseErrorKind>((set_value(no_options(), k, v).unwrap(), 1int)));
}

/// An output option given twice is refused.
proof fn lemma_value_option_twice(name: Seq<char>, k: OptKey, v: Seq<char>, w: Seq<char>)
    requires
        key_named(name) == Some(k),
        takes_value(k),
        find_char(name, '=', 0) is None,
        !flag_like(v),
        !flag_like(w),
        set_value(no_options(), k, v) is Some,
        set_value(set_value(no_options(), k, v).unwrap(), k, w) is None,
    ensures
        options_of(seq!["--"@ + name, v, "--"@ + name, w]) == Err::<OptionsV, ParseErrorKind>(ParseErrorKind::Other),
{
    reveal_strlit("--");
    let args = seq!["--"@ + name, v, "--"@ + name, w];
    let t = args[0];
    assert(t.subrange(2, t.len() as int) =~= name);
    assert(args[2] == t);
    assert(args[1] == v && args[3] == w);
    let s1 = set_value(no_options(), k, v).unwrap();
    assert(step(args, 0, no_options()) == Ok::<(OptionsV, int), ParseErrorKind>((s1, 2int)));
    assert(step(args, 2, s1) == Err::<(OptionsV, int), ParseErrorKind>(ParseErrorKind::Other));
    reveal_with_fuel(parse_run, 3);
}

/// An option that names an output file may also be written `--name=FILE`, with
/// the same meaning as `--name FILE`, whatever the file's name; and it may be
/// given once only: given twice, the command line is refused.
pub proof fn law_output_option_forms(v: Seq<char>, w: Seq<char>)
    ensures
        options_of(seq!["--dump-pts="@ + v]) == Ok::<OptionsV, ParseErrorKind>(with_defaults((OptionsV { pts_output: Some(v), ..no_options() }))),
        options_of(seq!["--dump-mir="@ + v]) == Ok::<OptionsV, ParseErrorKind>(with_defaults((OptionsV { mir_output: Some(v), ..no_options() }))),
        options_of(seq!["--dump-call-graph="@ + v]) == Ok::<OptionsV, ParseErrorKind>(with_defaults((OptionsV { call_graph_output: Some(v), ..no_options() }))),
        options_of(seq!["--dump-unsafe-stats="@ + v]) == Ok::<OptionsV, ParseErrorKind>(with_defaults((OptionsV { unsafe_stat_output: Some(v), ..no_options() }))),
        options_of(seq!["--dump-dyn-calls="@ + v]) == Ok::<OptionsV, ParseErrorKind>(with_defaults((OptionsV { dyn_calls_output: Some(v), ..no_options() }))),
        options_of(seq!["--dump-type-indices="@ + v]) == Ok::<OptionsV, ParseErrorKind>(with_defaults((OptionsV { type_indices_output: Some(v), ..no_options() }))),
        !flag_like(v) && !flag_like(w) ==> options_of(seq!["--dump-pts"@, v, "--dump-pts"@, w]) == Err::<OptionsV, ParseErrorKind>(ParseErrorKind::Other),
        !flag_like(v) && !flag_like(w) ==> options_of(seq!["--dump-mir"@, v, "--dump-mir"@, w]) == Err::<OptionsV, ParseErrorKind>(ParseErrorKind::Other),
{
    lemma_output_option_names();
    reveal_strlit("--");
    reveal_strlit("=");
    reveal_strlit("dump-call-graph");
    reveal_strlit("dump-pts");
    reveal_strlit("dump-mir");
    reveal_strlit("dump-unsafe-stats");
    reveal_strlit("dump-dyn-calls");
    reveal_strlit("dump-type-indices");
    reveal_strlit("--dump-pts");
    reveal_strlit("--dump-mir");
    reveal_strlit("--dump-call-graph=");
    reveal_strlit("--dump-pts=");
    reveal_strlit("--dump-mir=");
    reveal_strlit("--dump-unsafe-stats=");
    reveal_strlit("--dump-dyn-calls=");
    reveal_strlit("--dump-type-indices=");
    assert("--dump-pts="@ + v =~= "--"@ + "dump-pts"@ + "="@ + v);
    assert("--dump-mir="@ + v =~= "--"@ + "dump-mir"@ + "="@ + v);
    assert("--dump-call-graph="@ + v =~= "--"@ + "dump-call-graph"@ + "="@ + v);
    assert("--dump-unsafe-stats="@ + v =~= "--"@ + "dump-unsafe-stats"@ + "="@ + v);
    assert("--dump-dyn-calls="@ + v =~= "--"@ + "dump-dyn-calls"@ + "="@ + v);
    assert("--dump-type-indices="@ + v =~= "--"@ + "dump-type-indices"@ + "="@ + v);
    lemma_value_option_joined("dump-pts"@, OptKey::Pts, v);
    lemma_value_option_joined("dump-mir"@, OptKey::Mir, v);
    lemma_value_option_joined("dump-call-graph"@, OptKey::CallGraph, v);
    lemma_value_option_joined("dump-unsafe-stats"@, OptKey::UnsafeStats, v);
    lemma_value_option_joined("dump-dyn-calls"@, OptKey::DynCalls, v);
    lemma_value_option_joined("dump-type-indices"@, OptKey::TypeIndices, v);
    assert("--dump-pts"@ =~= "--"@ + "dump-pts"@);
    assert("--dump-mir"@ =~= "--"@ + "dump-mir"@);
    if !flag_like(v) && !flag_like(w) {
        lemma_value_option_twice("dump-pts"@, OptKey::Pts, v, w);
        lemma_value_option_twice("dump-mir"@, OptKey::Mir, v, w);
    }
}

/// A command line that starts with an option that is not known is refused as such:
/// `--` and a name that is no option's, nor `help` or `version`; or a `-` and
/// more that is neither `-h` nor `-V`.
pub proof fn law_unknown_option_refused(args: Seq<Seq<char>>, name: Seq<char>)
    requires
        args.len() > 0,
    ensures
        args[0] == "--"@ + name && find_char(name, '=', 0) is None && key_named(name) is None
            && name != "help"@ && name != "version"@
            ==> options_of(args) == Err::<OptionsV, ParseErrorKind>(ParseErrorKind::UnknownArgument),
        flag_like(args[0]) && args[0][1] != '-' && args[0] != "-h"@ && args[0] != "-V"@
            ==> options_of(args) == Err::<OptionsV, ParseErrorKind>(ParseErrorKind::UnknownArgument),
{
    reveal_strlit("--");
    let t = args[0];
    if t == "--"@ + name {
        assert(t.subrange(2, t.len() as int) =~= name);
    }
}

} // verus!
