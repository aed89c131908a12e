//! The decisions of the `cargo pta` subcommand: which flags its command line holds,
//! what `cargo` is asked to do for a target, and when the analysis stands in for
//! the compiler.

use vstd::prelude::*;
use vstd::string::*;
use crate::mir::known_names::str_eq;
use crate::util::options::texts;
use crate::util::{blank, is_blank, skip_blanks};

verus! {

/// The arguments before the first `--`.
pub open spec fn before_separator(args: Seq<Seq<char>>) -> Seq<Seq<char>>
    decreases args.len(),
{
    if args.len() == 0 || args[0] == "--"@ {
        Seq::empty()
    } else {
        seq![args[0]] + before_separator(args.skip(1))
    }
}

/// The arguments after the first `--` (none without one).
pub open spec fn after_separator(args: Seq<Seq<char>>) -> Seq<Seq<char>>
    decreases args.len(),
{
    if args.len() == 0 {
        Seq::empty()
    } else if args[0] == "--"@ {
        args.skip(1)
    } else {
        after_separator(args.skip(1))
    }
}

/// The value of the flag `name` among `args`: the argument after the first one that
/// is `name` itself, or what follows `name=` in the first one that starts so;
/// arguments that merely start with `name` are passed over.
pub open spec fn flag_value(args: Seq<Seq<char>>, name: Seq<char>) -> Option<Seq<char>>
    decreases args.len(),
{
    if args.len() == 0 {
        None
    } else if args[0].len() >= name.len() && args[0].subrange(0, name.len() as int) == name {
        let suffix = args[0].skip(name.len() as int);
        if suffix.len() == 0 {
            if args.len() > 1 {
                Some(args[1])
            } else {
                None
            }
        } else if suffix[0] == '=' {
            Some(suffix.skip(1))
        } else {
            flag_value(args.skip(1), name)
        }
    } else {
        flag_value(args.skip(1), name)
    }
}

/// `s` starts with `prefix`.
fn starts_with(s: &str, prefix: &str) -> (r: bool)
    ensures
        r == (s@.len() >= prefix@.len() && s@.subrange(0, prefix@.len() as int) == prefix@),
{
    let n = s.unicode_len();
    let m = prefix.unicode_len();
    if n < m {
        return false;
    }
    let mut i: usize = 0;
    while i < m
        invariant
            i <= m,
            m <= n,
            n == s@.len(),
            m == prefix@.len(),
            forall|j: int| 0 <= j < i ==> s@[j] == prefix@[j],
        decreases m - i,
    {
        if s.get_char(i) != prefix.get_char(i) {
            assert(s@.subrange(0, m as int)[i as int] != prefix@[i as int]);
            return false;
        }
        i = i + 1;
    }
    assert(s@.subrange(0, m as int) =~= prefix@);
    true
}

/// The number of arguments before the first `--`.
fn separator_position(args: &Vec<String>) -> (r: usize)
    ensures
        r <= args@.len(),
        before_separator(texts(args@)) == texts(args@.subrange(0, r as int)),
        after_separator(texts(args@)) == if r < args@.len() {
            texts(args@.subrange(r + 1, args@.len() as int))
        } else {
            Seq::<Seq<char>>::empty()
        },
{
    let n = args.len();
    let mut i: usize = 0;
    while i < n
        invariant
            i <= n,
            n == args@.len(),
            forall|j: int| 0 <= j < i ==> args@[j]@ != "--"@,
        decreases n - i,
    {
        if str_eq(args[i].as_str(), "--") {
            proof {
                lemma_separator_at(texts(args@), i as int);
            }
            return i;
        }
        i = i + 1;
    }
    proof {
        lemma_separator_at(texts(args@), n as int);
    }
    n
}

/// Where the first `--` stands at `k` (or there is none, `k` being the length),
/// the arguments before and after it.
proof fn lemma_separator_at(args: Seq<Seq<char>>, k: int)
    requires
        0 <= k <= args.len(),
        forall|j: int| 0 <= j < k ==> args[j] != "--"@,
        k < args.len() ==> args[k] == "--"@,
    ensures
        before_separator(args) == args.subrange(0, k),
        after_separator(args) == if k < args.len() {
            args.subrange(k + 1, args.len() as int)
        } else {
            Seq::<Seq<char>>::empty()
        },
    decreases args.len(),
{
    if args.len() == 0 {
        assert(args.subrange(0, k) =~= Seq::<Seq<char>>::empty());
    } else if k == 0 {
        assert(args.subrange(0, 0) =~= Seq::<Seq<char>>::empty());
        if args.len() > 0 {
            assert(args.skip(1) =~= args.subrange(1, args.len() as int));
        }
    } else {
        lemma_separator_at(args.skip(1), k - 1);
        assert(seq![args[0]] + args.skip(1).subrange(0, k - 1) =~= args.subrange(0, k));
        if k < args.len() {
            assert(args.skip(1).subrange(k, args.len() - 1) =~= args.subrange(k + 1, args.len() as int));
        }
    }
}

proof fn lemma_texts_push(s: Seq<String>, x: String)
    ensures
        texts(s.push(x)) == texts(s).push(x@),
{
    assert(texts(s.push(x)) =~= texts(s).push(x@));
}

proof fn lemma_texts_extend(s: Seq<String>, a: int, i: int)
    requires
        0 <= a <= i < s.len(),
    ensures
        texts(s.subrange(a, i + 1)) == texts(s.subrange(a, i)).push(s[i]@),
{
    assert(texts(s.subrange(a, i + 1)) =~= texts(s.subrange(a, i)).push(s[i]@));
}

/// Determines whether a flag `name` is present before `--`.
/// For example, has_arg_flag("-v")
pub fn has_arg_flag(args: &Vec<String>, name: &str) -> (r: bool)
    ensures
        r == before_separator(texts(args@)).contains(name@),
{
    let end = separator_position(args);
    let mut i: usize = 0;
    while i < end
        invariant
            i <= end,
            end <= args@.len(),
            before_separator(texts(args@)) == texts(args@.subrange(0, end as int)),
            forall|j: int| 0 <= j < i ==> args@[j]@ != name@,
        decreases end - i,
    {
        if str_eq(args[i].as_str(), name) {
            proof {
                let before = texts(args@.subrange(0, end as int));
                assert(before[i as int] == name@);
                assert(before.contains(name@));
            }
            return true;
        }
        i = i + 1;
    }
    proof {
        let before = texts(args@.subrange(0, end as int));
        if before.contains(name@) {
            let k = choose|k: int| 0 <= k < before.len() && before[k] == name@;
            assert(args@[k]@ == name@);
        }
    }
    false
}

/// Finds the value of the flag `name` before `--`, given as `name value` or as
/// `name=value`.
pub fn get_arg_flag_value(args: &Vec<String>, name: &str) -> (r: Option<String>)
    ensures
        match flag_value(before_separator(texts(args@)), name@) {
            Some(v) => r matches Some(s) && s@ == v,
            None => r is None,
        },
{
    let end = separator_position(args);
    let ghost prefix = texts(args@.subrange(0, end as int));
    let m = name.unicode_len();
    let mut i: usize = 0;
    proof {
        assert(prefix.skip(0) =~= prefix);
    }
    while i < end
        invariant
            i <= end,
            end <= args@.len(),
            m == name@.len(),
            prefix == texts(args@.subrange(0, end as int)),
            before_separator(texts(args@)) == prefix,
            flag_value(prefix, name@) == flag_value(prefix.skip(i as int), name@),
        decreases end - i,
    {
        let arg = args[i].as_str();
        proof {
            assert(prefix.len() == end);
            assert(prefix[i as int] == args@[i as int]@);
            assert(prefix.skip(i as int)[0] == arg@);
            assert(prefix.skip(i as int).len() == end - i);
            assert(prefix.skip(i as int).skip(1) =~= prefix.skip(i + 1));
        }
        if starts_with(arg, name) {
            let n = arg.unicode_len();
            if n == m {
                proof {
                    assert(arg@.skip(m as int).len() == 0);
                }
                if i + 1 < end {
                    proof {
                        assert(prefix[i + 1] == args@[i + 1]@);
                        assert(prefix.skip(i as int)[1] == args@[i + 1]@);
                    }
                    return Some(args[i + 1].clone());
                } else {
                    return None;
                }
            } else if arg.get_char(m) == '=' {
                let value = arg.substring_char(m + 1, n);
                proof {
                    assert(arg@.skip(m as int)[0] == '=');
                    assert(value@ =~= arg@.skip(m as int).skip(1));
                }
                return Some(String::from_str(value));
            }
        }
        i = i + 1;
    }
    proof {
        assert(prefix.skip(end as int) =~= Seq::<Seq<char>>::empty());
    }
    None
}

/// Whether a compiler invocation is to be handled by the analysis: the crate
/// compiled is the one `cargo pta` was asked about (`PTA_CRATE`), of the kind it was
/// asked about (`PTA_TARGET_KIND`), or of kind `test` where the invocation names
/// no crate type. Any other invocation goes to the compiler.
pub fn should_call_pta(crate_name: Option<&str>, pta_crate: Option<&str>, target_kind: Option<&str>, crate_type: Option<&str>) -> (r: bool)
    ensures
        r == (crate_name is Some && pta_crate is Some && crate_name->0@ == pta_crate->0@ && target_kind is Some && match crate_type {
            Some(t) => target_kind->0@ == t@,
            None => target_kind->0@ == "test"@,
        }),
{
    match (crate_name, pta_crate, target_kind) {
        (Some(c), Some(p), Some(kind)) => {
            if str_eq(c, p) {
                match crate_type {
                    Some(t) => str_eq(kind, t),
                    None => str_eq(kind, "test"),
                }
            } else {
                false
            }
        },
        _ => false,
    }
}

/// The `cargo` command for a target of kind `kind` (`bin`, `lib` or `test`; none
/// for any other): check a binary (naming it where `bin_given` is false, that is
/// where the command line names none) or a library, or build the tests without
/// running them; verbosely, with the given arguments, less `--lib`.
pub fn cargo_target_args(target: &str, kind: &str, bin_given: bool, args: &Vec<String>) -> (r: Option<Vec<String>>)
    ensures
        (kind@ == "bin"@ || kind@ == "lib"@ || kind@ == "test"@) <==> r is Some,
        r matches Some(v) ==> texts(v@) == (if kind@ == "bin"@ {
            if bin_given {
                seq!["check"@]
            } else {
                seq!["check"@, "--bin"@, target@]
            }
        } else if kind@ == "lib"@ {
            seq!["check"@, "--lib"@]
        } else {
            seq!["test"@, "--no-run"@]
        }) + seq!["--verbose"@] + texts(args@).filter(|a: Seq<char>| a != "--lib"@),
{
    let mut v: Vec<String> = Vec::new();
    if str_eq(kind, "bin") {
        v.push(String::from_str("check"));
        if !bin_given {
            v.push(String::from_str("--bin"));
            v.push(String::from_str(target));
        }
    } else if str_eq(kind, "lib") {
        v.push(String::from_str("check"));
        v.push(String::from_str("--lib"));
    } else if str_eq(kind, "test") {
        v.push(String::from_str("test"));
        v.push(String::from_str("--no-run"));
    } else {
        return None;
    }
    v.push(String::from_str("--verbose"));
    let ghost head = texts(v@);
    let mut i: usize = 0;
    while i < args.len()
        invariant
            i <= args@.len(),
            texts(v@) == head + texts(args@.subrange(0, i as int)).filter(|a: Seq<char>| a != "--lib"@),
        decreases args@.len() - i,
    {
        let ghost before = v@;
        let keep = !str_eq(args[i].as_str(), "--lib");
        if keep {
            v.push(args[i].clone());
        }
        proof {
            let f = |a: Seq<char>| a != "--lib"@;
            let x = args@[i as int]@;
            let old_part = texts(args@.subrange(0, i as int));
            lemma_texts_extend(args@, 0, i as int);
            old_part.lemma_filter_push(x, f);
            if keep {
                lemma_texts_push(before, v@.last());
                assert(v@ == before.push(v@.last()));
                assert(texts(v@) == texts(before).push(x));
                assert(head + old_part.filter(f).push(x) =~= (head + old_part.filter(f)).push(x));
            } else {
                assert(v@ == before);
            }
        }
        i = i + 1;
    }
    proof {
        assert(args@.subrange(0, args@.len() as int) =~= args@);
    }
    Some(v)
}

/// The arguments given to `cargo pta` after the name of the subcommand: those
/// before `--` go to `cargo`, those after it to the analysis.
pub fn split_pta_args(args: &Vec<String>) -> (r: (Vec<String>, Vec<String>))
    ensures
        texts(r.0@) == before_separator(texts(args@)),
        texts(r.1@) == after_separator(texts(args@)),
{
    let end = separator_position(args);
    let mut before: Vec<String> = Vec::new();
    let mut after: Vec<String> = Vec::new();
    let mut i: usize = 0;
    while i < args.len()
        invariant
            i <= args@.len(),
            end <= args@.len(),
            i <= end ==> texts(before@) == texts(args@.subrange(0, i as int)),
            i <= end ==> after@.len() == 0,
            i > end ==> texts(before@) == texts(args@.subrange(0, end as int)),
            i > end ==> texts(after@) == texts(args@.subrange(end + 1, i as int)),
        decreases args@.len() - i,
    {
        if i < end {
            let ghost b = before@;
            before.push(args[i].clone());
            proof {
                lemma_texts_push(b, before@.last());
                assert(before@ == b.push(before@.last()));
                lemma_texts_extend(args@, 0, i as int);
            }
        } else if i > end {
            let ghost a = after@;
            after.push(args[i].clone());
            proof {
                lemma_texts_push(a, after@.last());
                assert(after@ == a.push(after@.last()));
                lemma_texts_extend(args@, end + 1, i as int);
            }
        } else {
            proof {
                assert(texts(after@) =~= texts(args@.subrange(end + 1, i + 1)));
            }
        }
        i = i + 1;
    }
    proof {
        if end == args@.len() {
            assert(texts(after@) =~= Seq::<Seq<char>>::empty());
        }
    }
    (before, after)
}

/// The position of the first `\n` of `s` at or after `i`, or the end of `s`.
pub open spec fn next_newline(s: Seq<char>, i: int) -> int
    decreases s.len() - i,
{
    if i >= s.len() || s[i] == '\n' {
        i
    } else {
        next_newline(s, i + 1)
    }
}

/// The end of the word of `s` that starts at `i`: the first white space character
/// at or after `i`, or `e`.
pub open spec fn word_end(s: Seq<char>, i: int, e: int) -> int
    decreases e - i,
{
    if i >= e || is_blank(s[i]) {
        i
    } else {
        word_end(s, i + 1, e)
    }
}

pub proof fn lemma_next_newline(s: Seq<char>, i: int)
    requires
        0 <= i,
    ensures
        i <= next_newline(s, i),
        i <= s.len() ==> next_newline(s, i) <= s.len(),
        next_newline(s, i) < s.len() ==> s[next_newline(s, i)] == '\n',
        forall|k: int| i <= k < next_newline(s, i) ==> s[k] != '\n',
    decreases s.len() - i,
{
    if i < s.len() && s[i] != '\n' {
        lemma_next_newline(s, i + 1);
    }
}

/// `s` ends with `t`.
pub open spec fn ends_with_text(s: Seq<char>, t: Seq<char>) -> bool {
    s.len() >= t.len() && s.subrange(s.len() - t.len(), s.len() as int) == t
}

/// Scans the lines of a target listing from position `pos` on, each line up to the
/// next `\n`: the first word of the first line whose first word ends `sysroot`
/// (`Ok(Some(..))`), `Ok(None)` where no line's does, or `Err` with the position of
/// the first line met that holds no word.
pub open spec fn target_scan(listing: Seq<char>, sysroot: Seq<char>, pos: int) -> Result<Option<Seq<char>>, int>
    decreases listing.len() - pos,
{
    if pos < 0 || pos >= listing.len() {
        Ok(None)
    } else {
        let e = next_newline(listing, pos);
        let a = skip_blanks(listing, pos, e);
        if a >= e {
            Err(pos)
        } else {
            let t = listing.subrange(a, word_end(listing, a, e));
            if ends_with_text(sysroot, t) {
                Ok(Some(t))
            } else if e >= listing.len() {
                Ok(None)
            } else {
                proof {
                    lemma_next_newline(listing, pos);
                }
                target_scan(listing, sysroot, e + 1)
            }
        }
    }
}

/// `s` ends with `t`.
fn ends_with(s: &str, t: &str) -> (r: bool)
    ensures
        r == ends_with_text(s@, t@),
{
    let n = s.unicode_len();
    let m = t.unicode_len();
    if n < m {
        return false;
    }
    let mut i: usize = 0;
    while i < m
        invariant
            i <= m,
            m <= n,
            n == s@.len(),
            m == t@.len(),
            forall|j: int| 0 <= j < i ==> s@[n - m + j] == t@[j],
        decreases m - i,
    {
        if s.get_char(n - m + i) != t.get_char(i) {
            assert(s@.subrange(n - m, n as int)[i as int] != t@[i as int]);
            return false;
        }
        i = i + 1;
    }
    assert(s@.subrange(n - m, n as int) =~= t@);
    true
}

/// The target of the toolchain at `sysroot` (such as `x86_64-unknown-linux-gnu`),
/// from the listing of the targets that `rustup target list` prints: the first word
/// of the first line whose first word ends `sysroot`, if there is one. A line with
/// no word before that one is an error, given by its position.
pub fn toolchain_target_in(sysroot: &str, listing: &str) -> (r: Result<Option<String>, usize>)
    ensures
        match target_scan(listing@, sysroot@, 0) {
            Ok(Some(t)) => r matches Ok(Some(x)) && x@ == t,
            Ok(None) => r matches Ok(None),
            Err(p) => r matches Err(q) && q == p,
        },
{
    let n = listing.unicode_len();
    let ghost s = listing@;
    let mut pos: usize = 0;
    while pos < n
        invariant
            pos <= n,
            n == s.len(),
            s == listing@,
            target_scan(s, sysroot@, 0) == target_scan(s, sysroot@, pos as int),
        decreases n - pos,
    {
        let mut e: usize = pos;
        while e < n && listing.get_char(e) != '\n'
            invariant
                pos <= e <= n,
                n == s.len(),
                s == listing@,
                next_newline(s, pos as int) == next_newline(s, e as int),
            decreases n - e,
        {
            e = e + 1;
        }
        let mut a: usize = pos;
        while a < e && blank(listing.get_char(a))
            invariant
                pos <= a <= e,
                e <= n,
                n == s.len(),
                s == listing@,
                skip_blanks(s, pos as int, e as int) == skip_blanks(s, a as int, e as int),
            decreases e - a,
        {
            a = a + 1;
        }
        if a >= e {
            return Err(pos);
        }
        let mut b: usize = a;
        while b < e && !blank(listing.get_char(b))
            invariant
                a <= b <= e,
                e <= n,
                n == s.len(),
                s == listing@,
                word_end(s, a as int, e as int) == word_end(s, b as int, e as int),
            decreases e - b,
        {
            b = b + 1;
        }
        let word = listing.substring_char(a, b);
        proof {
            assert(word@ =~= s.subrange(a as int, b as int));
        }
        if ends_with(sysroot, word) {
            return Ok(Some(String::from_str(word)));
        }
        if e >= n {
            return Ok(None);
        }
        pos = e + 1;
    }
    Ok(None)
}


/// The JSON text of a list of strings, as `serde_json::to_string` writes it.
pub uninterp spec fn json_of_strings(args: Seq<Seq<char>>) -> Seq<char>;

/// Calls `serde_json::to_string` on a list of strings: a JSON array of JSON
/// strings. Claimed: the text is the one named `json_of_strings` for the texts of
/// the list. The call cannot fail on a list of strings (serde_json fails only where
/// a value's serializer does, or on maps with keys that are not strings), so its
/// error arm is never taken.
#[verifier::external_body]
fn strings_to_json(args: &Vec<String>) -> (r: String)
    ensures
        r@ == json_of_strings(texts(args@)),
{
    match serde_json::to_string(args) {
        Ok(text) => text,
        Err(_) => String::new(),
    }
}

/// The value of `PTA_FLAGS`, in which the arguments for the analysis travel to the
/// compiler wrapper: none where there are no arguments, else their JSON text.
pub fn pta_flags(pta_args: &Vec<String>) -> (r: Option<String>)
    ensures
        pta_args@.len() == 0 ==> r is None,
        pta_args@.len() > 0 ==> (r matches Some(t) && t@ == json_of_strings(texts(pta_args@))),
{
    if pta_args.len() == 0 {
        None
    } else {
        Some(strings_to_json(pta_args))
    }
}

} // verus!
