//! Information collected about crates, functions and call sites.

pub mod vec_set;

use vstd::prelude::*;
use vstd::string::*;

verus! {

/// `s` with every occurrence of `from` replaced by `to`, the occurrences taken
/// from left to right without overlap.
pub open spec fn replace_all(s: Seq<char>, from: Seq<char>, to: Seq<char>) -> Seq<char>
    decreases s.len(),
{
    if from.len() == 0 || s.len() < from.len() {
        s
    } else if s.subrange(0, from.len() as int) == from {
        to + replace_all(s.skip(from.len() as int), from, to)
    } else {
        seq![s[0]] + replace_all(s.skip(1), from, to)
    }
}

/// `pat` occurs in `s` at position `i`.
fn occurs_at(s: &str, n: usize, i: usize, pat: &str, m: usize) -> (r: bool)
    requires
        n == s@.len(),
        m == pat@.len(),
        i + m <= n,
    ensures
        r == (s@.subrange(i as int, i + m) == pat@),
{
    let mut j: usize = 0;
    while j < m
        invariant
            j <= m,
            n == s@.len(),
            m == pat@.len(),
            i + m <= n,
            forall|k: int| 0 <= k < j ==> s@[i + k] == pat@[k],
        decreases m - j,
    {
        if s.get_char(i + j) != pat.get_char(j) {
            assert(s@.subrange(i as int, i + m)[j as int] != pat@[j as int]);
            return false;
        }
        j = j + 1;
    }
    assert(s@.subrange(i as int, i + m) =~= pat@);
    true
}

/// `s` with every occurrence of `from` replaced by `to`.
pub fn replace_str(s: &str, from: &str, to: &str) -> (r: String)
    requires
        from@.len() > 0,
    ensures
        r@ == replace_all(s@, from@, to@),
{
    let n = s.unicode_len();
    let m = from.unicode_len();
    let mut result = String::new();
    let mut start: usize = 0;
    let mut i: usize = 0;
    proof {
        assert(s@.skip(0) =~= s@);
        assert(result@ + s@.subrange(0, 0) =~= Seq::<char>::empty());
    }
    while m <= n && i <= n - m
        invariant
            start <= i <= n,
            n == s@.len(),
            m == from@.len(),
            m > 0,
            result@ + s@.subrange(start as int, i as int) + replace_all(s@.skip(i as int), from@, to@) == replace_all(s@, from@, to@),
        decreases n - i,
    {
        let ghost rest = s@.skip(i as int);
        if occurs_at(s, n, i, from, m) {
            proof {
                assert(rest.subrange(0, m as int) =~= s@.subrange(i as int, i + m));
                assert(rest.skip(m as int) =~= s@.skip(i + m));
            }
            result.append(s.substring_char(start, i));
            result.append(to);
            i = i + m;
            start = i;
            proof {
                assert(s@.subrange(start as int, i as int) =~= Seq::<char>::empty());
            }
        } else {
            proof {
                assert(rest.subrange(0, m as int) =~= s@.subrange(i as int, i + m));
                assert(rest.skip(1) =~= s@.skip(i + 1));
                assert(s@.subrange(start as int, i + 1) =~= s@.subrange(start as int, i as int).push(s@[i as int]));
                assert(rest[0] == s@[i as int]);
            }
            i = i + 1;
        }
        proof {
            assert(result@ + s@.subrange(start as int, i as int) + replace_all(s@.skip(i as int), from@, to@) =~= replace_all(s@, from@, to@));
        }
    }
    proof {
        assert(s@.subrange(start as int, i as int) + s@.skip(i as int) =~= s@.subrange(start as int, n as int));
    }
    result.append(s.substring_char(start, n));
    result
}

/// Corrects the paths of the compiler's own crates, whose sources lie under
/// `lib/rustlib/rustc-src/rust/compiler` and not where their spans say,
/// `lib/rustlib/src/rust/compiler`.
pub fn fix_incorrect_local_path(incorrect_path: &str) -> (r: String)
    ensures
        r@ == replace_all(incorrect_path@, "lib/rustlib/src/rust/compiler"@, "lib/rustlib/rustc-src/rust/compiler"@),
{
    proof {
        reveal_strlit("lib/rustlib/src/rust/compiler");
    }
    replace_str(incorrect_path, "lib/rustlib/src/rust/compiler", "lib/rustlib/rustc-src/rust/compiler")
}

/// The parent directory of the path `p`, as `std::path::Path::parent` gives it.
pub uninterp spec fn parent_of(p: Seq<char>) -> Option<Seq<char>>;

/// The path of the entry `name` in the directory `dir`, as `std::path::Path::join`
/// gives it.
pub uninterp spec fn joined(dir: Seq<char>, name: Seq<char>) -> Seq<char>;

/// Calls `std::path::Path::parent`, which gives the path without its final
/// component, if it has one. Claimed: the result depends on the text of the path
/// alone and is named `parent_of`, and is shorter than the path (it drops a
/// component that is never empty).
#[verifier::external_body]
fn path_parent(p: &str) -> (r: Option<String>)
    ensures
        r matches Some(q) ==> parent_of(p@) == Some(q@) && q@.len() < p@.len(),
        r is None ==> parent_of(p@) is None,
{
    match std::path::Path::new(p).parent() {
        Some(q) => Some(q.to_string_lossy().into_owned()),
        None => None,
    }
}

/// Calls `std::path::Path::join`, which gives the path of the entry `name` in the
/// directory `dir`. Claimed: the result depends on the two texts alone and is named
/// `joined`.
#[verifier::external_body]
fn path_join(dir: &str, name: &str) -> (r: String)
    ensures
        r@ == joined(dir@, name@),
{
    std::path::Path::new(dir).join(name).to_string_lossy().into_owned()
}

/// The `n`-th ancestor of the path `p` (`p` itself for `n == 0`), if it has one.
pub open spec fn ancestor(p: Seq<char>, n: nat) -> Option<Seq<char>>
    decreases n,
{
    if n == 0 {
        Some(p)
    } else {
        match ancestor(p, (n - 1) as nat) {
            Some(q) => parent_of(q),
            None => None,
        }
    }
}

/// The path of the manifest `Cargo.toml` in the directory `dir`.
pub open spec fn cargo_toml_in(dir: Seq<char>) -> Seq<char> {
    joined(dir, "Cargo.toml"@)
}

/// Asked whether the file `path` exists, `file_exists` may have answered `answer`.
pub open spec fn reported<F: Fn(&str) -> bool>(file_exists: F, path: Seq<char>, answer: bool) -> bool {
    exists|s: &str| s@ == path && #[trigger] call_ensures(file_exists, (s,), answer)
}

/// Finds the crate of a source file: the manifest `Cargo.toml` in the nearest of
/// the file's ancestor directories that holds one, as `file_exists` tells of each
/// candidate, from the file's own directory upwards.
pub fn get_cargo_toml_path_from_source_file_path_buf<F: Fn(&str) -> bool>(file_path: &str, file_exists: F) -> (r: Result<String, String>)
    requires
        forall|s: &str| #[trigger] file_exists.requires((s,)),
    ensures
        match r {
            Ok(c) => exists|n: nat|
                n >= 1 && #[trigger] ancestor(file_path@, n) is Some && c@ == cargo_toml_in(ancestor(file_path@, n)->0) && reported(file_exists, c@, true)
                    && forall|m: nat| 1 <= m < n ==> reported(file_exists, cargo_toml_in(#[trigger] ancestor(file_path@, m)->0), false),
            Err(msg) => msg@ == "No Cargo.toml found: "@ + file_path@ && exists|n: nat|
                n >= 1 && #[trigger] ancestor(file_path@, n) is None
                    && forall|m: nat| 1 <= m < n ==> reported(file_exists, cargo_toml_in(#[trigger] ancestor(file_path@, m)->0), false),
        },
{
    let mut path = String::from_str(file_path);
    let ghost mut level: nat = 0;
    loop
        invariant
            forall|s: &str| #[trigger] file_exists.requires((s,)),
            ancestor(file_path@, level) == Some(path@),
            forall|m: nat| 1 <= m <= level ==> reported(file_exists, cargo_toml_in(#[trigger] ancestor(file_path@, m)->0), false),
        decreases path@.len(),
    {
        match path_parent(path.as_str()) {
            Some(parent) => {
                let candidate = path_join(parent.as_str(), "Cargo.toml");
                let asked: &str = candidate.as_str();
                let found = file_exists(asked);
                proof {
                    assert(ancestor(file_path@, level + 1) == Some(parent@));
                    assert(call_ensures(file_exists, (asked,), found));
                }
                if found {
                    proof {
                        assert(reported(file_exists, candidate@, true));
                        assert forall|m: nat| 1 <= m < level + 1 implies reported(file_exists, cargo_toml_in(#[trigger] ancestor(file_path@, m)->0), false) by {
                        }
                    }
                    return Ok(candidate);
                }
                proof {
                    assert(reported(file_exists, candidate@, false));
                    level = level + 1;
                }
                path = parent;
            },
            None => {
                proof {
                    assert(ancestor(file_path@, level + 1) is None);
                }
                let mut msg = String::from_str("No Cargo.toml found: ");
                msg.append(file_path);
                return Err(msg);
            },
        }
    }
}

} // verus!
