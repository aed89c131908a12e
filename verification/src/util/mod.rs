//! Utilities of the analysis: bit vectors, index trees, queues, type numbering,
//! memory usage.

pub mod bit_vec;
pub mod chunked_queue;
pub mod index_tree;
pub mod mem_watcher;
pub mod type_util;
pub mod call_graph_stat;

use vstd::prelude::*;
use vstd::string::*;
use std::rc::Rc;
use crate::mir::path::{Path, PathEnum, PathSelector, PathV, path_ok};

verus! {

/// What the values of `vs` stand for.
pub open spec fn value_models<V: SameValue>(vs: Seq<V>) -> Set<V::Model> {
    Set::new(|v: V::Model| exists|j: int| 0 <= j < vs.len() && #[trigger] vs[j].model() == v)
}

/// No two values of `vs` stand for the same thing.
pub open spec fn distinct_models<V: SameValue>(vs: Seq<V>) -> bool {
    forall|i: int, j: int| 0 <= i < j < vs.len() ==> #[trigger] vs[i].model() != #[trigger] vs[j].model()
}

/// Values that stand for distinct things are as many as the things.
pub proof fn lemma_distinct_len<V: SameValue>(vs: Seq<V>)
    requires
        distinct_models(vs),
    ensures
        value_models(vs).finite(),
        value_models(vs).len() == vs.len(),
    decreases vs.len(),
{
    if vs.len() == 0 {
        assert(value_models(vs) =~= Set::<V::Model>::empty());
    } else {
        let front = vs.drop_last();
        assert(distinct_models(front)) by {
            assert forall|i: int, j: int| 0 <= i < j < front.len() implies #[trigger] front[i].model() != #[trigger] front[j].model() by {
                assert(vs[i].model() != vs[j].model());
            }
        }
        lemma_distinct_len(front);
        let m = vs.last().model();
        assert(value_models(vs) =~= value_models(front).insert(m)) by {
            assert forall|v: V::Model| value_models(vs).contains(v) implies value_models(front).insert(m).contains(v) by {
                let j = choose|j: int| 0 <= j < vs.len() && #[trigger] vs[j].model() == v;
                if j < front.len() {
                    assert(front[j].model() == v);
                }
            }
            assert forall|v: V::Model| value_models(front).insert(m).contains(v) implies value_models(vs).contains(v) by {
                if v == m {
                    assert(vs[vs.len() - 1].model() == v);
                } else {
                    let j = choose|j: int| 0 <= j < front.len() && #[trigger] front[j].model() == v;
                    assert(vs[j].model() == v);
                }
            }
        }
        assert(!value_models(front).contains(m)) by {
            if value_models(front).contains(m) {
                let j = choose|j: int| 0 <= j < front.len() && #[trigger] front[j].model() == m;
                assert(vs[j].model() != vs[vs.len() - 1].model());
            }
        }
    }
}

/// Whether a value of `vs` stands for what `x` does.
pub fn contains_value<V: SameValue>(vs: &Vec<V>, x: &V) -> (r: bool)
    ensures
        r == value_models(vs@).contains(x.model()),
{
    let mut i: usize = 0;
    while i < vs.len()
        invariant
            i <= vs@.len(),
            forall|j: int| 0 <= j < i ==> #[trigger] vs@[j].model() != x.model(),
        decreases vs@.len() - i,
    {
        if vs[i].same_value(x) {
            assert(vs@[i as int].model() == x.model());
            return true;
        }
        i = i + 1;
    }
    proof {
        if value_models(vs@).contains(x.model()) {
            let j = choose|j: int| 0 <= j < vs@.len() && #[trigger] vs@[j].model() == x.model();
            assert(vs@[j].model() != x.model());
        }
    }
    false
}

/// Adds `x` to `vs` unless a value there stands for the same thing.
pub fn push_unique<V: SameValue>(vs: &mut Vec<V>, x: V)
    requires
        distinct_models(old(vs)@),
    ensures
        distinct_models(final(vs)@),
        value_models(final(vs)@) == value_models(old(vs)@).insert(x.model()),
{
    if contains_value(vs, &x) {
        assert(value_models(vs@).insert(x.model()) =~= value_models(vs@));
        return;
    }
    let ghost before = vs@;
    let ghost m = x.model();
    vs.push(x);
    proof {
        let after = vs@;
        assert(value_models(after) =~= value_models(before).insert(m)) by {
            assert forall|v: V::Model| value_models(after).contains(v) implies value_models(before).insert(m).contains(v) by {
                let j = choose|j: int| 0 <= j < after.len() && #[trigger] after[j].model() == v;
                if j < before.len() {
                    assert(before[j].model() == v);
                }
            }
            assert forall|v: V::Model| value_models(before).insert(m).contains(v) implies value_models(after).contains(v) by {
                if v == m {
                    assert(after[before.len() as int].model() == v);
                } else {
                    let j = choose|j: int| 0 <= j < before.len() && #[trigger] before[j].model() == v;
                    assert(after[j].model() == v);
                }
            }
        }
        assert forall|i: int, j: int| 0 <= i < j < after.len() implies #[trigger] after[i].model() != #[trigger] after[j].model() by {
            if j < before.len() {
                assert(before[i].model() != before[j].model());
            } else {
                assert(after[i].model() == before[i].model());
                if before[i].model() == m {
                    assert(value_models(before).contains(m));
                }
            }
        }
    }
}

/// Values that stand for a mathematical value, their `model`, with an exact test
/// of whether two of them stand for the same one.
pub trait SameValue: Sized {
    /// What a value stands for.
    type Model;

    /// What the value stands for.
    spec fn model(&self) -> Self::Model;

    /// Whether the two values stand for the same thing.
    fn same_value(&self, other: &Self) -> (r: bool)
        ensures
            r == (self.model() == other.model()),
    ;
}

/// Strings are the same when their texts are.
impl SameValue for String {
    type Model = Seq<char>;

    open spec fn model(&self) -> Seq<char> {
        self@
    }

    fn same_value(&self, other: &Self) -> (r: bool) {
        crate::mir::known_names::str_eq(self.as_str(), other.as_str())
    }
}

/// Pairs are the same when both their parts are.
impl<A: SameValue, B: SameValue> SameValue for (A, B) {
    type Model = (A::Model, B::Model);

    open spec fn model(&self) -> (A::Model, B::Model) {
        (self.0.model(), self.1.model())
    }

    fn same_value(&self, other: &Self) -> (r: bool) {
        self.0.same_value(&other.0) && self.1.same_value(&other.1)
    }
}

impl SameValue for u32 {
    type Model = u32;

    open spec fn model(&self) -> u32 {
        *self
    }

    fn same_value(&self, other: &Self) -> (r: bool) {
        *self == *other
    }
}

impl SameValue for usize {
    type Model = usize;

    open spec fn model(&self) -> usize {
        *self
    }

    fn same_value(&self, other: &Self) -> (r: bool) {
        *self == *other
    }
}

/// Returns the location of the rust system binaries, from the values that the
/// variables `RUSTUP_HOME`, `RUSTUP_TOOLCHAIN` and `RUST_SYSROOT` had when the
/// analysis was compiled. If the rust compiler was installed by rustup, the first two
/// are set by the compiler itself and give `$RUSTUP_HOME/toolchains/$RUSTUP_TOOLCHAIN`;
/// otherwise `RUST_SYSROOT` must be set, and gives the location itself.
pub fn find_sysroot(home: Option<&str>, toolchain: Option<&str>, rust_sysroot: Option<&str>) -> (r: String)
    requires
        (home is Some && toolchain is Some) || rust_sysroot is Some,
    ensures
        (home is Some && toolchain is Some) ==> r@ == home->0@ + "/toolchains/"@ + toolchain->0@,
        !(home is Some && toolchain is Some) ==> r@ == rust_sysroot->0@,
{
    match (home, toolchain) {
        (Some(home), Some(toolchain)) => {
            let mut r = String::from_str(home);
            r.append("/toolchains/");
            r.append(toolchain);
            r
        },
        _ => match rust_sysroot {
            Some(sys_root) => String::from_str(sys_root),
            None => {
                proof {
                    assert(false);
                }
                String::new()
            },
        },
    }
}

/// `c` is a white space character, as Unicode's `White_Space` property has it.
pub open spec fn is_blank(c: char) -> bool {
    ||| ('\u{9}' <= c && c <= '\u{d}')
    ||| c == ' '
    ||| c == '\u{85}'
    ||| c == '\u{a0}'
    ||| c == '\u{1680}'
    ||| ('\u{2000}' <= c && c <= '\u{200a}')
    ||| c == '\u{2028}'
    ||| c == '\u{2029}'
    ||| c == '\u{202f}'
    ||| c == '\u{205f}'
    ||| c == '\u{3000}'
}

/// Whether `c` is a white space character.
pub(crate) fn blank(c: char) -> (r: bool)
    ensures
        r == is_blank(c),
{
    ('\u{9}' <= c && c <= '\u{d}') || c == ' ' || c == '\u{85}' || c == '\u{a0}' || c == '\u{1680}' || ('\u{2000}' <= c
        && c <= '\u{200a}') || c == '\u{2028}' || c == '\u{2029}' || c == '\u{202f}' || c == '\u{205f}' || c == '\u{3000}'
}

/// The position of the first character of `s` at or after `i`, and before `e`, that
/// is not white space, or `e` where there is none.
pub open spec fn skip_blanks(s: Seq<char>, i: int, e: int) -> int
    decreases e - i,
{
    if i >= e || !is_blank(s[i]) {
        i
    } else {
        skip_blanks(s, i + 1, e)
    }
}

/// The path `base` displaced by `offset` bytes, as `Path::new_offset` makes it.
pub open spec fn displaced(base: PathV, offset: usize) -> PathV {
    if offset == 0 {
        base
    } else {
        PathV::OffsetPath { base: Box::new(base), offset }
    }
}

/// The selectors of `p` from position `from` on.
fn selectors_from(p: &Vec<PathSelector>, from: usize) -> (r: Vec<PathSelector>)
    requires
        from <= p@.len(),
    ensures
        r@ == p@.skip(from as int),
{
    let mut r: Vec<PathSelector> = Vec::new();
    let mut i: usize = from;
    while i < p.len()
        invariant
            from <= i <= p@.len(),
            r@ == p@.subrange(from as int, i as int),
        decreases p@.len() - i,
    {
        r.push(p[i]);
        i = i + 1;
    }
    r
}

/// Returns an `offset_path` equivalent to the `qualified_path`: a qualified path
/// becomes its base displaced by the byte offset of the field its projection
/// selects, or, where the projection starts with a dereference, the dereferenced
/// base displaced by the offset of the field the rest selects (a plain
/// dereference is left as it is). `field_byte_offset` gives the offset of the
/// field that the selectors reach in the type of the base, or, where its first
/// argument is true, in the type the base points to.
pub fn qualified_path_to_offset_path<F: Fn(bool, &Vec<PathSelector>) -> usize>(path: Rc<Path>, field_byte_offset: F) -> (r: Rc<Path>)
    requires
        path_ok(path@),
        forall|through_deref: bool, elems: &Vec<PathSelector>| #[trigger] field_byte_offset.requires((through_deref, elems)),
    ensures
        match path@ {
            PathV::QualifiedPath { base, projection } => if projection[0] is Deref {
                if projection.len() > 1 {
                    exists|elems: Vec<PathSelector>, offset: usize|
                        elems@ == projection.skip(1) && #[trigger] field_byte_offset.ensures((true, &elems), offset)
                            && r@ == displaced(PathV::QualifiedPath { base, projection: seq![PathSelector::Deref] }, offset)
                } else {
                    r@ == path@
                }
            } else {
                exists|elems: Vec<PathSelector>, offset: usize|
                    elems@ == projection && #[trigger] field_byte_offset.ensures((false, &elems), offset)
                        && r@ == displaced(*base, offset)
            },
            _ => r@ == path@,
        },
{
    match &path.value {
        PathEnum::QualifiedPath { base, projection } => {
            match projection[0] {
                PathSelector::Deref => {
                    if projection.len() > 1 {
                        let rest = selectors_from(projection, 1);
                        let offset = field_byte_offset(true, &rest);
                        let deref_path = Path::new_deref(crate::mir::context::share(base));
                        Path::new_offset(deref_path, offset)
                    } else {
                        path
                    }
                },
                _ => {
                    let all = selectors_from(projection, 0);
                    let offset = field_byte_offset(false, &all);
                    proof {
                        assert(all@ == projection@);
                    }
                    Path::new_offset(crate::mir::context::share(base), offset)
                },
            }
        },
        _ => path,
    }
}

} // verus!
pub mod unsafe_statistics;
pub mod options;
