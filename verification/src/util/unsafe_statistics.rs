//! Which reachable functions are unsafe: those that declare it or hold unsafe
//! blocks, and those that may reach one of them along calls.

use std::collections::VecDeque;
use vstd::prelude::*;
use crate::graph::call_graph::CallGraph;
use crate::mir::call_site::BaseCallSite;
use crate::mir::function::{DefId, FuncId};
use crate::util::{contains_value, distinct_models, push_unique, value_models, SameValue};
use crate::pta::strategies::stack_filtering::lemma_bounded_set;

verus! {

/// A caller that the search may add: neither explicitly unsafe nor, where standard
/// library functions are left out, one of them.
pub open spec fn eligible(explicit: Seq<bool>, is_library: Seq<bool>, exclude: bool, c: int) -> bool {
    !explicit[c] && !(exclude && is_library[c])
}

/// `b` calls `a`, and may be added.
pub open spec fn caller_edge(callers: Seq<Seq<usize>>, explicit: Seq<bool>, is_library: Seq<bool>, exclude: bool, a: int, b: int) -> bool {
    &&& 0 <= a < callers.len()
    &&& 0 <= b < explicit.len()
    &&& callers[a].contains(b as usize)
    &&& eligible(explicit, is_library, exclude, b)
}

/// `p` leads from an explicitly unsafe function through callers, each of which
/// may be added.
pub open spec fn unsafe_chain(callers: Seq<Seq<usize>>, explicit: Seq<bool>, is_library: Seq<bool>, exclude: bool, p: Seq<int>) -> bool {
    &&& p.len() >= 2
    &&& 0 <= p[0] < explicit.len()
    &&& explicit[p[0]]
    &&& forall|i: int| 0 <= i < p.len() - 1 ==> #[trigger] caller_edge(callers, explicit, is_library, exclude, p[i], p[i + 1])
}

/// The functions that may reach an explicitly unsafe function along calls: the end
/// of some chain of callers from one.
pub open spec fn possibly_unsafe(callers: Seq<Seq<usize>>, explicit: Seq<bool>, is_library: Seq<bool>, exclude: bool) -> Set<int> {
    Set::new(|c: int| exists|p: Seq<int>| #[trigger] unsafe_chain(callers, explicit, is_library, exclude, p) && p.last() == c)
}

proof fn lemma_chain_start(callers: Seq<Seq<usize>>, explicit: Seq<bool>, is_library: Seq<bool>, exclude: bool, a: int, b: int)
    requires
        0 <= a < explicit.len(),
        explicit[a],
        caller_edge(callers, explicit, is_library, exclude, a, b),
    ensures
        possibly_unsafe(callers, explicit, is_library, exclude).contains(b),
{
    let p = seq![a, b];
    assert(unsafe_chain(callers, explicit, is_library, exclude, p));
}

proof fn lemma_chain_extend(callers: Seq<Seq<usize>>, explicit: Seq<bool>, is_library: Seq<bool>, exclude: bool, a: int, b: int)
    requires
        possibly_unsafe(callers, explicit, is_library, exclude).contains(a),
        caller_edge(callers, explicit, is_library, exclude, a, b),
    ensures
        possibly_unsafe(callers, explicit, is_library, exclude).contains(b),
{
    let p = choose|p: Seq<int>| #[trigger] unsafe_chain(callers, explicit, is_library, exclude, p) && p.last() == a;
    let q = p.push(b);
    assert forall|i: int| 0 <= i < q.len() - 1 implies #[trigger] caller_edge(callers, explicit, is_library, exclude, q[i], q[i + 1]) by {
        if i < p.len() - 1 {
            assert(q[i] == p[i] && q[i + 1] == p[i + 1]);
            assert(caller_edge(callers, explicit, is_library, exclude, p[i], p[i + 1]));
        }
    }
    assert(unsafe_chain(callers, explicit, is_library, exclude, q));
}

/// A set that holds every eligible caller of an explicitly unsafe function or of
/// one of its own members holds every possibly unsafe function.
proof fn lemma_closed_holds_unsafe(callers: Seq<Seq<usize>>, explicit: Seq<bool>, is_library: Seq<bool>, exclude: bool, r: Set<int>)
    requires
        forall|a: int, b: int| (0 <= a < explicit.len() && explicit[a] || r.contains(a)) && #[trigger] caller_edge(callers, explicit, is_library, exclude, a, b) ==> r.contains(b),
    ensures
        possibly_unsafe(callers, explicit, is_library, exclude).subset_of(r),
{
    assert forall|c: int| possibly_unsafe(callers, explicit, is_library, exclude).contains(c) implies r.contains(c) by {
        let p = choose|p: Seq<int>| #[trigger] unsafe_chain(callers, explicit, is_library, exclude, p) && p.last() == c;
        lemma_chain_in(callers, explicit, is_library, exclude, r, p, p.len() - 1);
    }
}

proof fn lemma_chain_in(callers: Seq<Seq<usize>>, explicit: Seq<bool>, is_library: Seq<bool>, exclude: bool, r: Set<int>, p: Seq<int>, i: int)
    requires
        unsafe_chain(callers, explicit, is_library, exclude, p),
        forall|a: int, b: int| (0 <= a < explicit.len() && explicit[a] || r.contains(a)) && #[trigger] caller_edge(callers, explicit, is_library, exclude, a, b) ==> r.contains(b),
        1 <= i < p.len(),
    ensures
        r.contains(p[i]),
    decreases i,
{
    let k = i - 1;
    assert(caller_edge(callers, explicit, is_library, exclude, p[k], p[k + 1]));
    if i > 1 {
        lemma_chain_in(callers, explicit, is_library, exclude, r, p, i - 1);
    }
}

/// Some edge of the call graph goes from the node of the function numbered `b` to
/// that of the function numbered `a`, among its first `m` edges.
pub open spec fn graph_calls(g: CallGraph<FuncId, BaseCallSite>, b: int, a: int, m: int) -> bool {
    exists|x: int| 0 <= x < m && 0 <= x < g.edges().len() && g.funcs()[#[trigger] g.edges()[x].0].index == b && g.funcs()[g.edges()[x].1].index == a
}

/// The unsafety statistics of the functions of a call graph, which are numbered by
/// their ids.
pub struct UnsafeStat {
    /// For each function, the functions it calls.
    caller_to_callees_map: Vec<Vec<usize>>,
    /// For each function, the functions that call it.
    callee_to_callers_map: Vec<Vec<usize>>,
    /// The reachable functions.
    reach_ci_funcs: Vec<FuncId>,
    /// For each function, whether the standard library (`alloc`, `std` or `core`)
    /// defines it.
    is_library: Vec<bool>,
    /// Standard library functions are left out.
    exclude_unsafe_std: bool,
}

impl UnsafeStat {
    /// The callers of each function.
    pub closed spec fn callers(&self) -> Seq<Seq<usize>> {
        self.callee_to_callers_map@.map_values(|v: Vec<usize>| v@)
    }

    /// The callees of each function.
    pub closed spec fn callees(&self) -> Seq<Seq<usize>> {
        self.caller_to_callees_map@.map_values(|v: Vec<usize>| v@)
    }

    /// Whether the standard library defines each function.
    pub closed spec fn library(&self) -> Seq<bool> {
        self.is_library@
    }

    /// Standard library functions are left out.
    pub closed spec fn excludes_library(&self) -> bool {
        self.exclude_unsafe_std
    }

    /// The reachable functions.
    pub closed spec fn reach(&self) -> Seq<FuncId> {
        self.reach_ci_funcs@
    }

    /// The functions are those numbered below the length of `is_library`.
    pub open spec fn wf(&self) -> bool {
        &&& self.callers().len() == self.library().len()
        &&& self.callees().len() == self.library().len()
        &&& forall|a: int, j: int| 0 <= a < self.callers().len() && 0 <= j < self.callers()[a].len() ==> #[trigger] self.callers()[a][j] < self.library().len()
    }

    /// The statistics of the call graph, whose functions are numbered below the
    /// length of `is_library`, which tells for each of them whether the standard
    /// library defines it.
    pub fn new(call_graph: &CallGraph<FuncId, BaseCallSite>, is_library: Vec<bool>) -> (r: Self)
        requires
            call_graph.wf(),
            forall|i: int| 0 <= i < call_graph.funcs().len() ==> (#[trigger] call_graph.funcs()[i]).index < is_library@.len(),
        ensures
            r.wf(),
            r.library() == is_library@,
            r.excludes_library(),
            r.reach() == call_graph.reach(),
            forall|a: int, b: int| 0 <= a < r.library().len() && 0 <= b < r.library().len() ==> (#[trigger] r.callers()[a].contains(b as usize) <==> graph_calls(*call_graph, b, a, call_graph.edges().len() as int)),
    {
        let n = is_library.len();
        let mut callers: Vec<Vec<usize>> = Vec::new();
        let mut callees: Vec<Vec<usize>> = Vec::new();
        let mut i: usize = 0;
        while i < n
            invariant
                i <= n,
                callers@.len() == i,
                callees@.len() == i,
                forall|a: int| 0 <= a < i ==> (#[trigger] callers@[a])@.len() == 0 && callees@[a]@.len() == 0,
            decreases n - i,
        {
            callers.push(Vec::new());
            callees.push(Vec::new());
            i = i + 1;
        }
        let m = call_graph.edge_count();
        let mut e: usize = 0;
        while e < m
            invariant
                e <= m,
                m == call_graph.edges().len(),
                call_graph.wf(),
                n == is_library@.len(),
                forall|i: int| 0 <= i < call_graph.funcs().len() ==> (#[trigger] call_graph.funcs()[i]).index < n,
                callers@.len() == n,
                callees@.len() == n,
                forall|a: int, j: int| 0 <= a < n && 0 <= j < callers@[a]@.len() ==> #[trigger] callers@[a]@[j] < n,
                forall|a: int, b: int| 0 <= a < n && 0 <= b < n ==> (#[trigger] callers@[a]@.contains(b as usize) <==> graph_calls(*call_graph, b, a, e as int)),
            decreases m - e,
        {
            let (caller_node, callee_node) = call_graph.edge_endpoints(e).unwrap();
            let caller = call_graph.node_func(caller_node).index as usize;
            let callee = call_graph.node_func(callee_node).index as usize;
            proof {
                assert(caller_node as int == call_graph.edges()[e as int].0);
                assert(callee_node as int == call_graph.edges()[e as int].1);
            }
            let ghost before = callers@;
            vstd::std_specs::vec::vec_index_mut(&mut callers, callee).push(caller);
            vstd::std_specs::vec::vec_index_mut(&mut callees, caller).push(callee);
            proof {
                assert forall|a: int, b: int| 0 <= a < n && 0 <= b < n implies (#[trigger] callers@[a]@.contains(b as usize) <==> graph_calls(*call_graph, b, a, e + 1)) by {
                    if graph_calls(*call_graph, b, a, e + 1) && !graph_calls(*call_graph, b, a, e as int) {
                        let x = choose|x: int| 0 <= x < e + 1 && 0 <= x < call_graph.edges().len() && call_graph.funcs()[#[trigger] call_graph.edges()[x].0].index == b && call_graph.funcs()[call_graph.edges()[x].1].index == a;
                        assert(x == e);
                    }
                    if graph_calls(*call_graph, b, a, e as int) {
                        let x = choose|x: int| 0 <= x < e && 0 <= x < call_graph.edges().len() && call_graph.funcs()[#[trigger] call_graph.edges()[x].0].index == b && call_graph.funcs()[call_graph.edges()[x].1].index == a;
                        assert(graph_calls(*call_graph, b, a, e + 1));
                    }
                    if a == callee && b == caller {
                        let x = e as int;
                        assert(call_graph.funcs()[call_graph.edges()[x].0].index == b);
                        assert(call_graph.funcs()[call_graph.edges()[x].1].index == a);
                        assert(graph_calls(*call_graph, b, a, e + 1));
                    }
                    if a == callee {
                        assert(callers@[a]@ == before[a]@.push(caller));
                        if callers@[a]@.contains(b as usize) && b != caller {
                            let j = choose|j: int| 0 <= j < callers@[a]@.len() && callers@[a]@[j] == b as usize;
                            assert(before[a]@[j] == b as usize);
                        }
                        if before[a]@.contains(b as usize) {
                            let j = choose|j: int| 0 <= j < before[a]@.len() && before[a]@[j] == b as usize;
                            assert(callers@[a]@[j] == b as usize);
                        }
                        if b == caller {
                            assert(callers@[a]@[callers@[a]@.len() - 1] == b as usize);
                        }
                    } else {
                        assert(callers@[a] == before[a]);
                    }
                }
            }
            e = e + 1;
        }
        let mut reach_ci_funcs: Vec<FuncId> = Vec::new();
        let queue = call_graph.reach_funcs();
        let mut it = call_graph.reach_funcs_iter();
        let total = queue.len();
        let mut k: usize = 0;
        while k < total
            invariant
                k <= total,
                total == queue@.len(),
                queue.wf(),
                queue@ == call_graph.reach(),
                it.wf(),
                it.position() == k,
                reach_ci_funcs@ == queue@.subrange(0, k as int),
            decreases total - k,
        {
            let f = it.next(queue).unwrap();
            reach_ci_funcs.push(f);
            k = k + 1;
        }
        proof {
            assert(queue@.subrange(0, total as int) =~= queue@);
        }
        let r = UnsafeStat { caller_to_callees_map: callees, callee_to_callers_map: callers, reach_ci_funcs, is_library, exclude_unsafe_std: true };
        r
    }

    /// The reachable functions that are explicitly unsafe: those declared unsafe and
    /// those whose bodies hold unsafe blocks (written by the user, or, where
    /// `conservative`, also made by the compiler), leaving out standard library
    /// functions where the statistics exclude them. The flags are given for each
    /// function.
    pub fn collect_explicit_unsafe_functions(
        &self,
        conservative: bool,
        declared_unsafe: &Vec<bool>,
        user_unsafe_block: &Vec<bool>,
        generated_unsafe_block: &Vec<bool>,
    ) -> (r: Vec<bool>)
        requires
            self.wf(),
            declared_unsafe@.len() == self.library().len(),
            user_unsafe_block@.len() == self.library().len(),
            generated_unsafe_block@.len() == self.library().len(),
            forall|k: int| 0 <= k < self.reach().len() ==> (#[trigger] self.reach()[k]).index < self.library().len(),
        ensures
            r@.len() == self.library().len(),
            forall|i: int| 0 <= i < r@.len() ==> #[trigger] r@[i] == (
                (exists|k: int| 0 <= k < self.reach().len() && #[trigger] self.reach()[k].index == i)
                && !(self.excludes_library() && self.library()[i])
                && (declared_unsafe@[i] || user_unsafe_block@[i] || (conservative && generated_unsafe_block@[i]))),
    {
        let n = self.is_library.len();
        let mut r: Vec<bool> = Vec::new();
        let mut i: usize = 0;
        while i < n
            invariant
                i <= n,
                r@.len() == i,
                forall|j: int| 0 <= j < i ==> !#[trigger] r@[j],
            decreases n - i,
        {
            r.push(false);
            i = i + 1;
        }
        let m = self.reach_ci_funcs.len();
        let mut k: usize = 0;
        while k < m
            invariant
                k <= m,
                m == self.reach().len(),
                n == self.library().len(),
                r@.len() == n,
                self.wf(),
                declared_unsafe@.len() == n,
                user_unsafe_block@.len() == n,
                generated_unsafe_block@.len() == n,
                forall|x: int| 0 <= x < self.reach().len() ==> (#[trigger] self.reach()[x]).index < n,
                forall|i: int| 0 <= i < n ==> #[trigger] r@[i] == (
                    (exists|x: int| 0 <= x < k && #[trigger] self.reach()[x].index == i)
                    && !(self.excludes_library() && self.library()[i])
                    && (declared_unsafe@[i] || user_unsafe_block@[i] || (conservative && generated_unsafe_block@[i]))),
            decreases m - k,
        {
            let f = self.reach_ci_funcs[k].index as usize;
            let ghost before = r@;
            if !(self.exclude_unsafe_std && self.is_library[f]) {
                if declared_unsafe[f] || user_unsafe_block[f] || (conservative && generated_unsafe_block[f]) {
                    r.set(f, true);
                }
            }
            proof {
                assert(self.reach()[k as int].index == f);
                assert forall|i: int| 0 <= i < n implies #[trigger] r@[i] == (
                    (exists|x: int| 0 <= x < k + 1 && #[trigger] self.reach()[x].index == i)
                    && !(self.excludes_library() && self.library()[i])
                    && (declared_unsafe@[i] || user_unsafe_block@[i] || (conservative && generated_unsafe_block@[i]))) by {
                    if exists|x: int| 0 <= x < k + 1 && #[trigger] self.reach()[x].index == i {
                        if !(exists|x: int| 0 <= x < k && #[trigger] self.reach()[x].index == i) {
                            let x = choose|x: int| 0 <= x < k + 1 && #[trigger] self.reach()[x].index == i;
                            assert(x == k);
                        }
                    }
                    if exists|x: int| 0 <= x < k && #[trigger] self.reach()[x].index == i {
                        let x = choose|x: int| 0 <= x < k && #[trigger] self.reach()[x].index == i;
                        assert(0 <= x < k + 1 && self.reach()[x].index == i);
                    }
                    if i == f {
                        assert(0 <= k < k + 1 && self.reach()[k as int].index == i);
                    }
                }
            }
            k = k + 1;
        }
        r
    }

    /// The functions that may reach an explicitly unsafe one along calls: the
    /// callers, then their callers, and so on, of the explicitly unsafe functions,
    /// leaving out explicitly unsafe functions and, where the statistics exclude
    /// them, standard library functions.
    pub fn collect_possibile_unsafe_functrions(&self, explicit_unsafe_functions: &Vec<bool>) -> (r: Vec<bool>)
        requires
            self.wf(),
            explicit_unsafe_functions@.len() == self.library().len(),
        ensures
            r@.len() == self.library().len(),
            forall|c: int| 0 <= c < r@.len() ==> #[trigger] r@[c] == possibly_unsafe(self.callers(), explicit_unsafe_functions@, self.library(), self.excludes_library()).contains(c),
    {
        let ghost callers = self.callers();
        let ghost explicit = explicit_unsafe_functions@;
        let ghost lib = self.library();
        let ghost ex = self.excludes_library();
        let ghost target = possibly_unsafe(callers, explicit, lib, ex);
        let n = self.is_library.len();
        let mut possible: Vec<bool> = Vec::new();
        let mut worklist: VecDeque<usize> = VecDeque::new();
        let mut i: usize = 0;
        while i < n
            invariant
                i <= n,
                n == explicit.len(),
                explicit == explicit_unsafe_functions@,
                possible@.len() == i,
                forall|j: int| 0 <= j < i ==> !#[trigger] possible@[j],
                forall|k: int| 0 <= k < worklist@.len() ==> #[trigger] worklist@[k] < n && explicit[worklist@[k] as int],
                forall|j: int| 0 <= j < i && explicit[j] ==> worklist@.contains(j as usize),
            decreases n - i,
        {
            possible.push(false);
            if explicit_unsafe_functions[i] {
                let ghost before = worklist@;
                worklist.push_back(i);
                proof {
                    assert forall|j: int| 0 <= j < i + 1 && explicit[j] implies worklist@.contains(j as usize) by {
                        if j < i {
                            let k = choose|k: int| 0 <= k < before.len() && before[k] == j as usize;
                            assert(worklist@[k] == j as usize);
                        } else {
                            assert(worklist@[before.len() as int] == j as usize);
                        }
                    }
                }
            }
            i = i + 1;
        }
        proof {
            lemma_bounded_set(Set::new(|c: int| 0 <= c < n && possible@[c]), n as nat);
            assert(Set::new(|c: int| 0 <= c < n && possible@[c]) =~= Set::<int>::empty());
        }
        while worklist.len() > 0
            invariant
                n == explicit.len(),
                n == lib.len(),
                n == callers.len(),
                explicit == explicit_unsafe_functions@,
                callers == self.callers(),
                lib == self.library(),
                ex == self.excludes_library(),
                target == possibly_unsafe(callers, explicit, lib, ex),
                self.wf(),
                possible@.len() == n,
                forall|k: int| 0 <= k < worklist@.len() ==> #[trigger] worklist@[k] < n && (explicit[worklist@[k] as int] || possible@[worklist@[k] as int]),
                forall|c: int| 0 <= c < n && #[trigger] possible@[c] ==> target.contains(c),
                forall|a: int, b: int| 0 <= a < n && (explicit[a] || possible@[a]) && #[trigger] caller_edge(callers, explicit, lib, ex, a, b) ==> possible@[b] || worklist@.contains(a as usize),
                Set::new(|c: int| 0 <= c < n && possible@[c]).finite(),
                Set::new(|c: int| 0 <= c < n && possible@[c]).len() <= n,
            decreases n - Set::new(|c: int| 0 <= c < n && possible@[c]).len(), worklist@.len(),
        {
            let ghost w_before = worklist@;
            let ghost p_before = possible@;
            let ghost set_before = Set::new(|c: int| 0 <= c < n && p_before[c]);
            let u = worklist.pop_front().unwrap();
            let row = &self.callee_to_callers_map[u];
            proof {
                assert(w_before[0] == u);
                assert(w_before =~= seq![u].add(worklist@));
                assert(row@ == callers[u as int]);
            }
            let mut j: usize = 0;
            let ghost mut added = false;
            while j < row.len()
                invariant
                    j <= row@.len(),
                    row@ == callers[u as int],
                    u < n,
                    explicit[u as int] || possible@[u as int],
                    n == explicit.len(),
                    n == lib.len(),
                    n == callers.len(),
                    explicit == explicit_unsafe_functions@,
                    callers == self.callers(),
                    lib == self.library(),
                    ex == self.excludes_library(),
                    target == possibly_unsafe(callers, explicit, lib, ex),
                    self.wf(),
                    possible@.len() == n,
                    forall|k: int| 0 <= k < worklist@.len() ==> #[trigger] worklist@[k] < n && (explicit[worklist@[k] as int] || possible@[worklist@[k] as int]),
                    forall|c: int| 0 <= c < n && #[trigger] possible@[c] ==> target.contains(c),
                    p_before.len() == n,
                    w_before.len() >= 1,
                    set_before == Set::new(|c: int| 0 <= c < n && p_before[c]),
                    forall|c: int| 0 <= c < n && p_before[c] ==> #[trigger] possible@[c],
                    forall|k: int| 0 <= k < w_before.len() - 1 ==> #[trigger] worklist@[k] == w_before[k + 1],
                    worklist@.len() >= w_before.len() - 1,
                    forall|k: int| w_before.len() - 1 <= k < worklist@.len() ==> possible@[#[trigger] worklist@[k] as int] && !p_before[worklist@[k] as int],
                    forall|x: int| 0 <= x < n && #[trigger] possible@[x] && !p_before[x] ==> exists|k: int| w_before.len() - 1 <= k < worklist@.len() && worklist@[k] == x as usize,
                    forall|k: int| 0 <= k < worklist@.len() ==> #[trigger] worklist@[k] < n,
                    forall|k: int| 0 <= k < j ==> #[trigger] caller_edge(callers, explicit, lib, ex, u as int, row@[k] as int) ==> possible@[row@[k] as int],
                    added ==> Set::new(|c: int| 0 <= c < n && p_before[c]).len() < Set::new(|c: int| 0 <= c < n && possible@[c]).len(),
                    !added ==> possible@ == p_before && worklist@.len() == w_before.len() - 1,
                    Set::new(|c: int| 0 <= c < n && possible@[c]).finite(),
                    Set::new(|c: int| 0 <= c < n && possible@[c]).len() <= n,
                decreases row@.len() - j,
            {
                let c = row[j];
                proof {
                    assert(c < n);
                }
                if !explicit_unsafe_functions[c] && !(self.exclude_unsafe_std && self.is_library[c]) {
                    if !possible[c] {
                        let ghost s_old = Set::new(|x: int| 0 <= x < n && possible@[x]);
                        let ghost q_old = possible@;
                        let ghost w_old = worklist@;
                        proof {
                            assert(set_before.subset_of(s_old)) by {
                                assert forall|x: int| set_before.contains(x) implies s_old.contains(x) by {
                                    assert(0 <= x < n && p_before[x]);
                                    assert(possible@[x]);
                                }
                            }
                        }
                        possible.set(c, true);
                        worklist.push_back(c);
                        proof {
                            assert(worklist@ =~= w_old.push(c));
                            assert(!p_before[c as int]);
                            assert forall|k: int| w_before.len() - 1 <= k < worklist@.len() implies possible@[#[trigger] worklist@[k] as int] && !p_before[worklist@[k] as int] by {
                                if k < w_old.len() {
                                    assert(worklist@[k] == w_old[k]);
                                    assert(q_old[w_old[k] as int]);
                                    assert(w_old[k] < n);
                                } else {
                                    assert(worklist@[k] == c);
                                }
                            }
                            assert(caller_edge(callers, explicit, lib, ex, u as int, c as int)) by {
                                assert(callers[u as int][j as int] == c);
                            }
                            if explicit[u as int] {
                                lemma_chain_start(callers, explicit, lib, ex, u as int, c as int);
                            } else {
                                lemma_chain_extend(callers, explicit, lib, ex, u as int, c as int);
                            }
                            assert(Set::new(|x: int| 0 <= x < n && possible@[x]) =~= s_old.insert(c as int));
                            lemma_bounded_set(Set::new(|x: int| 0 <= x < n && possible@[x]), n as nat);
                            added = true;
                            vstd::set_lib::lemma_len_subset(set_before, s_old);
                            assert forall|x: int| 0 <= x < n && possible@[x] && !p_before[x] implies exists|k: int| w_before.len() - 1 <= k < worklist@.len() && worklist@[k] == x as usize by {
                                if x == c {
                                    assert(worklist@[worklist@.len() - 1] == x as usize);
                                } else {
                                    assert(q_old[x]);
                                    assert(worklist@ =~= w_old.push(c));
                                    let k = choose|k: int| w_before.len() - 1 <= k < w_old.len() && w_old[k] == x as usize;
                                    assert(worklist@[k] == x as usize);
                                }
                            }
                        }
                    }
                }
                j = j + 1;
            }
            proof {
                assert forall|k: int| 0 <= k < worklist@.len() implies #[trigger] worklist@[k] < n && (explicit[worklist@[k] as int] || possible@[worklist@[k] as int]) by {
                }
                assert forall|a: int, b: int| 0 <= a < n && (explicit[a] || possible@[a]) && #[trigger] caller_edge(callers, explicit, lib, ex, a, b) implies possible@[b] || worklist@.contains(a as usize) by {
                    if a == u {
                        let k = choose|k: int| 0 <= k < row@.len() && row@[k] == b as usize;
                        assert(caller_edge(callers, explicit, lib, ex, u as int, row@[k] as int));
                    } else if !p_before[a] && possible@[a] {
                        let k = choose|k: int| w_before.len() - 1 <= k < worklist@.len() && worklist@[k] == a as usize;
                        assert(worklist@.contains(a as usize));
                    } else {
                        if !possible@[b] {
                            assert(!p_before[b]);
                            assert(w_before.contains(a as usize));
                            let k = choose|k: int| 0 <= k < w_before.len() && w_before[k] == a as usize;
                            assert(k != 0);
                            assert(worklist@[k - 1] == a as usize);
                        }
                    }
                }
            }
        }
        proof {
            let r = Set::new(|c: int| 0 <= c < n && possible@[c]);
            assert forall|a: int, b: int| (0 <= a < explicit.len() && explicit[a] || r.contains(a)) && #[trigger] caller_edge(callers, explicit, lib, ex, a, b) implies r.contains(b) by {
                assert(worklist@.len() == 0);
            }
            lemma_closed_holds_unsafe(callers, explicit, lib, ex, r);
        }
        possible
    }
}


/// Unsafety spreads to callers: an eligible caller of a possibly unsafe function,
/// or of an explicitly unsafe one, is possibly unsafe; and no explicitly unsafe
/// function is counted as possibly unsafe.
pub proof fn law_unsafety_spreads_to_callers(callers: Seq<Seq<usize>>, explicit: Seq<bool>, is_library: Seq<bool>, exclude: bool, a: int, b: int)
    requires
        possibly_unsafe(callers, explicit, is_library, exclude).contains(a) || (0 <= a < explicit.len() && explicit[a]),
        caller_edge(callers, explicit, is_library, exclude, a, b),
    ensures
        possibly_unsafe(callers, explicit, is_library, exclude).contains(b),
        !explicit[b],
{
    if possibly_unsafe(callers, explicit, is_library, exclude).contains(a) {
        lemma_chain_extend(callers, explicit, is_library, exclude, a, b);
    } else {
        lemma_chain_start(callers, explicit, is_library, exclude, a, b);
    }
}


/// Some of the first `k` reachable functions is `f`.
pub open spec fn reached_in(reach: Seq<FuncId>, k: int, f: FuncId) -> bool {
    exists|j: int| 0 <= j < k && reach[j] == f
}

/// The functions among the first `k` reachable ones whose definitions belong to
/// crate `c`.
pub open spec fn crate_funcs(reach: Seq<FuncId>, def_ids: Seq<DefId>, c: u32, k: int) -> Set<FuncId> {
    Set::new(|f: FuncId| reached_in(reach, k, f) && def_ids[f.index as int].krate == c)
}

/// The definitions of the functions of `s`.
pub open spec fn defs_of(def_ids: Seq<DefId>, s: Set<FuncId>) -> Set<DefId> {
    Set::new(|d: DefId| exists|f: FuncId| s.contains(f) && #[trigger] def_ids[f.index as int] == d)
}

/// The functions of `s` that `flags` marks.
pub open spec fn flagged(s: Set<FuncId>, flags: Seq<bool>) -> Set<FuncId> {
    Set::new(|f: FuncId| s.contains(f) && flags[f.index as int])
}

/// The functions, by number, that `flags` marks.
pub open spec fn all_flagged(flags: Seq<bool>) -> Set<usize> {
    Set::new(|i: usize| i < flags.len() && flags[i as int])
}

/// The definitions of the functions that `flags` marks.
pub open spec fn flagged_defs(def_ids: Seq<DefId>, flags: Seq<bool>) -> Set<DefId> {
    Set::new(|d: DefId| exists|i: int| 0 <= i < flags.len() && flags[i] && #[trigger] def_ids[i] == d)
}

/// The crates of the definitions of the first `k` reachable functions.
pub open spec fn reached_crates(reach: Seq<FuncId>, def_ids: Seq<DefId>, k: int) -> Set<u32> {
    Set::new(|c: u32| exists|j: int| 0 <= j < k && #[trigger] def_ids[reach[j].index as int].krate == c)
}

/// The unsafety statistics of one crate: its reachable functions and their
/// definitions, all of them, the explicitly unsafe ones and the possibly unsafe
/// ones, each once; each count is the length of its list.
pub struct CrateUnsafeCounts {
    pub krate: u32,
    pub funcids: Vec<FuncId>,
    pub defids: Vec<DefId>,
    pub explicit_funcids: Vec<FuncId>,
    pub explicit_defids: Vec<DefId>,
    pub possible_funcids: Vec<FuncId>,
    pub possible_defids: Vec<DefId>,
}

/// The unsafety statistics: the explicitly and the possibly unsafe functions (by
/// number) and their definitions, each once, and those of each crate of a
/// reachable function.
pub struct UnsafeCounts {
    pub explicit_funcids: Vec<usize>,
    pub explicit_defids: Vec<DefId>,
    pub possible_funcids: Vec<usize>,
    pub possible_defids: Vec<DefId>,
    pub crates: Vec<CrateUnsafeCounts>,
}

/// `e` holds the statistics of its crate over the first `k` reachable functions.
pub open spec fn crate_counts_ok(e: CrateUnsafeCounts, reach: Seq<FuncId>, def_ids: Seq<DefId>, explicit: Seq<bool>, possible: Seq<bool>, k: int) -> bool {
    let fs = crate_funcs(reach, def_ids, e.krate, k);
    &&& distinct_models(e.funcids@)
    &&& distinct_models(e.defids@)
    &&& distinct_models(e.explicit_funcids@)
    &&& distinct_models(e.explicit_defids@)
    &&& distinct_models(e.possible_funcids@)
    &&& distinct_models(e.possible_defids@)
    &&& value_models(e.funcids@) == fs
    &&& value_models(e.defids@) == defs_of(def_ids, fs)
    &&& value_models(e.explicit_funcids@) == flagged(fs, explicit)
    &&& value_models(e.explicit_defids@) == defs_of(def_ids, fs).intersect(flagged_defs(def_ids, explicit))
    &&& value_models(e.possible_funcids@) == flagged(fs, possible)
    &&& value_models(e.possible_defids@) == defs_of(def_ids, fs).intersect(flagged_defs(def_ids, possible))
}

proof fn lemma_crate_funcs_step(reach: Seq<FuncId>, def_ids: Seq<DefId>, c: u32, k: int)
    requires
        0 <= k < reach.len(),
    ensures
        crate_funcs(reach, def_ids, c, k + 1) == if def_ids[reach[k].index as int].krate == c {
            crate_funcs(reach, def_ids, c, k).insert(reach[k])
        } else {
            crate_funcs(reach, def_ids, c, k)
        },
{
    let a = crate_funcs(reach, def_ids, c, k + 1);
    let b = if def_ids[reach[k].index as int].krate == c {
        crate_funcs(reach, def_ids, c, k).insert(reach[k])
    } else {
        crate_funcs(reach, def_ids, c, k)
    };
    assert forall|f: FuncId| a.contains(f) implies b.contains(f) by {
        let j = choose|j: int| 0 <= j < k + 1 && reach[j] == f;
        if j < k {
            assert(reached_in(reach, k, f));
        }
    }
    assert forall|f: FuncId| b.contains(f) implies a.contains(f) by {
        if f == reach[k] && def_ids[reach[k].index as int].krate == c {
            assert(reached_in(reach, k + 1, f));
        } else {
            let j = choose|j: int| 0 <= j < k && reach[j] == f;
            assert(reached_in(reach, k + 1, f));
        }
    }
    assert(a =~= b);
}

proof fn lemma_defs_insert(def_ids: Seq<DefId>, s: Set<FuncId>, f: FuncId)
    ensures
        defs_of(def_ids, s.insert(f)) == defs_of(def_ids, s).insert(def_ids[f.index as int]),
{
    let a = defs_of(def_ids, s.insert(f));
    let b = defs_of(def_ids, s).insert(def_ids[f.index as int]);
    assert forall|d: DefId| a.contains(d) implies b.contains(d) by {
        let g = choose|g: FuncId| s.insert(f).contains(g) && #[trigger] def_ids[g.index as int] == d;
        if g != f {
            assert(s.contains(g));
        }
    }
    assert forall|d: DefId| b.contains(d) implies a.contains(d) by {
        if d == def_ids[f.index as int] {
            assert(s.insert(f).contains(f));
        } else {
            let g = choose|g: FuncId| s.contains(g) && #[trigger] def_ids[g.index as int] == d;
            assert(s.insert(f).contains(g));
        }
    }
    assert(a =~= b);
}

/// The functions that `flags` marks, by number, and their definitions, each once.
fn flagged_lists(flags: &Vec<bool>, def_ids: &Vec<DefId>) -> (r: (Vec<usize>, Vec<DefId>))
    requires
        flags@.len() == def_ids@.len(),
    ensures
        distinct_models(r.0@),
        distinct_models(r.1@),
        value_models(r.0@) == all_flagged(flags@),
        value_models(r.1@) == flagged_defs(def_ids@, flags@),
{
    let mut funcs: Vec<usize> = Vec::new();
    let mut defs: Vec<DefId> = Vec::new();
    let n = flags.len();
    let mut i: usize = 0;
    proof {
        assert(value_models(funcs@) =~= Set::<usize>::empty());
        assert(value_models(defs@) =~= Set::<DefId>::empty());
    }
    while i < n
        invariant
            i <= n,
            n == flags@.len(),
            n == def_ids@.len(),
            distinct_models(funcs@),
            distinct_models(defs@),
            value_models(funcs@) == Set::new(|x: usize| x < i && flags@[x as int]),
            value_models(defs@) == Set::new(|d: DefId| exists|j: int| 0 <= j < i && flags@[j] && #[trigger] def_ids@[j] == d),
        decreases n - i,
    {
        let ghost fs = value_models(funcs@);
        let ghost ds = value_models(defs@);
        if flags[i] {
            push_unique(&mut funcs, i);
            push_unique(&mut defs, def_ids[i]);
        }
        proof {
            let nf = Set::new(|x: usize| x < i + 1 && flags@[x as int]);
            assert(value_models(funcs@) =~= nf);
            let nd = Set::new(|d: DefId| exists|j: int| 0 <= j < i + 1 && flags@[j] && #[trigger] def_ids@[j] == d);
            assert forall|d: DefId| value_models(defs@).contains(d) <==> nd.contains(d) by {
                if nd.contains(d) {
                    let j = choose|j: int| 0 <= j < i + 1 && flags@[j] && #[trigger] def_ids@[j] == d;
                    if j < i {
                        assert(ds.contains(d));
                    }
                }
                if ds.contains(d) {
                    let j = choose|j: int| 0 <= j < i && flags@[j] && #[trigger] def_ids@[j] == d;
                    assert(nd.contains(d));
                }
            }
            assert(value_models(defs@) =~= nd);
        }
        i = i + 1;
    }
    proof {
        assert(value_models(funcs@) =~= all_flagged(flags@));
        assert(value_models(defs@) =~= flagged_defs(def_ids@, flags@));
    }
    (funcs, defs)
}

/// The statistics of crate `c`.
fn crate_counts(
    c: u32,
    reach: &Vec<FuncId>,
    def_ids: &Vec<DefId>,
    explicit: &Vec<bool>,
    possible: &Vec<bool>,
    explicit_defs: &Vec<DefId>,
    possible_defs: &Vec<DefId>,
) -> (r: CrateUnsafeCounts)
    requires
        explicit@.len() == def_ids@.len(),
        possible@.len() == def_ids@.len(),
        forall|j: int| 0 <= j < reach@.len() ==> (#[trigger] reach@[j]).index < def_ids@.len(),
        value_models(explicit_defs@) == flagged_defs(def_ids@, explicit@),
        value_models(possible_defs@) == flagged_defs(def_ids@, possible@),
    ensures
        r.krate == c,
        crate_counts_ok(r, reach@, def_ids@, explicit@, possible@, reach@.len() as int),
{
    let mut r = CrateUnsafeCounts {
        krate: c,
        funcids: Vec::new(),
        defids: Vec::new(),
        explicit_funcids: Vec::new(),
        explicit_defids: Vec::new(),
        possible_funcids: Vec::new(),
        possible_defids: Vec::new(),
    };
    proof {
        let fs = crate_funcs(reach@, def_ids@, c, 0);
        assert(fs =~= Set::<FuncId>::empty());
        assert(defs_of(def_ids@, fs) =~= Set::<DefId>::empty());
        assert(value_models(r.funcids@) =~= fs);
        assert(value_models(r.defids@) =~= defs_of(def_ids@, fs));
        assert(value_models(r.explicit_funcids@) =~= flagged(fs, explicit@));
        assert(value_models(r.explicit_defids@) =~= defs_of(def_ids@, fs).intersect(flagged_defs(def_ids@, explicit@)));
        assert(value_models(r.possible_funcids@) =~= flagged(fs, possible@));
        assert(value_models(r.possible_defids@) =~= defs_of(def_ids@, fs).intersect(flagged_defs(def_ids@, possible@)));
    }
    let n = reach.len();
    let mut k: usize = 0;
    while k < n
        invariant
            k <= n,
            n == reach@.len(),
            r.krate == c,
            explicit@.len() == def_ids@.len(),
            possible@.len() == def_ids@.len(),
            forall|j: int| 0 <= j < reach@.len() ==> (#[trigger] reach@[j]).index < def_ids@.len(),
            value_models(explicit_defs@) == flagged_defs(def_ids@, explicit@),
            value_models(possible_defs@) == flagged_defs(def_ids@, possible@),
            crate_counts_ok(r, reach@, def_ids@, explicit@, possible@, k as int),
        decreases n - k,
    {
        let f = reach[k];
        let fi = f.index as usize;
        let d = def_ids[fi];
        let ghost fs = crate_funcs(reach@, def_ids@, c, k as int);
        proof {
            lemma_crate_funcs_step(reach@, def_ids@, c, k as int);
            lemma_defs_insert(def_ids@, fs, f);
        }
        if d.krate == c {
            push_unique(&mut r.funcids, f);
            push_unique(&mut r.defids, d);
            if explicit[fi] {
                push_unique(&mut r.explicit_funcids, f);
            }
            if contains_value(explicit_defs, &d) {
                push_unique(&mut r.explicit_defids, d);
            }
            if possible[fi] {
                push_unique(&mut r.possible_funcids, f);
            }
            if contains_value(possible_defs, &d) {
                push_unique(&mut r.possible_defids, d);
            }
            proof {
                let nfs = fs.insert(f);
                assert(flagged(nfs, explicit@) =~= if explicit@[fi as int] { flagged(fs, explicit@).insert(f) } else { flagged(fs, explicit@) });
                assert(flagged(nfs, possible@) =~= if possible@[fi as int] { flagged(fs, possible@).insert(f) } else { flagged(fs, possible@) });
                let ed = flagged_defs(def_ids@, explicit@);
                let pd = flagged_defs(def_ids@, possible@);
                assert(defs_of(def_ids@, nfs).intersect(ed) =~= if ed.contains(d) { defs_of(def_ids@, fs).intersect(ed).insert(d) } else { defs_of(def_ids@, fs).intersect(ed) });
                assert(defs_of(def_ids@, nfs).intersect(pd) =~= if pd.contains(d) { defs_of(def_ids@, fs).intersect(pd).insert(d) } else { defs_of(def_ids@, fs).intersect(pd) });
            }
        }
        k = k + 1;
    }
    r
}

impl UnsafeStat {
    /// The unsafety statistics: the explicitly unsafe functions (as
    /// `collect_explicit_unsafe_functions` marks them) and the possibly unsafe ones
    /// (as `collect_possibile_unsafe_functrions` marks them), with their definitions
    /// (`def_ids`, by function), and, for each crate of the definition of a
    /// reachable function, its reachable functions and their definitions, all, the
    /// explicitly unsafe and the possibly unsafe ones. Each list holds a value once,
    /// so that its length is the count (see `lemma_distinct_len`).
    pub fn count_unsafe_functions(&self, explicit_unsafe_functions: &Vec<bool>, possible_unsafe_functions: &Vec<bool>, def_ids: &Vec<DefId>) -> (r: UnsafeCounts)
        requires
            explicit_unsafe_functions@.len() == def_ids@.len(),
            possible_unsafe_functions@.len() == def_ids@.len(),
            forall|j: int| 0 <= j < self.reach().len() ==> (#[trigger] self.reach()[j]).index < def_ids@.len(),
        ensures
            distinct_models(r.explicit_funcids@),
            distinct_models(r.explicit_defids@),
            distinct_models(r.possible_funcids@),
            distinct_models(r.possible_defids@),
            value_models(r.explicit_funcids@) == all_flagged(explicit_unsafe_functions@),
            value_models(r.explicit_defids@) == flagged_defs(def_ids@, explicit_unsafe_functions@),
            value_models(r.possible_funcids@) == all_flagged(possible_unsafe_functions@),
            value_models(r.possible_defids@) == flagged_defs(def_ids@, possible_unsafe_functions@),
            forall|a: int, b: int| 0 <= a < b < r.crates@.len() ==> #[trigger] r.crates@[a].krate != #[trigger] r.crates@[b].krate,
            forall|c: u32| reached_crates(self.reach(), def_ids@, self.reach().len() as int).contains(c)
                <==> exists|a: int| 0 <= a < r.crates@.len() && #[trigger] r.crates@[a].krate == c,
            forall|a: int| 0 <= a < r.crates@.len() ==> crate_counts_ok(#[trigger] r.crates@[a], self.reach(), def_ids@,
                explicit_unsafe_functions@, possible_unsafe_functions@, self.reach().len() as int),
    {
        let (explicit_funcids, explicit_defids) = flagged_lists(explicit_unsafe_functions, def_ids);
        let (possible_funcids, possible_defids) = flagged_lists(possible_unsafe_functions, def_ids);
        let reach = &self.reach_ci_funcs;
        let n = reach.len();
        let mut krates: Vec<u32> = Vec::new();
        let mut k: usize = 0;
        while k < n
            invariant
                k <= n,
                n == reach@.len(),
                reach@ == self.reach(),
                forall|j: int| 0 <= j < reach@.len() ==> (#[trigger] reach@[j]).index < def_ids@.len(),
                distinct_models(krates@),
                value_models(krates@) == reached_crates(reach@, def_ids@, k as int),
            decreases n - k,
        {
            let c = def_ids[reach[k].index as usize].krate;
            let ghost before = reached_crates(reach@, def_ids@, k as int);
            push_unique(&mut krates, c);
            proof {
                let after = reached_crates(reach@, def_ids@, k + 1);
                assert forall|x: u32| after.contains(x) <==> before.insert(c).contains(x) by {
                    if after.contains(x) {
                        let j = choose|j: int| 0 <= j < k + 1 && #[trigger] def_ids@[reach@[j].index as int].krate == x;
                        if j < k {
                            assert(before.contains(x));
                        }
                    }
                    if before.contains(x) {
                        let j = choose|j: int| 0 <= j < k && #[trigger] def_ids@[reach@[j].index as int].krate == x;
                        assert(after.contains(x));
                    }
                    if x == c {
                        assert(def_ids@[reach@[k as int].index as int].krate == x);
                    }
                }
                assert(after =~= before.insert(c));
            }
            k = k + 1;
        }
        let mut crates: Vec<CrateUnsafeCounts> = Vec::new();
        let m = krates.len();
        let mut i: usize = 0;
        while i < m
            invariant
                i <= m,
                m == krates@.len(),
                reach@ == self.reach(),
                value_models(krates@) == reached_crates(reach@, def_ids@, reach@.len() as int),
                explicit_unsafe_functions@.len() == def_ids@.len(),
                possible_unsafe_functions@.len() == def_ids@.len(),
                forall|j: int| 0 <= j < reach@.len() ==> (#[trigger] reach@[j]).index < def_ids@.len(),
                value_models(explicit_defids@) == flagged_defs(def_ids@, explicit_unsafe_functions@),
                value_models(possible_defids@) == flagged_defs(def_ids@, possible_unsafe_functions@),
                crates@.len() == i,
                forall|a: int| 0 <= a < i ==> (#[trigger] crates@[a]).krate == krates@[a],
                forall|a: int| 0 <= a < i ==> crate_counts_ok(#[trigger] crates@[a], reach@, def_ids@,
                    explicit_unsafe_functions@, possible_unsafe_functions@, reach@.len() as int),
            decreases m - i,
        {
            let e = crate_counts(krates[i], reach, def_ids, explicit_unsafe_functions, possible_unsafe_functions, &explicit_defids, &possible_defids);
            crates.push(e);
            i = i + 1;
        }
        proof {
            assert forall|a: int, b: int| 0 <= a < b < crates@.len() implies #[trigger] crates@[a].krate != #[trigger] crates@[b].krate by {
                assert(krates@[a].model() != krates@[b].model());
            }
            assert(value_models(krates@) == reached_crates(self.reach(), def_ids@, self.reach().len() as int));
            assert forall|c: u32| reached_crates(self.reach(), def_ids@, self.reach().len() as int).contains(c)
                <==> exists|a: int| 0 <= a < crates@.len() && #[trigger] crates@[a].krate == c by {
                if value_models(krates@).contains(c) {
                    let a = choose|a: int| 0 <= a < krates@.len() && #[trigger] krates@[a].model() == c;
                    assert(0 <= a < crates@.len());
                    assert(crates@[a].krate == krates@[a]);
                    assert(crates@[a].krate == c);
                }
                if exists|a: int| 0 <= a < crates@.len() && #[trigger] crates@[a].krate == c {
                    let a = choose|a: int| 0 <= a < crates@.len() && #[trigger] crates@[a].krate == c;
                    assert(krates@[a].model() == c);
                }
            }
        }
        let r = UnsafeCounts { explicit_funcids, explicit_defids, possible_funcids, possible_defids, crates };
        assert(r.crates@ == crates@);
        r
    }
}

} // verus!
