//! Function reachability over a call graph, used to filter points-to facts
//! about stack objects of functions that cannot be live.

use std::collections::VecDeque;

use vstd::prelude::*;

use crate::util::bit_vec::{BitVec, lemma_capacity_room};
use crate::graph::call_graph::{law_nodes_unique_and_reachable, CGFunction, CallGraph};
use crate::mir::call_site::{BaseCallSite};
use crate::mir::function::{CSFuncId, FuncId};
use crate::mir::context::{Context, ContextId};
use crate::mir::path::{heap_based, PAGPath, PathEnum, PathV};
use crate::pta::context_strategy::{ContextStrategy, KCallSiteSensitive};
use crate::pts_set::points_to::{HybridPointsToSet, PointsToSet, idx_ok};
use std::collections::HashMap;

verus! {

/// A row of a reachability matrix: the set of nodes reachable from one node.
pub trait RowRelation: Sized {
    /// The nodes that the row holds.
    spec fn row(&self) -> Set<int>;

    /// The number of nodes that the row can hold: those below it.
    spec fn row_capacity(&self) -> nat;

    /// The row's representation is consistent.
    spec fn row_ok(&self) -> bool;

    fn new_empty() -> (r: Self)
        ensures
            r.row_ok(),
            r.row() == Set::<int>::empty(),
    ;

    fn with_capacity(capacity: usize) -> (r: Self)
        requires
            capacity + 64 <= usize::MAX,
        ensures
            r.row_ok(),
            r.row() == Set::<int>::empty(),
            r.row_capacity() >= capacity,
    ;

    fn contains(&self, elem: usize) -> (r: bool)
        requires
            self.row_ok(),
            elem < self.row_capacity(),
        ensures
            r == self.row().contains(elem as int),
    ;

    fn insert(&mut self, elem: usize)
        requires
            old(self).row_ok(),
            elem < old(self).row_capacity(),
        ensures
            final(self).row_ok(),
            final(self).row() == old(self).row().insert(elem as int),
            final(self).row_capacity() == old(self).row_capacity(),
    ;

    fn count(&self) -> (r: usize)
        requires
            self.row_ok(),
        ensures
            self.row().finite(),
            r == self.row().len(),
    ;
}

/// The positions of `v` that hold `true`.
pub open spec fn true_positions(v: Seq<bool>) -> Set<int> {
    Set::new(|i: int| 0 <= i < v.len() && v[i])
}

proof fn lemma_true_positions_push(v: Seq<bool>, b: bool)
    ensures
        true_positions(v.push(b)) == if b {
            true_positions(v).insert(v.len() as int)
        } else {
            true_positions(v)
        },
{
    assert(true_positions(v.push(b)) =~= if b {
        true_positions(v).insert(v.len() as int)
    } else {
        true_positions(v)
    });
}

proof fn lemma_true_positions_finite(v: Seq<bool>)
    ensures
        true_positions(v).finite(),
        true_positions(v).len() <= v.len(),
    decreases v.len(),
{
    if v.len() == 0 {
        assert(true_positions(v) =~= Set::<int>::empty());
    } else {
        let d = v.drop_last();
        lemma_true_positions_finite(d);
        lemma_true_positions_push(d, v.last());
        assert(d.push(v.last()) =~= v);
    }
}

impl RowRelation for Vec<bool> {
    open spec fn row(&self) -> Set<int> {
        true_positions(self@)
    }

    open spec fn row_capacity(&self) -> nat {
        self@.len()
    }

    open spec fn row_ok(&self) -> bool {
        true
    }

    fn new_empty() -> (r: Self) {
        let r: Vec<bool> = Vec::new();
        assert(true_positions(r@) =~= Set::<int>::empty());
        r
    }

    fn with_capacity(capacity: usize) -> (r: Self) {
        let mut r: Vec<bool> = Vec::new();
        let mut i: usize = 0;
        while i < capacity
            invariant
                i <= capacity,
                r@.len() == i,
                forall|j: int| 0 <= j < i ==> !r@[j],
            decreases capacity - i,
        {
            r.push(false);
            i = i + 1;
        }
        assert(true_positions(r@) =~= Set::<int>::empty());
        r
    }

    fn contains(&self, elem: usize) -> (r: bool) {
        self[elem]
    }

    fn insert(&mut self, elem: usize) {
        self.set(elem, true);
        assert(true_positions(self@) =~= true_positions(old(self)@).insert(elem as int));
    }

    fn count(&self) -> (r: usize) {
        let n = self.len();
        let mut total: usize = 0;
        let mut i: usize = 0;
        assert(true_positions(self@.subrange(0, 0)) =~= Set::<int>::empty());
        while i < n
            invariant
                i <= n,
                n == self@.len(),
                total == true_positions(self@.subrange(0, i as int)).len(),
                true_positions(self@.subrange(0, i as int)).finite(),
                total <= i,
            decreases n - i,
        {
            proof {
                lemma_true_positions_push(self@.subrange(0, i as int), self@[i as int]);
                assert(self@.subrange(0, i + 1) =~= self@.subrange(0, i as int).push(self@[i as int]));
                lemma_true_positions_finite(self@.subrange(0, i + 1));
            }
            if self[i] {
                total = total + 1;
            }
            i = i + 1;
        }
        assert(self@.subrange(0, n as int) =~= self@);
        total
    }
}

impl RowRelation for BitVec<usize> {
    open spec fn row(&self) -> Set<int> {
        self@
    }

    open spec fn row_capacity(&self) -> nat {
        self.spec_capacity()
    }

    open spec fn row_ok(&self) -> bool {
        self.wf()
    }

    fn new_empty() -> (r: Self) {
        BitVec::new_empty()
    }

    fn with_capacity(capacity: usize) -> (r: Self) {
        let r = BitVec::with_capacity(capacity);
        assert(r.spec_capacity() >= capacity) by (nonlinear_arith)
            requires
                r.words_view().len() == (capacity + 63) / 64,
                r.spec_capacity() == r.words_view().len() * 64,
        ;
        r
    }

    fn contains(&self, elem: usize) -> (r: bool) {
        BitVec::contains(self, elem)
    }

    fn insert(&mut self, elem: usize) {
        proof {
            lemma_capacity_room(old(self).words_view().len());
        }
        let ghost len = old(self).words_view().len();
        assert(crate::util::bit_vec::spec_num_words((elem + 1) as nat) <= len) by (nonlinear_arith)
            requires
                elem < len * 64,
        ;
        BitVec::insert(self, elem);
    }

    fn count(&self) -> (r: usize) {
        BitVec::count(self)
    }
}

/// A reachability matrix: row `i` holds the nodes reachable from node `i`.
pub struct ReachabilityRelation<T> {
    pub num_nodes: usize,
    pub relation_matrix: Vec<T>,
}

impl<T: RowRelation> ReachabilityRelation<T> {
    /// The nodes that row `from` holds.
    pub open spec fn rel(&self, from: int) -> Set<int> {
        self.relation_matrix@[from].row()
    }

    /// There is a row for every node, each holding only nodes.
    pub open spec fn wf(&self) -> bool {
        &&& self.relation_matrix@.len() == self.num_nodes
        &&& self.num_nodes + 64 <= usize::MAX
        &&& forall|i: int|
            0 <= i < self.num_nodes ==> {
                &&& (#[trigger] self.relation_matrix@[i]).row_ok()
                &&& self.relation_matrix@[i].row_capacity() >= self.num_nodes
                &&& forall|t: int| self.relation_matrix@[i].row().contains(t) ==> 0 <= t < self.num_nodes
            }
    }

    /// The number of pairs that the matrix relates.
    pub open spec fn total(&self) -> nat {
        rows_total(self.relation_matrix@)
    }

    pub fn new(num_nodes: usize) -> (r: Self)
        requires
            num_nodes + 64 <= usize::MAX,
        ensures
            r.wf(),
            r.num_nodes == num_nodes,
            forall|i: int| 0 <= i < num_nodes ==> #[trigger] r.rel(i) == Set::<int>::empty(),
    {
        let mut relation_matrix: Vec<T> = Vec::new();
        let mut i: usize = 0;
        while i < num_nodes
            invariant
                i <= num_nodes,
                num_nodes + 64 <= usize::MAX,
                relation_matrix@.len() == i,
                forall|j: int|
                    0 <= j < i ==> {
                        &&& (#[trigger] relation_matrix@[j]).row_ok()
                        &&& relation_matrix@[j].row_capacity() >= num_nodes
                        &&& relation_matrix@[j].row() == Set::<int>::empty()
                    },
            decreases num_nodes - i,
        {
            relation_matrix.push(T::with_capacity(num_nodes));
            i = i + 1;
        }
        ReachabilityRelation { num_nodes, relation_matrix }
    }

    /// The relation whose row `i` is `relation_matrix[i]`, for rows made apart (as
    /// `FunctionReachabilityAnalysis::compute_reach_row` makes them), one per node,
    /// each ready for every node and holding only nodes.
    pub fn from_rows(relation_matrix: Vec<T>) -> (r: Self)
        requires
            relation_matrix@.len() + 64 <= usize::MAX,
            forall|i: int| 0 <= i < relation_matrix@.len() ==> {
                &&& (#[trigger] relation_matrix@[i]).row_ok()
                &&& relation_matrix@[i].row_capacity() >= relation_matrix@.len()
                &&& forall|t: int| relation_matrix@[i].row().contains(t) ==> 0 <= t < relation_matrix@.len()
            },
        ensures
            r.wf(),
            r.num_nodes == relation_matrix@.len(),
            forall|i: int| 0 <= i < r.num_nodes ==> #[trigger] r.rel(i) == relation_matrix@[i].row(),
    {
        let num_nodes = relation_matrix.len();
        ReachabilityRelation { num_nodes, relation_matrix }
    }

    pub fn is_reachable(&self, from: usize, to: usize) -> (r: bool)
        requires
            self.wf(),
        ensures
            r == (from < self.num_nodes && to < self.num_nodes && self.rel(from as int).contains(
                to as int,
            )),
    {
        if from >= self.num_nodes || to >= self.num_nodes {
            false
        } else {
            self.relation_matrix[from].contains(to)
        }
    }

    pub fn add_reachable(&mut self, from: usize, to: usize)
        requires
            old(self).wf(),
            from < old(self).num_nodes,
            to < old(self).num_nodes,
        ensures
            final(self).wf(),
            final(self).num_nodes == old(self).num_nodes,
            final(self).rel(from as int) == old(self).rel(from as int).insert(to as int),
            forall|i: int| 0 <= i < old(self).num_nodes && i != from ==> #[trigger] final(self).rel(i) == old(self).rel(i),
            forall|i: int| 0 <= i < old(self).num_nodes && i != from ==> #[trigger] final(self).relation_matrix@[i] == old(self).relation_matrix@[i],
    {
        let row = vstd::std_specs::vec::vec_index_mut(&mut self.relation_matrix, from);
        row.insert(to);
        proof {
            assert forall|i: int| 0 <= i < self.num_nodes implies {
                &&& (#[trigger] self.relation_matrix@[i]).row_ok()
                &&& self.relation_matrix@[i].row_capacity() >= self.num_nodes
                &&& forall|t: int| self.relation_matrix@[i].row().contains(t) ==> 0 <= t < self.num_nodes
            } by {
                assert(old(self).relation_matrix@[i].row_ok());
            }
        }
    }

    pub fn num_reach_relations(&self) -> (r: usize)
        requires
            self.wf(),
            self.total() <= usize::MAX,
        ensures
            r == self.total(),
    {
        let n = self.relation_matrix.len();
        let mut num: usize = 0;
        let mut i: usize = 0;
        while i < n
            invariant
                i <= n,
                n == self.relation_matrix@.len(),
                self.wf(),
                self.total() <= usize::MAX,
                num == rows_total(self.relation_matrix@.subrange(0, i as int)),
            decreases n - i,
        {
            let c = self.relation_matrix[i].count();
            proof {
                assert(self.relation_matrix@.subrange(0, i + 1).drop_last() =~= self.relation_matrix@.subrange(0, i as int));
                lemma_rows_total_prefix(self.relation_matrix@, i + 1);
            }
            num = num + c;
            i = i + 1;
        }
        assert(self.relation_matrix@.subrange(0, n as int) =~= self.relation_matrix@);
        num
    }
}

/// The sum of the sizes of the rows.
pub open spec fn rows_total<T: RowRelation>(rows: Seq<T>) -> nat
    decreases rows.len(),
{
    if rows.len() == 0 {
        0
    } else {
        rows_total(rows.drop_last()) + rows.last().row().len()
    }
}

proof fn lemma_rows_total_prefix<T: RowRelation>(rows: Seq<T>, k: int)
    requires
        0 <= k <= rows.len(),
    ensures
        rows_total(rows.subrange(0, k)) <= rows_total(rows),
    decreases rows.len(),
{
    if k < rows.len() {
        assert(rows.drop_last().subrange(0, k) =~= rows.subrange(0, k));
        lemma_rows_total_prefix(rows.drop_last(), k);
    } else {
        assert(rows.subrange(0, k) =~= rows);
    }
}

/// The successor lists of a graph, as sequences.
pub open spec fn adj(successors: &Vec<Vec<usize>>) -> Seq<Seq<usize>> {
    successors@.map_values(|v: Vec<usize>| v@)
}

/// Every successor is a node of the graph.
pub open spec fn graph_ok(succ: Seq<Seq<usize>>) -> bool {
    forall|a: int, j: int| 0 <= a < succ.len() && 0 <= j < succ[a].len() ==> #[trigger] succ[a][j] < succ.len()
}

/// There is an edge from `a` to `b`.
pub open spec fn edge(succ: Seq<Seq<usize>>, a: int, b: int) -> bool {
    &&& 0 <= a < succ.len()
    &&& 0 <= b <= usize::MAX
    &&& succ[a].contains(b as usize)
}

/// `p` is a path of at least one edge from `from` to `to`.
pub open spec fn path_from_to(succ: Seq<Seq<usize>>, p: Seq<int>, from: int, to: int) -> bool {
    &&& p.len() >= 2
    &&& p[0] == from
    &&& p.last() == to
    &&& forall|i: int| 0 <= i < p.len() - 1 ==> #[trigger] edge(succ, p[i], p[i + 1])
}

/// `to` can be reached from `from` along at least one edge.
pub open spec fn reaches(succ: Seq<Seq<usize>>, from: int, to: int) -> bool {
    exists|p: Seq<int>| #[trigger] path_from_to(succ, p, from, to)
}

/// The nodes that can be reached from `from` along at least one edge.
pub open spec fn reach_set(succ: Seq<Seq<usize>>, from: int) -> Set<int> {
    Set::new(|t: int| reaches(succ, from, t))
}

/// An edge out of `from` reaches its target.
pub proof fn lemma_reaches_edge(succ: Seq<Seq<usize>>, from: int, y: int)
    requires
        edge(succ, from, y),
    ensures
        reaches(succ, from, y),
{
    let p = seq![from, y];
    assert(path_from_to(succ, p, from, y));
}

/// A path extended by an edge is a path.
pub proof fn lemma_reaches_extend(succ: Seq<Seq<usize>>, from: int, w: int, y: int)
    requires
        reaches(succ, from, w),
        edge(succ, w, y),
    ensures
        reaches(succ, from, y),
{
    let p = choose|p: Seq<int>| path_from_to(succ, p, from, w);
    let q = p.push(y);
    assert forall|i: int| 0 <= i < q.len() - 1 implies #[trigger] edge(succ, q[i], q[i + 1]) by {
        if i < p.len() - 1 {
            assert(q[i] == p[i] && q[i + 1] == p[i + 1]);
            assert(edge(succ, p[i], p[i + 1]));
        }
    }
    assert(path_from_to(succ, q, from, y));
}

/// A set that holds the targets of the edges out of `from` and is closed under
/// edges holds every node reachable from `from`.
pub proof fn lemma_closed_holds_reach(succ: Seq<Seq<usize>>, from: int, r: Set<int>)
    requires
        forall|y: int| #[trigger] edge(succ, from, y) ==> r.contains(y),
        forall|x: int, y: int| r.contains(x) && #[trigger] edge(succ, x, y) ==> r.contains(y),
    ensures
        reach_set(succ, from).subset_of(r),
{
    assert forall|t: int| reaches(succ, from, t) implies r.contains(t) by {
        let p = choose|p: Seq<int>| path_from_to(succ, p, from, t);
        lemma_path_in(succ, p, from, r, p.len() - 1);
    }
}

proof fn lemma_path_in(succ: Seq<Seq<usize>>, p: Seq<int>, from: int, r: Set<int>, i: int)
    requires
        p.len() >= 2,
        p[0] == from,
        forall|k: int| 0 <= k < p.len() - 1 ==> #[trigger] edge(succ, p[k], p[k + 1]),
        forall|y: int| #[trigger] edge(succ, from, y) ==> r.contains(y),
        forall|x: int, y: int| r.contains(x) && #[trigger] edge(succ, x, y) ==> r.contains(y),
        1 <= i < p.len(),
    ensures
        r.contains(p[i]),
    decreases i,
{
    let k = i - 1;
    assert(edge(succ, p[k], p[k + 1]));
    if i > 1 {
        lemma_path_in(succ, p, from, r, i - 1);
    }
}

/// The reach set is closed under edges.
pub proof fn lemma_reach_set_closed(succ: Seq<Seq<usize>>, from: int)
    ensures
        forall|y: int| #[trigger] edge(succ, from, y) ==> reach_set(succ, from).contains(y),
        forall|x: int, y: int| reach_set(succ, from).contains(x) && #[trigger] edge(succ, x, y) ==> reach_set(succ, from).contains(y),
{
    assert forall|y: int| #[trigger] edge(succ, from, y) implies reach_set(succ, from).contains(y) by {
        lemma_reaches_edge(succ, from, y);
    }
    assert forall|x: int, y: int| reach_set(succ, from).contains(x) && #[trigger] edge(succ, x, y) implies reach_set(succ, from).contains(y) by {
        lemma_reaches_extend(succ, from, x, y);
    }
}

/// A set of nodes below `n` has at most `n` elements.
pub(crate) proof fn lemma_bounded_set(r: Set<int>, n: nat)
    requires
        forall|t: int| r.contains(t) ==> 0 <= t < n,
    ensures
        r.finite(),
        r.len() <= n,
{
    let range = Set::new(|t: int| 0 <= t < n);
    assert(range =~= vstd::set_lib::set_int_range(0, n as int));
    vstd::set_lib::lemma_int_range(0, n as int);
    vstd::set_lib::lemma_len_subset(r, range);
}

pub struct FunctionReachabilityAnalysis;

impl FunctionReachabilityAnalysis {
    /// The reachability relation of a call graph: for each node, the nodes that
    /// its function reaches along calls. The rows are filled in the order in which
    /// the functions were found reachable.
    pub fn compute_func_reach_relations<T: RowRelation>(call_graph: &CallGraph<FuncId, BaseCallSite>) -> (r: ReachabilityRelation<T>)
        requires
            call_graph.wf(),
            call_graph.funcs().len() + 64 <= usize::MAX,
            forall|k: int| 0 <= k < call_graph.reach().len() ==> call_graph.has_node(#[trigger] call_graph.reach()[k]),
        ensures
            r.wf(),
            r.num_nodes == call_graph.funcs().len(),
            forall|f: int| 0 <= f < r.num_nodes ==> #[trigger] r.rel(f) == reach_set(call_graph.succ_lists(), f),
    {
        let successors = call_graph.successor_lists();
        let n = call_graph.node_count();
        let mut reach_relation: ReachabilityRelation<T> = ReachabilityRelation::new(n);
        let queue = call_graph.reach_funcs();
        let total = queue.len();
        let mut it = call_graph.reach_funcs_iter();
        let mut k: usize = 0;
        proof {
            assert(adj(&successors).len() == successors@.len());
            assert(call_graph.succ_lists().len() == n);
        }
        while k < total
            invariant
                k <= total,
                total == queue@.len(),
                queue.wf(),
                queue@ == call_graph.reach(),
                it.wf(),
                it.position() == k,
                call_graph.wf(),
                n == call_graph.funcs().len(),
                n + 64 <= usize::MAX,
                adj(&successors) == call_graph.succ_lists(),
                graph_ok(adj(&successors)),
                successors@.len() == n,
                forall|j: int| 0 <= j < call_graph.reach().len() ==> call_graph.has_node(#[trigger] call_graph.reach()[j]),
                reach_relation.wf(),
                reach_relation.num_nodes == n,
                forall|f: int| 0 <= f < n ==> #[trigger] reach_relation.rel(f) == if exists|j: int| 0 <= j < k && call_graph.reach()[j] == call_graph.funcs()[f] {
                    reach_set(adj(&successors), f)
                } else {
                    Set::<int>::empty()
                },
            decreases total - k,
        {
            let func = it.next(queue).unwrap();
            let node = call_graph.node_of(func).unwrap();
            proof {
                assert(call_graph.reach()[k as int] == func);
                assert(reach_relation.rel(node as int) == Set::<int>::empty() || reach_relation.rel(node as int) == reach_set(adj(&successors), node as int));
            }
            Self::compute_func_reach_relations_(node, &successors, &mut reach_relation);
            proof {
                assert forall|f: int| 0 <= f < n implies #[trigger] reach_relation.rel(f) == if exists|j: int| 0 <= j < k + 1 && call_graph.reach()[j] == call_graph.funcs()[f] {
                    reach_set(adj(&successors), f)
                } else {
                    Set::<int>::empty()
                } by {
                    if f == node {
                        assert(0 <= k < k + 1 && call_graph.reach()[k as int] == call_graph.funcs()[f]);
                    } else {
                        if exists|j: int| 0 <= j < k + 1 && call_graph.reach()[j] == call_graph.funcs()[f] {
                            let j = choose|j: int| 0 <= j < k + 1 && call_graph.reach()[j] == call_graph.funcs()[f];
                            if j == k {
                                law_nodes_unique_and_reachable(call_graph, f, node as int);
                            }
                        }
                    }
                }
            }
            k = k + 1;
        }
        proof {
            assert forall|f: int| 0 <= f < n implies #[trigger] reach_relation.rel(f) == reach_set(call_graph.succ_lists(), f) by {
                law_nodes_unique_and_reachable(call_graph, f, f);
                let j = choose|j: int| 0 <= j < call_graph.reach().len() && call_graph.reach()[j] == call_graph.funcs()[f];
                assert(0 <= j < total && call_graph.reach()[j] == call_graph.funcs()[f]);
            }
        }
        reach_relation
    }

    /// The reachability relation of the given functions: for each node in
    /// `reach_funcs`, the nodes reachable from it along the successor lists.
    pub fn compute_reach_relations_for<T: RowRelation>(
        successors: &Vec<Vec<usize>>,
        reach_funcs: &Vec<usize>,
    ) -> (r: ReachabilityRelation<T>)
        requires
            graph_ok(adj(successors)),
            successors@.len() + 64 <= usize::MAX,
            forall|i: int| 0 <= i < reach_funcs@.len() ==> #[trigger] reach_funcs@[i] < successors@.len(),
        ensures
            r.wf(),
            r.num_nodes == successors@.len(),
            forall|f: int| 0 <= f < r.num_nodes ==> #[trigger] r.rel(f) == if reach_funcs@.contains(f as usize) {
                reach_set(adj(successors), f)
            } else {
                Set::<int>::empty()
            },
    {
        let mut reach_relation = ReachabilityRelation::new(successors.len());
        let n = reach_funcs.len();
        let mut i: usize = 0;
        while i < n
            invariant
                i <= n,
                n == reach_funcs@.len(),
                graph_ok(adj(successors)),
                forall|k: int| 0 <= k < reach_funcs@.len() ==> #[trigger] reach_funcs@[k] < successors@.len(),
                reach_relation.wf(),
                reach_relation.num_nodes == successors@.len(),
                forall|f: int| 0 <= f < reach_relation.num_nodes ==> #[trigger] reach_relation.rel(f) == if reach_funcs@.subrange(0, i as int).contains(f as usize) {
                    reach_set(adj(successors), f)
                } else {
                    Set::<int>::empty()
                },
            decreases n - i,
        {
            let func = reach_funcs[i];
            proof {
                assert(reach_relation.rel(func as int) == Set::<int>::empty() || reach_relation.rel(func as int) == reach_set(adj(successors), func as int));
            }
            Self::compute_func_reach_relations_(func, successors, &mut reach_relation);
            proof {
                assert forall|f: int| 0 <= f < reach_relation.num_nodes implies #[trigger] reach_relation.rel(f) == if reach_funcs@.subrange(0, i + 1).contains(f as usize) {
                    reach_set(adj(successors), f)
                } else {
                    Set::<int>::empty()
                } by {
                    let pre = reach_funcs@.subrange(0, i as int);
                    let post = reach_funcs@.subrange(0, i + 1);
                    assert(post =~= pre.push(func));
                    if post.contains(f as usize) && f != func {
                        let k = choose|k: int| 0 <= k < post.len() && post[k] == f as usize;
                        assert(pre[k] == f as usize);
                    }
                    if pre.contains(f as usize) {
                        let k = choose|k: int| 0 <= k < pre.len() && pre[k] == f as usize;
                        assert(post[k] == f as usize);
                    }
                    if f == func {
                        assert(post[i as int] == func);
                    }
                }
            }
            i = i + 1;
        }
        assert(reach_funcs@.subrange(0, n as int) =~= reach_funcs@);
        reach_relation
    }

    /// Fills the row of `func` with the nodes reachable from it, by a depth-first
    /// walk that stops at nodes already in the row.
    pub fn compute_func_reach_relations_<T: RowRelation>(
        func: usize,
        successors: &Vec<Vec<usize>>,
        reach_relation: &mut ReachabilityRelation<T>,
    )
        requires
            old(reach_relation).wf(),
            graph_ok(adj(successors)),
            successors@.len() == old(reach_relation).num_nodes,
            func < old(reach_relation).num_nodes,
            old(reach_relation).rel(func as int) == Set::<int>::empty() || old(reach_relation).rel(
                func as int,
            ) == reach_set(adj(successors), func as int),
        ensures
            final(reach_relation).wf(),
            final(reach_relation).num_nodes == old(reach_relation).num_nodes,
            final(reach_relation).rel(func as int) == reach_set(adj(successors), func as int),
            forall|i: int| 0 <= i < old(reach_relation).num_nodes && i != func ==> #[trigger] final(reach_relation).rel(i) == old(reach_relation).rel(i),
    {
        let ghost succ = adj(successors);
        let ghost f = func as int;
        let ghost n = old(reach_relation).num_nodes;
        proof {
            lemma_reach_set_closed(succ, f);
        }
        let mut worklist: VecDeque<usize> = VecDeque::new();
        let neighbors = &successors[func];
        let mut j: usize = 0;
        while j < neighbors.len()
            invariant
                j <= neighbors@.len(),
                neighbors@ == succ[f],
                0 <= f < succ.len(),
                graph_ok(succ),
                worklist@ == neighbors@.subrange(0, j as int),
            decreases neighbors@.len() - j,
        {
            worklist.push_back(neighbors[j]);
            j = j + 1;
        }
        proof {
            assert(worklist@ =~= succ[f]);
            assert forall|k: int| 0 <= k < worklist@.len() implies #[trigger] worklist@[k] < n && reach_set(succ, f).contains(worklist@[k] as int) by {
                assert(succ[f][k] == worklist@[k]);
                assert(edge(succ, f, worklist@[k] as int));
            }
            lemma_bounded_set(reach_relation.rel(f), n as nat);
            assert forall|y: int| #[trigger] edge(succ, f, y) implies reach_relation.rel(f).contains(y) || worklist@.contains(y as usize) by {
                if !reach_relation.rel(f).contains(y) {
                    let k = choose|k: int| 0 <= k < succ[f].len() && succ[f][k] == y as usize;
                    assert(worklist@[k] == y as usize);
                }
            }
        }
        while worklist.len() > 0
            invariant
                reach_relation.wf(),
                reach_relation.num_nodes == n,
                succ == adj(successors),
                successors@.len() == n,
                graph_ok(succ),
                0 <= f < n,
                f == func as int,
                forall|i: int| 0 <= i < n && i != f ==> #[trigger] reach_relation.rel(i) == old(reach_relation).rel(i),
                reach_relation.rel(f).subset_of(reach_set(succ, f)),
                forall|k: int| 0 <= k < worklist@.len() ==> #[trigger] worklist@[k] < n && reach_set(succ, f).contains(worklist@[k] as int),
                forall|y: int| #[trigger] edge(succ, f, y) ==> reach_relation.rel(f).contains(y) || worklist@.contains(y as usize),
                forall|x: int, y: int| reach_relation.rel(f).contains(x) && #[trigger] edge(succ, x, y) ==> reach_relation.rel(f).contains(y) || worklist@.contains(y as usize),
                reach_relation.rel(f).finite(),
                reach_relation.rel(f).len() <= n,
            decreases n - reach_relation.rel(f).len(), worklist@.len(),
        {
            let ghost w_before = worklist@;
            let ghost r_before = reach_relation.rel(f);
            let reach_node = worklist.pop_back().unwrap();
            proof {
                assert(w_before[w_before.len() - 1] == reach_node);
                assert(w_before =~= worklist@.push(reach_node));
            }
            if !reach_relation.is_reachable(func, reach_node) {
                reach_relation.add_reachable(func, reach_node);
                let ghost w_mid = worklist@;
                let neighbors = &successors[reach_node];
                let mut j: usize = 0;
                while j < neighbors.len()
                    invariant
                        j <= neighbors@.len(),
                        neighbors@ == succ[reach_node as int],
                        0 <= reach_node < succ.len(),
                        graph_ok(succ),
                        worklist@ == w_mid + neighbors@.subrange(0, j as int),
                    decreases neighbors@.len() - j,
                {
                    worklist.push_back(neighbors[j]);
                    j = j + 1;
                }
                proof {
                    let x = reach_node as int;
                    assert(worklist@ =~= w_mid + succ[x]);
                    assert(reach_set(succ, f).contains(x));
                    assert forall|k: int| 0 <= k < worklist@.len() implies #[trigger] worklist@[k] < n && reach_set(succ, f).contains(worklist@[k] as int) by {
                        if k < w_mid.len() {
                            assert(worklist@[k] == w_mid[k]);
                            assert(w_before[k] == w_mid[k]);
                        } else {
                            assert(worklist@[k] == succ[x][k - w_mid.len()]);
                            assert(edge(succ, x, worklist@[k] as int));
                            lemma_reaches_extend(succ, f, x, worklist@[k] as int);
                        }
                    }
                    assert forall|y: int| #[trigger] edge(succ, f, y) implies reach_relation.rel(f).contains(y) || worklist@.contains(y as usize) by {
                        if w_before.contains(y as usize) && y != x {
                            let k = choose|k: int| 0 <= k < w_before.len() && w_before[k] == y as usize;
                            assert(w_mid[k] == w_before[k]);
                            assert(worklist@[k] == w_mid[k]);
                            assert(worklist@[k] == y as usize);
                        }
                    }
                    assert forall|a: int, y: int| reach_relation.rel(f).contains(a) && #[trigger] edge(succ, a, y) implies reach_relation.rel(f).contains(y) || worklist@.contains(y as usize) by {
                        if a == x {
                            let k = choose|k: int| 0 <= k < succ[x].len() && succ[x][k] == y as usize;
                            assert(worklist@[w_mid.len() + k] == succ[x][k]);
                            assert(worklist@[w_mid.len() + k] == y as usize);
                        } else if w_before.contains(y as usize) && y != x {
                            let k = choose|k: int| 0 <= k < w_before.len() && w_before[k] == y as usize;
                            assert(worklist@[k] == y as usize);
                        }
                    }
                    lemma_bounded_set(reach_relation.rel(f), n as nat);
                }
            } else {
                proof {
                    assert forall|y: int| #[trigger] edge(succ, f, y) implies reach_relation.rel(f).contains(y) || worklist@.contains(y as usize) by {
                        if w_before.contains(y as usize) && y != reach_node as int {
                            let k = choose|k: int| 0 <= k < w_before.len() && w_before[k] == y as usize;
                            assert(worklist@[k] == y as usize);
                        }
                    }
                    assert forall|a: int, y: int| reach_relation.rel(f).contains(a) && #[trigger] edge(succ, a, y) implies reach_relation.rel(f).contains(y) || worklist@.contains(y as usize) by {
                        if w_before.contains(y as usize) && y != reach_node as int {
                            let k = choose|k: int| 0 <= k < w_before.len() && w_before[k] == y as usize;
                            assert(worklist@[k] == y as usize);
                        }
                    }
                    assert forall|k: int| 0 <= k < worklist@.len() implies #[trigger] worklist@[k] < n && reach_set(succ, f).contains(worklist@[k] as int) by {
                        assert(worklist@[k] == w_before[k]);
                    }
                }
            }
        }
        proof {
            assert(worklist@.len() == 0);
            lemma_closed_holds_reach(succ, f, reach_relation.rel(f));
            assert(reach_relation.rel(f) =~= reach_set(succ, f));
        }
    }

    /// The row of nodes reachable from `node_index`, for a graph of
    /// `successors@.len()` nodes.
    pub fn compute_reach_row<T: RowRelation>(successors: &Vec<Vec<usize>>, node_index: usize) -> (r: T)
        requires
            graph_ok(adj(successors)),
            successors@.len() + 64 <= usize::MAX,
            node_index < successors@.len(),
        ensures
            r.row_ok(),
            r.row_capacity() >= successors@.len(),
            r.row() == reach_set(adj(successors), node_index as int),
    {
        let mut single: ReachabilityRelation<T> = ReachabilityRelation::new(successors.len());
        Self::compute_func_reach_relations_(node_index, successors, &mut single);
        let ReachabilityRelation { num_nodes: _, relation_matrix: mut rows } = single;
        proof {
            assert(rows@[node_index as int].row_ok());
        }
        rows.swap_remove(node_index)
    }
}


/// The number of the node of `f` in the call graph.
pub open spec fn node_index(g: CallGraph<FuncId, BaseCallSite>, f: FuncId) -> int {
    choose|i: int| 0 <= i < g.funcs().len() && g.funcs()[i] == f
}

/// The node of `from` reaches the node of `to` in the call graph, or is it.
pub open spec fn node_reaches(g: CallGraph<FuncId, BaseCallSite>, from: FuncId, to: FuncId) -> bool {
    node_index(g, from) == node_index(g, to) || reach_set(g.succ_lists(), node_index(g, from)).contains(node_index(g, to))
}

/// The call chain of a function in a context: the function, then the functions of
/// the call sites of its context, most recent first.
pub open spec fn call_chain(f: FuncId, ctxt: Seq<BaseCallSite>) -> Seq<FuncId> {
    seq![f] + ctxt.map_values(|c: BaseCallSite| c.func)
}

/// Some suffix of `a` is a prefix of `b`.
pub open spec fn suffix_prefix_match(a: Seq<FuncId>, b: Seq<FuncId>) -> bool {
    exists|i: int| 1 <= i <= a.len() && i <= b.len() && #[trigger] a.subrange(a.len() - i, a.len() as int) == b.subrange(0, i)
}

/// Filters points-to facts by the stack: an object of a function can only be
/// pointed to where the function may still be alive, that is from functions that
/// it reaches along calls.
pub struct StackFilter<F> {
    pub(crate) call_graph: CallGraph<FuncId, BaseCallSite>,
    pub(crate) reach_relation: ReachabilityRelation<BitVec<usize>>,
    pub(crate) pag_edge_to_func: HashMap<usize, F>,
    pub(crate) with_kcs_context: bool,
    pub(crate) collect_filtered_pts: bool,
    pub(crate) filtered_pts: HashMap<usize, HybridPointsToSet<usize>>,
}

impl<F> StackFilter<F> {
    /// The call graph.
    pub closed spec fn graph(&self) -> CallGraph<FuncId, BaseCallSite> {
        self.call_graph
    }

    /// The function of each edge of the pointer assignment graph recorded so far.
    pub closed spec fn edge_funcs(&self) -> Map<usize, F> {
        self.pag_edge_to_func@
    }

    /// The objects filtered out of the points-to set of each edge.
    pub closed spec fn filtered(&self) -> Map<usize, HybridPointsToSet<usize>> {
        self.filtered_pts@
    }

    /// Call-site contexts are used in the reachability tests.
    pub closed spec fn uses_kcs_context(&self) -> bool {
        self.with_kcs_context
    }

    /// Filtered objects are collected.
    pub closed spec fn collects(&self) -> bool {
        self.collect_filtered_pts
    }

    pub closed spec fn wf(&self) -> bool {
        &&& self.call_graph.wf()
        &&& self.reach_relation.wf()
        &&& self.reach_relation.num_nodes == self.call_graph.funcs().len()
        &&& forall|f: int| 0 <= f < self.reach_relation.num_nodes ==> #[trigger] self.reach_relation.rel(f) == reach_set(self.call_graph.succ_lists(), f)
        &&& forall|e: usize| #[trigger] self.filtered_pts@.contains_key(e) ==> self.filtered_pts@[e].well_formed()
        &&& vstd::std_specs::hash::obeys_key_model::<usize>()
    }

    /// A stack filter over the call graph, whose reachability relation it computes.
    pub fn new(call_graph: CallGraph<FuncId, BaseCallSite>) -> (r: Self)
        requires
            call_graph.wf(),
            call_graph.funcs().len() + 64 <= usize::MAX,
            forall|k: int| 0 <= k < call_graph.reach().len() ==> call_graph.has_node(#[trigger] call_graph.reach()[k]),
        ensures
            r.wf(),
            r.graph() == call_graph,
            r.edge_funcs() == Map::<usize, F>::empty(),
            r.filtered() == Map::<usize, HybridPointsToSet<usize>>::empty(),
            !r.uses_kcs_context(),
            !r.collects(),
    {
        let reach_relation = FunctionReachabilityAnalysis::compute_func_reach_relations(&call_graph);
        StackFilter {
            call_graph,
            reach_relation,
            pag_edge_to_func: HashMap::new(),
            with_kcs_context: false,
            collect_filtered_pts: false,
            filtered_pts: HashMap::new(),
        }
    }

    /// Makes the reachability tests use call-site contexts, which are then given to
    /// them.
    pub fn with_kcs_context_strategy(&mut self)
        ensures
            final(self).uses_kcs_context(),
            final(self).graph() == old(self).graph(),
            final(self).edge_funcs() == old(self).edge_funcs(),
            final(self).filtered() == old(self).filtered(),
            final(self).collects() == old(self).collects(),
            old(self).wf() ==> final(self).wf(),
    {
        self.with_kcs_context = true;
    }

    /// Makes the filter collect the objects it filters out.
    pub fn set_collect_filtered_pts(&mut self, collect: bool)
        ensures
            final(self).collects() == collect,
            final(self).graph() == old(self).graph(),
            final(self).edge_funcs() == old(self).edge_funcs(),
            final(self).filtered() == old(self).filtered(),
            final(self).uses_kcs_context() == old(self).uses_kcs_context(),
            old(self).wf() ==> final(self).wf(),
    {
        self.collect_filtered_pts = collect;
    }

    /// The objects filtered out of the points-to set of an edge, which gets an empty
    /// set if it has none.
    pub fn get_filtered_pts_of_edge_mut(&mut self, edge_id: usize) -> (r: &mut HybridPointsToSet<usize>)
        requires
            old(self).wf(),
        ensures
            r.well_formed(),
            old(self).filtered().contains_key(edge_id) ==> *r == old(self).filtered()[edge_id],
            !old(self).filtered().contains_key(edge_id) ==> r@ == Set::<int>::empty(),
            final(self).filtered() == old(self).filtered().insert(edge_id, *final(r)),
            final(self).graph() == old(self).graph(),
            final(self).edge_funcs() == old(self).edge_funcs(),
            final(self).uses_kcs_context() == old(self).uses_kcs_context(),
            final(self).collects() == old(self).collects(),
    {
        self.filtered_pts.entry(edge_id).or_insert(HybridPointsToSet::new())
    }

    /// Records that `filtered_pointee` was filtered out of the points-to set of the
    /// edge.
    pub fn add_filtered_pts(&mut self, edge_id: usize, filtered_pointee: usize)
        requires
            old(self).wf(),
            idx_ok::<usize>(filtered_pointee as int),
        ensures
            final(self).wf(),
            final(self).filtered().dom() == old(self).filtered().dom().insert(edge_id),
            final(self).filtered()[edge_id]@ == (if old(self).filtered().contains_key(edge_id) {
                old(self).filtered()[edge_id]@
            } else {
                Set::<int>::empty()
            }).insert(filtered_pointee as int),
            forall|e: usize| e != edge_id && #[trigger] old(self).filtered().contains_key(e) ==> final(self).filtered()[e] == old(self).filtered()[e],
            final(self).graph() == old(self).graph(),
            final(self).edge_funcs() == old(self).edge_funcs(),
            final(self).uses_kcs_context() == old(self).uses_kcs_context(),
            final(self).collects() == old(self).collects(),
    {
        let ghost old_map = self.filtered_pts@;
        let pts = self.filtered_pts.entry(edge_id).or_insert(HybridPointsToSet::new());
        pts.insert(filtered_pointee);
        proof {
            assert(self.filtered_pts@ == old_map.insert(edge_id, *pts));
            assert forall|e: usize| #[trigger] self.filtered_pts@.contains_key(e) implies self.filtered_pts@[e].well_formed() by {
                if e != edge_id {
                    assert(old_map.contains_key(e));
                }
            }
            assert(self.filtered_pts@.dom() =~= old_map.dom().insert(edge_id));
        }
    }

    /// Records the objects filtered out, where the filter collects them.
    pub fn collect_filtered_pts(&mut self, edge_id: usize, filtered_pointee: usize)
        requires
            old(self).wf(),
            idx_ok::<usize>(filtered_pointee as int),
        ensures
            final(self).wf(),
            !old(self).collects() ==> final(self).filtered() == old(self).filtered(),
            old(self).collects() ==> final(self).filtered().dom() == old(self).filtered().dom().insert(edge_id),
            old(self).collects() ==> final(self).filtered()[edge_id]@ == (if old(self).filtered().contains_key(edge_id) {
                old(self).filtered()[edge_id]@
            } else {
                Set::<int>::empty()
            }).insert(filtered_pointee as int),
            final(self).graph() == old(self).graph(),
            final(self).edge_funcs() == old(self).edge_funcs(),
    {
        if self.collect_filtered_pts {
            self.add_filtered_pts(edge_id, filtered_pointee);
        }
    }

    /// Records the function that holds an edge of the pointer assignment graph.
    pub fn add_pag_edge_in_func(&mut self, edge_id: usize, func: F)
        requires
            old(self).wf(),
        ensures
            final(self).wf(),
            final(self).edge_funcs() == old(self).edge_funcs().insert(edge_id, func),
            final(self).graph() == old(self).graph(),
            final(self).filtered() == old(self).filtered(),
            final(self).uses_kcs_context() == old(self).uses_kcs_context(),
            final(self).collects() == old(self).collects(),
    {
        self.pag_edge_to_func.insert(edge_id, func);
    }

    /// The function that holds an edge of the pointer assignment graph, if one was
    /// recorded.
    pub fn get_container_func_of_edge(&self, edge_id: &usize) -> (r: Option<&F>)
        requires
            self.wf(),
        ensures
            match r {
                Some(f) => self.edge_funcs().contains_key(*edge_id) && *f == self.edge_funcs()[*edge_id],
                None => !self.edge_funcs().contains_key(*edge_id),
            },
    {
        self.pag_edge_to_func.get(edge_id)
    }

    /// Whether the function `to` may be alive while `from` runs: they are the same
    /// node of the call graph, or `from` reaches `to` along calls.
    pub fn naive_reachability_relation(&self, from: FuncId, to: FuncId) -> (r: bool)
        requires
            self.wf(),
            self.graph().has_node(from),
            self.graph().has_node(to),
        ensures
            r == node_reaches(self.graph(), from, to),
    {
        let from_id = self.call_graph.node_of(from).unwrap();
        let to_id = self.call_graph.node_of(to).unwrap();
        proof {
            law_nodes_unique_and_reachable(&self.call_graph, from_id as int, node_index(self.call_graph, from));
            law_nodes_unique_and_reachable(&self.call_graph, to_id as int, node_index(self.call_graph, to));
        }
        if from_id == to_id {
            true
        } else {
            self.reach_relation.is_reachable(from_id, to_id)
        }
    }
}


impl<F: Copy> StackFilter<F> {
    /// Records the function that holds each of the edges.
    pub fn add_pag_edges_in_func(&mut self, edges: Vec<usize>, func: F)
        requires
            old(self).wf(),
        ensures
            final(self).wf(),
            forall|e: usize| #[trigger] final(self).edge_funcs().contains_key(e) <==> old(self).edge_funcs().contains_key(e) || edges@.contains(e),
            forall|e: usize| edges@.contains(e) ==> #[trigger] final(self).edge_funcs()[e] == func,
            forall|e: usize| !edges@.contains(e) && old(self).edge_funcs().contains_key(e) ==> #[trigger] final(self).edge_funcs()[e] == old(self).edge_funcs()[e],
            final(self).graph() == old(self).graph(),
            final(self).filtered() == old(self).filtered(),
    {
        let mut i: usize = 0;
        while i < edges.len()
            invariant
                i <= edges@.len(),
                self.wf(),
                self.graph() == old(self).graph(),
                self.filtered() == old(self).filtered(),
                forall|e: usize| #[trigger] self.edge_funcs().contains_key(e) <==> old(self).edge_funcs().contains_key(e) || edges@.subrange(0, i as int).contains(e),
                forall|e: usize| edges@.subrange(0, i as int).contains(e) ==> #[trigger] self.edge_funcs()[e] == func,
                forall|e: usize| !edges@.subrange(0, i as int).contains(e) && old(self).edge_funcs().contains_key(e) ==> #[trigger] self.edge_funcs()[e] == old(self).edge_funcs()[e],
            decreases edges@.len() - i,
        {
            let e = edges[i];
            let ghost before = self.edge_funcs();
            self.add_pag_edge_in_func(e, func);
            proof {
                let pre = edges@.subrange(0, i as int);
                let post = edges@.subrange(0, i + 1);
                assert(post =~= pre.push(e));
                assert forall|x: usize| post.contains(x) <==> pre.contains(x) || x == e by {
                    if pre.contains(x) {
                        let k = choose|k: int| 0 <= k < pre.len() && pre[k] == x;
                        assert(post[k] == x);
                    }
                    if x == e {
                        assert(post[i as int] == x);
                    }
                    if post.contains(x) && x != e {
                        let k = choose|k: int| 0 <= k < post.len() && post[k] == x;
                        assert(pre[k] == x);
                    }
                }
            }
            i = i + 1;
        }
        proof {
            assert(edges@.subrange(0, edges@.len() as int) =~= edges@);
        }
    }
}


impl<F: SFReachable + Copy> StackFilter<F> {
    /// Whether the object at `target_path` may still be alive while `current_func`
    /// runs. Heap objects, and static objects (of no function), always may; so may
    /// an object of `current_func` itself, or of a function that is a promoted
    /// constant or a constant item (`container_is_const`, which the caller tells of
    /// the function that holds the path); any other object only where the function
    /// that holds it may be alive while `current_func` runs.
    pub fn is_potentially_alive<P: PAGPath<FuncTy = F>>(&self, kcs: &KCallSiteSensitive, current_func: F, target_path: &P, container_is_const: bool) -> (r: bool)
        requires
            self.wf(),
            kcs.wf(),
            match target_path.containing() {
                Some(c) => !heap_based(target_path.path_of()) && c != current_func && !container_is_const ==> current_func.reach_ready(&c, self, kcs),
                None => true,
            },
        ensures
            r == (heap_based(target_path.path_of()) || match target_path.containing() {
                Some(c) => c == current_func || container_is_const || current_func.reaches(&c, self, kcs),
                None => true,
            }),
    {
        let value = target_path.value();
        proof {
            reveal_with_fuel(crate::mir::path::path_view, 2);
        }
        match value {
            PathEnum::HeapObj { .. } => {
                return true;
            },
            PathEnum::QualifiedPath { base, .. } => {
                if let PathEnum::HeapObj { .. } = base.value {
                    return true;
                }
            },
            PathEnum::OffsetPath { base, .. } => {
                if let PathEnum::HeapObj { .. } = base.value {
                    return true;
                }
            },
            _ => {},
        }
        match target_path.get_containing_func() {
            Some(container) => {
                if container.same_func(&current_func) {
                    return true;
                }
                if container_is_const {
                    return true;
                }
                current_func.is_reachable_from(&container, self, kcs)
            },
            None => true,
        }
    }
}

/// The context numbered `cid` by the strategy; empty where it numbers none so.
pub open spec fn context_of(kcs: KCallSiteSensitive, cid: ContextId) -> Seq<BaseCallSite> {
    if cid.index < kcs.contexts().len() {
        kcs.contexts()[cid.index as int]
    } else {
        Seq::empty()
    }
}

/// The function whose node stands for a function in the context `ctxt`: that of
/// the oldest call site, or the function itself in the empty context.
pub open spec fn chain_end(f: FuncId, ctxt: Seq<BaseCallSite>) -> FuncId {
    if ctxt.len() > 0 {
        ctxt.last().func
    } else {
        f
    }
}

/// Whether a function may be alive while another runs.
pub trait SFReachable: Sized {
    /// The functions that the test looks up have nodes in the call graph.
    spec fn reach_ready(&self, from: &Self, stack_filter: &StackFilter<Self>, kcs: &KCallSiteSensitive) -> bool;

    /// `self` may be alive while `from` runs.
    spec fn reaches(&self, from: &Self, stack_filter: &StackFilter<Self>, kcs: &KCallSiteSensitive) -> bool;

    /// Whether two functions are the same.
    fn same_func(&self, other: &Self) -> (r: bool)
        ensures
            r == (*self == *other),
    ;

    fn is_reachable_from(&self, from: &Self, stack_filter: &StackFilter<Self>, kcs: &KCallSiteSensitive) -> (r: bool)
        requires
            stack_filter.wf(),
            kcs.wf(),
            self.reach_ready(from, stack_filter, kcs),
        ensures
            r == self.reaches(from, stack_filter, kcs),
    ;

    fn is_reachable_to(&self, to: &Self, stack_filter: &StackFilter<Self>, kcs: &KCallSiteSensitive) -> (r: bool)
        requires
            stack_filter.wf(),
            kcs.wf(),
            to.reach_ready(self, stack_filter, kcs),
        ensures
            r == to.reaches(self, stack_filter, kcs),
    {
        to.is_reachable_from(self, stack_filter, kcs)
    }
}

impl SFReachable for FuncId {
    open spec fn reach_ready(&self, from: &FuncId, stack_filter: &StackFilter<FuncId>, kcs: &KCallSiteSensitive) -> bool {
        stack_filter.graph().has_node(*from) && stack_filter.graph().has_node(*self)
    }

    open spec fn reaches(&self, from: &FuncId, stack_filter: &StackFilter<FuncId>, kcs: &KCallSiteSensitive) -> bool {
        node_reaches(stack_filter.graph(), *from, *self)
    }

    fn same_func(&self, other: &Self) -> (r: bool) {
        *self == *other
    }

    fn is_reachable_from(&self, from: &FuncId, stack_filter: &StackFilter<FuncId>, _kcs: &KCallSiteSensitive) -> (r: bool) {
        stack_filter.naive_reachability_relation(*from, *self)
    }
}

/// The call chain of a function in a context.
fn chain_of(f: FuncId, ctxt: &Context<BaseCallSite>) -> (r: Vec<FuncId>)
    ensures
        r@ == call_chain(f, ctxt@),
{
    let elems = ctxt.elems();
    let mut chain: Vec<FuncId> = Vec::new();
    chain.push(f);
    let mut i: usize = 0;
    while i < elems.len()
        invariant
            i <= elems@.len(),
            elems@ == ctxt@,
            chain@ == seq![f] + elems@.subrange(0, i as int).map_values(|c: BaseCallSite| c.func),
        decreases elems@.len() - i,
    {
        chain.push(elems[i].func);
        proof {
            assert(seq![f] + elems@.subrange(0, i + 1).map_values(|c: BaseCallSite| c.func) =~= (seq![f] + elems@.subrange(0, i as int).map_values(|c: BaseCallSite| c.func)).push(elems@[i as int].func));
        }
        i = i + 1;
    }
    proof {
        assert(elems@.subrange(0, elems@.len() as int) =~= elems@);
    }
    chain
}

impl SFReachable for CSFuncId {
    open spec fn reach_ready(&self, from: &CSFuncId, stack_filter: &StackFilter<CSFuncId>, kcs: &KCallSiteSensitive) -> bool {
        if stack_filter.uses_kcs_context() {
            &&& stack_filter.graph().has_node(from.func_id)
            &&& stack_filter.graph().has_node(chain_end(self.func_id, context_of(*kcs, self.cid)))
        } else {
            &&& stack_filter.graph().has_node(from.func_id)
            &&& stack_filter.graph().has_node(self.func_id)
        }
    }

    open spec fn reaches(&self, from: &CSFuncId, stack_filter: &StackFilter<CSFuncId>, kcs: &KCallSiteSensitive) -> bool {
        if stack_filter.uses_kcs_context() {
            (context_of(*kcs, from.cid).len() > 0 && suffix_prefix_match(call_chain(self.func_id, context_of(*kcs, self.cid)), call_chain(from.func_id, context_of(*kcs, from.cid))))
                || node_reaches(stack_filter.graph(), from.func_id, chain_end(self.func_id, context_of(*kcs, self.cid)))
        } else {
            node_reaches(stack_filter.graph(), from.func_id, self.func_id)
        }
    }

    fn same_func(&self, other: &Self) -> (r: bool) {
        *self == *other
    }

    /// With call-site contexts, a function `f1` in context `[c1, ..., cn]` may be
    /// alive while `f2` in context `[c1', ..., cn']` runs where some suffix of the
    /// call chain `f1, f_c1, ..., f_cn` (`f_ci` being the function of the call site
    /// `ci`) is a prefix of that of `f2` (which must have a non-empty context), or
    /// where `f2` reaches the last function of the call chain of `f1`.
    fn is_reachable_from(&self, from: &CSFuncId, stack_filter: &StackFilter<CSFuncId>, kcs: &KCallSiteSensitive) -> (r: bool) {
        if stack_filter.with_kcs_context {
            let from_ctxt = kcs.get_context_by_id(from.cid);
            let to_ctxt = kcs.get_context_by_id(self.cid);
            if from_ctxt.len() > 0 {
                let from_call_chain = chain_of(from.func_id, &*from_ctxt);
                let to_call_chain = chain_of(self.func_id, &*to_ctxt);
                if match_suffix_and_prefix(&to_call_chain, &from_call_chain) {
                    return true;
                }
            }
            let to_func = match to_ctxt.last_context_element() {
                Some(last_callsite) => last_callsite.func,
                None => self.func_id,
            };
            stack_filter.naive_reachability_relation(from.func_id, to_func)
        } else {
            stack_filter.naive_reachability_relation(from.func_id, self.func_id)
        }
    }
}

/// Some suffix of `v1` is a prefix of `v2` (both of at least one element).
pub fn match_suffix_and_prefix<E: CGFunction>(v1: &Vec<E>, v2: &Vec<E>) -> (r: bool)
    ensures
        r == exists|i: int|
            1 <= i <= v1@.len() && i <= v2@.len() && #[trigger] v1@.subrange(v1@.len() - i, v1@.len() as int)
                == v2@.subrange(0, i),
{
    let len1 = v1.len();
    let len2 = v2.len();
    let m = if len1 < len2 {
        len1
    } else {
        len2
    };
    let mut t: usize = 0;
    while t < m
        invariant
            t <= m,
            m <= len1,
            m <= len2,
            len1 == v1@.len(),
            len2 == v2@.len(),
            m == len1 || m == len2,
            forall|k: int| 1 <= k <= t ==> #[trigger] v1@.subrange(len1 - k, len1 as int) != v2@.subrange(0, k),
        decreases m - t,
    {
        let i = t + 1;
        let mut all = true;
        let mut j: usize = 0;
        while j < i
            invariant
                j <= i,
                i <= m,
                m <= len1,
                m <= len2,
                len1 == v1@.len(),
                len2 == v2@.len(),
                all == forall|k: int| 0 <= k < j ==> v1@[len1 - i + k] == v2@[k],
            decreases i - j,
        {
            if !v1[len1 - i + j].same_function(&v2[j]) {
                all = false;
            }
            j = j + 1;
        }
        if all {
            assert(v1@.subrange(len1 - i, len1 as int) =~= v2@.subrange(0, i as int));
            return true;
        }
        proof {
            let k = choose|k: int| 0 <= k < i && v1@[len1 - i + k] != v2@[k];
            assert(v1@.subrange(len1 - i, len1 as int)[k] == v1@[len1 - i + k]);
        }
        t = i;
    }
    false
}


/// Reachability is transitive: what is reachable from a node reachable from
/// `a` is reachable from `a`.
pub proof fn law_reach_transitive(succ: Seq<Seq<usize>>, a: int, b: int, c: int)
    requires
        reach_set(succ, a).contains(b),
        reach_set(succ, b).contains(c),
    ensures
        reach_set(succ, a).contains(c),
{
    lemma_reach_set_closed(succ, a);
    lemma_closed_holds_reach(succ, b, reach_set(succ, a));
}


/// `rels[k + 1]` is what `ReachabilityRelation::add_reachable` makes of `rels[k]`
/// with the pair `pairs[k]`, starting from a relation that relates nothing (as
/// `ReachabilityRelation::new` makes it).
pub open spec fn add_run<T: RowRelation>(rels: Seq<ReachabilityRelation<T>>, pairs: Seq<(usize, usize)>) -> bool {
    &&& rels.len() == pairs.len() + 1
    &&& forall|i: int| 0 <= i < rels[0].num_nodes ==> #[trigger] rels[0].rel(i) == Set::<int>::empty()
    &&& forall|k: int| 0 <= k < pairs.len() ==> {
        &&& #[trigger] rels[k + 1].num_nodes == rels[k].num_nodes
        &&& pairs[k].0 < rels[k].num_nodes
        &&& pairs[k].1 < rels[k].num_nodes
        &&& rels[k + 1].rel(pairs[k].0 as int) == rels[k].rel(pairs[k].0 as int).insert(pairs[k].1 as int)
        &&& forall|i: int| 0 <= i < rels[k].num_nodes && i != pairs[k].0 ==> #[trigger] rels[k + 1].rel(i) == rels[k].rel(i)
    }
}

/// After a run of `add_reachable` calls on a relation that related nothing, a node
/// reaches another (as `is_reachable` answers) exactly where the pair was added.
pub proof fn law_add_run<T: RowRelation>(rels: Seq<ReachabilityRelation<T>>, pairs: Seq<(usize, usize)>)
    requires
        add_run(rels, pairs),
    ensures
        rels.last().num_nodes == rels[0].num_nodes,
        forall|i: int, j: int| 0 <= i < rels[0].num_nodes ==> (#[trigger] rels.last().rel(i).contains(j)
            <==> exists|k: int| 0 <= k < pairs.len() && pairs[k].0 == i && pairs[k].1 == j),
    decreases pairs.len(),
{
    if pairs.len() > 0 {
        let m = pairs.len() - 1;
        let pr = rels.drop_last();
        let pp = pairs.drop_last();
        assert(add_run(pr, pp)) by {
            assert forall|k: int| 0 <= k < pp.len() implies {
                &&& #[trigger] pr[k + 1].num_nodes == pr[k].num_nodes
                &&& pp[k].0 < pr[k].num_nodes
                &&& pp[k].1 < pr[k].num_nodes
                &&& pr[k + 1].rel(pp[k].0 as int) == pr[k].rel(pp[k].0 as int).insert(pp[k].1 as int)
                &&& forall|i: int| 0 <= i < pr[k].num_nodes && i != pp[k].0 ==> #[trigger] pr[k + 1].rel(i) == pr[k].rel(i)
            } by {
                assert(rels[k + 1].num_nodes == rels[k].num_nodes);
            }
        }
        law_add_run(pr, pp);
        assert(rels[m + 1].num_nodes == rels[m].num_nodes);
        assert forall|i: int, j: int| 0 <= i < rels[0].num_nodes implies (#[trigger] rels.last().rel(i).contains(j)
            <==> exists|k: int| 0 <= k < pairs.len() && pairs[k].0 == i && pairs[k].1 == j) by {
            assert(pr.last() == rels[m]);
            if i == pairs[m].0 {
                assert(rels[m + 1].rel(i) == rels[m].rel(i).insert(pairs[m].1 as int));
            } else {
                assert(rels[m + 1].rel(i) == rels[m].rel(i));
            }
            if exists|k: int| 0 <= k < pairs.len() && pairs[k].0 == i && pairs[k].1 == j {
                let k = choose|k: int| 0 <= k < pairs.len() && pairs[k].0 == i && pairs[k].1 == j;
                if k < m {
                    assert(pp[k].0 == i && pp[k].1 == j);
                }
            }
            if exists|k: int| 0 <= k < pp.len() && pp[k].0 == i && pp[k].1 == j {
                let k = choose|k: int| 0 <= k < pp.len() && pp[k].0 == i && pp[k].1 == j;
                assert(pairs[k].0 == i && pairs[k].1 == j);
            }
        }
    }
}

/// The pairs that the rows relate: `(i, j)` where row `i` holds `j`.
pub open spec fn related_pairs<T: RowRelation>(rows: Seq<T>) -> Set<(int, int)> {
    Set::new(|p: (int, int)| 0 <= p.0 < rows.len() && rows[p.0].row().contains(p.1))
}

proof fn lemma_rows_total_pairs<T: RowRelation>(rows: Seq<T>)
    requires
        forall|i: int| 0 <= i < rows.len() ==> (#[trigger] rows[i]).row().finite(),
    ensures
        related_pairs(rows).finite(),
        related_pairs(rows).len() == rows_total(rows),
    decreases rows.len(),
{
    if rows.len() == 0 {
        assert(related_pairs(rows) =~= Set::<(int, int)>::empty());
    } else {
        let m = rows.len() - 1;
        let front = rows.drop_last();
        assert forall|i: int| 0 <= i < front.len() implies (#[trigger] front[i]).row().finite() by {
            assert(front[i] == rows[i]);
        }
        lemma_rows_total_pairs(front);
        let last = rows[m].row();
        let f = |j: int| (m, j);
        let tail = last.map(f);
        assert(vstd::relations::injective_on(f, last));
        vstd::set_lib::lemma_map_size(last, tail, f);
        assert(related_pairs(rows) =~= related_pairs(front) + tail) by {
            assert forall|p: (int, int)| related_pairs(rows).contains(p) implies (related_pairs(front) + tail).contains(p) by {
                if p.0 < m {
                    assert(front[p.0] == rows[p.0]);
                } else {
                    assert(f(p.1) == p);
                }
            }
            assert forall|p: (int, int)| (related_pairs(front) + tail).contains(p) implies related_pairs(rows).contains(p) by {
                if related_pairs(front).contains(p) {
                    assert(front[p.0] == rows[p.0]);
                } else {
                    let j = choose|j: int| last.contains(j) && f(j) == p;
                }
            }
        }
        assert(related_pairs(front).disjoint(tail));
        vstd::set_lib::lemma_set_disjoint_lens(related_pairs(front), tail);
    }
}

/// The number of related pairs that `num_reach_relations` gives (the sum of the
/// rows' sizes) is the number of pairs `(i, j)` such that `i` reaches `j`.
pub proof fn law_total_counts_pairs<T: RowRelation>(rel: ReachabilityRelation<T>)
    requires
        rel.wf(),
    ensures
        related_pairs(rel.relation_matrix@).finite(),
        rel.total() == related_pairs(rel.relation_matrix@).len(),
{
    let rows = rel.relation_matrix@;
    assert forall|i: int| 0 <= i < rows.len() implies (#[trigger] rows[i]).row().finite() by {
        vstd::set_lib::lemma_int_range(0, rows.len() as int);
        assert(rows[i].row().subset_of(vstd::set_lib::set_int_range(0, rows.len() as int)));
        vstd::set_lib::lemma_len_subset(rows[i].row(), vstd::set_lib::set_int_range(0, rows.len() as int));
    }
    lemma_rows_total_pairs(rows);
}

/// Whatever the call graph and whatever function runs, a heap object, a
/// projection of one and a displacement into one are potentially alive: for such a
/// target, what `is_potentially_alive` answers is true.
pub proof fn law_heap_objects_potentially_alive<F: SFReachable + Copy, P: PAGPath<FuncTy = F>>(
    stack_filter: &StackFilter<F>,
    kcs: &KCallSiteSensitive,
    current_func: F,
    target_path: &P,
    container_is_const: bool,
)
    requires
        target_path.path_of() is HeapObj
            || (target_path.path_of() matches PathV::QualifiedPath { base, projection: _ } && *base is HeapObj)
            || (target_path.path_of() matches PathV::OffsetPath { base, offset: _ } && *base is HeapObj),
    ensures
        heap_based(target_path.path_of()) || match target_path.containing() {
            Some(c) => c == current_func || container_is_const || current_func.reaches(&c, stack_filter, kcs),
            None => true,
        },
{
}

/// Call chains are matched where one ends as the other begins: a chain whose last
/// function is the first of another matches it, a chain matches itself, no chain
/// matches an empty one, and chains of one function each match only where the
/// function is the same.
pub proof fn law_suffix_prefix_match(a: Seq<FuncId>, b: Seq<FuncId>, x: FuncId, y: FuncId)
    ensures
        a.len() > 0 && b.len() > 0 && a.last() == b[0] ==> suffix_prefix_match(a, b),
        a.len() > 0 ==> suffix_prefix_match(a, a),
        !suffix_prefix_match(a, Seq::<FuncId>::empty()),
        suffix_prefix_match(seq![x], seq![y]) <==> x == y,
{
    if a.len() > 0 && b.len() > 0 && a.last() == b[0] {
        assert(a.subrange(a.len() - 1, a.len() as int) =~= b.subrange(0, 1));
    }
    if a.len() > 0 {
        assert(a.subrange(a.len() - a.len(), a.len() as int) =~= a.subrange(0, a.len() as int));
    }
    let sx = seq![x];
    let sy = seq![y];
    assert(sx.subrange(0, 1) =~= sx);
    assert(sy.subrange(0, 1) =~= sy);
    if x == y {
        assert(sx.subrange(sx.len() - 1, sx.len() as int) == sy.subrange(0, 1));
    }
    if suffix_prefix_match(sx, sy) {
        let i = choose|i: int| 1 <= i <= sx.len() && i <= sy.len() && #[trigger] sx.subrange(sx.len() - i, sx.len() as int) == sy.subrange(0, i);
        assert(i == 1);
        assert(sx[0] == sy[0]);
    }
}

} // verus!
