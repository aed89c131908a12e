//! The call graph: a node per function, an edge per resolved call from a call site
//! to a callee, and the queue of the functions found reachable, in the order found.

use std::fmt::Debug;
use std::hash::Hash;
use vstd::prelude::*;
use crate::mir::call_site::{BaseCallSite, CSBaseCallSite, CallType};
use crate::mir::function::{CSFuncId, FuncId};
use crate::util::chunked_queue::{ChunkedQueue, IterCopied};

verus! {

/// The functions that stand in a call graph.
pub trait CGFunction: Copy + Clone + PartialEq + Eq + Hash + Debug {
    /// Whether two functions are the same.
    fn same_function(&self, other: &Self) -> (r: bool)
        ensures
            r == (*self == *other),
    ;
}

/// The call sites that label the edges of a call graph.
pub trait CGCallSite: Copy + Clone + PartialEq + Eq + Hash + Debug {
    /// Whether two call sites are the same.
    fn same_call_site(&self, other: &Self) -> (r: bool)
        ensures
            r == (*self == *other),
    ;
}

impl CGFunction for FuncId {
    fn same_function(&self, other: &Self) -> (r: bool) {
        *self == *other
    }
}

impl CGCallSite for BaseCallSite {
    fn same_call_site(&self, other: &Self) -> (r: bool) {
        *self == *other
    }
}

impl CGFunction for CSFuncId {
    fn same_function(&self, other: &Self) -> (r: bool) {
        *self == *other
    }
}

impl CGCallSite for CSBaseCallSite {
    fn same_call_site(&self, other: &Self) -> (r: bool) {
        *self == *other
    }
}

/// A node of the call graph.
pub struct CallGraphNode<F: CGFunction> {
    pub(crate) func: F,
}

impl<F: CGFunction> CallGraphNode<F> {
    /// The function of the node.
    pub closed spec fn function(&self) -> F {
        self.func
    }

    pub fn new(func: F) -> (r: Self)
        ensures
            r.function() == func,
    {
        CallGraphNode { func }
    }
}

/// An edge of the call graph.
pub struct CallGraphEdge<S: CGCallSite> {
    pub(crate) callsite: S,
}

impl<S: CGCallSite> CallGraphEdge<S> {
    /// The call site of the edge.
    pub closed spec fn call_site(&self) -> S {
        self.callsite
    }

    pub fn new(callsite: S) -> (r: Self)
        ensures
            r.call_site() == callsite,
    {
        CallGraphEdge { callsite }
    }
}

/// Unique identifiers for call graph nodes: their positions in the graph.
pub type CGNodeId = usize;

/// Unique identifiers for call graph edges: their positions in the graph.
pub type CGEdgeId = usize;

/// A call graph. Each function has one node; an edge from a caller's node to a
/// callee's node is labelled with the call site, and no call site has two edges to
/// the same callee.
pub struct CallGraph<F: CGFunction, S: CGCallSite> {
    /// The nodes, by id.
    nodes: Vec<CallGraphNode<F>>,
    /// The edges, by id: the caller's node, the callee's node and the label.
    edges: Vec<(CGNodeId, CGNodeId, CallGraphEdge<S>)>,
    /// The types recorded for call sites, in the order recorded; the last one
    /// recorded for a call site is its type.
    callsite_to_type: Vec<(BaseCallSite, CallType)>,
    /// A queue of reachable nodes.
    pub(crate) reach_funcs: ChunkedQueue<F>,
}

impl<F: CGFunction, S: CGCallSite> CallGraph<F, S> {
    /// The function of each node, by node id.
    pub closed spec fn funcs(&self) -> Seq<F> {
        self.nodes@.map_values(|n: CallGraphNode<F>| n.func)
    }

    /// The edges, by edge id: the caller's node, the callee's node and the call site.
    pub closed spec fn edges(&self) -> Seq<(int, int, S)> {
        self.edges@.map_values(|e: (CGNodeId, CGNodeId, CallGraphEdge<S>)| (e.0 as int, e.1 as int, e.2.callsite))
    }

    /// The type recorded for each call site.
    pub closed spec fn callsite_types(&self) -> Map<BaseCallSite, CallType> {
        types_map(self.callsite_to_type@)
    }

    /// The reachable functions, in the order they were queued.
    pub closed spec fn reach(&self) -> Seq<F> {
        self.reach_funcs@
    }

    /// The callees of the edges labelled with `callsite`.
    pub open spec fn callees(&self, callsite: S) -> Set<F> {
        Set::new(|f: F| exists|e: int| 0 <= e < self.edges().len() && #[trigger] self.edges()[e].2 == callsite && self.funcs()[self.edges()[e].1] == f)
    }

    /// The node of `func`, if it has one.
    pub open spec fn has_node(&self, func: F) -> bool {
        self.funcs().contains(func)
    }

    pub closed spec fn wf(&self) -> bool {
        &&& self.reach_funcs.wf()
        &&& forall|i: int, j: int| 0 <= i < self.nodes@.len() && 0 <= j < self.nodes@.len() && i != j ==> #[trigger] self.funcs()[i] != #[trigger] self.funcs()[j]
        &&& forall|e: int| 0 <= e < self.edges@.len() ==> (#[trigger] self.edges@[e]).0 < self.nodes@.len() && self.edges@[e].1 < self.nodes@.len()
        &&& forall|e1: int, e2: int| 0 <= e1 < self.edges@.len() && 0 <= e2 < self.edges@.len() && e1 != e2 && #[trigger] self.edges()[e1].2 == #[trigger] self.edges()[e2].2 ==> self.funcs()[self.edges()[e1].1] != self.funcs()[self.edges()[e2].1]
        &&& forall|i: int| 0 <= i < self.nodes@.len() ==> self.reach_funcs@.contains(#[trigger] self.funcs()[i])
    }

    /// An empty call graph.
    pub fn new() -> (r: Self)
        ensures
            r.wf(),
            r.funcs() == Seq::<F>::empty(),
            r.edges() == Seq::<(int, int, S)>::empty(),
            r.reach() == Seq::<F>::empty(),
            r.callsite_types() == Map::<BaseCallSite, CallType>::empty(),
    {
        let r = CallGraph { nodes: Vec::new(), edges: Vec::new(), callsite_to_type: Vec::new(), reach_funcs: ChunkedQueue::new() };
        assert(r.funcs() =~= Seq::<F>::empty());
        assert(r.edges() =~= Seq::<(int, int, S)>::empty());
        assert(r.callsite_types() =~= Map::<BaseCallSite, CallType>::empty());
        r
    }

    /// The node of `func`, if it has one.
    fn find_node(&self, func: F) -> (r: Option<CGNodeId>)
        ensures
            match r {
                Some(id) => id < self.funcs().len() && self.funcs()[id as int] == func,
                None => !self.funcs().contains(func),
            },
    {
        let n = self.nodes.len();
        let mut i: usize = 0;
        while i < n
            invariant
                i <= n,
                n == self.funcs().len(),
                forall|j: int| 0 <= j < i ==> self.funcs()[j] != func,
            decreases n - i,
        {
            if self.nodes[i].func.same_function(&func) {
                return Some(i);
            }
            i = i + 1;
        }
        None
    }

    /// Adds a new node to the call graph, and queues its function as reachable.
    pub fn add_node(&mut self, func: F)
        requires
            old(self).wf(),
            old(self).reach().len() < usize::MAX,
        ensures
            final(self).wf(),
            old(self).has_node(func) ==> final(self).funcs() == old(self).funcs() && final(self).reach() == old(self).reach(),
            !old(self).has_node(func) ==> final(self).funcs() == old(self).funcs().push(func) && final(self).reach() == old(self).reach().push(func),
            final(self).edges() == old(self).edges(),
            final(self).callsite_types() == old(self).callsite_types(),
    {
        if self.find_node(func).is_none() {
            self.insert_node(func);
        }
    }

    /// Appends a node for `func`, which has none, and queues `func` as reachable.
    fn insert_node(&mut self, func: F) -> (id: CGNodeId)
        requires
            old(self).wf(),
            old(self).reach().len() < usize::MAX,
            !old(self).has_node(func),
        ensures
            final(self).wf(),
            id == old(self).funcs().len(),
            final(self).funcs() == old(self).funcs().push(func),
            final(self).reach() == old(self).reach().push(func),
            final(self).edges() == old(self).edges(),
            final(self).callsite_types() == old(self).callsite_types(),
    {
        let id = self.nodes.len();
        let ghost old_funcs = self.funcs();
        let ghost old_edges = self.edges();
        self.reach_funcs.push(func);
        self.nodes.push(CallGraphNode::new(func));
        proof {
            assert(self.funcs() =~= old_funcs.push(func));
            assert(self.edges() =~= old_edges);
            assert forall|i: int| 0 <= i < self.nodes@.len() implies self.reach_funcs@.contains(#[trigger] self.funcs()[i]) by {
                if i < old_funcs.len() {
                    assert(old(self).reach_funcs@.contains(old_funcs[i]));
                    let k = choose|k: int| 0 <= k < old(self).reach_funcs@.len() && old(self).reach_funcs@[k] == old_funcs[i];
                    assert(self.reach_funcs@[k] == old_funcs[i]);
                } else {
                    assert(self.reach_funcs@[self.reach_funcs@.len() - 1] == func);
                }
            }
            assert forall|e1: int, e2: int| 0 <= e1 < self.edges@.len() && 0 <= e2 < self.edges@.len() && e1 != e2 && #[trigger] self.edges()[e1].2 == #[trigger] self.edges()[e2].2 implies self.funcs()[self.edges()[e1].1] != self.funcs()[self.edges()[e2].1] by {
                assert(old(self).edges()[e1].2 == old(self).edges()[e2].2);
                assert(self.edges@[e1].1 < old_funcs.len());
                assert(self.edges@[e2].1 < old_funcs.len());
            }
        }
        id
    }

    /// The node of `func`, which is added if it has none.
    fn get_or_insert_node(&mut self, func: F) -> (id: CGNodeId)
        requires
            old(self).wf(),
            old(self).reach().len() < usize::MAX,
        ensures
            final(self).wf(),
            id < final(self).funcs().len(),
            final(self).funcs()[id as int] == func,
            old(self).has_node(func) ==> final(self).funcs() == old(self).funcs() && final(self).reach() == old(self).reach(),
            !old(self).has_node(func) ==> final(self).funcs() == old(self).funcs().push(func) && final(self).reach() == old(self).reach().push(func),
            final(self).edges() == old(self).edges(),
            final(self).callsite_types() == old(self).callsite_types(),
    {
        match self.find_node(func) {
            Some(id) => id,
            None => self.insert_node(func),
        }
    }

    /// Records the type of the call at `callsite`.
    pub fn set_callsite_type(&mut self, callsite: BaseCallSite, call_type: CallType)
        requires
            old(self).wf(),
        ensures
            final(self).wf(),
            final(self).callsite_types() == old(self).callsite_types().insert(callsite, call_type),
            final(self).funcs() == old(self).funcs(),
            final(self).edges() == old(self).edges(),
            final(self).reach() == old(self).reach(),
    {
        let ghost entries = self.callsite_to_type@;
        self.callsite_to_type.push((callsite, call_type));
        proof {
            assert(self.callsite_to_type@.drop_last() =~= entries);
            assert(self.funcs() =~= old(self).funcs());
            assert(self.edges() =~= old(self).edges());
        }
    }

    /// The type recorded for the call at `callsite`, if one is.
    pub fn get_callsite_type(&self, callsite: &BaseCallSite) -> (r: Option<&CallType>)
        requires
            self.wf(),
        ensures
            match r {
                Some(t) => self.callsite_types().dom().contains(*callsite) && self.callsite_types()[*callsite] == *t,
                None => !self.callsite_types().dom().contains(*callsite),
            },
    {
        let mut i: usize = self.callsite_to_type.len();
        proof {
            lemma_types_map_split(self.callsite_to_type@, i as int);
            assert(self.callsite_to_type@.subrange(i as int, i as int) =~= Seq::<(BaseCallSite, CallType)>::empty());
        }
        while i > 0
            invariant
                i <= self.callsite_to_type@.len(),
                types_map(self.callsite_to_type@) == types_map(self.callsite_to_type@.subrange(0, i as int)).union_prefer_right(
                    types_map(self.callsite_to_type@.subrange(i as int, self.callsite_to_type@.len() as int))),
                !types_map(self.callsite_to_type@.subrange(i as int, self.callsite_to_type@.len() as int)).dom().contains(*callsite),
            decreases i,
        {
            let ghost n = self.callsite_to_type@.len() as int;
            proof {
                lemma_types_map_split(self.callsite_to_type@, i - 1);
                lemma_types_map_split(self.callsite_to_type@.subrange(i - 1, n), 1);
                assert(self.callsite_to_type@.subrange(i - 1, n).subrange(0, 1) =~= seq![self.callsite_to_type@[i - 1]]);
                assert(self.callsite_to_type@.subrange(i - 1, n).subrange(1, n - (i - 1)) =~= self.callsite_to_type@.subrange(i as int, n));
                assert(self.callsite_to_type@.subrange(0, i as int).subrange(0, i - 1) =~= self.callsite_to_type@.subrange(0, i - 1));
                assert(seq![self.callsite_to_type@[i - 1]].drop_last() =~= Seq::<(BaseCallSite, CallType)>::empty());
            }
            if self.callsite_to_type[i - 1].0 == *callsite {
                return Some(&self.callsite_to_type[i - 1].1);
            }
            proof {
                let x = self.callsite_to_type@[i - 1];
                let one = self.callsite_to_type@.subrange(i - 1, n).subrange(0, 1);
                assert(one.last() == x);
                assert(types_map(one) == types_map(one.drop_last()).insert(x.0, x.1));
                assert(!types_map(one).dom().contains(*callsite));
            }
            i = i - 1;
        }
        proof {
            assert(self.callsite_to_type@.subrange(0, 0) =~= Seq::<(BaseCallSite, CallType)>::empty());
        }
        None
    }

    /// The number of edges.
    pub fn edge_count(&self) -> (r: usize)
        ensures
            r == self.edges().len(),
    {
        self.edges.len()
    }

    /// The number of nodes.
    pub fn node_count(&self) -> (r: usize)
        ensures
            r == self.funcs().len(),
    {
        self.nodes.len()
    }

    /// The function of a node.
    pub fn node_func(&self, node: CGNodeId) -> (r: F)
        requires
            node < self.funcs().len(),
        ensures
            r == self.funcs()[node as int],
    {
        self.nodes[node].func
    }

    /// For each node, the callee nodes of the edges out of it, in the order of the
    /// edges.
    pub open spec fn succ_lists(&self) -> Seq<Seq<usize>> {
        Seq::new(self.funcs().len(), |a: int| self.edges().filter(|e: (int, int, S)| e.0 == a).map_values(|e: (int, int, S)| e.1 as usize))
    }

    /// The successor lists of the graph: for each node, the callee nodes of the
    /// edges out of it, in the order of the edges.
    pub fn successor_lists(&self) -> (r: Vec<Vec<usize>>)
        requires
            self.wf(),
        ensures
            r@.map_values(|v: Vec<usize>| v@) == self.succ_lists(),
            forall|a: int, j: int| 0 <= a < r@.len() && 0 <= j < r@[a]@.len() ==> #[trigger] r@[a]@[j] < r@.len(),
    {
        let n = self.nodes.len();
        let mut lists: Vec<Vec<usize>> = Vec::new();
        let mut i: usize = 0;
        while i < n
            invariant
                i <= n,
                lists@.len() == i,
                forall|a: int| 0 <= a < i ==> (#[trigger] lists@[a])@ == Seq::<usize>::empty(),
            decreases n - i,
        {
            lists.push(Vec::new());
            i = i + 1;
        }
        let m = self.edges.len();
        let mut e: usize = 0;
        proof {
            assert forall|a: int| 0 <= a < n implies (#[trigger] lists@[a])@ == self.edges().take(0).filter(|x: (int, int, S)| x.0 == a).map_values(|x: (int, int, S)| x.1 as usize) by {
                assert(self.edges().take(0) =~= Seq::<(int, int, S)>::empty());
                reveal(Seq::filter);
                assert(Seq::<(int, int, S)>::empty().filter(|x: (int, int, S)| x.0 == a) =~= Seq::<(int, int, S)>::empty());
            }
        }
        while e < m
            invariant
                e <= m,
                m == self.edges().len(),
                n == self.funcs().len(),
                self.wf(),
                lists@.len() == n,
                forall|a: int| 0 <= a < n ==> (#[trigger] lists@[a])@ == self.edges().take(e as int).filter(|x: (int, int, S)| x.0 == a).map_values(|x: (int, int, S)| x.1 as usize),
                forall|a: int, j: int| 0 <= a < n && 0 <= j < lists@[a]@.len() ==> #[trigger] lists@[a]@[j] < n,
            decreases m - e,
        {
            let from = self.edges[e].0;
            let to = self.edges[e].1;
            let ghost before = lists@;
            vstd::std_specs::vec::vec_index_mut(&mut lists, from).push(to);
            proof {
                let x = self.edges()[e as int];
                assert(self.edges().take(e + 1) =~= self.edges().take(e as int).push(x));
                assert forall|a: int| 0 <= a < n implies (#[trigger] lists@[a])@ == self.edges().take(e + 1).filter(|y: (int, int, S)| y.0 == a).map_values(|y: (int, int, S)| y.1 as usize) by {
                    let f = |y: (int, int, S)| y.0 == a;
                    self.edges().take(e as int).lemma_filter_push(x, f);
                    let old_f = self.edges().take(e as int).filter(f);
                    if a == from {
                        assert(old_f.push(x).map_values(|y: (int, int, S)| y.1 as usize) =~= old_f.map_values(|y: (int, int, S)| y.1 as usize).push(to));
                    } else {
                        assert(lists@[a] == before[a]);
                    }
                }
            }
            e = e + 1;
        }
        proof {
            assert(self.edges().take(m as int) =~= self.edges());
            assert(lists@.map_values(|v: Vec<usize>| v@) =~= self.succ_lists());
        }
        lists
    }

    /// The node of `func`, if it has one.
    pub fn node_of(&self, func: F) -> (r: Option<CGNodeId>)
        ensures
            match r {
                Some(id) => id < self.funcs().len() && self.funcs()[id as int] == func,
                None => !self.has_node(func),
            },
    {
        self.find_node(func)
    }

    /// The caller's and the callee's nodes of an edge, if it exists.
    pub fn edge_endpoints(&self, edge_id: CGEdgeId) -> (r: Option<(CGNodeId, CGNodeId)>)
        requires
            self.wf(),
        ensures
            edge_id < self.edges().len() ==> r is Some && (r->0).0 as int == self.edges()[edge_id as int].0 && (r->0).1 as int == self.edges()[edge_id as int].1,
            edge_id < self.edges().len() ==> 0 <= self.edges()[edge_id as int].0 < self.funcs().len() && 0 <= self.edges()[edge_id as int].1 < self.funcs().len(),
            edge_id >= self.edges().len() ==> r is None,
    {
        if edge_id < self.edges.len() {
            Some((self.edges[edge_id].0, self.edges[edge_id].1))
        } else {
            None
        }
    }

    /// The call site of an edge, if it exists.
    pub(crate) fn edge_callsite(&self, edge_id: CGEdgeId) -> (r: Option<S>)
        requires
            self.wf(),
        ensures
            edge_id < self.edges().len() ==> r == Some(self.edges()[edge_id as int].2),
            edge_id >= self.edges().len() ==> r is None,
    {
        if edge_id < self.edges.len() {
            Some(self.edges[edge_id].2.callsite)
        } else {
            None
        }
    }

    /// The callee of an edge, if it exists.
    pub fn get_callee_id_of_edge(&self, edge_id: CGEdgeId) -> (r: Option<F>)
        requires
            self.wf(),
        ensures
            edge_id < self.edges().len() ==> r == Some(self.funcs()[self.edges()[edge_id as int].1]),
            edge_id >= self.edges().len() ==> r is None,
    {
        match self.edge_endpoints(edge_id) {
            Some((_, callee_node)) => Some(self.nodes[callee_node].func),
            None => None,
        }
    }

    /// All the functions called at `callsite`, each once.
    pub fn get_callees(&self, callsite: &S) -> (r: Vec<F>)
        requires
            self.wf(),
        ensures
            r@.to_set() == self.callees(*callsite),
            r@.no_duplicates(),
    {
        let mut r: Vec<F> = Vec::new();
        let ghost mut from: Seq<int> = Seq::empty();
        let n = self.edges.len();
        let mut e: usize = 0;
        while e < n
            invariant
                e <= n,
                n == self.edges().len(),
                self.wf(),
                r@.no_duplicates(),
                from.len() == r@.len(),
                forall|k: int| 0 <= k < r@.len() ==> 0 <= #[trigger] from[k] < e && self.edges()[from[k]].2 == *callsite && self.funcs()[self.edges()[from[k]].1] == r@[k],
                forall|x: int| 0 <= x < e && #[trigger] self.edges()[x].2 == *callsite ==> r@.contains(self.funcs()[self.edges()[x].1]),
            decreases n - e,
        {
            if self.edges[e].2.callsite.same_call_site(callsite) {
                let f = self.nodes[self.edges[e].1].func;
                let ghost before = r@;
                r.push(f);
                proof {
                    from = from.push(e as int);
                    assert forall|i: int, j: int| 0 <= i < j < r@.len() implies r@[i] != r@[j] by {
                        if j == r@.len() - 1 {
                            assert(from[i] != e);
                            assert(self.edges()[from[i]].2 == self.edges()[e as int].2);
                        }
                    }
                    assert forall|x: int| 0 <= x < e + 1 && #[trigger] self.edges()[x].2 == *callsite implies r@.contains(self.funcs()[self.edges()[x].1]) by {
                        if x < e {
                            assert(before.contains(self.funcs()[self.edges()[x].1]));
                            let k = choose|k: int| 0 <= k < before.len() && before[k] == self.funcs()[self.edges()[x].1];
                            assert(r@[k] == before[k]);
                        } else {
                            assert(r@[r@.len() - 1] == f);
                        }
                    }
                }
            }
            e = e + 1;
        }
        proof {
            assert(r@.to_set() =~= self.callees(*callsite)) by {
                assert forall|f: F| r@.to_set().contains(f) implies self.callees(*callsite).contains(f) by {
                    let k = choose|k: int| 0 <= k < r@.len() && r@[k] == f;
                    assert(self.edges()[from[k]].2 == *callsite);
                }
            }
        }
        r
    }

    /// Returns true if an edge to the callee already exists for the call site.
    pub fn has_edge(&self, callsite: &S, callee_id: F) -> (r: bool)
        requires
            self.wf(),
        ensures
            r == self.callees(*callsite).contains(callee_id),
    {
        let callees = self.get_callees(callsite);
        vec_contains(&callees, callee_id)
    }

    /// Adds an edge for a call from `caller_id` to `callee_id` at `callsite`,
    /// adding the nodes that are missing. Returns false if the call site already
    /// had an edge to the callee, and true otherwise.
    pub fn add_edge(&mut self, callsite: S, caller_id: F, callee_id: F) -> (r: bool)
        requires
            old(self).wf(),
            old(self).reach().len() + 2 <= usize::MAX,
        ensures
            final(self).wf(),
            r == !old(self).callees(callsite).contains(callee_id),
            final(self).has_node(caller_id),
            final(self).has_node(callee_id),
            final(self).callees(callsite) == old(self).callees(callsite).insert(callee_id),
            forall|c: S| c != callsite ==> #[trigger] final(self).callees(c) == old(self).callees(c),
            forall|f: F| #[trigger] final(self).has_node(f) <==> old(self).has_node(f) || f == caller_id || f == callee_id,
            final(self).callsite_types() == old(self).callsite_types(),
    {
        let caller_node = self.get_or_insert_node(caller_id);
        let ghost after_caller = self.funcs();
        let callee_node = self.get_or_insert_node(callee_id);
        let ghost mid = *self;
        proof {
            assert(self.funcs()[caller_node as int] == caller_id);
            assert forall|f: F| #[trigger] self.has_node(f) <==> old(self).has_node(f) || f == caller_id || f == callee_id by {
                lemma_contains_push(old(self).funcs(), caller_id, f);
                lemma_contains_push(after_caller, callee_id, f);
            }
            assert forall|c: S| #[trigger] mid.callees(c) =~= old(self).callees(c) by {
                assert forall|f: F| mid.callees(c).contains(f) implies old(self).callees(c).contains(f) by {
                    let e = choose|e: int| 0 <= e < mid.edges().len() && #[trigger] mid.edges()[e].2 == c && mid.funcs()[mid.edges()[e].1] == f;
                    assert(old(self).edges()[e].2 == c);
                }
                assert forall|f: F| old(self).callees(c).contains(f) implies mid.callees(c).contains(f) by {
                    let e = choose|e: int| 0 <= e < old(self).edges().len() && #[trigger] old(self).edges()[e].2 == c && old(self).funcs()[old(self).edges()[e].1] == f;
                    assert(mid.edges()[e].2 == c);
                }
            }
        }
        if !self.has_edge(&callsite, callee_id) {
            let ghost old_edges = self.edges();
            self.edges.push((caller_node, callee_node, CallGraphEdge::new(callsite)));
            proof {
                let n = old_edges.len();
                assert(self.edges() =~= old_edges.push((caller_node as int, callee_node as int, callsite)));
                assert forall|c: S| c != callsite implies #[trigger] self.callees(c) =~= mid.callees(c) by {
                    assert forall|f: F| self.callees(c).contains(f) implies mid.callees(c).contains(f) by {
                        let e = choose|e: int| 0 <= e < self.edges().len() && #[trigger] self.edges()[e].2 == c && self.funcs()[self.edges()[e].1] == f;
                        assert(e < n);
                        assert(mid.edges()[e].2 == c);
                    }
                    assert forall|f: F| mid.callees(c).contains(f) implies self.callees(c).contains(f) by {
                        let e = choose|e: int| 0 <= e < mid.edges().len() && #[trigger] mid.edges()[e].2 == c && mid.funcs()[mid.edges()[e].1] == f;
                        assert(self.edges()[e].2 == c);
                    }
                }
                assert(self.callees(callsite) =~= mid.callees(callsite).insert(callee_id)) by {
                    assert(self.edges()[n as int].2 == callsite);
                    assert forall|f: F| self.callees(callsite).contains(f) implies mid.callees(callsite).insert(callee_id).contains(f) by {
                        let e = choose|e: int| 0 <= e < self.edges().len() && #[trigger] self.edges()[e].2 == callsite && self.funcs()[self.edges()[e].1] == f;
                        if e < n {
                            assert(mid.edges()[e].2 == callsite);
                        }
                    }
                    assert forall|f: F| mid.callees(callsite).contains(f) implies self.callees(callsite).contains(f) by {
                        let e = choose|e: int| 0 <= e < mid.edges().len() && #[trigger] mid.edges()[e].2 == callsite && mid.funcs()[mid.edges()[e].1] == f;
                        assert(self.edges()[e].2 == callsite);
                    }
                }
                assert forall|e1: int, e2: int| 0 <= e1 < self.edges@.len() && 0 <= e2 < self.edges@.len() && e1 != e2 && #[trigger] self.edges()[e1].2 == #[trigger] self.edges()[e2].2 implies self.funcs()[self.edges()[e1].1] != self.funcs()[self.edges()[e2].1] by {
                    if e1 == n {
                        assert(mid.edges()[e2].2 == callsite);
                        assert(!mid.callees(callsite).contains(callee_id));
                    } else if e2 == n {
                        assert(mid.edges()[e1].2 == callsite);
                        assert(!mid.callees(callsite).contains(callee_id));
                    } else {
                        assert(mid.edges()[e1].2 == mid.edges()[e2].2);
                    }
                }
                assert forall|i: int| 0 <= i < self.nodes@.len() implies self.reach_funcs@.contains(#[trigger] self.funcs()[i]) by {
                    assert(mid.reach_funcs@.contains(mid.funcs()[i]));
                }
                assert(self.funcs() =~= mid.funcs());
                assert forall|f: F| #[trigger] self.has_node(f) <==> old(self).has_node(f) || f == caller_id || f == callee_id by {
                    assert(mid.has_node(f) <==> old(self).has_node(f) || f == caller_id || f == callee_id);
                }
            }
            true
        } else {
            proof {
                assert(mid.callees(callsite).insert(callee_id) =~= mid.callees(callsite));
            }
            false
        }
    }

    /// Queues `func` as reachable.
    pub fn add_reach_func(&mut self, func: F)
        requires
            old(self).wf(),
            old(self).reach().len() < usize::MAX,
        ensures
            final(self).wf(),
            final(self).reach() == old(self).reach().push(func),
            final(self).funcs() == old(self).funcs(),
            final(self).edges() == old(self).edges(),
            final(self).callsite_types() == old(self).callsite_types(),
    {
        self.reach_funcs.push(func);
        proof {
            assert(self.funcs() =~= old(self).funcs());
            assert(self.edges() =~= old(self).edges());
            assert forall|i: int| 0 <= i < self.nodes@.len() implies self.reach_funcs@.contains(#[trigger] self.funcs()[i]) by {
                assert(old(self).reach_funcs@.contains(old(self).funcs()[i]));
                let k = choose|k: int| 0 <= k < old(self).reach_funcs@.len() && old(self).reach_funcs@[k] == self.funcs()[i];
                assert(self.reach_funcs@[k] == self.funcs()[i]);
            }
        }
    }

    /// An iterator over the reachable functions, which also gives those queued after
    /// it was made.
    pub fn reach_funcs_iter(&self) -> (r: IterCopied)
        requires
            self.wf(),
        ensures
            r.wf(),
            r.position() == 0,
    {
        self.reach_funcs.iter_copied()
    }

    /// The queue of reachable functions.
    pub fn reach_funcs(&self) -> (r: &ChunkedQueue<F>)
        requires
            self.wf(),
        ensures
            r.wf(),
            r@ == self.reach(),
    {
        &self.reach_funcs
    }
}

/// The map from call sites to their types that a list of records gives, a later
/// record of a call site overriding an earlier one.
pub open spec fn types_map(entries: Seq<(BaseCallSite, CallType)>) -> Map<BaseCallSite, CallType>
    decreases entries.len(),
{
    if entries.len() == 0 {
        Map::empty()
    } else {
        types_map(entries.drop_last()).insert(entries.last().0, entries.last().1)
    }
}

/// The map of a list of records is that of its first `k` records overridden by
/// that of the rest.
proof fn lemma_types_map_split(entries: Seq<(BaseCallSite, CallType)>, k: int)
    requires
        0 <= k <= entries.len(),
    ensures
        types_map(entries) == types_map(entries.subrange(0, k)).union_prefer_right(types_map(entries.subrange(k, entries.len() as int))),
    decreases entries.len(),
{
    if k == entries.len() {
        assert(entries.subrange(0, k) =~= entries);
        assert(entries.subrange(k, entries.len() as int) =~= Seq::<(BaseCallSite, CallType)>::empty());
        assert(types_map(entries).union_prefer_right(Map::empty()) =~= types_map(entries));
    } else {
        let last = entries.last();
        lemma_types_map_split(entries.drop_last(), k);
        assert(entries.drop_last().subrange(0, k) =~= entries.subrange(0, k));
        let rest = entries.subrange(k, entries.len() as int);
        assert(rest.drop_last() =~= entries.drop_last().subrange(k, entries.len() - 1));
        assert(rest.last() == last);
        assert(types_map(entries) =~= types_map(entries.subrange(0, k)).union_prefer_right(types_map(rest)));
    }
}

proof fn lemma_contains_push<A>(s: Seq<A>, x: A, f: A)
    ensures
        s.push(x).contains(f) <==> s.contains(f) || f == x,
{
    if s.contains(f) {
        let k = choose|k: int| 0 <= k < s.len() && s[k] == f;
        assert(s.push(x)[k] == f);
    }
    if f == x {
        assert(s.push(x)[s.len() as int] == x);
    }
    if s.push(x).contains(f) && f != x {
        let k = choose|k: int| 0 <= k < s.push(x).len() && s.push(x)[k] == f;
        assert(s[k] == f);
    }
}

/// `x` occurs in `v`.
fn vec_contains<F: CGFunction>(v: &Vec<F>, x: F) -> (r: bool)
    ensures
        r == v@.contains(x),
{
    let n = v.len();
    let mut i: usize = 0;
    while i < n
        invariant
            i <= n,
            n == v@.len(),
            forall|j: int| 0 <= j < i ==> v@[j] != x,
        decreases n - i,
    {
        if v[i].same_function(&x) {
            assert(v@[i as int] == x);
            return true;
        }
        i = i + 1;
    }
    false
}


/// A function has one node at most, and the function of every node has been
/// queued as reachable.
pub proof fn law_nodes_unique_and_reachable<F: CGFunction, S: CGCallSite>(g: &CallGraph<F, S>, i: int, j: int)
    requires
        g.wf(),
        0 <= i < g.funcs().len(),
        0 <= j < g.funcs().len(),
    ensures
        g.funcs()[i] == g.funcs()[j] ==> i == j,
        g.reach().contains(g.funcs()[i]),
{
}

/// A call site never has two edges to the same callee: the edges labelled with a
/// call site are as many as its callees.
pub proof fn law_one_edge_per_callee<F: CGFunction, S: CGCallSite>(g: &CallGraph<F, S>, e1: int, e2: int)
    requires
        g.wf(),
        0 <= e1 < g.edges().len(),
        0 <= e2 < g.edges().len(),
        g.edges()[e1].2 == g.edges()[e2].2,
        g.funcs()[g.edges()[e1].1] == g.funcs()[g.edges()[e2].1],
    ensures
        e1 == e2,
{
}

} // verus!
