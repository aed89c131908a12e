//! A tree held in a single vector, with nodes named by their positions in it.

use vstd::prelude::*;

verus! {

/// Identifies a node of an index tree: its position in the tree's vector.
pub type NodeId = usize;

/// The tree's node type.
pub struct Node<T> {
    pub parent: Option<NodeId>,
    /// Node id of this node's next sibling node
    pub next_sibling: Option<NodeId>,
    /// Node id of this node's first child node
    pub first_child: Option<NodeId>,
    /// Node id of this node's last child node
    pub last_child: Option<NodeId>,
    /// Associated tree data.
    pub data: T,
}

impl<T> Node<T> {
    fn new(data: T) -> (r: Self)
        ensures
            r.parent is None,
            r.next_sibling is None,
            r.first_child is None,
            r.last_child is None,
            r.data == data,
    {
        Node { parent: None, next_sibling: None, first_child: None, last_child: None, data: data }
    }

    /// Returns a reference to the node data.
    pub fn get(&self) -> (r: &T)
        ensures
            *r == self.data,
    {
        &self.data
    }

    /// Returns a mutable reference to the node data.
    pub fn get_mut(&mut self) -> (r: &mut T)
        ensures
            *r == old(self).data,
            final(self).data == *final(r),
            final(self).parent == old(self).parent,
            final(self).next_sibling == old(self).next_sibling,
            final(self).first_child == old(self).first_child,
            final(self).last_child == old(self).last_child,
    {
        &mut self.data
    }
}

/// A tree structure implemented using a single Vec and numerical identifiers (indices
/// in the vector) instead of reference counted pointers like.
pub struct IndexTree<T> {
    nodes: Vec<Node<T>>,
    /// The children of each node, in insertion order.
    kids: Ghost<Seq<Seq<NodeId>>>,
}

/// The first element of `s`, if any.
pub open spec fn first_of(s: Seq<NodeId>) -> Option<NodeId> {
    if s.len() == 0 {
        None
    } else {
        Some(s[0])
    }
}

/// The last element of `s`, if any.
pub open spec fn last_of(s: Seq<NodeId>) -> Option<NodeId> {
    if s.len() == 0 {
        None
    } else {
        Some(s.last())
    }
}

/// The element of `s` after position `j`, if any.
pub open spec fn after_of(s: Seq<NodeId>, j: int) -> Option<NodeId> {
    if j + 1 < s.len() {
        Some(s[j + 1])
    } else {
        None
    }
}

impl<T> IndexTree<T> {
    /// The nodes of the tree, by id.
    pub closed spec fn nodes_view(&self) -> Seq<Node<T>> {
        self.nodes@
    }

    /// The ids of the children of each node, in insertion order.
    pub closed spec fn kids(&self) -> Seq<Seq<NodeId>> {
        self.kids@
    }

    /// The number of nodes.
    pub open spec fn size(&self) -> nat {
        self.nodes_view().len()
    }

    /// The links of the nodes agree with the children lists: the first and last
    /// child of a node are those of its list, each child's next sibling is the one
    /// after it in the list, each child lies after its parent and names it as
    /// parent, and every node but the root is a child of its parent.
    pub closed spec fn wf(&self) -> bool {
        tree_wf(self.nodes@, self.kids@)
    }

    /// The links of a well formed tree: the root has no parent and no sibling; each node names the
    /// first and last of its children; the `j`-th child of a node comes after it,
    /// names it as parent and names the next child as its next sibling (none after
    /// the last); every other node is among the children of its parent.
    pub proof fn lemma_links(&self)
        requires
            self.wf(),
        ensures
            tree_wf(self.nodes_view(), self.kids()),
    {
    }
}

/// The links of `nodes` agree with the children lists `kids` (see `IndexTree::wf`).
pub open spec fn tree_wf<T>(nodes: Seq<Node<T>>, kids: Seq<Seq<NodeId>>) -> bool {
    let n = nodes.len();
    &&& n >= 1
    &&& n <= usize::MAX
    &&& kids.len() == n
    &&& nodes[0].parent is None
    &&& nodes[0].next_sibling is None
    &&& forall|p: int| 0 <= p < n ==> #[trigger] links_ok(nodes, kids, p)
    &&& forall|p: int, j: int|
        0 <= p < n && 0 <= j < kids[p].len() ==> #[trigger] child_ok(nodes, kids, p, j)
    &&& forall|c: int| 1 <= c < n ==> #[trigger] parent_ok(nodes, kids, c)
}

/// Node `p` names the first and last of its children, which are distinct.
pub open spec fn links_ok<T>(nodes: Seq<Node<T>>, kids: Seq<Seq<NodeId>>, p: int) -> bool {
    &&& nodes[p].first_child == first_of(kids[p])
    &&& nodes[p].last_child == last_of(kids[p])
    &&& kids[p].no_duplicates()
}

/// The `j`-th child of `p` lies after `p`, names `p` as parent, and names the
/// next child of `p` as its next sibling.
pub open spec fn child_ok<T>(nodes: Seq<Node<T>>, kids: Seq<Seq<NodeId>>, p: int, j: int) -> bool {
    let c = kids[p][j] as int;
    &&& p < c < nodes.len()
    &&& nodes[c].parent == Some(p as NodeId)
    &&& nodes[c].next_sibling == after_of(kids[p], j)
}

/// Node `c` has a parent before it, among whose children it is.
pub open spec fn parent_ok<T>(nodes: Seq<Node<T>>, kids: Seq<Seq<NodeId>>, c: int) -> bool {
    match nodes[c].parent {
        Some(p) => p < c && kids[p as int].contains(c as NodeId),
        None => false,
    }
}

/// Adding a child `c` under `p` keeps the links in agreement with the children lists.
proof fn lemma_add_child<T>(
    on: Seq<Node<T>>,
    ok: Seq<Seq<NodeId>>,
    nn: Seq<Node<T>>,
    p: int,
    c: int,
)
    requires
        tree_wf(on, ok),
        0 <= p < on.len(),
        c == on.len(),
        c < usize::MAX,
        nn.len() == on.len() + 1,
        nn[c].parent == Some(p as NodeId),
        nn[c].next_sibling is None,
        nn[c].first_child is None,
        nn[c].last_child is None,
        nn[p].first_child == (if ok[p].len() == 0 { Some(c as NodeId) } else { on[p].first_child }),
        nn[p].last_child == Some(c as NodeId),
        nn[p].parent == on[p].parent,
        nn[p].next_sibling == on[p].next_sibling,
        ok[p].len() > 0 ==> {
            let l = ok[p].last() as int;
            &&& nn[l].next_sibling == Some(c as NodeId)
            &&& nn[l].parent == on[l].parent
            &&& nn[l].first_child == on[l].first_child
            &&& nn[l].last_child == on[l].last_child
        },
        forall|i: int|
            0 <= i < on.len() && i != p && (ok[p].len() == 0 || i != ok[p].last()) ==> #[trigger] nn[i]
                == on[i],
    ensures
        tree_wf(nn, ok.update(p, ok[p].push(c as NodeId)).push(Seq::<NodeId>::empty())),
{
    let nk = ok.update(p, ok[p].push(c as NodeId)).push(Seq::<NodeId>::empty());
    let n = nn.len() as int;
    let pk = ok[p];
    assert(!pk.contains(c as NodeId)) by {
        if pk.contains(c as NodeId) {
            let j = choose|j: int| 0 <= j < pk.len() && pk[j] == c as NodeId;
            assert(child_ok(on, ok, p, j));
        }
    }
    if pk.len() > 0 {
        assert(child_ok(on, ok, p, pk.len() - 1));
    }
    assert forall|q: int| 0 <= q < n implies #[trigger] links_ok(nn, nk, q) by {
        if q < n - 1 {
            assert(links_ok(on, ok, q));
            if q != p && pk.len() > 0 && q == pk.last() {
                assert(nn[q].first_child == on[q].first_child);
            }
        }
        if q == p {
            assert(nk[p] == pk.push(c as NodeId));
        }
    }
    assert forall|q: int, j: int|
        0 <= q < n && 0 <= j < nk[q].len() implies #[trigger] child_ok(nn, nk, q, j) by {
        if q == p && j == pk.len() {
        } else {
            assert(q < n - 1 && j < ok[q].len());
            assert(child_ok(on, ok, q, j));
            assert(nk[q][j] == ok[q][j]);
            let d = ok[q][j] as int;
            if q == p && j == pk.len() - 1 {
                assert(d == pk.last());
            } else if pk.len() > 0 && d == pk.last() {
                assert(links_ok(on, ok, p));
                assert(d == pk[pk.len() - 1]);
                assert(child_ok(on, ok, p, pk.len() - 1));
                assert(on[d].parent == Some(q as NodeId));
                assert(q == p);
                assert(pk.no_duplicates());
            }
        }
    }
    assert forall|d: int| 1 <= d < n implies #[trigger] parent_ok(nn, nk, d) by {
        if d < n - 1 {
            assert(parent_ok(on, ok, d));
            let q = on[d].parent.unwrap() as int;
            let j = choose|j: int| 0 <= j < ok[q].len() && ok[q][j] == d as NodeId;
            assert(nk[q][j] == d as NodeId);
        } else {
            assert(nk[p][pk.len() as int] == c as NodeId);
        }
    }
}

impl<T> IndexTree<T> {
    /// Creates a new tree with a single root node holding `data`.
    pub fn new_root(data: T) -> (r: IndexTree<T>)
        ensures
            r.wf(),
            r.size() == 1,
            r.nodes_view()[0].data == data,
            r.nodes_view()[0].parent is None,
            r.nodes_view()[0].next_sibling is None,
            r.nodes_view()[0].first_child is None,
            r.nodes_view()[0].last_child is None,
            r.kids() == seq![Seq::<NodeId>::empty()],
    {
        let root = Node::new(data);
        let mut nodes: Vec<Node<T>> = Vec::new();
        nodes.push(root);
        let ghost k: Seq<Seq<NodeId>> = seq![Seq::<NodeId>::empty()];
        IndexTree { nodes, kids: Ghost(k) }
    }

    /// Counts the number of nodes
    pub fn count(&self) -> (r: usize)
        ensures
            r == self.size(),
    {
        self.nodes.len()
    }

    /// Returns a reference to the node with the given id if in the tree.
    pub fn get(&self, id: NodeId) -> (r: Option<&Node<T>>)
        ensures
            match r {
                Some(node) => id < self.size() && *node == self.nodes_view()[id as int],
                None => id >= self.size(),
            },
    {
        if id < self.nodes.len() {
            Some(&self.nodes[id])
        } else {
            None
        }
    }

    /// Returns a mutable reference to the node with the given id if in the tree.
    pub fn get_mut(&mut self, id: NodeId) -> (r: Option<&mut Node<T>>)
        ensures
            match r {
                Some(node) => {
                    &&& id < old(self).size()
                    &&& *node == old(self).nodes_view()[id as int]
                    &&& final(self).nodes_view() == old(self).nodes_view().update(id as int, *final(node))
                    &&& final(self).kids() == old(self).kids()
                },
                None => id >= old(self).size() && final(self).nodes_view() == old(self).nodes_view()
                    && final(self).kids() == old(self).kids(),
            },
    {
        if id < self.nodes.len() {
            Some(vstd::std_specs::vec::vec_index_mut(&mut self.nodes, id))
        } else {
            None
        }
    }

    fn new_node(&mut self, data: T) -> (r: NodeId)
        requires
            old(self).nodes_view().len() < usize::MAX,
        ensures
            r == old(self).size(),
            final(self).kids() == old(self).kids(),
            final(self).nodes_view().len() == old(self).nodes_view().len() + 1,
            forall|i: int| 0 <= i < old(self).size() ==> final(self).nodes_view()[i] == old(self).nodes_view()[i],
            final(self).nodes_view()[r as int].data == data,
            final(self).nodes_view()[r as int].parent is None,
            final(self).nodes_view()[r as int].next_sibling is None,
            final(self).nodes_view()[r as int].first_child is None,
            final(self).nodes_view()[r as int].last_child is None,
    {
        let index = self.nodes.len();
        let node = Node::new(data);
        self.nodes.push(node);
        index
    }

    /// Appends a new child to the node with parent_id, after existing children.
    pub fn add_child(&mut self, parent_id: NodeId, data: T) -> (r: NodeId)
        requires
            old(self).wf(),
            parent_id < old(self).size(),
            old(self).size() < usize::MAX,
        ensures
            final(self).wf(),
            r == old(self).size(),
            final(self).size() == old(self).size() + 1,
            final(self).nodes_view()[r as int].data == data,
            final(self).nodes_view()[r as int].parent == Some(parent_id),
            final(self).nodes_view()[r as int].next_sibling is None,
            final(self).nodes_view()[r as int].first_child is None,
            final(self).nodes_view()[r as int].last_child is None,
            forall|i: int| 0 <= i < old(self).size() ==> #[trigger] final(self).nodes_view()[i].data == old(self).nodes_view()[i].data,
            forall|i: int| 0 <= i < old(self).size() ==> #[trigger] final(self).nodes_view()[i].parent == old(self).nodes_view()[i].parent,
            final(self).kids() == old(self).kids().update(
                parent_id as int,
                old(self).kids()[parent_id as int].push(r),
            ).push(Seq::<NodeId>::empty()),
    {
        let ghost old_kids = self.kids@;
        let ghost old_nodes = self.nodes@;
        let child_id = self.new_node(data);
        let last = self.nodes[parent_id].last_child;
        proof {
            assert(links_ok(old_nodes, old_kids, parent_id as int));
        }
        match last {
            None => {
                self.nodes[parent_id].first_child = Some(child_id);
                self.nodes[parent_id].last_child = Some(child_id);
            },
            Some(id) => {
                proof {
                    assert(child_ok(old_nodes, old_kids, parent_id as int, old_kids[parent_id as int].len() - 1));
                }
                self.nodes[parent_id].last_child = Some(child_id);
                self.nodes[id].next_sibling = Some(child_id);
            },
        }
        self.nodes[child_id].parent = Some(parent_id);
        let ghost new_kids = old_kids.update(parent_id as int, old_kids[parent_id as int].push(child_id)).push(Seq::<NodeId>::empty());
        self.kids = Ghost(new_kids);
        proof {
            lemma_add_child(old_nodes, old_kids, self.nodes@, parent_id as int, child_id as int);
        }
        child_id
    }
}

impl<T> IndexTree<T> {
    /// Returns an iterator of IDs of a given node’s children.
    pub fn children(&self, id: NodeId) -> (r: Children<'_, T>)
        requires
            self.wf(),
            id < self.size(),
        ensures
            r.wf(),
            r.tree_view() == *self,
            r.remaining() == self.kids()[id as int],
    {
        Children::new(self, id)
    }

    /// Finds the child specified by the predicate.
    pub fn find_child<F>(&self, parent_id: NodeId, f: F) -> (r: Option<NodeId>) where
        F: Fn(&T) -> bool,

        requires
            self.wf(),
            parent_id < self.size(),
            forall|t: &T| f.requires((t,)),
        ensures
            match r {
                Some(c) => exists|j: int|
                    0 <= j < self.kids()[parent_id as int].len() && self.kids()[parent_id as int][j]
                        == c && f.ensures((&self.nodes_view()[c as int].data,), true) && forall|i: int|
                        0 <= i < j ==> f.ensures(
                            (&self.nodes_view()[self.kids()[parent_id as int][i] as int].data,),
                            false,
                        ),
                None => forall|i: int|
                    0 <= i < self.kids()[parent_id as int].len() ==> f.ensures(
                        (&self.nodes_view()[self.kids()[parent_id as int][i] as int].data,),
                        false,
                    ),
            },
    {
        let ghost ks = self.kids@[parent_id as int];
        let mut children = self.children(parent_id);
        loop
            invariant
                children.wf(),
                children.tree_view() == *self,
                self.wf(),
                parent_id < self.size(),
                forall|t: &T| f.requires((t,)),
                ks == self.kids()[parent_id as int],
                children.remaining() == ks.skip(ks.len() - children.remaining().len()),
                children.remaining().len() <= ks.len(),
                forall|i: int|
                    0 <= i < ks.len() - children.remaining().len() ==> f.ensures(
                        (&self.nodes_view()[ks[i] as int].data,),
                        false,
                    ),
            decreases children.remaining().len(),
        {
            let ghost before = children.remaining();
            let ghost j = ks.len() - before.len();
            match children.next() {
                None => {
                    return None;
                },
                Some(child) => {
                    proof {
                        assert(ks[j] == child) by {
                            assert(before[0] == ks.skip(j)[0]);
                        }
                        tree_child_bound(self, parent_id as int, j);
                        assert(children.remaining() =~= ks.skip(j + 1));
                    }
                    if f(&self.nodes[child].data) {
                        return Some(child);
                    }
                },
            }
        }
    }
}

/// The `j`-th child of `p` is a node of the tree.
proof fn tree_child_bound<T>(t: &IndexTree<T>, p: int, j: int) -> (b: bool)
    requires
        t.wf(),
        0 <= p < t.size(),
        0 <= j < t.kids()[p].len(),
    ensures
        b,
        t.kids()[p][j] < t.size(),
{
    assert(child_ok(t.nodes@, t.kids@, p, j));
    true
}

/// An iterator of the IDs of the children of a given node, in insertion order.
pub struct Children<'a, T> {
    tree: &'a IndexTree<T>,
    node: Option<NodeId>,
    parent: Ghost<int>,
    pos: Ghost<int>,
}

impl<'a, T> Children<'a, T> {
    /// The tree whose node's children are iterated over.
    pub closed spec fn tree_view(&self) -> IndexTree<T> {
        *self.tree
    }

    /// The ids that the iterator has yet to hand out.
    pub closed spec fn remaining(&self) -> Seq<NodeId> {
        self.tree.kids()[self.parent@].skip(self.pos@)
    }

    pub closed spec fn wf(&self) -> bool {
        &&& self.tree.wf()
        &&& 0 <= self.parent@ < self.tree.size()
        &&& 0 <= self.pos@ <= self.tree.kids()[self.parent@].len()
        &&& self.node == if self.pos@ < self.tree.kids()[self.parent@].len() {
            Some(self.tree.kids()[self.parent@][self.pos@])
        } else {
            None
        }
    }

    pub fn new(tree: &'a IndexTree<T>, current: NodeId) -> (r: Self)
        requires
            tree.wf(),
            current < tree.size(),
        ensures
            r.wf(),
            r.tree_view() == *tree,
            r.remaining() == tree.kids()[current as int],
    {
        let r = Children { tree, node: tree.nodes[current].first_child, parent: Ghost(current as int), pos: Ghost(0) };
        proof {
            assert(links_ok(tree.nodes@, tree.kids@, current as int));
            assert(tree.kids()[current as int].skip(0) =~= tree.kids()[current as int]);
        }
        r
    }

    /// Hands out the next child, or `None` after the last.
    pub fn next(&mut self) -> (r: Option<NodeId>)
        requires
            old(self).wf(),
        ensures
            final(self).wf(),
            final(self).tree_view() == old(self).tree_view(),
            match r {
                None => old(self).remaining().len() == 0 && final(self).remaining().len() == 0,
                Some(c) => {
                    &&& old(self).remaining().len() > 0
                    &&& c == old(self).remaining()[0]
                    &&& final(self).remaining() == old(self).remaining().drop_first()
                },
            },
    {
        match self.node {
            None => None,
            Some(node) => {
                proof {
                    assert(child_ok(self.tree.nodes@, self.tree.kids@, self.parent@, self.pos@));
                }
                self.node = self.tree.nodes[node].next_sibling;
                self.pos = Ghost(self.pos@ + 1);
                proof {
                    assert(self.remaining() =~= old(self).remaining().drop_first());
                }
                Some(node)
            },
        }
    }
}

/// Indicator if the node is at a start or endpoint of the tree
#[derive(Debug, Clone, Copy, PartialEq, Eq, Hash, Structural)]
pub enum NodeEdge {
    /// Indicates that start of a node that has children.
    ///
    /// Yielded by `Traverse::next()` before the node’s descendants.
    Start(NodeId),
    /// Indicates that end of a node that has children.
    ///
    /// Yielded by `Traverse::next()` after the node’s descendants.
    End(NodeId),
}

/// The ids of the subtree of `v` in pre-order: `v`, then the subtrees of its
/// children in insertion order.
pub open spec fn pre<T>(t: IndexTree<T>, v: int) -> Seq<NodeId>
    decreases t.size() - v, 1int, 0int,
{
    if 0 <= v < t.size() {
        seq![v as NodeId] + pre_kids(t, v, 0)
    } else {
        Seq::empty()
    }
}

/// The pre-order ids of the subtrees of the children of `v` from the `j`-th on.
pub open spec fn pre_kids<T>(t: IndexTree<T>, v: int, j: int) -> Seq<NodeId>
    decreases t.size() - v, 0int, t.kids()[v].len() - j,
{
    if 0 <= v < t.size() && 0 <= j < t.kids()[v].len() {
        let c = t.kids()[v][j] as int;
        if v < c < t.size() {
            pre(t, c) + pre_kids(t, v, j + 1)
        } else {
            Seq::empty()
        }
    } else {
        Seq::empty()
    }
}

/// `v` lies in the subtree of `root`.
pub open spec fn in_subtree<T>(t: IndexTree<T>, root: int, v: int) -> bool
    decreases v,
{
    if v == root {
        true
    } else if 0 < v < t.size() {
        match t.nodes_view()[v].parent {
            Some(p) => p < v && in_subtree(t, root, p as int),
            None => false,
        }
    } else {
        false
    }
}

/// The position of `v` among the children of its parent `p`.
pub open spec fn child_index<T>(t: IndexTree<T>, p: int, v: int) -> int {
    choose|j: int| 0 <= j < t.kids()[p].len() && t.kids()[p][j] == v
}

/// The pre-order ids that follow the subtree of `v` within the subtree of `root`.
pub open spec fn after<T>(t: IndexTree<T>, root: int, v: int) -> Seq<NodeId>
    decreases v,
{
    if v == root || v <= 0 || v >= t.size() {
        Seq::empty()
    } else {
        match t.nodes_view()[v].parent {
            Some(p) => if p < v {
                pre_kids(t, p as int, child_index(t, p as int, v) + 1) + after(t, root, p as int)
            } else {
                Seq::empty()
            },
            None => Seq::empty(),
        }
    }
}

proof fn lemma_in_subtree_ge<T>(t: IndexTree<T>, root: int, v: int)
    requires
        in_subtree(t, root, v),
    ensures
        root <= v,
    decreases v,
{
    if v != root {
        let p = t.nodes_view()[v].parent.unwrap() as int;
        lemma_in_subtree_ge(t, root, p);
    }
}

/// The `j`-th child of `v` is the `j`-th child of no other position.
proof fn lemma_child_index<T>(t: IndexTree<T>, p: int, j: int)
    requires
        t.wf(),
        0 <= p < t.size(),
        0 <= j < t.kids()[p].len(),
    ensures
        child_index(t, p, t.kids()[p][j] as int) == j,
        child_ok(t.nodes_view(), t.kids(), p, j),
{
    assert(links_ok(t.nodes@, t.kids@, p));
    assert(child_ok(t.nodes@, t.kids@, p, j));
    let c = t.kids()[p][j] as int;
    let k = child_index(t, p, c);
    assert(0 <= k < t.kids()[p].len() && t.kids()[p][k] == c);
}

/// An iterator of the "sides" of a node visited during a depth-first pre-order traversal,
/// where node sides are visited start to end and children are visited in insertion order.
///
/// i.e. node.start -> first child -> second child -> node.end
pub struct Traverse<'a, T> {
    tree: &'a IndexTree<T>,
    root: NodeId,
    next: Option<NodeEdge>,
}

impl<'a, T> Traverse<'a, T> {
    pub closed spec fn tree_view(&self) -> IndexTree<T> {
        *self.tree
    }

    pub closed spec fn root_view(&self) -> NodeId {
        self.root
    }

    /// The edge that the traversal yields next, if any.
    pub closed spec fn next_edge(&self) -> Option<NodeEdge> {
        self.next
    }

    /// The ids of the nodes whose start the traversal has yet to yield, in order.
    pub closed spec fn starts_left(&self) -> Seq<NodeId> {
        match self.next {
            None => Seq::empty(),
            Some(NodeEdge::Start(v)) => pre(*self.tree, v as int) + after(*self.tree, self.root as int, v as int),
            Some(NodeEdge::End(v)) => after(*self.tree, self.root as int, v as int),
        }
    }

    /// Ends come before the start that follows them.
    pub closed spec fn kind_rank(&self) -> int {
        match self.next {
            Some(NodeEdge::End(_)) => 1,
            _ => 0,
        }
    }

    /// An end yields to the end of a node before it.
    pub closed spec fn node_rank(&self) -> int {
        match self.next {
            Some(NodeEdge::Start(v)) => v as int,
            Some(NodeEdge::End(v)) => v as int,
            None => 0,
        }
    }

    pub closed spec fn wf(&self) -> bool {
        &&& self.tree.wf()
        &&& self.root < self.tree.size()
        &&& match self.next {
            Some(NodeEdge::Start(v)) => v < self.tree.size() && in_subtree(*self.tree, self.root as int, v as int),
            Some(NodeEdge::End(v)) => v < self.tree.size() && in_subtree(*self.tree, self.root as int, v as int),
            None => true,
        }
    }

    pub fn new(tree: &'a IndexTree<T>, root: NodeId) -> (r: Self)
        requires
            tree.wf(),
            root < tree.size(),
        ensures
            r.wf(),
            r.tree_view() == *tree,
            r.root_view() == root,
            r.next_edge() == Some(NodeEdge::Start(root)),
            r.starts_left() == pre(*tree, root as int),
    {
        let r = Traverse { tree, root, next: Some(NodeEdge::Start(root)) };
        assert(r.starts_left() =~= pre(*tree, root as int));
        r
    }

    /// Calculates the next node.
    fn next_of_next(&mut self, next: NodeEdge) -> (r: Option<NodeEdge>)
        requires
            old(self).wf(),
            match next {
                NodeEdge::Start(v) => v < old(self).tree.size() && in_subtree(*old(self).tree, old(self).root as int, v as int),
                NodeEdge::End(v) => v < old(self).tree.size() && in_subtree(*old(self).tree, old(self).root as int, v as int),
            },
        ensures
            *final(self) == *old(self),
            match r {
                Some(NodeEdge::Start(v)) => v < old(self).tree.size() && in_subtree(*old(self).tree, old(self).root as int, v as int),
                Some(NodeEdge::End(v)) => v < old(self).tree.size() && in_subtree(*old(self).tree, old(self).root as int, v as int),
                None => true,
            },
            ({
                let t = *old(self).tree;
                let root = old(self).root as int;
                let later = match r {
                    None => Seq::<NodeId>::empty(),
                    Some(NodeEdge::Start(w)) => pre(t, w as int) + after(t, root, w as int),
                    Some(NodeEdge::End(w)) => after(t, root, w as int),
                };
                match next {
                    NodeEdge::Start(v) => pre(t, v as int) + after(t, root, v as int) == seq![v] + later,
                    NodeEdge::End(v) => after(t, root, v as int) == later,
                }
            }),
            match next {
                NodeEdge::Start(_) => true,
                NodeEdge::End(v) => match r {
                    Some(NodeEdge::End(w)) => w < v,
                    _ => true,
                },
            },
            r matches Some(NodeEdge::Start(w)) ==> w > old(self).root,
    {
        let ghost t = *self.tree;
        let ghost root = self.root as int;
        match next {
            NodeEdge::Start(node) => {
                proof {
                    assert(links_ok(t.nodes@, t.kids@, node as int));
                    lemma_in_subtree_ge(t, root, node as int);
                }
                match self.tree.nodes[node].first_child {
                    Some(first_child) => {
                        proof {
                            lemma_child_index(t, node as int, 0);
                            let fc = first_child as int;
                            assert(fc > node);
                            assert(t.nodes_view()[fc].parent == Some(node));
                            assert(in_subtree(t, root, fc));
                            assert(after(t, root, fc) == pre_kids(t, node as int, 1) + after(t, root, node as int));
                            assert(pre_kids(t, node as int, 0) == pre(t, fc) + pre_kids(t, node as int, 1));
                            assert(pre(t, node as int) == seq![node] + pre_kids(t, node as int, 0));
                            assert(pre(t, node as int) + after(t, root, node as int) =~= seq![node] + (pre(t, fc) + after(t, root, fc)));
                        }
                        Some(NodeEdge::Start(first_child))
                    },
                    None => {
                        proof {
                            assert(pre_kids(t, node as int, 0) == Seq::<NodeId>::empty());
                            assert(pre(t, node as int) == seq![node] + pre_kids(t, node as int, 0));
                            assert(pre(t, node as int) + after(t, root, node as int) =~= seq![node] + after(t, root, node as int));
                        }
                        Some(NodeEdge::End(node))
                    },
                }
            },
            NodeEdge::End(node) => {
                if node == self.root {
                    return None;
                }
                proof {
                    lemma_in_subtree_ge(t, root, node as int);
                    assert(parent_ok(t.nodes@, t.kids@, node as int));
                }
                let n = &self.tree.nodes[node];
                let ghost p = n.parent.unwrap() as int;
                let ghost j = child_index(t, p, node as int);
                proof {
                    assert(t.kids()[p].contains(node));
                    assert(0 <= j < t.kids()[p].len() && t.kids()[p][j] == node);
                    lemma_child_index(t, p, j);
                    assert(after(t, root, node as int) == pre_kids(t, p, j + 1) + after(t, root, p));
                }
                match n.next_sibling {
                    Some(next_sibling) => {
                        proof {
                            lemma_child_index(t, p, j + 1);
                            let s = next_sibling as int;
                            assert(s == t.kids()[p][j + 1]);
                            lemma_in_subtree_ge(t, root, p);
                            assert(after(t, root, s) == pre_kids(t, p, j + 2) + after(t, root, p));
                            assert(pre_kids(t, p, j + 1) == pre(t, s) + pre_kids(t, p, j + 2));
                            assert(after(t, root, node as int) =~= pre(t, s) + after(t, root, s));
                        }
                        Some(NodeEdge::Start(next_sibling))
                    },
                    None => match n.parent {
                        Some(parent) => {
                            proof {
                                assert(pre_kids(t, p, j + 1) == Seq::<NodeId>::empty());
                                assert(after(t, root, node as int) =~= after(t, root, p));
                            }
                            Some(NodeEdge::End(parent))
                        },
                        None => None,
                    },
                }
            },
        }
    }

    /// Yields the next edge of the traversal, or `None` after the end of the root.
    pub fn next(&mut self) -> (r: Option<NodeEdge>)
        requires
            old(self).wf(),
        ensures
            final(self).wf(),
            final(self).tree_view() == old(self).tree_view(),
            final(self).root_view() == old(self).root_view(),
            r == old(self).next_edge(),
            match r {
                None => old(self).starts_left().len() == 0 && *final(self) == *old(self),
                Some(NodeEdge::Start(v)) => {
                    &&& old(self).starts_left().len() > 0
                    &&& old(self).starts_left()[0] == v
                    &&& final(self).starts_left() == old(self).starts_left().drop_first()
                },
                Some(NodeEdge::End(_)) => {
                    &&& final(self).starts_left() == old(self).starts_left()
                    &&& (final(self).kind_rank() < old(self).kind_rank() || (final(self).kind_rank()
                        == old(self).kind_rank() && final(self).node_rank() < old(self).node_rank()))
                },
            },
            0 <= final(self).node_rank(),
            0 <= final(self).kind_rank(),
            r is Some ==> final(self).next_edge() != Some(NodeEdge::Start(final(self).root_view())),
    {
        let next = match self.next {
            Some(e) => e,
            None => {
                return None;
            },
        };
        let after_next = self.next_of_next(next);
        self.next = after_next;
        proof {
            match next {
                NodeEdge::Start(v) => {
                    assert(old(self).starts_left() == seq![v] + self.starts_left());
                    assert(self.starts_left() =~= old(self).starts_left().drop_first());
                },
                NodeEdge::End(_) => {},
            }
        }
        Some(next)
    }
}

/// An iterator of the IDs of a given node and its descendants, as a pre-order depth-first search where children are visited in insertion order.
///
/// i.e. node -> first child -> second child
pub struct Descendants<'a, T>(Traverse<'a, T>, NodeId);

impl<'a, T> Descendants<'a, T> {
    /// The ids that the iterator has yet to hand out.
    pub closed spec fn remaining(&self) -> Seq<NodeId> {
        if self.0.next_edge() == Some(NodeEdge::Start(self.1)) {
            self.0.starts_left().drop_first()
        } else {
            self.0.starts_left()
        }
    }

    pub closed spec fn wf(&self) -> bool {
        &&& self.0.wf()
        &&& self.0.root_view() == self.1
    }

    pub fn new(tree: &'a IndexTree<T>, root: NodeId) -> (r: Self)
        requires
            tree.wf(),
            root < tree.size(),
        ensures
            r.wf(),
            r.remaining() == pre(*tree, root as int).drop_first(),
    {
        Descendants(Traverse::new(tree, root), root)
    }

    /// Hands out the next descendant in pre-order, or `None` after the last.
    pub fn next(&mut self) -> (r: Option<NodeId>)
        requires
            old(self).wf(),
        ensures
            final(self).wf(),
            match r {
                None => old(self).remaining().len() == 0,
                Some(v) => {
                    &&& old(self).remaining().len() > 0
                    &&& v == old(self).remaining()[0]
                    &&& final(self).remaining() == old(self).remaining().drop_first()
                },
            },
    {
        loop
            invariant
                self.wf(),
                self.1 == old(self).1,
                self.remaining() == old(self).remaining(),
            decreases self.0.starts_left().len(), self.0.kind_rank(), self.0.node_rank(),
        {
            let ghost before = self.0;
            match self.0.next() {
                None => {
                    return None;
                },
                Some(NodeEdge::Start(node)) => {
                    if node != self.1 {
                        proof {
                            assert(self.remaining() == self.0.starts_left());
                            assert(old(self).remaining() == before.starts_left());
                        }
                        return Some(node);
                    }
                    proof {
                        assert(self.remaining() =~= before.starts_left().drop_first());
                    }
                },
                Some(NodeEdge::End(_)) => {
                    proof {
                        assert(self.remaining() == self.0.starts_left());
                    }
                },
            }
        }
    }
}

impl<T> IndexTree<T> {
    /// An iterator of the IDs of a given node and its descendants, as a pre-order
    /// depth-first search where children are visited in insertion order.
    pub fn descendants(&self, id: NodeId) -> (r: Descendants<'_, T>)
        requires
            self.wf(),
            id < self.size(),
        ensures
            r.wf(),
            r.remaining() == pre(*self, id as int).drop_first(),
    {
        Descendants::new(self, id)
    }
}


/// `trees[k + 1]` is what `IndexTree::add_child` makes of `trees[k]` with the
/// data `datas[k]`, starting from a root holding `root` (as `new_root` makes it).
pub open spec fn add_child_run<T>(trees: Seq<IndexTree<T>>, root: T, datas: Seq<T>) -> bool {
    &&& trees.len() == datas.len() + 1
    &&& trees[0].size() == 1
    &&& trees[0].nodes_view()[0].data == root
    &&& forall|k: int| 0 <= k < datas.len() ==> {
        &&& #[trigger] trees[k + 1].size() == trees[k].size() + 1
        &&& trees[k + 1].nodes_view()[trees[k].size() as int].data == datas[k]
        &&& forall|i: int| 0 <= i < trees[k].size() ==> trees[k + 1].nodes_view()[i].data == trees[k].nodes_view()[i].data
    }
}

/// After a run of `add_child` calls on a new tree, node 0 holds the root's data and
/// node `i + 1` the data of the `i`-th call, which returned `i + 1`; `get` gives
/// them back.
pub proof fn law_node_data<T>(trees: Seq<IndexTree<T>>, root: T, datas: Seq<T>)
    requires
        add_child_run(trees, root, datas),
    ensures
        trees.last().size() == datas.len() + 1,
        trees.last().nodes_view()[0].data == root,
        forall|i: int| 0 <= i < datas.len() ==> #[trigger] trees.last().nodes_view()[i + 1].data == datas[i],
    decreases datas.len(),
{
    if datas.len() > 0 {
        let m = datas.len() - 1;
        let pt = trees.drop_last();
        let pd = datas.drop_last();
        assert(add_child_run(pt, root, pd)) by {
            assert forall|k: int| 0 <= k < pd.len() implies {
                &&& #[trigger] pt[k + 1].size() == pt[k].size() + 1
                &&& pt[k + 1].nodes_view()[pt[k].size() as int].data == pd[k]
                &&& forall|i: int| 0 <= i < pt[k].size() ==> pt[k + 1].nodes_view()[i].data == pt[k].nodes_view()[i].data
            } by {
                assert(trees[k + 1].size() == trees[k].size() + 1);
            }
        }
        law_node_data(pt, root, pd);
        assert(trees[m + 1].size() == trees[m].size() + 1);
        assert(pt.last() == trees[m]);
        assert forall|i: int| 0 <= i < datas.len() implies #[trigger] trees.last().nodes_view()[i + 1].data == datas[i] by {
            if i < m {
                assert(pt.last().nodes_view()[i + 1].data == pd[i]);
            }
        }
    }
}

} // verus!
