//! A tree of test nodes that aggregates results upward.
//!
//! Leaf nodes record the outcome of one test; parent nodes own their children
//! and aggregate: a parent has no result while any child is pending, fails
//! with the names of its failed children — in name order, the order a
//! name-keyed children collection walks in — once all have reported, and
//! passes otherwise. A finished child propagates its parent's fresh aggregate to the
//! grandparent, and so on toward the root, whose own aggregate is computed on
//! demand.
//!
//! The nodes live in one arena, [`TestTree`], and refer to each other by
//! index: a child points up to its parent, a parent holds the indices of its
//! children, and a parent always precedes its children in the arena.

use vstd::prelude::*;

verus! {

use crate::error::ExecError;

/// Why a test failed.
#[derive(Debug, PartialEq, Eq)]
pub enum TestError {
    /// These children of an aggregating node failed.
    ChildFailedError(Vec<String>),
}

/// The outcome of one test or one aggregate.
pub type TestResult = Result<(), TestError>;

/// The index of a node in its [`TestTree`].
pub type NodeId = usize;

/// What a parent node owns: the indices of its children.
#[derive(Debug, PartialEq, Eq)]
pub struct ParentNodeContent {
    pub children: Vec<NodeId>,
}

/// One test node: its place in the tree, its names, its content and its
/// recorded result.
#[derive(Debug, PartialEq, Eq)]
pub struct GenericTestNode<C> {
    /// The index of the parent node; `None` for a root.
    pub parent: Option<NodeId>,
    /// The node's own name, unique among its siblings.
    pub name: String,
    /// The ancestors' names joined with the node's own by dots.
    pub full_name: String,
    pub content: C,
    /// The recorded outcome; `None` while pending.
    pub result: Option<TestResult>,
}

/// An aggregating node.
pub type ParentTestNode = GenericTestNode<ParentNodeContent>;

/// A node recording one test's outcome.
pub type LeafTestNode = GenericTestNode<()>;

/// Either kind of node, as the arena stores it.
#[derive(Debug, PartialEq, Eq)]
pub enum TestNode {
    Parent(ParentTestNode),
    Leaf(LeafTestNode),
}

impl TestNode {
    /// The index of this node's parent.
    pub open spec fn spec_parent(self) -> Option<NodeId> {
        match self {
            TestNode::Parent(p) => p.parent,
            TestNode::Leaf(l) => l.parent,
        }
    }

    /// This node's own name.
    pub open spec fn spec_name(self) -> Seq<char> {
        match self {
            TestNode::Parent(p) => p.name@,
            TestNode::Leaf(l) => l.name@,
        }
    }

    /// This node's dotted full name.
    pub open spec fn spec_full_name(self) -> Seq<char> {
        match self {
            TestNode::Parent(p) => p.full_name@,
            TestNode::Leaf(l) => l.full_name@,
        }
    }

    /// This node's recorded result.
    pub open spec fn spec_result(self) -> Option<TestResult> {
        match self {
            TestNode::Parent(p) => p.result,
            TestNode::Leaf(l) => l.result,
        }
    }

    /// The indices of this node's children; a leaf has none.
    pub open spec fn spec_children(self) -> Seq<NodeId> {
        match self {
            TestNode::Parent(p) => p.content.children@,
            TestNode::Leaf(_) => Seq::<NodeId>::empty(),
        }
    }

    /// This node with its result replaced.
    pub open spec fn with_result(self, result: Option<TestResult>) -> TestNode {
        match self {
            TestNode::Parent(p) => TestNode::Parent(GenericTestNode { result, ..p }),
            TestNode::Leaf(l) => TestNode::Leaf(GenericTestNode { result, ..l }),
        }
    }

    /// Two nodes that differ in their result at most.
    pub open spec fn same_identity(self, other: TestNode) -> bool {
        other == self.with_result(other.spec_result())
    }
}

/// The j-th child index recorded at node `i`.
pub open spec fn spec_child(nodes: Seq<TestNode>, i: int, j: int) -> NodeId {
    nodes[i].spec_children()[j]
}

/// Every parent precedes its children and is itself a parent node.
pub open spec fn parents_before_children(nodes: Seq<TestNode>) -> bool {
    forall|i: int|
        0 <= i < nodes.len() ==> ((#[trigger] nodes[i].spec_parent()) matches Some(p) ==> p < i
            && nodes[p as int] is Parent)
}

/// Every recorded child is in the arena, after its parent, and points back at
/// it.
pub open spec fn children_linked(nodes: Seq<TestNode>) -> bool {
    forall|i: int, j: int|
        0 <= i < nodes.len() && 0 <= j < nodes[i].spec_children().len() ==> {
            let c = #[trigger] nodes[i].spec_children()[j];
            &&& i < c < nodes.len()
            &&& nodes[c as int].spec_parent() == Some(i as NodeId)
        }
}

/// Sibling names never repeat.
pub open spec fn sibling_names_unique(nodes: Seq<TestNode>) -> bool {
    forall|i: int, j: int, k: int|
        0 <= i < nodes.len() && 0 <= j < k < nodes[i].spec_children().len() ==> nodes[(
        #[trigger] spec_child(nodes, i, j)) as int].spec_name() != nodes[(#[trigger] spec_child(
            nodes,
            i,
            k,
        )) as int].spec_name()
}

/// Every node that names a parent is listed among that parent's children.
pub open spec fn children_complete(nodes: Seq<TestNode>) -> bool {
    forall|i: int|
        0 <= i < nodes.len() ==> ((#[trigger] nodes[i].spec_parent()) matches Some(p) ==> 0 <= p
            < nodes.len() && exists|j: int|
            0 <= j < nodes[p as int].spec_children().len() && nodes[p as int].spec_children()[j]
                == i)
}

/// A well-formed arena.
pub open spec fn wf_nodes(nodes: Seq<TestNode>) -> bool {
    &&& parents_before_children(nodes)
    &&& children_linked(nodes)
    &&& sibling_names_unique(nodes)
    &&& children_complete(nodes)
}

/// Node `i` lies on the parent chain of node `j` (or is `j` itself).
pub open spec fn spec_on_chain(nodes: Seq<TestNode>, i: int, j: int) -> bool
    decreases j,
{
    0 <= j < nodes.len() && {
        i == j || (match nodes[j].spec_parent() {
            Some(p) => 0 <= p < j && spec_on_chain(nodes, i, p as int),
            None => false,
        })
    }
}

/// The arena of test nodes.
pub struct TestTree {
    pub nodes: Vec<TestNode>,
}

impl TestTree {
    /// A well-formed arena.
    pub open spec fn wf(self) -> bool {
        wf_nodes(self.nodes@)
    }

    /// An empty arena.
    pub fn new() -> (r: TestTree)
        ensures
            r.wf(),
            r.nodes@ == Seq::<TestNode>::empty(),
    {
        TestTree { nodes: Vec::new() }
    }

    /// The node's own name.
    pub fn node_name(&self, i: NodeId) -> (r: &String)
        requires
            i < self.nodes@.len(),
        ensures
            r@ == self.nodes@[i as int].spec_name(),
    {
        match &self.nodes[i] {
            TestNode::Parent(p) => &p.name,
            TestNode::Leaf(l) => &l.name,
        }
    }

    /// The node's dotted full name.
    pub fn node_full_name(&self, i: NodeId) -> (r: &String)
        requires
            i < self.nodes@.len(),
        ensures
            r@ == self.nodes@[i as int].spec_full_name(),
    {
        match &self.nodes[i] {
            TestNode::Parent(p) => &p.full_name,
            TestNode::Leaf(l) => &l.full_name,
        }
    }

    /// The node's recorded result.
    pub fn node_result(&self, i: NodeId) -> (r: &Option<TestResult>)
        requires
            i < self.nodes@.len(),
        ensures
            *r == self.nodes@[i as int].spec_result(),
    {
        match &self.nodes[i] {
            TestNode::Parent(p) => &p.result,
            TestNode::Leaf(l) => &l.result,
        }
    }

    /// The node's parent index.
    pub fn node_parent(&self, i: NodeId) -> (r: Option<NodeId>)
        requires
            i < self.nodes@.len(),
        ensures
            r == self.nodes@[i as int].spec_parent(),
    {
        match &self.nodes[i] {
            TestNode::Parent(p) => p.parent,
            TestNode::Leaf(l) => l.parent,
        }
    }

    /// How many children the node has.
    fn child_len(&self, i: NodeId) -> (r: usize)
        requires
            i < self.nodes@.len(),
        ensures
            r == self.nodes@[i as int].spec_children().len(),
    {
        match &self.nodes[i] {
            TestNode::Parent(p) => p.content.children.len(),
            TestNode::Leaf(_) => 0,
        }
    }

    /// The j-th child of the node.
    fn child_at(&self, i: NodeId, j: usize) -> (r: NodeId)
        requires
            i < self.nodes@.len(),
            j < self.nodes@[i as int].spec_children().len(),
        ensures
            r == self.nodes@[i as int].spec_children()[j as int],
    {
        match &self.nodes[i] {
            TestNode::Parent(p) => p.content.children[j],
            TestNode::Leaf(_) => {
                proof {
                    assert(false);
                }
                0
            },
        }
    }

    /// Replace the node's result, leaving its identity untouched.
    fn set_node_result(&mut self, i: NodeId, result: TestResult)
        requires
            i < old(self).nodes@.len(),
        ensures
            final(self).nodes@ == old(self).nodes@.update(
                i as int,
                old(self).nodes@[i as int].with_result(Some(result)),
            ),
    {
        let node = self.nodes.remove(i);
        let updated = match node {
            TestNode::Parent(p) => TestNode::Parent(GenericTestNode { result: Some(result), ..p }),
            TestNode::Leaf(l) => TestNode::Leaf(GenericTestNode { result: Some(result), ..l }),
        };
        self.nodes.insert(i, updated);
        proof {
            assert(self.nodes@ =~= old(self).nodes@.update(
                i as int,
                old(self).nodes@[i as int].with_result(Some(result)),
            ));
        }
    }

    /// Whether the node has a child of this name.
    fn find_child(&self, parent: NodeId, name: &String) -> (r: Option<usize>)
        requires
            self.wf(),
            parent < self.nodes@.len(),
        ensures
            ({
                let children = self.nodes@[parent as int].spec_children();
                match r {
                    Some(j) => j < children.len() && self.nodes@[children[j as int] as int].spec_name()
                        == name@,
                    None => forall|j: int|
                        0 <= j < children.len() ==> self.nodes@[(#[trigger] children[j]) as int].spec_name()
                            != name@,
                }
            }),
    {
        let count = self.child_len(parent);
        let mut j: usize = 0;
        while j < count
            invariant
                self.wf(),
                parent < self.nodes@.len(),
                count == self.nodes@[parent as int].spec_children().len(),
                j <= count,
                forall|jj: int|
                    0 <= jj < j ==> self.nodes@[(#[trigger] spec_child(
                        self.nodes@,
                        parent as int,
                        jj,
                    )) as int].spec_name() != name@,
            decreases count - j,
        {
            let c = self.child_at(parent, j);
            proof {
                assert(spec_child(self.nodes@, parent as int, j as int) == c);
            }
            if self.node_name(c).eq(name) {
                return Some(j);
            }
            proof {
                assert forall|jj: int|
                    0 <= jj < j + 1 implies self.nodes@[(#[trigger] spec_child(
                    self.nodes@,
                    parent as int,
                    jj,
                )) as int].spec_name() != name@ by {
                    if jj == j {
                        assert(spec_child(self.nodes@, parent as int, jj) == c);
                    }
                };
            }
            j = j + 1;
        }
        proof {
            assert forall|j: int|
                0 <= j < count implies self.nodes@[(#[trigger] self.nodes@[parent as int].spec_children()[j]) as int].spec_name()
                    != name@ by {
                assert(spec_child(self.nodes@, parent as int, j) == self.nodes@[parent as int].spec_children()[j]);
                assert(self.nodes@[(spec_child(self.nodes@, parent as int, j)) as int].spec_name()
                    != name@);
            };
        }
        None
    }
}

/// Replacing results leaves every parent pointer alone, so the parent chains
/// do not move.
proof fn lemma_chain_unchanged(nodes1: Seq<TestNode>, nodes2: Seq<TestNode>, i: int, j: int)
    requires
        nodes1.len() == nodes2.len(),
        forall|k: int|
            0 <= k < nodes1.len() ==> #[trigger] nodes2[k].spec_parent() == nodes1[k].spec_parent(),
    ensures
        spec_on_chain(nodes1, i, j) == spec_on_chain(nodes2, i, j),
    decreases j,
{
    if 0 <= j < nodes1.len() {
        match nodes1[j].spec_parent() {
            Some(p) => {
                if 0 <= p < j {
                    lemma_chain_unchanged(nodes1, nodes2, i, p as int);
                }
            },
            None => {
            },
        }
    }
}

/// A node on the chain of `j` never lies after `j` in the arena.
proof fn lemma_chain_descends(nodes: Seq<TestNode>, i: int, j: int)
    requires
        spec_on_chain(nodes, i, j),
    ensures
        i <= j,
    decreases j,
{
    if i != j {
        let p = nodes[j].spec_parent()->Some_0;
        lemma_chain_descends(nodes, i, p as int);
    }
}

/// Among one parent's children, a name picks out at most one node.
proof fn lemma_named_child_unique(nodes: Seq<TestNode>, parent: int, k1: int, k2: int)
    requires
        wf_nodes(nodes),
        nodes.len() <= usize::MAX,
        0 <= parent < nodes.len(),
        0 <= k1 < nodes.len(),
        0 <= k2 < nodes.len(),
        nodes[k1].spec_parent() == Some(parent as NodeId),
        nodes[k2].spec_parent() == Some(parent as NodeId),
        nodes[k1].spec_name() == nodes[k2].spec_name(),
    ensures
        k1 == k2,
{
    let j1 = choose|j: int|
        0 <= j < nodes[parent].spec_children().len() && nodes[parent].spec_children()[j] == k1;
    let j2 = choose|j: int|
        0 <= j < nodes[parent].spec_children().len() && nodes[parent].spec_children()[j] == k2;
    assert(spec_child(nodes, parent, j1) as int == k1);
    assert(spec_child(nodes, parent, j2) as int == k2);
    if j1 < j2 {
        assert(nodes[(spec_child(nodes, parent, j1)) as int].spec_name() != nodes[(spec_child(
            nodes,
            parent,
            j2,
        )) as int].spec_name());
    } else if j2 < j1 {
        assert(nodes[(spec_child(nodes, parent, j2)) as int].spec_name() != nodes[(spec_child(
            nodes,
            parent,
            j1,
        )) as int].spec_name());
    }
}

/// A well-formed arena stays well-formed when a fresh node joins at the end
/// with no children of its own, its parent — if it names one — is a parent
/// node that now lists it as its last child, and its name repeats no
/// sibling's.
proof fn lemma_wf_after_attach(
    nodes1: Seq<TestNode>,
    nodes2: Seq<TestNode>,
    parent: Option<NodeId>,
    new_id: NodeId,
)
    requires
        wf_nodes(nodes1),
        new_id as int == nodes1.len(),
        nodes2.len() == nodes1.len() + 1,
        nodes2[new_id as int].spec_parent() == parent,
        nodes2[new_id as int].spec_children() == Seq::<NodeId>::empty(),
        match parent {
            None => forall|k: int| 0 <= k < nodes1.len() ==> nodes2[k] == nodes1[k],
            Some(p) => {
                &&& p < nodes1.len()
                &&& nodes1[p as int] is Parent
                &&& forall|k: int| 0 <= k < nodes1.len() && k != p ==> nodes2[k] == nodes1[k]
                &&& nodes2[p as int].spec_parent() == nodes1[p as int].spec_parent()
                &&& nodes2[p as int].spec_name() == nodes1[p as int].spec_name()
                &&& nodes2[p as int] is Parent
                &&& nodes2[p as int].spec_children() == nodes1[p as int].spec_children().push(
                    new_id,
                )
                &&& forall|j: int|
                    0 <= j < nodes1[p as int].spec_children().len() ==> nodes1[(
                    #[trigger] spec_child(nodes1, p as int, j)) as int].spec_name() != nodes2[
                        new_id as int
                    ].spec_name()
            },
        },
    ensures
        wf_nodes(nodes2),
{
    let n = nodes1.len() as int;
    assert forall|i: int|
        0 <= i < nodes2.len() implies ((#[trigger] nodes2[i].spec_parent()) matches Some(p) ==> p
        < i && nodes2[p as int] is Parent) by {
        if i < n {
            assert(nodes2[i].spec_parent() == nodes1[i].spec_parent());
            match nodes1[i].spec_parent() {
                Some(q) => {
                    assert(nodes1[q as int] is Parent);
                    assert(nodes2[q as int] is Parent);
                },
                None => {
                },
            }
        }
    };
    assert forall|i: int, j: int|
        0 <= i < nodes2.len() && 0 <= j < nodes2[i].spec_children().len() implies {
        let c = #[trigger] nodes2[i].spec_children()[j];
        &&& i < c < nodes2.len()
        &&& nodes2[c as int].spec_parent() == Some(i as NodeId)
    } by {
        if i < n {
            match parent {
                Some(p) => {
                    if i == p {
                        if j < nodes1[i].spec_children().len() {
                            let c = nodes1[i].spec_children()[j];
                            assert(nodes2[i].spec_children()[j] == c);
                            assert(nodes1[c as int].spec_parent() == Some(i as NodeId));
                            assert(nodes2[c as int] == nodes1[c as int]);
                        } else {
                            assert(nodes2[i].spec_children()[j] == new_id);
                            assert(nodes2[new_id as int].spec_parent() == Some(i as NodeId));
                        }
                    } else {
                        assert(nodes2[i] == nodes1[i]);
                        let c = nodes1[i].spec_children()[j];
                        assert(nodes1[c as int].spec_parent() == Some(i as NodeId));
                        if c != p {
                            assert(nodes2[c as int] == nodes1[c as int]);
                        }
                    }
                },
                None => {
                    assert(nodes2[i] == nodes1[i]);
                    let c = nodes1[i].spec_children()[j];
                    assert(nodes1[c as int].spec_parent() == Some(i as NodeId));
                    assert(nodes2[c as int] == nodes1[c as int]);
                },
            }
        }
    };
    assert forall|i: int, j: int, k: int|
        0 <= i < nodes2.len() && 0 <= j < k < nodes2[i].spec_children().len() implies nodes2[(
        #[trigger] spec_child(nodes2, i, j)) as int].spec_name() != nodes2[(#[trigger] spec_child(
            nodes2,
            i,
            k,
        )) as int].spec_name() by {
        if i < n {
            let cj = spec_child(nodes2, i, j);
            let ck = spec_child(nodes2, i, k);
            match parent {
                Some(p) => {
                    if i == p {
                        if k < nodes1[i].spec_children().len() {
                            assert(cj == spec_child(nodes1, i, j));
                            assert(ck == spec_child(nodes1, i, k));
                            assert(nodes1[cj as int].spec_name() != nodes1[ck as int].spec_name());
                            assert(cj as int != i && ck as int != i);
                            assert(nodes2[cj as int].spec_name() == nodes1[cj as int].spec_name());
                            assert(nodes2[ck as int].spec_name() == nodes1[ck as int].spec_name());
                        } else {
                            assert(ck == new_id);
                            assert(cj == spec_child(nodes1, i, j));
                            assert(nodes1[cj as int].spec_name() != nodes2[new_id as int].spec_name());
                            assert(cj as int != i);
                            assert(nodes2[cj as int].spec_name() == nodes1[cj as int].spec_name());
                        }
                    } else {
                        assert(nodes2[i] == nodes1[i]);
                        assert(cj == spec_child(nodes1, i, j));
                        assert(ck == spec_child(nodes1, i, k));
                        assert(nodes1[cj as int].spec_name() != nodes1[ck as int].spec_name());
                        assert(nodes2[cj as int].spec_name() == nodes1[cj as int].spec_name());
                        assert(nodes2[ck as int].spec_name() == nodes1[ck as int].spec_name());
                    }
                },
                None => {
                    assert(nodes2[i] == nodes1[i]);
                    assert(cj == spec_child(nodes1, i, j));
                    assert(ck == spec_child(nodes1, i, k));
                    assert(nodes1[cj as int].spec_name() != nodes1[ck as int].spec_name());
                    assert(nodes2[cj as int].spec_name() == nodes1[cj as int].spec_name());
                    assert(nodes2[ck as int].spec_name() == nodes1[ck as int].spec_name());
                },
            }
        }
    };
    assert forall|i: int|
        0 <= i < nodes2.len() implies ((#[trigger] nodes2[i].spec_parent()) matches Some(p) ==> 0
        <= p < nodes2.len() && exists|j: int|
        0 <= j < nodes2[p as int].spec_children().len() && nodes2[p as int].spec_children()[j]
            == i) by {
        match nodes2[i].spec_parent() {
            Some(p) => {
                if i < n {
                    assert(nodes2[i].spec_parent() == nodes1[i].spec_parent());
                    let j = choose|j: int|
                        0 <= j < nodes1[p as int].spec_children().len() && nodes1[
                            p as int
                        ].spec_children()[j] == i;
                    assert(nodes2[p as int].spec_children()[j] == i);
                } else {
                    let q = parent->Some_0;
                    let j = nodes1[q as int].spec_children().len() as int;
                    assert(nodes2[q as int].spec_children()[j] == i);
                }
            },
            None => {
            },
        }
    };
}

impl ParentTestNode {
    /// Add a fresh root node to the arena. Its aggregate is computed on
    /// demand through [`ParentTestNode::get_result`].
    pub fn new_root(tree: &mut TestTree, name: &str) -> (id: NodeId)
        requires
            old(tree).wf(),
        ensures
            final(tree).wf(),
            id == old(tree).nodes@.len(),
            final(tree).nodes@.len() == old(tree).nodes@.len() + 1,
            forall|k: int| 0 <= k < old(tree).nodes@.len() ==> final(tree).nodes@[k] == old(
                tree,
            ).nodes@[k],
            final(tree).nodes@[id as int] is Parent,
            final(tree).nodes@[id as int].spec_parent() is None,
            final(tree).nodes@[id as int].spec_name() == name@,
            final(tree).nodes@[id as int].spec_full_name() == name@,
            final(tree).nodes@[id as int].spec_children() == Seq::<NodeId>::empty(),
            final(tree).nodes@[id as int].spec_result() is None,
    {
        let id = tree.nodes.len();
        tree.nodes.push(
            TestNode::Parent(
                GenericTestNode {
                    parent: None,
                    name: String::from_str(name),
                    full_name: String::from_str(name),
                    content: ParentNodeContent { children: Vec::new() },
                    result: None,
                },
            ),
        );
        proof {
            lemma_wf_after_attach(old(tree).nodes@, tree.nodes@, None, id);
        }
        id
    }

    /// Add a child node under `parent`, aggregating (`Parent`) or recording
    /// (`Leaf`). A repeated sibling name is an invariant violation and
    /// changes nothing. The child's full name is the parent's own name joined
    /// with the child's by a dot.
    fn new_child(tree: &mut TestTree, parent: NodeId, name: &str, leaf: bool) -> (r: Result<
        NodeId,
        ExecError,
    >)
        requires
            old(tree).wf(),
            parent < old(tree).nodes@.len(),
            old(tree).nodes@[parent as int] is Parent,
        ensures
            final(tree).wf(),
            r matches Err(e) ==> {
                &&& e == ExecError::InvariantViolation
                &&& final(tree).nodes@ == old(tree).nodes@
                &&& exists|j: int|
                    0 <= j < old(tree).nodes@[parent as int].spec_children().len() && old(
                        tree,
                    ).nodes@[(#[trigger] spec_child(old(tree).nodes@, parent as int, j)) as int].spec_name()
                        == name@
            },
            r matches Ok(id) ==> {
                &&& id == old(tree).nodes@.len()
                &&& final(tree).nodes@.len() == old(tree).nodes@.len() + 1
                &&& forall|k: int|
                    0 <= k < old(tree).nodes@.len() && k != parent ==> final(tree).nodes@[k] == old(
                        tree,
                    ).nodes@[k]
                &&& final(tree).nodes@[parent as int].spec_children() == old(
                    tree,
                ).nodes@[parent as int].spec_children().push(id)
                &&& final(tree).nodes@[parent as int].spec_result() == old(
                    tree,
                ).nodes@[parent as int].spec_result()
                &&& final(tree).nodes@[parent as int].spec_name() == old(
                    tree,
                ).nodes@[parent as int].spec_name()
                &&& final(tree).nodes@[parent as int].spec_parent() == old(
                    tree,
                ).nodes@[parent as int].spec_parent()
                &&& (final(tree).nodes@[id as int] is Leaf) == leaf
                &&& final(tree).nodes@[id as int].spec_parent() == Some(parent)
                &&& final(tree).nodes@[id as int].spec_name() == name@
                &&& final(tree).nodes@[id as int].spec_full_name() == old(
                    tree,
                ).nodes@[parent as int].spec_name() + "."@ + name@
                &&& final(tree).nodes@[id as int].spec_children() == Seq::<NodeId>::empty()
                &&& final(tree).nodes@[id as int].spec_result() is None
            },
    {
        let name_string = String::from_str(name);
        if let Some(j) = tree.find_child(parent, &name_string) {
            proof {
                assert(tree.nodes@[(spec_child(tree.nodes@, parent as int, j as int)) as int].spec_name()
                    == name@);
            }
            return Err(ExecError::InvariantViolation);
        }
        let id = tree.nodes.len();
        let mut full_name = tree.node_name(parent).clone();
        full_name.append(".");
        full_name.append(name);
        let child = if leaf {
            TestNode::Leaf(
                GenericTestNode {
                    parent: Some(parent),
                    name: name_string,
                    full_name,
                    content: (),
                    result: None,
                },
            )
        } else {
            TestNode::Parent(
                GenericTestNode {
                    parent: Some(parent),
                    name: name_string,
                    full_name,
                    content: ParentNodeContent { children: Vec::new() },
                    result: None,
                },
            )
        };
        tree.nodes.push(child);
        let parent_node = tree.nodes.remove(parent);
        match parent_node {
            TestNode::Parent(mut p) => {
                p.content.children.push(id);
                tree.nodes.insert(parent, TestNode::Parent(p));
            },
            TestNode::Leaf(l) => {
                proof {
                    assert(false);
                }
                tree.nodes.insert(parent, TestNode::Leaf(l));
            },
        }
        proof {
            assert(tree.nodes@.len() == old(tree).nodes@.len() + 1);
            assert forall|k: int|
                0 <= k < old(tree).nodes@.len() && k != parent implies tree.nodes@[k] == old(
                tree,
            ).nodes@[k] by {
            };
            lemma_wf_after_attach(old(tree).nodes@, tree.nodes@, Some(parent), id);
        }
        Ok(id)
    }

    /// Add an aggregating child under `parent`. A repeated sibling name is an
    /// invariant violation and changes nothing.
    pub fn new_child_parent(tree: &mut TestTree, parent: NodeId, name: &str) -> (r: Result<
        NodeId,
        ExecError,
    >)
        requires
            old(tree).wf(),
            parent < old(tree).nodes@.len(),
            old(tree).nodes@[parent as int] is Parent,
        ensures
            final(tree).wf(),
            r matches Err(e) ==> {
                &&& e == ExecError::InvariantViolation
                &&& final(tree).nodes@ == old(tree).nodes@
                &&& exists|j: int|
                    0 <= j < old(tree).nodes@[parent as int].spec_children().len() && old(
                        tree,
                    ).nodes@[(#[trigger] spec_child(old(tree).nodes@, parent as int, j)) as int].spec_name()
                        == name@
            },
            r matches Ok(id) ==> {
                &&& id == old(tree).nodes@.len()
                &&& final(tree).nodes@.len() == old(tree).nodes@.len() + 1
                &&& final(tree).nodes@[id as int] is Parent
                &&& final(tree).nodes@[id as int].spec_parent() == Some(parent)
                &&& final(tree).nodes@[id as int].spec_name() == name@
                &&& final(tree).nodes@[id as int].spec_full_name() == old(
                    tree,
                ).nodes@[parent as int].spec_name() + "."@ + name@
                &&& final(tree).nodes@[id as int].spec_result() is None
                &&& final(tree).nodes@[id as int].spec_children() == Seq::<NodeId>::empty()
                &&& final(tree).nodes@[parent as int].spec_children() == old(
                    tree,
                ).nodes@[parent as int].spec_children().push(id)
                &&& forall|k: int|
                    0 <= k < old(tree).nodes@.len() && k != parent ==> final(tree).nodes@[k] == old(
                        tree,
                    ).nodes@[k]
            },
    {
        Self::new_child(tree, parent, name, false)
    }

    /// Add a recording child under `parent`. A repeated sibling name is an
    /// invariant violation and changes nothing.
    pub fn new_child_leaf(tree: &mut TestTree, parent: NodeId, name: &str) -> (r: Result<
        NodeId,
        ExecError,
    >)
        requires
            old(tree).wf(),
            parent < old(tree).nodes@.len(),
            old(tree).nodes@[parent as int] is Parent,
        ensures
            final(tree).wf(),
            r matches Err(e) ==> {
                &&& e == ExecError::InvariantViolation
                &&& final(tree).nodes@ == old(tree).nodes@
                &&& exists|j: int|
                    0 <= j < old(tree).nodes@[parent as int].spec_children().len() && old(
                        tree,
                    ).nodes@[(#[trigger] spec_child(old(tree).nodes@, parent as int, j)) as int].spec_name()
                        == name@
            },
            r matches Ok(id) ==> {
                &&& id == old(tree).nodes@.len()
                &&& final(tree).nodes@.len() == old(tree).nodes@.len() + 1
                &&& final(tree).nodes@[id as int] is Leaf
                &&& final(tree).nodes@[id as int].spec_parent() == Some(parent)
                &&& final(tree).nodes@[id as int].spec_name() == name@
                &&& final(tree).nodes@[id as int].spec_full_name() == old(
                    tree,
                ).nodes@[parent as int].spec_name() + "."@ + name@
                &&& final(tree).nodes@[id as int].spec_result() is None
                &&& final(tree).nodes@[parent as int].spec_children() == old(
                    tree,
                ).nodes@[parent as int].spec_children().push(id)
                &&& forall|k: int|
                    0 <= k < old(tree).nodes@.len() && k != parent ==> final(tree).nodes@[k] == old(
                        tree,
                    ).nodes@[k]
            },
    {
        Self::new_child(tree, parent, name, true)
    }

    /// The node's aggregate: nothing while any child is pending, a failure
    /// naming exactly the failed children, in name order, once all have
    /// reported, a pass otherwise.
    pub fn get_result(tree: &TestTree, node: NodeId) -> (r: Option<TestResult>)
        requires
            tree.wf(),
            node < tree.nodes@.len(),
            tree.nodes@[node as int] is Parent,
        ensures
            matches_aggregate(
                tree.nodes@,
                tree.nodes@[node as int].spec_children(),
                r,
            ),
    {
        let ghost children = tree.nodes@[node as int].spec_children();
        let count = tree.child_len(node);
        let mut failed: Vec<String> = Vec::new();
        let mut pending: bool = false;
        let mut j: usize = 0;
        proof {
            assert(children.skip(0) =~= children);
            assert(children.take(0) =~= Seq::<NodeId>::empty());
        }
        while j < count
            invariant
                tree.wf(),
                node < tree.nodes@.len(),
                tree.nodes@[node as int] is Parent,
                children == tree.nodes@[node as int].spec_children(),
                count == children.len(),
                j <= count,
                failed.deep_view() == spec_sort_names(
                    spec_failed_names(tree.nodes@, children.take(j as int)),
                ),
                (pending || spec_any_pending(tree.nodes@, children.skip(j as int)))
                    == spec_any_pending(tree.nodes@, children),
            decreases count - j,
        {
            proof {
                assert(children.skip(j as int)[0] == children[j as int]);
                assert(children.skip(j as int).drop_first() =~= children.skip(j + 1));
                assert(children.take(j + 1) =~= children.take(j as int).push(children[j as int]));
            }
            let c = tree.child_at(node, j);
            let ghost before_failed = spec_failed_names(tree.nodes@, children.take(j as int));
            proof {
                lemma_failed_names_snoc(tree.nodes@, children.take(j as int), c);
            }
            match tree.node_result(c) {
                None => {
                    pending = true;
                    proof {
                        assert(spec_failed_names(tree.nodes@, children.take(j + 1))
                            =~= before_failed);
                    }
                },
                Some(Err(_)) => {
                    insert_sorted(&mut failed, tree.node_name(c).clone());
                    proof {
                        let grown = spec_failed_names(tree.nodes@, children.take(j + 1));
                        assert(grown =~= before_failed.push(tree.nodes@[c as int].spec_name()));
                        assert(grown.drop_last() =~= before_failed);
                        assert(failed.deep_view() == spec_sort_names(grown));
                    }
                },
                Some(Ok(_)) => {
                    proof {
                        assert(spec_failed_names(tree.nodes@, children.take(j + 1))
                            =~= before_failed);
                    }
                },
            }
            j = j + 1;
        }
        proof {
            assert(children.take(count as int) =~= children);
            assert(children.skip(count as int) =~= Seq::<NodeId>::empty());
            lemma_sort_names_len(spec_failed_names(tree.nodes@, children));
        }
        if pending {
            None
        } else if failed.len() > 0 {
            proof {
                assert(failed.deep_view().len() == failed@.len());
            }
            Some(Err(TestError::ChildFailedError(failed)))
        } else {
            Some(Ok(()))
        }
    }

    /// Record a child's result by name and propagate fresh aggregates up the
    /// parent chain: a node whose children have all reported carries its own
    /// aggregate once it has a parent to report to. Only results change, and
    /// only on the named child and on the chain of its parent; every node
    /// keeps its identity.
    pub fn update_child(tree: &mut TestTree, node: NodeId, name: &String, new_result: TestResult)
        requires
            old(tree).wf(),
            node < old(tree).nodes@.len(),
            old(tree).nodes@[node as int] is Parent,
            exists|j: int|
                0 <= j < old(tree).nodes@[node as int].spec_children().len() && old(
                    tree,
                ).nodes@[(#[trigger] spec_child(old(tree).nodes@, node as int, j)) as int].spec_name()
                    == name@,
        ensures
            final(tree).wf(),
            final(tree).nodes@.len() == old(tree).nodes@.len(),
            forall|k: int|
                0 <= k < old(tree).nodes@.len() ==> (#[trigger] final(tree).nodes@[k]).same_identity(
                    old(tree).nodes@[k],
                ),
            forall|k: int|
                0 <= k < old(tree).nodes@.len() && final(tree).nodes@[k] != old(tree).nodes@[k]
                    ==> spec_on_chain(old(tree).nodes@, k, node as int) || (old(
                    tree,
                ).nodes@[k].spec_parent() == Some(node) && old(tree).nodes@[k].spec_name()
                    == name@),
            forall|k: int|
                0 <= k < old(tree).nodes@.len() && old(tree).nodes@[k].spec_parent() == Some(node)
                    && (#[trigger] old(tree).nodes@[k].spec_name()) == name@
                    ==> final(tree).nodes@[k].spec_result() == Some(new_result),
            (old(tree).nodes@[node as int].spec_parent() is Some && !spec_any_pending(
                final(tree).nodes@,
                final(tree).nodes@[node as int].spec_children(),
            )) ==> matches_aggregate(
                final(tree).nodes@,
                final(tree).nodes@[node as int].spec_children(),
                final(tree).nodes@[node as int].spec_result(),
            ),
        decreases node,
    {
        let ghost orig = old(tree).nodes@;
        let j = match tree.find_child(node, name) {
            Some(j) => j,
            None => {
                proof {
                    assert(false);
                }
                return ;
            },
        };
        let c = tree.child_at(node, j);
        tree.set_node_result(c, new_result);
        proof {
            assert(orig[c as int].spec_parent() == Some(node));
            lemma_identity_wf(orig, tree.nodes@);
        }
        let aggregate = Self::get_result(tree, node);
        if let Some(result) = aggregate {
            let grandparent = tree.node_parent(node);
            if let Some(g) = grandparent {
                let node_name = tree.node_name(node).clone();
                let ghost mid = tree.nodes@;
                proof {
                    assert(exists|j: int|
                        0 <= j < mid[g as int].spec_children().len() && mid[g as int].spec_children()[j]
                            == node) by {
                        assert(orig[node as int].spec_parent() == Some(g));
                        let j = choose|j: int|
                            0 <= j < orig[g as int].spec_children().len() && orig[
                                g as int
                            ].spec_children()[j] == node;
                        assert(mid[g as int].spec_children() == orig[g as int].spec_children());
                        assert(mid[g as int].spec_children()[j] == node);
                    }
                    assert(exists|j: int|
                        0 <= j < mid[g as int].spec_children().len() && mid[(#[trigger] spec_child(
                            mid,
                            g as int,
                            j,
                        )) as int].spec_name() == node_name@) by {
                        let j = choose|j: int|
                            0 <= j < mid[g as int].spec_children().len() && mid[
                                g as int
                            ].spec_children()[j] == node;
                        assert(spec_child(mid, g as int, j) == node);
                        assert(mid[(spec_child(mid, g as int, j)) as int].spec_name()
                            == node_name@);
                    }
                }
                Self::update_child(tree, g, &node_name, result);
                proof {
                    lemma_chain_after_two_steps(
                        orig,
                        mid,
                        tree.nodes@,
                        node as int,
                        c as int,
                        g as int,
                        name@,
                        node_name@,
                    );
                    // the recursion only reaches nodes before `node`, so the
                    // freshly recorded child result survives it
                    if tree.nodes@[c as int] != mid[c as int] {
                        if spec_on_chain(mid, c as int, g as int) {
                            lemma_chain_descends(mid, c as int, g as int);
                        }
                        assert(mid[c as int] == orig[c as int].with_result(
                            mid[c as int].spec_result(),
                        ));
                        assert(mid[c as int].spec_parent() == Some(node));
                        assert(false);
                    }
                    // the recursion also recorded the node's fresh aggregate
                    // at the node itself, and left the node's children — all
                    // after the node in the arena — untouched, so the
                    // recorded aggregate still matches
                    let children = mid[node as int].spec_children();
                    assert(mid[node as int].spec_name() == node_name@);
                    assert(mid[node as int].spec_parent() == Some(g));
                    assert(tree.nodes@[node as int].spec_result() == Some(result));
                    assert forall|j: int| 0 <= j < children.len() implies {
                        let c2 = #[trigger] children[j];
                        0 <= c2 < mid.len() ==> tree.nodes@[c2 as int].spec_result() == mid[
                            c2 as int
                        ].spec_result() && tree.nodes@[c2 as int].spec_name() == mid[
                            c2 as int
                        ].spec_name()
                    } by {
                        let c2 = children[j];
                        assert(spec_child(mid, node as int, j) == c2);
                        assert(node < c2 < mid.len());
                        if tree.nodes@[c2 as int] != mid[c2 as int] {
                            if spec_on_chain(mid, c2 as int, g as int) {
                                lemma_chain_descends(mid, c2 as int, g as int);
                            }
                            assert(mid[c2 as int].spec_parent() == Some(node as NodeId));
                            assert(false);
                        }
                    };
                    lemma_aggregate_entries_unchanged(mid, tree.nodes@, children);
                    assert(tree.nodes@[node as int].spec_children() == children);
                    assert(matches_aggregate(
                        tree.nodes@,
                        tree.nodes@[node as int].spec_children(),
                        tree.nodes@[node as int].spec_result(),
                    ));
                }
            } else {
                proof {
                    // a root records no aggregate of its own: it has nobody
                    // to report to, and its result is computed on demand
                    assert(orig[node as int].spec_parent() is None);
                }
            }
        } else {
            proof {
                // some child is still pending, so nothing propagates
                assert(spec_any_pending(
                    tree.nodes@,
                    tree.nodes@[node as int].spec_children(),
                ));
            }
        }
        proof {
            assert(tree.nodes@[c as int].spec_result() == Some(new_result));
            assert(orig.len() <= usize::MAX) by {
                assert(vstd::std_specs::vec::spec_vec_len(&old(tree).nodes) == orig.len());
            }
            assert forall|k: int|
                0 <= k < orig.len() && orig[k].spec_parent() == Some(node)
                    && (#[trigger] orig[k].spec_name()) == name@
                    implies tree.nodes@[k].spec_result() == Some(new_result) by {
                lemma_named_child_unique(orig, node as int, k, c as int);
            };
        }
    }
}

/// Two arenas whose nodes agree on identity are both well-formed or neither.
proof fn lemma_identity_wf(nodes1: Seq<TestNode>, nodes2: Seq<TestNode>)
    requires
        wf_nodes(nodes1),
        nodes2.len() == nodes1.len(),
        forall|k: int|
            0 <= k < nodes1.len() ==> (#[trigger] nodes2[k]).same_identity(nodes1[k]),
    ensures
        wf_nodes(nodes2),
        forall|k: int|
            0 <= k < nodes1.len() ==> (#[trigger] nodes2[k]).spec_parent()
                == nodes1[k].spec_parent() && nodes2[k].spec_children() == nodes1[k].spec_children()
                && nodes2[k].spec_name() == nodes1[k].spec_name() && (nodes2[k] is Parent
                == nodes1[k] is Parent),
{
    assert forall|k: int|
        0 <= k < nodes1.len() implies (#[trigger] nodes2[k]).spec_parent()
        == nodes1[k].spec_parent() && nodes2[k].spec_children() == nodes1[k].spec_children()
        && nodes2[k].spec_name() == nodes1[k].spec_name() && (nodes2[k] is Parent == nodes1[k] is Parent) by {
        assert(nodes2[k] == nodes1[k].with_result(nodes2[k].spec_result()));
    };
    assert forall|i: int, j: int, k: int|
        0 <= i < nodes2.len() && 0 <= j < k < nodes2[i].spec_children().len() implies nodes2[(
        #[trigger] spec_child(nodes2, i, j)) as int].spec_name() != nodes2[(#[trigger] spec_child(
            nodes2,
            i,
            k,
        )) as int].spec_name() by {
        assert(spec_child(nodes2, i, j) == spec_child(nodes1, i, j));
        assert(spec_child(nodes2, i, k) == spec_child(nodes1, i, k));
        assert(nodes1[(spec_child(nodes1, i, j)) as int].spec_name() != nodes1[(spec_child(
            nodes1,
            i,
            k,
        )) as int].spec_name());
    };
    assert forall|i: int|
        0 <= i < nodes2.len() implies ((#[trigger] nodes2[i].spec_parent()) matches Some(p) ==> 0
        <= p < nodes2.len() && exists|j: int|
        0 <= j < nodes2[p as int].spec_children().len() && nodes2[p as int].spec_children()[j]
            == i) by {
        match nodes2[i].spec_parent() {
            Some(p) => {
                assert(nodes1[i].spec_parent() == Some(p));
                let j = choose|j: int|
                    0 <= j < nodes1[p as int].spec_children().len() && nodes1[
                        p as int
                    ].spec_children()[j] == i;
                assert(nodes2[p as int].spec_children()[j] == i);
            },
            None => {
            },
        }
    };
}

/// The aggregate reads only its children's names and results: two arenas
/// that agree on those, entry for entry, aggregate alike.
proof fn lemma_aggregate_entries_unchanged(
    nodes1: Seq<TestNode>,
    nodes2: Seq<TestNode>,
    children: Seq<NodeId>,
)
    requires
        nodes2.len() == nodes1.len(),
        forall|j: int|
            0 <= j < children.len() ==> {
                let c = #[trigger] children[j];
                0 <= c < nodes1.len() ==> nodes2[c as int].spec_result() == nodes1[c as int].spec_result()
                    && nodes2[c as int].spec_name() == nodes1[c as int].spec_name()
            },
    ensures
        spec_failed_names(nodes2, children) == spec_failed_names(nodes1, children),
        spec_any_pending(nodes2, children) == spec_any_pending(nodes1, children),
    decreases children.len(),
{
    if children.len() > 0 {
        let c0 = children[0];
        assert(0 <= c0 < nodes1.len() ==> nodes2[c0 as int].spec_result() == nodes1[c0 as int].spec_result()
            && nodes2[c0 as int].spec_name() == nodes1[c0 as int].spec_name());
        assert forall|j: int|
            0 <= j < children.drop_first().len() implies {
            let c = #[trigger] children.drop_first()[j];
            0 <= c < nodes1.len() ==> nodes2[c as int].spec_result() == nodes1[c as int].spec_result()
                && nodes2[c as int].spec_name() == nodes1[c as int].spec_name()
        } by {
            assert(children.drop_first()[j] == children[j + 1]);
        };
        lemma_aggregate_entries_unchanged(nodes1, nodes2, children.drop_first());
    }
}

/// The frame of one propagation step: the named child's change and the
/// recursion's changes both lie on the chain of the updating node, or on the
/// named child itself.
proof fn lemma_chain_after_two_steps(
    orig: Seq<TestNode>,
    mid: Seq<TestNode>,
    fin: Seq<TestNode>,
    node: int,
    c: int,
    g: int,
    child_name: Seq<char>,
    node_name: Seq<char>,
)
    requires
        wf_nodes(orig),
        orig.len() == mid.len(),
        mid.len() == fin.len(),
        0 <= node < orig.len(),
        0 <= c < orig.len(),
        orig[c].spec_parent() == Some(node as NodeId),
        orig[c].spec_name() == child_name,
        c != node,
        0 <= g < orig.len(),
        orig[node].spec_parent() == Some(g as NodeId),
        orig[node].spec_name() == node_name,
        g < node,
        forall|k: int| 0 <= k < orig.len() ==> (#[trigger] mid[k]).same_identity(orig[k]),
        forall|k: int| 0 <= k < orig.len() && mid[k] != orig[k] ==> k == c,
        forall|k: int| 0 <= k < orig.len() ==> (#[trigger] fin[k]).same_identity(mid[k]),
        forall|k: int|
            0 <= k < orig.len() && fin[k] != mid[k] ==> spec_on_chain(mid, k, g) || (mid[
                k
            ].spec_parent() == Some(g as NodeId) && mid[k].spec_name() == node_name),
    ensures
        forall|k: int|
            0 <= k < orig.len() && fin[k] != orig[k] ==> spec_on_chain(orig, k, node) || (orig[
                k
            ].spec_parent() == Some(node as NodeId) && orig[k].spec_name() == child_name),
{
    assert forall|k: int|
        0 <= k < orig.len() implies (#[trigger] mid[k]).spec_parent() == orig[k].spec_parent()
        && mid[k].spec_name() == orig[k].spec_name() && mid[k].spec_children() == orig[
        k
    ].spec_children() by {
        assert(mid[k] == orig[k].with_result(mid[k].spec_result()));
    };
    assert forall|k: int|
        0 <= k < orig.len() && fin[k] != orig[k] implies spec_on_chain(orig, k, node) || (orig[
        k
    ].spec_parent() == Some(node as NodeId) && orig[k].spec_name() == child_name) by {
        if fin[k] != mid[k] {
            if spec_on_chain(mid, k, g) {
                lemma_chain_unchanged(orig, mid, k, g);
                assert(spec_on_chain(orig, k, g));
                assert(spec_on_chain(orig, k, node));
            } else {
                assert(mid[k].spec_parent() == Some(g as NodeId));
                assert(mid[k].spec_name() == node_name);
                assert(orig[k].spec_parent() == Some(g as NodeId));
                assert(orig[k].spec_name() == node_name);
                if k == node {
                    assert(spec_on_chain(orig, k, node));
                } else {
                    // `k` and `node` are both children of `g` carrying the
                    // same name; sibling names never repeat, so they are the
                    // same node.
                    let jk = choose|j: int|
                        0 <= j < orig[g].spec_children().len() && orig[g].spec_children()[j]
                            == k;
                    let jn = choose|j: int|
                        0 <= j < orig[g].spec_children().len() && orig[g].spec_children()[j]
                            == node;
                    assert(0 <= jk < orig[g].spec_children().len());
                    assert(0 <= jn < orig[g].spec_children().len());
                    assert(spec_child(orig, g, jk) as int == k);
                    assert(spec_child(orig, g, jn) as int == node);
                    if jk < jn {
                        assert(orig[(spec_child(orig, g, jk)) as int].spec_name() != orig[(
                        spec_child(orig, g, jn)) as int].spec_name());
                        assert(false);
                    } else if jn < jk {
                        assert(orig[(spec_child(orig, g, jn)) as int].spec_name() != orig[(
                        spec_child(orig, g, jk)) as int].spec_name());
                        assert(false);
                    } else {
                        assert(false);
                    }
                }
            }
        } else {
            assert(mid[k] != orig[k]);
            assert(k == c);
        }
    };
}

impl LeafTestNode {
    /// Record this leaf's outcome and propagate aggregates up the chain:
    /// once the leaf's siblings have all reported, its parent carries the
    /// fresh aggregate. Only results change, and only on the leaf and on its
    /// parent's chain; every node keeps its identity.
    pub fn update(tree: &mut TestTree, leaf: NodeId, result: TestResult)
        requires
            old(tree).wf(),
            leaf < old(tree).nodes@.len(),
            old(tree).nodes@[leaf as int].spec_parent() is Some,
        ensures
            final(tree).wf(),
            final(tree).nodes@.len() == old(tree).nodes@.len(),
            forall|k: int|
                0 <= k < old(tree).nodes@.len() ==> (#[trigger] final(tree).nodes@[k]).same_identity(
                    old(tree).nodes@[k],
                ),
            final(tree).nodes@[leaf as int].spec_result() == Some(result),
            forall|k: int|
                0 <= k < old(tree).nodes@.len() && final(tree).nodes@[k] != old(tree).nodes@[k]
                    ==> spec_on_chain(
                    old(tree).nodes@,
                    k,
                    old(tree).nodes@[leaf as int].spec_parent()->Some_0 as int,
                ) || k == leaf as int,
            ({
                let parent = old(tree).nodes@[leaf as int].spec_parent()->Some_0;
                (old(tree).nodes@[parent as int].spec_parent() is Some && !spec_any_pending(
                    final(tree).nodes@,
                    final(tree).nodes@[parent as int].spec_children(),
                )) ==> matches_aggregate(
                    final(tree).nodes@,
                    final(tree).nodes@[parent as int].spec_children(),
                    final(tree).nodes@[parent as int].spec_result(),
                )
            }),
    {
        let parent = match tree.node_parent(leaf) {
            Some(p) => p,
            None => {
                proof {
                    assert(false);
                }
                return ;
            },
        };
        let name = tree.node_name(leaf).clone();
        proof {
            assert(old(tree).nodes@[leaf as int].spec_parent() == Some(parent));
            let j = choose|j: int|
                0 <= j < old(tree).nodes@[parent as int].spec_children().len() && old(
                    tree,
                ).nodes@[parent as int].spec_children()[j] == leaf as int;
            assert(spec_child(old(tree).nodes@, parent as int, j) == leaf);
            assert(old(tree).nodes@[(spec_child(old(tree).nodes@, parent as int, j)) as int].spec_name()
                == name@);
        }
        ParentTestNode::update_child(tree, parent, &name, result);
        proof {
            assert(old(tree).nodes@[leaf as int].spec_name() == name@);
            assert(old(tree).nodes@.len() <= usize::MAX) by {
                assert(vstd::std_specs::vec::spec_vec_len(&old(tree).nodes)
                    == old(tree).nodes@.len());
            }
            assert forall|k: int|
                0 <= k < old(tree).nodes@.len() && tree.nodes@[k] != old(tree).nodes@[k]
                    implies spec_on_chain(old(tree).nodes@, k, parent as int) || k
                == leaf as int by {
                if !spec_on_chain(old(tree).nodes@, k, parent as int) {
                    // the only changed child of the parent is the leaf: the
                    // name picks it out uniquely among its siblings
                    lemma_named_child_unique(old(tree).nodes@, parent as int, k, leaf as int);
                }
            };
        }
    }
}

/// Strict lexicographic order on names, by character value: the order the
/// name-keyed children collection hands siblings out in.
pub open spec fn lex_lt(a: Seq<char>, b: Seq<char>) -> bool
    decreases a.len(),
{
    if b.len() == 0 {
        false
    } else if a.len() == 0 {
        true
    } else if a[0] != b[0] {
        (a[0] as u32) < (b[0] as u32)
    } else {
        lex_lt(a.drop_first(), b.drop_first())
    }
}

/// A name placed into an already sorted run of names, before the first
/// entry it precedes.
pub open spec fn spec_insert_name(sorted: Seq<Seq<char>>, name: Seq<char>) -> Seq<Seq<char>>
    decreases sorted.len(),
{
    if sorted.len() == 0 {
        seq![name]
    } else if lex_lt(name, sorted[0]) {
        seq![name] + sorted
    } else {
        seq![sorted[0]] + spec_insert_name(sorted.drop_first(), name)
    }
}

/// The names rearranged into lexicographic order, one insertion at a time.
pub open spec fn spec_sort_names(names: Seq<Seq<char>>) -> Seq<Seq<char>>
    decreases names.len(),
{
    if names.len() == 0 {
        Seq::<Seq<char>>::empty()
    } else {
        spec_insert_name(spec_sort_names(names.drop_last()), names.last())
    }
}

/// Sorting keeps every name: the runs have the same length.
proof fn lemma_insert_name_len(sorted: Seq<Seq<char>>, name: Seq<char>)
    ensures
        spec_insert_name(sorted, name).len() == sorted.len() + 1,
    decreases sorted.len(),
{
    if sorted.len() > 0 && !lex_lt(name, sorted[0]) {
        lemma_insert_name_len(sorted.drop_first(), name);
    }
}

/// Sorting keeps every name: the runs have the same length.
proof fn lemma_sort_names_len(names: Seq<Seq<char>>)
    ensures
        spec_sort_names(names).len() == names.len(),
    decreases names.len(),
{
    if names.len() > 0 {
        lemma_sort_names_len(names.drop_last());
        lemma_insert_name_len(spec_sort_names(names.drop_last()), names.last());
    }
}

/// Whether `a` comes strictly before `b` lexicographically.
fn str_lt(a: &str, b: &str) -> (r: bool)
    ensures
        r == lex_lt(a@, b@),
{
    let a_len = a.unicode_len();
    let b_len = b.unicode_len();
    let mut i: usize = 0;
    proof {
        assert(a@.skip(0) =~= a@);
        assert(b@.skip(0) =~= b@);
    }
    while i < a_len && i < b_len
        invariant
            a_len == a@.len(),
            b_len == b@.len(),
            i <= a_len,
            i <= b_len,
            lex_lt(a@.skip(i as int), b@.skip(i as int)) == lex_lt(a@, b@),
        decreases a_len - i,
    {
        proof {
            assert(a@.skip(i as int)[0] == a@[i as int]);
            assert(b@.skip(i as int)[0] == b@[i as int]);
            assert(a@.skip(i as int).drop_first() =~= a@.skip(i + 1));
            assert(b@.skip(i as int).drop_first() =~= b@.skip(i + 1));
        }
        let ca = a.get_char(i);
        let cb = b.get_char(i);
        if ca != cb {
            return (ca as u32) < (cb as u32);
        }
        i = i + 1;
    }
    proof {
        if i >= a_len {
            assert(a@.skip(i as int) =~= Seq::<char>::empty());
        }
        if i >= b_len {
            assert(b@.skip(i as int) =~= Seq::<char>::empty());
        }
    }
    a_len < b_len
}

/// Place a name into a sorted run of names, keeping it sorted.
fn insert_sorted(sorted: &mut Vec<String>, name: String)
    ensures
        final(sorted).deep_view() == spec_insert_name(old(sorted).deep_view(), name@),
{
    let ghost d = sorted.deep_view();
    let mut i: usize = 0;
    proof {
        assert(d.skip(0) =~= d);
        assert(d.take(0) + spec_insert_name(d, name@) =~= spec_insert_name(d, name@));
    }
    while i < sorted.len()
        invariant
            d == old(sorted).deep_view(),
            sorted.deep_view() == d,
            sorted@.len() == d.len(),
            i <= d.len(),
            spec_insert_name(d, name@) =~= d.take(i as int) + spec_insert_name(
                d.skip(i as int),
                name@,
            ),
        decreases sorted.len() - i,
    {
        proof {
            assert(d.skip(i as int)[0] == d[i as int]);
            assert(d.skip(i as int).drop_first() =~= d.skip(i + 1));
            assert(d[i as int] == sorted@[i as int]@);
        }
        if str_lt(name.as_str(), sorted[i].as_str()) {
            proof {
                assert(lex_lt(name@, d.skip(i as int)[0]));
                assert(spec_insert_name(d.skip(i as int), name@) =~= seq![name@] + d.skip(
                    i as int,
                ));
            }
            sorted.insert(i, name);
            proof {
                assert(sorted.deep_view() =~= d.take(i as int) + (seq![name@] + d.skip(i as int)));
            }
            return ;
        }
        proof {
            assert(d.take(i + 1) =~= d.take(i as int).push(d[i as int]));
            assert(d.take(i as int) + (seq![d[i as int]] + spec_insert_name(d.skip(i + 1), name@))
                =~= d.take(i + 1) + spec_insert_name(d.skip(i + 1), name@));
        }
        i = i + 1;
    }
    proof {
        assert(d.skip(d.len() as int) =~= Seq::<Seq<char>>::empty());
        assert(spec_insert_name(Seq::<Seq<char>>::empty(), name@) =~= seq![name@]);
        assert(d.take(d.len() as int) =~= d);
    }
    sorted.push(name);
    proof {
        assert(sorted.deep_view() =~= d + seq![name@]);
    }
}

/// Appending one child extends the failed names by its name exactly when it
/// failed.
proof fn lemma_failed_names_snoc(nodes: Seq<TestNode>, s: Seq<NodeId>, c: NodeId)
    ensures
        spec_failed_names(nodes, s.push(c)) == spec_failed_names(nodes, s) + (if 0 <= c
            < nodes.len() && (nodes[c as int].spec_result() matches Some(Err(_))) {
            seq![nodes[c as int].spec_name()]
        } else {
            Seq::<Seq<char>>::empty()
        }),
    decreases s.len(),
{
    let tail: Seq<Seq<char>> = if 0 <= c < nodes.len() && (nodes[c as int].spec_result() matches Some(
        Err(_),
    )) {
        seq![nodes[c as int].spec_name()]
    } else {
        Seq::<Seq<char>>::empty()
    };
    if s.len() == 0 {
        assert(s.push(c)[0] == c);
        assert(s.push(c).drop_first() =~= Seq::<NodeId>::empty());
        assert(spec_failed_names(nodes, Seq::<NodeId>::empty()) =~= Seq::<Seq<char>>::empty());
        assert(spec_failed_names(nodes, s.push(c)) =~= tail);
        assert(spec_failed_names(nodes, s) + tail =~= tail);
    } else {
        assert(s.push(c)[0] == s[0]);
        assert(s.push(c).drop_first() =~= s.drop_first().push(c));
        lemma_failed_names_snoc(nodes, s.drop_first(), c);
        if 0 <= s[0] < nodes.len() && (nodes[s[0] as int].spec_result() matches Some(Err(_))) {
            assert(seq![nodes[s[0] as int].spec_name()] + (spec_failed_names(nodes, s.drop_first())
                + tail) =~= (seq![nodes[s[0] as int].spec_name()] + spec_failed_names(
                nodes,
                s.drop_first(),
            )) + tail);
        }
        assert(spec_failed_names(nodes, s.push(c)) =~= spec_failed_names(nodes, s) + tail);
    }
}

/// Names of the children whose result is a failure, in child order.
pub open spec fn spec_failed_names(nodes: Seq<TestNode>, children: Seq<NodeId>) -> Seq<Seq<char>>
    decreases children.len(),
{
    if children.len() == 0 {
        Seq::<Seq<char>>::empty()
    } else {
        let rest = spec_failed_names(nodes, children.drop_first());
        if 0 <= children[0] < nodes.len() && (nodes[children[0] as int].spec_result() matches Some(
            Err(_),
        )) {
            seq![nodes[children[0] as int].spec_name()] + rest
        } else {
            rest
        }
    }
}

/// Whether any child has not reported yet.
pub open spec fn spec_any_pending(nodes: Seq<TestNode>, children: Seq<NodeId>) -> bool
    decreases children.len(),
{
    if children.len() == 0 {
        false
    } else {
        (0 <= children[0] < nodes.len() && nodes[children[0] as int].spec_result() is None)
            || spec_any_pending(nodes, children.drop_first())
    }
}

/// Whether `r` is the aggregate of a parent's children: nothing while any
/// child is pending; a failure naming exactly the failed children, in name
/// order, if there are any; a pass otherwise.
pub open spec fn matches_aggregate(
    nodes: Seq<TestNode>,
    children: Seq<NodeId>,
    r: Option<TestResult>,
) -> bool {
    if spec_any_pending(nodes, children) {
        r is None
    } else {
        let failed = spec_failed_names(nodes, children);
        if failed.len() > 0 {
            r matches Some(Err(TestError::ChildFailedError(names))) && names.deep_view()
                == spec_sort_names(failed)
        } else {
            r == Some(Ok::<(), TestError>(()))
        }
    }
}

} // verus!
