//! A graph of the parallel structure of a function body, and its Graphviz
//! text.

use vstd::prelude::*;

use crate::ir::ast::{Expr, Stmt, SyncPointKind};
use crate::utils::name::{lemma_names_view_push, names_view, Name, NameView};
use crate::utils::text::{join, push_joined};
use crate::ir::graph_view::{
    group_graph_views, node_view, nodes_view, SpecGraphNode,
};

verus! {

broadcast use group_graph_views;

/// How the iterations of a loop node run: one after another, or in parallel
/// within a block, a cluster of blocks, or across blocks.
#[derive(Clone, Copy, Debug, PartialEq, Eq, Structural)]
pub enum NodeKind {
    Sequential,
    BlockLocal,
    ClusterLocal,
    InterBlock,
}

/// A node of the graph of the parallel structure of a function body.
#[derive(Debug, PartialEq, Eq)]
pub enum GraphNode {
    Root { label: Name, children: Vec<GraphNode> },
    Container { label: Name, kind: NodeKind, children: Vec<GraphNode> },
    ExtCall { label: Name },
    Leaf { label: Name },
}

/// The node kind of a loop that ends in a synchronization point of the
/// given kind.
pub open spec fn spec_node_kind(kind: SyncPointKind) -> NodeKind {
    match kind {
        SyncPointKind::BlockLocal => NodeKind::BlockLocal,
        SyncPointKind::BlockCluster => NodeKind::ClusterLocal,
        SyncPointKind::InterBlock => NodeKind::InterBlock,
    }
}

impl NodeKind {
    fn from_sync_point_kind(kind: &SyncPointKind) -> (r: NodeKind)
        ensures
            r == spec_node_kind(*kind),
    {
        match kind {
            SyncPointKind::BlockLocal => NodeKind::BlockLocal,
            SyncPointKind::BlockCluster => NodeKind::ClusterLocal,
            SyncPointKind::InterBlock => NodeKind::InterBlock,
        }
    }
}

/// A label that the graph builder makes: the given text, numbered.
pub open spec fn fresh_label(sym: Seq<char>, n: nat) -> NameView {
    NameView { sym, id: Some(n as u64) }
}

/// The name of the external call that the three statements make, when they
/// are a call or a Python callback between two inter-block synchronization
/// points.
pub open spec fn ext_call_label(a: Stmt, b: Stmt, c: Stmt) -> Option<NameView> {
    match (a, b, c) {
        (
            Stmt::SyncPoint { kind: SyncPointKind::InterBlock, .. },
            Stmt::Expr { e: Expr::Call { id, .. }, .. },
            Stmt::SyncPoint { kind: SyncPointKind::InterBlock, .. },
        ) => Some(id@),
        (
            Stmt::SyncPoint { kind: SyncPointKind::InterBlock, .. },
            Stmt::Expr { e: Expr::PyCallback { id, .. }, .. },
            Stmt::SyncPoint { kind: SyncPointKind::InterBlock, .. },
        ) => Some(id@),
        _ => None,
    }
}

/// The node for a statement that neither ends an external call nor is a
/// loop followed by a synchronization point, and the next free label
/// number.
pub open spec fn graph_node_of(s: Stmt, next: nat) -> (SpecGraphNode, nat)
    decreases s,
{
    match s {
        Stmt::For { var, body, .. } => {
            let (children, n) = graph_nodes(Seq::empty(), body@, next);
            (SpecGraphNode::Container { label: var@, kind: NodeKind::Sequential, children }, n)
        },
        Stmt::While { body, .. } => {
            let (children, n) = graph_nodes(Seq::empty(), body@, next + 1);
            (
                SpecGraphNode::Container {
                    label: fresh_label("while"@, next),
                    kind: NodeKind::Sequential,
                    children,
                },
                n,
            )
        },
        Stmt::If { thn, els, .. } => {
            let (c1, n) = graph_nodes(Seq::empty(), thn@, next + 1);
            let (c2, n2) = graph_nodes(c1, els@, n);
            (
                SpecGraphNode::Container {
                    label: fresh_label("if"@, next),
                    kind: NodeKind::Sequential,
                    children: c2,
                },
                n2,
            )
        },
        _ => (SpecGraphNode::Leaf { label: fresh_label("stmt"@, next) }, next + 1),
    }
}

/// The nodes for the statements `rest`, appended to `acc`, and the next
/// free label number, when labels are numbered from `next` on.
///
/// A call between two inter-block synchronization points is an external
/// call node. A `for` loop followed by a synchronization point is a parallel
/// node of the kind of that point; the statements that the builder then
/// goes on with are those of the loop's body from its third one on. Any
/// other `for` loop, and every `while` loop and `if`, is a sequential node
/// whose children are the nodes of its body (for an `if`, of its two
/// branches in turn); any other statement is a leaf.
pub open spec fn graph_nodes(acc: Seq<SpecGraphNode>, rest: Seq<Stmt>, next: nat) -> (Seq<
    SpecGraphNode,
>, nat)
    decreases rest,
{
    if rest.len() >= 3 && ext_call_label(rest[0], rest[1], rest[2]) is Some {
        let acc2 = acc.push(
            SpecGraphNode::ExtCall { label: ext_call_label(rest[0], rest[1], rest[2])->0 },
        );
        if rest.len() > 3 {
            graph_nodes(acc2, rest.skip(3), next)
        } else {
            (acc2, next)
        }
    } else if rest.len() >= 2 && rest[0] is For && rest[1] is SyncPoint {
        let inner = rest[0]->For_body@;
        proof {
            assert(decreases_to!(rest => rest[0]));
        }
        let (children, n1) = graph_nodes(Seq::empty(), inner, next);
        let acc2 = acc.push(
            SpecGraphNode::Container {
                label: rest[0]->For_var@,
                kind: spec_node_kind(rest[1]->SyncPoint_kind),
                children,
            },
        );
        if inner.len() > 2 {
            graph_nodes(acc2, inner.skip(2), n1)
        } else {
            (acc2, n1)
        }
    } else if rest.len() > 0 {
        proof {
            assert(decreases_to!(rest => rest[0]));
        }
        let (node, n1) = graph_node_of(rest[0], next);
        graph_nodes(acc.push(node), rest.skip(1), n1)
    } else {
        (acc, next)
    }
}

/// The graph of a function body: a root node, numbered 0, whose children are
/// the nodes of the body, with the labels that the builder makes numbered
/// from 1 on.
pub open spec fn spec_make_graph(body: Seq<Stmt>) -> SpecGraphNode {
    SpecGraphNode::Root {
        label: fresh_label("root"@, 0),
        children: graph_nodes(Seq::empty(), body, 1).0,
    }
}

/// The number that follows the last label that the graph of `body` uses.
pub open spec fn labels_used(body: Seq<Stmt>) -> nat {
    graph_nodes(Seq::empty(), body, 1).1
}

/// The builder never goes back in its numbering.
pub proof fn lemma_graph_nodes_next(acc: Seq<SpecGraphNode>, rest: Seq<Stmt>, next: nat)
    ensures
        graph_nodes(acc, rest, next).1 >= next,
    decreases rest,
{
    if rest.len() >= 3 && ext_call_label(rest[0], rest[1], rest[2]) is Some {
        let acc2 = acc.push(
            SpecGraphNode::ExtCall { label: ext_call_label(rest[0], rest[1], rest[2])->0 },
        );
        if rest.len() > 3 {
            lemma_graph_nodes_next(acc2, rest.skip(3), next);
        }
    } else if rest.len() >= 2 && rest[0] is For && rest[1] is SyncPoint {
        let inner = rest[0]->For_body@;
        assert(decreases_to!(rest => rest[0]));
        lemma_graph_nodes_next(Seq::empty(), inner, next);
        let (children, n1) = graph_nodes(Seq::empty(), inner, next);
        let acc2 = acc.push(
            SpecGraphNode::Container {
                label: rest[0]->For_var@,
                kind: spec_node_kind(rest[1]->SyncPoint_kind),
                children,
            },
        );
        if inner.len() > 2 {
            lemma_graph_nodes_next(acc2, inner.skip(2), n1);
        }
    } else if rest.len() > 0 {
        assert(decreases_to!(rest => rest[0]));
        lemma_graph_node_of_next(rest[0], next);
        let (node, n1) = graph_node_of(rest[0], next);
        lemma_graph_nodes_next(acc.push(node), rest.skip(1), n1);
    }
}

/// The node for a statement uses no numbers below `next`; a `while`, an
/// `if` and a leaf use at least `next` itself.
pub proof fn lemma_graph_node_of_next(s: Stmt, next: nat)
    ensures
        graph_node_of(s, next).1 >= next,
        !(s is For) ==> graph_node_of(s, next).1 >= next + 1,
        s is If ==> graph_node_of(s, next).1 >= graph_nodes(Seq::empty(), s->If_thn@, next + 1).1,
    decreases s,
{
    match s {
        Stmt::For { body, .. } => {
            lemma_graph_nodes_next(Seq::empty(), body@, next);
        },
        Stmt::While { body, .. } => {
            lemma_graph_nodes_next(Seq::empty(), body@, next + 1);
        },
        Stmt::If { thn, els, .. } => {
            lemma_graph_nodes_next(Seq::empty(), thn@, next + 1);
            let (c1, n) = graph_nodes(Seq::empty(), thn@, next + 1);
            lemma_graph_nodes_next(c1, els@, n);
        },
        _ => {},
    }
}

fn make_graph_repr_helper(acc: Vec<GraphNode>, body: &Vec<Stmt>, start: usize, next: u64) -> (r: (
    Vec<GraphNode>,
    u64,
))
    requires
        start <= body.len(),
        graph_nodes(nodes_view(acc@), body@.skip(start as int), next as nat).1 <= u64::MAX,
    ensures
        (nodes_view(r.0@), r.1 as nat) == graph_nodes(
            nodes_view(acc@),
            body@.skip(start as int),
            next as nat,
        ),
    decreases body, body.len() - start,
{
    let ghost rest = body@.skip(start as int);
    let ghost accv = nodes_view(acc@);
    let mut acc = acc;
    let len = body.len() - start;
    proof {
        lemma_graph_nodes_next(accv, rest, next as nat);
    }
    if len >= 3 {
        let ext: Option<&Name> = match (&body[start], &body[start + 1], &body[start + 2]) {
            (
                Stmt::SyncPoint { kind: SyncPointKind::InterBlock, .. },
                Stmt::Expr { e: Expr::Call { id, .. }, .. },
                Stmt::SyncPoint { kind: SyncPointKind::InterBlock, .. },
            ) => Some(id),
            (
                Stmt::SyncPoint { kind: SyncPointKind::InterBlock, .. },
                Stmt::Expr { e: Expr::PyCallback { id, .. }, .. },
                Stmt::SyncPoint { kind: SyncPointKind::InterBlock, .. },
            ) => Some(id),
            _ => None,
        };
        assert(rest[0] == body@[start as int] && rest[1] == body@[start + 1] && rest[2] == body@[start + 2]);
        if let Some(id) = ext {
            acc.push(GraphNode::ExtCall { label: id.clone() });
            return if len > 3 {
                assert(rest.skip(3) =~= body@.skip(start + 3));
                make_graph_repr_helper(acc, body, start + 3, next)
            } else {
                (acc, next)
            };
        }
    }
    if len >= 2 {
        assert(rest[0] == body@[start as int] && rest[1] == body@[start + 1]);
        if let Stmt::For { var, body: inner, .. } = &body[start] {
            if let Stmt::SyncPoint { kind, .. } = &body[start + 1] {
                proof {
                    assert(decreases_to!(body => body@));
                    assert(decreases_to!(body@ => body@[start as int]));
                    assert(inner@.skip(0) =~= inner@);
                    lemma_graph_nodes_next(Seq::empty(), inner@, next as nat);
                    let (ch, n1s) = graph_nodes(Seq::empty(), inner@, next as nat);
                    let acc2 = accv.push(
                        SpecGraphNode::Container {
                            label: var@,
                            kind: spec_node_kind(*kind),
                            children: ch,
                        },
                    );
                    lemma_graph_nodes_next(acc2, inner@.skip(2), n1s);
                }
                let (children, n1) = make_graph_repr_helper(Vec::new(), inner, 0, next);
                let kind = NodeKind::from_sync_point_kind(kind);
                acc.push(GraphNode::Container { label: var.clone(), kind, children });
                return if inner.len() > 2 {
                    make_graph_repr_helper(acc, inner, 2, n1)
                } else {
                    (acc, n1)
                };
            }
        }
    }
    if len > 0 {
        assert(rest[0] == body@[start as int]);
        assert(rest.skip(1) =~= body@.skip(start + 1));
        proof {
            assert(decreases_to!(body => body@));
            assert(decreases_to!(body@ => body@[start as int]));
            lemma_graph_node_of_next(rest[0], next as nat);
            let (node_s, n1s) = graph_node_of(rest[0], next as nat);
            lemma_graph_nodes_next(accv.push(node_s), rest.skip(1), n1s);
        }
        let (node, n1) = match &body[start] {
            Stmt::For { var, body: inner, .. } => {
                assert(inner@.skip(0) =~= inner@);
                let (children, n) = make_graph_repr_helper(Vec::new(), inner, 0, next);
                (GraphNode::Container { label: var.clone(), kind: NodeKind::Sequential, children }, n)
            },
            Stmt::While { body: inner, .. } => {
                let label = Name::sym_str("while", next);
                assert(inner@.skip(0) =~= inner@);
                let (children, n) = make_graph_repr_helper(Vec::new(), inner, 0, next + 1);
                (GraphNode::Container { label, kind: NodeKind::Sequential, children }, n)
            },
            Stmt::If { thn, els, .. } => {
                let label = Name::sym_str("if", next);
                assert(thn@.skip(0) =~= thn@);
                assert(els@.skip(0) =~= els@);
                let (children, n) = make_graph_repr_helper(Vec::new(), thn, 0, next + 1);
                let (children, n) = make_graph_repr_helper(children, els, 0, n);
                (GraphNode::Container { label, kind: NodeKind::Sequential, children }, n)
            },
            _ => (GraphNode::Leaf { label: Name::sym_str("stmt", next) }, next + 1),
        };
        acc.push(node);
        make_graph_repr_helper(acc, body, start + 1, n1)
    } else {
        (acc, next)
    }
}

/// The graph of the parallel structure of a function body.
pub fn make_graph(body: &Vec<Stmt>) -> (r: GraphNode)
    requires
        labels_used(body@) <= u64::MAX,
    ensures
        r@ == spec_make_graph(body@),
{
    assert(body@.skip(0) =~= body@);
    assert(nodes_view(Seq::<GraphNode>::empty()) =~= Seq::<SpecGraphNode>::empty());
    let label = Name::sym_str("root", 0);
    let (children, _) = make_graph_repr_helper(Vec::new(), body, 0, 1);
    GraphNode::Root { label, children }
}

// ---------------------------------------------------------------------------
// Nodes by kind, edges, and the Graphviz text.

/// The classes of nodes that the Graphviz text styles apart.
pub enum NodeClass {
    Root,
    InterBlock,
    BlockLocal,
    ClusterLocal,
    External,
}

pub open spec fn class_of(n: SpecGraphNode) -> Option<NodeClass> {
    match n {
        SpecGraphNode::Root { .. } => Some(NodeClass::Root),
        SpecGraphNode::Container { kind, .. } => match kind {
            NodeKind::Sequential => None,
            NodeKind::BlockLocal => Some(NodeClass::BlockLocal),
            NodeKind::ClusterLocal => Some(NodeClass::ClusterLocal),
            NodeKind::InterBlock => Some(NodeClass::InterBlock),
        },
        SpecGraphNode::ExtCall { .. } => Some(NodeClass::External),
        SpecGraphNode::Leaf { .. } => None,
    }
}

/// The labels of the nodes of class `c` in the tree `n`, in preorder.
pub open spec fn class_labels(n: SpecGraphNode, c: NodeClass) -> Seq<NameView>
    decreases n,
{
    let own = if class_of(n) == Some(c) {
        seq![n.label()]
    } else {
        Seq::empty()
    };
    match n {
        SpecGraphNode::Root { children, .. } => own + forest_class_labels(children, c),
        SpecGraphNode::Container { children, .. } => own + forest_class_labels(children, c),
        _ => own,
    }
}

pub open spec fn forest_class_labels(ns: Seq<SpecGraphNode>, c: NodeClass) -> Seq<NameView>
    decreases ns,
{
    if ns.len() == 0 {
        Seq::empty()
    } else {
        forest_class_labels(ns.drop_last(), c) + class_labels(ns.last(), c)
    }
}

/// The edges of the tree `n`: for each node with children, an edge from it
/// to each child in order, then the edges of each child's tree in turn.
pub open spec fn node_edges(n: SpecGraphNode) -> Seq<(NameView, NameView)>
    decreases n,
{
    match n {
        SpecGraphNode::Root { label, children } => children.map_values(
            |c: SpecGraphNode| (label, c.label()),
        ) + forest_edges(children),
        SpecGraphNode::Container { label, children, .. } => children.map_values(
            |c: SpecGraphNode| (label, c.label()),
        ) + forest_edges(children),
        _ => Seq::empty(),
    }
}

pub open spec fn forest_edges(ns: Seq<SpecGraphNode>) -> Seq<(NameView, NameView)>
    decreases ns,
{
    if ns.len() == 0 {
        Seq::empty()
    } else {
        forest_edges(ns.drop_last()) + node_edges(ns.last())
    }
}

/// The number of nodes of the tree `n`.
pub open spec fn node_count(n: SpecGraphNode) -> nat
    decreases n,
{
    match n {
        SpecGraphNode::Root { children, .. } => 1 + forest_count(children),
        SpecGraphNode::Container { children, .. } => 1 + forest_count(children),
        _ => 1,
    }
}

pub open spec fn forest_count(ns: Seq<SpecGraphNode>) -> nat
    decreases ns,
{
    if ns.len() == 0 {
        0
    } else {
        forest_count(ns.drop_last()) + node_count(ns.last())
    }
}

/// Names as Graphviz node identifiers, separated by spaces.
pub open spec fn names_text(ns: Seq<NameView>) -> Seq<char> {
    join(ns.map_values(|n: NameView| n.text()), " "@)
}

pub open spec fn edge_text(e: (NameView, NameView)) -> Seq<char> {
    "  "@ + e.0.text() + " -> "@ + e.1.text() + ";"@
}

/// Edges as Graphviz edge statements, one per line.
pub open spec fn edges_text(es: Seq<(NameView, NameView)>) -> Seq<char> {
    join(es.map_values(|e: (NameView, NameView)| edge_text(e)), "\n"@)
}

/// The Graphviz text of a graph: one styled node statement for each class
/// of nodes, a default style, and the edges.
pub open spec fn graphviz_text(n: SpecGraphNode) -> Seq<char> {
    "digraph G {\n  node [color=black, style=filled] "@ + names_text(
        class_labels(n, NodeClass::Root),
    ) + "; // root node\n  node [style=dashed] "@ + names_text(
        class_labels(n, NodeClass::InterBlock),
    ) + "; // inter-block parallel nodes\n  node [style=bold] "@ + names_text(
        class_labels(n, NodeClass::BlockLocal),
    ) + "; // block-local parallel nodes\n  node [style=dotted] "@ + names_text(
        class_labels(n, NodeClass::ClusterLocal),
    ) + "; // cluster-local parallel nodes\n  node [shape=diamond, style=\"\"] "@ + names_text(
        class_labels(n, NodeClass::External),
    ) + "; // external call nodes\n  node [shape=circle, style=\"\"]; // default nodes\n"@
        + edges_text(node_edges(n)) + "\n}"@
}

impl GraphNode {
    /// The label of the node.
    pub fn get_node_id(&self) -> (r: Name)
        ensures
            r@ == self@.label(),
    {
        match self {
            GraphNode::Root { label, .. } => label,
            GraphNode::Container { label, .. } => label,
            GraphNode::ExtCall { label } => label,
            GraphNode::Leaf { label } => label,
        }.clone()
    }
}

fn clone_nodes(ns: &Vec<GraphNode>) -> (r: Vec<GraphNode>)
    ensures
        nodes_view(r@) == nodes_view(ns@),
    decreases ns,
{
    let mut out: Vec<GraphNode> = Vec::new();
    for k in 0..ns.len()
        invariant
            out@.len() == k,
            forall|j: int| 0 <= j < k ==> node_view(#[trigger] out@[j]) == node_view(ns@[j]),
    {
        proof {
            assert(decreases_to!(ns => ns@));
            assert(decreases_to!(ns@ => ns@[k as int]));
        }
        out.push(ns[k].clone());
    }
    assert(nodes_view(out@) =~= nodes_view(ns@));
    out
}

impl Clone for GraphNode {
    fn clone(&self) -> (r: GraphNode)
        ensures
            r@ == self@,
        decreases self,
    {
        match self {
            GraphNode::Root { label, children } => {
                proof {
                    assert(decreases_to!(*self => self->Root_children));
                }
                GraphNode::Root { label: label.clone(), children: clone_nodes(children) }
            },
            GraphNode::Container { label, kind, children } => {
                proof {
                    assert(decreases_to!(*self => self->Container_children));
                }
                GraphNode::Container { label: label.clone(), kind: *kind, children: clone_nodes(children) }
            },
            GraphNode::ExtCall { label } => GraphNode::ExtCall { label: label.clone() },
            GraphNode::Leaf { label } => GraphNode::Leaf { label: label.clone() },
        }
    }
}

struct Edge {
    src: Name,
    dst: Name,
}

impl Edge {
    spec fn view(self) -> (NameView, NameView) {
        (self.src@, self.dst@)
    }

    fn new(src: Name, dst: Name) -> (r: Edge)
        ensures
            r.view() == (src@, dst@),
    {
        Edge { src, dst }
    }

    fn pprint(&self) -> (r: String)
        ensures
            r@ == edge_text(self.view()),
    {
        let mut s = String::from_str("  ");
        s.append(self.src.pprint().as_str());
        s.append(" -> ");
        s.append(self.dst.pprint().as_str());
        s.append(";");
        s
    }
}

spec fn edges_view(es: Seq<Edge>) -> Seq<(NameView, NameView)> {
    es.map_values(|e: Edge| e.view())
}

fn mk_edges(src: &Name, children: &Vec<GraphNode>) -> (r: Vec<Edge>)
    ensures
        edges_view(r@) == nodes_view(children@).map_values(
            |c: SpecGraphNode| (src@, c.label()),
        ),
{
    let mut out: Vec<Edge> = Vec::new();
    for k in 0..children.len()
        invariant
            out@.len() == k,
            forall|j: int|
                0 <= j < k ==> (#[trigger] out@[j]).view() == (src@, nodes_view(children@)[j].label()),
    {
        let dst = children[k].get_node_id();
        assert(nodes_view(children@)[k as int] == node_view(children@[k as int]));
        out.push(Edge::new(src.clone(), dst));
    }
    assert(edges_view(out@) =~= nodes_view(children@).map_values(
        |c: SpecGraphNode| (src@, c.label()),
    ));
    out
}

struct NodeTypes {
    pub root: Vec<Name>,
    pub inter_block: Vec<Name>,
    pub block_local: Vec<Name>,
    pub cluster_local: Vec<Name>,
    pub external: Vec<Name>,
}

impl NodeTypes {
    pub closed spec fn list(self, c: NodeClass) -> Seq<NameView> {
        match c {
            NodeClass::Root => names_view(self.root@),
            NodeClass::InterBlock => names_view(self.inter_block@),
            NodeClass::BlockLocal => names_view(self.block_local@),
            NodeClass::ClusterLocal => names_view(self.cluster_local@),
            NodeClass::External => names_view(self.external@),
        }
    }
}

impl Default for NodeTypes {
    fn default() -> (r: NodeTypes)
        ensures
            forall|c: NodeClass| #[trigger] r.list(c) == Seq::<NameView>::empty(),
    {
        let r = NodeTypes {
            root: Vec::new(),
            inter_block: Vec::new(),
            block_local: Vec::new(),
            cluster_local: Vec::new(),
            external: Vec::new(),
        };
        assert forall|c: NodeClass| #[trigger] r.list(c) == Seq::<NameView>::empty() by {
            assert(r.list(c) =~= Seq::<NameView>::empty());
        }
        r
    }
}

/// The labels of the nodes of each class in the trees `children`, in
/// preorder, appended to those in `nt`.
fn collect_forest_node_types(nt: NodeTypes, children: &Vec<GraphNode>) -> (r: NodeTypes)
    ensures
        forall|c: NodeClass| #[trigger] r.list(c) == nt.list(c) + forest_class_labels(
            nodes_view(children@),
            c,
        ),
    decreases children,
{
    let ghost start = nt;
    let ghost cv = nodes_view(children@);
    let mut nt = nt;
    for k in 0..children.len()
        invariant
            cv == nodes_view(children@),
            forall|c: NodeClass| #[trigger] nt.list(c) == start.list(c) + forest_class_labels(
                cv.take(k as int),
                c,
            ),
    {
        proof {
            assert(decreases_to!(children => children@));
            assert(decreases_to!(children@ => children@[k as int]));
        }
        nt = collect_node_types(nt, &children[k]);
        proof {
            assert(cv[k as int] == node_view(children@[k as int]));
            assert(cv.take(k + 1).drop_last() =~= cv.take(k as int));
            assert forall|c: NodeClass| #[trigger] nt.list(c) == start.list(c) + forest_class_labels(
                cv.take(k + 1),
                c,
            ) by {
                assert(start.list(c) + forest_class_labels(cv.take(k as int), c) + class_labels(cv[k as int], c)
                    =~= start.list(c) + forest_class_labels(cv.take(k + 1), c));
            }
        }
    }
    assert(cv.take(children.len() as int) =~= cv);
    nt
}

/// The labels of the nodes of each class in the tree `node`, in preorder,
/// appended to those in `nt`.
fn collect_node_types(nt: NodeTypes, node: &GraphNode) -> (r: NodeTypes)
    ensures
        forall|c: NodeClass| #[trigger] r.list(c) == nt.list(c) + class_labels(node@, c),
    decreases node,
{
    let ghost start = nt;
    let ghost own = |c: NodeClass|
        if class_of(node@) == Some(c) {
            seq![node@.label()]
        } else {
            Seq::<NameView>::empty()
        };
    let mut nt = nt;
    match node {
        GraphNode::Root { label, .. } => {
            proof {
                lemma_names_view_push(nt.root@, *label);
            }
            nt.root.push(label.clone());
        },
        GraphNode::Container { label, kind, .. } => match kind {
            NodeKind::Sequential => {},
            NodeKind::BlockLocal => {
                proof {
                    lemma_names_view_push(nt.block_local@, *label);
                }
                nt.block_local.push(label.clone());
            },
            NodeKind::ClusterLocal => {
                proof {
                    lemma_names_view_push(nt.cluster_local@, *label);
                }
                nt.cluster_local.push(label.clone());
            },
            NodeKind::InterBlock => {
                proof {
                    lemma_names_view_push(nt.inter_block@, *label);
                }
                nt.inter_block.push(label.clone());
            },
        },
        GraphNode::ExtCall { label } => {
            proof {
                lemma_names_view_push(nt.external@, *label);
            }
            nt.external.push(label.clone());
        },
        GraphNode::Leaf { .. } => {},
    }
    assert forall|c: NodeClass| #[trigger] nt.list(c) == start.list(c) + own(c) by {
        if class_of(node@) != Some(c) {
            assert(start.list(c) + Seq::<NameView>::empty() =~= start.list(c));
        }
    }
    match node {
        GraphNode::Root { children, .. } | GraphNode::Container { children, .. } => {
            let ghost after = nt;
            proof {
                assert(decreases_to!(*node => *children)) by {
                    match node {
                        GraphNode::Root { .. } => assert(decreases_to!(*node => node->Root_children)),
                        _ => assert(decreases_to!(*node => node->Container_children)),
                    }
                }
            }
            nt = collect_forest_node_types(nt, children);
            assert forall|c: NodeClass| #[trigger] nt.list(c) == start.list(c) + class_labels(node@, c) by {
                assert(start.list(c) + own(c) + forest_class_labels(nodes_view(children@), c)
                    =~= start.list(c) + (own(c) + forest_class_labels(nodes_view(children@), c)));
            }
        },
        _ => {
            assert forall|c: NodeClass| #[trigger] nt.list(c) == start.list(c) + class_labels(node@, c) by {
                assert(own(c) == class_labels(node@, c));
            }
        },
    }
    nt
}

impl NodeTypes {
    fn from(node: &GraphNode) -> (r: NodeTypes)
        ensures
            forall|c: NodeClass| #[trigger] r.list(c) == class_labels(node@, c),
    {
        let nt = collect_node_types(NodeTypes::default(), node);
        assert forall|c: NodeClass| #[trigger] nt.list(c) == class_labels(node@, c) by {
            assert(Seq::<NameView>::empty() + class_labels(node@, c) =~= class_labels(node@, c));
        }
        nt
    }
}

/// The names, as Graphviz node identifiers separated by spaces.
fn pprint_names(names: &Vec<Name>) -> (r: String)
    ensures
        r@ == names_text(names_view(names@)),
{
    let mut texts: Vec<String> = Vec::new();
    for k in 0..names.len()
        invariant
            texts@.len() == k,
            forall|j: int| 0 <= j < k ==> (#[trigger] texts@[j])@ == names@[j]@.text(),
    {
        texts.push(names[k].pprint());
    }
    let mut s = String::new();
    push_joined(&mut s, &texts, " ");
    assert(texts@.map_values(|p: String| p@) =~= names_view(names@).map_values(
        |n: NameView| n.text(),
    ));
    s
}

impl GraphNode {
    fn print_nodes_by_type(&self) -> (r: (String, String, String, String, String))
        ensures
            r.0@ == names_text(class_labels(self@, NodeClass::Root)),
            r.1@ == names_text(class_labels(self@, NodeClass::InterBlock)),
            r.2@ == names_text(class_labels(self@, NodeClass::BlockLocal)),
            r.3@ == names_text(class_labels(self@, NodeClass::ClusterLocal)),
            r.4@ == names_text(class_labels(self@, NodeClass::External)),
    {
        let node_types = NodeTypes::from(self);
        assert(node_types.list(NodeClass::Root) == class_labels(self@, NodeClass::Root));
        assert(node_types.list(NodeClass::InterBlock) == class_labels(self@, NodeClass::InterBlock));
        assert(node_types.list(NodeClass::BlockLocal) == class_labels(self@, NodeClass::BlockLocal));
        assert(node_types.list(NodeClass::ClusterLocal) == class_labels(self@, NodeClass::ClusterLocal));
        assert(node_types.list(NodeClass::External) == class_labels(self@, NodeClass::External));
        let root = pprint_names(&node_types.root);
        let ib = pprint_names(&node_types.inter_block);
        let bl = pprint_names(&node_types.block_local);
        let cl = pprint_names(&node_types.cluster_local);
        let ext = pprint_names(&node_types.external);
        (root, ib, bl, cl, ext)
    }

    fn collect_edges(&self, edges: Vec<Edge>) -> (r: Vec<Edge>)
        ensures
            edges_view(r@) == edges_view(edges@) + node_edges(self@),
        decreases self,
    {
        let mut edges = edges;
        let ghost start = edges_view(edges@);
        match self {
            GraphNode::Root { label, children } | GraphNode::Container { label, children, .. } => {
                let mut direct = mk_edges(label, children);
                let ghost dv = edges_view(direct@);
                edges.append(&mut direct);
                assert(edges_view(edges@) =~= start + dv);
                let ghost cv = nodes_view(children@);
                for k in 0..children.len()
                    invariant
                        self@ == (match *self {
                            GraphNode::Root { .. } => SpecGraphNode::Root { label: label@, children: cv },
                            _ => SpecGraphNode::Container {
                                label: label@,
                                kind: self@->Container_kind,
                                children: cv,
                            },
                        }),
                        cv == nodes_view(children@),
                        decreases_to!(*self => *children),
                        edges_view(edges@) == start + dv + forest_edges(cv.take(k as int)),
                {
                    proof {
                        assert(decreases_to!(children => children@));
                        assert(decreases_to!(children@ => children@[k as int]));
                    }
                    let ghost before = edges_view(edges@);
                    edges = children[k].collect_edges(edges);
                    proof {
                        assert(cv[k as int] == node_view(children@[k as int]));
                        assert(cv.take(k + 1).drop_last() =~= cv.take(k as int));
                        assert(start + dv + forest_edges(cv.take(k as int)) + node_edges(cv[k as int])
                            =~= start + dv + forest_edges(cv.take(k + 1)));
                    }
                }
                assert(cv.take(children.len() as int) =~= cv);
                assert(start + dv + forest_edges(cv) =~= start + (dv + forest_edges(cv)));
                edges
            },
            GraphNode::ExtCall { .. } | GraphNode::Leaf { .. } => {
                assert(start + Seq::<(NameView, NameView)>::empty() =~= start);
                edges
            },
        }
    }

    fn print_edges(&self) -> (r: String)
        ensures
            r@ == edges_text(node_edges(self@)),
    {
        let edges = self.collect_edges(Vec::new());
        assert(edges_view(Seq::<Edge>::empty()) + node_edges(self@) =~= node_edges(self@));
        let mut texts: Vec<String> = Vec::new();
        for k in 0..edges.len()
            invariant
                texts@.len() == k,
                forall|j: int| 0 <= j < k ==> (#[trigger] texts@[j])@ == edge_text(edges@[j].view()),
        {
            texts.push(edges[k].pprint());
        }
        let mut s = String::new();
        push_joined(&mut s, &texts, "\n");
        assert(texts@.map_values(|p: String| p@) =~= edges_view(edges@).map_values(
            |e: (NameView, NameView)| edge_text(e),
        ));
        s
    }

    /// The graph as a Graphviz `digraph`.
    pub fn to_graphviz_str(&self) -> (r: String)
        ensures
            r@ == graphviz_text(self@),
    {
        let (root, ib, bl, cl, ext) = self.print_nodes_by_type();
        let edges_str = self.print_edges();
        let mut s = String::from_str("digraph G {\n  node [color=black, style=filled] ");
        s.append(root.as_str());
        s.append("; // root node\n  node [style=dashed] ");
        s.append(ib.as_str());
        s.append("; // inter-block parallel nodes\n  node [style=bold] ");
        s.append(bl.as_str());
        s.append("; // block-local parallel nodes\n  node [style=dotted] ");
        s.append(cl.as_str());
        s.append("; // cluster-local parallel nodes\n  node [shape=diamond, style=\"\"] ");
        s.append(ext.as_str());
        s.append("; // external call nodes\n  node [shape=circle, style=\"\"]; // default nodes\n");
        s.append(edges_str.as_str());
        s.append("\n}");
        s
    }
}

} // verus!
