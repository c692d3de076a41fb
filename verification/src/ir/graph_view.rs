//! What a graph node stands for, as a tree of sequences.

use vstd::prelude::*;

use crate::ir::graph_repr::{GraphNode, NodeKind};
use crate::utils::name::NameView;

verus! {

/// What a `GraphNode` stands for.
pub enum SpecGraphNode {
    Root { label: NameView, children: Seq<SpecGraphNode> },
    Container { label: NameView, kind: NodeKind, children: Seq<SpecGraphNode> },
    ExtCall { label: NameView },
    Leaf { label: NameView },
}

pub open spec fn node_view(n: GraphNode) -> SpecGraphNode
    decreases n,
{
    match n {
        GraphNode::Root { label, children } => SpecGraphNode::Root {
            label: label@,
            children: nodes_view(children@),
        },
        GraphNode::Container { label, kind, children } => SpecGraphNode::Container {
            label: label@,
            kind,
            children: nodes_view(children@),
        },
        GraphNode::ExtCall { label } => SpecGraphNode::ExtCall { label: label@ },
        GraphNode::Leaf { label } => SpecGraphNode::Leaf { label: label@ },
    }
}

pub open spec fn nodes_view(ns: Seq<GraphNode>) -> Seq<SpecGraphNode>
    decreases ns,
{
    if ns.len() == 0 {
        Seq::empty()
    } else {
        nodes_view(ns.drop_last()).push(node_view(ns.last()))
    }
}

impl View for GraphNode {
    type V = SpecGraphNode;

    open spec fn view(&self) -> SpecGraphNode {
        node_view(*self)
    }
}

pub broadcast proof fn lemma_nodes_view_len(ns: Seq<GraphNode>)
    ensures
        #[trigger] nodes_view(ns).len() == ns.len(),
    decreases ns.len(),
{
    if ns.len() > 0 {
        lemma_nodes_view_len(ns.drop_last());
    }
}

pub broadcast proof fn lemma_nodes_view_index(ns: Seq<GraphNode>, j: int)
    requires
        0 <= j < ns.len(),
    ensures
        #[trigger] nodes_view(ns)[j] == node_view(ns[j]),
    decreases ns.len(),
{
    lemma_nodes_view_len(ns.drop_last());
    if j < ns.len() - 1 {
        lemma_nodes_view_index(ns.drop_last(), j);
    }
}

pub broadcast proof fn lemma_nodes_view_push(ns: Seq<GraphNode>, n: GraphNode)
    ensures
        #[trigger] nodes_view(ns.push(n)) == nodes_view(ns).push(node_view(n)),
{
    assert(ns.push(n).drop_last() =~= ns);
}

pub broadcast group group_graph_views {
    lemma_nodes_view_len,
    lemma_nodes_view_index,
    lemma_nodes_view_push,
}

impl SpecGraphNode {
    pub open spec fn label(self) -> NameView {
        match self {
            SpecGraphNode::Root { label, .. } => label,
            SpecGraphNode::Container { label, .. } => label,
            SpecGraphNode::ExtCall { label } => label,
            SpecGraphNode::Leaf { label } => label,
        }
    }
}

} // verus!
