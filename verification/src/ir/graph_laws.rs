//! Laws of the graph of the parallel structure of a function body.

use vstd::prelude::*;

use crate::ir::ast::{Expr, Stmt, SyncPointKind};
use crate::ir::graph_repr::{
    class_labels, ext_call_label, forest_class_labels, forest_count, forest_edges, fresh_label, graph_node_of,
    graph_nodes, labels_used, lemma_graph_node_of_next, lemma_graph_nodes_next, node_count,
    node_edges, spec_make_graph, spec_node_kind, class_of, NodeClass, NodeKind,
};
use crate::ir::graph_view::SpecGraphNode;
use crate::utils::name::NameView;

verus! {

/// The edges of a graph form a tree: there is one edge fewer than there are
/// nodes.
pub proof fn lemma_edges_form_tree(n: SpecGraphNode)
    ensures
        node_edges(n).len() + 1 == node_count(n),
    decreases n,
{
    match n {
        SpecGraphNode::Root { children, .. } => {
            lemma_forest_edges_count(children);
        },
        SpecGraphNode::Container { children, .. } => {
            lemma_forest_edges_count(children);
        },
        _ => {},
    }
}

/// In a forest, the edges and the trees together are as many as the nodes.
pub proof fn lemma_forest_edges_count(ns: Seq<SpecGraphNode>)
    ensures
        forest_edges(ns).len() + ns.len() == forest_count(ns),
    decreases ns,
{
    if ns.len() > 0 {
        lemma_forest_edges_count(ns.drop_last());
        lemma_edges_form_tree(ns.last());
    }
}

/// No node of the tree `n` is a root node.
pub open spec fn rootless(n: SpecGraphNode) -> bool
    decreases n,
{
    match n {
        SpecGraphNode::Root { .. } => false,
        SpecGraphNode::Container { children, .. } => forest_rootless(children),
        _ => true,
    }
}

pub open spec fn forest_rootless(ns: Seq<SpecGraphNode>) -> bool
    decreases ns,
{
    if ns.len() == 0 {
        true
    } else {
        forest_rootless(ns.drop_last()) && rootless(ns.last())
    }
}

proof fn lemma_forest_rootless_push(ns: Seq<SpecGraphNode>, n: SpecGraphNode)
    ensures
        forest_rootless(ns.push(n)) == (forest_rootless(ns) && rootless(n)),
{
    assert(ns.push(n).drop_last() =~= ns);
}

proof fn lemma_graph_nodes_rootless(acc: Seq<SpecGraphNode>, rest: Seq<Stmt>, next: nat)
    requires
        forest_rootless(acc),
    ensures
        forest_rootless(graph_nodes(acc, rest, next).0),
    decreases rest,
{
    if rest.len() >= 3 && ext_call_label(rest[0], rest[1], rest[2]) is Some {
        let node = SpecGraphNode::ExtCall { label: ext_call_label(rest[0], rest[1], rest[2])->0 };
        lemma_forest_rootless_push(acc, node);
        if rest.len() > 3 {
            lemma_graph_nodes_rootless(acc.push(node), rest.skip(3), next);
        }
    } else if rest.len() >= 2 && rest[0] is For && rest[1] is SyncPoint {
        let inner = rest[0]->For_body@;
        assert(decreases_to!(rest => rest[0]));
        lemma_graph_nodes_rootless(Seq::empty(), inner, next);
        let (children, n1) = graph_nodes(Seq::empty(), inner, next);
        let node = SpecGraphNode::Container {
            label: rest[0]->For_var@,
            kind: spec_node_kind(rest[1]->SyncPoint_kind),
            children,
        };
        lemma_forest_rootless_push(acc, node);
        if inner.len() > 2 {
            lemma_graph_nodes_rootless(acc.push(node), inner.skip(2), n1);
        }
    } else if rest.len() > 0 {
        assert(decreases_to!(rest => rest[0]));
        lemma_graph_node_of_rootless(rest[0], next);
        let (node, n1) = graph_node_of(rest[0], next);
        lemma_forest_rootless_push(acc, node);
        lemma_graph_nodes_rootless(acc.push(node), rest.skip(1), n1);
    }
}

proof fn lemma_graph_node_of_rootless(s: Stmt, next: nat)
    ensures
        rootless(graph_node_of(s, next).0),
    decreases s,
{
    match s {
        Stmt::For { body, .. } => {
            lemma_graph_nodes_rootless(Seq::empty(), body@, next);
        },
        Stmt::While { body, .. } => {
            lemma_graph_nodes_rootless(Seq::empty(), body@, next + 1);
        },
        Stmt::If { thn, els, .. } => {
            lemma_graph_nodes_rootless(Seq::empty(), thn@, next + 1);
            let (c1, n) = graph_nodes(Seq::empty(), thn@, next + 1);
            lemma_graph_nodes_rootless(c1, els@, n);
        },
        _ => {},
    }
}

proof fn lemma_rootless_labels(n: SpecGraphNode)
    requires
        rootless(n),
    ensures
        class_labels(n, NodeClass::Root) == Seq::<NameView>::empty(),
    decreases n,
{
    if let SpecGraphNode::Container { children, .. } = n {
        lemma_forest_rootless_labels(children);
        assert(Seq::<NameView>::empty() + Seq::<NameView>::empty() =~= Seq::<NameView>::empty());
    }
}

proof fn lemma_forest_rootless_labels(ns: Seq<SpecGraphNode>)
    requires
        forest_rootless(ns),
    ensures
        forest_class_labels(ns, NodeClass::Root) == Seq::<NameView>::empty(),
    decreases ns,
{
    if ns.len() > 0 {
        lemma_forest_rootless_labels(ns.drop_last());
        lemma_rootless_labels(ns.last());
        assert(Seq::<NameView>::empty() + Seq::<NameView>::empty() =~= Seq::<NameView>::empty());
    }
}

/// The graph of a function body has one root node: the one on top, labelled
/// `root` and numbered 0.
pub proof fn lemma_graph_has_one_root(body: Seq<Stmt>)
    ensures
        class_labels(spec_make_graph(body), NodeClass::Root) == seq![fresh_label("root"@, 0)],
{
    lemma_graph_nodes_rootless(Seq::empty(), body, 1);
    lemma_forest_rootless_labels(graph_nodes(Seq::empty(), body, 1).0);
    assert(seq![fresh_label("root"@, 0)] + Seq::<NameView>::empty() =~= seq![fresh_label("root"@, 0)]);
}

/// The labels of the leaves of the tree `n`, in preorder.
pub open spec fn leaf_labels(n: SpecGraphNode) -> Seq<NameView>
    decreases n,
{
    match n {
        SpecGraphNode::Root { children, .. } => forest_leaf_labels(children),
        SpecGraphNode::Container { children, .. } => forest_leaf_labels(children),
        SpecGraphNode::ExtCall { .. } => Seq::empty(),
        SpecGraphNode::Leaf { label } => seq![label],
    }
}

pub open spec fn forest_leaf_labels(ns: Seq<SpecGraphNode>) -> Seq<NameView>
    decreases ns,
{
    if ns.len() == 0 {
        Seq::empty()
    } else {
        forest_leaf_labels(ns.drop_last()) + leaf_labels(ns.last())
    }
}

/// The number of a label, or -1 for a label without one.
pub open spec fn label_num(l: NameView) -> int {
    match l.id {
        Some(v) => v as int,
        None => -1,
    }
}

/// The labels are numbered from `lo` up to below `hi`, in increasing order.
pub open spec fn numbered_within(ls: Seq<NameView>, lo: int, hi: int) -> bool {
    &&& forall|k: int| #![trigger ls[k]] 0 <= k < ls.len() ==> lo <= label_num(ls[k]) && label_num(ls[k]) < hi
    &&& forall|a: int, b: int|
        0 <= a < b < ls.len() ==> #[trigger] label_num(ls[a]) < #[trigger] label_num(ls[b])
}

proof fn lemma_numbered_concat(a: Seq<NameView>, b: Seq<NameView>, lo: int, mid: int, hi: int)
    requires
        lo <= mid <= hi,
        numbered_within(a, lo, mid),
        numbered_within(b, mid, hi),
    ensures
        numbered_within(a + b, lo, hi),
{
    let c = a + b;
    assert forall|k: int| #![trigger c[k]] 0 <= k < c.len() implies lo <= label_num(c[k]) && label_num(c[k]) < hi by {
        if k < a.len() {
            assert(c[k] == a[k]);
            assert(lo <= label_num(a[k]) && label_num(a[k]) < mid);
        } else {
            assert(c[k] == b[k - a.len()]);
            assert(mid <= label_num(b[k - a.len()]) && label_num(b[k - a.len()]) < hi);
        }
    }
    assert forall|x: int, y: int| 0 <= x < y < c.len() implies #[trigger] label_num(c[x]) < #[trigger] label_num(c[y]) by {
        if y < a.len() {
            assert(c[x] == a[x] && c[y] == a[y]);
        } else if x >= a.len() {
            assert(c[x] == b[x - a.len()] && c[y] == b[y - a.len()]);
        } else {
            assert(c[x] == a[x] && c[y] == b[y - a.len()]);
            assert(label_num(a[x]) < mid);
            assert(mid <= label_num(b[y - a.len()]));
        }
    }
}

proof fn lemma_forest_leaf_labels_push(ns: Seq<SpecGraphNode>, n: SpecGraphNode)
    ensures
        forest_leaf_labels(ns.push(n)) == forest_leaf_labels(ns) + leaf_labels(n),
{
    assert(ns.push(n).drop_last() =~= ns);
}

/// The leaves that the builder adds after `acc` are numbered, in order, from
/// `next` up to below the number it returns.
proof fn lemma_graph_nodes_leaves(acc: Seq<SpecGraphNode>, rest: Seq<Stmt>, next: nat)
    requires
        graph_nodes(acc, rest, next).1 <= u64::MAX,
    ensures
        ({
            let f = forest_leaf_labels(graph_nodes(acc, rest, next).0);
            let a = forest_leaf_labels(acc);
            &&& f.len() >= a.len()
            &&& f.take(a.len() as int) == a
            &&& numbered_within(f.skip(a.len() as int), next as int, graph_nodes(acc, rest, next).1 as int)
        }),
    decreases rest,
{
    let a = forest_leaf_labels(acc);
    let (out, n2) = graph_nodes(acc, rest, next);
    if rest.len() >= 3 && ext_call_label(rest[0], rest[1], rest[2]) is Some {
        let node = SpecGraphNode::ExtCall { label: ext_call_label(rest[0], rest[1], rest[2])->0 };
        lemma_forest_leaf_labels_push(acc, node);
        assert(forest_leaf_labels(acc.push(node)) =~= a);
        if rest.len() > 3 {
            lemma_graph_nodes_leaves(acc.push(node), rest.skip(3), next);
        } else {
            assert(forest_leaf_labels(out).skip(a.len() as int) =~= Seq::<NameView>::empty());
            assert(forest_leaf_labels(out).take(a.len() as int) =~= a);
        }
    } else if rest.len() >= 2 && rest[0] is For && rest[1] is SyncPoint {
        let inner = rest[0]->For_body@;
        assert(decreases_to!(rest => rest[0]));
        let (children, n1) = graph_nodes(Seq::empty(), inner, next);
        let node = SpecGraphNode::Container {
            label: rest[0]->For_var@,
            kind: spec_node_kind(rest[1]->SyncPoint_kind),
            children,
        };
        let acc2 = acc.push(node);
        if inner.len() > 2 {
            lemma_graph_nodes_next(acc2, inner.skip(2), n1);
        }
        lemma_graph_nodes_leaves(Seq::empty(), inner, next);
        lemma_graph_nodes_next(Seq::empty(), inner, next);
        let lc = forest_leaf_labels(children);
        assert(lc.skip(0) =~= lc);
        lemma_forest_leaf_labels_push(acc, node);
        let a2 = forest_leaf_labels(acc2);
        assert(a2 == a + lc);
        if inner.len() > 2 {
            lemma_graph_nodes_leaves(acc2, inner.skip(2), n1);
            let f = forest_leaf_labels(out);
            let l2 = f.skip(a2.len() as int);
            lemma_numbered_concat(lc, l2, next as int, n1 as int, n2 as int);
            assert(f.take(a.len() as int) =~= a) by {
                assert(f.take(a2.len() as int) == a2);
                assert forall|k: int| 0 <= k < a.len() implies f.take(a.len() as int)[k] == a[k] by {
                    assert(f.take(a2.len() as int)[k] == a2[k]);
                }
            }
            assert(f.skip(a.len() as int) =~= lc + l2) by {
                assert(f.take(a2.len() as int) == a2);
                assert forall|k: int| 0 <= k < f.len() - a.len() implies f.skip(a.len() as int)[k] == (lc + l2)[k] by {
                    if k < lc.len() {
                        assert(f.take(a2.len() as int)[a.len() + k] == a2[a.len() + k]);
                    }
                }
            }
        } else {
            let f = forest_leaf_labels(out);
            assert(f == a + lc);
            assert(f.take(a.len() as int) =~= a);
            assert(f.skip(a.len() as int) =~= lc);
        }
    } else if rest.len() > 0 {
        assert(decreases_to!(rest => rest[0]));
        let (node, n1) = graph_node_of(rest[0], next);
        lemma_graph_nodes_next(acc.push(node), rest.skip(1), n1);
        lemma_graph_node_of_leaves(rest[0], next);
        lemma_graph_node_of_next(rest[0], next);
        let lc = leaf_labels(node);
        lemma_forest_leaf_labels_push(acc, node);
        let acc2 = acc.push(node);
        let a2 = forest_leaf_labels(acc2);
        lemma_graph_nodes_leaves(acc2, rest.skip(1), n1);
        let f = forest_leaf_labels(out);
        let l2 = f.skip(a2.len() as int);
        lemma_numbered_concat(lc, l2, next as int, n1 as int, n2 as int);
        assert(f.take(a.len() as int) =~= a) by {
            assert(f.take(a2.len() as int) == a2);
            assert forall|k: int| 0 <= k < a.len() implies f.take(a.len() as int)[k] == a[k] by {
                assert(f.take(a2.len() as int)[k] == a2[k]);
            }
        }
        assert(f.skip(a.len() as int) =~= lc + l2) by {
            assert(f.take(a2.len() as int) == a2);
            assert forall|k: int| 0 <= k < f.len() - a.len() implies f.skip(a.len() as int)[k] == (lc + l2)[k] by {
                if k < lc.len() {
                    assert(f.take(a2.len() as int)[a.len() + k] == a2[a.len() + k]);
                }
            }
        }
    } else {
        assert(forest_leaf_labels(out).skip(a.len() as int) =~= Seq::<NameView>::empty());
        assert(forest_leaf_labels(out).take(a.len() as int) =~= a);
    }
}

proof fn lemma_graph_node_of_leaves(s: Stmt, next: nat)
    requires
        graph_node_of(s, next).1 <= u64::MAX,
    ensures
        numbered_within(leaf_labels(graph_node_of(s, next).0), next as int, graph_node_of(s, next).1 as int),
    decreases s,
{
    match s {
        Stmt::For { body, .. } => {
            lemma_graph_nodes_leaves(Seq::empty(), body@, next);
            let l = forest_leaf_labels(graph_nodes(Seq::empty(), body@, next).0);
            assert(l.skip(0) =~= l);
        },
        Stmt::While { body, .. } => {
            lemma_graph_nodes_leaves(Seq::empty(), body@, next + 1);
            let l = forest_leaf_labels(graph_nodes(Seq::empty(), body@, next + 1).0);
            assert(l.skip(0) =~= l);
        },
        Stmt::If { thn, els, .. } => {
            let (c1, n) = graph_nodes(Seq::empty(), thn@, next + 1);
            lemma_graph_nodes_next(c1, els@, n);
            lemma_graph_nodes_leaves(Seq::empty(), thn@, next + 1);
            lemma_graph_nodes_next(Seq::empty(), thn@, next + 1);
            lemma_graph_nodes_leaves(c1, els@, n);
            let l1 = forest_leaf_labels(c1);
            assert(l1.skip(0) =~= l1);
            let f = forest_leaf_labels(graph_nodes(c1, els@, n).0);
            let l2 = f.skip(l1.len() as int);
            lemma_numbered_concat(l1, l2, (next + 1) as int, n as int, graph_node_of(s, next).1 as int);
            assert(f =~= l1 + l2);
        },
        _ => {},
    }
}

/// The leaves of the graph of a function body have pairwise distinct
/// labels: each is numbered, from 1 up, in the order of the leaves.
pub proof fn lemma_graph_leaves_distinct(body: Seq<Stmt>)
    requires
        labels_used(body) <= u64::MAX,
    ensures
        forall|a: int, b: int|
            0 <= a < b < leaf_labels(spec_make_graph(body)).len() ==> #[trigger] leaf_labels(
                spec_make_graph(body),
            )[a] != #[trigger] leaf_labels(spec_make_graph(body))[b],
        numbered_within(leaf_labels(spec_make_graph(body)), 1, labels_used(body) as int),
{
    lemma_graph_nodes_leaves(Seq::empty(), body, 1);
    let l = leaf_labels(spec_make_graph(body));
    assert(l.skip(0) =~= l);
    assert forall|a: int, b: int| 0 <= a < b < l.len() implies #[trigger] l[a] != #[trigger] l[b] by {
        assert(label_num(l[a]) < label_num(l[b]));
    }
}


/// The children of a node (none for a leaf or an external call).
pub open spec fn sub_nodes(n: SpecGraphNode) -> Seq<SpecGraphNode> {
    match n {
        SpecGraphNode::Root { children, .. } => children,
        SpecGraphNode::Container { children, .. } => children,
        _ => Seq::empty(),
    }
}

/// The node reached from `n` by following `path`, a sequence of child
/// positions, if there is one.
pub open spec fn node_at(n: SpecGraphNode, path: Seq<int>) -> Option<SpecGraphNode>
    decreases path.len(),
{
    if path.len() == 0 {
        Some(n)
    } else if 0 <= path[0] < sub_nodes(n).len() {
        node_at(sub_nodes(n)[path[0]], path.drop_first())
    } else {
        None
    }
}

proof fn lemma_forest_class_labels_contains(ns: Seq<SpecGraphNode>, k: int, c: NodeClass, x: NameView)
    requires
        0 <= k < ns.len(),
        class_labels(ns[k], c).contains(x),
    ensures
        forest_class_labels(ns, c).contains(x),
    decreases ns.len(),
{
    let f = forest_class_labels(ns, c);
    if k == ns.len() - 1 {
        let l = class_labels(ns[k], c);
        let j = choose|j: int| 0 <= j < l.len() && l[j] == x;
        let pre = forest_class_labels(ns.drop_last(), c);
        assert(f == pre + l);
        assert(f[pre.len() + j] == x);
    } else {
        lemma_forest_class_labels_contains(ns.drop_last(), k, c, x);
        assert(ns.drop_last()[k] == ns[k]);
        let pre = forest_class_labels(ns.drop_last(), c);
        let j = choose|j: int| 0 <= j < pre.len() && pre[j] == x;
        assert(f == pre + class_labels(ns.last(), c));
        assert(f[j] == x);
    }
}

proof fn lemma_class_labels_complete(n: SpecGraphNode, path: Seq<int>, c: NodeClass)
    requires
        node_at(n, path) matches Some(m) && class_of(m) == Some(c),
    ensures
        class_labels(n, c).contains(node_at(n, path)->0.label()),
    decreases path.len(),
{
    let m = node_at(n, path)->0;
    let own: Seq<NameView> = if class_of(n) == Some(c) {
        seq![n.label()]
    } else {
        Seq::empty()
    };
    if path.len() == 0 {
        assert(class_labels(n, c)[0] == m.label());
    } else {
        let k = path[0];
        let ch = sub_nodes(n);
        lemma_class_labels_complete(ch[k], path.drop_first(), c);
        lemma_forest_class_labels_contains(ch, k, c, m.label());
        let f = forest_class_labels(ch, c);
        let j = choose|j: int| 0 <= j < f.len() && f[j] == m.label();
        assert(class_labels(n, c) == own + f);
        assert(class_labels(n, c)[own.len() + j] == m.label());
    }
}

/// Every parallel loop node and external call node of a graph, at any depth
/// and under any kind of node, is listed under its class in the Graphviz
/// text (see `graphviz_text`), and so is every root node.
pub proof fn lemma_class_lists_complete(n: SpecGraphNode, path: Seq<int>)
    requires
        node_at(n, path) is Some,
    ensures
        ({
            let m = node_at(n, path)->0;
            &&& m matches SpecGraphNode::Container { kind: NodeKind::BlockLocal, .. }
                ==> class_labels(n, NodeClass::BlockLocal).contains(m.label())
            &&& m matches SpecGraphNode::Container { kind: NodeKind::ClusterLocal, .. }
                ==> class_labels(n, NodeClass::ClusterLocal).contains(m.label())
            &&& m matches SpecGraphNode::Container { kind: NodeKind::InterBlock, .. }
                ==> class_labels(n, NodeClass::InterBlock).contains(m.label())
            &&& m is ExtCall ==> class_labels(n, NodeClass::External).contains(m.label())
            &&& m is Root ==> class_labels(n, NodeClass::Root).contains(m.label())
        }),
{
    let m = node_at(n, path)->0;
    match m {
        SpecGraphNode::Container { kind: NodeKind::BlockLocal, .. } => lemma_class_labels_complete(n, path, NodeClass::BlockLocal),
        SpecGraphNode::Container { kind: NodeKind::ClusterLocal, .. } => lemma_class_labels_complete(n, path, NodeClass::ClusterLocal),
        SpecGraphNode::Container { kind: NodeKind::InterBlock, .. } => lemma_class_labels_complete(n, path, NodeClass::InterBlock),
        SpecGraphNode::ExtCall { .. } => lemma_class_labels_complete(n, path, NodeClass::External),
        SpecGraphNode::Root { .. } => lemma_class_labels_complete(n, path, NodeClass::Root),
        _ => {},
    }
}



/// The nodes of the tree `n` in preorder: each node before the trees of its
/// children, taken in order.
pub open spec fn preorder(n: SpecGraphNode) -> Seq<SpecGraphNode>
    decreases n,
{
    match n {
        SpecGraphNode::Root { children, .. } => seq![n] + forest_preorder(children),
        SpecGraphNode::Container { children, .. } => seq![n] + forest_preorder(children),
        _ => seq![n],
    }
}

pub open spec fn forest_preorder(ns: Seq<SpecGraphNode>) -> Seq<SpecGraphNode>
    decreases ns,
{
    if ns.len() == 0 {
        Seq::empty()
    } else {
        forest_preorder(ns.drop_last()) + preorder(ns.last())
    }
}

/// Whether a node belongs to the class `c`.
pub open spec fn in_class(c: NodeClass) -> spec_fn(SpecGraphNode) -> bool {
    |m: SpecGraphNode| class_of(m) == Some(c)
}

/// The labels of those nodes of `ns` that belong to the class `c`, in order.
pub open spec fn labels_in_class(ns: Seq<SpecGraphNode>, c: NodeClass) -> Seq<NameView> {
    ns.filter(in_class(c)).map_values(|m: SpecGraphNode| m.label())
}

proof fn lemma_labels_in_class_add(a: Seq<SpecGraphNode>, b: Seq<SpecGraphNode>, c: NodeClass)
    ensures
        labels_in_class(a + b, c) == labels_in_class(a, c) + labels_in_class(b, c),
{
    Seq::filter_distributes_over_add(a, b, in_class(c));
    let fa = a.filter(in_class(c));
    let fb = b.filter(in_class(c));
    assert((fa + fb).map_values(|m: SpecGraphNode| m.label()) =~= fa.map_values(
        |m: SpecGraphNode| m.label(),
    ) + fb.map_values(|m: SpecGraphNode| m.label()));
}

proof fn lemma_labels_in_class_one(n: SpecGraphNode, c: NodeClass)
    ensures
        labels_in_class(seq![n], c) == (if class_of(n) == Some(c) {
            seq![n.label()]
        } else {
            Seq::<NameView>::empty()
        }),
{
    reveal_with_fuel(Seq::filter, 2);
    assert(seq![n].drop_last() =~= Seq::<SpecGraphNode>::empty());
    let f = seq![n].filter(in_class(c));
    if class_of(n) == Some(c) {
        assert(f =~= seq![n]);
        assert(f.map_values(|m: SpecGraphNode| m.label()) =~= seq![n.label()]);
    } else {
        assert(f =~= Seq::<SpecGraphNode>::empty());
        assert(f.map_values(|m: SpecGraphNode| m.label()) =~= Seq::<NameView>::empty());
    }
}

/// The list of each class of the Graphviz text (see `graphviz_text`) holds
/// the labels of exactly the nodes of that class, in the order of a preorder
/// walk of the whole tree: under every kind of node, at every depth.
pub proof fn lemma_class_lists_are_preorder(n: SpecGraphNode, c: NodeClass)
    ensures
        class_labels(n, c) == labels_in_class(preorder(n), c),
    decreases n,
{
    lemma_labels_in_class_one(n, c);
    match n {
        SpecGraphNode::Root { children, .. } => {
            lemma_forest_lists_are_preorder(children, c);
            lemma_labels_in_class_add(seq![n], forest_preorder(children), c);
        },
        SpecGraphNode::Container { children, .. } => {
            lemma_forest_lists_are_preorder(children, c);
            lemma_labels_in_class_add(seq![n], forest_preorder(children), c);
        },
        _ => {},
    }
}

/// The same for a sequence of trees.
pub proof fn lemma_forest_lists_are_preorder(ns: Seq<SpecGraphNode>, c: NodeClass)
    ensures
        forest_class_labels(ns, c) == labels_in_class(forest_preorder(ns), c),
    decreases ns,
{
    if ns.len() == 0 {
        reveal_with_fuel(Seq::filter, 1);
        assert(labels_in_class(Seq::empty(), c) =~= Seq::<NameView>::empty());
    } else {
        lemma_forest_lists_are_preorder(ns.drop_last(), c);
        lemma_class_lists_are_preorder(ns.last(), c);
        lemma_labels_in_class_add(forest_preorder(ns.drop_last()), preorder(ns.last()), c);
    }
}

/// A statement that is neither a synchronization point, nor a call or
/// Python callback, nor a loop or `if`.
pub open spec fn is_plain(s: Stmt) -> bool {
    match s {
        Stmt::SyncPoint { .. } => false,
        Stmt::Expr { e: Expr::Call { .. }, .. } => false,
        Stmt::Expr { e: Expr::PyCallback { .. }, .. } => false,
        Stmt::For { .. } => false,
        Stmt::While { .. } => false,
        Stmt::If { .. } => false,
        _ => true,
    }
}

/// The number of plain statements in `ss`.
pub open spec fn count_plain(ss: Seq<Stmt>) -> nat
    decreases ss.len(),
{
    if ss.len() == 0 {
        0
    } else {
        (if is_plain(ss[0]) {
            1nat
        } else {
            0nat
        }) + count_plain(ss.skip(1))
    }
}

/// The number of inter-block synchronization points in `ss`.
pub open spec fn count_inter_block_syncs(ss: Seq<Stmt>) -> nat
    decreases ss.len(),
{
    if ss.len() == 0 {
        0
    } else {
        (if ss[0] matches Stmt::SyncPoint { kind: SyncPointKind::InterBlock, .. } {
            1nat
        } else {
            0nat
        }) + count_inter_block_syncs(ss.skip(1))
    }
}

/// The number of leaves among the nodes `ns` (not their descendants).
pub open spec fn count_leaves(ns: Seq<SpecGraphNode>) -> nat
    decreases ns.len(),
{
    if ns.len() == 0 {
        0
    } else {
        count_leaves(ns.drop_last()) + (if ns.last() is Leaf {
            1nat
        } else {
            0nat
        })
    }
}

/// The number of external call nodes among the nodes `ns`.
pub open spec fn count_ext_calls(ns: Seq<SpecGraphNode>) -> nat
    decreases ns.len(),
{
    if ns.len() == 0 {
        0
    } else {
        count_ext_calls(ns.drop_last()) + (if ns.last() is ExtCall {
            1nat
        } else {
            0nat
        })
    }
}

proof fn lemma_counts_push(ns: Seq<SpecGraphNode>, x: SpecGraphNode)
    ensures
        count_leaves(ns.push(x)) == count_leaves(ns) + (if x is Leaf { 1nat } else { 0nat }),
        count_ext_calls(ns.push(x)) == count_ext_calls(ns) + (if x is ExtCall { 1nat } else { 0nat }),
{
    assert(ns.push(x).drop_last() =~= ns);
}

/// Where no statement of `rest` is a `for` loop, no statement is lost and no
/// external call is made up: each plain statement (see `is_plain`) gives a
/// leaf of its own, and each external call node uses up two inter-block
/// synchronization points.
pub proof fn lemma_graph_nodes_keep_statements(acc: Seq<SpecGraphNode>, rest: Seq<Stmt>, next: nat)
    requires
        forall|k: int| 0 <= k < rest.len() ==> !(#[trigger] rest[k] is For),
    ensures
        count_leaves(graph_nodes(acc, rest, next).0) >= count_leaves(acc) + count_plain(rest),
        2 * count_ext_calls(graph_nodes(acc, rest, next).0) <= 2 * count_ext_calls(acc)
            + count_inter_block_syncs(rest),
    decreases rest,
{
    if rest.len() >= 3 && ext_call_label(rest[0], rest[1], rest[2]) is Some {
        let node = SpecGraphNode::ExtCall { label: ext_call_label(rest[0], rest[1], rest[2])->0 };
        lemma_counts_push(acc, node);
        let r3 = rest.skip(3);
        let r1 = rest.skip(1);
        let r2 = r1.skip(1);
        assert(r2.skip(1) =~= r3);
        assert(r1[0] == rest[1]);
        assert(r2[0] == rest[2]);
        assert(rest[0] is SyncPoint && rest[2] is SyncPoint);
        assert(count_plain(rest) == count_plain(r1));
        assert(count_plain(r1) == count_plain(r2));
        assert(count_plain(r2) == count_plain(r3));
        assert(count_inter_block_syncs(rest) == 1 + count_inter_block_syncs(r1));
        assert(count_inter_block_syncs(r1) >= count_inter_block_syncs(r2));
        assert(count_inter_block_syncs(r2) == 1 + count_inter_block_syncs(r3));
        assert(count_inter_block_syncs(rest) >= 2 + count_inter_block_syncs(r3));
        if rest.len() > 3 {
            assert forall|k: int| 0 <= k < r3.len() implies !(#[trigger] r3[k] is For) by {
                assert(r3[k] == rest[k + 3]);
            }
            lemma_graph_nodes_keep_statements(acc.push(node), r3, next);
        }
    } else if rest.len() > 0 {
        assert(rest[0] == rest[0]);
        assert(!(rest[0] is For));
        assert(decreases_to!(rest => rest[0]));
        let (node, n1) = graph_node_of(rest[0], next);
        lemma_counts_push(acc, node);
        let r1 = rest.skip(1);
        assert forall|k: int| 0 <= k < r1.len() implies !(#[trigger] r1[k] is For) by {
            assert(r1[k] == rest[k + 1]);
        }
        lemma_graph_nodes_keep_statements(acc.push(node), r1, n1);
    }
}


/// The number of plain statements in `s`, counting those in the bodies of
/// `while` loops and both branches of `if`s.
pub open spec fn stmt_plain_count(s: Stmt) -> nat
    decreases s,
{
    match s {
        Stmt::While { body, .. } => block_plain_count(body@),
        Stmt::If { thn, els, .. } => block_plain_count(thn@) + block_plain_count(els@),
        _ => if is_plain(s) {
            1nat
        } else {
            0nat
        },
    }
}

pub open spec fn block_plain_count(ss: Seq<Stmt>) -> nat
    decreases ss,
{
    if ss.len() == 0 {
        0
    } else {
        stmt_plain_count(ss[0]) + block_plain_count(ss.skip(1))
    }
}

/// No `for` loop occurs in `s`, at any depth.
pub open spec fn for_free(s: Stmt) -> bool
    decreases s,
{
    match s {
        Stmt::For { .. } => false,
        Stmt::While { body, .. } => block_for_free(body@),
        Stmt::If { thn, els, .. } => block_for_free(thn@) && block_for_free(els@),
        _ => true,
    }
}

pub open spec fn block_for_free(ss: Seq<Stmt>) -> bool
    decreases ss,
{
    ss.len() == 0 || (for_free(ss[0]) && block_for_free(ss.skip(1)))
}

/// Where no `for` loop occurs, no statement is lost at any depth: the graph
/// has a leaf for each plain statement, those in `while` bodies and `if`
/// branches included.
pub proof fn lemma_graph_nodes_keep_nested_statements(acc: Seq<SpecGraphNode>, rest: Seq<Stmt>, next: nat)
    requires
        block_for_free(rest),
    ensures
        forest_leaf_labels(graph_nodes(acc, rest, next).0).len() >= forest_leaf_labels(acc).len()
            + block_plain_count(rest),
    decreases rest,
{
    if rest.len() >= 3 && ext_call_label(rest[0], rest[1], rest[2]) is Some {
        let node = SpecGraphNode::ExtCall { label: ext_call_label(rest[0], rest[1], rest[2])->0 };
        lemma_forest_leaf_labels_push(acc, node);
        let r1 = rest.skip(1);
        let r2 = r1.skip(1);
        let r3 = rest.skip(3);
        assert(r2.skip(1) =~= r3);
        assert(r1[0] == rest[1]);
        assert(r2[0] == rest[2]);
        assert(rest[0] is SyncPoint && rest[2] is SyncPoint);
        assert(!is_plain(rest[1]) && !(rest[1] is While) && !(rest[1] is If));
        assert(stmt_plain_count(rest[0]) == 0 && stmt_plain_count(r1[0]) == 0 && stmt_plain_count(r2[0]) == 0);
        assert(block_plain_count(rest) == block_plain_count(r1));
        assert(block_plain_count(r1) == block_plain_count(r2));
        assert(block_plain_count(r2) == block_plain_count(r3));
        assert(block_for_free(r1));
        assert(r1.len() > 0 && block_for_free(r2));
        assert(r2.len() > 0 && block_for_free(r2.skip(1)));
        assert(block_for_free(r3));
        assert(forest_leaf_labels(acc.push(node)) =~= forest_leaf_labels(acc));
        if rest.len() > 3 {
            lemma_graph_nodes_keep_nested_statements(acc.push(node), r3, next);
        }
    } else if rest.len() > 0 {
        assert(decreases_to!(rest => rest[0]));
        assert(for_free(rest[0]));
        lemma_graph_node_of_keeps_nested(rest[0], next);
        let (node, n1) = graph_node_of(rest[0], next);
        lemma_forest_leaf_labels_push(acc, node);
        lemma_graph_nodes_keep_nested_statements(acc.push(node), rest.skip(1), n1);
    }
}

proof fn lemma_graph_node_of_keeps_nested(s: Stmt, next: nat)
    requires
        for_free(s),
    ensures
        leaf_labels(graph_node_of(s, next).0).len() >= stmt_plain_count(s),
    decreases s,
{
    match s {
        Stmt::While { body, .. } => {
            lemma_graph_nodes_keep_nested_statements(Seq::empty(), body@, next + 1);
        },
        Stmt::If { thn, els, .. } => {
            lemma_graph_nodes_keep_nested_statements(Seq::empty(), thn@, next + 1);
            let (c1, n) = graph_nodes(Seq::empty(), thn@, next + 1);
            lemma_graph_nodes_keep_nested_statements(c1, els@, n);
        },
        _ => {},
    }
}

/// The last statements of `ss` make the node `m` by themselves: for an
/// external call node, a call or Python callback of that name between two
/// inter-block synchronization points; for a parallel node, a `for` loop
/// over the variable that labels it, followed by a synchronization point of
/// the matching kind.
pub open spec fn made_at_end(m: SpecGraphNode, ss: Seq<Stmt>) -> bool {
    let n = ss.len() as int;
    match m {
        SpecGraphNode::ExtCall { label } => n >= 3 && is_inter_block_sync(ss[n - 3]) && calls_named(
            ss[n - 2],
            label,
        ) && is_inter_block_sync(ss[n - 1]),
        SpecGraphNode::Container { label, kind, .. } => n >= 2 && loops_over(ss[n - 2], label)
            && sync_of_kind(ss[n - 1], kind),
        _ => false,
    }
}

/// An inter-block synchronization point.
pub open spec fn is_inter_block_sync(s: Stmt) -> bool {
    s matches Stmt::SyncPoint { kind: SyncPointKind::InterBlock, .. }
}

/// A call, or a Python callback, of the name `label`, as a statement.
pub open spec fn calls_named(s: Stmt, label: NameView) -> bool {
    match s {
        Stmt::Expr { e: Expr::Call { id, .. }, .. } => id@ == label,
        Stmt::Expr { e: Expr::PyCallback { id, .. }, .. } => id@ == label,
        _ => false,
    }
}

/// A `for` loop over the variable `label`.
pub open spec fn loops_over(s: Stmt, label: NameView) -> bool {
    match s {
        Stmt::For { var, .. } => var@ == label,
        _ => false,
    }
}

/// A synchronization point of the kind that makes a parallel node of the
/// kind `kind`: block-local for block-local, block-cluster for
/// cluster-local, inter-block for inter-block.
pub open spec fn sync_of_kind(s: Stmt, kind: NodeKind) -> bool {
    match s {
        Stmt::SyncPoint { kind: sk, .. } => match sk {
            SyncPointKind::BlockLocal => kind is BlockLocal,
            SyncPointKind::BlockCluster => kind is ClusterLocal,
            SyncPointKind::InterBlock => kind is InterBlock,
        },
        _ => false,
    }
}

/// Some statements of `ss`, at any depth of its blocks, make `m` (see
/// `made_at_end`).
pub open spec fn made_in_block(m: SpecGraphNode, ss: Seq<Stmt>) -> bool
    decreases ss,
{
    ss.len() > 0 && (made_in_block(m, ss.drop_last()) || made_at_end(m, ss) || made_in_stmt(
        m,
        ss.last(),
    ))
}

pub open spec fn made_in_stmt(m: SpecGraphNode, s: Stmt) -> bool
    decreases s,
{
    match s {
        Stmt::For { body, .. } => made_in_block(m, body@),
        Stmt::While { body, .. } => made_in_block(m, body@),
        Stmt::If { thn, els, .. } => made_in_block(m, thn@) || made_in_block(m, els@),
        _ => false,
    }
}

/// A parallel loop node or an external call node.
pub open spec fn is_parallel_or_call(m: SpecGraphNode) -> bool {
    m is ExtCall || (m matches SpecGraphNode::Container { kind, .. } && !(kind is Sequential))
}

proof fn lemma_made_in_prefix(m: SpecGraphNode, ss: Seq<Stmt>, j: int)
    requires
        0 <= j <= ss.len(),
        made_in_block(m, ss.take(j)),
    ensures
        made_in_block(m, ss),
    decreases ss.len(),
{
    if j == ss.len() {
        assert(ss.take(j) =~= ss);
    } else {
        assert(ss.drop_last().take(j) =~= ss.take(j));
        lemma_made_in_prefix(m, ss.drop_last(), j);
    }
}

proof fn lemma_made_in_suffix(m: SpecGraphNode, ss: Seq<Stmt>, j: int)
    requires
        0 <= j <= ss.len(),
        made_in_block(m, ss.skip(j)),
    ensures
        made_in_block(m, ss),
    decreases ss.len(),
{
    let t = ss.skip(j);
    if j < ss.len() {
        assert(t.drop_last() =~= ss.drop_last().skip(j));
        assert(t.last() == ss.last());
        if made_in_block(m, t.drop_last()) {
            lemma_made_in_suffix(m, ss.drop_last(), j);
        }
        let n = ss.len() as int;
        let k = t.len() as int;
        if k >= 2 {
            assert(t[k - 2] == ss[n - 2]);
        }
        if k >= 3 {
            assert(t[k - 3] == ss[n - 3]);
        }
    }
}

proof fn lemma_made_in_first(m: SpecGraphNode, ss: Seq<Stmt>)
    requires
        ss.len() > 0,
        made_in_stmt(m, ss[0]),
    ensures
        made_in_block(m, ss),
{
    assert(ss.take(1).last() == ss[0]);
    lemma_made_in_prefix(m, ss, 1);
}

proof fn lemma_preorder_push(acc: Seq<SpecGraphNode>, x: SpecGraphNode, m: SpecGraphNode)
    requires
        forest_preorder(acc.push(x)).contains(m),
    ensures
        forest_preorder(acc).contains(m) || preorder(x).contains(m),
{
    assert(acc.push(x).drop_last() =~= acc);
    lemma_contains_add(forest_preorder(acc), preorder(x), m);
}

proof fn lemma_contains_add(a: Seq<SpecGraphNode>, b: Seq<SpecGraphNode>, m: SpecGraphNode)
    requires
        (a + b).contains(m),
    ensures
        a.contains(m) || b.contains(m),
{
    let k = choose|k: int| 0 <= k < (a + b).len() && (a + b)[k] == m;
    if k < a.len() {
        assert(a[k] == m);
    } else {
        assert(b[k - a.len()] == m);
    }
}

proof fn lemma_node_of_made(s: Stmt, next: nat, m: SpecGraphNode)
    requires
        preorder(graph_node_of(s, next).0).contains(m),
        is_parallel_or_call(m),
    ensures
        made_in_stmt(m, s),
    decreases s,
{
    let e = Seq::<SpecGraphNode>::empty();
    assert(forest_preorder(e) =~= e);
    match s {
        Stmt::For { body, .. } => {
            let node = graph_node_of(s, next).0;
            lemma_contains_add(seq![node], forest_preorder(node->Container_children), m);
            lemma_nodes_made(e, body@, next, m);
        },
        Stmt::While { body, .. } => {
            let node = graph_node_of(s, next).0;
            lemma_contains_add(seq![node], forest_preorder(node->Container_children), m);
            lemma_nodes_made(e, body@, next + 1, m);
        },
        Stmt::If { thn, els, .. } => {
            let node = graph_node_of(s, next).0;
            lemma_contains_add(seq![node], forest_preorder(node->Container_children), m);
            let (c1, n) = graph_nodes(e, thn@, next + 1);
            lemma_nodes_made(c1, els@, n, m);
            if forest_preorder(c1).contains(m) {
                lemma_nodes_made(e, thn@, next + 1, m);
            }
        },
        _ => {},
    }
}

proof fn lemma_nodes_made(acc: Seq<SpecGraphNode>, rest: Seq<Stmt>, next: nat, m: SpecGraphNode)
    requires
        forest_preorder(graph_nodes(acc, rest, next).0).contains(m),
        is_parallel_or_call(m),
    ensures
        forest_preorder(acc).contains(m) || made_in_block(m, rest),
    decreases rest,
{
    let e = Seq::<SpecGraphNode>::empty();
    if rest.len() >= 3 && ext_call_label(rest[0], rest[1], rest[2]) is Some {
        let node = SpecGraphNode::ExtCall { label: ext_call_label(rest[0], rest[1], rest[2])->0 };
        let acc2 = acc.push(node);
        if rest.len() > 3 {
            lemma_nodes_made(acc2, rest.skip(3), next, m);
            if made_in_block(m, rest.skip(3)) {
                lemma_made_in_suffix(m, rest, 3);
            }
        }
        if forest_preorder(acc2).contains(m) {
            lemma_preorder_push(acc, node, m);
            if preorder(node).contains(m) {
                assert(preorder(node)[0] == node);
                let t = rest.take(3);
                assert(t[0] == rest[0] && t[1] == rest[1] && t[2] == rest[2]);
                assert(made_at_end(m, t));
                lemma_made_in_prefix(m, rest, 3);
            }
        }
    } else if rest.len() >= 2 && rest[0] is For && rest[1] is SyncPoint {
        let inner = rest[0]->For_body@;
        assert(decreases_to!(rest => rest[0]));
        let (children, n1) = graph_nodes(e, inner, next);
        let node = SpecGraphNode::Container {
            label: rest[0]->For_var@,
            kind: spec_node_kind(rest[1]->SyncPoint_kind),
            children,
        };
        let acc2 = acc.push(node);
        if inner.len() > 2 {
            lemma_nodes_made(acc2, inner.skip(2), n1, m);
            if made_in_block(m, inner.skip(2)) {
                lemma_made_in_suffix(m, inner, 2);
                lemma_made_in_first(m, rest);
            }
        }
        if forest_preorder(acc2).contains(m) {
            lemma_preorder_push(acc, node, m);
            if preorder(node).contains(m) {
                lemma_contains_add(seq![node], forest_preorder(children), m);
                if forest_preorder(children).contains(m) {
                    lemma_nodes_made(e, inner, next, m);
                    lemma_made_in_first(m, rest);
                } else {
                    let t = rest.take(2);
                    assert(t[0] == rest[0] && t[1] == rest[1]);
                    assert(made_at_end(m, t));
                    lemma_made_in_prefix(m, rest, 2);
                }
            }
        }
    } else if rest.len() > 0 {
        assert(decreases_to!(rest => rest[0]));
        let (node, n1) = graph_node_of(rest[0], next);
        lemma_nodes_made(acc.push(node), rest.skip(1), n1, m);
        if made_in_block(m, rest.skip(1)) {
            lemma_made_in_suffix(m, rest, 1);
        }
        if forest_preorder(acc.push(node)).contains(m) {
            lemma_preorder_push(acc, node, m);
            if preorder(node).contains(m) {
                lemma_node_of_made(rest[0], next, m);
                lemma_made_in_first(m, rest);
            }
        }
    }
}

/// Each parallel loop node and each external call node of the graph of a
/// function body was made from the body, at some depth of its blocks: an
/// external call node from a call or Python callback of its name between two
/// inter-block synchronization points, and a parallel node from a `for` loop
/// over the variable that labels it, followed by a synchronization point of
/// the matching kind.
pub proof fn lemma_graph_nodes_have_sources(body: Seq<Stmt>, m: SpecGraphNode)
    requires
        preorder(spec_make_graph(body)).contains(m),
        is_parallel_or_call(m),
    ensures
        made_in_block(m, body),
{
    let g = spec_make_graph(body);
    let ch = graph_nodes(Seq::empty(), body, 1).0;
    lemma_contains_add(seq![g], forest_preorder(ch), m);
    if forest_preorder(ch).contains(m) {
        lemma_nodes_made(Seq::empty(), body, 1, m);
        assert(forest_preorder(Seq::<SpecGraphNode>::empty()) =~= Seq::<SpecGraphNode>::empty());
    }
}

/// After a `for` loop followed by a synchronization point, the builder goes
/// on with the statements of that loop's body from the third one on, and not
/// with the statements that follow the pair: those give no node.
pub proof fn lemma_parallel_loop_ends_block(
    acc: Seq<SpecGraphNode>,
    f: Stmt,
    sp: Stmt,
    tail: Seq<Stmt>,
    next: nat,
)
    requires
        f is For,
        sp is SyncPoint,
    ensures
        graph_nodes(acc, seq![f, sp] + tail, next) == graph_nodes(acc, seq![f, sp], next),
{
    let r = seq![f, sp] + tail;
    let p = seq![f, sp];
    assert(r[0] == f && r[1] == sp && p[0] == f && p[1] == sp);
    if r.len() >= 3 {
        assert(ext_call_label(r[0], r[1], r[2]) is None);
    }
}

} // verus!
