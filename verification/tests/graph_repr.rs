use parpy::ir::ast::{Expr, Stmt, SyncPointKind};
use parpy::ir::graph_repr::{make_graph, GraphNode, NodeKind};
use parpy::utils::info::Info;
use parpy::utils::name::Name;

fn name(s: &str) -> Name {
    Name::new(s.to_string())
}

fn fresh(s: &str, n: u64) -> Name {
    Name::sym_str(s, n)
}

fn plain() -> Stmt {
    Stmt::Return { value: Expr::Int { v: 0, i: Info::default() }, i: Info::default() }
}

fn sync(kind: SyncPointKind) -> Stmt {
    Stmt::SyncPoint { kind, i: Info::default() }
}

fn call(f: &str) -> Stmt {
    Stmt::Expr { e: Expr::Call { id: name(f), args: vec![], i: Info::default() }, i: Info::default() }
}

fn callback(f: &str) -> Stmt {
    Stmt::Expr { e: Expr::PyCallback { id: name(f), args: vec![], i: Info::default() }, i: Info::default() }
}

fn for_loop(var: &str, body: Vec<Stmt>) -> Stmt {
    Stmt::For {
        var: name(var),
        lo: Expr::Int { v: 0, i: Info::default() },
        hi: Expr::Int { v: 10, i: Info::default() },
        body,
        i: Info::default(),
    }
}

fn leaf(n: u64) -> GraphNode {
    GraphNode::Leaf { label: fresh("stmt", n) }
}

#[test]
fn empty_body_is_a_lone_root() {
    assert_eq!(make_graph(&vec![]), GraphNode::Root { label: fresh("root", 0), children: vec![] });
}

#[test]
fn statements_are_numbered_leaves() {
    let g = make_graph(&vec![plain(), plain(), plain()]);
    assert_eq!(g, GraphNode::Root { label: fresh("root", 0), children: vec![leaf(1), leaf(2), leaf(3)] });
}

#[test]
fn call_between_inter_block_syncs_is_external() {
    let body = vec![
        sync(SyncPointKind::InterBlock),
        call("f"),
        sync(SyncPointKind::InterBlock),
        sync(SyncPointKind::InterBlock),
        callback("cb"),
        sync(SyncPointKind::InterBlock),
        plain(),
    ];
    let g = make_graph(&body);
    assert_eq!(
        g,
        GraphNode::Root {
            label: fresh("root", 0),
            children: vec![
                GraphNode::ExtCall { label: name("f") },
                GraphNode::ExtCall { label: name("cb") },
                leaf(1),
            ],
        }
    );
}

#[test]
fn call_between_block_local_syncs_is_not_external() {
    let body = vec![sync(SyncPointKind::BlockLocal), call("f"), sync(SyncPointKind::InterBlock)];
    let g = make_graph(&body);
    assert_eq!(
        g,
        GraphNode::Root { label: fresh("root", 0), children: vec![leaf(1), leaf(2), leaf(3)] }
    );
}

#[test]
fn loop_before_sync_point_is_parallel_of_its_kind() {
    for (kind, node_kind) in [
        (SyncPointKind::BlockLocal, NodeKind::BlockLocal),
        (SyncPointKind::BlockCluster, NodeKind::ClusterLocal),
        (SyncPointKind::InterBlock, NodeKind::InterBlock),
    ] {
        let g = make_graph(&vec![for_loop("i", vec![plain()]), sync(kind)]);
        assert_eq!(
            g,
            GraphNode::Root {
                label: fresh("root", 0),
                children: vec![GraphNode::Container { label: name("i"), kind: node_kind, children: vec![leaf(1)] }],
            }
        );
    }
}

#[test]
fn after_parallel_loop_the_builder_goes_on_in_the_loop_body() {
    let body = vec![
        for_loop("i", vec![plain(), plain(), plain()]),
        sync(SyncPointKind::BlockCluster),
        plain(),
    ];
    let g = make_graph(&body);
    assert_eq!(
        g,
        GraphNode::Root {
            label: fresh("root", 0),
            children: vec![
                GraphNode::Container {
                    label: name("i"),
                    kind: NodeKind::ClusterLocal,
                    children: vec![leaf(1), leaf(2), leaf(3)],
                },
                leaf(4),
            ],
        }
    );
}

#[test]
fn sequential_loops_and_branches() {
    let body = vec![
        for_loop("j", vec![plain()]),
        Stmt::While { cond: Expr::Var { id: name("c"), i: Info::default() }, body: vec![plain()], i: Info::default() },
        Stmt::If {
            cond: Expr::Var { id: name("c"), i: Info::default() },
            thn: vec![plain()],
            els: vec![plain(), plain()],
            i: Info::default(),
        },
    ];
    let g = make_graph(&body);
    assert_eq!(
        g,
        GraphNode::Root {
            label: fresh("root", 0),
            children: vec![
                GraphNode::Container { label: name("j"), kind: NodeKind::Sequential, children: vec![leaf(1)] },
                GraphNode::Container { label: fresh("while", 2), kind: NodeKind::Sequential, children: vec![leaf(3)] },
                GraphNode::Container {
                    label: fresh("if", 4),
                    kind: NodeKind::Sequential,
                    children: vec![leaf(5), leaf(6), leaf(7)],
                },
            ],
        }
    );
}

fn leaf_labels(g: &GraphNode, out: &mut Vec<Name>) {
    match g {
        GraphNode::Root { children, .. } | GraphNode::Container { children, .. } => {
            for c in children {
                leaf_labels(c, out);
            }
        },
        GraphNode::ExtCall { .. } => {},
        GraphNode::Leaf { label } => out.push(label.clone()),
    }
}

fn count_nodes(g: &GraphNode) -> usize {
    match g {
        GraphNode::Root { children, .. } | GraphNode::Container { children, .. } => {
            1 + children.iter().map(count_nodes).sum::<usize>()
        },
        _ => 1,
    }
}

fn nested_body() -> Vec<Stmt> {
    vec![
        for_loop("i", vec![plain(), for_loop("k", vec![plain(), plain()]), sync(SyncPointKind::BlockLocal), plain()]),
        sync(SyncPointKind::InterBlock),
        Stmt::While {
            cond: Expr::Var { id: name("c"), i: Info::default() },
            body: vec![plain(), for_loop("m", vec![plain()])],
            i: Info::default(),
        },
    ]
}

#[test]
fn leaf_labels_are_distinct() {
    let g = make_graph(&nested_body());
    let mut labels = vec![];
    leaf_labels(&g, &mut labels);
    assert!(labels.len() >= 5);
    for a in 0..labels.len() {
        for b in (a + 1)..labels.len() {
            assert_ne!(labels[a], labels[b]);
        }
    }
}

#[test]
fn edges_number_one_less_than_nodes() {
    let g = make_graph(&nested_body());
    let text = g.to_graphviz_str();
    let edges = text.lines().filter(|l| l.contains(" -> ")).count();
    assert_eq!(edges + 1, count_nodes(&g));
}

#[test]
fn clone_keeps_graph() {
    let g = make_graph(&nested_body());
    assert_eq!(g.clone(), g);
}

#[test]
fn graphviz_text() {
    let body = vec![
        sync(SyncPointKind::InterBlock),
        call("f"),
        sync(SyncPointKind::InterBlock),
        Stmt::While { cond: Expr::Var { id: name("c"), i: Info::default() }, body: vec![plain()], i: Info::default() },
        for_loop("i", vec![plain()]),
        sync(SyncPointKind::BlockLocal),
    ];
    let g = make_graph(&body);
    let expected = "digraph G {\n  node [color=black, style=filled] root_0; // root node\n  node [style=dashed] ; // inter-block parallel nodes\n  node [style=bold] i; // block-local parallel nodes\n  node [style=dotted] ; // cluster-local parallel nodes\n  node [shape=diamond, style=\"\"] f; // external call nodes\n  node [shape=circle, style=\"\"]; // default nodes\n  root_0 -> f;\n  root_0 -> while_1;\n  root_0 -> i;\n  while_1 -> stmt_2;\n  i -> stmt_3;\n}";
    assert_eq!(g.to_graphviz_str(), expected);
}

#[test]
fn graphviz_lists_nodes_of_each_kind() {
    let b = for_loop("b", vec![for_loop("c", vec![plain()]), sync(SyncPointKind::BlockCluster)]);
    let body = vec![
        for_loop("a", vec![plain(), plain(), b, sync(SyncPointKind::InterBlock)]),
        sync(SyncPointKind::InterBlock),
    ];
    let text = make_graph(&body).to_graphviz_str();
    assert!(text.contains("node [style=dashed] a b b; // inter-block parallel nodes"));
    assert!(text.contains("node [style=dotted] c c; // cluster-local parallel nodes"));
    assert!(text.contains("node [style=bold] ; // block-local parallel nodes"));
}
