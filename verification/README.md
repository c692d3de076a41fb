# parpy (verified core)

A verified core of a compiler from Python to GPU code, written in Verus.

- `src/utils/`: identifiers (`Name`), source positions (`Info`), compilation
  errors, and text helpers (decimal numbers, joined lists).
- `src/py/ast.rs`: the types of the Python front end.
- `src/gpu/ast.rs`: the GPU syntax tree and its mathematical model (the same
  tree with sequences in place of vectors).
- `src/gpu/ast_builder.rs`: builders for GPU syntax.
- `src/gpu/free_vars.rs`: the free variables of a GPU statement.
- `src/callbacks/extract_callbacks.rs`: the pass that lifts Python callbacks
  out of host functions; `lifting_laws.rs` proves what the pass keeps.
- `src/ir/ast.rs`, `src/ir/graph_repr.rs`: the graph of the parallel
  structure of a function body and its Graphviz text; `graph_laws.rs` proves
  its laws.
- `app/lib.rs`: the one builder that needs floating point.

Each executable function states its result in its contract, over the models
of its arguments.
