pub mod ast;
pub mod graph_laws;
pub mod graph_repr;
pub mod graph_view;
