pub mod ast;
pub mod ast_builder;
pub mod free_vars;
pub mod free_vars_laws;
