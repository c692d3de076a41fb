//! A verified core of a Python-to-GPU compiler: abstract syntax trees for the
//! Python front end, the intermediate representation and the GPU back end,
//! the pass that lifts Python callbacks out of host code, builders for GPU
//! syntax, and a Graphviz view of the parallel structure of a program.

pub mod callbacks;
pub mod gpu;
pub mod ir;
pub mod py;
pub mod utils;
