//! The intermediate representation of function bodies.

use vstd::prelude::*;

use crate::utils::info::Info;
use crate::utils::name::Name;

verus! {

/// How far a synchronization point reaches: the threads of one block, of a
/// cluster of blocks, or of all blocks.
#[derive(Clone, Copy, Debug, PartialEq, Eq, Structural)]
pub enum SyncPointKind {
    BlockLocal,
    BlockCluster,
    InterBlock,
}

/// An expression of the intermediate representation.
#[derive(Debug, PartialEq, Eq)]
pub enum Expr {
    Var { id: Name, i: Info },
    Int { v: i128, i: Info },
    Call { id: Name, args: Vec<Expr>, i: Info },
    PyCallback { id: Name, args: Vec<Expr>, i: Info },
}

/// A statement of the intermediate representation.
#[derive(Debug, PartialEq, Eq)]
pub enum Stmt {
    Definition { id: Name, expr: Expr, i: Info },
    Assign { dst: Expr, expr: Expr, i: Info },
    SyncPoint { kind: SyncPointKind, i: Info },
    For { var: Name, lo: Expr, hi: Expr, body: Vec<Stmt>, i: Info },
    While { cond: Expr, body: Vec<Stmt>, i: Info },
    If { cond: Expr, thn: Vec<Stmt>, els: Vec<Stmt>, i: Info },
    Expr { e: Expr, i: Info },
    Return { value: Expr, i: Info },
}

} // verus!
