//! Short builders for GPU syntax at the default source position.

use vstd::prelude::*;

use crate::gpu::ast::{
    BinOp, Dim, ElemSize, Expr, MemSpace, SpecExpr, SpecStmt, SpecType, Stmt, Type, UnOp,
    group_gpu_views, stmts_view,
};
use crate::utils::info::Info;
use crate::utils::name::{Name, NameView};

verus! {

broadcast use group_gpu_views;

/// A plain name with the given text.
pub fn id(s: &str) -> (r: Name)
    ensures
        r@ == (NameView { sym: s@, id: None }),
{
    Name::new(s.to_string())
}

pub fn scalar(sz: ElemSize) -> (r: Type)
    ensures
        r@ == (SpecType::Scalar { sz }),
{
    Type::Scalar { sz }
}

pub fn bool_ty() -> (r: Type)
    ensures
        r@ == (SpecType::Scalar { sz: ElemSize::Bool }),
{
    scalar(ElemSize::Bool)
}

pub fn pointer(ty: Type, shape: Vec<i64>, mem: MemSpace) -> (r: Type)
    ensures
        r@ == (SpecType::Pointer { ty: Box::new(ty@), shape: shape@, mem }),
{
    Type::Pointer { ty: Box::new(ty), shape, mem }
}

/// A variable with a plain name, at the default position.
pub fn var(s: &str, ty: Type) -> (r: Expr)
    ensures
        r@ == (SpecExpr::Var {
            id: NameView { sym: s@, id: None },
            ty: ty@,
            i: Info::spec_default(),
        }),
{
    Expr::Var { id: id(s), ty, i: Info::default() }
}

pub fn bool_expr(v: bool) -> (r: Expr)
    ensures
        r@ == (SpecExpr::Bool {
            v,
            ty: SpecType::Scalar { sz: ElemSize::Bool },
            i: Info::spec_default(),
        }),
{
    Expr::Bool { v, ty: scalar(ElemSize::Bool), i: Info::default() }
}

/// An integer literal of the given element size, 64-bit signed when none is
/// given.
pub fn int_expr(v: i128, sz: Option<ElemSize>) -> (r: Expr)
    ensures
        r@ == (SpecExpr::Int {
            v,
            ty: SpecType::Scalar {
                sz: match sz {
                    Some(s) => s,
                    None => ElemSize::I64,
                },
            },
            i: Info::spec_default(),
        }),
{
    let sz = match sz {
        Some(s) => s,
        None => ElemSize::I64,
    };
    let ty = scalar(sz);
    Expr::Int { v, ty, i: Info::default() }
}

pub fn unop(op: UnOp, arg: Expr, ty: Type) -> (r: Expr)
    ensures
        r@ == (SpecExpr::UnOp { op, arg: Box::new(arg@), ty: ty@, i: Info::spec_default() }),
{
    Expr::UnOp { op, arg: Box::new(arg), ty, i: Info::default() }
}

pub fn binop(l: Expr, op: BinOp, r: Expr, ty: Type) -> (res: Expr)
    ensures
        res@ == (SpecExpr::BinOp {
            lhs: Box::new(l@),
            op,
            rhs: Box::new(r@),
            ty: ty@,
            i: Info::spec_default(),
        }),
{
    Expr::BinOp { lhs: Box::new(l), op, rhs: Box::new(r), ty, i: Info::default() }
}

/// The index of the running thread in a dimension of its block.
pub fn thread_idx(dim: Dim) -> (r: Expr)
    ensures
        r@ == (SpecExpr::ThreadIdx {
            dim,
            ty: SpecType::Scalar { sz: ElemSize::I64 },
            i: Info::spec_default(),
        }),
{
    Expr::ThreadIdx { dim, ty: scalar(ElemSize::I64), i: Info::default() }
}

/// The index of the running block in a dimension of the grid.
pub fn block_idx(dim: Dim) -> (r: Expr)
    ensures
        r@ == (SpecExpr::BlockIdx {
            dim,
            ty: SpecType::Scalar { sz: ElemSize::I64 },
            i: Info::spec_default(),
        }),
{
    Expr::BlockIdx { dim, ty: scalar(ElemSize::I64), i: Info::default() }
}

pub fn convert(ty: Type, e: Expr) -> (r: Expr)
    ensures
        r@ == (SpecExpr::Convert { e: Box::new(e@), ty: ty@ }),
{
    Expr::Convert { ty, e: Box::new(e) }
}

pub fn array_access(target: Expr, idx: Expr, ty: Type) -> (r: Expr)
    ensures
        r@ == (SpecExpr::ArrayAccess {
            target: Box::new(target@),
            idx: Box::new(idx@),
            ty: ty@,
            i: Info::spec_default(),
        }),
{
    Expr::ArrayAccess { target: Box::new(target), idx: Box::new(idx), ty, i: Info::default() }
}

/// The statement that assigns `expr` to `dst`; the assignment has the type
/// of `expr`.
pub fn assign(dst: Expr, expr: Expr) -> (r: Stmt)
    ensures
        r@ == (SpecStmt::Expr {
            e: SpecExpr::Assign {
                lhs: Box::new(dst@),
                rhs: Box::new(expr@),
                ty: expr@.ty(),
                i: Info::spec_default(),
            },
            i: Info::spec_default(),
        }),
{
    let ty = expr.get_type().clone();
    Stmt::Expr {
        e: Expr::Assign { lhs: Box::new(dst), rhs: Box::new(expr), ty, i: Info::default() },
        i: Info::default(),
    }
}

pub fn if_stmt(cond: Expr, thn: Vec<Stmt>, els: Vec<Stmt>) -> (r: Stmt)
    ensures
        r@ == (SpecStmt::If {
            cond: cond@,
            thn: stmts_view(thn@),
            els: stmts_view(els@),
            i: Info::spec_default(),
        }),
{
    Stmt::If { cond, thn, els, i: Info::default() }
}

} // verus!
