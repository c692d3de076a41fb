//! The free variables of GPU statements: the variables that a statement
//! reads without binding them itself, each with the Python type of its
//! value (a scalar is a tensor of no dimension, a pointer to scalars a tensor
//! of the pointer's shape).

use vstd::prelude::*;

use crate::gpu::ast::{
    exprs_view, group_gpu_views, stmts_view, type_view, Expr, SpecExpr, SpecStmt, SpecType, Stmt, Type,
};
use crate::py::ast::{
    shapes_view, SpecTensorElemSize, SpecTensorShape, SpecType as PySpecType, TensorElemSize,
    TensorShape, Type as PyType,
};
use crate::utils::name::{lemma_names_view_push, names_view, Name, NameView};

verus! {

broadcast use group_gpu_views;

/// A free variable: its name and the Python type of its value.
pub type FreeVarView = (NameView, PySpecType);

pub open spec fn free_vars_view(fvs: Seq<(Name, PyType)>) -> Seq<FreeVarView> {
    fvs.map_values(|p: (Name, PyType)| (p.0@, p.1@))
}

/// The Python type of a value of the given GPU type: a scalar is a tensor of
/// no dimension, a pointer to scalars a tensor of the pointer's shape; other
/// values have no tensor type.
pub open spec fn spec_py_type_of(ty: SpecType) -> PySpecType {
    match ty {
        SpecType::Scalar { sz } => PySpecType::Tensor {
            sz: SpecTensorElemSize::Fixed { sz },
            shape: Seq::empty(),
        },
        SpecType::Pointer { ty, shape, .. } => match *ty {
            SpecType::Scalar { sz } => PySpecType::Tensor {
                sz: SpecTensorElemSize::Fixed { sz },
                shape: shape.map_values(|n: i64| SpecTensorShape::Num { n }),
            },
            _ => PySpecType::Unknown,
        },
        _ => PySpecType::Unknown,
    }
}

pub open spec fn has_var(fvs: Seq<FreeVarView>, id: NameView) -> bool {
    exists|k: int| 0 <= k < fvs.len() && (#[trigger] fvs[k]).0 == id
}

/// `fvs` with the variable `id` of type `ty` added at the end, unless it is
/// bound or already there.
pub open spec fn add_var(
    fvs: Seq<FreeVarView>,
    bound: Seq<NameView>,
    id: NameView,
    ty: SpecType,
) -> Seq<FreeVarView> {
    if bound.contains(id) || has_var(fvs, id) {
        fvs
    } else {
        fvs.push((id, spec_py_type_of(ty)))
    }
}

/// The free variables of `e` that are not bound and not in `fvs` yet, added
/// to `fvs` in the order in which they first occur.
pub open spec fn fv_expr(e: SpecExpr, bound: Seq<NameView>, fvs: Seq<FreeVarView>) -> Seq<
    FreeVarView,
>
    decreases e,
{
    match e {
        SpecExpr::Var { id, ty, .. } => add_var(fvs, bound, id, ty),
        SpecExpr::UnOp { arg, .. } => fv_expr(*arg, bound, fvs),
        SpecExpr::BinOp { lhs, rhs, .. } => fv_expr(*rhs, bound, fv_expr(*lhs, bound, fvs)),
        SpecExpr::ArrayAccess { target, idx, .. } => fv_expr(
            *idx,
            bound,
            fv_expr(*target, bound, fvs),
        ),
        SpecExpr::Call { args, .. } => fv_exprs(args, bound, fvs),
        SpecExpr::PyCallback { args, .. } => fv_exprs(args, bound, fvs),
        SpecExpr::Convert { e, .. } => fv_expr(*e, bound, fvs),
        SpecExpr::Assign { lhs, rhs, .. } => fv_expr(*rhs, bound, fv_expr(*lhs, bound, fvs)),
        _ => fvs,
    }
}

pub open spec fn fv_exprs(es: Seq<SpecExpr>, bound: Seq<NameView>, fvs: Seq<FreeVarView>) -> Seq<
    FreeVarView,
>
    decreases es,
{
    if es.len() == 0 {
        fvs
    } else {
        fv_expr(es.last(), bound, fv_exprs(es.drop_last(), bound, fvs))
    }
}

/// The free variables of a statement, added to `fvs`. A loop binds its
/// variable in its condition, step and body; a definition binds its name in
/// the statements after it in the same block.
pub open spec fn fv_stmt(s: SpecStmt, bound: Seq<NameView>, fvs: Seq<FreeVarView>) -> Seq<
    FreeVarView,
>
    decreases s,
{
    match s {
        SpecStmt::Definition { expr, .. } => fv_expr(expr, bound, fvs),
        SpecStmt::For { var, init, cond, incr, body, .. } => {
            let inner = bound.push(var);
            fv_block(
                body,
                inner,
                fv_expr(incr, inner, fv_expr(cond, inner, fv_expr(init, bound, fvs))),
            ).0
        },
        SpecStmt::If { cond, thn, els, .. } => fv_block(
            els,
            bound,
            fv_block(thn, bound, fv_expr(cond, bound, fvs)).0,
        ).0,
        SpecStmt::While { cond, body, .. } => fv_block(body, bound, fv_expr(cond, bound, fvs)).0,
        SpecStmt::Return { value, .. } => fv_expr(value, bound, fvs),
        SpecStmt::Expr { e, .. } => fv_expr(e, bound, fvs),
    }
}

/// The names bound after `s`, for the statements that follow it.
pub open spec fn bound_after(s: SpecStmt, bound: Seq<NameView>) -> Seq<NameView> {
    match s {
        SpecStmt::Definition { id, .. } => bound.push(id),
        _ => bound,
    }
}

/// The free variables of a block, added to `fvs`, and the names bound at its
/// end.
pub open spec fn fv_block(ss: Seq<SpecStmt>, bound: Seq<NameView>, fvs: Seq<FreeVarView>) -> (Seq<
    FreeVarView,
>, Seq<NameView>)
    decreases ss,
{
    if ss.len() == 0 {
        (fvs, bound)
    } else {
        let (f, b) = fv_block(ss.drop_last(), bound, fvs);
        (fv_stmt(ss.last(), b, f), bound_after(ss.last(), b))
    }
}

/// The free variables of a statement, each once, in the order in which
/// they first occur.
pub open spec fn spec_free_vars(s: SpecStmt) -> Seq<FreeVarView> {
    fv_stmt(s, Seq::empty(), Seq::empty())
}

fn py_type_of(ty: &Type) -> (r: PyType)
    ensures
        r@ == spec_py_type_of(ty@),
{
    match ty {
        Type::Scalar { sz } => {
            let dims: Vec<TensorShape> = Vec::new();
            assert(shapes_view(dims@) =~= Seq::<SpecTensorShape>::empty());
            PyType::Tensor { sz: TensorElemSize::Fixed { sz: *sz }, shape: dims }
        },
        Type::Pointer { ty: elem, shape, .. } => match &**elem {
            Type::Scalar { sz } => {
                let mut dims: Vec<TensorShape> = Vec::new();
                for k in 0..shape.len()
                    invariant
                        dims@.len() == k,
                        forall|j: int| 0 <= j < k ==> (#[trigger] dims@[j])@ == (SpecTensorShape::Num { n: shape@[j] }),
                {
                    dims.push(TensorShape::Num { n: shape[k] });
                }
                assert(shapes_view(dims@) =~= shape@.map_values(|n: i64| SpecTensorShape::Num { n }));
                assert(type_view(**elem) == SpecType::Scalar { sz: *sz });
                PyType::Tensor { sz: TensorElemSize::Fixed { sz: *sz }, shape: dims }
            },
            _ => PyType::Unknown,
        },
        _ => PyType::Unknown,
    }
}

fn is_bound(bound: &Vec<Name>, id: &Name) -> (r: bool)
    ensures
        r == names_view(bound@).contains(id@),
{
    for k in 0..bound.len()
        invariant
            forall|j: int| 0 <= j < k ==> bound@[j]@ != id@,
    {
        if bound[k].eq_name(id) {
            assert(names_view(bound@)[k as int] == id@);
            return true;
        }
    }
    assert(!names_view(bound@).contains(id@));
    false
}

fn is_listed(fvs: &Vec<(Name, PyType)>, id: &Name) -> (r: bool)
    ensures
        r == has_var(free_vars_view(fvs@), id@),
{
    for k in 0..fvs.len()
        invariant
            forall|j: int| 0 <= j < k ==> fvs@[j].0@ != id@,
    {
        if fvs[k].0.eq_name(id) {
            assert(free_vars_view(fvs@)[k as int].0 == id@);
            return true;
        }
    }
    assert(!has_var(free_vars_view(fvs@), id@));
    false
}

fn collect_expr(e: &Expr, bound: &Vec<Name>, fvs: &mut Vec<(Name, PyType)>)
    ensures
        free_vars_view(final(fvs)@) == fv_expr(e@, names_view(bound@), free_vars_view(old(fvs)@)),
    decreases e,
{
    match e {
        Expr::Var { id, ty, .. } => {
            if !is_bound(bound, id) && !is_listed(fvs, id) {
                let ghost before = fvs@;
                fvs.push((id.clone(), py_type_of(ty)));
                assert(free_vars_view(fvs@) =~= free_vars_view(before).push((id@, spec_py_type_of(ty@))));
            }
        },
        Expr::UnOp { arg, .. } => collect_expr(arg, bound, fvs),
        Expr::BinOp { lhs, rhs, .. } => {
            collect_expr(lhs, bound, fvs);
            collect_expr(rhs, bound, fvs);
        },
        Expr::ArrayAccess { target, idx, .. } => {
            collect_expr(target, bound, fvs);
            collect_expr(idx, bound, fvs);
        },
        Expr::Call { args, .. } | Expr::PyCallback { args, .. } => {
            let ghost start = free_vars_view(fvs@);
            let ghost av = exprs_view(args@);
            for k in 0..args.len()
                invariant
                    decreases_to!(*e => *args),
                    av == exprs_view(args@),
                    free_vars_view(fvs@) == fv_exprs(av.take(k as int), names_view(bound@), start),
            {
                proof {
                    assert(decreases_to!(args => args@));
                    assert(decreases_to!(args@ => args@[k as int]));
                }
                collect_expr(&args[k], bound, fvs);
                assert(av.take(k + 1).drop_last() =~= av.take(k as int));
            }
            assert(av.take(args.len() as int) =~= av);
        },
        Expr::Convert { e: inner, .. } => collect_expr(inner, bound, fvs),
        Expr::Assign { lhs, rhs, .. } => {
            collect_expr(lhs, bound, fvs);
            collect_expr(rhs, bound, fvs);
        },
        _ => {},
    }
}

fn collect_stmt(s: &Stmt, bound: &mut Vec<Name>, fvs: &mut Vec<(Name, PyType)>)
    ensures
        final(bound)@ == old(bound)@,
        free_vars_view(final(fvs)@) == fv_stmt(
            s@,
            names_view(old(bound)@),
            free_vars_view(old(fvs)@),
        ),
    decreases s,
{
    let ghost b0 = names_view(bound@);
    let ghost f0 = free_vars_view(fvs@);
    match s {
        Stmt::Definition { expr, .. } => collect_expr(expr, bound, fvs),
        Stmt::For { var, init, cond, incr, body, .. } => {
            collect_expr(init, bound, fvs);
            let ghost f1 = free_vars_view(fvs@);
            assert(f1 == fv_expr(init@, b0, f0));
            proof {
                lemma_names_view_push(bound@, *var);
            }
            bound.push(var.clone());
            let ghost inner = names_view(bound@);
            assert(inner == b0.push(var@));
            collect_expr(cond, bound, fvs);
            collect_expr(incr, bound, fvs);
            let ghost f3 = free_vars_view(fvs@);
            assert(f3 == fv_expr(incr@, inner, fv_expr(cond@, inner, f1)));
            proof {
                assert(decreases_to!(*s => s->For_body));
            }
            collect_block(body, bound, fvs);
            assert(free_vars_view(fvs@) == fv_block(stmts_view(body@), inner, f3).0);
            bound.pop();
            assert(free_vars_view(fvs@) == fv_stmt(s@, b0, f0));
        },
        Stmt::If { cond, thn, els, .. } => {
            collect_expr(cond, bound, fvs);
            proof {
                assert(decreases_to!(*s => s->thn));
                assert(decreases_to!(*s => s->els));
            }
            collect_block(thn, bound, fvs);
            collect_block(els, bound, fvs);
            assert(free_vars_view(fvs@) == fv_stmt(s@, b0, f0));
        },
        Stmt::While { cond, body, .. } => {
            collect_expr(cond, bound, fvs);
            proof {
                assert(decreases_to!(*s => s->While_body));
            }
            collect_block(body, bound, fvs);
            assert(free_vars_view(fvs@) == fv_stmt(s@, b0, f0));
        },
        Stmt::Return { value, .. } => collect_expr(value, bound, fvs),
        Stmt::Expr { e, .. } => collect_expr(e, bound, fvs),
    }
}

fn collect_block(ss: &Vec<Stmt>, bound: &mut Vec<Name>, fvs: &mut Vec<(Name, PyType)>)
    ensures
        final(bound)@ == old(bound)@,
        free_vars_view(final(fvs)@) == fv_block(
            stmts_view(ss@),
            names_view(old(bound)@),
            free_vars_view(old(fvs)@),
        ).0,
    decreases ss,
{
    let ghost b0 = bound@;
    let ghost f0 = free_vars_view(fvs@);
    let ghost sv = stmts_view(ss@);
    let n0 = bound.len();
    for k in 0..ss.len()
        invariant
            n0 == b0.len(),
            sv == stmts_view(ss@),
            bound@.len() >= n0,
            bound@.subrange(0, n0 as int) == b0,
            (free_vars_view(fvs@), names_view(bound@)) == fv_block(
                sv.take(k as int),
                names_view(b0),
                f0,
            ),
    {
        proof {
            assert(decreases_to!(ss => ss@));
            assert(decreases_to!(ss@ => ss@[k as int]));
            assert(sv.take(k + 1).drop_last() =~= sv.take(k as int));
            assert(sv.take(k + 1).last() == sv[k as int]);
        }
        collect_stmt(&ss[k], bound, fvs);
        if let Stmt::Definition { id, .. } = &ss[k] {
            proof {
                lemma_names_view_push(bound@, *id);
            }
            let ghost before = bound@;
            bound.push(id.clone());
            assert(bound@.subrange(0, n0 as int) =~= before.subrange(0, n0 as int));
        }
    }
    bound.truncate(n0);
    assert(bound@ =~= b0);
    assert(sv.take(ss.len() as int) =~= sv);
}

/// The free variables of a statement, each once, with the Python types of
/// their values, in the order in which they first occur.
pub fn free_vars(s: &Stmt) -> (r: Vec<(Name, PyType)>)
    ensures
        free_vars_view(r@) == spec_free_vars(s@),
{
    let mut bound: Vec<Name> = Vec::new();
    let mut fvs: Vec<(Name, PyType)> = Vec::new();
    assert(names_view(bound@) =~= Seq::<NameView>::empty());
    assert(free_vars_view(fvs@) =~= Seq::<FreeVarView>::empty());
    collect_stmt(s, &mut bound, &mut fvs);
    fvs
}

} // verus!
