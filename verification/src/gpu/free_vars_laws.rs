//! Laws of free variables: a variable is listed exactly when it occurs in
//! the statement outside the scope of any binding of it.

use vstd::prelude::*;

use crate::gpu::ast::{SpecExpr, SpecStmt, SpecType};
use crate::gpu::free_vars::{
    add_var, fv_block, fv_expr, fv_exprs, fv_stmt, has_var, spec_free_vars,
    FreeVarView,
};
use crate::utils::name::NameView;

verus! {

/// `x` occurs in `e` as a variable that `bound` does not bind, at any depth.
pub open spec fn occurs_free_expr(e: SpecExpr, bound: Seq<NameView>, x: NameView) -> bool
    decreases e,
{
    match e {
        SpecExpr::Var { id, .. } => id == x && !bound.contains(x),
        SpecExpr::UnOp { arg, .. } => occurs_free_expr(*arg, bound, x),
        SpecExpr::BinOp { lhs, rhs, .. } => occurs_free_expr(*lhs, bound, x) || occurs_free_expr(*rhs, bound, x),
        SpecExpr::ArrayAccess { target, idx, .. } => occurs_free_expr(*target, bound, x)
            || occurs_free_expr(*idx, bound, x),
        SpecExpr::Call { args, .. } => occurs_free_exprs(args, bound, x),
        SpecExpr::PyCallback { args, .. } => occurs_free_exprs(args, bound, x),
        SpecExpr::Convert { e, .. } => occurs_free_expr(*e, bound, x),
        SpecExpr::Assign { lhs, rhs, .. } => occurs_free_expr(*lhs, bound, x) || occurs_free_expr(*rhs, bound, x),
        _ => false,
    }
}

pub open spec fn occurs_free_exprs(es: Seq<SpecExpr>, bound: Seq<NameView>, x: NameView) -> bool
    decreases es,
{
    es.len() > 0 && (occurs_free_exprs(es.drop_last(), bound, x) || occurs_free_expr(es.last(), bound, x))
}

/// The names bound after the statements `ss`: `bound` and the names that
/// the definitions among them introduce.
pub open spec fn bound_in_block(ss: Seq<SpecStmt>, bound: Seq<NameView>) -> Seq<NameView>
    decreases ss.len(),
{
    if ss.len() == 0 {
        bound
    } else {
        let b = bound_in_block(ss.drop_last(), bound);
        match ss.last() {
            SpecStmt::Definition { id, .. } => b.push(id),
            _ => b,
        }
    }
}

/// `x` occurs free in `s`: a loop binds its variable in its condition, step
/// and body, and a definition binds its name in the statements after it in
/// its block.
pub open spec fn occurs_free_stmt(s: SpecStmt, bound: Seq<NameView>, x: NameView) -> bool
    decreases s,
{
    match s {
        SpecStmt::Definition { expr, .. } => occurs_free_expr(expr, bound, x),
        SpecStmt::For { var, init, cond, incr, body, .. } => occurs_free_expr(init, bound, x)
            || occurs_free_expr(cond, bound.push(var), x) || occurs_free_expr(incr, bound.push(var), x)
            || occurs_free_block(body, bound.push(var), x),
        SpecStmt::If { cond, thn, els, .. } => occurs_free_expr(cond, bound, x)
            || occurs_free_block(thn, bound, x) || occurs_free_block(els, bound, x),
        SpecStmt::While { cond, body, .. } => occurs_free_expr(cond, bound, x)
            || occurs_free_block(body, bound, x),
        SpecStmt::Return { value, .. } => occurs_free_expr(value, bound, x),
        SpecStmt::Expr { e, .. } => occurs_free_expr(e, bound, x),
    }
}

pub open spec fn occurs_free_block(ss: Seq<SpecStmt>, bound: Seq<NameView>, x: NameView) -> bool
    decreases ss,
{
    ss.len() > 0 && (occurs_free_block(ss.drop_last(), bound, x) || occurs_free_stmt(
        ss.last(),
        bound_in_block(ss.drop_last(), bound),
        x,
    ))
}

proof fn lemma_add_var_has(fvs: Seq<FreeVarView>, bound: Seq<NameView>, id: NameView, ty: SpecType, x: NameView)
    ensures
        has_var(add_var(fvs, bound, id, ty), x) == (has_var(fvs, x) || (id == x && !bound.contains(x))),
{
    let r = add_var(fvs, bound, id, ty);
    if !(bound.contains(id) || has_var(fvs, id)) {
        if has_var(fvs, x) {
            let k = choose|k: int| 0 <= k < fvs.len() && (#[trigger] fvs[k]).0 == x;
            assert(r[k] == fvs[k]);
        }
        if id == x {
            assert(r[fvs.len() as int].0 == x);
        }
        if has_var(r, x) {
            let k = choose|k: int| 0 <= k < r.len() && (#[trigger] r[k]).0 == x;
            if k < fvs.len() {
                assert(r[k] == fvs[k]);
            }
        }
    }
}

/// A variable is listed after an expression exactly when it was listed
/// before or occurs free in the expression.
pub proof fn lemma_fv_expr_exact(e: SpecExpr, bound: Seq<NameView>, fvs: Seq<FreeVarView>, x: NameView)
    ensures
        has_var(fv_expr(e, bound, fvs), x) == (has_var(fvs, x) || occurs_free_expr(e, bound, x)),
    decreases e,
{
    match e {
        SpecExpr::Var { id, ty, .. } => lemma_add_var_has(fvs, bound, id, ty, x),
        SpecExpr::UnOp { arg, .. } => lemma_fv_expr_exact(*arg, bound, fvs, x),
        SpecExpr::BinOp { lhs, rhs, .. } => {
            lemma_fv_expr_exact(*lhs, bound, fvs, x);
            lemma_fv_expr_exact(*rhs, bound, fv_expr(*lhs, bound, fvs), x);
        },
        SpecExpr::ArrayAccess { target, idx, .. } => {
            lemma_fv_expr_exact(*target, bound, fvs, x);
            lemma_fv_expr_exact(*idx, bound, fv_expr(*target, bound, fvs), x);
        },
        SpecExpr::Call { args, .. } => lemma_fv_exprs_exact(args, bound, fvs, x),
        SpecExpr::PyCallback { args, .. } => lemma_fv_exprs_exact(args, bound, fvs, x),
        SpecExpr::Convert { e: inner, .. } => lemma_fv_expr_exact(*inner, bound, fvs, x),
        SpecExpr::Assign { lhs, rhs, .. } => {
            lemma_fv_expr_exact(*lhs, bound, fvs, x);
            lemma_fv_expr_exact(*rhs, bound, fv_expr(*lhs, bound, fvs), x);
        },
        _ => {},
    }
}

pub proof fn lemma_fv_exprs_exact(es: Seq<SpecExpr>, bound: Seq<NameView>, fvs: Seq<FreeVarView>, x: NameView)
    ensures
        has_var(fv_exprs(es, bound, fvs), x) == (has_var(fvs, x) || occurs_free_exprs(es, bound, x)),
    decreases es,
{
    if es.len() > 0 {
        lemma_fv_exprs_exact(es.drop_last(), bound, fvs, x);
        lemma_fv_expr_exact(es.last(), bound, fv_exprs(es.drop_last(), bound, fvs), x);
    }
}

/// The same for a statement.
pub proof fn lemma_fv_stmt_exact(s: SpecStmt, bound: Seq<NameView>, fvs: Seq<FreeVarView>, x: NameView)
    ensures
        has_var(fv_stmt(s, bound, fvs), x) == (has_var(fvs, x) || occurs_free_stmt(s, bound, x)),
    decreases s,
{
    match s {
        SpecStmt::Definition { expr, .. } => lemma_fv_expr_exact(expr, bound, fvs, x),
        SpecStmt::For { var, init, cond, incr, body, .. } => {
            let inner = bound.push(var);
            lemma_fv_expr_exact(init, bound, fvs, x);
            let f1 = fv_expr(init, bound, fvs);
            lemma_fv_expr_exact(cond, inner, f1, x);
            let f2 = fv_expr(cond, inner, f1);
            lemma_fv_expr_exact(incr, inner, f2, x);
            lemma_fv_block_exact(body, inner, fv_expr(incr, inner, f2), x);
        },
        SpecStmt::If { cond, thn, els, .. } => {
            lemma_fv_expr_exact(cond, bound, fvs, x);
            let f1 = fv_expr(cond, bound, fvs);
            lemma_fv_block_exact(thn, bound, f1, x);
            lemma_fv_block_exact(els, bound, fv_block(thn, bound, f1).0, x);
        },
        SpecStmt::While { cond, body, .. } => {
            lemma_fv_expr_exact(cond, bound, fvs, x);
            lemma_fv_block_exact(body, bound, fv_expr(cond, bound, fvs), x);
        },
        SpecStmt::Return { value, .. } => lemma_fv_expr_exact(value, bound, fvs, x),
        SpecStmt::Expr { e, .. } => lemma_fv_expr_exact(e, bound, fvs, x),
    }
}

proof fn lemma_fv_block_bound(ss: Seq<SpecStmt>, bound: Seq<NameView>, fvs: Seq<FreeVarView>)
    ensures
        fv_block(ss, bound, fvs).1 == bound_in_block(ss, bound),
    decreases ss.len(),
{
    if ss.len() > 0 {
        lemma_fv_block_bound(ss.drop_last(), bound, fvs);
    }
}

/// The same for a block.
pub proof fn lemma_fv_block_exact(ss: Seq<SpecStmt>, bound: Seq<NameView>, fvs: Seq<FreeVarView>, x: NameView)
    ensures
        has_var(fv_block(ss, bound, fvs).0, x) == (has_var(fvs, x) || occurs_free_block(ss, bound, x)),
    decreases ss,
{
    if ss.len() > 0 {
        lemma_fv_block_exact(ss.drop_last(), bound, fvs, x);
        lemma_fv_block_bound(ss.drop_last(), bound, fvs);
        let (f, b) = fv_block(ss.drop_last(), bound, fvs);
        lemma_fv_stmt_exact(ss.last(), b, f, x);
    }
}

/// The free variables of a statement are exactly the variables that occur
/// in it, at any depth, outside the scope of a binding of them.
pub proof fn lemma_free_vars_exact(s: SpecStmt, x: NameView)
    ensures
        has_var(spec_free_vars(s), x) == occurs_free_stmt(s, Seq::empty(), x),
{
    lemma_fv_stmt_exact(s, Seq::empty(), Seq::empty(), x);
}

/// No name is listed twice in `fvs`.
pub open spec fn distinct_names(fvs: Seq<FreeVarView>) -> bool {
    forall|a: int, b: int| 0 <= a < b < fvs.len() ==> #[trigger] fvs[a].0 != #[trigger] fvs[b].0
}

/// `g` is `f` with entries added at the end.
pub open spec fn extends(f: Seq<FreeVarView>, g: Seq<FreeVarView>) -> bool {
    f.len() <= g.len() && g.take(f.len() as int) == f
}

proof fn lemma_extends_trans(f: Seq<FreeVarView>, g: Seq<FreeVarView>, h: Seq<FreeVarView>)
    requires
        extends(f, g),
        extends(g, h),
    ensures
        extends(f, h),
{
    assert(h.take(f.len() as int) =~= h.take(g.len() as int).take(f.len() as int));
}

proof fn lemma_add_var_grows(fvs: Seq<FreeVarView>, bound: Seq<NameView>, id: NameView, ty: SpecType)
    requires
        distinct_names(fvs),
    ensures
        distinct_names(add_var(fvs, bound, id, ty)),
        extends(fvs, add_var(fvs, bound, id, ty)),
{
    let r = add_var(fvs, bound, id, ty);
    assert(fvs.take(fvs.len() as int) =~= fvs);
    if !(bound.contains(id) || has_var(fvs, id)) {
        assert(r.take(fvs.len() as int) =~= fvs);
        assert forall|a: int, b: int| 0 <= a < b < r.len() implies #[trigger] r[a].0 != #[trigger] r[b].0 by {
            if b == fvs.len() {
                assert(r[a] == fvs[a]);
                if r[a].0 == id {
                    assert(has_var(fvs, id));
                }
            } else {
                assert(r[a] == fvs[a] && r[b] == fvs[b]);
            }
        }
    }
}

proof fn lemma_fv_expr_grows(e: SpecExpr, bound: Seq<NameView>, fvs: Seq<FreeVarView>)
    requires
        distinct_names(fvs),
    ensures
        distinct_names(fv_expr(e, bound, fvs)),
        extends(fvs, fv_expr(e, bound, fvs)),
    decreases e,
{
    assert(fvs.take(fvs.len() as int) =~= fvs);
    match e {
        SpecExpr::Var { id, ty, .. } => lemma_add_var_grows(fvs, bound, id, ty),
        SpecExpr::UnOp { arg, .. } => lemma_fv_expr_grows(*arg, bound, fvs),
        SpecExpr::BinOp { lhs, rhs, .. } => {
            lemma_fv_expr_grows(*lhs, bound, fvs);
            let f1 = fv_expr(*lhs, bound, fvs);
            lemma_fv_expr_grows(*rhs, bound, f1);
            lemma_extends_trans(fvs, f1, fv_expr(*rhs, bound, f1));
        },
        SpecExpr::ArrayAccess { target, idx, .. } => {
            lemma_fv_expr_grows(*target, bound, fvs);
            let f1 = fv_expr(*target, bound, fvs);
            lemma_fv_expr_grows(*idx, bound, f1);
            lemma_extends_trans(fvs, f1, fv_expr(*idx, bound, f1));
        },
        SpecExpr::Call { args, .. } => lemma_fv_exprs_grows(args, bound, fvs),
        SpecExpr::PyCallback { args, .. } => lemma_fv_exprs_grows(args, bound, fvs),
        SpecExpr::Convert { e, .. } => lemma_fv_expr_grows(*e, bound, fvs),
        SpecExpr::Assign { lhs, rhs, .. } => {
            lemma_fv_expr_grows(*lhs, bound, fvs);
            let f1 = fv_expr(*lhs, bound, fvs);
            lemma_fv_expr_grows(*rhs, bound, f1);
            lemma_extends_trans(fvs, f1, fv_expr(*rhs, bound, f1));
        },
        _ => {},
    }
}

proof fn lemma_fv_exprs_grows(es: Seq<SpecExpr>, bound: Seq<NameView>, fvs: Seq<FreeVarView>)
    requires
        distinct_names(fvs),
    ensures
        distinct_names(fv_exprs(es, bound, fvs)),
        extends(fvs, fv_exprs(es, bound, fvs)),
    decreases es,
{
    assert(fvs.take(fvs.len() as int) =~= fvs);
    if es.len() > 0 {
        lemma_fv_exprs_grows(es.drop_last(), bound, fvs);
        let f1 = fv_exprs(es.drop_last(), bound, fvs);
        lemma_fv_expr_grows(es.last(), bound, f1);
        lemma_extends_trans(fvs, f1, fv_expr(es.last(), bound, f1));
    }
}

proof fn lemma_fv_stmt_grows(s: SpecStmt, bound: Seq<NameView>, fvs: Seq<FreeVarView>)
    requires
        distinct_names(fvs),
    ensures
        distinct_names(fv_stmt(s, bound, fvs)),
        extends(fvs, fv_stmt(s, bound, fvs)),
    decreases s,
{
    match s {
        SpecStmt::Definition { expr, .. } => lemma_fv_expr_grows(expr, bound, fvs),
        SpecStmt::For { var, init, cond, incr, body, .. } => {
            let inner = bound.push(var);
            lemma_fv_expr_grows(init, bound, fvs);
            let f1 = fv_expr(init, bound, fvs);
            lemma_fv_expr_grows(cond, inner, f1);
            let f2 = fv_expr(cond, inner, f1);
            lemma_fv_expr_grows(incr, inner, f2);
            let f3 = fv_expr(incr, inner, f2);
            lemma_fv_block_grows(body, inner, f3);
            lemma_extends_trans(fvs, f1, f2);
            lemma_extends_trans(fvs, f2, f3);
            lemma_extends_trans(fvs, f3, fv_block(body, inner, f3).0);
        },
        SpecStmt::If { cond, thn, els, .. } => {
            lemma_fv_expr_grows(cond, bound, fvs);
            let f1 = fv_expr(cond, bound, fvs);
            lemma_fv_block_grows(thn, bound, f1);
            let f2 = fv_block(thn, bound, f1).0;
            lemma_fv_block_grows(els, bound, f2);
            lemma_extends_trans(fvs, f1, f2);
            lemma_extends_trans(fvs, f2, fv_block(els, bound, f2).0);
        },
        SpecStmt::While { cond, body, .. } => {
            lemma_fv_expr_grows(cond, bound, fvs);
            let f1 = fv_expr(cond, bound, fvs);
            lemma_fv_block_grows(body, bound, f1);
            lemma_extends_trans(fvs, f1, fv_block(body, bound, f1).0);
        },
        SpecStmt::Return { value, .. } => lemma_fv_expr_grows(value, bound, fvs),
        SpecStmt::Expr { e, .. } => lemma_fv_expr_grows(e, bound, fvs),
    }
}

proof fn lemma_fv_block_grows(ss: Seq<SpecStmt>, bound: Seq<NameView>, fvs: Seq<FreeVarView>)
    requires
        distinct_names(fvs),
    ensures
        distinct_names(fv_block(ss, bound, fvs).0),
        extends(fvs, fv_block(ss, bound, fvs).0),
    decreases ss,
{
    assert(fvs.take(fvs.len() as int) =~= fvs);
    if ss.len() > 0 {
        lemma_fv_block_grows(ss.drop_last(), bound, fvs);
        let (f, b) = fv_block(ss.drop_last(), bound, fvs);
        lemma_fv_stmt_grows(ss.last(), b, f);
        lemma_extends_trans(fvs, f, fv_stmt(ss.last(), b, f));
    }
}

/// Each free variable of a statement is listed once: no two entries of
/// `spec_free_vars(s)` name the same variable.
pub proof fn lemma_free_vars_distinct(s: SpecStmt)
    ensures
        distinct_names(spec_free_vars(s)),
{
    lemma_fv_stmt_grows(s, Seq::empty(), Seq::empty());
}

} // verus!
