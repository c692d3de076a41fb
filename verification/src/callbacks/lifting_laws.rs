//! Laws of the pass that lifts Python callbacks out of host code.

use vstd::prelude::*;

use crate::callbacks::extract_callbacks::{
    error_at, lemma_collect_block_keeps, lemma_collect_stmt_keeps, misplaced_callback_msg, spec_add_callback_parameters, spec_apply, spec_apply_tops,
    spec_collect_block, spec_collect_stmt, spec_extract_callback, spec_fv_args,
    spec_generate_callback, spec_insert_callback_parameters, spec_py_to_gpu_type, SpecCallback,
};
use crate::gpu::ast::{MemSpace, SpecExpr, SpecStmt, SpecTop, SpecType, Target};
use crate::gpu::free_vars_laws::{lemma_free_vars_exact, occurs_free_stmt};
use crate::gpu::free_vars::{
    has_var,
    add_var, fv_block, fv_expr, fv_exprs, fv_stmt, spec_free_vars, spec_py_type_of,
    FreeVarView,
};
use crate::py::ast::SpecTensorShape;
use crate::utils::err::SpecCompileError;
use crate::utils::info::Info;
use crate::utils::name::NameView;

verus! {

/// No statement of `s`, at any depth of its blocks, is a call of a Python
/// callback.
pub open spec fn callback_free(s: SpecStmt) -> bool
    decreases s,
{
    match s {
        SpecStmt::Expr { e: SpecExpr::PyCallback { .. }, .. } => false,
        SpecStmt::For { body, .. } => block_callback_free(body),
        SpecStmt::If { thn, els, .. } => block_callback_free(thn) && block_callback_free(els),
        SpecStmt::While { body, .. } => block_callback_free(body),
        _ => true,
    }
}

pub open spec fn block_callback_free(ss: Seq<SpecStmt>) -> bool
    decreases ss,
{
    if ss.len() == 0 {
        true
    } else {
        block_callback_free(ss.drop_last()) && callback_free(ss.last())
    }
}

/// The pass leaves no statement that calls a Python callback.
pub proof fn lemma_collect_stmt_callback_free(acc: Seq<SpecCallback>, s: SpecStmt)
    ensures
        spec_collect_stmt(acc, s) matches Ok((_, s2)) ==> callback_free(s2),
    decreases s,
{
    match s {
        SpecStmt::For { body, .. } => {
            if spec_extract_callback(body) is None {
                lemma_collect_block_callback_free(acc, body);
            }
        },
        SpecStmt::If { thn, els, .. } => {
            lemma_collect_block_callback_free(acc, thn);
            if let Ok((a, t)) = spec_collect_block(acc, thn) {
                lemma_collect_block_callback_free(a, els);
            }
        },
        SpecStmt::While { body, .. } => {
            lemma_collect_block_callback_free(acc, body);
        },
        _ => {},
    }
}

/// The same for a block of statements.
pub proof fn lemma_collect_block_callback_free(acc: Seq<SpecCallback>, ss: Seq<SpecStmt>)
    ensures
        spec_collect_block(acc, ss) matches Ok((_, out)) ==> block_callback_free(out),
    decreases ss,
{
    if ss.len() > 0 {
        lemma_collect_block_callback_free(acc, ss.drop_last());
        if let Ok((a, out)) = spec_collect_block(acc, ss.drop_last()) {
            lemma_collect_stmt_callback_free(a, ss.last());
            if let Ok((a2, s2)) = spec_collect_stmt(a, ss.last()) {
                assert(out.push(s2).drop_last() =~= out);
            }
        }
    }
}

/// The callbacks found in a definition are appended to those found before,
/// and a definition in which none is found comes back unchanged.
pub proof fn lemma_add_callback_parameters_keeps(acc: Seq<SpecCallback>, t: SpecTop)
    ensures
        spec_add_callback_parameters(acc, t) matches Ok((a, t2)) ==> {
            &&& a.len() >= acc.len()
            &&& a.take(acc.len() as int) == acc
            &&& a.len() == acc.len() ==> t2 == t
        },
{
    assert(acc.take(acc.len() as int) =~= acc);
    match t {
        SpecTop::FunDef { params, body, target, .. } => {
            lemma_collect_block_keeps(Seq::empty(), body);
            if let Ok((cbs, b)) = spec_collect_block(Seq::empty(), body) {
                if target == Target::Host {
                    assert((acc + cbs).take(acc.len() as int) =~= acc);
                    if cbs.len() == 0 {
                        assert(spec_insert_callback_parameters(params, cbs) =~= params);
                    }
                }
            }
        },
        _ => {},
    }
}

proof fn lemma_apply_tops_keeps(acc: Seq<SpecCallback>, ts: Seq<SpecTop>)
    ensures
        spec_apply_tops(acc, ts) matches Ok((a, out)) ==> {
            &&& a.len() >= acc.len()
            &&& a.take(acc.len() as int) == acc
            &&& a.len() == acc.len() ==> out == ts
        },
    decreases ts.len(),
{
    if ts.len() == 0 {
        assert(acc.take(acc.len() as int) =~= acc);
        assert(ts =~= Seq::<SpecTop>::empty());
    } else {
        lemma_apply_tops_keeps(acc, ts.drop_last());
        if let Ok((a, out)) = spec_apply_tops(acc, ts.drop_last()) {
            lemma_add_callback_parameters_keeps(a, ts.last());
            if let Ok((a2, t2)) = spec_add_callback_parameters(a, ts.last()) {
                assert(a2.take(acc.len() as int) =~= a2.take(a.len() as int).take(acc.len() as int));
                if a2.len() == acc.len() {
                    assert(out.push(t2) =~= ts);
                }
            }
        }
    }
}

/// A program in which no callback is used comes back unchanged.
pub proof fn lemma_apply_without_callbacks(ast: Seq<SpecTop>)
    ensures
        spec_apply(ast) matches Ok((cbs, out)) ==> (cbs.len() == 0 ==> out == ast),
{
    lemma_apply_tops_keeps(Seq::empty(), ast);
}

/// A host function whose body calls no Python callback, or another
/// definition.
pub open spec fn host_body_callback_free(t: SpecTop) -> bool {
    match t {
        SpecTop::FunDef { body, target, .. } => target == Target::Host ==> block_callback_free(body),
        _ => true,
    }
}

/// Every host function of the program is free of callback calls.
pub open spec fn host_bodies_callback_free(ts: Seq<SpecTop>) -> bool {
    forall|k: int| 0 <= k < ts.len() ==> host_body_callback_free(#[trigger] ts[k])
}

proof fn lemma_apply_tops_callback_free(acc: Seq<SpecCallback>, ts: Seq<SpecTop>)
    ensures
        spec_apply_tops(acc, ts) matches Ok((_, out)) ==> host_bodies_callback_free(out),
    decreases ts.len(),
{
    if ts.len() > 0 {
        lemma_apply_tops_callback_free(acc, ts.drop_last());
        if let Ok((a, out)) = spec_apply_tops(acc, ts.drop_last()) {
            let t = ts.last();
            if let SpecTop::FunDef { body, .. } = t {
                lemma_collect_block_callback_free(Seq::empty(), body);
            }
            if let Ok((a2, t2)) = spec_add_callback_parameters(a, t) {
                let o = out.push(t2);
                assert forall|k: int| 0 <= k < o.len() implies host_body_callback_free(#[trigger] o[k]) by {
                    if k < out.len() {
                        assert(o[k] == out[k]);
                    }
                }
            }
        }
    }
}

/// After the pass, no host function calls a Python callback in a statement
/// of its own: each such call has become a call through a parameter.
pub proof fn lemma_apply_callback_free(ast: Seq<SpecTop>)
    ensures
        spec_apply(ast) matches Ok((_, out)) ==> host_bodies_callback_free(out),
{
    lemma_apply_tops_callback_free(Seq::empty(), ast);
}

/// The Python type of a GPU value converts back to a GPU type; for a scalar,
/// and for a pointer to device memory of scalars with at least one
/// dimension, to the type it came from.
pub proof fn lemma_py_type_round_trip(t: SpecType, i: Info)
    ensures
        spec_py_to_gpu_type(spec_py_type_of(t), i) is Ok,
        t is Scalar ==> spec_py_to_gpu_type(spec_py_type_of(t), i) == Ok::<SpecType, SpecCompileError>(t),
        t matches SpecType::Pointer { ty, shape, mem } && *ty is Scalar && shape.len() > 0
            && mem == MemSpace::Device ==> spec_py_to_gpu_type(spec_py_type_of(t), i) == Ok::<
            SpecType,
            SpecCompileError,
        >(t),
{
    if let SpecType::Pointer { ty, shape, mem } = t {
        if let SpecType::Scalar { sz } = *ty {
            let dims = shape.map_values(|n: i64| SpecTensorShape::Num { n });
            assert(!(exists|k: int| 0 <= k < dims.len() && (#[trigger] dims[k]) is Symbol));
            assert(dims.map_values(|d: SpecTensorShape| d->n) =~= shape);
        }
    }
}

/// Every Python type in the list converts to a GPU type.
pub open spec fn all_convertible(fvs: Seq<FreeVarView>) -> bool {
    forall|k: int| 0 <= k < fvs.len() ==> spec_py_to_gpu_type(#[trigger] fvs[k].1, Info::spec_default()) is Ok
}

proof fn lemma_add_var_convertible(fvs: Seq<FreeVarView>, bound: Seq<NameView>, id: NameView, ty: SpecType)
    requires
        all_convertible(fvs),
    ensures
        all_convertible(add_var(fvs, bound, id, ty)),
{
    lemma_py_type_round_trip(ty, Info::spec_default());
    let r = add_var(fvs, bound, id, ty);
    assert forall|k: int| 0 <= k < r.len() implies spec_py_to_gpu_type(#[trigger] r[k].1, Info::spec_default()) is Ok by {
        if k < fvs.len() {
            assert(r[k] == fvs[k]);
        }
    }
}

proof fn lemma_fv_expr_convertible(e: SpecExpr, bound: Seq<NameView>, fvs: Seq<FreeVarView>)
    requires
        all_convertible(fvs),
    ensures
        all_convertible(fv_expr(e, bound, fvs)),
    decreases e,
{
    match e {
        SpecExpr::Var { id, ty, .. } => lemma_add_var_convertible(fvs, bound, id, ty),
        SpecExpr::UnOp { arg, .. } => lemma_fv_expr_convertible(*arg, bound, fvs),
        SpecExpr::BinOp { lhs, rhs, .. } => {
            lemma_fv_expr_convertible(*lhs, bound, fvs);
            lemma_fv_expr_convertible(*rhs, bound, fv_expr(*lhs, bound, fvs));
        },
        SpecExpr::ArrayAccess { target, idx, .. } => {
            lemma_fv_expr_convertible(*target, bound, fvs);
            lemma_fv_expr_convertible(*idx, bound, fv_expr(*target, bound, fvs));
        },
        SpecExpr::Call { args, .. } => lemma_fv_exprs_convertible(args, bound, fvs),
        SpecExpr::PyCallback { args, .. } => lemma_fv_exprs_convertible(args, bound, fvs),
        SpecExpr::Convert { e: inner, .. } => lemma_fv_expr_convertible(*inner, bound, fvs),
        SpecExpr::Assign { lhs, rhs, .. } => {
            lemma_fv_expr_convertible(*lhs, bound, fvs);
            lemma_fv_expr_convertible(*rhs, bound, fv_expr(*lhs, bound, fvs));
        },
        _ => {},
    }
}

proof fn lemma_fv_exprs_convertible(es: Seq<SpecExpr>, bound: Seq<NameView>, fvs: Seq<FreeVarView>)
    requires
        all_convertible(fvs),
    ensures
        all_convertible(fv_exprs(es, bound, fvs)),
    decreases es,
{
    if es.len() > 0 {
        lemma_fv_exprs_convertible(es.drop_last(), bound, fvs);
        lemma_fv_expr_convertible(es.last(), bound, fv_exprs(es.drop_last(), bound, fvs));
    }
}

proof fn lemma_fv_stmt_convertible(s: SpecStmt, bound: Seq<NameView>, fvs: Seq<FreeVarView>)
    requires
        all_convertible(fvs),
    ensures
        all_convertible(fv_stmt(s, bound, fvs)),
    decreases s,
{
    match s {
        SpecStmt::Definition { expr, .. } => lemma_fv_expr_convertible(expr, bound, fvs),
        SpecStmt::For { var, init, cond, incr, body, .. } => {
            let inner = bound.push(var);
            lemma_fv_expr_convertible(init, bound, fvs);
            let f1 = fv_expr(init, bound, fvs);
            lemma_fv_expr_convertible(cond, inner, f1);
            let f2 = fv_expr(cond, inner, f1);
            lemma_fv_expr_convertible(incr, inner, f2);
            lemma_fv_block_convertible(body, inner, fv_expr(incr, inner, f2));
        },
        SpecStmt::If { cond, thn, els, .. } => {
            lemma_fv_expr_convertible(cond, bound, fvs);
            let f1 = fv_expr(cond, bound, fvs);
            lemma_fv_block_convertible(thn, bound, f1);
            lemma_fv_block_convertible(els, bound, fv_block(thn, bound, f1).0);
        },
        SpecStmt::While { cond, body, .. } => {
            lemma_fv_expr_convertible(cond, bound, fvs);
            lemma_fv_block_convertible(body, bound, fv_expr(cond, bound, fvs));
        },
        SpecStmt::Return { value, .. } => lemma_fv_expr_convertible(value, bound, fvs),
        SpecStmt::Expr { e, .. } => lemma_fv_expr_convertible(e, bound, fvs),
    }
}

proof fn lemma_fv_block_convertible(ss: Seq<SpecStmt>, bound: Seq<NameView>, fvs: Seq<FreeVarView>)
    requires
        all_convertible(fvs),
    ensures
        all_convertible(fv_block(ss, bound, fvs).0),
    decreases ss,
{
    if ss.len() > 0 {
        lemma_fv_block_convertible(ss.drop_last(), bound, fvs);
        let (f, b) = fv_block(ss.drop_last(), bound, fvs);
        lemma_fv_stmt_convertible(ss.last(), b, f);
    }
}

proof fn lemma_fv_args_ok(fvs: Seq<FreeVarView>, i: Info)
    requires
        all_convertible(fvs),
    ensures
        spec_fv_args(fvs, i) is Ok,
    decreases fvs.len(),
{
    if fvs.len() > 0 {
        assert forall|k: int| 0 <= k < fvs.drop_last().len() implies spec_py_to_gpu_type(
            #[trigger] fvs.drop_last()[k].1,
            Info::spec_default(),
        ) is Ok by {
            assert(fvs.drop_last()[k] == fvs[k]);
        }
        lemma_fv_args_ok(fvs.drop_last(), i);
        assert(spec_py_to_gpu_type(fvs[fvs.len() - 1].1, Info::spec_default()) is Ok);
    }
}

/// Lifting a callback out of a statement never fails: the free variables of
/// a statement all have Python types that convert back to GPU types.
pub proof fn lemma_generate_callback_succeeds(s: SpecStmt, id: NameView, i: Info)
    ensures
        spec_generate_callback(s, id, i) is Ok,
{
    assert(all_convertible(Seq::<FreeVarView>::empty()));
    lemma_fv_stmt_convertible(s, Seq::empty(), Seq::empty());
    lemma_fv_args_ok(spec_free_vars(s), i);
}

proof fn lemma_fv_args_shape(fvs: Seq<FreeVarView>, i: Info)
    ensures
        spec_fv_args(fvs, i) matches Ok(args) ==> {
            &&& args.len() == fvs.len()
            &&& forall|k: int|
                0 <= k < args.len() ==> (#[trigger] args[k] matches SpecExpr::Var { id, i: vi, .. }
                    && id == fvs[k].0 && vi == Info::spec_default())
        },
    decreases fvs.len(),
{
    if fvs.len() > 0 {
        lemma_fv_args_shape(fvs.drop_last(), i);
        if let Ok(args) = spec_fv_args(fvs, i) {
            let prev = spec_fv_args(fvs.drop_last(), i)->Ok_0;
            assert forall|k: int| 0 <= k < args.len() implies (#[trigger] args[k] matches SpecExpr::Var { id, i: vi, .. }
                && id == fvs[k].0 && vi == Info::spec_default()) by {
                if k < prev.len() {
                    assert(args[k] == prev[k]);
                    assert(fvs.drop_last()[k] == fvs[k]);
                }
            }
        }
    }
}

/// The call that replaces lifted code matches the callback: it calls it by
/// name, at the callback's position, with one argument for each parameter,
/// a variable named as the parameter, of the type that the callback's
/// function type gives it.
pub proof fn lemma_call_matches_callback(s: SpecStmt, id: NameView, i: Info)
    ensures
        spec_generate_callback(s, id, i) matches Ok((cb, call)) ==> {
            &&& cb.id == id
            &&& cb.body == s
            &&& call matches SpecStmt::Expr { e: SpecExpr::Call { id: cid, args, ty, i: ci }, i: si }
                && cid == cb.id && ty == SpecType::Void && ci == i && si == i
                && args.len() == cb.params.len()
                && cb.ty == (SpecType::Pointer {
                    ty: Box::new(SpecType::Function {
                        result: Box::new(SpecType::Void),
                        args: args.map_values(|a: SpecExpr| a.ty()),
                    }),
                    shape: Seq::empty(),
                    mem: MemSpace::Host,
                })
                && forall|k: int| 0 <= k < args.len() ==> (#[trigger] args[k] matches SpecExpr::Var {
                    id: aid,
                    ..
                } && aid == cb.params[k].id)
        },
{
    let fvs = spec_free_vars(s);
    lemma_fv_args_shape(fvs, i);
}


/// Collecting the callbacks of a statement never fails.
pub proof fn lemma_collect_stmt_succeeds(acc: Seq<SpecCallback>, s: SpecStmt)
    ensures
        spec_collect_stmt(acc, s) is Ok,
    decreases s,
{
    match s {
        SpecStmt::For { body, .. } => {
            if let Some((id, ci)) = spec_extract_callback(body) {
                lemma_generate_callback_succeeds(s, id, ci);
            } else {
                lemma_collect_block_succeeds(acc, body);
            }
        },
        SpecStmt::Expr { e: SpecExpr::PyCallback { id, i: ci, .. }, .. } => {
            lemma_generate_callback_succeeds(s, id, ci);
        },
        SpecStmt::If { thn, els, .. } => {
            lemma_collect_block_succeeds(acc, thn);
            lemma_collect_block_succeeds(spec_collect_block(acc, thn)->Ok_0.0, els);
        },
        SpecStmt::While { body, .. } => {
            lemma_collect_block_succeeds(acc, body);
        },
        _ => {},
    }
}

/// The same for a block of statements.
pub proof fn lemma_collect_block_succeeds(acc: Seq<SpecCallback>, ss: Seq<SpecStmt>)
    ensures
        spec_collect_block(acc, ss) is Ok,
    decreases ss,
{
    if ss.len() > 0 {
        lemma_collect_block_succeeds(acc, ss.drop_last());
        lemma_collect_stmt_succeeds(spec_collect_block(acc, ss.drop_last())->Ok_0.0, ss.last());
    }
}

proof fn lemma_apply_tops_errors(acc: Seq<SpecCallback>, ts: Seq<SpecTop>)
    ensures
        spec_apply_tops(acc, ts) matches Err(e) ==> e.msg == misplaced_callback_msg(),
    decreases ts.len(),
{
    if ts.len() > 0 {
        lemma_apply_tops_errors(acc, ts.drop_last());
        if let Ok((a, out)) = spec_apply_tops(acc, ts.drop_last()) {
            match ts.last() {
                SpecTop::FunDef { body, .. } => lemma_collect_block_succeeds(Seq::empty(), body),
                SpecTop::KernelFunDef { body, .. } => lemma_collect_block_succeeds(Seq::empty(), body),
                _ => {},
            }
        }
    }
}

/// The pass fails only where a GPU function or kernel uses a callback, and
/// then with the error that says so.
pub proof fn lemma_apply_errors_are_misplaced_callbacks(ast: Seq<SpecTop>)
    ensures
        spec_apply(ast) matches Err(e) ==> e.msg == misplaced_callback_msg(),
{
    lemma_apply_tops_errors(Seq::empty(), ast);
}


/// A statement that calls the Python callback `id`, or a `for` loop whose
/// body is one such statement: what the pass lifts out whole.
pub open spec fn callback_nest(s: SpecStmt, id: NameView) -> bool
    decreases s,
{
    match s {
        SpecStmt::Expr { e: SpecExpr::PyCallback { id: cid, .. }, .. } => cid == id,
        SpecStmt::For { body, .. } => body.len() == 1 && callback_nest(body[0], id),
        _ => false,
    }
}

/// The statement lifted out for a callback: a callback statement or a nest of
/// `for` loops around one.
pub open spec fn liftable(cb: SpecCallback) -> bool {
    callback_nest(cb.body, cb.id)
}

/// The callbacks of `cbs` from position `from` on were each lifted out of a
/// nest of loops around a call of that callback, or such a call.
pub open spec fn lifted_from_liftable(cbs: Seq<SpecCallback>, from: int) -> bool {
    forall|k: int| from <= k < cbs.len() ==> liftable(#[trigger] cbs[k])
}

proof fn lemma_extract_is_nest(body: Seq<SpecStmt>)
    ensures
        spec_extract_callback(body) matches Some((id, _)) ==> body.len() == 1 && callback_nest(body[0], id),
    decreases body,
{
    if body.len() == 1 {
        if let SpecStmt::For { body: inner, .. } = body[0] {
            lemma_extract_is_nest(inner);
        }
    }
}

proof fn lemma_lifted_extend(a: Seq<SpecCallback>, a2: Seq<SpecCallback>, from: int)
    requires
        0 <= from <= a.len() <= a2.len(),
        a2.take(a.len() as int) == a,
        lifted_from_liftable(a, from),
        lifted_from_liftable(a2, a.len() as int),
    ensures
        lifted_from_liftable(a2, from),
{
    assert forall|k: int| from <= k < a2.len() implies liftable(#[trigger] a2[k]) by {
        if k < a.len() {
            assert(a2.take(a.len() as int)[k] == a2[k]);
        }
    }
}

/// Every callback that the pass finds in a statement was lifted out of a
/// call of it, or of a nest of `for` loops, each with that one statement as
/// its body, around such a call; a `while` loop, an `if` or any other
/// statement is never lifted whole.
pub proof fn lemma_collect_stmt_lifts_loops_and_calls(acc: Seq<SpecCallback>, s: SpecStmt)
    ensures
        spec_collect_stmt(acc, s) matches Ok((a, _)) ==> lifted_from_liftable(a, acc.len() as int),
    decreases s,
{
    match s {
        SpecStmt::For { body, .. } => {
            lemma_extract_is_nest(body);
            if spec_extract_callback(body) is None {
                lemma_collect_block_lifts_loops_and_calls(acc, body);
            }
        },
        SpecStmt::If { thn, els, .. } => {
            lemma_collect_block_lifts_loops_and_calls(acc, thn);
            lemma_collect_block_keeps(acc, thn);
            if let Ok((a, t)) = spec_collect_block(acc, thn) {
                lemma_collect_block_lifts_loops_and_calls(a, els);
                lemma_collect_block_keeps(a, els);
                if let Ok((a2, e2)) = spec_collect_block(a, els) {
                    lemma_lifted_extend(a, a2, acc.len() as int);
                }
            }
        },
        SpecStmt::While { body, .. } => {
            lemma_collect_block_lifts_loops_and_calls(acc, body);
        },
        _ => {},
    }
}

/// The same for a block of statements.
pub proof fn lemma_collect_block_lifts_loops_and_calls(acc: Seq<SpecCallback>, ss: Seq<SpecStmt>)
    ensures
        spec_collect_block(acc, ss) matches Ok((a, _)) ==> lifted_from_liftable(a, acc.len() as int),
    decreases ss,
{
    if ss.len() > 0 {
        lemma_collect_block_lifts_loops_and_calls(acc, ss.drop_last());
        lemma_collect_block_keeps(acc, ss.drop_last());
        if let Ok((a, out)) = spec_collect_block(acc, ss.drop_last()) {
            lemma_collect_stmt_lifts_loops_and_calls(a, ss.last());
            lemma_collect_stmt_keeps(a, ss.last());
            if let Ok((a2, s2)) = spec_collect_stmt(a, ss.last()) {
                lemma_lifted_extend(a, a2, acc.len() as int);
            }
        }
    }
}

/// A `while` loop stays a `while` loop with the same condition and position;
/// only its body is searched for callbacks.
pub proof fn lemma_collect_keeps_while(acc: Seq<SpecCallback>, cond: SpecExpr, body: Seq<SpecStmt>, i: Info)
    ensures
        spec_collect_stmt(acc, SpecStmt::While { cond, body, i }) matches Ok((a, s2)) ==> (
        s2 matches SpecStmt::While { cond: c2, body: b2, i: i2 } && c2 == cond && i2 == i
            && spec_collect_block(acc, body) == Ok::<(Seq<SpecCallback>, Seq<SpecStmt>), SpecCompileError>((a, b2))),
{
}


/// `r` with `acc` put in front of its callbacks.
pub open spec fn after_callbacks<T>(acc: Seq<SpecCallback>, r: Result<(Seq<SpecCallback>, T), SpecCompileError>) -> Result<
    (Seq<SpecCallback>, T),
    SpecCompileError,
> {
    match r {
        Ok((a, x)) => Ok((acc + a, x)),
        Err(e) => Err(e),
    }
}

/// What the pass finds in a statement does not depend on the callbacks found
/// before: they stay in front, and the statement's own follow.
pub proof fn lemma_collect_stmt_frame(acc: Seq<SpecCallback>, s: SpecStmt)
    ensures
        spec_collect_stmt(acc, s) == after_callbacks(acc, spec_collect_stmt(Seq::empty(), s)),
    decreases s,
{
    let e = Seq::<SpecCallback>::empty();
    match s {
        SpecStmt::For { body, .. } => {
            if let Some((id, ci)) = spec_extract_callback(body) {
                if let Ok((cb, call)) = spec_generate_callback(s, id, ci) {
                    assert(acc.push(cb) =~= acc + e.push(cb));
                }
            } else {
                lemma_collect_block_frame(acc, body);
            }
        },
        SpecStmt::Expr { e: SpecExpr::PyCallback { id, i: ci, .. }, .. } => {
            if let Ok((cb, call)) = spec_generate_callback(s, id, ci) {
                assert(acc.push(cb) =~= acc + e.push(cb));
            }
        },
        SpecStmt::If { thn, els, .. } => {
            lemma_collect_block_frame(acc, thn);
            if let Ok((t1, t)) = spec_collect_block(e, thn) {
                lemma_collect_block_frame(acc + t1, els);
                lemma_collect_block_frame(t1, els);
                if let Ok((e1, x)) = spec_collect_block(e, els) {
                    assert(acc + t1 + e1 =~= acc + (t1 + e1));
                }
            }
        },
        SpecStmt::While { body, .. } => {
            lemma_collect_block_frame(acc, body);
        },
        _ => {
            assert(acc + e =~= acc);
        },
    }
}

/// The same for a block of statements.
pub proof fn lemma_collect_block_frame(acc: Seq<SpecCallback>, ss: Seq<SpecStmt>)
    ensures
        spec_collect_block(acc, ss) == after_callbacks(acc, spec_collect_block(Seq::empty(), ss)),
    decreases ss,
{
    let e = Seq::<SpecCallback>::empty();
    if ss.len() == 0 {
        assert(acc + e =~= acc);
    } else {
        lemma_collect_block_frame(acc, ss.drop_last());
        if let Ok((p, out)) = spec_collect_block(e, ss.drop_last()) {
            lemma_collect_stmt_frame(acc + p, ss.last());
            lemma_collect_stmt_frame(p, ss.last());
            if let Ok((q, x)) = spec_collect_stmt(e, ss.last()) {
                assert(acc + p + q =~= acc + (p + q));
            }
        }
    }
}

/// The callbacks of a block come in the order of its statements: those of
/// the statements before the last, then those of the last.
pub proof fn lemma_collect_block_in_order(ss: Seq<SpecStmt>)
    requires
        ss.len() > 0,
    ensures
        spec_collect_block(Seq::empty(), ss) == match spec_collect_block(Seq::empty(), ss.drop_last()) {
            Err(e) => Err(e),
            Ok((p, out)) => match spec_collect_stmt(Seq::empty(), ss.last()) {
                Err(e) => Err(e),
                Ok((q, x)) => Ok((p + q, out.push(x))),
            },
        },
{
    if let Ok((p, out)) = spec_collect_block(Seq::empty(), ss.drop_last()) {
        lemma_collect_stmt_frame(p, ss.last());
    }
}

/// The callbacks of an `if` are those of its then-branch followed by those
/// of its else-branch, after the callbacks found before; the `if` stays an
/// `if` with the same condition and position.
pub proof fn lemma_collect_if_in_order(acc: Seq<SpecCallback>, cond: SpecExpr, thn: Seq<SpecStmt>, els: Seq<SpecStmt>, i: Info)
    ensures
        spec_collect_stmt(acc, SpecStmt::If { cond, thn, els, i }) == match (
            spec_collect_block(Seq::empty(), thn),
            spec_collect_block(Seq::empty(), els),
        ) {
            (Err(e), _) => Err(e),
            (Ok(_), Err(e)) => Err(e),
            (Ok((t1, t)), Ok((e1, x))) => Ok((acc + t1 + e1, SpecStmt::If { cond, thn: t, els: x, i })),
        },
{
    lemma_collect_block_frame(acc, thn);
    if let Ok((t1, t)) = spec_collect_block(Seq::empty(), thn) {
        lemma_collect_block_frame(acc + t1, els);
    }
}


/// A lifted callback gets a parameter for exactly the variables that occur
/// free in the code lifted out (see `occurs_free_stmt`), and the call that
/// replaces the code passes an argument for each.
pub proof fn lemma_callback_params_are_free_vars(s: SpecStmt, id: NameView, i: Info, x: NameView)
    ensures
        spec_generate_callback(s, id, i) matches Ok((cb, call)) ==> (
        (exists|k: int| 0 <= k < cb.params.len() && (#[trigger] cb.params[k]).id == x)
            == occurs_free_stmt(s, Seq::empty(), x)),
{
    lemma_free_vars_exact(s, x);
    let fvs = spec_free_vars(s);
    if let Ok((cb, call)) = spec_generate_callback(s, id, i) {
        if has_var(fvs, x) {
            let k = choose|k: int| 0 <= k < fvs.len() && (#[trigger] fvs[k]).0 == x;
            assert(cb.params[k].id == x);
        }
        if exists|k: int| 0 <= k < cb.params.len() && (#[trigger] cb.params[k]).id == x {
            let k = choose|k: int| 0 <= k < cb.params.len() && (#[trigger] cb.params[k]).id == x;
            assert(fvs[k].0 == x);
        }
    }
}


/// A GPU function or kernel whose body calls a Python callback in a
/// statement, at any depth of its blocks, is rejected with the error that
/// callbacks belong in the main function, at the function's position.
pub proof fn lemma_gpu_code_with_callback_rejected(acc: Seq<SpecCallback>, t: SpecTop)
    requires
        (t matches SpecTop::FunDef { body, target, .. } && target == Target::Device && !block_callback_free(body))
            || (t matches SpecTop::KernelFunDef { body, .. } && !block_callback_free(body)),
    ensures
        spec_add_callback_parameters(acc, t) == Err::<(Seq<SpecCallback>, SpecTop), SpecCompileError>(
            error_at(
                match t {
                    SpecTop::FunDef { i, .. } => i,
                    SpecTop::KernelFunDef { i, .. } => i,
                    SpecTop::StructDef { i, .. } => i,
                },
                misplaced_callback_msg(),
            ),
        ),
{
    let body = match t {
        SpecTop::FunDef { body, .. } => body,
        SpecTop::KernelFunDef { body, .. } => body,
        SpecTop::StructDef { .. } => Seq::empty(),
    };
    lemma_collect_block_succeeds(Seq::empty(), body);
    lemma_collect_block_keeps(Seq::empty(), body);
    lemma_collect_block_callback_free(Seq::empty(), body);
}

/// A host function receives one new parameter for each callback found in
/// it, after its own parameters and in the order the callbacks are
/// returned, named and typed as the callback.
pub proof fn lemma_host_params_follow_callbacks(acc: Seq<SpecCallback>, t: SpecTop)
    requires
        t matches SpecTop::FunDef { target, .. } && target == Target::Host,
    ensures
        spec_add_callback_parameters(acc, t) matches Ok((a, t2)) ==> (
        t2 matches SpecTop::FunDef { params: p2, .. } && {
            let p = t->FunDef_params;
            &&& a.len() >= acc.len()
            &&& a.take(acc.len() as int) == acc
            &&& p2.len() == p.len() + (a.len() - acc.len())
            &&& p2.take(p.len() as int) == p
            &&& forall|k: int|
                0 <= k < a.len() - acc.len() ==> (#[trigger] p2[p.len() + k]).id == a[acc.len() + k].id
                    && p2[p.len() + k].ty == a[acc.len() + k].ty
        }),
{
    if let SpecTop::FunDef { params, body, .. } = t {
        if let Ok((cbs, b)) = spec_collect_block(Seq::empty(), body) {
            let a = acc + cbs;
            assert(a.take(acc.len() as int) =~= acc);
            let p2 = spec_insert_callback_parameters(params, cbs);
            assert(p2.take(params.len() as int) =~= params);
            assert forall|k: int| 0 <= k < a.len() - acc.len() implies (#[trigger] p2[params.len() + k]).id
                == a[acc.len() + k].id && p2[params.len() + k].ty == a[acc.len() + k].ty by {
                assert(a[acc.len() + k] == cbs[k]);
            }
        }
    }
}

} // verus!
