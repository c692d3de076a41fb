//! Lifting Python callbacks out of host code. A host function that calls a
//! Python callback, directly or as the only statement of a (nest of) loops,
//! instead receives the callback as a parameter and calls it with the free
//! variables of the code that was lifted out; GPU functions and kernels may
//! not use callbacks.

use vstd::prelude::*;

use crate::gpu::ast::{
    exprs_view, group_gpu_views, params_view, stmts_view, tops_view, types_view, Ast, Expr,
    MemSpace, Param, SpecExpr, SpecParam, SpecStmt, SpecTop, SpecType, Stmt, Target, Top, Type,
};
use crate::gpu::free_vars::{free_vars, free_vars_view, spec_free_vars, FreeVarView};
use crate::py::ast::{
    params_view as py_params_view, shapes_view, Param as PyParam, SpecParam as PySpecParam,
    SpecTensorElemSize, SpecTensorShape, SpecType as PySpecType, TensorElemSize, TensorShape,
    Type as PyType,
};
use crate::utils::err::{CompileError, CompileResult, SpecCompileError};
use crate::utils::info::Info;
use crate::utils::name::{Name, NameView};

verus! {

broadcast use group_gpu_views;

/// A Python function called from host code: its name, its parameters (the
/// free variables of the code that calls it), the type of a pointer to it,
/// and the statement that the call was lifted out of.
#[derive(Debug, PartialEq, Eq)]
pub struct Callback {
    pub id: Name,
    pub params: Vec<PyParam>,
    pub ty: Type,
    pub body: Stmt,
}

/// What a `Callback` stands for.
pub struct SpecCallback {
    pub id: NameView,
    pub params: Seq<PySpecParam>,
    pub ty: SpecType,
    pub body: SpecStmt,
}

impl View for Callback {
    type V = SpecCallback;

    open spec fn view(&self) -> SpecCallback {
        SpecCallback {
            id: self.id@,
            params: py_params_view(self.params@),
            ty: self.ty@,
            body: self.body@,
        }
    }
}

impl Clone for Callback {
    fn clone(&self) -> (r: Callback)
        ensures
            r@ == self@,
    {
        let mut params: Vec<PyParam> = Vec::new();
        for k in 0..self.params.len()
            invariant
                params@.len() == k,
                forall|j: int| 0 <= j < k ==> (#[trigger] params@[j])@ == self.params@[j]@,
        {
            params.push(self.params[k].clone());
        }
        assert(py_params_view(params@) =~= py_params_view(self.params@));
        Callback { id: self.id.clone(), params, ty: self.ty.clone(), body: self.body.clone() }
    }
}

pub open spec fn callbacks_view(cbs: Seq<Callback>) -> Seq<SpecCallback> {
    cbs.map_values(|cb: Callback| cb@)
}

pub open spec fn error_at(i: Info, msg: Seq<char>) -> SpecCompileError {
    SpecCompileError { i, msg }
}

/// The name and position of the Python callback that a loop body consists
/// of: a body of one statement that is a call of a callback, or of one loop
/// whose body is such a body.
pub open spec fn spec_extract_callback(body: Seq<SpecStmt>) -> Option<(NameView, Info)>
    decreases body,
{
    if body.len() == 1 {
        match body[0] {
            SpecStmt::Expr { e: SpecExpr::PyCallback { id, i, .. }, .. } => Some((id, i)),
            SpecStmt::For { body: inner, .. } => spec_extract_callback(inner),
            _ => None,
        }
    } else {
        None
    }
}

fn extract_callback(body: &Vec<Stmt>) -> (r: Option<(Name, Info)>)
    ensures
        match r {
            Some((id, i)) => spec_extract_callback(stmts_view(body@)) == Some((id@, i)),
            None => spec_extract_callback(stmts_view(body@)) is None,
        },
    decreases body,
{
    if body.len() == 1 {
        proof {
            assert(decreases_to!(body => body@));
            assert(decreases_to!(body@ => body@[0]));
        }
        match &body[0] {
            Stmt::Expr { e: Expr::PyCallback { id, i, .. }, .. } => Some((id.clone(), *i)),
            Stmt::For { body: inner, .. } => extract_callback(inner),
            _ => None,
        }
    } else {
        None
    }
}

/// The GPU type of a value of the given Python type, or an error when it is
/// a tensor with a dimension that is still a variable. A tensor of fixed
/// element size and no dimension is a scalar; one with dimensions a pointer
/// to device memory of that shape; any other type is void.
pub open spec fn spec_py_to_gpu_type(ty: PySpecType, i: Info) -> Result<SpecType, SpecCompileError> {
    match ty {
        PySpecType::Tensor { sz: SpecTensorElemSize::Fixed { sz }, shape } => {
            if shape.len() == 0 {
                Ok(SpecType::Scalar { sz })
            } else if exists|k: int| 0 <= k < shape.len() && (#[trigger] shape[k]) is Symbol {
                Err(error_at(i, "Found unresolved shape variable"@))
            } else {
                Ok(
                    SpecType::Pointer {
                        ty: Box::new(SpecType::Scalar { sz }),
                        shape: shape.map_values(|d: SpecTensorShape| d->n),
                        mem: MemSpace::Device,
                    },
                )
            }
        },
        _ => Ok(SpecType::Void),
    }
}

pub open spec fn type_result_view(r: CompileResult<Type>) -> Result<SpecType, SpecCompileError> {
    match r {
        Ok(t) => Ok(t@),
        Err(e) => Err(e@),
    }
}

#[verifier::loop_isolation(false)]
pub fn py_to_gpu_type(ty: PyType, i: &Info) -> (r: CompileResult<Type>)
    ensures
        type_result_view(r) == spec_py_to_gpu_type(ty@, *i),
{
    match ty {
        PyType::Tensor { sz: TensorElemSize::Fixed { sz }, shape } => {
            if shape.len() == 0 {
                Ok(Type::Scalar { sz })
            } else {
                let ghost sv = shapes_view(shape@);
                let mut dims: Vec<i64> = Vec::new();
                for k in 0..shape.len()
                    invariant
                        sv == shapes_view(shape@),
                        dims@.len() == k,
                        forall|j: int| 0 <= j < k ==> (#[trigger] sv[j]) is Num && dims@[j] == sv[j]->n,
                {
                    match &shape[k] {
                        TensorShape::Num { n } => {
                            dims.push(*n);
                        },
                        TensorShape::Symbol { .. } => {
                            assert(sv[k as int] is Symbol);
                            return Err(CompileError::new(i, "Found unresolved shape variable"));
                        },
                    }
                }
                assert(dims@ =~= sv.map_values(|d: SpecTensorShape| d->n));
                Ok(Type::Pointer { ty: Box::new(Type::Scalar { sz }), shape: dims, mem: MemSpace::Device })
            }
        },
        _ => Ok(Type::Void),
    }
}

/// The arguments that a callback is called with: each free variable, as a
/// variable of the GPU type of its value, or the first error that a type
/// gives.
pub open spec fn spec_fv_args(fvs: Seq<FreeVarView>, i: Info) -> Result<Seq<SpecExpr>, SpecCompileError>
    decreases fvs.len(),
{
    if fvs.len() == 0 {
        Ok(Seq::empty())
    } else {
        match spec_fv_args(fvs.drop_last(), i) {
            Err(e) => Err(e),
            Ok(args) => match spec_py_to_gpu_type(fvs.last().1, i) {
                Err(e) => Err(e),
                Ok(ty) => Ok(args.push(SpecExpr::Var { id: fvs.last().0, ty, i: Info::spec_default() })),
            },
        }
    }
}

/// The parameters of a callback: one for each free variable.
pub open spec fn spec_fv_params(fvs: Seq<FreeVarView>) -> Seq<PySpecParam> {
    fvs.map_values(|fv: FreeVarView| PySpecParam { id: fv.0, ty: fv.1, i: Info::spec_default() })
}

/// The type of a callback that takes the given arguments: a pointer, in
/// host memory, to a function that returns nothing.
pub open spec fn spec_callback_type(args: Seq<SpecExpr>) -> SpecType {
    SpecType::Pointer {
        ty: Box::new(
            SpecType::Function {
                result: Box::new(SpecType::Void),
                args: args.map_values(|a: SpecExpr| a.ty()),
            },
        ),
        shape: Seq::empty(),
        mem: MemSpace::Host,
    }
}

/// The callback lifted out of statement `s`, and the statement that calls it
/// in its place.
pub open spec fn spec_generate_callback(s: SpecStmt, id: NameView, i: Info) -> Result<
    (SpecCallback, SpecStmt),
    SpecCompileError,
> {
    let fvs = spec_free_vars(s);
    match spec_fv_args(fvs, i) {
        Err(e) => Err(e),
        Ok(args) => Ok(
            (
                SpecCallback {
                    id,
                    params: spec_fv_params(fvs),
                    ty: spec_callback_type(args),
                    body: s,
                },
                SpecStmt::Expr {
                    e: SpecExpr::Call { id, args, ty: SpecType::Void, i },
                    i,
                },
            ),
        ),
    }
}

pub open spec fn gen_result_view(r: CompileResult<(Callback, Stmt)>) -> Result<
    (SpecCallback, SpecStmt),
    SpecCompileError,
> {
    match r {
        Ok((cb, s)) => Ok((cb@, s@)),
        Err(e) => Err(e@),
    }
}

proof fn lemma_fv_args_err(fv: Seq<FreeVarView>, m: int, i: Info)
    requires
        0 <= m <= fv.len(),
        spec_fv_args(fv.take(m), i) is Err,
    ensures
        spec_fv_args(fv, i) == spec_fv_args(fv.take(m), i),
    decreases fv.len() - m,
{
    if m < fv.len() {
        assert(fv.take(m + 1).drop_last() =~= fv.take(m));
        lemma_fv_args_err(fv, m + 1, i);
    } else {
        assert(fv.take(m) =~= fv);
    }
}

#[verifier::loop_isolation(false)]
fn generate_callback(s: Stmt, callback_id: Name, i: Info) -> (r: CompileResult<(Callback, Stmt)>)
    ensures
        gen_result_view(r) == spec_generate_callback(s@, callback_id@, i),
{
    let fvs = free_vars(&s);
    let ghost fv = free_vars_view(fvs@);
    let mut params: Vec<PyParam> = Vec::new();
    let mut fv_args: Vec<Expr> = Vec::new();
    for k in 0..fvs.len()
        invariant
            fv == free_vars_view(fvs@),
            py_params_view(params@) == spec_fv_params(fv.take(k as int)),
            spec_fv_args(fv.take(k as int), i) == Ok::<Seq<SpecExpr>, SpecCompileError>(exprs_view(fv_args@)),
    {
        let id = &fvs[k].0;
        let ty = &fvs[k].1;
        proof {
            assert(fv.take(k + 1).drop_last() =~= fv.take(k as int));
            assert(fv.take(k + 1).last() == fv[k as int]);
        }
        let arg_ty = match py_to_gpu_type(ty.clone(), &i) {
            Ok(t) => t,
            Err(e) => {
                proof {
                    lemma_fv_args_err(fv, k + 1, i);
                }
                return Err(e);
            },
        };
        let ghost before = params@;
        let param = PyParam { id: id.clone(), ty: ty.clone(), i: Info::default() };
        assert(param@ == (PySpecParam { id: fv[k as int].0, ty: fv[k as int].1, i: Info::spec_default() }));
        params.push(param);
        assert(py_params_view(params@) =~= py_params_view(before).push(param@));
        assert(spec_fv_params(fv.take(k + 1)) =~= spec_fv_params(fv.take(k as int)).push(param@));
        let ghost before_args = fv_args@;
        let ghost tyv = arg_ty@;
        fv_args.push(Expr::Var { id: id.clone(), ty: arg_ty, i: Info::default() });
        assert(exprs_view(fv_args@) =~= exprs_view(before_args).push(
            SpecExpr::Var { id: id@, ty: tyv, i: Info::spec_default() },
        ));
    }
    assert(fv.take(fvs.len() as int) =~= fv);
    let mut arg_types: Vec<Type> = Vec::new();
    for k in 0..fv_args.len()
        invariant
            arg_types@.len() == k,
            forall|j: int| 0 <= j < k ==> (#[trigger] arg_types@[j])@ == fv_args@[j]@.ty(),
    {
        arg_types.push(fv_args[k].get_type().clone());
    }
    assert(types_view(arg_types@) =~= exprs_view(fv_args@).map_values(|a: SpecExpr| a.ty()));
    let fun_ty = Type::Function { result: Box::new(Type::Void), args: arg_types };
    assert(fun_ty@ == SpecType::Function {
        result: Box::new(SpecType::Void),
        args: exprs_view(fv_args@).map_values(|a: SpecExpr| a.ty()),
    });
    let no_shape: Vec<i64> = Vec::new();
    let ty = Type::Pointer { ty: Box::new(fun_ty), shape: no_shape, mem: MemSpace::Host };
    assert(ty@ == spec_callback_type(exprs_view(fv_args@)));
    let callback_wrap_stmt = Stmt::Expr {
        e: Expr::Call { id: callback_id.clone(), args: fv_args, ty: Type::Void, i },
        i,
    };
    Ok((Callback { id: callback_id, params, ty, body: s }, callback_wrap_stmt))
}

/// The statement with the callback lifted out of it added to `acc`, or the
/// error that lifting it gives.
pub open spec fn spec_lift(acc: Seq<SpecCallback>, s: SpecStmt, id: NameView, i: Info) -> Result<
    (Seq<SpecCallback>, SpecStmt),
    SpecCompileError,
> {
    match spec_generate_callback(s, id, i) {
        Err(e) => Err(e),
        Ok((cb, call)) => Ok((acc.push(cb), call)),
    }
}

/// The callbacks used in statement `s`, appended to `acc`, and the statement
/// with each use replaced by a call, or the first error. A loop whose body
/// is a callback use (see `spec_extract_callback`), and a statement that
/// calls a callback, are lifted out whole; in other statements the
/// statements they contain are searched in turn.
pub open spec fn spec_collect_stmt(acc: Seq<SpecCallback>, s: SpecStmt) -> Result<
    (Seq<SpecCallback>, SpecStmt),
    SpecCompileError,
>
    decreases s,
{
    match s {
        SpecStmt::For { var_ty, var, init, cond, incr, body, i } => match spec_extract_callback(
            body,
        ) {
            Some((id, ci)) => spec_lift(acc, s, id, ci),
            None => match spec_collect_block(acc, body) {
                Err(e) => Err(e),
                Ok((a, b)) => Ok((a, SpecStmt::For { var_ty, var, init, cond, incr, body: b, i })),
            },
        },
        SpecStmt::Expr { e: SpecExpr::PyCallback { id, i: ci, .. }, .. } => spec_lift(acc, s, id, ci),
        SpecStmt::If { cond, thn, els, i } => match spec_collect_block(acc, thn) {
            Err(e) => Err(e),
            Ok((a, t)) => match spec_collect_block(a, els) {
                Err(e) => Err(e),
                Ok((a2, e2)) => Ok((a2, SpecStmt::If { cond, thn: t, els: e2, i })),
            },
        },
        SpecStmt::While { cond, body, i } => match spec_collect_block(acc, body) {
            Err(e) => Err(e),
            Ok((a, b)) => Ok((a, SpecStmt::While { cond, body: b, i })),
        },
        _ => Ok((acc, s)),
    }
}

/// `spec_collect_stmt` over the statements of a block, in order, stopping at
/// the first error.
pub open spec fn spec_collect_block(acc: Seq<SpecCallback>, ss: Seq<SpecStmt>) -> Result<
    (Seq<SpecCallback>, Seq<SpecStmt>),
    SpecCompileError,
>
    decreases ss,
{
    if ss.len() == 0 {
        Ok((acc, Seq::empty()))
    } else {
        match spec_collect_block(acc, ss.drop_last()) {
            Err(e) => Err(e),
            Ok((a, out)) => match spec_collect_stmt(a, ss.last()) {
                Err(e) => Err(e),
                Ok((a2, s2)) => Ok((a2, out.push(s2))),
            },
        }
    }
}

pub open spec fn stmt_result_view(r: CompileResult<(Vec<Callback>, Stmt)>) -> Result<
    (Seq<SpecCallback>, SpecStmt),
    SpecCompileError,
> {
    match r {
        Ok((cbs, s)) => Ok((callbacks_view(cbs@), s@)),
        Err(e) => Err(e@),
    }
}

pub open spec fn block_result_view(r: CompileResult<(Vec<Callback>, Vec<Stmt>)>) -> Result<
    (Seq<SpecCallback>, Seq<SpecStmt>),
    SpecCompileError,
> {
    match r {
        Ok((cbs, ss)) => Ok((callbacks_view(cbs@), stmts_view(ss@))),
        Err(e) => Err(e@),
    }
}

proof fn lemma_collect_block_err(acc: Seq<SpecCallback>, ss: Seq<SpecStmt>, m: int)
    requires
        0 <= m <= ss.len(),
        spec_collect_block(acc, ss.take(m)) is Err,
    ensures
        spec_collect_block(acc, ss) == spec_collect_block(acc, ss.take(m)),
    decreases ss.len() - m,
{
    if m < ss.len() {
        assert(ss.take(m + 1).drop_last() =~= ss.take(m));
        lemma_collect_block_err(acc, ss, m + 1);
    } else {
        assert(ss.take(m) =~= ss);
    }
}

fn collect_used_callbacks_stmt(acc: Vec<Callback>, s: Stmt) -> (r: CompileResult<(Vec<Callback>, Stmt)>)
    ensures
        stmt_result_view(r) == spec_collect_stmt(callbacks_view(acc@), s@),
    decreases s, 1int,
{
    let mut acc = acc;
    let found = match &s {
        Stmt::For { body, .. } => extract_callback(body),
        Stmt::Expr { e: Expr::PyCallback { id, i, .. }, .. } => Some((id.clone(), *i)),
        _ => None,
    };
    if let Some((id, i)) = found {
        return match generate_callback(s, id, i) {
            Ok((callback, callback_wrap_stmt)) => {
                let ghost before = acc@;
                acc.push(callback);
                assert(callbacks_view(acc@) =~= callbacks_view(before).push(callback@));
                Ok((acc, callback_wrap_stmt))
            },
            Err(e) => Err(e),
        };
    }
    match s {
        Stmt::For { var_ty, var, init, cond, incr, body, i } => {
            match collect_used_callbacks_stmts(acc, body) {
                Ok((acc, body)) => Ok((acc, Stmt::For { var_ty, var, init, cond, incr, body, i })),
                Err(e) => Err(e),
            }
        },
        Stmt::If { cond, thn, els, i } => {
            match collect_used_callbacks_stmts(acc, thn) {
                Ok((acc, thn)) => match collect_used_callbacks_stmts(acc, els) {
                    Ok((acc, els)) => Ok((acc, Stmt::If { cond, thn, els, i })),
                    Err(e) => Err(e),
                },
                Err(e) => Err(e),
            }
        },
        Stmt::While { cond, body, i } => {
            match collect_used_callbacks_stmts(acc, body) {
                Ok((acc, body)) => Ok((acc, Stmt::While { cond, body, i })),
                Err(e) => Err(e),
            }
        },
        s => Ok((acc, s)),
    }
}

#[verifier::loop_isolation(false)]
fn collect_used_callbacks_stmts(acc: Vec<Callback>, ss: Vec<Stmt>) -> (r: CompileResult<
    (Vec<Callback>, Vec<Stmt>),
>)
    ensures
        block_result_view(r) == spec_collect_block(callbacks_view(acc@), stmts_view(ss@)),
    decreases ss, 0int,
{
    let ghost orig = ss;
    let ghost acc0 = callbacks_view(acc@);
    let ghost sv = stmts_view(ss@);
    let mut acc = acc;
    let mut rest = ss;
    let mut out: Vec<Stmt> = Vec::new();
    let mut k: usize = 0;
    let n: usize = rest.len();
    while rest.len() > 0
        invariant
            sv == stmts_view(orig@),
            n == orig@.len(),
            k + rest@.len() == n,
            rest@ == orig@.skip(k as int),
            spec_collect_block(acc0, sv.take(k as int)) == Ok::<(Seq<SpecCallback>, Seq<SpecStmt>), SpecCompileError>(
                (callbacks_view(acc@), stmts_view(out@)),
            ),
        decreases rest@.len(),
    {
        let s = rest.remove(0);
        proof {
            assert(s == orig@[k as int]);
            assert(decreases_to!(orig => orig@));
            assert(decreases_to!(orig@ => orig@[k as int]));
            assert(sv.take(k + 1).drop_last() =~= sv.take(k as int));
            assert(sv.take(k + 1).last() == sv[k as int]);
            assert(rest@ =~= orig@.skip(k + 1));
        }
        match collect_used_callbacks_stmt(acc, s) {
            Ok((a, s2)) => {
                acc = a;
                let ghost before = out@;
                out.push(s2);
                assert(stmts_view(out@) =~= stmts_view(before).push(s2@));
            },
            Err(e) => {
                proof {
                    lemma_collect_block_err(acc0, sv, k + 1);
                }
                return Err(e);
            },
        }
        k = k + 1;
    }
    assert(sv.take(k as int) =~= sv);
    Ok((acc, out))
}

/// A statement in which no callback is found comes back unchanged, and the
/// callbacks found before it stay, in order, at the front.
pub proof fn lemma_collect_stmt_keeps(acc: Seq<SpecCallback>, s: SpecStmt)
    ensures
        spec_collect_stmt(acc, s) matches Ok((a, s2)) ==> {
            &&& a.len() >= acc.len()
            &&& a.take(acc.len() as int) == acc
            &&& a.len() == acc.len() ==> s2 == s
        },
    decreases s,
{
    match s {
        SpecStmt::For { body, .. } => {
            if spec_extract_callback(body) is Some {
                if spec_collect_stmt(acc, s) is Ok {
                    let a = spec_collect_stmt(acc, s)->Ok_0.0;
                    assert(a.take(acc.len() as int) =~= acc);
                }
            } else {
                lemma_collect_block_keeps(acc, body);
            }
        },
        SpecStmt::Expr { e: SpecExpr::PyCallback { .. }, .. } => {
            if spec_collect_stmt(acc, s) is Ok {
                let a = spec_collect_stmt(acc, s)->Ok_0.0;
                assert(a.take(acc.len() as int) =~= acc);
            }
        },
        SpecStmt::If { thn, els, .. } => {
            lemma_collect_block_keeps(acc, thn);
            if let Ok((a, t)) = spec_collect_block(acc, thn) {
                lemma_collect_block_keeps(a, els);
                if let Ok((a2, e2)) = spec_collect_block(a, els) {
                    assert(a2.take(acc.len() as int) =~= a2.take(a.len() as int).take(acc.len() as int));
                }
            }
        },
        SpecStmt::While { body, .. } => {
            lemma_collect_block_keeps(acc, body);
        },
        _ => {
            assert(acc.take(acc.len() as int) =~= acc);
        },
    }
}

/// The same for a block of statements.
pub proof fn lemma_collect_block_keeps(acc: Seq<SpecCallback>, ss: Seq<SpecStmt>)
    ensures
        spec_collect_block(acc, ss) matches Ok((a, out)) ==> {
            &&& a.len() >= acc.len()
            &&& a.take(acc.len() as int) == acc
            &&& a.len() == acc.len() ==> out == ss
        },
    decreases ss,
{
    if ss.len() == 0 {
        assert(acc.take(acc.len() as int) =~= acc);
        assert(ss =~= Seq::<SpecStmt>::empty());
    } else {
        lemma_collect_block_keeps(acc, ss.drop_last());
        if let Ok((a, out)) = spec_collect_block(acc, ss.drop_last()) {
            lemma_collect_stmt_keeps(a, ss.last());
            if let Ok((a2, s2)) = spec_collect_stmt(a, ss.last()) {
                assert(a2.take(acc.len() as int) =~= a2.take(a.len() as int).take(acc.len() as int));
                if a2.len() == acc.len() {
                    assert(out.push(s2) =~= ss);
                }
            }
        }
    }
}

/// The parameter through which a function receives a callback: named after
/// it, of its type, at the position of the statement it was lifted out of.
pub open spec fn spec_callback_param(cb: SpecCallback) -> SpecParam {
    SpecParam { id: cb.id, ty: cb.ty, i: cb.body.info() }
}

pub open spec fn spec_insert_callback_parameters(params: Seq<SpecParam>, cbs: Seq<SpecCallback>) -> Seq<SpecParam> {
    params + cbs.map_values(|cb: SpecCallback| spec_callback_param(cb))
}

fn insert_callback_parameters(params: Vec<Param>, callbacks: &Vec<Callback>) -> (r: Vec<Param>)
    ensures
        params_view(r@) == spec_insert_callback_parameters(params_view(params@), callbacks_view(callbacks@)),
{
    let mut params = params;
    let ghost start = params_view(params@);
    let ghost cv = callbacks_view(callbacks@);
    for k in 0..callbacks.len()
        invariant
            cv == callbacks_view(callbacks@),
            params_view(params@) == start + cv.take(k as int).map_values(
                |cb: SpecCallback| spec_callback_param(cb),
            ),
    {
        let cb = &callbacks[k];
        let p = Param { id: cb.id.clone(), ty: cb.ty.clone(), i: cb.body.get_info() };
        let ghost before = params_view(params@);
        params.push(p);
        assert(params_view(params@) =~= before.push(spec_callback_param(cv[k as int])));
        assert(cv.take(k + 1).map_values(|cb: SpecCallback| spec_callback_param(cb)) =~= cv.take(
            k as int,
        ).map_values(|cb: SpecCallback| spec_callback_param(cb)).push(spec_callback_param(cv[k as int])));
    }
    assert(cv.take(callbacks.len() as int) =~= cv);
    params
}

/// The error for a callback used outside the main function.
pub open spec fn misplaced_callback_msg() -> Seq<char> {
    "Callback functions can only be used from the main function."@
}

/// A host function with the callbacks used in its body lifted out (and
/// appended to `acc`) and received as parameters after its own; a device
/// function or kernel that uses a callback is an error; anything else is
/// unchanged.
pub open spec fn spec_add_callback_parameters(acc: Seq<SpecCallback>, t: SpecTop) -> Result<
    (Seq<SpecCallback>, SpecTop),
    SpecCompileError,
> {
    match t {
        SpecTop::FunDef { ret_ty, id, params, body, target, i } => match spec_collect_block(
            Seq::empty(),
            body,
        ) {
            Err(e) => Err(e),
            Ok((cbs, b)) => if target == Target::Host {
                Ok(
                    (
                        acc + cbs,
                        SpecTop::FunDef {
                            ret_ty,
                            id,
                            params: spec_insert_callback_parameters(params, cbs),
                            body: b,
                            target,
                            i,
                        },
                    ),
                )
            } else if cbs.len() == 0 {
                Ok((acc, t))
            } else {
                Err(error_at(i, misplaced_callback_msg()))
            },
        },
        SpecTop::KernelFunDef { body, i, .. } => match spec_collect_block(Seq::empty(), body) {
            Err(e) => Err(e),
            Ok((cbs, _)) => if cbs.len() == 0 {
                Ok((acc, t))
            } else {
                Err(error_at(i, misplaced_callback_msg()))
            },
        },
        _ => Ok((acc, t)),
    }
}

pub open spec fn top_result_view(r: CompileResult<(Vec<Callback>, Top)>) -> Result<
    (Seq<SpecCallback>, SpecTop),
    SpecCompileError,
> {
    match r {
        Ok((cbs, t)) => Ok((callbacks_view(cbs@), t@)),
        Err(e) => Err(e@),
    }
}

fn add_callback_parameters(acc: Vec<Callback>, t: Top) -> (r: CompileResult<(Vec<Callback>, Top)>)
    ensures
        top_result_view(r) == spec_add_callback_parameters(callbacks_view(acc@), t@),
{
    let mut acc = acc;
    match t {
        Top::FunDef { ret_ty, id, params, body, target, i } => {
            let ghost bv = stmts_view(body@);
            assert(callbacks_view(Seq::<Callback>::empty()) =~= Seq::<SpecCallback>::empty());
            match collect_used_callbacks_stmts(Vec::new(), body) {
                Err(e) => Err(e),
                Ok((cbs, body)) => {
                    let mut cbs = cbs;
                    match target {
                        Target::Host => {
                            let params = insert_callback_parameters(params, &cbs);
                            let ghost before = acc@;
                            let ghost cbv = callbacks_view(cbs@);
                            acc.append(&mut cbs);
                            assert(callbacks_view(acc@) =~= callbacks_view(before) + cbv);
                            Ok((acc, Top::FunDef { ret_ty, id, params, body, target, i }))
                        },
                        Target::Device => {
                            if cbs.len() == 0 {
                                proof {
                                    lemma_collect_block_keeps(Seq::empty(), bv);
                                }
                                Ok((acc, Top::FunDef { ret_ty, id, params, body, target, i }))
                            } else {
                                Err(CompileError::new(&i, "Callback functions can only be used from the main function."))
                            }
                        },
                    }
                },
            }
        },
        Top::KernelFunDef { id, params, body, i } => {
            let ghost bv = stmts_view(body@);
            assert(callbacks_view(Seq::<Callback>::empty()) =~= Seq::<SpecCallback>::empty());
            match collect_used_callbacks_stmts(Vec::new(), body) {
                Err(e) => Err(e),
                Ok((cbs, body)) => {
                    if cbs.len() == 0 {
                        proof {
                            lemma_collect_block_keeps(Seq::empty(), bv);
                        }
                        Ok((acc, Top::KernelFunDef { id, params, body, i }))
                    } else {
                        Err(CompileError::new(&i, "Callback functions can only be used from the main function."))
                    }
                },
            }
        },
        t => Ok((acc, t)),
    }
}

/// `spec_add_callback_parameters` over the definitions of a program, in
/// order, stopping at the first error.
pub open spec fn spec_apply_tops(acc: Seq<SpecCallback>, ts: Seq<SpecTop>) -> Result<
    (Seq<SpecCallback>, Seq<SpecTop>),
    SpecCompileError,
>
    decreases ts.len(),
{
    if ts.len() == 0 {
        Ok((acc, Seq::empty()))
    } else {
        match spec_apply_tops(acc, ts.drop_last()) {
            Err(e) => Err(e),
            Ok((a, out)) => match spec_add_callback_parameters(a, ts.last()) {
                Err(e) => Err(e),
                Ok((a2, t2)) => Ok((a2, out.push(t2))),
            },
        }
    }
}

/// The callbacks that the host functions of a program use, and the program
/// with them lifted out; see `spec_add_callback_parameters`.
pub open spec fn spec_apply(ast: Seq<SpecTop>) -> Result<(Seq<SpecCallback>, Seq<SpecTop>), SpecCompileError> {
    spec_apply_tops(Seq::empty(), ast)
}

pub open spec fn apply_result_view(r: CompileResult<(Vec<Callback>, Ast)>) -> Result<
    (Seq<SpecCallback>, Seq<SpecTop>),
    SpecCompileError,
> {
    match r {
        Ok((cbs, ast)) => Ok((callbacks_view(cbs@), tops_view(ast@))),
        Err(e) => Err(e@),
    }
}

proof fn lemma_apply_tops_err(acc: Seq<SpecCallback>, ts: Seq<SpecTop>, m: int)
    requires
        0 <= m <= ts.len(),
        spec_apply_tops(acc, ts.take(m)) is Err,
    ensures
        spec_apply_tops(acc, ts) == spec_apply_tops(acc, ts.take(m)),
    decreases ts.len() - m,
{
    if m < ts.len() {
        assert(ts.take(m + 1).drop_last() =~= ts.take(m));
        lemma_apply_tops_err(acc, ts, m + 1);
    } else {
        assert(ts.take(m) =~= ts);
    }
}

/// Lifts the Python callbacks out of the host functions of a program.
#[verifier::loop_isolation(false)]
pub fn apply(ast: Ast) -> (r: CompileResult<(Vec<Callback>, Ast)>)
    ensures
        apply_result_view(r) == spec_apply(tops_view(ast@)),
{
    let ghost tv = tops_view(ast@);
    let ghost orig = ast@;
    let mut acc: Vec<Callback> = Vec::new();
    let mut rest = ast;
    let mut out: Vec<Top> = Vec::new();
    let mut k: usize = 0;
    let n: usize = rest.len();
    assert(callbacks_view(acc@) =~= Seq::<SpecCallback>::empty());
    assert(tops_view(out@) =~= Seq::<SpecTop>::empty());
    while rest.len() > 0
        invariant
            n == orig.len(),
            k + rest@.len() == n,
            rest@ == orig.skip(k as int),
            spec_apply_tops(Seq::empty(), tv.take(k as int)) == Ok::<(Seq<SpecCallback>, Seq<SpecTop>), SpecCompileError>(
                (callbacks_view(acc@), tops_view(out@)),
            ),
        decreases rest@.len(),
    {
        let t = rest.remove(0);
        proof {
            assert(t == orig[k as int]);
            assert(tv.take(k + 1).drop_last() =~= tv.take(k as int));
            assert(tv.take(k + 1).last() == tv[k as int]);
            assert(rest@ =~= orig.skip(k + 1));
        }
        match add_callback_parameters(acc, t) {
            Ok((a, t2)) => {
                acc = a;
                let ghost before = out@;
                out.push(t2);
                assert(tops_view(out@) =~= tops_view(before).push(t2@));
            },
            Err(e) => {
                proof {
                    lemma_apply_tops_err(Seq::empty(), tv, k + 1);
                }
                return Err(e);
            },
        }
        k = k + 1;
    }
    assert(tv.take(k as int) =~= tv);
    Ok((acc, out))
}

} // verus!
