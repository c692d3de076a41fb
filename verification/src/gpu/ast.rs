//! The abstract syntax of the GPU language, and what each tree stands for.

use vstd::prelude::*;

use crate::utils::info::Info;
use crate::utils::name::{Name, NameView};

verus! {

/// The size and kind of a scalar element.
#[derive(Clone, Copy, Debug, PartialEq, Eq, Structural)]
pub enum ElemSize {
    Bool,
    I8,
    I16,
    I32,
    I64,
    U8,
    U16,
    U32,
    U64,
    F16,
    F32,
    F64,
}

/// Where the memory behind a pointer lives.
#[derive(Clone, Copy, Debug, PartialEq, Eq, Structural)]
pub enum MemSpace {
    Host,
    Device,
}

/// A dimension of the grid of threads and blocks.
#[derive(Clone, Copy, Debug, PartialEq, Eq, Structural)]
pub enum Dim {
    X,
    Y,
    Z,
}

#[derive(Clone, Copy, Debug, PartialEq, Eq, Structural)]
pub enum UnOp {
    Sub,
    Not,
    BitNeg,
    Abs,
    Sqrt,
    Exp,
    Log,
}

#[derive(Clone, Copy, Debug, PartialEq, Eq, Structural)]
pub enum BinOp {
    Add,
    Sub,
    Mul,
    Div,
    Rem,
    Pow,
    And,
    Or,
    BitAnd,
    BitOr,
    BitXor,
    BitShl,
    BitShr,
    Eq,
    Neq,
    Leq,
    Geq,
    Lt,
    Gt,
    Max,
    Min,
}

/// Whether a function runs on the host or on the device.
#[derive(Clone, Copy, Debug, PartialEq, Eq, Structural)]
pub enum Target {
    Host,
    Device,
}

/// A type of the GPU language.
#[derive(Debug, PartialEq, Eq)]
pub enum Type {
    Void,
    Scalar { sz: ElemSize },
    Pointer { ty: Box<Type>, shape: Vec<i64>, mem: MemSpace },
    Function { result: Box<Type>, args: Vec<Type> },
}

/// An expression of the GPU language. A floating-point literal holds the
/// bit pattern of its IEEE 754 double-precision value.
#[derive(Debug, PartialEq, Eq)]
#[allow(inconsistent_fields)]
pub enum Expr {
    Var { id: Name, ty: Type, i: Info },
    Bool { v: bool, ty: Type, i: Info },
    Int { v: i128, ty: Type, i: Info },
    Float { v: u64, ty: Type, i: Info },
    UnOp { op: UnOp, arg: Box<Expr>, ty: Type, i: Info },
    BinOp { lhs: Box<Expr>, op: BinOp, rhs: Box<Expr>, ty: Type, i: Info },
    ArrayAccess { target: Box<Expr>, idx: Box<Expr>, ty: Type, i: Info },
    Call { id: Name, args: Vec<Expr>, ty: Type, i: Info },
    PyCallback { id: Name, args: Vec<Expr>, ty: Type, i: Info },
    Convert { e: Box<Expr>, ty: Type },
    ThreadIdx { dim: Dim, ty: Type, i: Info },
    BlockIdx { dim: Dim, ty: Type, i: Info },
    Assign { lhs: Box<Expr>, rhs: Box<Expr>, ty: Type, i: Info },
}

/// A statement of the GPU language.
#[derive(Debug, PartialEq, Eq)]
pub enum Stmt {
    Definition { ty: Type, id: Name, expr: Expr, i: Info },
    For {
        var_ty: Type,
        var: Name,
        init: Expr,
        cond: Expr,
        incr: Expr,
        body: Vec<Stmt>,
        i: Info,
    },
    If { cond: Expr, thn: Vec<Stmt>, els: Vec<Stmt>, i: Info },
    While { cond: Expr, body: Vec<Stmt>, i: Info },
    Return { value: Expr, i: Info },
    Expr { e: Expr, i: Info },
}

/// A parameter of a GPU function.
#[derive(Debug, PartialEq, Eq)]
pub struct Param {
    pub id: Name,
    pub ty: Type,
    pub i: Info,
}

/// A top-level definition of a GPU program.
#[derive(Debug, PartialEq, Eq)]
pub enum Top {
    StructDef { id: Name, fields: Vec<Param>, i: Info },
    FunDef {
        ret_ty: Type,
        id: Name,
        params: Vec<Param>,
        body: Vec<Stmt>,
        target: Target,
        i: Info,
    },
    KernelFunDef { id: Name, params: Vec<Param>, body: Vec<Stmt>, i: Info },
}

/// A GPU program.
pub type Ast = Vec<Top>;

// ---------------------------------------------------------------------------
// Mathematical models: the same trees, with sequences in place of vectors.
pub enum SpecType {
    Void,
    Scalar { sz: ElemSize },
    Pointer { ty: Box<SpecType>, shape: Seq<i64>, mem: MemSpace },
    Function { result: Box<SpecType>, args: Seq<SpecType> },
}

#[allow(inconsistent_fields)]
pub enum SpecExpr {
    Var { id: NameView, ty: SpecType, i: Info },
    Bool { v: bool, ty: SpecType, i: Info },
    Int { v: i128, ty: SpecType, i: Info },
    Float { v: u64, ty: SpecType, i: Info },
    UnOp { op: UnOp, arg: Box<SpecExpr>, ty: SpecType, i: Info },
    BinOp { lhs: Box<SpecExpr>, op: BinOp, rhs: Box<SpecExpr>, ty: SpecType, i: Info },
    ArrayAccess { target: Box<SpecExpr>, idx: Box<SpecExpr>, ty: SpecType, i: Info },
    Call { id: NameView, args: Seq<SpecExpr>, ty: SpecType, i: Info },
    PyCallback { id: NameView, args: Seq<SpecExpr>, ty: SpecType, i: Info },
    Convert { e: Box<SpecExpr>, ty: SpecType },
    ThreadIdx { dim: Dim, ty: SpecType, i: Info },
    BlockIdx { dim: Dim, ty: SpecType, i: Info },
    Assign { lhs: Box<SpecExpr>, rhs: Box<SpecExpr>, ty: SpecType, i: Info },
}

pub enum SpecStmt {
    Definition { ty: SpecType, id: NameView, expr: SpecExpr, i: Info },
    For {
        var_ty: SpecType,
        var: NameView,
        init: SpecExpr,
        cond: SpecExpr,
        incr: SpecExpr,
        body: Seq<SpecStmt>,
        i: Info,
    },
    If { cond: SpecExpr, thn: Seq<SpecStmt>, els: Seq<SpecStmt>, i: Info },
    While { cond: SpecExpr, body: Seq<SpecStmt>, i: Info },
    Return { value: SpecExpr, i: Info },
    Expr { e: SpecExpr, i: Info },
}

pub struct SpecParam {
    pub id: NameView,
    pub ty: SpecType,
    pub i: Info,
}

pub enum SpecTop {
    StructDef { id: NameView, fields: Seq<SpecParam>, i: Info },
    FunDef {
        ret_ty: SpecType,
        id: NameView,
        params: Seq<SpecParam>,
        body: Seq<SpecStmt>,
        target: Target,
        i: Info,
    },
    KernelFunDef { id: NameView, params: Seq<SpecParam>, body: Seq<SpecStmt>, i: Info },
}

pub open spec fn type_view(t: Type) -> SpecType
    decreases t,
{
    match t {
        Type::Void => SpecType::Void,
        Type::Scalar { sz } => SpecType::Scalar { sz },
        Type::Pointer { ty, shape, mem } => SpecType::Pointer {
            ty: Box::new(type_view(*ty)),
            shape: shape@,
            mem,
        },
        Type::Function { result, args } => SpecType::Function {
            result: Box::new(type_view(*result)),
            args: types_view(args@),
        },
    }
}

pub open spec fn types_view(ts: Seq<Type>) -> Seq<SpecType>
    decreases ts,
{
    if ts.len() == 0 {
        Seq::empty()
    } else {
        types_view(ts.drop_last()).push(type_view(ts.last()))
    }
}

pub open spec fn expr_view(e: Expr) -> SpecExpr
    decreases e,
{
    match e {
        Expr::Var { id, ty, i } => SpecExpr::Var { id: id@, ty: type_view(ty), i },
        Expr::Bool { v, ty, i } => SpecExpr::Bool { v, ty: type_view(ty), i },
        Expr::Int { v, ty, i } => SpecExpr::Int { v, ty: type_view(ty), i },
        Expr::Float { v, ty, i } => SpecExpr::Float { v, ty: type_view(ty), i },
        Expr::UnOp { op, arg, ty, i } => SpecExpr::UnOp {
            op,
            arg: Box::new(expr_view(*arg)),
            ty: type_view(ty),
            i,
        },
        Expr::BinOp { lhs, op, rhs, ty, i } => SpecExpr::BinOp {
            lhs: Box::new(expr_view(*lhs)),
            op,
            rhs: Box::new(expr_view(*rhs)),
            ty: type_view(ty),
            i,
        },
        Expr::ArrayAccess { target, idx, ty, i } => SpecExpr::ArrayAccess {
            target: Box::new(expr_view(*target)),
            idx: Box::new(expr_view(*idx)),
            ty: type_view(ty),
            i,
        },
        Expr::Call { id, args, ty, i } => SpecExpr::Call {
            id: id@,
            args: exprs_view(args@),
            ty: type_view(ty),
            i,
        },
        Expr::PyCallback { id, args, ty, i } => SpecExpr::PyCallback {
            id: id@,
            args: exprs_view(args@),
            ty: type_view(ty),
            i,
        },
        Expr::Convert { e, ty } => SpecExpr::Convert { e: Box::new(expr_view(*e)), ty: type_view(ty) },
        Expr::ThreadIdx { dim, ty, i } => SpecExpr::ThreadIdx { dim, ty: type_view(ty), i },
        Expr::BlockIdx { dim, ty, i } => SpecExpr::BlockIdx { dim, ty: type_view(ty), i },
        Expr::Assign { lhs, rhs, ty, i } => SpecExpr::Assign {
            lhs: Box::new(expr_view(*lhs)),
            rhs: Box::new(expr_view(*rhs)),
            ty: type_view(ty),
            i,
        },
    }
}

pub open spec fn exprs_view(es: Seq<Expr>) -> Seq<SpecExpr>
    decreases es,
{
    if es.len() == 0 {
        Seq::empty()
    } else {
        exprs_view(es.drop_last()).push(expr_view(es.last()))
    }
}

pub open spec fn stmt_view(s: Stmt) -> SpecStmt
    decreases s,
{
    match s {
        Stmt::Definition { ty, id, expr, i } => SpecStmt::Definition {
            ty: type_view(ty),
            id: id@,
            expr: expr_view(expr),
            i,
        },
        Stmt::For { var_ty, var, init, cond, incr, body, i } => SpecStmt::For {
            var_ty: type_view(var_ty),
            var: var@,
            init: expr_view(init),
            cond: expr_view(cond),
            incr: expr_view(incr),
            body: stmts_view(body@),
            i,
        },
        Stmt::If { cond, thn, els, i } => SpecStmt::If {
            cond: expr_view(cond),
            thn: stmts_view(thn@),
            els: stmts_view(els@),
            i,
        },
        Stmt::While { cond, body, i } => SpecStmt::While {
            cond: expr_view(cond),
            body: stmts_view(body@),
            i,
        },
        Stmt::Return { value, i } => SpecStmt::Return { value: expr_view(value), i },
        Stmt::Expr { e, i } => SpecStmt::Expr { e: expr_view(e), i },
    }
}

pub open spec fn stmts_view(ss: Seq<Stmt>) -> Seq<SpecStmt>
    decreases ss,
{
    if ss.len() == 0 {
        Seq::empty()
    } else {
        stmts_view(ss.drop_last()).push(stmt_view(ss.last()))
    }
}

pub open spec fn param_view(p: Param) -> SpecParam {
    SpecParam { id: p.id@, ty: type_view(p.ty), i: p.i }
}

pub open spec fn params_view(ps: Seq<Param>) -> Seq<SpecParam> {
    ps.map_values(|p: Param| param_view(p))
}

pub open spec fn top_view(t: Top) -> SpecTop {
    match t {
        Top::StructDef { id, fields, i } => SpecTop::StructDef {
            id: id@,
            fields: params_view(fields@),
            i,
        },
        Top::FunDef { ret_ty, id, params, body, target, i } => SpecTop::FunDef {
            ret_ty: type_view(ret_ty),
            id: id@,
            params: params_view(params@),
            body: stmts_view(body@),
            target,
            i,
        },
        Top::KernelFunDef { id, params, body, i } => SpecTop::KernelFunDef {
            id: id@,
            params: params_view(params@),
            body: stmts_view(body@),
            i,
        },
    }
}

pub open spec fn tops_view(ts: Seq<Top>) -> Seq<SpecTop> {
    ts.map_values(|t: Top| top_view(t))
}

impl View for Type {
    type V = SpecType;

    open spec fn view(&self) -> SpecType {
        type_view(*self)
    }
}

impl View for Expr {
    type V = SpecExpr;

    open spec fn view(&self) -> SpecExpr {
        expr_view(*self)
    }
}

impl View for Stmt {
    type V = SpecStmt;

    open spec fn view(&self) -> SpecStmt {
        stmt_view(*self)
    }
}

impl View for Param {
    type V = SpecParam;

    open spec fn view(&self) -> SpecParam {
        param_view(*self)
    }
}

impl View for Top {
    type V = SpecTop;

    open spec fn view(&self) -> SpecTop {
        top_view(*self)
    }
}

pub broadcast proof fn lemma_types_view_len(ts: Seq<Type>)
    ensures
        #[trigger] types_view(ts).len() == ts.len(),
    decreases ts.len(),
{
    if ts.len() > 0 {
        lemma_types_view_len(ts.drop_last());
    }
}

pub broadcast proof fn lemma_types_view_index(ts: Seq<Type>, j: int)
    requires
        0 <= j < ts.len(),
    ensures
        #[trigger] types_view(ts)[j] == type_view(ts[j]),
    decreases ts.len(),
{
    lemma_types_view_len(ts.drop_last());
    if j < ts.len() - 1 {
        lemma_types_view_index(ts.drop_last(), j);
    }
}

pub broadcast proof fn lemma_exprs_view_len(es: Seq<Expr>)
    ensures
        #[trigger] exprs_view(es).len() == es.len(),
    decreases es.len(),
{
    if es.len() > 0 {
        lemma_exprs_view_len(es.drop_last());
    }
}

pub broadcast proof fn lemma_exprs_view_index(es: Seq<Expr>, j: int)
    requires
        0 <= j < es.len(),
    ensures
        #[trigger] exprs_view(es)[j] == expr_view(es[j]),
    decreases es.len(),
{
    lemma_exprs_view_len(es.drop_last());
    if j < es.len() - 1 {
        lemma_exprs_view_index(es.drop_last(), j);
    }
}

pub broadcast proof fn lemma_stmts_view_len(ss: Seq<Stmt>)
    ensures
        #[trigger] stmts_view(ss).len() == ss.len(),
    decreases ss.len(),
{
    if ss.len() > 0 {
        lemma_stmts_view_len(ss.drop_last());
    }
}

pub broadcast proof fn lemma_stmts_view_index(ss: Seq<Stmt>, j: int)
    requires
        0 <= j < ss.len(),
    ensures
        #[trigger] stmts_view(ss)[j] == stmt_view(ss[j]),
    decreases ss.len(),
{
    lemma_stmts_view_len(ss.drop_last());
    if j < ss.len() - 1 {
        lemma_stmts_view_index(ss.drop_last(), j);
    }
}

pub broadcast group group_gpu_views {
    lemma_types_view_len,
    lemma_types_view_index,
    lemma_exprs_view_len,
    lemma_exprs_view_index,
    lemma_stmts_view_len,
    lemma_stmts_view_index,
}

fn clone_types(xs: &Vec<Type>) -> (r: Vec<Type>)
    ensures
        types_view(r@) == types_view(xs@),
    decreases xs,
{
    broadcast use group_gpu_views;

    let mut out: Vec<Type> = Vec::new();
    for k in 0..xs.len()
        invariant
            out@.len() == k,
            forall|j: int| 0 <= j < k ==> type_view(#[trigger] out@[j]) == type_view(xs@[j]),
    {
        proof {
            assert(decreases_to!(xs => xs@));
            assert(decreases_to!(xs@ => xs@[k as int]));
        }
        out.push(xs[k].clone());
    }
    assert(types_view(out@) =~= types_view(xs@));
    out
}

fn clone_exprs(xs: &Vec<Expr>) -> (r: Vec<Expr>)
    ensures
        exprs_view(r@) == exprs_view(xs@),
    decreases xs,
{
    broadcast use group_gpu_views;

    let mut out: Vec<Expr> = Vec::new();
    for k in 0..xs.len()
        invariant
            out@.len() == k,
            forall|j: int| 0 <= j < k ==> expr_view(#[trigger] out@[j]) == expr_view(xs@[j]),
    {
        proof {
            assert(decreases_to!(xs => xs@));
            assert(decreases_to!(xs@ => xs@[k as int]));
        }
        out.push(xs[k].clone());
    }
    assert(exprs_view(out@) =~= exprs_view(xs@));
    out
}

fn clone_stmts(xs: &Vec<Stmt>) -> (r: Vec<Stmt>)
    ensures
        stmts_view(r@) == stmts_view(xs@),
    decreases xs,
{
    broadcast use group_gpu_views;

    let mut out: Vec<Stmt> = Vec::new();
    for k in 0..xs.len()
        invariant
            out@.len() == k,
            forall|j: int| 0 <= j < k ==> stmt_view(#[trigger] out@[j]) == stmt_view(xs@[j]),
    {
        proof {
            assert(decreases_to!(xs => xs@));
            assert(decreases_to!(xs@ => xs@[k as int]));
        }
        out.push(xs[k].clone());
    }
    assert(stmts_view(out@) =~= stmts_view(xs@));
    out
}

impl Clone for Type {
    fn clone(&self) -> (r: Type)
        ensures
            r@ == self@,
        decreases self,
    {
        match self {
            Type::Void => Type::Void,
            Type::Scalar { sz } => Type::Scalar { sz: *sz },
            Type::Pointer { ty, shape, mem } => Type::Pointer {
                ty: Box::new((**ty).clone()),
                shape: shape.clone(),
                mem: *mem,
            },
            Type::Function { result, args } => {
                proof {
                    assert(decreases_to!(*self => self->args));
                }
                Type::Function { result: Box::new((**result).clone()), args: clone_types(args) }
            },
        }
    }
}

impl Clone for Expr {
    fn clone(&self) -> (r: Expr)
        ensures
            r@ == self@,
        decreases self,
    {
        match self {
            Expr::Var { id, ty, i } => Expr::Var { id: id.clone(), ty: ty.clone(), i: *i },
            Expr::Bool { v, ty, i } => Expr::Bool { v: *v, ty: ty.clone(), i: *i },
            Expr::Int { v, ty, i } => Expr::Int { v: *v, ty: ty.clone(), i: *i },
            Expr::Float { v, ty, i } => Expr::Float { v: *v, ty: ty.clone(), i: *i },
            Expr::UnOp { op, arg, ty, i } => Expr::UnOp {
                op: *op,
                arg: Box::new((**arg).clone()),
                ty: ty.clone(),
                i: *i,
            },
            Expr::BinOp { lhs, op, rhs, ty, i } => Expr::BinOp {
                lhs: Box::new((**lhs).clone()),
                op: *op,
                rhs: Box::new((**rhs).clone()),
                ty: ty.clone(),
                i: *i,
            },
            Expr::ArrayAccess { target, idx, ty, i } => Expr::ArrayAccess {
                target: Box::new((**target).clone()),
                idx: Box::new((**idx).clone()),
                ty: ty.clone(),
                i: *i,
            },
            Expr::Call { id, args, ty, i } => {
                proof {
                    assert(decreases_to!(*self => self->Call_args));
                }
                Expr::Call { id: id.clone(), args: clone_exprs(args), ty: ty.clone(), i: *i }
            },
            Expr::PyCallback { id, args, ty, i } => {
                proof {
                    assert(decreases_to!(*self => self->PyCallback_args));
                }
                Expr::PyCallback { id: id.clone(), args: clone_exprs(args), ty: ty.clone(), i: *i }
            },
            Expr::Convert { e, ty } => Expr::Convert { e: Box::new((**e).clone()), ty: ty.clone() },
            Expr::ThreadIdx { dim, ty, i } => Expr::ThreadIdx { dim: *dim, ty: ty.clone(), i: *i },
            Expr::BlockIdx { dim, ty, i } => Expr::BlockIdx { dim: *dim, ty: ty.clone(), i: *i },
            Expr::Assign { lhs, rhs, ty, i } => Expr::Assign {
                lhs: Box::new((**lhs).clone()),
                rhs: Box::new((**rhs).clone()),
                ty: ty.clone(),
                i: *i,
            },
        }
    }
}

impl Clone for Stmt {
    fn clone(&self) -> (r: Stmt)
        ensures
            r@ == self@,
        decreases self,
    {
        match self {
            Stmt::Definition { ty, id, expr, i } => Stmt::Definition {
                ty: ty.clone(),
                id: id.clone(),
                expr: expr.clone(),
                i: *i,
            },
            Stmt::For { var_ty, var, init, cond, incr, body, i } => {
                proof {
                    assert(decreases_to!(*self => self->For_body));
                }
                Stmt::For {
                    var_ty: var_ty.clone(),
                    var: var.clone(),
                    init: init.clone(),
                    cond: cond.clone(),
                    incr: incr.clone(),
                    body: clone_stmts(body),
                    i: *i,
                }
            },
            Stmt::If { cond, thn, els, i } => {
                proof {
                    assert(decreases_to!(*self => self->thn));
                    assert(decreases_to!(*self => self->els));
                }
                Stmt::If { cond: cond.clone(), thn: clone_stmts(thn), els: clone_stmts(els), i: *i }
            },
            Stmt::While { cond, body, i } => {
                proof {
                    assert(decreases_to!(*self => self->While_body));
                }
                Stmt::While { cond: cond.clone(), body: clone_stmts(body), i: *i }
            },
            Stmt::Return { value, i } => Stmt::Return { value: value.clone(), i: *i },
            Stmt::Expr { e, i } => Stmt::Expr { e: e.clone(), i: *i },
        }
    }
}

impl Clone for Param {
    fn clone(&self) -> (r: Param)
        ensures
            r@ == self@,
    {
        Param { id: self.id.clone(), ty: self.ty.clone(), i: self.i }
    }
}

fn clone_params(ps: &Vec<Param>) -> (r: Vec<Param>)
    ensures
        params_view(r@) == params_view(ps@),
{
    let mut out: Vec<Param> = Vec::new();
    for k in 0..ps.len()
        invariant
            out@.len() == k,
            forall|j: int| 0 <= j < k ==> param_view(#[trigger] out@[j]) == param_view(ps@[j]),
    {
        out.push(ps[k].clone());
    }
    assert(params_view(out@) =~= params_view(ps@));
    out
}

impl Clone for Top {
    fn clone(&self) -> (r: Top)
        ensures
            r@ == self@,
    {
        match self {
            Top::StructDef { id, fields, i } => Top::StructDef {
                id: id.clone(),
                fields: clone_params(fields),
                i: *i,
            },
            Top::FunDef { ret_ty, id, params, body, target, i } => Top::FunDef {
                ret_ty: ret_ty.clone(),
                id: id.clone(),
                params: clone_params(params),
                body: clone_stmts(body),
                target: *target,
                i: *i,
            },
            Top::KernelFunDef { id, params, body, i } => Top::KernelFunDef {
                id: id.clone(),
                params: clone_params(params),
                body: clone_stmts(body),
                i: *i,
            },
        }
    }
}

impl Expr {
    /// The type of the value of the expression.
    pub fn get_type(&self) -> (r: &Type)
        ensures
            r@ == self@.ty(),
    {
        match self {
            Expr::Var { ty, .. } => ty,
            Expr::Bool { ty, .. } => ty,
            Expr::Int { ty, .. } => ty,
            Expr::Float { ty, .. } => ty,
            Expr::UnOp { ty, .. } => ty,
            Expr::BinOp { ty, .. } => ty,
            Expr::ArrayAccess { ty, .. } => ty,
            Expr::Call { ty, .. } => ty,
            Expr::PyCallback { ty, .. } => ty,
            Expr::Convert { ty, .. } => ty,
            Expr::ThreadIdx { ty, .. } => ty,
            Expr::BlockIdx { ty, .. } => ty,
            Expr::Assign { ty, .. } => ty,
        }
    }
}

impl SpecExpr {
    pub open spec fn ty(self) -> SpecType {
        match self {
            SpecExpr::Var { ty, .. } => ty,
            SpecExpr::Bool { ty, .. } => ty,
            SpecExpr::Int { ty, .. } => ty,
            SpecExpr::Float { ty, .. } => ty,
            SpecExpr::UnOp { ty, .. } => ty,
            SpecExpr::BinOp { ty, .. } => ty,
            SpecExpr::ArrayAccess { ty, .. } => ty,
            SpecExpr::Call { ty, .. } => ty,
            SpecExpr::PyCallback { ty, .. } => ty,
            SpecExpr::Convert { ty, .. } => ty,
            SpecExpr::ThreadIdx { ty, .. } => ty,
            SpecExpr::BlockIdx { ty, .. } => ty,
            SpecExpr::Assign { ty, .. } => ty,
        }
    }
}

impl Stmt {
    /// The position of the statement in the source program.
    pub fn get_info(&self) -> (r: Info)
        ensures
            r == self@.info(),
    {
        match self {
            Stmt::Definition { i, .. } => *i,
            Stmt::For { i, .. } => *i,
            Stmt::If { i, .. } => *i,
            Stmt::While { i, .. } => *i,
            Stmt::Return { i, .. } => *i,
            Stmt::Expr { i, .. } => *i,
        }
    }
}

impl SpecStmt {
    pub open spec fn info(self) -> Info {
        match self {
            SpecStmt::Definition { i, .. } => i,
            SpecStmt::For { i, .. } => i,
            SpecStmt::If { i, .. } => i,
            SpecStmt::While { i, .. } => i,
            SpecStmt::Return { i, .. } => i,
            SpecStmt::Expr { i, .. } => i,
        }
    }
}

} // verus!
