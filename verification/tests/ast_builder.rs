use parpy::gpu::ast::{BinOp, Dim, ElemSize, Expr, MemSpace, Stmt, Type, UnOp};
use parpy::gpu::ast_builder::{
    array_access, assign, binop, block_idx, bool_expr, bool_ty, convert, id, if_stmt, int_expr,
    pointer, scalar, thread_idx, unop, var,
};
use parpy::utils::info::Info;
use parpy::utils::name::Name;

fn i64_ty() -> Type {
    Type::Scalar { sz: ElemSize::I64 }
}

#[test]
fn id_makes_plain_name() {
    assert_eq!(id("x"), Name { sym: "x".to_string(), id: None });
}

#[test]
fn scalar_and_bool_types() {
    assert_eq!(scalar(ElemSize::F32), Type::Scalar { sz: ElemSize::F32 });
    assert_eq!(bool_ty(), Type::Scalar { sz: ElemSize::Bool });
}

#[test]
fn pointer_type() {
    assert_eq!(
        pointer(scalar(ElemSize::U8), vec![2, 3], MemSpace::Device),
        Type::Pointer {
            ty: Box::new(Type::Scalar { sz: ElemSize::U8 }),
            shape: vec![2, 3],
            mem: MemSpace::Device
        }
    );
}

#[test]
fn var_and_bool_expressions() {
    assert_eq!(
        var("y", i64_ty()),
        Expr::Var { id: Name::new("y".to_string()), ty: i64_ty(), i: Info::default() }
    );
    assert_eq!(
        bool_expr(true),
        Expr::Bool { v: true, ty: Type::Scalar { sz: ElemSize::Bool }, i: Info::default() }
    );
}

#[test]
fn int_defaults_to_i64() {
    assert_eq!(int_expr(3, None), Expr::Int { v: 3, ty: i64_ty(), i: Info::default() });
    assert_eq!(
        int_expr(-7, Some(ElemSize::I16)),
        Expr::Int { v: -7, ty: Type::Scalar { sz: ElemSize::I16 }, i: Info::default() }
    );
}

#[test]
fn operators() {
    assert_eq!(
        unop(UnOp::Sub, int_expr(1, None), i64_ty()),
        Expr::UnOp {
            op: UnOp::Sub,
            arg: Box::new(int_expr(1, None)),
            ty: i64_ty(),
            i: Info::default()
        }
    );
    assert_eq!(
        binop(var("a", i64_ty()), BinOp::Add, int_expr(2, None), i64_ty()),
        Expr::BinOp {
            lhs: Box::new(var("a", i64_ty())),
            op: BinOp::Add,
            rhs: Box::new(int_expr(2, None)),
            ty: i64_ty(),
            i: Info::default()
        }
    );
}

#[test]
fn thread_and_block_indices_are_i64() {
    assert_eq!(thread_idx(Dim::X), Expr::ThreadIdx { dim: Dim::X, ty: i64_ty(), i: Info::default() });
    assert_eq!(block_idx(Dim::Z), Expr::BlockIdx { dim: Dim::Z, ty: i64_ty(), i: Info::default() });
}

#[test]
fn convert_and_array_access() {
    let f32_ty = scalar(ElemSize::F32);
    assert_eq!(
        convert(f32_ty.clone(), var("a", i64_ty())),
        Expr::Convert { ty: f32_ty.clone(), e: Box::new(var("a", i64_ty())) }
    );
    let arr = var("xs", pointer(f32_ty.clone(), vec![4], MemSpace::Device));
    assert_eq!(
        array_access(arr.clone(), int_expr(0, None), f32_ty.clone()),
        Expr::ArrayAccess {
            target: Box::new(arr),
            idx: Box::new(int_expr(0, None)),
            ty: f32_ty,
            i: Info::default()
        }
    );
}

#[test]
fn assign_takes_type_of_value() {
    let f64_ty = scalar(ElemSize::F64);
    let s = assign(var("x", i64_ty()), var("y", f64_ty.clone()));
    assert_eq!(
        s,
        Stmt::Expr {
            e: Expr::Assign {
                lhs: Box::new(var("x", i64_ty())),
                rhs: Box::new(var("y", f64_ty.clone())),
                ty: f64_ty,
                i: Info::default()
            },
            i: Info::default()
        }
    );
}

#[test]
fn if_statement() {
    let thn = vec![assign(var("x", i64_ty()), int_expr(1, None))];
    let els = vec![];
    assert_eq!(
        if_stmt(bool_expr(false), thn.clone(), els),
        Stmt::If { cond: bool_expr(false), thn, els: vec![], i: Info::default() }
    );
}
