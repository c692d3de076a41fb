use parpy::gpu::ast::{BinOp, ElemSize, Expr, MemSpace, Stmt, Type};
use parpy::gpu::ast_builder::{array_access, assign, binop, int_expr, pointer, scalar, var};
use parpy::gpu::free_vars::free_vars;
use parpy::py::ast::{TensorElemSize, TensorShape, Type as PyType};
use parpy::utils::info::Info;
use parpy::utils::name::Name;

fn name(s: &str) -> Name {
    Name::new(s.to_string())
}

fn tensor(sz: ElemSize, dims: Vec<i64>) -> PyType {
    PyType::Tensor {
        sz: TensorElemSize::Fixed { sz },
        shape: dims.into_iter().map(|n| TensorShape::Num { n }).collect(),
    }
}

fn loop_over(body: Vec<Stmt>) -> Stmt {
    let i64_ty = scalar(ElemSize::I64);
    Stmt::For {
        var_ty: i64_ty.clone(),
        var: name("i"),
        init: int_expr(0, None),
        cond: binop(var("i", i64_ty.clone()), BinOp::Lt, var("n", i64_ty.clone()), scalar(ElemSize::Bool)),
        incr: binop(var("i", i64_ty.clone()), BinOp::Add, int_expr(1, None), i64_ty.clone()),
        body,
        i: Info::new(3, 1),
    }
}

#[test]
fn loop_variable_is_bound_and_others_are_free_in_order() {
    let f32_ty = scalar(ElemSize::F32);
    let xs_ty = pointer(f32_ty.clone(), vec![10], MemSpace::Device);
    let body = vec![assign(
        array_access(var("xs", xs_ty.clone()), var("i", scalar(ElemSize::I64)), f32_ty.clone()),
        var("y", f32_ty.clone()),
    )];
    let fvs = free_vars(&loop_over(body));
    assert_eq!(
        fvs,
        vec![
            (name("n"), tensor(ElemSize::I64, vec![])),
            (name("xs"), tensor(ElemSize::F32, vec![10])),
            (name("y"), tensor(ElemSize::F32, vec![])),
        ]
    );
}

#[test]
fn each_free_variable_is_listed_once() {
    let f32_ty = scalar(ElemSize::F32);
    let s = Stmt::Expr {
        e: binop(var("a", f32_ty.clone()), BinOp::Mul, var("a", f32_ty.clone()), f32_ty.clone()),
        i: Info::default(),
    };
    assert_eq!(free_vars(&s), vec![(name("a"), tensor(ElemSize::F32, vec![]))]);
}

#[test]
fn definition_binds_the_rest_of_its_block_only() {
    let f32_ty = scalar(ElemSize::F32);
    let body = vec![
        Stmt::Definition { ty: f32_ty.clone(), id: name("t"), expr: var("u", f32_ty.clone()), i: Info::default() },
        Stmt::Return { value: var("t", f32_ty.clone()), i: Info::default() },
    ];
    let s = Stmt::While { cond: var("t", scalar(ElemSize::Bool)), body, i: Info::default() };
    assert_eq!(
        free_vars(&s),
        vec![(name("t"), tensor(ElemSize::Bool, vec![])), (name("u"), tensor(ElemSize::F32, vec![]))]
    );
}

#[test]
fn other_types_have_no_tensor_type() {
    let fn_ty = Type::Function { result: Box::new(Type::Void), args: vec![] };
    let host_ptr = pointer(pointer(scalar(ElemSize::I8), vec![2], MemSpace::Host), vec![3], MemSpace::Host);
    let s = Stmt::Expr {
        e: Expr::Call { id: name("g"), args: vec![var("f", fn_ty), var("p", host_ptr)], ty: Type::Void, i: Info::default() },
        i: Info::default(),
    };
    assert_eq!(free_vars(&s), vec![(name("f"), PyType::Unknown), (name("p"), PyType::Unknown)]);
}
