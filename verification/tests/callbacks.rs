use parpy::callbacks::extract_callbacks::{apply, py_to_gpu_type, Callback};
use parpy::gpu::ast::{BinOp, ElemSize, Expr, MemSpace, Param, Stmt, Target, Top, Type};
use parpy::gpu::ast_builder::{binop, int_expr, pointer, scalar, var};
use parpy::py::ast::{Param as PyParam, TensorElemSize, TensorShape, Type as PyType};
use parpy::utils::err::CompileError;
use parpy::utils::info::Info;
use parpy::utils::name::Name;

fn name(s: &str) -> Name {
    Name::new(s.to_string())
}

fn tensor(sz: ElemSize, dims: Vec<i64>) -> PyType {
    PyType::Tensor {
        sz: TensorElemSize::Fixed { sz },
        shape: dims.into_iter().map(|n| TensorShape::Num { n }).collect(),
    }
}

fn xs_ty() -> Type {
    pointer(scalar(ElemSize::F32), vec![10], MemSpace::Device)
}

fn callback_use(cb: &str, at: Info) -> Stmt {
    Stmt::Expr {
        e: Expr::PyCallback { id: name(cb), args: vec![var("xs", xs_ty())], ty: Type::Void, i: at },
        i: Info::new(at.line, 0),
    }
}

fn loop_over(body: Vec<Stmt>, at: Info) -> Stmt {
    let i64_ty = scalar(ElemSize::I64);
    Stmt::For {
        var_ty: i64_ty.clone(),
        var: name("i"),
        init: int_expr(0, None),
        cond: binop(var("i", i64_ty.clone()), BinOp::Lt, var("n", i64_ty.clone()), scalar(ElemSize::Bool)),
        incr: binop(var("i", i64_ty.clone()), BinOp::Add, int_expr(1, None), i64_ty.clone()),
        body,
        i: at,
    }
}

fn fun(target: Target, body: Vec<Stmt>, at: Info) -> Top {
    Top::FunDef {
        ret_ty: Type::Void,
        id: name("main"),
        params: vec![Param { id: name("n"), ty: scalar(ElemSize::I64), i: Info::new(1, 9) }],
        body,
        target,
        i: at,
    }
}

fn kernel(body: Vec<Stmt>, at: Info) -> Top {
    Top::KernelFunDef { id: name("k"), params: vec![], body, i: at }
}

#[test]
fn scalar_tensor_becomes_scalar() {
    let r = py_to_gpu_type(tensor(ElemSize::I32, vec![]), &Info::new(1, 1));
    assert_eq!(r, Ok(Type::Scalar { sz: ElemSize::I32 }));
}

#[test]
fn tensor_becomes_device_pointer() {
    let r = py_to_gpu_type(tensor(ElemSize::F64, vec![4, 5]), &Info::new(1, 1));
    assert_eq!(
        r,
        Ok(Type::Pointer {
            ty: Box::new(Type::Scalar { sz: ElemSize::F64 }),
            shape: vec![4, 5],
            mem: MemSpace::Device
        })
    );
}

#[test]
fn unresolved_shape_is_an_error() {
    let ty = PyType::Tensor {
        sz: TensorElemSize::Fixed { sz: ElemSize::F32 },
        shape: vec![TensorShape::Num { n: 3 }, TensorShape::Symbol { id: name("N") }],
    };
    let r = py_to_gpu_type(ty, &Info::new(7, 2));
    assert_eq!(
        r,
        Err(CompileError { i: Info::new(7, 2), msg: "Found unresolved shape variable".to_string() })
    );
}

#[test]
fn other_python_types_become_void() {
    assert_eq!(py_to_gpu_type(PyType::String, &Info::default()), Ok(Type::Void));
    let variable = PyType::Tensor { sz: TensorElemSize::Variable { id: name("T") }, shape: vec![] };
    assert_eq!(py_to_gpu_type(variable, &Info::default()), Ok(Type::Void));
}

fn expected_call_args() -> Vec<Expr> {
    vec![
        Expr::Var { id: name("n"), ty: scalar(ElemSize::I64), i: Info::default() },
        Expr::Var { id: name("xs"), ty: xs_ty(), i: Info::default() },
    ]
}

fn expected_callback_type() -> Type {
    Type::Pointer {
        ty: Box::new(Type::Function {
            result: Box::new(Type::Void),
            args: vec![scalar(ElemSize::I64), xs_ty()],
        }),
        shape: vec![],
        mem: MemSpace::Host,
    }
}

fn expected_params() -> Vec<PyParam> {
    vec![
        PyParam { id: name("n"), ty: tensor(ElemSize::I64, vec![]), i: Info::default() },
        PyParam { id: name("xs"), ty: tensor(ElemSize::F32, vec![10]), i: Info::default() },
    ]
}

#[test]
fn loop_around_callback_is_lifted_out_of_host_function() {
    let at_loop = Info::new(4, 1);
    let at_cb = Info::new(5, 3);
    let the_loop = loop_over(vec![callback_use("cb", at_cb)], at_loop);
    let ast = vec![fun(Target::Host, vec![the_loop.clone()], Info::new(1, 1))];
    let (cbs, out) = apply(ast).unwrap();
    assert_eq!(
        cbs,
        vec![Callback { id: name("cb"), params: expected_params(), ty: expected_callback_type(), body: the_loop }]
    );
    let call = Stmt::Expr {
        e: Expr::Call { id: name("cb"), args: expected_call_args(), ty: Type::Void, i: at_cb },
        i: at_cb,
    };
    assert_eq!(
        out,
        vec![Top::FunDef {
            ret_ty: Type::Void,
            id: name("main"),
            params: vec![
                Param { id: name("n"), ty: scalar(ElemSize::I64), i: Info::new(1, 9) },
                Param { id: name("cb"), ty: expected_callback_type(), i: at_loop },
            ],
            body: vec![call],
            target: Target::Host,
            i: Info::new(1, 1),
        }]
    );
}

#[test]
fn nested_loops_around_callback_are_lifted_whole() {
    let inner = loop_over(vec![callback_use("cb", Info::new(6, 5))], Info::new(5, 3));
    let outer = loop_over(vec![inner], Info::new(4, 1));
    let (cbs, out) = apply(vec![fun(Target::Host, vec![outer.clone()], Info::new(1, 1))]).unwrap();
    assert_eq!(cbs.len(), 1);
    assert_eq!(cbs[0].body, outer);
    match &out[0] {
        Top::FunDef { body, .. } => {
            assert_eq!(body.len(), 1);
            assert!(matches!(&body[0], Stmt::Expr { e: Expr::Call { .. }, i } if *i == Info::new(6, 5)));
        },
        _ => panic!("expected a function"),
    }
}

#[test]
fn callback_statement_in_branch_is_replaced() {
    let at_cb = Info::new(8, 2);
    let branch = Stmt::If {
        cond: var("c", scalar(ElemSize::Bool)),
        thn: vec![Stmt::Return { value: int_expr(0, None), i: Info::new(7, 1) }],
        els: vec![callback_use("cb", at_cb)],
        i: Info::new(6, 1),
    };
    let (cbs, out) = apply(vec![fun(Target::Host, vec![branch], Info::new(1, 1))]).unwrap();
    assert_eq!(cbs.len(), 1);
    assert_eq!(cbs[0].id, name("cb"));
    assert_eq!(cbs[0].body, callback_use("cb", at_cb));
    assert_eq!(
        cbs[0].params,
        vec![PyParam { id: name("xs"), ty: tensor(ElemSize::F32, vec![10]), i: Info::default() }]
    );
    match &out[0] {
        Top::FunDef { params, body, .. } => {
            assert_eq!(params.len(), 2);
            assert_eq!(params[1].i, Info::new(8, 0));
            assert_eq!(
                body[0],
                Stmt::If {
                    cond: var("c", scalar(ElemSize::Bool)),
                    thn: vec![Stmt::Return { value: int_expr(0, None), i: Info::new(7, 1) }],
                    els: vec![Stmt::Expr {
                        e: Expr::Call {
                            id: name("cb"),
                            args: vec![Expr::Var { id: name("xs"), ty: xs_ty(), i: Info::default() }],
                            ty: Type::Void,
                            i: at_cb
                        },
                        i: at_cb
                    }],
                    i: Info::new(6, 1),
                }
            );
        },
        _ => panic!("expected a function"),
    }
}

#[test]
fn loop_with_more_than_a_callback_is_searched() {
    let body = vec![
        callback_use("first", Info::new(5, 1)),
        callback_use("second", Info::new(6, 1)),
    ];
    let the_loop = loop_over(body, Info::new(4, 1));
    let (cbs, out) = apply(vec![fun(Target::Host, vec![the_loop], Info::new(1, 1))]).unwrap();
    assert_eq!(cbs.iter().map(|cb| cb.id.clone()).collect::<Vec<_>>(), vec![name("first"), name("second")]);
    match &out[0] {
        Top::FunDef { params, body, .. } => {
            assert_eq!(params.len(), 3);
            assert!(matches!(&body[0], Stmt::For { body, .. } if body.len() == 2));
        },
        _ => panic!("expected a function"),
    }
}

#[test]
fn callbacks_collect_across_functions_in_order() {
    let ast = vec![
        fun(Target::Host, vec![callback_use("a", Info::new(2, 1))], Info::new(1, 1)),
        Top::StructDef { id: name("S"), fields: vec![], i: Info::new(9, 1) },
        fun(Target::Host, vec![callback_use("b", Info::new(12, 1))], Info::new(11, 1)),
    ];
    let (cbs, out) = apply(ast).unwrap();
    assert_eq!(cbs.iter().map(|cb| cb.id.clone()).collect::<Vec<_>>(), vec![name("a"), name("b")]);
    assert_eq!(out[1], Top::StructDef { id: name("S"), fields: vec![], i: Info::new(9, 1) });
}

#[test]
fn program_without_callbacks_is_unchanged() {
    let body = vec![loop_over(vec![Stmt::Return { value: int_expr(1, None), i: Info::default() }], Info::new(2, 1))];
    let ast = vec![
        fun(Target::Host, body.clone(), Info::new(1, 1)),
        fun(Target::Device, body.clone(), Info::new(5, 1)),
        kernel(body, Info::new(9, 1)),
    ];
    let (cbs, out) = apply(ast.clone()).unwrap();
    assert!(cbs.is_empty());
    assert_eq!(out, ast);
}

#[test]
fn callback_in_device_function_is_an_error() {
    let ast = vec![fun(Target::Device, vec![callback_use("cb", Info::new(3, 2))], Info::new(2, 1))];
    assert_eq!(
        apply(ast).unwrap_err(),
        CompileError {
            i: Info::new(2, 1),
            msg: "Callback functions can only be used from the main function.".to_string()
        }
    );
}

#[test]
fn callback_in_kernel_is_an_error_and_stops_the_pass() {
    let ast = vec![
        kernel(vec![loop_over(vec![callback_use("cb", Info::new(4, 2))], Info::new(3, 1))], Info::new(2, 1)),
        fun(Target::Host, vec![callback_use("later", Info::new(8, 1))], Info::new(7, 1)),
    ];
    assert_eq!(
        apply(ast).unwrap_err(),
        CompileError {
            i: Info::new(2, 1),
            msg: "Callback functions can only be used from the main function.".to_string()
        }
    );
}
