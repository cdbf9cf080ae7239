use rain_llvm::codegen::bits::BitsOp;
use rain_llvm::codegen::logical::Logical;
use rain_llvm::codegen::shim::{plan_shim, ShimArg};
use rain_llvm::codegen::Codegen;
use rain_llvm::ir::{Bits, BitsTy, Finite, TypeGraph, TypeNode};
use rain_llvm::repr::{BasicType, BasicValue, Repr, Val};

/// The boolean a value computes when the parameters hold `env`
fn eval(v: &BasicValue, env: &[bool]) -> bool {
    match v {
        BasicValue::ConstInt { value, .. } => *value != 0,
        BasicValue::Param { index, .. } => env[*index as usize],
        BasicValue::Struct(_) => panic!("not a boolean"),
        BasicValue::Not(a) => !eval(a, env),
        BasicValue::And(a, b) => eval(a, env) && eval(b, env),
        BasicValue::Or(a, b) => eval(a, env) || eval(b, env),
        BasicValue::Xor(a, b) => eval(a, env) != eval(b, env),
        BasicValue::Select(c, h, l) => {
            if eval(c, env) {
                eval(h, env)
            } else {
                eval(l, env)
            }
        }
        BasicValue::Add(a, b) => eval(a, env) != eval(b, env),
        BasicValue::Mul(a, b) => eval(a, env) && eval(b, env),
        BasicValue::Neg(a) => eval(a, env),
    }
}

/// The constant an integer expression folds to, as its width and value, with
/// arithmetic wrapping around at the width as LLVM folds it
fn fold(v: &BasicValue) -> Option<(u32, u128)> {
    let wrap = |w: u32, x: u128| if w >= 128 { x } else { x & ((1u128 << w) - 1) };
    match v {
        BasicValue::ConstInt { width, value } => Some((*width, wrap(*width, *value))),
        BasicValue::Add(a, b) => match (fold(a)?, fold(b)?) {
            ((w, x), (w2, y)) if w == w2 => Some((w, wrap(w, x.wrapping_add(y)))),
            _ => None,
        },
        BasicValue::Mul(a, b) => match (fold(a)?, fold(b)?) {
            ((w, x), (w2, y)) if w == w2 => Some((w, wrap(w, x.wrapping_mul(y)))),
            _ => None,
        },
        BasicValue::Neg(a) => fold(a).map(|(w, x)| (w, wrap(w, x.wrapping_neg()))),
        _ => None,
    }
}

/// Apply an arithmetic operation to bits constants, expecting an integer result
fn bits_app(codegen: &mut Codegen, op: BitsOp, args: Vec<Bits>) -> BasicValue {
    match codegen.build_bits_app(op, &args).unwrap() {
        Val::Value(v) => v,
        _ => panic!("Result of building Add should be an int"),
    }
}

fn param(v: &Val) -> BasicValue {
    match v {
        Val::Value(BasicValue::Param { index, ty }) => BasicValue::Param { index: *index, ty: ty.duplicate() },
        _ => panic!("expected a parameter"),
    }
}

fn int_width(t: &BasicType) -> u32 {
    match t {
        BasicType::Int(w) => *w,
        _ => panic!("expected an integer type"),
    }
}

#[test]
fn boolean_identity_compiles() {
    let mut g = TypeGraph::new();
    let mut codegen = Codegen::new();
    let b = g.add(TypeNode::Bool).unwrap();
    let ty = g.add(TypeNode::Pi { params: vec![b], result: b }).unwrap();
    let plan = codegen.plan_lambda(&g, ty).expect("Compilation works").expect("Compiles to a function");
    assert_eq!(plan.name, "__lambda_0");
    assert_eq!(plan.repr.params.to_vec().iter().map(int_width).collect::<Vec<_>>(), vec![1]);
    assert_eq!(int_width(&plan.repr.ret), 1);
    // the body is the parameter itself
    let body = param(&plan.params[0]);
    for x in [true, false].iter() {
        assert_eq!(eval(&body, &[*x]), *x);
    }
}

#[test]
fn mux_lambda_compiles_properly() {
    let mut g = TypeGraph::new();
    let mut codegen = Codegen::new();
    let b = g.add(TypeNode::Bool).unwrap();
    let ty = g.add(TypeNode::Pi { params: vec![b, b, b], result: b }).unwrap();
    let plan = codegen.plan_lambda(&g, ty).expect("Compilation works").expect("Compiles to a function");
    assert_eq!(plan.name, "__lambda_0");
    let (select, high, low) = (param(&plan.params[0]), param(&plan.params[1]), param(&plan.params[2]));
    // (#or (#and select high) (#and (#not select) low))
    let select_2 = select.duplicate();
    let is_high = codegen.build_logical_expr(&Logical::and(), vec![select, high]);
    let not_select = codegen.build_logical_expr(&Logical::not(), vec![select_2]);
    let is_low = codegen.build_logical_expr(&Logical::and(), vec![not_select, low]);
    let mux = codegen.build_logical_expr(&Logical::or(), vec![is_high, is_low]);
    for select in [true, false].iter().copied() {
        for high in [true, false].iter().copied() {
            for low in [true, false].iter().copied() {
                assert_eq!(
                    eval(&mux, &[select, high, low]),
                    if select { high } else { low },
                    "Invalid result for select = {}, high = {}, low = {}",
                    select,
                    high,
                    low
                )
            }
        }
    }
}

#[test]
fn identity_finite_and_index_compiles_properly() {
    let mut g = TypeGraph::new();
    let mut codegen = Codegen::new();
    let six = g.add(TypeNode::Finite(Finite(6))).unwrap();
    let ty = g.add(TypeNode::Pi { params: vec![six], result: six }).unwrap();
    let plan = codegen.plan_lambda(&g, ty).expect("Compilation works").expect("Compiles to a function");
    assert_eq!(plan.name, "__lambda_0");
    assert!(matches!(&plan.params[0], Val::Value(BasicValue::Param { index: 0, ty: BasicType::Int(8) })));
    assert!(matches!(*plan.repr.ret, BasicType::Int(8)));
    // indices into #finite(6) and #finite(512) are 8 and 16 bit integers
    match codegen.repr(&g, six).expect("Valid value") {
        Repr::Type(t) => assert_eq!(int_width(&t), 8),
        _ => panic!("Integer value"),
    }
    let big = g.add(TypeNode::Finite(Finite(512))).unwrap();
    match codegen.repr(&g, big).expect("Valid value") {
        Repr::Type(t) => assert_eq!(int_width(&t), 16),
        _ => panic!("Integer value"),
    }
}

#[test]
fn identity_product_compiles_properly() {
    let mut g = TypeGraph::new();
    let mut codegen = Codegen::new();
    let first = g.add(TypeNode::Finite(Finite(73))).unwrap();
    let second = g.add(TypeNode::Finite(Finite(1025))).unwrap();
    let p = g.add(TypeNode::Product(vec![first, second])).unwrap();
    let ty = g.add(TypeNode::Pi { params: vec![p], result: p }).unwrap();
    let plan = codegen.plan_lambda(&g, ty).expect("Compilation works").expect("Compiles functions");
    let shim = plan_shim(&plan.repr);
    // the shim takes the product and the result by pointer, returning 0
    assert!(shim.return_converted);
    assert_eq!(shim.args, vec![ShimArg::Load]);
    assert_eq!(int_width(&shim.repr.ret), 32);
    let params = shim.repr.params.to_vec();
    assert_eq!(params.len(), 2);
    for p in params.iter() {
        match p {
            BasicType::Pointer(s) => match &**s {
                BasicType::Struct(fields) => {
                    assert_eq!(fields.to_vec().iter().map(int_width).collect::<Vec<_>>(), vec![8, 16])
                }
                _ => panic!("expected a structure"),
            },
            _ => panic!("expected a pointer"),
        }
    }
}

#[test]
fn ternary_not() {
    let mut g = TypeGraph::new();
    let mut codegen = Codegen::new();
    let b = g.add(TypeNode::Bool).unwrap();
    let ty = g.add(TypeNode::Pi { params: vec![b], result: b }).unwrap();
    let plan = codegen.plan_ternary(&g, ty).expect("Compilation works").expect("Compiles functions");
    assert_eq!(plan.lambda.name, "__lambda_0");
    assert!(matches!(plan.phi, BasicType::Int(1)));
    // Ternary::conditional(false, true)
    let high = codegen.compile_bool(false);
    let low = codegen.compile_bool(true);
    let v = codegen.build_ternary_inline(plan.switch, high, low);
    assert_eq!(eval(&v, &[false]), true);
    assert_eq!(eval(&v, &[true]), false);
}

#[test]
fn bits_compile() {
    let mut codegen = Codegen::new();
    let widths = [(3u32, 1u128, 8u32), (1, 1, 1), (14, 8848, 16)];
    for (w, d, e) in widths.iter() {
        match codegen.build_bits(&Bits { ty: BitsTy(*w), data: *d }) {
            Val::Value(BasicValue::ConstInt { width, value }) => {
                assert_eq!(width, *e);
                assert_eq!(value, *d);
            }
            _ => panic!("Compiles values"),
        }
    }
}

#[test]
fn bits_add() {
    let mut codegen = Codegen::new();
    let t1 = Bits { ty: BitsTy(8), data: 1 };
    let t2 = Bits { ty: BitsTy(8), data: 2 };
    let app_result = bits_app(&mut codegen, BitsOp::Add, vec![t1, t2]);
    let (width, value) = fold(&app_result).expect("a constant");
    assert_eq!(width, 8);
    assert_eq!(value, 3);
}

#[test]
fn bits_mul() {
    let mut codegen = Codegen::new();
    let t1 = Bits { ty: BitsTy(8), data: 3 };
    let t2 = Bits { ty: BitsTy(8), data: 2 };
    let app_result = bits_app(&mut codegen, BitsOp::Mul, vec![t1, t2]);
    let (width, value) = fold(&app_result).expect("a constant");
    assert_eq!(width, 8);
    assert_eq!(value, 6);
}

#[test]
fn bits_neg() {
    let mut codegen = Codegen::new();
    let t1 = Bits { ty: BitsTy(8), data: 3 };
    let app_result = bits_app(&mut codegen, BitsOp::Neg, vec![t1]);
    let (width, value) = fold(&app_result).expect("a constant");
    assert_eq!(width, 8);
    assert_eq!(value, 253);

    let t1 = Bits { ty: BitsTy(8), data: 253 };
    let app_result = bits_app(&mut codegen, BitsOp::Neg, vec![t1]);
    let (width, value) = fold(&app_result).expect("a constant");
    assert_eq!(width, 8);
    assert_eq!(value, 3);
}

#[test]
fn bits_arithmetic_wraps_and_checks_arity() {
    let mut codegen = Codegen::new();
    let b = |w: u32, d: u128| Bits { ty: BitsTy(w), data: d };
    // wrapping at the width
    let v = bits_app(&mut codegen, BitsOp::Add, vec![b(8, 200), b(8, 100)]);
    assert_eq!(fold(&v), Some((8, 44)));
    let v = bits_app(&mut codegen, BitsOp::Mul, vec![b(16, 300), b(16, 300)]);
    assert_eq!(fold(&v), Some((16, 90000 % 65536)));
    // widths between the LLVM integer widths wrap at the representing integer
    let v = bits_app(&mut codegen, BitsOp::Add, vec![b(5, 31), b(5, 1)]);
    assert_eq!(fold(&v), Some((8, 32)));
    // the instruction holds the compiled constants
    match bits_app(&mut codegen, BitsOp::Add, vec![b(32, 7), b(32, 9)]) {
        BasicValue::Add(x, y) => match (*x, *y) {
            (BasicValue::ConstInt { width: 32, value: 7 }, BasicValue::ConstInt { width: 32, value: 9 }) => {}
            _ => panic!("expected the two constants"),
        },
        _ => panic!("expected an addition"),
    }
    // wrong numbers of arguments, and bits of width zero, are not implemented
    for (op, args) in vec![
        (BitsOp::Add, vec![b(8, 1)]),
        (BitsOp::Mul, vec![b(8, 1), b(8, 1), b(8, 1)]),
        (BitsOp::Neg, vec![b(8, 1), b(8, 2)]),
        (BitsOp::Add, vec![b(0, 0), b(0, 0)]),
        (BitsOp::Neg, vec![b(0, 0)]),
    ] {
        match codegen.build_bits_app(op, &args) {
            Err(rain_llvm::error::Error::NotImplemented(_)) => {}
            other => panic!("expected NotImplemented, got {:?}", other),
        }
    }
}

#[test]
fn logical_operations_follow_their_truth_tables() {
    let mut codegen = Codegen::new();
    let p = |i: u32| BasicValue::Param { index: i, ty: BasicType::Int(1) };
    // every operation of arity up to three
    for arity in 1u32..=3 {
        let n = 1usize << arity;
        for data in 0u128..(1u128 << n) {
            let l = Logical::new(arity, data).unwrap();
            let args: Vec<BasicValue> = (0..arity).map(p).collect();
            let v = codegen.build_logical_expr(&l, args);
            for k in 0..n {
                // the first argument is the most significant bit of the position
                let env: Vec<bool> = (0..arity).map(|i| (k >> (arity - 1 - i)) & 1 == 1).collect();
                assert_eq!(eval(&v, &env), (data >> k) & 1 == 1, "arity {} table {:b} at {}", arity, data, k);
            }
        }
    }
    // a wide operation: true when an odd number of its seven arguments is
    let parity = (0u128..128).filter(|k| k.count_ones() % 2 == 1).fold(0u128, |d, k| d | (1 << k));
    let l = Logical::new(7, parity).unwrap();
    let v = codegen.build_logical_expr(&l, (0..7).map(p).collect());
    for k in 0u32..128 {
        let env: Vec<bool> = (0..7).map(|i| (k >> (6 - i)) & 1 == 1).collect();
        assert_eq!(eval(&v, &env), k.count_ones() % 2 == 1);
    }
    assert!(Logical::new(0, 0).is_none());
    assert!(Logical::new(8, 0).is_none());
    assert!(Logical::new(2, 0x10).is_none());
    assert_eq!(Logical::new(2, 0xf).unwrap().get_const(), Some(true));
    assert_eq!(Logical::new(2, 0).unwrap().get_const(), Some(false));
    assert_eq!(Logical::and().get_const(), None);
}

#[test]
fn constant_logical_operations_are_constants() {
    let mut codegen = Codegen::new();
    let v = codegen.build_logical_expr(&Logical::new(2, 0xf).unwrap(), vec![
        BasicValue::Param { index: 0, ty: BasicType::Int(1) },
        BasicValue::Param { index: 1, ty: BasicType::Int(1) },
    ]);
    assert!(matches!(v, BasicValue::ConstInt { width: 1, value: 1 }));
}
