use rain_llvm::codegen::function::{parameter_values, plan_function_call, CallPlan};
use rain_llvm::codegen::shim::{plan_shim, ShimArg};
use rain_llvm::codegen::tuple::Projection;
use rain_llvm::codegen::Codegen;
use rain_llvm::error::Error;
use rain_llvm::ir::{Bits, BitsTy, Finite, TypeGraph, TypeNode};
use rain_llvm::repr::{BasicType, BasicValue, FunctionRepr, FunctionType, IxMap, TypeList, Val};
use std::convert::TryFrom;

fn ints(ws: &[u32]) -> TypeList {
    TypeList::from_vec(ws.iter().map(|w| BasicType::Int(*w)).collect())
}

fn int_widths(l: &TypeList) -> Vec<u32> {
    l.to_vec()
        .iter()
        .map(|t| match t {
            BasicType::Int(w) => *w,
            _ => panic!("expected an integer"),
        })
        .collect()
}

#[test]
fn lambda_names_count_up() {
    let mut c = Codegen::new();
    let names: Vec<String> = (0..12).map(|_| c.next_lambda_name()).collect();
    assert_eq!(names[0], "__lambda_0");
    assert_eq!(names[1], "__lambda_1");
    assert_eq!(names[9], "__lambda_9");
    assert_eq!(names[10], "__lambda_10");
    assert_eq!(names[11], "__lambda_11");
}

#[test]
fn plan_lambda_lays_out_parameters() {
    let mut g = TypeGraph::new();
    let mut c = Codegen::new();
    let b = g.add(TypeNode::Bool).unwrap();
    let unit = g.add(TypeNode::Finite(Finite(1))).unwrap();
    let byte = g.add(TypeNode::Finite(Finite(100))).unwrap();
    let f = g.add(TypeNode::Pi { params: vec![byte, unit, b], result: byte }).unwrap();
    let plan = c.plan_lambda(&g, f).unwrap().unwrap();
    assert_eq!(plan.name, "__lambda_0");
    assert_eq!(int_widths(&plan.repr.params), vec![8, 1]);
    assert!(matches!(*plan.repr.ret, BasicType::Int(8)));
    assert_eq!(plan.params.len(), 3);
    assert!(matches!(&plan.params[0], Val::Value(BasicValue::Param { index: 0, ty: BasicType::Int(8) })));
    assert!(matches!(&plan.params[1], Val::Unit));
    assert!(matches!(&plan.params[2], Val::Value(BasicValue::Param { index: 1, ty: BasicType::Int(1) })));
    // the next lambda gets the next name
    let plan2 = c.plan_lambda(&g, f).unwrap().unwrap();
    assert_eq!(plan2.name, "__lambda_1");
    // lambdas that need no code are not named
    let to_unit = g.add(TypeNode::Pi { params: vec![b], result: unit }).unwrap();
    assert!(c.plan_lambda(&g, to_unit).unwrap().is_none());
    let plan3 = c.plan_lambda(&g, f).unwrap().unwrap();
    assert_eq!(plan3.name, "__lambda_2");
    // unimplemented function types give an error, and no name
    let higher = g.add(TypeNode::Pi { params: vec![f], result: b }).unwrap();
    assert!(matches!(c.plan_lambda(&g, higher), Err(Error::NotImplemented(_))));
    assert_eq!(c.next_lambda_name(), "__lambda_3");
}

#[test]
fn parameter_values_follow_mapping() {
    let mut m = IxMap::new();
    m.push_prop();
    m.push_ix(1);
    m.push_ix(0);
    let proto = FunctionRepr { mapping: m, repr: FunctionType { params: ints(&[32, 1]), ret: Box::new(BasicType::Int(8)) } };
    let v = parameter_values(&proto);
    assert_eq!(v.len(), 3);
    assert!(matches!(&v[0], Val::Unit));
    assert!(matches!(&v[1], Val::Value(BasicValue::Param { index: 1, ty: BasicType::Int(1) })));
    assert!(matches!(&v[2], Val::Value(BasicValue::Param { index: 0, ty: BasicType::Int(32) })));
}

#[test]
fn function_call_planning() {
    let k = |v: u128| Val::Value(BasicValue::ConstInt { width: 8, value: v });
    match plan_function_call(vec![k(1), k(2)]).unwrap() {
        CallPlan::Call(vs) => {
            assert_eq!(vs.len(), 2);
            assert!(matches!(vs[1], BasicValue::ConstInt { width: 8, value: 2 }));
        }
        CallPlan::Skip(_) => panic!("expected a call"),
    }
    assert!(matches!(plan_function_call(vec![]).unwrap(), CallPlan::Call(vs) if vs.is_empty()));
    // unit arguments, of propositional parameters, are skipped
    match plan_function_call(vec![k(1), Val::Unit, k(3), Val::Unit]).unwrap() {
        CallPlan::Call(vs) => {
            assert_eq!(vs.len(), 2);
            assert!(matches!(vs[0], BasicValue::ConstInt { width: 8, value: 1 }));
            assert!(matches!(vs[1], BasicValue::ConstInt { width: 8, value: 3 }));
        }
        CallPlan::Skip(_) => panic!("expected a call"),
    }
    assert!(matches!(plan_function_call(vec![Val::Unit]).unwrap(), CallPlan::Call(vs) if vs.is_empty()));
    assert!(matches!(plan_function_call(vec![k(1), Val::Unit, Val::Contr]).unwrap(), CallPlan::Skip(Val::Contr)));
    assert!(matches!(plan_function_call(vec![k(1), Val::Contr, Val::Unit]).unwrap(), CallPlan::Skip(Val::Contr)));
    assert!(matches!(
        plan_function_call(vec![Val::Function("f".to_string()), Val::Contr]),
        Err(Error::NotImplemented(_))
    ));
    assert!(matches!(plan_function_call(vec![Val::Contr, Val::Function("f".to_string())]).unwrap(), CallPlan::Skip(Val::Contr)));
}

#[test]
fn shim_passes_structures_by_pointer() {
    let pair = BasicType::Struct(ints(&[8, 16]));
    let f = FunctionType {
        params: TypeList::from_vec(vec![pair.duplicate(), BasicType::Int(32)]),
        ret: Box::new(pair),
    };
    let plan = plan_shim(&f);
    assert!(plan.return_converted);
    assert_eq!(plan.args, vec![ShimArg::Load, ShimArg::Pass]);
    assert!(matches!(*plan.repr.ret, BasicType::Int(32)));
    let ps = plan.repr.params.to_vec();
    assert_eq!(ps.len(), 3);
    for i in [0usize, 2].iter() {
        match &ps[*i] {
            BasicType::Pointer(p) => match &**p {
                BasicType::Struct(s) => assert_eq!(int_widths(s), vec![8, 16]),
                _ => panic!("expected a pointer to a structure"),
            },
            _ => panic!("expected a pointer"),
        }
    }
    assert!(matches!(ps[1], BasicType::Int(32)));

    let g = FunctionType { params: ints(&[1, 64]), ret: Box::new(BasicType::Int(1)) };
    let plan = plan_shim(&g);
    assert!(!plan.return_converted);
    assert_eq!(plan.args, vec![ShimArg::Pass, ShimArg::Pass]);
    assert_eq!(int_widths(&plan.repr.params), vec![1, 64]);
    assert!(matches!(*plan.repr.ret, BasicType::Int(1)));
}

#[test]
fn bits_constants() {
    let mut c = Codegen::new();
    let v = c.build_bits(&Bits { ty: BitsTy(3), data: 5 });
    assert!(matches!(v, Val::Value(BasicValue::ConstInt { width: 8, value: 5 })));
    let v = c.build_bits(&Bits { ty: BitsTy(64), data: u64::MAX as u128 });
    assert!(matches!(v, Val::Value(BasicValue::ConstInt { width: 64, value }) if value == u64::MAX as u128));
    // the type of width zero is a proposition: its one value is the unit
    let v = c.build_bits(&Bits { ty: BitsTy(0), data: 0 });
    assert!(matches!(v, Val::Unit));
    // wider constants keep all their data
    let v = c.build_bits(&Bits { ty: BitsTy(100), data: (1u128 << 64) + 7 });
    assert!(matches!(v, Val::Value(BasicValue::ConstInt { width: 128, value }) if value == (1u128 << 64) + 7));
    let v = c.build_bits(&Bits { ty: BitsTy(128), data: u128::MAX });
    assert!(matches!(v, Val::Value(BasicValue::ConstInt { width: 128, value: u128::MAX })));
}

#[test]
fn booleans_compile_to_bits() {
    let mut c = Codegen::new();
    assert!(matches!(c.compile_bool(true), BasicValue::ConstInt { width: 1, value: 1 }));
    assert!(matches!(c.compile_bool(false), BasicValue::ConstInt { width: 1, value: 0 }));
}

#[test]
fn value_conversions() {
    let v = Val::from(BasicValue::ConstInt { width: 8, value: 1 });
    assert!(matches!(BasicValue::try_from(v), Ok(BasicValue::ConstInt { width: 8, value: 1 })));
    assert!(matches!(BasicValue::try_from(Val::Unit), Err(Val::Unit)));
    let p = Val::Value(BasicValue::Param { index: 0, ty: BasicType::Int(1) });
    assert!(p.try_into_int().is_ok());
    let s = Val::Value(BasicValue::Param { index: 0, ty: BasicType::Struct(TypeList::Nil) });
    assert!(s.try_into_int().is_err());
    assert!(matches!(Val::Contr.try_into_int(), Err(Val::Contr)));
    assert_eq!(Val::Function("__lambda_0".to_string()).try_into_function().unwrap(), "__lambda_0");
    assert!(Val::Unit.try_into_function().is_err());
}

#[test]
fn tuples_keep_placed_components() {
    let mut g = TypeGraph::new();
    let mut c = Codegen::new();
    let unit = g.add(TypeNode::Finite(Finite(1))).unwrap();
    let byte = g.add(TypeNode::Finite(Finite(100))).unwrap();
    let p = g.add(TypeNode::Product(vec![byte, unit, byte])).unwrap();
    let k = |v: u128| Val::Value(BasicValue::ConstInt { width: 8, value: v });
    match c.build_tuple(&g, p, vec![k(4), Val::Unit, k(9)]).unwrap() {
        Val::Value(BasicValue::Struct(fs)) => {
            assert_eq!(fs.len(), 2);
            assert!(matches!(fs[0], BasicValue::ConstInt { value: 4, .. }));
            assert!(matches!(fs[1], BasicValue::ConstInt { value: 9, .. }));
        }
        _ => panic!("expected a structure"),
    }
    let never = g.add(TypeNode::Finite(Finite(0))).unwrap();
    let q = g.add(TypeNode::Product(vec![byte, never])).unwrap();
    assert!(matches!(c.build_tuple(&g, q, vec![k(1), Val::Contr]).unwrap(), Val::Contr));
}

#[test]
fn ternary_planning_errors() {
    let mut g = TypeGraph::new();
    let mut c = Codegen::new();
    let b = g.add(TypeNode::Bool).unwrap();
    let unit = g.add(TypeNode::Finite(Finite(1))).unwrap();
    let pair = g.add(TypeNode::Product(vec![b, b])).unwrap();
    // a product result has no basic representation to merge branches of
    let to_pair = g.add(TypeNode::Pi { params: vec![b], result: pair }).unwrap();
    assert!(matches!(c.plan_ternary(&g, to_pair), Err(Error::NotImplemented(_))));
    // the switch must be an integer parameter
    let no_param = g.add(TypeNode::Pi { params: vec![], result: b }).unwrap();
    assert!(matches!(c.plan_ternary(&g, no_param), Err(Error::InternalError(_))));
    let pair_param = g.add(TypeNode::Pi { params: vec![pair], result: b }).unwrap();
    assert!(matches!(c.plan_ternary(&g, pair_param), Err(Error::InternalError(_))));
    let to_unit = g.add(TypeNode::Pi { params: vec![b], result: unit }).unwrap();
    assert!(c.plan_ternary(&g, to_unit).unwrap().is_none());
    // failures name no function
    assert_eq!(c.next_lambda_name(), "__lambda_0");
}

#[test]
fn projections_follow_the_mapping() {
    let mut g = TypeGraph::new();
    let mut c = Codegen::new();
    let unit = g.add(TypeNode::Finite(Finite(1))).unwrap();
    let byte = g.add(TypeNode::Bits(BitsTy(8))).unwrap();
    let never = g.add(TypeNode::Finite(Finite(0))).unwrap();
    let wide = g.add(TypeNode::Bits(BitsTy(200))).unwrap();
    let p = g.add(TypeNode::Product(vec![byte, unit, byte])).unwrap();
    assert_eq!(c.plan_projection(&g, p, 0).unwrap(), Projection::Field(0));
    assert_eq!(c.plan_projection(&g, p, 1).unwrap(), Projection::Unit);
    assert_eq!(c.plan_projection(&g, p, 2).unwrap(), Projection::Field(1));
    assert_eq!(c.plan_projection(&g, p, 3).unwrap(), Projection::Unit);
    // an empty component, or no field at all, makes the product empty
    let e = g.add(TypeNode::Product(vec![byte, never])).unwrap();
    assert_eq!(c.plan_projection(&g, e, 0).unwrap(), Projection::Contr);
    let props = g.add(TypeNode::Product(vec![unit, unit])).unwrap();
    assert_eq!(c.plan_projection(&g, props, 0).unwrap(), Projection::Unit);
    // a component with no representation
    let w = g.add(TypeNode::Product(vec![byte, wide])).unwrap();
    match c.plan_projection(&g, w, 0) {
        Err(Error::NotImplemented(_)) => {}
        other => panic!("expected NotImplemented, got {:?}", other),
    }
}

#[test]
fn gamma_planning_by_branches() {
    let mut g = TypeGraph::new();
    let mut c = Codegen::new();
    let b = g.add(TypeNode::Bool).unwrap();
    let unit = g.add(TypeNode::Finite(Finite(1))).unwrap();
    let f = g.add(TypeNode::Pi { params: vec![b, unit], result: b }).unwrap();
    // one branch: laid out like a lambda
    let plan = c.plan_gamma(&g, f, 1).unwrap().unwrap();
    assert_eq!(plan.name, "__lambda_0");
    assert_eq!(int_widths(&plan.repr.params), vec![1]);
    assert_eq!(plan.params.len(), 2);
    assert!(matches!(&plan.params[0], Val::Value(BasicValue::Param { index: 0, ty: BasicType::Int(1) })));
    assert!(matches!(&plan.params[1], Val::Unit));
    // two branches are not implemented, more are an error; both use up a name
    assert!(matches!(c.plan_gamma(&g, f, 2), Err(Error::NotImplemented(_))));
    let too_many = "Boolean gamma node should not have more than two branches";
    assert!(matches!(c.plan_gamma(&g, f, 3), Err(Error::InternalError(m)) if m == too_many));
    assert!(matches!(c.plan_gamma(&g, f, 0), Err(Error::InternalError(m)) if m == too_many));
    assert_eq!(c.named_count(), 4);
    assert_eq!(c.next_lambda_name(), "__lambda_4");
    // a gamma node returning nothing needs no code, whatever its branches
    let to_unit = g.add(TypeNode::Pi { params: vec![b], result: unit }).unwrap();
    assert!(c.plan_gamma(&g, to_unit, 2).unwrap().is_none());
    assert_eq!(c.next_lambda_name(), "__lambda_5");
}
