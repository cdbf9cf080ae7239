use rain_llvm::codegen::Codegen;
use rain_llvm::error::Error;
use rain_llvm::ir::{BitsTy, Finite, TypeGraph, TypeNode};
use rain_llvm::repr::{BasicType, Repr, TypeList};

fn field_widths(l: &TypeList) -> Vec<u32> {
    l.to_vec()
        .iter()
        .map(|t| match t {
            BasicType::Int(w) => *w,
            _ => panic!("expected an integer field"),
        })
        .collect()
}

fn int_width(r: &Repr) -> Option<u32> {
    match r {
        Repr::Type(BasicType::Int(w)) => Some(*w),
        _ => None,
    }
}

#[test]
fn finite_types_get_narrowest_integers() {
    let mut g = TypeGraph::new();
    let mut c = Codegen::new();
    let cases: [(u128, Option<u32>); 10] = [
        (2, Some(1)),
        (3, Some(8)),
        (6, Some(8)),
        (255, Some(8)),
        (256, Some(16)),
        (512, Some(16)),
        (65536, Some(32)),
        (1 << 32, Some(64)),
        ((1 << 64) - 1, Some(64)),
        (1 << 64, Some(128)),
    ];
    for (n, w) in cases.iter() {
        let t = g.add(TypeNode::Finite(Finite(*n))).unwrap();
        let r = c.repr(&g, t).unwrap();
        assert_eq!(int_width(&r), *w, "finite({})", n);
    }
    let empty = g.add(TypeNode::Finite(Finite(0))).unwrap();
    assert!(matches!(c.repr(&g, empty).unwrap(), Repr::Empty));
    let unit = g.add(TypeNode::Finite(Finite(1))).unwrap();
    assert!(matches!(c.repr(&g, unit).unwrap(), Repr::Prop));
}

#[test]
fn bits_types_get_narrowest_integers() {
    let mut g = TypeGraph::new();
    let mut c = Codegen::new();
    for (w, e) in [(1u32, 1u32), (3, 8), (8, 8), (9, 16), (14, 16), (32, 32), (33, 64), (64, 64), (65, 128), (128, 128)].iter() {
        let t = g.add(TypeNode::Bits(BitsTy(*w))).unwrap();
        assert_eq!(int_width(&c.repr(&g, t).unwrap()), Some(*e), "bits({})", w);
        assert_eq!(int_width(&c.repr_bitsty(&BitsTy(*w))), Some(*e));
    }
    let zero = g.add(TypeNode::Bits(BitsTy(0))).unwrap();
    assert!(matches!(c.repr(&g, zero).unwrap(), Repr::Prop));
    let wide = g.add(TypeNode::Bits(BitsTy(129))).unwrap();
    assert!(matches!(c.repr(&g, wide), Err(Error::NotImplemented(_))));
}

#[test]
fn bool_is_one_bit() {
    let mut g = TypeGraph::new();
    let mut c = Codegen::new();
    let b = g.add(TypeNode::Bool).unwrap();
    assert_eq!(int_width(&c.repr(&g, b).unwrap()), Some(1));
    // the boolean type is special-cased and never cached
    assert_eq!(c.reprs().len(), 0);
}

#[test]
fn representations_are_cached() {
    let mut g = TypeGraph::new();
    let mut c = Codegen::new();
    let f = g.add(TypeNode::Finite(Finite(73))).unwrap();
    let h = g.add(TypeNode::Finite(Finite(1025))).unwrap();
    let p = g.add(TypeNode::Product(vec![f, h])).unwrap();
    let first = c.repr(&g, p).unwrap();
    assert_eq!(c.reprs().len(), 3);
    assert!(c.reprs().contains_key(&f) && c.reprs().contains_key(&h) && c.reprs().contains_key(&p));
    let second = c.repr(&g, p).unwrap();
    assert_eq!(c.reprs().len(), 3);
    match (first, second) {
        (Repr::Product(a), Repr::Product(b)) => {
            assert_eq!(a.mapping, b.mapping);
            assert_eq!(field_widths(&a.repr), field_widths(&b.repr));
        }
        _ => panic!("expected products"),
    }
}

#[test]
fn product_skips_propositions() {
    let mut g = TypeGraph::new();
    let mut c = Codegen::new();
    let unit = g.add(TypeNode::Finite(Finite(1))).unwrap();
    let byte = g.add(TypeNode::Finite(Finite(200))).unwrap();
    let word = g.add(TypeNode::Bits(BitsTy(16))).unwrap();
    let p = g.add(TypeNode::Product(vec![unit, byte, unit, word])).unwrap();
    match c.repr(&g, p).unwrap() {
        Repr::Product(pr) => {
            assert_eq!(&*pr.mapping, &[-1, 0, -1, 1][..]);
            assert_eq!(pr.mapping.get(0), None);
            assert_eq!(pr.mapping.get(1), Some(0));
            assert_eq!(pr.mapping.get(3), Some(1));
            assert_eq!(pr.mapping.get(4), None);
            assert_eq!(field_widths(&pr.repr), vec![8, 16]);
        }
        _ => panic!("expected a product"),
    }
    // a product of propositions alone, or of nothing, has no fields and one
    // value: it is a proposition
    let props = g.add(TypeNode::Product(vec![unit, unit])).unwrap();
    assert!(matches!(c.repr(&g, props).unwrap(), Repr::Prop));
    let nothing = g.add(TypeNode::Product(vec![])).unwrap();
    assert!(matches!(c.repr(&g, nothing).unwrap(), Repr::Prop));
}

#[test]
fn product_with_empty_component_is_empty() {
    let mut g = TypeGraph::new();
    let mut c = Codegen::new();
    let byte = g.add(TypeNode::Finite(Finite(200))).unwrap();
    let never = g.add(TypeNode::Finite(Finite(0))).unwrap();
    let p = g.add(TypeNode::Product(vec![byte, never])).unwrap();
    assert!(matches!(c.repr(&g, p).unwrap(), Repr::Empty));
}

#[test]
fn nested_products_and_function_fields() {
    let mut g = TypeGraph::new();
    let mut c = Codegen::new();
    let b = g.add(TypeNode::Bool).unwrap();
    let inner = g.add(TypeNode::Product(vec![b, b])).unwrap();
    let f = g.add(TypeNode::Pi { params: vec![b], result: b }).unwrap();
    let outer = g.add(TypeNode::Product(vec![inner, f])).unwrap();
    match c.repr(&g, outer).unwrap() {
        Repr::Product(pr) => {
            let fields = pr.repr.to_vec();
            assert_eq!(fields.len(), 2);
            match &fields[0] {
                BasicType::Struct(s) => assert_eq!(field_widths(s), vec![1, 1]),
                _ => panic!("expected a structure field"),
            }
            match &fields[1] {
                BasicType::FunctionPointer(ft) => {
                    assert_eq!(field_widths(&ft.params), vec![1]);
                    assert!(matches!(*ft.ret, BasicType::Int(1)));
                }
                _ => panic!("expected a function pointer field"),
            }
        }
        _ => panic!("expected a product"),
    }
}

#[test]
fn function_representations() {
    let mut g = TypeGraph::new();
    let mut c = Codegen::new();
    let b = g.add(TypeNode::Bool).unwrap();
    let unit = g.add(TypeNode::Finite(Finite(1))).unwrap();
    let never = g.add(TypeNode::Finite(Finite(0))).unwrap();
    let f = g.add(TypeNode::Pi { params: vec![b, unit, b], result: b }).unwrap();
    match c.repr(&g, f).unwrap() {
        Repr::Function(fr) => {
            assert_eq!(&*fr.mapping, &[0, -1, 1][..]);
            assert_eq!(field_widths(&fr.repr.params), vec![1, 1]);
            assert!(matches!(*fr.repr.ret, BasicType::Int(1)));
        }
        _ => panic!("expected a function"),
    }
    // functions returning nothing, or that cannot be called, need no code
    let to_unit = g.add(TypeNode::Pi { params: vec![b], result: unit }).unwrap();
    assert!(matches!(c.repr(&g, to_unit).unwrap(), Repr::Prop));
    let uncallable = g.add(TypeNode::Pi { params: vec![b, never], result: b }).unwrap();
    assert!(matches!(c.repr(&g, uncallable).unwrap(), Repr::Prop));
    // higher order functions are not implemented
    let higher = g.add(TypeNode::Pi { params: vec![f], result: b }).unwrap();
    assert!(matches!(c.repr(&g, higher), Err(Error::NotImplemented(_))));
    let curried = g.add(TypeNode::Pi { params: vec![b], result: f }).unwrap();
    assert!(matches!(c.repr(&g, curried), Err(Error::NotImplemented(_))));
    let via_product = g.add(TypeNode::Product(vec![b, higher])).unwrap();
    assert!(matches!(c.repr(&g, via_product), Err(Error::NotImplemented(_))));
}

#[test]
fn type_graph_refuses_forward_references() {
    let mut g = TypeGraph::new();
    let b = g.add(TypeNode::Bool).unwrap();
    assert_eq!(g.add(TypeNode::Product(vec![b, 1])), None);
    assert_eq!(g.add(TypeNode::Pi { params: vec![], result: 5 }), None);
    assert_eq!(g.len(), 1);
    assert_eq!(g.add(TypeNode::Product(vec![b, b])), Some(1));
    assert_eq!(g.node(1), &TypeNode::Product(vec![0, 0]));
}

#[test]
fn finite_and_bits_direct() {
    let mut c = Codegen::new();
    assert_eq!(int_width(&c.repr_finite(&Finite(6))), Some(8));
    assert_eq!(int_width(&c.repr_finite(&Finite(512))), Some(16));
    assert!(matches!(c.repr_finite(&Finite(1)), Repr::Prop));
    assert!(matches!(c.repr_bitsty(&BitsTy(0)), Repr::Prop));
}

#[test]
fn representation_unique_across_contexts_and_growth() {
    let mut g = TypeGraph::new();
    let unit = g.add(TypeNode::Finite(Finite(1))).unwrap();
    let byte = g.add(TypeNode::Bits(BitsTy(8))).unwrap();
    let p = g.add(TypeNode::Product(vec![byte, unit, byte])).unwrap();
    let mut c1 = Codegen::new();
    let before = c1.repr(&g, p).unwrap();
    // the graph grows; the product's representation does not change
    let _wide = g.add(TypeNode::Finite(Finite(70000))).unwrap();
    let q = g.add(TypeNode::Product(vec![p, p])).unwrap();
    let mut c2 = Codegen::new();
    let _ = c2.repr(&g, q).unwrap();
    let after = c2.repr(&g, p).unwrap();
    match (before, after) {
        (Repr::Product(a), Repr::Product(b)) => {
            assert_eq!(&a.mapping[..], &[0, -1, 1]);
            assert_eq!(a.mapping, b.mapping);
            assert_eq!(field_widths(&a.repr), vec![8, 8]);
            assert_eq!(field_widths(&a.repr), field_widths(&b.repr));
        }
        _ => panic!("expected products"),
    }
    assert!(c1.reprs().contains_key(&p) && c2.reprs().contains_key(&p));
}
