//! Code generation for `rain` tuples and product types
use super::{law_product_mapping, maps_component, mapping_places, repr_result, spec_product_from, spec_repr, Codegen};
use crate::error::Error;
use crate::ir::{graph_wf, node_wf, TypeGraph, TypeId, TypeNode, MAX_COMPONENTS};
use crate::repr::{ix_get, BasicType, BasicValue, IxMap, ProductRepr, Repr, ReprIx, ReprV, TypeList, Val, PROP_ENTRY, spec_entry_ix};
use std::rc::Rc;
use vstd::prelude::*;

verus! {

/// The LLVM values of the components among the first `i` of `members` that
/// mapping `m` places in the structure, in order
pub open spec fn kept_values(members: Seq<Val>, m: Seq<i64>, i: int) -> Seq<BasicValue>
    decreases i,
{
    if i <= 0 {
        Seq::empty()
    } else if m[i - 1] != PROP_ENTRY {
        kept_values(members, m, i - 1).push(members[i - 1]->Value_0)
    } else {
        kept_values(members, m, i - 1)
    }
}

/// Every component that mapping `m` places in the structure has an LLVM value
pub open spec fn placed_are_values(members: Seq<Val>, m: Seq<i64>) -> bool {
    forall|i: int| 0 <= i < m.len() && #[trigger] m[i] != PROP_ENTRY ==> members[i] is Value
}

/// The number of entries of mapping `m` that place a component in a field
pub open spec fn placed_count(m: Seq<i64>) -> nat
    decreases m.len(),
{
    if m.len() == 0 {
        0
    } else {
        placed_count(m.drop_last()) + if m.last() != PROP_ENTRY {
            1nat
        } else {
            0nat
        }
    }
}

/// Mapping `m` numbers the fields in component order: each placed component
/// goes to the field after those of the components placed before it
pub open spec fn numbers_fields(m: Seq<i64>) -> bool {
    forall|j: int| 0 <= j < m.len() && m[j] != PROP_ENTRY ==> m[j] == #[trigger] placed_count(m.take(j))
}

proof fn lemma_kept_values(members: Seq<Val>, m: Seq<i64>, i: int)
    requires
        0 <= i <= m.len(),
    ensures
        kept_values(members, m, i).len() == placed_count(m.take(i)),
        forall|j: int|
            0 <= j < i && m[j] != PROP_ENTRY ==> #[trigger] placed_count(m.take(j)) < kept_values(
                members,
                m,
                i,
            ).len() && kept_values(members, m, i)[placed_count(m.take(j)) as int] == members[j]->Value_0,
    decreases i,
{
    if i > 0 {
        lemma_kept_values(members, m, i - 1);
        assert(m.take(i).drop_last() =~= m.take(i - 1));
        assert(m.take(i).last() == m[i - 1]);
    } else {
        assert(m.take(0) =~= Seq::<i64>::empty());
    }
}

proof fn lemma_push_numbers(m: Seq<i64>, x: i64)
    requires
        numbers_fields(m),
        x == PROP_ENTRY || x == placed_count(m),
    ensures
        numbers_fields(m.push(x)),
        placed_count(m.push(x)) == placed_count(m) + if x != PROP_ENTRY {
            1nat
        } else {
            0nat
        },
{
    let m2 = m.push(x);
    assert(m2.drop_last() =~= m);
    assert forall|j: int| 0 <= j < m2.len() && m2[j] != PROP_ENTRY implies m2[j] == #[trigger] placed_count(
        m2.take(j),
    ) by {
        if j < m.len() {
            assert(m2.take(j) =~= m.take(j));
        } else {
            assert(m2.take(j) =~= m);
        }
    }
}

proof fn lemma_product_numbers_fields(
    g: Seq<TypeNode>,
    t: int,
    ms: Seq<TypeId>,
    i: int,
    mapping: Seq<i64>,
    fields: Seq<BasicType>,
)
    requires
        0 <= i <= ms.len(),
        ms.len() < MAX_COMPONENTS,
        fields.len() <= i,
        fields.len() == placed_count(mapping),
        numbers_fields(mapping),
    ensures
        spec_product_from(g, t, ms, i, mapping, fields) matches Ok(ReprV::Product(m, st)) ==> numbers_fields(m)
            && st.to_seq().len() == placed_count(m),
    decreases ms.len() - i,
{
    if i >= ms.len() {
        if fields.len() > 0 {
            TypeList::lemma_seq_roundtrip(fields);
        }
    } else if 0 <= t && ms[i] < t {
        match spec_repr(g, ms[i] as int) {
            Ok(ReprV::Prop) => {
                lemma_push_numbers(mapping, PROP_ENTRY);
                lemma_product_numbers_fields(g, t, ms, i + 1, mapping.push(PROP_ENTRY), fields);
            },
            Ok(ReprV::Type(ty)) => {
                lemma_push_numbers(mapping, fields.len() as i64);
                lemma_product_numbers_fields(g, t, ms, i + 1, mapping.push(fields.len() as i64), fields.push(ty));
            },
            Ok(ReprV::Function(_, f)) => {
                lemma_push_numbers(mapping, fields.len() as i64);
                lemma_product_numbers_fields(
                    g,
                    t,
                    ms,
                    i + 1,
                    mapping.push(fields.len() as i64),
                    fields.push(BasicType::FunctionPointer(Box::new(f))),
                );
            },
            Ok(ReprV::Product(_, st)) => {
                lemma_push_numbers(mapping, fields.len() as i64);
                lemma_product_numbers_fields(
                    g,
                    t,
                    ms,
                    i + 1,
                    mapping.push(fields.len() as i64),
                    fields.push(BasicType::Struct(st)),
                );
            },
            _ => {},
        }
    }
}

/// A tuple is built with exactly one field for each component that its
/// product places in a field, and that field holds the component's value,
/// whole: the structure has as many fields as the product's structure type,
/// and its field at a component's mapped position is that component.
pub proof fn law_tuple_has_one_field_per_placed_component(g: Seq<TypeNode>, t: int, members: Seq<Val>)
    requires
        graph_wf(g),
        0 <= t < g.len(),
        g[t] is Product,
    ensures
        match spec_repr(g, t) {
            Ok(ReprV::Product(m, st)) => members.len() == m.len() ==> {
                &&& kept_values(members, m, m.len() as int).len() == st.to_seq().len()
                &&& forall|i: int|
                    0 <= i < m.len() && m[i] != PROP_ENTRY ==> #[trigger] kept_values(members, m, m.len() as int)[m[i] as int]
                        == members[i]->Value_0
            },
            _ => true,
        },
{
    assert(node_wf(g[t], t));
    lemma_product_numbers_fields(g, t, g[t]->Product_0@, 0, Seq::empty(), Seq::empty());
    match spec_repr(g, t) {
        Ok(ReprV::Product(m, st)) => {
            if members.len() == m.len() {
                lemma_kept_values(members, m, m.len() as int);
                assert(m.take(m.len() as int) =~= m);
                assert forall|i: int| 0 <= i < m.len() && m[i] != PROP_ENTRY implies #[trigger] kept_values(
                    members,
                    m,
                    m.len() as int,
                )[m[i] as int] == members[i]->Value_0 by {
                    assert(m[i] == placed_count(m.take(i)));
                }
            }
        },
        _ => {},
    }
}

/// What projecting a component out of a tuple comes to
#[derive(Debug, Clone, Copy, PartialEq, Eq, Structural)]
pub enum Projection {
    /// The component is propositional: a unit, with no code
    Unit,
    /// The product is empty: a contradiction
    Contr,
    /// The field of the structure at this position
    Field(u32),
}

impl Codegen {
    /// Decide the projection of component `ix` out of a tuple of product type
    /// `t`: a contradiction if the product is empty, a unit if it has no
    /// field, the structure's field
    /// that the mapping places the component on, or a unit where it places
    /// none (a propositional component, or one past the end)
    pub fn plan_projection(&mut self, g: &TypeGraph, t: TypeId, ix: usize) -> (r: Result<Projection, Error>)
        requires
            old(self).wf(g@),
            t < g@.len(),
            g@[t as int] is Product,
        ensures
            final(self).wf(g@),
            final(self).lambda_count() == old(self).lambda_count(),
            forall|k: TypeId| #[trigger]
                old(self).cache().contains_key(k) ==> final(self).cache().contains_key(k),
            match r {
                Err(e) => spec_repr(g@, t as int) == Err::<ReprV, Error>(e),
                Ok(p) => match spec_repr(g@, t as int) {
                    Ok(ReprV::Empty) => p == Projection::Contr,
                    Ok(ReprV::Prop) => p == Projection::Unit,
                    Ok(ReprV::Product(m, st)) => {
                        &&& p == match ix_get(m, ix as int) {
                            Some(k) => Projection::Field(k),
                            None => Projection::Unit,
                        }
                        &&& p matches Projection::Field(k) ==> maps_component(
                            g@,
                            g@[t as int]->Product_0@[ix as int] as int,
                            k as i64,
                            st.to_seq(),
                        )
                    },
                    _ => false,
                },
            },
    {
        proof {
            use_type_invariant(g);
            law_product_mapping(g@, t as int);
        }
        match self.repr(g, t)? {
            Repr::Product(p) => {
                let r = match p.mapping.get(ix) {
                    Some(k) => Projection::Field(k),
                    None => Projection::Unit,
                };
                proof {
                    if ix < p.mapping@.len() && p.mapping@[ix as int] != PROP_ENTRY {
                        assert(maps_component(
                            g@,
                            g@[t as int]->Product_0@[ix as int] as int,
                            p.mapping@[ix as int],
                            p.repr.to_seq(),
                        ));
                    }
                }
                Ok(r)
            },
            Repr::Empty => Ok(Projection::Contr),
            Repr::Prop => Ok(Projection::Unit),
            Repr::Type(_) | Repr::Function(_) => Err(Error::InternalError("a product is represented by a structure")),
        }
    }

    /// Get the representation for the product type `t`
    pub fn repr_product(&mut self, g: &TypeGraph, t: TypeId) -> (r: Result<Repr, Error>)
        requires
            old(self).wf(g@),
            t < g@.len(),
            g@[t as int] is Product,
        ensures
            final(self).wf(g@),
            final(self).lambda_count() == old(self).lambda_count(),
            repr_result(r, spec_repr(g@, t as int)),
            forall|k: TypeId| #[trigger]
                final(self).cache().contains_key(k) ==> old(self).cache().contains_key(k) || k < t,
            forall|k: TypeId| #[trigger]
                old(self).cache().contains_key(k) ==> final(self).cache().contains_key(k)
                    && final(self).cache()[k] == old(self).cache()[k],
        decreases t, 1int, 0int,
    {
        proof {
            use_type_invariant(g);
        }
        let ms = match g.node(t) {
            TypeNode::Product(ms) => ms,
            _ => {
                proof {
                    assert(false);
                }
                return Err(Error::InternalError("expected a product type"));
            },
        };
        let ghost gs = g@;
        let mut mapping = IxMap::new();
        let mut struct_index: u32 = 0;
        let mut repr_vec: Vec<BasicType> = Vec::new();
        let n = ms.len();
        for i in 0..n
            invariant
                n == ms@.len(),
                gs == g@,
                graph_wf(gs),
                t < gs.len(),
                gs[t as int] == TypeNode::Product(*ms),
                self.wf(gs),
                self.lambda_count() == old(self).lambda_count(),
                forall|k: TypeId| #[trigger]
                    self.cache().contains_key(k) ==> old(self).cache().contains_key(k) || k < t,
                forall|k: TypeId| #[trigger]
                    old(self).cache().contains_key(k) ==> self.cache().contains_key(k)
                        && self.cache()[k] == old(self).cache()[k],
                struct_index as int == repr_vec@.len(),
                repr_vec@.len() <= i,
                spec_repr(gs, t as int) == spec_product_from(
                    gs,
                    t as int,
                    ms@,
                    i as int,
                    mapping@,
                    repr_vec@,
                ),
        {
            proof {
                assert(node_wf(gs[t as int], t as int));
                assert(ms@[i as int] < t);
            }
            let r = self.repr(g, ms[i])?;
            match r {
                Repr::Type(ty) => {
                    mapping.push_ix(struct_index);
                    repr_vec.push(ty);
                    struct_index += 1;
                },
                Repr::Function(f) => {
                    mapping.push_ix(struct_index);
                    repr_vec.push(BasicType::FunctionPointer(Box::new(f.repr.duplicate())));
                    struct_index += 1;
                },
                Repr::Empty => return Ok(Repr::Empty),
                Repr::Prop => mapping.push_prop(),
                Repr::Product(p) => {
                    mapping.push_ix(struct_index);
                    repr_vec.push(BasicType::Struct(p.repr.duplicate()));
                    struct_index += 1;
                },
            }
        }
        if struct_index == 0 {
            Ok(Repr::Prop)
        } else {
            let repr = TypeList::from_vec(repr_vec);
            Ok(Repr::Product(Rc::new(ProductRepr { mapping, repr })))
        }
    }

    /// Build a tuple of product type `t` from the values of its components:
    /// a contradiction if the product is empty, the unit if it places no
    /// component in a field, otherwise the constant structure of the
    /// components it places
    pub fn build_tuple(&mut self, g: &TypeGraph, t: TypeId, members: Vec<Val>) -> (r: Result<Val, Error>)
        requires
            old(self).wf(g@),
            t < g@.len(),
            g@[t as int] is Product,
            members@.len() == g@[t as int]->Product_0@.len(),
            spec_repr(g@, t as int) matches Ok(ReprV::Product(m, _)) ==> placed_are_values(members@, m),
        ensures
            final(self).wf(g@),
            final(self).lambda_count() == old(self).lambda_count(),
            forall|k: TypeId| #[trigger]
                old(self).cache().contains_key(k) ==> final(self).cache().contains_key(k),
            match r {
                Err(e) => spec_repr(g@, t as int) == Err::<ReprV, Error>(e),
                Ok(v) => match spec_repr(g@, t as int) {
                    Ok(ReprV::Empty) => v == Val::Contr,
                    Ok(ReprV::Prop) => v == Val::Unit,
                    Ok(ReprV::Product(m, _)) => v matches Val::Value(BasicValue::Struct(fs))
                        && fs@ == kept_values(members@, m, m.len() as int),
                    _ => false,
                },
            },
    {
        proof {
            use_type_invariant(g);
            law_product_mapping(g@, t as int);
        }
        let repr = match self.repr(g, t)? {
            Repr::Product(tmp) => tmp,
            Repr::Prop => return Ok(Val::Unit),
            Repr::Empty => return Ok(Val::Contr),
            Repr::Function(_f) => {
                return Err(Error::NotImplemented("Function in tuple not implemented"));
            },
            Repr::Type(_t) => {
                return Err(Error::NotImplemented("Type in tuple not supported yet"));
            },
        };
        let ghost m = repr.mapping@;
        let mapped = repr.mapping.iter();
        let ghost a = members@;
        let mut values: Vec<BasicValue> = Vec::new();
        let mut i: usize = 0;
        for member in it: members.into_iter()
            invariant
                it.seq() == a,
                i == it.index(),
                i <= a.len(),
                a.len() <= usize::MAX,
                a.len() == m.len(),
                mapped@.len() == m.len(),
                forall|j: int| 0 <= j < m.len() ==> #[trigger] mapped@[j] == spec_entry_ix(m[j]),
                placed_are_values(a, m),
                values@ == kept_values(a, m, it.index() as int),
        {
            let ghost k = it.index();
            if let ReprIx::Val(_mapped_pos) = mapped[i] {
                match member {
                    Val::Value(v) => values.push(v),
                    _ => {
                        proof {
                            assert(m[k] != PROP_ENTRY);
                            assert(a[k] is Value);
                        }
                    },
                }
            }
            i = i + 1;
        }
        Ok(Val::Value(BasicValue::Struct(values)))
    }
}

} // verus!
