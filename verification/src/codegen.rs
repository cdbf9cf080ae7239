//! The state of a `rain` code generation session, and the representation of `rain` types.
use crate::error::Error;
use crate::ir::{graph_wf, node_wf, TypeGraph, TypeId, TypeNode, MAX_COMPONENTS};
use crate::repr::{BasicType, FunctionType, Repr, ReprV, TypeList, PROP_ENTRY};
use fxhash::FxHashMap as HashMap;
use fxhash::FxHasher;
use std::hash::BuildHasherDefault;
use std::rc::Rc;
use vstd::prelude::*;

pub mod arena;
pub mod treesym;
pub mod bits;
pub mod finite;
pub mod function;
pub mod gamma;
pub mod logical;
pub mod position;
pub mod shim;
pub mod ternary;
pub mod tuple;

verus! {

/// fxhash's hasher, the hasher of the representation cache
#[verifier::external_type_specification]
#[verifier::external_body]
pub struct ExFxHasher(FxHasher);

/// The builder of the representation cache's hashers
#[verifier::external_type_specification]
#[verifier::external_body]
#[verifier::reject_recursive_types(H)]
pub struct ExBuildHasherDefault<H>(BuildHasherDefault<H>);

/// Looks a type up in a representation cache, with `HashMap::get` of std on
/// fxhash's `FxHashMap`. Claims that the result is the entry for the key in the
/// map's contents, or `None` exactly when there is none: `FxHasher` hashes a
/// `usize` deterministically, so the map finds what was inserted.
#[verifier::external_body]
fn cache_get(m: &HashMap<TypeId, Repr>, t: TypeId) -> (r: Option<&Repr>)
    ensures
        match r {
            Some(v) => m@.contains_key(t) && *v == m@[t],
            None => !m@.contains_key(t),
        },
{
    m.get(&t)
}

/// Inserts into a representation cache, with `HashMap::insert` of std on
/// fxhash's `FxHashMap`. Claims that the new contents are the old ones with the
/// entry set, and that the previous entry, if any, is returned.
#[verifier::external_body]
fn cache_insert(m: &mut HashMap<TypeId, Repr>, t: TypeId, v: Repr) -> (r: Option<Repr>)
    ensures
        final(m)@ == old(m)@.insert(t, v),
        match r {
            Some(p) => old(m)@.contains_key(t) && p == old(m)@[t],
            None => !old(m)@.contains_key(t),
        },
{
    m.insert(t, v)
}

/// The representation of the finite type with `n` values: nothing for no
/// values, a proposition for one, and otherwise the narrowest of `i1`, `i8`,
/// `i16`, `i32`, `i64`, `i128` that holds `n` distinct values.
pub open spec fn finite_repr(n: u128) -> ReprV {
    if n == 0 {
        ReprV::Empty
    } else if n == 1 {
        ReprV::Prop
    } else if n == 2 {
        ReprV::Type(BasicType::Int(1))
    } else if n < 0x100 {
        ReprV::Type(BasicType::Int(8))
    } else if n < 0x1_0000 {
        ReprV::Type(BasicType::Int(16))
    } else if n < 0x1_0000_0000 {
        ReprV::Type(BasicType::Int(32))
    } else if n < 0x1_0000_0000_0000_0000 {
        ReprV::Type(BasicType::Int(64))
    } else {
        ReprV::Type(BasicType::Int(128))
    }
}

/// The width of the LLVM integer holding bit vectors of width `w`, for `0 < w <= 128`
pub open spec fn bits_int_width(w: u32) -> u32 {
    if w == 1 {
        1
    } else if w <= 8 {
        8
    } else if w <= 16 {
        16
    } else if w <= 32 {
        32
    } else if w <= 64 {
        64
    } else {
        128
    }
}

/// The representation of bit vectors of width `w <= 128`: a proposition for
/// width zero, whose only value is the empty bit vector, otherwise the
/// narrowest of `i1`, `i8`, `i16`, `i32`, `i64`, `i128` that holds `w` bits.
pub open spec fn bits_repr(w: u32) -> ReprV {
    if w == 0 {
        ReprV::Prop
    } else {
        ReprV::Type(BasicType::Int(bits_int_width(w)))
    }
}

/// The representation of type `t` of graph `g`, or an error where it is not
/// implemented (bits wider than 128, functions as parameters or results).
pub open spec fn spec_repr(g: Seq<TypeNode>, t: int) -> Result<ReprV, Error>
    decreases t, 2int, 0int,
{
    if !(0 <= t < g.len()) {
        Err(Error::InternalError("a type outside the graph"))
    } else {
        match g[t] {
            TypeNode::Bool => Ok(ReprV::Type(BasicType::Int(1))),
            TypeNode::Finite(f) => Ok(finite_repr(f.0)),
            TypeNode::Bits(b) => if b.0 <= 128 {
                Ok(bits_repr(b.0))
            } else {
                Err(Error::NotImplemented("bits types wider than 128 bits"))
            },
            TypeNode::Product(ms) => spec_product_from(g, t, ms@, 0, Seq::empty(), Seq::empty()),
            TypeNode::Pi { params, result } => spec_function(g, t, params@, result as int),
        }
    }
}

/// The representation of a product of type `t` whose components `ms[i..]` are
/// still to be laid out, the earlier ones having given the component
/// `mapping` and the structure `fields` so far. The first empty component
/// makes the whole product empty; propositional components take no field,
/// and a product with no field at all has one value: it is a proposition.
pub open spec fn spec_product_from(
    g: Seq<TypeNode>,
    t: int,
    ms: Seq<TypeId>,
    i: int,
    mapping: Seq<i64>,
    fields: Seq<BasicType>,
) -> Result<ReprV, Error>
    decreases t, 1int, ms.len() - i,
{
    if i >= ms.len() {
        if fields.len() == 0 {
            Ok(ReprV::Prop)
        } else {
            Ok(ReprV::Product(mapping, TypeList::from_seq(fields)))
        }
    } else if !(0 <= i && 0 <= t && ms[i] < t) {
        Err(Error::InternalError("a component after its product"))
    } else {
        match spec_repr(g, ms[i] as int) {
            Err(e) => Err(e),
            Ok(ReprV::Empty) => Ok(ReprV::Empty),
            Ok(ReprV::Prop) => spec_product_from(g, t, ms, i + 1, mapping.push(PROP_ENTRY), fields),
            Ok(ReprV::Type(ty)) => spec_product_from(
                g,
                t,
                ms,
                i + 1,
                mapping.push(fields.len() as i64),
                fields.push(ty),
            ),
            Ok(ReprV::Function(_, f)) => spec_product_from(
                g,
                t,
                ms,
                i + 1,
                mapping.push(fields.len() as i64),
                fields.push(BasicType::FunctionPointer(Box::new(f))),
            ),
            Ok(ReprV::Product(_, st)) => spec_product_from(
                g,
                t,
                ms,
                i + 1,
                mapping.push(fields.len() as i64),
                fields.push(BasicType::Struct(st)),
            ),
        }
    }
}

/// The representation of a function type `t` with parameter types `ps` and result type `res`
pub open spec fn spec_function(g: Seq<TypeNode>, t: int, ps: Seq<TypeId>, res: int) -> Result<ReprV, Error>
    decreases t, 1int, ps.len() + 1,
{
    if !(0 <= res < t) {
        Err(Error::InternalError("a result after its function type"))
    } else {
        match spec_repr(g, res) {
            Err(e) => Err(e),
            Ok(ReprV::Function(_, _)) => Err(Error::NotImplemented("functions returning functions")),
            Ok(ReprV::Prop) => Ok(ReprV::Prop),
            Ok(ReprV::Empty) => Ok(ReprV::Prop),
            Ok(ReprV::Type(ty)) => spec_params_from(
                g,
                t,
                ps,
                0,
                ty,
                Seq::empty(),
                Seq::empty(),
                false,
            ),
            Ok(ReprV::Product(_, st)) => spec_params_from(
                g,
                t,
                ps,
                0,
                BasicType::Struct(st),
                Seq::empty(),
                Seq::empty(),
                false,
            ),
        }
    }
}

/// The representation of a function type `t` returning `ret` whose parameters
/// `ps[i..]` are still to be laid out, the earlier ones having given the
/// parameter `mapping` and LLVM parameter types `inputs`. A function with an
/// empty parameter can never be called and is represented as a proposition;
/// propositional parameters take no LLVM parameter.
pub open spec fn spec_params_from(
    g: Seq<TypeNode>,
    t: int,
    ps: Seq<TypeId>,
    i: int,
    ret: BasicType,
    mapping: Seq<i64>,
    inputs: Seq<BasicType>,
    has_empty: bool,
) -> Result<ReprV, Error>
    decreases t, 1int, ps.len() - i,
{
    if i >= ps.len() {
        if has_empty {
            Ok(ReprV::Prop)
        } else {
            Ok(
                ReprV::Function(
                    mapping,
                    FunctionType { params: TypeList::from_seq(inputs), ret: Box::new(ret) },
                ),
            )
        }
    } else if !(0 <= i && 0 <= t && ps[i] < t) {
        Err(Error::InternalError("a parameter after its function type"))
    } else {
        match spec_repr(g, ps[i] as int) {
            Err(e) => Err(e),
            Ok(ReprV::Function(_, _)) => Err(Error::NotImplemented("functions taking functions")),
            Ok(ReprV::Empty) => spec_params_from(g, t, ps, i + 1, ret, mapping, inputs, true),
            Ok(ReprV::Prop) => spec_params_from(
                g,
                t,
                ps,
                i + 1,
                ret,
                if has_empty {
                    mapping
                } else {
                    mapping.push(PROP_ENTRY)
                },
                inputs,
                has_empty,
            ),
            Ok(ReprV::Type(ty)) => if has_empty {
                spec_params_from(g, t, ps, i + 1, ret, mapping, inputs, has_empty)
            } else {
                spec_params_from(
                    g,
                    t,
                    ps,
                    i + 1,
                    ret,
                    mapping.push(inputs.len() as i64),
                    inputs.push(ty),
                    has_empty,
                )
            },
            Ok(ReprV::Product(_, st)) => if has_empty {
                spec_params_from(g, t, ps, i + 1, ret, mapping, inputs, has_empty)
            } else {
                spec_params_from(
                    g,
                    t,
                    ps,
                    i + 1,
                    ret,
                    mapping.push(inputs.len() as i64),
                    inputs.push(BasicType::Struct(st)),
                    has_empty,
                )
            },
        }
    }
}

/// The field or parameter type that stands for a component represented by `r`
pub open spec fn field_type(r: ReprV) -> BasicType {
    match r {
        ReprV::Type(ty) => ty,
        ReprV::Function(_, f) => BasicType::FunctionPointer(Box::new(f)),
        ReprV::Product(_, st) => BasicType::Struct(st),
        _ => BasicType::Int(0),
    }
}

/// Mapping entry `entry` correctly places component type `c` among `fields`:
/// a propositional component has the propositional entry, any other one the
/// position of a field of the type that represents it, below [`MAX_COMPONENTS`].
pub open spec fn maps_component(g: Seq<TypeNode>, c: int, entry: i64, fields: Seq<BasicType>) -> bool {
    if entry == PROP_ENTRY {
        spec_repr(g, c) == Ok::<ReprV, Error>(ReprV::Prop)
    } else {
        &&& 0 <= entry < fields.len()
        &&& entry < MAX_COMPONENTS
        &&& spec_repr(g, c) matches Ok(r)
        &&& !(r is Prop)
        &&& !(r is Empty)
        &&& fields[entry as int] == field_type(r)
    }
}

/// Mapping `m` places the components `cs` in order onto `fields`, each
/// non-propositional component on its own field, the fields in component order
pub open spec fn mapping_places(g: Seq<TypeNode>, cs: Seq<TypeId>, m: Seq<i64>, fields: Seq<BasicType>) -> bool {
    &&& m.len() == cs.len()
    &&& forall|j: int| 0 <= j < cs.len() ==> maps_component(g, #[trigger] cs[j] as int, m[j], fields)
    &&& forall|j1: int, j2: int|
        0 <= j1 < j2 < m.len() && #[trigger] m[j1] != PROP_ENTRY && #[trigger] m[j2] != PROP_ENTRY ==> m[j1] < m[j2]
}

/// A prefix of a mapping under construction places its components
spec fn mapping_prefix_places(
    g: Seq<TypeNode>,
    cs: Seq<TypeId>,
    i: int,
    m: Seq<i64>,
    fields: Seq<BasicType>,
) -> bool {
    &&& 0 <= i <= cs.len()
    &&& m.len() == i
    &&& fields.len() < MAX_COMPONENTS
    &&& forall|j: int| 0 <= j < i ==> maps_component(g, #[trigger] cs[j] as int, m[j], fields)
    &&& forall|j1: int, j2: int|
        0 <= j1 < j2 < m.len() && #[trigger] m[j1] != PROP_ENTRY && #[trigger] m[j2] != PROP_ENTRY ==> m[j1] < m[j2]
}

proof fn lemma_prefix_push(
    g: Seq<TypeNode>,
    cs: Seq<TypeId>,
    i: int,
    m: Seq<i64>,
    fields: Seq<BasicType>,
    r: ReprV,
)
    requires
        mapping_prefix_places(g, cs, i, m, fields),
        i < cs.len(),
        fields.len() + 1 < MAX_COMPONENTS,
        spec_repr(g, cs[i] as int) == Ok::<ReprV, Error>(r),
        !(r is Prop),
        !(r is Empty),
    ensures
        mapping_prefix_places(g, cs, i + 1, m.push(fields.len() as i64), fields.push(field_type(r))),
{
    let m2 = m.push(fields.len() as i64);
    let f2 = fields.push(field_type(r));
    assert forall|j: int| 0 <= j < i + 1 implies maps_component(g, #[trigger] cs[j] as int, m2[j], f2) by {
        if j < i {
            assert(maps_component(g, cs[j] as int, m[j], fields));
        }
    }
    assert forall|j1: int, j2: int|
        0 <= j1 < j2 < m2.len() && #[trigger] m2[j1] != PROP_ENTRY && #[trigger] m2[j2] != PROP_ENTRY implies m2[j1] < m2[j2] by {
        if j2 < i {
            assert(m[j1] != PROP_ENTRY && m[j2] != PROP_ENTRY);
        } else {
            assert(maps_component(g, cs[j1] as int, m[j1], fields));
        }
    }
}

proof fn lemma_prefix_push_prop(
    g: Seq<TypeNode>,
    cs: Seq<TypeId>,
    i: int,
    m: Seq<i64>,
    fields: Seq<BasicType>,
)
    requires
        mapping_prefix_places(g, cs, i, m, fields),
        i < cs.len(),
        spec_repr(g, cs[i] as int) == Ok::<ReprV, Error>(ReprV::Prop),
    ensures
        mapping_prefix_places(g, cs, i + 1, m.push(PROP_ENTRY), fields),
{
    let m2 = m.push(PROP_ENTRY);
    assert forall|j: int| 0 <= j < i + 1 implies maps_component(g, #[trigger] cs[j] as int, m2[j], fields) by {
        if j < i {
            assert(maps_component(g, cs[j] as int, m[j], fields));
        }
    }
    assert forall|j1: int, j2: int|
        0 <= j1 < j2 < m2.len() && #[trigger] m2[j1] != PROP_ENTRY && #[trigger] m2[j2] != PROP_ENTRY implies m2[j1] < m2[j2] by {
        assert(m[j1] != PROP_ENTRY && m[j2] != PROP_ENTRY);
    }
}

/// A product is represented as nothing, or as a structure whose mapping places
/// its components
proof fn lemma_product_from(
    g: Seq<TypeNode>,
    t: int,
    ms: Seq<TypeId>,
    i: int,
    mapping: Seq<i64>,
    fields: Seq<BasicType>,
)
    requires
        mapping_prefix_places(g, ms, i, mapping, fields),
        fields.len() <= i,
        ms.len() < MAX_COMPONENTS,
    ensures
        match spec_product_from(g, t, ms, i, mapping, fields) {
            Err(_) => true,
            Ok(ReprV::Empty) => true,
            Ok(ReprV::Prop) => true,
            Ok(ReprV::Product(m, st)) => mapping_places(g, ms, m, st.to_seq()),
            _ => false,
        },
    decreases ms.len() - i,
{
    if i >= ms.len() {
        if fields.len() > 0 {
            TypeList::lemma_seq_roundtrip(fields);
        }
    } else if 0 <= t && ms[i] < t {
        match spec_repr(g, ms[i] as int) {
            Ok(ReprV::Prop) => {
                lemma_prefix_push_prop(g, ms, i, mapping, fields);
                lemma_product_from(g, t, ms, i + 1, mapping.push(PROP_ENTRY), fields);
            },
            Ok(r) => {
                if !(r is Empty) {
                    lemma_prefix_push(g, ms, i, mapping, fields, r);
                    assert(fields.push(field_type(r)) == fields.push(
                        match r {
                            ReprV::Type(ty) => ty,
                            ReprV::Function(_, f) => BasicType::FunctionPointer(Box::new(f)),
                            ReprV::Product(_, st) => BasicType::Struct(st),
                            _ => BasicType::Int(0),
                        },
                    ));
                    lemma_product_from(
                        g,
                        t,
                        ms,
                        i + 1,
                        mapping.push(fields.len() as i64),
                        fields.push(field_type(r)),
                    );
                }
            },
            Err(_) => {},
        }
    }
}

/// A function type whose parameters `ps[i..]` are being laid out is represented
/// as nothing implementable, as a proposition, or as an LLVM function whose
/// mapping places its parameters and which returns `ret`
proof fn lemma_params_from(
    g: Seq<TypeNode>,
    t: int,
    ps: Seq<TypeId>,
    i: int,
    ret: BasicType,
    mapping: Seq<i64>,
    inputs: Seq<BasicType>,
    has_empty: bool,
)
    requires
        !has_empty ==> mapping_prefix_places(g, ps, i, mapping, inputs),
        0 <= i <= ps.len(),
        inputs.len() <= i,
        ps.len() < MAX_COMPONENTS,
    ensures
        match spec_params_from(g, t, ps, i, ret, mapping, inputs, has_empty) {
            Err(_) => true,
            Ok(ReprV::Prop) => true,
            Ok(ReprV::Function(m, f)) => {
                &&& mapping_places(g, ps, m, f.params.to_seq())
                &&& *f.ret == ret
            },
            _ => false,
        },
    decreases ps.len() - i,
{
    if i >= ps.len() {
        if !has_empty {
            TypeList::lemma_seq_roundtrip(inputs);
        }
    } else if 0 <= t && ps[i] < t {
        match spec_repr(g, ps[i] as int) {
            Ok(ReprV::Empty) => {
                lemma_params_from(g, t, ps, i + 1, ret, mapping, inputs, true);
            },
            Ok(ReprV::Prop) => {
                if !has_empty {
                    lemma_prefix_push_prop(g, ps, i, mapping, inputs);
                    lemma_params_from(g, t, ps, i + 1, ret, mapping.push(PROP_ENTRY), inputs, false);
                } else {
                    lemma_params_from(g, t, ps, i + 1, ret, mapping, inputs, true);
                }
            },
            Ok(ReprV::Function(_, _)) => {},
            Ok(r) => {
                if has_empty {
                    lemma_params_from(g, t, ps, i + 1, ret, mapping, inputs, true);
                } else {
                    lemma_prefix_push(g, ps, i, mapping, inputs, r);
                    lemma_params_from(
                        g,
                        t,
                        ps,
                        i + 1,
                        ret,
                        mapping.push(inputs.len() as i64),
                        inputs.push(field_type(r)),
                        false,
                    );
                }
            },
            Err(_) => {},
        }
    }
}

/// The representation of a product type is nothing, a proposition (when no
/// component takes a field), or a structure whose
/// mapping places each component: `mapping[i]` holds the position of the
/// `i`th component in the structure, whose field there has the type
/// representing that component, and propositional components take no field.
pub proof fn law_product_mapping(g: Seq<TypeNode>, t: int)
    requires
        graph_wf(g),
        0 <= t < g.len(),
        g[t] is Product,
    ensures
        match spec_repr(g, t) {
            Err(_) => true,
            Ok(ReprV::Empty) => true,
            Ok(ReprV::Prop) => true,
            Ok(ReprV::Product(m, st)) => mapping_places(g, g[t]->Product_0@, m, st.to_seq()),
            _ => false,
        },
{
    assert(node_wf(g[t], t));
    lemma_product_from(g, t, g[t]->Product_0@, 0, Seq::empty(), Seq::empty());
}

/// The representation of a function type is a proposition (when it returns
/// nothing, or takes an empty parameter), or an LLVM function returning the
/// representation of its result, whose mapping places each parameter:
/// propositional parameters take no LLVM parameter.
pub proof fn law_function_mapping(g: Seq<TypeNode>, t: int)
    requires
        graph_wf(g),
        0 <= t < g.len(),
        g[t] is Pi,
    ensures
        match spec_repr(g, t) {
            Err(_) => true,
            Ok(ReprV::Prop) => true,
            Ok(ReprV::Function(m, f)) => {
                &&& mapping_places(g, g[t]->params@, m, f.params.to_seq())
                &&& spec_repr(g, g[t]->result as int) matches Ok(r)
                &&& (r is Type || r is Product)
                &&& *f.ret == field_type(r)
            },
            _ => false,
        },
{
    assert(node_wf(g[t], t));
    let ps = g[t]->params@;
    let res = g[t]->result as int;
    match spec_repr(g, res) {
        Ok(r) => {
            if r is Type || r is Product {
                lemma_params_from(g, t, ps, 0, field_type(r), Seq::empty(), Seq::empty(), false);
            }
        },
        Err(_) => {},
    }
}

proof fn lemma_product_first_empty(
    g: Seq<TypeNode>,
    t: int,
    ms: Seq<TypeId>,
    i: int,
    mapping: Seq<i64>,
    fields: Seq<BasicType>,
    j: int,
)
    requires
        0 <= i <= j < ms.len(),
        0 <= t,
        forall|k: int| 0 <= k < ms.len() ==> #[trigger] ms[k] < t,
        forall|k: int| i <= k < j ==> #[trigger] spec_repr(g, ms[k] as int) is Ok,
        spec_repr(g, ms[j] as int) == Ok::<ReprV, Error>(ReprV::Empty),
    ensures
        spec_product_from(g, t, ms, i, mapping, fields) == Ok::<ReprV, Error>(ReprV::Empty),
    decreases j - i,
{
    if i < j {
        assert(spec_repr(g, ms[i] as int) is Ok);
        match spec_repr(g, ms[i] as int) {
            Ok(ReprV::Prop) => {
                lemma_product_first_empty(g, t, ms, i + 1, mapping.push(PROP_ENTRY), fields, j);
            },
            Ok(ReprV::Type(ty)) => {
                lemma_product_first_empty(g, t, ms, i + 1, mapping.push(fields.len() as i64), fields.push(ty), j);
            },
            Ok(ReprV::Function(_, f)) => {
                lemma_product_first_empty(
                    g,
                    t,
                    ms,
                    i + 1,
                    mapping.push(fields.len() as i64),
                    fields.push(BasicType::FunctionPointer(Box::new(f))),
                    j,
                );
            },
            Ok(ReprV::Product(_, st)) => {
                lemma_product_first_empty(
                    g,
                    t,
                    ms,
                    i + 1,
                    mapping.push(fields.len() as i64),
                    fields.push(BasicType::Struct(st)),
                    j,
                );
            },
            _ => {},
        }
    }
}

proof fn lemma_product_prop_all_prop(
    g: Seq<TypeNode>,
    t: int,
    ms: Seq<TypeId>,
    i: int,
    mapping: Seq<i64>,
    fields: Seq<BasicType>,
)
    requires
        0 <= i,
    ensures
        spec_product_from(g, t, ms, i, mapping, fields) == Ok::<ReprV, Error>(ReprV::Prop) ==> fields.len()
            == 0 && forall|k: int| i <= k < ms.len() ==> #[trigger] spec_repr(g, ms[k] as int) == Ok::<
            ReprV,
            Error,
        >(ReprV::Prop),
    decreases ms.len() - i,
{
    if i < ms.len() && 0 <= t && ms[i] < t {
        match spec_repr(g, ms[i] as int) {
            Ok(ReprV::Prop) => {
                lemma_product_prop_all_prop(g, t, ms, i + 1, mapping.push(PROP_ENTRY), fields);
            },
            Ok(ReprV::Type(ty)) => {
                lemma_product_prop_all_prop(g, t, ms, i + 1, mapping.push(fields.len() as i64), fields.push(ty));
            },
            Ok(ReprV::Function(_, f)) => {
                lemma_product_prop_all_prop(
                    g,
                    t,
                    ms,
                    i + 1,
                    mapping.push(fields.len() as i64),
                    fields.push(BasicType::FunctionPointer(Box::new(f))),
                );
            },
            Ok(ReprV::Product(_, st)) => {
                lemma_product_prop_all_prop(
                    g,
                    t,
                    ms,
                    i + 1,
                    mapping.push(fields.len() as i64),
                    fields.push(BasicType::Struct(st)),
                );
            },
            _ => {},
        }
    }
}

/// A product with an empty component has no value: once the components
/// before it are laid out without error, the product is represented as the
/// empty type, wherever that component stands and whatever the others are.
pub proof fn law_product_with_empty_component_is_empty(g: Seq<TypeNode>, t: int, j: int)
    requires
        graph_wf(g),
        0 <= t < g.len(),
        g[t] is Product,
        0 <= j < g[t]->Product_0@.len(),
        forall|k: int| 0 <= k < j ==> #[trigger] spec_repr(g, g[t]->Product_0@[k] as int) is Ok,
        spec_repr(g, g[t]->Product_0@[j] as int) == Ok::<ReprV, Error>(ReprV::Empty),
    ensures
        spec_repr(g, t) == Ok::<ReprV, Error>(ReprV::Empty),
{
    assert(node_wf(g[t], t));
    lemma_product_first_empty(g, t, g[t]->Product_0@, 0, Seq::empty(), Seq::empty(), j);
}

/// A product is represented as a proposition, a type of one value, only when
/// every one of its components is a proposition.
pub proof fn law_propositional_product_has_propositional_components(g: Seq<TypeNode>, t: int)
    requires
        0 <= t < g.len(),
        g[t] is Product,
    ensures
        spec_repr(g, t) == Ok::<ReprV, Error>(ReprV::Prop) ==> forall|k: int|
            0 <= k < g[t]->Product_0@.len() ==> #[trigger] spec_repr(g, g[t]->Product_0@[k] as int) == Ok::<
                ReprV,
                Error,
            >(ReprV::Prop),
{
    lemma_product_prop_all_prop(g, t, g[t]->Product_0@, 0, Seq::empty(), Seq::empty());
}

/// `h` extends `g`: it holds the types of `g` at the same identifiers
pub open spec fn extends(h: Seq<TypeNode>, g: Seq<TypeNode>) -> bool {
    &&& g.len() <= h.len()
    &&& forall|i: int| 0 <= i < g.len() ==> #[trigger] h[i] == g[i]
}

proof fn lemma_repr_extends(g: Seq<TypeNode>, h: Seq<TypeNode>, t: int)
    requires
        extends(h, g),
        0 <= t < g.len(),
    ensures
        spec_repr(h, t) == spec_repr(g, t),
    decreases t, 2int, 0int,
{
    assert(h[t] == g[t]);
    match g[t] {
        TypeNode::Product(ms) => {
            lemma_product_extends(g, h, t, ms@, 0, Seq::empty(), Seq::empty());
        },
        TypeNode::Pi { params, result } => {
            lemma_function_extends(g, h, t, params@, result as int);
        },
        _ => {},
    }
}

proof fn lemma_product_extends(
    g: Seq<TypeNode>,
    h: Seq<TypeNode>,
    t: int,
    ms: Seq<TypeId>,
    i: int,
    mapping: Seq<i64>,
    fields: Seq<BasicType>,
)
    requires
        extends(h, g),
        0 <= t < g.len(),
    ensures
        spec_product_from(h, t, ms, i, mapping, fields) == spec_product_from(
            g,
            t,
            ms,
            i,
            mapping,
            fields,
        ),
    decreases t, 1int, ms.len() - i,
{
    if i < ms.len() && 0 <= i && ms[i] < t {
        lemma_repr_extends(g, h, ms[i] as int);
        match spec_repr(g, ms[i] as int) {
            Ok(ReprV::Prop) => {
                lemma_product_extends(g, h, t, ms, i + 1, mapping.push(PROP_ENTRY), fields);
            },
            Ok(ReprV::Empty) => {},
            Ok(r) => {
                lemma_product_extends(
                    g,
                    h,
                    t,
                    ms,
                    i + 1,
                    mapping.push(fields.len() as i64),
                    fields.push(field_type(r)),
                );
            },
            Err(_) => {},
        }
    }
}

proof fn lemma_function_extends(g: Seq<TypeNode>, h: Seq<TypeNode>, t: int, ps: Seq<TypeId>, res: int)
    requires
        extends(h, g),
        0 <= t < g.len(),
    ensures
        spec_function(h, t, ps, res) == spec_function(g, t, ps, res),
    decreases t, 1int, ps.len() + 1,
{
    if 0 <= res < t {
        lemma_repr_extends(g, h, res);
        match spec_repr(g, res) {
            Ok(r) => {
                if r is Type || r is Product {
                    lemma_params_extends(g, h, t, ps, 0, field_type(r), Seq::empty(), Seq::empty(), false);
                }
            },
            Err(_) => {},
        }
    }
}

proof fn lemma_params_extends(
    g: Seq<TypeNode>,
    h: Seq<TypeNode>,
    t: int,
    ps: Seq<TypeId>,
    i: int,
    ret: BasicType,
    mapping: Seq<i64>,
    inputs: Seq<BasicType>,
    has_empty: bool,
)
    requires
        extends(h, g),
        0 <= t < g.len(),
    ensures
        spec_params_from(h, t, ps, i, ret, mapping, inputs, has_empty) == spec_params_from(
            g,
            t,
            ps,
            i,
            ret,
            mapping,
            inputs,
            has_empty,
        ),
    decreases t, 1int, ps.len() - i,
{
    if i < ps.len() && 0 <= i && ps[i] < t {
        lemma_repr_extends(g, h, ps[i] as int);
        match spec_repr(g, ps[i] as int) {
            Ok(ReprV::Empty) => {
                lemma_params_extends(g, h, t, ps, i + 1, ret, mapping, inputs, true);
            },
            Ok(ReprV::Prop) => {
                lemma_params_extends(
                    g,
                    h,
                    t,
                    ps,
                    i + 1,
                    ret,
                    if has_empty {
                        mapping
                    } else {
                        mapping.push(PROP_ENTRY)
                    },
                    inputs,
                    has_empty,
                );
            },
            Ok(ReprV::Function(_, _)) => {},
            Ok(r) => {
                if has_empty {
                    lemma_params_extends(g, h, t, ps, i + 1, ret, mapping, inputs, true);
                } else {
                    lemma_params_extends(
                        g,
                        h,
                        t,
                        ps,
                        i + 1,
                        ret,
                        mapping.push(inputs.len() as i64),
                        inputs.push(field_type(r)),
                        false,
                    );
                }
            },
            Err(_) => {},
        }
    }
}

proof fn lemma_repr_err(g: Seq<TypeNode>, t: int)
    requires
        graph_wf(g),
        0 <= t < g.len(),
    ensures
        spec_repr(g, t) matches Err(e) ==> e is NotImplemented,
    decreases t, 2int, 0int,
{
    assert(node_wf(g[t], t));
    match g[t] {
        TypeNode::Product(ms) => {
            lemma_product_err(g, t, ms@, 0, Seq::empty(), Seq::empty());
        },
        TypeNode::Pi { params, result } => {
            lemma_repr_err(g, result as int);
            match spec_repr(g, result as int) {
                Ok(r) => {
                    if r is Type || r is Product {
                        lemma_params_err(g, t, params@, 0, field_type(r), Seq::empty(), Seq::empty(), false);
                    }
                },
                Err(_) => {},
            }
        },
        _ => {},
    }
}

proof fn lemma_product_err(
    g: Seq<TypeNode>,
    t: int,
    ms: Seq<TypeId>,
    i: int,
    mapping: Seq<i64>,
    fields: Seq<BasicType>,
)
    requires
        graph_wf(g),
        0 <= t < g.len(),
        0 <= i,
        forall|j: int| 0 <= j < ms.len() ==> #[trigger] ms[j] < t,
    ensures
        spec_product_from(g, t, ms, i, mapping, fields) matches Err(e) ==> e is NotImplemented,
    decreases t, 1int, ms.len() - i,
{
    if i < ms.len() {
        lemma_repr_err(g, ms[i] as int);
        match spec_repr(g, ms[i] as int) {
            Ok(ReprV::Prop) => {
                lemma_product_err(g, t, ms, i + 1, mapping.push(PROP_ENTRY), fields);
            },
            Ok(ReprV::Empty) => {},
            Ok(r) => {
                lemma_product_err(g, t, ms, i + 1, mapping.push(fields.len() as i64), fields.push(field_type(r)));
            },
            Err(_) => {},
        }
    }
}

proof fn lemma_params_err(
    g: Seq<TypeNode>,
    t: int,
    ps: Seq<TypeId>,
    i: int,
    ret: BasicType,
    mapping: Seq<i64>,
    inputs: Seq<BasicType>,
    has_empty: bool,
)
    requires
        graph_wf(g),
        0 <= t < g.len(),
        0 <= i,
        forall|j: int| 0 <= j < ps.len() ==> #[trigger] ps[j] < t,
    ensures
        spec_params_from(g, t, ps, i, ret, mapping, inputs, has_empty) matches Err(e) ==> e is NotImplemented,
    decreases t, 1int, ps.len() - i,
{
    if i < ps.len() {
        lemma_repr_err(g, ps[i] as int);
        match spec_repr(g, ps[i] as int) {
            Ok(ReprV::Empty) => {
                lemma_params_err(g, t, ps, i + 1, ret, mapping, inputs, true);
            },
            Ok(ReprV::Prop) => {
                lemma_params_err(
                    g,
                    t,
                    ps,
                    i + 1,
                    ret,
                    if has_empty {
                        mapping
                    } else {
                        mapping.push(PROP_ENTRY)
                    },
                    inputs,
                    has_empty,
                );
            },
            Ok(ReprV::Function(_, _)) => {},
            Ok(r) => {
                if has_empty {
                    lemma_params_err(g, t, ps, i + 1, ret, mapping, inputs, true);
                } else {
                    lemma_params_err(
                        g,
                        t,
                        ps,
                        i + 1,
                        ret,
                        mapping.push(inputs.len() as i64),
                        inputs.push(field_type(r)),
                        false,
                    );
                }
            },
            Err(_) => {},
        }
    }
}

/// On a well-formed type graph, the only way laying out a type fails is that
/// it is not implemented: bits wider than 128, or functions taking or
/// returning functions.
pub proof fn law_repr_errors_not_implemented(g: Seq<TypeNode>, t: int)
    requires
        graph_wf(g),
        0 <= t < g.len(),
    ensures
        spec_repr(g, t) matches Err(e) ==> e is NotImplemented,
{
    lemma_repr_err(g, t);
}

/// Adding types to a graph changes the representation of none of the types
/// already in it.
pub proof fn law_repr_stable_under_extension(g: Seq<TypeNode>, h: Seq<TypeNode>, t: int)
    requires
        extends(h, g),
        0 <= t < g.len(),
    ensures
        spec_repr(h, t) == spec_repr(g, t),
{
    lemma_repr_extends(g, h, t);
}

/// A computed representation agrees with its specification: the specified
/// representation, or the specified error.
pub open spec fn repr_result(r: Result<Repr, Error>, s: Result<ReprV, Error>) -> bool {
    match r {
        Ok(v) => s == Ok::<ReprV, Error>(v@),
        Err(e) => s == Err::<ReprV, Error>(e),
    }
}

/**
A `rain` code generation context.

It caches the representation of each `rain` type it has laid out, and numbers
the functions it names.
*/
#[derive(Debug)]
pub struct Codegen {
    /// Type representations: `rain` types are mapped to their, currently
    /// unique, LLVM representations.
    reprs: HashMap<TypeId, Repr>,
    /// Function name counter
    counter: usize,
}

impl Codegen {
    /// The cached representations, by type
    pub closed spec fn cache(&self) -> Map<TypeId, Repr> {
        self.reprs@
    }

    /// The number of functions named so far
    pub closed spec fn lambda_count(&self) -> nat {
        self.counter as nat
    }

    /// Every cached representation is the representation of its type in graph `g`
    pub open spec fn wf(&self, g: Seq<TypeNode>) -> bool {
        forall|k: TypeId| #[trigger]
            self.cache().contains_key(k) ==> k < g.len() && spec_repr(g, k as int) == Ok::<ReprV, Error>(
                self.cache()[k]@,
            )
    }

    /// A code generation context stays consistent with a type graph as types
    /// are added to it, so that it can keep laying out types of the grown graph.
    pub proof fn lemma_wf_extends(&self, g: Seq<TypeNode>, h: Seq<TypeNode>)
        requires
            self.wf(g),
            extends(h, g),
        ensures
            self.wf(h),
    {
        assert forall|k: TypeId| #[trigger]
            self.cache().contains_key(k) implies k < h.len() && spec_repr(h, k as int) == Ok::<ReprV, Error>(
                self.cache()[k]@,
            ) by {
            lemma_repr_extends(g, h, k as int);
        }
    }

    /// Each type has a unique representation: any two contexts consistent with
    /// the same type graph that have both laid out a type hold the same
    /// representation for it.
    pub proof fn law_cached_repr_unique(c1: &Codegen, c2: &Codegen, g: Seq<TypeNode>, t: TypeId)
        requires
            c1.wf(g),
            c2.wf(g),
            c1.cache().contains_key(t),
            c2.cache().contains_key(t),
        ensures
            c1.cache()[t]@ == c2.cache()[t]@,
    {
    }

    /// Create a new, empty code generation context
    pub fn new() -> (c: Codegen)
        ensures
            c.cache() == Map::<TypeId, Repr>::empty(),
            c.lambda_count() == 0,
    {
        Codegen { reprs: HashMap::default(), counter: 0 }
    }

    /// The number of functions named so far
    pub fn named_count(&self) -> (n: usize)
        ensures
            n == self.lambda_count(),
    {
        self.counter
    }

    /// Get the compiled representations in this context
    pub fn reprs(&self) -> (r: &HashMap<TypeId, Repr>)
        ensures
            r@ == self.cache(),
    {
        &self.reprs
    }

    /// Get the representation for a given type
    pub fn repr(&mut self, g: &TypeGraph, t: TypeId) -> (r: Result<Repr, Error>)
        requires
            old(self).wf(g@),
            t < g@.len(),
        ensures
            final(self).wf(g@),
            final(self).lambda_count() == old(self).lambda_count(),
            repr_result(r, spec_repr(g@, t as int)),
            forall|k: TypeId| #[trigger]
                final(self).cache().contains_key(k) ==> old(self).cache().contains_key(k) || k <= t,
            r is Ok && !(g@[t as int] is Bool) ==> final(self).cache().contains_key(t)
                && final(self).cache()[t]@ == r->Ok_0@,
            g@[t as int] is Bool || old(self).cache().contains_key(t) ==> final(self).cache() == old(
                self,
            ).cache(),
            g@[t as int] is Finite || g@[t as int] is Bits ==> forall|k: TypeId| #[trigger]
                final(self).cache().contains_key(k) ==> old(self).cache().contains_key(k) || k == t,
            forall|k: TypeId| #[trigger]
                old(self).cache().contains_key(k) ==> final(self).cache().contains_key(k)
                    && final(self).cache()[k] == old(self).cache()[k],
        decreases t, 2int, 0int,
    {
        proof {
            use_type_invariant(g);
        }
        // Special cases
        if let TypeNode::Bool = g.node(t) {
            return Ok(Repr::Type(BasicType::Int(1)));
        }
        // Cached case
        if let Some(r) = cache_get(&self.reprs, t) {
            assert(self.cache().contains_key(t));
            return Ok(r.duplicate());
        }
        // General case
        let r = match g.node(t) {
            TypeNode::Bool => Repr::Type(BasicType::Int(1)),
            TypeNode::Finite(f) => self.repr_finite(f),
            TypeNode::Bits(b) => {
                if b.0 <= 128 {
                    self.repr_bitsty(b)
                } else {
                    return Err(Error::NotImplemented("bits types wider than 128 bits"));
                }
            },
            TypeNode::Product(_) => self.repr_product(g, t)?,
            TypeNode::Pi { .. } => self.build_function_repr(g, t)?,
        };
        let ghost before = self.cache();
        let old = cache_insert(&mut self.reprs, t, r.duplicate());
        assert(old is None);
        proof {
            assert forall|k: TypeId| #[trigger]
                self.cache().contains_key(k) implies k < g@.len() && spec_repr(g@, k as int)
                == Ok::<ReprV, Error>(self.cache()[k]@) by {
                if k != t {
                    assert(before.contains_key(k));
                }
            }
        }
        Ok(r)
    }
}

} // verus!
