//! Code generation for `rain` ternary nodes
use super::function::{is_lambda_plan, mapping_in_range, parameter_values, LambdaPlan};
use super::{law_function_mapping, maps_component, mapping_places, spec_repr, Codegen};
use crate::error::Error;
use crate::ir::{TypeGraph, TypeId, TypeNode};
use crate::repr::{bool_value, BasicType, BasicValue, Repr, ReprV, TypeList, PROP_ENTRY};
use vstd::prelude::*;

verus! {

/// The LLVM function that is to implement a `rain` ternary node
#[derive(Debug)]
pub struct TernaryPlan {
    /// The function, as for a lambda of the node's type
    pub lambda: LambdaPlan,
    /// The boolean the node switches on: the function's first parameter
    pub switch: BasicValue,
    /// The type of the node's result, merged from its two branches
    pub phi: BasicType,
}

impl Codegen {
    /// Build an inline ternary node switching on a given boolean: a selection,
    /// for branches of any basic type, of the high branch's value when the
    /// boolean holds and of the low branch's otherwise
    pub fn build_ternary_inline(
        &mut self,
        switch_bool: BasicValue,
        high: BasicValue,
        low: BasicValue,
    ) -> (v: BasicValue)
        ensures
            *final(self) == *old(self),
            v == BasicValue::Select(Box::new(switch_bool), Box::new(high), Box::new(low)),
            forall|env: Seq<bool>| #[trigger]
                bool_value(v, env) == if bool_value(switch_bool, env) {
                    bool_value(high, env)
                } else {
                    bool_value(low, env)
                },
    {
        BasicValue::Select(Box::new(switch_bool), Box::new(high), Box::new(low))
    }

    /// Lay out the LLVM function implementing a ternary node of function type
    /// `ty`: `None` when it needs no code, otherwise a freshly named function
    /// switching on its first parameter, which must be an integer, and merging
    /// branches of the basic type representing the result
    pub fn plan_ternary(&mut self, g: &TypeGraph, ty: TypeId) -> (r: Result<Option<TernaryPlan>, Error>)
        requires
            old(self).wf(g@),
            ty < g@.len(),
            g@[ty as int] is Pi,
            old(self).lambda_count() < usize::MAX,
        ensures
            final(self).wf(g@),
            match r {
                Err(e) => {
                    &&& final(self).lambda_count() == old(self).lambda_count()
                    &&& match spec_repr(g@, ty as int) {
                        Err(e2) => e == e2,
                        Ok(ReprV::Function(_, f)) => if spec_repr(
                            g@,
                            g@[ty as int]->result as int,
                        ) matches Ok(ReprV::Type(_)) {
                            if f.params.to_seq().len() == 0 {
                                e == Error::InternalError("a ternary node switches on a parameter")
                            } else {
                                &&& !(f.params.to_seq()[0] is Int)
                                &&& e == Error::InternalError("a ternary node switches on an integer")
                            }
                        } else {
                            e == Error::NotImplemented("non basic representations of ternary results")
                        },
                        _ => false,
                    }
                },
                Ok(None) => {
                    &&& spec_repr(g@, ty as int) == Ok::<ReprV, Error>(ReprV::Prop)
                    &&& final(self).lambda_count() == old(self).lambda_count()
                },
                Ok(Some(p)) => {
                    &&& is_lambda_plan(g@, ty as int, old(self).lambda_count(), p.lambda)
                    &&& final(self).lambda_count() == old(self).lambda_count() + 1
                    &&& p.lambda.repr.params.to_seq().len() > 0
                    &&& p.lambda.repr.params.to_seq()[0] is Int
                    &&& p.switch == (BasicValue::Param { index: 0, ty: p.lambda.repr.params.to_seq()[0] })
                    &&& spec_repr(g@, g@[ty as int]->result as int) == Ok::<ReprV, Error>(ReprV::Type(p.phi))
                },
            },
    {
        proof {
            use_type_invariant(g);
            law_function_mapping(g@, ty as int);
        }
        let result = match g.node(ty) {
            TypeNode::Pi { result, .. } => *result,
            _ => {
                proof {
                    assert(false);
                }
                return Err(Error::InternalError("expected a function type"));
            },
        };
        let prototype = match self.repr(g, ty)? {
            Repr::Function(prototype) => prototype,
            _ => return Ok(None),
        };
        proof {
            assert(crate::ir::node_wf(g@[ty as int], ty as int));
        }
        let phi = match self.repr(g, result)? {
            Repr::Type(t) => t,
            _ => return Err(Error::NotImplemented("non basic representations of ternary results")),
        };
        let switch = match &prototype.repr.params {
            TypeList::Cons(first, _) => match &**first {
                BasicType::Int(w) => BasicValue::Param { index: 0, ty: BasicType::Int(*w) },
                _ => return Err(Error::InternalError("a ternary node switches on an integer")),
            },
            TypeList::Nil => return Err(Error::InternalError("a ternary node switches on a parameter")),
        };
        proof {
            assert(mapping_places(
                g@,
                g@[ty as int]->params@,
                prototype.mapping@,
                prototype.repr.params.to_seq(),
            ));
            assert forall|i: int| 0 <= i < prototype.mapping@.len() implies #[trigger] prototype.mapping@[i]
                == PROP_ENTRY || (0 <= prototype.mapping@[i] < prototype.repr.params.to_seq().len()
                && prototype.mapping@[i] <= u32::MAX) by {
                assert(maps_component(
                    g@,
                    g@[ty as int]->params@[i] as int,
                    prototype.mapping@[i],
                    prototype.repr.params.to_seq(),
                ));
            }
            assert(mapping_in_range(prototype.mapping@, prototype.repr.params.to_seq().len()));
        }
        let name = self.next_lambda_name();
        let params = parameter_values(&prototype);
        let lambda = LambdaPlan { name, repr: prototype.repr.duplicate(), params };
        Ok(Some(TernaryPlan { lambda, switch, phi }))
    }
}

} // verus!
