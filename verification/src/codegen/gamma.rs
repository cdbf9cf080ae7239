//! Code generation for `rain` gamma nodes
use super::function::{is_lambda_plan, LambdaPlan};
use super::{spec_repr, Codegen};
use crate::error::Error;
use crate::ir::{TypeGraph, TypeId};
use crate::repr::ReprV;
use vstd::prelude::*;

verus! {

impl Codegen {
    /// Lay out the LLVM function implementing a boolean gamma node of function
    /// type `ty` with `branches` branches. Like a lambda, it needs no code when
    /// it returns nothing or cannot be called; otherwise a function is named,
    /// whose body is the single branch inlined. Gamma nodes of two branches are
    /// not implemented, and a boolean gamma node has no more than two.
    pub fn plan_gamma(&mut self, g: &TypeGraph, ty: TypeId, branches: usize) -> (r: Result<
        Option<LambdaPlan>,
        Error,
    >)
        requires
            old(self).wf(g@),
            ty < g@.len(),
            g@[ty as int] is Pi,
            old(self).lambda_count() < usize::MAX,
        ensures
            final(self).wf(g@),
            forall|k: TypeId| #[trigger]
                old(self).cache().contains_key(k) ==> final(self).cache().contains_key(k),
            match r {
                Err(e) => match spec_repr(g@, ty as int) {
                    Err(e2) => e == e2 && final(self).lambda_count() == old(self).lambda_count(),
                    Ok(ReprV::Function(_, _)) => {
                        &&& final(self).lambda_count() == old(self).lambda_count() + 1
                        &&& if branches == 2 {
                            e == Error::NotImplemented("gamma nodes of two branches")
                        } else {
                            &&& branches != 1
                            &&& e == Error::InternalError(
                                "Boolean gamma node should not have more than two branches",
                            )
                        }
                    },
                    _ => false,
                },
                Ok(None) => {
                    &&& spec_repr(g@, ty as int) == Ok::<ReprV, Error>(ReprV::Prop)
                    &&& final(self).lambda_count() == old(self).lambda_count()
                },
                Ok(Some(p)) => {
                    &&& branches == 1
                    &&& is_lambda_plan(g@, ty as int, old(self).lambda_count(), p)
                    &&& final(self).lambda_count() == old(self).lambda_count() + 1
                },
            },
    {
        let plan = match self.plan_lambda(g, ty)? {
            Some(plan) => plan,
            None => return Ok(None),
        };
        if branches == 1 {
            Ok(Some(plan))
        } else if branches == 2 {
            Err(Error::NotImplemented("gamma nodes of two branches"))
        } else {
            Err(Error::InternalError("Boolean gamma node should not have more than two branches"))
        }
    }
}

} // verus!
