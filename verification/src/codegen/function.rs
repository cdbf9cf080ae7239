//! Code generation for `rain` functions
use super::{mapping_places, repr_result, spec_function, spec_params_from, spec_repr, law_function_mapping, Codegen};
use crate::error::Error;
use crate::ir::{graph_wf, node_wf, TypeGraph, TypeId, TypeNode};
use crate::repr::{BasicType, BasicValue, FunctionRepr, FunctionType, IxMap, Repr, ReprIx, ReprV, TypeList, Val, PROP_ENTRY, spec_entry_ix};
use vstd::string::StringExecFns;
use std::rc::Rc;
use vstd::prelude::*;

verus! {

/// The character of decimal digit `d`
pub open spec fn digit_char(d: nat) -> char {
    if d == 0 {
        '0'
    } else if d == 1 {
        '1'
    } else if d == 2 {
        '2'
    } else if d == 3 {
        '3'
    } else if d == 4 {
        '4'
    } else if d == 5 {
        '5'
    } else if d == 6 {
        '6'
    } else if d == 7 {
        '7'
    } else if d == 8 {
        '8'
    } else {
        '9'
    }
}

/// The decimal notation of `n`, without leading zeros
pub open spec fn decimal(n: nat) -> Seq<char>
    decreases n,
{
    if n < 10 {
        seq![digit_char(n)]
    } else {
        decimal(n / 10) + seq![digit_char(n % 10)]
    }
}

/// The name of the `n`th function named by a code generation context
pub open spec fn lambda_name(n: nat) -> Seq<char> {
    "__lambda_"@ + decimal(n)
}

/// The argument standing for the parameter with mapping entry `entry` of a
/// function of type `f`: nothing for a propositional parameter, otherwise the
/// LLVM parameter at the mapped position
pub open spec fn param_value(entry: i64, f: FunctionType) -> Val {
    if entry == PROP_ENTRY {
        Val::Unit
    } else {
        Val::Value(BasicValue::Param { index: entry as u32, ty: f.params.to_seq()[entry as int] })
    }
}

/// Every entry of mapping `m` is propositional or a position among `n`
/// parameters that fits a `u32`
pub open spec fn mapping_in_range(m: Seq<i64>, n: nat) -> bool {
    forall|i: int| 0 <= i < m.len() ==> #[trigger] m[i] == PROP_ENTRY || (0 <= m[i] < n && m[i] <= u32::MAX)
}

proof fn lemma_digit_char_injective(a: nat, b: nat)
    requires
        a < 10,
        b < 10,
        digit_char(a) == digit_char(b),
    ensures
        a == b,
{
}

proof fn lemma_decimal_injective(a: nat, b: nat)
    requires
        decimal(a) == decimal(b),
    ensures
        a == b,
    decreases a,
{
    if a < 10 && b < 10 {
        assert(decimal(a)[0] == digit_char(a));
        assert(decimal(b)[0] == digit_char(b));
        lemma_digit_char_injective(a, b);
    } else if a >= 10 && b >= 10 {
        let da = decimal(a / 10);
        let db = decimal(b / 10);
        lemma_decimal_nonempty(a / 10);
        lemma_decimal_nonempty(b / 10);
        assert(decimal(a).len() == da.len() + 1);
        assert(decimal(a)[da.len() as int] == digit_char(a % 10));
        assert(decimal(b)[db.len() as int] == digit_char(b % 10));
        assert(da == decimal(a).subrange(0, da.len() as int));
        assert(db == decimal(b).subrange(0, db.len() as int));
        lemma_digit_char_injective(a % 10, b % 10);
        lemma_decimal_injective(a / 10, b / 10);
    } else if a < 10 {
        lemma_decimal_nonempty(b / 10);
        assert(decimal(a).len() == 1);
    } else {
        lemma_decimal_nonempty(a / 10);
        assert(decimal(b).len() == 1);
    }
}

proof fn lemma_decimal_nonempty(n: nat)
    ensures
        decimal(n).len() >= 1,
    decreases n,
{
    if n >= 10 {
        lemma_decimal_nonempty(n / 10);
    }
}

/// Distinct functions get distinct names: the names of a context's functions
/// are pairwise different.
pub proof fn law_lambda_names_distinct(a: nat, b: nat)
    requires
        a != b,
    ensures
        lambda_name(a) != lambda_name(b),
{
    if lambda_name(a) == lambda_name(b) {
        let p = "__lambda_"@;
        assert(decimal(a) == lambda_name(a).subrange(p.len() as int, lambda_name(a).len() as int));
        assert(decimal(b) == lambda_name(b).subrange(p.len() as int, lambda_name(b).len() as int));
        lemma_decimal_injective(a, b);
    }
}

/// The one-character string of decimal digit `d`
fn digit_str(d: usize) -> (s: &'static str)
    requires
        d < 10,
    ensures
        s@ == seq![digit_char(d as nat)],
{
    proof {
        reveal_strlit("0");
        reveal_strlit("1");
        reveal_strlit("2");
        reveal_strlit("3");
        reveal_strlit("4");
        reveal_strlit("5");
        reveal_strlit("6");
        reveal_strlit("7");
        reveal_strlit("8");
        reveal_strlit("9");
    }
    if d == 0 {
        "0"
    } else if d == 1 {
        "1"
    } else if d == 2 {
        "2"
    } else if d == 3 {
        "3"
    } else if d == 4 {
        "4"
    } else if d == 5 {
        "5"
    } else if d == 6 {
        "6"
    } else if d == 7 {
        "7"
    } else if d == 8 {
        "8"
    } else {
        "9"
    }
}

/// Append the decimal notation of `n` to `s`
fn push_decimal(s: &mut String, n: usize)
    ensures
        final(s)@ == old(s)@ + decimal(n as nat),
    decreases n,
{
    if n >= 10 {
        push_decimal(s, n / 10);
    }
    s.append(digit_str(n % 10));
    proof {
        if n >= 10 {
            assert(final(s)@ =~= old(s)@ + decimal(n as nat));
        }
    }
}

/// The arguments standing for the parameters of a function with a given
/// representation, in `rain` parameter order: nothing for a propositional
/// parameter, the mapped LLVM parameter otherwise
pub fn parameter_values(prototype: &FunctionRepr) -> (v: Vec<Val>)
    requires
        mapping_in_range(prototype.mapping@, prototype.repr.params.to_seq().len()),
    ensures
        v@.len() == prototype.mapping@.len(),
        forall|i: int| 0 <= i < v@.len() ==> #[trigger] v@[i] == param_value(
            prototype.mapping@[i],
            prototype.repr,
        ),
{
    let params = prototype.repr.params.to_vec();
    let ixes = prototype.mapping.iter();
    let n = ixes.len();
    let mut parameter_values: Vec<Val> = Vec::with_capacity(n);
    for i in 0..n
        invariant
            n == ixes@.len(),
            n == prototype.mapping@.len(),
            params@ == prototype.repr.params.to_seq(),
            forall|j: int| 0 <= j < n ==> #[trigger] ixes@[j] == spec_entry_ix(prototype.mapping@[j]),
            mapping_in_range(prototype.mapping@, prototype.repr.params.to_seq().len()),
            parameter_values@.len() == i,
            forall|j: int| 0 <= j < i ==> #[trigger] parameter_values@[j] == param_value(
                prototype.mapping@[j],
                prototype.repr,
            ),
    {
        proof {
            assert(prototype.mapping@[i as int] == PROP_ENTRY || (0 <= prototype.mapping@[i as int] < params@.len()
                && prototype.mapping@[i as int] <= u32::MAX));
        }
        match ixes[i] {
            ReprIx::Prop => {
                parameter_values.push(Val::Unit);
            },
            ReprIx::Val(ix) => {
                let ty = params[ix as usize].duplicate();
                parameter_values.push(Val::Value(BasicValue::Param { index: ix, ty }));
            },
        }
    }
    parameter_values
}

/// What a call of a function with given arguments comes to
#[derive(Debug)]
pub enum CallPlan {
    /// A call with these LLVM arguments
    Call(Vec<BasicValue>),
    /// No call: an argument is a contradiction, which is the result
    Skip(Val),
}

/// The LLVM values of those of `args` that are values, in order: unit
/// arguments, of propositional parameters, take no LLVM argument
pub open spec fn arg_values(args: Seq<Val>) -> Seq<BasicValue>
    decreases args.len(),
{
    if args.len() == 0 {
        Seq::empty()
    } else {
        match args.last() {
            Val::Value(v) => arg_values(args.drop_last()).push(v),
            _ => arg_values(args.drop_last()),
        }
    }
}

/// A call takes one LLVM argument for each argument that is an LLVM value,
/// that value itself, in the order of the arguments: the LLVM arguments are
/// the value arguments, kept whole, with all others left out.
pub proof fn law_call_arguments_are_the_value_arguments(args: Seq<Val>)
    ensures
        arg_values(args) == args.filter(|v: Val| v is Value).map_values(|v: Val| v->Value_0),
    decreases args.len(),
{
    reveal(Seq::filter);
    if args.len() > 0 {
        law_call_arguments_are_the_value_arguments(args.drop_last());
        let p = |v: Val| v is Value;
        let f = |v: Val| v->Value_0;
        let sub = args.drop_last().filter(p);
        assert(args.filter(p) == if p(args.last()) {
            sub.push(args.last())
        } else {
            sub
        });
        if p(args.last()) {
            assert(sub.push(args.last()).map_values(f) =~= sub.map_values(f).push(f(args.last())));
        }
    }
}

/// All arguments before position `k` are LLVM values or units
pub open spec fn values_or_units_before(args: Seq<Val>, k: int) -> bool {
    forall|i: int| 0 <= i < k ==> #[trigger] args[i] is Value || args[i] is Unit
}

/// Decide the call of a function on the given argument values, in order: the
/// first argument that is a contradiction is the result, with no call;
/// otherwise the function is called on the LLVM values of the arguments, unit
/// arguments being skipped as their parameters are. Functions as arguments
/// are not implemented.
pub fn plan_function_call(args: Vec<Val>) -> (r: Result<CallPlan, Error>)
    ensures
        match r {
            Ok(CallPlan::Call(vs)) => {
                &&& values_or_units_before(args@, args@.len() as int)
                &&& vs@ == arg_values(args@)
            },
            Ok(CallPlan::Skip(v)) => v == Val::Contr && exists|k: int|
                0 <= k < args@.len() && values_or_units_before(args@, k) && #[trigger] args@[k] == Val::Contr,
            Err(e) => exists|k: int|
                0 <= k < args@.len() && values_or_units_before(args@, k) && #[trigger] args@[k] is Function
                    && e is NotImplemented,
        },
{
    let ghost a = args@;
    let mut this_args: Vec<BasicValue> = Vec::new();
    for arg in it: args.into_iter()
        invariant
            it.seq() == a,
            it.index() <= a.len(),
            values_or_units_before(a, it.index() as int),
            this_args@ == arg_values(a.take(it.index() as int)),
    {
        let ghost k = it.index();
        proof {
            assert(a.take(k + 1).drop_last() =~= a.take(k));
            assert(a.take(k + 1).last() == a[k]);
        }
        match arg {
            Val::Contr => {
                proof {
                    assert(a[k] == Val::Contr);
                }
                return Ok(CallPlan::Skip(Val::Contr));
            },
            Val::Unit => {},
            Val::Value(v) => this_args.push(v),
            Val::Function(_) => {
                proof {
                    assert(a[k] is Function);
                }
                return Err(Error::NotImplemented("higher order functions"));
            },
        }
    }
    proof {
        assert(a.take(a.len() as int) =~= a);
    }
    Ok(CallPlan::Call(this_args))
}

/// The LLVM function that is to implement a `rain` lambda
#[derive(Debug)]
pub struct LambdaPlan {
    /// The name of the function in the module
    pub name: String,
    /// The type of the function
    pub repr: FunctionType,
    /// The arguments standing for the lambda's parameters, in `rain` parameter order
    pub params: Vec<Val>,
}

/// `p` lays out the function implementing a lambda of function type `ty` of
/// graph `g`, as the `n`th function named: it has the representation of `ty`,
/// and its arguments stand for the lambda's parameters in order
pub open spec fn is_lambda_plan(g: Seq<TypeNode>, ty: int, n: nat, p: LambdaPlan) -> bool {
    &&& spec_repr(g, ty) matches Ok(ReprV::Function(m, f))
    &&& f == p.repr
    &&& p.name@ == lambda_name(n)
    &&& p.params@.len() == m.len()
    &&& forall|i: int| 0 <= i < m.len() ==> #[trigger] p.params@[i] == param_value(m[i], f)
}

/// Every argument of a lambda plan stands for its parameter with the right
/// value: a propositional parameter gets the unit, and any other one the LLVM
/// parameter at its mapped position, with exactly the type that the function
/// gives that parameter.
pub proof fn law_lambda_parameters_have_their_types(g: Seq<TypeNode>, ty: int, n: nat, p: LambdaPlan)
    requires
        graph_wf(g),
        0 <= ty < g.len(),
        g[ty] is Pi,
        is_lambda_plan(g, ty, n, p),
    ensures
        spec_repr(g, ty) matches Ok(ReprV::Function(m, _)) ==> forall|i: int|
            0 <= i < m.len() ==> if m[i] == PROP_ENTRY {
                #[trigger] p.params@[i] == Val::Unit
            } else {
                p.params@[i] matches Val::Value(BasicValue::Param { index, ty: pt }) && index as int
                    == m[i] && index < p.repr.params.to_seq().len() && pt == p.repr.params.to_seq()[index as int]
            },
{
    law_function_mapping(g, ty);
    match spec_repr(g, ty) {
        Ok(ReprV::Function(m, f)) => {
            assert forall|i: int| 0 <= i < m.len() && m[i] != PROP_ENTRY implies #[trigger] p.params@[i] matches Val::Value(
                BasicValue::Param { index, ty: pt },
            ) && index as int == m[i] && index < p.repr.params.to_seq().len() && pt
                == p.repr.params.to_seq()[index as int] by {
                assert(super::maps_component(g, g[ty]->params@[i] as int, m[i], f.params.to_seq()));
                assert(p.params@[i] == param_value(m[i], f));
            }
        },
        _ => {},
    }
}

impl Codegen {
    /// Name a new functionimpl Codegen {
    /// Name a new function: `__lambda_` followed by the number of functions named before
    pub fn next_lambda_name(&mut self) -> (name: String)
        requires
            old(self).lambda_count() < usize::MAX,
        ensures
            name@ == lambda_name(old(self).lambda_count()),
            final(self).lambda_count() == old(self).lambda_count() + 1,
            final(self).cache() == old(self).cache(),
    {
        let mut name = String::from_str("__lambda_");
        push_decimal(&mut name, self.counter);
        self.counter += 1;
        name
    }

    /// Lay out the LLVM function implementing a lambda of function type `ty`:
    /// `None` when the lambda needs no code (it returns nothing or cannot be
    /// called), otherwise a freshly named function of the representation of
    /// `ty` with the arguments standing for the lambda's parameters
    pub fn plan_lambda(&mut self, g: &TypeGraph, ty: TypeId) -> (r: Result<Option<LambdaPlan>, Error>)
        requires
            old(self).wf(g@),
            ty < g@.len(),
            g@[ty as int] is Pi,
            old(self).lambda_count() < usize::MAX,
        ensures
            final(self).wf(g@),
            forall|k: TypeId| #[trigger]
                old(self).cache().contains_key(k) ==> final(self).cache().contains_key(k),
            match r {
                Err(e) => {
                    &&& spec_repr(g@, ty as int) == Err::<ReprV, Error>(e)
                    &&& final(self).lambda_count() == old(self).lambda_count()
                },
                Ok(None) => {
                    &&& spec_repr(g@, ty as int) == Ok::<ReprV, Error>(ReprV::Prop)
                    &&& final(self).lambda_count() == old(self).lambda_count()
                },
                Ok(Some(p)) => {
                    &&& is_lambda_plan(g@, ty as int, old(self).lambda_count(), p)
                    &&& final(self).lambda_count() == old(self).lambda_count() + 1
                },
            },
    {
        proof {
            use_type_invariant(g);
            law_function_mapping(g@, ty as int);
        }
        let prototype = match self.repr(g, ty)? {
            Repr::Function(prototype) => prototype,
            _ => return Ok(None),
        };
        proof {
            assert(mapping_places(g@, g@[ty as int]->params@, prototype.mapping@, prototype.repr.params.to_seq()));
            assert forall|i: int| 0 <= i < prototype.mapping@.len() implies #[trigger] prototype.mapping@[i] == PROP_ENTRY
                || (0 <= prototype.mapping@[i] < prototype.repr.params.to_seq().len() && prototype.mapping@[i] <= u32::MAX) by {
                assert(super::maps_component(g@, g@[ty as int]->params@[i] as int, prototype.mapping@[i], prototype.repr.params.to_seq()));
            }
        }
        let name = self.next_lambda_name();
        let params = parameter_values(&prototype);
        Ok(Some(LambdaPlan { name, repr: prototype.repr.duplicate(), params }))
    }

    /// Build the representation of the function type `t`
    pub fn build_function_repr(&mut self, g: &TypeGraph, t: TypeId) -> (r: Result<Repr, Error>)
        requires
            old(self).wf(g@),
            t < g@.len(),
            g@[t as int] is Pi,
        ensures
            final(self).wf(g@),
            final(self).lambda_count() == old(self).lambda_count(),
            repr_result(r, spec_repr(g@, t as int)),
            forall|k: TypeId| #[trigger]
                final(self).cache().contains_key(k) ==> old(self).cache().contains_key(k) || k < t,
            forall|k: TypeId| #[trigger]
                old(self).cache().contains_key(k) ==> final(self).cache().contains_key(k)
                    && final(self).cache()[k] == old(self).cache()[k],
        decreases t, 1int, 0int,
    {
        proof {
            use_type_invariant(g);
        }
        let (params, result) = match g.node(t) {
            TypeNode::Pi { params, result } => (params, *result),
            _ => {
                proof {
                    assert(false);
                }
                return Err(Error::InternalError("expected a function type"));
            },
        };
        let ghost gs = g@;
        proof {
            assert(node_wf(gs[t as int], t as int));
        }
        // Step 1: Compute result representation
        let result_repr = match self.repr(g, result)? {
            Repr::Type(t) => t,
            Repr::Function(_f) => {
                return Err(Error::NotImplemented("functions returning functions"));
            },
            Repr::Prop | Repr::Empty => return Ok(Repr::Prop),
            Repr::Product(p) => BasicType::Struct(p.repr.duplicate()),
        };
        // Step 2: Compute parameter types
        let n = params.len();
        let mut input_reprs: Vec<BasicType> = Vec::with_capacity(n);
        let mut input_ixes: IxMap = IxMap::with_capacity(n as u32);
        let mut has_empty = false;
        for i in 0..n
            invariant
                n == params@.len(),
                gs == g@,
                graph_wf(gs),
                t < gs.len(),
                gs[t as int] == (TypeNode::Pi { params: *params, result }),
                node_wf(gs[t as int], t as int),
                self.wf(gs),
                self.lambda_count() == old(self).lambda_count(),
                forall|k: TypeId| #[trigger]
                    self.cache().contains_key(k) ==> old(self).cache().contains_key(k) || k < t,
                forall|k: TypeId| #[trigger]
                    old(self).cache().contains_key(k) ==> self.cache().contains_key(k)
                        && self.cache()[k] == old(self).cache()[k],
                input_reprs@.len() <= i,
                spec_repr(gs, t as int) == spec_params_from(
                    gs,
                    t as int,
                    params@,
                    i as int,
                    result_repr,
                    input_ixes@,
                    input_reprs@,
                    has_empty,
                ),
        {
            proof {
                assert(params@[i as int] < t);
            }
            match self.repr(g, params[i])? {
                Repr::Type(ty) => {
                    if !has_empty {
                        input_ixes.push_ix(input_reprs.len() as u32);
                        input_reprs.push(ty);
                    }
                },
                Repr::Function(_) => {
                    return Err(Error::NotImplemented("functions taking functions"));
                },
                Repr::Prop => {
                    if !has_empty {
                        input_ixes.push_prop();
                    }
                },
                Repr::Empty => has_empty = true,
                Repr::Product(p) => {
                    if !has_empty {
                        input_ixes.push_ix(input_reprs.len() as u32);
                        input_reprs.push(BasicType::Struct(p.repr.duplicate()));
                    }
                },
            }
        }
        // Edge case: function has an empty parameter, so no need to make any code
        if has_empty {
            return Ok(Repr::Prop);
        }
        // Step 3: create LLVM function type
        let repr = FunctionType { params: TypeList::from_vec(input_reprs), ret: Box::new(result_repr) };
        Ok(Repr::Function(Rc::new(FunctionRepr { repr, mapping: input_ixes })))
    }
}

} // verus!
