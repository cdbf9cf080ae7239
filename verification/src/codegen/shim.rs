//! Shims giving LLVM functions a foreign-function interface
use crate::repr::{BasicType, FunctionType, TypeList};
use vstd::prelude::*;

verus! {

/// How a shim obtains an argument of the function it wraps from its own parameter
#[derive(Debug, Clone, Copy, PartialEq, Eq, Structural)]
pub enum ShimArg {
    /// The parameter is handed on as it is
    Pass,
    /// The parameter is a pointer, and the value it points to is handed on
    Load,
}

/// The layout of a shim around a function
#[derive(Debug)]
pub struct ShimPlan {
    /// The type of the shim
    pub repr: FunctionType,
    /// How each argument of the wrapped function is obtained from the shim's
    /// parameter at the same position
    pub args: Vec<ShimArg>,
    /// Whether the wrapped function returns a structure, which the shim then
    /// stores through its extra last parameter, returning 0
    pub return_converted: bool,
}

/// Whether a type is a pointer type
pub open spec fn is_pointer(t: BasicType) -> bool {
    t is Pointer || t is FunctionPointer
}

/// The shim parameter standing for a parameter of type `t`: structures are passed by pointer
pub open spec fn shim_param(t: BasicType) -> BasicType {
    match t {
        BasicType::Struct(s) => BasicType::Pointer(Box::new(BasicType::Struct(s))),
        _ => t,
    }
}

/// How a parameter of shim type `t` is handed on: pointers are loaded
pub open spec fn shim_arg(t: BasicType) -> ShimArg {
    if is_pointer(t) {
        ShimArg::Load
    } else {
        ShimArg::Pass
    }
}

/// The parameter types of the shim around a function of type `f`: those of
/// `f`, structures by pointer, then a pointer to the result if `f` returns a
/// structure
pub open spec fn shim_params(f: FunctionType) -> Seq<BasicType> {
    let ps = f.params.to_seq().map_values(|t: BasicType| shim_param(t));
    if (*f.ret) is Struct {
        ps.push(BasicType::Pointer(f.ret))
    } else {
        ps
    }
}

/// The return type of the shim around a function of type `f`: an `i32` status
/// where `f` returns a structure, otherwise the result type of `f`
pub open spec fn shim_ret(f: FunctionType) -> BasicType {
    if (*f.ret) is Struct {
        BasicType::Int(32)
    } else {
        *f.ret
    }
}

/// The type of the value a shim hands on from a parameter of type `t`
pub open spec fn handed_type(t: BasicType, a: ShimArg) -> BasicType {
    match a {
        ShimArg::Pass => t,
        ShimArg::Load => match t {
            BasicType::Pointer(p) => *p,
            _ => t,
        },
    }
}

/// Lay out the FFI shim of a function of type `f`. The shim takes structures
/// by pointer; if `f` returns a structure, the shim has an additional last
/// parameter, a pointer to which the result is written, and returns an `i32`.
/// Every pointer parameter of the shim is loaded before the call.
pub fn plan_shim(f: &FunctionType) -> (p: ShimPlan)
    ensures
        p.repr.params.to_seq() == shim_params(*f),
        *p.repr.ret == shim_ret(*f),
        p.return_converted == ((*f.ret) is Struct),
        p.args@ == f.params.to_seq().map_values(|t: BasicType| shim_arg(shim_param(t))),
{
    let f_args_type = f.params.to_vec();
    let n = f_args_type.len();
    let mut shim_args_type: Vec<BasicType> = Vec::with_capacity(n);
    let mut args: Vec<ShimArg> = Vec::with_capacity(n);
    for i in 0..n
        invariant
            n == f_args_type@.len(),
            f_args_type@ == f.params.to_seq(),
            shim_args_type@ == f_args_type@.subrange(0, i as int).map_values(
                |t: BasicType| shim_param(t),
            ),
            args@ == f_args_type@.subrange(0, i as int).map_values(
                |t: BasicType| shim_arg(shim_param(t)),
            ),
    {
        let this_type = match &f_args_type[i] {
            BasicType::Struct(s) => BasicType::Pointer(Box::new(BasicType::Struct(s.duplicate()))),
            t => t.duplicate(),
        };
        let arg = match &this_type {
            BasicType::Pointer(_) | BasicType::FunctionPointer(_) => ShimArg::Load,
            _ => ShimArg::Pass,
        };
        shim_args_type.push(this_type);
        args.push(arg);
        proof {
            assert(shim_args_type@ =~= f_args_type@.subrange(0, i + 1).map_values(
                |t: BasicType| shim_param(t),
            ));
            assert(args@ =~= f_args_type@.subrange(0, i + 1).map_values(
                |t: BasicType| shim_arg(shim_param(t)),
            ));
        }
    }
    proof {
        assert(f_args_type@.subrange(0, n as int) =~= f_args_type@);
    }
    let mut is_return_converted = false;
    let ret_type = match &*f.ret {
        BasicType::Struct(s) => {
            shim_args_type.push(BasicType::Pointer(Box::new(BasicType::Struct(s.duplicate()))));
            is_return_converted = true;
            BasicType::Int(32)
        },
        t => t.duplicate(),
    };
    let repr = FunctionType { params: TypeList::from_vec(shim_args_type), ret: Box::new(ret_type) };
    proof {
        TypeList::lemma_seq_roundtrip(shim_params(*f));
    }
    ShimPlan { repr, args, return_converted: is_return_converted }
}

/// A shim changes only what crosses the interface by pointer: a result that
/// is not a structure is returned as it is, with its own type; a parameter
/// that is not a structure keeps its type and position; a structure
/// parameter becomes a pointer to that same structure; and the shim has the
/// wrapped function's parameters, plus one exactly when the result is a
/// structure.
pub proof fn law_shim_keeps_what_needs_no_pointer(f: FunctionType)
    ensures
        !((*f.ret) is Struct) ==> shim_ret(f) == *f.ret && shim_params(f).len() == f.params.to_seq().len(),
        (*f.ret) is Struct ==> shim_params(f).len() == f.params.to_seq().len() + 1,
        forall|i: int|
            0 <= i < f.params.to_seq().len() ==> if f.params.to_seq()[i] is Struct {
                #[trigger] shim_params(f)[i] == BasicType::Pointer(Box::new(f.params.to_seq()[i]))
            } else {
                shim_params(f)[i] == f.params.to_seq()[i]
            },
{
}

/// When the wrapped function takes no pointer, its shim hands it arguments of
/// its own parameter types, reading structures back through their pointers;
/// where it returns a structure, the shim's last parameter points to one.
pub proof fn law_shim_hands_on_own_types(f: FunctionType)
    requires
        forall|i: int| 0 <= i < f.params.to_seq().len() ==> !is_pointer(#[trigger] f.params.to_seq()[i]),
    ensures
        forall|i: int|
            0 <= i < f.params.to_seq().len() ==> handed_type(
                #[trigger] shim_params(f)[i],
                shim_arg(shim_param(f.params.to_seq()[i])),
            ) == f.params.to_seq()[i],
        shim_params(f).len() == f.params.to_seq().len() + (if (*f.ret) is Struct {
            1int
        } else {
            0int
        }),
        (*f.ret) is Struct ==> shim_params(f).last() == BasicType::Pointer(f.ret) && shim_ret(f)
            == BasicType::Int(32),
{
}

} // verus!
