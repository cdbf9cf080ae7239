//! Code generation for the bits types of `rain`
use super::{bits_int_width, bits_repr, Codegen};
use crate::ir::{Bits, BitsTy};
use super::finite::narrower_width;
use crate::error::Error;
use crate::repr::{BasicType, BasicValue, Repr, ReprV, Val};
use vstd::arithmetic::div_mod::lemma_small_mod;
use vstd::arithmetic::power2::{lemma_pow2_pos, lemma_pow2_strictly_increases, pow2};
use vstd::prelude::*;

verus! {

/// Whether a bits constant can be compiled: its width is zero, or at most
/// 128 and its data fits in it
pub open spec fn bits_compilable(b: Bits) -> bool {
    b.ty.0 == 0 || (b.ty.0 <= 128 && b.data < pow2(b.ty.0 as nat))
}

/// The constant compiled for a bits value: the unit for width zero, whose
/// type is a proposition, otherwise an integer of the representing width
/// holding the data
pub open spec fn bits_constant(b: Bits) -> Val {
    if b.ty.0 == 0 {
        Val::Unit
    } else {
        Val::Value(BasicValue::ConstInt { width: bits_int_width(b.ty.0), value: b.data })
    }
}

/// Bit vectors of nonzero width are represented by the narrowest integer type
/// among `i1`, `i8`, `i16`, `i32`, `i64`, `i128` that holds all their bits.
pub proof fn law_bits_repr_fits(w: u32)
    requires
        0 < w <= 128,
    ensures
        bits_repr(w) == ReprV::Type(BasicType::Int(bits_int_width(w))),
        w <= bits_int_width(w),
        bits_int_width(w) == 1 || narrower_width(bits_int_width(w)) < w,
{
}

/// A bits constant of nonzero width compiles to exactly its data, in an
/// integer at least as wide as its type
pub proof fn law_bits_constant_exact(b: Bits)
    requires
        bits_compilable(b),
        0 < b.ty.0,
    ensures
        bits_constant(b) matches Val::Value(BasicValue::ConstInt { width, value })
            && value == b.data && b.ty.0 <= width,
{
}

/// An arithmetic operation on bit vectors
#[derive(Debug, Clone, Copy, PartialEq, Eq, Structural)]
pub enum BitsOp {
    /// Wrapping addition of two bit vectors
    Add,
    /// Wrapping multiplication of two bit vectors
    Mul,
    /// Wrapping negation of a bit vector
    Neg,
}

/// The number of arguments of an operation
pub open spec fn bits_op_arity(op: BitsOp) -> nat {
    match op {
        BitsOp::Neg => 1,
        _ => 2,
    }
}

/// The integer constant compiled for a bits value of nonzero width
pub open spec fn bits_const_int(b: Bits) -> BasicValue {
    BasicValue::ConstInt { width: bits_int_width(b.ty.0), value: b.data }
}

/// The instruction applying `op` to the constants compiled for `args`
pub open spec fn bits_op_value(op: BitsOp, args: Seq<Bits>) -> BasicValue {
    match op {
        BitsOp::Add => BasicValue::Add(
            Box::new(bits_const_int(args[0])),
            Box::new(bits_const_int(args[1])),
        ),
        BitsOp::Mul => BasicValue::Mul(
            Box::new(bits_const_int(args[0])),
            Box::new(bits_const_int(args[1])),
        ),
        BitsOp::Neg => BasicValue::Neg(Box::new(bits_const_int(args[0]))),
    }
}

/// The constant an integer expression folds to, as its width and value:
/// constants are truncated to their width, arithmetic wraps around at the
/// width of its operands, which must agree; nothing else folds
pub open spec fn const_fold(v: BasicValue) -> Option<(u32, nat)>
    decreases v,
{
    match v {
        BasicValue::ConstInt { width, value } => Some((width, value as nat % pow2(width as nat))),
        BasicValue::Add(a, b) => match (const_fold(*a), const_fold(*b)) {
            (Some((w, x)), Some((w2, y))) => if w == w2 {
                Some((w, (x + y) % pow2(w as nat)))
            } else {
                None
            },
            _ => None,
        },
        BasicValue::Mul(a, b) => match (const_fold(*a), const_fold(*b)) {
            (Some((w, x)), Some((w2, y))) => if w == w2 {
                Some((w, (x * y) % pow2(w as nat)))
            } else {
                None
            },
            _ => None,
        },
        BasicValue::Neg(a) => match const_fold(*a) {
            Some((w, x)) => Some((w, ((pow2(w as nat) - x) % (pow2(w as nat) as int)) as nat)),
            None => None,
        },
        _ => None,
    }
}

/// The value operation `op` computes on `x` and `y` (only `x` for negation),
/// wrapping around at `2^w`
pub open spec fn wrapping_op(op: BitsOp, w: u32, x: nat, y: nat) -> nat {
    let p = pow2(w as nat);
    match op {
        BitsOp::Add => (x + y) % p,
        BitsOp::Mul => (x * y) % p,
        BitsOp::Neg => ((p - x) % (p as int)) as nat,
    }
}

proof fn lemma_const_exact(b: Bits)
    requires
        bits_compilable(b),
        0 < b.ty.0,
    ensures
        const_fold(bits_const_int(b)) == Some((bits_int_width(b.ty.0), b.data as nat)),
{
    law_bits_repr_fits(b.ty.0);
    let w = bits_int_width(b.ty.0);
    lemma_pow2_pos(b.ty.0 as nat);
    if b.ty.0 < w {
        lemma_pow2_strictly_increases(b.ty.0 as nat, w as nat);
    }
    lemma_small_mod(b.data as nat, pow2(w as nat));
}

/// Arithmetic on bits constants of one type folds to the exact result wrapped
/// around at the width of the representing integer (which is the bits width
/// for widths 1, 8, 16, 32, 64 and 128).
pub proof fn law_bits_arith_folds(op: BitsOp, args: Seq<Bits>)
    requires
        args.len() == bits_op_arity(op),
        forall|i: int| 0 <= i < args.len() ==> bits_compilable(#[trigger] args[i]),
        forall|i: int| 0 <= i < args.len() ==> 0 < (#[trigger] args[i]).ty.0,
        forall|i: int| 0 <= i < args.len() ==> (#[trigger] args[i]).ty == args[0].ty,
    ensures
        const_fold(bits_op_value(op, args)) == Some(
            (
                bits_int_width(args[0].ty.0),
                wrapping_op(
                    op,
                    bits_int_width(args[0].ty.0),
                    args[0].data as nat,
                    if op is Neg {
                        0nat
                    } else {
                        args[1].data as nat
                    },
                ),
            ),
        ),
{
    lemma_const_exact(args[0]);
    if !(op is Neg) {
        lemma_const_exact(args[1]);
    }
}

impl Codegen {
    /// Get the representation for a bits type
    pub fn repr_bitsty(&mut self, b: &BitsTy) -> (r: Repr)
        requires
            b.0 <= 128,
        ensures
            r@ == bits_repr(b.0),
            *final(self) == *old(self),
    {
        let width: u32 = b.0;
        if width == 0 {
            Repr::Prop
        } else if width == 1 {
            Repr::Type(BasicType::Int(1))
        } else if width <= 8 {
            Repr::Type(BasicType::Int(8))
        } else if width <= 16 {
            Repr::Type(BasicType::Int(16))
        } else if width <= 32 {
            Repr::Type(BasicType::Int(32))
        } else if width <= 64 {
            Repr::Type(BasicType::Int(64))
        } else {
            Repr::Type(BasicType::Int(128))
        }
    }

    /// Compile a bits vector: the unit for width zero, otherwise an integer
    /// constant of the representing type holding the data
    pub fn build_bits(&mut self, b: &Bits) -> (v: Val)
        requires
            bits_compilable(*b),
        ensures
            v == bits_constant(*b),
            *final(self) == *old(self),
    {
        match self.repr_bitsty(&b.ty) {
            Repr::Type(BasicType::Int(width)) => Val::Value(
                BasicValue::ConstInt { width, value: b.data },
            ),
            _ => Val::Unit,
        }
    }

    /// Build the application of an arithmetic operation to bits constants: the
    /// operation's instruction on the compiled constants. Applications with
    /// another number of arguments, or to bits of width zero, are not
    /// implemented.
    pub fn build_bits_app(&mut self, op: BitsOp, args: &Vec<Bits>) -> (r: Result<Val, Error>)
        requires
            forall|i: int| 0 <= i < args@.len() ==> bits_compilable(#[trigger] args@[i]),
        ensures
            *final(self) == *old(self),
            match r {
                Ok(v) => {
                    &&& args@.len() == bits_op_arity(op)
                    &&& forall|i: int| 0 <= i < args@.len() ==> (#[trigger] args@[i]).ty.0 != 0
                    &&& v == Val::Value(bits_op_value(op, args@))
                },
                Err(e) => {
                    &&& e is NotImplemented
                    &&& (args@.len() != bits_op_arity(op) || exists|i: int|
                        0 <= i < args@.len() && (#[trigger] args@[i]).ty.0 == 0)
                },
            },
    {
        let arity: usize = match op {
            BitsOp::Neg => 1,
            _ => 2,
        };
        if args.len() != arity {
            return Err(Error::NotImplemented("partial or excess application of bits arithmetic"));
        }
        let arg_0 = match self.build_bits(&args[0]) {
            Val::Value(v) => v,
            _ => {
                assert(args@[0].ty.0 == 0);
                return Err(Error::NotImplemented("arithmetic on bits of width zero"));
            },
        };
        match op {
            BitsOp::Neg => Ok(Val::Value(BasicValue::Neg(Box::new(arg_0)))),
            _ => {
                let arg_1 = match self.build_bits(&args[1]) {
                    Val::Value(v) => v,
                    _ => {
                        assert(args@[1].ty.0 == 0);
                        return Err(Error::NotImplemented("arithmetic on bits of width zero"));
                    },
                };
                proof {
                    assert forall|i: int| 0 <= i < args@.len() implies (#[trigger] args@[i]).ty.0 != 0 by {
                        assert(i == 0 || i == 1);
                    }
                }
                match op {
                    BitsOp::Add => Ok(Val::Value(BasicValue::Add(Box::new(arg_0), Box::new(arg_1)))),
                    _ => Ok(Val::Value(BasicValue::Mul(Box::new(arg_0), Box::new(arg_1)))),
                }
            },
        }
    }
}

} // verus!
