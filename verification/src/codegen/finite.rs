//! Code generation for finite `rain` types
use super::{finite_repr, Codegen};
use crate::ir::Finite;
use crate::repr::{BasicType, Repr, ReprV};
use vstd::arithmetic::power2::{lemma2_to64, lemma_pow2_adds, pow2};
use vstd::prelude::*;

verus! {

/// The next narrower integer width, below a width of the representations
pub open spec fn narrower_width(w: u32) -> nat {
    if w == 8 {
        1
    } else {
        (w / 2) as nat
    }
}

/// A finite type of two or more values is represented by an integer type
/// that can hold all of its values.
pub proof fn law_finite_repr_holds_all_values(n: u128)
    requires
        n >= 2,
    ensures
        finite_repr(n) matches ReprV::Type(BasicType::Int(w)) && n <= pow2(w as nat),
{
    lemma_finite_repr_bounds(n);
}

/// The integer type representing a finite type of two or more values is the
/// narrowest of `i1`, `i8`, `i16`, `i32`, `i64`, `i128` that can hold all of
/// its values, for every number of values that is not exactly the capacity of
/// one of them (`n == 2^8` gets `i16`, though `i8` holds 256 values).
pub proof fn law_finite_repr_narrowest(n: u128)
    requires
        n >= 2,
        n != 0x100,
        n != 0x1_0000,
        n != 0x1_0000_0000,
        n != 0x1_0000_0000_0000_0000,
    ensures
        finite_repr(n) matches ReprV::Type(BasicType::Int(w)) && (w == 1 || pow2(narrower_width(w)) < n),
{
    lemma_finite_repr_bounds(n);
    lemma2_to64();
    assert(narrower_width(8) == 1 && narrower_width(16) == 8 && narrower_width(32) == 16);
    assert(narrower_width(64) == 32 && narrower_width(128) == 64);
}

proof fn lemma_finite_repr_bounds(n: u128)
    requires
        n >= 2,
    ensures
        finite_repr(n) matches ReprV::Type(BasicType::Int(w)) && n <= pow2(w as nat) && (w == 1
            || pow2(narrower_width(w)) <= n),
{
    lemma2_to64();
    lemma_pow2_adds(64, 64);
    assert(pow2(128) == 0x1_0000_0000_0000_0000_0000_0000_0000_0000nat);
    assert(n <= u128::MAX);
    if n == 2 {
        assert(pow2(1) == 2);
    } else if n < 0x100 {
        assert(pow2(8) == 0x100 && pow2(1) == 2);
        assert(narrower_width(8) == 1);
    } else if n < 0x1_0000 {
        assert(pow2(16) == 0x1_0000 && pow2(8) == 0x100);
        assert(narrower_width(16) == 8);
    } else if n < 0x1_0000_0000 {
        assert(pow2(32) == 0x1_0000_0000 && pow2(16) == 0x1_0000);
        assert(narrower_width(32) == 16);
    } else if n < 0x1_0000_0000_0000_0000 {
        assert(pow2(64) == 0x1_0000_0000_0000_0000 && pow2(32) == 0x1_0000_0000);
        assert(narrower_width(64) == 32);
    } else {
        assert(finite_repr(n) == ReprV::Type(BasicType::Int(128)));
        assert(narrower_width(128) == 64);
        assert(pow2(64) == 0x1_0000_0000_0000_0000);
    }
}

impl Codegen {
    /// Get the representation for a finite type
    pub fn repr_finite(&mut self, f: &Finite) -> (r: Repr)
        ensures
            r@ == finite_repr(f.0),
            *final(self) == *old(self),
    {
        let value: u128 = f.0;
        if value == 0 {
            Repr::Empty
        } else if value == 1 {
            Repr::Prop
        } else if value == 2 {
            Repr::Type(BasicType::Int(1))
        } else if value < 0x100 {
            Repr::Type(BasicType::Int(8))
        } else if value < 0x1_0000 {
            Repr::Type(BasicType::Int(16))
        } else if value < 0x1_0000_0000 {
            Repr::Type(BasicType::Int(32))
        } else if value < 0x1_0000_0000_0000_0000 {
            Repr::Type(BasicType::Int(64))
        } else {
            Repr::Type(BasicType::Int(128))
        }
    }
}

} // verus!
