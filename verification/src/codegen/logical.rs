//! Code generation for logical `rain` expressions and types
use super::Codegen;
use crate::repr::{bool_value, BasicValue};
use vstd::arithmetic::power2::{lemma2_to64, pow2};
use vstd::prelude::*;

verus! {

/// The largest arity of a logical operation: its truth table fills a `u128`
pub const LOGICAL_MAX_ARITY: u32 = 7;

/// The number of entries of the truth table of an operation of arity `n`: `2^n`
pub open spec fn entries(n: u32) -> u32 {
    if n == 0 {
        1
    } else if n == 1 {
        2
    } else if n == 2 {
        4
    } else if n == 3 {
        8
    } else if n == 4 {
        16
    } else if n == 5 {
        32
    } else if n == 6 {
        64
    } else {
        128
    }
}

/// The bits that the truth table of an operation of arity `n` may use: the
/// lowest `2^n`
pub open spec fn table_mask(n: u32) -> u128 {
    if n == 0 {
        0x1
    } else if n == 1 {
        0x3
    } else if n == 2 {
        0xf
    } else if n == 3 {
        0xff
    } else if n == 4 {
        0xffff
    } else if n == 5 {
        0xffff_ffff
    } else if n == 6 {
        0xffff_ffff_ffff_ffff
    } else {
        0xffff_ffff_ffff_ffff_ffff_ffff_ffff_ffff
    }
}

/// Bit `k` of `d`
pub open spec fn bit(d: u128, k: nat) -> bool {
    (d >> (k as u128)) & 1 == 1
}

/// The position in a truth table of the arguments `s`, the first argument the
/// most significant
pub open spec fn table_index(s: Seq<bool>) -> nat
    decreases s.len(),
{
    if s.len() == 0 {
        0
    } else {
        (if s[0] {
            pow2((s.len() - 1) as nat)
        } else {
            0
        }) + table_index(s.drop_first())
    }
}

/// A logical operation: a boolean function of one to seven booleans, given by
/// its truth table
#[derive(Debug, Copy, Clone, PartialEq, Eq, Structural)]
pub struct Logical {
    arity: u32,
    data: u128,
}

/// The result of applying a logical operation to its first argument
#[derive(Debug, Copy, Clone, PartialEq, Eq, Structural)]
pub enum Applied {
    /// The operation took one argument: its value
    Value(bool),
    /// The operation of the remaining arguments
    Op(Logical),
}

impl Logical {
    /// The number of arguments, between one and [`LOGICAL_MAX_ARITY`]; the
    /// truth table uses only its `2^arity` lowest bits
    #[verifier::type_invariant]
    pub open spec fn inv(self) -> bool {
        &&& 1 <= self.spec_arity() <= LOGICAL_MAX_ARITY
        &&& self.spec_data() <= table_mask(self.spec_arity())
    }

    /// The number of arguments of this operation
    pub closed spec fn spec_arity(self) -> u32 {
        self.arity
    }

    /// The truth table of this operation
    pub closed spec fn spec_data(self) -> u128 {
        self.data
    }

    /// The value of this operation on arguments `s`
    pub open spec fn eval(self, s: Seq<bool>) -> bool {
        bit(self.spec_data(), table_index(s))
    }

    /// The constant value of this operation, if it has one
    pub open spec fn spec_get_const(self) -> Option<bool> {
        if self.spec_data() == 0 {
            Some(false)
        } else if self.spec_data() == table_mask(self.spec_arity()) {
            Some(true)
        } else {
            None
        }
    }

    /// The operation with truth table `data` of `arity` arguments, where the
    /// arity is between one and [`LOGICAL_MAX_ARITY`] and the table uses only
    /// its `2^arity` lowest bits
    pub fn new(arity: u32, data: u128) -> (r: Option<Logical>)
        ensures
            match r {
                Some(l) => l.spec_arity() == arity && l.spec_data() == data,
                None => !(1 <= arity <= LOGICAL_MAX_ARITY && data <= table_mask(arity)),
            },
    {
        if 1 <= arity && arity <= LOGICAL_MAX_ARITY && data <= Self::mask(arity) {
            Some(Logical { arity, data })
        } else {
            None
        }
    }

    fn mask(n: u32) -> (m: u128)
        ensures
            m == table_mask(n),
    {
        if n == 0 {
            0x1
        } else if n == 1 {
            0x3
        } else if n == 2 {
            0xf
        } else if n == 3 {
            0xff
        } else if n == 4 {
            0xffff
        } else if n == 5 {
            0xffff_ffff
        } else if n == 6 {
            0xffff_ffff_ffff_ffff
        } else {
            0xffff_ffff_ffff_ffff_ffff_ffff_ffff_ffff
        }
    }

    /// Logical negation
    pub fn not() -> (l: Logical)
        ensures
            l.spec_arity() == 1 && l.spec_data() == 0b01,
    {
        Logical { arity: 1, data: 0b01 }
    }

    /// The identity on booleans
    pub fn id() -> (l: Logical)
        ensures
            l.spec_arity() == 1 && l.spec_data() == 0b10,
    {
        Logical { arity: 1, data: 0b10 }
    }

    /// Logical conjunction
    pub fn and() -> (l: Logical)
        ensures
            l.spec_arity() == 2 && l.spec_data() == 0b1000,
    {
        Logical { arity: 2, data: 0b1000 }
    }

    /// Logical disjunction
    pub fn or() -> (l: Logical)
        ensures
            l.spec_arity() == 2 && l.spec_data() == 0b1110,
    {
        Logical { arity: 2, data: 0b1110 }
    }

    /// Exclusive disjunction
    pub fn xor() -> (l: Logical)
        ensures
            l.spec_arity() == 2 && l.spec_data() == 0b0110,
    {
        Logical { arity: 2, data: 0b0110 }
    }

    /// The number of arguments of this operation
    pub fn arity(&self) -> (n: u32)
        ensures
            n == self.spec_arity(),
    {
        self.arity
    }

    /// The truth table of this operation
    pub fn data(&self) -> (d: u128)
        ensures
            d == self.spec_data(),
    {
        self.data
    }

    /// The constant value of this operation, if it has one
    pub fn get_const(&self) -> (r: Option<bool>)
        ensures
            r == self.spec_get_const(),
    {
        if self.data == 0 {
            Some(false)
        } else if self.data == Self::mask(self.arity) {
            Some(true)
        } else {
            None
        }
    }

    /// Apply this operation to its first argument
    pub fn apply(&self, b: bool) -> (r: Applied)
        ensures
            self.spec_arity() == 1 ==> r == Applied::Value(bit(self.spec_data(), if b { 1 } else { 0 })),
            self.spec_arity() > 1 ==> (r matches Applied::Op(o) && o.spec_arity() == self.spec_arity()
                - 1 && forall|s: Seq<bool>|
                s.len() == o.spec_arity() ==> #[trigger] o.eval(s) == self.eval(seq![b] + s)),
    {
        proof {
            use_type_invariant(self);
        }
        let n = self.arity;
        if n == 1 {
            let k: u128 = if b { 1 } else { 0 };
            return Applied::Value((self.data >> k) & 1 == 1);
        }
        let h: u128 = Self::entries_of(n - 1);
        let m = Self::mask(n - 1);
        let data = if b { self.data >> h } else { self.data & m };
        proof {
            lemma_apply_table(self.data, n, b, h, m, data);
        }
        let o = Logical { arity: n - 1, data };
        proof {
            assert forall|s: Seq<bool>| s.len() == o.spec_arity() implies #[trigger] o.eval(s) == self.eval(
                seq![b] + s,
            ) by {
                lemma_index_split(b, s);
                lemma_index_bound(s);
                lemma_entries_pow2((n - 1) as u32);
                let k = table_index(s);
                lemma_apply_bit(self.data, n, b, h, m, data, k);
            }
        }
        Applied::Op(o)
    }

    fn entries_of(n: u32) -> (e: u128)
        requires
            n <= 7,
        ensures
            e == entries(n),
    {
        if n == 0 {
            1
        } else if n == 1 {
            2
        } else if n == 2 {
            4
        } else if n == 3 {
            8
        } else if n == 4 {
            16
        } else if n == 5 {
            32
        } else if n == 6 {
            64
        } else {
            128
        }
    }
}

proof fn lemma_entries_pow2(n: u32)
    requires
        n <= 7,
    ensures
        entries(n) == pow2(n as nat),
{
    lemma2_to64();
}

proof fn lemma_index_bound(s: Seq<bool>)
    ensures
        table_index(s) < pow2(s.len()),
    decreases s.len(),
{
    vstd::arithmetic::power2::lemma_pow2_pos(s.len());
    if s.len() > 0 {
        lemma_index_bound(s.drop_first());
        vstd::arithmetic::power2::lemma_pow2_unfold(s.len());
    }
}

proof fn lemma_index_split(b: bool, s: Seq<bool>)
    ensures
        table_index(seq![b] + s) == (if b {
            pow2(s.len())
        } else {
            0
        }) + table_index(s),
{
    assert((seq![b] + s).drop_first() =~= s);
}

proof fn lemma_apply_table(d: u128, n: u32, b: bool, h: u128, m: u128, data: u128)
    requires
        2 <= n <= 7,
        d <= table_mask(n),
        h == entries((n - 1) as u32),
        m == table_mask((n - 1) as u32),
        data == (if b {
            d >> h
        } else {
            d & m
        }),
    ensures
        data <= table_mask((n - 1) as u32),
{
    if b {
        if n == 2 {
            assert(d <= 0xf ==> d >> 2 <= 0x3) by (bit_vector);
        } else if n == 3 {
            assert(d <= 0xff ==> d >> 4 <= 0xf) by (bit_vector);
        } else if n == 4 {
            assert(d <= 0xffff ==> d >> 8 <= 0xff) by (bit_vector);
        } else if n == 5 {
            assert(d <= 0xffff_ffff ==> d >> 16 <= 0xffff) by (bit_vector);
        } else if n == 6 {
            assert(d <= 0xffff_ffff_ffff_ffff ==> d >> 32 <= 0xffff_ffff) by (bit_vector);
        } else {
            assert(d >> 64 <= 0xffff_ffff_ffff_ffff) by (bit_vector);
        }
    } else {
        assert(d & m <= m) by (bit_vector);
    }
}

proof fn lemma_mask_shape(n: u32)
    requires
        1 <= n <= 6,
    ensures
        table_mask(n) == (1u128 << (entries(n) as u128)) - 1,
{
    if n == 1 {
        assert((1u128 << 2u128) - 1 == 0x3) by (bit_vector);
    } else if n == 2 {
        assert((1u128 << 4u128) - 1 == 0xf) by (bit_vector);
    } else if n == 3 {
        assert((1u128 << 8u128) - 1 == 0xff) by (bit_vector);
    } else if n == 4 {
        assert((1u128 << 16u128) - 1 == 0xffff) by (bit_vector);
    } else if n == 5 {
        assert((1u128 << 32u128) - 1 == 0xffff_ffff) by (bit_vector);
    } else {
        assert((1u128 << 64u128) - 1 == 0xffff_ffff_ffff_ffff) by (bit_vector);
    }
}

proof fn lemma_apply_bit(d: u128, n: u32, b: bool, h: u128, m: u128, data: u128, k: nat)
    requires
        2 <= n <= 7,
        h == entries((n - 1) as u32),
        m == table_mask((n - 1) as u32),
        data == (if b {
            d >> h
        } else {
            d & m
        }),
        k < h,
    ensures
        bit(data, k) == bit(d, (if b {
            h as nat
        } else {
            0
        }) + k),
{
    let kk = k as u128;
    assert(h <= 64);
    if b {
        assert(kk < h && h <= 64 ==> ((d >> h) >> kk) & 1 == (d >> (h + kk)) & 1) by (bit_vector);
    } else {
        lemma_mask_shape((n - 1) as u32);
        assert(kk < h && 1 <= h <= 64 ==> ((d & (((1u128 << h) - 1) as u128)) >> kk) & 1 == (d >> kk) & 1)
            by (bit_vector);
    }
}

/// The booleans that values evaluate to when the parameters hold `env`
pub open spec fn bool_values(args: Seq<BasicValue>, env: Seq<bool>) -> Seq<bool> {
    args.map_values(|a: BasicValue| bool_value(a, env))
}

proof fn lemma_const_eval(l: Logical, c: bool, s: Seq<bool>)
    requires
        l.inv(),
        l.spec_get_const() == Some(c),
        s.len() == l.spec_arity(),
    ensures
        l.eval(s) == c,
{
    let n = l.spec_arity();
    let d = l.spec_data();
    lemma_index_bound(s);
    lemma_entries_pow2(n);
    let kk = table_index(s) as u128;
    let e = entries(n) as u128;
    if c {
        if n == 7 {
            assert(kk < 128 ==> (0xffff_ffff_ffff_ffff_ffff_ffff_ffff_ffffu128 >> kk) & 1 == 1) by (bit_vector);
        } else {
            lemma_mask_shape(n);
            assert(kk < e && 1 <= e <= 64 ==> ((((1u128 << e) - 1) as u128) >> kk) & 1 == 1) by (bit_vector);
        }
    } else {
        assert((0u128 >> kk) & 1 == 0) by (bit_vector);
    }
}

proof fn lemma_small_tables()
    ensures
        !bit(1, 1) && bit(1, 0) && bit(2, 1) && !bit(2, 0),
        bit(8, 3) && !bit(8, 2) && !bit(8, 1) && !bit(8, 0),
        bit(14, 3) && bit(14, 2) && bit(14, 1) && !bit(14, 0),
        !bit(6, 3) && bit(6, 2) && bit(6, 1) && !bit(6, 0),
{
    assert((1u128 >> 1u128) & 1 == 0 && (1u128 >> 0u128) & 1 == 1 && (2u128 >> 1u128) & 1 == 1 && (2u128
        >> 0u128) & 1 == 0) by (bit_vector);
    assert((8u128 >> 3u128) & 1 == 1 && (8u128 >> 2u128) & 1 == 0 && (8u128 >> 1u128) & 1 == 0 && (8u128
        >> 0u128) & 1 == 0) by (bit_vector);
    assert((14u128 >> 3u128) & 1 == 1 && (14u128 >> 2u128) & 1 == 1 && (14u128 >> 1u128) & 1 == 1 && (
    14u128 >> 0u128) & 1 == 0) by (bit_vector);
    assert((6u128 >> 3u128) & 1 == 0 && (6u128 >> 2u128) & 1 == 1 && (6u128 >> 1u128) & 1 == 1 && (6u128
        >> 0u128) & 1 == 0) by (bit_vector);
}

proof fn lemma_index_two(a: bool, b: bool)
    ensures
        table_index(seq![a]) == (if a {
            1nat
        } else {
            0nat
        }),
        table_index(seq![a, b]) == (if a {
            2nat
        } else {
            0nat
        }) + (if b {
            1nat
        } else {
            0nat
        }),
{
    lemma2_to64();
    assert(seq![a].drop_first() =~= Seq::<bool>::empty());
    assert(seq![a, b].drop_first() =~= seq![b]);
    assert(seq![b].drop_first() =~= Seq::<bool>::empty());
    assert(table_index(Seq::<bool>::empty()) == 0);
    assert(table_index(seq![b]) == (if b { 1nat } else { 0nat }));
    assert(table_index(seq![a]) == (if a { 1nat } else { 0nat }));
}

impl Codegen {
    /// Compile a boolean value: an `i1` constant, 1 for true and 0 for false
    pub fn compile_bool(&mut self, b: bool) -> (v: BasicValue)
        ensures
            v == (BasicValue::ConstInt { width: 1, value: if b { 1 } else { 0 } }),
            *final(self) == *old(self),
    {
        BasicValue::ConstInt { width: 1, value: if b { 1 } else { 0 } }
    }

    /// Build the evaluation of a logical operation on a list of boolean values:
    /// a constant for a constant operation, a single instruction for negation,
    /// identity, conjunction, disjunction and exclusive disjunction, and
    /// otherwise a selection on the first argument between the operation's
    /// results on the remaining arguments
    pub fn build_logical_expr(&mut self, l: &Logical, args: Vec<BasicValue>) -> (r: BasicValue)
        requires
            args@.len() == l.spec_arity(),
        ensures
            *final(self) == *old(self),
            l.spec_get_const() matches Some(c) ==> r == (BasicValue::ConstInt {
                width: 1,
                value: if c { 1 } else { 0 },
            }),
            forall|env: Seq<bool>| #[trigger]
                bool_value(r, env) == l.eval(bool_values(args@, env)),
        decreases l.spec_arity(),
    {
        proof {
            use_type_invariant(l);
            lemma_small_tables();
        }
        let ghost a0 = args@;
        // Direct construction of constant operations
        if let Some(c) = l.get_const() {
            proof {
                assert forall|env: Seq<bool>| #[trigger] l.eval(bool_values(a0, env)) == c by {
                    lemma_const_eval(*l, c, bool_values(a0, env));
                }
            }
            return self.compile_bool(c);
        }
        let l_arity = l.arity();
        let mut args = args;
        // Unary operations: negation and identity are the only non-constant ones
        if l_arity == 1 {
            let arg = args.pop().unwrap();
            proof {
                assert(a0 =~= seq![arg]);
            }
            let r = if *l == Logical::not() {
                BasicValue::Not(Box::new(arg))
            } else {
                arg
            };
            proof {
                assert forall|env: Seq<bool>| #[trigger] bool_value(r, env) == l.eval(bool_values(a0, env)) by {
                    let x = bool_value(a0[0], env);
                    assert(bool_values(a0, env) =~= seq![x]);
                    lemma_index_two(x, x);
                }
            }
            return r;
        }
        // Binary operations
        if l_arity == 2 && (*l == Logical::and() || *l == Logical::or() || *l == Logical::xor()) {
            let rhs = args.pop().unwrap();
            let lhs = args.pop().unwrap();
            proof {
                assert(a0 =~= seq![lhs, rhs]);
            }
            let r = if *l == Logical::and() {
                BasicValue::And(Box::new(lhs), Box::new(rhs))
            } else if *l == Logical::or() {
                BasicValue::Or(Box::new(lhs), Box::new(rhs))
            } else {
                BasicValue::Xor(Box::new(lhs), Box::new(rhs))
            };
            proof {
                assert forall|env: Seq<bool>| #[trigger] bool_value(r, env) == l.eval(bool_values(a0, env)) by {
                    let x = bool_value(a0[0], env);
                    let y = bool_value(a0[1], env);
                    assert(bool_values(a0, env) =~= seq![x, y]);
                    lemma_index_two(x, y);
                }
            }
            return r;
        }
        // General strategy: split on the first argument and evaluate
        let high = match l.apply(true) {
            Applied::Op(o) => o,
            Applied::Value(_) => {
                proof {
                    assert(false);
                }
                return BasicValue::Struct(Vec::new());
            },
        };
        let low = match l.apply(false) {
            Applied::Op(o) => o,
            Applied::Value(_) => {
                proof {
                    assert(false);
                }
                return BasicValue::Struct(Vec::new());
            },
        };
        let select = args.remove(0);
        let ghost a1 = args@;
        proof {
            assert(a1 =~= a0.drop_first());
        }
        let rest = BasicValue::duplicate_all(&args);
        let hi = self.build_logical_expr(&high, args);
        let lo = self.build_logical_expr(&low, rest);
        let select_copy = select.duplicate();
        let not_select = BasicValue::Not(Box::new(select_copy));
        let r = BasicValue::Or(
            Box::new(BasicValue::And(Box::new(hi), Box::new(select))),
            Box::new(BasicValue::And(Box::new(lo), Box::new(not_select))),
        );
        proof {
            assert forall|env: Seq<bool>| #[trigger] bool_value(r, env) == l.eval(bool_values(a0, env)) by {
                let x = bool_value(select, env);
                let s = bool_values(a0, env);
                let t = bool_values(a1, env);
                assert(s =~= seq![x] + t);
                assert forall|i: int| 0 <= i < t.len() implies #[trigger] bool_values(rest@, env)[i] == t[i] by {
                    assert(bool_value(rest@[i], env) == bool_value(a1[i], env));
                }
                assert(bool_values(rest@, env) =~= t);
                assert(t.len() == high.spec_arity());
                assert(high.eval(t) == l.eval(seq![true] + t));
                assert(low.eval(t) == l.eval(seq![false] + t));
                assert(bool_value(hi, env) == high.eval(t));
                assert(bool_value(lo, env) == low.eval(bool_values(rest@, env)));
                reveal_with_fuel(bool_value, 3);
                assert(bool_value(select_copy, env) == x);
                assert(bool_value(not_select, env) == !x);
            }
        }
        r
    }
}

} // verus!
