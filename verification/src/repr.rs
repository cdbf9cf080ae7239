//! LLVM representations for `rain` types and values.
use std::rc::Rc;
use vstd::prelude::*;

verus! {

/// The raw value that marks a propositional entry of an [`IxMap`].
pub const PROP_IX: i32 = -1;

/// An index into an LLVM representation
#[derive(Debug, Copy, Clone, PartialEq, Eq, Structural)]
pub enum ReprIx {
    /// A value index
    Val(u32),
    /// A propositional index
    Prop,
}

/// How a raw entry of an index map is read back as a [`ReprIx`].
pub open spec fn spec_repr_ix_from(ix: i32) -> ReprIx {
    if ix == PROP_IX {
        ReprIx::Prop
    } else {
        ReprIx::Val(ix as u32)
    }
}

impl ReprIx {
    /// The index corresponding to a propositional type
    pub const PROP_IX: i32 = -1;
}

impl From<i32> for ReprIx {
    fn from(ix: i32) -> (r: ReprIx) {
        if ix == PROP_IX {
            ReprIx::Prop
        } else {
            ReprIx::Val(ix as u32)
        }
    }
}

impl vstd::std_specs::convert::FromSpecImpl<i32> for ReprIx {
    open spec fn obeys_from_spec() -> bool {
        true
    }

    open spec fn from_spec(ix: i32) -> ReprIx {
        spec_repr_ix_from(ix)
    }
}

/// The raw entry that marks a propositional entry of an [`IxMap`]; the entry
/// of a value index is the index itself, so that every `u32` has its own.
pub const PROP_ENTRY: i64 = -1;

/// How a raw entry of an index map is read back as a [`ReprIx`]
pub open spec fn spec_entry_ix(e: i64) -> ReprIx {
    if e == PROP_ENTRY {
        ReprIx::Prop
    } else {
        ReprIx::Val(e as u32)
    }
}

/// The value index at position `i` of the entries `m` of an index map: none
/// out of bounds or for a propositional entry
pub open spec fn ix_get(m: Seq<i64>, i: int) -> Option<u32> {
    if 0 <= i < m.len() && m[i] != PROP_ENTRY {
        Some(m[i] as u32)
    } else {
        None
    }
}

/// Reading a raw `i32` entry back gives the index written, except for
/// `u32::MAX`, whose `i32` entry coincides with the propositional one; the
/// propositional index reads back as itself.
pub proof fn law_repr_ix_roundtrip(ix: u32)
    ensures
        ix != u32::MAX ==> spec_repr_ix_from(ix as i32) == ReprIx::Val(ix),
        ix == u32::MAX ==> spec_repr_ix_from(ix as i32) == ReprIx::Prop,
        spec_repr_ix_from(PROP_IX) == ReprIx::Prop,
{
    assert((ix as i32) as u32 == ix) by (bit_vector);
    assert((ix as i32 == -1i32) <==> (ix == 0xffff_ffffu32)) by (bit_vector);
}

/// After pushing a value index, any `u32`, the map gives it back at the new
/// position; after pushing a propositional index it gives nothing there;
/// earlier positions are unchanged.
pub proof fn law_ix_map_push_then_get(m: Seq<i64>, ix: u32, j: int)
    ensures
        ix_get(m.push(ix as i64), m.len() as int) == Some(ix),
        ix_get(m.push(PROP_ENTRY), m.len() as int) is None,
        0 <= j < m.len() ==> ix_get(m.push(ix as i64), j) == ix_get(m, j),
        0 <= j < m.len() ==> ix_get(m.push(PROP_ENTRY), j) == ix_get(m, j),
{
}

/// The raw entry an index map stores for an index
pub open spec fn ix_entry(ix: ReprIx) -> i64 {
    match ix {
        ReprIx::Val(v) => v as i64,
        ReprIx::Prop => PROP_ENTRY,
    }
}

/// A map built by pushing indices reads them back, in order: iterating over
/// the entries of `xs` pushed one by one gives `xs`.
pub proof fn law_ix_map_push_iter(xs: Seq<ReprIx>)
    ensures
        xs.map_values(|x: ReprIx| ix_entry(x)).map_values(|e: i64| spec_entry_ix(e)) == xs,
{
    let m = xs.map_values(|x: ReprIx| ix_entry(x));
    let r = m.map_values(|e: i64| spec_entry_ix(e));
    assert(r =~= xs);
}

/// A map of indices into a parameter array to representation indices
#[derive(Debug, Clone, PartialEq, Eq)]
pub struct IxMap(Vec<i64>);

impl View for IxMap {
    type V = Seq<i64>;

    closed spec fn view(&self) -> Seq<i64> {
        self.0@
    }
}

impl IxMap {
    /// Create a new set of input indices
    pub fn new() -> (m: IxMap)
        ensures
            m@ == Seq::<i64>::empty(),
    {
        Self::with_capacity(0)
    }

    /// Create a new set of input indices with the given capacity
    pub fn with_capacity(n: u32) -> (m: IxMap)
        ensures
            m@ == Seq::<i64>::empty(),
    {
        IxMap(Vec::with_capacity(n as usize))
    }

    /// Push a new value index
    pub fn push_ix(&mut self, ix: u32)
        ensures
            final(self)@ == old(self)@.push(ix as i64),
    {
        self.0.push(ix as i64)
    }

    /// Push a new propositional index
    pub fn push_prop(&mut self)
        ensures
            final(self)@ == old(self)@.push(PROP_ENTRY),
    {
        self.0.push(PROP_ENTRY)
    }

    /// Push a new input index
    pub fn push(&mut self, ix: ReprIx)
        ensures
            final(self)@ == old(self)@.push(ix_entry(ix)),
    {
        match ix {
            ReprIx::Val(val) => self.push_ix(val),
            ReprIx::Prop => self.push_prop(),
        }
    }

    /// The number of entries in this map
    pub fn len(&self) -> (n: usize)
        ensures
            n == self@.len(),
    {
        self.0.len()
    }

    /// The elements of this set of input indices, in order
    pub fn iter(&self) -> (r: Vec<ReprIx>)
        ensures
            r@.len() == self@.len(),
            forall|i: int| 0 <= i < r@.len() ==> #[trigger] r@[i] == spec_entry_ix(self@[i]),
    {
        let mut r: Vec<ReprIx> = Vec::with_capacity(self.0.len());
        let n = self.0.len();
        for i in 0..n
            invariant
                n == self@.len(),
                r@.len() == i,
                forall|j: int| 0 <= j < i ==> #[trigger] r@[j] == spec_entry_ix(self@[j]),
        {
            let e = self.0[i];
            let x = if e == PROP_ENTRY {
                ReprIx::Prop
            } else {
                ReprIx::Val(e as u32)
            };
            r.push(x);
        }
        r
    }

    /// Get the index associated with a value
    pub fn get(&self, ix: usize) -> (r: Option<u32>)
        ensures
            r == ix_get(self@, ix as int),
    {
        if ix < self.0.len() {
            let e = self.0[ix];
            if e == PROP_ENTRY {
                None
            } else {
                Some(e as u32)
            }
        } else {
            None
        }
    }
}

impl std::ops::Deref for IxMap {
    type Target = [i64];

    fn deref(&self) -> (r: &[i64])
        ensures
            r@ == self@,
    {
        self.0.as_slice()
    }
}

impl Default for IxMap {
    fn default() -> (m: IxMap)
        ensures
            m@ == Seq::<i64>::empty(),
    {
        IxMap::new()
    }
}

impl IxMap {
    /// A copy of this map
    pub fn duplicate(&self) -> (m: IxMap)
        ensures
            m@ == self@,
    {
        let mut v: Vec<i64> = Vec::with_capacity(self.0.len());
        let n = self.0.len();
        for i in 0..n
            invariant
                n == self@.len(),
                v@ == self@.subrange(0, i as int),
        {
            v.push(self.0[i]);
            proof {
                assert(v@ =~= self@.subrange(0, i + 1));
            }
        }
        proof {
            assert(v@ =~= self@);
        }
        IxMap(v)
    }
}

/// An LLVM first-class type
#[derive(Debug)]
pub enum BasicType {
    /// An integer type of the given bit width
    Int(u32),
    /// A structure type with the given field types
    Struct(TypeList),
    /// A pointer to a value of the given type
    Pointer(Box<BasicType>),
    /// A pointer to a function of the given type
    FunctionPointer(Box<FunctionType>),
}

/// A list of LLVM types, such as the fields of a structure
#[derive(Debug)]
pub enum TypeList {
    /// The empty list
    Nil,
    /// A type followed by a list of types
    Cons(Box<BasicType>, Box<TypeList>),
}

/// An LLVM function type
#[derive(Debug)]
pub struct FunctionType {
    /// The parameter types
    pub params: TypeList,
    /// The return type
    pub ret: Box<BasicType>,
}

impl TypeList {
    /// The types of this list, in order
    pub open spec fn to_seq(self) -> Seq<BasicType>
        decreases self,
    {
        match self {
            TypeList::Nil => Seq::empty(),
            TypeList::Cons(h, t) => seq![*h] + t.to_seq(),
        }
    }

    /// The list holding the given types, in order
    pub open spec fn from_seq(s: Seq<BasicType>) -> TypeList
        decreases s.len(),
    {
        if s.len() == 0 {
            TypeList::Nil
        } else {
            TypeList::Cons(Box::new(s[0]), Box::new(Self::from_seq(s.drop_first())))
        }
    }

    /// Converting to a sequence and back gives the same list
    pub proof fn lemma_seq_roundtrip(s: Seq<BasicType>)
        ensures
            Self::from_seq(s).to_seq() == s,
        decreases s.len(),
    {
        if s.len() > 0 {
            Self::lemma_seq_roundtrip(s.drop_first());
            assert(seq![s[0]] + s.drop_first() =~= s);
        }
    }

    /// Build a list holding the elements of a vector, in order
    pub fn from_vec(v: Vec<BasicType>) -> (l: TypeList)
        ensures
            l == Self::from_seq(v@),
    {
        let ghost orig = v@;
        let mut v = v;
        let mut l = TypeList::Nil;
        proof {
            assert(orig.subrange(orig.len() as int, orig.len() as int).len() == 0);
        }
        while v.len() > 0
            invariant
                v@.len() <= orig.len(),
                v@ == orig.subrange(0, v@.len() as int),
                l == Self::from_seq(orig.subrange(v@.len() as int, orig.len() as int)),
            decreases v@.len(),
        {
            let k = v.len() - 1;
            let x = v.pop().unwrap();
            proof {
                let rest = orig.subrange(k as int, orig.len() as int);
                assert(rest[0] == x);
                assert(rest.drop_first() =~= orig.subrange(k + 1, orig.len() as int));
                assert(v@ =~= orig.subrange(0, k as int));
            }
            l = TypeList::Cons(Box::new(x), Box::new(l));
        }
        proof {
            assert(orig.subrange(0, orig.len() as int) =~= orig);
        }
        l
    }

    /// A copy of this list
    pub fn duplicate(&self) -> (r: TypeList)
        ensures
            r == *self,
        decreases self,
    {
        match self {
            TypeList::Nil => TypeList::Nil,
            TypeList::Cons(h, t) => TypeList::Cons(
                Box::new((**h).duplicate()),
                Box::new((**t).duplicate()),
            ),
        }
    }

    /// The number of types in this list
    pub fn len(&self) -> (n: usize)
        requires
            self.to_seq().len() <= usize::MAX,
        ensures
            n == self.to_seq().len(),
        decreases self,
    {
        match self {
            TypeList::Nil => 0,
            TypeList::Cons(_, t) => 1 + (**t).len(),
        }
    }

    /// The types of this list, in order
    pub fn to_vec(&self) -> (v: Vec<BasicType>)
        ensures
            v@ == self.to_seq(),
        decreases self,
    {
        match self {
            TypeList::Nil => Vec::new(),
            TypeList::Cons(h, t) => {
                let mut rest = (**t).to_vec();
                let mut v = Vec::new();
                v.push((**h).duplicate());
                v.append(&mut rest);
                proof {
                    assert(v@ =~= seq![**h] + t.to_seq());
                }
                v
            },
        }
    }
}

impl BasicType {
    /// A copy of this type
    pub fn duplicate(&self) -> (r: BasicType)
        ensures
            r == *self,
        decreases self,
    {
        match self {
            BasicType::Int(w) => BasicType::Int(*w),
            BasicType::Struct(fields) => BasicType::Struct(fields.duplicate()),
            BasicType::Pointer(p) => BasicType::Pointer(Box::new((**p).duplicate())),
            BasicType::FunctionPointer(f) => BasicType::FunctionPointer(
                Box::new((**f).duplicate()),
            ),
        }
    }
}

impl FunctionType {
    /// A copy of this function type
    pub fn duplicate(&self) -> (r: FunctionType)
        ensures
            r == *self,
        decreases self,
    {
        FunctionType { params: self.params.duplicate(), ret: Box::new((*self.ret).duplicate()) }
    }
}

/// A representation of a product
#[derive(Debug)]
pub struct ProductRepr {
    /// A mapping since we need to skip propositional components:
    /// entry `i` holds the position of the `i`th component in the structure
    pub mapping: IxMap,
    /// The field types of the representing structure
    pub repr: TypeList,
}

/// An LLVM function implementing a `rain` function
#[derive(Debug)]
pub struct FunctionRepr {
    /// A mapping since we need to skip propositional parameters:
    /// entry `i` holds the position of the `i`th parameter among the LLVM parameters
    pub mapping: IxMap,
    /// The function type representation
    pub repr: FunctionType,
}

/// An LLVM representation for a `rain` type
#[derive(Debug)]
pub enum Repr {
    /// As a basic LLVM type
    Type(BasicType),
    /// As a function
    Function(Rc<FunctionRepr>),
    /// As a compound
    Product(Rc<ProductRepr>),
    /// As a mere proposition
    Prop,
    /// As the empty type
    Empty,
}

/// The mathematical content of a [`Repr`]
pub enum ReprV {
    /// As a basic LLVM type
    Type(BasicType),
    /// As a function, with its parameter mapping and type
    Function(Seq<i64>, FunctionType),
    /// As a structure, with its component mapping and field types
    Product(Seq<i64>, TypeList),
    /// As a mere proposition
    Prop,
    /// As the empty type
    Empty,
}

impl View for Repr {
    type V = ReprV;

    open spec fn view(&self) -> ReprV {
        match self {
            Repr::Type(t) => ReprV::Type(*t),
            Repr::Function(f) => ReprV::Function(f.mapping@, f.repr),
            Repr::Product(p) => ReprV::Product(p.mapping@, p.repr),
            Repr::Prop => ReprV::Prop,
            Repr::Empty => ReprV::Empty,
        }
    }
}

impl Repr {
    /// A copy of this representation
    pub fn duplicate(&self) -> (r: Repr)
        ensures
            r@ == self@,
    {
        match self {
            Repr::Type(t) => Repr::Type(t.duplicate()),
            Repr::Function(f) => Repr::Function(
                Rc::new(FunctionRepr { mapping: f.mapping.duplicate(), repr: f.repr.duplicate() }),
            ),
            Repr::Product(p) => Repr::Product(
                Rc::new(ProductRepr { mapping: p.mapping.duplicate(), repr: p.repr.duplicate() }),
            ),
            Repr::Prop => Repr::Prop,
            Repr::Empty => Repr::Empty,
        }
    }
}

/// An LLVM value that code generation hands around
#[derive(Debug)]
pub enum BasicValue {
    /// An integer constant of the given bit width
    ConstInt {
        /// The bit width of the constant's type
        width: u32,
        /// The constant, zero extended
        value: u128,
    },
    /// A parameter of the function being built
    Param {
        /// The position of the parameter among the LLVM parameters
        index: u32,
        /// The type of the parameter
        ty: BasicType,
    },
    /// A constant structure with the given fields
    Struct(Vec<BasicValue>),
    /// The negation of a boolean
    Not(Box<BasicValue>),
    /// The conjunction of two booleans
    And(Box<BasicValue>, Box<BasicValue>),
    /// The disjunction of two booleans
    Or(Box<BasicValue>, Box<BasicValue>),
    /// The exclusive disjunction of two booleans
    Xor(Box<BasicValue>, Box<BasicValue>),
    /// The value of one of two branches, the first when the boolean holds
    Select(Box<BasicValue>, Box<BasicValue>, Box<BasicValue>),
    /// The wrapping sum of two integers of one type
    Add(Box<BasicValue>, Box<BasicValue>),
    /// The wrapping product of two integers of one type
    Mul(Box<BasicValue>, Box<BasicValue>),
    /// The wrapping negation of an integer
    Neg(Box<BasicValue>),
}

/// The boolean a value evaluates to when the parameters of the function being
/// built hold the booleans `env`
pub open spec fn bool_value(v: BasicValue, env: Seq<bool>) -> bool
    decreases v,
{
    match v {
        BasicValue::ConstInt { value, .. } => value != 0,
        BasicValue::Param { index, .. } => env[index as int],
        BasicValue::Struct(_) => false,
        BasicValue::Not(a) => !bool_value(*a, env),
        BasicValue::And(a, b) => bool_value(*a, env) && bool_value(*b, env),
        BasicValue::Or(a, b) => bool_value(*a, env) || bool_value(*b, env),
        BasicValue::Xor(a, b) => bool_value(*a, env) != bool_value(*b, env),
        BasicValue::Select(c, h, l) => if bool_value(*c, env) {
            bool_value(*h, env)
        } else {
            bool_value(*l, env)
        },
        BasicValue::Add(a, b) => bool_value(*a, env) != bool_value(*b, env),
        BasicValue::Mul(a, b) => bool_value(*a, env) && bool_value(*b, env),
        BasicValue::Neg(a) => bool_value(*a, env),
    }
}

impl BasicValue {
    /// Copies of the given values, each evaluating to the same booleans as the value it copies
    pub fn duplicate_all(fs: &Vec<BasicValue>) -> (v: Vec<BasicValue>)
        ensures
            v@.len() == fs@.len(),
            forall|i: int, env: Seq<bool>|
                0 <= i < v@.len() ==> #[trigger] bool_value(v@[i], env) == bool_value(fs@[i], env),
        decreases fs,
    {
        let mut v: Vec<BasicValue> = Vec::with_capacity(fs.len());
        for i in 0..fs.len()
            invariant
                v@.len() == i,
                forall|j: int, env: Seq<bool>|
                    0 <= j < i ==> #[trigger] bool_value(v@[j], env) == bool_value(fs@[j], env),
        {
            proof {
                vstd::std_specs::vec::axiom_vec_index_decreases(*fs, i as int);
            }
            v.push(fs[i].duplicate());
        }
        v
    }

    /// A copy of this value, evaluating to the same booleans
    pub fn duplicate(&self) -> (r: BasicValue)
        ensures
            forall|env: Seq<bool>| #[trigger] bool_value(r, env) == bool_value(*self, env),
        decreases self,
    {
        match self {
            BasicValue::ConstInt { width, value } => {
                let r = BasicValue::ConstInt { width: *width, value: *value };
                assert(r == *self);
                r
            },
            BasicValue::Param { index, ty } => BasicValue::Param { index: *index, ty: ty.duplicate() },
            BasicValue::Struct(fs) => BasicValue::Struct(Self::duplicate_all(fs)),
            BasicValue::Not(a) => {
                let x = (**a).duplicate();
                let r = BasicValue::Not(Box::new(x));
                assert forall|env: Seq<bool>| #[trigger] bool_value(r, env) == bool_value(*self, env) by {
                    assert(bool_value(x, env) == bool_value(**a, env));
                }
                r
            },
            BasicValue::And(a, b) => {
                let x = (**a).duplicate();
                let y = (**b).duplicate();
                let r = BasicValue::And(Box::new(x), Box::new(y));
                assert forall|env: Seq<bool>| #[trigger] bool_value(r, env) == bool_value(*self, env) by {
                    assert(bool_value(x, env) == bool_value(**a, env));
                    assert(bool_value(y, env) == bool_value(**b, env));
                }
                r
            },
            BasicValue::Or(a, b) => {
                let x = (**a).duplicate();
                let y = (**b).duplicate();
                let r = BasicValue::Or(Box::new(x), Box::new(y));
                assert forall|env: Seq<bool>| #[trigger] bool_value(r, env) == bool_value(*self, env) by {
                    assert(bool_value(x, env) == bool_value(**a, env));
                    assert(bool_value(y, env) == bool_value(**b, env));
                }
                r
            },
            BasicValue::Xor(a, b) => {
                let x = (**a).duplicate();
                let y = (**b).duplicate();
                let r = BasicValue::Xor(Box::new(x), Box::new(y));
                assert forall|env: Seq<bool>| #[trigger] bool_value(r, env) == bool_value(*self, env) by {
                    assert(bool_value(x, env) == bool_value(**a, env));
                    assert(bool_value(y, env) == bool_value(**b, env));
                }
                r
            },
            BasicValue::Select(c, h, l) => {
                let x = (**c).duplicate();
                let y = (**h).duplicate();
                let z = (**l).duplicate();
                let r = BasicValue::Select(Box::new(x), Box::new(y), Box::new(z));
                assert forall|env: Seq<bool>| #[trigger] bool_value(r, env) == bool_value(*self, env) by {
                    assert(bool_value(x, env) == bool_value(**c, env));
                    assert(bool_value(y, env) == bool_value(**h, env));
                    assert(bool_value(z, env) == bool_value(**l, env));
                }
                r
            },
            BasicValue::Add(a, b) => {
                let x = (**a).duplicate();
                let y = (**b).duplicate();
                let r = BasicValue::Add(Box::new(x), Box::new(y));
                assert forall|env: Seq<bool>| #[trigger] bool_value(r, env) == bool_value(*self, env) by {
                    assert(bool_value(x, env) == bool_value(**a, env));
                    assert(bool_value(y, env) == bool_value(**b, env));
                }
                r
            },
            BasicValue::Mul(a, b) => {
                let x = (**a).duplicate();
                let y = (**b).duplicate();
                let r = BasicValue::Mul(Box::new(x), Box::new(y));
                assert forall|env: Seq<bool>| #[trigger] bool_value(r, env) == bool_value(*self, env) by {
                    assert(bool_value(x, env) == bool_value(**a, env));
                    assert(bool_value(y, env) == bool_value(**b, env));
                }
                r
            },
            BasicValue::Neg(a) => {
                let x = (**a).duplicate();
                let r = BasicValue::Neg(Box::new(x));
                assert forall|env: Seq<bool>| #[trigger] bool_value(r, env) == bool_value(*self, env) by {
                    assert(bool_value(x, env) == bool_value(**a, env));
                }
                r
            },
        }
    }

    /// Whether this value is an LLVM integer
    pub fn is_int(&self) -> (b: bool)
        ensures
            b == is_int_value(*self),
        decreases self,
    {
        match self {
            BasicValue::ConstInt { .. } => true,
            BasicValue::Param { ty, .. } => match ty {
                BasicType::Int(_) => true,
                _ => false,
            },
            BasicValue::Struct(_) => false,
            BasicValue::Select(_, h, _) => (**h).is_int(),
            _ => true,
        }
    }
}

/// An LLVM representation of a value for a `rain` type
#[derive(Debug)]
pub enum Val {
    /// As a basic LLVM value
    Value(BasicValue),
    /// As a function, by its name in the module
    Function(String),
    /// A value of the unit type, indicating a no-op
    Unit,
    /// A contradiction, indicating undefined behaviour
    Contr,
}

impl From<BasicValue> for Val {
    fn from(b: BasicValue) -> (v: Val) {
        Val::Value(b)
    }
}

impl vstd::std_specs::convert::FromSpecImpl<BasicValue> for Val {
    open spec fn obeys_from_spec() -> bool {
        true
    }

    open spec fn from_spec(b: BasicValue) -> Val {
        Val::Value(b)
    }
}

impl TryFrom<Val> for BasicValue {
    type Error = Val;

    fn try_from(v: Val) -> (r: Result<BasicValue, Val>) {
        match v {
            Val::Value(v) => Ok(v),
            v => Err(v),
        }
    }
}

impl vstd::std_specs::convert::TryFromSpecImpl<Val> for BasicValue {
    open spec fn obeys_try_from_spec() -> bool {
        true
    }

    open spec fn try_from_spec(v: Val) -> Result<BasicValue, Val> {
        match v {
            Val::Value(b) => Ok(b),
            v => Err(v),
        }
    }
}

/// Whether a value is an LLVM integer
pub open spec fn is_int_value(b: BasicValue) -> bool
    decreases b,
{
    match b {
        BasicValue::ConstInt { .. } => true,
        BasicValue::Param { ty, .. } => ty is Int,
        BasicValue::Struct(_) => false,
        BasicValue::Select(_, h, _) => is_int_value(*h),
        _ => true,
    }
}

/// The integer a value holds, or the value itself if it holds none
pub open spec fn spec_try_into_int(v: Val) -> Result<BasicValue, Val> {
    match v {
        Val::Value(b) => if is_int_value(b) {
            Ok(b)
        } else {
            Err(v)
        },
        _ => Err(v),
    }
}

/// Reading an integer back from a value gives the integer it was made from,
/// and any value that holds no integer is handed back unchanged.
pub proof fn law_int_value_roundtrip(b: BasicValue, v: Val)
    requires
        is_int_value(b),
    ensures
        spec_try_into_int(Val::Value(b)) == Ok::<BasicValue, Val>(b),
        !(v matches Val::Value(c) && is_int_value(c)) ==> spec_try_into_int(v) == Err::<BasicValue, Val>(v),
        spec_try_into_int(v) matches Ok(c) ==> v == Val::Value(c),
{
}

impl Val {
    /// The integer this value holds, or the value itself if it holds none
    pub fn try_into_int(self) -> (r: Result<BasicValue, Val>)
        ensures
            r == spec_try_into_int(self),
            match r {
                Ok(b) => self == Val::Value(b) && is_int_value(b),
                Err(v) => v == self && !(self matches Val::Value(b) && is_int_value(b)),
            },
    {
        match self {
            Val::Value(v) => {
                if v.is_int() {
                    Ok(v)
                } else {
                    Err(Val::Value(v))
                }
            },
            v => Err(v),
        }
    }

    /// The function this value holds, by name, or the value itself if it holds none
    pub fn try_into_function(self) -> (r: Result<String, Val>)
        ensures
            match r {
                Ok(f) => self == Val::Function(f),
                Err(v) => v == self && !(self is Function),
            },
    {
        match self {
            Val::Function(f) => Ok(f),
            v => Err(v),
        }
    }
}

} // verus!
