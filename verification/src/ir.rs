//! The part of the `rain` intermediate representation that code generation reads.
//!
//! `rain` types form a hash-consed DAG; here they are held in a [`TypeGraph`],
//! where every type refers only to types that were added before it.
use vstd::prelude::*;

verus! {

/// The identifier of a type: its position in a [`TypeGraph`]
pub type TypeId = usize;

/// The finite type with the given number of values
#[derive(Debug, Copy, Clone, PartialEq, Eq, Structural)]
pub struct Finite(pub u128);

/// The type of bit vectors of the given width
#[derive(Debug, Copy, Clone, PartialEq, Eq, Structural)]
pub struct BitsTy(pub u32);

/// A bit vector constant of a given bits type
#[derive(Debug, Copy, Clone, PartialEq, Eq, Structural)]
pub struct Bits {
    /// The type of this bit vector
    pub ty: BitsTy,
    /// The bits themselves
    pub data: u128,
}

/// A `rain` type, with its components given by identifier
#[derive(Debug, Clone, PartialEq, Eq)]
pub enum TypeNode {
    /// The boolean type
    Bool,
    /// A finite type
    Finite(Finite),
    /// A bits type
    Bits(BitsTy),
    /// A product of the given component types
    Product(Vec<TypeId>),
    /// A (non-dependent) function type
    Pi {
        /// The parameter types
        params: Vec<TypeId>,
        /// The result type
        result: TypeId,
    },
}

/// The largest number of components a product or function type may have:
/// component positions must fit an LLVM index.
pub const MAX_COMPONENTS: usize = 0x8000_0000;

/// Whether a node may stand at position `id` of a type graph: it refers only
/// to earlier types and has fewer than [`MAX_COMPONENTS`] components.
pub open spec fn node_wf(n: TypeNode, id: int) -> bool {
    match n {
        TypeNode::Product(ms) => {
            &&& ms@.len() < MAX_COMPONENTS
            &&& forall|i: int| 0 <= i < ms@.len() ==> #[trigger] ms@[i] < id
        },
        TypeNode::Pi { params, result } => {
            &&& params@.len() < MAX_COMPONENTS
            &&& forall|i: int| 0 <= i < params@.len() ==> #[trigger] params@[i] < id
            &&& result < id
        },
        _ => true,
    }
}

/// Every node of the graph is well formed at its position
pub open spec fn graph_wf(g: Seq<TypeNode>) -> bool {
    forall|i: int| 0 <= i < g.len() ==> node_wf(#[trigger] g[i], i)
}

/// A growing collection of `rain` types, closed under components
pub struct TypeGraph {
    nodes: Vec<TypeNode>,
}

impl View for TypeGraph {
    type V = Seq<TypeNode>;

    closed spec fn view(&self) -> Seq<TypeNode> {
        self.nodes@
    }
}

impl TypeGraph {
    /// Every node of the graph refers only to earlier nodes
    #[verifier::type_invariant]
    pub open spec fn inv(self) -> bool {
        graph_wf(self@)
    }

    /// Create an empty type graph
    pub fn new() -> (g: TypeGraph)
        ensures
            g@ == Seq::<TypeNode>::empty(),
    {
        TypeGraph { nodes: Vec::new() }
    }

    /// The number of types in this graph
    pub fn len(&self) -> (n: usize)
        ensures
            n == self@.len(),
    {
        self.nodes.len()
    }

    /// The type with a given identifier
    pub fn node(&self, id: TypeId) -> (n: &TypeNode)
        requires
            id < self@.len(),
        ensures
            *n == self@[id as int],
    {
        &self.nodes[id]
    }

    fn ids_below(ids: &Vec<TypeId>, bound: usize) -> (b: bool)
        ensures
            b == (forall|i: int| 0 <= i < ids@.len() ==> #[trigger] ids@[i] < bound),
    {
        let n = ids.len();
        for i in 0..n
            invariant
                n == ids@.len(),
                forall|j: int| 0 <= j < i ==> #[trigger] ids@[j] < bound,
        {
            if ids[i] >= bound {
                return false;
            }
        }
        true
    }

    /// Add a type to the graph, returning its identifier, or `None` (leaving
    /// the graph unchanged) if it refers to a type not yet in the graph or has
    /// too many components
    pub fn add(&mut self, n: TypeNode) -> (r: Option<TypeId>)
        requires
            old(self)@.len() < usize::MAX,
        ensures
            match r {
                Some(id) => {
                    &&& node_wf(n, old(self)@.len() as int)
                    &&& id == old(self)@.len()
                    &&& final(self)@ == old(self)@.push(n)
                },
                None => {
                    &&& !node_wf(n, old(self)@.len() as int)
                    &&& final(self)@ == old(self)@
                },
            },
    {
        proof {
            use_type_invariant(&*self);
        }
        let id = self.nodes.len();
        let ok = match &n {
            TypeNode::Product(ms) => ms.len() < MAX_COMPONENTS && Self::ids_below(ms, id),
            TypeNode::Pi { params, result } => params.len() < MAX_COMPONENTS && Self::ids_below(
                params,
                id,
            ) && *result < id,
            _ => true,
        };
        if ok {
            let mut taken = TypeGraph::new();
            std::mem::swap(&mut taken, self);
            let mut nodes = taken.nodes;
            nodes.push(n);
            proof {
                assert forall|i: int| 0 <= i < nodes@.len() implies node_wf(
                    #[trigger] nodes@[i],
                    i,
                ) by {
                    if i < id {
                        assert(nodes@[i] == old(self).nodes@[i]);
                    }
                }
            }
            *self = TypeGraph { nodes };
            Some(id)
        } else {
            None
        }
    }
}

} // verus!
