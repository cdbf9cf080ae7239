//! A symbol table implemented with hash trees, supporting saving snapshots
use im_rc::HashMap;
use std::hash::Hash;
use vstd::prelude::*;

verus! {

/// The persistent hash map of `im-rc`, one level of a symbol table
#[verifier::external_type_specification]
#[verifier::external_body]
#[verifier::reject_recursive_types(K)]
#[verifier::reject_recursive_types(V)]
#[verifier::reject_recursive_types(S)]
pub struct ExImHashMap<K, V, S>(im_rc::HashMap<K, V, S>);

/// A *local* symbol table implemented with hash trees, supporting mixed levels
#[derive(Debug, Clone, PartialEq, Eq, Hash)]
#[verifier::reject_recursive_types(K)]
#[verifier::reject_recursive_types(V)]
pub struct SymbolTable<K: Eq + Hash, V> {
    levels: Vec<HashMap<K, V>>,
}

impl<K: Eq + Hash, V> SymbolTable<K, V> {
    /// The number of levels of this table
    pub closed spec fn depth(&self) -> nat {
        self.levels@.len()
    }

    /// Create a new, empty symbol table
    pub fn new() -> (t: SymbolTable<K, V>)
        ensures
            t.depth() == 0,
    {
        SymbolTable { levels: Vec::new() }
    }
}

} // verus!
