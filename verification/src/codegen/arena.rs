//! Arena of symbol tables for code generation
use super::treesym::SymbolTable;
use std::hash::Hash;
use vstd::prelude::*;

verus! {

/// A slot of an arena: a table, or a link of the list of free slots
#[derive(Debug)]
pub enum Slot<T> {
    /// A slot holding a table
    Occupied(T),
    /// A free slot, holding the index of the next free slot (`usize::MAX` for none)
    Free(usize),
}

/// The abstract state of an arena: what each slot holds, and the free slots in
/// the order in which they will be reused
pub struct ArenaModel<T> {
    /// The content of each slot, `None` for a free slot
    pub slots: Seq<Option<T>>,
    /// The free slots, the next one to be reused first
    pub free: Seq<usize>,
}

impl<T> ArenaModel<T> {
    /// The free list holds exactly the free slots, each once, and no index
    /// reaches the end-of-list marker `usize::MAX`
    pub open spec fn wf(self) -> bool {
        &&& self.slots.len() < usize::MAX
        &&& self.free.no_duplicates()
        &&& forall|i: int|
            0 <= i < self.free.len() ==> #[trigger] self.free[i] < self.slots.len()
                && self.slots[self.free[i] as int] is None
        &&& forall|j: int|
            0 <= j < self.slots.len() && #[trigger] self.slots[j] is None ==> self.free.contains(
                j as usize,
            )
    }

    /// The table stored at a given index, if any
    pub open spec fn get(self, ix: int) -> Option<T> {
        if 0 <= ix < self.slots.len() {
            self.slots[ix]
        } else {
            None
        }
    }

    /// Store a table in a new slot at the end, returning the new state and the slot
    pub open spec fn push_end(self, t: T) -> (ArenaModel<T>, usize) {
        (ArenaModel { slots: self.slots.push(Some(t)), free: self.free }, self.slots.len() as usize)
    }

    /// Store a table in the most recently freed slot, or at the end if none is free
    pub open spec fn push(self, t: T) -> (ArenaModel<T>, usize) {
        if self.free.len() == 0 {
            self.push_end(t)
        } else {
            (
                ArenaModel {
                    slots: self.slots.update(self.free[0] as int, Some(t)),
                    free: self.free.drop_first(),
                },
                self.free[0],
            )
        }
    }

    /// Free the slot at a given index, returning the new state and the table it held
    pub open spec fn free(self, ix: int) -> (ArenaModel<T>, Option<T>) {
        if self.get(ix) is Some {
            (
                ArenaModel { slots: self.slots.update(ix, None), free: seq![ix as usize] + self.free },
                self.slots[ix],
            )
        } else {
            (self, None)
        }
    }
}

/// An arena for allocating symbol tables
#[verifier::reject_recursive_types(K)]
#[verifier::reject_recursive_types(V)]
pub struct Arena<K: Eq + Hash, V> {
    /// The underlying data of this arena
    data: Vec<Slot<SymbolTable<K, V>>>,
    /// The head of the free list for this arena
    free_head: usize,
    /// The free list, from its head
    free: Ghost<Seq<usize>>,
}

/// What a slot holds, as seen from outside
pub open spec fn slot_content<T>(s: Slot<T>) -> Option<T> {
    match s {
        Slot::Occupied(t) => Some(t),
        Slot::Free(_) => None,
    }
}

/// What each slot of a sequence holds
pub open spec fn contents<T>(s: Seq<Slot<T>>) -> Seq<Option<T>> {
    s.map_values(|s: Slot<T>| slot_content(s))
}

/// Writing a slot writes its content
pub broadcast proof fn lemma_contents_update<T>(s: Seq<Slot<T>>, i: int, x: Slot<T>)
    requires
        0 <= i < s.len(),
    ensures
        #[trigger] contents(s.update(i, x)) == contents(s).update(i, slot_content(x)),
{
    assert(contents(s.update(i, x)) =~= contents(s).update(i, slot_content(x)));
}

impl<K: Eq + Hash, V> View for Arena<K, V> {
    type V = ArenaModel<SymbolTable<K, V>>;

    closed spec fn view(&self) -> ArenaModel<SymbolTable<K, V>> {
        ArenaModel { slots: contents(self.data@), free: self.free@ }
    }
}

impl<K: Eq + Hash, V> Arena<K, V> {
    /// The arena's free list is the chain of links starting at its head
    pub closed spec fn wf(&self) -> bool {
        &&& self@.wf()
        &&& self.free_head == (if self.free@.len() == 0 {
            usize::MAX
        } else {
            self.free@[0]
        })
        &&& forall|i: int|
            0 <= i < self.free@.len() ==> self.data@[#[trigger] self.free@[i] as int] == Slot::<
                SymbolTable<K, V>,
            >::Free(
                if i + 1 < self.free@.len() {
                    self.free@[i + 1]
                } else {
                    usize::MAX
                },
            )
    }

    /// A well-formed arena has a well-formed model: its free list holds
    /// exactly its free slots, so the laws of [`ArenaModel`] apply to it
    pub proof fn lemma_model_wf(&self)
        requires
            self.wf(),
        ensures
            self@.wf(),
    {
    }

    /// Create a new, empty arena
    pub fn new() -> (a: Arena<K, V>)
        ensures
            a.wf(),
            a@.slots == Seq::<Option<SymbolTable<K, V>>>::empty(),
            a@.free == Seq::<usize>::empty(),
    {
        let a = Arena { data: Vec::new(), free_head: usize::MAX, free: Ghost(Seq::empty()) };
        proof {
            assert(a@.slots =~= Seq::<Option<SymbolTable<K, V>>>::empty());
        }
        a
    }

    /// Get a mutable reference to the symbol table stored at a given index, if any
    pub fn get_mut(&mut self, ix: usize) -> (r: Option<&mut SymbolTable<K, V>>)
        requires
            old(self).wf(),
        ensures
            match r {
                Some(t) => {
                    &&& old(self)@.get(ix as int) == Some(*t)
                    &&& final(self)@ == (ArenaModel {
                        slots: old(self)@.slots.update(ix as int, Some(*final(t))),
                        free: old(self)@.free,
                    })
                    &&& final(self).wf()
                },
                None => old(self)@.get(ix as int) is None && *final(self) == *old(self),
            },
    {
        broadcast use lemma_contents_update;

        if ix >= self.data.len() {
            return None;
        }
        if let Slot::Free(_) = &self.data[ix] {
            return None;
        }
        match &mut self.data[ix] {
            Slot::Occupied(t) => Some(t),
            Slot::Free(_) => None,
        }
    }

    /// Get an immutable reference to the symbol table stored at a given index, if any
    pub fn get(&mut self, ix: usize) -> (r: Option<&SymbolTable<K, V>>)
        ensures
            *final(self) == *old(self),
            match r {
                Some(t) => old(self)@.get(ix as int) == Some(*t),
                None => old(self)@.get(ix as int) is None,
            },
    {
        if ix >= self.data.len() {
            None
        } else {
            match &self.data[ix] {
                Slot::Occupied(t) => Some(t),
                Slot::Free(_) => None,
            }
        }
    }

    /// Push a new symbol table into the arena, forcing it to be placed at the end. Returns the new index
    ///
    /// Note this is never *wrong* to call, it just doesn't re-use memory in the free list even if this is possible
    pub fn push_end(&mut self, table: SymbolTable<K, V>) -> (ix: usize)
        requires
            old(self).wf(),
            old(self)@.slots.len() + 1 < usize::MAX,
        ensures
            final(self).wf(),
            (final(self)@, ix) == old(self)@.push_end(table),
    {
        let ix = self.data.len();
        self.data.push(Slot::Occupied(table));
        proof {
            assert(self@.slots =~= old(self)@.slots.push(Some(table)));
            assert forall|i: int| 0 <= i < self.free@.len() implies self.data@[#[trigger] self.free@[i] as int]
                == old(self).data@[self.free@[i] as int] by {}
        }
        ix
    }

    /// Free a symbol table from the arena, returning it if it existed and updating the free head appropriately
    pub fn free(&mut self, ix: usize) -> (r: Option<SymbolTable<K, V>>)
        requires
            old(self).wf(),
        ensures
            final(self).wf(),
            (final(self)@, r) == old(self)@.free(ix as int),
    {
        // If the index is out of bounds or already freed, return `None`
        if ix >= self.data.len() {
            return None;
        }
        if let Slot::Free(_) = &self.data[ix] {
            return None;
        }
        // Otherwise, create a new linked list node with the free list head as previous node, swapping out the old data
        let mut new_node = Slot::Free(self.free_head);
        std::mem::swap(&mut new_node, &mut self.data[ix]);
        // Then update the free list to have the new node as a head
        self.free_head = ix;
        proof {
            let old_free = self.free@;
            self.free@ = seq![ix] + old_free;
            assert(self@.slots =~= old(self)@.slots.update(ix as int, None));
            assert(!old_free.contains(ix));
            assert forall|i: int| 0 <= i < self.free@.len() implies self.data@[#[trigger] self.free@[i] as int]
                == Slot::<SymbolTable<K, V>>::Free(
                if i + 1 < self.free@.len() {
                    self.free@[i + 1]
                } else {
                    usize::MAX
                },
            ) by {
                if i > 0 {
                    assert(self.free@[i] == old_free[i - 1]);
                    assert(old_free[i - 1] != ix);
                }
            }
            assert forall|j: int|
                0 <= j < self@.slots.len() && #[trigger] self@.slots[j] is None implies self@.free.contains(
                j as usize,
            ) by {
                if j != ix {
                    assert(old(self)@.slots[j] is None);
                    let k = choose|k: int| 0 <= k < old_free.len() && old_free[k] == j as usize;
                    assert(self.free@[k + 1] == j as usize);
                } else {
                    assert(self.free@[0] == ix);
                }
            }
            assert(self@.free.no_duplicates());
        }
        // Finally, return the old data, extracted from its slot
        match new_node {
            Slot::Occupied(t) => Some(t),
            Slot::Free(_) => None,
        }
    }

    /// Push a new symbol table into the arena, returning its index
    pub fn push(&mut self, table: SymbolTable<K, V>) -> (ix: usize)
        requires
            old(self).wf(),
            old(self)@.free.len() > 0 || old(self)@.slots.len() + 1 < usize::MAX,
        ensures
            final(self).wf(),
            (final(self)@, ix) == old(self)@.push(table),
    {
        // Check if the free list is empty
        if self.free_head == usize::MAX {
            proof {
                if self.free@.len() > 0 {
                    assert(self.free@[0] < self@.slots.len());
                }
            }
            return self.push_end(table);
        }
        proof {
            assert(self.free@[0] < self@.slots.len());
        }
        // Get the next element of the free list.
        let next_free = match &self.data[self.free_head] {
            Slot::Occupied(_) => {
                proof {
                    assert(self.data@[self.free@[0] as int] is Free);
                }
                usize::MAX
            },
            Slot::Free(r) => *r,
        };
        let ix = self.free_head;
        // Overwrite the head of the free list
        self.data.set(ix, Slot::Occupied(table));
        // Advance the free list
        self.free_head = next_free;
        proof {
            let old_free = self.free@;
            self.free@ = old_free.drop_first();
            assert(self@.slots =~= old(self)@.slots.update(ix as int, Some(table)));
            assert forall|i: int| 0 <= i < self.free@.len() implies self.data@[#[trigger] self.free@[i] as int]
                == Slot::<SymbolTable<K, V>>::Free(
                if i + 1 < self.free@.len() {
                    self.free@[i + 1]
                } else {
                    usize::MAX
                },
            ) by {
                assert(self.free@[i] == old_free[i + 1]);
                assert(old_free[i + 1] != old_free[0]);
            }
            assert forall|j: int|
                0 <= j < self@.slots.len() && #[trigger] self@.slots[j] is None implies self@.free.contains(
                j as usize,
            ) by {
                assert(j != ix);
                assert(old(self)@.slots[j] is None);
                let k = choose|k: int| 0 <= k < old_free.len() && old_free[k] == j as usize;
                assert(k != 0);
                assert(self.free@[k - 1] == j as usize);
            }
            assert forall|i: int| 0 <= i < self.free@.len() implies #[trigger] self.free@[i]
                < self@.slots.len() && self@.slots[self.free@[i] as int] is None by {
                assert(self.free@[i] == old_free[i + 1]);
                assert(old_free[i + 1] != old_free[0]);
            }
        }
        // Return the new index
        ix
    }

    /// Get the capacity of this arena: the number of its slots
    pub fn capacity(&self) -> (n: usize)
        ensures
            n == self@.slots.len(),
    {
        self.data.len()
    }
}

} // verus!

verus! {

/// A table pushed into an arena is found at the returned index, and no other
/// slot changes.
pub proof fn law_push_then_get<T>(m: ArenaModel<T>, t: T)
    requires
        m.wf(),
    ensures
        ({
            let (m2, i) = m.push(t);
            &&& m.get(i as int) is None
            &&& i <= m.slots.len()
            &&& m2.get(i as int) == Some(t)
            &&& forall|j: int| j != i ==> #[trigger] m2.get(j) == m.get(j)
        }),
{
    if m.free.len() > 0 {
        assert(m.free[0] < m.slots.len());
    }
}

/// Freed memory is reused, last freed first: while a slot is free, a push
/// takes the slot at the head of the free list, which is the one freed most
/// recently, and the arena does not grow.
pub proof fn law_push_reuses_last_freed<T>(m: ArenaModel<T>, t: T)
    requires
        m.wf(),
        m.free.len() > 0,
    ensures
        m.push(t).1 == m.free[0],
        m.push(t).0.slots.len() == m.slots.len(),
        forall|ix: int| #[trigger] m.free(ix).0.free.len() > m.free.len() ==> m.free(ix).0.free[0] == ix,
{
}

/// When no slot is free, a push appends a new slot at the end.
pub proof fn law_full_push_appends<T>(m: ArenaModel<T>, t: T)
    requires
        m.wf(),
        forall|i: int| 0 <= i < m.slots.len() ==> #[trigger] m.get(i) is Some,
    ensures
        m.push(t) == m.push_end(t),
        m.push(t).1 == m.slots.len(),
{
    if m.free.len() > 0 {
        assert(m.get(m.free[0] as int) is Some);
    }
}

/// Freeing the slot of a table just pushed gives the table back and leaves the slot free.
pub proof fn law_push_then_free<T>(m: ArenaModel<T>, t: T)
    requires
        m.wf(),
    ensures
        ({
            let (m2, i) = m.push(t);
            let (m3, r) = m2.free(i as int);
            &&& r == Some(t)
            &&& m3.get(i as int) is None
        }),
{
    law_push_then_get(m, t);
}

/// The slot freed last is the slot the next push reuses.
pub proof fn law_free_then_push_reuses<T>(m: ArenaModel<T>, ix: int, t: T)
    requires
        m.wf(),
        m.get(ix) is Some,
    ensures
        ({
            let (m2, _) = m.free(ix);
            m2.push(t).1 == ix
        }),
{
}

/// Freeing a slot that holds no table (out of bounds, or already freed)
/// changes nothing and gives nothing back.
pub proof fn law_free_twice<T>(m: ArenaModel<T>, ix: int)
    requires
        m.wf(),
        m.get(ix) is Some,
    ensures
        ({
            let (m2, _) = m.free(ix);
            let (m3, r) = m2.free(ix);
            &&& r is None
            &&& m3 == m2
        }),
{
}

/// Every operation keeps the arena well formed, and no operation shrinks it.
pub proof fn law_operations_keep_wf<T>(m: ArenaModel<T>, ix: int, t: T)
    requires
        m.wf(),
        m.slots.len() + 1 < usize::MAX,
    ensures
        m.push(t).0.wf(),
        m.push_end(t).0.wf(),
        m.free(ix).0.wf(),
        m.push(t).0.slots.len() >= m.slots.len(),
        m.push_end(t).0.slots.len() == m.slots.len() + 1,
        m.free(ix).0.slots.len() == m.slots.len(),
{
    let (p, i) = m.push(t);
    if m.free.len() > 0 {
        let f0 = m.free[0];
        assert(f0 < m.slots.len());
        assert forall|k: int| 0 <= k < p.free.len() implies #[trigger] p.free[k] < p.slots.len()
            && p.slots[p.free[k] as int] is None by {
            assert(p.free[k] == m.free[k + 1]);
            assert(m.free[k + 1] != f0);
        }
        assert forall|j: int| 0 <= j < p.slots.len() && #[trigger] p.slots[j] is None implies p.free.contains(
            j as usize,
        ) by {
            assert(m.slots[j] is None);
            let k = choose|k: int| 0 <= k < m.free.len() && m.free[k] == j as usize;
            assert(k != 0);
            assert(p.free[k - 1] == j as usize);
        }
    } else {
        assert forall|j: int| 0 <= j < p.slots.len() && #[trigger] p.slots[j] is None implies p.free.contains(
            j as usize,
        ) by {
            assert(j < m.slots.len());
            assert(m.slots[j] is None);
        }
    }
    let e = m.push_end(t).0;
    assert forall|j: int| 0 <= j < e.slots.len() && #[trigger] e.slots[j] is None implies e.free.contains(
        j as usize,
    ) by {
        assert(j < m.slots.len());
        assert(m.slots[j] is None);
    }
    if m.get(ix) is Some {
        let f = m.free(ix).0;
        assert(!m.free.contains(ix as usize));
        assert forall|k: int| 0 <= k < f.free.len() implies #[trigger] f.free[k] < f.slots.len()
            && f.slots[f.free[k] as int] is None by {
            if k > 0 {
                assert(f.free[k] == m.free[k - 1]);
            }
        }
        assert forall|j: int| 0 <= j < f.slots.len() && #[trigger] f.slots[j] is None implies f.free.contains(
            j as usize,
        ) by {
            if j == ix {
                assert(f.free[0] == ix as usize);
            } else {
                assert(m.slots[j] is None);
                let k = choose|k: int| 0 <= k < m.free.len() && m.free[k] == j as usize;
                assert(f.free[k + 1] == j as usize);
            }
        }
        assert(f.free.no_duplicates());
    }
}

} // verus!
