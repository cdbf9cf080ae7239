//! Where code is being emitted: the function being built and its current
//! block, saved when the building of a function starts and restored when it
//! ends, whether it succeeded or not.
use vstd::prelude::*;

verus! {

/// The position of code emission
#[derive(Debug, Clone, Copy)]
pub struct Position<F, B> {
    /// The function being built, if any
    pub curr: Option<F>,
    /// The current basic block of that function, if any
    pub head: Option<B>,
}

/// The position at the entry block `entry` of a function `f` being started
pub open spec fn entered<F, B>(f: F, entry: B) -> Position<F, B> {
    Position { curr: Some(f), head: Some(entry) }
}

/// The position after moving to block `b` of the current function
pub open spec fn moved<F, B>(p: Position<F, B>, b: B) -> Position<F, B> {
    Position { curr: p.curr, head: Some(b) }
}

/// The position after moving through the blocks `bs`, in order
pub open spec fn moved_through<F, B>(p: Position<F, B>, bs: Seq<B>) -> Position<F, B>
    decreases bs.len(),
{
    if bs.len() == 0 {
        p
    } else {
        moved(moved_through(p, bs.drop_last()), bs.last())
    }
}

impl<F: Copy, B: Copy> Position<F, B> {
    /// The position outside any function
    pub fn new() -> (p: Position<F, B>)
        ensures
            p.curr is None,
            p.head is None,
    {
        Position { curr: None, head: None }
    }

    /// Start building function `f` at its entry block: returns the position
    /// to come back to when it is built
    pub fn enter(&mut self, f: F, entry: B) -> (saved: Position<F, B>)
        ensures
            saved == *old(self),
            *final(self) == entered(f, entry),
    {
        let saved = *self;
        *self = Position { curr: Some(f), head: Some(entry) };
        saved
    }

    /// Move to block `b` of the current function
    pub fn move_to(&mut self, b: B)
        ensures
            *final(self) == moved(*old(self), b),
    {
        self.head = Some(b);
    }

    /// Come back to a saved position, returning the block the builder is to
    /// be placed at again, if any
    pub fn restore(&mut self, saved: Position<F, B>) -> (at: Option<B>)
        ensures
            *final(self) == saved,
            at == saved.head,
    {
        let at = saved.head;
        *self = saved;
        at
    }
}

/// While a function is built, moving through any of its blocks keeps it the
/// function being built, at the block moved to last; [`Position::restore`]
/// then gives back the saved position whatever those moves were.
pub proof fn law_moves_stay_in_function<F, B>(f: F, entry: B, bs: Seq<B>)
    ensures
        moved_through(entered(f, entry), bs).curr == Some(f),
        moved_through(entered(f, entry), bs).head == Some(if bs.len() > 0 {
            bs.last()
        } else {
            entry
        }),
    decreases bs.len(),
{
    if bs.len() > 0 {
        law_moves_stay_in_function(f, entry, bs.drop_last());
    }
}

} // verus!
