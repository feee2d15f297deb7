use vstd::prelude::*;

verus! {

/// A capacity-one hand-off slot: holds at most one pending item awaiting
/// consumption by one side. Its one-slot discipline is what bounds the
/// memory the combinator may hold for a slow consumer.
pub struct SideSlot<T> {
    item: Option<T>,
}

impl<T> View for SideSlot<T> {
    type V = Option<T>;

    closed spec fn view(&self) -> Option<T> {
        self.item
    }
}

impl<T> SideSlot<T> {
    /// An empty slot.
    pub fn new() -> (r: SideSlot<T>)
        ensures
            r@ is None,
    {
        SideSlot { item: None }
    }

    /// Whether an item is waiting in the slot.
    pub fn is_occupied(&self) -> (r: bool)
        ensures
            r == (self@ is Some),
    {
        self.item.is_some()
    }

    /// Put-if-empty: stores `t`. The slot must be free; an occupied slot
    /// never accepts a second item.
    pub fn put(&mut self, t: T)
        requires
            old(self)@ is None,
        ensures
            final(self)@ == Some(t),
    {
        self.item = Some(t);
    }

    /// Take-if-present: removes and returns the stored item, leaving the
    /// slot free.
    pub fn take(&mut self) -> (r: Option<T>)
        ensures
            r == old(self)@,
            final(self)@ is None,
    {
        self.item.take()
    }
}

} // verus!
