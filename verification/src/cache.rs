//! The cache slot: a single-entry memoization cell with two states.

use vstd::prelude::*;

verus! {

/// A single-entry cell that is either empty or holds one value.
///
/// A slot is written at most once between resets: writing to a populated
/// slot leaves it as it is.
#[derive(Clone, Copy, Debug, PartialEq, Eq)]
pub enum CacheSlot<T> {
    Empty,
    Populated(T),
}

impl<T> CacheSlot<T> {
    /// The value held, if any.
    pub open spec fn value(self) -> Option<T> {
        match self {
            CacheSlot::Empty => None,
            CacheSlot::Populated(v) => Some(v),
        }
    }

    /// The slot after an attempt to write `v`: the first writer wins.
    pub open spec fn written(self, v: T) -> CacheSlot<T> {
        match self {
            CacheSlot::Empty => CacheSlot::Populated(v),
            CacheSlot::Populated(held) => CacheSlot::Populated(held),
        }
    }

    /// An empty slot.
    pub fn new() -> (r: Self)
        ensures
            r == CacheSlot::<T>::Empty,
    {
        CacheSlot::Empty
    }

    /// Whether the slot holds a value.
    pub fn is_populated(&self) -> (r: bool)
        ensures
            r == (*self is Populated),
    {
        match self {
            CacheSlot::Empty => false,
            CacheSlot::Populated(_) => true,
        }
    }

    /// The value held, if any.
    pub fn get(&self) -> (r: Option<&T>)
        ensures
            r is Some <==> *self is Populated,
            r is Some ==> *r->Some_0 == self->Populated_0,
    {
        match self {
            CacheSlot::Empty => None,
            CacheSlot::Populated(v) => Some(v),
        }
    }

    /// Stores `v` if the slot is empty and leaves a populated slot as it is.
    /// Returns whether `v` was stored.
    pub fn write(&mut self, v: T) -> (stored: bool)
        ensures
            *final(self) == old(self).written(v),
            stored == (*old(self) is Empty),
    {
        if self.is_populated() {
            false
        } else {
            *self = CacheSlot::Populated(v);
            true
        }
    }

    /// Stores `v`, whatever the slot held.
    pub fn overwrite(&mut self, v: T)
        ensures
            *final(self) == CacheSlot::Populated(v),
    {
        *self = CacheSlot::Populated(v);
    }

    /// Clears the slot.
    pub fn reset(&mut self)
        ensures
            *final(self) == CacheSlot::<T>::Empty,
    {
        *self = CacheSlot::Empty;
    }
}

/// After a reset a slot takes the next value written to it.
pub proof fn lemma_write_after_reset<T>(slot: CacheSlot<T>, v: T)
    ensures
        CacheSlot::<T>::Empty.written(v) == CacheSlot::Populated(v),
        slot.written(v).written(v) == slot.written(v),
{
}

} // verus!
