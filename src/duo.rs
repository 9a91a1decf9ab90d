use vstd::prelude::*;

use crate::cursor::{all_occupied, values_of, MutatingCursor};
use crate::store::{push_outcome, CapacityExceeded, InlineStore};

verus! {

/// An inline store with room for exactly two values.
pub struct Duo<T> {
    store: InlineStore<T, 2>,
}

impl<T> View for Duo<T> {
    type V = Seq<T>;

    /// The stored values, by position.
    closed spec fn view(&self) -> Seq<T> {
        self.store@
    }
}

impl<T> Duo<T> {
    /// The two-slot store's own invariant holds.
    pub closed spec fn wf(&self) -> bool {
        self.store.wf()
    }

    /// A pair store with no values.
    pub fn new() -> (r: Self)
        ensures
            r.wf(),
            r@ == Seq::<T>::empty(),
    {
        Duo { store: InlineStore::new() }
    }

    /// Stores `value` in the first free slot; with both slots taken the store
    /// is left as it is and `value` is handed back.
    pub fn push(&mut self, value: T) -> (r: Result<(), CapacityExceeded<T>>)
        requires
            old(self).wf(),
        ensures
            final(self).wf(),
            final(self)@ == push_outcome(old(self)@, 2, value),
            r is Ok <==> old(self)@.len() < 2,
            r is Err ==> r->Err_0.value == value,
    {
        self.store.push(value)
    }

    /// Read access to the underlying store.
    pub fn as_store(&self) -> (r: &InlineStore<T, 2>)
        ensures
            r@ == self@,
            self.wf() ==> r.wf(),
    {
        &self.store
    }

    /// Starts a traversal over the stored values, in position order.
    pub fn iter_mut<'a>(&'a mut self) -> (r: MutatingCursor<'a, T>)
        requires
            old(self).wf(),
        ensures
            r.wf(),
            r.position() == 0,
            r.bound() == old(self)@.len(),
            r.pending() == old(self)@,
            final(self)@.len() == old(self)@.len(),
            final(r.slots())@.len() == old(self)@.len() && all_occupied(final(r.slots())@) ==> {
                &&& final(self).wf()
                &&& final(self)@ == values_of(final(r.slots())@)
            },
    {
        self.store.cursor()
    }
}

} // verus!
