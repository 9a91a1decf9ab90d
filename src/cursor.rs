use vstd::prelude::*;

verus! {

/// Whether every slot of `s` holds a value.
pub open spec fn all_occupied<T>(s: Seq<Option<T>>) -> bool {
    forall|i: int| 0 <= i < s.len() ==> (#[trigger] s[i]) is Some
}

/// The values held by the slots of `s`, in order.
pub open spec fn values_of<T>(s: Seq<Option<T>>) -> Seq<T> {
    Seq::new(s.len(), |i: int| s[i]->Some_0)
}

/// Slots that hold `values`, in order.
pub open spec fn occupied_by<T>(values: Seq<T>) -> Seq<Option<T>> {
    Seq::new(values.len(), |i: int| Some(values[i]))
}

/// A single forward traversal over the occupied slots of a store.
///
/// The cursor owns the mutable borrow of the slots that it has not handed out
/// yet. Each call to `advance` splits the first of them off and returns an
/// accessor to its value, so accessors of one traversal never overlap.
pub struct MutatingCursor<'a, T> {
    rest: &'a mut [Option<T>],
    position: usize,
    bound: usize,
}

impl<'a, T> MutatingCursor<'a, T> {
    /// The cursor's own bookkeeping holds.
    pub closed spec fn wf(&self) -> bool {
        &&& all_occupied(self.rest@)
        &&& self.position + self.rest@.len() == self.bound
    }

    /// How many accessors this traversal has handed out.
    pub closed spec fn position(&self) -> nat {
        self.position as nat
    }

    /// The number of occupied slots that the traversal was started over.
    pub closed spec fn bound(&self) -> nat {
        self.bound as nat
    }

    /// The borrow of the slots not handed out yet. Its current value holds
    /// their values now; its `final` value holds what they will hold once the
    /// traversal and every accessor taken from it are gone.
    pub closed spec fn slots(&self) -> &'a mut [Option<T>] {
        self.rest
    }

    /// The current values of the slots not handed out yet, in order.
    pub open spec fn pending(&self) -> Seq<T> {
        values_of(self.slots()@)
    }

    /// Starts a traversal over `slots`, every one of which holds a value.
    pub(crate) fn over(slots: &'a mut [Option<T>]) -> (r: Self)
        requires
            all_occupied(old(slots)@),
        ensures
            r.wf(),
            r.position() == 0,
            r.bound() == old(slots)@.len(),
            r.pending() == values_of(old(slots)@),
            r.slots()@ == old(slots)@,
            final(r.slots())@ == final(slots)@,
    {
        let bound = slots.len();
        MutatingCursor { rest: slots, position: 0, bound }
    }

    /// Hands out an accessor to the next slot, or `None` once every slot of
    /// the traversal has been handed out.
    ///
    /// The accessor's value starts as the slot's value, and whatever the
    /// caller leaves in it is what the slot holds afterwards.
    pub fn advance(&mut self) -> (r: Option<&'a mut T>)
        requires
            old(self).wf(),
        ensures
            final(self).wf(),
            final(self).bound() == old(self).bound(),
            old(self).position() + old(self).pending().len() == old(self).bound(),
            final(self).position() + final(self).pending().len() == final(self).bound(),
            old(self).pending().len() == 0 ==> {
                &&& r is None
                &&& *final(self) == *old(self)
            },
            old(self).pending().len() > 0 ==> {
                &&& r is Some
                &&& *r->Some_0 == old(self).pending()[0]
                &&& final(self).position() == old(self).position() + 1
                &&& final(self).pending() == old(self).pending().drop_first()
                &&& final(old(self).slots())@ == seq![Some(*final(r->Some_0))]
                    + final(final(self).slots())@
            },
    {
        if self.rest.len() == 0 {
            return None;
        }
        let mut rest: &'a mut [Option<T>] = &mut [];
        core::mem::swap(&mut self.rest, &mut rest);
        let (head, tail) = rest.split_at_mut(1);
        self.rest = tail;
        self.position = self.position + 1;
        let r = match head.first_mut() {
            Some(slot) => slot.as_mut(),
            None => None,
        };
        proof {
            assert(values_of(self.rest@) =~= values_of(old(self).rest@).drop_first());
        }
        r
    }

    /// Once a traversal is gone, the slots it had not handed out keep the
    /// values they held, and each still holds one.
    pub proof fn lemma_release(&self)
        requires
            self.wf(),
            has_resolved(*self),
        ensures
            final(self.slots())@ == self.slots()@,
            final(self.slots())@ == occupied_by(self.pending()),
            all_occupied(final(self.slots())@),
            values_of(final(self.slots())@) == self.pending(),
    {
        assert(self.slots()@ =~= occupied_by(self.pending()));
    }
}

} // verus!
