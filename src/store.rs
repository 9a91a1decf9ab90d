use vstd::prelude::*;

use crate::cursor::{all_occupied, values_of, MutatingCursor};

verus! {

/// The value that a full store refused, handed back to the caller.
pub struct CapacityExceeded<T> {
    pub value: T,
}

/// What a store holds after `value` is pushed onto `contents`, with room for
/// `capacity` values in all.
pub open spec fn push_outcome<T>(contents: Seq<T>, capacity: nat, value: T) -> Seq<T> {
    if contents.len() < capacity {
        contents.push(value)
    } else {
        contents
    }
}

/// What a store holds after each of `values` is pushed in turn onto `contents`.
pub open spec fn push_all_outcome<T>(contents: Seq<T>, capacity: nat, values: Seq<T>) -> Seq<T>
    decreases values.len(),
{
    if values.len() == 0 {
        contents
    } else {
        push_all_outcome(push_outcome(contents, capacity, values[0]), capacity, values.drop_first())
    }
}

/// Pushing `values` one after another onto a store that holds `contents`
/// keeps `contents` in place and appends the values in order until the store
/// is full; every push after that is refused and changes nothing.
pub proof fn lemma_push_sequence<T>(contents: Seq<T>, capacity: nat, values: Seq<T>)
    requires
        contents.len() <= capacity,
    ensures
        push_all_outcome(contents, capacity, values) == (contents + values).take(
            if contents.len() + values.len() <= capacity {
                (contents.len() + values.len()) as int
            } else {
                capacity as int
            },
        ),
    decreases values.len(),
{
    if values.len() == 0 {
        assert((contents + values).take(contents.len() as int) =~= contents);
    } else {
        let next = push_outcome(contents, capacity, values[0]);
        lemma_push_sequence(next, capacity, values.drop_first());
        if contents.len() < capacity {
            assert(next + values.drop_first() =~= contents + values);
        } else {
            assert((contents + values).take(capacity as int) =~= contents);
            assert((next + values.drop_first()).take(capacity as int) =~= contents);
        }
    }
}

/// Relies on `std::array::from_fn`: element `i` of the array is what the
/// closure returns for `i`, here always `None`.
#[verifier::external_body]
fn vacant_slots<T, const N: usize>() -> (r: [Option<T>; N])
    ensures
        forall|i: int| 0 <= i < N ==> #[trigger] r@[i] is None,
{
    std::array::from_fn(|_i| None)
}

/// A store of at most `N` values of type `T`, kept inline in the store's own
/// memory.
///
/// Slots `0..len()` hold values; the others hold none. Values are only ever
/// added at the end.
pub struct InlineStore<T, const N: usize> {
    length: usize,
    slots: [Option<T>; N],
}

impl<T, const N: usize> View for InlineStore<T, N> {
    type V = Seq<T>;

    /// The stored values, by position.
    closed spec fn view(&self) -> Seq<T> {
        values_of(self.slots@.subrange(0, self.length as int))
    }
}

impl<T, const N: usize> InlineStore<T, N> {
    /// Occupancy is a prefix of the slots, no longer than the capacity.
    pub closed spec fn wf(&self) -> bool {
        &&& self.length <= N
        &&& forall|i: int| 0 <= i < N ==> (#[trigger] self.slots@[i] is Some <==> i < self.length)
    }

    /// A store with no values.
    pub fn new() -> (r: Self)
        ensures
            r.wf(),
            r@ == Seq::<T>::empty(),
    {
        let r = InlineStore { length: 0, slots: vacant_slots() };
        proof {
            assert(r@ =~= Seq::<T>::empty());
        }
        r
    }

    /// The number of values the store can hold.
    pub fn capacity(&self) -> (r: usize)
        ensures
            r == N,
    {
        N
    }

    /// The number of values the store holds.
    pub fn len(&self) -> (r: usize)
        requires
            self.wf(),
        ensures
            r == self@.len(),
            r <= N,
    {
        self.length
    }

    /// Stores `value` in the first free slot. A full store is left as it is
    /// and hands `value` back.
    pub fn push(&mut self, value: T) -> (r: Result<(), CapacityExceeded<T>>)
        requires
            old(self).wf(),
        ensures
            final(self).wf(),
            final(self)@ == push_outcome(old(self)@, N as nat, value),
            r is Ok <==> old(self)@.len() < N,
            r is Err ==> r->Err_0.value == value,
    {
        if self.length < N {
            self.slots[self.length] = Some(value);
            self.length = self.length + 1;
            proof {
                assert(self@ =~= old(self)@.push(value));
            }
            Ok(())
        } else {
            Err(CapacityExceeded { value })
        }
    }

    /// The value at `index`, if a value is stored there.
    pub fn resolve(&self, index: usize) -> (r: Option<&T>)
        requires
            self.wf(),
        ensures
            index < self@.len() ==> r == Some(&self@[index as int]),
            index >= self@.len() ==> r is None,
    {
        if index < self.length {
            self.slots[index].as_ref()
        } else {
            None
        }
    }

    /// Starts a traversal over the occupied slots. The traversal sees the
    /// values stored now, in position order.
    ///
    /// Once the traversal and its accessors are gone, the store holds what
    /// the traversal's slots hold then.
    pub fn cursor<'a>(&'a mut self) -> (r: MutatingCursor<'a, T>)
        requires
            old(self).wf(),
        ensures
            r.wf(),
            r.position() == 0,
            r.bound() == old(self)@.len(),
            r.pending() == old(self)@,
            final(self)@.len() == old(self)@.len(),
            final(r.slots())@.len() == old(self)@.len() && all_occupied(final(r.slots())@) ==> {
                &&& final(self).wf()
                &&& final(self)@ == values_of(final(r.slots())@)
            },
    {
        let len = self.length;
        let all: &mut [Option<T>] = &mut self.slots;
        let (front, _vacant) = all.split_at_mut(len);
        MutatingCursor::over(front)
    }

    /// Runs one full traversal and gathers its accessors, the one for
    /// position `i` at index `i`.
    ///
    /// The accessors may be used in any order: once they are gone, the value
    /// at each position is the last one left in that position's accessor.
    pub fn accessors<'a>(&'a mut self) -> (r: Vec<&'a mut T>)
        requires
            old(self).wf(),
        ensures
            r@.len() == old(self)@.len(),
            forall|i: int| 0 <= i < r@.len() ==> *(#[trigger] r@[i]) == old(self)@[i],
            final(self).wf(),
            final(self)@ == Seq::new(r@.len(), |i: int| *final(r@[i])),
    {
        let mut c = self.cursor();
        let ghost start = c.slots();
        let mut out: Vec<&'a mut T> = Vec::new();
        loop
            invariant
                c.wf(),
                c.bound() == old(self)@.len(),
                out@.len() == c.position(),
                c.position() + c.pending().len() == c.bound(),
                c.pending() == old(self)@.subrange(c.position() as int, c.bound() as int),
                forall|i: int| 0 <= i < out@.len() ==> *(#[trigger] out@[i]) == old(self)@[i],
                final(start)@ == Seq::new(out@.len(), |i: int| Some(*final(out@[i])))
                    + final(c.slots())@,
            ensures
                c.pending().len() == 0,
            decreases c.pending().len(),
        {
            match c.advance() {
                Some(a) => {
                    out.push(a);
                    proof {
                        assert(Seq::new(out@.len(), |i: int| Some(*final(out@[i]))) =~= Seq::new(
                            (out@.len() - 1) as nat,
                            |i: int| Some(*final(out@[i])),
                        ).push(Some(*final(out@[out@.len() - 1]))));
                    }
                },
                None => {
                    break ;
                },
            }
        }
        proof {
            c.lemma_release();
            let done = Seq::new(out@.len(), |i: int| Some(*final(out@[i])));
            assert(done + final(c.slots())@ =~= done);
            assert(values_of(done) =~= Seq::new(out@.len(), |i: int| *final(out@[i])));
        }
        out
    }
}

} // verus!
