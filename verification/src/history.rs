//! A fixed-capacity buffer that keeps the most recent items, newest first.

use std::collections::VecDeque;
use vstd::prelude::*;

verus! {

/// Stores at most `capacity` items in newest-first order. Pushing prepends;
/// once the buffer is full, each push evicts the oldest item at the back.
pub struct RingBuffer<T> {
    items: VecDeque<T>,
    capacity: usize,
}

impl<T> View for RingBuffer<T> {
    type V = Seq<T>;

    closed spec fn view(&self) -> Seq<T> {
        self.items@
    }
}

impl<T> RingBuffer<T> {
    pub closed spec fn spec_capacity(&self) -> nat {
        self.capacity as nat
    }

    pub open spec fn wf(&self) -> bool {
        &&& self.spec_capacity() >= 1
        &&& self@.len() <= self.spec_capacity()
    }

    /// What one push leaves of a buffer of capacity `cap` that held `s`.
    pub open spec fn spec_push(s: Seq<T>, cap: nat, item: T) -> Seq<T> {
        if s.len() < cap {
            seq![item] + s
        } else {
            seq![item] + s.drop_last()
        }
    }

    /// What remains after pushing `items` in order into an empty buffer of
    /// capacity `cap`.
    pub open spec fn spec_push_all(cap: nat, items: Seq<T>) -> Seq<T>
        decreases items.len(),
    {
        if items.len() == 0 {
            Seq::<T>::empty()
        } else {
            Self::spec_push(Self::spec_push_all(cap, items.drop_last()), cap, items.last())
        }
    }

    pub fn new(capacity: usize) -> (r: Self)
        requires
            capacity >= 1,
        ensures
            r.wf(),
            r@ == Seq::<T>::empty(),
            r.spec_capacity() == capacity,
    {
        RingBuffer { items: VecDeque::with_capacity(capacity), capacity }
    }

    pub fn len(&self) -> (n: usize)
        ensures
            n == self@.len(),
    {
        self.items.len()
    }

    pub fn capacity(&self) -> (n: usize)
        ensures
            n == self.spec_capacity(),
    {
        self.capacity
    }

    pub fn push(&mut self, item: T)
        requires
            old(self).wf(),
        ensures
            final(self).wf(),
            final(self).spec_capacity() == old(self).spec_capacity(),
            final(self)@ == Self::spec_push(old(self)@, old(self).spec_capacity(), item),
            final(self)@[0] == item,
            final(self)@.len() == if old(self)@.len() < old(self).spec_capacity() {
                old(self)@.len() + 1
            } else {
                old(self)@.len() as nat
            },
    {
        if self.items.len() == self.capacity {
            self.items.pop_back();
            self.items.push_front(item);
            proof {
                assert(self@ =~= Self::spec_push(old(self)@, old(self).spec_capacity(), item));
            }
        } else {
            self.items.push_front(item);
        }
    }

    pub fn get(&self, i: usize) -> (r: &T)
        requires
            i < self@.len(),
        ensures
            *r == self@[i as int],
    {
        &self.items[i]
    }

    /// The buffer's length is the number of pushes, capped at the capacity,
    /// and its first item is always the one pushed last.
    pub proof fn lemma_push_all(cap: nat, items: Seq<T>)
        requires
            cap >= 1,
        ensures
            Self::spec_push_all(cap, items).len() == if items.len() < cap {
                items.len() as int
            } else {
                cap as int
            },
            items.len() > 0 ==> Self::spec_push_all(cap, items)[0] == items.last(),
        decreases items.len(),
    {
        if items.len() > 0 {
            Self::lemma_push_all(cap, items.drop_last());
        }
    }
}

} // verus!
