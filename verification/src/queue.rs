//! Bounded producer/consumer queue with drop-on-full backpressure.
//!
//! The real-time capture and output callbacks must never block or sleep, so
//! the queues between them and the network loop are fixed-capacity with
//! non-blocking `try` primitives: pushing to a full queue returns at once
//! and the item is simply not enqueued — the bound itself is the
//! backpressure mechanism. The session runtime places one such queue in
//! each direction between the audio callbacks and the network loop.

use vstd::prelude::*;

verus! {

use std::collections::VecDeque;

/// Capacity, in PCM blocks, of each queue between an audio callback and
/// the network loop.
pub const QUEUE_CAPACITY: usize = 4;

/// A fixed-capacity first-in first-out queue whose push drops instead of
/// blocking.
pub struct BoundedQueue<T> {
    items: VecDeque<T>,
    capacity: usize,
}

impl<T> View for BoundedQueue<T> {
    type V = Seq<T>;

    closed spec fn view(&self) -> Seq<T> {
        self.items@
    }
}

impl<T> BoundedQueue<T> {
    /// The queue never holds more items than its capacity.
    pub closed spec fn wf(&self) -> bool {
        self.items@.len() <= self.capacity
    }

    /// The fixed capacity bound, in items.
    pub closed spec fn spec_capacity(&self) -> usize {
        self.capacity
    }

    /// An empty queue with the given capacity bound.
    pub fn new(capacity: usize) -> (q: BoundedQueue<T>)
        ensures
            q@ == Seq::<T>::empty(),
            q.spec_capacity() == capacity,
            q.wf(),
    {
        BoundedQueue { items: VecDeque::new(), capacity }
    }

    /// How many items are queued now.
    pub fn len(&self) -> (n: usize)
        ensures
            n == self@.len(),
    {
        self.items.len()
    }

    /// The fixed capacity bound, in items.
    pub fn capacity(&self) -> (c: usize)
        ensures
            c == self.spec_capacity(),
    {
        self.capacity
    }

    /// Non-blocking push: when the queue is full the call returns at once
    /// with `false` and the item is not enqueued (it is dropped); otherwise
    /// the item joins the tail.
    pub fn try_push(&mut self, item: T) -> (accepted: bool)
        requires
            old(self).wf(),
        ensures
            final(self).wf(),
            final(self).spec_capacity() == old(self).spec_capacity(),
            accepted == (old(self)@.len() < old(self).spec_capacity()),
            accepted ==> final(self)@ == old(self)@.push(item),
            !accepted ==> final(self)@ == old(self)@,
    {
        if self.items.len() < self.capacity {
            self.items.push_back(item);
            true
        } else {
            false
        }
    }

    /// Non-blocking pop: the oldest item, or `None` at once when the queue
    /// is empty.
    pub fn try_pop(&mut self) -> (item: Option<T>)
        requires
            old(self).wf(),
        ensures
            final(self).wf(),
            final(self).spec_capacity() == old(self).spec_capacity(),
            old(self)@.len() == 0 ==> item is None && final(self)@ == old(self)@,
            old(self)@.len() > 0 ==> item == Some(old(self)@[0]) && final(self)@ == old(
                self,
            )@.skip(1),
    {
        let popped = self.items.pop_front();
        proof {
            if old(self)@.len() > 0 {
                assert(self.items@ =~= old(self)@.skip(1));
            }
        }
        popped
    }
}

} // verus!
