//! Bounded relay queues.
//!
//! A relay queue is the holding area that decouples a producer execution
//! context (an interrupt handler or a radio-stack callback) from a
//! consumer (the polling main loop). It has a fixed capacity, keeps
//! items in push order, and never blocks: a push onto a full queue fails
//! and leaves the contents untouched. A consumer that could not act on a
//! popped item puts it back at the front, so it is retried before
//! anything queued after it.

use vstd::prelude::*;

use crate::commands::Commands;

verus! {

/// Why a queue operation was refused.
#[derive(Clone, Copy, Debug, PartialEq, Eq, Structural)]
pub enum QueueError {
    /// The queue already holds `capacity` items; the new item was
    /// dropped and the contents are unchanged.
    Full,
}

/// A fixed-capacity, insertion-ordered queue of commands.
///
/// The abstract value (the view) is the sequence of queued commands,
/// oldest first: pushes append at the back, pops take the front.
pub struct RelayQueue {
    items: Vec<Commands>,
    cap: usize,
}

impl View for RelayQueue {
    type V = Seq<Commands>;

    closed spec fn view(&self) -> Seq<Commands> {
        self.items@
    }
}

impl RelayQueue {
    /// The fixed capacity the queue was created with.
    pub closed spec fn capacity(self) -> nat {
        self.cap as nat
    }

    /// Internal well-formedness: never over capacity, and every queued
    /// command can be encoded (its payload fits a frame).
    pub closed spec fn wf(self) -> bool {
        self@.len() <= self.capacity() && forall|i: int|
            0 <= i < self@.len() ==> (#[trigger] self@[i]).wf()
    }

    /// An empty queue of the given capacity.
    pub fn new(capacity: usize) -> (r: Self)
        ensures
            r@ == Seq::<Commands>::empty(),
            r.capacity() == capacity,
            r.wf(),
    {
        RelayQueue { items: Vec::new(), cap: capacity }
    }

    pub fn len(&self) -> (r: usize)
        ensures
            r == self@.len(),
    {
        self.items.len()
    }

    pub fn is_empty(&self) -> (r: bool)
        ensures
            r == (self@.len() == 0),
    {
        self.items.len() == 0
    }

    /// Append a command at the back. On a full queue this fails without
    /// blocking and without touching the queued items.
    pub fn push(&mut self, c: Commands) -> (r: Result<(), QueueError>)
        requires
            old(self).wf(),
            c.wf(),
        ensures
            final(self).wf(),
            final(self).capacity() == old(self).capacity(),
            match r {
                Ok(()) => old(self)@.len() < old(self).capacity() && final(self)@ == old(
                    self,
                )@.push(c),
                Err(QueueError::Full) => old(self)@.len() == old(self).capacity() && final(self)@
                    == old(self)@,
            },
    {
        if self.items.len() < self.cap {
            self.items.push(c);
            Ok(())
        } else {
            Err(QueueError::Full)
        }
    }

    /// Put a command back at the front, where the next pop finds it.
    /// This is the retry path of the bridge: a command whose transport
    /// write failed is retried before anything queued after it.
    pub fn push_front(&mut self, c: Commands) -> (r: Result<(), QueueError>)
        requires
            old(self).wf(),
            c.wf(),
        ensures
            final(self).wf(),
            final(self).capacity() == old(self).capacity(),
            match r {
                Ok(()) => old(self)@.len() < old(self).capacity() && final(self)@ == old(
                    self,
                )@.insert(0, c),
                Err(QueueError::Full) => old(self)@.len() == old(self).capacity() && final(self)@
                    == old(self)@,
            },
    {
        if self.items.len() < self.cap {
            self.items.insert(0, c);
            Ok(())
        } else {
            Err(QueueError::Full)
        }
    }

    /// Take the oldest queued command, if any.
    pub fn pop(&mut self) -> (r: Option<Commands>)
        requires
            old(self).wf(),
        ensures
            final(self).wf(),
            final(self).capacity() == old(self).capacity(),
            match r {
                Some(c) => old(self)@.len() > 0 && c == old(self)@[0] && c.wf() && final(self)@
                    == old(self)@.drop_first(),
                None => old(self)@.len() == 0 && final(self)@ == old(self)@,
            },
    {
        if self.items.len() == 0 {
            None
        } else {
            let c = self.items.remove(0);
            proof {
                assert(self.items@ =~= old(self)@.drop_first());
            }
            Some(c)
        }
    }
}

/// Items leave in push order: a queue whose view is `v` (for instance
/// after pushing the items of `v` one by one into an empty queue, each
/// push appending exactly one item at the back) yields `v[j]` on its
/// `j`-th pop counted from zero, since each pop returns the head of the
/// view and leaves one more item skipped.
pub proof fn lemma_pop_order(v: Seq<Commands>, j: int)
    requires
        0 <= j < v.len(),
    ensures
        v.skip(j)[0] == v[j],
        v.skip(j).drop_first() =~= v.skip(j + 1),
{
}

/// A popped command that is pushed back at the front restores the queue
/// to exactly its state before the pop, so the next pop yields the same
/// command again, still ahead of everything queued after it.
pub proof fn lemma_requeue_front(v: Seq<Commands>)
    requires
        v.len() > 0,
    ensures
        v.drop_first().insert(0, v[0]) =~= v,
{
}

} // verus!
