//! The ready queue: a bounded FIFO of task ids, filled by wake handles and
//! drained by the executor.
//!
//! A wake may arrive while the same task is already queued; queueing it twice
//! would only make the executor poll it twice, so a duplicate wake is
//! coalesced.  A wake that finds the queue full is dropped: wakes are lossy
//! under overload by design, and the caller must size the queue for the
//! expected burst of concurrent wake sources.

use vstd::prelude::*;

verus! {

/// What became of one wake attempt.
#[derive(Clone, Copy, Debug, PartialEq, Eq, Structural)]
pub enum WakeOutcome {
    /// The task id was appended to the queue.
    Queued,
    /// The task id was already queued; the wake coalesced with the earlier one.
    AlreadyQueued,
    /// The queue was full; the wake was dropped.
    Dropped,
}

/// No task id occurs twice in `s`.
pub open spec fn distinct(s: Seq<usize>) -> bool {
    forall|i: int, j: int| 0 <= i < j < s.len() ==> s[i] != s[j]
}

/// The queue contents after one wake for `id`: coalesced if already present,
/// appended if there is room, dropped otherwise.
pub open spec fn wake_seq(s: Seq<usize>, cap: nat, id: usize) -> Seq<usize> {
    if s.contains(id) {
        s
    } else if s.len() < cap {
        s.push(id)
    } else {
        s
    }
}

/// A bounded multi-producer, single-consumer FIFO of task ids.
pub struct ReadyQueue {
    items: Vec<usize>,
    capacity: usize,
}

impl View for ReadyQueue {
    type V = Seq<usize>;

    closed spec fn view(&self) -> Seq<usize> {
        self.items@
    }
}

impl ReadyQueue {
    /// The capacity fixed at construction.
    pub closed spec fn cap(&self) -> nat {
        self.capacity as nat
    }

    /// The queue never exceeds its capacity and never holds a task id twice.
    pub open spec fn wf(&self) -> bool {
        self@.len() <= self.cap() && distinct(self@)
    }

    /// An empty queue of the given capacity.
    pub fn new(capacity: usize) -> (q: ReadyQueue)
        ensures
            q.wf(),
            q@ == Seq::<usize>::empty(),
            q.cap() == capacity,
    {
        ReadyQueue { items: Vec::new(), capacity }
    }

    /// How many task ids are queued.
    pub fn len(&self) -> (n: usize)
        ensures
            n == self@.len(),
    {
        self.items.len()
    }

    /// Whether no task id is queued.
    pub fn is_empty(&self) -> (r: bool)
        ensures
            r == (self@.len() == 0),
    {
        self.items.len() == 0
    }

    /// The capacity fixed at construction.
    pub fn capacity(&self) -> (n: usize)
        ensures
            n == self.cap(),
    {
        self.capacity
    }

    /// Whether `id` is currently queued.
    pub fn contains(&self, id: usize) -> (r: bool)
        ensures
            r == self@.contains(id),
    {
        let mut i: usize = 0;
        while i < self.items.len()
            invariant
                i <= self.items.len(),
                forall|k: int| 0 <= k < i ==> self.items@[k] != id,
            decreases self.items.len() - i,
        {
            if self.items[i] == id {
                return true;
            }
            i = i + 1;
        }
        false
    }

    /// Appends a task id that is not yet queued; reports whether there was room.
    pub fn push(&mut self, id: usize) -> (ok: bool)
        requires
            old(self).wf(),
            !old(self)@.contains(id),
        ensures
            final(self).wf(),
            final(self).cap() == old(self).cap(),
            ok == (old(self)@.len() < old(self).cap()),
            final(self)@ == if ok {
                old(self)@.push(id)
            } else {
                old(self)@
            },
    {
        if self.items.len() < self.capacity {
            self.items.push(id);
            true
        } else {
            false
        }
    }

    /// Removes and returns the oldest queued task id, if any.
    pub fn pop(&mut self) -> (r: Option<usize>)
        requires
            old(self).wf(),
        ensures
            final(self).wf(),
            final(self).cap() == old(self).cap(),
            old(self)@.len() == 0 ==> r is None && final(self)@ == old(self)@,
            old(self)@.len() > 0 ==> (r == Some(old(self)@[0]) && final(self)@ == old(
                self,
            )@.subrange(1, old(self)@.len() as int)),
    {
        if self.items.len() == 0 {
            None
        } else {
            let id = self.items.remove(0);
            Some(id)
        }
    }
}

} // verus!
