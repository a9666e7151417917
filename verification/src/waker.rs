//! The waker bridge: a per-task wake handle that marks its task runnable.
//!
//! A handle closes over the id of the task it belongs to.  Invoking it
//! enqueues that id into the executor's ready queue; it is safe to invoke
//! from the interrupt path or from any task, any number of times, because a
//! duplicate wake coalesces and a dropped wake (full queue) only delays the
//! task until the next successful wake.

use vstd::prelude::*;

use crate::queue::{ReadyQueue, WakeOutcome, wake_seq};

verus! {

/// A wake handle for one task.
#[derive(Clone, Copy, Debug, PartialEq, Eq, Structural)]
pub struct WakeHandle {
    /// The id of the task this handle wakes.
    pub task: usize,
}

impl WakeHandle {
    /// A handle that wakes the task with the given id.
    pub fn new(task: usize) -> (h: WakeHandle)
        ensures
            h.task == task,
    {
        WakeHandle { task }
    }

    /// Marks the task runnable: enqueues its id unless it is already queued
    /// (the wake coalesces) or the queue is full (the wake is dropped).
    pub fn wake(&self, rq: &mut ReadyQueue) -> (r: WakeOutcome)
        requires
            old(rq).wf(),
        ensures
            final(rq).wf(),
            final(rq).cap() == old(rq).cap(),
            final(rq)@ == wake_seq(old(rq)@, old(rq).cap(), self.task),
            r is AlreadyQueued <==> old(rq)@.contains(self.task),
            r is Queued <==> !old(rq)@.contains(self.task) && old(rq)@.len() < old(rq).cap(),
            r is Dropped <==> !old(rq)@.contains(self.task) && old(rq)@.len() >= old(rq).cap(),
    {
        if rq.contains(self.task) {
            WakeOutcome::AlreadyQueued
        } else if rq.push(self.task) {
            WakeOutcome::Queued
        } else {
            WakeOutcome::Dropped
        }
    }
}

} // verus!
