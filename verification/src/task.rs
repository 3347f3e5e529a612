//! Tasks of the cooperative scheduler: a task is a unit of work identified by
//! a monotonically assigned id, polled until it reports completion.
//!
//! The work a real task performs lives in unverifiable code outside this
//! crate; here a task carries its observable polling behaviour - how many
//! polls it still answers with "pending" before resolving - which is all the
//! executor's bookkeeping depends on.

use vstd::prelude::*;

verus! {

/// Identifier of one task. No two live tasks share an id.
#[derive(Debug, Clone, Copy, PartialEq, Eq, Structural)]
pub struct TaskId {
    pub value: u64,
}

/// The monotonic counter behind task ids, owned explicitly instead of
/// sitting in a process-wide static.
pub struct TaskIdCounter {
    next: u64,
}

impl TaskIdCounter {
    pub closed spec fn next_id(&self) -> u64 {
        self.next
    }

    pub fn new() -> (c: TaskIdCounter)
        ensures
            c.next_id() == 0,
    {
        TaskIdCounter { next: 0 }
    }
}

impl TaskId {
    /// Draws the next id. Ids never repeat, so every id handed out is below
    /// the counter's current value.
    pub fn new(counter: &mut TaskIdCounter) -> (id: TaskId)
        requires
            old(counter).next_id() < u64::MAX,
        ensures
            id.value == old(counter).next_id(),
            final(counter).next_id() == old(counter).next_id() + 1,
    {
        let value = counter.next;
        counter.next = counter.next + 1;
        TaskId { value }
    }
}

/// One schedulable unit: its id and its remaining polling behaviour. A task
/// with `remaining_polls == 0` resolves at its next poll; any other task
/// reports pending and moves one poll closer to resolving. A task only ends
/// by resolving - there is no cancellation.
pub struct Task {
    pub id: TaskId,
    pub remaining_polls: u64,
}

impl Task {
    /// Wraps a unit of work that will resolve after `polls_until_ready`
    /// pending polls, under a freshly drawn id.
    pub fn new(counter: &mut TaskIdCounter, polls_until_ready: u64) -> (t: Task)
        requires
            old(counter).next_id() < u64::MAX,
        ensures
            t.id.value == old(counter).next_id(),
            t.remaining_polls == polls_until_ready,
            final(counter).next_id() == old(counter).next_id() + 1,
    {
        Task { id: TaskId::new(counter), remaining_polls: polls_until_ready }
    }

    /// One poll: resolves exactly when no pending polls remain, and
    /// otherwise consumes one.
    pub fn poll(&mut self) -> (done: bool)
        ensures
            done <==> old(self).remaining_polls == 0,
            final(self).id == old(self).id,
            done ==> *final(self) == *old(self),
            !done ==> final(self).remaining_polls == old(self).remaining_polls - 1,
    {
        if self.remaining_polls == 0 {
            true
        } else {
            self.remaining_polls = self.remaining_polls - 1;
            false
        }
    }
}

} // verus!
