//! The two bounded rings of the runtime - task wakes and keyboard scancodes -
//! backed by crossbeam's fixed-capacity ring buffer.
//!
//! The ring itself is outside code; each call the runtime makes goes through
//! a trusted wrapper here whose contract states, over the ring's abstract
//! contents, what `crossbeam_queue::ArrayQueue`'s source shows for exclusive
//! (`&mut`) use: first-in first-out order, rejection when full, `None` when
//! empty.

use vstd::prelude::*;

use crossbeam_queue::ArrayQueue;

verus! {

#[verifier::external_type_specification]
#[verifier::external_body]
#[verifier::reject_recursive_types(T)]
pub struct ExArrayQueue<T>(ArrayQueue<T>);

/// The task ids a ready ring currently holds, oldest first.
pub uninterp spec fn task_queue_elems(q: ArrayQueue<u64>) -> Seq<u64>;

/// The capacity a ready ring was created with.
pub uninterp spec fn task_queue_capacity(q: ArrayQueue<u64>) -> nat;

/// The scancode bytes a scancode ring currently holds, oldest first.
pub uninterp spec fn scancode_queue_elems(q: ArrayQueue<u8>) -> Seq<u8>;

/// The capacity a scancode ring was created with.
pub uninterp spec fn scancode_queue_capacity(q: ArrayQueue<u8>) -> nat;

/// The executor's bounded ready ring of task ids, pushed by wakers and
/// drained by the poll loop.
pub struct TaskQueue {
    pub inner: ArrayQueue<u64>,
}

impl TaskQueue {
    pub open spec fn elems(&self) -> Seq<u64> {
        task_queue_elems(self.inner)
    }

    pub open spec fn capacity(&self) -> nat {
        task_queue_capacity(self.inner)
    }

    /// Relies on `ArrayQueue::new`: a fresh ring of the given capacity is
    /// empty. The ring panics on capacity zero or absurdly large capacities,
    /// so those stay out by contract.
    #[verifier::external_body]
    pub fn new(capacity: usize) -> (q: TaskQueue)
        requires
            0 < capacity <= 0x1000_0000,
        ensures
            task_queue_elems(q.inner) == Seq::<u64>::empty(),
            task_queue_capacity(q.inner) == capacity,
    {
        TaskQueue { inner: ArrayQueue::new(capacity) }
    }

    /// Relies on `ArrayQueue::push_mut`: appends at the tail and returns
    /// `Ok` unless the ring is full, in which case the value is handed back
    /// and nothing changes.
    #[verifier::external_body]
    pub fn push(&mut self, value: u64) -> (ok: bool)
        ensures
            task_queue_capacity(final(self).inner) == task_queue_capacity(old(self).inner),
            task_queue_elems(old(self).inner).len() < task_queue_capacity(old(self).inner) ==> ok && task_queue_elems(
                final(self).inner,
            ) == task_queue_elems(old(self).inner).push(value),
            task_queue_elems(old(self).inner).len() >= task_queue_capacity(old(self).inner) ==> !ok && task_queue_elems(
                final(self).inner,
            ) == task_queue_elems(old(self).inner),
    {
        self.inner.push_mut(value).is_ok()
    }

    /// Relies on `ArrayQueue::pop_mut`: removes and returns the oldest
    /// element, or `None` when the ring is empty.
    #[verifier::external_body]
    pub fn pop(&mut self) -> (r: Option<u64>)
        ensures
            task_queue_capacity(final(self).inner) == task_queue_capacity(old(self).inner),
            task_queue_elems(old(self).inner).len() > 0 ==> r == Some(task_queue_elems(old(self).inner).first())
                && task_queue_elems(final(self).inner) == task_queue_elems(old(self).inner).drop_first(),
            task_queue_elems(old(self).inner).len() == 0 ==> r is None && task_queue_elems(final(self).inner)
                == task_queue_elems(old(self).inner),
    {
        self.inner.pop_mut()
    }

    /// Relies on `ArrayQueue::is_empty`.
    #[verifier::external_body]
    pub fn is_empty(&self) -> (r: bool)
        ensures
            r <==> task_queue_elems(self.inner).len() == 0,
    {
        self.inner.is_empty()
    }

    /// Relies on `ArrayQueue::len`.
    #[verifier::external_body]
    pub fn len(&self) -> (n: usize)
        ensures
            n == task_queue_elems(self.inner).len(),
    {
        self.inner.len()
    }
}

/// The bounded ring carrying raw keyboard bytes from the interrupt handler
/// to the consuming task.
pub struct ScancodeQueue {
    pub inner: ArrayQueue<u8>,
}

impl ScancodeQueue {
    pub open spec fn elems(&self) -> Seq<u8> {
        scancode_queue_elems(self.inner)
    }

    pub open spec fn capacity(&self) -> nat {
        scancode_queue_capacity(self.inner)
    }

    /// Relies on `ArrayQueue::new`: a fresh ring of the given capacity is
    /// empty. The ring panics on capacity zero or absurdly large capacities,
    /// so those stay out by contract.
    #[verifier::external_body]
    pub fn new(capacity: usize) -> (q: ScancodeQueue)
        requires
            0 < capacity <= 0x1000_0000,
        ensures
            scancode_queue_elems(q.inner) == Seq::<u8>::empty(),
            scancode_queue_capacity(q.inner) == capacity,
    {
        ScancodeQueue { inner: ArrayQueue::new(capacity) }
    }

    /// Relies on `ArrayQueue::push_mut`: appends at the tail and returns
    /// `Ok` unless the ring is full, in which case the value is handed back
    /// and nothing changes.
    #[verifier::external_body]
    pub fn push(&mut self, value: u8) -> (ok: bool)
        ensures
            scancode_queue_capacity(final(self).inner) == scancode_queue_capacity(old(self).inner),
            scancode_queue_elems(old(self).inner).len() < scancode_queue_capacity(old(self).inner) ==> ok && scancode_queue_elems(
                final(self).inner,
            ) == scancode_queue_elems(old(self).inner).push(value),
            scancode_queue_elems(old(self).inner).len() >= scancode_queue_capacity(old(self).inner) ==> !ok && scancode_queue_elems(
                final(self).inner,
            ) == scancode_queue_elems(old(self).inner),
    {
        self.inner.push_mut(value).is_ok()
    }

    /// Relies on `ArrayQueue::pop_mut`: removes and returns the oldest
    /// element, or `None` when the ring is empty.
    #[verifier::external_body]
    pub fn pop(&mut self) -> (r: Option<u8>)
        ensures
            scancode_queue_capacity(final(self).inner) == scancode_queue_capacity(old(self).inner),
            scancode_queue_elems(old(self).inner).len() > 0 ==> r == Some(scancode_queue_elems(old(self).inner).first())
                && scancode_queue_elems(final(self).inner) == scancode_queue_elems(old(self).inner).drop_first(),
            scancode_queue_elems(old(self).inner).len() == 0 ==> r is None && scancode_queue_elems(final(self).inner)
                == scancode_queue_elems(old(self).inner),
    {
        self.inner.pop_mut()
    }

    /// Relies on `ArrayQueue::is_empty`.
    #[verifier::external_body]
    pub fn is_empty(&self) -> (r: bool)
        ensures
            r <==> scancode_queue_elems(self.inner).len() == 0,
    {
        self.inner.is_empty()
    }

    /// Relies on `ArrayQueue::len`.
    #[verifier::external_body]
    pub fn len(&self) -> (n: usize)
        ensures
            n == scancode_queue_elems(self.inner).len(),
    {
        self.inner.len()
    }
}

} // verus!
