//! The cooperative single-threaded executor: a task map keyed by id, a
//! bounded ready ring of woken ids, and a cache of per-task wakers.
//!
//! A drain cycle pops ids until the ready ring is empty, polling each live
//! task once; an id whose task is gone is a harmless stale wake and is
//! dropped. A task that resolves is removed together with its cached waker.
//! The idle decision afterwards - halt exactly when nothing is ready - is
//! taken here; actually halting, with interrupts re-enabled atomically, is
//! the machine's business outside this crate.

use vstd::prelude::*;

use std::collections::BTreeMap;

use crate::constants::MAXIMUM_CONCURRENT_TASKS;
use crate::queue::TaskQueue;
use crate::task::Task;

verus! {

broadcast use {vstd::std_specs::btree::group_btree_axioms, vstd::laws_cmp::group_laws_cmp};

/// A wake handle for one task: a shared back-reference carrying the task id.
/// Waking pushes the id back into the ready ring.
pub struct TaskWaker {
    pub task_id: u64,
}

impl TaskWaker {
    pub fn new(task_id: u64) -> (w: TaskWaker)
        ensures
            w.task_id == task_id,
    {
        TaskWaker { task_id }
    }

    /// Re-queues this waker's task id. A full ready ring on a wake is fatal,
    /// so it stays out by contract.
    pub fn wake(&self, queue: &mut TaskQueue)
        requires
            old(queue).elems().len() < old(queue).capacity(),
        ensures
            final(queue).elems() == old(queue).elems().push(self.task_id),
            final(queue).capacity() == old(queue).capacity(),
    {
        let _ = queue.push(self.task_id);
    }
}

/// The task after one poll that left it pending.
pub open spec fn spec_decremented(t: Task) -> Task {
    Task { id: t.id, remaining_polls: (t.remaining_polls - 1) as u64 }
}

/// The task map after one drain cycle that pops the queued ids `q` in order:
/// a stale id is dropped, a task out of pending polls resolves and leaves
/// the map, and any other task is polled once and stays.
pub open spec fn spec_drain(tasks: Map<u64, Task>, q: Seq<u64>) -> Map<u64, Task>
    decreases q.len(),
{
    if q.len() == 0 {
        tasks
    } else {
        let id = q.first();
        if !tasks.contains_key(id) {
            spec_drain(tasks, q.drop_first())
        } else if tasks[id].remaining_polls == 0 {
            spec_drain(tasks.remove(id), q.drop_first())
        } else {
            spec_drain(tasks.insert(id, spec_decremented(tasks[id])), q.drop_first())
        }
    }
}

/// The waker cache after one drain cycle over the queued ids `q`: polling
/// a live task caches a waker for it unless one is already cached, and a
/// task that resolves loses its cached waker with it.
pub open spec fn spec_drain_wakers(
    tasks: Map<u64, Task>,
    wakers: Map<u64, TaskWaker>,
    q: Seq<u64>,
) -> Map<u64, TaskWaker>
    decreases q.len(),
{
    if q.len() == 0 {
        wakers
    } else {
        let id = q.first();
        if !tasks.contains_key(id) {
            spec_drain_wakers(tasks, wakers, q.drop_first())
        } else {
            let cached = if wakers.contains_key(id) {
                wakers
            } else {
                wakers.insert(id, TaskWaker { task_id: id })
            };
            if tasks[id].remaining_polls == 0 {
                spec_drain_wakers(tasks.remove(id), cached.remove(id), q.drop_first())
            } else {
                spec_drain_wakers(
                    tasks.insert(id, spec_decremented(tasks[id])),
                    cached,
                    q.drop_first(),
                )
            }
        }
    }
}

/// The cooperative scheduler around the ready ring. The ready ring is
/// public: it is the handle wakers and interrupt handlers push task ids
/// into, and a stale id in it is harmless by design.
pub struct Executor {
    tasks: BTreeMap<u64, Task>,
    pub task_queue: TaskQueue,
    waker_cache: BTreeMap<u64, TaskWaker>,
}

impl Executor {
    /// The live tasks, keyed by id.
    pub closed spec fn spec_tasks(&self) -> Map<u64, Task> {
        self.tasks@
    }

    /// The woken ids waiting to be polled, oldest first.
    pub closed spec fn ready(&self) -> Seq<u64> {
        self.task_queue.elems()
    }

    /// The fixed capacity of the ready ring.
    pub closed spec fn capacity(&self) -> nat {
        self.task_queue.capacity()
    }

    /// The cached wakers, keyed by task id.
    pub closed spec fn wakers(&self) -> Map<u64, TaskWaker> {
        self.waker_cache@
    }

    /// Every task sits under its own id, and every cached waker belongs to a
    /// live task and carries that task's id.
    pub open spec fn wf(&self) -> bool {
        &&& self.capacity() == MAXIMUM_CONCURRENT_TASKS
        &&& forall|id: u64|
            self.spec_tasks().contains_key(id) ==> (#[trigger] self.spec_tasks()[id]).id.value
                == id
        &&& forall|id: u64|
            #[trigger] self.wakers().contains_key(id) ==> self.spec_tasks().contains_key(id)
                && self.wakers()[id].task_id == id
    }

    pub fn new() -> (e: Executor)
        ensures
            e.wf(),
            e.spec_tasks() == Map::<u64, Task>::empty(),
            e.ready() == Seq::<u64>::empty(),
            e.wakers() == Map::<u64, TaskWaker>::empty(),
    {
        Executor {
            tasks: BTreeMap::new(),
            task_queue: TaskQueue::new(MAXIMUM_CONCURRENT_TASKS),
            waker_cache: BTreeMap::new(),
        }
    }

    /// Inserts the task under its id and marks it ready. A duplicate id or a
    /// full ready ring is fatal, so both stay out by contract.
    pub fn spawn(&mut self, task: Task)
        requires
            old(self).wf(),
            !old(self).spec_tasks().contains_key(task.id.value),
            old(self).ready().len() < old(self).capacity(),
        ensures
            final(self).wf(),
            final(self).spec_tasks() == old(self).spec_tasks().insert(task.id.value, task),
            final(self).ready() == old(self).ready().push(task.id.value),
            final(self).wakers() == old(self).wakers(),
            final(self).capacity() == old(self).capacity(),
    {
        let task_id = task.id.value;
        self.tasks.insert(task_id, task);
        let _ = self.task_queue.push(task_id);
        proof {
            assert forall|id: u64| self.spec_tasks().contains_key(id) implies (
            #[trigger] self.spec_tasks()[id]).id.value == id by {
                if id != task_id {
                    assert(old(self).spec_tasks().contains_key(id));
                }
            }
            assert forall|id: u64| #[trigger] self.wakers().contains_key(id) implies self
                .spec_tasks()
                .contains_key(id) && self.wakers()[id].task_id == id by {
                assert(old(self).wakers().contains_key(id));
            }
        }
    }

    /// One drain cycle: pops ids until the ready ring is empty, polling each
    /// live task once through its cached or freshly built waker, dropping
    /// stale ids, and removing each resolved task with its waker.
    pub fn run_ready_tasks(&mut self)
        requires
            old(self).wf(),
        ensures
            final(self).wf(),
            final(self).ready().len() == 0,
            final(self).spec_tasks() == spec_drain(old(self).spec_tasks(), old(self).ready()),
            final(self).wakers() == spec_drain_wakers(
                old(self).spec_tasks(),
                old(self).wakers(),
                old(self).ready(),
            ),
            final(self).capacity() == old(self).capacity(),
    {
        while !self.task_queue.is_empty()
            invariant
                self.wf(),
                self.capacity() == old(self).capacity(),
                spec_drain(self.spec_tasks(), self.ready()) == spec_drain(
                    old(self).spec_tasks(),
                    old(self).ready(),
                ),
                spec_drain_wakers(self.spec_tasks(), self.wakers(), self.ready())
                    == spec_drain_wakers(
                    old(self).spec_tasks(),
                    old(self).wakers(),
                    old(self).ready(),
                ),
            decreases self.ready().len(),
        {
            let ghost tasks0 = self.spec_tasks();
            let ghost ready0 = self.ready();
            let ghost wakers0 = self.wakers();
            let task_id = self.task_queue.pop().unwrap();
            // the task is taken out of the map for the poll, and put back
            // only if it stays pending
            let looked_up = self.tasks.remove(&task_id);
            match looked_up {
                None => {
                    // A wake for a task that already resolved: dropped.
                    proof {
                        assert(self.spec_tasks() =~= tasks0);
                        assert(self.wakers() == wakers0);
                        assert forall|id: u64|
                            #[trigger] self.wakers().contains_key(id) implies self
                            .spec_tasks()
                            .contains_key(id) && self.wakers()[id].task_id == id by {
                            assert(wakers0.contains_key(id));
                        }
                    }
                },
                Some(mut task) => {
                    if !self.waker_cache.contains_key(&task_id) {
                        self.waker_cache.insert(task_id, TaskWaker::new(task_id));
                    }
                    let ghost cached = self.wakers();
                    proof {
                        if wakers0.contains_key(task_id) {
                            assert(cached =~= wakers0);
                        } else {
                            assert(cached =~= wakers0.insert(
                                task_id,
                                TaskWaker { task_id: task_id },
                            ));
                        }
                    }
                    let done = task.poll();
                    if done {
                        self.waker_cache.remove(&task_id);
                        proof {
                            assert(self.spec_tasks() =~= tasks0.remove(task_id));
                            assert(self.wakers() =~= cached.remove(task_id));
                            assert forall|id: u64|
                                self.spec_tasks().contains_key(id) implies (
                            #[trigger] self.spec_tasks()[id]).id.value == id by {
                                assert(tasks0.contains_key(id));
                            }
                            assert forall|id: u64|
                                #[trigger] self.wakers().contains_key(id) implies self
                                .spec_tasks()
                                .contains_key(id) && self.wakers()[id].task_id == id by {
                                assert(id != task_id);
                            }
                        }
                    } else {
                        self.tasks.insert(task_id, task);
                        proof {
                            assert(task.id == tasks0[task_id].id);
                            assert(self.spec_tasks() =~= tasks0.insert(
                                task_id,
                                spec_decremented(tasks0[task_id]),
                            ));
                            assert forall|id: u64|
                                self.spec_tasks().contains_key(id) implies (
                            #[trigger] self.spec_tasks()[id]).id.value == id by {
                                if id != task_id {
                                    assert(tasks0.contains_key(id));
                                }
                            }
                            assert forall|id: u64|
                                #[trigger] self.wakers().contains_key(id) implies self
                                .spec_tasks()
                                .contains_key(id) && self.wakers()[id].task_id == id by {
                                if id != task_id {
                                    assert(wakers0.contains_key(id));
                                    assert(tasks0.contains_key(id));
                                }
                            }
                        }
                    }
                },
            }
        }
    }

    /// The idle decision of the run loop: halt exactly when nothing is
    /// ready. The caller must take this decision with interrupts disabled
    /// and halt through an atomic enable-and-halt, so that a wake arriving
    /// between the check and the halt is not lost.
    pub fn sleep_when_idle(&self) -> (halt: bool)
        ensures
            halt <==> self.ready().len() == 0,
    {
        self.task_queue.is_empty()
    }

    /// How many tasks are currently live.
    pub fn task_count(&self) -> (n: usize)
        ensures
            n == self.spec_tasks().len(),
    {
        self.tasks.len()
    }

    /// How many wakes are waiting in the ready ring.
    pub fn ready_count(&self) -> (n: usize)
        ensures
            n == self.ready().len(),
    {
        self.task_queue.len()
    }
}

/// The set of ids a wake queue holds.
pub open spec fn spec_queued_ids(q: Seq<u64>) -> Set<u64>
    decreases q.len(),
{
    if q.len() == 0 {
        Set::empty()
    } else {
        spec_queued_ids(q.drop_first()).insert(q.first())
    }
}

/// When every live task resolves on its first poll, one drain cycle removes
/// exactly the tasks whose ids were queued.
pub proof fn lemma_drain_removes_queued(tasks: Map<u64, Task>, q: Seq<u64>)
    requires
        forall|id: u64|
            tasks.contains_key(id) ==> (#[trigger] tasks[id]).remaining_polls == 0,
    ensures
        spec_drain(tasks, q).dom() == tasks.dom().difference(spec_queued_ids(q)),
    decreases q.len(),
{
    if q.len() == 0 {
        assert(tasks.dom().difference(spec_queued_ids(q)) =~= tasks.dom());
    } else {
        let id = q.first();
        let rest = q.drop_first();
        if !tasks.contains_key(id) {
            lemma_drain_removes_queued(tasks, rest);
            assert(tasks.dom().difference(spec_queued_ids(rest)) =~= tasks.dom().difference(
                spec_queued_ids(q),
            ));
        } else {
            lemma_drain_removes_queued(tasks.remove(id), rest);
            assert(tasks.remove(id).dom().difference(spec_queued_ids(rest)) =~= tasks
                .dom()
                .difference(spec_queued_ids(q)));
        }
    }
}

/// Tasks that all resolve on their first poll, each with its id somewhere in
/// the ready queue, leave the task map empty after one drain cycle; the
/// drain itself leaves the ready ring empty.
pub proof fn lemma_first_poll_tasks_drain_to_empty(tasks: Map<u64, Task>, q: Seq<u64>)
    requires
        forall|id: u64|
            tasks.contains_key(id) ==> (#[trigger] tasks[id]).remaining_polls == 0,
        forall|id: u64| tasks.contains_key(id) ==> spec_queued_ids(q).contains(id),
    ensures
        spec_drain(tasks, q) == Map::<u64, Task>::empty(),
{
    lemma_drain_removes_queued(tasks, q);
    assert(spec_drain(tasks, q).dom() =~= Set::<u64>::empty());
    assert(spec_drain(tasks, q) =~= Map::<u64, Task>::empty());
}

} // verus!
