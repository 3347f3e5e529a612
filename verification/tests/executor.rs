use hugo4os::executor::{Executor, TaskWaker};
use hugo4os::task::{Task, TaskIdCounter};

#[test]
fn first_poll_tasks_drain_to_empty() {
    let mut ids = TaskIdCounter::new();
    let mut ex = Executor::new();
    for _ in 0..3 {
        ex.spawn(Task::new(&mut ids, 0));
    }
    assert_eq!(ex.task_count(), 3);
    assert_eq!(ex.ready_count(), 3);
    ex.run_ready_tasks();
    assert_eq!(ex.task_count(), 0);
    assert_eq!(ex.ready_count(), 0);
    assert!(ex.sleep_when_idle());
}

#[test]
fn a_full_capacity_of_tasks_is_accepted() {
    let mut ids = TaskIdCounter::new();
    let mut ex = Executor::new();
    for _ in 0..100 {
        ex.spawn(Task::new(&mut ids, 0));
    }
    assert_eq!(ex.task_count(), 100);
    ex.run_ready_tasks();
    assert_eq!(ex.task_count(), 0);
}

#[test]
fn pending_task_stays_until_woken_enough() {
    let mut ids = TaskIdCounter::new();
    let mut ex = Executor::new();
    let task = Task::new(&mut ids, 2);
    let id = task.id.value;
    ex.spawn(task);
    ex.run_ready_tasks();
    // polled once, still pending, not re-queued by itself
    assert_eq!(ex.task_count(), 1);
    assert_eq!(ex.ready_count(), 0);
    assert!(ex.sleep_when_idle());
    TaskWaker::new(id).wake(&mut ex.task_queue);
    assert!(!ex.sleep_when_idle());
    ex.run_ready_tasks();
    assert_eq!(ex.task_count(), 1);
    TaskWaker::new(id).wake(&mut ex.task_queue);
    ex.run_ready_tasks();
    assert_eq!(ex.task_count(), 0);
}

#[test]
fn stale_wake_is_dropped_silently() {
    let mut ids = TaskIdCounter::new();
    let mut ex = Executor::new();
    let task = Task::new(&mut ids, 0);
    let id = task.id.value;
    ex.spawn(task);
    ex.run_ready_tasks();
    assert_eq!(ex.task_count(), 0);
    // the task is gone; a late wake of its id must be harmless
    TaskWaker::new(id).wake(&mut ex.task_queue);
    assert_eq!(ex.ready_count(), 1);
    ex.run_ready_tasks();
    assert_eq!(ex.task_count(), 0);
    assert_eq!(ex.ready_count(), 0);
}

#[test]
fn duplicate_wake_causes_benign_extra_poll() {
    let mut ids = TaskIdCounter::new();
    let mut ex = Executor::new();
    let task = Task::new(&mut ids, 1);
    let id = task.id.value;
    ex.spawn(task);
    // a second wake before the poll: the id sits in the ring twice
    TaskWaker::new(id).wake(&mut ex.task_queue);
    assert_eq!(ex.ready_count(), 2);
    ex.run_ready_tasks();
    // both wakes were consumed; the task was polled twice and resolved
    assert_eq!(ex.task_count(), 0);
    assert_eq!(ex.ready_count(), 0);
}

#[test]
fn task_ids_are_monotonic() {
    let mut ids = TaskIdCounter::new();
    let a = Task::new(&mut ids, 0);
    let b = Task::new(&mut ids, 0);
    let c = Task::new(&mut ids, 5);
    assert_eq!(a.id.value, 0);
    assert_eq!(b.id.value, 1);
    assert_eq!(c.id.value, 2);
    assert_eq!(c.remaining_polls, 5);
}

#[test]
fn idle_decision_follows_ready_ring() {
    let mut ids = TaskIdCounter::new();
    let mut ex = Executor::new();
    assert!(ex.sleep_when_idle());
    ex.spawn(Task::new(&mut ids, 0));
    assert!(!ex.sleep_when_idle());
    ex.run_ready_tasks();
    assert!(ex.sleep_when_idle());
}
