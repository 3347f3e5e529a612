//! The process manager. It is deliberately a stub in this core: ids are
//! handed out and the kill protocol is named, but no process ever runs.
//! Everything it does promise is contracted exactly.

use vstd::prelude::*;

verus! {

/// How forcefully a process is asked to go away, from a polite request to
/// immediate termination.
#[derive(Debug, Clone, Copy, PartialEq, Eq, Structural)]
pub enum ProcessKillSignal {
    RequestClose,
    GracefulForcedClose,
    ForceClose,
    Terminate,
}

/// Why a kill attempt did not finish.
#[derive(Debug, Clone, Copy, PartialEq, Eq, Structural)]
pub enum ProcessKillError {
    RecuestRefused,
    NoGracefulCloseHandler,
    GracefulCloseHanderTimeout,
    ForceCloseTimeout,
}

/// One managed process: nothing but its id, so far.
#[derive(Debug, Clone)]
pub struct Process {
    id: usize,
}

impl Process {
    pub closed spec fn spec_id(&self) -> usize {
        self.id
    }

    pub fn new(id: usize) -> (p: Process)
        ensures
            p.spec_id() == id,
    {
        Process { id }
    }
}

/// Hands out process ids from a monotonic counter and keeps the (so far
/// never filled) run queue.
#[derive(Debug, Clone)]
pub struct ProcessManager {
    queue: Vec<Process>,
    current_id: usize,
}

/// What one pass over the run queue reports. No process ever runs yet, so
/// there is nothing to report.
#[derive(Debug, Clone)]
pub struct ProcessRunStatistics {
}

impl ProcessManager {
    pub closed spec fn spec_queue_len(&self) -> int {
        self.queue@.len() as int
    }

    pub closed spec fn spec_current_id(&self) -> usize {
        self.current_id
    }

    pub fn new() -> (m: ProcessManager)
        ensures
            m.spec_queue_len() == 0,
            m.spec_current_id() == 0,
    {
        ProcessManager { queue: Vec::new(), current_id: 0 }
    }

    /// Assigns the next id. The process itself is not yet enqueued
    /// anywhere: running processes is out of scope for this core.
    pub fn add_process(&mut self, process: Process) -> (id: usize)
        requires
            old(self).spec_current_id() < usize::MAX,
        ensures
            id == old(self).spec_current_id(),
            final(self).spec_current_id() == old(self).spec_current_id() + 1,
            final(self).spec_queue_len() == old(self).spec_queue_len(),
    {
        let _ = process;
        let id = self.current_id;
        self.current_id = self.current_id + 1;
        id
    }

    /// Delivers a kill signal. Only immediate termination is implemented;
    /// the gentler protocols are unwritten and stay out by contract.
    #[must_use]
    pub fn kill(&self, id: usize, signal: ProcessKillSignal) -> (r: Result<(), ProcessKillError>)
        requires
            signal == ProcessKillSignal::Terminate,
        ensures
            r == Ok::<(), ProcessKillError>(()),
    {
        let _ = id;
        match signal {
            ProcessKillSignal::Terminate => Ok(()),
            _ => Ok(()),
        }
    }

    /// One pass over the run queue. Nothing is enqueued yet, so nothing
    /// runs and no statistics come back.
    pub fn run(&mut self) -> (r: Option<ProcessRunStatistics>)
        ensures
            r is None,
            final(self).spec_queue_len() == old(self).spec_queue_len(),
            final(self).spec_current_id() == old(self).spec_current_id(),
    {
        None
    }
}

} // verus!
