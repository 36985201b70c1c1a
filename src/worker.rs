use vstd::prelude::*;

use crate::message::Message;

verus! {

/// Where a worker's loop stands. `Stopped` is final.
#[derive(PartialEq, Eq, Structural, Clone, Copy, Debug)]
pub enum WorkerState {
    Running,
    Stopped,
}

/// What a worker does with the message it has just received.
pub enum Step<J> {
    /// Run this job on the worker's own thread, then wait for the next message.
    Run(J),
    /// Leave the loop; the worker's thread returns.
    Exit,
}

/// The state after a running worker receives `m`.
pub open spec fn next_state<J>(m: Message<J>) -> WorkerState {
    match m {
        Message::NewJob(_) => WorkerState::Running,
        Message::Terminate => WorkerState::Stopped,
    }
}

/// One transition of a worker's loop: a running worker that receives a job runs
/// it and keeps running; one that receives the stop signal stops.
pub fn on_message<J>(state: WorkerState, m: Message<J>) -> (r: (WorkerState, Step<J>))
    requires
        state == WorkerState::Running,
    ensures
        r.0 == next_state(m),
        m is NewJob ==> r.1 == Step::Run(m->NewJob_0),
        m is Terminate ==> r.1 is Exit,
{
    match m {
        Message::NewJob(job) => (WorkerState::Running, Step::Run(job)),
        Message::Terminate => (WorkerState::Stopped, Step::Exit),
    }
}

/// One thread of the pool: its identity and, until shutdown takes it, the handle
/// by which its thread is joined.
pub struct Worker<H> {
    id: usize,
    thread: Option<H>,
}

impl<H> Worker<H> {
    /// The worker's identity.
    pub closed spec fn spec_id(&self) -> usize {
        self.id
    }

    /// The handle of the worker's thread, or `None` once it has been taken.
    pub closed spec fn spec_thread(&self) -> Option<H> {
        self.thread
    }

    /// A worker with identity `id` whose thread is `thread`.
    pub fn new(id: usize, thread: H) -> (r: Self)
        ensures
            r.spec_id() == id,
            r.spec_thread() == Some(thread),
    {
        Worker { id, thread: Some(thread) }
    }

    /// The worker's identity.
    pub fn id(&self) -> (r: usize)
        ensures
            r == self.spec_id(),
    {
        self.id
    }

    /// Whether the worker's handle is still there to be joined.
    pub fn is_joinable(&self) -> (r: bool)
        ensures
            r == (self.spec_thread() is Some),
    {
        self.thread.is_some()
    }

    /// Takes the handle out, leaving `None`: a handle is handed out at most once.
    pub fn take_thread(&mut self) -> (r: Option<H>)
        ensures
            r == old(self).spec_thread(),
            final(self).spec_thread() is None,
            final(self).spec_id() == old(self).spec_id(),
    {
        self.thread.take()
    }
}

} // verus!
