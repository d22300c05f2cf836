//! One worker: its number, the slot for its thread handle, and the loop
//! that it runs, written as one decision per message.

use vstd::prelude::*;
use crate::message::Message;

verus! {

/// What a worker does next.
pub enum Action<J> {
    /// Run this job to its end, then ask again.
    Run(J),
    /// Nothing waits on the channel: block until something is sent, then ask again.
    Wait,
    /// Leave the loop. The worker never asks again.
    Stop,
}

/// A worker as the contracts see it.
#[verifier::ext_equal]
pub struct WorkerView<H> {
    /// The worker's number, used only to tell workers apart.
    pub id: nat,
    /// Whether the worker is still in its loop.
    pub running: bool,
    /// The handle of the worker's thread, until it is taken to be joined.
    pub thread: Option<H>,
}

/// A worker of the pool. `H` is the handle by which its thread is joined.
pub struct Worker<H> {
    id: usize,
    running: bool,
    thread: Option<H>,
}

impl<H> View for Worker<H> {
    type V = WorkerView<H>;

    closed spec fn view(&self) -> WorkerView<H> {
        WorkerView { id: self.id as nat, running: self.running, thread: self.thread }
    }
}

/// What a running worker does with `message`.
pub open spec fn action_for<J>(message: Message<J>) -> Action<J> {
    match message {
        Message::NewJob(job) => Action::Run(job),
        Message::Terminate => Action::Stop,
    }
}

impl<H> Worker<H> {
    /// A worker in its loop, holding the handle of the thread that runs it.
    pub fn new(id: usize, thread: H) -> (worker: Self)
        ensures
            worker@ == (WorkerView { id: id as nat, running: true, thread: Some(thread) }),
    {
        Worker { id, running: true, thread: Some(thread) }
    }

    /// The worker's number.
    pub fn id(&self) -> (id: usize)
        ensures
            id == self@.id,
    {
        self.id
    }

    /// Whether the worker is still in its loop.
    pub fn is_running(&self) -> (b: bool)
        ensures
            b == self@.running,
    {
        self.running
    }

    /// Whether the handle of the worker's thread is still in its slot.
    pub fn has_thread(&self) -> (b: bool)
        ensures
            b == (self@.thread is Some),
    {
        self.thread.is_some()
    }

    /// One turn of the worker's loop: a job is handed over to be run and the
    /// worker stays in its loop; the stop signal ends the loop for good.
    pub fn on_message<J>(&mut self, message: Message<J>) -> (action: Action<J>)
        requires
            old(self)@.running,
        ensures
            action == action_for(message),
            final(self)@ == (WorkerView { running: message is NewJob, ..old(self)@ }),
    {
        match message {
            Message::NewJob(job) => Action::Run(job),
            Message::Terminate => {
                self.running = false;
                Action::Stop
            },
        }
    }

    /// Moves the thread's handle out of its slot, so that it can be joined.
    /// The slot is empty afterwards: a second call returns `None`.
    pub fn take_thread(&mut self) -> (thread: Option<H>)
        ensures
            thread == old(self)@.thread,
            final(self)@ == (WorkerView { thread: None, ..old(self)@ }),
    {
        self.thread.take()
    }
}

} // verus!
