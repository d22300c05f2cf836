//! The pool: a fixed set of workers and the channel that feeds them.

use vstd::prelude::*;
use crate::channel::ControlChannel;
use crate::message::Message;
use crate::model::{
    lemma_close_wf, lemma_deliver_wf, lemma_init_wf, lemma_submit_wf, live_count, stop_signals,
    PoolView,
};
use crate::worker::{action_for, Action, Worker, WorkerView};

verus! {

/// A pool of workers. `J` is a job, `H` the handle by which a worker's thread
/// is joined; the pool moves both and looks into neither.
pub struct ThreadPool<J, H> {
    workers: Vec<Worker<H>>,
    channel: ControlChannel<J>,
    closing: bool,
    submitted: Ghost<Seq<J>>,
    dispatched: Ghost<Seq<J>>,
}

impl<J, H> View for ThreadPool<J, H> {
    type V = PoolView<J, H>;

    closed spec fn view(&self) -> PoolView<J, H> {
        PoolView {
            workers: self.workers@.map_values(|w: Worker<H>| w@),
            queue: self.channel@,
            closing: self.closing,
            submitted: self.submitted@,
            dispatched: self.dispatched@,
        }
    }
}

impl<J, H> ThreadPool<J, H> {
    /// A pool of `size` workers, numbered from zero in the order of `threads`,
    /// each in its loop and holding the handle of its thread. Nothing has been
    /// sent yet. There is no pool without workers.
    pub fn new(size: usize, threads: Vec<H>) -> (pool: Self)
        requires
            size > 0,
            threads@.len() == size,
        ensures
            pool@ == PoolView::<J, H>::init(threads@),
            pool@.wf(),
            pool@.size() == size,
            pool@.live() == size,
    {
        let ghost handles = threads@;
        let mut workers: Vec<Worker<H>> = Vec::with_capacity(size);
        for thread in it: threads.into_iter()
            invariant
                it.seq() == handles,
                workers@.len() == it.index(),
                forall|i: int|
                    0 <= i < workers@.len() ==> (#[trigger] workers@[i])@ == (WorkerView {
                        id: i as nat,
                        running: true,
                        thread: Some(handles[i]),
                    }),
        {
            let id = workers.len();
            workers.push(Worker::new(id, thread));
        }
        let pool = ThreadPool {
            workers,
            channel: ControlChannel::new(),
            closing: false,
            submitted: Ghost(Seq::empty()),
            dispatched: Ghost(Seq::empty()),
        };
        proof {
            lemma_init_wf::<J, H>(handles);
        }
        pool
    }

    /// As `new`, for a caller that has not checked its arguments: `None` where
    /// `size` is zero or is not the number of `threads`.
    pub fn try_new(size: usize, threads: Vec<H>) -> (pool: Option<Self>)
        ensures
            pool is Some <==> size > 0 && threads@.len() == size,
            pool matches Some(p) ==> p@ == PoolView::<J, H>::init(threads@) && p@.wf(),
    {
        if size == 0 || threads.len() != size {
            None
        } else {
            Some(ThreadPool::new(size, threads))
        }
    }

    /// Sends `job` to the workers. It waits on the channel behind everything
    /// submitted before it when this returns; when it runs is up to the workers.
    pub fn execute(&mut self, job: J)
        requires
            old(self)@.wf(),
            !old(self)@.closing,
        ensures
            final(self)@ == old(self)@.submit(job),
            final(self)@.wf(),
    {
        let ghost sent = job;
        self.channel.send(Message::NewJob(job));
        self.submitted = Ghost(self.submitted@.push(sent));
        proof {
            lemma_submit_wf(old(self)@, sent);
        }
    }

    /// One turn of a worker's loop. The worker with index `worker` is given
    /// the oldest message: a job to run, or the stop signal, after which it
    /// never asks again. Where nothing waits the worker is told to wait and
    /// the pool is unchanged.
    pub fn next_action(&mut self, worker: usize) -> (action: Action<J>)
        requires
            old(self)@.wf(),
            worker < old(self)@.size(),
            old(self)@.workers[worker as int].running,
        ensures
            old(self)@.queue.len() == 0 ==> action is Wait && final(self)@ == old(self)@,
            old(self)@.queue.len() > 0 ==> action == action_for(old(self)@.queue[0])
                && final(self)@ == old(self)@.deliver(worker as nat),
            final(self)@.wf(),
    {
        match self.channel.receive() {
            None => Action::Wait,
            Some(message) => {
                let ghost given = message;
                let action = self.workers[worker].on_message(message);
                self.dispatched = Ghost(
                    match given {
                        Message::NewJob(job) => self.dispatched@.push(job),
                        Message::Terminate => self.dispatched@,
                    },
                );
                proof {
                    lemma_deliver_wf(old(self)@, worker as nat);
                }
                action
            },
        }
    }

    /// Begins shutdown. One stop signal per worker is sent behind every job
    /// submitted so far, so each worker takes exactly one once the jobs before
    /// it are handed out. Then each worker's handle is moved out of its slot.
    /// The handles come back in the order of the workers, to be joined one
    /// after the other.
    pub fn shutdown(&mut self) -> (threads: Vec<H>)
        requires
            old(self)@.wf(),
            !old(self)@.closing,
        ensures
            final(self)@ == old(self)@.close(),
            final(self)@.wf(),
            threads@.len() == old(self)@.size(),
            forall|i: int|
                0 <= i < threads@.len() ==> (#[trigger] old(self)@.workers[i]).thread == Some(
                    threads@[i],
                ),
    {
        let size = self.workers.len();
        let mut sent: usize = 0;
        while sent < size
            invariant
                sent <= size,
                size == self.workers@.len(),
                self.workers@ == old(self).workers@,
                self.closing == old(self).closing,
                self.submitted@ == old(self).submitted@,
                self.dispatched@ == old(self).dispatched@,
                self.channel@ == old(self).channel@ + stop_signals::<J>(sent as nat),
            decreases size - sent,
        {
            self.channel.send(Message::Terminate);
            sent += 1;
        }
        self.closing = true;
        let mut threads: Vec<H> = Vec::with_capacity(size);
        let mut next: usize = 0;
        while next < size
            invariant
                next <= size,
                size == self.workers@.len(),
                size == old(self).workers@.len(),
                old(self)@.wf(),
                !old(self)@.closing,
                self.closing,
                self.submitted@ == old(self).submitted@,
                self.dispatched@ == old(self).dispatched@,
                self.channel@ == old(self).channel@ + stop_signals::<J>(size as nat),
                threads@.len() == next,
                forall|i: int|
                    0 <= i < next ==> (#[trigger] self.workers@[i])@ == (WorkerView {
                        thread: None,
                        ..old(self).workers@[i]@
                    }) && old(self).workers@[i]@.thread == Some(threads@[i]),
                forall|i: int|
                    next <= i < size ==> (#[trigger] self.workers@[i]) == old(self).workers@[i],
            decreases size - next,
        {
            proof {
                assert(old(self)@.workers[next as int].thread is Some);
            }
            if let Some(thread) = self.workers[next].take_thread() {
                threads.push(thread);
            }
            next += 1;
        }
        proof {
            lemma_close_wf(old(self)@);
            let before = old(self)@;
            assert forall|i: int| 0 <= i < threads@.len() implies (#[trigger] before.workers[i]).thread
                == Some(threads@[i]) by {
                assert(self.workers@[i]@.thread is None);
            }
        }
        threads
    }

    /// The number of workers, fixed at construction.
    pub fn size(&self) -> (n: usize)
        ensures
            n == self@.size(),
    {
        self.workers.len()
    }

    /// The number of messages that wait on the channel.
    pub fn pending(&self) -> (n: usize)
        ensures
            n == self@.queue.len(),
    {
        self.channel.len()
    }

    /// Whether shutdown has begun.
    pub fn is_shutting_down(&self) -> (b: bool)
        ensures
            b == self@.closing,
    {
        self.closing
    }

    /// Whether there is a worker with index `worker` that is still in its loop.
    pub fn is_running(&self, worker: usize) -> (b: bool)
        ensures
            b == (worker < self@.size() && self@.workers[worker as int].running),
    {
        worker < self.workers.len() && self.workers[worker].is_running()
    }

    /// The number of workers that are still in their loop.
    pub fn live_workers(&self) -> (n: usize)
        ensures
            n == self@.live(),
    {
        let mut n: usize = 0;
        let mut i: usize = 0;
        while i < self.workers.len()
            invariant
                i <= self.workers@.len(),
                n <= i,
                n == live_count(self@.workers.subrange(0, i as int)),
            decreases self.workers@.len() - i,
        {
            proof {
                assert(self@.workers.subrange(0, i + 1).drop_last() =~= self@.workers.subrange(
                    0,
                    i as int,
                ));
            }
            if self.workers[i].is_running() {
                n += 1;
            }
            i += 1;
        }
        proof {
            assert(self@.workers.subrange(0, i as int) =~= self@.workers);
        }
        n
    }

    /// Whether shutdown has begun and every worker has left its loop.
    pub fn is_terminated(&self) -> (b: bool)
        ensures
            b == self@.terminated(),
    {
        self.closing && self.live_workers() == 0
    }
}

} // verus!
