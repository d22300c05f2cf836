//! The pool as a state machine over plain values.
//!
//! A state holds the workers, the messages that wait on the control channel,
//! whether shutdown has begun, and two histories: the jobs submitted so far and
//! the jobs handed to a worker so far, each in order. Three transitions move it:
//! a job is submitted, a running worker is given the oldest message, shutdown
//! begins. The executable pool refines this machine step by step, so what is
//! proved here of every state that the machine can reach holds of the pool
//! under every schedule of its workers.

use vstd::prelude::*;
use crate::message::Message;
use crate::worker::WorkerView;

verus! {

/// A pool as the contracts see it.
#[verifier::ext_equal]
pub struct PoolView<J, H> {
    /// The workers, in the order in which they are joined.
    pub workers: Seq<WorkerView<H>>,
    /// The messages that wait on the control channel, oldest first.
    pub queue: Seq<Message<J>>,
    /// Whether shutdown has begun.
    pub closing: bool,
    /// Every job submitted so far, in the order of submission.
    pub submitted: Seq<J>,
    /// Every job handed to a worker so far, in the order of handing over.
    pub dispatched: Seq<J>,
}

/// One step of the machine.
pub enum Event<J> {
    /// The caller submits a job.
    Submit(J),
    /// The worker with this index is given the oldest message.
    Deliver(nat),
    /// Shutdown begins.
    Close,
}

/// The number of workers that are still in their loop.
pub open spec fn live_count<H>(workers: Seq<WorkerView<H>>) -> nat
    decreases workers.len(),
{
    if workers.len() == 0 {
        0
    } else {
        live_count(workers.drop_last()) + if workers.last().running {
            1nat
        } else {
            0nat
        }
    }
}

/// The jobs among `queue`, in order.
pub open spec fn jobs_in<J>(queue: Seq<Message<J>>) -> Seq<J>
    decreases queue.len(),
{
    if queue.len() == 0 {
        Seq::empty()
    } else {
        match queue.last() {
            Message::NewJob(job) => jobs_in(queue.drop_last()).push(job),
            Message::Terminate => jobs_in(queue.drop_last()),
        }
    }
}

/// The number of stop signals among `queue`.
pub open spec fn signals_in<J>(queue: Seq<Message<J>>) -> nat
    decreases queue.len(),
{
    if queue.len() == 0 {
        0
    } else {
        signals_in(queue.drop_last()) + if queue.last() is Terminate {
            1nat
        } else {
            0nat
        }
    }
}

/// `count` stop signals in a row.
pub open spec fn stop_signals<J>(count: nat) -> Seq<Message<J>> {
    Seq::new(count, |i: int| Message::Terminate)
}

/// The jobs that the `Submit` events of `events` carry, in order.
pub open spec fn submissions<J>(events: Seq<Event<J>>) -> Seq<J>
    decreases events.len(),
{
    if events.len() == 0 {
        Seq::empty()
    } else {
        match events.last() {
            Event::Submit(job) => submissions(events.drop_last()).push(job),
            _ => submissions(events.drop_last()),
        }
    }
}

impl<J, H> PoolView<J, H> {
    /// The pool right after construction: one running worker per handle,
    /// numbered from zero, and nothing sent yet.
    pub open spec fn init(threads: Seq<H>) -> Self {
        PoolView {
            workers: Seq::new(
                threads.len(),
                |i: int| WorkerView { id: i as nat, running: true, thread: Some(threads[i]) },
            ),
            queue: Seq::empty(),
            closing: false,
            submitted: Seq::empty(),
            dispatched: Seq::empty(),
        }
    }

    /// The number of workers, fixed at construction.
    pub open spec fn size(self) -> nat {
        self.workers.len()
    }

    /// The number of workers that are still in their loop.
    pub open spec fn live(self) -> nat {
        live_count(self.workers)
    }

    /// Shutdown has begun and every worker has left its loop.
    pub open spec fn terminated(self) -> bool {
        self.closing && self.live() == 0
    }

    /// The state after `job` is submitted.
    pub open spec fn submit(self, job: J) -> Self {
        PoolView {
            queue: self.queue.push(Message::NewJob(job)),
            submitted: self.submitted.push(job),
            ..self
        }
    }

    /// Whether the worker with index `worker` can be given a message: it
    /// exists, it is in its loop, and a message waits.
    pub open spec fn can_deliver(self, worker: nat) -> bool {
        &&& worker < self.workers.len()
        &&& self.workers[worker as int].running
        &&& self.queue.len() > 0
    }

    /// The state after the worker with index `worker` is given the oldest
    /// message: a job counts as handed over, a stop signal ends the worker's loop.
    pub open spec fn deliver(self, worker: nat) -> Self {
        match self.queue[0] {
            Message::NewJob(job) => PoolView {
                queue: self.queue.drop_first(),
                dispatched: self.dispatched.push(job),
                ..self
            },
            Message::Terminate => PoolView {
                queue: self.queue.drop_first(),
                workers: self.workers.update(
                    worker as int,
                    WorkerView { running: false, ..self.workers[worker as int] },
                ),
                ..self
            },
        }
    }

    /// The state after shutdown begins: one stop signal per worker is sent
    /// behind everything submitted before, and every handle leaves its slot.
    pub open spec fn close(self) -> Self {
        PoolView {
            workers: Seq::new(
                self.workers.len(),
                |i: int| WorkerView { thread: None, ..self.workers[i] },
            ),
            queue: self.queue + stop_signals(self.workers.len()),
            closing: true,
            ..self
        }
    }

    /// Whether `event` may happen in this state.
    pub open spec fn enabled(self, event: Event<J>) -> bool {
        match event {
            Event::Submit(_) => !self.closing,
            Event::Deliver(worker) => self.can_deliver(worker),
            Event::Close => !self.closing,
        }
    }

    /// The state after `event`.
    pub open spec fn step(self, event: Event<J>) -> Self {
        match event {
            Event::Submit(job) => self.submit(job),
            Event::Deliver(worker) => self.deliver(worker),
            Event::Close => self.close(),
        }
    }

    /// The state after `events`, one after the other.
    pub open spec fn run(self, events: Seq<Event<J>>) -> Self
        decreases events.len(),
    {
        if events.len() == 0 {
            self
        } else {
            self.run(events.drop_last()).step(events.last())
        }
    }

    /// Whether each of `events` may happen in the state that those before it lead to.
    pub open spec fn admits(self, events: Seq<Event<J>>) -> bool
        decreases events.len(),
    {
        if events.len() == 0 {
            true
        } else {
            self.admits(events.drop_last()) && self.run(events.drop_last()).enabled(
                events.last(),
            )
        }
    }

    /// What holds of every state that the machine reaches.
    pub open spec fn wf(self) -> bool {
        // There is at least one worker, and each worker's number is its place.
        &&& self.workers.len() >= 1
        &&& forall|i: int| 0 <= i < self.workers.len() ==> (#[trigger] self.workers[i]).id == i
        // No job is lost and none is handed over twice: the jobs submitted are
        // those handed over, followed by those that still wait.
        &&& self.submitted == self.dispatched + jobs_in(self.queue)
        // No job waits behind a stop signal.
        &&& forall|i: int, j: int|
            0 <= i < j < self.queue.len() && (#[trigger] self.queue[i]) is Terminate
                ==> (#[trigger] self.queue[j]) is Terminate
        // Before shutdown no stop signal waits, and every worker is in its loop
        // and holds its handle.
        &&& !self.closing ==> signals_in(self.queue) == 0
        &&& !self.closing ==> forall|i: int|
            0 <= i < self.workers.len() ==> (#[trigger] self.workers[i]).running
                && self.workers[i].thread is Some
        // After it one stop signal waits for each worker still in its loop,
        // every slot is empty, and once a worker has left no job waits any more.
        &&& self.closing ==> signals_in(self.queue) == self.live()
        &&& self.closing ==> forall|i: int|
            0 <= i < self.workers.len() ==> (#[trigger] self.workers[i]).thread is None
        &&& self.closing && self.live() < self.workers.len() ==> jobs_in(self.queue).len() == 0
    }
}

/// Replacing one worker changes the count of live workers by that worker alone.
pub proof fn lemma_live_count_update<H>(workers: Seq<WorkerView<H>>, i: int, worker: WorkerView<H>)
    requires
        0 <= i < workers.len(),
    ensures
        live_count(workers.update(i, worker)) + (if workers[i].running {
            1nat
        } else {
            0nat
        }) == live_count(workers) + (if worker.running {
            1nat
        } else {
            0nat
        }),
    decreases workers.len(),
{
    let updated = workers.update(i, worker);
    if i == workers.len() - 1 {
        assert(updated.drop_last() =~= workers.drop_last());
    } else {
        assert(updated.drop_last() =~= workers.drop_last().update(i, worker));
        lemma_live_count_update(workers.drop_last(), i, worker);
    }
}

/// The count of live workers depends only on who is running.
pub proof fn lemma_live_count_same_running<H>(a: Seq<WorkerView<H>>, b: Seq<WorkerView<H>>)
    requires
        a.len() == b.len(),
        forall|i: int| 0 <= i < a.len() ==> (#[trigger] a[i]).running == b[i].running,
    ensures
        live_count(a) == live_count(b),
    decreases a.len(),
{
    if a.len() > 0 {
        lemma_live_count_same_running(a.drop_last(), b.drop_last());
    }
}

/// At most every worker is live; all are live exactly when each one is
/// running, and none is live exactly when none is running.
pub proof fn lemma_live_count_bounds<H>(workers: Seq<WorkerView<H>>)
    ensures
        live_count(workers) <= workers.len(),
        live_count(workers) == workers.len() <==> forall|i: int|
            0 <= i < workers.len() ==> (#[trigger] workers[i]).running,
        live_count(workers) == 0 <==> forall|i: int|
            0 <= i < workers.len() ==> !(#[trigger] workers[i]).running,
    decreases workers.len(),
{
    if workers.len() > 0 {
        let front = workers.drop_last();
        lemma_live_count_bounds(front);
        assert forall|i: int| 0 <= i < front.len() implies #[trigger] front[i] == workers[i] by {}
        if live_count(workers) == workers.len() {
            assert forall|i: int| 0 <= i < workers.len() implies (#[trigger] workers[i]).running by {
                if i < front.len() {
                    assert(front[i].running);
                }
            }
        }
        if live_count(workers) == 0 {
            assert forall|i: int| 0 <= i < workers.len() implies !(#[trigger] workers[i]).running by {
                if i < front.len() {
                    assert(!front[i].running);
                }
            }
        }
    }
}

/// Every message is a job or a stop signal, and is counted as one of them.
pub proof fn lemma_queue_census<J>(queue: Seq<Message<J>>)
    ensures
        jobs_in(queue).len() + signals_in(queue) == queue.len(),
        signals_in(queue) == queue.len() <==> forall|i: int|
            0 <= i < queue.len() ==> (#[trigger] queue[i]) is Terminate,
        signals_in(queue) == 0 <==> forall|i: int|
            0 <= i < queue.len() ==> (#[trigger] queue[i]) is NewJob,
    decreases queue.len(),
{
    if queue.len() > 0 {
        let front = queue.drop_last();
        lemma_queue_census(front);
        assert forall|i: int| 0 <= i < front.len() implies #[trigger] front[i] == queue[i] by {}
        if signals_in(queue) == queue.len() {
            assert forall|i: int| 0 <= i < queue.len() implies (#[trigger] queue[i]) is Terminate by {
                if i < front.len() {
                    assert(front[i] is Terminate);
                }
            }
        }
        if signals_in(queue) == 0 {
            assert forall|i: int| 0 <= i < queue.len() implies (#[trigger] queue[i]) is NewJob by {
                if i < front.len() {
                    assert(front[i] is NewJob);
                }
            }
        }
    }
}

/// Sending a message adds it to the jobs or to the stop signals, behind the rest.
pub proof fn lemma_queue_push<J>(queue: Seq<Message<J>>, message: Message<J>)
    ensures
        jobs_in(queue.push(message)) == match message {
            Message::NewJob(job) => jobs_in(queue).push(job),
            Message::Terminate => jobs_in(queue),
        },
        signals_in(queue.push(message)) == signals_in(queue) + if message is Terminate {
            1nat
        } else {
            0nat
        },
{
    assert(queue.push(message).drop_last() =~= queue);
}

/// Taking the oldest message removes it from the front of the jobs, or from
/// the stop signals.
pub proof fn lemma_queue_drop_first<J>(queue: Seq<Message<J>>)
    requires
        queue.len() > 0,
    ensures
        jobs_in(queue) == match queue[0] {
            Message::NewJob(job) => seq![job] + jobs_in(queue.drop_first()),
            Message::Terminate => jobs_in(queue.drop_first()),
        },
        signals_in(queue) == signals_in(queue.drop_first()) + if queue[0] is Terminate {
            1nat
        } else {
            0nat
        },
    decreases queue.len(),
{
    if queue.len() == 1 {
        assert(queue.drop_first() =~= Seq::<Message<J>>::empty());
        assert(queue.drop_last() =~= Seq::<Message<J>>::empty());
    } else {
        lemma_queue_drop_first(queue.drop_last());
        assert(queue.drop_last().drop_first() =~= queue.drop_first().drop_last());
    }
}

/// Stop signals sent behind a queue add no job and are all counted.
pub proof fn lemma_queue_append_signals<J>(queue: Seq<Message<J>>, count: nat)
    ensures
        jobs_in(queue + stop_signals::<J>(count)) == jobs_in(queue),
        signals_in(queue + stop_signals::<J>(count)) == signals_in(queue) + count,
    decreases count,
{
    if count > 0 {
        let fewer = (count - 1) as nat;
        lemma_queue_append_signals(queue, fewer);
        assert(queue + stop_signals::<J>(count) =~= (queue + stop_signals::<J>(fewer)).push(
            Message::Terminate,
        ));
        lemma_queue_push(queue + stop_signals::<J>(fewer), Message::Terminate);
    }
}

/// Construction establishes the invariant, for any positive number of workers.
pub proof fn lemma_init_wf<J, H>(threads: Seq<H>)
    requires
        threads.len() >= 1,
    ensures
        PoolView::<J, H>::init(threads).wf(),
        PoolView::<J, H>::init(threads).size() == threads.len(),
        PoolView::<J, H>::init(threads).live() == threads.len(),
{
    lemma_live_count_bounds(PoolView::<J, H>::init(threads).workers);
}

/// Submitting a job before shutdown keeps the invariant.
pub proof fn lemma_submit_wf<J, H>(s: PoolView<J, H>, job: J)
    requires
        s.wf(),
        !s.closing,
    ensures
        s.submit(job).wf(),
{
    lemma_queue_push(s.queue, Message::NewJob(job));
    lemma_queue_census(s.queue);
}

/// Giving the oldest message to a running worker keeps the invariant, takes
/// exactly one message off the channel, and stops the worker exactly when
/// the message is a stop signal.
pub proof fn lemma_deliver_wf<J, H>(s: PoolView<J, H>, worker: nat)
    requires
        s.wf(),
        s.can_deliver(worker),
    ensures
        s.deliver(worker).wf(),
        s.deliver(worker).queue.len() == s.queue.len() - 1,
        s.deliver(worker).live() == s.live() - if s.queue[0] is Terminate {
            1nat
        } else {
            0nat
        },
{
    let t = s.deliver(worker);
    lemma_queue_drop_first(s.queue);
    lemma_queue_census(s.queue);
    lemma_queue_census(t.queue);
    lemma_live_count_bounds(s.workers);
    match s.queue[0] {
        Message::NewJob(job) => {
            assert(t.submitted =~= t.dispatched + jobs_in(t.queue));
        },
        Message::Terminate => {
            lemma_live_count_update(
                s.workers,
                worker as int,
                WorkerView { running: false, ..s.workers[worker as int] },
            );
        },
    }
}

/// Beginning shutdown keeps the invariant and leaves every worker in its loop.
pub proof fn lemma_close_wf<J, H>(s: PoolView<J, H>)
    requires
        s.wf(),
        !s.closing,
    ensures
        s.close().wf(),
        s.close().live() == s.size(),
        s.close().queue.len() == s.queue.len() + s.size(),
{
    lemma_queue_append_signals(s.queue, s.workers.len());
    lemma_live_count_same_running(s.workers, s.close().workers);
    lemma_live_count_bounds(s.workers);
    lemma_queue_census(s.queue);
}

/// Every step that may happen keeps the invariant.
pub proof fn lemma_step_wf<J, H>(s: PoolView<J, H>, event: Event<J>)
    requires
        s.wf(),
        s.enabled(event),
    ensures
        s.step(event).wf(),
        s.step(event).size() == s.size(),
{
    match event {
        Event::Submit(job) => lemma_submit_wf(s, job),
        Event::Deliver(worker) => lemma_deliver_wf(s, worker),
        Event::Close => lemma_close_wf(s),
    }
}

/// Whatever is submitted, and in whatever order the workers are served, the
/// pool stays well formed, keeps its size, and has on record exactly the jobs
/// that were submitted.
pub proof fn lemma_run_wf<J, H>(s: PoolView<J, H>, events: Seq<Event<J>>)
    requires
        s.wf(),
        s.admits(events),
    ensures
        s.run(events).wf(),
        s.run(events).size() == s.size(),
        s.run(events).submitted == s.submitted + submissions(events),
    decreases events.len(),
{
    if events.len() > 0 {
        lemma_run_wf(s, events.drop_last());
        lemma_step_wf(s.run(events.drop_last()), events.last());
    }
}

/// Once shutdown has begun and every worker has left its loop, nothing waits
/// on the channel and each submitted job has been handed to a worker exactly
/// once, in the order of submission.
pub proof fn lemma_terminated_all_dispatched<J, H>(s: PoolView<J, H>)
    requires
        s.wf(),
        s.terminated(),
    ensures
        s.queue.len() == 0,
        s.dispatched == s.submitted,
{
    lemma_queue_census(s.queue);
}

/// During shutdown a message waits exactly as long as a worker is in its
/// loop: no worker waits for a message that never comes, and no message is
/// left without a worker to take it. What waits is the jobs not yet handed
/// over and one stop signal per live worker.
pub proof fn lemma_closing_progress<J, H>(s: PoolView<J, H>)
    requires
        s.wf(),
        s.closing,
    ensures
        s.queue.len() == jobs_in(s.queue).len() + s.live(),
        s.queue.len() > 0 <==> s.live() > 0,
        forall|worker: nat|
            worker < s.size() && (#[trigger] s.workers[worker as int]).running ==> s.can_deliver(
                worker,
            ),
{
    lemma_queue_census(s.queue);
    lemma_live_count_bounds(s.workers);
}

/// From construction on, under every schedule: when the pool has terminated,
/// the jobs handed to workers are exactly the jobs that were submitted, each
/// once and in order, and no worker is left running.
pub proof fn lemma_every_job_runs_once<J, H>(threads: Seq<H>, events: Seq<Event<J>>)
    requires
        threads.len() >= 1,
        PoolView::<J, H>::init(threads).admits(events),
        PoolView::<J, H>::init(threads).run(events).terminated(),
    ensures
        PoolView::<J, H>::init(threads).run(events).dispatched == submissions(events),
        PoolView::<J, H>::init(threads).run(events).queue.len() == 0,
        PoolView::<J, H>::init(threads).run(events).size() == threads.len(),
        PoolView::<J, H>::init(threads).run(events).live() == 0,
{
    let start = PoolView::<J, H>::init(threads);
    lemma_init_wf::<J, H>(threads);
    lemma_run_wf(start, events);
    lemma_terminated_all_dispatched(start.run(events));
}

/// Once shutdown has begun the only step left is to give a worker the oldest
/// message, and each such step takes one message off the channel. So under
/// every schedule the workers take exactly the messages that wait, no worker
/// is stuck while one waits, and when the last is taken every worker has left
/// its loop and every job has been handed over.
pub proof fn lemma_shutdown_drains<J, H>(s: PoolView<J, H>, events: Seq<Event<J>>)
    requires
        s.wf(),
        s.closing,
        s.admits(events),
    ensures
        events.len() <= s.queue.len(),
        s.run(events).wf(),
        s.run(events).closing,
        s.run(events).queue.len() == s.queue.len() - events.len(),
        s.run(events).submitted == s.submitted,
        events.len() < s.queue.len() ==> s.run(events).live() > 0,
        events.len() == s.queue.len() ==> s.run(events).terminated() && s.run(events).dispatched
            == s.submitted,
    decreases events.len(),
{
    if events.len() > 0 {
        let before = s.run(events.drop_last());
        lemma_shutdown_drains(s, events.drop_last());
        if let Event::Deliver(worker) = events.last() {
            lemma_deliver_wf(before, worker);
        }
    }
    lemma_closing_progress(s.run(events));
    if events.len() == s.queue.len() {
        lemma_terminated_all_dispatched(s.run(events));
    }
}

/// A pool that is shut down before any job was submitted holds one stop
/// signal per worker and nothing else: its workers leave their loops after
/// exactly as many steps as there are workers, whatever the order.
pub proof fn lemma_shutdown_without_jobs<J, H>(threads: Seq<H>, events: Seq<Event<J>>)
    requires
        threads.len() >= 1,
        PoolView::<J, H>::init(threads).close().admits(events),
    ensures
        PoolView::<J, H>::init(threads).close().queue == stop_signals::<J>(threads.len()),
        events.len() <= threads.len(),
        events.len() == threads.len() ==> PoolView::<J, H>::init(threads).close().run(
            events,
        ).terminated(),
        events.len() < threads.len() ==> PoolView::<J, H>::init(threads).close().run(events).live()
            > 0,
{
    let start = PoolView::<J, H>::init(threads);
    lemma_init_wf::<J, H>(threads);
    lemma_close_wf(start);
    lemma_shutdown_drains(start.close(), events);
}

} // verus!
