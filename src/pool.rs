use std::collections::VecDeque;
use vstd::prelude::*;

use crate::error::{ConstructionError, SubmissionError};
use crate::message::{
    lemma_terminates_append, lemma_terminates_last, lemma_terminates_push, terminate_run,
    terminates, Message,
};
use crate::worker::{
    exited_count, fresh_worker, lemma_exited_count_bound, lemma_exited_count_exact,
    lemma_exited_count_update, Worker,
    WorkerState,
};

verus! {

/// What a worker does after asking the queue for its next message.
pub enum Step<J> {
    /// Run this job on the worker's own thread, then ask again.
    Run(J),
    /// Leave the loop for good: the worker took a stop signal.
    Exit,
    /// Nothing is queued: block until a message arrives, then ask again.
    Wait,
}

/// The step that a worker takes when the queue holds `q`.
pub open spec fn step_for<J>(q: Seq<Message<J>>) -> Step<J> {
    if q.len() == 0 {
        Step::Wait
    } else {
        match q[0] {
            Message::NewJob(j) => Step::Run(j),
            Message::Terminate => Step::Exit,
        }
    }
}

/// The state that a worker is left in when the queue holds `q` as it asks.
pub open spec fn state_after<J>(q: Seq<Message<J>>) -> WorkerState {
    if q.len() == 0 {
        WorkerState::Idle
    } else {
        match q[0] {
            Message::NewJob(_) => WorkerState::Busy,
            Message::Terminate => WorkerState::Exited,
        }
    }
}

/// The shared state of a pool: its fixed set of workers, the dispatch queue
/// that they all drain, and the shutdown protocol.
///
/// Every worker takes messages from the one queue, so a message goes to
/// exactly one worker. Teardown queues one stop signal per worker behind all
/// the jobs, and then the caller joins the workers in the order they were
/// built. The ghost histories `sent` and `taken` record every message that
/// entered and left the queue.
pub struct PoolCore<J> {
    workers: Vec<Worker>,
    queue: VecDeque<Message<J>>,
    shutting_down: bool,
    exited: usize,
    sent: Ghost<Seq<Message<J>>>,
    taken: Ghost<Seq<Message<J>>>,
}

impl<J> PoolCore<J> {
    /// The worker records, in the order the workers were built.
    pub closed spec fn workers_view(&self) -> Seq<Worker> {
        self.workers@
    }

    /// The messages waiting in the queue, oldest first.
    pub closed spec fn queued(&self) -> Seq<Message<J>> {
        self.queue@
    }

    /// Every message that ever entered the queue, in order.
    pub closed spec fn sent(&self) -> Seq<Message<J>> {
        self.sent@
    }

    /// Every message that a worker ever took from the queue, in order.
    pub closed spec fn taken(&self) -> Seq<Message<J>> {
        self.taken@
    }

    /// Whether teardown has begun.
    pub closed spec fn shutting_down_spec(&self) -> bool {
        self.shutting_down
    }

    pub open spec fn size_spec(&self) -> nat {
        self.workers_view().len()
    }

    /// The number of workers still in their loop.
    pub open spec fn live_spec(&self) -> int {
        self.size_spec() - exited_count(self.workers_view())
    }

    pub open spec fn all_joined(&self) -> bool {
        forall|i: int| 0 <= i < self.size_spec() ==> (#[trigger] self.workers_view()[i]).joined
    }

    /// Teardown is complete: it has begun, and every worker has been joined.
    pub open spec fn torn_down(&self) -> bool {
        self.shutting_down_spec() && self.all_joined()
    }

    pub closed spec fn wf(&self) -> bool {
        &&& self.workers@.len() >= 1
        &&& forall|i: int|
            0 <= i < self.workers@.len() ==> (#[trigger] self.workers@[i]).id == i
        &&& forall|i: int|
            0 <= i < self.workers@.len() && (#[trigger] self.workers@[i]).joined
                ==> self.workers@[i].state is Exited
        &&& self.exited == exited_count(self.workers@)
        &&& self.sent@ == self.taken@ + self.queue@
        &&& terminates(self.taken@) == self.exited
        &&& !self.shutting_down ==> terminates(self.sent@) == 0
        &&& self.shutting_down ==> {
            &&& self.sent@.len() > 0
            &&& self.sent@.last() is Terminate
            &&& terminates(self.sent@) == self.workers@.len()
        }
    }
}

impl<J> PoolCore<J> {
    /// Builds the state of a pool of `size` workers, with identities
    /// `0..size`, all waiting on an empty queue. A pool needs at least one
    /// worker.
    pub fn new(size: usize) -> (r: Result<Self, ConstructionError>)
        ensures
            size == 0 <==> r is Err,
            match r {
                Ok(p) => {
                    &&& p.wf()
                    &&& p.workers_view() == Seq::new(size as nat, |i: int| fresh_worker(i as usize))
                    &&& p.live_spec() == size
                    &&& p.queued() == Seq::<Message<J>>::empty()
                    &&& p.sent() == Seq::<Message<J>>::empty()
                    &&& p.taken() == Seq::<Message<J>>::empty()
                    &&& !p.shutting_down_spec()
                },
                Err(e) => e == ConstructionError::ZeroSize,
            },
    {
        if size == 0 {
            return Err(ConstructionError::ZeroSize);
        }
        let mut workers: Vec<Worker> = Vec::with_capacity(size);
        let mut id: usize = 0;
        while id < size
            invariant
                id <= size,
                workers@ == Seq::new(id as nat, |i: int| fresh_worker(i as usize)),
            decreases size - id,
        {
            workers.push(Worker { id, state: WorkerState::Idle, joined: false });
            id += 1;
            assert(workers@ =~= Seq::new(id as nat, |i: int| fresh_worker(i as usize)));
        }
        proof {
            lemma_exited_count_bound(workers@);
            assert(Seq::<Message<J>>::empty() + Seq::<Message<J>>::empty() =~= Seq::<
                Message<J>,
            >::empty());
        }
        Ok(PoolCore {
            workers,
            queue: VecDeque::new(),
            shutting_down: false,
            exited: 0,
            sent: Ghost(Seq::empty()),
            taken: Ghost(Seq::empty()),
        })
    }

    /// Queues a job behind every message already waiting. Once teardown has
    /// begun no job is taken: no worker could be relied on to run it.
    pub fn submit(&mut self, job: J) -> (r: Result<(), SubmissionError>)
        requires
            old(self).wf(),
        ensures
            final(self).wf(),
            r is Err <==> old(self).shutting_down_spec(),
            old(self).live_spec() == 0 ==> r is Err,
            match r {
                Ok(_) => {
                    &&& final(self).queued() == old(self).queued().push(Message::NewJob(job))
                    &&& final(self).sent() == old(self).sent().push(Message::NewJob(job))
                    &&& final(self).taken() == old(self).taken()
                    &&& final(self).workers_view() == old(self).workers_view()
                    &&& final(self).shutting_down_spec() == old(self).shutting_down_spec()
                },
                Err(e) => {
                    &&& e == SubmissionError::NoLiveWorker
                    &&& *final(self) == *old(self)
                },
            },
    {
        proof {
            self.lemma_live_before_teardown();
        }
        if self.shutting_down {
            return Err(SubmissionError::NoLiveWorker);
        }
        proof {
            lemma_terminates_push(self.sent@, Message::NewJob(job));
            assert(self.taken@ + self.queue@.push(Message::NewJob(job)) =~= self.sent@.push(
                Message::NewJob(job),
            ));
        }
        self.sent = Ghost(self.sent@.push(Message::NewJob(job)));
        self.queue.push_back(Message::NewJob(job));
        Ok(())
    }

    /// Before teardown no worker has left its loop.
    proof fn lemma_live_before_teardown(&self)
        requires
            self.wf(),
        ensures
            !self.shutting_down ==> self.exited == 0,
            self.exited <= self.workers@.len(),
    {
        lemma_exited_count_bound(self.workers@);
        lemma_terminates_append(self.taken@, self.queue@);
    }

    /// The number of workers, fixed when the pool was built.
    pub fn size(&self) -> (r: usize)
        ensures
            r == self.size_spec(),
    {
        self.workers.len()
    }

    /// The number of workers still in their loop.
    pub fn live_count(&self) -> (r: usize)
        requires
            self.wf(),
        ensures
            r == self.live_spec(),
    {
        proof {
            self.lemma_live_before_teardown();
        }
        self.workers.len() - self.exited
    }

    /// Whether teardown has begun.
    pub fn is_shutting_down(&self) -> (r: bool)
        ensures
            r == self.shutting_down_spec(),
    {
        self.shutting_down
    }

    /// The number of messages waiting in the queue.
    pub fn pending(&self) -> (r: usize)
        ensures
            r == self.queued().len(),
    {
        self.queue.len()
    }

    /// The record of the worker built `i`-th.
    pub fn worker(&self, i: usize) -> (r: Worker)
        requires
            i < self.size_spec(),
        ensures
            r == self.workers_view()[i as int],
    {
        self.workers[i]
    }
}

impl<J> PoolCore<J> {
    /// Worker `id` asks for its next message. It takes the oldest one, if
    /// any, and no other worker ever sees it: a job is handed back to be run,
    /// a stop signal makes the worker leave its loop. With nothing queued the
    /// worker is told to wait.
    pub fn receive(&mut self, id: usize) -> (r: Step<J>)
        requires
            old(self).wf(),
            id < old(self).size_spec(),
            !(old(self).workers_view()[id as int].state is Exited),
        ensures
            final(self).wf(),
            r == step_for(old(self).queued()),
            final(self).workers_view() == old(self).workers_view().update(
                id as int,
                Worker { id, state: state_after(old(self).queued()), joined: false },
            ),
            final(self).live_spec() == old(self).live_spec() - if state_after(
                old(self).queued(),
            ) is Exited {
                1int
            } else {
                0int
            },
            final(self).sent() == old(self).sent(),
            final(self).shutting_down_spec() == old(self).shutting_down_spec(),
            old(self).queued().len() == 0 ==> {
                &&& final(self).queued() == old(self).queued()
                &&& final(self).taken() == old(self).taken()
            },
            old(self).queued().len() > 0 ==> {
                &&& final(self).queued() == old(self).queued().drop_first()
                &&& final(self).taken() == old(self).taken().push(old(self).queued()[0])
            },
    {
        let ghost q0 = self.queue@;
        let ghost w0 = self.workers@;
        proof {
            lemma_exited_count_bound(w0);
        }
        match self.queue.pop_front() {
            None => {
                self.workers.set(id, Worker { id, state: WorkerState::Idle, joined: false });
                proof {
                    lemma_exited_count_update(w0, id as int, self.workers@[id as int]);
                }
                Step::Wait
            },
            Some(m) => {
                proof {
                    lemma_terminates_push(self.taken@, m);
                    assert(self.taken@.push(m) + self.queue@ =~= self.taken@ + q0);
                }
                self.taken = Ghost(self.taken@.push(m));
                match m {
                    Message::NewJob(job) => {
                        self.workers.set(
                            id,
                            Worker { id, state: WorkerState::Busy, joined: false },
                        );
                        proof {
                            lemma_exited_count_update(w0, id as int, self.workers@[id as int]);
                        }
                        Step::Run(job)
                    },
                    Message::Terminate => {
                        self.workers.set(
                            id,
                            Worker { id, state: WorkerState::Exited, joined: false },
                        );
                        proof {
                            lemma_exited_count_update(w0, id as int, self.workers@[id as int]);
                            lemma_exited_count_bound(self.workers@);
                        }
                        let size = self.workers.len();
                        assert(self.exited < size);
                        self.exited = self.exited + 1;
                        Step::Exit
                    },
                }
            },
        }
    }

    /// Begins teardown: queues one stop signal per worker, behind every job
    /// already waiting, and refuses jobs from then on. Returns the number of
    /// signals queued. Once teardown has begun, a further call changes
    /// nothing.
    pub fn begin_teardown(&mut self) -> (n: usize)
        requires
            old(self).wf(),
        ensures
            final(self).wf(),
            final(self).shutting_down_spec(),
            old(self).shutting_down_spec() ==> n == 0 && *final(self) == *old(self),
            !old(self).shutting_down_spec() ==> {
                &&& n == old(self).size_spec()
                &&& final(self).queued() == old(self).queued() + terminate_run::<J>(n as nat)
                &&& final(self).sent() == old(self).sent() + terminate_run::<J>(n as nat)
                &&& final(self).taken() == old(self).taken()
                &&& final(self).workers_view() == old(self).workers_view()
            },
    {
        if self.shutting_down {
            return 0;
        }
        let n = self.workers.len();
        let ghost q0 = self.queue@;
        let ghost s0 = self.sent@;
        let mut k: usize = 0;
        while k < n
            invariant
                k <= n,
                n == self.workers@.len(),
                n >= 1,
                !self.shutting_down,
                self.exited == exited_count(self.workers@),
                terminates(self.taken@) == self.exited,
                forall|i: int|
                    0 <= i < self.workers@.len() ==> (#[trigger] self.workers@[i]).id == i,
                forall|i: int|
                    0 <= i < self.workers@.len() && (#[trigger] self.workers@[i]).joined
                        ==> self.workers@[i].state is Exited,
                self.workers@ == old(self).workers@,
                self.taken@ == old(self).taken@,
                q0 == old(self).queue@,
                s0 == old(self).sent@,
                self.queue@ == q0 + terminate_run::<J>(k as nat),
                self.sent@ == s0 + terminate_run::<J>(k as nat),
                self.sent@ == self.taken@ + self.queue@,
                terminates(self.sent@) == k,
                k > 0 ==> self.sent@.last() is Terminate,
            decreases n - k,
        {
            proof {
                lemma_terminates_push(self.sent@, Message::Terminate);
                assert(self.taken@ + self.queue@.push(Message::Terminate) =~= self.sent@.push(
                    Message::Terminate,
                ));
            }
            self.sent = Ghost(self.sent@.push(Message::Terminate));
            self.queue.push_back(Message::Terminate);
            k += 1;
            assert(self.queue@ =~= q0 + terminate_run::<J>(k as nat));
            assert(self.sent@ =~= s0 + terminate_run::<J>(k as nat));
        }
        self.shutting_down = true;
        n
    }

    /// Whether worker `id` has left its loop.
    pub fn is_exited(&self, id: usize) -> (r: bool)
        requires
            id < self.size_spec(),
        ensures
            r == self.workers_view()[id as int].state is Exited,
    {
        match self.workers[id].state {
            WorkerState::Exited => true,
            _ => false,
        }
    }

    /// The first worker, in the order they were built, whose thread has not
    /// been joined yet; `None` when every one has been.
    pub fn next_to_join(&self) -> (r: Option<usize>)
        ensures
            match r {
                Some(i) => {
                    &&& i < self.size_spec()
                    &&& !self.workers_view()[i as int].joined
                    &&& forall|j: int| 0 <= j < i ==> (#[trigger] self.workers_view()[j]).joined
                },
                None => self.all_joined(),
            },
    {
        let mut i: usize = 0;
        while i < self.workers.len()
            invariant
                i <= self.workers@.len(),
                forall|j: int| 0 <= j < i ==> (#[trigger] self.workers@[j]).joined,
            decreases self.workers@.len() - i,
        {
            if !self.workers[i].joined {
                return Some(i);
            }
            i += 1;
        }
        None
    }

    /// Records that the thread of worker `id`, which has left its loop, has
    /// been joined.
    pub fn record_joined(&mut self, id: usize)
        requires
            old(self).wf(),
            id < old(self).size_spec(),
            old(self).workers_view()[id as int].state is Exited,
        ensures
            final(self).wf(),
            final(self).workers_view() == old(self).workers_view().update(
                id as int,
                Worker { id, state: WorkerState::Exited, joined: true },
            ),
            final(self).live_spec() == old(self).live_spec(),
            final(self).queued() == old(self).queued(),
            final(self).sent() == old(self).sent(),
            final(self).taken() == old(self).taken(),
            final(self).shutting_down_spec() == old(self).shutting_down_spec(),
    {
        let ghost w0 = self.workers@;
        self.workers.set(id, Worker { id, state: WorkerState::Exited, joined: true });
        proof {
            lemma_exited_count_update(w0, id as int, self.workers@[id as int]);
        }
    }

    /// Whether teardown is complete: it has begun and every worker has been
    /// joined.
    pub fn is_torn_down(&self) -> (r: bool)
        ensures
            r == self.torn_down(),
    {
        self.shutting_down && self.next_to_join().is_none()
    }
}

/// Every message that entered the queue either was taken by exactly one
/// worker or is still waiting, and messages leave in the order they came:
/// the history of what was taken followed by what is queued is the history
/// of what was sent.
pub proof fn lemma_each_message_once<J>(p: &PoolCore<J>)
    requires
        p.wf(),
    ensures
        p.sent() == p.taken() + p.queued(),
{
}

/// Until teardown begins, every worker is in its loop.
pub proof fn lemma_live_until_teardown<J>(p: &PoolCore<J>)
    requires
        p.wf(),
        !p.shutting_down_spec(),
    ensures
        p.live_spec() == p.size_spec(),
        forall|i: int| 0 <= i < p.size_spec() ==> !((#[trigger] p.workers_view()[i]).state is Exited),
{
    p.lemma_live_before_teardown();
    lemma_exited_count_bound(p.workers@);
}

/// Teardown sends exactly one stop signal per worker, and a worker leaves its
/// loop only by taking one: the signals taken are as many as the workers
/// that have left.
pub proof fn lemma_one_stop_signal_each<J>(p: &PoolCore<J>)
    requires
        p.wf(),
    ensures
        p.shutting_down_spec() ==> terminates(p.sent()) == p.size_spec(),
        !p.shutting_down_spec() ==> terminates(p.sent()) == 0,
        terminates(p.taken()) == p.size_spec() - p.live_spec(),
{
}

/// Once teardown has begun and every worker has left its loop, the queue is
/// empty, every message sent (so every job submitted) was taken exactly
/// once, and no worker is still running a job.
pub proof fn lemma_drained<J>(p: &PoolCore<J>)
    requires
        p.wf(),
        p.shutting_down_spec(),
        p.live_spec() == 0,
    ensures
        p.queued().len() == 0,
        p.taken() == p.sent(),
        forall|i: int| 0 <= i < p.size_spec() ==> (#[trigger] p.workers_view()[i]).state is Exited,
{
    lemma_exited_count_bound(p.workers@);
    lemma_terminates_append(p.taken@, p.queue@);
    if p.queue@.len() > 0 {
        assert(p.queue@.last() == p.sent@.last());
        lemma_terminates_last(p.queue@);
    }
    assert(p.taken@ + p.queue@ =~= p.taken@);
}

/// When teardown is complete every thread was joined after its worker left
/// the loop, so nothing is left queued, every job submitted was taken exactly
/// once and run to its end, and no worker is live.
pub proof fn lemma_torn_down<J>(p: &PoolCore<J>)
    requires
        p.wf(),
        p.torn_down(),
    ensures
        p.live_spec() == 0,
        p.queued().len() == 0,
        p.taken() == p.sent(),
        forall|i: int| 0 <= i < p.size_spec() ==> (#[trigger] p.workers_view()[i]).state is Exited,
{
    assert forall|i: int| 0 <= i < p.workers@.len() implies (#[trigger] p.workers@[i]).state is Exited by {
        assert(p.workers@[i].joined);
    }
    lemma_exited_count_exact(p.workers@);
    lemma_drained(p);
}

} // verus!
