//! A pool of a fixed number of workers that take jobs from one shared queue,
//! and its orderly teardown.
//!
//! The pool holds the queue and what is known of each worker. Threads and
//! locks stay with the caller: a worker's thread asks the pool for its next
//! message, runs the job it gets outside the pool, and reports back.

use vstd::prelude::*;
use std::collections::VecDeque;

verus! {

/// What travels through the queue: a job, or the request to exit.
pub enum Message<J> {
    NewJob(J),
    Terminate,
}

/// What a worker is doing.
#[derive(Debug, Clone, Copy, PartialEq, Eq, Structural)]
pub enum WorkerState {
    /// Waiting for its next message.
    Waiting,
    /// Running a job.
    Running,
    /// Has received its request to exit and left its loop.
    Exited,
}

/// How a job ended.
#[derive(Debug, Clone, Copy, PartialEq, Eq, Structural)]
pub enum JobOutcome {
    Completed,
    Faulted,
}

/// One worker of the pool.
#[derive(Debug, Clone, Copy, PartialEq, Eq, Structural)]
pub struct Worker {
    /// Its position in the pool.
    pub id: usize,
    pub state: WorkerState,
    /// Whether its thread has yet to be joined.
    pub joinable: bool,
}

/// The pool as a value.
pub struct PoolView<J> {
    pub workers: Seq<Worker>,
    /// The messages that no worker has taken yet, oldest first.
    pub queue: Seq<Message<J>>,
    /// Whether teardown has begun.
    pub draining: bool,
    /// Every job ever submitted, in order.
    pub submitted: Seq<J>,
    /// Every job ever handed to a worker, in order.
    pub delivered: Seq<J>,
    /// The number of jobs that have ended, either way.
    pub finished: nat,
    /// The number of jobs that have ended with a fault.
    pub faulted: nat,
}

/// The jobs in a queue, in order.
pub open spec fn jobs_of<J>(queue: Seq<Message<J>>) -> Seq<J>
    decreases queue.len(),
{
    if queue.len() == 0 {
        Seq::empty()
    } else {
        match queue.last() {
            Message::NewJob(job) => jobs_of(queue.drop_last()).push(job),
            Message::Terminate => jobs_of(queue.drop_last()),
        }
    }
}

/// The number of requests to exit in a queue.
pub open spec fn terminates_in<J>(queue: Seq<Message<J>>) -> nat
    decreases queue.len(),
{
    if queue.len() == 0 {
        0
    } else {
        terminates_in(queue.drop_last()) + (if queue.last() is Terminate {
            1nat
        } else {
            0nat
        })
    }
}

/// No job stands behind a request to exit.
pub open spec fn terminates_last<J>(queue: Seq<Message<J>>) -> bool {
    forall|i: int, j: int|
        0 <= i < j < queue.len() && (#[trigger] queue[i]) is Terminate ==> (
        #[trigger] queue[j]) is Terminate
}

/// The number of workers in a state.
pub open spec fn count_in(workers: Seq<Worker>, state: WorkerState) -> nat
    decreases workers.len(),
{
    if workers.len() == 0 {
        0
    } else {
        count_in(workers.drop_last(), state) + (if workers.last().state == state {
            1nat
        } else {
            0nat
        })
    }
}

/// `count` requests to exit.
pub open spec fn terminates<J>(count: nat) -> Seq<Message<J>> {
    Seq::new(count, |i: int| Message::Terminate)
}

/// The numbers from 0 up to `count`.
pub open spec fn ids(count: nat) -> Seq<usize> {
    Seq::new(count, |i: int| i as usize)
}

/// The pool after `job` was submitted.
pub open spec fn with_job<J>(p: PoolView<J>, job: J) -> PoolView<J> {
    PoolView {
        queue: p.queue.push(Message::NewJob(job)),
        submitted: p.submitted.push(job),
        ..p
    }
}

/// The pool after the worker `id` took the oldest message: with a job it is
/// running, with the request to exit it has exited. With an empty queue the
/// pool is unchanged.
pub open spec fn after_take<J>(p: PoolView<J>, id: int) -> PoolView<J> {
    if p.queue.len() == 0 {
        p
    } else {
        PoolView {
            queue: p.queue.drop_first(),
            workers: p.workers.update(
                id,
                Worker {
                    state: if p.queue[0] is Terminate {
                        WorkerState::Exited
                    } else {
                        WorkerState::Running
                    },
                    ..p.workers[id]
                },
            ),
            delivered: match p.queue[0] {
                Message::NewJob(job) => p.delivered.push(job),
                Message::Terminate => p.delivered,
            },
            ..p
        }
    }
}

/// The pool after the job of the worker `id` ended: the worker waits again,
/// and the job is counted; a fault is counted as such and changes nothing
/// else.
pub open spec fn after_finish<J>(p: PoolView<J>, id: int, outcome: JobOutcome) -> PoolView<J> {
    PoolView {
        workers: p.workers.update(id, Worker { state: WorkerState::Waiting, ..p.workers[id] }),
        finished: p.finished + 1,
        faulted: if outcome == JobOutcome::Faulted {
            p.faulted + 1
        } else {
            p.faulted
        },
        ..p
    }
}

/// The pool after teardown: one request to exit for each worker stands at
/// the end of the queue, and no worker's thread is left to be joined. A pool
/// that is draining already is unchanged.
pub open spec fn torn_down<J>(p: PoolView<J>) -> PoolView<J> {
    if p.draining {
        p
    } else {
        PoolView {
            queue: p.queue + terminates(p.workers.len()),
            workers: Seq::new(
                p.workers.len(),
                |i: int| Worker { joinable: false, ..p.workers[i] },
            ),
            draining: true,
            ..p
        }
    }
}

/// The invariant of a pool.
pub open spec fn pool_wf<J>(p: PoolView<J>) -> bool {
    &&& p.workers.len() > 0
    &&& forall|i: int| 0 <= i < p.workers.len() ==> (#[trigger] p.workers[i]).id == i
    &&& forall|i: int| 0 <= i < p.workers.len() ==> (#[trigger] p.workers[i]).joinable == !p.draining
    &&& terminates_last(p.queue)
    &&& terminates_in(p.queue) + count_in(p.workers, WorkerState::Exited) == (if p.draining {
        p.workers.len()
    } else {
        0
    })
    &&& (count_in(p.workers, WorkerState::Exited) > 0 ==> jobs_of(p.queue).len() == 0)
    &&& p.submitted == p.delivered + jobs_of(p.queue)
    &&& p.delivered.len() == p.finished + count_in(p.workers, WorkerState::Running)
    &&& p.faulted <= p.finished
}

/// A queue is made of its jobs and its requests to exit.
pub proof fn queue_parts<J>(queue: Seq<Message<J>>)
    ensures
        jobs_of(queue).len() + terminates_in(queue) == queue.len(),
    decreases queue.len(),
{
    if queue.len() > 0 {
        queue_parts(queue.drop_last());
    }
}

/// What the oldest message adds to the jobs and the requests to exit of a
/// queue.
pub proof fn queue_front<J>(queue: Seq<Message<J>>)
    requires
        queue.len() > 0,
    ensures
        jobs_of(queue) == (match queue[0] {
            Message::NewJob(job) => seq![job] + jobs_of(queue.drop_first()),
            Message::Terminate => jobs_of(queue.drop_first()),
        }),
        terminates_in(queue) == terminates_in(queue.drop_first()) + (if queue[0] is Terminate {
            1nat
        } else {
            0nat
        }),
    decreases queue.len(),
{
    if queue.len() == 1 {
        assert(queue.drop_first() =~= Seq::<Message<J>>::empty());
        assert(queue.drop_last() =~= Seq::<Message<J>>::empty());
        assert(jobs_of(queue.drop_last()) =~= Seq::<J>::empty());
        match queue[0] {
            Message::NewJob(job) => {
                assert(jobs_of(queue) =~= seq![job] + jobs_of(queue.drop_first()));
            },
            Message::Terminate => {},
        }
    } else {
        let front = queue.drop_last();
        queue_front(front);
        assert(front.drop_first() =~= queue.drop_first().drop_last());
        assert(front[0] == queue[0]);
        assert(queue.drop_first().last() == queue.last());
        match queue[0] {
            Message::NewJob(job) => {
                match queue.last() {
                    Message::NewJob(last) => {
                        assert(jobs_of(queue) =~= seq![job] + jobs_of(queue.drop_first()));
                    },
                    Message::Terminate => {},
                }
            },
            Message::Terminate => {},
        }
    }
}

/// A queue of requests to exit holds no job.
pub proof fn queue_of_terminates<J>(queue: Seq<Message<J>>)
    requires
        forall|i: int| 0 <= i < queue.len() ==> (#[trigger] queue[i]) is Terminate,
    ensures
        jobs_of(queue).len() == 0,
        terminates_in(queue) == queue.len(),
    decreases queue.len(),
{
    if queue.len() > 0 {
        assert forall|i: int| 0 <= i < queue.drop_last().len() implies (
        #[trigger] queue.drop_last()[i]) is Terminate by {
            assert(queue.drop_last()[i] == queue[i]);
        }
        queue_of_terminates(queue.drop_last());
    }
}

/// What replacing one worker does to the number of workers in a state.
pub proof fn count_after_update(workers: Seq<Worker>, at: int, worker: Worker, state: WorkerState)
    requires
        0 <= at < workers.len(),
    ensures
        count_in(workers.update(at, worker), state) + (if workers[at].state == state {
            1nat
        } else {
            0nat
        }) == count_in(workers, state) + (if worker.state == state {
            1nat
        } else {
            0nat
        }),
    decreases workers.len(),
{
    let after = workers.update(at, worker);
    if at == workers.len() - 1 {
        assert(after.drop_last() =~= workers.drop_last());
    } else {
        count_after_update(workers.drop_last(), at, worker, state);
        assert(after.drop_last() =~= workers.drop_last().update(at, worker));
    }
}

/// No worker is in a state that none of them has.
pub proof fn count_of_absent_state(workers: Seq<Worker>, state: WorkerState)
    requires
        forall|i: int| 0 <= i < workers.len() ==> (#[trigger] workers[i]).state != state,
    ensures
        count_in(workers, state) == 0,
    decreases workers.len(),
{
    if workers.len() > 0 {
        assert forall|i: int| 0 <= i < workers.drop_last().len() implies (
        #[trigger] workers.drop_last()[i]).state != state by {
            assert(workers.drop_last()[i] == workers[i]);
        }
        count_of_absent_state(workers.drop_last(), state);
    }
}

/// All workers are in a state that each of them has, and the other way
/// round.
pub proof fn count_of_common_state(workers: Seq<Worker>, state: WorkerState)
    ensures
        count_in(workers, state) <= workers.len(),
        count_in(workers, state) == workers.len() <==> (forall|i: int|
            0 <= i < workers.len() ==> (#[trigger] workers[i]).state == state),
    decreases workers.len(),
{
    if workers.len() > 0 {
        let front = workers.drop_last();
        count_of_common_state(front, state);
        if count_in(workers, state) == workers.len() {
            assert forall|i: int| 0 <= i < workers.len() implies (#[trigger] workers[i]).state
                == state by {
                if i < front.len() {
                    assert(front[i] == workers[i]);
                }
            }
        }
        if forall|i: int| 0 <= i < workers.len() ==> (#[trigger] workers[i]).state == state {
            assert forall|i: int| 0 <= i < front.len() implies (#[trigger] front[i]).state
                == state by {
                assert(front[i] == workers[i]);
            }
        }
    }
}

/// A pool of workers with the queue they share.
pub struct ThreadPool<J> {
    workers: Vec<Worker>,
    queue: VecDeque<Message<J>>,
    draining: bool,
    submitted: Ghost<Seq<J>>,
    delivered: Ghost<Seq<J>>,
    finished: Ghost<nat>,
    faulted: Ghost<nat>,
}

impl<J> View for ThreadPool<J> {
    type V = PoolView<J>;

    closed spec fn view(&self) -> PoolView<J> {
        PoolView {
            workers: self.workers@,
            queue: self.queue@,
            draining: self.draining,
            submitted: self.submitted@,
            delivered: self.delivered@,
            finished: self.finished@,
            faulted: self.faulted@,
        }
    }
}

impl<J> ThreadPool<J> {
    /// The invariant of the pool.
    pub open spec fn wf(&self) -> bool {
        pool_wf(self@)
    }

    /// A pool of `size` waiting workers, numbered from 0, with an empty queue.
    pub fn new(size: usize) -> (pool: ThreadPool<J>)
        requires
            size > 0,
        ensures
            pool.wf(),
            pool@.workers.len() == size,
            forall|i: int|
                0 <= i < size ==> (#[trigger] pool@.workers[i]) == (Worker {
                    id: i as usize,
                    state: WorkerState::Waiting,
                    joinable: true,
                }),
            pool@.queue.len() == 0,
            !pool@.draining,
            pool@.submitted.len() == 0,
            pool@.delivered.len() == 0,
            pool@.finished == 0,
            pool@.faulted == 0,
    {
        let mut workers: Vec<Worker> = Vec::with_capacity(size);
        let mut n: usize = 0;
        while n < size
            invariant
                n <= size,
                workers@.len() == n,
                forall|i: int|
                    0 <= i < n ==> (#[trigger] workers@[i]) == (Worker {
                        id: i as usize,
                        state: WorkerState::Waiting,
                        joinable: true,
                    }),
            decreases size - n,
        {
            workers.push(Worker { id: n, state: WorkerState::Waiting, joinable: true });
            n += 1;
        }
        let pool = ThreadPool {
            workers,
            queue: VecDeque::new(),
            draining: false,
            submitted: Ghost(Seq::empty()),
            delivered: Ghost(Seq::empty()),
            finished: Ghost(0),
            faulted: Ghost(0),
        };
        proof {
            count_of_absent_state(pool@.workers, WorkerState::Exited);
            count_of_absent_state(pool@.workers, WorkerState::Running);
            assert(jobs_of(pool@.queue) =~= Seq::<J>::empty());
            assert(pool@.submitted =~= pool@.delivered + jobs_of(pool@.queue));
        }
        pool
    }

    /// The number of workers.
    pub fn size(&self) -> (n: usize)
        ensures
            n == self@.workers.len(),
    {
        self.workers.len()
    }

    /// The number of messages that no worker has taken yet.
    pub fn pending(&self) -> (n: usize)
        ensures
            n == self@.queue.len(),
    {
        self.queue.len()
    }

    /// Whether the pool still takes jobs: teardown has not begun.
    pub fn is_accepting(&self) -> (yes: bool)
        ensures
            yes == !self@.draining,
    {
        !self.draining
    }

    /// What is known of the worker `id`.
    pub fn worker(&self, id: usize) -> (w: Option<Worker>)
        ensures
            w == (if id < self@.workers.len() {
                Some(self@.workers[id as int])
            } else {
                None
            }),
    {
        if id < self.workers.len() {
            Some(self.workers[id])
        } else {
            None
        }
    }

    /// Puts a job at the end of the queue.
    pub fn execute(&mut self, job: J)
        requires
            old(self).wf(),
            !old(self)@.draining,
        ensures
            final(self).wf(),
            final(self)@ == with_job(old(self)@, job),
    {
        proof {
            submission_keeps_the_invariant(self@, job);
        }
        self.queue.push_back(Message::NewJob(job));
        self.submitted = Ghost(self.submitted@.push(job));
    }

    /// Hands the oldest message to the waiting worker `id`, if there is one:
    /// with a job the worker is running, with the request to exit it has
    /// exited. With an empty queue nothing changes.
    pub fn take(&mut self, id: usize) -> (message: Option<Message<J>>)
        requires
            old(self).wf(),
            id < old(self)@.workers.len(),
            old(self)@.workers[id as int].state == WorkerState::Waiting,
        ensures
            final(self).wf(),
            message == (if old(self)@.queue.len() == 0 {
                None
            } else {
                Some(old(self)@.queue[0])
            }),
            final(self)@ == after_take(old(self)@, id as int),
    {
        let ghost before = self@;
        proof {
            take_keeps_the_invariant(before, id as int);
        }
        let message = self.queue.pop_front();
        match &message {
            None => {},
            Some(first) => {
                let state = match first {
                    Message::NewJob(_) => WorkerState::Running,
                    Message::Terminate => WorkerState::Exited,
                };
                self.workers[id] = Worker { state, ..self.workers[id] };
                proof {
                    if let Message::NewJob(job) = first {
                        self.delivered = Ghost(self.delivered@.push(*job));
                    }
                    assert(self@.queue =~= before.queue.drop_first());
                }
            },
        }
        message
    }

    /// Takes note that the job which the worker `id` was running has ended.
    /// Whether it completed or faulted, the worker waits for its next
    /// message, and nothing else changes.
    pub fn finish(&mut self, id: usize, outcome: JobOutcome)
        requires
            old(self).wf(),
            id < old(self)@.workers.len(),
            old(self)@.workers[id as int].state == WorkerState::Running,
        ensures
            final(self).wf(),
            final(self)@ == after_finish(old(self)@, id as int, outcome),
    {
        proof {
            finish_keeps_the_invariant(self@, id as int, outcome);
        }
        self.workers[id] = Worker { state: WorkerState::Waiting, ..self.workers[id] };
        self.finished = Ghost(self.finished@ + 1);
        if outcome == JobOutcome::Faulted {
            self.faulted = Ghost(self.faulted@ + 1);
        }
    }

    /// Tears the pool down: sends each worker one request to exit, behind
    /// every job already queued, and hands out the workers whose threads are
    /// now to be joined, in order. A second teardown sends nothing and hands
    /// out no worker.
    pub fn shutdown(&mut self) -> (joined: Vec<usize>)
        requires
            old(self).wf(),
        ensures
            final(self).wf(),
            final(self)@ == torn_down(old(self)@),
            joined@ == (if old(self)@.draining {
                Seq::empty()
            } else {
                ids(old(self)@.workers.len())
            }),
    {
        let ghost before = self@;
        let mut joined: Vec<usize> = Vec::new();
        if self.draining {
            return joined;
        }
        let n: usize = self.workers.len();
        let mut sent: usize = 0;
        while sent < n
            invariant
                sent <= n,
                self.workers@ == before.workers,
                self.queue@ == before.queue + terminates(sent as nat),
                self.draining == before.draining,
                self.submitted@ == before.submitted,
                self.delivered@ == before.delivered,
                self.finished@ == before.finished,
                self.faulted@ == before.faulted,
            decreases n - sent,
        {
            self.queue.push_back(Message::Terminate);
            sent += 1;
            assert(self.queue@ =~= before.queue + terminates(sent as nat));
        }
        let mut i: usize = 0;
        while i < n
            invariant
                i <= n,
                n == before.workers.len(),
                self.workers@.len() == n,
                forall|k: int| 0 <= k < n ==> (#[trigger] before.workers[k]).id == k,
                forall|k: int|
                    0 <= k < i ==> (#[trigger] self.workers@[k]) == (Worker {
                        joinable: false,
                        ..before.workers[k]
                    }),
                forall|k: int| i <= k < n ==> (#[trigger] self.workers@[k]) == before.workers[k],
                joined@ == ids(i as nat),
                self.queue@ == before.queue + terminates(n as nat),
                self.draining == before.draining,
                self.submitted@ == before.submitted,
                self.delivered@ == before.delivered,
                self.finished@ == before.finished,
                self.faulted@ == before.faulted,
            decreases n - i,
        {
            let worker = Worker { joinable: false, ..self.workers[i] };
            self.workers[i] = worker;
            joined.push(worker.id);
            i += 1;
            assert(joined@ =~= ids(i as nat));
        }
        self.draining = true;
        proof {
            let after = self@;
            assert(after.workers =~= torn_down(before).workers);
            teardown_keeps_the_invariant(before);
        }
        joined
    }

    /// Whether every worker has exited.
    pub fn is_drained(&self) -> (yes: bool)
        ensures
            yes == (count_in(self@.workers, WorkerState::Exited) == self@.workers.len()),
    {
        let mut i: usize = 0;
        while i < self.workers.len()
            invariant
                i <= self.workers@.len(),
                forall|k: int| 0 <= k < i ==> (#[trigger] self.workers@[k]).state == WorkerState::Exited,
            decreases self.workers@.len() - i,
        {
            if self.workers[i].state != WorkerState::Exited {
                proof {
                    count_of_common_state(self@.workers, WorkerState::Exited);
                }
                return false;
            }
            i += 1;
        }
        proof {
            count_of_common_state(self@.workers, WorkerState::Exited);
        }
        true
    }
}

/// Requests to exit at the end of a queue leave its jobs as they are.
pub proof fn queue_with_terminates<J>(queue: Seq<Message<J>>, count: nat)
    ensures
        jobs_of(queue + terminates(count)) == jobs_of(queue),
        terminates_in(queue + terminates(count)) == terminates_in(queue) + count,
    decreases count,
{
    let all = queue + terminates::<J>(count);
    if count == 0 {
        assert(all =~= queue);
    } else {
        queue_with_terminates(queue, (count - 1) as nat);
        assert(all.drop_last() =~= queue + terminates::<J>((count - 1) as nat));
    }
}

/// The number of workers in a state depends on their states alone.
pub proof fn count_by_states(a: Seq<Worker>, b: Seq<Worker>, state: WorkerState)
    requires
        a.len() == b.len(),
        forall|i: int| 0 <= i < a.len() ==> (#[trigger] a[i]).state == b[i].state,
    ensures
        count_in(a, state) == count_in(b, state),
    decreases a.len(),
{
    if a.len() > 0 {
        assert forall|i: int| 0 <= i < a.drop_last().len() implies (#[trigger] a.drop_last()[i]).state
            == b.drop_last()[i].state by {
            assert(a.drop_last()[i] == a[i]);
        }
        count_by_states(a.drop_last(), b.drop_last(), state);
        assert(a.last() == a[a.len() - 1]);
    }
}

/// A submission before teardown keeps the invariant of the pool.
pub proof fn submission_keeps_the_invariant<J>(p: PoolView<J>, job: J)
    requires
        pool_wf(p),
        !p.draining,
    ensures
        pool_wf(with_job(p, job)),
{
    let q = with_job(p, job);
    assert(q.queue.drop_last() =~= p.queue);
    assert(q.submitted =~= q.delivered + jobs_of(q.queue));
    assert forall|i: int, j: int|
        0 <= i < j < q.queue.len() && (#[trigger] q.queue[i]) is Terminate implies (
    #[trigger] q.queue[j]) is Terminate by {
        no_terminate_at(p.queue, i);
    }
}

/// A waiting worker that takes the oldest message keeps the invariant of the
/// pool.
pub proof fn take_keeps_the_invariant<J>(p: PoolView<J>, id: int)
    requires
        pool_wf(p),
        0 <= id < p.workers.len(),
        p.workers[id].state == WorkerState::Waiting,
    ensures
        pool_wf(after_take(p, id)),
{
    if p.queue.len() > 0 {
        let q = after_take(p, id);
        queue_front(p.queue);
        count_after_update(p.workers, id, q.workers[id], WorkerState::Exited);
        count_after_update(p.workers, id, q.workers[id], WorkerState::Running);
        assert forall|i: int, j: int|
            0 <= i < j < q.queue.len() && (#[trigger] q.queue[i]) is Terminate implies (
        #[trigger] q.queue[j]) is Terminate by {
            assert(p.queue[i + 1] is Terminate);
            assert(p.queue[j + 1] is Terminate);
        }
        match p.queue[0] {
            Message::NewJob(job) => {
                assert(q.submitted =~= q.delivered + jobs_of(q.queue));
            },
            Message::Terminate => {
                assert forall|i: int| 0 <= i < p.queue.len() implies (#[trigger] p.queue[i])
                    is Terminate by {}
                queue_of_terminates(p.queue);
                assert(jobs_of(q.queue) =~= Seq::<J>::empty());
            },
        }
    }
}

/// The end of a job keeps the invariant of the pool.
pub proof fn finish_keeps_the_invariant<J>(p: PoolView<J>, id: int, outcome: JobOutcome)
    requires
        pool_wf(p),
        0 <= id < p.workers.len(),
        p.workers[id].state == WorkerState::Running,
    ensures
        pool_wf(after_finish(p, id, outcome)),
{
    let q = after_finish(p, id, outcome);
    count_after_update(p.workers, id, q.workers[id], WorkerState::Exited);
    count_after_update(p.workers, id, q.workers[id], WorkerState::Running);
}

/// Teardown keeps the invariant of the pool.
pub proof fn teardown_keeps_the_invariant<J>(p: PoolView<J>)
    requires
        pool_wf(p),
    ensures
        pool_wf(torn_down(p)),
{
    if !p.draining {
        let q = torn_down(p);
        let n = p.workers.len();
        queue_with_terminates(p.queue, n);
        count_by_states(q.workers, p.workers, WorkerState::Exited);
        count_by_states(q.workers, p.workers, WorkerState::Running);
        assert forall|i: int, j: int|
            0 <= i < j < q.queue.len() && (#[trigger] q.queue[i]) is Terminate implies (
        #[trigger] q.queue[j]) is Terminate by {
            if i < p.queue.len() {
                assert(q.queue[i] == p.queue[i]);
                no_terminate_at(p.queue, i);
            }
        }
    }
}

/// Every job is handed out once and in the order of submission: the jobs
/// handed out so far, followed by those still queued, are the jobs submitted.
/// Once no job is left in the queue, the jobs handed out are exactly those
/// submitted, whichever workers took them.
pub proof fn each_job_is_delivered_once<J>(p: PoolView<J>)
    requires
        pool_wf(p),
    ensures
        p.submitted == p.delivered + jobs_of(p.queue),
        jobs_of(p.queue).len() == 0 ==> p.delivered == p.submitted,
{
    assert(jobs_of(p.queue).len() == 0 ==> p.delivered + jobs_of(p.queue) =~= p.delivered);
}

/// Teardown drains the pool: once every worker has exited, which is when
/// every join has returned, the queue is empty and every job that was
/// submitted has been handed out and has ended.
pub proof fn teardown_drains<J>(p: PoolView<J>)
    requires
        pool_wf(p),
        count_in(p.workers, WorkerState::Exited) == p.workers.len(),
    ensures
        p.draining,
        p.queue.len() == 0,
        p.delivered == p.submitted,
        p.finished == p.submitted.len(),
{
    queue_parts(p.queue);
    count_of_common_state(p.workers, WorkerState::Exited);
    count_of_absent_state(p.workers, WorkerState::Running);
    each_job_is_delivered_once(p);
}

/// Teardown sends exactly one request to exit for each worker and leaves no
/// worker's thread to be joined; a second teardown changes nothing.
pub proof fn teardown_is_exact<J>(p: PoolView<J>)
    requires
        pool_wf(p),
        !p.draining,
    ensures
        torn_down(p).queue == p.queue + terminates(p.workers.len()),
        terminates_in(p.queue) == 0,
        terminates_in(torn_down(p).queue) == p.workers.len(),
        forall|i: int|
            0 <= i < p.workers.len() ==> !(#[trigger] torn_down(p).workers[i]).joinable,
        torn_down(torn_down(p)) == torn_down(p),
{
    queue_with_terminates(p.queue, p.workers.len());
}

/// Once teardown has begun, the requests to exit still queued and the
/// workers that have exited are together as many as the workers: each worker
/// gets exactly one, and none is left over when all have exited.
pub proof fn one_terminate_per_worker<J>(p: PoolView<J>)
    requires
        pool_wf(p),
        p.draining,
    ensures
        terminates_in(p.queue) + count_in(p.workers, WorkerState::Exited) == p.workers.len(),
{
}

/// A fault stays with the job that raised it. Whether the job of the worker
/// `id` completed or faulted, that worker waits for its next message and may
/// take it, no other worker and nothing in the queue is touched, and the pool
/// goes on taking jobs if it did before. The two outcomes differ in the count
/// of faults alone.
pub proof fn fault_is_isolated<J>(p: PoolView<J>, id: int)
    requires
        pool_wf(p),
        0 <= id < p.workers.len(),
        p.workers[id].state == WorkerState::Running,
    ensures
        pool_wf(after_finish(p, id, JobOutcome::Faulted)),
        after_finish(p, id, JobOutcome::Faulted).workers[id].state == WorkerState::Waiting,
        forall|i: int|
            0 <= i < p.workers.len() && i != id ==> (#[trigger] after_finish(
                p,
                id,
                JobOutcome::Faulted,
            ).workers[i]) == p.workers[i],
        after_finish(p, id, JobOutcome::Faulted).queue == p.queue,
        after_finish(p, id, JobOutcome::Faulted).draining == p.draining,
        after_finish(p, id, JobOutcome::Faulted) == (PoolView {
            faulted: p.faulted + 1,
            ..after_finish(p, id, JobOutcome::Completed)
        }),
        pool_wf(after_take(after_finish(p, id, JobOutcome::Faulted), id)),
{
    finish_keeps_the_invariant(p, id, JobOutcome::Faulted);
    take_keeps_the_invariant(after_finish(p, id, JobOutcome::Faulted), id);
}

/// A queue without requests to exit holds none at any place.
pub proof fn no_terminate_at<J>(queue: Seq<Message<J>>, at: int)
    requires
        terminates_in(queue) == 0,
        0 <= at < queue.len(),
    ensures
        !(queue[at] is Terminate),
    decreases queue.len(),
{
    if at < queue.len() - 1 {
        no_terminate_at(queue.drop_last(), at);
    }
}

} // verus!
