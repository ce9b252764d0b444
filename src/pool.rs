//! The bounded job queue that the worker pool shares: submission that sheds
//! load when full, first-in first-out hand-out, and ordered shutdown.
use vstd::prelude::*;
use std::collections::VecDeque;

verus! {

/// How many jobs may wait at once.
pub const QUEUE_CAPACITY: usize = 1000;

/// What the queue hands a worker.
pub enum Message<T> {
    /// A job to run.
    NewJob(T),
    /// The worker is to stop.
    Terminate,
}

/// Why a pool cannot be made.
#[derive(Debug, PartialEq, Eq, Structural)]
pub enum PoolError {
    /// A pool needs at least one worker.
    InvalidConfiguration,
}

/// The state of a queue: the messages waiting, oldest first, the bound on
/// waiting jobs, the number of workers, and whether shutdown has begun.
pub struct QueueModel<T> {
    pub messages: Seq<Message<T>>,
    pub capacity: nat,
    pub workers: nat,
    pub closed: bool,
}

/// No stop message waits ahead of a job.
pub open spec fn jobs_before_terminates<T>(m: Seq<Message<T>>) -> bool {
    forall|i: int, j: int|
        0 <= i < j < m.len() && (#[trigger] m[i]) is Terminate ==> (#[trigger] m[j]) is Terminate
}

/// The number of stop messages in `m`.
pub open spec fn terminate_count<T>(m: Seq<Message<T>>) -> nat
    decreases m.len(),
{
    if m.len() == 0 {
        0
    } else {
        terminate_count(m.drop_last()) + if m.last() is Terminate {
            1nat
        } else {
            0nat
        }
    }
}

/// The queue's invariant: before shutdown only jobs wait, at most `capacity` of
/// them; after it, the jobs that were waiting come first and one stop message
/// for each worker stands behind them, minus those already handed out.
pub open spec fn queue_wf<T>(q: QueueModel<T>) -> bool {
    &&& q.workers > 0
    &&& jobs_before_terminates(q.messages)
    &&& terminate_count(q.messages) <= q.workers
    &&& !q.closed ==> q.messages.len() <= q.capacity && terminate_count(q.messages) == 0
}

/// `n` stop messages.
pub open spec fn terminates<T>(n: nat) -> Seq<Message<T>> {
    Seq::new(n, |i: int| Message::Terminate)
}

/// One submission of `job`: the new state, and whether the job was taken.
pub open spec fn submit_step<T>(q: QueueModel<T>, job: T) -> (QueueModel<T>, bool) {
    if q.closed || q.messages.len() >= q.capacity {
        (q, false)
    } else {
        (QueueModel { messages: q.messages.push(Message::NewJob(job)), ..q }, true)
    }
}

/// The state after submitting `jobs` in order, with nothing taken meanwhile.
pub open spec fn submit_all<T>(q: QueueModel<T>, jobs: Seq<T>) -> QueueModel<T>
    decreases jobs.len(),
{
    if jobs.len() == 0 {
        q
    } else {
        submit_step(submit_all(q, jobs.drop_last()), jobs.last()).0
    }
}

/// How many of `jobs`, submitted in order with nothing taken meanwhile, are
/// taken.
pub open spec fn accepted<T>(q: QueueModel<T>, jobs: Seq<T>) -> nat
    decreases jobs.len(),
{
    if jobs.len() == 0 {
        0
    } else {
        accepted(q, jobs.drop_last()) + if submit_step(submit_all(q, jobs.drop_last()), jobs.last()).1 {
            1nat
        } else {
            0nat
        }
    }
}

/// Saturation: while no worker takes a job, an open empty queue takes the first
/// `capacity` submissions and turns every later one away, and is left full.
pub proof fn lemma_saturation<T>(q: QueueModel<T>, jobs: Seq<T>)
    requires
        !q.closed,
        q.messages.len() == 0,
    ensures
        accepted(q, jobs) == if jobs.len() <= q.capacity {
            jobs.len()
        } else {
            q.capacity
        },
        submit_all(q, jobs).messages.len() == accepted(q, jobs),
        !submit_all(q, jobs).closed,
        submit_all(q, jobs).capacity == q.capacity,
    decreases jobs.len(),
{
    if jobs.len() > 0 {
        lemma_saturation(q, jobs.drop_last());
    }
}

/// A full open queue turns a job away and keeps its waiting jobs in order; once
/// a worker takes the oldest one, the next submission is taken behind the rest.
pub proof fn lemma_full_then_freed<T>(q: QueueModel<T>, job: T)
    requires
        queue_wf(q),
        !q.closed,
        q.capacity > 0,
        q.messages.len() == q.capacity,
    ensures
        submit_step(q, job) == (q, false),
        ({
            let freed = QueueModel { messages: q.messages.drop_first(), ..q };
            submit_step(freed, job) == (QueueModel {
                messages: q.messages.drop_first().push(Message::NewJob(job)),
                ..q
            }, true)
        }),
{
}

/// Shutdown discards no job: every job that waited when shutdown began keeps its
/// place, ahead of all the stop messages, so workers, which take messages in
/// order and stop only on a stop message, run each of them first; and exactly
/// one stop message is queued per worker.
pub proof fn lemma_shutdown_keeps_jobs<T>(before: QueueModel<T>, after: Seq<Message<T>>)
    requires
        queue_wf(before),
        !before.closed,
        after == before.messages + terminates::<T>(before.workers),
    ensures
        forall|i: int|
            0 <= i < before.messages.len() ==> #[trigger] after[i] == before.messages[i] && !(
            after[i] is Terminate),
        forall|j: int| before.messages.len() <= j < after.len() ==> #[trigger] after[j] is Terminate,
        after.len() == before.messages.len() + before.workers,
        terminate_count(after) == before.workers,
{
    assert forall|i: int| 0 <= i < before.messages.len() implies #[trigger] after[i]
        == before.messages[i] && !(after[i] is Terminate) by {
        lemma_no_terminate(before.messages, i);
    }
    lemma_count_terminates(before.messages, before.workers);
}

/// Appending `n` stop messages adds `n` to the count.
proof fn lemma_count_terminates<T>(m: Seq<Message<T>>, n: nat)
    ensures
        terminate_count(m + terminates::<T>(n)) == terminate_count(m) + n,
    decreases n,
{
    if n == 0 {
        assert(m + terminates::<T>(0) =~= m);
    } else {
        lemma_count_terminates(m, (n - 1) as nat);
        assert(m + terminates::<T>(n) =~= (m + terminates::<T>((n - 1) as nat)).push(Message::Terminate));
        lemma_push_terminate(m + terminates::<T>((n - 1) as nat));
    }
}

/// The job queue of a worker pool.
pub struct JobQueue<T> {
    messages: VecDeque<Message<T>>,
    workers: usize,
    closed: bool,
}

impl<T> View for JobQueue<T> {
    type V = QueueModel<T>;

    closed spec fn view(&self) -> QueueModel<T> {
        QueueModel {
            messages: self.messages@,
            capacity: QUEUE_CAPACITY as nat,
            workers: self.workers as nat,
            closed: self.closed,
        }
    }
}

proof fn lemma_push_job<T>(m: Seq<Message<T>>, job: Message<T>)
    requires
        !(job is Terminate),
    ensures
        terminate_count(m.push(job)) == terminate_count(m),
{
    assert(m.push(job).drop_last() =~= m);
}

proof fn lemma_push_terminate<T>(m: Seq<Message<T>>)
    ensures
        terminate_count(m.push(Message::Terminate)) == terminate_count(m) + 1,
{
    assert(m.push(Message::Terminate).drop_last() =~= m);
}

proof fn lemma_no_terminate<T>(m: Seq<Message<T>>, i: int)
    requires
        terminate_count(m) == 0,
        0 <= i < m.len(),
    ensures
        !(m[i] is Terminate),
    decreases m.len(),
{
    if i < m.len() - 1 {
        lemma_no_terminate(m.drop_last(), i);
    }
}

proof fn lemma_pop_front<T>(m: Seq<Message<T>>)
    requires
        m.len() > 0,
    ensures
        terminate_count(m) == terminate_count(m.drop_first()) + if m[0] is Terminate {
            1nat
        } else {
            0nat
        },
    decreases m.len(),
{
    if m.len() > 1 {
        lemma_pop_front(m.drop_last());
        assert(m.drop_last().drop_first() =~= m.drop_first().drop_last());
        assert(m.drop_first().last() == m.last());
        assert(m.drop_last()[0] == m[0]);
    } else {
        assert(m.drop_first().len() == 0);
        assert(m.drop_last().len() == 0);
        assert(terminate_count(m.drop_last()) == 0);
        assert(terminate_count(m.drop_first()) == 0);
        assert(m.last() == m[0]);
    }
}

impl<T> JobQueue<T> {
    /// The invariant holds, and the queue has the pool's capacity.
    pub open spec fn wf(&self) -> bool {
        queue_wf(self@) && self@.capacity == QUEUE_CAPACITY
    }

    /// An empty, open queue for `thread_count` workers; no pool without workers.
    pub fn new(thread_count: usize) -> (r: Result<JobQueue<T>, PoolError>)
        ensures
            thread_count == 0 <==> r is Err,
            r is Err ==> r == Err::<JobQueue<T>, PoolError>(PoolError::InvalidConfiguration),
            r matches Ok(q) ==> q.wf() && q@.messages.len() == 0 && q@.capacity
                == QUEUE_CAPACITY && q@.workers == thread_count && !q@.closed,
    {
        if thread_count == 0 {
            return Err(PoolError::InvalidConfiguration);
        }
        let q = JobQueue { messages: VecDeque::new(), workers: thread_count, closed: false };
        assert(terminate_count(q@.messages) == 0);
        Ok(q)
    }

    /// Queues `job` without blocking. It is handed back, and nothing changes,
    /// where the queue is full or shutdown has begun.
    pub fn try_submit(&mut self, job: T) -> (r: Result<(), T>)
        requires
            old(self).wf(),
        ensures
            final(self).wf(),
            (old(self)@.closed || old(self)@.messages.len() >= old(self)@.capacity) <==> r is Err,
            r is Err ==> final(self)@ == old(self)@ && r == Err::<(), T>(job),
            r is Ok ==> final(self)@ == (QueueModel {
                messages: old(self)@.messages.push(Message::NewJob(job)),
                ..old(self)@
            }),
            (final(self)@, r is Ok) == submit_step(old(self)@, job),
    {
        if self.closed || self.messages.len() >= QUEUE_CAPACITY {
            return Err(job);
        }
        let ghost before = self.messages@;
        self.messages.push_back(Message::NewJob(job));
        proof {
            lemma_push_job(before, Message::NewJob(job));
            assert forall|i: int, j: int|
                0 <= i < j < self.messages@.len() && (#[trigger] self.messages@[i]) is Terminate
                    implies (#[trigger] self.messages@[j]) is Terminate by {
                if j < before.len() {
                    assert(self.messages@[i] == before[i]);
                } else {
                    lemma_no_terminate(before, i);
                    assert(self.messages@[i] == before[i]);
                }
            }
        }
        Ok(())
    }

    /// Begins shutdown: no job is taken from now on, and behind the jobs that
    /// wait one stop message is queued for each worker. A second call changes
    /// nothing.
    pub fn shutdown(&mut self)
        requires
            old(self).wf(),
        ensures
            final(self).wf(),
            final(self)@.closed,
            final(self)@.workers == old(self)@.workers,
            final(self)@.capacity == old(self)@.capacity,
            !old(self)@.closed ==> final(self)@.messages == old(self)@.messages + terminates::<T>(
                old(self)@.workers,
            ),
            old(self)@.closed ==> final(self)@ == old(self)@,
    {
        if self.closed {
            return;
        }
        self.closed = true;
        let ghost before = self.messages@;
        let mut k: usize = 0;
        while k < self.workers
            invariant
                k <= self.workers,
                self.workers == old(self).workers,
                self.closed,
                before == old(self)@.messages,
                terminate_count(before) == 0,
                self.messages@ == before + terminates::<T>(k as nat),
                terminate_count(self.messages@) == k,
            decreases self.workers - k,
        {
            let ghost prev = self.messages@;
            self.messages.push_back(Message::Terminate);
            proof {
                lemma_push_terminate(prev);
                assert(self.messages@ =~= before + terminates::<T>((k + 1) as nat));
            }
            k = k + 1;
        }
        proof {
            let m = self.messages@;
            assert forall|i: int, j: int|
                0 <= i < j < m.len() && (#[trigger] m[i]) is Terminate implies (#[trigger] m[j]) is Terminate by {
                if i < before.len() {
                    lemma_no_terminate(before, i);
                }
            }
        }
    }

    /// Hands out the oldest waiting message, if any.
    pub fn next(&mut self) -> (r: Option<Message<T>>)
        requires
            old(self).wf(),
        ensures
            final(self).wf(),
            old(self)@.messages.len() == 0 ==> r is None && final(self)@ == old(self)@,
            old(self)@.messages.len() > 0 ==> r == Some(old(self)@.messages[0]) && final(self)@ == (
            QueueModel { messages: old(self)@.messages.drop_first(), ..old(self)@ }),
    {
        let ghost before = self.messages@;
        let r = self.messages.pop_front();
        proof {
            if before.len() > 0 {
                lemma_pop_front(before);
                assert(self.messages@ =~= before.drop_first());
                if terminate_count(before) == 0 {
                    assert(terminate_count(self.messages@) == 0);
                }
            }
        }
        r
    }

    /// How many messages wait.
    pub fn len(&self) -> (r: usize)
        ensures
            r == self@.messages.len(),
    {
        self.messages.len()
    }

    /// How many jobs may wait at once.
    pub fn capacity(&self) -> (r: usize)
        ensures
            r == self@.capacity,
            r == QUEUE_CAPACITY,
    {
        QUEUE_CAPACITY
    }

    /// Whether shutdown has begun.
    pub fn is_closed(&self) -> (r: bool)
        ensures
            r == self@.closed,
    {
        self.closed
    }

    /// The number of workers the queue serves.
    pub fn workers(&self) -> (r: usize)
        ensures
            r == self@.workers,
    {
        self.workers
    }
}

} // verus!
