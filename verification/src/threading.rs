//! The job queue of the worker pool.
//!
//! The pool's threads live with the caller. What they share is this queue:
//! jobs are submitted to it, and an idle worker takes the job that has
//! waited longest. The queue is described by the jobs handed out so far and
//! the jobs still waiting, and every history of submissions and takes hands
//! each job to exactly one worker, in the order of submission.

use std::collections::VecDeque;
use vstd::prelude::*;

verus! {

/// What can happen to the queue: a job is submitted, or an idle worker asks
/// for one.
pub enum QueueOp<T> {
    Submit(T),
    Take,
}

/// The queue as plain values: the jobs handed to workers so far and the
/// jobs still waiting, each in order.
pub struct QueueView<T> {
    pub handed: Seq<T>,
    pub waiting: Seq<T>,
}

/// The queue before anything has happened.
pub open spec fn fresh<T>() -> QueueView<T> {
    QueueView { handed: Seq::<T>::empty(), waiting: Seq::<T>::empty() }
}

/// The queue after `op`. A submitted job waits behind the others. A take
/// hands out the job that has waited longest, and changes nothing where no
/// job waits.
pub open spec fn step<T>(s: QueueView<T>, op: QueueOp<T>) -> QueueView<T> {
    match op {
        QueueOp::Submit(job) => QueueView { handed: s.handed, waiting: s.waiting.push(job) },
        QueueOp::Take => if s.waiting.len() > 0 {
            QueueView { handed: s.handed.push(s.waiting[0]), waiting: s.waiting.drop_first() }
        } else {
            s
        },
    }
}

/// The queue after the history `ops`.
pub open spec fn run<T>(ops: Seq<QueueOp<T>>) -> QueueView<T>
    decreases ops.len(),
{
    if ops.len() == 0 {
        fresh()
    } else {
        step(run(ops.drop_last()), ops.last())
    }
}

/// The jobs submitted in the history `ops`, in order.
pub open spec fn submitted<T>(ops: Seq<QueueOp<T>>) -> Seq<T>
    decreases ops.len(),
{
    if ops.len() == 0 {
        Seq::<T>::empty()
    } else {
        match ops.last() {
            QueueOp::Submit(job) => submitted(ops.drop_last()).push(job),
            QueueOp::Take => submitted(ops.drop_last()),
        }
    }
}

/// Whatever the order of submissions and takes, the jobs handed out
/// followed by the jobs waiting are the jobs submitted, in order: no job is
/// lost and none is handed out twice. Once no job waits, every submitted job
/// has been handed out exactly once.
pub proof fn lemma_every_job_once<T>(ops: Seq<QueueOp<T>>)
    ensures
        run(ops).handed + run(ops).waiting == submitted(ops),
        run(ops).handed.len() <= submitted(ops).len(),
        run(ops).waiting.len() == 0 ==> run(ops).handed == submitted(ops),
    decreases ops.len(),
{
    if ops.len() > 0 {
        let before = run(ops.drop_last());
        lemma_every_job_once(ops.drop_last());
        match ops.last() {
            QueueOp::Submit(job) => {
                assert(before.handed + before.waiting.push(job) =~= (before.handed
                    + before.waiting).push(job));
            },
            QueueOp::Take => {
                if before.waiting.len() > 0 {
                    assert(before.handed.push(before.waiting[0]) + before.waiting.drop_first()
                        =~= before.handed + before.waiting);
                }
            },
        }
    } else {
        assert(fresh::<T>().handed + fresh::<T>().waiting =~= Seq::<T>::empty());
    }
    if run(ops).waiting.len() == 0 {
        assert(run(ops).handed + run(ops).waiting =~= run(ops).handed);
    }
}

/// The queue that the workers of a pool share.
pub struct JobQueue<T> {
    size: usize,
    waiting: VecDeque<T>,
    handed: Ghost<Seq<T>>,
}

impl<T> View for JobQueue<T> {
    type V = QueueView<T>;

    closed spec fn view(&self) -> QueueView<T> {
        QueueView { handed: self.handed@, waiting: self.waiting@ }
    }
}

impl<T> JobQueue<T> {
    /// The number of workers of the pool.
    pub closed spec fn workers(&self) -> usize {
        self.size
    }

    /// The queue of a pool of `size` workers. A pool has at least one worker.
    pub fn new(size: usize) -> (q: Self)
        requires
            size > 0,
        ensures
            q@ == fresh::<T>(),
            q.workers() == size,
    {
        JobQueue { size, waiting: VecDeque::new(), handed: Ghost(Seq::empty()) }
    }

    /// The number of workers of the pool.
    pub fn size(&self) -> (n: usize)
        ensures
            n == self.workers(),
    {
        self.size
    }

    /// The number of jobs that wait.
    pub fn len(&self) -> (n: usize)
        ensures
            n == self@.waiting.len(),
    {
        self.waiting.len()
    }

    /// Puts `job` behind the jobs that wait.
    pub fn submit(&mut self, job: T)
        ensures
            final(self)@ == step(old(self)@, QueueOp::Submit(job)),
            final(self).workers() == old(self).workers(),
    {
        self.waiting.push_back(job);
    }

    /// Hands out the job that has waited longest, if any job waits.
    pub fn take(&mut self) -> (r: Option<T>)
        ensures
            final(self)@ == step(old(self)@, QueueOp::Take),
            final(self).workers() == old(self).workers(),
            r == if old(self)@.waiting.len() > 0 {
                Some(old(self)@.waiting[0])
            } else {
                None
            },
    {
        let r = self.waiting.pop_front();
        proof {
            if r is Some {
                self.handed@ = self.handed@.push(r->0);
            }
        }
        r
    }
}

} // verus!
