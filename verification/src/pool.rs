//! The verified core of the fixed-size worker pool: the shared job queue and
//! its discipline. Submission appends; a worker takes the oldest pending job;
//! closing stops submission but keeps every pending job, so that shutdown
//! drains the queue before any worker exits. The embedding application wraps
//! this state in a lock, spawns the threads, and blocks on `Wait`.

use vstd::prelude::*;

verus! {

/// Why a pool could not be built.
#[derive(Debug, Clone, Copy, PartialEq, Eq, Structural)]
pub enum PoolCreationError {
    /// A pool needs at least one worker thread.
    ZeroThreadsError,
}

/// What a worker does next: run the job it was handed, wait for a job to
/// arrive, or exit because the queue is closed and drained.
#[derive(Debug, PartialEq)]
pub enum WorkerAction<J> {
    Run(J),
    Wait,
    Exit,
}

/// The pool's shared state: the pending jobs in submission order, whether
/// submission is still open, and the fixed number of worker threads. The two
/// ghost sequences record every job ever accepted and every job handed to a
/// worker, so the queue discipline can be stated and proved.
pub struct Pool<J> {
    workers: usize,
    open: bool,
    jobs: Vec<J>,
    accepted: Ghost<Seq<J>>,
    handed: Ghost<Seq<J>>,
}

impl<J> Pool<J> {
    /// The fixed number of worker threads.
    pub closed spec fn thread_count(self) -> usize {
        self.workers
    }

    /// Whether the pool still accepts submissions.
    pub closed spec fn accepting(self) -> bool {
        self.open
    }

    /// The pending jobs, oldest first.
    pub closed spec fn pending(self) -> Seq<J> {
        self.jobs@
    }

    /// Every job ever accepted, in submission order.
    pub closed spec fn submitted(self) -> Seq<J> {
        self.accepted@
    }

    /// Every job handed to a worker, in the order they were handed out.
    pub closed spec fn handed_out(self) -> Seq<J> {
        self.handed@
    }

    /// The queue discipline: the accepted jobs are exactly the handed-out
    /// ones followed by the pending ones.
    pub open spec fn wf(self) -> bool {
        self.submitted() == self.handed_out() + self.pending()
    }

    /// Builds the pool state for `size` worker threads; a pool with zero
    /// threads is a configuration error.
    pub fn build(size: usize) -> (r: Result<Pool<J>, PoolCreationError>)
        ensures
            size == 0 <==> r is Err,
            r is Err ==> r->Err_0 == PoolCreationError::ZeroThreadsError,
            r matches Ok(p) ==> p.wf() && p.thread_count() == size && p.accepting()
                && p.pending() == Seq::<J>::empty() && p.submitted() == Seq::<J>::empty()
                && p.handed_out() == Seq::<J>::empty(),
    {
        if size == 0 {
            return Err(PoolCreationError::ZeroThreadsError);
        }
        let p = Pool {
            workers: size,
            open: true,
            jobs: Vec::new(),
            accepted: Ghost(Seq::empty()),
            handed: Ghost(Seq::empty()),
        };
        proof {
            assert(p.submitted() =~= p.handed_out() + p.pending());
        }
        Ok(p)
    }

    /// Whether the pool still accepts submissions.
    pub fn is_open(&self) -> (b: bool)
        ensures
            b == self.accepting(),
    {
        self.open
    }

    /// How many jobs are pending.
    pub fn pending_len(&self) -> (n: usize)
        ensures
            n == self.pending().len(),
    {
        self.jobs.len()
    }

    /// Accepts one job at the end of the queue. Never waits on job
    /// completion; a submitted job is never dropped.
    pub fn execute(&mut self, job: J)
        requires
            old(self).accepting(),
            old(self).wf(),
        ensures
            final(self).wf(),
            final(self).pending() == old(self).pending().push(job),
            final(self).submitted() == old(self).submitted().push(job),
            final(self).handed_out() == old(self).handed_out(),
            final(self).accepting() == old(self).accepting(),
            final(self).thread_count() == old(self).thread_count(),
    {
        self.accepted = Ghost(self.accepted@.push(job));
        self.jobs.push(job);
        proof {
            assert(self.submitted() =~= self.handed_out() + self.pending());
        }
    }

    /// Closes submission. No pending job is lost: shutdown begins by closing
    /// the queue, and the workers then drain it.
    pub fn close(&mut self)
        ensures
            !final(self).accepting(),
            final(self).pending() == old(self).pending(),
            final(self).submitted() == old(self).submitted(),
            final(self).handed_out() == old(self).handed_out(),
            final(self).thread_count() == old(self).thread_count(),
            old(self).wf() ==> final(self).wf(),
    {
        self.open = false;
    }

    /// One worker's decision: take the oldest pending job to run it; wait
    /// when nothing is pending but the queue is open; exit only when the
    /// queue is closed and drained.
    pub fn next_action(&mut self) -> (a: WorkerAction<J>)
        requires
            old(self).wf(),
        ensures
            final(self).wf(),
            final(self).accepting() == old(self).accepting(),
            final(self).thread_count() == old(self).thread_count(),
            final(self).submitted() == old(self).submitted(),
            old(self).pending().len() > 0 ==> (a matches WorkerAction::Run(j)
                && j == old(self).pending()[0]
                && final(self).pending() == old(self).pending().skip(1)
                && final(self).handed_out() == old(self).handed_out().push(old(self).pending()[0])),
            old(self).pending().len() == 0 && old(self).accepting() ==> a is Wait
                && *final(self) == *old(self),
            old(self).pending().len() == 0 && !old(self).accepting() ==> a is Exit
                && *final(self) == *old(self),
    {
        if self.jobs.len() > 0 {
            proof {
                assert(self.jobs@[0] == self.pending()[0]);
            }
            self.handed = Ghost(self.handed@.push(self.jobs@[0]));
            let job = self.jobs.remove(0);
            proof {
                assert(self.pending() =~= old(self).pending().skip(1));
                assert(self.submitted() =~= self.handed_out() + self.pending());
            }
            WorkerAction::Run(job)
        } else if self.open {
            WorkerAction::Wait
        } else {
            WorkerAction::Exit
        }
    }
}

/// No job is lost and none is handed out twice: at every well-formed state,
/// the jobs ever accepted are exactly the jobs already handed to workers
/// followed by the jobs still pending, each in submission order.
pub proof fn law_jobs_conserved<J>(p: Pool<J>)
    requires
        p.wf(),
    ensures
        p.submitted() == p.handed_out() + p.pending(),
{
}

/// Shutdown drains: a worker can exit only once nothing is pending, and at
/// that point every job accepted before the close has been handed to some
/// worker.
pub proof fn law_shutdown_drains<J>(p: Pool<J>)
    requires
        p.wf(),
        p.pending().len() == 0,
    ensures
        p.handed_out() == p.submitted(),
{
    assert(p.handed_out() =~= p.handed_out() + p.pending());
}

} // verus!
