//! Steps of an action pipeline: one job on its own, or a batch of jobs that
//! run together and share the batch's identifier.

use vstd::prelude::*;

verus! {

/// The outcome of running a job or a step.
#[derive(Clone, Copy, Debug, PartialEq, Eq, Structural)]
pub enum RunState {
    Passed,
    Failed,
}

/// A unit of work: an identifier, the batch it belongs to, an optional
/// timeout in seconds, and the action that does the work.
pub struct Job<A> {
    pub id: String,
    pub batch_id: Option<String>,
    pub timeout: Option<u64>,
    pub action: A,
}

impl<A> Job<A> {
    /// A job outside of any batch, without a timeout.
    pub fn new(id: String, action: A) -> (j: Job<A>)
        ensures
            j.id == id,
            j.batch_id is None,
            j.timeout is None,
            j.action == action,
    {
        Job { id, batch_id: None, timeout: None, action }
    }
}

/// A step that runs one job.
pub struct IsolatedStep<A> {
    pub job: Job<A>,
}

impl<A> IsolatedStep<A> {
    /// A step of a new job.
    pub fn new(id: String, action: A) -> (s: IsolatedStep<A>)
        ensures
            s.job.id == id,
            s.job.batch_id is None,
            s.job.timeout is None,
            s.job.action == action,
    {
        IsolatedStep { job: Job::new(id, action) }
    }

    /// A step of an existing job.
    pub fn from(job: Job<A>) -> (s: IsolatedStep<A>)
        ensures
            s.job == job,
    {
        IsolatedStep { job }
    }
}

/// A step that runs several jobs at once.
pub struct BatchedStep<A> {
    pub id: String,
    pub jobs: Vec<Job<A>>,
}

impl<A> BatchedStep<A> {
    /// An empty batch.
    pub fn new(id: String) -> (s: BatchedStep<A>)
        ensures
            s.id == id,
            s.jobs@.len() == 0,
    {
        BatchedStep { id, jobs: Vec::new() }
    }

    /// Adds a job to the batch; the job takes the batch's identifier.
    /// Gives the batch back for more additions.
    pub fn add_job(&mut self, job: Job<A>) -> (r: &mut Self)
        ensures
            r.id == old(self).id,
            r.jobs@.len() == old(self).jobs@.len() + 1,
            forall|i: int| 0 <= i < old(self).jobs@.len() ==> #[trigger] r.jobs@[i] == old(self).jobs@[i],
            r.jobs@[old(self).jobs@.len() as int].id == job.id,
            r.jobs@[old(self).jobs@.len() as int].timeout == job.timeout,
            r.jobs@[old(self).jobs@.len() as int].action == job.action,
            r.jobs@[old(self).jobs@.len() as int].batch_id matches Some(b) && b@ == old(self).id@,
            *final(self) == *final(r),
    {
        let mut job = job;
        job.batch_id = Some(self.id.clone());
        self.jobs.push(job);
        self
    }
}

/// The state of a batch from the number of its jobs that failed.
pub fn batch_run_state(fail_count: usize) -> (r: RunState)
    ensures
        r == (if fail_count > 0 {
            RunState::Failed
        } else {
            RunState::Passed
        }),
{
    if fail_count > 0 {
        RunState::Failed
    } else {
        RunState::Passed
    }
}

/// A job that ended in error stops the pipeline unless it was cancelled
/// (and did not panic).
pub fn join_error_aborts(is_cancelled: bool, is_panic: bool) -> (r: bool)
    ensures
        r == (!is_cancelled || is_panic),
{
    !is_cancelled || is_panic
}

} // verus!
