use vstd::prelude::*;

verus! {

use crate::jobs::MirrorJob;
use crate::jobs::is_selection;
use crate::jobs::select_due_jobs;
use crate::executor::ExecState;
use crate::executor::MirrorError;

/// Everything the worker is configured with at construction: the two
/// workspace roots, how many jobs one cycle may run, and how long to sleep
/// between cycles.
pub struct WorkerConfig {
    pub clone_root: String,
    pub key_root: String,
    pub batch_limit: usize,
    pub poll_seconds: u64,
}

/// How one job's attempt ended, as the worker loop sees it.
#[derive(Debug)]
pub enum JobOutcome {
    /// Every step of the attempt succeeded.
    Completed,
    /// The attempt reported an error of its own.
    Failed { error: MirrorError },
    /// The attempt ended abnormally; caught at the per-job boundary so the
    /// loop goes on with the next job and the next cycle.
    Faulted { detail: String },
}

/// Picks the jobs for one cycle: the due ones, most overdue first, at most
/// the configured batch size. An empty pick is an idle cycle, not an error.
pub fn plan_cycle(jobs: Vec<MirrorJob>, now: u64, cfg: &WorkerConfig) -> (r: Vec<MirrorJob>)
    ensures
        is_selection(jobs@, now, cfg.batch_limit as int, r@),
{
    select_due_jobs(jobs, now, cfg.batch_limit)
}

/// Reads the outcome of a finished attempt out of its final state.
pub fn outcome_of(s: ExecState) -> (r: JobOutcome)
    requires
        s.phase is Done,
    ensures
        s.failure is None <==> r is Completed,
        s.failure matches Option::Some(e) ==> r matches JobOutcome::Failed { error } && error == e,
{
    match s.failure {
        Option::None => JobOutcome::Completed,
        Option::Some(error) => JobOutcome::Failed { error },
    }
}

/// The only write the worker ever makes to a job's schedule: after a fully
/// successful attempt, and only then, its last-run time becomes the current
/// time. Failures and faults change nothing, so the job stays due and is
/// picked up again on a later cycle.
pub fn record_completion(outcome: &JobOutcome, now: u64) -> (r: Option<u64>)
    ensures
        r is Some <==> outcome is Completed,
        outcome is Completed ==> r == Option::Some(now),
{
    match outcome {
        JobOutcome::Completed => Option::Some(now),
        JobOutcome::Failed { .. } => Option::None,
        JobOutcome::Faulted { .. } => Option::None,
    }
}

} // verus!
