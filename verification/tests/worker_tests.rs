use gitmirrors::executor::ExecEvent;
use gitmirrors::executor::ExecState;
use gitmirrors::jobs::MirrorJob;
use gitmirrors::worker::outcome_of;
use gitmirrors::worker::plan_cycle;
use gitmirrors::worker::record_completion;
use gitmirrors::worker::JobOutcome;
use gitmirrors::worker::WorkerConfig;

fn cfg() -> WorkerConfig {
    WorkerConfig {
        clone_root: "work/repositories".to_string(),
        key_root: "work/keys".to_string(),
        batch_limit: 3,
        poll_seconds: 5,
    }
}

fn job(id: &str, last: Option<u64>) -> MirrorJob {
    MirrorJob {
        id: id.to_string(),
        source_url: format!("https://example.org/{}.git", id),
        source_key: None,
        target_url: format!("https://mirror.example.org/{}.git", id),
        target_key: None,
        period_seconds: 60,
        last_run_at: last,
        enabled: true,
    }
}

fn run_to_success(job: &MirrorJob) -> ExecState {
    let mut s = ExecState::init();
    s = s.step(job, ExecEvent::SshProbed { ok: true });
    s = s.step(job, ExecEvent::Prepared { ok: true, detail: String::new() });
    s = s.step(job, ExecEvent::GitExited { ok: true, stderr: String::new() });
    s = s.step(job, ExecEvent::GitExited { ok: true, stderr: String::new() });
    s = s.step(job, ExecEvent::GitExited { ok: true, stderr: String::new() });
    s = s.step(job, ExecEvent::KeysReleased);
    s
}

#[test]
fn completion_is_recorded_only_on_success() {
    let done = JobOutcome::Completed;
    let faulted = JobOutcome::Faulted { detail: "stack overflow".to_string() };
    assert_eq!(record_completion(&done, 123), Some(123));
    assert_eq!(record_completion(&faulted, 123), None);
}

#[test]
fn overdue_job_completes_and_is_stamped_after_cycle_start() {
    let cycle_start: u64 = 1_000_000;
    let j = job("a", Some(cycle_start - 120));
    let picked = plan_cycle(vec![j], cycle_start, &cfg());
    assert_eq!(picked.len(), 1);
    let picked_job = &picked[0];
    assert_eq!(picked_job.id, "a");

    let end = run_to_success(picked_job);
    assert!(end.is_done());
    assert!(end.failure.is_none());
    let outcome = outcome_of(end);
    let recorded_at = cycle_start + 2;
    let stamp = record_completion(&outcome, recorded_at);
    assert!(stamp.unwrap() >= cycle_start);
}

#[test]
fn one_faulting_job_does_not_disturb_the_others() {
    let now: u64 = 1_000_000;
    // Two due jobs in one cycle; the first is more overdue and runs first.
    let jobs = vec![job("one", Some(now - 500)), job("two", Some(now - 300))];
    let picked = plan_cycle(jobs, now, &cfg());
    assert_eq!(picked.len(), 2);
    assert_eq!(picked[0].id, "one");
    assert_eq!(picked[1].id, "two");

    let mut outcomes: Vec<JobOutcome> = Vec::new();
    for j in &picked {
        if j.id == "two" {
            // The second job's execution unit ends abnormally; the fault is
            // caught at the per-job boundary and becomes an outcome like any
            // other, so the loop goes on to sleep and poll again.
            outcomes.push(JobOutcome::Faulted { detail: "panicked".to_string() });
        } else {
            let end = run_to_success(j);
            outcomes.push(outcome_of(end));
        }
    }

    assert!(matches!(outcomes[0], JobOutcome::Completed));
    assert!(matches!(outcomes[1], JobOutcome::Faulted { .. }));
    assert_eq!(record_completion(&outcomes[0], now + 1), Some(now + 1));
    assert_eq!(record_completion(&outcomes[1], now + 1), None);
}

#[test]
fn cycle_with_nothing_due_is_idle() {
    let now: u64 = 1_000_000;
    let picked = plan_cycle(vec![job("a", Some(now - 10))], now, &cfg());
    assert!(picked.is_empty());
}
