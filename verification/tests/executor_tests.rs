use gitmirrors::executor::ExecAction;
use gitmirrors::executor::ExecEvent;
use gitmirrors::executor::ExecPhase;
use gitmirrors::executor::ExecState;
use gitmirrors::executor::GitStage;
use gitmirrors::executor::MirrorError;
use gitmirrors::jobs::MirrorJob;
use gitmirrors::worker::record_completion;
use gitmirrors::worker::outcome_of;
use gitmirrors::worker::JobOutcome;

const CLONE_ROOT: &str = "work/repositories";
const KEY_ROOT: &str = "work/keys";

fn job_no_keys() -> MirrorJob {
    MirrorJob {
        id: "42".to_string(),
        source_url: "https://example.org/src.git".to_string(),
        source_key: None,
        target_url: "https://example.org/dst.git".to_string(),
        target_key: None,
        period_seconds: 60,
        last_run_at: Some(880),
        enabled: true,
    }
}

fn job_with_keys() -> MirrorJob {
    MirrorJob {
        source_key: Some("k1\r\n\r\n k2 ".to_string()),
        target_key: Some(" t1 ".to_string()),
        ..job_no_keys()
    }
}

fn git_ok() -> ExecEvent {
    ExecEvent::GitExited { ok: true, stderr: String::new() }
}

#[test]
fn happy_path_without_keys_runs_clone_retarget_push() {
    let job = job_no_keys();
    let now: u64 = 1_000;
    let mut s = ExecState::init();

    assert!(matches!(s.next_action(&job, CLONE_ROOT, KEY_ROOT), ExecAction::RunSshProbe));
    s = s.step(&job, ExecEvent::SshProbed { ok: true });
    assert_eq!(s.phase, ExecPhase::Prepare);

    match s.next_action(&job, CLONE_ROOT, KEY_ROOT) {
        ExecAction::PrepareWorkspace { clone_root, key_root, mirror_dir } => {
            assert_eq!(clone_root, CLONE_ROOT);
            assert_eq!(key_root, KEY_ROOT);
            assert_eq!(mirror_dir, "work/repositories/42.git");
        }
        _ => panic!("expected a workspace preparation"),
    }
    s = s.step(&job, ExecEvent::Prepared { ok: true, detail: String::new() });
    assert_eq!(s.phase, ExecPhase::RunClone);

    match s.next_action(&job, CLONE_ROOT, KEY_ROOT) {
        ExecAction::RunGit { args, current_dir, ssh_command } => {
            assert_eq!(
                args,
                vec!["clone", "--mirror", "https://example.org/src.git", "work/repositories/42.git"]
            );
            assert!(current_dir.is_none());
            assert!(ssh_command.is_none());
        }
        _ => panic!("expected the clone subprocess"),
    }
    s = s.step(&job, git_ok());
    assert_eq!(s.phase, ExecPhase::RunSetPushUrl);

    match s.next_action(&job, CLONE_ROOT, KEY_ROOT) {
        ExecAction::RunGit { args, current_dir, ssh_command } => {
            assert_eq!(
                args,
                vec!["remote", "set-url", "--push", "origin", "https://example.org/dst.git"]
            );
            assert_eq!(current_dir.as_deref(), Some("work/repositories/42.git"));
            assert!(ssh_command.is_none());
        }
        _ => panic!("expected the retarget subprocess"),
    }
    s = s.step(&job, git_ok());
    assert_eq!(s.phase, ExecPhase::RunPush);

    match s.next_action(&job, CLONE_ROOT, KEY_ROOT) {
        ExecAction::RunGit { args, current_dir, ssh_command } => {
            assert_eq!(args, vec!["push", "--mirror", "origin"]);
            assert_eq!(current_dir.as_deref(), Some("work/repositories/42.git"));
            assert!(ssh_command.is_none());
        }
        _ => panic!("expected the push subprocess"),
    }
    s = s.step(&job, git_ok());
    assert_eq!(s.phase, ExecPhase::Release);

    match s.next_action(&job, CLONE_ROOT, KEY_ROOT) {
        ExecAction::ReleaseKeys { paths } => assert!(paths.is_empty()),
        _ => panic!("expected the key release"),
    }
    s = s.step(&job, ExecEvent::KeysReleased);
    assert!(s.is_done());
    assert!(s.failure.is_none());

    // Completion is recorded with the time of recording, after the cycle began.
    let recorded_at = now + 3;
    let outcome = outcome_of(s);
    assert!(matches!(outcome, JobOutcome::Completed));
    let stamp = record_completion(&outcome, recorded_at);
    assert_eq!(stamp, Some(recorded_at));
    assert!(stamp.unwrap() >= now);
}

#[test]
fn keys_are_sanitized_and_drive_the_ssh_override() {
    let job = job_with_keys();
    let mut s = ExecState::init();
    s = s.step(&job, ExecEvent::SshProbed { ok: true });
    s = s.step(&job, ExecEvent::Prepared { ok: true, detail: String::new() });
    assert_eq!(s.phase, ExecPhase::ProvisionSource);

    match s.next_action(&job, CLONE_ROOT, KEY_ROOT) {
        ExecAction::WriteKey { path, content } => {
            assert_eq!(path, "work/keys/42_source_key");
            assert_eq!(content, "k1\nk2\n");
        }
        _ => panic!("expected the source key to be written"),
    }
    s = s.step(
        &job,
        ExecEvent::KeyWritten {
            ok: true,
            path: "/abs/work/keys/42_source_key".to_string(),
            detail: String::new(),
        },
    );
    assert_eq!(s.phase, ExecPhase::ProvisionTarget);

    match s.next_action(&job, CLONE_ROOT, KEY_ROOT) {
        ExecAction::WriteKey { path, content } => {
            assert_eq!(path, "work/keys/42_target_key");
            assert_eq!(content, "t1\n");
        }
        _ => panic!("expected the target key to be written"),
    }
    s = s.step(
        &job,
        ExecEvent::KeyWritten {
            ok: true,
            path: "/abs/work/keys/42_target_key".to_string(),
            detail: String::new(),
        },
    );
    assert_eq!(s.phase, ExecPhase::RunClone);

    match s.next_action(&job, CLONE_ROOT, KEY_ROOT) {
        ExecAction::RunGit { ssh_command, .. } => {
            assert_eq!(
                ssh_command.as_deref(),
                Some("ssh -i /abs/work/keys/42_source_key -o StrictHostKeyChecking=no")
            );
        }
        _ => panic!("expected the clone subprocess"),
    }
    s = s.step(&job, git_ok());
    s = s.step(&job, git_ok());
    assert_eq!(s.phase, ExecPhase::RunPush);

    match s.next_action(&job, CLONE_ROOT, KEY_ROOT) {
        ExecAction::RunGit { ssh_command, .. } => {
            assert_eq!(
                ssh_command.as_deref(),
                Some("ssh -i /abs/work/keys/42_target_key -o StrictHostKeyChecking=no")
            );
        }
        _ => panic!("expected the push subprocess"),
    }
    s = s.step(&job, git_ok());
    match s.next_action(&job, CLONE_ROOT, KEY_ROOT) {
        ExecAction::ReleaseKeys { paths } => {
            assert_eq!(
                paths,
                vec![
                    "work/keys/42_source_key",
                    "work/keys/42_target_key",
                    "/abs/work/keys/42_source_key",
                    "/abs/work/keys/42_target_key",
                ]
            );
        }
        _ => panic!("expected the key release"),
    }
    s = s.step(&job, ExecEvent::KeysReleased);
    assert!(s.is_done());
    assert!(s.failure.is_none());
    assert!(s.source_key_path.is_none());
    assert!(s.target_key_path.is_none());
}

#[test]
fn failed_clone_reports_the_error_and_leaves_no_key_file() {
    let job = job_with_keys();
    let mut s = ExecState::init();
    s = s.step(&job, ExecEvent::SshProbed { ok: true });
    s = s.step(&job, ExecEvent::Prepared { ok: true, detail: String::new() });
    s = s.step(
        &job,
        ExecEvent::KeyWritten { ok: true, path: "/k/src".to_string(), detail: String::new() },
    );
    s = s.step(
        &job,
        ExecEvent::KeyWritten { ok: true, path: "/k/dst".to_string(), detail: String::new() },
    );
    assert_eq!(s.phase, ExecPhase::RunClone);

    s = s.step(&job, ExecEvent::GitExited { ok: false, stderr: "fatal: no access".to_string() });
    assert_eq!(s.phase, ExecPhase::Release);
    match s.next_action(&job, CLONE_ROOT, KEY_ROOT) {
        ExecAction::ReleaseKeys { paths } => assert_eq!(
            paths,
            vec!["work/keys/42_source_key", "work/keys/42_target_key", "/k/src", "/k/dst"]
        ),
        _ => panic!("expected the key release"),
    }
    s = s.step(&job, ExecEvent::KeysReleased);
    assert!(s.is_done());
    assert!(s.source_key_path.is_none());
    assert!(s.target_key_path.is_none());
    match &s.failure {
        Some(MirrorError::SubprocessFailed { stage, stderr }) => {
            assert_eq!(*stage, GitStage::CloneMirror);
            assert_eq!(stderr, "fatal: no access");
        }
        other => panic!("unexpected outcome: {:?}", other),
    }

    // The schedule is untouched: no completion is recorded for a failure.
    let outcome = outcome_of(s);
    assert!(matches!(outcome, JobOutcome::Failed { .. }));
    assert_eq!(record_completion(&outcome, 9_999), None);
}

#[test]
fn failed_push_releases_keys_but_never_touches_the_mirror_again() {
    let job = job_no_keys();
    let mut s = ExecState::init();
    s = s.step(&job, ExecEvent::SshProbed { ok: true });
    s = s.step(&job, ExecEvent::Prepared { ok: true, detail: String::new() });
    s = s.step(&job, git_ok());
    s = s.step(&job, git_ok());
    assert_eq!(s.phase, ExecPhase::RunPush);

    s = s.step(&job, ExecEvent::GitExited { ok: false, stderr: "denied".to_string() });
    assert_eq!(s.phase, ExecPhase::Release);

    // From here to the end, no action prepares (and so removes) the mirror
    // directory: the stale mirror is left for the next cycle.
    let a = s.next_action(&job, CLONE_ROOT, KEY_ROOT);
    assert!(!matches!(a, ExecAction::PrepareWorkspace { .. }));
    assert!(matches!(a, ExecAction::ReleaseKeys { .. }));
    s = s.step(&job, ExecEvent::KeysReleased);
    assert!(s.is_done());
    let last = s.next_action(&job, CLONE_ROOT, KEY_ROOT);
    assert!(matches!(last, ExecAction::Finish));
    match &s.failure {
        Some(MirrorError::SubprocessFailed { stage, stderr }) => {
            assert_eq!(*stage, GitStage::PushMirror);
            assert_eq!(stderr, "denied");
        }
        other => panic!("unexpected outcome: {:?}", other),
    }
}

#[test]
fn failed_retarget_is_reported_with_its_stage() {
    let job = job_no_keys();
    let mut s = ExecState::init();
    s = s.step(&job, ExecEvent::SshProbed { ok: true });
    s = s.step(&job, ExecEvent::Prepared { ok: true, detail: String::new() });
    s = s.step(&job, git_ok());
    assert_eq!(s.phase, ExecPhase::RunSetPushUrl);
    s = s.step(&job, ExecEvent::GitExited { ok: false, stderr: "no such remote".to_string() });
    s = s.step(&job, ExecEvent::KeysReleased);
    assert!(s.is_done());
    match &s.failure {
        Some(MirrorError::SubprocessFailed { stage, stderr }) => {
            assert_eq!(*stage, GitStage::SetPushUrl);
            assert_eq!(stderr, "no such remote");
        }
        other => panic!("unexpected outcome: {:?}", other),
    }
}

#[test]
fn failed_workspace_preparation_is_an_abnormal_fault() {
    let job = job_no_keys();
    let mut s = ExecState::init();
    s = s.step(&job, ExecEvent::SshProbed { ok: true });
    s = s.step(&job, ExecEvent::Prepared { ok: false, detail: "read-only file system".to_string() });
    assert_eq!(s.phase, ExecPhase::Release);
    s = s.step(&job, ExecEvent::KeysReleased);
    assert!(s.is_done());
    match &s.failure {
        Some(MirrorError::UnexpectedFault { detail }) => {
            assert_eq!(detail, "read-only file system");
        }
        other => panic!("unexpected outcome: {:?}", other),
    }
}

#[test]
fn missing_ssh_client_fails_fast() {
    let job = job_no_keys();
    let mut s = ExecState::init();
    s = s.step(&job, ExecEvent::SshProbed { ok: false });
    assert_eq!(s.phase, ExecPhase::Release);
    s = s.step(&job, ExecEvent::KeysReleased);
    assert!(s.is_done());
    assert!(matches!(s.failure, Some(MirrorError::SshUnavailable)));
}

#[test]
fn unusable_key_fails_the_attempt_but_still_releases() {
    let job = job_with_keys();
    let mut s = ExecState::init();
    s = s.step(&job, ExecEvent::SshProbed { ok: true });
    s = s.step(&job, ExecEvent::Prepared { ok: true, detail: String::new() });
    s = s.step(
        &job,
        ExecEvent::KeyWritten {
            ok: false,
            path: String::new(),
            detail: "SSH key file is empty".to_string(),
        },
    );
    assert_eq!(s.phase, ExecPhase::Release);
    // Provisioning failed after its file may already have been written, so
    // the release still names the deterministic path of every role the job
    // carries a key for: no key file outlives the attempt.
    match s.next_action(&job, CLONE_ROOT, KEY_ROOT) {
        ExecAction::ReleaseKeys { paths } => {
            assert_eq!(paths, vec!["work/keys/42_source_key", "work/keys/42_target_key"]);
        }
        _ => panic!("expected the key release"),
    }
    s = s.step(&job, ExecEvent::KeysReleased);
    assert!(s.is_done());
    match &s.failure {
        Some(MirrorError::KeyUnusable { detail }) => assert_eq!(detail, "SSH key file is empty"),
        other => panic!("unexpected outcome: {:?}", other),
    }
}
