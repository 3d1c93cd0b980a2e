use vstd::prelude::*;

verus! {

use vstd::string::StringExecFns;
use crate::jobs::MirrorJob;
use crate::sanitize::spec_sanitize;
use crate::sanitize::sanitize_ssh_key;

/// The three subprocess stages of one mirroring attempt, in order.
#[derive(Clone, Copy, PartialEq, Eq, Structural, Debug)]
pub enum GitStage {
    CloneMirror,
    SetPushUrl,
    PushMirror,
}

/// Which side of the mirror a key file belongs to.
#[derive(Clone, Copy, PartialEq, Eq, Structural, Debug)]
pub enum KeyRole {
    Source,
    Target,
}

/// Why one job's attempt failed. Every error is fatal for that attempt only;
/// the worker goes on with the next job and the next cycle.
#[derive(Debug)]
pub enum MirrorError {
    /// The ssh client binary could not be run at all.
    SshUnavailable,
    /// A key file could not be written, or failed its checks after writing.
    KeyUnusable { detail: String },
    /// One of the git subprocesses exited with a non-zero status.
    SubprocessFailed { stage: GitStage, stderr: String },
    /// The job store could not record a result.
    StoreError { detail: String },
    /// An abnormal fault surfaced while running the job.
    UnexpectedFault { detail: String },
}

/// Where the local mirror of a job lives: a bare repository directory under
/// the clone workspace, named by the job id.
pub open spec fn spec_mirror_dir(clone_root: Seq<char>, id: Seq<char>) -> Seq<char> {
    clone_root + "/"@ + id + ".git"@
}

/// Where a job's key file for one role lives under the key workspace.
pub open spec fn spec_key_path(key_root: Seq<char>, id: Seq<char>, role: KeyRole) -> Seq<char> {
    key_root + "/"@ + id + (match role {
        KeyRole::Source => "_source_key"@,
        KeyRole::Target => "_target_key"@,
    })
}

/// The GIT_SSH_COMMAND override that makes git use one provisioned key.
pub open spec fn spec_ssh_command(key_path: Seq<char>) -> Seq<char> {
    "ssh -i "@ + key_path + " -o StrictHostKeyChecking=no"@
}

/// Builds the local mirror directory path for a job.
pub fn mirror_dir_for(clone_root: &str, id: &str) -> (r: String)
    ensures
        r@ == spec_mirror_dir(clone_root@, id@),
{
    let mut out = clone_root.to_owned();
    out.append("/");
    out.append(id);
    out.append(".git");
    out
}

/// Builds the key file path for a job and role.
pub fn key_path_for(key_root: &str, id: &str, role: KeyRole) -> (r: String)
    ensures
        r@ == spec_key_path(key_root@, id@, role),
{
    let mut out = key_root.to_owned();
    out.append("/");
    out.append(id);
    match role {
        KeyRole::Source => out.append("_source_key"),
        KeyRole::Target => out.append("_target_key"),
    }
    out
}

/// Builds the ssh command line that points git at one key file.
pub fn ssh_command_for(key_path: &str) -> (r: String)
    ensures
        r@ == spec_ssh_command(key_path@),
{
    let mut out = "ssh -i ".to_owned();
    out.append(key_path);
    out.append(" -o StrictHostKeyChecking=no");
    out
}

/// Where one job's attempt stands. The phases run in a fixed order; any
/// failure diverts to `Release`, so key files are removed on every exit
/// path, and `Done` is reached only after that release.
#[derive(Clone, Copy, PartialEq, Eq, Structural, Debug)]
pub enum ExecPhase {
    /// Check that the ssh client binary runs at all.
    ProbeSsh,
    /// Ensure both workspaces exist and remove a stale mirror directory
    /// left over from an earlier failed run.
    Prepare,
    /// Write the sanitized source key to its file, restrict its
    /// permissions, and verify it is non-empty and readable.
    ProvisionSource,
    /// The same for the target key.
    ProvisionTarget,
    /// Run `git clone --mirror` from the source remote.
    RunClone,
    /// Run `git remote set-url --push origin` towards the target remote.
    RunSetPushUrl,
    /// Run `git push --mirror origin`.
    RunPush,
    /// Delete the job's key files, success or not — including a file whose
    /// provisioning failed after it was already written.
    Release,
    /// Finished; `failure` holds the outcome.
    Done,
}

/// The state of one job's attempt: the phase, the canonical paths of the key
/// files currently on disk, and the failure to report, if any arose.
pub struct ExecState {
    pub phase: ExecPhase,
    pub source_key_path: Option<String>,
    pub target_key_path: Option<String>,
    pub failure: Option<MirrorError>,
}

/// What the surrounding process reports back after carrying out an action.
pub enum ExecEvent {
    /// Whether `ssh -V` ran and exited successfully.
    SshProbed { ok: bool },
    /// Whether the workspaces exist and the stale mirror directory is gone.
    Prepared { ok: bool, detail: String },
    /// Whether the key file was written, restricted and verified; on
    /// success, its canonical absolute path.
    KeyWritten { ok: bool, path: String, detail: String },
    /// Whether the git subprocess exited with status zero; its captured
    /// standard error stream otherwise.
    GitExited { ok: bool, stderr: String },
    /// The provisioned key files have been deleted, best effort.
    KeysReleased,
}

/// What the surrounding process must do next. Only `PrepareWorkspace`
/// removes the mirror directory; no other action touches it, so a mirror
/// left by a failed push stays in place until the next cycle prepares anew.
pub enum ExecAction {
    /// Run `ssh -V` and report whether it succeeded.
    RunSshProbe,
    /// Create both workspace directories if missing and remove the job's
    /// mirror directory if present.
    PrepareWorkspace { clone_root: String, key_root: String, mirror_dir: String },
    /// Write `content` to `path` with owner-only permissions, verify the
    /// file exists, is non-empty and readable, and report its canonical
    /// absolute path.
    WriteKey { path: String, content: String },
    /// Run git with these arguments, optionally inside a directory and with
    /// a GIT_SSH_COMMAND override.
    RunGit { args: Vec<String>, current_dir: Option<String>, ssh_command: Option<String> },
    /// Delete these key files, swallowing errors; the list names the
    /// deterministic path of every role the job carries a key for, so even
    /// a half-provisioned file is removed.
    ReleaseKeys { paths: Vec<String> },
    /// Nothing is left to do; read the outcome from the state.
    Finish,
}

/// Internal consistency of a state for a given job, including the promise
/// the machine keeps: by the time an attempt is done, no key file is left,
/// and a failure is only ever reported after the release phase ran.
pub open spec fn spec_wf(s: ExecState, job: MirrorJob) -> bool {
    &&& (s.phase is ProvisionSource ==> job.source_key is Some)
    &&& (s.phase is ProvisionTarget ==> job.target_key is Some)
    &&& (s.failure is Some ==> s.phase is Release || s.phase is Done)
    &&& (s.phase is Done ==> s.source_key_path is None && s.target_key_path is None)
}

/// The state every attempt starts from.
pub open spec fn spec_init() -> ExecState {
    ExecState {
        phase: ExecPhase::ProbeSsh,
        source_key_path: Option::None,
        target_key_path: Option::None,
        failure: Option::None,
    }
}

/// The phase that follows a successful preparation or provisioning step:
/// provision whichever keys the job carries, then clone.
pub open spec fn spec_after_prepare(job: MirrorJob) -> ExecPhase {
    if job.source_key is Some {
        ExecPhase::ProvisionSource
    } else if job.target_key is Some {
        ExecPhase::ProvisionTarget
    } else {
        ExecPhase::RunClone
    }
}

/// One transition of the attempt: how the state changes when the
/// surrounding process reports the outcome of the current action. An event
/// that does not belong to the current phase changes nothing.
pub open spec fn spec_step(s: ExecState, job: MirrorJob, e: ExecEvent) -> ExecState {
    match s.phase {
        ExecPhase::ProbeSsh => match e {
            ExecEvent::SshProbed { ok } => if ok {
                ExecState { phase: ExecPhase::Prepare, ..s }
            } else {
                ExecState {
                    phase: ExecPhase::Release,
                    failure: Option::Some(MirrorError::SshUnavailable),
                    ..s
                }
            },
            _ => s,
        },
        ExecPhase::Prepare => match e {
            ExecEvent::Prepared { ok, detail } => if ok {
                ExecState { phase: spec_after_prepare(job), ..s }
            } else {
                ExecState {
                    phase: ExecPhase::Release,
                    failure: Option::Some(MirrorError::UnexpectedFault { detail }),
                    ..s
                }
            },
            _ => s,
        },
        ExecPhase::ProvisionSource => match e {
            ExecEvent::KeyWritten { ok, path, detail } => if ok {
                ExecState {
                    phase: if job.target_key is Some {
                        ExecPhase::ProvisionTarget
                    } else {
                        ExecPhase::RunClone
                    },
                    source_key_path: Option::Some(path),
                    ..s
                }
            } else {
                ExecState {
                    phase: ExecPhase::Release,
                    failure: Option::Some(MirrorError::KeyUnusable { detail }),
                    ..s
                }
            },
            _ => s,
        },
        ExecPhase::ProvisionTarget => match e {
            ExecEvent::KeyWritten { ok, path, detail } => if ok {
                ExecState {
                    phase: ExecPhase::RunClone,
                    target_key_path: Option::Some(path),
                    ..s
                }
            } else {
                ExecState {
                    phase: ExecPhase::Release,
                    failure: Option::Some(MirrorError::KeyUnusable { detail }),
                    ..s
                }
            },
            _ => s,
        },
        ExecPhase::RunClone => match e {
            ExecEvent::GitExited { ok, stderr } => if ok {
                ExecState { phase: ExecPhase::RunSetPushUrl, ..s }
            } else {
                ExecState {
                    phase: ExecPhase::Release,
                    failure: Option::Some(
                        MirrorError::SubprocessFailed { stage: GitStage::CloneMirror, stderr },
                    ),
                    ..s
                }
            },
            _ => s,
        },
        ExecPhase::RunSetPushUrl => match e {
            ExecEvent::GitExited { ok, stderr } => if ok {
                ExecState { phase: ExecPhase::RunPush, ..s }
            } else {
                ExecState {
                    phase: ExecPhase::Release,
                    failure: Option::Some(
                        MirrorError::SubprocessFailed { stage: GitStage::SetPushUrl, stderr },
                    ),
                    ..s
                }
            },
            _ => s,
        },
        ExecPhase::RunPush => match e {
            ExecEvent::GitExited { ok, stderr } => if ok {
                ExecState { phase: ExecPhase::Release, ..s }
            } else {
                ExecState {
                    phase: ExecPhase::Release,
                    failure: Option::Some(
                        MirrorError::SubprocessFailed { stage: GitStage::PushMirror, stderr },
                    ),
                    ..s
                }
            },
            _ => s,
        },
        ExecPhase::Release => match e {
            ExecEvent::KeysReleased => ExecState {
                phase: ExecPhase::Done,
                source_key_path: Option::None,
                target_key_path: Option::None,
                ..s
            },
            _ => s,
        },
        ExecPhase::Done => s,
    }
}

impl ExecState {
    /// A fresh attempt, about to probe for the ssh client.
    pub fn init() -> (s: ExecState)
        ensures
            s == spec_init(),
            forall|job: MirrorJob| spec_wf(s, job),
    {
        ExecState {
            phase: ExecPhase::ProbeSsh,
            source_key_path: Option::None,
            target_key_path: Option::None,
            failure: Option::None,
        }
    }

    /// Whether the attempt is over.
    pub fn is_done(&self) -> (r: bool)
        ensures
            r == (self.phase is Done),
    {
        self.phase == ExecPhase::Done
    }

    /// Applies the outcome of the current action and moves the attempt
    /// forward; consistency with the job is kept, and in particular a
    /// finished attempt never holds a key file.
    pub fn step(self, job: &MirrorJob, e: ExecEvent) -> (r: ExecState)
        ensures
            r == spec_step(self, *job, e),
            spec_wf(self, *job) ==> spec_wf(r, *job),
    {
        let has_target = matches!(job.target_key, Option::Some(_));
        match self.phase {
            ExecPhase::ProbeSsh => match e {
                ExecEvent::SshProbed { ok } => if ok {
                    ExecState { phase: ExecPhase::Prepare, ..self }
                } else {
                    ExecState {
                        phase: ExecPhase::Release,
                        failure: Option::Some(MirrorError::SshUnavailable),
                        ..self
                    }
                },
                _ => self,
            },
            ExecPhase::Prepare => match e {
                ExecEvent::Prepared { ok, detail } => if ok {
                    let next = if matches!(job.source_key, Option::Some(_)) {
                        ExecPhase::ProvisionSource
                    } else if has_target {
                        ExecPhase::ProvisionTarget
                    } else {
                        ExecPhase::RunClone
                    };
                    ExecState { phase: next, ..self }
                } else {
                    ExecState {
                        phase: ExecPhase::Release,
                        failure: Option::Some(MirrorError::UnexpectedFault { detail }),
                        ..self
                    }
                },
                _ => self,
            },
            ExecPhase::ProvisionSource => match e {
                ExecEvent::KeyWritten { ok, path, detail } => if ok {
                    ExecState {
                        phase: if has_target {
                            ExecPhase::ProvisionTarget
                        } else {
                            ExecPhase::RunClone
                        },
                        source_key_path: Option::Some(path),
                        ..self
                    }
                } else {
                    ExecState {
                        phase: ExecPhase::Release,
                        failure: Option::Some(MirrorError::KeyUnusable { detail }),
                        ..self
                    }
                },
                _ => self,
            },
            ExecPhase::ProvisionTarget => match e {
                ExecEvent::KeyWritten { ok, path, detail } => if ok {
                    ExecState {
                        phase: ExecPhase::RunClone,
                        target_key_path: Option::Some(path),
                        ..self
                    }
                } else {
                    ExecState {
                        phase: ExecPhase::Release,
                        failure: Option::Some(MirrorError::KeyUnusable { detail }),
                        ..self
                    }
                },
                _ => self,
            },
            ExecPhase::RunClone => match e {
                ExecEvent::GitExited { ok, stderr } => if ok {
                    ExecState { phase: ExecPhase::RunSetPushUrl, ..self }
                } else {
                    ExecState {
                        phase: ExecPhase::Release,
                        failure: Option::Some(
                            MirrorError::SubprocessFailed { stage: GitStage::CloneMirror, stderr },
                        ),
                        ..self
                    }
                },
                _ => self,
            },
            ExecPhase::RunSetPushUrl => match e {
                ExecEvent::GitExited { ok, stderr } => if ok {
                    ExecState { phase: ExecPhase::RunPush, ..self }
                } else {
                    ExecState {
                        phase: ExecPhase::Release,
                        failure: Option::Some(
                            MirrorError::SubprocessFailed { stage: GitStage::SetPushUrl, stderr },
                        ),
                        ..self
                    }
                },
                _ => self,
            },
            ExecPhase::RunPush => match e {
                ExecEvent::GitExited { ok, stderr } => if ok {
                    ExecState { phase: ExecPhase::Release, ..self }
                } else {
                    ExecState {
                        phase: ExecPhase::Release,
                        failure: Option::Some(
                            MirrorError::SubprocessFailed { stage: GitStage::PushMirror, stderr },
                        ),
                        ..self
                    }
                },
                _ => self,
            },
            ExecPhase::Release => match e {
                ExecEvent::KeysReleased => ExecState {
                    phase: ExecPhase::Done,
                    source_key_path: Option::None,
                    target_key_path: Option::None,
                    ..self
                },
                _ => self,
            },
            ExecPhase::Done => self,
        }
    }
}

/// Whether an ssh override matches the key on file: present with the right
/// command exactly when a key was provisioned for that side.
pub open spec fn spec_ssh_override(opt: Option<String>, key_path: Option<String>) -> bool {
    match key_path {
        Option::Some(p) => opt matches Option::Some(c) && c@ == spec_ssh_command(p@),
        Option::None => opt is None,
    }
}

/// The paths the release action must delete. Provisioning may fail after
/// its file was already written, and such a failure records no path, so the
/// deterministic per-role path is always listed for every role the job
/// carries a key for; the canonical paths recorded on successful
/// provisioning follow. Deleting twice, or deleting a file that was never
/// written, is harmless: release is best effort.
pub open spec fn spec_release_list(s: ExecState, job: MirrorJob, key_root: Seq<char>) -> Seq<
    Seq<char>,
> {
    (if job.source_key is Some {
        seq![spec_key_path(key_root, job.id@, KeyRole::Source)]
    } else {
        Seq::<Seq<char>>::empty()
    }) + (if job.target_key is Some {
        seq![spec_key_path(key_root, job.id@, KeyRole::Target)]
    } else {
        Seq::<Seq<char>>::empty()
    }) + (match s.source_key_path {
        Option::Some(p) => seq![p@],
        Option::None => Seq::<Seq<char>>::empty(),
    }) + (match s.target_key_path {
        Option::Some(p) => seq![p@],
        Option::None => Seq::<Seq<char>>::empty(),
    })
}

/// Whether the paths handed to the release action are exactly the ones the
/// attempt must delete.
pub open spec fn spec_release_paths(
    paths: Seq<String>,
    s: ExecState,
    job: MirrorJob,
    key_root: Seq<char>,
) -> bool {
    paths.map_values(|p: String| p@) == spec_release_list(s, job, key_root)
}

/// What the action for each phase must be: the exact subprocess arguments,
/// paths, sanitized key contents and ssh overrides that one mirroring
/// attempt uses.
pub open spec fn spec_action_ok(
    a: ExecAction,
    s: ExecState,
    job: MirrorJob,
    clone_root: Seq<char>,
    key_root: Seq<char>,
) -> bool {
    match s.phase {
        ExecPhase::ProbeSsh => a is RunSshProbe,
        ExecPhase::Prepare => {
            &&& a matches ExecAction::PrepareWorkspace { clone_root: cr, key_root: kr, mirror_dir: md }
            &&& cr@ == clone_root
            &&& kr@ == key_root
            &&& md@ == spec_mirror_dir(clone_root, job.id@)
        },
        ExecPhase::ProvisionSource => {
            &&& a matches ExecAction::WriteKey { path, content }
            &&& job.source_key matches Option::Some(k)
            &&& path@ == spec_key_path(key_root, job.id@, KeyRole::Source)
            &&& content@ == spec_sanitize(k@)
        },
        ExecPhase::ProvisionTarget => {
            &&& a matches ExecAction::WriteKey { path, content }
            &&& job.target_key matches Option::Some(k)
            &&& path@ == spec_key_path(key_root, job.id@, KeyRole::Target)
            &&& content@ == spec_sanitize(k@)
        },
        ExecPhase::RunClone => {
            &&& a matches ExecAction::RunGit { args, current_dir, ssh_command }
            &&& args.len() == 4
            &&& args[0]@ == "clone"@
            &&& args[1]@ == "--mirror"@
            &&& args[2]@ == job.source_url@
            &&& args[3]@ == spec_mirror_dir(clone_root, job.id@)
            &&& current_dir is None
            &&& spec_ssh_override(ssh_command, s.source_key_path)
        },
        ExecPhase::RunSetPushUrl => {
            &&& a matches ExecAction::RunGit { args, current_dir, ssh_command }
            &&& args.len() == 5
            &&& args[0]@ == "remote"@
            &&& args[1]@ == "set-url"@
            &&& args[2]@ == "--push"@
            &&& args[3]@ == "origin"@
            &&& args[4]@ == job.target_url@
            &&& current_dir matches Option::Some(d)
            &&& d@ == spec_mirror_dir(clone_root, job.id@)
            &&& ssh_command is None
        },
        ExecPhase::RunPush => {
            &&& a matches ExecAction::RunGit { args, current_dir, ssh_command }
            &&& args.len() == 3
            &&& args[0]@ == "push"@
            &&& args[1]@ == "--mirror"@
            &&& args[2]@ == "origin"@
            &&& current_dir matches Option::Some(d)
            &&& d@ == spec_mirror_dir(clone_root, job.id@)
            &&& spec_ssh_override(ssh_command, s.target_key_path)
        },
        ExecPhase::Release => {
            &&& a matches ExecAction::ReleaseKeys { paths }
            &&& spec_release_paths(paths@, s, job, key_root)
        },
        ExecPhase::Done => a is Finish,
    }
}

impl ExecState {
    /// What the surrounding process must do in the current phase, with every
    /// argument pinned down: paths keyed by the job id, key contents
    /// sanitized, and ssh overrides present exactly for the provisioned
    /// side.
    pub fn next_action(&self, job: &MirrorJob, clone_root: &str, key_root: &str) -> (a: ExecAction)
        requires
            spec_wf(*self, *job),
        ensures
            spec_action_ok(a, *self, *job, clone_root@, key_root@),
    {
        match self.phase {
            ExecPhase::ProbeSsh => ExecAction::RunSshProbe,
            ExecPhase::Prepare => ExecAction::PrepareWorkspace {
                clone_root: clone_root.to_owned(),
                key_root: key_root.to_owned(),
                mirror_dir: mirror_dir_for(clone_root, job.id.as_str()),
            },
            ExecPhase::ProvisionSource => {
                let content = match &job.source_key {
                    Option::Some(k) => sanitize_ssh_key(k.as_str()),
                    Option::None => String::new(),
                };
                ExecAction::WriteKey {
                    path: key_path_for(key_root, job.id.as_str(), KeyRole::Source),
                    content,
                }
            },
            ExecPhase::ProvisionTarget => {
                let content = match &job.target_key {
                    Option::Some(k) => sanitize_ssh_key(k.as_str()),
                    Option::None => String::new(),
                };
                ExecAction::WriteKey {
                    path: key_path_for(key_root, job.id.as_str(), KeyRole::Target),
                    content,
                }
            },
            ExecPhase::RunClone => {
                let mut args: Vec<String> = Vec::new();
                args.push("clone".to_owned());
                args.push("--mirror".to_owned());
                args.push(job.source_url.clone());
                args.push(mirror_dir_for(clone_root, job.id.as_str()));
                let ssh_command = match &self.source_key_path {
                    Option::Some(p) => Option::Some(ssh_command_for(p.as_str())),
                    Option::None => Option::None,
                };
                ExecAction::RunGit { args, current_dir: Option::None, ssh_command }
            },
            ExecPhase::RunSetPushUrl => {
                let mut args: Vec<String> = Vec::new();
                args.push("remote".to_owned());
                args.push("set-url".to_owned());
                args.push("--push".to_owned());
                args.push("origin".to_owned());
                args.push(job.target_url.clone());
                ExecAction::RunGit {
                    args,
                    current_dir: Option::Some(mirror_dir_for(clone_root, job.id.as_str())),
                    ssh_command: Option::None,
                }
            },
            ExecPhase::RunPush => {
                let mut args: Vec<String> = Vec::new();
                args.push("push".to_owned());
                args.push("--mirror".to_owned());
                args.push("origin".to_owned());
                let ssh_command = match &self.target_key_path {
                    Option::Some(p) => Option::Some(ssh_command_for(p.as_str())),
                    Option::None => Option::None,
                };
                ExecAction::RunGit {
                    args,
                    current_dir: Option::Some(mirror_dir_for(clone_root, job.id.as_str())),
                    ssh_command,
                }
            },
            ExecPhase::Release => {
                let mut paths: Vec<String> = Vec::new();
                if matches!(job.source_key, Option::Some(_)) {
                    paths.push(key_path_for(key_root, job.id.as_str(), KeyRole::Source));
                }
                if matches!(job.target_key, Option::Some(_)) {
                    paths.push(key_path_for(key_root, job.id.as_str(), KeyRole::Target));
                }
                match &self.source_key_path {
                    Option::Some(p) => paths.push(p.clone()),
                    Option::None => (),
                }
                match &self.target_key_path {
                    Option::Some(p) => paths.push(p.clone()),
                    Option::None => (),
                }
                proof {
                    assert(paths@.map_values(|p: String| p@) =~= spec_release_list(
                        *self,
                        *job,
                        key_root@,
                    ));
                }
                ExecAction::ReleaseKeys { paths }
            },
            ExecPhase::Done => ExecAction::Finish,
        }
    }
}

/// The state after a whole trace of reported outcomes, applied in order.
pub open spec fn spec_run(s: ExecState, job: MirrorJob, events: Seq<ExecEvent>) -> ExecState
    decreases events.len(),
{
    if events.len() == 0 {
        s
    } else {
        spec_run(spec_step(s, job, events.first()), job, events.drop_first())
    }
}

/// Consistency with the job is kept along any trace of events.
pub proof fn lemma_run_wf(s: ExecState, job: MirrorJob, events: Seq<ExecEvent>)
    requires
        spec_wf(s, job),
    ensures
        spec_wf(spec_run(s, job, events), job),
    decreases events.len(),
{
    if events.len() > 0 {
        lemma_run_wf(spec_step(s, job, events.first()), job, events.drop_first());
    }
}

/// However an attempt ends, no provisioned key file outlives it: a finished
/// attempt holds none.
pub proof fn lemma_done_keys_released(s: ExecState, job: MirrorJob, events: Seq<ExecEvent>)
    requires
        spec_wf(s, job),
        spec_run(s, job, events).phase is Done,
    ensures
        spec_run(s, job, events).source_key_path is None,
        spec_run(s, job, events).target_key_path is None,
{
    lemma_run_wf(s, job, events);
}

/// From the release phase on, the attempt only finishes: the recorded
/// outcome never changes again, and no earlier phase is ever re-entered.
pub proof fn lemma_release_confined(s: ExecState, job: MirrorJob, events: Seq<ExecEvent>)
    requires
        s.phase is Release || s.phase is Done,
    ensures
        spec_run(s, job, events).failure == s.failure,
        spec_run(s, job, events).phase is Release || spec_run(s, job, events).phase is Done,
    decreases events.len(),
{
    if events.len() > 0 {
        lemma_release_confined(spec_step(s, job, events.first()), job, events.drop_first());
    }
}

/// A failed clone diverts the attempt to releasing its keys, and whatever
/// happens afterwards, the attempt ends with exactly that error and with no
/// key file left behind. The worker records a completion only for an
/// attempt that finished without error, so the job's schedule is untouched.
pub proof fn lemma_clone_failure_isolated(
    s: ExecState,
    job: MirrorJob,
    stderr: String,
    events: Seq<ExecEvent>,
)
    requires
        spec_wf(s, job),
        s.phase is RunClone,
    ensures
        ({
            let after = spec_step(s, job, ExecEvent::GitExited { ok: false, stderr });
            let fin = spec_run(after, job, events);
            &&& after.phase is Release
            &&& after.failure == Option::Some(
                MirrorError::SubprocessFailed { stage: GitStage::CloneMirror, stderr },
            )
            &&& fin.failure == after.failure
            &&& fin.phase is Done ==> fin.source_key_path is None && fin.target_key_path is None
        }),
{
    let after = spec_step(s, job, ExecEvent::GitExited { ok: false, stderr });
    lemma_release_confined(after, job, events);
    lemma_run_wf(after, job, events);
}

/// A failed push likewise ends the attempt with that error; from then on
/// the machine only releases keys and finishes, and since the one action
/// that removes the mirror directory belongs to the prepare phase alone,
/// the local mirror stays in place for the next cycle to clean up.
pub proof fn lemma_push_failure_leaves_mirror(
    s: ExecState,
    job: MirrorJob,
    stderr: String,
    events: Seq<ExecEvent>,
)
    requires
        spec_wf(s, job),
        s.phase is RunPush,
    ensures
        ({
            let after = spec_step(s, job, ExecEvent::GitExited { ok: false, stderr });
            let fin = spec_run(after, job, events);
            &&& after.phase is Release
            &&& after.failure == Option::Some(
                MirrorError::SubprocessFailed { stage: GitStage::PushMirror, stderr },
            )
            &&& fin.failure == after.failure
            &&& fin.phase is Release || fin.phase is Done
        }),
{
    let after = spec_step(s, job, ExecEvent::GitExited { ok: false, stderr });
    lemma_release_confined(after, job, events);
}

/// The only action that removes the local mirror directory is issued in the
/// prepare phase and nowhere else.
pub proof fn lemma_remove_only_while_preparing(
    a: ExecAction,
    s: ExecState,
    job: MirrorJob,
    clone_root: Seq<char>,
    key_root: Seq<char>,
)
    requires
        spec_action_ok(a, s, job, clone_root, key_root),
        a is PrepareWorkspace,
    ensures
        s.phase is Prepare,
{
}

} // verus!
