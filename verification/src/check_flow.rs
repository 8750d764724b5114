//! The steps of a check for updates: which file to read or command to run next, given
//! what the last step gave back. The caller performs each step and hands its outcome
//! back as an event.
use vstd::prelude::*;
use vstd::string::*;

use crate::flake_checker::{
    dry_build_failure, dry_build_failure_message, head_branch, origin_url, parse_git_head_branch,
    parse_git_origin_url, FlakeCheckError,
};
use crate::text::{trim, trimmed};

verus! {

/// Where a check stands: the outside step it waits for.
#[derive(Clone, Copy, PartialEq, Eq, Structural, Debug)]
pub enum CheckPhase {
    /// Whether the flake path exists.
    FlakePath,
    /// The flake repository's `.git/config`.
    GitConfig,
    /// The flake repository's `.git/HEAD`.
    GitHead,
    /// Whether the cache already holds a repository.
    CacheRepo,
    /// `git fetch` in the cache.
    Fetching,
    /// `git reset --hard` in the cache.
    Resetting,
    /// Creating the cache's parent directories.
    CreatingParent,
    /// `git clone` into the cache.
    Cloning,
    /// Whether the flake has a `flake.lock`.
    LockProbe,
    /// Copying `flake.lock` into the cache.
    LockCopy,
    /// `nix flake update` in the cache.
    Updating,
    /// The host name.
    Hostname,
    /// `nixos-rebuild dry-build` in the cache.
    DryBuilding,
    /// The check has reported or failed.
    Done,
}

/// A check for updates in progress.
pub struct CheckRun {
    pub phase: CheckPhase,
    /// The flake's directory, as given.
    pub flake_path: String,
    /// The url of the flake repository's `origin` remote, once read.
    pub remote_url: String,
    /// The branch checked out in the flake repository, once read.
    pub branch: String,
    /// The host whose configuration is built, once read.
    pub host: String,
}

/// What the caller does next. Paths are the caller's: the flake directory it was
/// started with, and the cache directory for it.
#[derive(Debug)]
pub enum CheckAction {
    /// Tell whether the flake directory exists.
    ProbeFlakePath,
    /// Read `<flake>/.git/config`.
    ReadGitConfig,
    /// Read `<flake>/.git/HEAD`.
    ReadGitHead,
    /// Tell whether `<cache>/.git` exists.
    ProbeCacheRepo,
    /// Run `git fetch origin <branch>` in the cache.
    Fetch { branch: String },
    /// Run `git reset --hard <target>` in the cache.
    Reset { target: String },
    /// Create the parent directories of the cache.
    CreateCacheParent,
    /// Run `git clone --branch <branch> --single-branch <url> <cache>`.
    CloneRepo { branch: String, url: String },
    /// Tell whether `<flake>/flake.lock` exists.
    ProbeLock,
    /// Copy `<flake>/flake.lock` to `<cache>/flake.lock`.
    CopyLock,
    /// Run `nix flake update` in the cache.
    UpdateInputs,
    /// Read `/etc/hostname`.
    ReadHostname,
    /// Run `nixos-rebuild dry-build --flake <flake_ref>` in the cache.
    DryBuild { flake_ref: String },
    /// The check is over: read the updates from this dry-build output.
    Report { output: String },
    /// The check is over and failed.
    Fail(FlakeCheckError),
}

/// The outcome of reading a file.
pub enum FileRead {
    /// The file does not exist.
    Missing,
    /// Reading failed; holds the text of the I/O error.
    Failed(String),
    /// The file's text.
    Text(String),
}

/// The outcome of running a command.
pub enum CommandRun {
    /// The command could not be started; holds the text of the I/O error.
    NotStarted(String),
    /// The command ran to its end.
    Exited { success: bool, stdout: String, stderr: String },
}

/// What the last step gave back.
pub enum CheckEvent {
    /// Whether the probed path exists.
    Exists(bool),
    /// A file was read.
    Read(FileRead),
    /// A command was run.
    Ran(CommandRun),
    /// A directory was created or a file copied; the error's text if it failed.
    Wrote(Result<(), String>),
}

/// `act` is the step that `r` waits for.
pub open spec fn is_pending(r: CheckRun, act: CheckAction) -> bool {
    match r.phase {
        CheckPhase::FlakePath => act is ProbeFlakePath,
        CheckPhase::GitConfig => act is ReadGitConfig,
        CheckPhase::GitHead => act is ReadGitHead,
        CheckPhase::CacheRepo => act is ProbeCacheRepo,
        CheckPhase::Fetching => act matches CheckAction::Fetch { branch } && branch@ == r.branch@,
        CheckPhase::Resetting => act matches CheckAction::Reset { target } && target@ == "origin/"@
            + r.branch@,
        CheckPhase::CreatingParent => act is CreateCacheParent,
        CheckPhase::Cloning => act matches CheckAction::CloneRepo { branch, url } && branch@
            == r.branch@ && url@ == r.remote_url@,
        CheckPhase::LockProbe => act is ProbeLock,
        CheckPhase::LockCopy => act is CopyLock,
        CheckPhase::Updating => act is UpdateInputs,
        CheckPhase::Hostname => act is ReadHostname,
        CheckPhase::DryBuilding => act matches CheckAction::DryBuild { flake_ref } && flake_ref@
            == ".#"@ + r.host@,
        CheckPhase::Done => act is Report || act is Fail,
    }
}

/// `a` is `b` moved to `phase`, with what it has read kept.
pub open spec fn keeps(b: CheckRun, a: CheckRun, phase: CheckPhase) -> bool {
    &&& a.phase == phase
    &&& a.flake_path@ == b.flake_path@
    &&& a.remote_url@ == b.remote_url@
    &&& a.branch@ == b.branch@
    &&& a.host@ == b.host@
}

/// The run moves on to `phase` and asks for its step.
pub open spec fn goes_on(b: CheckRun, a: CheckRun, phase: CheckPhase, act: CheckAction) -> bool {
    keeps(b, a, phase) && is_pending(a, act)
}

/// The run ends with a `NixError` whose text is `msg`.
pub open spec fn fails_with(b: CheckRun, a: CheckRun, act: CheckAction, msg: Seq<char>) -> bool {
    &&& keeps(b, a, CheckPhase::Done)
    &&& act matches CheckAction::Fail(FlakeCheckError::NixError(m)) && m@ == msg
}

/// The run ends because a command could not be started; `msg` is the I/O error's text.
pub open spec fn fails_to_run(b: CheckRun, a: CheckRun, act: CheckAction, msg: Seq<char>) -> bool {
    &&& keeps(b, a, CheckPhase::Done)
    &&& act matches CheckAction::Fail(FlakeCheckError::CommandFailed(m)) && m@ == msg
}

/// A git command in the cache: on to `next` when it succeeds, else the run fails with
/// `prefix` followed by the command's standard error.
pub open spec fn git_step(
    b: CheckRun,
    run: CommandRun,
    a: CheckRun,
    act: CheckAction,
    prefix: Seq<char>,
    next: CheckPhase,
) -> bool {
    match run {
        CommandRun::NotStarted(e) => fails_to_run(b, a, act, e@),
        CommandRun::Exited { success, stderr, .. } => if success {
            goes_on(b, a, next, act)
        } else {
            fails_with(b, a, act, prefix + stderr@)
        },
    }
}

/// `event` is an outcome of the kind that the step of `phase` gives.
pub open spec fn fits(phase: CheckPhase, event: CheckEvent) -> bool {
    match phase {
        CheckPhase::FlakePath | CheckPhase::CacheRepo | CheckPhase::LockProbe => event is Exists,
        CheckPhase::GitConfig | CheckPhase::GitHead | CheckPhase::Hostname => event is Read,
        CheckPhase::Fetching | CheckPhase::Resetting | CheckPhase::Cloning | CheckPhase::Updating
        | CheckPhase::DryBuilding => event is Ran,
        CheckPhase::CreatingParent | CheckPhase::LockCopy => event is Wrote,
        CheckPhase::Done => false,
    }
}

/// How a run `b` that gets `event` becomes `a` and asks for `act`. An event of another
/// kind than the pending step gives leaves the run as it was, asking for that step again.
pub open spec fn moves(b: CheckRun, event: CheckEvent, a: CheckRun, act: CheckAction) -> bool {
    if !fits(b.phase, event) {
        keeps(b, a, b.phase) && is_pending(b, act)
    } else {
        match event {
            CheckEvent::Exists(e) => match b.phase {
                CheckPhase::FlakePath => if e {
                    goes_on(b, a, CheckPhase::GitConfig, act)
                } else {
                    &&& keeps(b, a, CheckPhase::Done)
                    &&& act matches CheckAction::Fail(FlakeCheckError::PathNotFound(p)) && p@
                        == b.flake_path@
                },
                CheckPhase::CacheRepo => if e {
                    goes_on(b, a, CheckPhase::Fetching, act)
                } else {
                    goes_on(b, a, CheckPhase::CreatingParent, act)
                },
                _ => if e {
                    goes_on(b, a, CheckPhase::LockCopy, act)
                } else {
                    goes_on(b, a, CheckPhase::Updating, act)
                },
            },
            CheckEvent::Read(r) => match b.phase {
                CheckPhase::GitConfig => match r {
                    FileRead::Missing => {
                        &&& keeps(b, a, CheckPhase::Done)
                        &&& act matches CheckAction::Fail(FlakeCheckError::NotGitRepo(p)) && p@
                            == b.flake_path@
                    },
                    FileRead::Failed(e) => fails_with(
                        b,
                        a,
                        act,
                        "Failed to read git config: "@ + e@,
                    ),
                    FileRead::Text(t) => match origin_url(t@) {
                        Some(u) => {
                            &&& a.phase == CheckPhase::GitHead
                            &&& a.flake_path@ == b.flake_path@
                            &&& a.remote_url@ == u
                            &&& a.branch@ == b.branch@
                            &&& a.host@ == b.host@
                            &&& act is ReadGitHead
                        },
                        None => fails_with(b, a, act, "No origin remote found"@),
                    },
                },
                CheckPhase::GitHead => match r {
                    FileRead::Failed(_) => fails_with(b, a, act, "Failed to read HEAD"@),
                    _ => {
                        &&& a.phase == CheckPhase::CacheRepo
                        &&& a.flake_path@ == b.flake_path@
                        &&& a.remote_url@ == b.remote_url@
                        &&& a.branch@ == (match r {
                            FileRead::Text(t) => head_branch(t@),
                            _ => "main"@,
                        })
                        &&& a.host@ == b.host@
                        &&& act is ProbeCacheRepo
                    },
                },
                _ => {
                    &&& a.phase == CheckPhase::DryBuilding
                    &&& a.flake_path@ == b.flake_path@
                    &&& a.remote_url@ == b.remote_url@
                    &&& a.branch@ == b.branch@
                    &&& a.host@ == (match r {
                        FileRead::Text(t) => trim(t@),
                        _ => "nixos"@,
                    })
                    &&& is_pending(a, act)
                },
            },
            CheckEvent::Ran(run) => match b.phase {
                CheckPhase::Fetching => git_step(
                    b,
                    run,
                    a,
                    act,
                    "Git fetch failed: "@,
                    CheckPhase::Resetting,
                ),
                CheckPhase::Resetting => git_step(
                    b,
                    run,
                    a,
                    act,
                    "Git reset failed: "@,
                    CheckPhase::LockProbe,
                ),
                CheckPhase::Cloning => git_step(
                    b,
                    run,
                    a,
                    act,
                    "Git clone failed: "@,
                    CheckPhase::LockProbe,
                ),
                CheckPhase::Updating => match run {
                    CommandRun::NotStarted(e) => fails_to_run(b, a, act, e@),
                    CommandRun::Exited { .. } => goes_on(b, a, CheckPhase::Hostname, act),
                },
                _ => match run {
                    CommandRun::NotStarted(e) => fails_to_run(b, a, act, e@),
                    CommandRun::Exited { success, stdout, stderr } => if success {
                        &&& keeps(b, a, CheckPhase::Done)
                        &&& act matches CheckAction::Report { output } && output@ == stdout@
                            + "\n"@ + stderr@
                    } else {
                        fails_with(b, a, act, dry_build_failure_message(stderr@))
                    },
                },
            },
            CheckEvent::Wrote(w) => match b.phase {
                CheckPhase::CreatingParent => match w {
                    Ok(_) => goes_on(b, a, CheckPhase::Cloning, act),
                    Err(e) => fails_with(b, a, act, "Failed to create cache directory: "@ + e@),
                },
                _ => match w {
                    Ok(_) => goes_on(b, a, CheckPhase::Updating, act),
                    Err(e) => fails_with(b, a, act, "Failed to copy flake.lock: "@ + e@),
                },
            },
        }
    }
}

/// The order in which a check takes its steps.
pub open spec fn phase_rank(p: CheckPhase) -> nat {
    match p {
        CheckPhase::FlakePath => 0,
        CheckPhase::GitConfig => 1,
        CheckPhase::GitHead => 2,
        CheckPhase::CacheRepo => 3,
        CheckPhase::Fetching => 4,
        CheckPhase::CreatingParent => 4,
        CheckPhase::Resetting => 5,
        CheckPhase::Cloning => 5,
        CheckPhase::LockProbe => 6,
        CheckPhase::LockCopy => 7,
        CheckPhase::Updating => 8,
        CheckPhase::Hostname => 9,
        CheckPhase::DryBuilding => 10,
        CheckPhase::Done => 11,
    }
}

/// Every outcome of the pending step moves a check strictly forward, so that a check is
/// over after at most eleven steps; an outcome of another kind changes nothing and asks
/// for the same step again.
pub proof fn lemma_check_moves_forward(
    b: CheckRun,
    event: CheckEvent,
    a: CheckRun,
    act: CheckAction,
)
    requires
        b.phase != CheckPhase::Done,
        moves(b, event, a, act),
    ensures
        fits(b.phase, event) ==> phase_rank(b.phase) < phase_rank(a.phase),
        !fits(b.phase, event) ==> keeps(b, a, b.phase) && is_pending(b, act),
        phase_rank(a.phase) <= 11,
{
}

/// A check is over exactly when it reports or fails.
pub proof fn lemma_check_ends_with_outcome(
    b: CheckRun,
    event: CheckEvent,
    a: CheckRun,
    act: CheckAction,
)
    requires
        b.phase != CheckPhase::Done,
        moves(b, event, a, act),
    ensures
        a.phase == CheckPhase::Done <==> (act is Report || act is Fail),
{
}

/// A check reports only after a successful dry build, and what it reports is the
/// build's standard output, a line feed, and its standard error.
pub proof fn lemma_report_follows_dry_build(
    b: CheckRun,
    event: CheckEvent,
    a: CheckRun,
    act: CheckAction,
)
    requires
        b.phase != CheckPhase::Done,
        moves(b, event, a, act),
        act is Report,
    ensures
        b.phase == CheckPhase::DryBuilding,
        event matches CheckEvent::Ran(CommandRun::Exited { success, stdout, stderr }) && success
            && (act matches CheckAction::Report { output } && output@ == stdout@ + "\n"@
            + stderr@),
{
}

/// The dry build is run for the host whose name was read (`nixos` when it could not be
/// read), and the cache is cloned from the flake's `origin` url on its current branch.
pub proof fn lemma_commands_use_what_was_read(
    b: CheckRun,
    event: CheckEvent,
    a: CheckRun,
    act: CheckAction,
)
    requires
        b.phase != CheckPhase::Done,
        moves(b, event, a, act),
    ensures
        act matches CheckAction::DryBuild { flake_ref } ==> flake_ref@ == ".#"@ + a.host@,
        act matches CheckAction::CloneRepo { branch, url } ==> (branch@ == a.branch@ && url@
            == a.remote_url@),
        act matches CheckAction::Reset { target } ==> target@ == "origin/"@ + a.branch@,
        b.phase == CheckPhase::Hostname && fits(b.phase, event) ==> a.host@ == (match event {
            CheckEvent::Read(FileRead::Text(t)) => trim(t@),
            _ => "nixos"@,
        }),
{
}

/// A `NixError` with the text `prefix` followed by `detail`.
fn nix_error(prefix: &str, detail: &str) -> (e: FlakeCheckError)
    ensures
        e matches FlakeCheckError::NixError(m) && m@ == prefix@ + detail@,
{
    FlakeCheckError::NixError(String::from_str(prefix).concat(detail))
}

impl CheckRun {
    /// Starts a check of the flake in `flake_path`; the first step asks whether it exists.
    pub fn start(flake_path: &str) -> (r: (CheckRun, CheckAction))
        ensures
            r.0.phase == CheckPhase::FlakePath,
            r.0.flake_path@ == flake_path@,
            r.0.remote_url@.len() == 0,
            r.0.branch@.len() == 0,
            r.0.host@.len() == 0,
            r.1 is ProbeFlakePath,
    {
        let run = CheckRun {
            phase: CheckPhase::FlakePath,
            flake_path: String::from_str(flake_path),
            remote_url: String::new(),
            branch: String::new(),
            host: String::new(),
        };
        (run, CheckAction::ProbeFlakePath)
    }

    /// The step that the run waits for.
    pub fn pending_action(&self) -> (act: CheckAction)
        requires
            self.phase != CheckPhase::Done,
        ensures
            is_pending(*self, act),
    {
        match self.phase {
            CheckPhase::FlakePath => CheckAction::ProbeFlakePath,
            CheckPhase::GitConfig => CheckAction::ReadGitConfig,
            CheckPhase::GitHead => CheckAction::ReadGitHead,
            CheckPhase::CacheRepo => CheckAction::ProbeCacheRepo,
            CheckPhase::Fetching => CheckAction::Fetch { branch: self.branch.clone() },
            CheckPhase::Resetting => CheckAction::Reset {
                target: String::from_str("origin/").concat(self.branch.as_str()),
            },
            CheckPhase::CreatingParent => CheckAction::CreateCacheParent,
            CheckPhase::Cloning => CheckAction::CloneRepo {
                branch: self.branch.clone(),
                url: self.remote_url.clone(),
            },
            CheckPhase::LockProbe => CheckAction::ProbeLock,
            CheckPhase::LockCopy => CheckAction::CopyLock,
            CheckPhase::Updating => CheckAction::UpdateInputs,
            CheckPhase::Hostname => CheckAction::ReadHostname,
            CheckPhase::DryBuilding => CheckAction::DryBuild {
                flake_ref: String::from_str(".#").concat(self.host.as_str()),
            },
            CheckPhase::Done => CheckAction::UpdateInputs,
        }
    }

    /// Moves to `next` and asks for its step.
    fn go_on(&mut self, next: CheckPhase) -> (act: CheckAction)
        requires
            next != CheckPhase::Done,
        ensures
            goes_on(*old(self), *final(self), next, act),
    {
        self.phase = next;
        self.pending_action()
    }

    /// Ends the run with `e`.
    fn fail(&mut self, e: FlakeCheckError) -> (act: CheckAction)
        ensures
            keeps(*old(self), *final(self), CheckPhase::Done),
            act == CheckAction::Fail(e),
    {
        self.phase = CheckPhase::Done;
        CheckAction::Fail(e)
    }

    /// A git command in the cache gave `run`: on to `next` when it succeeded.
    fn after_git(&mut self, run: CommandRun, prefix: &str, next: CheckPhase) -> (act: CheckAction)
        requires
            next != CheckPhase::Done,
        ensures
            git_step(*old(self), run, *final(self), act, prefix@, next),
    {
        match run {
            CommandRun::NotStarted(e) => self.fail(FlakeCheckError::CommandFailed(e)),
            CommandRun::Exited { success, stderr, .. } => if success {
                self.go_on(next)
            } else {
                let e = nix_error(prefix, stderr.as_str());
                self.fail(e)
            },
        }
    }

    /// Takes the outcome of the pending step and gives the next one.
    pub fn step(&mut self, event: CheckEvent) -> (act: CheckAction)
        requires
            old(self).phase != CheckPhase::Done,
        ensures
            moves(*old(self), event, *final(self), act),
    {
        match event {
            CheckEvent::Exists(e) => match self.phase {
                CheckPhase::FlakePath => if e {
                    self.go_on(CheckPhase::GitConfig)
                } else {
                    let p = self.flake_path.clone();
                    self.fail(FlakeCheckError::PathNotFound(p))
                },
                CheckPhase::CacheRepo => if e {
                    self.go_on(CheckPhase::Fetching)
                } else {
                    self.go_on(CheckPhase::CreatingParent)
                },
                CheckPhase::LockProbe => if e {
                    self.go_on(CheckPhase::LockCopy)
                } else {
                    self.go_on(CheckPhase::Updating)
                },
                _ => self.pending_action(),
            },
            CheckEvent::Read(r) => match self.phase {
                CheckPhase::GitConfig => match r {
                    FileRead::Missing => {
                        let p = self.flake_path.clone();
                        self.fail(FlakeCheckError::NotGitRepo(p))
                    },
                    FileRead::Failed(e) => {
                        let err = nix_error("Failed to read git config: ", e.as_str());
                        self.fail(err)
                    },
                    FileRead::Text(t) => match parse_git_origin_url(t.as_str()) {
                        Ok(url) => {
                            self.remote_url = url;
                            self.phase = CheckPhase::GitHead;
                            CheckAction::ReadGitHead
                        },
                        Err(e) => self.fail(e),
                    },
                },
                CheckPhase::GitHead => match r {
                    FileRead::Failed(_) => {
                        let err = FlakeCheckError::NixError(String::from_str("Failed to read HEAD"));
                        self.fail(err)
                    },
                    FileRead::Missing => {
                        self.branch = String::from_str("main");
                        self.phase = CheckPhase::CacheRepo;
                        CheckAction::ProbeCacheRepo
                    },
                    FileRead::Text(t) => {
                        self.branch = parse_git_head_branch(t.as_str());
                        self.phase = CheckPhase::CacheRepo;
                        CheckAction::ProbeCacheRepo
                    },
                },
                CheckPhase::Hostname => {
                    self.host = match r {
                        FileRead::Text(t) => trimmed(t.as_str()),
                        _ => String::from_str("nixos"),
                    };
                    self.go_on(CheckPhase::DryBuilding)
                },
                _ => self.pending_action(),
            },
            CheckEvent::Ran(run) => match self.phase {
                CheckPhase::Fetching => self.after_git(
                    run,
                    "Git fetch failed: ",
                    CheckPhase::Resetting,
                ),
                CheckPhase::Resetting => self.after_git(
                    run,
                    "Git reset failed: ",
                    CheckPhase::LockProbe,
                ),
                CheckPhase::Cloning => self.after_git(
                    run,
                    "Git clone failed: ",
                    CheckPhase::LockProbe,
                ),
                CheckPhase::Updating => match run {
                    CommandRun::NotStarted(e) => self.fail(FlakeCheckError::CommandFailed(e)),
                    CommandRun::Exited { .. } => self.go_on(CheckPhase::Hostname),
                },
                CheckPhase::DryBuilding => match run {
                    CommandRun::NotStarted(e) => self.fail(FlakeCheckError::CommandFailed(e)),
                    CommandRun::Exited { success, stdout, stderr } => if success {
                        self.phase = CheckPhase::Done;
                        let output = stdout.concat("\n").concat(stderr.as_str());
                        CheckAction::Report { output }
                    } else {
                        let e = dry_build_failure(stderr.as_str());
                        self.fail(e)
                    },
                },
                _ => self.pending_action(),
            },
            CheckEvent::Wrote(w) => match self.phase {
                CheckPhase::CreatingParent => match w {
                    Ok(_) => self.go_on(CheckPhase::Cloning),
                    Err(e) => {
                        let err = nix_error("Failed to create cache directory: ", e.as_str());
                        self.fail(err)
                    },
                },
                CheckPhase::LockCopy => match w {
                    Ok(_) => self.go_on(CheckPhase::Updating),
                    Err(e) => {
                        let err = nix_error("Failed to copy flake.lock: ", e.as_str());
                        self.fail(err)
                    },
                },
                _ => self.pending_action(),
            },
        }
    }
}

} // verus!
