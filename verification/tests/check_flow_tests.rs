use nixos_update_checker::check_flow::{
    CheckAction, CheckEvent, CheckPhase, CheckRun, CommandRun, FileRead,
};
use nixos_update_checker::flake_checker::FlakeCheckError;

fn text(s: &str) -> CheckEvent {
    CheckEvent::Read(FileRead::Text(s.to_string()))
}

fn exited(success: bool, stdout: &str, stderr: &str) -> CheckEvent {
    CheckEvent::Ran(CommandRun::Exited {
        success,
        stdout: stdout.to_string(),
        stderr: stderr.to_string(),
    })
}

const GIT_CONFIG: &str = "[core]\n\tbare = false\n[remote \"origin\"]\n\turl = https://example.org/me/nixos.git\n\tfetch = +refs/heads/*:refs/remotes/origin/*\n";

/// A run that has read the repository metadata and waits on the cache probe.
fn run_at_cache_probe(head: FileRead) -> CheckRun {
    let (mut run, _) = CheckRun::start("/etc/nixos");
    run.step(CheckEvent::Exists(true));
    run.step(text(GIT_CONFIG));
    let act = run.step(CheckEvent::Read(head));
    assert!(matches!(act, CheckAction::ProbeCacheRepo));
    run
}

#[test]
fn check_flow_updates_existing_cache_and_reports() {
    let (mut run, act) = CheckRun::start("/etc/nixos");
    assert!(matches!(act, CheckAction::ProbeFlakePath));
    assert!(matches!(run.step(CheckEvent::Exists(true)), CheckAction::ReadGitConfig));
    assert!(matches!(run.step(text(GIT_CONFIG)), CheckAction::ReadGitHead));
    assert_eq!(run.remote_url, "https://example.org/me/nixos.git");
    assert!(matches!(run.step(text("ref: refs/heads/dev\n")), CheckAction::ProbeCacheRepo));
    assert_eq!(run.branch, "dev");
    match run.step(CheckEvent::Exists(true)) {
        CheckAction::Fetch { branch } => assert_eq!(branch, "dev"),
        other => panic!("unexpected step {:?}", other),
    }
    match run.step(exited(true, "", "")) {
        CheckAction::Reset { target } => assert_eq!(target, "origin/dev"),
        other => panic!("unexpected step {:?}", other),
    }
    assert!(matches!(run.step(exited(true, "", "")), CheckAction::ProbeLock));
    assert!(matches!(run.step(CheckEvent::Exists(true)), CheckAction::CopyLock));
    assert!(matches!(run.step(CheckEvent::Wrote(Ok(()))), CheckAction::UpdateInputs));
    // the status of `nix flake update` is not looked at
    assert!(matches!(run.step(exited(false, "", "warning")), CheckAction::ReadHostname));
    match run.step(text("  myhost\n")) {
        CheckAction::DryBuild { flake_ref } => assert_eq!(flake_ref, ".#myhost"),
        other => panic!("unexpected step {:?}", other),
    }
    match run.step(exited(true, "these 2 derivations will be built:", "done")) {
        CheckAction::Report { output } => {
            assert_eq!(output, "these 2 derivations will be built:\ndone")
        }
        other => panic!("unexpected step {:?}", other),
    }
    assert_eq!(run.phase, CheckPhase::Done);
}

#[test]
fn check_flow_clones_missing_cache() {
    let mut run = run_at_cache_probe(FileRead::Missing);
    assert_eq!(run.branch, "main");
    assert!(matches!(run.step(CheckEvent::Exists(false)), CheckAction::CreateCacheParent));
    match run.step(CheckEvent::Wrote(Ok(()))) {
        CheckAction::CloneRepo { branch, url } => {
            assert_eq!(branch, "main");
            assert_eq!(url, "https://example.org/me/nixos.git");
        }
        other => panic!("unexpected step {:?}", other),
    }
    assert!(matches!(run.step(exited(true, "", "")), CheckAction::ProbeLock));
    // without a flake.lock nothing is copied
    assert!(matches!(run.step(CheckEvent::Exists(false)), CheckAction::UpdateInputs));
}

#[test]
fn check_flow_detached_head_uses_main() {
    let run = run_at_cache_probe(FileRead::Text("0123456789abcdef\n".to_string()));
    assert_eq!(run.branch, "main");
}

#[test]
fn check_flow_missing_flake_path() {
    let (mut run, _) = CheckRun::start("/nowhere");
    match run.step(CheckEvent::Exists(false)) {
        CheckAction::Fail(FlakeCheckError::PathNotFound(p)) => assert_eq!(p, "/nowhere"),
        other => panic!("unexpected step {:?}", other),
    }
    assert_eq!(run.phase, CheckPhase::Done);
}

#[test]
fn check_flow_git_config_errors() {
    let (mut run, _) = CheckRun::start("/etc/nixos");
    run.step(CheckEvent::Exists(true));
    match run.step(CheckEvent::Read(FileRead::Missing)) {
        CheckAction::Fail(FlakeCheckError::NotGitRepo(p)) => assert_eq!(p, "/etc/nixos"),
        other => panic!("unexpected step {:?}", other),
    }

    let (mut run, _) = CheckRun::start("/etc/nixos");
    run.step(CheckEvent::Exists(true));
    match run.step(CheckEvent::Read(FileRead::Failed("permission denied".to_string()))) {
        CheckAction::Fail(FlakeCheckError::NixError(m)) => {
            assert_eq!(m, "Failed to read git config: permission denied")
        }
        other => panic!("unexpected step {:?}", other),
    }

    let (mut run, _) = CheckRun::start("/etc/nixos");
    run.step(CheckEvent::Exists(true));
    match run.step(text("[remote \"upstream\"]\n\turl = https://example.org/other.git\n")) {
        CheckAction::Fail(FlakeCheckError::NixError(m)) => assert_eq!(m, "No origin remote found"),
        other => panic!("unexpected step {:?}", other),
    }
}

#[test]
fn check_flow_unreadable_head() {
    let (mut run, _) = CheckRun::start("/etc/nixos");
    run.step(CheckEvent::Exists(true));
    run.step(text(GIT_CONFIG));
    match run.step(CheckEvent::Read(FileRead::Failed("io".to_string()))) {
        CheckAction::Fail(FlakeCheckError::NixError(m)) => assert_eq!(m, "Failed to read HEAD"),
        other => panic!("unexpected step {:?}", other),
    }
}

#[test]
fn check_flow_git_failures() {
    let mut run = run_at_cache_probe(FileRead::Missing);
    run.step(CheckEvent::Exists(true));
    match run.step(exited(false, "", "fatal: unable to access")) {
        CheckAction::Fail(FlakeCheckError::NixError(m)) => {
            assert_eq!(m, "Git fetch failed: fatal: unable to access")
        }
        other => panic!("unexpected step {:?}", other),
    }

    let mut run = run_at_cache_probe(FileRead::Missing);
    run.step(CheckEvent::Exists(true));
    run.step(exited(true, "", ""));
    match run.step(exited(false, "", "bad ref")) {
        CheckAction::Fail(FlakeCheckError::NixError(m)) => assert_eq!(m, "Git reset failed: bad ref"),
        other => panic!("unexpected step {:?}", other),
    }

    let mut run = run_at_cache_probe(FileRead::Missing);
    run.step(CheckEvent::Exists(false));
    run.step(CheckEvent::Wrote(Ok(())));
    match run.step(exited(false, "", "not found")) {
        CheckAction::Fail(FlakeCheckError::NixError(m)) => assert_eq!(m, "Git clone failed: not found"),
        other => panic!("unexpected step {:?}", other),
    }

    let mut run = run_at_cache_probe(FileRead::Missing);
    run.step(CheckEvent::Exists(true));
    match run.step(CheckEvent::Ran(CommandRun::NotStarted("No such file".to_string()))) {
        CheckAction::Fail(FlakeCheckError::CommandFailed(m)) => assert_eq!(m, "No such file"),
        other => panic!("unexpected step {:?}", other),
    }
}

#[test]
fn check_flow_write_failures() {
    let mut run = run_at_cache_probe(FileRead::Missing);
    run.step(CheckEvent::Exists(false));
    match run.step(CheckEvent::Wrote(Err("read-only".to_string()))) {
        CheckAction::Fail(FlakeCheckError::NixError(m)) => {
            assert_eq!(m, "Failed to create cache directory: read-only")
        }
        other => panic!("unexpected step {:?}", other),
    }

    let mut run = run_at_cache_probe(FileRead::Missing);
    run.step(CheckEvent::Exists(true));
    run.step(exited(true, "", ""));
    run.step(exited(true, "", ""));
    run.step(CheckEvent::Exists(true));
    match run.step(CheckEvent::Wrote(Err("disk full".to_string()))) {
        CheckAction::Fail(FlakeCheckError::NixError(m)) => {
            assert_eq!(m, "Failed to copy flake.lock: disk full")
        }
        other => panic!("unexpected step {:?}", other),
    }
}

/// A run waiting on the dry build, with the given host file outcome.
fn run_at_dry_build(host: FileRead) -> (CheckRun, CheckAction) {
    let mut run = run_at_cache_probe(FileRead::Missing);
    run.step(CheckEvent::Exists(true));
    run.step(exited(true, "", ""));
    run.step(exited(true, "", ""));
    run.step(CheckEvent::Exists(false));
    run.step(exited(true, "", ""));
    let act = run.step(CheckEvent::Read(host));
    (run, act)
}

#[test]
fn check_flow_missing_hostname_builds_nixos() {
    let (_, act) = run_at_dry_build(FileRead::Missing);
    match act {
        CheckAction::DryBuild { flake_ref } => assert_eq!(flake_ref, ".#nixos"),
        other => panic!("unexpected step {:?}", other),
    }
    let (_, act) = run_at_dry_build(FileRead::Failed("denied".to_string()));
    match act {
        CheckAction::DryBuild { flake_ref } => assert_eq!(flake_ref, ".#nixos"),
        other => panic!("unexpected step {:?}", other),
    }
}

#[test]
fn check_flow_failed_dry_build_keeps_five_lines() {
    let (mut run, _) = run_at_dry_build(FileRead::Text("box".to_string()));
    match run.step(exited(false, "out", "e1\ne2\ne3\ne4\ne5\ne6\n")) {
        CheckAction::Fail(FlakeCheckError::NixError(m)) => {
            assert_eq!(m, "nixos-rebuild dry-build failed: e1\ne2\ne3\ne4\ne5")
        }
        other => panic!("unexpected step {:?}", other),
    }
}

#[test]
fn check_flow_event_of_other_kind_repeats_step() {
    let mut run = run_at_cache_probe(FileRead::Text("ref: refs/heads/dev".to_string()));
    run.step(CheckEvent::Exists(true));
    // waiting on `git fetch`: a probe outcome changes nothing
    match run.step(CheckEvent::Exists(false)) {
        CheckAction::Fetch { branch } => assert_eq!(branch, "dev"),
        other => panic!("unexpected step {:?}", other),
    }
    assert_eq!(run.phase, CheckPhase::Fetching);
}
