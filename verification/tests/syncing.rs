//! Repository sync and the facts the pipeline reads about its own process.

use eagle::context::{is_dev_exe, Context};
use eagle::error::Error;
use eagle::sync::{heads_match, parse_remote_head, run_sync, RepoModel, SyncFailures, SyncOutcome};

#[test]
fn remote_head_parsing() {
    assert_eq!(parse_remote_head("abc123\tHEAD\n"), "abc123");
    assert_eq!(parse_remote_head("abc123"), "abc123");
    assert_eq!(parse_remote_head("  abc123  \trefs/heads/main"), "abc123");
    assert_eq!(parse_remote_head(""), "");
}

#[test]
fn head_comparison() {
    assert!(heads_match("abc123\n", "abc123\tHEAD\n"));
    assert!(heads_match("abc123", "abc123"));
    assert!(!heads_match("abc123", "def456\tHEAD\n"));
    assert!(!heads_match("", "def456\tHEAD\n"));
}

#[test]
fn sync_clones_missing_checkout() {
    let mut repo = RepoModel { local: None, remote: "abc123".to_string() };
    let r = run_sync(&mut repo, false, &SyncFailures::none());
    assert_eq!(r, Ok(SyncOutcome::Cloned));
    assert_eq!(repo.local.as_deref(), Some("abc123"));
}

#[test]
fn sync_clone_failure_is_fatal() {
    let mut repo = RepoModel { local: None, remote: "abc123".to_string() };
    let fails = SyncFailures { clone_fails: true, fetch_fails: false, reset_fails: false };
    let r = run_sync(&mut repo, false, &fails);
    assert_eq!(r, Err(Error::TransferFailed { status: None }));
    assert_eq!(repo.local, None);
}

#[test]
fn sync_updates_diverged_checkout() {
    let mut repo = RepoModel { local: Some("old000".to_string()), remote: "new111".to_string() };
    let r = run_sync(&mut repo, false, &SyncFailures::none());
    assert_eq!(r, Ok(SyncOutcome::Updated));
    assert_eq!(repo.local.as_deref(), Some("new111"));
}

#[test]
fn sync_step_failures_are_fatal_and_leave_head_alone() {
    for fails in [
        SyncFailures { clone_fails: false, fetch_fails: true, reset_fails: false },
        SyncFailures { clone_fails: false, fetch_fails: false, reset_fails: true },
    ] {
        let mut repo =
            RepoModel { local: Some("old000".to_string()), remote: "new111".to_string() };
        let r = run_sync(&mut repo, false, &fails);
        assert_eq!(r, Err(Error::SyncFailed));
        assert_eq!(repo.local.as_deref(), Some("old000"));
    }
}

#[test]
fn sync_twice_is_idempotent() {
    // With no remote change, both calls report up-to-date and the second
    // performs no write: even steps marked failing are never reached.
    let mut repo = RepoModel { local: Some("abc123".to_string()), remote: "abc123".to_string() };
    let r = run_sync(&mut repo, false, &SyncFailures::none());
    assert_eq!(r, Ok(SyncOutcome::UpToDate));
    let all_fail = SyncFailures { clone_fails: true, fetch_fails: true, reset_fails: true };
    let r = run_sync(&mut repo, false, &all_fail);
    assert_eq!(r, Ok(SyncOutcome::UpToDate));
    assert_eq!(repo.local.as_deref(), Some("abc123"));
    assert_eq!(repo.remote, "abc123");
}

#[test]
fn sync_reinstall_clones_fresh() {
    let mut repo = RepoModel { local: Some("abc123".to_string()), remote: "abc123".to_string() };
    let r = run_sync(&mut repo, true, &SyncFailures::none());
    assert_eq!(r, Ok(SyncOutcome::Cloned));
    assert_eq!(repo.local.as_deref(), Some("abc123"));
}

#[test]
fn dev_exe_detection() {
    assert!(is_dev_exe("C:\\code\\eagle\\target\\debug\\eagle.exe"));
    assert!(is_dev_exe("C:\\code\\eagle\\TARGET\\Release\\eagle.exe"));
    assert!(!is_dev_exe("C:\\Program Files\\eagle\\eagle.exe"));
    assert!(!is_dev_exe(""));
}

#[test]
fn context_carries_process_facts() {
    let ctx = Context {
        exe_path: "C:\\tools\\eagle.exe".to_string(),
        exe_dir: "C:\\tools".to_string(),
        version: "0.1.0",
        repo_url: "https://github.com/prodbyeagle/eaglePowerShell",
    };
    assert!(!is_dev_exe(&ctx.exe_path));
    assert_eq!(ctx.version, "0.1.0");
}
