use pmcc::command::{
    command_environment, envelope, poll_action, run_failure, spawn_failure, timeout_failure,
    PollAction, RunStage, SpawnError,
};
use pmcc::disk_usage::{file_key, unreadable_usage, usage_report, UsageError, UsageStats};
use pmcc::types::{DiskUsageStatus, FailureKind};

#[test]
fn spawn_failures_are_classified() {
    let e = envelope("npm", &["--version"], 5000);
    let missing = spawn_failure("npm", e.clone(), SpawnError::NotFound, "no such file".to_string());
    assert_eq!(missing.kind, FailureKind::MissingBinary);
    assert_eq!(missing.message, "npm is not installed or is not on PATH");
    assert_eq!(missing.stderr, "no such file");
    let denied = spawn_failure("npm", e.clone(), SpawnError::PermissionDenied, String::new());
    assert_eq!(denied.kind, FailureKind::PermissionDenied);
    assert_eq!(denied.message, "Permission denied while running npm --version");
    let other = spawn_failure("npm", e.clone(), SpawnError::Other, String::new());
    assert_eq!(other.message, "Could not run npm --version");
    let late = timeout_failure(e.clone(), "out".to_string(), "err".to_string());
    assert_eq!(late.kind, FailureKind::Timeout);
    assert_eq!(late.message, "npm --version exceeded the configured timeout");
    assert_eq!(late.stdout, "out");
    assert_eq!(run_failure(e.clone(), RunStage::Waiting, String::new()).message, "Could not wait for npm --version");
    assert_eq!(
        run_failure(e, RunStage::ReadingOutput, String::new()).message,
        "Could not read output from npm --version"
    );
}

#[test]
fn only_homebrew_gets_extra_environment() {
    let env = command_environment("brew");
    assert_eq!(
        env,
        vec![
            ("HOMEBREW_NO_AUTO_UPDATE".to_string(), "1".to_string()),
            ("HOMEBREW_NO_ENV_HINTS".to_string(), "1".to_string())
        ]
    );
    assert!(command_environment("npm").is_empty());
}

#[test]
fn polling_collects_stops_or_waits() {
    assert_eq!(poll_action(true, 10_000, 5_000), PollAction::Collect);
    assert_eq!(poll_action(false, 5_000, 5_000), PollAction::Stop);
    assert_eq!(poll_action(false, 4_999, 5_000), PollAction::Wait);
}

#[test]
fn hard_links_are_counted_once() {
    let mut stats = UsageStats::new();
    stats.enter_directory();
    stats.add_file(1, 42, 8);
    stats.add_file(1, 42, 8);
    stats.add_file(2, 42, 1);
    stats.skip();
    assert_eq!(stats.files, 2);
    assert_eq!(stats.bytes, 9 * 512);
    assert_eq!(stats.skipped, 2);
    assert_eq!(stats.directories, 1);
    assert_ne!(file_key(1, 0), file_key(0, 1));
    let report = usage_report(&stats, "4.5 KB".to_string());
    assert_eq!(report.status, DiskUsageStatus::Ready);
    assert_eq!(report.bytes, Some(4608));
    assert_eq!(report.human.as_deref(), Some("4.5 KB"));
}

#[test]
fn unreadable_paths_report_why() {
    let missing = unreadable_usage(UsageError::NotFound, "x".to_string());
    assert_eq!(missing.status, DiskUsageStatus::Missing);
    assert_eq!(missing.message.as_deref(), Some("Path does not exist"));
    let denied = unreadable_usage(UsageError::PermissionDenied, "denied".to_string());
    assert_eq!(denied.status, DiskUsageStatus::PermissionDenied);
    assert_eq!(denied.message.as_deref(), Some("denied"));
    assert_eq!(unreadable_usage(UsageError::Other, "e".to_string()).status, DiskUsageStatus::Error);
}
