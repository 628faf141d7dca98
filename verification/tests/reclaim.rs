use pmcc::command::envelope;
use pmcc::homebrew::{extract_cleanup_reclaimed_bytes, first_size_in_line, hydrate_homebrew_cleanup_with_runner};
use pmcc::types::{AsyncStatus, CommandFailure, CommandRun, FailureKind};

fn size(number: &str, unit: &str) -> Option<u64> {
    let value = number.parse::<f64>().ok()?;
    let multiplier = match unit.to_ascii_lowercase().as_str() {
        "b" => 1_f64,
        "kb" => 1024_f64,
        "mb" => 1024_f64 * 1024_f64,
        "gb" => 1024_f64 * 1024_f64 * 1024_f64,
        _ => return None,
    };
    Some((value * multiplier).round() as u64)
}

#[test]
fn first_size_skips_numbers_without_a_unit() {
    assert_eq!(first_size_in_line("Would remove: /tmp/a (12 files, 2KB)", &size), Some(2048));
    assert_eq!(first_size_in_line("3 MB", &size), Some(3 * 1024 * 1024));
    assert_eq!(first_size_in_line("1.5\tGB", &size), Some(1610612736));
    assert_eq!(first_size_in_line("no sizes here", &size), None);
    assert_eq!(first_size_in_line("version 2 only", &size), None);
}

#[test]
fn last_free_line_gives_the_reclaimed_bytes() {
    let output = "This operation would free approximately 1MB of disk space.\nWould remove: /a (2KB)\n==> This operation would FREE approximately 1.5GB of disk space.\n";
    assert_eq!(extract_cleanup_reclaimed_bytes(output, &size), Some(1610612736));
}

#[test]
fn would_remove_lines_are_summed_without_a_free_line() {
    let output = "Would remove: /a (10 files, 2KB)\nwould remove: /b (1MB)\nSkipping /c\n";
    assert_eq!(extract_cleanup_reclaimed_bytes(output, &size), Some(2048 + 1024 * 1024));
}

#[test]
fn a_free_line_without_a_size_falls_back_to_the_sum() {
    let output = "Would remove: /a (4KB)\nNothing to free.\n";
    assert_eq!(extract_cleanup_reclaimed_bytes(output, &size), Some(4096));
}

#[test]
fn output_without_sizes_reclaims_nothing() {
    assert_eq!(extract_cleanup_reclaimed_bytes("", &size), None);
    assert_eq!(extract_cleanup_reclaimed_bytes("Would remove: /a (0B)\n", &size), None);
}

#[test]
fn saturating_sum_of_removed_sizes() {
    let huge = |_: &str, _: &str| -> Option<u64> { Some(u64::MAX - 1) };
    let output = "would remove 1x\nwould remove 1x\n";
    assert_eq!(extract_cleanup_reclaimed_bytes(output, &huge), Some(u64::MAX));
}

#[test]
fn cleanup_preview_reads_the_dry_run() {
    let runner = |program: &str, args: &[String], timeout: u64| -> Result<CommandRun, CommandFailure> {
        Ok(CommandRun {
            envelope: envelope(program, &["cleanup", "--dry-run"], timeout * 1000),
            exit_code: Some(0),
            stdout: format!("{} {}: This operation would free approximately 2KB of disk space.", program, args.len()),
            stderr: String::new(),
            duration_ms: 1,
        })
    };
    let human = |bytes: u64| -> String { format!("{bytes} bytes") };
    let preview = hydrate_homebrew_cleanup_with_runner(&runner, &size, &human);
    assert!(matches!(preview.status, AsyncStatus::Ready));
    assert_eq!(preview.reclaimed_bytes, Some(2048));
    assert_eq!(preview.reclaimed_human, Some("2048 bytes".to_string()));
    assert_eq!(preview.command.preview, "brew cleanup --dry-run");
}

#[test]
fn failed_dry_run_gives_a_failed_preview() {
    let runner = |_: &str, _: &[String], _: u64| -> Result<CommandRun, CommandFailure> {
        Err(CommandFailure {
            kind: FailureKind::MissingBinary,
            message: "brew is not installed or is not on PATH".to_string(),
            command: None,
            stdout: String::new(),
            stderr: String::new(),
        })
    };
    let human = |bytes: u64| -> String { format!("{bytes}") };
    let preview = hydrate_homebrew_cleanup_with_runner(&runner, &size, &human);
    assert!(matches!(preview.status, AsyncStatus::Failed));
    assert_eq!(preview.reclaimed_bytes, None);
}
