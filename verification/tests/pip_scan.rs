use pmcc::command::envelope_owned;
use pmcc::pip::scan_pip_with_runner;
use pmcc::types::{AsyncStatus, CommandFailure, CommandRun, FailureKind, ManagerStatus, PathKind};

const PY: &str = "/opt/py/bin/python3";

fn answer(program: &str, args: &[String], timeout: u64) -> Result<CommandRun, CommandFailure> {
    let a: Vec<&str> = args.iter().map(String::as_str).collect();
    let stdout = match (program, a.as_slice()) {
        ("python3", ["--version"]) => "Python 3.12.1".to_string(),
        ("python3", ["-c", "import sys; print(sys.executable)"]) => format!("{PY}\n"),
        (PY, ["-m", "pip", "--version"]) => "pip 24.0".to_string(),
        (PY, ["-m", "pip", "list", "--format=json"]) => r#"[{"name":"requests","version":"2.31.0"}]"#.to_string(),
        (PY, ["-m", "pip", "cache", "dir"]) => "/c/pip".to_string(),
        (PY, ["-m", "pip", "cache", "info"]) => String::new(),
        (PY, ["-m", "pip", "inspect", "--local"]) => "{}".to_string(),
        _ => {
            return Err(CommandFailure {
                kind: FailureKind::MissingBinary,
                message: format!("{program} is not installed or is not on PATH"),
                command: None,
                stdout: String::new(),
                stderr: String::new(),
            })
        }
    };
    Ok(CommandRun {
        envelope: envelope_owned(program, args.to_vec(), timeout * 1000),
        stdout,
        stderr: String::new(),
        exit_code: Some(0),
        duration_ms: 1,
    })
}

#[test]
fn pip_scan_lists_through_the_probed_interpreter() {
    let r = scan_pip_with_runner(&answer, false);
    assert!(matches!(r.status, ManagerStatus::Ready));
    assert!(r.failures.is_empty());
    assert_eq!(r.version.as_deref(), Some("pip 24.0"));
    assert_eq!(r.packages.len(), 1);
    assert_eq!(r.packages[0].name, "requests");
    assert_eq!(r.packages[0].version, "2.31.0");
    assert_eq!(r.packages[0].actions[0].preview, format!("{PY} -m pip show requests"));
    assert_eq!(r.commands[0].preview, format!("{PY} -m pip list --format=json"));
    assert_eq!(r.paths.len(), 1);
    assert!(matches!(r.paths[0].kind, PathKind::Cache));
    assert_eq!(r.paths[0].path, "/c/pip");
    let h = r.pip.expect("pip health");
    assert_eq!(h.python_executable, PY);
    assert_eq!(h.python_version, "Python 3.12.1");
    assert_eq!(h.installed_count, 1);
    assert_eq!(h.outdated_count, 0);
    assert!(matches!(h.outdated_status, AsyncStatus::Pending));
    assert!(matches!(h.inspect_status, AsyncStatus::Ready));
}

#[test]
fn pip_scan_without_python_reports_the_missing_interpreter() {
    let none = |program: &str, _: &[String], _: u64| -> Result<CommandRun, CommandFailure> {
        Err(CommandFailure {
            kind: FailureKind::MissingBinary,
            message: format!("{program} is not installed or is not on PATH"),
            command: None,
            stdout: String::new(),
            stderr: String::new(),
        })
    };
    let r = scan_pip_with_runner(&none, false);
    assert!(r.version.is_none());
    assert!(r.packages.is_empty());
    assert!(r.pip.is_none());
    assert!(!r.failures.is_empty());
}
