use pmcc::cleanup::{assert_guarded_path, cleanup_plan, run_cache_cleanup_with_runner, run_cache_cleanup_with_runner_and_deleter, CleanupStep};
use pmcc::command::envelope_owned;
use pmcc::types::{CleanupOutcome, CleanupStepState, CommandFailure, CommandRun, FailureKind, ManagerId};

fn plan_commands(manager: ManagerId) -> Vec<(String, Vec<String>)> {
    cleanup_plan(manager)
        .into_iter()
        .filter_map(|step| match step {
            CleanupStep::Command { program, args } => Some((program, args)),
            CleanupStep::PipCommand { .. } | CleanupStep::GuardedDeletion(_) => None,
        })
        .collect()
}

fn expected(list: &[(&str, &[&str])]) -> Vec<(String, Vec<String>)> {
    list.iter()
        .map(|(program, args)| (program.to_string(), args.iter().map(|a| a.to_string()).collect()))
        .collect()
}

fn flat_args(manager: ManagerId) -> Vec<String> {
    plan_commands(manager).into_iter().flat_map(|(_, args)| args).collect()
}

fn fake_run(program: &str, args: &[String], timeout: u64, stdout: &str) -> CommandRun {
    CommandRun {
        envelope: envelope_owned(program, args.to_vec(), timeout * 1000),
        stdout: stdout.to_string(),
        stderr: String::new(),
        exit_code: Some(0),
        duration_ms: 1,
    }
}

fn fake_failed_run(program: &str, args: &[String], timeout: u64, stderr: &str) -> CommandRun {
    CommandRun {
        envelope: envelope_owned(program, args.to_vec(), timeout * 1000),
        stdout: String::new(),
        stderr: stderr.to_string(),
        exit_code: Some(1),
        duration_ms: 1,
    }
}

fn no_deletion(path: &str) -> Result<(), String> {
    panic!("the deleter must never be called, got {path}")
}

fn npm_runner(cache_root: String) -> impl Fn(&str, &[String], u64) -> Result<CommandRun, CommandFailure> {
    move |program: &str, args: &[String], timeout: u64| {
        let a: Vec<&str> = args.iter().map(String::as_str).collect();
        match a.as_slice() {
            ["config", "get", "cache"] => Ok(fake_run(program, args, timeout, &format!("{cache_root}\n"))),
            ["cache", "clean", "--force"] => Ok(fake_run(program, args, timeout, "npm cache cleaned")),
            other => panic!("unexpected npm args: {other:?}"),
        }
    }
}

#[test]
fn cleanup_plans_use_the_expected_structured_commands() {
    assert_eq!(plan_commands(ManagerId::Pnpm), expected(&[("pnpm", &["store", "prune"])]));
    assert_eq!(plan_commands(ManagerId::Yarn), expected(&[("yarn", &["cache", "clean"])]));
    assert_eq!(plan_commands(ManagerId::Bun), expected(&[("bun", &["pm", "cache", "rm"])]));
    assert_eq!(plan_commands(ManagerId::Uv), expected(&[("uv", &["cache", "prune"])]));
    assert_eq!(plan_commands(ManagerId::Homebrew), expected(&[("brew", &["cleanup"])]));
    assert_eq!(
        plan_commands(ManagerId::Docker),
        expected(&[("docker", &["builder", "prune", "-f"]), ("docker", &["image", "prune", "-f"])])
    );
}

#[test]
fn nvm_maven_and_cargo_have_no_cleanup_plan() {
    for manager in [ManagerId::Nvm, ManagerId::Maven, ManagerId::Cargo] {
        assert!(cleanup_plan(manager).is_empty(), "{manager:?} must have no cleanup plan");
    }
}

#[test]
fn uv_cleanup_never_bypasses_the_in_use_check() {
    let args = flat_args(ManagerId::Uv);
    assert!(!args.contains(&"--force".to_string()));
    assert!(!args.contains(&"clean".to_string()));
    assert!(!args.contains(&"--ci".to_string()));
}

#[test]
fn docker_cleanup_never_prunes_all_images_containers_or_volumes() {
    let args = flat_args(ManagerId::Docker);
    for forbidden in ["-a", "--all", "system", "--volumes", "container", "volume"] {
        assert!(!args.contains(&forbidden.to_string()));
    }
}

#[test]
fn homebrew_cleanup_uses_no_extra_prune_flags() {
    assert_eq!(flat_args(ManagerId::Homebrew), vec!["cleanup".to_string()]);
}

#[test]
fn managers_without_a_plan_report_no_plan_without_running_commands() {
    let result = run_cache_cleanup_with_runner(
        ManagerId::Cargo,
        &|program: &str, args: &[String], _: u64| -> Result<CommandRun, CommandFailure> {
            panic!("no command may run: {program} {args:?}")
        },
        &no_deletion,
    );
    assert_eq!(result.outcome, CleanupOutcome::NoPlan);
    assert!(result.steps.is_empty());
}

#[test]
fn multi_step_plan_succeeds_when_every_step_succeeds() {
    let result = run_cache_cleanup_with_runner(
        ManagerId::Docker,
        &|program: &str, args: &[String], timeout: u64| Ok(fake_run(program, args, timeout, "reclaimed 1GB")),
        &no_deletion,
    );
    assert_eq!(result.outcome, CleanupOutcome::Succeeded);
    assert_eq!(result.steps.len(), 2);
    assert!(result.steps.iter().all(|step| step.state == CleanupStepState::Succeeded));
    assert!(result.message.is_none());
}

#[test]
fn first_step_failing_stops_the_plan_and_reports_outright_failure() {
    let result = run_cache_cleanup_with_runner(
        ManagerId::Docker,
        &|program: &str, args: &[String], timeout: u64| match args.first().map(String::as_str) {
            Some("builder") => Ok(fake_failed_run(program, args, timeout, "Cannot connect to the Docker daemon")),
            other => panic!("later steps must not run, got {other:?}"),
        },
        &no_deletion,
    );
    assert_eq!(result.outcome, CleanupOutcome::Failed);
    assert_eq!(result.steps[0].state, CleanupStepState::Failed);
    assert_eq!(result.steps[1].state, CleanupStepState::Skipped);
    assert!(result.message.expect("failure message").contains("docker builder prune -f"));
}

#[test]
fn later_step_failing_reports_partial_completion_not_failure() {
    let result = run_cache_cleanup_with_runner(
        ManagerId::Docker,
        &|program: &str, args: &[String], timeout: u64| match args.first().map(String::as_str) {
            Some("builder") => Ok(fake_run(program, args, timeout, "reclaimed 1GB")),
            Some("image") => Ok(fake_failed_run(program, args, timeout, "image is in use")),
            other => panic!("unexpected docker args: {other:?}"),
        },
        &no_deletion,
    );
    assert_eq!(result.outcome, CleanupOutcome::PartiallyCompleted);
    assert_eq!(result.steps[0].state, CleanupStepState::Succeeded);
    assert_eq!(result.steps[1].state, CleanupStepState::Failed);
    assert_eq!(result.steps[0].stdout, "reclaimed 1GB");
}

#[test]
fn missing_binary_failures_are_reported_not_swallowed() {
    let result = run_cache_cleanup_with_runner(
        ManagerId::Yarn,
        &|program: &str, args: &[String], timeout: u64| {
            Err(CommandFailure {
                kind: FailureKind::MissingBinary,
                message: format!("{program} is not installed or is not on PATH"),
                command: Some(envelope_owned(program, args.to_vec(), timeout * 1000)),
                stdout: String::new(),
                stderr: String::new(),
            })
        },
        &no_deletion,
    );
    assert_eq!(result.outcome, CleanupOutcome::Failed);
    assert_eq!(result.steps[0].failure.as_ref().expect("failure recorded").kind, FailureKind::MissingBinary);
}

#[test]
fn cleanup_steps_use_the_cleanup_timeout_not_the_scan_timeout() {
    let result = run_cache_cleanup_with_runner(
        ManagerId::Yarn,
        &|program: &str, args: &[String], timeout: u64| {
            assert_eq!(timeout, 300);
            Ok(fake_run(program, args, timeout, ""))
        },
        &no_deletion,
    );
    assert_eq!(result.steps[0].command.as_ref().expect("command envelope").timeout_ms, 300_000);
}

#[test]
fn npx_deletion_failing_after_the_cache_was_cleaned_reports_partial_completion() {
    let result = run_cache_cleanup_with_runner_and_deleter(
        ManagerId::Npm,
        &npm_runner("/tmp/pmcc-npm-cache".to_string()),
        &|path: &str| Err(format!("Could not remove {path}")),
    );
    assert_eq!(result.outcome, CleanupOutcome::PartiallyCompleted);
    assert_eq!(result.steps[0].state, CleanupStepState::Succeeded);
    assert_eq!(result.steps[1].state, CleanupStepState::Failed);
}

#[test]
fn npx_deletion_is_refused_when_npm_reports_an_empty_cache_directory() {
    let result = run_cache_cleanup_with_runner_and_deleter(
        ManagerId::Npm,
        &|program: &str, args: &[String], timeout: u64| {
            let a: Vec<&str> = args.iter().map(String::as_str).collect();
            match a.as_slice() {
                ["config", "get", "cache"] => Ok(fake_run(program, args, timeout, "\n")),
                ["cache", "clean", "--force"] => Ok(fake_run(program, args, timeout, "npm cache cleaned")),
                other => panic!("unexpected npm args: {other:?}"),
            }
        },
        &no_deletion,
    );
    assert_eq!(result.outcome, CleanupOutcome::PartiallyCompleted);
    assert_eq!(result.steps[1].state, CleanupStepState::Failed);
    assert!(result.message.expect("failure message").contains("empty cache directory"));
}

#[test]
fn an_empty_npm_cache_value_never_reaches_the_deleter() {
    let result = run_cache_cleanup_with_runner_and_deleter(
        ManagerId::Npm,
        &|program: &str, args: &[String], timeout: u64| {
            let a: Vec<&str> = args.iter().map(String::as_str).collect();
            match a.as_slice() {
                ["config", "get", "cache"] => Ok(fake_run(program, args, timeout, "")),
                _ => Ok(fake_run(program, args, timeout, "npm cache cleaned")),
            }
        },
        &no_deletion,
    );
    assert_eq!(result.steps[1].state, CleanupStepState::Failed);
}

#[test]
fn npx_deletion_is_refused_for_a_relative_cache_directory() {
    let result = run_cache_cleanup_with_runner_and_deleter(
        ManagerId::Npm,
        &npm_runner("relative/npm-cache".to_string()),
        &no_deletion,
    );
    assert_eq!(result.steps[1].state, CleanupStepState::Failed);
    assert!(result.message.expect("failure message").contains("not an absolute path"));
}

#[test]
fn npx_deletion_is_refused_when_npm_cannot_report_its_cache_directory() {
    let result = run_cache_cleanup_with_runner_and_deleter(
        ManagerId::Npm,
        &|program: &str, args: &[String], timeout: u64| {
            let a: Vec<&str> = args.iter().map(String::as_str).collect();
            match a.as_slice() {
                ["config", "get", "cache"] => Ok(fake_failed_run(program, args, timeout, "ENOENT")),
                _ => Ok(fake_run(program, args, timeout, "npm cache cleaned")),
            }
        },
        &no_deletion,
    );
    assert_eq!(result.steps[1].state, CleanupStepState::Failed);
}

#[test]
fn guarded_path_assertions_accept_only_the_intended_directory() {
    let root = "/tmp/npm-cache";
    assert!(assert_guarded_path("/tmp/npm-cache/_npx", root, "_npx").is_ok());
    assert!(assert_guarded_path("_npx", "", "_npx").is_err());
    assert!(assert_guarded_path("/tmp/npm-cache/_cacache", root, "_npx").is_err());
    assert!(assert_guarded_path("/etc/_npx", root, "_npx").is_err());
    assert!(assert_guarded_path(root, root, "_npx").is_err());
}

#[test]
fn a_failed_npm_cache_clean_skips_the_npx_deletion_entirely() {
    let result = run_cache_cleanup_with_runner_and_deleter(
        ManagerId::Npm,
        &|program: &str, args: &[String], timeout: u64| {
            let a: Vec<&str> = args.iter().map(String::as_str).collect();
            match a.as_slice() {
                ["cache", "clean", "--force"] => Ok(fake_failed_run(program, args, timeout, "EACCES")),
                other => panic!("unexpected npm args: {other:?}"),
            }
        },
        &no_deletion,
    );
    assert_eq!(result.outcome, CleanupOutcome::Failed);
    assert_eq!(result.steps[0].state, CleanupStepState::Failed);
    assert_eq!(result.steps[1].state, CleanupStepState::Skipped);
}

#[test]
fn pip_cleanup_resolves_its_own_interpreter_and_purges_the_cache() {
    let result = run_cache_cleanup_with_runner(
        ManagerId::Pip,
        &|program: &str, args: &[String], timeout: u64| {
            let a: Vec<&str> = args.iter().map(String::as_str).collect();
            match (program, a.as_slice()) {
                ("python3", ["--version"]) => Ok(fake_run(program, args, timeout, "Python 3.13.0")),
                ("python3", ["-m", "pip", "cache", "purge"]) => Ok(fake_run(program, args, timeout, "Files removed: 120")),
                other => panic!("unexpected pip cleanup call: {other:?}"),
            }
        },
        &no_deletion,
    );
    assert_eq!(result.outcome, CleanupOutcome::Succeeded);
    assert_eq!(result.steps[0].command.as_ref().expect("command envelope").preview, "python3 -m pip cache purge");
}

#[test]
fn pip_cleanup_falls_back_to_python_when_python3_is_absent() {
    let result = run_cache_cleanup_with_runner(
        ManagerId::Pip,
        &|program: &str, args: &[String], timeout: u64| {
            if program == "python3" {
                return Err(CommandFailure {
                    kind: FailureKind::MissingBinary,
                    message: "python3 is not installed or is not on PATH".to_string(),
                    command: None,
                    stdout: String::new(),
                    stderr: String::new(),
                });
            }
            Ok(fake_run(program, args, timeout, "ok"))
        },
        &no_deletion,
    );
    assert_eq!(result.outcome, CleanupOutcome::Succeeded);
    assert_eq!(result.steps[0].command.as_ref().expect("command envelope").preview, "python -m pip cache purge");
}

#[test]
fn pip_cleanup_reports_a_failure_when_no_interpreter_can_be_resolved() {
    let result = run_cache_cleanup_with_runner(
        ManagerId::Pip,
        &|program: &str, args: &[String], timeout: u64| {
            if args.iter().any(|arg| arg == "purge") {
                panic!("pip must not run without a resolved interpreter");
            }
            Ok(fake_failed_run(program, args, timeout, "command not found"))
        },
        &no_deletion,
    );
    assert_eq!(result.outcome, CleanupOutcome::Failed);
    assert!(result.message.expect("failure message").contains("python3 and python are not installed"));
}

#[test]
fn pip_cleanup_never_takes_an_interpreter_from_the_caller() {
    let plan = cleanup_plan(ManagerId::Pip);
    assert!(matches!(&plan[0], CleanupStep::PipCommand { args } if args == &["cache".to_string(), "purge".to_string()]));
}

#[test]
fn the_runner_receives_structured_args_never_a_shell_string() {
    run_cache_cleanup_with_runner(
        ManagerId::Bun,
        &|program: &str, args: &[String], timeout: u64| {
            assert_eq!(program, "bun");
            assert_eq!(args, &["pm".to_string(), "cache".to_string(), "rm".to_string()]);
            assert!(args.iter().all(|arg| !arg.contains(' ')));
            Ok(fake_run(program, args, timeout, ""))
        },
        &no_deletion,
    );
}

#[test]
fn npm_plan_cleans_the_cache_then_removes_the_npx_directory() {
    let deleted = std::cell::RefCell::new(Vec::new());
    let result = run_cache_cleanup_with_runner_and_deleter(
        ManagerId::Npm,
        &npm_runner("/tmp/pmcc-npm-happy".to_string()),
        &|path: &str| {
            deleted.borrow_mut().push(path.to_string());
            Ok(())
        },
    );

    assert_eq!(result.outcome, CleanupOutcome::Succeeded);
    assert_eq!(result.steps.len(), 2);
    assert_eq!(
        result.steps[0].command.as_ref().expect("command envelope").preview,
        "npm cache clean --force"
    );
    assert!(result.steps[1].command.is_none());
    assert_eq!(deleted.borrow().as_slice(), ["/tmp/pmcc-npm-happy/_npx".to_string()]);
}
