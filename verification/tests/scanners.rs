use pmcc::bun::{parse_bun_global_packages, scan_bun_with_runner_and_home};
use pmcc::cargo::{parse_cargo_install_list, resolve_cargo_home, scan_cargo_with_runner_and_home};
use pmcc::command::{envelope, envelope_owned};
use pmcc::scan_support::split_package_version;
use pmcc::types::{CommandFailure, CommandRun, FailureKind, ManagerStatus, PackageKind, PathKind};
use pmcc::uv::{parse_uv_python_list, parse_uv_tool_list, scan_uv_with_runner};

fn fake_run(program: &str, args: &[String], timeout: u64, stdout: &str) -> CommandRun {
    CommandRun {
        envelope: envelope_owned(program, args.to_vec(), timeout * 1000),
        stdout: stdout.to_string(),
        stderr: String::new(),
        exit_code: Some(0),
        duration_ms: 1,
    }
}

fn strs(args: &[String]) -> Vec<&str> {
    args.iter().map(String::as_str).collect()
}

#[test]
fn parse_uv_tool_list_reads_tools_and_executables() {
    let packages = parse_uv_tool_list("ruff v0.11.13\n- ruff\nhttpie v3.2.4\n- http\n- https\n");

    assert_eq!(packages.len(), 2);
    assert_eq!(packages[0].name, "httpie");
    assert_eq!(packages[0].version, "3.2.4");
    assert_eq!(packages[0].path.as_deref(), Some("http"));
    assert_eq!(packages[0].kind, PackageKind::UvTool);
    assert_eq!(packages[1].name, "ruff");
    assert_eq!(packages[1].version, "0.11.13");
}

#[test]
fn parse_uv_python_list_reads_installed_versions() {
    let packages = parse_uv_python_list(
        "cpython-3.12.7-macos-aarch64-none /Users/sunven/.local/share/uv/python/cpython-3.12.7\npypy-3.10.14-macos-aarch64-none /Users/sunven/.local/share/uv/python/pypy-3.10.14\n",
    )
    .expect("parse uv python list");

    assert_eq!(packages.len(), 2);
    assert_eq!(packages[0].name, "cpython-3.12.7-macos-aarch64-none");
    assert_eq!(packages[0].version, "3.12.7");
    assert_eq!(packages[0].kind, PackageKind::UvPython);
    assert_eq!(packages[1].version, "3.10.14");
}

#[test]
fn uv_python_rows_without_a_version_are_refused() {
    let error = parse_uv_python_list("cpython-latest /tmp/x\n").expect_err("refused");
    assert_eq!(error, "Could not parse uv Python row: cpython-latest /tmp/x");
}

#[test]
fn scan_uv_collects_tools_pythons_paths_and_commands() {
    let runner = |program: &str, args: &[String], timeout: u64| -> Result<CommandRun, CommandFailure> {
        assert_eq!(program, "uv");
        match strs(args).as_slice() {
            ["--version"] => Ok(fake_run(program, args, timeout, "uv 0.7.13\n")),
            ["tool", "dir"] => Ok(fake_run(program, args, timeout, "/Users/sunven/.local/share/uv/tools\n")),
            ["python", "dir"] => Ok(fake_run(program, args, timeout, "/Users/sunven/.local/share/uv/python\n")),
            ["cache", "dir"] => Ok(fake_run(program, args, timeout, "/Users/sunven/Library/Caches/uv\n")),
            ["tool", "list"] => Ok(fake_run(program, args, timeout, "ruff v0.11.13\n- ruff\n")),
            ["python", "list", "--only-installed"] => Ok(fake_run(
                program,
                args,
                timeout,
                "cpython-3.12.7-macos-aarch64-none /Users/sunven/.local/share/uv/python/cpython-3.12.7\n",
            )),
            _ => panic!("unexpected command: {program} {args:?}"),
        }
    };

    let snapshot = scan_uv_with_runner(&runner);

    assert_eq!(snapshot.status, ManagerStatus::Ready);
    assert_eq!(snapshot.version.as_deref(), Some("0.7.13"));
    assert!(snapshot.paths.iter().any(|path| path.kind == PathKind::UvTools));
    assert!(snapshot.paths.iter().any(|path| path.kind == PathKind::UvPythonInstallations));
    assert!(snapshot.paths.iter().any(|path| path.kind == PathKind::UvCache));
    assert_eq!(snapshot.packages.len(), 2);
    assert!(snapshot.packages.iter().any(|package| package.kind == PackageKind::UvTool));
    assert!(snapshot.packages.iter().any(|package| package.kind == PackageKind::UvPython));
    assert!(snapshot.commands.iter().any(|command| command.preview == "uv cache prune"));
    let ruff = snapshot.packages.iter().find(|p| p.name == "ruff").expect("ruff row");
    assert_eq!(ruff.actions[0].preview, "uv tool run ruff");
    assert_eq!(ruff.actions[1].preview, "uv tool uninstall ruff");
}

#[test]
fn parse_bun_global_packages_reads_package_rows() {
    let packages = parse_bun_global_packages(
        "/Users/sunven/.bun/install/global\n├── prettier@3.5.3\n└── @scope/tool@1.2.0\n",
        "/Users/sunven/.bun/bin",
    );

    assert_eq!(packages.len(), 2);
    assert_eq!(packages[0].name, "@scope/tool");
    assert_eq!(packages[0].version, "1.2.0");
    assert_eq!(packages[0].path.as_deref(), Some("/Users/sunven/.bun/bin/@scope/tool"));
    assert_eq!(packages[0].kind, PackageKind::BunPackage);
    assert_eq!(packages[1].name, "prettier");
    assert_eq!(packages[1].version, "3.5.3");
}

#[test]
fn scan_bun_collects_global_packages_paths_and_commands() {
    let runner = |program: &str, args: &[String], timeout: u64| -> Result<CommandRun, CommandFailure> {
        assert_eq!(program, "bun");
        match strs(args).as_slice() {
            ["--version"] => Ok(fake_run(program, args, timeout, "1.2.17\n")),
            ["pm", "cache"] => Ok(fake_run(program, args, timeout, "/Users/sunven/.bun/install/cache\n")),
            ["pm", "bin", "-g"] => Ok(fake_run(program, args, timeout, "/Users/sunven/.bun/bin\n")),
            ["pm", "ls", "-g"] => Ok(fake_run(
                program,
                args,
                timeout,
                "/Users/sunven/.bun/install/global\n└── prettier@3.5.3\n",
            )),
            _ => panic!("unexpected command: {program} {args:?}"),
        }
    };

    let snapshot = scan_bun_with_runner_and_home(&runner, Some("/Users/sunven"), None);

    assert_eq!(snapshot.status, ManagerStatus::Ready);
    assert_eq!(snapshot.version.as_deref(), Some("1.2.17"));
    assert!(snapshot.paths.iter().any(|path| path.kind == PathKind::BunInstall));
    assert!(snapshot.paths.iter().any(|path| path.kind == PathKind::BunCache));
    assert_eq!(snapshot.paths[0].path, "/Users/sunven/.bun");
    assert_eq!(snapshot.packages.len(), 1);
    assert_eq!(snapshot.packages[0].name, "prettier");
    assert!(snapshot.packages[0].actions.iter().any(|action| action.preview == "bun pm view prettier"));
    assert!(snapshot.commands.iter().any(|command| command.preview == "bun pm cache rm"));
}

#[test]
fn bun_install_root_prefers_the_environment_value() {
    assert_eq!(pmcc::bun::resolve_bun_install(Some(" ~/tools/bun "), Some("/home/a")), "/home/a/tools/bun");
    assert_eq!(pmcc::bun::resolve_bun_install(Some("  "), Some("/home/a")), "/home/a/.bun");
    assert_eq!(pmcc::bun::resolve_bun_install(None, None), ".bun");
}

#[test]
fn parse_cargo_install_list_reads_single_and_multi_binary_crates() {
    let packages = parse_cargo_install_list(
        "ripgrep v14.1.1:\n    rg\ncargo-edit v0.13.4:\n    cargo-add\n    cargo-rm\n",
        "/Users/sunven/.cargo/bin",
    )
    .expect("parse cargo install list");

    assert_eq!(packages.len(), 2);
    assert_eq!(packages[0].name, "cargo-edit");
    assert_eq!(packages[0].version, "0.13.4");
    assert_eq!(packages[0].path.as_deref(), Some("/Users/sunven/.cargo/bin/cargo-add"));
    assert!(packages[0].actions.iter().any(|action| action.preview == "cargo install cargo-edit"));
    assert!(packages[0].actions.iter().any(|action| action.preview == "cargo uninstall cargo-edit"));
    assert_eq!(packages[1].name, "ripgrep");
    assert_eq!(packages[1].version, "14.1.1");
    assert_eq!(packages[1].path.as_deref(), Some("/Users/sunven/.cargo/bin/rg"));
}

#[test]
fn parse_cargo_install_list_allows_empty_output() {
    let packages = parse_cargo_install_list("", "/Users/sunven/.cargo/bin").expect("parse empty cargo install list");

    assert!(packages.is_empty());
}

#[test]
fn parse_cargo_install_list_rejects_unknown_content() {
    let error = parse_cargo_install_list("installed crates:\n  ripgrep", "/Users/sunven/.cargo/bin")
        .expect_err("parse failure");

    assert!(error.contains("Could not parse cargo install list line"));
}

#[test]
fn resolve_cargo_home_uses_env_or_home_fallback() {
    assert_eq!(resolve_cargo_home(Some("~/rust/cargo"), Some("/Users/sunven")), "/Users/sunven/rust/cargo");
    assert_eq!(resolve_cargo_home(None, Some("/Users/sunven")), "/Users/sunven/.cargo");
    assert_eq!(resolve_cargo_home(None, None), ".cargo");
}

#[test]
fn scan_cargo_collects_safe_commands_paths_packages_and_actions() {
    let runner = |program: &str, args: &[String], timeout: u64| -> Result<CommandRun, CommandFailure> {
        assert_eq!(program, "cargo");
        match strs(args).as_slice() {
            ["--version"] => Ok(fake_run(program, args, timeout, "cargo 1.88.0 (873a06493 2025-05-10)\n")),
            ["install", "--list"] => Ok(fake_run(program, args, timeout, "ripgrep v14.1.1:\n    rg\n")),
            _ => panic!("unexpected command: {program} {args:?}"),
        }
    };

    let snapshot = scan_cargo_with_runner_and_home(&runner, "/Users/sunven/.cargo");

    assert_eq!(snapshot.status, ManagerStatus::Ready);
    assert_eq!(snapshot.version.as_deref(), Some("1.88.0"));
    assert_eq!(snapshot.commands.len(), 2);
    assert!(snapshot.paths.iter().any(|path| path.kind == PathKind::CargoBin));
    assert!(snapshot.paths.iter().any(|path| path.kind == PathKind::CargoRegistryCache));
    assert_eq!(snapshot.packages.len(), 1);
    assert_eq!(snapshot.packages[0].name, "ripgrep");
    assert_eq!(snapshot.packages[0].path.as_deref(), Some("/Users/sunven/.cargo/bin/rg"));
}

#[test]
fn scan_cargo_reports_missing_without_running_install_list() {
    let runner = |program: &str, args: &[String], _timeout: u64| -> Result<CommandRun, CommandFailure> {
        assert_eq!(program, "cargo");
        assert_eq!(strs(args), ["--version"]);
        Err(CommandFailure {
            kind: FailureKind::MissingBinary,
            message: "cargo is not installed or is not on PATH".to_string(),
            command: Some(envelope("cargo", &["--version"], 5_000)),
            stdout: String::new(),
            stderr: "not found".to_string(),
        })
    };

    let snapshot = scan_cargo_with_runner_and_home(&runner, "/Users/sunven/.cargo");

    assert_eq!(snapshot.status, ManagerStatus::Missing);
    assert!(snapshot.packages.is_empty());
    assert!(snapshot.paths.iter().any(|path| path.label == "Cargo bin"));
}

#[test]
fn split_package_version_handles_scoped_packages() {
    let (name, version) = split_package_version("@scope/tool@2.0.0");

    assert_eq!(name, "@scope/tool");
    assert_eq!(version, "2.0.0");
}

#[test]
fn split_package_version_without_a_version_is_unknown() {
    assert_eq!(split_package_version("@scope/tool"), ("@scope/tool".to_string(), "unknown".to_string()));
    assert_eq!(split_package_version("tool@"), ("tool@".to_string(), "unknown".to_string()));
}
