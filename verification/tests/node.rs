use pmcc::command::envelope_owned;
use pmcc::node::{
    compare_semver_desc, npx_cache_path, parse_npm_packages, parse_pnpm_packages,
    parse_yarn_classic_packages, resolve_nvm_dir, run_npm_maintenance_with_runner,
    run_pnpm_maintenance_with_runner, scan_npm_with_runner, scan_nvm_with_context,
};
use pmcc::types::{
    AsyncStatus, CommandFailure, CommandRun, FailureKind, ManagerId, ManagerStatus,
    NpmMaintenanceOperation, PackageSignal, PathKind, PnpmMaintenanceOperation,
};

fn fake_run(program: &str, args: &[String], timeout: u64, stdout: &str) -> CommandRun {
    CommandRun {
        envelope: envelope_owned(program, args.to_vec(), timeout * 1000),
        stdout: stdout.to_string(),
        stderr: String::new(),
        exit_code: Some(0),
        duration_ms: 1,
    }
}

fn fake_failed_run(program: &str, args: &[String], timeout: u64, stderr: &str) -> CommandRun {
    CommandRun {
        envelope: envelope_owned(program, args.to_vec(), timeout * 1000),
        stdout: String::new(),
        stderr: stderr.to_string(),
        exit_code: Some(1),
        duration_ms: 1,
    }
}

fn strs(args: &[String]) -> Vec<&str> {
    args.iter().map(String::as_str).collect()
}

fn version_dir(root: &str, name: &str) -> (String, String) {
    (name.to_string(), format!("{root}/versions/node/{name}"))
}

#[test]
fn parse_npm_packages_returns_empty_vec_when_dependencies_missing() {
    let packages =
        parse_npm_packages(r#"{"name":"npm","version":"10.0.0"}"#).expect("parse npm output");

    assert!(packages.is_empty());
}

#[test]
fn parse_npm_packages_sorts_and_keeps_paths() {
    let packages = parse_npm_packages(
        r#"{
            "dependencies": {
                "zeta": {"version": "2.0.0", "path": "/tmp/zeta"},
                "alpha": {"version": "1.0.0", "path": "/tmp/alpha"}
            }
        }"#,
    )
    .expect("parse npm output");

    assert_eq!(packages.len(), 2);
    assert_eq!(packages[0].name, "alpha");
    assert_eq!(packages[0].version, "1.0.0");
    assert_eq!(packages[0].path.as_deref(), Some("/tmp/alpha"));
    assert_eq!(packages[1].name, "zeta");
    assert_eq!(packages[1].version, "2.0.0");
    assert_eq!(packages[1].path.as_deref(), Some("/tmp/zeta"));
}

#[test]
fn npm_output_that_is_not_json_is_refused() {
    assert!(parse_npm_packages("not json").is_err());
}

#[test]
fn npx_cache_path_uses_npm_cache_subdirectory() {
    assert_eq!(npx_cache_path("/tmp/npm-cache"), "/tmp/npm-cache/_npx");
}

#[test]
fn scan_npm_collects_packages_paths_and_commands() {
    let runner = |program: &str, args: &[String], timeout: u64| -> Result<CommandRun, CommandFailure> {
        assert_eq!(program, "npm");
        match strs(args).as_slice() {
            ["--version"] => Ok(fake_run(program, args, timeout, "10.8.2\n")),
            ["ls", "-g", "--depth=0", "--json"] => Ok(fake_run(
                program,
                args,
                timeout,
                r#"{"dependencies":{"prettier":{"version":"3.5.3"}}}"#,
            )),
            ["config", "get", "cache"] => Ok(fake_run(program, args, timeout, "/Users/sunven/.npm\n")),
            ["root", "-g"] => Ok(fake_run(program, args, timeout, "/opt/homebrew/lib/node_modules\n")),
            _ => panic!("unexpected command: {program} {args:?}"),
        }
    };

    let snapshot = scan_npm_with_runner(&runner);

    assert_eq!(snapshot.status, ManagerStatus::Ready);
    assert_eq!(snapshot.version.as_deref(), Some("10.8.2"));
    assert_eq!(snapshot.packages.len(), 1);
    assert_eq!(snapshot.packages[0].name, "prettier");
    assert_eq!(
        snapshot.packages[0].path.as_deref(),
        Some("/opt/homebrew/lib/node_modules/prettier")
    );
    assert!(snapshot.paths.iter().any(|path| path.kind == PathKind::NpxCache));
    assert!(snapshot
        .commands
        .iter()
        .any(|command| command.preview == "npm ls -g --depth=0 --json"));
}

#[test]
fn resolve_nvm_dir_uses_env_or_home_fallback() {
    assert_eq!(
        resolve_nvm_dir(Some("~/node/nvm"), Some("/Users/sunven")),
        "/Users/sunven/node/nvm"
    );
    assert_eq!(resolve_nvm_dir(None, Some("/Users/sunven")), "/Users/sunven/.nvm");
    assert_eq!(resolve_nvm_dir(None, None), ".nvm");
}

#[test]
fn scan_nvm_reads_installed_node_versions_from_nvm_dir() {
    let root = "/tmp/nvm";
    let dirs = vec![
        version_dir(root, "v20.11.1"),
        version_dir(root, "v18.19.0"),
        version_dir(root, "not-a-version"),
    ];

    let snapshot = scan_nvm_with_context(root, None, true, None, &dirs);

    assert_eq!(snapshot.status, ManagerStatus::Ready);
    assert_eq!(snapshot.id, ManagerId::Nvm);
    assert!(snapshot
        .paths
        .iter()
        .any(|path| path.kind == PathKind::NvmDir && path.path == root));
    assert!(snapshot.paths.iter().any(|path| path.kind == PathKind::NvmNodeVersions));
    assert_eq!(snapshot.packages.len(), 2);
    assert_eq!(snapshot.packages[0].name, "node");
    assert_eq!(snapshot.packages[0].version, "20.11.1");
    assert_eq!(snapshot.packages[1].version, "18.19.0");
    assert!(snapshot.packages[0]
        .actions
        .iter()
        .any(|action| action.preview == "nvm use 20.11.1"));
}

#[test]
fn scan_nvm_marks_current_node_version() {
    let root = "/tmp/nvm-current";
    let dirs = vec![version_dir(root, "v20.11.1"), version_dir(root, "v18.19.0")];

    let snapshot = scan_nvm_with_context(
        root,
        None,
        true,
        Some("/tmp/nvm-current/versions/node/v18.19.0"),
        &dirs,
    );
    let current = snapshot
        .packages
        .iter()
        .find(|package| package.version == "18.19.0")
        .expect("current package");

    assert!(current.signals.contains(&PackageSignal::Current));
}

#[test]
fn scan_nvm_marks_current_node_version_from_nvm_bin() {
    let root = "/tmp/nvm-current-bin";
    let dirs = vec![version_dir(root, "v20.11.1"), version_dir(root, "v18.19.0")];
    let nvm_bin = "/tmp/nvm-current-bin/versions/node/v20.11.1/bin";

    let snapshot = scan_nvm_with_context(root, Some(nvm_bin), true, None, &dirs);

    assert!(snapshot
        .packages
        .iter()
        .find(|package| package.version == "20.11.1")
        .expect("current package")
        .signals
        .contains(&PackageSignal::Current));
}

#[test]
fn scan_nvm_reports_missing_when_nvm_dir_does_not_exist() {
    let missing = "/tmp/missing-nvm/absent";

    let snapshot = scan_nvm_with_context(missing, None, false, None, &Vec::new());

    assert_eq!(snapshot.status, ManagerStatus::Missing);
    assert!(snapshot.packages.is_empty());
    assert!(matches!(snapshot.failures[0].kind, FailureKind::MissingPath));
    assert_eq!(
        snapshot.failures[0].message,
        "nvm directory was not found at /tmp/missing-nvm/absent"
    );
}

#[test]
fn semver_order_puts_newer_versions_first() {
    assert_eq!(compare_semver_desc("20.11.1", "18.19.0"), std::cmp::Ordering::Less);
    assert_eq!(compare_semver_desc("18.19.0", "20.11.1"), std::cmp::Ordering::Greater);
    assert_eq!(compare_semver_desc("1.2.3", "1.2.3"), std::cmp::Ordering::Equal);
}

#[test]
fn parse_pnpm_packages_reads_array_entries() {
    let packages = parse_pnpm_packages(
        r#"[
            {
                "dependencies": {
                    "beta": {"version": "2.1.0", "path": "/tmp/beta"}
                }
            },
            {
                "dependencies": {
                    "alpha": {"version": "1.3.0", "path": "/tmp/alpha"}
                }
            }
        ]"#,
    )
    .expect("parse pnpm output");

    assert_eq!(packages.len(), 2);
    assert_eq!(packages[0].name, "alpha");
    assert_eq!(packages[0].version, "1.3.0");
    assert_eq!(packages[0].path.as_deref(), Some("/tmp/alpha"));
    assert_eq!(packages[1].name, "beta");
    assert_eq!(packages[1].version, "2.1.0");
    assert_eq!(packages[1].path.as_deref(), Some("/tmp/beta"));
}

#[test]
fn parse_yarn_classic_packages_reads_tree_lines() {
    let packages = parse_yarn_classic_packages(
        r#"{"type":"tree","data":{"trees":[{"name":"@scope/tool@2.0.0"},{"name":"alpha@1.0.0"}]}}
{"type":"success","data":"Done"}"#,
    )
    .expect("parse yarn output");

    assert_eq!(packages.len(), 2);
    assert_eq!(packages[0].name, "@scope/tool");
    assert_eq!(packages[0].version, "2.0.0");
    assert_eq!(packages[1].name, "alpha");
    assert_eq!(packages[1].version, "1.0.0");
}

#[test]
fn parse_yarn_classic_packages_falls_back_to_human_list() {
    let packages = parse_yarn_classic_packages(
        r#"info "@scope/tool@2.0.0" has binaries:
  - tool
info "alpha@1.0.0" has binaries:
  - alpha
"#,
    )
    .expect("parse yarn fallback");

    assert_eq!(packages.len(), 2);
    assert_eq!(packages[0].name, "@scope/tool");
    assert_eq!(packages[0].version, "2.0.0");
    assert_eq!(packages[1].name, "alpha");
    assert_eq!(packages[1].version, "1.0.0");
}

#[test]
fn run_npm_maintenance_uninstalls_scoped_package_with_structured_args() {
    let result = run_npm_maintenance_with_runner(
        NpmMaintenanceOperation::UninstallGlobalPackage { package_name: "@scope/tool".to_string() },
        &|program: &str, args: &[String], timeout: u64| {
            assert_eq!(program, "npm");
            assert_eq!(
                args,
                &["uninstall".to_string(), "-g".to_string(), "@scope/tool".to_string()]
            );
            Ok(fake_run(program, args, timeout, "removed 1 package"))
        },
    );

    assert_eq!(result.status, AsyncStatus::Ready);
    assert_eq!(result.command.preview, "npm uninstall -g @scope/tool");
}

#[test]
fn run_npm_maintenance_reports_failed_uninstall() {
    let result = run_npm_maintenance_with_runner(
        NpmMaintenanceOperation::UninstallGlobalPackage { package_name: "missing-tool".to_string() },
        &|program: &str, args: &[String], timeout: u64| {
            assert_eq!(program, "npm");
            assert_eq!(
                args,
                &["uninstall".to_string(), "-g".to_string(), "missing-tool".to_string()]
            );
            Ok(fake_failed_run("npm", args, timeout, "not installed"))
        },
    );

    assert_eq!(result.status, AsyncStatus::Failed);
    assert_eq!(result.stderr, "not installed");
    assert!(result.failure.is_some());
}

#[test]
fn run_pnpm_maintenance_uninstalls_scoped_package_with_structured_args() {
    let result = run_pnpm_maintenance_with_runner(
        PnpmMaintenanceOperation::UninstallGlobalPackage { package_name: "@scope/tool".to_string() },
        &|program: &str, args: &[String], timeout: u64| {
            assert_eq!(program, "pnpm");
            assert_eq!(
                args,
                &["remove".to_string(), "--global".to_string(), "@scope/tool".to_string()]
            );
            Ok(fake_run(program, args, timeout, "removed 1 package"))
        },
    );

    assert_eq!(result.status, AsyncStatus::Ready);
    assert_eq!(result.command.preview, "pnpm remove --global @scope/tool");
}

#[test]
fn run_pnpm_maintenance_reports_failed_uninstall() {
    let result = run_pnpm_maintenance_with_runner(
        PnpmMaintenanceOperation::UninstallGlobalPackage { package_name: "missing-tool".to_string() },
        &|program: &str, args: &[String], timeout: u64| {
            assert_eq!(program, "pnpm");
            assert_eq!(
                args,
                &["remove".to_string(), "--global".to_string(), "missing-tool".to_string()]
            );
            Ok(fake_failed_run("pnpm", args, timeout, "not installed"))
        },
    );

    assert_eq!(result.status, AsyncStatus::Failed);
    assert_eq!(result.stderr, "not installed");
    assert!(result.failure.is_some());
}
