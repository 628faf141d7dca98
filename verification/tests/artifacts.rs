use pmcc::build_artifacts::{
    cargo_probe_outcome, clean_build_artifact_candidate_with, discover_build_artifacts_with,
    failed_measurement, inspect_candidate, measure_build_artifact_candidate_with, measurement_of,
    missing_measurement, run_build_artifact_cleanup_with_runner, scan_build_artifacts_with,
    should_prune, validate_for_cleanup_with, BuildArtifactCandidateStatus,
    BuildArtifactCleanupStatus, BuildArtifactMeasurement, BuildArtifactMeasurementStatus,
    BuildArtifactScanStatus, BuildArtifactState, CandidateRecord, DiscoveredCandidate, Discovery,
    ListedEntry, MeasurementStats, TargetProbe, Validation,
};
use pmcc::command::envelope;
use pmcc::path::{has_parent, join};
use pmcc::types::{CommandFailure, CommandRun, FailureKind};
use std::collections::{HashMap, HashSet};

/// A small file system: directories with their entries, regular files, and
/// what lies at each `target`.
struct Tree {
    dirs: HashMap<String, Vec<ListedEntry>>,
    files: HashSet<String>,
    targets: HashMap<String, TargetProbe>,
}

impl Tree {
    fn new() -> Self {
        Tree { dirs: HashMap::new(), files: HashSet::new(), targets: HashMap::new() }
    }

    fn dir(&mut self, path: &str, children: &[&str]) {
        let entries = children
            .iter()
            .map(|name| ListedEntry::Directory(join(path, name), name.to_string()))
            .collect();
        self.dirs.insert(path.to_string(), entries);
    }

    fn project(&mut self, path: &str, target: TargetProbe, marker: Option<&str>) {
        self.files.insert(join(path, "Cargo.toml"));
        let target_path = join(path, "target");
        if let Some(marker) = marker {
            self.files.insert(join(&target_path, marker));
        }
        self.targets.insert(target_path, target);
    }

    fn discover(&self, root: &str, depth: u8) -> Discovery {
        let is_file = |p: &str| self.files.contains(p);
        let probe = |p: &str| self.targets.get(p).cloned().unwrap_or(TargetProbe::NotFound);
        let list = |p: &str| match self.dirs.get(p) {
            Some(entries) => Ok(entries.clone()),
            None => Ok(Vec::new()),
        };
        discover_build_artifacts_with(root, depth, &is_file, &probe, &list)
    }
}

fn ready_measurement(bytes: u64) -> BuildArtifactMeasurement {
    BuildArtifactMeasurement {
        status: BuildArtifactMeasurementStatus::Ready,
        bytes: Some(bytes),
        human: Some("4.0 KB".to_string()),
        files: 1,
        directories: 1,
        skipped: 0,
        latest_modified_ms: Some(1),
        message: None,
    }
}

fn candidate(project: &str, measurement: BuildArtifactMeasurement) -> CandidateRecord {
    CandidateRecord {
        id: "candidate-1".to_string(),
        project_path: project.to_string(),
        target_path: join(project, "target"),
        status: BuildArtifactCandidateStatus::Ready,
        message: None,
        measurement,
    }
}

fn cleaned_run(program: &str, timeout: u64) -> Result<CommandRun, CommandFailure> {
    Ok(CommandRun {
        envelope: envelope(program, &[], timeout * 1000),
        stdout: "cleaned".to_string(),
        stderr: String::new(),
        exit_code: Some(0),
        duration_ms: 1,
    })
}

fn resolve_same(path: &str) -> Result<String, String> {
    Ok(path.to_string())
}

fn persist_ok(_: &str, _: &str, _: u8) -> Result<(), String> {
    Ok(())
}

fn one_project_discovery(root: &str) -> Discovery {
    Discovery {
        candidates: vec![DiscoveredCandidate {
            project_path: join(root, "project"),
            target_path: join(root, "project/target"),
            status: BuildArtifactCandidateStatus::Ready,
            message: None,
        }],
        skipped: 0,
        errors: Vec::new(),
    }
}

#[test]
fn discovers_only_direct_target_candidates_and_prunes_hidden_directories() {
    let mut tree = Tree::new();
    tree.dir("/r", &["valid", "unknown", ".hidden", "bare"]);
    tree.dir("/r/valid", &["target"]);
    tree.dir("/r/unknown", &["target"]);
    tree.dir("/r/.hidden", &["project"]);
    tree.dir("/r/.hidden/project", &["target"]);
    tree.dir("/r/bare", &["target"]);
    tree.project("/r/valid", TargetProbe::Directory, Some("CACHEDIR.TAG"));
    tree.project("/r/unknown", TargetProbe::Directory, None);
    tree.project("/r/.hidden/project", TargetProbe::Directory, Some("CACHEDIR.TAG"));
    tree.targets.insert("/r/bare/target".to_string(), TargetProbe::Directory);

    let discovery = tree.discover("/r", 8);

    assert_eq!(discovery.candidates.len(), 2);
    assert_eq!(discovery.candidates[0].status, BuildArtifactCandidateStatus::Unrecognized);
    assert_eq!(discovery.candidates[1].status, BuildArtifactCandidateStatus::Ready);
    assert!(discovery.candidates.iter().all(|candidate| !candidate.target_path.contains(".hidden")));
    assert_eq!(discovery.candidates[0].target_path, "/r/unknown/target");
    assert_eq!(
        discovery.candidates[0].message.as_deref(),
        Some("No root-level CACHEDIR.TAG or .rustc_info.json was found")
    );
}

#[test]
fn scan_depth_zero_checks_only_the_root_project() {
    let mut tree = Tree::new();
    tree.dir("/r", &["nested", "target"]);
    tree.dir("/r/nested", &["target"]);
    tree.project("/r", TargetProbe::Directory, Some("CACHEDIR.TAG"));
    tree.project("/r/nested", TargetProbe::Directory, Some("CACHEDIR.TAG"));

    let discovery = tree.discover("/r", 0);

    assert_eq!(discovery.candidates.len(), 1);
    assert_eq!(discovery.candidates[0].project_path, "/r");
    assert_eq!(tree.discover("/r", 1).candidates.len(), 2);
}

#[test]
fn symbolic_link_target_is_never_ready() {
    let mut tree = Tree::new();
    tree.dir("/r", &["project", "shared"]);
    tree.dir("/r/project", &[]);
    tree.dir("/r/shared", &[]);
    tree.project("/r/project", TargetProbe::Symlink, Some("CACHEDIR.TAG"));

    let discovery = tree.discover("/r", 8);

    assert_eq!(discovery.candidates.len(), 1);
    assert_eq!(discovery.candidates[0].status, BuildArtifactCandidateStatus::Symlink);
    assert_eq!(discovery.candidates[0].message.as_deref(), Some("The target path is a symbolic link"));
}

#[test]
fn listing_errors_are_counted_and_the_first_twenty_kept() {
    let mut entries = vec![ListedEntry::Other];
    for i in 0..25 {
        entries.push(ListedEntry::Unreadable(format!("/r/e{i}"), "denied".to_string()));
    }
    entries.push(ListedEntry::Failed("gone".to_string()));
    let mut tree = Tree::new();
    tree.dirs.insert("/r".to_string(), entries);

    let discovery = tree.discover("/r", 3);

    assert_eq!(discovery.skipped, 26);
    assert_eq!(discovery.errors.len(), 20);
    assert_eq!(discovery.errors[0].path, "/r/e0");
    assert_eq!(discovery.errors[0].message, "denied");
    assert!(discovery.candidates.is_empty());
}

#[test]
fn unreadable_directories_are_recorded_and_passed_over() {
    let is_file = |_: &str| false;
    let probe = |_: &str| TargetProbe::NotFound;
    let list = |_: &str| -> Result<Vec<ListedEntry>, String> { Err("permission denied".to_string()) };
    let discovery = discover_build_artifacts_with("/r", 2, &is_file, &probe, &list);
    assert_eq!(discovery.skipped, 1);
    assert_eq!(discovery.errors[0].path, "/r");
    assert_eq!(discovery.errors[0].message, "permission denied");
}

#[test]
fn build_and_hidden_directories_are_pruned() {
    for name in [".git", "target", "node_modules", "dist", "build", "__pycache__", ".tox", "venv", ".venv", ".idea", ".vscode"] {
        assert!(should_prune(name), "{name}");
    }
    for name in ["src", "crates", "targets", "venv2"] {
        assert!(!should_prune(name), "{name}");
    }
}

#[test]
fn inspecting_a_target_reports_what_it_is() {
    let never = |_: &str| false;
    assert!(inspect_candidate("/p", TargetProbe::NotFound, &never).is_none());
    let unreadable = inspect_candidate("/p", TargetProbe::Unreadable("denied".to_string()), &never).unwrap();
    assert_eq!(unreadable.status, BuildArtifactCandidateStatus::Unrecognized);
    assert_eq!(unreadable.message.as_deref(), Some("Could not inspect target: denied"));
    let file = inspect_candidate("/p", TargetProbe::NotDirectory, &never).unwrap();
    assert_eq!(file.status, BuildArtifactCandidateStatus::NotDirectory);
    assert_eq!(file.target_path, "/p/target");
    let info = |p: &str| p == "/p/target/.rustc_info.json";
    let ready = inspect_candidate("/p", TargetProbe::Directory, &info).unwrap();
    assert_eq!(ready.status, BuildArtifactCandidateStatus::Ready);
    assert_eq!(ready.message, None);
}

#[test]
fn measurement_reports_latest_file_time_and_complete_size() {
    let mut stats = MeasurementStats::new();
    let mut seen = HashSet::new();
    stats.enter_directory();
    stats.add_file(&mut seen, 1, 10, 8, Some(1_000));
    stats.enter_directory();
    stats.add_file(&mut seen, 1, 11, 8, Some(5_000));

    let measurement = measurement_of(stats, "8.0 KB".to_string());

    assert_eq!(measurement.status, BuildArtifactMeasurementStatus::Ready);
    assert!(measurement.bytes.unwrap_or(0) > 0);
    assert_eq!(measurement.bytes, Some(8192));
    assert_eq!(measurement.latest_modified_ms, Some(5_000));
    assert_eq!(measurement.skipped, 0);
    assert_eq!(measurement.files, 2);
    assert_eq!(measurement.directories, 2);
}

#[test]
fn a_skipped_entry_makes_the_measurement_partial() {
    let mut stats = MeasurementStats::new();
    let mut seen = HashSet::new();
    stats.enter_directory();
    stats.add_file(&mut seen, 1, 10, 2, None);
    stats.add_file(&mut seen, 1, 10, 2, Some(9));
    stats.record_skip("/t/a", "denied");
    stats.record_skip("/t/b", "denied again");

    let measurement = measurement_of(stats, "1.0 KB".to_string());

    assert_eq!(measurement.status, BuildArtifactMeasurementStatus::Partial);
    assert_eq!(measurement.bytes, Some(1024));
    assert_eq!(measurement.files, 1);
    assert_eq!(measurement.skipped, 2);
    assert_eq!(measurement.latest_modified_ms, None);
    assert_eq!(measurement.message.as_deref(), Some("Could not measure /t/a: denied"));
}

#[test]
fn registry_invalidates_old_scan_when_root_changes() {
    let mut state = BuildArtifactState::load("/cfg/settings.json".to_string(), None, &resolve_same);
    let first = state.authorize_root("/first", &resolve_same, &persist_ok).expect("authorize first");
    let root_id = first.root_id.expect("root id");
    let (root_path, depth, scan_id) =
        state.prepare_scan(&root_id, 8, &resolve_same, &persist_ok).expect("prepare scan");
    let scan = state
        .install_scan(&root_id, scan_id, root_path, depth, one_project_discovery("/first"), true, None)
        .expect("install scan");

    state.authorize_root("/second", &resolve_same, &persist_ok).expect("authorize second");

    assert!(state.registry.current_scan(&scan.scan_id).is_err());
}

#[test]
fn newer_scan_request_prevents_an_older_result_from_overwriting_it() {
    let mut state = BuildArtifactState::load("/cfg/settings.json".to_string(), None, &resolve_same);
    let root_id = state
        .authorize_root("/root", &resolve_same, &persist_ok)
        .expect("authorize root")
        .root_id
        .expect("root id");
    let (first_root, first_depth, first_scan_id) =
        state.prepare_scan(&root_id, 8, &resolve_same, &persist_ok).expect("prepare first");
    let (second_root, second_depth, second_scan_id) =
        state.prepare_scan(&root_id, 8, &resolve_same, &persist_ok).expect("prepare second");

    assert!(state
        .install_scan(&root_id, first_scan_id, first_root, first_depth, one_project_discovery("/root"), true, None)
        .is_err());
    let installed = state
        .install_scan(
            &root_id,
            second_scan_id.clone(),
            second_root,
            second_depth,
            one_project_discovery("/root"),
            true,
            None,
        )
        .expect("install latest scan");

    assert_eq!(installed.scan_id, second_scan_id);
}

#[test]
fn identifiers_are_numbered_from_one() {
    let mut state = BuildArtifactState::load("/cfg/settings.json".to_string(), None, &resolve_same);
    let settings = state.authorize_root("/root", &resolve_same, &persist_ok).unwrap();
    assert_eq!(settings.root_id.as_deref(), Some("root-1"));
    assert_eq!(settings.root_path.as_deref(), Some("/root"));
    assert_eq!(settings.max_depth, 8);
    let (_, _, scan_id) = state.prepare_scan("root-1", 3, &resolve_same, &persist_ok).unwrap();
    assert_eq!(scan_id, "scan-2");
    assert_eq!(state.settings().max_depth, 3);
}

#[test]
fn a_saved_root_is_authorized_again_on_load() {
    let state = BuildArtifactState::load(
        "/cfg/settings.json".to_string(),
        Some(("/saved".to_string(), 99)),
        &|p: &str| -> Result<String, String> { Ok(format!("{p}/canonical")) },
    );
    let settings = state.settings();
    assert_eq!(settings.root_id.as_deref(), Some("root-1"));
    assert_eq!(settings.root_path.as_deref(), Some("/saved/canonical"));
    assert_eq!(settings.max_depth, 32);

    let gone = BuildArtifactState::load(
        "/cfg/settings.json".to_string(),
        Some(("/saved".to_string(), 4)),
        &|_: &str| -> Result<String, String> { Err("missing".to_string()) },
    );
    let settings = gone.settings();
    assert_eq!(settings.root_id, None);
    assert_eq!(settings.root_path.as_deref(), Some("/saved"));
    assert_eq!(settings.max_depth, 4);
}

#[test]
fn scans_deeper_than_thirty_two_or_of_another_root_are_refused() {
    let mut state = BuildArtifactState::load("/cfg/settings.json".to_string(), None, &resolve_same);
    state.authorize_root("/root", &resolve_same, &persist_ok).unwrap();
    assert_eq!(
        state.prepare_scan("root-1", 33, &resolve_same, &persist_ok).unwrap_err(),
        "Scan depth must be between 0 and 32"
    );
    assert_eq!(
        state.prepare_scan("root-7", 3, &resolve_same, &persist_ok).unwrap_err(),
        "The selected build artifact root is no longer authorized"
    );
}

#[test]
fn a_failed_save_is_reported_after_the_root_changes() {
    let mut state = BuildArtifactState::load("/cfg/settings.json".to_string(), None, &resolve_same);
    let saved_args = std::cell::RefCell::new(Vec::new());
    let failing = |settings: &str, root: &str, depth: u8| -> Result<(), String> {
        saved_args.borrow_mut().push((settings.to_string(), root.to_string(), depth));
        Err("Could not save build artifact settings: read-only".to_string())
    };
    let err = state.authorize_root("/root", &resolve_same, &failing).unwrap_err();
    assert_eq!(err, "Could not save build artifact settings: read-only");
    assert_eq!(state.settings().root_id.as_deref(), Some("root-1"));
    assert_eq!(
        saved_args.borrow()[0],
        ("/cfg/settings.json".to_string(), "/root".to_string(), 8)
    );
}

#[test]
fn a_scan_walks_the_resolved_root_and_probes_cargo() {
    let mut state = BuildArtifactState::load("/cfg/settings.json".to_string(), None, &resolve_same);
    state.authorize_root("/root", &resolve_same, &persist_ok).unwrap();
    let discover = |root: &str, depth: u8| {
        assert_eq!(root, "/root");
        assert_eq!(depth, 4);
        one_project_discovery(root)
    };
    let runner = |program: &str, args: &[String], timeout: u64| -> Result<CommandRun, CommandFailure> {
        assert_eq!(program, "cargo");
        assert_eq!(args, &["--version".to_string()]);
        assert_eq!(timeout, 5);
        Ok(CommandRun {
            envelope: envelope(program, &["--version"], 5000),
            stdout: String::new(),
            stderr: "  cargo: not found \n".to_string(),
            exit_code: Some(127),
            duration_ms: 1,
        })
    };
    let scan = scan_build_artifacts_with(&mut state, "root-1", 4, &resolve_same, &persist_ok, &discover, &runner)
        .expect("scan");
    assert_eq!(scan.scan_id, "scan-2");
    assert_eq!(scan.root_path, "/root");
    assert_eq!(scan.max_depth, 4);
    assert_eq!(scan.status, BuildArtifactScanStatus::Ready);
    assert_eq!(scan.candidates.len(), 1);
    assert_eq!(scan.candidates[0].candidate_id, "candidate-3");
    assert_eq!(scan.candidates[0].measurement.status, BuildArtifactMeasurementStatus::Pending);
    assert!(!scan.cargo_available);
    assert_eq!(scan.cargo_message.as_deref(), Some("cargo: not found"));
}

#[test]
fn the_cargo_probe_reports_availability_and_why_not() {
    let run = |code: Option<i32>, stderr: &str| -> Result<CommandRun, CommandFailure> {
        Ok(CommandRun {
            envelope: envelope("cargo", &["--version"], 5000),
            stdout: String::new(),
            stderr: stderr.to_string(),
            exit_code: code,
            duration_ms: 1,
        })
    };
    assert_eq!(cargo_probe_outcome(run(Some(0), "noise")), (true, None));
    assert_eq!(cargo_probe_outcome(run(Some(1), " \n ")), (false, None));
    assert_eq!(cargo_probe_outcome(run(None, " broken\n")), (false, Some("broken".to_string())));
    let failure = CommandFailure {
        kind: FailureKind::MissingBinary,
        message: "cargo is not installed or is not on PATH".to_string(),
        command: None,
        stdout: String::new(),
        stderr: String::new(),
    };
    assert_eq!(
        cargo_probe_outcome(Err(failure)),
        (false, Some("cargo is not installed or is not on PATH".to_string()))
    );
}

#[test]
fn measuring_and_cleaning_go_through_the_current_scan() {
    let mut state = BuildArtifactState::load("/cfg/settings.json".to_string(), None, &resolve_same);
    state.authorize_root("/root", &resolve_same, &persist_ok).unwrap();
    let (root_path, depth, scan_id) = state.prepare_scan("root-1", 8, &resolve_same, &persist_ok).unwrap();
    let scan = state
        .install_scan("root-1", scan_id.clone(), root_path, depth, one_project_discovery("/root"), true, None)
        .unwrap();
    let id = scan.candidates[0].candidate_id.clone();

    assert_eq!(
        measure_build_artifact_candidate_with(&mut state, "scan-9", &id, &|_: &str| ready_measurement(1))
            .unwrap_err(),
        "The build artifact scan is stale; scan again before continuing"
    );
    assert_eq!(
        measure_build_artifact_candidate_with(&mut state, &scan_id, "candidate-9", &|_: &str| ready_measurement(1))
            .unwrap_err(),
        "The build directory candidate is not part of this scan"
    );
    let measured = measure_build_artifact_candidate_with(&mut state, &scan_id, &id, &|path: &str| {
        assert_eq!(path, "/root/project/target");
        ready_measurement(4096)
    })
    .unwrap();
    assert_eq!(measured.bytes, Some(4096));

    let validate = |root: &str, c: &CandidateRecord| -> Result<Validation, String> {
        assert_eq!(root, "/root");
        assert_eq!(c.measurement.bytes, Some(4096));
        Ok(Validation::Ready)
    };
    let runner = |program: &str, _: &[String], timeout: u64| cleaned_run(program, timeout);
    let result = clean_build_artifact_candidate_with(
        &mut state,
        &scan_id,
        &id,
        &runner,
        &validate,
        &|_: &str| missing_measurement(),
    )
    .unwrap();
    assert_eq!(result.status, BuildArtifactCleanupStatus::Succeeded);
    assert_eq!(result.released_bytes, 4096);
    let again = state.candidate_for_measurement(&scan_id, &id).unwrap();
    assert_eq!(again.measurement.status, BuildArtifactMeasurementStatus::Missing);
}

#[test]
fn cleanup_uses_fixed_offline_cargo_arguments() {
    let cand = candidate("/root/project", ready_measurement(4096));
    let validate = |_: &str, _: &CandidateRecord| -> Result<Validation, String> { Ok(Validation::Ready) };
    let runner = |program: &str, args: &[String], timeout: u64| {
        assert_eq!(program, "cargo");
        assert_eq!(timeout, 300);
        assert_eq!(
            args,
            &[
                "clean".to_string(),
                "--offline".to_string(),
                "--manifest-path".to_string(),
                "/root/project/Cargo.toml".to_string(),
                "--target-dir".to_string(),
                "/root/project/target".to_string(),
            ]
        );
        cleaned_run(program, timeout)
    };
    let result = run_build_artifact_cleanup_with_runner("/root", &cand, &runner, &validate, &|_: &str| {
        ready_measurement(1024)
    });

    assert_eq!(result.status, BuildArtifactCleanupStatus::Succeeded);
    assert_eq!(
        result.command.expect("command").args,
        vec!["clean", "--offline", "--manifest-path", "/root/project/Cargo.toml", "--target-dir", "/root/project/target"]
    );
    assert_eq!(result.before_bytes, 4096);
    assert_eq!(result.after_bytes, 1024);
    assert_eq!(result.released_bytes, 3072);
    assert_eq!(result.stdout, "cleaned");
}

#[test]
fn successful_command_does_not_claim_released_bytes_when_remeasurement_fails() {
    let cand = candidate("/root/project", ready_measurement(4096));
    let validate = |_: &str, _: &CandidateRecord| -> Result<Validation, String> { Ok(Validation::Ready) };
    let runner = |program: &str, _: &[String], timeout: u64| cleaned_run(program, timeout);
    let result = run_build_artifact_cleanup_with_runner("/root", &cand, &runner, &validate, &|_: &str| {
        failed_measurement(BuildArtifactMeasurementStatus::Error, "Build artifact target is not a regular directory")
    });

    assert_eq!(result.status, BuildArtifactCleanupStatus::PartiallyCompleted);
    assert_eq!(result.released_bytes, 0);
    assert_eq!(result.measurement.status, BuildArtifactMeasurementStatus::Error);
    assert_eq!(
        result.message.as_deref(),
        Some("cargo clean succeeded, but remaining disk usage could not be measured completely")
    );
}

#[test]
fn cleanup_skips_a_target_that_disappeared_after_scan() {
    let cand = candidate("/root/project", ready_measurement(4096));
    let validate = |_: &str, _: &CandidateRecord| -> Result<Validation, String> { Ok(Validation::Missing) };
    let runner = |_: &str, _: &[String], _: u64| -> Result<CommandRun, CommandFailure> {
        panic!("cargo must not run for a missing target")
    };
    let result = run_build_artifact_cleanup_with_runner("/root", &cand, &runner, &validate, &|_: &str| {
        ready_measurement(1)
    });

    assert_eq!(result.status, BuildArtifactCleanupStatus::Skipped);
    assert_eq!(result.released_bytes, 0);
    assert_eq!(result.message.as_deref(), Some("Build directory no longer exists; nothing was run"));
}

#[test]
fn cleanup_rejects_a_target_replaced_by_a_symbolic_link() {
    let cand = candidate("/root/project", ready_measurement(4096));
    let files: HashSet<&str> = ["/root/project/Cargo.toml", "/root/shared/CACHEDIR.TAG"].into_iter().collect();
    let validate = |root: &str, c: &CandidateRecord| {
        validate_for_cleanup_with(
            root,
            c,
            &resolve_same,
            &|_: &str| TargetProbe::Symlink,
            &|p: &str| files.contains(p),
            &resolve_same,
        )
    };
    let runner = |_: &str, _: &[String], _: u64| -> Result<CommandRun, CommandFailure> {
        panic!("cargo must not run for a symbolic link")
    };
    let result = run_build_artifact_cleanup_with_runner("/root", &cand, &runner, &validate, &|_: &str| {
        ready_measurement(1)
    });

    assert_eq!(result.status, BuildArtifactCleanupStatus::Rejected);
    assert_eq!(result.released_bytes, 0);
    assert_eq!(
        result.message.as_deref(),
        Some("The target path changed and is no longer a regular directory")
    );
}

#[test]
fn a_candidate_that_was_never_fully_measured_is_not_cleaned() {
    let mut cand = candidate("/root/project", ready_measurement(4096));
    cand.measurement.skipped = 1;
    let validate = |_: &str, _: &CandidateRecord| -> Result<Validation, String> {
        panic!("an unmeasured candidate is not revalidated")
    };
    let runner = |_: &str, _: &[String], _: u64| -> Result<CommandRun, CommandFailure> {
        panic!("cargo must not run")
    };
    let result = run_build_artifact_cleanup_with_runner("/root", &cand, &runner, &validate, &|_: &str| {
        ready_measurement(1)
    });
    assert_eq!(result.status, BuildArtifactCleanupStatus::Rejected);
    assert_eq!(result.message.as_deref(), Some("The candidate is not verified and fully measured"));
}

#[test]
fn revalidation_keeps_cleanup_inside_the_authorized_root() {
    let cand = candidate("/root/project", ready_measurement(4096));
    let files: HashSet<&str> = ["/root/project/Cargo.toml", "/root/project/target/CACHEDIR.TAG"].into_iter().collect();
    let is_file = |p: &str| files.contains(p);
    let dir = |_: &str| TargetProbe::Directory;

    assert_eq!(
        validate_for_cleanup_with("/root", &cand, &resolve_same, &dir, &is_file, &resolve_same),
        Ok(Validation::Ready)
    );
    assert_eq!(
        validate_for_cleanup_with("/root", &cand, &resolve_same, &|_: &str| TargetProbe::NotFound, &is_file, &resolve_same),
        Ok(Validation::Missing)
    );
    let escaped = |p: &str| -> Result<String, String> { Ok(p.replace("/root", "/elsewhere")) };
    assert_eq!(
        validate_for_cleanup_with("/root", &cand, &resolve_same, &dir, &is_file, &escaped).unwrap_err(),
        "The project or target escaped the authorized scan root"
    );
    let no_marker = |p: &str| p == "/root/project/Cargo.toml";
    assert_eq!(
        validate_for_cleanup_with("/root", &cand, &resolve_same, &dir, &no_marker, &resolve_same).unwrap_err(),
        "The target no longer contains a trusted Cargo marker"
    );
    assert_eq!(
        validate_for_cleanup_with("/root", &cand, &resolve_same, &dir, &|_: &str| false, &resolve_same).unwrap_err(),
        "The project's Cargo.toml is missing or is not a regular file"
    );
    let mut moved = cand.clone();
    moved.target_path = "/root/other/target".to_string();
    assert_eq!(
        validate_for_cleanup_with("/root", &moved, &resolve_same, &dir, &is_file, &resolve_same).unwrap_err(),
        "The target path is no longer directly owned by the scanned project"
    );
    let unresolved = |_: &str| -> Result<String, String> { Err("Could not resolve /root: gone".to_string()) };
    assert_eq!(
        validate_for_cleanup_with("/root", &cand, &unresolved, &dir, &is_file, &resolve_same).unwrap_err(),
        "Could not resolve /root: gone"
    );
    assert_eq!(
        validate_for_cleanup_with(
            "/root",
            &cand,
            &resolve_same,
            &|_: &str| TargetProbe::Unreadable("denied".to_string()),
            &is_file,
            &resolve_same
        )
        .unwrap_err(),
        "Could not revalidate target: denied"
    );
}

#[test]
fn parents_compare_by_components() {
    assert!(has_parent("/root/project/target", "/root/project"));
    assert!(has_parent("/root/project/target/", "/root//project"));
    assert!(!has_parent("/root/project/target", "/root"));
    assert!(!has_parent("/", ""));
    assert!(has_parent("target", ""));
}

#[test]
fn a_scan_stops_when_its_settings_cannot_be_saved() {
    let mut state = BuildArtifactState::load("/cfg/settings.json".to_string(), None, &resolve_same);
    state.authorize_root("/root", &resolve_same, &persist_ok).unwrap();
    let failing = |_: &str, _: &str, _: u8| -> Result<(), String> {
        Err("Could not save build artifact settings: disk full".to_string())
    };
    let discover = |_: &str, _: u8| -> Discovery { panic!("no walk after a failed save") };
    let runner = |_: &str, _: &[String], _: u64| -> Result<CommandRun, CommandFailure> {
        panic!("no probe after a failed save")
    };
    let err = scan_build_artifacts_with(&mut state, "root-1", 2, &resolve_same, &failing, &discover, &runner)
        .unwrap_err();
    assert_eq!(err, "Could not save build artifact settings: disk full");
    assert_eq!(state.registry.pending_scan_id.as_deref(), Some("scan-2"));
    assert_eq!(state.settings().max_depth, 2);
}
