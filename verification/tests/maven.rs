use pmcc::maven::{
    interpolate_maven_path, maven_version_summary, parse_maven_home,
    parse_maven_local_repository_setting, parse_maven_version, resolve_maven_local_repository,
    scan_maven_with_runner,
};
use pmcc::maven_repository::{
    is_marker_file_name, maven_coordinate_from_version_dir, maven_walk_limit,
    summarize_maven_repository, MavenRepositoryWalk, MavenScanLimits, MavenVersionDir,
};
use pmcc::command::envelope_owned;
use pmcc::types::{CommandFailure, CommandRun, FailureKind, ManagerStatus, PackageSignal, PathKind};

fn fake_run(program: &str, args: &[String], timeout: u64, stdout: &str) -> CommandRun {
    CommandRun {
        envelope: envelope_owned(program, args.to_vec(), timeout * 1000),
        stdout: stdout.to_string(),
        stderr: String::new(),
        exit_code: Some(0),
        duration_ms: 1,
    }
}

/// The version directory at `relative` under `root`, holding one file, as
/// the walk over the repository would meet it.
fn version_dir(root: &str, relative: &str, file: &str) -> MavenVersionDir {
    let path = format!("{root}/{relative}");
    let entries = vec![(file.to_string(), true)];
    let (group_id, artifact_id, version, file_count) =
        maven_coordinate_from_version_dir(root, &path, &entries).expect("version directory");
    assert_eq!(file_count, 1);
    MavenVersionDir { group_id, artifact_id, version, path }
}

fn walk_of(dirs: Vec<MavenVersionDir>) -> MavenRepositoryWalk {
    let scanned = dirs.len();
    MavenRepositoryWalk { version_dirs: dirs, scanned_version_dirs: scanned, skipped: 0, message: None }
}

#[test]
fn parse_maven_settings_reads_only_top_level_local_repository() {
    let repository = parse_maven_local_repository_setting(
        r#"<settings>
            <servers>
              <server>
                <username>sunven</username>
                <password>secret</password>
                <localRepository>/wrong</localRepository>
              </server>
            </servers>
            <localRepository>${user.home}/.cache/maven</localRepository>
          </settings>"#,
    )
    .expect("parse settings");

    assert_eq!(repository.as_deref(), Some("${user.home}/.cache/maven"));
}

#[test]
fn parse_maven_settings_rejects_malformed_xml() {
    let error = parse_maven_local_repository_setting("<settings>").expect_err("parse failure");

    assert!(!error.is_empty());
}

#[test]
fn settings_under_another_root_name_no_repository() {
    let repository = parse_maven_local_repository_setting(
        "<project><localRepository>/x</localRepository></project>",
    )
    .expect("parse");
    assert_eq!(repository, None);
}

#[test]
fn scan_maven_repository_flags_duplicates_and_snapshots() {
    let root = "/tmp/maven-repo";
    let dirs = vec![
        version_dir(root, "org/example/tool/1.0.0", "tool-1.0.0.pom"),
        version_dir(root, "org/example/tool/1.1.0", "tool-1.1.0.jar"),
        version_dir(root, "org/example/snap/2.0-SNAPSHOT", "snap-2.0-SNAPSHOT.pom"),
    ];

    let scan = summarize_maven_repository(
        root,
        walk_of(dirs),
        &MavenScanLimits { max_scan_ms: 5_000, max_version_dirs: 100, max_rows_returned: 100 },
    );

    assert_eq!(scan.health.artifact_count, 2);
    assert_eq!(scan.health.version_count, 3);
    assert_eq!(scan.health.snapshot_count, 1);
    assert_eq!(scan.health.duplicate_artifact_count, 1);

    let tool = scan
        .packages
        .iter()
        .find(|package| package.name == "org.example:tool")
        .expect("tool artifact");
    assert!(tool.signals.contains(&PackageSignal::DuplicateVersions));
    assert!(tool.actions.iter().any(|action| action.preview.contains("dependency:tree")));

    let snap = scan
        .packages
        .iter()
        .find(|package| package.name == "org.example:snap")
        .expect("snapshot artifact");
    assert!(snap.signals.contains(&PackageSignal::Snapshot));
}

#[test]
fn repository_rows_are_sorted_summarised_and_cut_to_the_row_limit() {
    let root = "/repo";
    let dirs = vec![
        version_dir(root, "org/b/lib/1.0", "lib-1.0.jar"),
        version_dir(root, "org/a/core/2.0", "core-2.0.pom"),
        version_dir(root, "org/a/core/1.0", "core-1.0.pom"),
        version_dir(root, "org/a/core/2.0", "core-2.0.jar"),
    ];
    let scan = summarize_maven_repository(
        root,
        walk_of(dirs),
        &MavenScanLimits { max_scan_ms: 5_000, max_version_dirs: 100, max_rows_returned: 1 },
    );

    assert_eq!(scan.packages.len(), 1);
    assert_eq!(scan.packages[0].name, "org.a:core");
    assert_eq!(scan.packages[0].version, "multiple (2)");
    assert_eq!(scan.packages[0].path.as_deref(), Some("/repo/org/a/core/2.0"));
    assert_eq!(scan.packages[0].actions.len(), 1);
    assert_eq!(scan.packages[0].actions[0].preview, "mvn dependency:tree -Dincludes=org.a:core");
    assert_eq!(scan.health.artifact_count, 2);
    assert_eq!(scan.health.version_count, 3);
    assert_eq!(scan.health.top_duplicate_artifacts.len(), 1);
    assert_eq!(scan.health.top_duplicate_artifacts[0].versions, vec!["1.0", "2.0"]);
    assert!(scan.health.repository_scan_status.partial);
    assert_eq!(
        scan.health.repository_scan_status.message.as_deref(),
        Some("Repository scan reached row limit")
    );
}

#[test]
fn single_version_rows_offer_dependency_get() {
    let root = "/repo";
    let scan = summarize_maven_repository(
        root,
        walk_of(vec![version_dir(root, "com/x/y/3.1", "y-3.1.module")]),
        &MavenScanLimits::default(),
    );
    assert_eq!(scan.packages[0].version, "3.1");
    assert_eq!(scan.packages[0].actions[0].preview, "mvn dependency:get -Dartifact=com.x:y:3.1");
    assert!(!scan.health.repository_scan_status.partial);
}

#[test]
fn duplicates_are_ordered_by_count_then_coordinate() {
    let root = "/r";
    let dirs = vec![
        version_dir(root, "g/b/1", "b.jar"),
        version_dir(root, "g/b/2", "b.jar"),
        version_dir(root, "g/a/1", "a.jar"),
        version_dir(root, "g/a/2", "a.jar"),
        version_dir(root, "g/c/1", "c.jar"),
        version_dir(root, "g/c/2", "c.jar"),
        version_dir(root, "g/c/3", "c.jar"),
    ];
    let scan = summarize_maven_repository(root, walk_of(dirs), &MavenScanLimits::default());
    let order: Vec<&str> =
        scan.health.top_duplicate_artifacts.iter().map(|d| d.coordinate.as_str()).collect();
    assert_eq!(order, vec!["g:c", "g:a", "g:b"]);
}

#[test]
fn version_directories_need_depth_and_a_marker() {
    let entries = vec![("readme.txt".to_string(), true)];
    assert!(maven_coordinate_from_version_dir("/r", "/r/g/a/1", &entries).is_none());
    let marker = vec![("a-1.pom".to_string(), true), ("sub".to_string(), false)];
    assert!(maven_coordinate_from_version_dir("/r", "/r/a/1", &marker).is_none());
    assert_eq!(
        maven_coordinate_from_version_dir("/r", "/r/org/acme/a/1", &marker),
        Some(("org.acme".to_string(), "a".to_string(), "1".to_string(), 1))
    );
    assert!(is_marker_file_name("x.jar.lastUpdated"));
    assert!(is_marker_file_name("x.aar"));
    assert!(!is_marker_file_name(".pom"));
    assert!(!is_marker_file_name("x.zip"));
}

#[test]
fn walk_stops_at_time_then_directory_limit() {
    let limits = MavenScanLimits { max_scan_ms: 10, max_version_dirs: 2, max_rows_returned: 5 };
    assert_eq!(maven_walk_limit(10, 0, &limits).as_deref(), Some("Repository scan reached time limit"));
    assert_eq!(
        maven_walk_limit(9, 2, &limits).as_deref(),
        Some("Repository scan reached version directory limit")
    );
    assert_eq!(maven_walk_limit(9, 1, &limits), None);
}

#[test]
fn maven_version_and_home_come_from_version_output() {
    let out = "Apache Maven 3.9.9 (abc)\nMaven home: /opt/maven\nJava version: 21\n";
    assert_eq!(parse_maven_version(out), "Apache Maven 3.9.9 (abc)");
    assert_eq!(parse_maven_home(out).as_deref(), Some("/opt/maven"));
    assert_eq!(parse_maven_version(""), "unknown");
    assert_eq!(
        maven_version_summary(&["1".to_string(), "2".to_string(), "3".to_string()]),
        "multiple (3)"
    );
}

#[test]
fn settings_paths_are_interpolated_against_home() {
    assert_eq!(
        interpolate_maven_path("${user.home}/.cache/maven", Some("/Users/me")),
        "/Users/me/.cache/maven"
    );
    assert_eq!(interpolate_maven_path("~/repo", Some("/Users/me")), "/Users/me/repo");
}

#[test]
fn repository_resolution_prefers_user_settings_then_reports_errors() {
    let read = |path: &str| -> Result<Option<String>, String> {
        match path {
            "/home/u/.m2/settings.xml" => Ok(Some("<settings>".to_string())),
            "/opt/m/conf/settings.xml" => Ok(Some(
                "<settings><localRepository>${env.HOME}/m2</localRepository></settings>".to_string(),
            )),
            _ => Ok(None),
        }
    };
    let resolution = resolve_maven_local_repository(Some("/home/u"), Some("/opt/m"), &read);
    assert_eq!(resolution.path, "/home/u/m2");
    assert_eq!(resolution.message, None);

    let resolution = resolve_maven_local_repository(Some("/home/u"), None, &read);
    assert_eq!(resolution.path, "/home/u/.m2/repository");
    assert!(resolution
        .message
        .expect("error")
        .starts_with("Could not parse /home/u/.m2/settings.xml: "));
}

#[test]
fn scan_maven_reports_repository_and_purge_commands() {
    let runner = |program: &str, args: &[String], timeout: u64| -> Result<CommandRun, CommandFailure> {
        assert_eq!(program, "mvn");
        Ok(fake_run(program, args, timeout, "Apache Maven 3.9.9\nMaven home: /opt/m\n"))
    };
    let read = |_path: &str| -> Result<Option<String>, String> { Ok(None) };
    let walk = |root: &str, limits: &MavenScanLimits| -> MavenRepositoryWalk {
        assert_eq!(root, "/home/u/.m2/repository");
        assert_eq!(limits.max_rows_returned, 2000);
        walk_of(vec![version_dir(root, "org/x/y/1.0", "y-1.0.jar")])
    };
    let snapshot = scan_maven_with_runner(&runner, Some("/home/u"), &read, &walk);
    assert_eq!(snapshot.status, ManagerStatus::Ready);
    assert_eq!(snapshot.version.as_deref(), Some("Apache Maven 3.9.9"));
    assert_eq!(snapshot.paths[0].kind, PathKind::LocalRepository);
    assert_eq!(snapshot.commands.len(), 3);
    assert_eq!(snapshot.commands[1].preview, "mvn dependency:purge-local-repository -DreResolve=false");
    assert_eq!(snapshot.packages.len(), 1);
    assert_eq!(snapshot.maven.expect("health").artifact_count, 1);
}

#[test]
fn scan_maven_stops_when_version_probe_fails() {
    let runner = |program: &str, args: &[String], timeout: u64| -> Result<CommandRun, CommandFailure> {
        let mut run = fake_run(program, args, timeout, "");
        run.exit_code = Some(1);
        Ok(run)
    };
    let read = |_path: &str| -> Result<Option<String>, String> { panic!("no read") };
    let walk = |_root: &str, _limits: &MavenScanLimits| -> MavenRepositoryWalk { panic!("no walk") };
    let snapshot = scan_maven_with_runner(&runner, Some("/home/u"), &read, &walk);
    assert_eq!(snapshot.status, ManagerStatus::Failed);
    assert!(snapshot.commands.is_empty());
    assert_eq!(snapshot.failures[0].kind, FailureKind::CommandFailed);
    assert_eq!(snapshot.failures[0].message, "Maven version probe failed");
}
