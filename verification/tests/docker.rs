use pmcc::command::{envelope, envelope_owned};
use pmcc::docker::{
    parse_docker_containers, parse_docker_disk_usage, parse_docker_images, parse_docker_version, parse_docker_volumes,
    scan_docker_with_runner_and_home,
};
use pmcc::types::{AsyncStatus, CommandFailure, CommandRun, FailureKind, ManagerStatus, PackageKind, PackageSignal, PathKind};

fn fake_run(program: &str, args: &[String], timeout: u64, stdout: &str) -> CommandRun {
    CommandRun {
        envelope: envelope_owned(program, args.to_vec(), timeout * 1000),
        stdout: stdout.to_string(),
        stderr: String::new(),
        exit_code: Some(0),
        duration_ms: 1,
    }
}

#[test]
fn parse_docker_images_marks_dangling_and_unused_rows() {
    let packages = parse_docker_images(
        r#"{"Repository":"node","Tag":"22-alpine","ID":"sha256:111","Digest":"sha256:aaa","Size":"165MB","Containers":"1"}
{"Repository":"<none>","Tag":"<none>","ID":"sha256:222","Digest":"<none>","Size":"20MB","Containers":"0"}"#,
    )
    .expect("parse docker images");

    assert_eq!(packages.len(), 2);
    assert_eq!(packages[0].name, "node:22-alpine");
    assert_eq!(packages[0].version, "165MB");
    assert_eq!(packages[0].kind, PackageKind::DockerImage);
    assert_eq!(packages[0].path.as_deref(), Some("sha256:aaa"));
    assert_eq!(packages[1].name, "sha256:222");
    assert!(packages[1].signals.contains(&PackageSignal::Dangling));
    assert!(packages[1].signals.contains(&PackageSignal::Unused));
    assert_eq!(packages[1].path, None);
}

#[test]
fn parse_docker_containers_marks_running_and_stopped_rows() {
    let packages = parse_docker_containers(
        r#"{"ID":"abc123","Image":"nginx:latest","Names":"web","Status":"Up 2 hours"}
{"ID":"def456","Image":"redis:7","Names":"cache","Status":"Exited (0) 1 day ago"}"#,
    )
    .expect("parse docker containers");

    assert_eq!(packages.len(), 2);
    assert_eq!(packages[0].name, "cache");
    assert_eq!(packages[0].path, None);
    assert!(packages[0].source.contains("container def456"));
    assert!(packages[0].signals.contains(&PackageSignal::Stopped));
    assert_eq!(packages[1].name, "web");
    assert!(packages[1].signals.contains(&PackageSignal::Running));
}

#[test]
fn parse_docker_volumes_reads_mountpoints() {
    let packages = parse_docker_volumes(
        r#"{"Name":"db-data","Driver":"local","Mountpoint":"/var/lib/docker/volumes/db-data/_data"}"#,
    )
    .expect("parse docker volumes");

    assert_eq!(packages.len(), 1);
    assert_eq!(packages[0].name, "db-data");
    assert_eq!(packages[0].version, "local");
    assert_eq!(packages[0].kind, PackageKind::DockerVolume);
    assert_eq!(packages[0].path.as_deref(), Some("/var/lib/docker/volumes/db-data/_data"));
}

#[test]
fn parse_docker_disk_usage_reads_json_rows() {
    let rows = parse_docker_disk_usage(
        r#"{"Type":"Images","TotalCount":"2","ActiveCount":"1","Size":"185MB","Reclaimable":"20MB (10%)"}
{"Type":"Build Cache","Total":"4","Active":"0","Size":"1.2GB","Reclaimable":"1.2GB"}"#,
    )
    .expect("parse docker disk usage");

    assert_eq!(rows.len(), 2);
    assert_eq!(rows[0].resource_type, "Images");
    assert_eq!(rows[0].total_count, "2");
    assert_eq!(rows[0].active_count, "1");
    assert_eq!(rows[1].resource_type, "Build Cache");
    assert_eq!(rows[1].total_count, "4");
    assert_eq!(rows[1].active_count, "0");
}

#[test]
fn docker_disk_usage_without_a_type_is_refused_and_numbers_render_as_json() {
    let error = parse_docker_disk_usage(r#"{"Size":"1GB"}"#).expect_err("refused");
    assert_eq!(error, "docker system df row is missing Type");
    let rows = parse_docker_disk_usage(r#"{"Type":"Volumes","TotalCount":3}"#).expect("parsed");
    assert_eq!(rows[0].total_count, "3");
    assert_eq!(rows[0].size, "-");
}

#[test]
fn docker_json_lines_report_the_offending_line() {
    let error = parse_docker_volumes("not json").expect_err("refused");
    assert!(error.ends_with(": not json"), "{error}");
}

#[test]
fn docker_version_is_the_text_before_the_build() {
    assert_eq!(parse_docker_version("Docker version 28.2.2, build e6534b4\n"), "28.2.2");
    assert_eq!(parse_docker_version("something else\n"), "something else");
}

#[test]
fn scan_docker_collects_resources_paths_and_safe_commands() {
    let runner = |program: &str, args: &[String], timeout: u64| -> Result<CommandRun, CommandFailure> {
        assert_eq!(program, "docker");
        let a: Vec<&str> = args.iter().map(String::as_str).collect();
        match a.as_slice() {
            ["--version"] => Ok(fake_run(program, args, timeout, "Docker version 28.2.2, build e6534b4\n")),
            ["image", "ls", "--all", "--format", "{{json .}}", "--digests"] => Ok(fake_run(
                program,
                args,
                timeout,
                r#"{"Repository":"node","Tag":"22-alpine","ID":"sha256:111","Digest":"sha256:aaa","Size":"165MB","Containers":"0"}"#,
            )),
            ["container", "ls", "--all", "--format", "{{json .}}"] => Ok(fake_run(
                program,
                args,
                timeout,
                r#"{"ID":"abc123","Image":"node:22-alpine","Names":"app","Status":"Exited (0) 1 day ago"}"#,
            )),
            ["volume", "ls", "--format", "{{json .}}"] => Ok(fake_run(
                program,
                args,
                timeout,
                r#"{"Name":"app-cache","Driver":"local","Mountpoint":"/var/lib/docker/volumes/app-cache/_data"}"#,
            )),
            ["system", "df", "--format", "{{json .}}"] => Ok(fake_run(
                program,
                args,
                timeout,
                r#"{"Type":"Images","TotalCount":"1","ActiveCount":"0","Size":"165MB","Reclaimable":"165MB (100%)"}"#,
            )),
            _ => panic!("unexpected command: {program} {args:?}"),
        }
    };

    let snapshot = scan_docker_with_runner_and_home(&runner, Some("/Users/sunven"));

    assert_eq!(snapshot.status, ManagerStatus::Ready);
    assert_eq!(snapshot.version.as_deref(), Some("28.2.2"));
    assert!(snapshot.paths.iter().any(|path| path.kind == PathKind::DockerDesktopData));
    assert!(snapshot.commands.iter().any(|command| command.preview == "docker system prune"));
    assert_eq!(snapshot.packages.len(), 3);

    let docker = snapshot.docker.clone().expect("docker health");
    assert_eq!(docker.image_count, 1);
    assert_eq!(docker.container_count, 1);
    assert_eq!(docker.volume_count, 1);
    assert_eq!(docker.unused_image_count, 1);
    assert_eq!(docker.disk_usage_status, AsyncStatus::Ready);
    assert_eq!(docker.disk_usage[0].resource_type, "Images");

    let container = snapshot
        .packages
        .iter()
        .find(|package| package.kind == PackageKind::DockerContainer)
        .expect("container row");
    assert!(container.actions.iter().any(|action| action.preview == "docker container rm abc123"));
}

#[test]
fn scan_docker_reports_missing_but_keeps_known_paths() {
    let runner = |program: &str, args: &[String], _timeout: u64| -> Result<CommandRun, CommandFailure> {
        assert_eq!(program, "docker");
        assert_eq!(args, ["--version".to_string()]);
        Err(CommandFailure {
            kind: FailureKind::MissingBinary,
            message: "docker is not installed or is not on PATH".to_string(),
            command: Some(envelope("docker", &["--version"], 5_000)),
            stdout: String::new(),
            stderr: "not found".to_string(),
        })
    };

    let snapshot = scan_docker_with_runner_and_home(&runner, Some("/Users/sunven"));

    assert_eq!(snapshot.status, ManagerStatus::Missing);
    assert!(snapshot.packages.is_empty());
    assert!(snapshot.paths.iter().any(|path| path.kind == PathKind::DockerConfig));
}
