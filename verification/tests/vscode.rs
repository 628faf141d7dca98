use pmcc::types::{DiskUsage, DiskUsageStatus};
use pmcc::vscode_storage::{
    add_workspace, finish_storage_scan, identify_workspace, new_workspace, note_unreadable_entry,
    read_workspace_uri, storage_scan, workspace_mapping, workspace_usage, ProjectProbe,
    ProjectStatus, VscodeScanStatus, WorkspaceKind, note_storage_entry, storage_entry_listed, StorageEntry,
};

fn measured(bytes: u64) -> DiskUsage {
    DiskUsage {
        status: DiskUsageStatus::Ready,
        bytes: Some(bytes),
        human: Some("x".to_string()),
        files: 1,
        directories: 1,
        skipped: 0,
        message: None,
    }
}

#[test]
fn file_uris_are_decoded_and_probed() {
    let mut workspace = new_workspace("-790c4ea6".to_string(), "/s/-790c4ea6".to_string());
    let mapping = r#"{"folder":"file:///Users/me/%E4%B8%AD%E6%96%87%20project%20%231"}"#;
    identify_workspace(&mut workspace, Ok(mapping.to_string()), &|path: &str| {
        assert_eq!(path, "/Users/me/中文 project #1");
        ProjectProbe::Exists
    });
    assert_eq!(workspace.kind, WorkspaceKind::Folder);
    assert_eq!(workspace.name, "中文 project #1");
    assert_eq!(workspace.project_path.as_deref(), Some("/Users/me/中文 project #1"));
    assert_eq!(workspace.project_status, ProjectStatus::Available);
    assert_eq!(workspace.message, None);
}

#[test]
fn missing_projects_and_unusable_mappings_are_kept() {
    let probe_missing = |_path: &str| ProjectProbe::NotFound;
    let mut missing = new_workspace("missing-project".to_string(), "/s/m".to_string());
    identify_workspace(&mut missing, Ok(r#"{"folder":"file:///gone/removed-project"}"#.to_string()), &probe_missing);
    assert_eq!(missing.project_status, ProjectStatus::Missing);
    assert_eq!(missing.name, "removed-project");

    for (id, mapping) in [
        ("no-mapping", Err("无法读取项目映射：not found".to_string())),
        ("bad-json", Ok("{".to_string())),
        ("bad-uri", Ok(r#"{"folder":"not a URI"}"#.to_string())),
        ("empty-mapping", Ok("{}".to_string())),
    ] {
        let mut w = new_workspace(id.to_string(), format!("/s/{id}"));
        identify_workspace(&mut w, mapping, &probe_missing);
        assert_eq!(w.project_status, ProjectStatus::Unknown);
        assert_eq!(w.name, w.id);
        assert!(w.message.is_some());
    }

    let unreadable = |_path: &str| ProjectProbe::Unreadable("denied".to_string());
    let mut w = new_workspace("u".to_string(), "/s/u".to_string());
    identify_workspace(&mut w, Ok(r#"{"folder":"file:///p"}"#.to_string()), &unreadable);
    assert_eq!(w.project_status, ProjectStatus::Unavailable);
    assert_eq!(w.message.as_deref(), Some("无法确认项目路径状态：denied"));
}

#[test]
fn workspace_mappings_and_remote_uris_are_recognized() {
    let remote = "vscode-remote://ssh-remote+test-host/home/dev/project";
    let mut w = new_workspace("remote".to_string(), "/s/remote".to_string());
    identify_workspace(&mut w, Ok(format!(r#"{{"folder":"{remote}"}}"#)), &|_p: &str| ProjectProbe::Exists);
    assert_eq!(w.project_status, ProjectStatus::Remote);
    assert_eq!(w.project_path.as_deref(), Some(remote));
    assert_eq!(w.name, "project");

    let (kind, uri) = read_workspace_uri(r#"{"workspace":"file:///w/team.code-workspace"}"#).expect("uri");
    assert_eq!(kind, WorkspaceKind::Workspace);
    assert_eq!(uri.scheme, "file");
    assert_eq!(uri.file_path.as_deref(), Some("/w/team.code-workspace"));
    assert!(read_workspace_uri(r#"{"folder":"not a URI"}"#)
        .expect_err("invalid")
        .starts_with("工作区 URI 无效："));
    assert_eq!(workspace_mapping("{}").expect_err("none"), "项目映射缺少文件夹或工作区位置");
    assert!(workspace_mapping(r#"{"folder":3}"#).expect_err("typed").starts_with("项目映射格式无效："));
}

#[test]
fn scans_turn_partial_on_incomplete_usage_and_sort_by_id() {
    let mut scan = storage_scan("/s".to_string(), true);
    assert_eq!(scan.status, VscodeScanStatus::Ready);
    let mut b = new_workspace("b".to_string(), "/s/b".to_string());
    b.usage = workspace_usage(measured(10));
    assert!(b.usage.complete);
    add_workspace(&mut scan, b);
    assert_eq!(scan.status, VscodeScanStatus::Ready);
    let a = new_workspace("a".to_string(), "/s/a".to_string());
    add_workspace(&mut scan, a);
    assert_eq!(scan.status, VscodeScanStatus::Partial);
    note_unreadable_entry(&mut scan, "first");
    note_unreadable_entry(&mut scan, "second");
    assert_eq!(scan.message.as_deref(), Some("部分存储目录无法读取：first"));
    let scan = finish_storage_scan(scan);
    let ids: Vec<&str> = scan.workspaces.iter().map(|w| w.id.as_str()).collect();
    assert_eq!(ids, vec!["a", "b"]);
    assert_eq!(storage_scan("/none".to_string(), false).status, VscodeScanStatus::Missing);
}

#[test]
fn mappings_may_list_their_fields_in_order() {
    let (kind, value) = workspace_mapping(r#"["file:///a", null]"#).expect("folder");
    assert!(matches!(kind, WorkspaceKind::Folder));
    assert_eq!(value, "file:///a");
    let (kind, value) = workspace_mapping(r#"[null, "file:///w.code-workspace"]"#).expect("workspace");
    assert!(matches!(kind, WorkspaceKind::Workspace));
    assert_eq!(value, "file:///w.code-workspace");
    assert_eq!(workspace_mapping("[null, null]").expect_err("none"), "项目映射缺少文件夹或工作区位置");
    assert!(workspace_mapping(r#"["file:///a"]"#).expect_err("short").starts_with("项目映射格式无效："));
    assert!(workspace_mapping("3").expect_err("number").starts_with("项目映射格式无效："));
}

#[test]
fn storage_entries_that_are_not_plain_directories_are_noted() {
    assert!(!storage_entry_listed(&StorageEntry::File));
    assert!(storage_entry_listed(&StorageEntry::Directory));
    assert!(storage_entry_listed(&StorageEntry::Other));
    let mut other = new_workspace("w".to_string(), "/s/w".to_string());
    note_storage_entry(&mut other, &StorageEntry::Other);
    assert_eq!(other.usage.message.as_deref(), Some("不是普通存储目录，未跟随符号链接"));
    let mut unreadable = new_workspace("u".to_string(), "/s/u".to_string());
    note_storage_entry(&mut unreadable, &StorageEntry::Unreadable("denied".to_string()));
    assert_eq!(unreadable.usage.message.as_deref(), Some("无法读取存储目录：denied"));
    let mut dir = new_workspace("d".to_string(), "/s/d".to_string());
    note_storage_entry(&mut dir, &StorageEntry::Directory);
    assert!(dir.usage.message.is_none());
}
