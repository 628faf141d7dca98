use pmcc::session_records::{
    apple_script_string, days_from_civil, failed_source, fraction_millis, is_human_prompt,
    list_session_sources, normalize_lexical, note_timestamp, note_user_title, parse_lsof_paths,
    check_removal_age, parse_offset, parse_rfc3339_millis, parse_u32, remove_older_than,
    remove_one, removal_cutoff, session_record_candidate, sessions_dir_from, source_or_failure,
    truncate_chars, record_of, ParsedSession, RecordFormat, SessionRecord, SessionScanStatus,
    SessionSourceScan, codex_sessions_dir_from_env, configured_projects_dir, note_partial_source,
    session_entry, start_source_scan, DirectoryProbe, SessionEntry,
};
use pmcc::session_lines::{parse_claude_lines, parse_session_lines};

fn empty_parsed() -> ParsedSession {
    ParsedSession { title: None, working_directory: None, last_activity_ms: None }
}

fn record(id: &str, last: Option<i64>, in_use: bool) -> SessionRecord {
    SessionRecord {
        id: id.to_string(),
        title: id.to_string(),
        last_activity_ms: last,
        working_directory: None,
        bytes: 1,
        in_use,
    }
}

#[test]
fn rfc3339_offsets_share_one_instant() {
    assert_eq!(parse_rfc3339_millis("1970-01-01T00:00:00Z"), Some(0));
    assert_eq!(parse_rfc3339_millis("1970-01-01T00:00:01.5Z"), Some(1_500));
    assert_eq!(parse_rfc3339_millis("1970-01-01T08:00:00+08:00"), Some(0));
}

#[test]
fn rfc3339_rejects_malformed_timestamps() {
    assert_eq!(parse_rfc3339_millis("1970-01-01T00:00:00"), None);
    assert_eq!(parse_rfc3339_millis("1970-13-01T00:00:00Z"), None);
    assert_eq!(parse_rfc3339_millis("1970-01-01T24:00:00Z"), None);
    assert_eq!(parse_rfc3339_millis("1970-01-01T00:00:00.Z"), None);
    assert_eq!(parse_rfc3339_millis("1970-01-01 00:00:00Z"), None);
    assert_eq!(parse_rfc3339_millis("2024-02-29t12:30:15.123456-01:30"), Some(1_709_209_815_123 + 5_400_000));
}

#[test]
fn civil_days_and_small_parsers() {
    assert_eq!(days_from_civil(1970, 1, 1), Some(0));
    assert_eq!(days_from_civil(2000, 3, 1), Some(11_017));
    assert_eq!(days_from_civil(3_000_000_000, 1, 1), None);
    assert_eq!(parse_u32(b"0042"), Some(42));
    assert_eq!(parse_u32(b""), None);
    assert_eq!(parse_u32(b"4294967296"), None);
    assert_eq!(parse_u32(b"1a"), None);
    assert_eq!(fraction_millis("5"), Some(500));
    assert_eq!(fraction_millis("123456"), Some(123));
    assert_eq!(fraction_millis("1x"), None);
    assert_eq!(parse_offset(b"z"), Some(0));
    assert_eq!(parse_offset(b"-05:30"), Some(-19_800));
    assert_eq!(parse_offset(b"+24:00"), None);
    assert_eq!(parse_offset(b"+0530"), None);
}

#[test]
fn lsof_names_become_paths() {
    let paths = parse_lsof_paths("p10\nn/tmp/a.jsonl\nfcwd\nn/tmp/b.jsonl\n");
    assert!(paths.contains(&"/tmp/a.jsonl".to_string()));
    assert!(paths.contains(&"/tmp/b.jsonl".to_string()));
}

#[test]
fn lsof_paths_are_listed_once() {
    let paths = parse_lsof_paths("n/a\nn\nn/a\nx/b\n");
    assert_eq!(paths, vec!["/a".to_string()]);
}

#[test]
fn resolved_home_uses_codex_home_or_default() {
    let home = "/Users/example";
    assert_eq!(sessions_dir_from(Some("/custom/codex"), home), "/custom/codex/sessions");
    assert_eq!(sessions_dir_from(None, home), "/Users/example/.codex/sessions");
}

#[test]
fn titles_are_compacted_truncated_and_skip_injected_context() {
    let mut parsed = empty_parsed();
    note_user_title(&mut parsed, Some("<environment_context> x".to_string()));
    assert_eq!(parsed.title, None);
    note_user_title(&mut parsed, Some("  fix   the\n build ".to_string()));
    assert_eq!(parsed.title.as_deref(), Some("fix the build"));
    note_user_title(&mut parsed, Some("later".to_string()));
    assert_eq!(parsed.title.as_deref(), Some("fix the build"));

    let long = "x".repeat(150);
    assert_eq!(truncate_chars(&long, 140), format!("{}...", "x".repeat(140)));
    assert_eq!(truncate_chars("short", 140), "short");
}

#[test]
fn timestamps_keep_the_latest_activity() {
    let mut parsed = empty_parsed();
    note_timestamp(&mut parsed, Some("1970-01-01T00:00:02Z"));
    note_timestamp(&mut parsed, Some("1970-01-01T00:00:01Z"));
    note_timestamp(&mut parsed, Some("not a time"));
    note_timestamp(&mut parsed, None);
    assert_eq!(parsed.last_activity_ms, Some(2_000));
}

#[test]
fn human_prompts_exclude_command_echoes() {
    assert!(is_human_prompt("  please refactor "));
    assert!(!is_human_prompt("   "));
    assert!(!is_human_prompt("<command-name>/clear</command-name>"));
    assert!(!is_human_prompt("Caveat: generated"));
    assert!(!is_human_prompt("[Request interrupted by user]"));
}

#[test]
fn applescript_strings_escape_backslashes_and_quotes() {
    assert_eq!(apple_script_string(r#"a"b\c"#), r#""a\"b\\c""#);
}

#[test]
fn lexical_normalization_resolves_dots() {
    assert_eq!(normalize_lexical("/a/./b/../c"), "/a/c");
    assert_eq!(normalize_lexical("/.."), "/");
    assert_eq!(normalize_lexical("a/../../b"), "b");
}

#[test]
fn record_candidates_stay_inside_the_directory() {
    assert_eq!(
        session_record_candidate("/s", " 2024/x.jsonl "),
        Ok("/s/2024/x.jsonl".to_string())
    );
    let stayed = "这条记录已不再是会话记录，留在原处".to_string();
    assert_eq!(session_record_candidate("/s", "../x.jsonl"), Err(stayed.clone()));
    assert_eq!(session_record_candidate("/s", "/etc/x.jsonl"), Err(stayed.clone()));
    assert_eq!(session_record_candidate("/s", "x.json"), Err(stayed.clone()));
    assert_eq!(session_record_candidate("/s", ""), Err(stayed.clone()));
    assert_eq!(session_record_candidate("/s", "a/.jsonl"), Err(stayed));
}

#[test]
fn single_removal_hands_only_closed_record_files_to_trash() {
    let check = |_dir: &str, _path: &str| true;
    let closed = |_path: &str| false;
    let open = |_path: &str| true;
    let ok = |path: &str| -> Result<(), String> {
        assert_eq!(path, "/s/a.jsonl");
        Ok(())
    };
    let refuse = |_path: &str| -> Result<(), String> { Err("busy".to_string()) };

    let moved = remove_one("/s", "a.jsonl", &check, &closed, &ok);
    assert_eq!((moved.moved, moved.failed, moved.message), (1, 0, None));

    let kept = remove_one("/s", "a.jsonl", &check, &open, &ok);
    assert_eq!((kept.moved, kept.failed), (0, 0));
    assert_eq!(kept.message.as_deref(), Some("这条会话记录正在使用，留在原处"));

    let failed = remove_one("/s", "a.jsonl", &check, &closed, &refuse);
    assert_eq!((failed.moved, failed.failed, failed.message.as_deref()), (0, 1, Some("busy")));

    let not_a_file = |_dir: &str, _path: &str| false;
    let skipped = remove_one("/s", "a.jsonl", &not_a_file, &closed, &ok);
    assert_eq!((skipped.moved, skipped.failed), (0, 0));
}

#[test]
fn age_removal_rechecks_and_continues_after_a_failure() {
    let day = 86_400_000i64;
    let now = 40 * day;
    let list = |dir: &str, _format: RecordFormat| -> Result<SessionSourceScan, String> {
        Ok(SessionSourceScan {
            directory: dir.to_string(),
            status: SessionScanStatus::Ready,
            records: vec![
                record("old-a.jsonl", Some(0), false),
                record("old-b.jsonl", Some(0), false),
                record("recent.jsonl", Some(39 * day), false),
                record("busy.jsonl", Some(0), true),
                record("just-old.jsonl", Some(0), false),
            ],
            message: None,
        })
    };
    let check = |_dir: &str, _path: &str| true;
    let closed = |_path: &str| false;
    let latest = |path: &str, _format: RecordFormat| -> Option<i64> {
        if path.ends_with("just-old.jsonl") {
            Some(39 * day)
        } else {
            Some(0)
        }
    };
    let trash = |path: &str| -> Result<(), String> {
        if path.ends_with("old-a.jsonl") {
            Err("first failure".to_string())
        } else {
            Ok(())
        }
    };

    let result =
        remove_older_than("/s", 30, now, &list, &check, &closed, &latest, RecordFormat::Codex, &trash);

    assert_eq!(result.moved, 1);
    assert_eq!(result.failed, 1);
    assert_eq!(result.message.as_deref(), Some("first failure"));
    assert_eq!(removal_cutoff(now, 30), 10 * day);
    assert_eq!(removal_cutoff(i64::MIN, 1), i64::MIN);
}

#[test]
fn one_source_failure_keeps_the_other_source() {
    let list = |dir: &str, _format: RecordFormat| -> Result<SessionSourceScan, String> {
        if dir == "/broken" {
            Err("unreadable".to_string())
        } else {
            Ok(SessionSourceScan {
                directory: dir.to_string(),
                status: SessionScanStatus::Ready,
                records: vec![record("a.jsonl", Some(1), false)],
                message: None,
            })
        }
    };
    let scan = list_session_sources("/broken", "/fine", &list);
    assert_eq!(scan.codex.status, SessionScanStatus::Failed);
    assert_eq!(scan.codex.message.as_deref(), Some("unreadable"));
    assert_eq!(scan.claude.status, SessionScanStatus::Ready);
    assert_eq!(scan.claude.records.len(), 1);

    let failed = source_or_failure("/broken", &list, RecordFormat::Claude);
    assert_eq!(failed.directory, "/broken");
    let direct = failed_source("/d".to_string(), "m".to_string());
    assert_eq!(direct.status, SessionScanStatus::Failed);
    assert!(direct.records.is_empty());
}

fn session_line(timestamp: &str, kind: &str, payload: &str) -> String {
    format!(r#"{{"timestamp":"{timestamp}","type":"{kind}","payload":{payload}}}"#)
}

#[test]
fn codex_lines_give_title_directory_and_latest_activity() {
    let lines = vec![
        session_line(
            "2026-09-24T01:00:00Z",
            "session_meta",
            r#"{"cwd":"/work/package-manager","timestamp":"2026-09-24T00:00:00Z"}"#,
        ),
        session_line(
            "2026-09-24T02:00:00Z",
            "event_msg",
            r#"{"type":"user_message","message":"<environment_context>ignored</environment_context>"}"#,
        ),
        session_line(
            "2026-09-24T03:00:00.500Z",
            "response_item",
            r#"{"type":"message","role":"user","content":[{"text":"修一下登录"}]}"#,
        ),
        "not json".to_string(),
        String::new(),
    ];
    let parsed = parse_session_lines(&lines);
    assert_eq!(parsed.title.as_deref(), Some("修一下登录"));
    assert_eq!(parsed.working_directory.as_deref(), Some("/work/package-manager"));
    assert_eq!(parsed.last_activity_ms, parse_rfc3339_millis("2026-09-24T03:00:00.500Z"));

    let plain = parse_session_lines(&vec!["{}".to_string()]);
    assert_eq!(plain.title, None);
    assert_eq!(plain.working_directory, None);
    assert_eq!(plain.last_activity_ms, None);
}

#[test]
fn codex_lines_with_mistyped_fields_are_passed_over() {
    let lines = vec![
        r#"{"timestamp":5,"type":"event_msg","payload":{"type":"user_message","message":"hi"}}"#.to_string(),
        r#"{"timestamp":"2026-01-01T00:00:00Z","type":"event_msg","payload":{"type":"user_message","message":7}}"#
            .to_string(),
    ];
    let parsed = parse_session_lines(&lines);
    assert_eq!(parsed.title, None);
    assert_eq!(parsed.last_activity_ms, parse_rfc3339_millis("2026-01-01T00:00:00Z"));
}

#[test]
fn project_lines_prefer_the_ai_title_and_skip_side_chains() {
    let lines: Vec<String> = vec![
        r#"{"type":"user","timestamp":"2026-08-01T01:00:00Z","cwd":"/work/app","isSidechain":true,"message":{"content":[{"type":"text","text":"旁路"}]}}"#,
        r#"{"type":"user","timestamp":"2026-08-02T01:00:00Z","message":{"content":"<command-name>foo</command-name>"}}"#,
        r#"{"type":"user","timestamp":"2026-09-24T01:00:00Z","cwd":"/work/app","message":{"content":[{"type":"text","text":"看看日志"}]}}"#,
        r#"{"type":"ai-title","timestamp":"2026-09-24T03:00:00Z","aiTitle":"日志排查"}"#,
        r#"{"type":"assistant","timestamp":"2026-09-01T00:00:00Z"}"#,
    ]
    .into_iter()
    .map(String::from)
    .collect();
    let parsed = parse_claude_lines(&lines);
    assert_eq!(parsed.title.as_deref(), Some("日志排查"));
    assert_eq!(parsed.working_directory.as_deref(), Some("/work/app"));
    assert_eq!(parsed.last_activity_ms, parse_rfc3339_millis("2026-09-24T03:00:00Z"));

    let without_ai: Vec<String> = lines[..3].to_vec();
    assert_eq!(parse_claude_lines(&without_ai).title.as_deref(), Some("看看日志"));
}

#[test]
fn records_take_their_id_from_the_directory_and_fall_back_to_the_file_name() {
    let parsed = empty_parsed();
    let r = record_of("/s", "/s/2026/09/plain.jsonl", parsed, 3, false);
    assert_eq!(r.id, "2026/09/plain.jsonl");
    assert_eq!(r.title, "plain.jsonl");
    assert_eq!(r.bytes, 3);
    let titled = ParsedSession { title: Some("t".to_string()), working_directory: None, last_activity_ms: Some(1) };
    let r = record_of("/s", "/elsewhere/x.jsonl", titled, 1, true);
    assert_eq!(r.id, "/elsewhere/x.jsonl");
    assert_eq!(r.title, "t");
    assert!(r.in_use);
}

#[test]
fn only_week_and_month_old_records_can_be_removed_in_bulk() {
    assert_eq!(check_removal_age(7), Ok(7));
    assert_eq!(check_removal_age(30), Ok(30));
    assert_eq!(check_removal_age(1), Err("只支持移除 7 天前或 30 天前的会话记录".to_string()));
}

#[test]
fn single_removal_hands_a_regular_file_to_trash_for_either_source() {
    let trashed = std::cell::RefCell::new(Vec::new());
    let trash = |path: &str| -> Result<(), String> {
        trashed.borrow_mut().push(path.to_string());
        Ok(())
    };
    let regular = |_: &str, _: &str| true;
    let closed = |_: &str| false;

    let codex = remove_one("/home/sessions", "2026/09/24/chat.jsonl", &regular, &closed, &trash);
    assert_eq!(codex.moved, 1);
    assert_eq!(codex.failed, 0);
    let projects = remove_one("/home/projects/app", "chat.jsonl", &regular, &closed, &trash);
    assert_eq!(projects.moved, 1);
    assert_eq!(
        trashed.borrow().as_slice(),
        ["/home/sessions/2026/09/24/chat.jsonl".to_string(), "/home/projects/app/chat.jsonl".to_string()]
    );
}

#[test]
fn single_removal_leaves_symlinks_escapes_and_open_files() {
    let calls = std::cell::Cell::new(0);
    let counted = |_: &str| -> Result<(), String> {
        calls.set(calls.get() + 1);
        Ok(())
    };
    let regular_unless_alias = |_: &str, path: &str| !path.ends_with("alias.jsonl");

    let symlink_result = remove_one("/s", "alias.jsonl", &regular_unless_alias, &|_: &str| false, &counted);
    let escape = remove_one("/s", "../secret.jsonl", &regular_unless_alias, &|_: &str| false, &counted);
    let in_use = remove_one("/s", "chat.jsonl", &regular_unless_alias, &|_: &str| true, &counted);
    let trash_error = remove_one("/s", "chat.jsonl", &regular_unless_alias, &|_: &str| false, &|_: &str| {
        Err("废纸篓拒绝".to_string())
    });

    assert_eq!(calls.get(), 0);
    assert_eq!(symlink_result.moved, 0);
    assert_eq!(escape.moved, 0);
    assert_eq!(in_use.moved, 0);
    assert_eq!(trash_error.failed, 1);
    assert_eq!(trash_error.moved, 0);
    assert_eq!(trash_error.message.as_deref(), Some("废纸篓拒绝"));
}

#[test]
fn session_directories_follow_the_environment() {
    assert_eq!(codex_sessions_dir_from_env(Some("/opt/codex"), Some("/home/u")), Ok("/opt/codex/sessions".to_string()));
    assert_eq!(codex_sessions_dir_from_env(Some(""), Some("/home/u")), Ok("/home/u/.codex/sessions".to_string()));
    assert_eq!(codex_sessions_dir_from_env(Some("rel"), Some("/home/u")), Err("CODEX_HOME 必须是绝对路径".to_string()));
    assert_eq!(codex_sessions_dir_from_env(None, Some("home")), Err("无法确定当前用户的主目录".to_string()));
    assert_eq!(codex_sessions_dir_from_env(None, None), Err("无法确定当前用户的主目录".to_string()));
    assert_eq!(configured_projects_dir(Some("/cfg")), Some(Ok("/cfg/projects".to_string())));
    assert_eq!(configured_projects_dir(Some("cfg")), Some(Err("CLAUDE_CONFIG_DIR 必须是绝对路径".to_string())));
    assert_eq!(configured_projects_dir(Some("")), None);
    assert_eq!(configured_projects_dir(None), None);
}

#[test]
fn the_record_walk_follows_no_links_and_collects_jsonl_files() {
    assert_eq!(session_entry(true, true, false, "/s/dir"), SessionEntry::Skip);
    assert_eq!(session_entry(false, true, false, "/s/2025"), SessionEntry::Descend);
    assert_eq!(session_entry(false, false, true, "/s/a.jsonl"), SessionEntry::Collect);
    assert_eq!(session_entry(false, false, true, "/s/a.json"), SessionEntry::Skip);
    assert_eq!(session_entry(true, false, true, "/s/link.jsonl"), SessionEntry::Skip);
}

#[test]
fn record_directories_start_by_what_was_found() {
    let missing = start_source_scan("/s", DirectoryProbe::Missing).expect("missing");
    assert_eq!(missing.status, SessionScanStatus::Missing);
    assert_eq!(missing.directory, "/s");
    let link = start_source_scan("/s", DirectoryProbe::Symlink).expect("link");
    assert_eq!(link.status, SessionScanStatus::Ready);
    assert_eq!(link.message.as_deref(), Some("目录是符号链接，未跟随"));
    assert_eq!(start_source_scan("/s", DirectoryProbe::Unreadable("denied".to_string())).err(), Some("无法读取会话记录目录：denied".to_string()));
    assert_eq!(start_source_scan("/s", DirectoryProbe::NotDirectory).err(), Some("会话记录路径不是目录".to_string()));
    let mut dir = start_source_scan("/s", DirectoryProbe::Directory).expect("dir");
    assert!(dir.records.is_empty() && dir.message.is_none());
    note_partial_source(&mut dir, "部分 sessions 目录无法读取：", "denied");
    note_partial_source(&mut dir, "部分会话记录无法读取：", "later");
    assert_eq!(dir.status, SessionScanStatus::Partial);
    assert_eq!(dir.message.as_deref(), Some("部分 sessions 目录无法读取：denied"));
}
