//! Bun: global packages, the install root and cache, and the maintenance
//! command it offers. The scan runs read-only Bun commands only.
use crate::command::{
    answered_run, args3, args4, envelope, envelope_is, envelope_owned, lemma_log_extends,
    failures_grew, recorded_failure, run_recorded_command, run_recorded_stdout, str_views,
};
use crate::disk_usage::path_info;
use crate::path::{join, join_path};
use crate::scan_support::{
    empty_snapshot, expand_tilde, finish, finished_status, lemma_sorted_all, package_row,
    package_version_split, sort_rows_by_name, sorted_by_name, split_package_version,
    tilde_expansion, trimmed, unknown_text,
};
use crate::text::{
    contains_seq, lines, lines_of, owned, starts_with, str_contains, str_eq, str_starts_with, trim,
    trim_string, views, words, words_of,
};
use crate::types::{
    CommandFailure, CommandRun, DiskUsageStatus, ManagerId, ManagerSnapshot, PackageKind,
    PackageRow, PathInfo, PathKind,
};
use vstd::prelude::*;

verus! {

/// `BUN_INSTALL` when set and not blank, with `~` expanded; else `~/.bun`;
/// else the relative `.bun`.
pub open spec fn bun_install_spec(bun_install: Option<Seq<char>>, home: Option<Seq<char>>) -> Seq<
    char,
> {
    match bun_install {
        Some(v) if trim(v).len() > 0 => tilde_expansion(trim(v), home),
        _ => match home {
            Some(h) => join_path(h, ".bun"@),
            None => ".bun"@,
        },
    }
}

/// The Bun install root.
pub fn resolve_bun_install(bun_install: Option<&str>, home: Option<&str>) -> (r: String)
    ensures
        r@ == bun_install_spec(
            crate::cargo::opt_str_view(bun_install),
            crate::cargo::opt_str_view(home),
        ),
{
    if let Some(value) = bun_install {
        let v = trim_string(value);
        if !v.as_str().is_empty() {
            return expand_tilde(v.as_str(), home);
        }
    }
    match home {
        Some(h) => join(h, ".bun"),
        None => owned(".bun"),
    }
}

/// The first word that names a package: it holds `@` and is not a URL.
pub open spec fn first_package_token(ws: Seq<Seq<char>>) -> Option<Seq<char>>
    decreases ws.len(),
{
    if ws.len() == 0 {
        None
    } else if contains_seq(ws[0], "@"@) && !starts_with(ws[0], "http"@) {
        Some(ws[0])
    } else {
        first_package_token(ws.drop_first())
    }
}

/// A package line of `bun pm ls -g`: the first `name@version` word of a line
/// that is neither the root path nor a `bun ` banner.
pub open spec fn bun_line_spec(line: Seq<char>) -> Option<(Seq<char>, Seq<char>)> {
    let t = trim(line);
    if t.len() == 0 || starts_with(t, "/"@) || starts_with(t, "bun "@) {
        None
    } else {
        match first_package_token(words(t)) {
            Some(token) => {
                let (n, v) = package_version_split(token);
                if n.len() == 0 || v == unknown_text() {
                    None
                } else {
                    Some((n, v))
                }
            },
            None => None,
        }
    }
}

/// Parses a package line of `bun pm ls -g`.
pub fn parse_bun_global_package_line(line: &str) -> (r: Option<(String, String)>)
    ensures
        match r {
            Some((n, v)) => bun_line_spec(line@) == Some((n@, v@)),
            None => bun_line_spec(line@) is None,
        },
{
    let t = trim_string(line);
    if t.as_str().is_empty() || str_starts_with(t.as_str(), "/") || str_starts_with(
        t.as_str(),
        "bun ",
    ) {
        return None;
    }
    let ws = words_of(t.as_str());
    let ghost wv = words(t@);
    assert(wv.subrange(0, wv.len() as int) == wv);
    let mut k: usize = 0;
    while k < ws.len()
        invariant
            k <= ws@.len(),
            views(ws@) == wv,
            wv == words(t@),
            t@ == trim(line@),
            t@.len() > 0 && !starts_with(t@, "/"@) && !starts_with(t@, "bun "@),
            first_package_token(wv) == first_package_token(wv.subrange(k as int, wv.len() as int)),
        decreases ws@.len() - k,
    {
        assert(wv.subrange(k as int, wv.len() as int)[0] == wv[k as int]);
        assert(ws@[k as int]@ == wv[k as int]);
        if str_contains(ws[k].as_str(), "@") && !str_starts_with(ws[k].as_str(), "http") {
            assert(first_package_token(wv) == Some(wv[k as int]));
            let (name, version) = split_package_version(ws[k].as_str());
            let u = crate::scan_support::unknown();
            if name.as_str().is_empty() || str_eq(version.as_str(), u.as_str()) {
                return None;
            }
            return Some((name, version));
        }
        assert(wv.subrange(k as int, wv.len() as int).drop_first() == wv.subrange(
            k + 1,
            wv.len() as int,
        ));
        k = k + 1;
    }
    None
}

/// The packages of `bun pm ls -g`, in the order of their lines.
pub open spec fn bun_entries(ls: Seq<Seq<char>>) -> Seq<(Seq<char>, Seq<char>)>
    decreases ls.len(),
{
    if ls.len() == 0 {
        seq![]
    } else {
        let prior = bun_entries(ls.drop_last());
        match bun_line_spec(ls.last()) {
            Some(e) => prior.push(e),
            None => prior,
        }
    }
}

/// A row of a global Bun package, before any action: its binary lies under
/// the global bin directory.
pub open spec fn bun_row(row: PackageRow, e: (Seq<char>, Seq<char>), global_bin: Seq<char>) -> bool {
    &&& row.name@ == e.0
    &&& row.version@ == e.1
    &&& row.path matches Some(p) && p@ == join_path(global_bin, e.0)
    &&& row.source@ == "bun pm ls -g"@
    &&& row.kind == PackageKind::BunPackage
    &&& row.signals@.len() == 0
    &&& row.actions@.len() == 0
}

/// The global packages of `bun pm ls -g`, sorted by name.
pub fn parse_bun_global_packages(stdout: &str, global_bin: &str) -> (r: Vec<PackageRow>)
    ensures
        exists|u: Seq<PackageRow>|
            r@ == sorted_by_name(u) && u.len() == bun_entries(lines(stdout@)).len() && forall|
                i: int,
            | 0 <= i < u.len() ==> bun_row(#[trigger] u[i], bun_entries(lines(stdout@))[i], global_bin@),
{
    let ls = lines_of(stdout);
    let ghost lv = lines(stdout@);
    let mut rows: Vec<PackageRow> = Vec::new();
    let mut i: usize = 0;
    assert(lv.subrange(0, 0) =~= Seq::<Seq<char>>::empty());
    while i < ls.len()
        invariant
            i <= ls@.len(),
            views(ls@) == lv,
            lv == lines(stdout@),
            rows@.len() == bun_entries(lv.subrange(0, i as int)).len(),
            forall|k: int|
                0 <= k < rows@.len() ==> bun_row(
                    #[trigger] rows@[k],
                    bun_entries(lv.subrange(0, i as int))[k],
                    global_bin@,
                ),
        decreases ls@.len() - i,
    {
        assert(lv.subrange(0, i + 1).drop_last() == lv.subrange(0, i as int));
        assert(lv.subrange(0, i + 1).last() == lv[i as int]);
        assert(ls@[i as int]@ == lv[i as int]);
        match parse_bun_global_package_line(ls[i].as_str()) {
            Some((name, version)) => {
                let path = join(global_bin, name.as_str());
                rows.push(package_row(name, version, Some(path), "bun pm ls -g", PackageKind::BunPackage));
            },
            None => {},
        }
        i = i + 1;
    }
    assert(lv.subrange(0, lv.len() as int) == lv);
    let ghost unsorted = rows@;
    let sorted = sort_rows_by_name(rows);
    sorted
}

/// The actions Bun offers for a global package, after those it had:
/// `bun pm view <name>` and `bun remove --global <name>`.
pub open spec fn bun_actions_appended(old: PackageRow, new: PackageRow) -> bool {
    let n = old.actions@.len();
    &&& new.name == old.name
    &&& new.version == old.version
    &&& new.path == old.path
    &&& new.source == old.source
    &&& new.kind == old.kind
    &&& new.signals == old.signals
    &&& new.actions@.len() == n + 2
    &&& new.actions@.subrange(0, n as int) == old.actions@
    &&& envelope_is(new.actions@[n as int], "bun"@, seq!["pm"@, "view"@, old.name@], 0)
    &&& envelope_is(new.actions@[n as int + 1], "bun"@, seq!["remove"@, "--global"@, old.name@], 0)
}

/// Adds Bun's actions to every row.
pub fn attach_bun_actions(rows: &mut Vec<PackageRow>)
    ensures
        final(rows)@.len() == old(rows)@.len(),
        forall|i: int|
            0 <= i < old(rows)@.len() ==> bun_actions_appended(
                #[trigger] old(rows)@[i],
                final(rows)@[i],
            ),
{
    let ghost before = rows@;
    let mut i: usize = 0;
    while i < rows.len()
        invariant
            i <= rows@.len(),
            rows@.len() == before.len(),
            forall|k: int| 0 <= k < i ==> bun_actions_appended(#[trigger] before[k], rows@[k]),
            forall|k: int| i <= k < rows@.len() ==> #[trigger] rows@[k] == before[k],
        decreases rows@.len() - i,
    {
        let mut row = rows.remove(i);
        let ghost old_actions = row.actions@;
        let a = args3("pm", "view", row.name.as_str());
        let b = args3("remove", "--global", row.name.as_str());
        row.actions.push(envelope_owned("bun", a, 0));
        row.actions.push(envelope_owned("bun", b, 0));
        assert(row.actions@.subrange(0, old_actions.len() as int) =~= old_actions);
        rows.insert(i, row);
        i = i + 1;
    }
}

/// The read-only commands a Bun scan may run, with their budgets in seconds.
pub open spec fn bun_scan_command(program: Seq<char>, args: Seq<Seq<char>>, timeout: u64) -> bool {
    &&& program == "bun"@
    &&& {
        ||| args == seq!["--version"@] && timeout == 5
        ||| args == seq!["pm"@, "cache"@] && timeout == 5
        ||| args == bun_bin_args() && timeout == 5
        ||| args == seq!["pm"@, "ls"@, "-g"@] && timeout == 15
    }
}

pub open spec fn bun_cache_args() -> Seq<Seq<char>> {
    seq!["pm"@, "cache"@]
}

/// The command log of a Bun scan that found Bun: its four probes, then the
/// cache command it offers (`bun pm cache rm`).
pub open spec fn bun_full_log(c: Seq<crate::types::CommandEnvelope>) -> bool {
    &&& c.len() == 5
    &&& envelope_is(c[0], "bun"@, seq!["--version"@], 5000)
    &&& envelope_is(c[1], "bun"@, seq!["pm"@, "cache"@], 5000)
    &&& envelope_is(c[2], "bun"@, bun_bin_args(), 5000)
    &&& envelope_is(c[3], "bun"@, seq!["pm"@, "ls"@, "-g"@], 15000)
    &&& envelope_is(c[4], "bun"@, seq!["pm"@, "cache"@, "rm"@], 0)
}

/// A row of a Bun scan: a global package with `bun pm view` and
/// `bun remove --global`.
pub open spec fn bun_row_reported(row: PackageRow) -> bool {
    &&& row.kind == PackageKind::BunPackage
    &&& row.source@ == "bun pm ls -g"@
    &&& row.actions@.len() == 2
    &&& envelope_is(row.actions@[0], "bun"@, seq!["pm"@, "view"@, row.name@], 0)
    &&& envelope_is(row.actions@[1], "bun"@, seq!["remove"@, "--global"@, row.name@], 0)
}

pub open spec fn bun_row_parsed(row: PackageRow) -> bool {
    &&& row.kind == PackageKind::BunPackage
    &&& row.source@ == "bun pm ls -g"@
    &&& row.actions@.len() == 0
}

pub open spec fn bun_bin_args() -> Seq<Seq<char>> {
    seq!["pm"@, "bin"@, "-g"@]
}

pub open spec fn bun_list_args() -> Seq<Seq<char>> {
    seq!["pm"@, "ls"@, "-g"@]
}

/// `u` are the rows `bun pm ls -g` printed as `stdout`, in its order, with
/// paths under the global bin directory `bin`.
pub open spec fn bun_rows_of(u: Seq<PackageRow>, stdout: Seq<char>, bin: Seq<char>) -> bool {
    &&& u.len() == bun_entries(lines(stdout)).len()
    &&& forall|i: int| 0 <= i < u.len() ==> bun_row(#[trigger] u[i], bun_entries(lines(stdout))[i], bin)
}

/// The global bin directory a scan uses: what `bun pm bin -g` printed, or
/// `bin` under the install root `root` when it did not answer cleanly.
pub open spec fn bun_bin_probed<F: Fn(&str, &[String], u64) -> Result<CommandRun, CommandFailure>>(
    runner: F,
    root: Seq<char>,
    bin: Seq<char>,
) -> bool {
    exists|out: Result<CommandRun, CommandFailure>|
        #[trigger] answered_run(runner, "bun"@, bun_bin_args(), 5, out) && bin == match out {
            Ok(run) => if run.exit_code == Some(0i32) { trim(run.stdout@) } else { join_path(root, "bin"@) },
            Err(_) => join_path(root, "bin"@),
        }
}

/// The packages of a Bun scan come from `bun pm ls -g`: on a clean exit,
/// its rows (with paths under `bin`) sorted by name, each with its two
/// actions; otherwise none.
pub open spec fn bun_packages_listed<F: Fn(&str, &[String], u64) -> Result<CommandRun, CommandFailure>>(
    runner: F,
    bin: Seq<char>,
    packages: Seq<PackageRow>,
) -> bool {
    ||| exists|run: CommandRun, u: Seq<PackageRow>|
        #![trigger answered_run(runner, "bun"@, bun_list_args(), 15, Ok::<CommandRun, CommandFailure>(run)), bun_rows_of(u, run.stdout@, bin)]
        answered_run(runner, "bun"@, bun_list_args(), 15, Ok::<CommandRun, CommandFailure>(run))
            && run.exit_code == Some(0i32) && bun_rows_of(u, run.stdout@, bin) && packages.len() == u.len()
            && forall|k: int| 0 <= k < packages.len() ==> bun_actions_appended(sorted_by_name(u)[k], #[trigger] packages[k])
    ||| packages.len() == 0 && exists|out: Result<CommandRun, CommandFailure>|
        #[trigger] answered_run(runner, "bun"@, bun_list_args(), 15, out) && !crate::command::clean_exit(out)
}

/// Scans Bun: its version, the install root (from `bun_install`, the value
/// of `BUN_INSTALL`, or the home directory), the cache Bun reports (or the
/// one under the root), the global packages with their actions, and the
/// cache command it offers. Nothing else is probed once `bun --version`
/// fails.
pub fn scan_bun_with_runner_and_home<F>(
    runner: &F,
    home: Option<&str>,
    bun_install: Option<&str>,
) -> (r: ManagerSnapshot) where
    F: Fn(&str, &[String], u64) -> Result<CommandRun, CommandFailure>,

    requires
        forall|p: &str, a: &[String], t: u64|
            p@ == "bun"@ && views(a@) == seq!["--version"@] && t == 5 ==> #[trigger] runner.requires((p, a, t)),
        forall|p: &str, a: &[String], t: u64|
            bun_scan_command(p@, views(a@), t) && crate::command::version_answered(*runner, "bun"@) ==> #[trigger] runner.requires((p, a, t)),
    ensures
        r.id == ManagerId::Bun,
        r.label@ == "Bun"@,
        r.status == finished_status(r),
        r.commands@.len() >= 1,
        envelope_is(r.commands@[0], "bun"@, seq!["--version"@], 5000),
        r.version is None ==> r.commands@.len() == 1 && r.packages@.len() == 0 && r.paths@.len()
            == 0 && r.failures@.len() == 1 && exists|out: Result<CommandRun, CommandFailure>|
            #[trigger] answered_run(*runner, "bun"@, seq!["--version"@], 5, out)
                && recorded_failure(r.failures@[0], out, "Bun version probe failed"@),
        r.version matches Some(v) ==> (exists|run: CommandRun|
            #[trigger] answered_run(*runner, "bun"@, seq!["--version"@], 5, Ok(run))
                && run.exit_code == Some(0i32) && v@ == trim(run.stdout@)) && bun_full_log(
            r.commands@,
        ) && r.paths@.len() == 2 && r.paths@[0].kind == PathKind::BunInstall && r.paths@[0].label@
            == "Bun install"@ && r.paths@[0].path@ == bun_install_spec(
            crate::cargo::opt_str_view(bun_install),
            crate::cargo::opt_str_view(home),
        ) && r.paths@[1].kind == PathKind::BunCache && r.paths@[1].label@ == "Bun cache"@ && (
        r.paths@[1].path@ == join_path(r.paths@[0].path@, "install/cache"@) || exists|
            run: CommandRun,
        |
            #[trigger] answered_run(*runner, "bun"@, bun_cache_args(), 5, Ok(run))
                && run.exit_code == Some(0i32) && r.paths@[1].path@ == trim(run.stdout@)),
        forall|k: int| 0 <= k < r.packages@.len() ==> bun_row_reported(#[trigger] r.packages@[k]),
        r.version is Some ==> exists|bin: Seq<char>|
            #[trigger] bun_bin_probed(*runner, r.paths@[0].path@, bin) && bun_packages_listed(*runner, bin, r.packages@),
        r.version is Some ==> exists|f1: Seq<CommandFailure>, f2: Seq<CommandFailure>|
            #![trigger failures_grew(*runner, "bun"@, bun_bin_args(), 5, "Bun global bin lookup failed"@, f1, f2)]
            failures_grew(*runner, "bun"@, bun_cache_args(), 5, "Bun cache lookup failed"@, Seq::<CommandFailure>::empty(), f1)
                && failures_grew(*runner, "bun"@, bun_bin_args(), 5, "Bun global bin lookup failed"@, f1, f2)
                && failures_grew(*runner, "bun"@, bun_list_args(), 15, "Bun global package list failed"@, f2, r.failures@),
        r.homebrew is None && r.maven is None && r.pip is None && r.docker is None,
{
    let mut snapshot = empty_snapshot(ManagerId::Bun, "Bun");
    assert(str_views(["--version"]@) == seq!["--version"@]);
    let version_run = match run_recorded_command(
        &mut snapshot,
        runner,
        "bun",
        &["--version"],
        5,
        "Bun version probe failed",
    ) {
        Some(run) => run,
        None => {
            assert(snapshot.commands@ =~= seq![snapshot.commands@[0]]);
            return finish(snapshot);
        },
    };
    snapshot.version = Some(trimmed(version_run.stdout));
    let ghost f0 = snapshot.failures@;
    assert(f0 =~= Seq::<CommandFailure>::empty());
    let bun_root = resolve_bun_install(bun_install, home);
    snapshot.paths.push(path_info("Bun install", PathKind::BunInstall, bun_root.clone()));
    let ghost c1 = snapshot.commands@;
    assert(str_views(["pm", "cache"]@) == seq!["pm"@, "cache"@]);
    if let Some(cache) = run_recorded_stdout(
        &mut snapshot,
        runner,
        "bun",
        &["pm", "cache"],
        5,
        "Bun cache lookup failed",
    ) {
        proof {
            let run = choose|run: CommandRun|
                #[trigger] answered_run(*runner, "bun"@, bun_cache_args(), 5, Ok(run))
                    && run.exit_code == Some(0i32) && cache@ == trim(run.stdout@);
            assert(answered_run(*runner, "bun"@, bun_cache_args(), 5, Ok(run)));
        }
        snapshot.paths.push(path_info("Bun cache", PathKind::BunCache, cache));
    } else {
        let fallback = join(bun_root.as_str(), "install/cache");
        snapshot.paths.push(path_info("Bun cache", PathKind::BunCache, fallback));
    }
    proof { lemma_log_extends(c1, snapshot.commands@); }
    let ghost f1 = snapshot.failures@;
    let ghost c2 = snapshot.commands@;
    assert(str_views(["pm", "bin", "-g"]@) == bun_bin_args());
    let global_bin = match run_recorded_stdout(
        &mut snapshot,
        runner,
        "bun",
        &["pm", "bin", "-g"],
        5,
        "Bun global bin lookup failed",
    ) {
        Some(bin) => bin,
        None => join(bun_root.as_str(), "bin"),
    };
    let ghost f2 = snapshot.failures@;
    proof {
        lemma_log_extends(c2, snapshot.commands@);
        if f2.len() == f1.len() {
            let run = choose|run: CommandRun|
                #[trigger] answered_run(*runner, "bun"@, bun_bin_args(), 5, Ok(run))
                    && run.exit_code == Some(0i32) && global_bin@ == trim(run.stdout@);
            assert(answered_run(*runner, "bun"@, bun_bin_args(), 5, Ok::<CommandRun, CommandFailure>(run)));
        } else {
            let out = choose|out: Result<CommandRun, CommandFailure>|
                #[trigger] answered_run(*runner, "bun"@, bun_bin_args(), 5, out)
                    && recorded_failure(f2.last(), out, "Bun global bin lookup failed"@);
            assert(answered_run(*runner, "bun"@, bun_bin_args(), 5, out));
        }
        assert(bun_bin_probed(*runner, bun_root@, global_bin@));
    }
    let ghost c3 = snapshot.commands@;
    assert(str_views(["pm", "ls", "-g"]@) == seq!["pm"@, "ls"@, "-g"@]);
    let ghost list_av = str_views(["pm", "ls", "-g"]@);
    let ghost mut listed_u: Seq<PackageRow> = Seq::empty();
    let ghost mut listed_run: Option<CommandRun> = None;
    let listed = run_recorded_command(
        &mut snapshot,
        runner,
        "bun",
        &["pm", "ls", "-g"],
        15,
        "Bun global package list failed",
    );
    let ghost failures_after = snapshot.failures@;
    if let Some(run) = listed {
        let rows = parse_bun_global_packages(run.stdout.as_str(), global_bin.as_str());
        proof {
            let es = bun_entries(lines(run.stdout@));
            let u = choose|u: Seq<PackageRow>|
                rows@ == sorted_by_name(u) && u.len() == es.len() && forall|i: int|
                    0 <= i < u.len() ==> bun_row(#[trigger] u[i], es[i], global_bin@);
            assert forall|i: int| 0 <= i < u.len() implies #[trigger] bun_row_parsed(u[i]) by {
                assert(bun_row(u[i], es[i], global_bin@));
            }
            lemma_sorted_all(u, |row: PackageRow| bun_row_parsed(row));
            crate::scan_support::lemma_sorted_len(u);
            assert(bun_rows_of(u, run.stdout@, global_bin@));
            listed_u = u;
            listed_run = Some(run);
        }
        snapshot.packages = rows;
    }
    let ghost listed_v = listed;
    proof { lemma_log_extends(c3, snapshot.commands@); }
    let ghost before_actions = snapshot.packages@;
    attach_bun_actions(&mut snapshot.packages);
    assert forall|k: int| 0 <= k < snapshot.packages@.len() implies bun_row_reported(#[trigger] snapshot.packages@[k]) by {
        assert(bun_row_parsed(before_actions[k]));
        assert(bun_actions_appended(before_actions[k], snapshot.packages@[k]));
    }
    proof {
        match listed_v {
            Some(run) => {
                assert(listed_run == Some(run));
                assert(before_actions == sorted_by_name(listed_u));
                assert forall|k: int| 0 <= k < snapshot.packages@.len() implies bun_actions_appended(
                    sorted_by_name(listed_u)[k],
                    #[trigger] snapshot.packages@[k],
                ) by {
                    assert(bun_actions_appended(before_actions[k], snapshot.packages@[k]));
                }
                assert(answered_run(*runner, "bun"@, bun_list_args(), 15, Ok::<CommandRun, CommandFailure>(run)));
                assert(bun_rows_of(listed_u, run.stdout@, global_bin@));
            },
            None => {
                let out = choose|out: Result<CommandRun, CommandFailure>|
                    #[trigger] answered_run(*runner, "bun"@, list_av, 15, out)
                        && recorded_failure(failures_after.last(), out, "Bun global package list failed"@);
                assert(answered_run(*runner, "bun"@, bun_list_args(), 15, out));
            },
        }
        assert(bun_packages_listed(*runner, global_bin@, snapshot.packages@));
    }
    assert(failures_grew(*runner, "bun"@, bun_list_args(), 15, "Bun global package list failed"@, f2, snapshot.failures@));
    let ghost c4 = snapshot.commands@;
    snapshot.commands.push(envelope("bun", &["pm", "cache", "rm"], 0));
    proof {
        assert(snapshot.commands@.drop_last() =~= c4);
        lemma_log_extends(c4, snapshot.commands@);
    }
    assert(str_views(["pm", "cache", "rm"]@) == seq!["pm"@, "cache"@, "rm"@]);
    finish(snapshot)
}

} // verus!
