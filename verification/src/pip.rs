//! pip: the interpreter used for cleanup, and the parsers of pip's output.
use crate::command::{answered_run, command_failure, envelope_is, envelope_owned, parse_failure};
use crate::disk_usage::path_info;
use crate::json::{as_array_spec, as_str_spec, get_spec, json_document, json_get, json_string, parse_json, JsonValue, JsonView};
use crate::path::{join, join_path};
use crate::scan_support::{
    empty_snapshot, finish, finished_status, lemma_sorted_all, package_row, push_signal,
    sort_rows_by_name, sort_texts, sorted_by_name, sorted_texts, trimmed, unknown, with_signal,
};
use crate::text::{ascii_lower, contains_seq, owned, push_str, str_contains, str_starts_with, starts_with, trim, views};
use crate::types::{
    AsyncStatus, CommandFailure, CommandRun, FailureKind, ManagerId, ManagerSnapshot, PackageKind,
    PackageRow, PackageSignal, PathKind, PipCacheInfo, PipEnvironmentHealth, PipEnvironmentKind,
    PipOutdatedPreview,
};
use vstd::prelude::*;

verus! {

pub open spec fn no_python_text() -> Seq<char> {
    "python3 and python are not installed or are not on PATH"@
}

/// Which interpreter the probes chose: `python3` when `python3 --version`
/// exits with 0, else `python` when `python --version` does, else neither.
pub open spec fn python_resolved<F: Fn(&str, &[String], u64) -> Result<CommandRun, CommandFailure>>(
    runner: F,
    r: Result<Seq<char>, Seq<char>>,
) -> bool {
    exists|first: Result<CommandRun, CommandFailure>|
        #[trigger] answered_run(runner, "python3"@, seq!["--version"@], 5, first) && if crate::command::clean_exit(first) {
            r == Ok::<Seq<char>, Seq<char>>("python3"@)
        } else {
            exists|second: Result<CommandRun, CommandFailure>|
                #[trigger] answered_run(runner, "python"@, seq!["--version"@], 5, second) && if crate::command::clean_exit(
                    second,
                ) {
                    r == Ok::<Seq<char>, Seq<char>>("python"@)
                } else {
                    r == Err::<Seq<char>, Seq<char>>(no_python_text())
                }
        }
}

/// What a probe of the interpreter `py` gave: the trimmed output of a clean
/// run, or `fallback`.
pub open spec fn probed_or<F: Fn(&str, &[String], u64) -> Result<CommandRun, CommandFailure>>(
    runner: F,
    py: Seq<char>,
    args: Seq<Seq<char>>,
    fallback: Seq<char>,
    value: Seq<char>,
) -> bool {
    exists|out: Result<CommandRun, CommandFailure>|
        #[trigger] answered_run(runner, py, args, 5, out) && value == match out {
            Ok(run) => if run.exit_code == Some(0i32) { trim(run.stdout@) } else { fallback },
            Err(_) => fallback,
        }
}

pub open spec fn path_entry(o: Option<String>, label: Seq<char>, kind: PathKind) -> Seq<(Seq<char>, PathKind, String)> {
    match o {
        Some(p) => seq![(label, kind, p)],
        None => seq![],
    }
}

pub open spec fn path_entries(paths: Seq<crate::types::PathInfo>) -> Seq<(Seq<char>, PathKind, String)> {
    paths.map_values(|p: crate::types::PathInfo| (p.label@, p.kind, p.path))
}

/// The directories a pip scan reports, in order: the cache, site-packages
/// and the user site, each where it was found.
pub open spec fn pip_paths(
    paths: Seq<crate::types::PathInfo>,
    cache: Option<String>,
    site: Option<String>,
    user: Option<String>,
) -> bool {
    path_entries(paths) == path_entry(cache, "pip cache"@, PathKind::Cache) + path_entry(
        site,
        "site-packages"@,
        PathKind::SitePackages,
    ) + path_entry(user, "User site"@, PathKind::UserSite)
}

/// What a probe through `exe` gave: the trimmed output of a clean run, or
/// nothing.
pub open spec fn probed<F: Fn(&str, &[String], u64) -> Result<CommandRun, CommandFailure>>(
    runner: F,
    exe: Seq<char>,
    args: Seq<Seq<char>>,
    value: Option<Seq<char>>,
) -> bool {
    exists|out: Result<CommandRun, CommandFailure>|
        #[trigger] answered_run(runner, exe, args, 5, out) && value == match out {
            Ok(run) => if run.exit_code == Some(0i32) { Some(trim(run.stdout@)) } else { None },
            Err(_) => None,
        }
}

/// The failures of a pip scan once pip answered, as they grew command by
/// command: finding the interpreter `py` (`fd`), its version (`f1`), its
/// executable `exe` (`f2`), pip's version (`f3`), the package list, whose
/// output is refused when it is not a JSON array (`f4`), the cache directory
/// (`f5`), the cache summary (`f6`) and `pip inspect`, whose output is
/// refused when it is not JSON (`after`).
pub open spec fn pip_failure_chain<F: Fn(&str, &[String], u64) -> Result<CommandRun, CommandFailure>>(
    runner: F,
    py: Seq<char>,
    exe: Seq<char>,
    fd: Seq<CommandFailure>,
    f1: Seq<CommandFailure>,
    f2: Seq<CommandFailure>,
    f3: Seq<CommandFailure>,
    f4: Seq<CommandFailure>,
    f5: Seq<CommandFailure>,
    f6: Seq<CommandFailure>,
    after: Seq<CommandFailure>,
) -> bool {
    &&& interpreter_failures(runner, fd)
    &&& crate::command::failures_grew(runner, py, seq!["--version"@], 5, "Python version probe failed"@, fd, f1)
    &&& crate::command::failures_grew(
        runner,
        py,
        seq!["-c"@, "import sys; print(sys.executable)"@],
        5,
        "Python executable probe failed"@,
        f1,
        f2,
    )
    &&& crate::command::failures_grew(runner, exe, pip_args(0), 5, "pip version probe failed"@, f2, f3)
    &&& pip_list_added(runner, exe, f3, f4)
    &&& crate::command::failures_grew(runner, exe, pip_args(2), 5, "pip cache dir failed"@, f4, f5)
    &&& crate::command::failures_grew(runner, exe, pip_args(3), 5, "pip cache info failed"@, f5, f6)
    &&& pip_inspect_added(runner, exe, f6, after)
}

/// What `pip inspect --local` through `exe` gave the scan: on a clean run
/// of JSON, a ready status and the site and user-site directories its
/// installed items name; otherwise a failed status and neither.
pub open spec fn inspect_reported<F: Fn(&str, &[String], u64) -> Result<CommandRun, CommandFailure>>(
    runner: F,
    exe: Seq<char>,
    status: AsyncStatus,
    site: Option<String>,
    user: Option<String>,
) -> bool {
    exists|out: Result<CommandRun, CommandFailure>|
        #[trigger] answered_run(runner, exe, pip_args(4), 15, out) && match out {
            Ok(run) => if run.exit_code == Some(0i32) {
                match json_document(run.stdout@) {
                    None => status == AsyncStatus::Failed && site is None && user is None,
                    Some(doc) => status == AsyncStatus::Ready && match as_array_spec(get_spec(doc, "installed"@)) {
                        None => site is None && user is None,
                        Some(items) => exists|x: Seq<PipRowView>|
                            #[trigger] inspect_fold((x, None, None), items).1 == crate::text::opt_view(site)
                                && inspect_fold((x, None, None), items).2 == crate::text::opt_view(user),
                    },
                }
            } else {
                status == AsyncStatus::Failed && site is None && user is None
            },
            Err(_) => status == AsyncStatus::Failed && site is None && user is None,
        }
}

/// The interpreter a pip cleanup runs through: `python3` if it answers
/// `--version`, else `python`. It is resolved at the time of the cleanup and
/// never taken from a caller.
pub fn resolve_python_for_cleanup<F>(runner: &F) -> (r: Result<String, String>) where
    F: Fn(&str, &[String], u64) -> Result<CommandRun, CommandFailure>,

    requires
        forall|p: &str, a: &[String], t: u64|
            (p@ == "python3"@ || p@ == "python"@) && views(a@) == seq!["--version"@] && t == 5
                ==> #[trigger] runner.requires((p, a, t)),
    ensures
        r matches Ok(p) ==> p@ == "python3"@ || p@ == "python"@,
        r matches Err(m) ==> m@ == no_python_text(),
        python_resolved(
            *runner,
            match r {
                Ok(p) => Ok(p@),
                Err(m) => Err(m@),
            },
        ),
{
    let args = crate::command::args1("--version");
    let slice = args.as_slice();
    let first = runner("python3", slice, 5);
    assert(runner.ensures(("python3", slice, 5u64), first));
    assert(answered_run(*runner, "python3"@, seq!["--version"@], 5, first));
    if let Ok(run) = &first {
        if run.exit_code == Some(0i32) {
            return Ok(owned("python3"));
        }
    }
    let second = runner("python", slice, 5);
    assert(runner.ensures(("python", slice, 5u64), second));
    assert(answered_run(*runner, "python"@, seq!["--version"@], 5, second));
    if let Ok(run) = &second {
        if run.exit_code == Some(0i32) {
            return Ok(owned("python"));
        }
    }
    Err(owned("python3 and python are not installed or are not on PATH"))
}

/// A site directory of the user's own (`~/.local/...` or
/// `~/Library/Python/...`).
pub open spec fn user_site_spec(path: Seq<char>) -> bool {
    contains_seq(path, "/.local/"@) || contains_seq(path, "/Library/Python/"@)
}

/// Whether a site directory belongs to the user.
pub fn is_user_site(path: &str) -> (r: bool)
    ensures
        r == user_site_spec(path@),
{
    str_contains(path, "/.local/") || str_contains(path, "/Library/Python/")
}

/// The kind of environment a Python runs in: a virtual environment when one
/// is active or the interpreter lies in a `.venv`; the user's when its
/// packages live in a user site; the system's under `/usr/bin/` or
/// `/System/`.
pub open spec fn environment_spec(executable: Seq<char>, site_packages: Option<Seq<char>>, virtual_env: bool) -> PipEnvironmentKind {
    if virtual_env || contains_seq(executable, "/.venv/"@) {
        PipEnvironmentKind::VirtualEnv
    } else if site_packages is Some && user_site_spec(site_packages->0) {
        PipEnvironmentKind::User
    } else if starts_with(executable, "/usr/bin/"@) || starts_with(executable, "/System/"@) {
        PipEnvironmentKind::System
    } else {
        PipEnvironmentKind::Unknown
    }
}

/// With `VIRTUAL_ENV` set, the environment is a virtual one, whatever the
/// interpreter's path and site directory.
pub proof fn law_active_virtual_env_wins(executable: Seq<char>, site_packages: Option<Seq<char>>)
    ensures
        environment_spec(executable, site_packages, true) == PipEnvironmentKind::VirtualEnv,
{
}

/// An interpreter inside a `.venv` directory is a virtual environment even
/// when `VIRTUAL_ENV` is not set.
pub proof fn law_dot_venv_is_virtual(prefix: Seq<char>, suffix: Seq<char>, site_packages: Option<Seq<char>>, virtual_env: bool)
    ensures
        environment_spec(prefix + "/.venv/"@ + suffix, site_packages, virtual_env) == PipEnvironmentKind::VirtualEnv,
{
    let e = prefix + "/.venv/"@ + suffix;
    assert(e.subrange(prefix.len() as int, prefix.len() + "/.venv/"@.len() as int) =~= "/.venv/"@);
}

/// The kind of environment of `python_executable`; `virtual_env` says
/// whether `VIRTUAL_ENV` is set.
pub fn detect_pip_environment(python_executable: &str, site_packages: Option<&str>, virtual_env: bool) -> (r: PipEnvironmentKind)
    ensures
        r == environment_spec(python_executable@, crate::cargo::opt_str_view(site_packages), virtual_env),
{
    if virtual_env || str_contains(python_executable, "/.venv/") {
        return PipEnvironmentKind::VirtualEnv;
    }
    if let Some(site) = site_packages {
        if is_user_site(site) {
            return PipEnvironmentKind::User;
        }
    }
    if str_starts_with(python_executable, "/usr/bin/") || str_starts_with(python_executable, "/System/") {
        return PipEnvironmentKind::System;
    }
    PipEnvironmentKind::Unknown
}

/// `runner` answered `out` for `program args` with this budget.
pub open spec fn answered_owned<F: Fn(&str, &[String], u64) -> Result<CommandRun, CommandFailure>>(
    runner: F,
    program: Seq<char>,
    args: Seq<Seq<char>>,
    timeout_secs: u64,
    out: Result<CommandRun, CommandFailure>,
) -> bool {
    answered_run(runner, program, args, timeout_secs, out)
}

/// Runs `program args` without logging it and gives its trimmed output when
/// it exits with 0; otherwise records why it did not.
pub fn command_stdout_owned<F>(
    program: &str,
    args: Vec<String>,
    timeout_secs: u64,
    snapshot: &mut ManagerSnapshot,
    runner: &F,
    failure_message: &str,
) -> (r: Option<String>) where F: Fn(&str, &[String], u64) -> Result<CommandRun, CommandFailure>
    requires
        forall|a: &[String]| views(a@) == views(args@) ==> #[trigger] runner.requires((program, a, timeout_secs)),
    ensures
        crate::command::same_but_log(*old(snapshot), *final(snapshot)),
        final(snapshot).commands == old(snapshot).commands,
        exists|out: Result<CommandRun, CommandFailure>|
            #[trigger] answered_run(*runner, program@, views(args@), timeout_secs, out) && match out {
                Ok(run) => if run.exit_code == Some(0i32) {
                    r matches Some(s) && s@ == trim(run.stdout@) && final(snapshot).failures == old(snapshot).failures
                } else {
                    r is None && final(snapshot).failures@ == old(snapshot).failures@.push(
                        final(snapshot).failures@.last(),
                    ) && crate::command::recorded_failure(final(snapshot).failures@.last(), out, failure_message@)
                },
                Err(f) => r is None && final(snapshot).failures@ == old(snapshot).failures@.push(f),
            },
        crate::command::failures_grew(
            *runner,
            program@,
            views(args@),
            timeout_secs,
            failure_message@,
            old(snapshot).failures@,
            final(snapshot).failures@,
        ),
{
    let ghost before = snapshot.failures@;
    let slice = args.as_slice();
    let out = runner(program, slice, timeout_secs);
    assert(runner.ensures((program, slice, timeout_secs), out));
    let ghost answer = out;
    assert(answered_run(*runner, program@, views(args@), timeout_secs, answer));
    match out {
        Ok(run) => {
            if run.exit_code == Some(0i32) {
                assert(crate::command::added_since(before, snapshot.failures@) =~= Seq::<CommandFailure>::empty());
                assert(snapshot.failures@.subrange(0, before.len() as int) =~= before);
                Some(trimmed(run.stdout))
            } else {
                let f = command_failure(FailureKind::CommandFailed, failure_message, run);
                snapshot.failures.push(f);
                assert(crate::command::added_since(before, snapshot.failures@) =~= seq![snapshot.failures@.last()]);
                assert(snapshot.failures@.subrange(0, before.len() as int) =~= before);
                None
            }
        },
        Err(failure) => {
            snapshot.failures.push(failure);
            assert(crate::command::added_since(before, snapshot.failures@) =~= seq![snapshot.failures@.last()]);
            assert(snapshot.failures@.subrange(0, before.len() as int) =~= before);
            None
        },
    }
}

pub open spec fn no_python_failure(f: CommandFailure) -> bool {
    &&& f.kind == FailureKind::MissingBinary
    &&& f.message@ == no_python_text()
    &&& f.command is None
    &&& f.stdout@.len() == 0
    &&& f.stderr@.len() == 0
}

/// What an interpreter probe's answer adds to the failures: nothing for a
/// clean exit or a missing binary; otherwise its recorded failure.
pub open spec fn probe_adds(out: Result<CommandRun, CommandFailure>, added: Seq<CommandFailure>) -> bool {
    match out {
        Ok(run) => if run.exit_code == Some(0i32) {
            added.len() == 0
        } else {
            added.len() == 1 && crate::command::recorded_failure(added[0], out, "Python version probe failed"@)
        },
        Err(f) => if f.kind == FailureKind::MissingBinary {
            added.len() == 0
        } else {
            added == seq![f]
        },
    }
}

/// The failures that finding an interpreter added once one answered:
/// nothing when `python3` answered; otherwise what its probe added.
pub open spec fn interpreter_failures<F: Fn(&str, &[String], u64) -> Result<CommandRun, CommandFailure>>(
    runner: F,
    added: Seq<CommandFailure>,
) -> bool {
    exists|first: Result<CommandRun, CommandFailure>|
        #[trigger] answered_run(runner, "python3"@, seq!["--version"@], 5, first) && probe_adds(first, added)
}

/// The interpreter a pip scan runs through: `python3` if it answers
/// `--version`, else `python`. A failed probe other than a missing binary is
/// recorded; when neither answers, the missing interpreter is recorded.
pub fn detect_python<F>(runner: &F, snapshot: &mut ManagerSnapshot) -> (r: Option<String>) where
    F: Fn(&str, &[String], u64) -> Result<CommandRun, CommandFailure>,

    requires
        forall|p: &str, a: &[String], t: u64|
            (p@ == "python3"@ || p@ == "python"@) && views(a@) == seq!["--version"@] && t == 5
                ==> #[trigger] runner.requires((p, a, t)),
    ensures
        crate::command::same_but_log(*old(snapshot), *final(snapshot)),
        final(snapshot).commands == old(snapshot).commands,
        r matches Some(p) ==> (p@ == "python3"@ || p@ == "python"@),
        r is None ==> final(snapshot).failures@.len() >= old(snapshot).failures@.len() + 1
            && no_python_failure(final(snapshot).failures@.last()),
        final(snapshot).failures@.subrange(0, old(snapshot).failures@.len() as int) == old(snapshot).failures@,
        python_resolved(
            *runner,
            match r {
                Some(p) => Ok(p@),
                None => Err(no_python_text()),
            },
        ),
        r is Some ==> interpreter_failures(*runner, crate::command::added_since(old(snapshot).failures@, final(snapshot).failures@)),
{
    let ghost f0 = snapshot.failures@;
    let ghost mut first: Result<CommandRun, CommandFailure> = arbitrary();
    let ghost mut second: Result<CommandRun, CommandFailure> = arbitrary();
    let args = crate::command::args1("--version");
    let mut k: usize = 0;
    while k < 2
        invariant
            k <= 2,
            views(args@) == seq!["--version"@],
            crate::command::same_but_log(*old(snapshot), *snapshot),
            snapshot.commands == old(snapshot).commands,
            snapshot.failures@.len() >= f0.len(),
            snapshot.failures@.subrange(0, f0.len() as int) == f0,
            f0 == old(snapshot).failures@,
            forall|p: &str, a: &[String], t: u64|
                (p@ == "python3"@ || p@ == "python"@) && views(a@) == seq!["--version"@] && t == 5
                    ==> #[trigger] runner.requires((p, a, t)),
            k >= 1 ==> answered_run(*runner, "python3"@, seq!["--version"@], 5, first) && !crate::command::clean_exit(first),
            k >= 2 ==> answered_run(*runner, "python"@, seq!["--version"@], 5, second) && !crate::command::clean_exit(second),
            k == 0 ==> snapshot.failures@ == f0,
            k == 1 ==> probe_adds(first, crate::command::added_since(f0, snapshot.failures@)),
        decreases 2 - k,
    {
        let program = if k == 0 {
            "python3"
        } else {
            "python"
        };
        proof {
            reveal_strlit("python3");
            reveal_strlit("python");
        }
        let slice = args.as_slice();
        let out = runner(program, slice, 5);
        assert(runner.ensures((program, slice, 5u64), out));
        assert(slice@ == args@);
        assert(answered_run(*runner, program@, seq!["--version"@], 5, out));
        proof {
            if k == 0 {
                first = out;
            } else {
                second = out;
            }
        }
        let ghost before = snapshot.failures@;
        match out {
            Ok(run) => {
                if run.exit_code == Some(0i32) {
                    let ghost answer = Ok::<CommandRun, CommandFailure>(run);
                    assert(slice@ == args@);
                    assert(answered_run(*runner, program@, seq!["--version"@], 5, answer));
                    let chosen = owned(program);
                    assert(program@ == "python3"@ || program@ == "python"@);
                    assert(answered_run(*runner, chosen@, seq!["--version"@], 5, Ok(run)));
                    assert(run.exit_code == Some(0i32));
                    assert(exists|w: CommandRun| #[trigger] answered_run(*runner, chosen@, seq!["--version"@], 5, Ok(w)) && w.exit_code == Some(0i32));
                    assert(snapshot.failures@.subrange(0, f0.len() as int) =~= f0);
                    proof {
                        if k == 0 {
                            assert(crate::command::added_since(f0, snapshot.failures@) =~= Seq::<CommandFailure>::empty());
                            assert(probe_adds(answer, crate::command::added_since(f0, snapshot.failures@)));
                            assert(answered_run(*runner, "python3"@, seq!["--version"@], 5, answer));
                        } else {
                            assert(probe_adds(first, crate::command::added_since(f0, snapshot.failures@)));
                        }
                    }
                    assert(python_resolved(*runner, Ok::<Seq<char>, Seq<char>>(chosen@))) by {
                        assert(crate::command::clean_exit(answer));
                        if k == 0 {
                            assert(chosen@ == "python3"@);
                        } else {
                            assert(chosen@ == "python"@);
                            assert(answered_run(*runner, "python"@, seq!["--version"@], 5, answer));
                        }
                    }
                    return Some(chosen);
                }
                snapshot.failures.push(command_failure(FailureKind::CommandFailed, "Python version probe failed", run));
            },
            Err(failure) => {
                if failure.kind != FailureKind::MissingBinary {
                    snapshot.failures.push(failure);
                }
            },
        }
        assert(snapshot.failures@.subrange(0, f0.len() as int) =~= f0);
        proof {
            if k == 0 {
                assert(before =~= f0);
                if snapshot.failures@.len() == f0.len() {
                    assert(crate::command::added_since(f0, snapshot.failures@) =~= Seq::<CommandFailure>::empty());
                } else {
                    assert(crate::command::added_since(f0, snapshot.failures@) =~= seq![snapshot.failures@.last()]);
                }
            }
        }
        k = k + 1;
    }
    snapshot.failures.push(
        CommandFailure {
            kind: FailureKind::MissingBinary,
            message: owned("python3 and python are not installed or are not on PATH"),
            command: None,
            stdout: String::new(),
            stderr: String::new(),
        },
    );
    assert(snapshot.failures@.subrange(0, f0.len() as int) =~= f0);
    None
}

/// The distributions `pip list --format=json` lists: the items with a name,
/// with their version (`unknown` when absent).
pub open spec fn pip_entries(items: Seq<JsonView>) -> Seq<(Seq<char>, Seq<char>)>
    decreases items.len(),
{
    if items.len() == 0 {
        seq![]
    } else {
        let prior = pip_entries(items.drop_last());
        match as_str_spec(get_spec(items.last(), "name"@)) {
            Some(n) => prior.push(
                (
                    n,
                    match as_str_spec(get_spec(items.last(), "version"@)) {
                        Some(v) => v,
                        None => crate::scan_support::unknown_text(),
                    },
                ),
            ),
            None => prior,
        }
    }
}

/// A row of an installed distribution, before any action.
pub open spec fn pip_row(row: PackageRow, e: (Seq<char>, Seq<char>), executable: Seq<char>) -> bool {
    &&& row.name@ == e.0
    &&& row.version@ == e.1
    &&& row.path is None
    &&& row.source@ == executable + " -m pip list --format=json"@
    &&& row.kind == PackageKind::PythonDistribution
    &&& row.signals@.len() == 0
    &&& row.actions@.len() == 0
}

/// The distributions of a parsed `pip list --format=json` array, sorted by
/// name.
pub fn pip_list_from_json(value: &JsonValue, python_executable: &str) -> (r: Result<Vec<PackageRow>, String>)
    ensures
        match value.view() {
            JsonView::Array(items, _) => exists|u: Seq<PackageRow>|
                #[trigger] sorted_by_name(u) == r->Ok_0@ && r is Ok && u.len() == pip_entries(items).len() && forall|i: int|
                    0 <= i < u.len() ==> pip_row(#[trigger] u[i], pip_entries(items)[i], python_executable@),
            _ => r matches Err(m) && m@ == "pip list output was not an array"@,
        },
{
    let items = match value {
        JsonValue::Array(items, _) => items,
        _ => return Err(owned("pip list output was not an array")),
    };
    let ghost iv = crate::json::items_view(items@);
    proof {
        crate::json::lemma_items_view(items@);
    }
    let mut source = owned(python_executable);
    push_str(&mut source, " -m pip list --format=json");
    let mut rows: Vec<PackageRow> = Vec::new();
    let mut i: usize = 0;
    assert(iv.subrange(0, 0) =~= Seq::<JsonView>::empty());
    while i < items.len()
        invariant
            i <= items@.len(),
            iv == crate::json::items_view(items@),
            iv.len() == items@.len(),
            forall|j: int| 0 <= j < items@.len() ==> #[trigger] iv[j] == items@[j].view(),
            source@ == python_executable@ + " -m pip list --format=json"@,
            rows@.len() == pip_entries(iv.subrange(0, i as int)).len(),
            forall|k: int| 0 <= k < rows@.len() ==> pip_row(#[trigger] rows@[k], pip_entries(iv.subrange(0, i as int))[k], python_executable@),
        decreases items@.len() - i,
    {
        assert(iv.subrange(0, i + 1).drop_last() == iv.subrange(0, i as int));
        assert(iv.subrange(0, i + 1).last() == items@[i as int].view());
        match json_string(json_get(&items[i], "name")) {
            Some(name) => {
                let version = match json_string(json_get(&items[i], "version")) {
                    Some(v) => v,
                    None => unknown(),
                };
                rows.push(package_row(name, version, None, source.as_str(), PackageKind::PythonDistribution));
            },
            None => {},
        }
        i = i + 1;
    }
    assert(iv.subrange(0, iv.len() as int) == iv);
    let ghost unsorted = rows@;
    let sorted = sort_rows_by_name(rows);
    assert(sorted_by_name(unsorted) == sorted@);
    Ok(sorted)
}

/// The distributions of `pip list --format=json`, sorted by name.
pub fn parse_pip_list(stdout: &str, python_executable: &str) -> (r: Result<Vec<PackageRow>, String>)
    ensures
        match json_document(stdout@) {
            None => r is Err,
            Some(JsonView::Array(items, _)) => exists|u: Seq<PackageRow>|
                #[trigger] sorted_by_name(u) == r->Ok_0@ && r is Ok && u.len() == pip_entries(items).len() && forall|i: int|
                    0 <= i < u.len() ==> pip_row(#[trigger] u[i], pip_entries(items)[i], python_executable@),
            Some(_) => r matches Err(m) && m@ == "pip list output was not an array"@,
        },
{
    let value = parse_json(stdout)?;
    pip_list_from_json(&value, python_executable)
}

pub open spec fn named_only(items: Seq<JsonView>) -> Seq<Seq<char>>
    decreases items.len(),
{
    if items.len() == 0 {
        seq![]
    } else {
        let prior = named_only(items.drop_last());
        match as_str_spec(get_spec(items.last(), "name"@)) {
            Some(n) => prior.push(n),
            None => prior,
        }
    }
}

/// The sorted names of a parsed `pip list --outdated --format=json` array.
pub fn pip_outdated_from_json(value: &JsonValue) -> (r: Result<Vec<String>, String>)
    ensures
        match value.view() {
            JsonView::Array(items, _) => r matches Ok(names) && views(names@) == sorted_texts(named_only(items)),
            _ => r matches Err(m) && m@ == "pip outdated output was not an array"@,
        },
{
    let items = match value {
        JsonValue::Array(items, _) => items,
        _ => return Err(owned("pip outdated output was not an array")),
    };
    let ghost iv = crate::json::items_view(items@);
    proof {
        crate::json::lemma_items_view(items@);
    }
    let mut names: Vec<String> = Vec::new();
    let mut i: usize = 0;
    assert(iv.subrange(0, 0) =~= Seq::<JsonView>::empty());
    assert(views(names@) =~= Seq::<Seq<char>>::empty());
    while i < items.len()
        invariant
            i <= items@.len(),
            iv == crate::json::items_view(items@),
            iv.len() == items@.len(),
            forall|j: int| 0 <= j < items@.len() ==> #[trigger] iv[j] == items@[j].view(),
            views(names@) == named_only(iv.subrange(0, i as int)),
        decreases items@.len() - i,
    {
        assert(iv.subrange(0, i + 1).drop_last() == iv.subrange(0, i as int));
        assert(iv.subrange(0, i + 1).last() == items@[i as int].view());
        match json_string(json_get(&items[i], "name")) {
            Some(name) => {
                let ghost before = views(names@);
                names.push(name);
                assert(views(names@) =~= before.push(names@.last()@));
            },
            None => {},
        }
        i = i + 1;
    }
    assert(iv.subrange(0, iv.len() as int) == iv);
    Ok(sort_texts(names))
}

/// The names of `pip list --outdated --format=json`, sorted.
pub fn parse_pip_outdated(stdout: &str) -> (r: Result<Vec<String>, String>)
    ensures
        match json_document(stdout@) {
            None => r is Err,
            Some(JsonView::Array(items, _)) => r matches Ok(names) && views(names@) == sorted_texts(named_only(items)),
            Some(_) => r matches Err(m) && m@ == "pip outdated output was not an array"@,
        },
{
    let value = parse_json(stdout)?;
    pip_outdated_from_json(&value)
}

/// The actions pip offers for a distribution, after those it had: `show`,
/// `install --upgrade` and `uninstall`, run through `python_executable -m pip`.
pub open spec fn pip_actions_appended(old: PackageRow, new: PackageRow, exe: Seq<char>) -> bool {
    let n = old.actions@.len();
    &&& new.name == old.name
    &&& new.version == old.version
    &&& new.path == old.path
    &&& new.source == old.source
    &&& new.kind == old.kind
    &&& new.signals == old.signals
    &&& new.actions@.len() == n + 3
    &&& new.actions@.subrange(0, n as int) == old.actions@
    &&& envelope_is(new.actions@[n as int], exe, seq!["-m"@, "pip"@, "show"@, old.name@], 0)
    &&& envelope_is(new.actions@[n as int + 1], exe, seq!["-m"@, "pip"@, "install"@, "--upgrade"@, old.name@], 0)
    &&& envelope_is(new.actions@[n as int + 2], exe, seq!["-m"@, "pip"@, "uninstall"@, old.name@], 0)
}

/// Adds pip's actions to every row.
pub fn attach_pip_actions(rows: &mut Vec<PackageRow>, python_executable: &str)
    ensures
        final(rows)@.len() == old(rows)@.len(),
        forall|i: int|
            0 <= i < old(rows)@.len() ==> pip_actions_appended(#[trigger] old(rows)@[i], final(rows)@[i], python_executable@),
{
    let ghost before = rows@;
    let mut i: usize = 0;
    while i < rows.len()
        invariant
            i <= rows@.len(),
            rows@.len() == before.len(),
            forall|k: int| 0 <= k < i ==> pip_actions_appended(#[trigger] before[k], rows@[k], python_executable@),
            forall|k: int| i <= k < rows@.len() ==> #[trigger] rows@[k] == before[k],
        decreases rows@.len() - i,
    {
        let mut row = rows.remove(i);
        let ghost old_actions = row.actions@;
        let a = crate::command::args4("-m", "pip", "show", row.name.as_str());
        let b = crate::command::args5("-m", "pip", "install", "--upgrade", row.name.as_str());
        let c = crate::command::args4("-m", "pip", "uninstall", row.name.as_str());
        row.actions.push(envelope_owned(python_executable, a, 0));
        row.actions.push(envelope_owned(python_executable, b, 0));
        row.actions.push(envelope_owned(python_executable, c, 0));
        assert(row.actions@.subrange(0, old_actions.len() as int) =~= old_actions);
        rows.insert(i, row);
        i = i + 1;
    }
}

/// What `pip inspect` told about the environment's directories.
#[derive(Debug, Clone)]
pub struct PipInspectEnrichment {
    pub site_packages: Option<String>,
    pub user_site: Option<String>,
}

pub type PipRowView = (Seq<char>, Option<Seq<char>>, Seq<PackageSignal>);

/// What an inspection may change of a row: its path and its signals.
pub open spec fn pip_row_view(r: PackageRow) -> PipRowView {
    (r.name@, crate::text::opt_view(r.path), r.signals@)
}

pub open spec fn pip_rows_view(rows: Seq<PackageRow>) -> Seq<PipRowView> {
    rows.map_values(|r: PackageRow| pip_row_view(r))
}

/// The rows, the first location seen and the last user site seen.
pub type InspectState = (Seq<PipRowView>, Option<Seq<char>>, Option<Seq<char>>);

/// The name of an installed item: its metadata's name, else its own.
pub open spec fn inspect_item_name(item: JsonView) -> Option<Seq<char>> {
    match match get_spec(item, "metadata"@) {
        Some(m) => as_str_spec(get_spec(m, "name"@)),
        None => None,
    } {
        Some(n) => Some(n),
        None => as_str_spec(get_spec(item, "name"@)),
    }
}

/// The last row whose name, in ASCII lower case, is `lname`.
pub open spec fn last_named(rows: Seq<PipRowView>, lname: Seq<char>) -> int
    decreases rows.len(),
{
    if rows.len() == 0 {
        -1
    } else if ascii_lower(rows.last().0) == lname {
        rows.len() - 1
    } else {
        last_named(rows.drop_last(), lname)
    }
}

pub proof fn lemma_last_named_bounds(rows: Seq<PipRowView>, lname: Seq<char>)
    ensures
        -1 <= last_named(rows, lname) < rows.len(),
    decreases rows.len(),
{
    if rows.len() > 0 && ascii_lower(rows.last().0) != lname {
        lemma_last_named_bounds(rows.drop_last(), lname);
    }
}

/// One installed item of `pip inspect`: the row of the same name (case
/// aside) gets its path under the item's location, which also becomes the
/// site directory if none was seen, and the user site with its signal when
/// it is one; editable and direct-URL installs are marked.
pub open spec fn inspect_step(state: InspectState, item: JsonView) -> InspectState {
    match inspect_item_name(item) {
        None => state,
        Some(n) => {
            let k = last_named(state.0, ascii_lower(n));
            if k < 0 {
                state
            } else {
                let row = state.0[k];
                let loc = as_str_spec(get_spec(item, "location"@));
                let path = match loc {
                    Some(l) => Some(join_path(l, row.0)),
                    None => row.1,
                };
                let s1 = match loc {
                    Some(l) => if user_site_spec(l) {
                        with_signal(row.2, PackageSignal::UserSite)
                    } else {
                        row.2
                    },
                    None => row.2,
                };
                let s2 = if as_str_spec(get_spec(item, "editable_project_location"@)) is Some {
                    with_signal(s1, PackageSignal::Editable)
                } else {
                    s1
                };
                let s3 = if get_spec(item, "direct_url"@) is Some {
                    with_signal(s2, PackageSignal::DirectUrl)
                } else {
                    s2
                };
                let site = match loc {
                    Some(l) => if state.1 is None {
                        Some(l)
                    } else {
                        state.1
                    },
                    None => state.1,
                };
                let user = match loc {
                    Some(l) => if user_site_spec(l) {
                        Some(l)
                    } else {
                        state.2
                    },
                    None => state.2,
                };
                (state.0.update(k, (row.0, path, s3)), site, user)
            }
        },
    }
}

pub open spec fn inspect_fold(start: InspectState, items: Seq<JsonView>) -> InspectState
    decreases items.len(),
{
    if items.len() == 0 {
        start
    } else {
        inspect_step(inspect_fold(start, items.drop_last()), items.last())
    }
}

pub open spec fn same_but_inspected(a: PackageRow, b: PackageRow) -> bool {
    &&& a.name == b.name
    &&& a.version == b.version
    &&& a.source == b.source
    &&& a.kind == b.kind
    &&& a.actions == b.actions
}

fn last_named_index(rows: &Vec<PackageRow>, lname: &str) -> (r: Option<usize>)
    ensures
        match r {
            Some(k) => last_named(pip_rows_view(rows@), lname@) == k as int,
            None => last_named(pip_rows_view(rows@), lname@) == -1,
        },
{
    let ghost v = pip_rows_view(rows@);
    let mut i: usize = rows.len();
    assert(v.subrange(0, v.len() as int) == v);
    while i > 0
        invariant
            i <= rows@.len(),
            v == pip_rows_view(rows@),
            v.len() == rows@.len(),
            last_named(v, lname@) == last_named(v.subrange(0, i as int), lname@),
        decreases i,
    {
        let lower = crate::text::ascii_lowercase(rows[i - 1].name.as_str());
        let ghost sub = v.subrange(0, i as int);
        assert(sub.last() == v[i - 1]);
        assert(v[i - 1].0 == rows@[i - 1].name@);
        if crate::text::str_eq(lower.as_str(), lname) {
            return Some(i - 1);
        }
        assert(sub.drop_last() == v.subrange(0, i - 1));
        i = i - 1;
    }
    None
}

/// Merges a parsed `pip inspect --local` document into the listed rows (see
/// `enrich_pip_from_inspect`).
#[verifier::rlimit(60)]
pub fn enrich_pip_from_inspect_json(rows: &mut Vec<PackageRow>, value: &JsonValue) -> (r: PipInspectEnrichment)
    ensures
        final(rows)@.len() == old(rows)@.len(),
        forall|i: int| 0 <= i < old(rows)@.len() ==> same_but_inspected(#[trigger] old(rows)@[i], final(rows)@[i]),
        match as_array_spec(get_spec(value.view(), "installed"@)) {
            None => final(rows)@ == old(rows)@ && r.site_packages is None && r.user_site is None,
            Some(items) => {
                let out = inspect_fold((pip_rows_view(old(rows)@), None, None), items);
                &&& pip_rows_view(final(rows)@) == out.0
                &&& crate::text::opt_view(r.site_packages) == out.1
                &&& crate::text::opt_view(r.user_site) == out.2
            },
        },
{
    let mut enrichment = PipInspectEnrichment { site_packages: None, user_site: None };
    let items = match json_get(value, "installed") {
        Some(JsonValue::Array(items, _)) => items,
        _ => return enrichment,
    };
    let ghost iv = crate::json::items_view(items@);
    proof {
        crate::json::lemma_items_view(items@);
    }
    let ghost start: InspectState = (pip_rows_view(rows@), None, None);
    let ghost before = rows@;
    let mut i: usize = 0;
    assert(iv.subrange(0, 0) =~= Seq::<JsonView>::empty());
    while i < items.len()
        invariant
            i <= items@.len(),
            iv == crate::json::items_view(items@),
            iv.len() == items@.len(),
            forall|j: int| 0 <= j < items@.len() ==> #[trigger] iv[j] == items@[j].view(),
            rows@.len() == before.len(),
            forall|k: int| 0 <= k < before.len() ==> same_but_inspected(#[trigger] before[k], rows@[k]),
            inspect_fold(start, iv.subrange(0, i as int)) == (
                pip_rows_view(rows@),
                crate::text::opt_view(enrichment.site_packages),
                crate::text::opt_view(enrichment.user_site),
            ),
        decreases items@.len() - i,
    {
        assert(iv.subrange(0, i + 1).drop_last() == iv.subrange(0, i as int));
        assert(iv.subrange(0, i + 1).last() == items@[i as int].view());
        let item = &items[i];
        let meta_name = match json_get(item, "metadata") {
            Some(m) => json_string(json_get(m, "name")),
            None => None,
        };
        let name = match meta_name {
            Some(n) => Some(n),
            None => json_string(json_get(item, "name")),
        };
        if let Some(name) = name {
            let lname = crate::text::ascii_lowercase(name.as_str());
            if let Some(k) = last_named_index(rows, lname.as_str()) {
                let ghost v0 = pip_rows_view(rows@);
                let ghost before_rows = rows@;
                proof {
                    lemma_last_named_bounds(v0, lname@);
                }
                assert(v0.len() == rows@.len());
                let mut row = rows.remove(k);
                let location = json_string(json_get(item, "location"));
                if let Some(loc) = location {
                    row.path = Some(join(loc.as_str(), row.name.as_str()));
                    if enrichment.site_packages.is_none() {
                        enrichment.site_packages = Some(loc.clone());
                    }
                    if is_user_site(loc.as_str()) {
                        enrichment.user_site = Some(loc);
                        push_signal(&mut row, PackageSignal::UserSite);
                    }
                }
                let editable = json_string(json_get(item, "editable_project_location"));
                if editable.is_some() {
                    push_signal(&mut row, PackageSignal::Editable);
                }
                if json_get(item, "direct_url").is_some() {
                    push_signal(&mut row, PackageSignal::DirectUrl);
                }
                rows.insert(k, row);
                assert(rows@ =~= before_rows.update(k as int, rows@[k as int]));
                assert(pip_rows_view(rows@) =~= v0.update(k as int, pip_row_view(rows@[k as int])));
            }
        }
        i = i + 1;
    }
    assert(iv.subrange(0, iv.len() as int) == iv);
    enrichment
}

/// Enriches the rows from `pip inspect --local`: paths under each item's
/// location, user-site, editable and direct-URL signals, and the site and
/// user-site directories seen; serde_json's message when the output is not
/// JSON.
#[verifier::rlimit(60)]
pub fn enrich_pip_from_inspect(rows: &mut Vec<PackageRow>, stdout: &str) -> (r: Result<PipInspectEnrichment, String>)
    ensures
        final(rows)@.len() == old(rows)@.len(),
        forall|i: int| 0 <= i < old(rows)@.len() ==> same_but_inspected(#[trigger] old(rows)@[i], final(rows)@[i]),
        match json_document(stdout@) {
            None => r is Err && final(rows)@ == old(rows)@,
            Some(doc) => r matches Ok(e) && match as_array_spec(get_spec(doc, "installed"@)) {
                None => final(rows)@ == old(rows)@ && e.site_packages is None && e.user_site is None,
                Some(items) => {
                    let out = inspect_fold((pip_rows_view(old(rows)@), None, None), items);
                    &&& pip_rows_view(final(rows)@) == out.0
                    &&& crate::text::opt_view(e.site_packages) == out.1
                    &&& crate::text::opt_view(e.user_site) == out.2
                },
            },
        },
{
    let value = parse_json(stdout)?;
    Ok(enrich_pip_from_inspect_json(rows, &value))
}

pub open spec fn pip_outdated_args() -> Seq<Seq<char>> {
    seq!["-m"@, "pip"@, "list"@, "--outdated"@, "--format=json"@]
}

/// Asks pip which distributions are outdated, through `python_executable`.
pub fn hydrate_pip_outdated_with_runner<F>(python_executable: &str, runner: &F) -> (r: PipOutdatedPreview) where
    F: Fn(&str, &[String], u64) -> Result<CommandRun, CommandFailure>,

    requires
        forall|a: &[String]| views(a@) == pip_outdated_args() ==> #[trigger] runner.requires((python_executable, a, 30u64)),
    ensures
        envelope_is(r.command, python_executable@, pip_outdated_args(), 30000),
        exists|out: Result<CommandRun, CommandFailure>|
            #[trigger] answered_run(*runner, python_executable@, pip_outdated_args(), 30, out) && match out {
                Ok(run) => if run.exit_code == Some(0i32) {
                    match json_document(run.stdout@) {
                        Some(JsonView::Array(items, _)) => r.status == AsyncStatus::Ready && views(r.outdated@)
                            == sorted_texts(named_only(items)) && r.message is None && r.failure is None,
                        _ => r.status == AsyncStatus::Failed && r.outdated@.len() == 0 && (r.failure matches Some(f)
                            && f.kind == FailureKind::ParseFailure && r.message == Some(f.message)),
                    }
                } else {
                    r.status == AsyncStatus::Failed && r.outdated@.len() == 0 && (r.failure matches Some(f)
                        && f.kind == FailureKind::CommandFailed && f.message@ == "pip outdated failed"@
                        && r.message == Some(f.message))
                },
                Err(f) => r.status == AsyncStatus::Failed && r.outdated@.len() == 0 && r.failure == Some(f)
                    && r.message == Some(f.message),
            },
{
    let args = crate::command::args5("-m", "pip", "list", "--outdated", "--format=json");
    let slice = args.as_slice();
    let out = runner(python_executable, slice, 30);
    assert(runner.ensures((python_executable, slice, 30u64), out));
    let ghost answer = out;
    assert(answered_run(*runner, python_executable@, pip_outdated_args(), 30, answer));
    let command = envelope_owned(python_executable, crate::command::copy_strings(&args), 30_000);
    match out {
        Ok(run) => {
            if run.exit_code == Some(0i32) {
                match parse_pip_outdated(run.stdout.as_str()) {
                    Ok(outdated) => PipOutdatedPreview {
                        status: AsyncStatus::Ready,
                        command,
                        outdated,
                        message: None,
                        failure: None,
                    },
                    Err(message) => PipOutdatedPreview {
                        status: AsyncStatus::Failed,
                        command,
                        outdated: Vec::new(),
                        message: Some(message.clone()),
                        failure: Some(parse_failure(message, run)),
                    },
                }
            } else {
                let failure = command_failure(FailureKind::CommandFailed, "pip outdated failed", run);
                PipOutdatedPreview {
                    status: AsyncStatus::Failed,
                    command,
                    outdated: Vec::new(),
                    message: Some(failure.message.clone()),
                    failure: Some(failure),
                }
            }
        },
        Err(failure) => PipOutdatedPreview {
            status: AsyncStatus::Failed,
            command,
            outdated: Vec::new(),
            message: Some(failure.message.clone()),
            failure: Some(failure),
        },
    }
}

pub open spec fn pip_exe_probe_args() -> Seq<Seq<char>> {
    seq!["-c"@, "import sys; print(sys.executable)"@]
}

/// The `-m pip` arguments of a scan: version, list, cache dir, cache info
/// and inspect.
pub open spec fn pip_args(i: int) -> Seq<Seq<char>> {
    if i == 0 {
        seq!["-m"@, "pip"@, "--version"@]
    } else if i == 1 {
        seq!["-m"@, "pip"@, "list"@, "--format=json"@]
    } else if i == 2 {
        seq!["-m"@, "pip"@, "cache"@, "dir"@]
    } else if i == 3 {
        seq!["-m"@, "pip"@, "cache"@, "info"@]
    } else {
        seq!["-m"@, "pip"@, "inspect"@, "--local"@]
    }
}

/// The read-only commands a pip scan may run, with their budgets in
/// seconds: interpreter probes through `python3` or `python`, and the read
/// only pip commands through the interpreter they report.
pub open spec fn pip_scan_command(program: Seq<char>, args: Seq<Seq<char>>, timeout: u64) -> bool {
    ||| (program == "python3"@ || program == "python"@) && args == seq!["--version"@] && timeout == 5
    ||| (program == "python3"@ || program == "python"@) && args == pip_exe_probe_args() && timeout == 5
    ||| args == pip_args(0) && timeout == 5
    ||| args == pip_args(1) && timeout == 15
    ||| args == pip_args(2) && timeout == 5
    ||| args == pip_args(3) && timeout == 5
    ||| args == pip_args(4) && timeout == 15
}

/// A row of a pip scan: an installed distribution with pip's actions through
/// the scanned interpreter.
pub open spec fn pip_row_reported(row: PackageRow, exe: Seq<char>) -> bool {
    &&& row.kind == PackageKind::PythonDistribution
    &&& row.source@ == exe + " -m pip list --format=json"@
    &&& row.actions@.len() == 3
    &&& envelope_is(row.actions@[0], exe, seq!["-m"@, "pip"@, "show"@, row.name@], 0)
    &&& envelope_is(row.actions@[1], exe, seq!["-m"@, "pip"@, "install"@, "--upgrade"@, row.name@], 0)
    &&& envelope_is(row.actions@[2], exe, seq!["-m"@, "pip"@, "uninstall"@, row.name@], 0)
}

/// The rows of a clean `pip list --format=json` run whose output is an array:
/// one per named distribution, in the order the output gives them.
pub open spec fn pip_rows_of(u: Seq<PackageRow>, stdout: Seq<char>, exe: Seq<char>) -> bool {
    json_document(stdout) matches Some(JsonView::Array(items, _)) && u.len() == pip_entries(items).len()
        && forall|i: int| 0 <= i < u.len() ==> pip_row(#[trigger] u[i], pip_entries(items)[i], exe)
}

/// The packages of a pip scan come from `pip list --format=json` through the
/// scanned interpreter: on a clean exit with an array, its distributions
/// sorted by name (by name and version, whatever `pip inspect` added);
/// otherwise none.
pub open spec fn pip_packages_listed<F: Fn(&str, &[String], u64) -> Result<CommandRun, CommandFailure>>(
    runner: F,
    exe: Seq<char>,
    packages: Seq<PackageRow>,
) -> bool {
    ||| exists|run: CommandRun, u: Seq<PackageRow>|
        #![trigger answered_run(runner, exe, pip_args(1), 15, Ok::<CommandRun, CommandFailure>(run)), pip_rows_of(u, run.stdout@, exe)]
        answered_run(runner, exe, pip_args(1), 15, Ok::<CommandRun, CommandFailure>(run))
            && run.exit_code == Some(0i32) && pip_rows_of(u, run.stdout@, exe) && packages.len() == u.len()
            && forall|k: int| 0 <= k < packages.len() ==> #[trigger] packages[k].name == sorted_by_name(u)[k].name
                && packages[k].version == sorted_by_name(u)[k].version
    ||| packages.len() == 0 && exists|run: CommandRun|
        #[trigger] answered_run(runner, exe, pip_args(1), 15, Ok::<CommandRun, CommandFailure>(run))
            && run.exit_code == Some(0i32) && !(json_document(run.stdout@) is Some && json_document(run.stdout@)->0 is Array)
    ||| packages.len() == 0 && exists|out: Result<CommandRun, CommandFailure>|
        #[trigger] answered_run(runner, exe, pip_args(1), 15, out) && !crate::command::clean_exit(out)
}

proof fn lemma_pip_listed_keeps<F: Fn(&str, &[String], u64) -> Result<CommandRun, CommandFailure>>(
    runner: F,
    exe: Seq<char>,
    a: Seq<PackageRow>,
    b: Seq<PackageRow>,
)
    requires
        pip_packages_listed(runner, exe, a),
        a.len() == b.len(),
        forall|k: int| 0 <= k < b.len() ==> #[trigger] b[k].name == a[k].name && b[k].version == a[k].version,
    ensures
        pip_packages_listed(runner, exe, b),
{
    if a.len() == 0 {
        assert(b =~= a);
    } else {
        let (run, u) = choose|run: CommandRun, u: Seq<PackageRow>|
            answered_run(runner, exe, pip_args(1), 15, Ok::<CommandRun, CommandFailure>(run))
                && run.exit_code == Some(0i32) && pip_rows_of(u, run.stdout@, exe) && a.len() == u.len()
                && forall|k: int| 0 <= k < a.len() ==> #[trigger] a[k].name == sorted_by_name(u)[k].name
                    && a[k].version == sorted_by_name(u)[k].version;
        assert forall|k: int| 0 <= k < b.len() implies #[trigger] b[k].name == sorted_by_name(u)[k].name
            && b[k].version == sorted_by_name(u)[k].version by {
            assert(a[k].name == sorted_by_name(u)[k].name);
        }
    }
}

pub open spec fn pip_row_listed(row: PackageRow, exe: Seq<char>) -> bool {
    &&& row.kind == PackageKind::PythonDistribution
    &&& row.source@ == exe + " -m pip list --format=json"@
    &&& row.actions@.len() == 0
}

/// The commands a pip scan logs once pip answered: list, cache dir, cache
/// info and inspect, through the scanned interpreter.
pub open spec fn pip_log(c: Seq<crate::types::CommandEnvelope>, exe: Seq<char>) -> bool {
    &&& c.len() == 4
    &&& envelope_is(c[0], exe, pip_args(1), 15000)
    &&& envelope_is(c[1], exe, pip_args(2), 5000)
    &&& envelope_is(c[2], exe, pip_args(3), 5000)
    &&& envelope_is(c[3], exe, pip_args(4), 15000)
}

/// What the package list added to the failures: nothing for a clean run
/// whose output is a JSON array; a parse failure for another clean run;
/// otherwise the failure recorded for the answer.
pub open spec fn pip_list_added<F: Fn(&str, &[String], u64) -> Result<CommandRun, CommandFailure>>(
    runner: F,
    exe: Seq<char>,
    before: Seq<CommandFailure>,
    after: Seq<CommandFailure>,
) -> bool {
    &&& crate::command::extends(before, after)
    &&& exists|out: Result<CommandRun, CommandFailure>|
        #[trigger] answered_run(runner, exe, pip_args(1), 15, out) && crate::command::parsed_adds(
            out,
            "pip package list failed"@,
            crate::command::clean_exit(out) && !(json_document(out->Ok_0.stdout@) is Some
                && json_document(out->Ok_0.stdout@)->0 is Array),
            crate::command::added_since(before, after),
        )
}

/// What `pip inspect --local` added to the failures: nothing for a clean
/// run of JSON; a parse failure for another clean run; otherwise the
/// failure recorded for the answer.
pub open spec fn pip_inspect_added<F: Fn(&str, &[String], u64) -> Result<CommandRun, CommandFailure>>(
    runner: F,
    exe: Seq<char>,
    before: Seq<CommandFailure>,
    after: Seq<CommandFailure>,
) -> bool {
    &&& crate::command::extends(before, after)
    &&& exists|out: Result<CommandRun, CommandFailure>|
        #[trigger] answered_run(runner, exe, pip_args(4), 15, out) && crate::command::parsed_adds(
            out,
            "pip inspect failed"@,
            crate::command::clean_exit(out) && json_document(out->Ok_0.stdout@) is None,
            crate::command::added_since(before, after),
        )
}

/// Runs `pip inspect --local` through `exe` and merges what it says into
/// the listed rows: the status of the inspection and the site and user-site
/// directories it names.
fn pip_inspect_step<F>(snapshot: &mut ManagerSnapshot, runner: &F, exe: &str) -> (r: (AsyncStatus, Option<String>, Option<String>)) where
    F: Fn(&str, &[String], u64) -> Result<CommandRun, CommandFailure>,
    requires
        forall|a: &[String]| views(a@) == pip_args(4) ==> #[trigger] runner.requires((exe, a, 15u64)),
    ensures
        final(snapshot).id == old(snapshot).id,
        final(snapshot).label == old(snapshot).label,
        final(snapshot).status == old(snapshot).status,
        final(snapshot).version == old(snapshot).version,
        final(snapshot).paths == old(snapshot).paths,
        final(snapshot).commands == old(snapshot).commands,
        final(snapshot).unsupported_reason == old(snapshot).unsupported_reason,
        final(snapshot).homebrew == old(snapshot).homebrew,
        final(snapshot).maven == old(snapshot).maven,
        final(snapshot).pip == old(snapshot).pip,
        final(snapshot).docker == old(snapshot).docker,
        final(snapshot).packages@.len() == old(snapshot).packages@.len(),
        forall|k: int| 0 <= k < old(snapshot).packages@.len() ==> same_but_inspected(#[trigger] old(snapshot).packages@[k], final(snapshot).packages@[k]),
        pip_inspect_added(*runner, exe@, old(snapshot).failures@, final(snapshot).failures@),
        inspect_reported(*runner, exe@, r.0, r.1, r.2),
{
    let mut inspect_status = AsyncStatus::Ready;
    let mut site_packages: Option<String> = None;
    let mut user_site: Option<String> = None;
    let inspect_args = crate::command::args4("-m", "pip", "inspect", "--local");
    let inspect_slice = inspect_args.as_slice();
    let ghost listed = snapshot.packages@;
    let ghost f6 = snapshot.failures@;
    let inspect_out = runner(exe, inspect_slice, 15);
    assert(views(inspect_slice@) == pip_args(4));
    assert(answered_run(*runner, exe@, pip_args(4), 15, inspect_out));
    let ghost io = inspect_out;
    match inspect_out {
        Ok(run) => {
            if run.exit_code == Some(0i32) {
                match enrich_pip_from_inspect(&mut snapshot.packages, run.stdout.as_str()) {
                    Ok(enrichment) => {
                        site_packages = enrichment.site_packages;
                        user_site = enrichment.user_site;
                    },
                    Err(message) => {
                        inspect_status = AsyncStatus::Failed;
                        snapshot.failures.push(parse_failure(message, run));
                    },
                }
            } else {
                inspect_status = AsyncStatus::Failed;
                snapshot.failures.push(command_failure(FailureKind::CommandFailed, "pip inspect failed", run));
            }
        },
        Err(failure) => {
            inspect_status = AsyncStatus::Failed;
            snapshot.failures.push(failure);
        },
    }
    let ghost f7 = snapshot.failures@;
    proof {
        match io {
            Ok(run) => {
                if run.exit_code == Some(0i32) && json_document(run.stdout@) is Some {
                    assert(crate::command::added_since(f6, f7) =~= Seq::<CommandFailure>::empty());
                } else {
                    assert(crate::command::added_since(f6, f7) =~= seq![f7.last()]);
                }
            },
            Err(_) => {
                assert(crate::command::added_since(f6, f7) =~= seq![f7.last()]);
            },
        }
        assert(f7.subrange(0, f6.len() as int) =~= f6);
    }
    proof {
        match io {
            Ok(run) => if run.exit_code == Some(0i32) {
                match json_document(run.stdout@) {
                    None => {},
                    Some(doc) => match as_array_spec(get_spec(doc, "installed"@)) {
                        None => {},
                        Some(items) => {
                            let x = pip_rows_view(listed);
                            assert(inspect_fold((x, None, None), items).1 == crate::text::opt_view(site_packages));
                        },
                    },
                }
            },
            Err(_) => {},
        }
    }
    assert(inspect_reported(*runner, exe@, inspect_status, site_packages, user_site));
    (inspect_status, site_packages, user_site)
}

/// Runs `pip list --format=json` through `exe` and takes its distributions
/// as the snapshot's packages, or records why it could not.
fn pip_list_step<F>(snapshot: &mut ManagerSnapshot, runner: &F, exe: &str) where
    F: Fn(&str, &[String], u64) -> Result<CommandRun, CommandFailure>,
    requires
        forall|a: &[String]| views(a@) == pip_args(1) ==> #[trigger] runner.requires((exe, a, 15u64)),
        old(snapshot).packages@.len() == 0,
    ensures
        final(snapshot).id == old(snapshot).id,
        final(snapshot).label == old(snapshot).label,
        final(snapshot).status == old(snapshot).status,
        final(snapshot).version == old(snapshot).version,
        final(snapshot).paths == old(snapshot).paths,
        final(snapshot).commands == old(snapshot).commands,
        final(snapshot).unsupported_reason == old(snapshot).unsupported_reason,
        final(snapshot).homebrew == old(snapshot).homebrew,
        final(snapshot).maven == old(snapshot).maven,
        final(snapshot).pip == old(snapshot).pip,
        final(snapshot).docker == old(snapshot).docker,
        pip_packages_listed(*runner, exe@, final(snapshot).packages@),
        forall|k: int| 0 <= k < final(snapshot).packages@.len() ==> #[trigger] pip_row_listed(final(snapshot).packages@[k], exe@),
        pip_list_added(*runner, exe@, old(snapshot).failures@, final(snapshot).failures@),
{
    let ghost f3 = snapshot.failures@;
    let list_args = crate::command::args4("-m", "pip", "list", "--format=json");
    let list_slice = list_args.as_slice();
    let ghost mut listed_u: Seq<PackageRow> = Seq::empty();
    let list_out = runner(exe, list_slice, 15);
    assert(views(list_slice@) == pip_args(1));
    assert(answered_run(*runner, exe@, pip_args(1), 15, list_out));
    let ghost lo = list_out;
    match list_out {
        Ok(run) => {
            if run.exit_code == Some(0i32) {
                match parse_pip_list(run.stdout.as_str(), exe) {
                    Ok(packages) => {
                        proof {
                            let items = json_document(run.stdout@)->0->Array_0;
                            let u = choose|u: Seq<PackageRow>|
                                #[trigger] sorted_by_name(u) == packages@ && u.len() == pip_entries(items).len() && forall|i: int|
                                    0 <= i < u.len() ==> pip_row(#[trigger] u[i], pip_entries(items)[i], exe@);
                            assert forall|i: int| 0 <= i < u.len() implies #[trigger] pip_row_listed(u[i], exe@) by {
                                assert(pip_row(u[i], pip_entries(items)[i], exe@));
                            }
                            lemma_sorted_all(u, |row: PackageRow| pip_row_listed(row, exe@));
                            crate::scan_support::lemma_sorted_len(u);
                            assert(pip_rows_of(u, run.stdout@, exe@));
                            listed_u = u;
                        }
                        snapshot.packages = packages;
                    },
                    Err(message) => snapshot.failures.push(parse_failure(message, run)),
                }
            } else {
                snapshot.failures.push(command_failure(FailureKind::CommandFailed, "pip package list failed", run));
            }
        },
        Err(failure) => snapshot.failures.push(failure),
    }
    let ghost f4 = snapshot.failures@;
    proof {
        match lo {
            Ok(run) => {
                if run.exit_code == Some(0i32) && json_document(run.stdout@) is Some && json_document(run.stdout@)->0 is Array {
                    assert(crate::command::added_since(f3, f4) =~= Seq::<CommandFailure>::empty());
                } else {
                    assert(crate::command::added_since(f3, f4) =~= seq![f4.last()]);
                }
            },
            Err(_) => {
                assert(crate::command::added_since(f3, f4) =~= seq![f4.last()]);
            },
        }
        assert(f4.subrange(0, f3.len() as int) =~= f3);
    }
    assert(pip_packages_listed(*runner, exe@, snapshot.packages@));
}

/// Scans pip: the interpreter (`python3`, else `python`), its version and
/// executable, pip's version, the installed distributions enriched by
/// `pip inspect` with their actions, pip's cache, the site directories and
/// the environment's kind (`virtual_env` says whether `VIRTUAL_ENV` is set);
/// the outdated scan is left pending. Nothing is listed once pip does not
/// answer `--version`.
#[verifier::rlimit(100)]
pub fn scan_pip_with_runner<F>(runner: &F, virtual_env: bool) -> (r: ManagerSnapshot) where
    F: Fn(&str, &[String], u64) -> Result<CommandRun, CommandFailure>,

    requires
        forall|p: &str, a: &[String], t: u64|
            pip_scan_command(p@, views(a@), t) ==> #[trigger] runner.requires((p, a, t)),
    ensures
        r.id == ManagerId::Pip,
        r.label@ == "pip"@,
        r.status == finished_status(r),
        r.version is None ==> r.packages@.len() == 0 && r.pip is None && r.commands@.len() == 0
            && r.failures@.len() >= 1 && ((python_resolved(*runner, Err::<Seq<char>, Seq<char>>(no_python_text()))
            && no_python_failure(r.failures@.last())) || exists|py: Seq<char>, exe: Seq<char>, out: Result<CommandRun, CommandFailure>|
            #![trigger python_resolved(*runner, Ok::<Seq<char>, Seq<char>>(py)), answered_run(*runner, exe, pip_args(0), 5, out)]
            python_resolved(*runner, Ok::<Seq<char>, Seq<char>>(py)) && answered_run(*runner, exe, pip_args(0), 5, out)
                && !crate::command::clean_exit(out) && crate::command::recorded_failure(
                r.failures@.last(),
                out,
                "pip version probe failed"@,
            )),
        r.version is Some ==> exists|py: Seq<char>| #[trigger] python_resolved(*runner, Ok::<Seq<char>, Seq<char>>(py))
            && (r.pip matches Some(h) && probed_or(*runner, py, seq!["--version"@], crate::scan_support::unknown_text(), h.python_version@)
            && probed_or(*runner, py, seq!["-c"@, "import sys; print(sys.executable)"@], py, h.python_executable@)
            && exists|
                fd: Seq<CommandFailure>,
                f1: Seq<CommandFailure>,
                f2: Seq<CommandFailure>,
                f3: Seq<CommandFailure>,
                f4: Seq<CommandFailure>,
                f5: Seq<CommandFailure>,
                f6: Seq<CommandFailure>,
            |
                #[trigger] pip_failure_chain(*runner, py, h.python_executable@, fd, f1, f2, f3, f4, f5, f6, r.failures@)),
        r.version matches Some(v) ==> r.pip matches Some(h) && {
            &&& v == h.pip_version
            &&& exists|run: CommandRun|
                #[trigger] answered_run(*runner, h.python_executable@, pip_args(0), 5, Ok(run))
                    && run.exit_code == Some(0i32) && v@ == trim(run.stdout@)
            &&& pip_log(r.commands@, h.python_executable@)
            &&& h.installed_count == r.packages@.len()
            &&& h.outdated_count == 0
            &&& h.editable_count == crate::docker::count_with(r.packages@, PackageSignal::Editable)
            &&& h.direct_url_count == crate::docker::count_with(r.packages@, PackageSignal::DirectUrl)
            &&& h.environment_kind == environment_spec(h.python_executable@, crate::text::opt_view(h.site_packages), virtual_env)
            &&& pip_paths(r.paths@, h.cache.dir, h.site_packages, h.user_site)
            &&& inspect_reported(*runner, h.python_executable@, h.inspect_status, h.site_packages, h.user_site)
            &&& probed(*runner, h.python_executable@, pip_args(2), crate::text::opt_view(h.cache.dir))
            &&& h.outdated_status == AsyncStatus::Pending
            &&& h.outdated_message matches Some(m) && m@ == "Outdated scan pending"@
            &&& forall|k: int| 0 <= k < r.packages@.len() ==> pip_row_reported(#[trigger] r.packages@[k], h.python_executable@)
            &&& pip_packages_listed(*runner, h.python_executable@, r.packages@)
        },
        r.homebrew is None && r.maven is None && r.docker is None,
{
    let mut snapshot = empty_snapshot(ManagerId::Pip, "pip");
    let python = match detect_python(runner, &mut snapshot) {
        Some(p) => p,
        None => return finish(snapshot),
    };
    let ghost py = python@;
    assert(python_resolved(*runner, Ok::<Seq<char>, Seq<char>>(py)));
    let ghost fd = snapshot.failures@;
    assert(crate::command::added_since(Seq::<CommandFailure>::empty(), fd) =~= fd);
    let python_version = match command_stdout_owned(
        python.as_str(),
        crate::command::args1("--version"),
        5,
        &mut snapshot,
        runner,
        "Python version probe failed",
    ) {
        Some(v) => v,
        None => unknown(),
    };
    let ghost f1 = snapshot.failures@;
    let python_executable = match command_stdout_owned(
        python.as_str(),
        crate::command::args2("-c", "import sys; print(sys.executable)"),
        5,
        &mut snapshot,
        runner,
        "Python executable probe failed",
    ) {
        Some(e) => e,
        None => python.clone(),
    };
    let ghost f2 = snapshot.failures@;
    assert(probed_or(*runner, py, seq!["--version"@], crate::scan_support::unknown_text(), python_version@));
    assert(probed_or(*runner, py, seq!["-c"@, "import sys; print(sys.executable)"@], py, python_executable@));
    let exe = python_executable.as_str();
    let pv_args = crate::command::args3("-m", "pip", "--version");
    let ghost pv = views(pv_args@);
    let pip_version = match command_stdout_owned(
        exe,
        pv_args,
        5,
        &mut snapshot,
        runner,
        "pip version probe failed",
    ) {
        Some(version) => version,
        None => {
            proof {
                reveal_strlit("pip version probe failed");
                let out = choose|out: Result<CommandRun, CommandFailure>|
                    #[trigger] answered_run(*runner, exe@, pv, 5, out) && match out {
                        Ok(run) => if run.exit_code == Some(0i32) {
                            false
                        } else {
                            crate::command::recorded_failure(snapshot.failures@.last(), out, "pip version probe failed"@)
                        },
                        Err(f) => snapshot.failures@.last() == f,
                    };
                assert(answered_run(*runner, exe@, pip_args(0), 5, out));
            }
            return finish(snapshot);
        },
    };
    proof {
        let out = choose|out: Result<CommandRun, CommandFailure>|
            #[trigger] answered_run(*runner, exe@, pv, 5, out) && match out {
                Ok(run) => if run.exit_code == Some(0i32) {
                    Some(pip_version) matches Some(s) && s@ == trim(run.stdout@)
                } else {
                    false
                },
                Err(f) => false,
            };
        assert(answered_run(*runner, exe@, pip_args(0), 5, out));
    }
    let ghost f3 = snapshot.failures@;
    snapshot.version = Some(pip_version.clone());
    assert(snapshot.commands@.len() == 0);
    let e1 = envelope_owned(exe, crate::command::args4("-m", "pip", "list", "--format=json"), 15_000);
    let e2 = envelope_owned(exe, crate::command::args4("-m", "pip", "cache", "dir"), 5_000);
    let e3 = envelope_owned(exe, crate::command::args4("-m", "pip", "cache", "info"), 5_000);
    let e4 = envelope_owned(exe, crate::command::args4("-m", "pip", "inspect", "--local"), 15_000);
    let ghost (g1, g2, g3, g4) = (e1, e2, e3, e4);
    snapshot.commands.push(e1);
    snapshot.commands.push(e2);
    snapshot.commands.push(e3);
    snapshot.commands.push(e4);
    assert(snapshot.commands@ =~= seq![g1, g2, g3, g4]);
    assert(pip_log(snapshot.commands@, exe@));
    let ghost c_list = snapshot.commands@;
    let ghost p_list = snapshot.paths@;
    pip_list_step(&mut snapshot, runner, exe);
    let ghost f4 = snapshot.failures@;
    assert(snapshot.commands@ == c_list);
    assert(snapshot.paths@ == p_list);
    let ghost after_list = snapshot.packages@;
    assert(pip_packages_listed(*runner, exe@, after_list));
    let cd_args = crate::command::args4("-m", "pip", "cache", "dir");
    assert(views(cd_args@) == pip_args(2));
    let cache_dir = command_stdout_owned(
        exe,
        cd_args,
        5,
        &mut snapshot,
        runner,
        "pip cache dir failed",
    );
    let ghost f5 = snapshot.failures@;
    let cache_info = match command_stdout_owned(
        exe,
        crate::command::args4("-m", "pip", "cache", "info"),
        5,
        &mut snapshot,
        runner,
        "pip cache info failed",
    ) {
        Some(info) => info,
        None => String::new(),
    };
    let ghost f6 = snapshot.failures@;
    assert(probed(*runner, exe@, pip_args(2), crate::text::opt_view(cache_dir)));
    assert(snapshot.paths@.len() == 0);
    if let Some(path) = &cache_dir {
        snapshot.paths.push(path_info("pip cache", PathKind::Cache, path.clone()));
    }
    let ghost paths1 = snapshot.paths@;
    assert(path_entries(paths1) =~= path_entry(cache_dir, "pip cache"@, PathKind::Cache));
    let ghost listed = snapshot.packages@;
    let (inspect_status, site_packages, user_site) = pip_inspect_step(&mut snapshot, runner, exe);
    assert forall|k: int| 0 <= k < snapshot.packages@.len() implies #[trigger] pip_row_listed(snapshot.packages@[k], exe@) by {
        assert(pip_row_listed(listed[k], exe@));
        assert(same_but_inspected(listed[k], snapshot.packages@[k]));
    }
    let ghost f7 = snapshot.failures@;
    assert(pip_failure_chain(*runner, py, exe@, fd, f1, f2, f3, f4, f5, f6, f7));
    assert(snapshot.paths@ == paths1);
    if let Some(path) = &site_packages {
        snapshot.paths.push(path_info("site-packages", PathKind::SitePackages, path.clone()));
    }
    let ghost paths2 = snapshot.paths@;
    assert(path_entries(paths2) =~= path_entries(paths1) + path_entry(site_packages, "site-packages"@, PathKind::SitePackages));
    if let Some(path) = &user_site {
        snapshot.paths.push(path_info("User site", PathKind::UserSite, path.clone()));
    }
    assert(path_entries(snapshot.paths@) =~= path_entries(paths2) + path_entry(user_site, "User site"@, PathKind::UserSite));
    assert(pip_paths(snapshot.paths@, cache_dir, site_packages, user_site));
    let ghost enriched = snapshot.packages@;
    attach_pip_actions(&mut snapshot.packages, exe);
    assert forall|k: int| 0 <= k < snapshot.packages@.len() implies #[trigger] pip_row_reported(snapshot.packages@[k], exe@) by {
        assert(pip_row_listed(enriched[k], exe@));
        assert(pip_actions_appended(enriched[k], snapshot.packages@[k], exe@));
    }
    assert forall|k: int| 0 <= k < snapshot.packages@.len() implies #[trigger] snapshot.packages@[k].name == after_list[k].name
        && snapshot.packages@[k].version == after_list[k].version by {
        assert(same_but_inspected(listed[k], enriched[k]));
        assert(pip_actions_appended(enriched[k], snapshot.packages@[k], exe@));
    }
    proof { lemma_pip_listed_keeps(*runner, exe@, after_list, snapshot.packages@); }
    let editable_count = crate::docker::count_signal(&snapshot.packages, PackageSignal::Editable);
    let direct_url_count = crate::docker::count_signal(&snapshot.packages, PackageSignal::DirectUrl);
    let site_ref = match &site_packages {
        Some(s) => Some(s.as_str()),
        None => None,
    };
    let environment_kind = detect_pip_environment(exe, site_ref, virtual_env);
    let installed_count = snapshot.packages.len();
    let executable_copy = python_executable.clone();
    snapshot.pip = Some(
        PipEnvironmentHealth {
            python_version,
            python_executable: executable_copy,
            pip_version,
            environment_kind,
            site_packages,
            user_site,
            installed_count,
            outdated_count: 0,
            editable_count,
            direct_url_count,
            cache: PipCacheInfo { dir: cache_dir, raw_info: cache_info },
            inspect_status,
            outdated_status: AsyncStatus::Pending,
            outdated_message: Some(owned("Outdated scan pending")),
        },
    );
    finish(snapshot)
}

} // verus!
