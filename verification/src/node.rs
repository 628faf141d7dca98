//! npm, pnpm, Yarn and nvm: global package lists, cache paths, Node versions
//! and the global uninstalls.
use crate::command::{
    args1, args2, args3, args4, command_failure, copy_failure, envelope_is, envelope_owned,
    parse_failure, push_command, run_recorded_command, same_but_log, same_failure,
};
use crate::disk_usage::path_info;
use crate::json::{as_array_spec, as_str_spec, get_spec, json_document, json_get, json_string, parse_json, JsonValue, JsonView};
use crate::path::{join, join_path};
use crate::scan_support::{
    empty_snapshot, finish, finished_status, package_row, sort_rows_by_name, sorted_by_name,
    split_package_version, trimmed, unknown,
};
use crate::text::{lines, lines_of, owned, trim, views, words, words_of};
use crate::types::{PackageSignal, PathInfo};
use crate::types::{
    AsyncStatus, CommandFailure, CommandRun, FailureKind, MaintenanceRunPreview, ManagerId,
    ManagerSnapshot, ManagerStatus, NpmMaintenanceOperation, PackageKind, PackageRow, PathKind,
    PnpmMaintenanceOperation,
};
use vstd::prelude::*;

verus! {

/// A maintenance preview of one run: ready when the command exited with 0,
/// failed otherwise, with the failure's output and message.
pub open spec fn maintenance_reports(r: MaintenanceRunPreview) -> bool {
    match r.status {
        AsyncStatus::Ready => r.failure is None && r.message is None,
        AsyncStatus::Failed => r.failure matches Some(f) && r.message == Some(f.message)
            && r.stdout == f.stdout && r.stderr == f.stderr,
        AsyncStatus::Pending => false,
    }
}

/// What a maintenance run reports from the runner's answer `out`: ready
/// with the run's output when it exited with 0; otherwise failed, with the
/// runner's own failure or a failure of `failure_message` that carries the
/// run.
pub open spec fn maintenance_from_answer(
    r: MaintenanceRunPreview,
    out: Result<CommandRun, CommandFailure>,
    failure_message: Seq<char>,
) -> bool {
    match out {
        Ok(run) => if run.exit_code == Some(0i32) {
            r.status == AsyncStatus::Ready && r.stdout == run.stdout && r.stderr == run.stderr
        } else {
            r.status == AsyncStatus::Failed && (r.failure matches Some(f) && crate::command::recorded_failure(
                f,
                out,
                failure_message,
            ))
        },
        Err(f) => r.status == AsyncStatus::Failed && r.failure == Some(f),
    }
}

fn maintenance_preview<F>(
    program: &str,
    args: Vec<String>,
    runner: &F,
    failure_message: &str,
) -> (r: MaintenanceRunPreview) where
    F: Fn(&str, &[String], u64) -> Result<CommandRun, CommandFailure>,

    requires
        forall|a: &[String]|
            views(a@) == views(args@) ==> #[trigger] runner.requires((program, a, 30u64)),
    ensures
        envelope_is(r.command, program@, views(args@), 30_000),
        maintenance_reports(r),
        exists|out: Result<CommandRun, CommandFailure>|
            #[trigger] crate::command::answered_run(*runner, program@, views(args@), 30, out)
                && maintenance_from_answer(r, out, failure_message@),
{
    let command = envelope_owned(program, crate::command::copy_strings(&args), 30_000);
    let slice = args.as_slice();
    let out = runner(program, slice, 30);
    assert(runner.ensures((program, slice, 30u64), out));
    assert(crate::command::answered_run(*runner, program@, views(args@), 30, out));
    match out {
        Ok(run) => {
            if run.exit_code == Some(0i32) {
                MaintenanceRunPreview {
                    status: AsyncStatus::Ready,
                    command,
                    stdout: run.stdout,
                    stderr: run.stderr,
                    message: None,
                    failure: None,
                }
            } else {
                let failure = command_failure(FailureKind::CommandFailed, failure_message, run);
                MaintenanceRunPreview {
                    status: AsyncStatus::Failed,
                    command,
                    stdout: failure.stdout.clone(),
                    stderr: failure.stderr.clone(),
                    message: Some(failure.message.clone()),
                    failure: Some(failure),
                }
            }
        },
        Err(failure) => MaintenanceRunPreview {
            status: AsyncStatus::Failed,
            command,
            stdout: failure.stdout.clone(),
            stderr: failure.stderr.clone(),
            message: Some(failure.message.clone()),
            failure: Some(failure),
        },
    }
}

pub open spec fn npm_package(op: NpmMaintenanceOperation) -> Seq<char> {
    match op {
        NpmMaintenanceOperation::UninstallGlobalPackage { package_name } => package_name@,
    }
}

pub open spec fn pnpm_package(op: PnpmMaintenanceOperation) -> Seq<char> {
    match op {
        PnpmMaintenanceOperation::UninstallGlobalPackage { package_name } => package_name@,
    }
}

pub open spec fn npm_uninstall_args(package: Seq<char>) -> Seq<Seq<char>> {
    seq!["uninstall"@, "-g"@, package]
}

pub open spec fn pnpm_remove_args(package: Seq<char>) -> Seq<Seq<char>> {
    seq!["remove"@, "--global"@, package]
}

/// Runs `npm uninstall -g <package>`, the only command the runner is handed.
pub fn run_npm_maintenance_with_runner<F>(operation: NpmMaintenanceOperation, runner: &F) -> (r:
    MaintenanceRunPreview) where
    F: Fn(&str, &[String], u64) -> Result<CommandRun, CommandFailure>,

    requires
        forall|p: &str, a: &[String], t: u64|
            p@ == "npm"@ && views(a@) == npm_uninstall_args(
                npm_package(operation),
            ) && t == 30 ==> #[trigger] runner.requires((p, a, t)),
    ensures
        envelope_is(
            r.command,
            "npm"@,
            npm_uninstall_args(
                npm_package(operation),
            ),
            30_000,
        ),
        maintenance_reports(r),
        exists|out: Result<CommandRun, CommandFailure>|
            #[trigger] crate::command::answered_run(
                *runner,
                "npm"@,
                npm_uninstall_args(npm_package(operation)),
                30,
                out,
            ) && maintenance_from_answer(r, out, "npm maintenance failed"@),
{
    let ghost pkg_spec = npm_package(operation);
    let args = match operation {
        NpmMaintenanceOperation::UninstallGlobalPackage { package_name } => {
            let mut args = args2("uninstall", "-g");
            let ghost prev = views(args@);
            let ghost pkg = package_name@;
            assert(prev.len() == 2);
            args.push(package_name);
            assert(views(args@) =~= prev.push(pkg));
            assert(pkg == pkg_spec);
            args
        },
    };
    assert(views(args@) == npm_uninstall_args(pkg_spec));
    maintenance_preview("npm", args, runner, "npm maintenance failed")
}

/// Runs `pnpm remove --global <package>`, the only command the runner is handed.
pub fn run_pnpm_maintenance_with_runner<F>(operation: PnpmMaintenanceOperation, runner: &F) -> (r:
    MaintenanceRunPreview) where
    F: Fn(&str, &[String], u64) -> Result<CommandRun, CommandFailure>,

    requires
        forall|p: &str, a: &[String], t: u64|
            p@ == "pnpm"@ && views(a@) == pnpm_remove_args(
                pnpm_package(operation),
            ) && t == 30 ==> #[trigger] runner.requires((p, a, t)),
    ensures
        envelope_is(
            r.command,
            "pnpm"@,
            pnpm_remove_args(
                pnpm_package(operation),
            ),
            30_000,
        ),
        maintenance_reports(r),
        exists|out: Result<CommandRun, CommandFailure>|
            #[trigger] crate::command::answered_run(
                *runner,
                "pnpm"@,
                pnpm_remove_args(pnpm_package(operation)),
                30,
                out,
            ) && maintenance_from_answer(r, out, "pnpm maintenance failed"@),
{
    let ghost pkg_spec = pnpm_package(operation);
    let args = match operation {
        PnpmMaintenanceOperation::UninstallGlobalPackage { package_name } => {
            let mut args = args2("remove", "--global");
            let ghost prev = views(args@);
            let ghost pkg = package_name@;
            assert(prev.len() == 2);
            args.push(package_name);
            assert(views(args@) =~= prev.push(pkg));
            assert(pkg == pkg_spec);
            args
        },
    };
    assert(views(args@) == pnpm_remove_args(pkg_spec));
    maintenance_preview("pnpm", args, runner, "pnpm maintenance failed")
}

/// The `_npx` directory under npm's cache.
pub fn npx_cache_path(cache_path: &str) -> (r: String)
    ensures
        r@ == join_path(cache_path@, "_npx"@),
{
    join(cache_path, "_npx")
}

/// Rows without a path get `<root>/<name>`.
pub fn attach_missing_paths(packages: &mut Vec<PackageRow>, root: &str)
    ensures
        final(packages)@.len() == old(packages)@.len(),
        forall|i: int|
            0 <= i < old(packages)@.len() ==> {
                let a = old(packages)@[i];
                let b = #[trigger] final(packages)@[i];
                &&& b.name == a.name && b.version == a.version && b.source == a.source
                &&& b.kind == a.kind && b.signals == a.signals && b.actions == a.actions
                &&& match a.path {
                    Some(p) => b.path == Some(p),
                    None => b.path matches Some(q) && q@ == join_path(root@, a.name@),
                }
            },
{
    let ghost orig = packages@;
    let mut i: usize = 0;
    while i < packages.len()
        invariant
            i <= packages@.len(),
            packages@.len() == orig.len(),
            forall|j: int| i <= j < orig.len() ==> #[trigger] packages@[j] == orig[j],
            forall|j: int|
                0 <= j < i ==> {
                    let a = orig[j];
                    let b = #[trigger] packages@[j];
                    &&& b.name == a.name && b.version == a.version && b.source == a.source
                    &&& b.kind == a.kind && b.signals == a.signals && b.actions == a.actions
                    &&& match a.path {
                        Some(p) => b.path == Some(p),
                        None => b.path matches Some(q) && q@ == join_path(root@, a.name@),
                    }
                },
        decreases orig.len() - i,
    {
        if packages[i].path.is_none() {
            let p = join(root, packages[i].name.as_str());
            let mut row = packages.remove(i);
            row.path = Some(p);
            packages.insert(i, row);
        }
        i = i + 1;
    }
}

/// The packages of a `dependencies` object: each member by name, with its
/// version (`unknown` when absent) and its path when given.
pub open spec fn dependency_entries(members: Seq<(Seq<char>, JsonView)>) -> Seq<(Seq<char>, Seq<char>, Option<Seq<char>>)>
    decreases members.len(),
{
    if members.len() == 0 {
        seq![]
    } else {
        let m = members.last();
        dependency_entries(members.drop_last()).push(
            (
                m.0,
                match as_str_spec(get_spec(m.1, "version"@)) {
                    Some(v) => v,
                    None => crate::scan_support::unknown_text(),
                },
                as_str_spec(get_spec(m.1, "path"@)),
            ),
        )
    }
}

/// A row of a global package listed by `source`.
pub open spec fn node_row(row: PackageRow, e: (Seq<char>, Seq<char>, Option<Seq<char>>), source: Seq<char>) -> bool {
    &&& row.name@ == e.0
    &&& row.version@ == e.1
    &&& crate::text::opt_view(row.path) == e.2
    &&& row.source@ == source
    &&& row.kind == PackageKind::Generic
    &&& row.signals@.len() == 0
    &&& row.actions@.len() == 0
}

/// The members of a `dependencies` object, when the value has one.
pub open spec fn dependencies_of(v: JsonView) -> Option<Seq<(Seq<char>, JsonView)>> {
    match get_spec(v, "dependencies"@) {
        Some(JsonView::Object(members, _)) => Some(members),
        _ => None,
    }
}

/// Appends the rows of a `dependencies` object's members.
fn push_dependency_rows(
    rows: &mut Vec<PackageRow>,
    members: &Vec<(String, JsonValue)>,
    source: &str,
    Ghost(prefix): Ghost<Seq<(Seq<char>, Seq<char>, Option<Seq<char>>)>>,
)
    requires
        old(rows)@.len() == prefix.len(),
        forall|k: int| 0 <= k < old(rows)@.len() ==> node_row(#[trigger] old(rows)@[k], prefix[k], source@),
    ensures
        final(rows)@.len() == (prefix + dependency_entries(crate::json::members_view(members@))).len(),
        forall|k: int| 0 <= k < final(rows)@.len() ==> node_row(#[trigger] final(rows)@[k], (prefix + dependency_entries(crate::json::members_view(members@)))[k], source@),
{
    let ghost mv = crate::json::members_view(members@);
    proof {
        crate::json::lemma_members_view(members@);
    }
    let mut i: usize = 0;
    assert(prefix + dependency_entries(mv.subrange(0, 0)) =~= prefix);
    while i < members.len()
        invariant
            i <= members@.len(),
            mv == crate::json::members_view(members@),
            mv.len() == members@.len(),
            forall|j: int| 0 <= j < members@.len() ==> #[trigger] mv[j] == (members@[j].0@, members@[j].1.view()),
            rows@.len() == (prefix + dependency_entries(mv.subrange(0, i as int))).len(),
            forall|k: int| 0 <= k < rows@.len() ==> node_row(#[trigger] rows@[k], (prefix + dependency_entries(mv.subrange(0, i as int)))[k], source@),
        decreases members@.len() - i,
    {
        let ghost before = prefix + dependency_entries(mv.subrange(0, i as int));
        assert(mv.subrange(0, i + 1).drop_last() == mv.subrange(0, i as int));
        assert(mv.subrange(0, i + 1).last() == mv[i as int]);
        let (name, package) = (&members[i].0, &members[i].1);
        let version = match json_string(json_get(package, "version")) {
            Some(v) => v,
            None => unknown(),
        };
        let path = json_string(json_get(package, "path"));
        rows.push(package_row(name.clone(), version, path, source, PackageKind::Generic));
        assert(prefix + dependency_entries(mv.subrange(0, i + 1)) =~= before.push(
            dependency_entries(mv.subrange(0, i + 1)).last(),
        ));
        i = i + 1;
    }
    assert(mv.subrange(0, mv.len() as int) == mv);
}

/// The global packages of a parsed `npm ls -g --depth=0 --json` document,
/// sorted by name; none without a `dependencies` object.
pub fn npm_packages_from_json(value: &JsonValue) -> (r: Vec<PackageRow>)
    ensures
        match dependencies_of(value.view()) {
            None => r@.len() == 0,
            Some(members) => exists|u: Seq<PackageRow>|
                #[trigger] sorted_by_name(u) == r@ && u.len() == dependency_entries(members).len() && forall|i: int|
                    0 <= i < u.len() ==> node_row(#[trigger] u[i], dependency_entries(members)[i], "npm ls -g --depth=0 --json"@),
        },
{
    let members = match json_get(value, "dependencies") {
        Some(JsonValue::Object(members, _)) => members,
        _ => return Vec::new(),
    };
    let mut rows: Vec<PackageRow> = Vec::new();
    push_dependency_rows(&mut rows, members, "npm ls -g --depth=0 --json", Ghost(Seq::empty()));
    assert(Seq::<(Seq<char>, Seq<char>, Option<Seq<char>>)>::empty() + dependency_entries(crate::json::members_view(members@)) =~= dependency_entries(crate::json::members_view(members@)));
    let ghost unsorted = rows@;
    let sorted = sort_rows_by_name(rows);
    assert(sorted_by_name(unsorted) == sorted@);
    sorted
}

/// The global packages of `npm ls -g --depth=0 --json`, sorted by name;
/// none when the output has no `dependencies` object.
pub fn parse_npm_packages(stdout: &str) -> (r: Result<Vec<PackageRow>, String>)
    ensures
        match json_document(stdout@) {
            None => r is Err,
            Some(doc) => r matches Ok(rows) && match dependencies_of(doc) {
                None => rows@.len() == 0,
                Some(members) => exists|u: Seq<PackageRow>|
                    #[trigger] sorted_by_name(u) == rows@ && u.len() == dependency_entries(members).len() && forall|i: int|
                        0 <= i < u.len() ==> node_row(#[trigger] u[i], dependency_entries(members)[i], "npm ls -g --depth=0 --json"@),
            },
        },
{
    let value = parse_json(stdout)?;
    Ok(npm_packages_from_json(&value))
}

pub open spec fn workspace_entries(workspaces: Seq<JsonView>) -> Seq<(Seq<char>, Seq<char>, Option<Seq<char>>)>
    decreases workspaces.len(),
{
    if workspaces.len() == 0 {
        seq![]
    } else {
        workspace_entries(workspaces.drop_last()) + match dependencies_of(workspaces.last()) {
            Some(members) => dependency_entries(members),
            None => seq![],
        }
    }
}

/// The global packages of a parsed `pnpm list -g --depth=0 --json` array,
/// sorted by name.
pub fn pnpm_packages_from_json(value: &JsonValue) -> (r: Result<Vec<PackageRow>, String>)
    ensures
        match value.view() {
            JsonView::Array(workspaces, _) => r matches Ok(rows) && exists|u: Seq<PackageRow>|
                #[trigger] sorted_by_name(u) == rows@ && u.len() == workspace_entries(workspaces).len() && forall|i: int|
                    0 <= i < u.len() ==> node_row(#[trigger] u[i], workspace_entries(workspaces)[i], "pnpm list -g --depth=0 --json"@),
            _ => r matches Err(m) && m@ == "pnpm output was not an array"@,
        },
{
    let workspaces = match value {
        JsonValue::Array(items, _) => items,
        _ => return Err(owned("pnpm output was not an array")),
    };
    let ghost wv = crate::json::items_view(workspaces@);
    proof {
        crate::json::lemma_items_view(workspaces@);
    }
    let mut rows: Vec<PackageRow> = Vec::new();
    let mut i: usize = 0;
    assert(wv.subrange(0, 0) =~= Seq::<JsonView>::empty());
    while i < workspaces.len()
        invariant
            i <= workspaces@.len(),
            wv == crate::json::items_view(workspaces@),
            wv.len() == workspaces@.len(),
            forall|j: int| 0 <= j < workspaces@.len() ==> #[trigger] wv[j] == workspaces@[j].view(),
            rows@.len() == workspace_entries(wv.subrange(0, i as int)).len(),
            forall|k: int| 0 <= k < rows@.len() ==> node_row(#[trigger] rows@[k], workspace_entries(wv.subrange(0, i as int))[k], "pnpm list -g --depth=0 --json"@),
        decreases workspaces@.len() - i,
    {
        let ghost before = workspace_entries(wv.subrange(0, i as int));
        assert(wv.subrange(0, i + 1).drop_last() == wv.subrange(0, i as int));
        assert(wv.subrange(0, i + 1).last() == workspaces@[i as int].view());
        match json_get(&workspaces[i], "dependencies") {
            Some(JsonValue::Object(members, _)) => {
                push_dependency_rows(&mut rows, members, "pnpm list -g --depth=0 --json", Ghost(before));
            },
            _ => {
                assert(workspace_entries(wv.subrange(0, i + 1)) =~= before);
            },
        }
        i = i + 1;
    }
    assert(wv.subrange(0, wv.len() as int) == wv);
    let ghost unsorted = rows@;
    let sorted = sort_rows_by_name(rows);
    assert(sorted_by_name(unsorted) == sorted@);
    Ok(sorted)
}

/// The global packages of `pnpm list -g --depth=0 --json` (an array of
/// workspaces, each with its `dependencies`), sorted by name.
pub fn parse_pnpm_packages(stdout: &str) -> (r: Result<Vec<PackageRow>, String>)
    ensures
        match json_document(stdout@) {
            None => r is Err,
            Some(JsonView::Array(workspaces, _)) => r matches Ok(rows) && exists|u: Seq<PackageRow>|
                #[trigger] sorted_by_name(u) == rows@ && u.len() == workspace_entries(workspaces).len() && forall|i: int|
                    0 <= i < u.len() ==> node_row(#[trigger] u[i], workspace_entries(workspaces)[i], "pnpm list -g --depth=0 --json"@),
            Some(_) => r matches Err(m) && m@ == "pnpm output was not an array"@,
        },
{
    let value = parse_json(stdout)?;
    pnpm_packages_from_json(&value)
}

/// The punctuation Yarn's human output wraps package names in.
pub open spec fn yarn_punct(c: char) -> bool {
    c == '"' || c == '\'' || c == ',' || c == ':' || c == ';' || c == '(' || c == ')' || c == '['
        || c == ']'
}

pub open spec fn strip_punct_start(s: Seq<char>) -> Seq<char>
    decreases s.len(),
{
    if s.len() > 0 && yarn_punct(s[0]) {
        strip_punct_start(s.drop_first())
    } else {
        s
    }
}

pub open spec fn strip_punct_end(s: Seq<char>) -> Seq<char>
    decreases s.len(),
{
    if s.len() > 0 && yarn_punct(s.last()) {
        strip_punct_end(s.drop_last())
    } else {
        s
    }
}

/// A token without the punctuation around it (`str::trim_matches`).
pub open spec fn yarn_token_spec(token: Seq<char>) -> Seq<char> {
    strip_punct_end(strip_punct_start(token))
}

fn is_yarn_punct(c: char) -> (r: bool)
    ensures
        r == yarn_punct(c),
{
    c == '"' || c == '\'' || c == ',' || c == ':' || c == ';' || c == '(' || c == ')' || c == '['
        || c == ']'
}

/// A token of Yarn's human output without its surrounding punctuation.
pub fn trim_yarn_token(token: &str) -> (r: String)
    ensures
        r@ == yarn_token_spec(token@),
{
    let cs = crate::text::chars_of(token);
    let n = cs.len();
    let mut a: usize = 0;
    assert(cs@.subrange(0, n as int) == cs@);
    while a < n && is_yarn_punct(cs[a])
        invariant
            a <= n,
            n == cs@.len(),
            strip_punct_start(cs@.subrange(a as int, n as int)) == strip_punct_start(token@),
            cs@ == token@,
        decreases n - a,
    {
        assert(cs@.subrange(a as int, n as int).drop_first() == cs@.subrange(a + 1, n as int));
        a = a + 1;
    }
    assert(strip_punct_start(cs@.subrange(a as int, n as int)) == cs@.subrange(a as int, n as int));
    let mut b: usize = n;
    while b > a && is_yarn_punct(cs[b - 1])
        invariant
            a <= b <= n,
            n == cs@.len(),
            strip_punct_end(cs@.subrange(a as int, b as int)) == strip_punct_end(cs@.subrange(a as int, n as int)),
        decreases b - a,
    {
        assert(cs@.subrange(a as int, b as int).drop_last() == cs@.subrange(a as int, b - 1));
        b = b - 1;
    }
    crate::text::string_from(&cs, a, b)
}

/// A row of a Yarn Classic global package: name and version split at the
/// last `@`.
pub open spec fn yarn_row(row: PackageRow, raw: Seq<char>) -> bool {
    &&& (row.name@, row.version@) == crate::scan_support::package_version_split(raw)
    &&& row.path is None
    &&& row.source@ == "yarn global list --json"@
    &&& row.kind == PackageKind::Generic
    &&& row.signals@.len() == 0
    &&& row.actions@.len() == 0
}

/// The row of a Yarn Classic global package `name@version`.
pub fn yarn_package_row(raw: &str) -> (r: PackageRow)
    ensures
        yarn_row(r, raw@),
{
    let (name, version) = split_package_version(raw);
    package_row(name, version, None, "yarn global list --json", PackageKind::Generic)
}

pub open spec fn token_rows(ws: Seq<Seq<char>>) -> Seq<Seq<char>>
    decreases ws.len(),
{
    if ws.len() == 0 {
        seq![]
    } else {
        let t = yarn_token_spec(ws.last());
        token_rows(ws.drop_last()) + if crate::text::contains_seq(t, "@"@) {
            seq![t]
        } else {
            seq![]
        }
    }
}

/// The packages named in Yarn's human output: every word, without its
/// punctuation, that holds an `@`, in order.
pub open spec fn human_tokens(ls: Seq<Seq<char>>) -> Seq<Seq<char>>
    decreases ls.len(),
{
    if ls.len() == 0 {
        seq![]
    } else {
        human_tokens(ls.drop_last()) + token_rows(words(ls.last()))
    }
}

/// The packages named in Yarn's human output, in order.
pub fn parse_yarn_human_list(stdout: &str) -> (r: Vec<PackageRow>)
    ensures
        r@.len() == human_tokens(lines(stdout@)).len(),
        forall|i: int| 0 <= i < r@.len() ==> yarn_row(#[trigger] r@[i], human_tokens(lines(stdout@))[i]),
{
    let ls = lines_of(stdout);
    let ghost lv = lines(stdout@);
    let mut rows: Vec<PackageRow> = Vec::new();
    let mut i: usize = 0;
    assert(lv.subrange(0, 0) =~= Seq::<Seq<char>>::empty());
    while i < ls.len()
        invariant
            i <= ls@.len(),
            views(ls@) == lv,
            lv == lines(stdout@),
            rows@.len() == human_tokens(lv.subrange(0, i as int)).len(),
            forall|k: int| 0 <= k < rows@.len() ==> yarn_row(#[trigger] rows@[k], human_tokens(lv.subrange(0, i as int))[k]),
        decreases ls@.len() - i,
    {
        let ghost prior = human_tokens(lv.subrange(0, i as int));
        assert(lv.subrange(0, i + 1).drop_last() == lv.subrange(0, i as int));
        assert(lv.subrange(0, i + 1).last() == lv[i as int]);
        assert(ls@[i as int]@ == lv[i as int]);
        let ws = words_of(ls[i].as_str());
        let ghost wv = words(lv[i as int]);
        let mut k: usize = 0;
        assert(wv.subrange(0, 0) =~= Seq::<Seq<char>>::empty());
        assert(prior + token_rows(wv.subrange(0, 0)) =~= prior);
        while k < ws.len()
            invariant
                k <= ws@.len(),
                views(ws@) == wv,
                rows@.len() == (prior + token_rows(wv.subrange(0, k as int))).len(),
                forall|j: int| 0 <= j < rows@.len() ==> yarn_row(#[trigger] rows@[j], (prior + token_rows(wv.subrange(0, k as int)))[j]),
            decreases ws@.len() - k,
        {
            let ghost before = prior + token_rows(wv.subrange(0, k as int));
            assert(wv.subrange(0, k + 1).drop_last() == wv.subrange(0, k as int));
            assert(wv.subrange(0, k + 1).last() == ws@[k as int]@);
            let token = trim_yarn_token(ws[k].as_str());
            if crate::text::str_contains(token.as_str(), "@") {
                rows.push(yarn_package_row(token.as_str()));
                assert(prior + token_rows(wv.subrange(0, k + 1)) =~= before.push(token@));
            } else {
                assert(prior + token_rows(wv.subrange(0, k + 1)) =~= before);
            }
            k = k + 1;
        }
        assert(wv.subrange(0, wv.len() as int) == wv);
        assert(human_tokens(lv.subrange(0, i + 1)) =~= prior + token_rows(wv));
        i = i + 1;
    }
    assert(lv.subrange(0, lv.len() as int) == lv);
    rows
}

/// The names of a `tree` line's `data.trees` items.
pub open spec fn tree_names(items: Seq<JsonView>) -> Seq<Seq<char>>
    decreases items.len(),
{
    if items.len() == 0 {
        seq![]
    } else {
        tree_names(items.drop_last()) + match as_str_spec(get_spec(items.last(), "name"@)) {
            Some(n) => seq![n],
            None => seq![],
        }
    }
}

/// The items of a value's `data.trees`, when it has them.
pub open spec fn trees_of(v: JsonView) -> Seq<JsonView> {
    match get_spec(v, "data"@) {
        Some(d) => match as_array_spec(get_spec(d, "trees"@)) {
            Some(items) => items,
            None => seq![],
        },
        None => seq![],
    }
}

/// The names `yarn global list --json` reports on its `tree` lines, or
/// nothing when a non-blank line is not JSON.
pub open spec fn yarn_tree_step(acc: Option<Seq<Seq<char>>>, line: Seq<char>) -> Option<Seq<Seq<char>>> {
    match acc {
        None => None,
        Some(names) => if trim(line).len() == 0 {
            Some(names)
        } else {
            match json_document(line) {
                None => None,
                Some(v) => if as_str_spec(get_spec(v, "type"@)) == Some("tree"@) {
                    Some(names + tree_names(trees_of(v)))
                } else {
                    Some(names)
                },
            }
        },
    }
}

pub open spec fn yarn_tree_fold(ls: Seq<Seq<char>>) -> Option<Seq<Seq<char>>>
    decreases ls.len(),
{
    if ls.len() == 0 {
        Some(seq![])
    } else {
        yarn_tree_step(yarn_tree_fold(ls.drop_last()), ls.last())
    }
}

pub proof fn lemma_yarn_tree_none(ls: Seq<Seq<char>>, i: int)
    requires
        0 < i <= ls.len(),
        yarn_tree_fold(ls.subrange(0, i)) is None,
    ensures
        yarn_tree_fold(ls) is None,
    decreases ls.len() - i,
{
    if i < ls.len() {
        assert(ls.subrange(0, i + 1).drop_last() == ls.subrange(0, i));
        lemma_yarn_tree_none(ls, i + 1);
    } else {
        assert(ls.subrange(0, i) == ls);
    }
}

fn push_tree_names(rows: &mut Vec<PackageRow>, value: &JsonValue, Ghost(prefix): Ghost<Seq<Seq<char>>>)
    requires
        old(rows)@.len() == prefix.len(),
        forall|k: int| 0 <= k < old(rows)@.len() ==> yarn_row(#[trigger] old(rows)@[k], prefix[k]),
    ensures
        final(rows)@.len() == (prefix + tree_names(trees_of(value.view()))).len(),
        forall|k: int| 0 <= k < final(rows)@.len() ==> yarn_row(#[trigger] final(rows)@[k], (prefix + tree_names(trees_of(value.view())))[k]),
{
    let data = match json_get(value, "data") {
        Some(d) => d,
        None => {
            assert(prefix + tree_names(Seq::<JsonView>::empty()) =~= prefix);
            return;
        },
    };
    let items = match json_get(data, "trees") {
        Some(JsonValue::Array(items, _)) => items,
        _ => {
            assert(prefix + tree_names(Seq::<JsonView>::empty()) =~= prefix);
            return;
        },
    };
    let ghost iv = crate::json::items_view(items@);
    proof {
        crate::json::lemma_items_view(items@);
    }
    let mut i: usize = 0;
    assert(iv.subrange(0, 0) =~= Seq::<JsonView>::empty());
    assert(prefix + tree_names(iv.subrange(0, 0)) =~= prefix);
    while i < items.len()
        invariant
            i <= items@.len(),
            iv == crate::json::items_view(items@),
            iv.len() == items@.len(),
            forall|j: int| 0 <= j < items@.len() ==> #[trigger] iv[j] == items@[j].view(),
            rows@.len() == (prefix + tree_names(iv.subrange(0, i as int))).len(),
            forall|k: int| 0 <= k < rows@.len() ==> yarn_row(#[trigger] rows@[k], (prefix + tree_names(iv.subrange(0, i as int)))[k]),
        decreases items@.len() - i,
    {
        let ghost before = prefix + tree_names(iv.subrange(0, i as int));
        assert(iv.subrange(0, i + 1).drop_last() == iv.subrange(0, i as int));
        assert(iv.subrange(0, i + 1).last() == items@[i as int].view());
        match json_string(json_get(&items[i], "name")) {
            Some(name) => {
                rows.push(yarn_package_row(name.as_str()));
                assert(prefix + tree_names(iv.subrange(0, i + 1)) =~= before.push(name@));
            },
            None => {
                assert(prefix + tree_names(iv.subrange(0, i + 1)) =~= before);
            },
        }
        i = i + 1;
    }
    assert(iv.subrange(0, iv.len() as int) == iv);
}

/// The global packages of Yarn Classic: the names on the `tree` lines of
/// `yarn global list --json`, sorted; Yarn's human output as it stands when a
/// line is not JSON, and sorted when no tree line names a package.
pub fn parse_yarn_classic_packages(stdout: &str) -> (r: Result<Vec<PackageRow>, String>)
    ensures
        r matches Ok(rows) && match yarn_tree_fold(lines(stdout@)) {
            None => rows@.len() == human_tokens(lines(stdout@)).len() && forall|i: int|
                0 <= i < rows@.len() ==> yarn_row(#[trigger] rows@[i], human_tokens(lines(stdout@))[i]),
            Some(names) => {
                let raws = if names.len() == 0 { human_tokens(lines(stdout@)) } else { names };
                exists|u: Seq<PackageRow>|
                    #[trigger] sorted_by_name(u) == rows@ && u.len() == raws.len() && forall|i: int|
                        0 <= i < u.len() ==> yarn_row(#[trigger] u[i], raws[i])
            },
        },
{
    let ls = lines_of(stdout);
    let ghost lv = lines(stdout@);
    let mut rows: Vec<PackageRow> = Vec::new();
    let mut i: usize = 0;
    assert(lv.subrange(0, 0) =~= Seq::<Seq<char>>::empty());
    while i < ls.len()
        invariant
            i <= ls@.len(),
            views(ls@) == lv,
            lv == lines(stdout@),
            yarn_tree_fold(lv.subrange(0, i as int)) is Some,
            rows@.len() == yarn_tree_fold(lv.subrange(0, i as int))->0.len(),
            forall|k: int| 0 <= k < rows@.len() ==> yarn_row(#[trigger] rows@[k], yarn_tree_fold(lv.subrange(0, i as int))->0[k]),
        decreases ls@.len() - i,
    {
        let ghost prior = yarn_tree_fold(lv.subrange(0, i as int))->0;
        assert(lv.subrange(0, i + 1).drop_last() == lv.subrange(0, i as int));
        assert(lv.subrange(0, i + 1).last() == lv[i as int]);
        assert(ls@[i as int]@ == lv[i as int]);
        let t = crate::text::trim_string(ls[i].as_str());
        if !t.as_str().is_empty() {
            match parse_json(ls[i].as_str()) {
                Ok(value) => {
                    let is_tree = match json_string(json_get(&value, "type")) {
                        Some(kind) => crate::text::str_eq(kind.as_str(), "tree"),
                        None => false,
                    };
                    if is_tree {
                        push_tree_names(&mut rows, &value, Ghost(prior));
                    }
                },
                Err(_) => {
                    proof {
                        lemma_yarn_tree_none(lv, (i + 1) as int);
                    }
                    return Ok(parse_yarn_human_list(stdout));
                },
            }
        }
        i = i + 1;
    }
    assert(lv.subrange(0, lv.len() as int) == lv);
    if rows.len() == 0 {
        rows = parse_yarn_human_list(stdout);
    }
    let ghost unsorted = rows@;
    let sorted = sort_rows_by_name(rows);
    assert(sorted_by_name(unsorted) == sorted@);
    Ok(sorted)
}

/// Runs `program args` without logging it and gives its trimmed output
/// when it exits with 0; otherwise records why, a failed exit as
/// `<preview> failed`.
pub fn command_stdout_with_runner<F>(
    program: &str,
    args: &[&str],
    timeout_secs: u64,
    snapshot: &mut ManagerSnapshot,
    runner: &F,
) -> (r: Option<String>) where F: Fn(&str, &[String], u64) -> Result<CommandRun, CommandFailure>
    requires
        crate::command::may_run(*runner, program, crate::command::str_views(args@), timeout_secs),
    ensures
        same_but_log(*old(snapshot), *final(snapshot)),
        final(snapshot).commands == old(snapshot).commands,
        exists|out: Result<CommandRun, CommandFailure>|
            #[trigger] crate::command::answered_run(*runner, program@, crate::command::str_views(args@), timeout_secs, out) && match out {
                Ok(run) => if run.exit_code == Some(0i32) {
                    r matches Some(s) && s@ == crate::text::trim(run.stdout@) && final(snapshot).failures == old(snapshot).failures
                } else {
                    r is None && final(snapshot).failures@ == old(snapshot).failures@.push(final(snapshot).failures@.last())
                        && final(snapshot).failures@.last().kind == FailureKind::CommandFailed
                        && final(snapshot).failures@.last().message@ == run.envelope.preview@ + " failed"@
                },
                Err(f) => r is None && final(snapshot).failures@ == old(snapshot).failures@.push(f),
            },
        lookup_grew(*runner, program@, crate::command::str_views(args@), timeout_secs, old(snapshot).failures@, final(snapshot).failures@),
{
    let ghost before = snapshot.failures@;
    let out = crate::command::ask_runner(runner, program, args, timeout_secs);
    let ghost answer = out;
    assert(crate::command::answered_run(*runner, program@, crate::command::str_views(args@), timeout_secs, answer));
    match out {
        Ok(run) => {
            if run.exit_code == Some(0i32) {
                assert(crate::command::added_since(before, snapshot.failures@) =~= Seq::<CommandFailure>::empty());
                assert(snapshot.failures@.subrange(0, before.len() as int) =~= before);
                Some(crate::text::trim_string(run.stdout.as_str()))
            } else {
                let mut message = run.envelope.preview.clone();
                crate::text::push_str(&mut message, " failed");
                let f = command_failure(FailureKind::CommandFailed, message.as_str(), run);
                snapshot.failures.push(f);
                assert(crate::command::added_since(before, snapshot.failures@) =~= seq![snapshot.failures@.last()]);
                assert(snapshot.failures@.subrange(0, before.len() as int) =~= before);
                None
            }
        },
        Err(failure) => {
            snapshot.failures.push(failure);
            assert(crate::command::added_since(before, snapshot.failures@) =~= seq![snapshot.failures@.last()]);
            assert(snapshot.failures@.subrange(0, before.len() as int) =~= before);
            None
        },
    }
}

/// Runs a version probe without logging it: the trimmed output on a clean
/// exit; otherwise the failure is recorded.
fn probe_version<F>(
    snapshot: &mut ManagerSnapshot,
    runner: &F,
    program: &str,
    failure_message: &str,
) -> (r: Option<String>) where F: Fn(&str, &[String], u64) -> Result<CommandRun, CommandFailure>
    requires
        crate::command::may_run(*runner, program, seq!["--version"@], 5),
        old(snapshot).failures@.len() == 0,
    ensures
        same_but_log(*old(snapshot), *final(snapshot)),
        final(snapshot).commands == old(snapshot).commands,
        r matches Some(v) ==> final(snapshot).failures@.len() == 0 && exists|run: CommandRun|
            #[trigger] crate::command::answered_run(*runner, program@, seq!["--version"@], 5, Ok(run))
                && run.exit_code == Some(0i32) && v@ == crate::text::trim(run.stdout@),
        r is None ==> final(snapshot).failures@.len() == 1 && exists|out: Result<CommandRun, CommandFailure>|
            #[trigger] crate::command::answered_run(*runner, program@, seq!["--version"@], 5, out)
                && crate::command::recorded_failure(final(snapshot).failures@[0], out, failure_message@),
{
    assert(crate::command::str_views(["--version"]@) == seq!["--version"@]);
    let out = crate::command::ask_runner(runner, program, &["--version"], 5);
    let ghost answer = out;
    match out {
        Ok(run) => {
            if run.exit_code == Some(0i32) {
                Some(trimmed(run.stdout))
            } else {
                snapshot.failures.push(command_failure(FailureKind::CommandFailed, failure_message, run));
                assert(crate::command::recorded_failure(snapshot.failures@[0], answer, failure_message@));
                None
            }
        },
        Err(failure) => {
            snapshot.failures.push(failure);
            assert(crate::command::recorded_failure(snapshot.failures@[0], answer, failure_message@));
            None
        },
    }
}

/// The read-only commands an npm scan may run, with their budgets.
pub open spec fn npm_scan_command(program: Seq<char>, args: Seq<Seq<char>>, timeout: u64) -> bool {
    &&& program == "npm"@
    &&& {
        ||| args == seq!["--version"@] && timeout == 5
        ||| args == npm_list_args() && timeout == 15
        ||| args == seq!["config"@, "get"@, "cache"@] && timeout == 5
        ||| args == seq!["root"@, "-g"@] && timeout == 5
    }
}

pub open spec fn npm_list_args() -> Seq<Seq<char>> {
    seq!["ls"@, "-g"@, "--depth=0"@, "--json"@]
}

/// The paths of an npm scan: the cache with its `_npx` directory, when npm
/// reported the cache, then the global modules, when npm reported them.
pub open spec fn npm_paths(p: Seq<crate::types::PathInfo>) -> bool {
    ||| p.len() == 0
    ||| p.len() == 1 && p[0].kind == PathKind::GlobalModules
    ||| p.len() >= 2 && p[0].kind == PathKind::Cache && p[1].kind == PathKind::NpxCache && p[1].path@
        == join_path(p[0].path@, "_npx"@) && (p.len() == 2 || (p.len() == 3 && p[2].kind
        == PathKind::GlobalModules))
}

/// Scans npm: its version (probed without being logged), the global packages
/// (each given a path under the global modules when npm did not name one),
/// the cache and its `_npx` directory, and the global modules directory.
#[verifier::rlimit(40)]
pub fn scan_npm_with_runner<F>(runner: &F) -> (r: ManagerSnapshot) where
    F: Fn(&str, &[String], u64) -> Result<CommandRun, CommandFailure>,

    requires
        forall|p: &str, a: &[String], t: u64|
            p@ == "npm"@ && views(a@) == seq!["--version"@] && t == 5 ==> #[trigger] runner.requires((p, a, t)),
        forall|p: &str, a: &[String], t: u64|
            npm_scan_command(p@, views(a@), t) && crate::command::version_answered(*runner, "npm"@) ==> #[trigger] runner.requires((p, a, t)),
    ensures
        r.id == ManagerId::Npm,
        r.label@ == "npm"@,
        r.status == finished_status(r),
        r.version is None ==> r.commands@.len() == 0 && r.packages@.len() == 0 && r.paths@.len() == 0
            && r.failures@.len() == 1 && exists|out: Result<CommandRun, CommandFailure>|
            #[trigger] crate::command::answered_run(*runner, "npm"@, seq!["--version"@], 5, out)
                && crate::command::recorded_failure(r.failures@[0], out, "npm version probe failed"@),
        r.version matches Some(v) ==> (exists|run: CommandRun|
            #[trigger] crate::command::answered_run(*runner, "npm"@, seq!["--version"@], 5, Ok(run))
                && run.exit_code == Some(0i32) && v@ == crate::text::trim(run.stdout@)) && r.commands@.len() == 3
            && envelope_is(r.commands@[0], "npm"@, npm_list_args(), 15000)
            && envelope_is(r.commands@[1], "npm"@, seq!["config"@, "get"@, "cache"@], 5000)
            && envelope_is(r.commands@[2], "npm"@, seq!["root"@, "-g"@], 5000)
            && npm_packages_listed(*runner, r.packages@) && exists|f1: Seq<CommandFailure>, f2: Seq<CommandFailure>|
            #![trigger lookup_grew(*runner, "npm"@, npm_cache_args(), 5, f1, f2)]
            node_list_grew(*runner, "npm"@, npm_list_args(), "npm global package list failed"@, false, Seq::<CommandFailure>::empty(), f1)
                && lookup_grew(*runner, "npm"@, npm_cache_args(), 5, f1, f2)
                && lookup_grew(*runner, "npm"@, root_args(), 5, f2, r.failures@),
        npm_paths(r.paths@),
        forall|k: int| 0 <= k < r.packages@.len() ==> (#[trigger] r.packages@[k]).source@ == "npm ls -g --depth=0 --json"@
            && r.packages@[k].kind == PackageKind::Generic && r.packages@[k].actions@.len() == 0,
        r.homebrew is None && r.maven is None && r.pip is None && r.docker is None,
{
    let mut snapshot = empty_snapshot(ManagerId::Npm, "npm");
    let version = match probe_version(&mut snapshot, runner, "npm", "npm version probe failed") {
        Some(v) => v,
        None => return finish(snapshot),
    };
    snapshot.version = Some(version);
    assert(crate::command::str_views(["ls", "-g", "--depth=0", "--json"]@) == npm_list_args());
    assert(crate::command::str_views(["config", "get", "cache"]@) == seq!["config"@, "get"@, "cache"@]);
    assert(crate::command::str_views(["root", "-g"]@) == seq!["root"@, "-g"@]);
    push_command(&mut snapshot, "npm", &["ls", "-g", "--depth=0", "--json"], 15);
    let ghost c1 = snapshot.commands@;
    push_command(&mut snapshot, "npm", &["config", "get", "cache"], 5);
    proof { crate::command::lemma_log_extends(c1, snapshot.commands@); }
    let ghost c2 = snapshot.commands@;
    push_command(&mut snapshot, "npm", &["root", "-g"], 5);
    proof { crate::command::lemma_log_extends(c2, snapshot.commands@); }
    let ghost f0 = snapshot.failures@;
    assert(f0 =~= Seq::<CommandFailure>::empty());
    let out = crate::command::ask_runner(runner, "npm", &["ls", "-g", "--depth=0", "--json"], 15);
    assert(crate::command::answered_run(*runner, "npm"@, npm_list_args(), 15, out));
    let ghost list_out = out;
    match out {
        Ok(run) => {
            if run.exit_code == Some(0i32) {
                match parse_npm_packages(run.stdout.as_str()) {
                    Ok(packages) => {
                        proof {
                            let doc = json_document(run.stdout@)->0;
                            match dependencies_of(doc) {
                                None => {
                                    assert(npm_rows_of(Seq::<PackageRow>::empty(), doc));
                                    assert(sorted_by_name(Seq::<PackageRow>::empty()) =~= Seq::<PackageRow>::empty());
                                    assert(packages@.len() == 0);
                                },
                                Some(members) => {
                                    let es = dependency_entries(members);
                                    let u = choose|u: Seq<PackageRow>|
                                        #[trigger] sorted_by_name(u) == packages@ && u.len() == es.len() && forall|i: int|
                                            0 <= i < u.len() ==> node_row(#[trigger] u[i], es[i], "npm ls -g --depth=0 --json"@);
                                    assert forall|i: int| 0 <= i < u.len() implies #[trigger] npm_listed(u[i]) by {
                                        assert(node_row(u[i], es[i], "npm ls -g --depth=0 --json"@));
                                    }
                                    crate::scan_support::lemma_sorted_all(u, |row: PackageRow| npm_listed(row));
                                    crate::scan_support::lemma_sorted_len(u);
                                    assert(npm_rows_of(u, doc));
                                },
                            }
                        }
                        snapshot.packages = packages;
                        assert(npm_packages_listed(*runner, snapshot.packages@));
                    },
                    Err(message) => snapshot.failures.push(parse_failure(message, run)),
                }
            } else {
                snapshot.failures.push(command_failure(FailureKind::CommandFailed, "npm global package list failed", run));
            }
        },
        Err(failure) => snapshot.failures.push(failure),
    }
    assert forall|k: int| 0 <= k < snapshot.packages@.len() implies #[trigger] npm_listed(snapshot.packages@[k]) by {}
    assert(npm_packages_listed(*runner, snapshot.packages@));
    let ghost f1 = snapshot.failures@;
    proof {
        assert(f1.subrange(0, 0) =~= f0);
        if f1.len() > 0 {
            assert(crate::command::added_since(f0, f1) =~= seq![f1[0]]);
        } else {
            assert(crate::command::added_since(f0, f1) =~= Seq::<CommandFailure>::empty());
        }
    }
    assert(node_list_grew(*runner, "npm"@, npm_list_args(), "npm global package list failed"@, false, f0, f1));
    if let Some(path) = command_stdout_with_runner("npm", &["config", "get", "cache"], 5, &mut snapshot, runner) {
        let npx_path = npx_cache_path(path.as_str());
        snapshot.paths.push(path_info("Cache", PathKind::Cache, path));
        snapshot.paths.push(path_info("npx cache", PathKind::NpxCache, npx_path));
    }
    assert(npm_paths(snapshot.paths@));
    let ghost f2 = snapshot.failures@;
    assert(lookup_grew(*runner, "npm"@, npm_cache_args(), 5, f1, f2));
    if let Some(path) = command_stdout_with_runner("npm", &["root", "-g"], 5, &mut snapshot, runner) {
        let ghost before = snapshot.packages@;
        attach_missing_paths(&mut snapshot.packages, path.as_str());
        assert forall|k: int| 0 <= k < snapshot.packages@.len() implies #[trigger] npm_listed(snapshot.packages@[k]) by {
            assert(npm_listed(before[k]));
        }
        assert forall|k: int| 0 <= k < snapshot.packages@.len() implies #[trigger] snapshot.packages@[k].name == before[k].name
            && snapshot.packages@[k].version == before[k].version by {}
        proof { lemma_npm_listed_keeps(*runner, before, snapshot.packages@); }
        snapshot.paths.push(path_info("Global modules", PathKind::GlobalModules, path));
    }
    finish(snapshot)
}

/// The failure message of a lookup whose run did not exit cleanly: its
/// preview followed by ` failed`.
pub open spec fn preview_failed(out: Result<CommandRun, CommandFailure>) -> Seq<char> {
    match out {
        Ok(run) => run.envelope.preview@ + " failed"@,
        Err(_) => Seq::empty(),
    }
}

/// The failures went from `before` to `after` by what the answer to a
/// lookup (`program args`) added.
pub open spec fn lookup_grew<F: Fn(&str, &[String], u64) -> Result<CommandRun, CommandFailure>>(
    runner: F,
    program: Seq<char>,
    args: Seq<Seq<char>>,
    secs: u64,
    before: Seq<CommandFailure>,
    after: Seq<CommandFailure>,
) -> bool {
    &&& crate::command::extends(before, after)
    &&& exists|out: Result<CommandRun, CommandFailure>|
        #[trigger] crate::command::answered_run(runner, program, args, secs, out)
            && crate::command::adds_failures(out, preview_failed(out), crate::command::added_since(before, after))
}

/// The failures went from `before` to `after` by the answer to a global
/// package list (`program args`, 15 s) whose clean output is refused when it
/// is not JSON, or, with `array`, not a JSON array.
pub open spec fn node_list_grew<F: Fn(&str, &[String], u64) -> Result<CommandRun, CommandFailure>>(
    runner: F,
    program: Seq<char>,
    args: Seq<Seq<char>>,
    message: Seq<char>,
    array: bool,
    before: Seq<CommandFailure>,
    after: Seq<CommandFailure>,
) -> bool {
    &&& crate::command::extends(before, after)
    &&& exists|out: Result<CommandRun, CommandFailure>|
        #[trigger] crate::command::answered_run(runner, program, args, 15, out) && crate::command::parsed_adds(
            out,
            message,
            crate::command::clean_exit(out) && !(json_document(out->Ok_0.stdout@) is Some && (!array
                || json_document(out->Ok_0.stdout@)->0 is Array)),
            crate::command::added_since(before, after),
        )
}

pub open spec fn npm_cache_args() -> Seq<Seq<char>> {
    seq!["config"@, "get"@, "cache"@]
}

pub open spec fn root_args() -> Seq<Seq<char>> {
    seq!["root"@, "-g"@]
}

pub open spec fn pnpm_store_args() -> Seq<Seq<char>> {
    seq!["store"@, "path"@]
}

/// The rows of a parsed `npm ls -g --depth=0 --json` document: one per
/// dependency, in the order of the document; none without `dependencies`.
pub open spec fn npm_rows_of(u: Seq<PackageRow>, doc: JsonView) -> bool {
    match dependencies_of(doc) {
        None => u.len() == 0,
        Some(members) => u.len() == dependency_entries(members).len() && forall|i: int|
            0 <= i < u.len() ==> node_row(#[trigger] u[i], dependency_entries(members)[i], "npm ls -g --depth=0 --json"@),
    }
}

/// The packages of an npm scan come from `npm ls -g --depth=0 --json`: on a
/// clean exit with JSON, its dependencies sorted by name (by name and
/// version, whatever paths were added); otherwise none.
pub open spec fn npm_packages_listed<F: Fn(&str, &[String], u64) -> Result<CommandRun, CommandFailure>>(
    runner: F,
    packages: Seq<PackageRow>,
) -> bool {
    ||| exists|run: CommandRun, u: Seq<PackageRow>|
        #![trigger crate::command::answered_run(runner, "npm"@, npm_list_args(), 15, Ok::<CommandRun, CommandFailure>(run)), sorted_by_name(u)]
        crate::command::answered_run(runner, "npm"@, npm_list_args(), 15, Ok::<CommandRun, CommandFailure>(run))
            && run.exit_code == Some(0i32) && json_document(run.stdout@) is Some
            && npm_rows_of(u, json_document(run.stdout@)->0) && packages.len() == u.len()
            && forall|k: int| 0 <= k < packages.len() ==> #[trigger] packages[k].name == sorted_by_name(u)[k].name
                && packages[k].version == sorted_by_name(u)[k].version
    ||| packages.len() == 0 && exists|out: Result<CommandRun, CommandFailure>|
        #[trigger] crate::command::answered_run(runner, "npm"@, npm_list_args(), 15, out)
            && !(crate::command::clean_exit(out) && json_document(out->Ok_0.stdout@) is Some)
}

proof fn lemma_npm_listed_keeps<F: Fn(&str, &[String], u64) -> Result<CommandRun, CommandFailure>>(
    runner: F,
    a: Seq<PackageRow>,
    b: Seq<PackageRow>,
)
    requires
        npm_packages_listed(runner, a),
        a.len() == b.len(),
        forall|k: int| 0 <= k < b.len() ==> #[trigger] b[k].name == a[k].name && b[k].version == a[k].version,
    ensures
        npm_packages_listed(runner, b),
{
    if a.len() == 0 {
        assert(b =~= a);
    } else {
        let (run, u) = choose|run: CommandRun, u: Seq<PackageRow>|
            crate::command::answered_run(runner, "npm"@, npm_list_args(), 15, Ok::<CommandRun, CommandFailure>(run))
                && run.exit_code == Some(0i32) && json_document(run.stdout@) is Some
                && npm_rows_of(u, json_document(run.stdout@)->0) && a.len() == u.len()
                && forall|k: int| 0 <= k < a.len() ==> #[trigger] a[k].name == sorted_by_name(u)[k].name
                    && a[k].version == sorted_by_name(u)[k].version;
        assert forall|k: int| 0 <= k < b.len() implies #[trigger] b[k].name == sorted_by_name(u)[k].name
            && b[k].version == sorted_by_name(u)[k].version by {
            assert(a[k].name == sorted_by_name(u)[k].name);
        }
    }
}

/// The rows of a parsed `pnpm list -g --depth=0 --json` array: one per
/// dependency of each workspace, in the order of the document.
pub open spec fn pnpm_rows_of(u: Seq<PackageRow>, doc: JsonView) -> bool {
    doc matches JsonView::Array(ws, _) && u.len() == workspace_entries(ws).len() && forall|i: int|
        0 <= i < u.len() ==> node_row(#[trigger] u[i], workspace_entries(ws)[i], "pnpm list -g --depth=0 --json"@)
}

/// The packages of a pnpm scan come from `pnpm list -g --depth=0 --json`:
/// on a clean exit with a JSON array, its dependencies sorted by name (by
/// name and version, whatever paths were added); otherwise none.
pub open spec fn pnpm_packages_listed<F: Fn(&str, &[String], u64) -> Result<CommandRun, CommandFailure>>(
    runner: F,
    packages: Seq<PackageRow>,
) -> bool {
    ||| exists|run: CommandRun, u: Seq<PackageRow>|
        #![trigger crate::command::answered_run(runner, "pnpm"@, pnpm_list_args(), 15, Ok::<CommandRun, CommandFailure>(run)), sorted_by_name(u)]
        crate::command::answered_run(runner, "pnpm"@, pnpm_list_args(), 15, Ok::<CommandRun, CommandFailure>(run))
            && run.exit_code == Some(0i32) && json_document(run.stdout@) is Some
            && pnpm_rows_of(u, json_document(run.stdout@)->0) && packages.len() == u.len()
            && forall|k: int| 0 <= k < packages.len() ==> #[trigger] packages[k].name == sorted_by_name(u)[k].name
                && packages[k].version == sorted_by_name(u)[k].version
    ||| packages.len() == 0 && exists|out: Result<CommandRun, CommandFailure>|
        #[trigger] crate::command::answered_run(runner, "pnpm"@, pnpm_list_args(), 15, out)
            && !(crate::command::clean_exit(out) && json_document(out->Ok_0.stdout@) matches Some(JsonView::Array(_, _)))
}

proof fn lemma_pnpm_listed_keeps<F: Fn(&str, &[String], u64) -> Result<CommandRun, CommandFailure>>(
    runner: F,
    a: Seq<PackageRow>,
    b: Seq<PackageRow>,
)
    requires
        pnpm_packages_listed(runner, a),
        a.len() == b.len(),
        forall|k: int| 0 <= k < b.len() ==> #[trigger] b[k].name == a[k].name && b[k].version == a[k].version,
    ensures
        pnpm_packages_listed(runner, b),
{
    if a.len() == 0 {
        assert(b =~= a);
    } else {
        let (run, u) = choose|run: CommandRun, u: Seq<PackageRow>|
            crate::command::answered_run(runner, "pnpm"@, pnpm_list_args(), 15, Ok::<CommandRun, CommandFailure>(run))
                && run.exit_code == Some(0i32) && json_document(run.stdout@) is Some
                && pnpm_rows_of(u, json_document(run.stdout@)->0) && a.len() == u.len()
                && forall|k: int| 0 <= k < a.len() ==> #[trigger] a[k].name == sorted_by_name(u)[k].name
                    && a[k].version == sorted_by_name(u)[k].version;
        assert forall|k: int| 0 <= k < b.len() implies #[trigger] b[k].name == sorted_by_name(u)[k].name
            && b[k].version == sorted_by_name(u)[k].version by {
            assert(a[k].name == sorted_by_name(u)[k].name);
        }
    }
}

pub open spec fn npm_listed(row: PackageRow) -> bool {
    &&& row.source@ == "npm ls -g --depth=0 --json"@
    &&& row.kind == PackageKind::Generic
    &&& row.actions@.len() == 0
}

/// The read-only commands a pnpm scan may run, with their budgets.
pub open spec fn pnpm_scan_command(program: Seq<char>, args: Seq<Seq<char>>, timeout: u64) -> bool {
    &&& program == "pnpm"@
    &&& {
        ||| args == seq!["--version"@] && timeout == 5
        ||| args == pnpm_list_args() && timeout == 15
        ||| args == seq!["store"@, "path"@] && timeout == 5
        ||| args == seq!["root"@, "-g"@] && timeout == 5
    }
}

pub open spec fn pnpm_list_args() -> Seq<Seq<char>> {
    seq!["list"@, "-g"@, "--depth=0"@, "--json"@]
}

pub open spec fn pnpm_listed(row: PackageRow) -> bool {
    &&& row.source@ == "pnpm list -g --depth=0 --json"@
    &&& row.kind == PackageKind::Generic
    &&& row.actions@.len() == 0
}

/// Scans pnpm: its version (probed without being logged), the global
/// packages (each given a path under the global modules when pnpm did not
/// name one), the store and the global modules directory.
#[verifier::rlimit(40)]
pub fn scan_pnpm_with_runner<F>(runner: &F) -> (r: ManagerSnapshot) where
    F: Fn(&str, &[String], u64) -> Result<CommandRun, CommandFailure>,

    requires
        forall|p: &str, a: &[String], t: u64|
            p@ == "pnpm"@ && views(a@) == seq!["--version"@] && t == 5 ==> #[trigger] runner.requires((p, a, t)),
        forall|p: &str, a: &[String], t: u64|
            pnpm_scan_command(p@, views(a@), t) && crate::command::version_answered(*runner, "pnpm"@) ==> #[trigger] runner.requires((p, a, t)),
    ensures
        r.id == ManagerId::Pnpm,
        r.label@ == "pnpm"@,
        r.status == finished_status(r),
        r.version is None ==> r.commands@.len() == 0 && r.packages@.len() == 0 && r.paths@.len() == 0
            && r.failures@.len() == 1 && exists|out: Result<CommandRun, CommandFailure>|
            #[trigger] crate::command::answered_run(*runner, "pnpm"@, seq!["--version"@], 5, out)
                && crate::command::recorded_failure(r.failures@[0], out, "pnpm version probe failed"@),
        r.version matches Some(v) ==> (exists|run: CommandRun|
            #[trigger] crate::command::answered_run(*runner, "pnpm"@, seq!["--version"@], 5, Ok(run))
                && run.exit_code == Some(0i32) && v@ == crate::text::trim(run.stdout@)) && r.commands@.len() == 3
            && envelope_is(r.commands@[0], "pnpm"@, pnpm_list_args(), 15000)
            && envelope_is(r.commands@[1], "pnpm"@, seq!["store"@, "path"@], 5000)
            && envelope_is(r.commands@[2], "pnpm"@, seq!["root"@, "-g"@], 5000)
            && pnpm_packages_listed(*runner, r.packages@) && exists|f1: Seq<CommandFailure>, f2: Seq<CommandFailure>|
            #![trigger lookup_grew(*runner, "pnpm"@, pnpm_store_args(), 5, f1, f2)]
            node_list_grew(*runner, "pnpm"@, pnpm_list_args(), "pnpm global package list failed"@, true, Seq::<CommandFailure>::empty(), f1)
                && lookup_grew(*runner, "pnpm"@, pnpm_store_args(), 5, f1, f2)
                && lookup_grew(*runner, "pnpm"@, root_args(), 5, f2, r.failures@),
        r.paths@.len() <= 2,
        forall|k: int| 0 <= k < r.paths@.len() ==> (#[trigger] r.paths@[k]).kind == PathKind::Store || r.paths@[k].kind == PathKind::GlobalModules,
        forall|k: int| 0 <= k < r.packages@.len() ==> pnpm_listed(#[trigger] r.packages@[k]),
        r.homebrew is None && r.maven is None && r.pip is None && r.docker is None,
{
    let mut snapshot = empty_snapshot(ManagerId::Pnpm, "pnpm");
    let version = match probe_version(&mut snapshot, runner, "pnpm", "pnpm version probe failed") {
        Some(v) => v,
        None => return finish(snapshot),
    };
    snapshot.version = Some(version);
    assert(crate::command::str_views(["list", "-g", "--depth=0", "--json"]@) == pnpm_list_args());
    assert(crate::command::str_views(["store", "path"]@) == seq!["store"@, "path"@]);
    assert(crate::command::str_views(["root", "-g"]@) == seq!["root"@, "-g"@]);
    push_command(&mut snapshot, "pnpm", &["list", "-g", "--depth=0", "--json"], 15);
    let ghost c1 = snapshot.commands@;
    push_command(&mut snapshot, "pnpm", &["store", "path"], 5);
    proof { crate::command::lemma_log_extends(c1, snapshot.commands@); }
    let ghost c2 = snapshot.commands@;
    push_command(&mut snapshot, "pnpm", &["root", "-g"], 5);
    proof { crate::command::lemma_log_extends(c2, snapshot.commands@); }
    let ghost f0 = snapshot.failures@;
    assert(f0 =~= Seq::<CommandFailure>::empty());
    let out = crate::command::ask_runner(runner, "pnpm", &["list", "-g", "--depth=0", "--json"], 15);
    assert(crate::command::answered_run(*runner, "pnpm"@, pnpm_list_args(), 15, out));
    match out {
        Ok(run) => {
            if run.exit_code == Some(0i32) {
                match parse_pnpm_packages(run.stdout.as_str()) {
                    Ok(packages) => {
                        proof {
                            let ws = json_document(run.stdout@)->0->Array_0;
                            let es = workspace_entries(ws);
                            let u = choose|u: Seq<PackageRow>|
                                #[trigger] sorted_by_name(u) == packages@ && u.len() == es.len() && forall|i: int|
                                    0 <= i < u.len() ==> node_row(#[trigger] u[i], es[i], "pnpm list -g --depth=0 --json"@);
                            assert forall|i: int| 0 <= i < u.len() implies #[trigger] pnpm_listed(u[i]) by {
                                assert(node_row(u[i], es[i], "pnpm list -g --depth=0 --json"@));
                            }
                            crate::scan_support::lemma_sorted_all(u, |row: PackageRow| pnpm_listed(row));
                            crate::scan_support::lemma_sorted_len(u);
                            assert(pnpm_rows_of(u, json_document(run.stdout@)->0));
                        }
                        snapshot.packages = packages;
                        assert(pnpm_packages_listed(*runner, snapshot.packages@));
                    },
                    Err(message) => snapshot.failures.push(parse_failure(message, run)),
                }
            } else {
                snapshot.failures.push(command_failure(FailureKind::CommandFailed, "pnpm global package list failed", run));
            }
        },
        Err(failure) => snapshot.failures.push(failure),
    }
    assert(pnpm_packages_listed(*runner, snapshot.packages@));
    let ghost f1 = snapshot.failures@;
    proof {
        assert(f1.subrange(0, 0) =~= f0);
        if f1.len() > 0 {
            assert(crate::command::added_since(f0, f1) =~= seq![f1[0]]);
        } else {
            assert(crate::command::added_since(f0, f1) =~= Seq::<CommandFailure>::empty());
        }
    }
    assert(node_list_grew(*runner, "pnpm"@, pnpm_list_args(), "pnpm global package list failed"@, true, f0, f1));
    if let Some(path) = command_stdout_with_runner("pnpm", &["store", "path"], 5, &mut snapshot, runner) {
        snapshot.paths.push(path_info("Store", PathKind::Store, path));
    }
    let ghost f2 = snapshot.failures@;
    assert(lookup_grew(*runner, "pnpm"@, pnpm_store_args(), 5, f1, f2));
    if let Some(path) = command_stdout_with_runner("pnpm", &["root", "-g"], 5, &mut snapshot, runner) {
        let ghost before = snapshot.packages@;
        attach_missing_paths(&mut snapshot.packages, path.as_str());
        assert forall|k: int| 0 <= k < snapshot.packages@.len() implies #[trigger] pnpm_listed(snapshot.packages@[k]) by {
            assert(pnpm_listed(before[k]));
        }
        assert forall|k: int| 0 <= k < snapshot.packages@.len() implies #[trigger] snapshot.packages@[k].name == before[k].name
            && snapshot.packages@[k].version == before[k].version by {}
        proof { lemma_pnpm_listed_keeps(*runner, before, snapshot.packages@); }
        snapshot.paths.push(path_info("Global modules", PathKind::GlobalModules, path));
    }
    finish(snapshot)
}

/// The first `.`-piece of a Yarn version as a number, when it is one.
pub open spec fn yarn_major(version: Seq<char>) -> Option<u64> {
    crate::text::parse_u64_spec(crate::text::split_on(version, '.')[0])
}

/// The major version of Yarn.
pub fn parse_yarn_major(version: &str) -> (r: Option<u64>)
    ensures
        r == yarn_major(version@),
{
    let cs = crate::text::chars_of(version);
    let ranges = crate::path::split_ranges(&cs, '.');
    proof {
        crate::path::lemma_split_on_nonempty(cs@, '.');
    }
    let (lo, hi) = ranges[0];
    let first = crate::text::string_from(&cs, lo, hi);
    crate::text::parse_u64(first.as_str())
}

pub open spec fn yarn_listed(row: PackageRow) -> bool {
    &&& row.source@ == "yarn global list --json"@
    &&& row.kind == PackageKind::Generic
    &&& row.actions@.len() == 0
}

/// The rows `yarn global list --json` gave as `stdout` (see
/// `parse_yarn_classic_packages`).
pub open spec fn yarn_rows_of(rows: Seq<PackageRow>, stdout: Seq<char>) -> bool {
    match yarn_tree_fold(lines(stdout)) {
        None => rows.len() == human_tokens(lines(stdout)).len() && forall|i: int|
            0 <= i < rows.len() ==> yarn_row(#[trigger] rows[i], human_tokens(lines(stdout))[i]),
        Some(names) => {
            let raws = if names.len() == 0 { human_tokens(lines(stdout)) } else { names };
            exists|u: Seq<PackageRow>|
                #[trigger] sorted_by_name(u) == rows && u.len() == raws.len() && forall|i: int|
                    0 <= i < u.len() ==> yarn_row(#[trigger] u[i], raws[i])
        },
    }
}

/// The packages of a Yarn Classic scan come from `yarn global list --json`:
/// its rows on a clean exit; otherwise none.
pub open spec fn yarn_packages_listed<F: Fn(&str, &[String], u64) -> Result<CommandRun, CommandFailure>>(
    runner: F,
    packages: Seq<PackageRow>,
) -> bool {
    ||| exists|run: CommandRun|
        #[trigger] crate::command::answered_run(runner, "yarn"@, yarn_list_args(), 15, Ok::<CommandRun, CommandFailure>(run))
            && run.exit_code == Some(0i32) && yarn_rows_of(packages, run.stdout@)
    ||| packages.len() == 0 && exists|out: Result<CommandRun, CommandFailure>|
        #[trigger] crate::command::answered_run(runner, "yarn"@, yarn_list_args(), 15, out) && !crate::command::clean_exit(out)
}

pub open spec fn yarn_cache_dir_args() -> Seq<Seq<char>> {
    seq!["cache"@, "dir"@]
}

pub open spec fn yarn_global_dir_args() -> Seq<Seq<char>> {
    seq!["global"@, "dir"@]
}

/// The failures of a Yarn Classic scan went from `before` to `after` by the
/// global package list, then the cache and global directory lookups, each
/// adding the failure recorded for an answer that was not a clean exit.
pub open spec fn yarn_classic_failures<F: Fn(&str, &[String], u64) -> Result<CommandRun, CommandFailure>>(
    runner: F,
    before: Seq<CommandFailure>,
    after: Seq<CommandFailure>,
) -> bool {
    exists|f1: Seq<CommandFailure>, f2: Seq<CommandFailure>|
        #![trigger lookup_grew(runner, "yarn"@, yarn_cache_dir_args(), 5, f1, f2)]
        crate::command::failures_grew(runner, "yarn"@, yarn_list_args(), 15, "Yarn global package list failed"@, before, f1)
            && lookup_grew(runner, "yarn"@, yarn_cache_dir_args(), 5, f1, f2)
            && lookup_grew(runner, "yarn"@, yarn_global_dir_args(), 5, f2, after)
}

/// Yarn Classic: its global packages, cache and global directory.
pub fn scan_yarn_classic<F>(snapshot: &mut ManagerSnapshot, runner: &F) where
    F: Fn(&str, &[String], u64) -> Result<CommandRun, CommandFailure>,

    requires
        forall|p: &str, a: &[String], t: u64|
            yarn_scan_command(p@, views(a@), t) ==> #[trigger] runner.requires((p, a, t)),
        old(snapshot).packages@.len() == 0,
    ensures
        final(snapshot).id == old(snapshot).id,
        final(snapshot).label == old(snapshot).label,
        final(snapshot).status == old(snapshot).status,
        final(snapshot).version == old(snapshot).version,
        final(snapshot).unsupported_reason == old(snapshot).unsupported_reason,
        final(snapshot).homebrew == old(snapshot).homebrew && final(snapshot).maven == old(snapshot).maven
            && final(snapshot).pip == old(snapshot).pip && final(snapshot).docker == old(snapshot).docker,
        final(snapshot).commands@.len() == old(snapshot).commands@.len() + 3,
        final(snapshot).commands@.subrange(0, old(snapshot).commands@.len() as int) == old(snapshot).commands@,
        envelope_is(final(snapshot).commands@[old(snapshot).commands@.len() as int], "yarn"@, yarn_list_args(), 15000),
        envelope_is(final(snapshot).commands@[old(snapshot).commands@.len() as int + 1], "yarn"@, seq!["cache"@, "dir"@], 5000),
        envelope_is(final(snapshot).commands@[old(snapshot).commands@.len() as int + 2], "yarn"@, seq!["global"@, "dir"@], 5000),
        forall|k: int| 0 <= k < final(snapshot).packages@.len() ==> yarn_listed(#[trigger] final(snapshot).packages@[k]),
        yarn_classic_failures(*runner, old(snapshot).failures@, final(snapshot).failures@),
        yarn_packages_listed(*runner, final(snapshot).packages@),
{
    let ghost f0 = snapshot.failures@;
    let ghost c0 = snapshot.commands@;
    assert(crate::command::str_views(["global", "list", "--json"]@) == yarn_list_args());
    assert(crate::command::str_views(["cache", "dir"]@) == seq!["cache"@, "dir"@]);
    assert(crate::command::str_views(["global", "dir"]@) == seq!["global"@, "dir"@]);
    push_command(snapshot, "yarn", &["global", "list", "--json"], 15);
    let ghost c1 = snapshot.commands@;
    push_command(snapshot, "yarn", &["cache", "dir"], 5);
    proof { crate::command::lemma_log_extends(c1, snapshot.commands@); }
    let ghost c2 = snapshot.commands@;
    push_command(snapshot, "yarn", &["global", "dir"], 5);
    proof { crate::command::lemma_log_extends(c2, snapshot.commands@); }
    assert(snapshot.commands@.subrange(0, c0.len() as int) =~= c0);
    let out = crate::command::ask_runner(runner, "yarn", &["global", "list", "--json"], 15);
    assert(crate::command::answered_run(*runner, "yarn"@, yarn_list_args(), 15, out));
    let ghost yo = out;
    match out {
        Ok(run) => {
            if run.exit_code == Some(0i32) {
                match parse_yarn_classic_packages(run.stdout.as_str()) {
                    Ok(packages) => {
                        proof {
                            let lv = lines(run.stdout@);
                            match yarn_tree_fold(lv) {
                                None => {
                                    assert forall|k: int| 0 <= k < packages@.len() implies #[trigger] yarn_listed(packages@[k]) by {
                                        assert(yarn_row(packages@[k], human_tokens(lv)[k]));
                                    }
                                },
                                Some(names) => {
                                    let raws = if names.len() == 0 { human_tokens(lv) } else { names };
                                    let u = choose|u: Seq<PackageRow>|
                                        #[trigger] sorted_by_name(u) == packages@ && u.len() == raws.len() && forall|i: int|
                                            0 <= i < u.len() ==> yarn_row(#[trigger] u[i], raws[i]);
                                    assert forall|i: int| 0 <= i < u.len() implies #[trigger] yarn_listed(u[i]) by {
                                        assert(yarn_row(u[i], raws[i]));
                                    }
                                    crate::scan_support::lemma_sorted_all(u, |row: PackageRow| yarn_listed(row));
                                },
                            }
                        }
                        snapshot.packages = packages;
                        assert(yarn_rows_of(snapshot.packages@, run.stdout@));
                    },
                    Err(message) => snapshot.failures.push(parse_failure(message, run)),
                }
            } else {
                snapshot.failures.push(command_failure(FailureKind::CommandFailed, "Yarn global package list failed", run));
            }
        },
        Err(failure) => snapshot.failures.push(failure),
    }
    assert(yarn_packages_listed(*runner, snapshot.packages@));
    let ghost f1 = snapshot.failures@;
    proof {
        if crate::command::clean_exit(yo) {
            assert(crate::command::added_since(f0, f1) =~= Seq::<CommandFailure>::empty());
        } else {
            assert(crate::command::added_since(f0, f1) =~= seq![f1.last()]);
        }
        assert(f1.subrange(0, f0.len() as int) =~= f0);
        assert(crate::command::failures_grew(*runner, "yarn"@, yarn_list_args(), 15, "Yarn global package list failed"@, f0, f1));
    }
    if let Some(path) = command_stdout_with_runner("yarn", &["cache", "dir"], 5, snapshot, runner) {
        snapshot.paths.push(path_info("Cache", PathKind::Cache, path));
    }
    let ghost f2 = snapshot.failures@;
    assert(lookup_grew(*runner, "yarn"@, yarn_cache_dir_args(), 5, f1, f2));
    if let Some(path) = command_stdout_with_runner("yarn", &["global", "dir"], 5, snapshot, runner) {
        snapshot.paths.push(path_info("Global dir", PathKind::GlobalDir, path));
    }
    assert(lookup_grew(*runner, "yarn"@, yarn_global_dir_args(), 5, f2, snapshot.failures@));
}

pub open spec fn yarn_list_args() -> Seq<Seq<char>> {
    seq!["global"@, "list"@, "--json"@]
}

pub open spec fn yarn_modern_reason() -> Seq<char> {
    "Yarn 2+ does not expose a global package list equivalent to npm, pnpm, or Yarn Classic."@
}

pub open spec fn yarn_cache_folder_args() -> Seq<Seq<char>> {
    seq!["config"@, "get"@, "cacheFolder"@]
}

/// The paths after asking Yarn 2+ for its cache folder: the folder it
/// reports on a clean exit is added as the cache path; otherwise nothing.
pub open spec fn yarn_cache_folder_added<F: Fn(&str, &[String], u64) -> Result<CommandRun, CommandFailure>>(
    runner: F,
    before: Seq<PathInfo>,
    after: Seq<PathInfo>,
) -> bool {
    exists|out: Result<CommandRun, CommandFailure>|
        #[trigger] crate::command::answered_run(runner, "yarn"@, yarn_cache_folder_args(), 5, out)
            && match out {
            Ok(run) => if run.exit_code == Some(0i32) {
                after.len() == before.len() + 1 && after.drop_last() == before && after.last().kind
                    == PathKind::Cache && after.last().label@ == "Cache folder"@ && after.last().path@
                    == crate::text::trim(run.stdout@)
            } else {
                after == before
            },
            Err(_) => after == before,
        }
}

/// Yarn 2 and later: unsupported for global packages; only its cache folder
/// is reported.
pub fn scan_yarn_modern<F>(snapshot: &mut ManagerSnapshot, runner: &F) where
    F: Fn(&str, &[String], u64) -> Result<CommandRun, CommandFailure>,

    requires
        forall|p: &str, a: &[String], t: u64|
            yarn_scan_command(p@, views(a@), t) ==> #[trigger] runner.requires((p, a, t)),
    ensures
        final(snapshot).id == old(snapshot).id,
        final(snapshot).label == old(snapshot).label,
        final(snapshot).status == ManagerStatus::Unsupported,
        final(snapshot).unsupported_reason matches Some(m) && m@ == yarn_modern_reason(),
        final(snapshot).version == old(snapshot).version,
        final(snapshot).packages == old(snapshot).packages,
        final(snapshot).homebrew == old(snapshot).homebrew && final(snapshot).maven == old(snapshot).maven
            && final(snapshot).pip == old(snapshot).pip && final(snapshot).docker == old(snapshot).docker,
        final(snapshot).commands@.len() == old(snapshot).commands@.len() + 1,
        final(snapshot).commands@.drop_last() == old(snapshot).commands@,
        envelope_is(final(snapshot).commands@.last(), "yarn"@, seq!["config"@, "get"@, "cacheFolder"@], 5000),
        yarn_cache_folder_added(*runner, old(snapshot).paths@, final(snapshot).paths@),
{
    snapshot.status = ManagerStatus::Unsupported;
    snapshot.unsupported_reason = Some(
        owned("Yarn 2+ does not expose a global package list equivalent to npm, pnpm, or Yarn Classic."),
    );
    assert(crate::command::str_views(["config", "get", "cacheFolder"]@) == seq!["config"@, "get"@, "cacheFolder"@]);
    push_command(snapshot, "yarn", &["config", "get", "cacheFolder"], 5);
    let ghost before = snapshot.paths@;
    let ghost mid = *snapshot;
    let ghost av = crate::command::str_views(["config", "get", "cacheFolder"]@);
    assert(av == yarn_cache_folder_args());
    let found = command_stdout_with_runner("yarn", &["config", "get", "cacheFolder"], 5, snapshot, runner);
    let ghost after_ask = *snapshot;
    proof {
        let out = choose|out: Result<CommandRun, CommandFailure>|
            #[trigger] crate::command::answered_run(*runner, "yarn"@, av, 5, out) && match out {
                Ok(run) => if run.exit_code == Some(0i32) {
                    found matches Some(s) && s@ == crate::text::trim(run.stdout@) && after_ask.failures == mid.failures
                } else {
                    found is None && after_ask.failures@ == mid.failures@.push(after_ask.failures@.last())
                        && after_ask.failures@.last().kind == FailureKind::CommandFailed
                        && after_ask.failures@.last().message@ == run.envelope.preview@ + " failed"@
                },
                Err(f) => found is None && after_ask.failures@ == mid.failures@.push(f),
            };
        assert(crate::command::answered_run(*runner, "yarn"@, yarn_cache_folder_args(), 5, out));
    }
    if let Some(path) = found {
        snapshot.paths.push(path_info("Cache folder", PathKind::Cache, path));
        assert(snapshot.paths@.drop_last() == before);
    }
}

/// The read-only commands a Yarn scan may run, with their budgets.
pub open spec fn yarn_scan_command(program: Seq<char>, args: Seq<Seq<char>>, timeout: u64) -> bool {
    &&& program == "yarn"@
    &&& {
        ||| args == seq!["--version"@] && timeout == 5
        ||| args == yarn_list_args() && timeout == 15
        ||| args == seq!["cache"@, "dir"@] && timeout == 5
        ||| args == seq!["global"@, "dir"@] && timeout == 5
        ||| args == seq!["config"@, "get"@, "cacheFolder"@] && timeout == 5
    }
}

/// Scans Yarn: its version (probed without being logged) decides between
/// Yarn Classic (major version 1), whose global packages are listed, and
/// later Yarn, which is reported unsupported; a version without a numeric
/// major is a parse failure.
#[verifier::rlimit(40)]
pub fn scan_yarn_with_runner<F>(runner: &F) -> (r: ManagerSnapshot) where
    F: Fn(&str, &[String], u64) -> Result<CommandRun, CommandFailure>,

    requires
        forall|p: &str, a: &[String], t: u64|
            p@ == "yarn"@ && views(a@) == seq!["--version"@] && t == 5 ==> #[trigger] runner.requires((p, a, t)),
        forall|p: &str, a: &[String], t: u64|
            yarn_scan_command(p@, views(a@), t) && crate::command::version_answered(*runner, "yarn"@) ==> #[trigger] runner.requires((p, a, t)),
    ensures
        r.id == ManagerId::Yarn,
        r.label@ == "Yarn"@,
        r.status == finished_status(r),
        r.version is None ==> r.commands@.len() == 0 && r.packages@.len() == 0 && r.failures@.len() == 1
            && exists|out: Result<CommandRun, CommandFailure>|
            #[trigger] crate::command::answered_run(*runner, "yarn"@, seq!["--version"@], 5, out)
                && crate::command::recorded_failure(r.failures@[0], out, "Yarn version probe failed"@),
        r.version matches Some(v) ==> {
            &&& exists|run: CommandRun|
                #[trigger] crate::command::answered_run(*runner, "yarn"@, seq!["--version"@], 5, Ok(run))
                    && run.exit_code == Some(0i32) && v@ == crate::text::trim(run.stdout@)
            &&& yarn_major(v@) == Some(1u64) ==> r.commands@.len() == 3 && envelope_is(r.commands@[0], "yarn"@, yarn_list_args(), 15000)
                && yarn_classic_failures(*runner, Seq::<CommandFailure>::empty(), r.failures@)
                && yarn_packages_listed(*runner, r.packages@)
            &&& (yarn_major(v@) is Some && yarn_major(v@) != Some(1u64)) ==> r.status == ManagerStatus::Unsupported
                && (r.unsupported_reason matches Some(m) && m@ == yarn_modern_reason()) && r.packages@.len() == 0
                && r.commands@.len() == 1 && yarn_cache_folder_added(*runner, Seq::<PathInfo>::empty(), r.paths@)
            &&& yarn_major(v@) is None ==> r.commands@.len() == 0 && r.packages@.len() == 0 && r.failures@.last().kind
                == FailureKind::ParseFailure && r.failures@.last().message@ == "Could not parse Yarn version: "@ + v@
        },
        forall|k: int| 0 <= k < r.packages@.len() ==> yarn_listed(#[trigger] r.packages@[k]),
        r.homebrew is None && r.maven is None && r.pip is None && r.docker is None,
{
    let mut snapshot = empty_snapshot(ManagerId::Yarn, "Yarn");
    let version = match probe_version(&mut snapshot, runner, "yarn", "Yarn version probe failed") {
        Some(v) => v,
        None => return finish(snapshot),
    };
    snapshot.version = Some(version.clone());
    match parse_yarn_major(version.as_str()) {
        Some(major) => {
            if major == 1 {
                assert(snapshot.failures@ =~= Seq::<CommandFailure>::empty());
                scan_yarn_classic(&mut snapshot, runner);
            } else {
                let ghost before = snapshot;
                assert(before.paths@ =~= Seq::<PathInfo>::empty());
                scan_yarn_modern(&mut snapshot, runner);
                assert(snapshot.commands@.len() == 1);
                assert(yarn_cache_folder_added(*runner, Seq::<PathInfo>::empty(), snapshot.paths@));
            }
        },
        None => {
            let mut message = owned("Could not parse Yarn version: ");
            crate::text::push_str(&mut message, version.as_str());
            snapshot.failures.push(
                CommandFailure {
                    kind: FailureKind::ParseFailure,
                    message,
                    command: None,
                    stdout: version,
                    stderr: String::new(),
                },
            );
        },
    }
    finish(snapshot)
}

/// `NVM_DIR` when set and not blank, with `~` expanded; else `~/.nvm`; else
/// the relative `.nvm`.
pub open spec fn nvm_dir_spec(nvm_dir: Option<Seq<char>>, home: Option<Seq<char>>) -> Seq<char> {
    match nvm_dir {
        Some(v) if crate::text::trim(v).len() > 0 => crate::scan_support::tilde_expansion(crate::text::trim(v), home),
        _ => match home {
            Some(h) => join_path(h, ".nvm"@),
            None => ".nvm"@,
        },
    }
}

/// The nvm directory.
pub fn resolve_nvm_dir(nvm_dir: Option<&str>, home: Option<&str>) -> (r: String)
    ensures
        r@ == nvm_dir_spec(crate::cargo::opt_str_view(nvm_dir), crate::cargo::opt_str_view(home)),
{
    if let Some(value) = nvm_dir {
        let v = crate::text::trim_string(value);
        if !v.as_str().is_empty() {
            return crate::scan_support::expand_tilde(v.as_str(), home);
        }
    }
    match home {
        Some(h) => join(h, ".nvm"),
        None => owned(".nvm"),
    }
}

/// The Node version a `vX.Y.Z` directory holds: the text after `v`, when it
/// starts with a digit.
pub open spec fn nvm_dir_version(name: Seq<char>) -> Option<Seq<char>> {
    match crate::text::strip_prefix(name, "v"@) {
        Some(v) => if v.len() > 0 && crate::text::is_ascii_digit(v[0]) {
            Some(v)
        } else {
            None
        },
        None => None,
    }
}

/// The Node version of an nvm versions directory name.
pub fn parse_nvm_node_version_dir(name: &str) -> (r: Option<String>)
    ensures
        crate::text::opt_view(r) == nvm_dir_version(name@),
{
    let v = match crate::text::strip_prefix_str(name, "v") {
        Some(v) => v,
        None => return None,
    };
    let cs = crate::text::chars_of(v.as_str());
    if cs.len() > 0 && crate::text::is_digit(cs[0]) {
        Some(v)
    } else {
        None
    }
}

/// The Node version of `NVM_BIN`: the directory holding `bin` (or the last
/// component) read as a versions directory.
pub open spec fn version_from_bin(path: Seq<char>) -> Option<Seq<char>> {
    let c = crate::path::components(path);
    let d = if c.len() > 0 && c.last() == "bin"@ {
        c.drop_last()
    } else {
        c
    };
    if d.len() > 0 {
        nvm_dir_version(d.last())
    } else {
        None
    }
}

/// The Node version `NVM_BIN` points into.
pub fn current_nvm_node_version_from_bin(path: &str) -> (r: Option<String>)
    ensures
        crate::text::opt_view(r) == version_from_bin(path@),
{
    let mut components = crate::path::path_components(path);
    let ghost c = views(components@);
    let n = components.len();
    if n > 0 && crate::text::str_eq(components[n - 1].as_str(), "bin") {
        components.pop();
        assert(views(components@) =~= c.drop_last());
    }
    let m = components.len();
    if m == 0 {
        return None;
    }
    parse_nvm_node_version_dir(components[m - 1].as_str())
}

/// The current Node version: from `NVM_BIN` when it names one, else from
/// where nvm's `current` link points (`current_link`, read by the caller).
pub open spec fn current_version_spec(nvm_bin: Option<Seq<char>>, current_link: Option<Seq<char>>) -> Option<Seq<char>> {
    match match nvm_bin {
        Some(b) => version_from_bin(b),
        None => None,
    } {
        Some(v) => Some(v),
        None => match current_link {
            Some(t) => match crate::path::file_name(t) {
                Some(f) => nvm_dir_version(f),
                None => None,
            },
            None => None,
        },
    }
}

/// The current Node version.
pub fn current_nvm_node_version(nvm_bin: Option<&str>, current_link: Option<&str>) -> (r: Option<String>)
    ensures
        crate::text::opt_view(r) == current_version_spec(crate::cargo::opt_str_view(nvm_bin), crate::cargo::opt_str_view(current_link)),
{
    if let Some(bin) = nvm_bin {
        if let Some(v) = current_nvm_node_version_from_bin(bin) {
            return Some(v);
        }
    }
    match current_link {
        Some(target) => match crate::path::path_file_name(target) {
            Some(f) => parse_nvm_node_version_dir(f.as_str()),
            None => None,
        },
        None => None,
    }
}

/// A piece of a version as a number (0 when absent or not a number).
pub open spec fn piece_value(p: Option<Seq<char>>) -> u64 {
    match p {
        Some(s) => match crate::text::parse_u64_spec(s) {
            Some(n) => n,
            None => 0,
        },
        None => 0,
    }
}

/// The numeric key of a version `major.minor.patch[-pre]`.
pub open spec fn semver_key(v: Seq<char>) -> (u64, u64, u64) {
    let parts = crate::text::split_on(v, '.');
    (
        piece_value(Some(parts[0])),
        piece_value(if parts.len() > 1 { Some(parts[1]) } else { None }),
        piece_value(if parts.len() > 2 { Some(crate::text::split_on(parts[2], '-')[0]) } else { None }),
    )
}

/// A numeral holds neither a dot nor a dash.
proof fn lemma_numeral_has_no(s: Seq<char>, c: char)
    requires
        crate::text::is_numeral(s),
        c == '.' || c == '-',
    ensures
        forall|i: int| 0 <= i < s.len() ==> s[i] != c,
{
    assert forall|i: int| 0 <= i < s.len() implies s[i] != c by {
        assert(crate::text::is_ascii_digit(s[i]));
    }
}

/// The sort key of a version `a.b.c`, with or without a pre-release part
/// that starts with `-`, is the three numerals as numbers.
pub proof fn law_semver_key_is_numbers(a: Seq<char>, b: Seq<char>, c: Seq<char>, pre: Seq<char>)
    requires
        crate::text::is_numeral(a),
        crate::text::is_numeral(b),
        crate::text::is_numeral(c),
        pre.len() == 0 || pre[0] == '-',
    ensures
        semver_key(a + seq!['.'] + b + seq!['.'] + c + pre) == (
            crate::text::digits_value(a) as u64,
            crate::text::digits_value(b) as u64,
            crate::text::digits_value(c) as u64,
        ),
{
    let v = a + seq!['.'] + b + seq!['.'] + c + pre;
    let w = c + pre;
    let tail = b + seq!['.'] + w;
    lemma_numeral_has_no(a, '.');
    lemma_numeral_has_no(b, '.');
    lemma_numeral_has_no(c, '.');
    lemma_numeral_has_no(c, '-');
    assert(v =~= a + seq!['.'] + tail);
    crate::text::lemma_split_on_concat(a, tail, '.');
    crate::text::lemma_split_on_concat(b, w, '.');
    crate::path::lemma_split_on_nonempty(w, '.');
    let parts = crate::text::split_on(v, '.');
    assert(parts == seq![a] + (seq![b] + crate::text::split_on(w, '.')));
    assert(parts[0] == a);
    assert(parts[1] == b);
    assert(parts[2] == crate::text::split_on(w, '.')[0]);
    crate::text::lemma_first_index_bounds(w, '.');
    let k = crate::text::first_index(w, '.');
    if k >= 0 {
        assert(k >= c.len()) by {
            if k < c.len() {
                assert(w[k] == c[k]);
            }
        }
        let p2 = pre.subrange(0, k - c.len());
        assert(w.subrange(0, k) =~= c + p2);
        if p2.len() > 0 {
            assert(p2[0] == pre[0]);
        }
        crate::text::lemma_split_first_piece(c, p2, '-');
    } else {
        crate::text::lemma_split_first_piece(c, pre, '-');
    }
    crate::text::lemma_parse_numeral(a);
    crate::text::lemma_parse_numeral(b);
    crate::text::lemma_parse_numeral(c);
}

/// A version of one or two numerals has the missing parts of its key as 0:
/// `a` gives `(a, 0, 0)` and `a.b` gives `(a, b, 0)`.
pub proof fn law_semver_key_short_versions(a: Seq<char>, b: Seq<char>)
    requires
        crate::text::is_numeral(a),
        crate::text::is_numeral(b),
    ensures
        semver_key(a) == (crate::text::digits_value(a) as u64, 0u64, 0u64),
        semver_key(a + seq!['.'] + b) == (crate::text::digits_value(a) as u64, crate::text::digits_value(b) as u64, 0u64),
{
    lemma_numeral_has_no(a, '.');
    lemma_numeral_has_no(b, '.');
    crate::text::lemma_first_index_is(a, '.', a.len() as int);
    crate::text::lemma_first_index_is(b, '.', b.len() as int);
    assert(crate::text::split_on(a, '.') == seq![a]);
    assert(crate::text::split_on(b, '.') == seq![b]);
    crate::text::lemma_split_on_concat(a, b, '.');
    assert(seq![a] + seq![b] =~= seq![a, b]);
    crate::text::lemma_parse_numeral(a);
    crate::text::lemma_parse_numeral(b);
}

/// Newest first: of two versions with the same major, the one with the
/// larger minor comes first, whatever their patches.
pub proof fn law_larger_minor_first(
    a: Seq<char>,
    b: Seq<char>,
    c: Seq<char>,
    a2: Seq<char>,
    b2: Seq<char>,
    c2: Seq<char>,
)
    requires
        crate::text::is_numeral(a) && crate::text::is_numeral(b) && crate::text::is_numeral(c),
        crate::text::is_numeral(a2) && crate::text::is_numeral(b2) && crate::text::is_numeral(c2),
        crate::text::digits_value(a) == crate::text::digits_value(a2),
        crate::text::digits_value(b) > crate::text::digits_value(b2),
    ensures
        semver_desc_order(
            a + seq!['.'] + b + seq!['.'] + c,
            a2 + seq!['.'] + b2 + seq!['.'] + c2,
        ) == std::cmp::Ordering::Less,
{
    law_semver_key_is_numbers(a, b, c, Seq::empty());
    law_semver_key_is_numbers(a2, b2, c2, Seq::empty());
    assert(a + seq!['.'] + b + seq!['.'] + c + Seq::<char>::empty() =~= a + seq!['.'] + b + seq!['.'] + c);
    assert(a2 + seq!['.'] + b2 + seq!['.'] + c2 + Seq::<char>::empty() =~= a2 + seq!['.'] + b2 + seq!['.'] + c2);
}

/// The Yarn major is the number before the first dot, whatever follows.
pub proof fn law_yarn_major_is_leading_number(d: Seq<char>, rest: Seq<char>)
    requires
        crate::text::is_numeral(d),
    ensures
        yarn_major(d + seq!['.'] + rest) == Some(crate::text::digits_value(d) as u64),
{
    lemma_numeral_has_no(d, '.');
    crate::text::lemma_split_on_concat(d, rest, '.');
    crate::text::lemma_parse_numeral(d);
}

/// A version without a dot that is a numeral is its own major.
pub proof fn law_yarn_major_of_plain_number(d: Seq<char>)
    requires
        crate::text::is_numeral(d),
    ensures
        yarn_major(d) == Some(crate::text::digits_value(d) as u64),
{
    lemma_numeral_has_no(d, '.');
    crate::text::lemma_split_first_piece(d, Seq::<char>::empty(), '.');
    assert(d + Seq::<char>::empty() =~= d);
    crate::text::lemma_parse_numeral(d);
}

/// Any version that starts with `1.` is Yarn Classic (major 1).
pub proof fn law_yarn_one_is_classic(rest: Seq<char>)
    ensures
        yarn_major(seq!['1', '.'] + rest) == Some(1u64),
{
    let d = seq!['1'];
    assert(crate::text::all_digits(d));
    assert(crate::text::digits_value(d) == 1) by {
        assert(d.drop_last() =~= Seq::<char>::empty());
        assert(crate::text::digits_value(d.drop_last()) == 0);
        assert(d.last() == '1');
        assert(('1' as u32) == 49);
        assert(('0' as u32) == 48);
    }
    law_yarn_major_is_leading_number(d, rest);
    assert(d + seq!['.'] + rest =~= seq!['1', '.'] + rest);
}

fn piece_of(cs: &Vec<char>, lo: usize, hi: usize) -> (r: u64)
    requires
        lo <= hi <= cs.len(),
    ensures
        r == piece_value(Some(cs@.subrange(lo as int, hi as int))),
{
    let s = crate::text::string_from(cs, lo, hi);
    match crate::text::parse_u64(s.as_str()) {
        Some(n) => n,
        None => 0,
    }
}

/// The numeric key a version is ordered by.
pub fn semver_sort_key(version: &str) -> (r: (u64, u64, u64))
    ensures
        r == semver_key(version@),
{
    let cs = crate::text::chars_of(version);
    let ranges = crate::path::split_ranges(&cs, '.');
    proof {
        crate::path::lemma_split_on_nonempty(cs@, '.');
    }
    let ghost parts = crate::text::split_on(cs@, '.');
    let (lo0, hi0) = ranges[0];
    let a = piece_of(&cs, lo0, hi0);
    let b = if ranges.len() > 1 {
        let (lo1, hi1) = ranges[1];
        piece_of(&cs, lo1, hi1)
    } else {
        0
    };
    let c = if ranges.len() > 2 {
        let (lo2, hi2) = ranges[2];
        let third = crate::text::string_from(&cs, lo2, hi2);
        let tc = crate::text::chars_of(third.as_str());
        let sub = crate::path::split_ranges(&tc, '-');
        proof {
            crate::path::lemma_split_on_nonempty(tc@, '-');
        }
        let (slo, shi) = sub[0];
        piece_of(&tc, slo, shi)
    } else {
        0
    };
    (a, b, c)
}

pub open spec fn key_less(a: (u64, u64, u64), b: (u64, u64, u64)) -> bool {
    a.0 < b.0 || (a.0 == b.0 && (a.1 < b.1 || (a.1 == b.1 && a.2 < b.2)))
}

/// The order of Node versions, newest first: by numeric key descending, then
/// by text descending.
pub open spec fn semver_desc_order(left: Seq<char>, right: Seq<char>) -> std::cmp::Ordering {
    let kl = semver_key(left);
    let kr = semver_key(right);
    if key_less(kr, kl) {
        std::cmp::Ordering::Less
    } else if key_less(kl, kr) {
        std::cmp::Ordering::Greater
    } else if right == left {
        std::cmp::Ordering::Equal
    } else if crate::scan_support::text_le(right, left) {
        std::cmp::Ordering::Less
    } else {
        std::cmp::Ordering::Greater
    }
}

fn key_is_less(a: (u64, u64, u64), b: (u64, u64, u64)) -> (r: bool)
    ensures
        r == key_less(a, b),
{
    a.0 < b.0 || (a.0 == b.0 && (a.1 < b.1 || (a.1 == b.1 && a.2 < b.2)))
}

/// Compares two Node versions, newest first.
pub fn compare_semver_desc(left: &str, right: &str) -> (r: std::cmp::Ordering)
    ensures
        r == semver_desc_order(left@, right@),
{
    let kl = semver_sort_key(left);
    let kr = semver_sort_key(right);
    if key_is_less(kr, kl) {
        std::cmp::Ordering::Less
    } else if key_is_less(kl, kr) {
        std::cmp::Ordering::Greater
    } else if crate::text::str_eq(right, left) {
        std::cmp::Ordering::Equal
    } else if crate::scan_support::str_le(right, left) {
        std::cmp::Ordering::Less
    } else {
        std::cmp::Ordering::Greater
    }
}

/// Adds `nvm use <version>` to a row.
pub fn attach_nvm_actions(row: &mut PackageRow, version: &str)
    ensures
        final(row).actions@.len() == old(row).actions@.len() + 1,
        final(row).actions@.drop_last() == old(row).actions@,
        envelope_is(final(row).actions@.last(), "nvm"@, seq!["use"@, version@], 0),
        final(row).name == old(row).name && final(row).version == old(row).version && final(row).path
            == old(row).path && final(row).source == old(row).source && final(row).kind == old(row).kind
            && final(row).signals == old(row).signals,
{
    row.actions.push(envelope_owned("nvm", args2("use", version), 0));
}

/// `a` comes no later than `b`, newest first.
pub open spec fn comes_no_later(a: Seq<char>, b: Seq<char>) -> bool {
    semver_desc_order(a, b) != std::cmp::Ordering::Greater
}

fn no_later(a: &str, b: &str) -> (r: bool)
    ensures
        r == comes_no_later(a@, b@),
{
    match compare_semver_desc(a, b) {
        std::cmp::Ordering::Greater => false,
        _ => true,
    }
}

/// Where `x` goes among rows sorted newest first: after every row that does
/// not come after it.
pub open spec fn version_position(s: Seq<PackageRow>, x: PackageRow) -> int
    decreases s.len(),
{
    if s.len() == 0 {
        0
    } else if comes_no_later(s[0].version@, x.version@) {
        1 + version_position(s.drop_first(), x)
    } else {
        0
    }
}

/// The rows stably sorted newest version first (`sort_by` with
/// `compare_semver_desc`).
pub open spec fn sorted_by_version(s: Seq<PackageRow>) -> Seq<PackageRow>
    decreases s.len(),
{
    if s.len() == 0 {
        seq![]
    } else {
        let t = sorted_by_version(s.drop_last());
        t.insert(version_position(t, s.last()), s.last())
    }
}

pub proof fn lemma_version_position_bounds(s: Seq<PackageRow>, x: PackageRow)
    ensures
        0 <= version_position(s, x) <= s.len(),
    decreases s.len(),
{
    if s.len() > 0 && comes_no_later(s[0].version@, x.version@) {
        lemma_version_position_bounds(s.drop_first(), x);
    }
}

pub proof fn lemma_sorted_by_version_len(s: Seq<PackageRow>)
    ensures
        sorted_by_version(s).len() == s.len(),
    decreases s.len(),
{
    if s.len() > 0 {
        lemma_sorted_by_version_len(s.drop_last());
        lemma_version_position_bounds(sorted_by_version(s.drop_last()), s.last());
    }
}

/// Sorts rows newest version first, stably.
pub fn sort_rows_by_version_desc(rows: Vec<PackageRow>) -> (r: Vec<PackageRow>)
    ensures
        r@ == sorted_by_version(rows@),
{
    let ghost all = rows@;
    let n = rows.len();
    let mut input = rows;
    let mut rest: Vec<PackageRow> = Vec::new();
    while input.len() > 0
        invariant
            rest@ + input@.reverse() == all.reverse(),
            input@.len() + rest@.len() == all.len(),
        decreases input.len(),
    {
        let row = input.pop().unwrap();
        let ghost before = rest@;
        rest.push(row);
        assert(rest@ + input@.reverse() =~= before + (input@.push(row)).reverse());
    }
    assert(rest@ =~= all.reverse());
    let mut out: Vec<PackageRow> = Vec::new();
    let mut i: usize = 0;
    while rest.len() > 0
        invariant
            i <= n,
            n == all.len(),
            rest@.len() + i == n,
            forall|k: int| 0 <= k < rest@.len() ==> #[trigger] rest@[k] == all[n - 1 - k],
            out@ == sorted_by_version(all.subrange(0, i as int)),
        decreases rest.len(),
    {
        let x = rest.pop().unwrap();
        assert(x == all[i as int]);
        let ghost prev = out@;
        proof {
            lemma_sorted_by_version_len(all.subrange(0, i as int));
            lemma_version_position_bounds(prev, x);
            assert(prev.subrange(0, prev.len() as int) == prev);
        }
        let mut p: usize = 0;
        while p < out.len() && no_later(out[p].version.as_str(), x.version.as_str())
            invariant
                p <= out@.len(),
                out@ == prev,
                version_position(prev, x) == p + version_position(prev.subrange(p as int, prev.len() as int), x),
            decreases out@.len() - p,
        {
            assert(prev.subrange(p as int, prev.len() as int).drop_first() == prev.subrange(p + 1, prev.len() as int));
            p = p + 1;
        }
        assert(version_position(prev.subrange(p as int, prev.len() as int), x) == 0);
        out.insert(p, x);
        assert(all.subrange(0, i + 1).drop_last() == all.subrange(0, i as int));
        assert(all.subrange(0, i + 1).last() == x);
        i = i + 1;
    }
    assert(all.subrange(0, n as int) == all);
    out
}

/// The Node versions among the directories of `versions/node` (each a name
/// and a path), with their paths.
pub open spec fn nvm_entries(dirs: Seq<(Seq<char>, Seq<char>)>) -> Seq<(Seq<char>, Seq<char>)>
    decreases dirs.len(),
{
    if dirs.len() == 0 {
        seq![]
    } else {
        let prior = nvm_entries(dirs.drop_last());
        match nvm_dir_version(dirs.last().0) {
            Some(v) => prior.push((v, dirs.last().1)),
            None => prior,
        }
    }
}

/// A row of an installed Node version: current when it is the current
/// version, with `nvm use <version>`.
pub open spec fn nvm_row(row: PackageRow, e: (Seq<char>, Seq<char>), current: Option<Seq<char>>) -> bool {
    &&& row.name@ == "node"@
    &&& row.version@ == e.0
    &&& row.path matches Some(p) && p@ == e.1
    &&& row.source@ == "nvm versions directory"@
    &&& row.kind == PackageKind::Generic
    &&& row.signals@ == if current == Some(e.0) {
        seq![PackageSignal::Current]
    } else {
        seq![]
    }
    &&& row.actions@.len() == 1
    &&& envelope_is(row.actions@[0], "nvm"@, seq!["use"@, e.0], 0)
}

pub open spec fn dir_views(dirs: Seq<(String, String)>) -> Seq<(Seq<char>, Seq<char>)> {
    dirs.map_values(|d: (String, String)| (d.0@, d.1@))
}

/// The installed Node versions among the directories of `versions/node`,
/// newest first.
pub fn nvm_version_rows(dirs: &Vec<(String, String)>, current: Option<&str>) -> (r: Vec<PackageRow>)
    ensures
        exists|u: Seq<PackageRow>|
            #[trigger] sorted_by_version(u) == r@ && u.len() == nvm_entries(dir_views(dirs@)).len() && forall|i: int|
                0 <= i < u.len() ==> nvm_row(#[trigger] u[i], nvm_entries(dir_views(dirs@))[i], crate::cargo::opt_str_view(current)),
{
    let ghost dv = dir_views(dirs@);
    let mut rows: Vec<PackageRow> = Vec::new();
    let mut i: usize = 0;
    assert(dv.subrange(0, 0) =~= Seq::<(Seq<char>, Seq<char>)>::empty());
    while i < dirs.len()
        invariant
            i <= dirs@.len(),
            dv == dir_views(dirs@),
            rows@.len() == nvm_entries(dv.subrange(0, i as int)).len(),
            forall|k: int| 0 <= k < rows@.len() ==> nvm_row(#[trigger] rows@[k], nvm_entries(dv.subrange(0, i as int))[k], crate::cargo::opt_str_view(current)),
        decreases dirs@.len() - i,
    {
        assert(dv.subrange(0, i + 1).drop_last() == dv.subrange(0, i as int));
        assert(dv.subrange(0, i + 1).last() == (dirs@[i as int].0@, dirs@[i as int].1@));
        match parse_nvm_node_version_dir(dirs[i].0.as_str()) {
            Some(version) => {
                let mut row = package_row(
                    owned("node"),
                    version.clone(),
                    Some(dirs[i].1.clone()),
                    "nvm versions directory",
                    PackageKind::Generic,
                );
                let is_current = match current {
                    Some(c) => crate::text::str_eq(c, version.as_str()),
                    None => false,
                };
                if is_current {
                    crate::scan_support::push_signal(&mut row, PackageSignal::Current);
                    assert(row.signals@ =~= seq![PackageSignal::Current]);
                } else {
                    assert(row.signals@ =~= Seq::<PackageSignal>::empty());
                }
                attach_nvm_actions(&mut row, version.as_str());
                assert(row.actions@ =~= seq![row.actions@.last()]);
                rows.push(row);
            },
            None => {},
        }
        i = i + 1;
    }
    assert(dv.subrange(0, dv.len() as int) == dv);
    let ghost unsorted = rows@;
    let sorted = sort_rows_by_version_desc(rows);
    assert(sorted_by_version(unsorted) == sorted@);
    sorted
}

/// Scans nvm at `nvm_dir`: the directory itself; when it exists, its
/// `versions/node` directory and the Node versions installed there (the
/// directories `version_dirs` the caller found in it, each a name and a
/// path), newest first, the current one (from `nvm_bin`, else from the
/// target `current_link` of nvm's `current` link) marked.
pub fn scan_nvm_with_context(
    nvm_dir: &str,
    nvm_bin: Option<&str>,
    nvm_dir_exists: bool,
    current_link: Option<&str>,
    version_dirs: &Vec<(String, String)>,
) -> (r: ManagerSnapshot)
    ensures
        r.id == ManagerId::Nvm,
        r.label@ == "nvm"@,
        r.status == finished_status(r),
        r.commands@.len() == 0,
        r.paths@.len() >= 1,
        r.paths@[0].kind == PathKind::NvmDir && r.paths@[0].path@ == nvm_dir@,
        !nvm_dir_exists ==> r.paths@.len() == 1 && r.packages@.len() == 0 && r.failures@.len() == 1
            && r.failures@[0].kind == FailureKind::MissingPath && r.failures@[0].message@
            == "nvm directory was not found at "@ + nvm_dir@ && r.status == ManagerStatus::Missing,
        nvm_dir_exists ==> r.paths@.len() == 2 && r.paths@[1].kind == PathKind::NvmNodeVersions
            && r.paths@[1].path@ == join_path(nvm_dir@, "versions/node"@) && r.failures@.len() == 0
            && exists|u: Seq<PackageRow>|
            #[trigger] sorted_by_version(u) == r.packages@ && u.len() == nvm_entries(dir_views(version_dirs@)).len()
                && forall|i: int| 0 <= i < u.len() ==> nvm_row(
                    #[trigger] u[i],
                    nvm_entries(dir_views(version_dirs@))[i],
                    current_version_spec(crate::cargo::opt_str_view(nvm_bin), crate::cargo::opt_str_view(current_link)),
                ),
        r.homebrew is None && r.maven is None && r.pip is None && r.docker is None,
{
    let mut snapshot = empty_snapshot(ManagerId::Nvm, "nvm");
    snapshot.paths.push(path_info("NVM dir", PathKind::NvmDir, owned(nvm_dir)));
    if !nvm_dir_exists {
        let mut message = owned("nvm directory was not found at ");
        crate::text::push_str(&mut message, nvm_dir);
        snapshot.failures.push(
            CommandFailure {
                kind: FailureKind::MissingPath,
                message,
                command: None,
                stdout: String::new(),
                stderr: String::new(),
            },
        );
        assert(crate::scan_support::is_missing_kind(snapshot.failures@[0].kind));
        return finish(snapshot);
    }
    snapshot.paths.push(path_info("Node versions", PathKind::NvmNodeVersions, join(nvm_dir, "versions/node")));
    let current = current_nvm_node_version(nvm_bin, current_link);
    let current_ref = match &current {
        Some(c) => Some(c.as_str()),
        None => None,
    };
    snapshot.packages = nvm_version_rows(version_dirs, current_ref);
    finish(snapshot)
}

} // verus!
