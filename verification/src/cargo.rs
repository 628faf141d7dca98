//! Cargo: installed binary crates (`cargo install --list`) and the Cargo Home
//! paths. The scan runs `cargo --version` and `cargo install --list` only.
use crate::command::{args1, args2, envelope_is, envelope_owned, parse_failure, run_recorded_command};
use crate::disk_usage::path_info;
use crate::path::{join, join_path};
use crate::scan_support::{
    empty_snapshot, expand_tilde, finish, finished_status, package_row, sort_rows_by_name,
    sorted_by_name, tilde_expansion,
};
use crate::text::{
    first_line, is_ws, lines, lines_of, owned, starts_with_ws, strip_prefix, strip_prefix_str,
    strip_suffix_char, trim, trim_string, views, words, words_of,
};
use crate::types::{
    CommandFailure, CommandRun, ManagerId, ManagerSnapshot, ManagerStatus, PackageKind, PackageRow,
    PathKind,
};
use vstd::prelude::*;

verus! {

/// The version `cargo --version` reports: the word after `cargo ` on the first
/// line, or the whole trimmed first line.
pub open spec fn cargo_version_spec(stdout: Seq<char>) -> Seq<char> {
    let line = trim(first_line(stdout));
    match strip_prefix(line, "cargo "@) {
        Some(rest) => if words(rest).len() > 0 {
            words(rest)[0]
        } else {
            line
        },
        None => line,
    }
}

/// The version reported by `cargo --version`.
pub fn parse_cargo_version(stdout: &str) -> (r: String)
    ensures
        r@ == cargo_version_spec(stdout@),
{
    let ls = lines_of(stdout);
    let line = if ls.len() > 0 {
        trim_string(ls[0].as_str())
    } else {
        owned("")
    };
    proof {
        reveal_strlit("");
        assert(""@ =~= Seq::<char>::empty());
    }
    match strip_prefix_str(line.as_str(), "cargo ") {
        Some(rest) => {
            let ws = words_of(rest.as_str());
            if ws.len() > 0 {
                ws[0].clone()
            } else {
                line
            }
        },
        None => line,
    }
}

/// `CARGO_HOME` when set and not blank, with `~` expanded; else `~/.cargo`;
/// else the relative `.cargo`.
pub open spec fn cargo_home_spec(cargo_home: Option<Seq<char>>, home: Option<Seq<char>>) -> Seq<
    char,
> {
    match cargo_home {
        Some(v) if trim(v).len() > 0 => tilde_expansion(trim(v), home),
        _ => match home {
            Some(h) => join_path(h, ".cargo"@),
            None => ".cargo"@,
        },
    }
}

pub open spec fn opt_str_view(o: Option<&str>) -> Option<Seq<char>> {
    match o {
        Some(s) => Some(s@),
        None => None,
    }
}

/// The Cargo Home directory.
pub fn resolve_cargo_home(cargo_home: Option<&str>, home: Option<&str>) -> (r: String)
    ensures
        r@ == cargo_home_spec(opt_str_view(cargo_home), opt_str_view(home)),
{
    if let Some(value) = cargo_home {
        let v = trim_string(value);
        if !v.as_str().is_empty() {
            return expand_tilde(v.as_str(), home);
        }
    }
    match home {
        Some(h) => join(h, ".cargo"),
        None => owned(".cargo"),
    }
}

/// A header line of `cargo install --list`: `<name> v<version>:`, the version
/// starting with a digit.
pub open spec fn cargo_header_spec(line: Seq<char>) -> Option<(Seq<char>, Seq<char>)> {
    if !(line.len() > 0 && line.last() == ':') {
        None
    } else {
        let h = trim(line.drop_last());
        let k = crate::text::last_index(h, ' ');
        if k < 0 {
            None
        } else {
            let name = trim(h.subrange(0, k));
            let v0 = trim(h.subrange(k + 1, h.len() as int));
            match strip_prefix(v0, "v"@) {
                Some(v) => if name.len() == 0 || v.len() == 0 || !crate::text::is_ascii_digit(
                    v[0],
                ) {
                    None
                } else {
                    Some((name, v))
                },
                None => None,
            }
        }
    }
}

/// One installed crate: name, version and binaries.
pub struct CargoInstallEntry {
    pub name: String,
    pub version: String,
    pub binaries: Vec<String>,
}

/// Parses a header line of `cargo install --list`.
pub fn parse_cargo_install_header(line: &str) -> (r: Option<CargoInstallEntry>)
    ensures
        match r {
            Some(e) => cargo_header_spec(line@) == Some((e.name@, e.version@)) && e.binaries@.len()
                == 0,
            None => cargo_header_spec(line@) is None,
        },
{
    let stripped = match strip_suffix_char(line, ':') {
        Some(s) => s,
        None => return None,
    };
    let header = trim_string(stripped.as_str());
    let cs = crate::text::chars_of(header.as_str());
    let mut k = cs.len();
    while k > 0 && cs[k - 1] != ' '
        invariant
            k <= cs.len(),
            cs@ == header@,
            forall|j: int| k <= j < cs.len() ==> cs@[j] != ' ',
        decreases k,
    {
        k = k - 1;
    }
    proof {
        if k > 0 {
            crate::text::lemma_last_index_is(cs@, ' ', (k - 1) as int);
        } else {
            crate::text::lemma_last_index_is(cs@, ' ', -1);
        }
    }
    if k == 0 {
        return None;
    }
    let name_part = crate::text::string_from(&cs, 0, k - 1);
    let version_part = crate::text::string_from(&cs, k, cs.len());
    let name = trim_string(name_part.as_str());
    let v0 = trim_string(version_part.as_str());
    let version = match strip_prefix_str(v0.as_str(), "v") {
        Some(v) => v,
        None => return None,
    };
    let vc = crate::text::chars_of(version.as_str());
    if name.as_str().is_empty() || vc.len() == 0 || !crate::text::is_digit(vc[0]) {
        return None;
    }
    Some(CargoInstallEntry { name, version, binaries: Vec::new() })
}

pub type CargoEntrySpec = (Seq<char>, Seq<char>, Seq<Seq<char>>);

/// The entries read so far and whether any non-blank line was seen, or the
/// error that stopped the reading.
pub type CargoAcc = Result<(Seq<CargoEntrySpec>, bool), Seq<char>>;

pub open spec fn cargo_line_error(t: Seq<char>) -> Seq<char> {
    "Could not parse cargo install list line: "@ + t
}

/// One line of `cargo install --list`: blank lines are skipped, indented lines
/// name a binary of the latest crate, other lines must be crate headers.
pub open spec fn cargo_step(acc: CargoAcc, line: Seq<char>) -> CargoAcc {
    match acc {
        Err(e) => Err(e),
        Ok((entries, saw)) => {
            let t = trim(line);
            if t.len() == 0 {
                Ok((entries, saw))
            } else if is_ws(line[0]) {
                if entries.len() > 0 {
                    let last = entries.last();
                    Ok(
                        (
                            entries.update(
                                entries.len() - 1,
                                (last.0, last.1, last.2.push(words(t)[0])),
                            ),
                            true,
                        ),
                    )
                } else {
                    Ok((entries, true))
                }
            } else {
                match cargo_header_spec(t) {
                    Some((n, v)) => Ok((entries.push((n, v, seq![])), true)),
                    None => Err(cargo_line_error(t)),
                }
            }
        },
    }
}

pub open spec fn cargo_fold(ls: Seq<Seq<char>>) -> CargoAcc
    decreases ls.len(),
{
    if ls.len() == 0 {
        Ok((seq![], false))
    } else {
        cargo_step(cargo_fold(ls.drop_last()), ls.last())
    }
}

/// The crates of `cargo install --list`, or the reason the output was refused.
pub open spec fn cargo_entries_spec(stdout: Seq<char>) -> Result<Seq<CargoEntrySpec>, Seq<char>> {
    match cargo_fold(lines(stdout)) {
        Err(e) => Err(e),
        Ok((entries, saw)) => if saw && entries.len() == 0 {
            Err("cargo install list output did not contain package headers"@)
        } else {
            Ok(entries)
        },
    }
}

/// A row for an installed crate: its name and version, the first binary
/// under the bin directory as its path, and the install/uninstall actions.
pub open spec fn cargo_row(row: PackageRow, e: CargoEntrySpec, bin_dir: Seq<char>) -> bool {
    &&& row.name@ == e.0
    &&& row.version@ == e.1
    &&& if e.2.len() > 0 {
        row.path matches Some(p) && p@ == join_path(bin_dir, e.2[0])
    } else {
        row.path is None
    }
    &&& row.source@ == "cargo install --list"@
    &&& row.kind == PackageKind::Generic
    &&& row.signals@.len() == 0
    &&& cargo_actions(row)
}

pub open spec fn cargo_actions(row: PackageRow) -> bool {
    &&& row.actions@.len() == 2
    &&& envelope_is(row.actions@[0], "cargo"@, seq!["install"@, row.name@], 0)
    &&& envelope_is(row.actions@[1], "cargo"@, seq!["uninstall"@, row.name@], 0)
}

/// Adds `cargo install <name>` and `cargo uninstall <name>` to a row.
pub fn attach_cargo_actions(row: &mut PackageRow)
    requires
        old(row).actions@.len() == 0,
    ensures
        cargo_actions(*final(row)),
        final(row).name == old(row).name,
        final(row).version == old(row).version,
        final(row).path == old(row).path,
        final(row).source == old(row).source,
        final(row).kind == old(row).kind,
        final(row).signals == old(row).signals,
{
    let mut a = args1("install");
    let ghost pa = views(a@);
    let na = row.name.clone();
    a.push(na);
    assert(views(a@) =~= pa.push(na@));
    assert(pa.push(na@) =~= seq!["install"@, row.name@]);
    let mut b = args1("uninstall");
    let ghost pb = views(b@);
    let nb = row.name.clone();
    b.push(nb);
    assert(views(b@) =~= pb.push(nb@));
    assert(pb.push(nb@) =~= seq!["uninstall"@, row.name@]);
    row.actions.push(envelope_owned("cargo", a, 0));
    row.actions.push(envelope_owned("cargo", b, 0));
}

/// The rows of `cargo install --list`, sorted by crate name.
pub fn parse_cargo_install_list(stdout: &str, bin_dir: &str) -> (r: Result<Vec<PackageRow>, String>)
    ensures
        match (r, cargo_entries_spec(stdout@)) {
            (Ok(rows), Ok(entries)) => exists|u: Seq<PackageRow>|
                rows@ == sorted_by_name(u) && u.len() == entries.len() && forall|i: int|
                    0 <= i < u.len() ==> cargo_row(#[trigger] u[i], entries[i], bin_dir@),
            (Err(m), Err(e)) => m@ == e,
            _ => false,
        },
{
    let ls = lines_of(stdout);
    let ghost lv = lines(stdout@);
    let mut entries: Vec<CargoInstallEntry> = Vec::new();
    let mut saw_content = false;
    let mut i: usize = 0;
    assert(Seq::new(entries@.len(), |k: int| (entries@[k].name@, entries@[k].version@, views(entries@[k].binaries@)))
        =~= Seq::<CargoEntrySpec>::empty());
    assert(lv.subrange(0, 0) =~= Seq::<Seq<char>>::empty());
    while i < ls.len()
        invariant
            i <= ls@.len(),
            views(ls@) == lv,
            lv == lines(stdout@),
            cargo_fold(lv.subrange(0, i as int)) == Ok::<(Seq<CargoEntrySpec>, bool), Seq<char>>((
                Seq::new(entries@.len(), |k: int| (entries@[k].name@, entries@[k].version@, views(entries@[k].binaries@))),
                saw_content,
            )),
        decreases ls@.len() - i,
    {
        let ghost before = Seq::new(entries@.len(), |k: int| (entries@[k].name@, entries@[k].version@, views(entries@[k].binaries@)));
        let line = &ls[i];
        assert(line@ == lv[i as int]);
        assert(lv.subrange(0, i + 1).drop_last() == lv.subrange(0, i as int));
        let t = trim_string(line.as_str());
        if t.as_str().is_empty() {
            i = i + 1;
            continue;
        }
        saw_content = true;
        if starts_with_ws(line.as_str()) {
            if entries.len() > 0 {
                let ws = words_of(t.as_str());
                proof {
                    crate::text::lemma_trim_idempotent(line@);
                    crate::text::lemma_words_nonempty(t@);
                }
                let mut e = entries.pop().unwrap();
                let ghost eb = views(e.binaries@);
                e.binaries.push(ws[0].clone());
                assert(views(e.binaries@) =~= eb.push(words(t@)[0]));
                entries.push(e);
                assert(Seq::new(entries@.len(), |k: int| (entries@[k].name@, entries@[k].version@, views(entries@[k].binaries@)))
                    =~= before.update(before.len() - 1, (before.last().0, before.last().1, before.last().2.push(words(t@)[0]))));
            }
            i = i + 1;
            continue;
        }
        match parse_cargo_install_header(t.as_str()) {
            Some(entry) => {
                assert(views(entry.binaries@) =~= Seq::<Seq<char>>::empty());
                entries.push(entry);
                assert(Seq::new(entries@.len(), |k: int| (entries@[k].name@, entries@[k].version@, views(entries@[k].binaries@)))
                    =~= before.push((entries@.last().name@, entries@.last().version@, seq![])));
            },
            None => {
                let mut m = owned("Could not parse cargo install list line: ");
                crate::text::push_str(&mut m, t.as_str());
                proof {
                    assert(!is_ws(line@[0]));
                    assert(cargo_step(cargo_fold(lv.subrange(0, i as int)), lv[i as int]) == Err::<(Seq<CargoEntrySpec>, bool), Seq<char>>(cargo_line_error(t@)));
                    assert(cargo_fold(lv.subrange(0, i + 1)) == Err::<(Seq<CargoEntrySpec>, bool), Seq<char>>(cargo_line_error(t@)));
                    lemma_cargo_fold_err(lv, (i + 1) as int, cargo_line_error(t@));
                    assert(lv.subrange(0, lv.len() as int) == lv);
                    assert(m@ == cargo_line_error(t@));
                    assert(cargo_fold(lines(stdout@)) == Err::<(Seq<CargoEntrySpec>, bool), Seq<char>>(cargo_line_error(t@)));
                    assert(cargo_entries_spec(stdout@) == Err::<Seq<CargoEntrySpec>, Seq<char>>(cargo_line_error(t@)));
                }
                return Err(m);
            },
        }
        i = i + 1;
    }
    assert(lv.subrange(0, lv.len() as int) == lv);
    assert(i == lv.len());
    assert(cargo_fold(lv) == Ok::<(Seq<CargoEntrySpec>, bool), Seq<char>>((
        Seq::new(entries@.len(), |k: int| (entries@[k].name@, entries@[k].version@, views(entries@[k].binaries@))),
        saw_content,
    )));
    if saw_content && entries.len() == 0 {
        let m = owned("cargo install list output did not contain package headers");
        assert(cargo_entries_spec(stdout@) == Err::<Seq<CargoEntrySpec>, Seq<char>>(m@));
        return Err(m);
    }
    let ghost specs = Seq::new(entries@.len(), |k: int| (entries@[k].name@, entries@[k].version@, views(entries@[k].binaries@)));
    let mut rows: Vec<PackageRow> = Vec::new();
    let mut j: usize = 0;
    let n = entries.len();
    let mut rest = entries;
    // Reverse so that popping takes the entries in their order.
    let mut queue: Vec<CargoInstallEntry> = Vec::new();
    while rest.len() > 0
        invariant
            rest@.len() + queue@.len() == n,
            n == specs.len(),
            forall|k: int| 0 <= k < rest@.len() ==> (#[trigger] rest@[k]).name@ == specs[k].0 && rest@[k].version@ == specs[k].1 && views(rest@[k].binaries@) == specs[k].2,
            forall|k: int| 0 <= k < queue@.len() ==> (#[trigger] queue@[k]).name@ == specs[n - 1 - k].0 && queue@[k].version@ == specs[n - 1 - k].1 && views(queue@[k].binaries@) == specs[n - 1 - k].2,
        decreases rest.len(),
    {
        let e = rest.pop().unwrap();
        queue.push(e);
    }
    while queue.len() > 0
        invariant
            j <= n,
            queue@.len() + j == n,
            n == specs.len(),
            forall|k: int| 0 <= k < queue@.len() ==> (#[trigger] queue@[k]).name@ == specs[n - 1 - k].0 && queue@[k].version@ == specs[n - 1 - k].1 && views(queue@[k].binaries@) == specs[n - 1 - k].2,
            rows@.len() == j,
            forall|k: int| 0 <= k < j ==> cargo_row(#[trigger] rows@[k], specs[k], bin_dir@),
        decreases queue.len(),
    {
        let e = queue.pop().unwrap();
        let path = if e.binaries.len() > 0 {
            Some(join(bin_dir, e.binaries[0].as_str()))
        } else {
            None
        };
        let mut row = package_row(e.name, e.version, path, "cargo install --list", PackageKind::Generic);
        attach_cargo_actions(&mut row);
        rows.push(row);
        j = j + 1;
    }
    let ghost unsorted = rows@;
    let sorted = sort_rows_by_name(rows);
    assert(cargo_entries_spec(stdout@) == Ok::<Seq<CargoEntrySpec>, Seq<char>>(specs));
    assert(sorted@ == sorted_by_name(unsorted) && unsorted.len() == specs.len() && forall|i: int|
        0 <= i < unsorted.len() ==> cargo_row(#[trigger] unsorted[i], specs[i], bin_dir@));
    Ok(sorted)
}

pub proof fn lemma_cargo_fold_err(ls: Seq<Seq<char>>, i: int, e: Seq<char>)
    requires
        0 < i <= ls.len(),
        cargo_fold(ls.subrange(0, i)) == Err::<(Seq<CargoEntrySpec>, bool), Seq<char>>(e),
    ensures
        cargo_fold(ls) == Err::<(Seq<CargoEntrySpec>, bool), Seq<char>>(e),
    decreases ls.len() - i,
{
    if i < ls.len() {
        assert(ls.subrange(0, i + 1).drop_last() == ls.subrange(0, i));
        lemma_cargo_fold_err(ls, i + 1, e);
    } else {
        assert(ls.subrange(0, i) == ls);
    }
}

/// The runner may be asked `cargo --version` (5 s), and, once that answered
/// with a clean exit, `cargo install --list` (15 s): the two read-only
/// commands of a Cargo scan.
pub open spec fn cargo_runner_admits<F: Fn(&str, &[String], u64) -> Result<CommandRun, CommandFailure>>(runner: F) -> bool {
    &&& forall|p: &str, a: &[String], t: u64|
        p@ == "cargo"@ && views(a@) == seq!["--version"@] && t == 5 ==> #[trigger] runner.requires((p, a, t))
    &&& forall|p: &str, a: &[String], t: u64|
        p@ == "cargo"@ && views(a@) == cargo_list_args() && t == 15 && (exists|run: CommandRun|
            #[trigger] crate::command::answered_run(runner, "cargo"@, seq!["--version"@], 5, Ok::<CommandRun, CommandFailure>(run))
                && run.exit_code == Some(0i32)) ==> #[trigger] runner.requires((p, a, t))
}

/// The five Cargo Home directories a scan reports, in order.
pub open spec fn cargo_paths(paths: Seq<crate::types::PathInfo>, cargo_home: Seq<char>) -> bool {
    &&& paths.len() == 5
    &&& paths[0].kind == PathKind::CargoBin && paths[0].label@ == "Cargo bin"@ && paths[0].path@
        == join_path(cargo_home, "bin"@)
    &&& paths[1].kind == PathKind::CargoRegistryCache && paths[1].label@ == "Cargo registry cache"@
        && paths[1].path@ == join_path(cargo_home, "registry/cache"@)
    &&& paths[2].kind == PathKind::CargoRegistrySource && paths[2].label@
        == "Cargo registry source"@ && paths[2].path@ == join_path(cargo_home, "registry/src"@)
    &&& paths[3].kind == PathKind::CargoGitCache && paths[3].label@ == "Cargo git cache"@
        && paths[3].path@ == join_path(cargo_home, "git/db"@)
    &&& paths[4].kind == PathKind::CargoGitCheckouts && paths[4].label@ == "Cargo git checkouts"@
        && paths[4].path@ == join_path(cargo_home, "git/checkouts"@)
}

pub open spec fn cargo_row_reported(row: PackageRow) -> bool {
    &&& row.source@ == "cargo install --list"@
    &&& row.kind == PackageKind::Generic
    &&& cargo_actions(row)
}

pub open spec fn cargo_list_args() -> Seq<Seq<char>> {
    seq!["install"@, "--list"@]
}

/// The rows of a clean `cargo install --list` run: its crates, in the order
/// the output gives them, each with its row.
pub open spec fn cargo_rows_of(u: Seq<PackageRow>, stdout: Seq<char>, bin_dir: Seq<char>) -> bool {
    cargo_entries_spec(stdout) matches Ok(es) && u.len() == es.len() && forall|i: int|
        0 <= i < u.len() ==> cargo_row(#[trigger] u[i], es[i], bin_dir)
}

/// The failures went from `before` to `after` by the answer to
/// `cargo install --list`, whose clean output may be refused.
pub open spec fn cargo_list_grew<F: Fn(&str, &[String], u64) -> Result<CommandRun, CommandFailure>>(
    runner: F,
    before: Seq<CommandFailure>,
    after: Seq<CommandFailure>,
) -> bool {
    &&& crate::command::extends(before, after)
    &&& exists|out: Result<CommandRun, CommandFailure>|
        #[trigger] crate::command::answered_run(runner, "cargo"@, cargo_list_args(), 15, out)
            && crate::command::parsed_adds(
            out,
            "Cargo installed binary crate list failed"@,
            crate::command::clean_exit(out) && cargo_entries_spec(out->Ok_0.stdout@) is Err,
            crate::command::added_since(before, after),
        )
}

/// The packages of a Cargo scan come from `cargo install --list`: on a clean
/// exit with output that parses, its rows sorted by crate name; otherwise
/// none.
pub open spec fn cargo_packages_listed<F: Fn(&str, &[String], u64) -> Result<CommandRun, CommandFailure>>(
    runner: F,
    bin_dir: Seq<char>,
    packages: Seq<PackageRow>,
) -> bool {
    ||| exists|run: CommandRun, u: Seq<PackageRow>|
        #![trigger crate::command::answered_run(runner, "cargo"@, cargo_list_args(), 15, Ok::<CommandRun, CommandFailure>(run)), cargo_rows_of(u, run.stdout@, bin_dir)]
        crate::command::answered_run(runner, "cargo"@, cargo_list_args(), 15, Ok::<CommandRun, CommandFailure>(run))
            && run.exit_code == Some(0i32) && cargo_rows_of(u, run.stdout@, bin_dir)
            && packages == sorted_by_name(u)
    ||| packages.len() == 0 && exists|run: CommandRun|
        #[trigger] crate::command::answered_run(runner, "cargo"@, cargo_list_args(), 15, Ok::<CommandRun, CommandFailure>(run))
            && run.exit_code == Some(0i32) && cargo_entries_spec(run.stdout@) is Err
    ||| packages.len() == 0 && exists|out: Result<CommandRun, CommandFailure>|
        #[trigger] crate::command::answered_run(runner, "cargo"@, cargo_list_args(), 15, out)
            && !crate::command::clean_exit(out)
}

/// Scans Cargo under the Cargo Home `cargo_home`: its five directories, the
/// version, and the installed binary crates with their actions. The crate
/// list is not asked for once `cargo --version` fails.
pub fn scan_cargo_with_runner_and_home<F>(runner: &F, cargo_home: &str) -> (r: ManagerSnapshot) where
    F: Fn(&str, &[String], u64) -> Result<CommandRun, CommandFailure>,

    requires
        cargo_runner_admits(*runner),
    ensures
        r.id == ManagerId::Cargo,
        r.label@ == "Cargo"@,
        r.status == finished_status(r),
        cargo_paths(r.paths@, cargo_home@),
        r.commands@.len() >= 1,
        envelope_is(r.commands@[0], "cargo"@, seq!["--version"@], 5000),
        r.version is None ==> r.commands@.len() == 1 && r.packages@.len() == 0
            && r.failures@.len() == 1 && exists|out: Result<CommandRun, CommandFailure>|
            #[trigger] crate::command::answered_run(*runner, "cargo"@, seq!["--version"@], 5, out)
                && crate::command::recorded_failure(r.failures@[0], out, "Cargo version probe failed"@),
        r.version matches Some(v) ==> (exists|run: CommandRun|
            #[trigger] crate::command::answered_run(*runner, "cargo"@, seq!["--version"@], 5, Ok(run))
                && run.exit_code == Some(0i32) && v@ == cargo_version_spec(run.stdout@))
            && r.commands@.len() == 2 && envelope_is(r.commands@[1], "cargo"@, cargo_list_args(), 15000),
        r.packages@.len() > 0 ==> exists|run: CommandRun|
            #[trigger] crate::command::answered_run(*runner, "cargo"@, cargo_list_args(), 15, Ok(run))
                && run.exit_code == Some(0i32) && cargo_entries_spec(run.stdout@) is Ok,
        forall|k: int| 0 <= k < r.packages@.len() ==> cargo_row_reported(#[trigger] r.packages@[k]),
        r.version is Some ==> cargo_packages_listed(*runner, join_path(cargo_home@, "bin"@), r.packages@),
        r.version is Some ==> cargo_list_grew(*runner, Seq::<CommandFailure>::empty(), r.failures@),
        r.homebrew is None && r.maven is None && r.pip is None && r.docker is None,
{
    let mut snapshot = empty_snapshot(ManagerId::Cargo, "Cargo");
    let cargo_bin = join(cargo_home, "bin");
    snapshot.paths.push(path_info("Cargo bin", PathKind::CargoBin, cargo_bin.clone()));
    snapshot.paths.push(
        path_info("Cargo registry cache", PathKind::CargoRegistryCache, join(cargo_home, "registry/cache")),
    );
    snapshot.paths.push(
        path_info("Cargo registry source", PathKind::CargoRegistrySource, join(cargo_home, "registry/src")),
    );
    snapshot.paths.push(path_info("Cargo git cache", PathKind::CargoGitCache, join(cargo_home, "git/db")));
    snapshot.paths.push(
        path_info("Cargo git checkouts", PathKind::CargoGitCheckouts, join(cargo_home, "git/checkouts")),
    );
    assert(cargo_paths(snapshot.paths@, cargo_home@));
    assert(crate::command::str_views(["--version"]@) == seq!["--version"@]);
    let version_run = match run_recorded_command(
        &mut snapshot,
        runner,
        "cargo",
        &["--version"],
        5,
        "Cargo version probe failed",
    ) {
        Some(run) => run,
        None => {
            assert(snapshot.commands@ =~= seq![snapshot.commands@[0]]);
            return finish(snapshot);
        },
    };
    snapshot.version = Some(parse_cargo_version(version_run.stdout.as_str()));
    let ghost c1 = snapshot.commands@;
    assert(crate::command::str_views(["install", "--list"]@) == cargo_list_args());
    let ghost list_av = crate::command::str_views(["install", "--list"]@);
    let ghost f0 = snapshot.failures@;
    assert(f0 =~= Seq::<CommandFailure>::empty());
    let list_run = match run_recorded_command(
        &mut snapshot,
        runner,
        "cargo",
        &["install", "--list"],
        15,
        "Cargo installed binary crate list failed",
    ) {
        Some(run) => run,
        None => {
            proof {
                crate::command::lemma_log_extends(c1, snapshot.commands@);
                let out = choose|out: Result<CommandRun, CommandFailure>|
                    #[trigger] crate::command::answered_run(*runner, "cargo"@, list_av, 15, out)
                        && crate::command::recorded_failure(snapshot.failures@.last(), out, "Cargo installed binary crate list failed"@);
                assert(crate::command::answered_run(*runner, "cargo"@, cargo_list_args(), 15, out));
                assert(cargo_packages_listed(*runner, cargo_bin@, snapshot.packages@));
                assert(crate::command::added_since(f0, snapshot.failures@) =~= seq![snapshot.failures@.last()]);
                assert(cargo_list_grew(*runner, f0, snapshot.failures@));
            }
            return finish(snapshot);
        },
    };
    proof { crate::command::lemma_log_extends(c1, snapshot.commands@); }
    match parse_cargo_install_list(list_run.stdout.as_str(), cargo_bin.as_str()) {
        Ok(packages) => {
            proof {
                let es = cargo_entries_spec(list_run.stdout@)->Ok_0;
                let u = choose|u: Seq<PackageRow>|
                    packages@ == sorted_by_name(u) && u.len() == es.len() && forall|i: int|
                        0 <= i < u.len() ==> cargo_row(#[trigger] u[i], es[i], cargo_bin@);
                assert forall|i: int| 0 <= i < u.len() implies #[trigger] cargo_row_reported(u[i]) by {
                    assert(cargo_row(u[i], es[i], cargo_bin@));
                }
                crate::scan_support::lemma_sorted_all(u, |row: PackageRow| cargo_row_reported(row));
                assert(cargo_rows_of(u, list_run.stdout@, cargo_bin@));
                assert(crate::command::answered_run(*runner, "cargo"@, cargo_list_args(), 15, Ok::<CommandRun, CommandFailure>(list_run)));
            }
            snapshot.packages = packages;
            assert(cargo_packages_listed(*runner, cargo_bin@, snapshot.packages@));
            assert(crate::command::added_since(f0, snapshot.failures@) =~= Seq::<CommandFailure>::empty());
            assert(cargo_list_grew(*runner, f0, snapshot.failures@));
        },
        Err(message) => {
            let ghost lr = list_run;
            assert(snapshot.failures@ == f0);
            snapshot.failures.push(parse_failure(message, list_run));
            assert(snapshot.failures@.subrange(0, 0) =~= f0);
            assert(crate::command::parse_recorded(snapshot.failures@[0], lr));
            assert(crate::command::answered_run(*runner, "cargo"@, cargo_list_args(), 15, Ok::<CommandRun, CommandFailure>(lr)));
            assert(cargo_packages_listed(*runner, cargo_bin@, snapshot.packages@));
            assert(crate::command::added_since(f0, snapshot.failures@) =~= seq![snapshot.failures@.last()]);
            assert(cargo_list_grew(*runner, f0, snapshot.failures@));
        },
    }
    finish(snapshot)
}

/// Scans Cargo under the Cargo Home that `CARGO_HOME` (the value given as
/// `cargo_home_env`) or the home directory names.
pub fn scan_cargo_with_runner<F>(runner: &F, cargo_home_env: Option<&str>, home: Option<&str>) -> (r:
    ManagerSnapshot) where F: Fn(&str, &[String], u64) -> Result<CommandRun, CommandFailure>
    requires
        cargo_runner_admits(*runner),
    ensures
        r.id == ManagerId::Cargo,
        r.status == finished_status(r),
        cargo_paths(r.paths@, cargo_home_spec(opt_str_view(cargo_home_env), opt_str_view(home))),
        forall|k: int| 0 <= k < r.packages@.len() ==> cargo_row_reported(#[trigger] r.packages@[k]),
{
    let cargo_home = resolve_cargo_home(cargo_home_env, home);
    scan_cargo_with_runner_and_home(runner, cargo_home.as_str())
}

} // verus!
