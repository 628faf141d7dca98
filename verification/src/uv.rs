//! uv: installed tools and Python versions, uv's directories, and the
//! maintenance commands it offers. The scan runs read-only uv commands only.
use crate::command::{
    args3, envelope, envelope_is, envelope_owned, may_run, parse_failure, run_recorded_command,
    run_recorded_stdout, str_views,
};
use crate::disk_usage::path_info;
use crate::scan_support::{empty_snapshot, finish, finished_status, package_row, sort_rows_by_name, sorted_by_name};
use crate::text::{
    chars_of, first_index, first_line, is_ascii_digit, lines, lines_of, owned, string_from,
    strip_prefix, strip_prefix_str, trim, trim_string, views, words, words_of,
};
use crate::types::{
    CommandFailure, CommandRun, ManagerId, ManagerSnapshot, ManagerStatus, PackageKind, PackageRow,
    PathKind,
};
use vstd::prelude::*;

verus! {

/// The version `uv --version` reports: the text after `uv ` on the first
/// line, or the whole trimmed first line.
pub open spec fn uv_version_spec(stdout: Seq<char>) -> Seq<char> {
    let line = trim(first_line(stdout));
    match strip_prefix(line, "uv "@) {
        Some(v) => if v.len() > 0 {
            v
        } else {
            line
        },
        None => line,
    }
}

/// The first line of `s`, or the empty text.
pub fn first_line_of(s: &str) -> (r: String)
    ensures
        r@ == first_line(s@),
{
    let ls = lines_of(s);
    if ls.len() > 0 {
        ls[0].clone()
    } else {
        proof {
            reveal_strlit("");
        }
        assert(first_line(s@) == Seq::<char>::empty());
        owned("")
    }
}

/// The version reported by `uv --version`.
pub fn parse_uv_version(stdout: &str) -> (r: String)
    ensures
        r@ == uv_version_spec(stdout@),
{
    let first = first_line_of(stdout);
    let line = trim_string(first.as_str());
    match strip_prefix_str(line.as_str(), "uv ") {
        Some(v) => if v.as_str().is_empty() {
            line
        } else {
            v
        },
        None => line,
    }
}

/// The first word that starts with `v`, without its `v`.
pub open spec fn first_v_word(ws: Seq<Seq<char>>) -> Option<Seq<char>>
    decreases ws.len(),
{
    if ws.len() == 0 {
        None
    } else if ws[0].len() > 0 && ws[0][0] == 'v' {
        Some(ws[0].drop_first())
    } else {
        first_v_word(ws.drop_first())
    }
}

/// A tool line of `uv tool list`: the name before the first space, and the
/// first later word that starts with `v`, when a digit follows that `v`.
pub open spec fn uv_header_spec(line: Seq<char>) -> Option<(Seq<char>, Seq<char>)> {
    let i = first_index(line, ' ');
    if i < 0 {
        None
    } else {
        match first_v_word(words(line.subrange(i + 1, line.len() as int))) {
            Some(v) => if v.len() > 0 && is_ascii_digit(v[0]) {
                Some((line.subrange(0, i), v))
            } else {
                None
            },
            None => None,
        }
    }
}

/// Parses a tool line of `uv tool list`.
pub fn parse_uv_tool_header(line: &str) -> (r: Option<(String, String)>)
    ensures
        match r {
            Some((n, v)) => uv_header_spec(line@) == Some((n@, v@)),
            None => uv_header_spec(line@) is None,
        },
{
    let cs = chars_of(line);
    let mut i: usize = 0;
    while i < cs.len() && cs[i] != ' '
        invariant
            i <= cs.len(),
            cs@ == line@,
            forall|j: int| 0 <= j < i ==> cs@[j] != ' ',
        decreases cs.len() - i,
    {
        i = i + 1;
    }
    proof {
        crate::text::lemma_first_index_is(cs@, ' ', i as int);
    }
    if i == cs.len() {
        return None;
    }
    let name = string_from(&cs, 0, i);
    let rest = string_from(&cs, i + 1, cs.len());
    let ws = words_of(rest.as_str());
    let ghost wv = words(rest@);
    assert(wv.subrange(0, wv.len() as int) == wv);
    let mut k: usize = 0;
    while k < ws.len()
        invariant
            k <= ws@.len(),
            views(ws@) == wv,
            first_v_word(wv) == first_v_word(wv.subrange(k as int, wv.len() as int)),
            i < line@.len(),
            first_index(line@, ' ') == i as int,
            line@.subrange(i + 1, line@.len() as int) == rest@,
            line@.subrange(0, i as int) == name@,
            wv == words(rest@),
        decreases ws@.len() - k,
    {
        let wc = chars_of(ws[k].as_str());
        assert(wc@ == wv[k as int]);
        assert(wv.subrange(k as int, wv.len() as int)[0] == wv[k as int]);
        if wc.len() > 0 && wc[0] == 'v' {
            let v = string_from(&wc, 1, wc.len());
            assert(v@ == wv[k as int].drop_first());
            assert(first_v_word(wv.subrange(k as int, wv.len() as int)) == Some(v@));
            proof {
                assert(first_index(line@, ' ') == i as int);
                assert(line@.subrange(i + 1, line@.len() as int) == rest@);
                assert(first_v_word(words(line@.subrange(i + 1, line@.len() as int))) == Some(v@));
            }
            if wc.len() > 1 && crate::text::is_digit(wc[1]) {
                assert(v@[0] == wc@[1]);
                assert(line@.subrange(0, i as int) == name@);
                return Some((name, v));
            } else {
                return None;
            }
        }
        assert(wv.subrange(k as int, wv.len() as int).drop_first() == wv.subrange(
            k + 1,
            wv.len() as int,
        ));
        k = k + 1;
    }
    None
}

/// An executable line under a tool of `uv tool list`: `- name` or `* name`.
pub open spec fn uv_executable_spec(line: Seq<char>) -> Option<Seq<char>> {
    match strip_prefix(line, "- "@) {
        Some(rest) => if trim(rest).len() > 0 {
            Some(trim(rest))
        } else {
            None
        },
        None => match strip_prefix(line, "* "@) {
            Some(rest) => if trim(rest).len() > 0 {
                Some(trim(rest))
            } else {
                None
            },
            None => None,
        },
    }
}

/// Parses an executable line of `uv tool list`.
pub fn parse_uv_tool_executable(line: &str) -> (r: Option<String>)
    ensures
        crate::text::opt_view(r) == uv_executable_spec(line@),
{
    let rest = match strip_prefix_str(line, "- ") {
        Some(rest) => rest,
        None => match strip_prefix_str(line, "* ") {
            Some(rest) => rest,
            None => return None,
        },
    };
    let t = trim_string(rest.as_str());
    if t.as_str().is_empty() {
        None
    } else {
        Some(t)
    }
}

pub type UvToolSpec = (Seq<char>, Seq<char>, Option<Seq<char>>);

/// One line of `uv tool list`: blank lines are skipped, a tool line starts a
/// row, and the first executable line under it becomes its path.
pub open spec fn uv_tool_step(rows: Seq<UvToolSpec>, line: Seq<char>) -> Seq<UvToolSpec> {
    let t = trim(line);
    if t.len() == 0 {
        rows
    } else {
        match uv_header_spec(t) {
            Some((n, v)) => rows.push((n, v, None)),
            None => if rows.len() > 0 && rows.last().2 is None {
                match uv_executable_spec(t) {
                    Some(e) => rows.update(rows.len() - 1, (rows.last().0, rows.last().1, Some(e))),
                    None => rows,
                }
            } else {
                rows
            },
        }
    }
}

pub open spec fn uv_tool_fold(ls: Seq<Seq<char>>) -> Seq<UvToolSpec>
    decreases ls.len(),
{
    if ls.len() == 0 {
        seq![]
    } else {
        uv_tool_step(uv_tool_fold(ls.drop_last()), ls.last())
    }
}

/// A row of a uv tool: name, version, first executable, before any action.
pub open spec fn uv_tool_row(row: PackageRow, e: UvToolSpec) -> bool {
    &&& row.name@ == e.0
    &&& row.version@ == e.1
    &&& crate::text::opt_view(row.path) == e.2
    &&& row.source@ == "uv tool list"@
    &&& row.kind == PackageKind::UvTool
    &&& row.signals@.len() == 0
    &&& row.actions@.len() == 0
}

/// The tools of `uv tool list`, sorted by name.
pub fn parse_uv_tool_list(stdout: &str) -> (r: Vec<PackageRow>)
    ensures
        exists|u: Seq<PackageRow>|
            r@ == sorted_by_name(u) && u.len() == uv_tool_fold(lines(stdout@)).len() && forall|
                i: int,
            | 0 <= i < u.len() ==> uv_tool_row(#[trigger] u[i], uv_tool_fold(lines(stdout@))[i]),
{
    let ls = lines_of(stdout);
    let ghost lv = lines(stdout@);
    let mut rows: Vec<PackageRow> = Vec::new();
    let mut i: usize = 0;
    assert(lv.subrange(0, 0) =~= Seq::<Seq<char>>::empty());
    while i < ls.len()
        invariant
            i <= ls@.len(),
            views(ls@) == lv,
            lv == lines(stdout@),
            rows@.len() == uv_tool_fold(lv.subrange(0, i as int)).len(),
            forall|k: int|
                0 <= k < rows@.len() ==> uv_tool_row(
                    #[trigger] rows@[k],
                    uv_tool_fold(lv.subrange(0, i as int))[k],
                ),
        decreases ls@.len() - i,
    {
        let ghost before = uv_tool_fold(lv.subrange(0, i as int));
        assert(lv.subrange(0, i + 1).drop_last() == lv.subrange(0, i as int));
        assert(lv.subrange(0, i + 1).last() == lv[i as int]);
        let t = trim_string(ls[i].as_str());
        assert(ls@[i as int]@ == lv[i as int]);
        if !t.as_str().is_empty() {
            match parse_uv_tool_header(t.as_str()) {
                Some((name, version)) => {
                    let row = package_row(name, version, None, "uv tool list", PackageKind::UvTool);
                    rows.push(row);
                },
                None => {
                    let n = rows.len();
                    if n > 0 && rows[n - 1].path.is_none() {
                        match parse_uv_tool_executable(t.as_str()) {
                            Some(e) => {
                                let mut last = rows.pop().unwrap();
                                last.path = Some(e);
                                rows.push(last);
                                assert(uv_tool_fold(lv.subrange(0, i + 1)) == before.update(
                                    before.len() - 1,
                                    (before.last().0, before.last().1, uv_executable_spec(t@)),
                                ));
                            },
                            None => {},
                        }
                    }
                },
            }
        }
        i = i + 1;
    }
    assert(lv.subrange(0, lv.len() as int) == lv);
    let ghost unsorted = rows@;
    let sorted = sort_rows_by_name(rows);
    assert(sorted@ == sorted_by_name(unsorted));
    sorted
}

/// The first piece that starts with a digit.
pub open spec fn first_digit_part(parts: Seq<Seq<char>>) -> Option<Seq<char>>
    decreases parts.len(),
{
    if parts.len() == 0 {
        None
    } else if parts[0].len() > 0 && is_ascii_digit(parts[0][0]) {
        Some(parts[0])
    } else {
        first_digit_part(parts.drop_first())
    }
}

/// The version inside a uv Python name such as `cpython-3.12.7-macos`: the
/// first `-`-separated piece that starts with a digit.
pub open spec fn uv_python_version_spec(name: Seq<char>) -> Option<Seq<char>> {
    first_digit_part(crate::text::split_on(name, '-'))
}

/// The version inside a uv Python name.
#[verifier::rlimit(40)]
pub fn parse_uv_python_version(name: &str) -> (r: Option<String>)
    ensures
        crate::text::opt_view(r) == uv_python_version_spec(name@),
{
    let cs = chars_of(name);
    let ranges = crate::path::split_ranges(&cs, '-');
    let ghost parts = crate::text::split_on(cs@, '-');
    assert(parts.subrange(0, parts.len() as int) == parts);
    let mut k: usize = 0;
    while k < ranges.len()
        invariant
            k <= ranges@.len(),
            cs@ == name@,
            parts == crate::text::split_on(name@, '-'),
            ranges@.len() == parts.len(),
            forall|j: int| 0 <= j < ranges@.len() ==> (#[trigger] ranges@[j]).0 <= ranges@[j].1 <= cs@.len(),
            forall|j: int| 0 <= j < ranges@.len() ==> #[trigger] parts[j] == cs@.subrange(ranges@[j].0 as int, ranges@[j].1 as int),
            first_digit_part(parts) == first_digit_part(parts.subrange(k as int, parts.len() as int)),
        decreases ranges@.len() - k,
    {
        let (lo, hi) = ranges[k];
        assert(parts[k as int] == cs@.subrange(lo as int, hi as int));
        assert(parts.subrange(k as int, parts.len() as int)[0] == parts[k as int]);
        if lo < hi && crate::text::is_digit(cs[lo]) {
            assert(parts[k as int][0] == cs@[lo as int]);
            assert(first_digit_part(parts.subrange(k as int, parts.len() as int)) == Some(parts[k as int]));
            assert(uv_python_version_spec(name@) == first_digit_part(parts));
            return Some(string_from(&cs, lo, hi));
        }
        assert(parts.subrange(k as int, parts.len() as int).drop_first() == parts.subrange(
            k + 1,
            parts.len() as int,
        ));
        k = k + 1;
    }
    None
}

pub type UvPythonSpec = (Seq<char>, Seq<char>, Option<Seq<char>>);

pub open spec fn uv_python_error(t: Seq<char>) -> Seq<char> {
    "Could not parse uv Python row: "@ + t
}

/// One line of `uv python list --only-installed`: blank lines are skipped;
/// every other line is a name, optionally followed by a path, and its name
/// must hold a version.
pub open spec fn uv_python_step(acc: Result<Seq<UvPythonSpec>, Seq<char>>, line: Seq<char>) -> Result<
    Seq<UvPythonSpec>,
    Seq<char>,
> {
    match acc {
        Err(e) => Err(e),
        Ok(rows) => {
            let t = trim(line);
            if t.len() == 0 {
                Ok(rows)
            } else {
                let ws = words(t);
                let name = ws[0];
                let path = if ws.len() > 1 {
                    Some(ws[1])
                } else {
                    None
                };
                match uv_python_version_spec(name) {
                    Some(v) => Ok(rows.push((name, v, path))),
                    None => Err(uv_python_error(t)),
                }
            }
        },
    }
}

pub open spec fn uv_python_fold(ls: Seq<Seq<char>>) -> Result<Seq<UvPythonSpec>, Seq<char>>
    decreases ls.len(),
{
    if ls.len() == 0 {
        Ok(seq![])
    } else {
        uv_python_step(uv_python_fold(ls.drop_last()), ls.last())
    }
}

pub proof fn lemma_uv_python_fold_err(ls: Seq<Seq<char>>, i: int, e: Seq<char>)
    requires
        0 < i <= ls.len(),
        uv_python_fold(ls.subrange(0, i)) == Err::<Seq<UvPythonSpec>, Seq<char>>(e),
    ensures
        uv_python_fold(ls) == Err::<Seq<UvPythonSpec>, Seq<char>>(e),
    decreases ls.len() - i,
{
    if i < ls.len() {
        assert(ls.subrange(0, i + 1).drop_last() == ls.subrange(0, i));
        lemma_uv_python_fold_err(ls, i + 1, e);
    } else {
        assert(ls.subrange(0, i) == ls);
    }
}

/// A row of an installed uv Python, before any action.
pub open spec fn uv_python_row(row: PackageRow, e: UvPythonSpec) -> bool {
    &&& row.name@ == e.0
    &&& row.version@ == e.1
    &&& crate::text::opt_view(row.path) == e.2
    &&& row.source@ == "uv python list --only-installed"@
    &&& row.kind == PackageKind::UvPython
    &&& row.signals@.len() == 0
    &&& row.actions@.len() == 0
}

/// The Pythons of `uv python list --only-installed`, sorted by name, or the
/// first row without a version.
#[verifier::rlimit(40)]
#[verifier::spinoff_prover]
pub fn parse_uv_python_list(stdout: &str) -> (r: Result<Vec<PackageRow>, String>)
    ensures
        match (r, uv_python_fold(lines(stdout@))) {
            (Ok(rows), Ok(entries)) => exists|u: Seq<PackageRow>|
                rows@ == sorted_by_name(u) && u.len() == entries.len() && forall|i: int|
                    0 <= i < u.len() ==> uv_python_row(#[trigger] u[i], entries[i]),
            (Err(m), Err(e)) => m@ == e,
            _ => false,
        },
{
    let ls = lines_of(stdout);
    let ghost lv = lines(stdout@);
    let mut rows: Vec<PackageRow> = Vec::new();
    let mut i: usize = 0;
    assert(lv.subrange(0, 0) =~= Seq::<Seq<char>>::empty());
    while i < ls.len()
        invariant
            i <= ls@.len(),
            views(ls@) == lv,
            lv == lines(stdout@),
            uv_python_fold(lv.subrange(0, i as int)) is Ok,
            rows@.len() == uv_python_fold(lv.subrange(0, i as int))->Ok_0.len(),
            forall|k: int|
                0 <= k < rows@.len() ==> uv_python_row(
                    #[trigger] rows@[k],
                    uv_python_fold(lv.subrange(0, i as int))->Ok_0[k],
                ),
        decreases ls@.len() - i,
    {
        assert(lv.subrange(0, i + 1).drop_last() == lv.subrange(0, i as int));
        assert(lv.subrange(0, i + 1).last() == lv[i as int]);
        assert(ls@[i as int]@ == lv[i as int]);
        let t = trim_string(ls[i].as_str());
        if !t.as_str().is_empty() {
            let ws = words_of(t.as_str());
            proof {
                crate::text::lemma_trim_idempotent(ls@[i as int]@);
                crate::text::lemma_words_nonempty(t@);
            }
            let name = ws[0].clone();
            let path = if ws.len() > 1 {
                Some(ws[1].clone())
            } else {
                None
            };
            match parse_uv_python_version(name.as_str()) {
                Some(version) => {
                    let row = package_row(
                        name,
                        version,
                        path,
                        "uv python list --only-installed",
                        PackageKind::UvPython,
                    );
                    rows.push(row);
                },
                None => {
                    let mut m = owned("Could not parse uv Python row: ");
                    crate::text::push_str(&mut m, t.as_str());
                    proof {
                        assert(uv_python_fold(lv.subrange(0, i + 1)) == Err::<Seq<UvPythonSpec>, Seq<char>>(uv_python_error(t@)));
                        lemma_uv_python_fold_err(lv, (i + 1) as int, uv_python_error(t@));
                    }
                    return Err(m);
                },
            }
        }
        i = i + 1;
    }
    assert(lv.subrange(0, lv.len() as int) == lv);
    let ghost unsorted = rows@;
    let sorted = sort_rows_by_name(rows);
    Ok(sorted)
}

/// The actions uv offers for a row, after those it had: `uv tool run` and
/// `uv tool uninstall` for a tool, `uv python install <version>` for a Python.
pub open spec fn uv_actions_appended(old: PackageRow, new: PackageRow) -> bool {
    let n = old.actions@.len();
    &&& new.name == old.name
    &&& new.version == old.version
    &&& new.path == old.path
    &&& new.source == old.source
    &&& new.kind == old.kind
    &&& new.signals == old.signals
    &&& new.actions@.subrange(0, n as int) == old.actions@
    &&& match old.kind {
        PackageKind::UvTool => new.actions@.len() == n + 2 && envelope_is(
            new.actions@[n as int],
            "uv"@,
            seq!["tool"@, "run"@, old.name@],
            0,
        ) && envelope_is(new.actions@[n as int + 1], "uv"@, seq!["tool"@, "uninstall"@, old.name@], 0),
        PackageKind::UvPython => new.actions@.len() == n + 1 && envelope_is(
            new.actions@[n as int],
            "uv"@,
            seq!["python"@, "install"@, old.version@],
            0,
        ),
        _ => new.actions@.len() == n,
    }
}

fn attach_uv_row_actions(row: &mut PackageRow)
    ensures
        uv_actions_appended(*old(row), *final(row)),
{
    let ghost before = row.actions@;
    match row.kind {
        PackageKind::UvTool => {
            let a = args3("tool", "run", row.name.as_str());
            let b = args3("tool", "uninstall", row.name.as_str());
            row.actions.push(envelope_owned("uv", a, 0));
            row.actions.push(envelope_owned("uv", b, 0));
        },
        PackageKind::UvPython => {
            let a = args3("python", "install", row.version.as_str());
            row.actions.push(envelope_owned("uv", a, 0));
        },
        _ => {},
    }
    assert(row.actions@.subrange(0, before.len() as int) =~= before);
}

/// Adds uv's actions to every row.
pub fn attach_uv_actions(rows: &mut Vec<PackageRow>)
    ensures
        final(rows)@.len() == old(rows)@.len(),
        forall|i: int|
            0 <= i < old(rows)@.len() ==> uv_actions_appended(
                #[trigger] old(rows)@[i],
                final(rows)@[i],
            ),
{
    let ghost before = rows@;
    let mut i: usize = 0;
    while i < rows.len()
        invariant
            i <= rows@.len(),
            rows@.len() == before.len(),
            forall|k: int| 0 <= k < i ==> uv_actions_appended(#[trigger] before[k], rows@[k]),
            forall|k: int| i <= k < rows@.len() ==> #[trigger] rows@[k] == before[k],
        decreases rows@.len() - i,
    {
        let mut row = rows.remove(i);
        attach_uv_row_actions(&mut row);
        rows.insert(i, row);
        i = i + 1;
    }
}

/// The read-only commands a uv scan may run, with their budgets in seconds.
pub open spec fn uv_scan_command(program: Seq<char>, args: Seq<Seq<char>>, timeout: u64) -> bool {
    &&& program == "uv"@
    &&& {
        ||| args == seq!["--version"@] && timeout == 5
        ||| args == seq!["tool"@, "dir"@] && timeout == 5
        ||| args == seq!["python"@, "dir"@] && timeout == 5
        ||| args == seq!["cache"@, "dir"@] && timeout == 5
        ||| args == seq!["tool"@, "list"@] && timeout == 15
        ||| args == seq!["python"@, "list"@, "--only-installed"@] && timeout == 15
    }
}

pub open spec fn uv_dir_args(i: int) -> Seq<Seq<char>> {
    if i == 0 {
        seq!["tool"@, "dir"@]
    } else if i == 1 {
        seq!["python"@, "dir"@]
    } else {
        seq!["cache"@, "dir"@]
    }
}

pub open spec fn uv_dir_kind(i: int) -> PathKind {
    if i == 0 {
        PathKind::UvTools
    } else if i == 1 {
        PathKind::UvPythonInstallations
    } else {
        PathKind::UvCache
    }
}

pub open spec fn uv_dir_label(i: int) -> Seq<char> {
    if i == 0 {
        "uv tools"@
    } else if i == 1 {
        "uv Python installations"@
    } else {
        "uv cache"@
    }
}

pub open spec fn uv_dir_message(i: int) -> Seq<char> {
    if i == 0 {
        "uv tool dir lookup failed"@
    } else if i == 1 {
        "uv python dir lookup failed"@
    } else {
        "uv cache dir lookup failed"@
    }
}

/// The `i`-th directory lookup went from paths `pb` and failures `fb` to
/// `pa` and `fa`: a clean answer adds its directory as the next path;
/// any other answer adds its recorded failure.
pub open spec fn uv_dir_answered<F: Fn(&str, &[String], u64) -> Result<CommandRun, CommandFailure>>(
    runner: F,
    i: int,
    pb: Seq<crate::types::PathInfo>,
    pa: Seq<crate::types::PathInfo>,
    fb: Seq<CommandFailure>,
    fa: Seq<CommandFailure>,
) -> bool {
    &&& crate::command::extends(fb, fa)
    &&& exists|out: Result<CommandRun, CommandFailure>|
        #[trigger] crate::command::answered_run(runner, "uv"@, uv_dir_args(i), 5, out)
            && crate::command::adds_failures(out, uv_dir_message(i), crate::command::added_since(fb, fa))
            && if crate::command::clean_exit(out) {
                &&& pa.len() == pb.len() + 1
                &&& pa.drop_last() == pb
                &&& pa.last().kind == uv_dir_kind(i)
                &&& pa.last().label@ == uv_dir_label(i)
                &&& pa.last().path@ == trim(out->Ok_0.stdout@)
            } else {
                pa == pb
            }
}

/// The failures went from `before` to `after` by the answer to
/// `uv python list --only-installed`, whose clean output may be refused.
pub open spec fn uv_pythons_grew<F: Fn(&str, &[String], u64) -> Result<CommandRun, CommandFailure>>(
    runner: F,
    before: Seq<CommandFailure>,
    after: Seq<CommandFailure>,
) -> bool {
    &&& crate::command::extends(before, after)
    &&& exists|out: Result<CommandRun, CommandFailure>|
        #[trigger] crate::command::answered_run(runner, "uv"@, uv_python_list_args(), 15, out)
            && crate::command::parsed_adds(
            out,
            "uv Python list failed"@,
            crate::command::clean_exit(out) && uv_python_fold(lines(out->Ok_0.stdout@)) is Err,
            crate::command::added_since(before, after),
        )
}

/// A path of a uv scan: the directory uv reported for tools, Pythons or its
/// cache, waiting to be measured.
pub open spec fn uv_path_reported<F: Fn(&str, &[String], u64) -> Result<CommandRun, CommandFailure>>(
    runner: F,
    p: crate::types::PathInfo,
) -> bool {
    exists|i: int, run: CommandRun|
        0 <= i < 3 && #[trigger] crate::command::answered_run(
            runner,
            "uv"@,
            uv_dir_args(i),
            5,
            Ok(run),
        ) && run.exit_code == Some(0i32) && p.kind == uv_dir_kind(i) && p.label@ == uv_dir_label(i)
            && p.path@ == trim(run.stdout@) && p.size.status == crate::types::DiskUsageStatus::Pending
}

/// A row as a uv scan parsed it, before actions.
pub open spec fn uv_row_parsed(row: PackageRow) -> bool {
    &&& (row.kind == PackageKind::UvTool && row.source@ == "uv tool list"@) || (row.kind
        == PackageKind::UvPython && row.source@ == "uv python list --only-installed"@)
    &&& row.actions@.len() == 0
}

/// A row of a uv scan: a tool with `uv tool run` and `uv tool uninstall`, or
/// an installed Python with `uv python install <version>`.
pub open spec fn uv_row_reported(row: PackageRow) -> bool {
    ||| row.kind == PackageKind::UvTool && row.source@ == "uv tool list"@ && row.actions@.len()
        == 2 && envelope_is(row.actions@[0], "uv"@, seq!["tool"@, "run"@, row.name@], 0)
        && envelope_is(row.actions@[1], "uv"@, seq!["tool"@, "uninstall"@, row.name@], 0)
    ||| row.kind == PackageKind::UvPython && row.source@ == "uv python list --only-installed"@
        && row.actions@.len() == 1 && envelope_is(
        row.actions@[0],
        "uv"@,
        seq!["python"@, "install"@, row.version@],
        0,
    )
}

/// The command log of a uv scan that found uv: its six probes, then the two
/// cache commands it offers (`uv cache prune`, `uv cache clean`).
pub open spec fn uv_full_log(c: Seq<crate::types::CommandEnvelope>) -> bool {
    &&& c.len() == 8
    &&& envelope_is(c[0], "uv"@, seq!["--version"@], 5000)
    &&& envelope_is(c[1], "uv"@, seq!["tool"@, "dir"@], 5000)
    &&& envelope_is(c[2], "uv"@, seq!["python"@, "dir"@], 5000)
    &&& envelope_is(c[3], "uv"@, seq!["cache"@, "dir"@], 5000)
    &&& envelope_is(c[4], "uv"@, seq!["tool"@, "list"@], 15000)
    &&& envelope_is(c[5], "uv"@, seq!["python"@, "list"@, "--only-installed"@], 15000)
    &&& envelope_is(c[6], "uv"@, seq!["cache"@, "prune"@], 0)
    &&& envelope_is(c[7], "uv"@, seq!["cache"@, "clean"@], 0)
}

fn record_uv_dir<F>(snapshot: &mut ManagerSnapshot, runner: &F, i: usize)
    where F: Fn(&str, &[String], u64) -> Result<CommandRun, CommandFailure>,
    requires
        i < 3,
        forall|p: &str, a: &[String], t: u64|
            uv_scan_command(p@, views(a@), t) ==> #[trigger] runner.requires((p, a, t)),
        forall|k: int| 0 <= k < old(snapshot).paths@.len() ==> uv_path_reported(*runner, #[trigger] old(snapshot).paths@[k]),
    ensures
        final(snapshot).id == old(snapshot).id,
        final(snapshot).label == old(snapshot).label,
        final(snapshot).status == old(snapshot).status,
        final(snapshot).version == old(snapshot).version,
        final(snapshot).packages == old(snapshot).packages,
        final(snapshot).homebrew == old(snapshot).homebrew,
        final(snapshot).maven == old(snapshot).maven,
        final(snapshot).pip == old(snapshot).pip,
        final(snapshot).docker == old(snapshot).docker,
        final(snapshot).unsupported_reason == old(snapshot).unsupported_reason,
        final(snapshot).commands@.len() == old(snapshot).commands@.len() + 1,
        final(snapshot).commands@.drop_last() == old(snapshot).commands@,
        envelope_is(final(snapshot).commands@.last(), "uv"@, uv_dir_args(i as int), 5000),
        forall|k: int| 0 <= k < final(snapshot).paths@.len() ==> uv_path_reported(*runner, #[trigger] final(snapshot).paths@[k]),
        uv_dir_answered(*runner, i as int, old(snapshot).paths@, final(snapshot).paths@, old(snapshot).failures@, final(snapshot).failures@),
{
    let ghost pb = snapshot.paths@;
    let ghost fb = snapshot.failures@;
    let (args, message): (&[&str], &str) = if i == 0 {
        (&["tool", "dir"], "uv tool dir lookup failed")
    } else if i == 1 {
        (&["python", "dir"], "uv python dir lookup failed")
    } else {
        (&["cache", "dir"], "uv cache dir lookup failed")
    };
    assert(str_views(args@) == uv_dir_args(i as int));
    if let Some(path) = run_recorded_stdout(snapshot, runner, "uv", args, 5, message) {
        let (label, kind) = if i == 0 {
            ("uv tools", PathKind::UvTools)
        } else if i == 1 {
            ("uv Python installations", PathKind::UvPythonInstallations)
        } else {
            ("uv cache", PathKind::UvCache)
        };
        let info = path_info(label, kind, path);
        proof {
            let run = choose|run: CommandRun|
                #[trigger] crate::command::answered_run(*runner, "uv"@, str_views(args@), 5, Ok(run))
                    && run.exit_code == Some(0i32) && path@ == trim(run.stdout@);
            assert(crate::command::answered_run(*runner, "uv"@, uv_dir_args(i as int), 5, Ok(run)));
            assert(uv_path_reported(*runner, info));
        }
        snapshot.paths.push(info);
        proof {
            let run = choose|run: CommandRun|
                #[trigger] crate::command::answered_run(*runner, "uv"@, str_views(args@), 5, Ok(run))
                    && run.exit_code == Some(0i32) && path@ == trim(run.stdout@);
            assert(snapshot.paths@.drop_last() =~= pb);
            assert(crate::command::added_since(fb, snapshot.failures@) =~= Seq::<CommandFailure>::empty());
            assert(snapshot.failures@.subrange(0, fb.len() as int) =~= fb);
            assert(crate::command::answered_run(*runner, "uv"@, uv_dir_args(i as int), 5, Ok::<CommandRun, CommandFailure>(run)));
        }
    } else {
        proof {
            let out = choose|out: Result<CommandRun, CommandFailure>|
                #[trigger] crate::command::answered_run(*runner, "uv"@, str_views(args@), 5, out)
                    && crate::command::recorded_failure(snapshot.failures@.last(), out, message@);
            assert(crate::command::added_since(fb, snapshot.failures@) =~= seq![snapshot.failures@.last()]);
            assert(crate::command::answered_run(*runner, "uv"@, uv_dir_args(i as int), 5, out));
        }
    }
    assert(uv_dir_answered(*runner, i as int, pb, snapshot.paths@, fb, snapshot.failures@));
}

pub open spec fn uv_tool_list_args() -> Seq<Seq<char>> {
    seq!["tool"@, "list"@]
}

pub open spec fn uv_python_list_args() -> Seq<Seq<char>> {
    seq!["python"@, "list"@, "--only-installed"@]
}

/// The tools of a uv scan: on a clean exit of `uv tool list`, one row per
/// tool it prints, sorted by name; otherwise none.
pub open spec fn uv_tools_listed<F: Fn(&str, &[String], u64) -> Result<CommandRun, CommandFailure>>(
    runner: F,
    rows: Seq<PackageRow>,
) -> bool {
    exists|out: Result<CommandRun, CommandFailure>|
        #[trigger] crate::command::answered_run(runner, "uv"@, uv_tool_list_args(), 15, out) && match out {
            Ok(run) => if run.exit_code == Some(0i32) {
                exists|u: Seq<PackageRow>|
                    #[trigger] sorted_by_name(u) == rows && u.len() == uv_tool_fold(lines(run.stdout@)).len()
                        && forall|i: int| 0 <= i < u.len() ==> uv_tool_row(#[trigger] u[i], uv_tool_fold(lines(run.stdout@))[i])
            } else {
                rows.len() == 0
            },
            Err(_) => rows.len() == 0,
        }
}

/// The Pythons of a uv scan: on a clean exit of `uv python list
/// --only-installed` whose lines all parse, one row per Python, sorted by
/// name; otherwise none.
pub open spec fn uv_pythons_listed<F: Fn(&str, &[String], u64) -> Result<CommandRun, CommandFailure>>(
    runner: F,
    rows: Seq<PackageRow>,
) -> bool {
    exists|out: Result<CommandRun, CommandFailure>|
        #[trigger] crate::command::answered_run(runner, "uv"@, uv_python_list_args(), 15, out) && match out {
            Ok(run) => if run.exit_code == Some(0i32) {
                match uv_python_fold(lines(run.stdout@)) {
                    Ok(entries) => exists|u: Seq<PackageRow>|
                        #[trigger] sorted_by_name(u) == rows && u.len() == entries.len() && forall|i: int|
                            0 <= i < u.len() ==> uv_python_row(#[trigger] u[i], entries[i]),
                    Err(_) => rows.len() == 0,
                }
            } else {
                rows.len() == 0
            },
            Err(_) => rows.len() == 0,
        }
}

/// The packages of a uv scan: its tools, then its Pythons, each with the
/// actions uv offers for it.
pub open spec fn uv_packages_listed<F: Fn(&str, &[String], u64) -> Result<CommandRun, CommandFailure>>(
    runner: F,
    packages: Seq<PackageRow>,
) -> bool {
    exists|tools: Seq<PackageRow>, pythons: Seq<PackageRow>|
        #![trigger uv_tools_listed(runner, tools), uv_pythons_listed(runner, pythons)]
        uv_tools_listed(runner, tools) && uv_pythons_listed(runner, pythons) && packages.len() == tools.len()
            + pythons.len() && forall|k: int|
            0 <= k < packages.len() ==> uv_actions_appended((tools + pythons)[k], #[trigger] packages[k])
}

/// Scans uv: its version, the directories of its tools, Pythons and cache,
/// the installed tools and Pythons with their actions, and the two cache
/// commands it offers. Nothing else is probed once `uv --version` fails.
pub fn scan_uv_with_runner<F>(runner: &F) -> (r: ManagerSnapshot) where
    F: Fn(&str, &[String], u64) -> Result<CommandRun, CommandFailure>,

    requires
        forall|p: &str, a: &[String], t: u64|
            p@ == "uv"@ && views(a@) == seq!["--version"@] && t == 5 ==> #[trigger] runner.requires((p, a, t)),
        forall|p: &str, a: &[String], t: u64|
            uv_scan_command(p@, views(a@), t) && crate::command::version_answered(*runner, "uv"@) ==> #[trigger] runner.requires((p, a, t)),
    ensures
        r.id == ManagerId::Uv,
        r.label@ == "uv"@,
        r.status == finished_status(r),
        r.commands@.len() >= 1,
        envelope_is(r.commands@[0], "uv"@, seq!["--version"@], 5000),
        r.version is None ==> r.commands@.len() == 1 && r.packages@.len() == 0 && r.paths@.len()
            == 0 && r.failures@.len() == 1 && exists|out: Result<CommandRun, CommandFailure>|
            #[trigger] crate::command::answered_run(*runner, "uv"@, seq!["--version"@], 5, out)
                && crate::command::recorded_failure(r.failures@[0], out, "uv version probe failed"@),
        r.version matches Some(v) ==> (exists|run: CommandRun|
            #[trigger] crate::command::answered_run(*runner, "uv"@, seq!["--version"@], 5, Ok(run))
                && run.exit_code == Some(0i32) && v@ == uv_version_spec(run.stdout@)) && uv_full_log(
            r.commands@,
        ),
        forall|k: int| 0 <= k < r.paths@.len() ==> uv_path_reported(*runner, #[trigger] r.paths@[k]),
        forall|k: int| 0 <= k < r.packages@.len() ==> uv_row_reported(#[trigger] r.packages@[k]),
        r.version is Some ==> uv_packages_listed(*runner, r.packages@),
        r.version is Some ==> exists|
            p1: Seq<crate::types::PathInfo>,
            p2: Seq<crate::types::PathInfo>,
            f1: Seq<CommandFailure>,
            f2: Seq<CommandFailure>,
            f3: Seq<CommandFailure>,
            f4: Seq<CommandFailure>,
        |
            #![trigger uv_dir_answered(*runner, 1, p1, p2, f1, f2), crate::command::failures_grew(*runner, "uv"@, uv_tool_list_args(), 15, "uv tool list failed"@, f3, f4)]
            uv_dir_answered(*runner, 0, Seq::<crate::types::PathInfo>::empty(), p1, Seq::<CommandFailure>::empty(), f1)
                && uv_dir_answered(*runner, 1, p1, p2, f1, f2) && uv_dir_answered(*runner, 2, p2, r.paths@, f2, f3)
                && crate::command::failures_grew(*runner, "uv"@, uv_tool_list_args(), 15, "uv tool list failed"@, f3, f4)
                && uv_pythons_grew(*runner, f4, r.failures@),
        r.homebrew is None && r.maven is None && r.pip is None && r.docker is None,
{
    let mut snapshot = empty_snapshot(ManagerId::Uv, "uv");
    assert(str_views(["--version"]@) == seq!["--version"@]);
    let version_run = match run_recorded_command(
        &mut snapshot,
        runner,
        "uv",
        &["--version"],
        5,
        "uv version probe failed",
    ) {
        Some(run) => run,
        None => {
            assert(snapshot.commands@ =~= seq![snapshot.commands@[0]]);
            return finish(snapshot);
        },
    };
    snapshot.version = Some(parse_uv_version(version_run.stdout.as_str()));
    assert(snapshot.paths@ =~= Seq::<crate::types::PathInfo>::empty());
    assert(snapshot.failures@ =~= Seq::<CommandFailure>::empty());
    let ghost c1 = snapshot.commands@;
    record_uv_dir(&mut snapshot, runner, 0);
    let ghost (p1, f1) = (snapshot.paths@, snapshot.failures@);
    proof { crate::command::lemma_log_extends(c1, snapshot.commands@); }
    let ghost c2 = snapshot.commands@;
    record_uv_dir(&mut snapshot, runner, 1);
    let ghost (p2, f2) = (snapshot.paths@, snapshot.failures@);
    proof { crate::command::lemma_log_extends(c2, snapshot.commands@); }
    let ghost c3 = snapshot.commands@;
    record_uv_dir(&mut snapshot, runner, 2);
    let ghost (p3, f3) = (snapshot.paths@, snapshot.failures@);
    proof { crate::command::lemma_log_extends(c3, snapshot.commands@); }
    let ghost c4 = snapshot.commands@;
    assert(str_views(["tool", "list"]@) == seq!["tool"@, "list"@]);
    let ghost tool_av = str_views(["tool", "list"]@);
    assert(snapshot.packages@.len() == 0);
    let listed_tools = run_recorded_command(
        &mut snapshot,
        runner,
        "uv",
        &["tool", "list"],
        15,
        "uv tool list failed",
    );
    let ghost f_tools = snapshot.failures@;
    assert(crate::command::failures_grew(*runner, "uv"@, uv_tool_list_args(), 15, "uv tool list failed"@, f3, f_tools));
    if let Some(run) = listed_tools {
        let tools = parse_uv_tool_list(run.stdout.as_str());
        proof {
            let u = choose|u: Seq<PackageRow>|
                tools@ == sorted_by_name(u) && u.len() == uv_tool_fold(lines(run.stdout@)).len()
                    && forall|i: int| 0 <= i < u.len() ==> uv_tool_row(#[trigger] u[i], uv_tool_fold(lines(run.stdout@))[i]);
            assert forall|i: int| 0 <= i < u.len() implies #[trigger] uv_row_parsed(u[i]) by {
                assert(uv_tool_row(u[i], uv_tool_fold(lines(run.stdout@))[i]));
            }
            crate::scan_support::lemma_sorted_all(u, |row: PackageRow| uv_row_parsed(row));
            assert(crate::command::answered_run(*runner, "uv"@, uv_tool_list_args(), 15, Ok::<CommandRun, CommandFailure>(run)));
            assert(sorted_by_name(u) == tools@);
        }
        snapshot.packages = tools;
    } else {
        proof {
            let out = choose|out: Result<CommandRun, CommandFailure>|
                #[trigger] crate::command::answered_run(*runner, "uv"@, tool_av, 15, out)
                    && crate::command::recorded_failure(f_tools.last(), out, "uv tool list failed"@);
            assert(crate::command::answered_run(*runner, "uv"@, uv_tool_list_args(), 15, out));
        }
    }
    let ghost tools_v = snapshot.packages@;
    assert(uv_tools_listed(*runner, tools_v));
    proof { crate::command::lemma_log_extends(c4, snapshot.commands@); }
    let ghost c5 = snapshot.commands@;
    assert(str_views(["python", "list", "--only-installed"]@) == seq!["python"@, "list"@, "--only-installed"@]);
    let ghost py_av = str_views(["python", "list", "--only-installed"]@);
    let ghost mut pythons_v: Seq<PackageRow> = Seq::empty();
    let listed_pythons = run_recorded_command(
        &mut snapshot,
        runner,
        "uv",
        &["python", "list", "--only-installed"],
        15,
        "uv Python list failed",
    );
    let ghost f_py = snapshot.failures@;
    assert(crate::command::failures_grew(*runner, "uv"@, uv_python_list_args(), 15, "uv Python list failed"@, f_tools, f_py));
    if let Some(run) = listed_pythons {
        assert(crate::command::answered_run(*runner, "uv"@, uv_python_list_args(), 15, Ok::<CommandRun, CommandFailure>(run)));
        match parse_uv_python_list(run.stdout.as_str()) {
            Ok(rows) => {
                proof {
                    let entries = uv_python_fold(lines(run.stdout@))->Ok_0;
                    let u = choose|u: Seq<PackageRow>|
                        rows@ == sorted_by_name(u) && u.len() == entries.len() && forall|i: int|
                            0 <= i < u.len() ==> uv_python_row(#[trigger] u[i], entries[i]);
                    assert forall|i: int| 0 <= i < u.len() implies #[trigger] uv_row_parsed(u[i]) by {
                        assert(uv_python_row(u[i], entries[i]));
                    }
                    crate::scan_support::lemma_sorted_all(u, |row: PackageRow| uv_row_parsed(row));
                    assert(sorted_by_name(u) == rows@);
                    pythons_v = rows@;
                    assert(uv_pythons_listed(*runner, pythons_v));
                }
                let mut rows = rows;
                let ghost p0 = snapshot.packages@;
                snapshot.packages.append(&mut rows);
                assert(snapshot.packages@ =~= tools_v + pythons_v);
                assert forall|k: int| 0 <= k < snapshot.packages@.len() implies #[trigger] uv_row_parsed(snapshot.packages@[k]) by {
                    if k >= p0.len() {
                        assert(snapshot.packages@[k] == snapshot.packages@.subrange(p0.len() as int, snapshot.packages@.len() as int)[k - p0.len()]);
                    }
                }
            },
            Err(message) => {
                snapshot.failures.push(parse_failure(message, run));
                proof {
                    assert(f_py == f_tools);
                    assert(crate::command::added_since(f_tools, snapshot.failures@) =~= seq![snapshot.failures@.last()]);
                    assert(snapshot.failures@.subrange(0, f_tools.len() as int) =~= f_tools);
                    assert(uv_pythons_grew(*runner, f_tools, snapshot.failures@));
                }
                assert(uv_pythons_listed(*runner, pythons_v));
                assert(snapshot.packages@ =~= tools_v + pythons_v);
            },
        }
    } else {
        proof {
            let out = choose|out: Result<CommandRun, CommandFailure>|
                #[trigger] crate::command::answered_run(*runner, "uv"@, py_av, 15, out)
                    && crate::command::recorded_failure(f_py.last(), out, "uv Python list failed"@);
            assert(crate::command::answered_run(*runner, "uv"@, uv_python_list_args(), 15, out));
            assert(uv_pythons_listed(*runner, pythons_v));
            assert(snapshot.packages@ =~= tools_v + pythons_v);
        }
    }
    proof { crate::command::lemma_log_extends(c5, snapshot.commands@); }
    assert(uv_pythons_grew(*runner, f_tools, snapshot.failures@));
    assert(p3 == snapshot.paths@);
    let ghost before_actions = snapshot.packages@;
    assert(before_actions == tools_v + pythons_v);
    attach_uv_actions(&mut snapshot.packages);
    assert forall|k: int| 0 <= k < snapshot.packages@.len() implies uv_row_reported(#[trigger] snapshot.packages@[k]) by {
        assert(uv_row_parsed(before_actions[k]));
        assert(uv_actions_appended(before_actions[k], snapshot.packages@[k]));
    }
    assert forall|k: int| 0 <= k < snapshot.packages@.len() implies uv_actions_appended(
        (tools_v + pythons_v)[k],
        #[trigger] snapshot.packages@[k],
    ) by {
        assert(uv_actions_appended(before_actions[k], snapshot.packages@[k]));
    }
    assert(uv_packages_listed(*runner, snapshot.packages@));
    let ghost c6 = snapshot.commands@;
    snapshot.commands.push(envelope("uv", &["cache", "prune"], 0));
    proof {
        assert(snapshot.commands@.drop_last() =~= c6);
        crate::command::lemma_log_extends(c6, snapshot.commands@);
    }
    let ghost c7 = snapshot.commands@;
    snapshot.commands.push(envelope("uv", &["cache", "clean"], 0));
    proof {
        assert(snapshot.commands@.drop_last() =~= c7);
        crate::command::lemma_log_extends(c7, snapshot.commands@);
    }
    assert(str_views(["cache", "prune"]@) == seq!["cache"@, "prune"@]);
    assert(str_views(["cache", "clean"]@) == seq!["cache"@, "clean"@]);
    finish(snapshot)
}

} // verus!
