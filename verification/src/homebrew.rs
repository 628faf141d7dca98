//! Homebrew: formulae and casks with their versions, paths and signals
//! (outdated, leaf), the actions it offers, its directories, and the
//! `brew cleanup --dry-run` preview. The scan runs read-only brew commands
//! only.
use crate::command::{
    answered_run, args2, args3, command_failure, envelope, envelope_is, envelope_owned,
    failures_grew, lemma_log_extends, parse_failure, recorded_failure, run_recorded_command, run_recorded_stdout,
    str_views, same_envelope,
};
use crate::disk_usage::path_info;
use crate::json::{
    as_array_spec, as_str_spec, get_spec, json_document, json_get, json_string, parse_json,
    JsonValue, JsonView,
};
use crate::path::{join, join_path};
use crate::scan_support::{
    contains_text, dedup_texts, empty_snapshot, finish, finished_status, has_signal, insert_text,
    lemma_sorted_all, package_row, push_signal, sort_rows_by_name, sort_texts, sorted_by_name,
    sorted_texts, unknown, unknown_text, with_signal,
};
use crate::text::{
    first_line, joined, lines, lines_of, owned, strip_prefix, strip_prefix_str, trim, trim_string,
    views, words, words_of,
};
use crate::types::{
    AsyncStatus, CommandEnvelope, CommandFailure, CommandRun, FailureKind, HomebrewCleanupPreview,
    HomebrewMaintenance, ManagerId, ManagerSnapshot, ManagerStatus, PackageKind, PackageRow,
    PackageSignal, PathKind,
};
use vstd::prelude::*;

verus! {

/// The version `brew --version` reports: the first line without its
/// `Homebrew ` prefix.
pub open spec fn homebrew_version_spec(stdout: Seq<char>) -> Seq<char> {
    let line = trim(first_line(stdout));
    match strip_prefix(line, "Homebrew "@) {
        Some(v) => v,
        None => line,
    }
}

/// The version reported by `brew --version`.
pub fn parse_homebrew_version(stdout: &str) -> (r: String)
    ensures
        r@ == homebrew_version_spec(stdout@),
{
    let first = crate::uv::first_line_of(stdout);
    let line = trim_string(first.as_str());
    match strip_prefix_str(line.as_str(), "Homebrew ") {
        Some(v) => v,
        None => line,
    }
}

/// A line of `brew list --versions`: the name, then its versions joined by
/// single spaces (`unknown` when none is listed).
pub open spec fn homebrew_line_spec(line: Seq<char>) -> Option<(Seq<char>, Seq<char>)> {
    let t = trim(line);
    if t.len() == 0 {
        None
    } else {
        let ws = words(t);
        let v = joined(ws.drop_first(), seq![' ']);
        Some((ws[0], if v.len() == 0 { unknown_text() } else { v }))
    }
}

/// A `brew list --versions` line that holds a name and then a version
/// (two words, with any whitespace around and between them) gives that name
/// and that version; the version never repeats the name.
pub proof fn law_brew_line_splits_name_and_version(
    lead: Seq<char>,
    name: Seq<char>,
    gap: Seq<char>,
    version: Seq<char>,
    trail: Seq<char>,
)
    requires
        crate::text::all_ws(lead) && crate::text::all_ws(gap) && crate::text::all_ws(trail),
        gap.len() > 0,
        crate::text::is_word(name),
        crate::text::is_word(version),
    ensures
        homebrew_line_spec(lead + name + gap + version + trail) == Some((name, version)),
{
    let core = name + gap + version;
    assert(lead + name + gap + version + trail =~= lead + (core + trail));
    assert(core[0] == name[0]);
    assert(core.last() == version.last());
    crate::text::lemma_trim_start_skips(lead, core + trail);
    crate::text::lemma_trim_end_skips(core, trail);
    crate::text::lemma_words_of_two(name, gap, version);
    let ws = seq![name, version];
    assert(ws.drop_first() =~= seq![version]);
}

/// A line of a name and two versions (a cask with two installed versions)
/// gives that name and both versions joined by one space, in their order.
pub proof fn law_brew_line_keeps_every_version(
    name: Seq<char>,
    gap: Seq<char>,
    first: Seq<char>,
    gap2: Seq<char>,
    second: Seq<char>,
)
    requires
        crate::text::all_ws(gap) && crate::text::all_ws(gap2),
        gap.len() > 0 && gap2.len() > 0,
        crate::text::is_word(name) && crate::text::is_word(first) && crate::text::is_word(second),
    ensures
        homebrew_line_spec(name + gap + first + gap2 + second) == Some((name, first + seq![' '] + second)),
{
    let rest = first + gap2 + second;
    let line = name + gap + first + gap2 + second;
    assert(line =~= name + gap + rest);
    assert(line[0] == name[0]);
    assert(line.last() == second.last());
    crate::text::lemma_trim_start_fixed(line);
    crate::text::lemma_trim_end_fixed(line);
    assert(rest[0] == first[0]);
    crate::text::lemma_words_of_first(name, gap, rest);
    crate::text::lemma_words_of_two(first, gap2, second);
    let ws = seq![name] + seq![first, second];
    assert(crate::text::trim(line) == line);
    assert(crate::text::words(line) == ws);
    assert(ws.drop_first() =~= seq![first, second]);
    assert(seq![first, second].drop_last() =~= seq![first]);
    assert(joined(seq![first], seq![' ']) == first);
    assert(joined(seq![first, second], seq![' ']) == first + seq![' '] + second);
    assert(ws[0] == name);
}

/// A line that holds a name alone gives that name and version `unknown`.
pub proof fn law_brew_line_lone_name(lead: Seq<char>, name: Seq<char>, trail: Seq<char>)
    requires
        crate::text::all_ws(lead) && crate::text::all_ws(trail),
        crate::text::is_word(name),
    ensures
        homebrew_line_spec(lead + name + trail) == Some((name, unknown_text())),
{
    assert(lead + name + trail =~= lead + (name + trail));
    crate::text::lemma_trim_start_skips(lead, name + trail);
    crate::text::lemma_trim_end_skips(name, trail);
    crate::text::lemma_words_of_word(Seq::<char>::empty(), name);
    assert(Seq::<char>::empty() + name =~= name);
    assert(seq![name].drop_first() =~= Seq::<Seq<char>>::empty());
}

/// A row of `brew list --versions` of `kind`, read from a listing `source`.
pub open spec fn homebrew_row(
    row: PackageRow,
    e: (Seq<char>, Seq<char>),
    kind: PackageKind,
    source: Seq<char>,
) -> bool {
    &&& row.name@ == e.0
    &&& row.version@ == e.1
    &&& row.path is None
    &&& row.source@ == source
    &&& row.kind == kind
    &&& row.signals@.len() == 0
    &&& row.actions@.len() == 0
}

/// Parses a line of `brew list --versions`.
pub fn parse_homebrew_list_versions_line(line: &str, kind: PackageKind, source: &str) -> (r: Option<
    PackageRow,
>)
    ensures
        match (r, homebrew_line_spec(line@)) {
            (Some(row), Some(e)) => homebrew_row(row, e, kind, source@),
            (None, None) => true,
            _ => false,
        },
{
    let t = trim_string(line);
    if t.as_str().is_empty() {
        return None;
    }
    let ws = words_of(t.as_str());
    proof {
        crate::text::lemma_trim_idempotent(line@);
        crate::text::lemma_words_nonempty(t@);
    }
    let name = ws[0].clone();
    let mut rest: Vec<String> = Vec::new();
    let mut i: usize = 1;
    while i < ws.len()
        invariant
            1 <= i <= ws@.len(),
            views(rest@) == views(ws@).subrange(1, i as int),
        decreases ws@.len() - i,
    {
        let ghost before = views(rest@);
        rest.push(ws[i].clone());
        assert(views(rest@) =~= before.push(ws@[i as int]@));
        assert(views(ws@).subrange(1, i + 1) =~= views(ws@).subrange(1, i as int).push(
            ws@[i as int]@,
        ));
        i = i + 1;
    }
    assert(views(ws@).subrange(1, ws@.len() as int) =~= views(ws@).drop_first());
    let joined_versions = crate::text::join_spaced(rest.as_slice());
    let version = if joined_versions.as_str().is_empty() {
        unknown()
    } else {
        joined_versions
    };
    Some(package_row(name, version, None, source, kind))
}

pub open spec fn homebrew_entries(ls: Seq<Seq<char>>) -> Seq<(Seq<char>, Seq<char>)>
    decreases ls.len(),
{
    if ls.len() == 0 {
        seq![]
    } else {
        let prior = homebrew_entries(ls.drop_last());
        match homebrew_line_spec(ls.last()) {
            Some(e) => prior.push(e),
            None => prior,
        }
    }
}

/// The rows of `brew list --versions`, in the order of their lines.
pub fn parse_homebrew_list_versions(stdout: &str, kind: PackageKind, source: &str) -> (r: Vec<
    PackageRow,
>)
    ensures
        r@.len() == homebrew_entries(lines(stdout@)).len(),
        forall|i: int|
            0 <= i < r@.len() ==> homebrew_row(
                #[trigger] r@[i],
                homebrew_entries(lines(stdout@))[i],
                kind,
                source@,
            ),
{
    let ls = lines_of(stdout);
    let ghost lv = lines(stdout@);
    let mut rows: Vec<PackageRow> = Vec::new();
    let mut i: usize = 0;
    assert(lv.subrange(0, 0) =~= Seq::<Seq<char>>::empty());
    while i < ls.len()
        invariant
            i <= ls@.len(),
            views(ls@) == lv,
            lv == lines(stdout@),
            rows@.len() == homebrew_entries(lv.subrange(0, i as int)).len(),
            forall|k: int|
                0 <= k < rows@.len() ==> homebrew_row(
                    #[trigger] rows@[k],
                    homebrew_entries(lv.subrange(0, i as int))[k],
                    kind,
                    source@,
                ),
        decreases ls@.len() - i,
    {
        assert(lv.subrange(0, i + 1).drop_last() == lv.subrange(0, i as int));
        assert(lv.subrange(0, i + 1).last() == lv[i as int]);
        assert(ls@[i as int]@ == lv[i as int]);
        match parse_homebrew_list_versions_line(ls[i].as_str(), kind, source) {
            Some(row) => rows.push(row),
            None => {},
        }
        i = i + 1;
    }
    assert(lv.subrange(0, lv.len() as int) == lv);
    rows
}

/// The name of an outdated formula: its `full_name`, else its `name`, when
/// not empty.
pub open spec fn formula_name_spec(v: JsonView) -> Option<Seq<char>> {
    let n = match as_str_spec(get_spec(v, "full_name"@)) {
        Some(s) => Some(s),
        None => as_str_spec(get_spec(v, "name"@)),
    };
    match n {
        Some(s) => if s.len() > 0 {
            Some(s)
        } else {
            None
        },
        None => None,
    }
}

/// The name of an outdated cask: its `token`, else its `name`, when not
/// empty.
pub open spec fn cask_name_spec(v: JsonView) -> Option<Seq<char>> {
    let n = match as_str_spec(get_spec(v, "token"@)) {
        Some(s) => Some(s),
        None => as_str_spec(get_spec(v, "name"@)),
    };
    match n {
        Some(s) => if s.len() > 0 {
            Some(s)
        } else {
            None
        },
        None => None,
    }
}

fn first_named(value: &JsonValue, first: &str, second: &str) -> (r: Option<String>)
    ensures
        crate::text::opt_view(r) == match (match as_str_spec(get_spec(value.view(), first@)) {
            Some(s) => Some(s),
            None => as_str_spec(get_spec(value.view(), second@)),
        }) {
            Some(s) => if s.len() > 0 {
                Some(s)
            } else {
                None
            },
            None => None,
        },
{
    let n = match json_string(json_get(value, first)) {
        Some(s) => Some(s),
        None => json_string(json_get(value, second)),
    };
    match n {
        Some(s) => if s.as_str().is_empty() {
            None
        } else {
            Some(s)
        },
        None => None,
    }
}

/// The name of an outdated formula.
pub fn homebrew_formula_name(value: &JsonValue) -> (r: Option<String>)
    ensures
        crate::text::opt_view(r) == formula_name_spec(value.view()),
{
    first_named(value, "full_name", "name")
}

/// The name of an outdated cask.
pub fn homebrew_cask_name(value: &JsonValue) -> (r: Option<String>)
    ensures
        crate::text::opt_view(r) == cask_name_spec(value.view()),
{
    first_named(value, "token", "name")
}

pub open spec fn named_items(items: Seq<JsonView>, cask: bool) -> Seq<Seq<char>>
    decreases items.len(),
{
    if items.len() == 0 {
        seq![]
    } else {
        let prior = named_items(items.drop_last(), cask);
        match if cask {
            cask_name_spec(items.last())
        } else {
            formula_name_spec(items.last())
        } {
            Some(n) => prior.push(n),
            None => prior,
        }
    }
}

/// The names `brew outdated --json=v2` lists: those of its formulae, then
/// those of its casks.
pub open spec fn outdated_names(doc: JsonView) -> Seq<Seq<char>> {
    let f = match as_array_spec(get_spec(doc, "formulae"@)) {
        Some(items) => named_items(items, false),
        None => seq![],
    };
    let c = match as_array_spec(get_spec(doc, "casks"@)) {
        Some(items) => named_items(items, true),
        None => seq![],
    };
    f + c
}

/// Adds the names of `items` to `names`, once each.
fn collect_names(names: &mut Vec<String>, items: &Vec<JsonValue>, cask: bool, Ghost(prefix): Ghost<Seq<Seq<char>>>)
    requires
        views(old(names)@) == dedup_texts(prefix),
    ensures
        views(final(names)@) == dedup_texts(prefix + named_items(crate::json::items_view(items@), cask)),
{
    let ghost iv = crate::json::items_view(items@);
    proof {
        crate::json::lemma_items_view(items@);
    }
    let mut i: usize = 0;
    assert(prefix + named_items(iv.subrange(0, 0), cask) =~= prefix);
    while i < items.len()
        invariant
            i <= items@.len(),
            iv == crate::json::items_view(items@),
            iv.len() == items@.len(),
            forall|j: int| 0 <= j < items@.len() ==> #[trigger] iv[j] == items@[j].view(),
            views(names@) == dedup_texts(prefix + named_items(iv.subrange(0, i as int), cask)),
        decreases items@.len() - i,
    {
        let ghost before = prefix + named_items(iv.subrange(0, i as int), cask);
        assert(iv.subrange(0, i + 1).drop_last() == iv.subrange(0, i as int));
        assert(iv.subrange(0, i + 1).last() == items@[i as int].view());
        let name = if cask {
            homebrew_cask_name(&items[i])
        } else {
            homebrew_formula_name(&items[i])
        };
        match name {
            Some(n) => {
                assert(prefix + named_items(iv.subrange(0, i + 1), cask) =~= before.push(n@));
                assert(before.push(n@).drop_last() =~= before);
                insert_text(names, n);
            },
            None => {
                assert(prefix + named_items(iv.subrange(0, i + 1), cask) =~= before);
            },
        }
        i = i + 1;
    }
    assert(iv.subrange(0, iv.len() as int) == iv);
}

/// The names that a parsed `brew outdated --json=v2` document lists under
/// `formulae` and then `casks`, once each.
pub fn homebrew_outdated_from_json(value: &JsonValue) -> (r: Vec<String>)
    ensures
        views(r@) == dedup_texts(outdated_names(value.view())),
{
    let mut names: Vec<String> = Vec::new();
    assert(views(names@) =~= dedup_texts(Seq::<Seq<char>>::empty()));
    let ghost f = match as_array_spec(get_spec(value.view(), "formulae"@)) {
        Some(items) => named_items(items, false),
        None => seq![],
    };
    match json_get(value, "formulae") {
        Some(JsonValue::Array(items, _)) => {
            collect_names(&mut names, items, false, Ghost(Seq::<Seq<char>>::empty()));
            assert(Seq::<Seq<char>>::empty() + f =~= f);
        },
        _ => {
            assert(f =~= Seq::<Seq<char>>::empty());
        },
    }
    let ghost c = match as_array_spec(get_spec(value.view(), "casks"@)) {
        Some(items) => named_items(items, true),
        None => seq![],
    };
    match json_get(value, "casks") {
        Some(JsonValue::Array(items, _)) => {
            collect_names(&mut names, items, true, Ghost(f));
        },
        _ => {
            assert(c =~= Seq::<Seq<char>>::empty());
            assert(f + c =~= f);
        },
    }
    names
}

/// The names `brew outdated --json=v2` lists, once each, or serde_json's
/// message when the output is not JSON.
pub fn parse_homebrew_outdated(stdout: &str) -> (r: Result<Vec<String>, String>)
    ensures
        r is Ok <==> json_document(stdout@) is Some,
        r matches Ok(names) ==> views(names@) == dedup_texts(outdated_names(json_document(stdout@)->0)),
{
    let value = parse_json(stdout)?;
    Ok(homebrew_outdated_from_json(&value))
}

pub open spec fn leaf_lines(ls: Seq<Seq<char>>) -> Seq<Seq<char>>
    decreases ls.len(),
{
    if ls.len() == 0 {
        seq![]
    } else {
        let prior = leaf_lines(ls.drop_last());
        if trim(ls.last()).len() == 0 {
            prior
        } else {
            prior.push(trim(ls.last()))
        }
    }
}

/// The names `brew leaves` lists (its non-blank lines, trimmed), once each.
pub fn parse_homebrew_leaves(stdout: &str) -> (r: Vec<String>)
    ensures
        views(r@) == dedup_texts(leaf_lines(lines(stdout@))),
{
    let ls = lines_of(stdout);
    let ghost lv = lines(stdout@);
    let mut names: Vec<String> = Vec::new();
    let mut i: usize = 0;
    assert(lv.subrange(0, 0) =~= Seq::<Seq<char>>::empty());
    assert(views(names@) =~= dedup_texts(Seq::<Seq<char>>::empty()));
    while i < ls.len()
        invariant
            i <= ls@.len(),
            views(ls@) == lv,
            lv == lines(stdout@),
            views(names@) == dedup_texts(leaf_lines(lv.subrange(0, i as int))),
        decreases ls@.len() - i,
    {
        assert(lv.subrange(0, i + 1).drop_last() == lv.subrange(0, i as int));
        assert(lv.subrange(0, i + 1).last() == lv[i as int]);
        assert(ls@[i as int]@ == lv[i as int]);
        let t = trim_string(ls[i].as_str());
        let ghost prior = leaf_lines(lv.subrange(0, i as int));
        if !t.as_str().is_empty() {
            assert(leaf_lines(lv.subrange(0, i + 1)) == prior.push(t@));
            assert(prior.push(t@).drop_last() =~= prior);
            insert_text(&mut names, t);
        } else {
            assert(leaf_lines(lv.subrange(0, i + 1)) == prior);
        }
        i = i + 1;
    }
    assert(lv.subrange(0, lv.len() as int) == lv);
    names
}

pub open spec fn same_but_path(a: PackageRow, b: PackageRow) -> bool {
    &&& a.name == b.name
    &&& a.version == b.version
    &&& a.source == b.source
    &&& a.kind == b.kind
    &&& a.signals == b.signals
    &&& a.actions == b.actions
}

/// Where an installed package lies: a formula under the Cellar by name and
/// version, a cask under the Caskroom by name; a row that already has a path
/// keeps it.
pub open spec fn homebrew_path_after(
    old: PackageRow,
    new: PackageRow,
    cellar: Option<Seq<char>>,
    caskroom: Option<Seq<char>>,
) -> bool {
    &&& same_but_path(old, new)
    &&& crate::text::opt_view(new.path) == if old.path is Some {
        crate::text::opt_view(old.path)
    } else if old.kind == PackageKind::Formula && cellar is Some {
        Some(join_path(join_path(cellar->0, old.name@), old.version@))
    } else if old.kind == PackageKind::Cask && caskroom is Some {
        Some(join_path(caskroom->0, old.name@))
    } else {
        None
    }
}

/// Gives formulae and casks without a path their place under the Cellar or
/// the Caskroom.
pub fn attach_homebrew_paths(rows: &mut Vec<PackageRow>, cellar: Option<&str>, caskroom: Option<&str>)
    ensures
        final(rows)@.len() == old(rows)@.len(),
        forall|i: int|
            0 <= i < old(rows)@.len() ==> homebrew_path_after(
                #[trigger] old(rows)@[i],
                final(rows)@[i],
                crate::cargo::opt_str_view(cellar),
                crate::cargo::opt_str_view(caskroom),
            ),
{
    let ghost before = rows@;
    let mut i: usize = 0;
    while i < rows.len()
        invariant
            i <= rows@.len(),
            rows@.len() == before.len(),
            forall|k: int| 0 <= k < i ==> homebrew_path_after(#[trigger] before[k], rows@[k], crate::cargo::opt_str_view(cellar), crate::cargo::opt_str_view(caskroom)),
            forall|k: int| i <= k < rows@.len() ==> #[trigger] rows@[k] == before[k],
        decreases rows@.len() - i,
    {
        let mut row = rows.remove(i);
        if row.path.is_none() {
            if row.kind == PackageKind::Formula {
                if let Some(c) = cellar {
                    let base = join(c, row.name.as_str());
                    row.path = Some(join(base.as_str(), row.version.as_str()));
                }
            } else if row.kind == PackageKind::Cask {
                if let Some(k) = caskroom {
                    row.path = Some(join(k, row.name.as_str()));
                }
            }
        }
        rows.insert(i, row);
        i = i + 1;
    }
}

pub open spec fn same_but_signals(a: PackageRow, b: PackageRow) -> bool {
    &&& a.name == b.name
    &&& a.version == b.version
    &&& a.path == b.path
    &&& a.source == b.source
    &&& a.kind == b.kind
    &&& a.actions == b.actions
}

/// Marks the rows whose name `brew outdated` lists as outdated.
pub fn merge_homebrew_outdated(rows: &mut Vec<PackageRow>, outdated: &Vec<String>)
    ensures
        final(rows)@.len() == old(rows)@.len(),
        forall|i: int|
            0 <= i < old(rows)@.len() ==> same_but_signals(#[trigger] old(rows)@[i], final(rows)@[i])
                && final(rows)@[i].signals@ == if views(outdated@).contains(old(rows)@[i].name@) {
                with_signal(old(rows)@[i].signals@, PackageSignal::Outdated)
            } else {
                old(rows)@[i].signals@
            },
{
    let ghost before = rows@;
    let mut i: usize = 0;
    while i < rows.len()
        invariant
            i <= rows@.len(),
            rows@.len() == before.len(),
            forall|k: int| 0 <= k < i ==> same_but_signals(#[trigger] before[k], rows@[k])
                && rows@[k].signals@ == if views(outdated@).contains(before[k].name@) {
                with_signal(before[k].signals@, PackageSignal::Outdated)
            } else {
                before[k].signals@
            },
            forall|k: int| i <= k < rows@.len() ==> #[trigger] rows@[k] == before[k],
        decreases rows@.len() - i,
    {
        let mut row = rows.remove(i);
        if contains_text(outdated, row.name.as_str()) {
            push_signal(&mut row, PackageSignal::Outdated);
        }
        rows.insert(i, row);
        i = i + 1;
    }
}

/// Marks the formulae that `brew leaves` lists as leaves.
pub fn merge_homebrew_leaves(rows: &mut Vec<PackageRow>, leaves: &Vec<String>)
    ensures
        final(rows)@.len() == old(rows)@.len(),
        forall|i: int|
            0 <= i < old(rows)@.len() ==> same_but_signals(#[trigger] old(rows)@[i], final(rows)@[i])
                && final(rows)@[i].signals@ == if old(rows)@[i].kind == PackageKind::Formula
                && views(leaves@).contains(old(rows)@[i].name@) {
                with_signal(old(rows)@[i].signals@, PackageSignal::Leaf)
            } else {
                old(rows)@[i].signals@
            },
{
    let ghost before = rows@;
    let mut i: usize = 0;
    while i < rows.len()
        invariant
            i <= rows@.len(),
            rows@.len() == before.len(),
            forall|k: int| 0 <= k < i ==> same_but_signals(#[trigger] before[k], rows@[k])
                && rows@[k].signals@ == if before[k].kind == PackageKind::Formula && views(
                leaves@,
            ).contains(before[k].name@) {
                with_signal(before[k].signals@, PackageSignal::Leaf)
            } else {
                before[k].signals@
            },
            forall|k: int| i <= k < rows@.len() ==> #[trigger] rows@[k] == before[k],
        decreases rows@.len() - i,
    {
        let mut row = rows.remove(i);
        if row.kind == PackageKind::Formula && contains_text(leaves, row.name.as_str()) {
            push_signal(&mut row, PackageSignal::Leaf);
        }
        rows.insert(i, row);
        i = i + 1;
    }
}

/// The actions Homebrew offers for a row, from position `n` on: for a
/// formula `brew info`, then `brew upgrade` when outdated and
/// `brew uses --installed` when a leaf; for a cask `brew info --cask`, then
/// `brew upgrade --cask` when outdated; none for anything else.
pub open spec fn homebrew_actions_from(row: PackageRow, n: int) -> bool {
    let a = row.actions@;
    let outdated = row.signals@.contains(PackageSignal::Outdated);
    let leaf = row.signals@.contains(PackageSignal::Leaf);
    match row.kind {
        PackageKind::Formula => {
            let m = n + 1 + (if outdated { 1int } else { 0int });
            &&& a.len() == m + (if leaf { 1int } else { 0int })
            &&& envelope_is(a[n], "brew"@, seq!["info"@, row.name@], 0)
            &&& outdated ==> envelope_is(a[n + 1], "brew"@, seq!["upgrade"@, row.name@], 0)
            &&& leaf ==> envelope_is(a[m], "brew"@, seq!["uses"@, "--installed"@, row.name@], 0)
        },
        PackageKind::Cask => {
            &&& a.len() == n + 1 + (if outdated { 1int } else { 0int })
            &&& envelope_is(a[n], "brew"@, seq!["info"@, "--cask"@, row.name@], 0)
            &&& outdated ==> envelope_is(a[n + 1], "brew"@, seq!["upgrade"@, "--cask"@, row.name@], 0)
        },
        _ => a.len() == n,
    }
}

pub open spec fn homebrew_actions_appended(old: PackageRow, new: PackageRow) -> bool {
    let n = old.actions@.len();
    &&& new.name == old.name
    &&& new.version == old.version
    &&& new.path == old.path
    &&& new.source == old.source
    &&& new.kind == old.kind
    &&& new.signals == old.signals
    &&& new.actions@.subrange(0, n as int) == old.actions@
    &&& homebrew_actions_from(new, n as int)
}

fn attach_homebrew_row_actions(row: &mut PackageRow)
    ensures
        homebrew_actions_appended(*old(row), *final(row)),
{
    let ghost before = row.actions@;
    let outdated = has_signal(&row.signals, PackageSignal::Outdated);
    let leaf = has_signal(&row.signals, PackageSignal::Leaf);
    if row.kind == PackageKind::Formula {
        row.actions.push(envelope_owned("brew", args2("info", row.name.as_str()), 0));
        if outdated {
            row.actions.push(envelope_owned("brew", args2("upgrade", row.name.as_str()), 0));
        }
        if leaf {
            row.actions.push(envelope_owned("brew", args3("uses", "--installed", row.name.as_str()), 0));
        }
    } else if row.kind == PackageKind::Cask {
        row.actions.push(envelope_owned("brew", args3("info", "--cask", row.name.as_str()), 0));
        if outdated {
            row.actions.push(envelope_owned("brew", args3("upgrade", "--cask", row.name.as_str()), 0));
        }
    }
    assert(row.actions@.subrange(0, before.len() as int) =~= before);
}

/// Adds Homebrew's actions to every row.
pub fn attach_homebrew_actions(rows: &mut Vec<PackageRow>)
    ensures
        final(rows)@.len() == old(rows)@.len(),
        forall|i: int|
            0 <= i < old(rows)@.len() ==> homebrew_actions_appended(
                #[trigger] old(rows)@[i],
                final(rows)@[i],
            ),
{
    let ghost before = rows@;
    let mut i: usize = 0;
    while i < rows.len()
        invariant
            i <= rows@.len(),
            rows@.len() == before.len(),
            forall|k: int| 0 <= k < i ==> homebrew_actions_appended(#[trigger] before[k], rows@[k]),
            forall|k: int| i <= k < rows@.len() ==> #[trigger] rows@[k] == before[k],
        decreases rows@.len() - i,
    {
        let mut row = rows.remove(i);
        attach_homebrew_row_actions(&mut row);
        rows.insert(i, row);
        i = i + 1;
    }
}

/// The command of the cleanup preview: `brew cleanup --dry-run`, which only
/// reports what it would remove.
pub fn homebrew_cleanup_command() -> (r: CommandEnvelope)
    ensures
        envelope_is(r, "brew"@, seq!["cleanup"@, "--dry-run"@], 30000),
{
    let r = envelope("brew", &["cleanup", "--dry-run"], 30_000);
    assert(str_views(["cleanup", "--dry-run"]@) == seq!["cleanup"@, "--dry-run"@]);
    r
}

/// The cleanup preview before the dry run has answered.
pub fn pending_homebrew_cleanup_preview() -> (r: HomebrewCleanupPreview)
    ensures
        r.status == AsyncStatus::Pending,
        envelope_is(r.command, "brew"@, seq!["cleanup"@, "--dry-run"@], 30000),
        r.raw_output@.len() == 0,
        r.reclaimed_bytes is None,
        r.reclaimed_human is None,
        r.message matches Some(m) && m@ == "Cleanup dry-run pending"@,
        r.failure is None,
{
    HomebrewCleanupPreview {
        status: AsyncStatus::Pending,
        command: homebrew_cleanup_command(),
        raw_output: String::new(),
        reclaimed_bytes: None,
        reclaimed_human: None,
        message: Some(owned("Cleanup dry-run pending")),
        failure: None,
    }
}

/// The preview of a dry run that answered with `raw_output`, from which
/// `reclaimed_bytes` (and its human form) were read.
pub fn ready_homebrew_cleanup_preview(
    raw_output: String,
    reclaimed_bytes: Option<u64>,
    reclaimed_human: Option<String>,
) -> (r: HomebrewCleanupPreview)
    ensures
        r.status == AsyncStatus::Ready,
        envelope_is(r.command, "brew"@, seq!["cleanup"@, "--dry-run"@], 30000),
        r.raw_output == raw_output,
        r.reclaimed_bytes == reclaimed_bytes,
        r.reclaimed_human == reclaimed_human,
        r.message is None,
        r.failure is None,
{
    HomebrewCleanupPreview {
        status: AsyncStatus::Ready,
        command: homebrew_cleanup_command(),
        raw_output,
        reclaimed_bytes,
        reclaimed_human,
        message: None,
        failure: None,
    }
}

/// The preview of a dry run that failed.
pub fn failed_homebrew_cleanup_preview(failure: CommandFailure) -> (r: HomebrewCleanupPreview)
    ensures
        r.status == AsyncStatus::Failed,
        envelope_is(r.command, "brew"@, seq!["cleanup"@, "--dry-run"@], 30000),
        r.raw_output == failure.stdout,
        r.reclaimed_bytes is None,
        r.reclaimed_human is None,
        r.message == Some(failure.message),
        r.failure == Some(failure),
{
    HomebrewCleanupPreview {
        status: AsyncStatus::Failed,
        command: homebrew_cleanup_command(),
        raw_output: failure.stdout.clone(),
        reclaimed_bytes: None,
        reclaimed_human: None,
        message: Some(failure.message.clone()),
        failure: Some(failure),
    }
}

pub open spec fn dry_run_args() -> Seq<Seq<char>> {
    seq!["cleanup"@, "--dry-run"@]
}

/// The end of the number that continues at `i`: digits and dots.
pub open spec fn number_end(s: Seq<char>, i: int) -> int
    decreases s.len() - i,
{
    if 0 <= i < s.len() && (crate::text::is_ascii_digit(s[i]) || s[i] == '.') {
        number_end(s, i + 1)
    } else {
        i
    }
}

/// The end of the whitespace that starts at `i`.
pub open spec fn space_end(s: Seq<char>, i: int) -> int
    decreases s.len() - i,
{
    if 0 <= i < s.len() && crate::text::is_ws(s[i]) {
        space_end(s, i + 1)
    } else {
        i
    }
}

/// The end of the ASCII letters that start at `i`.
pub open spec fn letters_end(s: Seq<char>, i: int) -> int
    decreases s.len() - i,
{
    if 0 <= i < s.len() && crate::text::is_ascii_alpha(s[i]) {
        letters_end(s, i + 1)
    } else {
        i
    }
}

/// `parse_size` answered `a` for the number text `number` and the unit text
/// `unit`.
pub open spec fn size_answered<P: Fn(&str, &str) -> Option<u64>>(
    parse_size: P,
    number: Seq<char>,
    unit: Seq<char>,
    a: Option<u64>,
) -> bool {
    exists|n: &str, u: &str| n@ == number && u@ == unit && #[trigger] parse_size.ensures((n, u), a)
}

/// `r` is the first size written in `s` from `i` on: at each digit that
/// starts a number (digits and dots), the number and the letters after it
/// (past any whitespace) go to `parse_size`; its first `Some` is the size,
/// and after a `None` the search goes on behind the letters.
pub open spec fn first_size_from<P: Fn(&str, &str) -> Option<u64>>(
    parse_size: P,
    s: Seq<char>,
    i: int,
    r: Option<u64>,
) -> bool
    decreases s.len() - i,
{
    if i < 0 || i >= s.len() {
        r is None
    } else if !crate::text::is_ascii_digit(s[i]) {
        first_size_from(parse_size, s, i + 1, r)
    } else {
        let j = number_end(s, i + 1);
        let k = space_end(s, j);
        let m = letters_end(s, k);
        exists|a: Option<u64>|
            #[trigger] size_answered(parse_size, s.subrange(i, j), s.subrange(k, m), a) && match a {
                Some(b) => r == Some(b),
                None => if i < m <= s.len() { first_size_from(parse_size, s, m, r) } else { r is None },
            }
    }
}

/// Case-insensitive: `line` holds `word` (an ASCII word in lower case).
pub open spec fn mentions(line: Seq<char>, word: Seq<char>) -> bool {
    crate::text::contains_seq(crate::text::ascii_lower(line), word)
}

pub open spec fn saturating_total(total: u64, a: Option<u64>) -> u64 {
    match a {
        Some(b) => if total + b > u64::MAX { u64::MAX } else { (total + b) as u64 },
        None => total,
    }
}

/// The sum, saturating, of the first sizes of the lines from `i` on that
/// mention "would remove", added to `total`; `None` where it is 0.
pub open spec fn removed_total<P: Fn(&str, &str) -> Option<u64>>(
    parse_size: P,
    ls: Seq<Seq<char>>,
    i: int,
    total: u64,
    r: Option<u64>,
) -> bool
    decreases ls.len() - i,
{
    if i < 0 || i >= ls.len() {
        r == if total > 0 { Some(total) } else { None::<u64> }
    } else if mentions(ls[i], "would remove"@) {
        exists|a: Option<u64>|
            #[trigger] first_size_from(parse_size, ls[i], 0, a) && removed_total(
                parse_size,
                ls,
                i + 1,
                saturating_total(total, a),
                r,
            )
    } else {
        removed_total(parse_size, ls, i + 1, total, r)
    }
}

/// Looking at the lines before `i` from the last one back, the first size on
/// a line that mentions "free"; failing that, the "would remove" total.
pub open spec fn freed_before<P: Fn(&str, &str) -> Option<u64>>(
    parse_size: P,
    ls: Seq<Seq<char>>,
    i: int,
    r: Option<u64>,
) -> bool
    decreases i,
{
    if i <= 0 || i > ls.len() {
        removed_total(parse_size, ls, 0, 0, r)
    } else if mentions(ls[i - 1], "free"@) {
        exists|a: Option<u64>|
            #[trigger] first_size_from(parse_size, ls[i - 1], 0, a) && match a {
                Some(b) => r == Some(b),
                None => freed_before(parse_size, ls, i - 1, r),
            }
    } else {
        freed_before(parse_size, ls, i - 1, r)
    }
}

/// What `brew cleanup --dry-run` printed it would reclaim, given the answers
/// of `parse_size`.
pub open spec fn reclaimed_from<P: Fn(&str, &str) -> Option<u64>>(
    parse_size: P,
    output: Seq<char>,
    r: Option<u64>,
) -> bool {
    freed_before(parse_size, lines(output), lines(output).len() as int, r)
}

/// The first size written in `line`, as `parse_size` reads a number and its
/// unit.
pub fn first_size_in_line<P: Fn(&str, &str) -> Option<u64>>(line: &str, parse_size: &P) -> (r: Option<u64>)
    requires
        forall|n: &str, u: &str| parse_size.requires((n, u)),
    ensures
        first_size_from(*parse_size, line@, 0, r),
{
    let chars = crate::text::chars_of(line);
    let ghost s = line@;
    let mut index: usize = 0;
    while index < chars.len()
        invariant
            chars@ == s,
            s == line@,
            index <= chars.len(),
            forall|r: Option<u64>| #[trigger] first_size_from(*parse_size, s, index as int, r) ==> first_size_from(*parse_size, s, 0, r),
            forall|n: &str, u: &str| parse_size.requires((n, u)),
        decreases chars.len() - index,
    {
        if !crate::text::is_digit(chars[index]) {
            assert forall|r: Option<u64>| #[trigger] first_size_from(*parse_size, s, index + 1, r) implies first_size_from(*parse_size, s, 0, r) by {
                assert(first_size_from(*parse_size, s, index as int, r));
            }
            index = index + 1;
        } else {
            let start = index;
            index = index + 1;
            while index < chars.len() && (crate::text::is_digit(chars[index]) || chars[index] == '.')
                invariant
                    chars@ == s,
                    start < index <= chars.len(),
                    number_end(s, start + 1) == number_end(s, index as int),
                decreases chars.len() - index,
            {
                index = index + 1;
            }
            let j = index;
            let number = crate::text::string_from(&chars, start, j);
            while index < chars.len() && crate::text::is_whitespace(chars[index])
                invariant
                    chars@ == s,
                    j <= index <= chars.len(),
                    space_end(s, j as int) == space_end(s, index as int),
                decreases chars.len() - index,
            {
                index = index + 1;
            }
            let k = index;
            while index < chars.len() && (('a' <= chars[index] && chars[index] <= 'z') || ('A' <= chars[index] && chars[index] <= 'Z'))
                invariant
                    chars@ == s,
                    k <= index <= chars.len(),
                    letters_end(s, k as int) == letters_end(s, index as int),
                decreases chars.len() - index,
            {
                index = index + 1;
            }
            let unit = crate::text::string_from(&chars, k, index);
            let answer = parse_size(number.as_str(), unit.as_str());
            assert(size_answered(*parse_size, s.subrange(start as int, j as int), s.subrange(k as int, index as int), answer));
            assert(number_end(s, start + 1) == j);
            assert(space_end(s, j as int) == k);
            assert(letters_end(s, k as int) == index);
            if let Some(bytes) = answer {
                assert(first_size_from(*parse_size, s, start as int, Some(bytes)));
                return Some(bytes);
            }
            assert forall|r: Option<u64>| #[trigger] first_size_from(*parse_size, s, index as int, r) implies first_size_from(*parse_size, s, 0, r) by {
                assert(first_size_from(*parse_size, s, start as int, r));
            }
        }
    }
    assert(first_size_from(*parse_size, s, index as int, None));
    None
}

/// The space `brew cleanup --dry-run` says it would free: the first size on
/// the last line that mentions freeing and has one, else the saturating sum
/// of the sizes on the lines that would remove something, else `None`.
/// The words are matched without regard to case; for these ASCII words that
/// is the same as lowering the whole line.
pub fn extract_cleanup_reclaimed_bytes<P: Fn(&str, &str) -> Option<u64>>(output: &str, parse_size: &P) -> (r: Option<u64>)
    requires
        forall|n: &str, u: &str| parse_size.requires((n, u)),
    ensures
        reclaimed_from(*parse_size, output@, r),
{
    let ls = lines_of(output);
    let ghost l = lines(output@);
    let mut i: usize = ls.len();
    while i > 0
        invariant
            views(ls@) == l,
            l == lines(output@),
            i <= ls.len(),
            forall|r: Option<u64>| #[trigger] freed_before(*parse_size, l, i as int, r) ==> freed_before(*parse_size, l, l.len() as int, r),
            forall|n: &str, u: &str| parse_size.requires((n, u)),
        decreases i,
    {
        let ghost top = i as int;
        i = i - 1;
        assert(top == i + 1);
        let line = ls[i].as_str();
        assert(line@ == l[i as int]);
        let lowered = crate::text::ascii_lowercase(line);
        if crate::text::str_contains(lowered.as_str(), "free") {
            proof { reveal_strlit("free"); }
            let found = first_size_in_line(line, parse_size);
            assert(mentions(l[top - 1], "free"@));
            assert(first_size_from(*parse_size, l[top - 1], 0, found));
            if let Some(bytes) = found {
                assert(freed_before(*parse_size, l, top, Some(bytes)));
                return Some(bytes);
            }
            assert forall|r: Option<u64>| #[trigger] freed_before(*parse_size, l, i as int, r) implies freed_before(*parse_size, l, l.len() as int, r) by {
                assert(freed_before(*parse_size, l, top, r));
            }
        } else {
            proof { reveal_strlit("free"); }
            assert forall|r: Option<u64>| #[trigger] freed_before(*parse_size, l, i as int, r) implies freed_before(*parse_size, l, l.len() as int, r) by {
                assert(freed_before(*parse_size, l, top, r));
            }
        }
    }
    assert forall|r: Option<u64>| #[trigger] removed_total(*parse_size, l, 0, 0, r) implies freed_before(*parse_size, l, l.len() as int, r) by {
        assert(freed_before(*parse_size, l, 0, r));
    }
    let mut total: u64 = 0;
    let mut k: usize = 0;
    while k < ls.len()
        invariant
            views(ls@) == l,
            l == lines(output@),
            k <= ls.len(),
            forall|r: Option<u64>| #[trigger] removed_total(*parse_size, l, k as int, total, r) ==> freed_before(*parse_size, l, l.len() as int, r),
            forall|n: &str, u: &str| parse_size.requires((n, u)),
        decreases ls.len() - k,
    {
        let line = ls[k].as_str();
        assert(line@ == l[k as int]);
        let lowered = crate::text::ascii_lowercase(line);
        let ghost before = total;
        if crate::text::str_contains(lowered.as_str(), "would remove") {
            proof { reveal_strlit("would remove"); }
            let found = first_size_in_line(line, parse_size);
            if let Some(bytes) = found {
                total = total.saturating_add(bytes);
            }
            assert(total == saturating_total(before, found));
            assert forall|r: Option<u64>| #[trigger] removed_total(*parse_size, l, k + 1, total, r) implies freed_before(*parse_size, l, l.len() as int, r) by {
                assert(removed_total(*parse_size, l, k as int, before, r));
            }
        } else {
            proof { reveal_strlit("would remove"); }
            assert forall|r: Option<u64>| #[trigger] removed_total(*parse_size, l, k + 1, total, r) implies freed_before(*parse_size, l, l.len() as int, r) by {
                assert(removed_total(*parse_size, l, k as int, before, r));
            }
        }
        k = k + 1;
    }
    if total > 0 {
        assert(removed_total(*parse_size, l, k as int, total, Some(total)));
        Some(total)
    } else {
        assert(removed_total(*parse_size, l, k as int, total, None));
        None
    }
}

/// `format_bytes` wrote `human` for `bytes`.
pub open spec fn formatted<H: Fn(u64) -> String>(format_bytes: H, bytes: u64, human: String) -> bool {
    format_bytes.ensures((bytes,), human)
}

/// The estimate of a clean dry run: the bytes that `output` says would be
/// reclaimed (read with `parse_size`) and, where there are some, how
/// `format_bytes` writes them.
pub open spec fn estimate_of<P: Fn(&str, &str) -> Option<u64>, H: Fn(u64) -> String>(
    parse_size: P,
    format_bytes: H,
    output: Seq<char>,
    bytes: Option<u64>,
    human: Option<String>,
) -> bool {
    &&& reclaimed_from(parse_size, output, bytes)
    &&& match bytes {
        Some(b) => human matches Some(h) && formatted(format_bytes, b, h),
        None => human is None,
    }
}

/// Runs `brew cleanup --dry-run` and previews what it would reclaim, as read
/// from the output with `parse_size` and written with `format_bytes`; a
/// failed run gives a failed preview.
pub fn hydrate_homebrew_cleanup_with_runner<F, P, H>(runner: &F, parse_size: &P, format_bytes: &H) -> (r: HomebrewCleanupPreview) where
    F: Fn(&str, &[String], u64) -> Result<CommandRun, CommandFailure>,
    P: Fn(&str, &str) -> Option<u64>,
    H: Fn(u64) -> String,

    requires
        forall|p: &str, a: &[String], t: u64|
            p@ == "brew"@ && views(a@) == seq!["cleanup"@, "--dry-run"@] && t == 30 ==> #[trigger] runner.requires((p, a, t)),
        forall|n: &str, u: &str| parse_size.requires((n, u)),
        forall|b: u64| format_bytes.requires((b,)),
    ensures
        envelope_is(r.command, "brew"@, seq!["cleanup"@, "--dry-run"@], 30000),
        exists|out: Result<CommandRun, CommandFailure>|
            #[trigger] answered_run(*runner, "brew"@, dry_run_args(), 30, out) && match out {
                Ok(run) => if run.exit_code == Some(0i32) {
                    r.status == AsyncStatus::Ready && r.raw_output == run.stdout && estimate_of(
                        *parse_size,
                        *format_bytes,
                        run.stdout@,
                        r.reclaimed_bytes,
                        r.reclaimed_human,
                    ) && r.message is None && r.failure is None
                } else {
                    r.status == AsyncStatus::Failed && r.raw_output == run.stdout && (r.failure matches Some(f) && f.kind
                        == FailureKind::CommandFailed && f.message@
                        == "Homebrew cleanup dry-run failed"@ && f.command == Some(run.envelope)
                        && r.message == Some(f.message))
                },
                Err(f) => r.status == AsyncStatus::Failed && r.failure == Some(f) && r.message
                    == Some(f.message) && r.raw_output == f.stdout,
            },
{
    assert(str_views(["cleanup", "--dry-run"]@) == seq!["cleanup"@, "--dry-run"@]);
    let out = crate::command::ask_runner(runner, "brew", &["cleanup", "--dry-run"], 30);
    let ghost answer = out;
    assert(answered_run(*runner, "brew"@, dry_run_args(), 30, answer));
    match out {
        Ok(run) => {
            if run.exit_code == Some(0i32) {
                let bytes = extract_cleanup_reclaimed_bytes(run.stdout.as_str(), parse_size);
                let human = match bytes {
                    Some(b) => Some(format_bytes(b)),
                    None => None,
                };
                ready_homebrew_cleanup_preview(run.stdout, bytes, human)
            } else {
                failed_homebrew_cleanup_preview(
                    command_failure(FailureKind::CommandFailed, "Homebrew cleanup dry-run failed", run),
                )
            }
        },
        Err(failure) => failed_homebrew_cleanup_preview(failure),
    }
}

/// The read-only commands a Homebrew scan may run, with their budgets in
/// seconds.
pub open spec fn homebrew_scan_command(program: Seq<char>, args: Seq<Seq<char>>, timeout: u64) -> bool {
    &&& program == "brew"@
    &&& {
        ||| args == seq!["--version"@] && timeout == 5
        ||| args == seq!["list"@, "--formula"@, "--versions"@] && timeout == 10
        ||| args == seq!["list"@, "--cask"@, "--versions"@] && timeout == 10
        ||| args == seq!["outdated"@, "--json=v2"@] && timeout == 20
        ||| args == seq!["leaves"@] && timeout == 10
        ||| args == seq!["--prefix"@] && timeout == 5
        ||| args == seq!["--cache"@] && timeout == 5
        ||| args == seq!["--cellar"@] && timeout == 5
    }
}

pub open spec fn outdated_args() -> Seq<Seq<char>> {
    seq!["outdated"@, "--json=v2"@]
}

pub open spec fn homebrew_list_message(cask: bool) -> Seq<char> {
    if cask {
        "Homebrew cask list failed"@
    } else {
        "Homebrew formula list failed"@
    }
}

/// The failures of a Homebrew scan after its version answered, as they grew
/// command by command: the formula list (`f1`), the cask list (`f2`), the
/// outdated list, whose output is refused when it is not JSON (`f3`),
/// leaves (`f4`), the prefix (`f5`), the cache (`f6`) and the Cellar
/// (`after`).
pub open spec fn homebrew_failure_chain<F: Fn(&str, &[String], u64) -> Result<CommandRun, CommandFailure>>(
    runner: F,
    f1: Seq<CommandFailure>,
    f2: Seq<CommandFailure>,
    f3: Seq<CommandFailure>,
    f4: Seq<CommandFailure>,
    f5: Seq<CommandFailure>,
    f6: Seq<CommandFailure>,
    after: Seq<CommandFailure>,
) -> bool {
    &&& failures_grew(runner, "brew"@, homebrew_list_args(false), 10, homebrew_list_message(false), Seq::<CommandFailure>::empty(), f1)
    &&& failures_grew(runner, "brew"@, homebrew_list_args(true), 10, homebrew_list_message(true), f1, f2)
    &&& crate::command::extends(f2, f3)
    &&& exists|out: Result<CommandRun, CommandFailure>|
        #[trigger] answered_run(runner, "brew"@, outdated_args(), 20, out) && crate::command::parsed_adds(
            out,
            "Homebrew outdated scan failed"@,
            crate::command::clean_exit(out) && json_document(out->Ok_0.stdout@) is None,
            crate::command::added_since(f2, f3),
        )
    &&& failures_grew(runner, "brew"@, seq!["leaves"@], 10, "Homebrew leaves scan failed"@, f3, f4)
    &&& failures_grew(runner, "brew"@, seq!["--prefix"@], 5, "Homebrew prefix lookup failed"@, f4, f5)
    &&& failures_grew(runner, "brew"@, seq!["--cache"@], 5, "Homebrew cache lookup failed"@, f5, f6)
    &&& failures_grew(runner, "brew"@, seq!["--cellar"@], 5, "Homebrew cellar lookup failed"@, f6, after)
}

/// The command log of a Homebrew scan that found brew (its version probe is
/// not logged).
pub open spec fn homebrew_full_log(c: Seq<CommandEnvelope>) -> bool {
    &&& c.len() == 7
    &&& envelope_is(c[0], "brew"@, seq!["list"@, "--formula"@, "--versions"@], 10000)
    &&& envelope_is(c[1], "brew"@, seq!["list"@, "--cask"@, "--versions"@], 10000)
    &&& envelope_is(c[2], "brew"@, seq!["outdated"@, "--json=v2"@], 20000)
    &&& envelope_is(c[3], "brew"@, seq!["leaves"@], 10000)
    &&& envelope_is(c[4], "brew"@, seq!["--prefix"@], 5000)
    &&& envelope_is(c[5], "brew"@, seq!["--cache"@], 5000)
    &&& envelope_is(c[6], "brew"@, seq!["--cellar"@], 5000)
}

/// A row of a Homebrew scan: an installed formula or cask with the actions
/// Homebrew offers for it.
pub open spec fn homebrew_row_reported(row: PackageRow) -> bool {
    &&& (row.kind == PackageKind::Formula && row.source@ == "brew list --formula --versions"@) || (
    row.kind == PackageKind::Cask && row.source@ == "brew list --cask --versions"@)
    &&& homebrew_actions_from(row, 0)
}

pub open spec fn homebrew_row_listed(row: PackageRow) -> bool {
    &&& (row.kind == PackageKind::Formula && row.source@ == "brew list --formula --versions"@) || (
    row.kind == PackageKind::Cask && row.source@ == "brew list --cask --versions"@)
    &&& row.actions@.len() == 0
}

pub open spec fn homebrew_list_args(cask: bool) -> Seq<Seq<char>> {
    if cask {
        seq!["list"@, "--cask"@, "--versions"@]
    } else {
        seq!["list"@, "--formula"@, "--versions"@]
    }
}

/// The rows of `brew list --formula --versions` (or `--cask`): one per
/// listed name, in the order of the output.
pub open spec fn homebrew_rows_of(rows: Seq<PackageRow>, stdout: Seq<char>, cask: bool) -> bool {
    &&& rows.len() == homebrew_entries(lines(stdout)).len()
    &&& forall|i: int| 0 <= i < rows.len() ==> homebrew_row(
        #[trigger] rows[i],
        homebrew_entries(lines(stdout))[i],
        if cask { PackageKind::Cask } else { PackageKind::Formula },
        if cask { "brew list --cask --versions"@ } else { "brew list --formula --versions"@ },
    )
}

/// What a Homebrew listing gave: the rows of a clean run, or none after an
/// answer that is not a clean exit.
pub open spec fn homebrew_listed<F: Fn(&str, &[String], u64) -> Result<CommandRun, CommandFailure>>(
    runner: F,
    cask: bool,
    rows: Seq<PackageRow>,
) -> bool {
    ||| exists|run: CommandRun|
        #[trigger] answered_run(runner, "brew"@, homebrew_list_args(cask), 10, Ok::<CommandRun, CommandFailure>(run))
            && run.exit_code == Some(0i32) && homebrew_rows_of(rows, run.stdout@, cask)
    ||| rows.len() == 0 && exists|out: Result<CommandRun, CommandFailure>|
        #[trigger] answered_run(runner, "brew"@, homebrew_list_args(cask), 10, out)
            && !crate::command::clean_exit(out)
}

/// The packages of a Homebrew scan are the formula rows and then the cask
/// rows, sorted by name, each keeping its name and version.
pub open spec fn homebrew_packages_listed<F: Fn(&str, &[String], u64) -> Result<CommandRun, CommandFailure>>(
    runner: F,
    packages: Seq<PackageRow>,
) -> bool {
    exists|f: Seq<PackageRow>, c: Seq<PackageRow>|
        #![trigger homebrew_listed(runner, false, f), homebrew_listed(runner, true, c)]
        homebrew_listed(runner, false, f) && homebrew_listed(runner, true, c)
            && packages.len() == f.len() + c.len() && forall|k: int| 0 <= k < packages.len()
            ==> #[trigger] packages[k].name == sorted_by_name(f + c)[k].name
                && packages[k].version == sorted_by_name(f + c)[k].version
}

fn homebrew_listing<F>(snapshot: &mut ManagerSnapshot, runner: &F, cask: bool) -> (r: Option<Vec<PackageRow>>)
    where F: Fn(&str, &[String], u64) -> Result<CommandRun, CommandFailure>,
    requires
        forall|p: &str, a: &[String], t: u64|
            homebrew_scan_command(p@, views(a@), t) ==> #[trigger] runner.requires((p, a, t)),
    ensures
        crate::command::same_but_log(*old(snapshot), *final(snapshot)),
        final(snapshot).commands@.len() == old(snapshot).commands@.len() + 1,
        final(snapshot).commands@.drop_last() == old(snapshot).commands@,
        envelope_is(final(snapshot).commands@.last(), "brew"@, if cask {
            seq!["list"@, "--cask"@, "--versions"@]
        } else {
            seq!["list"@, "--formula"@, "--versions"@]
        }, 10000),
        r matches Some(rows) ==> forall|k: int| 0 <= k < rows@.len() ==> homebrew_row_listed(#[trigger] rows@[k]) && rows@[k].kind == if cask { PackageKind::Cask } else { PackageKind::Formula },
        homebrew_listed(*runner, cask, match r { Some(rows) => rows@, None => Seq::<PackageRow>::empty() }),
        failures_grew(*runner, "brew"@, homebrew_list_args(cask), 10, homebrew_list_message(cask), old(snapshot).failures@, final(snapshot).failures@),
        r is None <==> final(snapshot).failures@.len() > old(snapshot).failures@.len(),
{
    let (args, message, kind, source): (&[&str], &str, PackageKind, &str) = if cask {
        (&["list", "--cask", "--versions"], "Homebrew cask list failed", PackageKind::Cask, "brew list --cask --versions")
    } else {
        (&["list", "--formula", "--versions"], "Homebrew formula list failed", PackageKind::Formula, "brew list --formula --versions")
    };
    assert(str_views(["list", "--cask", "--versions"]@) == seq!["list"@, "--cask"@, "--versions"@]);
    assert(str_views(["list", "--formula", "--versions"]@) == seq!["list"@, "--formula"@, "--versions"@]);
    assert(str_views(args@) == homebrew_list_args(cask));
    match run_recorded_command(snapshot, runner, "brew", args, 10, message) {
        Some(run) => {
            let rows = parse_homebrew_list_versions(run.stdout.as_str(), kind, source);
            assert forall|k: int| 0 <= k < rows@.len() implies homebrew_row_listed(#[trigger] rows@[k]) && rows@[k].kind == kind by {
                assert(homebrew_row(rows@[k], homebrew_entries(lines(run.stdout@))[k], kind, source@));
            }
            assert(homebrew_rows_of(rows@, run.stdout@, cask));
            assert(answered_run(*runner, "brew"@, homebrew_list_args(cask), 10, Ok::<CommandRun, CommandFailure>(run)));
            Some(rows)
        },
        None => {
            proof {
                let out = choose|out: Result<CommandRun, CommandFailure>|
                    #[trigger] answered_run(*runner, "brew"@, str_views(args@), 10, out)
                        && recorded_failure(snapshot.failures@.last(), out, message@);
                assert(answered_run(*runner, "brew"@, homebrew_list_args(cask), 10, out));
            }
            None
        },
    }
}

/// Scans Homebrew: its version (probed without being logged), the installed
/// formulae and casks sorted by name (formulae first among equal names) with
/// their paths, outdated and leaf signals and actions, its directories (the
/// Caskroom only when `path_exists` finds it), and the maintenance summary
/// with a pending cleanup preview. A scan whose package lists both failed
/// without any row is failed.
#[verifier::rlimit(60)]
pub fn scan_homebrew_with_runner<F, E>(runner: &F, path_exists: &E) -> (r: ManagerSnapshot) where
    F: Fn(&str, &[String], u64) -> Result<CommandRun, CommandFailure>,
    E: Fn(&str) -> bool,

    requires
        forall|p: &str, a: &[String], t: u64|
            p@ == "brew"@ && views(a@) == seq!["--version"@] && t == 5 ==> #[trigger] runner.requires((p, a, t)),
        forall|p: &str, a: &[String], t: u64|
            homebrew_scan_command(p@, views(a@), t) && crate::command::version_answered(*runner, "brew"@) ==> #[trigger] runner.requires((p, a, t)),
        forall|a: &str| path_exists.requires((a,)),
    ensures
        r.id == ManagerId::Homebrew,
        r.label@ == "Homebrew"@,
        r.version is None ==> r.commands@.len() == 0 && r.failures@.len() == 1 && r.packages@.len()
            == 0 && r.paths@.len() == 0 && r.homebrew is None && r.status == finished_status(r)
            && exists|out: Result<CommandRun, CommandFailure>|
            #[trigger] answered_run(*runner, "brew"@, seq!["--version"@], 5, out) && recorded_failure(
                r.failures@[0],
                out,
                "Homebrew version probe failed"@,
            ),
        r.version matches Some(v) ==> {
            &&& exists|run: CommandRun|
                #[trigger] answered_run(*runner, "brew"@, seq!["--version"@], 5, Ok(run))
                    && run.exit_code == Some(0i32) && v@ == homebrew_version_spec(run.stdout@)
            &&& homebrew_full_log(r.commands@)
            &&& r.homebrew matches Some(h) && h.formula_count + h.cask_count == r.packages@.len()
                && h.outdated_count == h.outdated@.len() && h.leaf_count == h.leaves@.len()
                && h.cleanup.status == AsyncStatus::Pending && envelope_is(
                h.cleanup.command,
                "brew"@,
                seq!["cleanup"@, "--dry-run"@],
                30000,
            )
            &&& exists|
                f1: Seq<CommandFailure>,
                f2: Seq<CommandFailure>,
                f3: Seq<CommandFailure>,
                f4: Seq<CommandFailure>,
                f5: Seq<CommandFailure>,
                f6: Seq<CommandFailure>,
            |
                #[trigger] homebrew_failure_chain(*runner, f1, f2, f3, f4, f5, f6, r.failures@)
                    && r.status == if (f1.len() > 0 || f2.len() > f1.len()) && r.packages@.len() == 0 {
                    ManagerStatus::Failed
                } else {
                    finished_status(r)
                }
            &&& homebrew_packages_listed(*runner, r.packages@)
        },
        forall|k: int| 0 <= k < r.packages@.len() ==> homebrew_row_reported(#[trigger] r.packages@[k]),
        r.maven is None && r.pip is None && r.docker is None,
{
    let mut snapshot = empty_snapshot(ManagerId::Homebrew, "Homebrew");
    assert(str_views(["--version"]@) == seq!["--version"@]);
    let out = crate::command::ask_runner(runner, "brew", &["--version"], 5);
    let ghost out_v = out;
    proof {
        reveal_strlit("Homebrew version probe failed");
    }
    match out {
        Ok(run) => {
            if run.exit_code == Some(0i32) {
                snapshot.version = Some(parse_homebrew_version(run.stdout.as_str()));
            } else {
                snapshot.failures.push(
                    command_failure(FailureKind::CommandFailed, "Homebrew version probe failed", run),
                );
                return finish(snapshot);
            }
        },
        Err(failure) => {
            snapshot.failures.push(failure);
            return finish(snapshot);
        },
    }
    let mut installed_failed = false;
    let mut formula_count: usize = 0;
    let mut cask_count: usize = 0;
    let mut packages: Vec<PackageRow> = Vec::new();
    let ghost c0 = snapshot.commands@;
    let ghost mut fl: Seq<PackageRow> = Seq::empty();
    let ghost mut cl: Seq<PackageRow> = Seq::empty();
    assert(snapshot.failures@ =~= Seq::<CommandFailure>::empty());
    match homebrew_listing(&mut snapshot, runner, false) {
        Some(rows) => {
            formula_count = rows.len();
            proof { fl = rows@; }
            packages = rows;
        },
        None => installed_failed = true,
    }
    let ghost f1 = snapshot.failures@;
    assert(homebrew_listed(*runner, false, fl));
    proof { lemma_log_extends(c0, snapshot.commands@); }
    let ghost c1 = snapshot.commands@;
    match homebrew_listing(&mut snapshot, runner, true) {
        Some(rows) => {
            cask_count = rows.len();
            proof { cl = rows@; }
            let mut rows = rows;
            let ghost p0 = packages@;
            let ghost q0 = rows@;
            packages.append(&mut rows);
            assert(packages@ =~= p0 + q0);
            assert forall|k: int| 0 <= k < packages@.len() implies homebrew_row_listed(#[trigger] packages@[k]) by {
                if k >= p0.len() {
                    assert(packages@[k] == q0[k - p0.len()]);
                }
            }
        },
        None => installed_failed = true,
    }
    let ghost f2 = snapshot.failures@;
    assert(installed_failed <==> (f1.len() > 0 || f2.len() > f1.len()));
    proof { lemma_log_extends(c1, snapshot.commands@); }
    assert(homebrew_listed(*runner, true, cl));
    assert(packages@ =~= fl + cl);
    assert(formula_count + cask_count == packages@.len());
    let ghost listed = packages@;
    let mut packages = sort_rows_by_name(packages);
    proof {
        lemma_sorted_all(listed, |row: PackageRow| homebrew_row_listed(row));
        crate::scan_support::lemma_sorted_len(listed);
    }
    let ghost c2 = snapshot.commands@;
    assert(str_views(["outdated", "--json=v2"]@) == seq!["outdated"@, "--json=v2"@]);
    let outdated = match run_recorded_command(
        &mut snapshot,
        runner,
        "brew",
        &["outdated", "--json=v2"],
        20,
        "Homebrew outdated scan failed",
    ) {
        Some(run) => {
            assert(answered_run(*runner, "brew"@, seq!["outdated"@, "--json=v2"@], 20, Ok::<CommandRun, CommandFailure>(run)));
            assert(snapshot.failures@ == f2);
            match parse_homebrew_outdated(run.stdout.as_str()) {
                Ok(names) => {
                    assert(crate::command::added_since(f2, snapshot.failures@) =~= Seq::<CommandFailure>::empty());
                    assert(snapshot.failures@.subrange(0, f2.len() as int) =~= f2);
                    names
                },
                Err(message) => {
                    snapshot.failures.push(parse_failure(message, run));
                    assert(crate::command::added_since(f2, snapshot.failures@) =~= seq![snapshot.failures@.last()]);
                    assert(snapshot.failures@.subrange(0, f2.len() as int) =~= f2);
                    Vec::new()
                },
            }
        },
        None => {
            proof {
                let out = choose|out: Result<CommandRun, CommandFailure>|
                    #[trigger] answered_run(*runner, "brew"@, outdated_args(), 20, out)
                        && recorded_failure(snapshot.failures@.last(), out, "Homebrew outdated scan failed"@);
                assert(answered_run(*runner, "brew"@, seq!["outdated"@, "--json=v2"@], 20, out));
                assert(crate::command::added_since(f2, snapshot.failures@) =~= seq![snapshot.failures@.last()]);
            }
            Vec::new()
        },
    };
    let ghost f3 = snapshot.failures@;
    proof { lemma_log_extends(c2, snapshot.commands@); }
    let ghost c3 = snapshot.commands@;
    assert(str_views(["leaves"]@) == seq!["leaves"@]);
    let leaves = match run_recorded_command(
        &mut snapshot,
        runner,
        "brew",
        &["leaves"],
        10,
        "Homebrew leaves scan failed",
    ) {
        Some(run) => parse_homebrew_leaves(run.stdout.as_str()),
        None => Vec::new(),
    };
    let ghost f4 = snapshot.failures@;
    proof { lemma_log_extends(c3, snapshot.commands@); }
    let ghost c4 = snapshot.commands@;
    assert(str_views(["--prefix"]@) == seq!["--prefix"@]);
    let prefix = run_recorded_stdout(&mut snapshot, runner, "brew", &["--prefix"], 5, "Homebrew prefix lookup failed");
    let ghost f5 = snapshot.failures@;
    proof { lemma_log_extends(c4, snapshot.commands@); }
    let ghost c5 = snapshot.commands@;
    assert(str_views(["--cache"]@) == seq!["--cache"@]);
    let cache = run_recorded_stdout(&mut snapshot, runner, "brew", &["--cache"], 5, "Homebrew cache lookup failed");
    let ghost f6 = snapshot.failures@;
    proof { lemma_log_extends(c5, snapshot.commands@); }
    let ghost c6 = snapshot.commands@;
    assert(str_views(["--cellar"]@) == seq!["--cellar"@]);
    let cellar = run_recorded_stdout(&mut snapshot, runner, "brew", &["--cellar"], 5, "Homebrew cellar lookup failed");
    let ghost f7 = snapshot.failures@;
    assert(homebrew_failure_chain(*runner, f1, f2, f3, f4, f5, f6, f7));
    proof { lemma_log_extends(c6, snapshot.commands@); }
    if let Some(path) = &prefix {
        snapshot.paths.push(path_info("Prefix", PathKind::Prefix, path.clone()));
    }
    if let Some(path) = &cache {
        snapshot.paths.push(path_info("Cache", PathKind::Cache, path.clone()));
    }
    if let Some(path) = &cellar {
        snapshot.paths.push(path_info("Cellar", PathKind::Cellar, path.clone()));
    }
    let caskroom = match &prefix {
        Some(p) => {
            let candidate = join(p.as_str(), "Caskroom");
            if path_exists(candidate.as_str()) {
                Some(candidate)
            } else {
                None
            }
        },
        None => None,
    };
    if let Some(path) = &caskroom {
        snapshot.paths.push(path_info("Caskroom", PathKind::Caskroom, path.clone()));
    }
    let cellar_ref = match &cellar {
        Some(c) => Some(c.as_str()),
        None => None,
    };
    let caskroom_ref = match &caskroom {
        Some(c) => Some(c.as_str()),
        None => None,
    };
    let ghost s0 = packages@;
    attach_homebrew_paths(&mut packages, cellar_ref, caskroom_ref);
    let ghost s1 = packages@;
    merge_homebrew_outdated(&mut packages, &outdated);
    let ghost s2 = packages@;
    merge_homebrew_leaves(&mut packages, &leaves);
    let ghost s3 = packages@;
    attach_homebrew_actions(&mut packages);
    assert forall|k: int| 0 <= k < packages@.len() implies homebrew_row_reported(#[trigger] packages@[k]) by {
        assert(homebrew_row_listed(s0[k]));
        assert(homebrew_path_after(s0[k], s1[k], crate::cargo::opt_str_view(cellar_ref), crate::cargo::opt_str_view(caskroom_ref)));
        assert(same_but_signals(s1[k], s2[k]));
        assert(same_but_signals(s2[k], s3[k]));
        assert(homebrew_actions_appended(s3[k], packages@[k]));
    }
    assert forall|k: int| 0 <= k < packages@.len() implies #[trigger] packages@[k].name == sorted_by_name(fl + cl)[k].name
        && packages@[k].version == sorted_by_name(fl + cl)[k].version by {
        assert(homebrew_path_after(s0[k], s1[k], crate::cargo::opt_str_view(cellar_ref), crate::cargo::opt_str_view(caskroom_ref)));
        assert(same_but_signals(s1[k], s2[k]));
        assert(same_but_signals(s2[k], s3[k]));
        assert(homebrew_actions_appended(s3[k], packages@[k]));
    }
    assert(homebrew_packages_listed(*runner, packages@));
    let outdated_list = sort_texts(outdated);
    let leaf_list = sort_texts(leaves);
    proof {
        crate::scan_support::lemma_sorted_texts_len(views(outdated@));
        crate::scan_support::lemma_sorted_texts_len(views(leaves@));
    }
    let outdated_count = outdated_list.len();
    let leaf_count = leaf_list.len();
    snapshot.packages = packages;
    snapshot.homebrew = Some(
        HomebrewMaintenance {
            formula_count,
            cask_count,
            outdated_count,
            leaf_count,
            outdated: outdated_list,
            leaves: leaf_list,
            cleanup: pending_homebrew_cleanup_preview(),
        },
    );
    if installed_failed && snapshot.packages.len() == 0 {
        snapshot.status = ManagerStatus::Failed;
        assert(snapshot.failures@ == f7);
        return snapshot;
    }
    let r = finish(snapshot);
    assert(r.failures@ == f7);
    r
}

} // verus!
