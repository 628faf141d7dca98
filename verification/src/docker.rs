//! Docker: images, containers and volumes with their actions, the disk usage
//! report, the known Docker directories and the prune commands it offers.
//! The scan runs read-only Docker commands only.
use crate::command::{
    answered_run, args3, envelope, envelope_is, envelope_owned, lemma_log_extends, parse_failure,
    push_command, recorded_failure, run_recorded_command, str_views,
};
use crate::disk_usage::path_info;
use crate::json::{
    as_str_spec, get_spec, json_document, json_get, json_render, json_string, parse_json,
    render_spec, JsonValue, JsonView,
};
use crate::path::{join, join_path};
use crate::scan_support::{
    empty_snapshot, finish, finished_status, has_signal, lemma_sorted_all, package_row,
    push_signal, sort_rows_by_name, sorted_by_name, unknown, unknown_text, with_signal,
};
use crate::text::{
    ascii_lower, chars_of, first_line, lines, lines_of, owned, push_str, split_on, starts_with,
    str_eq, str_starts_with, string_from, strip_prefix, strip_prefix_str, trim, trim_string, views,
};
use crate::types::{
    AsyncStatus, CommandFailure, CommandRun, DockerDiskUsageRow, DockerResourceHealth, ManagerId,
    ManagerSnapshot, PackageKind, PackageRow, PackageSignal, PathKind,
};
use vstd::prelude::*;

verus! {

/// The version `docker --version` reports: the text between
/// `Docker version ` and the first comma, or the whole trimmed first line.
pub open spec fn docker_version_spec(stdout: Seq<char>) -> Seq<char> {
    let line = trim(first_line(stdout));
    match strip_prefix(line, "Docker version "@) {
        Some(rest) => {
            let v = trim(split_on(rest, ',')[0]);
            if v.len() > 0 {
                v
            } else {
                line
            }
        },
        None => line,
    }
}

/// The version reported by `docker --version`.
pub fn parse_docker_version(stdout: &str) -> (r: String)
    ensures
        r@ == docker_version_spec(stdout@),
{
    let first = crate::uv::first_line_of(stdout);
    let line = trim_string(first.as_str());
    match strip_prefix_str(line.as_str(), "Docker version ") {
        Some(rest) => {
            let cs = chars_of(rest.as_str());
            let ranges = crate::path::split_ranges(&cs, ',');
            proof {
                crate::path::lemma_split_on_nonempty(cs@, ',');
            }
            let (lo, hi) = ranges[0];
            let piece = string_from(&cs, lo, hi);
            let v = trim_string(piece.as_str());
            if v.as_str().is_empty() {
                line
            } else {
                v
            }
        },
        None => line,
    }
}

/// The documents of a JSON-lines output, one per non-blank line, or the
/// first line that is not JSON.
pub open spec fn json_lines_step(acc: Result<Seq<JsonView>, Seq<char>>, line: Seq<char>) -> Result<
    Seq<JsonView>,
    Seq<char>,
> {
    match acc {
        Err(t) => Err(t),
        Ok(vs) => {
            let t = trim(line);
            if t.len() == 0 {
                Ok(vs)
            } else {
                match json_document(t) {
                    Some(v) => Ok(vs.push(v)),
                    None => Err(t),
                }
            }
        },
    }
}

pub open spec fn json_lines_fold(ls: Seq<Seq<char>>) -> Result<Seq<JsonView>, Seq<char>>
    decreases ls.len(),
{
    if ls.len() == 0 {
        Ok(seq![])
    } else {
        json_lines_step(json_lines_fold(ls.drop_last()), ls.last())
    }
}

pub proof fn lemma_json_lines_err(ls: Seq<Seq<char>>, i: int, t: Seq<char>)
    requires
        0 < i <= ls.len(),
        json_lines_fold(ls.subrange(0, i)) == Err::<Seq<JsonView>, Seq<char>>(t),
    ensures
        json_lines_fold(ls) == Err::<Seq<JsonView>, Seq<char>>(t),
    decreases ls.len() - i,
{
    if i < ls.len() {
        assert(ls.subrange(0, i + 1).drop_last() == ls.subrange(0, i));
        lemma_json_lines_err(ls, i + 1, t);
    } else {
        assert(ls.subrange(0, i) == ls);
    }
}

pub open spec fn json_values_view(vs: Seq<JsonValue>) -> Seq<JsonView> {
    vs.map_values(|v: JsonValue| v.view())
}

/// Parses each non-blank line as a JSON document; a line that is not JSON
/// fails the whole output with serde_json's message followed by `: <line>`.
pub fn parse_json_lines(stdout: &str) -> (r: Result<Vec<JsonValue>, String>)
    ensures
        match (r, json_lines_fold(lines(stdout@))) {
            (Ok(vs), Ok(views)) => json_values_view(vs@) == views,
            (Err(m), Err(t)) => exists|e: Seq<char>| m@ == e + ": "@ + t,
            _ => false,
        },
{
    let ls = lines_of(stdout);
    let ghost lv = lines(stdout@);
    let mut out: Vec<JsonValue> = Vec::new();
    let mut i: usize = 0;
    assert(lv.subrange(0, 0) =~= Seq::<Seq<char>>::empty());
    assert(json_values_view(out@) =~= Seq::<JsonView>::empty());
    while i < ls.len()
        invariant
            i <= ls@.len(),
            views(ls@) == lv,
            lv == lines(stdout@),
            json_lines_fold(lv.subrange(0, i as int)) == Ok::<Seq<JsonView>, Seq<char>>(
                json_values_view(out@),
            ),
        decreases ls@.len() - i,
    {
        assert(lv.subrange(0, i + 1).drop_last() == lv.subrange(0, i as int));
        assert(lv.subrange(0, i + 1).last() == lv[i as int]);
        assert(ls@[i as int]@ == lv[i as int]);
        let t = trim_string(ls[i].as_str());
        if !t.as_str().is_empty() {
            match parse_json(t.as_str()) {
                Ok(v) => {
                    let ghost before = out@;
                    out.push(v);
                    assert(json_values_view(out@) =~= json_values_view(before).push(
                        out@.last().view(),
                    ));
                },
                Err(e) => {
                    let mut m = e;
                    let ghost ev = m@;
                    push_str(&mut m, ": ");
                    push_str(&mut m, t.as_str());
                    proof {
                        assert(json_lines_fold(lv.subrange(0, i + 1)) == Err::<Seq<JsonView>, Seq<char>>(t@));
                        lemma_json_lines_err(lv, (i + 1) as int, t@);
                        assert(m@ == ev + ": "@ + t@);
                    }
                    return Err(m);
                },
            }
        }
        i = i + 1;
    }
    assert(lv.subrange(0, lv.len() as int) == lv);
    Ok(out)
}

/// The text under the first of `keys` whose value renders to a non-empty
/// text.
pub open spec fn first_rendered(v: JsonView, keys: Seq<Seq<char>>) -> Option<Seq<char>>
    decreases keys.len(),
{
    if keys.len() == 0 {
        None
    } else {
        match get_spec(v, keys[0]) {
            Some(x) if render_spec(x).len() > 0 => Some(render_spec(x)),
            _ => first_rendered(v, keys.drop_first()),
        }
    }
}

/// The first non-empty text among `keys`: a string's own text, any other
/// value as compact JSON.
pub fn docker_json_string_any(value: &JsonValue, keys: &[&str]) -> (r: Option<String>)
    ensures
        crate::text::opt_view(r) == first_rendered(value.view(), crate::command::str_views(keys@)),
{
    let ghost ks = crate::command::str_views(keys@);
    assert(ks.subrange(0, ks.len() as int) == ks);
    let mut k: usize = 0;
    while k < keys.len()
        invariant
            k <= keys@.len(),
            ks == crate::command::str_views(keys@),
            first_rendered(value.view(), ks) == first_rendered(
                value.view(),
                ks.subrange(k as int, ks.len() as int),
            ),
        decreases keys@.len() - k,
    {
        assert(ks.subrange(k as int, ks.len() as int)[0] == keys@[k as int]@);
        assert(ks.subrange(k as int, ks.len() as int).drop_first() == ks.subrange(
            k + 1,
            ks.len() as int,
        ));
        match json_get(value, keys[k]) {
            Some(x) => {
                let text = json_render(x);
                if !text.as_str().is_empty() {
                    return Some(text);
                }
            },
            None => {},
        }
        k = k + 1;
    }
    None
}

/// `value.get(key)` as a string, or `fallback`.
fn string_or(value: &JsonValue, key: &str, fallback: &str) -> (r: String)
    ensures
        r@ == match as_str_spec(get_spec(value.view(), key@)) {
            Some(s) => s,
            None => fallback@,
        },
{
    match json_string(json_get(value, key)) {
        Some(s) => s,
        None => owned(fallback),
    }
}

pub open spec fn str_or(v: JsonView, key: Seq<char>, fallback: Seq<char>) -> Seq<char> {
    match as_str_spec(get_spec(v, key)) {
        Some(s) => s,
        None => fallback,
    }
}

/// The name Docker shows for an image: its ID when the repository is
/// `<none>`, the repository when the tag is `<none>` or empty, else
/// `repository:tag`.
pub open spec fn image_name(repository: Seq<char>, tag: Seq<char>, id: Seq<char>) -> Seq<char> {
    if repository == "<none>"@ {
        id
    } else if tag == "<none>"@ || tag.len() == 0 {
        repository
    } else {
        repository + ":"@ + tag
    }
}

/// A row of `docker image ls --all`: named as Docker shows it, its size as
/// version, its digest as path (unless `<none>`), dangling when repository
/// or tag is `<none>`, unused when no container uses it.
pub open spec fn docker_image_row(row: PackageRow, v: JsonView) -> bool {
    let repository = str_or(v, "Repository"@, ""@);
    let tag = str_or(v, "Tag"@, "unknown"@);
    let id = str_or(v, "ID"@, "unknown"@);
    let digest = as_str_spec(get_spec(v, "Digest"@));
    let containers = str_or(v, "Containers"@, ""@);
    let s0 = if repository == "<none>"@ || tag == "<none>"@ {
        seq![PackageSignal::Dangling]
    } else {
        seq![]
    };
    &&& row.name@ == image_name(repository, tag, id)
    &&& row.version@ == str_or(v, "Size"@, "unknown"@)
    &&& crate::text::opt_view(row.path) == match digest {
        Some(d) => if d == "<none>"@ {
            None
        } else {
            Some(d)
        },
        None => None,
    }
    &&& row.source@ == "docker image ls --all"@
    &&& row.kind == PackageKind::DockerImage
    &&& row.signals@ == if containers == "0"@ {
        with_signal(s0, PackageSignal::Unused)
    } else {
        s0
    }
    &&& row.actions@.len() == 0
}

/// An image row is marked Unused exactly when its `Containers` field is the
/// text `0`: an image that some container uses is never counted unused.
pub proof fn law_unused_means_no_container(row: PackageRow, v: JsonView)
    requires
        docker_image_row(row, v),
    ensures
        row.signals@.contains(PackageSignal::Unused) <==> as_str_spec(get_spec(v, "Containers"@)) == Some("0"@),
{
    let repository = str_or(v, "Repository"@, ""@);
    let tag = str_or(v, "Tag"@, "unknown"@);
    let containers = str_or(v, "Containers"@, ""@);
    let s0 = if repository == "<none>"@ || tag == "<none>"@ {
        seq![PackageSignal::Dangling]
    } else {
        seq![]
    };
    assert(!s0.contains(PackageSignal::Unused)) by {
        if s0.contains(PackageSignal::Unused) {
            let i = choose|i: int| 0 <= i < s0.len() && s0[i] == PackageSignal::Unused;
        }
    }
    if containers == "0"@ {
        assert(s0.push(PackageSignal::Unused)[s0.len() as int] == PackageSignal::Unused);
        assert(as_str_spec(get_spec(v, "Containers"@)) == Some("0"@)) by {
            if as_str_spec(get_spec(v, "Containers"@)) is None {
                reveal_strlit("");
                reveal_strlit("0");
                assert(containers == ""@);
                assert(""@.len() == 0);
                assert("0"@.len() == 1);
            }
        }
    } else {
        assert(row.signals@ == s0);
    }
}

/// An image row is marked Dangling exactly when its repository or its tag
/// is `<none>`.
pub proof fn law_dangling_means_untagged(row: PackageRow, v: JsonView)
    requires
        docker_image_row(row, v),
    ensures
        row.signals@.contains(PackageSignal::Dangling) <==> (as_str_spec(get_spec(v, "Repository"@)) == Some("<none>"@)
            || as_str_spec(get_spec(v, "Tag"@)) == Some("<none>"@)),
{
    reveal_strlit("<none>");
    reveal_strlit("");
    reveal_strlit("unknown");
    let repository = str_or(v, "Repository"@, ""@);
    let tag = str_or(v, "Tag"@, "unknown"@);
    let dangling = repository == "<none>"@ || tag == "<none>"@;
    let s0 = if dangling {
        seq![PackageSignal::Dangling]
    } else {
        seq![]
    };
    assert(dangling <==> (as_str_spec(get_spec(v, "Repository"@)) == Some("<none>"@)
        || as_str_spec(get_spec(v, "Tag"@)) == Some("<none>"@))) by {
        assert(""@ != "<none>"@) by {
            assert(""@.len() != "<none>"@.len());
        }
        assert("unknown"@ != "<none>"@) by {
            assert("unknown"@.len() != "<none>"@.len());
        }
    }
    if dangling {
        assert(s0[0] == PackageSignal::Dangling);
        assert(with_signal(s0, PackageSignal::Unused)[0] == PackageSignal::Dangling);
    } else {
        assert(!s0.contains(PackageSignal::Dangling));
        assert(!with_signal(s0, PackageSignal::Unused).contains(PackageSignal::Dangling)) by {
            let w = with_signal(s0, PackageSignal::Unused);
            if w.contains(PackageSignal::Dangling) {
                let i = choose|i: int| 0 <= i < w.len() && w[i] == PackageSignal::Dangling;
                assert(w =~= seq![PackageSignal::Unused]);
            }
        }
    }
}

/// The row of one parsed line of `docker image ls`.
pub fn docker_image_from(value: &JsonValue) -> (row: PackageRow)
    ensures
        docker_image_row(row, value.view()),
{
    let repository = string_or(value, "Repository", "");
    let tag = string_or(value, "Tag", "unknown");
    let id = string_or(value, "ID", "unknown");
    let digest = json_string(json_get(value, "Digest"));
    let size = string_or(value, "Size", "unknown");
    let containers = string_or(value, "Containers", "");
    let repo_none = str_eq(repository.as_str(), "<none>");
    let tag_none = str_eq(tag.as_str(), "<none>");
    let name = if repo_none {
        id
    } else if tag_none || tag.as_str().is_empty() {
        repository
    } else {
        let mut n = repository;
        push_str(&mut n, ":");
        push_str(&mut n, tag.as_str());
        n
    };
    let mut row = package_row(name, size, None, "docker image ls --all", PackageKind::DockerImage);
    row.path = match digest {
        Some(d) => if str_eq(d.as_str(), "<none>") {
            None
        } else {
            Some(d)
        },
        None => None,
    };
    if repo_none || tag_none {
        push_signal(&mut row, PackageSignal::Dangling);
        assert(row.signals@ =~= seq![PackageSignal::Dangling]);
    } else {
        assert(row.signals@ =~= Seq::<PackageSignal>::empty());
    }
    if str_eq(containers.as_str(), "0") {
        push_signal(&mut row, PackageSignal::Unused);
    }
    row
}

/// The images of `docker image ls --all --format {{json .}}`, sorted by name.
pub fn parse_docker_images(stdout: &str) -> (r: Result<Vec<PackageRow>, String>)
    ensures
        match (r, json_lines_fold(lines(stdout@))) {
            (Ok(rows), Ok(vs)) => exists|u: Seq<PackageRow>|
                rows@ == sorted_by_name(u) && u.len() == vs.len() && forall|i: int|
                    0 <= i < u.len() ==> docker_image_row(#[trigger] u[i], vs[i]),
            (Err(m), Err(t)) => exists|e: Seq<char>| m@ == e + ": "@ + t,
            _ => false,
        },
{
    let values = parse_json_lines(stdout)?;
    let ghost vs = json_values_view(values@);
    let mut rows: Vec<PackageRow> = Vec::new();
    let mut i: usize = 0;
    while i < values.len()
        invariant
            i <= values@.len(),
            vs == json_values_view(values@),
            rows@.len() == i,
            forall|k: int| 0 <= k < i ==> docker_image_row(#[trigger] rows@[k], vs[k]),
        decreases values@.len() - i,
    {
        let row = docker_image_from(&values[i]);
        rows.push(row);
        i = i + 1;
    }
    let ghost unsorted = rows@;
    let sorted = sort_rows_by_name(rows);
    Ok(sorted)
}

/// A row of `docker container ls --all`: named by its names, its status as
/// version, its image and ID in the source; running when the status starts
/// with `up ` (in any case), stopped otherwise.
pub open spec fn docker_container_row(row: PackageRow, v: JsonView) -> bool {
    let id = str_or(v, "ID"@, "unknown"@);
    let image = str_or(v, "Image"@, "unknown"@);
    let status = str_or(v, "Status"@, "unknown"@);
    &&& row.name@ == str_or(v, "Names"@, id)
    &&& row.version@ == status
    &&& row.path is None
    &&& row.source@ == "docker container ls --all \u{b7} "@ + image + " \u{b7} container "@ + id
    &&& row.kind == PackageKind::DockerContainer
    &&& row.signals@ == if starts_with(ascii_lower(status), "up "@) {
        seq![PackageSignal::Running]
    } else {
        seq![PackageSignal::Stopped]
    }
    &&& row.actions@.len() == 0
}

/// The row of one parsed line of `docker container ls`.
pub fn docker_container_from(value: &JsonValue) -> (row: PackageRow)
    ensures
        docker_container_row(row, value.view()),
{
    let id = string_or(value, "ID", "unknown");
    let image = string_or(value, "Image", "unknown");
    let names = string_or(value, "Names", id.as_str());
    let status = string_or(value, "Status", "unknown");
    let mut source = owned("docker container ls --all \u{b7} ");
    push_str(&mut source, image.as_str());
    push_str(&mut source, " \u{b7} container ");
    push_str(&mut source, id.as_str());
    let lower = crate::text::ascii_lowercase(status.as_str());
    let running = str_starts_with(lower.as_str(), "up ");
    let mut row = package_row(names, status, None, "", PackageKind::DockerContainer);
    row.source = source;
    if running {
        push_signal(&mut row, PackageSignal::Running);
        assert(row.signals@ =~= seq![PackageSignal::Running]);
    } else {
        push_signal(&mut row, PackageSignal::Stopped);
        assert(row.signals@ =~= seq![PackageSignal::Stopped]);
    }
    row
}

/// The containers of `docker container ls --all --format {{json .}}`,
/// sorted by name.
pub fn parse_docker_containers(stdout: &str) -> (r: Result<Vec<PackageRow>, String>)
    ensures
        match (r, json_lines_fold(lines(stdout@))) {
            (Ok(rows), Ok(vs)) => exists|u: Seq<PackageRow>|
                rows@ == sorted_by_name(u) && u.len() == vs.len() && forall|i: int|
                    0 <= i < u.len() ==> docker_container_row(#[trigger] u[i], vs[i]),
            (Err(m), Err(t)) => exists|e: Seq<char>| m@ == e + ": "@ + t,
            _ => false,
        },
{
    let values = parse_json_lines(stdout)?;
    let ghost vs = json_values_view(values@);
    let mut rows: Vec<PackageRow> = Vec::new();
    let mut i: usize = 0;
    while i < values.len()
        invariant
            i <= values@.len(),
            vs == json_values_view(values@),
            rows@.len() == i,
            forall|k: int| 0 <= k < i ==> docker_container_row(#[trigger] rows@[k], vs[k]),
        decreases values@.len() - i,
    {
        let row = docker_container_from(&values[i]);
        rows.push(row);
        i = i + 1;
    }
    let ghost unsorted = rows@;
    let sorted = sort_rows_by_name(rows);
    Ok(sorted)
}

/// A row of `docker volume ls`: its name, its driver as version and its
/// mount point as path.
pub open spec fn docker_volume_row(row: PackageRow, v: JsonView) -> bool {
    &&& row.name@ == str_or(v, "Name"@, "unknown"@)
    &&& row.version@ == str_or(v, "Driver"@, "unknown"@)
    &&& crate::text::opt_view(row.path) == as_str_spec(get_spec(v, "Mountpoint"@))
    &&& row.source@ == "docker volume ls"@
    &&& row.kind == PackageKind::DockerVolume
    &&& row.signals@.len() == 0
    &&& row.actions@.len() == 0
}

/// The volumes of `docker volume ls --format {{json .}}`, sorted by name.
pub fn parse_docker_volumes(stdout: &str) -> (r: Result<Vec<PackageRow>, String>)
    ensures
        match (r, json_lines_fold(lines(stdout@))) {
            (Ok(rows), Ok(vs)) => exists|u: Seq<PackageRow>|
                rows@ == sorted_by_name(u) && u.len() == vs.len() && forall|i: int|
                    0 <= i < u.len() ==> docker_volume_row(#[trigger] u[i], vs[i]),
            (Err(m), Err(t)) => exists|e: Seq<char>| m@ == e + ": "@ + t,
            _ => false,
        },
{
    let values = parse_json_lines(stdout)?;
    let ghost vs = json_values_view(values@);
    let mut rows: Vec<PackageRow> = Vec::new();
    let mut i: usize = 0;
    while i < values.len()
        invariant
            i <= values@.len(),
            vs == json_values_view(values@),
            rows@.len() == i,
            forall|k: int| 0 <= k < i ==> docker_volume_row(#[trigger] rows@[k], vs[k]),
        decreases values@.len() - i,
    {
        let name = string_or(&values[i], "Name", "unknown");
        let driver = string_or(&values[i], "Driver", "unknown");
        let mountpoint = json_string(json_get(&values[i], "Mountpoint"));
        rows.push(package_row(name, driver, mountpoint, "docker volume ls", PackageKind::DockerVolume));
        i = i + 1;
    }
    let ghost unsorted = rows@;
    let sorted = sort_rows_by_name(rows);
    Ok(sorted)
}

pub open spec fn rendered_or_dash(v: JsonView, keys: Seq<Seq<char>>) -> Seq<char> {
    match first_rendered(v, keys) {
        Some(t) => t,
        None => "-"@,
    }
}

/// A row of `docker system df`: its type, and the counts and sizes under
/// their current or older key names (`-` when absent).
pub open spec fn docker_df_row(row: DockerDiskUsageRow, v: JsonView) -> bool {
    &&& first_rendered(v, seq!["Type"@]) == Some(row.resource_type@)
    &&& row.total_count@ == rendered_or_dash(v, seq!["TotalCount"@, "Total"@])
    &&& row.active_count@ == rendered_or_dash(v, seq!["ActiveCount"@, "Active"@])
    &&& row.size@ == rendered_or_dash(v, seq!["Size"@])
    &&& row.reclaimable@ == rendered_or_dash(v, seq!["Reclaimable"@])
}

fn rendered_or_dash_of(value: &JsonValue, keys: &[&str]) -> (r: String)
    ensures
        r@ == rendered_or_dash(value.view(), crate::command::str_views(keys@)),
{
    match docker_json_string_any(value, keys) {
        Some(t) => t,
        None => owned("-"),
    }
}

/// The rows of `docker system df --format {{json .}}`; a row without a type
/// fails the whole report.
pub fn parse_docker_disk_usage(stdout: &str) -> (r: Result<Vec<DockerDiskUsageRow>, String>)
    ensures
        match json_lines_fold(lines(stdout@)) {
            Err(t) => r matches Err(m) && exists|e: Seq<char>| m@ == e + ": "@ + t,
            Ok(vs) => if forall|i: int| 0 <= i < vs.len() ==> #[trigger] first_rendered(vs[i], seq!["Type"@]) is Some {
                r matches Ok(rows) && rows@.len() == vs.len() && forall|i: int|
                    0 <= i < vs.len() ==> docker_df_row(#[trigger] rows@[i], vs[i])
            } else {
                r matches Err(m) && m@ == "docker system df row is missing Type"@
            },
        },
{
    let values = parse_json_lines(stdout)?;
    let ghost vs = json_values_view(values@);
    assert(json_lines_fold(lines(stdout@)) == Ok::<Seq<JsonView>, Seq<char>>(vs));
    let mut rows: Vec<DockerDiskUsageRow> = Vec::new();
    let mut i: usize = 0;
    while i < values.len()
        invariant
            i <= values@.len(),
            vs == json_values_view(values@),
            vs.len() == values@.len(),
            rows@.len() == i,
            forall|k: int| 0 <= k < i ==> docker_df_row(#[trigger] rows@[k], vs[k]),
            forall|k: int| 0 <= k < i ==> #[trigger] first_rendered(vs[k], seq!["Type"@]) is Some,
            json_lines_fold(lines(stdout@)) == Ok::<Seq<JsonView>, Seq<char>>(vs),
        decreases values@.len() - i,
    {
        let value = &values[i];
        assert(vs[i as int] == value.view());
        assert(crate::command::str_views(["Type"]@) == seq!["Type"@]);
        assert(crate::command::str_views(["TotalCount", "Total"]@) == seq!["TotalCount"@, "Total"@]);
        assert(crate::command::str_views(["ActiveCount", "Active"]@) == seq!["ActiveCount"@, "Active"@]);
        assert(crate::command::str_views(["Size"]@) == seq!["Size"@]);
        assert(crate::command::str_views(["Reclaimable"]@) == seq!["Reclaimable"@]);
        let resource_type = match docker_json_string_any(value, &["Type"]) {
            Some(t) => t,
            None => {
                assert(first_rendered(vs[i as int], seq!["Type"@]) is None);
                assert(!(forall|k: int| 0 <= k < vs.len() ==> #[trigger] first_rendered(vs[k], seq!["Type"@]) is Some));
                assert(json_lines_fold(lines(stdout@)) == Ok::<Seq<JsonView>, Seq<char>>(vs));
                return Err(owned("docker system df row is missing Type"));
            },
        };
        let row = DockerDiskUsageRow {
            resource_type,
            total_count: rendered_or_dash_of(value, &["TotalCount", "Total"]),
            active_count: rendered_or_dash_of(value, &["ActiveCount", "Active"]),
            size: rendered_or_dash_of(value, &["Size"]),
            reclaimable: rendered_or_dash_of(value, &["Reclaimable"]),
        };
        rows.push(row);
        i = i + 1;
    }
    Ok(rows)
}

/// `p` occurs in `s` at `i`.
pub open spec fn occurs_at(s: Seq<char>, p: Seq<char>, i: int) -> bool {
    0 <= i && i + p.len() <= s.len() && s.subrange(i, i + p.len()) == p
}

pub open spec fn is_last_occurrence(s: Seq<char>, p: Seq<char>, i: int) -> bool {
    occurs_at(s, p, i) && forall|j: int| i < j ==> !#[trigger] occurs_at(s, p, j)
}

/// What follows the last occurrence of `p` in `s` (`str::rsplit_once`).
pub open spec fn after_last(s: Seq<char>, p: Seq<char>) -> Option<Seq<char>> {
    if exists|i: int| is_last_occurrence(s, p, i) {
        let i = choose|i: int| is_last_occurrence(s, p, i);
        Some(s.subrange(i + p.len(), s.len() as int))
    } else {
        None
    }
}

/// What follows the last occurrence of `p` in `s`.
pub fn rsplit_after(s: &str, p: &str) -> (r: Option<String>)
    ensures
        crate::text::opt_view(r) == after_last(s@, p@),
{
    let cs = chars_of(s);
    let ps = chars_of(p);
    if ps.len() > cs.len() {
        assert(!exists|i: int| is_last_occurrence(s@, p@, i));
        return None;
    }
    let last: usize = cs.len() - ps.len();
    let mut i: u128 = last as u128 + 1;
    while i > 0
        invariant
            ps.len() <= cs.len(),
            last == cs.len() - ps.len(),
            i <= last + 1,
            cs@ == s@,
            ps@ == p@,
            forall|j: int| i <= j ==> !#[trigger] occurs_at(s@, p@, j),
        decreases i,
    {
        let k: usize = (i - 1) as usize;
        let hit = crate::text::range_starts_with(&cs, k, cs.len(), &ps);
        assert(cs@.subrange(k as int, cs@.len() as int).subrange(0, ps@.len() as int) =~= cs@.subrange(
            k as int,
            k + ps@.len(),
        ));
        if hit {
            assert(is_last_occurrence(s@, p@, k as int));
            proof {
                let c = choose|c: int| is_last_occurrence(s@, p@, c);
                if c < k {
                    assert(occurs_at(s@, p@, k as int));
                }
                if c > k {
                    assert(!occurs_at(s@, p@, c));
                }
            }
            return Some(string_from(&cs, k + ps.len(), cs.len()));
        }
        i = i - 1;
    }
    assert(!exists|c: int| is_last_occurrence(s@, p@, c)) by {
        if exists|c: int| is_last_occurrence(s@, p@, c) {
            let c = choose|c: int| is_last_occurrence(s@, p@, c);
            assert(occurs_at(s@, p@, c));
        }
    }
    None
}

/// The actions Docker offers for a row, from position `n` of its actions
/// on: `inspect` and `rm` for an image or a volume by name; `container
/// inspect` by the ID in the source for a container, and `container rm` only
/// when it is stopped.
pub open spec fn docker_actions_from(row: PackageRow, n: int) -> bool {
    match row.kind {
        PackageKind::DockerImage => row.actions@.len() == n + 2 && envelope_is(
            row.actions@[n],
            "docker"@,
            seq!["image"@, "inspect"@, row.name@],
            0,
        ) && envelope_is(row.actions@[n + 1], "docker"@, seq!["image"@, "rm"@, row.name@], 0),
        PackageKind::DockerVolume => row.actions@.len() == n + 2 && envelope_is(
            row.actions@[n],
            "docker"@,
            seq!["volume"@, "inspect"@, row.name@],
            0,
        ) && envelope_is(row.actions@[n + 1], "docker"@, seq!["volume"@, "rm"@, row.name@], 0),
        PackageKind::DockerContainer => match after_last(row.source@, "container "@) {
            None => row.actions@.len() == n,
            Some(id) => envelope_is(row.actions@[n], "docker"@, seq!["container"@, "inspect"@, id], 0)
                && if row.signals@.contains(PackageSignal::Stopped) {
                row.actions@.len() == n + 2 && envelope_is(
                    row.actions@[n + 1],
                    "docker"@,
                    seq!["container"@, "rm"@, id],
                    0,
                )
            } else {
                row.actions@.len() == n + 1
            },
        },
        _ => row.actions@.len() == n,
    }
}

/// The row after Docker's actions were added to those it had.
pub open spec fn docker_actions_appended(old: PackageRow, new: PackageRow) -> bool {
    let n = old.actions@.len();
    &&& new.name == old.name
    &&& new.version == old.version
    &&& new.path == old.path
    &&& new.source == old.source
    &&& new.kind == old.kind
    &&& new.signals == old.signals
    &&& new.actions@.subrange(0, n as int) == old.actions@
    &&& docker_actions_from(new, n as int)
}

fn attach_docker_row_actions(row: &mut PackageRow)
    ensures
        docker_actions_appended(*old(row), *final(row)),
{
    let ghost before = row.actions@;
    match row.kind {
        PackageKind::DockerImage => {
            let a = args3("image", "inspect", row.name.as_str());
            let b = args3("image", "rm", row.name.as_str());
            row.actions.push(envelope_owned("docker", a, 0));
            row.actions.push(envelope_owned("docker", b, 0));
        },
        PackageKind::DockerVolume => {
            let a = args3("volume", "inspect", row.name.as_str());
            let b = args3("volume", "rm", row.name.as_str());
            row.actions.push(envelope_owned("docker", a, 0));
            row.actions.push(envelope_owned("docker", b, 0));
        },
        PackageKind::DockerContainer => {
            match rsplit_after(row.source.as_str(), "container ") {
                Some(id) => {
                    let a = args3("container", "inspect", id.as_str());
                    row.actions.push(envelope_owned("docker", a, 0));
                    if has_signal(&row.signals, PackageSignal::Stopped) {
                        let b = args3("container", "rm", id.as_str());
                        row.actions.push(envelope_owned("docker", b, 0));
                    }
                },
                None => {},
            }
        },
        _ => {},
    }
    assert(row.actions@.subrange(0, before.len() as int) =~= before);
}

/// Adds Docker's actions to every row.
pub fn attach_docker_actions(rows: &mut Vec<PackageRow>)
    ensures
        final(rows)@.len() == old(rows)@.len(),
        forall|i: int|
            0 <= i < old(rows)@.len() ==> docker_actions_appended(
                #[trigger] old(rows)@[i],
                final(rows)@[i],
            ),
{
    let ghost before = rows@;
    let mut i: usize = 0;
    while i < rows.len()
        invariant
            i <= rows@.len(),
            rows@.len() == before.len(),
            forall|k: int| 0 <= k < i ==> docker_actions_appended(#[trigger] before[k], rows@[k]),
            forall|k: int| i <= k < rows@.len() ==> #[trigger] rows@[k] == before[k],
        decreases rows@.len() - i,
    {
        let mut row = rows.remove(i);
        attach_docker_row_actions(&mut row);
        rows.insert(i, row);
        i = i + 1;
    }
}

/// Adds `docker image inspect` and `docker image rm` to image rows.
pub fn attach_docker_image_actions(rows: &mut Vec<PackageRow>)
    ensures
        final(rows)@.len() == old(rows)@.len(),
        forall|i: int|
            0 <= i < old(rows)@.len() ==> docker_actions_appended(
                #[trigger] old(rows)@[i],
                final(rows)@[i],
            ),
{
    attach_docker_actions(rows)
}

/// Adds `docker container inspect` (and `rm` when stopped) to container rows.
pub fn attach_docker_container_actions(rows: &mut Vec<PackageRow>)
    ensures
        final(rows)@.len() == old(rows)@.len(),
        forall|i: int|
            0 <= i < old(rows)@.len() ==> docker_actions_appended(
                #[trigger] old(rows)@[i],
                final(rows)@[i],
            ),
{
    attach_docker_actions(rows)
}

/// Adds `docker volume inspect` and `docker volume rm` to volume rows.
pub fn attach_docker_volume_actions(rows: &mut Vec<PackageRow>)
    ensures
        final(rows)@.len() == old(rows)@.len(),
        forall|i: int|
            0 <= i < old(rows)@.len() ==> docker_actions_appended(
                #[trigger] old(rows)@[i],
                final(rows)@[i],
            ),
{
    attach_docker_actions(rows)
}

/// The Docker directories under the home directory: its config, buildx and
/// Docker Desktop's data; none without a home.
pub open spec fn docker_paths(paths: Seq<crate::types::PathInfo>, home: Option<Seq<char>>) -> bool {
    match home {
        None => paths.len() == 0,
        Some(h) => {
            &&& paths.len() == 3
            &&& paths[0].kind == PathKind::DockerConfig && paths[0].label@ == "Docker config"@
                && paths[0].path@ == join_path(h, ".docker"@)
            &&& paths[1].kind == PathKind::DockerBuildx && paths[1].label@ == "Docker buildx"@
                && paths[1].path@ == join_path(h, ".docker/buildx"@)
            &&& paths[2].kind == PathKind::DockerDesktopData && paths[2].label@
                == "Docker Desktop data"@ && paths[2].path@ == join_path(
                h,
                "Library/Containers/com.docker.docker/Data"@,
            )
        },
    }
}

/// Adds the Docker directories under the home directory.
pub fn push_docker_paths(snapshot: &mut ManagerSnapshot, home: Option<&str>)
    requires
        old(snapshot).paths@.len() == 0,
    ensures
        docker_paths(final(snapshot).paths@, crate::cargo::opt_str_view(home)),
        final(snapshot).id == old(snapshot).id,
        final(snapshot).label == old(snapshot).label,
        final(snapshot).status == old(snapshot).status,
        final(snapshot).version == old(snapshot).version,
        final(snapshot).packages == old(snapshot).packages,
        final(snapshot).commands == old(snapshot).commands,
        final(snapshot).failures == old(snapshot).failures,
        final(snapshot).unsupported_reason == old(snapshot).unsupported_reason,
        final(snapshot).homebrew == old(snapshot).homebrew,
        final(snapshot).maven == old(snapshot).maven,
        final(snapshot).pip == old(snapshot).pip,
        final(snapshot).docker == old(snapshot).docker,
{
    if let Some(h) = home {
        snapshot.paths.push(path_info("Docker config", PathKind::DockerConfig, join(h, ".docker")));
        snapshot.paths.push(path_info("Docker buildx", PathKind::DockerBuildx, join(h, ".docker/buildx")));
        snapshot.paths.push(
            path_info(
                "Docker Desktop data",
                PathKind::DockerDesktopData,
                join(h, "Library/Containers/com.docker.docker/Data"),
            ),
        );
    }
}

/// The commands a Docker scan offers, none of which prunes everything: the
/// verbose disk usage, and the prunes of week-old images, of the build
/// cache, of unused volumes, and of the system (each asking before it acts).
pub open spec fn docker_offered(c: Seq<crate::types::CommandEnvelope>) -> bool {
    &&& c.len() >= 5
    &&& envelope_is(c[0], "docker"@, seq!["system"@, "df"@, "-v"@], 20000)
    &&& envelope_is(c[1], "docker"@, seq!["image"@, "prune"@, "--all"@, "--filter"@, "until=168h"@], 0)
    &&& envelope_is(c[2], "docker"@, seq!["builder"@, "prune"@], 0)
    &&& envelope_is(c[3], "docker"@, seq!["volume"@, "prune"@], 0)
    &&& envelope_is(c[4], "docker"@, seq!["system"@, "prune"@], 0)
}

/// Adds the commands a Docker scan offers.
pub fn push_docker_commands(snapshot: &mut ManagerSnapshot)
    requires
        old(snapshot).commands@.len() == 0,
    ensures
        final(snapshot).commands@.len() == 5,
        docker_offered(final(snapshot).commands@),
        crate::command::same_but_log(*old(snapshot), *final(snapshot)),
        final(snapshot).failures == old(snapshot).failures,
{
    snapshot.commands.push(envelope("docker", &["system", "df", "-v"], 20_000));
    snapshot.commands.push(envelope("docker", &["image", "prune", "--all", "--filter", "until=168h"], 0));
    snapshot.commands.push(envelope("docker", &["builder", "prune"], 0));
    snapshot.commands.push(envelope("docker", &["volume", "prune"], 0));
    snapshot.commands.push(envelope("docker", &["system", "prune"], 0));
    assert(str_views(["system", "df", "-v"]@) == seq!["system"@, "df"@, "-v"@]);
    assert(str_views(["image", "prune", "--all", "--filter", "until=168h"]@) == seq!["image"@, "prune"@, "--all"@, "--filter"@, "until=168h"@]);
    assert(str_views(["builder", "prune"]@) == seq!["builder"@, "prune"@]);
    assert(str_views(["volume", "prune"]@) == seq!["volume"@, "prune"@]);
    assert(str_views(["system", "prune"]@) == seq!["system"@, "prune"@]);
}

/// The number of rows that carry `signal`.
pub open spec fn count_with(rows: Seq<PackageRow>, signal: PackageSignal) -> nat
    decreases rows.len(),
{
    if rows.len() == 0 {
        0
    } else {
        count_with(rows.drop_last(), signal) + if rows.last().signals@.contains(signal) {
            1nat
        } else {
            0nat
        }
    }
}

/// The number of rows that carry `signal`.
pub fn count_signal(rows: &Vec<PackageRow>, signal: PackageSignal) -> (r: usize)
    ensures
        r == count_with(rows@, signal),
{
    let mut r: usize = 0;
    let mut i: usize = 0;
    while i < rows.len()
        invariant
            i <= rows@.len(),
            r <= i,
            r == count_with(rows@.subrange(0, i as int), signal),
        decreases rows@.len() - i,
    {
        assert(rows@.subrange(0, i + 1).drop_last() == rows@.subrange(0, i as int));
        if has_signal(&rows[i].signals, signal) {
            r = r + 1;
        }
        i = i + 1;
    }
    assert(rows@.subrange(0, rows@.len() as int) == rows@);
    r
}

pub open spec fn docker_list_args(i: int) -> Seq<Seq<char>> {
    if i == 0 {
        seq!["image"@, "ls"@, "--all"@, "--format"@, "{{json .}}"@, "--digests"@]
    } else if i == 1 {
        seq!["container"@, "ls"@, "--all"@, "--format"@, "{{json .}}"@]
    } else if i == 2 {
        seq!["volume"@, "ls"@, "--format"@, "{{json .}}"@]
    } else {
        seq!["system"@, "df"@, "--format"@, "{{json .}}"@]
    }
}

/// The read-only commands a Docker scan may run, with their budgets in
/// seconds.
pub open spec fn docker_scan_command(program: Seq<char>, args: Seq<Seq<char>>, timeout: u64) -> bool {
    &&& program == "docker"@
    &&& {
        ||| args == seq!["--version"@] && timeout == 5
        ||| args == docker_list_args(0) && timeout == 15
        ||| args == docker_list_args(1) && timeout == 15
        ||| args == docker_list_args(2) && timeout == 15
        ||| args == docker_list_args(3) && timeout == 20
    }
}

/// `docker --version` answered with a clean exit.
pub open spec fn docker_version_clean<F: Fn(&str, &[String], u64) -> Result<CommandRun, CommandFailure>>(runner: F) -> bool {
    exists|run: CommandRun|
        #[trigger] crate::command::answered_run(runner, "docker"@, seq!["--version"@], 5, Ok::<CommandRun, CommandFailure>(run))
            && run.exit_code == Some(0i32)
}

/// The runner may be asked `docker --version`, and, once that answered with
/// a clean exit, the other read-only commands of a Docker scan.
pub open spec fn docker_runner_admits<F: Fn(&str, &[String], u64) -> Result<CommandRun, CommandFailure>>(runner: F) -> bool {
    &&& forall|p: &str, a: &[String], t: u64|
        p@ == "docker"@ && views(a@) == seq!["--version"@] && t == 5 ==> #[trigger] runner.requires((p, a, t))
    &&& forall|p: &str, a: &[String], t: u64|
        docker_scan_command(p@, views(a@), t) && docker_version_clean(runner) ==> #[trigger] runner.requires((p, a, t))
}

/// A row of a Docker scan with the actions Docker offers for it.
pub open spec fn docker_row_reported(row: PackageRow) -> bool {
    &&& row.kind == PackageKind::DockerImage || row.kind == PackageKind::DockerContainer || row.kind
        == PackageKind::DockerVolume
    &&& docker_actions_from(row, 0)
}

/// The resource summary of a scan whose rows are `images`, `containers` and
/// `volumes`.
pub open spec fn docker_counts(
    h: DockerResourceHealth,
    images: Seq<PackageRow>,
    containers: Seq<PackageRow>,
    volumes: Seq<PackageRow>,
) -> bool {
    &&& h.image_count == images.len()
    &&& h.container_count == containers.len()
    &&& h.running_container_count == count_with(containers, PackageSignal::Running)
    &&& h.volume_count == volumes.len()
    &&& h.dangling_image_count == count_with(images, PackageSignal::Dangling)
    &&& h.unused_image_count == count_with(images, PackageSignal::Unused)
}

/// `row` is what line value `v` of a Docker list describes: an image, a
/// container or a volume row for list `which`.
pub open spec fn docker_kind_row(which: int, row: PackageRow, v: JsonView) -> bool {
    if which == 0 {
        docker_image_row(row, v)
    } else if which == 1 {
        docker_container_row(row, v)
    } else {
        docker_volume_row(row, v)
    }
}

/// The rows of Docker list `which`: on a clean exit whose lines all parse as
/// JSON, one row per line, sorted by name; otherwise none.
pub open spec fn docker_listed<F: Fn(&str, &[String], u64) -> Result<CommandRun, CommandFailure>>(
    runner: F,
    which: int,
    rows: Seq<PackageRow>,
) -> bool {
    exists|out: Result<CommandRun, CommandFailure>|
        #[trigger] answered_run(runner, "docker"@, docker_list_args(which), 15, out) && match out {
            Ok(run) => if run.exit_code == Some(0i32) {
                match json_lines_fold(lines(run.stdout@)) {
                    Ok(vs) => exists|u: Seq<PackageRow>|
                        #[trigger] sorted_by_name(u) == rows && u.len() == vs.len() && forall|i: int|
                            0 <= i < u.len() ==> docker_kind_row(which, #[trigger] u[i], vs[i]),
                    Err(_) => rows.len() == 0,
                }
            } else {
                rows.len() == 0
            },
            Err(_) => rows.len() == 0,
        }
}

/// The rows of Docker list `which` as a scan reports them: the listed rows,
/// each with the actions Docker offers for it.
pub open spec fn docker_rows_reported<F: Fn(&str, &[String], u64) -> Result<CommandRun, CommandFailure>>(
    runner: F,
    which: int,
    rows: Seq<PackageRow>,
) -> bool {
    exists|listed: Seq<PackageRow>|
        #[trigger] docker_listed(runner, which, listed) && rows.len() == listed.len() && forall|k: int|
            0 <= k < rows.len() ==> docker_actions_appended(listed[k], #[trigger] rows[k])
}

pub open spec fn docker_list_message(which: int) -> Seq<char> {
    if which == 0 {
        "Docker image list failed"@
    } else if which == 1 {
        "Docker container list failed"@
    } else {
        "Docker volume list failed"@
    }
}

/// The failures went from `before` to `after` by the answer to the
/// `which`-th list, whose clean output is refused when a line is not JSON.
pub open spec fn docker_list_grew<F: Fn(&str, &[String], u64) -> Result<CommandRun, CommandFailure>>(
    runner: F,
    which: int,
    before: Seq<CommandFailure>,
    after: Seq<CommandFailure>,
) -> bool {
    &&& crate::command::extends(before, after)
    &&& exists|out: Result<CommandRun, CommandFailure>|
        #[trigger] answered_run(runner, "docker"@, docker_list_args(which), 15, out) && crate::command::parsed_adds(
            out,
            docker_list_message(which),
            crate::command::clean_exit(out) && json_lines_fold(lines(out->Ok_0.stdout@)) is Err,
            crate::command::added_since(before, after),
        )
}

/// `docker system df` output that the report refuses: a line that is not
/// JSON, or a row without a type.
pub open spec fn docker_df_refused(stdout: Seq<char>) -> bool {
    match json_lines_fold(lines(stdout)) {
        Err(_) => true,
        Ok(vs) => !(forall|i: int| 0 <= i < vs.len() ==> #[trigger] first_rendered(vs[i], seq!["Type"@]) is Some),
    }
}

/// The failures went from `before` to `after` by the answer to
/// `docker system df`.
pub open spec fn docker_df_grew<F: Fn(&str, &[String], u64) -> Result<CommandRun, CommandFailure>>(
    runner: F,
    before: Seq<CommandFailure>,
    after: Seq<CommandFailure>,
) -> bool {
    &&& crate::command::extends(before, after)
    &&& exists|out: Result<CommandRun, CommandFailure>|
        #[trigger] answered_run(runner, "docker"@, docker_list_args(3), 20, out) && crate::command::parsed_adds(
            out,
            "Docker disk usage failed"@,
            crate::command::clean_exit(out) && docker_df_refused(out->Ok_0.stdout@),
            crate::command::added_since(before, after),
        )
}

fn docker_list<F>(
    snapshot: &mut ManagerSnapshot,
    runner: &F,
    which: usize,
) -> (r: Vec<PackageRow>) where F: Fn(&str, &[String], u64) -> Result<CommandRun, CommandFailure>
    requires
        which < 3,
        docker_runner_admits(*runner),
        docker_version_clean(*runner),
    ensures
        crate::command::same_but_log(*old(snapshot), *final(snapshot)),
        final(snapshot).commands@.len() == old(snapshot).commands@.len() + 1,
        final(snapshot).commands@.drop_last() == old(snapshot).commands@,
        envelope_is(final(snapshot).commands@.last(), "docker"@, docker_list_args(which as int), 15000),
        forall|k: int| 0 <= k < r@.len() ==> (#[trigger] r@[k]).actions@.len() == 0 && r@[k].kind == (if which == 0 {
            PackageKind::DockerImage
        } else if which == 1 {
            PackageKind::DockerContainer
        } else {
            PackageKind::DockerVolume
        }),
        docker_listed(*runner, which as int, r@),
        docker_list_grew(*runner, which as int, old(snapshot).failures@, final(snapshot).failures@),
{
    let (args, message): (&[&str], &str) = if which == 0 {
        (&["image", "ls", "--all", "--format", "{{json .}}", "--digests"], "Docker image list failed")
    } else if which == 1 {
        (&["container", "ls", "--all", "--format", "{{json .}}"], "Docker container list failed")
    } else {
        (&["volume", "ls", "--format", "{{json .}}"], "Docker volume list failed")
    };
    assert(str_views(args@) == docker_list_args(which as int));
    let ghost av = str_views(args@);
    let ghost f0 = snapshot.failures@;
    let recorded = run_recorded_command(snapshot, runner, "docker", args, 15, message);
    let ghost f1 = snapshot.failures@;
    let run = match recorded {
        Some(run) => run,
        None => {
            proof {
                let out = choose|out: Result<CommandRun, CommandFailure>|
                    #[trigger] answered_run(*runner, "docker"@, av, 15, out) && recorded_failure(f1.last(), out, message@);
                assert(answered_run(*runner, "docker"@, docker_list_args(which as int), 15, out));
                assert(crate::command::added_since(f0, f1) =~= seq![f1.last()]);
            }
            return Vec::new();
        },
    };
    assert(answered_run(*runner, "docker"@, docker_list_args(which as int), 15, Ok::<CommandRun, CommandFailure>(run)));
    let parsed = if which == 0 {
        parse_docker_images(run.stdout.as_str())
    } else if which == 1 {
        parse_docker_containers(run.stdout.as_str())
    } else {
        parse_docker_volumes(run.stdout.as_str())
    };
    match parsed {
        Ok(rows) => {
            proof {
                let vs = json_lines_fold(lines(run.stdout@))->Ok_0;
                let kind = if which == 0 {
                    PackageKind::DockerImage
                } else if which == 1 {
                    PackageKind::DockerContainer
                } else {
                    PackageKind::DockerVolume
                };
                if which == 0 {
                    let u = choose|u: Seq<PackageRow>|
                        rows@ == sorted_by_name(u) && u.len() == vs.len() && forall|i: int|
                            0 <= i < u.len() ==> docker_image_row(#[trigger] u[i], vs[i]);
                    assert forall|i: int| 0 <= i < u.len() implies (#[trigger] u[i]).actions@.len() == 0 && u[i].kind == kind by {
                        assert(docker_image_row(u[i], vs[i]));
                    }
                    assert forall|i: int| 0 <= i < u.len() implies docker_kind_row(which as int, #[trigger] u[i], vs[i]) by {
                        assert(docker_image_row(u[i], vs[i]));
                    }
                    assert(sorted_by_name(u) == rows@);
                    lemma_sorted_all(u, |row: PackageRow| row.actions@.len() == 0 && row.kind == kind);
                } else if which == 1 {
                    let u = choose|u: Seq<PackageRow>|
                        rows@ == sorted_by_name(u) && u.len() == vs.len() && forall|i: int|
                            0 <= i < u.len() ==> docker_container_row(#[trigger] u[i], vs[i]);
                    assert forall|i: int| 0 <= i < u.len() implies (#[trigger] u[i]).actions@.len() == 0 && u[i].kind == kind by {
                        assert(docker_container_row(u[i], vs[i]));
                    }
                    assert forall|i: int| 0 <= i < u.len() implies docker_kind_row(which as int, #[trigger] u[i], vs[i]) by {
                        assert(docker_container_row(u[i], vs[i]));
                    }
                    assert(sorted_by_name(u) == rows@);
                    lemma_sorted_all(u, |row: PackageRow| row.actions@.len() == 0 && row.kind == kind);
                } else {
                    let u = choose|u: Seq<PackageRow>|
                        rows@ == sorted_by_name(u) && u.len() == vs.len() && forall|i: int|
                            0 <= i < u.len() ==> docker_volume_row(#[trigger] u[i], vs[i]);
                    assert forall|i: int| 0 <= i < u.len() implies (#[trigger] u[i]).actions@.len() == 0 && u[i].kind == kind by {
                        assert(docker_volume_row(u[i], vs[i]));
                    }
                    assert forall|i: int| 0 <= i < u.len() implies docker_kind_row(which as int, #[trigger] u[i], vs[i]) by {
                        assert(docker_volume_row(u[i], vs[i]));
                    }
                    assert(sorted_by_name(u) == rows@);
                    lemma_sorted_all(u, |row: PackageRow| row.actions@.len() == 0 && row.kind == kind);
                }
            }
            assert(crate::command::added_since(f0, snapshot.failures@) =~= Seq::<CommandFailure>::empty());
            rows
        },
        Err(message) => {
            snapshot.failures.push(parse_failure(message, run));
            assert(crate::command::added_since(f0, snapshot.failures@) =~= seq![snapshot.failures@.last()]);
            assert(snapshot.failures@.subrange(0, f0.len() as int) =~= f0);
            Vec::new()
        },
    }
}

/// Scans Docker: its directories under `home` and the commands it offers
/// are reported even when Docker is absent; with Docker, its version, its
/// images, containers and volumes with their actions, the resource summary
/// and the disk usage report. Nothing else is probed once
/// `docker --version` fails.
#[verifier::rlimit(40)]
pub fn scan_docker_with_runner_and_home<F>(runner: &F, home: Option<&str>) -> (r: ManagerSnapshot) where
    F: Fn(&str, &[String], u64) -> Result<CommandRun, CommandFailure>,

    requires
        docker_runner_admits(*runner),
    ensures
        r.id == ManagerId::Docker,
        r.label@ == "Docker"@,
        r.status == finished_status(r),
        docker_paths(r.paths@, crate::cargo::opt_str_view(home)),
        docker_offered(r.commands@),
        r.commands@.len() >= 6,
        envelope_is(r.commands@[5], "docker"@, seq!["--version"@], 5000),
        r.version is None ==> r.commands@.len() == 6 && r.packages@.len() == 0 && r.docker is None
            && r.failures@.len() == 1 && exists|out: Result<CommandRun, CommandFailure>|
            #[trigger] answered_run(*runner, "docker"@, seq!["--version"@], 5, out)
                && recorded_failure(r.failures@[0], out, "Docker version probe failed"@),
        r.version matches Some(v) ==> {
            &&& exists|run: CommandRun|
                #[trigger] answered_run(*runner, "docker"@, seq!["--version"@], 5, Ok(run))
                    && run.exit_code == Some(0i32) && v@ == docker_version_spec(run.stdout@)
            &&& r.commands@.len() == 10
            &&& envelope_is(r.commands@[6], "docker"@, docker_list_args(0), 15000)
            &&& envelope_is(r.commands@[7], "docker"@, docker_list_args(1), 15000)
            &&& envelope_is(r.commands@[8], "docker"@, docker_list_args(2), 15000)
            &&& envelope_is(r.commands@[9], "docker"@, docker_list_args(3), 20000)
            &&& r.docker matches Some(h) && exists|
                images: Seq<PackageRow>,
                containers: Seq<PackageRow>,
                volumes: Seq<PackageRow>,
            |
                #![trigger docker_counts(h, images, containers, volumes)]
                r.packages@ == images + containers + volumes && docker_counts(
                    h,
                    images,
                    containers,
                    volumes,
                ) && (forall|k: int| 0 <= k < images.len() ==> (#[trigger] images[k]).kind
                    == PackageKind::DockerImage) && (forall|k: int|
                    0 <= k < containers.len() ==> (#[trigger] containers[k]).kind
                        == PackageKind::DockerContainer) && (forall|k: int|
                    0 <= k < volumes.len() ==> (#[trigger] volumes[k]).kind
                        == PackageKind::DockerVolume) && docker_rows_reported(*runner, 0, images)
                    && docker_rows_reported(*runner, 1, containers) && docker_rows_reported(*runner, 2, volumes)
            &&& r.docker->0.disk_usage_status == AsyncStatus::Ready || (r.docker->0.disk_usage_status
                == AsyncStatus::Failed && r.docker->0.disk_usage_message is Some)
            &&& exists|f1: Seq<CommandFailure>, f2: Seq<CommandFailure>, f3: Seq<CommandFailure>|
                #![trigger docker_list_grew(*runner, 1, f1, f2), docker_list_grew(*runner, 2, f2, f3)]
                docker_list_grew(*runner, 0, Seq::<CommandFailure>::empty(), f1) && docker_list_grew(*runner, 1, f1, f2)
                    && docker_list_grew(*runner, 2, f2, f3) && docker_df_grew(*runner, f3, r.failures@)
        },
        forall|k: int| 0 <= k < r.packages@.len() ==> docker_row_reported(#[trigger] r.packages@[k]),
        r.homebrew is None && r.maven is None && r.pip is None,
{
    let mut snapshot = empty_snapshot(ManagerId::Docker, "Docker");
    push_docker_paths(&mut snapshot, home);
    push_docker_commands(&mut snapshot);
    let ghost c0 = snapshot.commands@;
    assert(str_views(["--version"]@) == seq!["--version"@]);
    let version_run = match run_recorded_command(
        &mut snapshot,
        runner,
        "docker",
        &["--version"],
        5,
        "Docker version probe failed",
    ) {
        Some(run) => run,
        None => {
            proof { lemma_log_extends(c0, snapshot.commands@); }
            return finish(snapshot);
        },
    };
    proof { lemma_log_extends(c0, snapshot.commands@); }
    snapshot.version = Some(parse_docker_version(version_run.stdout.as_str()));
    assert(snapshot.failures@ =~= Seq::<CommandFailure>::empty());
    let ghost c1 = snapshot.commands@;
    let mut images = docker_list(&mut snapshot, runner, 0);
    let ghost f1 = snapshot.failures@;
    proof { lemma_log_extends(c1, snapshot.commands@); }
    let ghost c2 = snapshot.commands@;
    let mut containers = docker_list(&mut snapshot, runner, 1);
    let ghost f2 = snapshot.failures@;
    proof { lemma_log_extends(c2, snapshot.commands@); }
    let ghost c3 = snapshot.commands@;
    let mut volumes = docker_list(&mut snapshot, runner, 2);
    let ghost f3 = snapshot.failures@;
    proof { lemma_log_extends(c3, snapshot.commands@); }
    let ghost c4 = snapshot.commands@;
    assert(str_views(["system", "df", "--format", "{{json .}}"]@) == docker_list_args(3));
    let mut disk_usage: Vec<DockerDiskUsageRow> = Vec::new();
    let mut disk_usage_status = AsyncStatus::Ready;
    let mut disk_usage_message: Option<String> = None;
    match run_recorded_command(
        &mut snapshot,
        runner,
        "docker",
        &["system", "df", "--format", "{{json .}}"],
        20,
        "Docker disk usage failed",
    ) {
        Some(run) => {
            assert(answered_run(*runner, "docker"@, docker_list_args(3), 20, Ok::<CommandRun, CommandFailure>(run)));
            assert(snapshot.failures@ == f3);
            match parse_docker_disk_usage(run.stdout.as_str()) {
                Ok(rows) => {
                    disk_usage = rows;
                    assert(crate::command::added_since(f3, snapshot.failures@) =~= Seq::<CommandFailure>::empty());
                    assert(snapshot.failures@.subrange(0, f3.len() as int) =~= f3);
                },
                Err(message) => {
                    disk_usage_status = AsyncStatus::Failed;
                    disk_usage_message = Some(message.clone());
                    snapshot.failures.push(parse_failure(message, run));
                    assert(crate::command::added_since(f3, snapshot.failures@) =~= seq![snapshot.failures@.last()]);
                    assert(snapshot.failures@.subrange(0, f3.len() as int) =~= f3);
                },
            }
        },
        None => {
            disk_usage_status = AsyncStatus::Failed;
            disk_usage_message = Some(owned("Docker disk usage failed"));
            proof {
                let out = choose|out: Result<CommandRun, CommandFailure>|
                    #[trigger] answered_run(*runner, "docker"@, docker_list_args(3), 20, out)
                        && recorded_failure(snapshot.failures@.last(), out, "Docker disk usage failed"@);
                assert(answered_run(*runner, "docker"@, docker_list_args(3), 20, out));
                assert(crate::command::added_since(f3, snapshot.failures@) =~= seq![snapshot.failures@.last()]);
            }
        },
    }
    assert(docker_df_grew(*runner, f3, snapshot.failures@));
    proof { lemma_log_extends(c4, snapshot.commands@); }
    let ghost pi = images@;
    let ghost pc = containers@;
    let ghost pv = volumes@;
    attach_docker_image_actions(&mut images);
    attach_docker_container_actions(&mut containers);
    attach_docker_volume_actions(&mut volumes);
    assert forall|k: int| 0 <= k < images@.len() implies docker_row_reported(#[trigger] images@[k]) && images@[k].kind == PackageKind::DockerImage by {
        assert(docker_actions_appended(pi[k], images@[k]));
    }
    assert forall|k: int| 0 <= k < containers@.len() implies docker_row_reported(#[trigger] containers@[k]) && containers@[k].kind == PackageKind::DockerContainer by {
        assert(docker_actions_appended(pc[k], containers@[k]));
    }
    assert forall|k: int| 0 <= k < volumes@.len() implies docker_row_reported(#[trigger] volumes@[k]) && volumes@[k].kind == PackageKind::DockerVolume by {
        assert(docker_actions_appended(pv[k], volumes@[k]));
    }
    let image_count = images.len();
    let container_count = containers.len();
    let running_container_count = count_signal(&containers, PackageSignal::Running);
    let volume_count = volumes.len();
    let dangling_image_count = count_signal(&images, PackageSignal::Dangling);
    let unused_image_count = count_signal(&images, PackageSignal::Unused);
    let ghost fi = images@;
    let ghost fc = containers@;
    let ghost fv = volumes@;
    assert(docker_listed(*runner, 0, pi));
    assert(docker_listed(*runner, 1, pc));
    assert(docker_listed(*runner, 2, pv));
    assert forall|k: int| 0 <= k < fi.len() implies docker_actions_appended(pi[k], #[trigger] fi[k]) by {
        assert(docker_actions_appended(pi[k], fi[k]));
    }
    assert forall|k: int| 0 <= k < fc.len() implies docker_actions_appended(pc[k], #[trigger] fc[k]) by {
        assert(docker_actions_appended(pc[k], fc[k]));
    }
    assert forall|k: int| 0 <= k < fv.len() implies docker_actions_appended(pv[k], #[trigger] fv[k]) by {
        assert(docker_actions_appended(pv[k], fv[k]));
    }
    assert(docker_rows_reported(*runner, 0, fi));
    assert(docker_rows_reported(*runner, 1, fc));
    assert(docker_rows_reported(*runner, 2, fv));
    snapshot.packages.append(&mut images);
    snapshot.packages.append(&mut containers);
    snapshot.packages.append(&mut volumes);
    assert(snapshot.packages@ =~= fi + fc + fv);
    let health = DockerResourceHealth {
        image_count,
        container_count,
        running_container_count,
        volume_count,
        dangling_image_count,
        unused_image_count,
        disk_usage,
        disk_usage_status,
        disk_usage_message,
    };
    assert(docker_counts(health, fi, fc, fv));
    snapshot.docker = Some(health);
    assert forall|k: int| 0 <= k < snapshot.packages@.len() implies docker_row_reported(#[trigger] snapshot.packages@[k]) by {
        if k < fi.len() {
            assert(snapshot.packages@[k] == fi[k]);
        } else if k < fi.len() + fc.len() {
            assert(snapshot.packages@[k] == fc[k - fi.len()]);
        } else {
            assert(snapshot.packages@[k] == fv[k - fi.len() - fc.len()]);
        }
    }
    finish(snapshot)
}

} // verus!
