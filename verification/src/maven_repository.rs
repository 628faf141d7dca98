//! The local Maven repository: which directories hold one version of one
//! artifact, when the walk over it stops, and what the version directories
//! found add up to (rows per artifact, duplicates, snapshots).
use crate::path::{components, path_components, starts_with_path};
use crate::scan_support::{
    contains_text, dedup_texts, insert_text_sorted, str_le, lemma_text_le_antisymmetric, lemma_text_le_reflexive, lemma_text_le_total,
    lemma_text_le_transitive, sorted_texts, text_le,
};
use crate::text::{
    ascii_upper, ascii_uppercase, chars_of, str_contains, contains_seq, ends_with, joined, last_index, lemma_last_index_is, owned,
    push_str, range_starts_with, str_eq, string_from, views,
};
use crate::command::{copy_strings, envelope_is};
use crate::maven::{attach_maven_actions, maven_version_summary, version_summary_spec};
use crate::scan_support::{package_row, push_signal, sort_rows_by_name, sorted_by_name, unknown_text};
use crate::text::{opt_view, starts_with};
use crate::types::{
    CommandEnvelope, MavenDuplicateArtifact, MavenRepositoryHealth, PackageKind, PackageRow,
    PackageSignal, RepositoryScanStatus,
};
use vstd::prelude::*;

verus! {

/// How long and how far the walk over a repository may go, and how many
/// rows its summary keeps.
#[derive(Debug, Clone, Copy)]
pub struct MavenScanLimits {
    pub max_scan_ms: u64,
    pub max_version_dirs: usize,
    pub max_rows_returned: usize,
}

impl Default for MavenScanLimits {
    fn default() -> (r: Self)
        ensures
            r.max_scan_ms == 5000,
            r.max_version_dirs == 100000,
            r.max_rows_returned == 2000,
    {
        MavenScanLimits { max_scan_ms: 5000, max_version_dirs: 100000, max_rows_returned: 2000 }
    }
}

pub open spec fn time_limit_message() -> Seq<char> {
    "Repository scan reached time limit"@
}

pub open spec fn dir_limit_message() -> Seq<char> {
    "Repository scan reached version directory limit"@
}

pub open spec fn row_limit_message() -> Seq<char> {
    "Repository scan reached row limit"@
}

/// Whether the walk stops before its next directory, and why: the time
/// limit is looked at first, then the number of version directories.
pub fn maven_walk_limit(elapsed_ms: u64, scanned_version_dirs: usize, limits: &MavenScanLimits) -> (r:
    Option<String>)
    ensures
        (r is None) == (elapsed_ms < limits.max_scan_ms && scanned_version_dirs
            < limits.max_version_dirs),
        elapsed_ms >= limits.max_scan_ms ==> (r matches Some(m) && m@ == time_limit_message()),
        elapsed_ms < limits.max_scan_ms && scanned_version_dirs >= limits.max_version_dirs ==> (r matches Some(
            m,
        ) && m@ == dir_limit_message()),
{
    proof {
        reveal_strlit("Repository scan reached time limit");
        reveal_strlit("Repository scan reached version directory limit");
    }
    if elapsed_ms >= limits.max_scan_ms {
        Some(owned("Repository scan reached time limit"))
    } else if scanned_version_dirs >= limits.max_version_dirs {
        Some(owned("Repository scan reached version directory limit"))
    } else {
        None
    }
}

/// An extension that marks a version directory's files.
pub open spec fn marker_extension(e: Seq<char>) -> bool {
    e == "pom"@ || e == "jar"@ || e == "aar"@ || e == "module"@
}

/// A file name that marks a version directory: one ending in
/// `.lastUpdated`, or one whose extension (the text after its last dot, when
/// something stands before that dot) is `pom`, `jar`, `aar` or `module`.
pub open spec fn is_marker_name(name: Seq<char>) -> bool {
    ||| ends_with(name, ".lastUpdated"@)
    ||| {
        let k = last_index(name, '.');
        &&& k > 0
        &&& marker_extension(name.subrange(k + 1, name.len() as int))
    }
}

/// How many of the entries are files.
pub open spec fn file_count_of(entries: Seq<(String, bool)>) -> nat
    decreases entries.len(),
{
    if entries.len() == 0 {
        0
    } else {
        file_count_of(entries.drop_last()) + if entries.last().1 {
            1nat
        } else {
            0nat
        }
    }
}

pub open spec fn has_marker(entries: Seq<(String, bool)>) -> bool {
    exists|i: int| 0 <= i < entries.len() && is_marker_name(#[trigger] entries[i].0@)
}

/// The components of `path` after those of `root`, when `root` begins it.
pub open spec fn relative_parts(root: Seq<char>, path: Seq<char>) -> Option<Seq<Seq<char>>> {
    if crate::path::path_starts_with(path, root) {
        Some(components(path).subrange(components(root).len() as int, components(path).len() as int))
    } else {
        None
    }
}

/// A version directory `group/.../artifact/version` under the repository
/// root that holds a marker file: its group (the leading components joined
/// by dots), artifact, version and number of files.
pub open spec fn coordinate_spec(root: Seq<char>, path: Seq<char>, entries: Seq<(String, bool)>) -> Option<
    (Seq<char>, Seq<char>, Seq<char>, nat),
> {
    match relative_parts(root, path) {
        None => None,
        Some(parts) => if parts.len() < 3 || !has_marker(entries) {
            None
        } else {
            Some(
                (
                    joined(parts.subrange(0, parts.len() - 2), seq!['.']),
                    parts[parts.len() - 2],
                    parts[parts.len() - 1],
                    file_count_of(entries),
                ),
            )
        },
    }
}

/// Whether a file name marks a version directory.
pub fn is_marker_file_name(name: &str) -> (r: bool)
    ensures
        r == is_marker_name(name@),
{
    let cs = chars_of(name);
    let suffix = chars_of(".lastUpdated");
    proof {
        reveal_strlit(".lastUpdated");
    }
    if cs.len() >= suffix.len() && range_starts_with(&cs, cs.len() - suffix.len(), cs.len(), &suffix) {
        assert(cs@.subrange((cs@.len() - suffix@.len()) as int, cs@.len() as int).subrange(
            0,
            suffix@.len() as int,
        ) =~= cs@.subrange((cs@.len() - suffix@.len()) as int, cs@.len() as int));
        return true;
    }
    proof {
        if ends_with(cs@, ".lastUpdated"@) {
            assert(cs@.subrange((cs@.len() - suffix@.len()) as int, cs@.len() as int).subrange(
                0,
                suffix@.len() as int,
            ) =~= cs@.subrange((cs@.len() - suffix@.len()) as int, cs@.len() as int));
        }
    }
    let mut i = cs.len();
    while i > 0 && cs[i - 1] != '.'
        invariant
            i <= cs.len(),
            cs@ == name@,
            forall|j: int| i <= j < cs.len() ==> cs@[j] != '.',
        decreases i,
    {
        i = i - 1;
    }
    proof {
        if i > 0 {
            lemma_last_index_is(cs@, '.', (i - 1) as int);
        } else {
            lemma_last_index_is(cs@, '.', -1);
        }
    }
    if i > 1 {
        let ext = string_from(&cs, i, cs.len());
        str_eq(ext.as_str(), "pom") || str_eq(ext.as_str(), "jar") || str_eq(ext.as_str(), "aar")
            || str_eq(ext.as_str(), "module")
    } else {
        false
    }
}

/// The group, artifact, version and file count of a version directory, or
/// nothing when `path` is not one: it must lie at least three levels below
/// `root` and hold a marker file. `entries` are the directory's entries, by
/// name and whether each is a file.
pub fn maven_coordinate_from_version_dir(root: &str, path: &str, entries: &Vec<(String, bool)>) -> (r:
    Option<(String, String, String, usize)>)
    ensures
        match r {
            None => coordinate_spec(root@, path@, entries@) is None,
            Some(t) => coordinate_spec(root@, path@, entries@) == Some(
                (t.0@, t.1@, t.2@, t.3 as nat),
            ),
        },
{
    if !starts_with_path(path, root) {
        return None;
    }
    let all = path_components(path);
    let base = path_components(root);
    let ghost parts = components(path@).subrange(
        components(root@).len() as int,
        components(path@).len() as int,
    );
    if all.len() - base.len() < 3 {
        return None;
    }
    let mut files: usize = 0;
    let mut marker = false;
    let mut k: usize = 0;
    while k < entries.len()
        invariant
            k <= entries@.len(),
            files as nat == file_count_of(entries@.subrange(0, k as int)),
            files <= k,
            marker == exists|i: int| 0 <= i < k && is_marker_name(#[trigger] entries@[i].0@),
        decreases entries@.len() - k,
    {
        assert(entries@.subrange(0, k + 1).drop_last() == entries@.subrange(0, k as int));
        if entries[k].1 {
            files = files + 1;
        }
        if is_marker_file_name(entries[k].0.as_str()) {
            marker = true;
        }
        k = k + 1;
    }
    assert(entries@.subrange(0, entries@.len() as int) == entries@);
    if !marker {
        return None;
    }
    let n = all.len();
    let first = base.len();
    let mut group = all[first].clone();
    let mut g: usize = first + 1;
    assert(views(all@).subrange(first as int, first + 1) =~= seq![all@[first as int]@]);
    while g < n - 2
        invariant
            first < g <= n - 2,
            n == all@.len(),
            group@ == joined(views(all@).subrange(first as int, g as int), seq!['.']),
        decreases n - 2 - g,
    {
        push_str(&mut group, ".");
        push_str(&mut group, all[g].as_str());
        proof {
            reveal_strlit(".");
            let next = views(all@).subrange(first as int, g + 1);
            assert(next.drop_last() =~= views(all@).subrange(first as int, g as int));
            assert(next.last() == all@[g as int]@);
        }
        g = g + 1;
    }
    proof {
        assert(views(all@) == components(path@));
        assert(views(base@) == components(root@));
        assert(parts.subrange(0, parts.len() - 2) =~= views(all@).subrange(first as int, (n - 2) as int));
        assert(parts[parts.len() - 2] == all@[n - 2]@);
        assert(parts[parts.len() - 1] == all@[n - 1]@);
    }
    Some((group, all[n - 2].clone(), all[n - 1].clone(), files))
}

/// One version directory the walk found.
#[derive(Debug, Clone)]
pub struct MavenVersionDir {
    pub group_id: String,
    pub artifact_id: String,
    pub version: String,
    pub path: String,
}

/// What the walk over a repository found: its version directories in the
/// order met, how many it counted and skipped, and why it stopped early.
#[derive(Debug, Clone)]
pub struct MavenRepositoryWalk {
    pub version_dirs: Vec<MavenVersionDir>,
    pub scanned_version_dirs: usize,
    pub skipped: usize,
    pub message: Option<String>,
}

/// What is gathered of one artifact: its versions (sorted, each once), the
/// last version directory met, and how many snapshot directories it has.
#[derive(Debug, Clone)]
pub struct MavenArtifactAccumulator {
    pub group_id: String,
    pub artifact_id: String,
    pub versions: Vec<String>,
    pub path: String,
    pub snapshot_count: usize,
}

pub open spec fn dir_key(d: MavenVersionDir) -> (Seq<char>, Seq<char>) {
    (d.group_id@, d.artifact_id@)
}

pub open spec fn acc_key(a: MavenArtifactAccumulator) -> (Seq<char>, Seq<char>) {
    (a.group_id@, a.artifact_id@)
}

/// The order of `(group, artifact)` pairs: by group, then by artifact.
pub open spec fn key_lt(a: (Seq<char>, Seq<char>), b: (Seq<char>, Seq<char>)) -> bool {
    !text_le(b.0, a.0) || (a.0 == b.0 && !text_le(b.1, a.1))
}

/// The version directories of one artifact, in the order met.
pub open spec fn dirs_with_key(ds: Seq<MavenVersionDir>, k: (Seq<char>, Seq<char>)) -> Seq<
    MavenVersionDir,
>
    decreases ds.len(),
{
    if ds.len() == 0 {
        seq![]
    } else {
        let p = dirs_with_key(ds.drop_last(), k);
        if dir_key(ds.last()) == k {
            p.push(ds.last())
        } else {
            p
        }
    }
}

pub open spec fn version_texts(ds: Seq<MavenVersionDir>) -> Seq<Seq<char>> {
    ds.map_values(|d: MavenVersionDir| d.version@)
}

/// A snapshot version: `SNAPSHOT` in it, whatever the case of its ASCII letters.
pub open spec fn is_snapshot_version(v: Seq<char>) -> bool {
    contains_seq(ascii_upper(v), "SNAPSHOT"@)
}

/// How many of the directories hold a snapshot version.
pub open spec fn snapshot_dirs(ds: Seq<MavenVersionDir>) -> nat
    decreases ds.len(),
{
    if ds.len() == 0 {
        0
    } else {
        snapshot_dirs(ds.drop_last()) + if is_snapshot_version(ds.last().version@) {
            1nat
        } else {
            0nat
        }
    }
}

/// An artifact's distinct versions, sorted.
pub open spec fn artifact_versions(ds: Seq<MavenVersionDir>, k: (Seq<char>, Seq<char>)) -> Seq<
    Seq<char>,
> {
    sorted_texts(dedup_texts(version_texts(dirs_with_key(ds, k))))
}

pub open spec fn artifact_snapshots(ds: Seq<MavenVersionDir>, k: (Seq<char>, Seq<char>)) -> nat {
    snapshot_dirs(dirs_with_key(ds, k))
}

/// The last version directory met of an artifact.
pub open spec fn artifact_path(ds: Seq<MavenVersionDir>, k: (Seq<char>, Seq<char>)) -> Seq<char> {
    dirs_with_key(ds, k).last().path@
}

/// `keys` are the artifacts of the directories, each once, in order.
pub open spec fn artifact_keys(ds: Seq<MavenVersionDir>, keys: Seq<(Seq<char>, Seq<char>)>) -> bool {
    &&& forall|i: int, j: int| 0 <= i < j < keys.len() ==> key_lt(#[trigger] keys[i], #[trigger] keys[j])
    &&& forall|i: int| 0 <= i < keys.len() ==> #[trigger] dirs_with_key(ds, keys[i]).len() > 0
    &&& forall|d: int| 0 <= d < ds.len() ==> keys.contains(dir_key(#[trigger] ds[d]))
}

pub open spec fn acc_keys(accs: Seq<MavenArtifactAccumulator>) -> Seq<(Seq<char>, Seq<char>)> {
    accs.map_values(|a: MavenArtifactAccumulator| acc_key(a))
}

/// What an accumulator holds is what the directories say of its artifact.
pub open spec fn acc_matches(a: MavenArtifactAccumulator, ds: Seq<MavenVersionDir>) -> bool {
    &&& views(a.versions@) == artifact_versions(ds, acc_key(a))
    &&& a.path@ == artifact_path(ds, acc_key(a))
    &&& a.snapshot_count == artifact_snapshots(ds, acc_key(a))
}

pub open spec fn sum_of(s: Seq<nat>) -> nat
    decreases s.len(),
{
    if s.len() == 0 {
        0
    } else {
        sum_of(s.drop_last()) + s.last()
    }
}

pub open spec fn version_lens(accs: Seq<MavenArtifactAccumulator>) -> Seq<nat> {
    accs.map_values(|a: MavenArtifactAccumulator| a.versions@.len())
}

pub open spec fn snapshot_lens(accs: Seq<MavenArtifactAccumulator>) -> Seq<nat> {
    accs.map_values(|a: MavenArtifactAccumulator| a.snapshot_count as nat)
}

pub proof fn lemma_sum_insert(s: Seq<nat>, p: int, x: nat)
    requires
        0 <= p <= s.len(),
    ensures
        sum_of(s.insert(p, x)) == sum_of(s) + x,
    decreases s.len(),
{
    if p < s.len() {
        lemma_sum_insert(s.drop_last(), p, x);
        assert(s.insert(p, x).drop_last() =~= s.drop_last().insert(p, x));
    } else {
        assert(s.insert(p, x) =~= s.push(x));
        assert(s.push(x).drop_last() =~= s);
    }
}

pub proof fn lemma_sum_update(s: Seq<nat>, p: int, x: nat)
    requires
        0 <= p < s.len(),
    ensures
        sum_of(s.update(p, x)) + s[p] == sum_of(s) + x,
    decreases s.len(),
{
    if p < s.len() - 1 {
        lemma_sum_update(s.drop_last(), p, x);
        assert(s.update(p, x).drop_last() =~= s.drop_last().update(p, x));
    } else {
        assert(s.update(p, x).drop_last() =~= s.drop_last());
    }
}

pub proof fn lemma_sum_prefix(s: Seq<nat>, i: int)
    requires
        0 <= i < s.len(),
    ensures
        sum_of(s.subrange(0, i + 1)) == sum_of(s.subrange(0, i)) + s[i],
        sum_of(s.subrange(0, i + 1)) <= sum_of(s),
    decreases s.len(),
{
    assert(s.subrange(0, i + 1).drop_last() =~= s.subrange(0, i));
    if i < s.len() - 1 {
        lemma_sum_prefix(s.drop_last(), i);
        assert(s.drop_last().subrange(0, i + 1) =~= s.subrange(0, i + 1));
    } else {
        assert(s.subrange(0, i + 1) =~= s);
    }
}

pub proof fn lemma_key_lt_trichotomy(a: (Seq<char>, Seq<char>), b: (Seq<char>, Seq<char>))
    ensures
        key_lt(a, b) || key_lt(b, a) || a == b,
        !(key_lt(a, b) && key_lt(b, a)),
        !key_lt(a, a),
{
    lemma_text_le_total(a.0, b.0);
    lemma_text_le_total(a.1, b.1);
    lemma_text_le_reflexive(a.0);
    lemma_text_le_reflexive(a.1);
    if text_le(a.0, b.0) && text_le(b.0, a.0) {
        lemma_text_le_antisymmetric(a.0, b.0);
        if text_le(a.1, b.1) && text_le(b.1, a.1) {
            lemma_text_le_antisymmetric(a.1, b.1);
        }
    }
}

pub proof fn lemma_key_lt_transitive(
    a: (Seq<char>, Seq<char>),
    b: (Seq<char>, Seq<char>),
    c: (Seq<char>, Seq<char>),
)
    requires
        key_lt(a, b),
        key_lt(b, c),
    ensures
        key_lt(a, c),
{
    lemma_text_le_total(a.0, b.0);
    lemma_text_le_total(b.0, c.0);
    lemma_text_le_total(a.0, c.0);
    lemma_text_le_total(a.1, b.1);
    lemma_text_le_total(b.1, c.1);
    lemma_text_le_total(a.1, c.1);
    if text_le(c.0, a.0) {
        // a.0 < b.0 or equal; b.0 < c.0 or equal
        if !text_le(b.0, a.0) {
            lemma_text_le_transitive(c.0, a.0, b.0);
        }
        if !text_le(c.0, b.0) && text_le(b.0, a.0) {
            lemma_text_le_transitive(c.0, a.0, b.0);
        }
        if a.0 == b.0 && b.0 == c.0 {
            if text_le(c.1, a.1) {
                if !text_le(b.1, a.1) {
                    lemma_text_le_transitive(c.1, a.1, b.1);
                }
            }
        }
    }
}

/// Without a directory of an artifact there is nothing of it.
pub proof fn lemma_dirs_with_key_absent(ds: Seq<MavenVersionDir>, k: (Seq<char>, Seq<char>))
    requires
        forall|d: int| 0 <= d < ds.len() ==> dir_key(#[trigger] ds[d]) != k,
    ensures
        dirs_with_key(ds, k).len() == 0,
    decreases ds.len(),
{
    if ds.len() > 0 {
        assert forall|d: int| 0 <= d < ds.drop_last().len() implies dir_key(#[trigger] ds.drop_last()[d])
            != k by {
            assert(ds.drop_last()[d] == ds[d]);
        }
        lemma_dirs_with_key_absent(ds.drop_last(), k);
        assert(dir_key(ds[ds.len() - 1]) != k);
    }
}

/// Whether the artifact `(g1, a1)` comes before `(g2, a2)`.
pub fn key_less(g1: &str, a1: &str, g2: &str, a2: &str) -> (r: bool)
    ensures
        r == key_lt((g1@, a1@), (g2@, a2@)),
{
    !str_le(g2, g1) || (str_eq(g1, g2) && !str_le(a2, a1))
}

/// Whether a version is a snapshot.
pub fn is_snapshot(version: &str) -> (r: bool)
    ensures
        r == is_snapshot_version(version@),
{
    let upper = ascii_uppercase(version);
    str_contains(upper.as_str(), "SNAPSHOT")
}

/// One more directory changes nothing of the other artifacts.
pub proof fn lemma_other_keys_unchanged(prefix: Seq<MavenVersionDir>, d: MavenVersionDir)
    ensures
        forall|k: (Seq<char>, Seq<char>)| k != dir_key(d) ==> #[trigger] dirs_with_key(prefix.push(d), k)
            == dirs_with_key(prefix, k),
        dirs_with_key(prefix.push(d), dir_key(d)) == dirs_with_key(prefix, dir_key(d)).push(d),
{
    assert(prefix.push(d).drop_last() =~= prefix);
}

/// The accumulator of an artifact met for the first time.
fn new_accumulator(d: &MavenVersionDir, Ghost(prefix): Ghost<Seq<MavenVersionDir>>) -> (acc:
    MavenArtifactAccumulator)
    requires
        dirs_with_key(prefix, dir_key(*d)).len() == 0,
    ensures
        acc_key(acc) == dir_key(*d),
        acc_matches(acc, prefix.push(*d)),
        acc.versions@.len() == 1,
        acc.snapshot_count <= 1,
{
    let snap = is_snapshot(d.version.as_str());
    let mut versions: Vec<String> = Vec::new();
    versions.push(d.version.clone());
    let acc = MavenArtifactAccumulator {
        group_id: d.group_id.clone(),
        artifact_id: d.artifact_id.clone(),
        versions,
        path: d.path.clone(),
        snapshot_count: if snap {
            1
        } else {
            0
        },
    };
    proof {
        let v = d.version@;
        let e = Seq::<Seq<char>>::empty();
        lemma_other_keys_unchanged(prefix, *d);
        assert(dirs_with_key(prefix, dir_key(*d)) =~= Seq::<MavenVersionDir>::empty());
        let mine = dirs_with_key(prefix.push(*d), dir_key(*d));
        assert(mine =~= seq![*d]);
        assert(mine.drop_last() =~= Seq::<MavenVersionDir>::empty());
        assert(mine.last() == *d);
        assert(snapshot_dirs(mine.drop_last()) == 0);
        assert(snapshot_dirs(mine) == if snap { 1nat } else { 0nat });
        assert(version_texts(mine) =~= seq![v]);
        assert(seq![v].drop_last() =~= e);
        assert(!e.contains(v));
        assert(dedup_texts(e) =~= e);
        assert(seq![v].last() == v);
        assert(dedup_texts(seq![v]) =~= e.push(v));
        assert(e.push(v) =~= seq![v]);
        assert(crate::scan_support::text_position(e, v) == 0);
        assert(sorted_texts(e) =~= e);
        assert(sorted_texts(seq![v]) == sorted_texts(e).insert(crate::scan_support::text_position(sorted_texts(e), v), v));
        assert(sorted_texts(seq![v]) =~= e.insert(0, v));
        assert(e.insert(0, v) =~= seq![v]);
        assert(views(acc.versions@) =~= seq![v]);
    }
    acc
}

/// The accumulator of an artifact after one more of its directories.
fn extend_accumulator(
    acc: &mut MavenArtifactAccumulator,
    d: &MavenVersionDir,
    Ghost(prefix): Ghost<Seq<MavenVersionDir>>,
)
    requires
        acc_key(*old(acc)) == dir_key(*d),
        acc_matches(*old(acc), prefix),
        old(acc).snapshot_count < usize::MAX,
    ensures
        acc_key(*final(acc)) == dir_key(*d),
        acc_matches(*final(acc), prefix.push(*d)),
        final(acc).versions@.len() <= old(acc).versions@.len() + 1,
        final(acc).snapshot_count <= old(acc).snapshot_count + 1,
{
    let ghost k = dir_key(*d);
    let ghost vs = version_texts(dirs_with_key(prefix, k));
    let ghost v = d.version@;
    proof {
        lemma_other_keys_unchanged(prefix, *d);
        let mine = dirs_with_key(prefix, k).push(*d);
        assert(mine.drop_last() =~= dirs_with_key(prefix, k));
        assert(version_texts(mine) =~= vs.push(v));
        assert(vs.push(v).drop_last() =~= vs);
        crate::scan_support::lemma_sorted_texts_contains(dedup_texts(vs), v);
        crate::scan_support::lemma_dedup_texts_contains(vs, v);
        assert(dedup_texts(vs).push(v).drop_last() =~= dedup_texts(vs));
    }
    if !contains_text(&acc.versions, d.version.as_str()) {
        let ghost prev = views(acc.versions@);
        proof {
            crate::scan_support::lemma_text_position_bounds(prev, v);
        }
        insert_text_sorted(&mut acc.versions, d.version.clone());
        assert(views(acc.versions@).len() == prev.len() + 1);
    }
    if is_snapshot(d.version.as_str()) {
        acc.snapshot_count = acc.snapshot_count + 1;
    }
    acc.path = d.path.clone();
}

/// Putting a key where it belongs keeps keys in order.
pub proof fn lemma_insert_key(keys: Seq<(Seq<char>, Seq<char>)>, p: int, k: (Seq<char>, Seq<char>))
    requires
        0 <= p <= keys.len(),
        forall|i: int, j: int| 0 <= i < j < keys.len() ==> key_lt(#[trigger] keys[i], #[trigger] keys[j]),
        forall|j: int| 0 <= j < p ==> key_lt(#[trigger] keys[j], k),
        p < keys.len() ==> key_lt(k, keys[p]),
    ensures
        forall|i: int, j: int| 0 <= i < j < keys.insert(p, k).len() ==> key_lt(
            #[trigger] keys.insert(p, k)[i],
            #[trigger] keys.insert(p, k)[j],
        ),
{
    let nk = keys.insert(p, k);
    assert forall|a: int, b: int| 0 <= a < b < nk.len() implies key_lt(#[trigger] nk[a], #[trigger] nk[b]) by {
        if b < p {
            assert(nk[a] == keys[a] && nk[b] == keys[b]);
        } else if b == p {
            assert(nk[a] == keys[a]);
        } else if a == p {
            assert(nk[b] == keys[b - 1]);
            if b - 1 > p {
                lemma_key_lt_transitive(k, keys[p], keys[b - 1]);
            }
        } else if a < p {
            assert(nk[a] == keys[a]);
            assert(nk[b] == keys[b - 1]);
            if b - 1 > p {
                lemma_key_lt_transitive(k, keys[p], keys[b - 1]);
            }
            lemma_key_lt_transitive(keys[a], k, keys[b - 1]);
        } else {
            assert(nk[a] == keys[a - 1]);
            assert(nk[b] == keys[b - 1]);
        }
    }
}

/// Where an artifact's accumulator is, or belongs: after every artifact
/// before it.
fn find_position(accs: &Vec<MavenArtifactAccumulator>, d: &MavenVersionDir) -> (p: usize)
    ensures
        p <= accs@.len(),
        forall|j: int| 0 <= j < p ==> key_lt(#[trigger] acc_keys(accs@)[j], dir_key(*d)),
        p < accs@.len() ==> !key_lt(acc_keys(accs@)[p as int], dir_key(*d)),
{
    let ghost keys = acc_keys(accs@);
    let mut p: usize = 0;
    loop
        invariant
            p <= accs@.len(),
            keys == acc_keys(accs@),
            forall|j: int| 0 <= j < p ==> key_lt(#[trigger] keys[j], dir_key(*d)),
        ensures
            p <= accs@.len(),
            forall|j: int| 0 <= j < p ==> key_lt(#[trigger] keys[j], dir_key(*d)),
            p < accs@.len() ==> !key_lt(keys[p as int], dir_key(*d)),
        decreases accs@.len() - p,
    {
        if p >= accs.len() {
            break;
        }
        assert(keys[p as int] == acc_key(accs@[p as int]));
        let lt = key_less(
            accs[p].group_id.as_str(),
            accs[p].artifact_id.as_str(),
            d.group_id.as_str(),
            d.artifact_id.as_str(),
        );
        if !lt {
            break;
        }
        p = p + 1;
    }
    p
}

/// The accumulators match the directories so far.
pub open spec fn accumulated(accs: Seq<MavenArtifactAccumulator>, ds: Seq<MavenVersionDir>) -> bool {
    &&& artifact_keys(ds, acc_keys(accs))
    &&& forall|j: int| 0 <= j < accs.len() ==> acc_matches(#[trigger] accs[j], ds)
    &&& sum_of(version_lens(accs)) <= ds.len()
    &&& sum_of(snapshot_lens(accs)) <= ds.len()
}

/// Gathers the version directories by artifact, in the order of artifacts.
pub fn accumulate_maven_artifacts(dirs: &Vec<MavenVersionDir>) -> (accs: Vec<MavenArtifactAccumulator>)
    ensures
        accumulated(accs@, dirs@),
{
    let mut accs: Vec<MavenArtifactAccumulator> = Vec::new();
    let mut i: usize = 0;
    assert(version_lens(accs@) =~= Seq::<nat>::empty());
    assert(snapshot_lens(accs@) =~= Seq::<nat>::empty());
    while i < dirs.len()
        invariant
            i <= dirs@.len(),
            accumulated(accs@, dirs@.subrange(0, i as int)),
        decreases dirs@.len() - i,
    {
        let ghost prefix = dirs@.subrange(0, i as int);
        let ghost next = dirs@.subrange(0, i + 1);
        let ghost keys = acc_keys(accs@);
        let ghost old_accs = accs@;
        let d = &dirs[i];
        let ghost kd = dir_key(*d);
        assert(next =~= prefix.push(*d));
        proof {
            lemma_other_keys_unchanged(prefix, *d);
        }
        let p = find_position(&accs, d);
        if p < accs.len() && str_eq(accs[p].group_id.as_str(), d.group_id.as_str()) && str_eq(
            accs[p].artifact_id.as_str(),
            d.artifact_id.as_str(),
        ) {
            assert(keys[p as int] == kd);
            let mut acc = accs.remove(p);
            proof {
                assert(acc == old_accs[p as int]);
                lemma_sum_update(snapshot_lens(old_accs), p as int, 0);
            }
            extend_accumulator(&mut acc, d, Ghost(prefix));
            let ghost upd = acc;
            accs.insert(p, acc);
            proof {
                assert(accs@ =~= old_accs.update(p as int, upd));
                assert(acc_keys(accs@) =~= keys);
                assert forall|j: int| 0 <= j < accs@.len() implies acc_matches(#[trigger] accs@[j], next) by {
                    if j != p {
                        assert(accs@[j] == old_accs[j]);
                        assert(acc_key(old_accs[j]) == keys[j]);
                        lemma_key_lt_trichotomy(keys[j], kd);
                        if keys[j] == kd {
                            if j < p {
                                assert(key_lt(keys[j], keys[p as int]));
                            } else {
                                assert(key_lt(keys[p as int], keys[j]));
                            }
                        }
                    }
                }
                assert(version_lens(accs@) =~= version_lens(old_accs).update(p as int, upd.versions@.len()));
                lemma_sum_update(version_lens(old_accs), p as int, upd.versions@.len());
                assert(snapshot_lens(accs@) =~= snapshot_lens(old_accs).update(p as int, upd.snapshot_count as nat));
                lemma_sum_update(snapshot_lens(old_accs), p as int, upd.snapshot_count as nat);
                assert forall|j: int| 0 <= j < keys.len() implies #[trigger] dirs_with_key(next, keys[j]).len() > 0 by {
                    if keys[j] != kd {
                        assert(dirs_with_key(prefix, keys[j]).len() > 0);
                    }
                }
                assert forall|m: int| 0 <= m < next.len() implies keys.contains(dir_key(#[trigger] next[m])) by {
                    if m < i {
                        assert(next[m] == prefix[m]);
                    } else {
                        assert(keys[p as int] == kd);
                    }
                }
            }
        } else {
            proof {
                if p < accs@.len() {
                    lemma_key_lt_trichotomy(keys[p as int], kd);
                }
                assert forall|m: int| 0 <= m < prefix.len() implies dir_key(#[trigger] prefix[m]) != kd by {
                    if dir_key(prefix[m]) == kd {
                        let q = choose|q: int| 0 <= q < keys.len() && keys[q] == kd;
                        lemma_key_lt_trichotomy(kd, kd);
                        if q < p {
                        } else if q > p {
                            lemma_key_lt_transitive(kd, keys[p as int], keys[q]);
                        }
                    }
                }
                lemma_dirs_with_key_absent(prefix, kd);
                lemma_insert_key(keys, p as int, kd);
            }
            let acc = new_accumulator(d, Ghost(prefix));
            accs.insert(p, acc);
            proof {
                let nk = acc_keys(accs@);
                assert(nk =~= keys.insert(p as int, kd));
                assert forall|j: int| 0 <= j < accs@.len() implies acc_matches(#[trigger] accs@[j], next) by {
                    if j < p {
                        assert(accs@[j] == old_accs[j]);
                        assert(acc_key(old_accs[j]) == keys[j]);
                        lemma_key_lt_trichotomy(keys[j], kd);
                    } else if j > p {
                        assert(accs@[j] == old_accs[j - 1]);
                        assert(acc_key(old_accs[j - 1]) == keys[j - 1]);
                        assert(nk[j] == keys[j - 1]);
                        assert(key_lt(nk[p as int], nk[j]));
                        lemma_key_lt_trichotomy(kd, keys[j - 1]);
                    }
                }
                assert forall|j: int| 0 <= j < nk.len() implies #[trigger] dirs_with_key(next, nk[j]).len() > 0 by {
                    if j < p {
                        assert(nk[j] == keys[j]);
                        lemma_key_lt_trichotomy(keys[j], kd);
                        assert(dirs_with_key(prefix, keys[j]).len() > 0);
                    } else if j > p {
                        assert(nk[j] == keys[j - 1]);
                        assert(key_lt(nk[p as int], nk[j]));
                        lemma_key_lt_trichotomy(kd, keys[j - 1]);
                        assert(dirs_with_key(prefix, keys[j - 1]).len() > 0);
                    }
                }
                assert forall|m: int| 0 <= m < next.len() implies nk.contains(dir_key(#[trigger] next[m])) by {
                    if m < i {
                        assert(next[m] == prefix[m]);
                        let q = choose|q: int| 0 <= q < keys.len() && keys[q] == dir_key(prefix[m]);
                        if q < p {
                            assert(nk[q] == keys[q]);
                        } else {
                            assert(nk[q + 1] == keys[q]);
                        }
                    } else {
                        assert(nk[p as int] == kd);
                    }
                }
                assert(version_lens(accs@) =~= version_lens(old_accs).insert(p as int, 1));
                lemma_sum_insert(version_lens(old_accs), p as int, 1);
                assert(snapshot_lens(accs@) =~= snapshot_lens(old_accs).insert(p as int, acc.snapshot_count as nat));
                lemma_sum_insert(snapshot_lens(old_accs), p as int, acc.snapshot_count as nat);
            }
        }
        i = i + 1;
    }
    assert(dirs@.subrange(0, dirs@.len() as int) =~= dirs@);
    accs
}

/// What a repository summary holds.
#[derive(Debug, Clone)]
pub struct MavenRepositoryScan {
    pub packages: Vec<PackageRow>,
    pub health: MavenRepositoryHealth,
}

pub open spec fn coordinate_text(k: (Seq<char>, Seq<char>)) -> Seq<char> {
    k.0 + ":"@ + k.1
}

/// The actions of an artifact row: `dependency:get` of its one known
/// version (not when the version is unknown or several), then
/// `dependency:tree` restricted to it.
pub open spec fn maven_actions_spec(actions: Seq<CommandEnvelope>, version: Seq<char>, coordinate: Seq<char>) -> bool {
    let tree = seq!["dependency:tree"@, "-Dincludes="@ + coordinate];
    if version != unknown_text() && !starts_with(version, "multiple "@) {
        &&& actions.len() == 2
        &&& envelope_is(
            actions[0],
            "mvn"@,
            seq!["dependency:get"@, "-Dartifact="@ + coordinate + ":"@ + version],
            0,
        )
        &&& envelope_is(actions[1], "mvn"@, tree, 0)
    } else {
        &&& actions.len() == 1
        &&& envelope_is(actions[0], "mvn"@, tree, 0)
    }
}

/// The row of one artifact: named `group:artifact`, its versions summed
/// up, its last version directory, flagged when it has several versions or
/// a snapshot, with Maven's actions for it.
pub open spec fn artifact_row(row: PackageRow, ds: Seq<MavenVersionDir>, k: (Seq<char>, Seq<char>)) -> bool {
    let versions = artifact_versions(ds, k);
    &&& row.name@ == coordinate_text(k)
    &&& row.version@ == version_summary_spec(versions)
    &&& opt_view(row.path) == Some(artifact_path(ds, k))
    &&& row.source@ == "maven local repository scan"@
    &&& row.kind == PackageKind::MavenArtifact
    &&& row.signals@ == (if versions.len() > 1 {
        seq![PackageSignal::DuplicateVersions]
    } else {
        seq![]
    }) + (if artifact_snapshots(ds, k) > 0 {
        seq![PackageSignal::Snapshot]
    } else {
        seq![]
    })
    &&& maven_actions_spec(row.actions@, row.version@, coordinate_text(k))
}

pub open spec fn dup_view(a: MavenDuplicateArtifact) -> (Seq<char>, nat, Seq<Seq<char>>) {
    (a.coordinate@, a.version_count as nat, views(a.versions@))
}

pub open spec fn dup_views(s: Seq<MavenDuplicateArtifact>) -> Seq<(Seq<char>, nat, Seq<Seq<char>>)> {
    s.map_values(|a: MavenDuplicateArtifact| dup_view(a))
}

/// The artifacts with several versions, in the order of `keys`.
pub open spec fn dup_entries(ds: Seq<MavenVersionDir>, keys: Seq<(Seq<char>, Seq<char>)>) -> Seq<
    (Seq<char>, nat, Seq<Seq<char>>),
>
    decreases keys.len(),
{
    if keys.len() == 0 {
        seq![]
    } else {
        let prior = dup_entries(ds, keys.drop_last());
        let k = keys.last();
        let versions = artifact_versions(ds, k);
        if versions.len() > 1 {
            prior.push((coordinate_text(k), versions.len(), versions))
        } else {
            prior
        }
    }
}

/// The order of duplicates: more versions first, then by coordinate.
pub open spec fn dup_le(a: (Seq<char>, nat, Seq<Seq<char>>), b: (Seq<char>, nat, Seq<Seq<char>>)) -> bool {
    a.1 > b.1 || (a.1 == b.1 && text_le(a.0, b.0))
}

pub open spec fn dup_position(s: Seq<(Seq<char>, nat, Seq<Seq<char>>)>, x: (Seq<char>, nat, Seq<Seq<char>>)) -> int
    decreases s.len(),
{
    if s.len() == 0 {
        0
    } else if dup_le(s[0], x) {
        1 + dup_position(s.drop_first(), x)
    } else {
        0
    }
}

/// The duplicates stably sorted: more versions first, then by coordinate.
pub open spec fn sorted_dups(s: Seq<(Seq<char>, nat, Seq<Seq<char>>)>) -> Seq<(Seq<char>, nat, Seq<Seq<char>>)>
    decreases s.len(),
{
    if s.len() == 0 {
        seq![]
    } else {
        let t = sorted_dups(s.drop_last());
        t.insert(dup_position(t, s.last()), s.last())
    }
}

pub proof fn lemma_dup_position_bounds(s: Seq<(Seq<char>, nat, Seq<Seq<char>>)>, x: (Seq<char>, nat, Seq<Seq<char>>))
    ensures
        0 <= dup_position(s, x) <= s.len(),
    decreases s.len(),
{
    if s.len() > 0 && dup_le(s[0], x) {
        lemma_dup_position_bounds(s.drop_first(), x);
    }
}

pub proof fn lemma_sorted_dups_len(s: Seq<(Seq<char>, nat, Seq<Seq<char>>)>)
    ensures
        sorted_dups(s).len() == s.len(),
    decreases s.len(),
{
    if s.len() > 0 {
        lemma_sorted_dups_len(s.drop_last());
        lemma_dup_position_bounds(sorted_dups(s.drop_last()), s.last());
    }
}

/// Whether duplicate `a` stays before `b`.
fn dup_before(a: &MavenDuplicateArtifact, b: &MavenDuplicateArtifact) -> (r: bool)
    ensures
        r == dup_le(dup_view(*a), dup_view(*b)),
{
    a.version_count > b.version_count || (a.version_count == b.version_count && str_le(
        a.coordinate.as_str(),
        b.coordinate.as_str(),
    ))
}

/// Sorts duplicates: more versions first, then by coordinate, stably.
pub fn sort_duplicates(list: Vec<MavenDuplicateArtifact>) -> (r: Vec<MavenDuplicateArtifact>)
    ensures
        dup_views(r@) == sorted_dups(dup_views(list@)),
{
    let ghost all = dup_views(list@);
    let ghost original = list@;
    let n = list.len();
    let mut input = list;
    let mut out: Vec<MavenDuplicateArtifact> = Vec::new();
    let mut i: usize = 0;
    assert(all.subrange(0, 0) =~= Seq::<(Seq<char>, nat, Seq<Seq<char>>)>::empty());
    assert(dup_views(out@) =~= Seq::<(Seq<char>, nat, Seq<Seq<char>>)>::empty());
    while i < n
        invariant
            i <= n,
            n == original.len(),
            all == dup_views(original),
            input@ == original.subrange(i as int, n as int),
            dup_views(out@) == sorted_dups(all.subrange(0, i as int)),
        decreases n - i,
    {
        let x = input.remove(0);
        assert(x == original[i as int]);
        assert(input@ =~= original.subrange(i + 1, n as int));
        let ghost prev = dup_views(out@);
        proof {
            lemma_sorted_dups_len(all.subrange(0, i as int));
            lemma_dup_position_bounds(prev, dup_view(x));
            assert(prev.subrange(0, prev.len() as int) == prev);
        }
        let mut p: usize = 0;
        while p < out.len() && dup_before(&out[p], &x)
            invariant
                p <= out@.len(),
                dup_views(out@) == prev,
                dup_position(prev, dup_view(x)) == p + dup_position(prev.subrange(p as int, prev.len() as int), dup_view(x)),
            decreases out@.len() - p,
        {
            assert(prev.subrange(p as int, prev.len() as int).drop_first() == prev.subrange(p + 1, prev.len() as int));
            assert(prev.subrange(p as int, prev.len() as int)[0] == prev[p as int]);
            p = p + 1;
        }
        if p < out.len() {
            assert(prev.subrange(p as int, prev.len() as int)[0] == prev[p as int]);
        }
        assert(dup_position(prev.subrange(p as int, prev.len() as int), dup_view(x)) == 0);
        let ghost xv = dup_view(x);
        out.insert(p, x);
        assert(dup_views(out@) =~= prev.insert(p as int, xv));
        assert(all.subrange(0, i + 1).drop_last() == all.subrange(0, i as int));
        assert(all.subrange(0, i + 1).last() == xv);
        i = i + 1;
    }
    assert(all.subrange(0, n as int) == all);
    out
}

/// The row of an accumulated artifact, and its duplicate entry when it has
/// several versions.
fn artifact_row_of(acc: &MavenArtifactAccumulator, Ghost(ds): Ghost<Seq<MavenVersionDir>>) -> (r: (
    PackageRow,
    Option<MavenDuplicateArtifact>,
))
    requires
        acc_matches(*acc, ds),
    ensures
        artifact_row(r.0, ds, acc_key(*acc)),
        acc.versions@.len() > 1 ==> (r.1 matches Some(dup) && dup_view(dup) == (
            coordinate_text(acc_key(*acc)),
            artifact_versions(ds, acc_key(*acc)).len(),
            artifact_versions(ds, acc_key(*acc)),
        )),
        acc.versions@.len() <= 1 ==> r.1 is None,
{
    proof {
        reveal_strlit(":");
        reveal_strlit("maven local repository scan");
    }
    let mut name = owned(acc.group_id.as_str());
    push_str(&mut name, ":");
    push_str(&mut name, acc.artifact_id.as_str());
    let version = maven_version_summary(acc.versions.as_slice());
    let mut row = package_row(
        name,
        version,
        Some(acc.path.clone()),
        "maven local repository scan",
        PackageKind::MavenArtifact,
    );
    let ghost k = acc_key(*acc);
    assert(views(acc.versions@).len() == acc.versions@.len());
    let dup = if acc.versions.len() > 1 {
        push_signal(&mut row, PackageSignal::DuplicateVersions);
        assert(row.signals@ =~= seq![PackageSignal::DuplicateVersions]);
        let d = MavenDuplicateArtifact {
            coordinate: row.name.clone(),
            version_count: acc.versions.len(),
            versions: copy_strings(&acc.versions),
        };
        Some(d)
    } else {
        assert(row.signals@ =~= Seq::<PackageSignal>::empty());
        None
    };
    let ghost before_snap = row.signals@;
    if acc.snapshot_count > 0 {
        push_signal(&mut row, PackageSignal::Snapshot);
        assert(!before_snap.contains(PackageSignal::Snapshot)) by {
            if before_snap.contains(PackageSignal::Snapshot) {
                let j = choose|j: int| 0 <= j < before_snap.len() && before_snap[j] == PackageSignal::Snapshot;
            }
        }
    }
    assert(row.signals@ =~= before_snap + (if acc.snapshot_count > 0 {
        seq![PackageSignal::Snapshot]
    } else {
        seq![]
    }));
    let ghost plain = row;
    attach_maven_actions(&mut row, acc.group_id.as_str(), acc.artifact_id.as_str());
    assert(plain.actions@.len() == 0);
    assert(row.actions@.subrange(0, 0) =~= plain.actions@);
    (row, dup)
}

pub open spec fn versions_total(ds: Seq<MavenVersionDir>, keys: Seq<(Seq<char>, Seq<char>)>) -> nat {
    sum_of(keys.map_values(|k: (Seq<char>, Seq<char>)| artifact_versions(ds, k).len()))
}

pub open spec fn snapshots_total(ds: Seq<MavenVersionDir>, keys: Seq<(Seq<char>, Seq<char>)>) -> nat {
    sum_of(keys.map_values(|k: (Seq<char>, Seq<char>)| artifact_snapshots(ds, k)))
}

pub open spec fn min_of(a: int, b: int) -> int {
    if a <= b {
        a
    } else {
        b
    }
}

/// What a summary of the repository at `root` says of the directories the
/// walk found, whose artifacts are `keys`: one row per artifact, sorted by
/// name and cut to the row limit; the counts of artifacts, versions,
/// snapshot directories and artifacts with several versions; the ten
/// artifacts with the most versions; and why the summary is partial (the
/// row limit, else what stopped the walk).
pub open spec fn repository_summary(
    r: MavenRepositoryScan,
    root: Seq<char>,
    walk: MavenRepositoryWalk,
    max_rows: usize,
    keys: Seq<(Seq<char>, Seq<char>)>,
) -> bool {
    let ds = walk.version_dirs@;
    let dups = dup_entries(ds, keys);
    let top = sorted_dups(dups);
    let h = r.health;
    let status = h.repository_scan_status;
    let message = if keys.len() > max_rows {
        Some(row_limit_message())
    } else {
        opt_view(walk.message)
    };
    &&& exists|pre: Seq<PackageRow>|
        {
            &&& pre.len() == keys.len()
            &&& forall|i: int| 0 <= i < keys.len() ==> artifact_row(#[trigger] pre[i], ds, keys[i])
            &&& r.packages@ == sorted_by_name(pre).subrange(0, min_of(keys.len() as int, max_rows as int))
        }
    &&& h.local_repository@ == root
    &&& h.artifact_count == keys.len()
    &&& h.version_count == versions_total(ds, keys)
    &&& h.snapshot_count == snapshots_total(ds, keys)
    &&& h.duplicate_artifact_count == dups.len()
    &&& dup_views(h.top_duplicate_artifacts@) == top.subrange(0, min_of(top.len() as int, 10))
    &&& opt_view(status.message) == message
    &&& status.partial == (message is Some)
    &&& status.scanned_version_dirs == walk.scanned_version_dirs
    &&& status.skipped == walk.skipped
}

/// Sums up the version directories a walk over the repository at `root`
/// found: rows per artifact and the repository's health.
pub fn summarize_maven_repository(root: &str, walk: MavenRepositoryWalk, limits: &MavenScanLimits) -> (r:
    MavenRepositoryScan)
    ensures
        exists|keys: Seq<(Seq<char>, Seq<char>)>|
            artifact_keys(walk.version_dirs@, keys) && #[trigger] repository_summary(
                r,
                root@,
                walk,
                limits.max_rows_returned,
                keys,
            ),
{
    let ghost ds = walk.version_dirs@;
    let accs = accumulate_maven_artifacts(&walk.version_dirs);
    let ghost keys = acc_keys(accs@);
    let m = accs.len();
    let mut rows: Vec<PackageRow> = Vec::new();
    let mut dups: Vec<MavenDuplicateArtifact> = Vec::new();
    let mut version_count: usize = 0;
    let mut snapshot_count: usize = 0;
    let mut i: usize = 0;
    assert(keys.subrange(0, 0) =~= Seq::<(Seq<char>, Seq<char>)>::empty());
    assert(dup_views(dups@) =~= Seq::<(Seq<char>, nat, Seq<Seq<char>>)>::empty());
    assert(version_lens(accs@).subrange(0, 0) =~= Seq::<nat>::empty());
    assert(snapshot_lens(accs@).subrange(0, 0) =~= Seq::<nat>::empty());
    while i < m
        invariant
            i <= m,
            m == accs@.len(),
            ds == walk.version_dirs@,
            ds.len() <= usize::MAX,
            keys == acc_keys(accs@),
            accumulated(accs@, ds),
            rows@.len() == i,
            forall|j: int| 0 <= j < i ==> artifact_row(#[trigger] rows@[j], ds, keys[j]),
            dup_views(dups@) == dup_entries(ds, keys.subrange(0, i as int)),
            version_count == sum_of(version_lens(accs@).subrange(0, i as int)),
            snapshot_count == sum_of(snapshot_lens(accs@).subrange(0, i as int)),
        decreases m - i,
    {
        let acc = &accs[i];
        assert(acc_matches(accs@[i as int], ds));
        assert(acc_key(accs@[i as int]) == keys[i as int]);
        let (row, dup) = artifact_row_of(acc, Ghost(ds));
        proof {
            lemma_sum_prefix(version_lens(accs@), i as int);
            lemma_sum_prefix(snapshot_lens(accs@), i as int);
            assert(keys.subrange(0, i + 1).drop_last() =~= keys.subrange(0, i as int));
            assert(keys.subrange(0, i + 1).last() == keys[i as int]);
            assert(views(acc.versions@).len() == acc.versions@.len());
            assert(version_lens(accs@)[i as int] == accs@[i as int].versions@.len());
            assert(snapshot_lens(accs@)[i as int] == accs@[i as int].snapshot_count);
        }
        version_count = version_count + acc.versions.len();
        snapshot_count = snapshot_count + acc.snapshot_count;
        match dup {
            Some(entry) => {
                let ghost before = dup_views(dups@);
                dups.push(entry);
                assert(dup_views(dups@) =~= before.push(dup_view(entry)));
            },
            None => {},
        }
        rows.push(row);
        i = i + 1;
    }
    proof {
        assert(keys.subrange(0, m as int) =~= keys);
        assert(version_lens(accs@).subrange(0, m as int) =~= version_lens(accs@));
        assert(snapshot_lens(accs@).subrange(0, m as int) =~= snapshot_lens(accs@));
        assert(version_lens(accs@) =~= keys.map_values(|k: (Seq<char>, Seq<char>)| artifact_versions(ds, k).len())) by {
            assert forall|j: int| 0 <= j < m implies version_lens(accs@)[j] == artifact_versions(ds, keys[j]).len() by {
                assert(acc_matches(accs@[j], ds));
                assert(views(accs@[j].versions@).len() == accs@[j].versions@.len());
            }
        }
        assert(snapshot_lens(accs@) =~= keys.map_values(|k: (Seq<char>, Seq<char>)| artifact_snapshots(ds, k))) by {
            assert forall|j: int| 0 <= j < m implies snapshot_lens(accs@)[j] == artifact_snapshots(ds, keys[j]) by {
                assert(acc_matches(accs@[j], ds));
            }
        }
    }
    let ghost pre = rows@;
    let dup_count = dups.len();
    let mut packages = sort_rows_by_name(rows);
    proof {
        crate::scan_support::lemma_sorted_len(pre);
    }
    let mut message = walk.message;
    if packages.len() > limits.max_rows_returned {
        packages.truncate(limits.max_rows_returned);
        proof {
            reveal_strlit("Repository scan reached row limit");
        }
        message = Some(owned("Repository scan reached row limit"));
    } else {
        assert(sorted_by_name(pre).subrange(0, sorted_by_name(pre).len() as int) =~= sorted_by_name(pre));
    }
    let ghost dv = dup_views(dups@);
    let mut top = sort_duplicates(dups);
    proof {
        lemma_sorted_dups_len(dv);
        assert(dup_views(top@).len() == top@.len());
    }
    if top.len() > 10 {
        top.truncate(10);
        assert(dup_views(top@) =~= sorted_dups(dv).subrange(0, 10));
    } else {
        assert(sorted_dups(dv).subrange(0, sorted_dups(dv).len() as int) =~= sorted_dups(dv));
    }
    let partial = message.is_some();
    let r = MavenRepositoryScan {
        packages,
        health: MavenRepositoryHealth {
            local_repository: owned(root),
            artifact_count: m,
            version_count,
            snapshot_count,
            duplicate_artifact_count: dup_count,
            top_duplicate_artifacts: top,
            repository_scan_status: RepositoryScanStatus {
                partial,
                scanned_version_dirs: walk.scanned_version_dirs,
                skipped: walk.skipped,
                message,
            },
        },
    };
    assert(repository_summary(r, root@, walk, limits.max_rows_returned, keys));
    r
}

/// A summary keeps at most the row limit of rows, and is partial exactly
/// when rows were cut or the walk stopped early.
pub proof fn law_summary_respects_the_row_limit(
    r: MavenRepositoryScan,
    root: Seq<char>,
    walk: MavenRepositoryWalk,
    max_rows: usize,
    keys: Seq<(Seq<char>, Seq<char>)>,
)
    requires
        repository_summary(r, root, walk, max_rows, keys),
    ensures
        r.packages@.len() <= max_rows,
        r.packages@.len() <= keys.len(),
        r.health.repository_scan_status.partial == (keys.len() > max_rows || walk.message is Some),
        r.health.top_duplicate_artifacts@.len() <= 10,
{
    let pre = choose|pre: Seq<PackageRow>|
        {
            &&& pre.len() == keys.len()
            &&& forall|i: int| 0 <= i < keys.len() ==> artifact_row(#[trigger] pre[i], walk.version_dirs@, keys[i])
            &&& r.packages@ == sorted_by_name(pre).subrange(0, min_of(keys.len() as int, max_rows as int))
        };
    crate::scan_support::lemma_sorted_len(pre);
    lemma_sorted_dups_len(dup_entries(walk.version_dirs@, keys));
    assert(dup_views(r.health.top_duplicate_artifacts@).len() == r.health.top_duplicate_artifacts@.len());
}

/// Each artifact of the repository gets exactly one row before the cut:
/// the artifacts of a summary are distinct and cover every version
/// directory found.
pub proof fn law_each_artifact_is_counted_once(ds: Seq<MavenVersionDir>, keys: Seq<(Seq<char>, Seq<char>)>, i: int, j: int)
    requires
        artifact_keys(ds, keys),
        0 <= i < j < keys.len(),
    ensures
        keys[i] != keys[j],
{
    assert(key_lt(keys[i], keys[j]));
    lemma_key_lt_trichotomy(keys[i], keys[j]);
}

} // verus!
