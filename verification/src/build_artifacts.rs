//! Cargo build directories: the registry that authorizes one root, issues
//! scans and keeps their candidates, the bookkeeping of discovery and
//! measurement, and the guarded `cargo clean` of one candidate.
//!
//! Every file-system step (resolving a directory, inspecting a target,
//! measuring it) is handed in by the caller; the registry decides what may
//! happen with the answers.
use crate::command::{command_failure, envelope_is, envelope_owned};
use crate::path::{join, join_path};
use crate::text::{owned, push_str, str_eq, str_starts_with, views};
use crate::types::{CommandEnvelope, CommandFailure, CommandRun, FailureKind};
use vstd::prelude::*;

verus! {

pub const DEFAULT_MAX_DEPTH: u8 = 8;

pub const MAX_SCAN_DEPTH: u8 = 32;

pub const CLEAN_TIMEOUT_SECS: u64 = 300;

pub const MAX_REPORTED_SCAN_ERRORS: usize = 20;

#[derive(Debug, Clone)]
pub struct BuildArtifactSettings {
    pub root_id: Option<String>,
    pub root_path: Option<String>,
    pub max_depth: u8,
}

#[derive(Debug, Clone)]
pub struct BuildArtifactScan {
    pub root_id: String,
    pub scan_id: String,
    pub root_path: String,
    pub max_depth: u8,
    pub status: BuildArtifactScanStatus,
    pub candidates: Vec<BuildArtifactCandidate>,
    pub skipped: usize,
    pub errors: Vec<BuildArtifactScanError>,
    pub cargo_available: bool,
    pub cargo_message: Option<String>,
}

#[derive(Debug, Clone, Copy, PartialEq, Eq, Structural)]
pub enum BuildArtifactScanStatus {
    Ready,
    Partial,
}

#[derive(Debug, Clone)]
pub struct BuildArtifactScanError {
    pub path: String,
    pub message: String,
}

#[derive(Debug, Clone)]
pub struct BuildArtifactCandidate {
    pub candidate_id: String,
    pub project_path: String,
    pub target_path: String,
    pub status: BuildArtifactCandidateStatus,
    pub message: Option<String>,
    pub measurement: BuildArtifactMeasurement,
}

#[derive(Debug, Clone, Copy, PartialEq, Eq, Structural)]
pub enum BuildArtifactCandidateStatus {
    Ready,
    Symlink,
    NotDirectory,
    Unrecognized,
}

#[derive(Debug, Clone)]
pub struct BuildArtifactMeasurement {
    pub status: BuildArtifactMeasurementStatus,
    pub bytes: Option<u64>,
    pub human: Option<String>,
    pub files: u64,
    pub directories: u64,
    pub skipped: u64,
    pub latest_modified_ms: Option<u64>,
    pub message: Option<String>,
}

#[derive(Debug, Clone, Copy, PartialEq, Eq, Structural)]
pub enum BuildArtifactMeasurementStatus {
    Pending,
    Ready,
    Partial,
    Missing,
    PermissionDenied,
    Error,
}

#[derive(Debug, Clone, Copy, PartialEq, Eq, Structural)]
pub enum BuildArtifactOpenTarget {
    Project,
    Target,
}

#[derive(Debug, Clone)]
pub struct BuildArtifactCleanupResult {
    pub candidate_id: String,
    pub status: BuildArtifactCleanupStatus,
    pub command: Option<CommandEnvelope>,
    pub before_bytes: u64,
    pub after_bytes: u64,
    pub released_bytes: u64,
    pub measurement: BuildArtifactMeasurement,
    pub stdout: String,
    pub stderr: String,
    pub message: Option<String>,
    pub failure: Option<CommandFailure>,
}

#[derive(Debug, Clone, Copy, PartialEq, Eq, Structural)]
pub enum BuildArtifactCleanupStatus {
    Succeeded,
    PartiallyCompleted,
    Failed,
    Skipped,
    Rejected,
}

/// The root the user authorized, resolved to a canonical directory.
#[derive(Debug, Clone)]
pub struct AuthorizedRoot {
    pub id: String,
    pub path: String,
    pub max_depth: u8,
}

/// A candidate as the registry keeps it between requests.
#[derive(Debug, Clone)]
pub struct CandidateRecord {
    pub id: String,
    pub project_path: String,
    pub target_path: String,
    pub status: BuildArtifactCandidateStatus,
    pub message: Option<String>,
    pub measurement: BuildArtifactMeasurement,
}

/// The installed scan: its identifier, the root it was made under, and its
/// candidates in discovery order.
#[derive(Debug, Clone)]
pub struct ScanSession {
    pub id: String,
    pub root_id: String,
    pub root_path: String,
    pub candidates: Vec<CandidateRecord>,
}

/// What a directory walk found.
#[derive(Debug, Clone)]
pub struct Discovery {
    pub candidates: Vec<DiscoveredCandidate>,
    pub skipped: usize,
    pub errors: Vec<BuildArtifactScanError>,
}

#[derive(Debug, Clone)]
pub struct DiscoveredCandidate {
    pub project_path: String,
    pub target_path: String,
    pub status: BuildArtifactCandidateStatus,
    pub message: Option<String>,
}

/// Running totals of one measurement walk.
#[derive(Debug, Clone)]
pub struct MeasurementStats {
    pub bytes: u64,
    pub files: u64,
    pub directories: u64,
    pub skipped: u64,
    pub latest_modified_ms: Option<u64>,
    pub first_error: Option<String>,
}

/// What a revalidation of a candidate just before cleaning found.
#[derive(Debug, Clone, Copy, PartialEq, Eq, Structural)]
pub enum Validation {
    Ready,
    Missing,
}

/// The decimal digit for `d < 10`.
pub open spec fn digit_char(d: nat) -> char {
    (('0' as u32) + d) as char
}

/// The decimal text of `n` (`u64::to_string`).
pub open spec fn decimal(n: nat) -> Seq<char>
    decreases n,
{
    if n < 10 {
        seq![digit_char(n)]
    } else {
        decimal(n / 10).push(digit_char(n % 10))
    }
}

pub proof fn lemma_decimal_len(n: nat)
    ensures
        decimal(n).len() >= 1,
        n >= 10 ==> decimal(n).len() >= 2,
    decreases n,
{
    if n >= 10 {
        lemma_decimal_len(n / 10);
    }
}

/// Different numbers have different decimal texts.
pub proof fn lemma_decimal_injective(a: nat, b: nat)
    requires
        decimal(a) == decimal(b),
    ensures
        a == b,
    decreases a,
{
    lemma_decimal_len(a);
    lemma_decimal_len(b);
    if a >= 10 && b >= 10 {
        assert(decimal(a).drop_last() == decimal(a / 10));
        assert(decimal(b).drop_last() == decimal(b / 10));
        assert(decimal(a).last() == digit_char(a % 10));
        assert(decimal(b).last() == digit_char(b % 10));
        lemma_decimal_injective(a / 10, b / 10);
    } else if a < 10 && b < 10 {
        assert(decimal(a)[0] == digit_char(a));
        assert(decimal(b)[0] == digit_char(b));
    }
}

/// The decimal text of `n`.
pub fn decimal_string(n: u64) -> (r: String)
    ensures
        r@ == decimal(n as nat),
{
    let mut digits: Vec<char> = Vec::new();
    let mut m: u64 = n;
    while m >= 10
        invariant
            decimal(n as nat) == decimal(m as nat) + digits@.reverse(),
        decreases m,
    {
        let c = char_for_digit(m % 10);
        let ghost before = digits@;
        digits.push(c);
        assert(decimal(m as nat) == decimal((m / 10) as nat).push(c));
        assert(digits@.reverse() =~= seq![c] + before.reverse());
        assert(decimal((m / 10) as nat) + digits@.reverse() =~= decimal((m / 10) as nat).push(c)
            + before.reverse());
        m = m / 10;
    }
    let c = char_for_digit(m);
    let ghost before = digits@;
    digits.push(c);
    assert(decimal(m as nat) == seq![c]);
    assert(digits@.reverse() =~= seq![c] + before.reverse());
    let mut r = String::new();
    let mut i: usize = digits.len();
    while i > 0
        invariant
            i <= digits@.len(),
            r@ == digits@.reverse().subrange(0, digits@.len() - i),
            decimal(n as nat) == digits@.reverse(),
        decreases i,
    {
        i = i - 1;
        crate::text::push_char(&mut r, digits[i]);
        assert(digits@.reverse().subrange(0, digits@.len() - i) =~= digits@.reverse().subrange(
            0,
            digits@.len() - i - 1,
        ).push(digits@[i as int]));
    }
    assert(digits@.reverse().subrange(0, digits@.len() as int) == digits@.reverse());
    r
}

fn char_for_digit(d: u64) -> (c: char)
    requires
        d < 10,
    ensures
        c == digit_char(d as nat),
{
    if d == 0 {
        '0'
    } else if d == 1 {
        '1'
    } else if d == 2 {
        '2'
    } else if d == 3 {
        '3'
    } else if d == 4 {
        '4'
    } else if d == 5 {
        '5'
    } else if d == 6 {
        '6'
    } else if d == 7 {
        '7'
    } else if d == 8 {
        '8'
    } else {
        '9'
    }
}

/// An identifier the registry hands out: `<prefix>-<n>`.
pub open spec fn ident(prefix: Seq<char>, n: u64) -> Seq<char> {
    prefix + seq!['-'] + decimal(n as nat)
}

/// The counter after one more identifier (it stops at the maximum).
pub open spec fn bump(n: u64) -> u64 {
    if n < u64::MAX {
        (n + 1) as u64
    } else {
        n
    }
}

/// Identifiers with one prefix and different counters differ.
pub proof fn lemma_ident_injective(prefix: Seq<char>, a: u64, b: u64)
    requires
        a != b,
    ensures
        ident(prefix, a) != ident(prefix, b),
{
    if ident(prefix, a) == ident(prefix, b) {
        let k: int = prefix.len() as int + 1;
        assert(ident(prefix, a).subrange(k, ident(prefix, a).len() as int) =~= decimal(a as nat));
        assert(ident(prefix, b).subrange(k, ident(prefix, b).len() as int) =~= decimal(b as nat));
        lemma_decimal_injective(a as nat, b as nat);
    }
}

/// A measurement that has not run yet.
pub open spec fn is_pending_measurement(m: BuildArtifactMeasurement) -> bool {
    &&& m.status == BuildArtifactMeasurementStatus::Pending
    &&& m.bytes is None
    &&& m.human is None
    &&& m.files == 0
    &&& m.directories == 0
    &&& m.skipped == 0
    &&& m.latest_modified_ms is None
    &&& m.message is None
}

/// The measurement of a candidate that has not been measured yet.
pub fn pending_measurement() -> (r: BuildArtifactMeasurement)
    ensures
        is_pending_measurement(r),
{
    BuildArtifactMeasurement {
        status: BuildArtifactMeasurementStatus::Pending,
        bytes: None,
        human: None,
        files: 0,
        directories: 0,
        skipped: 0,
        latest_modified_ms: None,
        message: None,
    }
}

/// The measurement of a build directory that no longer exists.
pub open spec fn is_missing_measurement(m: BuildArtifactMeasurement) -> bool {
    &&& m.status == BuildArtifactMeasurementStatus::Missing
    &&& m.bytes == Some(0u64)
    &&& m.human matches Some(h) && h@ == "0 B"@
    &&& m.files == 0
    &&& m.directories == 0
    &&& m.skipped == 0
    &&& m.latest_modified_ms is None
    &&& m.message matches Some(t) && t@ == "Build directory no longer exists"@
}

/// The measurement of a build directory that no longer exists.
pub fn missing_measurement() -> (r: BuildArtifactMeasurement)
    ensures
        is_missing_measurement(r),
{
    BuildArtifactMeasurement {
        status: BuildArtifactMeasurementStatus::Missing,
        bytes: Some(0),
        human: Some(owned("0 B")),
        files: 0,
        directories: 0,
        skipped: 0,
        latest_modified_ms: None,
        message: Some(owned("Build directory no longer exists")),
    }
}

/// A measurement that could not start, with the error's text.
pub fn failed_measurement(status: BuildArtifactMeasurementStatus, error: &str) -> (r:
    BuildArtifactMeasurement)
    ensures
        r.status == status,
        r.bytes is None,
        r.human is None,
        r.files == 0,
        r.directories == 0,
        r.skipped == 0,
        r.latest_modified_ms is None,
        r.message matches Some(t) && t@ == error@,
{
    BuildArtifactMeasurement {
        status,
        bytes: None,
        human: None,
        files: 0,
        directories: 0,
        skipped: 0,
        latest_modified_ms: None,
        message: Some(owned(error)),
    }
}

pub open spec fn same_opt_string(a: Option<String>, b: Option<String>) -> bool {
    crate::text::opt_view(a) == crate::text::opt_view(b)
}

/// Two measurements that report the same thing.
pub open spec fn same_measurement(a: BuildArtifactMeasurement, b: BuildArtifactMeasurement) -> bool {
    &&& a.status == b.status
    &&& a.bytes == b.bytes
    &&& same_opt_string(a.human, b.human)
    &&& a.files == b.files
    &&& a.directories == b.directories
    &&& a.skipped == b.skipped
    &&& a.latest_modified_ms == b.latest_modified_ms
    &&& same_opt_string(a.message, b.message)
}

pub fn copy_opt_string(s: &Option<String>) -> (r: Option<String>)
    ensures
        same_opt_string(r, *s),
        r == *s,
{
    match s {
        Some(t) => Some(t.clone()),
        None => None,
    }
}

/// A copy of a measurement.
pub fn copy_measurement(m: &BuildArtifactMeasurement) -> (r: BuildArtifactMeasurement)
    ensures
        same_measurement(r, *m),
        r == *m,
{
    BuildArtifactMeasurement {
        status: m.status,
        bytes: m.bytes,
        human: copy_opt_string(&m.human),
        files: m.files,
        directories: m.directories,
        skipped: m.skipped,
        latest_modified_ms: m.latest_modified_ms,
        message: copy_opt_string(&m.message),
    }
}

/// Names of directories the walk never descends into: hidden ones and the
/// usual build, dependency and editor directories.
pub open spec fn pruned_name(name: Seq<char>) -> bool {
    ||| (name.len() > 0 && name[0] == '.')
    ||| name == "target"@
    ||| name == "node_modules"@
    ||| name == "dist"@
    ||| name == "build"@
    ||| name == "__pycache__"@
    ||| name == ".tox"@
    ||| name == "venv"@
    ||| name == ".venv"@
    ||| name == ".idea"@
    ||| name == ".vscode"@
}

/// Whether the walk skips a directory of this name.
pub fn should_prune(name: &str) -> (r: bool)
    ensures
        r == pruned_name(name@),
{
    let cs = crate::text::chars_of(name);
    (cs.len() > 0 && cs[0] == '.') || str_eq(name, "target") || str_eq(name, "node_modules")
        || str_eq(name, "dist") || str_eq(name, "build") || str_eq(name, "__pycache__") || str_eq(
        name,
        ".tox",
    ) || str_eq(name, "venv") || str_eq(name, ".venv") || str_eq(name, ".idea") || str_eq(
        name,
        ".vscode",
    )
}

/// `probe` answered `out` for `path`.
pub open spec fn answered<F: Fn(&str) -> bool>(probe: F, path: Seq<char>, out: bool) -> bool {
    exists|a: &str| a@ == path && #[trigger] probe.ensures((a,), out)
}

/// Asks `probe` about `path`.
fn ask<F: Fn(&str) -> bool>(probe: &F, path: &str) -> (r: bool)
    requires
        forall|a: &str| probe.requires((a,)),
    ensures
        answered(*probe, path@, r),
{
    let r = probe(path);
    assert(probe.ensures((path,), r));
    r
}

/// Whether `directory` holds a `Cargo.toml` that is a regular file, by
/// `is_regular_file`.
pub fn is_cargo_project<F: Fn(&str) -> bool>(directory: &str, is_regular_file: &F) -> (r: bool)
    requires
        forall|a: &str| is_regular_file.requires((a,)),
    ensures
        answered(*is_regular_file, join_path(directory@, "Cargo.toml"@), r),
{
    let manifest = join(directory, "Cargo.toml");
    ask(is_regular_file, manifest.as_str())
}

/// Whether a target directory holds a root-level `CACHEDIR.TAG` or
/// `.rustc_info.json` that is a regular file; the second is asked about only
/// when the first is absent.
pub fn has_cargo_marker<F: Fn(&str) -> bool>(target_path: &str, is_regular_file: &F) -> (r: bool)
    requires
        forall|a: &str| is_regular_file.requires((a,)),
    ensures
        (r && answered(*is_regular_file, join_path(target_path@, "CACHEDIR.TAG"@), true)) || (
        answered(*is_regular_file, join_path(target_path@, "CACHEDIR.TAG"@), false) && answered(
            *is_regular_file,
            join_path(target_path@, ".rustc_info.json"@),
            r,
        )),
{
    let tag = join(target_path, "CACHEDIR.TAG");
    if ask(is_regular_file, tag.as_str()) {
        return true;
    }
    let info = join(target_path, ".rustc_info.json");
    ask(is_regular_file, info.as_str())
}

/// `n + 1`, stopping at the maximum.
pub fn saturating_inc_usize(n: usize) -> (r: usize)
    ensures
        r == if n < usize::MAX { (n + 1) as usize } else { n },
{
    if n < usize::MAX {
        n + 1
    } else {
        n
    }
}

impl Discovery {
    /// Counts a directory the walk could not read; the first twenty errors
    /// are kept with their path.
    pub fn record_error(&mut self, path: &str, message: String)
        ensures
            final(self).skipped == if old(self).skipped < usize::MAX {
                (old(self).skipped + 1) as usize
            } else {
                old(self).skipped
            },
            final(self).candidates == old(self).candidates,
            old(self).errors@.len() < MAX_REPORTED_SCAN_ERRORS ==> final(self).errors@ == old(self).errors@.push(BuildArtifactScanError { path: final(self).errors@.last().path, message })
                && final(self).errors@.last().path@ == path@,
            old(self).errors@.len() >= MAX_REPORTED_SCAN_ERRORS ==> final(self).errors == old(self).errors,
    {
        self.skipped = saturating_inc_usize(self.skipped);
        if self.errors.len() < MAX_REPORTED_SCAN_ERRORS {
            self.errors.push(BuildArtifactScanError { path: owned(path), message });
        }
    }
}

/// `n + 1`, stopping at the maximum.
pub fn saturating_inc(n: u64) -> (r: u64)
    ensures
        r == bump(n),
{
    if n < u64::MAX {
        n + 1
    } else {
        n
    }
}

impl MeasurementStats {
    /// Counts an entry the measurement could not read; the first such error
    /// is kept as `Could not measure <path>: <error>`.
    pub fn record_skip(&mut self, path: &str, error: &str)
        ensures
            final(self).skipped == bump(old(self).skipped),
            final(self).bytes == old(self).bytes,
            final(self).files == old(self).files,
            final(self).directories == old(self).directories,
            final(self).latest_modified_ms == old(self).latest_modified_ms,
            old(self).first_error is Some ==> final(self).first_error == old(self).first_error,
            old(self).first_error is None ==> (final(self).first_error matches Some(m) && m@
                == "Could not measure "@ + path@ + ": "@ + error@),
    {
        self.skipped = saturating_inc(self.skipped);
        if self.first_error.is_none() {
            let mut m = owned("Could not measure ");
            push_str(&mut m, path);
            push_str(&mut m, ": ");
            push_str(&mut m, error);
            self.first_error = Some(m);
        }
    }
}

/// The latest modification time after seeing a file modified at
/// `modified_ms` (when the time is known).
pub open spec fn latest_after(current: Option<u64>, modified_ms: Option<u64>) -> Option<u64> {
    match modified_ms {
        None => current,
        Some(t) => match current {
            Some(c) => Some(if c >= t { c } else { t }),
            None => Some(t),
        },
    }
}

/// Keeps the latest modification time seen so far.
pub fn update_latest_modified(stats: &mut MeasurementStats, modified_ms: Option<u64>)
    ensures
        final(stats).latest_modified_ms == latest_after(old(stats).latest_modified_ms, modified_ms),
        final(stats).bytes == old(stats).bytes,
        final(stats).files == old(stats).files,
        final(stats).directories == old(stats).directories,
        final(stats).skipped == old(stats).skipped,
        final(stats).first_error == old(stats).first_error,
{
    let milliseconds = match modified_ms {
        Some(t) => t,
        None => return ,
    };
    stats.latest_modified_ms = Some(
        match stats.latest_modified_ms {
            Some(current) => if current >= milliseconds {
                current
            } else {
                milliseconds
            },
            None => milliseconds,
        },
    );
}


/// What looking at a project's `target` (without following a symbolic
/// link) found.
#[derive(Debug, Clone)]
pub enum TargetProbe {
    NotFound,
    Unreadable(String),
    Symlink,
    NotDirectory,
    Directory,
}

/// The candidate a Cargo project at `project` offers when looking at its
/// `target` found `target`: none without a `target`; a ready candidate only
/// for a directory with a Cargo marker, by `is_regular_file`.
pub open spec fn inspected<F: Fn(&str) -> bool>(
    project: Seq<char>,
    target: TargetProbe,
    is_regular_file: F,
    r: Option<DiscoveredCandidate>,
) -> bool {
    &&& target is NotFound ==> r is None
    &&& !(target is NotFound) ==> (r matches Some(c) && c.project_path@ == project && c.target_path@
        == join_path(project, "target"@) && match target {
        TargetProbe::Unreadable(e) => c.status == BuildArtifactCandidateStatus::Unrecognized && (c.message matches Some(
            m,
        ) && m@ == "Could not inspect target: "@ + e@),
        TargetProbe::Symlink => c.status == BuildArtifactCandidateStatus::Symlink && (c.message matches Some(m)
            && m@ == "The target path is a symbolic link"@),
        TargetProbe::NotDirectory => c.status == BuildArtifactCandidateStatus::NotDirectory && (c.message matches Some(
            m,
        ) && m@ == "The target path is not a directory"@),
        TargetProbe::Directory => (c.status == BuildArtifactCandidateStatus::Ready && c.message is None
            && answered(is_regular_file, join_path(c.target_path@, "CACHEDIR.TAG"@), true)) || (
        answered(is_regular_file, join_path(c.target_path@, "CACHEDIR.TAG"@), false) && ((c.status
            == BuildArtifactCandidateStatus::Ready && c.message is None && answered(
            is_regular_file,
            join_path(c.target_path@, ".rustc_info.json"@),
            true,
        )) || (c.status == BuildArtifactCandidateStatus::Unrecognized && answered(
            is_regular_file,
            join_path(c.target_path@, ".rustc_info.json"@),
            false,
        ) && (c.message matches Some(m) && m@ == "No root-level CACHEDIR.TAG or .rustc_info.json was found"@)))),
        TargetProbe::NotFound => false,
    })
}

/// The candidate a Cargo project offers, from what looking at its `target`
/// (without following a symbolic link) found.
pub fn inspect_candidate<F: Fn(&str) -> bool>(project_path: &str, target: TargetProbe, is_regular_file: &F) -> (r:
    Option<DiscoveredCandidate>)
    requires
        forall|a: &str| is_regular_file.requires((a,)),
    ensures
        inspected(project_path@, target, *is_regular_file, r),
{
    let target_path = join(project_path, "target");
    let (status, message) = match target {
        TargetProbe::NotFound => return None,
        TargetProbe::Unreadable(e) => {
            let mut m = owned("Could not inspect target: ");
            push_str(&mut m, e.as_str());
            (BuildArtifactCandidateStatus::Unrecognized, Some(m))
        },
        TargetProbe::Symlink => (
            BuildArtifactCandidateStatus::Symlink,
            Some(owned("The target path is a symbolic link")),
        ),
        TargetProbe::NotDirectory => (
            BuildArtifactCandidateStatus::NotDirectory,
            Some(owned("The target path is not a directory")),
        ),
        TargetProbe::Directory => if has_cargo_marker(target_path.as_str(), is_regular_file) {
            (BuildArtifactCandidateStatus::Ready, None)
        } else {
            (
                BuildArtifactCandidateStatus::Unrecognized,
                Some(owned("No root-level CACHEDIR.TAG or .rustc_info.json was found")),
            )
        },
    };
    Some(DiscoveredCandidate { project_path: owned(project_path), target_path, status, message })
}

pub open spec fn candidate_position(s: Seq<DiscoveredCandidate>, x: DiscoveredCandidate) -> int
    decreases s.len(),
{
    if s.len() == 0 {
        0
    } else if crate::scan_support::text_le(s[0].target_path@, x.target_path@) {
        1 + candidate_position(s.drop_first(), x)
    } else {
        0
    }
}

/// The candidates stably sorted by target path.
pub open spec fn sorted_by_target(s: Seq<DiscoveredCandidate>) -> Seq<DiscoveredCandidate>
    decreases s.len(),
{
    if s.len() == 0 {
        seq![]
    } else {
        let t = sorted_by_target(s.drop_last());
        t.insert(candidate_position(t, s.last()), s.last())
    }
}

pub proof fn lemma_candidate_position_bounds(s: Seq<DiscoveredCandidate>, x: DiscoveredCandidate)
    ensures
        0 <= candidate_position(s, x) <= s.len(),
    decreases s.len(),
{
    if s.len() > 0 && crate::scan_support::text_le(s[0].target_path@, x.target_path@) {
        lemma_candidate_position_bounds(s.drop_first(), x);
    }
}

pub proof fn lemma_sorted_by_target_len(s: Seq<DiscoveredCandidate>)
    ensures
        sorted_by_target(s).len() == s.len(),
    decreases s.len(),
{
    if s.len() > 0 {
        lemma_sorted_by_target_len(s.drop_last());
        lemma_candidate_position_bounds(sorted_by_target(s.drop_last()), s.last());
    }
}

/// The discovery with its candidates sorted by target path.
pub fn finish_discovery(discovery: Discovery) -> (r: Discovery)
    ensures
        r.candidates@ == sorted_by_target(discovery.candidates@),
        r.skipped == discovery.skipped,
        r.errors == discovery.errors,
{
    let Discovery { candidates, skipped, errors } = discovery;
    let ghost all = candidates@;
    let n = candidates.len();
    let mut input = candidates;
    let mut out: Vec<DiscoveredCandidate> = Vec::new();
    let mut i: usize = 0;
    assert(all.subrange(0, 0) =~= Seq::<DiscoveredCandidate>::empty());
    while i < n
        invariant
            i <= n,
            n == all.len(),
            input@ == all.subrange(i as int, n as int),
            out@ == sorted_by_target(all.subrange(0, i as int)),
        decreases n - i,
    {
        let x = input.remove(0);
        assert(x == all[i as int]);
        assert(input@ =~= all.subrange(i + 1, n as int));
        let ghost prev = out@;
        proof {
            lemma_sorted_by_target_len(all.subrange(0, i as int));
            lemma_candidate_position_bounds(prev, x);
            assert(prev.subrange(0, prev.len() as int) == prev);
        }
        let mut p: usize = 0;
        while p < out.len() && crate::scan_support::str_le(out[p].target_path.as_str(), x.target_path.as_str())
            invariant
                p <= out@.len(),
                out@ == prev,
                candidate_position(prev, x) == p + candidate_position(prev.subrange(p as int, prev.len() as int), x),
            decreases out@.len() - p,
        {
            assert(prev.subrange(p as int, prev.len() as int).drop_first() == prev.subrange(p + 1, prev.len() as int));
            p = p + 1;
        }
        assert(candidate_position(prev.subrange(p as int, prev.len() as int), x) == 0);
        out.insert(p, x);
        assert(all.subrange(0, i + 1).drop_last() == all.subrange(0, i as int));
        assert(all.subrange(0, i + 1).last() == x);
        i = i + 1;
    }
    assert(all.subrange(0, n as int) == all);
    Discovery { candidates: out, skipped, errors }
}

/// What listing a directory met for one of its entries.
#[derive(Debug, Clone)]
pub enum ListedEntry {
    /// Reading the entry failed with this message.
    Failed(String),
    /// The entry at this path could not be inspected, with this message.
    Unreadable(String, String),
    /// A symbolic link, or anything that is not a directory.
    Other,
    /// A directory (not a symbolic link) at this path, with this name.
    Directory(String, String),
}

/// `list` answered `out` for the directory `dir`.
pub open spec fn listed<L: Fn(&str) -> Result<Vec<ListedEntry>, String>>(
    list: L,
    dir: Seq<char>,
    out: Result<Vec<ListedEntry>, String>,
) -> bool {
    exists|a: &str| a@ == dir && #[trigger] list.ensures((a,), out)
}

/// `probe` answered `t` for what is at `path` (a symbolic link is not
/// followed).
pub open spec fn probed<T: Fn(&str) -> TargetProbe>(probe: T, path: Seq<char>, t: TargetProbe) -> bool {
    exists|a: &str| a@ == path && #[trigger] probe.ensures((a,), t)
}

/// The walk from `root` reaches `dir` at `depth`: the root at depth 0, and
/// each directory listed (not pruned by name) in a directory reached at a
/// smaller depth than `max_depth`, one level down.
pub open spec fn reached<L: Fn(&str) -> Result<Vec<ListedEntry>, String>>(
    list: L,
    root: Seq<char>,
    max_depth: u8,
    dir: Seq<char>,
    depth: nat,
) -> bool
    decreases depth,
{
    if depth == 0 {
        dir == root
    } else {
        exists|parent: Seq<char>, entries: Vec<ListedEntry>, i: int|
            #![trigger listed(list, parent, Ok(entries)), entries@[i]]
            reached(list, root, max_depth, parent, (depth - 1) as nat) && depth - 1 < max_depth && listed(
                list,
                parent,
                Ok(entries),
            ) && 0 <= i < entries@.len() && (entries@[i] matches ListedEntry::Directory(p, name) && p@ == dir
                && !pruned_name(name@))
    }
}

/// No directory is reached below `max_depth`.
pub proof fn lemma_reached_depth<L: Fn(&str) -> Result<Vec<ListedEntry>, String>>(
    list: L,
    root: Seq<char>,
    max_depth: u8,
    dir: Seq<char>,
    depth: nat,
)
    requires
        reached(list, root, max_depth, dir, depth),
    ensures
        depth <= max_depth,
        depth == 0 ==> dir == root,
{
}

/// `c` is what a Cargo project the walk reached offers.
pub open spec fn found_candidate<F, T, L>(
    list: L,
    probe: T,
    is_regular_file: F,
    root: Seq<char>,
    max_depth: u8,
    c: DiscoveredCandidate,
) -> bool where F: Fn(&str) -> bool, T: Fn(&str) -> TargetProbe, L: Fn(&str) -> Result<Vec<ListedEntry>, String> {
    exists|depth: nat, t: TargetProbe|
        #![trigger reached(list, root, max_depth, c.project_path@, depth), probed(probe, c.target_path@, t)]
        reached(list, root, max_depth, c.project_path@, depth) && answered(
            is_regular_file,
            join_path(c.project_path@, "Cargo.toml"@),
            true,
        ) && probed(probe, c.target_path@, t) && inspected(
            c.project_path@,
            t,
            is_regular_file,
            Some(c),
        )
}

fn list_entries<L: Fn(&str) -> Result<Vec<ListedEntry>, String>>(list: &L, dir: &str) -> (r: Result<
    Vec<ListedEntry>,
    String,
>)
    requires
        forall|a: &str| list.requires((a,)),
    ensures
        listed(*list, dir@, r),
{
    let r = list(dir);
    assert(list.ensures((dir,), r));
    r
}

fn probe_path<T: Fn(&str) -> TargetProbe>(probe: &T, path: &str) -> (r: TargetProbe)
    requires
        forall|a: &str| probe.requires((a,)),
    ensures
        probed(*probe, path@, r),
{
    let r = probe(path);
    assert(probe.ensures((path,), r));
    r
}

/// A discovery as the walk accounts for it: the candidates, the count of
/// what could not be read, and the kept errors by path and message.
pub open spec fn discovery_view(d: Discovery) -> WalkAccount {
    (d.candidates@, d.skipped, d.errors@.map_values(|e: BuildArtifactScanError| (e.path@, e.message@)))
}

/// The account after an error at `path` is met: counted, and kept while
/// fewer than twenty are kept.
pub open spec fn noted(
    v: WalkAccount,
    path: Seq<char>,
    message: Seq<char>,
) -> WalkAccount {
    (
        v.0,
        if v.1 < usize::MAX {
            (v.1 + 1) as usize
        } else {
            v.1
        },
        if v.2.len() < MAX_REPORTED_SCAN_ERRORS {
            v.2.push((path, message))
        } else {
            v.2
        },
    )
}

/// The account after the entries listed in `directory`: each entry that
/// could not be read is an error at the directory, each one that could not
/// be inspected an error at its path.
pub open spec fn after_entries(
    v: WalkAccount,
    directory: Seq<char>,
    entries: Seq<ListedEntry>,
) -> WalkAccount
    decreases entries.len(),
{
    if entries.len() == 0 {
        v
    } else {
        let before = after_entries(v, directory, entries.drop_last());
        match entries.last() {
            ListedEntry::Failed(m) => noted(before, directory, m@),
            ListedEntry::Unreadable(p, m) => noted(before, p@, m@),
            _ => before,
        }
    }
}

/// The directories listed among `entries` that the walk descends into, in
/// listing order.
pub open spec fn subdirectories(entries: Seq<ListedEntry>) -> Seq<Seq<char>>
    decreases entries.len(),
{
    if entries.len() == 0 {
        seq![]
    } else {
        let before = subdirectories(entries.drop_last());
        match entries.last() {
            ListedEntry::Directory(p, name) => if pruned_name(name@) {
                before
            } else {
                before.push(p@)
            },
            _ => before,
        }
    }
}

/// What the walk accounts for: the candidates, the count of what could not
/// be read, and the kept errors by path and message.
pub type WalkAccount = (Seq<DiscoveredCandidate>, usize, Seq<(Seq<char>, Seq<char>)>);

/// What one visit of the walk asked and was answered: whether the directory
/// holds a `Cargo.toml`, what its `target` is and the candidate it offers,
/// and, above the depth limit, what listing it gave; then, for each
/// subdirectory walked from it, where its visits begin among those that
/// follow and the account before it.
pub struct WalkVisit {
    pub manifest: bool,
    pub target: TargetProbe,
    pub candidate: Option<DiscoveredCandidate>,
    pub listing: Option<Result<Vec<ListedEntry>, String>>,
    pub starts: Ghost<Seq<int>>,
    pub accounts: Ghost<Seq<WalkAccount>>,
}

/// The walk of `directory` at `depth` took the visits `trace` (its own
/// first, then those below it) and turned the account `v0` into `v1`: the
/// candidate of a Cargo project is added; above `max_depth` the directory is
/// listed, its unreadable entries counted, and its subdirectories walked,
/// the last listed first.
pub open spec fn walked<F, T, L>(
    list: L,
    probe: T,
    is_regular_file: F,
    max_depth: u8,
    directory: Seq<char>,
    depth: u8,
    v0: WalkAccount,
    v1: WalkAccount,
    trace: Seq<WalkVisit>,
) -> bool where F: Fn(&str) -> bool, T: Fn(&str) -> TargetProbe, L: Fn(&str) -> Result<Vec<ListedEntry>, String>
    decreases trace.len() * 2,
{
    if trace.len() == 0 {
        false
    } else {
        let visit = trace[0];
        let added = match visit.candidate {
            Some(c) => v0.0.push(c),
            None => v0.0,
        };
        let v_mid = (added, v0.1, v0.2);
        &&& answered(is_regular_file, join_path(directory, "Cargo.toml"@), visit.manifest)
        &&& if visit.manifest {
            probed(probe, join_path(directory, "target"@), visit.target) && inspected(
                directory,
                visit.target,
                is_regular_file,
                visit.candidate,
            )
        } else {
            visit.candidate is None
        }
        &&& if depth >= max_depth {
            trace.len() == 1 && v1 == v_mid
        } else {
            visit.listing matches Some(listing) && listed(list, directory, listing) && match listing {
                Err(e) => trace.len() == 1 && v1 == noted(v_mid, directory, e@),
                Ok(entries) => children_walked(
                    list,
                    probe,
                    is_regular_file,
                    max_depth,
                    subdirectories(entries@).reverse(),
                    visit.starts@,
                    visit.accounts@,
                    (depth + 1) as u8,
                    after_entries(v_mid, directory, entries@),
                    v1,
                    trace.drop_first(),
                ),
            }
        }
    }
}

/// The walks of `order`, one after another, each at `depth`, took the
/// visits `trace` and turned `v0` into `v1`; the walk of `order[i]` took the
/// visits from `starts[i]` on and began with the account `accounts[i]`.
pub open spec fn children_walked<F, T, L>(
    list: L,
    probe: T,
    is_regular_file: F,
    max_depth: u8,
    order: Seq<Seq<char>>,
    starts: Seq<int>,
    accounts: Seq<WalkAccount>,
    depth: u8,
    v0: WalkAccount,
    v1: WalkAccount,
    trace: Seq<WalkVisit>,
) -> bool where F: Fn(&str) -> bool, T: Fn(&str) -> TargetProbe, L: Fn(&str) -> Result<Vec<ListedEntry>, String>
    decreases trace.len() * 2 + 1,
{
    if order.len() == 0 {
        trace.len() == 0 && v1 == v0
    } else {
        let j = starts.last();
        &&& starts.len() == order.len()
        &&& accounts.len() == order.len()
        &&& 0 <= j < trace.len()
        &&& children_walked(
            list,
            probe,
            is_regular_file,
            max_depth,
            order.drop_last(),
            starts.drop_last(),
            accounts.drop_last(),
            depth,
            v0,
            accounts.last(),
            trace.take(j),
        )
        &&& walked(list, probe, is_regular_file, max_depth, order.last(), depth, accounts.last(), v1, trace.skip(j))
    }
}

/// Counts and keeps an error of the walk.
fn note_error(discovery: &mut Discovery, path: &str, message: String)
    requires
        old(discovery).errors@.len() <= MAX_REPORTED_SCAN_ERRORS,
    ensures
        discovery_view(*final(discovery)) == noted(discovery_view(*old(discovery)), path@, message@),
        final(discovery).errors@.len() <= MAX_REPORTED_SCAN_ERRORS,
{
    let ghost m = message@;
    discovery.record_error(path, message);
    proof {
        let f = |e: BuildArtifactScanError| (e.path@, e.message@);
        if old(discovery).errors@.len() < MAX_REPORTED_SCAN_ERRORS {
            assert(discovery.errors@.map_values(f) =~= old(discovery).errors@.map_values(f).push((path@, m)));
        }
    }
}

/// Visits `directory`, reached at `depth`: its candidate when it is a Cargo
/// project, then, above `max_depth`, the directories listed in it, the last
/// listed first.
fn walk_for_candidates<F, T, L>(
    directory: String,
    depth: u8,
    max_depth: u8,
    Ghost(root): Ghost<Seq<char>>,
    is_regular_file: &F,
    probe: &T,
    list: &L,
    discovery: &mut Discovery,
) -> (trace: Ghost<Seq<WalkVisit>>) where F: Fn(&str) -> bool, T: Fn(&str) -> TargetProbe, L: Fn(&str) -> Result<Vec<ListedEntry>, String>
    requires
        forall|a: &str| is_regular_file.requires((a,)),
        forall|a: &str| probe.requires((a,)),
        forall|a: &str| list.requires((a,)),
        reached(*list, root, max_depth, directory@, depth as nat),
        old(discovery).errors@.len() <= MAX_REPORTED_SCAN_ERRORS,
        forall|k: int|
            0 <= k < old(discovery).candidates@.len() ==> found_candidate(
                *list,
                *probe,
                *is_regular_file,
                root,
                max_depth,
                #[trigger] old(discovery).candidates@[k],
            ),
    ensures
        final(discovery).errors@.len() <= MAX_REPORTED_SCAN_ERRORS,
        forall|k: int|
            0 <= k < final(discovery).candidates@.len() ==> found_candidate(
                *list,
                *probe,
                *is_regular_file,
                root,
                max_depth,
                #[trigger] final(discovery).candidates@[k],
            ),
        walked(
            *list,
            *probe,
            *is_regular_file,
            max_depth,
            directory@,
            depth,
            discovery_view(*old(discovery)),
            discovery_view(*final(discovery)),
            trace@,
        ),
    decreases max_depth - depth,
{
    proof {
        lemma_reached_depth(*list, root, max_depth, directory@, depth as nat);
    }
    let ghost v0 = discovery_view(*discovery);
    let manifest = is_cargo_project(directory.as_str(), is_regular_file);
    let ghost mut target_v = TargetProbe::NotFound;
    let ghost mut candidate_v: Option<DiscoveredCandidate> = None;
    if manifest {
        let target = join(directory.as_str(), "target");
        let t = probe_path(probe, target.as_str());
        proof {
            target_v = t;
        }
        let found = inspect_candidate(directory.as_str(), t, is_regular_file);
        proof {
            candidate_v = found;
        }
        match found {
            Some(c) => {
                assert(c.project_path@ == directory@);
                assert(found_candidate(*list, *probe, *is_regular_file, root, max_depth, c)) by {
                    assert(reached(*list, root, max_depth, c.project_path@, depth as nat));
                    assert(probed(*probe, c.target_path@, target_v));
                }
                discovery.candidates.push(c);
            },
            None => {},
        }
    }
    let ghost v_mid = discovery_view(*discovery);
    assert(v_mid.0 == match candidate_v {
        Some(c) => v0.0.push(c),
        None => v0.0,
    });
    if depth >= max_depth {
        let ghost visit = WalkVisit {
            manifest,
            target: target_v,
            candidate: candidate_v,
            listing: None,
            starts: Ghost(seq![]),
            accounts: Ghost(seq![]),
        };
        let ghost one = seq![visit];
        assert(one[0] == visit);
        return Ghost(one);
    }
    let listing = list_entries(list, directory.as_str());
    let ghost listing_v = listing;
    let entries = match listing {
        Ok(e) => e,
        Err(e) => {
            let ghost visit = WalkVisit {
                manifest,
                target: target_v,
                candidate: candidate_v,
                listing: Some(listing_v),
                starts: Ghost(seq![]),
                accounts: Ghost(seq![]),
            };
            note_error(discovery, directory.as_str(), e);
            let ghost one = seq![visit];
            assert(one[0] == visit);
            return Ghost(one);
        },
    };
    let mut children: Vec<String> = Vec::new();
    let mut i: usize = 0;
    while i < entries.len()
        invariant
            i <= entries@.len(),
            listing_v == Ok::<Vec<ListedEntry>, String>(entries),
            listed(*list, directory@, Ok(entries)),
            reached(*list, root, max_depth, directory@, depth as nat),
            depth < max_depth,
            discovery.errors@.len() <= MAX_REPORTED_SCAN_ERRORS,
            discovery_view(*discovery) == after_entries(v_mid, directory@, entries@.take(i as int)),
            views(children@) == subdirectories(entries@.take(i as int)),
            forall|k: int|
                0 <= k < discovery.candidates@.len() ==> found_candidate(
                    *list,
                    *probe,
                    *is_regular_file,
                    root,
                    max_depth,
                    #[trigger] discovery.candidates@[k],
                ),
            forall|j: int|
                0 <= j < children@.len() ==> reached(
                    *list,
                    root,
                    max_depth,
                    #[trigger] children@[j]@,
                    (depth + 1) as nat,
                ),
        decreases entries@.len() - i,
    {
        assert(entries@.take(i + 1).drop_last() == entries@.take(i as int));
        assert(entries@.take(i + 1).last() == entries@[i as int]);
        match &entries[i] {
            ListedEntry::Failed(m) => {
                note_error(discovery, directory.as_str(), crate::text::copy_string(m));
            },
            ListedEntry::Unreadable(p, m) => {
                note_error(discovery, p.as_str(), crate::text::copy_string(m));
            },
            ListedEntry::Other => {},
            ListedEntry::Directory(p, name) => {
                if !should_prune(name.as_str()) {
                    let child = crate::text::copy_string(p);
                    assert(reached(*list, root, max_depth, child@, (depth + 1) as nat)) by {
                        assert(listed(*list, directory@, Ok(entries)));
                        assert(entries@[i as int] matches ListedEntry::Directory(q, nm) && q@ == child@
                            && !pruned_name(nm@));
                    }
                    children.push(child);
                    assert(views(children@) =~= subdirectories(entries@.take(i as int)).push(p@));
                }
            },
        }
        i = i + 1;
    }
    assert(entries@.take(entries@.len() as int) == entries@);
    let ghost v_entries = discovery_view(*discovery);
    let ghost kids = views(children@);
    let ghost mut below: Seq<WalkVisit> = seq![];
    let ghost mut starts: Seq<int> = seq![];
    let ghost mut accounts: Seq<WalkAccount> = seq![];
    let mut k: usize = children.len();
    assert(kids.reverse().take(0) =~= Seq::<Seq<char>>::empty());
    while k > 0
        invariant
            k <= children@.len(),
            kids == views(children@),
            starts.len() == children@.len() - k,
            accounts.len() == children@.len() - k,
            depth < max_depth,
            discovery.errors@.len() <= MAX_REPORTED_SCAN_ERRORS,
            forall|a: &str| is_regular_file.requires((a,)),
            forall|a: &str| probe.requires((a,)),
            forall|a: &str| list.requires((a,)),
            forall|k: int|
                0 <= k < discovery.candidates@.len() ==> found_candidate(
                    *list,
                    *probe,
                    *is_regular_file,
                    root,
                    max_depth,
                    #[trigger] discovery.candidates@[k],
                ),
            forall|j: int|
                0 <= j < children@.len() ==> reached(
                    *list,
                    root,
                    max_depth,
                    #[trigger] children@[j]@,
                    (depth + 1) as nat,
                ),
            children_walked(
                *list,
                *probe,
                *is_regular_file,
                max_depth,
                kids.reverse().take(children@.len() - k),
                starts,
                accounts,
                (depth + 1) as u8,
                v_entries,
                discovery_view(*discovery),
                below,
            ),
        decreases k,
    {
        k = k - 1;
        let child = crate::text::copy_string(&children[k]);
        let ghost v_before = discovery_view(*discovery);
        let ghost prior = below;
        let Ghost(sub) = walk_for_candidates(
            child,
            depth + 1,
            max_depth,
            Ghost(root),
            is_regular_file,
            probe,
            list,
            discovery,
        );
        proof {
            let prior_starts = starts;
            let prior_accounts = accounts;
            below = prior + sub;
            starts = prior_starts.push(prior.len() as int);
            accounts = prior_accounts.push(v_before);
            let n = children@.len() as int;
            let order = kids.reverse().take(n - k);
            assert(order.drop_last() =~= kids.reverse().take(n - k - 1));
            assert(order.last() == kids[k as int]);
            assert(kids[k as int] == children@[k as int]@);
            assert(below.take(prior.len() as int) =~= prior);
            assert(below.skip(prior.len() as int) =~= sub);
            assert(starts.drop_last() =~= prior_starts);
            assert(accounts.drop_last() =~= prior_accounts);
        }
    }
    let ghost visit = WalkVisit {
        manifest,
        target: target_v,
        candidate: candidate_v,
        listing: Some(listing_v),
        starts: Ghost(starts),
        accounts: Ghost(accounts),
    };
    let ghost whole = seq![visit] + below;
    proof {
        assert(kids.reverse().take(kids.len() as int) =~= subdirectories(entries@).reverse());
        assert(whole[0] == visit);
        assert(whole.drop_first() =~= below);
    }
    Ghost(whole)
}

/// The Cargo build directories under `root`, down to `max_depth` levels:
/// every directory reached that holds a `Cargo.toml` offers what its
/// `target` is, by `probe`, and the candidates come sorted by target path;
/// listing errors are counted, the first twenty kept. The result is exactly
/// what the walk of the answers it got accounts for.
pub fn discover_build_artifacts_with<F, T, L>(
    root: &str,
    max_depth: u8,
    is_regular_file: &F,
    probe: &T,
    list: &L,
) -> (r: Discovery) where F: Fn(&str) -> bool, T: Fn(&str) -> TargetProbe, L: Fn(&str) -> Result<Vec<ListedEntry>, String>
    requires
        forall|a: &str| is_regular_file.requires((a,)),
        forall|a: &str| probe.requires((a,)),
        forall|a: &str| list.requires((a,)),
    ensures
        exists|trace: Seq<WalkVisit>, found: WalkAccount|
            #![trigger walked(*list, *probe, *is_regular_file, max_depth, root@, 0, (Seq::<DiscoveredCandidate>::empty(), 0usize, Seq::<(Seq<char>, Seq<char>)>::empty()), found, trace)]
            walked(
                *list,
                *probe,
                *is_regular_file,
                max_depth,
                root@,
                0,
                (Seq::<DiscoveredCandidate>::empty(), 0usize, Seq::<(Seq<char>, Seq<char>)>::empty()),
                found,
                trace,
            ) && r.candidates@ == sorted_by_target(found.0) && r.skipped == found.1 && discovery_view(r).2
                == found.2 && forall|k: int|
                0 <= k < found.0.len() ==> found_candidate(
                    *list,
                    *probe,
                    *is_regular_file,
                    root@,
                    max_depth,
                    #[trigger] found.0[k],
                ),
        r.errors@.len() <= MAX_REPORTED_SCAN_ERRORS,
{
    let mut discovery = Discovery { candidates: Vec::new(), skipped: 0, errors: Vec::new() };
    let ghost v0 = discovery_view(discovery);
    assert(v0.2 =~= Seq::<(Seq<char>, Seq<char>)>::empty());
    assert(v0.0 =~= Seq::<DiscoveredCandidate>::empty());
    let Ghost(trace) = walk_for_candidates(
        owned(root),
        0,
        max_depth,
        Ghost(root@),
        is_regular_file,
        probe,
        list,
        &mut discovery,
    );
    let ghost found = discovery_view(discovery);
    let r = finish_discovery(discovery);
    assert(sorted_by_target(found.0) == r.candidates@);
    assert(walked(
        *list,
        *probe,
        *is_regular_file,
        max_depth,
        root@,
        0,
        (Seq::<DiscoveredCandidate>::empty(), 0usize, Seq::<(Seq<char>, Seq<char>)>::empty()),
        found,
        trace,
    ));
    r
}

/// The bytes a file takes on disk: its 512-byte blocks, saturating.
pub open spec fn measured_block_bytes(blocks: u64) -> u64 {
    if blocks as int * 512 > u64::MAX {
        u64::MAX
    } else {
        (blocks * 512) as u64
    }
}

/// `a + b`, stopping at the maximum.
pub open spec fn saturating_sum(a: u64, b: u64) -> u64 {
    if a + b > u64::MAX {
        u64::MAX
    } else {
        (a + b) as u64
    }
}

impl MeasurementStats {
    /// Nothing measured yet.
    pub fn new() -> (r: MeasurementStats)
        ensures
            r.bytes == 0 && r.files == 0 && r.directories == 0 && r.skipped == 0,
            r.latest_modified_ms is None && r.first_error is None,
    {
        MeasurementStats { bytes: 0, files: 0, directories: 0, skipped: 0, latest_modified_ms: None, first_error: None }
    }

    /// A directory is entered.
    pub fn enter_directory(&mut self)
        ensures
            final(self).directories == bump(old(self).directories),
            final(self).bytes == old(self).bytes && final(self).files == old(self).files
                && final(self).skipped == old(self).skipped
                && final(self).latest_modified_ms == old(self).latest_modified_ms
                && final(self).first_error == old(self).first_error,
    {
        self.directories = saturating_inc(self.directories);
    }

    /// A file (or symbolic link) is met, by device, inode, 512-byte blocks
    /// and modification time: each physical file counts once.
    pub fn add_file(&mut self, seen: &mut std::collections::HashSet<u128>, dev: u64, ino: u64, blocks: u64, modified_ms: Option<u64>)
        ensures
            ({
                let key = crate::disk_usage::file_key_spec(dev, ino);
                if old(seen)@.contains(key) {
                    &&& final(self).bytes == old(self).bytes && final(self).files == old(self).files
                    &&& final(self).latest_modified_ms == old(self).latest_modified_ms
                    &&& final(seen)@ == old(seen)@
                } else {
                    &&& final(self).files == bump(old(self).files)
                    &&& final(self).bytes == saturating_sum(old(self).bytes, measured_block_bytes(blocks))
                    &&& final(self).latest_modified_ms == latest_after(old(self).latest_modified_ms, modified_ms)
                    &&& final(seen)@ == old(seen)@.insert(key)
                }
            }),
            final(self).directories == old(self).directories,
            final(self).skipped == old(self).skipped,
            final(self).first_error == old(self).first_error,
    {
        broadcast use vstd::std_specs::hash::group_hash_axioms;

        let key = crate::disk_usage::file_key(dev, ino);
        if seen.insert(key) {
            self.files = saturating_inc(self.files);
            let size: u64 = if blocks > 36028797018963967 {
                18446744073709551615
            } else {
                blocks * 512
            };
            self.bytes = if self.bytes > 18446744073709551615 - size {
                18446744073709551615
            } else {
                self.bytes + size
            };
            update_latest_modified(self, modified_ms);
        }
    }
}

/// The measurement of a walked target: ready when nothing was passed over,
/// else partial with the first error; `human` is how its bytes read.
pub fn measurement_of(stats: MeasurementStats, human: String) -> (r: BuildArtifactMeasurement)
    ensures
        r.status == (if stats.skipped == 0 {
            BuildArtifactMeasurementStatus::Ready
        } else {
            BuildArtifactMeasurementStatus::Partial
        }),
        r.bytes == Some(stats.bytes),
        r.human == Some(human),
        r.files == stats.files && r.directories == stats.directories && r.skipped == stats.skipped,
        r.latest_modified_ms == stats.latest_modified_ms,
        r.message == stats.first_error,
{
    let status = if stats.skipped == 0 {
        BuildArtifactMeasurementStatus::Ready
    } else {
        BuildArtifactMeasurementStatus::Partial
    };
    BuildArtifactMeasurement {
        status,
        bytes: Some(stats.bytes),
        human: Some(human),
        files: stats.files,
        directories: stats.directories,
        skipped: stats.skipped,
        latest_modified_ms: stats.latest_modified_ms,
        message: stats.first_error,
    }
}

/// The registry of build-directory cleanup: the authorized root, the scan
/// that is installed, the scan that is being prepared, and the counter that
/// numbers every identifier it hands out.
#[derive(Debug)]
pub struct Registry {
    pub next_id: u64,
    pub settings_path: String,
    pub persisted_root_path: Option<String>,
    pub max_depth: u8,
    pub root: Option<AuthorizedRoot>,
    pub scan: Option<ScanSession>,
    pub pending_scan_id: Option<String>,
}

/// `resolve` answered `out` for `path`.
pub open spec fn resolved<R: Fn(&str) -> Result<String, String>>(
    resolve: R,
    path: Seq<char>,
    out: Result<String, String>,
) -> bool {
    exists|a: &str| a@ == path && #[trigger] resolve.ensures((a,), out)
}

fn resolve_path<R: Fn(&str) -> Result<String, String>>(resolve: &R, path: &str) -> (r: Result<
    String,
    String,
>)
    requires
        forall|a: &str| resolve.requires((a,)),
    ensures
        resolved(*resolve, path@, r),
{
    let r = resolve(path);
    assert(resolve.ensures((path,), r));
    r
}

pub open spec fn same_but_counter(a: Registry, b: Registry) -> bool {
    &&& a.settings_path == b.settings_path
    &&& a.persisted_root_path == b.persisted_root_path
    &&& a.max_depth == b.max_depth
    &&& a.root == b.root
    &&& a.scan == b.scan
    &&& a.pending_scan_id == b.pending_scan_id
}

/// The counter after `i` more identifiers from `start`.
pub open spec fn counter_after(start: u64, i: int) -> u64 {
    if start + i <= u64::MAX {
        (start + i) as u64
    } else {
        u64::MAX
    }
}

/// The settings the registry reports: the authorized root, or else the
/// remembered path, and the scan depth.
pub open spec fn settings_of(r: Registry, s: BuildArtifactSettings) -> bool {
    &&& s.root_id == match r.root {
        Some(root) => Some(root.id),
        None => None,
    }
    &&& s.root_path == match r.root {
        Some(root) => Some(root.path),
        None => r.persisted_root_path,
    }
    &&& s.max_depth == r.max_depth
}

/// `new` is `old` after authorizing the canonical directory `canonical`: a
/// fresh root identifier, the path remembered, and every scan forgotten.
pub open spec fn authorized_with(old: Registry, new: Registry, canonical: String) -> bool {
    &&& new.next_id == bump(old.next_id)
    &&& new.settings_path == old.settings_path
    &&& new.persisted_root_path == Some(canonical)
    &&& new.max_depth == old.max_depth
    &&& new.root matches Some(root) && root.id@ == ident("root"@, old.next_id) && root.path
        == canonical && root.max_depth == old.max_depth
    &&& new.scan is None
    &&& new.pending_scan_id is None
}

pub open spec fn depth_message() -> Seq<char> {
    "Scan depth must be between 0 and 32"@
}

pub open spec fn unauthorized_message() -> Seq<char> {
    "The selected build artifact root is no longer authorized"@
}

pub open spec fn root_owns(r: Registry, s: ScanSession) -> bool {
    r.root matches Some(root) && root.id@ == s.root_id@ && root.path@ == s.root_path@
}

/// The scan `scan_id` is installed and its root is still the authorized one.
pub open spec fn scan_current(r: Registry, scan_id: Seq<char>) -> bool {
    r.scan matches Some(s) && s.id@ == scan_id && root_owns(r, s)
}

/// Why a request about `scan_id` is refused, when it is.
pub open spec fn scan_refusal(r: Registry, scan_id: Seq<char>) -> Option<Seq<char>> {
    if !(r.scan matches Some(s) && s.id@ == scan_id) {
        Some("The build artifact scan is stale; scan again before continuing"@)
    } else if !root_owns(r, r.scan->0) {
        Some("The authorized root changed after this scan"@)
    } else {
        None
    }
}

/// Why `install_scan` refuses a discovery, when it does: the root or the
/// depth changed while scanning, or a newer scan was prepared since.
pub open spec fn install_refusal(
    r: Registry,
    root_id: Seq<char>,
    scan_id: Seq<char>,
    root_path: Seq<char>,
    max_depth: u8,
) -> Option<Seq<char>> {
    if !(r.root matches Some(root) && root.id@ == root_id && root.path@ == root_path) {
        Some("The build artifact root changed while scanning"@)
    } else if r.root->0.max_depth != max_depth {
        Some("The scan depth changed while scanning"@)
    } else if !(r.pending_scan_id matches Some(p) && p@ == scan_id) {
        Some("A newer build artifact scan replaced this request"@)
    } else {
        None
    }
}

pub open spec fn is_first_match(cands: Seq<CandidateRecord>, id: Seq<char>, i: int) -> bool {
    &&& 0 <= i < cands.len()
    &&& cands[i].id@ == id
    &&& forall|j: int| 0 <= j < i ==> (#[trigger] cands[j]).id@ != id
}

/// The position of the candidate named `id`.
pub open spec fn lookup(cands: Seq<CandidateRecord>, id: Seq<char>) -> Option<int> {
    if exists|i: int| is_first_match(cands, id, i) {
        Some(choose|i: int| is_first_match(cands, id, i))
    } else {
        None
    }
}

pub proof fn lemma_first_match_unique(cands: Seq<CandidateRecord>, id: Seq<char>, i: int, j: int)
    requires
        is_first_match(cands, id, i),
        is_first_match(cands, id, j),
    ensures
        i == j,
{
    if i < j {
        assert(cands[i].id@ != id);
    } else if j < i {
        assert(cands[j].id@ != id);
    }
}

pub open spec fn not_part_message() -> Seq<char> {
    "The build directory candidate is not part of this scan"@
}

/// What the registry answers about candidate `candidate_id` of scan
/// `scan_id`: its record, or why there is none.
pub open spec fn candidate_lookup(r: Registry, scan_id: Seq<char>, candidate_id: Seq<char>) -> Result<
    CandidateRecord,
    Seq<char>,
> {
    match scan_refusal(r, scan_id) {
        Some(m) => Err(m),
        None => match lookup(r.scan->0.candidates@, candidate_id) {
            Some(i) => Ok(r.scan->0.candidates@[i]),
            None => Err(not_part_message()),
        },
    }
}

/// `new` is `old` with the measurement of the candidate at `i` of the
/// installed scan replaced by `m`.
pub open spec fn measured_at(old: Registry, new: Registry, i: int, m: BuildArtifactMeasurement) -> bool {
    &&& new.next_id == old.next_id
    &&& new.settings_path == old.settings_path
    &&& new.persisted_root_path == old.persisted_root_path
    &&& new.max_depth == old.max_depth
    &&& new.root == old.root
    &&& new.pending_scan_id == old.pending_scan_id
    &&& old.scan matches Some(s) && new.scan matches Some(t) && t.id == s.id && t.root_id
        == s.root_id && t.root_path == s.root_path && 0 <= i < s.candidates@.len()
        && t.candidates@ == s.candidates@.update(
        i,
        CandidateRecord { measurement: m, ..s.candidates@[i] },
    )
}

/// A record made for a discovered candidate under identifier number `k`.
pub open spec fn record_from(rec: CandidateRecord, d: DiscoveredCandidate, k: u64) -> bool {
    &&& rec.id@ == ident("candidate"@, k)
    &&& rec.project_path == d.project_path
    &&& rec.target_path == d.target_path
    &&& rec.status == d.status
    &&& rec.message == d.message
    &&& is_pending_measurement(rec.measurement)
}

/// The candidate as a scan reports it.
pub open spec fn response_of(rec: CandidateRecord, c: BuildArtifactCandidate) -> bool {
    &&& c.candidate_id == rec.id
    &&& c.project_path == rec.project_path
    &&& c.target_path == rec.target_path
    &&& c.status == rec.status
    &&& c.message == rec.message
    &&& c.measurement == rec.measurement
}

/// A copy of a record.
pub fn copy_record(c: &CandidateRecord) -> (r: CandidateRecord)
    ensures
        r == *c,
{
    CandidateRecord {
        id: c.id.clone(),
        project_path: c.project_path.clone(),
        target_path: c.target_path.clone(),
        status: c.status,
        message: copy_opt_string(&c.message),
        measurement: copy_measurement(&c.measurement),
    }
}

impl CandidateRecord {
    /// The candidate as a scan reports it.
    pub fn response(&self) -> (r: BuildArtifactCandidate)
        ensures
            response_of(*self, r),
    {
        BuildArtifactCandidate {
            candidate_id: self.id.clone(),
            project_path: self.project_path.clone(),
            target_path: self.target_path.clone(),
            status: self.status,
            message: copy_opt_string(&self.message),
            measurement: copy_measurement(&self.measurement),
        }
    }
}

/// The position of the first candidate named `id`.
pub fn find_candidate(cands: &Vec<CandidateRecord>, id: &str) -> (r: Option<usize>)
    ensures
        match r {
            Some(i) => lookup(cands@, id@) == Some(i as int),
            None => lookup(cands@, id@) is None,
        },
{
    let mut i: usize = 0;
    while i < cands.len()
        invariant
            i <= cands.len(),
            forall|j: int| 0 <= j < i ==> (#[trigger] cands@[j]).id@ != id@,
        decreases cands.len() - i,
    {
        if str_eq(cands[i].id.as_str(), id) {
            assert(is_first_match(cands@, id@, i as int));
            proof {
                let c = choose|k: int| is_first_match(cands@, id@, k);
                lemma_first_match_unique(cands@, id@, c, i as int);
            }
            return Some(i);
        }
        i = i + 1;
    }
    assert(!exists|k: int| is_first_match(cands@, id@, k)) by {
        if exists|k: int| is_first_match(cands@, id@, k) {
            let k = choose|k: int| is_first_match(cands@, id@, k);
            assert(cands@[k].id@ != id@);
        }
    }
    None
}

impl Registry {
    /// A registry that remembers `persisted` (a root path and a depth, as
    /// last saved) and authorizes that root again when `resolve` finds it
    /// still a directory. The depth is capped at 32 and is 8 when nothing was
    /// saved.
    pub fn load<R: Fn(&str) -> Result<String, String>>(
        settings_path: String,
        persisted: Option<(String, u8)>,
        resolve: &R,
    ) -> (r: Registry)
        requires
            forall|a: &str| resolve.requires((a,)),
        ensures
            r.settings_path == settings_path,
            r.persisted_root_path == match persisted {
                Some(p) => Some(p.0),
                None => None,
            },
            r.max_depth == match persisted {
                Some(p) => if p.1 <= MAX_SCAN_DEPTH {
                    p.1
                } else {
                    MAX_SCAN_DEPTH
                },
                None => DEFAULT_MAX_DEPTH,
            },
            r.scan is None,
            r.pending_scan_id is None,
            match persisted {
                None => r.root is None && r.next_id == 1,
                Some(p) => match r.root {
                    Some(root) => root.id@ == ident("root"@, 1) && root.max_depth == r.max_depth
                        && resolved(*resolve, p.0@, Ok(root.path)) && r.next_id == 2,
                    None => (exists|e: String| resolved(*resolve, p.0@, Err(e))) && r.next_id == 1,
                },
            },
    {
        let (persisted_root_path, max_depth) = match &persisted {
            Some(p) => (Some(p.0.clone()), if p.1 <= MAX_SCAN_DEPTH {
                p.1
            } else {
                MAX_SCAN_DEPTH
            }),
            None => (None, DEFAULT_MAX_DEPTH),
        };
        let mut registry = Registry {
            next_id: 1,
            settings_path,
            persisted_root_path,
            max_depth,
            root: None,
            scan: None,
            pending_scan_id: None,
        };
        if let Some(p) = &persisted {
            match resolve_path(resolve, p.0.as_str()) {
                Ok(canonical) => {
                    let id = registry.next_identifier("root");
                    registry.root = Some(AuthorizedRoot { id, path: canonical, max_depth });
                },
                Err(e) => {
                    assert(resolved(*resolve, p.0@, Err(e)));
                },
            }
        }
        registry
    }

    /// The settings to show: the authorized root, or the remembered path.
    pub fn settings(&self) -> (r: BuildArtifactSettings)
        ensures
            settings_of(*self, r),
    {
        BuildArtifactSettings {
            root_id: match &self.root {
                Some(root) => Some(root.id.clone()),
                None => None,
            },
            root_path: match &self.root {
                Some(root) => Some(root.path.clone()),
                None => copy_opt_string(&self.persisted_root_path),
            },
            max_depth: self.max_depth,
        }
    }

    /// The next identifier with `prefix`, numbered by the counter.
    pub fn next_identifier(&mut self, prefix: &str) -> (r: String)
        ensures
            r@ == ident(prefix@, old(self).next_id),
            final(self).next_id == bump(old(self).next_id),
            same_but_counter(*old(self), *final(self)),
    {
        let value = self.next_id;
        self.next_id = saturating_inc(value);
        let mut r = owned(prefix);
        crate::text::push_char(&mut r, '-');
        let digits = decimal_string(value);
        push_str(&mut r, digits.as_str());
        r
    }

    /// Authorizes the directory that `resolve` makes of `path`: a new root
    /// identifier, the path remembered, and any scan forgotten. A path that
    /// does not resolve changes nothing.
    pub fn authorize_root<R: Fn(&str) -> Result<String, String>>(
        &mut self,
        path: &str,
        resolve: &R,
    ) -> (r: Result<BuildArtifactSettings, String>)
        requires
            forall|a: &str| resolve.requires((a,)),
        ensures
            match r {
                Ok(s) => final(self).root matches Some(root) && resolved(
                    *resolve,
                    path@,
                    Ok(root.path),
                ) && authorized_with(*old(self), *final(self), root.path) && settings_of(
                    *final(self),
                    s,
                ),
                Err(e) => resolved(*resolve, path@, Err(e)) && *final(self) == *old(self),
            },
    {
        let canonical = match resolve_path(resolve, path) {
            Ok(c) => c,
            Err(e) => return Err(e),
        };
        let id = self.next_identifier("root");
        self.persisted_root_path = Some(canonical.clone());
        self.root = Some(AuthorizedRoot { id, path: canonical, max_depth: self.max_depth });
        self.scan = None;
        self.pending_scan_id = None;
        Ok(self.settings())
    }

    /// Starts a scan of the authorized root `root_id` at depth `max_depth`:
    /// the root is resolved again, the depth remembered, any installed scan
    /// dropped, and a new scan identifier issued as the only one
    /// `install_scan` will accept.
    pub fn prepare_scan<R: Fn(&str) -> Result<String, String>>(
        &mut self,
        root_id: &str,
        max_depth: u8,
        resolve: &R,
    ) -> (r: Result<(String, u8, String), String>)
        requires
            forall|a: &str| resolve.requires((a,)),
        ensures
            max_depth > MAX_SCAN_DEPTH ==> (r matches Err(e) && e@ == depth_message()),
            max_depth > MAX_SCAN_DEPTH ==> *final(self) == *old(self),
            max_depth <= MAX_SCAN_DEPTH && !(old(self).root matches Some(root) && root.id@
                == root_id@) ==> (r matches Err(e) && e@ == unauthorized_message()) && *final(self) == *old(self),
            max_depth <= MAX_SCAN_DEPTH && (old(self).root matches Some(root) && root.id@
                == root_id@) ==> match r {
                Err(e) => resolved(*resolve, old(self).root->0.path@, Err(e)) && *final(self)
                    == *old(self),
                Ok((path, depth, scan_id)) => resolved(
                    *resolve,
                    old(self).root->0.path@,
                    Ok(path),
                ) && depth == max_depth && scan_id@ == ident("scan"@, old(self).next_id)
                    && prepared_with(*old(self), *final(self), path, max_depth, scan_id),
            },
    {
        if max_depth > MAX_SCAN_DEPTH {
            return Err(owned("Scan depth must be between 0 and 32"));
        }
        let (id, old_path) = match &self.root {
            Some(root) => {
                if !str_eq(root.id.as_str(), root_id) {
                    return Err(owned("The selected build artifact root is no longer authorized"));
                }
                (root.id.clone(), root.path.clone())
            },
            None => {
                return Err(owned("The selected build artifact root is no longer authorized"));
            },
        };
        let path = match resolve_path(resolve, old_path.as_str()) {
            Ok(p) => p,
            Err(e) => return Err(e),
        };
        self.root = Some(AuthorizedRoot { id, path: path.clone(), max_depth });
        self.max_depth = max_depth;
        self.persisted_root_path = Some(path.clone());
        self.scan = None;
        let scan_id = self.next_identifier("scan");
        self.pending_scan_id = Some(scan_id.clone());
        Ok((path, max_depth, scan_id))
    }

    /// Installs what a walk of the root found as the current scan, when the
    /// root, its depth and the pending scan are still those the walk was
    /// started with; each candidate gets the next identifier and a pending
    /// measurement.
    pub fn install_scan(
        &mut self,
        root_id: &str,
        scan_id: String,
        root_path: String,
        max_depth: u8,
        discovery: Discovery,
        cargo_available: bool,
        cargo_message: Option<String>,
    ) -> (r: Result<BuildArtifactScan, String>)
        ensures
            match install_refusal(*old(self), root_id@, scan_id@, root_path@, max_depth) {
                Some(m) => r matches Err(e) && e@ == m && *final(self) == *old(self),
                None => r matches Ok(scan) && installed(
                    *old(self),
                    *final(self),
                    root_id@,
                    scan_id,
                    root_path,
                    discovery,
                ) && scan_reported(
                    scan,
                    final(self).scan->0,
                    root_id@,
                    scan_id,
                    root_path,
                    max_depth,
                    discovery,
                    cargo_available,
                    cargo_message,
                ),
            },
    {
        let ok_root = match &self.root {
            Some(root) => str_eq(root.id.as_str(), root_id) && str_eq(
                root.path.as_str(),
                root_path.as_str(),
            ),
            None => false,
        };
        if !ok_root {
            return Err(owned("The build artifact root changed while scanning"));
        }
        let depth_same = match &self.root {
            Some(root) => root.max_depth == max_depth,
            None => false,
        };
        if !depth_same {
            return Err(owned("The scan depth changed while scanning"));
        }
        let pending_same = match &self.pending_scan_id {
            Some(p) => str_eq(p.as_str(), scan_id.as_str()),
            None => false,
        };
        if !pending_same {
            return Err(owned("A newer build artifact scan replaced this request"));
        }
        let ghost start = self.next_id;
        let ghost before = *self;
        let ghost found = discovery.candidates@;
        let Discovery { candidates, skipped, errors } = discovery;
        let n = candidates.len();
        let mut rest = candidates;
        let mut queue: Vec<DiscoveredCandidate> = Vec::new();
        while rest.len() > 0
            invariant
                rest@.len() + queue@.len() == n,
                n == found.len(),
                forall|k: int| 0 <= k < rest@.len() ==> #[trigger] rest@[k] == found[k],
                forall|k: int| 0 <= k < queue@.len() ==> #[trigger] queue@[k] == found[n - 1 - k],
            decreases rest.len(),
        {
            let d = rest.pop().unwrap();
            queue.push(d);
        }
        let mut records: Vec<CandidateRecord> = Vec::new();
        let mut responses: Vec<BuildArtifactCandidate> = Vec::new();
        let mut i: usize = 0;
        while queue.len() > 0
            invariant
                i <= n,
                queue@.len() + i == n,
                n == found.len(),
                forall|k: int| 0 <= k < queue@.len() ==> #[trigger] queue@[k] == found[n - 1 - k],
                records@.len() == i,
                responses@.len() == i,
                forall|k: int|
                    0 <= k < i ==> record_from(#[trigger] records@[k], found[k], counter_after(start, k)),
                forall|k: int| 0 <= k < i ==> response_of(records@[k], #[trigger] responses@[k]),
                self.next_id == counter_after(start, i as int),
                same_but_counter(before, *self),
            decreases queue.len(),
        {
            let d = queue.pop().unwrap();
            let id = self.next_identifier("candidate");
            let record = CandidateRecord {
                id,
                project_path: d.project_path,
                target_path: d.target_path,
                status: d.status,
                message: d.message,
                measurement: pending_measurement(),
            };
            responses.push(record.response());
            records.push(record);
            i = i + 1;
        }
        let status = if skipped == 0 {
            BuildArtifactScanStatus::Ready
        } else {
            BuildArtifactScanStatus::Partial
        };
        self.scan = Some(
            ScanSession {
                id: scan_id.clone(),
                root_id: owned(root_id),
                root_path: root_path.clone(),
                candidates: records,
            },
        );
        self.pending_scan_id = None;
        Ok(
            BuildArtifactScan {
                root_id: owned(root_id),
                scan_id,
                root_path,
                max_depth,
                status,
                candidates: responses,
                skipped,
                errors,
                cargo_available,
                cargo_message,
            },
        )
    }

    /// The installed scan `scan_id`, when its root is still the authorized
    /// one.
    pub fn current_scan(&self, scan_id: &str) -> (r: Result<&ScanSession, String>)
        ensures
            match scan_refusal(*self, scan_id@) {
                Some(m) => r matches Err(e) && e@ == m,
                None => r matches Ok(s) && self.scan == Some(*s),
            },
    {
        match &self.scan {
            Some(scan) => {
                if !str_eq(scan.id.as_str(), scan_id) {
                    return Err(
                        owned("The build artifact scan is stale; scan again before continuing"),
                    );
                }
                let owns = match &self.root {
                    Some(root) => str_eq(root.id.as_str(), scan.root_id.as_str()) && str_eq(
                        root.path.as_str(),
                        scan.root_path.as_str(),
                    ),
                    None => false,
                };
                if !owns {
                    return Err(owned("The authorized root changed after this scan"));
                }
                Ok(scan)
            },
            None => Err(owned("The build artifact scan is stale; scan again before continuing")),
        }
    }

    /// The installed scan `scan_id`, for changing it, when its root is still
    /// the authorized one.
    pub fn current_scan_mut(&mut self, scan_id: &str) -> (r: Result<&mut ScanSession, String>)
        ensures
            match scan_refusal(*old(self), scan_id@) {
                Some(m) => (r matches Err(e) && e@ == m) && *final(self) == *old(self),
                None => r matches Ok(s) && *s == old(self).scan->0 && final(self).scan == Some(
                    *final(s),
                ) && final(self).next_id == old(self).next_id && final(self).settings_path == old(
                    self,
                ).settings_path && final(self).persisted_root_path == old(self).persisted_root_path
                    && final(self).max_depth == old(self).max_depth && final(self).root == old(
                    self,
                ).root && final(self).pending_scan_id == old(self).pending_scan_id,
            },
    {
        let owns = match (&self.scan, &self.root) {
            (Some(scan), Some(root)) => str_eq(root.id.as_str(), scan.root_id.as_str()) && str_eq(
                root.path.as_str(),
                scan.root_path.as_str(),
            ),
            _ => false,
        };
        match &mut self.scan {
            Some(scan) => {
                if !str_eq(scan.id.as_str(), scan_id) {
                    return Err(
                        owned("The build artifact scan is stale; scan again before continuing"),
                    );
                }
                if !owns {
                    return Err(owned("The authorized root changed after this scan"));
                }
                Ok(scan)
            },
            None => Err(owned("The build artifact scan is stale; scan again before continuing")),
        }
    }

    /// Records the measurement of a candidate of the current scan.
    pub fn apply_measurement(
        &mut self,
        scan_id: &str,
        candidate_id: &str,
        measurement: BuildArtifactMeasurement,
    ) -> (r: Result<BuildArtifactMeasurement, String>)
        ensures
            match candidate_lookup(*old(self), scan_id@, candidate_id@) {
                Err(e) => (r matches Err(m) && m@ == e) && *final(self) == *old(self),
                Ok(_) => r == Ok::<BuildArtifactMeasurement, String>(measurement) && measured_at(
                    *old(self),
                    *final(self),
                    lookup(old(self).scan->0.candidates@, candidate_id@)->0,
                    measurement,
                ),
            },
    {
        let scan = self.current_scan_mut(scan_id)?;
        match find_candidate(&scan.candidates, candidate_id) {
            Some(i) => {
                let copy = copy_measurement(&measurement);
                let ghost before = scan.candidates@;
                let mut c = scan.candidates.remove(i);
                c.measurement = measurement;
                scan.candidates.insert(i, c);
                assert(scan.candidates@ =~= before.update(
                    i as int,
                    CandidateRecord { measurement: measurement, ..before[i as int] },
                ));
                Ok(copy)
            },
            None => Err(owned("The build directory candidate is not part of this scan")),
        }
    }

    /// Records the measurement a cleanup left for its candidate.
    pub fn apply_cleanup_result(&mut self, scan_id: &str, result: &BuildArtifactCleanupResult) -> (r:
        Result<(), String>)
        ensures
            match candidate_lookup(*old(self), scan_id@, result.candidate_id@) {
                Err(e) => (r matches Err(m) && m@ == e) && *final(self) == *old(self),
                Ok(_) => r is Ok && measured_at(
                    *old(self),
                    *final(self),
                    lookup(old(self).scan->0.candidates@, result.candidate_id@)->0,
                    result.measurement,
                ),
            },
    {
        let scan = self.current_scan_mut(scan_id)?;
        match find_candidate(&scan.candidates, result.candidate_id.as_str()) {
            Some(i) => {
                let measurement = copy_measurement(&result.measurement);
                let ghost before = scan.candidates@;
                let mut c = scan.candidates.remove(i);
                c.measurement = measurement;
                scan.candidates.insert(i, c);
                assert(scan.candidates@ =~= before.update(
                    i as int,
                    CandidateRecord { measurement: result.measurement, ..before[i as int] },
                ));
                Ok(())
            },
            None => Err(owned("The build directory candidate is not part of this scan")),
        }
    }

    /// The candidate `candidate_id` of the current scan `scan_id`.
    pub fn candidate(&self, scan_id: &str, candidate_id: &str) -> (r: Result<CandidateRecord, String>)
        ensures
            match (r, candidate_lookup(*self, scan_id@, candidate_id@)) {
                (Ok(c), Ok(d)) => c == d,
                (Err(m), Err(e)) => m@ == e,
                _ => false,
            },
    {
        let scan = self.current_scan(scan_id)?;
        match find_candidate(&scan.candidates, candidate_id) {
            Some(i) => Ok(copy_record(&scan.candidates[i])),
            None => Err(owned("The build directory candidate is not part of this scan")),
        }
    }

    /// The authorized root's path, when `root_id` is still authorized.
    pub fn root_path(&self, root_id: &str) -> (r: Result<String, String>)
        ensures
            match self.root {
                Some(root) if root.id@ == root_id@ => r == Ok::<String, String>(root.path),
                _ => r matches Err(e) && e@ == unauthorized_message(),
            },
    {
        match &self.root {
            Some(root) => {
                if str_eq(root.id.as_str(), root_id) {
                    Ok(root.path.clone())
                } else {
                    Err(owned("The selected build artifact root is no longer authorized"))
                }
            },
            None => Err(owned("The selected build artifact root is no longer authorized")),
        }
    }

    /// The project or target directory of a candidate of the current scan.
    pub fn candidate_path(
        &self,
        scan_id: &str,
        candidate_id: &str,
        target: BuildArtifactOpenTarget,
    ) -> (r: Result<String, String>)
        ensures
            match (r, candidate_lookup(*self, scan_id@, candidate_id@)) {
                (Ok(p), Ok(d)) => p == match target {
                    BuildArtifactOpenTarget::Project => d.project_path,
                    BuildArtifactOpenTarget::Target => d.target_path,
                },
                (Err(m), Err(e)) => m@ == e,
                _ => false,
            },
    {
        let candidate = self.candidate(scan_id, candidate_id)?;
        Ok(
            match target {
                BuildArtifactOpenTarget::Project => candidate.project_path,
                BuildArtifactOpenTarget::Target => candidate.target_path,
            },
        )
    }

    /// The scan root's path and the candidate, for a cleanup.
    pub fn cleanup_context(&self, scan_id: &str, candidate_id: &str) -> (r: Result<
        (String, CandidateRecord),
        String,
    >)
        ensures
            match (r, candidate_lookup(*self, scan_id@, candidate_id@)) {
                (Ok((root, c)), Ok(d)) => c == d && root == self.scan->0.root_path,
                (Err(m), Err(e)) => m@ == e,
                _ => false,
            },
    {
        let scan = self.current_scan(scan_id)?;
        match find_candidate(&scan.candidates, candidate_id) {
            Some(i) => Ok((scan.root_path.clone(), copy_record(&scan.candidates[i]))),
            None => Err(owned("The build directory candidate is not part of this scan")),
        }
    }
}

/// `new` is `old` after preparing scan `scan_id` of the root resolved to
/// `path` at depth `max_depth`.
pub open spec fn prepared_with(
    old: Registry,
    new: Registry,
    path: String,
    max_depth: u8,
    scan_id: String,
) -> bool {
    &&& new.next_id == bump(old.next_id)
    &&& new.settings_path == old.settings_path
    &&& new.persisted_root_path == Some(path)
    &&& new.max_depth == max_depth
    &&& new.root == Some(AuthorizedRoot { id: old.root->0.id, path, max_depth })
    &&& new.scan is None
    &&& new.pending_scan_id == Some(scan_id)
}

/// `new` is `old` after installing scan `scan_id` with the candidates of
/// `discovery`, numbered from the counter on.
pub open spec fn installed(
    old: Registry,
    new: Registry,
    root_id: Seq<char>,
    scan_id: String,
    root_path: String,
    discovery: Discovery,
) -> bool {
    let n = discovery.candidates@.len();
    &&& new.next_id == counter_after(old.next_id, n as int)
    &&& new.settings_path == old.settings_path
    &&& new.persisted_root_path == old.persisted_root_path
    &&& new.max_depth == old.max_depth
    &&& new.root == old.root
    &&& new.pending_scan_id is None
    &&& new.scan matches Some(s) && s.id == scan_id && s.root_id@ == root_id && s.root_path
        == root_path && s.candidates@.len() == n && forall|k: int|
        0 <= k < n ==> record_from(
            #[trigger] s.candidates@[k],
            discovery.candidates@[k],
            counter_after(old.next_id, k),
        )
}

/// The scan report of an installed session.
pub open spec fn scan_reported(
    scan: BuildArtifactScan,
    session: ScanSession,
    root_id: Seq<char>,
    scan_id: String,
    root_path: String,
    max_depth: u8,
    discovery: Discovery,
    cargo_available: bool,
    cargo_message: Option<String>,
) -> bool {
    &&& scan.root_id@ == root_id
    &&& scan.scan_id == scan_id
    &&& scan.root_path == root_path
    &&& scan.max_depth == max_depth
    &&& scan.status == if discovery.skipped == 0 {
        BuildArtifactScanStatus::Ready
    } else {
        BuildArtifactScanStatus::Partial
    }
    &&& scan.candidates@.len() == session.candidates@.len()
    &&& forall|k: int|
        0 <= k < scan.candidates@.len() ==> response_of(
            session.candidates@[k],
            #[trigger] scan.candidates@[k],
        )
    &&& scan.skipped == discovery.skipped
    &&& scan.errors == discovery.errors
    &&& scan.cargo_available == cargo_available
    &&& scan.cargo_message == cargo_message
}

/// The arguments of the one command a build-directory cleanup may run:
/// `cargo clean --offline --manifest-path <project>/Cargo.toml --target-dir
/// <target>`.
pub open spec fn clean_args(c: CandidateRecord) -> Seq<Seq<char>> {
    seq![
        "clean"@,
        "--offline"@,
        "--manifest-path"@,
        join_path(c.project_path@, "Cargo.toml"@),
        "--target-dir"@,
        c.target_path@,
    ]
}

/// A candidate may be cleaned only when it was recognized as a Cargo target
/// and measured completely.
pub open spec fn cleanup_eligible(c: CandidateRecord) -> bool {
    &&& c.status == BuildArtifactCandidateStatus::Ready
    &&& c.measurement.status == BuildArtifactMeasurementStatus::Ready
    &&& c.measurement.skipped == 0
}

pub open spec fn bytes_before(c: CandidateRecord) -> u64 {
    match c.measurement.bytes {
        Some(b) => b,
        None => 0,
    }
}

/// A measurement after cleaning is complete when the directory was measured
/// fully or is gone.
pub open spec fn measurement_complete(m: BuildArtifactMeasurement) -> bool {
    m.status == BuildArtifactMeasurementStatus::Ready || m.status
        == BuildArtifactMeasurementStatus::Missing
}

/// The size left after cleaning: measured when the measurement is complete,
/// else the size before (nothing is claimed released).
pub open spec fn bytes_after(c: CandidateRecord, m: BuildArtifactMeasurement) -> u64 {
    if measurement_complete(m) {
        match m.bytes {
            Some(b) => b,
            None => bytes_before(c),
        }
    } else {
        bytes_before(c)
    }
}

pub open spec fn released(before: u64, after: u64) -> u64 {
    if before >= after {
        (before - after) as u64
    } else {
        0
    }
}

pub open spec fn not_eligible_message() -> Seq<char> {
    "The candidate is not verified and fully measured"@
}

/// A refused cleanup: nothing ran and the candidate keeps its measurement.
pub open spec fn is_rejected(r: BuildArtifactCleanupResult, c: CandidateRecord, message: Seq<char>) -> bool {
    &&& r.candidate_id == c.id
    &&& r.status == BuildArtifactCleanupStatus::Rejected
    &&& r.command is None
    &&& r.before_bytes == bytes_before(c)
    &&& r.after_bytes == bytes_before(c)
    &&& r.released_bytes == 0
    &&& r.measurement == c.measurement
    &&& r.stdout@.len() == 0
    &&& r.stderr@.len() == 0
    &&& r.message matches Some(m) && m@ == message
    &&& r.failure is None
}

/// A skipped cleanup: the directory was already gone, nothing ran.
pub open spec fn is_skipped(r: BuildArtifactCleanupResult, c: CandidateRecord) -> bool {
    &&& r.candidate_id == c.id
    &&& r.status == BuildArtifactCleanupStatus::Skipped
    &&& r.command is None
    &&& r.before_bytes == bytes_before(c)
    &&& r.after_bytes == 0
    &&& r.released_bytes == 0
    &&& is_missing_measurement(r.measurement)
    &&& r.stdout@.len() == 0
    &&& r.stderr@.len() == 0
    &&& r.message matches Some(m) && m@ == "Build directory no longer exists; nothing was run"@
    &&& r.failure is None
}

/// The status of a cleanup whose command failed: partial when space was
/// released anyway.
pub open spec fn failed_status(released_bytes: u64) -> BuildArtifactCleanupStatus {
    if released_bytes > 0 {
        BuildArtifactCleanupStatus::PartiallyCompleted
    } else {
        BuildArtifactCleanupStatus::Failed
    }
}

/// The report of a cleanup that ran `cargo clean` with outcome `out` and
/// measured the target as `m` afterwards.
pub open spec fn cleaned(
    r: BuildArtifactCleanupResult,
    c: CandidateRecord,
    out: Result<CommandRun, CommandFailure>,
    m: BuildArtifactMeasurement,
) -> bool {
    let before = bytes_before(c);
    let after = bytes_after(c, m);
    &&& r.candidate_id == c.id
    &&& r.command matches Some(e) && envelope_is(e, "cargo"@, clean_args(c), 300000)
    &&& r.before_bytes == before
    &&& r.after_bytes == after
    &&& r.released_bytes == released(before, after)
    &&& r.measurement == m
    &&& match out {
        Ok(run) => if run.exit_code == Some(0i32) {
            &&& r.status == if measurement_complete(m) {
                BuildArtifactCleanupStatus::Succeeded
            } else {
                BuildArtifactCleanupStatus::PartiallyCompleted
            }
            &&& r.stdout == run.stdout
            &&& r.stderr == run.stderr
            &&& r.failure is None
            &&& if measurement_complete(m) {
                r.message is None
            } else {
                r.message matches Some(t) && t@
                    == "cargo clean succeeded, but remaining disk usage could not be measured completely"@
            }
        } else {
            &&& r.status == failed_status(released(before, after))
            &&& r.stdout == run.stdout
            &&& r.stderr == run.stderr
            &&& r.failure matches Some(f) && f.kind == FailureKind::CommandFailed && f.message@
                == "cargo clean failed"@ && f.command == Some(run.envelope) && f.stdout
                == run.stdout && f.stderr == run.stderr && r.message == Some(f.message)
        },
        Err(f) => {
            &&& r.status == failed_status(released(before, after))
            &&& r.stdout == f.stdout
            &&& r.stderr == f.stderr
            &&& r.failure == Some(f)
            &&& r.message == Some(f.message)
        },
    }
}

/// A refused cleanup of `candidate` with `message`.
pub fn rejected_cleanup(candidate: &CandidateRecord, before_bytes: u64, message: &str) -> (r:
    BuildArtifactCleanupResult)
    ensures
        r.candidate_id == candidate.id,
        r.status == BuildArtifactCleanupStatus::Rejected,
        r.command is None,
        r.before_bytes == before_bytes,
        r.after_bytes == before_bytes,
        r.released_bytes == 0,
        r.measurement == candidate.measurement,
        r.stdout@.len() == 0,
        r.stderr@.len() == 0,
        r.message matches Some(m) && m@ == message@,
        r.failure is None,
{
    BuildArtifactCleanupResult {
        candidate_id: candidate.id.clone(),
        status: BuildArtifactCleanupStatus::Rejected,
        command: None,
        before_bytes,
        after_bytes: before_bytes,
        released_bytes: 0,
        measurement: copy_measurement(&candidate.measurement),
        stdout: String::new(),
        stderr: String::new(),
        message: Some(owned(message)),
        failure: None,
    }
}

/// A cleanup whose command failed: partial when space was released anyway.
pub fn failed_cleanup(
    candidate: &CandidateRecord,
    command: CommandEnvelope,
    before_bytes: u64,
    after_bytes: u64,
    released_bytes: u64,
    measurement: BuildArtifactMeasurement,
    stdout: String,
    stderr: String,
    failure: CommandFailure,
) -> (r: BuildArtifactCleanupResult)
    ensures
        r.candidate_id == candidate.id,
        r.status == failed_status(released_bytes),
        r.command == Some(command),
        r.before_bytes == before_bytes,
        r.after_bytes == after_bytes,
        r.released_bytes == released_bytes,
        r.measurement == measurement,
        r.stdout == stdout,
        r.stderr == stderr,
        r.message == Some(failure.message),
        r.failure == Some(failure),
{
    BuildArtifactCleanupResult {
        candidate_id: candidate.id.clone(),
        status: if released_bytes > 0 {
            BuildArtifactCleanupStatus::PartiallyCompleted
        } else {
            BuildArtifactCleanupStatus::Failed
        },
        command: Some(command),
        before_bytes,
        after_bytes,
        released_bytes,
        measurement,
        stdout,
        stderr,
        message: Some(failure.message.clone()),
        failure: Some(failure),
    }
}

/// `validate` answered `v` for the candidate under `root`.
pub open spec fn validated<V: Fn(&str, &CandidateRecord) -> Result<Validation, String>>(
    validate: V,
    root: Seq<char>,
    c: CandidateRecord,
    v: Result<Validation, String>,
) -> bool {
    exists|a: &str, b: &CandidateRecord| a@ == root && *b == c && #[trigger] validate.ensures((a, b), v)
}

/// `measure` answered `m` for `path`.
pub open spec fn measured<M: Fn(&str) -> BuildArtifactMeasurement>(
    measure: M,
    path: Seq<char>,
    m: BuildArtifactMeasurement,
) -> bool {
    exists|a: &str| a@ == path && #[trigger] measure.ensures((a,), m)
}

/// `runner` answered `out` for `cargo clean` of the candidate, with the
/// cleanup's time budget.
pub open spec fn ran_clean<F: Fn(&str, &[String], u64) -> Result<CommandRun, CommandFailure>>(
    runner: F,
    c: CandidateRecord,
    out: Result<CommandRun, CommandFailure>,
) -> bool {
    exists|p: &str, a: &[String]|
        p@ == "cargo"@ && views(a@) == clean_args(c) && #[trigger] runner.ensures(
            (p, a, CLEAN_TIMEOUT_SECS),
            out,
        )
}

/// What `has_cargo_marker` answers for `target`, by `is_regular_file`.
pub open spec fn marker_found<F: Fn(&str) -> bool>(is_regular_file: F, target: Seq<char>, found: bool) -> bool {
    ||| (found && answered(is_regular_file, join_path(target, "CACHEDIR.TAG"@), true))
    ||| (answered(is_regular_file, join_path(target, "CACHEDIR.TAG"@), false) && answered(
        is_regular_file,
        join_path(target, ".rustc_info.json"@),
        found,
    ))
}

/// What revalidating `c` decides once its target is still a directory:
/// the target must still be the project's own `target`, the manifest and a
/// Cargo marker must still be regular files, and both, resolved by
/// `canonicalize`, must stay under the authorized root `root`.
pub open spec fn directory_revalidated<F, C>(
    is_regular_file: F,
    canonicalize: C,
    root: Seq<char>,
    c: CandidateRecord,
    r: Result<Validation, String>,
) -> bool where F: Fn(&str) -> bool, C: Fn(&str) -> Result<String, String> {
    if !(crate::path::file_name(c.target_path@) == Some("target"@) && crate::path::parent_is(
        c.target_path@,
        c.project_path@,
    )) {
        r matches Err(e) && e@ == "The target path is no longer directly owned by the scanned project"@
    } else {
        exists|manifest: bool|
            #[trigger] answered(is_regular_file, join_path(c.project_path@, "Cargo.toml"@), manifest) && if !manifest {
                r matches Err(e) && e@ == "The project's Cargo.toml is missing or is not a regular file"@
            } else {
                exists|marker: bool|
                    #[trigger] marker_found(is_regular_file, c.target_path@, marker) && if !marker {
                        r matches Err(e) && e@ == "The target no longer contains a trusted Cargo marker"@
                    } else {
                        exists|project: Result<String, String>|
                            #[trigger] resolved(canonicalize, c.project_path@, project) && match project {
                                Err(e) => r matches Err(x) && x@ == "Could not resolve project directory: "@ + e@,
                                Ok(pc) => exists|target: Result<String, String>|
                                    #[trigger] resolved(canonicalize, c.target_path@, target) && match target {
                                        Err(e) => r matches Err(x) && x@ == "Could not resolve target directory: "@
                                            + e@,
                                        Ok(tc) => if crate::path::path_starts_with(pc@, root)
                                            && crate::path::path_starts_with(tc@, root) && crate::path::parent_is(
                                            tc@,
                                            pc@,
                                        ) {
                                            r == Ok::<Validation, String>(Validation::Ready)
                                        } else {
                                            r matches Err(x) && x@
                                                == "The project or target escaped the authorized scan root"@
                                        },
                                    },
                            }
                    }
            }
    }
}

/// What revalidating `c` under `root` just before cleaning decides: the root
/// must resolve (by `resolve_dir`); a target that is gone is `Missing`; one
/// that cannot be inspected, or is no longer a real directory, is refused;
/// a directory is checked further.
pub open spec fn revalidated<R, T, F, C>(
    resolve_dir: R,
    probe: T,
    is_regular_file: F,
    canonicalize: C,
    root: Seq<char>,
    c: CandidateRecord,
    r: Result<Validation, String>,
) -> bool where
    R: Fn(&str) -> Result<String, String>,
    T: Fn(&str) -> TargetProbe,
    F: Fn(&str) -> bool,
    C: Fn(&str) -> Result<String, String>,
 {
    exists|resolved_root: Result<String, String>|
        #[trigger] resolved(resolve_dir, root, resolved_root) && match resolved_root {
            Err(e) => r == Err::<Validation, String>(e),
            Ok(croot) => exists|t: TargetProbe|
                #[trigger] probed(probe, c.target_path@, t) && match t {
                    TargetProbe::NotFound => r == Ok::<Validation, String>(Validation::Missing),
                    TargetProbe::Unreadable(m) => r matches Err(e) && e@ == "Could not revalidate target: "@ + m@,
                    TargetProbe::Symlink => r matches Err(e) && e@
                        == "The target path changed and is no longer a regular directory"@,
                    TargetProbe::NotDirectory => r matches Err(e) && e@
                        == "The target path changed and is no longer a regular directory"@,
                    TargetProbe::Directory => directory_revalidated(is_regular_file, canonicalize, croot@, c, r),
                },
        }
}

/// Checks again, just before cleaning, that `c` is still a Cargo build
/// directory owned by its project under the authorized `root`.
pub fn validate_for_cleanup_with<R, T, F, C>(
    root: &str,
    c: &CandidateRecord,
    resolve_dir: &R,
    probe: &T,
    is_regular_file: &F,
    canonicalize: &C,
) -> (r: Result<Validation, String>) where
    R: Fn(&str) -> Result<String, String>,
    T: Fn(&str) -> TargetProbe,
    F: Fn(&str) -> bool,
    C: Fn(&str) -> Result<String, String>,

    requires
        forall|a: &str| resolve_dir.requires((a,)),
        forall|a: &str| probe.requires((a,)),
        forall|a: &str| is_regular_file.requires((a,)),
        forall|a: &str| canonicalize.requires((a,)),
    ensures
        revalidated(*resolve_dir, *probe, *is_regular_file, *canonicalize, root@, *c, r),
{
    let rr = resolve_path(resolve_dir, root);
    let ghost rr_v = rr;
    let croot = match rr {
        Ok(p) => p,
        Err(e) => return Err(e),
    };
    let t = probe_path(probe, c.target_path.as_str());
    let ghost t_v = t;
    let r = match t {
        TargetProbe::NotFound => Ok(Validation::Missing),
        TargetProbe::Unreadable(m) => {
            let mut e = owned("Could not revalidate target: ");
            push_str(&mut e, m.as_str());
            Err(e)
        },
        TargetProbe::Symlink => Err(owned("The target path changed and is no longer a regular directory")),
        TargetProbe::NotDirectory => Err(owned("The target path changed and is no longer a regular directory")),
        TargetProbe::Directory => revalidate_directory(croot.as_str(), c, is_regular_file, canonicalize),
    };
    assert(probed(*probe, c.target_path@, t_v));
    assert(resolved(*resolve_dir, root@, rr_v));
    r
}

fn revalidate_directory<F, C>(root: &str, c: &CandidateRecord, is_regular_file: &F, canonicalize: &C) -> (r: Result<
    Validation,
    String,
>) where F: Fn(&str) -> bool, C: Fn(&str) -> Result<String, String>
    requires
        forall|a: &str| is_regular_file.requires((a,)),
        forall|a: &str| canonicalize.requires((a,)),
    ensures
        directory_revalidated(*is_regular_file, *canonicalize, root@, *c, r),
{
    let owned_target = match crate::path::path_file_name(c.target_path.as_str()) {
        Some(name) => str_eq(name.as_str(), "target"),
        None => false,
    };
    proof {
        reveal_strlit("target");
    }
    if !owned_target || !crate::path::has_parent(c.target_path.as_str(), c.project_path.as_str()) {
        return Err(owned("The target path is no longer directly owned by the scanned project"));
    }
    let manifest = is_cargo_project(c.project_path.as_str(), is_regular_file);
    if !manifest {
        return Err(owned("The project's Cargo.toml is missing or is not a regular file"));
    }
    let marker = has_cargo_marker(c.target_path.as_str(), is_regular_file);
    if !marker {
        assert(marker_found(*is_regular_file, c.target_path@, marker));
        return Err(owned("The target no longer contains a trusted Cargo marker"));
    }
    assert(marker_found(*is_regular_file, c.target_path@, marker));
    let pr = resolve_path(canonicalize, c.project_path.as_str());
    let ghost pr_v = pr;
    let project = match pr {
        Ok(p) => p,
        Err(e) => {
            let mut m = owned("Could not resolve project directory: ");
            push_str(&mut m, e.as_str());
            return Err(m);
        },
    };
    let tr = resolve_path(canonicalize, c.target_path.as_str());
    let ghost tr_v = tr;
    let target = match tr {
        Ok(t) => t,
        Err(e) => {
            let mut m = owned("Could not resolve target directory: ");
            push_str(&mut m, e.as_str());
            assert(resolved(*canonicalize, c.project_path@, pr_v));
            return Err(m);
        },
    };
    assert(resolved(*canonicalize, c.project_path@, pr_v));
    assert(resolved(*canonicalize, c.target_path@, tr_v));
    if !crate::path::starts_with_path(project.as_str(), root) || !crate::path::starts_with_path(target.as_str(), root)
        || !crate::path::has_parent(target.as_str(), project.as_str()) {
        return Err(owned("The project or target escaped the authorized scan root"));
    }
    Ok(Validation::Ready)
}

/// What cleaning `candidate` under `root` reports: a rejection when it is not
/// ready and fully measured; otherwise what revalidation found decides: a
/// skip when the target is gone, a rejection with its message, or the
/// outcome of `cargo clean` with the measurement taken after it.
pub open spec fn cleanup_reported<F, V, M>(
    runner: F,
    validate: V,
    measure: M,
    root: Seq<char>,
    candidate: CandidateRecord,
    r: BuildArtifactCleanupResult,
) -> bool where
    F: Fn(&str, &[String], u64) -> Result<CommandRun, CommandFailure>,
    V: Fn(&str, &CandidateRecord) -> Result<Validation, String>,
    M: Fn(&str) -> BuildArtifactMeasurement,
 {
    &&& !cleanup_eligible(candidate) ==> is_rejected(r, candidate, not_eligible_message())
    &&& cleanup_eligible(candidate) ==> exists|v: Result<Validation, String>|
        #[trigger] validated(validate, root, candidate, v) && match v {
            Ok(Validation::Missing) => is_skipped(r, candidate),
            Err(m) => is_rejected(r, candidate, m@),
            Ok(Validation::Ready) => exists|
                out: Result<CommandRun, CommandFailure>,
                after: BuildArtifactMeasurement,
            |
                #![trigger ran_clean(runner, candidate, out), measured(measure, candidate.target_path@, after)]
                ran_clean(runner, candidate, out) && measured(measure, candidate.target_path@, after)
                    && cleaned(r, candidate, out, after),
        }
}

/// Cleans one build directory with `cargo clean`, only when the candidate
/// is eligible and `validate` still finds it in place (a vanished directory
/// is skipped, any other doubt refuses the cleanup); `measure` gives the size
/// left afterwards. The runner is only ever asked for `cargo clean --offline`
/// on the candidate's own manifest and target.
pub fn run_build_artifact_cleanup_with_runner<F, V, M>(
    root: &str,
    candidate: &CandidateRecord,
    runner: &F,
    validate: &V,
    measure: &M,
) -> (r: BuildArtifactCleanupResult) where
    F: Fn(&str, &[String], u64) -> Result<CommandRun, CommandFailure>,
    V: Fn(&str, &CandidateRecord) -> Result<Validation, String>,
    M: Fn(&str) -> BuildArtifactMeasurement,

    requires
        forall|p: &str, a: &[String], t: u64|
            p@ == "cargo"@ && views(a@) == clean_args(*candidate) && t == CLEAN_TIMEOUT_SECS
                ==> #[trigger] runner.requires((p, a, t)),
        forall|a: &str, b: &CandidateRecord| validate.requires((a, b)),
        forall|a: &str| measure.requires((a,)),
    ensures
        cleanup_reported(*runner, *validate, *measure, root@, *candidate, r),
{
    let before_bytes = match candidate.measurement.bytes {
        Some(b) => b,
        None => 0,
    };
    if candidate.status != BuildArtifactCandidateStatus::Ready || candidate.measurement.status
        != BuildArtifactMeasurementStatus::Ready || candidate.measurement.skipped != 0 {
        return rejected_cleanup(
            candidate,
            before_bytes,
            "The candidate is not verified and fully measured",
        );
    }
    let v = validate(root, candidate);
    assert(validate.ensures((root, candidate), v));
    assert(validated(*validate, root@, *candidate, v));
    match v {
        Ok(Validation::Missing) => {
            return BuildArtifactCleanupResult {
                candidate_id: candidate.id.clone(),
                status: BuildArtifactCleanupStatus::Skipped,
                command: None,
                before_bytes,
                after_bytes: 0,
                released_bytes: 0,
                measurement: missing_measurement(),
                stdout: String::new(),
                stderr: String::new(),
                message: Some(owned("Build directory no longer exists; nothing was run")),
                failure: None,
            };
        },
        Err(message) => {
            return rejected_cleanup(candidate, before_bytes, message.as_str());
        },
        Ok(Validation::Ready) => {},
    }
    let manifest_path = join(candidate.project_path.as_str(), "Cargo.toml");
    let args = crate::command::args6(
        "clean",
        "--offline",
        "--manifest-path",
        manifest_path.as_str(),
        "--target-dir",
        candidate.target_path.as_str(),
    );
    let command = envelope_owned("cargo", crate::command::copy_strings(&args), 300000);
    let arg_slice = args.as_slice();
    let run = runner("cargo", arg_slice, CLEAN_TIMEOUT_SECS);
    assert(runner.ensures(("cargo", arg_slice, CLEAN_TIMEOUT_SECS), run));
    assert(ran_clean(*runner, *candidate, run));
    let target_str = candidate.target_path.as_str();
    let measurement = measure(target_str);
    assert(measure.ensures((target_str,), measurement));
    assert(measured(*measure, candidate.target_path@, measurement));
    let complete = measurement.status == BuildArtifactMeasurementStatus::Ready
        || measurement.status == BuildArtifactMeasurementStatus::Missing;
    let after_bytes = if complete {
        match measurement.bytes {
            Some(b) => b,
            None => before_bytes,
        }
    } else {
        before_bytes
    };
    let released_bytes = if before_bytes >= after_bytes {
        before_bytes - after_bytes
    } else {
        0
    };
    match run {
        Ok(run) => {
            if run.exit_code == Some(0i32) {
                BuildArtifactCleanupResult {
                    candidate_id: candidate.id.clone(),
                    status: if complete {
                        BuildArtifactCleanupStatus::Succeeded
                    } else {
                        BuildArtifactCleanupStatus::PartiallyCompleted
                    },
                    command: Some(command),
                    before_bytes,
                    after_bytes,
                    released_bytes,
                    measurement,
                    stdout: run.stdout,
                    stderr: run.stderr,
                    message: if complete {
                        None
                    } else {
                        Some(
                            owned(
                                "cargo clean succeeded, but remaining disk usage could not be measured completely",
                            ),
                        )
                    },
                    failure: None,
                }
            } else {
                let stdout = run.stdout.clone();
                let stderr = run.stderr.clone();
                let failure = command_failure(FailureKind::CommandFailed, "cargo clean failed", run);
                failed_cleanup(
                    candidate,
                    command,
                    before_bytes,
                    after_bytes,
                    released_bytes,
                    measurement,
                    stdout,
                    stderr,
                    failure,
                )
            }
        },
        Err(failure) => {
            let stdout = failure.stdout.clone();
            let stderr = failure.stderr.clone();
            failed_cleanup(
                candidate,
                command,
                before_bytes,
                after_bytes,
                released_bytes,
                measurement,
                stdout,
                stderr,
                failure,
            )
        },
    }
}

/// The registry as the application shares it between requests.
/// `persist`, asked to save `root_path` and `max_depth` to the settings file
/// at `settings_path`, succeeded (`error` is `None`) or failed with `error`.
pub open spec fn saved<P: Fn(&str, &str, u8) -> Result<(), String>>(
    persist: P,
    settings_path: Seq<char>,
    root_path: Seq<char>,
    max_depth: u8,
    error: Option<String>,
) -> bool {
    exists|a: &str, b: &str, out: Result<(), String>|
        a@ == settings_path && b@ == root_path && #[trigger] persist.ensures((a, b, max_depth), out)
            && match (out, error) {
            (Ok(_), None) => true,
            (Err(x), Some(y)) => x == y,
            _ => false,
        }
}

/// The root at `path` was authorized (it resolved to `new`'s root) but
/// saving the settings answered `e`.
pub open spec fn authorized_unsaved<R: Fn(&str) -> Result<String, String>, P: Fn(&str, &str, u8) -> Result<(), String>>(
    resolve: R,
    persist: P,
    path: Seq<char>,
    old: Registry,
    new: Registry,
    e: String,
) -> bool {
    &&& new.root is Some
    &&& resolved(resolve, path, Ok(new.root->0.path))
    &&& authorized_with(old, new, new.root->0.path)
    &&& saved(persist, old.settings_path@, new.root->0.path@, old.max_depth, Some(e))
}

/// The scan was prepared (the root resolved again to `new`'s root path and
/// the next scan identifier is pending) but saving the settings answered
/// `e`.
pub open spec fn prepared_unsaved<R: Fn(&str) -> Result<String, String>, P: Fn(&str, &str, u8) -> Result<(), String>>(
    resolve: R,
    persist: P,
    old: Registry,
    new: Registry,
    max_depth: u8,
    e: String,
) -> bool {
    &&& new.root is Some
    &&& new.pending_scan_id is Some
    &&& resolved(resolve, old.root->0.path@, Ok(new.root->0.path))
    &&& new.pending_scan_id->0@ == ident("scan"@, old.next_id)
    &&& prepared_with(old, new, new.root->0.path, max_depth, new.pending_scan_id->0)
    &&& saved(persist, old.settings_path@, new.root->0.path@, max_depth, Some(e))
}

fn save_settings<P: Fn(&str, &str, u8) -> Result<(), String>>(
    persist: &P,
    settings_path: &str,
    root_path: &str,
    max_depth: u8,
) -> (r: Result<(), String>)
    requires
        forall|a: &str, b: &str, d: u8| persist.requires((a, b, d)),
    ensures
        saved(
            *persist,
            settings_path@,
            root_path@,
            max_depth,
            match r {
                Ok(_) => None,
                Err(e) => Some(e),
            },
        ),
{
    let r = persist(settings_path, root_path, max_depth);
    assert(persist.ensures((settings_path, root_path, max_depth), r));
    r
}

#[derive(Debug)]
pub struct BuildArtifactState {
    pub registry: Registry,
}

impl BuildArtifactState {
    /// The state with the registry `Registry::load` gives.
    pub fn load<R: Fn(&str) -> Result<String, String>>(
        settings_path: String,
        persisted: Option<(String, u8)>,
        resolve: &R,
    ) -> (r: BuildArtifactState)
        requires
            forall|a: &str| resolve.requires((a,)),
        ensures
            r.registry.settings_path == settings_path,
            r.registry.scan is None,
            r.registry.pending_scan_id is None,
            r.registry.persisted_root_path == match persisted {
                Some(p) => Some(p.0),
                None => None,
            },
            r.registry.max_depth == match persisted {
                Some(p) => if p.1 <= MAX_SCAN_DEPTH {
                    p.1
                } else {
                    MAX_SCAN_DEPTH
                },
                None => DEFAULT_MAX_DEPTH,
            },
            match persisted {
                None => r.registry.root is None && r.registry.next_id == 1,
                Some(p) => match r.registry.root {
                    Some(root) => root.id@ == ident("root"@, 1) && root.max_depth
                        == r.registry.max_depth && resolved(*resolve, p.0@, Ok(root.path))
                        && r.registry.next_id == 2,
                    None => (exists|e: String| resolved(*resolve, p.0@, Err(e)))
                        && r.registry.next_id == 1,
                },
            },
    {
        BuildArtifactState { registry: Registry::load(settings_path, persisted, resolve) }
    }

    /// The registry's settings.
    pub fn settings(&self) -> (r: BuildArtifactSettings)
        ensures
            settings_of(self.registry, r),
    {
        self.registry.settings()
    }

    /// `Registry::authorize_root`, then the new root and depth are saved with
    /// `persist` to the settings file.
    pub fn authorize_root<R: Fn(&str) -> Result<String, String>, P: Fn(&str, &str, u8) -> Result<(), String>>(
        &mut self,
        path: &str,
        resolve: &R,
        persist: &P,
    ) -> (r: Result<BuildArtifactSettings, String>)
        requires
            forall|a: &str| resolve.requires((a,)),
            forall|a: &str, b: &str, d: u8| persist.requires((a, b, d)),
        ensures
            match r {
                Ok(s) => final(self).registry.root matches Some(root) && resolved(
                    *resolve,
                    path@,
                    Ok(root.path),
                ) && authorized_with(old(self).registry, final(self).registry, root.path)
                    && settings_of(final(self).registry, s) && saved(
                    *persist,
                    old(self).registry.settings_path@,
                    root.path@,
                    old(self).registry.max_depth,
                    None,
                ),
                Err(e) => (resolved(*resolve, path@, Err(e)) && final(self).registry == old(
                    self).registry) || authorized_unsaved(
                    *resolve,
                    *persist,
                    path@,
                    old(self).registry,
                    final(self).registry,
                    e,
                ),
            },
    {
        let settings = match self.registry.authorize_root(path, resolve) {
            Ok(s) => s,
            Err(e) => return Err(e),
        };
        let root_path = match &self.registry.root {
            Some(root) => root.path.clone(),
            None => return Err(owned("The selected build artifact root is no longer authorized")),
        };
        let saved_r = save_settings(
            persist,
            self.registry.settings_path.as_str(),
            root_path.as_str(),
            self.registry.max_depth,
        );
        match saved_r {
            Ok(()) => {
                Ok(settings)
            },
            Err(e) => Err(e),
        }
    }

    /// `Registry::prepare_scan`, then the root and the new depth are saved
    /// with `persist` to the settings file.
    pub fn prepare_scan<R: Fn(&str) -> Result<String, String>, P: Fn(&str, &str, u8) -> Result<(), String>>(
        &mut self,
        root_id: &str,
        max_depth: u8,
        resolve: &R,
        persist: &P,
    ) -> (r: Result<(String, u8, String), String>)
        requires
            forall|a: &str| resolve.requires((a,)),
            forall|a: &str, b: &str, d: u8| persist.requires((a, b, d)),
        ensures
            max_depth > MAX_SCAN_DEPTH ==> (r matches Err(e) && e@ == depth_message()),
            max_depth > MAX_SCAN_DEPTH ==> final(self).registry == old(self).registry,
            max_depth <= MAX_SCAN_DEPTH && !(old(self).registry.root matches Some(root)
                && root.id@ == root_id@) ==> (r matches Err(e) && e@ == unauthorized_message())
                && final(self).registry == old(self).registry,
            max_depth <= MAX_SCAN_DEPTH && (old(self).registry.root matches Some(root)
                && root.id@ == root_id@) ==> match r {
                Err(e) => (resolved(*resolve, old(self).registry.root->0.path@, Err(e)) && final(
                    self).registry == old(self).registry) || prepared_unsaved(
                    *resolve,
                    *persist,
                    old(self).registry,
                    final(self).registry,
                    max_depth,
                    e,
                ),
                Ok((path, depth, scan_id)) => resolved(
                    *resolve,
                    old(self).registry.root->0.path@,
                    Ok(path),
                ) && depth == max_depth && scan_id@ == ident("scan"@, old(self).registry.next_id)
                    && prepared_with(old(self).registry, final(self).registry, path, max_depth, scan_id)
                    && saved(*persist, old(self).registry.settings_path@, path@, max_depth, None),
            },
    {
        let (path, depth, scan_id) = match self.registry.prepare_scan(root_id, max_depth, resolve) {
            Ok(t) => t,
            Err(e) => return Err(e),
        };
        let saved_r = save_settings(persist, self.registry.settings_path.as_str(), path.as_str(), depth);
        match saved_r {
            Ok(()) => Ok((path, depth, scan_id)),
            Err(e) => Err(e),
        }
    }

    /// `Registry::install_scan`.
    pub fn install_scan(
        &mut self,
        root_id: &str,
        scan_id: String,
        root_path: String,
        max_depth: u8,
        discovery: Discovery,
        cargo_available: bool,
        cargo_message: Option<String>,
    ) -> (r: Result<BuildArtifactScan, String>)
        ensures
            match install_refusal(old(self).registry, root_id@, scan_id@, root_path@, max_depth) {
                Some(m) => r matches Err(e) && e@ == m && final(self).registry == old(self).registry,
                None => r matches Ok(scan) && installed(
                    old(self).registry,
                    final(self).registry,
                    root_id@,
                    scan_id,
                    root_path,
                    discovery,
                ) && scan_reported(
                    scan,
                    final(self).registry.scan->0,
                    root_id@,
                    scan_id,
                    root_path,
                    max_depth,
                    discovery,
                    cargo_available,
                    cargo_message,
                ),
            },
    {
        self.registry.install_scan(
            root_id,
            scan_id,
            root_path,
            max_depth,
            discovery,
            cargo_available,
            cargo_message,
        )
    }

    /// `Registry::candidate`: the candidate to measure.
    pub fn candidate_for_measurement(&self, scan_id: &str, candidate_id: &str) -> (r: Result<
        CandidateRecord,
        String,
    >)
        ensures
            match (r, candidate_lookup(self.registry, scan_id@, candidate_id@)) {
                (Ok(c), Ok(d)) => c == d,
                (Err(m), Err(e)) => m@ == e,
                _ => false,
            },
    {
        self.registry.candidate(scan_id, candidate_id)
    }

    /// `Registry::apply_measurement`.
    pub fn apply_measurement(
        &mut self,
        scan_id: &str,
        candidate_id: &str,
        measurement: BuildArtifactMeasurement,
    ) -> (r: Result<BuildArtifactMeasurement, String>)
        ensures
            match candidate_lookup(old(self).registry, scan_id@, candidate_id@) {
                Err(e) => (r matches Err(m) && m@ == e) && final(self).registry == old(self).registry,
                Ok(_) => r == Ok::<BuildArtifactMeasurement, String>(measurement) && measured_at(
                    old(self).registry,
                    final(self).registry,
                    lookup(old(self).registry.scan->0.candidates@, candidate_id@)->0,
                    measurement,
                ),
            },
    {
        self.registry.apply_measurement(scan_id, candidate_id, measurement)
    }

    /// `Registry::cleanup_context`.
    pub fn cleanup_context(&self, scan_id: &str, candidate_id: &str) -> (r: Result<
        (String, CandidateRecord),
        String,
    >)
        ensures
            match (r, candidate_lookup(self.registry, scan_id@, candidate_id@)) {
                (Ok((root, c)), Ok(d)) => c == d && root == self.registry.scan->0.root_path,
                (Err(m), Err(e)) => m@ == e,
                _ => false,
            },
    {
        self.registry.cleanup_context(scan_id, candidate_id)
    }

    /// `Registry::apply_cleanup_result`.
    pub fn apply_cleanup_result(&mut self, scan_id: &str, result: &BuildArtifactCleanupResult) -> (r:
        Result<(), String>)
        ensures
            match candidate_lookup(old(self).registry, scan_id@, result.candidate_id@) {
                Err(e) => (r matches Err(m) && m@ == e) && final(self).registry == old(self).registry,
                Ok(_) => r is Ok && measured_at(
                    old(self).registry,
                    final(self).registry,
                    lookup(old(self).registry.scan->0.candidates@, result.candidate_id@)->0,
                    result.measurement,
                ),
            },
    {
        self.registry.apply_cleanup_result(scan_id, result)
    }

    /// `Registry::root_path`.
    pub fn root_path(&self, root_id: &str) -> (r: Result<String, String>)
        ensures
            match self.registry.root {
                Some(root) if root.id@ == root_id@ => r == Ok::<String, String>(root.path),
                _ => r matches Err(e) && e@ == unauthorized_message(),
            },
    {
        self.registry.root_path(root_id)
    }

    /// `Registry::candidate_path`.
    pub fn candidate_path(
        &self,
        scan_id: &str,
        candidate_id: &str,
        target: BuildArtifactOpenTarget,
    ) -> (r: Result<String, String>)
        ensures
            match (r, candidate_lookup(self.registry, scan_id@, candidate_id@)) {
                (Ok(p), Ok(d)) => p == match target {
                    BuildArtifactOpenTarget::Project => d.project_path,
                    BuildArtifactOpenTarget::Target => d.target_path,
                },
                (Err(m), Err(e)) => m@ == e,
                _ => false,
            },
    {
        self.registry.candidate_path(scan_id, candidate_id, target)
    }
}

/// What the `cargo --version` probe says of Cargo: available when it exited
/// with 0; otherwise unavailable, with its trimmed standard error when that
/// is not empty, or with the failure's message when it could not run.
pub open spec fn cargo_probe_spec(probe: Result<CommandRun, CommandFailure>) -> (bool, Option<Seq<char>>) {
    match probe {
        Ok(run) => if run.exit_code == Some(0i32) {
            (true, None)
        } else if crate::text::trim(run.stderr@).len() == 0 {
            (false, None)
        } else {
            (false, Some(crate::text::trim(run.stderr@)))
        },
        Err(f) => (false, Some(f.message@)),
    }
}

/// The availability of Cargo and the message a scan reports with it.
pub fn cargo_probe_outcome(probe: Result<CommandRun, CommandFailure>) -> (r: (bool, Option<String>))
    ensures
        r.0 == cargo_probe_spec(probe).0,
        match (r.1, cargo_probe_spec(probe).1) {
            (Some(m), Some(s)) => m@ == s,
            (None, None) => true,
            _ => false,
        },
{
    match probe {
        Ok(run) => {
            if run.exit_code == Some(0i32) {
                (true, None)
            } else {
                let m = crate::text::trim_string(run.stderr.as_str());
                let cs = crate::text::chars_of(m.as_str());
                if cs.len() == 0 {
                    (false, None)
                } else {
                    (false, Some(m))
                }
            }
        },
        Err(f) => (false, Some(f.message)),
    }
}

/// `discover` answered `d` for a walk of `root` down to `depth`.
pub open spec fn discovered<D: Fn(&str, u8) -> Discovery>(discover: D, root: Seq<char>, depth: u8, d: Discovery) -> bool {
    exists|a: &str| a@ == root && #[trigger] discover.ensures((a, depth), d)
}

/// `runner` answered `out` for `cargo --version` with five seconds.
pub open spec fn probed_cargo<F: Fn(&str, &[String], u64) -> Result<CommandRun, CommandFailure>>(
    runner: F,
    out: Result<CommandRun, CommandFailure>,
) -> bool {
    exists|p: &str, a: &[String]|
        p@ == "cargo"@ && views(a@) == seq!["--version"@] && #[trigger] runner.ensures((p, a, 5u64), out)
}

/// The message text `m` is what the probe reported.
pub open spec fn probe_message(m: Option<String>, probe: Result<CommandRun, CommandFailure>) -> bool {
    match (m, cargo_probe_spec(probe).1) {
        (Some(a), Some(b)) => a@ == b,
        (None, None) => true,
        _ => false,
    }
}

/// A scan of the authorized root `root_id` to `max_depth`: the scan is
/// prepared (or refused), the root walked with `discover`, Cargo probed, and
/// the walk installed as the current scan.
pub fn scan_build_artifacts_with<R, P, D, F>(
    state: &mut BuildArtifactState,
    root_id: &str,
    max_depth: u8,
    resolve: &R,
    persist: &P,
    discover: &D,
    runner: &F,
) -> (r: Result<BuildArtifactScan, String>) where
    R: Fn(&str) -> Result<String, String>,
    P: Fn(&str, &str, u8) -> Result<(), String>,
    D: Fn(&str, u8) -> Discovery,
    F: Fn(&str, &[String], u64) -> Result<CommandRun, CommandFailure>,

    requires
        forall|a: &str| resolve.requires((a,)),
        forall|a: &str, b: &str, d: u8| persist.requires((a, b, d)),
        forall|a: &str, d: u8| discover.requires((a, d)),
        forall|p: &str, a: &[String], t: u64| runner.requires((p, a, t)),
    ensures
        max_depth > MAX_SCAN_DEPTH ==> (r matches Err(e) && e@ == depth_message()) && final(state).registry
            == old(state).registry,
        max_depth <= MAX_SCAN_DEPTH && !(old(state).registry.root matches Some(root) && root.id@
            == root_id@) ==> (r matches Err(e) && e@ == unauthorized_message()) && final(state).registry
            == old(state).registry,
        max_depth <= MAX_SCAN_DEPTH && (old(state).registry.root matches Some(root) && root.id@
            == root_id@) ==> match r {
            Err(e) => (resolved(*resolve, old(state).registry.root->0.path@, Err(e)) && final(
                state).registry == old(state).registry) || prepared_unsaved(
                *resolve,
                *persist,
                old(state).registry,
                final(state).registry,
                max_depth,
                e,
            ),
            Ok(scan) => scan.scan_id@ == ident("scan"@, old(state).registry.next_id) && saved(
                *persist,
                old(state).registry.settings_path@,
                scan.root_path@,
                max_depth,
                None,
            ) && exists|
                mid: Registry,
                d: Discovery,
                probe: Result<CommandRun, CommandFailure>,
            |
                #![trigger prepared_with(old(state).registry, mid, scan.root_path, max_depth, scan.scan_id), discovered(*discover, scan.root_path@, max_depth, d), probed_cargo(*runner, probe)]
                resolved(*resolve, old(state).registry.root->0.path@, Ok(scan.root_path)) && prepared_with(
                    old(state).registry,
                    mid,
                    scan.root_path,
                    max_depth,
                    scan.scan_id,
                ) && discovered(*discover, scan.root_path@, max_depth, d) && probed_cargo(*runner, probe)
                    && installed(mid, final(state).registry, root_id@, scan.scan_id, scan.root_path, d)
                    && scan_reported(
                    scan,
                    final(state).registry.scan->0,
                    root_id@,
                    scan.scan_id,
                    scan.root_path,
                    max_depth,
                    d,
                    cargo_probe_spec(probe).0,
                    scan.cargo_message,
                ) && probe_message(scan.cargo_message, probe),
        },
{
    let (path, depth, scan_id) = match state.prepare_scan(root_id, max_depth, resolve, persist) {
        Ok(t) => t,
        Err(e) => return Err(e),
    };
    let ghost mid = state.registry;
    let ghost path_v = path;
    let ghost scan_id_v = scan_id;
    let path_str = path.as_str();
    let d = discover(path_str, depth);
    assert(discover.ensures((path_str, depth), d));
    assert(discovered(*discover, path@, max_depth, d));
    let args = crate::command::args1("--version");
    let arg_slice = args.as_slice();
    let probe = runner("cargo", arg_slice, 5);
    assert(runner.ensures(("cargo", arg_slice, 5u64), probe));
    assert(probed_cargo(*runner, probe));
    let ghost probe_v = probe;
    let ghost d_v = d;
    let (available, message) = cargo_probe_outcome(probe);
    let r = state.install_scan(root_id, scan_id, path, depth, d, available, message);
    assert(install_refusal(mid, root_id@, scan_id_v@, path_v@, max_depth) is None);
    proof {
        if r is Ok {
            let scan = r->Ok_0;
            assert(prepared_with(old(state).registry, mid, scan.root_path, max_depth, scan.scan_id));
            assert(discovered(*discover, scan.root_path@, max_depth, d_v));
            assert(probed_cargo(*runner, probe_v));
        }
    }
    r
}

/// A measurement of one candidate of the current scan: the candidate is
/// looked up, its target measured with `measure`, and the measurement kept.
pub fn measure_build_artifact_candidate_with<M: Fn(&str) -> BuildArtifactMeasurement>(
    state: &mut BuildArtifactState,
    scan_id: &str,
    candidate_id: &str,
    measure: &M,
) -> (r: Result<BuildArtifactMeasurement, String>)
    requires
        forall|a: &str| measure.requires((a,)),
    ensures
        match candidate_lookup(old(state).registry, scan_id@, candidate_id@) {
            Err(e) => (r matches Err(m) && m@ == e) && final(state).registry == old(state).registry,
            Ok(c) => r matches Ok(m) && measured(*measure, c.target_path@, m) && measured_at(
                old(state).registry,
                final(state).registry,
                lookup(old(state).registry.scan->0.candidates@, candidate_id@)->0,
                m,
            ),
        },
{
    let candidate = match state.candidate_for_measurement(scan_id, candidate_id) {
        Ok(c) => c,
        Err(e) => return Err(e),
    };
    let target = candidate.target_path.as_str();
    let m = measure(target);
    assert(measure.ensures((target,), m));
    assert(measured(*measure, candidate.target_path@, m));
    state.apply_measurement(scan_id, candidate_id, m)
}

/// A cleanup of one candidate of the current scan: the candidate and its
/// scan root are looked up, the guarded `cargo clean` run, and the
/// measurement after it kept.
pub fn clean_build_artifact_candidate_with<F, V, M>(
    state: &mut BuildArtifactState,
    scan_id: &str,
    candidate_id: &str,
    runner: &F,
    validate: &V,
    measure: &M,
) -> (r: Result<BuildArtifactCleanupResult, String>) where
    F: Fn(&str, &[String], u64) -> Result<CommandRun, CommandFailure>,
    V: Fn(&str, &CandidateRecord) -> Result<Validation, String>,
    M: Fn(&str) -> BuildArtifactMeasurement,

    requires
        forall|p: &str, a: &[String], t: u64| runner.requires((p, a, t)),
        forall|a: &str, b: &CandidateRecord| validate.requires((a, b)),
        forall|a: &str| measure.requires((a,)),
    ensures
        match candidate_lookup(old(state).registry, scan_id@, candidate_id@) {
            Err(e) => (r matches Err(m) && m@ == e) && final(state).registry == old(state).registry,
            Ok(c) => r matches Ok(res) && cleanup_reported(
                *runner,
                *validate,
                *measure,
                old(state).registry.scan->0.root_path@,
                c,
                res,
            ) && measured_at(
                old(state).registry,
                final(state).registry,
                lookup(old(state).registry.scan->0.candidates@, candidate_id@)->0,
                res.measurement,
            ),
        },
{
    let (root, candidate) = match state.cleanup_context(scan_id, candidate_id) {
        Ok(t) => t,
        Err(e) => return Err(e),
    };
    let result = run_build_artifact_cleanup_with_runner(root.as_str(), &candidate, runner, validate, measure);
    assert(result.candidate_id == candidate.id);
    let ghost idx = lookup(old(state).registry.scan->0.candidates@, candidate_id@)->0;
    assert(is_first_match(old(state).registry.scan->0.candidates@, candidate_id@, idx));
    assert(lookup(old(state).registry.scan->0.candidates@, result.candidate_id@) == lookup(
        old(state).registry.scan->0.candidates@,
        candidate_id@,
    ));
    match state.apply_cleanup_result(scan_id, &result) {
        Ok(()) => Ok(result),
        Err(e) => Err(e),
    }
}

/// Revalidation admits a cleanup only inside the authorized root: when it
/// answers `Ready`, the target is still the project's own `target`, both hold
/// their Cargo files, and both resolve to paths under the resolved root, the
/// target directly in the project.
pub proof fn law_ready_targets_stay_inside_the_root<R, T, F, C>(
    resolve_dir: R,
    probe: T,
    is_regular_file: F,
    canonicalize: C,
    root: Seq<char>,
    c: CandidateRecord,
) where
    R: Fn(&str) -> Result<String, String>,
    T: Fn(&str) -> TargetProbe,
    F: Fn(&str) -> bool,
    C: Fn(&str) -> Result<String, String>,

    requires
        revalidated(
            resolve_dir,
            probe,
            is_regular_file,
            canonicalize,
            root,
            c,
            Ok::<Validation, String>(Validation::Ready),
        ),
    ensures
        crate::path::file_name(c.target_path@) == Some("target"@),
        crate::path::parent_is(c.target_path@, c.project_path@),
        answered(is_regular_file, join_path(c.project_path@, "Cargo.toml"@), true),
        marker_found(is_regular_file, c.target_path@, true),
        exists|croot: String, project: String, target: String|
            #![trigger resolved(resolve_dir, root, Ok::<String, String>(croot)), resolved(canonicalize, c.project_path@, Ok::<String, String>(project)), resolved(canonicalize, c.target_path@, Ok::<String, String>(target))]
            resolved(resolve_dir, root, Ok::<String, String>(croot)) && resolved(
                canonicalize,
                c.project_path@,
                Ok::<String, String>(project),
            ) && resolved(canonicalize, c.target_path@, Ok::<String, String>(target))
                && crate::path::path_starts_with(project@, croot@) && crate::path::path_starts_with(
                target@,
                croot@,
            ) && crate::path::parent_is(target@, project@),
{
}

/// Authorizing a root forgets every scan: afterwards no scan identifier is
/// current, and every candidate request is refused as stale.
pub proof fn law_new_root_invalidates_scans(
    old: Registry,
    new: Registry,
    canonical: String,
    scan_id: Seq<char>,
    candidate_id: Seq<char>,
)
    requires
        authorized_with(old, new, canonical),
    ensures
        !scan_current(new, scan_id),
        candidate_lookup(new, scan_id, candidate_id) == Err::<CandidateRecord, Seq<char>>(
            "The build artifact scan is stale; scan again before continuing"@,
        ),
{
}

/// A newer scan request replaces an older one: after a scan is prepared,
/// `install_scan` refuses every scan identifier the registry issued before it
/// and accepts the one just issued, for the same root, path and depth.
pub proof fn law_newer_scan_replaces_older(
    old: Registry,
    new: Registry,
    root_id: Seq<char>,
    path: String,
    max_depth: u8,
    scan_id: String,
    earlier: u64,
)
    requires
        old.root matches Some(root) && root.id@ == root_id,
        prepared_with(old, new, path, max_depth, scan_id),
        scan_id@ == ident("scan"@, old.next_id),
        earlier < old.next_id,
    ensures
        install_refusal(new, root_id, ident("scan"@, earlier), path@, max_depth) == Some(
            "A newer build artifact scan replaced this request"@,
        ),
        install_refusal(new, root_id, scan_id@, path@, max_depth) is None,
{
    lemma_ident_injective("scan"@, earlier, old.next_id);
}

/// Identifiers handed out one after another differ, until the counter
/// reaches its maximum.
pub proof fn law_identifiers_are_fresh(prefix: Seq<char>, n: u64, k: int)
    requires
        0 < k,
        n as int + k <= u64::MAX,
    ensures
        ident(prefix, n) != ident(prefix, counter_after(n, k)),
{
    lemma_ident_injective(prefix, n, counter_after(n, k));
}

/// A cleanup never claims released space it did not measure: when the
/// measurement after cleaning is incomplete, nothing is released; and the
/// released amount never exceeds the size before.
pub proof fn law_released_bytes_are_measured(c: CandidateRecord, m: BuildArtifactMeasurement)
    ensures
        !measurement_complete(m) ==> released(bytes_before(c), bytes_after(c, m)) == 0,
        released(bytes_before(c), bytes_after(c, m)) <= bytes_before(c),
{
}

} // verus!
