//! Structured commands: envelopes, previews and recorded runs.
use crate::text::{joined, join_words, owned, push_str, views};
use crate::types::{CommandEnvelope, CommandFailure, CommandRun, FailureKind, ManagerSnapshot};
use vstd::prelude::*;

verus! {

/// The preview of a command: the program and its arguments joined by spaces.
pub open spec fn preview_of(program: Seq<char>, args: Seq<Seq<char>>) -> Seq<char> {
    joined(seq![program] + args, seq![' '])
}

pub open spec fn str_views(list: Seq<&str>) -> Seq<Seq<char>> {
    list.map_values(|s: &str| s@)
}

/// `e` is the envelope of `program args` under a budget of `timeout_ms`.
pub open spec fn envelope_is(
    e: CommandEnvelope,
    program: Seq<char>,
    args: Seq<Seq<char>>,
    timeout_ms: u64,
) -> bool {
    &&& e.program@ == program
    &&& views(e.args@) == args
    &&& e.preview@ == preview_of(program, args)
    &&& e.timeout_ms == timeout_ms
}

/// Everything in a snapshot but its commands and failures.
pub open spec fn same_but_log(a: ManagerSnapshot, b: ManagerSnapshot) -> bool {
    &&& a.id == b.id
    &&& a.label == b.label
    &&& a.status == b.status
    &&& a.version == b.version
    &&& a.packages == b.packages
    &&& a.paths == b.paths
    &&& a.unsupported_reason == b.unsupported_reason
    &&& a.homebrew == b.homebrew
    &&& a.maven == b.maven
    &&& a.pip == b.pip
    &&& a.docker == b.docker
}

/// Owned copies of a list of string slices.
pub fn owned_args(list: &[&str]) -> (r: Vec<String>)
    ensures
        views(r@) == str_views(list@),
{
    let mut r: Vec<String> = Vec::new();
    let mut i: usize = 0;
    while i < list.len()
        invariant
            i <= list.len(),
            r@.len() == i,
            forall|j: int| 0 <= j < i ==> #[trigger] r@[j]@ == list@[j]@,
        decreases list.len() - i,
    {
        r.push(owned(list[i]));
        i = i + 1;
    }
    assert(views(r@) == str_views(list@));
    r
}

/// The owned argument list `[a]`.
pub fn args1(a: &str) -> (r: Vec<String>)
    ensures
        views(r@) == seq![a@],
{
    let mut r: Vec<String> = Vec::new();
    r.push(owned(a));
    assert(views(r@) =~= seq![a@]);
    r
}

/// The owned argument list `[a, b]`.
pub fn args2(a: &str, b: &str) -> (r: Vec<String>)
    ensures
        views(r@) == seq![a@, b@],
{
    let mut r: Vec<String> = Vec::new();
    r.push(owned(a));
    r.push(owned(b));
    assert(views(r@) =~= seq![a@, b@]);
    r
}

/// The owned argument list `[a, b, c]`.
pub fn args3(a: &str, b: &str, c: &str) -> (r: Vec<String>)
    ensures
        views(r@) == seq![a@, b@, c@],
{
    let mut r: Vec<String> = Vec::new();
    r.push(owned(a));
    r.push(owned(b));
    r.push(owned(c));
    assert(views(r@) =~= seq![a@, b@, c@]);
    r
}

/// The owned argument list `[a, b, c, d]`.
pub fn args4(a: &str, b: &str, c: &str, d: &str) -> (r: Vec<String>)
    ensures
        views(r@) == seq![a@, b@, c@, d@],
{
    let mut r: Vec<String> = Vec::new();
    r.push(owned(a));
    r.push(owned(b));
    r.push(owned(c));
    r.push(owned(d));
    assert(views(r@) =~= seq![a@, b@, c@, d@]);
    r
}

/// The owned argument list `[a, b, c, d, e]`.
pub fn args5(a: &str, b: &str, c: &str, d: &str, e: &str) -> (r: Vec<String>)
    ensures
        views(r@) == seq![a@, b@, c@, d@, e@],
{
    let mut r: Vec<String> = Vec::new();
    r.push(owned(a));
    r.push(owned(b));
    r.push(owned(c));
    r.push(owned(d));
    r.push(owned(e));
    assert(views(r@) =~= seq![a@, b@, c@, d@, e@]);
    r
}

/// The owned argument list `[a, b, c, d, e, f]`.
pub fn args6(a: &str, b: &str, c: &str, d: &str, e: &str, f: &str) -> (r: Vec<String>)
    ensures
        views(r@) == seq![a@, b@, c@, d@, e@, f@],
{
    let mut r: Vec<String> = Vec::new();
    r.push(owned(a));
    r.push(owned(b));
    r.push(owned(c));
    r.push(owned(d));
    r.push(owned(e));
    r.push(owned(f));
    assert(views(r@) =~= seq![a@, b@, c@, d@, e@, f@]);
    r
}

/// A copy of a list of strings.
pub fn copy_strings(list: &Vec<String>) -> (r: Vec<String>)
    ensures
        r@ == list@,
{
    let mut r: Vec<String> = Vec::new();
    let mut i: usize = 0;
    while i < list.len()
        invariant
            i <= list.len(),
            r@ == list@.subrange(0, i as int),
        decreases list.len() - i,
    {
        r.push(list[i].clone());
        assert(r@ == list@.subrange(0, i + 1));
        i = i + 1;
    }
    assert(list@.subrange(0, list@.len() as int) == list@);
    r
}

/// Two envelopes that hold the same command.
pub open spec fn same_envelope(a: CommandEnvelope, b: CommandEnvelope) -> bool {
    &&& a.program == b.program
    &&& a.args@ == b.args@
    &&& a.preview == b.preview
    &&& a.timeout_ms == b.timeout_ms
}

pub open spec fn same_opt_envelope(a: Option<CommandEnvelope>, b: Option<CommandEnvelope>) -> bool {
    match (a, b) {
        (Some(x), Some(y)) => same_envelope(x, y),
        (None, None) => true,
        _ => false,
    }
}

/// Two failures that say the same thing.
pub open spec fn same_failure(a: CommandFailure, b: CommandFailure) -> bool {
    &&& a.kind == b.kind
    &&& a.message == b.message
    &&& same_opt_envelope(a.command, b.command)
    &&& a.stdout == b.stdout
    &&& a.stderr == b.stderr
}

/// A copy of an envelope.
pub fn copy_envelope(e: &CommandEnvelope) -> (r: CommandEnvelope)
    ensures
        same_envelope(r, *e),
{
    CommandEnvelope {
        program: e.program.clone(),
        args: copy_strings(&e.args),
        preview: e.preview.clone(),
        timeout_ms: e.timeout_ms,
    }
}

/// A copy of an optional envelope.
pub fn copy_opt_envelope(e: &Option<CommandEnvelope>) -> (r: Option<CommandEnvelope>)
    ensures
        same_opt_envelope(r, *e),
{
    match e {
        Some(e) => Some(copy_envelope(e)),
        None => None,
    }
}

/// A copy of a failure.
pub fn copy_failure(f: &CommandFailure) -> (r: CommandFailure)
    ensures
        same_failure(r, *f),
{
    CommandFailure {
        kind: f.kind,
        message: f.message.clone(),
        command: copy_opt_envelope(&f.command),
        stdout: f.stdout.clone(),
        stderr: f.stderr.clone(),
    }
}

/// `program` followed by `args`, joined by spaces.
pub fn envelope_preview(program: &str, args: &[&str]) -> (r: String)
    ensures
        r@ == preview_of(program@, str_views(args@)),
{
    let owned_list = owned_args(args);
    join_words(program, &owned_list)
}

/// `program` followed by `args`, joined by spaces.
pub fn envelope_preview_owned(program: &str, args: &[String]) -> (r: String)
    ensures
        r@ == preview_of(program@, views(args@)),
{
    let mut list: Vec<String> = Vec::new();
    let mut i: usize = 0;
    while i < args.len()
        invariant
            i <= args.len(),
            list@ == args@.subrange(0, i as int),
        decreases args.len() - i,
    {
        list.push(args[i].clone());
        assert(list@ == args@.subrange(0, i + 1));
        i = i + 1;
    }
    assert(args@.subrange(0, args@.len() as int) == args@);
    join_words(program, &list)
}

/// The envelope of `program args` under a budget of `timeout_ms`.
pub fn envelope(program: &str, args: &[&str], timeout_ms: u64) -> (r: CommandEnvelope)
    ensures
        envelope_is(r, program@, str_views(args@), timeout_ms),
{
    CommandEnvelope {
        program: owned(program),
        args: owned_args(args),
        preview: envelope_preview(program, args),
        timeout_ms,
    }
}

/// The envelope of `program args` under a budget of `timeout_ms`.
pub fn envelope_owned(program: &str, args: Vec<String>, timeout_ms: u64) -> (r: CommandEnvelope)
    ensures
        envelope_is(r, program@, views(args@), timeout_ms),
        r.args == args,
{
    let preview = envelope_preview_owned(program, args.as_slice());
    CommandEnvelope { program: owned(program), preview, args, timeout_ms }
}

/// A failure of `kind` carrying the run's envelope and output.
pub fn command_failure(kind: FailureKind, message: &str, run: CommandRun) -> (r: CommandFailure)
    ensures
        r.kind == kind,
        r.message@ == message@,
        r.command == Some(run.envelope),
        r.stdout == run.stdout,
        r.stderr == run.stderr,
{
    CommandFailure {
        kind,
        message: owned(message),
        command: Some(run.envelope),
        stdout: run.stdout,
        stderr: run.stderr,
    }
}

/// A parse failure carrying the run's envelope and output.
pub fn parse_failure(message: String, run: CommandRun) -> (r: CommandFailure)
    ensures
        r.kind == FailureKind::ParseFailure,
        r.message == message,
        r.command == Some(run.envelope),
        r.stdout == run.stdout,
        r.stderr == run.stderr,
{
    CommandFailure {
        kind: FailureKind::ParseFailure,
        message,
        command: Some(run.envelope),
        stdout: run.stdout,
        stderr: run.stderr,
    }
}

/// Records `program args` among the snapshot's commands, with its budget in
/// milliseconds.
pub fn push_command(snapshot: &mut ManagerSnapshot, program: &str, args: &[&str], timeout_secs: u64)
    requires
        timeout_secs * 1000 <= u64::MAX,
    ensures
        same_but_log(*old(snapshot), *final(snapshot)),
        final(snapshot).failures == old(snapshot).failures,
        final(snapshot).commands@.len() == old(snapshot).commands@.len() + 1,
        final(snapshot).commands@.drop_last() == old(snapshot).commands@,
        envelope_is(
            final(snapshot).commands@.last(),
            program@,
            str_views(args@),
            (timeout_secs * 1000) as u64,
        ),
{
    let e = envelope(program, args, timeout_secs * 1000);
    snapshot.commands.push(e);
}

/// `runner` answered `out` when asked to run `program args` with a budget of
/// `timeout_secs` seconds.
pub open spec fn answered_run<F: Fn(&str, &[String], u64) -> Result<CommandRun, CommandFailure>>(
    runner: F,
    program: Seq<char>,
    args: Seq<Seq<char>>,
    timeout_secs: u64,
    out: Result<CommandRun, CommandFailure>,
) -> bool {
    exists|p: &str, a: &[String]|
        p@ == program && views(a@) == args && #[trigger] runner.ensures((p, a, timeout_secs), out)
}

/// The runner's answer is a run that exited with 0.
pub open spec fn clean_exit(out: Result<CommandRun, CommandFailure>) -> bool {
    out matches Ok(run) && run.exit_code == Some(0i32)
}

/// The failure recorded for an answer that is not a clean exit: the runner's
/// own failure, or a failure of `kind` CommandFailed with `message` and the
/// run's envelope and output.
pub open spec fn recorded_failure(
    f: CommandFailure,
    out: Result<CommandRun, CommandFailure>,
    message: Seq<char>,
) -> bool {
    match out {
        Ok(run) => run.exit_code != Some(0i32) && f.kind == FailureKind::CommandFailed && f.message@
            == message && f.command == Some(run.envelope) && f.stdout == run.stdout && f.stderr
            == run.stderr,
        Err(e) => f == e,
    }
}

/// What an answer adds to a scan's failures: nothing for a clean exit;
/// otherwise the one failure recorded for it.
pub open spec fn adds_failures(
    out: Result<CommandRun, CommandFailure>,
    message: Seq<char>,
    added: Seq<CommandFailure>,
) -> bool {
    if clean_exit(out) {
        added.len() == 0
    } else {
        added.len() == 1 && recorded_failure(added[0], out, message)
    }
}

/// A parse failure recorded for a clean run whose output was refused.
pub open spec fn parse_recorded(f: CommandFailure, run: CommandRun) -> bool {
    &&& f.kind == FailureKind::ParseFailure
    &&& f.command == Some(run.envelope)
    &&& f.stdout == run.stdout
    &&& f.stderr == run.stderr
}

/// What an answer whose output is parsed adds: nothing for a clean exit
/// whose output was taken; one parse failure for a clean exit whose output
/// was `refused`; otherwise the failure recorded for the answer.
pub open spec fn parsed_adds(
    out: Result<CommandRun, CommandFailure>,
    message: Seq<char>,
    refused: bool,
    added: Seq<CommandFailure>,
) -> bool {
    if clean_exit(out) {
        if refused {
            added.len() == 1 && parse_recorded(added[0], out->Ok_0)
        } else {
            added.len() == 0
        }
    } else {
        added.len() == 1 && recorded_failure(added[0], out, message)
    }
}

/// `after` is `before` followed by the failures added.
pub open spec fn extends(before: Seq<CommandFailure>, after: Seq<CommandFailure>) -> bool {
    before.len() <= after.len() && after.subrange(0, before.len() as int) == before
}

pub open spec fn added_since(before: Seq<CommandFailure>, after: Seq<CommandFailure>) -> Seq<CommandFailure> {
    after.subrange(before.len() as int, after.len() as int)
}

/// The failures went from `before` to `after` by what the runner's answer
/// to `program args` added.
pub open spec fn failures_grew<F: Fn(&str, &[String], u64) -> Result<CommandRun, CommandFailure>>(
    runner: F,
    program: Seq<char>,
    args: Seq<Seq<char>>,
    secs: u64,
    message: Seq<char>,
    before: Seq<CommandFailure>,
    after: Seq<CommandFailure>,
) -> bool {
    &&& extends(before, after)
    &&& exists|out: Result<CommandRun, CommandFailure>|
        #[trigger] answered_run(runner, program, args, secs, out) && adds_failures(out, message, added_since(before, after))
}

/// `program --version` answered with a clean exit within 5 s: the probe
/// after which a scan asks anything else.
pub open spec fn version_answered<F: Fn(&str, &[String], u64) -> Result<CommandRun, CommandFailure>>(
    runner: F,
    program: Seq<char>,
) -> bool {
    exists|run: CommandRun|
        #[trigger] answered_run(runner, program, seq!["--version"@], 5, Ok::<CommandRun, CommandFailure>(run))
            && run.exit_code == Some(0i32)
}

/// The runner may be asked to run `program args` with this budget.
pub open spec fn may_run<F: Fn(&str, &[String], u64) -> Result<CommandRun, CommandFailure>>(
    runner: F,
    program: &str,
    args: Seq<Seq<char>>,
    timeout_secs: u64,
) -> bool {
    forall|a: &[String]| views(a@) == args ==> #[trigger] runner.requires((program, a, timeout_secs))
}

/// Asks the runner once.
pub fn ask_runner<F>(runner: &F, program: &str, args: &[&str], timeout_secs: u64) -> (r: Result<
    CommandRun,
    CommandFailure,
>) where F: Fn(&str, &[String], u64) -> Result<CommandRun, CommandFailure>
    requires
        may_run(*runner, program, str_views(args@), timeout_secs),
    ensures
        answered_run(*runner, program@, str_views(args@), timeout_secs, r),
{
    let owned_list = owned_args(args);
    let slice = owned_list.as_slice();
    let r = runner(program, slice, timeout_secs);
    assert(runner.ensures((program, slice, timeout_secs), r));
    r
}

/// Records the command, runs it, and keeps its run when it exits with 0;
/// otherwise records why it did not and gives nothing.
pub fn run_recorded_command<F>(
    snapshot: &mut ManagerSnapshot,
    runner: &F,
    program: &str,
    args: &[&str],
    timeout_secs: u64,
    failure_message: &str,
) -> (r: Option<CommandRun>) where
    F: Fn(&str, &[String], u64) -> Result<CommandRun, CommandFailure>,

    requires
        timeout_secs * 1000 <= u64::MAX,
        may_run(*runner, program, str_views(args@), timeout_secs),
    ensures
        same_but_log(*old(snapshot), *final(snapshot)),
        final(snapshot).commands@.len() == old(snapshot).commands@.len() + 1,
        final(snapshot).commands@.drop_last() == old(snapshot).commands@,
        envelope_is(
            final(snapshot).commands@.last(),
            program@,
            str_views(args@),
            (timeout_secs * 1000) as u64,
        ),
        r matches Some(run) ==> run.exit_code == Some(0i32) && final(snapshot).failures == old(
            snapshot).failures && answered_run(
            *runner,
            program@,
            str_views(args@),
            timeout_secs,
            Ok(run),
        ),
        r is None ==> final(snapshot).failures@.len() == old(snapshot).failures@.len() + 1
            && final(snapshot).failures@.drop_last() == old(snapshot).failures@ && exists|
            out: Result<CommandRun, CommandFailure>,
        |
            #[trigger] answered_run(*runner, program@, str_views(args@), timeout_secs, out)
                && recorded_failure(final(snapshot).failures@.last(), out, failure_message@),
        failures_grew(
            *runner,
            program@,
            str_views(args@),
            timeout_secs,
            failure_message@,
            old(snapshot).failures@,
            final(snapshot).failures@,
        ),
{
    let ghost before = snapshot.failures@;
    push_command(snapshot, program, args, timeout_secs);
    let out = ask_runner(runner, program, args, timeout_secs);
    assert(answered_run(*runner, program@, str_views(args@), timeout_secs, out));
    assert(before == snapshot.failures@);
    match out {
        Ok(run) => {
            if run.exit_code == Some(0i32) {
                assert(added_since(before, snapshot.failures@) =~= Seq::<CommandFailure>::empty());
                assert(snapshot.failures@.subrange(0, before.len() as int) =~= before);
                Some(run)
            } else {
                let ghost answer = Ok::<CommandRun, CommandFailure>(run);
                let f = command_failure(FailureKind::CommandFailed, failure_message, run);
                snapshot.failures.push(f);
                assert(recorded_failure(snapshot.failures@.last(), answer, failure_message@));
                assert(added_since(before, snapshot.failures@) =~= seq![snapshot.failures@.last()]);
                assert(snapshot.failures@.subrange(0, before.len() as int) =~= before);
                None
            }
        },
        Err(failure) => {
            let ghost answer = Err::<CommandRun, CommandFailure>(failure);
            snapshot.failures.push(failure);
            assert(recorded_failure(snapshot.failures@.last(), answer, failure_message@));
            assert(added_since(before, snapshot.failures@) =~= seq![snapshot.failures@.last()]);
            assert(snapshot.failures@.subrange(0, before.len() as int) =~= before);
            None
        },
    }
}

/// `run_recorded_command`, keeping the trimmed standard output.
pub fn run_recorded_stdout<F>(
    snapshot: &mut ManagerSnapshot,
    runner: &F,
    program: &str,
    args: &[&str],
    timeout_secs: u64,
    failure_message: &str,
) -> (r: Option<String>) where
    F: Fn(&str, &[String], u64) -> Result<CommandRun, CommandFailure>,

    requires
        timeout_secs * 1000 <= u64::MAX,
        may_run(*runner, program, str_views(args@), timeout_secs),
    ensures
        same_but_log(*old(snapshot), *final(snapshot)),
        final(snapshot).commands@.len() == old(snapshot).commands@.len() + 1,
        final(snapshot).commands@.drop_last() == old(snapshot).commands@,
        envelope_is(
            final(snapshot).commands@.last(),
            program@,
            str_views(args@),
            (timeout_secs * 1000) as u64,
        ),
        r matches Some(s) ==> final(snapshot).failures == old(snapshot).failures && exists|
            run: CommandRun,
        |
            #[trigger] answered_run(*runner, program@, str_views(args@), timeout_secs, Ok(run))
                && run.exit_code == Some(0i32) && s@ == crate::text::trim(run.stdout@),
        r is None ==> final(snapshot).failures@.len() == old(snapshot).failures@.len() + 1
            && final(snapshot).failures@.drop_last() == old(snapshot).failures@ && exists|
            out: Result<CommandRun, CommandFailure>,
        |
            #[trigger] answered_run(*runner, program@, str_views(args@), timeout_secs, out)
                && recorded_failure(final(snapshot).failures@.last(), out, failure_message@),
        failures_grew(
            *runner,
            program@,
            str_views(args@),
            timeout_secs,
            failure_message@,
            old(snapshot).failures@,
            final(snapshot).failures@,
        ),
{
    match run_recorded_command(snapshot, runner, program, args, timeout_secs, failure_message) {
        Some(run) => Some(crate::text::trim_string(run.stdout.as_str())),
        None => None,
    }
}

/// A log that grew by one entry keeps its earlier entries.
pub proof fn lemma_log_extends(a: Seq<CommandEnvelope>, b: Seq<CommandEnvelope>)
    requires
        b.len() == a.len() + 1,
        b.drop_last() == a,
    ensures
        forall|j: int| 0 <= j < a.len() ==> #[trigger] b[j] == a[j],
{
    assert forall|j: int| 0 <= j < a.len() implies #[trigger] b[j] == a[j] by {
        assert(b.drop_last()[j] == b[j]);
    }
}

/// Why a command could not be started.
#[derive(Debug, Clone, Copy, PartialEq, Eq, Structural)]
pub enum SpawnError {
    NotFound,
    PermissionDenied,
    Other,
}

/// The failure of a command that could not be started: a missing program,
/// a refused permission, or another error, with the error's text.
pub fn spawn_failure(program: &str, envelope: CommandEnvelope, kind: SpawnError, error: String) -> (r:
    CommandFailure)
    ensures
        r.kind == match kind {
            SpawnError::NotFound => FailureKind::MissingBinary,
            SpawnError::PermissionDenied => FailureKind::PermissionDenied,
            SpawnError::Other => FailureKind::CommandFailed,
        },
        r.message@ == match kind {
            SpawnError::NotFound => program@ + " is not installed or is not on PATH"@,
            SpawnError::PermissionDenied => "Permission denied while running "@ + envelope.preview@,
            SpawnError::Other => "Could not run "@ + envelope.preview@,
        },
        r.command == Some(envelope),
        r.stdout@.len() == 0,
        r.stderr == error,
{
    let (kind_out, message) = match kind {
        SpawnError::NotFound => {
            let mut m = owned(program);
            push_str(&mut m, " is not installed or is not on PATH");
            (FailureKind::MissingBinary, m)
        },
        SpawnError::PermissionDenied => {
            let mut m = owned("Permission denied while running ");
            push_str(&mut m, envelope.preview.as_str());
            (FailureKind::PermissionDenied, m)
        },
        SpawnError::Other => {
            let mut m = owned("Could not run ");
            push_str(&mut m, envelope.preview.as_str());
            (FailureKind::CommandFailed, m)
        },
    };
    CommandFailure { kind: kind_out, message, command: Some(envelope), stdout: String::new(), stderr: error }
}

/// The failure of a command that ran past its budget and was stopped, with
/// what it had written.
pub fn timeout_failure(envelope: CommandEnvelope, stdout: String, stderr: String) -> (r: CommandFailure)
    ensures
        r.kind == FailureKind::Timeout,
        r.message@ == envelope.preview@ + " exceeded the configured timeout"@,
        r.command == Some(envelope),
        r.stdout == stdout,
        r.stderr == stderr,
{
    let mut m = owned(envelope.preview.as_str());
    push_str(&mut m, " exceeded the configured timeout");
    CommandFailure { kind: FailureKind::Timeout, message: m, command: Some(envelope), stdout, stderr }
}

/// Where a running command fails after it started: waiting for it, or
/// reading its output.
#[derive(Debug, Clone, Copy, PartialEq, Eq, Structural)]
pub enum RunStage {
    Waiting,
    ReadingOutput,
}

/// The failure of a started command that could not be waited for or read.
pub fn run_failure(envelope: CommandEnvelope, stage: RunStage, error: String) -> (r: CommandFailure)
    ensures
        r.kind == FailureKind::CommandFailed,
        r.message@ == match stage {
            RunStage::Waiting => "Could not wait for "@ + envelope.preview@,
            RunStage::ReadingOutput => "Could not read output from "@ + envelope.preview@,
        },
        r.command == Some(envelope),
        r.stdout@.len() == 0,
        r.stderr == error,
{
    let mut m = match stage {
        RunStage::Waiting => owned("Could not wait for "),
        RunStage::ReadingOutput => owned("Could not read output from "),
    };
    push_str(&mut m, envelope.preview.as_str());
    CommandFailure { kind: FailureKind::CommandFailed, message: m, command: Some(envelope), stdout: String::new(), stderr: error }
}

/// The environment a command runs with beyond the inherited one: Homebrew
/// neither updates itself nor prints hints during a scan.
pub fn command_environment(program: &str) -> (r: Vec<(String, String)>)
    ensures
        program@ == "brew"@ ==> r@.len() == 2 && r@[0].0@ == "HOMEBREW_NO_AUTO_UPDATE"@ && r@[0].1@ == "1"@
            && r@[1].0@ == "HOMEBREW_NO_ENV_HINTS"@ && r@[1].1@ == "1"@,
        program@ != "brew"@ ==> r@.len() == 0,
{
    let mut r: Vec<(String, String)> = Vec::new();
    if crate::text::str_eq(program, "brew") {
        r.push((owned("HOMEBREW_NO_AUTO_UPDATE"), owned("1")));
        r.push((owned("HOMEBREW_NO_ENV_HINTS"), owned("1")));
    }
    r
}

/// What to do after one look at a running command.
#[derive(Debug, Clone, Copy, PartialEq, Eq, Structural)]
pub enum PollAction {
    /// It has exited: collect its output.
    Collect,
    /// Its budget is spent: stop it and report a timeout.
    Stop,
    /// Look again shortly.
    Wait,
}

/// The decision after one look at a running command.
pub fn poll_action(exited: bool, elapsed_ms: u64, timeout_ms: u64) -> (r: PollAction)
    ensures
        exited ==> r == PollAction::Collect,
        !exited && elapsed_ms >= timeout_ms ==> r == PollAction::Stop,
        !exited && elapsed_ms < timeout_ms ==> r == PollAction::Wait,
{
    if exited {
        PollAction::Collect
    } else if elapsed_ms >= timeout_ms {
        PollAction::Stop
    } else {
        PollAction::Wait
    }
}

} // verus!
