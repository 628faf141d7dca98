//! The cleanup plans: one allowlisted sequence of steps per manager, and the
//! protocol that runs them. Deletion is delegated to each manager's own CLI;
//! the one directory the library removes itself (npm's `_npx`) is removed only
//! after its path has been proven to be the intended one.
use crate::command::{
    answered_run, recorded_failure, args1, args2, args3, copy_envelope, envelope_is, envelope_owned, preview_of, same_envelope, same_failure,
};
use crate::path::{file_name, is_absolute, join, join_path, path_file_name, path_starts_with, starts_with_path};
use crate::pip::{no_python_text, python_resolved, resolve_python_for_cleanup};
use crate::text::{joined, join_spaced, owned, push_str, str_eq, trim_string, views};
use crate::types::{
    CacheCleanupRun, CleanupOutcome, CleanupStepResult, CleanupStepState, CommandEnvelope,
    CommandFailure, CommandRun, FailureKind, ManagerId,
};
use vstd::prelude::*;

verus! {

/// Cleanup deletes large caches, so it runs under a far larger budget (in
/// seconds) than a scan or an uninstall.
pub const CLEANUP_TIMEOUT_SECS: u64 = 300;

/// One step of a cleanup plan.
#[derive(Debug)]
pub enum CleanupStep {
    /// An allowlisted command of the manager's own CLI.
    Command { program: String, args: Vec<String> },
    /// `<python> -m pip <args>`, with the interpreter resolved when it runs.
    PipCommand { args: Vec<String> },
    /// The one directory the library deletes itself, after path assertions.
    GuardedDeletion(GuardedTarget),
}

/// Directories the library may delete itself.
#[derive(Debug, Clone, Copy, PartialEq, Eq, Structural)]
pub enum GuardedTarget {
    /// `npm cache clean --force` leaves `_npx`, and npm has no command for it.
    NpmNpxCache,
}

/// A plan step by its texts.
pub enum StepSpec {
    Command(Seq<char>, Seq<Seq<char>>),
    PipCommand(Seq<Seq<char>>),
    GuardedDeletion(GuardedTarget),
}

pub open spec fn step_view(s: CleanupStep) -> StepSpec {
    match s {
        CleanupStep::Command { program, args } => StepSpec::Command(program@, views(args@)),
        CleanupStep::PipCommand { args } => StepSpec::PipCommand(views(args@)),
        CleanupStep::GuardedDeletion(t) => StepSpec::GuardedDeletion(t),
    }
}

pub open spec fn plan_view(p: Seq<CleanupStep>) -> Seq<StepSpec> {
    p.map_values(|s: CleanupStep| step_view(s))
}

/// The allowlist: the steps of each manager's cleanup. nvm, Maven and Cargo
/// have none, since none of them ships a command that cleans its own cache.
pub open spec fn plan_spec(m: ManagerId) -> Seq<StepSpec> {
    match m {
        ManagerId::Npm => seq![
            StepSpec::Command("npm"@, seq!["cache"@, "clean"@, "--force"@]),
            StepSpec::GuardedDeletion(GuardedTarget::NpmNpxCache),
        ],
        ManagerId::Pnpm => seq![StepSpec::Command("pnpm"@, seq!["store"@, "prune"@])],
        ManagerId::Yarn => seq![StepSpec::Command("yarn"@, seq!["cache"@, "clean"@])],
        ManagerId::Bun => seq![StepSpec::Command("bun"@, seq!["pm"@, "cache"@, "rm"@])],
        ManagerId::Uv => seq![StepSpec::Command("uv"@, seq!["cache"@, "prune"@])],
        ManagerId::Homebrew => seq![StepSpec::Command("brew"@, seq!["cleanup"@])],
        ManagerId::Docker => seq![
            StepSpec::Command("docker"@, seq!["builder"@, "prune"@, "-f"@]),
            StepSpec::Command("docker"@, seq!["image"@, "prune"@, "-f"@]),
        ],
        ManagerId::Pip => seq![StepSpec::PipCommand(seq!["cache"@, "purge"@])],
        ManagerId::Nvm | ManagerId::Maven | ManagerId::Cargo => seq![],
    }
}

fn command_step(program: &str, args: Vec<String>) -> (r: CleanupStep)
    ensures
        step_view(r) == StepSpec::Command(program@, views(args@)),
{
    CleanupStep::Command { program: owned(program), args }
}

/// The cleanup plan of `manager`.
pub fn cleanup_plan(manager: ManagerId) -> (r: Vec<CleanupStep>)
    ensures
        plan_view(r@) == plan_spec(manager),
{
    let mut plan: Vec<CleanupStep> = Vec::new();
    match manager {
        ManagerId::Npm => {
            plan.push(command_step("npm", args3("cache", "clean", "--force")));
            plan.push(CleanupStep::GuardedDeletion(GuardedTarget::NpmNpxCache));
        },
        ManagerId::Pnpm => {
            plan.push(command_step("pnpm", args2("store", "prune")));
        },
        ManagerId::Yarn => {
            plan.push(command_step("yarn", args2("cache", "clean")));
        },
        ManagerId::Bun => {
            plan.push(command_step("bun", args3("pm", "cache", "rm")));
        },
        ManagerId::Uv => {
            plan.push(command_step("uv", args2("cache", "prune")));
        },
        ManagerId::Homebrew => {
            plan.push(command_step("brew", args1("cleanup")));
        },
        ManagerId::Docker => {
            plan.push(command_step("docker", args3("builder", "prune", "-f")));
            plan.push(command_step("docker", args3("image", "prune", "-f")));
        },
        ManagerId::Pip => {
            plan.push(CleanupStep::PipCommand { args: args2("cache", "purge") });
        },
        ManagerId::Nvm | ManagerId::Maven | ManagerId::Cargo => {},
    }
    assert(plan_view(plan@) =~= plan_spec(manager));
    plan
}

pub open spec fn npx_label() -> Seq<char> {
    "remove the npm _npx cache directory"@
}

impl GuardedTarget {
    /// What the step of this target does, in words.
    pub fn label(&self) -> (r: String)
        ensures
            r@ == npx_label(),
    {
        match self {
            GuardedTarget::NpmNpxCache => owned("remove the npm _npx cache directory"),
        }
    }
}

/// The arguments of a pip step after `-m pip`.
pub open spec fn pip_args(args: Seq<Seq<char>>) -> Seq<Seq<char>> {
    seq!["-m"@, "pip"@] + args
}

pub open spec fn is_python(p: Seq<char>) -> bool {
    p == "python3"@ || p == "python"@
}

/// The commands a cleanup of `m` may hand to the runner: the plan's own
/// commands under the cleanup budget, the interpreter probes and the pip
/// command of a pip step, and npm's cache lookup before the `_npx` removal.
pub open spec fn cleanup_command_allowed(
    m: ManagerId,
    program: Seq<char>,
    args: Seq<Seq<char>>,
    timeout_secs: u64,
) -> bool {
    let plan = plan_spec(m);
    ||| plan.contains(StepSpec::Command(program, args)) && timeout_secs == CLEANUP_TIMEOUT_SECS
    ||| exists|a: Seq<Seq<char>>|
        #![trigger plan.contains(StepSpec::PipCommand(a))]
        plan.contains(StepSpec::PipCommand(a)) && is_python(program) && ((args == seq![
            "--version"@,
        ] && timeout_secs == 5) || (args == pip_args(a) && timeout_secs
            == CLEANUP_TIMEOUT_SECS))
    ||| plan.contains(StepSpec::GuardedDeletion(GuardedTarget::NpmNpxCache)) && program == "npm"@
        && args == seq!["config"@, "get"@, "cache"@] && timeout_secs == 5
}

pub open spec fn npx_name() -> Seq<char> {
    "_npx"@
}

/// A path the library may delete: absolute, named `_npx`, directly under a
/// non-empty root that it lies within.
pub open spec fn guarded_npx_path(p: Seq<char>) -> bool {
    &&& is_absolute(p)
    &&& file_name(p) == Some(npx_name())
    &&& exists|root: Seq<char>|
        #![trigger join_path(root, npx_name())]
        root.len() > 0 && p == join_path(root, npx_name()) && path_starts_with(p, root)
}

/// The outcome of a plan from its steps: no failure is success, failures
/// without any success are failure, and a mix is partial completion.
pub open spec fn outcome_of(steps: Seq<CleanupStepResult>) -> CleanupOutcome {
    if !(exists|i: int| 0 <= i < steps.len() && (#[trigger] steps[i]).state == CleanupStepState::Failed) {
        CleanupOutcome::Succeeded
    } else if !(exists|i: int|
        0 <= i < steps.len() && (#[trigger] steps[i]).state == CleanupStepState::Succeeded) {
        CleanupOutcome::Failed
    } else {
        CleanupOutcome::PartiallyCompleted
    }
}

/// The failure message of the first failed step, if any.
pub open spec fn first_failure_message(steps: Seq<CleanupStepResult>) -> Option<String>
    decreases steps.len(),
{
    if steps.len() == 0 {
        None
    } else if steps[0].state == CleanupStepState::Failed {
        match steps[0].failure {
            Some(f) => Some(f.message),
            None => None,
        }
    } else {
        first_failure_message(steps.drop_first())
    }
}

/// Whether a step before `k` failed.
pub open spec fn failed_before(steps: Seq<CleanupStepResult>, k: int) -> bool {
    exists|j: int| 0 <= j < k && (#[trigger] steps[j]).state == CleanupStepState::Failed
}

/// A step result is well-formed: failed steps carry their failure, others
/// carry none.
pub open spec fn step_well_formed(r: CleanupStepResult) -> bool {
    (r.state == CleanupStepState::Failed) == (r.failure is Some)
}

/// What the result of a plan step says, given whether an earlier step failed.
pub open spec fn step_reports(ps: StepSpec, r: CleanupStepResult, stopped: bool) -> bool {
    &&& step_well_formed(r)
    &&& (stopped <==> r.state == CleanupStepState::Skipped)
    &&& match ps {
        StepSpec::Command(p, a) => {
            &&& r.label@ == preview_of(p, a)
            &&& r.command matches Some(e) && envelope_is(
                e,
                p,
                a,
                (CLEANUP_TIMEOUT_SECS * 1000) as u64,
            )
        },
        StepSpec::PipCommand(a) => match r.command {
            Some(e) => exists|python: Seq<char>|
                #![trigger is_python(python)]
                is_python(python) && envelope_is(
                    e,
                    python,
                    pip_args(a),
                    (CLEANUP_TIMEOUT_SECS * 1000) as u64,
                ) && r.label@ == preview_of(python, pip_args(a)) && !stopped,
            None => r.label@ == pip_label_spec(pip_args(a)) && (stopped || r.state
                == CleanupStepState::Failed),
        },
        StepSpec::GuardedDeletion(t) => r.label@ == npx_label() && r.command is None,
    }
}

/// What a command step reports from the runner's answer `out`: a clean
/// exit succeeded with its output; otherwise it failed, with the runner's
/// own failure or, for a non-zero exit, a failure named `label` + " failed"
/// that carries the run.
pub open spec fn step_from_answer(r: CleanupStepResult, out: Result<CommandRun, CommandFailure>, label: Seq<char>) -> bool {
    match out {
        Ok(run) => if run.exit_code == Some(0i32) {
            r.state == CleanupStepState::Succeeded && r.stdout == run.stdout && r.stderr == run.stderr
        } else {
            r.state == CleanupStepState::Failed && (r.failure matches Some(f) && recorded_failure(
                f,
                out,
                label + " failed"@,
            )) && r.stdout == run.stdout && r.stderr == run.stderr
        },
        Err(f) => r.state == CleanupStepState::Failed && r.failure == Some(f) && r.stdout == f.stdout
            && r.stderr == f.stderr,
    }
}

/// A step that was not skipped reports what running it gave: a command step
/// the runner's answer to its command under the cleanup budget; a pip step
/// the interpreter the probes chose and then the answer to its command, or
/// a failure when no interpreter answered; the `_npx` step what the guarded
/// deletion reported.
pub open spec fn step_follows_answer<
    F: Fn(&str, &[String], u64) -> Result<CommandRun, CommandFailure>,
    D: Fn(&str) -> Result<(), String>,
>(runner: F, deleter: D, ps: StepSpec, r: CleanupStepResult) -> bool {
    r.state == CleanupStepState::Skipped || match ps {
        StepSpec::Command(p, a) => exists|out: Result<CommandRun, CommandFailure>|
            #[trigger] answered_run(runner, p, a, CLEANUP_TIMEOUT_SECS, out) && step_from_answer(
                r,
                out,
                preview_of(p, a),
            ),
        StepSpec::PipCommand(a) => {
            ||| (exists|python: Seq<char>| #[trigger] python_resolved(runner, Ok::<Seq<char>, Seq<char>>(python))
                && (r.command matches Some(e) && envelope_is(
                e,
                python,
                pip_args(a),
                (CLEANUP_TIMEOUT_SECS * 1000) as u64,
            )) && r.label@ == preview_of(python, pip_args(a)) && exists|
                out: Result<CommandRun, CommandFailure>,
            |
                #[trigger] answered_run(runner, python, pip_args(a), CLEANUP_TIMEOUT_SECS, out) && step_from_answer(
                    r,
                    out,
                    preview_of(python, pip_args(a)),
                ))
            ||| python_resolved(runner, Err::<Seq<char>, Seq<char>>(no_python_text())) && r.state
                == CleanupStepState::Failed && r.command is None && r.label@ == pip_label_spec(pip_args(a))
                && (r.failure matches Some(f) && f.kind == FailureKind::MissingBinary
                && f.message@ == no_python_text())
        },
        StepSpec::GuardedDeletion(t) => exists|d: Result<(), String>|
            #[trigger] guarded_deletion_reported(runner, deleter, d) && match d {
                Ok(_) => r.state == CleanupStepState::Succeeded,
                Err(m) => r.state == CleanupStepState::Failed && (r.failure matches Some(f) && f.kind
                    == FailureKind::MissingPath && f.message == m),
            },
    }
}

/// Every step of the run reports what running it gave.
pub open spec fn run_follows_answers<
    F: Fn(&str, &[String], u64) -> Result<CommandRun, CommandFailure>,
    D: Fn(&str) -> Result<(), String>,
>(runner: F, deleter: D, manager: ManagerId, r: CacheCleanupRun) -> bool {
    forall|k: int|
        0 <= k < r.steps@.len() && k < plan_spec(manager).len() ==> step_follows_answer(
            runner,
            deleter,
            plan_spec(manager)[k],
            #[trigger] r.steps@[k],
        )
}

pub open spec fn pip_label_spec(args: Seq<Seq<char>>) -> Seq<char> {
    "<python> "@ + joined(args, seq![' '])
}

/// A result of `manager`'s cleanup that follows its plan: one result per step,
/// each reporting its step; after the first failure every later step is
/// skipped; the outcome and the message follow from the steps.
pub open spec fn run_follows_plan(manager: ManagerId, r: CacheCleanupRun) -> bool {
    let plan = plan_spec(manager);
    &&& r.manager == manager
    &&& if plan.len() == 0 {
        &&& r.outcome == CleanupOutcome::NoPlan
        &&& r.steps@.len() == 0
        &&& r.message matches Some(m) && m@ == "This package manager has no cleanup plan."@
    } else {
        &&& r.steps@.len() == plan.len()
        &&& forall|k: int|
            0 <= k < plan.len() ==> step_reports(
                plan[k],
                #[trigger] r.steps@[k],
                failed_before(r.steps@, k),
            )
        &&& r.outcome == outcome_of(r.steps@)
        &&& r.message == first_failure_message(r.steps@)
    }
}

impl CleanupStepResult {
    /// A step that ran and succeeded.
    pub fn succeeded(
        label: String,
        command: Option<CommandEnvelope>,
        stdout: String,
        stderr: String,
    ) -> (r: Self)
        ensures
            r.label == label,
            r.command == command,
            r.state == CleanupStepState::Succeeded,
            r.stdout == stdout,
            r.stderr == stderr,
            r.failure is None,
    {
        CleanupStepResult {
            label,
            command,
            state: CleanupStepState::Succeeded,
            stdout,
            stderr,
            failure: None,
        }
    }

    /// A step that ran and failed; its output is the failure's.
    pub fn failed(label: String, command: Option<CommandEnvelope>, failure: CommandFailure) -> (r:
        Self)
        ensures
            r.label == label,
            r.command == command,
            r.state == CleanupStepState::Failed,
            r.stdout == failure.stdout,
            r.stderr == failure.stderr,
            r.failure == Some(failure),
    {
        CleanupStepResult {
            label,
            command,
            state: CleanupStepState::Failed,
            stdout: failure.stdout.clone(),
            stderr: failure.stderr.clone(),
            failure: Some(failure),
        }
    }

    /// A step that did not run because an earlier one failed.
    pub fn skipped(label: String, command: Option<CommandEnvelope>) -> (r: Self)
        ensures
            r.label == label,
            r.command == command,
            r.state == CleanupStepState::Skipped,
            r.stdout@.len() == 0,
            r.stderr@.len() == 0,
            r.failure is None,
    {
        CleanupStepResult {
            label,
            command,
            state: CleanupStepState::Skipped,
            stdout: String::new(),
            stderr: String::new(),
            failure: None,
        }
    }
}

/// Runs one allowlisted command under the cleanup budget, or records it as
/// skipped when an earlier step failed.
pub fn execute_command_step<F>(
    program: &str,
    owned_args: Vec<String>,
    runner: &F,
    stopped: bool,
) -> (r: CleanupStepResult) where
    F: Fn(&str, &[String], u64) -> Result<CommandRun, CommandFailure>,

    requires
        forall|a: &[String]|
            views(a@) == views(owned_args@) ==> #[trigger] runner.requires(
                (program, a, CLEANUP_TIMEOUT_SECS),
            ),
    ensures
        step_well_formed(r),
        stopped <==> r.state == CleanupStepState::Skipped,
        r.label@ == preview_of(program@, views(owned_args@)),
        r.command matches Some(e) && envelope_is(
            e,
            program@,
            views(owned_args@),
            (CLEANUP_TIMEOUT_SECS * 1000) as u64,
        ),
        !stopped ==> exists|out: Result<CommandRun, CommandFailure>|
            #[trigger] answered_run(*runner, program@, views(owned_args@), CLEANUP_TIMEOUT_SECS, out)
                && step_from_answer(r, out, preview_of(program@, views(owned_args@))),
{
    let command = envelope_owned(
        program,
        crate::command::copy_strings(&owned_args),
        CLEANUP_TIMEOUT_SECS * 1000,
    );
    let label = command.preview.clone();
    if stopped {
        return CleanupStepResult::skipped(label, Some(command));
    }
    let slice = owned_args.as_slice();
    let out = runner(program, slice, CLEANUP_TIMEOUT_SECS);
    assert(runner.ensures((program, slice, CLEANUP_TIMEOUT_SECS), out));
    assert(answered_run(*runner, program@, views(owned_args@), CLEANUP_TIMEOUT_SECS, out));
    proof {
        reveal_strlit(" failed");
    }
    match out {
        Ok(run) => {
            if run.exit_code == Some(0i32) {
                CleanupStepResult::succeeded(label, Some(command), run.stdout, run.stderr)
            } else {
                let mut message = label.clone();
                push_str(&mut message, " failed");
                let failure = crate::command::command_failure(
                    FailureKind::CommandFailed,
                    message.as_str(),
                    run,
                );
                CleanupStepResult::failed(label, Some(command), failure)
            }
        },
        Err(failure) => CleanupStepResult::failed(label, Some(command), failure),
    }
}

/// Describes a pip step before its interpreter is known.
pub fn pip_step_label(args: &[String]) -> (r: String)
    ensures
        r@ == pip_label_spec(views(args@)),
{
    let mut r = owned("<python> ");
    let joined = join_spaced(args);
    push_str(&mut r, joined.as_str());
    r
}

/// `runner` answered `out` for `npm config get cache` with five seconds.
pub open spec fn asked_npm_cache<F: Fn(&str, &[String], u64) -> Result<CommandRun, CommandFailure>>(
    runner: F,
    out: Result<CommandRun, CommandFailure>,
) -> bool {
    exists|p: &str, a: &[String]|
        p@ == "npm"@ && views(a@) == seq!["config"@, "get"@, "cache"@] && #[trigger] runner.ensures(
            (p, a, 5u64),
            out,
        )
}

/// The npm cache directory from npm's answer: its trimmed output, unless
/// npm could not run, did not succeed, or printed nothing.
pub open spec fn npm_cache_root_spec(out: Result<CommandRun, CommandFailure>) -> Result<Seq<char>, Seq<char>> {
    match out {
        Err(failure) => Err("Could not resolve the npm cache directory: "@ + failure.message@),
        Ok(run) => if run.exit_code != Some(0i32) {
            Err("npm config get cache did not succeed, so _npx was left alone"@)
        } else if crate::text::trim(run.stdout@).len() == 0 {
            Err("npm reported an empty cache directory, so _npx was left alone"@)
        } else {
            Ok(crate::text::trim(run.stdout@))
        },
    }
}

/// Asks npm for its cache directory; refuses an empty or unavailable answer.
pub fn npm_cache_root<F>(runner: &F) -> (r: Result<String, String>) where
    F: Fn(&str, &[String], u64) -> Result<CommandRun, CommandFailure>,

    requires
        forall|p: &str, a: &[String], t: u64|
            p@ == "npm"@ && views(a@) == seq!["config"@, "get"@, "cache"@] && t == 5
                ==> #[trigger] runner.requires((p, a, t)),
    ensures
        r matches Ok(root) ==> root@.len() > 0 && root@ == crate::text::trim(root@),
        exists|out: Result<CommandRun, CommandFailure>|
            #[trigger] asked_npm_cache(*runner, out) && match (r, npm_cache_root_spec(out)) {
                (Ok(a), Ok(b)) => a@ == b,
                (Err(a), Err(b)) => a@ == b,
                _ => false,
            },
{
    let args = args3("config", "get", "cache");
    let arg_slice = args.as_slice();
    let out = runner("npm", arg_slice, 5);
    assert(runner.ensures(("npm", arg_slice, 5u64), out));
    assert(asked_npm_cache(*runner, out));
    proof {
        reveal_strlit("Could not resolve the npm cache directory: ");
    }
    match out {
        Err(failure) => {
            let mut message = owned("Could not resolve the npm cache directory: ");
            push_str(&mut message, failure.message.as_str());
            Err(message)
        },
        Ok(run) => {
            if run.exit_code != Some(0i32) {
                return Err(owned("npm config get cache did not succeed, so _npx was left alone"));
            }
            let root = trim_string(run.stdout.as_str());
            if crate::text::chars_of(root.as_str()).len() == 0 {
                return Err(owned("npm reported an empty cache directory, so _npx was left alone"));
            }
            proof {
                crate::text::lemma_trim_idempotent(run.stdout@);
            }
            Ok(root)
        },
    }
}

/// Why deleting `path` is refused, when it is: it must be absolute, lie
/// within `root` and be named `expected_name`.
pub open spec fn guard_refusal(path: Seq<char>, root: Seq<char>, expected_name: Seq<char>) -> Option<Seq<char>> {
    if !is_absolute(path) {
        Some("Refusing to delete "@ + path + " because it is not an absolute path"@)
    } else if !path_starts_with(path, root) {
        Some("Refusing to delete "@ + path + " because it is outside "@ + root)
    } else if file_name(path) != Some(expected_name) {
        Some("Refusing to delete "@ + path + " because it is not named "@ + expected_name)
    } else {
        None
    }
}

/// Checks that `path` is absolute, lies within `root` and is named
/// `expected_name`.
pub fn assert_guarded_path(path: &str, root: &str, expected_name: &str) -> (r: Result<(), String>)
    ensures
        r is Ok <==> is_absolute(path@) && path_starts_with(path@, root@) && file_name(path@)
            == Some(expected_name@),
        match guard_refusal(path@, root@, expected_name@) {
            Some(m) => r matches Err(e) && e@ == m,
            None => r is Ok,
        },
{
    if !crate::text::str_starts_with(path, "/") {
        proof {
            reveal_strlit("/");
            assert("/"@ =~= seq!['/']);
        }
        assert(!is_absolute(path@)) by {
            if is_absolute(path@) {
                assert(path@.subrange(0, 1) =~= seq!['/']);
            }
        }
        let mut m = owned("Refusing to delete ");
        push_str(&mut m, path);
        push_str(&mut m, " because it is not an absolute path");
        return Err(m);
    }
    proof {
        reveal_strlit("/");
        assert(path@.subrange(0, 1)[0] == path@[0]);
    }
    if !starts_with_path(path, root) {
        let mut m = owned("Refusing to delete ");
        push_str(&mut m, path);
        push_str(&mut m, " because it is outside ");
        push_str(&mut m, root);
        return Err(m);
    }
    let name = path_file_name(path);
    let matches = match &name {
        Some(n) => str_eq(n.as_str(), expected_name),
        None => false,
    };
    if !matches {
        let mut m = owned("Refusing to delete ");
        push_str(&mut m, path);
        push_str(&mut m, " because it is not named ");
        push_str(&mut m, expected_name);
        return Err(m);
    }
    Ok(())
}

/// `deleter` answered `out` for `path`.
pub open spec fn deleted<D: Fn(&str) -> Result<(), String>>(deleter: D, path: Seq<char>, out: Result<(), String>) -> bool {
    exists|a: &str| a@ == path && #[trigger] deleter.ensures((a,), out)
}

/// What removing npm's `_npx` reports: the error of the cache lookup or of
/// the guard, or what `deleter` answered for the guarded path.
pub open spec fn guarded_deletion_reported<
    F: Fn(&str, &[String], u64) -> Result<CommandRun, CommandFailure>,
    D: Fn(&str) -> Result<(), String>,
>(runner: F, deleter: D, r: Result<(), String>) -> bool {
    exists|out: Result<CommandRun, CommandFailure>|
        #[trigger] asked_npm_cache(runner, out) && match npm_cache_root_spec(out) {
            Err(m) => r matches Err(e) && e@ == m,
            Ok(root) => {
                let path = join_path(root, npx_name());
                match guard_refusal(path, root, npx_name()) {
                    Some(m) => r matches Err(e) && e@ == m,
                    None => guarded_npx_path(path) && deleted(deleter, path, r),
                }
            },
        }
}

/// Deletes a guarded target, but only a path proven to be the intended one:
/// for npm's `_npx`, the directory of that name in the cache npm reports,
/// once the guard accepts it.
pub fn run_guarded_deletion<F, D>(target: &GuardedTarget, runner: &F, deleter: &D) -> (r: Result<
    (),
    String,
>) where
    F: Fn(&str, &[String], u64) -> Result<CommandRun, CommandFailure>,
    D: Fn(&str) -> Result<(), String>,

    requires
        forall|p: &str, a: &[String], t: u64|
            p@ == "npm"@ && views(a@) == seq!["config"@, "get"@, "cache"@] && t == 5
                ==> #[trigger] runner.requires((p, a, t)),
        forall|p: &str| guarded_npx_path(p@) ==> #[trigger] deleter.requires((p,)),
    ensures
        guarded_deletion_reported(*runner, *deleter, r),
{
    match target {
        GuardedTarget::NpmNpxCache => {
            let root = match npm_cache_root(runner) {
                Ok(root) => root,
                Err(message) => return Err(message),
            };
            let path = join(root.as_str(), "_npx");
            match assert_guarded_path(path.as_str(), root.as_str(), "_npx") {
                Ok(()) => {},
                Err(message) => return Err(message),
            }
            assert(guarded_npx_path(path@)) by {
                assert(path@ == join_path(root@, npx_name()));
            }
            let path_str = path.as_str();
            let out = deleter(path_str);
            assert(deleter.ensures((path_str,), out));
            assert(deleted(*deleter, path@, out));
            out
        },
    }
}

/// The outcome of a run from its steps.
pub fn outcome_for(steps: &Vec<CleanupStepResult>) -> (r: CleanupOutcome)
    ensures
        r == outcome_of(steps@),
{
    let mut succeeded: usize = 0;
    let mut failed: usize = 0;
    let mut i: usize = 0;
    while i < steps.len()
        invariant
            i <= steps.len(),
            succeeded <= i,
            failed <= i,
            (failed == 0) == !(exists|j: int|
                0 <= j < i && (#[trigger] steps@[j]).state == CleanupStepState::Failed),
            (succeeded == 0) == !(exists|j: int|
                0 <= j < i && (#[trigger] steps@[j]).state == CleanupStepState::Succeeded),
        decreases steps.len() - i,
    {
        if steps[i].state == CleanupStepState::Succeeded {
            succeeded = succeeded + 1;
        } else if steps[i].state == CleanupStepState::Failed {
            failed = failed + 1;
        }
        i = i + 1;
    }
    if failed == 0 {
        CleanupOutcome::Succeeded
    } else if succeeded == 0 {
        CleanupOutcome::Failed
    } else {
        CleanupOutcome::PartiallyCompleted
    }
}

/// The message of the first failed step.
pub fn cleanup_message(steps: &Vec<CleanupStepResult>) -> (r: Option<String>)
    ensures
        r == first_failure_message(steps@),
{
    let mut i: usize = 0;
    assert(steps@.subrange(0, steps@.len() as int) == steps@);
    while i < steps.len()
        invariant
            i <= steps.len(),
            first_failure_message(steps@) == first_failure_message(steps@.subrange(i as int, steps@.len() as int)),
        decreases steps.len() - i,
    {
        let ghost rest = steps@.subrange(i as int, steps@.len() as int);
        assert(rest.drop_first() == steps@.subrange(i + 1, steps@.len() as int));
        assert(rest[0] == steps@[i as int]);
        if steps[i].state == CleanupStepState::Failed {
            return match &steps[i].failure {
                Some(f) => Some(f.message.clone()),
                None => None,
            };
        }
        i = i + 1;
    }
    None
}

/// Runs the cleanup plan of `manager`, deleting a guarded directory through
/// `deleter`.
pub fn run_cache_cleanup_with_runner<F, D>(manager: ManagerId, runner: &F, deleter: &D) -> (r:
    CacheCleanupRun) where
    F: Fn(&str, &[String], u64) -> Result<CommandRun, CommandFailure>,
    D: Fn(&str) -> Result<(), String>,

    requires
        forall|p: &str, a: &[String], t: u64|
            cleanup_command_allowed(manager, p@, views(a@), t) ==> #[trigger] runner.requires(
                (p, a, t),
            ),
        forall|p: &str| guarded_npx_path(p@) ==> #[trigger] deleter.requires((p,)),
    ensures
        run_follows_plan(manager, r),
        run_follows_answers(*runner, *deleter, manager, r),
{
    run_cache_cleanup_with_runner_and_deleter(manager, runner, deleter)
}

/// Runs the cleanup plan of `manager`: steps run in order, the first failure
/// skips every later step, and the outcome distinguishes full success, partial
/// completion and outright failure.
pub fn run_cache_cleanup_with_runner_and_deleter<F, D>(
    manager: ManagerId,
    runner: &F,
    deleter: &D,
) -> (r: CacheCleanupRun) where
    F: Fn(&str, &[String], u64) -> Result<CommandRun, CommandFailure>,
    D: Fn(&str) -> Result<(), String>,

    requires
        forall|p: &str, a: &[String], t: u64|
            cleanup_command_allowed(manager, p@, views(a@), t) ==> #[trigger] runner.requires(
                (p, a, t),
            ),
        forall|p: &str| guarded_npx_path(p@) ==> #[trigger] deleter.requires((p,)),
    ensures
        run_follows_plan(manager, r),
        run_follows_answers(*runner, *deleter, manager, r),
{
    let plan = cleanup_plan(manager);
    let ghost spec_plan = plan_spec(manager);
    if plan.len() == 0 {
        return CacheCleanupRun {
            manager,
            outcome: CleanupOutcome::NoPlan,
            steps: Vec::new(),
            message: Some(owned("This package manager has no cleanup plan.")),
        };
    }
    let mut steps: Vec<CleanupStepResult> = Vec::new();
    let mut stopped = false;
    let mut i: usize = 0;
    while i < plan.len()
        invariant
            i <= plan@.len(),
            plan_view(plan@) == spec_plan,
            spec_plan == plan_spec(manager),
            steps@.len() == i,
            stopped == failed_before(steps@, i as int),
            forall|k: int|
                0 <= k < i ==> step_reports(
                    spec_plan[k],
                    #[trigger] steps@[k],
                    failed_before(steps@, k),
                ),
            forall|k: int| 0 <= k < i ==> step_follows_answer(*runner, *deleter, spec_plan[k], #[trigger] steps@[k]),
            forall|p: &str, a: &[String], t: u64|
                cleanup_command_allowed(manager, p@, views(a@), t) ==> #[trigger] runner.requires(
                    (p, a, t),
                ),
            forall|p: &str| guarded_npx_path(p@) ==> #[trigger] deleter.requires((p,)),
        decreases plan@.len() - i,
    {
        let ghost ps = spec_plan[i as int];
        assert(step_view(plan@[i as int]) == ps);
        assert(spec_plan.contains(ps));
        let result = match &plan[i] {
            CleanupStep::Command { program, args } => {
                let owned_list = crate::command::copy_strings(args);
                let prog: &str = program.as_str();
                assert forall|a: &[String]| views(a@) == views(owned_list@) implies #[trigger] runner.requires(
                    (prog, a, CLEANUP_TIMEOUT_SECS),
                ) by {
                    assert(cleanup_command_allowed(manager, prog@, views(a@), CLEANUP_TIMEOUT_SECS));
                }
                execute_command_step(prog, owned_list, runner, stopped)
            },
            CleanupStep::PipCommand { args } => {
                let mut owned_list = args2("-m", "pip");
                let mut j: usize = 0;
                let ghost base = views(owned_list@);
                while j < args.len()
                    invariant
                        j <= args.len(),
                        views(owned_list@) == base + views(args@.subrange(0, j as int)),
                    decreases args.len() - j,
                {
                    let ghost prev = views(owned_list@);
                    owned_list.push(args[j].clone());
                    assert(views(owned_list@) == prev.push(args@[j as int]@));
                    assert(views(args@.subrange(0, j + 1)) == views(args@.subrange(0, j as int)).push(args@[j as int]@));
                    j = j + 1;
                }
                assert(args@.subrange(0, args@.len() as int) == args@);
                assert(views(owned_list@) == pip_args(views(args@)));
                if stopped {
                    CleanupStepResult::skipped(pip_step_label(owned_list.as_slice()), None)
                } else {
                    assert forall|p: &str, a: &[String], t: u64|
                        is_python(p@) && views(a@) == seq!["--version"@] && t == 5
                        implies #[trigger] runner.requires((p, a, t)) by {
                        assert(cleanup_command_allowed(manager, p@, views(a@), t));
                    }
                    match resolve_python_for_cleanup(runner) {
                        Ok(python) => {
                            let py: &str = python.as_str();
                            assert forall|a: &[String]| views(a@) == views(owned_list@) implies #[trigger] runner.requires(
                                (py, a, CLEANUP_TIMEOUT_SECS),
                            ) by {
                                assert(cleanup_command_allowed(manager, py@, views(a@), CLEANUP_TIMEOUT_SECS));
                            }
                            let ghost pa = views(owned_list@);
                            let res = execute_command_step(py, owned_list, runner, false);
                            assert(is_python(py@));
                            assert(step_reports(ps, res, stopped));
                            assert(python_resolved(*runner, Ok::<Seq<char>, Seq<char>>(py@)));
                            assert(step_follows_answer(*runner, *deleter, ps, res));
                            res
                        },
                        Err(message) => CleanupStepResult::failed(
                            pip_step_label(owned_list.as_slice()),
                            None,
                            CommandFailure {
                                kind: FailureKind::MissingBinary,
                                message,
                                command: None,
                                stdout: String::new(),
                                stderr: String::new(),
                            },
                        ),
                    }
                }
            },
            CleanupStep::GuardedDeletion(target) => {
                let label = target.label();
                if stopped {
                    CleanupStepResult::skipped(label, None)
                } else {
                    assert forall|p: &str, a: &[String], t: u64|
                        p@ == "npm"@ && views(a@) == seq!["config"@, "get"@, "cache"@] && t == 5
                        implies #[trigger] runner.requires((p, a, t)) by {
                        assert(cleanup_command_allowed(manager, p@, views(a@), t));
                    }
                    let res = run_guarded_deletion(target, runner, deleter);
                    let ghost res_v = res;
                    assert(guarded_deletion_reported(*runner, *deleter, res_v));
                    match res {
                        Ok(()) => CleanupStepResult::succeeded(label, None, String::new(), String::new()),
                        Err(message) => CleanupStepResult::failed(
                            label,
                            None,
                            CommandFailure {
                                kind: FailureKind::MissingPath,
                                message,
                                command: None,
                                stdout: String::new(),
                                stderr: String::new(),
                            },
                        ),
                    }
                }
            },
        };
        assert(step_reports(ps, result, stopped));
        assert(step_follows_answer(*runner, *deleter, ps, result));
        let ghost before = steps@;
        steps.push(result);
        assert forall|k: int| 0 <= k <= i implies failed_before(steps@, k) == failed_before(before, k) by {
            if failed_before(steps@, k) {
                let j = choose|j: int| 0 <= j < k && (#[trigger] steps@[j]).state == CleanupStepState::Failed;
                assert(before[j] == steps@[j]);
            }
            if failed_before(before, k) {
                let j = choose|j: int| 0 <= j < k && (#[trigger] before[j]).state == CleanupStepState::Failed;
                assert(before[j] == steps@[j]);
            }
        }
        stopped = stopped || result_failed(&steps[i]);
        assert(stopped == failed_before(steps@, i + 1)) by {
            if steps@[i as int].state == CleanupStepState::Failed {
                assert(failed_before(steps@, i + 1));
            }
        }
        assert forall|k: int| 0 <= k < i + 1 implies step_reports(
            spec_plan[k],
            #[trigger] steps@[k],
            failed_before(steps@, k),
        ) by {
            if k < i {
                assert(steps@[k] == before[k]);
            }
        }
        assert forall|k: int| 0 <= k < i + 1 implies step_follows_answer(
            *runner,
            *deleter,
            spec_plan[k],
            #[trigger] steps@[k],
        ) by {
            if k < i {
                assert(steps@[k] == before[k]);
            }
        }
        i = i + 1;
    }
    let outcome = outcome_for(&steps);
    let message = cleanup_message(&steps);
    CacheCleanupRun { outcome, message, manager, steps }
}

fn result_failed(r: &CleanupStepResult) -> (b: bool)
    ensures
        b == (r.state == CleanupStepState::Failed),
{
    r.state == CleanupStepState::Failed
}

/// nvm, Maven and Cargo have no cleanup: no plan, so a run of theirs runs
/// nothing and says so.
pub proof fn law_no_cleanup_without_an_official_command(m: ManagerId, r: CacheCleanupRun)
    requires
        m == ManagerId::Nvm || m == ManagerId::Maven || m == ManagerId::Cargo,
        run_follows_plan(m, r),
    ensures
        plan_spec(m).len() == 0,
        r.outcome == CleanupOutcome::NoPlan,
        r.steps@.len() == 0,
{
}

/// The uv cleanup never passes `--force`, which would bypass uv's own check
/// for caches in use.
pub proof fn law_uv_cleanup_keeps_the_in_use_check()
    ensures
        forall|k: int|
            0 <= k < plan_spec(ManagerId::Uv).len() ==> (#[trigger] plan_spec(ManagerId::Uv)[k] matches StepSpec::Command(
                _,
                a,
            ) && !a.contains("--force"@)),
{
    reveal_strlit("--force");
    reveal_strlit("cache");
    reveal_strlit("prune");
    let a = seq!["cache"@, "prune"@];
    assert(!a.contains("--force"@)) by {
        assert(a[0] != "--force"@ && a[1] != "--force"@) by {
            assert(a[0].len() != "--force"@.len());
            assert(a[1].len() != "--force"@.len());
        }
    }
}

/// The Homebrew cleanup is `brew cleanup` alone: no `--prune`, `--scrub` or
/// `--prune-prefix`.
pub proof fn law_homebrew_cleanup_has_no_extra_flags()
    ensures
        plan_spec(ManagerId::Homebrew) == seq![StepSpec::Command("brew"@, seq!["cleanup"@])],
{
}

/// The Docker cleanup prunes only the build cache and dangling images: it
/// never prunes all images (`-a`), the whole system, containers or volumes.
pub proof fn law_docker_cleanup_never_prunes_everything()
    ensures
        forall|k: int|
            0 <= k < plan_spec(ManagerId::Docker).len() ==> (#[trigger] plan_spec(ManagerId::Docker)[k] matches StepSpec::Command(
                p,
                a,
            ) && p == "docker"@ && !a.contains("-a"@) && !a.contains("--all"@) && a[0] != "system"@
                && a[0] != "container"@ && a[0] != "volume"@),
{
    reveal_strlit("-a");
    reveal_strlit("--all");
    reveal_strlit("system");
    reveal_strlit("container");
    reveal_strlit("volume");
    reveal_strlit("builder");
    reveal_strlit("image");
    reveal_strlit("prune");
    reveal_strlit("-f");
    let a1 = seq!["builder"@, "prune"@, "-f"@];
    let a2 = seq!["image"@, "prune"@, "-f"@];
    assert(!a1.contains("-a"@) && !a1.contains("--all"@)) by {
        assert(a1[2] != "-a"@) by {
            assert(a1[2][1] != "-a"@[1]);
        }
        assert(a1[0].len() != "-a"@.len() && a1[1].len() != "-a"@.len());
        assert(a1[0][0] != "--all"@[0] && a1[1][0] != "--all"@[0] && a1[2].len() != "--all"@.len());
    }
    assert(!a2.contains("-a"@) && !a2.contains("--all"@)) by {
        assert(a2[2] != "-a"@) by {
            assert(a2[2][1] != "-a"@[1]);
        }
        assert(a2[0].len() != "-a"@.len() && a2[1].len() != "-a"@.len());
        assert(a2[0][0] != "--all"@[0] && a2[1][0] != "--all"@[0] && a2[2].len() != "--all"@.len());
    }
    assert(a1[0] != "system"@ && a1[0] != "container"@ && a1[0] != "volume"@) by {
        assert(a1[0].len() != "system"@.len() && a1[0].len() != "container"@.len());
        assert(a1[0][0] != "volume"@[0]);
    }
    assert(a2[0] != "system"@ && a2[0] != "container"@ && a2[0] != "volume"@) by {
        assert(a2[0].len() != "system"@.len() && a2[0].len() != "container"@.len() && a2[0].len() != "volume"@.len());
    }
}

/// A plan stops at its first failure: every later step is skipped, never
/// run.
pub proof fn law_first_failure_stops_the_plan(m: ManagerId, r: CacheCleanupRun, j: int, k: int)
    requires
        run_follows_plan(m, r),
        0 <= j < k < r.steps@.len(),
        r.steps@[j].state == CleanupStepState::Failed,
    ensures
        r.steps@[k].state == CleanupStepState::Skipped,
{
    assert(failed_before(r.steps@, k));
}

/// A run never reports outright failure once a step succeeded (the cache
/// may already be gone), and reports success only when no step failed.
pub proof fn law_outcome_is_truthful(m: ManagerId, r: CacheCleanupRun, i: int)
    requires
        run_follows_plan(m, r),
        0 <= i < r.steps@.len(),
    ensures
        r.steps@[i].state == CleanupStepState::Succeeded ==> r.outcome != CleanupOutcome::Failed,
        r.steps@[i].state == CleanupStepState::Failed ==> r.outcome != CleanupOutcome::Succeeded,
{
}

/// Every command a plan runs carries the cleanup budget, not a scan's.
pub proof fn law_cleanup_commands_use_the_cleanup_budget(m: ManagerId, r: CacheCleanupRun, k: int)
    requires
        run_follows_plan(m, r),
        0 <= k < r.steps@.len(),
        r.steps@[k].command matches Some(e),
    ensures
        r.steps@[k].command.unwrap().timeout_ms == CLEANUP_TIMEOUT_SECS * 1000,
{
    let plan = plan_spec(m);
    assert(step_reports(plan[k], r.steps@[k], failed_before(r.steps@, k)));
}

} // verus!
