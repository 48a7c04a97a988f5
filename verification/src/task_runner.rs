//! Decisions of running a task: whether its dependencies are done, whether
//! its outputs can be restored from a cache (asked one question at a time
//! of the caller, who looks at the file system, clocks and remote caches),
//! and which operations record what happened.

use vstd::prelude::*;
use vstd::string::StringExecFns;
use crate::kv::{get, has_key, kv_index, kv_upsert, unique_keys, upsert};
use crate::operation::{ActionStatus, Operation, OperationMeta, OperationMetaOutput};
use crate::ordered::{keys_sorted, lemma_represents_stored, represents, sorted_upsert};
use crate::operation::{spec_output, text_of};
use crate::process::{lemma_output_text_of_encoding, output_to_string, spec_output_text, utf8_bytes};
use vstd::utf8::encode_utf8;

verus! {

/// The state of a task that has run in this pipeline.
#[derive(Clone, Debug, PartialEq, Eq)]
pub enum TargetState {
    Failed,
    /// Passed with the given hash.
    Passed(String),
    /// Passed without caching.
    Passthrough,
    Skipped,
}

pub enum TargetStateView {
    Failed,
    Passed(Seq<char>),
    Passthrough,
    Skipped,
}

impl DeepView for TargetState {
    type V = TargetStateView;

    open spec fn deep_view(&self) -> TargetStateView {
        match self {
            TargetState::Failed => TargetStateView::Failed,
            TargetState::Passed(h) => TargetStateView::Passed(h@),
            TargetState::Passthrough => TargetStateView::Passthrough,
            TargetState::Skipped => TargetStateView::Skipped,
        }
    }
}

/// A dependency that is done lets dependents run.
pub open spec fn spec_is_complete(s: TargetStateView) -> bool {
    s is Passed || s is Passthrough
}

/// Why a task cannot run.
#[derive(Clone, Debug, PartialEq, Eq)]
pub enum TaskRunnerError {
    /// A dependency has no state: (dependency, task).
    MissingDependencyHash(String, String),
}

/// Whether the dependencies of `task` are done: `Ok(false)` at the first
/// dependency that failed or was skipped, an error at the first one that
/// has not run, `Ok(true)` when all are done.
pub open spec fn spec_deps_complete(deps: Seq<Seq<char>>, states: Seq<(Seq<char>, TargetStateView)>, task: Seq<char>, n: nat) -> Result<bool, (Seq<char>, Seq<char>)>
    decreases n,
{
    if n == 0 {
        Ok(true)
    } else {
        match spec_deps_complete(deps, states, task, (n - 1) as nat) {
            Ok(true) => match get(states, deps[n - 1]) {
                None => Err((deps[n - 1], task)),
                Some(s) => Ok(spec_is_complete(s)),
            },
            other => other,
        }
    }
}

pub open spec fn runner_error_view(e: TaskRunnerError) -> (Seq<char>, Seq<char>) {
    match e {
        TaskRunnerError::MissingDependencyHash(d, t) => (d@, t@),
    }
}

proof fn lemma_deps_stop(deps: Seq<Seq<char>>, states: Seq<(Seq<char>, TargetStateView)>, task: Seq<char>, n: nat, m: nat)
    requires
        spec_deps_complete(deps, states, task, n) != Ok::<bool, (Seq<char>, Seq<char>)>(true),
        n <= m,
    ensures
        spec_deps_complete(deps, states, task, m) == spec_deps_complete(deps, states, task, n),
    decreases m - n,
{
    if n < m {
        lemma_deps_stop(deps, states, task, n, (m - 1) as nat);
    }
}

/// Checks the dependencies of `task` against the states of the tasks that
/// have run.
pub fn is_dependencies_complete(task: &str, deps: &Vec<String>, states: &Vec<(String, TargetState)>) -> (r: Result<bool, TaskRunnerError>)
    requires
        unique_keys(states.deep_view()),
    ensures
        match r {
            Ok(b) => spec_deps_complete(deps.deep_view(), states.deep_view(), task@, deps@.len()) == Ok::<_, (Seq<char>, Seq<char>)>(b),
            Err(e) => spec_deps_complete(deps.deep_view(), states.deep_view(), task@, deps@.len()) == Err::<bool, _>(runner_error_view(e)),
        },
{
    let ghost dv = deps.deep_view();
    let mut i: usize = 0;
    while i < deps.len()
        invariant
            i <= deps.len(),
            dv == deps.deep_view(),
            unique_keys(states.deep_view()),
            spec_deps_complete(dv, states.deep_view(), task@, i as nat) == Ok::<_, (Seq<char>, Seq<char>)>(true),
        decreases deps.len() - i,
    {
        assert(dv[i as int] == deps[i as int]@);
        match kv_index(states, deps[i].as_str()) {
            None => {
                proof {
                    lemma_deps_stop(dv, states.deep_view(), task@, (i + 1) as nat, dv.len());
                }
                return Err(TaskRunnerError::MissingDependencyHash(deps[i].clone(), task.to_owned()));
            },
            Some(k) => {
                let complete = match &states[k].1 {
                    TargetState::Passed(_) | TargetState::Passthrough => true,
                    _ => false,
                };
                assert(states.deep_view()[k as int].1 == states[k as int].1.deep_view());
                if !complete {
                    proof {
                        lemma_deps_stop(dv, states.deep_view(), task@, (i + 1) as nat, dv.len());
                    }
                    return Ok(false);
                }
            },
        }
        i = i + 1;
    }
    Ok(true)
}

/// The hash of a dependency as it goes into a task's hash: its hash when
/// it passed, `passthrough` when it ran without caching.
pub open spec fn spec_dep_hash(s: TargetStateView) -> Option<Seq<char>> {
    match s {
        TargetStateView::Passed(h) => Some(h),
        TargetStateView::Passthrough => Some("passthrough"@),
        _ => None,
    }
}

/// The dependency hashes of the first `n` dependencies, by dependency.
pub open spec fn spec_dep_hashes(deps: Seq<Seq<char>>, states: Seq<(Seq<char>, TargetStateView)>, n: nat) -> Map<
    Seq<char>,
    Seq<char>,
>
    decreases n,
{
    if n == 0 {
        Map::empty()
    } else {
        let acc = spec_dep_hashes(deps, states, (n - 1) as nat);
        match get(states, deps[n - 1]) {
            Some(s) => match spec_dep_hash(s) {
                Some(h) => acc.insert(deps[n - 1], h),
                None => acc,
            },
            None => acc,
        }
    }
}

/// Collects the hashes of a task's dependencies for its own hash, in the
/// order of the dependencies' targets.
pub fn dependency_hashes(deps: &Vec<String>, states: &Vec<(String, TargetState)>) -> (r: Vec<(String, String)>)
    requires
        unique_keys(states.deep_view()),
    ensures
        keys_sorted(r.deep_view()),
        represents(r.deep_view(), spec_dep_hashes(deps.deep_view(), states.deep_view(), deps@.len())),
{
    let ghost dv = deps.deep_view();
    let mut r: Vec<(String, String)> = Vec::new();
    assert(r.deep_view() =~= Seq::<(Seq<char>, Seq<char>)>::empty());
    proof {
        assert forall|key: Seq<char>| #[trigger] get(r.deep_view(), key) == if Map::<Seq<char>, Seq<char>>::empty().dom().contains(key) {
            Some(Map::<Seq<char>, Seq<char>>::empty()[key])
        } else {
            None
        } by {
            assert(!has_key(r.deep_view(), key));
        }
    }
    let mut i: usize = 0;
    while i < deps.len()
        invariant
            i <= deps.len(),
            dv == deps.deep_view(),
            unique_keys(states.deep_view()),
            keys_sorted(r.deep_view()),
            represents(r.deep_view(), spec_dep_hashes(dv, states.deep_view(), i as nat)),
        decreases deps.len() - i,
    {
        let ghost acc = spec_dep_hashes(dv, states.deep_view(), i as nat);
        assert(dv[i as int] == deps[i as int]@);
        if let Some(k) = kv_index(states, deps[i].as_str()) {
            assert(states.deep_view()[k as int].1 == states[k as int].1.deep_view());
            match &states[k].1 {
                TargetState::Passed(h) => {
                    let ghost before = r.deep_view();
                    sorted_upsert(&mut r, deps[i].clone(), h.clone());
                    proof {
                        lemma_represents_stored(before, r.deep_view(), acc, dv[i as int], h@);
                    }
                },
                TargetState::Passthrough => {
                    let ghost before = r.deep_view();
                    sorted_upsert(&mut r, deps[i].clone(), "passthrough".to_owned());
                    proof {
                        lemma_represents_stored(before, r.deep_view(), acc, dv[i as int], "passthrough"@);
                    }
                },
                _ => {},
            }
        }
        i = i + 1;
    }
    r
}

/// Where outputs are restored from.
#[derive(Clone, Copy, Debug, PartialEq, Eq, Structural)]
pub enum HydrateFrom {
    LocalCache,
    Moonbase,
    PreviousOutput,
    RemoteCache,
}

/// The status of a hydration operation that restored outputs.
pub open spec fn spec_hydrated_status(from: HydrateFrom) -> ActionStatus {
    match from {
        HydrateFrom::Moonbase | HydrateFrom::RemoteCache => ActionStatus::CachedFromRemote,
        _ => ActionStatus::Cached,
    }
}

pub fn hydrated_status(from: HydrateFrom) -> (r: ActionStatus)
    ensures
        r == spec_hydrated_status(from),
{
    match from {
        HydrateFrom::Moonbase | HydrateFrom::RemoteCache => ActionStatus::CachedFromRemote,
        _ => ActionStatus::Cached,
    }
}

/// A question the cache check asks of the caller.
#[derive(Clone, Copy, Debug, PartialEq, Eq, Structural)]
pub enum CacheQuery {
    /// Do the task's literal outputs exist (globs bypassed)?
    OutputsCreated,
    /// Can the cache be read?
    CacheReadable,
    /// Is the last run older than the configured lifetime?
    LastRunStale,
    /// Is there a local archive for the hash?
    ArchiveExists,
    /// Is that archive older than the configured lifetime?
    ArchiveStale,
    /// Does the remote cache service hold the action?
    RemoteCached,
    /// Does the remote storage hold an artifact for the hash?
    MoonbaseHasArtifact,
}

/// The answers given so far.
#[derive(Clone, Copy, Debug, PartialEq, Eq, Structural)]
pub struct CacheFacts {
    pub outputs_created: Option<bool>,
    pub readable: Option<bool>,
    pub last_run_stale: Option<bool>,
    pub archive_exists: Option<bool>,
    pub archive_stale: Option<bool>,
    pub remote_cached: Option<bool>,
    pub moonbase_has_artifact: Option<bool>,
}

/// The next thing the cache check needs, or its outcome.
#[derive(Clone, Copy, Debug, PartialEq, Eq, Structural)]
pub enum CacheStep {
    Ask(CacheQuery),
    /// The outcome, and whether the new hash is recorded in the run state.
    Done(Option<HydrateFrom>, bool),
}

/// The cache check as a decision tree over the previous run (its exit code
/// and whether its hash is the current one), whether a lifetime is
/// configured, and the answers so far. The previous outputs are reused when
/// the hash is unchanged and they exist; otherwise, when the cache can be
/// read, the new hash is recorded, a failed previous run or a stale run
/// forces a rerun, and the local archive, then the remote cache service,
/// then the remote storage are looked at in turn.
pub open spec fn spec_cache_step(exit_code: i32, same_hash: bool, has_lifetime: bool, f: CacheFacts) -> CacheStep {
    let stale_known = !has_lifetime || f.last_run_stale is Some;
    let stale = has_lifetime && f.last_run_stale == Some(true);
    if exit_code == 0 && same_hash && f.outputs_created is None {
        CacheStep::Ask(CacheQuery::OutputsCreated)
    } else if exit_code == 0 && same_hash && f.outputs_created == Some(true) {
        if !stale_known {
            CacheStep::Ask(CacheQuery::LastRunStale)
        } else if stale {
            CacheStep::Done(None, false)
        } else {
            CacheStep::Done(Some(HydrateFrom::PreviousOutput), false)
        }
    } else if f.readable is None {
        CacheStep::Ask(CacheQuery::CacheReadable)
    } else if f.readable == Some(false) {
        CacheStep::Done(None, false)
    } else if exit_code > 0 {
        CacheStep::Done(None, true)
    } else if !stale_known {
        CacheStep::Ask(CacheQuery::LastRunStale)
    } else if stale {
        CacheStep::Done(None, true)
    } else if f.archive_exists is None {
        CacheStep::Ask(CacheQuery::ArchiveExists)
    } else if f.archive_exists == Some(true) {
        if has_lifetime && f.archive_stale is None {
            CacheStep::Ask(CacheQuery::ArchiveStale)
        } else if has_lifetime && f.archive_stale == Some(true) {
            CacheStep::Done(None, true)
        } else {
            CacheStep::Done(Some(HydrateFrom::LocalCache), true)
        }
    } else if f.remote_cached is None {
        CacheStep::Ask(CacheQuery::RemoteCached)
    } else if f.remote_cached == Some(true) {
        CacheStep::Done(Some(HydrateFrom::RemoteCache), true)
    } else if f.moonbase_has_artifact is None {
        CacheStep::Ask(CacheQuery::MoonbaseHasArtifact)
    } else if f.moonbase_has_artifact == Some(true) {
        CacheStep::Done(Some(HydrateFrom::Moonbase), true)
    } else {
        CacheStep::Done(None, true)
    }
}

/// The next step of the cache check.
pub fn next_cache_step(exit_code: i32, same_hash: bool, has_lifetime: bool, facts: &CacheFacts) -> (r: CacheStep)
    ensures
        r == spec_cache_step(exit_code, same_hash, has_lifetime, *facts),
{
    let stale_known = !has_lifetime || facts.last_run_stale.is_some();
    let stale = has_lifetime && match facts.last_run_stale {
        Some(b) => b,
        None => false,
    };
    let outputs = facts.outputs_created;
    if exit_code == 0 && same_hash && outputs.is_none() {
        return CacheStep::Ask(CacheQuery::OutputsCreated);
    }
    if exit_code == 0 && same_hash && match outputs {
        Some(b) => b,
        None => false,
    } {
        if !stale_known {
            return CacheStep::Ask(CacheQuery::LastRunStale);
        }
        if stale {
            return CacheStep::Done(None, false);
        }
        return CacheStep::Done(Some(HydrateFrom::PreviousOutput), false);
    }
    match facts.readable {
        None => return CacheStep::Ask(CacheQuery::CacheReadable),
        Some(false) => return CacheStep::Done(None, false),
        Some(true) => {},
    }
    if exit_code > 0 {
        return CacheStep::Done(None, true);
    }
    if !stale_known {
        return CacheStep::Ask(CacheQuery::LastRunStale);
    }
    if stale {
        return CacheStep::Done(None, true);
    }
    match facts.archive_exists {
        None => return CacheStep::Ask(CacheQuery::ArchiveExists),
        Some(true) => {
            if has_lifetime {
                match facts.archive_stale {
                    None => return CacheStep::Ask(CacheQuery::ArchiveStale),
                    Some(true) => return CacheStep::Done(None, true),
                    Some(false) => {},
                }
            }
            return CacheStep::Done(Some(HydrateFrom::LocalCache), true);
        },
        Some(false) => {},
    }
    match facts.remote_cached {
        None => return CacheStep::Ask(CacheQuery::RemoteCached),
        Some(true) => return CacheStep::Done(Some(HydrateFrom::RemoteCache), true),
        Some(false) => {},
    }
    match facts.moonbase_has_artifact {
        None => CacheStep::Ask(CacheQuery::MoonbaseHasArtifact),
        Some(true) => CacheStep::Done(Some(HydrateFrom::Moonbase), true),
        Some(false) => CacheStep::Done(None, true),
    }
}

/// No answers yet.
pub fn no_cache_facts() -> (f: CacheFacts)
    ensures
        f == (CacheFacts {
            outputs_created: None,
            readable: None,
            last_run_stale: None,
            archive_exists: None,
            archive_stale: None,
            remote_cached: None,
            moonbase_has_artifact: None,
        }),
{
    CacheFacts {
        outputs_created: None,
        readable: None,
        last_run_stale: None,
        archive_exists: None,
        archive_stale: None,
        remote_cached: None,
        moonbase_has_artifact: None,
    }
}

/// Records the answer to a question.
pub fn answer(facts: &mut CacheFacts, query: CacheQuery, value: bool)
    ensures
        *final(facts) == (match query {
            CacheQuery::OutputsCreated => CacheFacts { outputs_created: Some(value), ..*old(facts) },
            CacheQuery::CacheReadable => CacheFacts { readable: Some(value), ..*old(facts) },
            CacheQuery::LastRunStale => CacheFacts { last_run_stale: Some(value), ..*old(facts) },
            CacheQuery::ArchiveExists => CacheFacts { archive_exists: Some(value), ..*old(facts) },
            CacheQuery::ArchiveStale => CacheFacts { archive_stale: Some(value), ..*old(facts) },
            CacheQuery::RemoteCached => CacheFacts { remote_cached: Some(value), ..*old(facts) },
            CacheQuery::MoonbaseHasArtifact => CacheFacts { moonbase_has_artifact: Some(value), ..*old(facts) },
        }),
{
    match query {
        CacheQuery::OutputsCreated => facts.outputs_created = Some(value),
        CacheQuery::CacheReadable => facts.readable = Some(value),
        CacheQuery::LastRunStale => facts.last_run_stale = Some(value),
        CacheQuery::ArchiveExists => facts.archive_exists = Some(value),
        CacheQuery::ArchiveStale => facts.archive_stale = Some(value),
        CacheQuery::RemoteCached => facts.remote_cached = Some(value),
        CacheQuery::MoonbaseHasArtifact => facts.moonbase_has_artifact = Some(value),
    }
}

/// The operation of a skipped task: an execution that was skipped.
pub fn skipped_operation(now: i64) -> (o: Operation)
    ensures
        o.status == ActionStatus::Skipped,
        o.meta matches OperationMeta::TaskExecution(out) && out.exit_code is None && out.stderr is None && out.stdout is None,
        o.finished_at == Some(now),
{
    Operation::new_finished(OperationMeta::TaskExecution(OperationMetaOutput::new()), ActionStatus::Skipped, now)
}

/// The operation of a task that does nothing: passed.
pub fn no_op_operation(now: i64) -> (o: Operation)
    ensures
        o.status == ActionStatus::Passed,
        o.meta == OperationMeta::NoOperation,
        o.finished_at == Some(now),
{
    Operation::new_finished(OperationMeta::NoOperation, ActionStatus::Passed, now)
}

pub open spec fn is_execution(o: Operation) -> bool {
    o.meta is TaskExecution
}

/// When a task failed before its command ran, adds an aborted execution
/// that carries the error (exit code -1); nothing when an execution is
/// already recorded.
pub fn inject_failed_task_execution(operations: &mut Vec<Operation>, error: Option<String>, now: i64, clock: u64)
    ensures
        (exists|i: int| 0 <= i < old(operations)@.len() && is_execution(#[trigger] old(operations)@[i])) ==> final(operations)@ == old(operations)@,
        (forall|i: int| 0 <= i < old(operations)@.len() ==> !is_execution(#[trigger] old(operations)@[i])) ==> {
            &&& final(operations)@.len() == old(operations)@.len() + 1
            &&& final(operations)@.take(old(operations)@.len() as int) == old(operations)@
            &&& final(operations)@.last().status == ActionStatus::Aborted
            &&& final(operations)@.last().meta matches OperationMeta::TaskExecution(out)
            &&& (error is Some ==> out.exit_code == Some(-1i32) && out.stderr == error)
            &&& (error is None ==> out.exit_code is None && out.stderr is None)
        },
{
    let mut i: usize = 0;
    while i < operations.len()
        invariant
            i <= operations.len(),
            forall|k: int| 0 <= k < i ==> !is_execution(#[trigger] operations@[k]),
        decreases operations.len() - i,
    {
        if let OperationMeta::TaskExecution(_) = &operations[i].meta {
            assert(is_execution(operations@[i as int]));
            return;
        }
        i = i + 1;
    }
    let mut output = OperationMetaOutput::new();
    if let Some(e) = error {
        output.exit_code = Some(-1i32);
        output.set_stderr(e);
    }
    let mut operation = Operation::new(OperationMeta::TaskExecution(output), now, clock);
    operation.finish(ActionStatus::Aborted, now, clock);
    let ghost before = operations@;
    operations.push(operation);
    assert(operations@.take(before.len() as int) =~= before);
}

/// The stages of running a task.
#[derive(Clone, Copy, Debug, PartialEq, Eq, Structural)]
pub enum RunStage {
    /// Check that the dependencies are done (answer: whether they are).
    CheckDependencies,
    /// Record the task as skipped.
    Skip,
    /// Generate the task's hash.
    GenerateHash,
    /// Restore the outputs from a cache (answer: whether it did).
    Hydrate,
    /// Run the task's command.
    Execute,
    /// Archive the outputs.
    Archive,
    /// Nothing is left to do.
    Finished,
}

/// The stage after `stage`, given whether caching is enabled for the task
/// and the answer of the stage that asks a question.
pub open spec fn spec_next_stage(stage: RunStage, cache_enabled: bool, answer: bool) -> RunStage {
    match stage {
        RunStage::CheckDependencies => if !answer {
            RunStage::Skip
        } else if cache_enabled {
            RunStage::GenerateHash
        } else {
            RunStage::Execute
        },
        RunStage::GenerateHash => RunStage::Hydrate,
        RunStage::Hydrate => if answer {
            RunStage::Finished
        } else {
            RunStage::Execute
        },
        RunStage::Execute => if cache_enabled {
            RunStage::Archive
        } else {
            RunStage::Finished
        },
        _ => RunStage::Finished,
    }
}

/// The stage after `stage`: with a dependency that is not done the task is
/// skipped; with caching, a hash is generated and the outputs restored
/// when possible, else the command runs and its outputs are archived;
/// without caching the command runs.
pub fn next_stage(stage: RunStage, cache_enabled: bool, answer: bool) -> (r: RunStage)
    ensures
        r == spec_next_stage(stage, cache_enabled, answer),
{
    match stage {
        RunStage::CheckDependencies => {
            if !answer {
                RunStage::Skip
            } else if cache_enabled {
                RunStage::GenerateHash
            } else {
                RunStage::Execute
            }
        },
        RunStage::GenerateHash => RunStage::Hydrate,
        RunStage::Hydrate => {
            if answer {
                RunStage::Finished
            } else {
                RunStage::Execute
            }
        },
        RunStage::Execute => {
            if cache_enabled {
                RunStage::Archive
            } else {
                RunStage::Finished
            }
        },
        _ => RunStage::Finished,
    }
}

/// The stages a run goes through from `stage` for `n` steps, given the
/// dependencies' answer and the hydration's.
pub open spec fn spec_run_from(stage: RunStage, cache_enabled: bool, deps_done: bool, hydrated: bool, n: nat) -> RunStage
    decreases n,
{
    if n == 0 {
        stage
    } else {
        let answer = if stage == RunStage::CheckDependencies {
            deps_done
        } else {
            hydrated
        };
        spec_run_from(spec_next_stage(stage, cache_enabled, answer), cache_enabled, deps_done, hydrated, (n - 1) as nat)
    }
}

/// Every run finishes within five steps, and the command runs exactly when
/// the dependencies are done and no cache restored the outputs.
pub proof fn lemma_run_finishes(cache_enabled: bool, deps_done: bool, hydrated: bool)
    ensures
        spec_run_from(RunStage::CheckDependencies, cache_enabled, deps_done, hydrated, 5) == RunStage::Finished,
        (exists|n: nat| n <= 5 && #[trigger] spec_run_from(RunStage::CheckDependencies, cache_enabled, deps_done, hydrated, n)
            == RunStage::Execute) <==> (deps_done && (!cache_enabled || !hydrated)),
{
    reveal_with_fuel(spec_run_from, 6);
    let s0 = RunStage::CheckDependencies;
    if deps_done && (!cache_enabled || !hydrated) {
        if cache_enabled {
            assert(spec_run_from(s0, cache_enabled, deps_done, hydrated, 3) == RunStage::Execute);
        } else {
            assert(spec_run_from(s0, cache_enabled, deps_done, hydrated, 1) == RunStage::Execute);
        }
    } else {
        assert forall|n: nat| n <= 5 implies #[trigger] spec_run_from(s0, cache_enabled, deps_done, hydrated, n)
            != RunStage::Execute by {
            if n == 0 {
            } else if n == 1 {
            } else if n == 2 {
            } else if n == 3 {
            } else if n == 4 {
            } else {
            }
        }
    }
}

/// What a hydration operation ends with, and whether the outputs were
/// restored: skipped when nothing is cached, invalid when restoring
/// failed, else cached (from a remote when it came from one).
pub fn hydration_outcome(cached: Option<HydrateFrom>, hydrated: bool) -> (r: (ActionStatus, bool))
    ensures
        r == match cached {
            None => (ActionStatus::Skipped, false),
            Some(from) => if hydrated {
                (spec_hydrated_status(from), true)
            } else {
                (ActionStatus::Invalid, false)
            },
        },
{
    match cached {
        None => (ActionStatus::Skipped, false),
        Some(from) => {
            if hydrated {
                (hydrated_status(from), true)
            } else {
                (ActionStatus::Invalid, false)
            }
        },
    }
}

/// What an archiving operation ends with: passed when an archive was made
/// or found, skipped otherwise.
pub fn archive_status(archived: bool) -> (r: ActionStatus)
    ensures
        r == if archived {
            ActionStatus::Passed
        } else {
            ActionStatus::Skipped
        },
{
    if archived {
        ActionStatus::Passed
    } else {
        ActionStatus::Skipped
    }
}

/// The exit code an output records; -1 when it has none.
pub open spec fn spec_exit_code(o: OperationMetaOutput) -> i32 {
    match o.exit_code {
        Some(c) => c,
        None => -1i32,
    }
}

/// The bytes a captured stream is saved as: its UTF-8 encoding, empty
/// when it was not captured.
pub open spec fn spec_log_bytes(o: Option<String>) -> Seq<u8> {
    match o {
        Some(t) => encode_utf8(t@),
        None => Seq::empty(),
    }
}

/// The logs saved for a task's last execution: its exit code (-1 when it
/// has none) and the bytes of its error and standard streams; none when
/// the operation has no output (the old logs are then removed).
pub fn logs_to_save(operation: &Operation) -> (r: Option<(i32, Vec<u8>, Vec<u8>)>)
    ensures
        match spec_output(operation.meta) {
            None => r is None,
            Some(o) => r matches Some((c, e, s)) && c == spec_exit_code(o) && e@ == spec_log_bytes(o.stderr) && s@
                == spec_log_bytes(o.stdout),
        },
{
    match operation.get_output() {
        None => None,
        Some(o) => {
            let code = match o.exit_code {
                Some(c) => c,
                None => -1i32,
            };
            let err = match &o.stderr {
                Some(t) => utf8_bytes(t.as_str()),
                None => Vec::new(),
            };
            let out = match &o.stdout {
                Some(t) => utf8_bytes(t.as_str()),
                None => Vec::new(),
            };
            Some((code, err, out))
        },
    }
}

/// Loads saved logs into a restored operation that has an output: the
/// cached exit code, and each stream whose log file exists, decoded.
pub fn load_logs(operation: &mut Operation, exit_code: i32, stderr: Option<Vec<u8>>, stdout: Option<Vec<u8>>)
    ensures
        final(operation).status == old(operation).status,
        final(operation).started_at == old(operation).started_at,
        final(operation).finished_at == old(operation).finished_at,
        final(operation).duration == old(operation).duration,
        final(operation).start_time == old(operation).start_time,
        match spec_output(old(operation).meta) {
            None => final(operation).meta == old(operation).meta,
            Some(o) => spec_output(final(operation).meta) matches Some(n) && n.exit_code == Some(exit_code)
                && text_of(n.stderr) == match stderr {
                Some(b) => Some(spec_output_text(b@)),
                None => text_of(o.stderr),
            } && text_of(n.stdout) == match stdout {
                Some(b) => Some(spec_output_text(b@)),
                None => text_of(o.stdout),
            } && (old(operation).meta is OutputHydration <==> final(operation).meta is OutputHydration),
        },
{
    match &mut operation.meta {
        OperationMeta::OutputHydration(out) => {
            out.exit_code = Some(exit_code);
            if let Some(b) = &stderr {
                out.stderr = Some(output_to_string(b.as_slice()));
            }
            if let Some(b) = &stdout {
                out.stdout = Some(output_to_string(b.as_slice()));
            }
        },
        OperationMeta::TaskExecution(out) => {
            out.exit_code = Some(exit_code);
            if let Some(b) = &stderr {
                out.stderr = Some(output_to_string(b.as_slice()));
            }
            if let Some(b) = &stdout {
                out.stdout = Some(output_to_string(b.as_slice()));
            }
        },
        _ => {},
    }
}

/// Logs saved from an output and loaded back give the same texts.
pub proof fn lemma_logs_round_trip(o: OperationMetaOutput)
    ensures
        o.stderr is Some ==> spec_output_text(spec_log_bytes(o.stderr)) == o.stderr.unwrap()@,
        o.stdout is Some ==> spec_output_text(spec_log_bytes(o.stdout)) == o.stdout.unwrap()@,
{
    if o.stderr is Some {
        lemma_output_text_of_encoding(o.stderr.unwrap()@);
    }
    if o.stdout is Some {
        lemma_output_text_of_encoding(o.stdout.unwrap()@);
    }
}

/// The question has not been answered yet.
pub open spec fn unanswered(f: CacheFacts, q: CacheQuery) -> bool {
    match q {
        CacheQuery::OutputsCreated => f.outputs_created is None,
        CacheQuery::CacheReadable => f.readable is None,
        CacheQuery::LastRunStale => f.last_run_stale is None,
        CacheQuery::ArchiveExists => f.archive_exists is None,
        CacheQuery::ArchiveStale => f.archive_stale is None,
        CacheQuery::RemoteCached => f.remote_cached is None,
        CacheQuery::MoonbaseHasArtifact => f.moonbase_has_artifact is None,
    }
}

pub open spec fn count_none(o: Option<bool>) -> nat {
    if o is None {
        1
    } else {
        0
    }
}

/// How many questions are still open.
pub open spec fn open_questions(f: CacheFacts) -> nat {
    count_none(f.outputs_created) + count_none(f.readable) + count_none(f.last_run_stale) + count_none(
        f.archive_exists,
    ) + count_none(f.archive_stale) + count_none(f.remote_cached) + count_none(f.moonbase_has_artifact)
}

/// The facts after answering a question.
pub open spec fn spec_answer(f: CacheFacts, q: CacheQuery, v: bool) -> CacheFacts {
    match q {
        CacheQuery::OutputsCreated => CacheFacts { outputs_created: Some(v), ..f },
        CacheQuery::CacheReadable => CacheFacts { readable: Some(v), ..f },
        CacheQuery::LastRunStale => CacheFacts { last_run_stale: Some(v), ..f },
        CacheQuery::ArchiveExists => CacheFacts { archive_exists: Some(v), ..f },
        CacheQuery::ArchiveStale => CacheFacts { archive_stale: Some(v), ..f },
        CacheQuery::RemoteCached => CacheFacts { remote_cached: Some(v), ..f },
        CacheQuery::MoonbaseHasArtifact => CacheFacts { moonbase_has_artifact: Some(v), ..f },
    }
}

/// The cache check never asks a question twice, so each answer leaves one
/// fewer open, and the check ends after at most seven questions.
pub proof fn lemma_cache_check_progress(exit_code: i32, same_hash: bool, has_lifetime: bool, f: CacheFacts, v: bool)
    ensures
        spec_cache_step(exit_code, same_hash, has_lifetime, f) matches CacheStep::Ask(q) ==> unanswered(f, q)
            && open_questions(spec_answer(f, q, v)) < open_questions(f),
        open_questions(f) == 0 ==> spec_cache_step(exit_code, same_hash, has_lifetime, f) is Done,
{
}

/// Why running a task's command failed.
#[derive(Clone, Debug, PartialEq, Eq)]
pub enum ExecutionError {
    /// The executor itself failed, with this message.
    Errored(String),
    /// The command of the task (target, command) exited with a failure,
    /// with the exit code when there was one.
    RunFailed(String, String, Option<i32>),
}

/// The outcome of running a task's command: the executor's error first;
/// otherwise a failure when the last execution failed; success else.
pub fn execution_outcome(
    target: &str,
    command: &str,
    result_error: Option<String>,
    last_execution: Option<&Operation>,
) -> (r: Result<(), ExecutionError>)
    ensures
        match result_error {
            Some(e) => r == Err::<(), ExecutionError>(ExecutionError::Errored(e)),
            None => match last_execution {
                Some(op) => if crate::operation::spec_has_failed(op.status) {
                    r matches Err(ExecutionError::RunFailed(t, c, code)) && t@ == target@ && c@ == command@
                        && code == match spec_output(op.meta) {
                        Some(o) => o.exit_code,
                        None => None,
                    }
                } else {
                    r is Ok
                },
                None => r is Ok,
            },
        },
{
    if let Some(e) = result_error {
        return Err(ExecutionError::Errored(e));
    }
    match last_execution {
        Some(op) => {
            if op.has_failed() {
                let code = match op.get_output() {
                    Some(o) => o.exit_code,
                    None => None,
                };
                Err(ExecutionError::RunFailed(target.to_owned(), command.to_owned(), code))
            } else {
                Ok(())
            }
        },
        None => Ok(()),
    }
}

} // verus!

verus! {

/// The dependencies of a task are done for the first `n` dependencies
/// exactly when each has a state and that state is passed (with or
/// without a hash). When the check says no, some dependency failed or was
/// skipped; when it fails, some dependency has no state, and the error
/// names it and the task.
proof fn lemma_deps_complete_prefix(deps: Seq<Seq<char>>, states: Seq<(Seq<char>, TargetStateView)>, task: Seq<char>, n: nat)
    requires
        n <= deps.len(),
    ensures
        spec_deps_complete(deps, states, task, n) == Ok::<bool, (Seq<char>, Seq<char>)>(true) <==> forall|i: int|
            0 <= i < n ==> ((#[trigger] get(states, deps[i])) matches Some(s) && (s is Passed || s is Passthrough)),
        spec_deps_complete(deps, states, task, n) == Ok::<bool, (Seq<char>, Seq<char>)>(false) ==> exists|i: int|
            0 <= i < n && ((#[trigger] get(states, deps[i])) matches Some(s) && (s is Failed || s is Skipped)),
        spec_deps_complete(deps, states, task, n) matches Err(e) ==> exists|i: int|
            0 <= i < n && (#[trigger] get(states, deps[i])) is None && e == (deps[i], task),
    decreases n,
{
    if n > 0 {
        lemma_deps_complete_prefix(deps, states, task, (n - 1) as nat);
        let k = n - 1;
        assert(deps.take(n as int) =~= deps.take(n as int));
    }
}

/// What the dependency check of a task answers, over all its dependencies:
/// `Ok(true)` exactly when every dependency has passed (with a hash or as a
/// pass-through); `Ok(false)` only when some dependency failed or was
/// skipped; an error only for a dependency that has no state, naming it
/// and the task.
pub proof fn lemma_deps_complete(deps: Seq<Seq<char>>, states: Seq<(Seq<char>, TargetStateView)>, task: Seq<char>)
    ensures
        spec_deps_complete(deps, states, task, deps.len()) == Ok::<bool, (Seq<char>, Seq<char>)>(true) <==> forall|i: int|
            0 <= i < deps.len() ==> ((#[trigger] get(states, deps[i])) matches Some(s) && (s is Passed || s is Passthrough)),
        spec_deps_complete(deps, states, task, deps.len()) == Ok::<bool, (Seq<char>, Seq<char>)>(false) ==> exists|i: int|
            0 <= i < deps.len() && ((#[trigger] get(states, deps[i])) matches Some(s) && (s is Failed || s is Skipped)),
        spec_deps_complete(deps, states, task, deps.len()) matches Err(e) ==> exists|i: int|
            0 <= i < deps.len() && (#[trigger] get(states, deps[i])) is None && e == (deps[i], task),
{
    lemma_deps_complete_prefix(deps, states, task, deps.len());
}

} // verus!
