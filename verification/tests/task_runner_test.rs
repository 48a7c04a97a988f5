use moon::operation::{ActionStatus, Operation, OperationMeta, OperationMetaOutput};
use moon::process::output_to_string;
use moon::task_runner::{
    execution_outcome, ExecutionError,
    answer, archive_status, dependency_hashes, hydration_outcome, is_dependencies_complete, load_logs,
    logs_to_save, next_cache_step, next_stage, no_cache_facts, CacheQuery, CacheStep, HydrateFrom, RunStage,
    TargetState, TaskRunnerError,
};

fn states() -> Vec<(String, TargetState)> {
    vec![
        ("b:build".to_string(), TargetState::Passed("hashb".into())),
        ("a:build".to_string(), TargetState::Passthrough),
        ("c:build".to_string(), TargetState::Skipped),
    ]
}

fn strings(list: &[&str]) -> Vec<String> {
    list.iter().map(|s| s.to_string()).collect()
}

#[test]
fn checks_dependencies() {
    assert_eq!(is_dependencies_complete("t", &strings(&["a:build", "b:build"]), &states()), Ok(true));
    assert_eq!(is_dependencies_complete("t", &strings(&["b:build", "c:build"]), &states()), Ok(false));
    assert_eq!(
        is_dependencies_complete("t", &strings(&["x:build"]), &states()),
        Err(TaskRunnerError::MissingDependencyHash("x:build".into(), "t".into()))
    );
    assert_eq!(is_dependencies_complete("t", &vec![], &states()), Ok(true));
}

#[test]
fn collects_dependency_hashes_in_target_order() {
    assert_eq!(
        dependency_hashes(&strings(&["b:build", "c:build", "a:build", "z:build"]), &states()),
        vec![
            ("a:build".to_string(), "passthrough".to_string()),
            ("b:build".to_string(), "hashb".to_string()),
        ]
    );
}

#[test]
fn runs_stages_in_order() {
    let mut stage = RunStage::CheckDependencies;
    let mut seen = vec![stage];
    while stage != RunStage::Finished {
        let answer = match stage {
            RunStage::CheckDependencies => true,
            RunStage::Hydrate => false,
            _ => false,
        };
        stage = next_stage(stage, true, answer);
        seen.push(stage);
    }
    assert_eq!(
        seen,
        vec![
            RunStage::CheckDependencies,
            RunStage::GenerateHash,
            RunStage::Hydrate,
            RunStage::Execute,
            RunStage::Archive,
            RunStage::Finished
        ]
    );
    assert_eq!(next_stage(RunStage::CheckDependencies, true, false), RunStage::Skip);
    assert_eq!(next_stage(RunStage::Skip, true, false), RunStage::Finished);
    assert_eq!(next_stage(RunStage::Hydrate, true, true), RunStage::Finished);
    assert_eq!(next_stage(RunStage::CheckDependencies, false, true), RunStage::Execute);
    assert_eq!(next_stage(RunStage::Execute, false, false), RunStage::Finished);
}

#[test]
fn asks_cache_questions_until_done() {
    let mut facts = no_cache_facts();
    let mut asked = vec![];
    loop {
        match next_cache_step(0, false, false, &facts) {
            CacheStep::Ask(q) => {
                asked.push(q);
                answer(&mut facts, q, false);
            }
            CacheStep::Done(from, record) => {
                assert_eq!(from, None);
                assert!(!record);
                break;
            }
        }
    }
    assert_eq!(
        asked,
        vec![
            CacheQuery::CacheReadable,
        ]
    );
}

#[test]
fn restores_previous_outputs_for_the_same_hash() {
    let mut facts = no_cache_facts();
    assert_eq!(next_cache_step(0, true, false, &facts), CacheStep::Ask(CacheQuery::OutputsCreated));
    answer(&mut facts, CacheQuery::OutputsCreated, true);
    assert_eq!(next_cache_step(0, true, false, &facts), CacheStep::Done(Some(HydrateFrom::PreviousOutput), false));
}

#[test]
fn looks_at_local_archive_then_remotes() {
    let mut facts = no_cache_facts();
    answer(&mut facts, CacheQuery::CacheReadable, true);
    assert_eq!(next_cache_step(0, false, true, &facts), CacheStep::Ask(CacheQuery::LastRunStale));
    answer(&mut facts, CacheQuery::LastRunStale, false);
    assert_eq!(next_cache_step(0, false, true, &facts), CacheStep::Ask(CacheQuery::ArchiveExists));
    answer(&mut facts, CacheQuery::ArchiveExists, false);
    assert_eq!(next_cache_step(0, false, true, &facts), CacheStep::Ask(CacheQuery::RemoteCached));
    answer(&mut facts, CacheQuery::RemoteCached, false);
    assert_eq!(next_cache_step(0, false, true, &facts), CacheStep::Ask(CacheQuery::MoonbaseHasArtifact));
    answer(&mut facts, CacheQuery::MoonbaseHasArtifact, true);
    assert_eq!(next_cache_step(0, false, true, &facts), CacheStep::Done(Some(HydrateFrom::Moonbase), true));
    assert_eq!(next_cache_step(1, false, true, &facts), CacheStep::Done(None, true));
}

#[test]
fn reports_hydration_and_archiving() {
    assert_eq!(hydration_outcome(None, false), (ActionStatus::Skipped, false));
    assert_eq!(hydration_outcome(Some(HydrateFrom::LocalCache), false), (ActionStatus::Invalid, false));
    assert_eq!(hydration_outcome(Some(HydrateFrom::LocalCache), true), (ActionStatus::Cached, true));
    assert_eq!(hydration_outcome(Some(HydrateFrom::RemoteCache), true), (ActionStatus::CachedFromRemote, true));
    assert_eq!(archive_status(true), ActionStatus::Passed);
    assert_eq!(archive_status(false), ActionStatus::Skipped);
}

#[test]
fn saves_and_loads_logs() {
    let mut out = OperationMetaOutput::new();
    out.exit_code = Some(2);
    out.set_stderr("boom ✗".into());
    let op = Operation::new_finished(OperationMeta::TaskExecution(out), ActionStatus::Failed, 10);
    let (code, err, std) = logs_to_save(&op).unwrap();
    assert_eq!(code, 2);
    assert_eq!(output_to_string(&err), "boom ✗");
    assert!(std.is_empty());
    assert_eq!(logs_to_save(&Operation::new_finished(OperationMeta::NoOperation, ActionStatus::Passed, 0)), None);

    let mut restored = Operation::new(OperationMeta::OutputHydration(OperationMetaOutput::new()), 5, 7);
    load_logs(&mut restored, 2, Some(err), None);
    let output = restored.get_output().unwrap();
    assert_eq!(output.exit_code, Some(2));
    assert_eq!(output.stderr.as_deref(), Some("boom ✗"));
    assert_eq!(output.stdout, None);
}

#[test]
fn reports_execution_outcomes() {
    assert_eq!(
        execution_outcome("app:build", "tsc", Some("spawn failed".into()), None),
        Err(ExecutionError::Errored("spawn failed".into()))
    );
    let mut out = OperationMetaOutput::new();
    out.exit_code = Some(3);
    let failed = Operation::new_finished(OperationMeta::TaskExecution(out), ActionStatus::Failed, 0);
    assert_eq!(
        execution_outcome("app:build", "tsc", None, Some(&failed)),
        Err(ExecutionError::RunFailed("app:build".into(), "tsc".into(), Some(3)))
    );
    let passed = Operation::new_finished(OperationMeta::TaskExecution(OperationMetaOutput::new()), ActionStatus::Passed, 0);
    assert_eq!(execution_outcome("app:build", "tsc", None, Some(&passed)), Ok(()));
    assert_eq!(execution_outcome("app:build", "tsc", None, None), Ok(()));
}
