use moon::archiver::{
    archive_files, archive_step, check_outputs, is_archivable, ArchiveError, ArchiveStep, ArchiveTask, OutputsCheck,
};
use moon::target::Target;

fn task(target: &str, build: bool) -> ArchiveTask {
    ArchiveTask {
        target: Target::parse(target).unwrap(),
        is_build_type: build,
        output_files: vec!["dist/index.js".into()],
        output_globs: vec![],
    }
}

fn targets(list: &[&str]) -> Vec<Target> {
    list.iter().map(|t| Target::parse(t).unwrap()).collect()
}

#[test]
fn archives_build_tasks_and_configured_targets() {
    let tags = vec!["frontend".to_string()];
    assert_eq!(is_archivable(&task("app:build", true), &vec![], &tags), Ok(true));
    assert_eq!(is_archivable(&task("app:test", false), &vec![], &tags), Ok(false));
    assert_eq!(is_archivable(&task("app:test", false), &targets(&[":test"]), &tags), Ok(true));
    assert_eq!(is_archivable(&task("app:test", false), &targets(&["app:test"]), &tags), Ok(true));
    assert_eq!(is_archivable(&task("app:test", false), &targets(&["web:test"]), &tags), Ok(false));
    assert_eq!(is_archivable(&task("app:test", false), &targets(&["#frontend:test"]), &tags), Ok(true));
    assert_eq!(is_archivable(&task("app:test", false), &targets(&["#backend:test"]), &tags), Ok(false));
}

#[test]
fn refuses_dependency_and_self_targets() {
    assert_eq!(
        is_archivable(&task("app:test", false), &targets(&["^:test"]), &vec![]),
        Err(ArchiveError::NoDepsInRunContext)
    );
    assert_eq!(
        is_archivable(&task("app:test", false), &targets(&["~:test"]), &vec![]),
        Err(ArchiveError::NoSelfInRunContext)
    );
    assert_eq!(is_archivable(&task("app:test", false), &targets(&[":test", "^:x"]), &vec![]), Ok(true));
}

#[test]
fn checks_outputs() {
    let t = task("app:build", true);
    assert_eq!(check_outputs(&t, false, &vec![true]), OutputsCheck::Created);
    assert_eq!(check_outputs(&t, false, &vec![false]), OutputsCheck::Missing);
    let mut globbed = task("app:build", true);
    globbed.output_globs = vec!["dist/**/*".into()];
    assert_eq!(check_outputs(&globbed, true, &vec![true]), OutputsCheck::Missing);
    assert_eq!(check_outputs(&globbed, false, &vec![true]), OutputsCheck::WalkGlobs);
}

#[test]
fn decides_archive_steps() {
    let t = task("app:build", true);
    assert_eq!(archive_step(&t, false, true, false, true), Ok(ArchiveStep::Skip));
    assert_eq!(archive_step(&t, true, false, false, true), Err(ArchiveError::MissingOutputs("app:build".into())));
    assert_eq!(archive_step(&t, true, true, true, false), Ok(ArchiveStep::UseExisting));
    assert_eq!(archive_step(&t, true, true, false, false), Ok(ArchiveStep::Skip));
    assert_eq!(archive_step(&t, true, true, false, true), Ok(ArchiveStep::Create));
    assert_eq!(
        archive_files(&t, "/ws/.moon/cache/states/app/build"),
        vec![
            "dist/index.js".to_string(),
            "/ws/.moon/cache/states/app/build/stdout.log".to_string(),
            "/ws/.moon/cache/states/app/build/stderr.log".to_string(),
        ]
    );
}
