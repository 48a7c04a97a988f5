use moon::target::TargetError;
use moon::turbo::{migrate_pipeline, MigrateError};
use moon::target::Target;
use moon::turbo::{
    convert_globals, convert_task, extract_project_task_ids, InheritedTasksConfig, PlatformType,
    TaskCommandArgs, TurboJson, TurboTask,
};

fn strings(list: &[&str]) -> Vec<String> {
    list.iter().map(|s| s.to_string()).collect()
}

fn empty_tasks_config() -> InheritedTasksConfig {
    InheritedTasksConfig { implicit_inputs: vec![], tasks: vec![] }
}

#[test]
fn converst_deps() {
    let mut config = InheritedTasksConfig { implicit_inputs: strings(&["existing.txt"]), ..empty_tasks_config() };

    convert_globals(
        &TurboJson { global_dependencies: Some(strings(&["file.ts", "glob/**/*.js"])), ..TurboJson::default() },
        &mut config,
    );

    assert_eq!(config.implicit_inputs, strings(&["existing.txt", "file.ts", "glob/**/*.js"]));
}

#[test]
fn converst_env() {
    let mut config = InheritedTasksConfig { implicit_inputs: strings(&["$FOO"]), ..empty_tasks_config() };

    convert_globals(&TurboJson { global_env: Some(strings(&["BAR", "BAZ"])), ..TurboJson::default() }, &mut config);

    assert_eq!(config.implicit_inputs, strings(&["$FOO", "$BAR", "$BAZ"]));
}

#[test]
fn sets_command() {
    let config = convert_task("foo", TurboTask::default()).unwrap();

    assert_eq!(config.command, TaskCommandArgs::String("moon node run-script foo".into()));
}

#[test]
fn converts_deps() {
    let config = convert_task(
        "foo",
        TurboTask { depends_on: Some(strings(&["normal", "^parent", "project#normal", "$VAR"])), ..TurboTask::default() },
    )
    .unwrap();

    assert_eq!(
        config.deps,
        vec![
            Target::new_self("normal").unwrap(),
            Target::parse("^:parent").unwrap(),
            Target::parse("project:normal").unwrap(),
        ]
    );
    assert_eq!(config.inputs, strings(&["$VAR"]));
}

#[test]
fn doesnt_set_deps_if_empty() {
    let config = convert_task("foo", TurboTask::default()).unwrap();

    assert_eq!(config.deps, Vec::<Target>::new());
}

#[test]
fn converts_env_to_inputs() {
    let config = convert_task("foo", TurboTask { env: Some(strings(&["FOO", "BAR"])), ..TurboTask::default() }).unwrap();

    assert_eq!(config.inputs, strings(&["$FOO", "$BAR"]));
}

#[test]
fn inherits_inputs() {
    let config = convert_task(
        "foo",
        TurboTask { inputs: Some(strings(&["file.ts", "some/folder", "some/glob/**/*"])), ..TurboTask::default() },
    )
    .unwrap();

    assert_eq!(config.inputs, strings(&["file.ts", "some/folder", "some/glob/**/*"]));
}

#[test]
fn converts_outputs() {
    let config = convert_task(
        "foo",
        TurboTask { outputs: Some(strings(&["dir", "dir/**/*", "dir/**", "dir/*", "dir/*/sub"])), ..TurboTask::default() },
    )
    .unwrap();

    assert_eq!(config.outputs, strings(&["dir", "dir/**/*", "dir/**/*", "dir/*", "dir/*/sub"]));
}

#[test]
fn doesnt_set_outputs_if_empty() {
    let config = convert_task("foo", TurboTask::default()).unwrap();

    assert_eq!(config.outputs, Vec::<String>::new());
}

#[test]
fn sets_local() {
    let config = convert_task("foo", TurboTask { persistent: Some(true), ..TurboTask::default() }).unwrap();

    assert!(config.local);
}

#[test]
fn sets_cache() {
    let config = convert_task("foo", TurboTask { cache: Some(false), ..TurboTask::default() }).unwrap();

    assert_eq!(config.options.cache, Some(false));
}

#[test]
fn converted_task_runs_on_node() {
    let config = convert_task("foo", TurboTask::default()).unwrap();

    assert_eq!(config.platform, PlatformType::Node);
    assert!(!config.local);
}

#[test]
fn invalid_dependency_target_is_an_error() {
    assert!(convert_task("foo", TurboTask { depends_on: Some(strings(&["a b"])), ..TurboTask::default() }).is_err());
}

#[test]
fn extracts_project_and_task() {
    assert_eq!(extract_project_task_ids("app#build"), (Some("app".to_string()), "build".to_string()));
    assert_eq!(extract_project_task_ids("build"), (None, "build".to_string()));
    assert_eq!(extract_project_task_ids("a#b#c"), (Some("a".to_string()), "b".to_string()));
}

#[test]
fn globals_report_modification() {
    let mut config = empty_tasks_config();
    assert!(!convert_globals(&TurboJson::default(), &mut config));
    assert!(convert_globals(&TurboJson { global_env: Some(vec![]), ..TurboJson::default() }, &mut config));
}

#[test]
fn migrates_pipeline_tasks() {
    let mut config = empty_tasks_config();
    let pipeline = vec![
        ("//#lint".to_string(), TurboTask::default()),
        ("web#build".to_string(), TurboTask { depends_on: Some(strings(&["^build"])), ..TurboTask::default() }),
        ("test".to_string(), TurboTask::default()),
        ("web#test".to_string(), TurboTask::default()),
    ];
    let plan = migrate_pipeline(pipeline, &strings(&["web"]), &mut config).unwrap();
    assert!(plan.skipped_root_tasks);
    assert!(plan.global_modified);
    assert_eq!(plan.project_tasks.len(), 1);
    assert_eq!(plan.project_tasks[0].0, "web");
    let ids: Vec<&str> = plan.project_tasks[0].1.iter().map(|(id, _)| id.as_str()).collect();
    assert_eq!(ids, vec!["build", "test"]);
    assert_eq!(plan.project_tasks[0].1[0].1.deps, vec![Target::parse("^:build").unwrap()]);
    assert_eq!(config.tasks.len(), 1);
    assert_eq!(config.tasks[0].0, "test");
    assert_eq!(config.tasks[0].1.command, TaskCommandArgs::String("moon node run-script test".into()));

    let mut config = empty_tasks_config();
    assert_eq!(
        migrate_pipeline(vec![("api#build".to_string(), TurboTask::default())], &strings(&["web"]), &mut config)
            .err(),
        Some(MigrateError::UnknownProject("api".into()))
    );
    let bad = TurboTask { depends_on: Some(strings(&["a:b:c"])), ..TurboTask::default() };
    assert_eq!(
        migrate_pipeline(vec![("x".to_string(), bad)], &vec![], &mut config).err(),
        Some(MigrateError::Target(TargetError::InvalidFormat("a:b:c".into())))
    );
}
