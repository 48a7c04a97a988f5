use moon::project::{
    create_dependencies_from_config, create_file_groups_from_config, create_task_origins, existing_project_root,
    get_dependency_ids, get_task, is_affected, load_project_config, path_starts_with, project_root, relative_path,
    field_result, Condition, Criteria, DependencyConfig, FieldCheck, DependencyScope, InheritedTasksOptions, LogicalOperator,
    ProjectDependencySource, ProjectDependsOn, ProjectSetupError, TaskOrigin,
};

fn strings(list: &[&str]) -> Vec<String> {
    list.iter().map(|s| s.to_string()).collect()
}

#[test]
fn creates_dependencies_with_later_settings_winning() {
    let deps = create_dependencies_from_config(&vec![
        ProjectDependsOn::String("a".into()),
        ProjectDependsOn::Object(DependencyConfig { id: "b".into(), scope: DependencyScope::Development, via: None }),
        ProjectDependsOn::Object(DependencyConfig { id: "a".into(), scope: DependencyScope::Peer, via: Some("x".into()) }),
    ]);
    assert_eq!(deps.len(), 2);
    assert_eq!(deps[0].0, "a");
    assert_eq!(deps[0].1.scope, DependencyScope::Peer);
    assert_eq!(deps[0].1.via, Some("x".into()));
    assert_eq!(deps[0].1.source, ProjectDependencySource::Explicit);
    assert_eq!(deps[1].1.scope, DependencyScope::Development);
    assert_eq!(get_dependency_ids(&deps), strings(&["a", "b"]));
}

fn origin(inherited: Option<&str>, local: bool) -> TaskOrigin {
    TaskOrigin { inherited: inherited.map(|s| s.to_string()), local }
}

#[test]
fn inherits_renames_and_merges_tasks() {
    let options = InheritedTasksOptions {
        only: None,
        exclude: Some(strings(&["lint"])),
        rename: Some(vec![("build".into(), "compile".into())]),
    };
    let tasks = create_task_origins(&strings(&["build", "lint", "test"]), &strings(&["test", "dev"]), &options);
    assert_eq!(
        tasks,
        vec![
            ("compile".to_string(), origin(Some("build"), false)),
            ("dev".to_string(), origin(None, true)),
            ("test".to_string(), origin(Some("test"), true)),
        ]
    );
}

#[test]
fn empty_inclusion_list_inherits_nothing() {
    let options = InheritedTasksOptions { only: Some(vec![]), exclude: None, rename: None };
    let tasks = create_task_origins(&strings(&["build"]), &vec![], &options);
    assert!(tasks.is_empty());
    let options = InheritedTasksOptions { only: Some(strings(&["test"])), exclude: None, rename: None };
    let tasks = create_task_origins(&strings(&["build", "test"]), &vec![], &options);
    assert_eq!(tasks, vec![("test".to_string(), origin(Some("test"), false))]);
}

#[test]
fn merges_file_groups() {
    let groups = create_file_groups_from_config(
        &vec![("sources".into(), strings(&["src/**/*"])), ("tests".into(), strings(&["tests/**/*"]))],
        &vec![("sources".into(), strings(&["lib/**/*"])), ("docs".into(), strings(&["*.md"]))],
    );
    assert_eq!(
        groups,
        vec![
            ("sources".to_string(), strings(&["lib/**/*"])),
            ("tests".to_string(), strings(&["tests/**/*"])),
            ("docs".to_string(), strings(&["*.md"])),
        ]
    );
}

#[test]
fn finds_configured_tasks() {
    let tasks = vec![("build".to_string(), "tsc".to_string())];
    assert_eq!(get_task(&tasks, "build", "app"), Ok(&"tsc".to_string()));
    assert_eq!(
        get_task(&tasks, "test", "app"),
        Err(ProjectSetupError::UnconfiguredTask("test".into(), "app".into()))
    );
}

#[test]
fn loads_configuration_or_default() {
    assert_eq!(load_project_config("apps/a", false, 1, Ok(2)), Ok(1));
    assert_eq!(load_project_config("apps/a", true, 1, Ok(2)), Ok(2));
    assert_eq!(
        load_project_config::<u8>("apps/a", true, 1, Err("bad".into())),
        Err(ProjectSetupError::InvalidConfigFile("apps/a".into(), "bad".into()))
    );
}

#[test]
fn resolves_project_roots() {
    assert_eq!(project_root("/ws", "apps/a"), "/ws/apps/a");
    assert_eq!(project_root("/ws", "."), "/ws");
    assert_eq!(project_root("/ws", ""), "/ws");
    assert_eq!(existing_project_root("/ws", "apps/a", true), Ok("/ws/apps/a".to_string()));
    assert_eq!(
        existing_project_root("/ws", "apps/a", false),
        Err(ProjectSetupError::MissingProjectAtSource("apps/a".into()))
    );
}

#[test]
fn compares_paths_by_component() {
    assert!(path_starts_with("apps/a/src/x.ts", "apps/a"));
    assert!(path_starts_with("apps/a", "apps/a/"));
    assert!(!path_starts_with("apps/ab/x.ts", "apps/a"));
    assert!(!path_starts_with("/apps/a/x", "apps/a"));
}

#[test]
fn detects_affected_projects() {
    assert!(is_affected("apps/a", &strings(&["README.md", "apps/a/index.ts"])));
    assert!(!is_affected("apps/a", &strings(&["apps/b/index.ts"])));
    assert!(!is_affected("apps/a", &vec![]));
}

#[test]
fn computes_relative_paths() {
    assert_eq!(relative_path("/ws/packages/lib", "/ws/apps/app"), "../../packages/lib");
    assert_eq!(relative_path("/ws/a/b", "/ws/a"), "b");
    assert_eq!(relative_path("/ws/a", "/ws/a/b/c"), "../..");
    assert_eq!(relative_path("/ws/a", "/ws/a"), "");
    assert_eq!(relative_path("rel/a", "/ws"), "rel/a");
}

#[test]
fn evaluates_query_criteria() {
    let and = Criteria {
        op: LogicalOperator::And,
        conditions: vec![Condition::Field(FieldCheck::Value(Ok(true))), Condition::Field(FieldCheck::Value(Ok(true)))],
    };
    assert_eq!(and.matches(), Ok(true));
    let or = Criteria {
        op: LogicalOperator::Or,
        conditions: vec![Condition::Field(FieldCheck::Value(Ok(false))), Condition::Nested(and)],
    };
    assert_eq!(or.matches(), Ok(true));
    let failing = Criteria {
        op: LogicalOperator::And,
        conditions: vec![Condition::Field(FieldCheck::Value(Ok(true))), Condition::Field(FieldCheck::Value(Err("bad regex".into())))],
    };
    assert_eq!(failing.matches(), Err("bad regex".to_string()));
    let short = Criteria {
        op: LogicalOperator::And,
        conditions: vec![Condition::Field(FieldCheck::Value(Ok(false))), Condition::Field(FieldCheck::Value(Err("never".into())))],
    };
    assert_eq!(short.matches(), Ok(false));
    assert_eq!(Criteria { op: LogicalOperator::Or, conditions: vec![] }.matches(), Ok(false));
}

#[test]
fn evaluates_project_fields() {
    assert_eq!(field_result(&FieldCheck::Alias(None)), Ok(false));
    assert_eq!(field_result(&FieldCheck::Alias(Some(Ok(true)))), Ok(true));
    assert_eq!(field_result(&FieldCheck::Tags(Err("bad".into()))), Err("bad".to_string()));
    assert_eq!(field_result(&FieldCheck::AnyTask(vec![])), Ok(false));
    assert_eq!(field_result(&FieldCheck::AnyTask(vec![Err("bad".into()), Ok(false), Ok(true)])), Ok(true));
    assert_eq!(field_result(&FieldCheck::AnyTask(vec![Err("bad".into()), Ok(false)])), Ok(false));
    let query = Criteria {
        op: LogicalOperator::And,
        conditions: vec![
            Condition::Field(FieldCheck::AnyTask(vec![Ok(false), Ok(true)])),
            Condition::Field(FieldCheck::Alias(None)),
        ],
    };
    assert_eq!(query.matches(), Ok(false));
}
