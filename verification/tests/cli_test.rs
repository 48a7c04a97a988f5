use moon::cli::{
    ancestors, find_workspace_root, forwarded_args, is_globally_installed, setup_plan,
    workspace_binary_path, ActionPipelineStatus, MoonbaseSubscriber, PipelineEvent, SetupPlan,
};
use moon::moonbase::Moonbase;
use moon::platform::TargetOs;

#[test]
fn lists_ancestors() {
    assert_eq!(ancestors("/a/b"), vec!["/a/b".to_string(), "/a".to_string(), "/".to_string()]);
    assert_eq!(ancestors("/"), vec!["/".to_string()]);
    assert_eq!(ancestors("a/b"), vec!["a/b".to_string(), "a".to_string(), "".to_string()]);
}

#[test]
fn finds_nearest_workspace_root() {
    assert_eq!(find_workspace_root("/a/b", &vec![false, true, true]), Some("/a".to_string()));
    assert_eq!(find_workspace_root("/a/b", &vec![true, true, true]), Some("/a/b".to_string()));
    assert_eq!(find_workspace_root("/a/b", &vec![false, false, false]), None);
}

#[test]
fn detects_global_installs() {
    let home = Some("/home/u".to_string());
    assert!(is_globally_installed(
        &Some("/home/u/.nvm/versions/node/v18/bin/moon".to_string()),
        &home,
        TargetOs::Linux
    ));
    assert!(is_globally_installed(
        &Some("/home/u/Library/pnpm/moon".to_string()),
        &home,
        TargetOs::MacOs
    ));
    assert!(!is_globally_installed(&Some("/usr/bin/moon".to_string()), &home, TargetOs::Linux));
    assert!(!is_globally_installed(&None, &home, TargetOs::Linux));
}

#[test]
fn forwards_arguments() {
    let args = vec!["/usr/bin/moon".to_string(), "run".to_string(), "app:build".to_string()];
    assert_eq!(forwarded_args(&args), vec!["run".to_string(), "app:build".to_string()]);
    let args = vec!["node".to_string(), "moon".to_string()];
    assert_eq!(forwarded_args(&args), args);
    assert_eq!(forwarded_args(&vec![]), Vec::<String>::new());
}

#[test]
fn locates_workspace_binary() {
    assert_eq!(workspace_binary_path("/repo"), "/repo/target/debug/moon");
}

#[test]
fn plans_setup() {
    assert_eq!(
        setup_plan(&Some("18.0.0".to_string()), false),
        SetupPlan { node_version: Some("18.0.0".to_string()), install_deps: true }
    );
    assert_eq!(
        setup_plan(&Some("18.0.0".to_string()), true),
        SetupPlan { node_version: Some("18.0.0".to_string()), install_deps: false }
    );
    assert_eq!(setup_plan(&None, false), SetupPlan { node_version: None, install_deps: false });
}

#[test]
fn waits_only_on_completed_pipelines() {
    let sub = MoonbaseSubscriber::new(Moonbase {
        auth_token: "t".into(),
        organization_id: 1,
        repository_id: 2,
    });
    assert!(sub.waits_on(&PipelineEvent::PipelineCompleted(ActionPipelineStatus::Completed)));
    assert!(!sub.waits_on(&PipelineEvent::PipelineCompleted(ActionPipelineStatus::Aborted)));
    assert!(!sub.waits_on(&PipelineEvent::Other));
}
