use moon::js_sync::{
    dependency_version, has_changes, peer_version, BunConfig, DependencyProject, JavaScriptSyncer, NodeConfig,
    NodeVersionFormat, PackageManifest, SyncProject,
};
use moon::project::{DependencyConfig, DependencyScope};

fn dep(id: &str, scope: DependencyScope) -> DependencyConfig {
    DependencyConfig { id: id.into(), scope, via: None }
}

fn dep_project(name: &str, source: &str, version: Option<&str>) -> DependencyProject {
    DependencyProject {
        root: format!("/ws/{source}"),
        source: source.into(),
        package: Some(PackageManifest { name: Some(name.into()), version: version.map(|v| v.to_string()) }),
    }
}

fn project() -> SyncProject {
    SyncProject {
        id: "app".into(),
        root: "/ws/apps/app".into(),
        source: "apps/app".into(),
        dependencies: vec![
            dep("lib", DependencyScope::Production),
            dep("ui", DependencyScope::Development),
            dep("types", DependencyScope::Peer),
            dep("tool", DependencyScope::Build),
            dep("unknown", DependencyScope::Production),
            dep("root", DependencyScope::Production),
            dep("nopkg", DependencyScope::Production),
        ],
    }
}

fn projects() -> Vec<(String, DependencyProject)> {
    vec![
        ("lib".into(), dep_project("@ws/lib", "packages/lib", Some("1.2.3"))),
        ("ui".into(), dep_project("@ws/ui", "packages/ui", None)),
        ("types".into(), dep_project("@ws/types", "packages/types", Some("3.4.5"))),
        ("tool".into(), dep_project("@ws/tool", "packages/tool", Some("1.0.0"))),
        ("root".into(), dep_project("@ws/root", ".", Some("1.0.0"))),
        ("nopkg".into(), DependencyProject { root: "/ws/x".into(), source: "x".into(), package: None }),
    ]
}

fn pairs(list: &[(&str, &str)]) -> Vec<(String, String)> {
    list.iter().map(|(a, b)| (a.to_string(), b.to_string())).collect()
}

#[test]
fn writes_version_prefixes() {
    assert_eq!(NodeVersionFormat::File.get_prefix(), "file:");
    assert_eq!(NodeVersionFormat::Link.get_prefix(), "link:");
    assert_eq!(NodeVersionFormat::Star.get_prefix(), "*");
    assert_eq!(NodeVersionFormat::Version.get_prefix(), "");
    assert_eq!(NodeVersionFormat::VersionCaret.get_prefix(), "^");
    assert_eq!(NodeVersionFormat::VersionTilde.get_prefix(), "~");
    assert_eq!(NodeVersionFormat::Workspace.get_prefix(), "workspace:*");
    assert_eq!(NodeVersionFormat::WorkspaceCaret.get_prefix(), "workspace:^");
    assert_eq!(NodeVersionFormat::WorkspaceTilde.get_prefix(), "workspace:~");
}

#[test]
fn syncs_versions_with_caret() {
    let p = project();
    let cfg = NodeConfig {
        dependency_version_format: NodeVersionFormat::VersionCaret,
        sync_project_workspace_dependencies: true,
    };
    let plan = JavaScriptSyncer::for_node(&p, &cfg).sync(&projects());
    assert_eq!(plan.production, pairs(&[("@ws/lib", "^1.2.3")]));
    assert_eq!(plan.development, pairs(&[("@ws/ui", "^")]));
    assert_eq!(plan.peer, pairs(&[("@ws/types", "^3.0.0")]));
    assert!(has_changes(&plan));
}

#[test]
fn syncs_paths_for_file_format() {
    let p = project();
    let cfg = BunConfig { dependency_version_format: NodeVersionFormat::File, sync_project_workspace_dependencies: true };
    let plan = JavaScriptSyncer::for_bun(&p, &cfg).sync(&projects());
    assert_eq!(plan.production, pairs(&[("@ws/lib", "file:../../packages/lib")]));
    assert_eq!(plan.development, pairs(&[("@ws/ui", "file:../../packages/ui")]));
}

#[test]
fn syncs_workspace_protocol() {
    let p = project();
    let cfg = NodeConfig { dependency_version_format: NodeVersionFormat::Workspace, sync_project_workspace_dependencies: true };
    let plan = JavaScriptSyncer::for_node(&p, &cfg).sync(&projects());
    assert_eq!(plan.production, pairs(&[("@ws/lib", "workspace:*")]));
}

#[test]
fn does_nothing_when_disabled_or_at_root() {
    let p = project();
    let off = NodeConfig { dependency_version_format: NodeVersionFormat::Version, sync_project_workspace_dependencies: false };
    let plan = JavaScriptSyncer::for_node(&p, &off).sync(&projects());
    assert!(!has_changes(&plan));

    let mut root = project();
    root.source = ".".into();
    let on = NodeConfig { dependency_version_format: NodeVersionFormat::Version, sync_project_workspace_dependencies: true };
    let plan = JavaScriptSyncer::for_node(&root, &on).sync(&projects());
    assert!(!has_changes(&plan));
}

#[test]
fn computes_single_versions() {
    let prefix = NodeVersionFormat::Link.get_prefix();
    assert_eq!(dependency_version(NodeVersionFormat::Link, &prefix, "/ws/a/b", "/ws/c", "1.0.0"), "link:../a/b");
    let prefix = NodeVersionFormat::VersionTilde.get_prefix();
    assert_eq!(dependency_version(NodeVersionFormat::VersionTilde, &prefix, "/x", "/y", "2.1.0"), "~2.1.0");
    assert_eq!(peer_version("12.3.4"), "^12.0.0");
    assert_eq!(peer_version(""), "^0.0.0");
}
