use moon::node_deps::{
    decide_install, engines_constraint, has_modified_manifests, install_command, package_manager_to_set,
    package_manager_version, version_file, InstallStep, NodeDepsConfig, NodePackageManager, NodeVersionManager,
};

fn config(pm: NodePackageManager) -> NodeDepsConfig {
    NodeDepsConfig {
        package_manager: pm,
        version: "18.0.0".into(),
        npm_version: "9.0.0".into(),
        pnpm_version: Some("8.1.0".into()),
        yarn_version: None,
        add_engines_constraint: true,
        dedupe_on_lockfile_change: true,
        sync_version_manager_config: Some(NodeVersionManager::Nvm),
    }
}

#[test]
fn names_package_manager_versions() {
    assert_eq!(package_manager_version(&config(NodePackageManager::Npm)), Some("npm@9.0.0".into()));
    assert_eq!(package_manager_version(&config(NodePackageManager::Pnpm)), Some("pnpm@8.1.0".into()));
    assert_eq!(package_manager_version(&config(NodePackageManager::Yarn)), None);
}

#[test]
fn sets_package_manager_only_when_corepack_aware() {
    assert_eq!(package_manager_to_set(&config(NodePackageManager::Pnpm), true), Some("pnpm@8.1.0".into()));
    assert_eq!(package_manager_to_set(&config(NodePackageManager::Pnpm), false), None);
    let mut inherit = config(NodePackageManager::Npm);
    inherit.npm_version = "inherit".into();
    assert_eq!(package_manager_to_set(&inherit, true), None);
}

#[test]
fn adds_engines_constraint() {
    assert_eq!(engines_constraint(&config(NodePackageManager::Npm)), Some(("node".to_string(), "18.0.0".to_string())));
    let mut off = config(NodePackageManager::Npm);
    off.add_engines_constraint = false;
    assert_eq!(engines_constraint(&off), None);
}

#[test]
fn names_version_files() {
    assert_eq!(NodeVersionManager::Nvm.get_config_filename(), ".nvmrc");
    assert_eq!(NodeVersionManager::Nodenv.get_config_filename(), ".node-version");
}

#[test]
fn detects_touched_manifests() {
    let touched = vec!["apps/web/package.json".to_string()];
    assert!(has_modified_manifests(&touched, "pnpm-lock.yaml"));
    assert!(has_modified_manifests(&vec!["pnpm-lock.yaml".to_string()], "pnpm-lock.yaml"));
    assert!(!has_modified_manifests(&vec!["apps/web/mypackage.json".to_string()], "yarn.lock"));
    assert!(!has_modified_manifests(&vec![], "yarn.lock"));
}

#[test]
fn decides_when_to_install() {
    let cfg = config(NodePackageManager::Pnpm);
    assert_eq!(decide_install(&cfg, false, 100, 200, false), InstallStep::UpToDate);
    assert_eq!(
        decide_install(&cfg, false, 300, 200, false),
        InstallStep::Install { command: "pnpm install".into(), dedupe: true }
    );
    assert_eq!(
        decide_install(&cfg, false, 0, 200, false),
        InstallStep::Install { command: "pnpm install".into(), dedupe: true }
    );
    assert_eq!(decide_install(&cfg, true, 100, 200, true), InstallStep::Offline);
    assert_eq!(install_command(NodePackageManager::Yarn), "yarn install");
    assert_eq!(install_command(NodePackageManager::Npm), "npm install");
}

#[test]
fn writes_version_manager_file() {
    let mut cfg = config(NodePackageManager::Npm);
    assert_eq!(version_file(&cfg, "/ws"), Some(("/ws/.nvmrc".to_string(), "18.0.0".to_string())));
    cfg.sync_version_manager_config = Some(NodeVersionManager::Nodenv);
    assert_eq!(version_file(&cfg, "/ws"), Some(("/ws/.node-version".to_string(), "18.0.0".to_string())));
    cfg.sync_version_manager_config = None;
    assert_eq!(version_file(&cfg, "/ws"), None);
}
