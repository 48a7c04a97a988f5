//! Installing Node.js dependencies at the workspace root: what the root
//! `package.json` is given, and whether and how dependencies are installed.

use vstd::prelude::*;
use vstd::string::StringExecFns;
use crate::project::spec_components;
use crate::text::str_eq;
use crate::paths::{join, spec_join};

verus! {

/// The package manager of a Node.js workspace.
#[derive(Clone, Copy, Debug, PartialEq, Eq, Structural)]
pub enum NodePackageManager {
    Npm,
    Pnpm,
    Yarn,
}

/// A tool that pins the Node.js version in a file at the root.
#[derive(Clone, Copy, Debug, PartialEq, Eq, Structural)]
pub enum NodeVersionManager {
    Nodenv,
    Nvm,
}

impl NodeVersionManager {
    /// The file the version is written to.
    pub fn get_config_filename(&self) -> (r: String)
        ensures
            r@ == match *self {
                NodeVersionManager::Nodenv => ".node-version"@,
                NodeVersionManager::Nvm => ".nvmrc"@,
            },
    {
        match self {
            NodeVersionManager::Nodenv => ".node-version".to_owned(),
            NodeVersionManager::Nvm => ".nvmrc".to_owned(),
        }
    }
}

/// The file of a version manager.
pub open spec fn spec_version_file_name(m: NodeVersionManager) -> Seq<char> {
    match m {
        NodeVersionManager::Nodenv => ".node-version"@,
        NodeVersionManager::Nvm => ".nvmrc"@,
    }
}

/// The version file to write when a version manager is synced: its path
/// in the workspace root, and the Node.js version as its contents.
pub fn version_file(cfg: &NodeDepsConfig, workspace_root: &str) -> (r: Option<(String, String)>)
    ensures
        match cfg.sync_version_manager_config {
            None => r is None,
            Some(m) => r matches Some(p) && p.0@ == spec_join(workspace_root@, spec_version_file_name(m))
                && p.1@ == cfg.version@,
        },
{
    match &cfg.sync_version_manager_config {
        None => None,
        Some(m) => {
            let name = m.get_config_filename();
            Some((join(workspace_root, name.as_str()), cfg.version.clone()))
        },
    }
}

/// The Node.js settings that installing reads.
#[derive(Clone, Debug, PartialEq, Eq)]
pub struct NodeDepsConfig {
    pub package_manager: NodePackageManager,
    pub version: String,
    pub npm_version: String,
    pub pnpm_version: Option<String>,
    pub yarn_version: Option<String>,
    pub add_engines_constraint: bool,
    pub dedupe_on_lockfile_change: bool,
    pub sync_version_manager_config: Option<NodeVersionManager>,
}

/// The `packageManager` value for the root `package.json`: the manager's
/// name, `@` and its version; none when pnpm or yarn has no settings.
pub open spec fn spec_manager_version(cfg: NodeDepsConfig) -> Option<Seq<char>> {
    match cfg.package_manager {
        NodePackageManager::Npm => Some("npm@"@ + cfg.npm_version@),
        NodePackageManager::Pnpm => match cfg.pnpm_version {
            Some(v) => Some("pnpm@"@ + v@),
            None => None,
        },
        NodePackageManager::Yarn => match cfg.yarn_version {
            Some(v) => Some("yarn@"@ + v@),
            None => None,
        },
    }
}

/// The `packageManager` value for the root `package.json`.
pub fn package_manager_version(cfg: &NodeDepsConfig) -> (r: Option<String>)
    ensures
        r.deep_view() == spec_manager_version(*cfg),
{
    match cfg.package_manager {
        NodePackageManager::Npm => Some("npm@".to_owned().concat(cfg.npm_version.as_str())),
        NodePackageManager::Pnpm => match &cfg.pnpm_version {
            Some(v) => Some("pnpm@".to_owned().concat(v.as_str())),
            None => None,
        },
        NodePackageManager::Yarn => match &cfg.yarn_version {
            Some(v) => Some("yarn@".to_owned().concat(v.as_str())),
            None => None,
        },
    }
}

/// The value to set as `packageManager`, if one is to be set: there is
/// one, it is not npm's inherited version, and Node.js knows corepack.
pub fn package_manager_to_set(cfg: &NodeDepsConfig, corepack_aware: bool) -> (r: Option<String>)
    ensures
        r.deep_view() == match spec_manager_version(*cfg) {
            Some(v) => if v != "npm@inherit"@ && corepack_aware {
                Some(v)
            } else {
                None
            },
            None => None,
        },
{
    match package_manager_version(cfg) {
        Some(v) => {
            if !str_eq(v.as_str(), "npm@inherit") && corepack_aware {
                Some(v)
            } else {
                None
            }
        },
        None => None,
    }
}

/// The `engines` constraint for the root `package.json`, if wanted: Node.js
/// at the configured version.
pub fn engines_constraint(cfg: &NodeDepsConfig) -> (r: Option<(String, String)>)
    ensures
        r.deep_view() == if cfg.add_engines_constraint {
            Some(("node"@, cfg.version@))
        } else {
            None
        },
{
    if cfg.add_engines_constraint {
        Some(("node".to_owned(), cfg.version.clone()))
    } else {
        None
    }
}

/// The name of a path's last component is `name`.
pub open spec fn spec_path_ends_with_name(path: Seq<char>, name: Seq<char>) -> bool {
    let c = spec_components(path);
    c.len() > 0 && c.last() == name
}

/// A manifest or the lockfile was touched.
pub open spec fn spec_manifests_touched(touched: Seq<Seq<char>>, lockfile: Seq<char>) -> bool {
    exists|i: int|
        0 <= i < touched.len() && (spec_path_ends_with_name(#[trigger] touched[i], "package.json"@)
            || spec_path_ends_with_name(touched[i], lockfile))
}

/// Whether a path's last component is `name`.
pub fn path_ends_with_name(path: &str, name: &str) -> (r: bool)
    ensures
        r == spec_path_ends_with_name(path@, name@),
{
    let c = crate::project::components(path);
    if c.len() == 0 {
        return false;
    }
    let n = crate::text::chars_of(name);
    crate::text::vec_eq(&c[c.len() - 1], &n)
}

/// Whether any touched file is a `package.json` or the lockfile.
pub fn has_modified_manifests(touched: &Vec<String>, lockfile: &str) -> (r: bool)
    ensures
        r == spec_manifests_touched(touched.deep_view(), lockfile@),
{
    let mut i: usize = 0;
    while i < touched.len()
        invariant
            i <= touched.len(),
            forall|k: int|
                0 <= k < i ==> !(spec_path_ends_with_name(#[trigger] touched.deep_view()[k], "package.json"@)
                    || spec_path_ends_with_name(touched.deep_view()[k], lockfile@)),
        decreases touched.len() - i,
    {
        assert(touched.deep_view()[i as int] == touched[i as int]@);
        if path_ends_with_name(touched[i].as_str(), "package.json") || path_ends_with_name(touched[i].as_str(), lockfile) {
            return true;
        }
        i = i + 1;
    }
    false
}

/// The command that installs dependencies.
pub fn install_command(pm: NodePackageManager) -> (r: &'static str)
    ensures
        r@ == match pm {
            NodePackageManager::Npm => "npm install"@,
            NodePackageManager::Pnpm => "pnpm install"@,
            NodePackageManager::Yarn => "yarn install"@,
        },
{
    match pm {
        NodePackageManager::Npm => "npm install",
        NodePackageManager::Pnpm => "pnpm install",
        NodePackageManager::Yarn => "yarn install",
    }
}

/// What installing does.
#[derive(Clone, Debug, PartialEq, Eq)]
pub enum InstallStep {
    /// Dependencies are up to date.
    UpToDate,
    /// Dependencies would be installed, but there is no connection.
    Offline,
    /// Run the install command, then dedupe when asked to.
    Install { command: String, dedupe: bool },
}

/// Installing is due when a manifest was touched, there is no lockfile
/// (or its time is unknown, zero), or the lockfile changed after the last
/// install.
pub open spec fn spec_install_due(manifests_touched: bool, lockfile_modified: u128, last_install: u128) -> bool {
    manifests_touched || lockfile_modified == 0 || lockfile_modified > last_install
}

/// Decides whether to install, given what was touched, the lockfile's
/// modification time and the last install's, in milliseconds, and whether
/// the machine is offline.
pub fn decide_install(
    cfg: &NodeDepsConfig,
    manifests_touched: bool,
    lockfile_modified: u128,
    last_install: u128,
    offline: bool,
) -> (r: InstallStep)
    ensures
        !spec_install_due(manifests_touched, lockfile_modified, last_install) ==> r == InstallStep::UpToDate,
        spec_install_due(manifests_touched, lockfile_modified, last_install) && offline ==> r == InstallStep::Offline,
        spec_install_due(manifests_touched, lockfile_modified, last_install) && !offline ==> (r matches InstallStep::Install { command, dedupe }
            && command@ == match cfg.package_manager {
                NodePackageManager::Npm => "npm install"@,
                NodePackageManager::Pnpm => "pnpm install"@,
                NodePackageManager::Yarn => "yarn install"@,
            } && dedupe == cfg.dedupe_on_lockfile_change),
{
    if manifests_touched || lockfile_modified == 0 || lockfile_modified > last_install {
        if offline {
            return InstallStep::Offline;
        }
        InstallStep::Install {
            command: install_command(cfg.package_manager).to_owned(),
            dedupe: cfg.dedupe_on_lockfile_change,
        }
    } else {
        InstallStep::UpToDate
    }
}

} // verus!
