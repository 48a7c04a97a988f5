//! Syncing a JavaScript project's workspace dependencies into its
//! `package.json`: which packages go under which section, at which version.

use vstd::prelude::*;
use vstd::string::StringExecFns;
use crate::kv::{get, kv_index, unique_keys};
use crate::ordered::{keys_sorted, represents, sorted_upsert, lemma_represents_stored};
use crate::probe::{extract_major_version, lenient_version, spec_major};
use crate::project::{relative_path, spec_relative_path, DependencyConfig, DependencyScope};
use crate::text::{chars_of, decimal_chars_u64, spec_decimal, str_eq, string_of};

verus! {

/// How the version of a workspace dependency is written.
#[derive(Clone, Copy, Debug, PartialEq, Eq, Structural)]
pub enum NodeVersionFormat {
    File,
    Link,
    Star,
    Version,
    VersionCaret,
    VersionTilde,
    Workspace,
    WorkspaceCaret,
    WorkspaceTilde,
}

pub open spec fn spec_prefix(f: NodeVersionFormat) -> Seq<char> {
    match f {
        NodeVersionFormat::File => "file:"@,
        NodeVersionFormat::Link => "link:"@,
        NodeVersionFormat::Star => "*"@,
        NodeVersionFormat::Version => ""@,
        NodeVersionFormat::VersionCaret => "^"@,
        NodeVersionFormat::VersionTilde => "~"@,
        NodeVersionFormat::Workspace => "workspace:*"@,
        NodeVersionFormat::WorkspaceCaret => "workspace:^"@,
        NodeVersionFormat::WorkspaceTilde => "workspace:~"@,
    }
}

impl NodeVersionFormat {
    /// The text a version of this format starts with.
    pub fn get_prefix(&self) -> (r: String)
        ensures
            r@ == spec_prefix(*self),
    {
        let p = match self {
            NodeVersionFormat::File => "file:",
            NodeVersionFormat::Link => "link:",
            NodeVersionFormat::Star => "*",
            NodeVersionFormat::Version => "",
            NodeVersionFormat::VersionCaret => "^",
            NodeVersionFormat::VersionTilde => "~",
            NodeVersionFormat::Workspace => "workspace:*",
            NodeVersionFormat::WorkspaceCaret => "workspace:^",
            NodeVersionFormat::WorkspaceTilde => "workspace:~",
        };
        p.to_owned()
    }
}

/// The settings of the Node.js toolchain that syncing reads.
pub struct NodeConfig {
    pub dependency_version_format: NodeVersionFormat,
    pub sync_project_workspace_dependencies: bool,
}

/// The settings of the Bun toolchain that syncing reads.
pub struct BunConfig {
    pub dependency_version_format: NodeVersionFormat,
    pub sync_project_workspace_dependencies: bool,
}

/// A project as syncing sees it: where it lives and what it depends on.
pub struct SyncProject {
    pub id: String,
    pub root: String,
    pub source: String,
    pub dependencies: Vec<DependencyConfig>,
}

/// A project lies at the workspace root.
pub open spec fn spec_root_level(source: Seq<char>) -> bool {
    source.len() == 0 || source == "."@
}

impl SyncProject {
    /// Whether the project is the workspace root itself.
    pub fn is_root_level(&self) -> (r: bool)
        ensures
            r == spec_root_level(self.source@),
    {
        self.source.unicode_len() == 0 || str_eq(self.source.as_str(), ".")
    }
}

/// The `package.json` of a project: its name and version, if given.
#[derive(Clone, Debug, PartialEq, Eq)]
pub struct PackageManifest {
    pub name: Option<String>,
    pub version: Option<String>,
}

/// A project that is depended on: where it lives and its `package.json`,
/// if it has one.
#[derive(Clone, Debug, PartialEq, Eq)]
pub struct DependencyProject {
    pub root: String,
    pub source: String,
    pub package: Option<PackageManifest>,
}

pub struct DependencyProjectView {
    pub root: Seq<char>,
    pub source: Seq<char>,
    pub package: Option<(Option<Seq<char>>, Option<Seq<char>>)>,
}

impl DeepView for DependencyProject {
    type V = DependencyProjectView;

    open spec fn deep_view(&self) -> DependencyProjectView {
        DependencyProjectView {
            root: self.root@,
            source: self.source@,
            package: match self.package {
                Some(p) => Some((p.name.deep_view(), p.version.deep_view())),
                None => None,
            },
        }
    }
}

/// What a project's `package.json` should declare: each section as
/// package name and version, sorted by name.
pub struct SyncPlan {
    pub production: Vec<(String, String)>,
    pub development: Vec<(String, String)>,
    pub peer: Vec<(String, String)>,
}

pub struct PlanView {
    pub production: Map<Seq<char>, Seq<char>>,
    pub development: Map<Seq<char>, Seq<char>>,
    pub peer: Map<Seq<char>, Seq<char>>,
}

/// The version written for a production or development dependency: by
/// path for `file:` and `link:`, by its own version for the version
/// formats, the prefix alone otherwise.
pub open spec fn spec_dependency_version(
    format: NodeVersionFormat,
    dep_root: Seq<char>,
    project_root: Seq<char>,
    version: Seq<char>,
) -> Seq<char> {
    match format {
        NodeVersionFormat::File | NodeVersionFormat::Link => spec_prefix(format) + spec_relative_path(
            dep_root,
            project_root,
        ),
        NodeVersionFormat::Version | NodeVersionFormat::VersionCaret | NodeVersionFormat::VersionTilde => spec_prefix(format)
            + version,
        _ => spec_prefix(format),
    }
}

/// The version written for a peer dependency: any version of the same
/// major line.
pub open spec fn spec_peer_version(version: Seq<char>) -> Seq<char> {
    "^"@ + spec_decimal(spec_major(lenient_version(version)) as nat) + ".0.0"@
}

pub open spec fn empty_plan() -> PlanView {
    PlanView { production: Map::empty(), development: Map::empty(), peer: Map::empty() }
}

/// The plan after the first `n` dependencies of the project.
pub open spec fn spec_plan(
    format: NodeVersionFormat,
    project_root: Seq<char>,
    deps: Seq<DependencyConfig>,
    projects: Seq<(Seq<char>, DependencyProjectView)>,
    n: nat,
) -> PlanView
    decreases n,
{
    if n == 0 {
        empty_plan()
    } else {
        let acc = spec_plan(format, project_root, deps, projects, (n - 1) as nat);
        let d = deps[n - 1];
        match get(projects, d.id@) {
            None => acc,
            Some(dp) => if spec_root_level(dp.source) || d.scope == DependencyScope::Root {
                acc
            } else {
                match dp.package {
                    Some((Some(name), version)) => {
                        let ver = match version {
                            Some(v) => v,
                            None => Seq::empty(),
                        };
                        let dv = spec_dependency_version(format, dp.root, project_root, ver);
                        match d.scope {
                            DependencyScope::Production => PlanView {
                                production: acc.production.insert(name, dv),
                                ..acc
                            },
                            DependencyScope::Development => PlanView {
                                development: acc.development.insert(name, dv),
                                ..acc
                            },
                            DependencyScope::Peer => PlanView {
                                peer: acc.peer.insert(name, spec_peer_version(ver)),
                                ..acc
                            },
                            _ => acc,
                        }
                    },
                    _ => acc,
                }
            },
        }
    }
}

/// The whole plan of a syncer: nothing when syncing is off or the project
/// is the workspace root.
pub open spec fn spec_sync(
    enabled: bool,
    format: NodeVersionFormat,
    project: SyncProject,
    projects: Seq<(Seq<char>, DependencyProjectView)>,
) -> PlanView {
    if !enabled || spec_root_level(project.source@) {
        empty_plan()
    } else {
        spec_plan(format, project.root@, project.dependencies@, projects, project.dependencies@.len())
    }
}

/// Decides what a project's `package.json` declares of the projects it
/// depends on.
pub struct JavaScriptSyncer<'app> {
    pub project: &'app SyncProject,
    pub dependency_version_format: NodeVersionFormat,
    pub sync_project_workspace_dependencies: bool,
}

impl<'app> JavaScriptSyncer<'app> {
    /// A syncer with the Bun toolchain's settings.
    pub fn for_bun(project: &'app SyncProject, bun_config: &BunConfig) -> (s: Self)
        ensures
            s.project == project,
            s.dependency_version_format == bun_config.dependency_version_format,
            s.sync_project_workspace_dependencies == bun_config.sync_project_workspace_dependencies,
    {
        JavaScriptSyncer {
            project,
            dependency_version_format: bun_config.dependency_version_format,
            sync_project_workspace_dependencies: bun_config.sync_project_workspace_dependencies,
        }
    }

    /// A syncer with the Node.js toolchain's settings.
    pub fn for_node(project: &'app SyncProject, node_config: &NodeConfig) -> (s: Self)
        ensures
            s.project == project,
            s.dependency_version_format == node_config.dependency_version_format,
            s.sync_project_workspace_dependencies == node_config.sync_project_workspace_dependencies,
    {
        JavaScriptSyncer {
            project,
            dependency_version_format: node_config.dependency_version_format,
            sync_project_workspace_dependencies: node_config.sync_project_workspace_dependencies,
        }
    }

    /// The sections of the project's `package.json`, given the projects it
    /// may depend on by identifier.
    pub fn sync(&self, dependencies: &Vec<(String, DependencyProject)>) -> (r: SyncPlan)
        requires
            unique_keys(dependencies.deep_view()),
        ensures
            keys_sorted(r.production.deep_view()),
            keys_sorted(r.development.deep_view()),
            keys_sorted(r.peer.deep_view()),
            represents(r.production.deep_view(), spec_sync(self.sync_project_workspace_dependencies, self.dependency_version_format, *self.project, dependencies.deep_view()).production),
            represents(r.development.deep_view(), spec_sync(self.sync_project_workspace_dependencies, self.dependency_version_format, *self.project, dependencies.deep_view()).development),
            represents(r.peer.deep_view(), spec_sync(self.sync_project_workspace_dependencies, self.dependency_version_format, *self.project, dependencies.deep_view()).peer),
    {
        let mut prod: Vec<(String, String)> = Vec::new();
        let mut dev: Vec<(String, String)> = Vec::new();
        let mut peer: Vec<(String, String)> = Vec::new();
        assert(prod.deep_view() =~= Seq::<(Seq<char>, Seq<char>)>::empty());
        assert(dev.deep_view() =~= Seq::<(Seq<char>, Seq<char>)>::empty());
        assert(peer.deep_view() =~= Seq::<(Seq<char>, Seq<char>)>::empty());
        if !self.sync_project_workspace_dependencies || self.project.is_root_level() {
            return SyncPlan { production: prod, development: dev, peer };
        }
        let format = self.dependency_version_format;
        let prefix = format.get_prefix();
        let project = self.project;
        let ghost pv = dependencies.deep_view();
        let mut i: usize = 0;
        while i < project.dependencies.len()
            invariant
                i <= project.dependencies.len(),
                pv == dependencies.deep_view(),
                unique_keys(pv),
                prefix@ == spec_prefix(format),
                keys_sorted(prod.deep_view()),
                keys_sorted(dev.deep_view()),
                keys_sorted(peer.deep_view()),
                represents(prod.deep_view(), spec_plan(format, project.root@, project.dependencies@, pv, i as nat).production),
                represents(dev.deep_view(), spec_plan(format, project.root@, project.dependencies@, pv, i as nat).development),
                represents(peer.deep_view(), spec_plan(format, project.root@, project.dependencies@, pv, i as nat).peer),
            decreases project.dependencies.len() - i,
        {
            let ghost acc = spec_plan(format, project.root@, project.dependencies@, pv, i as nat);
            let d = &project.dependencies[i];
            if let Some(k) = kv_index(dependencies, d.id.as_str()) {
                let dp = &dependencies[k].1;
                assert(pv[k as int].1 == dp.deep_view());
                let dep_root_level = dp.source.unicode_len() == 0 || str_eq(dp.source.as_str(), ".");
                if !dep_root_level && d.scope != DependencyScope::Root {
                    if let Some(pkg) = &dp.package {
                        if let Some(name) = &pkg.name {
                            let ver = match &pkg.version {
                                Some(v) => v.clone(),
                                None => String::new(),
                            };
                            match d.scope {
                                DependencyScope::Production => {
                                    let dv = dependency_version(format, &prefix, dp.root.as_str(), project.root.as_str(), ver.as_str());
                                    let ghost before = prod.deep_view();
                                    sorted_upsert(&mut prod, name.clone(), dv);
                                    proof {
                                        lemma_represents_stored(before, prod.deep_view(), acc.production, name@, dv@);
                                    }
                                },
                                DependencyScope::Development => {
                                    let dv = dependency_version(format, &prefix, dp.root.as_str(), project.root.as_str(), ver.as_str());
                                    let ghost before = dev.deep_view();
                                    sorted_upsert(&mut dev, name.clone(), dv);
                                    proof {
                                        lemma_represents_stored(before, dev.deep_view(), acc.development, name@, dv@);
                                    }
                                },
                                DependencyScope::Peer => {
                                    let pv2 = peer_version(ver.as_str());
                                    let ghost before = peer.deep_view();
                                    sorted_upsert(&mut peer, name.clone(), pv2);
                                    proof {
                                        lemma_represents_stored(before, peer.deep_view(), acc.peer, name@, pv2@);
                                    }
                                },
                                _ => {},
                            }
                        }
                    }
                }
            }
            i = i + 1;
        }
        SyncPlan { production: prod, development: dev, peer }
    }
}

/// The version written for a production or development dependency.
pub fn dependency_version(
    format: NodeVersionFormat,
    prefix: &String,
    dep_root: &str,
    project_root: &str,
    version: &str,
) -> (r: String)
    requires
        prefix@ == spec_prefix(format),
    ensures
        r@ == spec_dependency_version(format, dep_root@, project_root@, version@),
{
    match format {
        NodeVersionFormat::File | NodeVersionFormat::Link => {
            let rel = relative_path(dep_root, project_root);
            prefix.clone().concat(rel.as_str())
        },
        NodeVersionFormat::Version | NodeVersionFormat::VersionCaret | NodeVersionFormat::VersionTilde => {
            prefix.clone().concat(version)
        },
        _ => prefix.clone(),
    }
}

/// The version written for a peer dependency: `^` and the major number
/// of `version` (zero when it cannot be parsed), then `.0.0`.
pub fn peer_version(version: &str) -> (r: String)
    ensures
        r@ == spec_peer_version(version@),
{
    let major = extract_major_version(version);
    let mut out = chars_of("^");
    let digits = decimal_chars_u64(major);
    let tail = chars_of(".0.0");
    let mut i: usize = 0;
    let ghost start = out@;
    while i < digits.len()
        invariant
            i <= digits.len(),
            out@ == start + digits@.take(i as int),
        decreases digits.len() - i,
    {
        out.push(digits[i]);
        assert(digits@.take(i + 1) =~= digits@.take(i as int).push(digits@[i as int]));
        i = i + 1;
    }
    let ghost mid = out@;
    let mut j: usize = 0;
    while j < tail.len()
        invariant
            j <= tail.len(),
            out@ == mid + tail@.take(j as int),
        decreases tail.len() - j,
    {
        out.push(tail[j]);
        assert(tail@.take(j + 1) =~= tail@.take(j as int).push(tail@[j as int]));
        j = j + 1;
    }
    assert(digits@.take(i as int) =~= digits@);
    assert(tail@.take(j as int) =~= tail@);
    assert(out@ =~= "^"@ + digits@ + ".0.0"@);
    string_of(&out)
}

/// Whether the plan asks for any change of `package.json`, that is whether
/// the file is to be synced at all. Whether syncing then changes the file
/// depends on what it already holds (a dependency already at the planned
/// version is left as it is), which is read and written outside the
/// library; this result does not say that.
pub fn has_changes(plan: &SyncPlan) -> (r: bool)
    ensures
        r == (plan.production.len() > 0 || plan.development.len() > 0 || plan.peer.len() > 0),
{
    plan.production.len() > 0 || plan.development.len() > 0 || plan.peer.len() > 0
}

} // verus!
