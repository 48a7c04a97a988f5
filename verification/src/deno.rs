//! The Deno platform: which runtime a project uses, what `deno install`
//! is run with for each binary, and the environment of a task's command.

use vstd::prelude::*;
use crate::kv::{kv_upsert, unique_keys, upsert};
use crate::turbo::PlatformType;
use crate::ordered::{keys_sorted, lemma_represents_stored, represents, sorted_upsert};

verus! {

/// Which version of a tool is required: the one on the system, or one of
/// the toolchain.
#[derive(Clone, Debug, PartialEq, Eq)]
pub enum RuntimeReq {
    Global,
    Toolchain(String),
}

pub enum RuntimeReqView {
    Global,
    Toolchain(Seq<char>),
}

impl View for RuntimeReq {
    type V = RuntimeReqView;

    open spec fn view(&self) -> RuntimeReqView {
        match self {
            RuntimeReq::Global => RuntimeReqView::Global,
            RuntimeReq::Toolchain(v) => RuntimeReqView::Toolchain(v@),
        }
    }
}

/// A platform and the version it requires; overridden when a project's
/// own setting chose the version.
#[derive(Clone, Debug, PartialEq, Eq)]
pub struct Runtime {
    pub platform: PlatformType,
    pub requirement: RuntimeReq,
    pub overridden: bool,
}

/// A binary to install: by name, or with settings.
#[derive(Clone, Debug, PartialEq, Eq)]
pub enum BinEntry {
    Name(String),
    Config(BinConfig),
}

/// The settings of a binary to install.
#[derive(Clone, Debug, PartialEq, Eq)]
pub struct BinConfig {
    pub bin: String,
    pub force: bool,
    pub local: bool,
    pub name: Option<String>,
}

/// The settings of the Deno toolchain.
#[derive(Clone, Debug, PartialEq, Eq)]
pub struct DenoConfig {
    pub bins: Vec<BinEntry>,
    pub deps_file: String,
    pub lockfile: bool,
    pub version: Option<String>,
}

/// The Deno platform of a workspace.
pub struct DenoPlatform {
    pub config: DenoConfig,
    pub workspace_root: String,
}

/// The runtime a project gets: its own version setting first, then the
/// workspace's, then the system's Deno.
pub open spec fn spec_runtime(project_version: Option<Seq<char>>, config_version: Option<Seq<char>>) -> (
    RuntimeReqView,
    bool,
) {
    match project_version {
        Some(v) => (RuntimeReqView::Toolchain(v), true),
        None => match config_version {
            Some(v) => (RuntimeReqView::Toolchain(v), false),
            None => (RuntimeReqView::Global, false),
        },
    }
}

/// The arguments of `deno install` for a binary, or none when the binary is
/// local only and this is a CI run.
pub open spec fn spec_install_args(bin: BinEntry, in_ci: bool) -> Option<Seq<Seq<char>>> {
    let base = seq!["install"@, "--allow-net"@, "--allow-read"@, "--no-prompt"@, "--lock"@, "deno.lock"@];
    match bin {
        BinEntry::Name(name) => Some(base.push(name@)),
        BinEntry::Config(cfg) => if cfg.local && in_ci {
            None
        } else {
            let forced = if cfg.force {
                base.push("--force"@)
            } else {
                base
            };
            let named = match cfg.name {
                Some(n) => forced.push("--name"@).push(n@),
                None => forced,
            };
            Some(named.push(cfg.bin@))
        },
    }
}

/// The environment of a task's command: the task's own, then the version of
/// Deno for proto when known, then the search path when the runtime is not
/// the system's.
pub open spec fn spec_command_env(
    task_env: Seq<(Seq<char>, Seq<char>)>,
    proto_version: Option<Seq<char>>,
    is_global: bool,
    path: Seq<char>,
) -> Seq<(Seq<char>, Seq<char>)> {
    let with_version = match proto_version {
        Some(v) => upsert(task_env, "PROTO_DENO_VERSION"@, v),
        None => task_env,
    };
    if is_global {
        with_version
    } else {
        upsert(with_version, "PATH"@, path)
    }
}

impl DenoPlatform {
    pub fn new(config: DenoConfig, workspace_root: String) -> (p: DenoPlatform)
        ensures
            p.config == config,
            p.workspace_root == workspace_root,
    {
        DenoPlatform { config, workspace_root }
    }

    /// The platform's type.
    pub fn get_type(&self) -> (r: PlatformType)
        ensures
            r == PlatformType::Deno,
    {
        PlatformType::Deno
    }

    /// The runtime a project uses, given the Deno version set in its own
    /// configuration, if any.
    pub fn get_runtime_from_config(&self, project_version: &Option<String>) -> (r: Runtime)
        ensures
            r.platform == PlatformType::Deno,
            (r.requirement@, r.overridden) == spec_runtime(project_version.deep_view(), self.config.version.deep_view()),
    {
        match project_version {
            Some(v) => Runtime { platform: PlatformType::Deno, requirement: RuntimeReq::Toolchain(v.clone()), overridden: true },
            None => match &self.config.version {
                Some(v) => Runtime {
                    platform: PlatformType::Deno,
                    requirement: RuntimeReq::Toolchain(v.clone()),
                    overridden: false,
                },
                None => Runtime { platform: PlatformType::Deno, requirement: RuntimeReq::Global, overridden: false },
            },
        }
    }

    /// Whether this platform handles a task of `platform` or of a runtime.
    pub fn matches(&self, platform: &PlatformType, runtime: Option<&Runtime>) -> (r: bool)
        ensures
            r == (*platform == PlatformType::Deno || (runtime.is_some() && runtime.unwrap().platform
                == PlatformType::Deno)),
    {
        if *platform == PlatformType::Deno {
            return true;
        }
        if let Some(rt) = runtime {
            return rt.platform == PlatformType::Deno;
        }
        false
    }

    /// The toolchain is enabled when a version is configured.
    pub fn is_toolchain_enabled(&self) -> (r: bool)
        ensures
            r == self.config.version.is_some(),
    {
        self.config.version.is_some()
    }

    /// The lockfile and the dependencies file of a Deno project.
    pub fn get_dependency_configs(&self) -> (r: Option<(String, String)>)
        ensures
            r is Some,
            r.unwrap().0@ == "deno.lock"@,
            r.unwrap().1@ == self.config.deps_file@,
    {
        Some(("deno.lock".to_owned(), self.config.deps_file.clone()))
    }

    /// Whether dependencies are cached (`deno cache`) on install.
    pub fn caches_dependencies(&self) -> (r: bool)
        ensures
            r == self.config.lockfile,
    {
        self.config.lockfile
    }

    /// The `deno install` argument lists for the configured binaries, in
    /// order, without those skipped in CI.
    pub fn install_commands(&self, in_ci: bool) -> (r: Vec<Vec<String>>)
        ensures
            r.deep_view() == install_lists(self.config.bins@, in_ci),
    {
        let mut out: Vec<Vec<String>> = Vec::new();
        let mut i: usize = 0;
        assert(out.deep_view() =~= install_lists(self.config.bins@.take(0), in_ci));
        while i < self.config.bins.len()
            invariant
                i <= self.config.bins.len(),
                out.deep_view() =~= install_lists(self.config.bins@.take(i as int), in_ci),
            decreases self.config.bins.len() - i,
        {
            let ghost before = out.deep_view();
            assert(self.config.bins@.take(i + 1).drop_last() =~= self.config.bins@.take(i as int));
            match install_args(&self.config.bins[i], in_ci) {
                Some(args) => {
                    out.push(args);
                    assert(out.deep_view() =~= before.push(spec_install_args(self.config.bins@[i as int], in_ci).unwrap()));
                },
                None => {},
            }
            i = i + 1;
        }
        assert(self.config.bins@.take(i as int) =~= self.config.bins@);
        out
    }
}

/// The argument lists of the bins that are installed, in order.
pub open spec fn install_lists(bins: Seq<BinEntry>, in_ci: bool) -> Seq<Seq<Seq<char>>>
    decreases bins.len(),
{
    if bins.len() == 0 {
        Seq::empty()
    } else {
        let acc = install_lists(bins.drop_last(), in_ci);
        match spec_install_args(bins.last(), in_ci) {
            Some(a) => acc.push(a),
            None => acc,
        }
    }
}

/// The arguments of `deno install` for a binary.
pub fn install_args(bin: &BinEntry, in_ci: bool) -> (r: Option<Vec<String>>)
    ensures
        r.deep_view() == spec_install_args(*bin, in_ci),
{
    let mut args: Vec<String> = Vec::new();
    args.push("install".to_owned());
    args.push("--allow-net".to_owned());
    args.push("--allow-read".to_owned());
    args.push("--no-prompt".to_owned());
    args.push("--lock".to_owned());
    args.push("deno.lock".to_owned());
    let ghost base = seq!["install"@, "--allow-net"@, "--allow-read"@, "--no-prompt"@, "--lock"@, "deno.lock"@];
    assert(args.deep_view() =~= base);
    match bin {
        BinEntry::Name(name) => {
            args.push(name.clone());
            assert(args.deep_view() =~= base.push(name@));
            Some(args)
        },
        BinEntry::Config(cfg) => {
            if cfg.local && in_ci {
                return None;
            }
            if cfg.force {
                let ghost before = args.deep_view();
                args.push("--force".to_owned());
                assert(args.deep_view() =~= before.push("--force"@));
            }
            if let Some(n) = &cfg.name {
                let ghost before = args.deep_view();
                args.push("--name".to_owned());
                args.push(n.clone());
                assert(args.deep_view() =~= before.push("--name"@).push(n@));
            }
            let ghost before = args.deep_view();
            args.push(cfg.bin.clone());
            assert(args.deep_view() =~= before.push(cfg.bin@));
            Some(args)
        },
    }
}

/// The environment of a task's command.
pub fn command_env(
    task_env: &Vec<(String, String)>,
    proto_version: Option<String>,
    requirement: &RuntimeReq,
    path: String,
) -> (r: Vec<(String, String)>)
    requires
        unique_keys(task_env.deep_view()),
    ensures
        r.deep_view() == spec_command_env(
            task_env.deep_view(),
            proto_version.deep_view(),
            requirement@ is Global,
            path@,
        ),
        unique_keys(r.deep_view()),
{
    let mut env: Vec<(String, String)> = Vec::new();
    let mut i: usize = 0;
    while i < task_env.len()
        invariant
            i <= task_env.len(),
            env.deep_view() =~= task_env.deep_view().take(i as int),
        decreases task_env.len() - i,
    {
        let ghost before = env.deep_view();
        env.push((task_env[i].0.clone(), task_env[i].1.clone()));
        assert(env.deep_view() =~= before.push(task_env.deep_view()[i as int]));
        i = i + 1;
    }
    assert(task_env.deep_view().take(i as int) =~= task_env.deep_view());
    if let Some(v) = proto_version {
        kv_upsert(&mut env, "PROTO_DENO_VERSION".to_owned(), v);
    }
    match requirement {
        RuntimeReq::Global => {},
        RuntimeReq::Toolchain(_) => {
            kv_upsert(&mut env, "PATH".to_owned(), path);
        },
    }
    env
}

impl DenoPlatform {
    /// The requirement the toolchain is set up with: the configured
    /// version, else the system's Deno.
    pub fn setup_requirement(&self) -> (r: RuntimeReq)
        ensures
            r@ == match self.config.version {
                Some(v) => RuntimeReqView::Toolchain(v@),
                None => RuntimeReqView::Global,
            },
    {
        match &self.config.version {
            Some(v) => RuntimeReq::Toolchain(v.clone()),
            None => RuntimeReq::Global,
        }
    }
}

/// The dependencies that go into the hash of a Deno project's manifest, by
/// name: the manifest's imports, then those of its import map, then the
/// dependencies file with the hash of its contents; a later entry of the
/// same name wins.
pub open spec fn spec_manifest_deps(entries: Seq<(Seq<char>, Seq<char>)>, n: nat) -> Map<Seq<char>, Seq<char>>
    decreases n,
{
    if n == 0 {
        Map::empty()
    } else {
        spec_manifest_deps(entries, (n - 1) as nat).insert(entries[n - 1].0, entries[n - 1].1)
    }
}

pub open spec fn manifest_entries(
    imports: Option<Vec<(String, String)>>,
    map_imports: Option<Vec<(String, String)>>,
    deps_file: Option<(String, String)>,
) -> Seq<(Seq<char>, Seq<char>)> {
    let a = match imports {
        Some(v) => v.deep_view(),
        None => Seq::empty(),
    };
    let b = match map_imports {
        Some(v) => v.deep_view(),
        None => Seq::empty(),
    };
    let c = match deps_file {
        Some(f) => seq![(f.0@, f.1@)],
        None => Seq::empty(),
    };
    a + b + c
}

fn add_entries(deps: &mut Vec<(String, String)>, entries: &Vec<(String, String)>, Ghost(prefix): Ghost<Seq<(Seq<char>, Seq<char>)>>)
    requires
        keys_sorted(old(deps).deep_view()),
        represents(old(deps).deep_view(), spec_manifest_deps(prefix, prefix.len())),
    ensures
        keys_sorted(final(deps).deep_view()),
        represents(
            final(deps).deep_view(),
            spec_manifest_deps(prefix + entries.deep_view(), (prefix.len() + entries.deep_view().len()) as nat),
        ),
{
    let ghost ev = entries.deep_view();
    assert(prefix + ev.take(0) =~= prefix);
    let mut i: usize = 0;
    while i < entries.len()
        invariant
            i <= entries.len(),
            ev == entries.deep_view(),
            keys_sorted(deps.deep_view()),
            represents(deps.deep_view(), spec_manifest_deps(prefix + ev.take(i as int), (prefix.len() + i) as nat)),
        decreases entries.len() - i,
    {
        let ghost before = deps.deep_view();
        let ghost cur = spec_manifest_deps(prefix + ev.take(i as int), (prefix.len() + i) as nat);
        let ghost e = ev[i as int];
        assert(e == (entries[i as int].0@, entries[i as int].1@));
        sorted_upsert(deps, entries[i].0.clone(), entries[i].1.clone());
        proof {
            lemma_represents_stored(before, deps.deep_view(), cur, e.0, e.1);
            let s1 = prefix + ev.take(i + 1);
            let n = (prefix.len() + i) as nat;
            assert(s1.take(n as int) =~= prefix + ev.take(i as int));
            lemma_manifest_prefix(s1, n);
            assert(s1[n as int] == e);
            assert(spec_manifest_deps(s1, n + 1) == spec_manifest_deps(s1, n).insert(e.0, e.1));
        }
        i = i + 1;
    }
    assert(ev.take(i as int) =~= ev);
}

proof fn lemma_manifest_prefix(s: Seq<(Seq<char>, Seq<char>)>, n: nat)
    requires
        n <= s.len(),
    ensures
        spec_manifest_deps(s, n) == spec_manifest_deps(s.take(n as int), n),
    decreases n,
{
    if n > 0 {
        lemma_manifest_prefix(s, (n - 1) as nat);
        lemma_manifest_prefix(s.take(n as int), (n - 1) as nat);
        assert(s.take(n as int).take(n - 1) =~= s.take(n - 1));
    }
}

/// The dependencies hashed for a Deno project's manifest, in order of
/// name.
pub fn manifest_deps(
    imports: &Option<Vec<(String, String)>>,
    map_imports: &Option<Vec<(String, String)>>,
    deps_file: &Option<(String, String)>,
) -> (r: Vec<(String, String)>)
    ensures
        keys_sorted(r.deep_view()),
        represents(
            r.deep_view(),
            spec_manifest_deps(
                manifest_entries(*imports, *map_imports, *deps_file),
                manifest_entries(*imports, *map_imports, *deps_file).len(),
            ),
        ),
{
    let mut deps: Vec<(String, String)> = Vec::new();
    let ghost empty = Seq::<(Seq<char>, Seq<char>)>::empty();
    proof {
        assert(deps.deep_view() =~= empty);
        assert forall|key: Seq<char>| #[trigger] crate::kv::get(deps.deep_view(), key) == if Map::<Seq<char>, Seq<char>>::empty().dom().contains(key) {
            Some(Map::<Seq<char>, Seq<char>>::empty()[key])
        } else {
            None
        } by {
            assert(!crate::kv::has_key(deps.deep_view(), key));
        }
    }
    let none: Vec<(String, String)> = Vec::new();
    let a = match imports {
        Some(v) => v,
        None => &none,
    };
    let b = match map_imports {
        Some(v) => v,
        None => &none,
    };
    let mut c: Vec<(String, String)> = Vec::new();
    if let Some(f) = deps_file {
        c.push((f.0.clone(), f.1.clone()));
    }
    assert(a.deep_view() == match *imports {
        Some(v) => v.deep_view(),
        None => Seq::<(Seq<char>, Seq<char>)>::empty(),
    });
    let ghost e1 = a.deep_view();
    let ghost e2 = e1 + b.deep_view();
    proof {
        assert(spec_manifest_deps(empty, 0) == Map::<Seq<char>, Seq<char>>::empty());
    }
    add_entries(&mut deps, a, Ghost(empty));
    assert(empty + a.deep_view() =~= e1);
    add_entries(&mut deps, b, Ghost(e1));
    add_entries(&mut deps, &c, Ghost(e2));
    assert(e2 + c.deep_view() =~= manifest_entries(*imports, *map_imports, *deps_file));
    deps
}

} // verus!
