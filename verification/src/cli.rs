//! Start up of the command line: whether this binary was installed
//! globally, where the workspace root is, and what is run in its place.

use vstd::prelude::*;
use crate::moonbase::Moonbase;
use crate::paths::{join, spec_join};
use crate::platform::{get_global_lookups, spec_global_lookups, TargetOs};
use crate::project::{join_part_list, join_parts, path_starts_with, spec_components, spec_path_starts_with, spec_rooted};
use crate::text::{chars_of, seq_ends_with, str_ends_with, views};
use vstd::string::StringExecFns;

verus! {

/// The name of the command line's binary.
pub open spec fn spec_bin_name() -> Seq<char> {
    "moon"@
}

/// Installed globally: the executable lies inside one of the folders where
/// package managers keep global installs (under the home folder, `.` when
/// it is unknown); never when the executable is unknown.
pub open spec fn spec_globally_installed(exe: Option<Seq<char>>, home: Option<Seq<char>>, os: TargetOs) -> bool {
    match exe {
        None => false,
        Some(e) => spec_inside_any(e, spec_global_lookups(home_or_dot(home), os)),
    }
}

pub open spec fn home_or_dot(home: Option<Seq<char>>) -> Seq<char> {
    match home {
        Some(h) => h,
        None => "."@,
    }
}

/// `path` lies inside one of `dirs`.
pub open spec fn spec_inside_any(path: Seq<char>, dirs: Seq<Seq<char>>) -> bool {
    exists|i: int| 0 <= i < dirs.len() && spec_path_starts_with(path, #[trigger] dirs[i])
}

/// Whether this binary was installed globally, given its path and the
/// home folder.
pub fn is_globally_installed(exe_path: &Option<String>, home_dir: &Option<String>, os: TargetOs) -> (r: bool)
    ensures
        r == spec_globally_installed(exe_path.deep_view(), home_dir.deep_view(), os),
{
    let exe = match exe_path {
        Some(e) => e,
        None => {
            return false;
        },
    };
    let home = match home_dir {
        Some(h) => h.clone(),
        None => ".".to_owned(),
    };
    proof {
        reveal_strlit(".");
    }
    let lookups = get_global_lookups(home.as_str(), os);
    let ghost lv = lookups.deep_view();
    let mut i: usize = 0;
    while i < lookups.len()
        invariant
            i <= lookups.len(),
            lv == lookups.deep_view(),
            lv == spec_global_lookups(home@, os),
            home@ == home_or_dot(home_dir.deep_view()),
            exe_path.deep_view() == Some(exe@),
            forall|k: int| 0 <= k < i ==> !spec_path_starts_with(exe@, #[trigger] lv[k]),
        decreases lookups.len() - i,
    {
        assert(lv[i as int] == lookups[i as int]@);
        if path_starts_with(exe.as_str(), lookups[i].as_str()) {
            assert(spec_path_starts_with(exe@, lv[i as int]));
            return true;
        }
        i = i + 1;
    }
    false
}

/// The path made of the first `k` components of `dir`, rooted as `dir` is.
pub open spec fn spec_prefix_path(dir: Seq<char>, k: int) -> Seq<char> {
    let c = spec_components(dir);
    if spec_rooted(dir) {
        "/"@ + join_parts(c.take(k))
    } else {
        join_parts(c.take(k))
    }
}

/// A folder and then each of its parents, nearest first.
pub open spec fn spec_ancestors(dir: Seq<char>) -> Seq<Seq<char>> {
    let n = spec_components(dir).len() as int;
    seq![dir] + Seq::new(n as nat, |i: int| spec_prefix_path(dir, n - 1 - i))
}

/// A folder and then each of its parents, nearest first.
pub fn ancestors(dir: &str) -> (r: Vec<String>)
    ensures
        r.deep_view() == spec_ancestors(dir@),
{
    let comps = crate::project::components(dir);
    let ghost cv = views(comps@);
    let dc = chars_of(dir);
    let rooted = dc.len() > 0 && dc[0] == '/';
    let n = comps.len();
    let ghost nn = n as int;
    let mut out: Vec<String> = Vec::new();
    out.push(dir.to_owned());
    let ghost tail = Seq::new(n as nat, |i: int| spec_prefix_path(dir@, nn - 1 - i));
    let mut i: usize = 0;
    while i < n
        invariant
            i <= n,
            n == comps.len(),
            nn == n,
            cv == views(comps@),
            cv == spec_components(dir@),
            rooted == spec_rooted(dir@),
            tail == Seq::new(n as nat, |i: int| spec_prefix_path(dir@, nn - 1 - i)),
            out.deep_view() =~= seq![dir@] + tail.take(i as int),
        decreases n - i,
    {
        let k = n - 1 - i;
        let mut parts: Vec<Vec<char>> = Vec::new();
        let mut j: usize = 0;
        while j < k
            invariant
                j <= k,
                k < comps.len(),
                cv == views(comps@),
                views(parts@) =~= cv.take(j as int),
            decreases k - j,
        {
            let ghost before = views(parts@);
            parts.push(comps[j].clone());
            assert(views(parts@) =~= before.push(cv[j as int]));
            assert(cv.take(j + 1) =~= cv.take(j as int).push(cv[j as int]));
            j = j + 1;
        }
        let joined = join_part_list(&parts);
        let p = if rooted {
            "/".to_owned().concat(joined.as_str())
        } else {
            joined
        };
        let ghost before = out.deep_view();
        out.push(p);
        assert(tail[i as int] == spec_prefix_path(dir@, k as int));
        assert(out.deep_view() =~= before.push(tail[i as int]));
        assert(tail.take(i + 1) =~= tail.take(i as int).push(tail[i as int]));
        i = i + 1;
    }
    assert(tail.take(i as int) =~= tail);
    out
}

/// The nearest of a folder and its parents that holds the workspace
/// configuration, given for each of them (in the order of `ancestors`)
/// whether it does.
pub fn find_workspace_root(dir: &str, config_exists: &Vec<bool>) -> (r: Option<String>)
    requires
        config_exists.len() == spec_ancestors(dir@).len(),
    ensures
        match r {
            Some(p) => exists|i: int|
                0 <= i < config_exists.len() && config_exists[i] && (forall|j: int| 0 <= j < i ==> !config_exists[j])
                    && p@ == spec_ancestors(dir@)[i],
            None => forall|i: int| 0 <= i < config_exists.len() ==> !config_exists[i],
        },
{
    let cands = ancestors(dir);
    let mut i: usize = 0;
    while i < cands.len()
        invariant
            i <= cands.len(),
            cands.len() == config_exists.len(),
            cands.deep_view() == spec_ancestors(dir@),
            forall|j: int| 0 <= j < i ==> !config_exists[j],
        decreases cands.len() - i,
    {
        if config_exists[i] {
            assert(cands.deep_view()[i as int] == cands[i as int]@);
            return Some(cands[i].clone());
        }
        i = i + 1;
    }
    None
}

/// The binary of the workspace's own build, run in place of a global one.
pub fn workspace_binary_path(workspace_root: &str) -> (r: String)
    ensures
        r@ == spec_join(spec_join(workspace_root@, "target/debug"@), spec_bin_name()),
{
    let dir = join(workspace_root, "target/debug");
    join(dir.as_str(), "moon")
}

/// The arguments handed to the binary run in place of this one: all of
/// this process's, but the first when it is this binary's path.
pub fn forwarded_args(args: &Vec<String>) -> (r: Vec<String>)
    ensures
        r.deep_view() == if args.len() > 0 && seq_ends_with(args[0]@, spec_bin_name()) {
            args.deep_view().skip(1)
        } else {
            args.deep_view()
        },
{
    let mut out: Vec<String> = Vec::new();
    let mut i: usize = 0;
    let skip_first = args.len() > 0 && str_ends_with(args[0].as_str(), "moon");
    let start: usize = if skip_first {
        1
    } else {
        0
    };
    i = start;
    while i < args.len()
        invariant
            start <= i <= args.len(),
            out.deep_view() =~= args.deep_view().subrange(start as int, i as int),
        decreases args.len() - i,
    {
        let ghost before = out.deep_view();
        out.push(args[i].clone());
        assert(out.deep_view() =~= before.push(args.deep_view()[i as int]));
        i = i + 1;
    }
    assert(args.deep_view().subrange(start as int, i as int) =~= if skip_first {
        args.deep_view().skip(1)
    } else {
        args.deep_view()
    });
    out
}

/// What setting up does: set up Node.js at its configured version, and
/// install its dependencies unless under test.
#[derive(Clone, Debug, PartialEq, Eq)]
pub struct SetupPlan {
    pub node_version: Option<String>,
    pub install_deps: bool,
}

/// The setup of a workspace with a Node.js version, if configured.
pub fn setup_plan(node_version: &Option<String>, test_env: bool) -> (r: SetupPlan)
    ensures
        r.node_version.deep_view() == node_version.deep_view(),
        r.install_deps == (node_version.is_some() && !test_env),
{
    let v = match node_version {
        Some(v) => Some(v.clone()),
        None => None,
    };
    SetupPlan { node_version: v, install_deps: node_version.is_some() && !test_env }
}

/// How an action pipeline ended.
#[derive(Clone, Copy, Debug, PartialEq, Eq, Structural)]
pub enum ActionPipelineStatus {
    Aborted,
    Completed,
    Interrupted,
    Terminated,
}

/// An event of the pipeline, as the moonbase subscriber tells them apart.
#[derive(Clone, Copy, Debug, PartialEq, Eq, Structural)]
pub enum PipelineEvent {
    PipelineCompleted(ActionPipelineStatus),
    Other,
}

/// Waits for moonbase's requests when a pipeline has completed.
pub struct MoonbaseSubscriber {
    pub session: Moonbase,
}

impl MoonbaseSubscriber {
    pub fn new(session: Moonbase) -> (s: MoonbaseSubscriber)
        ensures
            s.session == session,
    {
        MoonbaseSubscriber { session }
    }

    /// Whether an event makes the subscriber wait for the requests in
    /// flight: only a pipeline that completed does.
    pub fn waits_on(&self, event: &PipelineEvent) -> (r: bool)
        ensures
            r == (*event == PipelineEvent::PipelineCompleted(ActionPipelineStatus::Completed)),
    {
        match event {
            PipelineEvent::PipelineCompleted(ActionPipelineStatus::Completed) => true,
            _ => false,
        }
    }
}

} // verus!
