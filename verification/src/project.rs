//! Projects: their dependencies, which inherited tasks they take, whether
//! touched files affect them, and whether they match a query.

use vstd::prelude::*;
use crate::kv::{get, has_key, kv_index, kv_upsert, unique_keys, upsert};
use crate::ordered::{keys_sorted, lemma_represents_stored, lemma_sorted_unique, represents, sorted_upsert};
use crate::paths::spec_join;
use crate::text::{chars_of, split_chars, spec_split, str_eq, vec_eq, views};

verus! {

/// How a project depends on another.
#[derive(Clone, Copy, Debug, PartialEq, Eq, Structural)]
pub enum DependencyScope {
    Build,
    Development,
    Peer,
    Production,
    Root,
}

/// Where a dependency comes from.
#[derive(Clone, Copy, Debug, PartialEq, Eq, Structural)]
pub enum ProjectDependencySource {
    Explicit,
    Implicit,
}

/// A dependency as configured in full.
#[derive(Clone, Debug, PartialEq, Eq)]
pub struct DependencyConfig {
    pub id: String,
    pub scope: DependencyScope,
    pub via: Option<String>,
}

/// A dependency as configured: an identifier, or all settings.
#[derive(Clone, Debug, PartialEq, Eq)]
pub enum ProjectDependsOn {
    String(String),
    Object(DependencyConfig),
}

/// A dependency of a project.
#[derive(Clone, Debug, PartialEq, Eq)]
pub struct ProjectDependency {
    pub id: String,
    pub scope: DependencyScope,
    pub source: ProjectDependencySource,
    pub via: Option<String>,
}

pub struct DependencyView {
    pub id: Seq<char>,
    pub scope: DependencyScope,
    pub source: ProjectDependencySource,
    pub via: Option<Seq<char>>,
}

impl DeepView for ProjectDependency {
    type V = DependencyView;

    open spec fn deep_view(&self) -> DependencyView {
        DependencyView { id: self.id@, scope: self.scope, source: self.source, via: self.via.deep_view() }
    }
}

impl ProjectDependency {
    /// The explicit dependency of a configuration.
    pub fn from_config(config: &DependencyConfig) -> (d: ProjectDependency)
        ensures
            d.deep_view() == (DependencyView {
                id: config.id@,
                scope: config.scope,
                source: ProjectDependencySource::Explicit,
                via: config.via.deep_view(),
            }),
    {
        ProjectDependency { id: config.id.clone(), scope: config.scope, source: ProjectDependencySource::Explicit, via: config.via.clone() }
    }
}

/// The dependency a setting describes.
pub open spec fn spec_dependency(d: ProjectDependsOn) -> DependencyView {
    match d {
        ProjectDependsOn::String(id) => DependencyView {
            id: id@,
            scope: DependencyScope::Production,
            source: ProjectDependencySource::Explicit,
            via: None,
        },
        ProjectDependsOn::Object(cfg) => DependencyView {
            id: cfg.id@,
            scope: cfg.scope,
            source: ProjectDependencySource::Explicit,
            via: cfg.via.deep_view(),
        },
    }
}

/// The dependencies of the first `n` settings, by identifier; a later
/// setting of an identifier replaces an earlier one.
pub open spec fn spec_dependencies(list: Seq<ProjectDependsOn>, n: nat) -> Seq<(Seq<char>, DependencyView)>
    decreases n,
{
    if n == 0 {
        Seq::empty()
    } else {
        let d = spec_dependency(list[n - 1]);
        upsert(spec_dependencies(list, (n - 1) as nat), d.id, d)
    }
}

/// The dependencies of a project from its `dependsOn` setting.
pub fn create_dependencies_from_config(depends_on: &Vec<ProjectDependsOn>) -> (r: Vec<(String, ProjectDependency)>)
    ensures
        r.deep_view() == spec_dependencies(depends_on@, depends_on@.len()),
        unique_keys(r.deep_view()),
{
    let mut deps: Vec<(String, ProjectDependency)> = Vec::new();
    assert(deps.deep_view() =~= Seq::<(Seq<char>, DependencyView)>::empty());
    let mut i: usize = 0;
    while i < depends_on.len()
        invariant
            i <= depends_on.len(),
            unique_keys(deps.deep_view()),
            deps.deep_view() == spec_dependencies(depends_on@, i as nat),
        decreases depends_on.len() - i,
    {
        match &depends_on[i] {
            ProjectDependsOn::String(id) => {
                let dep = ProjectDependency {
                    id: id.clone(),
                    scope: DependencyScope::Production,
                    source: ProjectDependencySource::Explicit,
                    via: None,
                };
                kv_upsert(&mut deps, id.clone(), dep);
            },
            ProjectDependsOn::Object(cfg) => {
                kv_upsert(&mut deps, cfg.id.clone(), ProjectDependency::from_config(cfg));
            },
        }
        i = i + 1;
    }
    deps
}

/// Which inherited tasks a project takes: a list of ids to take (all when not
/// given, none when empty), a list to exclude, and new names.
#[derive(Clone, Debug, PartialEq, Eq)]
pub struct InheritedTasksOptions {
    pub only: Option<Vec<String>>,
    pub exclude: Option<Vec<String>>,
    pub rename: Option<Vec<(String, String)>>,
}

/// Where a task of a project comes from.
#[derive(Clone, Debug, PartialEq, Eq)]
pub struct TaskOrigin {
    /// The inherited task it starts from, if any.
    pub inherited: Option<String>,
    /// Whether the project's own configuration of it applies.
    pub local: bool,
}

pub struct TaskOriginView {
    pub inherited: Option<Seq<char>>,
    pub local: bool,
}

impl DeepView for TaskOrigin {
    type V = TaskOriginView;

    open spec fn deep_view(&self) -> TaskOriginView {
        TaskOriginView { inherited: self.inherited.deep_view(), local: self.local }
    }
}

/// The rename table built from the first `n` pairs.
pub open spec fn spec_rename_table(pairs: Seq<(Seq<char>, Seq<char>)>, n: nat) -> Seq<(Seq<char>, Seq<char>)>
    decreases n,
{
    if n == 0 {
        Seq::empty()
    } else {
        upsert(spec_rename_table(pairs, (n - 1) as nat), pairs[n - 1].0, pairs[n - 1].1)
    }
}

/// An inherited task is taken: listed (all are when no list is given),
/// and not excluded.
pub open spec fn spec_takes(id: Seq<char>, only: Option<Seq<Seq<char>>>, exclude: Option<Seq<Seq<char>>>) -> bool {
    &&& match only {
        None => true,
        Some(l) => l.contains(id),
    }
    &&& match exclude {
        None => true,
        Some(l) => !l.contains(id),
    }
}

/// The name a taken task gets.
pub open spec fn spec_task_name(id: Seq<char>, renames: Seq<(Seq<char>, Seq<char>)>) -> Seq<char> {
    match get(renames, id) {
        Some(n) => n,
        None => id,
    }
}

/// The tasks taken from the first `n` inherited tasks, by name.
pub open spec fn spec_inherited(globals: Seq<Seq<char>>, only: Option<Seq<Seq<char>>>, exclude: Option<Seq<Seq<char>>>, renames: Seq<(Seq<char>, Seq<char>)>, n: nat) -> Map<Seq<char>, TaskOriginView>
    decreases n,
{
    if n == 0 {
        Map::empty()
    } else {
        let acc = spec_inherited(globals, only, exclude, renames, (n - 1) as nat);
        let id = globals[n - 1];
        if spec_takes(id, only, exclude) {
            acc.insert(spec_task_name(id, renames), TaskOriginView { inherited: Some(id), local: false })
        } else {
            acc
        }
    }
}

/// Adding the first `n` local tasks: a task of the same name merges,
/// others are new.
pub open spec fn spec_with_locals(tasks: Map<Seq<char>, TaskOriginView>, locals: Seq<Seq<char>>, n: nat) -> Map<Seq<char>, TaskOriginView>
    decreases n,
{
    if n == 0 {
        tasks
    } else {
        let acc = spec_with_locals(tasks, locals, (n - 1) as nat);
        let id = locals[n - 1];
        if acc.dom().contains(id) {
            acc.insert(id, TaskOriginView { local: true, ..acc[id] })
        } else {
            acc.insert(id, TaskOriginView { inherited: None, local: true })
        }
    }
}

/// The tasks of a project, by name, and where each comes from.
pub open spec fn spec_task_origins(globals: Seq<Seq<char>>, locals: Seq<Seq<char>>, options: InheritedTasksOptions) -> Map<Seq<char>, TaskOriginView> {
    let renames = match options.rename {
        Some(r) => spec_rename_table(r.deep_view(), r@.len()),
        None => Seq::empty(),
    };
    let inherited = spec_inherited(globals, options.only.deep_view(), options.exclude.deep_view(), renames, globals.len());
    spec_with_locals(inherited, locals, locals.len())
}

fn list_contains(list: &Vec<String>, item: &str) -> (r: bool)
    ensures
        r == list.deep_view().contains(item@),
{
    let mut i: usize = 0;
    while i < list.len()
        invariant
            i <= list.len(),
            forall|k: int| 0 <= k < i ==> list.deep_view()[k] != item@,
        decreases list.len() - i,
    {
        assert(list.deep_view()[i as int] == list[i as int]@);
        if str_eq(list[i].as_str(), item) {
            return true;
        }
        i = i + 1;
    }
    false
}

/// Decides the tasks of a project, in the order of their names, from the
/// inherited task identifiers (in the order of the inherited
/// configuration), its own task identifiers, and its inheritance options.
pub fn create_task_origins(globals: &Vec<String>, locals: &Vec<String>, options: &InheritedTasksOptions) -> (r: Vec<(String, TaskOrigin)>)
    ensures
        keys_sorted(r.deep_view()),
        represents(r.deep_view(), spec_task_origins(globals.deep_view(), locals.deep_view(), *options)),
{
    let mut renames: Vec<(String, String)> = Vec::new();
    assert(renames.deep_view() =~= Seq::<(Seq<char>, Seq<char>)>::empty());
    if let Some(pairs) = &options.rename {
        let mut i: usize = 0;
        while i < pairs.len()
            invariant
                i <= pairs.len(),
                unique_keys(renames.deep_view()),
                renames.deep_view() == spec_rename_table(pairs.deep_view(), i as nat),
            decreases pairs.len() - i,
        {
            assert(pairs.deep_view()[i as int] == (pairs[i as int].0@, pairs[i as int].1@));
            kv_upsert(&mut renames, pairs[i].0.clone(), pairs[i].1.clone());
            i = i + 1;
        }
    }
    let ghost rv = renames.deep_view();
    let ghost gv = globals.deep_view();
    let mut tasks: Vec<(String, TaskOrigin)> = Vec::new();
    proof {
        assert(tasks.deep_view() =~= Seq::<(Seq<char>, TaskOriginView)>::empty());
        assert forall|key: Seq<char>| #[trigger] get(tasks.deep_view(), key) == if Map::<Seq<char>, TaskOriginView>::empty().dom().contains(key) {
            Some(Map::<Seq<char>, TaskOriginView>::empty()[key])
        } else {
            None
        } by {
            assert(!has_key(tasks.deep_view(), key));
        }
    }
    let mut i: usize = 0;
    while i < globals.len()
        invariant
            i <= globals.len(),
            gv == globals.deep_view(),
            rv == renames.deep_view(),
            unique_keys(rv),
            keys_sorted(tasks.deep_view()),
            represents(tasks.deep_view(), spec_inherited(gv, options.only.deep_view(), options.exclude.deep_view(), rv, i as nat)),
        decreases globals.len() - i,
    {
        let ghost acc = spec_inherited(gv, options.only.deep_view(), options.exclude.deep_view(), rv, i as nat);
        let id = &globals[i];
        assert(gv[i as int] == id@);
        let listed = match &options.only {
            None => true,
            Some(list) => list_contains(list, id.as_str()),
        };
        let excluded = match &options.exclude {
            None => false,
            Some(list) => list_contains(list, id.as_str()),
        };
        if listed && !excluded {
            let name = match kv_index(&renames, id.as_str()) {
                Some(k) => {
                    assert(rv[k as int].1 == renames[k as int].1@);
                    renames[k].1.clone()
                },
                None => id.clone(),
            };
            let ghost before = tasks.deep_view();
            let origin = TaskOrigin { inherited: Some(id.clone()), local: false };
            let ghost ov = origin.deep_view();
            sorted_upsert(&mut tasks, name, origin);
            proof {
                lemma_represents_stored(before, tasks.deep_view(), acc, spec_task_name(id@, rv), ov);
            }
        }
        i = i + 1;
    }
    let ghost inherited = spec_inherited(gv, options.only.deep_view(), options.exclude.deep_view(), rv, gv.len());
    let ghost lv = locals.deep_view();
    let mut j: usize = 0;
    while j < locals.len()
        invariant
            j <= locals.len(),
            lv == locals.deep_view(),
            keys_sorted(tasks.deep_view()),
            represents(tasks.deep_view(), spec_with_locals(inherited, lv, j as nat)),
        decreases locals.len() - j,
    {
        let ghost acc = spec_with_locals(inherited, lv, j as nat);
        let ghost before = tasks.deep_view();
        let id = &locals[j];
        assert(lv[j as int] == id@);
        proof {
            lemma_sorted_unique(before);
            assert(get(before, id@) == if acc.dom().contains(id@) {
                Some(acc[id@])
            } else {
                None
            });
        }
        match kv_index(&tasks, id.as_str()) {
            Some(k) => {
                assert(before[k as int].1 == tasks[k as int].1.deep_view());
                let origin = TaskOrigin { inherited: tasks[k].1.inherited.clone(), local: true };
                let ghost ov = origin.deep_view();
                sorted_upsert(&mut tasks, id.clone(), origin);
                proof {
                    lemma_represents_stored(before, tasks.deep_view(), acc, id@, ov);
                }
            },
            None => {
                let origin = TaskOrigin { inherited: None, local: true };
                let ghost ov = origin.deep_view();
                sorted_upsert(&mut tasks, id.clone(), origin);
                proof {
                    lemma_represents_stored(before, tasks.deep_view(), acc, id@, ov);
                }
            },
        }
        j = j + 1;
    }
    tasks
}

/// The components of a path: rooted or not, and its names without empty
/// and `.` parts.
pub open spec fn spec_components(p: Seq<char>) -> Seq<Seq<char>> {
    spec_split(p, "/"@).filter(|c: Seq<char>| c.len() > 0 && c != "."@)
}

pub open spec fn spec_rooted(p: Seq<char>) -> bool {
    p.len() > 0 && p[0] == '/'
}

/// `p` starts with `base` component by component (`Path::starts_with`).
pub open spec fn spec_path_starts_with(p: Seq<char>, base: Seq<char>) -> bool {
    let a = spec_components(p);
    let b = spec_components(base);
    spec_rooted(p) == spec_rooted(base) && b.len() <= a.len() && a.take(b.len() as int) == b
}

pub fn components(p: &str) -> (r: Vec<Vec<char>>)
    ensures
        views(r@) == spec_components(p@),
{
    let sep = chars_of("/");
    let dot = chars_of(".");
    proof {
        reveal_strlit("/");
        reveal_strlit(".");
    }
    let parts = split_chars(&chars_of(p), &sep);
    let ghost pv = views(parts@);
    let ghost keep = |c: Seq<char>| c.len() > 0 && c != "."@;
    let mut r: Vec<Vec<char>> = Vec::new();
    assert(views(r@) =~= pv.take(0).filter(keep)) by {
        reveal_with_fuel(Seq::<_>::filter, 1);
    }
    let mut i: usize = 0;
    while i < parts.len()
        invariant
            i <= parts.len(),
            pv == views(parts@),
            dot@ == "."@,
            keep == (|c: Seq<char>| c.len() > 0 && c != "."@),
            views(r@) =~= pv.take(i as int).filter(keep),
        decreases parts.len() - i,
    {
        assert(pv.take(i + 1) =~= pv.take(i as int).push(pv[i as int]));
        proof {
            pv.take(i as int).lemma_filter_push(pv[i as int], keep);
        }
        assert(pv[i as int] == parts@[i as int]@);
        if parts[i].len() > 0 && !vec_eq(&parts[i], &dot) {
            let ghost before = r@;
            r.push(parts[i].clone());
            assert(views(r@) =~= views(before).push(pv[i as int]));
        }
        i = i + 1;
    }
    assert(pv.take(i as int) =~= pv);
    r
}

/// Whether `p` starts with `base`, component by component.
pub fn path_starts_with(p: &str, base: &str) -> (r: bool)
    ensures
        r == spec_path_starts_with(p@, base@),
{
    let pc = chars_of(p);
    let bc = chars_of(base);
    let rooted_p = pc.len() > 0 && pc[0] == '/';
    let rooted_b = bc.len() > 0 && bc[0] == '/';
    if rooted_p != rooted_b {
        return false;
    }
    let a = components(p);
    let b = components(base);
    if b.len() > a.len() {
        return false;
    }
    let mut i: usize = 0;
    while i < b.len()
        invariant
            i <= b.len() <= a.len(),
            views(a@) == spec_components(p@),
            views(b@) == spec_components(base@),
            spec_rooted(p@) == spec_rooted(base@),
            forall|k: int| 0 <= k < i ==> views(a@)[k] == views(b@)[k],
        decreases b.len() - i,
    {
        if !vec_eq(&a[i], &b[i]) {
            assert(views(a@).take(b.len() as int)[i as int] != views(b@)[i as int]);
            return false;
        }
        i = i + 1;
    }
    assert(views(a@).take(b.len() as int) =~= views(b@));
    true
}

/// How many leading components two component lists share.
pub open spec fn common_len(a: Seq<Seq<char>>, b: Seq<Seq<char>>) -> nat
    decreases a.len(),
{
    if a.len() == 0 || b.len() == 0 || a[0] != b[0] {
        0
    } else {
        1 + common_len(a.drop_first(), b.drop_first())
    }
}

/// Names joined by `/`.
pub open spec fn join_parts(parts: Seq<Seq<char>>) -> Seq<char>
    decreases parts.len(),
{
    if parts.len() == 0 {
        Seq::empty()
    } else if parts.len() == 1 {
        parts[0]
    } else {
        join_parts(parts.drop_last()) + "/"@ + parts.last()
    }
}

/// The path that leads from `base` to `path`: a `..` for each component of
/// `base` past the shared ones, then the rest of `path`, joined by `/`
/// (empty for the same path). Where no such path exists (one is rooted and
/// the other not, or `base` goes up with `..` where they part), `path`
/// itself.
pub open spec fn spec_relative_path(path: Seq<char>, base: Seq<char>) -> Seq<char> {
    let a = spec_components(path);
    let b = spec_components(base);
    let c = common_len(a, b) as int;
    if spec_rooted(path) != spec_rooted(base) {
        path
    } else if c < a.len() && c < b.len() && b[c] == ".."@ {
        path
    } else {
        join_parts(Seq::new((b.len() - c) as nat, |i: int| ".."@) + a.skip(c))
    }
}

proof fn lemma_common_len(a: Seq<Seq<char>>, b: Seq<Seq<char>>, i: int)
    requires
        0 <= i <= a.len(),
        i <= b.len(),
        forall|k: int| 0 <= k < i ==> a[k] == b[k],
    ensures
        common_len(a, b) >= i,
        (i == a.len() || i == b.len() || a[i] != b[i]) ==> common_len(a, b) == i,
    decreases i,
{
    if i > 0 {
        lemma_common_len(a.drop_first(), b.drop_first(), i - 1);
    } else if a.len() > 0 && b.len() > 0 && a[0] == b[0] {
    }
}

pub fn join_part_list(parts: &Vec<Vec<char>>) -> (r: String)
    ensures
        r@ == join_parts(views(parts@)),
{
    let mut out: Vec<char> = Vec::new();
    let mut i: usize = 0;
    while i < parts.len()
        invariant
            i <= parts.len(),
            out@ == join_parts(views(parts@).take(i as int)),
        decreases parts.len() - i,
    {
        let ghost before = out@;
        assert(views(parts@).take(i + 1).drop_last() =~= views(parts@).take(i as int));
        if i > 0 {
            out.push('/');
        }
        let mut j: usize = 0;
        let ghost mid = out@;
        while j < parts[i].len()
            invariant
                j <= parts[i as int].len(),
                i < parts.len(),
                out@ == mid + parts[i as int]@.take(j as int),
            decreases parts[i as int].len() - j,
        {
            out.push(parts[i][j]);
            assert(parts[i as int]@.take(j + 1) =~= parts[i as int]@.take(j as int).push(parts[i as int]@[j as int]));
            j = j + 1;
        }
        assert(parts[i as int]@.take(j as int) =~= parts[i as int]@);
        proof {
            reveal_strlit("/");
            if i == 0 {
                assert(views(parts@).take(1) =~= seq![parts[0]@]);
                assert(out@ =~= join_parts(views(parts@).take(1)));
            } else {
                assert(out@ =~= before + "/"@ + parts[i as int]@);
            }
        }
        i = i + 1;
    }
    assert(views(parts@).take(i as int) =~= views(parts@));
    crate::text::string_of(&out)
}

/// The path that leads from `base` to `path`, as `/`-separated text.
pub fn relative_path(path: &str, base: &str) -> (r: String)
    ensures
        r@ == spec_relative_path(path@, base@),
{
    let pc = chars_of(path);
    let bc = chars_of(base);
    let rooted_p = pc.len() > 0 && pc[0] == '/';
    let rooted_b = bc.len() > 0 && bc[0] == '/';
    if rooted_p != rooted_b {
        return path.to_owned();
    }
    let a = components(path);
    let b = components(base);
    let ghost av = views(a@);
    let ghost bv = views(b@);
    let mut c: usize = 0;
    while c < a.len() && c < b.len() && vec_eq(&a[c], &b[c])
        invariant
            c <= a.len(),
            c <= b.len(),
            av == views(a@),
            bv == views(b@),
            forall|k: int| 0 <= k < c ==> av[k] == bv[k],
        decreases a.len() - c,
    {
        c = c + 1;
    }
    proof {
        lemma_common_len(av, bv, c as int);
    }
    let up = chars_of("..");
    proof {
        reveal_strlit("..");
    }
    if c < a.len() && c < b.len() && vec_eq(&b[c], &up) {
        return path.to_owned();
    }
    let mut parts: Vec<Vec<char>> = Vec::new();
    let ghost ups = Seq::new((bv.len() - c) as nat, |i: int| ".."@);
    let mut k: usize = c;
    while k < b.len()
        invariant
            c <= k <= b.len(),
            up@ == ".."@,
            views(parts@) =~= ups.take(k - c),
            ups == Seq::new((bv.len() - c) as nat, |i: int| ".."@),
            bv == views(b@),
        decreases b.len() - k,
    {
        let ghost before = views(parts@);
        parts.push(up.clone());
        assert(views(parts@) =~= before.push(".."@));
        assert(ups.take(k + 1 - c) =~= ups.take(k - c).push(".."@));
        k = k + 1;
    }
    let mut m: usize = c;
    while m < a.len()
        invariant
            c <= m <= a.len(),
            k == b.len(),
            views(parts@) =~= ups + av.subrange(c as int, m as int),
            av == views(a@),
            bv == views(b@),
            ups.len() == bv.len() - c,
        decreases a.len() - m,
    {
        let ghost before = views(parts@);
        parts.push(a[m].clone());
        assert(views(parts@) =~= before.push(av[m as int]));
        assert(av.subrange(c as int, m + 1) =~= av.subrange(c as int, m as int).push(av[m as int]));
        m = m + 1;
    }
    assert(av.subrange(c as int, m as int) =~= av.skip(c as int));
    join_part_list(&parts)
}

/// A project is affected when a touched file lies inside its source.
pub open spec fn spec_is_affected(source: Seq<char>, touched: Seq<Seq<char>>) -> bool {
    exists|i: int| 0 <= i < touched.len() && spec_path_starts_with(#[trigger] touched[i], source)
}

/// Whether any touched file lies inside the project's source folder.
pub fn is_affected(source: &str, touched_files: &Vec<String>) -> (r: bool)
    ensures
        r == spec_is_affected(source@, touched_files.deep_view()),
{
    let mut i: usize = 0;
    while i < touched_files.len()
        invariant
            i <= touched_files.len(),
            forall|k: int| 0 <= k < i ==> !spec_path_starts_with(#[trigger] touched_files.deep_view()[k], source@),
        decreases touched_files.len() - i,
    {
        assert(touched_files.deep_view()[i as int] == touched_files[i as int]@);
        if path_starts_with(touched_files[i].as_str(), source) {
            return true;
        }
        i = i + 1;
    }
    false
}

/// The root folder of a project: the workspace root itself for an empty
/// or `.` source.
pub open spec fn spec_project_root(workspace_root: Seq<char>, source: Seq<char>) -> Seq<char> {
    if source.len() == 0 || source == "."@ {
        workspace_root
    } else {
        spec_join(workspace_root, source)
    }
}

pub fn project_root(workspace_root: &str, source: &str) -> (r: String)
    ensures
        r@ == spec_project_root(workspace_root@, source@),
{
    if source.unicode_len() == 0 || str_eq(source, ".") {
        workspace_root.to_owned()
    } else {
        crate::paths::join(workspace_root, source)
    }
}

/// How the conditions of a query combine.
#[derive(Clone, Copy, Debug, PartialEq, Eq, Structural)]
pub enum LogicalOperator {
    And,
    Or,
}

/// What the matcher of a query's values gave for one field of a project
/// (`Ok` with whether it matched, or `Err` with its message).
pub enum FieldCheck {
    /// A field with one value (language, id, source, type).
    Value(Result<bool, String>),
    /// The alias: the matcher's result on it, or none when the project has
    /// no alias.
    Alias(Option<Result<bool, String>>),
    /// The tags, matched as a list.
    Tags(Result<bool, String>),
    /// A field of each task (id, platform, type): the matcher's result on
    /// each task.
    AnyTask(Vec<Result<bool, String>>),
}

pub open spec fn result_view(r: Result<bool, String>) -> Result<bool, Seq<char>> {
    match r {
        Ok(b) => Ok(b),
        Err(e) => Err(e@),
    }
}

/// Whether a field matches: a missing alias does not; a task field matches
/// when the matcher accepts some task, a task on which it fails counting
/// as not matched; otherwise the matcher's result, its error included.
pub open spec fn spec_field_result(f: FieldCheck) -> Result<bool, Seq<char>> {
    match f {
        FieldCheck::Value(r) => result_view(r),
        FieldCheck::Alias(a) => match a {
            None => Ok(false),
            Some(r) => result_view(r),
        },
        FieldCheck::Tags(r) => result_view(r),
        FieldCheck::AnyTask(v) => Ok(exists|i: int| 0 <= i < v@.len() && #[trigger] v@[i] == Ok::<bool, String>(true)),
    }
}

fn copy_result(r: &Result<bool, String>) -> (c: Result<bool, String>)
    ensures
        result_view(c) == result_view(*r),
{
    match r {
        Ok(b) => Ok(*b),
        Err(e) => Err(e.clone()),
    }
}

/// Evaluates a field of a project.
pub fn field_result(f: &FieldCheck) -> (r: Result<bool, String>)
    ensures
        result_view(r) == spec_field_result(*f),
{
    match f {
        FieldCheck::Value(r) => copy_result(r),
        FieldCheck::Alias(a) => match a {
            None => Ok(false),
            Some(r) => copy_result(r),
        },
        FieldCheck::Tags(r) => copy_result(r),
        FieldCheck::AnyTask(v) => {
            let mut i: usize = 0;
            while i < v.len()
                invariant
                    i <= v.len(),
                    *f == FieldCheck::AnyTask(*v),
                    forall|k: int| 0 <= k < i ==> v@[k] != Ok::<bool, String>(true),
                decreases v.len() - i,
            {
                match &v[i] {
                    Ok(true) => {
                        assert(v@[i as int] == Ok::<bool, String>(true));
                        return Ok(true);
                    },
                    _ => {},
                }
                i = i + 1;
            }
            Ok(false)
        },
    }
}

/// A condition of a query: a field of the project, or a nested query.
pub enum Condition {
    Field(FieldCheck),
    Nested(Criteria),
}

/// A query: conditions combined by an operator.
pub struct Criteria {
    pub op: LogicalOperator,
    pub conditions: Vec<Condition>,
}

/// Whether a query matches: with `And` every condition must hold (the
/// first that does not decides), with `Or` one must (the first that does
/// decides); an empty query does not match. An error of a condition that
/// is looked at is the result.
pub open spec fn spec_matches(c: Criteria) -> Result<bool, Seq<char>>
    decreases c, 1nat, 0nat,
{
    spec_matches_from(c, 0, false)
}

pub open spec fn spec_matches_from(c: Criteria, i: nat, matched_any: bool) -> Result<bool, Seq<char>>
    decreases c, 0nat, c.conditions@.len() - i,
{
    if i >= c.conditions@.len() {
        Ok(matched_any)
    } else {
        let cond = c.conditions@[i as int];
        let m = match cond {
            Condition::Field(f) => spec_field_result(f),
            Condition::Nested(inner) => spec_matches(inner),
        };
        match m {
            Err(e) => Err(e),
            Ok(true) => if c.op == LogicalOperator::And {
                spec_matches_from(c, i + 1, true)
            } else {
                Ok(true)
            },
            Ok(false) => if c.op == LogicalOperator::And {
                Ok(false)
            } else {
                spec_matches_from(c, i + 1, matched_any)
            },
        }
    }
}

impl Criteria {
    /// Evaluates the query.
    pub fn matches(&self) -> (r: Result<bool, String>)
        ensures
            match r {
                Ok(b) => spec_matches(*self) == Ok::<_, Seq<char>>(b),
                Err(e) => spec_matches(*self) == Err::<bool, _>(e@),
            },
        decreases *self,
    {
        let match_all = self.op == LogicalOperator::And;
        let mut matched_any = false;
        let mut i: usize = 0;
        while i < self.conditions.len()
            invariant
                i <= self.conditions.len(),
                match_all == (self.op == LogicalOperator::And),
                spec_matches(*self) == spec_matches_from(*self, i as nat, matched_any),
            decreases self.conditions.len() - i,
        {
            let m = match &self.conditions[i] {
                Condition::Field(f) => field_result(f),
                Condition::Nested(inner) => {
                    assert(decreases_to!(*self => self.conditions@[i as int]));
                    inner.matches()
                },
            };
            match m {
                Err(e) => return Err(e),
                Ok(true) => {
                    matched_any = true;
                    if !match_all {
                        return Ok(true);
                    }
                },
                Ok(false) => {
                    if match_all {
                        return Ok(false);
                    }
                },
            }
            i = i + 1;
        }
        Ok(matched_any)
    }
}

} // verus!

verus! {

/// Why a project could not be set up or asked.
#[derive(Clone, Debug, PartialEq, Eq)]
pub enum ProjectSetupError {
    /// No folder exists at the project's source.
    MissingProjectAtSource(String),
    /// The project's configuration file (of the source, first) is invalid,
    /// for the reason given (second).
    InvalidConfigFile(String, String),
    /// The task (first) is not configured in the project (second).
    UnconfiguredTask(String, String),
}

/// The settings stored under each key, with later entries replacing
/// earlier ones of the same key.
pub open spec fn spec_upsert_all<W>(start: Seq<(Seq<char>, W)>, entries: Seq<(Seq<char>, W)>, n: nat) -> Seq<(Seq<char>, W)>
    decreases n,
{
    if n == 0 {
        start
    } else {
        let acc = spec_upsert_all(start, entries, (n - 1) as nat);
        upsert(acc, entries[n - 1].0, entries[n - 1].1)
    }
}

/// The file groups of a project: the inherited ones, each replaced by the
/// project's own group of the same name, and the project's other groups.
pub fn create_file_groups_from_config(
    inherited: &Vec<(String, Vec<String>)>,
    local: &Vec<(String, Vec<String>)>,
) -> (r: Vec<(String, Vec<String>)>)
    ensures
        r.deep_view() == spec_upsert_all(
            spec_upsert_all(Seq::empty(), inherited.deep_view(), inherited@.len()),
            local.deep_view(),
            local@.len(),
        ),
        unique_keys(r.deep_view()),
{
    let mut groups: Vec<(String, Vec<String>)> = Vec::new();
    assert(groups.deep_view() =~= Seq::<(Seq<char>, Seq<Seq<char>>)>::empty());
    let mut i: usize = 0;
    while i < inherited.len()
        invariant
            i <= inherited.len(),
            unique_keys(groups.deep_view()),
            groups.deep_view() == spec_upsert_all(Seq::empty(), inherited.deep_view(), i as nat),
        decreases inherited.len() - i,
    {
        assert(inherited.deep_view()[i as int] == (inherited[i as int].0@, inherited[i as int].1.deep_view()));
        kv_upsert(&mut groups, inherited[i].0.clone(), clone_strings(&inherited[i].1));
        i = i + 1;
    }
    let ghost base = groups.deep_view();
    let mut j: usize = 0;
    while j < local.len()
        invariant
            j <= local.len(),
            unique_keys(groups.deep_view()),
            groups.deep_view() == spec_upsert_all(base, local.deep_view(), j as nat),
        decreases local.len() - j,
    {
        assert(local.deep_view()[j as int] == (local[j as int].0@, local[j as int].1.deep_view()));
        kv_upsert(&mut groups, local[j].0.clone(), clone_strings(&local[j].1));
        j = j + 1;
    }
    groups
}

/// A copy of a list of texts.
pub fn clone_strings(v: &Vec<String>) -> (r: Vec<String>)
    ensures
        r.deep_view() == v.deep_view(),
{
    let mut out: Vec<String> = Vec::new();
    let mut i: usize = 0;
    while i < v.len()
        invariant
            i <= v.len(),
            out.deep_view() =~= v.deep_view().take(i as int),
        decreases v.len() - i,
    {
        let ghost before = out.deep_view();
        out.push(v[i].clone());
        assert(out.deep_view() =~= before.push(v.deep_view()[i as int]));
        i = i + 1;
    }
    assert(v.deep_view().take(i as int) =~= v.deep_view());
    out
}

/// The task of a project with an identifier, or an error that names the
/// task and the project.
pub fn get_task<'a, V: DeepView>(tasks: &'a Vec<(String, V)>, task_id: &str, project_id: &str) -> (r: Result<&'a V, ProjectSetupError>)
    requires
        unique_keys(tasks.deep_view()),
    ensures
        match r {
            Ok(t) => get(tasks.deep_view(), task_id@) == Some(t.deep_view()),
            Err(e) => get(tasks.deep_view(), task_id@) is None && (e matches ProjectSetupError::UnconfiguredTask(
                t,
                p,
            ) && t@ == task_id@ && p@ == project_id@),
        },
{
    match kv_index(tasks, task_id) {
        Some(k) => {
            assert(tasks.deep_view()[k as int].1 == tasks[k as int].1.deep_view());
            Ok(&tasks[k].1)
        },
        None => Err(ProjectSetupError::UnconfiguredTask(task_id.to_owned(), project_id.to_owned())),
    }
}

/// The identifiers of the projects a project depends on, in order.
pub fn get_dependency_ids(dependencies: &Vec<(String, ProjectDependency)>) -> (r: Vec<String>)
    ensures
        r.deep_view() == dependencies.deep_view().map_values(|e: (Seq<char>, DependencyView)| e.0),
{
    let mut out: Vec<String> = Vec::new();
    let mut i: usize = 0;
    while i < dependencies.len()
        invariant
            i <= dependencies.len(),
            out.deep_view() =~= dependencies.deep_view().take(i as int).map_values(|e: (Seq<char>, DependencyView)| e.0),
        decreases dependencies.len() - i,
    {
        let ghost before = out.deep_view();
        out.push(dependencies[i].0.clone());
        assert(out.deep_view() =~= before.push(dependencies.deep_view()[i as int].0));
        assert(dependencies.deep_view().take(i + 1).map_values(|e: (Seq<char>, DependencyView)| e.0) =~= dependencies.deep_view().take(i as int).map_values(|e: (Seq<char>, DependencyView)| e.0).push(dependencies.deep_view()[i as int].0));
        i = i + 1;
    }
    assert(dependencies.deep_view().take(i as int) =~= dependencies.deep_view());
    out
}

/// The configuration of a project: the default when it has no
/// configuration file, else the file's, read and validated (`parsed`),
/// with a failure reported as an invalid file of the project's source.
pub fn load_project_config<C>(source: &str, file_exists: bool, default: C, parsed: Result<C, String>) -> (r: Result<
    C,
    ProjectSetupError,
>)
    ensures
        !file_exists ==> r == Ok::<C, ProjectSetupError>(default),
        file_exists ==> match parsed {
            Ok(c) => r == Ok::<C, ProjectSetupError>(c),
            Err(m) => r matches Err(ProjectSetupError::InvalidConfigFile(s, e)) && s@ == source@ && e@ == m@,
        },
{
    if !file_exists {
        return Ok(default);
    }
    match parsed {
        Ok(c) => Ok(c),
        Err(m) => Err(ProjectSetupError::InvalidConfigFile(source.to_owned(), m)),
    }
}

/// The root of a project that exists, or an error naming its source.
pub fn existing_project_root(workspace_root: &str, source: &str, root_exists: bool) -> (r: Result<String, ProjectSetupError>)
    ensures
        match r {
            Ok(root) => root_exists && root@ == spec_project_root(workspace_root@, source@),
            Err(e) => !root_exists && (e matches ProjectSetupError::MissingProjectAtSource(s) && s@ == source@),
        },
{
    if !root_exists {
        return Err(ProjectSetupError::MissingProjectAtSource(source.to_owned()));
    }
    Ok(project_root(workspace_root, source))
}

} // verus!

verus! {

/// A relative path made of plain folder and file names: each of its
/// `/`-separated parts is a non-empty name other than `.`.
pub open spec fn plain_path(p: Seq<char>) -> bool {
    forall|j: int|
        0 <= j < spec_split(p, "/"@).len() ==> (#[trigger] spec_split(p, "/"@)[j]).len() > 0 && spec_split(p, "/"@)[j]
            != "."@
}

proof fn lemma_slash_at(s: Seq<char>, k: int)
    ensures
        crate::text::occurs_at(s, "/"@, k) <==> (0 <= k < s.len() && s[k] == '/'),
{
    reveal_strlit("/");
    if 0 <= k < s.len() && s[k] == '/' {
        assert(s.subrange(k, k + 1) =~= "/"@);
    }
    if crate::text::occurs_at(s, "/"@, k) {
        assert(s.subrange(k, k + 1)[0] == "/"@[0]);
    }
}

/// Where `s` has a `/`, it has a first one.
proof fn lemma_first_slash(s: Seq<char>, k: int)
    requires
        crate::text::occurs_at(s, "/"@, k),
    ensures
        crate::text::is_first_occ(s, "/"@, crate::text::first_occ(s, "/"@)),
    decreases k,
{
    if exists|j: int| 0 <= j < k && #[trigger] crate::text::occurs_at(s, "/"@, j) {
        let j = choose|j: int| 0 <= j < k && #[trigger] crate::text::occurs_at(s, "/"@, j);
        lemma_first_slash(s, j);
    } else {
        assert(crate::text::is_first_occ(s, "/"@, k));
        crate::text::lemma_first_occ(s, "/"@, k);
    }
}

/// The first part of a split, and what follows it.
proof fn lemma_split_unfold(s: Seq<char>)
    ensures
        spec_split(s, "/"@).len() >= 1,
        !crate::text::seq_contains_seq(s, "/"@) ==> spec_split(s, "/"@) == seq![s],
        crate::text::seq_contains_seq(s, "/"@) ==> {
            let i = crate::text::first_occ(s, "/"@);
            &&& crate::text::is_first_occ(s, "/"@, i)
            &&& 0 <= i < s.len() && s[i] == '/'
            &&& spec_split(s, "/"@) == seq![s.take(i)] + spec_split(s.skip(i + 1), "/"@)
        },
{
    reveal_strlit("/");
    if crate::text::seq_contains_seq(s, "/"@) {
        let k = choose|k: int| crate::text::occurs_at(s, "/"@, k);
        lemma_first_slash(s, k);
        let i = crate::text::first_occ(s, "/"@);
        lemma_slash_at(s, i);
    }
}

/// Splitting at a `/` splits each side.
proof fn lemma_split_cat(x: Seq<char>, y: Seq<char>)
    ensures
        spec_split(x + "/"@ + y, "/"@) == spec_split(x, "/"@) + spec_split(y, "/"@),
    decreases x.len(),
{
    reveal_strlit("/");
    let s = x + "/"@ + y;
    lemma_slash_at(s, x.len() as int);
    lemma_split_unfold(s);
    lemma_split_unfold(x);
    if crate::text::seq_contains_seq(x, "/"@) {
        let i = crate::text::first_occ(x, "/"@);
        assert forall|k: int| 0 <= k < i implies !#[trigger] crate::text::occurs_at(s, "/"@, k) by {
            lemma_slash_at(s, k);
            lemma_slash_at(x, k);
        }
        lemma_slash_at(s, i);
        lemma_slash_at(x, i);
        assert(crate::text::is_first_occ(s, "/"@, i));
        crate::text::lemma_first_occ(s, "/"@, i);
        assert(s.take(i) =~= x.take(i));
        assert(s.skip(i + 1) =~= x.skip(i + 1) + "/"@ + y);
        lemma_split_cat(x.skip(i + 1), y);
        assert(spec_split(s, "/"@) =~= spec_split(x, "/"@) + spec_split(y, "/"@));
    } else {
        let n = x.len() as int;
        assert forall|k: int| 0 <= k < n implies !#[trigger] crate::text::occurs_at(s, "/"@, k) by {
            lemma_slash_at(s, k);
            lemma_slash_at(x, k);
        }
        assert(crate::text::is_first_occ(s, "/"@, n));
        crate::text::lemma_first_occ(s, "/"@, n);
        assert(s.take(n) =~= x);
        assert(s.skip(n + 1) =~= y);
    }
}

/// When the parts of `base` begin the parts of `p`, `p` is `base` or
/// continues it after a `/`.
proof fn lemma_split_prefix(p: Seq<char>, base: Seq<char>)
    requires
        spec_split(base, "/"@).len() <= spec_split(p, "/"@).len(),
        spec_split(p, "/"@).take(spec_split(base, "/"@).len() as int) == spec_split(base, "/"@),
    ensures
        p == base || crate::text::seq_starts_with(p, base + "/"@),
    decreases base.len(),
{
    reveal_strlit("/");
    lemma_split_unfold(p);
    lemma_split_unfold(base);
    let a = spec_split(p, "/"@);
    let b = spec_split(base, "/"@);
    assert(a[0] == b[0]);
    if !crate::text::seq_contains_seq(base, "/"@) {
        if crate::text::seq_contains_seq(p, "/"@) {
            let j = crate::text::first_occ(p, "/"@);
            assert(p.take(j) == base);
            assert(p.subrange(0, base.len() + 1int) =~= base + "/"@);
        }
    } else {
        let i = crate::text::first_occ(base, "/"@);
        if !crate::text::seq_contains_seq(p, "/"@) {
            assert(spec_split(base.skip(i + 1), "/"@).len() >= 1) by {
                lemma_split_unfold(base.skip(i + 1));
            }
            assert(false);
        } else {
            let j = crate::text::first_occ(p, "/"@);
            assert(p.take(j) == base.take(i));
            assert(j == i);
            let pr = p.skip(j + 1);
            let br = base.skip(i + 1);
            assert(spec_split(pr, "/"@) =~= a.skip(1));
            assert(spec_split(br, "/"@) =~= b.skip(1));
            assert(spec_split(pr, "/"@).take(spec_split(br, "/"@).len() as int) =~= spec_split(br, "/"@));
            lemma_split_prefix(pr, br);
            assert(p =~= p.take(j) + "/"@ + pr);
            assert(base =~= base.take(i) + "/"@ + br);
            if pr == br {
            } else {
                assert(pr.subrange(0, br.len() + 1int) == br + "/"@);
                assert(p.subrange(0, base.len() + 1int) =~= base.take(i) + "/"@ + pr.subrange(0, br.len() + 1int));
                assert(p.subrange(0, base.len() + 1int) =~= base + "/"@);
            }
        }
    }
}

proof fn lemma_filter_keeps_all(s: Seq<Seq<char>>)
    requires
        forall|j: int| 0 <= j < s.len() ==> (#[trigger] s[j]).len() > 0 && s[j] != "."@,
    ensures
        s.filter(|c: Seq<char>| c.len() > 0 && c != "."@) == s,
    decreases s.len(),
{
    reveal_with_fuel(Seq::<_>::filter, 1);
    if s.len() > 0 {
        lemma_filter_keeps_all(s.drop_last());
        assert(s.drop_last().push(s.last()) =~= s);
    }
}

/// A plain path's components are its parts, and it is not rooted.
proof fn lemma_plain_components(p: Seq<char>)
    requires
        plain_path(p),
    ensures
        spec_components(p) == spec_split(p, "/"@),
        !spec_rooted(p),
{
    lemma_filter_keeps_all(spec_split(p, "/"@));
    lemma_split_unfold(p);
    let a = spec_split(p, "/"@);
    assert(a[0].len() > 0);
    if p.len() > 0 && p[0] == '/' {
        lemma_slash_at(p, 0);
        assert(crate::text::seq_contains_seq(p, "/"@));
        let i = crate::text::first_occ(p, "/"@);
        if i > 0 {
            assert(!crate::text::occurs_at(p, "/"@, 0));
        }
        assert(a[0] == p.take(i));
    }
}

/// For plain relative paths, a path starts with a folder component by
/// component exactly when it is that folder or lies under it: it equals
/// the folder, or continues it after a `/`. A sibling that only shares a
/// prefix of the folder's name (`apps/web-admin` for `apps/web`) does not.
pub proof fn lemma_path_starts_with_plain(p: Seq<char>, base: Seq<char>)
    requires
        plain_path(p),
        plain_path(base),
    ensures
        spec_path_starts_with(p, base) <==> (p == base || crate::text::seq_starts_with(p, base + "/"@)),
{
    reveal_strlit("/");
    lemma_plain_components(p);
    lemma_plain_components(base);
    if spec_path_starts_with(p, base) {
        lemma_split_prefix(p, base);
    }
    if p == base {
        assert(spec_components(p).take(spec_components(p).len() as int) =~= spec_components(p));
    }
    if crate::text::seq_starts_with(p, base + "/"@) && p != base {
        let r = p.skip(base.len() + 1int);
        assert(p.subrange(0, base.len() + 1int) == base + "/"@);
        assert(p =~= base + "/"@ + r);
        lemma_split_cat(base, r);
        assert(spec_split(p, "/"@).take(spec_split(base, "/"@).len() as int) =~= spec_split(base, "/"@));
    }
}

/// A project whose source is a plain relative path is affected by plain
/// touched files exactly when one of them is its source or lies under it.
pub proof fn lemma_is_affected_plain(source: Seq<char>, touched: Seq<Seq<char>>)
    requires
        plain_path(source),
        forall|i: int| 0 <= i < touched.len() ==> plain_path(#[trigger] touched[i]),
    ensures
        spec_is_affected(source, touched) <==> exists|i: int|
            0 <= i < touched.len() && (#[trigger] touched[i] == source || crate::text::seq_starts_with(
                touched[i],
                source + "/"@,
            )),
{
    assert forall|i: int| 0 <= i < touched.len() implies (spec_path_starts_with(#[trigger] touched[i], source) <==> (
        touched[i] == source || crate::text::seq_starts_with(touched[i], source + "/"@))) by {
        lemma_path_starts_with_plain(touched[i], source);
    }
}

} // verus!
