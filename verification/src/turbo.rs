//! Migration of Turborepo pipeline settings into task configuration.

use vstd::prelude::*;
use vstd::string::StringExecFns;
use crate::node_task::{find_char_pub, first_pos};
use crate::kv::{get, kv_index, kv_upsert, unique_keys, upsert};
use crate::target::{spec_new_self, spec_parse_target, target_result_view, Target, TargetError, TargetErrorView, TargetView};
use crate::text::{str_eq, replace_char, spec_replace_char, chars_of, seq_ends_with, seq_starts_with, str_ends_with, str_starts_with, string_of, vec_has_char, vec_skip, vec_take};

verus! {

/// A task of a `turbo.json` pipeline.
#[derive(Clone, Debug, Default, PartialEq, Eq)]
pub struct TurboTask {
    pub cache: Option<bool>,
    pub depends_on: Option<Vec<String>>,
    pub env: Option<Vec<String>>,
    pub inputs: Option<Vec<String>>,
    pub outputs: Option<Vec<String>>,
    pub persistent: Option<bool>,
}

/// The settings of a `turbo.json` file.
#[derive(Clone, Debug, Default, PartialEq, Eq)]
pub struct TurboJson {
    pub global_dependencies: Option<Vec<String>>,
    pub global_env: Option<Vec<String>>,
    /// Pipeline task names and their settings.
    pub pipeline: Vec<(String, TurboTask)>,
}

pub struct TurboTaskView {
    pub cache: Option<bool>,
    pub depends_on: Option<Seq<Seq<char>>>,
    pub env: Option<Seq<Seq<char>>>,
    pub inputs: Option<Seq<Seq<char>>>,
    pub outputs: Option<Seq<Seq<char>>>,
    pub persistent: Option<bool>,
}

impl DeepView for TurboTask {
    type V = TurboTaskView;

    open spec fn deep_view(&self) -> TurboTaskView {
        TurboTaskView {
            cache: self.cache,
            depends_on: self.depends_on.deep_view(),
            env: self.env.deep_view(),
            inputs: self.inputs.deep_view(),
            outputs: self.outputs.deep_view(),
            persistent: self.persistent,
        }
    }
}

/// How a task's command is given.
#[derive(Clone, Debug, PartialEq, Eq)]
pub enum TaskCommandArgs {
    Unset,
    String(String),
    List(Vec<String>),
}

pub enum CommandView {
    Unset,
    String(Seq<char>),
    List(Seq<Seq<char>>),
}

impl DeepView for TaskCommandArgs {
    type V = CommandView;

    open spec fn deep_view(&self) -> CommandView {
        match self {
            TaskCommandArgs::Unset => CommandView::Unset,
            TaskCommandArgs::String(s) => CommandView::String(s@),
            TaskCommandArgs::List(l) => CommandView::List(l.deep_view()),
        }
    }
}

/// The toolchain a task runs on.
#[derive(Clone, Copy, Debug, PartialEq, Eq, Structural)]
pub enum PlatformType {
    Bun,
    Deno,
    Node,
    Rust,
    System,
    Unknown,
}

/// Options of a task.
#[derive(Clone, Debug, Default, PartialEq, Eq)]
pub struct TaskOptionsConfig {
    pub cache: Option<bool>,
}

/// The configuration of a task.
#[derive(Clone, Debug, PartialEq, Eq)]
pub struct TaskConfig {
    pub command: TaskCommandArgs,
    pub deps: Vec<Target>,
    pub inputs: Vec<String>,
    pub outputs: Vec<String>,
    pub platform: PlatformType,
    pub local: bool,
    pub options: TaskOptionsConfig,
}

pub struct TaskConfigView {
    pub command: CommandView,
    pub deps: Seq<TargetView>,
    pub inputs: Seq<Seq<char>>,
    pub outputs: Seq<Seq<char>>,
    pub platform: PlatformType,
    pub local: bool,
    pub cache: Option<bool>,
}

impl DeepView for TaskConfig {
    type V = TaskConfigView;

    open spec fn deep_view(&self) -> TaskConfigView {
        TaskConfigView {
            command: self.command.deep_view(),
            deps: self.deps.deep_view(),
            inputs: self.inputs.deep_view(),
            outputs: self.outputs.deep_view(),
            platform: self.platform,
            local: self.local,
            cache: self.options.cache,
        }
    }
}

impl TaskConfig {
    /// A task configuration with nothing set.
    pub fn new() -> (c: TaskConfig)
        ensures
            c.deep_view() == empty_task_config(),
    {
        let c = TaskConfig {
            command: TaskCommandArgs::Unset,
            deps: Vec::new(),
            inputs: Vec::new(),
            outputs: Vec::new(),
            platform: PlatformType::Unknown,
            local: false,
            options: TaskOptionsConfig { cache: None },
        };
        assert(c.deps.deep_view() =~= Seq::<TargetView>::empty());
        assert(c.inputs.deep_view() =~= Seq::<Seq<char>>::empty());
        assert(c.outputs.deep_view() =~= Seq::<Seq<char>>::empty());
        c
    }
}

pub open spec fn empty_task_config() -> TaskConfigView {
    TaskConfigView {
        command: CommandView::Unset,
        deps: Seq::empty(),
        inputs: Seq::empty(),
        outputs: Seq::empty(),
        platform: PlatformType::Unknown,
        local: false,
        cache: None,
    }
}

/// Tasks configuration inherited by every project of a toolchain.
#[derive(Clone, Debug, PartialEq, Eq)]
pub struct InheritedTasksConfig {
    pub implicit_inputs: Vec<String>,
    pub tasks: Vec<(String, TaskConfig)>,
}

/// A pipeline key `project#task` splits into the project and the task; the
/// task ends at the next `#`. Other keys are a task alone.
pub open spec fn spec_extract_ids(key: Seq<char>) -> (Option<Seq<char>>, Seq<char>) {
    if key.contains('#') {
        let p = first_pos(key, '#');
        let rest = key.skip(p + 1);
        (Some(key.take(p)), rest.take(first_pos(rest, '#')))
    } else {
        (None, key)
    }
}

/// Splits a pipeline key into an optional project and a task.
pub fn extract_project_task_ids(key: &str) -> (r: (Option<String>, String))
    ensures
        r.0.deep_view() == spec_extract_ids(key@).0,
        r.1@ == spec_extract_ids(key@).1,
{
    let v = chars_of(key);
    if vec_has_char(&v, '#') {
        let p = find_char_pub(&v, '#');
        let project = vec_take(&v, p);
        let rest = vec_skip(&v, p + 1);
        let q = find_char_pub(&rest, '#');
        let task = vec_take(&rest, q);
        return (Some(string_of(&project)), string_of(&task));
    }
    (None, key.to_owned())
}

/// An environment variable as an input: its name after `$`.
pub open spec fn env_input(name: Seq<char>) -> Seq<char> {
    "$"@ + name
}

fn env_input_of(name: &str) -> (r: String)
    ensures
        r@ == env_input(name@),
{
    "$".to_owned().concat(name)
}

fn push_all(dst: &mut Vec<String>, src: &Vec<String>)
    ensures
        final(dst).deep_view() == old(dst).deep_view() + src.deep_view(),
{
    let ghost start = dst.deep_view();
    let mut i: usize = 0;
    while i < src.len()
        invariant
            i <= src.len(),
            dst.deep_view() =~= start + src.deep_view().take(i as int),
        decreases src.len() - i,
    {
        let item = src[i].clone();
        let ghost before = dst.deep_view();
        assert(item@ == src.deep_view()[i as int]);
        dst.push(item);
        assert(dst.deep_view() =~= before.push(item@));
        i = i + 1;
        assert(dst.deep_view() =~= start + src.deep_view().take(i as int));
    }
    assert(src.deep_view().take(i as int) =~= src.deep_view());
}

fn push_env_inputs(dst: &mut Vec<String>, src: &Vec<String>)
    ensures
        final(dst).deep_view() == old(dst).deep_view() + src.deep_view().map_values(|e: Seq<char>| env_input(e)),
{
    let ghost start = dst.deep_view();
    let ghost mapped = src.deep_view().map_values(|e: Seq<char>| env_input(e));
    let mut i: usize = 0;
    while i < src.len()
        invariant
            i <= src.len(),
            mapped == src.deep_view().map_values(|e: Seq<char>| env_input(e)),
            dst.deep_view() =~= start + mapped.take(i as int),
        decreases src.len() - i,
    {
        let item = env_input_of(src[i].as_str());
        let ghost before = dst.deep_view();
        assert(src[i as int]@ == src.deep_view()[i as int]);
        assert(item@ == mapped[i as int]);
        dst.push(item);
        assert(dst.deep_view() =~= before.push(item@));
        i = i + 1;
        assert(dst.deep_view() =~= start + mapped.take(i as int));
    }
    assert(mapped.take(i as int) =~= mapped);
}

/// What `convert_globals` adds to the implicit inputs: the global
/// dependencies, then each global environment variable as `$NAME`.
pub open spec fn spec_global_inputs(deps: Option<Seq<Seq<char>>>, env: Option<Seq<Seq<char>>>) -> Seq<Seq<char>> {
    (match deps {
        Some(d) => d,
        None => Seq::empty(),
    }) + (match env {
        Some(e) => e.map_values(|x: Seq<char>| env_input(x)),
        None => Seq::empty(),
    })
}

/// Adds the global dependencies and environment of a pipeline to the
/// implicit inputs; tells whether anything was given.
pub fn convert_globals(turbo: &TurboJson, tasks_config: &mut InheritedTasksConfig) -> (r: bool)
    ensures
        r == (turbo.global_dependencies is Some || turbo.global_env is Some),
        final(tasks_config).implicit_inputs.deep_view() == old(tasks_config).implicit_inputs.deep_view()
            + spec_global_inputs(turbo.global_dependencies.deep_view(), turbo.global_env.deep_view()),
        final(tasks_config).tasks == old(tasks_config).tasks,
{
    let mut modified = false;
    let ghost start = tasks_config.implicit_inputs.deep_view();
    if let Some(global_deps) = &turbo.global_dependencies {
        push_all(&mut tasks_config.implicit_inputs, global_deps);
        modified = true;
    }
    let ghost mid = tasks_config.implicit_inputs.deep_view();
    if let Some(global_env) = &turbo.global_env {
        push_env_inputs(&mut tasks_config.implicit_inputs, global_env);
        modified = true;
    }
    assert(tasks_config.implicit_inputs.deep_view() =~= start + spec_global_inputs(
        turbo.global_dependencies.deep_view(),
        turbo.global_env.deep_view(),
    ));
    modified
}

/// What a dependency of a pipeline task becomes: `^task` a dependency on
/// the task in upstream projects, `project#task` a task of a project,
/// `$NAME` an environment input, anything else a target.
pub open spec fn spec_dep_target_text(dep: Seq<char>) -> Option<Seq<char>> {
    if seq_starts_with(dep, "^"@) {
        Some(spec_replace_char(dep, '^', "^:"@))
    } else if dep.contains('#') {
        Some(spec_replace_char(dep, '#', ":"@))
    } else if seq_starts_with(dep, "$"@) {
        None
    } else {
        Some(dep)
    }
}

/// The targets and environment inputs from the first `n` dependencies,
/// or the first error.
pub open spec fn spec_convert_deps(deps: Seq<Seq<char>>, n: nat) -> Result<(Seq<TargetView>, Seq<Seq<char>>), TargetErrorView>
    decreases n,
{
    if n == 0 || n > deps.len() {
        Ok((Seq::empty(), Seq::empty()))
    } else {
        match spec_convert_deps(deps, (n - 1) as nat) {
            Err(e) => Err(e),
            Ok(acc) => match spec_dep_target_text(deps[n - 1]) {
                None => Ok((acc.0, acc.1.push(deps[n - 1]))),
                Some(text) => match spec_parse_target(text) {
                    Err(e) => Err(e),
                    Ok(t) => Ok((acc.0.push(t), acc.1)),
                },
            },
        }
    }
}

/// An output of a pipeline task: a trailing `/**` gets `/*` added.
pub open spec fn spec_convert_output(o: Seq<char>) -> Seq<char> {
    if seq_ends_with(o, "/**"@) {
        o + "/*"@
    } else {
        o
    }
}

/// The task configuration made from a pipeline task named `name`.
pub open spec fn spec_convert_task(name: Seq<char>, t: TurboTaskView) -> Result<TaskConfigView, TargetErrorView> {
    let deps = match t.depends_on {
        Some(d) => spec_convert_deps(d, d.len()),
        None => Ok((Seq::empty(), Seq::empty())),
    };
    match deps {
        Err(e) => Err(e),
        Ok(acc) => Ok(
            TaskConfigView {
                command: CommandView::String("moon node run-script "@ + name),
                deps: acc.0,
                inputs: acc.1 + (match t.env {
                    Some(e) => e.map_values(|x: Seq<char>| env_input(x)),
                    None => Seq::empty(),
                }) + (match t.inputs {
                    Some(i) => i,
                    None => Seq::empty(),
                }),
                outputs: match t.outputs {
                    Some(o) => o.map_values(|x: Seq<char>| spec_convert_output(x)),
                    None => Seq::empty(),
                },
                platform: PlatformType::Node,
                local: match t.persistent {
                    Some(p) => p,
                    None => false,
                },
                cache: t.cache,
            },
        ),
    }
}

pub open spec fn config_result_view(r: Result<TaskConfig, TargetError>) -> Result<TaskConfigView, TargetErrorView> {
    match r {
        Ok(c) => Ok(c.deep_view()),
        Err(e) => Err(e@),
    }
}

proof fn lemma_deps_err_sticks(deps: Seq<Seq<char>>, n: nat, m: nat)
    requires
        spec_convert_deps(deps, n) is Err,
        n <= m <= deps.len(),
        n > 0,
    ensures
        spec_convert_deps(deps, m) == spec_convert_deps(deps, n),
    decreases m - n,
{
    if n < m {
        lemma_deps_err_sticks(deps, n, (m - 1) as nat);
    }
}

/// Converts a pipeline task into a task configuration that runs the
/// package script of the same name.
pub fn convert_task(name: &str, task: TurboTask) -> (r: Result<TaskConfig, TargetError>)
    ensures
        config_result_view(r) == spec_convert_task(name@, task.deep_view()),
{
    let mut config = TaskConfig::new();
    let mut inputs: Vec<String> = Vec::new();
    config.command = TaskCommandArgs::String("moon node run-script ".to_owned().concat(name));
    let ghost tv = task.deep_view();
    let mut deps: Vec<Target> = Vec::new();
    assert(inputs.deep_view() =~= Seq::<Seq<char>>::empty());
    assert(deps.deep_view() =~= Seq::<TargetView>::empty());
    if let Some(turbo_deps) = &task.depends_on {
        let ghost dv = turbo_deps.deep_view();
        let mut i: usize = 0;
        while i < turbo_deps.len()
            invariant
                i <= turbo_deps.len(),
                dv == turbo_deps.deep_view(),
                tv == task.deep_view(),
                task.depends_on == Some(*turbo_deps),
                spec_convert_deps(dv, i as nat) == Ok::<_, TargetErrorView>((deps.deep_view(), inputs.deep_view())),
            decreases turbo_deps.len() - i,
        {
            let dep = &turbo_deps[i];
            assert(dep@ == dv[i as int]);
            let dv_chars = chars_of(dep.as_str());
            let text: Option<String> = if str_starts_with(dep.as_str(), "^") {
                Some(replace_char(dep.as_str(), '^', "^:"))
            } else if vec_has_char(&dv_chars, '#') {
                Some(replace_char(dep.as_str(), '#', ":"))
            } else if str_starts_with(dep.as_str(), "$") {
                None
            } else {
                Some(dep.clone())
            };
            match text {
                None => {
                    let ghost before = inputs.deep_view();
                    inputs.push(dep.clone());
                    assert(inputs.deep_view() =~= before.push(dep@));
                },
                Some(t) => {
                    match Target::parse(t.as_str()) {
                        Ok(target) => {
                            let ghost before = deps.deep_view();
                            deps.push(target);
                            assert(deps.deep_view() =~= before.push(target.deep_view()));
                        },
                        Err(e) => {
                            proof {
                                lemma_deps_err_sticks(dv, (i + 1) as nat, dv.len());
                            }
                            return Err(e);
                        },
                    }
                },
            }
            i = i + 1;
        }
    }
    let ghost dep_inputs = inputs.deep_view();
    if let Some(turbo_env) = &task.env {
        push_env_inputs(&mut inputs, turbo_env);
    }
    let ghost env_inputs = inputs.deep_view();
    if let Some(turbo_inputs) = &task.inputs {
        push_all(&mut inputs, turbo_inputs);
    }
    let mut outputs: Vec<String> = Vec::new();
    assert(outputs.deep_view() =~= Seq::<Seq<char>>::empty());
    if let Some(turbo_outputs) = &task.outputs {
        let ghost ov = turbo_outputs.deep_view();
        let ghost mapped = ov.map_values(|x: Seq<char>| spec_convert_output(x));
        let mut i: usize = 0;
        while i < turbo_outputs.len()
            invariant
                i <= turbo_outputs.len(),
                ov == turbo_outputs.deep_view(),
                mapped == ov.map_values(|x: Seq<char>| spec_convert_output(x)),
                outputs.deep_view() =~= mapped.take(i as int),
            decreases turbo_outputs.len() - i,
        {
            let output = &turbo_outputs[i];
            assert(output@ == ov[i as int]);
            let converted = if str_ends_with(output.as_str(), "/**") {
                output.clone().concat("/*")
            } else {
                output.clone()
            };
            let ghost before = outputs.deep_view();
            assert(converted@ == mapped[i as int]);
            outputs.push(converted);
            assert(outputs.deep_view() =~= before.push(converted@));
            i = i + 1;
            assert(outputs.deep_view() =~= mapped.take(i as int));
        }
        assert(mapped.take(i as int) =~= mapped);
    }
    config.deps = deps;
    config.inputs = inputs;
    config.outputs = outputs;
    config.platform = PlatformType::Node;
    config.local = match task.persistent {
        Some(p) => p,
        None => false,
    };
    config.options.cache = task.cache;
    assert(config.inputs.deep_view() =~= spec_convert_task(name@, tv)->Ok_0.inputs);
    Ok(config)
}

} // verus!

verus! {

/// Why a pipeline could not be migrated.
#[derive(Clone, Debug, PartialEq, Eq)]
pub enum MigrateError {
    /// A dependency of a task is not a valid target.
    Target(TargetError),
    /// A task names a project the workspace does not have.
    UnknownProject(String),
}

pub enum MigrateErrorView {
    Target(TargetErrorView),
    UnknownProject(Seq<char>),
}

/// What migrating a pipeline gives: the tasks for each project, and
/// whether global tasks were added and root `//#` tasks were skipped.
#[derive(Clone, Debug, PartialEq, Eq)]
pub struct PipelineMigration {
    pub project_tasks: Vec<(String, Vec<(String, TaskConfig)>)>,
    pub global_modified: bool,
    pub skipped_root_tasks: bool,
}

pub struct MigrationView {
    pub project_tasks: Seq<(Seq<char>, Seq<(Seq<char>, TaskConfigView)>)>,
    pub global_tasks: Seq<(Seq<char>, TaskConfigView)>,
    pub global_modified: bool,
    pub skipped_root_tasks: bool,
}

/// The migration after the first `n` pipeline entries: a `//#` entry is
/// skipped; a `project#task` entry adds the task to its project (which
/// must be known); another entry adds a global task. A task that cannot be
/// converted stops the migration.
pub open spec fn spec_migrate(
    pipeline: Seq<(Seq<char>, TurboTaskView)>,
    projects: Seq<Seq<char>>,
    start: MigrationView,
    n: nat,
) -> Result<MigrationView, MigrateErrorView>
    decreases n,
{
    if n == 0 {
        Ok(start)
    } else {
        match spec_migrate(pipeline, projects, start, (n - 1) as nat) {
            Err(e) => Err(e),
            Ok(acc) => {
                let (id, task) = pipeline[n - 1];
                if seq_starts_with(id, "//#"@) {
                    Ok(MigrationView { skipped_root_tasks: true, ..acc })
                } else {
                    let (project, task_id) = spec_extract_ids(id);
                    match project {
                        Some(p) => if !projects.contains(p) {
                            Err(MigrateErrorView::UnknownProject(p))
                        } else {
                            match spec_convert_task(task_id, task) {
                                Err(e) => Err(MigrateErrorView::Target(e)),
                                Ok(c) => {
                                    let prev = match get(acc.project_tasks, p) {
                                        Some(t) => t,
                                        None => Seq::empty(),
                                    };
                                    Ok(MigrationView {
                                        project_tasks: upsert(acc.project_tasks, p, upsert(prev, task_id, c)),
                                        ..acc
                                    })
                                },
                            }
                        },
                        None => match spec_convert_task(task_id, task) {
                            Err(e) => Err(MigrateErrorView::Target(e)),
                            Ok(c) => Ok(
                                MigrationView {
                                    global_tasks: upsert(acc.global_tasks, task_id, c),
                                    global_modified: true,
                                    ..acc
                                },
                            ),
                        },
                    }
                }
            },
        }
    }
}

pub open spec fn migrate_error_view(e: MigrateError) -> MigrateErrorView {
    match e {
        MigrateError::Target(t) => MigrateErrorView::Target(t@),
        MigrateError::UnknownProject(p) => MigrateErrorView::UnknownProject(p@),
    }
}

proof fn lemma_migrate_err_sticks(
    pipeline: Seq<(Seq<char>, TurboTaskView)>,
    projects: Seq<Seq<char>>,
    start: MigrationView,
    n: nat,
    m: nat,
)
    requires
        spec_migrate(pipeline, projects, start, n) is Err,
        n <= m,
    ensures
        spec_migrate(pipeline, projects, start, m) == spec_migrate(pipeline, projects, start, n),
    decreases m - n,
{
    if n < m {
        lemma_migrate_err_sticks(pipeline, projects, start, n, (m - 1) as nat);
    }
}

fn contains_string(list: &Vec<String>, item: &str) -> (r: bool)
    ensures
        r == list.deep_view().contains(item@),
{
    let mut i: usize = 0;
    while i < list.len()
        invariant
            i <= list.len(),
            forall|k: int| 0 <= k < i ==> list.deep_view()[k] != item@,
        decreases list.len() - i,
    {
        assert(list.deep_view()[i as int] == list[i as int]@);
        if str_eq(list[i].as_str(), item) {
            return true;
        }
        i = i + 1;
    }
    false
}

/// Migrates the tasks of a pipeline: global tasks go into `config`, the
/// tasks of projects (among `projects`) into the result.
pub fn migrate_pipeline(
    pipeline: Vec<(String, TurboTask)>,
    projects: &Vec<String>,
    config: &mut InheritedTasksConfig,
) -> (r: Result<PipelineMigration, MigrateError>)
    requires
        unique_keys(old(config).tasks.deep_view()),
    ensures
        final(config).implicit_inputs == old(config).implicit_inputs,
        match spec_migrate(
            pipeline.deep_view(),
            projects.deep_view(),
            MigrationView {
                project_tasks: Seq::empty(),
                global_tasks: old(config).tasks.deep_view(),
                global_modified: false,
                skipped_root_tasks: false,
            },
            pipeline.deep_view().len(),
        ) {
            Ok(m) => r matches Ok(p) && p.project_tasks.deep_view() == m.project_tasks && final(config).tasks.deep_view()
                == m.global_tasks && p.global_modified == m.global_modified && p.skipped_root_tasks
                == m.skipped_root_tasks,
            Err(e) => r matches Err(x) && migrate_error_view(x) == e,
        },
{
    let ghost pv = pipeline.deep_view();
    let ghost pj = projects.deep_view();
    let ghost start = MigrationView {
        project_tasks: Seq::empty(),
        global_tasks: config.tasks.deep_view(),
        global_modified: false,
        skipped_root_tasks: false,
    };
    let mut project_tasks: Vec<(String, Vec<(String, TaskConfig)>)> = Vec::new();
    let mut global_modified = false;
    let mut skipped_root_tasks = false;
    assert(project_tasks.deep_view() =~= Seq::<(Seq<char>, Seq<(Seq<char>, TaskConfigView)>)>::empty());
    let mut rest = pipeline;
    let ghost mut taken: int = 0;
    assert(pv.skip(0) =~= pv);
    while rest.len() > 0
        invariant
            0 <= taken <= pv.len(),
            rest.deep_view() =~= pv.skip(taken),
            pv == pipeline.deep_view(),
            start == (MigrationView {
                project_tasks: Seq::empty(),
                global_tasks: old(config).tasks.deep_view(),
                global_modified: false,
                skipped_root_tasks: false,
            }),
            pj == projects.deep_view(),
            config.implicit_inputs == old(config).implicit_inputs,
            unique_keys(config.tasks.deep_view()),
            unique_keys(project_tasks.deep_view()),
            forall|i: int| 0 <= i < project_tasks.deep_view().len() ==> unique_keys(#[trigger] project_tasks.deep_view()[i].1),
            spec_migrate(pv, pj, start, taken as nat) == Ok::<MigrationView, MigrateErrorView>(
                MigrationView {
                    project_tasks: project_tasks.deep_view(),
                    global_tasks: config.tasks.deep_view(),
                    global_modified,
                    skipped_root_tasks,
                },
            ),
        decreases rest.len(),
    {
        assert(rest.deep_view().len() == pv.len() - taken);
        assert(rest.deep_view()[0] == (rest[0].0@, rest[0].1.deep_view()));
        let ghost rs = rest.deep_view();
        let (id, task) = rest.remove(0);
        assert(rest.deep_view() =~= rs.remove(0));
        assert(pv[taken] == (id@, task.deep_view()));
        if str_starts_with(id.as_str(), "//#") {
            skipped_root_tasks = true;
        } else {
            let (project, task_id) = extract_project_task_ids(id.as_str());
            match project {
                Some(p) => {
                    if !contains_string(projects, p.as_str()) {
                        assert(!seq_starts_with(id@, "//#"@));
                        assert(spec_extract_ids(id@).0 == Some(p@));
                        assert(spec_migrate(pv, pj, start, (taken + 1) as nat) == Err::<MigrationView, MigrateErrorView>(MigrateErrorView::UnknownProject(p@)));
                        proof {
                            lemma_migrate_err_sticks(pv, pj, start, (taken + 1) as nat, pv.len());
                        }
                        return Err(MigrateError::UnknownProject(p));
                    }
                    match convert_task(task_id.as_str(), task) {
                        Err(e) => {
                            proof {
                                lemma_migrate_err_sticks(pv, pj, start, (taken + 1) as nat, pv.len());
                            }
                            return Err(MigrateError::Target(e));
                        },
                        Ok(c) => {
                            let ghost before = project_tasks.deep_view();
                            match kv_index(&project_tasks, p.as_str()) {
                                Some(k) => {
                                    let (key, mut tasks) = project_tasks.remove(k);
                                    assert(tasks.deep_view() == before[k as int].1);
                                    kv_upsert(&mut tasks, task_id, c);
                                    let ghost tv = tasks.deep_view();
                                    project_tasks.insert(k, (key, tasks));
                                    assert(project_tasks.deep_view() =~= before.update(k as int, (p@, tv)));
                                    assert forall|a: int, b: int|
                                        0 <= a < project_tasks.deep_view().len() && 0 <= b < project_tasks.deep_view().len()
                                            && a != b implies #[trigger] project_tasks.deep_view()[a].0
                                        != #[trigger] project_tasks.deep_view()[b].0 by {
                                        assert(project_tasks.deep_view()[a].0 == before[a].0);
                                        assert(project_tasks.deep_view()[b].0 == before[b].0);
                                    }
                                },
                                None => {
                                    let mut tasks: Vec<(String, TaskConfig)> = Vec::new();
                                    assert(tasks.deep_view() =~= Seq::<(Seq<char>, TaskConfigView)>::empty());
                                    kv_upsert(&mut tasks, task_id, c);
                                    let ghost tv = tasks.deep_view();
                                    kv_upsert(&mut project_tasks, p, tasks);
                                    assert(project_tasks.deep_view() =~= before.push((p@, tv)));
                                },
                            }
                        },
                    }
                },
                None => {
                    match convert_task(task_id.as_str(), task) {
                        Err(e) => {
                            proof {
                                lemma_migrate_err_sticks(pv, pj, start, (taken + 1) as nat, pv.len());
                            }
                            return Err(MigrateError::Target(e));
                        },
                        Ok(c) => {
                            kv_upsert(&mut config.tasks, task_id, c);
                            global_modified = true;
                        },
                    }
                },
            }
        }
        proof {
            taken = taken + 1;
        }
        assert(rest.deep_view() =~= pv.skip(taken));
    }
    assert(pv.skip(taken).len() == 0);
    Ok(PipelineMigration { project_tasks, global_modified, skipped_root_tasks })
}

} // verus!

verus! {

/// The number of inputs a pipeline task lists.
pub open spec fn listed_inputs_len(t: TurboTaskView) -> int {
    match t.inputs {
        Some(i) => i.len() as int,
        None => 0,
    }
}

/// A converted pipeline task ends its inputs with the task's listed inputs,
/// in order, and before them reads each of its environment variables (as
/// `$` and the name), whether it lists inputs or not.
pub proof fn lemma_convert_task_inputs(name: Seq<char>, t: TurboTaskView)
    ensures
        spec_convert_task(name, t) matches Ok(c) ==> {
            &&& c.inputs.len() >= listed_inputs_len(t)
            &&& (t.inputs is Some ==> c.inputs.skip(c.inputs.len() - listed_inputs_len(t)) == t.inputs->0)
            &&& (t.env is Some ==> forall|j: int|
                0 <= j < t.env->0.len() ==> c.inputs.take(c.inputs.len() - listed_inputs_len(t)).contains(
                    "$"@ + #[trigger] t.env->0[j],
                ))
        },
{
    if let Ok(c) = spec_convert_task(name, t) {
        let deps = match t.depends_on {
            Some(d) => spec_convert_deps(d, d.len()),
            None => Ok((Seq::<TargetView>::empty(), Seq::<Seq<char>>::empty())),
        };
        let acc = deps->Ok_0;
        let ev = match t.env {
            Some(e) => e.map_values(|x: Seq<char>| env_input(x)),
            None => Seq::empty(),
        };
        let iv = match t.inputs {
            Some(i) => i,
            None => Seq::empty(),
        };
        assert(c.inputs == acc.1 + ev + iv);
        assert(iv.len() == listed_inputs_len(t));
        let front = c.inputs.take(c.inputs.len() - listed_inputs_len(t));
        assert(front =~= acc.1 + ev);
        assert(c.inputs.skip(c.inputs.len() - listed_inputs_len(t)) =~= iv);
        let base = acc.1.len() as int;
        if let Some(e) = t.env {
            assert forall|j: int| 0 <= j < t.env->0.len() implies front.contains("$"@ + #[trigger] t.env->0[j]) by {
                assert(front[base + j] == ev[j]);
            }
        }
    }
}

} // verus!
