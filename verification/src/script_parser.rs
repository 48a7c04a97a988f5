//! Turning the scripts of a `package.json` into tasks: life cycle scripts
//! are set aside, `pre`/`post` scripts become dependencies of the task they
//! belong to, unsupported shell constructs are skipped, and stand-alone
//! scripts become tasks.

use vstd::prelude::*;
use crate::ordered::{keys_ordered, sort_by_key};
use vstd::string::StringExecFns;
use crate::kv::{get, has_key, key_index, kv_index, kv_remove, kv_upsert, lemma_upsert_get, remove_key, unique_keys, upsert};
use crate::node_task::{convert_script_to_task, spec_convert_script, NodeTask, NodeTaskView, TaskError, TaskErrorView, TaskType};
use crate::script_rules::{
    clean_script_name, cd_command, has_cd, has_operator, has_pipe, has_redirect, is_life_cycle,
    is_pm_run, life_cycle, operator, pipe, pm_run, redirect, spec_clean_script_name,
};
use crate::text::{
    chars_of, decimal_chars, seq_contains_seq, seq_starts_with, spec_decimal, spec_split,
    spec_trim, split_chars, str_starts_with, string_of, suffix_from, trim_chars, vec_contains,
    views,
};

verus! {

/// The state of a parse of scripts.
pub struct ScriptParser {
    /// Life cycle scripts like `prepublishOnly`.
    pub life_cycles: Vec<(String, String)>,
    /// Script names and the task identifiers made from them.
    pub names_to_ids: Vec<(String, String)>,
    /// Scripts whose name started with `post`, under the rest of the name.
    pub post: Vec<(String, String)>,
    /// Scripts whose name started with `pre`, under the rest of the name.
    pub pre: Vec<(String, String)>,
    /// The project being parsed.
    pub project_id: String,
    /// Scripts left for a later pass (`npm run`, `&&`).
    pub scripts: Vec<(String, String)>,
    /// The tasks made so far.
    pub tasks: Vec<(String, NodeTask)>,
}

pub struct ParserView {
    pub life_cycles: Seq<(Seq<char>, Seq<char>)>,
    pub names_to_ids: Seq<(Seq<char>, Seq<char>)>,
    pub post: Seq<(Seq<char>, Seq<char>)>,
    pub pre: Seq<(Seq<char>, Seq<char>)>,
    pub project_id: Seq<char>,
    pub scripts: Seq<(Seq<char>, Seq<char>)>,
    pub tasks: Seq<(Seq<char>, NodeTaskView)>,
}

impl DeepView for ScriptParser {
    type V = ParserView;

    open spec fn deep_view(&self) -> ParserView {
        ParserView {
            life_cycles: self.life_cycles.deep_view(),
            names_to_ids: self.names_to_ids.deep_view(),
            post: self.post.deep_view(),
            pre: self.pre.deep_view(),
            project_id: self.project_id@,
            scripts: self.scripts.deep_view(),
            tasks: self.tasks.deep_view(),
        }
    }
}

/// Every list of the state holds each key once.
pub open spec fn parser_wf(st: ParserView) -> bool {
    &&& unique_keys(st.life_cycles)
    &&& unique_keys(st.names_to_ids)
    &&& unique_keys(st.post)
    &&& unique_keys(st.pre)
    &&& unique_keys(st.scripts)
    &&& unique_keys(st.tasks)
}

/// How many hook scripts are still waiting.
pub open spec fn hooks_size(st: ParserView) -> nat {
    st.pre.len() + st.post.len()
}

pub open spec fn result_view(r: Result<String, TaskError>) -> Result<Seq<char>, TaskErrorView> {
    match r {
        Ok(s) => Ok(s@),
        Err(e) => Err(e@),
    }
}

pub open spec fn unit_view(r: Result<(), TaskError>) -> Result<(), TaskErrorView> {
    match r {
        Ok(()) => Ok(()),
        Err(e) => Err(e@),
    }
}

pub open spec fn deps_view(r: Result<Vec<String>, TaskError>) -> Result<Seq<Seq<char>>, TaskErrorView> {
    match r {
        Ok(d) => Ok(d.deep_view()),
        Err(e) => Err(e@),
    }
}

/// The commands of a script: its `&&` separated parts, trimmed.
pub open spec fn spec_parse_script(script: Seq<char>) -> Seq<Seq<char>> {
    spec_split(script, "&&"@).map_values(|c: Seq<char>| spec_trim(c))
}

/// The name of the `n`th hook task of a script: `name`, the kind, then `n`.
pub open spec fn hook_name(name: Seq<char>, kind: Seq<char>, n: nat) -> Seq<char> {
    name + kind + spec_decimal(n)
}

/// A dependency on a task of the same project.
pub open spec fn self_dep(task_id: Seq<char>) -> Seq<char> {
    "~:"@ + task_id
}

/// Adds a dependency to the task stored under `id`, if there is one.
pub open spec fn push_dep(tasks: Seq<(Seq<char>, NodeTaskView)>, id: Seq<char>, dep: Seq<char>) -> Seq<(Seq<char>, NodeTaskView)> {
    if has_key(tasks, id) {
        let t = tasks[key_index(tasks, id)].1;
        tasks.update(key_index(tasks, id), (id, NodeTaskView { deps: t.deps.push(dep), ..t }))
    } else {
        tasks
    }
}

/// Creating the task of script `name`: its identifier is the cleaned
/// name; `pre` hooks become its dependencies; then `post` hooks become
/// tasks that depend on it. Gives the state and the task identifier.
/// `b` bounds the number of waiting hooks.
pub open spec fn spec_create_task(b: nat, st: ParserView, name: Seq<char>, value: Seq<char>) -> (ParserView, Result<Seq<char>, TaskErrorView>)
    decreases b, 2nat, 0nat,
{
    if hooks_size(st) > b {
        (st, Err(TaskErrorView::ArgsSplit(value)))
    } else {
        let task_id = spec_clean_script_name(name);
        let target = st.project_id + ":"@ + task_id;
        let st1 = ParserView { names_to_ids: upsert(st.names_to_ids, name, task_id), ..st };
        match spec_convert_script(target, value) {
            Err(e) => (st1, Err(e)),
            Ok(task) => {
                let pre = if has_key(st1.pre, name) {
                    spec_apply_pre(b, st1, name)
                } else {
                    (st1, Ok(task.deps))
                };
                let st2 = pre.0;
                match pre.1 {
                    Err(e) => (st2, Err(e)),
                    Ok(deps) => {
                        let st3 = ParserView {
                            tasks: upsert(st2.tasks, task_id, NodeTaskView { deps, ..task }),
                            ..st2
                        };
                        if has_key(st3.post, name) {
                            let post = spec_apply_post(b, st3, name, task_id);
                            (
                                post.0,
                                match post.1 {
                                    Err(e) => Err(e),
                                    Ok(()) => Ok(task_id),
                                },
                            )
                        } else {
                            (st3, Ok(task_id))
                        }
                    },
                }
            },
        }
    }
}

/// The `pre` hook of `name` taken out and made into tasks; gives their
/// dependencies.
pub open spec fn spec_apply_pre(b: nat, st: ParserView, name: Seq<char>) -> (ParserView, Result<Seq<Seq<char>>, TaskErrorView>)
    decreases b, 1nat, 0nat,
{
    if hooks_size(st) > b || !has_key(st.pre, name) {
        (st, Err(TaskErrorView::ArgsSplit(name)))
    } else {
        let script = get(st.pre, name)->0;
        let st1 = ParserView { pre: remove_key(st.pre, name), ..st };
        spec_pre_loop((b - 1) as nat, st1, name, spec_parse_script(script), 0, Seq::empty())
    }
}

pub open spec fn spec_pre_loop(b: nat, st: ParserView, name: Seq<char>, cmds: Seq<Seq<char>>, i: nat, deps: Seq<Seq<char>>) -> (ParserView, Result<Seq<Seq<char>>, TaskErrorView>)
    decreases b, 3nat, cmds.len() - i,
{
    if i >= cmds.len() {
        (st, Ok(deps))
    } else {
        let made = spec_create_task(b, st, hook_name(name, "-pre"@, i + 1), cmds[i as int]);
        match made.1 {
            Err(e) => (made.0, Err(e)),
            Ok(id) => spec_pre_loop(b, made.0, name, cmds, i + 1, deps.push(self_dep(id))),
        }
    }
}

/// The `post` hook of `name` taken out and made into tasks that depend on
/// the task `dep`.
pub open spec fn spec_apply_post(b: nat, st: ParserView, name: Seq<char>, dep: Seq<char>) -> (ParserView, Result<(), TaskErrorView>)
    decreases b, 1nat, 0nat,
{
    if hooks_size(st) > b || !has_key(st.post, name) {
        (st, Err(TaskErrorView::ArgsSplit(name)))
    } else {
        let script = get(st.post, name)->0;
        let st1 = ParserView { post: remove_key(st.post, name), ..st };
        spec_post_loop((b - 1) as nat, st1, name, dep, spec_parse_script(script), 0)
    }
}

pub open spec fn spec_post_loop(b: nat, st: ParserView, name: Seq<char>, dep: Seq<char>, cmds: Seq<Seq<char>>, i: nat) -> (ParserView, Result<(), TaskErrorView>)
    decreases b, 3nat, cmds.len() - i,
{
    if i >= cmds.len() {
        (st, Ok(()))
    } else {
        let made = spec_create_task(b, st, hook_name(name, "-post"@, i + 1), cmds[i as int]);
        match made.1 {
            Err(e) => (made.0, Err(e)),
            Ok(id) => spec_post_loop(
                b,
                ParserView { tasks: push_dep(made.0.tasks, id, self_dep(dep)), ..made.0 },
                name,
                dep,
                cmds,
                i + 1,
            ),
        }
    }
}

impl NodeTask {
    /// A blank task that holds the place of an entry while it is edited:
    /// every text and list empty, a Node.js task run in CI.
    fn placeholder() -> (t: NodeTask)
        ensures
            t.deep_view() == (NodeTaskView {
                target: Seq::empty(),
                command: Seq::empty(),
                args: Seq::empty(),
                env: Seq::empty(),
                outputs: Seq::empty(),
                deps: Seq::empty(),
                type_of: TaskType::Node,
                run_in_ci: true,
            }),
    {
        let t = NodeTask {
            target: String::new(),
            command: String::new(),
            args: Vec::new(),
            env: Vec::new(),
            outputs: Vec::new(),
            deps: Vec::new(),
            type_of: TaskType::Node,
            run_in_ci: true,
        };
        assert(t.args.deep_view() =~= Seq::empty());
        assert(t.env.deep_view() =~= Seq::empty());
        assert(t.outputs.deep_view() =~= Seq::empty());
        assert(t.deps.deep_view() =~= Seq::empty());
        t
    }
}

fn hook(name: &str, kind: &str, n: usize) -> (r: String)
    ensures
        r@ == hook_name(name@, kind@, n as nat),
{
    let digits = string_of(&decimal_chars(n));
    name.to_owned().concat(kind).concat(digits.as_str())
}

fn dep_on(task_id: &str) -> (r: String)
    ensures
        r@ == self_dep(task_id@),
{
    "~:".to_owned().concat(task_id)
}

impl ScriptParser {
    /// An empty parse state for a project.
    pub fn new(project_id: &str) -> (p: ScriptParser)
        ensures
            p.deep_view() == new_parser_view(project_id@),
            parser_wf(p.deep_view()),
    {
        let p = ScriptParser {
            life_cycles: Vec::new(),
            names_to_ids: Vec::new(),
            post: Vec::new(),
            pre: Vec::new(),
            project_id: project_id.to_owned(),
            scripts: Vec::new(),
            tasks: Vec::new(),
        };
        assert(p.life_cycles.deep_view() =~= Seq::empty());
        assert(p.names_to_ids.deep_view() =~= Seq::empty());
        assert(p.post.deep_view() =~= Seq::empty());
        assert(p.pre.deep_view() =~= Seq::empty());
        assert(p.scripts.deep_view() =~= Seq::empty());
        assert(p.tasks.deep_view() =~= Seq::empty());
        p
    }

    /// Splits a script into its `&&` separated commands, trimmed.
    pub fn parse_script(&self, script: &str) -> (r: Vec<String>)
        ensures
            r.deep_view() == spec_parse_script(script@),
    {
        let sep = chars_of("&&");
        proof {
            reveal_strlit("&&");
        }
        let parts = split_chars(&chars_of(script), &sep);
        let mut commands: Vec<String> = Vec::new();
        let mut i: usize = 0;
        while i < parts.len()
            invariant
                i <= parts.len(),
                views(parts@) == spec_split(script@, "&&"@),
                commands.deep_view() =~= spec_parse_script(script@).take(i as int),
            decreases parts.len() - i,
        {
            assert(views(parts@)[i as int] == parts@[i as int]@);
            assert(spec_parse_script(script@)[i as int] == spec_trim(views(parts@)[i as int]));
            let c = string_of(&trim_chars(&parts[i]));
            let ghost before = commands.deep_view();
            commands.push(c);
            assert(commands.deep_view() =~= before.push(c@));
            i = i + 1;
            assert(commands.deep_view() =~= spec_parse_script(script@).take(i as int));
        }
        assert(spec_parse_script(script@).take(i as int) =~= spec_parse_script(script@));
        commands
    }

    fn classify(name: &str, script: &str) -> (k: ScriptKind)
        ensures
            k == spec_classify(name@, script@),
    {
        if life_cycle(name) {
            return ScriptKind::LifeCycle;
        }
        if str_starts_with(name, "pre") {
            return ScriptKind::Pre;
        }
        if str_starts_with(name, "post") {
            return ScriptKind::Post;
        }
        let v = chars_of(script);
        if cd_command(&v) || redirect(&v) || pipe(&v) || operator(&v) {
            return ScriptKind::Unsupported;
        }
        if pm_run(&v) || vec_contains(&v, &chars_of("&&")) {
            return ScriptKind::Deferred;
        }
        ScriptKind::Standalone
    }

    /// Parses the scripts of a manifest, if it has any: sets aside life
    /// cycle, hook and deferred scripts, then makes a task of each
    /// stand-alone script.
    pub fn parse(&mut self, scripts: Option<&Vec<(String, String)>>) -> (r: Result<(), TaskError>)
        requires
            parser_wf(old(self).deep_view()),
        ensures
            parser_wf(final(self).deep_view()),
            spec_parse(
                old(self).deep_view(),
                match scripts {
                    Some(l) => Some(l.deep_view()),
                    None => None,
                },
            ) == (final(self).deep_view(), unit_view(r)),
    {
        let list = match scripts {
            Some(l) => l,
            None => return Ok(()),
        };
        let ghost lv = list.deep_view();
        let ghost st0 = self.deep_view();
        let mut standalone: Vec<(String, String)> = Vec::new();
        assert(standalone.deep_view() =~= Seq::<(Seq<char>, Seq<char>)>::empty());
        let mut i: usize = 0;
        while i < list.len()
            invariant
                i <= list.len(),
                lv == list.deep_view(),
                parser_wf(self.deep_view()),
                unique_keys(standalone.deep_view()),
                spec_first_pass(st0, lv, i as nat) == (self.deep_view(), standalone.deep_view()),
            decreases list.len() - i,
        {
            let name = &list[i].0;
            let script = &list[i].1;
            assert(lv[i as int] == (name@, script@));
            match Self::classify(name.as_str(), script.as_str()) {
                ScriptKind::LifeCycle => {
                    kv_upsert(&mut self.life_cycles, name.clone(), script.clone());
                },
                ScriptKind::Pre => {
                    proof {
                        reveal_strlit("pre");
                    }
                    kv_upsert(&mut self.pre, suffix_from(name.as_str(), 3), script.clone());
                },
                ScriptKind::Post => {
                    proof {
                        reveal_strlit("post");
                    }
                    kv_upsert(&mut self.post, suffix_from(name.as_str(), 4), script.clone());
                },
                ScriptKind::Unsupported => {},
                ScriptKind::Deferred => {
                    kv_upsert(&mut self.scripts, name.clone(), script.clone());
                },
                ScriptKind::Standalone => {
                    kv_upsert(&mut standalone, name.clone(), script.clone());
                },
            }
            i = i + 1;
        }
        let ghost sa = standalone.deep_view();
        let ghost st1 = self.deep_view();
        assert(spec_parse(st0, Some(lv)) == spec_second_pass(st1, sa, 0));
        let mut j: usize = 0;
        while j < standalone.len()
            invariant
                j <= standalone.len(),
                st0 == old(self).deep_view(),
                scripts is Some && scripts->0.deep_view() == lv,
                spec_parse(st0, Some(lv)) == spec_second_pass(st1, sa, 0),
                sa == standalone.deep_view(),
                parser_wf(self.deep_view()),
                spec_second_pass(st1, sa, 0) == spec_second_pass(self.deep_view(), sa, j as nat),
            decreases standalone.len() - j,
        {
            let ghost size = hooks_size(self.deep_view());
            assert(sa[j as int] == (standalone[j as int].0@, standalone[j as int].1@));
            match self.create_task_in(standalone[j].0.as_str(), standalone[j].1.as_str(), Ghost(size)) {
                Ok(_) => {},
                Err(e) => return Err(e),
            }
            j = j + 1;
        }
        Ok(())
    }

    /// Makes the task of script `name` with contents `value`, along with the
    /// tasks of its hooks; gives the task identifier.
    pub fn create_task(&mut self, name: &str, value: &str) -> (r: Result<String, TaskError>)
        requires
            parser_wf(old(self).deep_view()),
        ensures
            parser_wf(final(self).deep_view()),
            spec_create_task(hooks_size(old(self).deep_view()), old(self).deep_view(), name@, value@) == (final(self).deep_view(), result_view(r)),
    {
        let ghost size = hooks_size(self.deep_view());
        self.create_task_in(name, value, Ghost(size))
    }

    /// Makes tasks of the `pre` hook of a script; gives the dependencies on
    /// them.
    pub fn apply_pre_hooks(&mut self, script_name: &str) -> (r: Result<Vec<String>, TaskError>)
        requires
            parser_wf(old(self).deep_view()),
            has_key(old(self).deep_view().pre, script_name@),
        ensures
            parser_wf(final(self).deep_view()),
            spec_apply_pre(hooks_size(old(self).deep_view()), old(self).deep_view(), script_name@) == (final(self).deep_view(), deps_view(r)),
    {
        let ghost size = hooks_size(self.deep_view());
        self.apply_pre_in(script_name, Ghost(size))
    }

    /// Makes tasks of the `post` hook of a script, each depending on the
    /// task `dep_task_id`.
    pub fn apply_post_hooks(&mut self, script_name: &str, dep_task_id: &str) -> (r: Result<(), TaskError>)
        requires
            parser_wf(old(self).deep_view()),
            has_key(old(self).deep_view().post, script_name@),
        ensures
            parser_wf(final(self).deep_view()),
            spec_apply_post(hooks_size(old(self).deep_view()), old(self).deep_view(), script_name@, dep_task_id@) == (final(self).deep_view(), unit_view(r)),
    {
        let ghost size = hooks_size(self.deep_view());
        self.apply_post_in(script_name, dep_task_id, Ghost(size))
    }

    fn create_task_in(&mut self, name: &str, value: &str, Ghost(b): Ghost<nat>) -> (r: Result<String, TaskError>)
        requires
            parser_wf(old(self).deep_view()),
            hooks_size(old(self).deep_view()) <= b,
        ensures
            parser_wf(final(self).deep_view()),
            hooks_size(final(self).deep_view()) <= hooks_size(old(self).deep_view()),
            spec_create_task(b, old(self).deep_view(), name@, value@) == (final(self).deep_view(), result_view(r)),
        decreases b, 2nat, 0nat,
    {
        let task_id = clean_script_name(name);
        let target_id = self.project_id.clone().concat(":").concat(task_id.as_str());
        kv_upsert(&mut self.names_to_ids, name.to_owned(), task_id.clone());
        let mut task = match convert_script_to_task(target_id.as_str(), name, value) {
            Ok(t) => t,
            Err(e) => return Err(e),
        };
        if kv_index(&self.pre, name).is_some() {
            match self.apply_pre_in(name, Ghost(b)) {
                Ok(deps) => {
                    task.deps = deps;
                },
                Err(e) => return Err(e),
            }
        }
        kv_upsert(&mut self.tasks, task_id.clone(), task);
        if kv_index(&self.post, name).is_some() {
            match self.apply_post_in(name, task_id.as_str(), Ghost(b)) {
                Ok(()) => {},
                Err(e) => return Err(e),
            }
        }
        Ok(task_id)
    }

    fn apply_pre_in(&mut self, script_name: &str, Ghost(b): Ghost<nat>) -> (r: Result<Vec<String>, TaskError>)
        requires
            parser_wf(old(self).deep_view()),
            hooks_size(old(self).deep_view()) <= b,
            has_key(old(self).deep_view().pre, script_name@),
        ensures
            parser_wf(final(self).deep_view()),
            hooks_size(final(self).deep_view()) <= hooks_size(old(self).deep_view()),
            spec_apply_pre(b, old(self).deep_view(), script_name@) == (final(self).deep_view(), deps_view(r)),
        decreases b, 1nat, 0nat,
    {
        let ghost st0 = self.deep_view();
        let script = match kv_remove(&mut self.pre, script_name) {
            Some(s) => s,
            None => return Err(TaskError::ArgsSplit(script_name.to_owned())),
        };
        let ghost b1: nat = (b - 1) as nat;
        assert(st0.pre.len() > 0);
        let ghost st1 = self.deep_view();
        let commands = self.parse_script(script.as_str());
        let ghost cmds = commands.deep_view();
        let mut deps: Vec<String> = Vec::new();
        assert(deps.deep_view() =~= Seq::<Seq<char>>::empty());
        let mut index: usize = 0;
        while index < commands.len()
            invariant
                index <= commands.len(),
                cmds == commands.deep_view(),
                parser_wf(self.deep_view()),
                hooks_size(self.deep_view()) <= b1,
                b1 + 1 == b,
                st0 == old(self).deep_view(),
                hooks_size(self.deep_view()) < hooks_size(st0),
                spec_apply_pre(b, st0, script_name@) == spec_pre_loop(b1, st1, script_name@, cmds, 0, Seq::empty()),
                spec_pre_loop(b1, st1, script_name@, cmds, 0, Seq::empty()) == spec_pre_loop(
                    b1,
                    self.deep_view(),
                    script_name@,
                    cmds,
                    index as nat,
                    deps.deep_view(),
                ),
            decreases commands.len() - index,
        {
            let name = hook(script_name, "-pre", index + 1);
            let ghost cur = self.deep_view();
            assert(commands[index as int]@ == cmds[index as int]);
            match self.create_task_in(name.as_str(), commands[index].as_str(), Ghost(b1)) {
                Ok(task_id) => {
                    let ghost before = deps.deep_view();
                    deps.push(dep_on(task_id.as_str()));
                    assert(deps.deep_view() =~= before.push(self_dep(task_id@)));
                },
                Err(e) => {
                    assert(hooks_size(self.deep_view()) <= hooks_size(cur));
                    return Err(e);
                },
            }
            index = index + 1;
        }
        Ok(deps)
    }

    fn apply_post_in(&mut self, script_name: &str, dep_task_id: &str, Ghost(b): Ghost<nat>) -> (r: Result<(), TaskError>)
        requires
            parser_wf(old(self).deep_view()),
            hooks_size(old(self).deep_view()) <= b,
            has_key(old(self).deep_view().post, script_name@),
        ensures
            parser_wf(final(self).deep_view()),
            hooks_size(final(self).deep_view()) <= hooks_size(old(self).deep_view()),
            spec_apply_post(b, old(self).deep_view(), script_name@, dep_task_id@) == (final(self).deep_view(), unit_view(r)),
        decreases b, 1nat, 0nat,
    {
        let ghost st0 = self.deep_view();
        let script = match kv_remove(&mut self.post, script_name) {
            Some(s) => s,
            None => return Err(TaskError::ArgsSplit(script_name.to_owned())),
        };
        let ghost b1: nat = (b - 1) as nat;
        assert(st0.post.len() > 0);
        let ghost st1 = self.deep_view();
        let commands = self.parse_script(script.as_str());
        let ghost cmds = commands.deep_view();
        let mut index: usize = 0;
        while index < commands.len()
            invariant
                index <= commands.len(),
                cmds == commands.deep_view(),
                parser_wf(self.deep_view()),
                hooks_size(self.deep_view()) <= b1,
                b1 + 1 == b,
                st0 == old(self).deep_view(),
                hooks_size(self.deep_view()) < hooks_size(st0),
                spec_apply_post(b, st0, script_name@, dep_task_id@) == spec_post_loop(b1, st1, script_name@, dep_task_id@, cmds, 0),
                spec_post_loop(b1, st1, script_name@, dep_task_id@, cmds, 0) == spec_post_loop(
                    b1,
                    self.deep_view(),
                    script_name@,
                    dep_task_id@,
                    cmds,
                    index as nat,
                ),
            decreases commands.len() - index,
        {
            let name = hook(script_name, "-post", index + 1);
            match self.create_task_in(name.as_str(), commands[index].as_str(), Ghost(b1)) {
                Ok(task_id) => {
                    let dep = dep_on(dep_task_id);
                    let ghost tasks0 = self.tasks.deep_view();
                    match kv_index(&self.tasks, task_id.as_str()) {
                        Some(i) => {
                            let mut entry = (String::new(), NodeTask::placeholder());
                            self.tasks.set_and_swap(i, &mut entry);
                            let ghost depv = dep@;
                            let ghost old_entry = entry.1.deep_view();
                            assert(tasks0[i as int] == (entry.0@, old_entry));
                            let ghost old_deps = entry.1.deps.deep_view();
                            entry.1.deps.push(dep);
                            assert(entry.1.deps.deep_view() =~= old_deps.push(depv));
                            assert(entry.1.deep_view() == NodeTaskView { deps: old_entry.deps.push(depv), ..old_entry });
                            self.tasks.set(i, entry);
                            assert(self.tasks.deep_view() =~= push_dep(tasks0, task_id@, depv));
                            assert(unique_keys(self.tasks.deep_view())) by {
                                assert forall|x: int, y: int|
                                    0 <= x < self.tasks.deep_view().len() && 0 <= y
                                        < self.tasks.deep_view().len() && x != y implies
                                    #[trigger] self.tasks.deep_view()[x].0
                                        != #[trigger] self.tasks.deep_view()[y].0 by {
                                    assert(tasks0[x].0 != tasks0[y].0);
                                }
                            }
                        },
                        None => {},
                    }
                },
                Err(e) => return Err(e),
            }
            index = index + 1;
        }
        Ok(())
    }
}

/// Where the first pass puts a script.
pub enum ScriptKind {
    LifeCycle,
    Pre,
    Post,
    Unsupported,
    Deferred,
    Standalone,
}

/// The first pass: life cycle names first, then `pre` and `post` prefixes;
/// scripts using `cd`, redirects, pipes or `||`/`;;` are not supported;
/// package manager runs and `&&` chains are deferred; the rest stand alone.
pub open spec fn spec_classify(name: Seq<char>, script: Seq<char>) -> ScriptKind {
    if is_life_cycle(name) {
        ScriptKind::LifeCycle
    } else if seq_starts_with(name, "pre"@) {
        ScriptKind::Pre
    } else if seq_starts_with(name, "post"@) {
        ScriptKind::Post
    } else if has_cd(script) || has_redirect(script) || has_pipe(script) || has_operator(script) {
        ScriptKind::Unsupported
    } else if is_pm_run(script) || seq_contains_seq(script, "&&"@) {
        ScriptKind::Deferred
    } else {
        ScriptKind::Standalone
    }
}

/// The state and the stand-alone scripts after the first pass over the
/// first `n` scripts.
pub open spec fn spec_first_pass(st: ParserView, scripts: Seq<(Seq<char>, Seq<char>)>, n: nat) -> (ParserView, Seq<(Seq<char>, Seq<char>)>)
    decreases n,
{
    if n == 0 || n > scripts.len() {
        (st, Seq::empty())
    } else {
        let prev = spec_first_pass(st, scripts, (n - 1) as nat);
        let cur = prev.0;
        let name = scripts[n - 1].0;
        let script = scripts[n - 1].1;
        match spec_classify(name, script) {
            ScriptKind::LifeCycle => (
                ParserView { life_cycles: upsert(cur.life_cycles, name, script), ..cur },
                prev.1,
            ),
            ScriptKind::Pre => (ParserView { pre: upsert(cur.pre, name.skip(3), script), ..cur }, prev.1),
            ScriptKind::Post => (
                ParserView { post: upsert(cur.post, name.skip(4), script), ..cur },
                prev.1,
            ),
            ScriptKind::Unsupported => (cur, prev.1),
            ScriptKind::Deferred => (
                ParserView { scripts: upsert(cur.scripts, name, script), ..cur },
                prev.1,
            ),
            ScriptKind::Standalone => (cur, upsert(prev.1, name, script)),
        }
    }
}

/// The second pass: a task for each stand-alone script from index `i` on,
/// stopping at the first error.
pub open spec fn spec_second_pass(st: ParserView, standalone: Seq<(Seq<char>, Seq<char>)>, i: nat) -> (ParserView, Result<(), TaskErrorView>)
    decreases standalone.len() - i,
{
    if i >= standalone.len() {
        (st, Ok(()))
    } else {
        let made = spec_create_task(hooks_size(st), st, standalone[i as int].0, standalone[i as int].1);
        match made.1 {
            Err(e) => (made.0, Err(e)),
            Ok(_) => spec_second_pass(made.0, standalone, i + 1),
        }
    }
}

/// What parsing a list of scripts does to the state.
pub open spec fn spec_parse(st: ParserView, scripts: Option<Seq<(Seq<char>, Seq<char>)>>) -> (ParserView, Result<(), TaskErrorView>) {
    match scripts {
        None => (st, Ok(())),
        Some(list) => {
            let first = spec_first_pass(st, list, list.len());
            spec_second_pass(first.0, first.1, 0)
        },
    }
}

pub open spec fn new_parser_view(project_id: Seq<char>) -> ParserView {
    ParserView {
        life_cycles: Seq::empty(),
        names_to_ids: Seq::empty(),
        post: Seq::empty(),
        pre: Seq::empty(),
        project_id,
        scripts: Seq::empty(),
        tasks: Seq::empty(),
    }
}

/// The tasks made from the scripts of a project's manifest, in the order
/// of their identifiers.
pub fn create_tasks_from_scripts(project_id: &str, scripts: Option<&Vec<(String, String)>>) -> (r: Result<Vec<(String, NodeTask)>, TaskError>)
    ensures
        ({
            let out = spec_parse(
                new_parser_view(project_id@),
                match scripts {
                    Some(l) => Some(l.deep_view()),
                    None => None,
                },
            );
            match out.1 {
                Ok(()) => r matches Ok(tasks) && keys_ordered(tasks.deep_view())
                    && tasks.deep_view().to_multiset() == out.0.tasks.to_multiset(),
                Err(e) => r matches Err(e2) && e2@ == e,
            }
        }),
{
    let mut parser = ScriptParser::new(project_id);
    match parser.parse(scripts) {
        Ok(()) => Ok(sort_by_key(parser.tasks)),
        Err(e) => Err(e),
    }
}

} // verus!

verus! {

/// Two names that both start with `pre` (or both with `post`) and agree
/// after it are the same name.
proof fn lemma_same_after_prefix(a: Seq<char>, b: Seq<char>, p: Seq<char>)
    requires
        seq_starts_with(a, p),
        seq_starts_with(b, p),
        a.skip(p.len() as int) == b.skip(p.len() as int),
    ensures
        a == b,
{
    assert(a =~= a.subrange(0, p.len() as int) + a.skip(p.len() as int));
    assert(b =~= b.subrange(0, p.len() as int) + b.skip(p.len() as int));
}

/// What the first pass leaves of one script, by its kind.
pub open spec fn placed(first: (ParserView, Seq<(Seq<char>, Seq<char>)>), name: Seq<char>, script: Seq<char>) -> bool {
    match spec_classify(name, script) {
        ScriptKind::LifeCycle => get(first.0.life_cycles, name) == Some(script) && !has_key(first.1, name),
        ScriptKind::Pre => get(first.0.pre, name.skip(3)) == Some(script) && !has_key(first.1, name),
        ScriptKind::Post => get(first.0.post, name.skip(4)) == Some(script) && !has_key(first.1, name),
        ScriptKind::Unsupported => !has_key(first.1, name),
        ScriptKind::Deferred => get(first.0.scripts, name) == Some(script) && !has_key(first.1, name),
        ScriptKind::Standalone => get(first.1, name) == Some(script),
    }
}

/// The first pass puts each script of a manifest (whose names are unique)
/// where its kind says: life cycle scripts, `pre` and `post` hooks (under
/// the name they hook) and deferred scripts in their lists, stand-alone
/// scripts in the list of tasks to make, unsupported scripts nowhere.
pub proof fn lemma_first_pass_places(st: ParserView, scripts: Seq<(Seq<char>, Seq<char>)>, n: nat)
    requires
        parser_wf(st),
        unique_keys(scripts),
        n <= scripts.len(),
    ensures
        parser_wf(spec_first_pass(st, scripts, n).0),
        unique_keys(spec_first_pass(st, scripts, n).1),
        forall|i: int| 0 <= i < n ==> placed(spec_first_pass(st, scripts, n), (#[trigger] scripts[i]).0, scripts[i].1),
        forall|k: Seq<char>|
            #[trigger] has_key(spec_first_pass(st, scripts, n).1, k) ==> exists|j: int| 0 <= j < n && (#[trigger] scripts[j]).0 == k,
    decreases n,
{
    if n > 0 {
        lemma_first_pass_places(st, scripts, (n - 1) as nat);
        let prev = spec_first_pass(st, scripts, (n - 1) as nat);
        let cur = prev.0;
        let name = scripts[n - 1].0;
        let script = scripts[n - 1].1;
        let first = spec_first_pass(st, scripts, n);
        lemma_upsert_get(cur.life_cycles, name, script, name);
        lemma_upsert_get(cur.pre, name.skip(3), script, name.skip(3));
        lemma_upsert_get(cur.post, name.skip(4), script, name.skip(4));
        lemma_upsert_get(cur.scripts, name, script, name);
        lemma_upsert_get(prev.1, name, script, name);
        assert(!has_key(prev.1, name)) by {
            if has_key(prev.1, name) {
                let j = choose|j: int| 0 <= j < n - 1 && (#[trigger] scripts[j]).0 == name;
                assert(scripts[j].0 != scripts[n - 1].0);
            }
        }
        assert forall|k: Seq<char>| #[trigger] has_key(first.1, k) implies exists|j: int| 0 <= j < n && (#[trigger] scripts[j]).0 == k by {
            lemma_upsert_get(prev.1, name, script, k);
            if k == name {
                assert(scripts[n - 1].0 == k);
            } else {
                assert(has_key(prev.1, k));
                let j = choose|j: int| 0 <= j < n - 1 && (#[trigger] scripts[j]).0 == k;
                assert(scripts[j].0 == k);
            }
        }
        assert forall|i: int| 0 <= i < n implies placed(first, (#[trigger] scripts[i]).0, scripts[i].1) by {
            if i < n - 1 {
                let nm = scripts[i].0;
                assert(nm != name) by {
                    assert(scripts[i].0 != scripts[n - 1].0);
                }
                assert(placed(prev, nm, scripts[i].1));
                lemma_upsert_get(cur.life_cycles, name, script, nm);
                lemma_upsert_get(cur.scripts, name, script, nm);
                lemma_upsert_get(prev.1, name, script, nm);
                lemma_upsert_get(cur.pre, name.skip(3), script, nm.skip(3));
                lemma_upsert_get(cur.post, name.skip(4), script, nm.skip(4));
                reveal_strlit("pre");
                reveal_strlit("post");
                if spec_classify(nm, scripts[i].1) == ScriptKind::Pre && spec_classify(name, script) == ScriptKind::Pre
                    && nm.skip(3) == name.skip(3) {
                    lemma_same_after_prefix(nm, name, "pre"@);
                }
                if spec_classify(nm, scripts[i].1) == ScriptKind::Post && spec_classify(name, script) == ScriptKind::Post
                    && nm.skip(4) == name.skip(4) {
                    lemma_same_after_prefix(nm, name, "post"@);
                }
                if has_key(first.1, nm) && !has_key(prev.1, nm) {
                    let j = key_index(first.1, nm);
                    if j < prev.1.len() {
                        assert(first.1[j].0 == prev.1[j].0);
                    }
                }
            }
        }
    }
}

/// Every task of `a` is still a task of `b`.
pub open spec fn keeps_tasks(a: ParserView, b: ParserView) -> bool {
    forall|k: Seq<char>| #[trigger] has_key(a.tasks, k) ==> has_key(b.tasks, k)
}

proof fn lemma_upsert_keeps<W>(s: Seq<(Seq<char>, W)>, k: Seq<char>, w: W)
    ensures
        has_key(upsert(s, k, w), k),
        forall|k2: Seq<char>| #[trigger] has_key(s, k2) ==> has_key(upsert(s, k, w), k2),
{
    let t = upsert(s, k, w);
    if has_key(s, k) {
        let i = key_index(s, k);
        assert(t[i].0 == k);
        assert forall|k2: Seq<char>| #[trigger] has_key(s, k2) implies has_key(t, k2) by {
            let j = choose|j: int| 0 <= j < s.len() && #[trigger] s[j].0 == k2;
            assert(t[j].0 == k2);
        }
    } else {
        assert(t[s.len() as int].0 == k);
        assert forall|k2: Seq<char>| #[trigger] has_key(s, k2) implies has_key(t, k2) by {
            let j = choose|j: int| 0 <= j < s.len() && #[trigger] s[j].0 == k2;
            assert(t[j].0 == k2);
        }
    }
}

proof fn lemma_push_dep_keeps(tasks: Seq<(Seq<char>, NodeTaskView)>, id: Seq<char>, dep: Seq<char>)
    ensures
        forall|k2: Seq<char>| #[trigger] has_key(tasks, k2) ==> has_key(push_dep(tasks, id, dep), k2),
{
    let t = push_dep(tasks, id, dep);
    assert forall|k2: Seq<char>| #[trigger] has_key(tasks, k2) implies has_key(t, k2) by {
        let j = choose|j: int| 0 <= j < tasks.len() && #[trigger] tasks[j].0 == k2;
        if has_key(tasks, id) {
            let i = key_index(tasks, id);
            if j == i {
                assert(t[j].0 == id);
            } else {
                assert(t[j].0 == k2);
            }
        } else {
            assert(t[j].0 == k2);
        }
    }
}

/// Making the task of a script keeps every task, and on success the task
/// of the script is there under its cleaned name.
proof fn lemma_create_keeps(b: nat, st: ParserView, name: Seq<char>, value: Seq<char>)
    ensures
        keeps_tasks(st, spec_create_task(b, st, name, value).0),
        spec_create_task(b, st, name, value).1 matches Ok(id) ==> id == spec_clean_script_name(name)
            && has_key(spec_create_task(b, st, name, value).0.tasks, id),
    decreases b, 2nat, 0nat,
{
    if hooks_size(st) <= b {
        let task_id = spec_clean_script_name(name);
        let target = st.project_id + ":"@ + task_id;
        let st1 = ParserView { names_to_ids: upsert(st.names_to_ids, name, task_id), ..st };
        match spec_convert_script(target, value) {
            Err(e) => {},
            Ok(task) => {
                if has_key(st1.pre, name) {
                    lemma_apply_pre_keeps(b, st1, name);
                }
                let pre = if has_key(st1.pre, name) {
                    spec_apply_pre(b, st1, name)
                } else {
                    (st1, Ok(task.deps))
                };
                let st2 = pre.0;
                match pre.1 {
                    Err(e) => {},
                    Ok(deps) => {
                        let st3 = ParserView {
                            tasks: upsert(st2.tasks, task_id, NodeTaskView { deps, ..task }),
                            ..st2
                        };
                        lemma_upsert_keeps(st2.tasks, task_id, NodeTaskView { deps, ..task });
                        if has_key(st3.post, name) {
                            lemma_apply_post_keeps(b, st3, name, task_id);
                        }
                    },
                }
            },
        }
    }
}

proof fn lemma_apply_pre_keeps(b: nat, st: ParserView, name: Seq<char>)
    ensures
        keeps_tasks(st, spec_apply_pre(b, st, name).0),
    decreases b, 1nat, 0nat,
{
    if !(hooks_size(st) > b || !has_key(st.pre, name)) {
        let script = get(st.pre, name)->0;
        let st1 = ParserView { pre: remove_key(st.pre, name), ..st };
        lemma_pre_loop_keeps((b - 1) as nat, st1, name, spec_parse_script(script), 0, Seq::empty());
    }
}

proof fn lemma_pre_loop_keeps(b: nat, st: ParserView, name: Seq<char>, cmds: Seq<Seq<char>>, i: nat, deps: Seq<Seq<char>>)
    ensures
        keeps_tasks(st, spec_pre_loop(b, st, name, cmds, i, deps).0),
    decreases b, 3nat, cmds.len() - i,
{
    if i < cmds.len() {
        let made = spec_create_task(b, st, hook_name(name, "-pre"@, i + 1), cmds[i as int]);
        lemma_create_keeps(b, st, hook_name(name, "-pre"@, i + 1), cmds[i as int]);
        match made.1 {
            Err(e) => {},
            Ok(id) => {
                lemma_pre_loop_keeps(b, made.0, name, cmds, i + 1, deps.push(self_dep(id)));
            },
        }
    }
}

proof fn lemma_apply_post_keeps(b: nat, st: ParserView, name: Seq<char>, dep: Seq<char>)
    ensures
        keeps_tasks(st, spec_apply_post(b, st, name, dep).0),
    decreases b, 1nat, 0nat,
{
    if !(hooks_size(st) > b || !has_key(st.post, name)) {
        let script = get(st.post, name)->0;
        let st1 = ParserView { post: remove_key(st.post, name), ..st };
        lemma_post_loop_keeps((b - 1) as nat, st1, name, dep, spec_parse_script(script), 0);
    }
}

proof fn lemma_post_loop_keeps(b: nat, st: ParserView, name: Seq<char>, dep: Seq<char>, cmds: Seq<Seq<char>>, i: nat)
    ensures
        keeps_tasks(st, spec_post_loop(b, st, name, dep, cmds, i).0),
    decreases b, 3nat, cmds.len() - i,
{
    if i < cmds.len() {
        let made = spec_create_task(b, st, hook_name(name, "-post"@, i + 1), cmds[i as int]);
        lemma_create_keeps(b, st, hook_name(name, "-post"@, i + 1), cmds[i as int]);
        match made.1 {
            Err(e) => {},
            Ok(id) => {
                let next = ParserView { tasks: push_dep(made.0.tasks, id, self_dep(dep)), ..made.0 };
                lemma_push_dep_keeps(made.0.tasks, id, self_dep(dep));
                lemma_post_loop_keeps(b, next, name, dep, cmds, i + 1);
                let fin = spec_post_loop(b, next, name, dep, cmds, i + 1).0;
                assert forall|k: Seq<char>| #[trigger] has_key(st.tasks, k) implies has_key(fin.tasks, k) by {
                    assert(has_key(made.0.tasks, k));
                    assert(has_key(next.tasks, k));
                }
            },
        }
    }
}

/// A successful second pass keeps every task and makes the task of each
/// stand-alone script from the `i`th on, under its cleaned name.
proof fn lemma_second_pass_makes(st: ParserView, standalone: Seq<(Seq<char>, Seq<char>)>, i: nat)
    ensures
        keeps_tasks(st, spec_second_pass(st, standalone, i).0),
        spec_second_pass(st, standalone, i).1 is Ok ==> forall|j: int|
            i <= j < standalone.len() ==> has_key(
                spec_second_pass(st, standalone, i).0.tasks,
                spec_clean_script_name((#[trigger] standalone[j]).0),
            ),
    decreases standalone.len() - i,
{
    if i < standalone.len() {
        let made = spec_create_task(hooks_size(st), st, standalone[i as int].0, standalone[i as int].1);
        lemma_create_keeps(hooks_size(st), st, standalone[i as int].0, standalone[i as int].1);
        match made.1 {
            Err(e) => {},
            Ok(_) => {
                lemma_second_pass_makes(made.0, standalone, i + 1);
                let fin = spec_second_pass(made.0, standalone, i + 1).0;
                assert(has_key(made.0.tasks, spec_clean_script_name(standalone[i as int].0)));
                assert(has_key(fin.tasks, spec_clean_script_name(standalone[i as int].0)));
            },
        }
    }
}

/// When parsing succeeds, every stand-alone script of the manifest (whose
/// names are unique) has become a task under its cleaned name.
pub proof fn lemma_parse_makes_standalone_tasks(st: ParserView, scripts: Seq<(Seq<char>, Seq<char>)>)
    requires
        parser_wf(st),
        unique_keys(scripts),
    ensures
        spec_parse(st, Some(scripts)).1 is Ok ==> forall|i: int|
            0 <= i < scripts.len() && spec_classify(scripts[i].0, scripts[i].1) == ScriptKind::Standalone ==> has_key(
                spec_parse(st, Some(scripts)).0.tasks,
                spec_clean_script_name((#[trigger] scripts[i]).0),
            ),
{
    let first = spec_first_pass(st, scripts, scripts.len());
    lemma_first_pass_places(st, scripts, scripts.len());
    lemma_second_pass_makes(first.0, first.1, 0);
    if spec_parse(st, Some(scripts)).1 is Ok {
        assert forall|i: int|
            0 <= i < scripts.len() && spec_classify(scripts[i].0, scripts[i].1) == ScriptKind::Standalone implies has_key(
                spec_parse(st, Some(scripts)).0.tasks,
                spec_clean_script_name((#[trigger] scripts[i]).0),
            ) by {
            assert(placed(first, scripts[i].0, scripts[i].1));
            let nm = scripts[i].0;
            assert(has_key(first.1, nm));
            let j = key_index(first.1, nm);
            assert(first.1[j].0 == nm);
        }
    }
}

} // verus!
