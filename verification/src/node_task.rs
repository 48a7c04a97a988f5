//! Conversion of `package.json` scripts into tasks.

use vstd::prelude::*;
use crate::kv::{get, has_key, kv_upsert, unique_keys, upsert};
use crate::script_rules::{
    env_var_arg, is_env_var_arg, is_output_flag, is_system_command, is_win_drive, output_flag,
    should_run_in_ci, spec_should_run_in_ci, system_command, win_drive,
};
use crate::text::{chars_of, seq_ends_with, seq_starts_with, str_ends_with, str_eq, str_starts_with, string_of, suffix_from, vec_take};

verus! {

/// The kind of binary a task runs.
#[derive(Clone, Copy, Debug, PartialEq, Eq, Structural)]
pub enum TaskType {
    Node,
    System,
}

/// Why a script could not become a task.
#[derive(Clone, Debug, PartialEq, Eq)]
pub enum TaskError {
    /// An output points outside of the project: (output, target).
    NoParentOutput(String, String),
    /// An output is an absolute path: (output, target).
    NoAbsoluteOutput(String, String),
    /// The script could not be split into arguments (unbalanced quotes).
    ArgsSplit(String),
}

pub enum TaskErrorView {
    NoParentOutput(Seq<char>, Seq<char>),
    NoAbsoluteOutput(Seq<char>, Seq<char>),
    ArgsSplit(Seq<char>),
}

impl View for TaskError {
    type V = TaskErrorView;

    open spec fn view(&self) -> TaskErrorView {
        match self {
            TaskError::NoParentOutput(o, t) => TaskErrorView::NoParentOutput(o@, t@),
            TaskError::NoAbsoluteOutput(o, t) => TaskErrorView::NoAbsoluteOutput(o@, t@),
            TaskError::ArgsSplit(s) => TaskErrorView::ArgsSplit(s@),
        }
    }
}

/// A task made from a script.
#[derive(Clone, Debug, PartialEq, Eq)]
pub struct NodeTask {
    pub target: String,
    pub command: String,
    pub args: Vec<String>,
    /// Environment variables, each name once, in order of first assignment.
    pub env: Vec<(String, String)>,
    pub outputs: Vec<String>,
    pub deps: Vec<String>,
    pub type_of: TaskType,
    pub run_in_ci: bool,
}

pub struct NodeTaskView {
    pub target: Seq<char>,
    pub command: Seq<char>,
    pub args: Seq<Seq<char>>,
    pub env: Seq<(Seq<char>, Seq<char>)>,
    pub outputs: Seq<Seq<char>>,
    pub deps: Seq<Seq<char>>,
    pub type_of: TaskType,
    pub run_in_ci: bool,
}

impl DeepView for NodeTask {
    type V = NodeTaskView;

    open spec fn deep_view(&self) -> NodeTaskView {
        NodeTaskView {
            target: self.target@,
            command: self.command@,
            args: self.args.deep_view(),
            env: self.env.deep_view(),
            outputs: self.outputs.deep_view(),
            deps: self.deps.deep_view(),
            type_of: self.type_of,
            run_in_ci: self.run_in_ci,
        }
    }
}

/// A shell script file.
pub open spec fn spec_is_bash_script(arg: Seq<char>) -> bool {
    seq_ends_with(arg, ".sh"@)
}

/// A JavaScript file run by Node.js.
pub open spec fn spec_is_node_script(arg: Seq<char>) -> bool {
    seq_ends_with(arg, ".js"@) || seq_ends_with(arg, ".cjs"@) || seq_ends_with(arg, ".mjs"@)
}

pub fn is_bash_script(arg: &str) -> (r: bool)
    ensures
        r == spec_is_bash_script(arg@),
{
    str_ends_with(arg, ".sh")
}

pub fn is_node_script(arg: &str) -> (r: bool)
    ensures
        r == spec_is_node_script(arg@),
{
    str_ends_with(arg, ".js") || str_ends_with(arg, ".cjs") || str_ends_with(arg, ".mjs")
}

/// `p` is the index of the first `c` in `s`, or the length when there is none.
pub open spec fn is_first_pos(s: Seq<char>, c: char, p: int) -> bool {
    &&& 0 <= p <= s.len()
    &&& (p < s.len() ==> s[p] == c)
    &&& forall|k: int| 0 <= k < p ==> #[trigger] s[k] != c
}

pub open spec fn first_pos(s: Seq<char>, c: char) -> int {
    choose|p: int| is_first_pos(s, c, p)
}

pub proof fn lemma_first_pos(s: Seq<char>, c: char, p: int)
    requires
        is_first_pos(s, c, p),
    ensures
        first_pos(s, c) == p,
{
    let q = first_pos(s, c);
    assert(is_first_pos(s, c, q));
    if q < p {
        assert(s[q] != c);
    }
    if p < q {
        assert(s[p] != c);
    }
}

fn find_char(v: &Vec<char>, c: char) -> (p: usize)
    ensures
        p == first_pos(v@, c),
        is_first_pos(v@, c, p as int),
{
    let mut i: usize = 0;
    while i < v.len() && v[i] != c
        invariant
            i <= v.len(),
            forall|k: int| 0 <= k < i ==> #[trigger] v@[k] != c,
        decreases v.len() - i,
    {
        i = i + 1;
    }
    proof {
        lemma_first_pos(v@, c, i as int);
    }
    i
}

/// The index of the first `c` in `v`, or its length when there is none.
pub fn find_char_pub(v: &Vec<char>, c: char) -> (p: usize)
    ensures
        p == first_pos(v@, c),
        is_first_pos(v@, c, p as int),
{
    find_char(v, c)
}

/// The name and value of a `NAME=value` argument. The value ends at the
/// next `=`; one trailing `;` is dropped.
pub open spec fn spec_env_pair(s: Seq<char>) -> (Seq<char>, Seq<char>) {
    let p = first_pos(s, '=');
    let after = if p < s.len() {
        s.skip(p + 1)
    } else {
        Seq::empty()
    };
    let v = after.take(first_pos(after, '='));
    let v = if seq_ends_with(v, ";"@) {
        v.drop_last()
    } else {
        v
    };
    (s.take(p), v)
}

/// Splits an environment variable assignment into name and value.
pub fn clean_env_var(pair: &str) -> (r: (String, String))
    ensures
        (r.0@, r.1@) == spec_env_pair(pair@),
{
    let s = chars_of(pair);
    let p = find_char(&s, '=');
    let key = vec_take(&s, p);
    let mut after: Vec<char> = Vec::new();
    if p < s.len() {
        after = crate::text::vec_skip(&s, p + 1);
    }
    assert(p < s@.len() ==> after@ == s@.skip(p + 1));
    assert(p >= s@.len() ==> after@ =~= Seq::<char>::empty());
    let q = find_char(&after, '=');
    let val = vec_take(&after, q);
    let semi = chars_of(";");
    proof {
        reveal_strlit(";");
    }
    let val = if crate::text::vec_ends_with(&val, &semi) {
        vec_take(&val, val.len() - 1)
    } else {
        val
    };
    (string_of(&key), string_of(&val))
}

/// What `clean_output_path` gives for an output of a target.
pub open spec fn spec_clean_output(target: Seq<char>, output: Seq<char>) -> Result<Seq<char>, TaskErrorView> {
    if seq_starts_with(output, ".."@) {
        Err(TaskErrorView::NoParentOutput(output, target))
    } else if seq_starts_with(output, "/"@) || is_win_drive(output) {
        Err(TaskErrorView::NoAbsoluteOutput(output, target))
    } else if seq_starts_with(output, "./"@) || seq_starts_with(output, ".\\"@) {
        Ok(output.skip(2))
    } else {
        Ok(output)
    }
}

/// Checks that an output stays inside the project and drops a leading `./`.
pub fn clean_output_path(target_id: &str, output: &str) -> (r: Result<String, TaskError>)
    ensures
        match r {
            Ok(s) => spec_clean_output(target_id@, output@) == Ok::<_, TaskErrorView>(s@),
            Err(e) => spec_clean_output(target_id@, output@) == Err::<Seq<char>, _>(e@),
        },
{
    if str_starts_with(output, "..") {
        return Err(TaskError::NoParentOutput(output.to_owned(), target_id.to_owned()));
    }
    if str_starts_with(output, "/") || win_drive(&chars_of(output)) {
        return Err(TaskError::NoAbsoluteOutput(output.to_owned(), target_id.to_owned()));
    }
    if str_starts_with(output, "./") || str_starts_with(output, ".\\") {
        proof {
            reveal_strlit("./");
            reveal_strlit(".\\");
        }
        return Ok(suffix_from(output, 2));
    }
    Ok(output.to_owned())
}

/// The task type of a command.
pub open spec fn spec_detect_task_type(command: Seq<char>) -> TaskType {
    if is_system_command(command) || command == "noop"@ {
        TaskType::System
    } else {
        TaskType::Node
    }
}

pub fn detect_task_type(command: &str) -> (r: TaskType)
    ensures
        r == spec_detect_task_type(command@),
{
    if system_command(command) || str_eq(command, "noop") {
        return TaskType::System;
    }
    TaskType::Node
}

/// What a scan of the arguments has gathered so far.
pub struct ScanView {
    pub env: Seq<(Seq<char>, Seq<char>)>,
    pub outputs: Seq<Seq<char>>,
    pub args: Seq<Seq<char>>,
}

/// The scan of the first `n` arguments: assignments go to the environment,
/// the value after an output flag is an output, all others are kept.
pub open spec fn spec_scan(target: Seq<char>, a: Seq<Seq<char>>, n: nat) -> Result<ScanView, TaskErrorView>
    decreases n,
{
    if n == 0 {
        Ok(ScanView { env: Seq::empty(), outputs: Seq::empty(), args: Seq::empty() })
    } else {
        match spec_scan(target, a, (n - 1) as nat) {
            Err(e) => Err(e),
            Ok(st) => {
                let arg = a[n - 1];
                if is_env_var_arg(arg) {
                    let kv = spec_env_pair(arg);
                    Ok(ScanView { env: upsert(st.env, kv.0, kv.1), ..st })
                } else if is_output_flag(arg) && n < a.len() {
                    match spec_clean_output(target, a[n as int]) {
                        Err(e) => Err(e),
                        Ok(o) => Ok(
                            ScanView { outputs: st.outputs.push(o), args: st.args.push(arg), ..st },
                        ),
                    }
                } else {
                    Ok(ScanView { args: st.args.push(arg), ..st })
                }
            },
        }
    }
}

/// The command and arguments taken from the kept arguments.
pub open spec fn spec_command(args: Seq<Seq<char>>) -> (Seq<char>, Seq<Seq<char>>) {
    if args.len() == 0 {
        ("noop"@, args)
    } else if spec_is_bash_script(args[0]) {
        ("bash"@, args)
    } else if spec_is_node_script(args[0]) {
        ("node"@, args)
    } else {
        (args[0], args.drop_first())
    }
}

/// The task made from a script and the arguments it splits into.
pub open spec fn spec_convert(target: Seq<char>, script: Seq<char>, a: Seq<Seq<char>>) -> Result<NodeTaskView, TaskErrorView> {
    match spec_scan(target, a, a.len()) {
        Err(e) => Err(e),
        Ok(st) => {
            let (command, args) = spec_command(st.args);
            Ok(
                NodeTaskView {
                    target,
                    command,
                    args,
                    env: st.env,
                    outputs: st.outputs,
                    deps: Seq::empty(),
                    type_of: spec_detect_task_type(command),
                    run_in_ci: spec_should_run_in_ci(script),
                },
            )
        },
    }
}

/// Makes a task from a script that has been split into `script_args`.
pub fn convert_args_to_task(target_id: &str, script: &str, script_args: &Vec<String>) -> (r: Result<NodeTask, TaskError>)
    ensures
        match r {
            Ok(t) => spec_convert(target_id@, script@, script_args.deep_view()) == Ok::<_, TaskErrorView>(t.deep_view()),
            Err(e) => spec_convert(target_id@, script@, script_args.deep_view()) == Err::<NodeTaskView, _>(e@),
        },
{
    let ghost a = script_args.deep_view();
    let mut env: Vec<(String, String)> = Vec::new();
    let mut outputs: Vec<String> = Vec::new();
    let mut args: Vec<String> = Vec::new();
    let mut index: usize = 0;
    assert(env.deep_view() =~= Seq::<(Seq<char>, Seq<char>)>::empty());
    assert(outputs.deep_view() =~= Seq::<Seq<char>>::empty());
    assert(args.deep_view() =~= Seq::<Seq<char>>::empty());
    while index < script_args.len()
        invariant
            a == script_args.deep_view(),
            index <= script_args.len(),
            unique_keys(env.deep_view()),
            spec_scan(target_id@, a, index as nat) == Ok::<_, TaskErrorView>(
                ScanView { env: env.deep_view(), outputs: outputs.deep_view(), args: args.deep_view() },
            ),
        decreases script_args.len() - index,
    {
        let arg = &script_args[index];
        let arg_chars = chars_of(arg.as_str());
        assert(arg@ == a[index as int]);
        if env_var_arg(&arg_chars) {
            let (key, val) = clean_env_var(arg.as_str());
            kv_upsert(&mut env, key, val);
            index = index + 1;
            continue;
        }
        if output_flag(&arg_chars) && index + 1 < script_args.len() {
            let next = &script_args[index + 1];
            assert(next@ == a[index + 1]);
            match clean_output_path(target_id, next.as_str()) {
                Ok(o) => {
                    let ghost before = outputs.deep_view();
                    outputs.push(o);
                    assert(outputs.deep_view() =~= before.push(o@));
                },
                Err(e) => {
                    assert(spec_scan(target_id@, a, (index + 1) as nat) is Err);
                    proof {
                        lemma_scan_err_sticks(target_id@, a, (index + 1) as nat, a.len());
                    }
                    return Err(e);
                },
            }
        }
        let ghost before_args = args.deep_view();
        args.push(arg.clone());
        assert(args.deep_view() =~= before_args.push(arg@));
        index = index + 1;
    }
    let ghost kept = args.deep_view();
    let command: String;
    if args.len() == 0 {
        command = "noop".to_owned();
    } else if is_bash_script(args[0].as_str()) {
        command = "bash".to_owned();
    } else if is_node_script(args[0].as_str()) {
        command = "node".to_owned();
    } else {
        command = args.remove(0);
        assert(args.deep_view() =~= kept.drop_first());
    }
    let type_of = detect_task_type(command.as_str());
    let run_in_ci = should_run_in_ci(script);
    let deps: Vec<String> = Vec::new();
    assert(deps.deep_view() =~= Seq::<Seq<char>>::empty());
    Ok(NodeTask { target: target_id.to_owned(), command, args, env, outputs, deps, type_of, run_in_ci })
}

proof fn lemma_scan_err_sticks(target: Seq<char>, a: Seq<Seq<char>>, n: nat, m: nat)
    requires
        spec_scan(target, a, n) is Err,
        n <= m,
    ensures
        spec_scan(target, a, m) == spec_scan(target, a, n),
    decreases m - n,
{
    if n < m {
        lemma_scan_err_sticks(target, a, n, (m - 1) as nat);
    }
}

/// What splitting a command line into arguments gives, shell style, or
/// `None` for an unbalanced quote.
pub uninterp spec fn shell_split(line: Seq<char>) -> Option<Seq<Seq<char>>>;

/// Splits a command line into arguments by the rules of a POSIX shell
/// (`shell_words::split`). Claims only that the outcome is `shell_split` of
/// the line.
#[verifier::external_body]
fn split_args(line: &str) -> (r: Option<Vec<String>>)
    ensures
        match r {
            Some(v) => shell_split(line@) == Some(v.deep_view()),
            None => shell_split(line@) is None,
        },
{
    shell_words::split(line).ok()
}

/// What `convert_script_to_task` gives.
pub open spec fn spec_convert_script(target: Seq<char>, script: Seq<char>) -> Result<NodeTaskView, TaskErrorView> {
    match shell_split(script) {
        None => Err(TaskErrorView::ArgsSplit(script)),
        Some(a) => spec_convert(target, script, a),
    }
}

/// Makes a task for `target_id` from a `package.json` script.
pub fn convert_script_to_task(target_id: &str, script_name: &str, script: &str) -> (r: Result<NodeTask, TaskError>)
    ensures
        match r {
            Ok(t) => spec_convert_script(target_id@, script@) == Ok::<_, TaskErrorView>(t.deep_view()),
            Err(e) => spec_convert_script(target_id@, script@) == Err::<NodeTaskView, _>(e@),
        },
{
    match split_args(script) {
        None => Err(TaskError::ArgsSplit(script.to_owned())),
        Some(args) => convert_args_to_task(target_id, script, &args),
    }
}

} // verus!

verus! {

/// A script file run by Node.js: a name ending in `.js`, `.cjs` or `.mjs`.
pub open spec fn names_js_file(arg: Seq<char>) -> bool {
    seq_ends_with(arg, ".js"@) || seq_ends_with(arg, ".cjs"@) || seq_ends_with(arg, ".mjs"@)
}

/// A scan that does not fail keeps the first argument first, unless that
/// argument assigns a variable.
proof fn lemma_scan_keeps_first(target: Seq<char>, a: Seq<Seq<char>>, n: nat)
    requires
        1 <= n <= a.len(),
        !is_env_var_arg(a[0]),
    ensures
        spec_scan(target, a, n) matches Ok(st) ==> st.args.len() >= 1 && st.args[0] == a[0],
    decreases n,
{
    if n > 1 {
        lemma_scan_keeps_first(target, a, (n - 1) as nat);
    }
    let prev = spec_scan(target, a, (n - 1) as nat);
    if let Ok(p) = prev {
        if n == 1 {
            assert(p.args.len() == 0);
            assert(!is_env_var_arg(a[n - 1]));
        }
        if let Ok(st) = spec_scan(target, a, n) {
            assert(st.args == p.args || st.args == p.args.push(a[n - 1]));
        }
    }
}

/// When a script's first word names a JavaScript file (`.js`, `.cjs` or
/// `.mjs`) and assigns no variable, the task runs `node` with that file as
/// its first argument.
pub proof fn lemma_js_file_runs_with_node(target: Seq<char>, script: Seq<char>, a: Seq<Seq<char>>)
    requires
        a.len() > 0,
        names_js_file(a[0]),
        forall|j: int| 0 <= j < a[0].len() ==> a[0][j] != '=',
    ensures
        spec_convert(target, script, a) matches Ok(t) ==> t.command == "node"@ && t.args.len() > 0 && t.args[0] == a[0],
        shell_split(script) == Some(a) ==> (spec_convert_script(target, script) matches Ok(t) ==> t.command == "node"@
            && t.args.len() > 0 && t.args[0] == a[0]),
{
    reveal_strlit(".js");
    reveal_strlit(".cjs");
    reveal_strlit(".mjs");
    reveal_strlit(".sh");
    let s = a[0];
    assert(!is_env_var_arg(s)) by {
        if is_env_var_arg(s) {
            let k = choose|k: int| 1 <= k < s.len() && s[k] == '=' && (forall|j: int| 0 <= j < k ==> crate::script_rules::is_env_name_char(#[trigger] s[j]));
            assert(s[k] != '=');
        }
    }
    lemma_scan_keeps_first(target, a, a.len());
    assert(s.len() >= 3);
    assert(s[s.len() - 1] == 's') by {
        if seq_ends_with(s, ".js"@) {
            assert(s.subrange(s.len() - 3, s.len() as int)[2] == ".js"@[2]);
        } else if seq_ends_with(s, ".cjs"@) {
            assert(s.subrange(s.len() - 4, s.len() as int)[3] == ".cjs"@[3]);
        } else {
            assert(s.subrange(s.len() - 4, s.len() as int)[3] == ".mjs"@[3]);
        }
    }
    assert(!spec_is_bash_script(s)) by {
        if seq_ends_with(s, ".sh"@) {
            assert(s.subrange(s.len() - 3, s.len() as int)[2] == ".sh"@[2]);
        }
    }
    assert(spec_is_node_script(s));
}

} // verus!
