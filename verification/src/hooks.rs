//! VCS hook scripts: their file names and contents, and how an existing
//! hook of the repository is extended to run them.

use vstd::prelude::*;
use vstd::string::StringExecFns;
use crate::paths::{join, join_all, spec_join, spec_join_all};
use crate::text::{chars_of, seq_contains_seq, split_chars, str_contains, string_of, views};

verus! {

/// The shell that runs hook scripts.
#[derive(Clone, Copy, Debug, PartialEq, Eq, Structural)]
pub enum ShellType {
    Bash,
    PowerShell,
}

/// The shell for hooks: Bash on Unix; elsewhere Bash when a `bash` binary
/// was found on the `PATH`, else PowerShell.
pub fn default_shell(is_unix: bool, bash_found: bool) -> (r: ShellType)
    ensures
        r == (if is_unix || bash_found {
            ShellType::Bash
        } else {
            ShellType::PowerShell
        }),
{
    if is_unix {
        return ShellType::Bash;
    }
    if bash_found {
        return ShellType::Bash;
    }
    ShellType::PowerShell
}

/// The files where a `bash` binary may be, for each `PATH` directory: `bash`
/// and `bash.EXT` for each `;` separated extension of `PATHEXT`.
pub open spec fn spec_bash_candidates(dirs: Seq<Seq<char>>, exts: Seq<Seq<char>>) -> Seq<Seq<char>>
    decreases dirs.len(),
{
    if dirs.len() == 0 {
        Seq::empty()
    } else {
        let d = dirs.last();
        spec_bash_candidates(dirs.drop_last(), exts) + seq![spec_join(d, "bash"@)] + exts.map_values(
            |e: Seq<char>| spec_join(d, "bash."@ + e),
        )
    }
}

/// Lists the files where a `bash` binary may be found.
pub fn bash_candidates(path_dirs: &Vec<String>, path_exts: &str) -> (r: Vec<String>)
    ensures
        r.deep_view() == spec_bash_candidates(path_dirs.deep_view(), crate::text::spec_split(path_exts@, ";"@)),
{
    let sep = chars_of(";");
    proof {
        reveal_strlit(";");
    }
    let parts = split_chars(&chars_of(path_exts), &sep);
    let ghost exts = crate::text::spec_split(path_exts@, ";"@);
    let mut r: Vec<String> = Vec::new();
    assert(r.deep_view() =~= spec_bash_candidates(path_dirs.deep_view().take(0), exts));
    let mut i: usize = 0;
    while i < path_dirs.len()
        invariant
            i <= path_dirs.len(),
            views(parts@) == exts,
            r.deep_view() =~= spec_bash_candidates(path_dirs.deep_view().take(i as int), exts),
        decreases path_dirs.len() - i,
    {
        let d = &path_dirs[i];
        assert(path_dirs.deep_view()[i as int] == d@);
        assert(path_dirs.deep_view().take(i + 1).drop_last() =~= path_dirs.deep_view().take(i as int));
        let ghost before = r.deep_view();
        r.push(join(d.as_str(), "bash"));
        let ghost mid = r.deep_view();
        let ghost mapped = exts.map_values(|e: Seq<char>| spec_join(d@, "bash."@ + e));
        let mut j: usize = 0;
        while j < parts.len()
            invariant
                j <= parts.len(),
                views(parts@) == exts,
                mapped == exts.map_values(|e: Seq<char>| spec_join(d@, "bash."@ + e)),
                r.deep_view() =~= mid + mapped.take(j as int),
            decreases parts.len() - j,
        {
            assert(exts[j as int] == parts@[j as int]@);
            let name = "bash.".to_owned().concat(string_of(&parts[j]).as_str());
            let ghost prev = r.deep_view();
            let file = join(d.as_str(), name.as_str());
            r.push(file);
            assert(r.deep_view() =~= prev.push(file@));
            j = j + 1;
        }
        assert(mapped.take(j as int) =~= mapped);
        i = i + 1;
    }
    assert(path_dirs.deep_view().take(i as int) =~= path_dirs.deep_view());
    r
}

/// The file name of a hook script for a shell.
pub open spec fn spec_hook_file_name(hook: Seq<char>, shell: ShellType) -> Seq<char> {
    match shell {
        ShellType::PowerShell => hook + ".ps1"@,
        ShellType::Bash => hook + ".sh"@,
    }
}

pub fn hook_file_name(hook: &str, shell: ShellType) -> (r: String)
    ensures
        r@ == spec_hook_file_name(hook@, shell),
{
    match shell {
        ShellType::PowerShell => hook.to_owned().concat(".ps1"),
        ShellType::Bash => hook.to_owned().concat(".sh"),
    }
}

/// The lines of a hook script: the shell's preamble, an optional notice
/// that the file is generated, then the commands.
pub open spec fn spec_hook_lines(shell: ShellType, commands: Seq<Seq<char>>, with_header: bool) -> Seq<Seq<char>> {
    let preamble = match shell {
        ShellType::PowerShell => seq!["#!/usr/bin/env pwsh"@, "$ErrorActionPreference = 'Stop'"@, Seq::<char>::empty()],
        ShellType::Bash => seq!["#!/usr/bin/env bash"@, "set -eo pipefail"@, Seq::<char>::empty()],
    };
    let header = if with_header {
        seq![
            "# Automatically generated by moon. DO NOT MODIFY!"@,
            "# https://moonrepo.dev/docs/guides/vcs-hooks"@,
            Seq::<char>::empty(),
        ]
    } else {
        Seq::empty()
    };
    preamble + header + commands
}

/// The contents of a hook script: its lines joined by new lines.
pub open spec fn spec_hook_contents(shell: ShellType, commands: Seq<Seq<char>>, with_header: bool) -> Seq<char> {
    spec_join_all(spec_hook_lines(shell, commands, with_header), "\n"@)
}

fn push_str(lines: &mut Vec<String>, s: &str)
    ensures
        final(lines).deep_view() == old(lines).deep_view().push(s@),
{
    let ghost before = lines.deep_view();
    let owned = s.to_owned();
    lines.push(owned);
    assert(lines.deep_view() =~= before.push(s@));
}

/// Writes out the contents of a hook script.
pub fn hook_file_contents(shell: ShellType, commands: &Vec<String>, with_header: bool) -> (r: String)
    ensures
        r@ == spec_hook_contents(shell, commands.deep_view(), with_header),
{
    let mut lines: Vec<String> = Vec::new();
    proof {
        reveal_strlit("");
        assert(""@ =~= Seq::<char>::empty());
    }
    match shell {
        ShellType::PowerShell => {
            push_str(&mut lines, "#!/usr/bin/env pwsh");
            push_str(&mut lines, "$ErrorActionPreference = 'Stop'");
            push_str(&mut lines, "");
        },
        ShellType::Bash => {
            push_str(&mut lines, "#!/usr/bin/env bash");
            push_str(&mut lines, "set -eo pipefail");
            push_str(&mut lines, "");
        },
    }
    if with_header {
        push_str(&mut lines, "# Automatically generated by moon. DO NOT MODIFY!");
        push_str(&mut lines, "# https://moonrepo.dev/docs/guides/vcs-hooks");
        push_str(&mut lines, "");
    }
    let ghost base = lines.deep_view();
    let mut i: usize = 0;
    while i < commands.len()
        invariant
            i <= commands.len(),
            lines.deep_view() =~= base + commands.deep_view().take(i as int),
        decreases commands.len() - i,
    {
        assert(commands.deep_view()[i as int] == commands[i as int]@);
        push_str(&mut lines, commands[i].as_str());
        i = i + 1;
        assert(lines.deep_view() =~= base + commands.deep_view().take(i as int));
    }
    assert(commands.deep_view().take(i as int) =~= commands.deep_view());
    assert(lines.deep_view() =~= spec_hook_lines(shell, commands.deep_view(), with_header));
    join_all(&lines, "\n")
}

/// What an existing hook of the repository becomes so that it runs the
/// generated one: unchanged (`None`) when it already holds the command,
/// else the command on a new line at the end.
pub open spec fn spec_synced_contents(existing: Seq<char>, command: Seq<char>) -> Option<Seq<char>> {
    if seq_contains_seq(existing, command) {
        None
    } else {
        Some(existing + "\n"@ + command)
    }
}

/// Extends an existing hook to run a command.
pub fn synced_contents(existing: &str, command: &str) -> (r: Option<String>)
    ensures
        match r {
            Some(s) => spec_synced_contents(existing@, command@) == Some(s@),
            None => spec_synced_contents(existing@, command@) is None,
        },
{
    if str_contains(existing, command) {
        return None;
    }
    Some(existing.to_owned().concat("\n").concat(command))
}

/// What syncing one hook to the VCS writes, given the hook's current file
/// there, if any: the path and the new contents, or nothing.
pub open spec fn spec_sync_file(
    external_dir: Seq<char>,
    shell: ShellType,
    hook: Seq<char>,
    command: Seq<char>,
    existing: Option<Seq<char>>,
) -> Option<(Seq<char>, Seq<char>)> {
    match existing {
        None => Some((spec_join(external_dir, hook), spec_hook_contents(shell, seq![command], false))),
        Some(e) => match spec_synced_contents(e, command) {
            None => None,
            Some(n) => Some((spec_join(external_dir, hook), n)),
        },
    }
}

/// The files of the hooks folder after syncing one hook (its name and the
/// command that runs its generated script).
pub open spec fn spec_sync_step(
    external_dir: Seq<char>,
    shell: ShellType,
    hook: (Seq<char>, Seq<char>),
    files: Map<Seq<char>, Seq<char>>,
) -> Map<Seq<char>, Seq<char>> {
    let path = spec_join(external_dir, hook.0);
    let existing = if files.contains_key(path) { Some(files[path]) } else { None };
    match spec_sync_file(external_dir, shell, hook.0, hook.1, existing) {
        None => files,
        Some(w) => files.insert(w.0, w.1),
    }
}

/// The files of the hooks folder after syncing each hook in turn.
pub open spec fn spec_sync_all(
    external_dir: Seq<char>,
    shell: ShellType,
    hooks: Seq<(Seq<char>, Seq<char>)>,
    files: Map<Seq<char>, Seq<char>>,
) -> Map<Seq<char>, Seq<char>>
    decreases hooks.len(),
{
    if hooks.len() == 0 {
        files
    } else {
        spec_sync_step(external_dir, shell, hooks.last(), spec_sync_all(external_dir, shell, hooks.drop_last(), files))
    }
}

/// Hooks of a repository: their names and commands, where the generated
/// scripts go, and where the VCS looks for hooks.
pub struct HooksGenerator {
    pub hooks: Vec<(String, Vec<String>)>,
    pub external_dir: String,
    pub internal_dir: String,
    pub shell: ShellType,
}

impl HooksGenerator {
    /// A generator for the hooks of a workspace; generated scripts go to
    /// `.moon/hooks`.
    pub fn new(workspace_root: &str, hooks_dir: &str, hooks: Vec<(String, Vec<String>)>, shell: ShellType) -> (g: HooksGenerator)
        ensures
            g.hooks == hooks,
            g.external_dir@ == hooks_dir@,
            g.internal_dir@ == spec_join(spec_join(workspace_root@, ".moon"@), "hooks"@),
            g.shell == shell,
    {
        let internal_dir = join(join(workspace_root, ".moon").as_str(), "hooks");
        HooksGenerator { hooks, external_dir: hooks_dir.to_owned(), internal_dir, shell }
    }

    /// Where the generated script of a hook goes.
    pub fn internal_hook_path(&self, hook: &str) -> (r: String)
        ensures
            r@ == spec_join(self.internal_dir@, spec_hook_file_name(hook@, self.shell)),
    {
        join(self.internal_dir.as_str(), hook_file_name(hook, self.shell).as_str())
    }

    /// Where the VCS looks for a hook.
    pub fn external_hook_path(&self, hook: &str) -> (r: String)
        ensures
            r@ == spec_join(self.external_dir@, hook@),
    {
        join(self.external_dir.as_str(), hook)
    }

    /// The generated scripts: for each hook, in order, its name, where its
    /// script goes and the script's contents (with the generated notice).
    pub fn create_hooks(&self) -> (r: Vec<(String, String, String)>)
        ensures
            r@.len() == self.hooks@.len(),
            forall|i: int|
                0 <= i < r@.len() ==> {
                    &&& (#[trigger] r@[i]).0@ == self.hooks@[i].0@
                    &&& r@[i].1@ == spec_join(self.internal_dir@, spec_hook_file_name(self.hooks@[i].0@, self.shell))
                    &&& r@[i].2@ == spec_hook_contents(self.shell, self.hooks@[i].1.deep_view(), true)
                },
    {
        let mut out: Vec<(String, String, String)> = Vec::new();
        let mut i: usize = 0;
        while i < self.hooks.len()
            invariant
                i <= self.hooks.len(),
                out@.len() == i,
                forall|k: int|
                    0 <= k < i ==> {
                        &&& (#[trigger] out@[k]).0@ == self.hooks@[k].0@
                        &&& out@[k].1@ == spec_join(self.internal_dir@, spec_hook_file_name(self.hooks@[k].0@, self.shell))
                        &&& out@[k].2@ == spec_hook_contents(self.shell, self.hooks@[k].1.deep_view(), true)
                    },
            decreases self.hooks.len() - i,
        {
            let name = &self.hooks[i].0;
            let path = self.internal_hook_path(name.as_str());
            let contents = hook_file_contents(self.shell, &self.hooks[i].1, true);
            out.push((name.clone(), path, contents));
            i = i + 1;
        }
        out
    }

    /// What syncing a hook to the VCS writes, given the hook's current file
    /// there, if any: a new script that runs the generated one, or the
    /// current file extended to run it; nothing when it already does.
    pub fn sync_file(&self, hook: &str, internal_path: &str, existing: &Option<String>) -> (r: Option<(String, String)>)
        ensures
            match r {
                None => spec_sync_file(self.external_dir@, self.shell, hook@, internal_path@, match existing {
                    Some(e) => Some(e@),
                    None => None,
                }) is None,
                Some(w) => spec_sync_file(self.external_dir@, self.shell, hook@, internal_path@, match existing {
                    Some(e) => Some(e@),
                    None => None,
                }) == Some((w.0@, w.1@)),
            },
            match existing {
                None => r matches Some((p, c)) && p@ == spec_join(self.external_dir@, hook@) && c@
                    == spec_hook_contents(self.shell, seq![internal_path@], false),
                Some(e) => match spec_synced_contents(e@, internal_path@) {
                    None => r is None,
                    Some(n) => r matches Some((p, c)) && p@ == spec_join(self.external_dir@, hook@) && c@ == n,
                },
            },
    {
        let path = self.external_hook_path(hook);
        match existing {
            None => {
                let mut commands: Vec<String> = Vec::new();
                commands.push(internal_path.to_owned());
                assert(commands.deep_view() =~= seq![internal_path@]);
                let contents = hook_file_contents(self.shell, &commands, false);
                Some((path, contents))
            },
            Some(e) => match synced_contents(e.as_str(), internal_path) {
                None => None,
                Some(n) => Some((path, n)),
            },
        }
    }
}

} // verus!

verus! {

/// Syncing a hook twice changes it once: a hook extended to run a command
/// already runs it.
pub proof fn lemma_sync_idempotent(existing: Seq<char>, command: Seq<char>)
    ensures
        match spec_synced_contents(existing, command) {
            Some(n) => spec_synced_contents(n, command) is None,
            None => true,
        },
{
    reveal_strlit("\n");
    let n = existing + "\n"@ + command;
    let i = n.len() - command.len();
    assert(n.subrange(i, i + command.len()) =~= command);
    assert(crate::text::occurs_at(n, command, i));
}

/// A new hook script runs its command.
pub proof fn lemma_created_runs(shell: ShellType, command: Seq<char>)
    ensures
        seq_contains_seq(spec_hook_contents(shell, seq![command], false), command),
{
    reveal_strlit("\n");
    let lines = spec_hook_lines(shell, seq![command], false);
    assert(lines.len() == 4);
    assert(lines.last() == command);
    let c = spec_hook_contents(shell, seq![command], false);
    assert(c == spec_join_all(lines.drop_last(), "\n"@) + "\n"@ + command);
    let i = c.len() - command.len();
    assert(c.subrange(i, i + command.len()) =~= command);
    assert(crate::text::occurs_at(c, command, i));
}

/// Extending a hook keeps what it ran and makes it run the command.
pub proof fn lemma_extended_runs(existing: Seq<char>, command: Seq<char>, other: Seq<char>)
    ensures
        seq_contains_seq(existing + "\n"@ + command, command),
        seq_contains_seq(existing, other) ==> seq_contains_seq(existing + "\n"@ + command, other),
{
    lemma_sync_idempotent(existing, command);
    if seq_contains_seq(existing, other) {
        let i = choose|i: int| crate::text::occurs_at(existing, other, i);
        let n = existing + "\n"@ + command;
        assert(n.subrange(i, i + other.len()) =~= existing.subrange(i, i + other.len()));
        assert(crate::text::occurs_at(n, other, i));
    }
    if !seq_contains_seq(existing, command) {
    } else {
        let i = choose|i: int| crate::text::occurs_at(existing, command, i);
        let n = existing + "\n"@ + command;
        assert(n.subrange(i, i + command.len()) =~= existing.subrange(i, i + command.len()));
        assert(crate::text::occurs_at(n, command, i));
    }
}

/// One sync step leaves every file that ran a command still running it,
/// and leaves the hook's file running the hook's command.
proof fn lemma_step_runs(
    external_dir: Seq<char>,
    shell: ShellType,
    hook: (Seq<char>, Seq<char>),
    files: Map<Seq<char>, Seq<char>>,
)
    ensures
        ({
            let after = spec_sync_step(external_dir, shell, hook, files);
            let path = spec_join(external_dir, hook.0);
            &&& after.contains_key(path)
            &&& seq_contains_seq(after[path], hook.1)
            &&& forall|k: Seq<char>, x: Seq<char>|
                files.contains_key(k) && seq_contains_seq(files[k], x) ==> after.contains_key(k)
                    && #[trigger] seq_contains_seq(after[k], x)
        }),
{
    let path = spec_join(external_dir, hook.0);
    if files.contains_key(path) {
        let e = files[path];
        if seq_contains_seq(e, hook.1) {
        } else {
            assert forall|k: Seq<char>, x: Seq<char>|
                files.contains_key(k) && seq_contains_seq(files[k], x) implies
                    spec_sync_step(external_dir, shell, hook, files).contains_key(k)
                    && #[trigger] seq_contains_seq(spec_sync_step(external_dir, shell, hook, files)[k], x) by {
                lemma_extended_runs(e, hook.1, x);
            }
            lemma_extended_runs(e, hook.1, hook.1);
        }
    } else {
        lemma_created_runs(shell, hook.1);
    }
}

/// After syncing, each hook's file runs that hook's command.
proof fn lemma_all_run(
    external_dir: Seq<char>,
    shell: ShellType,
    hooks: Seq<(Seq<char>, Seq<char>)>,
    files: Map<Seq<char>, Seq<char>>,
)
    ensures
        forall|j: int|
            0 <= j < hooks.len() ==> spec_sync_all(external_dir, shell, hooks, files).contains_key(
                spec_join(external_dir, (#[trigger] hooks[j]).0),
            ) && seq_contains_seq(
                spec_sync_all(external_dir, shell, hooks, files)[spec_join(external_dir, hooks[j].0)],
                hooks[j].1,
            ),
    decreases hooks.len(),
{
    if hooks.len() > 0 {
        let prev = hooks.drop_last();
        lemma_all_run(external_dir, shell, prev, files);
        let before = spec_sync_all(external_dir, shell, prev, files);
        lemma_step_runs(external_dir, shell, hooks.last(), before);
        assert forall|j: int| 0 <= j < hooks.len() implies spec_sync_all(external_dir, shell, hooks, files).contains_key(
                spec_join(external_dir, (#[trigger] hooks[j]).0),
            ) && seq_contains_seq(
                spec_sync_all(external_dir, shell, hooks, files)[spec_join(external_dir, hooks[j].0)],
                hooks[j].1,
            ) by {
            if j < hooks.len() - 1 {
                assert(hooks[j] == prev[j]);
                let k = spec_join(external_dir, hooks[j].0);
                assert(before.contains_key(k) && seq_contains_seq(before[k], hooks[j].1));
            }
        }
    }
}

/// Syncing hooks whose files already run their commands changes nothing.
proof fn lemma_sync_noop(
    external_dir: Seq<char>,
    shell: ShellType,
    hooks: Seq<(Seq<char>, Seq<char>)>,
    files: Map<Seq<char>, Seq<char>>,
)
    requires
        forall|j: int|
            0 <= j < hooks.len() ==> files.contains_key(spec_join(external_dir, (#[trigger] hooks[j]).0))
                && seq_contains_seq(files[spec_join(external_dir, hooks[j].0)], hooks[j].1),
    ensures
        spec_sync_all(external_dir, shell, hooks, files) == files,
    decreases hooks.len(),
{
    if hooks.len() > 0 {
        let prev = hooks.drop_last();
        assert forall|j: int| 0 <= j < prev.len() implies files.contains_key(
            spec_join(external_dir, (#[trigger] prev[j]).0),
        ) && seq_contains_seq(files[spec_join(external_dir, prev[j].0)], prev[j].1) by {
            assert(prev[j] == hooks[j]);
        }
        lemma_sync_noop(external_dir, shell, prev, files);
        let last = hooks.last();
        assert(last == hooks[hooks.len() - 1]);
    }
}

/// Syncing the hooks a second time changes no file: every hook's file in
/// the VCS already runs its generated script, whether it was created,
/// extended or left as it was.
pub proof fn lemma_sync_all_idempotent(
    external_dir: Seq<char>,
    shell: ShellType,
    hooks: Seq<(Seq<char>, Seq<char>)>,
    files: Map<Seq<char>, Seq<char>>,
)
    ensures
        spec_sync_all(external_dir, shell, hooks, spec_sync_all(external_dir, shell, hooks, files))
            == spec_sync_all(external_dir, shell, hooks, files),
{
    lemma_all_run(external_dir, shell, hooks, files);
    lemma_sync_noop(external_dir, shell, hooks, spec_sync_all(external_dir, shell, hooks, files));
}

} // verus!
