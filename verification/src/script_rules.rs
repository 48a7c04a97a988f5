//! The textual rules by which package scripts are classified: which scripts
//! start development servers, which arguments set environment variables or
//! name outputs, and which shell constructs are refused.

use vstd::prelude::*;
use crate::text::{chars_of, str_eq, string_of, matches_at, occurs_at, seq_contains_seq, seq_starts_with, vec_contains, vec_eq, vec_has_char, vec_skip, vec_starts_with};

verus! {

/// Unicode white space (the `White_Space` property).
pub open spec fn is_space(c: char) -> bool {
    ||| ('\u{9}' <= c && c <= '\u{d}')
    ||| c == ' '
    ||| c == '\u{85}'
    ||| c == '\u{a0}'
    ||| c == '\u{1680}'
    ||| ('\u{2000}' <= c && c <= '\u{200a}')
    ||| c == '\u{2028}'
    ||| c == '\u{2029}'
    ||| c == '\u{202f}'
    ||| c == '\u{205f}'
    ||| c == '\u{3000}'
}

pub fn space(c: char) -> (r: bool)
    ensures
        r == is_space(c),
{
    ('\u{9}' <= c && c <= '\u{d}') || c == ' ' || c == '\u{85}' || c == '\u{a0}' || c
        == '\u{1680}' || ('\u{2000}' <= c && c <= '\u{200a}') || c == '\u{2028}' || c
        == '\u{2029}' || c == '\u{202f}' || c == '\u{205f}' || c == '\u{3000}'
}

/// Whether a character is a Unicode word character (`\w`): one that is
/// `Alphabetic` or `Join_Control`, or of the general category
/// `Decimal_Number`, `Mark` or `Connector_Punctuation`.
pub uninterp spec fn is_word_char(c: char) -> bool;

/// Calls `regex_syntax::is_word_character`, the class that a Unicode `\b`
/// of the `regex` crate tests. The contract claims only that the answer is
/// the one named `is_word_char` for this character; which characters are
/// word characters is the crate's Unicode table and is not stated here.
/// The `unicode-perl` feature is enabled, so the call does not panic.
#[verifier::external_body]
fn word_char(c: char) -> (r: bool)
    ensures
        r == is_word_char(c),
{
    regex_syntax::is_word_character(c)
}

/// Asks for help or version output: `--help` or `--version` occurs.
pub open spec fn is_info_script(s: Seq<char>) -> bool {
    seq_contains_seq(s, "--help"@) || seq_contains_seq(s, "--version"@)
}

/// `parcel ` followed by a character other than one of `build`.
pub open spec fn has_parcel_dev(s: Seq<char>) -> bool {
    exists|i: int|
        occurs_at(s, "parcel "@, i) && i + 7 < s.len() && !"build"@.contains(#[trigger] s[i + 7])
}

/// The command of a well known development server or watcher occurs.
pub open spec fn is_dev_command(s: Seq<char>) -> bool {
    ||| seq_contains_seq(s, "concurrently"@)
    ||| seq_contains_seq(s, "gatsby new"@)
    ||| seq_contains_seq(s, "gatsby dev"@)
    ||| seq_contains_seq(s, "gatsby serve"@)
    ||| seq_contains_seq(s, "gatsby repl"@)
    ||| seq_contains_seq(s, "next dev"@)
    ||| seq_contains_seq(s, "next start"@)
    ||| has_parcel_dev(s)
    ||| seq_contains_seq(s, "react-scripts start"@)
    ||| seq_contains_seq(s, "snowpack dev"@)
    ||| seq_contains_seq(s, "vite dev"@)
    ||| seq_contains_seq(s, "vite preview"@)
    ||| seq_contains_seq(s, "vite serve"@)
    ||| seq_contains_seq(s, "vue-cli-service serve"@)
    ||| seq_contains_seq(s, "webpack s"@)
    ||| seq_contains_seq(s, "webpack w"@)
    ||| seq_contains_seq(s, "webpack -"@)
}

/// A bare bundler invocation, optionally through `npx`, `yarn dlx` or
/// `pnpm dlx`.
pub open spec fn is_dev_command_solo(s: Seq<char>) -> bool {
    let tool = |t: Seq<char>| t == "parcel"@ || t == "vite"@ || t == "webpack"@;
    ||| tool(s)
    ||| (seq_starts_with(s, "npx "@) && tool(s.skip(4)))
    ||| (seq_starts_with(s, "yarn dlx "@) && tool(s.skip(9)))
    ||| (seq_starts_with(s, "pnpm dlx "@) && tool(s.skip(9)))
}

/// Whether a script runs in CI: information requests always do; watchers
/// and development servers do not.
pub open spec fn spec_should_run_in_ci(s: Seq<char>) -> bool {
    is_info_script(s) || !(seq_contains_seq(s, "--watch"@) || is_dev_command(s)
        || is_dev_command_solo(s))
}

fn contains(v: &Vec<char>, p: &str) -> (r: bool)
    ensures
        r == seq_contains_seq(v@, p@),
{
    vec_contains(v, &chars_of(p))
}

fn has_parcel(v: &Vec<char>) -> (r: bool)
    ensures
        r == has_parcel_dev(v@),
{
    let p = chars_of("parcel ");
    let b = chars_of("build");
    let mut i: usize = 0;
    while i < v.len()
        invariant
            i <= v.len(),
            p@ == "parcel "@,
            b@ == "build"@,
            forall|k: int|
                0 <= k < i ==> !(occurs_at(v@, "parcel "@, k) && k + 7 < v@.len()
                    && !"build"@.contains(#[trigger] v@[k + 7])),
        decreases v.len() - i,
    {
        if matches_at(v, &p, i) && v.len() - i > 7 && !vec_has_char(&b, v[i + 7]) {
            return true;
        }
        i = i + 1;
    }
    false
}

/// Whether the script starts a development server or a watcher.
pub fn dev_command(v: &Vec<char>) -> (r: bool)
    ensures
        r == is_dev_command(v@),
{
    contains(v, "concurrently") || contains(v, "gatsby new") || contains(v, "gatsby dev")
        || contains(v, "gatsby serve") || contains(v, "gatsby repl") || contains(v, "next dev")
        || contains(v, "next start") || has_parcel(v) || contains(v, "react-scripts start")
        || contains(v, "snowpack dev") || contains(v, "vite dev") || contains(v, "vite preview")
        || contains(v, "vite serve") || contains(v, "vue-cli-service serve") || contains(
        v,
        "webpack s",
    ) || contains(v, "webpack w") || contains(v, "webpack -")
}

fn is_tool(v: &Vec<char>, from: usize) -> (r: bool)
    requires
        from <= v.len(),
    ensures
        r == (v@.skip(from as int) == "parcel"@ || v@.skip(from as int) == "vite"@
            || v@.skip(from as int) == "webpack"@),
{
    let rest = vec_skip(v, from);
    let a = chars_of("parcel");
    let b = chars_of("vite");
    let c = chars_of("webpack");
    vec_eq(&rest, &a) || vec_eq(&rest, &b) || vec_eq(&rest, &c)
}

/// Whether the script is a bare bundler invocation.
pub fn dev_command_solo(v: &Vec<char>) -> (r: bool)
    ensures
        r == is_dev_command_solo(v@),
{
    let npx = chars_of("npx ");
    let yarn = chars_of("yarn dlx ");
    let pnpm = chars_of("pnpm dlx ");
    proof {
        reveal_strlit("npx ");
        reveal_strlit("yarn dlx ");
        reveal_strlit("pnpm dlx ");
        assert(v@.skip(0) =~= v@);
    }
    is_tool(v, 0) || (vec_starts_with(v, &npx) && is_tool(v, 4)) || (vec_starts_with(v, &yarn)
        && is_tool(v, 9)) || (vec_starts_with(v, &pnpm) && is_tool(v, 9))
}

/// Whether a script should run in continuous integration.
pub fn should_run_in_ci(script: &str) -> (r: bool)
    ensures
        r == spec_should_run_in_ci(script@),
{
    let v = chars_of(script);
    if contains(&v, "--help") || contains(&v, "--version") {
        return true;
    }
    if contains(&v, "--watch") || dev_command(&v) || dev_command_solo(&v) {
        return false;
    }
    true
}

/// Characters allowed in an environment variable name: `A`-`Z`, digits, `_`.
pub open spec fn is_env_name_char(c: char) -> bool {
    ('A' <= c && c <= 'Z') || ('0' <= c && c <= '9') || c == '_'
}

/// An argument that assigns an environment variable: a non-empty run of
/// name characters followed by `=`.
pub open spec fn is_env_var_arg(s: Seq<char>) -> bool {
    exists|k: int|
        1 <= k < s.len() && s[k] == '=' && (forall|j: int| 0 <= j < k ==> is_env_name_char(
            #[trigger] s[j],
        ))
}

pub fn env_var_arg(s: &Vec<char>) -> (r: bool)
    ensures
        r == is_env_var_arg(s@),
{
    let mut k: usize = 0;
    while k < s.len() && (('A' <= s[k] && s[k] <= 'Z') || ('0' <= s[k] && s[k] <= '9') || s[k]
        == '_')
        invariant
            k <= s.len(),
            forall|j: int| 0 <= j < k ==> is_env_name_char(#[trigger] s@[j]),
        decreases s.len() - k,
    {
        k = k + 1;
    }
    let r = k >= 1 && k < s.len() && s[k] == '=';
    assert(r ==> is_env_var_arg(s@));
    assert(is_env_var_arg(s@) ==> r) by {
        if is_env_var_arg(s@) {
            let w = choose|w: int|
                1 <= w < s@.len() && s@[w] == '=' && (forall|j: int|
                    0 <= j < w ==> is_env_name_char(#[trigger] s@[j]));
            if w < k {
                assert(is_env_name_char(s@[w]));
            }
            if w > k {
                assert(is_env_name_char(s@[k as int]));
            }
        }
    }
    r
}

/// `t` spells the word given in lower case as `lo` and upper case as `up`,
/// each letter in either case.
pub open spec fn ci_eq(t: Seq<char>, lo: Seq<char>, up: Seq<char>) -> bool {
    t.len() == lo.len() && forall|i: int|
        0 <= i < t.len() ==> (#[trigger] t[i] == lo[i] || t[i] == up[i])
}

/// The suffix of an output flag after its base word: nothing, or `dir` or
/// `file` in any case, optionally after one `-`.
pub open spec fn is_flag_suffix(t: Seq<char>) -> bool {
    ||| t.len() == 0
    ||| ci_eq(t, "dir"@, "DIR"@)
    ||| ci_eq(t, "file"@, "FILE"@)
    ||| (t.len() > 0 && t[0] == '-' && (ci_eq(t.skip(1), "dir"@, "DIR"@) || ci_eq(
        t.skip(1),
        "file"@,
        "FILE"@,
    )))
}

/// An argument that names an output location: `-o`, or `--out`, `--output`
/// or `--dist` with an optional `dir`/`file` suffix.
pub open spec fn is_output_flag(s: Seq<char>) -> bool {
    ||| s == "-o"@
    ||| (seq_starts_with(s, "--"@) && {
        ||| (seq_starts_with(s.skip(2), "out"@) && is_flag_suffix(s.skip(5)))
        ||| (seq_starts_with(s.skip(2), "output"@) && is_flag_suffix(s.skip(8)))
        ||| (seq_starts_with(s.skip(2), "dist"@) && is_flag_suffix(s.skip(6)))
    })
}

fn ci_word(t: &Vec<char>, lo: &Vec<char>, up: &Vec<char>) -> (r: bool)
    requires
        lo@.len() == up@.len(),
    ensures
        r == ci_eq(t@, lo@, up@),
{
    if t.len() != lo.len() {
        return false;
    }
    let mut i: usize = 0;
    while i < t.len()
        invariant
            t.len() == lo.len() == up.len(),
            i <= t.len(),
            forall|j: int| 0 <= j < i ==> (#[trigger] t@[j] == lo@[j] || t@[j] == up@[j]),
        decreases t.len() - i,
    {
        if t[i] != lo[i] && t[i] != up[i] {
            return false;
        }
        i = i + 1;
    }
    true
}

fn flag_suffix(t: &Vec<char>) -> (r: bool)
    ensures
        r == is_flag_suffix(t@),
{
    let dir = chars_of("dir");
    let dir_up = chars_of("DIR");
    let file = chars_of("file");
    let file_up = chars_of("FILE");
    proof {
        reveal_strlit("dir");
        reveal_strlit("DIR");
        reveal_strlit("file");
        reveal_strlit("FILE");
    }
    if t.len() == 0 {
        return true;
    }
    if ci_word(t, &dir, &dir_up) || ci_word(t, &file, &file_up) {
        return true;
    }
    if t[0] == '-' {
        let rest = vec_skip(t, 1);
        return ci_word(&rest, &dir, &dir_up) || ci_word(&rest, &file, &file_up);
    }
    false
}

fn flag_after(s: &Vec<char>, word: &str) -> (r: bool)
    requires
        seq_starts_with(s@, "--"@),
        "--"@.len() == 2,
    ensures
        r == (seq_starts_with(s@.skip(2), word@) && is_flag_suffix(s@.skip(2 + word@.len() as int))),
{
    let rest = vec_skip(s, 2);
    let w = chars_of(word);
    if vec_starts_with(&rest, &w) {
        let tail = vec_skip(&rest, w.len());
        assert(tail@ =~= s@.skip(2 + word@.len() as int));
        flag_suffix(&tail)
    } else {
        false
    }
}

pub fn output_flag(s: &Vec<char>) -> (r: bool)
    ensures
        r == is_output_flag(s@),
{
    let o = chars_of("-o");
    if vec_eq(s, &o) {
        return true;
    }
    let dd = chars_of("--");
    proof {
        reveal_strlit("--");
        reveal_strlit("out");
        reveal_strlit("output");
        reveal_strlit("dist");
    }
    if !vec_starts_with(s, &dd) {
        return false;
    }
    flag_after(s, "out") || flag_after(s, "output") || flag_after(s, "dist")
}

/// A Windows drive prefix: an upper case letter and `:`.
pub open spec fn is_win_drive(s: Seq<char>) -> bool {
    s.len() >= 2 && 'A' <= s[0] <= 'Z' && s[1] == ':'
}

pub fn win_drive(s: &Vec<char>) -> (r: bool)
    ensures
        r == is_win_drive(s@),
{
    s.len() >= 2 && 'A' <= s[0] && s[0] <= 'Z' && s[1] == ':'
}

/// Commands that run a system binary rather than a Node.js one.
pub open spec fn is_system_command(s: Seq<char>) -> bool {
    ||| s == "bash"@
    ||| s == "cp"@
    ||| s == "echo"@
    ||| s == "find"@
    ||| s == "git"@
    ||| s == "make"@
    ||| s == "mkdir"@
    ||| s == "rm"@
    ||| s == "rsync"@
    ||| s == "svn"@
}

pub fn system_command(s: &str) -> (r: bool)
    ensures
        r == is_system_command(s@),
{
    str_eq(s, "bash") || str_eq(s, "cp") || str_eq(s, "echo") || str_eq(s, "find") || str_eq(
        s,
        "git",
    ) || str_eq(s, "make") || str_eq(s, "mkdir") || str_eq(s, "rm") || str_eq(s, "rsync")
        || str_eq(s, "svn")
}

/// A script that runs another script through a package manager.
pub open spec fn is_pm_run(s: Seq<char>) -> bool {
    seq_contains_seq(s, "npm run"@) || seq_contains_seq(s, "pnpm run"@) || seq_contains_seq(
        s,
        "yarn run"@,
    )
}

pub fn pm_run(s: &Vec<char>) -> (r: bool)
    ensures
        r == is_pm_run(s@),
{
    contains(s, "npm run") || contains(s, "pnpm run") || contains(s, "yarn run")
}

/// Package manager life cycle script names.
pub open spec fn is_life_cycle(s: Seq<char>) -> bool {
    ||| s == "prepare"@
    ||| s == "prepublish"@
    ||| s == "prepublishOnly"@
    ||| s == "publish"@
    ||| s == "prepack"@
    ||| s == "pack"@
    ||| s == "postpack"@
    ||| s == "preinstall"@
    ||| s == "install"@
    ||| s == "postinstall"@
    ||| s == "preversion"@
    ||| s == "version"@
    ||| s == "postversion"@
    ||| s == "dependencies"@
}

pub fn life_cycle(s: &str) -> (r: bool)
    ensures
        r == is_life_cycle(s@),
{
    str_eq(s, "prepare") || str_eq(s, "prepublish") || str_eq(s, "prepublishOnly") || str_eq(
        s,
        "publish",
    ) || str_eq(s, "prepack") || str_eq(s, "pack") || str_eq(s, "postpack") || str_eq(
        s,
        "preinstall",
    ) || str_eq(s, "install") || str_eq(s, "postinstall") || str_eq(s, "preversion") || str_eq(
        s,
        "version",
    ) || str_eq(s, "postversion") || str_eq(s, "dependencies")
}

/// A `cd ` that starts the script or follows a non-word character.
pub open spec fn has_cd(s: Seq<char>) -> bool {
    exists|i: int|
        #[trigger] occurs_at(s, "cd "@, i) && (i == 0 || !is_word_char(s[i - 1]))
}

pub fn cd_command(s: &Vec<char>) -> (r: bool)
    ensures
        r == has_cd(s@),
{
    let p = chars_of("cd ");
    let mut i: usize = 0;
    while i < s.len()
        invariant
            i <= s.len(),
            p@ == "cd "@,
            forall|k: int|
                0 <= k < i ==> !(#[trigger] occurs_at(s@, "cd "@, k) && (k == 0 || !is_word_char(
                    s@[k - 1],
                ))),
        decreases s.len() - i,
    {
        if matches_at(s, &p, i) && (i == 0 || !word_char(s[i - 1])) {
            return true;
        }
        i = i + 1;
    }
    proof {
        reveal_strlit("cd ");
    }
    false
}

/// `op` occurs at `i` with white space on both sides.
pub open spec fn spaced_at(s: Seq<char>, op: Seq<char>, i: int) -> bool {
    &&& 1 <= i
    &&& occurs_at(s, op, i)
    &&& i + op.len() < s.len()
    &&& is_space(s[i - 1])
    &&& is_space(s[i + op.len()])
}

/// `op` occurs with white space on both sides.
pub open spec fn has_spaced(s: Seq<char>, op: Seq<char>) -> bool {
    exists|i: int| #[trigger] spaced_at(s, op, i)
}

fn spaced(s: &Vec<char>, op: &str) -> (r: bool)
    ensures
        r == has_spaced(s@, op@),
{
    let p = chars_of(op);
    let mut i: usize = 1;
    if s.len() == 0 {
        return false;
    }
    while i < s.len()
        invariant
            1 <= i <= s.len(),
            p@ == op@,
            forall|k: int| k < i ==> !#[trigger] spaced_at(s@, op@, k),
        decreases s.len() - i,
    {
        if matches_at(s, &p, i) && s.len() - i > p.len() && space(s[i - 1]) && space(
            s[i + p.len()],
        ) {
            assert(spaced_at(s@, op@, i as int));
            return true;
        }
        i = i + 1;
    }
    false
}

/// A redirection (`<`, `<<`, `>>` or `>`) between white space.
pub open spec fn has_redirect(s: Seq<char>) -> bool {
    has_spaced(s, "<"@) || has_spaced(s, "<<"@) || has_spaced(s, ">>"@) || has_spaced(s, ">"@)
}

pub fn redirect(s: &Vec<char>) -> (r: bool)
    ensures
        r == has_redirect(s@),
{
    spaced(s, "<") || spaced(s, "<<") || spaced(s, ">>") || spaced(s, ">")
}

/// A pipe `|` between white space.
pub open spec fn has_pipe(s: Seq<char>) -> bool {
    has_spaced(s, "|"@)
}

pub fn pipe(s: &Vec<char>) -> (r: bool)
    ensures
        r == has_pipe(s@),
{
    spaced(s, "|")
}

/// An `||` or `;;` operator between white space.
pub open spec fn has_operator(s: Seq<char>) -> bool {
    has_spaced(s, "||"@) || has_spaced(s, ";;"@)
}

pub fn operator(s: &Vec<char>) -> (r: bool)
    ensures
        r == has_operator(s@),
{
    spaced(s, "||") || spaced(s, ";;")
}

/// Characters allowed in a task identifier.
pub open spec fn is_id_char(c: char) -> bool {
    ('a' <= c && c <= 'z') || ('A' <= c && c <= 'Z') || ('0' <= c && c <= '9') || c == '-' || c
        == '_'
}

/// A script name made into a task identifier: each run of characters that
/// are not allowed becomes one `-`.
pub open spec fn spec_clean_script_name(s: Seq<char>) -> Seq<char>
    decreases s.len(),
{
    if s.len() == 0 {
        Seq::empty()
    } else {
        let t = s.drop_last();
        let c = s.last();
        if is_id_char(c) {
            spec_clean_script_name(t).push(c)
        } else if t.len() > 0 && !is_id_char(t.last()) {
            spec_clean_script_name(t)
        } else {
            spec_clean_script_name(t).push('-')
        }
    }
}

/// Makes a script name into a task identifier.
pub fn clean_script_name(name: &str) -> (r: String)
    ensures
        r@ == spec_clean_script_name(name@),
{
    let v = chars_of(name);
    let mut out: Vec<char> = Vec::new();
    let mut i: usize = 0;
    while i < v.len()
        invariant
            i <= v.len(),
            out@ == spec_clean_script_name(v@.take(i as int)),
        decreases v.len() - i,
    {
        let c = v[i];
        let ok = ('a' <= c && c <= 'z') || ('A' <= c && c <= 'Z') || ('0' <= c && c <= '9') || c
            == '-' || c == '_';
        assert(v@.take(i + 1).drop_last() =~= v@.take(i as int));
        if ok {
            out.push(c);
        } else if i > 0 && !(('a' <= v[i - 1] && v[i - 1] <= 'z') || ('A' <= v[i - 1] && v[i
            - 1] <= 'Z') || ('0' <= v[i - 1] && v[i - 1] <= '9') || v[i - 1] == '-' || v[i - 1]
            == '_') {
        } else {
            out.push('-');
        }
        i = i + 1;
    }
    assert(v@.take(v.len() as int) =~= v@);
    string_of(&out)
}

} // verus!
