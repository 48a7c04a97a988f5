//! Queries of the workspace: the lines of a hash diff, and the listings of
//! projects, tasks (grouped by project) and touched files.

use vstd::prelude::*;
use crate::kv::{get, has_key, key_index, kv_index, lemma_key_index_unique};
use crate::ordered::{
    keys_ordered, keys_sorted, lemma_get_update, lemma_represents_stored, lemma_sorted_unique, represents,
    sort_by_key, sorted_upsert, stored,
};
use crate::target::{ScopeView, Target, TargetScope, TargetView};
use crate::text::{join_strings, spec_join_sep, spec_trim, trim_str};
use vstd::string::StringExecFns;

verus! {

/// The arguments of the hash query.
#[derive(Clone, Debug, PartialEq, Eq)]
pub struct QueryHashArgs {
    pub hash: String,
    pub json: bool,
}

/// The arguments of the hash diff query.
#[derive(Clone, Debug, PartialEq, Eq)]
pub struct QueryHashDiffArgs {
    pub left: String,
    pub right: String,
    pub json: bool,
}

/// A line of a diff: only on the left, on both sides, or only on the right.
#[derive(Clone, Debug, PartialEq, Eq)]
pub enum DiffLine {
    Left(String),
    Both(String, String),
    Right(String),
}

pub enum DiffLineView {
    Left(Seq<char>),
    Both(Seq<char>, Seq<char>),
    Right(Seq<char>),
}

impl DeepView for DiffLine {
    type V = DiffLineView;

    open spec fn deep_view(&self) -> DiffLineView {
        match self {
            DiffLine::Left(l) => DiffLineView::Left(l@),
            DiffLine::Both(l, r) => DiffLineView::Both(l@, r@),
            DiffLine::Right(r) => DiffLineView::Right(r@),
        }
    }
}

/// The line diff of two texts, as the diff algorithm computes it.
pub uninterp spec fn line_diff(left: Seq<char>, right: Seq<char>) -> Seq<DiffLineView>;

/// Computes the line diff of two texts with `diff::lines`, the longest
/// common subsequence of their lines. Claimed: the outcome is a function
/// of the two texts alone, named `line_diff`; each line is taken as its
/// text.
#[verifier::external_body]
fn diff_lines(left: &str, right: &str) -> (r: Vec<DiffLine>)
    ensures
        r.deep_view() == line_diff(left@, right@),
{
    diff::lines(left, right).into_iter().map(|d| match d {
        diff::Result::Left(l) => DiffLine::Left(l.to_string()),
        diff::Result::Both(l, r) => DiffLine::Both(l.to_string(), r.to_string()),
        diff::Result::Right(r) => DiffLine::Right(r.to_string()),
    }).collect()
}

/// The trimmed lines only on the left among the first `n`.
pub open spec fn spec_left_diffs(d: Seq<DiffLineView>, n: nat) -> Seq<Seq<char>>
    decreases n,
{
    if n == 0 {
        Seq::empty()
    } else {
        let acc = spec_left_diffs(d, (n - 1) as nat);
        match d[n - 1] {
            DiffLineView::Left(l) => acc.push(spec_trim(l)),
            _ => acc,
        }
    }
}

/// The trimmed lines only on the right among the first `n`.
pub open spec fn spec_right_diffs(d: Seq<DiffLineView>, n: nat) -> Seq<Seq<char>>
    decreases n,
{
    if n == 0 {
        Seq::empty()
    } else {
        let acc = spec_right_diffs(d, (n - 1) as nat);
        match d[n - 1] {
            DiffLineView::Right(r) => acc.push(spec_trim(r)),
            _ => acc,
        }
    }
}

/// The lines that differ, trimmed: those only on the left, and those only
/// on the right, each in order.
pub fn diff_lists(diffs: &Vec<DiffLine>) -> (r: (Vec<String>, Vec<String>))
    ensures
        r.0.deep_view() == spec_left_diffs(diffs.deep_view(), diffs.deep_view().len()),
        r.1.deep_view() == spec_right_diffs(diffs.deep_view(), diffs.deep_view().len()),
{
    let mut left: Vec<String> = Vec::new();
    let mut right: Vec<String> = Vec::new();
    assert(left.deep_view() =~= Seq::<Seq<char>>::empty());
    assert(right.deep_view() =~= Seq::<Seq<char>>::empty());
    let mut i: usize = 0;
    while i < diffs.len()
        invariant
            i <= diffs.len(),
            left.deep_view() == spec_left_diffs(diffs.deep_view(), i as nat),
            right.deep_view() == spec_right_diffs(diffs.deep_view(), i as nat),
        decreases diffs.len() - i,
    {
        assert(diffs.deep_view()[i as int] == diffs[i as int].deep_view());
        match &diffs[i] {
            DiffLine::Left(l) => {
                let ghost before = left.deep_view();
                left.push(trim_str(l.as_str()));
                assert(left.deep_view() =~= before.push(spec_trim(l@)));
            },
            DiffLine::Right(r) => {
                let ghost before = right.deep_view();
                right.push(trim_str(r.as_str()));
                assert(right.deep_view() =~= before.push(spec_trim(r@)));
            },
            DiffLine::Both(_, _) => {},
        }
        i = i + 1;
    }
    (left, right)
}

/// The lines that differ between two hash manifests, trimmed: those only
/// in the left, and those only in the right.
pub fn hash_diff_lists(left: &str, right: &str) -> (r: (Vec<String>, Vec<String>))
    ensures
        r.0.deep_view() == spec_left_diffs(line_diff(left@, right@), line_diff(left@, right@).len()),
        r.1.deep_view() == spec_right_diffs(line_diff(left@, right@), line_diff(left@, right@).len()),
{
    let d = diff_lines(left, right);
    diff_lists(&d)
}

/// A diff line as plain text: `+` for a line only on the left, a space for
/// a line on both sides, `-` for a line only on the right.
pub open spec fn spec_diff_text(d: DiffLineView) -> Seq<char> {
    match d {
        DiffLineView::Left(l) => "+"@ + l,
        DiffLineView::Both(l, _) => " "@ + l,
        DiffLineView::Right(r) => "-"@ + r,
    }
}

pub open spec fn diff_text_fn() -> spec_fn(DiffLineView) -> Seq<char> {
    |d: DiffLineView| spec_diff_text(d)
}

/// A diff line as plain text.
pub fn diff_line_text(d: &DiffLine) -> (r: String)
    ensures
        r@ == spec_diff_text(d.deep_view()),
{
    match d {
        DiffLine::Left(l) => "+".to_owned().concat(l.as_str()),
        DiffLine::Both(l, _) => " ".to_owned().concat(l.as_str()),
        DiffLine::Right(r) => "-".to_owned().concat(r.as_str()),
    }
}

/// The plain text lines of the diff of two hash manifests.
pub fn hash_diff_text(left: &str, right: &str) -> (r: Vec<String>)
    ensures
        r.deep_view() == line_diff(left@, right@).map_values(diff_text_fn()),
{
    let d = diff_lines(left, right);
    let mut out: Vec<String> = Vec::new();
    let mut i: usize = 0;
    while i < d.len()
        invariant
            i <= d.len(),
            d.deep_view() == line_diff(left@, right@),
            out.deep_view() =~= d.deep_view().take(i as int).map_values(diff_text_fn()),
        decreases d.len() - i,
    {
        assert(d.deep_view()[i as int] == d[i as int].deep_view());
        let ghost before = out.deep_view();
        out.push(diff_line_text(&d[i]));
        assert(out.deep_view() =~= before.push(spec_diff_text(d.deep_view()[i as int])));
        assert(d.deep_view().take(i + 1).map_values(diff_text_fn()) =~= d.deep_view().take(i as int).map_values(diff_text_fn()).push(spec_diff_text(d.deep_view()[i as int])));
        i = i + 1;
    }
    assert(d.deep_view().take(i as int) =~= d.deep_view());
    out
}

/// A text painted in the 256-colour palette entry `code`, as `owo-colors`
/// writes it: the colour's escape, the text, then the reset escape.
pub open spec fn painted(v: Seq<char>, code: Seq<char>) -> Seq<char> {
    "\u{1b}[38;5;"@ + code + "m"@ + v + "\u{1b}[0m"@
}

/// What painting a text green gives: the text as it is where colours are
/// off, else the text in the green of the dark or of the light theme.
pub open spec fn green_outcome(v: Seq<char>, r: Seq<char>) -> bool {
    r == v || r == painted(v, "41"@) || r == painted(v, "28"@)
}

/// What painting a text red gives: the text as it is where colours are
/// off, else the text in the red of the dark or of the light theme.
pub open spec fn red_outcome(v: Seq<char>, r: Seq<char>) -> bool {
    r == v || r == painted(v, "161"@) || r == painted(v, "160"@)
}

/// Calls `starbase_styles::color::success`. Whether it paints, and in which
/// theme's green, depends on the environment (`NO_COLOR`, the terminal, the
/// theme), so the contract claims only what holds of every outcome.
#[verifier::external_body]
fn paint_success(v: &str) -> (r: String)
    ensures
        green_outcome(v@, r@),
{
    starbase_styles::color::success(v)
}

/// Calls `starbase_styles::color::failure`; the contract claims what holds
/// of every outcome, as for `paint_success`, in red.
#[verifier::external_body]
fn paint_failure(v: &str) -> (r: String)
    ensures
        red_outcome(v@, r@),
{
    starbase_styles::color::failure(v)
}

/// Calls `starbase_styles::color::hash`, which paints in the same green as
/// `success`; the contract claims what holds of every outcome.
#[verifier::external_body]
fn paint_hash(v: &str) -> (r: String)
    ensures
        green_outcome(v@, r@),
{
    starbase_styles::color::hash(v)
}

/// What a diff line may be written as. Off a terminal it is the plain text
/// line. On a terminal a line only on the left is painted green, a line only
/// on the right red, and a line on both sides is written as it is.
pub open spec fn diff_output_ok(d: DiffLineView, is_tty: bool, r: Seq<char>) -> bool {
    if !is_tty {
        r == spec_diff_text(d)
    } else {
        match d {
            DiffLineView::Left(l) => green_outcome(l, r),
            DiffLineView::Both(l, _) => r == l,
            DiffLineView::Right(x) => red_outcome(x, r),
        }
    }
}

/// A diff line as the hash diff writes it, on a terminal or not.
pub fn diff_line_output(d: &DiffLine, is_tty: bool) -> (r: String)
    ensures
        diff_output_ok(d.deep_view(), is_tty, r@),
{
    if !is_tty {
        return diff_line_text(d);
    }
    match d {
        DiffLine::Left(l) => paint_success(l.as_str()),
        DiffLine::Both(l, _) => l.clone(),
        DiffLine::Right(r) => paint_failure(r.as_str()),
    }
}

/// The lines the hash diff writes: `Left:  ` and `Right: ` with the hashes
/// painted, an empty line, then one line for each line of the diff of the
/// two manifests, in order.
pub fn hash_diff_output(left_hash: &str, right_hash: &str, left: &str, right: &str, is_tty: bool) -> (r: Vec<String>)
    ensures
        r.len() == line_diff(left@, right@).len() + 3,
        r[0]@.take(7) == "Left:  "@ && green_outcome(left_hash@, r[0]@.skip(7)),
        r[1]@.take(7) == "Right: "@ && green_outcome(right_hash@, r[1]@.skip(7)),
        r[2]@ == Seq::<char>::empty(),
        forall|i: int|
            0 <= i < line_diff(left@, right@).len() ==> diff_output_ok(
                #[trigger] line_diff(left@, right@)[i],
                is_tty,
                r[i + 3]@,
            ),
{
    let mut out: Vec<String> = Vec::new();
    let lh = paint_hash(left_hash);
    let first = "Left:  ".to_owned().concat(lh.as_str());
    proof {
        reveal_strlit("Left:  ");
        assert(first@.take(7) =~= "Left:  "@);
        assert(first@.skip(7) =~= lh@);
    }
    out.push(first);
    let rh = paint_hash(right_hash);
    let second = "Right: ".to_owned().concat(rh.as_str());
    proof {
        reveal_strlit("Right: ");
        assert(second@.take(7) =~= "Right: "@);
        assert(second@.skip(7) =~= rh@);
    }
    out.push(second);
    out.push(String::new());
    let d = diff_lines(left, right);
    let mut i: usize = 0;
    while i < d.len()
        invariant
            i <= d.len(),
            d.deep_view() == line_diff(left@, right@),
            out.len() == i + 3,
            out[0]@.take(7) == "Left:  "@ && green_outcome(left_hash@, out[0]@.skip(7)),
            out[1]@.take(7) == "Right: "@ && green_outcome(right_hash@, out[1]@.skip(7)),
            out[2]@ == Seq::<char>::empty(),
            forall|k: int| 0 <= k < i ==> diff_output_ok(#[trigger] d.deep_view()[k], is_tty, out[k + 3]@),
        decreases d.len() - i,
    {
        assert(d.deep_view()[i as int] == d[i as int].deep_view());
        let line = diff_line_output(&d[i], is_tty);
        out.push(line);
        i = i + 1;
    }
    out
}

/// A project as the projects query lists it.
#[derive(Clone, Debug, PartialEq, Eq)]
pub struct ProjectRow {
    pub id: String,
    pub source: String,
    pub stack: String,
    pub type_of: String,
    pub language: String,
    pub description: Option<String>,
}

pub struct ProjectRowView {
    pub id: Seq<char>,
    pub source: Seq<char>,
    pub stack: Seq<char>,
    pub type_of: Seq<char>,
    pub language: Seq<char>,
    pub description: Option<Seq<char>>,
}

impl DeepView for ProjectRow {
    type V = ProjectRowView;

    open spec fn deep_view(&self) -> ProjectRowView {
        ProjectRowView {
            id: self.id@,
            source: self.source@,
            stack: self.stack@,
            type_of: self.type_of@,
            language: self.language@,
            description: self.description.deep_view(),
        }
    }
}

pub open spec fn keyed_fn() -> spec_fn(ProjectRowView) -> (Seq<char>, ProjectRowView) {
    |p: ProjectRowView| (p.id, p)
}

pub open spec fn line_fn() -> spec_fn((Seq<char>, ProjectRowView)) -> Seq<char> {
    |e: (Seq<char>, ProjectRowView)| spec_project_line(e.1)
}

pub open spec fn or_dots(d: Option<Seq<char>>) -> Seq<char> {
    match d {
        Some(s) => s,
        None => "..."@,
    }
}

/// A project's line: its fields separated by ` | `, `...` for a missing
/// description.
pub open spec fn spec_project_line(p: ProjectRowView) -> Seq<char> {
    spec_join_sep(seq![p.id, p.source, p.stack, p.type_of, p.language, or_dots(p.description)], " | "@)
}

fn text_or_dots(d: &Option<String>) -> (r: String)
    ensures
        r@ == or_dots(d.deep_view()),
{
    match d {
        Some(s) => s.clone(),
        None => "...".to_owned(),
    }
}

/// A project's line.
pub fn project_line(p: &ProjectRow) -> (r: String)
    ensures
        r@ == spec_project_line(p.deep_view()),
{
    let mut fields: Vec<String> = Vec::new();
    fields.push(p.id.clone());
    fields.push(p.source.clone());
    fields.push(p.stack.clone());
    fields.push(p.type_of.clone());
    fields.push(p.language.clone());
    fields.push(text_or_dots(&p.description));
    assert(fields.deep_view() =~= seq![p.id@, p.source@, p.stack@, p.type_of@, p.language@, or_dots(p.description.deep_view())]);
    join_strings(&fields, " | ")
}

/// The listing of projects: their lines in the order of their
/// identifiers, one per line.
pub fn projects_listing(projects: Vec<ProjectRow>) -> (r: String)
    ensures
        exists|s: Seq<(Seq<char>, ProjectRowView)>|
            keys_ordered(s) && s.to_multiset() == projects.deep_view().map_values(keyed_fn()).to_multiset()
                && r@ == spec_join_sep(s.map_values(line_fn()), "\n"@),
{
    let ghost orig = projects.deep_view();
    let mut keyed: Vec<(String, ProjectRow)> = Vec::new();
    let mut rest = projects;
    let ghost mut taken: int = 0;
    assert(keyed.deep_view() =~= orig.take(0).map_values(keyed_fn()));
    while rest.len() > 0
        invariant
            0 <= taken <= orig.len(),
            rest.deep_view() =~= orig.skip(taken),
            keyed.deep_view() =~= orig.take(taken).map_values(keyed_fn()),
        decreases rest.len(),
    {
        assert(rest.deep_view().len() == orig.len() - taken);
        assert(rest.deep_view()[0] == rest[0].deep_view());
        let ghost rs = rest.deep_view();
        let p = rest.remove(0);
        assert(rest.deep_view() =~= rs.remove(0));
        assert(p.deep_view() == orig[taken]);
        let id = p.id.clone();
        let ghost before = keyed.deep_view();
        keyed.push((id, p));
        assert(keyed.deep_view() =~= before.push((orig[taken].id, orig[taken])));
        assert(orig.take(taken + 1) =~= orig.take(taken).push(orig[taken]));
        assert(orig.take(taken + 1).map_values(keyed_fn()) =~= orig.take(taken).map_values(keyed_fn()).push((orig[taken].id, orig[taken])));
        proof {
            taken = taken + 1;
        }
        assert(rest.deep_view() =~= orig.skip(taken));
    }
    assert(orig.take(taken) =~= orig);
    let sorted = sort_by_key(keyed);
    let mut lines: Vec<String> = Vec::new();
    let mut i: usize = 0;
    while i < sorted.len()
        invariant
            i <= sorted.len(),
            lines.deep_view() =~= sorted.deep_view().take(i as int).map_values(line_fn()),
        decreases sorted.len() - i,
    {
        assert(sorted.deep_view()[i as int].1 == sorted[i as int].1.deep_view());
        let ghost before = lines.deep_view();
        lines.push(project_line(&sorted[i].1));
        assert(lines.deep_view() =~= before.push(spec_project_line(sorted.deep_view()[i as int].1)));
        assert(sorted.deep_view().take(i + 1).map_values(line_fn()) =~= sorted.deep_view().take(i as int).map_values(line_fn()).push(spec_project_line(sorted.deep_view()[i as int].1)));
        i = i + 1;
    }
    assert(sorted.deep_view().take(i as int) =~= sorted.deep_view());
    join_strings(&lines, "\n")
}

pub open spec fn unit_key_fn() -> spec_fn(Seq<char>) -> (Seq<char>, ()) {
    |f: Seq<char>| (f, ())
}

pub open spec fn first_fn() -> spec_fn((Seq<char>, ())) -> Seq<char> {
    |e: (Seq<char>, ())| e.0
}

/// The listing of touched files: in order, one per line.
pub fn touched_files_listing(files: Vec<String>) -> (r: String)
    ensures
        exists|s: Seq<(Seq<char>, ())>|
            keys_ordered(s) && s.to_multiset() == files.deep_view().map_values(unit_key_fn()).to_multiset()
                && r@ == spec_join_sep(s.map_values(first_fn()), "\n"@),
{
    let ghost orig = files.deep_view();
    let mut keyed: Vec<(String, ())> = Vec::new();
    let mut i: usize = 0;
    while i < files.len()
        invariant
            i <= files.len(),
            orig == files.deep_view(),
            keyed.deep_view() =~= orig.take(i as int).map_values(unit_key_fn()),
        decreases files.len() - i,
    {
        assert(orig[i as int] == files[i as int]@);
        let ghost before = keyed.deep_view();
        keyed.push((files[i].clone(), ()));
        assert(keyed.deep_view() =~= before.push((orig[i as int], ())));
        assert(orig.take(i + 1) =~= orig.take(i as int).push(orig[i as int]));
        assert(orig.take(i + 1).map_values(unit_key_fn()) =~= orig.take(i as int).map_values(unit_key_fn()).push((orig[i as int], ())));
        i = i + 1;
    }
    assert(orig.take(i as int) =~= orig);
    let sorted = sort_by_key(keyed);
    let mut lines: Vec<String> = Vec::new();
    let mut j: usize = 0;
    while j < sorted.len()
        invariant
            j <= sorted.len(),
            lines.deep_view() =~= sorted.deep_view().take(j as int).map_values(first_fn()),
        decreases sorted.len() - j,
    {
        let ghost before = lines.deep_view();
        lines.push(sorted[j].0.clone());
        assert(lines.deep_view() =~= before.push(sorted.deep_view()[j as int].0));
        assert(sorted.deep_view().take(j + 1).map_values(first_fn()) =~= sorted.deep_view().take(j as int).map_values(first_fn()).push(sorted.deep_view()[j as int].0));
        j = j + 1;
    }
    assert(sorted.deep_view().take(j as int) =~= sorted.deep_view());
    join_strings(&lines, "\n")
}

/// A task as the tasks query lists it.
#[derive(Clone, Debug, PartialEq, Eq)]
pub struct TaskRow {
    pub target: Target,
    pub id: String,
    pub command: String,
    pub type_of: String,
    pub platform: String,
    pub description: Option<String>,
}

pub struct TaskRowView {
    pub target: TargetView,
    pub id: Seq<char>,
    pub command: Seq<char>,
    pub type_of: Seq<char>,
    pub platform: Seq<char>,
    pub description: Option<Seq<char>>,
}

impl DeepView for TaskRow {
    type V = TaskRowView;

    open spec fn deep_view(&self) -> TaskRowView {
        TaskRowView {
            target: self.target.deep_view(),
            id: self.id@,
            command: self.command@,
            type_of: self.type_of@,
            platform: self.platform@,
            description: self.description.deep_view(),
        }
    }
}

/// The project a task's target names, if it names one.
pub open spec fn task_project(t: TaskRowView) -> Option<Seq<char>> {
    match t.target.scope {
        ScopeView::Project(p) => Some(p),
        _ => None,
    }
}

pub type TaskGroups = Map<Seq<char>, Map<Seq<char>, TaskRowView>>;

/// The tasks of the first `n` grouped by project and by identifier; tasks
/// without a project are left out, a later task of the same project and
/// identifier replaces an earlier one.
pub open spec fn spec_group_tasks(tasks: Seq<TaskRowView>, n: nat) -> TaskGroups
    decreases n,
{
    if n == 0 {
        Map::empty()
    } else {
        let acc = spec_group_tasks(tasks, (n - 1) as nat);
        let t = tasks[n - 1];
        match task_project(t) {
            None => acc,
            Some(p) => acc.insert(
                p,
                if acc.dom().contains(p) {
                    acc[p]
                } else {
                    Map::empty()
                }.insert(t.id, t),
            ),
        }
    }
}

pub open spec fn group_ok(
    g: Option<Seq<(Seq<char>, TaskRowView)>>,
    m: TaskGroups,
    key: Seq<char>,
) -> bool {
    match g {
        Some(inner) => m.dom().contains(key) && keys_sorted(inner) && represents(inner, m[key]),
        None => !m.dom().contains(key),
    }
}

/// The nested sorted lists hold exactly the groups of `m`.
pub open spec fn groups_hold(r: Seq<(Seq<char>, Seq<(Seq<char>, TaskRowView)>)>, m: TaskGroups) -> bool {
    &&& keys_sorted(r)
    &&& forall|key: Seq<char>| group_ok(#[trigger] get(r, key), m, key)
}

proof fn lemma_groups_stored(
    before: Seq<(Seq<char>, Seq<(Seq<char>, TaskRowView)>)>,
    after: Seq<(Seq<char>, Seq<(Seq<char>, TaskRowView)>)>,
    m: TaskGroups,
    p: Seq<char>,
    inner: Seq<(Seq<char>, TaskRowView)>,
    g: Map<Seq<char>, TaskRowView>,
)
    requires
        groups_hold(before, m),
        keys_sorted(after),
        stored(before, after, p, inner),
        keys_sorted(inner),
        represents(inner, g),
    ensures
        groups_hold(after, m.insert(p, g)),
{
    assert forall|key: Seq<char>| group_ok(#[trigger] get(after, key), m.insert(p, g), key) by {
        assert(group_ok(get(before, key), m, key));
    }
}

proof fn lemma_represents_empty<W>()
    ensures
        represents(Seq::<(Seq<char>, W)>::empty(), Map::<Seq<char>, W>::empty()),
{
    assert forall|key: Seq<char>| #[trigger] get(Seq::<(Seq<char>, W)>::empty(), key) == if Map::<Seq<char>, W>::empty().dom().contains(key) {
        Some(Map::<Seq<char>, W>::empty()[key])
    } else {
        None
    } by {
        assert(!has_key(Seq::<(Seq<char>, W)>::empty(), key));
    }
}

/// Groups tasks by project, then by identifier, both in order.
pub fn group_tasks(tasks: Vec<TaskRow>) -> (r: Vec<(String, Vec<(String, TaskRow)>)>)
    ensures
        groups_hold(r.deep_view(), spec_group_tasks(tasks.deep_view(), tasks.deep_view().len())),
{
    let ghost orig = tasks.deep_view();
    let mut rest = tasks;
    let ghost mut taken: int = 0;
    let mut r: Vec<(String, Vec<(String, TaskRow)>)> = Vec::new();
    proof {
        assert(r.deep_view() =~= Seq::<(Seq<char>, Seq<(Seq<char>, TaskRowView)>)>::empty());
        assert forall|key: Seq<char>| group_ok(#[trigger] get(r.deep_view(), key), spec_group_tasks(orig, 0), key) by {
            assert(!has_key(r.deep_view(), key));
        }
        assert(orig.skip(0) =~= orig);
    }
    while rest.len() > 0
        invariant
            0 <= taken <= orig.len(),
            rest.deep_view() =~= orig.skip(taken),
            groups_hold(r.deep_view(), spec_group_tasks(orig, taken as nat)),
        decreases rest.len(),
    {
        let ghost m = spec_group_tasks(orig, taken as nat);
        assert(rest.deep_view().len() == orig.len() - taken);
        assert(rest.deep_view()[0] == rest[0].deep_view());
        let ghost rs = rest.deep_view();
        let t = rest.remove(0);
        assert(rest.deep_view() =~= rs.remove(0));
        let ghost tv = t.deep_view();
        assert(tv == orig[taken]);
        let pid: Option<String> = match &t.target.scope {
            TargetScope::Project(p) => Some(p.clone()),
            _ => None,
        };
        if let Some(p) = pid {
            let ghost old_r = r.deep_view();
            proof {
                lemma_sorted_unique(old_r);
            }
            match kv_index(&r, p.as_str()) {
                Some(k) => {
                    proof {
                        lemma_key_index_unique(old_r, p@, k as int);
                        assert(group_ok(get(old_r, p@), m, p@));
                    }
                    let (pk, mut inner) = r.remove(k);
                    assert(inner.deep_view() == old_r[k as int].1);
                    let ghost old_inner = inner.deep_view();
                    let tid = t.id.clone();
                    sorted_upsert(&mut inner, tid, t);
                    proof {
                        lemma_represents_stored(old_inner, inner.deep_view(), m[p@], tv.id, tv);
                    }
                    let ghost iv = inner.deep_view();
                    r.insert(k, (pk, inner));
                    proof {
                        assert(r.deep_view() =~= old_r.update(k as int, (p@, iv)));
                        lemma_get_update(old_r, k as int, p@, iv);
                        assert forall|i: int, j: int| 0 <= i < j < r.deep_view().len() implies crate::ordered::lex_lt(
                            #[trigger] r.deep_view()[i].0,
                            #[trigger] r.deep_view()[j].0,
                        ) by {
                            assert(r.deep_view()[i].0 == old_r[i].0 && r.deep_view()[j].0 == old_r[j].0);
                        }
                        lemma_groups_stored(old_r, r.deep_view(), m, p@, iv, m[p@].insert(tv.id, tv));
                    }
                },
                None => {
                    proof {
                        assert(group_ok(get(old_r, p@), m, p@));
                    }
                    let mut inner: Vec<(String, TaskRow)> = Vec::new();
                    assert(inner.deep_view() =~= Seq::<(Seq<char>, TaskRowView)>::empty());
                    proof {
                        lemma_represents_empty::<TaskRowView>();
                    }
                    let ghost old_inner = inner.deep_view();
                    let tid = t.id.clone();
                    sorted_upsert(&mut inner, tid, t);
                    proof {
                        lemma_represents_stored(old_inner, inner.deep_view(), Map::empty(), tv.id, tv);
                    }
                    let ghost iv = inner.deep_view();
                    sorted_upsert(&mut r, p, inner);
                    proof {
                        lemma_groups_stored(old_r, r.deep_view(), m, p@, iv, Map::<Seq<char>, TaskRowView>::empty().insert(tv.id, tv));
                    }
                },
            }
        }
        proof {
            taken = taken + 1;
            assert(orig.take(taken) =~= orig.take(taken - 1).push(orig[taken - 1]));
        }
        assert(rest.deep_view() =~= orig.skip(taken));
    }
    r
}

/// A task's line: a tab, then its identifier and fields separated by
/// ` | `, `...` for a missing description.
pub open spec fn spec_task_line(id: Seq<char>, t: TaskRowView) -> Seq<char> {
    "\t"@ + spec_join_sep(seq![id, t.command, t.type_of, t.platform, or_dots(t.description)], " | "@)
}

pub open spec fn task_line_fn() -> spec_fn((Seq<char>, TaskRowView)) -> Seq<char> {
    |e: (Seq<char>, TaskRowView)| spec_task_line(e.0, e.1)
}

/// The lines of grouped tasks: for each project with tasks, its
/// identifier, then a line for each task.
pub open spec fn spec_group_lines(r: Seq<(Seq<char>, Seq<(Seq<char>, TaskRowView)>)>) -> Seq<Seq<char>>
    decreases r.len(),
{
    if r.len() == 0 {
        Seq::empty()
    } else if r.last().1.len() == 0 {
        spec_group_lines(r.drop_last())
    } else {
        spec_group_lines(r.drop_last()) + seq![r.last().0] + r.last().1.map_values(task_line_fn())
    }
}

/// A task's line.
pub fn task_line(id: &String, t: &TaskRow) -> (r: String)
    ensures
        r@ == spec_task_line(id@, t.deep_view()),
{
    let mut fields: Vec<String> = Vec::new();
    fields.push(id.clone());
    fields.push(t.command.clone());
    fields.push(t.type_of.clone());
    fields.push(t.platform.clone());
    fields.push(text_or_dots(&t.description));
    assert(fields.deep_view() =~= seq![id@, t.command@, t.type_of@, t.platform@, or_dots(t.description.deep_view())]);
    let joined = join_strings(&fields, " | ");
    "\t".to_owned().concat(joined.as_str())
}

/// The lines of grouped tasks.
pub fn group_lines(groups: &Vec<(String, Vec<(String, TaskRow)>)>) -> (r: Vec<String>)
    ensures
        r.deep_view() == spec_group_lines(groups.deep_view()),
{
    let mut out: Vec<String> = Vec::new();
    let mut i: usize = 0;
    assert(out.deep_view() =~= spec_group_lines(groups.deep_view().take(0)));
    while i < groups.len()
        invariant
            i <= groups.len(),
            out.deep_view() =~= spec_group_lines(groups.deep_view().take(i as int)),
        decreases groups.len() - i,
    {
        let ghost gv = groups.deep_view();
        assert(gv.take(i + 1).drop_last() =~= gv.take(i as int));
        assert(gv.take(i + 1).last() == gv[i as int]);
        assert(gv[i as int].1 == groups[i as int].1.deep_view());
        let inner = &groups[i].1;
        if inner.len() > 0 {
            let ghost base = out.deep_view();
            out.push(groups[i].0.clone());
            let mut j: usize = 0;
            while j < inner.len()
                invariant
                    j <= inner.len(),
                    i < groups.len(),
                    gv == groups.deep_view(),
                    out.deep_view() =~= base + seq![gv[i as int].0] + inner.deep_view().take(j as int).map_values(task_line_fn()),
                decreases inner.len() - j,
            {
                let ghost before = out.deep_view();
                assert(inner.deep_view()[j as int] == (inner[j as int].0@, inner[j as int].1.deep_view()));
                out.push(task_line(&inner[j].0, &inner[j].1));
                assert(out.deep_view() =~= before.push(spec_task_line(inner[j as int].0@, inner[j as int].1.deep_view())));
                assert(inner.deep_view().take(j + 1).map_values(task_line_fn()) =~= inner.deep_view().take(j as int).map_values(task_line_fn()).push(spec_task_line(inner[j as int].0@, inner[j as int].1.deep_view())));
                j = j + 1;
            }
            assert(inner.deep_view().take(j as int) =~= inner.deep_view());
        }
        i = i + 1;
    }
    assert(groups.deep_view().take(i as int) =~= groups.deep_view());
    out
}

} // verus!
