//! Archiving a task's outputs: whether a task's outputs are archived, and
//! the steps of making the archive.

use vstd::prelude::*;
use crate::paths::{join, spec_join};
use crate::target::{ScopeView, Target, TargetScope, TargetView};
use crate::text::str_eq;

verus! {

/// Why archiving failed.
#[derive(Clone, Debug, PartialEq, Eq)]
pub enum ArchiveError {
    /// A `^:` target cannot be used to pick archivable tasks.
    NoDepsInRunContext,
    /// A `~:` target cannot be used to pick archivable tasks.
    NoSelfInRunContext,
    /// The task (its target) ran but did not create its outputs.
    MissingOutputs(String),
}

pub enum ArchiveErrorView {
    NoDepsInRunContext,
    NoSelfInRunContext,
    MissingOutputs(Seq<char>),
}

impl View for ArchiveError {
    type V = ArchiveErrorView;

    open spec fn view(&self) -> ArchiveErrorView {
        match self {
            ArchiveError::NoDepsInRunContext => ArchiveErrorView::NoDepsInRunContext,
            ArchiveError::NoSelfInRunContext => ArchiveErrorView::NoSelfInRunContext,
            ArchiveError::MissingOutputs(t) => ArchiveErrorView::MissingOutputs(t@),
        }
    }
}

/// A task as archiving sees it.
#[derive(Clone, Debug, PartialEq, Eq)]
pub struct ArchiveTask {
    pub target: Target,
    pub is_build_type: bool,
    pub output_files: Vec<String>,
    pub output_globs: Vec<String>,
}

/// Whether the targets from the `i`-th on make a task archivable: the first
/// that names the task decides, a `^:` or `~:` target is an error.
pub open spec fn spec_archivable_from(
    task: TargetView,
    targets: Seq<TargetView>,
    tags: Seq<Seq<char>>,
    i: nat,
) -> Result<bool, ArchiveErrorView>
    decreases targets.len() - i,
{
    if i >= targets.len() {
        Ok(false)
    } else {
        let t = targets[i as int];
        let same_task = task.task_id == t.task_id;
        match t.scope {
            ScopeView::All => if same_task {
                Ok(true)
            } else {
                spec_archivable_from(task, targets, tags, i + 1)
            },
            ScopeView::Project(p) => if task.scope == ScopeView::Project(p) && same_task {
                Ok(true)
            } else {
                spec_archivable_from(task, targets, tags, i + 1)
            },
            ScopeView::Tag(tag) => if tags.contains(tag) && same_task {
                Ok(true)
            } else {
                spec_archivable_from(task, targets, tags, i + 1)
            },
            ScopeView::Deps => Err(ArchiveErrorView::NoDepsInRunContext),
            ScopeView::OwnSelf => Err(ArchiveErrorView::NoSelfInRunContext),
        }
    }
}

/// A build task is always archivable; another one when a configured
/// archivable target names it.
pub open spec fn spec_is_archivable(
    task: ArchiveTask,
    targets: Seq<TargetView>,
    tags: Seq<Seq<char>>,
) -> Result<bool, ArchiveErrorView> {
    if task.is_build_type {
        Ok(true)
    } else {
        spec_archivable_from(task.target.deep_view(), targets, tags, 0)
    }
}

pub open spec fn bool_result_view(r: Result<bool, ArchiveError>) -> Result<bool, ArchiveErrorView> {
    match r {
        Ok(b) => Ok(b),
        Err(e) => Err(e@),
    }
}

fn strings_contain(list: &Vec<String>, item: &String) -> (r: bool)
    ensures
        r == list.deep_view().contains(item@),
{
    let mut i: usize = 0;
    while i < list.len()
        invariant
            i <= list.len(),
            forall|k: int| 0 <= k < i ==> list.deep_view()[k] != item@,
        decreases list.len() - i,
    {
        assert(list.deep_view()[i as int] == list[i as int]@);
        if str_eq(list[i].as_str(), item.as_str()) {
            return true;
        }
        i = i + 1;
    }
    false
}

/// Whether a task's outputs are archived, given the workspace's archivable
/// targets and the tags of the task's project.
pub fn is_archivable(task: &ArchiveTask, targets: &Vec<Target>, project_tags: &Vec<String>) -> (r: Result<bool, ArchiveError>)
    ensures
        bool_result_view(r) == spec_is_archivable(*task, targets.deep_view(), project_tags.deep_view()),
{
    if task.is_build_type {
        return Ok(true);
    }
    let ghost tv = task.target.deep_view();
    let ghost ts = targets.deep_view();
    let ghost tags = project_tags.deep_view();
    let mut i: usize = 0;
    while i < targets.len()
        invariant
            i <= targets.len(),
            !task.is_build_type,
            tv == task.target.deep_view(),
            ts == targets.deep_view(),
            tags == project_tags.deep_view(),
            spec_archivable_from(tv, ts, tags, 0) == spec_archivable_from(tv, ts, tags, i as nat),
        decreases targets.len() - i,
    {
        let t = &targets[i];
        assert(ts[i as int] == t.deep_view());
        let same_task = str_eq(task.target.task_id.as_str(), t.task_id.as_str());
        match &t.scope {
            TargetScope::All => {
                if same_task {
                    return Ok(true);
                }
            },
            TargetScope::Project(p) => {
                let owner = match &task.target.scope {
                    TargetScope::Project(o) => str_eq(o.as_str(), p.as_str()),
                    _ => false,
                };
                if owner && same_task {
                    return Ok(true);
                }
            },
            TargetScope::Tag(tag) => {
                if strings_contain(project_tags, tag) && same_task {
                    return Ok(true);
                }
            },
            TargetScope::Deps => {
                return Err(ArchiveError::NoDepsInRunContext);
            },
            TargetScope::OwnSelf => {
                return Err(ArchiveError::NoSelfInRunContext);
            },
        }
        i = i + 1;
    }
    Ok(false)
}

/// What checking a task's outputs gives before any glob is walked.
#[derive(Clone, Copy, Debug, PartialEq, Eq, Structural)]
pub enum OutputsCheck {
    /// Some output is missing (or globs are not trusted).
    Missing,
    /// Every output exists.
    Created,
    /// The literal outputs exist; the globs decide: created when they match
    /// a file.
    WalkGlobs,
}

/// Checks a task's outputs: with globs bypassed, a task with globs counts
/// as missing; then each output file must exist (`files_exist` says which
/// do, in order); then the globs are walked when there are any.
pub fn check_outputs(task: &ArchiveTask, bypass_globs: bool, files_exist: &Vec<bool>) -> (r: OutputsCheck)
    requires
        files_exist.len() == task.output_files.len(),
    ensures
        r == if bypass_globs && task.output_globs.len() > 0 {
            OutputsCheck::Missing
        } else if exists|i: int| 0 <= i < files_exist.len() && !files_exist[i] {
            OutputsCheck::Missing
        } else if task.output_globs.len() > 0 {
            OutputsCheck::WalkGlobs
        } else {
            OutputsCheck::Created
        },
{
    if bypass_globs && task.output_globs.len() > 0 {
        return OutputsCheck::Missing;
    }
    let mut i: usize = 0;
    while i < files_exist.len()
        invariant
            i <= files_exist.len(),
            forall|k: int| 0 <= k < i ==> files_exist[k],
        decreases files_exist.len() - i,
    {
        if !files_exist[i] {
            return OutputsCheck::Missing;
        }
        i = i + 1;
    }
    if task.output_globs.len() > 0 {
        OutputsCheck::WalkGlobs
    } else {
        OutputsCheck::Created
    }
}

/// What archiving does next.
#[derive(Clone, Debug, PartialEq, Eq)]
pub enum ArchiveStep {
    /// Nothing is archived.
    Skip,
    /// The archive already exists; it is the result.
    UseExisting,
    /// Pack the outputs into the archive, then upload it when it was made.
    Create,
}

/// Decides how to archive, given whether the task is archivable, whether
/// its outputs were created, whether the archive file exists and whether
/// the cache may be written.
pub fn archive_step(
    task: &ArchiveTask,
    archivable: bool,
    outputs_created: bool,
    archive_exists: bool,
    cache_writable: bool,
) -> (r: Result<ArchiveStep, ArchiveError>)
    ensures
        !archivable ==> r == Ok::<ArchiveStep, ArchiveError>(ArchiveStep::Skip),
        archivable && !outputs_created ==> (r matches Err(ArchiveError::MissingOutputs(t)) && t@ == task.target.id@),
        archivable && outputs_created && archive_exists ==> r == Ok::<ArchiveStep, ArchiveError>(
            ArchiveStep::UseExisting,
        ),
        archivable && outputs_created && !archive_exists && !cache_writable ==> r == Ok::<
            ArchiveStep,
            ArchiveError,
        >(ArchiveStep::Skip),
        archivable && outputs_created && !archive_exists && cache_writable ==> r == Ok::<ArchiveStep, ArchiveError>(
            ArchiveStep::Create,
        ),
{
    if !archivable {
        return Ok(ArchiveStep::Skip);
    }
    if !outputs_created {
        return Err(ArchiveError::MissingOutputs(task.target.id.clone()));
    }
    if archive_exists {
        return Ok(ArchiveStep::UseExisting);
    }
    if !cache_writable {
        return Ok(ArchiveStep::Skip);
    }
    Ok(ArchiveStep::Create)
}

/// The files packed into the archive: the output files, then the task's
/// `stdout.log` and `stderr.log` in its state folder; the output globs are
/// packed as patterns.
pub fn archive_files(task: &ArchiveTask, state_dir: &str) -> (r: Vec<String>)
    ensures
        r.deep_view() == task.output_files.deep_view() + seq![
            spec_join(state_dir@, "stdout.log"@),
            spec_join(state_dir@, "stderr.log"@),
        ],
{
    let mut out: Vec<String> = Vec::new();
    let mut i: usize = 0;
    while i < task.output_files.len()
        invariant
            i <= task.output_files.len(),
            out.deep_view() =~= task.output_files.deep_view().take(i as int),
        decreases task.output_files.len() - i,
    {
        let ghost before = out.deep_view();
        out.push(task.output_files[i].clone());
        assert(out.deep_view() =~= before.push(task.output_files.deep_view()[i as int]));
        i = i + 1;
    }
    assert(task.output_files.deep_view().take(i as int) =~= task.output_files.deep_view());
    let ghost before = out.deep_view();
    out.push(join(state_dir, "stdout.log"));
    out.push(join(state_dir, "stderr.log"));
    assert(out.deep_view() =~= before + seq![spec_join(state_dir@, "stdout.log"@), spec_join(state_dir@, "stderr.log"@)]);
    out
}

} // verus!
