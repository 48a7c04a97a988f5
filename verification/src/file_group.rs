//! File groups: lists of file paths and glob patterns relative to a
//! project, expanded to the files or directories they match.

use vstd::prelude::*;
use crate::paths::{join, spec_join};
use crate::portable_path::{is_glob, spec_is_glob};

verus! {

/// A file system entry found by a glob walk.
#[derive(Clone, Debug, PartialEq, Eq)]
pub struct FsEntry {
    pub path: String,
    pub is_dir: bool,
    pub is_file: bool,
}

/// What the file system holds for one pattern of a group.
#[derive(Clone, Debug, PartialEq, Eq)]
pub enum FsProbe {
    /// The entries a glob pattern matched under the project root, in walk
    /// order.
    Glob(Vec<FsEntry>),
    /// The glob pattern could not be compiled; the message says why.
    InvalidGlob(String),
    /// The kind of the literal path under the project root: `None` when
    /// it could not be read, else (is a directory, is a file).
    Literal(Option<(bool, bool)>),
}

/// Why a file group could not be expanded.
#[derive(Clone, Debug, PartialEq, Eq)]
pub enum ProjectError {
    GlobWalk(String),
}

/// A list of file paths and globs of a project.
pub struct FileGroup {
    pub files: Vec<String>,
    pub project_root: String,
}

/// The probe fits the pattern: a glob result for a glob, a literal result
/// for a path.
pub open spec fn probe_fits(pattern: Seq<char>, probe: FsProbe) -> bool {
    if spec_is_glob(pattern) {
        !(probe is Literal)
    } else {
        probe is Literal
    }
}

pub open spec fn kind_matches(is_dir: bool, entry_is_dir: bool, entry_is_file: bool) -> bool {
    if is_dir {
        entry_is_dir
    } else {
        entry_is_file
    }
}

/// The paths one pattern contributes.
pub open spec fn spec_pattern_paths(root: Seq<char>, pattern: Seq<char>, probe: FsProbe, is_dir: bool) -> Seq<Seq<char>> {
    match probe {
        FsProbe::Glob(entries) => entries@.filter(|e: FsEntry| kind_matches(is_dir, e.is_dir, e.is_file)).map_values(
            |e: FsEntry| e.path@,
        ),
        FsProbe::InvalidGlob(_) => Seq::empty(),
        FsProbe::Literal(kind) => match kind {
            Some(k) => if kind_matches(is_dir, k.0, k.1) {
                seq![spec_join(root, pattern)]
            } else {
                Seq::empty()
            },
            None => Seq::empty(),
        },
    }
}

/// The expansion of the first `n` patterns, or the message of the first
/// pattern that is not a valid glob.
pub open spec fn spec_walk(root: Seq<char>, patterns: Seq<Seq<char>>, probes: Seq<FsProbe>, is_dir: bool, n: nat) -> Result<Seq<Seq<char>>, Seq<char>>
    decreases n,
{
    if n == 0 {
        Ok(Seq::empty())
    } else {
        match spec_walk(root, patterns, probes, is_dir, (n - 1) as nat) {
            Err(e) => Err(e),
            Ok(acc) => match probes[n - 1] {
                FsProbe::InvalidGlob(msg) => Err(msg@),
                _ => Ok(acc + spec_pattern_paths(root, patterns[n - 1], probes[n - 1], is_dir)),
            },
        }
    }
}

pub open spec fn walk_view(r: Result<Vec<String>, ProjectError>) -> Result<Seq<Seq<char>>, Seq<char>> {
    match r {
        Ok(v) => Ok(v.deep_view()),
        Err(ProjectError::GlobWalk(m)) => Err(m@),
    }
}

proof fn lemma_walk_err_sticks(root: Seq<char>, patterns: Seq<Seq<char>>, probes: Seq<FsProbe>, is_dir: bool, n: nat, m: nat)
    requires
        spec_walk(root, patterns, probes, is_dir, n) is Err,
        n <= m,
    ensures
        spec_walk(root, patterns, probes, is_dir, m) == spec_walk(root, patterns, probes, is_dir, n),
    decreases m - n,
{
    if n < m {
        lemma_walk_err_sticks(root, patterns, probes, is_dir, n, (m - 1) as nat);
    }
}

impl FileGroup {
    pub fn new(files: Vec<String>, project_root: String) -> (g: FileGroup)
        ensures
            g.files == files,
            g.project_root == project_root,
    {
        FileGroup { files, project_root }
    }

    /// Whether a pattern of the group is walked as a glob.
    pub fn is_glob_pattern(&self, index: usize) -> (r: bool)
        requires
            index < self.files.len(),
        ensures
            r == spec_is_glob(self.files@[index as int]@),
    {
        is_glob(self.files[index].as_str())
    }

    /// The directories the group expands to, given what the file system
    /// holds for each of its patterns.
    pub fn dirs(&self, probes: &Vec<FsProbe>) -> (r: Result<Vec<String>, ProjectError>)
        requires
            probes.len() == self.files.len(),
            forall|i: int| 0 <= i < probes.len() ==> probe_fits(#[trigger] self.files@[i]@, probes@[i]),
        ensures
            walk_view(r) == spec_walk(self.project_root@, self.files.deep_view(), probes@, true, probes@.len()),
    {
        self.walk(true, probes)
    }

    /// The files the group expands to, given what the file system holds
    /// for each of its patterns.
    pub fn files(&self, probes: &Vec<FsProbe>) -> (r: Result<Vec<String>, ProjectError>)
        requires
            probes.len() == self.files.len(),
            forall|i: int| 0 <= i < probes.len() ==> probe_fits(#[trigger] self.files@[i]@, probes@[i]),
        ensures
            walk_view(r) == spec_walk(self.project_root@, self.files.deep_view(), probes@, false, probes@.len()),
    {
        self.walk(false, probes)
    }

    fn walk(&self, is_dir: bool, probes: &Vec<FsProbe>) -> (r: Result<Vec<String>, ProjectError>)
        requires
            probes.len() == self.files.len(),
        ensures
            walk_view(r) == spec_walk(self.project_root@, self.files.deep_view(), probes@, is_dir, probes@.len()),
    {
        let ghost root = self.project_root@;
        let ghost pats = self.files.deep_view();
        let mut list: Vec<String> = Vec::new();
        assert(list.deep_view() =~= Seq::<Seq<char>>::empty());
        let mut i: usize = 0;
        while i < probes.len()
            invariant
                i <= probes.len() == self.files.len(),
                root == self.project_root@,
                pats == self.files.deep_view(),
                spec_walk(root, pats, probes@, is_dir, i as nat) == Ok::<_, Seq<char>>(list.deep_view()),
            decreases probes.len() - i,
        {
            let ghost before = list.deep_view();
            match &probes[i] {
                FsProbe::InvalidGlob(msg) => {
                    proof {
                        lemma_walk_err_sticks(root, pats, probes@, is_dir, (i + 1) as nat, probes@.len());
                    }
                    return Err(ProjectError::GlobWalk(msg.clone()));
                },
                FsProbe::Glob(entries) => {
                    let ghost keep = |e: FsEntry| kind_matches(is_dir, e.is_dir, e.is_file);
                    let ghost path_of = |e: FsEntry| e.path@;
                    let mut j: usize = 0;
                    while j < entries.len()
                        invariant
                            j <= entries.len(),
                            keep == (|e: FsEntry| kind_matches(is_dir, e.is_dir, e.is_file)),
                            path_of == (|e: FsEntry| e.path@),
                            list.deep_view() =~= before + entries@.take(j as int).filter(keep).map_values(path_of),
                        decreases entries.len() - j,
                    {
                        assert(entries@.take(j + 1) =~= entries@.take(j as int).push(entries@[j as int]));
                        proof {
                            entries@.take(j as int).lemma_filter_push(entries@[j as int], keep);
                        }
                        let entry = &entries[j];
                        let allowed = if is_dir {
                            entry.is_dir
                        } else {
                            entry.is_file
                        };
                        if allowed {
                            let ghost f = entries@.take(j as int).filter(keep);
                            let ghost prev = list.deep_view();
                            list.push(entry.path.clone());
                            assert(list.deep_view() =~= prev.push(entry.path@));
                            assert(f.push(entries@[j as int]).map_values(path_of) =~= f.map_values(path_of).push(path_of(entries@[j as int])));
                        }
                        j = j + 1;
                    }
                    assert(entries@.take(j as int) =~= entries@);
                },
                FsProbe::Literal(kind) => {
                    assert(pats[i as int] == self.files@[i as int]@);
                    match kind {
                        Some(k) => {
                            let allowed = if is_dir {
                                k.0
                            } else {
                                k.1
                            };
                            if allowed {
                                list.push(join(self.project_root.as_str(), self.files[i].as_str()));
                                assert(list.deep_view() =~= before + spec_pattern_paths(root, pats[i as int], probes@[i as int], is_dir));
                            } else {
                                assert(list.deep_view() =~= before + Seq::empty());
                            }
                        },
                        None => {
                            assert(list.deep_view() =~= before + Seq::empty());
                        },
                    }
                },
            }
            i = i + 1;
        }
        Ok(list)
    }
}

} // verus!
