//! Portable paths of project configuration: file paths, glob patterns, and
//! project or workspace relative forms of either.

use vstd::prelude::*;
use crate::text::{chars_of, seq_starts_with, str_has_char, str_starts_with, suffix_from, vec_has_char};

verus! {

/// An error raised while validating a configured value.
pub struct ValidateError {
    pub message: String,
}

/// A rough test for glob syntax: any of `*`, `{` or `[` (which covers `**`).
pub open spec fn spec_is_glob(value: Seq<char>) -> bool {
    value.contains('*') || value.contains('{') || value.contains('[')
}

/// Whether a value looks like a glob pattern.
pub fn is_glob(value: &str) -> (r: bool)
    ensures
        r == spec_is_glob(value@),
{
    let v = chars_of(value);
    vec_has_char(&v, '*') || vec_has_char(&v, '{') || vec_has_char(&v, '[')
}

/// The path is rooted (starts with a separator).
pub open spec fn spec_is_rooted(value: Seq<char>) -> bool {
    seq_starts_with(value, seq!['/'])
}

/// The first component of the path is the parent directory `..`.
pub open spec fn spec_starts_with_parent(value: Seq<char>) -> bool {
    value == seq!['.', '.'] || seq_starts_with(value, seq!['.', '.', '/'])
}

pub open spec fn msg_absolute() -> Seq<char> {
    "absolute paths are not supported"@
}

pub open spec fn msg_absolute_root() -> Seq<char> {
    "absolute paths are not supported (root paths must start with \"/\")"@
}

pub open spec fn msg_parent() -> Seq<char> {
    "parent relative paths are not supported"@
}

pub open spec fn msg_glob() -> Seq<char> {
    "globs are not supported, expected a literal file path"@
}

pub open spec fn msg_workspace() -> Seq<char> {
    "workspace relative paths are not supported"@
}

fn error(message: &str) -> (e: ValidateError)
    ensures
        e.message@ == message@,
{
    ValidateError { message: message.to_owned() }
}

fn starts_with_parent(value: &str) -> (r: bool)
    ensures
        r == spec_starts_with_parent(value@),
{
    let dots_sep = "../";
    proof {
        reveal_strlit("../");
        assert("../"@ =~= seq!['.', '.', '/']);
    }
    let v = chars_of(value);
    let is_dots = v.len() == 2 && v[0] == '.' && v[1] == '.';
    assert(is_dots ==> v@ =~= seq!['.', '.']);
    assert(v@ =~= seq!['.', '.'] ==> is_dots);
    is_dots || str_starts_with(value, dots_sep)
}

/// What `validate_child_relative_path` decides: `None` when accepted,
/// else the error message.
pub open spec fn spec_child_relative(value: Seq<char>) -> Option<Seq<char>> {
    if spec_is_rooted(value) {
        Some(msg_absolute())
    } else if spec_starts_with_parent(value) {
        Some(msg_parent())
    } else {
        None
    }
}

/// Accepts a path relative to, and inside of, a project: neither
/// absolute nor starting with a parent directory.
pub fn validate_child_relative_path(value: &str) -> (r: Result<(), ValidateError>)
    ensures
        r is Ok <==> spec_child_relative(value@) is None,
        r matches Err(e) ==> spec_child_relative(value@) == Some(e.message@),
{
    proof {
        reveal_strlit("/");
        assert("/"@ =~= seq!['/']);
        reveal_strlit("absolute paths are not supported");
        reveal_strlit("parent relative paths are not supported");
    }
    if str_starts_with(value, "/") {
        return Err(error("absolute paths are not supported"));
    }
    if starts_with_parent(value) {
        return Err(error("parent relative paths are not supported"));
    }
    Ok(())
}

/// What `validate_child_or_root_path` decides. Rooted paths are the
/// workspace relative form, so only a parent prefix is refused.
pub open spec fn spec_child_or_root(value: Seq<char>) -> Option<Seq<char>> {
    if spec_starts_with_parent(value) {
        Some(msg_parent())
    } else {
        None
    }
}

/// Accepts a path inside a project, or a workspace path written with a
/// leading `/`; refuses parent relative paths.
pub fn validate_child_or_root_path(value: &str) -> (r: Result<(), ValidateError>)
    ensures
        r is Ok <==> spec_child_or_root(value@) is None,
        r matches Err(e) ==> spec_child_or_root(value@) == Some(e.message@),
{
    proof {
        reveal_strlit("parent relative paths are not supported");
    }
    if starts_with_parent(value) {
        return Err(error("parent relative paths are not supported"));
    }
    Ok(())
}

/// A value parsed from a configured string, with the rule that decides
/// which strings are accepted.
pub trait Portable: Sized {
    /// Whether `from_str` accepts the string.
    spec fn accepts(value: Seq<char>) -> bool;

    /// The message of the error for a refused string.
    spec fn rejection(value: Seq<char>) -> Seq<char>;

    /// This value is the one that `from_str` builds from the string.
    spec fn represents(&self, value: Seq<char>) -> bool;

    fn from_str(value: &str) -> (r: Result<Self, ValidateError>)
        ensures
            r is Ok <==> Self::accepts(value@),
            r matches Ok(p) ==> p.represents(value@),
            r matches Err(e) ==> e.message@ == Self::rejection(value@),
    ;
}

/// A file glob pattern.
#[derive(Clone, Debug, Default, Eq, PartialEq)]
pub struct GlobPath(pub String);

/// A literal file system path.
#[derive(Clone, Debug, Default, Eq, PartialEq)]
pub struct FilePath(pub String);

impl Portable for GlobPath {
    open spec fn accepts(value: Seq<char>) -> bool {
        true
    }

    open spec fn rejection(value: Seq<char>) -> Seq<char> {
        Seq::empty()
    }

    open spec fn represents(&self, value: Seq<char>) -> bool {
        self.0@ == value
    }

    fn from_str(value: &str) -> (r: Result<Self, ValidateError>) {
        Ok(GlobPath(value.to_owned()))
    }
}

impl Portable for FilePath {
    open spec fn accepts(value: Seq<char>) -> bool {
        !spec_is_glob(value)
    }

    open spec fn rejection(value: Seq<char>) -> Seq<char> {
        msg_glob()
    }

    open spec fn represents(&self, value: Seq<char>) -> bool {
        self.0@ == value
    }

    fn from_str(value: &str) -> (r: Result<Self, ValidateError>) {
        if is_glob(value) {
            proof { reveal_strlit("globs are not supported, expected a literal file path"); }
            return Err(error("globs are not supported, expected a literal file path"));
        }
        Ok(FilePath(value.to_owned()))
    }
}

/// A path that stays inside a project: neither absolute, nor parent
/// relative, nor workspace relative.
#[derive(Clone, Debug, Eq, PartialEq)]
pub struct ProjectPortablePath<T>(pub T);

impl<T: Portable> Portable for ProjectPortablePath<T> {
    open spec fn accepts(value: Seq<char>) -> bool {
        &&& spec_child_relative(value) is None
        &&& !spec_is_rooted(value)
        &&& T::accepts(value)
    }

    open spec fn rejection(value: Seq<char>) -> Seq<char> {
        if spec_child_relative(value) is Some {
            spec_child_relative(value)->0
        } else if spec_is_rooted(value) {
            msg_workspace()
        } else {
            T::rejection(value)
        }
    }

    open spec fn represents(&self, value: Seq<char>) -> bool {
        self.0.represents(value)
    }

    fn from_str(value: &str) -> (r: Result<Self, ValidateError>) {
        match validate_child_relative_path(value) {
            Err(e) => return Err(e),
            Ok(()) => {},
        }
        proof {
            reveal_strlit("/");
            assert("/"@ =~= seq!['/']);
        }
        if str_starts_with(value, "/") {
            proof { reveal_strlit("workspace relative paths are not supported"); }
            return Err(error("workspace relative paths are not supported"));
        }
        match T::from_str(value) {
            Ok(v) => Ok(ProjectPortablePath(v)),
            Err(e) => Err(e),
        }
    }
}

/// A project or workspace relative file path or glob. Workspace paths are
/// written with a leading `/`, which is not kept.
#[derive(Clone, Debug, Eq, PartialEq)]
pub enum PortablePath {
    ProjectFile(FilePath),
    ProjectGlob(GlobPath),
    WorkspaceFile(FilePath),
    WorkspaceGlob(GlobPath),
}

impl Portable for PortablePath {
    open spec fn accepts(value: Seq<char>) -> bool {
        spec_child_or_root(value) is None
    }

    open spec fn rejection(value: Seq<char>) -> Seq<char> {
        msg_parent()
    }

    open spec fn represents(&self, value: Seq<char>) -> bool {
        match self {
            PortablePath::WorkspaceGlob(g) => spec_is_rooted(value) && spec_is_glob(value)
                && g.0@ == value.drop_first(),
            PortablePath::WorkspaceFile(f) => spec_is_rooted(value) && !spec_is_glob(value)
                && f.0@ == value.drop_first(),
            PortablePath::ProjectGlob(g) => !spec_is_rooted(value) && spec_is_glob(value)
                && g.0@ == value,
            PortablePath::ProjectFile(f) => !spec_is_rooted(value) && !spec_is_glob(value)
                && f.0@ == value,
        }
    }

    fn from_str(value: &str) -> (r: Result<Self, ValidateError>) {
        match validate_child_or_root_path(value) {
            Err(e) => return Err(e),
            Ok(()) => {},
        }
        proof {
            reveal_strlit("/");
            assert("/"@ =~= seq!['/']);
        }
        let rooted = str_starts_with(value, "/");
        let glob = is_glob(value);
        if rooted {
            let rest = suffix_from(value, 1);
            assert(rest@ =~= value@.drop_first());
            assert forall|c: char| rest@.contains(c) implies value@.contains(c) by {
                let k = choose|k: int| 0 <= k < rest@.len() && rest@[k] == c;
                assert(value@[k + 1] == c);
            }
            if glob {
                match GlobPath::from_str(rest.as_str()) {
                    Ok(g) => Ok(PortablePath::WorkspaceGlob(g)),
                    Err(e) => Err(e),
                }
            } else {
                match FilePath::from_str(rest.as_str()) {
                    Ok(f) => Ok(PortablePath::WorkspaceFile(f)),
                    Err(e) => Err(e),
                }
            }
        } else if glob {
            match GlobPath::from_str(value) {
                Ok(g) => Ok(PortablePath::ProjectGlob(g)),
                Err(e) => Err(e),
            }
        } else {
            match FilePath::from_str(value) {
                Ok(f) => Ok(PortablePath::ProjectFile(f)),
                Err(e) => Err(e),
            }
        }
    }
}

} // verus!
