//! Where the toolchain keeps its files: `~/.monolith`, with `temp` and
//! `tools` directories inside. Directories are made on first use; the file
//! system work is done by the caller, one step at a time, and reported back.

use vstd::prelude::*;
use crate::paths::{join, spec_join};

verus! {

/// The name of the toolchain's directory in the home directory.
pub open spec fn config_dirname() -> Seq<char> {
    ".monolith"@
}

/// Why a toolchain directory is not available.
#[derive(Clone, Copy, Debug, PartialEq, Eq, Structural)]
pub enum ToolchainError {
    FailedToCreateDir,
    MissingHomeDir,
}

/// What the caller has to do next to get a directory.
#[derive(Clone, Debug, PartialEq, Eq)]
pub enum DirAction {
    /// The directory is known and made.
    Ready(String),
    /// There is no home directory.
    MissingHome,
    /// Make the toolchain directory (or replace a file there), then report.
    CreateCacheDir(String),
    /// Make the temporary files directory, then report.
    CreateTempDir(String),
    /// Make the tools directory, then report.
    CreateToolsDir(String),
}

pub enum DirActionView {
    Ready(Seq<char>),
    MissingHome,
    CreateCacheDir(Seq<char>),
    CreateTempDir(Seq<char>),
    CreateToolsDir(Seq<char>),
}

impl View for DirAction {
    type V = DirActionView;

    open spec fn view(&self) -> DirActionView {
        match self {
            DirAction::Ready(p) => DirActionView::Ready(p@),
            DirAction::MissingHome => DirActionView::MissingHome,
            DirAction::CreateCacheDir(p) => DirActionView::CreateCacheDir(p@),
            DirAction::CreateTempDir(p) => DirActionView::CreateTempDir(p@),
            DirAction::CreateToolsDir(p) => DirActionView::CreateToolsDir(p@),
        }
    }
}

/// The toolchain's directories, once made.
#[derive(Clone, Debug, PartialEq, Eq)]
pub struct Toolchain {
    pub dir: Option<String>,
    pub temp_dir: Option<String>,
    pub tools_dir: Option<String>,
}

pub open spec fn opt_view(o: Option<String>) -> Option<Seq<char>> {
    match o {
        Some(s) => Some(s@),
        None => None,
    }
}

/// The step towards the toolchain directory itself.
pub open spec fn spec_dir_step(dir: Option<Seq<char>>, home: Option<Seq<char>>) -> DirActionView {
    match dir {
        Some(d) => DirActionView::Ready(d),
        None => match home {
            None => DirActionView::MissingHome,
            Some(h) => DirActionView::CreateCacheDir(spec_join(h, config_dirname())),
        },
    }
}

/// The step towards the temporary files directory.
pub open spec fn spec_temp_dir_step(tc: Toolchain, home: Option<Seq<char>>) -> DirActionView {
    match opt_view(tc.temp_dir) {
        Some(t) => DirActionView::Ready(t),
        None => match opt_view(tc.dir) {
            Some(d) => DirActionView::CreateTempDir(spec_join(d, "temp"@)),
            None => spec_dir_step(None, home),
        },
    }
}

/// The step towards the tools directory, `tools` in the toolchain
/// directory.
pub open spec fn spec_tools_dir_step(tc: Toolchain, home: Option<Seq<char>>) -> DirActionView {
    match opt_view(tc.tools_dir) {
        Some(t) => DirActionView::Ready(t),
        None => match opt_view(tc.dir) {
            Some(d) => DirActionView::CreateToolsDir(spec_join(d, "tools"@)),
            None => spec_dir_step(None, home),
        },
    }
}

fn cache_dir_in(home: &str) -> (r: String)
    ensures
        r@ == spec_join(home@, config_dirname()),
{
    join(home, ".monolith")
}

/// The toolchain directory in a home directory, and the directory that must
/// exist for it (the same).
pub fn find_or_create_cache_dir(home_dir: Option<&str>) -> (r: Result<(String, String), ToolchainError>)
    ensures
        match home_dir {
            None => r == Err::<(String, String), _>(ToolchainError::MissingHomeDir),
            Some(h) => r matches Ok(p) && p.0@ == spec_join(h@, config_dirname()) && p.1@ == p.0@,
        },
{
    match home_dir {
        None => Err(ToolchainError::MissingHomeDir),
        Some(h) => {
            let dir = cache_dir_in(h);
            let create = dir.clone();
            Ok((dir, create))
        },
    }
}

/// The temporary files directory of a toolchain directory, and the
/// directory that must exist for it: the toolchain directory.
pub fn find_or_create_temp_dir(cache_dir: &str) -> (r: (String, String))
    ensures
        r.0@ == spec_join(cache_dir@, "temp"@),
        r.1@ == cache_dir@,
{
    (join(cache_dir, "temp"), cache_dir.to_owned())
}

impl Toolchain {
    /// A toolchain with no directory made yet.
    pub fn new() -> (t: Toolchain)
        ensures
            t.dir is None && t.temp_dir is None && t.tools_dir is None,
    {
        Toolchain { dir: None, temp_dir: None, tools_dir: None }
    }

    /// The next step to get the toolchain directory.
    pub fn get_dir(&self, home_dir: Option<&str>) -> (a: DirAction)
        ensures
            a@ == spec_dir_step(opt_view(self.dir), match home_dir {
                Some(h) => Some(h@),
                None => None,
            }),
    {
        match &self.dir {
            Some(d) => DirAction::Ready(d.clone()),
            None => match home_dir {
                None => DirAction::MissingHome,
                Some(h) => DirAction::CreateCacheDir(cache_dir_in(h)),
            },
        }
    }

    /// The next step to get the temporary files directory.
    pub fn get_temp_dir(&self, home_dir: Option<&str>) -> (a: DirAction)
        ensures
            a@ == spec_temp_dir_step(*self, match home_dir {
                Some(h) => Some(h@),
                None => None,
            }),
    {
        match &self.temp_dir {
            Some(t) => DirAction::Ready(t.clone()),
            None => match &self.dir {
                Some(d) => DirAction::CreateTempDir(join(d.as_str(), "temp")),
                None => match home_dir {
                    None => DirAction::MissingHome,
                    Some(h) => DirAction::CreateCacheDir(cache_dir_in(h)),
                },
            },
        }
    }

    /// The next step to get the tools directory.
    pub fn get_tools_dir(&self, home_dir: Option<&str>) -> (a: DirAction)
        ensures
            a@ == spec_tools_dir_step(*self, match home_dir {
                Some(h) => Some(h@),
                None => None,
            }),
    {
        match &self.tools_dir {
            Some(t) => DirAction::Ready(t.clone()),
            None => match &self.dir {
                Some(d) => DirAction::CreateToolsDir(join(d.as_str(), "tools")),
                None => match home_dir {
                    None => DirAction::MissingHome,
                    Some(h) => DirAction::CreateCacheDir(cache_dir_in(h)),
                },
            },
        }
    }

    /// Records that the directory of an action has been made. Gives the
    /// directory when it was the one asked for, `None` when the toolchain
    /// directory was made on the way.
    pub fn record_created(&mut self, action: &DirAction) -> (r: Option<String>)
        ensures
            match action {
                DirAction::CreateCacheDir(p) => opt_view(final(self).dir) == Some(p@) && r is None
                    && final(self).temp_dir == old(self).temp_dir && final(self).tools_dir == old(self).tools_dir,
                DirAction::CreateTempDir(p) => opt_view(final(self).temp_dir) == Some(p@) && opt_view(r) == Some(p@)
                    && final(self).dir == old(self).dir && final(self).tools_dir == old(self).tools_dir,
                DirAction::CreateToolsDir(p) => opt_view(final(self).tools_dir) == Some(p@) && opt_view(r) == Some(p@)
                    && final(self).dir == old(self).dir && final(self).temp_dir == old(self).temp_dir,
                _ => *final(self) == *old(self) && r is None,
            },
    {
        match action {
            DirAction::CreateCacheDir(p) => {
                self.dir = Some(p.clone());
                None
            },
            DirAction::CreateTempDir(p) => {
                self.temp_dir = Some(p.clone());
                Some(p.clone())
            },
            DirAction::CreateToolsDir(p) => {
                self.tools_dir = Some(p.clone());
                Some(p.clone())
            },
            _ => None,
        }
    }
}

} // verus!
