//! Per operating system names: binary locations of a Node.js install, and
//! the directories where package managers keep global installs.

use vstd::prelude::*;
use vstd::string::StringExecFns;
use crate::paths::{join, spec_join};
use crate::text::{seq_ends_with, str_ends_with};

verus! {

/// The operating system the program is built for.
#[derive(Clone, Copy, Debug, PartialEq, Eq, Structural)]
pub enum TargetOs {
    Linux,
    MacOs,
    Windows,
}

/// The path of a binary inside a Node.js install.
pub open spec fn spec_bin_name(name: Seq<char>, os: TargetOs) -> Seq<char> {
    match os {
        TargetOs::Windows => name + "."@ + "exe"@,
        _ => "bin/"@ + name,
    }
}

/// Where a binary lives inside a Node.js install: `name.exe` on Windows,
/// `bin/name` elsewhere.
pub fn get_bin_name(name: &str, os: TargetOs) -> (r: String)
    ensures
        r@ == spec_bin_name(name@, os),
{
    match os {
        TargetOs::Windows => name.to_owned().concat(".").concat("exe"),
        _ => "bin/".to_owned().concat(name),
    }
}

/// Joining with the Windows separator.
pub open spec fn spec_join_windows(base: Seq<char>, rel: Seq<char>) -> Seq<char> {
    if base.len() == 0 || seq_ends_with(base, "\\"@) || seq_ends_with(base, "/"@) {
        base + rel
    } else {
        base + "\\"@ + rel
    }
}

fn join_windows(base: &str, rel: &str) -> (r: String)
    ensures
        r@ == spec_join_windows(base@, rel@),
{
    if base.unicode_len() == 0 || str_ends_with(base, "\\") || str_ends_with(base, "/") {
        base.to_owned().concat(rel)
    } else {
        base.to_owned().concat("\\").concat(rel)
    }
}

/// The global install directories of Node.js tools in a home directory.
pub open spec fn spec_global_lookups(home: Seq<char>, os: TargetOs) -> Seq<Seq<char>> {
    match os {
        TargetOs::Linux => seq![
            spec_join(home, ".nvm/versions/node"@),
            spec_join(home, ".local/share/pnpm"@),
            spec_join(home, ".config/yarn"@),
        ],
        TargetOs::MacOs => seq![
            spec_join(home, ".nvm/versions/node"@),
            spec_join(home, "Library/pnpm"@),
            spec_join(home, ".config/yarn"@),
        ],
        TargetOs::Windows => seq![
            spec_join_windows(home, "AppData\\npm"@),
            spec_join_windows(home, "AppData\\Roaming\\npm"@),
            spec_join_windows(home, "AppData\\Local\\pnpm"@),
            spec_join_windows(home, "AppData\\Yarn\\config"@),
        ],
    }
}

/// Lists the directories where global installs of Node.js tools live.
pub fn get_global_lookups(home_dir: &str, os: TargetOs) -> (r: Vec<String>)
    ensures
        r.deep_view() == spec_global_lookups(home_dir@, os),
{
    let mut lookups: Vec<String> = Vec::new();
    match os {
        TargetOs::Linux => {
            lookups.push(join(home_dir, ".nvm/versions/node"));
            lookups.push(join(home_dir, ".local/share/pnpm"));
            lookups.push(join(home_dir, ".config/yarn"));
        },
        TargetOs::MacOs => {
            lookups.push(join(home_dir, ".nvm/versions/node"));
            lookups.push(join(home_dir, "Library/pnpm"));
            lookups.push(join(home_dir, ".config/yarn"));
        },
        TargetOs::Windows => {
            lookups.push(join_windows(home_dir, "AppData\\npm"));
            lookups.push(join_windows(home_dir, "AppData\\Roaming\\npm"));
            lookups.push(join_windows(home_dir, "AppData\\Local\\pnpm"));
            lookups.push(join_windows(home_dir, "AppData\\Yarn\\config"));
        },
    }
    assert(lookups.deep_view() =~= spec_global_lookups(home_dir@, os));
    lookups
}

} // verus!

verus! {

/// Why a tool's binary could not be found.
#[derive(Clone, Debug, PartialEq, Eq)]
pub enum ProtoError {
    /// The binary of the tool (first) is not at the path (second).
    ExecuteMissingBin(String, String),
    /// The tool has no binary path yet.
    MissingTool(String),
}

pub enum ProtoErrorView {
    ExecuteMissingBin(Seq<char>, Seq<char>),
    MissingTool(Seq<char>),
}

impl View for ProtoError {
    type V = ProtoErrorView;

    open spec fn view(&self) -> ProtoErrorView {
        match self {
            ProtoError::ExecuteMissingBin(n, p) => ProtoErrorView::ExecuteMissingBin(n@, p@),
            ProtoError::MissingTool(n) => ProtoErrorView::MissingTool(n@),
        }
    }
}

/// The path of Node.js's binary inside an install folder.
pub fn node_bin_path(install_dir: &str, os: TargetOs) -> (r: String)
    ensures
        r@ == spec_join(install_dir@, spec_bin_name("node"@, os)),
{
    let bin = get_bin_name("node", os);
    join(install_dir, bin.as_str())
}

/// The binary found in an install folder: its path when it exists, else
/// an error that names the tool and the path.
pub fn find_bin_path(tool_name: &str, install_dir: &str, os: TargetOs, bin_exists: bool) -> (r: Result<String, ProtoError>)
    ensures
        match r {
            Ok(p) => bin_exists && p@ == spec_join(install_dir@, spec_bin_name("node"@, os)),
            Err(e) => !bin_exists && e@ == ProtoErrorView::ExecuteMissingBin(
                tool_name@,
                spec_join(install_dir@, spec_bin_name("node"@, os)),
            ),
        },
{
    let bin_path = node_bin_path(install_dir, os);
    if bin_exists {
        Ok(bin_path)
    } else {
        Err(ProtoError::ExecuteMissingBin(tool_name.to_owned(), bin_path))
    }
}

/// The binary path of a tool, or an error when it has none yet.
pub fn get_bin_path(tool_name: &str, bin_path: &Option<String>) -> (r: Result<String, ProtoError>)
    ensures
        match r {
            Ok(p) => bin_path.is_some() && p@ == bin_path.unwrap()@,
            Err(e) => bin_path.is_none() && e@ == ProtoErrorView::MissingTool(tool_name@),
        },
{
    match bin_path {
        Some(p) => Ok(p.clone()),
        None => Err(ProtoError::MissingTool(tool_name.to_owned())),
    }
}

} // verus!
