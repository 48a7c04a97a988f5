//! Project configuration (`project.yml`) values and their validation, and
//! toolchain settings.

use vstd::prelude::*;
use crate::text::{seq_starts_with, str_starts_with};

verus! {

/// A validation failure of a configuration field.
#[derive(Clone, Debug, PartialEq, Eq)]
pub struct ValidationError {
    /// A short code naming the rule.
    pub code: String,
    /// The field that failed, as a dotted path.
    pub path: String,
    /// What is wrong.
    pub message: String,
}

/// A channel is empty or starts with `#`.
pub open spec fn spec_channel_ok(value: Seq<char>) -> bool {
    value.len() == 0 || seq_starts_with(value, "#"@)
}

/// The error of a channel that does not start with `#`.
pub open spec fn is_channel_error(e: ValidationError) -> bool {
    e.code@ == "invalid_channel"@ && e.path@ == "project.channel"@ && e.message@ == "Must start with a #."@
}

/// Checks the `project.channel` setting.
pub fn validate_channel(value: &str) -> (r: Result<(), ValidationError>)
    ensures
        r is Ok <==> spec_channel_ok(value@),
        r matches Err(e) ==> is_channel_error(e),
{
    if value.unicode_len() != 0 && !str_starts_with(value, "#") {
        return Err(
            ValidationError {
                code: "invalid_channel".to_owned(),
                path: "project.channel".to_owned(),
                message: "Must start with a #.".to_owned(),
            },
        );
    }
    Ok(())
}

/// File groups of a project: group names and their file patterns.
#[derive(Clone, Debug, PartialEq, Eq)]
pub struct FileGroups(pub Vec<(String, Vec<String>)>);

/// The `project` section of `project.yml`.
#[derive(Clone, Debug, PartialEq, Eq)]
pub struct ProjectMetadataConfig {
    pub name: String,
    pub description: String,
    pub owner: String,
    pub maintainers: Vec<String>,
    pub channel: String,
}

/// The settings of a `project.yml` file.
#[derive(Clone, Debug, PartialEq, Eq)]
pub struct ProjectConfig {
    pub depends_on: Option<Vec<String>>,
    pub file_groups: Option<Vec<(String, Vec<String>)>>,
    pub project: ProjectMetadataConfig,
}

impl ProjectConfig {
    /// The configuration used when a project has no file: no dependencies
    /// or file groups, empty metadata with one empty maintainer.
    pub fn default() -> (c: ProjectConfig)
        ensures
            c.depends_on is None,
            c.file_groups is None,
            c.project.name@ == Seq::<char>::empty(),
            c.project.description@ == Seq::<char>::empty(),
            c.project.owner@ == Seq::<char>::empty(),
            c.project.maintainers.deep_view() == seq![Seq::<char>::empty()],
            c.project.channel@ == Seq::<char>::empty(),
    {
        let mut maintainers: Vec<String> = Vec::new();
        maintainers.push(String::new());
        assert(maintainers.deep_view() =~= seq![Seq::<char>::empty()]);
        ProjectConfig {
            depends_on: None,
            file_groups: None,
            project: ProjectMetadataConfig {
                name: String::new(),
                description: String::new(),
                owner: String::new(),
                maintainers,
                channel: String::new(),
            },
        }
    }

    /// Checks the fields that have rules (the channel).
    pub fn validate(&self) -> (r: Result<(), ValidationError>)
        ensures
            r is Ok <==> spec_channel_ok(self.project.channel@),
            r matches Err(e) ==> is_channel_error(e),
    {
        validate_channel(self.project.channel.as_str())
    }
}

/// Options for pip as the Python package manager.
#[derive(Clone, Debug, PartialEq, Eq)]
pub struct PipConfig {
    /// Arguments appended to `pip install` commands.
    pub install_args: Vec<String>,
}

/// The package managers for Python.
#[derive(Clone, Copy, Debug, PartialEq, Eq, Structural)]
pub enum PythonPackageManager {
    Pip,
    Uv,
}

/// Options for uv as the Python package manager.
#[derive(Clone, Debug, PartialEq, Eq)]
pub struct UvConfig {
    /// Arguments appended to `uv sync` commands.
    pub sync_args: Vec<String>,
    /// The version of uv to use.
    pub version: Option<String>,
}

/// Python toolchain settings.
#[derive(Clone, Debug, PartialEq, Eq)]
pub struct PythonConfig {
    pub package_manager: PythonPackageManager,
    pub pip: PipConfig,
    pub root_requirements_only: bool,
    pub uv: Option<UvConfig>,
    pub venv_name: String,
    pub version: Option<String>,
}

impl PythonConfig {
    /// Makes sure the settings of the chosen package manager exist: uv gets
    /// empty settings when it has none; pip is built in.
    pub fn ensure_package_manager(&mut self)
        ensures
            final(self).package_manager == old(self).package_manager,
            final(self).pip == old(self).pip,
            final(self).root_requirements_only == old(self).root_requirements_only,
            final(self).venv_name == old(self).venv_name,
            final(self).version == old(self).version,
            old(self).package_manager == PythonPackageManager::Pip ==> final(self).uv == old(self).uv,
            old(self).package_manager == PythonPackageManager::Uv ==> (
                if old(self).uv is Some {
                    final(self).uv == old(self).uv
                } else {
                    final(self).uv matches Some(u) && u.sync_args@.len() == 0 && u.version is None
                }),
    {
        match self.package_manager {
            PythonPackageManager::Pip => {},
            PythonPackageManager::Uv => {
                if self.uv.is_none() {
                    self.uv = Some(UvConfig { sync_args: Vec::new(), version: None });
                }
            },
        }
    }
}

} // verus!

verus! {

impl ProjectConfig {
    /// The configuration read from a file: the parse failure as it is, or
    /// the parsed configuration when its fields are valid, else the error
    /// of the channel (field `project.channel`, "Must start with a #.").
    pub fn load_parsed(parsed: Result<ProjectConfig, ValidationError>) -> (r: Result<ProjectConfig, ValidationError>)
        ensures
            match parsed {
                Err(e) => r == Err::<ProjectConfig, ValidationError>(e),
                Ok(c) => (r is Ok <==> spec_channel_ok(c.project.channel@)) && (r is Ok ==> r == Ok::<
                    ProjectConfig,
                    ValidationError,
                >(c)) && (r matches Err(e) ==> is_channel_error(e)),
            },
    {
        match parsed {
            Err(e) => Err(e),
            Ok(c) => match c.validate() {
                Ok(()) => Ok(c),
                Err(e) => Err(e),
            },
        }
    }

    /// The name of the configuration file.
    pub fn file_name() -> (r: &'static str)
        ensures
            r@ == "project.yml"@,
    {
        "project.yml"
    }
}

} // verus!
