//! Tools that resolve versions, and lenient parsing of version text.

use vstd::prelude::*;

verus! {

/// A tool that knows which version it resolved to.
pub trait Resolvable {
    /// The resolved version.
    fn get_resolved_version(&self) -> &str;
}

/// A semantic version: three numbers, a pre-release part and build metadata
/// (both empty when absent).
#[derive(Clone, Debug, PartialEq, Eq)]
pub struct SemVersion {
    pub major: u64,
    pub minor: u64,
    pub patch: u64,
    pub pre: String,
    pub build: String,
}

/// What probing a tool can fail with.
#[derive(Clone, Debug, PartialEq, Eq)]
pub enum ProbeError {
    /// The version text (first) could not be parsed, for the reason given (second).
    VersionParseFailed(String, String),
}

pub type VersionParts = (u64, u64, u64, Seq<char>, Seq<char>);

/// The parts of a version, or the message of the error.
pub open spec fn parsed_view(r: Result<SemVersion, String>) -> Result<VersionParts, Seq<char>> {
    match r {
        Ok(v) => Ok((v.major, v.minor, v.patch, v.pre@, v.build@)),
        Err(m) => Err(m@),
    }
}

/// What lenient version parsing gives for a text: the parts of the version
/// it reads, or the message of its error.
pub uninterp spec fn lenient_version(input: Seq<char>) -> Result<VersionParts, Seq<char>>;

/// Parses a version leniently with `lenient_semver::parse` (missing minor
/// and patch numbers read as zero, a leading `v` is allowed, among other
/// forgiving rules). Claimed: the outcome is a function of the text alone,
/// named `lenient_version`; the pre-release and build parts are taken as
/// their text, the error as its message.
#[verifier::external_body]
fn lenient_parse(input: &str) -> (r: Result<SemVersion, String>)
    ensures
        parsed_view(r) == lenient_version(input@),
{
    match lenient_semver::parse(input) {
        Ok(v) => Ok(SemVersion {
            major: v.major,
            minor: v.minor,
            patch: v.patch,
            pre: v.pre.as_str().to_string(),
            build: v.build.as_str().to_string(),
        }),
        Err(e) => Err(e.to_string()),
    }
}

pub open spec fn spec_version_result(version: Seq<char>, parsed: Result<VersionParts, Seq<char>>) -> Result<
    VersionParts,
    (Seq<char>, Seq<char>),
> {
    match parsed {
        Ok(p) => Ok(p),
        Err(m) => Err((version, m)),
    }
}

pub open spec fn probe_result_view(r: Result<SemVersion, ProbeError>) -> Result<VersionParts, (Seq<char>, Seq<char>)> {
    match r {
        Ok(v) => Ok((v.major, v.minor, v.patch, v.pre@, v.build@)),
        Err(ProbeError::VersionParseFailed(t, m)) => Err((t@, m@)),
    }
}

/// The outcome of parsing `version`, given what the parser returned: the
/// version, or a parse failure that names the text and the reason.
pub fn version_from_parsed(version: &str, parsed: Result<SemVersion, String>) -> (r: Result<SemVersion, ProbeError>)
    ensures
        probe_result_view(r) == spec_version_result(version@, parsed_view(parsed)),
{
    match parsed {
        Ok(v) => Ok(v),
        Err(m) => Err(ProbeError::VersionParseFailed(version.to_owned(), m)),
    }
}

/// Parses a version leniently.
pub fn parse_version(version: &str) -> (r: Result<SemVersion, ProbeError>)
    ensures
        probe_result_view(r) == spec_version_result(version@, lenient_version(version@)),
{
    let parsed = lenient_parse(version);
    version_from_parsed(version, parsed)
}

/// The major number of a parse outcome; zero when parsing failed.
pub open spec fn spec_major(parsed: Result<VersionParts, Seq<char>>) -> u64 {
    match parsed {
        Ok(p) => p.0,
        Err(_) => 0,
    }
}

/// The major number of a parse outcome; zero when parsing failed.
pub fn major_of(parsed: &Result<SemVersion, String>) -> (r: u64)
    ensures
        r == spec_major(parsed_view(*parsed)),
{
    match parsed {
        Ok(v) => v.major,
        Err(_) => 0,
    }
}

/// The major number of a version text; zero when it cannot be parsed.
pub fn extract_major_version(version: &str) -> (r: u64)
    ensures
        r == spec_major(lenient_version(version@)),
{
    let parsed = lenient_parse(version);
    major_of(&parsed)
}

} // verus!
