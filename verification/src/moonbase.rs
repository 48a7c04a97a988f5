//! The moonbase service: signing in, and reading its answers about
//! artifacts.

use vstd::prelude::*;
use vstd::string::StringExecFns;

verus! {

/// A session with moonbase.
#[derive(Clone, Debug, PartialEq, Eq)]
pub struct Moonbase {
    pub auth_token: String,
    pub organization_id: i32,
    pub repository_id: i32,
}

/// The answer of the service: a failure with a message and a status, or
/// the data asked for.
#[derive(Clone, Debug, PartialEq, Eq)]
pub enum Response<T> {
    Failure { message: String, status: u16 },
    Success(T),
}

/// What signing in sends.
#[derive(Clone, Debug, PartialEq, Eq)]
pub struct SigninBody {
    pub organization_key: String,
    pub repository: String,
    pub repository_key: String,
}

/// What a successful sign in answers.
#[derive(Clone, Debug, PartialEq, Eq)]
pub struct SigninResponse {
    pub organization_id: i32,
    pub repository_id: i32,
    pub token: String,
}

impl Moonbase {
    /// The body of a sign in: the secret key identifies the organization,
    /// the slug and the API key the repository.
    pub fn signin_body(secret_key: String, api_key: String, slug: String) -> (b: SigninBody)
        ensures
            b.organization_key == secret_key,
            b.repository == slug,
            b.repository_key == api_key,
    {
        SigninBody { organization_key: secret_key, repository: slug, repository_key: api_key }
    }

    /// The session a sign in gives: none when it failed (the process goes
    /// on without moonbase).
    pub fn from_signin(data: Response<SigninResponse>) -> (r: Option<Moonbase>)
        ensures
            match data {
                Response::Failure { .. } => r is None,
                Response::Success(s) => r == Some(
                    Moonbase {
                        auth_token: s.token,
                        organization_id: s.organization_id,
                        repository_id: s.repository_id,
                    },
                ),
            },
    {
        match data {
            Response::Failure { .. } => None,
            Response::Success(s) => Some(
                Moonbase { auth_token: s.token, organization_id: s.organization_id, repository_id: s.repository_id },
            ),
        }
    }
}

/// The data of a successful answer; none for a failure.
pub fn success_data<T>(r: Response<T>) -> (o: Option<T>)
    ensures
        match r {
            Response::Failure { .. } => o is None,
            Response::Success(t) => o == Some(t),
        },
{
    match r {
        Response::Failure { .. } => None,
        Response::Success(t) => Some(t),
    }
}

/// The request path of an artifact.
pub fn artifact_request_path(hash: &str) -> (r: String)
    ensures
        r@ == "artifacts/"@ + hash@,
{
    "artifacts/".to_owned().concat(hash)
}

/// The file name an artifact is uploaded under: the archive's own name,
/// or the hash with `.tar.gz` when the path has none.
pub fn artifact_file_name(file_name: Option<String>, hash: &str) -> (r: String)
    ensures
        r@ == match file_name {
            Some(n) => n@,
            None => hash@ + ".tar.gz"@,
        },
{
    match file_name {
        Some(n) => n,
        None => hash.to_owned().concat(".tar.gz"),
    }
}

/// The address an artifact is uploaded to.
pub fn artifact_upload_url(host: &str, hash: &str) -> (r: String)
    ensures
        r@ == host@ + "/artifacts/"@ + hash@,
{
    host.to_owned().concat("/artifacts/").concat(hash)
}

} // verus!
