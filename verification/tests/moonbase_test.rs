use moon::moonbase::{
    artifact_file_name, artifact_request_path, artifact_upload_url, success_data, Moonbase, Response, SigninResponse,
};

#[test]
fn signs_in_with_keys() {
    let body = Moonbase::signin_body("secret".into(), "api".into(), "org/repo".into());
    assert_eq!(body.organization_key, "secret");
    assert_eq!(body.repository, "org/repo");
    assert_eq!(body.repository_key, "api");
}

#[test]
fn starts_sessions_on_success_only() {
    let ok = Response::Success(SigninResponse { organization_id: 1, repository_id: 2, token: "tok".into() });
    assert_eq!(
        Moonbase::from_signin(ok),
        Some(Moonbase { auth_token: "tok".into(), organization_id: 1, repository_id: 2 })
    );
    let failed: Response<SigninResponse> = Response::Failure { message: "bad keys".into(), status: 401 };
    assert_eq!(Moonbase::from_signin(failed), None);
}

#[test]
fn reads_artifacts() {
    assert_eq!(success_data(Response::Success(5u8)), Some(5));
    assert_eq!(success_data::<u8>(Response::Failure { message: "nope".into(), status: 404 }), None);
    assert_eq!(artifact_request_path("abc"), "artifacts/abc");
    assert_eq!(artifact_upload_url("https://api.moonrepo.app", "abc"), "https://api.moonrepo.app/artifacts/abc");
    assert_eq!(artifact_file_name(Some("out.tar.gz".into()), "abc"), "out.tar.gz");
    assert_eq!(artifact_file_name(None, "abc"), "abc.tar.gz");
}
