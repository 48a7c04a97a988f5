use moon::probe::{extract_major_version, parse_version, version_from_parsed, ProbeError, SemVersion};

#[test]
fn parses_full_versions() {
    let v = parse_version("1.2.3").unwrap();
    assert_eq!((v.major, v.minor, v.patch), (1, 2, 3));
    assert_eq!(v.pre, "");
    assert_eq!(v.build, "");
}

#[test]
fn parses_versions_leniently() {
    let v = parse_version("v1").unwrap();
    assert_eq!((v.major, v.minor, v.patch), (1, 0, 0));
    let v = parse_version("2.5").unwrap();
    assert_eq!((v.major, v.minor, v.patch), (2, 5, 0));
    let v = parse_version("1.2.3-beta.1").unwrap();
    assert_eq!(v.pre, "beta.1");
}

#[test]
fn reports_unparsable_versions() {
    match parse_version("not a version") {
        Err(ProbeError::VersionParseFailed(text, reason)) => {
            assert_eq!(text, "not a version");
            assert!(!reason.is_empty());
        }
        other => panic!("unexpected {:?}", other),
    }
}

#[test]
fn maps_parser_outcomes() {
    let v = SemVersion { major: 4, minor: 0, patch: 1, pre: String::new(), build: String::new() };
    assert_eq!(version_from_parsed("4.0.1", Ok(v.clone())), Ok(v));
    assert_eq!(
        version_from_parsed("x", Err("bad".into())),
        Err(ProbeError::VersionParseFailed("x".into(), "bad".into()))
    );
}

#[test]
fn extracts_major_versions() {
    assert_eq!(extract_major_version("18.12.0"), 18);
    assert_eq!(extract_major_version("v20"), 20);
    assert_eq!(extract_major_version("nope"), 0);
}
