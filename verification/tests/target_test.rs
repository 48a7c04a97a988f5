use moon::target::{Target, TargetError, TargetScope};

#[test]
fn parses_scopes() {
    let t = Target::parse(":build").unwrap();
    assert_eq!(t.scope, TargetScope::All);
    assert_eq!(t.id, ":build");

    let t = Target::parse("^:build").unwrap();
    assert_eq!(t.scope, TargetScope::Deps);
    assert_eq!(t.task_id, "build");

    let t = Target::parse("~:build").unwrap();
    assert_eq!(t.scope, TargetScope::OwnSelf);

    let t = Target::parse("app:build").unwrap();
    assert_eq!(t.scope, TargetScope::Project("app".into()));
    assert_eq!(t.id, "app:build");

    let t = Target::parse("#tag:build").unwrap();
    assert_eq!(t.scope, TargetScope::Tag("tag".into()));
    assert_eq!(t.id, "#tag:build");
}

#[test]
fn text_without_colon_is_own_task() {
    assert_eq!(Target::parse("build").unwrap(), Target::new_self("build").unwrap());
    assert_eq!(Target::new_self("build").unwrap().id, "~:build");
}

#[test]
fn refuses_invalid_targets() {
    assert_eq!(Target::parse(":"), Err(TargetError::TooWild));
    assert_eq!(Target::parse("a:b:c"), Err(TargetError::InvalidFormat("a:b:c".into())));
    assert_eq!(Target::parse("app:"), Err(TargetError::InvalidFormat("app:".into())));
    assert_eq!(Target::parse("9app:build"), Err(TargetError::InvalidFormat("9app:build".into())));
}
