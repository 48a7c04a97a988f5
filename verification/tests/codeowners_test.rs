use moon::codeowners::{CodeownersConfig, CodeownersGenerator, OwnersConfig, OwnersPaths, VcsProvider};

fn strings(list: &[&str]) -> Vec<String> {
    list.iter().map(|s| s.to_string()).collect()
}

fn root_config(required: Option<u8>) -> CodeownersConfig {
    CodeownersConfig { global_paths: vec![], required_approvals: required }
}

#[test]
fn places_file_per_provider() {
    assert_eq!(CodeownersGenerator::new("/ws", VcsProvider::GitHub).file_path, "/ws/.github/CODEOWNERS");
    assert_eq!(CodeownersGenerator::new("/ws", VcsProvider::GitLab).file_path, "/ws/.gitlab/CODEOWNERS");
    assert_eq!(CodeownersGenerator::new("/ws", VcsProvider::Bitbucket).file_path, "/ws/CODEOWNERS");
}

#[test]
fn writes_github_entries() {
    let mut g = CodeownersGenerator::new("/ws", VcsProvider::GitHub);
    let config = OwnersConfig {
        default_owner: Some("@team".into()),
        optional: false,
        paths: OwnersPaths::List(strings(&["src", "docs/read me.md"])),
        required_approvals: None,
    };
    g.add_project_entry("app", "apps/app", &config, &root_config(None));
    assert_eq!(
        g.lines,
        strings(&[
            "# Automatically generated by moon. DO NOT MODIFY!",
            "# https://moonrepo.dev/docs/guides/codeowners",
            "",
            "# app",
            "/apps/app/src @team",
            "/apps/app/docs/read\\ me.md @team",
        ])
    );
    assert_eq!(
        g.contents(),
        "# Automatically generated by moon. DO NOT MODIFY!\n# https://moonrepo.dev/docs/guides/codeowners\n\n# app\n/apps/app/src @team\n/apps/app/docs/read\\ me.md @team\n"
    );
}

#[test]
fn writes_gitlab_sections() {
    let mut g = CodeownersGenerator::new("/ws", VcsProvider::GitLab);
    let config = OwnersConfig {
        default_owner: Some("@team".into()),
        optional: true,
        paths: OwnersPaths::List(strings(&["src"])),
        required_approvals: None,
    };
    g.add_project_entry("app", "apps/app", &config, &root_config(Some(2)));
    assert_eq!(g.lines[2..].to_vec(), strings(&["", "# app", "^[app][2] @team", "/apps/app/src"]));
}

#[test]
fn writes_mapped_paths_and_workspace_entries() {
    let mut g = CodeownersGenerator::new("/ws", VcsProvider::Bitbucket);
    let config = OwnersConfig {
        default_owner: Some("@lead".into()),
        optional: false,
        paths: OwnersPaths::Mapped(vec![
            ("a.ts".into(), strings(&["@x", "@y"])),
            ("b.ts".into(), vec![]),
        ]),
        required_approvals: Some(1),
    };
    g.add_project_entry("lib", "libs/lib", &config, &root_config(None));
    g.add_workspace_entries(&CodeownersConfig {
        global_paths: vec![("*".into(), strings(&["@admins"])), ("skip".into(), vec![])],
        required_approvals: None,
    });
    assert_eq!(
        g.lines[2..].to_vec(),
        strings(&[
            "",
            "# lib",
            "Check(@lead >= 1)",
            "/libs/lib/a.ts @x @y",
            "/libs/lib/b.ts @lead",
            "",
            "# (workspace)",
            "* @admins",
        ])
    );
}

#[test]
fn skips_projects_without_paths() {
    let mut g = CodeownersGenerator::new("/ws", VcsProvider::GitHub);
    let config = OwnersConfig {
        default_owner: None,
        optional: false,
        paths: OwnersPaths::List(vec![]),
        required_approvals: None,
    };
    g.add_project_entry("app", "apps/app", &config, &root_config(None));
    assert_eq!(g.lines.len(), 2);
    g.add_workspace_entries(&root_config(None));
    assert_eq!(g.lines.len(), 2);
}

#[test]
fn formats_paths() {
    let g = CodeownersGenerator::new("/ws", VcsProvider::GitHub);
    assert_eq!(g.format_path("a\\b c"), "a/b\\ c");
}
