use moon::hooks::{default_shell, hook_file_contents, hook_file_name, synced_contents, HooksGenerator, ShellType};

fn strings(list: &[&str]) -> Vec<String> {
    list.iter().map(|s| s.to_string()).collect()
}

#[test]
fn names_hook_scripts() {
    assert_eq!(hook_file_name("pre-commit", ShellType::Bash), "pre-commit.sh");
    assert_eq!(hook_file_name("pre-commit", ShellType::PowerShell), "pre-commit.ps1");
    assert_eq!(default_shell(true, false), ShellType::Bash);
}

#[test]
fn writes_hook_scripts() {
    assert_eq!(
        hook_file_contents(ShellType::Bash, &strings(&["moon run :lint"]), true),
        "#!/usr/bin/env bash\nset -eo pipefail\n\n# Automatically generated by moon. DO NOT MODIFY!\n# https://moonrepo.dev/docs/guides/vcs-hooks\n\nmoon run :lint"
    );
    assert_eq!(
        hook_file_contents(ShellType::PowerShell, &strings(&["a", "b"]), false),
        "#!/usr/bin/env pwsh\n$ErrorActionPreference = 'Stop'\n\na\nb"
    );
}

#[test]
fn syncs_existing_hooks_once() {
    let first = synced_contents("#!/bin/sh\necho hi", "/ws/.moon/hooks/pre-commit.sh").unwrap();
    assert_eq!(first, "#!/bin/sh\necho hi\n/ws/.moon/hooks/pre-commit.sh");
    assert_eq!(synced_contents(&first, "/ws/.moon/hooks/pre-commit.sh"), None);
}

#[test]
fn generates_and_syncs_hooks() {
    let g = HooksGenerator::new(
        "/ws",
        "/ws/.git/hooks",
        vec![("pre-commit".to_string(), strings(&["moon run :lint"]))],
        ShellType::Bash,
    );
    let hooks = g.create_hooks();
    assert_eq!(hooks.len(), 1);
    assert_eq!(hooks[0].0, "pre-commit");
    assert_eq!(hooks[0].1, "/ws/.moon/hooks/pre-commit.sh");
    assert!(hooks[0].2.ends_with("\nmoon run :lint"));

    let (path, contents) = g.sync_file("pre-commit", &hooks[0].1, &None).unwrap();
    assert_eq!(path, "/ws/.git/hooks/pre-commit");
    assert_eq!(contents, "#!/usr/bin/env bash\nset -eo pipefail\n\n/ws/.moon/hooks/pre-commit.sh");
    assert_eq!(g.sync_file("pre-commit", &hooks[0].1, &Some(contents)), None);
    assert_eq!(
        g.sync_file("pre-commit", &hooks[0].1, &Some("custom".into())),
        Some(("/ws/.git/hooks/pre-commit".to_string(), "custom\n/ws/.moon/hooks/pre-commit.sh".to_string()))
    );
}

fn sync_all(g: &HooksGenerator, hooks: &[(String, String, String)], files: &mut std::collections::BTreeMap<String, String>) -> usize {
    let mut writes = 0;
    for (name, internal, _) in hooks {
        let path = g.external_hook_path(name);
        let existing = files.get(&path).cloned();
        if let Some((p, c)) = g.sync_file(name, internal, &existing) {
            files.insert(p, c);
            writes += 1;
        }
    }
    writes
}

#[test]
fn syncing_hooks_twice_changes_nothing() {
    let g = HooksGenerator::new(
        "/ws",
        "/ws/.git/hooks",
        vec![
            ("pre-commit".to_string(), strings(&["moon run :lint"])),
            ("pre-push".to_string(), strings(&["moon check --all"])),
            ("commit-msg".to_string(), strings(&["moon run :commitlint"])),
        ],
        ShellType::Bash,
    );
    let hooks = g.create_hooks();
    let mut files = std::collections::BTreeMap::new();
    files.insert("/ws/.git/hooks/pre-push".to_string(), "#!/bin/sh\nexisting".to_string());
    files.insert(
        "/ws/.git/hooks/commit-msg".to_string(),
        "#!/bin/sh\n/ws/.moon/hooks/commit-msg.sh".to_string(),
    );
    assert_eq!(sync_all(&g, &hooks, &mut files), 2);
    assert_eq!(files["/ws/.git/hooks/pre-push"], "#!/bin/sh\nexisting\n/ws/.moon/hooks/pre-push.sh");
    assert_eq!(files["/ws/.git/hooks/commit-msg"], "#!/bin/sh\n/ws/.moon/hooks/commit-msg.sh");
    let after = files.clone();
    assert_eq!(sync_all(&g, &hooks, &mut files), 0);
    assert_eq!(files, after);
}
