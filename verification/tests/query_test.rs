use moon::query::{
    diff_line_output, diff_line_text, diff_lists, hash_diff_output, group_lines, group_tasks, hash_diff_lists, hash_diff_text, project_line,
    projects_listing, touched_files_listing, DiffLine, ProjectRow, QueryHashArgs, QueryHashDiffArgs, TaskRow,
};
use moon::target::Target;

#[test]
fn lists_differing_lines_trimmed() {
    let (left, right) = hash_diff_lists("a\n  b \nc", "a\nx\nc");
    assert_eq!(left, vec!["b".to_string()]);
    assert_eq!(right, vec!["x".to_string()]);
}

#[test]
fn identical_manifests_have_no_differences() {
    let (left, right) = hash_diff_lists("{\n  \"a\": 1\n}", "{\n  \"a\": 1\n}");
    assert!(left.is_empty());
    assert!(right.is_empty());
}

#[test]
fn renders_diff_as_plain_text() {
    assert_eq!(
        hash_diff_text("a\nb\nc", "a\nx\nc"),
        vec![" a".to_string(), "+b".to_string(), "-x".to_string(), " c".to_string()]
    );
    assert_eq!(diff_line_text(&DiffLine::Both("l".into(), "r".into())), " l");
}

#[test]
fn splits_given_diff_lines() {
    let d = vec![
        DiffLine::Left(" one ".into()),
        DiffLine::Both("same".into(), "same".into()),
        DiffLine::Right("two".into()),
        DiffLine::Left("three".into()),
    ];
    let (left, right) = diff_lists(&d);
    assert_eq!(left, vec!["one".to_string(), "three".to_string()]);
    assert_eq!(right, vec!["two".to_string()]);
}

#[test]
fn holds_query_arguments() {
    let a = QueryHashArgs { hash: "abc".into(), json: true };
    assert_eq!(a.clone(), a);
    let d = QueryHashDiffArgs { left: "l".into(), right: "r".into(), json: false };
    assert_eq!(d.left, "l");
}

fn row(id: &str, description: Option<&str>) -> ProjectRow {
    ProjectRow {
        id: id.into(),
        source: format!("packages/{id}"),
        stack: "frontend".into(),
        type_of: "library".into(),
        language: "typescript".into(),
        description: description.map(|d| d.to_string()),
    }
}

#[test]
fn writes_project_lines() {
    assert_eq!(
        project_line(&row("ui", Some("Components"))),
        "ui | packages/ui | frontend | library | typescript | Components"
    );
    assert_eq!(project_line(&row("ui", None)), "ui | packages/ui | frontend | library | typescript | ...");
}

#[test]
fn lists_projects_by_id() {
    let listing = projects_listing(vec![row("web", None), row("api", Some("API"))]);
    assert_eq!(
        listing,
        "api | packages/api | frontend | library | typescript | API\nweb | packages/web | frontend | library | typescript | ..."
    );
    assert_eq!(projects_listing(vec![]), "");
}

#[test]
fn lists_touched_files_in_order() {
    let files = vec!["src/b.ts".to_string(), "README.md".to_string(), "src/a.ts".to_string()];
    assert_eq!(touched_files_listing(files), "README.md\nsrc/a.ts\nsrc/b.ts");
}

fn task(target: &str, id: &str, command: &str) -> TaskRow {
    TaskRow {
        target: Target::parse(target).unwrap(),
        id: id.into(),
        command: command.into(),
        type_of: "build".into(),
        platform: "node".into(),
        description: None,
    }
}

#[test]
fn groups_tasks_by_project() {
    let groups = group_tasks(vec![
        task("web:test", "test", "jest"),
        task("api:build", "build", "tsc"),
        task(":lint", "lint", "eslint"),
        task("web:build", "build", "vite"),
        task("web:test", "test", "vitest"),
    ]);
    let ids: Vec<(String, Vec<String>)> =
        groups.iter().map(|(p, ts)| (p.clone(), ts.iter().map(|(t, _)| t.clone()).collect())).collect();
    assert_eq!(
        ids,
        vec![
            ("api".to_string(), vec!["build".to_string()]),
            ("web".to_string(), vec!["build".to_string(), "test".to_string()]),
        ]
    );
    assert_eq!(groups[1].1[1].1.command, "vitest");
    assert_eq!(
        group_lines(&groups),
        vec![
            "api".to_string(),
            "\tbuild | tsc | build | node | ...".to_string(),
            "web".to_string(),
            "\tbuild | vite | build | node | ...".to_string(),
            "\ttest | vitest | build | node | ...".to_string(),
        ]
    );
}

fn green_or_plain(v: &str, r: &str) -> bool {
    r == v || r == format!("\u{1b}[38;5;41m{v}\u{1b}[0m") || r == format!("\u{1b}[38;5;28m{v}\u{1b}[0m")
}

fn red_or_plain(v: &str, r: &str) -> bool {
    r == v || r == format!("\u{1b}[38;5;161m{v}\u{1b}[0m") || r == format!("\u{1b}[38;5;160m{v}\u{1b}[0m")
}

#[test]
fn diff_lines_off_a_terminal_are_plain() {
    assert_eq!(diff_line_output(&DiffLine::Left("a".into()), false), "+a");
    assert_eq!(diff_line_output(&DiffLine::Both("b".into(), "b".into()), false), " b");
    assert_eq!(diff_line_output(&DiffLine::Right("c".into()), false), "-c");
}

#[test]
fn diff_lines_on_a_terminal_are_painted() {
    assert_eq!(diff_line_output(&DiffLine::Both("b".into(), "b".into()), true), "b");
    assert!(green_or_plain("a", &diff_line_output(&DiffLine::Left("a".into()), true)));
    assert!(red_or_plain("c", &diff_line_output(&DiffLine::Right("c".into()), true)));
}

#[test]
fn hash_diff_output_lines() {
    let out = hash_diff_output("h1", "h2", "a\nb\nc", "a\nx\nc", false);
    assert_eq!(out.len(), 7);
    assert!(out[0].starts_with("Left:  ") && green_or_plain("h1", &out[0][7..]));
    assert!(out[1].starts_with("Right: ") && green_or_plain("h2", &out[1][7..]));
    assert_eq!(out[2], "");
    assert_eq!(&out[3..], &[" a".to_string(), "+b".to_string(), "-x".to_string(), " c".to_string()]);
    let tty = hash_diff_output("h1", "h2", "a\nb\nc", "a\nx\nc", true);
    assert_eq!(tty[3], "a");
    assert!(green_or_plain("b", &tty[4]));
    assert!(red_or_plain("x", &tty[5]));
    assert_eq!(tty[6], "c");
}
