use moon::node_task::{
    clean_env_var, clean_output_path, convert_args_to_task, convert_script_to_task, detect_task_type, is_bash_script,
    is_node_script, TaskError, TaskType,
};
use moon::script_parser::{create_tasks_from_scripts, ScriptParser};
use moon::script_rules::{cd_command, clean_script_name, should_run_in_ci};

fn strings(list: &[&str]) -> Vec<String> {
    list.iter().map(|s| s.to_string()).collect()
}

#[test]
fn recognizes_script_files() {
    assert!(is_bash_script("./run.sh"));
    assert!(!is_bash_script("run.shx"));
    assert!(is_node_script("a.js"));
    assert!(is_node_script("a.cjs"));
    assert!(is_node_script("a.mjs"));
    assert!(!is_node_script("a.ts"));
}

#[test]
fn decides_ci_runs() {
    assert!(should_run_in_ci("eslint ."));
    assert!(!should_run_in_ci("jest --watch"));
    assert!(!should_run_in_ci("next dev"));
    assert!(!should_run_in_ci("vite"));
    assert!(!should_run_in_ci("npx webpack"));
    assert!(should_run_in_ci("vite build"));
    assert!(should_run_in_ci("next dev --help"));
    assert!(!should_run_in_ci("concurrently a b"));
}

#[test]
fn cleans_names_and_values() {
    assert_eq!(clean_script_name("build:app"), "build-app");
    assert_eq!(clean_script_name("test:e2e@ci"), "test-e2e-ci");
    assert_eq!(clean_script_name("ok_name-1"), "ok_name-1");
    assert_eq!(clean_env_var("KEY=value;"), ("KEY".to_string(), "value".to_string()));
    assert_eq!(clean_env_var("KEY=a=b"), ("KEY".to_string(), "a".to_string()));
    assert_eq!(clean_env_var("KEY"), ("KEY".to_string(), "".to_string()));
}

#[test]
fn cleans_output_paths() {
    assert_eq!(clean_output_path("app:build", "./dist"), Ok("dist".to_string()));
    assert_eq!(clean_output_path("app:build", "lib"), Ok("lib".to_string()));
    assert_eq!(
        clean_output_path("app:build", "../dist"),
        Err(TaskError::NoParentOutput("../dist".into(), "app:build".into()))
    );
    assert_eq!(
        clean_output_path("app:build", "/dist"),
        Err(TaskError::NoAbsoluteOutput("/dist".into(), "app:build".into()))
    );
    assert_eq!(
        clean_output_path("app:build", "C:\\dist"),
        Err(TaskError::NoAbsoluteOutput("C:\\dist".into(), "app:build".into()))
    );
}

#[test]
fn detects_system_commands() {
    assert_eq!(detect_task_type("git"), TaskType::System);
    assert_eq!(detect_task_type("noop"), TaskType::System);
    assert_eq!(detect_task_type("bash"), TaskType::System);
    assert_eq!(detect_task_type("node"), TaskType::Node);
    assert_eq!(detect_task_type("gitx"), TaskType::Node);
}

#[test]
fn converts_scripts_to_tasks() {
    let task = convert_script_to_task("app:lint", "lint", "eslint . --fix").unwrap();
    assert_eq!(task.command, "eslint");
    assert_eq!(task.args, strings(&[".", "--fix"]));
    assert_eq!(task.type_of, TaskType::Node);
    assert!(task.run_in_ci);

    let task = convert_script_to_task("app:build", "build", "NODE_ENV=production tsc --outDir dist").unwrap();
    assert_eq!(task.env, vec![("NODE_ENV".to_string(), "production".to_string())]);
    assert_eq!(task.command, "tsc");
    assert_eq!(task.args, strings(&["--outDir", "dist"]));
    assert_eq!(task.outputs, strings(&["dist"]));

    let task = convert_script_to_task("app:run", "run", "./scripts/run.sh 'a b'").unwrap();
    assert_eq!(task.command, "bash");
    assert_eq!(task.args, strings(&["./scripts/run.sh", "a b"]));
    assert_eq!(task.type_of, TaskType::System);

    let task = convert_script_to_task("app:start", "start", "server.js --port 3").unwrap();
    assert_eq!(task.command, "node");
    assert_eq!(task.args, strings(&["server.js", "--port", "3"]));

    let task = convert_script_to_task("app:empty", "empty", "").unwrap();
    assert_eq!(task.command, "noop");
    assert_eq!(task.type_of, TaskType::System);

    assert_eq!(
        convert_script_to_task("app:build", "build", "tsc --outDir ../dist").map(|t| t.command),
        Err(TaskError::NoParentOutput("../dist".into(), "app:build".into()))
    );
    assert_eq!(
        convert_script_to_task("app:bad", "bad", "echo 'unclosed").map(|t| t.command),
        Err(TaskError::ArgsSplit("echo 'unclosed".into()))
    );
}

#[test]
fn converts_split_arguments() {
    let task = convert_args_to_task("app:x", "A=1 cmd -o out", &strings(&["A=1", "cmd", "-o", "out"])).unwrap();
    assert_eq!(task.command, "cmd");
    assert_eq!(task.args, strings(&["-o", "out"]));
    assert_eq!(task.outputs, strings(&["out"]));
    assert_eq!(task.target, "app:x");
}

#[test]
fn splits_compound_scripts() {
    let parser = ScriptParser::new("app");
    assert_eq!(parser.parse_script("a &&b&& c"), strings(&["a", "b", "c"]));
}

#[test]
fn parses_scripts_with_hooks() {
    let scripts = vec![
        ("prebuild".to_string(), "rm -rf dist && mkdir dist".to_string()),
        ("build".to_string(), "tsc".to_string()),
        ("postbuild".to_string(), "echo done".to_string()),
        ("test:unit".to_string(), "jest".to_string()),
        ("dev".to_string(), "cd app && vite".to_string()),
        ("install".to_string(), "echo lifecycle".to_string()),
        ("all".to_string(), "npm run build && npm run test".to_string()),
        ("bad".to_string(), "a | b".to_string()),
    ];
    let tasks = create_tasks_from_scripts("app", Some(&scripts)).unwrap();
    let ids: Vec<&str> = tasks.iter().map(|(id, _)| id.as_str()).collect();
    assert_eq!(ids, vec!["build", "build-post1", "build-pre1", "build-pre2", "test-unit"]);
    let build = &tasks[0].1;
    assert_eq!(build.command, "tsc");
    assert_eq!(build.deps, strings(&["~:build-pre1", "~:build-pre2"]));
    assert_eq!(tasks[1].1.deps, strings(&["~:build"]));
    assert_eq!(tasks[2].1.command, "rm");
    assert_eq!(tasks[2].1.target, "app:build-pre1");
    assert_eq!(tasks[4].1.target, "app:test-unit");
    assert!(create_tasks_from_scripts("app", None).unwrap().is_empty());
}

fn chars(s: &str) -> Vec<char> {
    s.chars().collect()
}

#[test]
fn cd_rule_follows_unicode_word_boundaries() {
    assert!(cd_command(&chars("cd x")));
    assert!(cd_command(&chars("a && cd x")));
    assert!(cd_command(&chars("-cd x")));
    assert!(cd_command(&chars("\u{20ac}cd x")));
    assert!(!cd_command(&chars("acd x")));
    assert!(!cd_command(&chars("_cd x")));
    assert!(!cd_command(&chars("9cd x")));
    assert!(!cd_command(&chars("\u{e9}cd x")));
    assert!(!cd_command(&chars("\u{3b1}cd x")));
    assert!(!cd_command(&chars("cdx")));
}

#[test]
fn scripts_changing_directory_after_a_symbol_are_skipped() {
    let scripts = vec![
        ("euro".to_string(), "\u{20ac}cd x".to_string()),
        ("word".to_string(), "\u{e9}cd x".to_string()),
    ];
    let tasks = create_tasks_from_scripts("app", Some(&scripts)).unwrap();
    let ids: Vec<&str> = tasks.iter().map(|(id, _)| id.as_str()).collect();
    assert_eq!(ids, vec!["word"]);
}
