use moon::config::{validate_channel, PipConfig, ProjectConfig, PythonConfig, PythonPackageManager, UvConfig, ValidationError};

fn config_with_channel(channel: &str) -> ProjectConfig {
    let mut config = ProjectConfig::default();
    config.project.channel = channel.into();
    config
}

fn load(config: ProjectConfig) -> ProjectConfig {
    match ProjectConfig::load_parsed(Ok(config)) {
        Ok(c) => c,
        Err(e) => panic!("Invalid field `{}`. {}", e.path, e.message),
    }
}

#[test]
#[should_panic(expected = "Invalid field `project.channel`. Must start with a #.")]
fn channel_leading_hash() {
    load(config_with_channel("name"));
}

#[test]
fn accepts_channels_with_hash_or_empty() {
    assert_eq!(load(config_with_channel("#general")).project.channel, "#general");
    assert_eq!(load(config_with_channel("")).project.channel, "");
    assert!(validate_channel("#x").is_ok());
    assert_eq!(
        validate_channel("x"),
        Err(ValidationError {
            code: "invalid_channel".into(),
            path: "project.channel".into(),
            message: "Must start with a #.".into()
        })
    );
}

#[test]
fn keeps_parse_failures() {
    let e = ValidationError { code: "parse".into(), path: "project".into(), message: "Missing field `project`.".into() };
    assert_eq!(ProjectConfig::load_parsed(Err(e.clone())), Err(e));
}

#[test]
fn default_project_config() {
    let c = ProjectConfig::default();
    assert_eq!(c.depends_on, None);
    assert_eq!(c.file_groups, None);
    assert_eq!(c.project.maintainers, vec![String::new()]);
    assert_eq!(ProjectConfig::file_name(), "project.yml");
}

#[test]
fn gives_uv_settings_when_chosen() {
    let mut python = PythonConfig {
        package_manager: PythonPackageManager::Uv,
        pip: PipConfig { install_args: vec![] },
        root_requirements_only: false,
        uv: None,
        venv_name: ".venv".into(),
        version: None,
    };
    python.ensure_package_manager();
    assert_eq!(python.uv, Some(UvConfig { sync_args: vec![], version: None }));

    let mut pip = PythonConfig { package_manager: PythonPackageManager::Pip, uv: None, ..python.clone() };
    pip.ensure_package_manager();
    assert_eq!(pip.uv, None);
}
