use moon::deno::{manifest_deps, command_env, install_args, BinConfig, BinEntry, DenoConfig, DenoPlatform, Runtime, RuntimeReq};
use moon::turbo::PlatformType;

fn strings(list: &[&str]) -> Vec<String> {
    list.iter().map(|s| s.to_string()).collect()
}

fn platform(version: Option<&str>, bins: Vec<BinEntry>) -> DenoPlatform {
    DenoPlatform::new(
        DenoConfig { bins, deps_file: "deps.ts".into(), lockfile: true, version: version.map(|v| v.to_string()) },
        "/ws".into(),
    )
}

#[test]
fn picks_runtime_by_precedence() {
    let p = platform(Some("1.30.0"), vec![]);
    assert_eq!(
        p.get_runtime_from_config(&Some("1.40.0".into())),
        Runtime { platform: PlatformType::Deno, requirement: RuntimeReq::Toolchain("1.40.0".into()), overridden: true }
    );
    assert_eq!(
        p.get_runtime_from_config(&None),
        Runtime { platform: PlatformType::Deno, requirement: RuntimeReq::Toolchain("1.30.0".into()), overridden: false }
    );
    assert_eq!(
        platform(None, vec![]).get_runtime_from_config(&None),
        Runtime { platform: PlatformType::Deno, requirement: RuntimeReq::Global, overridden: false }
    );
}

#[test]
fn matches_deno_tasks() {
    let p = platform(None, vec![]);
    assert!(p.matches(&PlatformType::Deno, None));
    let rt = Runtime { platform: PlatformType::Deno, requirement: RuntimeReq::Global, overridden: false };
    assert!(p.matches(&PlatformType::Node, Some(&rt)));
    assert!(!p.matches(&PlatformType::Node, None));
    assert_eq!(p.get_type(), PlatformType::Deno);
    assert!(!p.is_toolchain_enabled());
    assert!(platform(Some("1"), vec![]).is_toolchain_enabled());
    assert_eq!(p.get_dependency_configs(), Some(("deno.lock".to_string(), "deps.ts".to_string())));
    assert!(p.caches_dependencies());
}

#[test]
fn builds_install_arguments() {
    let base = ["install", "--allow-net", "--allow-read", "--no-prompt", "--lock", "deno.lock"];
    let mut named = base.to_vec();
    named.push("https://x/mod.ts");
    assert_eq!(install_args(&BinEntry::Name("https://x/mod.ts".into()), false), Some(strings(&named)));

    let cfg = BinConfig { bin: "https://y/cli.ts".into(), force: true, local: true, name: Some("cli".into()) };
    assert_eq!(install_args(&BinEntry::Config(cfg.clone()), true), None);
    let mut full = base.to_vec();
    full.extend(["--force", "--name", "cli", "https://y/cli.ts"]);
    assert_eq!(install_args(&BinEntry::Config(cfg.clone()), false), Some(strings(&full)));

    let p = platform(None, vec![BinEntry::Config(cfg), BinEntry::Name("https://x/mod.ts".into())]);
    assert_eq!(p.install_commands(true), vec![strings(&named)]);
    assert_eq!(p.install_commands(false).len(), 2);
}

#[test]
fn sets_command_environment() {
    let task_env = vec![("A".to_string(), "1".to_string()), ("PATH".to_string(), "old".to_string())];
    assert_eq!(
        command_env(&task_env, Some("1.40.0".into()), &RuntimeReq::Toolchain("1.40.0".into()), "/new".into()),
        vec![
            ("A".to_string(), "1".to_string()),
            ("PATH".to_string(), "/new".to_string()),
            ("PROTO_DENO_VERSION".to_string(), "1.40.0".to_string()),
        ]
    );
    assert_eq!(command_env(&task_env, None, &RuntimeReq::Global, "/new".into()), task_env);
}

#[test]
fn chooses_setup_requirement() {
    assert_eq!(platform(Some("1.2.3"), vec![]).setup_requirement(), RuntimeReq::Toolchain("1.2.3".into()));
    assert_eq!(platform(None, vec![]).setup_requirement(), RuntimeReq::Global);
}

#[test]
fn collects_manifest_dependencies() {
    let pairs = |l: &[(&str, &str)]| l.iter().map(|(a, b)| (a.to_string(), b.to_string())).collect::<Vec<_>>();
    let deps = manifest_deps(
        &Some(pairs(&[("std/", "https://deno.land/std@0.1/"), ("a", "1")])),
        &Some(pairs(&[("a", "2"), ("b", "3")])),
        &Some(("deps.ts".to_string(), "hash".to_string())),
    );
    assert_eq!(deps, pairs(&[("a", "2"), ("b", "3"), ("deps.ts", "hash"), ("std/", "https://deno.land/std@0.1/")]));
    assert!(manifest_deps(&None, &None, &None).is_empty());
}
