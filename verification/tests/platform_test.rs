use moon::platform::{find_bin_path, get_bin_name, get_bin_path, get_global_lookups, ProtoError, TargetOs};

#[test]
fn names_binaries_per_os() {
    assert_eq!(get_bin_name("node", TargetOs::Linux), "bin/node");
    assert_eq!(get_bin_name("node", TargetOs::MacOs), "bin/node");
    assert_eq!(get_bin_name("node", TargetOs::Windows), "node.exe");
}

#[test]
fn lists_global_lookups() {
    assert_eq!(
        get_global_lookups("/home/u", TargetOs::Linux),
        vec![
            "/home/u/.nvm/versions/node".to_string(),
            "/home/u/.local/share/pnpm".to_string(),
            "/home/u/.config/yarn".to_string()
        ]
    );
    assert_eq!(
        get_global_lookups("C:\\Users\\u", TargetOs::Windows),
        vec![
            "C:\\Users\\u\\AppData\\npm".to_string(),
            "C:\\Users\\u\\AppData\\Roaming\\npm".to_string(),
            "C:\\Users\\u\\AppData\\Local\\pnpm".to_string(),
            "C:\\Users\\u\\AppData\\Yarn\\config".to_string()
        ]
    );
}

#[test]
fn finds_node_binary() {
    assert_eq!(find_bin_path("node", "/opt/node", TargetOs::Linux, true), Ok("/opt/node/bin/node".to_string()));
    assert_eq!(
        find_bin_path("node", "/opt/node", TargetOs::Linux, false),
        Err(ProtoError::ExecuteMissingBin("node".into(), "/opt/node/bin/node".into()))
    );
    assert_eq!(get_bin_path("node", &Some("/x".into())), Ok("/x".to_string()));
    assert_eq!(get_bin_path("node", &None), Err(ProtoError::MissingTool("node".into())));
}
