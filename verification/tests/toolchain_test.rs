use moon::toolchain::{DirAction, Toolchain};

#[test]
fn tools_dir_is_made_under_the_toolchain_dir() {
    let mut tc = Toolchain::new();
    let step = tc.get_dir(Some("/home/u"));
    assert_eq!(step, DirAction::CreateCacheDir("/home/u/.monolith".to_string()));
    assert_eq!(tc.record_created(&step), None);

    let step = tc.get_temp_dir(Some("/home/u"));
    assert_eq!(step, DirAction::CreateTempDir("/home/u/.monolith/temp".to_string()));
    assert_eq!(tc.record_created(&step), Some("/home/u/.monolith/temp".to_string()));

    let step = tc.get_tools_dir(Some("/home/u"));
    assert_eq!(step, DirAction::CreateToolsDir("/home/u/.monolith/tools".to_string()));
    assert_eq!(tc.record_created(&step), Some("/home/u/.monolith/tools".to_string()));
    assert_eq!(tc.tools_dir, Some("/home/u/.monolith/tools".to_string()));

    assert_eq!(tc.get_tools_dir(Some("/home/u")), DirAction::Ready("/home/u/.monolith/tools".to_string()));
    assert_eq!(tc.get_temp_dir(None), DirAction::Ready("/home/u/.monolith/temp".to_string()));
}

#[test]
fn tools_dir_without_home() {
    let tc = Toolchain::new();
    assert_eq!(tc.get_tools_dir(None), DirAction::MissingHome);
}
