use moon::file_group::{FileGroup, FsEntry, FsProbe, ProjectError};

const ROOT: &str = "/fixtures/base/files-and-dirs";

fn entry(rel: &str, is_dir: bool) -> FsEntry {
    FsEntry { path: format!("{ROOT}/{rel}"), is_dir, is_file: !is_dir }
}

fn everything() -> Vec<FsEntry> {
    vec![
        entry("dir", true),
        entry("dir/other.tsx", false),
        entry("dir/subdir", true),
        entry("dir/subdir/another.ts", false),
        entry("file.ts", false),
    ]
}

#[test]
fn returns_all_dirs() {
    let file_group = FileGroup::new(vec!["**/*".to_owned()], ROOT.to_string());
    assert_eq!(
        file_group.dirs(&vec![FsProbe::Glob(everything())]).unwrap(),
        vec![format!("{ROOT}/dir"), format!("{ROOT}/dir/subdir")]
    );
}

#[test]
fn doesnt_return_files() {
    let file_group = FileGroup::new(vec!["file.ts".to_owned()], ROOT.to_string());
    let result: Vec<String> = vec![];
    assert_eq!(file_group.dirs(&vec![FsProbe::Literal(Some((false, true)))]).unwrap(), result);
}

#[test]
fn returns_all_files() {
    let file_group = FileGroup::new(vec!["**/*.{ts,tsx}".to_owned()], ROOT.to_string());
    let matched = vec![entry("file.ts", false), entry("dir/subdir/another.ts", false), entry("dir/other.tsx", false)];
    assert_eq!(
        file_group.files(&vec![FsProbe::Glob(matched)]).unwrap(),
        vec![
            format!("{ROOT}/file.ts"),
            format!("{ROOT}/dir/subdir/another.ts"),
            format!("{ROOT}/dir/other.tsx"),
        ]
    );
}

#[test]
fn doesnt_return_dirs() {
    let file_group = FileGroup::new(vec!["dir".to_owned()], ROOT.to_string());
    let result: Vec<String> = vec![];
    assert_eq!(file_group.files(&vec![FsProbe::Literal(Some((true, false)))]).unwrap(), result);
}

#[test]
fn returns_literal_paths_of_the_right_kind() {
    let file_group = FileGroup::new(vec!["file.ts".to_owned(), "missing.ts".to_owned()], ROOT.to_string());
    assert_eq!(
        file_group.files(&vec![FsProbe::Literal(Some((false, true))), FsProbe::Literal(None)]).unwrap(),
        vec![format!("{ROOT}/file.ts")]
    );
}

#[test]
fn reports_invalid_globs() {
    let file_group = FileGroup::new(vec!["[".to_owned()], ROOT.to_string());
    assert_eq!(
        file_group.files(&vec![FsProbe::InvalidGlob("unclosed".into())]),
        Err(ProjectError::GlobWalk("unclosed".into()))
    );
}
