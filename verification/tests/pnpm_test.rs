use moon::pnpm::{lockfile_dependencies, PnpmLockResolution};

fn integrity(value: &str) -> PnpmLockResolution {
    PnpmLockResolution { commit: None, integrity: Some(value.into()), tarball: None }
}

fn sorted(mut v: Vec<(String, Vec<String>)>) -> Vec<(String, Vec<String>)> {
    v.sort();
    v
}

#[test]
fn parses_lockfile() {
    let packages = vec![
        (
            Some("@ampproject/remapping".to_string()),
            integrity("sha512-qRmjj8nj9qmLTQXXmaR1cck3UXSRMPrbsLJAasZpF+t3riI71BXed5ebIOYwQntykeZuhjsdweEc9BxH5Jc26w=="),
        ),
        (
            Some("@babel/plugin-syntax-async-generators".to_string()),
            integrity("sha512-tycmZxkGfZaxhMRbXlPXuVFpdWlXpir2W4AMhSJgRKzk/eDlIXOhb2LHWoLpDF7TEHylV5zNhykX6KAgHJmTNw=="),
        ),
        (
            Some("array-union".to_string()),
            integrity("sha512-HGyxoOTYUyCM6stUe6EJgnd4EoewAI7zMdfqO+kGjnlZmBDz/cR5pf8r/cR4Wq60sL/p0IkcjUEEPwS3GFrIyw=="),
        ),
        (
            Some("solid-jest".to_string()),
            integrity("sha512-1ILtAj+z6bh1vTvaDlcT8501vmkzkVZMk2aiexJy+XWTZ+sb9B7IWedvWadIhOwwL97fiW4eMmN6SrbaHjn12A=="),
        ),
    ];
    assert_eq!(
        sorted(lockfile_dependencies(&packages)),
        sorted(vec![
            ("array-union".to_owned(), vec!["sha512-HGyxoOTYUyCM6stUe6EJgnd4EoewAI7zMdfqO+kGjnlZmBDz/cR5pf8r/cR4Wq60sL/p0IkcjUEEPwS3GFrIyw==".to_string()]),
            ("solid-jest".to_owned(), vec!["sha512-1ILtAj+z6bh1vTvaDlcT8501vmkzkVZMk2aiexJy+XWTZ+sb9B7IWedvWadIhOwwL97fiW4eMmN6SrbaHjn12A==".to_string()]),
            (
                "@babel/plugin-syntax-async-generators".to_owned(),
                vec!["sha512-tycmZxkGfZaxhMRbXlPXuVFpdWlXpir2W4AMhSJgRKzk/eDlIXOhb2LHWoLpDF7TEHylV5zNhykX6KAgHJmTNw==".to_string()]
            ),
            ("@ampproject/remapping".to_owned(), vec!["sha512-qRmjj8nj9qmLTQXXmaR1cck3UXSRMPrbsLJAasZpF+t3riI71BXed5ebIOYwQntykeZuhjsdweEc9BxH5Jc26w==".to_string()]),
        ])
    );
}

#[test]
fn collects_every_resolution_of_a_name() {
    let packages = vec![
        (
            Some("a".to_string()),
            PnpmLockResolution { commit: Some("c1".into()), integrity: Some("i1".into()), tarball: Some("t1".into()) },
        ),
        (None, PnpmLockResolution::default()),
        (Some("a".to_string()), integrity("i2")),
    ];
    assert_eq!(
        lockfile_dependencies(&packages),
        vec![
            ("a".to_string(), vec!["i1".to_string(), "t1".to_string(), "c1".to_string(), "i2".to_string()]),
            ("".to_string(), vec![]),
        ]
    );
}
