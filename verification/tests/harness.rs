use std::path::{Component, Path};
use storage_ui::harness::{check_plain_fixture_reference, check_relative_toml_path, WorkflowHarnessError};

fn path_rule(relative: &str) -> bool {
    if relative.is_empty() || !relative.is_ascii() || relative.contains('\\') {
        return false;
    }
    let path = Path::new(relative);
    !(path.is_absolute()
        || path.extension().and_then(|extension| extension.to_str()) != Some("toml")
        || path.components().any(|component| !matches!(component, Component::Normal(part) if !part.is_empty())))
}

#[test]
fn fixture_paths_are_relative_toml_files_below_the_root() {
    assert_eq!(check_relative_toml_path("scenarios/basic.toml"), Ok(()));
    assert_eq!(check_relative_toml_path("a//b/./c.toml/"), Ok(()));
    assert_eq!(
        check_relative_toml_path("../secret.toml"),
        Err(WorkflowHarnessError::InvalidFixtureReference)
    );
    assert_eq!(
        check_relative_toml_path("/etc/x.toml"),
        Err(WorkflowHarnessError::InvalidFixtureReference)
    );
    assert_eq!(check_relative_toml_path("./x.toml"), Err(WorkflowHarnessError::InvalidFixtureReference));
    assert_eq!(check_relative_toml_path(".toml"), Err(WorkflowHarnessError::InvalidFixtureReference));
    assert_eq!(check_relative_toml_path("x.json"), Err(WorkflowHarnessError::InvalidFixtureReference));
    assert_eq!(check_relative_toml_path("a\\b.toml"), Err(WorkflowHarnessError::InvalidFixtureReference));
    assert_eq!(check_plain_fixture_reference(""), Err(WorkflowHarnessError::InvalidFixtureReference));
}

#[test]
fn fixture_path_check_agrees_with_std_paths() {
    let cases = [
        "a.toml", "a/b.toml", "a/../b.toml", "a/./b.toml", "./a.toml", ".", "..", "a/..", "a.toml/.",
        "a.toml/..", "a.toml/", "//a.toml", "a//b.toml", "..toml", "...toml", ".toml", "a.toml.txt",
        "a.TOML", "dir.toml/file", "x/.toml", "x/y.toml/./", "é.toml", "a\\b.toml", "", "a/b/c/d.toml",
        "a./b.toml", ".hidden/x.toml", "x/.hidden.toml",
    ];
    for case in cases {
        assert_eq!(check_relative_toml_path(case).is_ok(), path_rule(case), "{case}");
    }
}
