use pow::error::PowError;
use pow::paths::{
    config_dir, config_path, expand_path, home_dir, join_path, workspace_path, workspaces_root,
};

fn some(s: &str) -> Option<String> {
    Some(s.to_string())
}

#[test]
fn join_like_path_join() {
    assert_eq!(join_path("/home/u", "workspaces"), "/home/u/workspaces");
    assert_eq!(join_path("/home/u/", "workspaces"), "/home/u/workspaces");
    assert_eq!(join_path("", "rel"), "rel");
    assert_eq!(join_path("/home/u", "/abs"), "/abs");
    assert_eq!(workspace_path("/w", "studio"), "/w/studio");
}

#[test]
fn config_locations() {
    assert_eq!(
        config_path(some("/tmp/x/config.toml"), None, None).unwrap(),
        "/tmp/x/config.toml"
    );
    assert_eq!(
        config_dir(some("/tmp/x/config.toml"), None, None).unwrap(),
        "/tmp/x"
    );
    assert_eq!(
        config_path(None, some("/xdg"), some("/home/u")).unwrap(),
        "/xdg/pow/config.toml"
    );
    assert_eq!(
        config_path(None, some(""), some("/home/u")).unwrap(),
        "/home/u/.config/pow/config.toml"
    );
    assert_eq!(
        config_dir(None, None, some("/home/u")).unwrap(),
        "/home/u/.config/pow"
    );
    match config_path(None, None, None) {
        Err(PowError::Config(m)) => assert_eq!(m, "HOME not set"),
        other => panic!("unexpected {other:?}"),
    }
}

#[test]
fn workspaces_root_prefers_environment() {
    assert_eq!(workspaces_root(some("/ws"), some("/home/u")).unwrap(), "/ws");
    assert_eq!(
        workspaces_root(some(""), some("/home/u")).unwrap(),
        "/home/u/workspaces"
    );
    assert_eq!(
        workspaces_root(None, some("/home/u")).unwrap(),
        "/home/u/workspaces"
    );
    assert!(workspaces_root(None, None).is_err());
    assert_eq!(home_dir(some("/h")).unwrap(), "/h");
    assert!(matches!(home_dir(None), Err(PowError::Config(_))));
}

#[test]
fn expansion_of_plain_and_unknown_paths() {
    assert_eq!(expand_path("/src/Babylist").unwrap(), "/src/Babylist");
    assert_eq!(expand_path("relative/dir").unwrap(), "relative/dir");
    match expand_path("$POW_SURELY_UNSET_VARIABLE_FOR_TESTS/x") {
        Err(PowError::Config(m)) => assert!(
            m.starts_with("failed to expand path '$POW_SURELY_UNSET_VARIABLE_FOR_TESTS/x': "),
            "{m}"
        ),
        other => panic!("unexpected {other:?}"),
    }
}
