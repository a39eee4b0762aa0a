use pow::config::Source;
use pow::error::PowError;
use pow::workspace::{
    active_workspace, augment_worktree_error, base_for, branch_for, cd, check_workspace_name,
    confirmed, destination_exists_error, find_entry, find_entry_qualified, format_ahead_behind,
    list, no_entry_error, owning_source, prunes_branch, recopy_entries, resolve_cd,
    resolve_workspace_name, show, switch_failure, sync_outcome, sync_targets, use_workspace,
    workspace_exists_error, Entry, WorkspaceDir,
};

fn entry(name: &str, source: Option<&str>, repo: &str) -> Entry {
    Entry {
        name: name.to_string(),
        path: format!("/ws/w/{name}"),
        source_name: source.map(|s| s.to_string()),
        source_repo_path: repo.to_string(),
    }
}

fn message(e: PowError) -> String {
    match e {
        PowError::Message(m) => m,
        other => panic!("expected a message, got {other:?}"),
    }
}

#[test]
fn workspace_name_resolution() {
    assert_eq!(resolve_workspace_name(Some("x"), Some("y".into())).unwrap(), "x");
    assert_eq!(resolve_workspace_name(None, Some("y".into())).unwrap(), "y");
    let m = message(resolve_workspace_name(None, None).unwrap_err());
    assert!(m.contains("POW_ACTIVE"), "{m}");
    assert!(resolve_workspace_name(None, Some(String::new())).is_err());
    assert_eq!(active_workspace(Some(String::new())), None);
    assert_eq!(active_workspace(Some("a".into())).as_deref(), Some("a"));
}

#[test]
fn shell_only_commands_explain_integration() {
    let hint = "shell integration not detected. Add `eval \"$(pow init)\"` to your ~/.zshrc.";
    assert_eq!(message(use_workspace("x").unwrap_err()), hint);
    assert_eq!(message(cd(None, None).unwrap_err()), hint);
}

#[test]
fn workspace_names_are_single_components() {
    assert!(check_workspace_name("studio").is_ok());
    assert_eq!(
        message(check_workspace_name("a/b").unwrap_err()),
        "invalid workspace name 'a/b'"
    );
    assert!(check_workspace_name("").is_err());
}

#[test]
fn entries_found_by_name_or_qualified_name() {
    let es = vec![
        entry("web", Some("a"), "/src/a/web"),
        entry("api", None, "/src/b/api"),
    ];
    assert_eq!(find_entry(&es, "api"), Some(1));
    assert_eq!(find_entry(&es, "a/web"), None);
    assert_eq!(find_entry_qualified(&es, "a/web"), Some(0));
    assert_eq!(find_entry_qualified(&es, "/api"), Some(1));
    assert_eq!(find_entry_qualified(&es, "b/api"), None);
    match no_entry_error("x", "w") {
        PowError::RepoNotFound(m) => assert_eq!(m, "no entry 'x' in workspace 'w'"),
        other => panic!("unexpected {other:?}"),
    }
}

#[test]
fn sync_fetches_each_source_repo_once() {
    let es = vec![
        entry("web", None, "/src/web"),
        entry("web2", None, "/src/web"),
        entry("api", None, "/src/api"),
    ];
    let t = sync_targets("w", &es, None).unwrap();
    assert_eq!(
        t,
        vec![
            ("web".to_string(), "/src/web".to_string()),
            ("api".to_string(), "/src/api".to_string())
        ]
    );
    let t = sync_targets("w", &es, Some("web2")).unwrap();
    assert_eq!(t, vec![("web2".to_string(), "/src/web".to_string())]);
    assert!(matches!(
        sync_targets("w", &es, Some("nope")),
        Err(PowError::RepoNotFound(_))
    ));
    assert!(sync_outcome(false).is_ok());
    match sync_outcome(true) {
        Err(PowError::GitFailed(m)) => assert_eq!(m, "one or more fetches failed"),
        other => panic!("unexpected {other:?}"),
    }
    let fetched = vec!["/src/api".to_string()];
    assert_eq!(recopy_entries(&es, &fetched), vec![2]);
    let fetched = vec!["/src/web/".to_string()];
    assert_eq!(recopy_entries(&es, &fetched), vec![0, 1]);
    // The same repo written with a trailing separator is fetched once.
    let es = vec![entry("web", None, "/src/web"), entry("web2", None, "/src/web/")];
    let t = sync_targets("w", &es, None).unwrap();
    assert_eq!(t, vec![("web".to_string(), "/src/web".to_string())]);
}

#[test]
fn worktree_errors_get_hints() {
    let e = augment_worktree_error(
        PowError::GitFailed("fatal: 'studio' is already checked out at '/x'".into()),
        "studio",
        "/src/web",
    );
    match e {
        PowError::GitFailed(m) => assert_eq!(
            m,
            "git operation failed: fatal: 'studio' is already checked out at '/x'\nhint: branch 'studio' is checked out in another worktree of /src/web. Remove that worktree first or pick a different branch with `-b`."
        ),
        other => panic!("unexpected {other:?}"),
    }
    let e = augment_worktree_error(PowError::GitFailed("other".into()), "b", "/r");
    assert!(matches!(e, PowError::GitFailed(m) if m == "other"));
    match switch_failure("fatal: 'x' is already used by worktree at '/y'".into(), "x") {
        PowError::GitFailed(m) => assert_eq!(
            m,
            "fatal: 'x' is already used by worktree at '/y'\nhint: 'x' is checked out in another worktree of this repo."
        ),
        other => panic!("unexpected {other:?}"),
    }
    assert!(matches!(switch_failure("bad".into(), "x"), PowError::GitFailed(m) if m == "bad"));
}

#[test]
fn ahead_behind_marks() {
    assert_eq!(format_ahead_behind(Some(2), Some(0)), " ↑2↓0");
    assert_eq!(format_ahead_behind(Some(0), Some(0)), "");
    assert_eq!(format_ahead_behind(None, Some(3)), "");
}

#[test]
fn prompt_answers() {
    for yes in ["y", "Y", "yes", "YES", " Yes\n"] {
        assert!(confirmed(yes), "{yes:?}");
    }
    for no in ["", "n", "no", "yess", "ye", "y e s"] {
        assert!(!confirmed(no), "{no:?}");
    }
}

#[test]
fn cd_targets() {
    let root = || Ok("/ws".to_string());
    let t = resolve_cd(&vec![], Some("studio".into()), root()).unwrap();
    assert_eq!(t.path, "/ws/studio");
    assert!(matches!(t.missing, PowError::WorkspaceNotFound(m) if m == "studio"));
    assert_eq!(
        message(resolve_cd(&vec![], None, root()).unwrap_err()),
        "no active workspace. `pow use <name>` or pass an argument to `pow cd`."
    );
    let t = resolve_cd(&vec!["w".into()], None, root()).unwrap();
    assert_eq!(t.path, "/ws/w");
    let t = resolve_cd(&vec!["w".into(), "web".into()], None, root()).unwrap();
    assert_eq!(t.path, "/ws/w/web");
    assert!(matches!(t.missing, PowError::RepoNotFound(m) if m == "no entry 'web' in workspace 'w'"));
    let e = resolve_cd(&vec!["a".into(), "b".into(), "c".into()], None, root()).unwrap_err();
    assert_eq!(message(e), "usage: pow cd [<workspace>] [<entry>]");
    let e = resolve_cd(&vec!["w".into()], None, Err(PowError::Config("HOME not set".into())));
    assert!(matches!(e, Err(PowError::Config(m)) if m == "HOME not set"));
    let e = resolve_cd(&vec![], None, Err(PowError::Config("HOME not set".into())));
    assert!(matches!(e, Err(PowError::Message(_))));
    assert_eq!(
        message(workspace_exists_error("/ws/w")),
        "workspace directory already exists at /ws/w. Use --force to overwrite."
    );
}

fn dir(name: &str, count: usize) -> WorkspaceDir {
    WorkspaceDir {
        name: name.to_string(),
        path: format!("/ws/{name}"),
        entry_count: count,
    }
}

#[test]
fn list_gives_every_workspace_sorted() {
    let got = list(
        vec![dir("zeta", 1), dir(".git", 0), dir("alpha", 3), dir("", 0), dir("mid", 0)],
        &Some("mid".to_string()),
    );
    let names: Vec<&str> = got.iter().map(|s| s.name.as_str()).collect();
    assert_eq!(names, ["alpha", "mid", "zeta"]);
    assert_eq!(got[0].entry_count, 3);
    assert_eq!(got[0].path, "/ws/alpha");
    assert!(!got[0].active);
    assert!(got[1].active);
    assert!(!got[2].active);
    assert!(list(Vec::new(), &None).is_empty());
    assert!(list(vec![dir("a", 0)], &None).iter().all(|s| !s.active));
}

#[test]
fn show_sorts_entries_or_reports_missing() {
    let es = vec![entry("web", Some("a"), "/src/a/web"), entry("api", None, "/src/b/api")];
    let ws = show("w", "/ws/w".to_string(), Some(es)).unwrap();
    assert_eq!(ws.name, "w");
    assert_eq!(ws.path, "/ws/w");
    let names: Vec<&str> = ws.entries.iter().map(|e| e.name.as_str()).collect();
    assert_eq!(names, ["api", "web"]);
    match show("gone", "/ws/gone".to_string(), None) {
        Err(e) => {
            assert!(matches!(&e, PowError::WorkspaceNotFound(m) if m == "gone"));
            assert_eq!(e.exit_code(), 2);
        }
        Ok(_) => panic!("expected an error"),
    }
}

#[test]
fn branch_and_base_choices() {
    assert_eq!(branch_for(None, "studio"), "studio");
    assert_eq!(branch_for(Some("feature"), "studio"), "feature");
    assert_eq!(base_for(Some("develop"), Some("trunk")), "develop");
    assert_eq!(base_for(None, Some("trunk")), "trunk");
    assert_eq!(base_for(None, None), "main");
    assert!(prunes_branch(true, "studio"));
    assert!(!prunes_branch(true, ""));
    assert!(!prunes_branch(false, "studio"));
    assert_eq!(
        message(destination_exists_error("/ws/w/web", "web")),
        "destination already exists: /ws/w/web. Use `pow forget web` first."
    );
}

fn source(name: &str) -> Source {
    Source {
        name: name.to_string(),
        path: format!("/src/{name}"),
        github_org: None,
        base_branch: "main".to_string(),
        skip_archived: true,
        include_globs: Vec::new(),
        exclude_globs: Vec::new(),
    }
}

#[test]
fn entry_source_is_the_parent_directory() {
    let sources = vec![source("a"), source("b")];
    let expanded = vec![Ok("/src/a".to_string()), Ok("/src/b/".to_string())];
    let canonical = vec![None, None];
    assert_eq!(
        owning_source("/src/b/web", &sources, &expanded, &canonical, &Some("/src/b".into())).as_deref(),
        Some("b")
    );
    let canonical = vec![Some("/real/a".to_string()), Some("/real/b".to_string())];
    assert_eq!(
        owning_source("/link/web", &sources, &expanded, &canonical, &Some("/real/a".into())).as_deref(),
        Some("a")
    );
    assert_eq!(
        owning_source("/other/web", &sources, &expanded, &canonical, &Some("/other".into())),
        None
    );
    assert_eq!(owning_source("/", &sources, &expanded, &canonical, &None), None);
}
