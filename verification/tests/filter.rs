use pow::filter::apply_filters;
use pow::github::OrgRepo;

fn repo(name: &str, archived: bool) -> OrgRepo {
    OrgRepo {
        name: name.to_string(),
        clone_url_ssh: format!("git@github.com:x/{name}.git"),
        clone_url_https: None,
        archived,
        default_branch: Some("main".into()),
    }
}

#[test]
fn empty_include_passes_all_non_excluded() {
    let repos = vec![
        repo("web", false),
        repo("api", false),
        repo("legacy-ui", false),
    ];
    let got = apply_filters(&repos, &[], &["legacy-*".into()], true).unwrap();
    assert_eq!(
        got.iter().map(|r| r.name.as_str()).collect::<Vec<_>>(),
        ["web", "api"]
    );
}

#[test]
fn include_glob_matches() {
    let repos = vec![
        repo("api-users", false),
        repo("api-orders", false),
        repo("web", false),
    ];
    let got = apply_filters(&repos, &["api-*".into()], &[], true).unwrap();
    assert_eq!(got.len(), 2);
}

#[test]
fn archived_skipped_by_default() {
    let repos = vec![repo("a", true), repo("b", false)];
    let got = apply_filters(&repos, &[], &[], true).unwrap();
    assert_eq!(
        got.iter().map(|r| r.name.as_str()).collect::<Vec<_>>(),
        ["b"]
    );
}

#[test]
fn archived_included_when_flag_false() {
    let repos = vec![repo("a", true), repo("b", false)];
    let got = apply_filters(&repos, &[], &[], false).unwrap();
    assert_eq!(got.len(), 2);
}

#[test]
fn include_and_exclude_combined() {
    let repos = vec![repo("api-users", false), repo("api-legacy", false)];
    let got = apply_filters(&repos, &["api-*".into()], &["*-legacy".into()], true).unwrap();
    assert_eq!(
        got.iter().map(|r| r.name.as_str()).collect::<Vec<_>>(),
        ["api-users"]
    );
}

#[test]
fn bad_include_pattern_is_named() {
    let repos = vec![repo("a", false)];
    let e = apply_filters(&repos, &["[".into(), "a***".into()], &["**x".into()], true).unwrap_err();
    let text = e.to_display();
    assert!(text.starts_with("config error: bad glob '[': "), "{text}");
}

#[test]
fn bad_exclude_pattern_is_named_when_includes_are_good() {
    let repos = vec![repo("a", false)];
    let e = apply_filters(&repos, &["a*".into()], &["a/**b".into()], true).unwrap_err();
    assert!(e.to_display().starts_with("config error: bad glob 'a/**b': "));
}

#[test]
fn no_filters_keep_every_repo_in_order() {
    let repos = vec![repo("z", true), repo("y", false), repo("x", true)];
    let got = apply_filters(&repos, &[], &[], false).unwrap();
    assert_eq!(
        got.iter().map(|r| r.name.as_str()).collect::<Vec<_>>(),
        ["z", "y", "x"]
    );
}

#[test]
fn question_mark_and_classes_match_one_character() {
    let repos = vec![repo("cat", false), repo("cart", false), repo("cot", false)];
    let got = apply_filters(&repos, &["c?t".into()], &["c[o]t".into()], true).unwrap();
    assert_eq!(
        got.iter().map(|r| r.name.as_str()).collect::<Vec<_>>(),
        ["cat"]
    );
}
