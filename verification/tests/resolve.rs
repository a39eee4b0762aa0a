use pow::config::{Config, Source};
use pow::error::PowError;
use pow::resolve::{candidates_from, repo_candidates, resolve_repo, ResolvedRepo};

fn source(name: &str, path: &str) -> Source {
    Source {
        name: name.to_string(),
        path: path.to_string(),
        github_org: None,
        base_branch: "main".to_string(),
        skip_archived: true,
        include_globs: Vec::new(),
        exclude_globs: Vec::new(),
    }
}

fn config(sources: Vec<Source>) -> Config {
    let mut cfg = Config::default();
    cfg.sources = sources;
    cfg
}

fn found(source: &str, path: &str, repo: &str) -> ResolvedRepo {
    ResolvedRepo {
        source_name: source.to_string(),
        source_path: path.to_string(),
        repo_path: format!("{path}/{repo}"),
        repo_name: repo.to_string(),
    }
}

fn repo_message(r: Result<ResolvedRepo, PowError>) -> String {
    match r {
        Err(PowError::RepoNotFound(m)) => m,
        other => panic!("expected repo-not-found, got {other:?}"),
    }
}

#[test]
fn qualified_spec_looks_in_one_source() {
    let cfg = config(vec![source("a", "/src/a"), source("b", "/src/b")]);
    let cs = repo_candidates(&cfg, "b/common").unwrap();
    assert_eq!(cs.len(), 1);
    assert_eq!(cs[0].source_name, "b");
    assert_eq!(cs[0].source_path, "/src/b");
    assert_eq!(cs[0].repo_path, "/src/b/common");
    assert_eq!(cs[0].repo_name, "common");
    match repo_candidates(&cfg, "nope/common") {
        Err(PowError::SourceNotFound(m)) => assert_eq!(m, "nope"),
        other => panic!("unexpected {other:?}"),
    }
}

#[test]
fn bare_spec_looks_in_every_source() {
    let cfg = config(vec![source("a", "/src/a"), source("b", "/src/b")]);
    let cs = repo_candidates(&cfg, "common").unwrap();
    let paths: Vec<&str> = cs.iter().map(|c| c.repo_path.as_str()).collect();
    assert_eq!(paths, ["/src/a/common", "/src/b/common"]);
}

#[test]
fn failed_expansions_are_skipped_for_bare_names() {
    let cfg = config(vec![source("a", "$X/a"), source("b", "/src/b")]);
    let expansions = vec![Err(PowError::Config("bad".into())), Ok("/src/b".to_string())];
    let cs = candidates_from(&cfg, "web", &expansions).unwrap();
    assert_eq!(cs.len(), 1);
    assert_eq!(cs[0].source_name, "b");
    let expansions = vec![Err(PowError::Config("bad".into())), Ok("/src/b".to_string())];
    assert!(matches!(
        candidates_from(&cfg, "a/web", &expansions),
        Err(PowError::Config(_))
    ));
}

#[test]
fn unique_bare_name_resolves() {
    let r = resolve_repo("common", vec![found("a", "/src/a", "common")]).unwrap();
    assert_eq!(r.source_name, "a");
    assert_eq!(r.repo_path, "/src/a/common");
}

#[test]
fn ambiguous_bare_name_lists_every_place() {
    let m = repo_message(resolve_repo(
        "common",
        vec![found("a", "/src/a", "common"), found("b", "/src/b", "common")],
    ));
    assert_eq!(
        m,
        "repo 'common' is ambiguous; found in: a/common, b/common. Disambiguate with <source>/<repo>."
    );
}

#[test]
fn missing_repo_messages() {
    assert_eq!(
        repo_message(resolve_repo("ghost", Vec::new())),
        "repo 'ghost' not found in any configured source"
    );
    assert_eq!(
        repo_message(resolve_repo("a/ghost", Vec::new())),
        "repo 'ghost' not found in source 'a'"
    );
    let r = resolve_repo("a/common", vec![found("a", "/src/a", "common")]).unwrap();
    assert_eq!(r.repo_name, "common");
}
