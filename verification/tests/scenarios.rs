//! The command scenarios whose outcome the library decides, run on the
//! library with the same names and expected values.

use pow::config::{Config, Source, Template};
use pow::error::PowError;
use pow::resolve::{repo_candidates, resolve_repo};
use pow::source::{source_list_lines, SourceRow};
use pow::template::{find_template, template_list_lines, template_not_found, template_outcome};
use pow::workspace::resolve_workspace_name;

fn source(name: &str, path: &str) -> Source {
    Source {
        name: name.to_string(),
        path: path.to_string(),
        github_org: None,
        base_branch: "main".to_string(),
        skip_archived: true,
        include_globs: Vec::new(),
        exclude_globs: Vec::new(),
    }
}

fn two_sources() -> Config {
    let mut cfg = Config::default();
    cfg.add_source(source("a", "/tmp/src/A")).unwrap();
    cfg.add_source(source("b", "/tmp/src/B")).unwrap();
    cfg
}

#[test]
fn add_list_remove() {
    let mut cfg = Config::default();
    cfg.add_source(source("babylist", "/tmp/src/Babylist")).unwrap();
    let rows = vec![SourceRow {
        name: cfg.sources[0].name.clone(),
        path: cfg.sources[0].path.clone(),
        repo_count: 2,
        github_org: None,
        base_branch: cfg.sources[0].base_branch.clone(),
    }];
    let lines = source_list_lines(rows);
    assert!(lines.iter().any(|l| l.contains("babylist")));
    let removed = cfg.remove_source("babylist").unwrap();
    assert_eq!(removed.name, "babylist");
    assert!(cfg.sources.is_empty());
}

#[test]
fn duplicate_name_errors() {
    let mut cfg = Config::default();
    cfg.add_source(source("x", "/tmp/src/Babylist")).unwrap();
    let e = cfg.add_source(source("x", "/tmp/src/Babylist")).unwrap_err();
    assert!(e.to_display().contains("already exists"), "{}", e.to_display());
    assert!(cfg.check_new_source("x").is_err());
}

#[test]
fn remove_unknown_errors() {
    let mut cfg = Config::default();
    let e = cfg.remove_source("nope").unwrap_err();
    assert!(matches!(e, PowError::SourceNotFound(_)));
    assert_eq!(e.exit_code(), 4);
}

#[test]
fn ambiguous_repo_name_errors() {
    let cfg = two_sources();
    // `common` is a git repo in both sources.
    let found = repo_candidates(&cfg, "common").unwrap();
    assert_eq!(found.len(), 2);
    let e = resolve_repo("common", found).unwrap_err();
    assert!(e.to_display().contains("ambiguous"), "stderr: {}", e.to_display());
    assert_eq!(e.exit_code(), 3);
}

#[test]
fn qualified_repo_name_resolves() {
    let cfg = two_sources();
    let found = repo_candidates(&cfg, "a/common").unwrap();
    let r = resolve_repo("a/common", found).unwrap();
    assert_eq!(r.source_name, "a");
    assert_eq!(r.repo_path, "/tmp/src/A/common");
    assert_eq!(r.repo_name, "common");
}

#[test]
fn add_without_workspace_or_active_errors() {
    let e = resolve_workspace_name(None, None).unwrap_err();
    let stderr = e.to_display();
    assert!(stderr.contains("POW_ACTIVE"), "stderr: {stderr}");
}

#[test]
fn template_list_shows_configured_templates() {
    let templates = vec![Template {
        name: "frontend".to_string(),
        repos: vec!["babylist/web".to_string(), "babylist/api".to_string()],
    }];
    let out = template_list_lines(&templates).join("\n");
    assert!(out.contains("frontend"));
    assert!(out.contains("babylist/web"));
}

#[test]
fn template_list_when_empty() {
    let out = template_list_lines(&Vec::new()).join("\n");
    assert!(out.contains("no templates configured"));
}

#[test]
fn new_with_template_continues_on_failure() {
    // `babylist/web` was added; `babylist/missing` failed.
    let failed = vec!["babylist/missing".to_string()];
    let e = template_outcome(&failed).unwrap_err();
    assert_ne!(e.exit_code(), 0);
    let stderr = e.to_display();
    assert!(stderr.contains("Failed:"), "stderr: {stderr}");
    assert!(stderr.contains("babylist/missing"), "stderr: {stderr}");
}

#[test]
fn new_with_unknown_template_errors() {
    let cfg = Config::default();
    assert_eq!(find_template(&cfg, "nope"), None);
    let e = template_not_found("nope");
    assert!(e.to_display().contains("template 'nope' not found"), "{}", e.to_display());
}
