use pow::config::{Config, Source};
use pow::error::PowError;
use pow::filter::apply_filters;
use pow::github::OrgRepo;
use pow::source::{
    clone_jobs, clone_outcome, dry_run_lines, effective_parallel, missing_path_error,
    no_repos_error, picker_choices, picker_label, source_list_lines, sync_plan, sync_source,
    uses_picker, SourceRow,
};

fn repo(name: &str, archived: bool) -> OrgRepo {
    OrgRepo {
        name: name.to_string(),
        clone_url_ssh: format!("git@github.com:x/{name}.git"),
        clone_url_https: None,
        archived,
        default_branch: Some("main".into()),
    }
}

fn strings(v: &[&str]) -> Vec<String> {
    v.iter().map(|s| s.to_string()).collect()
}

fn source(name: &str, org: Option<&str>) -> Source {
    Source {
        name: name.to_string(),
        path: format!("/src/{name}"),
        github_org: org.map(|o| o.to_string()),
        base_branch: "main".to_string(),
        skip_archived: true,
        include_globs: Vec::new(),
        exclude_globs: Vec::new(),
    }
}

#[test]
fn sync_plan_clones_new_and_prunes_gone() {
    let repos = vec![repo("web", false), repo("api", false), repo("docs", false)];
    let wanted = apply_filters(&repos, &[], &strings(&["docs"]), true).unwrap();
    let local = strings(&["api", "legacy"]);
    let plan = sync_plan(&wanted, &local);
    assert_eq!(plan.to_clone, vec![0]);
    assert_eq!(plan.to_prune, vec![1]);
}

#[test]
fn dry_run_report() {
    assert_eq!(
        dry_run_lines(&strings(&["web"]), &strings(&["old"]), true),
        strings(&["Would clone:", "  + web", "Would remove:", "  - old"])
    );
    assert_eq!(
        dry_run_lines(&strings(&["web", "api"]), &strings(&["old"]), false),
        strings(&["Would clone:", "  + web", "  + api"])
    );
}

#[test]
fn source_to_sync() {
    let mut cfg = Config::default();
    cfg.sources = vec![source("plain", None), source("org", Some("acme"))];
    assert_eq!(sync_source(&cfg, "org").unwrap(), (1, "acme".to_string()));
    match sync_source(&cfg, "plain") {
        Err(PowError::Message(m)) => {
            assert_eq!(m, "source 'plain' has no github_org; nothing to sync from.")
        }
        other => panic!("unexpected {other:?}"),
    }
    assert!(matches!(sync_source(&cfg, "nope"), Err(PowError::SourceNotFound(m)) if m == "nope"));
}

#[test]
fn parallelism_and_picker_choice() {
    assert_eq!(effective_parallel(Some(8), 4), 8);
    assert_eq!(effective_parallel(None, 4), 4);
    assert_eq!(effective_parallel(Some(0), 4), 1);
    assert_eq!(effective_parallel(None, 0), 1);
    assert!(uses_picker(false, &Vec::new(), &Vec::new()));
    assert!(!uses_picker(true, &Vec::new(), &Vec::new()));
    assert!(!uses_picker(false, &strings(&["api-*"]), &Vec::new()));
    assert!(!uses_picker(false, &Vec::new(), &strings(&["x"])));
}

#[test]
fn picker_offers_and_labels() {
    let repos = vec![repo("old", true), repo("web", false)];
    assert_eq!(picker_choices(&repos, true), vec![1]);
    assert_eq!(picker_choices(&repos, false), vec![0, 1]);
    assert_eq!(picker_label(&repos[0]), "old (archived)");
    assert_eq!(picker_label(&repos[1]), "web");
}

#[test]
fn clone_jobs_and_failures() {
    let repos = vec![repo("web", false)];
    let refs: Vec<&OrgRepo> = repos.iter().collect();
    let jobs = clone_jobs(&refs, "/src/acme");
    assert_eq!(jobs.len(), 1);
    assert_eq!(jobs[0].name, "web");
    assert_eq!(jobs[0].url, "git@github.com:x/web.git");
    assert_eq!(jobs[0].target, "/src/acme/web");
    assert!(clone_outcome(&Vec::new()).is_ok());
    match clone_outcome(&strings(&["web: denied", "api: gone"])) {
        Err(PowError::Message(m)) => {
            assert_eq!(m, "one or more clones failed:\n  web: denied\n  api: gone")
        }
        other => panic!("unexpected {other:?}"),
    }
}

#[test]
fn source_add_errors() {
    match missing_path_error("/nope") {
        PowError::Config(m) => assert_eq!(
            m,
            "path does not exist: /nope. Create it first (e.g. `mkdir -p /nope`)."
        ),
        other => panic!("unexpected {other:?}"),
    }
    match no_repos_error("acme") {
        PowError::Message(m) => assert_eq!(
            m,
            "no repos visible in org 'acme'. Check GITHUB_TOKEN or org name."
        ),
        other => panic!("unexpected {other:?}"),
    }
}

#[test]
fn source_table() {
    assert_eq!(
        source_list_lines(Vec::new()),
        strings(&["no sources configured. Use `pow source add <name> <path>`."])
    );
    let rows = vec![
        SourceRow {
            name: "babylist".into(),
            path: "/src/Babylist".into(),
            repo_count: 12,
            github_org: Some("babylist".into()),
            base_branch: "main".into(),
        },
        SourceRow {
            name: "x".into(),
            path: "/x".into(),
            repo_count: 0,
            github_org: None,
            base_branch: "trunk".into(),
        },
    ];
    let lines = source_list_lines(rows);
    let want = vec![
        format!("{:<8}  {:<13}  {:>5}  {:<10}  {}", "NAME", "PATH", "REPOS", "GITHUB ORG", "BASE"),
        format!("{:<8}  {:<13}  {:>5}  {:<10}  {}", "babylist", "/src/Babylist", "12", "babylist", "main"),
        format!("{:<8}  {:<13}  {:>5}  {:<10}  {}", "x", "/x", "0", "—", "trunk"),
    ];
    assert_eq!(lines, want);
}
