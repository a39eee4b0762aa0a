use pow::error::PowError;
use pow::workspace::{Entry, Workspace, WorkspaceSummary};
use pow::work::{
    current_text, dry_run_exec_line, list_lines, show_lines, EntryStatus, entry_prefix, exec_outcome, forget_failure, no_entries_line,
    prefixed_lines, qualified_label, shell_warning, short_status_line, shows_entry,
    status_heading, teardown_prompt, warns_about_shell,
};

#[test]
fn short_status_matches_format() {
    let got = short_status_line("web", "studio", 3, Some(1), Some(0));
    let want = format!("{:<20}  {:<20}  {:>3}M{}", "web", "studio", 3, " ↑1↓0");
    assert_eq!(got, want);
    let long = "a-very-long-repository-name";
    assert_eq!(
        short_status_line(long, "", 1234, None, None),
        format!("{:<20}  {:<20}  {:>3}M", long, "", 1234)
    );
    assert_eq!(
        short_status_line("é", "b", 0, Some(0), Some(0)),
        format!("{:<20}  {:<20}  {:>3}M", "é", "b", 0)
    );
}

#[test]
fn status_headings() {
    assert_eq!(
        status_heading("web", "studio", 2, Some(1), Some(4)),
        "=== web [studio] (2 modified, ahead 1, behind 4)"
    );
    assert_eq!(
        status_heading("web", "", 0, None, None),
        "=== web [] (0 modified), no upstream"
    );
    assert_eq!(
        status_heading("web", "x", 0, Some(1), None),
        "=== web [x] (0 modified)"
    );
    assert!(shows_entry(false, 0));
    assert!(!shows_entry(true, 0));
    assert!(shows_entry(true, 2));
}

#[test]
fn exec_output_labels() {
    assert_eq!(entry_prefix("web"), "[web] ");
    assert_eq!(
        prefixed_lines("[web] ", "one\ntwo\n"),
        vec!["[web] one".to_string(), "[web] two".to_string()]
    );
    assert!(prefixed_lines("  ", "").is_empty());
    assert_eq!(
        dry_run_exec_line("web", "/ws/w/web", "make test"),
        "[web] (in /ws/w/web) $ make test"
    );
    assert_eq!(no_entries_line("w"), "workspace 'w' has no entries.");
    assert!(exec_outcome(false).is_ok());
    assert!(matches!(exec_outcome(true), Err(PowError::Message(m)) if m == "one or more commands failed"));
}

#[test]
fn teardown_and_forget_texts() {
    assert_eq!(
        teardown_prompt("studio", 1),
        "Tear down workspace 'studio' (1 entry)? [y/N] "
    );
    assert_eq!(
        teardown_prompt("studio", 0),
        "Tear down workspace 'studio' (0 entries)? [y/N] "
    );
    match forget_failure(&PowError::GitFailed("dirty".into())) {
        PowError::GitFailed(m) => assert_eq!(
            m,
            "git operation failed: dirty\nThe worktree may have uncommitted changes. Re-run with `--force` is not yet supported; commit/stash changes or remove the directory manually."
        ),
        other => panic!("unexpected {other:?}"),
    }
    assert_eq!(qualified_label("a", "web"), "a/web");
}

#[test]
fn current_and_shell_texts() {
    assert_eq!(current_text(&Some("studio".into())), "studio");
    assert_eq!(current_text(&None), "no active workspace");
    assert!(!warns_about_shell("/bin/zsh"));
    assert!(!warns_about_shell(""));
    assert!(warns_about_shell("/bin/bash"));
    assert_eq!(
        shell_warning("/bin/bash"),
        "warning: pow shell integration is tuned for zsh; your $SHELL is '/bin/bash'. The script below is emitted anyway."
    );
}

#[test]
fn list_table() {
    assert_eq!(
        list_lines(&Vec::new()),
        vec!["no workspaces. Create one with `pow new <name>`.".to_string()]
    );
    let summaries = vec![
        WorkspaceSummary { name: "alpha".into(), path: "/ws/alpha".into(), entry_count: 12, active: false },
        WorkspaceSummary { name: "b".into(), path: "/ws/b".into(), entry_count: 0, active: true },
    ];
    assert_eq!(
        list_lines(&summaries),
        vec![
            format!("{:<5}  {:>7}  {}", "NAME", "ENTRIES", "PATH"),
            format!("{:<5}  {:>7}  {}", "alpha", "12", "/ws/alpha"),
            format!("{:<5}  {:>7}  {}", "b *", "0", "/ws/b"),
        ]
    );
}

#[test]
fn show_report() {
    let ws = Workspace {
        name: "w".into(),
        path: "/ws/w".into(),
        entries: vec![
            Entry { name: "api".into(), path: "/ws/w/api".into(), source_name: Some("a".into()), source_repo_path: "/src/a/api".into() },
            Entry { name: "web".into(), path: "/ws/w/web".into(), source_name: None, source_repo_path: "/x/web".into() },
        ],
    };
    assert_eq!(
        show_lines(&ws, &None),
        vec![
            "Workspace 'w' at /ws/w (2 entries)".to_string(),
            format!("{:<20}  {}", "api", "a"),
            format!("{:<20}  {}", "web", "—"),
        ]
    );
    let st = vec![
        EntryStatus { branch: "w".into(), modified: 1, ahead: Some(0), behind: Some(2) },
        EntryStatus { branch: "main".into(), modified: 0, ahead: None, behind: None },
    ];
    assert_eq!(
        show_lines(&ws, &Some(st)),
        vec![
            "Workspace 'w' at /ws/w (2 entries)".to_string(),
            format!("{:<20}  {:<20}  {:>3}M ↑0↓2", "api", "w", 1),
            format!("{:<20}  {:<20}  {:>3}M", "web", "main", 0),
        ]
    );
    let one = Workspace { name: "o".into(), path: "/ws/o".into(), entries: vec![] };
    assert_eq!(show_lines(&one, &None), vec!["Workspace 'o' at /ws/o (0 entries)".to_string()]);
}
