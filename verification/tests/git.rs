use pow::error::PowError;
use pow::git::{
    ahead_behind_counts, checkout_args, modified_count, branch_delete_flag, branch_ref, current_branch, git_status_result, worktree_add_args,
    worktree_list, worktree_remove_args, worktree_source_repo,
};

#[test]
fn porcelain_listing_is_parsed() {
    let out = "worktree /src/web\nHEAD 1111\nbranch refs/heads/main\n\nworktree /ws/studio/web\nHEAD 2222\nbranch refs/heads/studio\n\nworktree /ws/x/web\nHEAD 3333\ndetached\n";
    let wts = worktree_list(out);
    assert_eq!(wts.len(), 3);
    assert_eq!(wts[0].path, "/src/web");
    assert_eq!(wts[0].branch.as_deref(), Some("main"));
    assert_eq!(wts[0].head.as_deref(), Some("1111"));
    assert_eq!(wts[1].path, "/ws/studio/web");
    assert_eq!(wts[1].branch.as_deref(), Some("studio"));
    assert_eq!(wts[2].branch, None);
    assert_eq!(wts[2].head.as_deref(), Some("3333"));
}

#[test]
fn porcelain_edge_cases() {
    assert!(worktree_list("").is_empty());
    // Lines before the first worktree are ignored.
    let wts = worktree_list("HEAD 1\nworktree /a\nbranch other/ref\n");
    assert_eq!(wts.len(), 1);
    assert_eq!(wts[0].head, None);
    assert_eq!(wts[0].branch.as_deref(), Some("other/ref"));
}

#[test]
fn source_repo_of_a_worktree() {
    assert_eq!(
        worktree_source_repo("/ws/studio/web", "gitdir: /src/web/.git/worktrees/studio\n").unwrap(),
        "/src/web"
    );
    assert_eq!(
        worktree_source_repo("/ws/studio/web", "gitdir:/src/web/.git/worktrees/web").unwrap(),
        "/src/web"
    );
    match worktree_source_repo("/ws/studio/web", "not a gitdir") {
        Err(PowError::GitFailed(m)) => {
            assert_eq!(m, "/ws/studio/web/.git: unexpected .git file contents")
        }
        other => panic!("unexpected {other:?}"),
    }
    match worktree_source_repo("/w", "gitdir: x") {
        Err(PowError::GitFailed(m)) => assert_eq!(m, "unexpected gitdir path: x"),
        other => panic!("unexpected {other:?}"),
    }
}

#[test]
fn git_arguments() {
    assert_eq!(
        worktree_add_args("/ws/s/web", "studio", Some("main")),
        vec!["worktree", "add", "-b", "studio", "/ws/s/web", "main"]
    );
    assert_eq!(
        worktree_add_args("/ws/s/web", "studio", None),
        vec!["worktree", "add", "-b", "studio", "/ws/s/web"]
    );
    assert_eq!(
        worktree_remove_args("/ws/s/web", true),
        vec!["worktree", "remove", "--force", "/ws/s/web"]
    );
    assert_eq!(
        worktree_remove_args("/ws/s/web", false),
        vec!["worktree", "remove", "/ws/s/web"]
    );
    assert_eq!(branch_delete_flag(true), "-D");
    assert_eq!(branch_delete_flag(false), "-d");
    assert_eq!(branch_ref("studio"), "refs/heads/studio");
}

#[test]
fn branch_and_status_outcomes() {
    assert_eq!(current_branch(Ok("main".to_string())), "main");
    assert_eq!(current_branch(Err(PowError::GitFailed("x".into()))), "");
    assert!(git_status_result(true, String::new()).is_ok());
    match git_status_result(false, "boom".to_string()) {
        Err(PowError::GitFailed(m)) => assert_eq!(m, "boom"),
        other => panic!("unexpected {other:?}"),
    }
}

#[test]
fn status_counts() {
    assert_eq!(modified_count(""), 0);
    assert_eq!(modified_count(" M a.rs\n?? b.rs"), 2);
    assert_eq!(ahead_behind_counts("3\t0"), Some((3, 0)));
    assert_eq!(ahead_behind_counts("0\t12"), Some((0, 12)));
    assert_eq!(ahead_behind_counts("3 0"), None);
    assert_eq!(ahead_behind_counts("x\t1"), None);
    assert_eq!(checkout_args("main", false), vec!["checkout", "main"]);
    assert_eq!(checkout_args("feat", true), vec!["checkout", "-b", "feat"]);
}
