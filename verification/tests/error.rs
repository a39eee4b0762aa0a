use pow::error::PowError;

#[test]
fn exit_codes_per_variant() {
    assert_eq!(PowError::WorkspaceNotFound("w".into()).exit_code(), 2);
    assert_eq!(PowError::RepoNotFound("r".into()).exit_code(), 3);
    assert_eq!(PowError::SourceNotFound("s".into()).exit_code(), 4);
    assert_eq!(PowError::GitFailed("g".into()).exit_code(), 5);
    assert_eq!(PowError::GithubError("h".into()).exit_code(), 6);
    assert_eq!(PowError::Io("i".into()).exit_code(), 1);
    assert_eq!(PowError::Config("c".into()).exit_code(), 1);
    assert_eq!(PowError::Message("m".into()).exit_code(), 1);
    assert_eq!(PowError::Other("o".into()).exit_code(), 1);
}

#[test]
fn display_texts() {
    assert_eq!(PowError::WorkspaceNotFound("w".into()).to_display(), "workspace not found: w");
    assert_eq!(PowError::RepoNotFound("no entry".into()).to_display(), "no entry");
    assert_eq!(PowError::SourceNotFound("s".into()).to_display(), "source not found: s");
    assert_eq!(PowError::GitFailed("g".into()).to_display(), "git operation failed: g");
    assert_eq!(PowError::GithubError("h".into()).to_display(), "github API error: h");
    assert_eq!(PowError::Io("i".into()).to_display(), "io error: i");
    assert_eq!(PowError::Config("c".into()).to_display(), "config error: c");
    assert_eq!(PowError::Message("m".into()).to_display(), "m");
    assert_eq!(PowError::Other("o".into()).to_display(), "o");
}

#[test]
fn duplicate_keeps_variant_and_text() {
    let e = PowError::GitFailed("x".into());
    assert!(matches!(e.duplicate(), PowError::GitFailed(m) if m == "x"));
}
