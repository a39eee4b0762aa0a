use vstd::prelude::*;

verus! {

/// Errors of the library. Each variant carries the text that is shown to
/// the user after its prefix.
#[derive(Debug)]
pub enum PowError {
    WorkspaceNotFound(String),
    RepoNotFound(String),
    SourceNotFound(String),
    GitFailed(String),
    GithubError(String),
    Io(String),
    Config(String),
    Message(String),
    Other(String),
}

/// The process exit code that stands for an error.
pub open spec fn exit_code_of(e: PowError) -> i32 {
    match e {
        PowError::WorkspaceNotFound(_) => 2,
        PowError::RepoNotFound(_) => 3,
        PowError::SourceNotFound(_) => 4,
        PowError::GitFailed(_) => 5,
        PowError::GithubError(_) => 6,
        _ => 1,
    }
}

/// The text shown for an error.
pub open spec fn display_of(e: PowError) -> Seq<char> {
    match e {
        PowError::WorkspaceNotFound(s) => "workspace not found: "@ + s@,
        PowError::RepoNotFound(s) => s@,
        PowError::SourceNotFound(s) => "source not found: "@ + s@,
        PowError::GitFailed(s) => "git operation failed: "@ + s@,
        PowError::GithubError(s) => "github API error: "@ + s@,
        PowError::Io(s) => "io error: "@ + s@,
        PowError::Config(s) => "config error: "@ + s@,
        PowError::Message(s) => s@,
        PowError::Other(s) => s@,
    }
}

impl PowError {
    pub fn exit_code(&self) -> (code: i32)
        ensures
            code == exit_code_of(*self),
    {
        match self {
            PowError::WorkspaceNotFound(_) => 2,
            PowError::RepoNotFound(_) => 3,
            PowError::SourceNotFound(_) => 4,
            PowError::GitFailed(_) => 5,
            PowError::GithubError(_) => 6,
            _ => 1,
        }
    }

    /// A copy of this error.
    pub fn duplicate(&self) -> (r: PowError)
        ensures
            r == *self,
    {
        match self {
            PowError::WorkspaceNotFound(m) => PowError::WorkspaceNotFound(m.clone()),
            PowError::RepoNotFound(m) => PowError::RepoNotFound(m.clone()),
            PowError::SourceNotFound(m) => PowError::SourceNotFound(m.clone()),
            PowError::GitFailed(m) => PowError::GitFailed(m.clone()),
            PowError::GithubError(m) => PowError::GithubError(m.clone()),
            PowError::Io(m) => PowError::Io(m.clone()),
            PowError::Config(m) => PowError::Config(m.clone()),
            PowError::Message(m) => PowError::Message(m.clone()),
            PowError::Other(m) => PowError::Other(m.clone()),
        }
    }

    /// The text shown for this error.
    pub fn to_display(&self) -> (s: String)
        ensures
            s@ == display_of(*self),
    {
        match self {
            PowError::WorkspaceNotFound(m) => String::from_str("workspace not found: ").concat(m.as_str()),
            PowError::RepoNotFound(m) => m.clone(),
            PowError::SourceNotFound(m) => String::from_str("source not found: ").concat(m.as_str()),
            PowError::GitFailed(m) => String::from_str("git operation failed: ").concat(m.as_str()),
            PowError::GithubError(m) => String::from_str("github API error: ").concat(m.as_str()),
            PowError::Io(m) => String::from_str("io error: ").concat(m.as_str()),
            PowError::Config(m) => String::from_str("config error: ").concat(m.as_str()),
            PowError::Message(m) => m.clone(),
            PowError::Other(m) => m.clone(),
        }
    }
}

} // verus!
