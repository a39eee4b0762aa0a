use vstd::prelude::*;

verus! {

/// What the hidden completion helper lists.
#[derive(Debug)]
pub enum CompleteKind {
    /// Workspace names.
    Workspaces,
    /// Entries (repos) inside a workspace; the active one by default.
    Entries { workspace: Option<String> },
    /// Repo names from registered sources, optionally of one source.
    Repos { source: Option<String> },
    /// Registered source names.
    Sources,
    /// Configured template names.
    Templates,
    /// Known config keys.
    ConfigKeys,
}

/// `pow source ...`.
#[derive(Debug)]
pub enum SourceCommand {
    /// Register a source directory, optionally cloning from a GitHub org.
    Add {
        name: String,
        path: String,
        github_org: Option<String>,
        base_branch: String,
        includes: Vec<String>,
        excludes: Vec<String>,
        all: bool,
        skip_archived: bool,
    },
    /// List registered sources.
    List { json: bool },
    /// Clone new repos from a source's GitHub org.
    Sync { name: String, dry_run: bool, prune: bool, parallel: Option<usize> },
    /// Unregister a source without touching its files.
    Remove { name: String, force: bool },
}

/// `pow template ...`.
#[derive(Debug)]
pub enum TemplateCommand {
    /// List configured templates.
    List { json: bool },
}

/// `pow config get|set`.
#[derive(Debug)]
pub enum ConfigCommand {
    /// Get a single config value by dotted key.
    Get { key: String },
    /// Set a single config value by dotted key.
    SetValue { key: String, value: String },
}

} // verus!
