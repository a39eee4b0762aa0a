//! Verified core of `pow`, a tool that groups git worktrees from several
//! source clones into named workspaces.

pub mod config;
pub mod error;
pub mod paths;
pub mod text;
pub mod filter;
pub mod github;
pub mod repo_setup;
pub mod lines;
pub mod git;
pub mod resolve;
pub mod workspace;
pub mod table;
pub mod source;
pub mod template;
pub mod cli;
pub mod order;
pub mod work;
