# pow

`pow` (project oriented workspace) manages multi-repo workspaces through git
worktrees: a workspace is a directory of worktrees taken from one or more
source clones, all checked out on a branch named after the workspace.

## Layout

- `src/` is the library, written in Verus. Its functions carry contracts
  that Verus proves (all but the trusted wrappers named below): configuration lookups and edits, glob filters
  on an organization's repos, resolution of `source/repo` specs, parsing of
  git's porcelain output and `.git` files, the plans behind `pow sync`,
  `pow source sync` and setup copies, and the error messages, prompts,
  status lines and tables that the commands print.
- `app/` is the program around it: the command line (clap), the
  configuration file (serde and toml), git and shell processes, the GitHub
  API (octocrab), the interactive picker and progress bars, and the async
  runtime. It hands the library plain values and prints what comes back.
- `tests/` runs the library on concrete inputs.

The calls into `glob`, `shellexpand` and `std::path` that the library makes
stand behind small trusted wrappers in `src/filter.rs` and `src/paths.rs`,
whose doc comments say what is assumed of them.
