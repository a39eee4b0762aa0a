use vstd::prelude::*;

use crate::error::{display_of, PowError};
use crate::config::Source;
use crate::order::{sort_by_name, sorted_by_name, sorted_stably};
use crate::paths::{join_path, parent_of, path_join, path_parent, paths_equal, same_path};
use crate::text::{contains_seq, str_contains, str_eq, trim, trimmed};

verus! {

/// A workspace directory and the worktrees in it.
#[derive(Debug)]
pub struct Workspace {
    pub name: String,
    pub path: String,
    pub entries: Vec<Entry>,
}

/// One worktree in a workspace.
#[derive(Debug)]
pub struct Entry {
    pub name: String,
    pub path: String,
    pub source_name: Option<String>,
    pub source_repo_path: String,
}

/// A workspace as `pow list` shows it.
#[derive(Debug)]
pub struct WorkspaceSummary {
    pub name: String,
    pub path: String,
    pub entry_count: usize,
    pub active: bool,
}

/// The active workspace, from the value of `$POW_ACTIVE`: an empty value
/// counts as none.
pub fn active_workspace(env: Option<String>) -> (r: Option<String>)
    ensures
        match env {
            Some(s) => if s@.len() > 0 {
                r matches Some(t) && t@ == s@
            } else {
                r is None
            },
            None => r is None,
        },
{
    match env {
        Some(s) => if s.as_str().unicode_len() > 0 {
            Some(s)
        } else {
            None
        },
        None => None,
    }
}

pub open spec fn no_workspace_message() -> Seq<char> {
    "no workspace specified and $POW_ACTIVE is unset. Pass -w <name> or run `pow use <name>`."@
}

/// The workspace to act on: the one named, else the active one, else an
/// error.
pub fn resolve_workspace_name(arg: Option<&str>, active: Option<String>) -> (r: Result<String, PowError>)
    ensures
        match arg {
            Some(a) => r matches Ok(n) && n@ == a@,
            None => match active {
                Some(s) if s@.len() > 0 => r matches Ok(n) && n@ == s@,
                _ => r matches Err(PowError::Message(m)) && m@ == no_workspace_message(),
            },
        },
{
    if let Some(name) = arg {
        return Ok(String::from_str(name));
    }
    match active_workspace(active) {
        Some(n) => Ok(n),
        None => Err(
            PowError::Message(
                String::from_str(
                    "no workspace specified and $POW_ACTIVE is unset. Pass -w <name> or run `pow use <name>`.",
                ),
            ),
        ),
    }
}

pub open spec fn shell_hint() -> Seq<char> {
    "shell integration not detected. Add `eval \"$(pow init)\"` to your ~/.zshrc."@
}

fn shell_hint_error() -> (e: PowError)
    ensures
        e matches PowError::Message(m) && m@ == shell_hint(),
{
    PowError::Message(String::from_str("shell integration not detected. Add `eval \"$(pow init)\"` to your ~/.zshrc."))
}

/// `pow use` reached without the shell function: it can only explain how to
/// install that function.
pub fn use_workspace(_name: &str) -> (r: Result<(), PowError>)
    ensures
        r matches Err(PowError::Message(m)) && m@ == shell_hint(),
{
    Err(shell_hint_error())
}

/// `pow cd` reached without the shell function: it can only explain how to
/// install that function.
pub fn cd(_name: Option<&str>, _entry: Option<&str>) -> (r: Result<(), PowError>)
    ensures
        r matches Err(PowError::Message(m)) && m@ == shell_hint(),
{
    Err(shell_hint_error())
}

/// A workspace name must be a single path component: not empty and without
/// `/`.
pub open spec fn valid_workspace_name(name: Seq<char>) -> bool {
    name.len() > 0 && !name.contains('/')
}

pub open spec fn invalid_name_message(name: Seq<char>) -> Seq<char> {
    "invalid workspace name '"@ + name + "'"@
}

/// Checks the name of a workspace to be created.
pub fn check_workspace_name(name: &str) -> (r: Result<(), PowError>)
    ensures
        valid_workspace_name(name@) ==> r is Ok,
        !valid_workspace_name(name@) ==> (r matches Err(PowError::Message(m)) && m@ == invalid_name_message(name@)),
{
    let n = name.unicode_len();
    let mut ok = n > 0;
    let mut i: usize = 0;
    while i < n
        invariant
            n == name@.len(),
            i <= n,
            ok == (n > 0 && forall|j: int| 0 <= j < i ==> name@[j] != '/'),
        decreases n - i,
    {
        if name.get_char(i) == '/' {
            ok = false;
        }
        i = i + 1;
    }
    if ok {
        Ok(())
    } else {
        Err(PowError::Message(String::from_str("invalid workspace name '").concat(name).concat("'")))
    }
}

/// An entry matches a repo argument by its name, or by `source/name`
/// (with an unknown source read as empty).
pub open spec fn entry_matches(e: Entry, repo: Seq<char>) -> bool {
    ||| e.name@ == repo
    ||| (match e.source_name {
        Some(s) => s@,
        None => Seq::empty(),
    }) + "/"@ + e.name@ == repo
}

/// An entry answers to its own name and to `source/name` (with an unknown
/// source read as empty), and to nothing else.
pub proof fn law_entry_matches(entries: Seq<Entry>, repo: Seq<char>)
    ensures
        forall|j: int| 0 <= j < entries.len() && (#[trigger] entries[j]).name@ == repo ==> entry_matches(entries[j], repo),
        forall|j: int|
            0 <= j < entries.len() && (match (#[trigger] entries[j]).source_name {
                Some(s) => s@,
                None => Seq::empty(),
            }) + "/"@ + entries[j].name@ == repo ==> entry_matches(entries[j], repo),
        forall|j: int|
            0 <= j < entries.len() && entry_matches(#[trigger] entries[j], repo) ==> (entries[j].name@ == repo || (match entries[j].source_name {
                Some(s) => s@,
                None => Seq::empty(),
            }) + "/"@ + entries[j].name@ == repo),
{
}

/// Position of the first entry that `repo` names, by name or by
/// `source/name`.
pub fn find_entry_qualified(entries: &Vec<Entry>, repo: &str) -> (r: Option<usize>)
    ensures
        match r {
            Some(i) => i < entries@.len() && entry_matches(entries@[i as int], repo@) && forall|j: int|
                0 <= j < i ==> !entry_matches(#[trigger] entries@[j], repo@),
            None => forall|j: int| 0 <= j < entries@.len() ==> !entry_matches(#[trigger] entries@[j], repo@),
        },
        forall|j: int|
            0 <= j < entries@.len() && (#[trigger] entries@[j]).name@ == repo@ ==> (r matches Some(i) && i <= j),
        forall|j: int|
            0 <= j < entries@.len() && (match (#[trigger] entries@[j]).source_name {
                Some(s) => s@,
                None => Seq::empty(),
            }) + "/"@ + entries@[j].name@ == repo@ ==> (r matches Some(i) && i <= j),
        r matches Some(i) ==> (entries@[i as int].name@ == repo@ || (match entries@[i as int].source_name {
            Some(s) => s@,
            None => Seq::empty(),
        }) + "/"@ + entries@[i as int].name@ == repo@),
{
    proof {
        law_entry_matches(entries@, repo@);
    }
    let n = entries.len();
    let mut i: usize = 0;
    while i < n
        invariant
            n == entries@.len(),
            i <= n,
            forall|j: int| 0 <= j < i ==> !entry_matches(#[trigger] entries@[j], repo@),
        decreases n - i,
    {
        let e = &entries[i];
        if str_eq(e.name.as_str(), repo) {
            return Some(i);
        }
        let src = match &e.source_name {
            Some(s) => s.clone(),
            None => String::new(),
        };
        let q = src.concat("/").concat(e.name.as_str());
        if str_eq(q.as_str(), repo) {
            return Some(i);
        }
        i = i + 1;
    }
    None
}

/// Position of the first entry called `name`.
pub fn find_entry(entries: &Vec<Entry>, name: &str) -> (r: Option<usize>)
    ensures
        match r {
            Some(i) => i < entries@.len() && entries@[i as int].name@ == name@ && forall|j: int|
                0 <= j < i ==> (#[trigger] entries@[j]).name@ != name@,
            None => forall|j: int| 0 <= j < entries@.len() ==> (#[trigger] entries@[j]).name@ != name@,
        },
{
    let n = entries.len();
    let mut i: usize = 0;
    while i < n
        invariant
            n == entries@.len(),
            i <= n,
            forall|j: int| 0 <= j < i ==> (#[trigger] entries@[j]).name@ != name@,
        decreases n - i,
    {
        if str_eq(entries[i].name.as_str(), name) {
            return Some(i);
        }
        i = i + 1;
    }
    None
}

pub open spec fn no_entry_message(repo: Seq<char>, ws: Seq<char>) -> Seq<char> {
    "no entry '"@ + repo + "' in workspace '"@ + ws + "'"@
}

/// The error for a repo that a workspace has no entry for.
pub fn no_entry_error(repo: &str, ws_name: &str) -> (e: PowError)
    ensures
        e matches PowError::RepoNotFound(m) && m@ == no_entry_message(repo@, ws_name@),
{
    PowError::RepoNotFound(
        String::from_str("no entry '").concat(repo).concat("' in workspace '").concat(ws_name).concat("'"),
    )
}

/// The (entry name, source repo path) pairs to fetch for a workspace: one
/// per distinct source repo (compared as paths), from the first entry that
/// uses it, in order.
pub open spec fn distinct_sources(entries: Seq<Entry>) -> Seq<(Seq<char>, Seq<char>)>
    decreases entries.len(),
{
    if entries.len() == 0 {
        Seq::empty()
    } else {
        let rest = distinct_sources(entries.drop_last());
        let e = entries.last();
        if exists|j: int| 0 <= j < entries.len() - 1 && same_path((#[trigger] entries[j]).source_repo_path@, e.source_repo_path@) {
            rest
        } else {
            rest.push((e.name@, e.source_repo_path@))
        }
    }
}

/// What `pow sync` fetches in a workspace: the named entry's source repo,
/// or every distinct source repo of its entries.
pub fn sync_targets(ws_name: &str, entries: &Vec<Entry>, repo: Option<&str>) -> (r: Result<
    Vec<(String, String)>,
    PowError,
>)
    ensures
        match repo {
            Some(name) => match r {
                Ok(t) => exists|i: int| {
                    &&& 0 <= i < entries@.len()
                    &&& entries@[i].name@ == name@
                    &&& (forall|j: int| 0 <= j < i ==> (#[trigger] entries@[j]).name@ != name@)
                    &&& t@.len() == 1
                    &&& t@[0].0@ == entries@[i].name@
                    &&& t@[0].1@ == entries@[i].source_repo_path@
                },
                Err(e) => {
                    &&& e matches PowError::RepoNotFound(m) && m@ == no_entry_message(name@, ws_name@)
                    &&& forall|j: int| 0 <= j < entries@.len() ==> (#[trigger] entries@[j]).name@ != name@
                },
            },
            None => r matches Ok(t) && t@.map_values(|p: (String, String)| (p.0@, p.1@)) == distinct_sources(entries@),
        },
{
    match repo {
        Some(name) => match find_entry(entries, name) {
            Some(i) => {
                let mut t: Vec<(String, String)> = Vec::new();
                t.push((entries[i].name.clone(), entries[i].source_repo_path.clone()));
                Ok(t)
            },
            None => Err(no_entry_error(name, ws_name)),
        },
        None => {
            let ghost ev = entries@;
            let mut t: Vec<(String, String)> = Vec::new();
            let n = entries.len();
            let mut i: usize = 0;
            assert(ev.take(0) =~= Seq::<Entry>::empty());
            while i < n
                invariant
                    n == entries@.len(),
                    ev == entries@,
                    i <= n,
                    t@.map_values(|p: (String, String)| (p.0@, p.1@)) == distinct_sources(ev.take(i as int)),
                decreases n - i,
            {
                let ghost prefix = ev.take(i + 1);
                assert(prefix.drop_last() =~= ev.take(i as int));
                assert(prefix.last() == ev[i as int]);
                let mut seen = false;
                let mut j: usize = 0;
                while j < i
                    invariant
                        n == entries@.len(),
                        ev == entries@,
                        j <= i < n,
                        prefix == ev.take(i + 1),
                        seen == exists|k: int| 0 <= k < j && same_path((#[trigger] prefix[k]).source_repo_path@, ev[i as int].source_repo_path@),
                    decreases i - j,
                {
                    assert(prefix[j as int] == ev[j as int]);
                    if paths_equal(entries[j].source_repo_path.as_str(), entries[i].source_repo_path.as_str()) {
                        seen = true;
                    }
                    j = j + 1;
                }
                let ghost before = t@.map_values(|p: (String, String)| (p.0@, p.1@));
                if !seen {
                    t.push((entries[i].name.clone(), entries[i].source_repo_path.clone()));
                    assert(t@.map_values(|p: (String, String)| (p.0@, p.1@)) =~= before.push(
                        (ev[i as int].name@, ev[i as int].source_repo_path@),
                    ));
                }
                i = i + 1;
            }
            assert(ev.take(n as int) =~= ev);
            Ok(t)
        },
    }
}

pub open spec fn sync_failed_message() -> Seq<char> {
    "one or more fetches failed"@
}

/// The outcome of `pow sync` after all fetches ran.
pub fn sync_outcome(had_err: bool) -> (r: Result<(), PowError>)
    ensures
        !had_err ==> r is Ok,
        had_err ==> (r matches Err(PowError::GitFailed(m)) && m@ == sync_failed_message()),
{
    if had_err {
        Err(PowError::GitFailed(String::from_str("one or more fetches failed")))
    } else {
        Ok(())
    }
}

pub open spec fn checked_out_elsewhere(msg: Seq<char>) -> bool {
    contains_seq(msg, "already checked out"@) || contains_seq(msg, "already used by worktree"@)
}

pub open spec fn branch_hint(msg: Seq<char>, branch: Seq<char>, source_repo: Seq<char>) -> Seq<char> {
    msg + "\nhint: branch '"@ + branch + "' is checked out in another worktree of "@ + source_repo
        + ". Remove that worktree first or pick a different branch with `-b`."@
}

/// A failed `git worktree add` gets a hint when git says that the branch is
/// checked out in another worktree.
pub fn augment_worktree_error(err: PowError, branch: &str, source_repo: &str) -> (r: PowError)
    ensures
        checked_out_elsewhere(display_of(err)) ==> (r matches PowError::GitFailed(m) && m@ == branch_hint(
            display_of(err),
            branch@,
            source_repo@,
        )),
        !checked_out_elsewhere(display_of(err)) ==> r == err,
{
    let msg = err.to_display();
    if str_contains(msg.as_str(), "already checked out") || str_contains(msg.as_str(), "already used by worktree") {
        let m = msg.concat("\nhint: branch '").concat(branch).concat("' is checked out in another worktree of ").concat(
            source_repo,
        ).concat(". Remove that worktree first or pick a different branch with `-b`.");
        PowError::GitFailed(m)
    } else {
        err
    }
}

pub open spec fn switch_hint(stderr: Seq<char>, target: Seq<char>) -> Seq<char> {
    stderr + "\nhint: '"@ + target + "' is checked out in another worktree of this repo."@
}

/// The error for a failed `git checkout` in `pow switch`, with a hint when
/// the target is checked out in another worktree.
pub fn switch_failure(stderr: String, target: &str) -> (r: PowError)
    ensures
        checked_out_elsewhere(stderr@) ==> (r matches PowError::GitFailed(m) && m@ == switch_hint(stderr@, target@)),
        !checked_out_elsewhere(stderr@) ==> (r matches PowError::GitFailed(m) && m@ == stderr@),
{
    if str_contains(stderr.as_str(), "already used by worktree") || str_contains(stderr.as_str(), "already checked out") {
        PowError::GitFailed(stderr.concat("\nhint: '").concat(target).concat("' is checked out in another worktree of this repo."))
    } else {
        PowError::GitFailed(stderr)
    }
}

/// ` ↑a↓b` after a status line when the branch is ahead of or behind its
/// upstream; nothing when it is even or has no upstream.
pub open spec fn ahead_behind_text(ahead: Option<usize>, behind: Option<usize>) -> Seq<char> {
    match (ahead, behind) {
        (Some(a), Some(b)) => if a > 0 || b > 0 {
            " ↑"@ + crate::text::decimal(a as nat) + "↓"@ + crate::text::decimal(b as nat)
        } else {
            Seq::empty()
        },
        _ => Seq::empty(),
    }
}

/// The marks name both counts as they are: when the branch is ahead or
/// behind, ` ↑` and the ahead count, then `↓` and the behind count, each read
/// back as the same number; with both counts zero, or one unknown, there is
/// no mark.
pub proof fn law_ahead_behind_marks(ahead: Option<usize>, behind: Option<usize>)
    ensures
        match (ahead, behind) {
            (Some(a), Some(b)) => if a > 0 || b > 0 {
                &&& ahead_behind_text(ahead, behind) == " ↑"@ + crate::text::decimal(a as nat) + "↓"@
                    + crate::text::decimal(b as nat)
                &&& crate::text::decimal_value(crate::text::unsigned_digits(crate::text::decimal(a as nat))) == a
                &&& crate::text::decimal_value(crate::text::unsigned_digits(crate::text::decimal(b as nat))) == b
            } else {
                ahead_behind_text(ahead, behind).len() == 0
            },
            _ => ahead_behind_text(ahead, behind).len() == 0,
        },
{
    if let (Some(a), Some(b)) = (ahead, behind) {
        crate::text::lemma_parse_format_roundtrip(a);
        crate::text::lemma_parse_format_roundtrip(b);
    }
}

pub fn format_ahead_behind(ahead: Option<usize>, behind: Option<usize>) -> (r: String)
    ensures
        r@ == ahead_behind_text(ahead, behind),
        match (ahead, behind) {
            (Some(a), Some(b)) => if a > 0 || b > 0 {
                r@ == " ↑"@ + crate::text::decimal(a as nat) + "↓"@ + crate::text::decimal(b as nat)
            } else {
                r@.len() == 0
            },
            _ => r@.len() == 0,
        },
{
    proof {
        law_ahead_behind_marks(ahead, behind);
    }
    match (ahead, behind) {
        (Some(a), Some(b)) => if a > 0 || b > 0 {
            let sa = crate::text::format_usize(a);
            let sb = crate::text::format_usize(b);
            String::from_str(" ↑").concat(sa.as_str()).concat("↓").concat(sb.as_str())
        } else {
            String::new()
        },
        _ => String::new(),
    }
}

/// The lower-case form of an ASCII letter; other characters unchanged.
pub open spec fn ascii_lower(c: char) -> char {
    if 'A' <= c && c <= 'Z' {
        ((c as int) + 32) as char
    } else {
        c
    }
}

/// Whether an answer to a `[y/N]` prompt agrees: after trimming, `y` or
/// `yes` in any case. (`str::to_lowercase` maps no character other than
/// `Y`, `E` and `S` to `y`, `e` or `s`, so comparing ASCII letters
/// case-insensitively decides it.)
pub open spec fn is_yes(answer: Seq<char>) -> bool {
    let t = trimmed(answer);
    ||| (t.len() == 1 && ascii_lower(t[0]) == 'y')
    ||| (t.len() == 3 && ascii_lower(t[0]) == 'y' && ascii_lower(t[1]) == 'e' && ascii_lower(t[2]) == 's')
}

fn lower_is(c: char, want: char) -> (r: bool)
    requires
        'a' <= want && want <= 'z',
    ensures
        r == (ascii_lower(c) == want),
{
    if 'A' <= c && c <= 'Z' {
        (c as u32) + 32 == (want as u32)
    } else {
        c == want
    }
}

/// Whether the user agreed at a `[y/N]` prompt.
pub fn confirmed(answer: &str) -> (r: bool)
    ensures
        r == is_yes(answer@),
{
    let t = trim(answer);
    let s = t.as_str();
    let n = s.unicode_len();
    if n == 1 {
        lower_is(s.get_char(0), 'y')
    } else if n == 3 {
        lower_is(s.get_char(0), 'y') && lower_is(s.get_char(1), 'e') && lower_is(s.get_char(2), 's')
    } else {
        false
    }
}

/// Where `pow cd` goes, and the error to report if it does not exist.
#[derive(Debug)]
pub struct CdTarget {
    pub path: String,
    pub missing: PowError,
}

pub open spec fn no_active_message() -> Seq<char> {
    "no active workspace. `pow use <name>` or pass an argument to `pow cd`."@
}

pub open spec fn cd_usage_message() -> Seq<char> {
    "usage: pow cd [<workspace>] [<entry>]"@
}

/// Where `pow cd [<workspace>] [<entry>]` goes under the workspaces root,
/// given the root as it was found.
pub open spec fn cd_target_ok(t: CdTarget, args: Seq<String>, active: Option<String>, root: Seq<char>) -> bool {
    if args.len() == 0 {
        let a = active->0;
        t.path@ == path_join(root, a@) && (t.missing matches PowError::WorkspaceNotFound(m) && m@ == a@)
    } else if args.len() == 1 {
        t.path@ == path_join(root, args[0]@) && (t.missing matches PowError::WorkspaceNotFound(m) && m@ == args[0]@)
    } else {
        t.path@ == path_join(path_join(root, args[0]@), args[1]@) && (t.missing matches PowError::RepoNotFound(m)
            && m@ == no_entry_message(args[1]@, args[0]@))
    }
}

/// The target of `pow cd [<workspace>] [<entry>]` under the workspaces root:
/// the active workspace, the named one, or an entry in the named one. More
/// than two arguments are a usage error, and so is none without an active
/// workspace; otherwise a failure to find the root is the error.
pub fn resolve_cd(args: &Vec<String>, active: Option<String>, root: Result<String, PowError>) -> (r: Result<CdTarget, PowError>)
    ensures
        args@.len() > 2 ==> (r matches Err(PowError::Message(m)) && m@ == cd_usage_message()),
        args@.len() == 0 && !(active matches Some(a) && a@.len() > 0) ==> (r matches Err(PowError::Message(m)) && m@
            == no_active_message()),
        args@.len() <= 2 && (args@.len() > 0 || (active matches Some(a) && a@.len() > 0)) ==> match root {
            Ok(rt) => r matches Ok(t) && cd_target_ok(t, args@, active, rt@),
            Err(e) => r == Err::<CdTarget, PowError>(e),
        },
{
    let n = args.len();
    if n > 2 {
        return Err(PowError::Message(String::from_str("usage: pow cd [<workspace>] [<entry>]")));
    }
    if n == 0 {
        let name = match active_workspace(active) {
            Some(name) => name,
            None => {
                return Err(
                    PowError::Message(
                        String::from_str("no active workspace. `pow use <name>` or pass an argument to `pow cd`."),
                    ),
                );
            },
        };
        let rt = root?;
        let path = join_path(rt.as_str(), name.as_str());
        Ok(CdTarget { path, missing: PowError::WorkspaceNotFound(name) })
    } else if n == 1 {
        let rt = root?;
        let path = join_path(rt.as_str(), args[0].as_str());
        Ok(CdTarget { path, missing: PowError::WorkspaceNotFound(args[0].clone()) })
    } else {
        let rt = root?;
        let ws = join_path(rt.as_str(), args[0].as_str());
        let path = join_path(ws.as_str(), args[1].as_str());
        Ok(CdTarget { path, missing: no_entry_error(args[1].as_str(), args[0].as_str()) })
    }
}

/// Whether a directory under the workspaces root is listed as a workspace:
/// its name is not empty and does not start with `.`.
pub open spec fn listed_name(name: Seq<char>) -> bool {
    name.len() > 0 && name[0] != '.'
}

/// A directory found under the workspaces root: its name, its path, and
/// how many git worktrees are in it.
#[derive(Debug)]
pub struct WorkspaceDir {
    pub name: String,
    pub path: String,
    pub entry_count: usize,
}

/// The summary of a workspace directory; it is marked active when it is
/// the active workspace.
pub open spec fn summary_of(d: WorkspaceDir, active: Option<Seq<char>>) -> WorkspaceSummary {
    WorkspaceSummary { name: d.name, path: d.path, entry_count: d.entry_count, active: active == Some(d.name@) }
}

/// The summaries of the directories that are listed as workspaces, in
/// their order.
pub open spec fn listed_summaries(dirs: Seq<WorkspaceDir>, active: Option<Seq<char>>) -> Seq<WorkspaceSummary>
    decreases dirs.len(),
{
    if dirs.len() == 0 {
        Seq::empty()
    } else {
        let rest = listed_summaries(dirs.drop_last(), active);
        if listed_name(dirs.last().name@) {
            rest.push(summary_of(dirs.last(), active))
        } else {
            rest
        }
    }
}

/// `pow list`: every workspace among the directories under the workspaces
/// root (those whose name is not empty and does not start with `.`),
/// sorted by name, each marked active when it is the active workspace.
pub fn list(dirs: Vec<WorkspaceDir>, active: &Option<String>) -> (r: Vec<WorkspaceSummary>)
    ensures
        r@ == sorted_stably(listed_summaries(dirs@, active.deep_view())),
        sorted_by_name(r@),
        forall|k: int|
            0 <= k < dirs@.len() && (#[trigger] dirs@[k]).name@.len() > 0 && dirs@[k].name@[0] != '.' ==> r@.contains(
                WorkspaceSummary {
                    name: dirs@[k].name,
                    path: dirs@[k].path,
                    entry_count: dirs@[k].entry_count,
                    active: active.deep_view() == Some(dirs@[k].name@),
                },
            ),
        forall|m: int| 0 <= m < r@.len() ==> {
            let s = #[trigger] r@[m];
            &&& s.name@.len() > 0
            &&& s.name@[0] != '.'
            &&& s.active == (active.deep_view() == Some(s.name@))
        },
{
    let ghost av = active.deep_view();
    let mut out: Vec<WorkspaceSummary> = Vec::new();
    let n = dirs.len();
    let mut i: usize = 0;
    assert(dirs@.take(0) =~= Seq::<WorkspaceDir>::empty());
    while i < n
        invariant
            n == dirs@.len(),
            av == active.deep_view(),
            i <= n,
            out@ == listed_summaries(dirs@.take(i as int), av),
        decreases n - i,
    {
        let d = &dirs[i];
        assert(dirs@.take(i + 1).drop_last() =~= dirs@.take(i as int));
        assert(dirs@.take(i + 1).last() == *d);
        let k = d.name.as_str().unicode_len();
        if k > 0 && d.name.as_str().get_char(0) != '.' {
            let is_active = match active {
                Some(a) => str_eq(a.as_str(), d.name.as_str()),
                None => false,
            };
            let s = WorkspaceSummary {
                name: d.name.clone(),
                path: d.path.clone(),
                entry_count: d.entry_count,
                active: is_active,
            };
            assert(s == summary_of(*d, av));
            out.push(s);
        }
        i = i + 1;
    }
    assert(dirs@.take(n as int) =~= dirs@);
    let r = sort_by_name(out);
    proof {
        let ls = listed_summaries(dirs@, av);
        law_listed(dirs@, av);
        assert forall|k: int|
            0 <= k < dirs@.len() && (#[trigger] dirs@[k]).name@.len() > 0 && dirs@[k].name@[0] != '.' implies r@.contains(
                WorkspaceSummary {
                    name: dirs@[k].name,
                    path: dirs@[k].path,
                    entry_count: dirs@[k].entry_count,
                    active: av == Some(dirs@[k].name@),
                },
            ) by {
            let w = WorkspaceSummary {
                name: dirs@[k].name,
                path: dirs@[k].path,
                entry_count: dirs@[k].entry_count,
                active: av == Some(dirs@[k].name@),
            };
            vstd::seq_lib::to_multiset_contains(ls, w);
            vstd::seq_lib::to_multiset_contains(r@, w);
        }
        assert forall|m: int| 0 <= m < r@.len() implies {
            let s = #[trigger] r@[m];
            &&& s.name@.len() > 0
            &&& s.name@[0] != '.'
            &&& s.active == (av == Some(s.name@))
        } by {
            let s = r@[m];
            assert(r@.contains(s));
            vstd::seq_lib::to_multiset_contains(r@, s);
            vstd::seq_lib::to_multiset_contains(ls, s);
            let q = choose|q: int| 0 <= q < ls.len() && ls[q] == s;
            assert(ls[q] == s);
        }
    }
    r
}

/// Every directory whose name is not empty and does not start with `.` is
/// listed, whatever else its name holds, with its path, its count and
/// whether it is the active one; and every listed summary is of such a
/// directory.
pub proof fn law_listed(dirs: Seq<WorkspaceDir>, active: Option<Seq<char>>)
    ensures
        forall|k: int|
            0 <= k < dirs.len() && (#[trigger] dirs[k]).name@.len() > 0 && dirs[k].name@[0] != '.' ==> listed_summaries(
                dirs,
                active,
            ).contains(
                WorkspaceSummary {
                    name: dirs[k].name,
                    path: dirs[k].path,
                    entry_count: dirs[k].entry_count,
                    active: active == Some(dirs[k].name@),
                },
            ),
        forall|m: int| 0 <= m < listed_summaries(dirs, active).len() ==> {
            let s = #[trigger] listed_summaries(dirs, active)[m];
            &&& s.name@.len() > 0
            &&& s.name@[0] != '.'
            &&& s.active == (active == Some(s.name@))
        },
    decreases dirs.len(),
{
    if dirs.len() > 0 {
        let d = dirs.drop_last();
        law_listed(d, active);
        let rest = listed_summaries(d, active);
        let ls = listed_summaries(dirs, active);
        assert forall|k: int|
            0 <= k < dirs.len() && (#[trigger] dirs[k]).name@.len() > 0 && dirs[k].name@[0] != '.' implies ls.contains(
                WorkspaceSummary {
                    name: dirs[k].name,
                    path: dirs[k].path,
                    entry_count: dirs[k].entry_count,
                    active: active == Some(dirs[k].name@),
                },
            ) by {
            let w = WorkspaceSummary {
                name: dirs[k].name,
                path: dirs[k].path,
                entry_count: dirs[k].entry_count,
                active: active == Some(dirs[k].name@),
            };
            if k < dirs.len() - 1 {
                assert(d[k] == dirs[k]);
                assert(rest.contains(w));
                let q = choose|q: int| 0 <= q < rest.len() && rest[q] == w;
                if listed_name(dirs.last().name@) {
                    assert(ls[q] == rest[q]);
                }
            } else {
                assert(listed_name(dirs.last().name@));
                assert(ls[ls.len() - 1] == w);
            }
        }
        assert forall|m: int| 0 <= m < ls.len() implies {
            let s = #[trigger] ls[m];
            &&& s.name@.len() > 0
            &&& s.name@[0] != '.'
            &&& s.active == (active == Some(s.name@))
        } by {
            if m < rest.len() {
                assert(ls[m] == rest[m]);
            }
        }
    }
}

/// `pow show` of a workspace: its worktrees sorted by name, or
/// `WorkspaceNotFound` when its directory does not exist (`found` is
/// `None`).
pub fn show(name: &str, path: String, found: Option<Vec<Entry>>) -> (r: Result<Workspace, PowError>)
    ensures
        match found {
            None => r matches Err(PowError::WorkspaceNotFound(m)) && m@ == name@,
            Some(es) => r matches Ok(w) && w.name@ == name@ && w.path == path && w.entries@ == sorted_stably(es@),
        },
{
    match found {
        None => Err(PowError::WorkspaceNotFound(String::from_str(name))),
        Some(es) => Ok(Workspace { name: String::from_str(name), path, entries: sort_by_name(es) }),
    }
}

} // verus!

verus! {

/// The branch a new entry is checked out on: the one asked for, else the
/// workspace's name.
pub fn branch_for(branch: Option<&str>, ws_name: &str) -> (r: String)
    ensures
        match branch {
            Some(b) => r@ == b@,
            None => r@ == ws_name@,
        },
{
    match branch {
        Some(b) => String::from_str(b),
        None => String::from_str(ws_name),
    }
}

/// The ref a new branch starts from: the one asked for, else the source's
/// base branch, else `main`.
pub fn base_for(from: Option<&str>, source_base: Option<&str>) -> (r: String)
    ensures
        match from {
            Some(f) => r@ == f@,
            None => match source_base {
                Some(b) => r@ == b@,
                None => r@ == "main"@,
            },
        },
{
    match from {
        Some(f) => String::from_str(f),
        None => match source_base {
            Some(b) => String::from_str(b),
            None => String::from_str("main"),
        },
    }
}

pub open spec fn destination_exists_message(dest: Seq<char>, repo: Seq<char>) -> Seq<char> {
    "destination already exists: "@ + dest + ". Use `pow forget "@ + repo + "` first."@
}

/// The error for adding a repo whose directory already exists in the
/// workspace.
pub fn destination_exists_error(dest: &str, repo: &str) -> (e: PowError)
    ensures
        e matches PowError::Message(m) && m@ == destination_exists_message(dest@, repo@),
{
    PowError::Message(String::from_str("destination already exists: ").concat(dest).concat(". Use `pow forget ").concat(
        repo,
    ).concat("` first."))
}

pub open spec fn workspace_exists_message(path: Seq<char>) -> Seq<char> {
    "workspace directory already exists at "@ + path + ". Use --force to overwrite."@
}

/// The error for creating a workspace whose directory exists, without
/// `--force`.
pub fn workspace_exists_error(path: &str) -> (e: PowError)
    ensures
        e matches PowError::Message(m) && m@ == workspace_exists_message(path@),
{
    PowError::Message(String::from_str("workspace directory already exists at ").concat(path).concat(". Use --force to overwrite."))
}

/// Whether tearing down an entry deletes its branch: only when asked to
/// prune branches, and only when the worktree was on a branch.
pub fn prunes_branch(prune_branches: bool, branch: &str) -> (r: bool)
    ensures
        r == (prune_branches && branch@.len() > 0),
{
    prune_branches && branch.unicode_len() > 0
}

/// Whether `p` is, as a path, one of `paths`.
pub open spec fn has_path(paths: Seq<String>, p: Seq<char>) -> bool {
    exists|j: int| 0 <= j < paths.len() && same_path((#[trigger] paths[j])@, p)
}

/// The entries whose setup files `pow sync` copies again: those whose
/// source repo is, as a path, one of the fetched ones.
pub fn recopy_entries(entries: &Vec<Entry>, fetched: &Vec<String>) -> (r: Vec<usize>)
    ensures
        forall|k: int| 0 <= k < r@.len() ==> r@[k] < entries@.len(),
        forall|i: int| 0 <= i < entries@.len() ==> (r@.contains(i as usize) <==> has_path(
            fetched@,
            (#[trigger] entries@[i]).source_repo_path@,
        )),
        forall|a: int, b: int| 0 <= a < b < r@.len() ==> r@[a] < r@[b],
{
    let mut out: Vec<usize> = Vec::new();
    let n = entries.len();
    let m = fetched.len();
    let mut i: usize = 0;
    while i < n
        invariant
            n == entries@.len(),
            m == fetched@.len(),
            i <= n,
            forall|k: int| 0 <= k < out@.len() ==> out@[k] < i,
            forall|a: int, b: int| 0 <= a < b < out@.len() ==> out@[a] < out@[b],
            forall|x: int| 0 <= x < i ==> (out@.contains(x as usize) <==> has_path(
                fetched@,
                (#[trigger] entries@[x]).source_repo_path@,
            )),
        decreases n - i,
    {
        let mut hit = false;
        let mut j: usize = 0;
        while j < m
            invariant
                m == fetched@.len(),
                i < n,
                n == entries@.len(),
                j <= m,
                hit == exists|k: int| 0 <= k < j && same_path((#[trigger] fetched@[k])@, entries@[i as int].source_repo_path@),
            decreases m - j,
        {
            if paths_equal(fetched[j].as_str(), entries[i].source_repo_path.as_str()) {
                hit = true;
            }
            j = j + 1;
        }
        let ghost before = out@;
        if hit {
            out.push(i);
            assert(out@ == before.push(i));
            assert forall|x: int| 0 <= x < i implies (#[trigger] out@.contains(x as usize) <==> before.contains(x as usize)) by {
                if out@.contains(x as usize) {
                    let k = choose|k: int| 0 <= k < out@.len() && out@[k] == x as usize;
                    if k < before.len() {
                        assert(before[k] == x as usize);
                    }
                }
                if before.contains(x as usize) {
                    let k = choose|k: int| 0 <= k < before.len() && before[k] == x as usize;
                    assert(out@[k] == x as usize);
                }
            }
            assert(out@[before.len() as int] == i);
        } else {
            assert(!out@.contains(i));
        }
        i = i + 1;
    }
    out
}

/// Whether a source, whose path expanded to `expanded` and canonicalizes to
/// `canonical`, is the directory `parent` (canonically `parent_canonical`):
/// the paths are equal, or their canonical forms are (two paths that both
/// fail to canonicalize count as equal).
pub open spec fn source_is_dir(
    expanded: Result<String, PowError>,
    canonical: Option<Seq<char>>,
    parent: Seq<char>,
    parent_canonical: Option<Seq<char>>,
) -> bool {
    match expanded {
        Ok(ep) => same_path(ep@, parent) || canonical == parent_canonical,
        Err(_) => false,
    }
}

/// The source that a worktree's source repo belongs to: the first source
/// whose directory is the repo's parent directory. `expanded[i]` is the
/// expansion of the path of `sources[i]`, `canonical[i]` its canonical form,
/// and `parent_canonical` that of the repo's parent.
pub fn owning_source(
    source_repo: &str,
    sources: &Vec<Source>,
    expanded: &Vec<Result<String, PowError>>,
    canonical: &Vec<Option<String>>,
    parent_canonical: &Option<String>,
) -> (r: Option<String>)
    requires
        expanded@.len() == sources@.len(),
        canonical@.len() == sources@.len(),
    ensures
        match parent_of(source_repo@) {
            None => r is None,
            Some(parent) => match r {
                Some(name) => exists|i: int| {
                    &&& 0 <= i < sources@.len()
                    &&& source_is_dir(expanded@[i], canonical@[i].deep_view(), parent, parent_canonical.deep_view())
                    &&& (forall|j: int| 0 <= j < i ==> !source_is_dir(#[trigger] expanded@[j], canonical@[j].deep_view(), parent, parent_canonical.deep_view()))
                    &&& name@ == sources@[i].name@
                },
                None => forall|j: int| 0 <= j < sources@.len() ==> !source_is_dir(#[trigger] expanded@[j], canonical@[j].deep_view(), parent, parent_canonical.deep_view()),
            },
        },
{
    let parent = match path_parent(source_repo) {
        Some(p) => p,
        None => return None,
    };
    let ghost pc = parent_canonical.deep_view();
    assert(parent_of(source_repo@) == Some(parent@));
    let n = sources.len();
    let mut i: usize = 0;
    while i < n
        invariant
            n == sources@.len(),
            expanded@.len() == n,
            canonical@.len() == n,
            pc == parent_canonical.deep_view(),
            parent_of(source_repo@) == Some(parent@),
            i <= n,
            forall|j: int| 0 <= j < i ==> !source_is_dir(#[trigger] expanded@[j], canonical@[j].deep_view(), parent@, pc),
        decreases n - i,
    {
        let hit = match &expanded[i] {
            Ok(ep) => {
                let same = paths_equal(ep.as_str(), parent.as_str());
                let canon = match (&canonical[i], parent_canonical) {
                    (Some(a), Some(b)) => str_eq(a.as_str(), b.as_str()),
                    (None, None) => true,
                    _ => false,
                };
                same || canon
            },
            Err(_) => false,
        };
        if hit {
            assert(source_is_dir(expanded@[i as int], canonical@[i as int].deep_view(), parent@, pc));
            let name = sources[i].name.clone();
            assert(parent_of(source_repo@) == Some(parent@));
            assert(name@ == sources@[i as int].name@);
            return Some(name);
        }
        i = i + 1;
    }
    None
}

} // verus!
