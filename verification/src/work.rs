use vstd::prelude::*;

use crate::error::{display_of, PowError};
use crate::lines::{lines_of, split_lines};
use crate::table::{append_padded, padded};
use crate::text::{decimal, format_usize, has_suffix, str_ends_with};
use crate::table::{cells_of, render_table, rendered};
use crate::workspace::{ahead_behind_text, format_ahead_behind, Entry, Workspace, WorkspaceSummary};

verus! {

/// Whether `pow status` shows an entry: with `--dirty-only`, only entries
/// with modified files.
pub fn shows_entry(dirty_only: bool, modified: usize) -> (r: bool)
    ensures
        r == !(dirty_only && modified == 0),
{
    !(dirty_only && modified == 0)
}

/// The line of `pow status --short` for an entry:
/// `{name:<20}  {branch:<20}  {modified:>3}M` and the ahead/behind marks.
pub open spec fn short_status_text(
    name: Seq<char>,
    branch: Seq<char>,
    modified: usize,
    ahead: Option<usize>,
    behind: Option<usize>,
) -> Seq<char> {
    padded(name, 20, false) + "  "@ + padded(branch, 20, false) + "  "@ + padded(decimal(modified as nat), 3, true)
        + "M"@ + ahead_behind_text(ahead, behind)
}

pub fn short_status_line(
    name: &str,
    branch: &str,
    modified: usize,
    ahead: Option<usize>,
    behind: Option<usize>,
) -> (r: String)
    ensures
        r@ == short_status_text(name@, branch@, modified, ahead, behind),
{
    let mut line = String::new();
    append_padded(&mut line, name, 20, false);
    line.append("  ");
    append_padded(&mut line, branch, 20, false);
    line.append("  ");
    let m = format_usize(modified);
    append_padded(&mut line, m.as_str(), 3, true);
    line.append("M");
    let ab = format_ahead_behind(ahead, behind);
    line.append(ab.as_str());
    assert(line@ =~= short_status_text(name@, branch@, modified, ahead, behind));
    line
}

/// The heading of an entry in `pow status`:
/// `=== name [branch] (n modified, ahead a, behind b)`, the counts only when
/// the branch has an upstream, and `, no upstream` when it has none.
pub open spec fn status_heading_text(
    name: Seq<char>,
    branch: Seq<char>,
    modified: usize,
    ahead: Option<usize>,
    behind: Option<usize>,
) -> Seq<char> {
    "=== "@ + name + " ["@ + branch + "] ("@ + decimal(modified as nat) + " modified"@ + match (ahead, behind) {
        (Some(a), Some(b)) => ", ahead "@ + decimal(a as nat) + ", behind "@ + decimal(b as nat),
        _ => Seq::empty(),
    } + ")"@ + if ahead is None {
        ", no upstream"@
    } else {
        Seq::empty()
    }
}

pub fn status_heading(
    name: &str,
    branch: &str,
    modified: usize,
    ahead: Option<usize>,
    behind: Option<usize>,
) -> (r: String)
    ensures
        r@ == status_heading_text(name@, branch@, modified, ahead, behind),
{
    let m = format_usize(modified);
    let mut line = String::from_str("=== ").concat(name).concat(" [").concat(branch).concat("] (").concat(
        m.as_str(),
    ).concat(" modified");
    match (ahead, behind) {
        (Some(a), Some(b)) => {
            let sa = format_usize(a);
            let sb = format_usize(b);
            line = line.concat(", ahead ").concat(sa.as_str()).concat(", behind ").concat(sb.as_str());
        },
        _ => {},
    }
    line = line.concat(")");
    if ahead.is_none() {
        line = line.concat(", no upstream");
    }
    assert(line@ =~= status_heading_text(name@, branch@, modified, ahead, behind));
    line
}

/// Each line of `text` (as `str::lines` splits it) behind `prefix`.
pub open spec fn prefixed_text(prefix: Seq<char>, text: Seq<char>) -> Seq<Seq<char>> {
    lines_of(text).map_values(|l: Seq<char>| prefix + l)
}

/// The lines of `text`, each behind `prefix`: how `pow exec` labels the
/// output of a command and how `pow status` indents `git status --short`.
pub fn prefixed_lines(prefix: &str, text: &str) -> (r: Vec<String>)
    ensures
        r@.map_values(|s: String| s@) == prefixed_text(prefix@, text@),
{
    let ls = split_lines(text);
    let ghost want = prefixed_text(prefix@, text@);
    let mut out: Vec<String> = Vec::new();
    let n = ls.len();
    let mut i: usize = 0;
    while i < n
        invariant
            n == ls@.len(),
            ls@.map_values(|l: String| l@) == lines_of(text@),
            want == prefixed_text(prefix@, text@),
            i <= n,
            out@.map_values(|s: String| s@) == want.take(i as int),
        decreases n - i,
    {
        let line = String::from_str(prefix).concat(ls[i].as_str());
        assert(ls@.map_values(|l: String| l@)[i as int] == ls@[i as int]@);
        let ghost before = out@.map_values(|s: String| s@);
        out.push(line);
        assert(out@.map_values(|s: String| s@) =~= before.push(line@));
        assert(want.take(i + 1) =~= want.take(i as int).push(line@));
        i = i + 1;
    }
    assert(want.take(n as int) =~= want);
    out
}

/// The label of an entry's output in `pow exec`: `[name] `.
pub open spec fn entry_label(name: Seq<char>) -> Seq<char> {
    "["@ + name + "] "@
}

pub fn entry_prefix(name: &str) -> (r: String)
    ensures
        r@ == entry_label(name@),
{
    String::from_str("[").concat(name).concat("] ")
}

/// What `pow exec --dry-run` prints for an entry.
pub open spec fn dry_run_exec_text(name: Seq<char>, path: Seq<char>, command: Seq<char>) -> Seq<char> {
    "["@ + name + "] (in "@ + path + ") $ "@ + command
}

pub fn dry_run_exec_line(name: &str, path: &str, command: &str) -> (r: String)
    ensures
        r@ == dry_run_exec_text(name@, path@, command@),
{
    String::from_str("[").concat(name).concat("] (in ").concat(path).concat(") $ ").concat(command)
}

pub open spec fn no_entries_message(ws: Seq<char>) -> Seq<char> {
    "workspace '"@ + ws + "' has no entries."@
}

pub fn no_entries_line(ws: &str) -> (r: String)
    ensures
        r@ == no_entries_message(ws@),
{
    String::from_str("workspace '").concat(ws).concat("' has no entries.")
}

pub open spec fn commands_failed_message() -> Seq<char> {
    "one or more commands failed"@
}

/// The outcome of `pow exec` once every command ran.
pub fn exec_outcome(had_err: bool) -> (r: Result<(), PowError>)
    ensures
        !had_err ==> r is Ok,
        had_err ==> (r matches Err(PowError::Message(m)) && m@ == commands_failed_message()),
{
    if had_err {
        Err(PowError::Message(String::from_str("one or more commands failed")))
    } else {
        Ok(())
    }
}

/// How `pow sync --all` labels a repo of a source: `source/repo`.
pub fn qualified_label(source: &str, repo: &str) -> (r: String)
    ensures
        r@ == source@ + "/"@ + repo@,
{
    String::from_str(source).concat("/").concat(repo)
}

/// The question `pow rm` asks before tearing a workspace down.
pub open spec fn teardown_question(name: Seq<char>, n: usize) -> Seq<char> {
    "Tear down workspace '"@ + name + "' ("@ + decimal(n as nat) + " "@ + (if n == 1 {
        "entry"@
    } else {
        "entries"@
    }) + ")? [y/N] "@
}

pub fn teardown_prompt(name: &str, n: usize) -> (r: String)
    ensures
        r@ == teardown_question(name@, n),
{
    let count = format_usize(n);
    let noun = if n == 1 {
        "entry"
    } else {
        "entries"
    };
    let r = String::from_str("Tear down workspace '").concat(name).concat("' (").concat(count.as_str()).concat(
        " ",
    ).concat(noun).concat(")? [y/N] ");
    proof {
        reveal_strlit("entry");
        reveal_strlit("entries");
    }
    r
}

pub open spec fn forget_hint() -> Seq<char> {
    "\nThe worktree may have uncommitted changes. Re-run with `--force` is not yet supported; commit/stash changes or remove the directory manually."@
}

/// The error of `pow forget` when git refuses to remove the worktree.
pub fn forget_failure(err: &PowError) -> (r: PowError)
    ensures
        r matches PowError::GitFailed(m) && m@ == display_of(*err) + forget_hint(),
{
    PowError::GitFailed(
        err.to_display().concat(
            "\nThe worktree may have uncommitted changes. Re-run with `--force` is not yet supported; commit/stash changes or remove the directory manually.",
        ),
    )
}

/// What `pow current` prints: the active workspace, or that there is none.
pub fn current_text(active: &Option<String>) -> (r: String)
    ensures
        match active {
            Some(a) => r@ == a@,
            None => r@ == "no active workspace"@,
        },
{
    match active {
        Some(a) => a.clone(),
        None => String::from_str("no active workspace"),
    }
}

/// Whether `pow init` warns that the shell is not zsh: `$SHELL` is set and
/// does not end in `zsh`.
pub fn warns_about_shell(shell: &str) -> (r: bool)
    ensures
        r == (shell@.len() > 0 && !has_suffix(shell@, "zsh"@)),
{
    proof {
        reveal_strlit("zsh");
    }
    !str_ends_with(shell, "zsh") && shell.unicode_len() > 0
}

pub open spec fn shell_warning_text(shell: Seq<char>) -> Seq<char> {
    "warning: pow shell integration is tuned for zsh; your $SHELL is '"@ + shell
        + "'. The script below is emitted anyway."@
}

pub fn shell_warning(shell: &str) -> (r: String)
    ensures
        r@ == shell_warning_text(shell@),
{
    String::from_str("warning: pow shell integration is tuned for zsh; your $SHELL is '").concat(shell).concat(
        "'. The script below is emitted anyway.",
    )
}

} // verus!

verus! {

pub open spec fn no_workspaces_message() -> Seq<char> {
    "no workspaces. Create one with `pow new <name>`."@
}

/// The cells of a workspace's row in `pow list`: its name (followed by ` *`
/// when it is the active one), how many entries it has, and its path.
pub open spec fn summary_cells(s: WorkspaceSummary) -> Seq<Seq<char>> {
    seq![if s.active { s.name@ + " *"@ } else { s.name@ }, decimal(s.entry_count as nat), s.path@]
}

pub open spec fn summary_header() -> Seq<Seq<char>> {
    seq!["NAME"@, "ENTRIES"@, "PATH"@]
}

/// What `pow list` prints: a notice when there are no workspaces, else a
/// table of them under a header, the count column aligned right.
pub fn list_lines(summaries: &Vec<WorkspaceSummary>) -> (r: Vec<String>)
    ensures
        summaries@.len() == 0 ==> r@.map_values(|s: String| s@) == seq![no_workspaces_message()],
        summaries@.len() > 0 ==> r@.map_values(|s: String| s@) == rendered(
            seq![summary_header()] + summaries@.map_values(|x: WorkspaceSummary| summary_cells(x)),
            seq![false, true, false],
        ),
{
    if summaries.len() == 0 {
        let mut r: Vec<String> = Vec::new();
        r.push(String::from_str("no workspaces. Create one with `pow new <name>`."));
        assert(r@.map_values(|s: String| s@) =~= seq![no_workspaces_message()]);
        return r;
    }
    let ghost want = seq![summary_header()] + summaries@.map_values(|x: WorkspaceSummary| summary_cells(x));
    let mut rows: Vec<Vec<String>> = Vec::new();
    let mut header: Vec<String> = Vec::new();
    header.push(String::from_str("NAME"));
    header.push(String::from_str("ENTRIES"));
    header.push(String::from_str("PATH"));
    assert(header@.map_values(|s: String| s@) =~= summary_header());
    rows.push(header);
    let n = summaries.len();
    let mut i: usize = 0;
    while i < n
        invariant
            n == summaries@.len(),
            want == seq![summary_header()] + summaries@.map_values(|x: WorkspaceSummary| summary_cells(x)),
            i <= n,
            rows@.len() == i + 1,
            forall|k: int| 0 <= k < rows@.len() ==> (#[trigger] rows@[k])@.len() == 3,
            cells_of(rows@) == want.take(i + 1),
        decreases n - i,
    {
        let x = &summaries[i];
        let mut row: Vec<String> = Vec::new();
        if x.active {
            row.push(x.name.clone().concat(" *"));
        } else {
            row.push(x.name.clone());
        }
        row.push(format_usize(x.entry_count));
        row.push(x.path.clone());
        assert(row@.map_values(|s: String| s@) =~= summary_cells(*x));
        let ghost before = rows@;
        rows.push(row);
        assert(rows@ =~= before.push(row));
        assert(cells_of(rows@) =~= want.take(i + 2));
        i = i + 1;
    }
    assert(want.take(n + 1) =~= want);
    let mut right: Vec<bool> = Vec::new();
    right.push(false);
    right.push(true);
    right.push(false);
    assert(right@ =~= seq![false, true, false]);
    render_table(&rows, &right)
}

/// The git state of an entry that `pow show` reports.
#[derive(Debug)]
pub struct EntryStatus {
    pub branch: String,
    pub modified: usize,
    pub ahead: Option<usize>,
    pub behind: Option<usize>,
}

/// The first line of `pow show`: `Workspace 'name' at path (n entries)`.
pub open spec fn show_heading_text(name: Seq<char>, path: Seq<char>, n: usize) -> Seq<char> {
    "Workspace '"@ + name + "' at "@ + path + " ("@ + decimal(n as nat) + " "@ + (if n == 1 {
        "entry"@
    } else {
        "entries"@
    }) + ")"@
}

/// The line of an entry in `pow show --no-status`: its name padded to 20
/// characters, then its source (`—` when it belongs to none).
pub open spec fn plain_entry_text(e: Entry) -> Seq<char> {
    padded(e.name@, 20, false) + "  "@ + match e.source_name {
        Some(src) => src@,
        None => "—"@,
    }
}

/// The line of the entry at `i` in `pow show`: with its git state, the
/// line of `pow status --short`; without, its name and source.
pub open spec fn show_entry_text(e: Entry, statuses: Option<Vec<EntryStatus>>, i: int) -> Seq<char> {
    match statuses {
        Some(st) => short_status_text(e.name@, st@[i].branch@, st@[i].modified, st@[i].ahead, st@[i].behind),
        None => plain_entry_text(e),
    }
}

/// What `pow show` prints of a workspace: a heading, then one line per
/// entry, with the entries' git state when it was gathered (`statuses[i]`
/// belongs to `ws.entries[i]`).
pub fn show_lines(ws: &Workspace, statuses: &Option<Vec<EntryStatus>>) -> (r: Vec<String>)
    requires
        statuses matches Some(st) ==> st@.len() == ws.entries@.len(),
    ensures
        r@.len() == ws.entries@.len() + 1,
        r@[0]@ == show_heading_text(ws.name@, ws.path@, ws.entries@.len() as usize),
        forall|i: int| 0 <= i < ws.entries@.len() ==> (#[trigger] r@[i + 1])@ == show_entry_text(
            ws.entries@[i],
            *statuses,
            i,
        ),
{
    let n = ws.entries.len();
    let count = format_usize(n);
    let noun = if n == 1 {
        "entry"
    } else {
        "entries"
    };
    let heading = String::from_str("Workspace '").concat(ws.name.as_str()).concat("' at ").concat(
        ws.path.as_str(),
    ).concat(" (").concat(count.as_str()).concat(" ").concat(noun).concat(")");
    proof {
        reveal_strlit("entry");
        reveal_strlit("entries");
    }
    let mut out: Vec<String> = Vec::new();
    out.push(heading);
    let mut i: usize = 0;
    while i < n
        invariant
            n == ws.entries@.len(),
            statuses matches Some(st) ==> st@.len() == n,
            i <= n,
            out@.len() == i + 1,
            out@[0]@ == show_heading_text(ws.name@, ws.path@, n),
            forall|k: int| 0 <= k < i ==> (#[trigger] out@[k + 1])@ == show_entry_text(ws.entries@[k], *statuses, k),
        decreases n - i,
    {
        let e = &ws.entries[i];
        let line = match statuses {
            Some(st) => short_status_line(
                e.name.as_str(),
                st[i].branch.as_str(),
                st[i].modified,
                st[i].ahead,
                st[i].behind,
            ),
            None => {
                let mut line = String::new();
                append_padded(&mut line, e.name.as_str(), 20, false);
                line.append("  ");
                match &e.source_name {
                    Some(src) => line.append(src.as_str()),
                    None => line.append("—"),
                }
                proof {
                    reveal_strlit("—");
                }
                assert(line@ =~= plain_entry_text(*e));
                line
            },
        };
        let ghost before = out@;
        out.push(line);
        assert(out@ == before.push(line));
        i = i + 1;
    }
    out
}

} // verus!
