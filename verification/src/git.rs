use vstd::prelude::*;

use crate::error::PowError;
use crate::lines::{lines_of, split_lines};
use crate::paths::{join_path, parent_of, path_join, path_parent};
use crate::text::{
    decimal_value, has_prefix, parse_usize, parses_as_usize, split_once_char, split_once_spec, str_skip, str_starts_with,
    trim, trimmed, unsigned_digits,
};

verus! {

/// One worktree of a repository, as `git worktree list --porcelain` reports
/// it.
#[derive(Debug)]
pub struct Worktree {
    pub path: String,
    pub branch: Option<String>,
    pub head: Option<String>,
}

pub struct WorktreeView {
    pub path: Seq<char>,
    pub branch: Option<Seq<char>>,
    pub head: Option<Seq<char>>,
}

impl View for Worktree {
    type V = WorktreeView;

    open spec fn view(&self) -> WorktreeView {
        WorktreeView { path: self.path@, branch: self.branch.deep_view(), head: self.head.deep_view() }
    }
}

/// The worktrees read so far, and the one whose lines are being read.
pub type ListState = (Seq<WorktreeView>, Option<WorktreeView>);

/// `branch refs/heads/foo` names branch `foo`; another ref is kept whole.
pub open spec fn branch_name(rest: Seq<char>) -> Seq<char> {
    if has_prefix(rest, "refs/heads/"@) {
        rest.skip("refs/heads/"@.len() as int)
    } else {
        rest
    }
}

/// What one porcelain line does: `worktree <path>` starts a new worktree,
/// `HEAD <sha>` and `branch <ref>` fill in the current one, and any other
/// line is ignored.
pub open spec fn apply_line(st: ListState, line: Seq<char>) -> ListState {
    let (done, cur) = st;
    if has_prefix(line, "worktree "@) {
        (
            match cur {
                Some(w) => done.push(w),
                None => done,
            },
            Some(WorktreeView { path: line.skip("worktree "@.len() as int), branch: None, head: None }),
        )
    } else if has_prefix(line, "HEAD "@) {
        (done, match cur {
            Some(w) => Some(WorktreeView { head: Some(line.skip("HEAD "@.len() as int)), ..w }),
            None => None,
        })
    } else if has_prefix(line, "branch "@) {
        (done, match cur {
            Some(w) => Some(WorktreeView { branch: Some(branch_name(line.skip("branch "@.len() as int))), ..w }),
            None => None,
        })
    } else {
        st
    }
}

pub open spec fn apply_lines(lines: Seq<Seq<char>>) -> ListState
    decreases lines.len(),
{
    if lines.len() == 0 {
        (Seq::empty(), None)
    } else {
        apply_line(apply_lines(lines.drop_last()), lines.last())
    }
}

/// The worktrees that a porcelain listing describes, in its order.
pub open spec fn worktrees_of(porcelain: Seq<char>) -> Seq<WorktreeView> {
    let (done, cur) = apply_lines(lines_of(porcelain));
    match cur {
        Some(w) => done.push(w),
        None => done,
    }
}

pub open spec fn current_view(cur: Option<Worktree>) -> Option<WorktreeView> {
    match cur {
        Some(w) => Some(w@),
        None => None,
    }
}

/// Parses the output of `git worktree list --porcelain`.
pub fn worktree_list(porcelain: &str) -> (r: Vec<Worktree>)
    ensures
        r@.map_values(|w: Worktree| w@) == worktrees_of(porcelain@),
{
    let lines = split_lines(porcelain);
    let ghost lv = lines@.map_values(|l: String| l@);
    let wt_len = "worktree ".unicode_len();
    let head_len = "HEAD ".unicode_len();
    let branch_len = "branch ".unicode_len();
    let heads_len = "refs/heads/".unicode_len();
    let mut done: Vec<Worktree> = Vec::new();
    let mut cur: Option<Worktree> = None;
    let n = lines.len();
    let mut i: usize = 0;
    assert(lv.take(0) =~= Seq::<Seq<char>>::empty());
    while i < n
        invariant
            n == lines@.len(),
            lv == lines@.map_values(|l: String| l@),
            lv == lines_of(porcelain@),
            wt_len == "worktree "@.len(),
            head_len == "HEAD "@.len(),
            branch_len == "branch "@.len(),
            heads_len == "refs/heads/"@.len(),
            i <= n,
            (done@.map_values(|w: Worktree| w@), current_view(cur)) == apply_lines(lv.take(i as int)),
        decreases n - i,
    {
        let line = lines[i].as_str();
        assert(lv.take(i + 1).drop_last() =~= lv.take(i as int));
        assert(lv.take(i + 1).last() == line@);
        let ghost before = done@.map_values(|w: Worktree| w@);
        if str_starts_with(line, "worktree ") {
            match cur {
                Some(prev) => {
                    done.push(prev);
                    assert(done@.map_values(|w: Worktree| w@) =~= before.push(prev@));
                },
                None => {},
            }
            cur = Some(Worktree { path: str_skip(line, wt_len), branch: None, head: None });
        } else if str_starts_with(line, "HEAD ") {
            match cur {
                Some(w) => {
                    cur = Some(Worktree { path: w.path, branch: w.branch, head: Some(str_skip(line, head_len)) });
                },
                None => {},
            }
        } else if str_starts_with(line, "branch ") {
            match cur {
                Some(w) => {
                    let rest = str_skip(line, branch_len);
                    let b = if str_starts_with(rest.as_str(), "refs/heads/") {
                        str_skip(rest.as_str(), heads_len)
                    } else {
                        rest
                    };
                    cur = Some(Worktree { path: w.path, branch: Some(b), head: w.head });
                },
                None => {},
            }
        }
        i = i + 1;
    }
    assert(lv.take(n as int) =~= lv);
    let ghost before = done@.map_values(|w: Worktree| w@);
    match cur {
        Some(w) => {
            done.push(w);
            assert(done@.map_values(|w: Worktree| w@) =~= before.push(w@));
        },
        None => {},
    }
    done
}

pub open spec fn unexpected_contents_message(git_file: Seq<char>) -> Seq<char> {
    git_file + ": unexpected .git file contents"@
}

pub open spec fn unexpected_gitdir_message(gitdir: Seq<char>) -> Seq<char> {
    "unexpected gitdir path: "@ + gitdir
}

/// The directory three levels above `p`, when there is one.
pub open spec fn third_parent(p: Seq<char>) -> Option<Seq<char>> {
    match parent_of(p) {
        None => None,
        Some(p1) => match parent_of(p1) {
            None => None,
            Some(p2) => parent_of(p2),
        },
    }
}

/// The source repository of a worktree, from the contents of the
/// worktree's `.git` file, which looks like
/// `gitdir: /path/to/source/.git/worktrees/<name>`: the directory three
/// levels above the one named there.
pub fn worktree_source_repo(worktree_dir: &str, contents: &str) -> (r: Result<String, PowError>)
    ensures
        ({
            let git_file = path_join(worktree_dir@, ".git"@);
            let line = trimmed(contents@);
            if !has_prefix(line, "gitdir:"@) {
                r matches Err(PowError::GitFailed(m)) && m@ == unexpected_contents_message(git_file)
            } else {
                let gitdir = trimmed(line.skip("gitdir:"@.len() as int));
                match third_parent(gitdir) {
                    Some(p) => r matches Ok(s) && s@ == p,
                    None => r matches Err(PowError::GitFailed(m)) && m@ == unexpected_gitdir_message(gitdir),
                }
            }
        }),
{
    let git_file = join_path(worktree_dir, ".git");
    let line = trim(contents);
    if !str_starts_with(line.as_str(), "gitdir:") {
        let m = git_file.concat(": unexpected .git file contents");
        return Err(PowError::GitFailed(m));
    }
    let k = "gitdir:".unicode_len();
    let after = str_skip(line.as_str(), k);
    let gitdir = trim(after.as_str());
    let p1 = match path_parent(gitdir.as_str()) {
        Some(p) => p,
        None => {
            return Err(PowError::GitFailed(String::from_str("unexpected gitdir path: ").concat(gitdir.as_str())));
        },
    };
    let p2 = match path_parent(p1.as_str()) {
        Some(p) => p,
        None => {
            return Err(PowError::GitFailed(String::from_str("unexpected gitdir path: ").concat(gitdir.as_str())));
        },
    };
    match path_parent(p2.as_str()) {
        Some(p) => Ok(p),
        None => Err(PowError::GitFailed(String::from_str("unexpected gitdir path: ").concat(gitdir.as_str()))),
    }
}

/// The branch a worktree is on, from the outcome of
/// `git symbolic-ref --quiet --short HEAD`: the empty string when that
/// failed (a detached HEAD).
pub fn current_branch(symbolic_ref: Result<String, PowError>) -> (r: String)
    ensures
        match symbolic_ref {
            Ok(s) => r@ == s@,
            Err(_) => r@ == Seq::<char>::empty(),
        },
{
    match symbolic_ref {
        Ok(s) => s,
        Err(_) => String::new(),
    }
}

/// The ref that `git show-ref --verify` checks for a local branch.
pub fn branch_ref(branch: &str) -> (r: String)
    ensures
        r@ == "refs/heads/"@ + branch@,
{
    String::from_str("refs/heads/").concat(branch)
}

/// The outcome of a git command that must succeed: its trimmed standard
/// error becomes the message of the failure.
pub fn git_status_result(success: bool, stderr_trimmed: String) -> (r: Result<(), PowError>)
    ensures
        success ==> r is Ok,
        !success ==> (r matches Err(PowError::GitFailed(m)) && m@ == stderr_trimmed@),
{
    if success {
        Ok(())
    } else {
        Err(PowError::GitFailed(stderr_trimmed))
    }
}

/// The arguments of `git worktree add -b <branch> <dest> [<base>]`.
pub fn worktree_add_args(dest: &str, branch: &str, base: Option<&str>) -> (r: Vec<String>)
    ensures
        r@.map_values(|a: String| a@) == (match base {
            Some(b) => seq!["worktree"@, "add"@, "-b"@, branch@, dest@, b@],
            None => seq!["worktree"@, "add"@, "-b"@, branch@, dest@],
        }),
{
    let mut r: Vec<String> = Vec::new();
    r.push(String::from_str("worktree"));
    r.push(String::from_str("add"));
    r.push(String::from_str("-b"));
    r.push(String::from_str(branch));
    r.push(String::from_str(dest));
    match base {
        Some(b) => {
            r.push(String::from_str(b));
            assert(r@.map_values(|a: String| a@) =~= seq!["worktree"@, "add"@, "-b"@, branch@, dest@, b@]);
        },
        None => {
            assert(r@.map_values(|a: String| a@) =~= seq!["worktree"@, "add"@, "-b"@, branch@, dest@]);
        },
    }
    r
}

/// The arguments of `git worktree remove [--force] <dest>`.
pub fn worktree_remove_args(dest: &str, force: bool) -> (r: Vec<String>)
    ensures
        r@.map_values(|a: String| a@) == (if force {
            seq!["worktree"@, "remove"@, "--force"@, dest@]
        } else {
            seq!["worktree"@, "remove"@, dest@]
        }),
{
    let mut r: Vec<String> = Vec::new();
    r.push(String::from_str("worktree"));
    r.push(String::from_str("remove"));
    if force {
        r.push(String::from_str("--force"));
    }
    r.push(String::from_str(dest));
    if force {
        assert(r@.map_values(|a: String| a@) =~= seq!["worktree"@, "remove"@, "--force"@, dest@]);
    } else {
        assert(r@.map_values(|a: String| a@) =~= seq!["worktree"@, "remove"@, dest@]);
    }
    r
}

/// The flag of `git branch` that deletes a branch: `-D` forces it.
pub fn branch_delete_flag(force: bool) -> (r: &'static str)
    ensures
        r@ == (if force { "-D"@ } else { "-d"@ }),
{
    if force {
        "-D"
    } else {
        "-d"
    }
}

/// The arguments of `git checkout [-b] <target>`: `-b` creates the branch.
pub fn checkout_args(target: &str, new: bool) -> (r: Vec<String>)
    ensures
        r@.map_values(|a: String| a@) == (if new {
            seq!["checkout"@, "-b"@, target@]
        } else {
            seq!["checkout"@, target@]
        }),
{
    let mut r: Vec<String> = Vec::new();
    r.push(String::from_str("checkout"));
    if new {
        r.push(String::from_str("-b"));
    }
    r.push(String::from_str(target));
    if new {
        assert(r@.map_values(|a: String| a@) =~= seq!["checkout"@, "-b"@, target@]);
    } else {
        assert(r@.map_values(|a: String| a@) =~= seq!["checkout"@, target@]);
    }
    r
}

/// How many paths `git status --porcelain` reports as changed: one per line.
pub fn modified_count(porcelain: &str) -> (r: usize)
    ensures
        r == lines_of(porcelain@).len(),
{
    let ls = split_lines(porcelain);
    assert(ls@.map_values(|l: String| l@).len() == ls@.len());
    ls.len()
}

/// The two counts of `git rev-list --left-right --count HEAD...@{upstream}`:
/// commits only on `HEAD` (ahead), then a tab, then commits only upstream
/// (behind).
pub open spec fn counts_of(text: Seq<char>) -> Option<(nat, nat)> {
    match split_once_spec(text, '\t') {
        Some((a, b)) => if parses_as_usize(a) && parses_as_usize(b) {
            Some((decimal_value(unsigned_digits(a)), decimal_value(unsigned_digits(b))))
        } else {
            None
        },
        None => None,
    }
}

/// Reads the ahead and behind counts; `None` when the text is not two
/// numbers separated by a tab.
pub fn ahead_behind_counts(text: &str) -> (r: Option<(usize, usize)>)
    ensures
        match counts_of(text@) {
            Some((a, b)) => r matches Some((x, y)) && x == a && y == b,
            None => r is None,
        },
{
    match split_once_char(text, '\t') {
        Some((a, b)) => match (parse_usize(a.as_str()), parse_usize(b.as_str())) {
            (Some(x), Some(y)) => Some((x, y)),
            _ => None,
        },
        None => None,
    }
}

} // verus!
