use vstd::prelude::*;

use crate::paths::{join_path, path_join};
use crate::text::has_prefix;

verus! {

/// Setup that a repo declares in its `.pow.toml`.
#[derive(Debug)]
pub struct RepoSetup {
    pub commands: Vec<String>,
    pub copy: Vec<String>,
}

/// The setup to run for a parsed `.pow.toml`: `None` when it declares no
/// commands and no files to copy.
pub fn setup_from_parsed(commands: Vec<String>, copy: Vec<String>) -> (r: Option<RepoSetup>)
    ensures
        (commands@.len() == 0 && copy@.len() == 0) ==> r is None,
        !(commands@.len() == 0 && copy@.len() == 0) ==> (r matches Some(s) && s.commands == commands
            && s.copy == copy),
{
    if commands.len() == 0 && copy.len() == 0 {
        None
    } else {
        Some(RepoSetup { commands, copy })
    }
}

/// Whether `p` has a `..` component: a `..` that begins the path or follows
/// a `/`, and ends it or is followed by a `/`.
pub open spec fn has_parent_component(p: Seq<char>) -> bool {
    exists|i: int| parent_component_at(p, i)
}

/// Whether a `..` component starts at position `i` of `p`.
pub open spec fn parent_component_at(p: Seq<char>, i: int) -> bool {
    0 <= i && i + 2 <= p.len() && (i == 0 || p[i - 1] == '/') && p[i] == '.' && p[i + 1] == '.'
        && (i + 2 == p.len() || p[i + 2] == '/')
}

/// A path that may be copied: relative (not starting at the root) and
/// without a `..` component, so it cannot leave the directory it is joined
/// to.
pub open spec fn safe_relative(p: Seq<char>) -> bool {
    &&& !(p.len() > 0 && p[0] == '/')
    &&& !has_parent_component(p)
}

/// Whether `p` is relative and has no `..` component.
pub fn is_safe_relative(p: &str) -> (r: bool)
    ensures
        r == safe_relative(p@),
{
    let n = p.unicode_len();
    if n > 0 && p.get_char(0) == '/' {
        return false;
    }
    let mut i: usize = 0;
    while i < n
        invariant
            n == p@.len(),
            i <= n,
            forall|k: int| 0 <= k < i ==> !parent_component_at(p@, k),
        decreases n - i,
    {
        if i + 1 < n && (i == 0 || p.get_char(i - 1) == '/') && p.get_char(i) == '.' && p.get_char(i + 1) == '.'
            && (i + 2 == n || p.get_char(i + 2) == '/') {
            assert(parent_component_at(p@, i as int));
            return false;
        }
        i = i + 1;
    }
    assert forall|k: int| !parent_component_at(p@, k) by {
        if 0 <= k < n {
        }
    }
    true
}

/// A file that setup copies lands inside the directory it is copied into:
/// the destination is that directory, a separator where one is needed, and
/// then the relative path, which has no `..` component to climb out.
pub proof fn law_copy_stays_inside(dir: Seq<char>, f: Seq<char>)
    requires
        safe_relative(f),
    ensures
        has_prefix(path_join(dir, f), dir),
        path_join(dir, f) == dir + f || path_join(dir, f) == dir + seq!['/'] + f,
        !has_parent_component(f),
{
    assert(path_join(dir, f).subrange(0, dir.len() as int) =~= dir);
}

/// One step of copying setup files from a source clone into a worktree.
#[derive(Debug)]
pub enum CopyStep {
    /// The path is not a safe relative path and is skipped.
    Unsafe { rel: String },
    /// Copy `from` to `to`.
    Copy { rel: String, from: String, to: String },
}

/// The steps for copying `files` from `source_clone` into `worktree_dir`:
/// one per file, in order; an unsafe path is skipped, any other is copied
/// from and to the same relative place.
pub fn copy_plan(source_clone: &str, worktree_dir: &str, files: &Vec<String>) -> (r: Vec<CopyStep>)
    ensures
        r@.len() == files@.len(),
        forall|i: int| 0 <= i < files@.len() ==> {
            let f = #[trigger] files@[i]@;
            if safe_relative(f) {
                r@[i] matches CopyStep::Copy { rel, from, to } && rel@ == f && from@ == path_join(source_clone@, f)
                    && to@ == path_join(worktree_dir@, f)
            } else {
                r@[i] matches CopyStep::Unsafe { rel } && rel@ == f
            }
        },
{
    let mut out: Vec<CopyStep> = Vec::new();
    let n = files.len();
    let mut i: usize = 0;
    while i < n
        invariant
            n == files@.len(),
            i <= n,
            out@.len() == i,
            forall|j: int| 0 <= j < i ==> {
                let f = #[trigger] files@[j]@;
                if safe_relative(f) {
                    out@[j] matches CopyStep::Copy { rel, from, to } && rel@ == f && from@ == path_join(source_clone@, f)
                        && to@ == path_join(worktree_dir@, f)
                } else {
                    out@[j] matches CopyStep::Unsafe { rel } && rel@ == f
                }
            },
        decreases n - i,
    {
        let rel = files[i].as_str();
        if is_safe_relative(rel) {
            let from = join_path(source_clone, rel);
            let to = join_path(worktree_dir, rel);
            out.push(CopyStep::Copy { rel: String::from_str(rel), from, to });
        } else {
            out.push(CopyStep::Unsafe { rel: String::from_str(rel) });
        }
        i = i + 1;
    }
    out
}

} // verus!
