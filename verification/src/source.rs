use vstd::prelude::*;

use crate::config::Config;
use crate::error::PowError;
use crate::github::OrgRepo;
use crate::paths::{join_path, path_join};
use crate::table::{cells_of, render_table, rendered};
use crate::text::{absent_from, decimal, format_usize, has_text, join_strings, joined};

verus! {

/// What `pow source list` shows of one source.
#[derive(Debug)]
pub struct SourceRow {
    pub name: String,
    pub path: String,
    pub repo_count: usize,
    pub github_org: Option<String>,
    pub base_branch: String,
}

pub open spec fn no_sources_message() -> Seq<char> {
    "no sources configured. Use `pow source add <name> <path>`."@
}

/// The cells of a source's row; a source without an org shows `—`.
pub open spec fn source_cells(r: SourceRow) -> Seq<Seq<char>> {
    seq![
        r.name@,
        r.path@,
        decimal(r.repo_count as nat),
        match r.github_org {
            Some(o) => o@,
            None => "—"@,
        },
        r.base_branch@,
    ]
}

pub open spec fn source_header() -> Seq<Seq<char>> {
    seq!["NAME"@, "PATH"@, "REPOS"@, "GITHUB ORG"@, "BASE"@]
}

/// What `pow source list` prints: a notice when there are no sources, else
/// a table of them under a header, the count column aligned right.
pub fn source_list_lines(rows: Vec<SourceRow>) -> (r: Vec<String>)
    ensures
        rows@.len() == 0 ==> r@.map_values(|s: String| s@) == seq![no_sources_message()],
        rows@.len() > 0 ==> r@.map_values(|s: String| s@) == rendered(
            seq![source_header()] + rows@.map_values(|x: SourceRow| source_cells(x)),
            seq![false, false, true, false, false],
        ),
{
    if rows.len() == 0 {
        let mut r: Vec<String> = Vec::new();
        r.push(String::from_str("no sources configured. Use `pow source add <name> <path>`."));
        assert(r@.map_values(|s: String| s@) =~= seq![no_sources_message()]);
        return r;
    }
    let ghost want = seq![source_header()] + rows@.map_values(|x: SourceRow| source_cells(x));
    let mut table: Vec<Vec<String>> = Vec::new();
    let mut header: Vec<String> = Vec::new();
    header.push(String::from_str("NAME"));
    header.push(String::from_str("PATH"));
    header.push(String::from_str("REPOS"));
    header.push(String::from_str("GITHUB ORG"));
    header.push(String::from_str("BASE"));
    assert(header@.map_values(|s: String| s@) =~= source_header());
    table.push(header);
    let n = rows.len();
    let mut i: usize = 0;
    while i < n
        invariant
            n == rows@.len(),
            want == seq![source_header()] + rows@.map_values(|x: SourceRow| source_cells(x)),
            i <= n,
            table@.len() == i + 1,
            forall|k: int| 0 <= k < table@.len() ==> (#[trigger] table@[k])@.len() == 5,
            cells_of(table@) == want.take(i + 1),
        decreases n - i,
    {
        let x = &rows[i];
        let mut row: Vec<String> = Vec::new();
        row.push(x.name.clone());
        row.push(x.path.clone());
        row.push(format_usize(x.repo_count));
        row.push(
            match &x.github_org {
                Some(o) => o.clone(),
                None => String::from_str("—"),
            },
        );
        row.push(x.base_branch.clone());
        assert(row@.map_values(|s: String| s@) =~= source_cells(*x));
        let ghost before = table@;
        table.push(row);
        assert(table@ =~= before.push(row));
        assert(cells_of(table@) =~= want.take(i + 2));
        i = i + 1;
    }
    assert(want.take(n + 1) =~= want);
    let mut right: Vec<bool> = Vec::new();
    right.push(false);
    right.push(false);
    right.push(true);
    right.push(false);
    right.push(false);
    assert(right@ =~= seq![false, false, true, false, false]);
    render_table(&table, &right)
}

} // verus!

verus! {

/// What `pow source sync` does with the repos of an organization: the
/// positions of the wanted repos that are not cloned yet, and the positions
/// of the local repos that are no longer wanted.
#[derive(Debug)]
pub struct SyncPlan {
    pub to_clone: Vec<usize>,
    pub to_prune: Vec<usize>,
}

/// Whether one of `repos` is called `name`.
pub open spec fn has_repo_named(repos: Seq<&OrgRepo>, name: Seq<char>) -> bool {
    exists|j: int| 0 <= j < repos.len() && (#[trigger] repos[j]).name@ == name
}

/// One of the repos is named `name` exactly when a repo at some position,
/// the first or any other, has that name.
pub proof fn law_repo_named(repos: Seq<&OrgRepo>, name: Seq<char>)
    ensures
        forall|j: int| 0 <= j < repos.len() && (#[trigger] repos[j]).name@ == name ==> has_repo_named(repos, name),
        has_repo_named(repos, name) ==> exists|k: int| 0 <= k < repos.len() && (#[trigger] repos[k]).name@ == name,
        !has_repo_named(repos, name) ==> forall|k: int| 0 <= k < repos.len() ==> (#[trigger] repos[k]).name@ != name,
{
}

fn repo_names(repos: &Vec<&OrgRepo>) -> (r: Vec<String>)
    ensures
        r@.len() == repos@.len(),
        forall|i: int| 0 <= i < r@.len() ==> (#[trigger] r@[i])@ == repos@[i].name@,
{
    let mut out: Vec<String> = Vec::new();
    let n = repos.len();
    let mut i: usize = 0;
    while i < n
        invariant
            n == repos@.len(),
            i <= n,
            out@.len() == i,
            forall|k: int| 0 <= k < i ==> (#[trigger] out@[k])@ == repos@[k].name@,
        decreases n - i,
    {
        out.push(repos[i].name.clone());
        i = i + 1;
    }
    out
}

/// Splits the work of `pow source sync`: the wanted repos that have no
/// local clone are cloned; the local clones whose name no wanted repo has
/// are candidates for pruning. Both lists keep the order of their input.
pub fn sync_plan(wanted: &Vec<&OrgRepo>, local: &Vec<String>) -> (p: SyncPlan)
    ensures
        forall|k: int| 0 <= k < p.to_clone@.len() ==> p.to_clone@[k] < wanted@.len(),
        forall|i: int| 0 <= i < wanted@.len() ==> (p.to_clone@.contains(i as usize) <==> !has_text(
            local@,
            (#[trigger] wanted@[i]).name@,
        )),
        forall|a: int, b: int| 0 <= a < b < p.to_clone@.len() ==> p.to_clone@[a] < p.to_clone@[b],
        forall|k: int| 0 <= k < p.to_prune@.len() ==> p.to_prune@[k] < local@.len(),
        forall|i: int| 0 <= i < local@.len() ==> (p.to_prune@.contains(i as usize) <==> !has_repo_named(
            wanted@,
            (#[trigger] local@[i])@,
        )),
        forall|a: int, b: int| 0 <= a < b < p.to_prune@.len() ==> p.to_prune@[a] < p.to_prune@[b],
        forall|i: int, j: int|
            #![trigger local@[i], wanted@[j]]
            0 <= i < local@.len() && 0 <= j < wanted@.len() && local@[i]@ == wanted@[j].name@
                ==> !p.to_prune@.contains(i as usize),
        forall|i: int|
            0 <= i < local@.len() ==> p.to_prune@.contains(i as usize) || has_repo_named(wanted@, (#[trigger] local@[i])@),
        forall|i: int, j: int|
            #![trigger wanted@[i], local@[j]]
            0 <= i < wanted@.len() && 0 <= j < local@.len() && wanted@[i].name@ == local@[j]@
                ==> !p.to_clone@.contains(i as usize),
        forall|i: int|
            #![trigger wanted@[i]]
            0 <= i < wanted@.len() && !p.to_clone@.contains(i as usize) ==> exists|j: int|
                #![trigger local@[j]]
                0 <= j < local@.len() && wanted@[i].name@ == local@[j]@,
{
    let names = repo_names(wanted);
    let to_clone = absent_from(&names, local);
    let to_prune = absent_from(local, &names);
    proof {
        assert forall|i: int| 0 <= i < wanted@.len() implies (to_clone@.contains(i as usize) <==> !has_text(
            local@,
            (#[trigger] wanted@[i]).name@,
        )) by {
            assert(names@[i]@ == wanted@[i].name@);
        }
        assert forall|i: int| 0 <= i < local@.len() implies (to_prune@.contains(i as usize) <==> !has_repo_named(
            wanted@,
            (#[trigger] local@[i])@,
        )) by {
            if has_text(names@, local@[i]@) {
                let j = choose|j: int| 0 <= j < names@.len() && (#[trigger] names@[j])@ == local@[i]@;
                assert(wanted@[j].name@ == local@[i]@);
            }
            if has_repo_named(wanted@, local@[i]@) {
                let j = choose|j: int| 0 <= j < wanted@.len() && (#[trigger] wanted@[j]).name@ == local@[i]@;
                assert(names@[j]@ == local@[i]@);
            }
        }
        assert forall|i: int, j: int|
            #![trigger local@[i], wanted@[j]]
            0 <= i < local@.len() && 0 <= j < wanted@.len() && local@[i]@ == wanted@[j].name@
                implies !to_prune@.contains(i as usize) by {
            assert(has_repo_named(wanted@, local@[i]@));
        }
        assert forall|i: int, j: int|
            #![trigger wanted@[i], local@[j]]
            0 <= i < wanted@.len() && 0 <= j < local@.len() && wanted@[i].name@ == local@[j]@
                implies !to_clone@.contains(i as usize) by {
            assert(local@[j]@ == wanted@[i].name@);
            assert(has_text(local@, wanted@[i].name@));
        }
        assert forall|i: int|
            #![trigger wanted@[i]]
            0 <= i < wanted@.len() && !to_clone@.contains(i as usize) implies exists|j: int|
                #![trigger local@[j]]
                0 <= j < local@.len() && wanted@[i].name@ == local@[j]@ by {
            assert(has_text(local@, wanted@[i].name@));
            let j = choose|j: int| 0 <= j < local@.len() && (#[trigger] local@[j])@ == wanted@[i].name@;
            assert(wanted@[i].name@ == local@[j]@);
        }
    }
    SyncPlan { to_clone, to_prune }
}

/// What `pow source sync --dry-run` prints: the repos that would be cloned
/// and, when pruning, the local repos that would be removed.
pub open spec fn dry_run_text(clone: Seq<Seq<char>>, prune: Seq<Seq<char>>, pruning: bool) -> Seq<Seq<char>> {
    seq!["Would clone:"@] + clone.map_values(|n: Seq<char>| "  + "@ + n) + if pruning {
        seq!["Would remove:"@] + prune.map_values(|n: Seq<char>| "  - "@ + n)
    } else {
        Seq::empty()
    }
}

fn marked_lines(out: &mut Vec<String>, names: &Vec<String>, mark: &str)
    ensures
        final(out)@.map_values(|s: String| s@) == old(out)@.map_values(|s: String| s@) + names@.map_values(
            |s: String| s@,
        ).map_values(|n: Seq<char>| mark@ + n),
{
    let ghost start = out@.map_values(|s: String| s@);
    let ghost want = names@.map_values(|s: String| s@).map_values(|n: Seq<char>| mark@ + n);
    let n = names.len();
    let mut i: usize = 0;
    while i < n
        invariant
            n == names@.len(),
            want == names@.map_values(|s: String| s@).map_values(|n: Seq<char>| mark@ + n),
            i <= n,
            out@.map_values(|s: String| s@) == start + want.take(i as int),
        decreases n - i,
    {
        let line = String::from_str(mark).concat(names[i].as_str());
        let ghost before = out@.map_values(|s: String| s@);
        out.push(line);
        assert(out@.map_values(|s: String| s@) =~= before.push(line@));
        assert(want.take(i + 1) =~= want.take(i as int).push(line@));
        i = i + 1;
    }
    assert(want.take(n as int) =~= want);
}

/// The lines of `pow source sync --dry-run`.
pub fn dry_run_lines(clone: &Vec<String>, prune: &Vec<String>, pruning: bool) -> (r: Vec<String>)
    ensures
        r@.map_values(|s: String| s@) == dry_run_text(
            clone@.map_values(|s: String| s@),
            prune@.map_values(|s: String| s@),
            pruning,
        ),
{
    let mut out: Vec<String> = Vec::new();
    out.push(String::from_str("Would clone:"));
    assert(out@.map_values(|s: String| s@) =~= seq!["Would clone:"@]);
    marked_lines(&mut out, clone, "  + ");
    if pruning {
        let ghost mid = out@.map_values(|s: String| s@);
        out.push(String::from_str("Would remove:"));
        assert(out@.map_values(|s: String| s@) =~= mid + seq!["Would remove:"@]);
        marked_lines(&mut out, prune, "  - ");
        proof {
            reveal_strlit("  + ");
            reveal_strlit("  - ");
        }
        assert(out@.map_values(|s: String| s@) =~= dry_run_text(
            clone@.map_values(|s: String| s@),
            prune@.map_values(|s: String| s@),
            pruning,
        ));
    } else {
        proof {
            reveal_strlit("  + ");
        }
        assert(out@.map_values(|s: String| s@) =~= dry_run_text(
            clone@.map_values(|s: String| s@),
            prune@.map_values(|s: String| s@),
            pruning,
        ));
    }
    out
}

pub open spec fn no_org_message(name: Seq<char>) -> Seq<char> {
    "source '"@ + name + "' has no github_org; nothing to sync from."@
}

/// The source that `pow source sync <name>` syncs, and its organization:
/// an error when no source has that name, or when it has no organization.
pub fn sync_source(cfg: &Config, name: &str) -> (r: Result<(usize, String), PowError>)
    ensures
        match crate::config::source_index(cfg@.sources, name@) {
            None => r matches Err(PowError::SourceNotFound(m)) && m@ == name@,
            Some(i) => match cfg@.sources[i].github_org {
                None => r matches Err(PowError::Message(m)) && m@ == no_org_message(name@),
                Some(org) => r matches Ok((k, o)) && k == i && o@ == org,
            },
        },
{
    proof {
        crate::config::lemma_source_index(cfg@.sources, name@);
    }
    match cfg.source_position(name) {
        None => Err(PowError::SourceNotFound(String::from_str(name))),
        Some(i) => match &cfg.sources[i].github_org {
            None => Err(
                PowError::Message(
                    String::from_str("source '").concat(name).concat("' has no github_org; nothing to sync from."),
                ),
            ),
            Some(org) => Ok((i, org.clone())),
        },
    }
}

/// How many jobs run at once: the number asked for, else the configured
/// one, and at least one.
pub fn effective_parallel(requested: Option<usize>, configured: usize) -> (r: usize)
    ensures
        r == ({
            let p = match requested {
                Some(n) => n,
                None => configured,
            };
            if p == 0 { 1 } else { p }
        }),
{
    let p = match requested {
        Some(n) => n,
        None => configured,
    };
    if p == 0 { 1 } else { p }
}

/// Whether `pow source add --github-org` asks the user to pick repos: only
/// when neither `--all` nor a filter was given.
pub fn uses_picker(all: bool, includes: &Vec<String>, excludes: &Vec<String>) -> (r: bool)
    ensures
        r == (!all && includes@.len() == 0 && excludes@.len() == 0),
{
    !all && includes.len() == 0 && excludes.len() == 0
}

pub open spec fn no_repos_message(org: Seq<char>) -> Seq<char> {
    "no repos visible in org '"@ + org + "'. Check GITHUB_TOKEN or org name."@
}

/// The error for an organization whose listing came back empty.
pub fn no_repos_error(org: &str) -> (e: PowError)
    ensures
        e matches PowError::Message(m) && m@ == no_repos_message(org@),
{
    PowError::Message(String::from_str("no repos visible in org '").concat(org).concat("'. Check GITHUB_TOKEN or org name."))
}

pub open spec fn missing_path_message(p: Seq<char>) -> Seq<char> {
    "path does not exist: "@ + p + ". Create it first (e.g. `mkdir -p "@ + p + "`)."@
}

/// The error for registering a source at a path that does not exist.
pub fn missing_path_error(p: &str) -> (e: PowError)
    ensures
        e matches PowError::Config(m) && m@ == missing_path_message(p@),
{
    PowError::Config(
        String::from_str("path does not exist: ").concat(p).concat(". Create it first (e.g. `mkdir -p ").concat(p).concat(
            "`).",
        ),
    )
}

/// Whether the picker offers a repo: archived ones are hidden when they are
/// skipped.
pub open spec fn offered(r: OrgRepo, skip_archived: bool) -> bool {
    !(skip_archived && r.archived)
}

/// The positions of the repos that the picker offers, in order.
pub fn picker_choices(repos: &Vec<OrgRepo>, skip_archived: bool) -> (r: Vec<usize>)
    ensures
        forall|k: int| 0 <= k < r@.len() ==> r@[k] < repos@.len(),
        forall|i: int| 0 <= i < repos@.len() ==> (r@.contains(i as usize) <==> offered(
            #[trigger] repos@[i],
            skip_archived,
        )),
        forall|a: int, b: int| 0 <= a < b < r@.len() ==> r@[a] < r@[b],
{
    let mut out: Vec<usize> = Vec::new();
    let n = repos.len();
    let mut i: usize = 0;
    while i < n
        invariant
            n == repos@.len(),
            i <= n,
            forall|k: int| 0 <= k < out@.len() ==> out@[k] < i,
            forall|a: int, b: int| 0 <= a < b < out@.len() ==> out@[a] < out@[b],
            forall|x: int| 0 <= x < i ==> (out@.contains(x as usize) <==> offered(#[trigger] repos@[x], skip_archived)),
        decreases n - i,
    {
        let ghost before = out@;
        if !(skip_archived && repos[i].archived) {
            out.push(i);
            assert(out@ == before.push(i));
            assert forall|x: int| 0 <= x < i implies (#[trigger] out@.contains(x as usize) <==> before.contains(
                x as usize,
            )) by {
                if out@.contains(x as usize) {
                    let k = choose|k: int| 0 <= k < out@.len() && out@[k] == x as usize;
                    if k < before.len() {
                        assert(before[k] == x as usize);
                    }
                }
                if before.contains(x as usize) {
                    let k = choose|k: int| 0 <= k < before.len() && before[k] == x as usize;
                    assert(out@[k] == x as usize);
                }
            }
            assert(out@[before.len() as int] == i);
        } else {
            assert(!out@.contains(i));
        }
        i = i + 1;
    }
    out
}

/// How the picker shows a repo: its name, marked when archived.
pub open spec fn picker_label_text(r: OrgRepo) -> Seq<char> {
    if r.archived {
        r.name@ + " (archived)"@
    } else {
        r.name@
    }
}

pub fn picker_label(r: &OrgRepo) -> (s: String)
    ensures
        s@ == picker_label_text(*r),
{
    if r.archived {
        r.name.clone().concat(" (archived)")
    } else {
        r.name.clone()
    }
}

/// A clone to run: the repo's name, its SSH URL, and the directory to clone
/// into.
#[derive(Debug)]
pub struct CloneJob {
    pub name: String,
    pub url: String,
    pub target: String,
}

/// The clones for `repos` into `dest_dir`, one per repo, in order.
pub fn clone_jobs(repos: &Vec<&OrgRepo>, dest_dir: &str) -> (r: Vec<CloneJob>)
    ensures
        r@.len() == repos@.len(),
        forall|i: int| 0 <= i < r@.len() ==> {
            &&& (#[trigger] r@[i]).name@ == repos@[i].name@
            &&& r@[i].url@ == repos@[i].clone_url_ssh@
            &&& r@[i].target@ == path_join(dest_dir@, repos@[i].name@)
        },
{
    let mut out: Vec<CloneJob> = Vec::new();
    let n = repos.len();
    let mut i: usize = 0;
    while i < n
        invariant
            n == repos@.len(),
            i <= n,
            out@.len() == i,
            forall|k: int| 0 <= k < i ==> {
                &&& (#[trigger] out@[k]).name@ == repos@[k].name@
                &&& out@[k].url@ == repos@[k].clone_url_ssh@
                &&& out@[k].target@ == path_join(dest_dir@, repos@[k].name@)
            },
        decreases n - i,
    {
        let r = repos[i];
        out.push(
            CloneJob {
                name: r.name.clone(),
                url: r.clone_url_ssh.clone(),
                target: join_path(dest_dir, r.name.as_str()),
            },
        );
        i = i + 1;
    }
    out
}

pub open spec fn clones_failed_message(failures: Seq<Seq<char>>) -> Seq<char> {
    "one or more clones failed:\n  "@ + joined(failures, "\n  "@)
}

/// The outcome of cloning, from the `name: error` line of each failed
/// clone: success when there is none.
pub fn clone_outcome(failures: &Vec<String>) -> (r: Result<(), PowError>)
    ensures
        failures@.len() == 0 ==> r is Ok,
        failures@.len() > 0 ==> (r matches Err(PowError::Message(m)) && m@ == clones_failed_message(
            failures@.map_values(|s: String| s@),
        )),
{
    if failures.len() == 0 {
        Ok(())
    } else {
        Err(PowError::Message(String::from_str("one or more clones failed:\n  ").concat(join_strings(failures, "\n  ").as_str())))
    }
}

} // verus!
