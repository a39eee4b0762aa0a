use vstd::prelude::*;

use crate::config::{Config, Template, TemplateView};
use crate::error::PowError;
use crate::table::{cells_of, render_table, rendered};
use crate::text::{decimal, format_usize, join_strings, joined, str_eq};

verus! {

pub open spec fn no_templates_message() -> Seq<char> {
    "no templates configured. Add a [[templates]] block to your config (see `pow config`)."@
}

/// The cells of a template's row: its name, how many repos it has, and
/// the repos joined by `, `.
pub open spec fn template_cells(t: TemplateView) -> Seq<Seq<char>> {
    seq![t.name, decimal(t.repos.len()), joined(t.repos, ", "@)]
}

pub open spec fn template_header() -> Seq<Seq<char>> {
    seq!["NAME"@, "REPOS"@, "ENTRIES"@]
}

/// What `pow template list` prints: a notice when there are no templates,
/// else a table of them under a header, the count column aligned right.
pub fn template_list_lines(templates: &Vec<Template>) -> (r: Vec<String>)
    ensures
        templates@.len() == 0 ==> r@.map_values(|s: String| s@) == seq![no_templates_message()],
        templates@.len() > 0 ==> r@.map_values(|s: String| s@) == rendered(
            seq![template_header()] + templates@.map_values(|t: Template| template_cells(t@)),
            seq![false, true, false],
        ),
{
    if templates.len() == 0 {
        let mut r: Vec<String> = Vec::new();
        r.push(
            String::from_str("no templates configured. Add a [[templates]] block to your config (see `pow config`)."),
        );
        assert(r@.map_values(|s: String| s@) =~= seq![no_templates_message()]);
        return r;
    }
    let mut rows: Vec<Vec<String>> = Vec::new();
    let mut header: Vec<String> = Vec::new();
    header.push(String::from_str("NAME"));
    header.push(String::from_str("REPOS"));
    header.push(String::from_str("ENTRIES"));
    assert(header@.map_values(|s: String| s@) =~= template_header());
    rows.push(header);
    let ghost want = seq![template_header()] + templates@.map_values(|t: Template| template_cells(t@));
    let n = templates.len();
    let mut i: usize = 0;
    while i < n
        invariant
            n == templates@.len(),
            want == seq![template_header()] + templates@.map_values(|t: Template| template_cells(t@)),
            i <= n,
            rows@.len() == i + 1,
            forall|k: int| 0 <= k < rows@.len() ==> (#[trigger] rows@[k])@.len() == 3,
            cells_of(rows@) == want.take(i + 1),
        decreases n - i,
    {
        let t = &templates[i];
        assert(t@.repos =~= t.repos@.map_values(|s: String| s@));
        let mut row: Vec<String> = Vec::new();
        row.push(t.name.clone());
        row.push(format_usize(t.repos.len()));
        row.push(join_strings(&t.repos, ", "));
        assert(row@.map_values(|s: String| s@) =~= template_cells(t@));
        let ghost before = rows@;
        rows.push(row);
        assert(rows@ =~= before.push(row));
        assert(cells_of(rows@) =~= want.take(i + 2));
        i = i + 1;
    }
    assert(want.take(n + 1) =~= want);
    let mut right: Vec<bool> = Vec::new();
    right.push(false);
    right.push(true);
    right.push(false);
    assert(right@ =~= seq![false, true, false]);
    render_table(&rows, &right)
}

/// Position of the first template called `name`.
pub fn find_template(cfg: &Config, name: &str) -> (r: Option<usize>)
    ensures
        match r {
            Some(i) => i < cfg.templates@.len() && cfg.templates@[i as int].name@ == name@
                && forall|j: int| 0 <= j < i ==> (#[trigger] cfg.templates@[j]).name@ != name@,
            None => forall|j: int| 0 <= j < cfg.templates@.len() ==> (#[trigger] cfg.templates@[j]).name@ != name@,
        },
{
    let n = cfg.templates.len();
    let mut i: usize = 0;
    while i < n
        invariant
            n == cfg.templates@.len(),
            i <= n,
            forall|j: int| 0 <= j < i ==> (#[trigger] cfg.templates@[j]).name@ != name@,
        decreases n - i,
    {
        if str_eq(cfg.templates[i].name.as_str(), name) {
            return Some(i);
        }
        i = i + 1;
    }
    None
}

pub open spec fn template_not_found_message(name: Seq<char>) -> Seq<char> {
    "template '"@ + name + "' not found"@
}

/// The error for a template that the configuration does not define.
pub fn template_not_found(name: &str) -> (e: PowError)
    ensures
        e matches PowError::Config(m) && m@ == template_not_found_message(name@),
{
    PowError::Config(String::from_str("template '").concat(name).concat("' not found"))
}

pub open spec fn template_failed_message(failed: Seq<Seq<char>>) -> Seq<char> {
    "Failed: "@ + joined(failed, ", "@)
}

/// The outcome of filling a workspace from a template: an error listing
/// every repo that could not be added, or success when all were.
pub fn template_outcome(failed: &Vec<String>) -> (r: Result<(), PowError>)
    ensures
        failed@.len() == 0 ==> r is Ok,
        failed@.len() > 0 ==> (r matches Err(PowError::Message(m)) && m@ == template_failed_message(
            failed@.map_values(|s: String| s@),
        )),
{
    if failed.len() == 0 {
        Ok(())
    } else {
        Err(PowError::Message(String::from_str("Failed: ").concat(join_strings(failed, ", ").as_str())))
    }
}

} // verus!
