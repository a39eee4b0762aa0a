use vstd::prelude::*;

use crate::error::PowError;
use crate::text::has_prefix;

verus! {

// ---------------------------------------------------------------------------
// Joining and splitting paths
// ---------------------------------------------------------------------------

/// `Path::join` on Unix: an absolute `rel` replaces `base`; otherwise a
/// separator is put between them unless `base` is empty or already ends in
/// one.
pub open spec fn path_join(base: Seq<char>, rel: Seq<char>) -> Seq<char> {
    if rel.len() > 0 && rel[0] == '/' {
        rel
    } else if base.len() > 0 && base.last() != '/' {
        base + seq!['/'] + rel
    } else {
        base + rel
    }
}

/// Joins `rel` onto `base` as `Path::join` does.
pub fn join_path(base: &str, rel: &str) -> (r: String)
    ensures
        r@ == path_join(base@, rel@),
{
    let bn = base.unicode_len();
    let rn = rel.unicode_len();
    if rn > 0 && rel.get_char(0) == '/' {
        return String::from_str(rel);
    }
    if bn > 0 && base.get_char(bn - 1) != '/' {
        proof {
            reveal_strlit("/");
        }
        let r = String::from_str(base).concat("/").concat(rel);
        assert(r@ =~= base@ + seq!['/'] + rel@);
        r
    } else {
        String::from_str(base).concat(rel)
    }
}

/// What `Path::parent` gives for a path.
pub uninterp spec fn parent_of(p: Seq<char>) -> Option<Seq<char>>;

/// `Path::parent`: the path without its last component, or `None` for a
/// path that ends in a root or prefix or is empty.
#[verifier::external_body]
pub(crate) fn path_parent(p: &str) -> (r: Option<String>)
    ensures
        r.deep_view() == parent_of(p@),
{
    std::path::Path::new(p).parent().map(|q| q.to_string_lossy().into_owned())
}

/// Whether two paths are equal as `std::path::Path` compares them.
pub uninterp spec fn same_path(a: Seq<char>, b: Seq<char>) -> bool;

/// `Path::eq`: compares two paths component by component, so that the same
/// text is always the same path.
#[verifier::external_body]
pub(crate) fn paths_equal(a: &str, b: &str) -> (r: bool)
    ensures
        r == same_path(a@, b@),
        a@ == b@ ==> r,
{
    std::path::Path::new(a) == std::path::Path::new(b)
}

// ---------------------------------------------------------------------------
// Expansion of `~` and `$VAR`
// ---------------------------------------------------------------------------

/// `shellexpand::full`. It reads the environment and the home directory, so
/// no clause fixes its result in general; its source shows that a string
/// without `$` is never refused, and that one with neither `$` nor a leading
/// `~` comes back unchanged. The error is handed on as its display text.
#[verifier::external_body]
fn shell_expand(raw: &str) -> (r: Result<String, String>)
    ensures
        r is Err ==> raw@.contains('$'),
        r matches Ok(s) ==> (!raw@.contains('$') && !(raw@.len() > 0 && raw@[0] == '~') ==> s@ == raw@),
{
    match shellexpand::full(raw) {
        Ok(s) => Ok(s.into_owned()),
        Err(e) => Err(e.to_string()),
    }
}

pub open spec fn expand_failure_prefix(raw: Seq<char>) -> Seq<char> {
    "failed to expand path '"@ + raw + "': "@
}

/// Turns the outcome of expanding `raw` into the library's result.
pub fn expansion_result(raw: &str, outcome: Result<String, String>) -> (r: Result<String, PowError>)
    ensures
        match outcome {
            Ok(s) => r matches Ok(t) && t@ == s@,
            Err(e) => r matches Err(PowError::Config(m)) && m@ == expand_failure_prefix(raw@) + e@,
        },
{
    match outcome {
        Ok(s) => Ok(s),
        Err(e) => {
            let m = String::from_str("failed to expand path '").concat(raw).concat("': ").concat(e.as_str());
            Err(PowError::Config(m))
        },
    }
}

/// What holds of every result of expanding `raw`, whatever the environment.
pub open spec fn expansion_outcome_ok(raw: Seq<char>, r: Result<String, PowError>) -> bool {
    &&& (!raw.contains('$') ==> r is Ok)
    &&& (!raw.contains('$') && !(raw.len() > 0 && raw[0] == '~') ==> (r matches Ok(s) && s@ == raw))
    &&& (r matches Err(e) ==> e matches PowError::Config(m) && has_prefix(m@, expand_failure_prefix(raw)))
}

/// Expands `~` and `$VAR` references in a path string.
pub fn expand_path(raw: &str) -> (r: Result<String, PowError>)
    ensures
        expansion_outcome_ok(raw@, r),
{
    let outcome = shell_expand(raw);
    let ghost out = outcome;
    let r = expansion_result(raw, outcome);
    proof {
        let gr = r;
        if let Err(PowError::Config(m)) = gr {
            if let Err(e) = out {
                assert(m@.subrange(0, expand_failure_prefix(raw@).len() as int) =~= expand_failure_prefix(raw@));
            }
        }
    }
    r
}

// ---------------------------------------------------------------------------
// Where configuration and workspaces live
// ---------------------------------------------------------------------------

pub open spec fn home_missing_message() -> Seq<char> {
    "HOME not set"@
}

/// The home directory, from the value of `$HOME`.
pub fn home_dir(home_env: Option<String>) -> (r: Result<String, PowError>)
    ensures
        match home_env {
            Some(h) => r matches Ok(p) && p@ == h@,
            None => r matches Err(PowError::Config(m)) && m@ == home_missing_message(),
        },
{
    match home_env {
        Some(h) => Ok(h),
        None => Err(PowError::Config(String::from_str("HOME not set"))),
    }
}

/// The directory of the configuration: the parent of `$POW_CONFIG` when it
/// has one, else `$XDG_CONFIG_HOME/pow` when that is set and not empty, else
/// `$HOME/.config/pow`.
pub open spec fn config_dir_spec(
    pow_config: Option<Seq<char>>,
    xdg: Option<Seq<char>>,
    home: Option<Seq<char>>,
) -> Option<Seq<char>> {
    if pow_config is Some && parent_of(pow_config->0) is Some {
        parent_of(pow_config->0)
    } else if xdg is Some && xdg->0.len() > 0 {
        Some(path_join(xdg->0, "pow"@))
    } else if home is Some {
        Some(path_join(path_join(home->0, ".config"@), "pow"@))
    } else {
        None
    }
}

/// Root configuration directory.
pub fn config_dir(pow_config: Option<String>, xdg: Option<String>, home: Option<String>) -> (r: Result<String, PowError>)
    ensures
        match config_dir_spec(pow_config.deep_view(), xdg.deep_view(), home.deep_view()) {
            Some(d) => r matches Ok(p) && p@ == d,
            None => r matches Err(PowError::Config(m)) && m@ == home_missing_message(),
        },
{
    if let Some(path) = &pow_config {
        if let Some(parent) = path_parent(path.as_str()) {
            return Ok(parent);
        }
    }
    if let Some(x) = &xdg {
        if x.as_str().unicode_len() > 0 {
            return Ok(join_path(x.as_str(), "pow"));
        }
    }
    let h = home_dir(home)?;
    let c = join_path(h.as_str(), ".config");
    Ok(join_path(c.as_str(), "pow"))
}

/// The configuration file: `$POW_CONFIG` when set, else `config.toml` in
/// the configuration directory.
pub fn config_path(pow_config: Option<String>, xdg: Option<String>, home: Option<String>) -> (r: Result<String, PowError>)
    ensures
        match pow_config {
            Some(p) => r matches Ok(q) && q@ == p@,
            None => match config_dir_spec(None, xdg.deep_view(), home.deep_view()) {
                Some(d) => r matches Ok(q) && q@ == path_join(d, "config.toml"@),
                None => r matches Err(PowError::Config(m)) && m@ == home_missing_message(),
            },
        },
{
    match pow_config {
        Some(p) => Ok(p),
        None => {
            let d = config_dir(None, xdg, home)?;
            Ok(join_path(d.as_str(), "config.toml"))
        },
    }
}

/// The root of all workspaces: `$POW_WORKSPACES_ROOT` when set and not
/// empty, else `$HOME/workspaces`.
pub fn workspaces_root(root_env: Option<String>, home: Option<String>) -> (r: Result<String, PowError>)
    ensures
        match root_env {
            Some(root) if root@.len() > 0 => r matches Ok(p) && p@ == root@,
            _ => match home {
                Some(h) => r matches Ok(p) && p@ == path_join(h@, "workspaces"@),
                None => r matches Err(PowError::Config(m)) && m@ == home_missing_message(),
            },
        },
{
    if let Some(root) = &root_env {
        if root.as_str().unicode_len() > 0 {
            return Ok(root.clone());
        }
    }
    let h = home_dir(home)?;
    Ok(join_path(h.as_str(), "workspaces"))
}

/// The directory of workspace `name` under `root`.
pub fn workspace_path(root: &str, name: &str) -> (r: String)
    ensures
        r@ == path_join(root@, name@),
{
    join_path(root, name)
}

} // verus!
