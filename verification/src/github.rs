use vstd::prelude::*;

verus! {

/// A repository of a GitHub organization, as the listing reports it.
#[derive(Debug)]
pub struct OrgRepo {
    pub name: String,
    pub clone_url_ssh: String,
    pub clone_url_https: Option<String>,
    pub archived: bool,
    pub default_branch: Option<String>,
}

/// The SSH clone URL that GitHub uses for `org/name`.
pub open spec fn default_ssh_url(org: Seq<char>, name: Seq<char>) -> Seq<char> {
    "git@github.com:"@ + org + "/"@ + name + ".git"@
}

/// One entry of an organization's repository listing, turned into an
/// `OrgRepo`; `None` when it is archived and archived repos are not wanted.
/// A repo whose archived flag is missing counts as not archived, and one
/// without an SSH URL gets the usual one.
pub fn org_repo_from_listing(
    org: &str,
    name: String,
    ssh_url: Option<String>,
    https_url: Option<String>,
    archived: Option<bool>,
    default_branch: Option<String>,
    include_archived: bool,
) -> (r: Option<OrgRepo>)
    ensures
        ({
            let is_archived = archived == Some(true);
            &&& (r is None <==> (!include_archived && is_archived))
            &&& (r matches Some(repo) ==> {
                &&& repo.name@ == name@
                &&& repo.archived == is_archived
                &&& repo.clone_url_ssh@ == match ssh_url.deep_view() {
                    Some(u) => u,
                    None => default_ssh_url(org@, name@),
                }
                &&& repo.clone_url_https.deep_view() == https_url.deep_view()
                &&& repo.default_branch.deep_view() == default_branch.deep_view()
            })
        }),
{
    let is_archived = match archived {
        Some(a) => a,
        None => false,
    };
    if !include_archived && is_archived {
        return None;
    }
    let ssh = match ssh_url {
        Some(u) => u,
        None => String::from_str("git@github.com:").concat(org).concat("/").concat(name.as_str()).concat(".git"),
    };
    Some(OrgRepo {
        name,
        clone_url_ssh: ssh,
        clone_url_https: https_url,
        archived: is_archived,
        default_branch,
    })
}

/// The token to use for GitHub: the configured one when there is one, else
/// the one from `$GITHUB_TOKEN`; an empty token counts as none. A configured
/// empty token is not replaced by the environment's.
pub fn resolve_token(config_token: Option<&str>, env_token: Option<String>) -> (r: Option<String>)
    ensures
        match config_token {
            Some(t) => if t@.len() > 0 {
                r matches Some(s) && s@ == t@
            } else {
                r is None
            },
            None => match env_token {
                Some(t) => if t@.len() > 0 {
                    r matches Some(s) && s@ == t@
                } else {
                    r is None
                },
                None => r is None,
            },
        },
{
    let chosen = match config_token {
        Some(t) => Some(String::from_str(t)),
        None => env_token,
    };
    match chosen {
        Some(s) => if s.as_str().unicode_len() > 0 {
            Some(s)
        } else {
            None
        },
        None => None,
    }
}

} // verus!
