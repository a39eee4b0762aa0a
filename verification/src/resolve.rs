use vstd::prelude::*;

use crate::config::{source_index, lemma_source_index, Config, ConfigView, Source, SourceView};
use crate::error::PowError;
use crate::paths::{expansion_outcome_ok, join_path, path_join};
use crate::text::{join_strings, joined, split_once_char, split_once_spec};

verus! {

/// A repo located in a source.
#[derive(Debug)]
pub struct ResolvedRepo {
    pub source_name: String,
    pub source_path: String,
    pub repo_path: String,
    pub repo_name: String,
}

/// `c` names the repo `repo_name` in `source`, whose path expands to
/// `expanded`.
pub open spec fn candidate_for(c: ResolvedRepo, source: SourceView, expanded: Seq<char>, repo_name: Seq<char>) -> bool {
    &&& c.source_name@ == source.name
    &&& c.source_path@ == expanded
    &&& c.repo_path@ == path_join(expanded, repo_name)
    &&& c.repo_name@ == repo_name
}

fn candidate(source: &Source, expanded: String, repo_name: &str) -> (c: ResolvedRepo)
    ensures
        candidate_for(c, source@, expanded@, repo_name@),
{
    let repo_path = join_path(expanded.as_str(), repo_name);
    ResolvedRepo {
        source_name: source.name.clone(),
        source_path: expanded,
        repo_path,
        repo_name: String::from_str(repo_name),
    }
}

/// For a bare repo name: the (source name, expanded path) of every source
/// whose path expanded, in the order of the sources.
pub open spec fn bare_candidates(sources: Seq<SourceView>, expansions: Seq<Result<String, PowError>>) -> Seq<
    (Seq<char>, Seq<char>),
>
    decreases sources.len(),
{
    if sources.len() == 0 || expansions.len() != sources.len() {
        Seq::empty()
    } else {
        let rest = bare_candidates(sources.drop_last(), expansions.drop_last());
        match expansions.last() {
            Ok(p) => rest.push((sources.last().name, p@)),
            Err(_) => rest,
        }
    }
}

/// The candidates for a repo spec, given how each source's path expanded
/// (`ex[i]` belongs to `config.sources[i]`).
pub open spec fn candidates_given(
    config: ConfigView,
    spec: Seq<char>,
    ex: Seq<Result<String, PowError>>,
    r: Result<Vec<ResolvedRepo>, PowError>,
) -> bool {
    match split_once_spec(spec, '/') {
        Some((src, repo)) => match source_index(config.sources, src) {
            None => r matches Err(PowError::SourceNotFound(m)) && m@ == src,
            Some(i) => match ex[i] {
                Err(e) => r == Err::<Vec<ResolvedRepo>, PowError>(e),
                Ok(p) => r matches Ok(cs) && cs@.len() == 1 && candidate_for(cs@[0], config.sources[i], p@, repo),
            },
        },
        None => r matches Ok(cs) && cs@.len() == bare_candidates(config.sources, ex).len() && forall|k: int|
            0 <= k < cs@.len() ==> {
                let (name, p) = #[trigger] bare_candidates(config.sources, ex)[k];
                &&& cs@[k].source_name@ == name
                &&& cs@[k].source_path@ == p
                &&& cs@[k].repo_path@ == path_join(p, spec)
                &&& cs@[k].repo_name@ == spec
            },
    }
}

/// Where to look for a repo spec, given how each source's path expanded
/// (`expansions[i]` belongs to `config.sources[i]`).
/// - `source/name` looks only in that source: an unknown source is an
///   error, and so is a failed expansion of its path.
/// - A bare name looks in every source whose path expands, in order.
pub fn candidates_from(config: &Config, spec: &str, expansions: &Vec<Result<String, PowError>>) -> (r: Result<
    Vec<ResolvedRepo>,
    PowError,
>)
    requires
        expansions@.len() == config.sources@.len(),
    ensures
        candidates_given(config@, spec@, expansions@, r),
{
    match split_once_char(spec, '/') {
        Some((src_name, repo_name)) => {
            match config.source_position(src_name.as_str()) {
                None => Err(PowError::SourceNotFound(src_name)),
                Some(i) => {
                    match &expansions[i] {
                        Err(err) => Err(err.duplicate()),
                        Ok(p) => {
                            let c = candidate(&config.sources[i], p.clone(), repo_name.as_str());
                            let mut out: Vec<ResolvedRepo> = Vec::new();
                            out.push(c);
                            Ok(out)
                        },
                    }
                },
            }
        },
        None => {
            let ghost sv = config@.sources;
            let ghost ex = expansions@;
            let mut out: Vec<ResolvedRepo> = Vec::new();
            let n = config.sources.len();
            let mut i: usize = 0;
            assert(bare_candidates(sv.take(0), ex.take(0)) =~= Seq::<(Seq<char>, Seq<char>)>::empty());
            while i < n
                invariant
                    n == config.sources@.len(),
                    n == expansions@.len(),
                    sv == config@.sources,
                    ex == expansions@,
                    i <= n,
                    out@.len() == bare_candidates(sv.take(i as int), ex.take(i as int)).len(),
                    forall|k: int| 0 <= k < out@.len() ==> {
                        let (name, p) = #[trigger] bare_candidates(sv.take(i as int), ex.take(i as int))[k];
                        &&& out@[k].source_name@ == name
                        &&& out@[k].source_path@ == p
                        &&& out@[k].repo_path@ == path_join(p, spec@)
                        &&& out@[k].repo_name@ == spec@
                    },
                decreases n - i,
            {
                let ghost prev = bare_candidates(sv.take(i as int), ex.take(i as int));
                assert(sv.take(i + 1).drop_last() =~= sv.take(i as int));
                assert(ex.take(i + 1).drop_last() =~= ex.take(i as int));
                assert(sv.take(i + 1).last() == sv[i as int]);
                assert(ex.take(i + 1).last() == ex[i as int]);
                match &expansions[i] {
                    Ok(p) => {
                        let c = candidate(&config.sources[i], p.clone(), spec);
                        out.push(c);
                        assert(bare_candidates(sv.take(i + 1), ex.take(i + 1)) == prev.push((sv[i as int].name, p@)));
                    },
                    Err(_) => {
                        assert(bare_candidates(sv.take(i + 1), ex.take(i + 1)) == prev);
                    },
                }
                i = i + 1;
            }
            assert(sv.take(n as int) =~= sv);
            assert(ex.take(n as int) =~= ex);
            Ok(out)
        },
    }
}

/// Where to look for a repo spec: each source's path is expanded and the
/// candidates are picked as `candidates_from` does. The result is what
/// `candidates_from` gives for some expansions, each of them one that
/// expanding that source's path can give; so a bare name gets one
/// candidate per source whose path expanded, in the order of the sources,
/// and a source whose path has no `$` always expands. In particular an
/// unknown source named in `source/name` is an error, any other error is
/// one of expanding a path, and a known source whose path has no `$`
/// gives its candidate.
pub fn repo_candidates(config: &Config, spec: &str) -> (r: Result<Vec<ResolvedRepo>, PowError>)
    ensures
        match split_once_spec(spec@, '/') {
            Some((src, repo)) => {
                &&& (source_index(config@.sources, src) is None <==> (r matches Err(PowError::SourceNotFound(m)) && m@ == src))
                &&& (r matches Ok(cs) ==> cs@.len() == 1 && cs@[0].source_name@ == src && cs@[0].repo_name@ == repo
                    && cs@[0].repo_path@ == path_join(cs@[0].source_path@, repo))
                &&& (source_index(config@.sources, src) is Some ==> (r matches Err(e) ==> e is Config))
            },
            None => r matches Ok(cs) && cs@.len() <= config@.sources.len() && forall|k: int| 0 <= k < cs@.len() ==> {
                &&& #[trigger] cs@[k].repo_name@ == spec@
                &&& cs@[k].repo_path@ == path_join(cs@[k].source_path@, spec@)
            },
        },
        exists|ex: Seq<Result<String, PowError>>| {
            &&& ex.len() == config@.sources.len()
            &&& forall|k: int| 0 <= k < ex.len() ==> expansion_outcome_ok(config@.sources[k].path, #[trigger] ex[k])
            &&& candidates_given(config@, spec@, ex, r)
        },
        split_once_spec(spec@, '/') matches Some((src, repo)) ==> (source_index(config@.sources, src) matches Some(i)
            ==> (!config@.sources[i].path.contains('$') ==> r is Ok)),
{
    let mut expansions: Vec<Result<String, PowError>> = Vec::new();
    let n = config.sources.len();
    let mut i: usize = 0;
    while i < n
        invariant
            n == config.sources@.len(),
            i <= n,
            expansions@.len() == i,
            forall|k: int| 0 <= k < i ==> expansion_outcome_ok(config@.sources[k].path, #[trigger] expansions@[k]),
        decreases n - i,
    {
        expansions.push(config.sources[i].expanded_path());
        i = i + 1;
    }
    let r = candidates_from(config, spec, &expansions);
    proof {
        assert(expansions@.len() == config@.sources.len());
        assert(candidates_given(config@, spec@, expansions@, r));
        lemma_bare_candidates_len(config@.sources, expansions@);
        if let Some((src, repo)) = split_once_spec(spec@, '/') {
            lemma_source_index(config@.sources, src);
            if let Some(i) = source_index(config@.sources, src) {
                assert(expansion_outcome_ok(config@.sources[i].path, expansions@[i]));
            }
        } else {
            if let Ok(cs) = &r {
                assert forall|k: int| 0 <= k < cs@.len() implies {
                    &&& #[trigger] cs@[k].repo_name@ == spec@
                    &&& cs@[k].repo_path@ == path_join(cs@[k].source_path@, spec@)
                } by {
                    let _ = bare_candidates(config@.sources, expansions@)[k];
                }
            }
        }
    }
    r
}

proof fn lemma_bare_candidates_len(sources: Seq<SourceView>, expansions: Seq<Result<String, PowError>>)
    ensures
        bare_candidates(sources, expansions).len() <= sources.len(),
    decreases sources.len(),
{
    if sources.len() > 0 && expansions.len() == sources.len() {
        lemma_bare_candidates_len(sources.drop_last(), expansions.drop_last());
    }
}

} // verus!

verus! {

pub open spec fn not_in_source_message(repo: Seq<char>, src: Seq<char>) -> Seq<char> {
    "repo '"@ + repo + "' not found in source '"@ + src + "'"@
}

pub open spec fn not_found_message(spec: Seq<char>) -> Seq<char> {
    "repo '"@ + spec + "' not found in any configured source"@
}

pub open spec fn ambiguous_message(spec: Seq<char>, alts: Seq<char>) -> Seq<char> {
    "repo '"@ + spec + "' is ambiguous; found in: "@ + alts + ". Disambiguate with <source>/<repo>."@
}

/// `source/repo` for each place a repo was found.
pub open spec fn qualified_names(found: Seq<ResolvedRepo>) -> Seq<Seq<char>> {
    found.map_values(|r: ResolvedRepo| r.source_name@ + "/"@ + r.repo_name@)
}

/// Picks the repo that a spec names, from the candidates where it was
/// found (those whose directory is a git repo), in the order of the
/// sources.
/// - `source/name`: the first place found, else an error naming the repo
///   and the source.
/// - A bare name: exactly one place must have it; none is an error, and so
///   are several, naming them all.
pub fn resolve_repo(spec: &str, found: Vec<ResolvedRepo>) -> (r: Result<ResolvedRepo, PowError>)
    ensures
        match split_once_spec(spec@, '/') {
            Some((src, repo)) => if found@.len() > 0 {
                r == Ok::<ResolvedRepo, PowError>(found@[0])
            } else {
                r matches Err(PowError::RepoNotFound(m)) && m@ == not_in_source_message(repo, src)
            },
            None => if found@.len() == 1 {
                r == Ok::<ResolvedRepo, PowError>(found@[0])
            } else if found@.len() == 0 {
                r matches Err(PowError::RepoNotFound(m)) && m@ == not_found_message(spec@)
            } else {
                r matches Err(PowError::RepoNotFound(m)) && m@ == ambiguous_message(
                    spec@,
                    joined(qualified_names(found@), ", "@),
                )
            },
        },
{
    let mut found = found;
    match split_once_char(spec, '/') {
        Some((src_name, repo_name)) => {
            if found.len() > 0 {
                Ok(found.remove(0))
            } else {
                let m = String::from_str("repo '").concat(repo_name.as_str()).concat("' not found in source '").concat(
                    src_name.as_str(),
                ).concat("'");
                Err(PowError::RepoNotFound(m))
            }
        },
        None => {
            if found.len() == 1 {
                Ok(found.remove(0))
            } else if found.len() == 0 {
                let m = String::from_str("repo '").concat(spec).concat("' not found in any configured source");
                Err(PowError::RepoNotFound(m))
            } else {
                let mut alts: Vec<String> = Vec::new();
                let n = found.len();
                let mut i: usize = 0;
                while i < n
                    invariant
                        n == found@.len(),
                        i <= n,
                        alts@.map_values(|s: String| s@) == qualified_names(found@).take(i as int),
                    decreases n - i,
                {
                    let q = found[i].source_name.clone().concat("/").concat(found[i].repo_name.as_str());
                    assert(q@ == qualified_names(found@)[i as int]);
                    let ghost before = alts@.map_values(|s: String| s@);
                    alts.push(q);
                    assert(alts@.map_values(|s: String| s@) =~= before.push(q@));
                    assert(alts@.map_values(|s: String| s@) =~= qualified_names(found@).take(i + 1));
                    i = i + 1;
                }
                assert(qualified_names(found@).take(n as int) =~= qualified_names(found@));
                let joined_alts = join_strings(&alts, ", ");
                let m = String::from_str("repo '").concat(spec).concat("' is ambiguous; found in: ").concat(
                    joined_alts.as_str(),
                ).concat(". Disambiguate with <source>/<repo>.");
                Err(PowError::RepoNotFound(m))
            }
        },
    }
}

} // verus!
