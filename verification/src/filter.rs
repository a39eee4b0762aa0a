use vstd::prelude::*;

use crate::error::PowError;
use crate::github::OrgRepo;
use crate::text::has_prefix;

verus! {

#[verifier::external_type_specification]
#[verifier::external_body]
pub struct ExPattern(glob::Pattern);

/// Whether `glob::Pattern::new` accepts `pattern`.
pub uninterp spec fn glob_valid(pattern: Seq<char>) -> bool;

/// Whether the compiled `pattern` matches `name` (`glob::Pattern::matches`,
/// with the default options).
pub uninterp spec fn glob_matches(pattern: Seq<char>, name: Seq<char>) -> bool;

/// `glob::Pattern::new`: compiles a shell-style pattern; refused exactly
/// when the pattern is not valid. The error is handed on as its display
/// text.
#[verifier::external_body]
fn glob_compile(text: &str) -> (r: Result<glob::Pattern, String>)
    ensures
        r is Ok <==> glob_valid(text@),
{
    glob::Pattern::new(text).map_err(|e| e.to_string())
}

/// A glob pattern together with the text that it was compiled from. Only
/// `Glob::new` builds one, so the compiled pattern is always that of the
/// text.
pub struct Glob {
    text: String,
    compiled: glob::Pattern,
}

impl View for Glob {
    type V = Seq<char>;

    closed spec fn view(&self) -> Seq<char> {
        self.text@
    }
}

impl Glob {
    /// Compiles `text`.
    pub fn new(text: &str) -> (r: Result<Glob, String>)
        ensures
            r is Ok <==> glob_valid(text@),
            r matches Ok(g) ==> g@ == text@,
    {
        match glob_compile(text) {
            Ok(p) => Ok(Glob { text: String::from_str(text), compiled: p }),
            Err(e) => Err(e),
        }
    }

    /// `glob::Pattern::matches` on the compiled text of this glob.
    #[verifier::external_body]
    fn matches(&self, name: &str) -> (r: bool)
        ensures
            r == glob_matches(self@, name@),
    {
        self.compiled.matches(name)
    }
}

/// Position of the first pattern that does not compile.
pub open spec fn first_invalid(patterns: Seq<Seq<char>>) -> Option<int>
    decreases patterns.len(),
{
    if patterns.len() == 0 {
        None
    } else {
        match first_invalid(patterns.drop_last()) {
            Some(i) => Some(i),
            None => if !glob_valid(patterns.last()) {
                Some(patterns.len() - 1)
            } else {
                None
            },
        }
    }
}

pub open spec fn bad_glob_prefix(p: Seq<char>) -> Seq<char> {
    "bad glob '"@ + p + "': "@
}

/// Whether some pattern matches `name`.
pub open spec fn any_matches(patterns: Seq<Seq<char>>, name: Seq<char>) -> bool {
    exists|i: int| 0 <= i < patterns.len() && glob_matches(patterns[i], name)
}

/// Whether a repo passes the filters: archived repos are dropped when asked;
/// with includes patterns only a repo that one of them matches stays; a repo
/// that an excludes pattern matches goes.
pub open spec fn passes(r: OrgRepo, includes: Seq<Seq<char>>, excludes: Seq<Seq<char>>, skip_archived: bool) -> bool {
    &&& !(skip_archived && r.archived)
    &&& (includes.len() == 0 || any_matches(includes, r.name@))
    &&& !any_matches(excludes, r.name@)
}

/// The repos that pass the filters, in their order.
pub open spec fn kept(repos: Seq<OrgRepo>, includes: Seq<Seq<char>>, excludes: Seq<Seq<char>>, skip_archived: bool) -> Seq<OrgRepo>
    decreases repos.len(),
{
    if repos.len() == 0 {
        Seq::empty()
    } else {
        let rest = kept(repos.drop_last(), includes, excludes, skip_archived);
        if passes(repos.last(), includes, excludes, skip_archived) {
            rest.push(repos.last())
        } else {
            rest
        }
    }
}

proof fn lemma_first_invalid(patterns: Seq<Seq<char>>)
    ensures
        match first_invalid(patterns) {
            Some(i) => 0 <= i < patterns.len() && !glob_valid(patterns[i])
                && forall|j: int| 0 <= j < i ==> glob_valid(patterns[j]),
            None => forall|j: int| 0 <= j < patterns.len() ==> glob_valid(patterns[j]),
        },
    decreases patterns.len(),
{
    if patterns.len() > 0 {
        let d = patterns.drop_last();
        lemma_first_invalid(d);
        assert forall|j: int| 0 <= j < d.len() implies d[j] == patterns[j] by {}
    }
}

fn compile(patterns: &[String]) -> (r: Result<Vec<Glob>, PowError>)
    ensures
        match first_invalid(patterns@.map_values(|p: String| p@)) {
            Some(i) => r matches Err(PowError::Config(m)) && has_prefix(m@, bad_glob_prefix(patterns@[i]@)),
            None => r matches Ok(gs) && gs@.map_values(|g: Glob| g@) == patterns@.map_values(|p: String| p@),
        },
{
    let ghost pv = patterns@.map_values(|p: String| p@);
    let mut out: Vec<Glob> = Vec::new();
    let n = patterns.len();
    let mut i: usize = 0;
    while i < n
        invariant
            n == patterns@.len(),
            pv == patterns@.map_values(|p: String| p@),
            i <= n,
            out@.map_values(|g: Glob| g@) == pv.take(i as int),
            first_invalid(pv.take(i as int)) is None,
        decreases n - i,
    {
        assert(pv.take(i + 1).drop_last() =~= pv.take(i as int));
        match Glob::new(patterns[i].as_str()) {
            Ok(g) => {
                out.push(g);
                assert(out@.map_values(|g: Glob| g@) =~= pv.take(i + 1));
            },
            Err(e) => {
                proof {
                    lemma_first_invalid(pv.take(i as int));
                    lemma_first_invalid(pv);
                    assert(first_invalid(pv.take(i + 1)) == Some(i as int));
                    lemma_first_invalid_prefix(pv, i as int);
                }
                let m = String::from_str("bad glob '").concat(patterns[i].as_str()).concat("': ").concat(e.as_str());
                assert(m@.subrange(0, bad_glob_prefix(patterns@[i as int]@).len() as int) =~= bad_glob_prefix(patterns@[i as int]@));
                return Err(PowError::Config(m));
            },
        }
        i = i + 1;
    }
    assert(pv.take(n as int) =~= pv);
    Ok(out)
}

proof fn lemma_first_invalid_prefix(pv: Seq<Seq<char>>, i: int)
    requires
        0 <= i < pv.len(),
        first_invalid(pv.take(i + 1)) == Some(i),
    ensures
        first_invalid(pv) == Some(i),
    decreases pv.len(),
{
    if pv.len() > i + 1 {
        assert(pv.drop_last().take(i + 1) =~= pv.take(i + 1));
        lemma_first_invalid_prefix(pv.drop_last(), i);
    } else {
        assert(pv.take(i + 1) =~= pv);
    }
}

fn any_glob_matches(globs: &Vec<Glob>, name: &str) -> (r: bool)
    ensures
        r == any_matches(globs@.map_values(|g: Glob| g@), name@),
{
    let ghost gv = globs@.map_values(|g: Glob| g@);
    let n = globs.len();
    let mut i: usize = 0;
    while i < n
        invariant
            n == globs@.len(),
            gv == globs@.map_values(|g: Glob| g@),
            i <= n,
            forall|j: int| 0 <= j < i ==> !glob_matches(gv[j], name@),
        decreases n - i,
    {
        if globs[i].matches(name) {
            assert(glob_matches(gv[i as int], name@));
            return true;
        }
        i = i + 1;
    }
    false
}

/// Returns the subset of `repos` passing the configured filters, in their
/// order:
/// - if `skip_archived`, any archived repo is dropped;
/// - with no includes patterns every repo is included (subject to excludes);
///   otherwise only repos that at least one includes pattern matches;
/// - any repo that an excludes pattern matches is dropped.
/// A pattern that does not compile is an error: the first bad includes
/// pattern, else the first bad excludes pattern, is named.
pub fn apply_filters<'a>(
    repos: &'a [OrgRepo],
    includes: &[String],
    excludes: &[String],
    skip_archived: bool,
) -> (r: Result<Vec<&'a OrgRepo>, PowError>)
    ensures
        ({
            let inc = includes@.map_values(|p: String| p@);
            let exc = excludes@.map_values(|p: String| p@);
            match (first_invalid(inc), first_invalid(exc)) {
                (Some(i), _) => r matches Err(PowError::Config(m)) && has_prefix(m@, bad_glob_prefix(inc[i])),
                (None, Some(i)) => r matches Err(PowError::Config(m)) && has_prefix(m@, bad_glob_prefix(exc[i])),
                (None, None) => r matches Ok(out) && out@.map_values(|x: &OrgRepo| *x) == kept(repos@, inc, exc, skip_archived),
            }
        }),
        r matches Ok(out) ==> ({
            let inc = includes@.map_values(|p: String| p@);
            let exc = excludes@.map_values(|p: String| p@);
            let k = out@.map_values(|x: &OrgRepo| *x);
            &&& forall|j: int, i: int|
                0 <= j < repos@.len() && 0 <= i < inc.len() && #[trigger] glob_matches(inc[i], repos@[j].name@)
                    && (forall|e: int| 0 <= e < exc.len() ==> !glob_matches(exc[e], repos@[j].name@))
                    && !(skip_archived && repos@[j].archived) ==> k.contains(repos@[j])
            &&& inc.len() == 0 ==> forall|j: int|
                0 <= j < repos@.len() && (forall|e: int| 0 <= e < exc.len() ==> !glob_matches(exc[e], (#[trigger] repos@[j]).name@))
                    && !(skip_archived && repos@[j].archived) ==> k.contains(repos@[j])
            &&& forall|m: int| 0 <= m < k.len() ==> {
                let x = #[trigger] k[m];
                &&& !(skip_archived && x.archived)
                &&& (inc.len() == 0 || exists|i: int| 0 <= i < inc.len() && glob_matches(inc[i], x.name@))
                &&& forall|e: int| 0 <= e < exc.len() ==> !glob_matches(exc[e], x.name@)
            }
        }),
{
    proof {
        lemma_first_invalid(includes@.map_values(|p: String| p@));
        lemma_first_invalid(excludes@.map_values(|p: String| p@));
    }
    let inc_pats = match compile(includes) {
        Ok(g) => g,
        Err(e) => return Err(e),
    };
    let exc_pats = match compile(excludes) {
        Ok(g) => g,
        Err(e) => return Err(e),
    };
    let ghost inc = includes@.map_values(|p: String| p@);
    let ghost exc = excludes@.map_values(|p: String| p@);
    let mut out: Vec<&'a OrgRepo> = Vec::new();
    let n = repos.len();
    let mut i: usize = 0;
    while i < n
        invariant
            n == repos@.len(),
            inc_pats@.map_values(|g: Glob| g@) == inc,
            exc_pats@.map_values(|g: Glob| g@) == exc,
            i <= n,
            out@.map_values(|x: &OrgRepo| *x) == kept(repos@.take(i as int), inc, exc, skip_archived),
        decreases n - i,
    {
        let r = &repos[i];
        assert(repos@.take(i + 1).drop_last() =~= repos@.take(i as int));
        assert(repos@.take(i + 1).last() == *r);
        let mut keep = true;
        if skip_archived && r.archived {
            keep = false;
        }
        if keep {
            let inc_match = inc_pats.len() == 0 || any_glob_matches(&inc_pats, r.name.as_str());
            if !inc_match {
                keep = false;
            }
        }
        if keep {
            if any_glob_matches(&exc_pats, r.name.as_str()) {
                keep = false;
            }
        }
        assert(keep == passes(*r, inc, exc, skip_archived));
        if keep {
            out.push(r);
        }
        assert(out@.map_values(|x: &OrgRepo| *x) =~= kept(repos@.take(i + 1), inc, exc, skip_archived));
        i = i + 1;
    }
    assert(repos@.take(n as int) =~= repos@);
    proof {
        law_filters_by_globs(repos@, inc, exc, skip_archived);
    }
    Ok(out)
}

} // verus!

verus! {

/// Every repo that the filters keep passes them, every repo that passes is
/// kept, and the kept repos come in the order of the input.
pub proof fn law_filters_keep_exactly_passing(
    repos: Seq<OrgRepo>,
    includes: Seq<Seq<char>>,
    excludes: Seq<Seq<char>>,
    skip_archived: bool,
)
    ensures
        forall|k: int| 0 <= k < kept(repos, includes, excludes, skip_archived).len() ==> passes(
            #[trigger] kept(repos, includes, excludes, skip_archived)[k],
            includes,
            excludes,
            skip_archived,
        ),
        forall|i: int| 0 <= i < repos.len() && passes(#[trigger] repos[i], includes, excludes, skip_archived)
            ==> kept(repos, includes, excludes, skip_archived).contains(repos[i]),
        kept(repos, includes, excludes, skip_archived).len() <= repos.len(),
    decreases repos.len(),
{
    if repos.len() > 0 {
        let d = repos.drop_last();
        law_filters_keep_exactly_passing(d, includes, excludes, skip_archived);
        let rest = kept(d, includes, excludes, skip_archived);
        let k = kept(repos, includes, excludes, skip_archived);
        assert forall|i: int| 0 <= i < repos.len() && passes(#[trigger] repos[i], includes, excludes, skip_archived)
            implies k.contains(repos[i]) by {
            if i < repos.len() - 1 {
                assert(d[i] == repos[i]);
                assert(rest.contains(d[i]));
                let j = choose|j: int| 0 <= j < rest.len() && rest[j] == d[i];
                if passes(repos.last(), includes, excludes, skip_archived) {
                    assert(k[j] == rest[j]);
                }
            } else {
                assert(k[k.len() - 1] == repos.last());
            }
        }
    }
}

/// With no patterns and archived repos wanted, every repo is kept, in
/// order.
pub proof fn law_no_filters_keep_all(repos: Seq<OrgRepo>)
    ensures
        kept(repos, Seq::empty(), Seq::empty(), false) == repos,
    decreases repos.len(),
{
    if repos.len() > 0 {
        law_no_filters_keep_all(repos.drop_last());
        assert(!any_matches(Seq::empty(), repos.last().name@));
        assert(repos.drop_last().push(repos.last()) =~= repos);
    }
}

/// When archived repos are skipped, none is kept.
pub proof fn law_archived_skipped(repos: Seq<OrgRepo>, includes: Seq<Seq<char>>, excludes: Seq<Seq<char>>)
    ensures
        forall|k: int| 0 <= k < kept(repos, includes, excludes, true).len() ==> !(#[trigger] kept(
            repos,
            includes,
            excludes,
            true,
        )[k]).archived,
{
    law_filters_keep_exactly_passing(repos, includes, excludes, true);
}


/// What the filters keep, over the glob answers themselves: a repo that any
/// includes pattern matches (or any repo, when there are none), that no
/// excludes pattern matches and that is not a skipped archived repo is
/// kept; and every kept repo is such a repo.
pub proof fn law_filters_by_globs(
    repos: Seq<OrgRepo>,
    includes: Seq<Seq<char>>,
    excludes: Seq<Seq<char>>,
    skip_archived: bool,
)
    ensures
        forall|j: int, i: int|
            0 <= j < repos.len() && 0 <= i < includes.len() && #[trigger] glob_matches(includes[i], repos[j].name@)
                && (forall|e: int| 0 <= e < excludes.len() ==> !glob_matches(excludes[e], repos[j].name@))
                && !(skip_archived && repos[j].archived) ==> kept(repos, includes, excludes, skip_archived).contains(
                repos[j],
            ),
        includes.len() == 0 ==> forall|j: int|
            0 <= j < repos.len() && (forall|e: int| 0 <= e < excludes.len() ==> !glob_matches(excludes[e], (#[trigger] repos[j]).name@))
                && !(skip_archived && repos[j].archived) ==> kept(repos, includes, excludes, skip_archived).contains(
                repos[j],
            ),
        forall|k: int| 0 <= k < kept(repos, includes, excludes, skip_archived).len() ==> {
            let r = #[trigger] kept(repos, includes, excludes, skip_archived)[k];
            &&& !(skip_archived && r.archived)
            &&& (includes.len() == 0 || exists|i: int| 0 <= i < includes.len() && glob_matches(includes[i], r.name@))
            &&& forall|e: int| 0 <= e < excludes.len() ==> !glob_matches(excludes[e], r.name@)
        },
{
    law_filters_keep_exactly_passing(repos, includes, excludes, skip_archived);
    assert forall|j: int, i: int|
        0 <= j < repos.len() && 0 <= i < includes.len() && #[trigger] glob_matches(includes[i], repos[j].name@)
            && (forall|e: int| 0 <= e < excludes.len() ==> !glob_matches(excludes[e], repos[j].name@))
            && !(skip_archived && repos[j].archived) implies kept(repos, includes, excludes, skip_archived).contains(
            repos[j],
        ) by {
        assert(any_matches(includes, repos[j].name@));
        assert(passes(repos[j], includes, excludes, skip_archived));
    }
    assert forall|j: int|
        includes.len() == 0 && 0 <= j < repos.len() && (forall|e: int| 0 <= e < excludes.len() ==> !glob_matches(excludes[e], (#[trigger] repos[j]).name@))
            && !(skip_archived && repos[j].archived) implies kept(repos, includes, excludes, skip_archived).contains(
            repos[j],
        ) by {
        assert(passes(repos[j], includes, excludes, skip_archived));
    }
    assert forall|k: int| 0 <= k < kept(repos, includes, excludes, skip_archived).len() implies {
        let r = #[trigger] kept(repos, includes, excludes, skip_archived)[k];
        &&& !(skip_archived && r.archived)
        &&& (includes.len() == 0 || exists|i: int| 0 <= i < includes.len() && glob_matches(includes[i], r.name@))
        &&& forall|e: int| 0 <= e < excludes.len() ==> !glob_matches(excludes[e], r.name@)
    } by {
        let r = kept(repos, includes, excludes, skip_archived)[k];
        assert(passes(r, includes, excludes, skip_archived));
    }
}

} // verus!
