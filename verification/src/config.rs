use vstd::prelude::*;

use crate::error::PowError;
use crate::paths;
use crate::text::{decimal, format_usize, parse_usize, parses_as_usize, str_eq, unsigned_digits, decimal_value};

verus! {

/// Global settings.
#[derive(Debug)]
pub struct Settings {
    pub default_source: Option<String>,
    pub parallel: usize,
}

/// GitHub access.
#[derive(Debug)]
pub struct GithubConfig {
    pub token: Option<String>,
}

/// A directory holding git clones, optionally tied to a GitHub org.
#[derive(Debug)]
pub struct Source {
    pub name: String,
    pub path: String,
    pub github_org: Option<String>,
    pub base_branch: String,
    pub skip_archived: bool,
    pub include_globs: Vec<String>,
    pub exclude_globs: Vec<String>,
}

/// A named list of repo specs that a new workspace can be filled from.
#[derive(Debug)]
pub struct Template {
    pub name: String,
    pub repos: Vec<String>,
}

/// The whole configuration file.
#[derive(Debug)]
pub struct Config {
    pub settings: Settings,
    pub github: GithubConfig,
    pub sources: Vec<Source>,
    pub templates: Vec<Template>,
}

pub struct SourceView {
    pub name: Seq<char>,
    pub path: Seq<char>,
    pub github_org: Option<Seq<char>>,
    pub base_branch: Seq<char>,
    pub skip_archived: bool,
    pub include_globs: Seq<Seq<char>>,
    pub exclude_globs: Seq<Seq<char>>,
}

pub struct TemplateView {
    pub name: Seq<char>,
    pub repos: Seq<Seq<char>>,
}

/// What a configuration holds, as plain values.
pub struct ConfigView {
    pub default_source: Option<Seq<char>>,
    pub parallel: nat,
    pub token: Option<Seq<char>>,
    pub sources: Seq<SourceView>,
    pub templates: Seq<TemplateView>,
}

impl View for Source {
    type V = SourceView;

    open spec fn view(&self) -> SourceView {
        SourceView {
            name: self.name@,
            path: self.path@,
            github_org: self.github_org.deep_view(),
            base_branch: self.base_branch@,
            skip_archived: self.skip_archived,
            include_globs: self.include_globs.deep_view(),
            exclude_globs: self.exclude_globs.deep_view(),
        }
    }
}

impl View for Template {
    type V = TemplateView;

    open spec fn view(&self) -> TemplateView {
        TemplateView { name: self.name@, repos: self.repos.deep_view() }
    }
}

impl View for Config {
    type V = ConfigView;

    open spec fn view(&self) -> ConfigView {
        ConfigView {
            default_source: self.settings.default_source.deep_view(),
            parallel: self.settings.parallel as nat,
            token: self.github.token.deep_view(),
            sources: self.sources@.map_values(|s: Source| s@),
            templates: self.templates@.map_values(|t: Template| t@),
        }
    }
}

/// Number of parallel jobs when the configuration names none.
pub fn default_parallel() -> (n: usize)
    ensures
        n == 4,
{
    4
}

/// Base branch of a source when the configuration names none.
pub fn default_base_branch() -> (s: String)
    ensures
        s@ == "main"@,
{
    String::from_str("main")
}

/// Whether archived repos are skipped when the configuration does not say.
pub fn default_skip_archived() -> (b: bool)
    ensures
        b,
{
    true
}

impl Settings {
    /// Settings with every field at its default.
    pub fn defaulted() -> (s: Self)
        ensures
            s.default_source is None,
            s.parallel == 4,
    {
        Settings { default_source: None, parallel: default_parallel() }
    }
}

impl Default for Config {
    fn default() -> (c: Self)
        ensures
            c@ == empty_config(),
    {
        let c = Config {
            settings: Settings::defaulted(),
            github: GithubConfig { token: None },
            sources: Vec::new(),
            templates: Vec::new(),
        };
        assert(c@.sources =~= Seq::<SourceView>::empty());
        assert(c@.templates =~= Seq::<TemplateView>::empty());
        c
    }
}

/// The configuration that stands when there is no file.
pub open spec fn empty_config() -> ConfigView {
    ConfigView {
        default_source: None,
        parallel: 4,
        token: None,
        sources: Seq::empty(),
        templates: Seq::empty(),
    }
}

impl Source {
    /// The source's path with `~` and `$VAR` expanded.
    pub fn expanded_path(&self) -> (r: Result<String, PowError>)
        ensures
            paths::expansion_outcome_ok(self.path@, r),
    {
        paths::expand_path(self.path.as_str())
    }
}

// ---------------------------------------------------------------------------
// Looking up sources by name
// ---------------------------------------------------------------------------

/// Position of the first source called `name`.
pub open spec fn source_index(sources: Seq<SourceView>, name: Seq<char>) -> Option<int>
    decreases sources.len(),
{
    if sources.len() == 0 {
        None
    } else {
        match source_index(sources.drop_last(), name) {
            Some(i) => Some(i),
            None => if sources.last().name == name {
                Some(sources.len() - 1)
            } else {
                None
            },
        }
    }
}

/// Whether some source is called `name`.
pub open spec fn has_source(sources: Seq<SourceView>, name: Seq<char>) -> bool {
    exists|i: int| 0 <= i < sources.len() && sources[i].name == name
}

/// No two sources share a name.
pub open spec fn names_unique(sources: Seq<SourceView>) -> bool {
    forall|i: int, j: int|
        0 <= i < sources.len() && 0 <= j < sources.len() && i != j ==> sources[i].name != sources[j].name
}

/// `source_index` gives the first position of the name, or `None` when no
/// source has it.
pub proof fn lemma_source_index(sources: Seq<SourceView>, name: Seq<char>)
    ensures
        match source_index(sources, name) {
            Some(i) => {
                &&& 0 <= i < sources.len()
                &&& sources[i].name == name
                &&& forall|j: int| 0 <= j < i ==> sources[j].name != name
            },
            None => !has_source(sources, name),
        },
    decreases sources.len(),
{
    if sources.len() > 0 {
        let d = sources.drop_last();
        lemma_source_index(d, name);
        assert forall|j: int| 0 <= j < d.len() implies d[j] == sources[j] by {}
        if source_index(d, name) is None {
            if sources.last().name != name {
                assert forall|j: int| 0 <= j < sources.len() implies sources[j].name != name by {
                    if j < d.len() {
                        assert(d[j] == sources[j]);
                    }
                }
            }
        }
    }
}

proof fn lemma_source_index_is(sources: Seq<SourceView>, name: Seq<char>, i: int)
    requires
        0 <= i < sources.len(),
        sources[i].name == name,
        forall|j: int| 0 <= j < i ==> sources[j].name != name,
    ensures
        source_index(sources, name) == Some(i),
{
    lemma_source_index(sources, name);
    match source_index(sources, name) {
        Some(k) => {
            if k < i {
                assert(sources[k].name != name);
            }
            if i < k {
                assert(sources[i].name != name);
            }
        },
        None => {
            assert(has_source(sources, name));
        },
    }
}

impl Config {
    /// Index of the first source called `name`.
    pub fn source_position(&self, name: &str) -> (r: Option<usize>)
        ensures
            match r {
                Some(i) => source_index(self@.sources, name@) == Some(i as int) && i < self.sources@.len(),
                None => source_index(self@.sources, name@) is None,
            },
    {
        let n = self.sources.len();
        let mut i: usize = 0;
        while i < n
            invariant
                n == self.sources@.len(),
                i <= n,
                forall|j: int| 0 <= j < i ==> self@.sources[j].name != name@,
            decreases n - i,
        {
            if str_eq(self.sources[i].name.as_str(), name) {
                proof {
                    lemma_source_index_is(self@.sources, name@, i as int);
                }
                return Some(i);
            }
            i = i + 1;
        }
        proof {
            lemma_source_index(self@.sources, name@);
        }
        None
    }

    /// The first source called `name`.
    pub fn find_source(&self, name: &str) -> (r: Option<&Source>)
        ensures
            match r {
                Some(s) => exists|i: int| source_index(self@.sources, name@) == Some(i) && *s == self.sources@[i],
                None => !has_source(self@.sources, name@),
            },
    {
        match self.source_position(name) {
            Some(i) => {
                assert(source_index(self@.sources, name@) == Some(i as int));
                Some(&self.sources[i])
            },
            None => {
                proof {
                    lemma_source_index(self@.sources, name@);
                }
                None
            },
        }
    }

    /// The first source called `name`, to change in place.
    pub fn find_source_mut(&mut self, name: &str) -> (r: Option<&mut Source>)
        ensures
            match r {
                Some(s) => exists|i: int| {
                    &&& source_index(old(self)@.sources, name@) == Some(i)
                    &&& *s == old(self).sources@[i]
                    &&& final(self).sources@ == old(self).sources@.update(i, *final(s))
                    &&& final(self).settings == old(self).settings
                    &&& final(self).github == old(self).github
                    &&& final(self).templates == old(self).templates
                },
                None => {
                    &&& !has_source(old(self)@.sources, name@)
                    &&& *final(self) == *old(self)
                },
            },
    {
        match self.source_position(name) {
            Some(i) => {
                assert(source_index(old(self)@.sources, name@) == Some(i as int));
                Some(&mut self.sources[i])
            },
            None => {
                proof {
                    lemma_source_index(self@.sources, name@);
                }
                None
            },
        }
    }

    /// Refuses a name that a registered source already has, before a new
    /// source of that name is set up.
    pub fn check_new_source(&self, name: &str) -> (r: Result<(), PowError>)
        ensures
            has_source(self@.sources, name@) ==> (r matches Err(PowError::Config(m)) && m@ == source_exists_message(name@)),
            !has_source(self@.sources, name@) ==> r is Ok,
    {
        proof {
            lemma_source_index(self@.sources, name@);
        }
        if self.find_source(name).is_some() {
            Err(PowError::Config(String::from_str("source '").concat(name).concat("' already exists")))
        } else {
            Ok(())
        }
    }

    /// Registers a source; refused when one of that name exists.
    pub fn add_source(&mut self, source: Source) -> (r: Result<(), PowError>)
        ensures
            has_source(old(self)@.sources, source@.name) ==> {
                &&& r matches Err(PowError::Config(m)) && m@ == source_exists_message(source@.name)
                &&& final(self)@ == old(self)@
            },
            !has_source(old(self)@.sources, source@.name) ==> {
                &&& r is Ok
                &&& final(self)@ == ConfigView { sources: old(self)@.sources.push(source@), ..old(self)@ }
            },
    {
        proof {
            lemma_source_index(self@.sources, source@.name);
        }
        if self.find_source(source.name.as_str()).is_some() {
            let msg = String::from_str("source '").concat(source.name.as_str()).concat("' already exists");
            return Err(PowError::Config(msg));
        }
        self.sources.push(source);
        assert(self@.sources =~= old(self)@.sources.push(source@));
        Ok(())
    }

    /// Unregisters the first source called `name` and hands it back.
    pub fn remove_source(&mut self, name: &str) -> (r: Result<Source, PowError>)
        ensures
            match source_index(old(self)@.sources, name@) {
                Some(i) => {
                    &&& r matches Ok(s) && s == old(self).sources@[i]
                    &&& final(self)@ == ConfigView { sources: old(self)@.sources.remove(i), ..old(self)@ }
                },
                None => {
                    &&& r matches Err(PowError::SourceNotFound(m)) && m@ == name@
                    &&& final(self)@ == old(self)@
                },
            },
    {
        match self.source_position(name) {
            Some(i) => {
                let s = self.sources.remove(i);
                assert(self@.sources =~= old(self)@.sources.remove(i as int));
                Ok(s)
            },
            None => Err(PowError::SourceNotFound(String::from_str(name))),
        }
    }
}

pub open spec fn source_exists_message(name: Seq<char>) -> Seq<char> {
    "source '"@ + name + "' already exists"@
}

} // verus!

verus! {

// ---------------------------------------------------------------------------
// `pow config get` / `pow config set`
// ---------------------------------------------------------------------------

pub open spec fn key_default_source() -> Seq<char> {
    "settings.default_source"@
}

pub open spec fn key_parallel() -> Seq<char> {
    "settings.parallel"@
}

pub open spec fn key_token() -> Seq<char> {
    "github.token"@
}

/// The value that `config get` prints for `key`, or `None` for a key that
/// it does not know. An unset optional value reads as the empty string.
pub open spec fn config_get(c: ConfigView, key: Seq<char>) -> Option<Seq<char>> {
    if key == key_default_source() {
        Some(
            match c.default_source {
                Some(s) => s,
                None => Seq::empty(),
            },
        )
    } else if key == key_parallel() {
        Some(decimal(c.parallel))
    } else if key == key_token() {
        Some(
            match c.token {
                Some(s) => s,
                None => Seq::empty(),
            },
        )
    } else {
        None
    }
}

/// What `config set` does.
pub enum SetOutcome {
    /// The configuration becomes this one.
    Changed(ConfigView),
    /// `settings.parallel` was given a value that is not a number.
    NotANumber,
    /// `settings.parallel` was given zero.
    Zero,
    /// The key is not one of the known keys.
    UnknownKey,
}

/// An empty value clears an optional setting.
pub open spec fn optional_value(value: Seq<char>) -> Option<Seq<char>> {
    if value.len() == 0 {
        None
    } else {
        Some(value)
    }
}

pub open spec fn config_set(c: ConfigView, key: Seq<char>, value: Seq<char>) -> SetOutcome {
    if key == key_default_source() {
        SetOutcome::Changed(ConfigView { default_source: optional_value(value), ..c })
    } else if key == key_parallel() {
        if !parses_as_usize(value) {
            SetOutcome::NotANumber
        } else if decimal_value(unsigned_digits(value)) == 0 {
            SetOutcome::Zero
        } else {
            SetOutcome::Changed(ConfigView { parallel: decimal_value(unsigned_digits(value)), ..c })
        }
    } else if key == key_token() {
        SetOutcome::Changed(ConfigView { token: optional_value(value), ..c })
    } else {
        SetOutcome::UnknownKey
    }
}

pub open spec fn unknown_key_message(key: Seq<char>) -> Seq<char> {
    "unknown config key '"@ + key
        + "'. Valid keys: settings.default_source, settings.parallel, github.token"@
}

pub open spec fn not_a_number_message(value: Seq<char>) -> Seq<char> {
    "settings.parallel must be a positive integer, got '"@ + value + "'"@
}

pub open spec fn zero_parallel_message() -> Seq<char> {
    "settings.parallel must be >= 1"@
}

fn unknown_key_error(key: &str) -> (e: PowError)
    ensures
        e matches PowError::Config(m) && m@ == unknown_key_message(key@),
{
    let m = String::from_str("unknown config key '").concat(key).concat(
        "'. Valid keys: settings.default_source, settings.parallel, github.token",
    );
    PowError::Config(m)
}

fn text_or_empty(s: &Option<String>) -> (r: String)
    ensures
        r@ == match s.deep_view() {
            Some(t) => t,
            None => Seq::empty(),
        },
{
    match s {
        Some(t) => t.clone(),
        None => String::new(),
    }
}

fn optional_text(value: &str) -> (r: Option<String>)
    ensures
        r.deep_view() == optional_value(value@),
{
    if value.unicode_len() == 0 {
        None
    } else {
        Some(String::from_str(value))
    }
}

/// The value of a configuration key, as `pow config get` prints it.
pub fn get_value(cfg: &Config, key: &str) -> (r: Result<String, PowError>)
    ensures
        match config_get(cfg@, key@) {
            Some(v) => r matches Ok(s) && s@ == v,
            None => r matches Err(PowError::Config(m)) && m@ == unknown_key_message(key@),
        },
{
    if str_eq(key, "settings.default_source") {
        Ok(text_or_empty(&cfg.settings.default_source))
    } else if str_eq(key, "settings.parallel") {
        Ok(format_usize(cfg.settings.parallel))
    } else if str_eq(key, "github.token") {
        Ok(text_or_empty(&cfg.github.token))
    } else {
        Err(unknown_key_error(key))
    }
}

/// Sets a configuration key, as `pow config set` does.
pub fn set_value(cfg: &mut Config, key: &str, value: &str) -> (r: Result<(), PowError>)
    ensures
        match config_set(old(cfg)@, key@, value@) {
            SetOutcome::Changed(c) => r is Ok && final(cfg)@ == c,
            SetOutcome::NotANumber => {
                &&& r matches Err(PowError::Config(m)) && m@ == not_a_number_message(value@)
                &&& final(cfg)@ == old(cfg)@
            },
            SetOutcome::Zero => {
                &&& r matches Err(PowError::Config(m)) && m@ == zero_parallel_message()
                &&& final(cfg)@ == old(cfg)@
            },
            SetOutcome::UnknownKey => {
                &&& r matches Err(PowError::Config(m)) && m@ == unknown_key_message(key@)
                &&& final(cfg)@ == old(cfg)@
            },
        },
{
    if str_eq(key, "settings.default_source") {
        cfg.settings.default_source = optional_text(value);
        Ok(())
    } else if str_eq(key, "settings.parallel") {
        match parse_usize(value) {
            None => {
                let m = String::from_str("settings.parallel must be a positive integer, got '").concat(
                    value,
                ).concat("'");
                Err(PowError::Config(m))
            },
            Some(n) => {
                if n == 0 {
                    Err(PowError::Config(String::from_str("settings.parallel must be >= 1")))
                } else {
                    cfg.settings.parallel = n;
                    Ok(())
                }
            },
        }
    } else if str_eq(key, "github.token") {
        cfg.github.token = optional_text(value);
        Ok(())
    } else {
        Err(unknown_key_error(key))
    }
}

/// The keys that `config get` and `config set` know, in the order that
/// completion offers them.
pub fn config_keys() -> (r: Vec<&'static str>)
    ensures
        r@.map_values(|k: &str| k@) == seq![key_default_source(), key_parallel(), key_token()],
{
    let mut r: Vec<&'static str> = Vec::new();
    r.push("settings.default_source");
    r.push("settings.parallel");
    r.push("github.token");
    assert(r@.map_values(|k: &str| k@) =~= seq![key_default_source(), key_parallel(), key_token()]);
    r
}

} // verus!

verus! {

impl Config {
    /// A parallelism of zero read from a file stands for the default.
    pub fn apply_load_defaults(&mut self)
        ensures
            final(self)@ == (if old(self)@.parallel == 0 {
                ConfigView { parallel: 4, ..old(self)@ }
            } else {
                old(self)@
            }),
    {
        if self.settings.parallel == 0 {
            self.settings.parallel = default_parallel();
        }
    }
}

/// A configuration as `config set` leaves it: at least one parallel job, and
/// optional texts either unset or not empty.
pub open spec fn settings_canonical(c: ConfigView) -> bool {
    &&& 1 <= c.parallel <= usize::MAX
    &&& (c.default_source matches Some(s) ==> s.len() > 0)
    &&& (c.token matches Some(s) ==> s.len() > 0)
}

proof fn lemma_keys_distinct()
    ensures
        key_default_source() != key_parallel(),
        key_default_source() != key_token(),
        key_parallel() != key_token(),
{
    reveal_strlit("settings.default_source");
    reveal_strlit("settings.parallel");
    reveal_strlit("github.token");
    assert(key_default_source().len() != key_parallel().len());
    assert(key_default_source().len() != key_token().len());
    assert(key_parallel().len() != key_token().len());
}

/// Reading a key after setting it gives back the value that was set; for
/// `settings.parallel` it gives the number in its plain decimal form.
pub proof fn law_get_after_set(c: ConfigView, key: Seq<char>, value: Seq<char>)
    requires
        config_set(c, key, value) is Changed,
    ensures
        ({
            let c2 = config_set(c, key, value)->Changed_0;
            &&& key != key_parallel() ==> config_get(c2, key) == Some(value)
            &&& key == key_parallel() ==> config_get(c2, key) == Some(decimal(decimal_value(unsigned_digits(value))))
        }),
{
    lemma_keys_distinct();
}

/// Setting a plain decimal number for `settings.parallel` reads back as the
/// same text.
pub proof fn law_parallel_roundtrip(c: ConfigView, n: usize)
    requires
        n >= 1,
    ensures
        config_set(c, key_parallel(), decimal(n as nat)) is Changed,
        config_get(config_set(c, key_parallel(), decimal(n as nat))->Changed_0, key_parallel()) == Some(decimal(n as nat)),
{
    lemma_keys_distinct();
    crate::text::lemma_parse_format_roundtrip(n);
}

/// Setting one key leaves every other key, and the sources and templates,
/// as they were.
pub proof fn law_set_leaves_others(c: ConfigView, key: Seq<char>, value: Seq<char>, other: Seq<char>)
    requires
        config_set(c, key, value) is Changed,
        other != key,
    ensures
        config_get(config_set(c, key, value)->Changed_0, other) == config_get(c, other),
        config_set(c, key, value)->Changed_0.sources == c.sources,
        config_set(c, key, value)->Changed_0.templates == c.templates,
{
    lemma_keys_distinct();
}

/// Setting a key to the value that reading it gives leaves the configuration
/// as it was.
pub proof fn law_set_what_get_gives(c: ConfigView, key: Seq<char>)
    requires
        settings_canonical(c),
        config_get(c, key) is Some,
    ensures
        config_set(c, key, config_get(c, key)->0) == SetOutcome::Changed(c),
{
    lemma_keys_distinct();
    if key == key_parallel() {
        crate::text::lemma_parse_format_roundtrip(c.parallel as usize);
    }
    if key == key_default_source() {
        assert(optional_value(config_get(c, key)->0) == c.default_source);
    }
    if key == key_token() {
        assert(optional_value(config_get(c, key)->0) == c.token);
    }
}

/// Exactly the keys that completion offers are known to `config get` and
/// `config set`; any other key is refused by both.
pub proof fn law_known_keys(c: ConfigView, key: Seq<char>, value: Seq<char>)
    ensures
        config_get(c, key) is Some <==> seq![key_default_source(), key_parallel(), key_token()].contains(key),
        !(config_set(c, key, value) is UnknownKey) <==> config_get(c, key) is Some,
{
    lemma_keys_distinct();
    let ks = seq![key_default_source(), key_parallel(), key_token()];
    if ks.contains(key) {
        let i = choose|i: int| 0 <= i < ks.len() && ks[i] == key;
        assert(i == 0 || i == 1 || i == 2);
    }
    if key == key_default_source() {
        assert(ks[0] == key);
    }
    if key == key_parallel() {
        assert(ks[1] == key);
    }
    if key == key_token() {
        assert(ks[2] == key);
    }
}

proof fn lemma_push_keeps_index(sources: Seq<SourceView>, s: SourceView, n: Seq<char>)
    requires
        n != s.name,
    ensures
        source_index(sources.push(s), n) == source_index(sources, n),
{
    assert(sources.push(s).drop_last() =~= sources);
}

/// A source registered under a new name is then the one found by that name,
/// other names are found where they were, names stay unique, and removing
/// it gives the earlier sources back.
pub proof fn law_add_find_remove(sources: Seq<SourceView>, s: SourceView)
    requires
        !has_source(sources, s.name),
    ensures
        source_index(sources.push(s), s.name) == Some(sources.len() as int),
        names_unique(sources) ==> names_unique(sources.push(s)),
        sources.push(s).remove(sources.len() as int) == sources,
        forall|n: Seq<char>| n != s.name ==> #[trigger] source_index(sources.push(s), n) == source_index(sources, n),
{
    let p = sources.push(s);
    assert(p.drop_last() =~= sources);
    lemma_source_index(sources, s.name);
    assert(p.remove(sources.len() as int) =~= sources);
    assert forall|n: Seq<char>| n != s.name implies #[trigger] source_index(p, n) == source_index(sources, n) by {
        lemma_push_keeps_index(sources, s, n);
    }
    if names_unique(sources) {
        assert forall|a: int, b: int| 0 <= a < p.len() && 0 <= b < p.len() && a != b implies p[a].name != p[b].name by {
            if a < sources.len() {
                assert(p[a] == sources[a]);
            }
            if b < sources.len() {
                assert(p[b] == sources[b]);
            }
        }
    }
}

/// Removing a source keeps the names of the rest unique, and no source of
/// that name is left when names were unique.
pub proof fn law_remove_unique(sources: Seq<SourceView>, name: Seq<char>)
    requires
        names_unique(sources),
        source_index(sources, name) is Some,
    ensures
        names_unique(sources.remove(source_index(sources, name)->0)),
        !has_source(sources.remove(source_index(sources, name)->0), name),
{
    let i = source_index(sources, name)->0;
    lemma_source_index(sources, name);
    let r = sources.remove(i);
    assert forall|a: int, b: int| 0 <= a < r.len() && 0 <= b < r.len() && a != b implies r[a].name != r[b].name by {
        let a2 = if a < i { a } else { a + 1 };
        let b2 = if b < i { b } else { b + 1 };
        assert(r[a] == sources[a2]);
        assert(r[b] == sources[b2]);
    }
    assert forall|j: int| 0 <= j < r.len() implies r[j].name != name by {
        let j2 = if j < i { j } else { j + 1 };
        assert(r[j] == sources[j2]);
        assert(j2 != i);
    }
}

} // verus!
