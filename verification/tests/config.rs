use pow::config::{config_keys, get_value, set_value, Config, Source, Template};
use pow::error::PowError;

fn source(name: &str) -> Source {
    Source {
        name: name.to_string(),
        path: format!("/src/{name}"),
        github_org: None,
        base_branch: "main".to_string(),
        skip_archived: true,
        include_globs: Vec::new(),
        exclude_globs: Vec::new(),
    }
}

fn config_message(e: PowError) -> String {
    match e {
        PowError::Config(m) => m,
        other => panic!("expected a config error, got {other:?}"),
    }
}

#[test]
fn config_keys_match_config_module() {
    assert_eq!(
        config_keys(),
        vec!["settings.default_source", "settings.parallel", "github.token",]
    );
}

#[test]
fn get_and_set_values() {
    let mut cfg = Config::default();
    set_value(&mut cfg, "settings.parallel", "8").unwrap();
    assert_eq!(cfg.settings.parallel, 8);
    assert_eq!(get_value(&cfg, "settings.parallel").unwrap(), "8");

    set_value(&mut cfg, "settings.default_source", "babylist").unwrap();
    assert_eq!(get_value(&cfg, "settings.default_source").unwrap(), "babylist");

    set_value(&mut cfg, "github.token", "ghp_test").unwrap();
    assert_eq!(get_value(&cfg, "github.token").unwrap(), "ghp_test");

    assert!(set_value(&mut cfg, "bogus.key", "x").is_err());
    assert!(set_value(&mut cfg, "settings.parallel", "0").is_err());
    assert!(set_value(&mut cfg, "settings.parallel", "abc").is_err());
}

#[test]
fn default_config_values() {
    let cfg = Config::default();
    assert_eq!(cfg.settings.parallel, 4);
    assert!(cfg.settings.default_source.is_none());
    assert!(cfg.github.token.is_none());
    assert!(cfg.sources.is_empty());
    assert!(cfg.templates.is_empty());
    assert_eq!(get_value(&cfg, "settings.default_source").unwrap(), "");
    assert_eq!(get_value(&cfg, "github.token").unwrap(), "");
    assert_eq!(get_value(&cfg, "settings.parallel").unwrap(), "4");
}

#[test]
fn unknown_key_errors_name_the_valid_keys() {
    let mut cfg = Config::default();
    let e = get_value(&cfg, "nope").unwrap_err();
    assert_eq!(
        config_message(e),
        "unknown config key 'nope'. Valid keys: settings.default_source, settings.parallel, github.token"
    );
    let e = set_value(&mut cfg, "nope", "1").unwrap_err();
    assert_eq!(e.exit_code(), 1);
    assert_eq!(cfg.settings.parallel, 4);
}

#[test]
fn parallel_errors() {
    let mut cfg = Config::default();
    let e = set_value(&mut cfg, "settings.parallel", "abc").unwrap_err();
    assert_eq!(
        config_message(e),
        "settings.parallel must be a positive integer, got 'abc'"
    );
    let e = set_value(&mut cfg, "settings.parallel", "0").unwrap_err();
    assert_eq!(config_message(e), "settings.parallel must be >= 1");
    assert!(set_value(&mut cfg, "settings.parallel", "-3").is_err());
    assert!(set_value(&mut cfg, "settings.parallel", "+").is_err());
    assert!(set_value(&mut cfg, "settings.parallel", "").is_err());
    assert!(set_value(&mut cfg, "settings.parallel", " 3").is_err());
    assert!(set_value(&mut cfg, "settings.parallel", "99999999999999999999999").is_err());
    assert_eq!(cfg.settings.parallel, 4);
}

#[test]
fn parallel_reads_back_in_plain_decimal() {
    let mut cfg = Config::default();
    set_value(&mut cfg, "settings.parallel", "+007").unwrap();
    assert_eq!(cfg.settings.parallel, 7);
    assert_eq!(get_value(&cfg, "settings.parallel").unwrap(), "7");
    set_value(&mut cfg, "settings.parallel", "18446744073709551615").unwrap();
    assert_eq!(get_value(&cfg, "settings.parallel").unwrap(), "18446744073709551615");
}

#[test]
fn empty_value_clears_optional_settings() {
    let mut cfg = Config::default();
    set_value(&mut cfg, "github.token", "abc").unwrap();
    set_value(&mut cfg, "github.token", "").unwrap();
    assert!(cfg.github.token.is_none());
    set_value(&mut cfg, "settings.default_source", "x").unwrap();
    set_value(&mut cfg, "settings.default_source", "").unwrap();
    assert!(cfg.settings.default_source.is_none());
}

#[test]
fn setting_one_key_leaves_the_others() {
    let mut cfg = Config::default();
    set_value(&mut cfg, "github.token", "t").unwrap();
    set_value(&mut cfg, "settings.parallel", "2").unwrap();
    assert_eq!(get_value(&cfg, "github.token").unwrap(), "t");
    assert_eq!(get_value(&cfg, "settings.default_source").unwrap(), "");
}

#[test]
fn set_what_get_gives_changes_nothing() {
    let mut cfg = Config::default();
    set_value(&mut cfg, "settings.default_source", "babylist").unwrap();
    for key in config_keys() {
        let v = get_value(&cfg, key).unwrap();
        set_value(&mut cfg, key, &v).unwrap();
        assert_eq!(get_value(&cfg, key).unwrap(), v);
    }
    assert_eq!(cfg.settings.parallel, 4);
    assert_eq!(cfg.settings.default_source.as_deref(), Some("babylist"));
    assert!(cfg.github.token.is_none());
}

#[test]
fn add_find_remove_sources() {
    let mut cfg = Config::default();
    cfg.add_source(source("a")).unwrap();
    cfg.add_source(source("b")).unwrap();
    assert_eq!(cfg.find_source("b").unwrap().path, "/src/b");
    assert!(cfg.find_source("c").is_none());

    let e = cfg.add_source(source("a")).unwrap_err();
    assert_eq!(config_message(e), "source 'a' already exists");
    assert_eq!(cfg.sources.len(), 2);

    cfg.find_source_mut("a").unwrap().base_branch = "develop".to_string();
    assert_eq!(cfg.find_source("a").unwrap().base_branch, "develop");
    assert!(cfg.find_source_mut("zzz").is_none());

    let removed = cfg.remove_source("a").unwrap();
    assert_eq!(removed.name, "a");
    assert_eq!(cfg.sources.len(), 1);
    assert!(cfg.find_source("a").is_none());

    match cfg.remove_source("a") {
        Err(PowError::SourceNotFound(m)) => assert_eq!(m, "a"),
        _ => panic!("expected SourceNotFound"),
    }
    assert_eq!(PowError::SourceNotFound("a".into()).exit_code(), 4);
}

#[test]
fn load_defaults_replace_zero_parallel() {
    let mut cfg = Config::default();
    cfg.settings.parallel = 0;
    cfg.apply_load_defaults();
    assert_eq!(cfg.settings.parallel, 4);
    cfg.settings.parallel = 9;
    cfg.apply_load_defaults();
    assert_eq!(cfg.settings.parallel, 9);
}

#[test]
fn templates_are_found_by_name() {
    let mut cfg = Config::default();
    cfg.templates.push(Template { name: "frontend".into(), repos: vec!["babylist/web".into()] });
    assert_eq!(pow::template::find_template(&cfg, "frontend"), Some(0));
    assert_eq!(pow::template::find_template(&cfg, "nope"), None);
    let e = pow::template::template_not_found("nope");
    assert!(e.to_display().contains("template 'nope' not found"));
}

#[test]
fn source_expanded_path_keeps_plain_paths() {
    let s = source("plain");
    assert_eq!(s.expanded_path().unwrap(), "/src/plain");
}

#[test]
fn new_source_names_must_be_free() {
    let mut cfg = Config::default();
    assert!(cfg.check_new_source("a").is_ok());
    cfg.add_source(source("a")).unwrap();
    assert_eq!(config_message(cfg.check_new_source("a").unwrap_err()), "source 'a' already exists");
    assert_eq!(config_message(cfg.add_source(source("a")).unwrap_err()), "source 'a' already exists");
    assert_eq!(cfg.sources.len(), 1);
}
