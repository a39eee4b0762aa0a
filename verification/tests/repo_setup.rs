use pow::repo_setup::{copy_plan, is_safe_relative, setup_from_parsed, CopyStep};

#[test]
fn safe_relative_paths() {
    assert!(is_safe_relative(".env"));
    assert!(is_safe_relative("config/local.yml"));
    assert!(is_safe_relative("./.env"));
    assert!(!is_safe_relative("/etc/passwd"));
    assert!(!is_safe_relative("../escape"));
    assert!(!is_safe_relative("a/../b"));
}

#[test]
fn dots_inside_names_are_safe() {
    assert!(is_safe_relative("a..b"));
    assert!(is_safe_relative("..a/b"));
    assert!(is_safe_relative("a/b.."));
    assert!(!is_safe_relative(".."));
    assert!(!is_safe_relative("a/.."));
    assert!(!is_safe_relative("a/../"));
    assert!(is_safe_relative(""));
}

#[test]
fn empty_setup_is_none() {
    assert!(setup_from_parsed(Vec::new(), Vec::new()).is_none());
    let s = setup_from_parsed(vec!["npm i".into()], vec![".env".into()]).expect("expected Some");
    assert_eq!(s.commands, vec!["npm i".to_string()]);
    assert_eq!(s.copy, vec![".env".to_string()]);
}

#[test]
fn copy_plan_skips_unsafe_paths() {
    let files = vec![".env".to_string(), "../x".to_string(), "cfg/a.yml".to_string()];
    let plan = copy_plan("/src/web", "/ws/web/", &files);
    assert_eq!(plan.len(), 3);
    match &plan[0] {
        CopyStep::Copy { rel, from, to } => {
            assert_eq!(rel, ".env");
            assert_eq!(from, "/src/web/.env");
            assert_eq!(to, "/ws/web/.env");
        }
        _ => panic!("expected a copy"),
    }
    assert!(matches!(&plan[1], CopyStep::Unsafe { rel } if rel == "../x"));
    assert!(matches!(&plan[2], CopyStep::Copy { to, .. } if to == "/ws/web/cfg/a.yml"));
}
