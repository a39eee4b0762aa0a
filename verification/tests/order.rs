use pow::order::{sort_by_name, sorted_unique_names, str_le};
use pow::workspace::WorkspaceSummary;

fn strings(v: &[&str]) -> Vec<String> {
    v.iter().map(|s| s.to_string()).collect()
}

#[test]
fn names_sort_like_str_ordering() {
    let mut want = strings(&["web", "API", "api", "Web", "a", "", "é", "z"]);
    let got = sort_by_name(want.clone());
    want.sort();
    assert_eq!(got, want);
    assert!(str_le("a", "b"));
    assert!(str_le("a", "a"));
    assert!(str_le("", "a"));
    assert!(!str_le("b", "a"));
    assert!(str_le("ab", "abc"));
    assert!(!str_le("abc", "ab"));
}

#[test]
fn summaries_sorted_by_name() {
    let make = |n: &str| WorkspaceSummary {
        name: n.to_string(),
        path: format!("/ws/{n}"),
        entry_count: 0,
        active: false,
    };
    let got = sort_by_name(vec![make("zeta"), make("alpha"), make("mid")]);
    let names: Vec<&str> = got.iter().map(|s| s.name.as_str()).collect();
    assert_eq!(names, ["alpha", "mid", "zeta"]);
}

#[test]
fn unique_names_like_btreeset() {
    let input = strings(&["web", "api", "web", "Api", "api"]);
    let want: Vec<String> = input
        .iter()
        .cloned()
        .collect::<std::collections::BTreeSet<_>>()
        .into_iter()
        .collect();
    assert_eq!(sorted_unique_names(input), want);
    assert!(sorted_unique_names(Vec::new()).is_empty());
}

#[test]
fn equal_names_keep_their_order() {
    let make = |n: &str, p: &str| WorkspaceSummary {
        name: n.to_string(),
        path: p.to_string(),
        entry_count: 0,
        active: false,
    };
    let got = sort_by_name(vec![
        make("b", "1"),
        make("a", "2"),
        make("b", "3"),
        make("a", "4"),
    ]);
    let paths: Vec<&str> = got.iter().map(|s| s.path.as_str()).collect();
    assert_eq!(paths, ["2", "4", "1", "3"]);
}
