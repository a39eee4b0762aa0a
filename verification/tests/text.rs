use pow::lines::split_lines;
use pow::text::{
    absent_from, contains_text, find_char, format_usize, join_strings, parse_usize,
    split_once_char, str_contains, str_ends_with, str_eq, str_starts_with, trim,
};

fn strings(v: &[&str]) -> Vec<String> {
    v.iter().map(|s| s.to_string()).collect()
}

#[test]
fn parse_accepts_decimal_digits() {
    assert_eq!(parse_usize("8"), Some(8));
    assert_eq!(parse_usize("0"), Some(0));
    assert_eq!(parse_usize("+12"), Some(12));
    assert_eq!(parse_usize("007"), Some(7));
    assert_eq!(parse_usize(&usize::MAX.to_string()), Some(usize::MAX));
}

#[test]
fn parse_refuses_other_text() {
    assert_eq!(parse_usize(""), None);
    assert_eq!(parse_usize("+"), None);
    assert_eq!(parse_usize("abc"), None);
    assert_eq!(parse_usize("-1"), None);
    assert_eq!(parse_usize(" 4"), None);
    assert_eq!(parse_usize("4 "), None);
    assert_eq!(parse_usize("1_000"), None);
    assert_eq!(parse_usize("18446744073709551616"), None);
}

#[test]
fn format_then_parse_gives_the_number_back() {
    for n in [0usize, 1, 9, 10, 42, 4096, 1_000_000, usize::MAX] {
        let s = format_usize(n);
        assert_eq!(s, n.to_string());
        assert_eq!(parse_usize(&s), Some(n));
    }
}

#[test]
fn trim_strips_whitespace_at_both_ends() {
    assert_eq!(trim("  yes \n"), "yes");
    assert_eq!(trim("\t\r\n"), "");
    assert_eq!(trim("a b"), "a b");
    assert_eq!(trim(""), "");
    assert_eq!(trim("\u{3000}x\u{a0}"), "x");
}

#[test]
fn split_once_at_first_separator() {
    assert_eq!(
        split_once_char("a/common", '/'),
        Some(("a".to_string(), "common".to_string()))
    );
    assert_eq!(
        split_once_char("a/b/c", '/'),
        Some(("a".to_string(), "b/c".to_string()))
    );
    assert_eq!(
        split_once_char("/x", '/'),
        Some(("".to_string(), "x".to_string()))
    );
    assert_eq!(split_once_char("web", '/'), None);
}

#[test]
fn find_and_compare_text() {
    assert_eq!(find_char("ab/c", '/'), Some(2));
    assert_eq!(find_char("abc", '/'), None);
    assert!(str_eq("web", "web"));
    assert!(!str_eq("web", "Web"));
    assert!(str_contains("fatal: 'x' is already checked out at", "already checked out"));
    assert!(!str_contains("fatal: bad ref", "already checked out"));
    assert!(str_contains("abc", ""));
    assert!(str_starts_with("gitdir: /x", "gitdir:"));
    assert!(!str_starts_with("git", "gitdir:"));
    assert!(str_ends_with("/bin/zsh", "zsh"));
    assert!(!str_ends_with("/bin/bash", "zsh"));
    assert!(!str_ends_with("sh", "zsh"));
}

#[test]
fn join_with_separator() {
    assert_eq!(join_strings(&strings(&["a", "b", "c"]), ", "), "a, b, c");
    assert_eq!(join_strings(&strings(&["only"]), ", "), "only");
    assert_eq!(join_strings(&Vec::new(), ", "), "");
}

#[test]
fn lines_split_like_str_lines() {
    for text in ["", "a", "a\n", "a\nb", "a\r\nb\r\n", "\n\n", "x\ry\n", "last\r"] {
        let want: Vec<String> = text.lines().map(|l| l.to_string()).collect();
        assert_eq!(split_lines(text), want, "for {text:?}");
    }
}

#[test]
fn positions_absent_from_other_list() {
    let items = strings(&["web", "api", "docs", "api"]);
    let others = strings(&["api"]);
    assert_eq!(absent_from(&items, &others), vec![0, 2]);
    assert_eq!(absent_from(&items, &Vec::new()), vec![0, 1, 2, 3]);
    assert!(contains_text(&others, "api"));
    assert!(!contains_text(&others, "web"));
}
