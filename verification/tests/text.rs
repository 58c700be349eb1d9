use mink::paths::{display_label, file_label, join_path, strip_path};
use mink::sets::NameSet;
use mink::text::{
    contains, decimal_of, join, lines, parse_digits, replace, split_char, strip_prefix,
    to_ascii_lower, to_ascii_upper, trim,
};
use mink::tool_args::ToolArgs;

#[test]
fn space_is_trimmed_as_unicode_has_it() {
    for text in ["  a b \t\n", "\u{a0}a b\u{3000}", "a b", "", "  \u{2003} "] {
        assert_eq!(trim(text), text.trim());
    }
}

#[test]
fn lines_end_as_they_do_in_std() {
    for text in ["a\nb", "a\r\nb\r\n", "\n\n", "", "a\rb\n", "x\n"] {
        assert_eq!(lines(text), text.lines().collect::<Vec<_>>());
    }
}

#[test]
fn texts_are_replaced_and_split_as_in_std() {
    assert_eq!(replace("aXbXXc", "X", "--"), "aXbXXc".replace("X", "--"));
    assert_eq!(replace("aaa", "aa", "b"), "aaa".replace("aa", "b"));
    assert_eq!(split_char("a,b,,c", ','), "a,b,,c".split(',').collect::<Vec<_>>());
    assert_eq!(join(&vec!["a".into(), "b".into()], ", "), "a, b");
    assert_eq!(strip_prefix("prefix-x", "prefix-").as_deref(), Some("x"));
    assert_eq!(strip_prefix("x", "prefix-"), None);
    assert!(contains("hello", "ell"));
    assert!(!contains("hello", "elo"));
    assert!(contains("", ""));
}

#[test]
fn case_is_changed_in_ascii_alone() {
    assert_eq!(to_ascii_lower("AbCÄ"), "abcÄ");
    assert_eq!(to_ascii_upper("aBcä"), "ABCä");
}

#[test]
fn numbers_are_written_and_read() {
    for n in [0, 9, 10, 12345, u64::MAX] {
        assert_eq!(decimal_of(n), n.to_string());
        assert_eq!(parse_digits(&n.to_string()), Some(n));
    }
    for text in ["", "-1", "1x", "18446744073709551616"] {
        assert_eq!(parse_digits(text), None);
    }
}

#[test]
fn names_are_kept_in_order() {
    let mut names = NameSet::new();
    assert!(names.insert("b"));
    assert!(names.insert("a"));
    assert!(!names.insert("b"));
    assert_eq!(names.names(), &vec!["a".to_string(), "b".to_string()]);
}

#[test]
fn first_value_of_an_argument_stays() {
    let args = ToolArgs::new().with("a", "1").with("a", "2");
    assert_eq!(args.get("a").unwrap(), "1");
    assert!(args.get("b").is_none());
}

#[test]
fn paths_are_put_together_and_shown() {
    assert_eq!(join_path("/w", "skills"), "/w/skills");
    assert_eq!(strip_path("/w/a/b", "/w").as_deref(), Some("a/b"));
    assert_eq!(strip_path("/other", "/w"), None);
    assert_eq!(file_label("/w/a/b.md"), "b.md");
    assert_eq!(display_label("/w/skills", "/w", "/h"), "skills");
    for (path, base, rest) in [
        ("/w/a//b/", "/w", Some("a//b")),
        ("/w//./a/./b/.", "/w/", Some("a/./b")),
        ("/w", "/w/.", Some("")),
        ("/w/a", "/", Some("w/a")),
        ("./a/b", ".", Some("a/b")),
        ("./a/b", "a", None),
        ("a/b", "./a", None),
        ("./a/", "", Some("./a")),
        ("/a/", "", Some("/a")),
        ("//", "", Some("/")),
        ("a", "/", None),
    ] {
        assert_eq!(strip_path(path, base).as_deref(), rest, "{path} {base}");
        let shown = std::path::Path::new(path).strip_prefix(base).ok();
        assert_eq!(shown.map(|p| p.display().to_string()).as_deref(), rest, "{path} {base}");
    }
    for path in ["a/b", "a/..", ".", "/", "./a/.", ""] {
        let name = std::path::Path::new(path).file_name();
        let shown = name.map_or(path.to_string(), |n| n.to_string_lossy().to_string());
        assert_eq!(file_label(path), shown, "{path}");
    }
}
