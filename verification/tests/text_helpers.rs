use mutmut_runner::locate::strip_root;
use mutmut_runner::text::{concat_str, is_prefix, join_path, rfind_char, str_eq};

#[test]
fn join_path_collapses_empty_sides() {
    assert_eq!(join_path("tests", "pkg"), String::from("tests/pkg"));
    assert_eq!(join_path("tests", ""), String::from("tests"));
    assert_eq!(join_path("", "test_a.py"), String::from("test_a.py"));
    assert_eq!(join_path("", ""), String::from(""));
}

#[test]
fn rfind_char_finds_the_last_occurrence() {
    assert_eq!(rfind_char("src/pkg/mod.py", '/'), Some(7));
    assert_eq!(rfind_char("mod.py", '/'), None);
    assert_eq!(rfind_char("archive.tar.gz", '.'), Some(11));
    assert_eq!(rfind_char("", '/'), None);
}

#[test]
fn is_prefix_compares_characters() {
    assert!(is_prefix("mod.cpython-39.pyc", "mod."));
    assert!(!is_prefix("module.pyc", "mod."));
    assert!(is_prefix("anything", ""));
    assert!(!is_prefix("mo", "mod."));
}

#[test]
fn str_eq_is_exact() {
    assert!(str_eq("src", "src"));
    assert!(!str_eq("src", "srcs"));
    assert!(!str_eq("srcs", "src"));
    assert!(str_eq("", ""));
}

#[test]
fn concat_str_appends() {
    assert_eq!(concat_str("src/a.py", ".bak"), String::from("src/a.py.bak"));
}

#[test]
fn strip_root_needs_a_whole_leading_component() {
    assert_eq!(strip_root("src", "src"), Some(String::from("")));
    assert_eq!(strip_root("src", "src/pkg/sub"), Some(String::from("pkg/sub")));
    assert_eq!(strip_root("src", "srcfoo/pkg"), None);
    assert_eq!(strip_root("src", "lib/pkg"), None);
}
