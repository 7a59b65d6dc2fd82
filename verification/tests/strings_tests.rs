use proctor_core::strutil::base_name;
use proctor_core::strutil::path_is_under;
use proctor_core::strutil::rfind_char;
use proctor_core::strutil::str_ends_with;
use proctor_core::strutil::str_eq;
use proctor_core::strutil::str_lex_leq;

#[test]
fn base_name_of_nested_path() {
    assert_eq!(base_name("/home/user/.proctor_workspace/notes.txt"), "notes.txt");
}

#[test]
fn base_name_without_separator() {
    assert_eq!(base_name("notes.txt"), "notes.txt");
}

#[test]
fn base_name_of_empty() {
    assert_eq!(base_name(""), "");
}

#[test]
fn rfind_char_positions() {
    assert_eq!(rfind_char("a/b/c", '/'), Some(3));
    assert_eq!(rfind_char("abc", '/'), None);
}

#[test]
fn str_eq_basic() {
    assert!(str_eq("same", "same"));
    assert!(!str_eq("same", "sane"));
    assert!(!str_eq("long", "longer"));
}

#[test]
fn ends_with_basic() {
    assert!(str_ends_with("file.swp", ".swp"));
    assert!(str_ends_with("backup~", "~"));
    assert!(!str_ends_with("file.txt", ".swp"));
    assert!(!str_ends_with("p", ".swp"));
}

#[test]
fn path_is_under_component_wise() {
    assert!(path_is_under("/a/b/c", "/a/b"));
    assert!(path_is_under("/a/b", "/a/b"));
    assert!(!path_is_under("/a/bc", "/a/b"));
    assert!(!path_is_under("/a", "/a/b"));
}

#[test]
fn lexicographic_order() {
    assert!(str_lex_leq("abc", "abd"));
    assert!(str_lex_leq("ab", "abc"));
    assert!(str_lex_leq("abc", "abc"));
    assert!(!str_lex_leq("b", "abc"));
}
