//! Paths as text.

use tuzminal::paths::{file_name, is_same_path, join, parent, strip_prefix};

#[test]
fn going_down_and_back_up_ends_where_it_started() {
    for base in ["/", "/home/me", "/home/me/", "/a//b/./", "src", ""] {
        for name in ["docs", ".hidden", "a b", ".."] {
            let path = join(base, name);
            let up = parent(&path).unwrap();
            assert!(is_same_path(&up, base), "{base:?} {name:?} gave {up:?}");
        }
        assert_eq!(file_name(&join(base, "docs")).as_deref(), Some("docs"));
    }
}

#[test]
fn the_root_and_the_empty_path_have_no_parent() {
    assert_eq!(parent("/"), None);
    assert_eq!(parent(""), None);
    assert_eq!(parent("name").as_deref(), Some(""));
    assert_eq!(file_name("/"), None);
    assert_eq!(file_name("a/.."), None);
}

#[test]
fn an_absolute_path_stands_for_itself() {
    assert_eq!(join("/home/me", "/etc"), "/etc");
    assert_eq!(join("/home/me/", "x"), "/home/me/x");
    assert_eq!(join("", "x"), "x");
}

#[test]
fn only_whole_components_are_a_prefix() {
    assert_eq!(strip_prefix("/home/me/x", "/home/me").as_deref(), Some("x"));
    assert_eq!(strip_prefix("/home/me2/x", "/home/me"), None);
    assert_eq!(strip_prefix("/home/me", "/home/me/").as_deref(), Some(""));
    assert!(is_same_path("/a//b/./c", "/a/b/c"));
    assert!(!is_same_path("/a/b", "a/b"));
}
