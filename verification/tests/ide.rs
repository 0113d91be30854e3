//! Editors a directory can be opened in.

use tuzminal::ide::{available, fallback_target, is_executable, known, on_path, open_command, Ide};

#[test]
fn the_command_quotes_its_path_but_not_itself() {
    let ide = Ide {
        label: "VS Code",
        icon: "VS",
        command: "code",
    };
    let cmd = String::from_utf8(open_command(ide, "/tmp/a b;c")).unwrap();
    assert!(cmd.contains("'/tmp/a b;c'"), "{cmd}");
    assert!(cmd.starts_with("code "), "{cmd}");
    assert!(cmd.ends_with('\r'), "a shell submits on CR");
}

#[test]
fn a_path_with_a_quote_in_it_stays_one_argument() {
    let ide = Ide {
        label: "Zed",
        icon: "Ze",
        command: "zed",
    };
    let cmd = String::from_utf8(open_command(ide, "/tmp/it's")).unwrap();
    assert_eq!(cmd, "zed '/tmp/it'\\''s'\r");
}

#[test]
fn a_command_that_is_not_on_path_is_not_offered() {
    let there = vec!["/tmp/code".to_owned()];
    assert!(!on_path("/tmp", "definitely-not-a-real-editor-xyzzy", &there));
}

#[test]
fn a_file_without_the_execute_bit_does_not_count() {
    assert!(!is_executable(true, 0o644), "a plain file is not a command");
    assert!(is_executable(true, 0o755), "with +x it is");
    assert!(!is_executable(false, 0o755), "a directory is not");

    let there = vec!["/tmp/tuz-ide/code".to_owned()];
    assert!(!on_path("/tmp/tuz-ide", "code", &Vec::new()));
    assert!(on_path("/usr/bin:/tmp/tuz-ide", "code", &there));
}

#[test]
fn every_known_editor_has_a_label_an_icon_and_a_command() {
    for ide in known() {
        assert!(!ide.label.is_empty());
        assert!(!ide.command.is_empty());
        assert!(!ide.command.contains(' '), "{}", ide.command);
        assert!(
            (1..=2).contains(&ide.icon.chars().count()),
            "{} has a {}-character icon",
            ide.label,
            ide.icon.chars().count()
        );
    }
}

#[test]
fn no_two_editors_share_a_monogram() {
    let mut seen = std::collections::BTreeSet::new();
    for ide in known() {
        assert!(seen.insert(ide.icon), "{} is used twice", ide.icon);
    }
}

#[test]
fn detection_does_not_panic_without_a_path() {
    assert!(!on_path("", "code", &Vec::new()));
    assert!(available(None, &Vec::new()).is_empty());
}

#[test]
fn what_is_installed_is_offered_in_order() {
    let there = vec!["/b/zed".to_owned(), "/a/code".to_owned()];
    let list = available(Some("/a:/b"), &there);
    let names: Vec<&str> = list.iter().map(|i| i.command).collect();
    assert_eq!(names, ["code", "zed"]);
}

#[test]
fn an_editor_opens_somewhere() {
    assert_eq!(fallback_target(Some("/src"), Some("/home/me")), "/src");
    assert_eq!(fallback_target(None, Some("/home/me")), "/home/me");
    assert_eq!(fallback_target(None, None), ".");
}
