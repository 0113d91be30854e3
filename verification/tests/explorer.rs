//! The file sidebar.

use tuzminal::explorer::{
    cd_command, editor_command, failure_message, human_size, read_dir, removal, shell_quote,
    sort_entries, Commit, Entry, Explorer, ExplorerOutcome, Listed, Prompt, Removal, MAX_ENTRIES,
};
use tuzminal::widget::{EntryKind, Widget};

#[test]
fn shell_quoting_neutralizes_every_metacharacter() {
    for name in [
        "it's",
        "a;rm -rf b",
        "$(whoami)",
        "`whoami`",
        "a b",
        "a\nb",
        "&& echo pwned",
        "|tee /tmp/x",
        "~/secret",
        "*",
        "",
    ] {
        let quoted = shell_quote(name);
        assert!(
            quoted.starts_with('\'') && quoted.ends_with('\''),
            "{name:?} produced {quoted:?}, which is not a quoted run"
        );
        let inner = &quoted[1..quoted.len() - 1];
        assert!(
            !inner.contains('\'') || inner.contains(r"'\''"),
            "{name:?} produced {quoted:?} with an unescaped quote"
        );
    }
}

#[test]
fn a_quote_in_a_name_is_closed_escaped_and_reopened() {
    assert_eq!(shell_quote("it's"), r"'it'\''s'");
    assert_eq!(shell_quote("'"), r"''\'''");
}

#[test]
fn commands_end_in_a_carriage_return_not_a_newline() {
    let cmd = cd_command("/tmp");
    assert_eq!(cmd.last(), Some(&b'\r'), "a shell submits on CR, not LF");
    assert!(!cmd.contains(&b'\n'));

    let cmd = String::from_utf8(cd_command("/tmp/it's")).unwrap();
    assert_eq!(cmd, "cd '/tmp/it'\\''s'\r");
}

#[test]
fn the_editor_command_quotes_its_argument() {
    let cmd = String::from_utf8(editor_command("/tmp/a b;c")).unwrap();
    assert!(cmd.contains("'/tmp/a b;c'"), "{cmd}");
    assert!(cmd.ends_with('\r'));
}

#[test]
fn no_editor_is_guessed_at() {
    let cmd = String::from_utf8(editor_command("/tmp/a")).unwrap();
    assert_eq!(cmd, "\"$EDITOR\" '/tmp/a'\r");
}

fn entry(name: &str, kind: EntryKind) -> Entry {
    Entry {
        name: name.to_owned(),
        path: name.to_owned(),
        kind,
        size: None,
    }
}

#[test]
fn directories_sort_above_files_and_the_parent_above_both() {
    let mut rows = vec![
        entry("zebra.txt", EntryKind::File),
        entry("src", EntryKind::Directory),
        entry("..", EntryKind::Parent),
        entry("Cargo.toml", EntryKind::File),
        entry("assets", EntryKind::Directory),
    ];
    sort_entries(&mut rows);
    let names: Vec<&str> = rows.iter().map(|e| e.name.as_str()).collect();
    assert_eq!(names, ["..", "assets", "src", "Cargo.toml", "zebra.txt"]);
}

#[test]
fn sorting_ignores_case() {
    let mut rows = vec![
        entry("banana", EntryKind::File),
        entry("Apple", EntryKind::File),
        entry("Cherry", EntryKind::File),
    ];
    sort_entries(&mut rows);
    let names: Vec<&str> = rows.iter().map(|e| e.name.as_str()).collect();
    assert_eq!(names, ["Apple", "banana", "Cherry"]);
}

#[test]
fn names_differing_only_in_case_have_a_stable_total_order() {
    let mut a = vec![
        entry("Makefile", EntryKind::File),
        entry("MAKEFILE", EntryKind::File),
    ];
    let mut b = vec![
        entry("MAKEFILE", EntryKind::File),
        entry("Makefile", EntryKind::File),
    ];
    sort_entries(&mut a);
    sort_entries(&mut b);
    assert_eq!(
        a, b,
        "the same set must sort the same way whatever order it arrives in"
    );
}

#[test]
fn sizes_read_as_sizes() {
    assert_eq!(human_size(0), "0B");
    assert_eq!(human_size(512), "512B");
    assert_eq!(human_size(1024), "1.0K");
    assert_eq!(human_size(1536), "1.5K");
    assert_eq!(human_size(20 * 1024), "20K");
    assert_eq!(human_size(5 * 1024 * 1024), "5.0M");
}


/// A directory tree held in memory.
struct Disk {
    root: String,
    /// Paths, and whether each is a link and a directory.
    items: Vec<(String, bool, bool)>,
}

impl Disk {
    fn new(tag: &str) -> Self {
        Disk { root: format!("/tmp/tuz-explorer-{tag}"), items: Vec::new() }
    }

    fn path(&self, name: &str) -> String {
        format!("{}/{name}", self.root)
    }

    fn file(&mut self, name: &str) {
        let path = self.path(name);
        self.items.push((path, false, false));
    }

    fn dir(&mut self, name: &str) {
        let path = self.path(name);
        self.items.push((path, false, true));
    }

    fn link(&mut self, name: &str) {
        let path = self.path(name);
        self.items.push((path, true, false));
    }

    fn has(&self, path: &str) -> bool {
        self.items.iter().any(|i| i.0 == path)
    }

    fn list(&self, dir: &str) -> Option<Vec<Listed>> {
        Some(
            self.items
                .iter()
                .filter(|i| i.0.rsplit_once('/').map(|p| p.0) == Some(dir))
                .map(|i| Listed {
                    name: i.0.rsplit_once('/').unwrap().1.to_owned(),
                    path: i.0.clone(),
                    link: i.1,
                    dir: i.2,
                    size: Some(1),
                })
                .collect(),
        )
    }

    fn inside(&self, path: &str) -> usize {
        self.list(path).unwrap().len()
    }

    /// Carry a commit out, and show the result.
    fn apply(&mut self, ex: &mut Explorer, commit: &Commit) {
        match commit {
            Commit::Rename { from, to } => {
                for item in self.items.iter_mut() {
                    if item.0 == *from {
                        item.0 = to.clone();
                    }
                }
            }
            Commit::CreateFolder(path) => self.items.push((path.clone(), false, true)),
            Commit::Delete(path) => {
                let inside = format!("{path}/");
                self.items.retain(|i| i.0 != *path && !i.0.starts_with(&inside));
            }
            Commit::Nothing | Commit::Refused(_) => {}
        }
        ex.refresh(self.list(ex.dir()));
    }

    fn open(&self) -> Explorer {
        Explorer::open(&self.root, false, self.list(&self.root))
    }
}

fn select(ex: &mut Explorer, name: &str) {
    ex.selected = ex.entries.iter().position(|e| e.name == name).unwrap();
}

fn retype(ex: &mut Explorer, old: &str, new: &str) {
    for _ in 0..old.len() {
        ex.prompt_backspace();
    }
    ex.prompt_input(new);
}

#[test]
fn hidden_files_appear_only_when_asked_for() {
    let mut disk = Disk::new("hidden");
    disk.file("visible.txt");
    disk.file(".hidden");

    let (shown, _) = read_dir(&disk.root, disk.list(&disk.root), false);
    assert!(shown.iter().all(|e| e.name != ".hidden"));
    assert!(shown.iter().any(|e| e.name == "visible.txt"));

    let (all, _) = read_dir(&disk.root, disk.list(&disk.root), true);
    assert!(all.iter().any(|e| e.name == ".hidden"));
}

#[test]
fn an_unreadable_directory_lists_as_empty_rather_than_failing() {
    let (entries, truncated) = read_dir("/nonexistent-tuzminal-path", None, false);
    assert_eq!(truncated, 0);
    assert!(entries.iter().all(|e| e.kind == EntryKind::Parent));
    assert_eq!(entries.len(), 1);
}

#[test]
fn the_root_directory_has_no_parent_row() {
    let (entries, _) = read_dir("/", Some(Vec::new()), false);
    assert!(
        entries.iter().all(|e| e.kind != EntryKind::Parent),
        "`/` has no parent, so offering one would navigate nowhere"
    );
}

#[test]
fn create_rename_and_delete_round_trip() {
    let mut disk = Disk::new("ops");
    let mut ex = disk.open();

    ex.begin_new_folder();
    ex.prompt_input("work");
    let commit = ex.commit_prompt(false, false);
    assert_eq!(commit, Commit::CreateFolder(disk.path("work")));
    disk.apply(&mut ex, &commit);
    assert!(disk.has(&disk.path("work")));

    select(&mut ex, "work");
    assert!(ex.begin_rename());
    retype(&mut ex, "work", "done");
    let commit = ex.commit_prompt(false, false);
    assert_eq!(
        commit,
        Commit::Rename { from: disk.path("work"), to: disk.path("done") }
    );
    disk.apply(&mut ex, &commit);
    assert!(disk.has(&disk.path("done")));
    assert!(!disk.has(&disk.path("work")));

    disk.file("done/file.txt");
    ex.refresh(disk.list(ex.dir()));
    select(&mut ex, "done");
    assert!(ex.begin_delete(disk.inside(&disk.path("done"))));
    match ex.prompt() {
        Some(Prompt::Delete { entries, .. }) => {
            assert_eq!(
                *entries, 1,
                "the prompt must say what it is about to destroy"
            )
        }
        other => panic!("expected a delete prompt, got {other:?}"),
    }
    let commit = ex.commit_prompt(false, false);
    assert_eq!(commit, Commit::Delete(disk.path("done")));
    disk.apply(&mut ex, &commit);
    assert!(!disk.has(&disk.path("done")));
}

#[test]
fn deleting_a_symlink_to_a_directory_does_not_touch_the_target() {
    // What the path itself is decides, not what it points at: a link is one file.
    assert_eq!(removal(false), Removal::Single);
    assert_eq!(removal(true), Removal::Tree);
}

#[test]
fn a_symlink_lists_as_a_link_not_as_its_target() {
    let mut disk = Disk::new("symkind");
    disk.dir("real");
    disk.link("link");

    let (entries, _) = read_dir(&disk.root, disk.list(&disk.root), false);
    let link = entries.iter().find(|e| e.name == "link").unwrap();
    assert_eq!(link.kind, EntryKind::Symlink);
}

#[test]
fn a_broken_symlink_lists_rather_than_disappearing() {
    let listed = Listed {
        name: "dangling".to_owned(),
        path: "/tmp/dangling".to_owned(),
        link: true,
        dir: false,
        size: None,
    };
    let (entries, _) = read_dir("/tmp", Some(vec![listed]), false);
    assert!(
        entries.iter().any(|e| e.name == "dangling"),
        "a link with no target is still a thing you can see and delete"
    );
}

#[test]
fn renaming_onto_an_existing_name_is_refused() {
    let mut disk = Disk::new("clobber");
    disk.file("keep.txt");
    disk.file("other.txt");

    let mut ex = disk.open();
    select(&mut ex, "other.txt");
    assert!(ex.begin_rename());
    retype(&mut ex, "other.txt", "keep.txt");

    let target = ex.rename_target(false).unwrap();
    assert_eq!(target, disk.path("keep.txt"));
    let commit = ex.commit_prompt(disk.has(&target), false);
    assert_eq!(commit, Commit::Refused("keep.txt already exists".to_owned()));
    assert!(
        ex.prompt().is_some(),
        "and the prompt stays open to be corrected"
    );
}

#[test]
fn a_rename_cannot_become_a_move() {
    let mut disk = Disk::new("escape");
    disk.file("a.txt");
    let mut ex = disk.open();
    select(&mut ex, "a.txt");
    assert!(ex.begin_rename());
    retype(&mut ex, "a.txt", "../escaped.txt");
    assert_eq!(
        ex.commit_prompt(false, false),
        Commit::Refused("a name cannot contain a path separator".to_owned())
    );
}

#[test]
fn an_empty_name_is_refused_and_keeps_the_prompt_open() {
    let disk = Disk::new("empty");
    let mut ex = disk.open();

    ex.begin_new_folder();
    ex.prompt_input("   ");
    assert!(matches!(ex.commit_prompt(false, false), Commit::Refused(_)));
    assert!(ex.prompt().is_some());
}

#[test]
fn escape_cancels_a_prompt_without_touching_the_filesystem() {
    let disk = Disk::new("cancel");
    let mut ex = disk.open();

    ex.begin_new_folder();
    ex.prompt_input("nope");
    assert!(ex.cancel_prompt());
    assert!(ex.prompt().is_none());
    assert_eq!(ex.commit_prompt(false, false), Commit::Nothing);
    assert!(!ex.cancel_prompt(), "cancelling twice is not a cancel");
}

#[test]
fn navigating_into_a_directory_and_back_out_lands_where_it_started() {
    let mut disk = Disk::new("nav");
    disk.dir("child");
    let mut ex = disk.open();

    select(&mut ex, "child");
    assert_eq!(ex.activate(), ExplorerOutcome::Enter(disk.path("child")));
    ex.arrive(&disk.path("child"), disk.list(&disk.path("child")));
    assert_eq!(ex.dir(), disk.path("child"));

    let up = ex.go_up().unwrap();
    ex.arrive(&up, disk.list(&up));
    assert_eq!(ex.dir(), disk.root);
}

#[test]
fn activating_a_file_opens_it_rather_than_navigating() {
    let mut disk = Disk::new("file");
    disk.file("notes.txt");
    let mut ex = disk.open();

    select(&mut ex, "notes.txt");
    assert_eq!(
        ex.activate(),
        ExplorerOutcome::OpenEditor(disk.path("notes.txt"))
    );
    assert_eq!(
        ex.dir(),
        disk.root,
        "activating a file must not change directory"
    );
}

#[test]
fn moving_the_selection_marks_exactly_one_row_selected() {
    let mut disk = Disk::new("selected");
    for name in ["a", "b", "c"] {
        disk.file(name);
    }
    let mut ex = disk.open();

    let marked = |ex: &Explorer| -> Vec<usize> {
        ex.widgets()
            .iter()
            .enumerate()
            .filter_map(|(i, w)| match w {
                Widget::Entry { selected: true, .. } => Some(i),
                _ => None,
            })
            .collect()
    };

    assert_eq!(marked(&ex), vec![0]);
    ex.move_selection(1);
    assert_eq!(marked(&ex), vec![1], "exactly one row, and it moved");
    ex.move_selection(1);
    assert_eq!(marked(&ex), vec![2]);
}

#[test]
fn the_selection_clamps_instead_of_running_off_either_end() {
    let mut disk = Disk::new("clamp");
    disk.file("a");
    let mut ex = disk.open();

    assert!(!ex.move_selection(-1), "already at the top");
    ex.move_selection(1000);
    assert_eq!(ex.selected, ex.entries.len() - 1);
    assert!(!ex.move_selection(1), "already at the bottom");
}

#[test]
fn the_parent_row_cannot_be_renamed_or_deleted() {
    let disk = Disk::new("parent");
    let mut ex = disk.open();
    ex.selected = ex
        .entries
        .iter()
        .position(|e| e.kind == EntryKind::Parent)
        .expect("a temp dir has a parent");

    assert!(!ex.begin_rename());
    assert!(!ex.begin_delete(0));
    assert!(ex.prompt().is_none());
}

#[test]
fn lowercasing_reaches_past_ascii() {
    // A letter that is not ASCII still sorts with its lower-case form.
    let mut rows = vec![
        entry("\u{d6}b", EntryKind::File),
        entry("\u{f6}a", EntryKind::File),
        entry("\u{d6}a", EntryKind::File),
    ];
    sort_entries(&mut rows);
    let names: Vec<&str> = rows.iter().map(|e| e.name.as_str()).collect();
    assert_eq!(names, ["\u{d6}a", "\u{f6}a", "\u{d6}b"]);
}

#[test]
fn a_long_directory_is_cut_and_the_rest_counted() {
    let listed = (0..6000)
        .map(|i| Listed {
            name: format!("f{i:05}"),
            path: format!("/d/f{i:05}"),
            link: false,
            dir: false,
            size: Some(i),
        })
        .collect();
    let (entries, truncated) = read_dir("/d", Some(listed), false);
    assert_eq!(entries.len(), MAX_ENTRIES + 1);
    assert_eq!(truncated, 6000 - MAX_ENTRIES);
    assert_eq!(entries[0].kind, EntryKind::Parent);
    assert_eq!(entries[1].name, "f00000");
}

#[test]
fn a_failed_step_says_what_failed() {
    let commit = Commit::CreateFolder("/d/x".to_owned());
    let text = failure_message(&commit, "denied");
    assert!(text.contains("denied"), "{text}");
}
