//! The entry in the desktop's menu.

use tuzminal::desktop::{data_home, entry_contents, install_paths, ENTRY_NAME};
use tuzminal::window::APP_ID;

#[test]
fn both_files_land_where_the_spec_says() {
    let out = install_paths("/data");
    assert_eq!(out.entry, "/data/applications/tuzminal.desktop");
    assert_eq!(out.icon, "/data/icons/hicolor/scalable/apps/tuzminal.svg");
}

#[test]
fn exec_is_absolute_so_the_launcher_can_find_it() {
    let contents = entry_contents("/home/me/.cargo/bin/tuzminal");
    assert!(
        contents.contains("Exec=/home/me/.cargo/bin/tuzminal"),
        "{contents}"
    );
}

#[test]
fn the_window_class_matches_the_entry_name() {
    let contents = entry_contents("/usr/bin/tuzminal");
    assert!(contents.contains(&format!("StartupWMClass={ENTRY_NAME}")));
    assert_eq!(ENTRY_NAME, APP_ID);
}

#[test]
fn installing_twice_overwrites_rather_than_failing() {
    let mut disk = std::collections::BTreeMap::new();
    disk.insert(install_paths("/data").entry, entry_contents("/old/tuzminal"));
    disk.insert(install_paths("/data").entry, entry_contents("/new/tuzminal"));
    assert_eq!(disk.len(), 1);
    let contents = &disk["/data/applications/tuzminal.desktop"];
    assert!(contents.contains("Exec=/new/tuzminal"), "{contents}");
    assert!(!contents.contains("/old/tuzminal"), "{contents}");
}

#[test]
fn xdg_data_home_wins_when_it_is_set_to_something() {
    let empty = data_home(Some(""), Some("/home/me"));
    assert!(empty.as_deref().is_some_and(|p| p.starts_with('/')));
    assert_eq!(empty.as_deref(), Some("/home/me/.local/share"));

    assert_eq!(
        data_home(Some("/custom/share"), Some("/home/me")).as_deref(),
        Some("/custom/share")
    );
    assert_eq!(data_home(None, None), None);
}
