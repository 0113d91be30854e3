//! The plugins that ship with the program.

use tuzminal::bundled::{bundled_files, bundled_names, install_missing, launch_report};

fn names() -> Vec<String> {
    bundled_names().iter().map(|n| (*n).to_owned()).collect()
}

#[test]
fn a_fresh_directory_gets_every_bundled_plugin() {
    let wanted = install_missing(&names(), &vec![false, false]);
    assert_eq!(wanted, names());
    let report = launch_report(&wanted, &vec![true, true]);
    assert_eq!(report.written, names());
    assert!(report.cleared.is_empty());
    assert_eq!(bundled_files(), vec!["plugin.toml", "init.lua"]);
}

#[test]
fn an_edited_plugin_is_left_alone() {
    let wanted = install_missing(&names(), &vec![true, true]);
    assert!(wanted.is_empty(), "nothing should be rewritten");
    assert!(launch_report(&wanted, &Vec::new()).written.is_empty());
    assert_eq!(
        install_missing(&names(), &vec![true, false]),
        vec!["open-in-ide".to_owned()]
    );
}

#[test]
fn nothing_half_written_stays() {
    let wanted = install_missing(&names(), &vec![false, true]);
    let report = launch_report(&wanted, &vec![false]);
    assert!(report.written.is_empty());
    assert_eq!(report.cleared, vec!["clock".to_owned()]);
}
