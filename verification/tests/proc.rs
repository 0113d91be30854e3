//! What a shell's process tells.

use tuzminal::proc::{display_path, working_directory_link};

#[test]
fn the_home_directory_collapses_to_a_tilde() {
    let home = "/home/tuan";
    assert_eq!(display_path(home, Some(home)), "~");
    assert_eq!(
        display_path("/home/tuan/hobby/tuzminal", Some(home)),
        "~/hobby/tuzminal"
    );
}

#[test]
fn a_path_outside_home_stays_absolute() {
    let home = "/home/tuan";
    assert_eq!(display_path("/etc/hosts", Some(home)), "/etc/hosts");
    assert_eq!(
        display_path("/home/tuan2/src", Some(home)),
        "/home/tuan2/src"
    );
}

#[test]
fn without_a_home_every_path_stays_as_it_is() {
    assert_eq!(display_path("/home/tuan/src", None), "/home/tuan/src");
}

#[test]
fn a_dead_process_reports_nothing_rather_than_failing() {
    let link = working_directory_link(0);
    assert_eq!(std::path::Path::new(&link).read_link().ok(), None);
}

#[test]
fn a_process_is_named_by_its_number() {
    assert_eq!(working_directory_link(4_294_967_295), "/proc/4294967295/cwd");
    assert_eq!(working_directory_link(7), "/proc/7/cwd");
}
