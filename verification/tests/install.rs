//! The order of an install.

use tuzminal::install::{install_step, Ending, Install, InstallAction, InstallEvent, Stage};
use tuzminal::pkg::{Kind, Manifest, RegistryEntry, Runtime};

const URL: &str = "https://host/a/thing.git";

fn manifest() -> Manifest {
    Manifest {
        name: "thing".to_owned(),
        version: "1.0.0".to_owned(),
        runtime: Runtime::Lua,
        entry: "init.lua".to_owned(),
        description: String::new(),
        permissions: vec!["read files".to_owned()],
    }
}

/// An install of a plugin whose manifest was read and whose entry is there.
fn shown(yes: bool) -> Install {
    let mut state = Install::new(Kind::Plugin, "/data", URL, yes);
    assert_eq!(
        install_step(&mut state, InstallEvent::Begin),
        InstallAction::LookFor("/data/plugins/thing".to_owned())
    );
    assert_eq!(
        install_step(&mut state, InstallEvent::Found(false)),
        InstallAction::Clear("/data/.staging-thing".to_owned())
    );
    let cloning = install_step(&mut state, InstallEvent::Done);
    assert!(matches!(cloning, InstallAction::Clone(url, words) if url == URL && words.len() == 5));
    assert_eq!(
        install_step(&mut state, InstallEvent::Ran(Ok(()))),
        InstallAction::ReadManifest("/data/.staging-thing".to_owned())
    );
    assert_eq!(
        install_step(&mut state, InstallEvent::Manifest(Ok(manifest()))),
        InstallAction::LookForFile("/data/.staging-thing/init.lua".to_owned())
    );
    match install_step(&mut state, InstallEvent::Found(true)) {
        InstallAction::Show(lines) => {
            assert!(lines.contains(&"    - read files".to_owned()), "{lines:?}");
        }
        other => panic!("{other:?}"),
    }
    state
}

fn finish(state: &mut Install) {
    assert_eq!(
        install_step(state, InstallEvent::Ran(Ok(()))),
        InstallAction::Move(
            "/data/.staging-thing".to_owned(),
            "/data/plugins/thing".to_owned()
        )
    );
    assert_eq!(
        install_step(state, InstallEvent::Ran(Ok(()))),
        InstallAction::Finish(Ending::Installed("installed plugin `thing`".to_owned()))
    );
    assert_eq!(state.stage, Stage::Over);
}

#[test]
fn a_plugin_is_written_once_it_is_agreed_to() {
    let mut state = shown(false);
    assert_eq!(
        install_step(&mut state, InstallEvent::Done),
        InstallAction::Ask("install? [y/N] ".to_owned())
    );
    assert_eq!(
        install_step(&mut state, InstallEvent::Answer(Ok("Yes\n".to_owned()))),
        InstallAction::CreateRoot("/data/plugins".to_owned())
    );
    finish(&mut state);
}

#[test]
fn a_scripted_install_is_shown_and_not_asked_about() {
    let mut state = shown(true);
    assert_eq!(
        install_step(&mut state, InstallEvent::Done),
        InstallAction::CreateRoot("/data/plugins".to_owned())
    );
    finish(&mut state);
}

#[test]
fn a_refusal_only_removes_the_clone() {
    let mut state = shown(false);
    install_step(&mut state, InstallEvent::Done);
    assert_eq!(
        install_step(&mut state, InstallEvent::Answer(Ok("n\n".to_owned()))),
        InstallAction::RemoveClone("/data/.staging-thing".to_owned())
    );
    assert_eq!(
        install_step(&mut state, InstallEvent::Done),
        InstallAction::Finish(Ending::Cancelled("cancelled; nothing was installed".to_owned()))
    );
    assert_eq!(install_step(&mut state, InstallEvent::Done), InstallAction::Nothing);
}

#[test]
fn every_failure_says_why() {
    let mut state = Install::new(Kind::Plugin, "/data", "https://host/a/..", false);
    assert_eq!(
        install_step(&mut state, InstallEvent::Begin),
        InstallAction::Finish(Ending::Failed("`..` is not a usable directory name".to_owned()))
    );

    let mut state = Install::new(Kind::Plugin, "/data", URL, false);
    install_step(&mut state, InstallEvent::Begin);
    assert!(matches!(
        install_step(&mut state, InstallEvent::Found(true)),
        InstallAction::Finish(Ending::Failed(why)) if why.contains("already installed at")
    ));

    let mut state = shown(false);
    install_step(&mut state, InstallEvent::Done);
    install_step(&mut state, InstallEvent::Answer(Err("no terminal".to_owned())));
    assert_eq!(
        install_step(&mut state, InstallEvent::Done),
        InstallAction::Finish(Ending::Failed("no terminal".to_owned()))
    );

    let mut state = shown(true);
    install_step(&mut state, InstallEvent::Done);
    assert_eq!(
        install_step(&mut state, InstallEvent::Ran(Err("disk full".to_owned()))),
        InstallAction::RemoveClone("/data/.staging-thing".to_owned())
    );
}

#[test]
fn a_name_is_looked_up_and_a_theme_is_counted() {
    let mut state = Install::new(Kind::Theme, "/data", "dracula", false);
    assert_eq!(
        install_step(&mut state, InstallEvent::Begin),
        InstallAction::ReadIndex(Kind::Theme)
    );
    let table = vec![RegistryEntry {
        name: "dracula".to_owned(),
        url: "https://host/theme-dracula".to_owned(),
        description: String::new(),
    }];
    assert_eq!(
        install_step(&mut state, InstallEvent::Index(Ok(table))),
        InstallAction::LookFor("/data/themes/theme-dracula".to_owned())
    );
    install_step(&mut state, InstallEvent::Found(false));
    install_step(&mut state, InstallEvent::Done);
    assert_eq!(
        install_step(&mut state, InstallEvent::Ran(Ok(()))),
        InstallAction::ListFiles("/data/.staging-theme-dracula".to_owned())
    );
    let files = vec!["a.toml".to_owned(), "b.toml".to_owned(), "c.md".to_owned()];
    assert_eq!(
        install_step(&mut state, InstallEvent::Files(files)),
        InstallAction::Show(vec!["found 2 theme file(s)".to_owned()])
    );
    assert_eq!(
        install_step(&mut state, InstallEvent::Done),
        InstallAction::CreateRoot("/data/themes".to_owned())
    );
}

#[test]
fn a_stray_event_changes_nothing() {
    let mut state = shown(false);
    assert_eq!(
        install_step(&mut state, InstallEvent::Answer(Ok("y".to_owned()))),
        InstallAction::Nothing
    );
    assert_eq!(state.stage, Stage::Showing);
}
