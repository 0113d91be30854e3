//! The plugins page.

use tuzminal::pkg::{Manifest, Runtime};
use tuzminal::plugins::{
    export_all, import_plugin, is_enabled, set_enabled, FolderPurpose, FolderResult, Installed,
    ManifestRead, PluginConfig, PluginsOutcome, PluginsPage, EXPORT, IMPORT, PLUGIN_BASE,
};
use tuzminal::ui::UiAction;
use tuzminal::widget::{Widget, WidgetId};

fn manifest(name: &str) -> Manifest {
    Manifest {
        name: name.to_owned(),
        version: "0.1.0".to_owned(),
        runtime: Runtime::Lua,
        entry: "init.lua".to_owned(),
        description: String::new(),
        permissions: Vec::new(),
    }
}

fn installed(name: &str, directory: &str) -> Installed {
    Installed {
        manifest: manifest(name),
        directory: directory.to_owned(),
        problem: None,
    }
}

#[test]
fn a_plugin_is_enabled_unless_it_is_disabled() {
    let mut config = PluginConfig::new();
    assert!(is_enabled(&config, "anything"));

    config.disable.push("noisy".to_owned());
    assert!(!is_enabled(&config, "noisy"));
    assert!(is_enabled(&config, "other"));
}

#[test]
fn an_allowlist_excludes_everything_not_on_it() {
    let mut config = PluginConfig::new();
    config.load.push("wanted".to_owned());
    assert!(is_enabled(&config, "wanted"));
    assert!(!is_enabled(&config, "unwanted"));
}

#[test]
fn disable_wins_over_the_allowlist() {
    let mut config = PluginConfig::new();
    config.load.push("both".to_owned());
    config.disable.push("both".to_owned());
    assert!(!is_enabled(&config, "both"));
}

#[test]
fn toggling_off_and_on_returns_to_the_starting_config() {
    let config = PluginConfig::new();
    let mut next = PluginConfig::new();
    set_enabled(&mut next, "thing", false);
    assert!(!is_enabled(&next, "thing"));

    set_enabled(&mut next, "thing", true);
    assert!(is_enabled(&next, "thing"));
    assert_eq!(next, config, "no residue left behind");
}

#[test]
fn toggling_under_an_allowlist_edits_the_allowlist() {
    let mut config = PluginConfig::new();
    config.load = vec!["a".to_owned(), "b".to_owned()];

    set_enabled(&mut config, "a", false);
    assert_eq!(config.load, vec!["b".to_owned()]);
    assert!(config.disable.is_empty());

    set_enabled(&mut config, "a", true);
    assert!(is_enabled(&config, "a"));
}

#[test]
fn importing_copies_the_folder_and_reports_the_name() {
    let read = ManifestRead::Parsed(manifest("my-plugin"));
    let import = import_plugin("/src/my-plugin", "/plugins", &read, true, false).unwrap();
    assert_eq!(import.name, "my-plugin");
    assert_eq!(import.target, "/plugins/my-plugin");
}

#[test]
fn importing_something_that_is_not_a_plugin_says_so() {
    let err = import_plugin("/empty", "/plugins", &ManifestRead::Missing, false, false)
        .unwrap_err();
    assert!(err.contains("plugin.toml"), "{err}");
    let bad = ManifestRead::Malformed("no name".to_owned());
    let err = import_plugin("/bad", "/plugins", &bad, false, false).unwrap_err();
    assert_eq!(err, "bad plugin.toml: no name");
}

#[test]
fn importing_a_plugin_whose_entry_is_missing_is_refused() {
    let read = ManifestRead::Parsed(manifest("broken"));
    let err = import_plugin("/broken", "/plugins", &read, false, false).unwrap_err();
    assert!(err.contains("entry"), "{err}");
}

#[test]
fn importing_over_an_existing_plugin_is_refused_rather_than_merged() {
    let read = ManifestRead::Parsed(manifest("dup"));
    let err = import_plugin("/src/dup", "/plugins", &read, true, true).unwrap_err();
    assert!(err.contains("already installed"), "{err}");
}

#[test]
fn exporting_copies_every_plugin_and_counts_them() {
    let found = vec![
        installed("one", "/installed/one"),
        installed("two", "/installed/two"),
    ];
    let copies = export_all(&found, "/backup", &vec![false, false]).unwrap();
    assert_eq!(copies.len(), 2);
    assert_eq!(copies[0].from, "/installed/one");
    assert_eq!(copies[0].to, "/backup/one");
    assert_eq!(copies[1].to, "/backup/two");

    assert_eq!(export_all(&found, "/backup", &vec![true, true]), Ok(Vec::new()));
}

#[test]
fn exporting_without_a_destination_says_so() {
    assert!(export_all(&Vec::new(), "", &Vec::new()).is_err());
}

#[test]
fn every_installed_plugin_gets_a_toggle_reflecting_the_config() {
    let mut config = PluginConfig::new();
    config.disable.push("off".to_owned());

    let page = PluginsPage::open(
        vec![installed("on", "/tmp/on"), installed("off", "/tmp/off")],
        "/tmp",
    );

    let toggles: Vec<(String, bool)> = page
        .widgets(&config)
        .into_iter()
        .filter_map(|w| match w {
            Widget::Toggle { label, on, .. } => Some((label, on)),
            _ => None,
        })
        .collect();

    assert_eq!(toggles.len(), 2);
    assert!(toggles[0].0.starts_with("on") && toggles[0].1);
    assert!(toggles[1].0.starts_with("off") && !toggles[1].1);
}

#[test]
fn an_empty_list_explains_itself_rather_than_showing_nothing() {
    let page = PluginsPage::open(Vec::new(), "/tmp");
    let widgets = page.widgets(&PluginConfig::new());
    assert!(widgets.iter().any(|w| matches!(
        w,
        Widget::Label { text, .. } if text.contains("No plugins")
    )));
}

#[test]
fn toggling_a_row_updates_the_config_and_asks_for_a_reload() {
    let mut config = PluginConfig::new();
    let mut page = PluginsPage::open(vec![installed("thing", "/tmp/thing")], "/tmp");

    let outcome = page.apply(&UiAction::Toggled(WidgetId(PLUGIN_BASE), false), &mut config);
    assert_eq!(outcome, PluginsOutcome::Toggled);
    assert!(!is_enabled(&config, "thing"));
    assert!(page.message.as_deref().is_some_and(|m| m.contains("disabled")));
}

#[test]
fn the_buttons_ask_for_a_folder_rather_than_acting_blind() {
    let mut config = PluginConfig::new();
    let mut page = PluginsPage::open(Vec::new(), "/tmp");

    assert_eq!(
        page.apply(&UiAction::Pressed(WidgetId(IMPORT)), &mut config),
        PluginsOutcome::ChooseFolder(FolderPurpose::ImportPlugin)
    );
    assert_eq!(
        page.apply(&UiAction::Pressed(WidgetId(EXPORT)), &mut config),
        PluginsOutcome::ChooseFolder(FolderPurpose::ExportPlugins)
    );
}

#[test]
fn choosing_a_folder_imports_it_and_reports_what_happened() {
    let mut page = PluginsPage::open(Vec::new(), "/plugins");
    let done = FolderResult::Imported(Ok("picked".to_owned()));
    assert!(page.folder_chosen(&done, "/src/picked"));
    assert!(page.message.as_deref().is_some_and(|m| m.contains("picked")));
}

#[test]
fn a_failed_import_says_so_rather_than_closing_silently() {
    let mut page = PluginsPage::open(Vec::new(), "/plugins");
    let why = import_plugin("/empty", "/plugins", &ManifestRead::Missing, false, false)
        .unwrap_err();
    assert!(!page.folder_chosen(&FolderResult::Imported(Err(why)), "/empty"));
    assert!(page
        .message
        .as_deref()
        .is_some_and(|m| m.contains("plugin.toml")));
}

#[test]
fn a_toggle_for_a_row_that_no_longer_exists_does_nothing() {
    let mut config = PluginConfig::new();
    let mut page = PluginsPage::open(Vec::new(), "/tmp");
    assert_eq!(
        page.apply(&UiAction::Toggled(WidgetId(PLUGIN_BASE + 7), false), &mut config),
        PluginsOutcome::Continue
    );
}

#[test]
fn turning_the_only_allowed_plugin_off_turns_no_other_on() {
    let mut config = PluginConfig::new();
    config.load = vec!["x".to_owned()];
    set_enabled(&mut config, "x", false);
    assert!(!is_enabled(&config, "x"));
    assert!(!is_enabled(&config, "y"));
    assert_eq!(config.load, vec!["x".to_owned()]);
    set_enabled(&mut config, "x", true);
    assert!(is_enabled(&config, "x"));
    assert!(!is_enabled(&config, "y"));
    assert!(config.disable.is_empty());
}
