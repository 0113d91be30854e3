//! The shortcut reference.

use tuzminal::help::{describe, explorer_keys, panel_keys, Binding, HelpPage};
use tuzminal::widget::Widget;

/// Bindings as the terminal ships them, in outline.
fn bindings() -> Vec<Binding> {
    [
        ("alt+enter", "toggle_fullscreen"),
        ("ctrl+shift+c", "copy"),
        ("ctrl+shift+v", "paste"),
        ("ctrl+shift+t", "new_tab"),
        ("ctrl+shift+w", "close_pane"),
        ("ctrl+tab", "next_tab"),
        ("ctrl+shift+o", "split_right"),
        ("ctrl+shift+e", "split_down"),
        ("ctrl+shift+up", "scroll_up"),
        ("ctrl+comma", "open_settings"),
        ("f1", "open_help"),
        ("ctrl+alt+x", "my_plugin_command"),
    ]
    .iter()
    .map(|(chord, action)| Binding {
        chord: (*chord).to_owned(),
        action: (*action).to_owned(),
    })
    .collect()
}

fn rows(keys: &Vec<Binding>) -> Vec<(String, String)> {
    HelpPage::open()
        .widgets(keys)
        .into_iter()
        .filter_map(|w| match w {
            Widget::Shortcut { label, keys } => Some((label, keys)),
            _ => None,
        })
        .collect()
}

#[test]
fn every_default_binding_appears_somewhere_on_the_page() {
    let keys = bindings();
    let rows = rows(&keys);
    for binding in &keys {
        assert!(
            rows.iter().any(|(_, keys)| keys.split("  ").any(|k| k == binding.chord)),
            "{} ({}) is bound but not on the help page",
            binding.chord,
            binding.action
        );
    }
}

#[test]
fn a_rebound_key_is_reported_at_its_new_chord() {
    let mut keys = bindings();
    keys.push(Binding { chord: "ctrl+shift+y".to_owned(), action: "copy".to_owned() });
    let copy = rows(&keys)
        .into_iter()
        .find(|(label, _)| label.contains("Copy"))
        .expect("copy should be listed")
        .1;
    assert!(copy.contains("ctrl+shift+y"), "got {copy}");
}

#[test]
fn an_unbound_action_is_left_off_rather_than_shown_blank() {
    let keys: Vec<Binding> = bindings()
        .into_iter()
        .map(|b| {
            if b.chord == "ctrl+shift+c" {
                Binding { chord: b.chord, action: "none".to_owned() }
            } else {
                b
            }
        })
        .collect();
    assert!(
        !rows(&keys)
            .iter()
            .any(|(label, _)| label.contains("Copy the selection")),
        "an unbound action has no keys to show"
    );
}

#[test]
fn every_action_the_keymap_knows_about_has_a_description() {
    for name in ["copy", "paste", "new_tab", "close_pane", "split_right", "reload_config", "quit"] {
        assert_ne!(
            describe(name),
            name.replace('_', " "),
            "`{name}` has no description in `describe`"
        );
    }
    assert_eq!(describe("my_plugin_command"), "my plugin command");
}

#[test]
fn the_page_has_headings_and_rows() {
    let widgets = HelpPage::open().widgets(&bindings());
    assert!(widgets
        .iter()
        .any(|w| matches!(w, Widget::Label { heading: true, .. })));
    assert!(widgets.len() > 20, "got {} rows", widgets.len());
}

#[test]
fn the_hand_written_lists_are_not_empty_or_blank() {
    for (keys, what) in explorer_keys().iter().chain(panel_keys().iter()) {
        assert!(!keys.trim().is_empty());
        assert!(!what.trim().is_empty());
    }
    assert!(!explorer_keys().is_empty());
    assert!(!panel_keys().is_empty());
}
