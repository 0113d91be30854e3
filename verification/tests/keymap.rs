//! Layered key bindings.

use tuzminal::cli::log_filter;
use tuzminal::help::Binding;
use tuzminal::keymap::{layered_keys, KeyTable};

fn binding(chord: &str, action: &str) -> Binding {
    Binding { chord: chord.to_owned(), action: action.to_owned() }
}

fn pairs(table: &KeyTable) -> Vec<(&str, &str)> {
    table
        .keys
        .iter()
        .map(|b| (b.chord.as_str(), b.action.as_str()))
        .collect()
}

#[test]
fn a_plugin_can_offer_a_key_but_never_take_one() {
    let plugins = vec![
        binding("ctrl+x", "plugin.cut"),
        binding("ctrl+b", "plugin.build"),
    ];
    let config = vec![binding("ctrl+x", "copy"), binding("alt+a", "paste")];
    let table = layered_keys(&plugins, &config);
    assert_eq!(
        pairs(&table),
        vec![("alt+a", "paste"), ("ctrl+b", "plugin.build"), ("ctrl+x", "copy")]
    );
}

#[test]
fn the_later_of_two_bindings_counts() {
    let mut table = KeyTable::new();
    table.bind("b", "one");
    table.bind("a", "two");
    table.bind("b", "three");
    assert_eq!(pairs(&table), vec![("a", "two"), ("b", "three")]);
}

#[test]
fn more_flags_log_more() {
    assert_eq!(log_filter(0), "warn,tuzminal=info");
    assert_eq!(log_filter(1), "info,tuzminal=debug,tuz_config=debug");
    assert_eq!(log_filter(9), "debug,tuzminal=trace");
}
