//! Key presses, chords and what is typed.

use tuzminal::keys::{
    bytes_for_key, chord_from, key_from, modifiers_from, Key, KeyChord, KeySend, LogicalKey,
    Modifiers, NamedKey, WindowKey,
};

fn character(s: &str) -> LogicalKey {
    LogicalKey::Character(s.to_owned())
}

#[test]
fn maps_plain_characters() {
    assert_eq!(key_from(&character("a")), Some(Key::Char('a')));
}

#[test]
fn maps_named_keys() {
    assert_eq!(
        key_from(&LogicalKey::Named(WindowKey::Escape)),
        Some(Key::Named(NamedKey::Escape))
    );
    assert_eq!(
        key_from(&LogicalKey::Named(WindowKey::ArrowLeft)),
        Some(Key::Named(NamedKey::Left)),
        "winit's ArrowLeft is our Left"
    );
    assert_eq!(
        key_from(&LogicalKey::Named(WindowKey::F(7))),
        Some(Key::Named(NamedKey::Function(7)))
    );
}

#[test]
fn bare_modifier_presses_are_not_chords() {
    for m in [WindowKey::Control, WindowKey::Shift, WindowKey::Alt, WindowKey::Super] {
        assert_eq!(key_from(&LogicalKey::Named(m)), None, "{m:?} should be ignored");
    }
}

#[test]
fn ime_composition_output_is_not_a_chord() {
    assert_eq!(key_from(&character("ab")), None);
    assert_eq!(key_from(&character("")), None);
}

#[test]
fn dead_keys_are_ignored() {
    assert_eq!(key_from(&LogicalKey::Dead), None);
}

#[test]
fn modifier_state_translates_faithfully() {
    let m = modifiers_from(true, true, false, false);
    assert!(m.ctrl && m.shift);
    assert!(!m.alt && !m.logo);
    assert_eq!(modifiers_from(false, false, false, false), Modifiers::none());
}

#[test]
fn a_shifted_character_event_matches_its_written_binding() {
    let chord = chord_from(&character("D"), modifiers_from(true, false, false, false)).unwrap();
    assert_eq!(chord, KeyChord { mods: modifiers_from(true, true, false, false), key: Key::Char('d') });
}

#[test]
fn a_space_key_event_matches_a_space_binding() {
    let chord = chord_from(&LogicalKey::Named(WindowKey::Space), modifiers_from(true, false, false, false)).unwrap();
    assert_eq!(chord, KeyChord { mods: modifiers_from(true, false, false, false), key: Key::Named(NamedKey::Space) });
}

#[test]
fn unmapped_keys_produce_no_chord() {
    assert_eq!(chord_from(&LogicalKey::Dead, Modifiers::none()), None);
}
fn shift() -> Modifiers {
    modifiers_from(false, true, false, false)
}

fn sent(text: &str) -> KeySend {
    KeySend::Bytes(text.as_bytes().to_vec())
}

#[test]
fn a_capital_letter_reaches_the_pty_as_a_capital() {
    assert_eq!(bytes_for_key(&character("D"), Some("D"), shift()), sent("D"));
}

#[test]
fn every_capital_letter_survives() {
    for c in 'A'..='Z' {
        let s = c.to_string();
        assert_eq!(bytes_for_key(&character(&s), Some(&s), shift()), sent(&s), "for {c}");
    }
}

#[test]
fn lowercase_still_works() {
    assert_eq!(bytes_for_key(&character("d"), Some("d"), Modifiers::none()), sent("d"));
}

#[test]
fn shifted_symbols_reach_the_pty() {
    for (key, expected) in [("!", "!"), ("@", "@"), ("~", "~"), ("?", "?")] {
        let out = bytes_for_key(&character(key), Some(key), shift());
        assert_eq!(out, sent(expected), "for {key}");
    }
}

#[test]
fn ctrl_combinations_still_map_to_control_bytes() {
    let ctrl = modifiers_from(true, false, false, false);
    let both = modifiers_from(true, true, false, false);
    assert_eq!(
        bytes_for_key(&character("c"), Some("c"), ctrl),
        KeySend::Encode(Key::Char('c'))
    );
    assert_eq!(
        bytes_for_key(&character("C"), Some("C"), both),
        KeySend::Encode(Key::Char('C'))
    );
}

#[test]
fn alt_prefixes_with_escape_rather_than_sending_bare_text() {
    let alt = modifiers_from(false, false, true, false);
    assert_eq!(
        bytes_for_key(&character("b"), Some("b"), alt),
        KeySend::Encode(Key::Char('b'))
    );
}

#[test]
fn control_characters_in_text_fall_through_to_the_encoder() {
    let none = Modifiers::none();
    assert_eq!(
        bytes_for_key(&LogicalKey::Named(WindowKey::Enter), Some("\r"), none),
        KeySend::Encode(Key::Named(NamedKey::Enter))
    );
    assert_eq!(
        bytes_for_key(&LogicalKey::Named(WindowKey::Tab), Some("\t"), none),
        KeySend::Encode(Key::Named(NamedKey::Tab))
    );
    assert_eq!(
        bytes_for_key(&LogicalKey::Named(WindowKey::Tab), Some("\t"), shift()),
        KeySend::Encode(Key::Named(NamedKey::Tab))
    );
}

#[test]
fn a_space_is_sent_as_a_space() {
    assert_eq!(
        bytes_for_key(&LogicalKey::Named(WindowKey::Space), Some(" "), Modifiers::none()),
        sent(" ")
    );
}

#[test]
fn multi_character_text_from_a_dead_key_is_sent_whole() {
    assert_eq!(
        bytes_for_key(&character("\u{e9}"), Some("\u{e9}"), Modifiers::none()),
        sent("\u{e9}")
    );
    assert_eq!(
        bytes_for_key(&LogicalKey::Dead, Some("\u{e9}"), Modifiers::none()),
        sent("\u{e9}"),
        "a dead-key composition must survive"
    );
}

#[test]
fn arrows_use_the_encoder_and_respect_application_mode() {
    assert_eq!(
        bytes_for_key(&LogicalKey::Named(WindowKey::ArrowUp), None, Modifiers::none()),
        KeySend::Encode(Key::Named(NamedKey::Up))
    );
}

#[test]
fn missing_text_falls_back_to_the_key_itself() {
    assert_eq!(
        bytes_for_key(&character("x"), None, Modifiers::none()),
        KeySend::Encode(Key::Char('x'))
    );
}

#[test]
fn a_bare_modifier_press_sends_nothing() {
    assert_eq!(
        bytes_for_key(&LogicalKey::Named(WindowKey::Control), None, Modifiers::none()),
        KeySend::Nothing
    );
    assert_eq!(
        bytes_for_key(&LogicalKey::Named(WindowKey::Shift), None, shift()),
        KeySend::Nothing
    );
}

#[test]
fn empty_text_is_not_sent_as_an_empty_write() {
    assert_eq!(bytes_for_key(&LogicalKey::Dead, Some(""), Modifiers::none()), KeySend::Nothing);
}
