//! Editing a text field.

use tuzminal::geometry::Rect;
use tuzminal::ui::{KeyResponse, Ui, UiAction, UiKey};
use tuzminal::widget::{Widget, WidgetId};

fn field(value: &str) -> Ui {
    let mut ui = Ui::new();
    ui.layout(
        &[Widget::text(WidgetId(1), "Program", value, "$SHELL")],
        Rect::new(0, 0, 400, 200),
        20,
    );
    ui.focus(WidgetId(1));
    ui
}

fn value_of(ui: &Ui) -> String {
    match &ui.placed()[0].widget {
        Widget::Text { value, .. } => value.clone(),
        other => panic!("expected a text field, got {other:?}"),
    }
}

fn caret_of(ui: &Ui) -> usize {
    match &ui.placed()[0].widget {
        Widget::Text { caret, .. } => *caret,
        other => panic!("expected a text field, got {other:?}"),
    }
}

#[test]
fn the_caret_starts_at_the_end_of_an_existing_value() {
    let ui = field("/bin/zsh");
    assert_eq!(caret_of(&ui), 8);
}

#[test]
fn typing_inserts_at_the_caret() {
    let mut ui = field("bin");
    assert_eq!(
        ui.type_char('!'),
        Some(UiAction::Edited(WidgetId(1), "bin!".to_owned()))
    );
    assert_eq!(value_of(&ui), "bin!");
    assert_eq!(caret_of(&ui), 4);
}

#[test]
fn typing_in_the_middle_inserts_rather_than_appends() {
    let mut ui = field("ac");
    ui.key(UiKey::Left);
    ui.type_char('b');
    assert_eq!(value_of(&ui), "abc");
}

#[test]
fn control_characters_are_refused() {
    let mut ui = field("x");
    assert_eq!(ui.type_char('\n'), None);
    assert_eq!(ui.type_char('\t'), None);
    assert_eq!(ui.type_char('\u{1b}'), None);
    assert_eq!(value_of(&ui), "x");
}

#[test]
fn typing_with_focus_elsewhere_is_not_consumed() {
    let mut ui = Ui::new();
    ui.layout(
        &[Widget::toggle(WidgetId(1), "Ligatures", false)],
        Rect::new(0, 0, 400, 200),
        20,
    );
    ui.focus(WidgetId(1));
    assert_eq!(ui.type_char('a'), None);
}

#[test]
fn backspace_deletes_before_the_caret() {
    let mut ui = field("abc");
    assert_eq!(
        ui.key(UiKey::Backspace),
        KeyResponse::Action(UiAction::Edited(WidgetId(1), "ab".to_owned()))
    );
    assert_eq!(caret_of(&ui), 2);
}

#[test]
fn backspace_at_the_start_does_nothing() {
    let mut ui = field("abc");
    ui.key(UiKey::Home);
    assert_eq!(ui.key(UiKey::Backspace), KeyResponse::Consumed);
    assert_eq!(value_of(&ui), "abc");
}

#[test]
fn delete_removes_after_the_caret() {
    let mut ui = field("abc");
    ui.key(UiKey::Home);
    assert_eq!(
        ui.key(UiKey::Delete),
        KeyResponse::Action(UiAction::Edited(WidgetId(1), "bc".to_owned()))
    );
    assert_eq!(caret_of(&ui), 0, "the caret should not move");
}

#[test]
fn delete_at_the_end_does_nothing() {
    let mut ui = field("abc");
    assert_eq!(ui.key(UiKey::Delete), KeyResponse::Consumed);
    assert_eq!(value_of(&ui), "abc");
}

#[test]
fn home_and_end_move_the_caret_to_the_edges() {
    let mut ui = field("hello");
    ui.key(UiKey::Home);
    assert_eq!(caret_of(&ui), 0);
    ui.key(UiKey::End);
    assert_eq!(caret_of(&ui), 5);
}

#[test]
fn arrows_move_the_caret_and_clamp_at_both_ends() {
    let mut ui = field("ab");
    ui.key(UiKey::Left);
    assert_eq!(caret_of(&ui), 1);
    ui.key(UiKey::Left);
    ui.key(UiKey::Left);
    assert_eq!(caret_of(&ui), 0, "cannot go before the start");

    ui.key(UiKey::Right);
    ui.key(UiKey::Right);
    ui.key(UiKey::Right);
    assert_eq!(caret_of(&ui), 2, "cannot go past the end");
}

#[test]
fn arrows_in_a_text_field_do_not_emit_a_value_change() {
    let mut ui = field("ab");
    assert_eq!(ui.key(UiKey::Left), KeyResponse::Consumed);
    assert_eq!(ui.key(UiKey::Right), KeyResponse::Consumed);
}

#[test]
fn multi_byte_characters_are_edited_without_splitting_them() {
    let mut ui = field("日本語");
    assert_eq!(caret_of(&ui), 3, "three characters, nine bytes");

    assert_eq!(
        ui.key(UiKey::Backspace),
        KeyResponse::Action(UiAction::Edited(WidgetId(1), "日本".to_owned()))
    );

    ui.key(UiKey::Home);
    assert_eq!(
        ui.key(UiKey::Delete),
        KeyResponse::Action(UiAction::Edited(WidgetId(1), "本".to_owned()))
    );

    ui.type_char('é');
    assert_eq!(value_of(&ui), "é本");
}

#[test]
fn editing_an_empty_field_is_safe() {
    let mut ui = field("");
    assert_eq!(caret_of(&ui), 0);
    assert_eq!(ui.key(UiKey::Backspace), KeyResponse::Consumed);
    assert_eq!(ui.key(UiKey::Delete), KeyResponse::Consumed);
    ui.key(UiKey::Left);
    ui.key(UiKey::Right);
    assert_eq!(value_of(&ui), "");
}

#[test]
fn an_empty_field_displays_its_placeholder() {
    let ui = field("");
    assert_eq!(ui.placed()[0].widget.value_text().unwrap(), "$SHELL");

    let ui = field("/bin/fish");
    assert_eq!(ui.placed()[0].widget.value_text().unwrap(), "/bin/fish");
}

#[test]
fn a_text_field_takes_focus_and_participates_in_tab_order() {
    let mut ui = Ui::new();
    ui.layout(
        &[
            Widget::toggle(WidgetId(1), "a", false),
            Widget::text(WidgetId(2), "Program", "", ""),
            Widget::button(WidgetId(3), "Apply"),
        ],
        Rect::new(0, 0, 400, 300),
        20,
    );
    ui.key(UiKey::Tab);
    ui.key(UiKey::Tab);
    assert_eq!(ui.focused(), Some(WidgetId(2)));
}

#[test]
fn clicking_a_text_field_focuses_without_editing() {
    let mut ui = field("abc");
    let rect = ui.rect_of(WidgetId(1)).unwrap();
    assert_eq!(ui.click(rect.center_x(), rect.center_y()), None);
    assert_eq!(ui.focused(), Some(WidgetId(1)));
    assert_eq!(value_of(&ui), "abc");
}
