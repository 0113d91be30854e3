//! Scrolling a panel.

use tuzminal::geometry::Rect;
use tuzminal::ui::{Ui, UiKey};
use tuzminal::widget::{Widget, WidgetId};
fn many(n: u32) -> Vec<Widget> {
    (0..n)
        .map(|i| Widget::toggle(WidgetId(i), &format!("row {i}"), false))
        .collect()
}
fn small() -> Rect {
    Rect::new(0, 0, 400, 120)
}

fn scrolled(n: u32) -> Ui {
    let mut ui = Ui::new();
    ui.layout(&many(n), small(), 20);
    ui
}

#[test]
fn content_shorter_than_the_viewport_does_not_scroll() {
    let mut ui = Ui::new();
    ui.layout(&many(1), Rect::new(0, 0, 400, 600), 20);
    assert!(!ui.is_scrollable());
    assert_eq!(ui.max_scroll(), 0);
    assert!(!ui.scroll_by(100), "there is nowhere to scroll");
}

#[test]
fn content_taller_than_the_viewport_scrolls() {
    let ui = scrolled(20);
    assert!(ui.is_scrollable());
    assert!(ui.max_scroll() > 0);
}

#[test]
fn scrolling_moves_rows_up_by_exactly_the_offset() {
    let mut ui = scrolled(20);
    let before = ui.placed()[0].rect.y;

    ui.scroll_by(40);
    ui.layout(&many(20), small(), 20);
    assert_eq!(ui.placed()[0].rect.y, before - 40);
}

#[test]
fn scrolling_is_clamped_at_both_ends() {
    let mut ui = scrolled(20);

    assert!(!ui.scroll_by(-100), "already at the top");
    assert_eq!(ui.scroll(), 0);

    ui.scroll_by(100_000);
    assert_eq!(ui.scroll(), ui.max_scroll(), "cannot scroll past the end");
    assert!(!ui.scroll_by(10), "and stays there");
}

#[test]
fn the_last_row_can_reach_the_viewport() {
    let mut ui = scrolled(20);
    ui.scroll_by(ui.max_scroll() as i32);
    ui.layout(&many(20), small(), 20);

    let last = ui.placed().last().unwrap().rect;
    assert!(
        last.bottom() <= small().bottom(),
        "the last row ends at {} but the viewport ends at {}",
        last.bottom(),
        small().bottom()
    );
    assert!(last.y >= small().y, "and is not scrolled off the top");
}

#[test]
fn content_height_is_measured_independently_of_the_scroll_offset() {
    let mut ui = scrolled(20);
    let unscrolled = ui.content_height();

    ui.scroll_by(60);
    ui.layout(&many(20), small(), 20);
    assert_eq!(ui.content_height(), unscrolled);
}

#[test]
fn growing_the_viewport_re_clamps_the_offset() {
    let mut ui = scrolled(20);
    ui.scroll_by(ui.max_scroll() as i32);

    ui.layout(&many(20), Rect::new(0, 0, 400, 10_000), 20);
    assert_eq!(ui.scroll(), 0, "everything fits now");
    assert!(!ui.is_scrollable());
}

#[test]
fn shrinking_the_content_re_clamps_the_offset() {
    let mut ui = scrolled(30);
    ui.scroll_by(ui.max_scroll() as i32);
    let far = ui.scroll();

    ui.layout(&many(6), small(), 20);
    assert!(ui.scroll() < far, "the offset should have been pulled back");
    assert!(ui.scroll() <= ui.max_scroll());
}

#[test]
fn hit_testing_follows_the_scrolled_position() {
    let mut ui = scrolled(20);
    let rect = ui.rect_of(WidgetId(0)).unwrap();
    assert_eq!(ui.hit(rect.center_x(), rect.center_y()), Some(WidgetId(0)));

    ui.scroll_by(200);
    ui.layout(&many(20), small(), 20);
    assert_ne!(ui.hit(rect.center_x(), rect.center_y()), Some(WidgetId(0)));
    let now = ui.hit(rect.center_x(), rect.center_y());
    if let Some(id) = now {
        let moved = ui.rect_of(id).unwrap();
        assert!(moved.contains(rect.center_x(), rect.center_y()));
    }
}

#[test]
fn scroll_to_focus_pulls_a_row_below_the_fold_into_view() {
    let mut ui = scrolled(20);
    let last = WidgetId(19);
    ui.focus(last);

    assert!(
        ui.rect_of(last).unwrap().bottom() > small().bottom(),
        "the last row should start off-screen"
    );

    assert!(ui.scroll_to_focus(small()), "it should have scrolled");
    ui.layout(&many(20), small(), 20);
    assert!(
        ui.rect_of(last).unwrap().bottom() <= small().bottom(),
        "and now be visible"
    );
}

#[test]
fn scroll_to_focus_pulls_a_row_above_the_fold_into_view() {
    let mut ui = scrolled(20);
    ui.scroll_by(ui.max_scroll() as i32);
    ui.layout(&many(20), small(), 20);

    ui.focus(WidgetId(0));
    assert!(ui.scroll_to_focus(small()));
    ui.layout(&many(20), small(), 20);
    assert!(ui.rect_of(WidgetId(0)).unwrap().y >= small().y);
}

#[test]
fn scroll_to_focus_does_nothing_for_an_already_visible_row() {
    let mut ui = scrolled(20);
    ui.focus(WidgetId(0));
    assert!(!ui.scroll_to_focus(small()));
    assert_eq!(ui.scroll(), 0);
}

#[test]
fn scroll_to_focus_with_no_focus_is_a_no_op() {
    let mut ui = scrolled(20);
    assert!(!ui.scroll_to_focus(small()));
}

#[test]
fn tabbing_through_every_row_keeps_the_focused_one_visible() {
    let widgets = many(20);
    let mut ui = Ui::new();
    ui.layout(&widgets, small(), 20);

    for step in 0..20 {
        ui.key(UiKey::Tab);
        ui.scroll_to_focus(small());
        ui.layout(&widgets, small(), 20);

        let focused = ui.focused().expect("tab should focus something");
        let rect = ui.rect_of(focused).unwrap();
        assert!(
            rect.y >= small().y && rect.bottom() <= small().bottom(),
            "step {step}: focused row {rect:?} is outside the viewport {:?}",
            small()
        );
    }
}
