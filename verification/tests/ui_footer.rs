//! The footer pinned under a panel.

use tuzminal::geometry::Rect;
use tuzminal::ui::{Ui, UiAction};
use tuzminal::widget::{Widget, WidgetId};

fn body_widgets() -> Vec<Widget> {
    (0..40)
        .map(|i| Widget::toggle(WidgetId(i + 1), &format!("row {i}"), false))
        .collect()
}

fn footer_widgets() -> Vec<Widget> {
    vec![
        Widget::button(WidgetId(90), "Save to config.toml"),
        Widget::button(WidgetId(91), "Revert"),
        Widget::button(WidgetId(92), "Close"),
    ]
}
fn split_ui(area: Rect) -> Ui {
    let mut ui = Ui::new();
    ui.layout_split(&body_widgets(), &footer_widgets(), area, 20);
    ui
}

fn footer_rects(ui: &Ui) -> Vec<Rect> {
    ui.placed()[ui.body().len()..].iter().map(|p| p.rect).collect()
}

#[test]
fn the_footer_stays_put_while_the_body_scrolls() {
    let area = Rect::new(0, 0, 800, 400);
    let mut ui = split_ui(area);

    let before = footer_rects(&ui);
    let first_row = ui.body()[0].rect;

    assert!(ui.scroll_by(120), "the body should be scrollable");
    ui.layout_split(&body_widgets(), &footer_widgets(), area, 20);

    assert_eq!(
        before,
        footer_rects(&ui),
        "the footer is pinned; scrolling the body must not move it"
    );
    assert!(
        ui.body()[0].rect.y < first_row.y,
        "the body should have moved up"
    );
}
#[test]
fn a_value_column_never_covers_its_label_at_any_width() {
    for width in [120u32, 200, 320, 480, 800, 1600] {
        let mut ui = Ui::new();
        ui.layout_split(
            &[Widget::toggle(WidgetId(1), "Some setting", false)],
            &[Widget::text(WidgetId(2), "Rename to", "Cargo.toml", "")],
            Rect::new(0, 0, width, 400),
            20,
        );

        for row in ui.placed() {
            assert!(
                row.value_rect.x > row.rect.x || row.value_rect.y > row.rect.y,
                "at width {width}, {:?} draws its value over its label",
                row.widget
            );
        }
    }
}

#[test]
fn a_lone_footer_field_spans_the_band_and_keeps_its_value_column_separate() {
    let area = Rect::new(0, 0, 800, 400);
    let mut ui = Ui::new();
    ui.layout_split(
        &body_widgets(),
        &[Widget::text(WidgetId(1), "Rename to", "BUILD-LOG.md", "")],
        area,
        20,
    );

    let field = &ui.placed()[ui.body().len()];
    assert!(
        field.rect.width > area.width / 2,
        "a prompt should take the band, got {}",
        field.rect.width
    );
    assert!(
        field.value_rect.y > field.rect.y,
        "the label should sit above the field, not beside it"
    );
    assert_eq!(field.value_rect.width, field.rect.width);
    assert!(
        field.value_rect.bottom() <= field.rect.bottom(),
        "the field must stay inside the row it was given"
    );
    assert!(field.rect.height >= field.value_rect.height * 2);
}

#[test]
fn a_row_of_footer_buttons_still_shares_one_rect_for_box_and_hit_area() {
    let ui = split_ui(Rect::new(0, 0, 800, 400));
    for row in &ui.placed()[ui.body().len()..] {
        assert_eq!(row.rect, row.value_rect);
    }
}

#[test]
fn footer_buttons_are_sized_to_their_labels_not_stretched() {
    let footer = footer_rects(&split_ui(Rect::new(0, 0, 800, 400)));
    assert_eq!(footer.len(), 3);
    assert!(
        footer[0].width > footer[1].width,
        "'Save to config.toml' is a longer label than 'Revert'"
    );
    assert!(footer[1].width > footer[2].width);
    assert!(footer[0].right() <= footer[1].x);
    assert!(footer[1].right() <= footer[2].x);
}

#[test]
fn a_footer_button_is_clicked_by_the_rect_it_is_drawn_at() {
    let mut ui = split_ui(Rect::new(0, 0, 800, 400));
    let rect = ui.placed()[ui.body().len()].rect;
    for (x, y) in [
        (rect.x + 1, rect.y + 1),
        (rect.right() - 1, rect.y + 1),
        (rect.x + 1, rect.bottom() - 1),
        (rect.right() - 1, rect.bottom() - 1),
    ] {
        assert!(
            ui.hit(x, y).is_some(),
            "({x}, {y}) is inside the drawn button but does not hit it"
        );
    }
    assert!(matches!(
        ui.click(rect.x + 2, rect.y + 2),
        Some(UiAction::Pressed(_))
    ));
}

#[test]
fn the_pinned_band_comes_out_of_the_scroll_viewport() {
    let area = Rect::new(0, 0, 800, 400);
    let with_footer = split_ui(area);

    let mut without = Ui::new();
    without.layout_split(&body_widgets(), &[], area, 20);
    assert!(
        with_footer.max_scroll() > without.max_scroll(),
        "reserving the band must shrink the scrolling viewport"
    );
    assert_eq!(without.footer_area().height, 0);
    assert!(with_footer.footer_area().height > 0);
}

#[test]
fn footer_buttons_keep_clear_of_the_windows_bottom_edge() {
    let ui = split_ui(Rect::new(0, 0, 800, 400));
    let band = ui.footer_area();
    for rect in footer_rects(&ui) {
        assert!(
            band.bottom() - rect.bottom() >= 8,
            "button {rect:?} comes too close to the bottom of {band:?}"
        );
    }
}

#[test]
fn focusing_a_footer_button_does_not_chase_it_with_the_scroll() {
    let area = Rect::new(0, 0, 800, 400);
    let mut ui = split_ui(area);
    let scroll_area = Rect::new(
        area.x,
        area.y,
        area.width,
        area.height - ui.footer_area().height,
    );

    ui.focus(WidgetId(92));
    assert!(!ui.scroll_to_focus(scroll_area));
    assert_eq!(ui.scroll(), 0);
}
