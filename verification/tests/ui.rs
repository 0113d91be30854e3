//! Layout, hit testing, focus and keys of a panel.

use tuzminal::decimal::Fixed;
use tuzminal::geometry::Rect;
use tuzminal::ui::{KeyResponse, Metrics, Ui, UiAction, UiKey};
use tuzminal::widget::{Widget, WidgetId};
fn fx(value: f64) -> Fixed {
    Fixed::from_millionths((value * 1_000_000.0).round() as i64)
}

fn area() -> Rect {
    Rect::new(0, 0, 400, 600)
}

fn id(n: u32) -> WidgetId {
    WidgetId(n)
}
fn sample() -> Vec<Widget> {
    vec![
        Widget::heading("Appearance"),
        Widget::select(
            id(1),
            "Theme",
            vec!["tuz-dark".into(), "tuz-light".into()],
            0,
        ),
        Widget::stepper(id(2), "Font size", fx(12.0), fx(6.0), fx(32.0), fx(1.0), 1),
        Widget::toggle(id(3), "Ligatures", false),
        Widget::button(id(4), "Apply"),
    ]
}

fn laid_out() -> Ui {
    let mut ui = Ui::new();
    ui.layout(&sample(), area(), 20);
    ui
}

fn center_of(ui: &Ui, widget: WidgetId) -> (i32, i32) {
    let r = ui.rect_of(widget).expect("widget should be laid out");
    (r.center_x(), r.center_y())
}

#[test]
fn layout_places_every_widget_inside_the_area() {
    let ui = laid_out();
    assert_eq!(ui.placed().len(), 5);
    for placed in ui.placed() {
        assert!(placed.rect.x >= area().x);
        assert!(placed.rect.right() <= area().right());
    }
}

#[test]
fn rows_do_not_overlap_and_run_top_to_bottom() {
    let ui = laid_out();
    for pair in ui.placed().windows(2) {
        assert!(
            pair[1].rect.y >= pair[0].rect.bottom(),
            "row at {} overlaps the one ending at {}",
            pair[1].rect.y,
            pair[0].rect.bottom()
        );
    }
}

#[test]
fn a_heading_gets_space_above_it_but_not_the_first_one() {
    let widgets = vec![
        Widget::heading("First"),
        Widget::toggle(id(1), "a", false),
        Widget::heading("Second"),
        Widget::toggle(id(2), "b", false),
    ];
    let mut ui = Ui::new();
    let metrics = Metrics::from_cell_height(20);
    ui.layout_with(&widgets, area(), metrics);

    let p = ui.placed();
    assert_eq!(p[0].rect.y, area().y + metrics.padding as i32);
    let normal_advance = metrics.row_height + metrics.row_gap;
    assert_eq!(
        p[2].rect.y - p[1].rect.y,
        (normal_advance + metrics.heading_space) as i32
    );
}

#[test]
fn the_value_column_is_right_aligned_within_the_row() {
    let ui = laid_out();
    let placed = &ui.placed()[1];
    assert_eq!(placed.value_rect.right(), placed.rect.right());
    assert!(
        placed.value_rect.x > placed.rect.x,
        "value sits on the right"
    );
}

#[test]
fn a_narrow_panel_does_not_produce_a_value_column_wider_than_the_row() {
    let mut ui = Ui::new();
    ui.layout(&sample(), Rect::new(0, 0, 60, 400), 20);
    for placed in ui.placed() {
        assert!(
            placed.value_rect.width <= placed.rect.width,
            "value column {} exceeds row {}",
            placed.value_rect.width,
            placed.rect.width
        );
    }
}

#[test]
fn content_height_covers_every_row() {
    let ui = laid_out();
    let lowest = ui.placed().iter().map(|p| p.rect.bottom()).max().unwrap();
    assert!(
        ui.content_height() as i32 >= lowest - area().y,
        "content height {} does not reach the last row at {lowest}",
        ui.content_height()
    );
}

#[test]
fn hit_finds_interactive_widgets() {
    let ui = laid_out();
    let (x, y) = center_of(&ui, id(3));
    assert_eq!(ui.hit(x, y), Some(id(3)));
}

#[test]
fn a_label_is_never_hit() {
    let ui = laid_out();
    let heading = ui.placed()[0].rect;
    assert_eq!(ui.hit(heading.center_x(), heading.center_y()), None);
}

#[test]
fn a_disabled_button_is_never_hit() {
    let widgets = vec![Widget::disabled_button(id(9), "Save")];
    let mut ui = Ui::new();
    ui.layout(&widgets, area(), 20);

    let rect = ui.placed()[0].rect;
    assert_eq!(ui.hit(rect.center_x(), rect.center_y()), None);
    assert_eq!(ui.click(rect.center_x(), rect.center_y()), None);
}

#[test]
fn a_point_outside_every_row_hits_nothing() {
    let ui = laid_out();
    assert_eq!(ui.hit(-10, -10), None);
    assert_eq!(ui.hit(10_000, 10_000), None);
}

#[test]
fn pointer_movement_reports_only_real_changes() {
    let mut ui = laid_out();
    let (x, y) = center_of(&ui, id(3));

    assert!(ui.set_pointer(x, y), "entering a widget is a change");
    assert!(!ui.set_pointer(x, y + 1), "still the same widget");
    assert!(ui.set_pointer(-100, -100), "leaving is a change");
    assert!(!ui.set_pointer(-200, -200), "still outside");
}

#[test]
fn clearing_the_pointer_reports_whether_it_had_to() {
    let mut ui = laid_out();
    let (x, y) = center_of(&ui, id(3));
    ui.set_pointer(x, y);
    assert!(ui.clear_pointer());
    assert!(!ui.clear_pointer(), "already clear");
}

#[test]
fn clicking_a_button_reports_a_press() {
    let mut ui = laid_out();
    let (x, y) = center_of(&ui, id(4));
    assert_eq!(ui.click(x, y), Some(UiAction::Pressed(id(4))));
}

#[test]
fn clicking_a_toggle_reports_the_value_it_should_become() {
    let mut ui = laid_out();
    let (x, y) = center_of(&ui, id(3));
    assert_eq!(ui.click(x, y), Some(UiAction::Toggled(id(3), true)));
}

#[test]
fn clicking_also_moves_focus_there() {
    let mut ui = laid_out();
    let (x, y) = center_of(&ui, id(4));
    ui.click(x, y);
    assert_eq!(ui.focused(), Some(id(4)));
}

#[test]
fn which_half_of_the_value_column_was_clicked_sets_the_direction() {
    let mut ui = laid_out();
    let value = ui.placed()[2].value_rect; // the stepper

    let up = ui.click(value.right() - 2, value.center_y());
    assert_eq!(up, Some(UiAction::Changed(id(2), fx(13.0))));

    let down = ui.click(value.x + 2, value.center_y());
    assert_eq!(down, Some(UiAction::Changed(id(2), fx(11.0))));
}

#[test]
fn clicking_the_label_side_focuses_without_changing_the_value() {
    let mut ui = laid_out();
    let row = ui.placed()[2].rect;
    let value = ui.placed()[2].value_rect;

    let x = (row.x + value.x) / 2; // left of the value column
    assert_eq!(ui.click(x, row.center_y()), None);
    assert_eq!(ui.focused(), Some(id(2)), "but focus still moved");
}

#[test]
fn a_stepper_clamps_to_its_range() {
    let widgets = vec![Widget::stepper(id(1), "Size", fx(31.5), fx(6.0), fx(32.0), fx(1.0), 1)];
    let mut ui = Ui::new();
    ui.layout(&widgets, area(), 20);
    ui.focus(id(1));
    match ui.key(UiKey::Right) {
        KeyResponse::Action(UiAction::Changed(_, v)) => assert_eq!(v, fx(32.0)),
        other => panic!("expected a clamped change, got {other:?}"),
    }
}

#[test]
fn a_stepper_at_its_limit_emits_nothing() {
    let widgets = vec![Widget::stepper(id(1), "Size", fx(32.0), fx(6.0), fx(32.0), fx(1.0), 1)];
    let mut ui = Ui::new();
    ui.layout(&widgets, area(), 20);
    ui.focus(id(1));

    assert_eq!(ui.key(UiKey::Right), KeyResponse::Consumed);
}

#[test]
fn stepper_values_display_with_the_requested_precision() {
    let integer = Widget::stepper(id(1), "Lines", fx(10000.0), fx(0.0), fx(1e6), fx(1000.0), 0);
    assert_eq!(integer.value_text().unwrap(), "‹ 10000 ›");

    let decimal = Widget::stepper(id(2), "Opacity", fx(0.95), fx(0.0), fx(1.0), fx(0.05), 2);
    assert_eq!(decimal.value_text().unwrap(), "‹ 0.95 ›");
}

#[test]
fn a_select_wraps_at_both_ends() {
    let widgets = vec![Widget::select(
        id(1),
        "Theme",
        vec!["a".into(), "b".into(), "c".into()],
        0,
    )];
    let mut ui = Ui::new();
    ui.layout(&widgets, area(), 20);
    ui.focus(id(1));
    match ui.key(UiKey::Left) {
        KeyResponse::Action(UiAction::Selected(_, i)) => assert_eq!(i, 2),
        other => panic!("expected a wrap, got {other:?}"),
    }
    let widgets = vec![Widget::select(
        id(1),
        "Theme",
        vec!["a".into(), "b".into(), "c".into()],
        2,
    )];
    ui.layout(&widgets, area(), 20);
    ui.focus(id(1));
    match ui.key(UiKey::Right) {
        KeyResponse::Action(UiAction::Selected(_, i)) => assert_eq!(i, 0),
        other => panic!("expected a wrap, got {other:?}"),
    }
}

#[test]
fn an_empty_select_is_inert_rather_than_panicking() {
    let widgets = vec![Widget::select(id(1), "Font", vec![], 0)];
    let mut ui = Ui::new();
    ui.layout(&widgets, area(), 20);
    ui.focus(id(1));

    assert_eq!(ui.key(UiKey::Right), KeyResponse::Consumed);
    assert_eq!(ui.placed()[0].widget.value_text().unwrap(), "‹ — ›");
}

#[test]
fn a_stale_select_index_is_clamped_at_construction() {
    let w = Widget::select(id(1), "Theme", vec!["only".into()], 7);
    match w {
        Widget::Select { index, .. } => assert_eq!(index, 0),
        _ => unreachable!(),
    }
}

#[test]
fn tab_moves_forward_skipping_labels() {
    let mut ui = laid_out();
    for expected in [id(1), id(2), id(3), id(4)] {
        ui.key(UiKey::Tab);
        assert_eq!(ui.focused(), Some(expected));
    }
}

#[test]
fn tab_wraps_at_the_end() {
    let mut ui = laid_out();
    for _ in 0..4 {
        ui.key(UiKey::Tab);
    }
    assert_eq!(ui.focused(), Some(id(4)));
    ui.key(UiKey::Tab);
    assert_eq!(ui.focused(), Some(id(1)), "should wrap to the first");
}

#[test]
fn shift_tab_from_nowhere_enters_at_the_last_control() {
    let mut ui = laid_out();
    ui.key(UiKey::ShiftTab);
    assert_eq!(ui.focused(), Some(id(4)));
}

#[test]
fn shift_tab_reverses() {
    let mut ui = laid_out();
    ui.focus(id(3));
    ui.key(UiKey::ShiftTab);
    assert_eq!(ui.focused(), Some(id(2)));
}

#[test]
fn up_and_down_move_focus_like_tab() {
    let mut ui = laid_out();
    ui.key(UiKey::Down);
    assert_eq!(ui.focused(), Some(id(1)));
    ui.key(UiKey::Down);
    assert_eq!(ui.focused(), Some(id(2)));
    ui.key(UiKey::Up);
    assert_eq!(ui.focused(), Some(id(1)));
}

#[test]
fn a_button_that_is_disabled_loses_the_focus() {
    let area = Rect::new(0, 0, 400, 600);
    let mut ui = Ui::new();
    ui.layout(&[Widget::button(id(1), "Save")], area, 20);
    ui.focus(id(1));
    assert_eq!(ui.focused(), Some(id(1)));
    ui.layout(&[Widget::disabled_button(id(1), "Save")], area, 20);
    assert_eq!(ui.focused(), None);
    assert_eq!(ui.key(UiKey::Activate), KeyResponse::Consumed);
}

#[test]
fn the_old_offset_is_kept_if_it_fits() {
    let rows = |n: u32| -> Vec<Widget> {
        (0..n).map(|i| Widget::toggle(id(i), "row", false)).collect()
    };
    let area = Rect::new(0, 10, 400, 200);
    let mut ui = Ui::new();
    ui.layout(&rows(60), area, 20);
    ui.scroll_by(100);
    let tall = ui.content_height();
    ui.layout(&rows(60), area, 20);
    assert_eq!(ui.scroll(), 100);
    assert_eq!(ui.content_height(), tall);
    assert_eq!(ui.body()[0].rect.y, 10 + 20 - 100);
    ui.layout(&rows(8), area, 20);
    assert_eq!(ui.max_scroll(), ui.content_height() - 200);
    assert_eq!(ui.scroll(), ui.max_scroll());
}

#[test]
fn focus_skips_disabled_buttons() {
    let widgets = vec![
        Widget::toggle(id(1), "a", false),
        Widget::disabled_button(id(2), "Save"),
        Widget::button(id(3), "Apply"),
    ];
    let mut ui = Ui::new();
    ui.layout(&widgets, area(), 20);

    ui.key(UiKey::Tab);
    assert_eq!(ui.focused(), Some(id(1)));
    ui.key(UiKey::Tab);
    assert_eq!(ui.focused(), Some(id(3)), "the disabled button is skipped");
}

#[test]
fn focus_survives_a_relayout_that_moves_the_widget() {
    let mut ui = laid_out();
    ui.focus(id(3));

    let mut grown = vec![
        Widget::heading("New group"),
        Widget::toggle(id(9), "x", false),
    ];
    grown.extend(sample());
    ui.layout(&grown, area(), 20);

    assert_eq!(ui.focused(), Some(id(3)), "focus should follow the widget");
}

#[test]
fn focus_is_dropped_when_its_widget_disappears() {
    let mut ui = laid_out();
    ui.focus(id(3));
    ui.layout(&[Widget::button(id(4), "Apply")], area(), 20);
    assert_eq!(ui.focused(), None);
}

#[test]
fn focusing_a_label_or_an_unknown_id_fails() {
    let mut ui = laid_out();
    assert!(!ui.focus(id(999)));
    assert_eq!(ui.focused(), None);
}

#[test]
fn a_panel_with_no_interactive_widgets_has_no_focus() {
    let mut ui = Ui::new();
    ui.layout(&[Widget::heading("Nothing here")], area(), 20);
    ui.key(UiKey::Tab);
    assert_eq!(ui.focused(), None);
}

#[test]
fn escape_asks_the_caller_to_close() {
    let mut ui = laid_out();
    assert_eq!(ui.key(UiKey::Escape), KeyResponse::Close);
}

#[test]
fn enter_activates_the_focused_widget() {
    let mut ui = laid_out();
    ui.focus(id(4));
    assert_eq!(
        ui.key(UiKey::Activate),
        KeyResponse::Action(UiAction::Pressed(id(4)))
    );

    ui.focus(id(3));
    assert_eq!(
        ui.key(UiKey::Activate),
        KeyResponse::Action(UiAction::Toggled(id(3), true))
    );
}

#[test]
fn enter_on_a_value_widget_advances_it() {
    let mut ui = laid_out();
    ui.focus(id(1));
    assert_eq!(
        ui.key(UiKey::Activate),
        KeyResponse::Action(UiAction::Selected(id(1), 1))
    );
}

#[test]
fn left_and_right_set_a_toggle_rather_than_flipping_it() {
    let mut ui = laid_out();
    ui.focus(id(3));

    assert_eq!(
        ui.key(UiKey::Right),
        KeyResponse::Action(UiAction::Toggled(id(3), true))
    );
    let widgets = vec![Widget::toggle(id(3), "Ligatures", true)];
    ui.layout(&widgets, area(), 20);
    ui.focus(id(3));
    assert_eq!(ui.key(UiKey::Right), KeyResponse::Consumed);
    assert_eq!(
        ui.key(UiKey::Left),
        KeyResponse::Action(UiAction::Toggled(id(3), false))
    );
}

#[test]
fn keys_with_no_focus_are_consumed_without_acting() {
    let mut ui = laid_out();
    assert_eq!(ui.key(UiKey::Activate), KeyResponse::Consumed);
    assert_eq!(ui.key(UiKey::Right), KeyResponse::Consumed);
}

#[test]
fn actions_report_the_widget_they_came_from() {
    assert_eq!(UiAction::Pressed(id(7)).id(), id(7));
    assert_eq!(UiAction::Toggled(id(7), true).id(), id(7));
    assert_eq!(UiAction::Selected(id(7), 2).id(), id(7));
    assert_eq!(UiAction::Changed(id(7), fx(1.0)).id(), id(7));
}

#[test]
fn interactivity_is_reported_per_kind() {
    assert!(!Widget::label("x").is_interactive());
    assert!(!Widget::heading("x").is_interactive());
    assert!(Widget::button(id(1), "x").is_interactive());
    assert!(!Widget::disabled_button(id(1), "x").is_interactive());
    assert!(Widget::toggle(id(1), "x", false).is_interactive());
}

#[test]
fn metrics_scale_with_the_cell_height() {
    let small = Metrics::from_cell_height(12);
    let large = Metrics::from_cell_height(30);
    assert!(large.row_height > small.row_height);
    assert!(large.padding > small.padding);
    assert!(large.value_width > small.value_width);
}
