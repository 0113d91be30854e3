//! Panels and the widgets in them.

use tuzminal::decimal::Fixed;
use tuzminal::draw::{
    center_panel, draw_menu, draw_panel_frame, draw_panel_title, draw_scrollbar, draw_toasts,
    draw_widgets, Toast, FOCUS_RING,
};
use tuzminal::geometry::Rect;
use tuzminal::scene::{Blend, Op, Tone};
use tuzminal::text::Font;
use tuzminal::ui::{Metrics, Ui, UiKey};
use tuzminal::widget::{Widget, WidgetId};

fn fx(value: f64) -> Fixed {
    Fixed::from_millionths((value * 1_000_000.0).round() as i64)
}

fn font() -> Font {
    Font { cell_width: 8, cell_height: 18 }
}

fn sample_ui() -> Ui {
    let widgets = vec![
        Widget::heading("Appearance"),
        Widget::toggle(WidgetId(1), "Ligatures", false),
        Widget::select(WidgetId(2), "Theme", vec!["a".into(), "b".into()], 0),
        Widget::stepper(WidgetId(3), "Font size", fx(12.0), fx(6.0), fx(32.0), fx(1.0), 1),
        Widget::button(WidgetId(4), "Apply"),
    ];
    let mut ui = Ui::new();
    ui.layout(&widgets, Rect::new(0, 0, 400, 400), 20);
    ui
}

fn widgets_of(ui: &Ui) -> Vec<Op> {
    let mut out = Vec::new();
    draw_widgets(&mut out, ui, font());
    out
}

fn fills(out: &[Op]) -> Vec<(Rect, Tone)> {
    out.iter()
        .filter_map(|op| match op {
            Op::Fill { rect, tone, .. } => Some((*rect, *tone)),
            _ => None,
        })
        .collect()
}

fn glyphs(out: &[Op]) -> usize {
    out.iter()
        .map(|op| match op {
            Op::Text { run, .. } => run.shown.chars().filter(|c| *c != ' ').count(),
            _ => 0,
        })
        .sum()
}

#[test]
fn the_dim_layer_covers_the_whole_window() {
    let mut out = Vec::new();
    let window = Rect::new(0, 0, 800, 600);
    draw_panel_frame(&mut out, window, Rect::new(100, 100, 400, 300));
    match out[0] {
        Op::Fill { rect, blend, .. } => {
            assert_eq!(rect, window);
            assert_eq!(blend, Blend::Dim, "the dim layer must be translucent");
        }
        _ => panic!("the dim is a fill"),
    }
}

#[test]
fn the_dim_stays_visible_on_a_transparent_window() {
    // Its alpha is its own and not the window's.
    let mut out = Vec::new();
    draw_panel_frame(&mut out, Rect::new(0, 0, 800, 600), Rect::new(100, 100, 400, 300));
    assert!(matches!(out[0], Op::Fill { blend: Blend::Dim, .. }));
}

#[test]
fn the_panel_is_drawn_as_a_border_plus_an_interior() {
    let mut out = Vec::new();
    draw_panel_frame(&mut out, Rect::new(0, 0, 800, 600), Rect::new(100, 100, 400, 300));
    assert_eq!(out.len(), 3);
    let fills = fills(&out);
    assert_eq!((fills[1].0.width, fills[1].0.height), (400, 300));
    assert!(
        fills[2].0.width < fills[1].0.width && fills[2].0.height < fills[1].0.height,
        "the interior must be inset inside the border"
    );
}

#[test]
fn the_title_bar_returns_the_area_left_for_widgets() {
    let mut out = Vec::new();
    let panel = Rect::new(0, 0, 400, 300);
    let body = draw_panel_title(&mut out, panel, "Settings", 20, font());
    assert!(body.y > panel.y, "the body must start below the title");
    assert_eq!(body.bottom(), panel.bottom());
    assert_eq!(body.height, panel.height - (body.y - panel.y) as u32);
}

#[test]
fn a_panel_shorter_than_its_title_does_not_underflow() {
    let mut out = Vec::new();
    let body = draw_panel_title(&mut out, Rect::new(0, 0, 400, 4), "Settings", 20, font());
    assert_eq!(body.height, 0);
}

#[test]
fn every_widget_produces_something_to_draw() {
    let out = widgets_of(&sample_ui());
    let glyphs = glyphs(&out);
    assert!(glyphs > 30, "expected widget text, got {glyphs} glyphs");
}

#[test]
fn backgrounds_are_all_appended_before_any_text() {
    let mut ui = sample_ui();
    ui.focus(WidgetId(1));
    let out = widgets_of(&ui);
    let first_text = out
        .iter()
        .position(|op| matches!(op, Op::Text { .. }))
        .expect("there should be text");
    let last_solid = out
        .iter()
        .rposition(|op| matches!(op, Op::Fill { .. }))
        .expect("there should be solids");
    assert!(
        last_solid < first_text,
        "a background at {last_solid} came after text at {first_text}"
    );
}

fn ring_edges(out: &[Op]) -> usize {
    fills(out)
        .iter()
        .filter(|(_, tone)| *tone == Tone::Cursor)
        .filter(|(r, _)| r.width == FOCUS_RING || r.height == FOCUS_RING)
        .count()
}

#[test]
fn the_focused_widget_gets_a_ring_in_the_cursor_color() {
    let mut ui = sample_ui();
    ui.focus(WidgetId(3));
    assert_eq!(ring_edges(&widgets_of(&ui)), 4, "a ring is four edges");
}

#[test]
fn nothing_is_ringed_when_nothing_has_focus() {
    assert_eq!(ring_edges(&widgets_of(&sample_ui())), 0);
}

#[test]
fn the_hovered_row_is_highlighted() {
    let mut ui = sample_ui();
    let rect = ui.rect_of(WidgetId(2)).unwrap();
    ui.set_pointer(rect.center_x(), rect.center_y());
    assert!(
        fills(&widgets_of(&ui))
            .iter()
            .any(|(r, tone)| *tone == Tone::BackgroundFocused && r.width == rect.width),
        "the hovered row should be filled"
    );
}

#[test]
fn a_buttons_box_is_exactly_the_rect_it_is_clicked_by() {
    let ui = sample_ui();
    let placed = ui
        .placed()
        .iter()
        .find(|p| matches!(p.widget, Widget::Button { .. }))
        .unwrap();
    let out = widgets_of(&ui);
    assert!(
        fills(&out).iter().any(|(r, _)| *r == placed.rect),
        "the button box must be drawn at the rect that hit-testing uses"
    );
    assert!(
        !fills(&out).iter().any(|(r, _)| r.width == placed.value_rect.width
            && placed.value_rect.width != placed.rect.width),
        "and never at the narrower value column"
    );
}

#[test]
fn a_disabled_button_still_shows_its_label() {
    let mut ui = Ui::new();
    ui.layout(
        &[Widget::disabled_button(WidgetId(1), "Save")],
        Rect::new(0, 0, 400, 100),
        20,
    );
    assert!(
        widgets_of(&ui)
            .iter()
            .any(|op| matches!(op, Op::Text { tone: Tone::BrightBlack, .. })),
        "a disabled button should be dimmed, not blank"
    );
}

#[test]
fn values_are_drawn_in_the_value_column() {
    let ui = sample_ui();
    let stepper = ui
        .placed()
        .iter()
        .find(|p| matches!(p.widget, Widget::Stepper { .. }))
        .unwrap();
    let column = stepper.value_rect;
    assert!(
        widgets_of(&ui).iter().any(|op| match op {
            Op::Text { run, .. } => {
                run.x2 >= 2 * column.x as i64
                    && run.top2 >= 2 * column.y as i64
                    && run.top2 < 2 * column.bottom() as i64
            }
            _ => false,
        }),
        "the stepper value should render in its value column"
    );
}

#[test]
fn widgets_stay_inside_the_area_they_were_laid_out_in() {
    let area = Rect::new(0, 0, 400, 400);
    for op in widgets_of(&sample_ui()) {
        let (left, right) = match op {
            Op::Fill { rect, .. } => (2 * rect.x as i64, 2 * rect.right() as i64),
            Op::Text { run, .. } => (run.x2, run.x2 + 2 * run.width as i64),
            _ => continue,
        };
        assert!(
            left >= 2 * area.x as i64 && right <= 2 * area.right() as i64,
            "{left}..{right} escapes the panel horizontally"
        );
    }
}

#[test]
fn a_value_change_is_reflected_the_next_time_it_is_drawn() {
    let mut ui = Ui::new();
    let mut glyphs_of = |value: f64| {
        ui.layout(
            &[Widget::stepper(
                WidgetId(1),
                "Size",
                fx(value),
                fx(0.0),
                fx(100.0),
                fx(1.0),
                0,
            )],
            Rect::new(0, 0, 400, 100),
            20,
        );
        glyphs(&widgets_of(&ui))
    };
    let one_digit = glyphs_of(9.0);
    let three_digits = glyphs_of(100.0);
    assert!(
        three_digits > one_digit,
        "a wider value should draw more glyphs ({three_digits} vs {one_digit})"
    );
}

#[test]
fn keyboard_focus_and_drawing_agree() {
    let mut ui = sample_ui();
    ui.key(UiKey::Tab);
    let focused = ui.focused().expect("tab should focus something");
    let rect = ui.rect_of(focused).unwrap();
    assert!(
        fills(&widgets_of(&ui))
            .iter()
            .any(|(r, tone)| *tone == Tone::Cursor && r.y == rect.y),
        "the ring should be on the focused row"
    );
}

#[test]
fn a_panel_is_centered_in_the_window() {
    let panel = center_panel(Rect::new(0, 0, 800, 600), 400, 300);
    assert_eq!(panel, Rect::new(200, 150, 400, 300));
}

#[test]
fn a_panel_larger_than_the_window_is_clamped_to_it() {
    let panel = center_panel(Rect::new(0, 0, 300, 200), 900, 700);
    assert_eq!(panel, Rect::new(0, 0, 300, 200));
}

#[test]
fn centering_respects_a_window_origin() {
    let panel = center_panel(Rect::new(50, 20, 400, 200), 200, 100);
    assert_eq!(panel, Rect::new(150, 70, 200, 100));
}

fn field() -> Ui {
    let mut ui = Ui::new();
    ui.layout(
        &[Widget::text(WidgetId(1), "Rename to", "README.md", "")],
        Rect::new(0, 0, 400, 200),
        20,
    );
    ui
}

#[test]
fn a_focused_text_field_has_one_border_not_a_ring_around_a_box() {
    let mut ui = field();
    ui.focus(WidgetId(1));
    let out = widgets_of(&ui);
    let row = ui.placed()[0].rect;
    assert!(
        !fills(&out)
            .iter()
            .any(|(r, tone)| *tone == Tone::Cursor && r.width == row.width),
        "a focused field should not also get a ring around its whole row"
    );
    assert!(
        fills(&out).iter().any(|(_, tone)| *tone == Tone::Cursor),
        "the field's own border should show focus"
    );
}

#[test]
fn an_unfocused_text_field_keeps_a_neutral_border() {
    assert!(
        !fills(&widgets_of(&field())).iter().any(|(_, tone)| *tone == Tone::Cursor),
        "an unfocused field must not look focused"
    );
}

#[test]
fn the_panel_title_lines_up_with_the_rows_beneath_it() {
    let panel = Rect::new(0, 0, 400, 300);
    let mut out = Vec::new();
    let body = draw_panel_title(
        &mut out,
        panel,
        "Settings",
        Metrics::from_cell_height(20).padding,
        font(),
    );
    let title_x = out
        .iter()
        .filter_map(|op| match op {
            Op::Text { run, .. } => Some(run.x2),
            _ => None,
        })
        .min()
        .unwrap();

    let mut ui = Ui::new();
    ui.layout(&[Widget::toggle(WidgetId(1), "Theme", false)], body, 20);
    let row_x = 2 * ui.placed()[0].rect.x as i64;
    assert_eq!(title_x, row_x);
}

#[test]
fn a_pressed_button_inverts_so_a_click_is_visible() {
    let mut ui = Ui::new();
    ui.layout(
        &[Widget::button(WidgetId(1), "Import")],
        Rect::new(0, 0, 400, 100),
        20,
    );
    let accent = |ui: &Ui| fills(&widgets_of(ui)).iter().any(|(_, tone)| *tone == Tone::Cursor);
    assert!(!accent(&ui), "an idle button should not look pressed");
    ui.set_pressed(Some(WidgetId(1)));
    assert!(accent(&ui), "a held button should invert");
}

#[test]
fn hover_and_press_are_different_looks_for_a_widget_button() {
    let mut ui = Ui::new();
    ui.layout(&[Widget::button(WidgetId(1), "Import")], Rect::new(0, 0, 400, 100), 20);
    let rect = ui.placed()[0].rect;
    ui.set_pointer(rect.x + 2, rect.y + 2);
    let hovered = fills(&widgets_of(&ui));
    ui.set_pressed(Some(WidgetId(1)));
    let held = fills(&widgets_of(&ui));
    assert_ne!(hovered, held);
}

#[test]
fn toasts_stack_upwards_from_the_bottom_right() {
    let window = Rect::new(0, 0, 400, 300);
    let toasts = [
        Toast { text: "older", accent: Tone::NormalRed, opacity: 1000 },
        Toast { text: "newer", accent: Tone::NormalBlue, opacity: 500 },
    ];
    let mut out = Vec::new();
    draw_toasts(&mut out, &toasts, window, font());
    let boxes: Vec<Rect> = fills(&out)
        .into_iter()
        .filter(|(_, tone)| *tone == Tone::BackgroundFocused)
        .map(|f| f.0)
        .collect();
    assert_eq!(boxes.len(), 2);
    assert!(boxes[1].bottom() <= boxes[0].y);
    assert!(boxes[0].bottom() <= window.bottom());
    assert!(out
        .iter()
        .any(|op| matches!(op, Op::Fill { blend: Blend::Fade(500), .. })));
}

#[test]
fn a_toast_fades_with_its_text() {
    let mut out = Vec::new();
    let toast = Toast { text: "gone", accent: Tone::NormalRed, opacity: 0 };
    draw_toasts(&mut out, &[toast], Rect::new(0, 0, 400, 300), font());
    assert_eq!(out.len(), 3);
    for op in &out {
        let blend = match op {
            Op::Fill { blend, .. } => *blend,
            Op::Text { blend, .. } => *blend,
            other => panic!("{other:?}"),
        };
        assert_eq!(blend, Blend::Fade(0));
    }
}

#[test]
fn a_scrollbar_shows_only_when_there_is_something_to_scroll() {
    let mut out = Vec::new();
    draw_scrollbar(&mut out, &sample_ui(), Rect::new(0, 0, 400, 400));
    assert!(out.is_empty());

    let many: Vec<Widget> = (0..60)
        .map(|i| Widget::toggle(WidgetId(i), "row", false))
        .collect();
    let mut ui = Ui::new();
    let area = Rect::new(0, 0, 400, 200);
    ui.layout(&many, area, 20);
    draw_scrollbar(&mut out, &ui, area);
    assert_eq!(out.len(), 2);
    match out[1] {
        Op::Thumb { x, top, .. } => {
            assert_eq!(x, 396);
            assert_eq!(top, 0, "unscrolled, the thumb is at the top");
        }
        _ => panic!("the thumb follows its track"),
    }
}

#[test]
fn the_selected_menu_row_is_inverted() {
    let rows = [(Rect::new(8, 8, 100, 24), "one"), (Rect::new(8, 32, 100, 24), "two")];
    let mut out = Vec::new();
    draw_menu(&mut out, Rect::new(0, 0, 116, 64), &rows, 1, font());
    let tones: Vec<Tone> = out
        .iter()
        .filter_map(|op| match op {
            Op::Text { tone, .. } => Some(*tone),
            _ => None,
        })
        .collect();
    assert_eq!(tones, [Tone::Foreground, Tone::Background]);
}
