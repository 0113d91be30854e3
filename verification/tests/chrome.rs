//! The tab strip, its buttons, and the status bar.

use tuzminal::chrome::{
    draw_chrome_buttons, draw_status_bar, draw_tab_bar, draw_tooltip, parse_color, StatusItem,
    TabLabel, ACTIVE_MARKER,
};
use tuzminal::geometry::Rect;
use tuzminal::scene::{Blend, ChromeButton, Corners, Op, Rgba, Tone};
use tuzminal::text::Font;

fn font() -> Font {
    Font { cell_width: 8, cell_height: 18 }
}

fn bar() -> Rect {
    Rect::new(0, 0, 600, 24)
}

/// Tabs side by side from the left, as wide as 180 pixels allow.
fn tab_rects(count: u32) -> Vec<Rect> {
    let width = (600 / count).clamp(60, 180);
    (0..count)
        .map(|i| Rect::new((i * width) as i32, 0, width, 24))
        .collect()
}

fn labels(active: usize, count: usize) -> Vec<TabLabel<'static>> {
    (0..count)
        .map(|i| TabLabel {
            title: "shell",
            active: i == active,
            has_activity: false,
            show_close: false,
            close_hovered: false,
        })
        .collect()
}

fn strip(tabs: &[Rect], labels: &[TabLabel]) -> Vec<Op> {
    let mut out = Vec::new();
    draw_tab_bar(&mut out, bar(), tabs, &[], labels, font());
    out
}

fn fills(out: &[Op]) -> Vec<(Rect, Tone)> {
    out.iter()
        .filter_map(|op| match op {
            Op::Fill { rect, tone, .. } => Some((*rect, *tone)),
            _ => None,
        })
        .collect()
}

fn texts(out: &[Op]) -> Vec<(String, i64, i64, Tone)> {
    out.iter()
        .filter_map(|op| match op {
            Op::Text { run, tone, .. } => {
                Some((run.shown.clone(), run.x2, run.x2 + 2 * run.width as i64, *tone))
            }
            _ => None,
        })
        .collect()
}

#[test]
fn a_hidden_bar_draws_nothing() {
    let mut out = Vec::new();
    draw_tab_bar(
        &mut out,
        Rect::new(0, 0, 600, 0),
        &[Rect::new(0, 0, 180, 0)],
        &[],
        &labels(0, 1),
        font(),
    );
    assert!(out.is_empty());
}

#[test]
fn no_tabs_draws_nothing() {
    assert!(
        strip(&[], &[]).is_empty(),
        "an empty strip should not paint a background"
    );
}

#[test]
fn the_strip_background_covers_the_whole_bar() {
    let out = strip(&tab_rects(2), &labels(0, 2));
    match out.first().expect("something should be drawn") {
        Op::Fill { rect, corners, .. } => {
            assert_eq!((rect.width, rect.height), (600, 24));
            assert_eq!(*corners, Corners::Top);
        }
        other => panic!("the strip background is a solid, not {other:?}"),
    }
}

#[test]
fn the_first_tab_draws_nothing_into_the_rounded_corner() {
    let out = strip(&tab_rects(2), &labels(1, 2));
    assert!(
        !fills(&out).iter().any(|(r, _)| r.x == bar().x && r.width == 1),
        "nothing should be drawn along the strip's left edge"
    );
}

#[test]
fn the_active_tab_is_visually_distinguished() {
    let out = strip(&tab_rects(2), &labels(0, 2));
    let fills = fills(&out);
    assert!(
        fills.iter().any(|(_, tone)| *tone == Tone::BackgroundFocused),
        "the active tab should use the focused pane background"
    );
    assert!(
        fills
            .iter()
            .any(|(r, tone)| *tone == Tone::Cursor && r.height == ACTIVE_MARKER),
        "the active tab should have a marker bar"
    );
}

#[test]
fn only_one_tab_gets_the_active_marker() {
    let out = strip(&tab_rects(4), &labels(2, 4));
    let markers = fills(&out)
        .iter()
        .filter(|(r, tone)| *tone == Tone::Cursor && r.height == ACTIVE_MARKER)
        .count();
    assert_eq!(markers, 1, "exactly one tab is active");
}

#[test]
fn tab_titles_are_drawn_as_glyphs() {
    let out = strip(&tab_rects(2), &labels(0, 2));
    let glyphs: usize = texts(&out).iter().map(|t| t.0.chars().count()).sum();
    assert!(glyphs >= 10, "expected tab titles, got {glyphs} glyphs");
}

#[test]
fn unseen_output_undims_the_tab_rather_than_marking_it() {
    let draw = |activity: bool| {
        let mut labels = labels(0, 2);
        labels[1].has_activity = activity;
        strip(&tab_rects(2), &labels)
    };
    let idle = draw(false);
    let busy = draw(true);

    let places = |out: &[Op]| -> Vec<i64> { texts(out).iter().map(|t| t.1).collect() };
    assert_eq!(places(&idle), places(&busy), "activity should not shift the title");

    let count = |out: &[Op], tone: Tone| texts(out).iter().filter(|t| t.3 == tone).count();
    assert!(
        count(&idle, Tone::BrightBlack) > 0,
        "an idle background tab should be dimmed"
    );
    assert!(
        count(&busy, Tone::BrightBlack) < count(&idle, Tone::BrightBlack),
        "unseen output should undim the tab"
    );
    assert!(count(&busy, Tone::Foreground) > count(&idle, Tone::Foreground));
}

#[test]
fn a_long_title_stays_inside_its_tab() {
    let tabs = tab_rects(8);
    let long = vec![TabLabel {
        title: "an extremely long tab title that cannot possibly fit",
        active: true,
        has_activity: false,
        show_close: false,
        close_hovered: false,
    }];
    let out = strip(&tabs[..1], &long);
    let right = texts(&out).iter().map(|t| t.2).max().unwrap();
    assert!(
        right <= 2 * tabs[0].right() as i64,
        "title ran past the tab edge {}",
        tabs[0].right()
    );
}

#[test]
fn a_hovered_tab_offers_its_close_button() {
    let tabs = tab_rects(1);
    let close = Rect::new(150, 4, 16, 16);
    let mut label = labels(0, 1);
    label[0].show_close = true;
    label[0].close_hovered = true;
    let mut out = Vec::new();
    draw_tab_bar(&mut out, bar(), &tabs, &[close], &label, font());
    assert!(out
        .iter()
        .any(|op| matches!(op, Op::Icon { button: ChromeButton::Close, rect, .. } if *rect == close)));
    assert!(fills(&out).iter().any(|(r, _)| *r == close), "the hover shows");
}

fn item(text: &str) -> StatusItem<'_> {
    StatusItem { text, foreground: None, background: None }
}

#[test]
fn an_empty_status_bar_still_paints_its_background() {
    let mut out = Vec::new();
    let _ = draw_status_bar(&mut out, Rect::new(0, 100, 600, 20), &[], &[], font());
    assert_eq!(out.len(), 1);
    assert_eq!(fills(&out)[0].0, Rect::new(0, 100, 600, 20));
}

#[test]
fn a_hidden_status_bar_draws_nothing() {
    let mut out = Vec::new();
    let placed = draw_status_bar(&mut out, Rect::new(0, 100, 600, 0), &[], &[item("x")], font());
    assert!(out.is_empty());
    assert!(placed.is_empty());
}

#[test]
fn segments_are_laid_out_from_the_right() {
    let bar = Rect::new(0, 100, 600, 20);
    let mut out = Vec::new();
    let placed = draw_status_bar(&mut out, bar, &[], &[item("first"), item("second")], font());
    assert_eq!(placed.len(), 2);
    // Eight pixels of padding, then 5 cells of 8 with a padding either side.
    assert_eq!(placed[0], Rect::new(600 - 8 - 56, 100, 56, 20));
    assert_eq!(placed[1], Rect::new(600 - 8 - 56 - 64, 100, 64, 20));
    let rightmost = texts(&out).iter().map(|t| t.1).max().unwrap();
    assert!(rightmost > bar.width as i64, "segments should hug the right edge");
}

#[test]
fn a_plugin_background_color_is_honored() {
    let mut out = Vec::new();
    let items = [StatusItem {
        text: "hot",
        foreground: Some("#ff0000"),
        background: Some("#00ff00"),
    }];
    let _ = draw_status_bar(&mut out, Rect::new(0, 100, 600, 20), &[], &items, font());
    let green = Tone::Own(Rgba { r: 0, g: 255, b: 0, a: 255 });
    let red = Tone::Own(Rgba { r: 255, g: 0, b: 0, a: 255 });
    assert!(
        fills(&out).iter().any(|(_, tone)| *tone == green),
        "the segment background should use the plugin's color"
    );
    assert_eq!(texts(&out)[0].3, red);
}

#[test]
fn a_malformed_plugin_color_falls_back_instead_of_failing() {
    assert_eq!(parse_color("not a color"), None);
    assert_eq!(parse_color("#ff0000"), Some(Rgba { r: 255, g: 0, b: 0, a: 255 }));

    let mut out = Vec::new();
    let items = [StatusItem {
        text: "x",
        foreground: Some("garbage"),
        background: Some("garbage"),
    }];
    let _ = draw_status_bar(&mut out, Rect::new(0, 100, 600, 20), &[], &items, font());
    assert!(texts(&out).iter().any(|t| t.3 == Tone::Foreground));
}

#[test]
fn segments_that_would_overflow_the_bar_are_dropped() {
    let narrow = Rect::new(0, 0, 80, 20);
    let items: Vec<StatusItem> = (0..10).map(|_| item("segment")).collect();
    let mut out = Vec::new();
    let placed = draw_status_bar(&mut out, narrow, &[], &items, font());
    assert_eq!(placed.len(), 1);
    let leftmost = texts(&out).iter().map(|t| t.1).min().unwrap();
    assert!(leftmost >= narrow.x as i64, "a segment was drawn off the left edge");
}

#[test]
fn built_in_segments_start_at_the_left_edge() {
    let bar = Rect::new(0, 100, 600, 24);
    let mut out = Vec::new();
    let left = [StatusItem { text: "~/src", foreground: None, background: Some("#00ff00") }];
    let _ = draw_status_bar(&mut out, bar, &left, &[], font());
    let green = Tone::Own(Rgba { r: 0, g: 255, b: 0, a: 255 });
    let seg = fills(&out)
        .into_iter()
        .find(|(_, tone)| *tone == green)
        .expect("the left segment should be drawn");
    assert!((seg.0.x as u32) < bar.width / 2);
    assert_eq!(seg.0.x, 8);
}

#[test]
fn the_two_blocks_never_overlap() {
    let mut out = Vec::new();
    let left = [StatusItem {
        text: "~/some/long/path/here",
        foreground: None,
        background: Some("#00ff00"),
    }];
    let right = [StatusItem { text: "main", foreground: None, background: Some("#ff0000") }];
    let _ = draw_status_bar(&mut out, Rect::new(0, 0, 600, 24), &left, &right, font());
    let find = |color: Rgba| {
        fills(&out)
            .into_iter()
            .find(|(_, tone)| *tone == Tone::Own(color))
            .expect("both segments should be drawn")
            .0
    };
    let left = find(Rgba { r: 0, g: 255, b: 0, a: 255 });
    let right = find(Rgba { r: 255, g: 0, b: 0, a: 255 });
    assert!(left.x < right.x);
    assert!(left.right() <= right.x);
}

#[test]
fn a_left_block_with_no_room_is_dropped_rather_than_drawn_under() {
    let mut out = Vec::new();
    let left = [StatusItem {
        text: "~/a/very/long/directory/name",
        foreground: None,
        background: Some("#00ff00"),
    }];
    let right = [item("a plugin segment that fills the bar")];
    let _ = draw_status_bar(&mut out, Rect::new(0, 0, 120, 24), &left, &right, font());
    let green = Tone::Own(Rgba { r: 0, g: 255, b: 0, a: 255 });
    assert!(
        !fills(&out).iter().any(|(_, tone)| *tone == green),
        "with no room left the built-in segment must be skipped, not overlapped"
    );
}

fn button_in(
    hovered: Option<ChromeButton>,
    pressed: Option<ChromeButton>,
    active: &[ChromeButton],
) -> Vec<Op> {
    let mut out = Vec::new();
    draw_chrome_buttons(
        &mut out,
        Rect::new(0, 0, 600, 40),
        &[(ChromeButton::Explorer, Rect::new(0, 0, 40, 40))],
        hovered,
        pressed,
        active,
    );
    out
}

#[test]
fn an_idle_button_paints_no_background() {
    let out = button_in(None, None, &[]);
    assert!(fills(&out).is_empty());
    assert_eq!(out.len(), 1);
}

#[test]
fn hover_press_and_active_are_three_different_looks() {
    let fill_of = |out: &[Op]| {
        fills(out)
            .into_iter()
            .find(|(r, _)| r.width == 40 && r.height == 40)
            .map(|f| f.1)
    };
    let hover = fill_of(&button_in(Some(ChromeButton::Explorer), None, &[]));
    let press = fill_of(&button_in(
        Some(ChromeButton::Explorer),
        Some(ChromeButton::Explorer),
        &[],
    ));
    let active = fill_of(&button_in(None, None, &[ChromeButton::Explorer]));

    assert!(hover.is_some() && press.is_some() && active.is_some());
    assert_ne!(hover, press, "a press must look different from a hover");
    assert_eq!(press, Some(Tone::Cursor), "pressed inverts to the accent color");
}

#[test]
fn an_open_panel_keeps_its_button_marked_after_the_pointer_leaves() {
    let out = button_in(None, None, &[ChromeButton::Explorer]);
    assert!(
        fills(&out)
            .iter()
            .any(|(r, tone)| *tone == Tone::Cursor && r.height == ACTIVE_MARKER),
        "an active button should keep a marker"
    );
}

#[test]
fn close_gets_a_red_press_rather_than_the_usual_accent() {
    let mut out = Vec::new();
    draw_chrome_buttons(
        &mut out,
        Rect::new(0, 0, 600, 40),
        &[(ChromeButton::Close, Rect::new(0, 0, 40, 40))],
        Some(ChromeButton::Close),
        Some(ChromeButton::Close),
        &[],
    );
    assert!(
        fills(&out).iter().any(|(_, tone)| *tone == Tone::NormalRed),
        "the button that loses work should say so"
    );
}

#[test]
fn a_tooltip_is_pulled_inside_the_window() {
    let window = Rect::new(0, 0, 300, 200);
    let mut out = Vec::new();
    draw_tooltip(&mut out, "Close the window", Rect::new(280, 0, 20, 24), window, font());
    let outer = fills(&out)[0].0;
    assert_eq!(outer.right(), window.right());
    assert_eq!(outer.y, 24 + 2);
    assert!(matches!(out[0], Op::Fill { blend: Blend::Opaque, .. }));

    let mut low = Vec::new();
    draw_tooltip(&mut low, "Close", Rect::new(0, 190, 20, 10), window, font());
    assert!(low.is_empty(), "better absent than clipped to a sliver");
}

#[test]
fn colors_are_six_hex_digits() {
    assert_eq!(parse_color("#0a0B0c"), Some(Rgba { r: 10, g: 11, b: 12, a: 255 }));
    assert_eq!(parse_color("#12345g"), None);
    assert_eq!(parse_color(""), None);
}
