//! Measuring, cutting and placing text.

use tuzminal::geometry::Rect;
use tuzminal::text::{draw, draw_in_box, measure, truncate, Align, Font};

const CELL: u32 = 10;

fn font() -> Font {
    Font { cell_width: 10, cell_height: 20 }
}

#[test]
fn ascii_measures_one_cell_per_character() {
    assert_eq!(measure("abc", CELL), 30);
    assert_eq!(measure("", CELL), 0);
}

#[test]
fn wide_characters_measure_two_cells() {
    assert_eq!(measure("日本", CELL), 40);
    assert_eq!(measure("a日", CELL), 30);
}

#[test]
fn combining_marks_add_no_width() {
    assert_eq!(measure("e\u{0301}", CELL), 10);
}

#[test]
fn text_that_fits_is_returned_unchanged_and_unallocated() {
    let out = truncate("abc", 100, CELL);
    assert_eq!(out, "abc");
    assert!(matches!(out, std::borrow::Cow::Borrowed(_)));
}

#[test]
fn overlong_text_is_truncated_to_something_that_actually_fits() {
    let out = truncate("abcdefghij", 50, CELL);
    assert!(out.ends_with('…'), "got {out:?}");
    assert!(
        measure(&out, CELL) <= 50,
        "`{out}` measures {} against a 50px budget",
        measure(&out, CELL)
    );
    assert_eq!(out, "abcd…");
}

#[test]
fn truncation_accounts_for_wide_characters() {
    let out = truncate("日本語", 40, CELL);
    assert!(measure(&out, CELL) <= 40, "`{out}` is too wide");
    assert!(out.ends_with('…'));
}

#[test]
fn a_budget_too_small_for_an_ellipsis_yields_nothing() {
    assert_eq!(truncate("abc", 5, CELL), "");
    assert_eq!(truncate("abc", 0, CELL), "");
}

#[test]
fn drawing_produces_one_instance_per_visible_glyph() {
    let (glyphs, width) = draw("abc", CELL);
    assert_eq!(glyphs.len(), 3);
    assert_eq!(width, CELL * 3);
}

#[test]
fn spaces_advance_without_emitting_an_instance() {
    let (glyphs, width) = draw("a b", CELL);
    assert_eq!(glyphs.len(), 2, "the space should draw nothing");
    assert_eq!(width, CELL * 3, "but it must still advance");
}

#[test]
fn glyphs_advance_left_to_right_from_the_given_origin() {
    let (glyphs, _) = draw("abc", CELL);
    let xs: Vec<u32> = glyphs.iter().map(|g| g.1).collect();
    assert!(xs[0] < xs[1] && xs[1] < xs[2], "got {xs:?}");
    assert_eq!(xs, [0, 10, 20]);
}

#[test]
fn box_alignment_places_text_where_asked() {
    let rect = Rect::new(0, 0, 200, 30);
    let x_of = |align: Align| draw_in_box("ab", rect, 4, align, font()).unwrap().x2;

    let left = x_of(Align::Left);
    let center = x_of(Align::Center);
    let right = x_of(Align::Right);

    assert!(left < center && center < right, "{left} {center} {right}");
    // Positions count half pixels.
    assert_eq!(left, 2 * 4);
    assert_eq!(center, 2 * (200 - 20) / 2);
    assert_eq!(right, 2 * (200 - 4 - 20));
}

#[test]
fn text_is_vertically_centered_within_its_box() {
    let rect = Rect::new(0, 0, 200, 60);
    let run = draw_in_box("Ay", rect, 0, Align::Left, font()).unwrap();
    let above = run.top2 - 2 * rect.y as i64;
    let below = 2 * rect.bottom() as i64 - (run.top2 + 2 * 20);
    assert!(above > 0 && below > 0, "text should be inset");
    assert_eq!(above, below);
}

#[test]
fn a_zero_width_box_draws_nothing() {
    let run = draw_in_box("hello", Rect::new(0, 0, 0, 20), 4, Align::Left, font());
    assert!(run.is_none());
}

#[test]
fn overlong_text_in_a_box_stays_inside_it() {
    let rect = Rect::new(0, 0, 50, 20);
    let run = draw_in_box("a very long tab title indeed", rect, 0, Align::Left, font()).unwrap();
    assert!(
        run.x2 + 2 * run.width as i64 <= 2 * rect.right() as i64,
        "text ran past the box edge {}",
        rect.right()
    );
    assert!(run.shown.ends_with('…'));
}

#[test]
fn control_characters_take_no_room() {
    assert_eq!(measure("a\u{7}b", CELL), 20);
    assert!(font().fits("any ordinary text"));
    let wide = Font { cell_width: 0x8000_0000, cell_height: 1 };
    assert!(!wide.fits("x"));
}
