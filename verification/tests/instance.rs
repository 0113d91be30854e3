//! What a terminal snapshot draws.

use tuzminal::instance::{
    build_pane, CellFlags, CellMetrics, CursorShape, PaneGeometry, PaneOp, RenderCell,
    RenderCursor, TerminalFrame, Underline, PIXEL,
};
use tuzminal::scene::Rgba;

const BACKGROUND: Rgba = Rgba { r: 16, g: 18, b: 24, a: 255 };
const FOREGROUND: Rgba = Rgba { r: 220, g: 220, b: 220, a: 255 };
const RED: Rgba = Rgba { r: 200, g: 40, b: 40, a: 255 };

const CELL_WIDTH: i64 = 8 * PIXEL;
const CELL_HEIGHT: i64 = 16 * PIXEL;

fn geometry() -> PaneGeometry {
    PaneGeometry {
        origin_x: 0,
        origin_y: 0,
        cell_width: CELL_WIDTH as u64,
        cell_height: CELL_HEIGHT as u64,
    }
}

fn metrics() -> CellMetrics {
    CellMetrics {
        baseline: 12 * PIXEL,
        underline_offset: 2 * PIXEL,
        underline_thickness: PIXEL,
        strikeout_offset: 5 * PIXEL,
        strikeout_thickness: PIXEL,
    }
}

fn cell(col: u16, row: u16, ch: char) -> RenderCell {
    RenderCell {
        col,
        row,
        ch,
        zerowidth: Vec::new(),
        fg: FOREGROUND,
        bg: BACKGROUND,
        underline_color: None,
        flags: CellFlags {
            bold: false,
            italic: false,
            strikeout: false,
            wide: false,
            underline: Underline::Absent,
        },
        blank: ch == ' ',
    }
}

fn frame(cells: Vec<RenderCell>) -> TerminalFrame {
    TerminalFrame { cells, cursor: None, background: BACKGROUND }
}

fn cursor(shape: CursorShape) -> RenderCursor {
    RenderCursor {
        col: 0,
        row: 0,
        shape,
        color: FOREGROUND,
        text_color: BACKGROUND,
        thickness: 150,
    }
}

fn pane(frame: &TerminalFrame) -> Vec<PaneOp> {
    let mut out = Vec::new();
    let added = build_pane(&mut out, frame, geometry(), metrics());
    assert_eq!(added, out.len());
    out
}

fn solids(out: &[PaneOp]) -> Vec<(i64, i64, i64, i64)> {
    out.iter()
        .filter_map(|op| match op {
            PaneOp::Solid { x, y, width, height, .. } => {
                Some((*x as i64, *y as i64, *width as i64, *height as i64))
            }
            PaneOp::Glyph { .. } => None,
        })
        .collect()
}

#[test]
fn a_default_background_cell_emits_no_background_quad() {
    let out = pane(&frame(vec![cell(0, 0, ' ')]));
    assert!(out.is_empty(), "got {} instances", out.len());
}

#[test]
fn opacity_fades_backgrounds_but_never_text() {
    let mut red = cell(0, 0, 'a');
    red.bg = RED;
    red.flags.underline = Underline::Single;
    let mut terminal = frame(vec![red]);
    terminal.cursor = Some(cursor(CursorShape::Beam));
    let out = pane(&terminal);
    assert!(matches!(out[0], PaneOp::Solid { fades: true, .. }));
    assert!(out[1..]
        .iter()
        .all(|op| !matches!(op, PaneOp::Solid { fades: true, .. })));
}

#[test]
fn text_produces_glyph_instances() {
    let out = pane(&frame(vec![cell(0, 0, 'a'), cell(1, 0, 'b'), cell(2, 0, 'c')]));
    assert!(out.len() >= 3, "expected at least one instance per glyph, got {}", out.len());
    assert_eq!(out.iter().filter(|op| matches!(op, PaneOp::Glyph { .. })).count(), 3);
}

#[test]
fn backgrounds_are_appended_before_glyphs() {
    let cells = ['a', 'b', 'c']
        .iter()
        .enumerate()
        .map(|(i, ch)| {
            let mut c = cell(i as u16, 0, *ch);
            c.bg = RED;
            c
        })
        .collect();
    let out = pane(&frame(cells));
    for (i, op) in out.iter().take(3).enumerate() {
        assert!(
            matches!(op, PaneOp::Solid { .. }),
            "instance {i} should be a solid background"
        );
    }
    let first_glyph = out
        .iter()
        .position(|op| matches!(op, PaneOp::Glyph { .. }))
        .expect("glyphs should be emitted");
    assert!(first_glyph >= 3, "a glyph at {first_glyph} precedes the backgrounds");
}

#[test]
fn cells_land_at_their_grid_position() {
    let mut first = cell(0, 0, ' ');
    first.bg = RED;
    let mut second = cell(0, 1, ' ');
    second.bg = RED;
    let out = pane(&frame(vec![first, second]));
    let places = solids(&out);
    assert!(places.iter().any(|s| (s.0, s.1) == (0, 0)));
    assert!(places.iter().any(|s| (s.0, s.1) == (0, 16 * PIXEL)));
}

#[test]
fn a_wide_glyph_gets_a_double_width_background() {
    let mut wide = cell(0, 0, '日');
    wide.bg = RED;
    wide.flags.wide = true;
    let out = pane(&frame(vec![wide]));
    assert!(
        solids(&out).iter().any(|s| s.2 == CELL_WIDTH * 2),
        "a wide cell's background must span two columns"
    );
}

fn underlined(underline: Underline) -> Vec<PaneOp> {
    let mut c = cell(0, 0, 'x');
    c.flags.underline = underline;
    pane(&frame(vec![c]))
}

#[test]
fn an_underline_adds_a_thin_solid_rect() {
    assert!(
        solids(&underlined(Underline::Single))
            .iter()
            .any(|s| s.3 < CELL_HEIGHT / 2),
        "expected a thin underline rect"
    );
}

#[test]
fn a_curly_underline_emits_multiple_segments() {
    let plain = underlined(Underline::Single).len();
    let curly = underlined(Underline::Curly).len();
    assert!(curly > plain, "undercurl should use several segments");
}

#[test]
fn a_block_cursor_redraws_the_glyph_underneath() {
    let mut terminal = frame(vec![cell(0, 0, 'x')]);
    terminal.cursor = Some(cursor(CursorShape::Block));
    let out = pane(&terminal);
    let last = out
        .iter()
        .rev()
        .find_map(|op| match op {
            PaneOp::Glyph { color, .. } => Some(*color),
            PaneOp::Solid { .. } => None,
        })
        .expect("a glyph should be drawn over the cursor");
    assert_eq!(last, BACKGROUND);
}

#[test]
fn a_hollow_block_cursor_draws_four_edges() {
    let mut terminal = frame(Vec::new());
    terminal.cursor = Some(cursor(CursorShape::HollowBlock));
    assert_eq!(pane(&terminal).len(), 4, "an outline needs exactly four rects");
}

#[test]
fn a_beam_cursor_is_narrow_and_full_height() {
    let mut terminal = frame(Vec::new());
    terminal.cursor = Some(cursor(CursorShape::Beam));
    let out = pane(&terminal);
    assert_eq!(out.len(), 1);
    let beam = solids(&out)[0];
    assert!(beam.2 < CELL_WIDTH);
    assert_eq!(beam.3, CELL_HEIGHT);
}

#[test]
fn no_cursor_means_no_cursor_instances() {
    assert_eq!(pane(&frame(Vec::new())).len(), 0);
}

#[test]
fn the_pane_origin_offsets_everything() {
    let mut red = cell(0, 0, ' ');
    red.bg = RED;
    let mut out = Vec::new();
    let moved = PaneGeometry {
        origin_x: 100 * PIXEL,
        origin_y: 50 * PIXEL,
        ..geometry()
    };
    build_pane(&mut out, &frame(vec![red]), moved, metrics());
    assert_eq!((solids(&out)[0].0, solids(&out)[0].1), (100 * PIXEL, 50 * PIXEL));
}

#[test]
fn a_strikeout_is_a_line_across_the_cell() {
    let mut c = cell(0, 0, 'x');
    c.flags.strikeout = true;
    let out = pane(&frame(vec![c]));
    assert!(solids(&out).iter().any(|s| s.2 == CELL_WIDTH && s.3 == PIXEL));
}

#[test]
fn cells_of_any_size_are_placed_exactly() {
    let mut far = cell(u16::MAX, u16::MAX, ' ');
    far.bg = RED;
    let huge = PaneGeometry {
        origin_x: i64::MIN,
        origin_y: 0,
        cell_width: u64::MAX,
        cell_height: u32::MAX as u64 * PIXEL as u64,
    };
    let mut out = Vec::new();
    build_pane(&mut out, &frame(vec![far]), huge, metrics());
    assert_eq!(
        out,
        vec![PaneOp::Solid {
            x: i64::MIN as i128 + 0xffff * u64::MAX as i128,
            y: 0xffff * u32::MAX as i128 * PIXEL as i128,
            width: u64::MAX as i128,
            height: u32::MAX as i128 * PIXEL as i128,
            color: RED,
            fades: true,
        }]
    );
}
