//! What a terminal snapshot draws.
//!
//! Everything a pane shows is a rectangle or a glyph. Operations are drawn in order with
//! no depth test, so they come in painter's order: backgrounds, then decorations, then
//! glyphs, then the cursor.
//!
//! Coordinates count 1024ths of a pixel, since fonts place their lines between pixels.

use vstd::prelude::*;

use crate::scene::Rgba;

verus! {

/// The quad samples the glyph atlas.
pub const FLAG_TEXTURED: u32 = 1;

/// The glyph carries its own color and must not be tinted.
pub const FLAG_COLOR_GLYPH: u32 = 2;

/// The quad's top corners follow the window's curve.
pub const FLAG_ROUND_TOP: u32 = 4;

/// The quad's bottom corners follow the window's curve.
pub const FLAG_ROUND_BOTTOM: u32 = 8;

/// The quad's top left corner follows the window's curve.
pub const FLAG_ROUND_TL: u32 = 16;

/// The quad's top right corner follows the window's curve.
pub const FLAG_ROUND_TR: u32 = 32;

/// Units in a pixel.
pub const PIXEL: i64 = 1024;

#[derive(Debug, Clone, Copy, PartialEq, Eq, Structural)]
pub enum Underline {
    Absent,
    Single,
    Double,
    Curly,
    Dotted,
    Dashed,
}

#[derive(Debug, Clone, Copy, PartialEq, Eq, Structural)]
pub enum CursorShape {
    Block,
    Beam,
    Underline,
    HollowBlock,
}

#[derive(Debug, Clone, Copy, PartialEq, Eq, Structural)]
pub struct CellFlags {
    pub bold: bool,
    pub italic: bool,
    pub strikeout: bool,
    /// The cell spans two columns.
    pub wide: bool,
    pub underline: Underline,
}

/// One cell of a snapshot.
#[derive(Debug, PartialEq)]
pub struct RenderCell {
    pub col: u16,
    pub row: u16,
    pub ch: char,
    /// Combining marks stacked on `ch`.
    pub zerowidth: Vec<char>,
    pub fg: Rgba,
    pub bg: Rgba,
    /// An underline's own color, when it has one.
    pub underline_color: Option<Rgba>,
    pub flags: CellFlags,
    /// There is no glyph to draw.
    pub blank: bool,
}

#[derive(Debug, Clone, Copy, PartialEq, Eq, Structural)]
pub struct RenderCursor {
    pub col: u16,
    pub row: u16,
    pub shape: CursorShape,
    pub color: Rgba,
    /// The color of a character under a block cursor.
    pub text_color: Rgba,
    /// Thickness of a beam or an underline, in thousandths of the cell.
    pub thickness: u32,
}

/// A terminal's visible contents.
#[derive(Debug, PartialEq)]
pub struct TerminalFrame {
    pub cells: Vec<RenderCell>,
    pub cursor: Option<RenderCursor>,
    /// The color the surface is already cleared to.
    pub background: Rgba,
}

/// Geometry of one pane's content area.
#[derive(Debug, Clone, Copy, PartialEq, Eq, Structural)]
pub struct PaneGeometry {
    pub origin_x: i64,
    pub origin_y: i64,
    pub cell_width: u64,
    pub cell_height: u64,
}

/// Where a font places its lines, measured from the top of a cell or its baseline.
#[derive(Debug, Clone, Copy, PartialEq, Eq, Structural)]
pub struct CellMetrics {
    pub baseline: i64,
    pub underline_offset: i64,
    pub underline_thickness: i64,
    pub strikeout_offset: i64,
    pub strikeout_thickness: i64,
}

/// One thing a pane draws.
#[derive(Debug, Clone, Copy, PartialEq, Eq, Structural)]
pub enum PaneOp {
    /// A rectangle. A background fades with the window; everything else is opaque.
    Solid { x: i128, y: i128, width: i128, height: i128, color: Rgba, fades: bool },
    /// A glyph, by its pen position on the baseline.
    Glyph { ch: char, bold: bool, italic: bool, x: i128, baseline: i128, color: Rgba },
}

impl PaneGeometry {
    pub open spec fn cell_x(self, col: u16) -> int {
        self.origin_x + col * self.cell_width
    }

    pub open spec fn cell_y(self, row: u16) -> int {
        self.origin_y + row * self.cell_height
    }
}

pub open spec fn solid(x: int, y: int, width: int, height: int, color: Rgba, fades: bool) -> PaneOp {
    PaneOp::Solid {
        x: x as i128,
        y: y as i128,
        width: width as i128,
        height: height as i128,
        color,
        fades,
    }
}

/// At least one pixel.
pub open spec fn at_least_a_pixel(n: int) -> int {
    if n >= PIXEL {
        n
    } else {
        PIXEL as int
    }
}

/// The width of a cell: two columns when it is wide.
pub open spec fn cell_span(cell: RenderCell, geom: PaneGeometry) -> int {
    if cell.flags.wide {
        2 * geom.cell_width
    } else {
        geom.cell_width as int
    }
}

/// A cell's background, unless the surface is already that color.
pub open spec fn background_ops(cell: RenderCell, background: Rgba, geom: PaneGeometry) -> Seq<
    PaneOp,
> {
    if cell.bg == background {
        Seq::empty()
    } else {
        seq![
            solid(
                geom.cell_x(cell.col),
                geom.cell_y(cell.row),
                cell_span(cell, geom),
                geom.cell_height as int,
                cell.bg,
                true,
            ),
        ]
    }
}

/// How many pieces start before `width`, one every `period`.
pub open spec fn pieces(width: int, period: int) -> int {
    if width <= 0 {
        0
    } else {
        (width + period - 1) / period
    }
}

pub open spec fn least(a: int, b: int) -> int {
    if a <= b {
        a
    } else {
        b
    }
}

/// A line of pieces `dash` long, one every `period`, the last one cut at the line's
/// end. Piece `k` is shifted up or down by `sway` when it is even or odd.
pub open spec fn broken_line(
    x: int,
    y: int,
    width: int,
    dash: int,
    period: int,
    sway: int,
    thickness: int,
    color: Rgba,
) -> Seq<PaneOp> {
    Seq::new(
        pieces(width, period) as nat,
        |k: int|
            solid(
                x + k * period,
                y + (if k % 2 == 0 {
                    -sway
                } else {
                    sway
                }),
                least(dash, width - k * period),
                thickness,
                color,
                false,
            ),
    )
}

/// A cell's underline.
pub open spec fn underline_ops(cell: RenderCell, geom: PaneGeometry, metrics: CellMetrics) -> Seq<
    PaneOp,
> {
    let x = geom.cell_x(cell.col);
    let y = geom.cell_y(cell.row) + metrics.baseline + metrics.underline_offset;
    let width = cell_span(cell, geom);
    let thickness = at_least_a_pixel(metrics.underline_thickness as int);
    let color = match cell.underline_color {
        Some(c) => c,
        None => cell.fg,
    };
    match cell.flags.underline {
        Underline::Absent => Seq::empty(),
        Underline::Single => seq![solid(x, y, width, thickness, color, false)],
        Underline::Double => seq![
            solid(x, y, width, thickness, color, false),
            solid(x, y + 2 * thickness, width, thickness, color, false),
        ],
        Underline::Dotted => broken_line(
            x,
            y,
            width,
            thickness,
            2 * thickness,
            0,
            thickness,
            color,
        ),
        Underline::Dashed => broken_line(
            x,
            y,
            width,
            3 * thickness,
            5 * thickness,
            0,
            thickness,
            color,
        ),
        // A sawtooth: short pieces alternating above and below the line.
        Underline::Curly => broken_line(
            x,
            y,
            width,
            2 * thickness,
            2 * thickness,
            thickness,
            thickness,
            color,
        ),
    }
}

/// A cell's strikeout.
pub open spec fn strikeout_ops(cell: RenderCell, geom: PaneGeometry, metrics: CellMetrics) -> Seq<
    PaneOp,
> {
    if cell.flags.strikeout {
        seq![
            solid(
                geom.cell_x(cell.col),
                geom.cell_y(cell.row) + metrics.baseline - metrics.strikeout_offset,
                cell_span(cell, geom),
                at_least_a_pixel(metrics.strikeout_thickness as int),
                cell.fg,
                false,
            ),
        ]
    } else {
        Seq::empty()
    }
}

/// One glyph of a cell.
pub open spec fn glyph(
    ch: char,
    cell: RenderCell,
    geom: PaneGeometry,
    metrics: CellMetrics,
    color: Rgba,
) -> PaneOp {
    PaneOp::Glyph {
        ch,
        bold: cell.flags.bold,
        italic: cell.flags.italic,
        x: geom.cell_x(cell.col) as i128,
        baseline: (geom.cell_y(cell.row) + metrics.baseline) as i128,
        color,
    }
}

/// A cell's glyph, then any combining marks stacked on it.
pub open spec fn glyph_ops(cell: RenderCell, geom: PaneGeometry, metrics: CellMetrics) -> Seq<
    PaneOp,
> {
    if cell.blank {
        Seq::empty()
    } else {
        seq![glyph(cell.ch, cell, geom, metrics, cell.fg)] + Seq::new(
            cell.zerowidth@.len(),
            |i: int| glyph(cell.zerowidth@[i], cell, geom, metrics, cell.fg),
        )
    }
}

/// The first of the first `n` cells at a position.
pub open spec fn cell_at(cells: Seq<RenderCell>, col: u16, row: u16, n: int) -> Option<int>
    decreases n,
{
    if n <= 0 {
        None
    } else if cell_at(cells, col, row, n - 1) is Some {
        cell_at(cells, col, row, n - 1)
    } else if cells[n - 1].col == col && cells[n - 1].row == row {
        Some(n - 1)
    } else {
        None
    }
}

/// The glyph a block cursor covers, redrawn in the cursor's text color: without it the
/// character under the cursor would vanish.
pub open spec fn covered_ops(
    cells: Seq<RenderCell>,
    cursor: RenderCursor,
    geom: PaneGeometry,
    metrics: CellMetrics,
) -> Seq<PaneOp> {
    match cell_at(cells, cursor.col, cursor.row, cells.len() as int) {
        Some(i) => if cells[i].blank {
            Seq::empty()
        } else {
            seq![glyph(cells[i].ch, cells[i], geom, metrics, cursor.text_color)]
        },
        None => Seq::empty(),
    }
}

/// The cursor. It stays opaque even in a transparent window.
pub open spec fn cursor_ops(
    cells: Seq<RenderCell>,
    cursor: RenderCursor,
    geom: PaneGeometry,
    metrics: CellMetrics,
) -> Seq<PaneOp> {
    let x = geom.cell_x(cursor.col);
    let y = geom.cell_y(cursor.row);
    let w = geom.cell_width as int;
    let h = geom.cell_height as int;
    match cursor.shape {
        CursorShape::Block => seq![solid(x, y, w, h, cursor.color, false)] + covered_ops(
            cells,
            cursor,
            geom,
            metrics,
        ),
        CursorShape::Beam => seq![
            solid(x, y, at_least_a_pixel(w * cursor.thickness / 1000), h, cursor.color, false),
        ],
        CursorShape::Underline => {
            let t = at_least_a_pixel(h * cursor.thickness / 1000);
            seq![solid(x, y + h - t, w, t, cursor.color, false)]
        },
        CursorShape::HollowBlock => {
            let t = at_least_a_pixel(w * 6 / 100);
            seq![
                solid(x, y, w, t, cursor.color, false),
                solid(x, y + h - t, w, t, cursor.color, false),
                solid(x, y, t, h, cursor.color, false),
                solid(x + w - t, y, t, h, cursor.color, false),
            ]
        },
    }
}

/// The backgrounds of the first `n` cells.
pub open spec fn backgrounds(
    cells: Seq<RenderCell>,
    background: Rgba,
    geom: PaneGeometry,
    n: int,
) -> Seq<PaneOp>
    decreases n,
{
    if n <= 0 {
        Seq::empty()
    } else {
        backgrounds(cells, background, geom, n - 1) + background_ops(
            cells[n - 1],
            background,
            geom,
        )
    }
}

/// The decorations of the first `n` cells.
pub open spec fn decorations(
    cells: Seq<RenderCell>,
    geom: PaneGeometry,
    metrics: CellMetrics,
    n: int,
) -> Seq<PaneOp>
    decreases n,
{
    if n <= 0 {
        Seq::empty()
    } else {
        decorations(cells, geom, metrics, n - 1) + underline_ops(cells[n - 1], geom, metrics)
            + strikeout_ops(cells[n - 1], geom, metrics)
    }
}

/// The glyphs of the first `n` cells.
pub open spec fn glyphs(
    cells: Seq<RenderCell>,
    geom: PaneGeometry,
    metrics: CellMetrics,
    n: int,
) -> Seq<PaneOp>
    decreases n,
{
    if n <= 0 {
        Seq::empty()
    } else {
        glyphs(cells, geom, metrics, n - 1) + glyph_ops(cells[n - 1], geom, metrics)
    }
}

/// What a pane draws, in painter's order.
pub open spec fn pane_ops(frame: TerminalFrame, geom: PaneGeometry, metrics: CellMetrics) -> Seq<
    PaneOp,
> {
    let cells = frame.cells@;
    let n = cells.len() as int;
    backgrounds(cells, frame.background, geom, n) + decorations(cells, geom, metrics, n) + glyphs(
        cells,
        geom,
        metrics,
        n,
    ) + (match frame.cursor {
        Some(cursor) => cursor_ops(cells, cursor, geom, metrics),
        None => Seq::empty(),
    })
}

fn x_of(geom: PaneGeometry, col: u16) -> (x: i128)
    ensures
        x == geom.cell_x(col),
        -0x2_0000_0000_0000_0000_0000 <= x <= 0x2_0000_0000_0000_0000_0000,
{
    proof {
        assert(0 <= col * geom.cell_width <= 0xffff * 0xffff_ffff_ffff_ffff) by (nonlinear_arith)
            requires
                0 <= col <= 0xffff,
                0 <= geom.cell_width <= 0xffff_ffff_ffff_ffff,
        ;
    }
    geom.origin_x as i128 + col as i128 * geom.cell_width as i128
}

fn y_of(geom: PaneGeometry, row: u16) -> (y: i128)
    ensures
        y == geom.cell_y(row),
        -0x2_0000_0000_0000_0000_0000 <= y <= 0x2_0000_0000_0000_0000_0000,
{
    proof {
        assert(0 <= row * geom.cell_height <= 0xffff * 0xffff_ffff_ffff_ffff) by (nonlinear_arith)
            requires
                0 <= row <= 0xffff,
                0 <= geom.cell_height <= 0xffff_ffff_ffff_ffff,
        ;
    }
    geom.origin_y as i128 + row as i128 * geom.cell_height as i128
}

fn span_of(cell: &RenderCell, geom: PaneGeometry) -> (width: i128)
    ensures
        width == cell_span(*cell, geom),
        0 <= width <= 0x2_0000_0000_0000_0000,
{
    if cell.flags.wide {
        2 * geom.cell_width as i128
    } else {
        geom.cell_width as i128
    }
}

fn thick(n: i128) -> (t: i128)
    ensures
        t == at_least_a_pixel(n as int),
        PIXEL <= t,
        t == PIXEL || t == n,
{
    if n >= PIXEL as i128 {
        n
    } else {
        PIXEL as i128
    }
}

/// Append a broken line.
fn push_broken_line(
    out: &mut Vec<PaneOp>,
    x: i128,
    y: i128,
    width: i128,
    dash: i128,
    period: i128,
    sway: i128,
    thickness: i128,
    color: Rgba,
)
    requires
        -0x10_0000_0000_0000_0000_0000_0000 <= x <= 0x10_0000_0000_0000_0000_0000_0000,
        -0x10_0000_0000_0000_0000_0000_0000 <= y <= 0x10_0000_0000_0000_0000_0000_0000,
        0 <= width <= 0x2_0000_0000_0000_0000,
        0 <= dash,
        1 <= period <= 0x10_0000_0000_0000_0000_0000_0000,
        0 <= sway <= 0x10_0000_0000_0000_0000_0000_0000,
    ensures
        final(out)@ == old(out)@ + broken_line(
            x as int,
            y as int,
            width as int,
            dash as int,
            period as int,
            sway as int,
            thickness as int,
            color,
        ),
{
    let ghost all = broken_line(
        x as int,
        y as int,
        width as int,
        dash as int,
        period as int,
        sway as int,
        thickness as int,
        color,
    );
    let ghost mut k: int = 0;
    let mut dx: i128 = 0;
    let mut up = true;
    proof {
        assert(0 * period == 0);
        lemma_pieces(width as int, period as int, 0);
    }
    while dx < width
        invariant
            -0x10_0000_0000_0000_0000_0000_0000 <= x <= 0x10_0000_0000_0000_0000_0000_0000,
            -0x10_0000_0000_0000_0000_0000_0000 <= y <= 0x10_0000_0000_0000_0000_0000_0000,
            0 <= width <= 0x2_0000_0000_0000_0000,
            0 <= dash,
            1 <= period <= 0x10_0000_0000_0000_0000_0000_0000,
            0 <= sway <= 0x10_0000_0000_0000_0000_0000_0000,
            0 <= k,
            dx == k * period,
            0 <= dx <= width + period,
            up == (k % 2 == 0),
            k <= pieces(width as int, period as int),
            dx < width <==> k < pieces(width as int, period as int),
            all == broken_line(
                x as int,
                y as int,
                width as int,
                dash as int,
                period as int,
                sway as int,
                thickness as int,
                color,
            ),
            out@ =~= old(out)@ + all.take(k),
        decreases width + period - dx,
    {
        let seg: i128 = if dash <= width - dx {
            dash
        } else {
            width - dx
        };
        let dy: i128 = if up {
            -sway
        } else {
            sway
        };
        out.push(
            PaneOp::Solid {
                x: x + dx,
                y: y + dy,
                width: seg,
                height: thickness,
                color,
                fades: false,
            },
        );
        dx = dx + period;
        up = !up;
        proof {
            assert((k + 1) * period == k * period + period) by (nonlinear_arith);
            lemma_pieces(width as int, period as int, k + 1);
            k = k + 1;
            assert(all.take(k) =~= all.take(k - 1).push(all[k - 1]));
        }
    }
    assert(all.take(k) =~= all);
}

/// Piece `k` starts before the end exactly when it is one of the pieces.
pub(crate) proof fn lemma_pieces(width: int, period: int, k: int)
    requires
        0 <= width,
        1 <= period,
        0 <= k,
    ensures
        k * period < width <==> k < pieces(width, period),
        pieces(width, period) >= 0,
{
    if width > 0 {
        let n = (width + period - 1) / period;
        let r = (width + period - 1) % period;
        vstd::arithmetic::div_mod::lemma_fundamental_div_mod(width + period - 1, period);
        vstd::arithmetic::div_mod::lemma_mod_bound(width + period - 1, period);
        assert(k < n ==> k * period + period <= period * n) by (nonlinear_arith)
            requires
                1 <= period,
        ;
        assert(k >= n ==> k * period >= period * n) by (nonlinear_arith)
            requires
                1 <= period,
        ;
        assert(n >= 0) by (nonlinear_arith)
            requires
                width + period - 1 == period * n + r,
                width >= 1,
                period >= 1,
                0 <= r < period,
        ;
    } else {
        assert(k * period >= 0) by (nonlinear_arith)
            requires
                k >= 0,
                period >= 1,
        ;
    }
}

/// Append a cell's underline and strikeout.
fn push_decorations(
    out: &mut Vec<PaneOp>,
    cell: &RenderCell,
    geom: PaneGeometry,
    metrics: CellMetrics,
)
    ensures
        final(out)@ == old(out)@ + underline_ops(*cell, geom, metrics) + strikeout_ops(
            *cell,
            geom,
            metrics,
        ),
{
    let x: i128 = x_of(geom, cell.col);
    let base: i128 = y_of(geom, cell.row) + metrics.baseline as i128;
    let y: i128 = base + metrics.underline_offset as i128;
    let width: i128 = span_of(cell, geom);
    let thickness: i128 = thick(metrics.underline_thickness as i128);
    // An underline can be colored independently of the text.
    let color = match cell.underline_color {
        Some(c) => c,
        None => cell.fg,
    };
    match cell.flags.underline {
        Underline::Absent => {},
        Underline::Single => {
            out.push(PaneOp::Solid { x, y, width, height: thickness, color, fades: false });
        },
        Underline::Double => {
            out.push(PaneOp::Solid { x, y, width, height: thickness, color, fades: false });
            out.push(
                PaneOp::Solid {
                    x,
                    y: y + 2 * thickness,
                    width,
                    height: thickness,
                    color,
                    fades: false,
                },
            );
        },
        Underline::Dotted => {
            push_broken_line(out, x, y, width, thickness, 2 * thickness, 0, thickness, color);
        },
        Underline::Dashed => {
            push_broken_line(out, x, y, width, 3 * thickness, 5 * thickness, 0, thickness, color);
        },
        Underline::Curly => {
            push_broken_line(
                out,
                x,
                y,
                width,
                2 * thickness,
                2 * thickness,
                thickness,
                thickness,
                color,
            );
        },
    }
    assert(out@ =~= old(out)@ + underline_ops(*cell, geom, metrics));
    if cell.flags.strikeout {
        out.push(
            PaneOp::Solid {
                x,
                y: base - metrics.strikeout_offset as i128,
                width,
                height: thick(metrics.strikeout_thickness as i128),
                color: cell.fg,
                fades: false,
            },
        );
    }
    assert(out@ =~= old(out)@ + underline_ops(*cell, geom, metrics) + strikeout_ops(
        *cell,
        geom,
        metrics,
    ));
}

/// Append a cell's glyphs.
fn push_glyphs(out: &mut Vec<PaneOp>, cell: &RenderCell, geom: PaneGeometry, metrics: CellMetrics)
    ensures
        final(out)@ == old(out)@ + glyph_ops(*cell, geom, metrics),
{
    if cell.blank {
        assert(out@ =~= old(out)@ + glyph_ops(*cell, geom, metrics));
        return ;
    }
    let x: i128 = x_of(geom, cell.col);
    let baseline: i128 = y_of(geom, cell.row) + metrics.baseline as i128;
    let (bold, italic) = (cell.flags.bold, cell.flags.italic);
    out.push(PaneOp::Glyph { ch: cell.ch, bold, italic, x, baseline, color: cell.fg });
    let mut i: usize = 0;
    while i < cell.zerowidth.len()
        invariant
            i <= cell.zerowidth@.len(),
            !cell.blank,
            x == geom.cell_x(cell.col),
            baseline == geom.cell_y(cell.row) + metrics.baseline,
            bold == cell.flags.bold,
            italic == cell.flags.italic,
            out@ =~= old(out)@ + glyph_ops(*cell, geom, metrics).take(i + 1),
        decreases cell.zerowidth@.len() - i,
    {
        out.push(
            PaneOp::Glyph { ch: cell.zerowidth[i], bold, italic, x, baseline, color: cell.fg },
        );
        i += 1;
        assert(glyph_ops(*cell, geom, metrics).take(i + 1) =~= glyph_ops(*cell, geom, metrics).take(
            i as int,
        ).push(glyph(cell.zerowidth@[i - 1], *cell, geom, metrics, cell.fg)));
    }
    assert(glyph_ops(*cell, geom, metrics).take(i + 1) =~= glyph_ops(*cell, geom, metrics));
}

proof fn lemma_cell_at_stays(cells: Seq<RenderCell>, col: u16, row: u16, i: int, n: int)
    requires
        0 <= i <= n,
        cell_at(cells, col, row, i) is Some,
    ensures
        cell_at(cells, col, row, n) == cell_at(cells, col, row, i),
    decreases n,
{
    if i < n {
        lemma_cell_at_stays(cells, col, row, i, n - 1);
    }
}

/// Append the glyph a block cursor covers.
fn push_covered(
    out: &mut Vec<PaneOp>,
    cells: &Vec<RenderCell>,
    cursor: RenderCursor,
    geom: PaneGeometry,
    metrics: CellMetrics,
)
    ensures
        final(out)@ == old(out)@ + covered_ops(cells@, cursor, geom, metrics),
{
    let mut i: usize = 0;
    while i < cells.len()
        invariant
            i <= cells@.len(),
            cell_at(cells@, cursor.col, cursor.row, i as int) is None,
            out@ == old(out)@,
        decreases cells@.len() - i,
    {
        if cells[i].col == cursor.col && cells[i].row == cursor.row {
            proof {
                lemma_cell_at_stays(cells@, cursor.col, cursor.row, i + 1, cells@.len() as int);
            }
            if !cells[i].blank {
                let x: i128 = x_of(geom, cells[i].col);
                let baseline: i128 = y_of(geom, cells[i].row) + metrics.baseline as i128;
                out.push(
                    PaneOp::Glyph {
                        ch: cells[i].ch,
                        bold: cells[i].flags.bold,
                        italic: cells[i].flags.italic,
                        x,
                        baseline,
                        color: cursor.text_color,
                    },
                );
            }
            assert(out@ =~= old(out)@ + covered_ops(cells@, cursor, geom, metrics));
            return ;
        }
        i += 1;
    }
    assert(out@ =~= old(out)@ + covered_ops(cells@, cursor, geom, metrics));
}

/// Append the cursor.
fn push_cursor(
    out: &mut Vec<PaneOp>,
    cursor: RenderCursor,
    cells: &Vec<RenderCell>,
    geom: PaneGeometry,
    metrics: CellMetrics,
)
    ensures
        final(out)@ == old(out)@ + cursor_ops(cells@, cursor, geom, metrics),
{
    let x: i128 = x_of(geom, cursor.col);
    let y: i128 = y_of(geom, cursor.row);
    let w: i128 = geom.cell_width as i128;
    let h: i128 = geom.cell_height as i128;
    let color = cursor.color;
    match cursor.shape {
        CursorShape::Block => {
            out.push(PaneOp::Solid { x, y, width: w, height: h, color, fades: false });
            push_covered(out, cells, cursor, geom, metrics);
            assert(out@ =~= old(out)@ + cursor_ops(cells@, cursor, geom, metrics));
        },
        CursorShape::Beam => {
            proof {
                lemma_fraction(w as int, cursor.thickness as int);
            }
            let t: i128 = thick(w * cursor.thickness as i128 / 1000);
            out.push(PaneOp::Solid { x, y, width: t, height: h, color, fades: false });
            assert(out@ =~= old(out)@ + cursor_ops(cells@, cursor, geom, metrics));
        },
        CursorShape::Underline => {
            proof {
                lemma_fraction(h as int, cursor.thickness as int);
            }
            let t: i128 = thick(h * cursor.thickness as i128 / 1000);
            out.push(PaneOp::Solid { x, y: y + h - t, width: w, height: t, color, fades: false });
            assert(out@ =~= old(out)@ + cursor_ops(cells@, cursor, geom, metrics));
        },
        CursorShape::HollowBlock => {
            let t: i128 = thick(w * 6 / 100);
            out.push(PaneOp::Solid { x, y, width: w, height: t, color, fades: false });
            out.push(PaneOp::Solid { x, y: y + h - t, width: w, height: t, color, fades: false });
            out.push(PaneOp::Solid { x, y, width: t, height: h, color, fades: false });
            out.push(PaneOp::Solid { x: x + w - t, y, width: t, height: h, color, fades: false });
            assert(out@ =~= old(out)@ + cursor_ops(cells@, cursor, geom, metrics));
        },
    }
}

proof fn lemma_fraction(n: int, share: int)
    requires
        0 <= n <= u64::MAX,
        0 <= share <= u32::MAX,
    ensures
        0 <= n * share <= u64::MAX * u32::MAX,
{
    assert(0 <= n * share <= u64::MAX * u32::MAX) by (nonlinear_arith)
        requires
            0 <= n <= u64::MAX,
            0 <= share <= u32::MAX,
    ;
}

/// Append what one pane draws. Returns how many operations were added.
pub fn build_pane(
    out: &mut Vec<PaneOp>,
    frame: &TerminalFrame,
    geom: PaneGeometry,
    metrics: CellMetrics,
) -> (added: usize)
    ensures
        final(out)@ == old(out)@ + pane_ops(*frame, geom, metrics),
        added == pane_ops(*frame, geom, metrics).len(),
        crate::pane_laws::shows_all_text(
            final(out)@.skip(old(out)@.len() as int),
            frame.cells@,
            geom,
            metrics,
        ),
        frame.cursor is None ==> crate::pane_laws::shows_no_other_text(
            final(out)@.skip(old(out)@.len() as int),
            frame.cells@,
            geom,
            metrics,
        ),
{
    let start: usize = out.len();
    let ghost cells = frame.cells@;
    let ghost before = out@;
    let n: usize = frame.cells.len();

    // All backgrounds before any glyph, so a cell's background can never paint over its
    // neighbour's glyph.
    let mut i: usize = 0;
    assert(before + backgrounds(cells, frame.background, geom, 0) =~= before);
    while i < n
        invariant
            i <= n == cells.len(),
            cells == frame.cells@,
            out@ == before + backgrounds(cells, frame.background, geom, i as int),
        decreases n - i,
    {
        let cell = &frame.cells[i];
        if cell.bg != frame.background {
            out.push(
                PaneOp::Solid {
                    x: x_of(geom, cell.col),
                    y: y_of(geom, cell.row),
                    width: span_of(cell, geom),
                    height: geom.cell_height as i128,
                    color: cell.bg,
                    fades: true,
                },
            );
        }
        i += 1;
        assert(out@ =~= before + backgrounds(cells, frame.background, geom, i as int));
    }

    // Decorations under the glyphs, so a descender crosses an underline rather than
    // being hidden by it.
    let ghost first = out@;
    let mut j: usize = 0;
    assert(first + decorations(cells, geom, metrics, 0) =~= first);
    while j < n
        invariant
            j <= n == cells.len(),
            cells == frame.cells@,
            out@ == first + decorations(cells, geom, metrics, j as int),
        decreases n - j,
    {
        push_decorations(out, &frame.cells[j], geom, metrics);
        j += 1;
        assert(out@ =~= first + decorations(cells, geom, metrics, j as int));
    }

    let ghost second = out@;
    let mut k: usize = 0;
    assert(second + glyphs(cells, geom, metrics, 0) =~= second);
    while k < n
        invariant
            k <= n == cells.len(),
            cells == frame.cells@,
            out@ == second + glyphs(cells, geom, metrics, k as int),
        decreases n - k,
    {
        push_glyphs(out, &frame.cells[k], geom, metrics);
        k += 1;
        assert(out@ =~= second + glyphs(cells, geom, metrics, k as int));
    }

    // The cursor last, so it sits on top of its cell's glyph.
    if let Some(cursor) = frame.cursor {
        push_cursor(out, cursor, &frame.cells, geom, metrics);
    }
    assert(out@ =~= before + pane_ops(*frame, geom, metrics));
    proof {
        crate::pane_laws::law_text_is_drawn(*frame, geom, metrics);
        assert(out@.skip(before.len() as int) =~= pane_ops(*frame, geom, metrics));
    }
    out.len() - start
}

/// Painter's order: no cell background is drawn over a glyph. Everything that fades
/// with the window comes before everything else.
pub proof fn law_backgrounds_come_first(
    frame: TerminalFrame,
    geom: PaneGeometry,
    metrics: CellMetrics,
    a: int,
    b: int,
)
    requires
        0 <= a < pane_ops(frame, geom, metrics).len(),
        0 <= b < pane_ops(frame, geom, metrics).len(),
        pane_ops(frame, geom, metrics)[a] matches PaneOp::Solid { fades, .. } && fades,
        !(pane_ops(frame, geom, metrics)[b] matches PaneOp::Solid { fades, .. } && fades),
    ensures
        a < b,
{
    let n = frame.cells@.len() as int;
    lemma_backgrounds_fade(frame.cells@, frame.background, geom, n);
    lemma_decorations_do_not_fade(frame.cells@, geom, metrics, n);
    lemma_glyphs_do_not_fade(frame.cells@, geom, metrics, n);
}

proof fn lemma_backgrounds_fade(
    cells: Seq<RenderCell>,
    background: Rgba,
    geom: PaneGeometry,
    n: int,
)
    requires
        0 <= n <= cells.len(),
    ensures
        forall|k: int|
            0 <= k < backgrounds(cells, background, geom, n).len() ==> (
            #[trigger] backgrounds(cells, background, geom, n)[k] matches PaneOp::Solid {
                fades,
                ..
            } && fades),
    decreases n,
{
    if n > 0 {
        lemma_backgrounds_fade(cells, background, geom, n - 1);
    }
}

proof fn lemma_decorations_do_not_fade(
    cells: Seq<RenderCell>,
    geom: PaneGeometry,
    metrics: CellMetrics,
    n: int,
)
    requires
        0 <= n <= cells.len(),
    ensures
        forall|k: int|
            0 <= k < decorations(cells, geom, metrics, n).len() ==> !(
            #[trigger] decorations(cells, geom, metrics, n)[k] matches PaneOp::Solid {
                fades,
                ..
            } && fades),
    decreases n,
{
    if n > 0 {
        lemma_decorations_do_not_fade(cells, geom, metrics, n - 1);
    }
}

proof fn lemma_glyphs_do_not_fade(
    cells: Seq<RenderCell>,
    geom: PaneGeometry,
    metrics: CellMetrics,
    n: int,
)
    requires
        0 <= n <= cells.len(),
    ensures
        forall|k: int|
            0 <= k < glyphs(cells, geom, metrics, n).len() ==> #[trigger] glyphs(
                cells,
                geom,
                metrics,
                n,
            )[k] is Glyph,
    decreases n,
{
    if n > 0 {
        lemma_glyphs_do_not_fade(cells, geom, metrics, n - 1);
    }
}

/// Every piece of a broken line is inside the line.
pub proof fn law_broken_line_stays_inside(
    x: int,
    y: int,
    width: int,
    dash: int,
    period: int,
    sway: int,
    thickness: int,
    color: Rgba,
    k: int,
)
    requires
        i128::MIN <= x,
        0 <= width,
        width <= i128::MAX,
        x + width <= i128::MAX,
        0 <= dash,
        1 <= period,
        0 <= k < broken_line(x, y, width, dash, period, sway, thickness, color).len(),
    ensures
        broken_line(x, y, width, dash, period, sway, thickness, color)[k] matches PaneOp::Solid {
            x: left,
            width: length,
            ..
        } && {
            &&& x <= left
            &&& left + length <= x + width
            &&& 0 <= length
        },
{
    lemma_pieces(width, period, k);
    assert(k * period >= 0) by (nonlinear_arith)
        requires
            k >= 0,
            period >= 1,
    ;
}

} // verus!
