//! What can be seen of a terminal's cells in what a pane draws.

use vstd::prelude::*;

use crate::instance::{
    CellMetrics, PaneGeometry, PaneOp, RenderCell, RenderCursor, TerminalFrame, Underline,
};
use crate::scene::Rgba;

verus! {

/// The left edge of a column.
pub open spec fn left_of(geom: PaneGeometry, col: u16) -> int {
    geom.origin_x + col * geom.cell_width
}

/// The upper edge of a row.
pub open spec fn top_of(geom: PaneGeometry, row: u16) -> int {
    geom.origin_y + row * geom.cell_height
}

/// A glyph of this character, in this color and with a cell's weight and slant, on the
/// baseline of that cell.
pub open spec fn writes(
    op: PaneOp,
    ch: char,
    cell: RenderCell,
    color: Rgba,
    geom: PaneGeometry,
    metrics: CellMetrics,
) -> bool {
    &&& op matches PaneOp::Glyph { ch: c, bold, italic, x, baseline, color: ink }
    &&& c == ch
    &&& bold == cell.flags.bold
    &&& italic == cell.flags.italic
    &&& x == geom.origin_x + cell.col * geom.cell_width
    &&& baseline == geom.origin_y + cell.row * geom.cell_height + metrics.baseline
    &&& ink == color
}

/// An opaque rectangle of this size and color.
pub open spec fn covers(
    op: PaneOp,
    left: int,
    top: int,
    wide: int,
    high: int,
    ink: Rgba,
    see_through: bool,
) -> bool {
    &&& op matches PaneOp::Solid { x, y, width, height, color, fades }
    &&& x == left
    &&& y == top
    &&& width == wide
    &&& height == high
    &&& color == ink
    &&& fades == see_through
}

/// Every character of every cell that is not blank, and every mark stacked on it, is among
/// the operations, at its cell and in the cell's own foreground color.
#[verifier::opaque]
pub open spec fn shows_all_text(
    ops: Seq<PaneOp>,
    cells: Seq<RenderCell>,
    geom: PaneGeometry,
    metrics: CellMetrics,
) -> bool {
    &&& forall|i: int|
        0 <= i < cells.len() && !(#[trigger] cells[i]).blank ==> exists|k: int|
            0 <= k < ops.len() && writes(
                #[trigger] ops[k],
                cells[i].ch,
                cells[i],
                cells[i].fg,
                geom,
                metrics,
            )
    &&& forall|i: int, m: int|
        0 <= i < cells.len() && !cells[i].blank && 0 <= m < cells[i].zerowidth@.len() ==> exists|
            k: int,
        |
            0 <= k < ops.len() && writes(
                #[trigger] ops[k],
                #[trigger] cells[i].zerowidth@[m],
                cells[i],
                cells[i].fg,
                geom,
                metrics,
            )
}

/// A glyph that one of the cells calls for: its character or one of its marks, in its
/// foreground color.
pub open spec fn is_text_of(
    op: PaneOp,
    cell: RenderCell,
    geom: PaneGeometry,
    metrics: CellMetrics,
) -> bool {
    &&& !cell.blank
    &&& {
        ||| writes(op, cell.ch, cell, cell.fg, geom, metrics)
        ||| exists|m: int|
            0 <= m < cell.zerowidth@.len() && writes(
                op,
                #[trigger] cell.zerowidth@[m],
                cell,
                cell.fg,
                geom,
                metrics,
            )
    }
}

/// Every glyph among the operations is text of one of the cells.
#[verifier::opaque]
pub open spec fn shows_no_other_text(
    ops: Seq<PaneOp>,
    cells: Seq<RenderCell>,
    geom: PaneGeometry,
    metrics: CellMetrics,
) -> bool {
    forall|k: int|
        0 <= k < ops.len() && #[trigger] ops[k] is Glyph ==> exists|i: int|
            0 <= i < cells.len() && is_text_of(ops[k], #[trigger] cells[i], geom, metrics)
}

/// How many characters and marks there are to draw.
pub open spec fn characters(cells: Seq<RenderCell>) -> nat
    decreases cells.len(),
{
    if cells.len() == 0 {
        0
    } else if cells.last().blank {
        characters(cells.drop_last())
    } else {
        characters(cells.drop_last()) + 1 + cells.last().zerowidth@.len()
    }
}

/// How many of the operations are glyphs.
pub open spec fn glyph_count(ops: Seq<PaneOp>) -> nat
    decreases ops.len(),
{
    if ops.len() == 0 {
        0
    } else {
        glyph_count(ops.drop_last()) + (if ops.last() is Glyph {
            1nat
        } else {
            0nat
        })
    }
}

pub(crate) proof fn lemma_places(geom: PaneGeometry, col: u16, row: u16)
    ensures
        -0x2_0000_0000_0000_0000_0000 <= geom.cell_x(col) <= 0x2_0000_0000_0000_0000_0000,
        -0x2_0000_0000_0000_0000_0000 <= geom.cell_y(row) <= 0x2_0000_0000_0000_0000_0000,
        geom.cell_x(col) == left_of(geom, col),
        geom.cell_y(row) == top_of(geom, row),
{
    assert(0 <= col * geom.cell_width <= 0xffff * 0xffff_ffff_ffff_ffff) by (nonlinear_arith)
        requires
            0 <= col <= 0xffff,
            0 <= geom.cell_width <= 0xffff_ffff_ffff_ffff,
    ;
    assert(0 <= row * geom.cell_height <= 0xffff * 0xffff_ffff_ffff_ffff) by (nonlinear_arith)
        requires
            0 <= row <= 0xffff,
            0 <= geom.cell_height <= 0xffff_ffff_ffff_ffff,
    ;
}

proof fn lemma_count_of_both(a: Seq<PaneOp>, b: Seq<PaneOp>)
    ensures
        glyph_count(a + b) == glyph_count(a) + glyph_count(b),
    decreases b.len(),
{
    if b.len() == 0 {
        assert(a + b =~= a);
    } else {
        assert((a + b).drop_last() =~= a + b.drop_last());
        lemma_count_of_both(a, b.drop_last());
    }
}

proof fn lemma_count(ops: Seq<PaneOp>)
    ensures
        (forall|k: int| 0 <= k < ops.len() ==> #[trigger] ops[k] is Glyph) ==> glyph_count(ops)
            == ops.len(),
        (forall|k: int| 0 <= k < ops.len() ==> !(#[trigger] ops[k] is Glyph)) ==> glyph_count(ops)
            == 0,
    decreases ops.len(),
{
    if ops.len() > 0 {
        lemma_count(ops.drop_last());
        assert(ops.last() == ops[ops.len() - 1]);
        assert forall|k: int| 0 <= k < ops.len() - 1 implies ops.drop_last()[k] == ops[k] by {}
    }
}

/// The glyphs of one cell are its character and its marks.
proof fn lemma_cell_text(cell: RenderCell, geom: PaneGeometry, metrics: CellMetrics)
    ensures
        ({
            let ops = crate::instance::glyph_ops(cell, geom, metrics);
            &&& cell.blank ==> ops.len() == 0
            &&& !cell.blank ==> {
                &&& ops.len() == 1 + cell.zerowidth@.len()
                &&& writes(ops[0], cell.ch, cell, cell.fg, geom, metrics)
                &&& forall|m: int|
                    0 <= m < cell.zerowidth@.len() ==> writes(
                        #[trigger] ops[m + 1],
                        cell.zerowidth@[m],
                        cell,
                        cell.fg,
                        geom,
                        metrics,
                    )
            }
            &&& forall|j: int|
                0 <= j < ops.len() ==> is_text_of(#[trigger] ops[j], cell, geom, metrics)
                    && ops[j] is Glyph
        }),
{
    lemma_places(geom, cell.col, cell.row);
    let ops = crate::instance::glyph_ops(cell, geom, metrics);
    assert forall|j: int| 0 <= j < ops.len() implies is_text_of(
        #[trigger] ops[j],
        cell,
        geom,
        metrics,
    ) && ops[j] is Glyph by {
        if j > 0 {
            assert(writes(ops[j], cell.zerowidth@[j - 1], cell, cell.fg, geom, metrics));
        }
    }
}

/// The glyphs of cell `i` are among those of the first `n`.
proof fn lemma_glyphs_hold(
    cells: Seq<RenderCell>,
    geom: PaneGeometry,
    metrics: CellMetrics,
    i: int,
    n: int,
)
    requires
        0 <= i < n <= cells.len(),
    ensures
        forall|j: int|
            0 <= j < crate::instance::glyph_ops(cells[i], geom, metrics).len()
                ==> crate::instance::glyphs(cells, geom, metrics, n).contains(
                #[trigger] crate::instance::glyph_ops(cells[i], geom, metrics)[j],
            ),
    decreases n,
{
    let all = crate::instance::glyphs(cells, geom, metrics, n);
    let before = crate::instance::glyphs(cells, geom, metrics, n - 1);
    let own = crate::instance::glyph_ops(cells[i], geom, metrics);
    if i < n - 1 {
        lemma_glyphs_hold(cells, geom, metrics, i, n - 1);
        assert forall|op: PaneOp| before.contains(op) implies all.contains(op) by {
            let k = choose|k: int| 0 <= k < before.len() && before[k] == op;
            assert(all[k] == op);
        }
    } else {
        assert(all == before + own);
        assert forall|j: int| 0 <= j < own.len() implies all.contains(#[trigger] own[j]) by {
            assert(all[before.len() + j] == own[j]);
        }
    }
}

proof fn lemma_glyphs_show(cells: Seq<RenderCell>, geom: PaneGeometry, metrics: CellMetrics)
    ensures
        shows_all_text(
            crate::instance::glyphs(cells, geom, metrics, cells.len() as int),
            cells,
            geom,
            metrics,
        ),
{
    reveal(shows_all_text);
    let n = cells.len() as int;
    let all = crate::instance::glyphs(cells, geom, metrics, n);
    assert forall|i: int| 0 <= i < n && !(#[trigger] cells[i]).blank implies exists|k: int|
        0 <= k < all.len() && writes(
            #[trigger] all[k],
            cells[i].ch,
            cells[i],
            cells[i].fg,
            geom,
            metrics,
        ) by {
        lemma_cell_text(cells[i], geom, metrics);
        lemma_glyphs_hold(cells, geom, metrics, i, n);
        let op = crate::instance::glyph_ops(cells[i], geom, metrics)[0];
        let k = choose|k: int| 0 <= k < all.len() && all[k] == op;
        assert(writes(all[k], cells[i].ch, cells[i], cells[i].fg, geom, metrics));
    }
    assert forall|i: int, m: int|
        0 <= i < n && !cells[i].blank && 0 <= m < cells[i].zerowidth@.len() implies exists|k: int|
        0 <= k < all.len() && writes(
            #[trigger] all[k],
            #[trigger] cells[i].zerowidth@[m],
            cells[i],
            cells[i].fg,
            geom,
            metrics,
        ) by {
        lemma_cell_text(cells[i], geom, metrics);
        lemma_glyphs_hold(cells, geom, metrics, i, n);
        let op = crate::instance::glyph_ops(cells[i], geom, metrics)[m + 1];
        let k = choose|k: int| 0 <= k < all.len() && all[k] == op;
        assert(writes(all[k], cells[i].zerowidth@[m], cells[i], cells[i].fg, geom, metrics));
    }
}

/// Every glyph of the first `n` cells is text of one of them.
proof fn lemma_glyphs(cells: Seq<RenderCell>, geom: PaneGeometry, metrics: CellMetrics, n: int)
    requires
        0 <= n <= cells.len(),
    ensures
        forall|k: int|
            0 <= k < crate::instance::glyphs(cells, geom, metrics, n).len() ==> exists|i: int|
                0 <= i < n && is_text_of(
                    #[trigger] crate::instance::glyphs(cells, geom, metrics, n)[k],
                    #[trigger] cells[i],
                    geom,
                    metrics,
                ),
        forall|k: int|
            0 <= k < crate::instance::glyphs(cells, geom, metrics, n).len()
                ==> #[trigger] crate::instance::glyphs(cells, geom, metrics, n)[k] is Glyph,
        crate::instance::glyphs(cells, geom, metrics, n).len() == characters(cells.take(n)),
    decreases n,
{
    let all = crate::instance::glyphs(cells, geom, metrics, n);
    if n > 0 {
        lemma_glyphs(cells, geom, metrics, n - 1);
        let before = crate::instance::glyphs(cells, geom, metrics, n - 1);
        let own = crate::instance::glyph_ops(cells[n - 1], geom, metrics);
        lemma_cell_text(cells[n - 1], geom, metrics);
        assert(all == before + own);
        assert(cells.take(n).drop_last() =~= cells.take(n - 1));
        assert forall|k: int| 0 <= k < all.len() implies exists|i: int|
            0 <= i < n && is_text_of(#[trigger] all[k], #[trigger] cells[i], geom, metrics) by {
            if k < before.len() {
                assert(all[k] == before[k]);
                let i = choose|i: int|
                    0 <= i < n - 1 && is_text_of(before[k], #[trigger] cells[i], geom, metrics);
                assert(is_text_of(all[k], cells[i], geom, metrics));
            } else {
                assert(all[k] == own[k - before.len()]);
                assert(is_text_of(all[k], cells[n - 1], geom, metrics));
            }
        }
        assert forall|k: int| 0 <= k < all.len() implies #[trigger] all[k] is Glyph by {
            if k < before.len() {
                assert(all[k] == before[k]);
            } else {
                assert(all[k] == own[k - before.len()]);
            }
        }
    }
}

/// A frame's cells without its cursor.
pub open spec fn without_cursor(frame: TerminalFrame) -> TerminalFrame {
    TerminalFrame { cursor: None, ..frame }
}

/// Text can be read: every character and every mark of the frame is drawn at its cell, in
/// the cell's own foreground color, weight and slant. Nothing else is written: without a
/// cursor there are as many glyphs as there are characters, and each is one of them.
pub proof fn law_text_is_drawn(frame: TerminalFrame, geom: PaneGeometry, metrics: CellMetrics)
    ensures
        shows_all_text(
            crate::instance::pane_ops(frame, geom, metrics),
            frame.cells@,
            geom,
            metrics,
        ),
        frame.cursor is None ==> shows_no_other_text(
            crate::instance::pane_ops(frame, geom, metrics),
            frame.cells@,
            geom,
            metrics,
        ),
        frame.cursor is None ==> glyph_count(crate::instance::pane_ops(frame, geom, metrics))
            == characters(frame.cells@),
{
    let cells = frame.cells@;
    let n = cells.len() as int;
    let ops = crate::instance::pane_ops(frame, geom, metrics);
    let back = crate::instance::backgrounds(cells, frame.background, geom, n);
    let lines = crate::instance::decorations(cells, geom, metrics, n);
    let text = crate::instance::glyphs(cells, geom, metrics, n);
    let rest = ops.skip((back.len() + lines.len() + text.len()) as int);
    assert(cells.take(n) =~= cells);
    lemma_glyphs_show(cells, geom, metrics);
    assert(ops =~= (back + lines) + text + rest);
    lemma_text_among(back + lines, text, rest, cells, geom, metrics);
    if frame.cursor is None {
        assert(rest =~= Seq::empty());
        assert(ops =~= (back + lines) + text);
        lemma_only_text(frame, geom, metrics);
    }
}

/// Text stays text among other operations.
proof fn lemma_text_among(
    before: Seq<PaneOp>,
    text: Seq<PaneOp>,
    rest: Seq<PaneOp>,
    cells: Seq<RenderCell>,
    geom: PaneGeometry,
    metrics: CellMetrics,
)
    requires
        shows_all_text(text, cells, geom, metrics),
    ensures
        shows_all_text(before + text + rest, cells, geom, metrics),
{
    reveal(shows_all_text);
    let ops = before + text + rest;
    assert forall|k: int| 0 <= k < text.len() implies ops[before.len() + k] == text[k] by {}
    assert forall|i: int| 0 <= i < cells.len() && !(#[trigger] cells[i]).blank implies exists|
        k: int,
    |
        0 <= k < ops.len() && writes(
            #[trigger] ops[k],
            cells[i].ch,
            cells[i],
            cells[i].fg,
            geom,
            metrics,
        ) by {
        let k = choose|k: int|
            0 <= k < text.len() && writes(
                #[trigger] text[k],
                cells[i].ch,
                cells[i],
                cells[i].fg,
                geom,
                metrics,
            );
        assert(ops[before.len() + k] == text[k]);
    }
    assert forall|i: int, m: int|
        0 <= i < cells.len() && !cells[i].blank && 0 <= m < cells[i].zerowidth@.len() implies exists|
        k: int,
    |
        0 <= k < ops.len() && writes(
            #[trigger] ops[k],
            #[trigger] cells[i].zerowidth@[m],
            cells[i],
            cells[i].fg,
            geom,
            metrics,
        ) by {
        let ch = cells[i].zerowidth@[m];
        let k = choose|k: int|
            0 <= k < text.len() && writes(
                #[trigger] text[k],
                ch,
                cells[i],
                cells[i].fg,
                geom,
                metrics,
            );
        assert(ops[before.len() + k] == text[k]);
    }
}

proof fn lemma_only_text(frame: TerminalFrame, geom: PaneGeometry, metrics: CellMetrics)
    requires
        frame.cursor is None,
    ensures
        shows_no_other_text(
            crate::instance::pane_ops(frame, geom, metrics),
            frame.cells@,
            geom,
            metrics,
        ),
        glyph_count(crate::instance::pane_ops(frame, geom, metrics)) == characters(frame.cells@),
{
    reveal(shows_no_other_text);
    let cells = frame.cells@;
    let n = cells.len() as int;
    let ops = crate::instance::pane_ops(frame, geom, metrics);
    let back = crate::instance::backgrounds(cells, frame.background, geom, n);
    let lines = crate::instance::decorations(cells, geom, metrics, n);
    let text = crate::instance::glyphs(cells, geom, metrics, n);
    let start = back.len() + lines.len();
    assert(cells.take(n) =~= cells);
    assert(ops =~= back + lines + text);
    lemma_glyphs(cells, geom, metrics, n);
    assert forall|k: int| 0 <= k < back.len() implies !(#[trigger] back[k] is Glyph) by {
        lemma_backgrounds(cells, frame.background, geom, n);
    }
    assert forall|k: int| 0 <= k < lines.len() implies !(#[trigger] lines[k] is Glyph) by {
        lemma_lines_are_solid(cells, geom, metrics, n);
    }
    assert forall|k: int| 0 <= k < ops.len() && #[trigger] ops[k] is Glyph implies exists|i: int|
        0 <= i < cells.len() && is_text_of(ops[k], #[trigger] cells[i], geom, metrics) by {
        if k < back.len() {
            assert(ops[k] == back[k]);
        } else if k < start {
            assert(ops[k] == lines[k - back.len()]);
        } else {
            assert(ops[k] == text[k - start]);
        }
    }
    lemma_count_of_both(back + lines, text);
    lemma_count_of_both(back, lines);
    lemma_count(back);
    lemma_count(lines);
    lemma_count(text);
}

/// A cell's background: its whole extent in its own color, seen through as the window is.
pub open spec fn is_background_of(op: PaneOp, cell: RenderCell, geom: PaneGeometry) -> bool {
    covers(
        op,
        left_of(geom, cell.col),
        top_of(geom, cell.row),
        if cell.flags.wide {
            2 * geom.cell_width
        } else {
            geom.cell_width as int
        },
        geom.cell_height as int,
        cell.bg,
        true,
    )
}

proof fn lemma_backgrounds(
    cells: Seq<RenderCell>,
    background: Rgba,
    geom: PaneGeometry,
    n: int,
)
    requires
        0 <= n <= cells.len(),
    ensures
        forall|k: int|
            0 <= k < crate::instance::backgrounds(cells, background, geom, n).len() ==> !(
            #[trigger] crate::instance::backgrounds(cells, background, geom, n)[k] is Glyph),
        forall|k: int|
            0 <= k < crate::instance::backgrounds(cells, background, geom, n).len() ==> exists|
                i: int,
            |
                0 <= i < n && cells[i].bg != background && is_background_of(
                    #[trigger] crate::instance::backgrounds(cells, background, geom, n)[k],
                    #[trigger] cells[i],
                    geom,
                ),
        forall|i: int|
            0 <= i < n && (#[trigger] cells[i]).bg != background ==> exists|k: int|
                0 <= k < crate::instance::backgrounds(cells, background, geom, n).len()
                    && is_background_of(
                    #[trigger] crate::instance::backgrounds(cells, background, geom, n)[k],
                    cells[i],
                    geom,
                ),
    decreases n,
{
    let all = crate::instance::backgrounds(cells, background, geom, n);
    if n > 0 {
        lemma_backgrounds(cells, background, geom, n - 1);
        let before = crate::instance::backgrounds(cells, background, geom, n - 1);
        let cell = cells[n - 1];
        lemma_places(geom, cell.col, cell.row);
        assert forall|k: int| 0 <= k < before.len() implies all[k] == before[k] by {}
        assert forall|k: int| 0 <= k < all.len() implies exists|i: int|
            0 <= i < n && cells[i].bg != background && is_background_of(
                #[trigger] all[k],
                #[trigger] cells[i],
                geom,
            ) by {
            if k < before.len() {
                assert(all[k] == before[k]);
                let i = choose|i: int|
                    0 <= i < n - 1 && cells[i].bg != background && is_background_of(
                        before[k],
                        #[trigger] cells[i],
                        geom,
                    );
                assert(is_background_of(all[k], cells[i], geom));
            } else {
                assert(is_background_of(all[k], cells[n - 1], geom));
            }
        }
        assert forall|i: int| 0 <= i < n && (#[trigger] cells[i]).bg != background implies exists|
            k: int,
        |
            0 <= k < all.len() && is_background_of(#[trigger] all[k], cells[i], geom) by {
            if i < n - 1 {
                let k = choose|k: int|
                    0 <= k < before.len() && is_background_of(#[trigger] before[k], cells[i], geom);
                assert(all[k] == before[k]);
            } else {
                assert(is_background_of(all[before.len() as int], cell, geom));
            }
        }
    }
}

/// Every cell whose background differs from the surface's is filled with its own, over its
/// whole extent; and whatever is seen through is one of these fills.
pub proof fn law_backgrounds_are_filled(
    frame: TerminalFrame,
    geom: PaneGeometry,
    metrics: CellMetrics,
)
    ensures
        ({
            let ops = crate::instance::pane_ops(frame, geom, metrics);
            let cells = frame.cells@;
            &&& forall|i: int|
                0 <= i < cells.len() && (#[trigger] cells[i]).bg != frame.background ==> exists|
                    k: int,
                |
                    0 <= k < ops.len() && is_background_of(#[trigger] ops[k], cells[i], geom)
            &&& forall|k: int|
                0 <= k < ops.len() && (#[trigger] ops[k] matches PaneOp::Solid { fades, .. }
                    && fades) ==> exists|i: int|
                    0 <= i < cells.len() && cells[i].bg != frame.background && is_background_of(
                        ops[k],
                        #[trigger] cells[i],
                        geom,
                    )
        }),
{
    let ops = crate::instance::pane_ops(frame, geom, metrics);
    let cells = frame.cells@;
    let n = cells.len() as int;
    let back = crate::instance::backgrounds(cells, frame.background, geom, n);
    lemma_backgrounds(cells, frame.background, geom, n);
    lemma_lines_are_solid(cells, geom, metrics, n);
    lemma_glyphs(cells, geom, metrics, n);
    assert forall|i: int| 0 <= i < cells.len() && (#[trigger] cells[i]).bg
        != frame.background implies exists|k: int|
        0 <= k < ops.len() && is_background_of(#[trigger] ops[k], cells[i], geom) by {
        let k = choose|k: int|
            0 <= k < back.len() && is_background_of(#[trigger] back[k], cells[i], geom);
        assert(ops[k] == back[k]);
    }
    assert forall|k: int|
        0 <= k < ops.len() && (#[trigger] ops[k] matches PaneOp::Solid { fades, .. }
            && fades) implies exists|i: int|
        0 <= i < cells.len() && cells[i].bg != frame.background && is_background_of(
            ops[k],
            #[trigger] cells[i],
            geom,
        ) by {
        let lines = crate::instance::decorations(cells, geom, metrics, n);
        let text = crate::instance::glyphs(cells, geom, metrics, n);
        if k < back.len() {
            assert(ops[k] == back[k]);
        } else if k < back.len() + lines.len() {
            assert(ops[k] == lines[k - back.len()]);
        } else if k < back.len() + lines.len() + text.len() {
            assert(ops[k] == text[k - back.len() - lines.len()]);
        }
    }
}

/// A line of a cell: opaque, in the underline's own color where it has one and otherwise
/// in the color of the text, and for a strikeout always in the color of the text.
pub open spec fn is_line_of(op: PaneOp, cell: RenderCell) -> bool {
    &&& op matches PaneOp::Solid { color, fades, .. }
    &&& !fades
    &&& {
        ||| !(cell.flags.underline is Absent) && color == (match cell.underline_color {
            Some(c) => c,
            None => cell.fg,
        })
        ||| cell.flags.strikeout && color == cell.fg
    }
}

proof fn lemma_lines_are_solid(
    cells: Seq<RenderCell>,
    geom: PaneGeometry,
    metrics: CellMetrics,
    n: int,
)
    requires
        0 <= n <= cells.len(),
    ensures
        forall|k: int|
            0 <= k < crate::instance::decorations(cells, geom, metrics, n).len() ==> (
            #[trigger] crate::instance::decorations(cells, geom, metrics, n)[k] matches
                PaneOp::Solid { fades, .. } && !fades),
        forall|k: int|
            0 <= k < crate::instance::decorations(cells, geom, metrics, n).len() ==> exists|i: int|
                0 <= i < n && is_line_of(
                    #[trigger] crate::instance::decorations(cells, geom, metrics, n)[k],
                    #[trigger] cells[i],
                ),
    decreases n,
{
    let all = crate::instance::decorations(cells, geom, metrics, n);
    if n > 0 {
        lemma_lines_are_solid(cells, geom, metrics, n - 1);
        let before = crate::instance::decorations(cells, geom, metrics, n - 1);
        let under = crate::instance::underline_ops(cells[n - 1], geom, metrics);
        let through = crate::instance::strikeout_ops(cells[n - 1], geom, metrics);
        assert(all == before + under + through);
        assert forall|k: int| 0 <= k < all.len() implies exists|i: int|
            0 <= i < n && is_line_of(#[trigger] all[k], #[trigger] cells[i]) by {
            if k < before.len() {
                assert(all[k] == before[k]);
                let i = choose|i: int| 0 <= i < n - 1 && is_line_of(before[k], #[trigger] cells[i]);
                assert(is_line_of(all[k], cells[i]));
            } else if k < before.len() + under.len() {
                assert(all[k] == under[k - before.len()]);
                assert(is_line_of(all[k], cells[n - 1]));
            } else {
                assert(all[k] == through[k - before.len() - under.len()]);
                assert(is_line_of(all[k], cells[n - 1]));
            }
        }
    }
}

/// A decoration's place among those of all cells.
proof fn lemma_decorations_hold(
    cells: Seq<RenderCell>,
    geom: PaneGeometry,
    metrics: CellMetrics,
    i: int,
    n: int,
)
    requires
        0 <= i < n <= cells.len(),
    ensures
        forall|j: int|
            0 <= j < crate::instance::underline_ops(cells[i], geom, metrics).len()
                ==> crate::instance::decorations(cells, geom, metrics, n).contains(
                #[trigger] crate::instance::underline_ops(cells[i], geom, metrics)[j],
            ),
        forall|j: int|
            0 <= j < crate::instance::strikeout_ops(cells[i], geom, metrics).len()
                ==> crate::instance::decorations(cells, geom, metrics, n).contains(
                #[trigger] crate::instance::strikeout_ops(cells[i], geom, metrics)[j],
            ),
    decreases n,
{
    let all = crate::instance::decorations(cells, geom, metrics, n);
    let before = crate::instance::decorations(cells, geom, metrics, n - 1);
    let under = crate::instance::underline_ops(cells[i], geom, metrics);
    let through = crate::instance::strikeout_ops(cells[i], geom, metrics);
    if i < n - 1 {
        lemma_decorations_hold(cells, geom, metrics, i, n - 1);
        assert forall|op: PaneOp| before.contains(op) implies all.contains(op) by {
            let k = choose|k: int| 0 <= k < before.len() && before[k] == op;
            assert(all[k] == op);
        }
    } else {
        assert(all == before + under + through);
        assert forall|j: int| 0 <= j < under.len() implies all.contains(#[trigger] under[j]) by {
            assert(all[before.len() + j] == under[j]);
        }
        assert forall|j: int| 0 <= j < through.len() implies all.contains(#[trigger] through[j]) by {
            assert(all[before.len() + under.len() + j] == through[j]);
        }
    }
}

/// The thickness of a line: the font's own, and at least a pixel.
pub open spec fn line_height(thickness: i64) -> int {
    if thickness < 1024 {
        1024
    } else {
        thickness as int
    }
}

/// An underlined cell has a line under its text, across its whole width, as far below the
/// baseline as the font says; a doubled one has a second of the same kind, a line's height
/// below the first. A struck cell has one through its text.
pub proof fn law_lines_are_drawn(
    frame: TerminalFrame,
    geom: PaneGeometry,
    metrics: CellMetrics,
    i: int,
)
    requires
        0 <= i < frame.cells@.len(),
    ensures
        ({
            let ops = crate::instance::pane_ops(frame, geom, metrics);
            let cell = frame.cells@[i];
            let base = top_of(geom, cell.row) + metrics.baseline;
            let thick = line_height(metrics.underline_thickness);
            let wide = if cell.flags.wide {
                2 * geom.cell_width
            } else {
                geom.cell_width as int
            };
            let ink = match cell.underline_color {
                Some(c) => c,
                None => cell.fg,
            };
            &&& cell.flags.underline is Single || cell.flags.underline is Double ==> exists|k: int|
                0 <= k < ops.len() && covers(
                    #[trigger] ops[k],
                    left_of(geom, cell.col),
                    base + metrics.underline_offset,
                    wide,
                    thick,
                    ink,
                    false,
                )
            &&& cell.flags.underline is Double ==> exists|k: int|
                0 <= k < ops.len() && covers(
                    #[trigger] ops[k],
                    left_of(geom, cell.col),
                    base + metrics.underline_offset + 2 * thick,
                    wide,
                    thick,
                    ink,
                    false,
                )
            &&& cell.flags.strikeout ==> exists|k: int|
                0 <= k < ops.len() && covers(
                    #[trigger] ops[k],
                    left_of(geom, cell.col),
                    base - metrics.strikeout_offset,
                    wide,
                    line_height(metrics.strikeout_thickness),
                    cell.fg,
                    false,
                )
        }),
{
    let ops = crate::instance::pane_ops(frame, geom, metrics);
    let cells = frame.cells@;
    let cell = cells[i];
    let n = cells.len() as int;
    let back = crate::instance::backgrounds(cells, frame.background, geom, n);
    let lines = crate::instance::decorations(cells, geom, metrics, n);
    lemma_decorations_hold(cells, geom, metrics, i, n);
    lemma_places(geom, cell.col, cell.row);
    assert forall|op: PaneOp| lines.contains(op) implies ops.contains(op) by {
        let k = choose|k: int| 0 <= k < lines.len() && lines[k] == op;
        assert(ops[back.len() + k] == op);
    }
    let under = crate::instance::underline_ops(cell, geom, metrics);
    let through = crate::instance::strikeout_ops(cell, geom, metrics);
    if cell.flags.underline is Single || cell.flags.underline is Double {
        assert(ops.contains(under[0]));
    }
    if cell.flags.underline is Double {
        assert(ops.contains(under[1]));
    }
    if cell.flags.strikeout {
        assert(ops.contains(through[0]));
    }
}

/// A dotted, dashed or curly underline starts with a piece at the cell's left edge, and
/// comes back every period: a dot as long as the gap after it, a dash of three and a gap of
/// two, and a wave that goes up and down by a line's height.
pub proof fn law_broken_lines_are_drawn(
    frame: TerminalFrame,
    geom: PaneGeometry,
    metrics: CellMetrics,
    i: int,
    p: int,
)
    requires
        0 <= i < frame.cells@.len(),
        0 <= p,
        metrics.underline_thickness <= 0x7fff_ffff,
    ensures
        ({
            let ops = crate::instance::pane_ops(frame, geom, metrics);
            let cell = frame.cells@[i];
            let left = left_of(geom, cell.col);
            let y = top_of(geom, cell.row) + metrics.baseline + metrics.underline_offset;
            let t = line_height(metrics.underline_thickness);
            let wide = if cell.flags.wide {
                2 * geom.cell_width
            } else {
                geom.cell_width as int
            };
            let ink = match cell.underline_color {
                Some(c) => c,
                None => cell.fg,
            };
            &&& cell.flags.underline is Dotted && p * (2 * t) + t <= wide ==> exists|k: int|
                0 <= k < ops.len() && covers(
                    #[trigger] ops[k],
                    left + p * (2 * t),
                    y,
                    t,
                    t,
                    ink,
                    false,
                )
            &&& cell.flags.underline is Dashed && p * (5 * t) + 3 * t <= wide ==> exists|k: int|
                0 <= k < ops.len() && covers(
                    #[trigger] ops[k],
                    left + p * (5 * t),
                    y,
                    3 * t,
                    t,
                    ink,
                    false,
                )
            &&& cell.flags.underline is Curly && p * (2 * t) + 2 * t <= wide ==> exists|k: int|
                0 <= k < ops.len() && covers(
                    #[trigger] ops[k],
                    left + p * (2 * t),
                    if p % 2 == 0 {
                        y - t
                    } else {
                        y + t
                    },
                    2 * t,
                    t,
                    ink,
                    false,
                )
        }),
{
    let ops = crate::instance::pane_ops(frame, geom, metrics);
    let cells = frame.cells@;
    let cell = cells[i];
    let n = cells.len() as int;
    let back = crate::instance::backgrounds(cells, frame.background, geom, n);
    let lines = crate::instance::decorations(cells, geom, metrics, n);
    lemma_decorations_hold(cells, geom, metrics, i, n);
    lemma_places(geom, cell.col, cell.row);
    assert forall|op: PaneOp| lines.contains(op) implies ops.contains(op) by {
        let k = choose|k: int| 0 <= k < lines.len() && lines[k] == op;
        assert(ops[back.len() + k] == op);
    }
    let under = crate::instance::underline_ops(cell, geom, metrics);
    let t = line_height(metrics.underline_thickness);
    let wide = crate::instance::cell_span(cell, geom);
    let period = if cell.flags.underline is Dashed {
        5 * t
    } else {
        2 * t
    };
    crate::instance::lemma_pieces(wide, period, p);
    assert(p * period >= 0) by (nonlinear_arith)
        requires
            p >= 0,
            period >= 1,
    ;
    if p * period < wide && (cell.flags.underline is Dotted || cell.flags.underline is Dashed
        || cell.flags.underline is Curly) {
        assert(ops.contains(under[p]));
    }
}

/// The cursor is drawn last, over everything else, and takes nothing away: what comes
/// before it is what is drawn without it. It is opaque, of its own color, and at its own
/// cell: a block fills the cell, a beam stands at its left edge, an underline lies at its
/// bottom and a hollow block runs round it. The character under a block is written again,
/// in the color that can be read there.
pub proof fn law_the_cursor_is_drawn_last(
    frame: TerminalFrame,
    geom: PaneGeometry,
    metrics: CellMetrics,
    cursor: RenderCursor,
)
    requires
        frame.cursor == Some(cursor),
    ensures
        ({
            let ops = crate::instance::pane_ops(frame, geom, metrics);
            let plain = crate::instance::pane_ops(without_cursor(frame), geom, metrics);
            let tail = ops.skip(plain.len() as int);
            let (x, y) = (left_of(geom, cursor.col), top_of(geom, cursor.row));
            let (w, h) = (geom.cell_width as int, geom.cell_height as int);
            let at_least = |n: int|
                if n < 1024 {
                    1024
                } else {
                    n
                };
            &&& ops == plain + tail
            &&& cursor.shape is Block ==> tail.len() >= 1 && covers(
                tail[0],
                x,
                y,
                w,
                h,
                cursor.color,
                false,
            )
            &&& cursor.shape is Beam ==> tail.len() == 1 && covers(
                tail[0],
                x,
                y,
                at_least(w * cursor.thickness / 1000),
                h,
                cursor.color,
                false,
            )
            &&& cursor.shape is Underline ==> {
                let t = at_least(h * cursor.thickness / 1000);
                tail.len() == 1 && covers(tail[0], x, y + h - t, w, t, cursor.color, false)
            }
            &&& cursor.shape is HollowBlock ==> {
                let t = at_least(w * 6 / 100);
                &&& tail.len() == 4
                &&& covers(tail[0], x, y, w, t, cursor.color, false)
                &&& covers(tail[1], x, y + h - t, w, t, cursor.color, false)
                &&& covers(tail[2], x, y, t, h, cursor.color, false)
                &&& covers(tail[3], x + w - t, y, t, h, cursor.color, false)
            }
            &&& forall|i: int|
                0 <= i < frame.cells@.len() && cursor.shape is Block && (
                #[trigger] frame.cells@[i]).col == cursor.col && frame.cells@[i].row == cursor.row
                    && (forall|j: int|
                    0 <= j < i ==> (#[trigger] frame.cells@[j]).col != cursor.col
                        || frame.cells@[j].row != cursor.row) ==> (if frame.cells@[i].blank {
                    tail.len() == 1
                } else {
                    tail.len() == 2 && writes(
                        tail[1],
                        frame.cells@[i].ch,
                        frame.cells@[i],
                        cursor.text_color,
                        geom,
                        metrics,
                    )
                })
        }),
{
    let ops = crate::instance::pane_ops(frame, geom, metrics);
    let plain = crate::instance::pane_ops(without_cursor(frame), geom, metrics);
    let cells = frame.cells@;
    let last = crate::instance::cursor_ops(cells, cursor, geom, metrics);
    assert(plain + last =~= ops);
    assert(ops.skip(plain.len() as int) =~= last);
    lemma_places(geom, cursor.col, cursor.row);
    let (w, h) = (geom.cell_width as int, geom.cell_height as int);
    lemma_share(w, cursor.thickness as int);
    lemma_share(h, cursor.thickness as int);
    assert forall|i: int|
        0 <= i < cells.len() && cursor.shape is Block && (#[trigger] cells[i]).col == cursor.col
            && cells[i].row == cursor.row && (forall|j: int|
            0 <= j < i ==> (#[trigger] cells[j]).col != cursor.col || cells[j].row
                != cursor.row) implies (if cells[i].blank {
        last.len() == 1
    } else {
        last.len() == 2 && writes(last[1], cells[i].ch, cells[i], cursor.text_color, geom, metrics)
    }) by {
        lemma_cell_at(cells, cursor.col, cursor.row, i, cells.len() as int);
        lemma_places(geom, cells[i].col, cells[i].row);
    }
}

proof fn lemma_share(n: int, share: int)
    requires
        0 <= n <= u64::MAX,
        0 <= share <= u32::MAX,
    ensures
        0 <= n * share / 1000 <= 0x1_0000_0000_0000_0000_0000_0000,
{
    assert(0 <= n * share <= 0x1_0000_0000_0000_0000_0000_0000) by (nonlinear_arith)
        requires
            0 <= n <= 0xffff_ffff_ffff_ffff,
            0 <= share <= 0xffff_ffff,
    ;
}

proof fn lemma_cell_at(cells: Seq<RenderCell>, col: u16, row: u16, i: int, n: int)
    requires
        0 <= i < cells.len(),
        0 <= n <= cells.len(),
        cells[i].col == col,
        cells[i].row == row,
        forall|j: int| 0 <= j < i ==> (#[trigger] cells[j]).col != col || cells[j].row != row,
    ensures
        crate::instance::cell_at(cells, col, row, n) == (if i < n {
            Some(i)
        } else {
            None
        }),
    decreases n,
{
    if n > 0 {
        lemma_cell_at(cells, col, row, i, n - 1);
    }
}

} // verus!
