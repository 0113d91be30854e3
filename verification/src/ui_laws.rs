//! What holds of a panel across layouts, clicks and key presses.

use vstd::prelude::*;

use crate::geometry::Rect;
use crate::ui::{ActionModel, Metrics, PlacedModel, UiKey, UiModel};
use crate::widget::{WidgetId, WidgetModel};

verus! {

impl UiModel {
    /// The interactive rows' ids, in focus order.
    pub open spec fn order(self) -> Seq<WidgetId> {
        UiModel::focus_order(self.placed, self.placed.len() as int)
    }

    /// No two interactive rows share an id.
    pub open spec fn distinct_ids(self) -> bool {
        forall|i: int, j: int|
            0 <= i < j < self.order().len() ==> #[trigger] self.order()[i]
                != #[trigger] self.order()[j]
    }
}

proof fn lemma_position_of(order: Seq<WidgetId>, i: int)
    requires
        0 <= i < order.len(),
        forall|a: int, b: int|
            0 <= a < b < order.len() ==> #[trigger] order[a] != #[trigger] order[b],
    ensures
        UiModel::position(order, order[i], order.len() as int) == Some(i),
{
    crate::ui::lemma_position_bounds(order, order[i], order.len() as int);
}

/// Tab followed by Shift+Tab leaves focus where it was, and so does the reverse.
pub proof fn law_tab_and_back(ui: UiModel, id: WidgetId)
    requires
        ui.distinct_ids(),
        ui.focus == Some(id),
        ui.order().contains(id),
    ensures
        ui.keyed(UiKey::Tab).0.keyed(UiKey::ShiftTab).0 == ui,
        ui.keyed(UiKey::ShiftTab).0.keyed(UiKey::Tab).0 == ui,
{
    let order = ui.order();
    let n = order.len() as int;
    let i = choose|i: int| 0 <= i < n && order[i] == id;
    lemma_position_of(order, i);
    crate::ui::lemma_wrapping(i, n);
    let after = if i + 1 == n {
        0
    } else {
        i + 1
    };
    let before = if i == 0 {
        n - 1
    } else {
        i - 1
    };
    lemma_position_of(order, after);
    lemma_position_of(order, before);
    crate::ui::lemma_wrapping(after, n);
    crate::ui::lemma_wrapping(before, n);
    assert(ui.moved(true).focus == Some(order[after]));
    assert(ui.moved(false).focus == Some(order[before]));
}

/// The focus ring reaches every interactive row: from row `i`, Tab leads to the next
/// one and from the last one back to the first.
pub proof fn law_tab_visits_in_order(ui: UiModel, i: int)
    requires
        ui.distinct_ids(),
        0 <= i < ui.order().len(),
        ui.focus == Some(ui.order()[i]),
    ensures
        ui.keyed(UiKey::Tab).0.focus == Some(
            ui.order()[if i + 1 < ui.order().len() {
                i + 1
            } else {
                0
            }],
        ),
{
    lemma_position_of(ui.order(), i);
    crate::ui::lemma_wrapping(i, ui.order().len() as int);
}

/// A rebuilt panel keeps hover on a widget that is still there, wherever it moved to, and
/// focus on one that is still there and can still take it; otherwise it drops them. An id
/// stands for the first row that has it.
pub proof fn law_layout_keeps_focus(
    ui: UiModel,
    body: Seq<WidgetModel>,
    footer: Seq<WidgetModel>,
    area: Rect,
    m: Metrics,
    id: WidgetId,
)
    ensures
        ({
            let present = (exists|i: int| 0 <= i < body.len() && (#[trigger] body[i]).id() == Some(id))
                || (exists|i: int|
                0 <= i < footer.len() && (#[trigger] footer[i]).id() == Some(id));
            let after = ui.laid_out(body, footer, area, m);
            &&& ui.focus == Some(id) ==> after.focus == (if after.can_focus(id) {
                Some(id)
            } else {
                None
            })
            &&& after.can_focus(id) ==> present
            &&& (present && (forall|i: int|
                0 <= i < body.len() && (#[trigger] body[i]).id() == Some(id)
                    ==> body[i].interactive()) && (forall|i: int|
                0 <= i < footer.len() && (#[trigger] footer[i]).id() == Some(id)
                    ==> footer[i].interactive())) ==> after.can_focus(id)
            &&& ui.hover == Some(id) ==> after.hover == (if present {
                Some(id)
            } else {
                None
            })
        }),
{
    let after = ui.laid_out(body, footer, area, m);
    let placed = after.placed;
    crate::ui::lemma_first_id_bounds(placed, id, placed.len() as int);
    assert forall|i: int| 0 <= i < body.len() implies (#[trigger] body[i]) == placed[i].widget by {}
    assert forall|i: int| 0 <= i < footer.len() implies (#[trigger] footer[i]) == placed[body.len()
        + i].widget by {}
    if UiModel::first_id(placed, id, placed.len() as int) is Some {
        let i = UiModel::first_id(placed, id, placed.len() as int)->0;
        if i < body.len() {
            assert(body[i].id() == Some(id));
        } else {
            assert(footer[i - body.len()].id() == Some(id));
        }
    }
}

/// A widget that is not interactive never has the keyboard: no layout leaves the focus on
/// it, asking for it does nothing, and Enter on its row presses nothing. A disabled
/// button is one.
pub proof fn law_disabled_rows_are_inert(
    ui: UiModel,
    body: Seq<WidgetModel>,
    footer: Seq<WidgetModel>,
    area: Rect,
    m: Metrics,
    id: WidgetId,
    i: int,
)
    requires
        0 <= i < ui.placed.len(),
    ensures
        ({
            let after = ui.laid_out(body, footer, area, m);
            after.focus_index() matches Some(k) ==> after.placed[k].widget.interactive()
        }),
        !ui.can_focus(id) ==> ui.focus_on(id) == ui,
        !ui.placed[i].widget.interactive() ==> ui.activate(i) is Consumed,
        ui.placed[i].widget matches WidgetModel::Button { enabled, .. } ==> !enabled
            ==> !ui.placed[i].widget.interactive(),
{
}

/// What one layout makes of the scroll offset: it is at most the maximum, which is the
/// content's height beyond the body's; the content's height does not depend on it; the
/// first row is at the body's top, below the padding and above by the offset; and an
/// offset that still fits is kept.
pub proof fn law_layout_settles_the_scroll(
    ui: UiModel,
    other: UiModel,
    body: Seq<WidgetModel>,
    footer: Seq<WidgetModel>,
    area: Rect,
    m: Metrics,
)
    requires
        ui.wf(),
        ui.layout_fits(body, footer, area, m),
        body.len() > 0,
    ensures
        ({
            let after = ui.laid_out(body, footer, area, m);
            &&& after.scroll <= after.max_scroll()
            &&& after.max_scroll() == crate::ui::at_least_zero(
                after.content_height - after.body_area.height,
            )
            &&& footer.len() == 0 ==> after.body_area.height == area.height && after.body_area.y
                == area.y
            &&& after.content_height == other.laid_out(body, footer, area, m).content_height
            &&& after.placed[0].rect.y == after.body_area.y + m.padding - after.scroll
            &&& after.scroll == (if ui.scroll <= after.max_scroll() {
                ui.scroll
            } else {
                after.max_scroll()
            })
        }),
{
    crate::ui::lemma_row_top_grows(m, body, 0, body.len() as int);
}

/// A click in the pinned footer is never answered by a body row, whatever scrolled
/// underneath it.
pub proof fn law_footer_is_never_shadowed(
    ui: UiModel,
    body: Seq<WidgetModel>,
    footer: Seq<WidgetModel>,
    area: Rect,
    m: Metrics,
    x: int,
    y: int,
)
    requires
        ui.layout_fits(body, footer, area, m),
        ui.laid_out(body, footer, area, m).footer_area.has(x, y),
    ensures
        ({
            let after = ui.laid_out(body, footer, area, m);
            match after.hit_index_spec(x, y) {
                Some(i) => body.len() <= i < body.len() + footer.len(),
                None => true,
            }
        }),
{
    let after = ui.laid_out(body, footer, area, m);
    crate::ui::lemma_first_hit_bounds(after, x, y, after.placed.len() as int);
}

/// A body row that is clipped away is never clicked: the point is inside the viewport.
pub proof fn law_hit_rows_are_visible(ui: UiModel, x: int, y: int)
    requires
        ui.hit_index_spec(x, y) is Some,
    ensures
        ({
            let i = ui.hit_index_spec(x, y)->0;
            &&& 0 <= i < ui.placed.len()
            &&& ui.placed[i].rect.has(x, y)
            &&& i < ui.body_count ==> ui.body_area.has(x, y)
        }),
{
    crate::ui::lemma_first_hit_bounds(ui, x, y, ui.placed.len() as int);
}

/// The keyboard and the mouse agree about which widget is current: a click that
/// produces an action has focused the widget the action belongs to.
pub proof fn law_click_focuses(ui: UiModel, x: int, y: int)
    ensures
        match ui.clicked(x, y).1 {
            Some(action) => ui.clicked(x, y).0.focus == Some(action.id()),
            None => true,
        },
        ui.clicked(x, y).0.focus == (match ui.hit_index_spec(x, y) {
            Some(i) => ui.placed[i].widget.id(),
            None => ui.focus,
        }),
{
}

/// Backspace takes back exactly the character that was typed.
pub proof fn law_backspace_undoes_typing(ui: UiModel, c: char)
    requires
        ui.wf(),
        ui.typed(c).1 is Some,
    ensures
        ui.typed(c).0.keyed(UiKey::Backspace).0 == ui,
{
    let i = ui.focus_index()->0;
    let id = ui.focus->0;
    crate::ui::lemma_first_id_bounds(ui.placed, id, ui.placed.len() as int);
    let after = ui.typed(c).0;
    lemma_same_ids(ui.placed, after.placed, id, ui.placed.len() as int);
    assert(ui.placed[i].widget.wf());
    match ui.placed[i].widget {
        WidgetModel::Text { value, caret, .. } => {
            assert(value.insert(caret, c).remove(caret) =~= value);
            let back = after.keyed(UiKey::Backspace).0;
            assert(back.placed =~= ui.placed);
        },
        _ => {},
    }
}

proof fn lemma_same_ids(a: Seq<PlacedModel>, b: Seq<PlacedModel>, id: WidgetId, n: int)
    requires
        0 <= n <= a.len() == b.len(),
        forall|i: int| 0 <= i < a.len() ==> (#[trigger] a[i]).widget.id() == b[i].widget.id(),
    ensures
        UiModel::first_id(a, id, n) == UiModel::first_id(b, id, n),
    decreases n,
{
    if n > 0 {
        lemma_same_ids(a, b, id, n - 1);
        assert(a[n - 1].widget.id() == b[n - 1].widget.id());
    }
}

/// A stepper never proposes a value outside its range, nor the value it already has.
pub proof fn law_stepper_stays_in_range(widget: WidgetModel, forward: bool)
    requires
        widget.wf(),
        widget is Stepper,
    ensures
        match (widget, UiModel::adjusted(widget, forward)) {
            (
                WidgetModel::Stepper { id, value, min, max, .. },
                Some(ActionModel::Changed(changed, next)),
            ) => changed == id && min <= next <= max && next != value,
            (_, Some(_)) => false,
            (_, None) => true,
        },
{
}

/// Cycling a selection always lands on one of the options, and back undoes forward.
pub proof fn law_selection_cycles(
    id: WidgetId,
    label: Seq<char>,
    options: Seq<Seq<char>>,
    index: int,
)
    requires
        0 <= index < options.len(),
    ensures
        ({
            let at = |i: int| WidgetModel::Select { id, label, options, index: i };
            match UiModel::adjusted(at(index), true) {
                Some(ActionModel::Selected(_, next)) => 0 <= next < options.len()
                    && UiModel::adjusted(at(next), false) == Some(
                    ActionModel::Selected(id, index),
                ),
                _ => false,
            }
        }),
{
    let n = options.len() as int;
    crate::ui::lemma_wrapping(index, n);
    let next = if index + 1 == n {
        0
    } else {
        index + 1
    };
    crate::ui::lemma_wrapping(next, n);
}

/// A row's value column is inside the row and leaves at least a third of it to the
/// label, however narrow the panel.
pub proof fn law_value_leaves_room_for_the_label(
    ui: UiModel,
    body: Seq<WidgetModel>,
    footer: Seq<WidgetModel>,
    area: Rect,
    m: Metrics,
    i: int,
)
    requires
        ui.layout_fits(body, footer, area, m),
        0 <= i < body.len(),
    ensures
        ({
            let row = ui.laid_out(body, footer, area, m).placed[i];
            &&& row.value_rect.right_spec() == row.rect.right_spec()
            &&& 3 * (row.value_rect.x - row.rect.x) >= row.rect.width
            &&& row.value_rect.y == row.rect.y
            &&& row.value_rect.height == row.rect.height
        }),
{
}

/// Body rows never overlap: each ends at or before the next begins.
pub proof fn law_rows_do_not_overlap(
    ui: UiModel,
    body: Seq<WidgetModel>,
    footer: Seq<WidgetModel>,
    area: Rect,
    m: Metrics,
    i: int,
    j: int,
)
    requires
        ui.wf(),
        ui.layout_fits(body, footer, area, m),
        0 <= i < j < body.len(),
    ensures
        ({
            let placed = ui.laid_out(body, footer, area, m).placed;
            placed[i].rect.bottom_spec() + m.row_gap <= placed[j].rect.y
        }),
{
    crate::ui::lemma_row_top_grows(m, body, 0, i);
    crate::ui::lemma_row_top_grows(m, body, i, j);
    crate::ui::lemma_row_top_grows(m, body, j, body.len() as int);
}

/// Laying out the same widgets again changes nothing.
pub proof fn law_layout_is_stable(
    ui: UiModel,
    body: Seq<WidgetModel>,
    footer: Seq<WidgetModel>,
    area: Rect,
    m: Metrics,
)
    ensures
        ({
            let once = ui.laid_out(body, footer, area, m);
            once.laid_out(body, footer, area, m) == once
        }),
{
    let once = ui.laid_out(body, footer, area, m);
    let twice = once.laid_out(body, footer, area, m);
    assert(twice.placed =~= once.placed);
}

/// Scrolling to the focused row and laying out again puts the whole row inside the
/// body, provided a row fits there at all.
pub proof fn law_focused_row_becomes_visible(
    ui: UiModel,
    body: Seq<WidgetModel>,
    footer: Seq<WidgetModel>,
    area: Rect,
    m: Metrics,
    i: int,
)
    requires
        ui.wf(),
        ui.layout_fits(body, footer, area, m),
        ui.laid_out(body, footer, area, m).focus_index() == Some(i),
        0 <= i < body.len(),
        m.row_height <= UiModel::body_area_of(footer, area, m).height,
    ensures
        ({
            let shown = ui.laid_out(body, footer, area, m);
            let visible = shown.body_area;
            let after = shown.scrolled(shown.focus_offset(visible)).laid_out(body, footer, area, m);
            &&& visible.y <= after.placed[i].rect.y
            &&& after.placed[i].rect.bottom_spec() <= visible.bottom_spec()
        }),
{
    crate::ui::lemma_row_top_grows(m, body, 0, i);
    crate::ui::lemma_row_top_grows(m, body, i, body.len() as int);
}

/// Scrolling moves every body row by exactly the offset, and the footer not at all.
pub proof fn law_scrolling_moves_rows_exactly(
    ui: UiModel,
    body: Seq<WidgetModel>,
    footer: Seq<WidgetModel>,
    area: Rect,
    m: Metrics,
    delta: int,
    i: int,
)
    requires
        ui.wf(),
        ui.layout_fits(body, footer, area, m),
        ui.laid_out(body, footer, area, m).scrolled(delta).layout_fits(body, footer, area, m),
        0 <= i < body.len() + footer.len(),
    ensures
        ({
            let before = ui.laid_out(body, footer, area, m);
            let after = before.scrolled(delta).laid_out(body, footer, area, m);
            &&& i < body.len() ==> after.placed[i].rect.y == before.placed[i].rect.y - (
            after.scroll - before.scroll)
            &&& i >= body.len() ==> after.placed[i] == before.placed[i]
        }),
{
    crate::ui::lemma_row_top_grows(m, body, 0, body.len() as int);
    if i < body.len() {
        crate::ui::lemma_row_top_grows(m, body, 0, i);
        crate::ui::lemma_row_top_grows(m, body, i, body.len() as int);
    }
}

/// Every row can be reached: scrolled all the way, the last row ends inside the body.
pub proof fn law_the_last_row_can_be_reached(
    ui: UiModel,
    body: Seq<WidgetModel>,
    footer: Seq<WidgetModel>,
    area: Rect,
    m: Metrics,
)
    requires
        ui.wf(),
        ui.layout_fits(body, footer, area, m),
        ui.laid_out(body, footer, area, m).scrolled(
            ui.laid_out(body, footer, area, m).max_scroll(),
        ).layout_fits(body, footer, area, m),
        body.len() > 0,
    ensures
        ({
            let shown = ui.laid_out(body, footer, area, m);
            let end = shown.scrolled(shown.max_scroll()).laid_out(body, footer, area, m);
            end.placed[body.len() - 1].rect.bottom_spec() <= end.body_area.bottom_spec()
        }),
{
    let last = body.len() - 1;
    crate::ui::lemma_row_top_grows(m, body, 0, last);
    crate::ui::lemma_row_top_grows(m, body, last, body.len() as int);
}

/// Rows keep to the panel: none reaches past its padding on either side, given that the
/// panel is wide enough to have one.
pub proof fn law_rows_keep_to_the_panel(
    ui: UiModel,
    body: Seq<WidgetModel>,
    footer: Seq<WidgetModel>,
    area: Rect,
    m: Metrics,
    i: int,
)
    requires
        ui.wf(),
        ui.layout_fits(body, footer, area, m),
        2 * m.padding <= area.width,
        0 <= i < body.len(),
    ensures
        ({
            let row = ui.laid_out(body, footer, area, m).placed[i].rect;
            &&& row.x == area.x + m.padding
            &&& row.right_spec() == area.right_spec() - m.padding
        }),
{
}

} // verus!
