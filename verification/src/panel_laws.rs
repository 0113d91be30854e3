//! What a panel makes of clicks, keys and typed text, and where it puts its rows.

use vstd::prelude::*;

use crate::geometry::Rect;
use crate::ui::{ActionModel, Metrics, PlacedModel, ResponseModel, UiKey, UiModel};
use crate::widget::{EntryKind, WidgetId, WidgetModel};

verus! {

/// The point is on the rectangle.
pub open spec fn on(r: Rect, x: int, y: int) -> bool {
    r.x <= x < r.x + r.width && r.y <= y < r.y + r.height
}

/// The row shows at the point: it is there, and not scrolled out of the body.
pub open spec fn shows_at(ui: UiModel, i: int, x: int, y: int) -> bool {
    on(ui.placed[i].rect, x, y) && (i < ui.body_count ==> on(ui.body_area, x, y))
}

/// The row is the only one that shows at the point.
pub open spec fn alone_at(ui: UiModel, i: int, x: int, y: int) -> bool {
    &&& 0 <= i < ui.placed.len()
    &&& shows_at(ui, i, x, y)
    &&& forall|j: int|
        0 <= j < ui.placed.len() && j != i ==> !on((#[trigger] ui.placed[j]).rect, x, y)
}

/// The row is the first with this id.
pub open spec fn is_row_of(ui: UiModel, i: int, id: WidgetId) -> bool {
    &&& 0 <= i < ui.placed.len()
    &&& ui.placed[i].widget.id() == Some(id)
    &&& forall|j: int| 0 <= j < i ==> (#[trigger] ui.placed[j]).widget.id() != Some(id)
}

proof fn lemma_hit(ui: UiModel, i: int, x: int, y: int)
    requires
        alone_at(ui, i, x, y),
    ensures
        ui.hit_index_spec(x, y) == (if ui.placed[i].widget.interactive() {
            Some(i)
        } else {
            None
        }),
{
    crate::ui::lemma_first_hit_bounds(ui, x, y, ui.placed.len() as int);
    assert(shows_at(ui, i, x, y));
    assert(ui.answers(i, x, y) == ui.placed[i].widget.interactive());
    if let Some(k) = ui.hit_index_spec(x, y) {
        assert(ui.answers(k, x, y));
        assert(on(ui.placed[k].rect, x, y));
    }
}

proof fn lemma_focus(ui: UiModel, i: int, id: WidgetId)
    requires
        ui.focus == Some(id),
        is_row_of(ui, i, id),
    ensures
        ui.focus_index() == Some(i),
{
    crate::ui::lemma_first_id_bounds(ui.placed, id, ui.placed.len() as int);
}

/// What each kind of row is called by, and which rows take part: labels, shortcuts and
/// disabled buttons do not, every other row does.
pub proof fn law_which_rows_take_part(
    id: WidgetId,
    text: Seq<char>,
    other: Seq<char>,
    flag: bool,
    options: Seq<Seq<char>>,
    n: int,
    kind: EntryKind,
    value: int,
    min: int,
    max: int,
    step: int,
    decimals: nat,
)
    ensures
        ({
            let label = WidgetModel::Label { text, heading: flag };
            let shortcut = WidgetModel::Shortcut { label: text, keys: other };
            let button = WidgetModel::Button { id, label: text, enabled: flag };
            let toggle = WidgetModel::Toggle { id, label: text, on: flag };
            let select = WidgetModel::Select { id, label: text, options, index: n };
            let field = WidgetModel::Text {
                id,
                label: text,
                value: other,
                caret: n,
                placeholder: text,
            };
            let entry = WidgetModel::Entry { id, kind, label: text, detail: other, selected: flag };
            let stepper = WidgetModel::Stepper { id, label: text, value, min, max, step, decimals };
            &&& label.id() is None && !label.interactive() && label.caption() == text
            &&& label.is_heading() == flag
            &&& shortcut.id() is None && !shortcut.interactive() && shortcut.caption() == text
            &&& button.id() == Some(id) && button.interactive() == flag && button.caption() == text
            &&& toggle.id() == Some(id) && toggle.interactive() && toggle.caption() == text
            &&& select.id() == Some(id) && select.interactive() && select.caption() == text
            &&& field.id() == Some(id) && field.interactive() && field.caption() == text
            &&& entry.id() == Some(id) && entry.interactive() && entry.caption() == text
            &&& stepper.id() == Some(id) && stepper.interactive() && stepper.caption() == text
            &&& !button.is_heading() && !toggle.is_heading() && !select.is_heading()
            &&& !field.is_heading() && !entry.is_heading() && !stepper.is_heading()
        }),
{
}

/// What a row shows beside its label: a box that is crossed when it is on, the option
/// that is chosen, the number, and what has been typed or, before that, the placeholder.
pub proof fn law_values_are_shown(
    id: WidgetId,
    label: Seq<char>,
    flag: bool,
    options: Seq<Seq<char>>,
    n: int,
    value: Seq<char>,
    placeholder: Seq<char>,
)
    ensures
        (WidgetModel::Toggle { id, label, on: flag }).value_text() == Some(
            if flag {
                "[x]"@
            } else {
                "[ ]"@
            },
        ),
        0 <= n < options.len() ==> (WidgetModel::Select {
            id,
            label,
            options,
            index: n,
        }).value_text() == Some("‹ "@ + options[n] + " ›"@),
        value.len() > 0 ==> (WidgetModel::Text {
            id,
            label,
            value,
            caret: n,
            placeholder,
        }).value_text() == Some(value),
        value.len() == 0 ==> (WidgetModel::Text {
            id,
            label,
            value,
            caret: n,
            placeholder,
        }).value_text() == Some(placeholder),
        (WidgetModel::Button { id, label, enabled: flag }).value_text() is None,
        (WidgetModel::Label { text: label, heading: flag }).value_text() is None,
{
}

/// A click acts on the row under it, and on no other: it takes the focus, a button or an
/// entry is pressed, a toggle turns over, and a field is only focused.
pub proof fn law_a_click_acts_on_its_row(ui: UiModel, i: int, x: int, y: int)
    requires
        alone_at(ui, i, x, y),
    ensures
        match ui.placed[i].widget {
            WidgetModel::Button { id, enabled, .. } => if enabled {
                ui.clicked(x, y) == (
                    UiModel { focus: Some(id), ..ui },
                    Some(ActionModel::Pressed(id)),
                )
            } else {
                ui.clicked(x, y) == (ui, None::<ActionModel>)
            },
            WidgetModel::Entry { id, .. } => ui.clicked(x, y) == (
                UiModel { focus: Some(id), ..ui },
                Some(ActionModel::Pressed(id)),
            ),
            WidgetModel::Toggle { id, on, .. } => ui.clicked(x, y) == (
                UiModel { focus: Some(id), ..ui },
                Some(ActionModel::Toggled(id, !on)),
            ),
            WidgetModel::Text { id, .. } => ui.clicked(x, y) == (
                UiModel { focus: Some(id), ..ui },
                None::<ActionModel>,
            ),
            WidgetModel::Label { .. } => ui.clicked(x, y) == (ui, None::<ActionModel>),
            WidgetModel::Shortcut { .. } => ui.clicked(x, y) == (ui, None::<ActionModel>),
            _ => true,
        },
        ui.hit_spec(x, y) == (if ui.placed[i].widget.interactive() {
            ui.placed[i].widget.id()
        } else {
            None
        }),
{
    lemma_hit(ui, i, x, y);
}

/// A click that no row is under does nothing.
pub proof fn law_a_click_beside_the_rows_does_nothing(ui: UiModel, x: int, y: int)
    requires
        forall|j: int| 0 <= j < ui.placed.len() ==> !shows_at(ui, j, x, y),
    ensures
        ui.clicked(x, y) == (ui, None::<ActionModel>),
        ui.hit_spec(x, y) is None,
{
    crate::ui::lemma_first_hit_bounds(ui, x, y, ui.placed.len() as int);
    if let Some(k) = ui.hit_index_spec(x, y) {
        assert(ui.answers(k, x, y));
        assert(shows_at(ui, k, x, y));
    }
}

/// The right half of a value goes forward and the left half goes back: to the option
/// after or before, round the ends, or to the number one step up or down, within its
/// range. A click on the label only focuses the row.
pub proof fn law_halves_of_a_value_step_it(ui: UiModel, i: int, x: int, y: int)
    requires
        alone_at(ui, i, x, y),
    ensures
        ({
            let r = ui.placed[i].value_rect;
            let forward = x >= r.x + r.width / 2;
            match ui.placed[i].widget {
                WidgetModel::Select { id, options, index, .. } => {
                    &&& ui.clicked(x, y).0 == (UiModel { focus: Some(id), ..ui })
                    &&& !on(r, x, y) ==> ui.clicked(x, y).1 is None
                    &&& on(r, x, y) && 0 <= index < options.len() ==> ui.clicked(x, y).1 == Some(
                        ActionModel::Selected(
                            id,
                            if forward {
                                if index + 1 == options.len() {
                                    0
                                } else {
                                    index + 1
                                }
                            } else if index == 0 {
                                options.len() - 1
                            } else {
                                index - 1
                            },
                        ),
                    )
                },
                WidgetModel::Stepper { id, value, min, max, step, .. } => {
                    let wanted = if forward {
                        value + step
                    } else {
                        value - step
                    };
                    &&& ui.clicked(x, y).0 == (UiModel { focus: Some(id), ..ui })
                    &&& !on(r, x, y) ==> ui.clicked(x, y).1 is None
                    &&& on(r, x, y) && min <= wanted <= max && step != 0 ==> ui.clicked(x, y).1
                        == Some(ActionModel::Changed(id, wanted))
                    &&& on(r, x, y) && min <= max && wanted > max && value != max ==> ui.clicked(
                        x,
                        y,
                    ).1 == Some(ActionModel::Changed(id, max))
                    &&& on(r, x, y) && min <= max && wanted < min && value != min ==> ui.clicked(
                        x,
                        y,
                    ).1 == Some(ActionModel::Changed(id, min))
                    &&& on(r, x, y) && min <= max && wanted > max && value == max ==> ui.clicked(
                        x,
                        y,
                    ).1 is None
                    &&& on(r, x, y) && min <= max && wanted < min && value == min ==> ui.clicked(
                        x,
                        y,
                    ).1 is None
                },
                _ => true,
            }
        }),
{
    lemma_hit(ui, i, x, y);
    match ui.placed[i].widget {
        WidgetModel::Select { options, index, .. } => {
            if 0 <= index < options.len() {
                crate::ui::lemma_wrapping(index, options.len() as int);
            }
        },
        _ => {},
    }
}

/// Escape closes the panel, Tab and the arrow down go on to the next row, Shift+Tab and
/// the arrow up go back, and none of them changes a row. Without a focus no other key
/// does anything.
pub proof fn law_keys_that_leave_the_rows_alone(ui: UiModel, key: UiKey)
    ensures
        ui.keyed(UiKey::Escape) == (ui, ResponseModel::Close),
        ui.keyed(UiKey::Tab).1 is Consumed && ui.keyed(UiKey::ShiftTab).1 is Consumed,
        ui.keyed(UiKey::Down) == ui.keyed(UiKey::Tab),
        ui.keyed(UiKey::Up) == ui.keyed(UiKey::ShiftTab),
        ui.keyed(UiKey::Tab).0 == (UiModel { focus: ui.keyed(UiKey::Tab).0.focus, ..ui }),
        ui.keyed(UiKey::ShiftTab).0 == (UiModel { focus: ui.keyed(UiKey::ShiftTab).0.focus, ..ui }),
        ui.focus is None && !(key is Escape) && !(key is Tab) && !(key is ShiftTab) && !(
        key is Up) && !(key is Down) ==> ui.keyed(key) == (ui, ResponseModel::Consumed),
{
}

/// With nothing focused, Tab takes the first row that takes part and Shift+Tab the last;
/// on the last, Tab starts over.
pub proof fn law_focus_starts_at_the_ends(ui: UiModel)
    requires
        ui.order().len() > 0,
        ui.focus is None,
    ensures
        ui.keyed(UiKey::Tab).0.focus == Some(ui.order()[0]),
        ui.keyed(UiKey::ShiftTab).0.focus == Some(ui.order().last()),
{
}

/// The rows that take part, in the order in which they stand, are what Tab goes through.
pub proof fn law_focus_follows_the_rows(ui: UiModel, i: int, j: int)
    requires
        0 <= i < j < ui.placed.len(),
        ui.placed[i].widget.interactive(),
        ui.placed[j].widget.interactive(),
    ensures
        exists|a: int, b: int|
            0 <= a < b < ui.order().len() && Some(#[trigger] ui.order()[a])
                == ui.placed[i].widget.id() && Some(#[trigger] ui.order()[b])
                == ui.placed[j].widget.id(),
{
    let a = lemma_in_order(ui.placed, i, j);
    let n = ui.placed.len() as int;
    let b = UiModel::focus_order(ui.placed, j).len() as int;
    lemma_order_grows(ui.placed, j, n);
    lemma_order_grows(ui.placed, j + 1, n);
    assert(Some(ui.order()[a]) == ui.placed[i].widget.id());
    assert(Some(ui.order()[b]) == ui.placed[j].widget.id());
}

/// The place of a row among those before another.
proof fn lemma_in_order(placed: Seq<PlacedModel>, i: int, j: int) -> (a: int)
    requires
        0 <= i < j <= placed.len(),
        placed[i].widget.interactive(),
    ensures
        0 <= a < UiModel::focus_order(placed, j).len(),
        Some(UiModel::focus_order(placed, j)[a]) == placed[i].widget.id(),
{
    lemma_order_grows(placed, i + 1, j);
    UiModel::focus_order(placed, i).len() as int
}

proof fn lemma_order_grows(placed: Seq<PlacedModel>, i: int, j: int)
    requires
        0 <= i <= j <= placed.len(),
    ensures
        UiModel::focus_order(placed, i).len() <= UiModel::focus_order(placed, j).len(),
        forall|k: int|
            0 <= k < UiModel::focus_order(placed, i).len() ==> #[trigger] UiModel::focus_order(
                placed,
                j,
            )[k] == UiModel::focus_order(placed, i)[k],
    decreases j,
{
    if i < j {
        lemma_order_grows(placed, i, j - 1);
    }
}

/// Enter does what a click on the row does: it presses a button or an entry, turns a toggle
/// over, and steps a value forward. It leaves the panel as it is.
pub proof fn law_enter_acts_on_the_focused_row(ui: UiModel, i: int, id: WidgetId)
    requires
        ui.focus == Some(id),
        is_row_of(ui, i, id),
    ensures
        ui.keyed(UiKey::Activate).0 == ui,
        match ui.placed[i].widget {
            WidgetModel::Button { enabled, .. } => ui.keyed(UiKey::Activate).1 == (if enabled {
                ResponseModel::Action(ActionModel::Pressed(id))
            } else {
                ResponseModel::Consumed
            }),
            WidgetModel::Entry { .. } => ui.keyed(UiKey::Activate).1 == ResponseModel::Action(
                ActionModel::Pressed(id),
            ),
            WidgetModel::Toggle { on, .. } => ui.keyed(UiKey::Activate).1 == ResponseModel::Action(
                ActionModel::Toggled(id, !on),
            ),
            WidgetModel::Text { .. } => ui.keyed(UiKey::Activate).1 is Consumed,
            _ => ui.keyed(UiKey::Activate) == ui.keyed(UiKey::Right),
        },
{
    lemma_focus(ui, i, id);
}

/// The right arrow turns a toggle on and steps forward, the left arrow turns it off and
/// steps back. Neither changes the panel: the caller is told what to change.
pub proof fn law_arrows_step_the_focused_row(ui: UiModel, i: int, id: WidgetId)
    requires
        ui.focus == Some(id),
        is_row_of(ui, i, id),
    ensures
        match ui.placed[i].widget {
            WidgetModel::Toggle { on, .. } => {
                &&& ui.keyed(UiKey::Right) == (
                    ui,
                    if on {
                        ResponseModel::Consumed
                    } else {
                        ResponseModel::Action(ActionModel::Toggled(id, true))
                    },
                )
                &&& ui.keyed(UiKey::Left) == (
                    ui,
                    if on {
                        ResponseModel::Action(ActionModel::Toggled(id, false))
                    } else {
                        ResponseModel::Consumed
                    },
                )
            },
            WidgetModel::Select { options, index, .. } => 0 <= index < options.len() ==> {
                &&& ui.keyed(UiKey::Right) == (
                    ui,
                    ResponseModel::Action(
                        ActionModel::Selected(
                            id,
                            if index + 1 == options.len() {
                                0
                            } else {
                                index + 1
                            },
                        ),
                    ),
                )
                &&& ui.keyed(UiKey::Left) == (
                    ui,
                    ResponseModel::Action(
                        ActionModel::Selected(
                            id,
                            if index == 0 {
                                options.len() - 1
                            } else {
                                index - 1
                            },
                        ),
                    ),
                )
            },
            WidgetModel::Stepper { value, min, max, step, .. } => min <= value <= max && step > 0
                ==> {
                &&& ui.keyed(UiKey::Right) == (
                    ui,
                    if value == max {
                        ResponseModel::Consumed
                    } else if value + step <= max {
                        ResponseModel::Action(ActionModel::Changed(id, value + step))
                    } else {
                        ResponseModel::Action(ActionModel::Changed(id, max))
                    },
                )
                &&& ui.keyed(UiKey::Left) == (
                    ui,
                    if value == min {
                        ResponseModel::Consumed
                    } else if value - step >= min {
                        ResponseModel::Action(ActionModel::Changed(id, value - step))
                    } else {
                        ResponseModel::Action(ActionModel::Changed(id, min))
                    },
                )
            },
            WidgetModel::Button { .. } => ui.keyed(UiKey::Right) == (ui, ResponseModel::Consumed)
                && ui.keyed(UiKey::Left) == (ui, ResponseModel::Consumed),
            WidgetModel::Entry { .. } => ui.keyed(UiKey::Right) == (ui, ResponseModel::Consumed)
                && ui.keyed(UiKey::Left) == (ui, ResponseModel::Consumed),
            _ => true,
        },
{
    lemma_focus(ui, i, id);
    match ui.placed[i].widget {
        WidgetModel::Select { options, index, .. } => {
            if 0 <= index < options.len() {
                crate::ui::lemma_wrapping(index, options.len() as int);
            }
        },
        _ => {},
    }
}

/// The row with another widget on it.
pub open spec fn with_field(
    ui: UiModel,
    i: int,
    id: WidgetId,
    label: Seq<char>,
    value: Seq<char>,
    caret: int,
    placeholder: Seq<char>,
) -> UiModel {
    UiModel {
        placed: ui.placed.update(
            i,
            PlacedModel {
                widget: WidgetModel::Text { id, label, value, caret, placeholder },
                rect: ui.placed[i].rect,
                value_rect: ui.placed[i].value_rect,
            },
        ),
        ..ui
    }
}

/// What the editing keys do to a field whose caret stands between two parts of its text:
/// Backspace takes the last character of the part before it and Delete the first of the
/// part after, the arrows go one character over, Home and End to the ends; only a change
/// of the text is reported, with the whole of it.
pub proof fn law_fields_are_edited(
    ui: UiModel,
    i: int,
    id: WidgetId,
    label: Seq<char>,
    before: Seq<char>,
    after: Seq<char>,
    placeholder: Seq<char>,
)
    requires
        ui.focus == Some(id),
        is_row_of(ui, i, id),
        ui.placed[i].widget == (WidgetModel::Text {
            id,
            label,
            value: before + after,
            caret: before.len() as int,
            placeholder,
        }),
    ensures
        ({
            let end = (before + after).len() as int;
            let at = before.len() as int;
            let gone = |value: Seq<char>, caret: int|
                (
                    with_field(ui, i, id, label, value, caret, placeholder),
                    ResponseModel::Action(ActionModel::Edited(id, value)),
                );
            let moved = |caret: int|
                (
                    with_field(ui, i, id, label, before + after, caret, placeholder),
                    ResponseModel::Consumed,
                );
            &&& before.len() > 0 ==> ui.keyed(UiKey::Backspace) == gone(
                before.drop_last() + after,
                at - 1,
            )
            &&& before.len() == 0 ==> ui.keyed(UiKey::Backspace) == (ui, ResponseModel::Consumed)
            &&& after.len() > 0 ==> ui.keyed(UiKey::Delete) == gone(before + after.drop_first(), at)
            &&& after.len() == 0 ==> ui.keyed(UiKey::Delete) == (ui, ResponseModel::Consumed)
            &&& ui.keyed(UiKey::Home) == moved(0)
            &&& ui.keyed(UiKey::End) == moved(end)
            &&& before.len() > 0 ==> ui.keyed(UiKey::Left) == moved(at - 1)
            &&& before.len() == 0 ==> ui.keyed(UiKey::Left) == moved(0)
            &&& after.len() > 0 ==> ui.keyed(UiKey::Right) == moved(at + 1)
            &&& after.len() == 0 ==> ui.keyed(UiKey::Right) == moved(end)
        }),
{
    lemma_focus(ui, i, id);
    let value = before + after;
    if before.len() > 0 {
        assert(value.remove(before.len() - 1) =~= before.drop_last() + after);
    }
    if after.len() > 0 {
        assert(value.remove(before.len() as int) =~= before + after.drop_first());
    }
    assert(ui.placed.update(i, ui.placed[i]) =~= ui.placed);
}

/// A typed character goes in at the caret, which moves behind it, and the new text is
/// reported; a control character and one typed with another row focused do nothing.
pub proof fn law_typing_goes_in_at_the_caret(
    ui: UiModel,
    i: int,
    id: WidgetId,
    label: Seq<char>,
    before: Seq<char>,
    after: Seq<char>,
    placeholder: Seq<char>,
    c: char,
)
    requires
        ui.focus == Some(id),
        is_row_of(ui, i, id),
        ui.placed[i].widget == (WidgetModel::Text {
            id,
            label,
            value: before + after,
            caret: before.len() as int,
            placeholder,
        }),
    ensures
        !(c as u32 <= 0x1f || 0x7f <= c as u32 <= 0x9f) ==> ui.typed(c) == (
            with_field(
                ui,
                i,
                id,
                label,
                before + seq![c] + after,
                (before.len() + 1) as int,
                placeholder,
            ),
            Some(ActionModel::Edited(id, before + seq![c] + after)),
        ),
        (c as u32 <= 0x1f || 0x7f <= c as u32 <= 0x9f) ==> ui.typed(c) == (ui, None::<ActionModel>),
{
    lemma_focus(ui, i, id);
    assert((before + after).insert(before.len() as int, c) =~= before + seq![c] + after);
}

/// Nothing is typed into a row that is not a field, nor where nothing is focused.
pub proof fn law_only_fields_are_typed_into(ui: UiModel, i: int, id: WidgetId, c: char)
    requires
        ui.focus is None || (ui.focus == Some(id) && is_row_of(ui, i, id)
            && !(ui.placed[i].widget is Text)),
    ensures
        ui.typed(c) == (ui, None::<ActionModel>),
        ui.focus is Some ==> ui.keyed(UiKey::Backspace) == (ui, ResponseModel::Consumed),
        ui.focus is Some ==> ui.keyed(UiKey::Delete) == (ui, ResponseModel::Consumed),
        ui.focus is Some ==> ui.keyed(UiKey::Home) == (ui, ResponseModel::Consumed),
        ui.focus is Some ==> ui.keyed(UiKey::End) == (ui, ResponseModel::Consumed),
{
    if ui.focus is Some {
        lemma_focus(ui, i, id);
        assert(ui.placed.update(i, ui.placed[i]) =~= ui.placed);
    }
}

/// A text that is typed is typed character by character, in order, and its last edit is
/// what is reported.
pub proof fn law_text_is_typed_in_order(ui: UiModel, text: Seq<char>, c: char)
    ensures
        ui.typed_text(Seq::empty()) == (ui, None::<ActionModel>),
        ui.typed_text(text.push(c)).0 == ui.typed_text(text).0.typed(c).0,
        ui.typed_text(text).0.typed(c).1 is Some ==> ui.typed_text(text.push(c)).1
            == ui.typed_text(text).0.typed(c).1,
        ui.typed_text(text).0.typed(c).1 is None ==> ui.typed_text(text.push(c)).1
            == ui.typed_text(text).1,
{
    assert(text.push(c).drop_last() =~= text);
}

/// A row can be focused if it takes part, and asking for another changes nothing.
pub proof fn law_asking_for_the_focus(ui: UiModel, i: int, id: WidgetId)
    requires
        is_row_of(ui, i, id),
    ensures
        ui.placed[i].widget.interactive() ==> ui.focus_on(id) == (UiModel {
            focus: Some(id),
            ..ui
        }),
        !ui.placed[i].widget.interactive() ==> ui.focus_on(id) == ui,
        ui.index_of_id(id) == Some(i),
{
    crate::ui::lemma_first_id_bounds(ui.placed, id, ui.placed.len() as int);
}

/// Scrolling goes as far as it was asked to, but not past either end, and changes nothing
/// else.
pub proof fn law_scrolling_stops_at_the_ends(ui: UiModel, delta: int)
    requires
        ui.wf(),
    ensures
        ({
            let most = if ui.content_height > ui.viewport_height {
                ui.content_height - ui.viewport_height
            } else {
                0
            };
            let to = ui.scroll + delta;
            ui.scrolled(delta) == (UiModel {
                scroll: if to < 0 {
                    0
                } else if to > most {
                    most
                } else {
                    to
                },
                ..ui
            })
        }),
{
}

/// How far a panel scrolls to show the focused row: just enough, up or down, and not at
/// all for one that shows or is in the footer.
pub proof fn law_just_enough_is_scrolled(ui: UiModel, i: int, id: WidgetId)
    requires
        ui.focus == Some(id),
        is_row_of(ui, i, id),
    ensures
        ({
            let row = ui.placed[i].rect;
            let area = ui.body_area;
            let to = |d: int| ui.focus_shown() == ui.scrolled(d);
            &&& i >= ui.body_count ==> to(0)
            &&& i < ui.body_count && row.y < area.y ==> to(row.y - area.y)
            &&& i < ui.body_count && row.y >= area.y && row.y + row.height > area.y + area.height
                ==> to(row.y + row.height - area.y - area.height)
            &&& i < ui.body_count && row.y >= area.y && row.y + row.height <= area.y + area.height
                ==> to(0)
        }),
{
    lemma_focus(ui, i, id);
}

/// The measures of a panel in a font: a row is a line and six pixels, two pixels apart;
/// the padding and the space above a heading are a line, and a value column is twelve.
pub proof fn law_measures_of_a_panel(width: u32, height: u32)
    requires
        height * 12 <= u32::MAX,
    ensures
        ({
            let m = Metrics::of_cell(width as int, height as int);
            &&& m.row_height == height + 6
            &&& m.row_gap == 2
            &&& m.heading_space == height
            &&& m.padding == height
            &&& m.value_width == 12 * height
            &&& m.char_width == if width == 0 {
                1
            } else {
                width
            }
        }),
{
}

/// Where the rows of a panel are: inside its padding, one below the other with the gap
/// between them and a heading's space above a heading, the value at the right end, in a
/// column of its own width or two thirds of the row, whichever is less.
pub proof fn law_rows_stand_below_each_other(
    ui: UiModel,
    body: Seq<WidgetModel>,
    footer: Seq<WidgetModel>,
    area: Rect,
    m: Metrics,
    i: int,
)
    requires
        ui.wf(),
        ui.layout_fits(body, footer, area, m),
        0 <= i < body.len(),
    ensures
        ({
            let after = ui.laid_out(body, footer, area, m);
            let row = after.placed[i];
            let wide = if area.width >= 2 * m.padding {
                area.width - 2 * m.padding
            } else {
                0
            };
            let column = if m.value_width <= wide * 2 / 3 {
                m.value_width as int
            } else {
                wide * 2 / 3
            };
            &&& after.placed.len() == body.len() + footer.len()
            &&& after.body_count == body.len()
            &&& row.widget == body[i]
            &&& row.rect.x == area.x + m.padding
            &&& row.rect.width == wide
            &&& row.rect.height == m.row_height
            &&& row.value_rect.y == row.rect.y
            &&& row.value_rect.height == m.row_height
            &&& row.value_rect.width == column
            &&& row.value_rect.x + column == row.rect.x + wide
            &&& i == 0 ==> row.rect.y == area.y + m.padding - after.scroll
            &&& i > 0 ==> row.rect.y == after.placed[i - 1].rect.y + m.row_height + m.row_gap + (
            if body[i].is_heading() {
                m.heading_space as int
            } else {
                0
            })
            &&& i == body.len() - 1 ==> after.content_height == row.rect.y + after.scroll - area.y
                + m.row_height + m.row_gap + m.padding
        }),
{
    crate::ui::lemma_row_top_grows(m, body, 0, i);
    crate::ui::lemma_row_top_grows(m, body, i, body.len() as int);
    if i > 0 {
        crate::ui::lemma_row_top_grows(m, body, 0, i - 1);
    }
}

/// The footer is pinned below the body, across the whole panel: together they make up
/// the panel, and a footer of buttons is one and a half rows high inside its padding.
pub proof fn law_the_footer_is_pinned(
    ui: UiModel,
    body: Seq<WidgetModel>,
    footer: Seq<WidgetModel>,
    area: Rect,
    m: Metrics,
)
    requires
        ui.wf(),
        ui.layout_fits(body, footer, area, m),
    ensures
        ({
            let after = ui.laid_out(body, footer, area, m);
            let row = m.row_height + m.row_height / 2;
            let high = if footer.len() == 0 {
                0
            } else if footer.len() == 1 && (footer[0] is Text || footer[0] is Select
                || footer[0] is Stepper) {
                2 * row + 2 * m.padding
            } else {
                row + 2 * m.padding
            };
            &&& after.footer_area.height == high
            &&& after.body_area.x == area.x && after.body_area.width == area.width
            &&& after.footer_area.x == area.x && after.footer_area.width == area.width
            &&& after.body_area.y == area.y
            &&& after.footer_area.y == area.y + after.body_area.height
            &&& high <= area.height ==> after.body_area.height == area.height - high
            &&& high > area.height ==> after.body_area.height == 0
            &&& after.viewport_height == after.body_area.height
        }),
{
}

/// Buttons in a footer are as wide as their labels and six characters more, four gaps
/// apart, in order, and end at the right where they all fit.
pub proof fn law_footer_buttons_stand_in_a_row(
    ui: UiModel,
    body: Seq<WidgetModel>,
    footer: Seq<WidgetModel>,
    area: Rect,
    m: Metrics,
    i: int,
)
    requires
        ui.wf(),
        ui.layout_fits(body, footer, area, m),
        footer.len() > 1,
        0 <= i < footer.len(),
    ensures
        ({
            let after = ui.laid_out(body, footer, area, m);
            let band = after.footer_area;
            let cell = after.placed[body.len() + i];
            let first = after.placed[body.len() as int].rect;
            let last = after.placed[body.len() + footer.len() - 1].rect;
            &&& cell.widget == footer[i]
            &&& cell.rect.width == footer[i].caption().len() * m.char_width + 6 * m.char_width
            &&& cell.rect.y == band.y + m.padding
            &&& cell.rect.height == m.row_height + m.row_height / 2
            &&& i + 1 < footer.len() ==> after.placed[body.len() + i + 1].rect.x == cell.rect.x
                + cell.rect.width + 4 * m.row_gap
            &&& first.x == area.x + m.padding || last.x + last.width == area.x + area.width
                - m.padding
            &&& first.x >= area.x + m.padding
            &&& last.x + last.width < area.x + area.width - m.padding ==> area.width < 2 * m.padding
            &&& first.x > area.x + m.padding ==> last.x + last.width == area.x + area.width
                - m.padding
            &&& footer[i] is Button ==> cell.value_rect == cell.rect
        }),
{
    let n = footer.len() as int;
    lemma_footer_place(ui, body, footer, area, m, i);
    lemma_footer_place(ui, body, footer, area, m, 0);
    lemma_footer_place(ui, body, footer, area, m, n - 1);
    if i + 1 < n {
        lemma_footer_place(ui, body, footer, area, m, i + 1);
    }
    crate::ui::lemma_button_left_grows(m, footer, 0, n);
    assert(m.button_left(footer, 0) == 0);
    assert(m.button_left(footer, n) == m.button_left(footer, n - 1) + m.button_width(footer[n - 1])
        + 4 * m.row_gap);
    assert(m.button_left(footer, i + 1) == m.button_left(footer, i) + m.button_width(footer[i]) + 4
        * m.row_gap);
}

/// A button of a footer is where its label and those before it put it.
proof fn lemma_footer_place(
    ui: UiModel,
    body: Seq<WidgetModel>,
    footer: Seq<WidgetModel>,
    area: Rect,
    m: Metrics,
    i: int,
)
    requires
        ui.wf(),
        ui.layout_fits(body, footer, area, m),
        footer.len() > 1,
        0 <= i < footer.len(),
    ensures
        ({
            let after = ui.laid_out(body, footer, area, m);
            let band = UiModel::footer_area_of(footer, area, m);
            let cell = after.placed[body.len() + i];
            &&& cell == UiModel::footer_cell(footer, band, m, i)
            &&& cell.rect.x == UiModel::footer_start(footer, band, m) + m.button_left(footer, i)
            &&& cell.rect.width == m.button_width(footer[i])
        }),
{
    let n = footer.len() as int;
    let band = UiModel::footer_area_of(footer, area, m);
    crate::ui::lemma_button_left_grows(m, footer, 0, i);
    crate::ui::lemma_button_left_grows(m, footer, i, n);
    let start = UiModel::footer_start(footer, band, m);
    let at = m.button_left(footer, i);
    assert(0 <= at <= m.button_left(footer, n));
    assert(0 <= m.button_width(footer[i]) <= i32::MAX);
    assert(i32::MIN <= start + at <= i32::MAX);
}

/// A footer of one row takes the whole width inside the padding; a field, a choice or a
/// number has its value on a line of its own below its label there.
pub proof fn law_a_footer_of_one_row(
    ui: UiModel,
    body: Seq<WidgetModel>,
    footer: Seq<WidgetModel>,
    area: Rect,
    m: Metrics,
)
    requires
        ui.wf(),
        ui.layout_fits(body, footer, area, m),
        footer.len() == 1,
        area.width >= 2 * m.padding,
    ensures
        ({
            let after = ui.laid_out(body, footer, area, m);
            let band = after.footer_area;
            let cell = after.placed[body.len() as int];
            let row = m.row_height + m.row_height / 2;
            &&& cell.widget == footer[0]
            &&& cell.rect.x == area.x + m.padding
            &&& cell.rect.width == area.width - 2 * m.padding
            &&& cell.rect.y == band.y + m.padding
            &&& footer[0] is Button ==> cell.rect.height == row && cell.value_rect == cell.rect
            &&& footer[0] is Text || footer[0] is Select || footer[0] is Stepper ==> {
                &&& cell.rect.height == 2 * row
                &&& cell.value_rect.x == cell.rect.x
                &&& cell.value_rect.width == cell.rect.width
                &&& cell.value_rect.y == cell.rect.y + row
                &&& cell.value_rect.height == row
            }
        }),
{
    crate::ui::lemma_button_left_grows(m, footer, 0, 1);
}

/// Asking for a row that is not there changes nothing.
pub proof fn law_rows_that_are_not_there_are_not_focused(ui: UiModel, id: WidgetId)
    requires
        forall|j: int| 0 <= j < ui.placed.len() ==> (#[trigger] ui.placed[j]).widget.id() != Some(id),
    ensures
        ui.focus_on(id) == ui,
        !ui.can_focus(id),
        ui.index_of_id(id) is None,
{
    crate::ui::lemma_first_id_bounds(ui.placed, id, ui.placed.len() as int);
}

} // verus!
