//! What can be seen of a panel's rows, of messages and of scrollbars.

use vstd::prelude::*;

use crate::draw::ToastModel;
use crate::geometry::Rect;
use crate::scene::{Blend, Corners, OpModel, Tone, Weight};
use crate::text::{Align, Font, RunModel};
use crate::ui::{PlacedModel, UiModel};
use crate::widget::{EntryKind, WidgetModel};

verus! {

/// The operation is one of the four sides, two pixels wide, of a ring inside a rectangle.
pub open spec fn rings(op: OpModel, r: Rect) -> bool {
    let side = |s: Rect| crate::drawing_laws::fills(op, s, Tone::Cursor, Blend::Opaque);
    ||| side(Rect { x: r.x, y: r.y, width: r.width, height: 2 })
    ||| side(Rect { x: r.x, y: (r.y + r.height - 2) as i32, width: r.width, height: 2 })
    ||| side(Rect { x: r.x, y: r.y, width: 2, height: r.height })
    ||| side(Rect { x: (r.x + r.width - 2) as i32, y: r.y, width: 2, height: r.height })
}

proof fn lemma_ring(r: Rect, op: OpModel)
    ensures
        crate::draw::ring_ops(r).contains(op) <==> rings(op, r),
{
    let s = crate::draw::ring_ops(r);
    assert(s.len() == 4);
    assert(s.contains(s[0]) && s.contains(s[1]) && s.contains(s[2]) && s.contains(s[3]));
}

/// What is drawn behind a row, and nothing else: a selected or hovered row is lit, a
/// focused one has a ring round it, a field has a frame that lights up with the focus,
/// and a button a frame whose inside tells held from hovered from idle.
pub proof fn law_what_is_behind_a_row(
    row: PlacedModel,
    focused: bool,
    hovered: bool,
    pressed: bool,
    op: OpModel,
)
    ensures
        crate::draw::row_background_ops(row, focused, hovered, pressed).contains(op) <==> {
            ||| row.widget is Entry && row.widget->Entry_selected && crate::drawing_laws::fills(
                op,
                row.rect,
                Tone::BackgroundFocused,
                Blend::Opaque,
            )
            ||| focused && !(row.widget is Text) && rings(op, row.rect)
            ||| hovered && crate::drawing_laws::fills(
                op,
                row.rect,
                Tone::BackgroundFocused,
                Blend::Opaque,
            )
            ||| row.widget is Text && crate::drawing_laws::fills(
                op,
                row.value_rect,
                if focused {
                    Tone::Cursor
                } else {
                    Tone::SplitDivider
                },
                Blend::Opaque,
            )
            ||| row.widget is Text && crate::drawing_laws::fills_inside(
                op,
                row.value_rect,
                Tone::Background,
            )
            ||| row.widget is Button && crate::drawing_laws::fills(
                op,
                row.rect,
                Tone::SplitDivider,
                Blend::Opaque,
            )
            ||| row.widget is Button && crate::drawing_laws::fills_inside(
                op,
                row.rect,
                if pressed {
                    Tone::Cursor
                } else if hovered {
                    Tone::BackgroundFocused
                } else {
                    Tone::Background
                },
            )
        },
{
    let selected = row.widget is Entry && row.widget->Entry_selected;
    let lit = OpModel::fill(row.rect, Tone::BackgroundFocused, Blend::Opaque);
    let a = OpModel::when(selected, lit);
    let b = if focused && !(row.widget is Text) {
        crate::draw::ring_ops(row.rect)
    } else {
        Seq::empty()
    };
    let c = OpModel::when(hovered, lit);
    let field = OpModel::outlined(
        row.value_rect,
        if focused {
            Tone::Cursor
        } else {
            Tone::SplitDivider
        },
        Tone::Background,
    );
    let button = OpModel::outlined(
        row.rect,
        Tone::SplitDivider,
        if pressed {
            Tone::Cursor
        } else if hovered {
            Tone::BackgroundFocused
        } else {
            Tone::Background
        },
    );
    let d = if row.widget is Text {
        field
    } else if row.widget is Button {
        button
    } else {
        Seq::empty()
    };
    assert(crate::draw::row_background_ops(row, focused, hovered, pressed) == a + b + c + d);
    crate::drawing_laws::lemma_when(selected, lit, op);
    crate::drawing_laws::lemma_when(hovered, lit, op);
    lemma_ring(row.rect, op);
    assert(field =~= seq![field[0], field[1]]);
    assert(button =~= seq![button[0], button[1]]);
    crate::drawing_laws::lemma_two(field[0], field[1], op);
    crate::drawing_laws::lemma_two(button[0], button[1], op);
    crate::drawing_laws::lemma_sum(a, b, op);
    crate::drawing_laws::lemma_sum(a + b, c, op);
    crate::drawing_laws::lemma_sum(a + b + c, d, op);
}

/// The operation writes a regular line in a box, eight pixels from its sides.
pub open spec fn lines(
    op: OpModel,
    text: Seq<char>,
    rect: Rect,
    align: Align,
    tone: Tone,
    font: Font,
) -> bool {
    crate::drawing_laws::says(op, text, rect, 8, align, tone, Weight::Regular, font)
}

proof fn lemma_line(
    text: Seq<char>,
    rect: Rect,
    align: Align,
    tone: Tone,
    font: Font,
    op: OpModel,
)
    ensures
        crate::draw::line(text, rect, align, tone, font).contains(op) <==> lines(
            op,
            text,
            rect,
            align,
            tone,
            font,
        ),
{
    crate::drawing_laws::lemma_text(text, rect, 8, align, tone, Weight::Regular, font, op);
}

/// What is written on the plain rows, and nothing else: a label, bold and in the accent if
/// it heads a group; a shortcut's name on the left and its keys, dim, on the right; a
/// button's label in its middle, dim while it is disabled.
pub proof fn law_what_is_written_on_a_row(
    row: PlacedModel,
    focused: bool,
    pressed: bool,
    font: Font,
    op: OpModel,
)
    ensures
        ({
            let ops = crate::draw::row_text_ops(row, focused, pressed, font);
            match row.widget {
                WidgetModel::Label { text, heading } => ops.contains(op)
                    <==> crate::drawing_laws::says(
                    op,
                    text,
                    row.rect,
                    8,
                    Align::Left,
                    if heading {
                        Tone::Cursor
                    } else {
                        Tone::Foreground
                    },
                    if heading {
                        Weight::Bold
                    } else {
                        Weight::Regular
                    },
                    font,
                ),
                WidgetModel::Shortcut { label, keys } => ops.contains(op) <==> {
                    ||| lines(op, label, row.rect, Align::Left, Tone::Foreground, font)
                    ||| lines(op, keys, row.rect, Align::Right, Tone::BrightBlack, font)
                },
                WidgetModel::Button { label, enabled, .. } => ops.contains(op) <==> lines(
                    op,
                    label,
                    row.rect,
                    Align::Center,
                    if pressed {
                        Tone::Background
                    } else if enabled {
                        Tone::Foreground
                    } else {
                        Tone::BrightBlack
                    },
                    font,
                ),
                _ => true,
            }
        }),
{
    match row.widget {
        WidgetModel::Label { text, heading } => {
            crate::drawing_laws::lemma_text(
                text,
                row.rect,
                8,
                Align::Left,
                if heading {
                    Tone::Cursor
                } else {
                    Tone::Foreground
                },
                if heading {
                    Weight::Bold
                } else {
                    Weight::Regular
                },
                font,
                op,
            );
        },
        WidgetModel::Shortcut { label, keys } => {
            lemma_line(label, row.rect, Align::Left, Tone::Foreground, font, op);
            lemma_line(keys, row.rect, Align::Right, Tone::BrightBlack, font, op);
            crate::drawing_laws::lemma_sum(
                crate::draw::line(label, row.rect, Align::Left, Tone::Foreground, font),
                crate::draw::line(keys, row.rect, Align::Right, Tone::BrightBlack, font),
                op,
            );
        },
        WidgetModel::Button { label, enabled, .. } => {
            lemma_line(
                label,
                row.rect,
                Align::Center,
                if pressed {
                    Tone::Background
                } else if enabled {
                    Tone::Foreground
                } else {
                    Tone::BrightBlack
                },
                font,
                op,
            );
        },
        _ => {},
    }
}

/// What is written on a row with a value, and nothing else: its label on the left and its
/// value, in the accent, on the right of the value's own column.
pub proof fn law_values_are_written(
    row: PlacedModel,
    focused: bool,
    pressed: bool,
    font: Font,
    op: OpModel,
)
    requires
        row.widget is Toggle || row.widget is Select || row.widget is Stepper,
    ensures
        crate::draw::row_text_ops(row, focused, pressed, font).contains(op) <==> {
            ||| lines(op, row.widget.caption(), row.rect, Align::Left, Tone::Foreground, font)
            ||| lines(
                op,
                row.widget.value_text()->0,
                row.value_rect,
                Align::Right,
                Tone::Cursor,
                font,
            )
        },
{
    let a = row.widget.caption();
    let b = row.widget.value_text()->0;
    lemma_line(a, row.rect, Align::Left, Tone::Foreground, font, op);
    lemma_line(b, row.value_rect, Align::Right, Tone::Cursor, font, op);
    crate::drawing_laws::lemma_sum(
        crate::draw::line(a, row.rect, Align::Left, Tone::Foreground, font),
        crate::draw::line(b, row.value_rect, Align::Right, Tone::Cursor, font),
        op,
    );
}

/// What is drawn of a field, and nothing else: its label, above the field where there is
/// room and before it otherwise, what has been typed or, dim, the placeholder, and the
/// caret while it has the focus, behind as many characters as it stands behind.
pub proof fn law_fields_are_written(
    row: PlacedModel,
    focused: bool,
    pressed: bool,
    font: Font,
    op: OpModel,
)
    requires
        row.widget is Text,
        crate::draw::row_ok(row, font),
        row.value_rect.height >= 10,
        row.value_rect.x + 8 + row.widget->caret * font.cell_width <= row.value_rect.x
            + row.value_rect.width - 8,
    ensures
        ({
            let value = row.widget->Text_value;
            let r = row.value_rect;
            crate::draw::row_text_ops(row, focused, pressed, font).contains(op) <==> {
                ||| lines(
                    op,
                    row.widget.caption(),
                    if r.y > row.rect.y {
                        Rect { height: (r.y - row.rect.y) as u32, ..row.rect }
                    } else {
                        row.rect
                    },
                    Align::Left,
                    Tone::Foreground,
                    font,
                )
                ||| value.len() > 0 && lines(op, value, r, Align::Left, Tone::Foreground, font)
                ||| value.len() == 0 && lines(
                    op,
                    row.widget->placeholder,
                    r,
                    Align::Left,
                    Tone::BrightBlack,
                    font,
                )
                ||| focused && crate::drawing_laws::fills(
                    op,
                    Rect {
                        x: (r.x + 8 + row.widget->caret * font.cell_width) as i32,
                        y: (r.y + 4) as i32,
                        width: 2,
                        height: (r.height - 8) as u32,
                    },
                    Tone::Cursor,
                    Blend::Opaque,
                )
            }
        }),
{
    match row.widget {
        WidgetModel::Text { label, value, caret, placeholder, .. } => {
            let text = if value.len() == 0 {
                placeholder
            } else {
                value
            };
            let tone = if value.len() == 0 {
                Tone::BrightBlack
            } else {
                Tone::Foreground
            };
            let room = crate::draw::field_label_box(row);
            let mark = OpModel::fill(
                crate::draw::caret_rect(row.value_rect, caret, font),
                Tone::Cursor,
                Blend::Opaque,
            );
            let a = crate::draw::line(label, room, Align::Left, Tone::Foreground, font);
            let b = crate::draw::line(text, row.value_rect, Align::Left, tone, font);
            let c = OpModel::when(focused, mark);
            lemma_line(label, room, Align::Left, Tone::Foreground, font, op);
            lemma_line(text, row.value_rect, Align::Left, tone, font, op);
            crate::drawing_laws::lemma_when(focused, mark, op);
            crate::drawing_laws::lemma_sum(a, b, op);
            crate::drawing_laws::lemma_sum(a + b, c, op);
        },
        _ => {},
    }
}

/// What is drawn of an entry, and nothing else: an icon of its kind in a square on the
/// left, its name beside it, and its detail, dim, on the right, if it has one.
pub proof fn law_entries_are_written(
    row: PlacedModel,
    focused: bool,
    pressed: bool,
    font: Font,
    op: OpModel,
)
    requires
        row.widget is Entry,
    ensures
        ({
            let r = row.rect;
            let kind = row.widget->kind;
            let detail = row.widget->detail;
            let taken = r.height + RunModel::measured(detail, font.cell_width as int) + 8;
            crate::draw::row_text_ops(row, focused, pressed, font).contains(op) <==> {
                ||| op == (OpModel::EntryIcon {
                    kind,
                    rect: Rect { x: r.x, y: r.y, width: r.height, height: r.height },
                    tone: match kind {
                        EntryKind::Directory => Tone::Cursor,
                        EntryKind::Parent => Tone::Cursor,
                        EntryKind::Symlink => Tone::NormalCyan,
                        EntryKind::File => Tone::BrightBlack,
                    },
                })
                ||| crate::drawing_laws::says(
                    op,
                    row.widget.caption(),
                    Rect {
                        x: (r.x + r.height) as i32,
                        y: r.y,
                        width: (if r.width >= taken {
                            r.width - taken
                        } else {
                            0
                        }) as u32,
                        height: r.height,
                    },
                    4,
                    Align::Left,
                    Tone::Foreground,
                    Weight::Regular,
                    font,
                )
                ||| detail.len() > 0 && lines(
                    op,
                    detail,
                    r,
                    Align::Right,
                    Tone::BrightBlack,
                    font,
                )
            }
        }),
{
    match row.widget {
        WidgetModel::Entry { kind, label, detail, .. } => {
            let icon = OpModel::EntryIcon {
                kind,
                rect: crate::draw::entry_icon_box(row.rect),
                tone: crate::draw::entry_tone(kind),
            };
            let room = crate::draw::entry_name_box(row.rect, detail, font);
            let name = OpModel::text_in(
                label,
                room,
                4,
                Align::Left,
                Tone::Foreground,
                Weight::Regular,
                font,
            );
            let more = if detail.len() == 0 {
                Seq::empty()
            } else {
                crate::draw::line(detail, row.rect, Align::Right, Tone::BrightBlack, font)
            };
            crate::drawing_laws::lemma_one(icon, op);
            crate::drawing_laws::lemma_text(
                label,
                room,
                4,
                Align::Left,
                Tone::Foreground,
                Weight::Regular,
                font,
                op,
            );
            lemma_line(detail, row.rect, Align::Right, Tone::BrightBlack, font, op);
            crate::drawing_laws::lemma_sum(seq![icon], name, op);
            crate::drawing_laws::lemma_sum(seq![icon] + name, more, op);
        },
        _ => {},
    }
}

/// Every row that reaches into the panel's viewport is drawn, with the focus, the pointer
/// and the held button on the rows that have them: first everything behind the rows,
/// then everything written on them.
pub proof fn law_rows_are_drawn(ui: UiModel, rows: Seq<PlacedModel>, font: Font, i: int, op: OpModel)
    requires
        0 <= i < rows.len(),
        rows[i].rect.overlaps(ui.viewport_spec()),
    ensures
        ({
            let id = rows[i].widget.id();
            let focused = id is Some && id == ui.focus;
            let hovered = id is Some && id == ui.hover;
            let pressed = id is Some && id == ui.pressed;
            let ops = crate::draw::rows_ops(ui, rows, font);
            &&& crate::draw::row_background_ops(rows[i], focused, hovered, pressed).contains(op)
                ==> ops.contains(op)
            &&& crate::draw::row_text_ops(rows[i], focused, pressed, font).contains(op)
                ==> ops.contains(op)
        }),
{
    let n = rows.len() as int;
    lemma_behind(ui, rows, i, n, op);
    lemma_written(ui, rows, font, i, n, op);
    crate::drawing_laws::lemma_sum(
        crate::draw::backgrounds(ui, rows, n),
        crate::draw::texts(ui, rows, font, n),
        op,
    );
}

proof fn lemma_behind(ui: UiModel, rows: Seq<PlacedModel>, i: int, n: int, op: OpModel)
    requires
        0 <= i < n <= rows.len(),
        rows[i].rect.overlaps(ui.viewport_spec()),
    ensures
        crate::draw::row_background_ops(
            rows[i],
            crate::draw::is_row(rows[i], ui.focus),
            crate::draw::is_row(rows[i], ui.hover),
            crate::draw::is_row(rows[i], ui.pressed),
        ).contains(op) ==> crate::draw::backgrounds(ui, rows, n).contains(op),
    decreases n,
{
    let row = rows[n - 1];
    let own = if row.rect.overlaps(ui.viewport_spec()) {
        crate::draw::row_background_ops(
            row,
            crate::draw::is_row(row, ui.focus),
            crate::draw::is_row(row, ui.hover),
            crate::draw::is_row(row, ui.pressed),
        )
    } else {
        Seq::empty()
    };
    crate::drawing_laws::lemma_sum(crate::draw::backgrounds(ui, rows, n - 1), own, op);
    if i < n - 1 {
        lemma_behind(ui, rows, i, n - 1, op);
    }
}

proof fn lemma_written(
    ui: UiModel,
    rows: Seq<PlacedModel>,
    font: Font,
    i: int,
    n: int,
    op: OpModel,
)
    requires
        0 <= i < n <= rows.len(),
        rows[i].rect.overlaps(ui.viewport_spec()),
    ensures
        crate::draw::row_text_ops(
            rows[i],
            crate::draw::is_row(rows[i], ui.focus),
            crate::draw::is_row(rows[i], ui.pressed),
            font,
        ).contains(op) ==> crate::draw::texts(ui, rows, font, n).contains(op),
    decreases n,
{
    let row = rows[n - 1];
    let own = if row.rect.overlaps(ui.viewport_spec()) {
        crate::draw::row_text_ops(
            row,
            crate::draw::is_row(row, ui.focus),
            crate::draw::is_row(row, ui.pressed),
            font,
        )
    } else {
        Seq::empty()
    };
    crate::drawing_laws::lemma_sum(crate::draw::texts(ui, rows, font, n - 1), own, op);
    if i < n - 1 {
        lemma_written(ui, rows, font, i, n - 1, op);
    }
}

/// A row can be seen where some of it is inside the viewport, and only there; the
/// viewport is the body together with the footer below it.
pub proof fn law_what_can_be_seen(a: Rect, b: Rect, x: int, y: int, ui: UiModel)
    requires
        ui.wf(),
    ensures
        a.x <= x < a.x + a.width && a.y <= y < a.y + a.height && b.x <= x < b.x + b.width && b.y
            <= y < b.y + b.height ==> a.overlaps(b),
        a.overlaps(b) == b.overlaps(a),
        a.y + a.height <= b.y || b.y + b.height <= a.y || a.x + a.width <= b.x || b.x + b.width
            <= a.x ==> !a.overlaps(b),
        ui.viewport_spec().x == ui.body_area.x && ui.viewport_spec().y == ui.body_area.y,
        ui.viewport_spec().height == ui.body_area.height + ui.footer_area.height,
        ui.viewport_spec().width >= ui.body_area.width,
{
}

/// A title stands on a lit bar across the top of its panel, one line and twelve pixels
/// high, bold, with a hairline under it, and the body takes the rest.
pub proof fn law_titles_head_their_panels(
    panel: Rect,
    title: Seq<char>,
    inset: int,
    font: Font,
    op: OpModel,
)
    requires
        panel.fits(),
        font.cell_height + 12 <= panel.height,
    ensures
        ({
            let high = font.cell_height + 12;
            let bar = Rect { x: panel.x, y: panel.y, width: panel.width, height: high as u32 };
            let body = crate::draw::title_body(panel, font);
            &&& crate::draw::title_ops(panel, title, inset, font).contains(op) <==> {
                ||| crate::drawing_laws::fills(op, bar, Tone::BackgroundFocused, Blend::Opaque)
                ||| crate::drawing_laws::fills(
                    op,
                    Rect {
                        x: panel.x,
                        y: (panel.y + high - 1) as i32,
                        width: panel.width,
                        height: 1,
                    },
                    Tone::SplitDivider,
                    Blend::Opaque,
                )
                ||| crate::drawing_laws::says(
                    op,
                    title,
                    bar,
                    inset,
                    Align::Left,
                    Tone::Foreground,
                    Weight::Bold,
                    font,
                )
            }
            &&& body.x == panel.x && body.width == panel.width
            &&& body.y == panel.y + high
            &&& body.height == panel.height - high
        }),
{
    let bar = crate::draw::title_bar(panel, font);
    let s = crate::draw::title_ops(panel, title, inset, font);
    crate::drawing_laws::lemma_two(s[0], s[1], op);
    crate::drawing_laws::lemma_text(
        title,
        bar,
        inset,
        Align::Left,
        Tone::Foreground,
        Weight::Bold,
        font,
        op,
    );
    crate::drawing_laws::lemma_sum(
        seq![s[0], s[1]],
        OpModel::text_in(title, bar, inset, Align::Left, Tone::Foreground, Weight::Bold, font),
        op,
    );
}

/// A footer is set off by a lit background and a hairline along its top.
pub proof fn law_footers_are_set_off(footer: Rect, corners: Corners, op: OpModel)
    ensures
        crate::draw::footer_divider_ops(footer, corners).contains(op) <==> footer.height > 0 && {
            ||| op == (OpModel::Fill {
                rect: footer,
                tone: Tone::BackgroundFocused,
                blend: Blend::Opaque,
                corners,
            })
            ||| crate::drawing_laws::fills(
                op,
                Rect { x: footer.x, y: footer.y, width: footer.width, height: 1 },
                Tone::SplitDivider,
                Blend::Opaque,
            )
        },
{
    let s = crate::draw::footer_divider_ops(footer, corners);
    if footer.height > 0 {
        assert(s =~= seq![s[0], s[1]]);
        crate::drawing_laws::lemma_two(s[0], s[1], op);
    }
}

/// What is drawn of a message, and nothing else: its background, a three pixel edge in
/// its accent, and its text, all as faded as the message is. It stands at the window's
/// lower right, twelve pixels in, with those before it below.
pub proof fn law_messages_are_drawn(
    window: Rect,
    toast: ToastModel,
    font: Font,
    i: int,
    op: OpModel,
)
    requires
        window.fits(),
        i32::MIN <= window.y + window.height - 12 - (font.cell_height + 12) - i * (font.cell_height
            + 18),
        0 <= i,
        font.cell_height + 18 <= u32::MAX,
        RunModel::measured(toast.text, font.cell_width as int) + 32 <= window.width - 24,
        toast.opacity <= 1000,
    ensures
        ({
            let wide = RunModel::measured(toast.text, font.cell_width as int) + 32;
            let rect = crate::draw::toast_rect(window, toast.text, font, i);
            let blend = Blend::Fade(toast.opacity);
            &&& rect.x + rect.width == window.x + window.width - 12
            &&& rect.width == wide
            &&& rect.height == font.cell_height + 12
            &&& rect.y + rect.height == window.y + window.height - 12 - i * (font.cell_height + 18)
            &&& crate::draw::toast_ops(window, toast, font, i).contains(op) <==> {
                ||| crate::drawing_laws::fills(op, rect, Tone::BackgroundFocused, blend)
                ||| crate::drawing_laws::fills(
                    op,
                    Rect { x: rect.x, y: rect.y, width: 3, height: rect.height },
                    toast.accent,
                    blend,
                )
                ||| op == (OpModel::Text {
                    run: RunModel {
                        shown: toast.text,
                        x2: 2 * (rect.x + 11),
                        top2: 2 * rect.y + 12,
                        width: wide - 32,
                    },
                    tone: Tone::Foreground,
                    blend,
                    weight: Weight::Regular,
                })
            }
        }),
{
    crate::drawing_laws::lemma_measured(toast.text, font);
    let s = crate::draw::toast_ops(window, toast, font, i);
    assert(s =~= seq![s[0], s[1], s[2]]);
    crate::drawing_laws::lemma_three(s[0], s[1], s[2], op);
    assert(i * (font.cell_height + 18) >= 0) by (nonlinear_arith)
        requires
            0 <= i,
            0 <= font.cell_height,
    ;
    assert(crate::draw::toast_top(window, font, i) == window.y + window.height - 12 - (
    font.cell_height + 12) - i * (font.cell_height + 18));
}

/// Every message that is handed over is drawn at its own place.
pub proof fn law_every_message_is_drawn(
    window: Rect,
    toasts: Seq<ToastModel>,
    font: Font,
    i: int,
    n: int,
    op: OpModel,
)
    requires
        0 <= i < n <= toasts.len(),
    ensures
        crate::draw::toast_ops(window, toasts[i], font, i).contains(op) ==> crate::draw::toasts_ops(
            window,
            toasts,
            font,
            n,
        ).contains(op),
    decreases n,
{
    crate::drawing_laws::lemma_sum(
        crate::draw::toasts_ops(window, toasts, font, n - 1),
        crate::draw::toast_ops(window, toasts[n - 1], font, n - 1),
        op,
    );
    if i < n - 1 {
        law_every_message_is_drawn(window, toasts, font, i, n - 1, op);
    }
}

/// As many messages show as there is room for above each other.
pub proof fn law_messages_fill_the_window(window: Rect, font: Font, count: int)
    requires
        0 <= count,
    ensures
        ({
            let n = crate::draw::toasts_shown(window, font, count, 0);
            let top = |k: int|
                window.y + window.height - 12 - (font.cell_height + 12) - k * (font.cell_height
                    + 18);
            &&& 0 <= n <= count
            &&& n > 0 ==> top(n - 1) >= window.y
            &&& n < count ==> top(n) < window.y
        }),
{
    lemma_shown(window, font, count, 0);
}

proof fn lemma_shown(window: Rect, font: Font, count: int, i: int)
    requires
        0 <= i <= count,
        i > 0 ==> crate::draw::toast_top(window, font, i - 1) >= window.y,
    ensures
        ({
            let n = crate::draw::toasts_shown(window, font, count, i);
            &&& i <= n <= count
            &&& n > 0 ==> crate::draw::toast_top(window, font, n - 1) >= window.y
            &&& n < count ==> crate::draw::toast_top(window, font, n) < window.y
        }),
    decreases count - i,
{
    if i < count && crate::draw::toast_top(window, font, i) >= window.y {
        lemma_shown(window, font, count, i + 1);
    }
}

/// A scrollbar shows exactly where there is something to scroll: a track four pixels wide
/// along the right edge, and a thumb on it that is at the top when nothing is scrolled
/// away and at the bottom when everything is.
pub proof fn law_scrollbars_show_the_place(ui: UiModel, area: Rect)
    requires
        ui.wf(),
        area.fits(),
        i32::MIN + 4 <= area.x,
    ensures
        ({
            let ops = crate::draw::scrollbar_ops(ui, area);
            let beyond = ui.content_height > ui.viewport_height;
            let most = ui.content_height - ui.viewport_height;
            &&& !beyond || area.height == 0 ==> ops.len() == 0
            &&& beyond && area.height > 0 ==> {
                &&& ops.len() == 2
                &&& crate::drawing_laws::fills(
                    ops[0],
                    Rect {
                        x: (area.x + area.width - 4) as i32,
                        y: area.y,
                        width: 4,
                        height: area.height,
                    },
                    Tone::SplitDivider,
                    Blend::Opaque,
                )
                &&& ops[1] is Thumb
                &&& ops[1]->x == area.x + area.width - 4
                &&& ops[1]->width == 4
                &&& ops[1]->Thumb_tone == Tone::BrightBlack
                &&& ui.scroll == 0 ==> ops[1]->top == area.y * 1024
                &&& ui.scroll == most ==> ops[1]->top + ops[1]->height == (area.y + area.height)
                    * 1024
                &&& ops[1]->height >= 16 * 1024
                &&& ops[1]->height > 16 * 1024 ==> ops[1]->height == area.height * area.height
                    * 1024 / ui.content_height
            }
        }),
{
    if ui.content_height > ui.viewport_height && area.height > 0 {
        let most = ui.content_height - ui.viewport_height;
        let travel = area.height * 1024 - crate::draw::thumb_height(area, ui.content_height);
        assert(travel * most / most == travel && (-travel) * most / most == -travel)
            by (nonlinear_arith)
            requires
                most > 0,
        ;
        assert(travel * 0 / most == 0 && (-travel) * 0 / most == 0) by (nonlinear_arith)
            requires
                most > 0,
        ;
    }
}

} // verus!
