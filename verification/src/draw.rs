//! Drawing panels and the widgets in them.
//!
//! Backgrounds of all rows go down before any text, so no row's highlight can paint
//! over a neighbour's label.

use vstd::prelude::*;
use vstd::string::*;

use std::borrow::Cow;

use crate::geometry::Rect;
use crate::scene::{
    push_fill, push_op, push_outlined, push_text, Blend, Corners, Op, OpModel, Tone, Weight,
};
use crate::text::{measure, truncate, Align, Font, RunModel, TextRun};
use crate::ui::{Placed, PlacedModel, Ui, UiModel};
use crate::widget::{EntryKind, Widget, WidgetId, WidgetModel};

verus! {

/// Inset for text inside a row.
pub const PADDING: u32 = 8;

/// Thickness of the focus ring.
pub const FOCUS_RING: u32 = 2;

// --- frames -----------------------------------------------------------------------

/// Draw the panel frame: a dimming layer over the terminal, then the panel itself.
///
/// The dim has a fixed alpha: on a transparent window, where it is most needed, the
/// window's own opacity would make it vanish.
pub fn draw_panel_frame(out: &mut Vec<Op>, window: Rect, panel: Rect)
    requires
        panel.x < i32::MAX,
        panel.y < i32::MAX,
    ensures
        OpModel::all(final(out)@) == OpModel::all(old(out)@) + seq![
            OpModel::fill(window, Tone::Background, Blend::Dim),
        ] + OpModel::outlined(panel, Tone::SplitDivider, Tone::Background),
{
    push_fill(out, window, Tone::Background, Blend::Dim);
    push_outlined(out, panel, Tone::SplitDivider, Tone::Background);
    assert(OpModel::all(out@) =~= OpModel::all(old(out)@) + seq![
        OpModel::fill(window, Tone::Background, Blend::Dim),
    ] + OpModel::outlined(panel, Tone::SplitDivider, Tone::Background));
}

/// Fill a page. There is no dimming and no border: a page fills its tab, so there is
/// nothing behind it and no edge to outline.
pub fn draw_page_frame(out: &mut Vec<Op>, page: Rect, corners: Corners)
    ensures
        OpModel::all(final(out)@) == OpModel::all(old(out)@).push(
            OpModel::Fill {
                rect: page,
                tone: Tone::Background,
                blend: Blend::Window,
                corners,
            },
        ),
{
    push_op(
        out,
        Op::Fill {
            rect: page,
            tone: Tone::Background,
            blend: Blend::Window,
            corners,
        },
    );
}

/// What separates a pinned footer from the content above it.
pub open spec fn footer_divider_ops(footer: Rect, corners: Corners) -> Seq<OpModel> {
    if footer.height == 0 {
        Seq::empty()
    } else {
        seq![
            OpModel::Fill {
                rect: footer,
                tone: Tone::BackgroundFocused,
                blend: Blend::Opaque,
                corners,
            },
            OpModel::fill(Rect { height: 1, ..footer }, Tone::SplitDivider, Blend::Opaque),
        ]
    }
}

/// Draw the rule separating a pinned footer from the content above it.
pub fn draw_footer_divider(out: &mut Vec<Op>, footer: Rect, corners: Corners)
    ensures
        OpModel::all(final(out)@) == OpModel::all(old(out)@) + footer_divider_ops(footer, corners),
{
    if footer.height != 0 {
        push_op(
            out,
            Op::Fill {
                rect: footer,
                tone: Tone::BackgroundFocused,
                blend: Blend::Opaque,
                corners,
            },
        );
        push_fill(
            out,
            Rect::new(footer.x, footer.y, footer.width, 1),
            Tone::SplitDivider,
            Blend::Opaque,
        );
    }
    assert(OpModel::all(out@) =~= OpModel::all(old(out)@) + footer_divider_ops(footer, corners));
}

/// The title bar across the top of a panel.
pub open spec fn title_bar(panel: Rect, font: Font) -> Rect {
    Rect {
        height: (if font.cell_height + 12 <= panel.height {
            font.cell_height + 12
        } else {
            panel.height as int
        }) as u32,
        ..panel
    }
}

/// What is left of a panel below its title bar.
pub open spec fn title_body(panel: Rect, font: Font) -> Rect {
    Rect {
        x: panel.x,
        y: title_bar(panel, font).bottom_spec() as i32,
        width: panel.width,
        height: (panel.height - title_bar(panel, font).height) as u32,
    }
}

/// What a title bar draws.
pub open spec fn title_ops(panel: Rect, title: Seq<char>, inset: int, font: Font) -> Seq<OpModel> {
    seq![
        OpModel::fill(title_bar(panel, font), Tone::BackgroundFocused, Blend::Opaque),
        OpModel::fill(
            Rect {
                x: panel.x,
                y: (title_bar(panel, font).bottom_spec() - 1) as i32,
                width: panel.width,
                height: 1,
            },
            Tone::SplitDivider,
            Blend::Opaque,
        ),
    ] + OpModel::text_in(
        title,
        title_bar(panel, font),
        inset,
        Align::Left,
        Tone::Foreground,
        Weight::Bold,
        font,
    )
}

/// Draw a title bar across the top of a panel. Returns the rect below it, which is
/// where widgets go.
///
/// `inset` is how far the title is indented, and must be what the rows below are laid
/// out with.
pub fn draw_panel_title(out: &mut Vec<Op>, panel: Rect, title: &str, inset: u32, font: Font) -> (body:
    Rect)
    requires
        panel.fits(),
        panel.y > i32::MIN,
        font.can_draw(title@),
    ensures
        body == title_body(panel, font),
        OpModel::all(final(out)@) == OpModel::all(old(out)@) + title_ops(
            panel,
            title@,
            inset as int,
            font,
        ),
{
    let wanted: u64 = font.cell_height as u64 + 12;
    let height: u32 = if wanted <= panel.height as u64 {
        wanted as u32
    } else {
        panel.height
    };
    let bar = Rect::new(panel.x, panel.y, panel.width, height);
    push_fill(out, bar, Tone::BackgroundFocused, Blend::Opaque);
    // A rule under the title, so it reads as a header rather than a first row.
    push_fill(
        out,
        Rect::new(bar.x, bar.bottom() - 1, bar.width, 1),
        Tone::SplitDivider,
        Blend::Opaque,
    );
    push_text(out, title, bar, inset, Align::Left, Tone::Foreground, Weight::Bold, font);
    assert(OpModel::all(out@) =~= OpModel::all(old(out)@) + title_ops(
        panel,
        title@,
        inset as int,
        font,
    ));
    Rect::new(panel.x, bar.bottom(), panel.width, panel.height - height)
}

/// Centre a panel of the given size within `window`, clamped to fit.
pub fn center_panel(window: Rect, width: u32, height: u32) -> (r: Rect)
    requires
        window.fits(),
    ensures
        r.width == (if width <= window.width {
            width
        } else {
            window.width
        }),
        r.height == (if height <= window.height {
            height
        } else {
            window.height
        }),
        r.x == window.x + (window.width - r.width) / 2,
        r.y == window.y + (window.height - r.height) / 2,
{
    let w: u32 = if width <= window.width {
        width
    } else {
        window.width
    };
    let h: u32 = if height <= window.height {
        height
    } else {
        window.height
    };
    Rect::new(
        (window.x as i64 + ((window.width - w) / 2) as i64) as i32,
        (window.y as i64 + ((window.height - h) / 2) as i64) as i32,
        w,
        h,
    )
}

// --- menu -------------------------------------------------------------------------

/// What the first `n` rows of a menu draw.
pub open spec fn menu_rows_ops(
    rows: Seq<(Rect, Seq<char>)>,
    selected: int,
    font: Font,
    n: int,
) -> Seq<OpModel>
    decreases n,
{
    if n <= 0 {
        Seq::empty()
    } else {
        let (row, label) = rows[n - 1];
        let here = n - 1 == selected;
        menu_rows_ops(rows, selected, font, n - 1) + OpModel::when(
            here,
            OpModel::fill(row, Tone::Cursor, Blend::Opaque),
        ) + OpModel::text_in(
            label,
            row,
            PADDING as int,
            Align::Left,
            if here {
                Tone::Background
            } else {
                Tone::Foreground
            },
            Weight::Regular,
            font,
        )
    }
}

/// The places and labels of a list of rows.
pub open spec fn row_labels(rows: Seq<(Rect, &str)>) -> Seq<(Rect, Seq<char>)> {
    Seq::new(rows.len(), |i: int| (rows[i].0, rows[i].1@))
}

/// Draw a dropdown: a bordered box, its rows, and the selected one highlighted.
pub fn draw_menu(out: &mut Vec<Op>, rect: Rect, rows: &[(Rect, &str)], selected: usize, font: Font)
    requires
        rect.x < i32::MAX,
        rect.y < i32::MAX,
        forall|i: int| 0 <= i < rows@.len() ==> font.can_draw((#[trigger] rows@[i]).1@),
    ensures
        OpModel::all(final(out)@) == OpModel::all(old(out)@) + OpModel::outlined(
            rect,
            Tone::SplitDivider,
            Tone::BackgroundFocused,
        ) + menu_rows_ops(row_labels(rows@), selected as int, font, rows@.len() as int),
{
    push_outlined(out, rect, Tone::SplitDivider, Tone::BackgroundFocused);
    let ghost framed = OpModel::all(out@);
    let mut i: usize = 0;
    assert(framed + menu_rows_ops(row_labels(rows@), selected as int, font, 0) =~= framed);
    while i < rows.len()
        invariant
            i <= rows@.len(),
            forall|i: int| 0 <= i < rows@.len() ==> font.can_draw((#[trigger] rows@[i]).1@),
            OpModel::all(out@) == framed + menu_rows_ops(row_labels(rows@), selected as int, font, i as int),
        decreases rows@.len() - i,
    {
        let (row, label) = rows[i];
        assert(font.can_draw(rows@[i as int].1@));
        let here = i == selected;
        if here {
            push_fill(out, row, Tone::Cursor, Blend::Opaque);
        }
        push_text(
            out,
            label,
            row,
            PADDING,
            Align::Left,
            if here {
                Tone::Background
            } else {
                Tone::Foreground
            },
            Weight::Regular,
            font,
        );
        i += 1;
        assert(OpModel::all(out@) =~= framed + menu_rows_ops(
            row_labels(rows@),
            selected as int,
            font,
            i as int,
        ));
    }
    assert(OpModel::all(out@) =~= OpModel::all(old(out)@) + OpModel::outlined(
        rect,
        Tone::SplitDivider,
        Tone::BackgroundFocused,
    ) + menu_rows_ops(row_labels(rows@), selected as int, font, rows@.len() as int));
}

// --- rows -------------------------------------------------------------------------

/// The four edges of a focus ring.
pub open spec fn ring_ops(r: Rect) -> Seq<OpModel> {
    seq![
        OpModel::fill(Rect { height: FOCUS_RING, ..r }, Tone::Cursor, Blend::Opaque),
        OpModel::fill(
            Rect { y: (r.bottom_spec() - FOCUS_RING) as i32, height: FOCUS_RING, ..r },
            Tone::Cursor,
            Blend::Opaque,
        ),
        OpModel::fill(Rect { width: FOCUS_RING, ..r }, Tone::Cursor, Blend::Opaque),
        OpModel::fill(
            Rect { x: (r.right_spec() - FOCUS_RING) as i32, width: FOCUS_RING, ..r },
            Tone::Cursor,
            Blend::Opaque,
        ),
    ]
}

/// What goes behind a row's text: the selection, the focus ring, the hover highlight,
/// and the box of a field or a button. A text field shows focus on its own border
/// instead of a ring around it.
pub open spec fn row_background_ops(
    row: PlacedModel,
    focused: bool,
    hovered: bool,
    pressed: bool,
) -> Seq<OpModel> {
    let selected = row.widget matches WidgetModel::Entry { selected, .. } && selected;
    OpModel::when(selected, OpModel::fill(row.rect, Tone::BackgroundFocused, Blend::Opaque)) + (
    if focused && !(row.widget is Text) {
        ring_ops(row.rect)
    } else {
        Seq::empty()
    }) + OpModel::when(
        hovered,
        OpModel::fill(row.rect, Tone::BackgroundFocused, Blend::Opaque),
    ) + (if row.widget is Text {
        OpModel::outlined(
            row.value_rect,
            if focused {
                Tone::Cursor
            } else {
                Tone::SplitDivider
            },
            Tone::Background,
        )
    } else if row.widget is Button {
        OpModel::outlined(
            row.rect,
            Tone::SplitDivider,
            if pressed {
                Tone::Cursor
            } else if hovered {
                Tone::BackgroundFocused
            } else {
                Tone::Background
            },
        )
    } else {
        Seq::empty()
    })
}

/// The tone of a file-list icon.
pub open spec fn entry_tone(kind: EntryKind) -> Tone {
    match kind {
        EntryKind::Directory => Tone::Cursor,
        EntryKind::Parent => Tone::Cursor,
        EntryKind::Symlink => Tone::NormalCyan,
        EntryKind::File => Tone::BrightBlack,
    }
}

/// The square a list row's icon sits in.
pub open spec fn entry_icon_box(rect: Rect) -> Rect {
    Rect { width: rect.height, ..rect }
}

/// What a list row leaves for the name, between the icon and the detail.
pub open spec fn entry_name_box(rect: Rect, detail: Seq<char>, font: Font) -> Rect {
    let taken = rect.height + RunModel::measured(detail, font.cell_width as int) + PADDING;
    Rect {
        x: (rect.x + rect.height) as i32,
        width: (if rect.width >= taken {
            rect.width - taken
        } else {
            0
        }) as u32,
        ..rect
    }
}

/// Where a field's label goes: the band above the value when they are stacked, and
/// otherwise the whole row.
pub open spec fn field_label_box(row: PlacedModel) -> Rect {
    if row.value_rect.y > row.rect.y {
        Rect { height: (row.value_rect.y - row.rect.y) as u32, ..row.rect }
    } else {
        row.rect
    }
}

/// The bar marking the caret, held inside the field.
pub open spec fn caret_rect(field: Rect, caret: int, font: Font) -> Rect {
    let x = field.x + PADDING + caret * font.cell_width;
    let limit = field.right_spec() - PADDING;
    Rect {
        x: (if x <= limit {
            x
        } else {
            limit
        }) as i32,
        y: (field.y + 4) as i32,
        width: 2,
        height: (if field.height > 9 {
            field.height - 8
        } else {
            1
        }) as u32,
    }
}

/// A line of plain row text.
pub open spec fn line(text: Seq<char>, rect: Rect, align: Align, tone: Tone, font: Font) -> Seq<
    OpModel,
> {
    OpModel::text_in(text, rect, PADDING as int, align, tone, Weight::Regular, font)
}

/// What a row says.
pub open spec fn row_text_ops(row: PlacedModel, focused: bool, pressed: bool, font: Font) -> Seq<
    OpModel,
> {
    match row.widget {
        WidgetModel::Label { text, heading } => OpModel::text_in(
            text,
            row.rect,
            PADDING as int,
            Align::Left,
            if heading {
                Tone::Cursor
            } else {
                Tone::Foreground
            },
            if heading {
                Weight::Bold
            } else {
                Weight::Regular
            },
            font,
        ),
        WidgetModel::Shortcut { label, keys } => line(
            label,
            row.rect,
            Align::Left,
            Tone::Foreground,
            font,
        ) + line(keys, row.rect, Align::Right, Tone::BrightBlack, font),
        WidgetModel::Entry { kind, label, detail, .. } => seq![
            OpModel::EntryIcon { kind, rect: entry_icon_box(row.rect), tone: entry_tone(kind) },
        ] + OpModel::text_in(
            label,
            entry_name_box(row.rect, detail, font),
            4,
            Align::Left,
            Tone::Foreground,
            Weight::Regular,
            font,
        ) + (if detail.len() == 0 {
            Seq::empty()
        } else {
            line(detail, row.rect, Align::Right, Tone::BrightBlack, font)
        }),
        WidgetModel::Button { label, enabled, .. } => line(
            label,
            row.rect,
            Align::Center,
            if pressed {
                Tone::Background
            } else if enabled {
                Tone::Foreground
            } else {
                Tone::BrightBlack
            },
            font,
        ),
        WidgetModel::Text { label, value, caret, placeholder, .. } => line(
            label,
            field_label_box(row),
            Align::Left,
            Tone::Foreground,
            font,
        ) + line(
            if value.len() == 0 {
                placeholder
            } else {
                value
            },
            row.value_rect,
            Align::Left,
            if value.len() == 0 {
                Tone::BrightBlack
            } else {
                Tone::Foreground
            },
            font,
        ) + OpModel::when(
            focused,
            OpModel::fill(caret_rect(row.value_rect, caret, font), Tone::Cursor, Blend::Opaque),
        ),
        _ => line(row.widget.caption(), row.rect, Align::Left, Tone::Foreground, font) + line(
            row.widget.value_text()->0,
            row.value_rect,
            Align::Right,
            Tone::Cursor,
            font,
        ),
    }
}

/// The row's parts are representable and its texts are drawable.
pub open spec fn row_ok(row: PlacedModel, font: Font) -> bool {
    &&& row.widget.wf()
    &&& crate::chrome::drawable(row.rect)
    &&& crate::chrome::drawable(row.value_rect)
    &&& i32::MIN + 8 <= row.rect.x
    &&& i32::MIN + 8 <= row.value_rect.x
    &&& row.rect.x + row.rect.height <= i32::MAX
    &&& font.can_draw(row.widget.caption())
    &&& row.widget.value_text() matches Some(t) ==> font.can_draw(t)
    &&& match row.widget {
        WidgetModel::Shortcut { keys, .. } => font.can_draw(keys),
        WidgetModel::Entry { detail, .. } => font.can_draw(detail),
        WidgetModel::Text { placeholder, value, .. } => font.can_draw(placeholder)
            && font.can_draw(value),
        _ => true,
    }
}

/// Whether a rectangle's parts are representable.
pub(crate) fn can_draw_rect(rect: Rect) -> (b: bool)
    ensures
        b == crate::chrome::drawable(rect),
{
    rect.can_fit() && i32::MIN + 8 <= rect.y && rect.x <= i32::MAX - 8 && rect.y <= i32::MAX - 8
}

/// Whether a row can be drawn.
fn can_draw_row(row: &Placed, font: Font) -> (b: bool)
    ensures
        b == row_ok(row@, font),
{
    if !row.widget.is_sound() {
        return false;
    }
    let value_fits = match row.widget.value_text() {
        Some(text) => font.fits(text.as_str()),
        None => true,
    };
    let rest_fits = match &row.widget {
        Widget::Shortcut { keys, .. } => font.fits(keys.as_str()),
        Widget::Entry { detail, .. } => font.fits(detail.as_str()),
        Widget::Text { placeholder, value, .. } => font.fits(placeholder.as_str()) && font.fits(
            value.as_str(),
        ),
        _ => true,
    };
    can_draw_rect(row.rect) && can_draw_rect(row.value_rect) && i32::MIN + 8 <= row.rect.x
        && i32::MIN + 8 <= row.value_rect.x && row.rect.x as i64 + row.rect.height as i64
        <= i32::MAX as i64 && font.fits(row.widget.caption()) && value_fits && rest_fits
}

/// Every row of a panel can be drawn.
pub open spec fn rows_ok(ui: UiModel, font: Font) -> bool {
    forall|i: int| 0 <= i < ui.placed.len() ==> row_ok(#[trigger] ui.placed[i], font)
}

/// Whether every row of a panel can be drawn.
pub fn can_draw_rows(ui: &Ui, font: Font) -> (b: bool)
    ensures
        b == rows_ok(ui@, font),
{
    let rows = ui.placed();
    assert(Placed::models(rows@) == ui@.placed);
    let mut i: usize = 0;
    while i < rows.len()
        invariant
            i <= rows@.len(),
            Placed::models(rows@) == ui@.placed,
            forall|k: int| 0 <= k < i ==> row_ok(#[trigger] ui@.placed[k], font),
        decreases rows@.len() - i,
    {
        let fits = can_draw_row(&rows[i], font);
        assert(ui@.placed[i as int] == rows@[i as int]@);
        if !fits {
            return false;
        }
        i += 1;
    }
    true
}

/// Draw what goes behind a row's text.
fn draw_row_background(out: &mut Vec<Op>, placed: &Placed, focused: bool, hovered: bool, pressed: bool)
    requires
        crate::chrome::drawable(placed.rect),
        crate::chrome::drawable(placed.value_rect),
        i32::MIN + 8 <= placed.rect.x,
    ensures
        OpModel::all(final(out)@) == OpModel::all(old(out)@) + row_background_ops(
            placed@,
            focused,
            hovered,
            pressed,
        ),
{
    let r = placed.rect;
    // The selected row of a list, filled before anything else so the ring and the hover
    // highlight both sit on top of it.
    if let Widget::Entry { selected, .. } = &placed.widget {
        if *selected {
            push_fill(out, r, Tone::BackgroundFocused, Blend::Opaque);
        }
    }
    let is_field = match &placed.widget {
        Widget::Text { .. } => true,
        _ => false,
    };
    if focused && !is_field {
        push_fill(out, Rect::new(r.x, r.y, r.width, FOCUS_RING), Tone::Cursor, Blend::Opaque);
        push_fill(
            out,
            Rect::new(r.x, r.bottom() - FOCUS_RING as i32, r.width, FOCUS_RING),
            Tone::Cursor,
            Blend::Opaque,
        );
        push_fill(out, Rect::new(r.x, r.y, FOCUS_RING, r.height), Tone::Cursor, Blend::Opaque);
        push_fill(
            out,
            Rect::new(r.right() - FOCUS_RING as i32, r.y, FOCUS_RING, r.height),
            Tone::Cursor,
            Blend::Opaque,
        );
    }
    if hovered {
        push_fill(out, r, Tone::BackgroundFocused, Blend::Opaque);
    }
    match &placed.widget {
        Widget::Text { .. } => {
            push_outlined(
                out,
                placed.value_rect,
                if focused {
                    Tone::Cursor
                } else {
                    Tone::SplitDivider
                },
                Tone::Background,
            );
        },
        Widget::Button { .. } => {
            push_outlined(
                out,
                r,
                Tone::SplitDivider,
                if pressed {
                    Tone::Cursor
                } else if hovered {
                    Tone::BackgroundFocused
                } else {
                    Tone::Background
                },
            );
        },
        _ => {},
    }
    assert(OpModel::all(out@) =~= OpModel::all(old(out)@) + row_background_ops(
        placed@,
        focused,
        hovered,
        pressed,
    ));
}

fn push_line(out: &mut Vec<Op>, text: &str, rect: Rect, align: Align, tone: Tone, font: Font)
    requires
        font.can_draw(text@),
    ensures
        OpModel::all(final(out)@) == OpModel::all(old(out)@) + line(text@, rect, align, tone, font),
{
    push_text(out, text, rect, PADDING, align, tone, Weight::Regular, font);
}

/// Draw a file-list row: icon, name, and the dimmed detail.
fn draw_entry_text(
    out: &mut Vec<Op>,
    rect: Rect,
    kind: EntryKind,
    label: &str,
    detail: &str,
    font: Font,
)
    requires
        rect.fits(),
        rect.x + rect.height <= i32::MAX,
        font.can_draw(label@),
        font.can_draw(detail@),
    ensures
        OpModel::all(final(out)@) == OpModel::all(old(out)@) + seq![
            OpModel::EntryIcon { kind, rect: entry_icon_box(rect), tone: entry_tone(kind) },
        ] + OpModel::text_in(
            label@,
            entry_name_box(rect, detail@, font),
            4,
            Align::Left,
            Tone::Foreground,
            Weight::Regular,
            font,
        ) + (if detail@.len() == 0 {
            Seq::empty()
        } else {
            line(detail@, rect, Align::Right, Tone::BrightBlack, font)
        }),
{
    let tone = match kind {
        EntryKind::Directory => Tone::Cursor,
        EntryKind::Parent => Tone::Cursor,
        EntryKind::Symlink => Tone::NormalCyan,
        EntryKind::File => Tone::BrightBlack,
    };
    let icon = Rect::new(rect.x, rect.y, rect.height, rect.height);
    push_op(out, Op::EntryIcon { kind, rect: icon, tone });
    proof {
        assert(3 * detail@.len() * font.cell_width <= 3 * (detail@.len() + 1) * font.cell_width)
            by (nonlinear_arith);
    }
    // The detail column is measured off the right, and the name gets what is left: a
    // long file name should crowd the size, not overrun it.
    let taken: i64 = rect.height as i64 + measure(detail, font.cell_width) as i64 + PADDING as i64;
    let room: u32 = if rect.width as i64 >= taken {
        (rect.width as i64 - taken) as u32
    } else {
        0
    };
    let name = Rect::new(
        (rect.x as i64 + rect.height as i64) as i32,
        rect.y,
        room,
        rect.height,
    );
    push_text(out, label, name, 4, Align::Left, Tone::Foreground, Weight::Regular, font);
    if detail.unicode_len() != 0 {
        push_line(out, detail, rect, Align::Right, Tone::BrightBlack, font);
    }
    assert(OpModel::all(out@) =~= OpModel::all(old(out)@) + seq![
        OpModel::EntryIcon { kind, rect: entry_icon_box(rect), tone: entry_tone(kind) },
    ] + OpModel::text_in(
        label@,
        entry_name_box(rect, detail@, font),
        4,
        Align::Left,
        Tone::Foreground,
        Weight::Regular,
        font,
    ) + (if detail@.len() == 0 {
        Seq::empty()
    } else {
        line(detail@, rect, Align::Right, Tone::BrightBlack, font)
    }));
}

/// The bar marking the caret.
fn caret_bar(field: Rect, caret: usize, text_len: usize, font: Font) -> (r: Rect)
    requires
        caret <= text_len,
        3 * (text_len + 1) * font.cell_width <= u32::MAX,
        crate::chrome::drawable(field),
        i32::MIN + 8 <= field.x,
    ensures
        r == caret_rect(field, caret as int, font),
{
    proof {
        assert(0 <= caret * font.cell_width <= 3 * (text_len + 1) * font.cell_width)
            by (nonlinear_arith)
            requires
                caret <= text_len,
        ;
    }
    let along: u64 = caret as u64 * font.cell_width as u64;
    let x: i64 = field.x as i64 + PADDING as i64 + along as i64;
    let limit: i64 = field.right() as i64 - PADDING as i64;
    let height: u32 = if field.height > 9 {
        field.height - 8
    } else {
        1
    };
    Rect::new(
        if x <= limit {
            x as i32
        } else {
            limit as i32
        },
        field.y + 4,
        2,
        height,
    )
}

/// Draw what a row says.
#[verifier::rlimit(60)]
fn draw_row_text(out: &mut Vec<Op>, placed: &Placed, focused: bool, pressed: bool, font: Font)
    requires
        row_ok(placed@, font),
    ensures
        OpModel::all(final(out)@) == OpModel::all(old(out)@) + row_text_ops(
            placed@,
            focused,
            pressed,
            font,
        ),
{
    let rect = placed.rect;
    match &placed.widget {
        Widget::Label { text, heading } => {
            push_text(
                out,
                text.as_str(),
                rect,
                PADDING,
                Align::Left,
                if *heading {
                    Tone::Cursor
                } else {
                    Tone::Foreground
                },
                if *heading {
                    Weight::Bold
                } else {
                    Weight::Regular
                },
                font,
            );
        },
        // What it does on the left, the keys dimmed on the right.
        Widget::Shortcut { label, keys } => {
            push_line(out, label.as_str(), rect, Align::Left, Tone::Foreground, font);
            push_line(out, keys.as_str(), rect, Align::Right, Tone::BrightBlack, font);
        },
        Widget::Entry { kind, label, detail, .. } => {
            draw_entry_text(out, rect, *kind, label.as_str(), detail.as_str(), font);
        },
        Widget::Button { label, enabled, .. } => {
            // A pressed button is filled with the accent, so its label inverts with it.
            // A disabled one is dimmed rather than hidden.
            let tone = if pressed {
                Tone::Background
            } else if *enabled {
                Tone::Foreground
            } else {
                Tone::BrightBlack
            };
            push_line(out, label.as_str(), rect, Align::Center, tone, font);
        },
        Widget::Text { label, value, caret, placeholder, .. } => {
            let label_rect = if placed.value_rect.y > rect.y {
                Rect::new(
                    rect.x,
                    rect.y,
                    rect.width,
                    (placed.value_rect.y as i64 - rect.y as i64) as u32,
                )
            } else {
                rect
            };
            push_line(out, label.as_str(), label_rect, Align::Left, Tone::Foreground, font);
            let len: usize = value.as_str().unicode_len();
            if len == 0 {
                // A placeholder that looks like a value is worse than none.
                push_line(
                    out,
                    placeholder.as_str(),
                    placed.value_rect,
                    Align::Left,
                    Tone::BrightBlack,
                    font,
                );
            } else {
                push_line(
                    out,
                    value.as_str(),
                    placed.value_rect,
                    Align::Left,
                    Tone::Foreground,
                    font,
                );
            }
            // The caret shows only where typing would go.
            if focused {
                let bar = caret_bar(placed.value_rect, *caret, len, font);
                push_fill(out, bar, Tone::Cursor, Blend::Opaque);
            }
        },
        _ => {
            push_line(out, placed.widget.caption(), rect, Align::Left, Tone::Foreground, font);
            if let Some(value) = placed.widget.value_text() {
                push_line(
                    out,
                    value.as_str(),
                    placed.value_rect,
                    Align::Right,
                    Tone::Cursor,
                    font,
                );
            }
        },
    }
    assert(OpModel::all(out@) =~= OpModel::all(old(out)@) + row_text_ops(
        placed@,
        focused,
        pressed,
        font,
    ));
}

/// Whether a row is the one an interaction refers to.
pub open spec fn is_row(row: PlacedModel, id: Option<WidgetId>) -> bool {
    row.widget.id() is Some && row.widget.id() == id
}

/// The backgrounds of the first `n` rows, those outside the viewport skipped.
pub open spec fn backgrounds(ui: UiModel, rows: Seq<PlacedModel>, n: int) -> Seq<OpModel>
    decreases n,
{
    if n <= 0 {
        Seq::empty()
    } else {
        let row = rows[n - 1];
        backgrounds(ui, rows, n - 1) + (if row.rect.overlaps(ui.viewport_spec()) {
            row_background_ops(
                row,
                is_row(row, ui.focus),
                is_row(row, ui.hover),
                is_row(row, ui.pressed),
            )
        } else {
            Seq::empty()
        })
    }
}

/// The texts of the first `n` rows, those outside the viewport skipped.
pub open spec fn texts(ui: UiModel, rows: Seq<PlacedModel>, font: Font, n: int) -> Seq<OpModel>
    decreases n,
{
    if n <= 0 {
        Seq::empty()
    } else {
        let row = rows[n - 1];
        texts(ui, rows, font, n - 1) + (if row.rect.overlaps(ui.viewport_spec()) {
            row_text_ops(row, is_row(row, ui.focus), is_row(row, ui.pressed), font)
        } else {
            Seq::empty()
        })
    }
}

/// What a list of rows draws: every background before any text.
pub open spec fn rows_ops(ui: UiModel, rows: Seq<PlacedModel>, font: Font) -> Seq<OpModel> {
    backgrounds(ui, rows, rows.len() as int) + texts(ui, rows, font, rows.len() as int)
}

/// Draw every widget in `ui`.
pub fn draw_widgets(out: &mut Vec<Op>, ui: &Ui, font: Font)
    requires
        ui@.wf(),
        forall|i: int| 0 <= i < ui@.placed.len() ==> row_ok(#[trigger] ui@.placed[i], font),
    ensures
        OpModel::all(final(out)@) == OpModel::all(old(out)@) + rows_ops(ui@, ui@.placed, font),
{
    let rows = ui.placed();
    assert forall|i: int| 0 <= i < rows@.len() implies row_ok((#[trigger] rows@[i])@, font) by {
        assert(row_ok(ui@.placed[i], font));
    }
    draw_widgets_in(out, rows, ui, font);
}

fn same_row(placed: &Placed, id: Option<WidgetId>) -> (b: bool)
    ensures
        b == is_row(placed@, id),
{
    let own = placed.widget.id();
    own.is_some() && own == id
}

/// Draw a subset of a panel's rows.
///
/// A page draws its scrolling body and its pinned footer separately: the body is
/// clipped to the scroll area and the footer must not be. Rows outside the viewport are
/// skipped, not drawn and clipped away.
pub fn draw_widgets_in(out: &mut Vec<Op>, rows: &[Placed], ui: &Ui, font: Font)
    requires
        ui@.wf(),
        forall|i: int| 0 <= i < rows@.len() ==> row_ok((#[trigger] rows@[i])@, font),
    ensures
        OpModel::all(final(out)@) == OpModel::all(old(out)@) + rows_ops(
            ui@,
            Placed::models(rows@),
            font,
        ),
{
    let ghost all = Placed::models(rows@);
    let ghost before = OpModel::all(out@);
    let focus = ui.focused();
    let hover = ui.hovered();
    let pressed = ui.pressed();
    let visible = ui.viewport();

    let mut i: usize = 0;
    assert(before + backgrounds(ui@, all, 0) =~= before);
    while i < rows.len()
        invariant
            i <= rows@.len(),
            all == Placed::models(rows@),
            forall|i: int| 0 <= i < rows@.len() ==> row_ok((#[trigger] rows@[i])@, font),
            focus == ui@.focus,
            hover == ui@.hover,
            pressed == ui@.pressed,
            visible == ui@.viewport_spec(),
            OpModel::all(out@) == before + backgrounds(ui@, all, i as int),
        decreases rows@.len() - i,
    {
        let row = &rows[i];
        assert(row_ok(rows@[i as int]@, font));
        if row.rect.intersects(visible) {
            draw_row_background(
                out,
                row,
                same_row(row, focus),
                same_row(row, hover),
                same_row(row, pressed),
            );
        }
        i += 1;
        assert(OpModel::all(out@) =~= before + backgrounds(ui@, all, i as int));
    }
    let ghost behind = OpModel::all(out@);
    let mut k: usize = 0;
    assert(behind + texts(ui@, all, font, 0) =~= behind);
    while k < rows.len()
        invariant
            k <= rows@.len(),
            all == Placed::models(rows@),
            forall|i: int| 0 <= i < rows@.len() ==> row_ok((#[trigger] rows@[i])@, font),
            focus == ui@.focus,
            pressed == ui@.pressed,
            visible == ui@.viewport_spec(),
            OpModel::all(out@) == behind + texts(ui@, all, font, k as int),
        decreases rows@.len() - k,
    {
        let row = &rows[k];
        assert(row_ok(rows@[k as int]@, font));
        if row.rect.intersects(visible) {
            draw_row_text(out, row, same_row(row, focus), same_row(row, pressed), font);
        }
        k += 1;
        assert(OpModel::all(out@) =~= behind + texts(ui@, all, font, k as int));
    }
    assert(OpModel::all(out@) =~= before + rows_ops(ui@, all, font));
}

// --- toasts -----------------------------------------------------------------------

/// A transient message shown over the terminal.
#[derive(Debug, Clone, Copy)]
pub struct Toast<'a> {
    pub text: &'a str,
    /// Tints the left edge: info, warning or error.
    pub accent: Tone,
    /// Thousandths of full opacity. Drives the fade-out.
    pub opacity: u32,
}

/// A message as a mathematical value.
#[verifier::ext_equal]
pub struct ToastModel {
    pub text: Seq<char>,
    pub accent: Tone,
    pub opacity: u32,
}

impl<'a> View for Toast<'a> {
    type V = ToastModel;

    open spec fn view(&self) -> ToastModel {
        ToastModel { text: self.text@, accent: self.accent, opacity: self.opacity }
    }
}

impl ToastModel {
    /// The views of a list of messages.
    pub open spec fn all(toasts: Seq<Toast>) -> Seq<ToastModel> {
        Seq::new(toasts.len(), |i: int| toasts[i]@)
    }
}

/// Height of one toast.
pub open spec fn toast_height(font: Font) -> int {
    font.cell_height + 12
}

/// Top of toast `i`: stacked upward from the bottom margin, six pixels apart.
pub open spec fn toast_top(window: Rect, font: Font, i: int) -> int {
    window.bottom_spec() - 12 - toast_height(font) - i * (toast_height(font) + 6)
}

/// Width of a toast: its text and some room, held inside the window's margins.
pub open spec fn toast_width(window: Rect, text: Seq<char>, font: Font) -> int {
    let wanted = RunModel::measured(text, font.cell_width as int) + 4 * PADDING;
    let room = if window.width >= 24 {
        window.width - 24
    } else {
        0
    };
    if wanted <= room {
        wanted
    } else {
        room
    }
}

/// Where toast `i` goes.
pub open spec fn toast_rect(window: Rect, text: Seq<char>, font: Font, i: int) -> Rect {
    let width = toast_width(window, text, font);
    Rect {
        x: (window.right_spec() - width - 12) as i32,
        y: toast_top(window, font, i) as i32,
        width: width as u32,
        height: toast_height(font) as u32,
    }
}

/// How many toasts are drawn before one would run off the top.
pub open spec fn toasts_shown(window: Rect, font: Font, count: int, i: int) -> int
    decreases count - i,
{
    if i >= count || toast_top(window, font, i) < window.y {
        i
    } else {
        toasts_shown(window, font, count, i + 1)
    }
}

/// A toast's alpha.
pub open spec fn toast_blend(opacity: u32) -> Blend {
    Blend::Fade(
        if opacity <= 1000 {
            opacity
        } else {
            1000
        },
    )
}

/// What one toast draws: its box, the stripe that shows its severity, and its text.
pub open spec fn toast_ops(window: Rect, toast: ToastModel, font: Font, i: int) -> Seq<OpModel> {
    let rect = toast_rect(window, toast.text, font, i);
    let inner = if rect.width >= 3 {
        rect.width - 3
    } else {
        0
    };
    let shown = RunModel::truncated(toast.text, inner - 2 * PADDING, font.cell_width as int);
    seq![
        OpModel::fill(rect, Tone::BackgroundFocused, toast_blend(toast.opacity)),
        OpModel::fill(
            Rect { width: 3, ..rect },
            toast.accent,
            toast_blend(toast.opacity),
        ),
        OpModel::Text {
            run: RunModel {
                shown,
                x2: 2 * (rect.x + 3 + PADDING),
                top2: 2 * rect.y + 12,
                width: RunModel::measured(shown, font.cell_width as int),
            },
            tone: Tone::Foreground,
            blend: toast_blend(toast.opacity),
            weight: Weight::Regular,
        },
    ]
}

/// What the first `n` toasts draw.
pub open spec fn toasts_ops(window: Rect, toasts: Seq<ToastModel>, font: Font, n: int) -> Seq<OpModel>
    decreases n,
{
    if n <= 0 {
        Seq::empty()
    } else {
        toasts_ops(window, toasts, font, n - 1) + toast_ops(window, toasts[n - 1], font, n - 1)
    }
}

fn draw_toast(out: &mut Vec<Op>, window: Rect, toast: Toast, font: Font, top: i64, Ghost(i): Ghost<int>)
    requires
        window.fits(),
        i32::MIN + 12 <= window.x,
        window.y <= top == toast_top(window, font, i) <= i32::MAX,
        font.cell_height + 12 <= u32::MAX,
        font.can_draw(toast.text@),
    ensures
        OpModel::all(final(out)@) == OpModel::all(old(out)@) + toast_ops(window, toast@, font, i),
{
    proof {
        assert(3 * toast.text@.len() * font.cell_width <= 3 * (toast.text@.len() + 1)
            * font.cell_width) by (nonlinear_arith);
    }
    let wanted: u64 = measure(toast.text, font.cell_width) as u64 + 4 * PADDING as u64;
    let room: u32 = window.width.saturating_sub(24);
    let width: u32 = if wanted <= room as u64 {
        wanted as u32
    } else {
        room
    };
    let x: i64 = window.right() as i64 - width as i64 - 12;
    let rect = Rect::new(x as i32, top as i32, width, font.cell_height + 12);
    assert(rect == toast_rect(window, toast.text@, font, i));
    let blend = Blend::Fade(
        if toast.opacity <= 1000 {
            toast.opacity
        } else {
            1000
        },
    );
    push_fill(out, rect, Tone::BackgroundFocused, blend);
    push_fill(out, Rect::new(rect.x, rect.y, 3, rect.height), toast.accent, blend);
    let inner: u32 = rect.width.saturating_sub(3);
    let cut = truncate(toast.text, inner as i64 - 2 * PADDING as i64, font.cell_width);
    let shown: String = match cut {
        Cow::Borrowed(s) => s.to_owned(),
        Cow::Owned(s) => s,
    };
    proof {
        assert(3 * shown@.len() * font.cell_width <= 3 * (toast.text@.len() + 1) * font.cell_width)
            by (nonlinear_arith)
            requires
                shown@.len() <= toast.text@.len() + 1,
        ;
    }
    let drawn: u32 = measure(shown.as_str(), font.cell_width);
    push_op(
        out,
        Op::Text {
            run: TextRun {
                shown,
                x2: 2 * (rect.x as i64 + 3 + PADDING as i64),
                top2: 2 * rect.y as i64 + 12,
                width: drawn,
            },
            tone: Tone::Foreground,
            blend,
            weight: Weight::Regular,
        },
    );
    assert(OpModel::all(out@) =~= OpModel::all(old(out)@) + toast_ops(window, toast@, font, i));
}

/// Draw toasts stacked from the bottom-right.
///
/// Bottom-right because the top-left is where terminal output is. Stacking stops once a
/// toast would run off the top.
pub fn draw_toasts(out: &mut Vec<Op>, toasts: &[Toast], window: Rect, font: Font)
    requires
        window.fits(),
        i32::MIN + 12 <= window.x,
        font.cell_height + 12 <= u32::MAX,
        forall|i: int| 0 <= i < toasts@.len() ==> font.can_draw((#[trigger] toasts@[i]).text@),
    ensures
        OpModel::all(final(out)@) == OpModel::all(old(out)@) + toasts_ops(
            window,
            ToastModel::all(toasts@),
            font,
            toasts_shown(window, font, toasts@.len() as int, 0),
        ),
{
    let ghost before = OpModel::all(out@);
    let height: i64 = font.cell_height as i64 + 12;
    let mut top: i64 = window.bottom() as i64 - 12 - height;
    let mut i: usize = 0;
    assert(before + toasts_ops(window, ToastModel::all(toasts@), font, 0) =~= before);
    proof {
        assert(0 * (toast_height(font) + 6) == 0);
    }
    while i < toasts.len() && top >= window.y as i64
        invariant
            i <= toasts@.len(),
            window.fits(),
            i32::MIN + 12 <= window.x,
            font.cell_height + 12 <= u32::MAX,
            forall|i: int| 0 <= i < toasts@.len() ==> font.can_draw((#[trigger] toasts@[i]).text@),
            height == toast_height(font),
            top == toast_top(window, font, i as int),
            window.y - height - 6 <= top <= i32::MAX || i == 0,
            i32::MIN - height - 12 <= top <= i32::MAX,
            toasts_shown(window, font, toasts@.len() as int, 0) == toasts_shown(
                window,
                font,
                toasts@.len() as int,
                i as int,
            ),
            OpModel::all(out@) == before + toasts_ops(window, ToastModel::all(toasts@), font, i as int),
        decreases toasts@.len() - i,
    {
        draw_toast(out, window, toasts[i], font, top, Ghost(i as int));
        proof {
            let step = toast_height(font) + 6;
            assert((i + 1) * step == i * step + step) by (nonlinear_arith);
        }
        top = top - height - 6;
        i += 1;
        assert(OpModel::all(out@) =~= before + toasts_ops(window, ToastModel::all(toasts@), font, i as int));
    }
}

// --- scrollbar --------------------------------------------------------------------

/// 1024ths of a pixel.
pub const SUBPIXELS: i64 = 1024;

/// Height of a scrollbar thumb, in 1024ths of a pixel: the visible share of the
/// content, but at least sixteen pixels so it stays grabbable.
pub open spec fn thumb_height(area: Rect, content: int) -> int {
    let share = area.height * area.height * SUBPIXELS / content;
    if share >= 16 * SUBPIXELS {
        share
    } else {
        16 * SUBPIXELS
    }
}

/// Top of a scrollbar thumb, in 1024ths of a pixel: as far down its travel as the
/// content is scrolled.
pub open spec fn thumb_top(area: Rect, content: int, scroll: int, max: int) -> int {
    let travel = area.height * SUBPIXELS - thumb_height(area, content);
    area.y * SUBPIXELS + (if travel >= 0 {
        travel * scroll / max
    } else {
        -((-travel) * scroll / max)
    })
}

/// What the scrollbar draws: nothing when everything fits, and otherwise its track and
/// its thumb.
pub open spec fn scrollbar_ops(ui: UiModel, area: Rect) -> Seq<OpModel> {
    if ui.max_scroll() <= 0 || area.height == 0 {
        Seq::empty()
    } else {
        let x = (area.right_spec() - 4) as i32;
        seq![
            OpModel::fill(Rect { x, width: 4, ..area }, Tone::SplitDivider, Blend::Opaque),
            OpModel::Thumb {
                x,
                width: 4,
                top: thumb_top(area, ui.content_height, ui.scroll, ui.max_scroll()),
                height: thumb_height(area, ui.content_height),
                tone: Tone::BrightBlack,
            },
        ]
    }
}

/// Draw a scrollbar on the right of `area`, if the content overflows.
pub fn draw_scrollbar(out: &mut Vec<Op>, ui: &Ui, area: Rect)
    requires
        ui@.wf(),
        area.fits(),
        area.x + area.width >= i32::MIN + 4,
    ensures
        OpModel::all(final(out)@) == OpModel::all(old(out)@) + scrollbar_ops(ui@, area),
{
    if !ui.is_scrollable() || area.height == 0 {
        assert(OpModel::all(out@) =~= OpModel::all(old(out)@) + Seq::empty());
        return ;
    }
    let x: i32 = (area.x as i64 + area.width as i64 - 4) as i32;
    push_fill(
        out,
        Rect::new(x, area.y, 4, area.height),
        Tone::SplitDivider,
        Blend::Opaque,
    );
    let h: u128 = area.height as u128;
    let content: u128 = ui.content_height() as u128;
    proof {
        assert(h * h <= 0x1_0000_0000_0000_0000) by (nonlinear_arith)
            requires
                0 <= h <= 0x1_0000_0000,
        ;
    }
    let square: u128 = h * h;
    let share: u128 = square * 1024 / content;
    proof {
        assert(share <= square * 1024) by (nonlinear_arith)
            requires
                share == square * 1024 / content as int,
                content >= 1,
                square >= 0,
        ;
    }
    let least: u128 = 16 * 1024;
    let height: u128 = if share >= least {
        share
    } else {
        least
    };
    let full: u128 = h * 1024;
    let scroll: u128 = ui.scroll() as u128;
    let max: u128 = ui.max_scroll() as u128;
    let base: i128 = area.y as i128 * 1024;
    let offset: i128 = if full >= height {
        let travel: u128 = full - height;
        proof {
            lemma_share_of_travel(travel as int, scroll as int, max as int);
        }
        (travel * scroll / max) as i128
    } else {
        let travel: u128 = height - full;
        proof {
            lemma_share_of_travel(travel as int, scroll as int, max as int);
        }
        -((travel * scroll / max) as i128)
    };
    push_op(
        out,
        Op::Thumb { x, width: 4, top: base + offset, height: height as i128, tone: Tone::BrightBlack },
    );
    assert(OpModel::all(out@) =~= OpModel::all(old(out)@) + scrollbar_ops(ui@, area));
}

/// A share of the travel is no more than the travel.
proof fn lemma_share_of_travel(travel: int, scroll: int, max: int)
    requires
        0 <= travel <= 0x400_0000_0000_0000_0000,
        0 <= scroll <= max <= u32::MAX,
        1 <= max,
    ensures
        0 <= travel * scroll <= 0x400_0000_0000_0000_0000 * u32::MAX,
        0 <= travel * scroll / max <= travel,
{
    assert(0 <= travel * scroll <= travel * max) by (nonlinear_arith)
        requires
            0 <= travel,
            0 <= scroll <= max,
    ;
    assert(travel * max <= 0x400_0000_0000_0000_0000 * u32::MAX) by (nonlinear_arith)
        requires
            0 <= travel <= 0x400_0000_0000_0000_0000,
            0 <= max <= u32::MAX,
    ;
    vstd::arithmetic::div_mod::lemma_div_is_ordered(0, travel * scroll, max);
    vstd::arithmetic::div_mod::lemma_div_is_ordered(travel * scroll, travel * max, max);
    vstd::arithmetic::div_mod::lemma_div_by_multiple(travel, max);
}

// --- laws -------------------------------------------------------------------------

/// Nothing a row puts behind its text is text: all of it is fills.
pub proof fn law_backgrounds_are_fills(ui: UiModel, rows: Seq<PlacedModel>, n: int, k: int)
    requires
        0 <= n <= rows.len(),
        0 <= k < backgrounds(ui, rows, n).len(),
    ensures
        backgrounds(ui, rows, n)[k] is Fill,
    decreases n,
{
    if n > 0 && k < backgrounds(ui, rows, n - 1).len() {
        law_backgrounds_are_fills(ui, rows, n - 1, k);
    }
}

/// Painter's order: everything before the first text or icon is a background, and no
/// background comes after one, save the caret's bar on top of its own field.
pub proof fn law_backgrounds_come_first(ui: UiModel, rows: Seq<PlacedModel>, font: Font, k: int)
    requires
        0 <= k < rows_ops(ui, rows, font).len(),
        !(rows_ops(ui, rows, font)[k] is Fill),
    ensures
        backgrounds(ui, rows, rows.len() as int).len() <= k,
{
    if k < backgrounds(ui, rows, rows.len() as int).len() {
        law_backgrounds_are_fills(ui, rows, rows.len() as int, k);
    }
}

/// Hover and press are different looks for a button: the interior it is filled with
/// differs.
pub proof fn law_press_differs_from_hover(row: PlacedModel, focused: bool)
    requires
        row.widget is Button,
    ensures
        row_background_ops(row, focused, true, true).last() != row_background_ops(
            row,
            focused,
            true,
            false,
        ).last(),
        row_background_ops(row, focused, false, true).last() != row_background_ops(
            row,
            focused,
            false,
            false,
        ).last(),
{
}

/// A focused text field gets no ring: the only thing drawn over the whole row is its
/// hover highlight.
pub proof fn law_field_has_no_ring(row: PlacedModel, hovered: bool, pressed: bool)
    requires
        row.widget is Text,
    ensures
        row_background_ops(row, true, hovered, pressed) == OpModel::when(
            hovered,
            OpModel::fill(row.rect, Tone::BackgroundFocused, Blend::Opaque),
        ) + OpModel::outlined(row.value_rect, Tone::Cursor, Tone::Background),
{
    assert(row_background_ops(row, true, hovered, pressed) =~= OpModel::when(
        hovered,
        OpModel::fill(row.rect, Tone::BackgroundFocused, Blend::Opaque),
    ) + OpModel::outlined(row.value_rect, Tone::Cursor, Tone::Background));
}

proof fn lemma_shown_bounds(window: Rect, font: Font, count: int, i: int, k: int)
    requires
        0 <= i <= k < toasts_shown(window, font, count, i),
    ensures
        window.y <= toast_top(window, font, k),
        k < count,
    decreases count - i,
{
    if i < count && toast_top(window, font, i) >= window.y && i < k {
        lemma_shown_bounds(window, font, count, i + 1, k);
    }
}

/// Toasts that are drawn are inside the window, and each is above the one before it.
pub proof fn law_toasts_stack_inside(
    window: Rect,
    text: Seq<char>,
    above: Seq<char>,
    font: Font,
    count: int,
    i: int,
)
    requires
        window.fits(),
        24 <= window.width,
        0 <= RunModel::measured(text, font.cell_width as int),
        0 <= i,
        i + 1 < toasts_shown(window, font, count, 0),
        font.cell_height + 12 <= u32::MAX,
    ensures
        ({
            let lower = toast_rect(window, text, font, i);
            let upper = toast_rect(window, above, font, i + 1);
            &&& window.y <= upper.y
            &&& upper.bottom_spec() + 6 == lower.y
            &&& lower.bottom_spec() <= window.bottom_spec()
            &&& window.x <= lower.x
            &&& lower.right_spec() <= window.right_spec()
        }),
{
    lemma_shown_bounds(window, font, count, 0, i);
    lemma_shown_bounds(window, font, count, 0, i + 1);
    let step = toast_height(font) + 6;
    assert((i + 1) * step == i * step + step) by (nonlinear_arith);
    assert(i * step >= 0) by (nonlinear_arith)
        requires
            i >= 0,
            step >= 0,
    ;
}

/// A toast fades as a whole: its box, its stripe and its text have one alpha, which is
/// nothing at no opacity.
pub proof fn law_toasts_fade_as_a_whole(window: Rect, toast: ToastModel, font: Font, i: int, k: int)
    requires
        0 <= k < toast_ops(window, toast, font, i).len(),
    ensures
        match toast_ops(window, toast, font, i)[k] {
            OpModel::Fill { blend, .. } => blend == toast_blend(toast.opacity),
            OpModel::Text { blend, .. } => blend == toast_blend(toast.opacity),
            _ => false,
        },
        toast.opacity == 0 ==> toast_blend(toast.opacity) == Blend::Fade(0),
{
}

/// The thumb stays inside its track: at the top when unscrolled, at the bottom when
/// fully scrolled.
pub proof fn law_thumb_stays_in_its_track(area: Rect, content: int, scroll: int, max: int)
    requires
        16 <= area.height <= content,
        0 <= scroll <= max <= u32::MAX,
        1 <= max,
    ensures
        area.y * SUBPIXELS <= thumb_top(area, content, scroll, max),
        thumb_top(area, content, scroll, max) + thumb_height(area, content) <= area.bottom_spec()
            * SUBPIXELS,
        thumb_top(area, content, 0, max) == area.y * SUBPIXELS,
        thumb_top(area, content, max, max) + thumb_height(area, content) == area.bottom_spec()
            * SUBPIXELS,
{
    let h = area.height as int;
    assert(h * h * 1024 / content <= h * 1024) by {
        assert(h * h * 1024 <= content * (h * 1024)) by (nonlinear_arith)
            requires
                0 <= h <= content,
        ;
        vstd::arithmetic::div_mod::lemma_div_is_ordered(h * h * 1024, content * (h * 1024), content);
        vstd::arithmetic::div_mod::lemma_div_multiples_vanish(h * 1024, content);
    }
    let travel = h * SUBPIXELS - thumb_height(area, content);
    lemma_share_of_travel(travel, scroll, max);
    lemma_share_of_travel(travel, 0, max);
    vstd::arithmetic::div_mod::lemma_div_by_multiple(travel, max);
    assert(travel * 0 / max == 0);
}

} // verus!
