//! What can be seen of the tabs, buttons, segments, rows and messages that are drawn.

use vstd::prelude::*;

use crate::chrome::{ButtonLook, ItemModel, LabelModel};
use crate::geometry::Rect;
use crate::menu::{Menu, MenuModel};
use crate::scene::{Blend, ChromeButton, Corners, OpModel, Tone, Weight};
use crate::text::{Align, Font, RunModel};

verus! {

/// The operation writes this text into this box.
pub open spec fn says(
    op: OpModel,
    text: Seq<char>,
    rect: Rect,
    padding: int,
    align: Align,
    tone: Tone,
    weight: Weight,
    font: Font,
) -> bool {
    match RunModel::boxed(text, rect, padding, align, font) {
        Some(run) => op == (OpModel::Text { run, tone, blend: Blend::Opaque, weight }),
        None => false,
    }
}

/// The operation fills this rectangle, with square corners.
pub open spec fn fills(op: OpModel, rect: Rect, tone: Tone, blend: Blend) -> bool {
    op == (OpModel::Fill { rect, tone, blend, corners: Corners::Square })
}

/// The operation fills all but the outermost pixel of this rectangle.
pub open spec fn fills_inside(op: OpModel, rect: Rect, tone: Tone) -> bool {
    &&& op matches OpModel::Fill { rect: r, tone: t, blend, corners }
    &&& r == rect.inset_spec(1, 1)
    &&& t == tone
    &&& blend == Blend::Opaque
    &&& corners == Corners::Square
}

pub(crate) proof fn lemma_sum<A>(a: Seq<A>, b: Seq<A>, x: A)
    ensures
        (a + b).contains(x) <==> a.contains(x) || b.contains(x),
{
    if a.contains(x) {
        let k = choose|k: int| 0 <= k < a.len() && a[k] == x;
        assert((a + b)[k] == x);
    }
    if b.contains(x) {
        let k = choose|k: int| 0 <= k < b.len() && b[k] == x;
        assert((a + b)[a.len() + k] == x);
    }
}

pub(crate) proof fn lemma_one<A>(a: A, x: A)
    ensures
        seq![a].contains(x) <==> x == a,
{
    assert(seq![a][0] == a);
}

pub(crate) proof fn lemma_two<A>(a: A, b: A, x: A)
    ensures
        seq![a, b].contains(x) <==> x == a || x == b,
{
    assert(seq![a, b][0] == a);
    assert(seq![a, b][1] == b);
}

pub(crate) proof fn lemma_three<A>(a: A, b: A, c: A, x: A)
    ensures
        seq![a, b, c].contains(x) <==> x == a || x == b || x == c,
{
    assert(seq![a, b, c][0] == a);
    assert(seq![a, b, c][1] == b);
    assert(seq![a, b, c][2] == c);
}

pub(crate) proof fn lemma_when(shown: bool, op: OpModel, x: OpModel)
    ensures
        OpModel::when(shown, op).contains(x) <==> shown && x == op,
{
    lemma_one(op, x);
}

pub(crate) proof fn lemma_text(
    text: Seq<char>,
    rect: Rect,
    padding: int,
    align: Align,
    tone: Tone,
    weight: Weight,
    font: Font,
    x: OpModel,
)
    ensures
        OpModel::text_in(text, rect, padding, align, tone, weight, font).contains(x) <==> says(
            x,
            text,
            rect,
            padding,
            align,
            tone,
            weight,
            font,
        ),
{
    if let Some(run) = RunModel::boxed(text, rect, padding, align, font) {
        lemma_one(OpModel::Text { run, tone, blend: Blend::Opaque, weight }, x);
    }
}

/// Where a tab's title goes: the whole tab, or what is left of its close button.
pub open spec fn beside(rect: Rect, close: Option<Rect>) -> Rect {
    match close {
        Some(c) => if rect.x <= c.x <= rect.x + rect.width {
            Rect { x: rect.x, y: rect.y, width: (c.x - rect.x) as u32, height: rect.height }
        } else {
            crate::chrome::title_box(rect, close)
        },
        None => rect,
    }
}

/// What is drawn of a tab, and nothing else: its background, a two pixel line under the
/// active one and a hairline left of the others, its title, bold on the active tab and
/// dim on a quiet one behind it, and its close button where that shows, red under the
/// pointer.
pub proof fn law_a_tab_shows(
    bar: Rect,
    rect: Rect,
    close: Option<Rect>,
    label: LabelModel,
    font: Font,
    op: OpModel,
)
    requires
        crate::chrome::drawable(rect),
        rect.height >= 10,
    ensures
        ({
            let ops = crate::chrome::tab_ops(bar, rect, close, label, font);
            let behind = if label.active {
                Tone::BackgroundFocused
            } else {
                Tone::SplitDivider
            };
            let background = OpModel::Fill {
                rect,
                tone: behind,
                blend: Blend::Window,
                corners: if rect.x <= bar.x {
                    Corners::TopLeft
                } else {
                    Corners::Square
                },
            };
            let under = Rect {
                x: rect.x,
                y: (rect.y + rect.height - 2) as i32,
                width: rect.width,
                height: 2,
            };
            let hair = Rect {
                x: rect.x,
                y: (rect.y + 4) as i32,
                width: 1,
                height: (rect.height - 8) as u32,
            };
            &&& ops[0] == background
            &&& ops.contains(op) <==> {
                ||| op == background
                ||| label.active && fills(op, under, Tone::Cursor, Blend::Opaque)
                ||| !label.active && rect.x > bar.x && fills(
                    op,
                    hair,
                    Tone::NormalBlack,
                    Blend::Window,
                )
                ||| close is Some && label.show_close && label.close_hovered && fills(
                    op,
                    close->0,
                    Tone::NormalRed,
                    Blend::Opaque,
                )
                ||| says(
                    op,
                    label.title,
                    beside(rect, close),
                    8,
                    Align::Center,
                    if label.active || label.has_activity {
                        Tone::Foreground
                    } else {
                        Tone::BrightBlack
                    },
                    if label.active {
                        Weight::Bold
                    } else {
                        Weight::Regular
                    },
                    font,
                )
                ||| close is Some && label.show_close && op == (OpModel::Icon {
                    button: ChromeButton::Close,
                    rect: close->0,
                    tone: if label.close_hovered {
                        Tone::Background
                    } else {
                        Tone::BrightBlack
                    },
                    behind: if label.close_hovered {
                        Tone::NormalRed
                    } else {
                        behind
                    },
                })
            }
            &&& close is Some && label.show_close ==> ops.last() is Icon
        }),
{
    let lit = label.active || label.has_activity;
    let a = seq![
        OpModel::Fill {
            rect,
            tone: crate::chrome::tab_tone(label),
            blend: Blend::Window,
            corners: if rect.x <= bar.x {
                Corners::TopLeft
            } else {
                Corners::Square
            },
        },
    ];
    let mark = OpModel::fill(crate::chrome::marker(rect), Tone::Cursor, Blend::Opaque);
    let hair = OpModel::fill(
        Rect {
            x: rect.x,
            y: (rect.y + 4) as i32,
            width: 1,
            height: (if rect.height > 9 {
                rect.height - 8
            } else {
                1
            }) as u32,
        },
        Tone::NormalBlack,
        Blend::Window,
    );
    let red = OpModel::fill(close->0, Tone::NormalRed, Blend::Opaque);
    let tone = if lit {
        Tone::Foreground
    } else {
        Tone::BrightBlack
    };
    let weight = if label.active {
        Weight::Bold
    } else {
        Weight::Regular
    };
    let room = crate::chrome::title_box(rect, close);
    let icon = OpModel::Icon {
        button: ChromeButton::Close,
        rect: close->0,
        tone: if label.close_hovered {
            Tone::Background
        } else {
            Tone::BrightBlack
        },
        behind: if label.close_hovered {
            Tone::NormalRed
        } else {
            crate::chrome::tab_tone(label)
        },
    };
    let b = OpModel::when(label.active, mark);
    let c = OpModel::when(!label.active && rect.x > bar.x, hair);
    let d = OpModel::when(close is Some && label.show_close && label.close_hovered, red);
    let e = OpModel::text_in(label.title, room, 8, Align::Center, tone, weight, font);
    let f = OpModel::when(close is Some && label.show_close, icon);
    assert(crate::chrome::tab_ops(bar, rect, close, label, font) == a + b + c + d + e + f);
    lemma_one(a[0], op);
    lemma_when(label.active, mark, op);
    lemma_when(!label.active && rect.x > bar.x, hair, op);
    lemma_when(close is Some && label.show_close && label.close_hovered, red, op);
    lemma_text(label.title, room, 8, Align::Center, tone, weight, font, op);
    lemma_when(close is Some && label.show_close, icon, op);
    lemma_sum(a, b, op);
    lemma_sum(a + b, c, op);
    lemma_sum(a + b + c, d, op);
    lemma_sum(a + b + c + d, e, op);
    lemma_sum(a + b + c + d + e, f, op);
    assert(room == beside(rect, close));
}

/// A strip shows its background across the whole bar, and each of its tabs with its own
/// title and its own close button, in order; a bar that has no height shows nothing.
pub proof fn law_a_strip_shows_its_tabs(
    bar: Rect,
    tabs: Seq<Rect>,
    closes: Seq<Rect>,
    labels: Seq<LabelModel>,
    font: Font,
    i: int,
    op: OpModel,
)
    requires
        tabs.len() == labels.len(),
        closes.len() == 0 || closes.len() == tabs.len(),
        forall|a: int, b: int|
            0 <= a < b < tabs.len() ==> #[trigger] tabs[a] != #[trigger] tabs[b],
        0 <= i < tabs.len(),
    ensures
        ({
            let ops = crate::chrome::tab_bar_ops(bar, tabs, closes, labels, font);
            let close = if closes.len() == 0 {
                None
            } else {
                Some(closes[i])
            };
            &&& bar.height == 0 ==> ops.len() == 0
            &&& bar.height > 0 ==> ops[0] == (OpModel::Fill {
                rect: bar,
                tone: Tone::SplitDivider,
                blend: Blend::Window,
                corners: Corners::Top,
            })
            &&& bar.height > 0 && crate::chrome::tab_ops(
                bar,
                tabs[i],
                close,
                labels[i],
                font,
            ).contains(op) ==> ops.contains(op)
        }),
{
    lemma_own_close(tabs, closes, i);
    lemma_tabs_hold(bar, tabs, closes, labels, font, i, tabs.len() as int, op);
    let head = seq![
        OpModel::Fill {
            rect: bar,
            tone: Tone::SplitDivider,
            blend: Blend::Window,
            corners: Corners::Top,
        },
    ];
    lemma_sum(
        head,
        crate::chrome::tabs_ops(bar, tabs, closes, labels, font, tabs.len() as int),
        op,
    );
}

proof fn lemma_own_close(tabs: Seq<Rect>, closes: Seq<Rect>, i: int)
    requires
        closes.len() == 0 || closes.len() == tabs.len(),
        forall|a: int, b: int|
            0 <= a < b < tabs.len() ==> #[trigger] tabs[a] != #[trigger] tabs[b],
        0 <= i < tabs.len(),
    ensures
        crate::chrome::close_of(tabs, closes, i) == (if closes.len() == 0 {
            None
        } else {
            Some(closes[i])
        }),
{
    lemma_first_is_own(tabs, i, tabs.len() as int);
}

proof fn lemma_first_is_own(tabs: Seq<Rect>, i: int, n: int)
    requires
        forall|a: int, b: int|
            0 <= a < b < tabs.len() ==> #[trigger] tabs[a] != #[trigger] tabs[b],
        0 <= i < tabs.len(),
        n <= tabs.len(),
    ensures
        crate::chrome::first_same(tabs, i, n) == i,
    decreases n,
{
    if n > 0 {
        lemma_first_is_own(tabs, i, n - 1);
    }
}

proof fn lemma_tabs_hold(
    bar: Rect,
    tabs: Seq<Rect>,
    closes: Seq<Rect>,
    labels: Seq<LabelModel>,
    font: Font,
    i: int,
    n: int,
    op: OpModel,
)
    requires
        0 <= i < n,
    ensures
        crate::chrome::tab_ops(
            bar,
            tabs[i],
            crate::chrome::close_of(tabs, closes, i),
            labels[i],
            font,
        ).contains(op) ==> crate::chrome::tabs_ops(bar, tabs, closes, labels, font, n).contains(op),
    decreases n,
{
    let before = crate::chrome::tabs_ops(bar, tabs, closes, labels, font, n - 1);
    let own = crate::chrome::tab_ops(
        bar,
        tabs[n - 1],
        crate::chrome::close_of(tabs, closes, n - 1),
        labels[n - 1],
        font,
    );
    lemma_sum(before, own, op);
    if i < n - 1 {
        lemma_tabs_hold(bar, tabs, closes, labels, font, i, n - 1, op);
    }
}

/// How a toolbar button looks: filled with its accent while it is held, lit under the
/// pointer, lit and marked while what it stands for is open, and bare otherwise. The
/// accent of the button that closes the window is red.
pub proof fn law_how_buttons_look(button: ChromeButton, hovered: bool, active: bool)
    ensures
        ({
            let own = if button is Close {
                Tone::NormalRed
            } else {
                Tone::Cursor
            };
            &&& crate::chrome::button_look(button, hovered, true, active) == (ButtonLook {
                fill: Some(own),
                tint: Tone::Background,
                marked: false,
            })
            &&& crate::chrome::button_look(button, true, false, active) == (ButtonLook {
                fill: Some(
                    if button is Close {
                        Tone::NormalRed
                    } else {
                        Tone::BackgroundFocused
                    },
                ),
                tint: Tone::Foreground,
                marked: active,
            })
            &&& crate::chrome::button_look(button, false, false, true) == (ButtonLook {
                fill: Some(Tone::BackgroundFocused),
                tint: own,
                marked: true,
            })
            &&& crate::chrome::button_look(button, false, false, false) == (ButtonLook {
                fill: None,
                tint: Tone::Foreground,
                marked: false,
            })
        }),
{
}

/// What is drawn of a button, and nothing else: its fill, a two pixel line under it while
/// it is marked, and, last, its own icon in its tint.
pub proof fn law_a_button_shows(
    bar: Rect,
    button: ChromeButton,
    rect: Rect,
    look: ButtonLook,
    op: OpModel,
)
    requires
        crate::chrome::drawable(rect),
    ensures
        ({
            let ops = crate::chrome::button_ops(bar, button, rect, look);
            let icon = OpModel::Icon {
                button,
                rect,
                tone: look.tint,
                behind: if look.fill is Some {
                    look.fill->0
                } else {
                    Tone::SplitDivider
                },
            };
            &&& ops.last() == icon
            &&& ops.contains(op) <==> {
                ||| op == icon
                ||| look.fill is Some && op == (OpModel::Fill {
                    rect,
                    tone: look.fill->0,
                    blend: Blend::Opaque,
                    corners: if rect.x + rect.width >= bar.x + bar.width {
                        Corners::TopRight
                    } else {
                        Corners::Square
                    },
                })
                ||| look.marked && fills(
                    op,
                    Rect {
                        x: rect.x,
                        y: (rect.y + rect.height - 2) as i32,
                        width: rect.width,
                        height: 2,
                    },
                    if button is Close {
                        Tone::NormalRed
                    } else {
                        Tone::Cursor
                    },
                    Blend::Opaque,
                )
            }
        }),
{
    let back = OpModel::Fill {
        rect,
        tone: look.fill->0,
        blend: Blend::Opaque,
        corners: if rect.right_spec() >= bar.right_spec() {
            Corners::TopRight
        } else {
            Corners::Square
        },
    };
    let mark = OpModel::fill(
        crate::chrome::marker(rect),
        crate::chrome::accent(button),
        Blend::Opaque,
    );
    let icon = OpModel::Icon {
        button,
        rect,
        tone: look.tint,
        behind: match look.fill {
            Some(t) => t,
            None => Tone::SplitDivider,
        },
    };
    let a = OpModel::when(look.fill is Some, back);
    let b = OpModel::when(look.marked, mark);
    lemma_when(look.fill is Some, back, op);
    lemma_when(look.marked, mark, op);
    lemma_one(icon, op);
    lemma_sum(a, b, op);
    lemma_sum(a + b, seq![icon], op);
}

/// Every button of the toolbar is drawn at its own place, lit if it is the one under the
/// pointer, held if it is the one that is held, and active if it is among the active.
pub proof fn law_every_button_is_drawn(
    bar: Rect,
    buttons: Seq<(ChromeButton, Rect)>,
    hovered: Option<ChromeButton>,
    pressed: Option<ChromeButton>,
    active: Seq<ChromeButton>,
    i: int,
    op: OpModel,
)
    requires
        0 <= i < buttons.len(),
        crate::chrome::button_ops(
            bar,
            buttons[i].0,
            buttons[i].1,
            crate::chrome::button_look(
                buttons[i].0,
                hovered == Some(buttons[i].0),
                pressed == Some(buttons[i].0),
                active.contains(buttons[i].0),
            ),
        ).contains(op),
    ensures
        crate::chrome::buttons_ops(
            bar,
            buttons,
            hovered,
            pressed,
            active,
            buttons.len() as int,
        ).contains(op),
{
    lemma_buttons_hold(bar, buttons, hovered, pressed, active, i, buttons.len() as int, op);
}

proof fn lemma_buttons_hold(
    bar: Rect,
    buttons: Seq<(ChromeButton, Rect)>,
    hovered: Option<ChromeButton>,
    pressed: Option<ChromeButton>,
    active: Seq<ChromeButton>,
    i: int,
    n: int,
    op: OpModel,
)
    requires
        0 <= i < n <= buttons.len(),
        crate::chrome::button_ops(
            bar,
            buttons[i].0,
            buttons[i].1,
            crate::chrome::button_look(
                buttons[i].0,
                hovered == Some(buttons[i].0),
                pressed == Some(buttons[i].0),
                active.contains(buttons[i].0),
            ),
        ).contains(op),
    ensures
        crate::chrome::buttons_ops(bar, buttons, hovered, pressed, active, n).contains(op),
    decreases n,
{
    let (button, rect) = buttons[n - 1];
    let own = crate::chrome::button_ops(
        bar,
        button,
        rect,
        crate::chrome::button_look(
            button,
            hovered == Some(button),
            pressed == Some(button),
            active.contains(button),
        ),
    );
    lemma_sum(
        crate::chrome::buttons_ops(bar, buttons, hovered, pressed, active, n - 1),
        own,
        op,
    );
    if i < n - 1 {
        lemma_buttons_hold(bar, buttons, hovered, pressed, active, i, n - 1, op);
    }
}

/// The value of a hexadecimal digit, in either case.
pub proof fn law_hexadecimal_digits(c: char)
    ensures
        '0' <= c <= '9' ==> crate::chrome::hex_value(c) == Some(c as int - 48),
        'a' <= c <= 'f' ==> crate::chrome::hex_value(c) == Some(c as int - 97 + 10),
        'A' <= c <= 'F' ==> crate::chrome::hex_value(c) == Some(c as int - 65 + 10),
        !('0' <= c <= '9') && !('a' <= c <= 'f') && !('A' <= c <= 'F') ==> crate::chrome::hex_value(
            c,
        ) is None,
{
}

/// A color is a hash and six digits, two for each of red, green and blue, and is opaque;
/// any other text is none, and leaves a segment in the theme's own.
pub proof fn law_colors_are_read(text: Seq<char>, usual: Tone)
    ensures
        match crate::chrome::color_of_text(text) {
            Some(color) => {
                &&& text.len() == 7 && text[0] == '#'
                &&& crate::chrome::hex_value(text[1]) == Some(color.r as int / 16)
                &&& crate::chrome::hex_value(text[2]) == Some(color.r as int % 16)
                &&& crate::chrome::hex_value(text[3]) == Some(color.g as int / 16)
                &&& crate::chrome::hex_value(text[4]) == Some(color.g as int % 16)
                &&& crate::chrome::hex_value(text[5]) == Some(color.b as int / 16)
                &&& crate::chrome::hex_value(text[6]) == Some(color.b as int % 16)
                &&& color.a == 255
                &&& crate::chrome::tone_or(Some(text), usual) == Tone::Own(color)
            },
            None => {
                &&& crate::chrome::tone_or(Some(text), usual) == usual
                &&& text.len() == 7 && text[0] == '#' ==> exists|i: int|
                    1 <= i < 7 && crate::chrome::hex_value(#[trigger] text[i]) is None
            },
        },
        crate::chrome::tone_or(None, usual) == usual,
{
    if crate::chrome::color_of_text(text) is Some {
        assert(crate::chrome::hex_value(text[1]) is Some);
        assert(crate::chrome::hex_value(text[2]) is Some);
        assert(crate::chrome::hex_value(text[3]) is Some);
        assert(crate::chrome::hex_value(text[4]) is Some);
        assert(crate::chrome::hex_value(text[5]) is Some);
        assert(crate::chrome::hex_value(text[6]) is Some);
    }
}

/// What is drawn of a segment, and nothing else: its background if it has a color of its
/// own, and its text, in its own color or the theme's.
pub proof fn law_a_segment_shows(segment: Rect, item: ItemModel, font: Font, op: OpModel)
    ensures
        crate::chrome::segment_ops(segment, item, font).contains(op) <==> {
            ||| item.background is Some && crate::chrome::color_of_text(item.background->0) is Some
                && fills(
                op,
                segment,
                Tone::Own(crate::chrome::color_of_text(item.background->0)->0),
                Blend::Window,
            )
            ||| says(
                op,
                item.text,
                segment,
                8,
                Align::Center,
                if item.foreground is Some && crate::chrome::color_of_text(
                    item.foreground->0,
                ) is Some {
                    Tone::Own(crate::chrome::color_of_text(item.foreground->0)->0)
                } else {
                    Tone::Foreground
                },
                Weight::Regular,
                font,
            )
        },
{
    let own = item.background is Some && crate::chrome::color_of_text(item.background->0) is Some;
    let back = OpModel::fill(
        segment,
        crate::chrome::tone_or(item.background, Tone::SplitDivider),
        Blend::Window,
    );
    let tone = crate::chrome::tone_or(item.foreground, Tone::Foreground);
    lemma_when(own, back, op);
    lemma_text(item.text, segment, 8, Align::Center, tone, Weight::Regular, font, op);
    lemma_sum(
        OpModel::when(own, back),
        OpModel::text_in(item.text, segment, 8, Align::Center, tone, Weight::Regular, font),
        op,
    );
}

/// How wide a segment is: its text and eight pixels on either side.
pub open spec fn segment_room(item: ItemModel, font: Font) -> int {
    RunModel::measured(item.text, font.cell_width as int) + 16
}

/// Where segments stand in the status bar: from the left one behind the other, the first
/// eight pixels in; from the right one before the other, the first ending eight pixels
/// from the edge; each as high as the bar.
pub proof fn law_where_segments_stand(
    bar: Rect,
    left: Seq<ItemModel>,
    right: Seq<ItemModel>,
    font: Font,
    i: int,
)
    requires
        bar.fits(),
        0 <= i < left.len(),
        0 <= i < right.len(),
        crate::chrome::segments_width(left, font, left.len() as int) <= bar.width - 8,
        crate::chrome::segments_width(right, font, right.len() as int) <= bar.width - 8,
    ensures
        ({
            let l = crate::chrome::left_segment(bar, left, font, i);
            let r = crate::chrome::right_segment(bar, right, font, i);
            &&& l.y == bar.y && l.height == bar.height
            &&& r.y == bar.y && r.height == bar.height
            &&& l.width == segment_room(left[i], font)
            &&& r.width == segment_room(right[i], font)
            &&& i == 0 ==> l.x == bar.x + 8
            &&& i == 0 ==> r.x + r.width == bar.x + bar.width - 8
            &&& i > 0 ==> l.x == crate::chrome::left_segment(bar, left, font, i - 1).x
                + segment_room(left[i - 1], font)
            &&& i > 0 ==> r.x + r.width == crate::chrome::right_segment(bar, right, font, i - 1).x
        }),
{
    lemma_segments_grow(left, font, 0, i);
    lemma_segments_grow(left, font, i, left.len() as int);
    lemma_segments_grow(right, font, 0, i);
    lemma_segments_grow(right, font, i, right.len() as int);
    lemma_segments_grow(left, font, i, i + 1);
    lemma_segments_grow(right, font, i, i + 1);
    lemma_segments_grow(left, font, i + 1, left.len() as int);
    lemma_segments_grow(right, font, i + 1, right.len() as int);
    if i > 0 {
        lemma_segments_grow(left, font, 0, i - 1);
        lemma_segments_grow(left, font, i - 1, left.len() as int);
        lemma_segments_grow(right, font, 0, i - 1);
    }
    lemma_measured(left[i].text, font);
    lemma_measured(right[i].text, font);
}

pub(crate) proof fn lemma_measured(text: Seq<char>, font: Font)
    ensures
        RunModel::measured(text, font.cell_width as int) >= 0,
{
    lemma_cells(text);
    let n = RunModel::text_cells(text);
    assert(n * font.cell_width >= 0) by (nonlinear_arith)
        requires
            n >= 0,
    ;
}

proof fn lemma_cells(text: Seq<char>)
    ensures
        RunModel::text_cells(text) >= 0,
    decreases text.len(),
{
    if text.len() > 0 {
        lemma_cells(text.drop_last());
    }
}

proof fn lemma_segments_grow(items: Seq<ItemModel>, font: Font, i: int, j: int)
    requires
        0 <= i <= j <= items.len(),
    ensures
        0 <= crate::chrome::segments_width(items, font, i) <= crate::chrome::segments_width(
            items,
            font,
            j,
        ),
    decreases j,
{
    if i < j {
        lemma_segments_grow(items, font, i, j - 1);
        lemma_measured(items[j - 1].text, font);
    } else if i > 0 {
        lemma_segments_grow(items, font, i - 1, j - 1);
        lemma_measured(items[j - 1].text, font);
    }
}

/// As many segments show as fit: those on the right take what they need, up to the bar's
/// width, those on the left what remains; the first that does not fit ends its list.
pub proof fn law_as_many_segments_as_fit(
    bar: Rect,
    left: Seq<ItemModel>,
    right: Seq<ItemModel>,
    font: Font,
)
    requires
        bar.width >= 16,
    ensures
        ({
            let r = crate::chrome::right_count(bar, right, font);
            let l = crate::chrome::left_count(bar, left, right, font);
            let wide = |items: Seq<ItemModel>, n: int|
                crate::chrome::segments_width(items, font, n);
            &&& 0 <= r <= right.len()
            &&& r > 0 ==> wide(right, r) <= bar.width - 8
            &&& r < right.len() ==> wide(right, r + 1) > bar.width - 8
            &&& 0 <= l <= left.len()
            &&& l > 0 ==> wide(left, l) <= bar.width - 16 - wide(right, r)
            &&& l < left.len() ==> wide(left, l + 1) > bar.width - 16 - wide(right, r)
        }),
{
    lemma_fitting(right, font, crate::chrome::right_room(bar), 0);
    lemma_fitting(left, font, crate::chrome::left_room(bar, right, font), 0);
}

proof fn lemma_fitting(items: Seq<ItemModel>, font: Font, room: int, i: int)
    requires
        0 <= i <= items.len(),
        i > 0 ==> crate::chrome::segments_width(items, font, i) <= room,
    ensures
        ({
            let n = crate::chrome::segments_fitting(items, font, room, i);
            &&& i <= n <= items.len()
            &&& n > 0 ==> crate::chrome::segments_width(items, font, n) <= room
            &&& n < items.len() ==> crate::chrome::segments_width(items, font, n + 1) > room
        }),
    decreases items.len() - i,
{
    if i < items.len() && crate::chrome::segments_width(items, font, i + 1) <= room {
        lemma_fitting(items, font, room, i + 1);
    }
}

/// The status bar shows its background across the whole bar and every segment that fits,
/// on its side; a bar that has no height shows nothing.
pub proof fn law_the_status_bar_shows_its_segments(
    bar: Rect,
    left: Seq<ItemModel>,
    right: Seq<ItemModel>,
    font: Font,
    i: int,
    op: OpModel,
)
    ensures
        ({
            let ops = crate::chrome::status_bar_ops(bar, left, right, font);
            &&& bar.height == 0 ==> ops.len() == 0
            &&& bar.height > 0 ==> ops[0] == (OpModel::Fill {
                rect: bar,
                tone: Tone::SplitDivider,
                blend: Blend::Window,
                corners: Corners::Bottom,
            })
            &&& bar.height > 0 && 0 <= i < crate::chrome::right_count(bar, right, font)
                && crate::chrome::segment_ops(
                crate::chrome::right_segment(bar, right, font, i),
                right[i],
                font,
            ).contains(op) ==> ops.contains(op)
            &&& bar.height > 0 && 0 <= i < crate::chrome::left_count(bar, left, right, font)
                && crate::chrome::segment_ops(
                crate::chrome::left_segment(bar, left, font, i),
                left[i],
                font,
            ).contains(op) ==> ops.contains(op)
        }),
{
    let a = seq![
        OpModel::Fill {
            rect: bar,
            tone: Tone::SplitDivider,
            blend: Blend::Window,
            corners: Corners::Bottom,
        },
    ];
    let n = crate::chrome::right_count(bar, right, font);
    let m = crate::chrome::left_count(bar, left, right, font);
    let b = crate::chrome::right_ops(bar, right, font, n);
    let c = crate::chrome::left_ops(bar, left, font, m);
    lemma_sum(a, b, op);
    lemma_sum(a + b, c, op);
    if 0 <= i < n {
        lemma_right_holds(bar, right, font, i, n, op);
    }
    if 0 <= i < m {
        lemma_left_holds(bar, left, font, i, m, op);
    }
}

proof fn lemma_right_holds(
    bar: Rect,
    items: Seq<ItemModel>,
    font: Font,
    i: int,
    n: int,
    op: OpModel,
)
    requires
        0 <= i < n,
    ensures
        crate::chrome::segment_ops(
            crate::chrome::right_segment(bar, items, font, i),
            items[i],
            font,
        ).contains(op) ==> crate::chrome::right_ops(bar, items, font, n).contains(op),
    decreases n,
{
    lemma_sum(
        crate::chrome::right_ops(bar, items, font, n - 1),
        crate::chrome::segment_ops(
            crate::chrome::right_segment(bar, items, font, n - 1),
            items[n - 1],
            font,
        ),
        op,
    );
    if i < n - 1 {
        lemma_right_holds(bar, items, font, i, n - 1, op);
    }
}

proof fn lemma_left_holds(
    bar: Rect,
    items: Seq<ItemModel>,
    font: Font,
    i: int,
    n: int,
    op: OpModel,
)
    requires
        0 <= i < n,
    ensures
        crate::chrome::segment_ops(
            crate::chrome::left_segment(bar, items, font, i),
            items[i],
            font,
        ).contains(op) ==> crate::chrome::left_ops(bar, items, font, n).contains(op),
    decreases n,
{
    lemma_sum(
        crate::chrome::left_ops(bar, items, font, n - 1),
        crate::chrome::segment_ops(
            crate::chrome::left_segment(bar, items, font, n - 1),
            items[n - 1],
            font,
        ),
        op,
    );
    if i < n - 1 {
        lemma_left_holds(bar, items, font, i, n - 1, op);
    }
}

/// A tooltip stands under the middle of what it explains, two pixels below, as wide as
/// its text and eight pixels on either side; one that would reach below the window does
/// not show.
pub proof fn law_where_tooltips_stand(text: Seq<char>, anchor: Rect, window: Rect, font: Font)
    requires
        anchor.fits(),
        window.fits(),
        RunModel::measured(text, font.cell_width as int) + 16 <= u32::MAX,
        font.cell_height + 6 <= u32::MAX,
    ensures
        ({
            let wide = RunModel::measured(text, font.cell_width as int) + 16;
            let high = font.cell_height + 6;
            let top = anchor.y + anchor.height + 2;
            let x = anchor.x + anchor.width / 2 - wide / 2;
            let shown = crate::chrome::tooltip_rect(text, anchor, window, font);
            &&& shown is None <==> top + high > window.y + window.height
            &&& shown is Some ==> shown->0.width == wide && shown->0.height == high && shown->0.y
                == top
            &&& shown is Some && window.x <= x && x + wide <= window.x + window.width
                ==> shown->0.x == x
            &&& shown is Some && x < window.x ==> shown->0.x == window.x
            &&& shown is Some && x >= window.x && x + wide > window.x + window.width && wide
                <= window.width ==> shown->0.x + wide == window.x + window.width
            &&& shown is Some && wide > window.width ==> shown->0.x == window.x
        }),
{
    lemma_measured(text, font);
}

/// What is drawn of a tooltip, and nothing else: a frame, its inside, and its text.
pub proof fn law_a_tooltip_shows(
    text: Seq<char>,
    anchor: Rect,
    window: Rect,
    font: Font,
    op: OpModel,
)
    ensures
        ({
            let ops = crate::chrome::tooltip_ops(text, anchor, window, font);
            match crate::chrome::tooltip_rect(text, anchor, window, font) {
                Some(rect) => {
                    &&& ops.contains(op) <==> {
                        ||| fills(op, rect, Tone::SplitDivider, Blend::Opaque)
                        ||| fills_inside(op, rect, Tone::BackgroundFocused)
                        ||| says(
                            op,
                            text,
                            rect,
                            8,
                            Align::Center,
                            Tone::Foreground,
                            Weight::Regular,
                            font,
                        )
                    }
                    &&& fills(ops[0], rect, Tone::SplitDivider, Blend::Opaque)
                },
                None => ops.len() == 0,
            }
        }),
{
    if let Some(rect) = crate::chrome::tooltip_rect(text, anchor, window, font) {
        let a = OpModel::outlined(rect, Tone::SplitDivider, Tone::BackgroundFocused);
        lemma_two(a[0], a[1], op);
        assert(a =~= seq![a[0], a[1]]);
        lemma_text(text, rect, 8, Align::Center, Tone::Foreground, Weight::Regular, font, op);
        lemma_sum(
            a,
            OpModel::text_in(
                text,
                rect,
                8,
                Align::Center,
                Tone::Foreground,
                Weight::Regular,
                font,
            ),
            op,
        );
    }
}

/// Every row of a menu shows its own label, and the selected one, and no other, stands
/// out.
pub proof fn law_menu_rows_show_their_labels(
    rows: Seq<(Rect, Seq<char>)>,
    selected: int,
    font: Font,
    i: int,
    op: OpModel,
)
    requires
        0 <= i < rows.len(),
    ensures
        ({
            let ops = crate::draw::menu_rows_ops(rows, selected, font, rows.len() as int);
            &&& says(
                op,
                rows[i].1,
                rows[i].0,
                8,
                Align::Left,
                if i == selected {
                    Tone::Background
                } else {
                    Tone::Foreground
                },
                Weight::Regular,
                font,
            ) ==> ops.contains(op)
            &&& i == selected && fills(op, rows[i].0, Tone::Cursor, Blend::Opaque) ==> ops.contains(
                op,
            )
            &&& op is Fill && ops.contains(op) ==> 0 <= selected < rows.len() && fills(
                op,
                rows[selected].0,
                Tone::Cursor,
                Blend::Opaque,
            )
        }),
{
    lemma_menu_rows(rows, selected, font, i, rows.len() as int, op);
    if op is Fill {
        lemma_menu_fills(rows, selected, font, rows.len() as int, op);
    }
}

spec fn menu_text(rows: Seq<(Rect, Seq<char>)>, selected: int, font: Font, i: int) -> Seq<OpModel> {
    OpModel::text_in(
        rows[i].1,
        rows[i].0,
        8,
        Align::Left,
        if i == selected {
            Tone::Background
        } else {
            Tone::Foreground
        },
        Weight::Regular,
        font,
    )
}

proof fn lemma_menu_step(
    rows: Seq<(Rect, Seq<char>)>,
    selected: int,
    font: Font,
    n: int,
    op: OpModel,
)
    requires
        0 < n <= rows.len(),
    ensures
        crate::draw::menu_rows_ops(rows, selected, font, n).contains(op) <==> {
            ||| crate::draw::menu_rows_ops(rows, selected, font, n - 1).contains(op)
            ||| n - 1 == selected && fills(op, rows[n - 1].0, Tone::Cursor, Blend::Opaque)
            ||| says(
                op,
                rows[n - 1].1,
                rows[n - 1].0,
                8,
                Align::Left,
                if n - 1 == selected {
                    Tone::Background
                } else {
                    Tone::Foreground
                },
                Weight::Regular,
                font,
            )
        },
{
    let before = crate::draw::menu_rows_ops(rows, selected, font, n - 1);
    let lit = OpModel::fill(rows[n - 1].0, Tone::Cursor, Blend::Opaque);
    let mark = OpModel::when(n - 1 == selected, lit);
    let text = menu_text(rows, selected, font, n - 1);
    lemma_when(n - 1 == selected, lit, op);
    lemma_text(
        rows[n - 1].1,
        rows[n - 1].0,
        8,
        Align::Left,
        if n - 1 == selected {
            Tone::Background
        } else {
            Tone::Foreground
        },
        Weight::Regular,
        font,
        op,
    );
    lemma_sum(before, mark, op);
    lemma_sum(before + mark, text, op);
    assert(crate::draw::menu_rows_ops(rows, selected, font, n) =~= before + mark + text);
}

proof fn lemma_menu_rows(
    rows: Seq<(Rect, Seq<char>)>,
    selected: int,
    font: Font,
    i: int,
    n: int,
    op: OpModel,
)
    requires
        0 <= i < n <= rows.len(),
    ensures
        says(
            op,
            rows[i].1,
            rows[i].0,
            8,
            Align::Left,
            if i == selected {
                Tone::Background
            } else {
                Tone::Foreground
            },
            Weight::Regular,
            font,
        ) || (i == selected && fills(op, rows[i].0, Tone::Cursor, Blend::Opaque))
            ==> crate::draw::menu_rows_ops(rows, selected, font, n).contains(op),
    decreases n,
{
    lemma_menu_step(rows, selected, font, n, op);
    if i < n - 1 {
        lemma_menu_rows(rows, selected, font, i, n - 1, op);
    }
}

proof fn lemma_menu_fills(
    rows: Seq<(Rect, Seq<char>)>,
    selected: int,
    font: Font,
    n: int,
    op: OpModel,
)
    requires
        0 <= n <= rows.len(),
        op is Fill,
    ensures
        crate::draw::menu_rows_ops(rows, selected, font, n).contains(op) ==> 0 <= selected < n
            && fills(op, rows[selected].0, Tone::Cursor, Blend::Opaque),
    decreases n,
{
    if n > 0 {
        lemma_menu_step(rows, selected, font, n, op);
        lemma_menu_fills(rows, selected, font, n - 1, op);
    }
}

/// Where a menu opens: below its button, its left edge at the button's, as wide as its
/// longest label up to forty characters and as high as its rows; above the button where
/// it would reach below the window.
pub proof fn law_where_menus_open(menu: MenuModel, window: Rect, cell: (u32, u32), i: int)
    requires
        menu.rect_fits(window, cell),
        0 <= i < menu.items.len(),
    ensures
        ({
            let rect = menu.rect_in(window, cell);
            let high = menu.items.len() * (cell.1 + 6) + 16;
            let below = menu.anchor.y + menu.anchor.height;
            &&& high <= window.height ==> rect.height == high
            &&& high > window.height ==> rect.height == window.height
            &&& below + rect.height <= window.y + window.height ==> rect.y == below
            &&& below + rect.height > window.y + window.height && menu.anchor.y - rect.height
                >= window.y ==> rect.y + rect.height == menu.anchor.y
            &&& window.x <= menu.anchor.x && menu.anchor.x + rect.width <= window.x + window.width
                ==> rect.x == menu.anchor.x
            &&& menu.items[i].0.len() <= 40 && menu.items[i].0.len() * cell.0 + 32 <= window.width
                ==> rect.width >= menu.items[i].0.len() * cell.0 + 32
            &&& rect.width <= window.width
            &&& rect.width <= 40 * cell.0 + 32
        }),
{
    let n = menu.items.len() as int;
    lemma_widest(menu.items, i, n);
    let w = crate::menu::widest(menu.items, n);
    let columns = crate::menu::capped(w, 40);
    let own = menu.items[i].0.len() as int;
    assert(0 <= columns * cell.0 <= 40 * cell.0) by (nonlinear_arith)
        requires
            0 <= columns <= 40,
            0 <= cell.0,
    ;
    if own <= 40 {
        assert(own * cell.0 <= columns * cell.0) by (nonlinear_arith)
            requires
                own <= columns,
                0 <= cell.0,
        ;
    }
    assert((cell.1 + 6) * n == n * (cell.1 + 6)) by (nonlinear_arith);
    assert(0 <= (cell.1 + 6) * n) by (nonlinear_arith)
        requires
            0 <= n,
            0 <= cell.1,
    ;
}

proof fn lemma_widest(items: Seq<(Seq<char>, Seq<char>)>, i: int, n: int)
    requires
        0 <= i < n <= items.len(),
    ensures
        items[i].0.len() <= crate::menu::widest(items, n),
    decreases n,
{
    if i < n - 1 {
        lemma_widest(items, i, n - 1);
    }
}

/// Where the rows of a menu are: one below the other without a gap, eight pixels inside.
pub proof fn law_where_menu_rows_are(rect: Rect, i: int, cell_height: u32)
    requires
        0 <= i,
        rect.fits(),
        rect.x + 8 <= i32::MAX,
        rect.y + 8 + i * (cell_height + 6) <= i32::MAX,
        cell_height + 6 <= u32::MAX,
        rect.width >= 16,
    ensures
        ({
            let row = Menu::row_in(rect, i, cell_height);
            &&& row.x == rect.x + 8
            &&& row.y == rect.y + 8 + i * (cell_height + 6)
            &&& row.width == rect.width - 16
            &&& row.height == cell_height + 6
        }),
{
    assert(0 <= i * (cell_height + 6)) by (nonlinear_arith)
        requires
            0 <= i,
            0 <= cell_height,
    ;
}

} // verus!
