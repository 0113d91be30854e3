//! The tab bar, its buttons, and the status bar.
//!
//! The active tab uses the pane background so it reads as continuous with the terminal
//! below it, and inactive tabs sit on the divider color so the strip recedes.

use vstd::prelude::*;

use crate::geometry::Rect;
use crate::scene::{
    push_fill, push_op, push_outlined, push_text, Blend, ChromeButton, Corners, Op, OpModel, Rgba,
    Tone, Weight,
};
use crate::strings::chars_of;
use crate::text::{measure, Align, Font, RunModel};

verus! {

/// Inset for text inside a tab or status segment.
pub const PADDING: u32 = 8;

/// Thickness of the bar marking the active tab.
pub const ACTIVE_MARKER: u32 = 2;

/// One tab to draw.
#[derive(Debug, Clone, Copy)]
pub struct TabLabel<'a> {
    pub title: &'a str,
    pub active: bool,
    /// The tab has unseen output, which undims its title.
    pub has_activity: bool,
    /// Draw the close button. Only the hovered tab gets one.
    pub show_close: bool,
    /// The close button itself is hovered, so highlight it.
    pub close_hovered: bool,
}

/// A tab to draw, as a mathematical value.
#[verifier::ext_equal]
pub struct LabelModel {
    pub title: Seq<char>,
    pub active: bool,
    pub has_activity: bool,
    pub show_close: bool,
    pub close_hovered: bool,
}

impl<'a> View for TabLabel<'a> {
    type V = LabelModel;

    open spec fn view(&self) -> LabelModel {
        LabelModel {
            title: self.title@,
            active: self.active,
            has_activity: self.has_activity,
            show_close: self.show_close,
            close_hovered: self.close_hovered,
        }
    }
}

impl LabelModel {
    /// The views of a list of tabs.
    pub open spec fn all(labels: Seq<TabLabel>) -> Seq<LabelModel> {
        Seq::new(labels.len(), |i: int| labels[i]@)
    }
}

/// A rectangle's bottom edge, marked.
pub open spec fn marker(rect: Rect) -> Rect {
    Rect {
        x: rect.x,
        y: (rect.bottom_spec() - ACTIVE_MARKER) as i32,
        width: rect.width,
        height: ACTIVE_MARKER,
    }
}

/// The rectangle is small and near enough for its parts to be representable.
pub open spec fn drawable(rect: Rect) -> bool {
    &&& rect.fits()
    &&& i32::MIN + 8 <= rect.y
    &&& rect.x + 8 <= i32::MAX
    &&& rect.y + 8 <= i32::MAX
}

/// Which of `tabs` is the first one at the same place as tab `i`.
pub open spec fn first_same(tabs: Seq<Rect>, i: int, n: int) -> int
    decreases n,
{
    if n <= 0 {
        i
    } else if first_same(tabs, i, n - 1) < n - 1 || n - 1 >= i {
        first_same(tabs, i, n - 1)
    } else if tabs[n - 1] == tabs[i] {
        n - 1
    } else {
        first_same(tabs, i, n - 1)
    }
}

/// The tone behind a tab's title.
pub open spec fn tab_tone(label: LabelModel) -> Tone {
    if label.active {
        Tone::BackgroundFocused
    } else {
        Tone::SplitDivider
    }
}

/// The box a tab's title is centered in: the tab without the part from its close
/// button on, whether or not the button is showing.
pub open spec fn title_box(rect: Rect, close: Option<Rect>) -> Rect {
    match close {
        Some(c) => {
            let shrink = if rect.right_spec() >= c.x {
                rect.right_spec() - c.x
            } else {
                0
            };
            Rect {
                width: (if rect.width >= shrink {
                    rect.width - shrink
                } else {
                    0
                }) as u32,
                ..rect
            }
        },
        None => rect,
    }
}

/// What one tab draws: its background, its marker or separator, its title, and its
/// close button.
pub open spec fn tab_ops(
    bar: Rect,
    rect: Rect,
    close: Option<Rect>,
    label: LabelModel,
    font: Font,
) -> Seq<OpModel> {
    let lit = label.active || label.has_activity;
    seq![
        OpModel::Fill {
            rect,
            tone: tab_tone(label),
            blend: Blend::Window,
            // Only a tab against the strip's left edge sits in the window's corner.
            corners: if rect.x <= bar.x {
                Corners::TopLeft
            } else {
                Corners::Square
            },
        },
    ] + OpModel::when(label.active, OpModel::fill(marker(rect), Tone::Cursor, Blend::Opaque))
        + OpModel::when(
        !label.active && rect.x > bar.x,
        OpModel::fill(
            Rect {
                x: rect.x,
                y: (rect.y + 4) as i32,
                width: 1,
                height: (if rect.height > 9 {
                    rect.height - 8
                } else {
                    1
                }) as u32,
            },
            Tone::NormalBlack,
            Blend::Window,
        ),
    ) + OpModel::when(
        close is Some && label.show_close && label.close_hovered,
        OpModel::fill(close->0, Tone::NormalRed, Blend::Opaque),
    ) + OpModel::text_in(
        label.title,
        title_box(rect, close),
        PADDING as int,
        Align::Center,
        if lit {
            Tone::Foreground
        } else {
            Tone::BrightBlack
        },
        if label.active {
            Weight::Bold
        } else {
            Weight::Regular
        },
        font,
    ) + OpModel::when(
        close is Some && label.show_close,
        OpModel::Icon {
            button: ChromeButton::Close,
            rect: close->0,
            tone: if label.close_hovered {
                Tone::Background
            } else {
                Tone::BrightBlack
            },
            behind: if label.close_hovered {
                Tone::NormalRed
            } else {
                tab_tone(label)
            },
        },
    )
}

/// The close button that belongs to tab `i`.
pub open spec fn close_of(tabs: Seq<Rect>, closes: Seq<Rect>, i: int) -> Option<Rect> {
    let at = first_same(tabs, i, tabs.len() as int);
    if at < closes.len() {
        Some(closes[at])
    } else {
        None
    }
}

/// What the first `n` tabs draw.
pub open spec fn tabs_ops(
    bar: Rect,
    tabs: Seq<Rect>,
    closes: Seq<Rect>,
    labels: Seq<LabelModel>,
    font: Font,
    n: int,
) -> Seq<OpModel>
    decreases n,
{
    if n <= 0 {
        Seq::empty()
    } else {
        tabs_ops(bar, tabs, closes, labels, font, n - 1) + tab_ops(
            bar,
            tabs[n - 1],
            close_of(tabs, closes, n - 1),
            labels[n - 1],
            font,
        )
    }
}

/// What the tab bar draws: the strip, then every tab that has a label. A hidden bar and
/// a bar without tabs draw nothing.
pub open spec fn tab_bar_ops(
    bar: Rect,
    tabs: Seq<Rect>,
    closes: Seq<Rect>,
    labels: Seq<LabelModel>,
    font: Font,
) -> Seq<OpModel> {
    if bar.height == 0 || tabs.len() == 0 {
        Seq::empty()
    } else {
        seq![
            OpModel::Fill {
                rect: bar,
                tone: Tone::SplitDivider,
                blend: Blend::Window,
                corners: Corners::Top,
            },
        ] + tabs_ops(
            bar,
            tabs,
            closes,
            labels,
            font,
            if tabs.len() <= labels.len() {
                tabs.len() as int
            } else {
                labels.len() as int
            },
        )
    }
}

proof fn lemma_first_same(tabs: Seq<Rect>, i: int, n: int)
    requires
        0 <= i < tabs.len(),
        0 <= n <= tabs.len(),
    ensures
        0 <= first_same(tabs, i, n) <= i,
        tabs[first_same(tabs, i, n)] == tabs[i],
        forall|j: int|
            0 <= j < n && j < first_same(tabs, i, n) ==> #[trigger] tabs[j] != tabs[i],
    decreases n,
{
    if n > 0 {
        lemma_first_same(tabs, i, n - 1);
    }
}

/// The first tab at the same place as tab `i`.
fn index_of_same(tabs: &[Rect], i: usize) -> (at: usize)
    requires
        i < tabs@.len(),
    ensures
        at == first_same(tabs@, i as int, tabs@.len() as int),
        at <= i,
{
    let mut at: usize = 0;
    while tabs[at] != tabs[i]
        invariant
            at <= i < tabs@.len(),
            forall|j: int| 0 <= j < at ==> #[trigger] tabs@[j] != tabs@[i as int],
        decreases i - at,
    {
        at += 1;
    }
    proof {
        lemma_first_same(tabs@, i as int, tabs@.len() as int);
    }
    at
}

fn draw_tab(out: &mut Vec<Op>, bar: Rect, rect: Rect, close: Option<Rect>, label: TabLabel, font: Font)
    requires
        drawable(rect),
        font.can_draw(label.title@),
    ensures
        OpModel::all(final(out)@) == OpModel::all(old(out)@) + tab_ops(
            bar,
            rect,
            close,
            label@,
            font,
        ),
{
    let background = if label.active {
        Tone::BackgroundFocused
    } else {
        Tone::SplitDivider
    };
    push_op(
        out,
        Op::Fill {
            rect,
            tone: background,
            blend: Blend::Window,
            corners: if rect.x <= bar.x {
                Corners::TopLeft
            } else {
                Corners::Square
            },
        },
    );
    // A colored bar along the bottom, against the panes the tab belongs to.
    if label.active {
        let under = Rect::new(
            rect.x,
            rect.bottom() - ACTIVE_MARKER as i32,
            rect.width,
            ACTIVE_MARKER,
        );
        push_fill(out, under, Tone::Cursor, Blend::Opaque);
    }
    // A separator, skipped at the strip's left edge: there it would cut across the
    // window's rounded corner.
    if !label.active && rect.x > bar.x {
        let height: u32 = if rect.height > 9 {
            rect.height - 8
        } else {
            1
        };
        push_fill(out, Rect::new(rect.x, rect.y + 4, 1, height), Tone::NormalBlack, Blend::Window);
    }
    // Room for the close button is reserved whether or not it is showing, so the title
    // does not move when the pointer arrives.
    let mut text_rect = rect;
    if let Some(c) = close {
        let shrink: i64 = rect.right() as i64 - c.x as i64;
        if shrink > 0 {
            text_rect.width = if shrink <= rect.width as i64 {
                (rect.width as i64 - shrink) as u32
            } else {
                0
            };
        }
        if label.show_close && label.close_hovered {
            push_fill(out, c, Tone::NormalRed, Blend::Opaque);
        }
    }
    push_text(
        out,
        label.title,
        text_rect,
        PADDING,
        Align::Center,
        if label.active || label.has_activity {
            Tone::Foreground
        } else {
            Tone::BrightBlack
        },
        if label.active {
            Weight::Bold
        } else {
            Weight::Regular
        },
        font,
    );
    if label.show_close {
        if let Some(c) = close {
            push_op(
                out,
                Op::Icon {
                    button: ChromeButton::Close,
                    rect: c,
                    tone: if label.close_hovered {
                        Tone::Background
                    } else {
                        Tone::BrightBlack
                    },
                    behind: if label.close_hovered {
                        Tone::NormalRed
                    } else {
                        background
                    },
                },
            );
        }
    }
    assert(OpModel::all(out@) =~= OpModel::all(old(out)@) + tab_ops(bar, rect, close, label@, font));
}

/// Draw the tab bar.
pub fn draw_tab_bar(
    out: &mut Vec<Op>,
    bar: Rect,
    tabs: &[Rect],
    closes: &[Rect],
    labels: &[TabLabel],
    font: Font,
)
    requires
        forall|i: int| 0 <= i < tabs@.len() ==> drawable(#[trigger] tabs@[i]),
        forall|i: int| 0 <= i < labels@.len() ==> font.can_draw((#[trigger] labels@[i]).title@),
    ensures
        OpModel::all(final(out)@) == OpModel::all(old(out)@) + tab_bar_ops(
            bar,
            tabs@,
            closes@,
            LabelModel::all(labels@),
            font,
        ),
{
    if bar.height == 0 || tabs.len() == 0 {
        assert(OpModel::all(out@) =~= OpModel::all(old(out)@) + Seq::empty());
        return ;
    }
    push_op(
        out,
        Op::Fill {
            rect: bar,
            tone: Tone::SplitDivider,
            blend: Blend::Window,
            corners: Corners::Top,
        },
    );
    let ghost strip = OpModel::all(out@);
    let n: usize = if tabs.len() <= labels.len() {
        tabs.len()
    } else {
        labels.len()
    };
    let mut i: usize = 0;
    assert(strip + tabs_ops(bar, tabs@, closes@, LabelModel::all(labels@), font, 0) =~= strip);
    while i < n
        invariant
            i <= n <= tabs@.len(),
            n <= labels@.len(),
            forall|i: int| 0 <= i < tabs@.len() ==> drawable(#[trigger] tabs@[i]),
            forall|i: int| 0 <= i < labels@.len() ==> font.can_draw((#[trigger] labels@[i]).title@),
            OpModel::all(out@) == strip + tabs_ops(bar, tabs@, closes@, LabelModel::all(labels@), font, i as int),
        decreases n - i,
    {
        let at: usize = index_of_same(tabs, i);
        let close: Option<Rect> = if at < closes.len() {
            Some(closes[at])
        } else {
            None
        };
        draw_tab(out, bar, tabs[i], close, labels[i], font);
        i += 1;
        assert(OpModel::all(out@) =~= strip + tabs_ops(
            bar,
            tabs@,
            closes@,
            LabelModel::all(labels@),
            font,
            i as int,
        ));
    }
    assert(OpModel::all(out@) =~= OpModel::all(old(out)@) + tab_bar_ops(
        bar,
        tabs@,
        closes@,
        LabelModel::all(labels@),
        font,
    ));
}

// --- buttons ------------------------------------------------------------------

/// How a button is drawn: its fill, if any, its icon's tone, and whether it is marked.
pub struct ButtonLook {
    pub fill: Option<Tone>,
    pub tint: Tone,
    pub marked: bool,
}

/// The tone of a button that is in use. Close is red, because it loses work.
pub open spec fn accent(button: ChromeButton) -> Tone {
    if button == ChromeButton::Close {
        Tone::NormalRed
    } else {
        Tone::Cursor
    }
}

/// Three states, most specific first. Pressed inverts, hover lifts, and an open panel's
/// button stays lit; the mark under it survives hover but not the press.
pub open spec fn button_look(
    button: ChromeButton,
    hovered: bool,
    pressed: bool,
    active: bool,
) -> ButtonLook {
    if pressed {
        ButtonLook { fill: Some(accent(button)), tint: Tone::Background, marked: false }
    } else if hovered {
        ButtonLook {
            fill: Some(
                if button == ChromeButton::Close {
                    Tone::NormalRed
                } else {
                    Tone::BackgroundFocused
                },
            ),
            tint: Tone::Foreground,
            marked: active,
        }
    } else if active {
        ButtonLook { fill: Some(Tone::BackgroundFocused), tint: accent(button), marked: true }
    } else {
        ButtonLook { fill: None, tint: Tone::Foreground, marked: false }
    }
}

/// What one button draws: its fill, its mark, and its icon.
pub open spec fn button_ops(
    bar: Rect,
    button: ChromeButton,
    rect: Rect,
    look: ButtonLook,
) -> Seq<OpModel> {
    OpModel::when(
        look.fill is Some,
        OpModel::Fill {
            rect,
            tone: look.fill->0,
            blend: Blend::Opaque,
            corners: if rect.right_spec() >= bar.right_spec() {
                Corners::TopRight
            } else {
                Corners::Square
            },
        },
    ) + OpModel::when(look.marked, OpModel::fill(marker(rect), accent(button), Blend::Opaque))
        + seq![
        OpModel::Icon {
            button,
            rect,
            tone: look.tint,
            behind: match look.fill {
                Some(t) => t,
                None => Tone::SplitDivider,
            },
        },
    ]
}

/// What the first `n` buttons draw.
pub open spec fn buttons_ops(
    bar: Rect,
    buttons: Seq<(ChromeButton, Rect)>,
    hovered: Option<ChromeButton>,
    pressed: Option<ChromeButton>,
    active: Seq<ChromeButton>,
    n: int,
) -> Seq<OpModel>
    decreases n,
{
    if n <= 0 {
        Seq::empty()
    } else {
        let (button, rect) = buttons[n - 1];
        buttons_ops(bar, buttons, hovered, pressed, active, n - 1) + button_ops(
            bar,
            button,
            rect,
            button_look(
                button,
                hovered == Some(button),
                pressed == Some(button),
                active.contains(button),
            ),
        )
    }
}

fn look_of(button: ChromeButton, hovered: bool, pressed: bool, active: bool) -> (look: ButtonLook)
    ensures
        look == button_look(button, hovered, pressed, active),
{
    let closes = button == ChromeButton::Close;
    let accent = if closes {
        Tone::NormalRed
    } else {
        Tone::Cursor
    };
    if pressed {
        ButtonLook { fill: Some(accent), tint: Tone::Background, marked: false }
    } else if hovered {
        ButtonLook {
            fill: Some(
                if closes {
                    Tone::NormalRed
                } else {
                    Tone::BackgroundFocused
                },
            ),
            tint: Tone::Foreground,
            marked: active,
        }
    } else if active {
        ButtonLook { fill: Some(Tone::BackgroundFocused), tint: accent, marked: true }
    } else {
        ButtonLook { fill: None, tint: Tone::Foreground, marked: false }
    }
}

fn contains_button(list: &[ChromeButton], button: ChromeButton) -> (b: bool)
    ensures
        b == list@.contains(button),
{
    let mut i: usize = 0;
    while i < list.len()
        invariant
            i <= list@.len(),
            forall|j: int| 0 <= j < i ==> list@[j] != button,
        decreases list@.len() - i,
    {
        if list[i] == button {
            assert(list@[i as int] == button);
            return true;
        }
        i += 1;
    }
    false
}

fn draw_button(out: &mut Vec<Op>, bar: Rect, button: ChromeButton, rect: Rect, look: ButtonLook)
    requires
        bar.fits(),
        drawable(rect),
    ensures
        OpModel::all(final(out)@) == OpModel::all(old(out)@) + button_ops(bar, button, rect, look),
{
    let behind = match look.fill {
        Some(tone) => {
            push_op(
                out,
                Op::Fill {
                    rect,
                    tone,
                    blend: Blend::Opaque,
                    corners: if rect.right() >= bar.right() {
                        Corners::TopRight
                    } else {
                        Corners::Square
                    },
                },
            );
            tone
        },
        None => Tone::SplitDivider,
    };
    if look.marked {
        let under = Rect::new(
            rect.x,
            rect.bottom() - ACTIVE_MARKER as i32,
            rect.width,
            ACTIVE_MARKER,
        );
        let tone = if button == ChromeButton::Close {
            Tone::NormalRed
        } else {
            Tone::Cursor
        };
        push_fill(out, under, tone, Blend::Opaque);
    }
    push_op(out, Op::Icon { button, rect, tone: look.tint, behind });
    assert(OpModel::all(out@) =~= OpModel::all(old(out)@) + button_ops(bar, button, rect, look));
}

/// Draw the action buttons packed at the right of the tab strip.
///
/// `pressed` is the button held down right now; `active` are the ones whose panel is
/// showing.
pub fn draw_chrome_buttons(
    out: &mut Vec<Op>,
    bar: Rect,
    buttons: &[(ChromeButton, Rect)],
    hovered: Option<ChromeButton>,
    pressed: Option<ChromeButton>,
    active: &[ChromeButton],
)
    requires
        bar.fits(),
        forall|i: int| 0 <= i < buttons@.len() ==> drawable((#[trigger] buttons@[i]).1),
    ensures
        OpModel::all(final(out)@) == OpModel::all(old(out)@) + buttons_ops(
            bar,
            buttons@,
            hovered,
            pressed,
            active@,
            buttons@.len() as int,
        ),
{
    let ghost before = OpModel::all(out@);
    assert(before + buttons_ops(bar, buttons@, hovered, pressed, active@, 0) =~= before);
    let mut i: usize = 0;
    while i < buttons.len()
        invariant
            i <= buttons@.len(),
            bar.fits(),
            forall|i: int| 0 <= i < buttons@.len() ==> drawable((#[trigger] buttons@[i]).1),
            OpModel::all(out@) == before + buttons_ops(
                bar,
                buttons@,
                hovered,
                pressed,
                active@,
                i as int,
            ),
        decreases buttons@.len() - i,
    {
        let (button, rect) = buttons[i];
        assert(drawable(buttons@[i as int].1));
        let look = look_of(
            button,
            hovered == Some(button),
            pressed == Some(button),
            contains_button(active, button),
        );
        draw_button(out, bar, button, rect, look);
        i += 1;
        assert(OpModel::all(out@) =~= before + buttons_ops(
            bar,
            buttons@,
            hovered,
            pressed,
            active@,
            i as int,
        ));
    }
}

// --- status bar -----------------------------------------------------------------

/// One status bar segment.
#[derive(Debug, Clone, Copy)]
pub struct StatusItem<'a> {
    pub text: &'a str,
    /// `#rrggbb` overrides; anything else falls back to the theme.
    pub foreground: Option<&'a str>,
    pub background: Option<&'a str>,
}

/// A status bar segment as a mathematical value.
#[verifier::ext_equal]
pub struct ItemModel {
    pub text: Seq<char>,
    pub foreground: Option<Seq<char>>,
    pub background: Option<Seq<char>>,
}

impl<'a> View for StatusItem<'a> {
    type V = ItemModel;

    open spec fn view(&self) -> ItemModel {
        ItemModel {
            text: self.text@,
            foreground: match self.foreground {
                Some(t) => Some(t@),
                None => None,
            },
            background: match self.background {
                Some(t) => Some(t@),
                None => None,
            },
        }
    }
}

impl ItemModel {
    /// The views of a list of segments.
    pub open spec fn all(items: Seq<StatusItem>) -> Seq<ItemModel> {
        Seq::new(items.len(), |i: int| items[i]@)
    }
}

/// The value of a hexadecimal digit.
pub open spec fn hex_value(c: char) -> Option<int> {
    if '0' <= c <= '9' {
        Some(c as int - '0' as int)
    } else if 'a' <= c <= 'f' {
        Some(c as int - 'a' as int + 10)
    } else if 'A' <= c <= 'F' {
        Some(c as int - 'A' as int + 10)
    } else {
        None
    }
}

/// A color written `#rrggbb`.
pub open spec fn color_of_text(text: Seq<char>) -> Option<Rgba> {
    if text.len() == 7 && text[0] == '#' && (forall|i: int|
        1 <= i < 7 ==> hex_value(#[trigger] text[i]) is Some) {
        Some(
            Rgba {
                r: (16 * hex_value(text[1])->0 + hex_value(text[2])->0) as u8,
                g: (16 * hex_value(text[3])->0 + hex_value(text[4])->0) as u8,
                b: (16 * hex_value(text[5])->0 + hex_value(text[6])->0) as u8,
                a: 255,
            },
        )
    } else {
        None
    }
}

fn hex_digit(c: char) -> (v: Option<u8>)
    ensures
        match v {
            Some(n) => hex_value(c) == Some(n as int) && n < 16,
            None => hex_value(c) is None,
        },
{
    let code: u32 = c as u32;
    if '0' <= c && c <= '9' {
        Some((code - 48) as u8)
    } else if 'a' <= c && c <= 'f' {
        Some((code - 97 + 10) as u8)
    } else if 'A' <= c && c <= 'F' {
        Some((code - 65 + 10) as u8)
    } else {
        None
    }
}

/// Parse a plugin-supplied color. A bad color is lost; it does not fail the frame.
pub fn parse_color(text: &str) -> (color: Option<Rgba>)
    ensures
        color == color_of_text(text@),
{
    let chars = chars_of(text);
    if chars.len() != 7 || chars[0] != '#' {
        return None;
    }
    let r1 = hex_digit(chars[1]);
    let r2 = hex_digit(chars[2]);
    let g1 = hex_digit(chars[3]);
    let g2 = hex_digit(chars[4]);
    let b1 = hex_digit(chars[5]);
    let b2 = hex_digit(chars[6]);
    match (r1, r2, g1, g2, b1, b2) {
        (Some(r1), Some(r2), Some(g1), Some(g2), Some(b1), Some(b2)) => {
            assert forall|i: int| 1 <= i < 7 implies hex_value(#[trigger] text@[i]) is Some by {
                assert(i == 1 || i == 2 || i == 3 || i == 4 || i == 5 || i == 6);
            }
            Some(Rgba { r: 16 * r1 + r2, g: 16 * g1 + g2, b: 16 * b1 + b2, a: 255 })
        },
        _ => {
            assert(hex_value(text@[1]) is None || hex_value(text@[2]) is None || hex_value(text@[3]) is None
                || hex_value(text@[4]) is None || hex_value(text@[5]) is None || hex_value(
                text@[6],
            ) is None);
            None
        },
    }
}

/// An override that is a color, and otherwise the theme's tone.
pub open spec fn tone_or(wanted: Option<Seq<char>>, usual: Tone) -> Tone {
    match wanted {
        Some(text) => match color_of_text(text) {
            Some(color) => Tone::Own(color),
            None => usual,
        },
        None => usual,
    }
}

/// The width of a segment: its text with a padding either side.
pub open spec fn segment_width(item: ItemModel, font: Font) -> int {
    RunModel::measured(item.text, font.cell_width as int) + 2 * PADDING
}

/// The width of the first `n` segments.
pub open spec fn segments_width(items: Seq<ItemModel>, font: Font, n: int) -> int
    decreases n,
{
    if n <= 0 {
        0
    } else {
        segments_width(items, font, n - 1) + segment_width(items[n - 1], font)
    }
}

/// How many segments, from segment `i` on, fit in `room` pixels before one does not.
pub open spec fn segments_fitting(items: Seq<ItemModel>, font: Font, room: int, i: int) -> int
    decreases items.len() - i,
{
    if i < 0 || i >= items.len() || segments_width(items, font, i + 1) > room {
        i
    } else {
        segments_fitting(items, font, room, i + 1)
    }
}

/// Where a segment goes that starts `x` pixels into the window.
pub open spec fn segment_at(bar: Rect, x: int, item: ItemModel, font: Font) -> Rect {
    Rect {
        x: x as i32,
        y: bar.y,
        width: segment_width(item, font) as u32,
        height: bar.height,
    }
}

/// What a segment draws: a background if it has a valid color of its own, and its text.
pub open spec fn segment_ops(segment: Rect, item: ItemModel, font: Font) -> Seq<OpModel> {
    OpModel::when(
        item.background is Some && color_of_text(item.background->0) is Some,
        OpModel::fill(
            segment,
            tone_or(item.background, Tone::SplitDivider),
            Blend::Window,
        ),
    ) + OpModel::text_in(
        item.text,
        segment,
        PADDING as int,
        Align::Center,
        tone_or(item.foreground, Tone::Foreground),
        Weight::Regular,
        font,
    )
}

/// The room for right-hand segments: from the left edge to the right padding.
pub open spec fn right_room(bar: Rect) -> int {
    bar.width - PADDING
}

/// How many right-hand segments are drawn.
pub open spec fn right_count(bar: Rect, items: Seq<ItemModel>, font: Font) -> int {
    segments_fitting(items, font, right_room(bar), 0)
}

/// Right-hand segment `i`: laid out from the right edge, the first one outermost.
pub open spec fn right_segment(bar: Rect, items: Seq<ItemModel>, font: Font, i: int) -> Rect {
    segment_at(
        bar,
        bar.right_spec() - PADDING - segments_width(items, font, i + 1),
        items[i],
        font,
    )
}

/// The room for left-hand segments: what the right-hand ones left over.
pub open spec fn left_room(bar: Rect, items: Seq<ItemModel>, font: Font) -> int {
    bar.width - 2 * PADDING - segments_width(items, font, right_count(bar, items, font))
}

/// How many left-hand segments are drawn.
pub open spec fn left_count(
    bar: Rect,
    left: Seq<ItemModel>,
    items: Seq<ItemModel>,
    font: Font,
) -> int {
    segments_fitting(left, font, left_room(bar, items, font), 0)
}

/// Left-hand segment `i`: laid out from the left edge.
pub open spec fn left_segment(bar: Rect, left: Seq<ItemModel>, font: Font, i: int) -> Rect {
    segment_at(bar, bar.x + PADDING + segments_width(left, font, i), left[i], font)
}

pub open spec fn right_ops(bar: Rect, items: Seq<ItemModel>, font: Font, n: int) -> Seq<OpModel>
    decreases n,
{
    if n <= 0 {
        Seq::empty()
    } else {
        right_ops(bar, items, font, n - 1) + segment_ops(
            right_segment(bar, items, font, n - 1),
            items[n - 1],
            font,
        )
    }
}

pub open spec fn left_ops(bar: Rect, left: Seq<ItemModel>, font: Font, n: int) -> Seq<OpModel>
    decreases n,
{
    if n <= 0 {
        Seq::empty()
    } else {
        left_ops(bar, left, font, n - 1) + segment_ops(
            left_segment(bar, left, font, n - 1),
            left[n - 1],
            font,
        )
    }
}

/// What the status bar draws: the strip, the right-hand segments, and then the
/// left-hand ones in what is left. A hidden bar draws nothing.
pub open spec fn status_bar_ops(
    bar: Rect,
    left: Seq<ItemModel>,
    items: Seq<ItemModel>,
    font: Font,
) -> Seq<OpModel> {
    if bar.height == 0 {
        Seq::empty()
    } else {
        seq![
            OpModel::Fill {
                rect: bar,
                tone: Tone::SplitDivider,
                blend: Blend::Window,
                corners: Corners::Bottom,
            },
        ] + right_ops(bar, items, font, right_count(bar, items, font)) + left_ops(
            bar,
            left,
            font,
            left_count(bar, left, items, font),
        )
    }
}

proof fn lemma_segments_nonnegative(items: Seq<ItemModel>, font: Font, n: int)
    requires
        0 <= n <= items.len(),
        forall|i: int|
            0 <= i < n ==> RunModel::measured(
                (#[trigger] items[i]).text,
                font.cell_width as int,
            ) >= 0,
    ensures
        segments_width(items, font, n) >= 16 * n,
    decreases n,
{
    if n > 0 {
        lemma_segments_nonnegative(items, font, n - 1);
    }
}

fn override_tone(wanted: Option<&str>, usual: Tone) -> (tone: Tone)
    ensures
        tone == tone_or(
            match wanted {
                Some(t) => Some(t@),
                None => None,
            },
            usual,
        ),
{
    match wanted {
        Some(text) => match parse_color(text) {
            Some(color) => Tone::Own(color),
            None => usual,
        },
        None => usual,
    }
}

fn draw_segment(out: &mut Vec<Op>, segment: Rect, item: StatusItem, font: Font)
    requires
        font.can_draw(item.text@),
    ensures
        OpModel::all(final(out)@) == OpModel::all(old(out)@) + segment_ops(segment, item@, font),
{
    if let Some(text) = item.background {
        if let Some(color) = parse_color(text) {
            push_fill(out, segment, Tone::Own(color), Blend::Window);
        }
    }
    push_text(
        out,
        item.text,
        segment,
        PADDING,
        Align::Center,
        override_tone(item.foreground, Tone::Foreground),
        Weight::Regular,
        font,
    );
    assert(OpModel::all(out@) =~= OpModel::all(old(out)@) + segment_ops(segment, item@, font));
}

fn width_of_segment(item: StatusItem, font: Font) -> (w: i64)
    requires
        font.can_draw(item.text@),
    ensures
        w == segment_width(item@, font),
        16 <= w <= u32::MAX + 16,
{
    proof {
        assert(3 * item.text@.len() * font.cell_width <= 3 * (item.text@.len() + 1)
            * font.cell_width) by (nonlinear_arith);
    }
    measure(item.text, font.cell_width) as i64 + 2 * PADDING as i64
}

/// Draw the status bar, laying segments out from the right.
///
/// Right-aligned because status content is short and volatile: anchoring it to the
/// right edge stops the whole row jittering when one segment changes width. The left
/// block goes second, into whatever the right block left, and stops rather than drawing
/// underneath it. Returns the rects of the right-hand segments that were drawn, in the
/// order given.
pub fn draw_status_bar(
    out: &mut Vec<Op>,
    bar: Rect,
    left: &[StatusItem],
    items: &[StatusItem],
    font: Font,
) -> (placed: Vec<Rect>)
    requires
        bar.fits(),
        forall|i: int| 0 <= i < left@.len() ==> font.can_draw((#[trigger] left@[i]).text@),
        forall|i: int| 0 <= i < items@.len() ==> font.can_draw((#[trigger] items@[i]).text@),
    ensures
        OpModel::all(final(out)@) == OpModel::all(old(out)@) + status_bar_ops(
            bar,
            ItemModel::all(left@),
            ItemModel::all(items@),
            font,
        ),
        placed@ == (if bar.height == 0 {
            Seq::empty()
        } else {
            Seq::new(
                right_count(bar, ItemModel::all(items@), font) as nat,
                |i: int| right_segment(bar, ItemModel::all(items@), font, i),
            )
        }),
{
    let mut placed: Vec<Rect> = Vec::new();
    if bar.height == 0 {
        assert(OpModel::all(out@) =~= OpModel::all(old(out)@) + Seq::empty());
        return placed;
    }
    push_op(
        out,
        Op::Fill {
            rect: bar,
            tone: Tone::SplitDivider,
            blend: Blend::Window,
            corners: Corners::Bottom,
        },
    );
    let ghost strip = OpModel::all(out@);
    let room: i64 = bar.width as i64 - PADDING as i64;
    let far: i64 = bar.x as i64 + bar.width as i64 - PADDING as i64;
    let mut used: i64 = 0;
    let mut i: usize = 0;
    let mut open = true;
    assert(strip + right_ops(bar, ItemModel::all(items@), font, 0) =~= strip);
    while open && i < items.len()
        invariant
            i <= items@.len(),
            bar.fits(),
            forall|i: int| 0 <= i < items@.len() ==> font.can_draw((#[trigger] items@[i]).text@),
            room == right_room(bar),
            far == bar.right_spec() - PADDING,
            used == segments_width(ItemModel::all(items@), font, i as int),
            0 <= used,
            used <= room || i == 0,
            if open {
                right_count(bar, ItemModel::all(items@), font) == segments_fitting(
                    ItemModel::all(items@),
                    font,
                    room as int,
                    i as int,
                )
            } else {
                right_count(bar, ItemModel::all(items@), font) == i
            },
            placed@ =~= Seq::new(i as nat, |k: int| right_segment(bar, ItemModel::all(items@), font, k)),
            OpModel::all(out@) == strip + right_ops(bar, ItemModel::all(items@), font, i as int),
        decreases items@.len() - i, (if open { 1int } else { 0int }),
    {
        let item = items[i];
        let width: i64 = width_of_segment(item, font);
        // Stop once segments would run off the left edge.
        if used + width > room {
            open = false;
        } else {
            let segment = Rect::new(
                (far - used - width) as i32,
                bar.y,
                width as u32,
                bar.height,
            );
            assert(segment == right_segment(bar, ItemModel::all(items@), font, i as int));
            draw_segment(out, segment, item, font);
            placed.push(segment);
            used = used + width;
            i += 1;
            assert(OpModel::all(out@) =~= strip + right_ops(bar, ItemModel::all(items@), font, i as int));
        }
    }
    let ghost with_right = OpModel::all(out@);
    let rest: i64 = bar.width as i64 - 2 * PADDING as i64 - used;
    assert(rest == left_room(bar, ItemModel::all(items@), font));
    let near: i64 = bar.x as i64 + PADDING as i64;
    let mut pen: i64 = 0;
    let mut k: usize = 0;
    let mut more = true;
    assert(with_right + left_ops(bar, ItemModel::all(left@), font, 0) =~= with_right);
    while more && k < left.len()
        invariant
            k <= left@.len(),
            bar.fits(),
            forall|i: int| 0 <= i < left@.len() ==> font.can_draw((#[trigger] left@[i]).text@),
            rest == left_room(bar, ItemModel::all(items@), font),
            rest <= bar.width,
            near == bar.x + PADDING,
            pen == segments_width(ItemModel::all(left@), font, k as int),
            0 <= pen,
            pen <= rest || k == 0,
            if more {
                left_count(bar, ItemModel::all(left@), ItemModel::all(items@), font) == segments_fitting(
                    ItemModel::all(left@),
                    font,
                    rest as int,
                    k as int,
                )
            } else {
                left_count(bar, ItemModel::all(left@), ItemModel::all(items@), font) == k
            },
            OpModel::all(out@) == with_right + left_ops(bar, ItemModel::all(left@), font, k as int),
        decreases left@.len() - k, (if more { 1int } else { 0int }),
    {
        let item = left[k];
        let width: i64 = width_of_segment(item, font);
        if pen + width > rest {
            more = false;
        } else {
            let segment = Rect::new((near + pen) as i32, bar.y, width as u32, bar.height);
            assert(segment == left_segment(bar, ItemModel::all(left@), font, k as int));
            draw_segment(out, segment, item, font);
            pen = pen + width;
            k += 1;
            assert(OpModel::all(out@) =~= with_right + left_ops(bar, ItemModel::all(left@), font, k as int));
        }
    }
    assert(OpModel::all(out@) =~= OpModel::all(old(out)@) + status_bar_ops(
        bar,
        ItemModel::all(left@),
        ItemModel::all(items@),
        font,
    ));
    placed
}

// --- tooltip --------------------------------------------------------------------

/// Where a tooltip goes: centered under the button, pulled inside the window; nowhere
/// when it would fall off the bottom.
pub open spec fn tooltip_rect(text: Seq<char>, anchor: Rect, window: Rect, font: Font) -> Option<
    Rect,
> {
    let width = RunModel::measured(text, font.cell_width as int) + 2 * PADDING;
    let height = font.cell_height + 6;
    let wanted = anchor.center_x_spec() - width / 2;
    let last = if window.right_spec() - width >= window.x {
        window.right_spec() - width
    } else {
        window.x as int
    };
    let x = if wanted < window.x {
        window.x as int
    } else if wanted > last {
        last
    } else {
        wanted
    };
    let y = anchor.bottom_spec() + 2;
    if y + height > window.bottom_spec() {
        None
    } else {
        Some(Rect { x: x as i32, y: y as i32, width: width as u32, height: height as u32 })
    }
}

/// What a tooltip draws.
pub open spec fn tooltip_ops(text: Seq<char>, anchor: Rect, window: Rect, font: Font) -> Seq<
    OpModel,
> {
    match tooltip_rect(text, anchor, window, font) {
        None => Seq::empty(),
        Some(rect) => OpModel::outlined(rect, Tone::SplitDivider, Tone::BackgroundFocused)
            + OpModel::text_in(
            text,
            rect,
            PADDING as int,
            Align::Center,
            Tone::Foreground,
            Weight::Regular,
            font,
        ),
    }
}

/// Draw a tooltip below a hovered button.
///
/// Clamped to the window, so a button near the right edge gets a tooltip that shifts
/// left rather than one that runs off-screen.
pub fn draw_tooltip(out: &mut Vec<Op>, text: &str, anchor: Rect, window: Rect, font: Font)
    requires
        anchor.fits(),
        window.fits(),
        window.x < i32::MAX,
        font.can_draw(text@),
        3 * (text@.len() + 1) * font.cell_width <= i32::MAX,
        font.cell_height <= i32::MAX,
    ensures
        OpModel::all(final(out)@) == OpModel::all(old(out)@) + tooltip_ops(
            text@,
            anchor,
            window,
            font,
        ),
{
    proof {
        assert(3 * text@.len() * font.cell_width <= 3 * (text@.len() + 1) * font.cell_width)
            by (nonlinear_arith);
    }
    let width: i64 = measure(text, font.cell_width) as i64 + 2 * PADDING as i64;
    let height: i64 = font.cell_height as i64 + 6;
    let wanted: i64 = anchor.center_x() as i64 - width / 2;
    let right: i64 = window.right() as i64;
    let first: i64 = window.x as i64;
    let last: i64 = if right - width >= first {
        right - width
    } else {
        first
    };
    let x: i64 = if wanted < first {
        first
    } else if wanted > last {
        last
    } else {
        wanted
    };
    let y: i64 = anchor.bottom() as i64 + 2;
    // A tooltip that would fall outside the window vertically is not drawn: better
    // absent than clipped to a sliver.
    if y + height > window.bottom() as i64 {
        assert(OpModel::all(out@) =~= OpModel::all(old(out)@) + Seq::empty());
        return ;
    }
    let rect = Rect::new(x as i32, y as i32, width as u32, height as u32);
    push_outlined(out, rect, Tone::SplitDivider, Tone::BackgroundFocused);
    push_text(
        out,
        text,
        rect,
        PADDING,
        Align::Center,
        Tone::Foreground,
        Weight::Regular,
        font,
    );
    assert(OpModel::all(out@) =~= OpModel::all(old(out)@) + tooltip_ops(
        text@,
        anchor,
        window,
        font,
    ));
}

// --- laws -----------------------------------------------------------------------

/// The one text a tab draws is its title, in the title box.
proof fn lemma_tab_text(
    bar: Rect,
    rect: Rect,
    close: Option<Rect>,
    label: LabelModel,
    font: Font,
    k: int,
)
    requires
        0 <= k < tab_ops(bar, rect, close, label, font).len(),
    ensures
        tab_ops(bar, rect, close, label, font)[k] matches OpModel::Text { run, .. } ==> Some(run)
            == RunModel::boxed(
            label.title,
            title_box(rect, close),
            PADDING as int,
            Align::Center,
            font,
        ),
{
}

/// A title stays where it is when output arrives or the pointer does: neither the
/// activity nor the close button moves or re-cuts it.
pub proof fn law_title_does_not_move(
    rect: Rect,
    close: Option<Rect>,
    label: LabelModel,
    other: LabelModel,
    bar: Rect,
    font: Font,
    a: int,
    b: int,
)
    requires
        label.title == other.title,
        0 <= a < tab_ops(bar, rect, close, label, font).len(),
        0 <= b < tab_ops(bar, rect, close, other, font).len(),
    ensures
        match (
            tab_ops(bar, rect, close, label, font)[a],
            tab_ops(bar, rect, close, other, font)[b],
        ) {
            (OpModel::Text { run: r, .. }, OpModel::Text { run: t, .. }) => r == t,
            _ => true,
        },
{
    lemma_tab_text(bar, rect, close, label, font, a);
    lemma_tab_text(bar, rect, close, other, font, b);
}

/// Unseen output changes the tone of a tab's title and nothing else: as much is drawn, in
/// the same places, and an active tab does not change at all.
pub proof fn law_activity_only_undims(
    bar: Rect,
    rect: Rect,
    close: Option<Rect>,
    label: LabelModel,
    font: Font,
    k: int,
)
    requires
        0 <= k < tab_ops(bar, rect, close, label, font).len(),
    ensures
        ({
            let quiet = tab_ops(bar, rect, close, LabelModel { has_activity: false, ..label }, font);
            let loud = tab_ops(bar, rect, close, LabelModel { has_activity: true, ..label }, font);
            &&& quiet.len() == loud.len() == tab_ops(bar, rect, close, label, font).len()
            &&& label.active ==> quiet == loud
            &&& match (quiet[k], loud[k]) {
                (
                    OpModel::Text { run: a, tone: before, blend: b, weight: c },
                    OpModel::Text { run: d, tone: after, blend: e, weight: f },
                ) => {
                    &&& a == d && b == e && c == f
                    &&& !label.active ==> before == Tone::BrightBlack && after == Tone::Foreground
                },
                (a, b) => a == b,
            }
        }),
{
    let quiet = LabelModel { has_activity: false, ..label };
    let loud = LabelModel { has_activity: true, ..label };
    let before = tab_ops(bar, rect, close, quiet, font);
    let after = tab_ops(bar, rect, close, loud, font);
    if before[k] is Text {
        lemma_tab_text(bar, rect, close, quiet, font, k);
    }
    if after[k] is Text {
        lemma_tab_text(bar, rect, close, loud, font, k);
    }
    if label.active {
        assert(before =~= after);
    }
}

proof fn lemma_fitting(items: Seq<ItemModel>, font: Font, room: int, i: int)
    requires
        0 <= i <= items.len(),
        segments_width(items, font, i) <= room || i == 0,
    ensures
        ({
            let n = segments_fitting(items, font, room, i);
            &&& i <= n <= items.len()
            &&& segments_width(items, font, n) <= room || n == 0
        }),
    decreases items.len() - i,
{
    if i < items.len() && segments_width(items, font, i + 1) <= room {
        lemma_fitting(items, font, room, i + 1);
    }
}

/// No more segments are drawn than there are.
pub(crate) proof fn lemma_right_count(bar: Rect, items: Seq<ItemModel>, font: Font)
    ensures
        0 <= right_count(bar, items, font) <= items.len(),
{
    lemma_fitting(items, font, right_room(bar), 0);
}

proof fn lemma_segments_grow(items: Seq<ItemModel>, font: Font, i: int, n: int)
    requires
        0 <= i <= n <= items.len(),
        forall|k: int|
            0 <= k < items.len() ==> RunModel::measured(
                (#[trigger] items[k]).text,
                font.cell_width as int,
            ) >= 0,
    ensures
        0 <= segments_width(items, font, i) <= segments_width(items, font, n),
        i < n ==> segments_width(items, font, i + 1) <= segments_width(items, font, n),
    decreases n,
{
    lemma_segments_nonnegative(items, font, i);
    if i < n {
        lemma_segments_grow(items, font, i, n - 1);
    }
}

/// The two blocks of the status bar never overlap, and neither leaves the bar.
pub proof fn law_status_blocks_never_overlap(
    bar: Rect,
    left: Seq<ItemModel>,
    items: Seq<ItemModel>,
    font: Font,
    l: int,
    r: int,
)
    requires
        bar.fits(),
        forall|k: int|
            0 <= k < left.len() ==> RunModel::measured(
                (#[trigger] left[k]).text,
                font.cell_width as int,
            ) >= 0,
        forall|k: int|
            0 <= k < items.len() ==> RunModel::measured(
                (#[trigger] items[k]).text,
                font.cell_width as int,
            ) >= 0,
        0 <= l < left_count(bar, left, items, font),
        0 <= r < right_count(bar, items, font),
    ensures
        ({
            let a = left_segment(bar, left, font, l);
            let b = right_segment(bar, items, font, r);
            &&& bar.x <= a.x
            &&& a.right_spec() <= b.x
            &&& b.right_spec() <= bar.right_spec()
        }),
{
    let n = right_count(bar, items, font);
    let m = left_count(bar, left, items, font);
    lemma_fitting(items, font, right_room(bar), 0);
    lemma_fitting(left, font, left_room(bar, items, font), 0);
    lemma_segments_grow(items, font, r, n);
    lemma_segments_grow(items, font, r + 1, n);
    lemma_segments_grow(left, font, l, m);
    lemma_segments_grow(left, font, l + 1, m);
}

/// A tooltip that fits the window's width is drawn inside it.
pub proof fn law_tooltip_stays_inside(text: Seq<char>, anchor: Rect, window: Rect, font: Font)
    requires
        anchor.fits(),
        window.fits(),
        0 <= RunModel::measured(text, font.cell_width as int),
        RunModel::measured(text, font.cell_width as int) + 2 * PADDING <= window.width,
        tooltip_rect(text, anchor, window, font) is Some,
    ensures
        tooltip_rect(text, anchor, window, font) matches Some(rect) && {
            &&& window.x <= rect.x
            &&& rect.right_spec() <= window.right_spec()
            &&& rect.bottom_spec() <= window.bottom_spec()
        },
{
}

} // verus!
