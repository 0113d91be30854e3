//! Icons drawn from geometry rather than font glyphs.
//!
//! No single font has all the characters the buttons would need, so each icon is built
//! from the same stroke width, sits in the same box, and scales exactly with the bar.
//!
//! Coordinates count 10000ths of a pixel: every proportion below is a whole number of
//! those, whatever the size of the button.

use vstd::prelude::*;

use crate::geometry::Rect;
use crate::scene::ChromeButton;
use crate::widget::EntryKind;

verus! {

/// Units in a pixel.
pub const UNIT: i64 = 10000;

/// What a stroke is painted with.
#[derive(Debug, Clone, Copy, PartialEq, Eq, Structural)]
pub enum Ink {
    /// The icon's own color.
    Tint,
    /// Whatever was painted behind the icon.
    Behind,
    /// Black at the icon's alpha, so it reads on top of a filled shape.
    Cut,
}

/// One piece of an icon.
#[derive(Debug, Clone, Copy, PartialEq, Eq, Structural)]
pub enum Stroke {
    /// An upright rectangle.
    Bar { x: i64, y: i64, width: i64, height: i64 },
    /// A rectangle turned about its center, clockwise or the other way, by an eighth of
    /// a full turn.
    Turned { x: i64, y: i64, width: i64, height: i64, clockwise: bool, ink: Ink },
    /// A stroke as long as the diagonal of a square of this side, turned like `Turned`.
    Diagonal { cx: i64, cy: i64, side: i64, stroke: i64, clockwise: bool },
    /// One of eight spokes: a bar whose middle is `reach` from the center, pointing out.
    Spoke { cx: i64, cy: i64, reach: i64, length: i64, width: i64, index: u8 },
    /// A filled circle.
    Disc { cx: i64, cy: i64, radius: i64, ink: Ink },
}

/// The square an icon is drawn in: its corner and side in pixels, and its stroke width.
#[derive(Debug, Clone, Copy, PartialEq, Eq, Structural)]
pub struct IconBox {
    pub x: i64,
    pub y: i64,
    pub side: i64,
    pub stroke: i64,
}

/// Half of `n`, rounded to the nearest whole number, ties away from zero.
pub open spec fn half_rounded(n: int) -> int {
    if n >= 0 {
        (n + 1) / 2
    } else {
        -((1 - n) / 2)
    }
}

pub open spec fn larger(a: int, b: int) -> int {
    if a >= b {
        a
    } else {
        b
    }
}

/// The icon box centered in `button`: about a third of the button, at least four
/// pixels, with a stroke about an eighth of that, all on whole pixels.
pub open spec fn icon_box(button: Rect) -> IconBox {
    let short = if button.width <= button.height {
        button.width as int
    } else {
        button.height as int
    };
    let side = larger((short * 34 + 50) / 100, 4);
    IconBox {
        x: half_rounded(2 * button.x + button.width - side) as i64,
        y: half_rounded(2 * button.y + button.height - side) as i64,
        side: side as i64,
        stroke: larger((side * 12 + 50) / 100, 1) as i64,
    }
}

fn halve(n: i64) -> (h: i64)
    requires
        i64::MIN / 2 < n < i64::MAX / 2,
    ensures
        h == half_rounded(n as int),
{
    if n >= 0 {
        (n + 1) / 2
    } else {
        -((1 - n) / 2)
    }
}

/// Square icon box centered in `button`, and the stroke width to draw it with.
pub fn box_of(button: Rect) -> (b: IconBox)
    ensures
        b == icon_box(button),
        4 <= b.side <= 0x1_0000_0000,
        1 <= b.stroke <= b.side,
        -0x2_0000_0000 <= b.x <= 0x2_0000_0000,
        -0x2_0000_0000 <= b.y <= 0x2_0000_0000,
{
    let short: i64 = if button.width <= button.height {
        button.width as i64
    } else {
        button.height as i64
    };
    let wanted: i64 = (short * 34 + 50) / 100;
    let side: i64 = if wanted >= 4 {
        wanted
    } else {
        4
    };
    let thick: i64 = (side * 12 + 50) / 100;
    let stroke: i64 = if thick >= 1 {
        thick
    } else {
        1
    };
    let x: i64 = halve(2 * button.x as i64 + button.width as i64 - side);
    let y: i64 = halve(2 * button.y as i64 + button.height as i64 - side);
    IconBox { x, y, side, stroke }
}

/// A horizontal stroke centered vertically at `cy`.
pub open spec fn hbar(x: int, cy: int, width: int, stroke: int) -> Stroke {
    Stroke::Bar {
        x: x as i64,
        y: (cy - stroke / 2) as i64,
        width: width as i64,
        height: stroke as i64,
    }
}

/// A vertical stroke centered horizontally at `cx`.
pub open spec fn vbar(cx: int, y: int, height: int, stroke: int) -> Stroke {
    Stroke::Bar {
        x: (cx - stroke / 2) as i64,
        y: y as i64,
        width: stroke as i64,
        height: height as i64,
    }
}

/// A hollow square, as four strokes. A smaller square punched out of a larger one would
/// have to be painted in the button's background, which changes on hover.
pub open spec fn outline(x: int, y: int, side: int, stroke: int) -> Seq<Stroke> {
    seq![
        hbar(x, y + stroke / 2, side, stroke),
        hbar(x, y + side - stroke / 2, side, stroke),
        vbar(x + stroke / 2, y, side, stroke),
        vbar(x + side - stroke / 2, y, side, stroke),
    ]
}

/// Two arms crossing at `(cx, cy)`, an eighth of a turn either way.
pub open spec fn arms(cx: int, cy: int, arm: int, stroke: int, first: bool, ink: Ink) -> Seq<
    Stroke,
> {
    let one = |clockwise: bool|
        Stroke::Turned {
            x: (cx - arm / 2) as i64,
            y: (cy - stroke / 2) as i64,
            width: arm as i64,
            height: stroke as i64,
            clockwise,
            ink,
        };
    seq![one(first), one(!first)]
}

/// The strokes of a toolbar icon.
pub open spec fn icon_strokes(button: ChromeButton, rect: Rect) -> Seq<Stroke> {
    if rect.width == 0 || rect.height == 0 {
        Seq::empty()
    } else {
        strokes_in(button, icon_box(rect))
    }
}

/// The strokes of a toolbar icon in its box.
pub open spec fn strokes_in(button: ChromeButton, b: IconBox) -> Seq<Stroke> {
    let x = b.x * UNIT;
    let y = b.y * UNIT;
    let side = b.side * UNIT;
    let stroke = b.stroke * UNIT;
    let cx = x + side / 2;
    let cy = y + side / 2;
    match button {
        ChromeButton::NewTab => seq![hbar(x, cy, side, stroke), vbar(cx, y, side, stroke)],
        // On the baseline, not through the middle: minimize means down to the bottom.
        ChromeButton::Minimize => seq![hbar(x, y + side - stroke / 2, side, stroke)],
        ChromeButton::Maximize => outline(x, y, side, stroke),
        // Three bars: more things than fit on a toolbar.
        ChromeButton::AppMenu => seq![
            hbar(x, y + stroke / 2, side, stroke),
            hbar(x, y + stroke / 2 + (side - stroke) / 2, side, stroke),
            hbar(x, y + stroke / 2 + (side - stroke), side, stroke),
        ],
        // Two overlapping panels.
        ChromeButton::Plugins => {
            let small = b.side * 6200;
            outline(x, y + side - small, small, stroke) + outline(
                x + side - small,
                y,
                small,
                stroke,
            )
        },
        // A downward chevron.
        ChromeButton::NewTabMenu => {
            let arm = b.side * 3400;
            arms(cx, cy + arm / 2, arm, stroke, true, Ink::Tint)
        },
        // A blocky question mark: the hook, the stem, and the dot.
        ChromeButton::Help => {
            let left = cx - b.side * 2800;
            let right = cx + b.side * 2800;
            let hook = y + b.side * 4600;
            let dot = b.stroke * 14000;
            seq![
                hbar(left, y + stroke / 2, right - left, stroke),
                vbar(right - stroke / 2, y, hook - y, stroke),
                hbar(cx, hook - stroke / 2, right - cx, stroke),
                vbar(cx, hook, b.side * 2200, stroke),
                Stroke::Bar {
                    x: (cx - dot / 2) as i64,
                    y: (y + side - dot) as i64,
                    width: dot as i64,
                    height: dot as i64,
                },
            ]
        },
        // A panel with a filled column down its left.
        ChromeButton::Explorer => outline(x, y, side, stroke).push(
            Stroke::Bar {
                x: x as i64,
                y: y as i64,
                width: (b.side * 3600) as i64,
                height: side as i64,
            },
        ),
        // Two strokes reaching the corners of the box.
        ChromeButton::Close => seq![
            Stroke::Diagonal {
                cx: cx as i64,
                cy: cy as i64,
                side: side as i64,
                stroke: stroke as i64,
                clockwise: true,
            },
            Stroke::Diagonal {
                cx: cx as i64,
                cy: cy as i64,
                side: side as i64,
                stroke: stroke as i64,
                clockwise: false,
            },
        ],
        ChromeButton::SplitRight => outline(x, y, side, stroke).push(
            vbar(cx, y, side, stroke),
        ),
        ChromeButton::SplitDown => outline(x, y, side, stroke).push(
            hbar(x, cy, side, stroke),
        ),
        // A gear: eight teeth, the body, and a hole punched back out of it.
        ChromeButton::Settings => Seq::new(
            8,
            |i: int|
                Stroke::Spoke {
                    cx: cx as i64,
                    cy: cy as i64,
                    reach: (b.side * 4100) as i64,
                    length: (b.side * 2200) as i64,
                    width: (b.stroke * 16000) as i64,
                    index: i as u8,
                },
        ) + seq![
            Stroke::Disc {
                cx: cx as i64,
                cy: cy as i64,
                radius: (b.side * 3000 + stroke / 2) as i64,
                ink: Ink::Tint,
            },
            Stroke::Disc {
                cx: cx as i64,
                cy: cy as i64,
                radius: (b.side * 1350) as i64,
                ink: Ink::Behind,
            },
        ],
    }
}

/// The strokes of a file-list icon.
pub open spec fn entry_strokes(kind: EntryKind, rect: Rect) -> Seq<Stroke> {
    if rect.width == 0 || rect.height == 0 {
        Seq::empty()
    } else {
        let b = icon_box(rect);
        let x = b.x * UNIT;
        let y = b.y * UNIT;
        let side = b.side * UNIT;
        let stroke = b.stroke * UNIT;
        let cx = x + side / 2;
        let cy = y + side / 2;
        let page = b.side * 7800;
        match kind {
            // An upward chevron: go up.
            EntryKind::Parent => arms(cx, cy, b.side * 3500, stroke, false, Ink::Tint),
            // A body with a raised tab along the top-left.
            EntryKind::Directory => {
                let tab = b.side * 1600;
                seq![
                    Stroke::Bar {
                        x: x as i64,
                        y: y as i64,
                        width: (b.side * 4500) as i64,
                        height: (2 * tab) as i64,
                    },
                    Stroke::Bar {
                        x: x as i64,
                        y: (y + tab) as i64,
                        width: side as i64,
                        height: (side - tab) as i64,
                    },
                ]
            },
            // A page with the top-right corner cut away.
            EntryKind::File => {
                let fold = b.side * 2652;
                let left = cx - page / 2;
                seq![
                    Stroke::Bar {
                        x: left as i64,
                        y: y as i64,
                        width: (page - fold) as i64,
                        height: side as i64,
                    },
                    Stroke::Bar {
                        x: (left + page - fold) as i64,
                        y: (y + fold) as i64,
                        width: fold as i64,
                        height: (side - fold) as i64,
                    },
                ]
            },
            // A page with a chevron over it: a link points somewhere else.
            EntryKind::Symlink => seq![
                Stroke::Bar {
                    x: (cx - page / 2) as i64,
                    y: y as i64,
                    width: page as i64,
                    height: side as i64,
                },
            ] + arms(cx, cy, b.side * 3000, stroke, true, Ink::Cut),
        }
    }
}

/// Coordinates small enough that sums of a few stay representable.
pub open spec fn small(n: int) -> bool {
    -0x2_0000_0000_0000 <= n <= 0x2_0000_0000_0000
}

fn push_hbar(out: &mut Vec<Stroke>, x: i64, cy: i64, width: i64, stroke: i64)
    requires
        small(cy as int),
        0 <= stroke,
        small(stroke as int),
    ensures
        final(out)@ == old(out)@.push(hbar(x as int, cy as int, width as int, stroke as int)),
{
    out.push(Stroke::Bar { x, y: cy - stroke / 2, width, height: stroke });
}

fn push_vbar(out: &mut Vec<Stroke>, cx: i64, y: i64, height: i64, stroke: i64)
    requires
        small(cx as int),
        0 <= stroke,
        small(stroke as int),
    ensures
        final(out)@ == old(out)@.push(vbar(cx as int, y as int, height as int, stroke as int)),
{
    out.push(Stroke::Bar { x: cx - stroke / 2, y, width: stroke, height });
}

fn push_outline(out: &mut Vec<Stroke>, x: i64, y: i64, side: i64, stroke: i64)
    requires
        -0x1_0000_0000_0000 <= x <= 0x1_0000_0000_0000,
        -0x1_0000_0000_0000 <= y <= 0x1_0000_0000_0000,
        0 <= stroke <= 0x4000_0000_0000,
        0 <= side <= 0x4000_0000_0000,
    ensures
        final(out)@ == old(out)@ + outline(x as int, y as int, side as int, stroke as int),
{
    push_hbar(out, x, y + stroke / 2, side, stroke);
    push_hbar(out, x, y + side - stroke / 2, side, stroke);
    push_vbar(out, x + stroke / 2, y, side, stroke);
    push_vbar(out, x + side - stroke / 2, y, side, stroke);
    assert(out@ =~= old(out)@ + outline(x as int, y as int, side as int, stroke as int));
}

fn push_arms(
    out: &mut Vec<Stroke>,
    cx: i64,
    cy: i64,
    arm: i64,
    stroke: i64,
    first: bool,
    ink: Ink,
)
    requires
        small(cx as int),
        small(cy as int),
        0 <= arm,
        small(arm as int),
        0 <= stroke,
        small(stroke as int),
    ensures
        final(out)@ == old(out)@ + arms(
            cx as int,
            cy as int,
            arm as int,
            stroke as int,
            first,
            ink,
        ),
{
    let x: i64 = cx - arm / 2;
    let y: i64 = cy - stroke / 2;
    out.push(Stroke::Turned { x, y, width: arm, height: stroke, clockwise: first, ink });
    out.push(Stroke::Turned { x, y, width: arm, height: stroke, clockwise: !first, ink });
    assert(out@ =~= old(out)@ + arms(
        cx as int,
        cy as int,
        arm as int,
        stroke as int,
        first,
        ink,
    ));
}

/// Draw a file-list row's icon centered in `rect`.
pub fn entry(out: &mut Vec<Stroke>, kind: EntryKind, rect: Rect)
    ensures
        final(out)@ == old(out)@ + entry_strokes(kind, rect),
{
    if rect.width == 0 || rect.height == 0 {
        assert(out@ =~= old(out)@ + entry_strokes(kind, rect));
        return ;
    }
    let b = box_of(rect);
    let x: i64 = b.x * UNIT;
    let y: i64 = b.y * UNIT;
    let side: i64 = b.side * UNIT;
    let stroke: i64 = b.stroke * UNIT;
    let cx: i64 = x + side / 2;
    let cy: i64 = y + side / 2;
    let page: i64 = b.side * 7800;
    match kind {
        EntryKind::Parent => {
            push_arms(out, cx, cy, b.side * 3500, stroke, false, Ink::Tint);
        },
        EntryKind::Directory => {
            let tab: i64 = b.side * 1600;
            out.push(Stroke::Bar { x, y, width: b.side * 4500, height: 2 * tab });
            out.push(Stroke::Bar { x, y: y + tab, width: side, height: side - tab });
        },
        EntryKind::File => {
            let fold: i64 = b.side * 2652;
            let left: i64 = cx - page / 2;
            out.push(Stroke::Bar { x: left, y, width: page - fold, height: side });
            out.push(
                Stroke::Bar {
                    x: left + page - fold,
                    y: y + fold,
                    width: fold,
                    height: side - fold,
                },
            );
        },
        EntryKind::Symlink => {
            out.push(Stroke::Bar { x: cx - page / 2, y, width: page, height: side });
            push_arms(out, cx, cy, b.side * 3000, stroke, true, Ink::Cut);
        },
    }
    assert(out@ =~= old(out)@ + entry_strokes(kind, rect));
}

/// Draw a gear: eight teeth, the body, and a hole.
fn push_gear(out: &mut Vec<Stroke>, cx: i64, cy: i64, b: IconBox)
    requires
        4 <= b.side <= 0x1_0000_0000,
        1 <= b.stroke <= b.side,
    ensures
        final(out)@ == old(out)@ + Seq::new(
            8,
            |i: int|
                Stroke::Spoke {
                    cx,
                    cy,
                    reach: (b.side * 4100) as i64,
                    length: (b.side * 2200) as i64,
                    width: (b.stroke * 16000) as i64,
                    index: i as u8,
                },
        ) + seq![
            Stroke::Disc {
                cx,
                cy,
                radius: (b.side * 3000 + b.stroke * UNIT / 2) as i64,
                ink: Ink::Tint,
            },
            Stroke::Disc { cx, cy, radius: (b.side * 1350) as i64, ink: Ink::Behind },
        ],
{
    let ghost tooth = |i: int|
        Stroke::Spoke {
            cx,
            cy,
            reach: (b.side * 4100) as i64,
            length: (b.side * 2200) as i64,
            width: (b.stroke * 16000) as i64,
            index: i as u8,
        };
    let mut i: u8 = 0;
    while i < 8
        invariant
            i <= 8,
            4 <= b.side <= 0x1_0000_0000,
            1 <= b.stroke <= b.side,
            tooth == (|i: int|
                Stroke::Spoke {
                    cx,
                    cy,
                    reach: (b.side * 4100) as i64,
                    length: (b.side * 2200) as i64,
                    width: (b.stroke * 16000) as i64,
                    index: i as u8,
                }),
            out@ =~= old(out)@ + Seq::new(i as nat, tooth),
        decreases 8 - i,
    {
        out.push(
            Stroke::Spoke {
                cx,
                cy,
                reach: b.side * 4100,
                length: b.side * 2200,
                width: b.stroke * 16000,
                index: i,
            },
        );
        i += 1;
    }
    let half: i64 = b.stroke * UNIT / 2;
    out.push(Stroke::Disc { cx, cy, radius: b.side * 3000 + half, ink: Ink::Tint });
    out.push(Stroke::Disc { cx, cy, radius: b.side * 1350, ink: Ink::Behind });
    assert(out@ =~= old(out)@ + Seq::new(8, tooth) + seq![
        Stroke::Disc {
            cx,
            cy,
            radius: (b.side * 3000 + b.stroke * UNIT / 2) as i64,
            ink: Ink::Tint,
        },
        Stroke::Disc { cx, cy, radius: (b.side * 1350) as i64, ink: Ink::Behind },
    ]);
}

/// Draw `button`'s icon centered in its rect.
pub fn draw(out: &mut Vec<Stroke>, button: ChromeButton, rect: Rect)
    ensures
        final(out)@ == old(out)@ + icon_strokes(button, rect),
{
    if rect.width == 0 || rect.height == 0 {
        assert(out@ =~= old(out)@ + icon_strokes(button, rect));
        return ;
    }
    draw_boxed(out, button, box_of(rect));
}

/// Draw `button`'s icon in its box.
#[verifier::rlimit(40)]
fn draw_boxed(out: &mut Vec<Stroke>, button: ChromeButton, b: IconBox)
    requires
        4 <= b.side <= 0x1_0000_0000,
        1 <= b.stroke <= b.side,
        -0x2_0000_0000 <= b.x <= 0x2_0000_0000,
        -0x2_0000_0000 <= b.y <= 0x2_0000_0000,
    ensures
        final(out)@ == old(out)@ + strokes_in(button, b),
{
    let ghost all = strokes_in(button, b);
    let x: i64 = b.x * UNIT;
    let y: i64 = b.y * UNIT;
    let side: i64 = b.side * UNIT;
    let stroke: i64 = b.stroke * UNIT;
    let cx: i64 = x + side / 2;
    let cy: i64 = y + side / 2;
    match button {
        ChromeButton::NewTab => {
            push_hbar(out, x, cy, side, stroke);
            push_vbar(out, cx, y, side, stroke);
            assert(out@ =~= old(out)@ + all);
        },
        ChromeButton::Minimize => {
            push_hbar(out, x, y + side - stroke / 2, side, stroke);
            assert(out@ =~= old(out)@ + all);
        },
        ChromeButton::Maximize => {
            push_outline(out, x, y, side, stroke);
        },
        ChromeButton::AppMenu => {
            push_hbar(out, x, y + stroke / 2, side, stroke);
            push_hbar(out, x, y + stroke / 2 + (side - stroke) / 2, side, stroke);
            push_hbar(out, x, y + stroke / 2 + (side - stroke), side, stroke);
            assert(out@ =~= old(out)@ + all);
        },
        ChromeButton::Plugins => {
            let small: i64 = b.side * 6200;
            push_outline(out, x, y + side - small, small, stroke);
            push_outline(out, x + side - small, y, small, stroke);
            assert(out@ =~= old(out)@ + all);
        },
        ChromeButton::NewTabMenu => {
            let arm: i64 = b.side * 3400;
            push_arms(out, cx, cy + arm / 2, arm, stroke, true, Ink::Tint);
        },
        ChromeButton::Help => {
            let left: i64 = cx - b.side * 2800;
            let right: i64 = cx + b.side * 2800;
            let hook: i64 = y + b.side * 4600;
            let dot: i64 = b.stroke * 14000;
            push_hbar(out, left, y + stroke / 2, right - left, stroke);
            push_vbar(out, right - stroke / 2, y, hook - y, stroke);
            push_hbar(out, cx, hook - stroke / 2, right - cx, stroke);
            push_vbar(out, cx, hook, b.side * 2200, stroke);
            out.push(Stroke::Bar { x: cx - dot / 2, y: y + side - dot, width: dot, height: dot });
            assert(out@ =~= old(out)@ + all);
        },
        ChromeButton::Explorer => {
            push_outline(out, x, y, side, stroke);
            out.push(Stroke::Bar { x, y, width: b.side * 3600, height: side });
            assert(out@ =~= old(out)@ + all);
        },
        ChromeButton::Close => {
            out.push(Stroke::Diagonal { cx, cy, side, stroke, clockwise: true });
            out.push(Stroke::Diagonal { cx, cy, side, stroke, clockwise: false });
            assert(out@ =~= old(out)@ + all);
        },
        ChromeButton::SplitRight => {
            push_outline(out, x, y, side, stroke);
            push_vbar(out, cx, y, side, stroke);
            assert(out@ =~= old(out)@ + all);
        },
        ChromeButton::SplitDown => {
            push_outline(out, x, y, side, stroke);
            push_hbar(out, x, cy, side, stroke);
            assert(out@ =~= old(out)@ + all);
        },
        ChromeButton::Settings => {
            push_gear(out, cx, cy, b);
            assert(out@ =~= old(out)@ + all);
        },
    }
}

/// A bar lies inside a box.
pub open spec fn inside(s: Stroke, b: IconBox) -> bool {
    s matches Stroke::Bar { x, y, width, height } ==> {
        &&& b.x * UNIT <= x
        &&& x + width <= (b.x + b.side) * UNIT
        &&& b.y * UNIT <= y
        &&& y + height <= (b.y + b.side) * UNIT
    }
}

#[verifier::rlimit(40)]
proof fn lemma_bars_inside(button: ChromeButton, b: IconBox)
    requires
        4 <= b.side <= 0x1_0000_0000,
        1 <= b.stroke,
        4 * b.stroke <= b.side,
        -0x2_0000_0000 <= b.x <= 0x2_0000_0000,
        -0x2_0000_0000 <= b.y <= 0x2_0000_0000,
    ensures
        forall|k: int|
            0 <= k < strokes_in(button, b).len() ==> inside(#[trigger] strokes_in(button, b)[k], b),
{
}

/// Every upright stroke of every icon lies inside the icon's box.
pub proof fn law_bars_stay_in_the_box(button: ChromeButton, rect: Rect, k: int)
    requires
        0 <= k < icon_strokes(button, rect).len(),
    ensures
        inside(icon_strokes(button, rect)[k], icon_box(rect)),
{
    let b = icon_box(rect);
    assert(4 <= b.side && 1 <= b.stroke && 4 * b.stroke <= b.side);
    lemma_bars_inside(button, b);
}

/// The icon's box is centered in its button, to the pixel.
pub proof fn law_box_is_centered(button: Rect)
    requires
        4 <= button.width,
        4 <= button.height,
    ensures
        ({
            let b = icon_box(button);
            &&& -1 <= 2 * b.x + b.side - (2 * button.x + button.width) <= 1
            &&& -1 <= 2 * b.y + b.side - (2 * button.y + button.height) <= 1
        }),
{
}

} // verus!
