//! What a frame is made of: fills, text and icons, in painting order.
//!
//! Colors are named by their role in the theme, so the same list of operations draws
//! under any theme. Turning a role into a color, and an operation into quads, is the
//! renderer's business.

use vstd::prelude::*;

use crate::decimal::Fixed;
use crate::geometry::Rect;
use crate::text::{Align, Font, RunModel, TextRun};
use crate::widget::EntryKind;

verus! {

/// A color with straight alpha.
#[derive(Debug, Clone, Copy, PartialEq, Eq, Structural)]
pub struct Rgba {
    pub r: u8,
    pub g: u8,
    pub b: u8,
    pub a: u8,
}

/// A color, named by its role in the theme, or one that was asked for explicitly.
#[derive(Debug, Clone, Copy, PartialEq, Eq, Structural)]
pub enum Tone {
    Background,
    BackgroundFocused,
    Foreground,
    Cursor,
    SplitDivider,
    WindowBorder,
    NormalBlack,
    NormalRed,
    NormalYellow,
    NormalBlue,
    NormalCyan,
    BrightBlack,
    Own(Rgba),
}

/// Where an operation's alpha comes from.
#[derive(Debug, Clone, Copy, PartialEq, Eq, Structural)]
pub enum Blend {
    /// The window's own opacity.
    Window,
    /// Fully opaque, even in a transparent window.
    Opaque,
    /// A fixed dimming, whatever the window's opacity.
    Dim,
    /// A share of full opacity, in thousandths.
    Fade(u32),
}

/// Which corners of a fill follow the window's curve.
#[derive(Debug, Clone, Copy, PartialEq, Eq, Structural)]
pub enum Corners {
    Square,
    All,
    Top,
    Bottom,
    TopLeft,
    TopRight,
}

#[derive(Debug, Clone, Copy, PartialEq, Eq, Structural)]
pub enum Weight {
    Regular,
    Bold,
}

/// A button of the tab strip.
#[derive(Debug, Clone, Copy, PartialEq, Eq, Structural)]
pub enum ChromeButton {
    NewTab,
    NewTabMenu,
    SplitRight,
    SplitDown,
    Explorer,
    Plugins,
    Settings,
    Help,
    AppMenu,
    Minimize,
    Maximize,
    Close,
}

/// One drawing operation.
#[derive(Debug, PartialEq)]
pub enum Op {
    Fill { rect: Rect, tone: Tone, blend: Blend, corners: Corners },
    Text { run: TextRun, tone: Tone, blend: Blend, weight: Weight },
    /// A toolbar icon, and the tone painted behind it.
    Icon { button: ChromeButton, rect: Rect, tone: Tone, behind: Tone },
    /// A file-list icon.
    EntryIcon { kind: EntryKind, rect: Rect, tone: Tone },
    /// A scrollbar thumb. Its top and height count 1024ths of a pixel.
    Thumb { x: i32, width: u32, top: i128, height: i128, tone: Tone },
    /// An outline just inside a rectangle, following the window's curve.
    Ring { rect: Rect, tone: Tone, thickness: Fixed },
}

/// A drawing operation as a mathematical value.
#[verifier::ext_equal]
pub enum OpModel {
    Fill { rect: Rect, tone: Tone, blend: Blend, corners: Corners },
    Text { run: RunModel, tone: Tone, blend: Blend, weight: Weight },
    Icon { button: ChromeButton, rect: Rect, tone: Tone, behind: Tone },
    EntryIcon { kind: EntryKind, rect: Rect, tone: Tone },
    Thumb { x: i32, width: u32, top: int, height: int, tone: Tone },
    Ring { rect: Rect, tone: Tone, thickness: Fixed },
}

impl View for Op {
    type V = OpModel;

    open spec fn view(&self) -> OpModel {
        match *self {
            Op::Fill { rect, tone, blend, corners } => OpModel::Fill { rect, tone, blend, corners },
            Op::Text { run, tone, blend, weight } => OpModel::Text {
                run: run@,
                tone,
                blend,
                weight,
            },
            Op::Icon { button, rect, tone, behind } => OpModel::Icon { button, rect, tone, behind },
            Op::EntryIcon { kind, rect, tone } => OpModel::EntryIcon { kind, rect, tone },
            Op::Thumb { x, width, top, height, tone } => OpModel::Thumb {
                x,
                width,
                top: top as int,
                height: height as int,
                tone,
            },
            Op::Ring { rect, tone, thickness } => OpModel::Ring { rect, tone, thickness },
        }
    }
}

impl OpModel {
    /// The views of a list of operations.
    pub open spec fn all(ops: Seq<Op>) -> Seq<OpModel> {
        Seq::new(ops.len(), |i: int| ops[i]@)
    }

    /// A square fill.
    pub open spec fn fill(rect: Rect, tone: Tone, blend: Blend) -> OpModel {
        OpModel::Fill { rect, tone, blend, corners: Corners::Square }
    }

    /// `text` in a box: one operation, or none when there is no room.
    pub open spec fn text_in(
        text: Seq<char>,
        rect: Rect,
        padding: int,
        align: Align,
        tone: Tone,
        weight: Weight,
        font: Font,
    ) -> Seq<OpModel> {
        match RunModel::boxed(text, rect, padding, align, font) {
            Some(run) => seq![OpModel::Text { run, tone, blend: Blend::Opaque, weight }],
            None => Seq::empty(),
        }
    }

    /// An operation that is drawn only sometimes.
    pub open spec fn when(shown: bool, op: OpModel) -> Seq<OpModel> {
        if shown {
            seq![op]
        } else {
            Seq::empty()
        }
    }

    /// A box outlined one pixel wide: the border's fill, then the interior's.
    pub open spec fn outlined(rect: Rect, border: Tone, interior: Tone) -> Seq<OpModel> {
        seq![
            OpModel::fill(rect, border, Blend::Opaque),
            OpModel::fill(rect.inset_spec(1, 1), interior, Blend::Opaque),
        ]
    }
}

/// Append one operation.
pub fn push_op(out: &mut Vec<Op>, op: Op)
    ensures
        OpModel::all(final(out)@) == OpModel::all(old(out)@).push(op@),
{
    out.push(op);
    assert(OpModel::all(out@) =~= OpModel::all(old(out)@).push(op@));
}

/// Append a square fill.
pub fn push_fill(out: &mut Vec<Op>, rect: Rect, tone: Tone, blend: Blend)
    ensures
        OpModel::all(final(out)@) == OpModel::all(old(out)@).push(
            OpModel::fill(rect, tone, blend),
        ),
{
    push_op(out, Op::Fill { rect, tone, blend, corners: Corners::Square });
}

/// Append `text`, placed in a box.
pub fn push_text(
    out: &mut Vec<Op>,
    text: &str,
    rect: Rect,
    padding: u32,
    align: Align,
    tone: Tone,
    weight: Weight,
    font: Font,
)
    requires
        font.can_draw(text@),
    ensures
        OpModel::all(final(out)@) == OpModel::all(old(out)@) + OpModel::text_in(
            text@,
            rect,
            padding as int,
            align,
            tone,
            weight,
            font,
        ),
{
    match crate::text::draw_in_box(text, rect, padding, align, font) {
        Some(run) => {
            push_op(out, Op::Text { run, tone, blend: Blend::Opaque, weight });
        },
        None => {},
    }
    assert(OpModel::all(out@) =~= OpModel::all(old(out)@) + OpModel::text_in(
        text@,
        rect,
        padding as int,
        align,
        tone,
        weight,
        font,
    ));
}

/// Append a box outlined one pixel wide.
pub fn push_outlined(out: &mut Vec<Op>, rect: Rect, border: Tone, interior: Tone)
    requires
        rect.x < i32::MAX,
        rect.y < i32::MAX,
    ensures
        OpModel::all(final(out)@) == OpModel::all(old(out)@) + OpModel::outlined(
            rect,
            border,
            interior,
        ),
{
    push_fill(out, rect, border, Blend::Opaque);
    push_fill(out, rect.inset(1, 1), interior, Blend::Opaque);
    assert(OpModel::all(out@) =~= OpModel::all(old(out)@) + OpModel::outlined(
        rect,
        border,
        interior,
    ));
}

} // verus!
