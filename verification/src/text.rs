//! Text at arbitrary pixel positions: measuring, truncating and placing it.
//!
//! Terminal content sits on a fixed grid. Chrome does not: a tab title or a status
//! segment is at a pixel offset and has to be measured, centered and truncated. The
//! advance of a character is its cell count times the cell width, so chrome text lines
//! up with the grid below it.

use std::borrow::Cow;

use vstd::prelude::*;
use vstd::string::*;

use crate::geometry::Rect;
use crate::strings::{chars_of, string_of};

verus! {

/// What `UnicodeWidthChar::width` of the `unicode_width` crate returns: how many
/// columns a character takes, or nothing for a control character.
pub uninterp spec fn column_width(c: char) -> Option<usize>;

/// Calls `UnicodeWidthChar::width`. The result depends on the character alone. It is
/// nothing for exactly the control characters, one for the printable ASCII characters
/// and for the ellipsis, and never more than three.
#[verifier::external_body]
fn unicode_columns(c: char) -> (columns: Option<usize>)
    ensures
        columns == column_width(c),
        columns is None <==> crate::strings::is_control_char(c),
        columns matches Some(n) ==> n <= 3,
        0x20 <= c as u32 <= 0x7e ==> columns == Some(1usize),
        c == '…' ==> columns == Some(1usize),
{
    unicode_width::UnicodeWidthChar::width(c)
}

/// The size of one cell, in pixels.
#[derive(Debug, Clone, Copy, PartialEq, Eq, Structural)]
pub struct Font {
    pub cell_width: u32,
    pub cell_height: u32,
}

impl Font {
    /// The text is short enough for its width in pixels to be a number.
    pub open spec fn can_draw(self, text: Seq<char>) -> bool {
        &&& 3 * (text.len() + 1) * self.cell_width <= u32::MAX
        &&& 3 * (text.len() + 1) <= u64::MAX
    }
}

impl Font {
    /// Whether the text is short enough for its width in pixels to be a number.
    pub fn fits(&self, text: &str) -> (b: bool)
        ensures
            b == self.can_draw(text@),
    {
        let n: usize = text.unicode_len();
        let cells: u128 = 3 * (n as u128 + 1);
        proof {
            assert(0 <= cells * self.cell_width <= 3 * (usize::MAX + 1) * u32::MAX)
                by (nonlinear_arith)
                requires
                    0 <= cells <= 3 * (usize::MAX + 1),
                    0 <= self.cell_width <= u32::MAX,
            ;
        }
        cells * self.cell_width as u128 <= u32::MAX as u128 && cells <= u64::MAX as u128
    }
}

/// Where text sits horizontally within a box.
#[derive(Debug, Clone, Copy, PartialEq, Eq, Structural)]
pub enum Align {
    Left,
    Center,
    Right,
}

/// Text placed in a box. Positions count half pixels, because centering halves.
#[derive(Debug, PartialEq)]
pub struct TextRun {
    /// The text that fits, with an ellipsis where it was cut.
    pub shown: String,
    /// Left edge, in half pixels.
    pub x2: i64,
    /// Top of the line box, in half pixels. The baseline is one ascent below it.
    pub top2: i64,
    /// Width of `shown`, in pixels.
    pub width: u32,
}

/// A text run as a mathematical value.
#[verifier::ext_equal]
pub struct RunModel {
    pub shown: Seq<char>,
    pub x2: int,
    pub top2: int,
    pub width: int,
}

impl View for TextRun {
    type V = RunModel;

    open spec fn view(&self) -> RunModel {
        RunModel {
            shown: self.shown@,
            x2: self.x2 as int,
            top2: self.top2 as int,
            width: self.width as int,
        }
    }
}

impl RunModel {
    /// How many cells a character occupies. Control and combining characters take none.
    pub open spec fn cells(c: char) -> int {
        match column_width(c) {
            Some(n) => n as int,
            None => 0,
        }
    }

    /// How many cells a text occupies.
    pub open spec fn text_cells(text: Seq<char>) -> int
        decreases text.len(),
    {
        if text.len() == 0 {
            0
        } else {
            RunModel::text_cells(text.drop_last()) + RunModel::cells(text.last())
        }
    }

    /// Width in pixels that `text` occupies.
    pub open spec fn measured(text: Seq<char>, cell_width: int) -> int {
        RunModel::text_cells(text) * cell_width
    }

    /// How many characters of `text`, from character `i` on, can be kept before one
    /// would pass the budget.
    pub open spec fn kept(text: Seq<char>, budget: int, cell_width: int, i: int) -> int
        decreases text.len() - i,
    {
        if i < 0 || i >= text.len() || RunModel::measured(text.take(i + 1), cell_width) > budget {
            i
        } else {
            RunModel::kept(text, budget, cell_width, i + 1)
        }
    }

    /// `text` shortened to fit `max_width`: unchanged when it fits, nothing when not
    /// even one character and an ellipsis would, and otherwise as many characters as
    /// leave a cell for the ellipsis.
    pub open spec fn truncated(text: Seq<char>, max_width: int, cell_width: int) -> Seq<char> {
        let budget = max_width - cell_width;
        if RunModel::measured(text, cell_width) <= max_width {
            text
        } else if budget <= 0 {
            Seq::empty()
        } else {
            text.take(RunModel::kept(text, budget, cell_width, 0)).push('…')
        }
    }

    /// The room left between the paddings of a box.
    pub open spec fn room(rect: Rect, padding: int) -> int {
        rect.width - 2 * padding
    }

    /// `text` in a box: truncated to the room between the paddings, aligned in it and
    /// centered vertically; nothing when there is no room.
    pub open spec fn boxed(
        text: Seq<char>,
        rect: Rect,
        padding: int,
        align: Align,
        font: Font,
    ) -> Option<RunModel> {
        if RunModel::room(rect, padding) <= 0 {
            None
        } else {
            let shown = RunModel::truncated(
                text,
                RunModel::room(rect, padding),
                font.cell_width as int,
            );
            let width = RunModel::measured(shown, font.cell_width as int);
            let inset2 = match align {
                Align::Left => 2 * padding,
                Align::Center => if rect.width - width >= 2 * padding {
                    rect.width - width
                } else {
                    2 * padding
                },
                Align::Right => if rect.width - width - padding >= padding {
                    2 * (rect.width - width - padding)
                } else {
                    2 * padding
                },
            };
            let slack2 = if rect.height >= font.cell_height {
                rect.height - font.cell_height
            } else {
                0
            };
            Some(RunModel { shown, x2: 2 * rect.x + inset2, top2: 2 * rect.y + slack2, width })
        }
    }

    /// The visible characters of `text` with the distance of each from the start:
    /// spaces and characters without a cell draw nothing, but spaces still advance.
    pub open spec fn pens(text: Seq<char>, cell_width: int) -> Seq<(char, int)>
        decreases text.len(),
    {
        if text.len() == 0 {
            Seq::empty()
        } else {
            let before = RunModel::pens(text.drop_last(), cell_width);
            if RunModel::cells(text.last()) == 0 || text.last() == ' ' {
                before
            } else {
                before.push((text.last(), RunModel::measured(text.drop_last(), cell_width)))
            }
        }
    }
}

/// How many cells a character occupies.
///
/// Control and combining characters report zero or nothing; treating them as zero
/// matches how the grid stores them.
pub fn char_cells(c: char) -> (n: u16)
    ensures
        n == RunModel::cells(c),
        n <= 3,
        c == '…' ==> n == 1,
        0x20 <= c as u32 <= 0x7e ==> n == 1,
{
    match unicode_columns(c) {
        Some(n) => n as u16,
        None => 0,
    }
}

/// How many cells the first `n` of `chars` occupy.
fn cells_of(chars: &Vec<char>, n: usize) -> (cells: u64)
    requires
        n <= chars.len(),
        3 * chars.len() <= u64::MAX,
    ensures
        cells == RunModel::text_cells(chars@.take(n as int)),
        cells <= 3 * n,
{
    let mut cells: u64 = 0;
    let mut i: usize = 0;
    assert(chars@.take(0) =~= Seq::<char>::empty());
    while i < n
        invariant
            i <= n <= chars.len(),
            3 * chars.len() <= u64::MAX,
            cells == RunModel::text_cells(chars@.take(i as int)),
            cells <= 3 * i,
        decreases n - i,
    {
        assert(chars@.take(i + 1).drop_last() =~= chars@.take(i as int));
        cells = cells + char_cells(chars[i]) as u64;
        i += 1;
    }
    cells
}

proof fn lemma_scaled(cells: int, n: int, cell_width: int)
    requires
        0 <= cells <= 3 * n,
        0 <= cell_width,
    ensures
        0 <= cells * cell_width <= 3 * n * cell_width,
{
    assert(0 <= cells * cell_width <= 3 * n * cell_width) by (nonlinear_arith)
        requires
            0 <= cells <= 3 * n,
            0 <= cell_width,
    ;
}

/// Width in pixels that `text` would occupy.
///
/// Counts wide characters as two cells, so a CJK tab title is measured correctly
/// rather than overflowing its tab.
pub fn measure(text: &str, cell_width: u32) -> (width: u32)
    requires
        3 * text@.len() * cell_width <= u32::MAX,
        3 * text@.len() <= u64::MAX,
    ensures
        width == RunModel::measured(text@, cell_width as int),
        width <= 3 * text@.len() * cell_width,
{
    let chars = chars_of(text);
    let cells: u64 = cells_of(&chars, chars.len());
    proof {
        assert(chars@.take(chars@.len() as int) =~= text@);
        lemma_scaled(cells as int, text@.len() as int, cell_width as int);
    }
    (cells * cell_width as u64) as u32
}

proof fn lemma_cells_push(text: Seq<char>, c: char)
    ensures
        RunModel::text_cells(text.push(c)) == RunModel::text_cells(text) + RunModel::cells(c),
{
    assert(text.push(c).drop_last() =~= text);
}

/// Shorten `text` so it fits `max_width`, appending an ellipsis when it does.
///
/// Returns the input itself when it already fits. The result never measures more than
/// `max_width`, unless there is no width to fit in at all.
pub fn truncate<'a>(text: &'a str, max_width: i64, cell_width: u32) -> (shown: Cow<'a, str>)
    requires
        3 * text@.len() * cell_width <= u32::MAX,
        3 * text@.len() <= u64::MAX,
        max_width >= i32::MIN,
    ensures
        shown@ == RunModel::truncated(text@, max_width as int, cell_width as int),
        max_width >= 0 ==> RunModel::measured(shown@, cell_width as int) <= max_width,
        shown@.len() <= text@.len() + 1,
        RunModel::measured(text@, cell_width as int) <= max_width ==> shown is Borrowed,
{
    let whole: u32 = measure(text, cell_width);
    if whole as i64 <= max_width {
        return Cow::Borrowed(text);
    }
    // Reserve room for the ellipsis, or the shortened text still overflows.
    let budget: i64 = max_width - cell_width as i64;
    if budget <= 0 {
        proof {
            reveal_strlit("");
            assert(""@ =~= Seq::<char>::empty());
            assert(0 * cell_width == 0);
        }
        return Cow::Borrowed("");
    }
    let chars = chars_of(text);
    let mut used: u64 = 0;
    let mut out: Vec<char> = Vec::new();
    let mut i: usize = 0;
    let mut open = true;
    proof {
        assert(text@.take(0) =~= Seq::<char>::empty());
        assert(0 * cell_width == 0);
    }
    while open && i < chars.len()
        invariant
            i <= chars.len(),
            chars@ == text@,
            3 * text@.len() * cell_width <= u32::MAX,
            3 * text@.len() <= u64::MAX,
            0 < budget <= i64::MAX,
            out@ == text@.take(i as int),
            used == RunModel::text_cells(out@),
            used <= 3 * i,
            used * cell_width <= budget,
            if open {
                RunModel::kept(text@, budget as int, cell_width as int, 0) == RunModel::kept(
                    text@,
                    budget as int,
                    cell_width as int,
                    i as int,
                )
            } else {
                RunModel::kept(text@, budget as int, cell_width as int, 0) == i
            },
        decreases chars.len() - i, (if open { 1int } else { 0int }),
    {
        let c = chars[i];
        let cells: u64 = char_cells(c) as u64;
        proof {
            assert(text@.take(i + 1) =~= text@.take(i as int).push(c));
            lemma_cells_push(text@.take(i as int), c);
            lemma_scaled(used + cells, i + 1, cell_width as int);
            assert(3 * (i + 1) * cell_width <= 3 * text@.len() * cell_width) by (nonlinear_arith)
                requires
                    i + 1 <= text@.len(),
            ;
        }
        if ((used + cells) * cell_width as u64) as i64 > budget {
            open = false;
        } else {
            used = used + cells;
            out.push(c);
            i += 1;
        }
    }
    out.push('…');
    let dots: u64 = char_cells('…') as u64;
    proof {
        lemma_cells_push(text@.take(i as int), '…');
        assert((used + dots) * cell_width == used * cell_width + cell_width) by (nonlinear_arith)
            requires
                dots == 1,
        ;
    }
    Cow::Owned(string_of(&out))
}

/// `text` in a box, truncated to fit and vertically centered.
///
/// Handles the three things that are easy to get subtly wrong: truncation, alignment,
/// and centering. `None` when the paddings leave no room. However long the text is, what
/// is placed stays between the paddings.
pub fn draw_in_box(text: &str, rect: Rect, padding: u32, align: Align, font: Font) -> (run: Option<
    TextRun,
>)
    requires
        font.can_draw(text@),
    ensures
        match run {
            Some(r) => RunModel::boxed(text@, rect, padding as int, align, font) == Some(r@),
            None => RunModel::boxed(text@, rect, padding as int, align, font) is None,
        },
        run matches Some(r) ==> {
            &&& r.width <= RunModel::room(rect, padding as int)
            &&& 2 * (rect.x + padding) <= r.x2
            &&& r.x2 + 2 * r.width <= 2 * (rect.x + rect.width - padding)
        },
{
    let room: i64 = rect.width as i64 - 2 * padding as i64;
    if room <= 0 {
        return None;
    }
    proof {
        assert(3 * text@.len() * font.cell_width <= 3 * (text@.len() + 1) * font.cell_width)
            by (nonlinear_arith);
    }
    let cut = truncate(text, room, font.cell_width);
    let shown: String = match cut {
        Cow::Borrowed(s) => s.to_owned(),
        Cow::Owned(s) => s,
    };
    proof {
        assert(3 * shown@.len() * font.cell_width <= 3 * (text@.len() + 1) * font.cell_width)
            by (nonlinear_arith)
            requires
                shown@.len() <= text@.len() + 1,
        ;
    }
    let width: u32 = measure(shown.as_str(), font.cell_width);
    let spare: i64 = rect.width as i64 - width as i64;
    let pad: i64 = padding as i64;
    let inset2: i64 = match align {
        Align::Left => 2 * pad,
        Align::Center => {
            if spare >= 2 * pad {
                spare
            } else {
                2 * pad
            }
        },
        Align::Right => {
            if spare - pad >= pad {
                2 * (spare - pad)
            } else {
                2 * pad
            }
        },
    };
    let slack2: i64 = rect.height.saturating_sub(font.cell_height) as i64;
    Some(
        TextRun {
            shown,
            x2: 2 * rect.x as i64 + inset2,
            top2: 2 * rect.y as i64 + slack2,
            width,
        },
    )
}

/// The visible characters of `text` with their distances from its start, and the width
/// of the whole.
pub fn draw(text: &str, cell_width: u32) -> (r: (Vec<(char, u32)>, u32))
    requires
        3 * text@.len() * cell_width <= u32::MAX,
        3 * text@.len() <= u64::MAX,
    ensures
        r.0@.len() == RunModel::pens(text@, cell_width as int).len(),
        forall|k: int|
            0 <= k < r.0@.len() ==> {
                &&& (#[trigger] r.0@[k]).0 == RunModel::pens(text@, cell_width as int)[k].0
                &&& r.0@[k].1 == RunModel::pens(text@, cell_width as int)[k].1
            },
        r.1 == RunModel::measured(text@, cell_width as int),
{
    let chars = chars_of(text);
    let mut pens: Vec<(char, u32)> = Vec::new();
    let mut used: u64 = 0;
    let mut i: usize = 0;
    proof {
        assert(text@.take(0) =~= Seq::<char>::empty());
    }
    while i < chars.len()
        invariant
            i <= chars.len(),
            chars@ == text@,
            3 * text@.len() * cell_width <= u32::MAX,
            3 * text@.len() <= u64::MAX,
            used == RunModel::text_cells(text@.take(i as int)),
            used <= 3 * i,
            pens@.len() == RunModel::pens(text@.take(i as int), cell_width as int).len(),
            forall|k: int|
                0 <= k < pens@.len() ==> {
                    &&& (#[trigger] pens@[k]).0 == RunModel::pens(
                        text@.take(i as int),
                        cell_width as int,
                    )[k].0
                    &&& pens@[k].1 == RunModel::pens(text@.take(i as int), cell_width as int)[k].1
                },
        decreases chars.len() - i,
    {
        let c = chars[i];
        let cells: u64 = char_cells(c) as u64;
        proof {
            assert(text@.take(i + 1).drop_last() =~= text@.take(i as int));
            lemma_scaled(used as int, i as int, cell_width as int);
            assert(3 * i * cell_width <= 3 * text@.len() * cell_width) by (nonlinear_arith)
                requires
                    i <= text@.len(),
            ;
        }
        if cells != 0 && c != ' ' {
            pens.push((c, (used * cell_width as u64) as u32));
        }
        used = used + cells;
        i += 1;
    }
    proof {
        assert(text@.take(text@.len() as int) =~= text@);
        lemma_scaled(used as int, text@.len() as int, cell_width as int);
    }
    (pens, (used * cell_width as u64) as u32)
}

/// Text that fits its box stays as it is, wherever it is aligned.
pub proof fn law_fitting_text_is_unchanged(
    text: Seq<char>,
    rect: Rect,
    padding: int,
    align: Align,
    font: Font,
)
    requires
        RunModel::room(rect, padding) > 0,
        RunModel::measured(text, font.cell_width as int) <= RunModel::room(rect, padding),
    ensures
        RunModel::boxed(text, rect, padding, align, font) matches Some(run) && run.shown == text,
{
}

/// Placed text stays between the paddings of its box, given that the text itself fits
/// the room.
pub proof fn law_text_stays_in_its_box(
    text: Seq<char>,
    rect: Rect,
    padding: int,
    align: Align,
    font: Font,
)
    requires
        0 <= padding,
        RunModel::boxed(text, rect, padding, align, font) matches Some(run) && 0 <= run.width
            <= RunModel::room(rect, padding),
    ensures
        RunModel::boxed(text, rect, padding, align, font) matches Some(run) && {
            &&& 2 * (rect.x + padding) <= run.x2
            &&& run.x2 + 2 * run.width <= 2 * (rect.x + rect.width - padding)
        },
{
}

} // verus!
