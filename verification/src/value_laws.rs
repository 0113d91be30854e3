//! What holds of strips, titles, texts, numbers, paths and rectangles.

use vstd::prelude::*;

use crate::geometry::Rect;
use crate::scene::ChromeButton;
use crate::text::{Align, Font, RunModel};
use crate::window::TabKind;

verus! {

/// The tab strip is a line of text with nine pixels above and below it, and is there once
/// there is a second tab or where it is asked for.
pub proof fn law_the_tab_strip(tabs: nat, always: bool, cell_height: u32)
    ensures
        crate::window::tab_bar(tabs, always, cell_height) == (if tabs >= 2 || always {
            cell_height + 18
        } else {
            0
        }),
{
}

/// The status bar is nine pixels higher than its line, and is there beside a terminal, for
/// what is configured or for what plugins have to say.
pub proof fn law_the_status_bar(kind: TabKind, enabled: bool, segments: bool, cell_height: u32)
    ensures
        ({
            let height = crate::window::status_bar(kind, enabled, segments, cell_height);
            &&& !(kind is Terminal) ==> height == 0
            &&& !enabled && !segments ==> height == 0
            &&& kind is Terminal && enabled ==> height == cell_height + 9
            &&& kind is Terminal && segments ==> height == cell_height + 9
        }),
{
}

/// The sidebar takes its width in whole cells, within its limits, and none beside a page or
/// while it is closed.
pub proof fn law_the_sidebar(
    open: bool,
    kind: TabKind,
    cells: u16,
    least: u16,
    most: u16,
    cell_width: u32,
)
    requires
        least <= most,
    ensures
        ({
            let width = crate::window::sidebar(open, kind, cells, least, most, cell_width);
            &&& !open || !(kind is Terminal) ==> width == 0
            &&& open && kind is Terminal ==> {
                &&& least <= cells <= most ==> width == cells * cell_width
                &&& cells < least ==> width == least * cell_width
                &&& most < cells ==> width == most * cell_width
            }
        }),
{
}

/// The toolbar, from right to left. A button is lit while what it opens is open.
pub proof fn law_the_toolbar(sidebar_open: bool, kind: TabKind)
    ensures
        crate::window::buttons(true) == seq![
            ChromeButton::AppMenu,
            ChromeButton::Explorer,
            ChromeButton::SplitDown,
            ChromeButton::SplitRight,
            ChromeButton::NewTab,
            ChromeButton::NewTabMenu,
        ],
        crate::window::buttons(false) == seq![
            ChromeButton::Close,
            ChromeButton::Maximize,
            ChromeButton::Minimize,
        ] + crate::window::buttons(true),
        crate::window::lit_buttons(sidebar_open, kind).contains(ChromeButton::Explorer)
            <==> sidebar_open,
        crate::window::lit_buttons(sidebar_open, kind).contains(ChromeButton::AppMenu)
            <==> !(kind is Terminal),
        forall|b: ChromeButton| #[trigger]
            crate::window::lit_buttons(sidebar_open, kind).contains(b) ==> b is Explorer
                || b is AppMenu,
{
    assert(crate::window::buttons(true) =~= seq![
        ChromeButton::AppMenu,
        ChromeButton::Explorer,
        ChromeButton::SplitDown,
        ChromeButton::SplitRight,
        ChromeButton::NewTab,
        ChromeButton::NewTabMenu,
    ]);
    assert(crate::window::buttons(false) =~= seq![
        ChromeButton::Close,
        ChromeButton::Maximize,
        ChromeButton::Minimize,
    ] + crate::window::buttons(true));
    let lit = crate::window::lit_buttons(sidebar_open, kind);
    if sidebar_open {
        assert(lit[0] is Explorer);
    }
    if !(kind is Terminal) {
        assert(lit[lit.len() - 1] is AppMenu);
    }
}

/// A tab's label: the title it was given; for a page, the page's name; for a terminal, the
/// title its program reports, and its number where that is empty or there is none.
pub proof fn law_tab_labels(own: &str, kind: TabKind, program: &str, index: int)
    requires
        0 <= index,
    ensures
        crate::window::title_of(Some(own), kind, Some(program), index) == own@,
        crate::window::title_of(Some(own), kind, None, index) == own@,
        crate::window::title_of(None, TabKind::Settings, Some(program), index) == "Settings"@,
        crate::window::title_of(None, TabKind::Help, Some(program), index) == "Shortcuts"@,
        crate::window::title_of(None, TabKind::Plugins, Some(program), index) == "Plugins"@,
        program@.len() > 0 ==> crate::window::title_of(
            None,
            TabKind::Terminal,
            Some(program),
            index,
        ) == program@,
        program@.len() == 0 ==> number(
            crate::window::title_of(None, TabKind::Terminal, Some(program), index),
        ) == index + 1,
        number(crate::window::title_of(None, TabKind::Terminal, None, index)) == index + 1,
{
    law_numbers_are_written_in_full((index + 1) as nat);
}

/// The number that a row of decimal digits stands for.
pub open spec fn number(text: Seq<char>) -> int
    decreases text.len(),
{
    if text.len() == 0 {
        0
    } else {
        10 * number(text.drop_last()) + (text.last() as int - 48)
    }
}

/// Every character is a decimal digit.
pub open spec fn all_digits(text: Seq<char>) -> bool {
    forall|i: int| 0 <= i < text.len() ==> 48 <= (#[trigger] text[i]) as int <= 57
}

/// A number is written in decimal digits that stand for it, without a leading zero.
pub proof fn law_numbers_are_written_in_full(n: nat)
    ensures
        number(crate::decimal::digits(n)) == n,
        all_digits(crate::decimal::digits(n)),
        crate::decimal::digits(n).len() > 0,
        n > 0 ==> crate::decimal::digits(n)[0] as int != 48,
    decreases n,
{
    let text = crate::decimal::digits(n);
    if n >= 10 {
        law_numbers_are_written_in_full(n / 10);
        let head = crate::decimal::digits(n / 10);
        assert(text.drop_last() =~= head);
        assert(text.last() as int == 48 + n % 10);
        assert(text[0] == head[0]);
        assert forall|i: int| 0 <= i < text.len() implies 48 <= (#[trigger] text[i]) as int
            <= 57 by {
            if i < head.len() {
                assert(text[i] == head[i]);
            }
        }
    } else {
        assert(text.drop_last() =~= Seq::empty());
        assert(text.last() as int == 48 + n);
        assert(number(text.drop_last()) == 0);
    }
}

/// A number written over a fixed width keeps its last digits.
pub proof fn law_padded_numbers(n: nat, width: nat)
    ensures
        crate::decimal::padded(n, width).len() == width,
        all_digits(crate::decimal::padded(n, width)),
        n < crate::decimal::pow10(width) ==> number(crate::decimal::padded(n, width)) == n,
    decreases width,
{
    if width > 0 {
        law_padded_numbers(n / 10, (width - 1) as nat);
        let text = crate::decimal::padded(n, width);
        let head = crate::decimal::padded(n / 10, (width - 1) as nat);
        assert(text.drop_last() =~= head);
        assert(text.last() as int == 48 + n % 10);
        assert forall|i: int| 0 <= i < text.len() implies 48 <= (#[trigger] text[i]) as int
            <= 57 by {
            if i < head.len() {
                assert(text[i] == head[i]);
            }
        }
        if n < crate::decimal::pow10(width) {
            assert(n / 10 < crate::decimal::pow10((width - 1) as nat));
        }
    }
}

/// Rounding goes to the nearest multiple, and to the even one where two are as near.
pub proof fn law_rounding_is_to_the_nearest(a: nat, scale: nat)
    requires
        scale > 0,
    ensures
        ({
            let q = crate::decimal::half_even(a, scale);
            &&& -(scale as int) <= 2 * (a - q * scale) <= scale
            &&& 2 * (a - q * scale) == scale || 2 * (q * scale - a) == scale ==> q % 2 == 0
        }),
{
    let q = a / scale;
    let r = a % scale;
    vstd::arithmetic::div_mod::lemma_fundamental_div_mod(a as int, scale as int);
    assert(a == q * scale + r) by (nonlinear_arith)
        requires
            a == scale * q + r,
    ;
    assert((q + 1) * scale == q * scale + scale) by (nonlinear_arith);
}

/// A text is as wide as its characters together: putting two side by side adds their
/// widths.
pub proof fn law_widths_add_up(a: Seq<char>, b: Seq<char>, cell_width: int)
    ensures
        RunModel::measured(a + b, cell_width) == RunModel::measured(a, cell_width)
            + RunModel::measured(b, cell_width),
        RunModel::measured(Seq::<char>::empty(), cell_width) == 0,
    decreases b.len(),
{
    if b.len() == 0 {
        assert(a + b =~= a);
        assert(0 * cell_width == 0);
    } else {
        law_widths_add_up(a, b.drop_last(), cell_width);
        assert((a + b).drop_last() =~= a + b.drop_last());
        let (p, q, c) = (
            RunModel::text_cells(a),
            RunModel::text_cells(b.drop_last()),
            RunModel::cells(b.last()),
        );
        lemma_cells_add(a, b.drop_last());
        assert((p + q + c) * cell_width == p * cell_width + (q + c) * cell_width)
            by (nonlinear_arith);
    }
    assert(RunModel::text_cells(Seq::empty()) * cell_width == 0);
}

proof fn lemma_cells_add(a: Seq<char>, b: Seq<char>)
    ensures
        RunModel::text_cells(a + b) == RunModel::text_cells(a) + RunModel::text_cells(b),
    decreases b.len(),
{
    if b.len() == 0 {
        assert(a + b =~= a);
    } else {
        lemma_cells_add(a, b.drop_last());
        assert((a + b).drop_last() =~= a + b.drop_last());
    }
}

/// Text that does not fit is cut: what is left begins as the text does and ends in an
/// ellipsis, and one character more of it would have been too much. Where there is not
/// even room for a cell beside the ellipsis, nothing is left.
pub proof fn law_long_text_is_cut(text: Seq<char>, max_width: int, cell_width: int)
    requires
        RunModel::measured(text, cell_width) > max_width,
        0 <= cell_width,
    ensures
        ({
            let cut = RunModel::truncated(text, max_width, cell_width);
            &&& max_width <= cell_width ==> cut == Seq::<char>::empty()
            &&& max_width > cell_width ==> {
                let n = cut.len() - 1;
                &&& 0 <= n < text.len()
                &&& cut == text.take(n).push('…')
                &&& RunModel::measured(text.take(n), cell_width) <= max_width - cell_width
                &&& RunModel::measured(text.take(n + 1), cell_width) > max_width - cell_width
            }
        }),
{
    if max_width > cell_width {
        let budget = max_width - cell_width;
        assert(text.take(0) =~= Seq::empty());
        law_widths_add_up(Seq::empty(), Seq::empty(), cell_width);
        lemma_kept(text, budget, cell_width, 0);
        assert(text.take(text.len() as int) =~= text);
    }
}

proof fn lemma_kept(text: Seq<char>, budget: int, cell_width: int, i: int)
    requires
        0 <= i <= text.len(),
        RunModel::measured(text.take(i), cell_width) <= budget,
        RunModel::measured(text, cell_width) > budget,
    ensures
        ({
            let n = RunModel::kept(text, budget, cell_width, i);
            &&& i <= n < text.len()
            &&& RunModel::measured(text.take(n), cell_width) <= budget
            &&& RunModel::measured(text.take(n + 1), cell_width) > budget
        }),
    decreases text.len() - i,
{
    if i >= text.len() {
        assert(text.take(i) =~= text);
    } else if RunModel::measured(text.take(i + 1), cell_width) <= budget {
        lemma_kept(text, budget, cell_width, i + 1);
    }
}

/// Text in a box begins at its left padding, ends at its right one, or is as far from one
/// as from the other; and it stands in the middle of the box's height.
pub proof fn law_text_is_aligned(text: Seq<char>, rect: Rect, padding: int, font: Font)
    requires
        0 <= padding,
        2 * padding < rect.width,
        0 <= RunModel::measured(text, font.cell_width as int) <= rect.width - 2 * padding,
        rect.height >= font.cell_height,
    ensures
        ({
            let left = RunModel::boxed(text, rect, padding, Align::Left, font);
            let center = RunModel::boxed(text, rect, padding, Align::Center, font);
            let right = RunModel::boxed(text, rect, padding, Align::Right, font);
            let width = RunModel::measured(text, font.cell_width as int);
            let middle = |run: RunModel|
                run.top2 - 2 * rect.y == 2 * (rect.y + rect.height) - (run.top2 + 2
                    * font.cell_height);
            &&& left is Some && center is Some && right is Some
            &&& left->0.shown == text && center->0.shown == text && right->0.shown == text
            &&& left->0.width == width && center->0.width == width && right->0.width == width
            &&& left->0.x2 == 2 * (rect.x + padding)
            &&& right->0.x2 + 2 * width == 2 * (rect.x + rect.width - padding)
            &&& center->0.x2 - 2 * rect.x == 2 * (rect.x + rect.width) - (center->0.x2 + 2 * width)
            &&& middle(left->0) && middle(center->0) && middle(right->0)
        }),
{
}

/// Every character that can be seen has a pen of its own: it stands behind everything that
/// comes before it, and none is left out.
pub proof fn law_pens_stand_behind_what_comes_before(
    before: Seq<char>,
    c: char,
    after: Seq<char>,
    cell_width: int,
)
    requires
        RunModel::cells(c) != 0,
        c != ' ',
    ensures
        RunModel::pens(before + seq![c] + after, cell_width).contains(
            (c, RunModel::measured(before, cell_width)),
        ),
    decreases after.len(),
{
    let text = before + seq![c] + after;
    let pens = RunModel::pens(text, cell_width);
    if after.len() == 0 {
        assert(text.drop_last() =~= before);
        assert(text.last() == c);
        assert(pens.last() == (c, RunModel::measured(before, cell_width)));
        assert(pens[pens.len() - 1] == pens.last());
    } else {
        law_pens_stand_behind_what_comes_before(before, c, after.drop_last(), cell_width);
        assert(text.drop_last() =~= before + seq![c] + after.drop_last());
        let fewer = RunModel::pens(text.drop_last(), cell_width);
        let k = choose|k: int|
            0 <= k < fewer.len() && fewer[k] == (c, RunModel::measured(before, cell_width));
        assert(pens[k] == fewer[k]);
    }
}

/// A relative path is put under its base, with one slash between them; an absolute one is
/// left as it is.
pub proof fn law_paths_are_joined(base: Seq<char>, rest: Seq<char>)
    ensures
        ({
            let path = crate::paths::joined(base, rest);
            let absolute = rest.len() > 0 && rest[0] == '/';
            &&& absolute ==> path == rest
            &&& !absolute ==> {
                &&& path.take(base.len() as int) == base
                &&& path.skip(path.len() - rest.len()) == rest
                &&& base.len() > 0 && base.last() != '/' ==> path.len() == base.len() + 1
                    + rest.len() && path[base.len() as int] == '/'
                &&& base.len() == 0 || base.last() == '/' ==> path.len() == base.len() + rest.len()
            }
        }),
{
    let path = crate::paths::joined(base, rest);
    if !(rest.len() > 0 && rest[0] == '/') {
        assert(path.take(base.len() as int) =~= base);
        assert(path.skip(path.len() - rest.len()) =~= rest);
    }
}

/// A rectangle has its first row and column and not the one past its last; it meets another
/// exactly when they have a point in common.
pub proof fn law_rectangles_hold_their_points(r: Rect, x: int, y: int)
    ensures
        r.width > 0 && r.height > 0 ==> r.has(r.x as int, r.y as int),
        r.has(x, y) ==> r.width > 0 && r.height > 0,
        !r.has(r.x + r.width, y),
        !r.has(x, r.y + r.height),
        !r.has(r.x - 1, y),
        !r.has(x, r.y - 1),
        r.x <= x && x < r.x + r.width && r.y <= y && y < r.y + r.height ==> r.has(x, y),
        r.right_spec() - r.x == r.width,
        r.bottom_spec() - r.y == r.height,
{
}

/// An inset rectangle leaves the same margin on opposite sides, until there is nothing
/// left of it.
pub proof fn law_insets_are_even(r: Rect, dx: u32, dy: u32)
    requires
        r.fits(),
        2 * dx <= r.width,
        2 * dy <= r.height,
    ensures
        ({
            let inner = r.inset_spec(dx, dy);
            &&& inner.x - r.x == dx
            &&& r.right_spec() - inner.right_spec() == dx
            &&& inner.y - r.y == dy
            &&& r.bottom_spec() - inner.bottom_spec() == dy
        }),
{
}

/// A path at home is shown from the tilde on, and any other as it is.
pub proof fn law_home_is_shortened(path: Seq<char>, home: Seq<char>)
    ensures
        crate::proc::displayed(path, None) == path,
        crate::paths::same_path(path, home) ==> crate::proc::displayed(path, Some(home)) == "~"@,
        !crate::paths::same_path(path, home) && crate::paths::below(path, home) is None
            ==> crate::proc::displayed(path, Some(home)) == path,
        !crate::paths::same_path(path, home) && crate::paths::below(path, home) is Some
            ==> crate::proc::displayed(path, Some(home)) == "~/"@ + crate::paths::below(
            path,
            home,
        )->0,
{
}

} // verus!
