//! A dropdown anchored to a toolbar button.
//!
//! One column of rows, one selection, no submenus. What it has to get right is staying
//! on screen when the button it hangs from is near an edge.

use vstd::prelude::*;
use vstd::string::*;

use crate::geometry::Rect;

verus! {

/// What an open menu is for, so the app knows what picking a row means.
#[derive(Debug, Clone, Copy, PartialEq, Eq, Structural)]
pub enum MenuKind {
    /// Values are shell paths.
    NewTabShell,
    /// Values name a page to open.
    AppMenu,
}

/// One row.
#[derive(Debug, Clone, PartialEq, Eq)]
pub struct MenuItem {
    pub label: String,
    /// What picking it means. The caller decides; the menu only carries it.
    pub value: String,
}

pub struct Menu {
    pub kind: MenuKind,
    pub items: Vec<MenuItem>,
    /// The row the keyboard is on, and the one a click lands on when it opens.
    pub selected: usize,
    /// The button this hangs from, so it can be re-anchored on a resize.
    pub anchor: Rect,
}

/// A menu as a mathematical value: each row is its label and its value.
#[verifier::ext_equal]
pub struct MenuModel {
    pub kind: MenuKind,
    pub items: Seq<(Seq<char>, Seq<char>)>,
    pub selected: int,
    pub anchor: Rect,
}

impl MenuModel {
    /// The selection moved, wrapping at both ends.
    pub open spec fn moved(self, delta: int) -> MenuModel {
        MenuModel {
            selected: if self.items.len() == 0 {
                self.selected
            } else {
                (self.selected + delta) % (self.items.len() as int)
            },
            ..self
        }
    }

    /// Small enough to be moved through by a number of rows.
    pub open spec fn wf(self) -> bool {
        self.items.len() <= i32::MAX && 0 <= self.selected <= i32::MAX
    }

    /// The rows of a menu at `rect` are representable.
    pub open spec fn rows_fit(self, rect: Rect, cell_height: u32) -> bool {
        &&& rect.x + PADDING <= i32::MAX
        &&& rect.y + PADDING + self.items.len() * (cell_height + ROW_PADDING) <= i32::MAX
        &&& cell_height + ROW_PADDING <= i32::MAX
        &&& i32::MIN + 8 <= rect.y
    }

    /// The menu's width: its longest label up to a limit, inside the window.
    pub open spec fn width_in(self, window: Rect, cell_width: u32) -> int {
        let columns = capped(widest(self.items, self.items.len() as int), MAX_COLUMNS as int);
        capped(columns * cell_width + 4 * PADDING, window.width as int)
    }

    /// The menu's height: all its rows, inside the window.
    pub open spec fn height_in(self, window: Rect, cell_height: u32) -> int {
        capped(
            (cell_height + ROW_PADDING) * self.items.len() + 2 * PADDING,
            window.height as int,
        )
    }

    /// Where the menu is drawn: below its button and left-aligned with it, above it when
    /// there is no room below, and pushed back inside the window sideways.
    pub open spec fn rect_in(self, window: Rect, cell: (u32, u32)) -> Rect {
        let width = self.width_in(window, cell.0);
        let height = self.height_in(window, cell.1);
        let below = self.anchor.bottom_spec();
        let y = if below + height <= window.bottom_spec() {
            below
        } else {
            raised(self.anchor.y - height, window.y as int)
        };
        let x = raised(capped(self.anchor.x as int, window.right_spec() - width), window.x as int);
        Rect { x: x as i32, y: y as i32, width: width as u32, height: height as u32 }
    }

    /// The menu's place is computable in pixels.
    pub open spec fn rect_fits(self, window: Rect, cell: (u32, u32)) -> bool {
        &&& window.fits()
        &&& self.anchor.fits()
        &&& 40 * cell.0 + 32 <= u32::MAX
        &&& cell.1 + ROW_PADDING <= u32::MAX
        &&& (cell.1 + ROW_PADDING) * self.items.len() + 16 <= u32::MAX
    }

    /// What picking the selected row means.
    pub open spec fn choice(self) -> Option<Seq<char>> {
        if 0 <= self.selected < self.items.len() {
            Some(self.items[self.selected].1)
        } else {
            None
        }
    }

    pub open spec fn rows(items: Seq<MenuItem>) -> Seq<(Seq<char>, Seq<char>)> {
        Seq::new(items.len(), |i: int| (items[i].label@, items[i].value@))
    }
}

impl View for Menu {
    type V = MenuModel;

    open spec fn view(&self) -> MenuModel {
        MenuModel {
            kind: self.kind,
            items: MenuModel::rows(self.items@),
            selected: self.selected as int,
            anchor: self.anchor,
        }
    }
}

/// Rows are one cell tall plus this much breathing room, matching a settings row.
pub const ROW_PADDING: u32 = 6;

/// Inset from the menu edge to its text.
pub const PADDING: u32 = 8;

/// Widest a menu gets, in characters, before labels are left to truncate.
pub const MAX_COLUMNS: u32 = 40;

/// The length of the longest of the first `n` labels.
pub open spec fn widest(items: Seq<(Seq<char>, Seq<char>)>, n: int) -> int
    decreases n,
{
    if n <= 0 {
        0
    } else {
        let len = items[n - 1].0.len() as int;
        if widest(items, n - 1) >= len {
            widest(items, n - 1)
        } else {
            len
        }
    }
}

pub open spec fn capped(n: int, most: int) -> int {
    if n <= most {
        n
    } else {
        most
    }
}

pub open spec fn raised(n: int, least: int) -> int {
    if n >= least {
        n
    } else {
        least
    }
}

impl Menu {
    /// Where the menu is drawn.
    pub open spec fn rect_in(self, window: Rect, cell: (u32, u32)) -> Rect {
        self@.rect_in(window, cell)
    }

    /// Row `index` of a menu drawn at `rect`.
    pub open spec fn row_in(rect: Rect, index: int, cell_height: u32) -> Rect {
        Rect {
            x: (rect.x + PADDING) as i32,
            y: (rect.y + PADDING + index * (cell_height + ROW_PADDING)) as i32,
            width: (if rect.width >= 2 * PADDING {
                rect.width - 2 * PADDING
            } else {
                0
            }) as u32,
            height: (cell_height + ROW_PADDING) as u32,
        }
    }

    /// The rows of a menu at `rect` are representable.
    pub open spec fn rows_fit(self, rect: Rect, cell_height: u32) -> bool {
        &&& rect.x + PADDING <= i32::MAX
        &&& rect.y + PADDING + self.items@.len() * (cell_height + ROW_PADDING) <= i32::MAX
        &&& cell_height + ROW_PADDING <= i32::MAX
        &&& i32::MIN + 8 <= rect.y
    }

    pub fn new(kind: MenuKind, anchor: Rect, items: Vec<MenuItem>) -> (menu: Self)
        ensures
            menu == (Menu { kind, items, selected: 0, anchor }),
    {
        Menu { kind, items, selected: 0, anchor }
    }

    /// The row the selection is on, if there is one.
    pub fn selected(&self) -> (item: Option<&MenuItem>)
        ensures
            item == (if self.selected < self.items@.len() {
                Some(&self.items@[self.selected as int])
            } else {
                None
            }),
    {
        if self.selected < self.items.len() {
            Some(&self.items[self.selected])
        } else {
            None
        }
    }

    /// Move the selection, wrapping at both ends.
    pub fn move_selection(&mut self, delta: i32)
        requires
            old(self).selected <= i32::MAX,
            old(self).items@.len() <= i32::MAX,
        ensures
            final(self)@ == old(self)@.moved(delta as int),
            final(self)@.wf(),
            final(self).kind == old(self).kind,
            final(self).items@ == old(self).items@,
            final(self).anchor == old(self).anchor,
            final(self).selected == (if old(self).items@.len() == 0 {
                old(self).selected as int
            } else {
                (old(self).selected + delta) % (old(self).items@.len() as int)
            }),
    {
        if self.items.len() == 0 {
            return ;
        }
        let len: i64 = self.items.len() as i64;
        let wanted: i64 = self.selected as i64 + delta as i64;
        // The remainder that is never negative.
        let next: i64 = if wanted >= 0 {
            wanted % len
        } else {
            let short: i64 = (-wanted) % len;
            if short == 0 {
                0
            } else {
                len - short
            }
        };
        proof {
            lemma_wrapped(wanted as int, len as int);
        }
        self.selected = next as usize;
    }

    /// The row height for a given cell height.
    pub fn row_height(cell_height: u32) -> (h: u32)
        requires
            cell_height + ROW_PADDING <= u32::MAX,
        ensures
            h == cell_height + ROW_PADDING,
    {
        cell_height + ROW_PADDING
    }

    /// Where the menu is drawn, given the window it has to stay inside.
    pub fn rect(&self, window: Rect, cell: (u32, u32)) -> (r: Rect)
        requires
            self@.rect_fits(window, cell),
        ensures
            r == self.rect_in(window, cell),
    {
        let row: u32 = Menu::row_height(cell.1);
        let mut longest: usize = 0;
        let mut i: usize = 0;
        while i < self.items.len()
            invariant
                i <= self.items@.len(),
                longest == widest(self@.items, i as int),
            decreases self.items@.len() - i,
        {
            let len: usize = self.items[i].label.as_str().unicode_len();
            if len > longest {
                longest = len;
            }
            i += 1;
        }
        let columns: u32 = if longest <= MAX_COLUMNS as usize {
            longest as u32
        } else {
            MAX_COLUMNS
        };
        proof {
            assert(columns * cell.0 <= 40 * cell.0) by (nonlinear_arith)
                requires
                    0 <= columns <= 40,
            ;
        }
        let wanted: u32 = columns * cell.0 + 4 * PADDING;
        let width: u32 = if wanted <= window.width {
            wanted
        } else {
            window.width
        };
        proof {
            assert(row * self.items@.len() == (cell.1 + ROW_PADDING) * self.items@.len());
            assert(self.items@.len() <= row * self.items@.len()) by (nonlinear_arith)
                requires
                    row >= 1,
            ;
        }
        let tall: u32 = row * self.items.len() as u32 + 2 * PADDING;
        let height: u32 = if tall <= window.height {
            tall
        } else {
            window.height
        };
        let below: i64 = self.anchor.bottom() as i64;
        let y: i64 = if below + height as i64 <= window.bottom() as i64 {
            below
        } else {
            let above: i64 = self.anchor.y as i64 - height as i64;
            if above >= window.y as i64 {
                above
            } else {
                window.y as i64
            }
        };
        let rightmost: i64 = window.right() as i64 - width as i64;
        let wish: i64 = if self.anchor.x as i64 <= rightmost {
            self.anchor.x as i64
        } else {
            rightmost
        };
        let x: i64 = if wish >= window.x as i64 {
            wish
        } else {
            window.x as i64
        };
        Rect::new(x as i32, y as i32, width, height)
    }

    /// Whether `rect` can be asked for the menu's place.
    pub fn can_place(&self, window: Rect, cell: (u32, u32)) -> (b: bool)
        ensures
            b == self@.rect_fits(window, cell),
    {
        let count: usize = self.items.len();
        let row: u128 = cell.1 as u128 + ROW_PADDING as u128;
        proof {
            lemma_row_offset(self.items@.len() as int, u64::MAX as int, row as int);
            assert(row * u64::MAX <= (u32::MAX + 6) * u64::MAX) by (nonlinear_arith)
                requires
                    0 <= row <= u32::MAX + 6,
            ;
        }
        let tall: u128 = count as u128 * row + 16;
        proof {
            assert(self.items@.len() * row == row * self.items@.len()) by (nonlinear_arith);
        }
        window.can_fit() && self.anchor.can_fit() && 40 * cell.0 as u64 + 32 <= u32::MAX as u64
            && row <= u32::MAX as u128 && tall <= u32::MAX as u128
    }

    /// Whether the rows of the menu at `rect` are representable.
    pub fn can_fit_rows(&self, rect: Rect, cell_height: u32) -> (b: bool)
        ensures
            b == self@.rows_fit(rect, cell_height),
    {
        let count: usize = self.items.len();
        let row: i128 = cell_height as i128 + ROW_PADDING as i128;
        proof {
            lemma_row_offset(self.items@.len() as int, u64::MAX as int, row as int);
            assert(row * u64::MAX <= (u32::MAX + 6) * u64::MAX) by (nonlinear_arith)
                requires
                    0 <= row <= u32::MAX + 6,
            ;
        }
        let tall: i128 = count as i128 * row;
        rect.x as i64 + PADDING as i64 <= i32::MAX as i64 && rect.y as i128 + PADDING as i128 + tall
            <= i32::MAX as i128 && row <= i32::MAX as i128 && i32::MIN + 8 <= rect.y
    }

    /// The rect of row `index` within `rect`.
    pub fn row_rect(&self, rect: Rect, index: usize, cell_height: u32) -> (r: Rect)
        requires
            self.rows_fit(rect, cell_height),
            index <= self.items@.len(),
        ensures
            r == Menu::row_in(rect, index as int, cell_height),
    {
        let row: u32 = Menu::row_height(cell_height);
        proof {
            lemma_row_offset(index as int, self.items@.len() as int, row as int);
        }
        let down: u64 = index as u64 * row as u64;
        Rect::new(
            (rect.x as i64 + PADDING as i64) as i32,
            (rect.y as i64 + PADDING as i64 + down as i64) as i32,
            rect.width.saturating_sub(2 * PADDING),
            row,
        )
    }

    /// The first of the first `n` rows under a point.
    pub open spec fn first_row_at(rect: Rect, cell_height: u32, x: int, y: int, n: int) -> Option<
        int,
    >
        decreases n,
    {
        if n <= 0 {
            None
        } else if Menu::first_row_at(rect, cell_height, x, y, n - 1) is Some {
            Menu::first_row_at(rect, cell_height, x, y, n - 1)
        } else if Menu::row_in(rect, n - 1, cell_height).has(x, y) {
            Some(n - 1)
        } else {
            None
        }
    }

    /// The row under a point, if any.
    pub fn row_at(&self, rect: Rect, cell_height: u32, x: i32, y: i32) -> (row: Option<usize>)
        requires
            self.rows_fit(rect, cell_height),
        ensures
            match row {
                Some(i) => i < self.items@.len() && Menu::first_row_at(
                    rect,
                    cell_height,
                    x as int,
                    y as int,
                    self.items@.len() as int,
                ) == Some(i as int),
                None => Menu::first_row_at(
                    rect,
                    cell_height,
                    x as int,
                    y as int,
                    self.items@.len() as int,
                ) is None,
            },
    {
        let mut i: usize = 0;
        while i < self.items.len()
            invariant
                i <= self.items@.len(),
                self.rows_fit(rect, cell_height),
                Menu::first_row_at(rect, cell_height, x as int, y as int, i as int) is None,
            decreases self.items@.len() - i,
        {
            if self.row_rect(rect, i, cell_height).contains(x, y) {
                proof {
                    lemma_first_row_stays(
                        rect,
                        cell_height,
                        x as int,
                        y as int,
                        i + 1,
                        self.items@.len() as int,
                    );
                }
                return Some(i);
            }
            i += 1;
        }
        None
    }
}

proof fn lemma_wrapped(n: int, len: int)
    requires
        0 < len,
    ensures
        n >= 0 ==> 0 <= n % len < len,
        n < 0 ==> n % len == (if (-n) % len == 0 {
            0
        } else {
            len - (-n) % len
        }),
{
    if n < 0 {
        let m = -n;
        let q = m / len;
        let r = m % len;
        vstd::arithmetic::div_mod::lemma_fundamental_div_mod(m, len);
        if r == 0 {
            assert(n == len * (-q) + 0) by (nonlinear_arith)
                requires
                    n == -(len * q),
            ;
            vstd::arithmetic::div_mod::lemma_fundamental_div_mod_converse(n, len, -q, 0);
        } else {
            assert(n == len * (-q - 1) + (len - r)) by (nonlinear_arith)
                requires
                    n == -(len * q + r),
            ;
            vstd::arithmetic::div_mod::lemma_fundamental_div_mod_converse(n, len, -q - 1, len - r);
        }
    }
}

proof fn lemma_row_offset(index: int, count: int, row: int)
    requires
        0 <= index <= count,
        0 <= row,
    ensures
        0 <= index * row <= count * row,
        index < count ==> index * row + row <= count * row,
{
    assert(0 <= index * row <= count * row) by (nonlinear_arith)
        requires
            0 <= index <= count,
            0 <= row,
    ;
    if index < count {
        assert(index * row + row <= count * row) by (nonlinear_arith)
            requires
                0 <= index < count,
                0 <= row,
        ;
    }
}

proof fn lemma_first_row_stays(rect: Rect, cell_height: u32, x: int, y: int, i: int, n: int)
    requires
        0 <= i <= n,
        Menu::first_row_at(rect, cell_height, x, y, i) is Some,
    ensures
        Menu::first_row_at(rect, cell_height, x, y, n) == Menu::first_row_at(
            rect,
            cell_height,
            x,
            y,
            i,
        ),
    decreases n,
{
    if i < n {
        lemma_first_row_stays(rect, cell_height, x, y, i, n - 1);
    }
}

/// A menu never leaves the window, wherever the button it hangs from is.
pub proof fn law_menu_stays_on_screen(menu: Menu, window: Rect, cell: (u32, u32))
    requires
        window.fits(),
        menu.anchor.fits(),
        window.y <= menu.anchor.bottom_spec(),
        menu.anchor.y <= window.bottom_spec(),
    ensures
        ({
            let r = menu.rect_in(window, cell);
            &&& window.x <= r.x
            &&& r.right_spec() <= window.right_spec()
            &&& window.y <= r.y
            &&& r.bottom_spec() <= window.bottom_spec()
        }),
{
    assert((cell.1 + ROW_PADDING) * menu.items@.len() >= 0) by (nonlinear_arith);
    let columns = capped(widest(menu@.items, menu.items@.len() as int), MAX_COLUMNS as int);
    lemma_widest(menu@.items, menu.items@.len() as int);
    assert(columns * cell.0 >= 0) by (nonlinear_arith)
        requires
            columns >= 0,
    ;
}

proof fn lemma_widest(items: Seq<(Seq<char>, Seq<char>)>, n: int)
    ensures
        widest(items, n) >= 0,
    decreases n,
{
    if n > 0 {
        lemma_widest(items, n - 1);
    }
}

/// Rows stack without gaps or overlap.
pub proof fn law_rows_meet(menu: Menu, rect: Rect, cell_height: u32, i: int)
    requires
        menu.rows_fit(rect, cell_height),
        0 <= i,
        i + 1 < menu.items@.len(),
    ensures
        Menu::row_in(rect, i, cell_height).bottom_spec() == Menu::row_in(
            rect,
            i + 1,
            cell_height,
        ).y,
{
    let row = cell_height + ROW_PADDING;
    lemma_row_offset(i, menu.items@.len() as int, row);
    lemma_row_offset(i + 1, menu.items@.len() as int, row);
    assert((i + 1) * row == i * row + row) by (nonlinear_arith);
}

/// Every row answers for every point it is drawn at.
pub proof fn law_rows_answer_where_drawn(
    menu: Menu,
    rect: Rect,
    cell_height: u32,
    i: int,
    x: int,
    y: int,
)
    requires
        menu.rows_fit(rect, cell_height),
        0 <= i < menu.items@.len(),
        Menu::row_in(rect, i, cell_height).has(x, y),
    ensures
        Menu::first_row_at(rect, cell_height, x, y, menu.items@.len() as int) == Some(i),
{
    lemma_no_earlier_row(menu, rect, cell_height, i, x, y, i);
    lemma_first_row_stays(rect, cell_height, x, y, i + 1, menu.items@.len() as int);
}

proof fn lemma_no_earlier_row(
    menu: Menu,
    rect: Rect,
    cell_height: u32,
    i: int,
    x: int,
    y: int,
    n: int,
)
    requires
        menu.rows_fit(rect, cell_height),
        0 <= n <= i < menu.items@.len(),
        Menu::row_in(rect, i, cell_height).has(x, y),
    ensures
        Menu::first_row_at(rect, cell_height, x, y, n) is None,
    decreases n,
{
    if n > 0 {
        lemma_no_earlier_row(menu, rect, cell_height, i, x, y, n - 1);
        let row = cell_height + ROW_PADDING;
        lemma_row_offset(n - 1, i, row);
        lemma_row_offset(n - 1, menu.items@.len() as int, row);
        lemma_row_offset(i, menu.items@.len() as int, row);
    }
}

/// A menu with rows that fit has room to the right of and below its corner.
pub(crate) proof fn lemma_rows_below(menu: MenuModel, rect: Rect, cell_height: u32)
    requires
        menu.rows_fit(rect, cell_height),
    ensures
        rect.x < i32::MAX,
        rect.y < i32::MAX,
{
    lemma_row_offset(0, menu.items.len() as int, cell_height + ROW_PADDING);
}

} // verus!
