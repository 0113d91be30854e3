//! What the window looks like: strip heights, buttons, edges, titles and sizes.
//!
//! The window itself, the fonts and the pane layout belong to the caller. What they say
//! comes in as plain values.

use vstd::prelude::*;
use vstd::string::*;

use crate::decimal::{digits_of, Fixed};
use crate::scene::ChromeButton;
use crate::strings::{own, same_text};

verus! {

/// What a tab holds.
#[derive(Debug, Clone, Copy, PartialEq, Eq, Structural)]
pub enum TabKind {
    Terminal,
    Settings,
    Help,
    Plugins,
}

/// A direction to split, focus or resize in.
#[derive(Debug, Clone, Copy, PartialEq, Eq, Structural)]
pub enum Direction {
    Left,
    Right,
    Up,
    Down,
}

/// An edge or corner of the window.
#[derive(Debug, Clone, Copy, PartialEq, Eq, Structural)]
pub enum ResizeDirection {
    North,
    South,
    East,
    West,
    NorthEast,
    NorthWest,
    SouthEast,
    SouthWest,
}

/// A pointer shape other than the usual one.
#[derive(Debug, Clone, Copy, PartialEq, Eq, Structural)]
pub enum CursorShape {
    Edge(ResizeDirection),
    /// The grip that widens a column.
    Column,
}

/// What the compositor calls the window by. The desktop entry has the same name, or the
/// window would be shown as an unknown program.
pub const APP_ID: &'static str = "tuzminal";

/// Vertical inset inside the tab and status strips.
pub const CHROME_PADDING: u32 = 9;

/// Width of the invisible band along each window edge that resizes instead of
/// selecting. Without decorations a window would otherwise be stuck at one size.
pub const RESIZE_BORDER: i32 = 6;

/// How close to a divider a click counts as grabbing it.
pub const DIVIDER_GRAB: u32 = 4;

/// Preferred width of a tab, in pixels.
pub const TAB_WIDTH: u32 = 200;

/// Minimum width of a tab, in pixels.
pub const MIN_TAB_WIDTH: u32 = 70;

/// Width of a cell before fonts load, only used to pick an initial window size.
pub const BOOTSTRAP_WIDTH: u32 = 8;

/// Height of a cell before fonts load.
pub const BOOTSTRAP_HEIGHT: u32 = 17;

/// The size of a cell: the font's, or the assumed one before there is a font.
pub fn cell_size(font: Option<(u32, u32)>) -> (cell: (u32, u32))
    ensures
        cell == (match font {
            Some(c) => c,
            None => (BOOTSTRAP_WIDTH, BOOTSTRAP_HEIGHT),
        }),
{
    match font {
        Some(c) => c,
        None => (BOOTSTRAP_WIDTH, BOOTSTRAP_HEIGHT),
    }
}

pub open spec fn tab_bar(tab_count: nat, always_show: bool, cell_height: u32) -> int {
    if tab_count <= 1 && !always_show {
        0
    } else {
        cell_height + 2 * CHROME_PADDING
    }
}

/// Height of the tab bar, or zero when it is hidden: with a single tab, unless the user
/// asked otherwise. It scales with the font.
pub fn tab_bar_height(tab_count: usize, always_show: bool, cell_height: u32) -> (h: u32)
    requires
        cell_height + 2 * CHROME_PADDING <= u32::MAX,
    ensures
        h == tab_bar(tab_count as nat, always_show, cell_height),
{
    if tab_count <= 1 && !always_show {
        return 0;
    }
    cell_height + CHROME_PADDING * 2
}

pub open spec fn status_bar(
    kind: TabKind,
    enabled: bool,
    has_segments: bool,
    cell_height: u32,
) -> int {
    if kind is Terminal && (enabled || has_segments) {
        cell_height + CHROME_PADDING
    } else {
        0
    }
}

/// Height of the status bar, or zero.
///
/// A page without a terminal has nothing to report on. Elsewhere the configuration
/// decides, but a plugin that contributes segments forces the strip to appear.
pub fn status_bar_height(kind: TabKind, enabled: bool, has_segments: bool, cell_height: u32) -> (h:
    u32)
    requires
        cell_height + CHROME_PADDING <= u32::MAX,
    ensures
        h == status_bar(kind, enabled, has_segments, cell_height),
{
    if kind == TabKind::Settings || kind == TabKind::Help || kind == TabKind::Plugins {
        return 0;
    }
    if !enabled && !has_segments {
        return 0;
    }
    cell_height + CHROME_PADDING
}

pub open spec fn clamped(n: int, least: int, most: int) -> int {
    if n < least {
        least
    } else if n > most {
        most
    } else {
        n
    }
}

pub open spec fn sidebar(
    open: bool,
    kind: TabKind,
    cells: u16,
    least: u16,
    most: u16,
    cell_width: u32,
) -> int {
    if open && kind is Terminal {
        clamped(cells as int, least as int, most as int) * cell_width
    } else {
        0
    }
}

/// Width the sidebar occupies, in pixels; zero when it is closed.
///
/// Counted in cells so that it scales with the font. It shows beside terminals only:
/// everything it does reaches into a shell, and the pages have none.
pub fn sidebar_width(open: bool, kind: TabKind, cells: u16, least: u16, most: u16, cell_width: u32) -> (w:
    u32)
    requires
        least <= most,
        most * cell_width <= u32::MAX,
    ensures
        w == sidebar(open, kind, cells, least, most, cell_width),
{
    if !open || kind != TabKind::Terminal {
        return 0;
    }
    let kept: u16 = if cells < least {
        least
    } else if cells > most {
        most
    } else {
        cells
    };
    proof {
        vstd::arithmetic::mul::lemma_mul_inequality(kept as int, most as int, cell_width as int);
    }
    kept as u32 * cell_width
}

/// The sidebar's width in cells after dragging its right edge.
pub open spec fn dragged_cells(
    edge_x: int,
    left: int,
    cell_width: u32,
    least: u16,
    most: u16,
) -> int {
    let cell = if cell_width == 0 {
        1
    } else {
        cell_width as int
    };
    let across = edge_x - left;
    // Towards zero: a drag past the left edge is as narrow as it gets.
    let cells = if across >= 0 {
        across / cell
    } else {
        -((-across) / cell)
    };
    clamped(cells, least as int, most as int)
}

/// The sidebar's new width in cells while its right edge is dragged to `edge_x`, or
/// `None` when it does not change.
pub fn drag_sidebar(edge_x: i32, left: i32, cell_width: u32, current: u16, least: u16, most: u16) -> (cells:
    Option<u16>)
    requires
        least <= most,
        i32::MIN <= edge_x - left <= i32::MAX,
        cell_width <= i32::MAX,
    ensures
        match cells {
            Some(n) => n == dragged_cells(edge_x as int, left as int, cell_width, least, most) && n
                != current,
            None => current == dragged_cells(edge_x as int, left as int, cell_width, least, most),
        },
{
    let cell: i64 = if cell_width == 0 {
        1
    } else {
        cell_width as i64
    };
    let across: i64 = edge_x as i64 - left as i64;
    let wanted: i64 = if across >= 0 {
        across / cell
    } else {
        -((-across) / cell)
    };
    let kept: u16 = if wanted < least as i64 {
        least
    } else if wanted > most as i64 {
        most
    } else {
        wanted as u16
    };
    if kept == current {
        None
    } else {
        Some(kept)
    }
}

/// Which edges a point is near: top, bottom, left, right.
pub open spec fn near(x: int, y: int, width: int, height: int) -> (bool, bool, bool, bool) {
    (
        y <= RESIZE_BORDER,
        y >= height - RESIZE_BORDER,
        x <= RESIZE_BORDER,
        x >= width - RESIZE_BORDER,
    )
}

/// Which window edge or corner a point falls in: a corner when it is near two edges
/// that meet, an edge when it is near one, the top and the left taking precedence.
pub open spec fn edge_of(x: int, y: int, width: int, height: int) -> Option<ResizeDirection> {
    let (top, bottom, left, right) = near(x, y, width, height);
    if top && left {
        Some(ResizeDirection::NorthWest)
    } else if top && right {
        Some(ResizeDirection::NorthEast)
    } else if bottom && left {
        Some(ResizeDirection::SouthWest)
    } else if bottom && right {
        Some(ResizeDirection::SouthEast)
    } else if top {
        Some(ResizeDirection::North)
    } else if bottom {
        Some(ResizeDirection::South)
    } else if left {
        Some(ResizeDirection::West)
    } else if right {
        Some(ResizeDirection::East)
    } else {
        None
    }
}

/// Which window edge or corner a point falls in.
pub fn resize_edge_at(x: i32, y: i32, width: i32, height: i32) -> (edge: Option<ResizeDirection>)
    requires
        i32::MIN + RESIZE_BORDER <= width,
        i32::MIN + RESIZE_BORDER <= height,
    ensures
        edge == edge_of(x as int, y as int, width as int, height as int),
{
    let left = x <= RESIZE_BORDER;
    let right = x >= width - RESIZE_BORDER;
    let top = y <= RESIZE_BORDER;
    let bottom = y >= height - RESIZE_BORDER;
    if top && left {
        Some(ResizeDirection::NorthWest)
    } else if top && right {
        Some(ResizeDirection::NorthEast)
    } else if bottom && left {
        Some(ResizeDirection::SouthWest)
    } else if bottom && right {
        Some(ResizeDirection::SouthEast)
    } else if top {
        Some(ResizeDirection::North)
    } else if bottom {
        Some(ResizeDirection::South)
    } else if left {
        Some(ResizeDirection::West)
    } else if right {
        Some(ResizeDirection::East)
    } else {
        None
    }
}

/// Which edge of the window a press would drag, if any. None with decorations, where
/// the compositor's own frame handles it, and none while maximized.
pub fn resize_edge(decorations: bool, maximized: bool, x: i32, y: i32, width: i32, height: i32) -> (edge:
    Option<ResizeDirection>)
    requires
        i32::MIN + RESIZE_BORDER <= width,
        i32::MIN + RESIZE_BORDER <= height,
    ensures
        edge == (if decorations || maximized {
            None
        } else {
            edge_of(x as int, y as int, width as int, height as int)
        }),
{
    if decorations || maximized {
        return None;
    }
    resize_edge_at(x, y, width, height)
}

/// The corner radius in effect. Zero with decorations: the compositor owns the window's
/// outline then.
pub fn corner_radius(decorations: bool, radius: Fixed) -> (r: Fixed)
    ensures
        r@ == (if decorations || radius@ < 0 {
            0
        } else {
            radius@
        }),
{
    if decorations || radius.millionths < 0 {
        Fixed::from_millionths(0)
    } else {
        radius
    }
}

/// Width of the window outline, or zero where none is drawn.
///
/// With decorations the compositor draws the frame, and maximized the window edge is the
/// screen edge. Otherwise it is at most a quarter of the smaller dimension: a border
/// wide enough to meet itself would fill the window.
pub fn border_width(decorations: bool, maximized: bool, width: Fixed, size: (u32, u32)) -> (w: Fixed)
    ensures
        w@ == (if decorations || maximized {
            0
        } else {
            clamped(
                width@,
                0,
                (if size.0 <= size.1 {
                    size.0
                } else {
                    size.1
                }) * 250_000,
            )
        }),
{
    if decorations || maximized {
        return Fixed::from_millionths(0);
    }
    let smaller: u32 = if size.0 <= size.1 {
        size.0
    } else {
        size.1
    };
    // A quarter, in millionths.
    let limit: i64 = smaller as i64 * 250_000;
    if width.millionths < 0 {
        Fixed::from_millionths(0)
    } else if width.millionths > limit {
        Fixed::from_millionths(limit)
    } else {
        width
    }
}

/// The toolbar buttons whose panel is on screen.
pub open spec fn lit_buttons(sidebar_open: bool, kind: TabKind) -> Seq<ChromeButton> {
    (if sidebar_open {
        seq![ChromeButton::Explorer]
    } else {
        Seq::empty()
    }) + (if kind is Terminal {
        Seq::empty()
    } else {
        seq![ChromeButton::AppMenu]
    })
}

/// Toolbar buttons whose panel is on screen: a toggle has to show whether it is on.
pub fn active_buttons(sidebar_open: bool, kind: TabKind) -> (list: Vec<ChromeButton>)
    ensures
        list@ == lit_buttons(sidebar_open, kind),
{
    let mut list: Vec<ChromeButton> = Vec::new();
    if sidebar_open {
        list.push(ChromeButton::Explorer);
    }
    match kind {
        TabKind::Settings | TabKind::Help | TabKind::Plugins => {
            list.push(ChromeButton::AppMenu);
        },
        TabKind::Terminal => {},
    }
    assert(list@ =~= lit_buttons(sidebar_open, kind));
    list
}

pub open spec fn buttons(decorations: bool) -> Seq<ChromeButton> {
    (if decorations {
        Seq::empty()
    } else {
        seq![ChromeButton::Close, ChromeButton::Maximize, ChromeButton::Minimize]
    }) + seq![
        ChromeButton::AppMenu,
        ChromeButton::Explorer,
        ChromeButton::SplitDown,
        ChromeButton::SplitRight,
        ChromeButton::NewTab,
        ChromeButton::NewTabMenu,
    ]
}

/// Buttons for the tab strip, from right to left. Window controls appear only without
/// decorations: with them the compositor already draws a set.
pub fn chrome_buttons(decorations: bool) -> (list: Vec<ChromeButton>)
    ensures
        list@ == buttons(decorations),
{
    let mut list: Vec<ChromeButton> = Vec::new();
    if !decorations {
        list.push(ChromeButton::Close);
        list.push(ChromeButton::Maximize);
        list.push(ChromeButton::Minimize);
    }
    list.push(ChromeButton::AppMenu);
    list.push(ChromeButton::Explorer);
    list.push(ChromeButton::SplitDown);
    list.push(ChromeButton::SplitRight);
    list.push(ChromeButton::NewTab);
    list.push(ChromeButton::NewTabMenu);
    assert(list@ =~= buttons(decorations));
    list
}

/// The configuration and state the pane layout is computed from.
#[derive(Debug, Clone, Copy, PartialEq, Eq)]
pub struct LayoutInput {
    pub padding_x: u16,
    pub padding_y: u16,
    pub center_grid: bool,
    pub divider_width: u16,
    pub always_show_tab_bar: bool,
    pub status_enabled: bool,
    pub has_segments: bool,
    pub decorations: bool,
    pub tab_count: usize,
    pub kind: TabKind,
    pub sidebar_open: bool,
    pub sidebar_cells: u16,
    pub sidebar_least: u16,
    pub sidebar_most: u16,
    pub cell: (u32, u32),
}

/// What the pane layout is computed with.
#[derive(Debug, PartialEq, Eq)]
pub struct LayoutOptions {
    pub padding_x: u16,
    pub padding_y: u16,
    pub center_grid: bool,
    pub divider_width: u32,
    pub tab_bar_height: u32,
    pub status_bar_height: u32,
    pub sidebar_width: u32,
    pub tab_width: u32,
    pub min_tab_width: u32,
    pub buttons: Vec<ChromeButton>,
    pub cell: (u32, u32),
}

/// Gather what the pane layout is computed with.
pub fn layout_options(input: LayoutInput) -> (o: LayoutOptions)
    requires
        input.cell.1 + 2 * CHROME_PADDING <= u32::MAX,
        input.sidebar_least <= input.sidebar_most,
        input.sidebar_most * input.cell.0 <= u32::MAX,
    ensures
        o.padding_x == input.padding_x,
        o.padding_y == input.padding_y,
        o.center_grid == input.center_grid,
        o.divider_width == input.divider_width,
        o.tab_bar_height == tab_bar(
            input.tab_count as nat,
            input.always_show_tab_bar,
            input.cell.1,
        ),
        o.status_bar_height == status_bar(
            input.kind,
            input.status_enabled,
            input.has_segments,
            input.cell.1,
        ),
        o.sidebar_width == sidebar(
            input.sidebar_open,
            input.kind,
            input.sidebar_cells,
            input.sidebar_least,
            input.sidebar_most,
            input.cell.0,
        ),
        o.tab_width == TAB_WIDTH,
        o.min_tab_width == MIN_TAB_WIDTH,
        o.buttons@ == buttons(input.decorations),
        o.cell == input.cell,
{
    LayoutOptions {
        padding_x: input.padding_x,
        padding_y: input.padding_y,
        center_grid: input.center_grid,
        divider_width: input.divider_width as u32,
        tab_bar_height: tab_bar_height(
            input.tab_count,
            input.always_show_tab_bar,
            input.cell.1,
        ),
        status_bar_height: status_bar_height(
            input.kind,
            input.status_enabled,
            input.has_segments,
            input.cell.1,
        ),
        sidebar_width: sidebar_width(
            input.sidebar_open,
            input.kind,
            input.sidebar_cells,
            input.sidebar_least,
            input.sidebar_most,
            input.cell.0,
        ),
        tab_width: TAB_WIDTH,
        min_tab_width: MIN_TAB_WIDTH,
        buttons: chrome_buttons(input.decorations),
        cell: input.cell,
    }
}

pub open spec fn title_of(
    own_title: Option<&str>,
    kind: TabKind,
    program: Option<&str>,
    index: int,
) -> Seq<char> {
    match (own_title, kind, program) {
        (Some(title), _, _) => title@,
        (None, TabKind::Settings, _) => "Settings"@,
        (None, TabKind::Help, _) => "Shortcuts"@,
        (None, TabKind::Plugins, _) => "Plugins"@,
        (None, TabKind::Terminal, Some(title)) => if title@.len() > 0 {
            title@
        } else {
            crate::decimal::digits((index + 1) as nat)
        },
        (None, TabKind::Terminal, None) => crate::decimal::digits((index + 1) as nat),
    }
}

/// The label of tab `index`: the title it was given, else what it holds, else the title
/// its focused program reports, else its number, counted from one.
pub fn tab_title(own_title: Option<&str>, kind: TabKind, program: Option<&str>, index: usize) -> (title:
    String)
    requires
        index < usize::MAX,
    ensures
        title@ == title_of(own_title, kind, program, index as int),
{
    if let Some(title) = own_title {
        return title.to_owned();
    }
    match kind {
        TabKind::Settings => {
            return "Settings".to_owned();
        },
        TabKind::Help => {
            return "Shortcuts".to_owned();
        },
        TabKind::Plugins => {
            return "Plugins".to_owned();
        },
        TabKind::Terminal => {},
    }
    if let Some(title) = program {
        if title.unicode_len() != 0 {
            return title.to_owned();
        }
    }
    digits_of((index + 1) as u64)
}

/// The size of a window that shows the configured grid, before fonts are known.
pub fn initial_size(columns: u16, rows: u16, padding_x: u16, padding_y: u16) -> (size: (u32, u32))
    ensures
        size.0 == columns * BOOTSTRAP_WIDTH + 2 * padding_x,
        size.1 == rows * BOOTSTRAP_HEIGHT + 2 * padding_y,
{
    (
        columns as u32 * BOOTSTRAP_WIDTH + padding_x as u32 * 2,
        rows as u32 * BOOTSTRAP_HEIGHT + padding_y as u32 * 2,
    )
}

/// A terminal's size in cells, and a cell's in pixels.
#[derive(Debug, Clone, Copy, PartialEq, Eq, Structural)]
pub struct TermSize {
    pub columns: u16,
    pub rows: u16,
    pub cell_width: u16,
    pub cell_height: u16,
}

/// The size a shell starts with: its pane's grid once the layout has run, else the
/// configured one, which the next layout corrects.
pub fn spawn_size(pane: Option<(u16, u16)>, configured: (u16, u16), cell: (u32, u32)) -> (size: TermSize)
    ensures
        (size.columns, size.rows) == (match pane {
            Some(grid) => grid,
            None => configured,
        }),
        size.cell_width == cell.0 as u16,
        size.cell_height == cell.1 as u16,
{
    let grid = match pane {
        Some(g) => g,
        None => configured,
    };
    TermSize {
        columns: grid.0,
        rows: grid.1,
        cell_width: #[verifier::truncate] (cell.0 as u16),
        cell_height: #[verifier::truncate] (cell.1 as u16),
    }
}

/// The working directory that asks for the one of the pane that had focus.
pub const INHERIT_PANE: &'static str = "inherit_pane";

/// What a shell is started as, and where.
#[derive(Debug, PartialEq, Eq)]
pub struct ShellChoice {
    pub program: Option<String>,
    pub working_directory: Option<String>,
}

/// What a shell is started as, and where: as configured, but a program chosen from the
/// menu wins, and a pane's inherited directory takes the place of the word that asks for
/// it. Left without one, that word stays and means the home directory.
pub fn shell_choice(
    program: Option<&str>,
    working_directory: Option<&str>,
    chosen: Option<&str>,
    inherited: Option<&str>,
) -> (choice: ShellChoice)
    ensures
        crate::strings::text_of(choice.program) == (match chosen {
            Some(p) => Some(p@),
            None => crate::strings::str_of(program),
        }),
        crate::strings::text_of(choice.working_directory) == (match (working_directory, inherited) {
            (Some(dir), Some(cwd)) => if dir@ == INHERIT_PANE@ {
                Some(cwd@)
            } else {
                Some(dir@)
            },
            _ => crate::strings::str_of(working_directory),
        }),
{
    let program = match chosen {
        Some(p) => Some(p.to_owned()),
        None => own(program),
    };
    let working_directory = match (working_directory, inherited) {
        (Some(dir), Some(cwd)) => {
            if same_text(dir, INHERIT_PANE) {
                Some(cwd.to_owned())
            } else {
                Some(dir.to_owned())
            }
        },
        _ => own(working_directory),
    };
    ShellChoice { program, working_directory }
}

/// The newest size the compositor asked for, not yet acted on.
///
/// Dragging a window edge produces far more sizes than can be shown. Only the last one
/// is real, so the others are dropped and the work is done once per frame.
#[derive(Debug, Clone, Copy, PartialEq, Eq)]
pub struct PendingSize {
    pub size: Option<(u32, u32)>,
}

impl PendingSize {
    pub fn new() -> (p: Self)
        ensures
            p.size is None,
    {
        PendingSize { size: None }
    }

    /// Note a size. It replaces any earlier one.
    pub fn note(&mut self, width: u32, height: u32)
        ensures
            final(self).size == Some((width, height)),
    {
        self.size = Some((width, height));
    }

    /// The size to resize to now, if any. It is kept while there is no surface to
    /// resize, and dropped when the surface already has it.
    pub fn take(&mut self, surface: Option<(u32, u32)>) -> (size: Option<(u32, u32)>)
        ensures
            surface is None ==> size is None && *final(self) == *old(self),
            surface is Some ==> final(self).size is None && size == (if old(self).size == surface {
                None
            } else {
                old(self).size
            }),
    {
        let (w, h) = match surface {
            Some(current) => current,
            None => {
                return None;
            },
        };
        let wanted = self.size;
        self.size = None;
        match wanted {
            Some((width, height)) => {
                if width == w && height == h {
                    None
                } else {
                    Some((width, height))
                }
            },
            None => None,
        }
    }
}

/// The pointer's shape: the edge it would drag, else the sidebar's grip when it is over
/// that, else the usual one.
pub fn pointer_shape(edge: Option<ResizeDirection>, x: i32, sidebar_width: u32, sidebar_right: i32) -> (shape:
    Option<CursorShape>)
    requires
        i32::MIN < x - sidebar_right <= i32::MAX,
    ensures
        shape == (match edge {
            Some(e) => Some(CursorShape::Edge(e)),
            None => if sidebar_width > 0 && -(DIVIDER_GRAB as int) <= x - sidebar_right
                <= DIVIDER_GRAB {
                Some(CursorShape::Column)
            } else {
                None
            },
        }),
{
    if let Some(e) = edge {
        return Some(CursorShape::Edge(e));
    }
    let off: i64 = x as i64 - sidebar_right as i64;
    if sidebar_width > 0 && -(DIVIDER_GRAB as i64) <= off && off <= DIVIDER_GRAB as i64 {
        Some(CursorShape::Column)
    } else {
        None
    }
}

/// The window's own controls appear only without decorations. Everything else on the
/// toolbar is there either way.
pub proof fn law_controls_need_no_decorations(decorations: bool, button: ChromeButton)
    ensures
        (button is Close || button is Maximize || button is Minimize) ==> (buttons(
            decorations,
        ).contains(button) <==> !decorations),
        !(button is Close || button is Maximize || button is Minimize) ==> (buttons(
            decorations,
        ).contains(button) <==> buttons(!decorations).contains(button)),
{
    let plain = buttons(true);
    let full = buttons(false);
    assert(full.skip(3) =~= plain);
    assert forall|i: int| 0 <= i < plain.len() implies full[i + 3] == #[trigger] plain[i] by {
        assert(full.skip(3)[i] == plain[i]);
    }
    assert(full[0] is Close && full[1] is Maximize && full[2] is Minimize);
    if full.contains(button) {
        let k = choose|k: int| 0 <= k < full.len() && full[k] == button;
        if k >= 3 {
            assert(plain[k - 3] == button);
        }
    }
    if plain.contains(button) {
        let k = choose|k: int| 0 <= k < plain.len() && plain[k] == button;
        assert(full[k + 3] == button);
    }
}

/// Every edge of a window has a live band, and its middle has none.
pub proof fn law_every_edge_resizes(x: int, y: int, width: int, height: int)
    requires
        0 <= x < width,
        0 <= y < height,
    ensures
        (edge_of(x, y, width, height) is Some) == (x <= RESIZE_BORDER || y <= RESIZE_BORDER || x
            >= width - RESIZE_BORDER || y >= height - RESIZE_BORDER),
{
}

/// The outline never meets itself: it leaves room for the window inside it.
pub proof fn law_border_leaves_room(width: int, size: (u32, u32))
    requires
        size.0 > 0,
        size.1 > 0,
    ensures
        2 * clamped(
            width,
            0,
            (if size.0 <= size.1 {
                size.0
            } else {
                size.1
            }) * 250_000,
        ) < size.0 * 1_000_000,
        2 * clamped(
            width,
            0,
            (if size.0 <= size.1 {
                size.0
            } else {
                size.1
            }) * 250_000,
        ) < size.1 * 1_000_000,
{
}

} // verus!
