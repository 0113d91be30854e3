//! Where a click, a movement and a turn of the wheel go.
//!
//! What lies under the pointer in the pane layout comes in as a value. A press goes to
//! the first of these that claims it: the band that resizes the window, an open
//! dropdown, a pressable status segment, the sidebar's grip, the sidebar, a page, the
//! toolbar, a tab, the title bar, a divider, and last a terminal.

use vstd::prelude::*;
use vstd::string::*;

use crate::action::MouseButton;
use crate::app::{App, AppModel, Pointer, TabDrag, TitleClick, World};
use crate::decimal::Fixed;
use crate::effect::{add_effect, add_effects, nothing, one, two, AfterSelect, Effect, EffectModel};
use crate::explorer::ExplorerModel;
use crate::geometry::Rect;
use crate::keys::Modifiers;
use crate::menu::MenuModel;
use crate::plugins::{PluginConfig, PluginConfigModel, PluginsModel};
use crate::scene::ChromeButton;
use crate::ui::{ActionModel, Ui, UiAction, UiModel};
use crate::window::{
    drag_sidebar, pointer_shape, resize_edge, CursorShape, ResizeDirection, TabKind, DIVIDER_GRAB,
    };

verus! {

/// What lies under the pointer.
#[derive(Debug, PartialEq, Eq)]
pub struct Hit {
    pub action: Option<ChromeButton>,
    /// The tab whose close button it is.
    pub tab_close: Option<usize>,
    pub tab: Option<usize>,
    /// The tab strip or the status bar.
    pub chrome: bool,
    /// A split divider, by its way down the splits.
    pub divider: Option<Vec<bool>>,
    pub pane: Option<u64>,
    /// The cell of that pane.
    pub cell: Option<(u16, u16)>,
    /// That pane runs a shell.
    pub has_session: bool,
    /// The program in that pane wants the mouse.
    pub wants_mouse: bool,
}

/// A split divider and which way it divides.
#[derive(Debug, PartialEq, Eq)]
pub struct DividerPlace {
    pub path: Vec<bool>,
    /// It divides left from right.
    pub horizontal: bool,
}

/// What the window and the last layout look like.
#[derive(Debug, PartialEq, Eq)]
pub struct Ground {
    /// There has been a layout.
    pub laid_out: bool,
    pub window: (u32, u32),
    pub decorations: bool,
    pub maximized: bool,
    /// The sidebar's column; its width is zero when it is closed.
    pub sidebar: Rect,
    /// The first pane, which a page fills.
    pub page: Option<Rect>,
    pub tab_bar: Rect,
    pub tab_count: usize,
    pub dividers: Vec<DividerPlace>,
    /// The sidebar's configured width in cells, and its limits.
    pub sidebar_cells: u16,
    pub sidebar_least: u16,
    pub sidebar_most: u16,
}

/// How far the pointer must move before a press becomes a drag. Without this a click
/// that wobbles would reorder the tabs.
pub const DRAG_THRESHOLD: i32 = 6;

/// How close together two title-bar presses must be to count as a double-click, in
/// microseconds.
pub const DOUBLE_CLICK: u64 = 400_000;

/// How far apart they may be, in pixels.
pub const DOUBLE_CLICK_SLOP: i32 = 4;

/// Distance between two coordinates.
pub open spec fn apart(a: int, b: int) -> int {
    if a >= b {
        a - b
    } else {
        b - a
    }
}

fn distance(a: i32, b: i32) -> (d: i64)
    ensures
        d == apart(a as int, b as int),
{
    if a >= b {
        a as i64 - b as i64
    } else {
        b as i64 - a as i64
    }
}

impl Ground {
    /// The measures are those of a window.
    pub open spec fn wf(self) -> bool {
        &&& self.window.0 <= i32::MAX
        &&& self.window.1 <= i32::MAX
        &&& self.sidebar.fits()
        &&& i32::MIN + 1 <= self.sidebar.x
        &&& self.sidebar_least <= self.sidebar_most
        &&& self.tab_bar.fits()
        &&& i32::MIN < self.tab_bar.y
    }

    /// Whether the measures are those of a window.
    pub fn is_sound(&self) -> (b: bool)
        ensures
            b == self.wf(),
    {
        self.window.0 <= i32::MAX as u32 && self.window.1 <= i32::MAX as u32
            && self.sidebar.can_fit() && i32::MIN < self.sidebar.x && self.sidebar_least
            <= self.sidebar_most && self.tab_bar.can_fit() && i32::MIN < self.tab_bar.y
    }

    /// The window edge a press would drag.
    pub open spec fn edge(self, x: int, y: int) -> Option<ResizeDirection> {
        if self.decorations || self.maximized {
            None
        } else {
            crate::window::edge_of(x, y, self.window.0 as int, self.window.1 as int)
        }
    }

    fn edge_at(&self, x: i32, y: i32) -> (edge: Option<ResizeDirection>)
        requires
            self.wf(),
        ensures
            edge == self.edge(x as int, y as int),
    {
        resize_edge(
            self.decorations,
            self.maximized,
            x,
            y,
            self.window.0 as i32,
            self.window.1 as i32,
        )
    }

    /// The sidebar's grip: a few pixels on either side of its right edge.
    pub open spec fn on_grip(self, x: int, y: int) -> bool {
        let edge = self.sidebar.right_spec();
        &&& self.sidebar.width > 0
        &&& apart(x, edge) <= DIVIDER_GRAB
        &&& self.sidebar.has(
            if x < edge - 1 {
                x
            } else {
                edge - 1
            },
            y,
        )
    }

    fn is_on_grip(&self, x: i32, y: i32) -> (b: bool)
        requires
            self.wf(),
        ensures
            b == self.on_grip(x as int, y as int),
    {
        if self.sidebar.width == 0 {
            return false;
        }
        let edge: i32 = self.sidebar.right();
        let inside: i32 = if x < edge - 1 {
            x
        } else {
            edge - 1
        };
        distance(x, edge) <= DIVIDER_GRAB as i64 && self.sidebar.contains(inside, y)
    }

    /// In the sidebar's column.
    pub open spec fn in_sidebar(self, x: int, y: int) -> bool {
        self.sidebar.width > 0 && self.sidebar.has(x, y)
    }

    /// On the page that fills the tab.
    pub open spec fn on_page(self, x: int, y: int) -> bool {
        self.page matches Some(r) && r.has(x, y)
    }

    fn is_on_page(&self, x: i32, y: i32) -> (b: bool)
        ensures
            b == self.on_page(x as int, y as int),
    {
        match &self.page {
            Some(r) => r.contains(x, y),
            None => false,
        }
    }
}

/// The first of the first `n` segments under a point.
pub open spec fn segment_at(list: Seq<(Seq<char>, Rect)>, x: int, y: int, n: int) -> Option<int>
    decreases n,
{
    if n <= 0 {
        None
    } else if segment_at(list, x, y, n - 1) is Some {
        segment_at(list, x, y, n - 1)
    } else if list[n - 1].1.has(x, y) {
        Some(n - 1)
    } else {
        None
    }
}

proof fn lemma_segment_stays(list: Seq<(Seq<char>, Rect)>, x: int, y: int, i: int, n: int)
    requires
        0 <= i <= n,
        segment_at(list, x, y, i) is Some,
    ensures
        segment_at(list, x, y, n) == segment_at(list, x, y, i),
    decreases n,
{
    if i < n {
        lemma_segment_stays(list, x, y, i, n - 1);
    }
}

impl AppModel {
    pub open spec fn at_pointer(self, p: Pointer) -> AppModel {
        AppModel { pointer: p, ..self }
    }

    pub open spec fn hit_segment(self, x: int, y: int) -> Option<int> {
        segment_at(self.ide_hits, x, y, self.ide_hits.len() as int)
    }

    /// The rows of a menu that is open can be found again.
    pub open spec fn menu_fits(self, cell_height: u32) -> bool {
        (self.menu is Some && self.menu_rect is Some) ==> self.menu->0.rows_fit(
            self.menu_rect->0,
            cell_height,
        )
    }

    /// The row of an open menu under a point.
    pub open spec fn menu_row(self, x: int, y: int, cell_height: u32) -> Option<int> {
        match (self.menu, self.menu_rect) {
            (Some(menu), Some(rect)) => crate::menu::Menu::first_row_at(
                rect,
                cell_height,
                x,
                y,
                menu.items.len() as int,
            ),
            _ => None,
        }
    }

    // --- pressing and releasing -------------------------------------------------

    /// Something is held down and looks it.
    pub open spec fn anything_pressed(self) -> bool {
        ||| self.pointer.pressed_button is Some
        ||| self.pointer.pressed_ide is Some
        ||| self.panel matches Some(ui) && ui.pressed is Some
        ||| self.plugins matches Some(page) && page.ui.pressed is Some
        ||| self.help matches Some(ui) && ui.pressed is Some
    }

    /// A released button ends every drag and every pressed look.
    pub open spec fn released(self) -> (AppModel, Seq<EffectModel>) {
        (
            AppModel {
                pointer: Pointer {
                    selecting: None,
                    dragging_sidebar: None,
                    dragging_tab: None,
                    pressed_button: None,
                    pressed_ide: None,
                    ..self.pointer
                },
                dragging: None,
                panel: match self.panel {
                    Some(ui) => Some(UiModel { pressed: None, ..ui }),
                    None => None,
                },
                plugins: match self.plugins {
                    Some(page) => Some(
                        PluginsModel { ui: UiModel { pressed: None, ..page.ui }, ..page },
                    ),
                    None => None,
                },
                help: match self.help {
                    Some(ui) => Some(UiModel { pressed: None, ..ui }),
                    None => None,
                },
                ..self
            },
            EffectModel::when(self.anything_pressed(), seq![EffectModel::Redraw])
                + EffectModel::when(
                self.pointer.dragging_tab matches Some(drag) && drag.active && drag.current
                    != drag.origin,
                seq![EffectModel::Redraw],
            ),
        )
    }

    /// A click at an open dropdown: inside it picks, outside it only dismisses.
    pub open spec fn menu_clicked(self, x: int, y: int, world: World) -> (
        AppModel,
        Seq<EffectModel>,
    ) {
        match (self.menu, self.menu_row(x, y, world.cell.1)) {
            (Some(menu), Some(row)) => AppModel {
                menu: Some(MenuModel { selected: row, ..menu }),
                ..self
            }.menu_picked(world),
            _ => self.menu_closed(),
        }
    }

    /// A click in the sidebar: it takes the keyboard, and the row under the pointer is
    /// selected, or activated when it already was.
    pub open spec fn sidebar_clicked(self, x: int, y: int) -> (AppModel, Seq<EffectModel>) {
        let focused = AppModel { sidebar_focused: true, ..self };
        match self.sidebar {
            None => (focused, seq![EffectModel::Redraw]),
            Some(e) => {
                let (ui, action) = e.ui.clicked(x, y);
                let clicked = ExplorerModel { ui, ..e };
                match action {
                    Some(ActionModel::Pressed(id)) => {
                        let (after, outcome) = clicked.clicked(id);
                        let (next, effects) = focused.explorer_step(after, outcome);
                        (next, effects + seq![EffectModel::Redraw])
                    },
                    _ => (
                        AppModel { sidebar: Some(clicked), ..focused },
                        seq![EffectModel::Redraw],
                    ),
                }
            },
        }
    }

    /// A click on the plugins page.
    pub open spec fn plugins_clicked(self, x: int, y: int, config: PluginConfigModel) -> (
        AppModel,
        Seq<EffectModel>,
    ) {
        match self.plugins {
            None => (self, seq![EffectModel::Redraw]),
            Some(page) => {
                let pressed = UiModel { pressed: page.ui.hit_spec(x, y), ..page.ui };
                let (ui, action) = pressed.clicked(x, y);
                let next = AppModel { plugins: Some(PluginsModel { ui, ..page }), ..self };
                match action {
                    Some(a) => next.plugins_acted(a, config),
                    None => (next, seq![EffectModel::Redraw]),
                }
            },
        }
    }

    /// A click on the settings page.
    pub open spec fn settings_clicked(self, x: int, y: int) -> (AppModel, Seq<EffectModel>) {
        match self.panel {
            None => (self, seq![EffectModel::Redraw]),
            Some(panel) => {
                let pressed = UiModel { pressed: panel.hit_spec(x, y), ..panel };
                let (ui, action) = pressed.clicked(x, y);
                (
                    AppModel { panel: Some(ui), ..self },
                    match action {
                        Some(a) => seq![EffectModel::PanelAction(a)],
                        None => seq![EffectModel::Redraw],
                    },
                )
            },
        }
    }

    /// A press on the empty title bar: a second one soon and close by maximizes the
    /// window, otherwise the window is moved.
    pub open spec fn title_pressed(self, x: i32, y: i32, decorations: bool, now: u64) -> (
        AppModel,
        Seq<EffectModel>,
    ) {
        if decorations {
            (self, Seq::empty())
        } else if self.pointer.last_title_click matches Some(last) && crate::timing::elapsed(
            last.at,
            now,
        ) < DOUBLE_CLICK && apart(x as int, last.x as int) <= DOUBLE_CLICK_SLOP && apart(
            y as int,
            last.y as int,
        ) <= DOUBLE_CLICK_SLOP {
            (
                self.at_pointer(Pointer { last_title_click: None, ..self.pointer }),
                seq![EffectModel::ToggleMaximize],
            )
        } else {
            (
                self.at_pointer(
                    Pointer {
                        last_title_click: Some(TitleClick { at: now, x, y }),
                        ..self.pointer
                    },
                ),
                seq![EffectModel::DragWindow],
            )
        }
    }

    /// A button in a terminal. The program has it if it wants the mouse; shift always
    /// gives it back to the terminal. The middle button pastes.
    pub open spec fn pane_mouse(self, button: MouseButton, pressed: bool, hit: Hit, mods: Modifiers) -> (
        AppModel,
        Seq<EffectModel>,
    ) {
        match (hit.pane, hit.cell) {
            (Some(pane), Some((col, row))) => if hit.wants_mouse && !mods.shift {
                (
                    self,
                    EffectModel::when(
                        hit.has_session,
                        seq![EffectModel::ReportMouse(pane, button, pressed, col, row)],
                    ),
                )
            } else {
                let starts = button is Left && pressed && hit.has_session;
                (
                    if starts {
                        self.at_pointer(Pointer { selecting: Some(pane), ..self.pointer })
                    } else {
                        self
                    },
                    EffectModel::when(starts, seq![EffectModel::StartSelection(pane, col, row)])
                        + EffectModel::when(
                        button is Middle && pressed,
                        seq![EffectModel::PasteClipboard],
                    ) + seq![EffectModel::Redraw],
                )
            },
            _ => (self, Seq::empty()),
        }
    }

    /// A press that no overlay and no page claimed.
    pub open spec fn window_pressed(
        self,
        button: MouseButton,
        hit: Hit,
        mods: Modifiers,
        ground: Ground,
        world: World,
        now: u64,
    ) -> (AppModel, Seq<EffectModel>) {
        let p = self.pointer;
        if let Some(action) = hit.action {
            let (next, effects) = self.at_pointer(
                Pointer { pressed_button: Some(action), ..p },
            ).button_pressed(action, world);
            (
                next,
                if action is Close {
                    effects
                } else {
                    effects + seq![EffectModel::Redraw]
                },
            )
        } else if hit.tab_close is Some && p.hovered_tab == hit.tab_close {
            // Only the hovered tab shows a close button, so only it can be clicked.
            (
                self.at_pointer(Pointer { hovered_tab: None, ..p }),
                seq![EffectModel::CloseTab(hit.tab_close->0)],
            )
        } else if let Some(index) = hit.tab {
            (
                self.at_pointer(
                    Pointer {
                        dragging_tab: Some(
                            TabDrag {
                                origin: index,
                                current: index,
                                start_x: p.x,
                                active: false,
                            },
                        ),
                        ..p
                    },
                ),
                seq![EffectModel::SelectTab(index, AfterSelect::Activate)],
            )
        } else if hit.chrome {
            if button is Left {
                self.title_pressed(p.x, p.y, ground.decorations, now)
            } else {
                (self, Seq::empty())
            }
        } else if let Some(path) = hit.divider {
            (AppModel { dragging: Some(path@), ..self }, Seq::empty())
        } else if let Some(pane) = hit.pane {
            let (next, effects) = self.unfocused();
            AppModel::after(
                seq![EffectModel::FocusPane(pane)] + effects,
                next.pane_mouse(button, true, hit, mods),
            )
        } else {
            (self, Seq::empty())
        }
    }

    /// A button pressed or released, the drags it ends aside.
    pub open spec fn mouse_routed(
        self,
        button: MouseButton,
        pressed: bool,
        hit: Hit,
        mods: Modifiers,
        ground: Ground,
        world: World,
        config: PluginConfigModel,
        now: u64,
    ) -> (AppModel, Seq<EffectModel>) {
        let p = self.pointer;
        let (x, y) = (p.x as int, p.y as int);
        let left = button is Left && pressed;
        if left && ground.edge(x, y) is Some {
            (self, seq![EffectModel::ResizeWindow(ground.edge(x, y)->0)])
        } else if pressed && self.menu is Some {
            self.menu_clicked(x, y, world)
        } else if left && self.hit_segment(x, y) is Some {
            let i = self.hit_segment(x, y)->0;
            (
                self.at_pointer(Pointer { pressed_ide: Some(i as usize), ..p }),
                seq![EffectModel::ClickSegment(self.ide_hits[i].0), EffectModel::Redraw],
            )
        } else if left && ground.on_grip(x, y) {
            (
                self.at_pointer(
                    Pointer {
                        dragging_sidebar: Some((x - ground.sidebar.right_spec()) as i32),
                        ..p
                    },
                ),
                Seq::empty(),
            )
        } else if pressed && ground.in_sidebar(x, y) {
            self.sidebar_clicked(x, y)
        } else if self.plugins_active(world) && ground.on_page(x, y) {
            if pressed {
                self.plugins_clicked(x, y, config)
            } else {
                (self, Seq::empty())
            }
        } else if self.settings_active(world) && ground.on_page(x, y) {
            if pressed {
                self.settings_clicked(x, y)
            } else {
                (self, Seq::empty())
            }
        } else if pressed {
            self.window_pressed(button, hit, mods, ground, world, now)
        } else {
            self.pane_mouse(button, false, hit, mods)
        }
    }

    /// A button pressed or released.
    pub open spec fn mouse_button(
        self,
        button: MouseButton,
        pressed: bool,
        hit: Hit,
        mods: Modifiers,
        ground: Ground,
        world: World,
        config: PluginConfigModel,
        now: u64,
    ) -> (AppModel, Seq<EffectModel>) {
        if !ground.laid_out {
            (self, Seq::empty())
        } else if pressed {
            self.mouse_routed(button, true, hit, mods, ground, world, config, now)
        } else {
            let (ended, effects) = self.released();
            AppModel::after(
                effects,
                ended.mouse_routed(button, false, hit, mods, ground, world, config, now),
            )
        }
    }

    // --- movement ---------------------------------------------------------------

    /// The menu's selection follows the pointer; outside the rows it stays.
    pub open spec fn menu_hovered(self, x: int, y: int, cell_height: u32) -> (
        AppModel,
        Seq<EffectModel>,
    ) {
        match (self.menu, self.menu_row(x, y, cell_height)) {
            (Some(menu), Some(row)) => if menu.selected != row {
                (
                    AppModel { menu: Some(MenuModel { selected: row, ..menu }), ..self },
                    seq![EffectModel::Redraw],
                )
            } else {
                (self, Seq::empty())
            },
            _ => (self, Seq::empty()),
        }
    }

    /// A page told where the pointer is: nowhere, unless it is the one on screen and
    /// the pointer is on it.
    pub open spec fn pointed(ui: UiModel, here: bool, x: int, y: int) -> UiModel {
        UiModel {
            hover: if here {
                ui.hit_spec(x, y)
            } else {
                ui.hit_spec(i32::MIN as int, i32::MIN as int)
            },
            ..ui
        }
    }

    /// The pages, the toolbar, the tabs and the segments, told where the pointer is.
    pub open spec fn hovered(self, x: int, y: int, hit: Hit, ground: Ground, kind: TabKind) -> AppModel {
        let on = ground.on_page(x, y);
        AppModel {
            panel: match self.panel {
                Some(ui) => Some(AppModel::pointed(ui, on && kind is Settings, x, y)),
                None => None,
            },
            plugins: match self.plugins {
                Some(page) => Some(
                    PluginsModel {
                        ui: AppModel::pointed(page.ui, on && kind is Plugins, x, y),
                        ..page
                    },
                ),
                None => None,
            },
            help: match self.help {
                Some(ui) => Some(AppModel::pointed(ui, on && kind is Help, x, y)),
                None => None,
            },
            pointer: if ground.laid_out {
                Pointer {
                    hovered_ide: match self.hit_segment(x, y) {
                        Some(i) => Some(i as usize),
                        None => None,
                    },
                    hovered_button: hit.action,
                    hovered_tab: hit.tab,
                    hovered_close: hit.tab_close is Some,
                    ..self.pointer
                }
            } else {
                self.pointer
            },
            ..self
        }
    }

    /// What is drawn differs by what the pointer is over.
    pub open spec fn looks_different(self, other: AppModel) -> bool {
        ||| self.panel matches Some(ui) && ui.hover != other.panel->0.hover
        ||| self.plugins matches Some(page) && page.ui.hover != other.plugins->0.ui.hover
        ||| self.help matches Some(ui) && ui.hover != other.help->0.hover
        ||| self.pointer.hovered_ide != other.pointer.hovered_ide
        ||| self.pointer.hovered_button != other.pointer.hovered_button
        ||| self.pointer.hovered_tab != other.pointer.hovered_tab
        ||| self.pointer.hovered_close != other.pointer.hovered_close
    }

    /// The tab a drag is over: past the last one means the end, before the first the
    /// start.
    pub open spec fn drag_target(x: int, strip_tab: Option<usize>, ground: Ground, current: usize) -> int {
        match strip_tab {
            Some(index) => index as int,
            None => if x >= ground.tab_bar.right_spec() {
                if ground.tab_count == 0 {
                    0
                } else {
                    ground.tab_count - 1
                }
            } else if x <= ground.tab_bar.x {
                0
            } else {
                current as int
            },
        }
    }

    /// A tab dragged along the strip. It follows once the pointer has really moved.
    pub open spec fn tab_dragged(self, drag: TabDrag, x: int, strip_tab: Option<usize>, ground: Ground) -> (
        AppModel,
        Seq<EffectModel>,
    ) {
        if !drag.active && apart(x, drag.start_x as int) < DRAG_THRESHOLD || !ground.laid_out {
            (self, Seq::empty())
        } else {
            let next = TabDrag { active: true, ..drag };
            let target = AppModel::drag_target(x, strip_tab, ground, drag.current);
            (
                self.at_pointer(Pointer { dragging_tab: Some(next), ..self.pointer }),
                EffectModel::when(
                    target != drag.current,
                    seq![EffectModel::MoveTab(drag.current, target as usize)],
                ),
            )
        }
    }

    /// A divider dragged to the pointer.
    pub open spec fn divider_dragged(path: Seq<bool>, ground: Ground) -> Seq<EffectModel> {
        match divider_with(ground.dividers@, path, ground.dividers@.len() as int) {
            Some(i) => if !ground.laid_out {
                Seq::empty()
            } else if ground.dividers@[i].horizontal {
                seq![EffectModel::DragDivider(path, true, at_least_one(ground.window.0))]
            } else {
                seq![EffectModel::DragDivider(path, false, at_least_one(ground.window.1))]
            },
            None => Seq::empty(),
        }
    }

    /// The pointer's shape where it is.
    pub open spec fn shape_at(x: int, y: int, ground: Ground) -> Option<CursorShape> {
        match ground.edge(x, y) {
            Some(e) => Some(CursorShape::Edge(e)),
            None => if ground.laid_out && ground.sidebar.width > 0 && apart(
                x,
                ground.sidebar.right_spec(),
            ) <= DIVIDER_GRAB {
                Some(CursorShape::Column)
            } else {
                None
            },
        }
    }

    /// The drags, once the hovering is done.
    pub open spec fn dragged(
        self,
        x: i32,
        y: i32,
        strip_tab: Option<usize>,
        selection_cell: Option<(u16, u16)>,
        ground: Ground,
    ) -> (AppModel, Seq<EffectModel>) {
        match (self.pointer.dragging_tab, self.dragging, self.pointer.selecting, selection_cell) {
            (Some(drag), _, _, _) => self.tab_dragged(drag, x as int, strip_tab, ground),
            (None, Some(path), _, _) => (self, AppModel::divider_dragged(path, ground)),
            (None, None, Some(pane), Some((col, row))) => (
                self,
                seq![EffectModel::UpdateSelection(pane, col, row), EffectModel::Redraw],
            ),
            _ => (self, Seq::empty()),
        }
    }

    /// The pointer moved.
    pub open spec fn moved_to(
        self,
        x: i32,
        y: i32,
        hit: Hit,
        strip_tab: Option<usize>,
        selection_cell: Option<(u16, u16)>,
        ground: Ground,
        world: World,
    ) -> (AppModel, Seq<EffectModel>) {
        let there = self.at_pointer(Pointer { x, y, ..self.pointer });
        if self.menu is Some {
            // A dropdown has claimed the next click: nothing behind it reacts.
            there.menu_hovered(x as int, y as int, world.cell.1)
        } else {
            let shape = AppModel::shape_at(x as int, y as int, ground);
            let shaped = there.at_pointer(Pointer { shape, ..there.pointer });
            let first = EffectModel::when(
                shape != self.pointer.shape,
                seq![EffectModel::PointerShape(shape)],
            );
            match self.pointer.dragging_sidebar {
                Some(offset) => {
                    let cells = crate::window::dragged_cells(
                        x - offset,
                        ground.sidebar.x as int,
                        world.cell.0,
                        ground.sidebar_least,
                        ground.sidebar_most,
                    );
                    (
                        shaped,
                        first + EffectModel::when(
                            ground.laid_out && cells != ground.sidebar_cells,
                            seq![EffectModel::SidebarCells(cells as u16), EffectModel::Redraw],
                        ),
                    )
                },
                None => {
                    let over = shaped.hovered(x as int, y as int, hit, ground, world.kind);
                    AppModel::after(
                        first + EffectModel::when(
                            shaped.looks_different(over),
                            seq![EffectModel::Redraw],
                        ),
                        over.dragged(x, y, strip_tab, selection_cell, ground),
                    )
                },
            }
        }
    }
}

pub open spec fn at_least_one(n: u32) -> u32 {
    if n == 0 {
        1
    } else {
        n
    }
}

/// The first of the first `n` dividers with this way down the splits.
pub open spec fn divider_with(list: Seq<DividerPlace>, path: Seq<bool>, n: int) -> Option<int>
    decreases n,
{
    if n <= 0 {
        None
    } else if divider_with(list, path, n - 1) is Some {
        divider_with(list, path, n - 1)
    } else if list[n - 1].path@ == path {
        Some(n - 1)
    } else {
        None
    }
}

proof fn lemma_divider_stays(list: Seq<DividerPlace>, path: Seq<bool>, i: int, n: int)
    requires
        0 <= i <= n,
        divider_with(list, path, i) is Some,
    ensures
        divider_with(list, path, n) == divider_with(list, path, i),
    decreases n,
{
    if i < n {
        lemma_divider_stays(list, path, i, n - 1);
    }
}

fn same_path(a: &Vec<bool>, b: &Vec<bool>) -> (same: bool)
    ensures
        same == (a@ == b@),
{
    if a.len() != b.len() {
        return false;
    }
    let mut i: usize = 0;
    while i < a.len()
        invariant
            i <= a@.len(),
            a@.len() == b@.len(),
            forall|j: int| 0 <= j < i ==> a@[j] == b@[j],
        decreases a@.len() - i,
    {
        if a[i] != b[i] {
            assert(a@[i as int] != b@[i as int]);
            return false;
        }
        i += 1;
    }
    assert(a@ =~= b@);
    true
}

fn copy_path(path: &Vec<bool>) -> (copy: Vec<bool>)
    ensures
        copy@ == path@,
{
    let mut copy: Vec<bool> = Vec::new();
    let mut i: usize = 0;
    while i < path.len()
        invariant
            i <= path@.len(),
            copy@ =~= path@.take(i as int),
        decreases path@.len() - i,
    {
        copy.push(path[i]);
        i += 1;
    }
    assert(path@.take(i as int) =~= path@);
    copy
}

/// A vertical position held inside the tab strip, so that a drag that wanders into the
/// panes still finds tabs.
pub fn strip_y(y: i32, tab_bar: Rect) -> (held: i32)
    requires
        tab_bar.fits(),
        tab_bar.height > 0,
    ensures
        held == crate::window::clamped(y as int, tab_bar.y as int, tab_bar.bottom_spec() - 1),
{
    let last: i32 = tab_bar.bottom() - 1;
    if y < tab_bar.y {
        tab_bar.y
    } else if y > last {
        last
    } else {
        y
    }
}

impl App {
    fn find_segment(&self, x: i32, y: i32) -> (i: Option<usize>)
        ensures
            match (i, self@.hit_segment(x as int, y as int)) {
                (Some(k), Some(at)) => k == at && k < self.ide_hits@.len(),
                (None, None) => true,
                _ => false,
            },
    {
        let ghost list = crate::app::hits(self.ide_hits@);
        let mut i: usize = 0;
        while i < self.ide_hits.len()
            invariant
                i <= self.ide_hits@.len(),
                list == crate::app::hits(self.ide_hits@),
                segment_at(list, x as int, y as int, i as int) is None,
            decreases self.ide_hits@.len() - i,
        {
            assert(list[i as int].1 == self.ide_hits@[i as int].1);
            if self.ide_hits[i].1.contains(x, y) {
                proof {
                    lemma_segment_stays(list, x as int, y as int, i + 1, list.len() as int);
                }
                return Some(i);
            }
            i += 1;
        }
        None
    }

    /// Whether the rows of an open menu are representable where it was drawn.
    pub fn can_fit_menu(&self, cell_height: u32) -> (b: bool)
        ensures
            b == self@.menu_fits(cell_height),
    {
        match (&self.menu, self.menu_rect) {
            (Some(menu), Some(rect)) => menu.can_fit_rows(rect, cell_height),
            _ => true,
        }
    }

    fn find_menu_row(&self, x: i32, y: i32, cell_height: u32) -> (row: Option<usize>)
        requires
            self@.menu_fits(cell_height),
            self@.wf(),
        ensures
            match (row, self@.menu_row(x as int, y as int, cell_height)) {
                (Some(k), Some(at)) => k == at && k <= i32::MAX,
                (None, None) => true,
                _ => false,
            },
    {
        match (&self.menu, self.menu_rect) {
            (Some(menu), Some(rect)) => menu.row_at(rect, cell_height, x, y),
            _ => None,
        }
    }

    /// End every drag and every pressed look.
    fn release(&mut self) -> (effects: Vec<Effect>)
        requires
            old(self)@.wf(),
        ensures
            (final(self)@, EffectModel::all(effects@)) == old(self)@.released(),
            final(self)@.wf(),
    {
        let mut cleared = self.pointer.pressed_button.is_some()
            || self.pointer.pressed_ide.is_some();
        if let Some(ui) = &mut self.panel {
            if ui.set_pressed(None) {
                cleared = true;
            }
        }
        if let Some(page) = &mut self.plugins_page {
            if page.ui.set_pressed(None) {
                cleared = true;
            }
        }
        if let Some(page) = &mut self.help {
            if page.ui.set_pressed(None) {
                cleared = true;
            }
        }
        let drag = self.pointer.dragging_tab;
        self.pointer.selecting = None;
        self.pointer.dragging_sidebar = None;
        self.pointer.dragging_tab = None;
        self.pointer.pressed_button = None;
        self.pointer.pressed_ide = None;
        self.dragging = None;
        let mut effects = nothing();
        if cleared {
            add_effect(&mut effects, Effect::Redraw);
        }
        if let Some(d) = drag {
            if d.active && d.current != d.origin {
                add_effect(&mut effects, Effect::Redraw);
            }
        }
        assert(EffectModel::all(effects@) =~= old(self)@.released().1);
        effects
    }

    fn click_menu(&mut self, x: i32, y: i32, world: &World) -> (effects: Vec<Effect>)
        requires
            old(self)@.wf(),
            old(self)@.menu_fits(world.cell.1),
        ensures
            (final(self)@, EffectModel::all(effects@)) == old(self)@.menu_clicked(
                x as int,
                y as int,
                *world,
            ),
            final(self)@.wf(),
    {
        match self.find_menu_row(x, y, world.cell.1) {
            Some(row) => {
                if let Some(menu) = &mut self.menu {
                    menu.selected = row;
                }
                self.pick_menu_item(world)
            },
            None => self.close_menu(),
        }
    }

    fn click_sidebar(&mut self, x: i32, y: i32) -> (effects: Vec<Effect>)
        requires
            old(self)@.wf(),
        ensures
            (final(self)@, EffectModel::all(effects@)) == old(self)@.sidebar_clicked(
                x as int,
                y as int,
            ),
            final(self)@.wf(),
    {
        self.sidebar_focused = true;
        let outcome = match &mut self.sidebar {
            Some(explorer) => match explorer.ui.click(x, y) {
                Some(UiAction::Pressed(id)) => Some(explorer.click_row(id)),
                _ => None,
            },
            None => None,
        };
        match outcome {
            Some(o) => {
                let mut effects = self.handle_explorer_outcome(o);
                add_effect(&mut effects, Effect::Redraw);
                assert(EffectModel::all(effects@) =~= old(self)@.sidebar_clicked(
                    x as int,
                    y as int,
                ).1);
                effects
            },
            None => one(Effect::Redraw),
        }
    }

    fn click_plugins(&mut self, x: i32, y: i32, config: PluginConfig) -> (effects: Vec<Effect>)
        requires
            old(self)@.wf(),
        ensures
            (final(self)@, EffectModel::all(effects@)) == old(self)@.plugins_clicked(
                x as int,
                y as int,
                config@,
            ),
            final(self)@.wf(),
    {
        let action = match &mut self.plugins_page {
            Some(page) => {
                let hit = page.ui.hit(x, y);
                page.ui.set_pressed(hit);
                page.ui.click(x, y)
            },
            None => None,
        };
        match action {
            Some(a) => self.handle_plugins_action(&a, config),
            None => one(Effect::Redraw),
        }
    }

    fn click_settings(&mut self, x: i32, y: i32) -> (effects: Vec<Effect>)
        requires
            old(self)@.wf(),
        ensures
            (final(self)@, EffectModel::all(effects@)) == old(self)@.settings_clicked(
                x as int,
                y as int,
            ),
            final(self)@.wf(),
    {
        let action = match &mut self.panel {
            Some(ui) => {
                let hit = ui.hit(x, y);
                ui.set_pressed(hit);
                ui.click(x, y)
            },
            None => None,
        };
        match action {
            Some(a) => one(Effect::PanelAction(a)),
            None => one(Effect::Redraw),
        }
    }

    /// A press on the empty title bar.
    pub fn press_title_bar(&mut self, x: i32, y: i32, decorations: bool, now: u64) -> (effects: Vec<
        Effect,
    >)
        ensures
            (final(self)@, EffectModel::all(effects@)) == old(self)@.title_pressed(
                x,
                y,
                decorations,
                now,
            ),
            old(self)@.wf() ==> final(self)@.wf(),
    {
        if decorations {
            return nothing();
        }
        let double = match self.pointer.last_title_click {
            Some(last) => now.saturating_sub(last.at) < DOUBLE_CLICK && distance(x, last.x)
                <= DOUBLE_CLICK_SLOP as i64 && distance(y, last.y) <= DOUBLE_CLICK_SLOP as i64,
            None => false,
        };
        if double {
            self.pointer.last_title_click = None;
            one(Effect::ToggleMaximize)
        } else {
            self.pointer.last_title_click = Some(TitleClick { at: now, x, y });
            one(Effect::DragWindow)
        }
    }

    fn mouse_in_pane(&mut self, button: MouseButton, pressed: bool, hit: &Hit, mods: Modifiers) -> (effects:
        Vec<Effect>)
        ensures
            (final(self)@, EffectModel::all(effects@)) == old(self)@.pane_mouse(
                button,
                pressed,
                *hit,
                mods,
            ),
            old(self)@.wf() ==> final(self)@.wf(),
    {
        let pane: u64 = match hit.pane {
            Some(p) => p,
            None => {
                return nothing();
            },
        };
        let (col, row) = match hit.cell {
            Some(c) => c,
            None => {
                return nothing();
            },
        };
        if hit.wants_mouse && !mods.shift {
            if hit.has_session {
                return one(Effect::ReportMouse(pane, button, pressed, col, row));
            }
            return nothing();
        }
        let mut effects = nothing();
        if button == MouseButton::Left && pressed && hit.has_session {
            self.pointer.selecting = Some(pane);
            add_effect(&mut effects, Effect::StartSelection(pane, col, row));
        }
        if button == MouseButton::Middle && pressed {
            add_effect(&mut effects, Effect::PasteClipboard);
        }
        add_effect(&mut effects, Effect::Redraw);
        assert(EffectModel::all(effects@) =~= old(self)@.pane_mouse(button, pressed, *hit, mods).1);
        effects
    }

    fn press_in_window(
        &mut self,
        button: MouseButton,
        hit: &Hit,
        mods: Modifiers,
        ground: &Ground,
        world: &World,
        now: u64,
    ) -> (effects: Vec<Effect>)
        requires
            old(self)@.wf(),
        ensures
            (final(self)@, EffectModel::all(effects@)) == old(self)@.window_pressed(
                button,
                *hit,
                mods,
                *ground,
                *world,
                now,
            ),
            final(self)@.wf(),
    {
        if let Some(action) = hit.action {
            self.pointer.pressed_button = Some(action);
            let mut effects = self.press_chrome_button(action, world);
            if action != ChromeButton::Close {
                add_effect(&mut effects, Effect::Redraw);
            }
            assert(EffectModel::all(effects@) =~= old(self)@.window_pressed(
                button,
                *hit,
                mods,
                *ground,
                *world,
                now,
            ).1);
            return effects;
        }
        if let Some(index) = hit.tab_close {
            if self.pointer.hovered_tab == Some(index) {
                self.pointer.hovered_tab = None;
                return one(Effect::CloseTab(index));
            }
        }
        if let Some(index) = hit.tab {
            self.pointer.dragging_tab = Some(
                TabDrag { origin: index, current: index, start_x: self.pointer.x, active: false },
            );
            return one(Effect::SelectTab(index, AfterSelect::Activate));
        }
        if hit.chrome {
            if button == MouseButton::Left {
                return self.press_title_bar(
                    self.pointer.x,
                    self.pointer.y,
                    ground.decorations,
                    now,
                );
            }
            return nothing();
        }
        if let Some(path) = &hit.divider {
            self.dragging = Some(copy_path(path));
            return nothing();
        }
        if let Some(pane) = hit.pane {
            // Clicking into a terminal is the clearest statement that typing goes there.
            let mut effects = one(Effect::FocusPane(pane));
            let more = self.unfocus_explorer();
            add_effects(&mut effects, more);
            let rest = self.mouse_in_pane(button, true, hit, mods);
            add_effects(&mut effects, rest);
            assert(EffectModel::all(effects@) =~= old(self)@.window_pressed(
                button,
                *hit,
                mods,
                *ground,
                *world,
                now,
            ).1);
            return effects;
        }
        nothing()
    }

    fn route_mouse(
        &mut self,
        button: MouseButton,
        pressed: bool,
        hit: &Hit,
        mods: Modifiers,
        ground: &Ground,
        world: &World,
        config: PluginConfig,
        now: u64,
    ) -> (effects: Vec<Effect>)
        requires
            old(self)@.wf(),
            old(self)@.menu_fits(world.cell.1),
            ground.wf(),
        ensures
            (final(self)@, EffectModel::all(effects@)) == old(self)@.mouse_routed(
                button,
                pressed,
                *hit,
                mods,
                *ground,
                *world,
                config@,
                now,
            ),
            final(self)@.wf(),
    {
        let x: i32 = self.pointer.x;
        let y: i32 = self.pointer.y;
        let left = button == MouseButton::Left && pressed;
        // The band that resizes comes before everything: it runs along all four edges,
        // and whatever claimed a click first would take the edge with it.
        if left {
            if let Some(edge) = ground.edge_at(x, y) {
                return one(Effect::ResizeWindow(edge));
            }
        }
        if pressed && self.menu.is_some() {
            return self.click_menu(x, y, world);
        }
        if left {
            if let Some(i) = self.find_segment(x, y) {
                self.pointer.pressed_ide = Some(i);
                let id = self.ide_hits[i].0.clone();
                assert(crate::app::hits(self.ide_hits@)[i as int].0 == id@);
                return two(Effect::ClickSegment(id), Effect::Redraw);
            }
            if ground.is_on_grip(x, y) {
                let offset: i64 = x as i64 - ground.sidebar.right() as i64;
                self.pointer.dragging_sidebar = Some(offset as i32);
                return nothing();
            }
        }
        if pressed && ground.sidebar.width > 0 && ground.sidebar.contains(x, y) {
            return self.click_sidebar(x, y);
        }
        if self.plugins_active(world) && ground.is_on_page(x, y) {
            if pressed {
                return self.click_plugins(x, y, config);
            }
            return nothing();
        }
        if self.settings_active(world) && ground.is_on_page(x, y) {
            if pressed {
                return self.click_settings(x, y);
            }
            return nothing();
        }
        if pressed {
            self.press_in_window(button, hit, mods, ground, world, now)
        } else {
            self.mouse_in_pane(button, false, hit, mods)
        }
    }

    /// Handle a button that was pressed or released where the pointer is. `config` is
    /// which plugins are configured to run.
    pub fn on_mouse_button(
        &mut self,
        button: MouseButton,
        pressed: bool,
        hit: &Hit,
        mods: Modifiers,
        ground: &Ground,
        world: &World,
        config: PluginConfig,
        now: u64,
    ) -> (effects: Vec<Effect>)
        requires
            old(self)@.wf(),
            old(self)@.menu_fits(world.cell.1),
            ground.wf(),
        ensures
            (final(self)@, EffectModel::all(effects@)) == old(self)@.mouse_button(
                button,
                pressed,
                *hit,
                mods,
                *ground,
                *world,
                config@,
                now,
            ),
            final(self)@.wf(),
    {
        if !ground.laid_out {
            return nothing();
        }
        if pressed {
            return self.route_mouse(button, true, hit, mods, ground, world, config, now);
        }
        let ghost lists = config@;
        let mut effects = self.release();
        let more = self.route_mouse(button, false, hit, mods, ground, world, config, now);
        add_effects(&mut effects, more);
        effects
    }

    /// Move the menu's selection to the row under the pointer.
    fn hover_menu(&mut self, x: i32, y: i32, cell_height: u32) -> (effects: Vec<Effect>)
        requires
            old(self)@.wf(),
            old(self)@.menu_fits(cell_height),
        ensures
            (final(self)@, EffectModel::all(effects@)) == old(self)@.menu_hovered(
                x as int,
                y as int,
                cell_height,
            ),
            final(self)@.wf(),
    {
        if let Some(row) = self.find_menu_row(x, y, cell_height) {
            if let Some(menu) = &mut self.menu {
                if menu.selected != row {
                    menu.selected = row;
                    return one(Effect::Redraw);
                }
            }
        }
        nothing()
    }

    /// Recompute what the pointer is over. Returns whether anything changed.
    pub fn update_hover(&mut self, x: i32, y: i32, hit: &Hit, ground: &Ground, kind: TabKind) -> (changed:
        bool)
        requires
            old(self)@.wf(),
        ensures
            final(self)@ == old(self)@.hovered(x as int, y as int, *hit, *ground, kind),
            changed == old(self)@.looks_different(final(self)@),
            final(self)@.wf(),
    {
        let on = ground.is_on_page(x, y);
        let mut changed = false;
        if let Some(ui) = &mut self.panel {
            if point(ui, on && kind == TabKind::Settings, x, y) {
                changed = true;
            }
        }
        if let Some(page) = &mut self.plugins_page {
            if point(&mut page.ui, on && kind == TabKind::Plugins, x, y) {
                changed = true;
            }
        }
        if let Some(page) = &mut self.help {
            if point(&mut page.ui, on && kind == TabKind::Help, x, y) {
                changed = true;
            }
        }
        if !ground.laid_out {
            return changed;
        }
        let segment = self.find_segment(x, y);
        let close = hit.tab_close.is_some();
        if segment != self.pointer.hovered_ide || hit.action != self.pointer.hovered_button
            || hit.tab != self.pointer.hovered_tab || close != self.pointer.hovered_close {
            changed = true;
        }
        self.pointer.hovered_ide = segment;
        self.pointer.hovered_button = hit.action;
        self.pointer.hovered_tab = hit.tab;
        self.pointer.hovered_close = close;
        changed
    }

    /// Reorder tabs as a drag passes over them.
    fn drag_tab(&mut self, drag: TabDrag, x: i32, strip_tab: Option<usize>, ground: &Ground) -> (effects:
        Vec<Effect>)
        requires
            old(self)@.wf(),
            ground.wf(),
        ensures
            (final(self)@, EffectModel::all(effects@)) == old(self)@.tab_dragged(
                drag,
                x as int,
                strip_tab,
                *ground,
            ),
            final(self)@.wf(),
    {
        if !drag.active && distance(x, drag.start_x) < DRAG_THRESHOLD as i64 {
            return nothing();
        }
        if !ground.laid_out {
            return nothing();
        }
        let next = TabDrag {
            origin: drag.origin,
            current: drag.current,
            start_x: drag.start_x,
            active: true,
        };
        let target: usize = match strip_tab {
            Some(index) => index,
            None => {
                if x >= ground.tab_bar.right() {
                    ground.tab_count.saturating_sub(1)
                } else if x <= ground.tab_bar.x {
                    0
                } else {
                    drag.current
                }
            },
        };
        self.pointer.dragging_tab = Some(next);
        if target != drag.current {
            one(Effect::MoveTab(drag.current, target))
        } else {
            nothing()
        }
    }

    /// The dragged tab was moved, or could not be.
    pub fn tab_moved(&mut self, moved: bool, target: usize) -> (effects: Vec<Effect>)
        ensures
            match old(self)@.pointer.dragging_tab {
                Some(drag) => if moved {
                    &&& final(self)@ == old(self)@.at_pointer(
                        Pointer {
                            dragging_tab: Some(TabDrag { current: target, ..drag }),
                            ..old(self)@.pointer
                        },
                    )
                    &&& EffectModel::all(effects@) == seq![
                        EffectModel::Relayout,
                        EffectModel::Redraw,
                    ]
                } else {
                    final(self)@ == old(self)@ && EffectModel::all(effects@) == Seq::<
                        EffectModel,
                    >::empty()
                },
                None => final(self)@ == old(self)@ && EffectModel::all(effects@) == Seq::<
                    EffectModel,
                >::empty(),
            },
            old(self)@.wf() ==> final(self)@.wf(),
    {
        if let Some(drag) = self.pointer.dragging_tab {
            if moved {
                self.pointer.dragging_tab = Some(
                    TabDrag {
                        origin: drag.origin,
                        current: target,
                        start_x: drag.start_x,
                        active: drag.active,
                    },
                );
                return two(Effect::Relayout, Effect::Redraw);
            }
        }
        nothing()
    }

    fn drag_divider(path: &Vec<bool>, ground: &Ground) -> (effects: Vec<Effect>)
        ensures
            EffectModel::all(effects@) == AppModel::divider_dragged(path@, *ground),
    {
        let ghost list = ground.dividers@;
        let mut i: usize = 0;
        while i < ground.dividers.len()
            invariant
                i <= ground.dividers@.len(),
                list == ground.dividers@,
                divider_with(list, path@, i as int) is None,
            decreases ground.dividers@.len() - i,
        {
            if same_path(&ground.dividers[i].path, path) {
                proof {
                    lemma_divider_stays(list, path@, i + 1, list.len() as int);
                }
                if !ground.laid_out {
                    return nothing();
                }
                let horizontal = ground.dividers[i].horizontal;
                let extent: u32 = if horizontal {
                    ground.window.0
                } else {
                    ground.window.1
                };
                let whole: u32 = if extent == 0 {
                    1
                } else {
                    extent
                };
                return one(Effect::DragDivider(copy_path(path), horizontal, whole));
            }
            i += 1;
        }
        nothing()
    }

    fn drag(
        &mut self,
        x: i32,
        y: i32,
        strip_tab: Option<usize>,
        selection_cell: Option<(u16, u16)>,
        ground: &Ground,
    ) -> (effects: Vec<Effect>)
        requires
            old(self)@.wf(),
            ground.wf(),
        ensures
            (final(self)@, EffectModel::all(effects@)) == old(self)@.dragged(
                x,
                y,
                strip_tab,
                selection_cell,
                *ground,
            ),
            final(self)@.wf(),
    {
        if let Some(drag) = self.pointer.dragging_tab {
            return self.drag_tab(drag, x, strip_tab, ground);
        }
        if let Some(path) = &self.dragging {
            return App::drag_divider(path, ground);
        }
        if let Some(pane) = self.pointer.selecting {
            if let Some((col, row)) = selection_cell {
                return two(Effect::UpdateSelection(pane, col, row), Effect::Redraw);
            }
        }
        nothing()
    }

    /// Handle a movement of the pointer. `strip_tab` is the tab at its position held
    /// inside the strip, and `selection_cell` the cell under it in the pane that is
    /// being selected in.
    pub fn on_mouse_move(
        &mut self,
        x: i32,
        y: i32,
        hit: &Hit,
        strip_tab: Option<usize>,
        selection_cell: Option<(u16, u16)>,
        ground: &Ground,
        world: &World,
    ) -> (effects: Vec<Effect>)
        requires
            old(self)@.wf(),
            old(self)@.menu_fits(world.cell.1),
            ground.wf(),
            i32::MIN < x - ground.sidebar.right_spec() <= i32::MAX,
            old(self)@.pointer.dragging_sidebar matches Some(offset) ==> i32::MIN <= x - offset
                <= i32::MAX && i32::MIN <= x - offset - ground.sidebar.x <= i32::MAX,
            world.cell.0 <= i32::MAX,
        ensures
            (final(self)@, EffectModel::all(effects@)) == old(self)@.moved_to(
                x,
                y,
                *hit,
                strip_tab,
                selection_cell,
                *ground,
                *world,
            ),
            final(self)@.wf(),
    {
        self.pointer.x = x;
        self.pointer.y = y;
        let ghost there = old(self)@.at_pointer(Pointer { x, y, ..old(self)@.pointer });
        assert(self@ =~= there);
        if self.menu.is_some() {
            return self.hover_menu(x, y, world.cell.1);
        }
        let width: u32 = if ground.laid_out {
            ground.sidebar.width
        } else {
            0
        };
        let shape = pointer_shape(ground.edge_at(x, y), x, width, ground.sidebar.right());
        let mut effects = nothing();
        if shape != self.pointer.shape {
            add_effect(&mut effects, Effect::PointerShape(shape));
        }
        self.pointer.shape = shape;
        let ghost shaped = there.at_pointer(Pointer { shape, ..there.pointer });
        assert(self@ =~= shaped);
        let ghost first = EffectModel::when(
            shape != old(self)@.pointer.shape,
            seq![EffectModel::PointerShape(shape)],
        );
        assert(EffectModel::all(effects@) =~= first);
        if let Some(offset) = self.pointer.dragging_sidebar {
            let cells = drag_sidebar(
                x - offset,
                ground.sidebar.x,
                world.cell.0,
                ground.sidebar_cells,
                ground.sidebar_least,
                ground.sidebar_most,
            );
            if ground.laid_out {
                if let Some(n) = cells {
                    add_effect(&mut effects, Effect::SidebarCells(n));
                    add_effect(&mut effects, Effect::Redraw);
                }
            }
            assert(EffectModel::all(effects@) =~= old(self)@.moved_to(
                x,
                y,
                *hit,
                strip_tab,
                selection_cell,
                *ground,
                *world,
            ).1);
            return effects;
        }
        if self.update_hover(x, y, hit, ground, world.kind) {
            add_effect(&mut effects, Effect::Redraw);
        }
        let ghost over = shaped.hovered(x as int, y as int, *hit, *ground, world.kind);
        assert(EffectModel::all(effects@) =~= first + EffectModel::when(
            shaped.looks_different(over),
            seq![EffectModel::Redraw],
        ));
        let more = self.drag(x, y, strip_tab, selection_cell, ground);
        add_effects(&mut effects, more);
        effects
    }
}

/// Tell a page where the pointer is, or that it is nowhere near.
fn point(ui: &mut Ui, here: bool, x: i32, y: i32) -> (changed: bool)
    requires
        old(ui)@.wf(),
    ensures
        final(ui)@ == AppModel::pointed(old(ui)@, here, x as int, y as int),
        changed == (final(ui)@.hover != old(ui)@.hover),
        final(ui)@.wf(),
{
    if here {
        ui.set_pointer(x, y)
    } else {
        ui.set_pointer(i32::MIN, i32::MIN)
    }
}

// --- the wheel ----------------------------------------------------------------------

/// A turn of the wheel: whole notches of a mouse, or pixels of a touchpad. Upwards is
/// positive.
#[derive(Debug, Clone, Copy, PartialEq, Eq, Structural)]
pub enum Wheel {
    Lines(Fixed),
    Pixels(Fixed),
}

/// `n / d`, towards zero.
pub open spec fn toward_zero(n: int, d: int) -> int {
    if n >= 0 {
        n / d
    } else {
        -((-n) / d)
    }
}

/// `n / d` to the nearest whole number, halves away from zero.
pub open spec fn nearest(n: int, d: int) -> int {
    if n >= 0 {
        (2 * n + d) / (2 * d)
    } else {
        -((2 * (-n) + d) / (2 * d))
    }
}

/// A number held inside what 32 bits hold.
pub open spec fn held(n: int) -> int {
    crate::window::clamped(n, i32::MIN as int, i32::MAX as int)
}

fn hold(n: i128) -> (h: i32)
    ensures
        h == held(n as int),
{
    if n < i32::MIN as i128 {
        i32::MIN
    } else if n > i32::MAX as i128 {
        i32::MAX
    } else {
        n as i32
    }
}

fn divide(n: i128, d: i128) -> (q: i32)
    requires
        0 < d,
        i128::MIN < n,
    ensures
        q == held(toward_zero(n as int, d as int)),
{
    proof {
        vstd::arithmetic::div_mod::lemma_div_pos_is_pos(
            if n >= 0 {
                n as int
            } else {
                -n
            },
            d as int,
        );
        vstd::arithmetic::div_mod::lemma_div_is_ordered_by_denominator(
            if n >= 0 {
                n as int
            } else {
                -n
            },
            1,
            d as int,
        );
    }
    if n >= 0 {
        hold(n / d)
    } else {
        hold(-((-n) / d))
    }
}

fn divide_nearest(n: i128, d: i128) -> (q: i32)
    requires
        0 < d <= 0x20_0000_0000_0000,
        -0x1000_0000_0000_0000_0000_0000_0000 <= n <= 0x1000_0000_0000_0000_0000_0000_0000,
    ensures
        q == held(nearest(n as int, d as int)),
{
    let size: i128 = if n >= 0 {
        n
    } else {
        -n
    };
    let top: i128 = 2 * size + d;
    proof {
        vstd::arithmetic::div_mod::lemma_div_pos_is_pos(top as int, 2 * d);
        vstd::arithmetic::div_mod::lemma_div_is_ordered_by_denominator(top as int, 1, 2 * d);
    }
    let q: i128 = top / (2 * d);
    if n >= 0 {
        hold(q)
    } else {
        hold(-q)
    }
}

impl Wheel {
    /// How far a page scrolls, in millionths of a pixel: three rows per notch.
    pub open spec fn page_distance(self, cell_height: int) -> int {
        match self {
            Wheel::Lines(y) => -(y@ * 3 * cell_height),
            Wheel::Pixels(y) => -y@,
        }
    }

    /// How many lines a terminal scrolls, as a fraction: a notch by its multiplier, a
    /// touchpad by the cell height, so that a swipe scrolls the same distance at any
    /// font size.
    pub open spec fn terminal_lines(self, multiplier: Fixed, cell_height: u32) -> (int, int) {
        match self {
            Wheel::Lines(y) => (y@ * multiplier@, 1_000_000_000_000),
            Wheel::Pixels(y) => (y@, 1_000_000 * at_least_one(cell_height)),
        }
    }

    fn distance(self, cell_height: u32) -> (d: i128)
        ensures
            d == self.page_distance(cell_height as int),
            -0x1000_0000_0000_0000_0000_0000_0000 <= d <= 0x1000_0000_0000_0000_0000_0000_0000,
    {
        match self {
            Wheel::Lines(y) => {
                let m: i128 = y.millionths as i128;
                let h: i128 = cell_height as i128;
                proof {
                    assert(-0x1000_0000_0000_0000_0000_0000_0000 <= m * 3 * h
                        <= 0x1000_0000_0000_0000_0000_0000_0000) by (nonlinear_arith)
                        requires
                            -0x8000_0000_0000_0000 <= m <= 0x7fff_ffff_ffff_ffff,
                            0 <= h <= 0xffff_ffff,
                    ;
                }
                -(m * 3 * h)
            },
            Wheel::Pixels(y) => -(y.millionths as i128),
        }
    }

    /// Lines a terminal scrolls, to the nearest one.
    pub fn lines(self, multiplier: Fixed, cell_height: u32) -> (n: i32)
        ensures
            n == held(
                nearest(
                    self.terminal_lines(multiplier, cell_height).0,
                    self.terminal_lines(multiplier, cell_height).1,
                ),
            ),
    {
        match self {
            Wheel::Lines(y) => {
                let a: i128 = y.millionths as i128;
                let b: i128 = multiplier.millionths as i128;
                proof {
                    assert(-0x7000_0000_0000_0000_0000_0000_0000_0000 <= a * b
                        <= 0x7000_0000_0000_0000_0000_0000_0000_0000) by (nonlinear_arith)
                        requires
                            -0x8000_0000_0000_0000 <= a <= 0x7fff_ffff_ffff_ffff,
                            -0x8000_0000_0000_0000 <= b <= 0x7fff_ffff_ffff_ffff,
                    ;
                }
                divide_wide(a * b)
            },
            Wheel::Pixels(y) => {
                let cell: u32 = if cell_height == 0 {
                    1
                } else {
                    cell_height
                };
                divide_nearest(y.millionths as i128, 1_000_000 * cell as i128)
            },
        }
    }
}

/// A product of two numbers in millionths, as a whole number.
fn divide_wide(n: i128) -> (q: i32)
    requires
        -0x7000_0000_0000_0000_0000_0000_0000_0000 <= n
            <= 0x7000_0000_0000_0000_0000_0000_0000_0000,
    ensures
        q == held(nearest(n as int, 1_000_000_000_000)),
{
    let size: i128 = if n >= 0 {
        n
    } else {
        -n
    };
    // Half of it is added before dividing; a number this large saturates either way.
    let half: i128 = 500_000_000_000;
    let q: i128 = (size + half) / 1_000_000_000_000;
    proof {
        let d: int = 1_000_000_000_000;
        assert((2 * size + d) / (2 * d) == (size + half) / d) by {
            vstd::arithmetic::div_mod::lemma_div_denominator(2 * size + d, 2, d);
            assert((2 * size + d) / 2 == size + half);
        }
        vstd::arithmetic::div_mod::lemma_div_pos_is_pos(size + half, d);
        vstd::arithmetic::div_mod::lemma_div_is_ordered_by_denominator(size + half, 1, d);
    }
    if n >= 0 {
        hold(q)
    } else {
        hold(-q)
    }
}

impl AppModel {
    /// One page scrolled by `delta` pixels.
    pub open spec fn scrolled_page(ui: UiModel, delta: int) -> Seq<EffectModel> {
        EffectModel::when(ui.scrolled(delta).scroll != ui.scroll, seq![EffectModel::Redraw])
    }

    /// A turn of the wheel in a terminal. A program that wants the mouse gets one
    /// report per line; otherwise the terminal scrolls.
    pub open spec fn terminal_wheel(lines: int, hit: Hit, mods: Modifiers) -> Seq<EffectModel> {
        match hit.pane {
            Some(pane) => if lines == 0 || !hit.has_session {
                Seq::empty()
            } else if hit.wants_mouse && !mods.shift {
                match hit.cell {
                    Some((col, row)) => Seq::new(
                        apart(lines, 0) as nat,
                        |i: int|
                            EffectModel::ReportMouse(
                                pane,
                                if lines > 0 {
                                    MouseButton::WheelUp
                                } else {
                                    MouseButton::WheelDown
                                },
                                true,
                                col,
                                row,
                            ),
                    ),
                    None => Seq::empty(),
                }
            } else {
                seq![EffectModel::ScrollPane(pane, lines as i32), EffectModel::Redraw]
            },
            None => Seq::empty(),
        }
    }

    /// A turn of the wheel: to the page on screen, else to the sidebar when the pointer
    /// is over it, else to the settings page on screen, else to the terminal under the
    /// pointer.
    pub open spec fn wheeled(
        self,
        wheel: Wheel,
        multiplier: Fixed,
        hit: Hit,
        mods: Modifiers,
        ground: Ground,
        world: World,
    ) -> (AppModel, Seq<EffectModel>) {
        let pixels = held(toward_zero(wheel.page_distance(world.cell.1 as int), 1_000_000));
        let (x, y) = (self.pointer.x as int, self.pointer.y as int);
        if self.plugins_active(world) {
            let page = self.plugins->0;
            (
                AppModel {
                    plugins: Some(PluginsModel { ui: page.ui.scrolled(pixels), ..page }),
                    ..self
                },
                AppModel::scrolled_page(page.ui, pixels),
            )
        } else if self.help_active(world) {
            let ui = self.help->0;
            (
                AppModel { help: Some(ui.scrolled(pixels)), ..self },
                AppModel::scrolled_page(ui, pixels),
            )
        } else if ground.laid_out && ground.in_sidebar(x, y) {
            match self.sidebar {
                Some(e) => (
                    AppModel {
                        sidebar: Some(ExplorerModel { ui: e.ui.scrolled(pixels), ..e }),
                        ..self
                    },
                    AppModel::scrolled_page(e.ui, pixels),
                ),
                None => (self, Seq::empty()),
            }
        } else if self.settings_active(world) {
            let ui = self.panel->0;
            let cell = at_least_one(world.cell.1) as int;
            let whole = held(nearest(wheel.page_distance(cell), 1_000_000));
            (
                AppModel { panel: Some(ui.scrolled(whole)), ..self },
                AppModel::scrolled_page(ui, whole),
            )
        } else if !ground.laid_out {
            (self, Seq::empty())
        } else {
            let (n, d) = wheel.terminal_lines(multiplier, world.cell.1);
            (self, AppModel::terminal_wheel(held(nearest(n, d)), hit, mods))
        }
    }
}

fn scroll_page(ui: &mut Ui, delta: i32) -> (effects: Vec<Effect>)
    requires
        old(ui)@.wf(),
    ensures
        final(ui)@ == old(ui)@.scrolled(delta as int),
        final(ui)@.wf(),
        EffectModel::all(effects@) == AppModel::scrolled_page(old(ui)@, delta as int),
{
    if ui.scroll_by(delta) {
        one(Effect::Redraw)
    } else {
        nothing()
    }
}

fn wheel_in_terminal(lines: i32, hit: &Hit, mods: Modifiers) -> (effects: Vec<Effect>)
    ensures
        EffectModel::all(effects@) == AppModel::terminal_wheel(lines as int, *hit, mods),
{
    let pane: u64 = match hit.pane {
        Some(p) => p,
        None => {
            return nothing();
        },
    };
    if lines == 0 || !hit.has_session {
        return nothing();
    }
    if hit.wants_mouse && !mods.shift {
        let (col, row) = match hit.cell {
            Some(c) => c,
            None => {
                return nothing();
            },
        };
        let button = if lines > 0 {
            MouseButton::WheelUp
        } else {
            MouseButton::WheelDown
        };
        let count: i64 = distance(lines, 0);
        let ghost wanted = AppModel::terminal_wheel(lines as int, *hit, mods);
        let mut effects = nothing();
        let mut i: i64 = 0;
        while i < count
            invariant
                0 <= i <= count,
                wanted.len() == count,
                forall|k: int|
                    0 <= k < count ==> wanted[k] == EffectModel::ReportMouse(
                        pane,
                        button,
                        true,
                        col,
                        row,
                    ),
                EffectModel::all(effects@) =~= wanted.take(i as int),
            decreases count - i,
        {
            add_effect(&mut effects, Effect::ReportMouse(pane, button, true, col, row));
            i += 1;
        }
        assert(wanted.take(i as int) =~= wanted);
        return effects;
    }
    two(Effect::ScrollPane(pane, lines), Effect::Redraw)
}

impl App {
    /// Handle a turn of the wheel where the pointer is. `multiplier` is how many lines
    /// a notch scrolls a terminal.
    pub fn on_scroll(
        &mut self,
        wheel: Wheel,
        multiplier: Fixed,
        hit: &Hit,
        mods: Modifiers,
        ground: &Ground,
        world: &World,
    ) -> (effects: Vec<Effect>)
        requires
            old(self)@.wf(),
        ensures
            (final(self)@, EffectModel::all(effects@)) == old(self)@.wheeled(
                wheel,
                multiplier,
                *hit,
                mods,
                *ground,
                *world,
            ),
            final(self)@.wf(),
    {
        let pixels: i32 = divide(wheel.distance(world.cell.1), 1_000_000);
        if self.plugins_active(world) {
            return match &mut self.plugins_page {
                Some(page) => scroll_page(&mut page.ui, pixels),
                None => nothing(),
            };
        }
        if self.help_active(world) {
            return match &mut self.help {
                Some(page) => scroll_page(&mut page.ui, pixels),
                None => nothing(),
            };
        }
        // Scrolling is a pointer gesture: the sidebar takes it whatever has the
        // keyboard.
        if ground.laid_out && ground.sidebar.width > 0 && ground.sidebar.contains(
            self.pointer.x,
            self.pointer.y,
        ) {
            return match &mut self.sidebar {
                Some(explorer) => scroll_page(&mut explorer.ui, pixels),
                None => nothing(),
            };
        }
        if self.settings_active(world) {
            let cell: u32 = if world.cell.1 == 0 {
                1
            } else {
                world.cell.1
            };
            let whole: i32 = divide_nearest(wheel.distance(cell), 1_000_000);
            return match &mut self.panel {
                Some(ui) => scroll_page(ui, whole),
                None => nothing(),
            };
        }
        if !ground.laid_out {
            return nothing();
        }
        wheel_in_terminal(wheel.lines(multiplier, world.cell.1), hit, mods)
    }
}

// --- laws ---------------------------------------------------------------------------

/// The band along the window's edges always resizes: nothing that overlaps it, no page,
/// menu or tab, takes the press.
pub proof fn law_edges_are_never_swallowed(
    app: AppModel,
    hit: Hit,
    mods: Modifiers,
    ground: Ground,
    world: World,
    config: PluginConfigModel,
    now: u64,
)
    requires
        ground.laid_out,
        ground.edge(app.pointer.x as int, app.pointer.y as int) is Some,
    ensures
        app.mouse_button(MouseButton::Left, true, hit, mods, ground, world, config, now) == (
            app,
            seq![
                EffectModel::ResizeWindow(
                    ground.edge(app.pointer.x as int, app.pointer.y as int)->0,
                ),
            ],
        ),
{
}

/// A click that dismisses a menu does nothing else.
pub proof fn law_dismissing_a_menu_only_dismisses(
    app: AppModel,
    button: MouseButton,
    hit: Hit,
    mods: Modifiers,
    ground: Ground,
    world: World,
    config: PluginConfigModel,
    now: u64,
)
    requires
        ground.laid_out,
        app.menu is Some,
        app.menu_row(app.pointer.x as int, app.pointer.y as int, world.cell.1) is None,
        !(button is Left) || ground.edge(app.pointer.x as int, app.pointer.y as int) is None,
    ensures
        app.mouse_button(button, true, hit, mods, ground, world, config, now) == (
            AppModel { menu: None, menu_rect: None, ..app },
            seq![EffectModel::Redraw],
        ),
{
}

/// Releasing a button ends every drag, wherever the pointer is by then.
pub proof fn law_release_ends_every_drag(
    app: AppModel,
    button: MouseButton,
    hit: Hit,
    mods: Modifiers,
    ground: Ground,
    world: World,
    config: PluginConfigModel,
    now: u64,
)
    requires
        ground.laid_out,
    ensures
        ({
            let after = app.mouse_button(
                button,
                false,
                hit,
                mods,
                ground,
                world,
                config,
                now,
            ).0;
            &&& after.pointer.selecting is None
            &&& after.pointer.dragging_sidebar is None
            &&& after.pointer.dragging_tab is None
            &&& after.dragging is None
            &&& after.pointer.pressed_button is None
            &&& after.pointer.pressed_ide is None
        }),
{
}

/// A click that wobbles is no drag: until the pointer has moved far enough sideways, a
/// pressed tab stays where it is.
pub proof fn law_a_wobble_moves_no_tab(
    app: AppModel,
    drag: TabDrag,
    x: int,
    strip_tab: Option<usize>,
    ground: Ground,
)
    requires
        !drag.active,
        apart(x, drag.start_x as int) < DRAG_THRESHOLD,
    ensures
        app.tab_dragged(drag, x, strip_tab, ground) == (app, Seq::<EffectModel>::empty()),
{
}

/// Shift always selects: it gives the mouse back to the terminal, even inside a program
/// that wants it.
pub proof fn law_shift_selects(app: AppModel, hit: Hit, mods: Modifiers)
    requires
        mods.shift,
        hit.pane is Some,
        hit.cell is Some,
        hit.has_session,
    ensures
        app.pane_mouse(MouseButton::Left, true, hit, mods).0.pointer.selecting == hit.pane,
{
}

} // verus!
