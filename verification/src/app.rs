//! The application's state, and what changes it.
//!
//! Everything outside (the window, the shells, the pane layout, the plugins, the
//! configuration) belongs to the caller. An event comes in together with what the
//! outside looks like at that moment, and what is to be done about it goes out as a list
//! of effects.

use vstd::prelude::*;
use vstd::string::*;

use crate::action::Action;
use crate::decimal::Fixed;
use crate::effect::{
    add_effect, add_effects, nothing, one, two, AfterSelect, Effect, EffectModel, Notice, NoticeModel,
    TabStart,
};
use crate::explorer::{
    cd_command, editor_command, shell_quote, Commit, CommitModel, Explorer, ExplorerModel,
    ExplorerOutcome, Listed, OutcomeModel,
};
use crate::geometry::Rect;
use crate::help::HelpPage;
use crate::menu::{Menu, MenuItem, MenuKind, MenuModel};
use crate::plugins::{
    FolderPurpose, FolderResult, Installed, PluginConfig, PluginConfigModel, PluginsModel,
    PluginsOutcome, PluginsPage,
};
use crate::scene::ChromeButton;
use crate::strings::{chars_of, same_text, slice_text};
use crate::timing::{Blink, NotificationModel, NotifyLevel, Toasts};
use crate::ui::{ActionModel, Ui, UiAction, UiModel};
use crate::window::{CursorShape, Direction, TabKind};

verus! {

/// A tab being dragged along the strip.
#[derive(Debug, Clone, Copy, PartialEq, Eq, Structural)]
pub struct TabDrag {
    /// Where the tab started.
    pub origin: usize,
    /// Where it is now. The reorder is applied as the pointer crosses tabs, so the strip
    /// previews the result.
    pub current: usize,
    /// Pointer x when the drag began.
    pub start_x: i32,
    /// Set once the pointer has moved far enough for this to be a drag.
    pub active: bool,
}

/// When and where the title bar was last pressed.
#[derive(Debug, Clone, Copy, PartialEq, Eq, Structural)]
pub struct TitleClick {
    pub at: u64,
    pub x: i32,
    pub y: i32,
}

/// What the pointer is over and what it is dragging.
#[derive(Debug, Clone, Copy, PartialEq, Eq, Structural)]
pub struct Pointer {
    pub x: i32,
    pub y: i32,
    /// Set while dragging a selection in this pane.
    pub selecting: Option<u64>,
    /// Offset from the pointer to the sidebar's right edge while dragging it, so that
    /// the edge does not jump to the pointer.
    pub dragging_sidebar: Option<i32>,
    pub dragging_tab: Option<TabDrag>,
    pub hovered_button: Option<ChromeButton>,
    pub pressed_button: Option<ChromeButton>,
    /// A pressable segment of the status bar.
    pub hovered_ide: Option<usize>,
    pub pressed_ide: Option<usize>,
    pub hovered_tab: Option<usize>,
    /// The pointer is over the hovered tab's close button.
    pub hovered_close: bool,
    pub last_title_click: Option<TitleClick>,
    /// The shape last asked for, so that it is only set on change.
    pub shape: Option<CursorShape>,
}

impl Pointer {
    pub open spec fn initial() -> Pointer {
        Pointer {
            x: 0,
            y: 0,
            selecting: None,
            dragging_sidebar: None,
            dragging_tab: None,
            hovered_button: None,
            pressed_button: None,
            hovered_ide: None,
            pressed_ide: None,
            hovered_tab: None,
            hovered_close: false,
            last_title_click: None,
            shape: None,
        }
    }

    pub fn new() -> (p: Self)
        ensures
            p == Pointer::initial(),
    {
        Pointer {
            x: 0,
            y: 0,
            selecting: None,
            dragging_sidebar: None,
            dragging_tab: None,
            hovered_button: None,
            pressed_button: None,
            hovered_ide: None,
            pressed_ide: None,
            hovered_tab: None,
            hovered_close: false,
            last_title_click: None,
            shape: None,
        }
    }
}

/// What the outside looks like when an event is handled.
#[derive(Debug)]
pub struct World {
    /// What the tab on screen holds.
    pub kind: TabKind,
    pub active_pane: u64,
    pub active_tab: usize,
    /// The panes of the tab on screen, in order.
    pub visible: Vec<u64>,
    /// The tab that holds each page, if it is open.
    pub settings_tab: Option<usize>,
    pub help_tab: Option<usize>,
    pub plugins_tab: Option<usize>,
    /// Where the toolbar buttons are. Empty before the first layout.
    pub actions: Vec<(ChromeButton, Rect)>,
    pub cell: (u32, u32),
    /// Whether hidden files show, as configured.
    pub show_hidden: bool,
}

/// Something that reaches the event loop from outside it.
#[derive(Debug, PartialEq, Eq)]
pub enum UserEvent {
    /// A watched config or theme file changed.
    ConfigChanged,
    /// A terminal produced output or an event.
    Wakeup,
    /// A folder was chosen in the system's dialog, or the dialog was cancelled. The
    /// dialog runs on its own: waiting for it would freeze the window.
    FolderPicked { purpose: FolderPurpose, path: Option<String> },
}

/// What a change of configuration calls for.
#[derive(Debug, PartialEq, Eq)]
pub struct ReloadActions {
    pub rebind_keys: bool,
    pub rebuild_fonts: bool,
    pub reload_theme: bool,
    pub resize_scrollback: bool,
    pub reconfigure_surface: bool,
    pub relayout: bool,
    /// Settings that only a restart applies.
    pub restart_required: Vec<String>,
}

/// What reading the configuration again came to.
#[derive(Debug, PartialEq, Eq)]
pub enum ReloadOutcome {
    Unchanged,
    /// It does not parse. The previous settings stay.
    Failed,
    Applied(ReloadActions),
}

/// What closing a pane came to.
#[derive(Debug, Clone, Copy, PartialEq, Eq, Structural)]
pub enum CloseOutcome {
    /// The last pane of the last tab is gone.
    Emptied,
    NotFound,
    Closed,
}

/// What an action on the settings page came to.
#[derive(Debug, Clone, Copy, PartialEq, Eq, Structural)]
pub enum PanelOutcome {
    Continue,
    Changed,
    Save,
    Close,
}

/// Something a plugin asks for.
#[derive(Debug, PartialEq, Eq)]
pub enum PluginCommand {
    /// A registration, which the host has handled, or something unknown.
    Ignored,
    Split(Direction),
    NewTab,
    /// This pane, or the focused one.
    ClosePane(Option<u64>),
    Focus(Direction),
    FocusPane(u64),
    /// By its position, counted from zero.
    SelectTab(usize),
    Resize(Direction, Fixed),
    /// To this pane, or the focused one.
    SendText(Option<u64>, String),
    Notify(String, NotifyLevel),
    SetConfigOverlay(String),
    ReloadConfig,
    Quit,
}

/// The state that handling events changes.
pub struct App {
    /// The settings page, when its tab is open.
    pub panel: Option<Ui>,
    /// Its scrollable body from the last frame.
    pub panel_body: Option<Rect>,
    /// The shortcut reference, when its tab is open.
    pub help: Option<HelpPage>,
    /// The plugins page, when its tab is open.
    pub plugins_page: Option<PluginsPage>,
    /// Its scrollable body from the last frame.
    pub plugins_body: Option<Rect>,
    /// The file explorer, when open.
    pub sidebar: Option<Explorer>,
    /// Whether the sidebar has the keyboard. Being open does not give it that: it sits
    /// beside a live shell, and the common case is looking at it while typing.
    pub sidebar_focused: bool,
    /// The open dropdown, if any.
    pub menu: Option<Menu>,
    /// Where it was drawn last frame.
    pub menu_rect: Option<Rect>,
    /// Shell for the next tab, when one was chosen from the menu.
    pub pending_shell: Option<String>,
    pub toasts: Toasts,
    pub blink: Blink,
    pub pointer: Pointer,
    /// The split divider being dragged, by its way down the splits.
    pub dragging: Option<Vec<bool>>,
    /// Pressable status segments and where they were drawn last frame.
    pub ide_hits: Vec<(String, Rect)>,
}

/// The state as a mathematical value.
#[verifier::ext_equal]
pub struct AppModel {
    pub panel: Option<UiModel>,
    pub panel_body: Option<Rect>,
    pub help: Option<UiModel>,
    pub plugins: Option<PluginsModel>,
    pub plugins_body: Option<Rect>,
    pub sidebar: Option<ExplorerModel>,
    pub sidebar_focused: bool,
    pub menu: Option<MenuModel>,
    pub menu_rect: Option<Rect>,
    pub pending_shell: Option<Seq<char>>,
    pub toasts: Seq<NotificationModel>,
    pub blink: Blink,
    pub pointer: Pointer,
    pub dragging: Option<Seq<bool>>,
    pub ide_hits: Seq<(Seq<char>, Rect)>,
}

/// The ids and places of a list of segments.
pub open spec fn hits(list: Seq<(String, Rect)>) -> Seq<(Seq<char>, Rect)> {
    Seq::new(list.len(), |i: int| (list[i].0@, list[i].1))
}

impl View for App {
    type V = AppModel;

    open spec fn view(&self) -> AppModel {
        AppModel {
            panel: match self.panel {
                Some(ui) => Some(ui@),
                None => None,
            },
            panel_body: self.panel_body,
            help: match self.help {
                Some(page) => Some(page.ui@),
                None => None,
            },
            plugins: match self.plugins_page {
                Some(page) => Some(page@),
                None => None,
            },
            plugins_body: self.plugins_body,
            sidebar: match self.sidebar {
                Some(e) => Some(e@),
                None => None,
            },
            sidebar_focused: self.sidebar_focused,
            menu: match self.menu {
                Some(m) => Some(m@),
                None => None,
            },
            menu_rect: self.menu_rect,
            pending_shell: crate::strings::text_of(self.pending_shell),
            toasts: self.toasts@,
            blink: self.blink,
            pointer: self.pointer,
            dragging: match self.dragging {
                Some(path) => Some(path@),
                None => None,
            },
            ide_hits: hits(self.ide_hits@),
        }
    }
}

/// The place of a toolbar button among the first `n`.
pub open spec fn place_of(
    actions: Seq<(ChromeButton, Rect)>,
    button: ChromeButton,
    n: int,
) -> Option<Rect>
    decreases n,
{
    if n <= 0 {
        None
    } else if place_of(actions, button, n - 1) is Some {
        place_of(actions, button, n - 1)
    } else if actions[n - 1].0 == button {
        Some(actions[n - 1].1)
    } else {
        None
    }
}

pub(crate) proof fn lemma_place_stays(actions: Seq<(ChromeButton, Rect)>, button: ChromeButton, i: int, n: int)
    requires
        0 <= i <= n,
        place_of(actions, button, i) is Some,
    ensures
        place_of(actions, button, n) == place_of(actions, button, i),
    decreases n,
{
    if i < n {
        lemma_place_stays(actions, button, i, n - 1);
    }
}

impl World {
    /// Where a toolbar button is.
    pub open spec fn anchor(self, button: ChromeButton) -> Option<Rect> {
        place_of(self.actions@, button, self.actions@.len() as int)
    }

    fn find_anchor(&self, button: ChromeButton) -> (rect: Option<Rect>)
        ensures
            rect == self.anchor(button),
    {
        let mut i: usize = 0;
        while i < self.actions.len()
            invariant
                i <= self.actions@.len(),
                place_of(self.actions@, button, i as int) is None,
            decreases self.actions@.len() - i,
        {
            if self.actions[i].0 == button {
                proof {
                    lemma_place_stays(self.actions@, button, i + 1, self.actions@.len() as int);
                }
                return Some(self.actions[i].1);
            }
            i += 1;
        }
        None
    }
}

impl AppModel {
    /// What every handler keeps.
    pub open spec fn wf(self) -> bool {
        &&& self.panel matches Some(ui) ==> ui.wf()
        &&& self.help matches Some(ui) ==> ui.wf()
        &&& self.plugins matches Some(page) ==> page.ui.wf()
        &&& self.sidebar matches Some(e) ==> e.wf()
        &&& self.menu matches Some(m) ==> m.wf()
        &&& self.menu_rect is Some ==> self.menu is Some
    }

    /// Effects already asked for, and then a step.
    pub open spec fn after(
        effects: Seq<EffectModel>,
        step: (AppModel, Seq<EffectModel>),
    ) -> (AppModel, Seq<EffectModel>) {
        (step.0, effects + step.1)
    }

    // --- menus ------------------------------------------------------------------

    pub open spec fn menu_closed(self) -> (AppModel, Seq<EffectModel>) {
        if self.menu is Some {
            (AppModel { menu: None, menu_rect: None, ..self }, seq![EffectModel::Redraw])
        } else {
            (self, Seq::empty())
        }
    }

    pub open spec fn menu_moved(self, delta: int) -> (AppModel, Seq<EffectModel>) {
        match self.menu {
            Some(m) => (AppModel { menu: Some(m.moved(delta)), ..self }, seq![EffectModel::Redraw]),
            None => (self, Seq::empty()),
        }
    }

    /// A tab running `shell`, or the configured one.
    pub open spec fn tab_with(self, shell: Option<Seq<char>>) -> (AppModel, Seq<EffectModel>) {
        (
            AppModel { pending_shell: shell, ..self },
            seq![EffectModel::OpenTab(TabStart::Chosen)],
        )
    }

    /// The highlighted row acted on, and the menu closed.
    pub open spec fn menu_picked(self, world: World) -> (AppModel, Seq<EffectModel>) {
        let (closed, effects) = self.menu_closed();
        match self.menu {
            Some(m) => match (m.kind, m.choice()) {
                (_, None) => (closed, effects),
                (MenuKind::NewTabShell, Some(value)) => AppModel::after(
                    effects,
                    closed.tab_with(Some(value)),
                ),
                (MenuKind::AppMenu, Some(value)) => if value == "settings"@ {
                    AppModel::after(effects, closed.settings_opened(world))
                } else if value == "help"@ {
                    AppModel::after(effects, closed.help_toggled(world))
                } else if value == "plugins"@ {
                    AppModel::after(effects, closed.plugins_toggled(world))
                } else {
                    (closed, effects)
                },
            },
            None => (closed, effects),
        }
    }

    /// The rows of the menu that groups the pages.
    pub open spec fn app_menu_rows() -> Seq<(Seq<char>, Seq<char>)> {
        seq![
            ("Settings"@, "settings"@),
            ("Shortcuts"@, "help"@),
            ("Plugins"@, "plugins"@),
        ]
    }

    pub open spec fn app_menu_toggled(self, world: World) -> (AppModel, Seq<EffectModel>) {
        if self.menu is Some {
            self.menu_closed()
        } else {
            match world.anchor(ChromeButton::AppMenu) {
                Some(anchor) => (
                    AppModel {
                        menu: Some(
                            MenuModel {
                                kind: MenuKind::AppMenu,
                                items: AppModel::app_menu_rows(),
                                selected: 0,
                                anchor,
                            },
                        ),
                        ..self
                    },
                    seq![EffectModel::Redraw],
                ),
                None => (self, Seq::empty()),
            }
        }
    }

    pub open spec fn shell_menu_toggled(self, world: World) -> (AppModel, Seq<EffectModel>) {
        if self.menu is Some {
            self.menu_closed()
        } else if world.anchor(ChromeButton::NewTabMenu) is Some {
            (self, seq![EffectModel::ListShells])
        } else {
            (self, Seq::empty())
        }
    }

    /// The menu of shells, or a tab at once when there is nothing to choose between.
    pub open spec fn shells_shown(
        self,
        items: Seq<(Seq<char>, Seq<char>)>,
        world: World,
    ) -> (AppModel, Seq<EffectModel>) {
        match world.anchor(ChromeButton::NewTabMenu) {
            Some(anchor) => if items.len() == 0 {
                self.tab_with(None)
            } else {
                (
                    AppModel {
                        menu: Some(
                            MenuModel { kind: MenuKind::NewTabShell, items, selected: 0, anchor },
                        ),
                        ..self
                    },
                    seq![EffectModel::Redraw],
                )
            },
            None => (self, Seq::empty()),
        }
    }

    // --- pages ------------------------------------------------------------------

    /// A page owns the keyboard and the pointer only while its tab is on screen.
    pub open spec fn settings_active(self, world: World) -> bool {
        self.panel is Some && world.kind is Settings
    }

    pub open spec fn help_active(self, world: World) -> bool {
        self.help is Some && world.kind is Help
    }

    pub open spec fn plugins_active(self, world: World) -> bool {
        self.plugins is Some && world.kind is Plugins
    }

    /// Back to a page that is open already.
    pub open spec fn page_shown(tab: usize) -> Seq<EffectModel> {
        seq![EffectModel::SelectTab(tab, AfterSelect::Page), EffectModel::Redraw]
    }

    /// A page in a tab of its own.
    pub open spec fn page_opened(kind: TabKind) -> Seq<EffectModel> {
        seq![EffectModel::OpenPageTab(kind), EffectModel::Relayout, EffectModel::Redraw]
    }

    pub open spec fn settings_opened(self, world: World) -> (AppModel, Seq<EffectModel>) {
        match world.settings_tab {
            Some(tab) => (self, AppModel::page_shown(tab)),
            None => (
                AppModel { panel: Some(UiModel::empty()), ..self },
                seq![EffectModel::GatherSettings] + AppModel::page_opened(TabKind::Settings),
            ),
        }
    }

    pub open spec fn settings_closed(self) -> (AppModel, Seq<EffectModel>) {
        (AppModel { panel: None, ..self }, seq![EffectModel::ClosePage(TabKind::Settings)])
    }

    /// Pressing the binding again closes it.
    pub open spec fn settings_toggled(self, world: World) -> (AppModel, Seq<EffectModel>) {
        if self.settings_active(world) {
            self.settings_closed()
        } else {
            self.settings_opened(world)
        }
    }

    pub open spec fn help_closed(self) -> (AppModel, Seq<EffectModel>) {
        (AppModel { help: None, ..self }, seq![EffectModel::ClosePage(TabKind::Help)])
    }

    pub open spec fn help_toggled(self, world: World) -> (AppModel, Seq<EffectModel>) {
        match world.help_tab {
            Some(tab) => if world.kind is Help {
                self.help_closed()
            } else {
                (self, AppModel::page_shown(tab))
            },
            None => (
                AppModel { help: Some(UiModel::empty()), ..self },
                AppModel::page_opened(TabKind::Help),
            ),
        }
    }

    pub open spec fn plugins_closed(self) -> (AppModel, Seq<EffectModel>) {
        (AppModel { plugins: None, ..self }, seq![EffectModel::ClosePage(TabKind::Plugins)])
    }

    pub open spec fn plugins_toggled(self, world: World) -> (AppModel, Seq<EffectModel>) {
        match world.plugins_tab {
            Some(tab) => if world.kind is Plugins {
                self.plugins_closed()
            } else {
                (self, AppModel::page_shown(tab))
            },
            None => (self, seq![EffectModel::ListPlugins]),
        }
    }

    /// An action of the plugins page.
    pub open spec fn plugins_acted(self, action: ActionModel, config: PluginConfigModel) -> (
        AppModel,
        Seq<EffectModel>,
    ) {
        match self.plugins {
            None => (self, Seq::empty()),
            Some(page) => {
                let (after, next, outcome) = page.applied(action, config);
                let kept = AppModel { plugins: Some(after), ..self };
                match outcome {
                    PluginsOutcome::Continue => (kept, seq![EffectModel::Redraw]),
                    PluginsOutcome::ChooseFolder(purpose) => (
                        kept,
                        seq![EffectModel::ChooseFolder(purpose), EffectModel::Redraw],
                    ),
                    PluginsOutcome::Toggled => (
                        kept,
                        seq![
                            EffectModel::SetPlugins(next),
                            EffectModel::ReloadPlugins,
                            EffectModel::Redraw,
                        ],
                    ),
                    PluginsOutcome::Close => self.plugins_closed(),
                }
            },
        }
    }

    /// What an action of the settings page came to. Nothing once the page is gone.
    pub open spec fn panel_ended(self, outcome: PanelOutcome) -> (AppModel, Seq<EffectModel>) {
        if self.panel is None {
            (self, Seq::empty())
        } else {
            match outcome {
                PanelOutcome::Continue => (self, seq![EffectModel::Redraw]),
                PanelOutcome::Changed => (
                    self,
                    seq![EffectModel::ApplySettings, EffectModel::Redraw],
                ),
                PanelOutcome::Save => (self, seq![EffectModel::SaveSettings, EffectModel::Redraw]),
                PanelOutcome::Close => self.settings_closed(),
            }
        }
    }

    // --- the sidebar ------------------------------------------------------------

    pub open spec fn explorer_toggled(self) -> (AppModel, Seq<EffectModel>) {
        if self.sidebar is Some {
            (
                AppModel { sidebar: None, sidebar_focused: false, ..self },
                seq![EffectModel::Relayout, EffectModel::Redraw],
            )
        } else {
            (self, seq![EffectModel::OpenSidebar])
        }
    }

    /// The keyboard given back to the terminal, the sidebar staying open.
    pub open spec fn unfocused(self) -> (AppModel, Seq<EffectModel>) {
        if self.sidebar_focused {
            (AppModel { sidebar_focused: false, ..self }, seq![EffectModel::Redraw])
        } else {
            (self, Seq::empty())
        }
    }

    /// What the explorer asked for.
    pub open spec fn explorer_asked(self, outcome: OutcomeModel) -> (AppModel, Seq<EffectModel>) {
        match outcome {
            OutcomeModel::Continue => (self, Seq::empty()),
            OutcomeModel::Redraw => (self, seq![EffectModel::Redraw]),
            OutcomeModel::Unfocus => self.unfocused(),
            OutcomeModel::Enter(dir) => (self, seq![EffectModel::ListDir(dir)]),
            OutcomeModel::InsertPath(path) => (
                self,
                seq![
                    EffectModel::PasteText(crate::explorer::quoted(path)),
                    EffectModel::Redraw,
                ],
            ),
            OutcomeModel::RunCd(dir) => (
                self,
                seq![
                    EffectModel::WriteFocused(
                        vstd::utf8::encode_utf8(
                            "cd "@ + crate::explorer::quoted(dir) + seq!['\r'],
                        ),
                    ),
                    EffectModel::Redraw,
                ],
            ),
            OutcomeModel::OpenEditor(path) => {
                let (after, more) = self.unfocused();
                (
                    after,
                    seq![
                        EffectModel::WriteFocused(
                            vstd::utf8::encode_utf8(
                                "\"$EDITOR\" "@ + crate::explorer::quoted(path) + seq!['\r'],
                            ),
                        ),
                    ] + more + seq![EffectModel::Redraw],
                )
            },
        }
    }

    /// The explorer changed, and then what it asked for.
    pub open spec fn explorer_step(self, e: ExplorerModel, outcome: OutcomeModel) -> (
        AppModel,
        Seq<EffectModel>,
    ) {
        AppModel { sidebar: Some(e), ..self }.explorer_asked(outcome)
    }

    // --- messages ---------------------------------------------------------------

    pub open spec fn notified(self, text: Seq<char>, level: NotifyLevel, now: u64) -> (
        AppModel,
        Seq<EffectModel>,
    ) {
        (
            AppModel {
                toasts: NotificationModel::newest(
                    self.toasts.push(NotificationModel { text, level, shown_at: now }),
                ),
                ..self
            },
            seq![EffectModel::Redraw],
        )
    }

    // --- tabs and panes ---------------------------------------------------------

    /// A shell in a new terminal tab.
    pub open spec fn tab_started(self, pane: u64, start: TabStart) -> (AppModel, Seq<EffectModel>) {
        match start {
            TabStart::Plain => (
                self,
                seq![
                    EffectModel::Relayout,
                    EffectModel::StartShell(pane, None, false),
                    EffectModel::Relayout,
                    EffectModel::Redraw,
                ],
            ),
            TabStart::Chosen => (
                AppModel { pending_shell: None, ..self },
                seq![
                    EffectModel::StartShell(pane, self.pending_shell, true),
                    EffectModel::Relayout,
                    EffectModel::Redraw,
                ],
            ),
        }
    }

    // --- bindings ---------------------------------------------------------------

    /// A bound action performed.
    pub open spec fn dispatched(self, action: Action, world: World) -> (AppModel, Seq<EffectModel>) {
        match action {
            Action::Quit => (self, seq![EffectModel::Exit]),
            // The reload itself tells the plugins.
            Action::ReloadConfig => (self, seq![EffectModel::ReloadConfig]),
            Action::OpenSettings => self.settings_toggled(world),
            Action::OpenExplorer => self.explorer_toggled(),
            Action::OpenHelp => self.help_toggled(world),
            Action::OpenPlugins => self.plugins_toggled(world),
            Action::SplitRight => (self, seq![EffectModel::Split(Direction::Right)]),
            Action::SplitLeft => (self, seq![EffectModel::Split(Direction::Left)]),
            Action::SplitUp => (self, seq![EffectModel::Split(Direction::Up)]),
            Action::SplitDown => (self, seq![EffectModel::Split(Direction::Down)]),
            Action::ClosePane => (self, seq![EffectModel::ClosePane(world.active_pane)]),
            Action::FocusLeft => (self, seq![EffectModel::Focus(Direction::Left)]),
            Action::FocusRight => (self, seq![EffectModel::Focus(Direction::Right)]),
            Action::FocusUp => (self, seq![EffectModel::Focus(Direction::Up)]),
            Action::FocusDown => (self, seq![EffectModel::Focus(Direction::Down)]),
            Action::FocusNextPane => (self, next_pane(world, true)),
            Action::FocusPrevPane => (self, next_pane(world, false)),
            Action::ResizeLeft => (self, resize_step(Direction::Left)),
            Action::ResizeRight => (self, resize_step(Direction::Right)),
            Action::ResizeUp => (self, resize_step(Direction::Up)),
            Action::ResizeDown => (self, resize_step(Direction::Down)),
            Action::NewTab => (self, seq![EffectModel::OpenTab(TabStart::Plain)]),
            Action::CloseTab => (self, seq![EffectModel::CloseTab(world.active_tab)]),
            Action::NextTab => (self, seq![EffectModel::NextTab] + tab_shown()),
            Action::PrevTab => (self, seq![EffectModel::PrevTab] + tab_shown()),
            Action::SelectTab(n) => (
                self,
                seq![
                    EffectModel::SelectTab(
                        (if n == 0 {
                            0
                        } else {
                            n - 1
                        }) as usize,
                        AfterSelect::Activate,
                    ),
                ],
            ),
            Action::CopySelection => (self, seq![EffectModel::CopySelection]),
            Action::Paste => (self, seq![EffectModel::PasteClipboard]),
            Action::SelectAll => (self, seq![EffectModel::SelectAll, EffectModel::Redraw]),
            Action::IncreaseFontSize => (self, seq![EffectModel::FontSize(1)]),
            Action::DecreaseFontSize => (self, seq![EffectModel::FontSize((-1) as i32)]),
            Action::ResetFontSize => (
                self,
                seq![
                    EffectModel::ResetFontSize,
                    EffectModel::RebuildFonts,
                    EffectModel::Relayout,
                    EffectModel::Redraw,
                ],
            ),
            Action::ToggleFullscreen => (self, seq![EffectModel::ToggleFullscreen]),
            Action::ScrollLineUp => (self, seq![EffectModel::Scroll(1), EffectModel::Redraw]),
            Action::ScrollLineDown => (self, seq![EffectModel::Scroll((-1) as i32), EffectModel::Redraw]),
            Action::ScrollPageUp => (self, seq![EffectModel::ScrollPage(1), EffectModel::Redraw]),
            Action::ScrollPageDown => (
                self,
                seq![EffectModel::ScrollPage((-1) as i32), EffectModel::Redraw],
            ),
            Action::ScrollToTop => (self, seq![EffectModel::ScrollToTop, EffectModel::Redraw]),
            Action::ScrollToBottom => (
                self,
                seq![EffectModel::ScrollToBottom, EffectModel::Redraw],
            ),
            Action::ClearScrollback => (
                self,
                seq![EffectModel::ClearScrollback, EffectModel::Redraw],
            ),
            Action::SendText(text) => (
                self,
                seq![EffectModel::WriteFocused(vstd::utf8::encode_utf8(text@))],
            ),
            Action::Plugin(name) => (
                self,
                seq![
                    EffectModel::NotifyPlugins(NoticeModel::Command(bare_name(name@, 0))),
                ],
            ),
        }
    }

    /// A toolbar button pressed.
    pub open spec fn button_pressed(self, button: ChromeButton, world: World) -> (
        AppModel,
        Seq<EffectModel>,
    ) {
        match button {
            ChromeButton::NewTabMenu => self.shell_menu_toggled(world),
            ChromeButton::NewTab => (self, seq![EffectModel::OpenTab(TabStart::Plain)]),
            ChromeButton::Settings => self.settings_opened(world),
            ChromeButton::Explorer => self.explorer_toggled(),
            ChromeButton::Help => self.help_toggled(world),
            ChromeButton::Plugins => self.plugins_toggled(world),
            ChromeButton::AppMenu => self.app_menu_toggled(world),
            ChromeButton::SplitRight => (self, seq![EffectModel::Split(Direction::Right)]),
            ChromeButton::SplitDown => (self, seq![EffectModel::Split(Direction::Down)]),
            ChromeButton::Minimize => (self, seq![EffectModel::Minimize]),
            ChromeButton::Maximize => (self, seq![EffectModel::ToggleMaximize]),
            ChromeButton::Close => (self, seq![EffectModel::Exit]),
        }
    }

    /// Something a plugin asked for. It is checked here like a keybinding would be.
    pub open spec fn plugin_asked(self, command: PluginCommand, world: World, now: u64) -> (
        AppModel,
        Seq<EffectModel>,
    ) {
        match command {
            PluginCommand::Ignored => (self, Seq::empty()),
            PluginCommand::Split(direction) => (self, seq![EffectModel::Split(direction)]),
            PluginCommand::NewTab => (self, seq![EffectModel::OpenTab(TabStart::Plain)]),
            PluginCommand::ClosePane(pane) => (
                self,
                seq![
                    EffectModel::ClosePane(
                        match pane {
                            Some(p) => p,
                            None => world.active_pane,
                        },
                    ),
                ],
            ),
            PluginCommand::Focus(direction) => (self, seq![EffectModel::Focus(direction)]),
            PluginCommand::FocusPane(pane) => (
                self,
                seq![EffectModel::FocusPane(pane), EffectModel::Redraw],
            ),
            PluginCommand::SelectTab(index) => (
                self,
                seq![EffectModel::SelectTab(index, AfterSelect::Activate)],
            ),
            PluginCommand::Resize(direction, delta) => (
                self,
                seq![EffectModel::ResizeActive(direction, delta)],
            ),
            PluginCommand::SendText(pane, text) => (
                self,
                seq![
                    EffectModel::WritePane(
                        match pane {
                            Some(p) => p,
                            None => world.active_pane,
                        },
                        vstd::utf8::encode_utf8(text@),
                    ),
                ],
            ),
            PluginCommand::Notify(message, level) => self.notified(message@, level, now),
            PluginCommand::SetConfigOverlay(toml) => (
                self,
                seq![EffectModel::ApplyOverlay(toml@)],
            ),
            PluginCommand::ReloadConfig => (self, seq![EffectModel::ReloadConfig]),
            PluginCommand::Quit => (self, seq![EffectModel::Exit]),
        }
    }
}

/// Fraction of a split adjusted per keyboard resize, in millionths.
pub const RESIZE_STEP: i64 = 20_000;

pub open spec fn resize_step(direction: Direction) -> Seq<EffectModel> {
    seq![EffectModel::ResizeActive(direction, Fixed { millionths: RESIZE_STEP })]
}

/// Another tab is on screen: note that it is looked at, and lay it out.
pub open spec fn tab_shown() -> Seq<EffectModel> {
    seq![EffectModel::TabActivated, EffectModel::Relayout, EffectModel::Redraw]
}

/// Where a pane stands among the first `n`.
pub open spec fn pane_position(panes: Seq<u64>, pane: u64, n: int) -> Option<int>
    decreases n,
{
    if n <= 0 {
        None
    } else if pane_position(panes, pane, n - 1) is Some {
        pane_position(panes, pane, n - 1)
    } else if panes[n - 1] == pane {
        Some(n - 1)
    } else {
        None
    }
}

/// The pane after (or before) the focused one, wrapping, when there are several.
pub open spec fn next_pane(world: World, forward: bool) -> Seq<EffectModel> {
    let panes = world.visible@;
    let n = panes.len() as int;
    if n > 1 {
        let current = match pane_position(panes, world.active_pane, n) {
            Some(i) => i,
            None => 0,
        };
        let next = if forward {
            (current + 1) % n
        } else {
            (current + n - 1) % n
        };
        seq![EffectModel::FocusPane(panes[next]), EffectModel::Redraw]
    } else {
        Seq::empty()
    }
}

/// A command's name without its plugin's: what follows the first dot at or after `i`,
/// or all of it.
pub open spec fn bare_name(name: Seq<char>, i: int) -> Seq<char>
    decreases name.len() - i,
{
    if i >= name.len() || i < 0 {
        name
    } else if name[i] == '.' {
        name.skip(i + 1)
    } else {
        bare_name(name, i + 1)
    }
}

impl App {
    /// Nothing open, nothing hovered.
    pub fn new(now: u64) -> (app: Self)
        ensures
            app@ == (AppModel {
                panel: None,
                panel_body: None,
                help: None,
                plugins: None,
                plugins_body: None,
                sidebar: None,
                sidebar_focused: false,
                menu: None,
                menu_rect: None,
                pending_shell: None,
                toasts: Seq::empty(),
                blink: Blink { on: true, at: now, last_input: now },
                pointer: Pointer::initial(),
                dragging: None,
                ide_hits: Seq::empty(),
            }),
            app@.wf(),
    {
        let app = App {
            panel: None,
            panel_body: None,
            help: None,
            plugins_page: None,
            plugins_body: None,
            sidebar: None,
            sidebar_focused: false,
            menu: None,
            menu_rect: None,
            pending_shell: None,
            toasts: Toasts::new(),
            blink: Blink::new(now),
            pointer: Pointer::new(),
            dragging: None,
            ide_hits: Vec::new(),
        };
        assert(hits(app.ide_hits@) =~= Seq::empty());
        app
    }

    // --- menus ------------------------------------------------------------------

    pub fn close_menu(&mut self) -> (effects: Vec<Effect>)
        ensures
            (final(self)@, EffectModel::all(effects@)) == old(self)@.menu_closed(),
            old(self)@.wf() ==> final(self)@.wf(),
    {
        if self.menu.is_none() {
            return nothing();
        }
        self.menu = None;
        self.menu_rect = None;
        one(Effect::Redraw)
    }

    pub fn move_menu(&mut self, delta: i32) -> (effects: Vec<Effect>)
        requires
            old(self)@.wf(),
        ensures
            (final(self)@, EffectModel::all(effects@)) == old(self)@.menu_moved(delta as int),
            final(self)@.wf(),
    {
        match &mut self.menu {
            Some(menu) => {
                menu.move_selection(delta);
            },
            None => {
                return nothing();
            },
        }
        one(Effect::Redraw)
    }

    /// Open a tab running `shell`, or the configured one when `None`.
    fn new_tab_with(&mut self, shell: Option<String>) -> (effects: Vec<Effect>)
        ensures
            (final(self)@, EffectModel::all(effects@)) == old(self)@.tab_with(
                crate::strings::text_of(shell),
            ),
            old(self)@.wf() ==> final(self)@.wf(),
    {
        self.pending_shell = shell;
        one(Effect::OpenTab(TabStart::Chosen))
    }

    /// Act on the highlighted row and close the menu.
    pub fn pick_menu_item(&mut self, world: &World) -> (effects: Vec<Effect>)
        requires
            old(self)@.wf(),
        ensures
            (final(self)@, EffectModel::all(effects@)) == old(self)@.menu_picked(*world),
            final(self)@.wf(),
    {
        let choice: Option<(MenuKind, String)> = match &self.menu {
            Some(menu) => match menu.selected() {
                Some(item) => Some((menu.kind, item.value.clone())),
                None => None,
            },
            None => None,
        };
        let mut effects = self.close_menu();
        match choice {
            None => {},
            Some((MenuKind::NewTabShell, value)) => {
                let more = self.new_tab_with(Some(value));
                add_effects(&mut effects, more);
            },
            Some((MenuKind::AppMenu, value)) => {
                let more = if same_text(value.as_str(), "settings") {
                    self.open_settings(world)
                } else if same_text(value.as_str(), "help") {
                    self.toggle_help(world)
                } else if same_text(value.as_str(), "plugins") {
                    self.toggle_plugins(world)
                } else {
                    nothing()
                };
                add_effects(&mut effects, more);
                proof {
                    reveal_strlit("settings");
                    reveal_strlit("help");
                    reveal_strlit("plugins");
                }
            },
        }
        assert(EffectModel::all(effects@) =~= old(self)@.menu_picked(*world).1);
        effects
    }

    /// Open or close the menu that groups the pages reached occasionally.
    pub fn toggle_app_menu(&mut self, world: &World) -> (effects: Vec<Effect>)
        requires
            old(self)@.wf(),
        ensures
            (final(self)@, EffectModel::all(effects@)) == old(self)@.app_menu_toggled(*world),
            final(self)@.wf(),
    {
        if self.menu.is_some() {
            return self.close_menu();
        }
        let anchor = match world.find_anchor(ChromeButton::AppMenu) {
            Some(rect) => rect,
            None => {
                return nothing();
            },
        };
        let items = vec![
            MenuItem { label: "Settings".to_owned(), value: "settings".to_owned() },
            MenuItem { label: "Shortcuts".to_owned(), value: "help".to_owned() },
            MenuItem { label: "Plugins".to_owned(), value: "plugins".to_owned() },
        ];
        assert(MenuModel::rows(items@) =~= AppModel::app_menu_rows());
        self.menu = Some(Menu::new(MenuKind::AppMenu, anchor, items));
        one(Effect::Redraw)
    }

    /// Open or close the menu of shells. The shells are listed first.
    pub fn toggle_new_tab_menu(&mut self, world: &World) -> (effects: Vec<Effect>)
        requires
            old(self)@.wf(),
        ensures
            (final(self)@, EffectModel::all(effects@)) == old(self)@.shell_menu_toggled(*world),
            final(self)@.wf(),
    {
        if self.menu.is_some() {
            return self.close_menu();
        }
        if world.find_anchor(ChromeButton::NewTabMenu).is_none() {
            return nothing();
        }
        one(Effect::ListShells)
    }

    /// The shells there are, for the menu. Without any there is nothing to choose
    /// between, and the tab is opened at once.
    pub fn shells_listed(&mut self, items: Vec<MenuItem>, world: &World) -> (effects: Vec<Effect>)
        requires
            old(self)@.wf(),
            items@.len() <= i32::MAX,
        ensures
            (final(self)@, EffectModel::all(effects@)) == old(self)@.shells_shown(
                MenuModel::rows(items@),
                *world,
            ),
            final(self)@.wf(),
    {
        let anchor = match world.find_anchor(ChromeButton::NewTabMenu) {
            Some(rect) => rect,
            None => {
                return nothing();
            },
        };
        if items.len() == 0 {
            return self.new_tab_with(None);
        }
        self.menu = Some(Menu::new(MenuKind::NewTabShell, anchor, items));
        one(Effect::Redraw)
    }

    // --- pages ------------------------------------------------------------------

    pub fn settings_active(&self, world: &World) -> (b: bool)
        ensures
            b == self@.settings_active(*world),
    {
        self.panel.is_some() && world.kind == TabKind::Settings
    }

    pub fn help_active(&self, world: &World) -> (b: bool)
        ensures
            b == self@.help_active(*world),
    {
        self.help.is_some() && world.kind == TabKind::Help
    }

    pub fn plugins_active(&self, world: &World) -> (b: bool)
        ensures
            b == self@.plugins_active(*world),
    {
        self.plugins_page.is_some() && world.kind == TabKind::Plugins
    }

    /// Open the settings page, or return to it with its edits intact.
    pub fn open_settings(&mut self, world: &World) -> (effects: Vec<Effect>)
        requires
            old(self)@.wf(),
        ensures
            (final(self)@, EffectModel::all(effects@)) == old(self)@.settings_opened(*world),
            final(self)@.wf(),
    {
        if let Some(tab) = world.settings_tab {
            return two(Effect::SelectTab(tab, AfterSelect::Page), Effect::Redraw);
        }
        self.panel = Some(Ui::new());
        let mut effects = one(Effect::GatherSettings);
        add_effect(&mut effects, Effect::OpenPageTab(TabKind::Settings));
        add_effect(&mut effects, Effect::Relayout);
        add_effect(&mut effects, Effect::Redraw);
        assert(EffectModel::all(effects@) =~= old(self)@.settings_opened(*world).1);
        effects
    }

    pub fn close_settings(&mut self) -> (effects: Vec<Effect>)
        ensures
            (final(self)@, EffectModel::all(effects@)) == old(self)@.settings_closed(),
            old(self)@.wf() ==> final(self)@.wf(),
    {
        self.panel = None;
        one(Effect::ClosePage(TabKind::Settings))
    }

    pub fn close_help(&mut self) -> (effects: Vec<Effect>)
        ensures
            (final(self)@, EffectModel::all(effects@)) == old(self)@.help_closed(),
            old(self)@.wf() ==> final(self)@.wf(),
    {
        self.help = None;
        one(Effect::ClosePage(TabKind::Help))
    }

    /// Open the shortcut reference, return to it, or close it when it is on screen.
    pub fn toggle_help(&mut self, world: &World) -> (effects: Vec<Effect>)
        requires
            old(self)@.wf(),
        ensures
            (final(self)@, EffectModel::all(effects@)) == old(self)@.help_toggled(*world),
            final(self)@.wf(),
    {
        if let Some(tab) = world.help_tab {
            if world.kind == TabKind::Help {
                return self.close_help();
            }
            return two(Effect::SelectTab(tab, AfterSelect::Page), Effect::Redraw);
        }
        self.help = Some(HelpPage::open());
        let mut effects = two(Effect::OpenPageTab(TabKind::Help), Effect::Relayout);
        add_effect(&mut effects, Effect::Redraw);
        assert(EffectModel::all(effects@) =~= AppModel::page_opened(TabKind::Help));
        effects
    }

    pub fn close_plugins(&mut self) -> (effects: Vec<Effect>)
        ensures
            (final(self)@, EffectModel::all(effects@)) == old(self)@.plugins_closed(),
            old(self)@.wf() ==> final(self)@.wf(),
    {
        self.plugins_page = None;
        one(Effect::ClosePage(TabKind::Plugins))
    }

    /// Open the plugins page, return to it, or close it when it is on screen. What is
    /// installed is listed first.
    pub fn toggle_plugins(&mut self, world: &World) -> (effects: Vec<Effect>)
        requires
            old(self)@.wf(),
        ensures
            (final(self)@, EffectModel::all(effects@)) == old(self)@.plugins_toggled(*world),
            final(self)@.wf(),
    {
        if let Some(tab) = world.plugins_tab {
            if world.kind == TabKind::Plugins {
                return self.close_plugins();
            }
            return two(Effect::SelectTab(tab, AfterSelect::Page), Effect::Redraw);
        }
        one(Effect::ListPlugins)
    }

    /// What is installed, for a page that is being opened.
    pub fn plugins_listed(&mut self, found: Vec<Installed>, install_dir: &str) -> (effects: Vec<
        Effect,
    >)
        requires
            old(self)@.wf(),
        ensures
            final(self)@ == (AppModel {
                plugins: Some(
                    PluginsModel {
                        ui: UiModel::empty(),
                        found: found@,
                        install_dir: install_dir@,
                        message: None,
                    },
                ),
                ..old(self)@
            }),
            EffectModel::all(effects@) == AppModel::page_opened(TabKind::Plugins),
            final(self)@.wf(),
    {
        self.plugins_page = Some(PluginsPage::open(found, install_dir));
        let mut effects = two(Effect::OpenPageTab(TabKind::Plugins), Effect::Relayout);
        add_effect(&mut effects, Effect::Redraw);
        assert(EffectModel::all(effects@) =~= AppModel::page_opened(TabKind::Plugins));
        effects
    }

    /// Apply an action of the plugins page. `config` is what is configured now.
    pub fn handle_plugins_action(&mut self, action: &UiAction, config: PluginConfig) -> (effects:
        Vec<Effect>)
        requires
            old(self)@.wf(),
        ensures
            (final(self)@, EffectModel::all(effects@)) == old(self)@.plugins_acted(
                action@,
                config@,
            ),
            final(self)@.wf(),
    {
        let ghost now = config@;
        let mut next = config;
        let outcome = match &mut self.plugins_page {
            Some(page) => page.apply(action, &mut next),
            None => {
                return nothing();
            },
        };
        match outcome {
            PluginsOutcome::Continue => one(Effect::Redraw),
            PluginsOutcome::ChooseFolder(purpose) => two(
                Effect::ChooseFolder(purpose),
                Effect::Redraw,
            ),
            PluginsOutcome::Toggled => {
                let mut effects = two(Effect::SetPlugins(next), Effect::ReloadPlugins);
                add_effect(&mut effects, Effect::Redraw);
                assert(EffectModel::all(effects@) =~= old(self)@.plugins_acted(action@, now).1);
                effects
            },
            PluginsOutcome::Close => self.close_plugins(),
        }
    }

    /// Something reached the event loop. A cancelled dialog is not an error, and a folder
    /// picked for a page that is gone is nobody's.
    pub fn user_event(&self, event: UserEvent) -> (effects: Vec<Effect>)
        ensures
            EffectModel::all(effects@) == (match event {
                UserEvent::ConfigChanged => seq![EffectModel::ReloadConfig],
                UserEvent::Wakeup => seq![EffectModel::DrainTerminals],
                UserEvent::FolderPicked { purpose, path } => match path {
                    Some(path) => EffectModel::when(
                        self@.plugins is Some,
                        seq![EffectModel::UseFolder(purpose, path@)],
                    ),
                    None => Seq::empty(),
                },
            }),
    {
        match event {
            UserEvent::ConfigChanged => one(Effect::ReloadConfig),
            UserEvent::Wakeup => one(Effect::DrainTerminals),
            UserEvent::FolderPicked { purpose, path } => match path {
                Some(path) => {
                    if self.plugins_page.is_some() {
                        one(Effect::UseFolder(purpose, path))
                    } else {
                        nothing()
                    }
                },
                None => nothing(),
            },
        }
    }

    /// A folder was chosen and acted on. Nothing happens once the page is gone.
    pub fn folder_picked(&mut self, done: &FolderResult, path: &str) -> (effects: Vec<Effect>)
        requires
            old(self)@.wf(),
        ensures
            final(self)@ == (AppModel {
                plugins: match old(self)@.plugins {
                    Some(page) => Some(
                        PluginsModel { message: Some(done.report(path@)), ..page },
                    ),
                    None => None,
                },
                ..old(self)@
            }),
            EffectModel::all(effects@) == (if old(self)@.plugins is None {
                Seq::empty()
            } else if done matches FolderResult::Imported(Ok(_)) {
                seq![EffectModel::ReloadPlugins, EffectModel::Redraw]
            } else {
                seq![EffectModel::Redraw]
            }),
            final(self)@.wf(),
    {
        let changed = match &mut self.plugins_page {
            Some(page) => page.folder_chosen(done, path),
            None => {
                return nothing();
            },
        };
        if changed {
            two(Effect::ReloadPlugins, Effect::Redraw)
        } else {
            one(Effect::Redraw)
        }
    }

    /// What an action of the settings page came to. Nothing happens once the page is gone.
    pub fn panel_done(&mut self, outcome: PanelOutcome) -> (effects: Vec<Effect>)
        requires
            old(self)@.wf(),
        ensures
            (final(self)@, EffectModel::all(effects@)) == old(self)@.panel_ended(outcome),
            final(self)@.wf(),
    {
        if self.panel.is_none() {
            return nothing();
        }
        match outcome {
            PanelOutcome::Continue => one(Effect::Redraw),
            PanelOutcome::Changed => two(Effect::ApplySettings, Effect::Redraw),
            PanelOutcome::Save => two(Effect::SaveSettings, Effect::Redraw),
            PanelOutcome::Close => self.close_settings(),
        }
    }

    // --- the sidebar ------------------------------------------------------------

    /// Toggle the explorer sidebar. Every pane regrids, because the sidebar takes its
    /// width out of theirs.
    pub fn toggle_explorer(&mut self) -> (effects: Vec<Effect>)
        ensures
            (final(self)@, EffectModel::all(effects@)) == old(self)@.explorer_toggled(),
            old(self)@.wf() ==> final(self)@.wf(),
    {
        if self.sidebar.is_some() {
            self.sidebar = None;
            self.sidebar_focused = false;
            two(Effect::Relayout, Effect::Redraw)
        } else {
            one(Effect::OpenSidebar)
        }
    }

    /// The directory the sidebar opens on. With `focus` it takes the keyboard: it was
    /// asked for. One that is open because it is configured so does not.
    pub fn sidebar_opened(
        &mut self,
        dir: &str,
        show_hidden: bool,
        read: Option<Vec<Listed>>,
        focus: bool,
    ) -> (effects: Vec<Effect>)
        requires
            old(self)@.wf(),
        ensures
            final(self)@ == (AppModel {
                sidebar: Some(
                    (ExplorerModel {
                        ui: UiModel::empty(),
                        dir: dir@,
                        entries: Seq::empty(),
                        truncated: 0,
                        selected: 0,
                        show_hidden,
                        prompt: None,
                    }).refreshed(read),
                ),
                sidebar_focused: focus || old(self)@.sidebar_focused,
                ..old(self)@
            }),
            EffectModel::all(effects@) == seq![EffectModel::Relayout, EffectModel::Redraw],
            final(self)@.wf(),
    {
        self.sidebar = Some(Explorer::open(dir, show_hidden, read));
        if focus {
            self.sidebar_focused = true;
        }
        two(Effect::Relayout, Effect::Redraw)
    }

    /// Give the keyboard back to the terminal without closing the sidebar.
    pub fn unfocus_explorer(&mut self) -> (effects: Vec<Effect>)
        ensures
            (final(self)@, EffectModel::all(effects@)) == old(self)@.unfocused(),
            old(self)@.wf() ==> final(self)@.wf(),
    {
        if self.sidebar_focused {
            self.sidebar_focused = false;
            one(Effect::Redraw)
        } else {
            nothing()
        }
    }

    /// Act on what the explorer asked for.
    ///
    /// A path typed at the prompt is a paste, so that it cannot inject keystrokes. The
    /// two commands are meant to run and are not. An editor takes the keyboard with it.
    pub fn handle_explorer_outcome(&mut self, outcome: ExplorerOutcome) -> (effects: Vec<Effect>)
        ensures
            (final(self)@, EffectModel::all(effects@)) == old(self)@.explorer_asked(outcome@),
            old(self)@.wf() ==> final(self)@.wf(),
    {
        let ghost asked = outcome@;
        match outcome {
            ExplorerOutcome::Continue => nothing(),
            ExplorerOutcome::Redraw => one(Effect::Redraw),
            ExplorerOutcome::Unfocus => self.unfocus_explorer(),
            ExplorerOutcome::Enter(dir) => one(Effect::ListDir(dir)),
            ExplorerOutcome::InsertPath(path) => two(
                Effect::PasteText(shell_quote(path.as_str())),
                Effect::Redraw,
            ),
            ExplorerOutcome::RunCd(dir) => two(
                Effect::WriteFocused(cd_command(dir.as_str())),
                Effect::Redraw,
            ),
            ExplorerOutcome::OpenEditor(path) => {
                let mut effects = one(Effect::WriteFocused(editor_command(path.as_str())));
                let more = self.unfocus_explorer();
                add_effects(&mut effects, more);
                add_effect(&mut effects, Effect::Redraw);
                assert(EffectModel::all(effects@) =~= old(self)@.explorer_asked(asked).1);
                effects
            },
        }
    }

    /// A directory the explorer asked for, as it was read.
    pub fn dir_listed(&mut self, dir: &str, read: Option<Vec<Listed>>) -> (effects: Vec<Effect>)
        requires
            old(self)@.wf(),
        ensures
            final(self)@ == (AppModel {
                sidebar: match old(self)@.sidebar {
                    Some(e) => Some(e.arrived(dir@, read)),
                    None => None,
                },
                ..old(self)@
            }),
            EffectModel::all(effects@) == EffectModel::when(
                old(self)@.sidebar is Some,
                seq![EffectModel::Redraw],
            ),
            final(self)@.wf(),
    {
        match &mut self.sidebar {
            Some(explorer) => {
                explorer.arrive(dir, read);
            },
            None => {
                return nothing();
            },
        }
        one(Effect::Redraw)
    }

    /// The explorer's own directory, read again.
    pub fn relisted(&mut self, read: Option<Vec<Listed>>) -> (effects: Vec<Effect>)
        requires
            old(self)@.wf(),
        ensures
            final(self)@ == (AppModel {
                sidebar: match old(self)@.sidebar {
                    Some(e) => Some(e.refreshed(read)),
                    None => None,
                },
                ..old(self)@
            }),
            EffectModel::all(effects@) == EffectModel::when(
                old(self)@.sidebar is Some,
                seq![EffectModel::Redraw],
            ),
            final(self)@.wf(),
    {
        match &mut self.sidebar {
            Some(explorer) => {
                explorer.refresh(read);
            },
            None => {
                return nothing();
            },
        }
        one(Effect::Redraw)
    }

    /// How much is in what is to be deleted, so that the question can say it.
    pub fn inside_counted(&mut self, inside: usize) -> (effects: Vec<Effect>)
        requires
            old(self)@.wf(),
        ensures
            match old(self)@.sidebar {
                Some(e) => match e.own_row() {
                    Some(row) => {
                        &&& EffectModel::all(effects@) == seq![EffectModel::Redraw]
                        &&& final(self)@ == (AppModel {
                            sidebar: Some(
                                e.with_prompt(
                                    Some(
                                        crate::explorer::PromptModel::Delete {
                                            path: row.path,
                                            entries: if row.kind
                                                == crate::widget::EntryKind::Directory {
                                                inside as int
                                            } else {
                                                0
                                            },
                                        },
                                    ),
                                ),
                            ),
                            ..old(self)@
                        })
                    },
                    None => final(self)@ == old(self)@ && effects@.len() == 0,
                },
                None => final(self)@ == old(self)@ && effects@.len() == 0,
            },
            final(self)@.wf(),
    {
        let done = match &mut self.sidebar {
            Some(explorer) => explorer.begin_delete(inside),
            None => false,
        };
        if done {
            one(Effect::Redraw)
        } else {
            Vec::new()
        }
    }

    /// Carry out the explorer's prompt. A refusal is shown: a rename that just closed
    /// the prompt would look like it worked.
    pub fn commit_explorer_prompt(&mut self, target_exists: bool, backslash: bool, now: u64) -> (r: (
        Commit,
        Vec<Effect>,
    ))
        requires
            old(self)@.wf(),
        ensures
            match old(self)@.sidebar {
                None => r.0@ == CommitModel::Nothing && final(self)@ == old(self)@
                    && EffectModel::all(r.1@) == Seq::<EffectModel>::empty(),
                Some(e) => {
                    let (after, commit) = e.committed(target_exists, backslash);
                    let next = AppModel { sidebar: Some(after), ..old(self)@ };
                    &&& r.0@ == commit
                    &&& match commit {
                        CommitModel::Refused(why) => {
                            &&& final(self)@ == next.notified(why, NotifyLevel::Error, now).0
                            &&& EffectModel::all(r.1@) == seq![
                                EffectModel::Redraw,
                                EffectModel::Redraw,
                            ]
                        },
                        _ => {
                            &&& final(self)@ == next
                            &&& EffectModel::all(r.1@) == seq![EffectModel::Redraw]
                        },
                    }
                },
            },
            final(self)@.wf(),
    {
        let commit = match &mut self.sidebar {
            Some(explorer) => explorer.commit_prompt(target_exists, backslash),
            None => {
                return (Commit::Nothing, nothing());
            },
        };
        let refusal: Option<String> = match &commit {
            Commit::Refused(why) => Some(why.clone()),
            _ => None,
        };
        match refusal {
            Some(why) => {
                let mut effects = self.notify(why.as_str(), NotifyLevel::Error, now);
                add_effect(&mut effects, Effect::Redraw);
                assert(EffectModel::all(effects@) =~= seq![
                    EffectModel::Redraw,
                    EffectModel::Redraw,
                ]);
                (commit, effects)
            },
            None => (commit, one(Effect::Redraw)),
        }
    }

    // --- messages ---------------------------------------------------------------

    /// Show a transient message.
    pub fn notify(&mut self, text: &str, level: NotifyLevel, now: u64) -> (effects: Vec<Effect>)
        ensures
            (final(self)@, EffectModel::all(effects@)) == old(self)@.notified(text@, level, now),
            old(self)@.wf() ==> final(self)@.wf(),
    {
        self.toasts.notify(text, level, now);
        one(Effect::Redraw)
    }

    /// A plugin's configuration overlay was rejected, and why.
    pub fn overlay_rejected(&mut self, why: &str, now: u64) -> (effects: Vec<Effect>)
        ensures
            (final(self)@, EffectModel::all(effects@)) == old(self)@.notified(
                "Plugin config overlay rejected: "@ + why@,
                NotifyLevel::Warn,
                now,
            ),
            old(self)@.wf() ==> final(self)@.wf(),
    {
        let mut text = "Plugin config overlay rejected: ".to_owned();
        text.append(why);
        self.notify(text.as_str(), NotifyLevel::Warn, now)
    }

    /// The configured theme did not load, and why.
    pub fn theme_failed(&mut self, why: &str, now: u64) -> (effects: Vec<Effect>)
        ensures
            (final(self)@, EffectModel::all(effects@)) == old(self)@.notified(
                "theme failed to load: "@ + why@,
                NotifyLevel::Error,
                now,
            ),
            old(self)@.wf() ==> final(self)@.wf(),
    {
        let mut text = "theme failed to load: ".to_owned();
        text.append(why);
        self.notify(text.as_str(), NotifyLevel::Error, now)
    }

    // --- tabs and panes ---------------------------------------------------------

    /// A terminal tab was opened, holding `pane`.
    pub fn tab_opened(&mut self, pane: u64, start: TabStart) -> (effects: Vec<Effect>)
        ensures
            (final(self)@, EffectModel::all(effects@)) == old(self)@.tab_started(pane, start),
            old(self)@.wf() ==> final(self)@.wf(),
    {
        match start {
            TabStart::Plain => {
                let mut effects = two(Effect::Relayout, Effect::StartShell(pane, None, false));
                add_effect(&mut effects, Effect::Relayout);
                add_effect(&mut effects, Effect::Redraw);
                assert(EffectModel::all(effects@) =~= old(self)@.tab_started(pane, start).1);
                effects
            },
            TabStart::Chosen => {
                let shell = self.pending_shell.clone();
                self.pending_shell = None;
                let mut effects = two(Effect::StartShell(pane, shell, true), Effect::Relayout);
                add_effect(&mut effects, Effect::Redraw);
                assert(EffectModel::all(effects@) =~= old(self)@.tab_started(pane, start).1);
                effects
            },
        }
    }

    // --- bindings ---------------------------------------------------------------

    /// Perform a bound action.
    pub fn dispatch(&mut self, action: &Action, world: &World) -> (effects: Vec<Effect>)
        requires
            old(self)@.wf(),
        ensures
            (final(self)@, EffectModel::all(effects@)) == old(self)@.dispatched(*action, *world),
            final(self)@.wf(),
    {
        match action {
            Action::Quit => one(Effect::Exit),
            Action::ReloadConfig => one(Effect::ReloadConfig),
            Action::OpenSettings => {
                if self.settings_active(world) {
                    self.close_settings()
                } else {
                    self.open_settings(world)
                }
            },
            Action::OpenExplorer => self.toggle_explorer(),
            Action::OpenHelp => self.toggle_help(world),
            Action::OpenPlugins => self.toggle_plugins(world),
            Action::SplitRight => one(Effect::Split(Direction::Right)),
            Action::SplitLeft => one(Effect::Split(Direction::Left)),
            Action::SplitUp => one(Effect::Split(Direction::Up)),
            Action::SplitDown => one(Effect::Split(Direction::Down)),
            Action::ClosePane => one(Effect::ClosePane(world.active_pane)),
            Action::FocusLeft => one(Effect::Focus(Direction::Left)),
            Action::FocusRight => one(Effect::Focus(Direction::Right)),
            Action::FocusUp => one(Effect::Focus(Direction::Up)),
            Action::FocusDown => one(Effect::Focus(Direction::Down)),
            Action::FocusNextPane => focus_next(world, true),
            Action::FocusPrevPane => focus_next(world, false),
            Action::ResizeLeft => resize_by_key(Direction::Left),
            Action::ResizeRight => resize_by_key(Direction::Right),
            Action::ResizeUp => resize_by_key(Direction::Up),
            Action::ResizeDown => resize_by_key(Direction::Down),
            Action::NewTab => one(Effect::OpenTab(TabStart::Plain)),
            Action::CloseTab => one(Effect::CloseTab(world.active_tab)),
            Action::NextTab => show_tab(Effect::NextTab),
            Action::PrevTab => show_tab(Effect::PrevTab),
            Action::SelectTab(n) => {
                let index: usize = if *n == 0 {
                    0
                } else {
                    (*n - 1) as usize
                };
                one(Effect::SelectTab(index, AfterSelect::Activate))
            },
            Action::CopySelection => one(Effect::CopySelection),
            Action::Paste => one(Effect::PasteClipboard),
            Action::SelectAll => two(Effect::SelectAll, Effect::Redraw),
            Action::IncreaseFontSize => one(Effect::FontSize(1)),
            Action::DecreaseFontSize => one(Effect::FontSize(-1)),
            Action::ResetFontSize => {
                let mut effects = two(Effect::ResetFontSize, Effect::RebuildFonts);
                add_effect(&mut effects, Effect::Relayout);
                add_effect(&mut effects, Effect::Redraw);
                assert(EffectModel::all(effects@) =~= old(self)@.dispatched(*action, *world).1);
                effects
            },
            Action::ToggleFullscreen => one(Effect::ToggleFullscreen),
            Action::ScrollLineUp => two(Effect::Scroll(1), Effect::Redraw),
            Action::ScrollLineDown => two(Effect::Scroll(-1), Effect::Redraw),
            Action::ScrollPageUp => two(Effect::ScrollPage(1), Effect::Redraw),
            Action::ScrollPageDown => two(Effect::ScrollPage(-1), Effect::Redraw),
            Action::ScrollToTop => two(Effect::ScrollToTop, Effect::Redraw),
            Action::ScrollToBottom => two(Effect::ScrollToBottom, Effect::Redraw),
            Action::ClearScrollback => two(Effect::ClearScrollback, Effect::Redraw),
            Action::SendText(text) => one(Effect::WriteFocused(text.as_str().as_bytes_vec())),
            Action::Plugin(name) => one(
                Effect::NotifyPlugins(Notice::Command(command_name(name.as_str()))),
            ),
        }
    }

    /// Act on a toolbar button.
    pub fn press_chrome_button(&mut self, button: ChromeButton, world: &World) -> (effects: Vec<
        Effect,
    >)
        requires
            old(self)@.wf(),
        ensures
            (final(self)@, EffectModel::all(effects@)) == old(self)@.button_pressed(button, *world),
            final(self)@.wf(),
    {
        match button {
            ChromeButton::NewTabMenu => self.toggle_new_tab_menu(world),
            ChromeButton::NewTab => self.dispatch(&Action::NewTab, world),
            ChromeButton::Settings => self.open_settings(world),
            ChromeButton::Explorer => self.toggle_explorer(),
            ChromeButton::Help => self.toggle_help(world),
            ChromeButton::Plugins => self.toggle_plugins(world),
            ChromeButton::AppMenu => self.toggle_app_menu(world),
            ChromeButton::SplitRight => one(Effect::Split(Direction::Right)),
            ChromeButton::SplitDown => one(Effect::Split(Direction::Down)),
            ChromeButton::Minimize => one(Effect::Minimize),
            ChromeButton::Maximize => one(Effect::ToggleMaximize),
            ChromeButton::Close => one(Effect::Exit),
        }
    }

    /// Act on something a plugin asks for.
    pub fn apply_plugin_command(&mut self, command: &PluginCommand, world: &World, now: u64) -> (effects:
        Vec<Effect>)
        requires
            old(self)@.wf(),
        ensures
            (final(self)@, EffectModel::all(effects@)) == old(self)@.plugin_asked(
                *command,
                *world,
                now,
            ),
            final(self)@.wf(),
    {
        match command {
            PluginCommand::Ignored => nothing(),
            PluginCommand::Split(direction) => one(Effect::Split(*direction)),
            PluginCommand::NewTab => one(Effect::OpenTab(TabStart::Plain)),
            PluginCommand::ClosePane(pane) => one(Effect::ClosePane(pane_or(*pane, world))),
            PluginCommand::Focus(direction) => one(Effect::Focus(*direction)),
            PluginCommand::FocusPane(pane) => two(Effect::FocusPane(*pane), Effect::Redraw),
            PluginCommand::SelectTab(index) => one(Effect::SelectTab(*index, AfterSelect::Activate)),
            PluginCommand::Resize(direction, delta) => one(
                Effect::ResizeActive(*direction, *delta),
            ),
            PluginCommand::SendText(pane, text) => one(
                Effect::WritePane(pane_or(*pane, world), text.as_str().as_bytes_vec()),
            ),
            PluginCommand::Notify(message, level) => self.notify(message.as_str(), *level, now),
            PluginCommand::SetConfigOverlay(toml) => one(Effect::ApplyOverlay(toml.clone())),
            PluginCommand::ReloadConfig => one(Effect::ReloadConfig),
            PluginCommand::Quit => one(Effect::Exit),
        }
    }
}

fn pane_or(pane: Option<u64>, world: &World) -> (p: u64)
    ensures
        p == (match pane {
            Some(id) => id,
            None => world.active_pane,
        }),
{
    match pane {
        Some(id) => id,
        None => world.active_pane,
    }
}

fn resize_by_key(direction: Direction) -> (effects: Vec<Effect>)
    ensures
        EffectModel::all(effects@) == resize_step(direction),
{
    one(Effect::ResizeActive(direction, Fixed { millionths: RESIZE_STEP }))
}

fn show_tab(first: Effect) -> (effects: Vec<Effect>)
    ensures
        EffectModel::all(effects@) == seq![first@] + tab_shown(),
{
    let mut effects = two(first, Effect::TabActivated);
    add_effect(&mut effects, Effect::Relayout);
    add_effect(&mut effects, Effect::Redraw);
    assert(EffectModel::all(effects@) =~= seq![first@] + tab_shown());
    effects
}

proof fn lemma_position_stays(panes: Seq<u64>, pane: u64, i: int, n: int)
    requires
        0 <= i <= n,
        pane_position(panes, pane, i) is Some,
    ensures
        pane_position(panes, pane, n) == pane_position(panes, pane, i),
    decreases n,
{
    if i < n {
        lemma_position_stays(panes, pane, i, n - 1);
    }
}

fn focus_next(world: &World, forward: bool) -> (effects: Vec<Effect>)
    ensures
        EffectModel::all(effects@) == next_pane(*world, forward),
{
    let n: usize = world.visible.len();
    if n <= 1 {
        return nothing();
    }
    let mut current: usize = 0;
    let mut found = false;
    let mut i: usize = 0;
    while i < n && !found
        invariant
            n == world.visible@.len(),
            i <= n,
            current < n,
            !found ==> current == 0 && pane_position(
                world.visible@,
                world.active_pane,
                i as int,
            ) is None,
            found ==> pane_position(world.visible@, world.active_pane, n as int) == Some(
                current as int,
            ),
        decreases n - i,
    {
        if world.visible[i] == world.active_pane {
            current = i;
            found = true;
            proof {
                lemma_position_stays(world.visible@, world.active_pane, i + 1, n as int);
            }
        }
        i += 1;
    }
    let next: usize = if forward {
        if current + 1 < n {
            current + 1
        } else {
            0
        }
    } else if current > 0 {
        current - 1
    } else {
        n - 1
    };
    proof {
        if forward {
            if current + 1 < n {
                vstd::arithmetic::div_mod::lemma_small_mod((current + 1) as nat, n as nat);
            } else {
                vstd::arithmetic::div_mod::lemma_mod_self_0(n as int);
            }
        } else if current > 0 {
            vstd::arithmetic::div_mod::lemma_mod_add_multiples_vanish(current - 1, n as int);
            vstd::arithmetic::div_mod::lemma_small_mod((current - 1) as nat, n as nat);
        } else {
            vstd::arithmetic::div_mod::lemma_small_mod((n - 1) as nat, n as nat);
        }
    }
    two(Effect::FocusPane(world.visible[next]), Effect::Redraw)
}

/// A command's name without the name of the plugin it was registered under.
pub fn command_name(name: &str) -> (bare: String)
    ensures
        bare@ == bare_name(name@, 0),
{
    let chars = chars_of(name);
    let mut i: usize = 0;
    while i < chars.len()
        invariant
            i <= chars.len(),
            chars@ == name@,
            bare_name(name@, 0) == bare_name(name@, i as int),
        decreases chars.len() - i,
    {
        if chars[i] == '.' {
            let rest = slice_text(&chars, i + 1, chars.len());
            assert(rest@ =~= name@.skip(i + 1));
            return rest;
        }
        i += 1;
    }
    name.to_owned()
}

/// What follows an effect that showed another tab, when there was one.
pub fn tab_selected(then: AfterSelect) -> (effects: Vec<Effect>)
    ensures
        EffectModel::all(effects@) == (match then {
            AfterSelect::Activate => tab_shown(),
            AfterSelect::Page => seq![EffectModel::Relayout, EffectModel::TabActivated],
        }),
{
    match then {
        AfterSelect::Activate => {
            let mut effects = two(Effect::TabActivated, Effect::Relayout);
            add_effect(&mut effects, Effect::Redraw);
            assert(EffectModel::all(effects@) =~= tab_shown());
            effects
        },
        AfterSelect::Page => two(Effect::Relayout, Effect::TabActivated),
    }
}

/// What follows splitting a pane: the new half is laid out before its shell starts, so
/// that it starts at the right size, and once more so that its sibling learns its own.
pub fn pane_created(pane: Option<u64>) -> (effects: Vec<Effect>)
    ensures
        EffectModel::all(effects@) == (match pane {
            Some(p) => seq![
                EffectModel::Relayout,
                EffectModel::StartShell(p, None, true),
                EffectModel::Relayout,
                EffectModel::Redraw,
            ],
            None => Seq::empty(),
        }),
{
    match pane {
        Some(p) => {
            let mut effects = two(Effect::Relayout, Effect::StartShell(p, None, true));
            add_effect(&mut effects, Effect::Relayout);
            add_effect(&mut effects, Effect::Redraw);
            assert(EffectModel::all(effects@) =~= seq![
                EffectModel::Relayout,
                EffectModel::StartShell(p, None, true),
                EffectModel::Relayout,
                EffectModel::Redraw,
            ]);
            effects
        },
        None => nothing(),
    }
}

/// The shells of these panes, shut down in order.
pub open spec fn dropped(panes: Seq<u64>) -> Seq<EffectModel> {
    Seq::new(panes.len(), |i: int| EffectModel::DropSession(panes[i]))
}

/// A tab that held these panes is gone.
pub open spec fn tab_gone(panes: Seq<u64>, empty: bool) -> Seq<EffectModel> {
    dropped(panes) + (if empty {
        seq![EffectModel::Exit]
    } else {
        seq![EffectModel::Relayout, EffectModel::Redraw]
    })
}

/// What follows closing a tab: its shells are shut down, and the window closes with the
/// last tab.
pub fn tab_closed(panes: &Vec<u64>, empty: bool) -> (effects: Vec<Effect>)
    ensures
        EffectModel::all(effects@) == tab_gone(panes@, empty),
{
    let mut effects = nothing();
    let mut i: usize = 0;
    while i < panes.len()
        invariant
            i <= panes@.len(),
            EffectModel::all(effects@) =~= dropped(panes@).take(i as int),
        decreases panes@.len() - i,
    {
        add_effect(&mut effects, Effect::DropSession(panes[i]));
        i += 1;
    }
    assert(dropped(panes@).take(i as int) =~= dropped(panes@));
    if empty {
        add_effect(&mut effects, Effect::Exit);
    } else {
        add_effect(&mut effects, Effect::Relayout);
        add_effect(&mut effects, Effect::Redraw);
    }
    assert(EffectModel::all(effects@) =~= tab_gone(panes@, empty));
    effects
}

/// What follows closing a page. `panes` are those of the tab that held it, if there was
/// one.
pub fn page_closed(panes: Option<&Vec<u64>>, empty: bool) -> (effects: Vec<Effect>)
    ensures
        EffectModel::all(effects@) == (match panes {
            Some(list) => tab_gone(list@, empty),
            None => seq![EffectModel::Redraw],
        }),
{
    match panes {
        Some(list) => tab_closed(list, empty),
        None => one(Effect::Redraw),
    }
}

/// A pane is gone.
pub open spec fn pane_gone(pane: u64, outcome: CloseOutcome) -> Seq<EffectModel> {
    seq![EffectModel::DropSession(pane)] + (match outcome {
        CloseOutcome::Emptied => seq![EffectModel::Exit],
        CloseOutcome::NotFound => Seq::empty(),
        CloseOutcome::Closed => seq![EffectModel::Relayout, EffectModel::Redraw],
    })
}

/// What follows closing a pane.
pub fn pane_closed(pane: u64, outcome: CloseOutcome) -> (effects: Vec<Effect>)
    ensures
        EffectModel::all(effects@) == pane_gone(pane, outcome),
{
    let mut effects = one(Effect::DropSession(pane));
    match outcome {
        CloseOutcome::Emptied => {
            add_effect(&mut effects, Effect::Exit);
        },
        CloseOutcome::NotFound => {},
        CloseOutcome::Closed => {
            add_effect(&mut effects, Effect::Relayout);
            add_effect(&mut effects, Effect::Redraw);
        },
    }
    assert(EffectModel::all(effects@) =~= pane_gone(pane, outcome));
    effects
}

/// What follows a shell that did not start, given what closing its pane came to: a pane
/// that stays blank is no use to anyone.
pub fn shell_failed(outcome: CloseOutcome) -> (effects: Vec<Effect>)
    ensures
        EffectModel::all(effects@) == EffectModel::when(
            outcome is Emptied,
            seq![EffectModel::Exit],
        ),
{
    if outcome == CloseOutcome::Emptied {
        one(Effect::Exit)
    } else {
        nothing()
    }
}

/// What follows moving the focus: both panes change how they look.
pub fn focus_moved(moved: bool) -> (effects: Vec<Effect>)
    ensures
        EffectModel::all(effects@) == EffectModel::when(moved, seq![EffectModel::Redraw]),
{
    if moved {
        one(Effect::Redraw)
    } else {
        nothing()
    }
}

/// What follows resizing a split.
pub fn split_resized(resized: bool) -> (effects: Vec<Effect>)
    ensures
        EffectModel::all(effects@) == EffectModel::when(
            resized,
            seq![EffectModel::Relayout, EffectModel::Redraw],
        ),
{
    if resized {
        two(Effect::Relayout, Effect::Redraw)
    } else {
        nothing()
    }
}

/// What follows changing the font size: nothing when it did not change.
pub fn font_resized(changed: bool) -> (effects: Vec<Effect>)
    ensures
        EffectModel::all(effects@) == EffectModel::when(
            changed,
            seq![EffectModel::RebuildFonts, EffectModel::Relayout, EffectModel::Redraw],
        ),
{
    if changed {
        let mut effects = two(Effect::RebuildFonts, Effect::Relayout);
        add_effect(&mut effects, Effect::Redraw);
        assert(EffectModel::all(effects@) =~= seq![
            EffectModel::RebuildFonts,
            EffectModel::Relayout,
            EffectModel::Redraw,
        ]);
        effects
    } else {
        nothing()
    }
}

impl ReloadActions {
    /// The warnings about settings that need a restart.
    pub open spec fn warnings(self) -> Seq<EffectModel> {
        Seq::new(
            self.restart_required@.len(),
            |i: int| EffectModel::WarnRestart(self.restart_required@[i]@),
        )
    }

    /// The title and the frame, as configured. A title that programs set is left alone.
    pub open spec fn window_effects(dynamic_title: bool) -> Seq<EffectModel> {
        EffectModel::when(!dynamic_title, seq![EffectModel::ConfiguredTitle]).push(
            EffectModel::ApplyDecorations,
        )
    }

    /// What a file that was read again calls for: no more than what changed.
    pub open spec fn file_effects(self, dynamic_title: bool) -> Seq<EffectModel> {
        seq![EffectModel::NotifyPlugins(NoticeModel::ConfigReload)] + EffectModel::when(
            self.rebind_keys,
            seq![EffectModel::RebindKeys],
        ) + EffectModel::when(self.rebuild_fonts, seq![EffectModel::RebuildFonts])
            + EffectModel::when(self.resize_scrollback, seq![EffectModel::ResizeScrollback])
            + EffectModel::when(self.reconfigure_surface, seq![EffectModel::ReconfigureSurface])
            + EffectModel::when(
            self.relayout || self.rebuild_fonts,
            seq![EffectModel::Relayout],
        ) + ReloadActions::window_effects(dynamic_title) + self.warnings() + seq![
            EffectModel::Redraw,
        ]
    }

    /// What a change from within calls for. The panes are always laid out again: the
    /// heights of the strips depend on the configuration.
    pub open spec fn edit_effects(self, dynamic_title: bool) -> Seq<EffectModel> {
        EffectModel::when(self.rebind_keys, seq![EffectModel::RebindKeys]) + EffectModel::when(
            self.rebuild_fonts,
            seq![EffectModel::RebuildFonts],
        ) + EffectModel::when(self.reload_theme, seq![EffectModel::ReloadTheme])
            + EffectModel::when(self.resize_scrollback, seq![EffectModel::ResizeScrollback])
            + EffectModel::when(self.reconfigure_surface, seq![EffectModel::ReconfigureSurface])
            + ReloadActions::window_effects(dynamic_title) + seq![EffectModel::Relayout]
            + self.warnings()
    }
}

impl ReloadOutcome {
    /// What reading the configuration again calls for.
    pub open spec fn calls_for(self, dynamic_title: bool) -> Seq<EffectModel> {
        match self {
            ReloadOutcome::Applied(actions) => actions.file_effects(dynamic_title),
            _ => Seq::empty(),
        }
    }
}

fn add_when(list: &mut Vec<Effect>, wanted: bool, effect: Effect)
    ensures
        EffectModel::all(final(list)@) == EffectModel::all(old(list)@) + EffectModel::when(
            wanted,
            seq![effect@],
        ),
{
    if wanted {
        add_effect(list, effect);
    }
    assert(EffectModel::all(list@) =~= EffectModel::all(old(list)@) + EffectModel::when(
        wanted,
        seq![effect@],
    ));
}

fn add_warnings(list: &mut Vec<Effect>, actions: &ReloadActions)
    ensures
        EffectModel::all(final(list)@) == EffectModel::all(old(list)@) + actions.warnings(),
{
    let ghost start = EffectModel::all(list@);
    let mut i: usize = 0;
    while i < actions.restart_required.len()
        invariant
            i <= actions.restart_required@.len(),
            EffectModel::all(list@) =~= start + actions.warnings().take(i as int),
        decreases actions.restart_required@.len() - i,
    {
        add_effect(list, Effect::WarnRestart(actions.restart_required[i].clone()));
        i += 1;
        assert(actions.warnings().take(i as int) =~= actions.warnings().take(i - 1).push(
            actions.warnings()[i - 1],
        ));
    }
    assert(actions.warnings().take(i as int) =~= actions.warnings());
}

/// What reading the configuration again calls for. A file that does not parse changes
/// nothing.
pub fn config_reloaded(outcome: &ReloadOutcome, dynamic_title: bool) -> (effects: Vec<Effect>)
    ensures
        EffectModel::all(effects@) == outcome.calls_for(dynamic_title),
{
    match outcome {
        ReloadOutcome::Unchanged => nothing(),
        ReloadOutcome::Failed => nothing(),
        ReloadOutcome::Applied(actions) => {
            let mut effects = one(Effect::NotifyPlugins(Notice::ConfigReload));
            add_when(&mut effects, actions.rebind_keys, Effect::RebindKeys);
            add_when(&mut effects, actions.rebuild_fonts, Effect::RebuildFonts);
            add_when(&mut effects, actions.resize_scrollback, Effect::ResizeScrollback);
            add_when(&mut effects, actions.reconfigure_surface, Effect::ReconfigureSurface);
            add_when(
                &mut effects,
                actions.relayout || actions.rebuild_fonts,
                Effect::Relayout,
            );
            add_when(&mut effects, !dynamic_title, Effect::ConfiguredTitle);
            add_effect(&mut effects, Effect::ApplyDecorations);
            add_warnings(&mut effects, actions);
            add_effect(&mut effects, Effect::Redraw);
            assert(EffectModel::all(effects@) =~= actions.file_effects(dynamic_title));
            effects
        },
    }
}

/// What a change of the configuration from within calls for.
pub fn apply_reload_actions(actions: &ReloadActions, dynamic_title: bool) -> (effects: Vec<Effect>)
    ensures
        EffectModel::all(effects@) == actions.edit_effects(dynamic_title),
{
    let mut effects = nothing();
    add_when(&mut effects, actions.rebind_keys, Effect::RebindKeys);
    add_when(&mut effects, actions.rebuild_fonts, Effect::RebuildFonts);
    add_when(&mut effects, actions.reload_theme, Effect::ReloadTheme);
    add_when(&mut effects, actions.resize_scrollback, Effect::ResizeScrollback);
    add_when(&mut effects, actions.reconfigure_surface, Effect::ReconfigureSurface);
    add_when(&mut effects, !dynamic_title, Effect::ConfiguredTitle);
    add_effect(&mut effects, Effect::ApplyDecorations);
    add_effect(&mut effects, Effect::Relayout);
    add_warnings(&mut effects, actions);
    assert(EffectModel::all(effects@) =~= actions.edit_effects(dynamic_title));
    effects
}

/// Where the explorer opens: where the focused shell is, else the home directory, else
/// the root.
pub fn explorer_start_dir(cwd: Option<&str>, home: Option<&str>) -> (dir: String)
    ensures
        dir@ == (match (cwd, home) {
            (Some(d), _) => d@,
            (None, Some(d)) => d@,
            (None, None) => "/"@,
        }),
{
    match (cwd, home) {
        (Some(d), _) => d.to_owned(),
        (None, Some(d)) => d.to_owned(),
        (None, None) => "/".to_owned(),
    }
}

/// The focused shell's selection was read, to be copied. Copying nothing would empty the
/// clipboard.
pub fn selection_copied(text: Option<&str>) -> (effects: Vec<Effect>)
    ensures
        EffectModel::all(effects@) == (match text {
            Some(t) => EffectModel::when(t@.len() > 0, seq![EffectModel::SetClipboard(t@)]),
            None => Seq::empty(),
        }),
{
    if let Some(t) = text {
        if t.unicode_len() > 0 {
            return one(Effect::SetClipboard(t.to_owned()));
        }
    }
    nothing()
}

/// The clipboard was read, to be pasted.
pub fn clipboard_pasted(text: Option<&str>) -> (effects: Vec<Effect>)
    ensures
        EffectModel::all(effects@) == (match text {
            Some(t) => seq![EffectModel::PasteText(t@)],
            None => Seq::empty(),
        }),
{
    match text {
        Some(t) => one(Effect::PasteText(t.to_owned())),
        None => nothing(),
    }
}

/// Why an installed plugin is not running, if it is not.
pub fn plugin_problem(running: bool, plugins_enabled: bool) -> (problem: Option<String>)
    ensures
        crate::strings::text_of(problem) == (if running {
            None
        } else if !plugins_enabled {
            Some("plugins are off"@)
        } else {
            Some("not loaded"@)
        }),
{
    if running {
        None
    } else if !plugins_enabled {
        Some("plugins are off".to_owned())
    } else {
        Some("not loaded".to_owned())
    }
}

/// The title of the folder chooser.
pub fn folder_title(purpose: FolderPurpose) -> (title: &'static str)
    ensures
        title@ == (match purpose {
            FolderPurpose::ImportPlugin => "Choose a plugin folder"@,
            FolderPurpose::ExportPlugins => "Choose where to export plugins"@,
        }),
{
    match purpose {
        FolderPurpose::ImportPlugin => "Choose a plugin folder",
        FolderPurpose::ExportPlugins => "Choose where to export plugins",
    }
}

} // verus!
