//! What bindings, toolbar buttons and plugin commands ask for.

use vstd::prelude::*;

use crate::action::Action;
use crate::app::{AppModel, PluginCommand, World};
use crate::decimal::Fixed;
use crate::effect::{AfterSelect, EffectModel, NoticeModel, TabStart};
use crate::menu::{MenuKind, MenuModel};
use crate::scene::ChromeButton;
use crate::timing::{NotificationModel, NotifyLevel};
use crate::ui::UiModel;
use crate::window::{Direction, TabKind};

verus! {

/// Each directional action asks for its own direction, once, and changes nothing itself.
/// A resize by key is a fiftieth of the split.
pub proof fn law_directions_are_kept(app: AppModel, world: World)
    ensures
        app.dispatched(Action::SplitLeft, world) == (app, seq![EffectModel::Split(Direction::Left)]),
        app.dispatched(Action::SplitRight, world) == (
            app,
            seq![EffectModel::Split(Direction::Right)],
        ),
        app.dispatched(Action::SplitUp, world) == (app, seq![EffectModel::Split(Direction::Up)]),
        app.dispatched(Action::SplitDown, world) == (app, seq![EffectModel::Split(Direction::Down)]),
        app.dispatched(Action::FocusLeft, world) == (app, seq![EffectModel::Focus(Direction::Left)]),
        app.dispatched(Action::FocusRight, world) == (
            app,
            seq![EffectModel::Focus(Direction::Right)],
        ),
        app.dispatched(Action::FocusUp, world) == (app, seq![EffectModel::Focus(Direction::Up)]),
        app.dispatched(Action::FocusDown, world) == (app, seq![EffectModel::Focus(Direction::Down)]),
        app.dispatched(Action::ResizeLeft, world) == (
            app,
            seq![EffectModel::ResizeActive(Direction::Left, Fixed { millionths: 20_000 })],
        ),
        app.dispatched(Action::ResizeRight, world) == (
            app,
            seq![EffectModel::ResizeActive(Direction::Right, Fixed { millionths: 20_000 })],
        ),
        app.dispatched(Action::ResizeUp, world) == (
            app,
            seq![EffectModel::ResizeActive(Direction::Up, Fixed { millionths: 20_000 })],
        ),
        app.dispatched(Action::ResizeDown, world) == (
            app,
            seq![EffectModel::ResizeActive(Direction::Down, Fixed { millionths: 20_000 })],
        ),
{
}

/// No two of the directional actions ask for the same: what is asked for tells which of
/// the twelve was performed.
pub proof fn law_directions_are_told_apart(app: AppModel, world: World, a: Action, b: Action)
    requires
        a is SplitLeft || a is SplitRight || a is SplitUp || a is SplitDown || a is FocusLeft
            || a is FocusRight || a is FocusUp || a is FocusDown || a is ResizeLeft
            || a is ResizeRight || a is ResizeUp || a is ResizeDown,
        app.dispatched(a, world).1 == app.dispatched(b, world).1,
        b is SplitLeft || b is SplitRight || b is SplitUp || b is SplitDown || b is FocusLeft
            || b is FocusRight || b is FocusUp || b is FocusDown || b is ResizeLeft
            || b is ResizeRight || b is ResizeUp || b is ResizeDown,
    ensures
        a == b,
{
    assert(app.dispatched(a, world).1[0] == app.dispatched(b, world).1[0]);
}

/// The tab actions: a new tab is a plain one, closing closes the tab that is on screen,
/// and going to a tab lays it out and shows it. A tab is named by its number, counted
/// from one.
pub proof fn law_tab_actions(app: AppModel, world: World, n: u32)
    ensures
        app.dispatched(Action::NewTab, world) == (
            app,
            seq![EffectModel::OpenTab(TabStart::Plain)],
        ),
        app.dispatched(Action::CloseTab, world) == (
            app,
            seq![EffectModel::CloseTab(world.active_tab)],
        ),
        app.dispatched(Action::NextTab, world) == (
            app,
            seq![
                EffectModel::NextTab,
                EffectModel::TabActivated,
                EffectModel::Relayout,
                EffectModel::Redraw,
            ],
        ),
        app.dispatched(Action::PrevTab, world) == (
            app,
            seq![
                EffectModel::PrevTab,
                EffectModel::TabActivated,
                EffectModel::Relayout,
                EffectModel::Redraw,
            ],
        ),
        n >= 1 ==> app.dispatched(Action::SelectTab(n), world) == (
            app,
            seq![EffectModel::SelectTab((n - 1) as usize, AfterSelect::Activate)],
        ),
        app.dispatched(Action::SelectTab(0), world) == (
            app,
            seq![EffectModel::SelectTab(0, AfterSelect::Activate)],
        ),
        app.dispatched(Action::ClosePane, world) == (
            app,
            seq![EffectModel::ClosePane(world.active_pane)],
        ),
{
    assert(app.dispatched(Action::NextTab, world).1 =~= seq![
        EffectModel::NextTab,
        EffectModel::TabActivated,
        EffectModel::Relayout,
        EffectModel::Redraw,
    ]);
    assert(app.dispatched(Action::PrevTab, world).1 =~= seq![
        EffectModel::PrevTab,
        EffectModel::TabActivated,
        EffectModel::Relayout,
        EffectModel::Redraw,
    ]);
}

/// The scrolling actions: up is towards older lines, so it counts upwards, and down is
/// the opposite of up.
pub proof fn law_scroll_actions(app: AppModel, world: World)
    ensures
        app.dispatched(Action::ScrollLineUp, world) == (
            app,
            seq![EffectModel::Scroll(1), EffectModel::Redraw],
        ),
        app.dispatched(Action::ScrollLineDown, world) == (
            app,
            seq![EffectModel::Scroll(-1i32), EffectModel::Redraw],
        ),
        app.dispatched(Action::ScrollPageUp, world) == (
            app,
            seq![EffectModel::ScrollPage(1), EffectModel::Redraw],
        ),
        app.dispatched(Action::ScrollPageDown, world) == (
            app,
            seq![EffectModel::ScrollPage(-1i32), EffectModel::Redraw],
        ),
        app.dispatched(Action::ScrollToTop, world) == (
            app,
            seq![EffectModel::ScrollToTop, EffectModel::Redraw],
        ),
        app.dispatched(Action::ScrollToBottom, world) == (
            app,
            seq![EffectModel::ScrollToBottom, EffectModel::Redraw],
        ),
        app.dispatched(Action::ClearScrollback, world) == (
            app,
            seq![EffectModel::ClearScrollback, EffectModel::Redraw],
        ),
{
}

/// The rest of the actions that change nothing themselves: leaving, reloading, the
/// clipboard, the selection, the font and full screen.
pub proof fn law_plain_actions(app: AppModel, world: World)
    ensures
        app.dispatched(Action::Quit, world) == (app, seq![EffectModel::Exit]),
        app.dispatched(Action::ReloadConfig, world) == (app, seq![EffectModel::ReloadConfig]),
        app.dispatched(Action::CopySelection, world) == (app, seq![EffectModel::CopySelection]),
        app.dispatched(Action::Paste, world) == (app, seq![EffectModel::PasteClipboard]),
        app.dispatched(Action::SelectAll, world) == (
            app,
            seq![EffectModel::SelectAll, EffectModel::Redraw],
        ),
        app.dispatched(Action::IncreaseFontSize, world) == (app, seq![EffectModel::FontSize(1)]),
        app.dispatched(Action::DecreaseFontSize, world) == (
            app,
            seq![EffectModel::FontSize(-1i32)],
        ),
        app.dispatched(Action::ResetFontSize, world) == (
            app,
            seq![
                EffectModel::ResetFontSize,
                EffectModel::RebuildFonts,
                EffectModel::Relayout,
                EffectModel::Redraw,
            ],
        ),
        app.dispatched(Action::ToggleFullscreen, world) == (
            app,
            seq![EffectModel::ToggleFullscreen],
        ),
{
}

/// A binding that sends text sends that text, whole and unchanged, to the focused shell.
pub proof fn law_bound_text_is_sent(app: AppModel, world: World, text: String)
    ensures
        app.dispatched(Action::SendText(text), world) == (
            app,
            seq![EffectModel::WriteFocused(vstd::utf8::encode_utf8(text@))],
        ),
{
}

/// A plugin's command is announced under the name its plugin knows it by: what follows
/// the first dot of the qualified name, or all of it where there is no dot.
pub proof fn law_commands_are_named(
    app: AppModel,
    world: World,
    name: String,
    plugin: Seq<char>,
    bare: Seq<char>,
)
    requires
        !plugin.contains('.'),
        name@ == plugin + seq!['.'] + bare || (name@ == bare && !bare.contains('.')),
    ensures
        app.dispatched(Action::Plugin(name), world) == (
            app,
            seq![EffectModel::NotifyPlugins(NoticeModel::Command(bare))],
        ),
{
    if name@ == plugin + seq!['.'] + bare {
        assert forall|k: int| 0 <= k < plugin.len() implies name@[k] != '.' by {
            assert(plugin.contains(plugin[k]));
        }
        lemma_bare_name(name@, 0, plugin.len() as int);
        assert(name@.skip(plugin.len() as int + 1) =~= bare);
    } else {
        assert forall|k: int| 0 <= k < name@.len() implies name@[k] != '.' by {
            assert(bare.contains(name@[k]));
        }
        lemma_bare_name(name@, 0, name@.len() as int);
    }
}

proof fn lemma_bare_name(name: Seq<char>, i: int, dot: int)
    requires
        0 <= i <= dot <= name.len(),
        forall|k: int| i <= k < dot ==> name[k] != '.',
        dot < name.len() ==> name[dot] == '.',
    ensures
        crate::app::bare_name(name, i) == (if dot < name.len() {
            name.skip(dot + 1)
        } else {
            name
        }),
    decreases dot - i,
{
    if i < dot {
        lemma_bare_name(name, i + 1, dot);
    }
}

/// The pane that stands after the focused one comes next, and the first after the last.
/// Going back is the way back. A pane that is alone keeps the focus.
pub proof fn law_panes_are_cycled(app: AppModel, world: World, i: int)
    requires
        0 <= i < world.visible@.len(),
        world.visible@[i] == world.active_pane,
        forall|k: int| 0 <= k < i ==> world.visible@[k] != world.active_pane,
    ensures
        ({
            let panes = world.visible@;
            let last = panes.len() - 1;
            let (next, prev) = (
                app.dispatched(Action::FocusNextPane, world),
                app.dispatched(Action::FocusPrevPane, world),
            );
            &&& next.0 == app && prev.0 == app
            &&& last == 0 ==> next.1 == Seq::<EffectModel>::empty() && prev.1 == Seq::<
                EffectModel,
            >::empty()
            &&& i < last ==> next.1 == seq![
                EffectModel::FocusPane(panes[i + 1]),
                EffectModel::Redraw,
            ]
            &&& i == last && last > 0 ==> next.1 == seq![
                EffectModel::FocusPane(panes[0]),
                EffectModel::Redraw,
            ]
            &&& i > 0 ==> prev.1 == seq![EffectModel::FocusPane(panes[i - 1]), EffectModel::Redraw]
            &&& i == 0 && last > 0 ==> prev.1 == seq![
                EffectModel::FocusPane(panes[last]),
                EffectModel::Redraw,
            ]
        }),
{
    let panes = world.visible@;
    let n = panes.len() as int;
    lemma_position(panes, world.active_pane, i, n);
    if i + 1 < n {
        vstd::arithmetic::div_mod::lemma_small_mod((i + 1) as nat, n as nat);
    } else {
        vstd::arithmetic::div_mod::lemma_mod_self_0(n);
    }
    if i > 0 {
        vstd::arithmetic::div_mod::lemma_mod_add_multiples_vanish(i - 1, n);
        vstd::arithmetic::div_mod::lemma_small_mod((i - 1) as nat, n as nat);
    } else {
        vstd::arithmetic::div_mod::lemma_small_mod((n - 1) as nat, n as nat);
    }
}

proof fn lemma_position(panes: Seq<u64>, pane: u64, i: int, n: int)
    requires
        0 <= i < panes.len(),
        0 <= n <= panes.len(),
        panes[i] == pane,
        forall|k: int| 0 <= k < i ==> panes[k] != pane,
    ensures
        crate::app::pane_position(panes, pane, n) == (if i < n {
            Some(i)
        } else {
            None
        }),
    decreases n,
{
    if n > 0 {
        lemma_position(panes, pane, i, n - 1);
    }
}

/// The pages open in tabs of their own, one of each; asked for again while it is open
/// elsewhere, a page's tab is shown; asked for while it is on screen, it is closed.
pub proof fn law_page_actions(app: AppModel, world: World, tab: usize)
    ensures
        world.settings_tab is None && app.panel is None ==> app.dispatched(
            Action::OpenSettings,
            world,
        ) == (
            AppModel { panel: Some(UiModel::empty()), ..app },
            seq![
                EffectModel::GatherSettings,
                EffectModel::OpenPageTab(TabKind::Settings),
                EffectModel::Relayout,
                EffectModel::Redraw,
            ],
        ),
        world.settings_tab == Some(tab) && !(world.kind is Settings) ==> app.dispatched(
            Action::OpenSettings,
            world,
        ) == (
            app,
            seq![EffectModel::SelectTab(tab, AfterSelect::Page), EffectModel::Redraw],
        ),
        app.panel is Some && world.kind is Settings ==> app.dispatched(Action::OpenSettings, world)
            == (
            AppModel { panel: None, ..app },
            seq![EffectModel::ClosePage(TabKind::Settings)],
        ),
        world.help_tab is None ==> app.dispatched(Action::OpenHelp, world) == (
            AppModel { help: Some(UiModel::empty()), ..app },
            seq![
                EffectModel::OpenPageTab(TabKind::Help),
                EffectModel::Relayout,
                EffectModel::Redraw,
            ],
        ),
        world.help_tab == Some(tab) && !(world.kind is Help) ==> app.dispatched(
            Action::OpenHelp,
            world,
        ) == (app, seq![EffectModel::SelectTab(tab, AfterSelect::Page), EffectModel::Redraw]),
        world.help_tab == Some(tab) && world.kind is Help ==> app.dispatched(Action::OpenHelp, world)
            == (AppModel { help: None, ..app }, seq![EffectModel::ClosePage(TabKind::Help)]),
        world.plugins_tab is None ==> app.dispatched(Action::OpenPlugins, world) == (
            app,
            seq![EffectModel::ListPlugins],
        ),
        world.plugins_tab == Some(tab) && !(world.kind is Plugins) ==> app.dispatched(
            Action::OpenPlugins,
            world,
        ) == (app, seq![EffectModel::SelectTab(tab, AfterSelect::Page), EffectModel::Redraw]),
        world.plugins_tab == Some(tab) && world.kind is Plugins ==> app.dispatched(
            Action::OpenPlugins,
            world,
        ) == (AppModel { plugins: None, ..app }, seq![EffectModel::ClosePage(TabKind::Plugins)]),
        app.sidebar is None ==> app.dispatched(Action::OpenExplorer, world) == (
            app,
            seq![EffectModel::OpenSidebar],
        ),
        app.sidebar is Some ==> app.dispatched(Action::OpenExplorer, world) == (
            AppModel { sidebar: None, sidebar_focused: false, ..app },
            seq![EffectModel::Relayout, EffectModel::Redraw],
        ),
{
    assert(app.settings_opened(world).1.len() == 4 ==> app.settings_opened(world).1 =~= seq![
        EffectModel::GatherSettings,
        EffectModel::OpenPageTab(TabKind::Settings),
        EffectModel::Relayout,
        EffectModel::Redraw,
    ]);
}

/// A toolbar button that does what a binding does, does exactly that. The settings button
/// never closes the page: it opens it or goes to it.
pub proof fn law_buttons_do_what_bindings_do(app: AppModel, world: World)
    ensures
        app.button_pressed(ChromeButton::NewTab, world) == app.dispatched(Action::NewTab, world),
        app.button_pressed(ChromeButton::Explorer, world) == app.dispatched(
            Action::OpenExplorer,
            world,
        ),
        app.button_pressed(ChromeButton::Help, world) == app.dispatched(Action::OpenHelp, world),
        app.button_pressed(ChromeButton::Plugins, world) == app.dispatched(
            Action::OpenPlugins,
            world,
        ),
        app.button_pressed(ChromeButton::SplitRight, world) == app.dispatched(
            Action::SplitRight,
            world,
        ),
        app.button_pressed(ChromeButton::SplitDown, world) == app.dispatched(
            Action::SplitDown,
            world,
        ),
        !(world.kind is Settings) || app.panel is None ==> app.button_pressed(
            ChromeButton::Settings,
            world,
        ) == app.dispatched(Action::OpenSettings, world),
        app.button_pressed(ChromeButton::Settings, world).0.panel is None ==> app.panel is None,
        app.button_pressed(ChromeButton::Minimize, world) == (app, seq![EffectModel::Minimize]),
        app.button_pressed(ChromeButton::Maximize, world) == (
            app,
            seq![EffectModel::ToggleMaximize],
        ),
        app.button_pressed(ChromeButton::Close, world) == (app, seq![EffectModel::Exit]),
{
}

/// The action a tooltip names for a button is the one that does what the button does.
pub proof fn law_tooltips_tell_the_truth(app: AppModel, world: World, button: ChromeButton)
    requires
        crate::action::action_of(button) is Some,
        !(button is Settings) || app.panel is None || !(world.kind is Settings),
    ensures
        app.button_pressed(button, world) == app.dispatched(
            crate::action::action_of(button)->0,
            world,
        ),
{
}

/// Every button that a binding could stand for has one: only the two dropdowns and the
/// three window controls do not.
pub proof fn law_which_buttons_have_bindings(button: ChromeButton)
    ensures
        crate::action::action_of(button) is None <==> (button is NewTabMenu || button is AppMenu
            || button is Minimize || button is Maximize || button is Close),
        crate::action::action_of(ChromeButton::NewTab) == Some(Action::NewTab),
        crate::action::action_of(ChromeButton::Settings) == Some(Action::OpenSettings),
        crate::action::action_of(ChromeButton::Explorer) == Some(Action::OpenExplorer),
        crate::action::action_of(ChromeButton::Help) == Some(Action::OpenHelp),
        crate::action::action_of(ChromeButton::Plugins) == Some(Action::OpenPlugins),
        crate::action::action_of(ChromeButton::SplitRight) == Some(Action::SplitRight),
        crate::action::action_of(ChromeButton::SplitDown) == Some(Action::SplitDown),
{
}

/// The dropdowns hang from their own buttons. The first press opens one and the second
/// closes it; the menu of pages starts at its first row, and leads to settings,
/// shortcuts and plugins, in that order.
pub proof fn law_dropdowns_open_at_their_buttons(app: AppModel, world: World, i: int)
    requires
        0 <= i < world.actions@.len(),
    ensures
        world.actions@[i].0 is AppMenu && app.menu is None && (forall|k: int|
            0 <= k < i ==> !((#[trigger] world.actions@[k]).0 is AppMenu)) ==> app.button_pressed(
            ChromeButton::AppMenu,
            world,
        ) == (
            AppModel {
                menu: Some(
                    MenuModel {
                        kind: MenuKind::AppMenu,
                        items: seq![
                            ("Settings"@, "settings"@),
                            ("Shortcuts"@, "help"@),
                            ("Plugins"@, "plugins"@),
                        ],
                        selected: 0,
                        anchor: world.actions@[i].1,
                    },
                ),
                ..app
            },
            seq![EffectModel::Redraw],
        ),
        world.actions@[i].0 is NewTabMenu && app.menu is None ==> app.button_pressed(
            ChromeButton::NewTabMenu,
            world,
        ) == (app, seq![EffectModel::ListShells]),
        app.menu is Some ==> app.button_pressed(ChromeButton::AppMenu, world) == (
            AppModel { menu: None, menu_rect: None, ..app },
            seq![EffectModel::Redraw],
        ),
        app.menu is Some ==> app.button_pressed(ChromeButton::NewTabMenu, world) == (
            AppModel { menu: None, menu_rect: None, ..app },
            seq![EffectModel::Redraw],
        ),
{
    let n = world.actions@.len() as int;
    if world.actions@[i].0 is AppMenu {
        lemma_place(world.actions@, ChromeButton::AppMenu, i, n);
    }
    if world.actions@[i].0 is NewTabMenu {
        lemma_place(world.actions@, ChromeButton::NewTabMenu, i, n);
    }
}

proof fn lemma_place(
    actions: Seq<(ChromeButton, crate::geometry::Rect)>,
    button: ChromeButton,
    i: int,
    n: int,
)
    requires
        0 <= i < actions.len(),
        0 <= n <= actions.len(),
        actions[i].0 == button,
    ensures
        i < n ==> crate::app::place_of(actions, button, n) is Some,
        (forall|k: int| 0 <= k < i ==> (#[trigger] actions[k]).0 != button) ==> (
        crate::app::place_of(actions, button, n) == (if i < n {
            Some(actions[i].1)
        } else {
            None
        })),
    decreases n,
{
    if n > 0 {
        lemma_place(actions, button, i, n - 1);
    }
}

/// The shells that were found are offered as they are, from the button that asked for
/// them. Without any, a tab with the configured shell opens at once.
pub proof fn law_shells_are_offered(
    app: AppModel,
    items: Seq<(Seq<char>, Seq<char>)>,
    world: World,
    i: int,
)
    requires
        0 <= i < world.actions@.len(),
        world.actions@[i].0 is NewTabMenu,
        forall|k: int| 0 <= k < i ==> !((#[trigger] world.actions@[k]).0 is NewTabMenu),
    ensures
        items.len() > 0 ==> app.shells_shown(items, world) == (
            AppModel {
                menu: Some(
                    MenuModel {
                        kind: MenuKind::NewTabShell,
                        items,
                        selected: 0,
                        anchor: world.actions@[i].1,
                    },
                ),
                ..app
            },
            seq![EffectModel::Redraw],
        ),
        items.len() == 0 ==> app.shells_shown(items, world) == (
            AppModel { pending_shell: None, ..app },
            seq![EffectModel::OpenTab(TabStart::Chosen)],
        ),
{
    lemma_place(world.actions@, ChromeButton::NewTabMenu, i, world.actions@.len() as int);
}

/// Picking a shell opens a tab for that very shell, and the tab that opens then runs it:
/// the choice is used once and forgotten.
pub proof fn law_the_picked_shell_runs(app: AppModel, world: World, menu: MenuModel, pane: u64)
    requires
        app.menu == Some(menu),
        menu.kind is NewTabShell,
        0 <= menu.selected < menu.items.len(),
    ensures
        ({
            let (picked, effects) = app.menu_picked(world);
            let (started, more) = picked.tab_started(pane, TabStart::Chosen);
            &&& picked.menu is None
            &&& effects == seq![EffectModel::Redraw, EffectModel::OpenTab(TabStart::Chosen)]
            &&& more == seq![
                EffectModel::StartShell(pane, Some(menu.items[menu.selected].1), true),
                EffectModel::Relayout,
                EffectModel::Redraw,
            ]
            &&& started.pending_shell is None
        }),
{
    assert(app.menu_picked(world).1 =~= seq![
        EffectModel::Redraw,
        EffectModel::OpenTab(TabStart::Chosen),
    ]);
}

/// A plain tab runs the configured shell, where it is configured to start, and is laid
/// out before its shell starts.
pub proof fn law_plain_tabs_run_the_configured_shell(app: AppModel, pane: u64)
    ensures
        app.tab_started(pane, TabStart::Plain) == (
            app,
            seq![
                EffectModel::Relayout,
                EffectModel::StartShell(pane, None, false),
                EffectModel::Relayout,
                EffectModel::Redraw,
            ],
        ),
{
}

/// Picking a page from the menu of pages does what its button does, once the menu is
/// closed. A row that leads nowhere only closes the menu.
pub proof fn law_the_menu_of_pages_leads_to_them(app: AppModel, world: World, menu: MenuModel)
    requires
        app.menu == Some(menu),
        menu.kind is AppMenu,
        0 <= menu.selected < menu.items.len(),
    ensures
        ({
            let closed = AppModel { menu: None, menu_rect: None, ..app };
            let value = menu.items[menu.selected].1;
            let (after, effects) = app.menu_picked(world);
            let (settings, help, plugins) = (
                closed.button_pressed(ChromeButton::Settings, world),
                closed.button_pressed(ChromeButton::Help, world),
                closed.button_pressed(ChromeButton::Plugins, world),
            );
            &&& value == "settings"@ ==> after == settings.0 && effects == seq![
                EffectModel::Redraw,
            ] + settings.1
            &&& value == "help"@ ==> after == help.0 && effects == seq![EffectModel::Redraw]
                + help.1
            &&& value == "plugins"@ ==> after == plugins.0 && effects == seq![EffectModel::Redraw]
                + plugins.1
            &&& value != "settings"@ && value != "help"@ && value != "plugins"@ ==> after == closed
                && effects == seq![EffectModel::Redraw]
        }),
{
    reveal_strlit("settings");
    reveal_strlit("help");
    reveal_strlit("plugins");
    assert("settings"@.len() != "help"@.len());
    assert("settings"@.len() != "plugins"@.len());
    assert("help"@.len() != "plugins"@.len());
}

/// What a plugin asks for is what a binding could ask for, with the values the plugin
/// gave: nothing is added, dropped or changed. A pane that is not named is the focused
/// one.
pub proof fn law_plugin_commands(
    app: AppModel,
    world: World,
    now: u64,
    direction: Direction,
    pane: u64,
    index: usize,
    delta: Fixed,
    text: String,
    level: NotifyLevel,
)
    ensures
        app.plugin_asked(PluginCommand::Ignored, world, now) == (app, Seq::<EffectModel>::empty()),
        app.plugin_asked(PluginCommand::Split(direction), world, now) == (
            app,
            seq![EffectModel::Split(direction)],
        ),
        app.plugin_asked(PluginCommand::NewTab, world, now) == app.dispatched(
            Action::NewTab,
            world,
        ),
        app.plugin_asked(PluginCommand::ClosePane(Some(pane)), world, now) == (
            app,
            seq![EffectModel::ClosePane(pane)],
        ),
        app.plugin_asked(PluginCommand::ClosePane(None), world, now) == app.dispatched(
            Action::ClosePane,
            world,
        ),
        app.plugin_asked(PluginCommand::Focus(direction), world, now) == (
            app,
            seq![EffectModel::Focus(direction)],
        ),
        app.plugin_asked(PluginCommand::FocusPane(pane), world, now) == (
            app,
            seq![EffectModel::FocusPane(pane), EffectModel::Redraw],
        ),
        app.plugin_asked(PluginCommand::SelectTab(index), world, now) == (
            app,
            seq![EffectModel::SelectTab(index, AfterSelect::Activate)],
        ),
        app.plugin_asked(PluginCommand::Resize(direction, delta), world, now) == (
            app,
            seq![EffectModel::ResizeActive(direction, delta)],
        ),
        app.plugin_asked(PluginCommand::SendText(Some(pane), text), world, now) == (
            app,
            seq![EffectModel::WritePane(pane, vstd::utf8::encode_utf8(text@))],
        ),
        app.plugin_asked(PluginCommand::SendText(None, text), world, now) == (
            app,
            seq![EffectModel::WritePane(world.active_pane, vstd::utf8::encode_utf8(text@))],
        ),
        ({
            let (after, effects) = app.plugin_asked(
                PluginCommand::Notify(text, level),
                world,
                now,
            );
            &&& effects == seq![EffectModel::Redraw]
            &&& after.toasts.len() > 0
            &&& after.toasts.last() == (NotificationModel { text: text@, level, shown_at: now })
        }),
        app.plugin_asked(PluginCommand::SetConfigOverlay(text), world, now) == (
            app,
            seq![EffectModel::ApplyOverlay(text@)],
        ),
        app.plugin_asked(PluginCommand::ReloadConfig, world, now) == app.dispatched(
            Action::ReloadConfig,
            world,
        ),
        app.plugin_asked(PluginCommand::Quit, world, now) == app.dispatched(Action::Quit, world),
{
    let said = app.toasts.push(NotificationModel { text: text@, level, shown_at: now });
    assert(app.notified(text@, level, now).0.toasts == NotificationModel::newest(said));
}

} // verus!
