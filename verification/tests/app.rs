//! Handling events: actions, keys, the mouse, and frames.

use tuzminal::action::{Action, MouseButton};
use tuzminal::app::{
    apply_reload_actions, clipboard_pasted, config_reloaded, folder_title, pane_closed,
    plugin_problem, selection_copied, tab_closed, tab_selected, App, CloseOutcome, PanelOutcome, PluginCommand,
    ReloadActions, ReloadOutcome, UserEvent, World,
};
use tuzminal::app_keys::{key_encoded, KeyPress};
use tuzminal::app_mouse::{DividerPlace, Ground, Hit, Wheel};
use tuzminal::decimal::Fixed;
use tuzminal::effect::{AfterSelect, Effect, Notice, TabStart};
use tuzminal::explorer::{Commit, ExplorerOutcome, Listed};
use tuzminal::frame::{
    draw_panes, frame_start, segments_changed, FrameStart, Look, PageRows, Palette, PanePlace,
    Places, Segment,
};
use tuzminal::geometry::Rect;
use tuzminal::instance::{CellFlags, CellMetrics, RenderCell, TerminalFrame, Underline, PIXEL};
use tuzminal::keys::{
    modifiers_from, Key, KeySend, LogicalKey, Modifiers, NamedKey, WindowKey,
};
use tuzminal::menu::MenuItem;
use tuzminal::plugins::{FolderPurpose, PluginConfig};
use tuzminal::scene::{ChromeButton, Op, Rgba, Tone};
use tuzminal::text::Font;
use tuzminal::timing::NotifyLevel;
use tuzminal::widget::{Widget, WidgetId};
use tuzminal::window::{Direction, ResizeDirection, TabKind};

fn world(kind: TabKind) -> World {
    World {
        kind,
        active_pane: 1,
        active_tab: 0,
        visible: vec![1],
        settings_tab: None,
        help_tab: None,
        plugins_tab: None,
        actions: vec![
            (ChromeButton::AppMenu, Rect::new(560, 0, 40, 24)),
            (ChromeButton::NewTabMenu, Rect::new(520, 0, 40, 24)),
        ],
        cell: (8, 18),
        show_hidden: false,
    }
}

fn ground() -> Ground {
    Ground {
        laid_out: true,
        window: (800, 600),
        decorations: false,
        maximized: false,
        sidebar: Rect::new(0, 24, 0, 552),
        page: Some(Rect::new(0, 24, 800, 552)),
        tab_bar: Rect::new(0, 0, 800, 24),
        tab_count: 2,
        dividers: Vec::new(),
        sidebar_cells: 30,
        sidebar_least: 10,
        sidebar_most: 60,
    }
}

fn nowhere() -> Hit {
    Hit {
        action: None,
        tab_close: None,
        tab: None,
        chrome: false,
        divider: None,
        pane: None,
        cell: None,
        has_session: false,
        wants_mouse: false,
    }
}

fn in_pane() -> Hit {
    Hit {
        pane: Some(1),
        cell: Some((3, 4)),
        has_session: true,
        ..nowhere()
    }
}

fn press<'a>(text: &'a str) -> KeyPress<'a> {
    KeyPress {
        logical: LogicalKey::Character(text.to_owned()),
        text: Some(text),
        mods: Modifiers::none(),
        repeat: false,
        bound: None,
    }
}

fn named(key: WindowKey) -> KeyPress<'static> {
    KeyPress {
        logical: LogicalKey::Named(key),
        text: None,
        mods: Modifiers::none(),
        repeat: false,
        bound: None,
    }
}

fn key(app: &mut App, key: &KeyPress, kind: TabKind) -> Vec<Effect> {
    app.on_key(key, &world(kind), PluginConfig::new(), false, false, 5)
}

// --- actions ------------------------------------------------------------------------

#[test]
fn an_action_asks_for_what_it_does() {
    let mut app = App::new(0);
    let w = world(TabKind::Terminal);
    assert_eq!(app.dispatch(&Action::Quit, &w), vec![Effect::Exit]);
    assert_eq!(
        app.dispatch(&Action::SplitRight, &w),
        vec![Effect::Split(Direction::Right)]
    );
    assert_eq!(
        app.dispatch(&Action::NewTab, &w),
        vec![Effect::OpenTab(TabStart::Plain)]
    );
    assert_eq!(
        app.dispatch(&Action::CopySelection, &w),
        vec![Effect::CopySelection]
    );
    assert_eq!(
        app.dispatch(&Action::SendText("ls\n".to_owned()), &w),
        vec![Effect::WriteFocused(b"ls\n".to_vec())]
    );
}

#[test]
fn settings_open_once_and_are_returned_to() {
    let mut app = App::new(0);
    let mut w = world(TabKind::Terminal);
    let effects = app.dispatch(&Action::OpenSettings, &w);
    assert!(effects.contains(&Effect::OpenPageTab(TabKind::Settings)));
    assert!(app.panel.is_some());
    w.settings_tab = Some(1);
    let effects = app.open_settings(&w);
    assert!(effects.iter().any(|e| matches!(e, Effect::SelectTab(1, _))));
    assert!(!effects.contains(&Effect::OpenPageTab(TabKind::Settings)));
}

#[test]
fn help_toggles() {
    let mut app = App::new(0);
    app.toggle_help(&world(TabKind::Terminal));
    assert!(app.help.is_some());
    let mut w = world(TabKind::Help);
    w.help_tab = Some(0);
    assert!(app.help_active(&w));
    let effects = app.toggle_help(&w);
    assert_eq!(effects, vec![Effect::ClosePage(TabKind::Help)]);
    assert!(app.help.is_none());
}

#[test]
fn closing_the_last_pane_leaves() {
    assert_eq!(
        pane_closed(7, CloseOutcome::Emptied),
        vec![Effect::DropSession(7), Effect::Exit]
    );
    assert_eq!(pane_closed(7, CloseOutcome::NotFound), vec![Effect::DropSession(7)]);
    assert_eq!(
        pane_closed(7, CloseOutcome::Closed),
        vec![Effect::DropSession(7), Effect::Relayout, Effect::Redraw]
    );
}

#[test]
fn a_reload_does_only_what_changed() {
    assert!(config_reloaded(&ReloadOutcome::Unchanged, true).is_empty());
    assert!(config_reloaded(&ReloadOutcome::Failed, true).is_empty());
    let actions = ReloadActions {
        rebind_keys: true,
        rebuild_fonts: false,
        reload_theme: false,
        resize_scrollback: false,
        reconfigure_surface: false,
        relayout: false,
        restart_required: Vec::new(),
    };
    let effects = config_reloaded(&ReloadOutcome::Applied(actions), true);
    assert_eq!(effects[0], Effect::NotifyPlugins(Notice::ConfigReload));
    assert!(effects.contains(&Effect::RebindKeys));
    assert!(!effects.contains(&Effect::RebuildFonts));
}

#[test]
fn what_needs_a_restart_is_said() {
    let actions = ReloadActions {
        rebind_keys: false,
        rebuild_fonts: true,
        reload_theme: true,
        resize_scrollback: false,
        reconfigure_surface: false,
        relayout: false,
        restart_required: vec!["window.decorations".to_owned(), "shell.program".to_owned()],
    };
    let edited = apply_reload_actions(&actions, false);
    assert_eq!(
        edited,
        vec![
            Effect::RebuildFonts,
            Effect::ReloadTheme,
            Effect::ConfiguredTitle,
            Effect::ApplyDecorations,
            Effect::Relayout,
            Effect::WarnRestart("window.decorations".to_owned()),
            Effect::WarnRestart("shell.program".to_owned()),
        ]
    );
    let read = config_reloaded(&ReloadOutcome::Applied(actions), true);
    assert!(read.contains(&Effect::WarnRestart("shell.program".to_owned())));
    assert!(read.contains(&Effect::Relayout));
    assert!(!read.contains(&Effect::ConfiguredTitle));
    assert!(!read.contains(&Effect::ReloadTheme));
}

#[test]
fn a_closed_tab_leaves_no_shell_behind() {
    assert_eq!(
        tab_closed(&vec![4, 7], false),
        vec![
            Effect::DropSession(4),
            Effect::DropSession(7),
            Effect::Relayout,
            Effect::Redraw,
        ]
    );
    assert_eq!(
        tab_closed(&vec![4], true),
        vec![Effect::DropSession(4), Effect::Exit]
    );
}

#[test]
fn a_settings_page_that_is_gone_takes_no_outcome() {
    let mut app = App::new(0);
    assert!(app.panel_done(PanelOutcome::Save).is_empty());
    app.dispatch(&Action::OpenSettings, &world(TabKind::Terminal));
    assert_eq!(
        app.panel_done(PanelOutcome::Changed),
        vec![Effect::ApplySettings, Effect::Redraw]
    );
    assert_eq!(
        app.panel_done(PanelOutcome::Close),
        vec![Effect::ClosePage(TabKind::Settings)]
    );
    assert!(app.panel.is_none());
}

#[test]
fn a_path_is_pasted_and_a_command_is_run() {
    let mut app = App::new(0);
    assert_eq!(
        app.handle_explorer_outcome(ExplorerOutcome::InsertPath("/tmp/it's".to_owned())),
        vec![Effect::PasteText("'/tmp/it'\\''s'".to_owned()), Effect::Redraw]
    );
    assert_eq!(
        app.handle_explorer_outcome(ExplorerOutcome::RunCd("/tmp".to_owned())),
        vec![Effect::WriteFocused(b"cd '/tmp'\r".to_vec()), Effect::Redraw]
    );
}

#[test]
fn plugins_ask_and_are_served() {
    let mut app = App::new(0);
    let w = world(TabKind::Terminal);
    assert!(app.apply_plugin_command(&PluginCommand::Ignored, &w, 0).is_empty());
    assert_eq!(
        app.apply_plugin_command(&PluginCommand::SendText(None, "x".to_owned()), &w, 0),
        vec![Effect::WritePane(1, b"x".to_vec())]
    );
    let effects = app.apply_plugin_command(
        &PluginCommand::Notify("hi".to_owned(), NotifyLevel::Info),
        &w,
        3,
    );
    assert_eq!(effects, vec![Effect::Redraw]);
    assert_eq!(app.toasts.list[0].text, "hi");
    assert_eq!(app.toasts.list[0].shown_at, 3);
}

#[test]
fn a_tab_that_a_plugin_shows_is_looked_at() {
    let mut app = App::new(0);
    let effects =
        app.apply_plugin_command(&PluginCommand::SelectTab(2), &world(TabKind::Terminal), 0);
    assert_eq!(effects, vec![Effect::SelectTab(2, AfterSelect::Activate)]);
    assert_eq!(
        tab_selected(AfterSelect::Activate),
        vec![Effect::TabActivated, Effect::Relayout, Effect::Redraw]
    );
}

#[test]
fn a_reload_tells_the_plugins_once() {
    let mut app = App::new(0);
    let effects = app.dispatch(&Action::ReloadConfig, &world(TabKind::Terminal));
    assert_eq!(effects, vec![Effect::ReloadConfig]);
    let nothing = ReloadActions {
        rebind_keys: false,
        rebuild_fonts: false,
        resize_scrollback: false,
        reconfigure_surface: false,
        relayout: false,
        reload_theme: false,
        restart_required: Vec::new(),
    };
    let told = config_reloaded(&ReloadOutcome::Applied(nothing), true)
        .into_iter()
        .filter(|e| *e == Effect::NotifyPlugins(Notice::ConfigReload))
        .count();
    assert_eq!(told, 1);
}

#[test]
fn the_clipboard_is_not_emptied_by_an_empty_selection() {
    assert!(selection_copied(None).is_empty());
    assert!(selection_copied(Some("")).is_empty());
    assert_eq!(
        selection_copied(Some("a")),
        vec![Effect::SetClipboard("a".to_owned())]
    );
    assert_eq!(
        clipboard_pasted(Some("b")),
        vec![Effect::PasteText("b".to_owned())]
    );
    assert!(clipboard_pasted(None).is_empty());
}

#[test]
fn outside_events_are_taken_in() {
    let mut app = App::new(0);
    assert_eq!(app.user_event(UserEvent::ConfigChanged), vec![Effect::ReloadConfig]);
    assert_eq!(app.user_event(UserEvent::Wakeup), vec![Effect::DrainTerminals]);
    let picked = || UserEvent::FolderPicked {
        purpose: FolderPurpose::ImportPlugin,
        path: Some("/p".to_owned()),
    };
    assert!(app.user_event(picked()).is_empty(), "there is no page for it");
    app.plugins_listed(Vec::new(), "/plugins");
    assert_eq!(
        app.user_event(picked()),
        vec![Effect::UseFolder(FolderPurpose::ImportPlugin, "/p".to_owned())]
    );
    let cancelled = UserEvent::FolderPicked { purpose: FolderPurpose::ExportPlugins, path: None };
    assert!(app.user_event(cancelled).is_empty());
    assert_eq!(folder_title(FolderPurpose::ImportPlugin), "Choose a plugin folder");
    assert_eq!(plugin_problem(true, true), None);
    assert_eq!(plugin_problem(false, false).as_deref(), Some("plugins are off"));
    assert_eq!(plugin_problem(false, true).as_deref(), Some("not loaded"));
}

// --- keys ---------------------------------------------------------------------------

#[test]
fn typing_reaches_the_shell() {
    let mut app = App::new(0);
    let effects = key(&mut app, &press("a"), TabKind::Terminal);
    assert_eq!(
        effects,
        vec![Effect::SendKey(KeySend::Bytes(b"a".to_vec())), Effect::Redraw]
    );
    assert!(app.blink.on);
}

#[test]
fn a_key_without_text_is_encoded_first() {
    let mut app = App::new(0);
    let effects = key(&mut app, &named(WindowKey::ArrowUp), TabKind::Terminal);
    assert_eq!(
        effects,
        vec![Effect::SendKey(KeySend::Encode(Key::Named(NamedKey::Up)))]
    );
    assert!(key_encoded(None, true).is_empty());
    assert_eq!(
        key_encoded(Some(b"\x1b[A".to_vec()), true),
        vec![
            Effect::ScrollToBottom,
            Effect::SendKey(KeySend::Bytes(b"\x1b[A".to_vec())),
            Effect::Redraw,
        ]
    );
}

#[test]
fn plugins_see_a_key_first() {
    let mut app = App::new(0);
    let w = world(TabKind::Terminal);
    let effects = app.on_key(&press("a"), &w, PluginConfig::new(), true, false, 5);
    assert_eq!(effects, vec![Effect::OfferKey]);
    assert_eq!(app.key_offered(true, &press("a"), &w, false), vec![Effect::Redraw]);
    assert_eq!(
        app.key_offered(false, &press("a"), &w, false),
        vec![Effect::SendKey(KeySend::Bytes(b"a".to_vec())), Effect::Redraw]
    );
    // A held key is not offered again.
    let mut held = press("a");
    held.repeat = true;
    let effects = app.on_key(&held, &w, PluginConfig::new(), true, false, 6);
    assert!(!effects.contains(&Effect::OfferKey));
}

#[test]
fn a_bound_key_acts_instead_of_typing() {
    let mut app = App::new(0);
    let action = Action::NewTab;
    let mut k = press("t");
    k.mods = modifiers_from(true, true, false, false);
    k.bound = Some(&action);
    let effects = key(&mut app, &k, TabKind::Terminal);
    assert_eq!(effects, vec![Effect::OpenTab(TabStart::Plain)]);
}

#[test]
fn a_page_swallows_typing() {
    let mut app = App::new(0);
    app.toggle_help(&world(TabKind::Terminal));
    let effects = key(&mut app, &press("a"), TabKind::Help);
    assert!(!effects.iter().any(|e| matches!(e, Effect::SendKey(_))), "{effects:?}");
    let effects = key(&mut app, &named(WindowKey::Escape), TabKind::Help);
    assert!(effects.contains(&Effect::ClosePage(TabKind::Help)));
}

#[test]
fn a_page_behind_another_tab_takes_no_keys_and_no_wheel() {
    let mut app = App::new(0);
    app.toggle_help(&world(TabKind::Terminal));
    app.dispatch(&Action::OpenSettings, &world(TabKind::Terminal));
    let l = look(TabKind::Settings);
    assert!(app.place_pages(&places(), l.kind, l.font, &rows()));
    let focus = app.panel.as_ref().unwrap().focused();

    let effects = key(&mut app, &named(WindowKey::ArrowDown), TabKind::Terminal);
    assert!(effects.iter().any(|e| matches!(e, Effect::SendKey(_))), "{effects:?}");
    assert_eq!(app.panel.as_ref().unwrap().focused(), focus);
    key(&mut app, &named(WindowKey::ArrowDown), TabKind::Settings);
    assert_ne!(app.panel.as_ref().unwrap().focused(), focus);

    let scrolled = app.panel.as_ref().unwrap().scroll();
    let effects = app.on_scroll(
        Wheel::Lines(Fixed::from_int(-1)),
        Fixed::from_int(3),
        &in_pane(),
        Modifiers::none(),
        &ground(),
        &world(TabKind::Terminal),
    );
    assert_eq!(effects, vec![Effect::ScrollPane(1, -3), Effect::Redraw]);
    assert_eq!(app.help.as_ref().unwrap().ui.scroll(), 0);
    assert_eq!(app.panel.as_ref().unwrap().scroll(), scrolled);
    let effects = app.on_scroll(
        Wheel::Lines(Fixed::from_int(-1)),
        Fixed::from_int(3),
        &in_pane(),
        Modifiers::none(),
        &ground(),
        &world(TabKind::Settings),
    );
    assert_eq!(effects, vec![Effect::Redraw]);
    assert_eq!(app.panel.as_ref().unwrap().scroll(), scrolled + 3 * 18);
}

#[test]
fn the_menu_takes_the_keyboard() {
    let mut app = App::new(0);
    app.toggle_app_menu(&world(TabKind::Terminal));
    assert!(app.menu.is_some());
    key(&mut app, &named(WindowKey::ArrowDown), TabKind::Terminal);
    assert_eq!(app.menu.as_ref().unwrap().selected, 1);
    key(&mut app, &named(WindowKey::Escape), TabKind::Terminal);
    assert!(app.menu.is_none());
}

#[test]
fn picking_a_shell_opens_a_tab_with_it() {
    let mut app = App::new(0);
    let w = world(TabKind::Terminal);
    assert_eq!(app.toggle_new_tab_menu(&w), vec![Effect::ListShells]);
    let items = vec![MenuItem { label: "fish".to_owned(), value: "/bin/fish".to_owned() }];
    app.shells_listed(items, &w);
    let effects = app.pick_menu_item(&w);
    assert!(effects.contains(&Effect::OpenTab(TabStart::Chosen)));
    assert_eq!(app.pending_shell.as_deref(), Some("/bin/fish"));
    let effects = app.tab_opened(9, TabStart::Chosen);
    assert!(effects
        .iter()
        .any(|e| matches!(e, Effect::StartShell(9, Some(p), _) if p == "/bin/fish")));
    assert_eq!(app.pending_shell, None);
}

fn listed(name: &str) -> Listed {
    Listed {
        name: name.to_owned(),
        path: format!("/d/{name}"),
        link: false,
        dir: false,
        size: Some(1),
    }
}

#[test]
fn a_focused_sidebar_takes_the_keyboard() {
    let mut app = App::new(0);
    assert_eq!(app.toggle_explorer(), vec![Effect::OpenSidebar]);
    app.sidebar_opened("/d", false, Some(vec![listed("a"), listed("b")]), true);
    assert!(app.sidebar_focused);
    key(&mut app, &named(WindowKey::ArrowDown), TabKind::Terminal);
    assert_eq!(app.sidebar.as_ref().unwrap().selected, 1);
    let effects = app.handle_explorer_outcome(ExplorerOutcome::RunCd("/d".to_owned()));
    assert!(effects.contains(&Effect::WriteFocused(b"cd '/d'\r".to_vec())));
    app.sidebar.as_mut().unwrap().begin_new_folder();
    key(&mut app, &press("x"), TabKind::Terminal);
    let (commit, _) = app.commit_explorer_prompt(false, false, 0);
    assert_eq!(commit, Commit::CreateFolder("/d/x".to_owned()));
    app.unfocus_explorer();
    assert!(!app.sidebar_focused);
}

#[test]
fn the_settings_page_has_the_keyboard_before_the_sidebar() {
    let mut app = App::new(0);
    app.sidebar_opened("/d", false, Some(vec![listed("a"), listed("b")]), true);
    app.dispatch(&Action::OpenSettings, &world(TabKind::Terminal));
    app.sidebar_focused = true;
    key(&mut app, &named(WindowKey::ArrowDown), TabKind::Settings);
    assert_eq!(app.sidebar.as_ref().unwrap().selected, 0);
    let effects = key(&mut app, &named(WindowKey::Escape), TabKind::Settings);
    assert!(effects.contains(&Effect::ClosePage(TabKind::Settings)), "{effects:?}");
    assert!(app.sidebar_focused);
}

#[test]
fn composed_text_reaches_the_shell_whole() {
    let mut app = App::new(0);
    let composed = KeyPress {
        logical: LogicalKey::Dead,
        text: Some("\u{e9}"),
        mods: Modifiers::none(),
        repeat: false,
        bound: None,
    };
    let sent = vec![
        Effect::SendKey(KeySend::Bytes("\u{e9}".as_bytes().to_vec())),
        Effect::Redraw,
    ];
    assert_eq!(key(&mut app, &composed, TabKind::Terminal), sent);
    assert!(key(&mut app, &KeyPress { text: None, ..composed }, TabKind::Terminal).is_empty());
    app.toggle_help(&world(TabKind::Terminal));
    let composed = KeyPress {
        logical: LogicalKey::Character("ab".to_owned()),
        text: Some("ab"),
        mods: Modifiers::none(),
        repeat: false,
        bound: None,
    };
    assert!(key(&mut app, &composed, TabKind::Help).is_empty());
}

// --- the mouse ----------------------------------------------------------------------

fn click(app: &mut App, x: i32, y: i32, pressed: bool, hit: &Hit) -> Vec<Effect> {
    let g = ground();
    let w = world(TabKind::Terminal);
    app.pointer.x = x;
    app.pointer.y = y;
    app.on_mouse_button(
        MouseButton::Left,
        pressed,
        hit,
        Modifiers::none(),
        &g,
        &w,
        PluginConfig::new(),
        0,
    )
}

#[test]
fn the_middle_button_pastes() {
    let mut app = App::new(0);
    let effects = app.on_mouse_button(
        MouseButton::Middle,
        true,
        &in_pane(),
        Modifiers::none(),
        &ground(),
        &world(TabKind::Terminal),
        PluginConfig::new(),
        0,
    );
    assert_eq!(effects, vec![Effect::PasteClipboard, Effect::Redraw]);
}

#[test]
fn the_window_edge_resizes() {
    let mut app = App::new(0);
    let effects = click(&mut app, 0, 300, true, &in_pane());
    assert_eq!(effects, vec![Effect::ResizeWindow(ResizeDirection::West)]);
}

#[test]
fn a_press_in_a_pane_selects_until_released() {
    let mut app = App::new(0);
    let effects = click(&mut app, 400, 300, true, &in_pane());
    assert!(effects.contains(&Effect::StartSelection(1, 3, 4)), "{effects:?}");
    assert_eq!(app.pointer.selecting, Some(1));
    click(&mut app, 400, 300, false, &in_pane());
    assert_eq!(app.pointer.selecting, None);
}

#[test]
fn a_program_that_wants_the_mouse_gets_it() {
    let mut app = App::new(0);
    let hit = Hit { wants_mouse: true, ..in_pane() };
    let effects = click(&mut app, 400, 300, true, &hit);
    assert!(effects.contains(&Effect::ReportMouse(1, MouseButton::Left, true, 3, 4)));
    assert_eq!(app.pointer.selecting, None);
}

#[test]
fn a_press_outside_a_menu_only_closes_it() {
    let mut app = App::new(0);
    app.toggle_app_menu(&world(TabKind::Terminal));
    app.menu_rect = Some(Rect::new(500, 24, 100, 80));
    let effects = click(&mut app, 100, 300, true, &in_pane());
    assert!(app.menu.is_none());
    assert!(!effects.iter().any(|e| matches!(e, Effect::StartSelection(..))));
}

#[test]
fn the_wheel_scrolls_the_pane_under_it() {
    let mut app = App::new(0);
    let effects = app.on_scroll(
        Wheel::Lines(Fixed::from_int(1)),
        Fixed::from_int(3),
        &in_pane(),
        Modifiers::none(),
        &ground(),
        &world(TabKind::Terminal),
    );
    assert_eq!(effects, vec![Effect::ScrollPane(1, 3), Effect::Redraw]);
    assert_eq!(Wheel::Pixels(Fixed::from_int(40)).lines(Fixed::from_int(3), 20), 2);
    assert_eq!(Wheel::Lines(Fixed::from_millionths(-500_000)).lines(Fixed::from_int(3), 20), -2);
}

#[test]
fn a_dragged_divider_follows_the_pointer_along_its_axis() {
    let mut app = App::new(0);
    app.dragging = Some(vec![true]);
    let mut g = ground();
    g.dividers.push(DividerPlace { path: Vec::new(), horizontal: true });
    g.dividers.push(DividerPlace { path: vec![true], horizontal: false });
    let w = world(TabKind::Terminal);
    let effects = app.on_mouse_move(400, 250, &nowhere(), None, None, &g, &w);
    assert!(effects.contains(&Effect::DragDivider(vec![true], false, 600)), "{effects:?}");
    app.dragging = Some(Vec::new());
    let effects = app.on_mouse_move(410, 250, &nowhere(), None, None, &g, &w);
    assert!(effects.contains(&Effect::DragDivider(Vec::new(), true, 800)), "{effects:?}");
    app.dragging = Some(vec![false]);
    let effects = app.on_mouse_move(420, 250, &nowhere(), None, None, &g, &w);
    assert!(!effects.iter().any(|e| matches!(e, Effect::DragDivider(..))));
}

#[test]
fn hovering_a_button_shows_once() {
    let mut app = App::new(0);
    let hit = Hit { action: Some(ChromeButton::AppMenu), chrome: true, ..nowhere() };
    assert!(app.update_hover(570, 10, &hit, &ground(), TabKind::Terminal));
    assert!(!app.update_hover(571, 10, &hit, &ground(), TabKind::Terminal));
    assert!(app.update_hover(400, 300, &in_pane(), &ground(), TabKind::Terminal));
}

// --- frames -------------------------------------------------------------------------

fn places() -> Places {
    Places {
        window: (800, 600),
        panes: vec![PanePlace {
            pane: 1,
            rect: Rect::new(0, 24, 800, 552),
            content: Rect::new(4, 28, 792, 544),
        }],
        dividers: vec![Rect::new(400, 24, 1, 552)],
        tab_bar: Rect::new(0, 0, 800, 24),
        tabs: vec![Rect::new(0, 0, 180, 24)],
        tab_close: vec![Rect::new(160, 4, 16, 16)],
        actions: vec![(ChromeButton::AppMenu, Rect::new(760, 0, 40, 24))],
        status_bar: Rect::new(0, 576, 800, 24),
        sidebar: Rect::new(0, 24, 0, 552),
    }
}

fn look(kind: TabKind) -> Look {
    Look {
        font: Font { cell_width: 8, cell_height: 18 },
        kind,
        active_tab: 0,
        titles: vec!["shell".to_owned()],
        activity: vec![false],
        tooltip: "Menu".to_owned(),
        left: vec!["~/src".to_owned()],
        right: vec![
            Segment {
                text: "12:00".to_owned(),
                foreground: None,
                background: None,
                owner: None,
            },
            Segment {
                text: "VS".to_owned(),
                foreground: None,
                background: None,
                owner: Some("open-in-ide.code".to_owned()),
            },
        ],
        palette: Palette {
            background: "#101010".to_owned(),
            background_focused: "#202020".to_owned(),
            foreground: "#e0e0e0".to_owned(),
            cursor: "#ff8800".to_owned(),
        },
        rounded: true,
        border: Fixed::from_int(1),
        home: Some("/home/me".to_owned()),
        now: 0,
    }
}

fn rows() -> PageRows {
    PageRows {
        settings: (0..60)
            .map(|i| Widget::toggle(WidgetId(i), "row", false))
            .collect(),
        settings_footer: vec![Widget::button(WidgetId(900), "Save")],
        keys: Vec::new(),
        plugins: PluginConfig::new(),
    }
}

#[test]
fn a_terminal_frame_is_one_step_with_the_border_last() {
    let mut app = App::new(0);
    let l = look(TabKind::Terminal);
    assert!(app.place_pages(&places(), l.kind, l.font, &rows()));
    let plan = app.draw_frame(&places(), &l).unwrap();
    assert!(plan.window.is_some());
    assert_eq!(plan.steps.len(), 1);
    assert_eq!((plan.steps[0].start, plan.steps[0].end), (0, plan.ops.len()));
    assert!(matches!(plan.ops.last(), Some(Op::Ring { .. })));
    assert!(matches!(
        plan.ops[0],
        Op::Fill { tone: Tone::SplitDivider, rect, .. } if rect.x == 400
    ));
    // The clock is text; only the button can be pressed.
    assert_eq!(plan.hits.len(), 1);
    assert_eq!(plan.hits[0].0, "open-in-ide.code");
    app.frame_drawn(plan.hits);
    assert_eq!(app.ide_hits.len(), 1);
}

#[test]
fn the_button_under_the_pointer_lights_up() {
    let mut app = App::new(0);
    let lit = |app: &App| -> Vec<Rgba> {
        let plan = app.draw_frame(&places(), &look(TabKind::Terminal)).unwrap();
        plan.ops
            .iter()
            .filter_map(|op| match op {
                Op::Fill { tone: Tone::Own(color), .. } => Some(*color),
                _ => None,
            })
            .collect()
    };
    assert!(lit(&app).is_empty());
    // The clock comes first and cannot be pressed, so the button is the first that can.
    app.pointer.hovered_ide = Some(0);
    assert_eq!(lit(&app), vec![Rgba { r: 0x20, g: 0x20, b: 0x20, a: 255 }]);
    app.pointer.pressed_ide = Some(0);
    assert_eq!(lit(&app), vec![Rgba { r: 0xff, g: 0x88, b: 0, a: 255 }]);
    app.pointer.hovered_ide = Some(1);
    app.pointer.pressed_ide = None;
    assert!(lit(&app).is_empty());
}

#[test]
fn only_the_hovered_tab_offers_to_close() {
    let mut app = App::new(0);
    let p = Places {
        tabs: vec![Rect::new(0, 0, 180, 24), Rect::new(180, 0, 180, 24)],
        tab_close: vec![Rect::new(160, 4, 16, 16), Rect::new(340, 4, 16, 16)],
        ..places()
    };
    let l = Look {
        titles: vec!["one".to_owned(), "two".to_owned()],
        activity: vec![false, false],
        ..look(TabKind::Terminal)
    };
    let crosses = |app: &App| -> Vec<Rect> {
        let plan = app.draw_frame(&p, &l).unwrap();
        plan.ops
            .iter()
            .filter_map(|op| match op {
                Op::Icon { button: ChromeButton::Close, rect, .. } => Some(*rect),
                _ => None,
            })
            .collect()
    };
    assert!(crosses(&app).is_empty());
    app.pointer.hovered_tab = Some(1);
    assert_eq!(crosses(&app), vec![Rect::new(340, 4, 16, 16)]);
}

#[test]
fn a_page_clips_its_rows_between_title_and_footer() {
    let mut app = App::new(0);
    app.dispatch(&Action::OpenSettings, &world(TabKind::Terminal));
    let p = Places { status_bar: Rect::new(0, 600, 800, 0), ..places() };
    let l = look(TabKind::Settings);
    assert!(app.place_pages(&p, l.kind, l.font, &rows()));
    let body = app.panel_body.unwrap();
    assert_eq!(body.y, 24 + 18 + 12);
    let plan = app.draw_frame(&p, &l).unwrap();
    assert_eq!(plan.steps.len(), 3);
    assert_eq!(plan.steps[0].end, plan.steps[1].start);
    assert_eq!(plan.steps[1].end, plan.steps[2].start);
    assert_eq!(plan.steps[2].end, plan.ops.len());
    assert_eq!(plan.steps[1].clip.y, body.y as u32);
    assert_eq!(plan.steps[1].clip.height, body.height);
    assert_eq!(plan.steps[0].clip.height, 600);
    assert!(plan.ops.iter().any(
        |op| matches!(op, Op::Text { run, .. } if run.shown == "Tuzminal Settings")
    ));
    assert!(plan.ops.iter().any(|op| matches!(op, Op::Thumb { .. })));

    // Back on a terminal the page is not drawn, and nothing scrolls it.
    assert!(app.place_pages(&p, TabKind::Terminal, l.font, &rows()));
    assert_eq!(app.panel_body, None);
}

#[test]
fn a_title_starts_where_its_rows_do() {
    let mut app = App::new(0);
    app.dispatch(&Action::OpenSettings, &world(TabKind::Terminal));
    let l = look(TabKind::Settings);
    assert!(app.place_pages(&places(), l.kind, l.font, &rows()));
    assert_eq!(app.panel.as_ref().unwrap().placed()[0].rect.x, 18);
    let plan = app.draw_frame(&places(), &l).unwrap();
    assert!(plan.ops.iter().any(
        |op| matches!(op, Op::Text { run, .. } if run.shown == "Tuzminal Settings" && run.x2 == 36)
    ));
}

#[test]
fn the_sidebar_is_titled_with_its_directory() {
    let mut app = App::new(0);
    app.sidebar_opened("/home/me/src", false, Some(vec![listed("a")]), true);
    let p = Places { sidebar: Rect::new(0, 24, 240, 552), ..places() };
    let l = look(TabKind::Terminal);
    assert!(app.place_pages(&p, l.kind, l.font, &rows()));
    let plan = app.draw_frame(&p, &l).unwrap();
    assert!(plan
        .ops
        .iter()
        .any(|op| matches!(op, Op::Text { run, .. } if run.shown == "~/src")));
    assert!(plan.ops.iter().any(|op| matches!(
        op,
        Op::Fill { rect, tone: Tone::Cursor, .. } if rect.x == 239 && rect.width == 1
    )));
}

#[test]
fn a_place_beyond_the_pixels_draws_no_frame() {
    let app = App::new(0);
    let p = Places { window: (u32::MAX, 600), ..places() };
    assert!(app.draw_frame(&p, &look(TabKind::Terminal)).is_none());
}

#[test]
fn a_menu_and_a_message_float_over_the_page() {
    let mut app = App::new(0);
    app.toggle_app_menu(&world(TabKind::Terminal));
    app.notify("saved", NotifyLevel::Info, 0);
    let l = look(TabKind::Terminal);
    assert!(app.place_pages(&places(), l.kind, l.font, &rows()));
    assert!(app.menu_rect.is_some());
    let plan = app.draw_frame(&places(), &l).unwrap();
    let text_at = |wanted: &str| {
        plan.ops
            .iter()
            .position(|op| matches!(op, Op::Text { run, .. } if run.shown == wanted))
    };
    assert!(text_at("saved") > text_at("Settings"));
    assert!(text_at("Settings").is_some());
}

#[test]
fn panes_are_limited_to_their_area() {
    let background = Rgba { r: 0, g: 0, b: 0, a: 255 };
    let cell = RenderCell {
        col: 1,
        row: 0,
        ch: 'x',
        zerowidth: Vec::new(),
        fg: background,
        bg: background,
        underline_color: None,
        flags: CellFlags {
            bold: false,
            italic: false,
            strikeout: false,
            wide: false,
            underline: Underline::Absent,
        },
        blank: false,
    };
    let metrics = CellMetrics {
        baseline: 12 * PIXEL,
        underline_offset: PIXEL,
        underline_thickness: PIXEL,
        strikeout_offset: PIXEL,
        strikeout_thickness: PIXEL,
    };
    let screen = TerminalFrame { cells: vec![cell], cursor: None, background };
    let layers = draw_panes(&places(), &vec![Some(screen)], look(TabKind::Terminal).font, metrics);
    assert_eq!(layers.len(), 1);
    assert_eq!(layers[0].clip.y, 24);
    assert_eq!(layers[0].ops.len(), 1);
    let none = draw_panes(&places(), &vec![None], look(TabKind::Terminal).font, metrics);
    assert!(none.is_empty());
    let app = App::new(0);
    assert!(app.cursor_shows(2, 1));
}

#[test]
fn a_frame_starts_with_the_plugins() {
    assert_eq!(frame_start(0, 3), FrameStart::Closing);
    assert_eq!(frame_start(1, 3), FrameStart::AskPlugins);
    assert_eq!(frame_start(1, 0), FrameStart::Build);
    assert!(segments_changed(0, 1));
    assert!(segments_changed(2, 0));
    assert!(!segments_changed(1, 2));
}
