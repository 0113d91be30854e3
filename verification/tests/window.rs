//! The window's edges, its outline and the strips around the panes.

use tuzminal::action::button_action;
use tuzminal::decimal::Fixed;
use tuzminal::scene::ChromeButton;
use tuzminal::window::{
    active_buttons, border_width, chrome_buttons, corner_radius, drag_sidebar, initial_size,
    resize_edge, resize_edge_at, shell_choice, sidebar_width, spawn_size, status_bar_height,
    tab_bar_height, tab_title, PendingSize, ResizeDirection, TabKind, INHERIT_PANE, RESIZE_BORDER,
};

const W: i32 = 800;
const H: i32 = 600;
const SIZE: (u32, u32) = (800, 600);

fn fx(value: f64) -> Fixed {
    Fixed::from_millionths((value * 1_000_000.0).round() as i64)
}

#[test]
fn each_edge_and_corner_reports_its_own_direction() {
    let cases = [
        ((0, 0), Some(ResizeDirection::NorthWest)),
        ((W - 1, 0), Some(ResizeDirection::NorthEast)),
        ((0, H - 1), Some(ResizeDirection::SouthWest)),
        ((W - 1, H - 1), Some(ResizeDirection::SouthEast)),
        ((W / 2, 0), Some(ResizeDirection::North)),
        ((W / 2, H - 1), Some(ResizeDirection::South)),
        ((0, H / 2), Some(ResizeDirection::West)),
        ((W - 1, H / 2), Some(ResizeDirection::East)),
        ((W / 2, H / 2), None),
    ];
    for ((x, y), want) in cases {
        assert_eq!(
            resize_edge_at(x, y, W, H),
            want,
            "({x}, {y}) should resolve to {want:?}"
        );
    }
}

#[test]
fn the_bottom_band_is_live_and_just_inside_it_is_not() {
    assert_eq!(
        resize_edge_at(W / 2, H - RESIZE_BORDER, W, H),
        Some(ResizeDirection::South)
    );
    assert_eq!(resize_edge_at(W / 2, H - RESIZE_BORDER - 1, W, H), None);
}

#[test]
fn a_borderless_window_gets_the_configured_width() {
    assert_eq!(border_width(false, false, fx(2.0), SIZE), fx(2.0));
}

#[test]
fn decorations_and_maximizing_each_suppress_it() {
    assert_eq!(border_width(true, false, fx(2.0), SIZE), fx(0.0));
    assert_eq!(border_width(false, true, fx(2.0), SIZE), fx(0.0));
}

#[test]
fn an_absurd_width_is_clamped_instead_of_inverting_the_background() {
    let border = border_width(false, false, fx(10_000.0), SIZE);
    assert!(border.millionths > 0);
    assert!(
        600_000_000 - border.millionths * 2 > 0,
        "{border:?} leaves no room for the background"
    );
    assert_eq!(border, fx(150.0));
}

#[test]
fn a_negative_width_is_treated_as_none() {
    assert_eq!(border_width(false, false, fx(-4.0), SIZE), fx(0.0));
}

#[test]
fn the_buttons_with_actions_are_exactly_the_ones_with_shortcuts() {
    let expected_none = [
        ChromeButton::NewTabMenu,
        ChromeButton::AppMenu,
        ChromeButton::Minimize,
        ChromeButton::Maximize,
        ChromeButton::Close,
    ];
    let all = [
        ChromeButton::NewTab,
        ChromeButton::NewTabMenu,
        ChromeButton::SplitRight,
        ChromeButton::SplitDown,
        ChromeButton::Explorer,
        ChromeButton::Plugins,
        ChromeButton::Settings,
        ChromeButton::Help,
        ChromeButton::AppMenu,
        ChromeButton::Minimize,
        ChromeButton::Maximize,
        ChromeButton::Close,
    ];
    for button in all {
        let action = button_action(button);
        let should_have = !expected_none.contains(&button);
        assert_eq!(action.is_some(), should_have, "{button:?}: action is {action:?}");
    }
}

#[test]
fn a_decorated_or_maximized_window_is_not_resized_by_its_edges() {
    assert_eq!(resize_edge(true, false, 0, 0, W, H), None);
    assert_eq!(resize_edge(false, true, 0, 0, W, H), None);
    assert_eq!(
        resize_edge(false, false, 0, 0, W, H),
        Some(ResizeDirection::NorthWest)
    );
}

#[test]
fn corners_are_rounded_only_without_decorations() {
    assert_eq!(corner_radius(true, fx(8.0)), fx(0.0));
    assert_eq!(corner_radius(false, fx(8.0)), fx(8.0));
    assert_eq!(corner_radius(false, fx(-1.0)), fx(0.0));
}

#[test]
fn the_strips_come_and_go() {
    assert_eq!(tab_bar_height(1, false, 20), 0);
    assert!(tab_bar_height(1, true, 20) > 20);
    assert_eq!(tab_bar_height(2, false, 20), tab_bar_height(1, true, 20));
    assert_eq!(status_bar_height(TabKind::Terminal, false, false, 20), 0);
    assert!(status_bar_height(TabKind::Terminal, false, true, 20) > 20);
    assert_eq!(status_bar_height(TabKind::Help, true, true, 20), 0);
}

#[test]
fn the_sidebar_keeps_to_its_limits() {
    assert_eq!(sidebar_width(false, TabKind::Terminal, 30, 10, 60, 8), 0);
    assert_eq!(sidebar_width(true, TabKind::Settings, 30, 10, 60, 8), 0);
    assert_eq!(sidebar_width(true, TabKind::Terminal, 30, 10, 60, 8), 240);
    assert_eq!(sidebar_width(true, TabKind::Terminal, 5, 10, 60, 8), 80);
    assert_eq!(drag_sidebar(320, 0, 8, 30, 10, 60), Some(40));
    assert_eq!(drag_sidebar(240, 0, 8, 30, 10, 60), None);
    assert_eq!(drag_sidebar(10_000, 0, 8, 30, 10, 60), Some(60));
}

#[test]
fn the_toolbar_has_window_controls_only_without_decorations() {
    assert!(chrome_buttons(false).contains(&ChromeButton::Close));
    assert!(!chrome_buttons(true).contains(&ChromeButton::Close));
    assert_eq!(
        active_buttons(true, TabKind::Help),
        vec![ChromeButton::Explorer, ChromeButton::AppMenu]
    );
    assert!(active_buttons(false, TabKind::Terminal).is_empty());
}

#[test]
fn a_tab_is_named_by_the_first_thing_that_names_it() {
    assert_eq!(tab_title(Some("mine"), TabKind::Help, Some("vim"), 0), "mine");
    assert_eq!(tab_title(None, TabKind::Help, Some("vim"), 0), "Shortcuts");
    assert_eq!(tab_title(None, TabKind::Terminal, Some("vim"), 0), "vim");
    assert_eq!(tab_title(None, TabKind::Terminal, None, 2), "3");
}

#[test]
fn a_shell_starts_where_and_as_asked() {
    let choice = shell_choice(Some("/bin/zsh"), None, Some("/bin/fish"), None);
    assert_eq!(choice.program.as_deref(), Some("/bin/fish"));
    let choice = shell_choice(Some("/bin/zsh"), Some(INHERIT_PANE), None, Some("/src"));
    assert_eq!(choice.program.as_deref(), Some("/bin/zsh"));
    assert_eq!(choice.working_directory.as_deref(), Some("/src"));
    let size = spawn_size(None, (80, 24), (8, 16));
    assert_eq!((size.columns, size.rows), (80, 24));
    assert_eq!(initial_size(80, 24, 4, 4).0 % 80, 8);
}

#[test]
fn a_resize_waits_for_a_surface() {
    let mut pending = PendingSize::new();
    assert_eq!(pending.take(Some((1, 1))), None);
    pending.note(800, 600);
    pending.note(801, 600);
    assert_eq!(pending.take(None), None);
    assert_eq!(pending.take(Some((800, 600))), Some((801, 600)));
    assert_eq!(pending.take(Some((800, 600))), None);
}
