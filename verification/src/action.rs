//! What can be bound to a key, and what keys and buttons mean.

use vstd::prelude::*;

use crate::explorer::{ExplorerOutcome, OutcomeModel};
use crate::keys::{Key, KeyChord, NamedKey};
use crate::scene::ChromeButton;
use crate::ui::UiKey;

verus! {

/// Something that can be bound to a key.
#[derive(Debug, PartialEq, Eq)]
pub enum Action {
    Quit,
    ReloadConfig,
    OpenSettings,
    OpenExplorer,
    OpenHelp,
    OpenPlugins,
    SplitRight,
    SplitLeft,
    SplitUp,
    SplitDown,
    ClosePane,
    FocusLeft,
    FocusRight,
    FocusUp,
    FocusDown,
    FocusNextPane,
    FocusPrevPane,
    ResizeLeft,
    ResizeRight,
    ResizeUp,
    ResizeDown,
    NewTab,
    CloseTab,
    NextTab,
    PrevTab,
    /// A tab by its number, counted from one.
    SelectTab(u32),
    CopySelection,
    Paste,
    SelectAll,
    IncreaseFontSize,
    DecreaseFontSize,
    ResetFontSize,
    ToggleFullscreen,
    ScrollLineUp,
    ScrollLineDown,
    ScrollPageUp,
    ScrollPageDown,
    ScrollToTop,
    ScrollToBottom,
    ClearScrollback,
    SendText(String),
    /// A plugin's command, under its qualified name.
    Plugin(String),
}

/// A button of the mouse.
#[derive(Debug, Clone, Copy, PartialEq, Eq, Structural)]
pub enum MouseButton {
    Left,
    Middle,
    Right,
    WheelUp,
    WheelDown,
}

pub open spec fn action_of(button: ChromeButton) -> Option<Action> {
    match button {
        ChromeButton::NewTab => Some(Action::NewTab),
        ChromeButton::Settings => Some(Action::OpenSettings),
        ChromeButton::Explorer => Some(Action::OpenExplorer),
        ChromeButton::Help => Some(Action::OpenHelp),
        ChromeButton::Plugins => Some(Action::OpenPlugins),
        ChromeButton::SplitRight => Some(Action::SplitRight),
        ChromeButton::SplitDown => Some(Action::SplitDown),
        _ => None,
    }
}

/// The action a toolbar button performs, where it is one that can be bound, so that a
/// tooltip can name the chord that does the same. The two dropdowns have no chord of
/// their own, and the window controls belong to the compositor's bindings.
pub fn button_action(button: ChromeButton) -> (action: Option<Action>)
    ensures
        action == action_of(button),
{
    match button {
        ChromeButton::NewTab => Some(Action::NewTab),
        ChromeButton::Settings => Some(Action::OpenSettings),
        ChromeButton::Explorer => Some(Action::OpenExplorer),
        ChromeButton::Help => Some(Action::OpenHelp),
        ChromeButton::Plugins => Some(Action::OpenPlugins),
        ChromeButton::SplitRight => Some(Action::SplitRight),
        ChromeButton::SplitDown => Some(Action::SplitDown),
        ChromeButton::NewTabMenu
        | ChromeButton::AppMenu
        | ChromeButton::Minimize
        | ChromeButton::Maximize
        | ChromeButton::Close => None,
    }
}

pub open spec fn ui_key(chord: KeyChord) -> Option<UiKey> {
    match chord.key {
        Key::Named(NamedKey::Escape) => Some(UiKey::Escape),
        Key::Named(NamedKey::Tab) => if chord.mods.shift {
            Some(UiKey::ShiftTab)
        } else {
            Some(UiKey::Tab)
        },
        Key::Named(NamedKey::Up) => Some(UiKey::Up),
        Key::Named(NamedKey::Down) => Some(UiKey::Down),
        Key::Named(NamedKey::Left) => Some(UiKey::Left),
        Key::Named(NamedKey::Right) => Some(UiKey::Right),
        Key::Named(NamedKey::Enter) => Some(UiKey::Activate),
        Key::Named(NamedKey::Space) => Some(UiKey::Activate),
        Key::Named(NamedKey::Backspace) => Some(UiKey::Backspace),
        Key::Named(NamedKey::Delete) => Some(UiKey::Delete),
        Key::Named(NamedKey::Home) => Some(UiKey::Home),
        Key::Named(NamedKey::End) => Some(UiKey::End),
        _ => None,
    }
}

/// Turn a chord into a key that a page of widgets understands. Everything else is
/// swallowed while such a page shows, so stray typing cannot reach the shell behind it.
pub fn panel_key(chord: &KeyChord) -> (key: Option<UiKey>)
    ensures
        key == ui_key(*chord),
{
    match chord.key {
        Key::Named(NamedKey::Escape) => Some(UiKey::Escape),
        Key::Named(NamedKey::Tab) => {
            if chord.mods.shift {
                Some(UiKey::ShiftTab)
            } else {
                Some(UiKey::Tab)
            }
        },
        Key::Named(NamedKey::Up) => Some(UiKey::Up),
        Key::Named(NamedKey::Down) => Some(UiKey::Down),
        Key::Named(NamedKey::Left) => Some(UiKey::Left),
        Key::Named(NamedKey::Right) => Some(UiKey::Right),
        Key::Named(NamedKey::Enter) => Some(UiKey::Activate),
        // Space activates a button or a toggle; a text field has taken it before.
        Key::Named(NamedKey::Space) => Some(UiKey::Activate),
        Key::Named(NamedKey::Backspace) => Some(UiKey::Backspace),
        Key::Named(NamedKey::Delete) => Some(UiKey::Delete),
        Key::Named(NamedKey::Home) => Some(UiKey::Home),
        Key::Named(NamedKey::End) => Some(UiKey::End),
        _ => None,
    }
}

/// A selection move that did nothing is not worth a frame.
pub fn step(moved: bool) -> (outcome: ExplorerOutcome)
    ensures
        outcome@ == (if moved {
            OutcomeModel::Redraw
        } else {
            OutcomeModel::Continue
        }),
{
    if moved {
        ExplorerOutcome::Redraw
    } else {
        ExplorerOutcome::Continue
    }
}

/// Where a viewport cell stands in the grid: scrolling back moves every line up.
pub fn viewport_point(display_offset: usize, col: u16, row: u16) -> (point: (i32, usize))
    requires
        display_offset <= i32::MAX,
    ensures
        point.0 == row - display_offset,
        point.1 == col,
{
    (row as i32 - display_offset as i32, col as usize)
}

} // verus!
