//! Toolbar and file icons.

use tuzminal::geometry::Rect;
use tuzminal::icon::{box_of, draw, entry};
use tuzminal::scene::ChromeButton;
use tuzminal::widget::EntryKind;

#[test]
fn an_icon_is_centered_in_its_button() {
    let b = box_of(Rect::new(0, 0, 40, 40));
    assert_eq!(b.side, 14);
    assert_eq!(b.stroke, 2);
    assert_eq!((b.x, b.y), (13, 13));
    assert_eq!(box_of(Rect::new(0, 0, 4, 4)).side, 4);
}

#[test]
fn every_button_and_entry_draws_something() {
    for button in [
        ChromeButton::NewTab,
        ChromeButton::NewTabMenu,
        ChromeButton::SplitRight,
        ChromeButton::SplitDown,
        ChromeButton::Explorer,
        ChromeButton::Plugins,
        ChromeButton::Settings,
        ChromeButton::Help,
        ChromeButton::AppMenu,
        ChromeButton::Minimize,
        ChromeButton::Maximize,
        ChromeButton::Close,
    ] {
        let mut out = Vec::new();
        draw(&mut out, button, Rect::new(0, 0, 40, 40));
        assert!(!out.is_empty(), "{button:?} draws nothing");
    }
    for kind in [
        EntryKind::Parent,
        EntryKind::Directory,
        EntryKind::File,
        EntryKind::Symlink,
    ] {
        let mut out = Vec::new();
        entry(&mut out, kind, Rect::new(0, 0, 20, 20));
        assert!(!out.is_empty(), "{kind:?} draws nothing");
    }
    let mut out = Vec::new();
    draw(&mut out, ChromeButton::Close, Rect::new(0, 0, 0, 40));
    assert!(out.is_empty());
}
