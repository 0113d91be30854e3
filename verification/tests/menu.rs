//! The dropdown menu.

use tuzminal::geometry::Rect;
use tuzminal::menu::{Menu, MenuItem, MenuKind};

fn menu(anchor: Rect, count: usize) -> Menu {
    Menu::new(
        MenuKind::AppMenu,
        anchor,
        (0..count)
            .map(|i| MenuItem {
                label: format!("item {i}"),
                value: format!("{i}"),
            })
            .collect(),
    )
}

const CELL: (u32, u32) = (8, 20);
const WINDOW: Rect = Rect {
    x: 0,
    y: 0,
    width: 800,
    height: 600,
};

#[test]
fn it_hangs_below_its_button() {
    let m = menu(Rect::new(100, 0, 40, 40), 3);
    let rect = m.rect(WINDOW, CELL);
    assert_eq!(rect.y, 40, "directly under the button");
    assert_eq!(rect.x, 100, "and aligned with its left edge");
}

#[test]
fn a_menu_near_the_right_edge_is_pushed_back_on_screen() {
    let m = menu(Rect::new(790, 0, 40, 40), 3);
    let rect = m.rect(WINDOW, CELL);
    assert!(rect.right() <= WINDOW.right(), "{rect:?} runs off the right");
    assert!(rect.x >= WINDOW.x);
}

#[test]
fn a_menu_with_no_room_below_opens_upwards() {
    let m = menu(Rect::new(10, 580, 40, 20), 5);
    let rect = m.rect(WINDOW, CELL);
    assert!(rect.bottom() <= WINDOW.bottom(), "{rect:?} runs off the bottom");
    assert!(rect.y < 580, "it should open above the button");
}

#[test]
fn a_menu_taller_than_the_window_is_clamped_rather_than_overflowing() {
    let m = menu(Rect::new(0, 0, 40, 40), 200);
    let rect = m.rect(WINDOW, CELL);
    assert!(rect.height <= WINDOW.height);
    assert!(rect.width <= WINDOW.width);
}

#[test]
fn rows_stack_without_gaps_or_overlap() {
    let m = menu(Rect::new(0, 0, 40, 40), 4);
    let rect = m.rect(WINDOW, CELL);
    for i in 1..4 {
        let above = m.row_rect(rect, i - 1, CELL.1);
        let here = m.row_rect(rect, i, CELL.1);
        assert_eq!(above.bottom(), here.y, "row {i} does not meet the one above");
    }
}

#[test]
fn every_row_is_hit_testable_at_its_own_position() {
    let m = menu(Rect::new(0, 0, 40, 40), 4);
    let rect = m.rect(WINDOW, CELL);
    for i in 0..4 {
        let row = m.row_rect(rect, i, CELL.1);
        assert_eq!(
            m.row_at(rect, CELL.1, row.x + 1, row.y + 1),
            Some(i),
            "row {i} is not clickable where it is drawn"
        );
    }
    assert_eq!(m.row_at(rect, CELL.1, rect.x - 5, rect.y), None);
}

#[test]
fn a_menu_remembers_what_it_is_for() {
    let shells = Menu::new(
        MenuKind::NewTabShell,
        Rect::new(0, 0, 40, 40),
        vec![MenuItem {
            label: "bash".to_owned(),
            value: "/bin/bash".to_owned(),
        }],
    );
    assert_eq!(shells.kind, MenuKind::NewTabShell);
    assert_eq!(menu(Rect::new(0, 0, 40, 40), 1).kind, MenuKind::AppMenu);
}

#[test]
fn the_selection_wraps_at_both_ends() {
    let mut m = menu(Rect::new(0, 0, 40, 40), 3);
    m.move_selection(-1);
    assert_eq!(m.selected, 2, "up from the first row reaches the last");
    m.move_selection(1);
    assert_eq!(m.selected, 0, "and down from the last comes back round");
}

#[test]
fn an_empty_menu_does_not_panic_or_select_anything() {
    let mut m = menu(Rect::new(0, 0, 40, 40), 0);
    m.move_selection(1);
    assert_eq!(m.selected(), None);
    let _ = m.rect(WINDOW, CELL);
}
