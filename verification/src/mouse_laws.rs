//! What the pointer does where it is.

use vstd::prelude::*;

use crate::action::MouseButton;
use crate::app::{AppModel, Pointer, TabDrag, TitleClick, World};
use crate::app_mouse::{DividerPlace, Ground, Hit, Wheel};
use crate::decimal::Fixed;
use crate::effect::{AfterSelect, EffectModel};
use crate::geometry::Rect;
use crate::keys::Modifiers;
use crate::menu::MenuModel;
use crate::plugins::PluginConfigModel;
use crate::scene::ChromeButton;
use crate::window::{CursorShape, ResizeDirection, TabKind};

verus! {

/// Six pixels along each edge of a window without a frame resize it.
pub open spec fn off_the_edges(p: Pointer, ground: Ground) -> bool {
    ||| ground.decorations
    ||| ground.maximized
    ||| 6 < p.x < ground.window.0 - 6 && 6 < p.y < ground.window.1 - 6
}

/// Nothing that is drawn over the window takes the pointer where it is: no edge, no menu,
/// no pressable segment, no sidebar and no page.
pub open spec fn in_the_open(app: AppModel, ground: Ground, world: World) -> bool {
    let (x, y) = (app.pointer.x as int, app.pointer.y as int);
    &&& ground.laid_out
    &&& app.menu is None
    &&& off_the_edges(app.pointer, ground)
    &&& forall|k: int| 0 <= k < app.ide_hits.len() ==> !(#[trigger] app.ide_hits[k]).1.has(x, y)
    &&& ground.sidebar.width == 0 || x > ground.sidebar.x + ground.sidebar.width + 4
    &&& world.kind is Terminal || world.kind is Help || !(ground.page matches Some(r) && r.has(
        x,
        y,
    ))
}

proof fn lemma_no_segment(list: Seq<(Seq<char>, Rect)>, x: int, y: int, n: int)
    requires
        0 <= n <= list.len(),
        forall|k: int| 0 <= k < n ==> !(#[trigger] list[k]).1.has(x, y),
    ensures
        crate::app_mouse::segment_at(list, x, y, n) is None,
    decreases n,
{
    if n > 0 {
        lemma_no_segment(list, x, y, n - 1);
    }
}

proof fn lemma_in_the_open(
    app: AppModel,
    button: MouseButton,
    hit: Hit,
    mods: Modifiers,
    ground: Ground,
    world: World,
    config: PluginConfigModel,
    now: u64,
)
    requires
        in_the_open(app, ground, world),
    ensures
        app.mouse_button(button, true, hit, mods, ground, world, config, now)
            == app.window_pressed(button, hit, mods, ground, world, now),
{
    lemma_no_segment(
        app.ide_hits,
        app.pointer.x as int,
        app.pointer.y as int,
        app.ide_hits.len() as int,
    );
}

/// A press on a tab brings that very tab to the front, whichever it is, and may start a
/// drag of that tab from where the pointer is.
pub proof fn law_a_pressed_tab_comes_to_the_front(
    app: AppModel,
    button: MouseButton,
    hit: Hit,
    mods: Modifiers,
    ground: Ground,
    world: World,
    config: PluginConfigModel,
    now: u64,
    i: usize,
)
    requires
        in_the_open(app, ground, world),
        hit.action is None,
        hit.tab_close is None || hit.tab_close != app.pointer.hovered_tab,
        hit.tab == Some(i),
    ensures
        ({
            let (after, effects) = app.mouse_button(
                button,
                true,
                hit,
                mods,
                ground,
                world,
                config,
                now,
            );
            &&& effects == seq![EffectModel::SelectTab(i, AfterSelect::Activate)]
            &&& after == (AppModel {
                pointer: Pointer {
                    dragging_tab: Some(
                        TabDrag { origin: i, current: i, start_x: app.pointer.x, active: false },
                    ),
                    ..app.pointer
                },
                ..app
            })
        }),
{
    lemma_in_the_open(app, button, hit, mods, ground, world, config, now);
}

/// A press on the close button that the hovered tab shows closes that tab and selects
/// none.
pub proof fn law_a_close_button_closes_its_tab(
    app: AppModel,
    button: MouseButton,
    hit: Hit,
    mods: Modifiers,
    ground: Ground,
    world: World,
    config: PluginConfigModel,
    now: u64,
    i: usize,
)
    requires
        in_the_open(app, ground, world),
        hit.action is None,
        hit.tab_close == Some(i),
        app.pointer.hovered_tab == Some(i),
    ensures
        app.mouse_button(button, true, hit, mods, ground, world, config, now) == (
            AppModel { pointer: Pointer { hovered_tab: None, ..app.pointer }, ..app },
            seq![EffectModel::CloseTab(i)],
        ),
{
    lemma_in_the_open(app, button, hit, mods, ground, world, config, now);
}

/// A press on a toolbar button does what that button does and shows it pressed. The
/// window's own close button leaves no frame to draw.
pub proof fn law_a_toolbar_button_is_pressed(
    app: AppModel,
    button: MouseButton,
    hit: Hit,
    mods: Modifiers,
    ground: Ground,
    world: World,
    config: PluginConfigModel,
    now: u64,
    action: ChromeButton,
)
    requires
        in_the_open(app, ground, world),
        hit.action == Some(action),
    ensures
        ({
            let (after, effects) = app.mouse_button(
                button,
                true,
                hit,
                mods,
                ground,
                world,
                config,
                now,
            );
            let (next, asked) = (AppModel {
                pointer: Pointer { pressed_button: Some(action), ..app.pointer },
                ..app
            }).button_pressed(action, world);
            &&& after == next
            &&& after.pointer.pressed_button == Some(action)
            &&& action is Close ==> effects == seq![EffectModel::Exit]
            &&& !(action is Close) ==> effects == asked + seq![EffectModel::Redraw]
        }),
{
    lemma_in_the_open(app, button, hit, mods, ground, world, config, now);
}

/// A press with the left button on the empty title bar of a window without a frame moves
/// the window. A second press within four tenths of a second and four pixels maximizes it
/// instead, and is forgotten, so that a third is a first again.
pub proof fn law_the_title_bar_moves_the_window(
    app: AppModel,
    hit: Hit,
    mods: Modifiers,
    ground: Ground,
    world: World,
    config: PluginConfigModel,
    now: u64,
)
    requires
        in_the_open(app, ground, world),
        hit.action is None,
        hit.tab_close is None,
        hit.tab is None,
        hit.chrome,
    ensures
        ({
            let (after, effects) = app.mouse_button(
                MouseButton::Left,
                true,
                hit,
                mods,
                ground,
                world,
                config,
                now,
            );
            let p = app.pointer;
            let soon = p.last_title_click matches Some(last) && (last.at <= now ==> now - last.at
                < 400_000) && -4 <= p.x - last.x <= 4 && -4 <= p.y - last.y <= 4;
            &&& ground.decorations ==> after == app && effects == Seq::<EffectModel>::empty()
            &&& !ground.decorations && soon ==> after == (AppModel {
                pointer: Pointer { last_title_click: None, ..p },
                ..app
            }) && effects == seq![EffectModel::ToggleMaximize]
            &&& !ground.decorations && !soon ==> after == (AppModel {
                pointer: Pointer {
                    last_title_click: Some(TitleClick { at: now, x: p.x, y: p.y }),
                    ..p
                },
                ..app
            }) && effects == seq![EffectModel::DragWindow]
        }),
{
    lemma_in_the_open(app, MouseButton::Left, hit, mods, ground, world, config, now);
}

/// A press on a divider takes hold of that divider, and does nothing else.
pub proof fn law_a_pressed_divider_is_held(
    app: AppModel,
    button: MouseButton,
    hit: Hit,
    mods: Modifiers,
    ground: Ground,
    world: World,
    config: PluginConfigModel,
    now: u64,
)
    requires
        in_the_open(app, ground, world),
        hit.action is None,
        hit.tab_close is None,
        hit.tab is None,
        !hit.chrome,
        hit.divider is Some,
    ensures
        app.mouse_button(button, true, hit, mods, ground, world, config, now) == (
            AppModel { dragging: Some(hit.divider->0@), ..app },
            Seq::<EffectModel>::empty(),
        ),
{
    lemma_in_the_open(app, button, hit, mods, ground, world, config, now);
}

/// A press in a pane focuses that pane and takes the keyboard from the sidebar. With the
/// left button it starts a selection in that pane at the cell under the pointer; with
/// the middle one it pastes. A program that wants the mouse gets the press instead,
/// unless shift is held.
pub proof fn law_a_press_in_a_pane(
    app: AppModel,
    button: MouseButton,
    hit: Hit,
    mods: Modifiers,
    ground: Ground,
    world: World,
    config: PluginConfigModel,
    now: u64,
    pane: u64,
    col: u16,
    row: u16,
)
    requires
        in_the_open(app, ground, world),
        hit.action is None,
        hit.tab_close is None,
        hit.tab is None,
        !hit.chrome,
        hit.divider is None,
        hit.pane == Some(pane),
        hit.cell == Some((col, row)),
        hit.has_session,
    ensures
        ({
            let (after, effects) = app.mouse_button(
                button,
                true,
                hit,
                mods,
                ground,
                world,
                config,
                now,
            );
            let focused = if app.sidebar_focused {
                seq![EffectModel::FocusPane(pane), EffectModel::Redraw]
            } else {
                seq![EffectModel::FocusPane(pane)]
            };
            let given_back = !hit.wants_mouse || mods.shift;
            &&& !after.sidebar_focused
            &&& !given_back ==> effects == focused + seq![
                EffectModel::ReportMouse(pane, button, true, col, row),
            ] && after.pointer == app.pointer
            &&& given_back && button is Left ==> effects == focused + seq![
                EffectModel::StartSelection(pane, col, row),
                EffectModel::Redraw,
            ] && after.pointer == (Pointer { selecting: Some(pane), ..app.pointer })
            &&& given_back && button is Middle ==> effects == focused + seq![
                EffectModel::PasteClipboard,
                EffectModel::Redraw,
            ] && after.pointer == app.pointer
            &&& given_back && !(button is Left) && !(button is Middle) ==> effects == focused
                + seq![EffectModel::Redraw] && after.pointer == app.pointer
        }),
{
    lemma_in_the_open(app, button, hit, mods, ground, world, config, now);
    let effects = app.mouse_button(button, true, hit, mods, ground, world, config, now).1;
    let focused = if app.sidebar_focused {
        seq![EffectModel::FocusPane(pane), EffectModel::Redraw]
    } else {
        seq![EffectModel::FocusPane(pane)]
    };
    if hit.wants_mouse && !mods.shift {
        assert(effects =~= focused + seq![EffectModel::ReportMouse(pane, button, true, col, row)]);
    } else if button is Left {
        assert(effects =~= focused + seq![
            EffectModel::StartSelection(pane, col, row),
            EffectModel::Redraw,
        ]);
    } else if button is Middle {
        assert(effects =~= focused + seq![EffectModel::PasteClipboard, EffectModel::Redraw]);
    } else {
        assert(effects =~= focused + seq![EffectModel::Redraw]);
    }
}

/// A button let go over a program that wants the mouse is reported to it as let go, at
/// the cell under the pointer.
pub proof fn law_releases_are_reported(
    app: AppModel,
    button: MouseButton,
    hit: Hit,
    mods: Modifiers,
    ground: Ground,
    world: World,
    config: PluginConfigModel,
    now: u64,
    pane: u64,
    col: u16,
    row: u16,
)
    requires
        ground.laid_out,
        world.kind is Terminal,
        hit.pane == Some(pane),
        hit.cell == Some((col, row)),
        hit.has_session,
        hit.wants_mouse,
        !mods.shift,
    ensures
        ({
            let effects = app.mouse_button(
                button,
                false,
                hit,
                mods,
                ground,
                world,
                config,
                now,
            ).1;
            &&& effects.len() > 0
            &&& effects.last() == EffectModel::ReportMouse(pane, button, false, col, row)
            &&& forall|k: int|
                0 <= k < effects.len() - 1 ==> #[trigger] effects[k] == EffectModel::Redraw
        }),
{
}

/// The six pixels along each edge resize the window from that edge, and the corners from
/// that corner. Nothing that is drawn there takes the press.
pub proof fn law_each_edge_resizes_its_side(
    app: AppModel,
    hit: Hit,
    mods: Modifiers,
    ground: Ground,
    world: World,
    config: PluginConfigModel,
    now: u64,
)
    requires
        ground.laid_out,
        !ground.decorations,
        !ground.maximized,
        ground.window.0 > 12,
        ground.window.1 > 12,
    ensures
        ({
            let (x, y) = (app.pointer.x as int, app.pointer.y as int);
            let (w, h) = (ground.window.0 as int, ground.window.1 as int);
            let pressed = app.mouse_button(
                MouseButton::Left,
                true,
                hit,
                mods,
                ground,
                world,
                config,
                now,
            );
            let resizes = |d: ResizeDirection| pressed == (app, seq![EffectModel::ResizeWindow(d)]);
            &&& x <= 6 && 6 < y < h - 6 ==> resizes(ResizeDirection::West)
            &&& x >= w - 6 && 6 < y < h - 6 ==> resizes(ResizeDirection::East)
            &&& y <= 6 && 6 < x < w - 6 ==> resizes(ResizeDirection::North)
            &&& y >= h - 6 && 6 < x < w - 6 ==> resizes(ResizeDirection::South)
            &&& x <= 6 && y <= 6 ==> resizes(ResizeDirection::NorthWest)
            &&& x >= w - 6 && y <= 6 ==> resizes(ResizeDirection::NorthEast)
            &&& x <= 6 && y >= h - 6 ==> resizes(ResizeDirection::SouthWest)
            &&& x >= w - 6 && y >= h - 6 ==> resizes(ResizeDirection::SouthEast)
        }),
{
}

/// A press on a segment of the status bar tells the plugin that owns that segment, and
/// shows it pressed. Where two overlap it is the first one's.
pub proof fn law_a_segment_is_clicked(
    app: AppModel,
    hit: Hit,
    mods: Modifiers,
    ground: Ground,
    world: World,
    config: PluginConfigModel,
    now: u64,
    i: int,
)
    requires
        ground.laid_out,
        app.menu is None,
        off_the_edges(app.pointer, ground),
        0 <= i < app.ide_hits.len() <= usize::MAX,
        app.ide_hits[i].1.has(app.pointer.x as int, app.pointer.y as int),
        forall|k: int|
            0 <= k < i ==> !(#[trigger] app.ide_hits[k]).1.has(
                app.pointer.x as int,
                app.pointer.y as int,
            ),
    ensures
        app.mouse_button(MouseButton::Left, true, hit, mods, ground, world, config, now) == (
            AppModel { pointer: Pointer { pressed_ide: Some(i as usize), ..app.pointer }, ..app },
            seq![EffectModel::ClickSegment(app.ide_hits[i].0), EffectModel::Redraw],
        ),
{
    lemma_segment(
        app.ide_hits,
        app.pointer.x as int,
        app.pointer.y as int,
        i,
        app.ide_hits.len() as int,
    );
}

proof fn lemma_segment(list: Seq<(Seq<char>, Rect)>, x: int, y: int, i: int, n: int)
    requires
        0 <= i < n <= list.len(),
        list[i].1.has(x, y),
        forall|k: int| 0 <= k < i ==> !(#[trigger] list[k]).1.has(x, y),
    ensures
        crate::app_mouse::segment_at(list, x, y, n) == Some(i),
    decreases n,
{
    lemma_no_segment(list, x, y, i);
    if n > i + 1 {
        lemma_segment(list, x, y, i, n - 1);
    }
}

/// A press within four pixels of the sidebar's right edge takes hold of that edge where
/// it was pressed, so that the edge does not jump to the pointer.
pub proof fn law_the_sidebar_edge_is_held(
    app: AppModel,
    hit: Hit,
    mods: Modifiers,
    ground: Ground,
    world: World,
    config: PluginConfigModel,
    now: u64,
)
    requires
        ground.laid_out,
        ground.wf(),
        app.menu is None,
        off_the_edges(app.pointer, ground),
        forall|k: int|
            0 <= k < app.ide_hits.len() ==> !(#[trigger] app.ide_hits[k]).1.has(
                app.pointer.x as int,
                app.pointer.y as int,
            ),
        ground.sidebar.width > 4,
        -4 <= app.pointer.x - (ground.sidebar.x + ground.sidebar.width) <= 4,
        ground.sidebar.y <= app.pointer.y < ground.sidebar.y + ground.sidebar.height,
    ensures
        app.mouse_button(MouseButton::Left, true, hit, mods, ground, world, config, now) == (
            AppModel {
                pointer: Pointer {
                    dragging_sidebar: Some(
                        (app.pointer.x - (ground.sidebar.x + ground.sidebar.width)) as i32,
                    ),
                    ..app.pointer
                },
                ..app
            },
            Seq::<EffectModel>::empty(),
        ),
{
    lemma_no_segment(
        app.ide_hits,
        app.pointer.x as int,
        app.pointer.y as int,
        app.ide_hits.len() as int,
    );
}

/// The sidebar is as many cells wide as fit between its left edge and where its right
/// edge is dragged to, within its limits. A frame is drawn only when that changes.
pub proof fn law_the_sidebar_follows_the_pointer(
    app: AppModel,
    x: i32,
    y: i32,
    hit: Hit,
    strip_tab: Option<usize>,
    cell_under: Option<(u16, u16)>,
    ground: Ground,
    world: World,
    offset: i32,
    cells: u16,
    rest: int,
)
    requires
        ground.wf(),
        ground.laid_out,
        app.menu is None,
        app.pointer.dragging_sidebar == Some(offset),
        0 < world.cell.0,
        0 <= rest < world.cell.0,
        x - offset == ground.sidebar.x + cells * world.cell.0 + rest,
    ensures
        ({
            let (after, effects) = app.moved_to(
                x,
                y,
                hit,
                strip_tab,
                cell_under,
                ground,
                world,
            );
            let within = if cells < ground.sidebar_least {
                ground.sidebar_least
            } else if cells > ground.sidebar_most {
                ground.sidebar_most
            } else {
                cells
            };
            &&& after.pointer.dragging_sidebar == Some(offset)
            &&& within != ground.sidebar_cells ==> effects.len() >= 2 && effects.subrange(
                effects.len() - 2,
                effects.len() as int,
            ) == seq![EffectModel::SidebarCells(within), EffectModel::Redraw]
            &&& within == ground.sidebar_cells ==> !effects.contains(EffectModel::Redraw)
        }),
{
    let c = world.cell.0 as int;
    assert(cells * world.cell.0 >= 0) by (nonlinear_arith)
        requires
            0 <= cells,
            0 < world.cell.0,
    ;
    vstd::arithmetic::div_mod::lemma_fundamental_div_mod_converse(
        cells * world.cell.0 + rest,
        c,
        cells as int,
        rest,
    );
    let (after, effects) = app.moved_to(x, y, hit, strip_tab, cell_under, ground, world);
    let within = if cells < ground.sidebar_least {
        ground.sidebar_least
    } else if cells > ground.sidebar_most {
        ground.sidebar_most
    } else {
        cells
    };
    if within != ground.sidebar_cells {
        assert(effects.subrange(effects.len() - 2, effects.len() as int) =~= seq![
            EffectModel::SidebarCells(within),
            EffectModel::Redraw,
        ]);
    }
}

/// A press in the sidebar gives it the keyboard, whatever is under the pointer.
pub proof fn law_a_press_in_the_sidebar_focuses_it(
    app: AppModel,
    button: MouseButton,
    hit: Hit,
    mods: Modifiers,
    ground: Ground,
    world: World,
    config: PluginConfigModel,
    now: u64,
)
    requires
        ground.laid_out,
        app.menu is None,
        app.sidebar is Some,
        off_the_edges(app.pointer, ground),
        forall|k: int|
            0 <= k < app.ide_hits.len() ==> !(#[trigger] app.ide_hits[k]).1.has(
                app.pointer.x as int,
                app.pointer.y as int,
            ),
        ground.sidebar.x <= app.pointer.x < ground.sidebar.x + ground.sidebar.width - 4,
        ground.sidebar.y <= app.pointer.y < ground.sidebar.y + ground.sidebar.height,
    ensures
        ({
            let (after, effects) = app.mouse_button(
                button,
                true,
                hit,
                mods,
                ground,
                world,
                config,
                now,
            );
            &&& after.sidebar is Some
            &&& effects.len() > 0 && effects.last() == EffectModel::Redraw
            &&& after.sidebar_focused || (exists|k: int|
                0 <= k < effects.len() && #[trigger] effects[k] is WriteFocused)
            &&& after.pointer == app.pointer
        }),
{
    lemma_no_segment(
        app.ide_hits,
        app.pointer.x as int,
        app.pointer.y as int,
        app.ide_hits.len() as int,
    );
    let (after, effects) = app.mouse_button(button, true, hit, mods, ground, world, config, now);
    if !after.sidebar_focused {
        assert(effects[0] is WriteFocused);
    }
}

/// A press on a row of an open menu picks that row, whichever was highlighted before.
pub proof fn law_a_press_picks_the_row_under_it(
    app: AppModel,
    button: MouseButton,
    hit: Hit,
    mods: Modifiers,
    ground: Ground,
    world: World,
    config: PluginConfigModel,
    now: u64,
    menu: MenuModel,
    rect: Rect,
    row: int,
)
    requires
        ground.laid_out,
        off_the_edges(app.pointer, ground),
        app.menu == Some(menu),
        app.menu_rect == Some(rect),
        crate::menu::Menu::first_row_at(
            rect,
            world.cell.1,
            app.pointer.x as int,
            app.pointer.y as int,
            menu.items.len() as int,
        ) == Some(row),
    ensures
        app.mouse_button(button, true, hit, mods, ground, world, config, now) == (AppModel {
            menu: Some(MenuModel { selected: row, ..menu }),
            ..app
        }).menu_picked(world),
{
}

/// The highlight of an open menu follows the pointer from row to row, and nothing behind
/// the menu reacts.
pub proof fn law_the_highlight_follows(
    app: AppModel,
    x: i32,
    y: i32,
    hit: Hit,
    strip_tab: Option<usize>,
    cell_under: Option<(u16, u16)>,
    ground: Ground,
    world: World,
    menu: MenuModel,
    rect: Rect,
)
    requires
        app.menu == Some(menu),
        app.menu_rect == Some(rect),
    ensures
        ({
            let (after, effects) = app.moved_to(
                x,
                y,
                hit,
                strip_tab,
                cell_under,
                ground,
                world,
            );
            let row = crate::menu::Menu::first_row_at(
                rect,
                world.cell.1,
                x as int,
                y as int,
                menu.items.len() as int,
            );
            &&& after == (AppModel {
                pointer: Pointer { x, y, ..app.pointer },
                menu: Some(
                    MenuModel {
                        selected: if row is Some {
                            row->0
                        } else {
                            menu.selected
                        },
                        ..menu
                    },
                ),
                ..app
            })
            &&& row is Some && row->0 != menu.selected ==> effects == seq![EffectModel::Redraw]
            &&& !(row is Some && row->0 != menu.selected) ==> effects == Seq::<EffectModel>::empty()
        }),
{
}

/// While nothing is dragged and no menu is open, the pointer is over what it is over:
/// the button, tab and close button that were hit, and no other. A frame is drawn exactly
/// when one of them, or what is lit on a page, is another than before.
pub proof fn law_hovering_is_where_the_pointer_is(
    app: AppModel,
    x: i32,
    y: i32,
    hit: Hit,
    ground: Ground,
    world: World,
)
    requires
        ground.laid_out,
        app.menu is None,
        app.pointer.dragging_sidebar is None,
        app.pointer.dragging_tab is None,
        app.dragging is None,
        app.pointer.selecting is None,
    ensures
        ({
            let (after, effects) = app.moved_to(x, y, hit, None, None, ground, world);
            let (was, is) = (app.pointer, after.pointer);
            &&& is.x == x && is.y == y
            &&& is.hovered_button == hit.action
            &&& is.hovered_tab == hit.tab
            &&& is.hovered_close == (hit.tab_close is Some)
            &&& is.pressed_button == was.pressed_button
            &&& is.last_title_click == was.last_title_click
            &&& (is.hovered_button != was.hovered_button || is.hovered_tab != was.hovered_tab
                || is.hovered_close != was.hovered_close || is.hovered_ide != was.hovered_ide)
                ==> effects.contains(EffectModel::Redraw)
            &&& (is.hovered_button == was.hovered_button && is.hovered_tab == was.hovered_tab
                && is.hovered_close == was.hovered_close && is.hovered_ide == was.hovered_ide
                && app.panel is None && app.plugins is None && app.help is None)
                ==> !effects.contains(EffectModel::Redraw)
        }),
{
    let effects = app.moved_to(x, y, hit, None, None, ground, world).1;
    let shape = AppModel::shape_at(x as int, y as int, ground);
    let first = EffectModel::when(
        shape != app.pointer.shape,
        seq![EffectModel::PointerShape(shape)],
    );
    assert(first.len() <= 1);
    if effects.len() > first.len() {
        assert(effects[first.len() as int] == EffectModel::Redraw);
    }
}

/// The pointer shows what it would take hold of: an edge of the window, then the edge of
/// the sidebar, and nothing special elsewhere. The shape is set only when it changes.
pub proof fn law_the_pointer_shows_what_it_would_hold(
    app: AppModel,
    x: i32,
    y: i32,
    hit: Hit,
    ground: Ground,
    world: World,
)
    requires
        ground.laid_out,
        app.menu is None,
        app.pointer.dragging_sidebar is None,
        ground.window.0 > 12,
        ground.window.1 > 12,
    ensures
        ({
            let (after, effects) = app.moved_to(x, y, hit, None, None, ground, world);
            let shape = after.pointer.shape;
            let edge = ground.sidebar.x + ground.sidebar.width;
            let inside = ground.decorations || ground.maximized || (6 < x < ground.window.0 - 6 && 6
                < y < ground.window.1 - 6);
            &&& inside && ground.sidebar.width > 0 && -4 <= x - edge <= 4 ==> shape == Some(
                CursorShape::Column,
            )
            &&& inside && !(ground.sidebar.width > 0 && -4 <= x - edge <= 4) ==> shape is None
            &&& !inside && x <= 6 && 6 < y < ground.window.1 - 6 ==> shape == Some(
                CursorShape::Edge(ResizeDirection::West),
            )
            &&& !inside ==> shape is Some && shape->0 is Edge
            &&& shape != app.pointer.shape ==> effects.len() > 0 && effects[0]
                == EffectModel::PointerShape(shape)
            &&& shape == app.pointer.shape ==> !effects.contains(EffectModel::PointerShape(shape))
        }),
{
}

/// A dragged tab goes to where the tab under the pointer is, once the pointer has moved
/// six pixels sideways; past the last tab it goes to the end and before the first to the
/// start. It is moved from where it is now.
pub proof fn law_a_dragged_tab_goes_where_the_pointer_is(
    app: AppModel,
    drag: TabDrag,
    x: i32,
    strip_tab: Option<usize>,
    ground: Ground,
)
    requires
        ground.laid_out,
        drag.active || x - drag.start_x >= 6 || drag.start_x - x >= 6,
    ensures
        ({
            let (after, effects) = app.tab_dragged(drag, x as int, strip_tab, ground);
            &&& after.pointer.dragging_tab == Some(TabDrag { active: true, ..drag })
            &&& strip_tab matches Some(to) ==> effects == (if to != drag.current {
                seq![EffectModel::MoveTab(drag.current, to)]
            } else {
                Seq::empty()
            })
            &&& strip_tab is None && x >= ground.tab_bar.x + ground.tab_bar.width
                && ground.tab_count > 0 && drag.current != ground.tab_count - 1 ==> effects == seq![
                EffectModel::MoveTab(drag.current, (ground.tab_count - 1) as usize),
            ]
            &&& strip_tab is None && x <= ground.tab_bar.x && x < ground.tab_bar.x
                + ground.tab_bar.width && drag.current != 0 ==> effects == seq![
                EffectModel::MoveTab(drag.current, 0),
            ]
            &&& strip_tab is None && ground.tab_bar.x < x < ground.tab_bar.x + ground.tab_bar.width
                ==> effects == Seq::<EffectModel>::empty()
        }),
{
}

/// While a pane is selected in, the selection reaches to the cell under the pointer.
pub proof fn law_a_selection_follows_the_pointer(
    app: AppModel,
    x: i32,
    y: i32,
    hit: Hit,
    strip_tab: Option<usize>,
    ground: Ground,
    world: World,
    pane: u64,
    col: u16,
    row: u16,
)
    requires
        app.menu is None,
        app.pointer.dragging_sidebar is None,
        app.pointer.dragging_tab is None,
        app.dragging is None,
        app.pointer.selecting == Some(pane),
    ensures
        ({
            let (after, effects) = app.moved_to(
                x,
                y,
                hit,
                strip_tab,
                Some((col, row)),
                ground,
                world,
            );
            &&& after.pointer.selecting == Some(pane)
            &&& effects.len() >= 2
            &&& effects[effects.len() - 2] == EffectModel::UpdateSelection(pane, col, row)
            &&& effects.last() == EffectModel::Redraw
        }),
{
}

/// A divider that is held moves with the pointer along the way it divides, out of the
/// window's extent that way.
pub proof fn law_a_held_divider_follows(
    app: AppModel,
    x: i32,
    y: i32,
    hit: Hit,
    strip_tab: Option<usize>,
    cell_under: Option<(u16, u16)>,
    ground: Ground,
    world: World,
    i: int,
)
    requires
        ground.laid_out,
        app.menu is None,
        app.pointer.dragging_sidebar is None,
        app.pointer.dragging_tab is None,
        0 <= i < ground.dividers@.len(),
        app.dragging == Some(ground.dividers@[i].path@),
        forall|k: int|
            0 <= k < i ==> (#[trigger] ground.dividers@[k]).path@ != ground.dividers@[i].path@,
        ground.window.0 > 0,
        ground.window.1 > 0,
    ensures
        ({
            let effects = app.moved_to(x, y, hit, strip_tab, cell_under, ground, world).1;
            let path = ground.dividers@[i].path@;
            &&& effects.len() > 0
            &&& ground.dividers@[i].horizontal ==> effects.last() == EffectModel::DragDivider(
                path,
                true,
                ground.window.0,
            )
            &&& !ground.dividers@[i].horizontal ==> effects.last() == EffectModel::DragDivider(
                path,
                false,
                ground.window.1,
            )
        }),
{
    lemma_divider(ground.dividers@, ground.dividers@[i].path@, i, ground.dividers@.len() as int);
}

proof fn lemma_divider(list: Seq<DividerPlace>, path: Seq<bool>, i: int, n: int)
    requires
        0 <= i < list.len(),
        0 <= n <= list.len(),
        list[i].path@ == path,
        forall|k: int| 0 <= k < i ==> (#[trigger] list[k]).path@ != path,
    ensures
        crate::app_mouse::divider_with(list, path, n) == (if i < n {
            Some(i)
        } else {
            None
        }),
    decreases n,
{
    if n > 0 {
        lemma_divider(list, path, i, n - 1);
    }
}

/// A notch of the wheel scrolls the terminal under the pointer by the configured number
/// of lines, upwards for upwards. A program that wants the mouse gets a report for each
/// line at the cell under the pointer instead, unless shift is held.
pub proof fn law_the_wheel_scrolls_the_terminal_under_it(
    app: AppModel,
    notches: int,
    lines_per_notch: int,
    hit: Hit,
    mods: Modifiers,
    ground: Ground,
    world: World,
    wheel: Fixed,
    multiplier: Fixed,
    pane: u64,
)
    requires
        ground.laid_out,
        world.kind is Terminal,
        ground.sidebar.width == 0,
        hit.pane == Some(pane),
        hit.has_session,
        wheel.millionths == notches * 1_000_000,
        multiplier.millionths == lines_per_notch * 1_000_000,
        -1000 <= notches <= 1000,
        -1000 <= lines_per_notch <= 1000,
        notches * lines_per_notch != 0,
    ensures
        ({
            let (after, effects) = app.wheeled(
                Wheel::Lines(wheel),
                multiplier,
                hit,
                mods,
                ground,
                world,
            );
            let n = notches * lines_per_notch;
            &&& after == app
            &&& !hit.wants_mouse || mods.shift ==> effects == seq![
                EffectModel::ScrollPane(pane, n as i32),
                EffectModel::Redraw,
            ]
            &&& hit.wants_mouse && !mods.shift ==> (hit.cell matches Some((col, row)) ==> {
                &&& effects.len() == (if n > 0 {
                    n
                } else {
                    -n
                })
                &&& forall|k: int|
                    0 <= k < effects.len() ==> #[trigger] effects[k] == EffectModel::ReportMouse(
                        pane,
                        if n > 0 {
                            MouseButton::WheelUp
                        } else {
                            MouseButton::WheelDown
                        },
                        true,
                        col,
                        row,
                    )
            })
        }),
{
    let n = notches * lines_per_notch;
    let d: int = 1_000_000_000_000;
    assert(-1_000_000 <= n <= 1_000_000) by (nonlinear_arith)
        requires
            -1000 <= notches <= 1000,
            -1000 <= lines_per_notch <= 1000,
            n == notches * lines_per_notch,
    ;
    let m = wheel.millionths * multiplier.millionths;
    assert(m == n * d) by (nonlinear_arith)
        requires
            m == wheel.millionths * multiplier.millionths,
            wheel.millionths == notches * 1_000_000,
            multiplier.millionths == lines_per_notch * 1_000_000,
            n == notches * lines_per_notch,
            d == 1_000_000_000_000,
    ;
    let size = if n >= 0 {
        n
    } else {
        -n
    };
    assert((2 * (size * d) + d) / (2 * d) == size) by {
        vstd::arithmetic::div_mod::lemma_fundamental_div_mod_converse(
            2 * (size * d) + d,
            2 * d,
            size,
            d,
        );
    }
    assert(wheel@ * multiplier@ == m);
}

/// Only the page on screen is told where the pointer is: its row under the pointer is
/// hovered, and every other page is told that the pointer is nowhere.
pub proof fn law_only_the_page_on_screen_is_pointed_at(
    app: AppModel,
    x: int,
    y: int,
    hit: Hit,
    ground: Ground,
    kind: TabKind,
)
    ensures
        ({
            let after = app.hovered(x, y, hit, ground, kind);
            let here = ground.on_page(x, y);
            let far = i32::MIN as int;
            &&& app.panel is Some ==> after.panel is Some && after.panel->0.hover == (if here
                && kind is Settings {
                app.panel->0.hit_spec(x, y)
            } else {
                app.panel->0.hit_spec(far, far)
            })
            &&& app.help is Some ==> after.help is Some && after.help->0.hover == (if here
                && kind is Help {
                app.help->0.hit_spec(x, y)
            } else {
                app.help->0.hit_spec(far, far)
            })
            &&& app.plugins is Some ==> after.plugins is Some && after.plugins->0.ui.hover == (
            if here && kind is Plugins {
                app.plugins->0.ui.hit_spec(x, y)
            } else {
                app.plugins->0.ui.hit_spec(far, far)
            })
            &&& app.panel is None ==> after.panel is None
            &&& app.help is None ==> after.help is None
            &&& app.plugins is None ==> after.plugins is None
        }),
{
}

/// The window is drawn again exactly if the pointer is over something else than before.
pub proof fn law_what_is_under_the_pointer_is_drawn(app: AppModel, other: AppModel)
    requires
        app.panel is Some <==> other.panel is Some,
        app.help is Some <==> other.help is Some,
        app.plugins is Some <==> other.plugins is Some,
    ensures
        !app.looks_different(other) <==> {
            &&& app.panel is Some ==> app.panel->0.hover == other.panel->0.hover
            &&& app.help is Some ==> app.help->0.hover == other.help->0.hover
            &&& app.plugins is Some ==> app.plugins->0.ui.hover == other.plugins->0.ui.hover
            &&& app.pointer.hovered_ide == other.pointer.hovered_ide
            &&& app.pointer.hovered_button == other.pointer.hovered_button
            &&& app.pointer.hovered_tab == other.pointer.hovered_tab
            &&& app.pointer.hovered_close == other.pointer.hovered_close
        },
{
}

} // verus!
