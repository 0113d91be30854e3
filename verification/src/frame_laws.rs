//! What a frame is made of: which tab, page, menu and message shows, and where.

use vstd::prelude::*;

use crate::app::AppModel;
use crate::chrome::ItemModel;
use crate::draw::ToastModel;
use crate::frame::{LayerModel, Look, PageRows, Pieces, Places, Scissor};
use crate::geometry::Rect;
use crate::instance::{CellMetrics, PaneGeometry, TerminalFrame};
use crate::menu::Menu;
use crate::scene::{Blend, Corners, OpModel, Tone};
use crate::text::Font;
use crate::ui::{Metrics, UiModel};
use crate::widget::{WidgetId, WidgetModel};
use crate::window::TabKind;

verus! {

/// Every tab carries its own title, marked if it is on screen, lit if it has unseen
/// output, and with its close button while it is under the pointer.
pub proof fn law_tabs_are_labelled(app: AppModel, look: Look, i: int)
    requires
        0 <= i < look.titles@.len() <= usize::MAX,
    ensures
        app.labels(look).len() == look.titles@.len(),
        ({
            let label = app.labels(look)[i];
            &&& label.title == look.titles@[i]@
            &&& label.active == (i == look.active_tab)
            &&& i < look.activity@.len() ==> label.has_activity == look.activity@[i]
            &&& i >= look.activity@.len() ==> !label.has_activity
            &&& label.show_close == (app.pointer.hovered_tab == Some(i as usize))
            &&& label.close_hovered == (app.pointer.hovered_tab == Some(i as usize)
                && app.pointer.hovered_close)
        }),
{
}

/// Every segment of the status bar says its own text: on the left as it is, on the right
/// in its own colors, or in the theme's while it is a button that is held or under the
/// pointer.
pub proof fn law_segments_say_their_text(app: AppModel, look: Look, i: int)
    requires
        0 <= i < look.right@.len() <= usize::MAX,
    ensures
        app.items(look).len() == look.right@.len(),
        app.items(look)[i].text == look.right@[i].text@,
        look.right@[i].owner is None ==> {
            &&& app.items(look)[i].foreground == crate::strings::text_of(look.right@[i].foreground)
            &&& app.items(look)[i].background == crate::strings::text_of(look.right@[i].background)
        },
        app.pointer.hovered_ide is None && app.pointer.pressed_ide is None ==> {
            &&& app.items(look)[i].foreground == crate::strings::text_of(look.right@[i].foreground)
            &&& app.items(look)[i].background == crate::strings::text_of(look.right@[i].background)
        },
        look.right@[i].owner is Some && app.pointer.pressed_ide == Some(
            crate::frame::buttons_before(look.right@, i) as usize,
        ) ==> app.items(look)[i] == (ItemModel {
            text: look.right@[i].text@,
            foreground: Some(look.palette.background@),
            background: Some(look.palette.cursor@),
        }),
        look.right@[i].owner is Some && app.pointer.pressed_ide is None && app.pointer.hovered_ide
            == Some(crate::frame::buttons_before(look.right@, i) as usize) ==> app.items(look)[i]
            == (ItemModel {
            text: look.right@[i].text@,
            foreground: Some(look.palette.foreground@),
            background: Some(look.palette.background_focused@),
        }),
{
}

/// The segments on the left are plain text, in order.
pub proof fn law_segments_on_the_left_are_plain(look: Look, i: int)
    requires
        0 <= i < look.left@.len(),
    ensures
        AppModel::plain_items(look).len() == look.left@.len(),
        AppModel::plain_items(look)[i] == (ItemModel {
            text: look.left@[i]@,
            foreground: None,
            background: None,
        }),
{
}

/// What a frame draws, from the back to the front: the dividers, the tabs and buttons with
/// the tooltip of the one under the pointer, the status bar, the sidebar, the page of the
/// tab on screen, the menu, the messages and the window's outline.
pub proof fn law_what_a_frame_draws(app: AppModel, p: Places, look: Look)
    ensures
        app.frame_ops(p, look) == crate::frame::divider_ops(p.dividers@) + app.strip_ops(p, look)
            + crate::chrome::status_bar_ops(
            p.status_bar,
            AppModel::plain_items(look),
            app.items(look),
            look.font,
        ) + app.sidebar_ops(p, look) + app.page_pieces(p, look).head + app.page_pieces(
            p,
            look,
        ).rows + app.page_pieces(p, look).tail + app.menu_ops(look) + app.toast_ops(p, look) + (
        if look.border@ > 0 {
            seq![
                OpModel::Ring {
                    rect: Rect { x: 0, y: 0, width: p.window.0, height: p.window.1 },
                    tone: Tone::WindowBorder,
                    thickness: look.border,
                },
            ]
        } else {
            Seq::empty()
        }),
{
    assert(app.frame_ops(p, look) =~= crate::frame::divider_ops(p.dividers@) + app.strip_ops(
        p,
        look,
    ) + crate::chrome::status_bar_ops(
        p.status_bar,
        AppModel::plain_items(look),
        app.items(look),
        look.font,
    ) + app.sidebar_ops(p, look) + app.page_pieces(p, look).head + app.page_pieces(p, look).rows
        + app.page_pieces(p, look).tail + app.menu_ops(look) + app.toast_ops(p, look) + (
    if look.border@ > 0 {
        seq![
            OpModel::Ring {
                rect: Rect { x: 0, y: 0, width: p.window.0, height: p.window.1 },
                tone: Tone::WindowBorder,
                thickness: look.border,
            },
        ]
    } else {
        Seq::empty()
    }));
}

/// Every divider is filled, as see-through as the window.
pub proof fn law_dividers_are_drawn(dividers: Seq<Rect>, i: int)
    requires
        0 <= i < dividers.len(),
    ensures
        crate::frame::divider_ops(dividers).len() == dividers.len(),
        crate::drawing_laws::fills(
            crate::frame::divider_ops(dividers)[i],
            dividers[i],
            Tone::SplitDivider,
            Blend::Window,
        ),
{
}

/// The strip shows the tabs and the buttons where they were placed; the button of
/// whatever is open is lit. A tooltip shows at the button under the pointer, and nowhere
/// else. A strip that has no height shows nothing.
pub proof fn law_what_the_strip_draws(app: AppModel, p: Places, look: Look)
    ensures
        p.tab_bar.height == 0 ==> app.strip_ops(p, look).len() == 0,
        p.tab_bar.height > 0 ==> app.strip_ops(p, look) == crate::chrome::tab_bar_ops(
            p.tab_bar,
            p.tabs@,
            p.tab_close@,
            app.labels(look),
            look.font,
        ) + crate::chrome::buttons_ops(
            p.tab_bar,
            p.actions@,
            app.pointer.hovered_button,
            app.pointer.pressed_button,
            crate::window::lit_buttons(app.sidebar is Some, look.kind),
            p.actions@.len() as int,
        ) + (match app.pointer.hovered_button {
            Some(button) => match crate::app::place_of(
                p.actions@,
                button,
                p.actions@.len() as int,
            ) {
                Some(anchor) => crate::chrome::tooltip_ops(
                    look.tooltip@,
                    anchor,
                    Rect { x: 0, y: 0, width: p.window.0, height: p.window.1 },
                    look.font,
                ),
                None => Seq::empty(),
            },
            None => Seq::empty(),
        }),
{
}

/// A page is a background, a title, a footer set off from the rest, its rows, the rows of
/// its footer over those, and a scrollbar beside them.
pub proof fn law_what_a_page_draws(
    ui: UiModel,
    rect: Rect,
    title: Seq<char>,
    corners: Corners,
    font: Font,
)
    requires
        0 <= ui.body_count <= ui.placed.len(),
        font.cell_height * 12 <= u32::MAX,
    ensures
        ({
            let pieces = Pieces::of_page(ui, rect, title, corners, font);
            &&& pieces.head == seq![
                OpModel::Fill {
                    rect,
                    tone: Tone::Background,
                    blend: Blend::Window,
                    corners,
                },
            ] + crate::draw::title_ops(rect, title, font.cell_height as int, font)
                + crate::draw::footer_divider_ops(ui.footer_area, corners)
            &&& pieces.rows == crate::draw::rows_ops(
                ui,
                ui.placed.subrange(0, ui.body_count),
                font,
            )
            &&& pieces.tail == crate::draw::rows_ops(
                ui,
                ui.placed.subrange(ui.body_count, ui.placed.len() as int),
                font,
            ) + crate::draw::scrollbar_ops(
                ui,
                crate::frame::scroll_area(crate::draw::title_body(rect, font), ui),
            )
        }),
{
    assert(ui.placed.take(ui.body_count) =~= ui.placed.subrange(0, ui.body_count));
    assert(ui.placed.skip(ui.body_count) =~= ui.placed.subrange(
        ui.body_count,
        ui.placed.len() as int,
    ));
}

/// The page on screen is that of the tab on screen, under its own title; a terminal's tab
/// shows none.
pub proof fn law_which_page_shows(app: AppModel, p: Places, look: Look)
    requires
        p.panes@.len() > 0,
    ensures
        ({
            let rect = p.panes@[0].rect;
            let shows = |ui: UiModel, title: Seq<char>, corners: Corners|
                app.page_pieces(p, look) == Pieces::of_page(ui, rect, title, corners, look.font);
            &&& look.kind is Terminal ==> app.page_pieces(p, look).all().len() == 0
            &&& look.kind is Settings && app.panel is Some ==> shows(
                app.panel->0,
                "Tuzminal Settings"@,
                if p.status_bar.height > 0 {
                    Corners::Square
                } else {
                    Corners::Bottom
                },
            )
            &&& look.kind is Help && app.help is Some ==> shows(
                app.help->0,
                "Shortcuts"@,
                Corners::Bottom,
            )
            &&& look.kind is Plugins && app.plugins is Some ==> shows(
                app.plugins->0.ui,
                "Plugins"@,
                Corners::Bottom,
            )
        }),
{
}

/// The sidebar shows its folder's name and its rows in its own column, with a line on its
/// right edge that lights up while it has the keyboard.
pub proof fn law_what_the_sidebar_draws(app: AppModel, p: Places, look: Look)
    requires
        p.sidebar.fits(),
    ensures
        app.sidebar is None || p.sidebar.width == 0 ==> app.sidebar_ops(p, look).len() == 0,
        app.sidebar is Some && p.sidebar.width > 0 ==> {
            let page = Pieces::of_page(
                app.sidebar->0.ui,
                p.sidebar,
                crate::proc::displayed(app.sidebar->0.dir, crate::strings::text_of(look.home)),
                Corners::Square,
                look.font,
            );
            &&& app.sidebar_ops(p, look).drop_last() == page.head + page.rows + page.tail
            &&& crate::drawing_laws::fills(
                app.sidebar_ops(p, look).last(),
                Rect {
                    x: (p.sidebar.x + p.sidebar.width - 1) as i32,
                    y: p.sidebar.y,
                    width: 1,
                    height: p.sidebar.height,
                },
                if app.sidebar_focused {
                    Tone::Cursor
                } else {
                    Tone::SplitDivider
                },
                Blend::Opaque,
            )
        },
{
    if app.sidebar is Some && p.sidebar.width > 0 {
        let page = Pieces::of_page(
            app.sidebar->0.ui,
            p.sidebar,
            crate::proc::displayed(app.sidebar->0.dir, crate::strings::text_of(look.home)),
            Corners::Square,
            look.font,
        );
        assert(app.sidebar_ops(p, look).drop_last() =~= page.all());
    }
}

/// The open menu is a frame with each of its labels on a row of its own, in order.
pub proof fn law_what_the_menu_draws(app: AppModel, look: Look)
    ensures
        app.menu is None || app.menu_rect is None ==> app.menu_ops(look).len() == 0,
        app.menu is Some && app.menu_rect is Some ==> {
            let rect = app.menu_rect->0;
            let menu = app.menu->0;
            let ops = app.menu_ops(look);
            &&& ops.len() >= 2
            &&& crate::drawing_laws::fills(ops[0], rect, Tone::SplitDivider, Blend::Opaque)
            &&& crate::drawing_laws::fills_inside(ops[1], rect, Tone::BackgroundFocused)
            &&& exists|rows: Seq<(Rect, Seq<char>)>|
                {
                    &&& rows.len() == menu.items.len()
                    &&& forall|i: int|
                        0 <= i < rows.len() ==> #[trigger] rows[i] == (
                            Menu::row_in(rect, i, look.font.cell_height),
                            menu.items[i].0,
                        )
                    &&& ops.skip(2) == #[trigger] crate::draw::menu_rows_ops(
                        rows,
                        menu.selected,
                        look.font,
                        menu.items.len() as int,
                    )
                }
        },
{
    if app.menu is Some && app.menu_rect is Some {
        let rect = app.menu_rect->0;
        let menu = app.menu->0;
        let rows = Seq::new(
            menu.items.len(),
            |i: int| (Menu::row_in(rect, i, look.font.cell_height), menu.items[i].0),
        );
        let more = crate::draw::menu_rows_ops(
            rows,
            menu.selected,
            look.font,
            menu.items.len() as int,
        );
        assert(app.menu_ops(look).skip(2) =~= more);
    }
}

/// Every message keeps its text and tells its level by its color: errors red, warnings
/// yellow, the rest blue.
pub proof fn law_messages_tell_their_level(app: AppModel, now: u64, i: int)
    requires
        0 <= i < app.toasts.len(),
    ensures
        app.toast_list(now).len() == app.toasts.len(),
        app.toast_list(now)[i].text == app.toasts[i].text,
        app.toasts[i].level is Error ==> app.toast_list(now)[i].accent == Tone::NormalRed,
        app.toasts[i].level is Warn ==> app.toast_list(now)[i].accent == Tone::NormalYellow,
        app.toasts[i].level is Info ==> app.toast_list(now)[i].accent == Tone::NormalBlue,
        app.toast_list(now)[i].opacity == app.toasts[i].opacity(now) as u32,
{
}

/// The messages that show are those there is room for.
pub proof fn law_messages_are_in_the_frame(app: AppModel, p: Places, look: Look, i: int, op: OpModel)
    requires
        0 <= i < crate::draw::toasts_shown(
            p.window_rect(),
            look.font,
            app.toasts.len() as int,
            0,
        ),
        crate::draw::toast_ops(
            Rect { x: 0, y: 0, width: p.window.0, height: p.window.1 },
            app.toast_list(look.now)[i],
            look.font,
            i,
        ).contains(op),
    ensures
        app.toast_ops(p, look).contains(op),
{
    crate::row_laws::law_messages_fill_the_window(
        p.window_rect(),
        look.font,
        app.toasts.len() as int,
    );
    crate::row_laws::law_every_message_is_drawn(
        p.window_rect(),
        app.toast_list(look.now),
        look.font,
        i,
        crate::draw::toasts_shown(p.window_rect(), look.font, app.toasts.len() as int, 0),
        op,
    );
}

/// No more messages are drawn than there is room for: each is a background, an edge and a
/// text.
pub proof fn law_no_more_messages_than_fit(app: AppModel, p: Places, look: Look)
    ensures
        app.toast_ops(p, look).len() == 3 * crate::draw::toasts_shown(
            Rect { x: 0, y: 0, width: p.window.0, height: p.window.1 },
            look.font,
            app.toasts.len() as int,
            0,
        ),
{
    crate::row_laws::law_messages_fill_the_window(
        p.window_rect(),
        look.font,
        app.toasts.len() as int,
    );
    lemma_three_each(
        p.window_rect(),
        app.toast_list(look.now),
        look.font,
        crate::draw::toasts_shown(p.window_rect(), look.font, app.toasts.len() as int, 0),
    );
}

proof fn lemma_three_each(window: Rect, toasts: Seq<ToastModel>, font: Font, n: int)
    requires
        0 <= n <= toasts.len(),
    ensures
        crate::draw::toasts_ops(window, toasts, font, n).len() == 3 * n,
    decreases n,
{
    if n > 0 {
        lemma_three_each(window, toasts, font, n - 1);
        assert(crate::draw::toast_ops(window, toasts[n - 1], font, n - 1).len() == 3);
    }
}

/// Before a frame is drawn its pages are laid out: the sidebar in its column, the page of
/// the tab on screen in the first pane's place with its own rows and footer, and the menu
/// in the window. Nothing else about them changes.
pub proof fn law_pages_are_laid_out(app: AppModel, p: Places, kind: TabKind, font: Font, rows: PageRows)
    ensures
        ({
            let after = app.placed(p, kind, font, rows);
            let first = p.panes@[0].rect;
            let shown = p.panes@.len() > 0;
            let laid = |ui: UiModel, body: Seq<WidgetModel>, footer: Seq<WidgetModel>, rect: Rect|
                ui.laid_out(
                    body,
                    footer,
                    crate::draw::title_body(rect, font),
                    Metrics::of_cell(font.cell_width as int, font.cell_height as int),
                );
            &&& kind is Settings && app.panel is Some && shown ==> after.panel == Some(
                laid(
                    app.panel->0,
                    crate::widget::models(rows.settings@),
                    crate::widget::models(rows.settings_footer@),
                    first,
                ),
            )
            &&& kind is Help && app.help is Some && shown ==> after.help == Some(
                laid(app.help->0, rows.help_rows(), Seq::empty(), first),
            )
            &&& kind is Plugins && app.plugins is Some && shown ==> after.plugins is Some
                && after.plugins->0.ui == laid(
                app.plugins->0.ui,
                app.plugins->0.row_widgets(rows.plugins@),
                crate::frame::plugins_buttons(),
                first,
            )
            &&& !(kind is Settings) ==> after.panel == app.panel && after.panel_body is None
            &&& !(kind is Help) ==> after.help == app.help
            &&& !(kind is Plugins) ==> after.plugins == app.plugins && after.plugins_body is None
            &&& app.sidebar is None ==> after.sidebar is None
            &&& app.sidebar is Some && p.sidebar.width > 0 ==> after.sidebar is Some
                && after.sidebar->0.dir == app.sidebar->0.dir && after.sidebar->0.entries
                == app.sidebar->0.entries
            &&& app.sidebar is Some && p.sidebar.width > 0 && app.sidebar->0.prompt is None
                ==> after.sidebar->0.ui == laid(
                app.sidebar->0.ui,
                app.sidebar->0.row_widgets(),
                app.sidebar->0.prompt_widgets(),
                p.sidebar,
            )
            &&& app.menu is None ==> after.menu_rect is None
            &&& app.menu is Some ==> after.menu == app.menu && after.menu_rect == Some(
                app.menu->0.rect_in(
                    Rect { x: 0, y: 0, width: p.window.0, height: p.window.1 },
                    (font.cell_width, font.cell_height),
                ),
            )
            &&& after.toasts == app.toasts && after.pointer == app.pointer && after.blink
                == app.blink && after.dragging == app.dragging && after.sidebar_focused
                == app.sidebar_focused
        }),
{
}

/// The rows of a page that scroll are between its title and its footer.
pub proof fn law_where_rows_scroll(body: Rect, ui: UiModel)
    requires
        ui.footer_area.height <= body.height,
    ensures
        crate::frame::scroll_area(body, ui) == (Rect {
            x: body.x,
            y: body.y,
            width: body.width,
            height: (body.height - ui.footer_area.height) as u32,
        }),
{
}

/// The buttons under the plugins page: to import one, to export them all, to close.
pub proof fn law_the_buttons_under_the_plugins()
    ensures
        crate::frame::plugins_buttons().len() == 3,
        crate::frame::plugins_buttons()[0] == (WidgetModel::Button {
            id: WidgetId(crate::plugins::IMPORT),
            label: "Import"@,
            enabled: true,
        }),
        crate::frame::plugins_buttons()[1] == (WidgetModel::Button {
            id: WidgetId(crate::plugins::EXPORT),
            label: "Export all"@,
            enabled: true,
        }),
        crate::frame::plugins_buttons()[2] == (WidgetModel::Button {
            id: WidgetId(crate::plugins::CLOSE),
            label: "Close"@,
            enabled: true,
        }),
{
}

/// A rectangle of the window clips to itself.
pub proof fn law_clips_are_rectangles(rect: Rect, window: (u32, u32))
    requires
        rect.x >= 0,
        rect.y >= 0,
    ensures
        ({
            let clip = Scissor::of(rect, window);
            &&& clip.x == rect.x && clip.y == rect.y
            &&& rect.width <= window.0 ==> clip.width == rect.width
            &&& rect.height <= window.1 ==> clip.height == rect.height
            &&& clip.width <= window.0 && clip.height <= window.1
        }),
{
}

/// Every pane with something on its screen is drawn: its cells in its own place, clipped to
/// it, the first of them at the upper left of its content.
pub proof fn law_every_pane_is_drawn(
    p: Places,
    screens: Seq<Option<TerminalFrame>>,
    font: Font,
    metrics: CellMetrics,
    i: int,
)
    requires
        0 <= i < p.panes@.len() == screens.len(),
        screens[i] is Some,
    ensures
        ({
            let place = p.panes@[i];
            let ops = crate::instance::pane_ops(
                screens[i]->0,
                PaneGeometry {
                    origin_x: (place.content.x * 1024) as i64,
                    origin_y: (place.content.y * 1024) as i64,
                    cell_width: (font.cell_width * 1024) as u64,
                    cell_height: (font.cell_height * 1024) as u64,
                },
                metrics,
            );
            ops.len() > 0 ==> LayerModel::of_panes(
                p,
                screens,
                font,
                metrics,
                screens.len() as int,
            ).contains(LayerModel { clip: Scissor::of(place.rect, p.window), ops })
        }),
{
    let place = p.panes@[i];
    let ops = crate::instance::pane_ops(
        screens[i]->0,
        LayerModel::geometry(place, font),
        metrics,
    );
    if ops.len() > 0 {
        lemma_layers(p, screens, font, metrics, i, screens.len() as int);
    }
}

proof fn lemma_layers(
    p: Places,
    screens: Seq<Option<TerminalFrame>>,
    font: Font,
    metrics: CellMetrics,
    i: int,
    n: int,
)
    requires
        0 <= i < n <= screens.len(),
        screens[i] is Some,
        crate::instance::pane_ops(
            screens[i]->0,
            LayerModel::geometry(p.panes@[i], font),
            metrics,
        ).len() > 0,
    ensures
        LayerModel::of_panes(p, screens, font, metrics, n).contains(
            LayerModel {
                clip: Scissor::of(p.panes@[i].rect, p.window),
                ops: crate::instance::pane_ops(
                    screens[i]->0,
                    LayerModel::geometry(p.panes@[i], font),
                    metrics,
                ),
            },
        ),
    decreases n,
{
    let before = LayerModel::of_panes(p, screens, font, metrics, n - 1);
    let all = LayerModel::of_panes(p, screens, font, metrics, n);
    let layer = LayerModel {
        clip: Scissor::of(p.panes@[i].rect, p.window),
        ops: crate::instance::pane_ops(
            screens[i]->0,
            LayerModel::geometry(p.panes@[i], font),
            metrics,
        ),
    };
    if i < n - 1 {
        lemma_layers(p, screens, font, metrics, i, n - 1);
        let k = choose|k: int| 0 <= k < before.len() && before[k] == layer;
        assert(all[k] == layer);
    } else {
        assert(all == before.push(layer));
        assert(all[before.len() as int] == layer);
    }
}

} // verus!
