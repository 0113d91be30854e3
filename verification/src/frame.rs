//! One frame: what is open, and where it goes, turned into what is painted.
//!
//! Pages are placed first and drawn second. Everything is painted in one order: dividers,
//! the tab strip, the status bar, the sidebar, the page on screen, the menu, messages
//! and, over all of it, the window's border.

use vstd::prelude::*;
use vstd::string::*;

use crate::app::{App, AppModel};
use crate::chrome::{
    draw_chrome_buttons, draw_status_bar, draw_tab_bar, draw_tooltip, ItemModel, LabelModel,
    StatusItem, TabLabel,
};
use crate::decimal::Fixed;
use crate::draw::{
    can_draw_rect, can_draw_rows, draw_footer_divider, draw_menu, draw_page_frame,
    draw_panel_title, draw_scrollbar, draw_toasts, draw_widgets_in, Toast, ToastModel,
};
use crate::explorer::{Explorer, ExplorerModel};
use crate::geometry::Rect;
use crate::help::{Binding, BindingModel, HelpPage};
use crate::instance::{build_pane, CellMetrics, PaneGeometry, PaneOp, TerminalFrame, PIXEL};
use crate::menu::Menu;
use crate::plugins::{PluginConfig, PluginsModel, PLUGIN_BASE};
use crate::proc::display_path;
use crate::scene::{push_fill, push_op, Blend, ChromeButton, Corners, Op, OpModel, Tone};
use crate::text::Font;
use crate::timing::NotifyLevel;
use crate::ui::{Metrics, Placed, Ui, UiModel};
use crate::widget::{Widget, WidgetId, WidgetModel};
use crate::window::{active_buttons, TabKind};

verus! {

// --- pages ------------------------------------------------------------------------

/// The part of a page that scrolls: what is below its title, without its footer.
pub open spec fn scroll_area(body: Rect, ui: UiModel) -> Rect {
    Rect {
        height: crate::ui::at_least_zero(body.height - ui.footer_area.height) as u32,
        ..body
    }
}

/// How far a page's title is indented: as far as the rows it heads.
pub open spec fn title_inset(font: Font) -> int {
    Metrics::of_cell(font.cell_width as int, font.cell_height as int).padding as int
}

/// What a page draws, around the rows that are clipped to its scrolling part.
#[verifier::ext_equal]
pub struct Pieces {
    pub head: Seq<OpModel>,
    pub rows: Seq<OpModel>,
    pub tail: Seq<OpModel>,
}

impl Pieces {
    pub open spec fn none() -> Pieces {
        Pieces { head: Seq::empty(), rows: Seq::empty(), tail: Seq::empty() }
    }

    pub open spec fn all(self) -> Seq<OpModel> {
        self.head + self.rows + self.tail
    }

    /// The background, the title and the footer's band; the rows; the footer's buttons
    /// and the scrollbar, which must not be clipped.
    pub open spec fn of_page(
        ui: UiModel,
        rect: Rect,
        title: Seq<char>,
        corners: Corners,
        font: Font,
    ) -> Pieces {
        Pieces {
            head: seq![
                OpModel::Fill {
                    rect,
                    tone: Tone::Background,
                    blend: Blend::Window,
                    corners,
                },
            ] + crate::draw::title_ops(rect, title, title_inset(font), font)
                + crate::draw::footer_divider_ops(ui.footer_area, corners),
            rows: crate::draw::rows_ops(ui, ui.placed.take(ui.body_count), font),
            tail: crate::draw::rows_ops(ui, ui.placed.skip(ui.body_count), font)
                + crate::draw::scrollbar_ops(
                ui,
                scroll_area(crate::draw::title_body(rect, font), ui),
            ),
        }
    }
}

/// The page's parts are representable and its texts are drawable.
pub open spec fn page_ok(ui: UiModel, rect: Rect, title: Seq<char>, font: Font) -> bool {
    &&& crate::draw::rows_ok(ui, font)
    &&& rect.fits()
    &&& i32::MIN < rect.y
    &&& i32::MIN + 4 <= rect.x + rect.width
    &&& font.can_draw(title)
}

fn can_draw_page(ui: &Ui, rect: Rect, title: &str, font: Font) -> (b: bool)
    ensures
        b == page_ok(ui@, rect, title@, font),
{
    can_draw_rows(ui, font) && rect.can_fit() && i32::MIN < rect.y && i32::MIN as i64 + 4
        <= rect.x as i64 + rect.width as i64 && font.fits(title)
}

/// Draw a page that has been laid out. Returns where its rows start and end in the
/// list.
fn draw_page(out: &mut Vec<Op>, ui: &Ui, rect: Rect, title: &str, corners: Corners, font: Font) -> (rows:
    (usize, usize))
    requires
        ui@.wf(),
        page_ok(ui@, rect, title@, font),
        font.cell_height * 12 <= u32::MAX,
    ensures
        ({
            let pieces = Pieces::of_page(ui@, rect, title@, corners, font);
            let start = old(out)@.len() + pieces.head.len();
            &&& OpModel::all(final(out)@) == OpModel::all(old(out)@) + pieces.all()
            &&& rows.0 == start
            &&& rows.1 == start + pieces.rows.len()
        }),
{
    let ghost before = OpModel::all(out@);
    let ghost pieces = Pieces::of_page(ui@, rect, title@, corners, font);
    draw_page_frame(out, rect, corners);
    // The same inset the rows are laid out with: a title indented differently from the
    // rows it heads reads as a misalignment.
    let inset: u32 = Metrics::from_cell(font.cell_width, font.cell_height).padding;
    let body = draw_panel_title(out, rect, title, inset, font);
    let footer = ui.footer_area();
    draw_footer_divider(out, footer, corners);
    assert(OpModel::all(out@) =~= before + pieces.head);
    let start: usize = out.len();
    assert(OpModel::all(out@).len() == out@.len());
    assert forall|i: int| 0 <= i < ui@.placed.len() implies crate::draw::row_ok(
        #[trigger] ui@.placed[i],
        font,
    ) by {}
    let rows = ui.body();
    assert forall|i: int| 0 <= i < rows@.len() implies crate::draw::row_ok(
        (#[trigger] rows@[i])@,
        font,
    ) by {
        assert(Placed::models(rows@)[i] == ui@.placed[i]);
    }
    draw_widgets_in(out, rows, ui, font);
    assert(OpModel::all(out@) =~= before + pieces.head + pieces.rows);
    let end: usize = out.len();
    assert(OpModel::all(out@).len() == out@.len());
    let all = ui.placed();
    let pinned = all.split_at(ui.body_count()).1;
    assert(Placed::models(pinned@) =~= ui@.placed.skip(ui@.body_count)) by {
        assert(Placed::models(all@) == ui@.placed);
        assert forall|i: int| 0 <= i < pinned@.len() implies (#[trigger] pinned@[i])@
            == ui@.placed.skip(ui@.body_count)[i] by {
            assert(Placed::models(all@)[i + ui@.body_count] == all@[i + ui@.body_count]@);
        }
    }
    assert forall|i: int| 0 <= i < pinned@.len() implies crate::draw::row_ok(
        (#[trigger] pinned@[i])@,
        font,
    ) by {
        assert(Placed::models(pinned@)[i] == ui@.placed[i + ui@.body_count]);
    }
    draw_widgets_in(out, pinned, ui, font);
    let area = Rect::new(body.x, body.y, body.width, body.height.saturating_sub(footer.height));
    assert(area == scroll_area(crate::draw::title_body(rect, font), ui@));
    draw_scrollbar(out, ui, area);
    assert(OpModel::all(out@) =~= before + pieces.all());
    (start, end)
}

// --- placing ----------------------------------------------------------------------

/// A pane of the tab on screen: the area it owns, and where its cells start.
#[derive(Debug, Clone, Copy, PartialEq, Eq, Structural)]
pub struct PanePlace {
    pub pane: u64,
    pub rect: Rect,
    pub content: Rect,
}

/// Where everything goes.
#[derive(Debug)]
pub struct Places {
    /// The window's size.
    pub window: (u32, u32),
    pub panes: Vec<PanePlace>,
    pub dividers: Vec<Rect>,
    pub tab_bar: Rect,
    pub tabs: Vec<Rect>,
    pub tab_close: Vec<Rect>,
    pub actions: Vec<(ChromeButton, Rect)>,
    pub status_bar: Rect,
    /// The sidebar's column; its width is zero when it is closed.
    pub sidebar: Rect,
}

impl Places {
    pub open spec fn window_rect(self) -> Rect {
        Rect { x: 0, y: 0, width: self.window.0, height: self.window.1 }
    }

    /// The pane a page fills.
    pub open spec fn page(self) -> Option<Rect> {
        if self.panes@.len() > 0 {
            Some(self.panes@[0].rect)
        } else {
            None
        }
    }

    fn whole(&self) -> (r: Rect)
        ensures
            r == self.window_rect(),
    {
        Rect::new(0, 0, self.window.0, self.window.1)
    }

    fn page_rect(&self) -> (r: Option<Rect>)
        ensures
            r == self.page(),
    {
        if self.panes.len() > 0 {
            Some(self.panes[0].rect)
        } else {
            None
        }
    }
}

/// What pages show that comes from the configuration.
pub struct PageRows {
    /// The settings page and its pinned buttons.
    pub settings: Vec<Widget>,
    pub settings_footer: Vec<Widget>,
    /// The bindings in effect.
    pub keys: Vec<Binding>,
    pub plugins: PluginConfig,
}

impl PageRows {
    pub open spec fn settings_rows(self) -> Seq<WidgetModel> {
        crate::widget::models(self.settings@)
    }

    pub open spec fn settings_buttons(self) -> Seq<WidgetModel> {
        crate::widget::models(self.settings_footer@)
    }

    pub open spec fn help_rows(self) -> Seq<WidgetModel> {
        HelpPage::page(BindingModel::all(self.keys@))
    }
}

/// The buttons pinned under the plugins page.
pub open spec fn plugins_buttons() -> Seq<WidgetModel> {
    seq![
        WidgetModel::Button {
            id: WidgetId(crate::plugins::IMPORT),
            label: "Import"@,
            enabled: true,
        },
        WidgetModel::Button {
            id: WidgetId(crate::plugins::EXPORT),
            label: "Export all"@,
            enabled: true,
        },
        WidgetModel::Button {
            id: WidgetId(crate::plugins::CLOSE),
            label: "Close"@,
            enabled: true,
        },
    ]
}

/// Rows laid out below a page's title.
pub open spec fn page_laid_out(
    ui: UiModel,
    rows: Seq<WidgetModel>,
    footer: Seq<WidgetModel>,
    rect: Rect,
    font: Font,
) -> UiModel {
    ui.laid_out(
        rows,
        footer,
        crate::draw::title_body(rect, font),
        Metrics::of_cell(font.cell_width as int, font.cell_height as int),
    )
}

/// Rows can be laid out below a page's title.
pub open spec fn page_fits(
    ui: UiModel,
    rows: Seq<WidgetModel>,
    footer: Seq<WidgetModel>,
    rect: Rect,
    font: Font,
) -> bool {
    &&& rect.fits()
    &&& font.cell_height * 12 <= u32::MAX
    &&& ui.layout_fits(
        rows,
        footer,
        crate::draw::title_body(rect, font),
        Metrics::of_cell(font.cell_width as int, font.cell_height as int),
    )
}

/// What is left of a page below its title bar.
fn below_title(panel: Rect, font: Font) -> (body: Rect)
    requires
        panel.fits(),
    ensures
        body == crate::draw::title_body(panel, font),
{
    let wanted: u64 = font.cell_height as u64 + 12;
    let height: u32 = if wanted <= panel.height as u64 {
        wanted as u32
    } else {
        panel.height
    };
    Rect::new(
        panel.x,
        (panel.y as i64 + height as i64) as i32,
        panel.width,
        panel.height - height,
    )
}

fn can_lay_page(ui: &Ui, rows: &Vec<Widget>, footer: &Vec<Widget>, rect: Rect, font: Font) -> (b:
    bool)
    ensures
        b == page_fits(
            ui@,
            crate::widget::models(rows@),
            crate::widget::models(footer@),
            rect,
            font,
        ),
{
    rect.can_fit() && font.cell_height as u64 * 12 <= u32::MAX as u64 && ui.can_lay_out(
        rows.as_slice(),
        footer.as_slice(),
        below_title(rect, font),
        Metrics::from_cell(font.cell_width, font.cell_height),
    )
}

fn lay_page(ui: &mut Ui, rows: &Vec<Widget>, footer: &Vec<Widget>, rect: Rect, font: Font)
    requires
        old(ui)@.wf(),
        page_fits(
            old(ui)@,
            crate::widget::models(rows@),
            crate::widget::models(footer@),
            rect,
            font,
        ),
    ensures
        final(ui)@.wf(),
        final(ui)@ == page_laid_out(
            old(ui)@,
            crate::widget::models(rows@),
            crate::widget::models(footer@),
            rect,
            font,
        ),
{
    ui.layout_split_with(
        rows.as_slice(),
        footer.as_slice(),
        below_title(rect, font),
        Metrics::from_cell(font.cell_width, font.cell_height),
    );
}

impl ExplorerModel {
    /// The sidebar laid out in its column, with the keyboard in its prompt.
    pub open spec fn laid_out(self, rect: Rect, font: Font) -> ExplorerModel {
        let ui = page_laid_out(self.ui, self.row_widgets(), self.prompt_widgets(), rect, font);
        ExplorerModel {
            ui: if self.prompt is Some {
                ui.focus_on(WidgetId(crate::explorer::PROMPT_ID))
            } else {
                ui
            },
            ..self
        }
    }
}

/// The page on screen: its panel, its rows and its pinned buttons.
#[verifier::ext_equal]
pub struct Shown {
    pub ui: UiModel,
    pub rows: Seq<WidgetModel>,
    pub footer: Seq<WidgetModel>,
}

impl AppModel {
    /// The page on screen, if its tab shows one.
    pub open spec fn shown_page(self, kind: TabKind, rows: PageRows) -> Option<Shown> {
        match kind {
            TabKind::Terminal => None,
            TabKind::Settings => match self.panel {
                Some(ui) => Some(
                    Shown { ui, rows: rows.settings_rows(), footer: rows.settings_buttons() },
                ),
                None => None,
            },
            TabKind::Help => match self.help {
                Some(ui) => Some(Shown { ui, rows: rows.help_rows(), footer: Seq::empty() }),
                None => None,
            },
            TabKind::Plugins => match self.plugins {
                Some(page) => Some(
                    Shown {
                        ui: page.ui,
                        rows: page.row_widgets(rows.plugins@),
                        footer: plugins_buttons(),
                    },
                ),
                None => None,
            },
        }
    }

    /// Everything shown can be placed.
    pub open spec fn pages_fit(self, p: Places, kind: TabKind, font: Font, rows: PageRows) -> bool {
        &&& self.sidebar is Some && p.sidebar.width > 0 ==> page_fits(
            self.sidebar->0.ui,
            self.sidebar->0.row_widgets(),
            self.sidebar->0.prompt_widgets(),
            p.sidebar,
            font,
        )
        &&& self.plugins is Some ==> self.plugins->0.found.len() <= u32::MAX
            - crate::plugins::PLUGIN_BASE
        &&& self.shown_page(kind, rows) is Some && p.page() is Some ==> page_fits(
            self.shown_page(kind, rows)->0.ui,
            self.shown_page(kind, rows)->0.rows,
            self.shown_page(kind, rows)->0.footer,
            p.page()->0,
            font,
        )
        &&& self.menu is Some ==> self.menu->0.rect_fits(
            p.window_rect(),
            (font.cell_width, font.cell_height),
        )
    }

    pub open spec fn sidebar_placed(self, p: Places, font: Font) -> AppModel {
        AppModel {
            sidebar: match self.sidebar {
                Some(e) => Some(
                    if p.sidebar.width > 0 {
                        e.laid_out(p.sidebar, font)
                    } else {
                        e
                    },
                ),
                None => None,
            },
            ..self
        }
    }

    /// The page on screen laid out. Where it scrolls is remembered for the wheel, and
    /// forgotten for pages that are not on screen.
    pub open spec fn page_placed(self, p: Places, kind: TabKind, font: Font, rows: PageRows) -> AppModel {
        let cleared = AppModel { panel_body: None, plugins_body: None, ..self };
        match (self.shown_page(kind, rows), p.page()) {
            (Some(shown), Some(rect)) => {
                let laid = page_laid_out(shown.ui, shown.rows, shown.footer, rect, font);
                let area = scroll_area(crate::draw::title_body(rect, font), laid);
                match kind {
                    TabKind::Terminal => cleared,
                    TabKind::Settings => AppModel {
                        panel: Some(laid),
                        panel_body: Some(area),
                        ..cleared
                    },
                    TabKind::Help => AppModel { help: Some(laid), ..cleared },
                    TabKind::Plugins => AppModel {
                        plugins: Some(PluginsModel { ui: laid, ..self.plugins->0 }),
                        plugins_body: Some(area),
                        ..cleared
                    },
                }
            },
            _ => cleared,
        }
    }

    pub open spec fn menu_placed(self, p: Places, font: Font) -> AppModel {
        AppModel {
            menu_rect: match self.menu {
                Some(m) => Some(m.rect_in(p.window_rect(), (font.cell_width, font.cell_height))),
                None => None,
            },
            ..self
        }
    }

    /// Everything shown, placed.
    pub open spec fn placed(self, p: Places, kind: TabKind, font: Font, rows: PageRows) -> AppModel {
        self.sidebar_placed(p, font).page_placed(p, kind, font, rows).menu_placed(p, font)
    }
}

impl App {
    fn can_place(&self, p: &Places, kind: TabKind, font: Font, rows: &PageRows) -> (b: bool)
        requires
            self@.wf(),
        ensures
            b == self@.pages_fit(*p, kind, font, *rows),
    {
        if let Some(e) = &self.sidebar {
            if p.sidebar.width > 0 && !can_lay_page(
                &e.ui,
                &e.widgets(),
                &e.footer_widgets(),
                p.sidebar,
                font,
            ) {
                return false;
            }
        }
        if let Some(page) = &self.plugins_page {
            if page.found.len() as u64 > u32::MAX as u64 - PLUGIN_BASE as u64 {
                return false;
            }
        }
        if let Some(m) = &self.menu {
            if !m.can_place(p.whole(), (font.cell_width, font.cell_height)) {
                return false;
            }
        }
        let rect = match p.page_rect() {
            Some(rect) => rect,
            None => {
                return true;
            },
        };
        match kind {
            TabKind::Terminal => true,
            TabKind::Settings => match &self.panel {
                Some(ui) => can_lay_page(ui, &rows.settings, &rows.settings_footer, rect, font),
                None => true,
            },
            TabKind::Help => match &self.help {
                Some(page) => {
                    let none: Vec<Widget> = Vec::new();
                    assert(crate::widget::models(none@) =~= Seq::empty());
                    can_lay_page(&page.ui, &page.widgets(&rows.keys), &none, rect, font)
                },
                None => true,
            },
            TabKind::Plugins => match &self.plugins_page {
                Some(page) => can_lay_page(
                    &page.ui,
                    &page.widgets(&rows.plugins),
                    &page.footer_widgets(),
                    rect,
                    font,
                ),
                None => true,
            },
        }
    }

    fn place_sidebar(&mut self, p: &Places, font: Font)
        requires
            old(self)@.wf(),
            old(self)@.sidebar is Some && p.sidebar.width > 0 ==> page_fits(
                old(self)@.sidebar->0.ui,
                old(self)@.sidebar->0.row_widgets(),
                old(self)@.sidebar->0.prompt_widgets(),
                p.sidebar,
                font,
            ),
        ensures
            final(self)@ == old(self)@.sidebar_placed(*p, font),
            final(self)@.wf(),
    {
        match &mut self.sidebar {
            Some(e) => {
                if p.sidebar.width > 0 {
                    let rows = e.widgets();
                    let footer = e.footer_widgets();
                    lay_page(&mut e.ui, &rows, &footer, p.sidebar, font);
                    // The prompt owns the keyboard while it is open, and a caret is only
                    // drawn for the focused row.
                    e.focus_prompt();
                }
            },
            None => {},
        }
        assert(self@ =~= old(self)@.sidebar_placed(*p, font));
    }

    fn place_page(&mut self, p: &Places, kind: TabKind, font: Font, rows: &PageRows)
        requires
            old(self)@.wf(),
            old(self)@.plugins is Some ==> old(self)@.plugins->0.found.len() <= u32::MAX
                - crate::plugins::PLUGIN_BASE,
            old(self)@.shown_page(kind, *rows) is Some && p.page() is Some ==> page_fits(
                old(self)@.shown_page(kind, *rows)->0.ui,
                old(self)@.shown_page(kind, *rows)->0.rows,
                old(self)@.shown_page(kind, *rows)->0.footer,
                p.page()->0,
                font,
            ),
        ensures
            final(self)@ == old(self)@.page_placed(*p, kind, font, *rows),
            final(self)@.wf(),
    {
        self.panel_body = None;
        self.plugins_body = None;
        let rect = match p.page_rect() {
            Some(rect) => rect,
            None => {
                assert(self@ =~= old(self)@.page_placed(*p, kind, font, *rows));
                return ;
            },
        };
        match kind {
            TabKind::Terminal => {},
            TabKind::Settings => {
                if let Some(ui) = &mut self.panel {
                    lay_page(ui, &rows.settings, &rows.settings_footer, rect, font);
                    self.panel_body = Some(scrolling(ui, rect, font));
                }
            },
            TabKind::Help => {
                if let Some(page) = &mut self.help {
                    let none: Vec<Widget> = Vec::new();
                    assert(crate::widget::models(none@) =~= Seq::empty());
                    let list = page.widgets(&rows.keys);
                    lay_page(&mut page.ui, &list, &none, rect, font);
                }
            },
            TabKind::Plugins => {
                if let Some(page) = &mut self.plugins_page {
                    let list = page.widgets(&rows.plugins);
                    let footer = page.footer_widgets();
                    lay_page(&mut page.ui, &list, &footer, rect, font);
                    self.plugins_body = Some(scrolling(&page.ui, rect, font));
                }
            },
        }
        assert(self@ =~= old(self)@.page_placed(*p, kind, font, *rows));
    }

    /// Place everything a frame shows: the sidebar, the page on screen and the menu.
    /// Nothing is placed, and the answer is no, when a coordinate would be no pixel
    /// position.
    pub fn place_pages(&mut self, p: &Places, kind: TabKind, font: Font, rows: &PageRows) -> (placed:
        bool)
        requires
            old(self)@.wf(),
        ensures
            placed == old(self)@.pages_fit(*p, kind, font, *rows),
            final(self)@ == (if placed {
                old(self)@.placed(*p, kind, font, *rows)
            } else {
                old(self)@
            }),
            final(self)@.wf(),
    {
        if !self.can_place(p, kind, font, rows) {
            return false;
        }
        self.place_sidebar(p, font);
        self.place_page(p, kind, font, rows);
        match &self.menu {
            Some(m) => {
                self.menu_rect = Some(m.rect(p.whole(), (font.cell_width, font.cell_height)));
            },
            None => {
                self.menu_rect = None;
            },
        }
        assert(self@ =~= old(self)@.placed(*p, kind, font, *rows));
        true
    }
}

/// The scrolling part of a page that is laid out.
fn scrolling(ui: &Ui, rect: Rect, font: Font) -> (area: Rect)
    requires
        rect.fits(),
    ensures
        area == scroll_area(crate::draw::title_body(rect, font), ui@),
{
    let body = below_title(rect, font);
    let footer = ui.footer_area();
    Rect::new(body.x, body.y, body.width, body.height.saturating_sub(footer.height))
}

// --- drawing ----------------------------------------------------------------------

/// A segment of the status bar's right-hand side.
#[derive(Debug, PartialEq, Eq)]
pub struct Segment {
    pub text: String,
    pub foreground: Option<String>,
    pub background: Option<String>,
    /// Who hears about a press. A segment without one is text, not a button.
    pub owner: Option<String>,
}

/// The theme's colors for a status button that is held or under the pointer, as
/// `#rrggbb`.
#[derive(Debug, PartialEq, Eq)]
pub struct Palette {
    pub background: String,
    pub background_focused: String,
    pub foreground: String,
    pub cursor: String,
}

/// What a frame shows besides what is open.
#[derive(Debug)]
pub struct Look {
    pub font: Font,
    /// What the tab on screen holds.
    pub kind: TabKind,
    pub active_tab: usize,
    pub titles: Vec<String>,
    /// Which tabs have unseen output.
    pub activity: Vec<bool>,
    /// What the hovered button's tooltip says.
    pub tooltip: String,
    pub left: Vec<String>,
    pub right: Vec<Segment>,
    pub palette: Palette,
    /// The window has rounded corners.
    pub rounded: bool,
    /// Width of the window's outline.
    pub border: Fixed,
    pub home: Option<String>,
    pub now: u64,
}

/// The part of the window that drawing is limited to.
#[derive(Debug, Clone, Copy, PartialEq, Eq, Structural)]
pub struct Scissor {
    pub x: u32,
    pub y: u32,
    pub width: u32,
    pub height: u32,
}

impl Scissor {
    /// A rectangle, as far as it is in the window.
    pub open spec fn of(rect: Rect, window: (u32, u32)) -> Scissor {
        Scissor {
            x: crate::ui::at_least_zero(rect.x as int) as u32,
            y: crate::ui::at_least_zero(rect.y as int) as u32,
            width: crate::ui::lesser(rect.width as int, window.0 as int) as u32,
            height: crate::ui::lesser(rect.height as int, window.1 as int) as u32,
        }
    }
}

/// Limit drawing to a rectangle.
pub fn scissor_of(rect: Rect, window: (u32, u32)) -> (s: Scissor)
    ensures
        s == Scissor::of(rect, window),
{
    Scissor {
        x: if rect.x >= 0 {
            rect.x as u32
        } else {
            0
        },
        y: if rect.y >= 0 {
            rect.y as u32
        } else {
            0
        },
        width: if rect.width <= window.0 {
            rect.width
        } else {
            window.0
        },
        height: if rect.height <= window.1 {
            rect.height
        } else {
            window.1
        },
    }
}

/// A run of the operations, and what it is limited to.
#[derive(Debug, Clone, Copy, PartialEq, Eq, Structural)]
pub struct Step {
    pub clip: Scissor,
    pub start: usize,
    pub end: usize,
}

/// A frame without the contents of its panes, which go under it.
#[derive(Debug)]
pub struct FramePlan {
    /// The window's own background. With it, what is cleared is cleared to nothing: the
    /// corners outside the curve have to stay see-through.
    pub window: Option<Op>,
    pub ops: Vec<Op>,
    pub steps: Vec<Step>,
    /// Pressable segments and where they were drawn.
    pub hits: Vec<(String, Rect)>,
}

/// What the dividers between panes draw.
pub open spec fn divider_ops(dividers: Seq<Rect>) -> Seq<OpModel> {
    Seq::new(
        dividers.len(),
        |i: int| OpModel::fill(dividers[i], Tone::SplitDivider, Blend::Window),
    )
}

fn draw_dividers(out: &mut Vec<Op>, dividers: &Vec<Rect>)
    ensures
        OpModel::all(final(out)@) == OpModel::all(old(out)@) + divider_ops(dividers@),
{
    let ghost before = OpModel::all(out@);
    let ghost all = divider_ops(dividers@);
    let mut i: usize = 0;
    while i < dividers.len()
        invariant
            i <= dividers@.len(),
            all == divider_ops(dividers@),
            OpModel::all(out@) =~= before + all.take(i as int),
        decreases dividers@.len() - i,
    {
        push_fill(out, dividers[i], Tone::SplitDivider, Blend::Window);
        i += 1;
        assert(all.take(i as int) =~= all.take(i - 1).push(all[i - 1]));
    }
    assert(all.take(i as int) =~= all);
}

/// What can be pressed, among the first `n` segments that were drawn.
pub open spec fn pressable(segments: Seq<Segment>, rects: Seq<Rect>, n: int) -> Seq<
    (Seq<char>, Rect),
>
    decreases n,
{
    if n <= 0 {
        Seq::empty()
    } else {
        let before = pressable(segments, rects, n - 1);
        match segments[n - 1].owner {
            Some(id) => before.push((id@, rects[n - 1])),
            None => before,
        }
    }
}

/// How many of the first `n` segments can be pressed.
pub open spec fn buttons_before(segments: Seq<Segment>, n: int) -> nat
    decreases n,
{
    if n <= 0 {
        0
    } else {
        buttons_before(segments, n - 1) + (if segments[n - 1].owner is Some {
            1nat
        } else {
            0
        })
    }
}

fn count_buttons(segments: &Vec<Segment>, n: usize) -> (count: usize)
    requires
        n <= segments@.len(),
    ensures
        count == buttons_before(segments@, n as int),
        count <= n,
{
    let mut count: usize = 0;
    let mut i: usize = 0;
    while i < n
        invariant
            i <= n <= segments@.len(),
            count == buttons_before(segments@, i as int),
            count <= i,
        decreases n - i,
    {
        if segments[i].owner.is_some() {
            count += 1;
        }
        i += 1;
    }
    count
}

/// A page and its title.
#[verifier::ext_equal]
pub struct OpenPage {
    pub ui: UiModel,
    pub title: Seq<char>,
}

impl Look {
    /// Every text is short enough to be drawn.
    pub open spec fn texts_ok(self) -> bool {
        let font = self.font;
        &&& font.cell_height * 12 <= u32::MAX
        &&& forall|i: int| 0 <= i < self.titles@.len() ==> font.can_draw(#[trigger] self.titles@[i]@)
        &&& forall|i: int| 0 <= i < self.left@.len() ==> font.can_draw(#[trigger] self.left@[i]@)
        &&& forall|i: int|
            0 <= i < self.right@.len() ==> font.can_draw((#[trigger] self.right@[i]).text@)
        &&& font.can_draw(self.tooltip@)
        &&& 3 * (self.tooltip@.len() + 1) * font.cell_width <= i32::MAX
    }
}

impl Places {
    /// Every place is small and near enough to be drawn in.
    pub open spec fn places_ok(self) -> bool {
        &&& self.window_rect().fits()
        &&& self.tab_bar.fits()
        &&& self.status_bar.fits()
        &&& forall|i: int| 0 <= i < self.tabs@.len() ==> crate::chrome::drawable(#[trigger] self.tabs@[i])
        &&& forall|i: int|
            0 <= i < self.actions@.len() ==> crate::chrome::drawable(
                (#[trigger] self.actions@[i]).1,
            )
    }
}

impl AppModel {
    // --- the tab strip ----------------------------------------------------------

    /// The tabs' labels. Only the hovered one offers its close button: a permanent one
    /// on every tab is noise, and a stray click costs a running shell.
    pub open spec fn labels(self, look: Look) -> Seq<LabelModel> {
        Seq::new(
            look.titles@.len(),
            |i: int|
                LabelModel {
                    title: look.titles@[i]@,
                    active: i == look.active_tab,
                    has_activity: i < look.activity@.len() && look.activity@[i],
                    show_close: self.pointer.hovered_tab == Some(i as usize),
                    close_hovered: self.pointer.hovered_tab == Some(i as usize)
                        && self.pointer.hovered_close,
                },
        )
    }

    /// The tooltip goes last, so that it overlaps the strip.
    pub open spec fn hint_ops(self, p: Places, look: Look) -> Seq<OpModel> {
        match self.pointer.hovered_button {
            Some(button) => match crate::app::place_of(
                p.actions@,
                button,
                p.actions@.len() as int,
            ) {
                Some(anchor) => crate::chrome::tooltip_ops(
                    look.tooltip@,
                    anchor,
                    p.window_rect(),
                    look.font,
                ),
                None => Seq::empty(),
            },
            None => Seq::empty(),
        }
    }

    pub open spec fn strip_ops(self, p: Places, look: Look) -> Seq<OpModel> {
        if p.tab_bar.height > 0 {
            crate::chrome::tab_bar_ops(
                p.tab_bar,
                p.tabs@,
                p.tab_close@,
                self.labels(look),
                look.font,
            ) + crate::chrome::buttons_ops(
                p.tab_bar,
                p.actions@,
                self.pointer.hovered_button,
                self.pointer.pressed_button,
                crate::window::lit_buttons(self.sidebar is Some, look.kind),
                p.actions@.len() as int,
            ) + self.hint_ops(p, look)
        } else {
            Seq::empty()
        }
    }

    // --- the status bar ---------------------------------------------------------

    /// Segment `i` as it is drawn. One that can be pressed looks like a button: the
    /// theme's colors while it is held or under the pointer, which is noted by its place
    /// among those that can be pressed.
    pub open spec fn item(self, look: Look, i: int) -> ItemModel {
        let segment = look.right@[i];
        let button = segment.owner is Some;
        let place = buttons_before(look.right@, i) as usize;
        if button && self.pointer.pressed_ide == Some(place) {
            ItemModel {
                text: segment.text@,
                foreground: Some(look.palette.background@),
                background: Some(look.palette.cursor@),
            }
        } else if button && self.pointer.hovered_ide == Some(place) {
            ItemModel {
                text: segment.text@,
                foreground: Some(look.palette.foreground@),
                background: Some(look.palette.background_focused@),
            }
        } else {
            ItemModel {
                text: segment.text@,
                foreground: crate::strings::text_of(segment.foreground),
                background: crate::strings::text_of(segment.background),
            }
        }
    }

    pub open spec fn items(self, look: Look) -> Seq<ItemModel> {
        Seq::new(look.right@.len(), |i: int| self.item(look, i))
    }

    pub open spec fn plain_items(look: Look) -> Seq<ItemModel> {
        Seq::new(
            look.left@.len(),
            |i: int| ItemModel { text: look.left@[i]@, foreground: None, background: None },
        )
    }

    pub open spec fn status_ops(self, p: Places, look: Look) -> Seq<OpModel> {
        crate::chrome::status_bar_ops(
            p.status_bar,
            AppModel::plain_items(look),
            self.items(look),
            look.font,
        )
    }

    /// Every segment that can be pressed, and where it was drawn. One without an owner
    /// is skipped: a clock should not swallow a press.
    pub open spec fn segment_hits(self, p: Places, look: Look) -> Seq<(Seq<char>, Rect)> {
        if p.status_bar.height == 0 {
            Seq::empty()
        } else {
            let n = crate::chrome::right_count(p.status_bar, self.items(look), look.font);
            pressable(
                look.right@,
                Seq::new(
                    n as nat,
                    |i: int|
                        crate::chrome::right_segment(
                            p.status_bar,
                            self.items(look),
                            look.font,
                            i,
                        ),
                ),
                n,
            )
        }
    }

    // --- panels -----------------------------------------------------------------

    /// The sidebar: a square page, and a line down its right edge that is brighter
    /// while it has the keyboard.
    pub open spec fn sidebar_ops(self, p: Places, look: Look) -> Seq<OpModel> {
        match self.sidebar {
            Some(e) => if p.sidebar.width > 0 {
                Pieces::of_page(
                    e.ui,
                    p.sidebar,
                    crate::proc::displayed(e.dir, crate::strings::text_of(look.home)),
                    Corners::Square,
                    look.font,
                ).all().push(
                    OpModel::fill(
                        Rect {
                            x: (p.sidebar.right_spec() - 1) as i32,
                            y: p.sidebar.y,
                            width: 1,
                            height: p.sidebar.height,
                        },
                        if self.sidebar_focused {
                            Tone::Cursor
                        } else {
                            Tone::SplitDivider
                        },
                        Blend::Opaque,
                    ),
                )
            } else {
                Seq::empty()
            },
            None => Seq::empty(),
        }
    }

    /// The panel and the title of the page on screen.
    pub open spec fn open_page(self, kind: TabKind) -> Option<OpenPage> {
        match kind {
            TabKind::Terminal => None,
            TabKind::Settings => match self.panel {
                Some(ui) => Some(OpenPage { ui, title: "Tuzminal Settings"@ }),
                None => None,
            },
            TabKind::Help => match self.help {
                Some(ui) => Some(OpenPage { ui, title: "Shortcuts"@ }),
                None => None,
            },
            TabKind::Plugins => match self.plugins {
                Some(page) => Some(OpenPage { ui: page.ui, title: "Plugins"@ }),
                None => None,
            },
        }
    }

    /// The settings page only owns the window's bottom corners when nothing is drawn
    /// below it.
    pub open spec fn page_corners(p: Places, kind: TabKind) -> Corners {
        if kind is Settings && p.status_bar.height > 0 {
            Corners::Square
        } else {
            Corners::Bottom
        }
    }

    pub open spec fn page_pieces(self, p: Places, look: Look) -> Pieces {
        match (self.open_page(look.kind), p.page()) {
            (Some(page), Some(rect)) => Pieces::of_page(
                page.ui,
                rect,
                page.title,
                AppModel::page_corners(p, look.kind),
                look.font,
            ),
            _ => Pieces::none(),
        }
    }

    // --- what floats ------------------------------------------------------------

    pub open spec fn menu_ops(self, look: Look) -> Seq<OpModel> {
        match (self.menu, self.menu_rect) {
            (Some(m), Some(rect)) => OpModel::outlined(
                rect,
                Tone::SplitDivider,
                Tone::BackgroundFocused,
            ) + crate::draw::menu_rows_ops(
                Seq::new(
                    m.items.len(),
                    |i: int| (Menu::row_in(rect, i, look.font.cell_height), m.items[i].0),
                ),
                m.selected,
                look.font,
                m.items.len() as int,
            ),
            _ => Seq::empty(),
        }
    }

    pub open spec fn toast_list(self, now: u64) -> Seq<ToastModel> {
        Seq::new(
            self.toasts.len(),
            |i: int|
                ToastModel {
                    text: self.toasts[i].text,
                    accent: match self.toasts[i].level {
                        NotifyLevel::Error => Tone::NormalRed,
                        NotifyLevel::Warn => Tone::NormalYellow,
                        NotifyLevel::Info => Tone::NormalBlue,
                    },
                    opacity: self.toasts[i].opacity(now) as u32,
                },
        )
    }

    pub open spec fn toast_ops(self, p: Places, look: Look) -> Seq<OpModel> {
        crate::draw::toasts_ops(
            p.window_rect(),
            self.toast_list(look.now),
            look.font,
            crate::draw::toasts_shown(
                p.window_rect(),
                look.font,
                self.toasts.len() as int,
                0,
            ),
        )
    }

    pub open spec fn border_ops(p: Places, look: Look) -> Seq<OpModel> {
        OpModel::when(
            look.border@ > 0,
            OpModel::Ring {
                rect: p.window_rect(),
                tone: Tone::WindowBorder,
                thickness: look.border,
            },
        )
    }

    // --- the whole --------------------------------------------------------------

    pub open spec fn under_page(self, p: Places, look: Look) -> Seq<OpModel> {
        divider_ops(p.dividers@) + self.strip_ops(p, look) + self.status_ops(p, look)
            + self.sidebar_ops(p, look)
    }

    pub open spec fn over_page(self, p: Places, look: Look) -> Seq<OpModel> {
        self.menu_ops(look) + self.toast_ops(p, look) + AppModel::border_ops(p, look)
    }

    /// Everything over the panes, in painting order.
    pub open spec fn frame_ops(self, p: Places, look: Look) -> Seq<OpModel> {
        self.under_page(p, look) + self.page_pieces(p, look).all() + self.over_page(p, look)
    }

    /// How it is painted: all of it over the whole window, but for a page's rows, which
    /// are limited to the part of the page that scrolls.
    pub open spec fn frame_steps(self, p: Places, look: Look) -> Seq<Step> {
        let whole = Scissor::of(p.window_rect(), p.window);
        let pieces = self.page_pieces(p, look);
        let start = self.under_page(p, look).len() + pieces.head.len();
        let end = start + pieces.rows.len();
        let all = self.frame_ops(p, look).len();
        if all == 0 {
            Seq::empty()
        } else if pieces.rows.len() > 0 {
            seq![
                Step { clip: whole, start: 0, end: start as usize },
                Step {
                    clip: Scissor::of(
                        scroll_area(
                            crate::draw::title_body(p.page()->0, look.font),
                            self.open_page(look.kind)->0.ui,
                        ),
                        p.window,
                    ),
                    start: start as usize,
                    end: end as usize,
                },
                Step { clip: whole, start: end as usize, end: all as usize },
            ]
        } else {
            seq![Step { clip: whole, start: 0, end: all as usize }]
        }
    }

    /// The texts are drawable and the places are representable.
    pub open spec fn frame_ok(self, p: Places, look: Look) -> bool {
        &&& look.texts_ok()
        &&& p.places_ok()
        &&& self.sidebar is Some && p.sidebar.width > 0 ==> page_ok(
            self.sidebar->0.ui,
            p.sidebar,
            crate::proc::displayed(self.sidebar->0.dir, crate::strings::text_of(look.home)),
            look.font,
        )
        &&& self.open_page(look.kind) is Some && p.page() is Some ==> page_ok(
            self.open_page(look.kind)->0.ui,
            p.page()->0,
            self.open_page(look.kind)->0.title,
            look.font,
        )
        &&& self.menu is Some && self.menu_rect is Some ==> {
            &&& self.menu->0.rows_fit(self.menu_rect->0, look.font.cell_height)
            &&& forall|i: int|
                0 <= i < self.menu->0.items.len() ==> look.font.can_draw(
                    (#[trigger] self.menu->0.items[i]).0,
                )
        }
        &&& forall|i: int|
            0 <= i < self.toasts.len() ==> look.font.can_draw((#[trigger] self.toasts[i]).text)
    }
}

fn all_texts_fit(texts: &Vec<String>, font: Font) -> (b: bool)
    ensures
        b == forall|i: int| 0 <= i < texts@.len() ==> font.can_draw(#[trigger] texts@[i]@),
{
    let mut i: usize = 0;
    while i < texts.len()
        invariant
            i <= texts@.len(),
            forall|k: int| 0 <= k < i ==> font.can_draw(#[trigger] texts@[k]@),
        decreases texts@.len() - i,
    {
        if !font.fits(texts[i].as_str()) {
            assert(!font.can_draw(texts@[i as int]@));
            return false;
        }
        i += 1;
    }
    true
}

impl Look {
    fn can_draw_texts(&self) -> (b: bool)
        ensures
            b == self.texts_ok(),
    {
        let font = self.font;
        let mut i: usize = 0;
        while i < self.right.len()
            invariant
                font == self.font,
                i <= self.right@.len(),
                forall|k: int| 0 <= k < i ==> font.can_draw((#[trigger] self.right@[k]).text@),
            decreases self.right@.len() - i,
        {
            if !font.fits(self.right[i].text.as_str()) {
                assert(!font.can_draw(self.right@[i as int].text@));
                return false;
            }
            i += 1;
        }
        let n: usize = self.tooltip.as_str().unicode_len();
        let cells: u128 = 3 * (n as u128 + 1);
        proof {
            assert(0 <= cells * font.cell_width <= 3 * (usize::MAX + 1) * u32::MAX)
                by (nonlinear_arith)
                requires
                    0 <= cells <= 3 * (usize::MAX + 1),
                    0 <= font.cell_width <= u32::MAX,
            ;
        }
        font.cell_height as u64 * 12 <= u32::MAX as u64 && all_texts_fit(&self.titles, font)
            && all_texts_fit(&self.left, font) && font.fits(self.tooltip.as_str()) && cells
            * font.cell_width as u128 <= i32::MAX as u128
    }
}

impl Places {
    fn can_draw_places(&self) -> (b: bool)
        ensures
            b == self.places_ok(),
    {
        let mut i: usize = 0;
        while i < self.tabs.len()
            invariant
                i <= self.tabs@.len(),
                forall|k: int| 0 <= k < i ==> crate::chrome::drawable(#[trigger] self.tabs@[k]),
            decreases self.tabs@.len() - i,
        {
            if !can_draw_rect(self.tabs[i]) {
                assert(!crate::chrome::drawable(self.tabs@[i as int]));
                return false;
            }
            i += 1;
        }
        let mut k: usize = 0;
        while k < self.actions.len()
            invariant
                k <= self.actions@.len(),
                forall|j: int|
                    0 <= j < k ==> crate::chrome::drawable((#[trigger] self.actions@[j]).1),
            decreases self.actions@.len() - k,
        {
            if !can_draw_rect(self.actions[k].1) {
                assert(!crate::chrome::drawable(self.actions@[k as int].1));
                return false;
            }
            k += 1;
        }
        self.whole().can_fit() && self.tab_bar.can_fit() && self.status_bar.can_fit()
    }

    fn find_button(&self, button: ChromeButton) -> (rect: Option<Rect>)
        ensures
            rect == crate::app::place_of(self.actions@, button, self.actions@.len() as int),
            rect is Some ==> exists|i: int|
                0 <= i < self.actions@.len() && (#[trigger] self.actions@[i]).1 == rect->0,
    {
        let mut i: usize = 0;
        while i < self.actions.len()
            invariant
                i <= self.actions@.len(),
                crate::app::place_of(self.actions@, button, i as int) is None,
            decreases self.actions@.len() - i,
        {
            if self.actions[i].0 == button {
                proof {
                    crate::app::lemma_place_stays(
                        self.actions@,
                        button,
                        i + 1,
                        self.actions@.len() as int,
                    );
                }
                assert(self.actions@[i as int].1 == self.actions@[i as int].1);
                return Some(self.actions[i].1);
            }
            i += 1;
        }
        None
    }
}

impl App {
    fn can_draw_frame(&self, p: &Places, look: &Look) -> (b: bool)
        requires
            self@.wf(),
        ensures
            b == self@.frame_ok(*p, *look),
    {
        if !look.can_draw_texts() || !p.can_draw_places() {
            return false;
        }
        if let Some(e) = &self.sidebar {
            if p.sidebar.width > 0 && !can_draw_page(
                &e.ui,
                p.sidebar,
                shown_dir(e, &look.home).as_str(),
                look.font,
            ) {
                return false;
            }
        }
        if let Some(rect) = p.page_rect() {
            if !self.can_draw_open_page(rect, look) {
                return false;
            }
        }
        self.can_draw_menu(look) && self.can_draw_messages(look.font)
    }

    fn can_draw_open_page(&self, rect: Rect, look: &Look) -> (b: bool)
        ensures
            b == (self@.open_page(look.kind) is Some ==> page_ok(
                self@.open_page(look.kind)->0.ui,
                rect,
                self@.open_page(look.kind)->0.title,
                look.font,
            )),
    {
        match look.kind {
            TabKind::Terminal => true,
            TabKind::Settings => match &self.panel {
                Some(ui) => can_draw_page(ui, rect, "Tuzminal Settings", look.font),
                None => true,
            },
            TabKind::Help => match &self.help {
                Some(page) => can_draw_page(&page.ui, rect, "Shortcuts", look.font),
                None => true,
            },
            TabKind::Plugins => match &self.plugins_page {
                Some(page) => can_draw_page(&page.ui, rect, "Plugins", look.font),
                None => true,
            },
        }
    }

    fn can_draw_menu(&self, look: &Look) -> (b: bool)
        ensures
            b == (self@.menu is Some && self@.menu_rect is Some ==> {
                &&& self@.menu->0.rows_fit(self@.menu_rect->0, look.font.cell_height)
                &&& forall|i: int|
                    0 <= i < self@.menu->0.items.len() ==> look.font.can_draw(
                        (#[trigger] self@.menu->0.items[i]).0,
                    )
            }),
    {
        match (&self.menu, self.menu_rect) {
            (Some(m), Some(rect)) => {
                let mut i: usize = 0;
                while i < m.items.len()
                    invariant
                        self@.menu == Some(m@),
                        self@.menu_rect == Some(rect),
                        i <= m.items@.len(),
                        forall|k: int|
                            0 <= k < i ==> look.font.can_draw((#[trigger] m@.items[k]).0),
                    decreases m.items@.len() - i,
                {
                    if !look.font.fits(m.items[i].label.as_str()) {
                        assert(!look.font.can_draw(m@.items[i as int].0));
                        return false;
                    }
                    i += 1;
                }
                m.can_fit_rows(rect, look.font.cell_height)
            },
            _ => true,
        }
    }

    fn can_draw_messages(&self, font: Font) -> (b: bool)
        ensures
            b == forall|i: int|
                0 <= i < self@.toasts.len() ==> font.can_draw((#[trigger] self@.toasts[i]).text),
    {
        let mut i: usize = 0;
        while i < self.toasts.list.len()
            invariant
                i <= self.toasts.list@.len(),
                forall|k: int| 0 <= k < i ==> font.can_draw((#[trigger] self@.toasts[k]).text),
            decreases self.toasts.list@.len() - i,
        {
            if !font.fits(self.toasts.list[i].text.as_str()) {
                assert(!font.can_draw(self@.toasts[i as int].text));
                return false;
            }
            i += 1;
        }
        true
    }
}

/// The directory the sidebar is titled with.
fn shown_dir(e: &Explorer, home: &Option<String>) -> (title: String)
    ensures
        title@ == crate::proc::displayed(e@.dir, crate::strings::text_of(*home)),
{
    match home {
        Some(home) => display_path(e.dir(), Some(home.as_str())),
        None => display_path(e.dir(), None),
    }
}

impl App {
    fn draw_strip(&self, out: &mut Vec<Op>, p: &Places, look: &Look)
        requires
            look.texts_ok(),
            p.places_ok(),
        ensures
            OpModel::all(final(out)@) == OpModel::all(old(out)@) + self@.strip_ops(*p, *look),
    {
        if p.tab_bar.height == 0 {
            assert(OpModel::all(out@) =~= OpModel::all(old(out)@) + Seq::empty());
            return ;
        }
        let ghost before = OpModel::all(out@);
        let mut labels: Vec<TabLabel> = Vec::new();
        let mut i: usize = 0;
        while i < look.titles.len()
            invariant
                i <= look.titles@.len(),
                labels@.len() == i,
                forall|k: int| 0 <= k < i ==> (#[trigger] labels@[k])@ == self@.labels(*look)[k],
            decreases look.titles@.len() - i,
        {
            let hovered = match self.pointer.hovered_tab {
                Some(tab) => tab == i,
                None => false,
            };
            labels.push(
                TabLabel {
                    title: look.titles[i].as_str(),
                    active: i == look.active_tab,
                    has_activity: i < look.activity.len() && look.activity[i],
                    show_close: hovered,
                    close_hovered: hovered && self.pointer.hovered_close,
                },
            );
            i += 1;
        }
        assert(LabelModel::all(labels@) =~= self@.labels(*look));
        assert forall|k: int| 0 <= k < labels@.len() implies look.font.can_draw(
            (#[trigger] labels@[k]).title@,
        ) by {
            assert(labels@[k]@ == self@.labels(*look)[k]);
            assert(look.font.can_draw(look.titles@[k]@));
        }
        draw_tab_bar(
            out,
            p.tab_bar,
            p.tabs.as_slice(),
            p.tab_close.as_slice(),
            labels.as_slice(),
            look.font,
        );
        let lit = active_buttons(self.sidebar.is_some(), look.kind);
        draw_chrome_buttons(
            out,
            p.tab_bar,
            p.actions.as_slice(),
            self.pointer.hovered_button,
            self.pointer.pressed_button,
            lit.as_slice(),
        );
        if let Some(button) = self.pointer.hovered_button {
            if let Some(anchor) = p.find_button(button) {
                draw_tooltip(out, look.tooltip.as_str(), anchor, p.whole(), look.font);
            }
        }
        assert(OpModel::all(out@) =~= before + self@.strip_ops(*p, *look));
    }

    /// How segment `i` is drawn.
    fn segment_item<'a>(&self, look: &'a Look, i: usize) -> (item: StatusItem<'a>)
        requires
            i < look.right@.len(),
        ensures
            item@ == self@.item(*look, i as int),
    {
        let segment = &look.right[i];
        let text = segment.text.as_str();
        if segment.owner.is_some() {
            let place: usize = count_buttons(&look.right, i);
            if self.pointer.pressed_ide == Some(place) {
                return StatusItem {
                    text,
                    foreground: Some(look.palette.background.as_str()),
                    background: Some(look.palette.cursor.as_str()),
                };
            }
            if self.pointer.hovered_ide == Some(place) {
                return StatusItem {
                    text,
                    foreground: Some(look.palette.foreground.as_str()),
                    background: Some(look.palette.background_focused.as_str()),
                };
            }
        }
        StatusItem {
            text,
            foreground: match &segment.foreground {
                Some(color) => Some(color.as_str()),
                None => None,
            },
            background: match &segment.background {
                Some(color) => Some(color.as_str()),
                None => None,
            },
        }
    }

    fn draw_status(&self, out: &mut Vec<Op>, p: &Places, look: &Look) -> (found: Vec<(String, Rect)>)
        requires
            look.texts_ok(),
            p.places_ok(),
        ensures
            OpModel::all(final(out)@) == OpModel::all(old(out)@) + self@.status_ops(*p, *look),
            crate::app::hits(found@) == self@.segment_hits(*p, *look),
    {
        let mut right: Vec<StatusItem> = Vec::new();
        let mut i: usize = 0;
        while i < look.right.len()
            invariant
                i <= look.right@.len(),
                right@.len() == i,
                forall|k: int| 0 <= k < i ==> (#[trigger] right@[k])@ == self@.item(*look, k),
            decreases look.right@.len() - i,
        {
            right.push(self.segment_item(look, i));
            i += 1;
        }
        let mut left: Vec<StatusItem> = Vec::new();
        let mut k: usize = 0;
        while k < look.left.len()
            invariant
                k <= look.left@.len(),
                left@.len() == k,
                forall|j: int|
                    0 <= j < k ==> (#[trigger] left@[j])@ == AppModel::plain_items(*look)[j],
            decreases look.left@.len() - k,
        {
            left.push(
                StatusItem { text: look.left[k].as_str(), foreground: None, background: None },
            );
            k += 1;
        }
        assert(ItemModel::all(right@) =~= self@.items(*look));
        assert(ItemModel::all(left@) =~= AppModel::plain_items(*look));
        assert forall|j: int| 0 <= j < right@.len() implies look.font.can_draw(
            (#[trigger] right@[j]).text@,
        ) by {
            assert(right@[j]@ == self@.item(*look, j));
            assert(look.font.can_draw(look.right@[j].text@));
        }
        assert forall|j: int| 0 <= j < left@.len() implies look.font.can_draw(
            (#[trigger] left@[j]).text@,
        ) by {
            assert(left@[j]@ == AppModel::plain_items(*look)[j]);
            assert(look.font.can_draw(look.left@[j]@));
        }
        let rects = draw_status_bar(
            out,
            p.status_bar,
            left.as_slice(),
            right.as_slice(),
            look.font,
        );
        proof {
            crate::chrome::lemma_right_count(p.status_bar, self@.items(*look), look.font);
        }
        let mut found: Vec<(String, Rect)> = Vec::new();
        let mut n: usize = 0;
        assert(crate::app::hits(found@) =~= Seq::empty());
        while n < rects.len()
            invariant
                n <= rects@.len() <= look.right@.len(),
                crate::app::hits(found@) == pressable(look.right@, rects@, n as int),
            decreases rects@.len() - n,
        {
            let ghost so_far = crate::app::hits(found@);
            if let Some(id) = &look.right[n].owner {
                found.push((id.clone(), rects[n]));
                assert(crate::app::hits(found@) =~= so_far.push((id@, rects@[n as int])));
            }
            n += 1;
        }
        found
    }

    fn draw_sidebar(&self, out: &mut Vec<Op>, p: &Places, look: &Look)
        requires
            self@.wf(),
            self@.frame_ok(*p, *look),
        ensures
            OpModel::all(final(out)@) == OpModel::all(old(out)@) + self@.sidebar_ops(*p, *look),
    {
        if let Some(e) = &self.sidebar {
            if p.sidebar.width > 0 {
                let title = shown_dir(e, &look.home);
                let _ = draw_page(
                    out,
                    &e.ui,
                    p.sidebar,
                    title.as_str(),
                    Corners::Square,
                    look.font,
                );
                push_fill(
                    out,
                    Rect::new(p.sidebar.right() - 1, p.sidebar.y, 1, p.sidebar.height),
                    if self.sidebar_focused {
                        Tone::Cursor
                    } else {
                        Tone::SplitDivider
                    },
                    Blend::Opaque,
                );
            }
        }
        assert(OpModel::all(out@) =~= OpModel::all(old(out)@) + self@.sidebar_ops(*p, *look));
    }

    /// Draw the page on screen. Returns the run its rows are, and what it is limited to.
    fn draw_open_page(&self, out: &mut Vec<Op>, p: &Places, look: &Look) -> (rows: (usize, usize, Rect))
        requires
            self@.wf(),
            self@.frame_ok(*p, *look),
        ensures
            ({
                let pieces = self@.page_pieces(*p, *look);
                let start = old(out)@.len() + pieces.head.len();
                &&& OpModel::all(final(out)@) == OpModel::all(old(out)@) + pieces.all()
                &&& rows.0 == start
                &&& rows.1 == start + pieces.rows.len()
                &&& self@.open_page(look.kind) is Some && p.page() is Some ==> rows.2
                    == scroll_area(
                    crate::draw::title_body(p.page()->0, look.font),
                    self@.open_page(look.kind)->0.ui,
                )
            }),
    {
        let here: usize = out.len();
        if let Some(rect) = p.page_rect() {
            let font = look.font;
            match look.kind {
                TabKind::Terminal => {},
                TabKind::Settings => {
                    if let Some(ui) = &self.panel {
                        let corners = if p.status_bar.height > 0 {
                            Corners::Square
                        } else {
                            Corners::Bottom
                        };
                        let run = draw_page(out, ui, rect, "Tuzminal Settings", corners, font);
                        return (run.0, run.1, scrolling(ui, rect, font));
                    }
                },
                TabKind::Help => {
                    if let Some(page) = &self.help {
                        let run = draw_page(
                            out,
                            &page.ui,
                            rect,
                            "Shortcuts",
                            Corners::Bottom,
                            font,
                        );
                        return (run.0, run.1, scrolling(&page.ui, rect, font));
                    }
                },
                TabKind::Plugins => {
                    if let Some(page) = &self.plugins_page {
                        let run = draw_page(
                            out,
                            &page.ui,
                            rect,
                            "Plugins",
                            Corners::Bottom,
                            font,
                        );
                        return (run.0, run.1, scrolling(&page.ui, rect, font));
                    }
                },
            }
        }
        assert(OpModel::all(out@) =~= OpModel::all(old(out)@) + Pieces::none().all());
        (here, here, Rect::zero())
    }

    fn draw_open_menu(&self, out: &mut Vec<Op>, look: &Look)
        requires
            self@.wf(),
            self@.menu is Some && self@.menu_rect is Some ==> {
                &&& self@.menu->0.rows_fit(self@.menu_rect->0, look.font.cell_height)
                &&& forall|i: int|
                    0 <= i < self@.menu->0.items.len() ==> look.font.can_draw(
                        (#[trigger] self@.menu->0.items[i]).0,
                    )
            },
        ensures
            OpModel::all(final(out)@) == OpModel::all(old(out)@) + self@.menu_ops(*look),
    {
        if let (Some(m), Some(rect)) = (&self.menu, self.menu_rect) {
            let ghost wanted = Seq::new(
                m@.items.len(),
                |i: int| (Menu::row_in(rect, i, look.font.cell_height), m@.items[i].0),
            );
            proof {
                crate::menu::lemma_rows_below(m@, rect, look.font.cell_height);
            }
            let mut rows: Vec<(Rect, &str)> = Vec::new();
            let mut i: usize = 0;
            while i < m.items.len()
                invariant
                    i <= m.items@.len(),
                    m.rows_fit(rect, look.font.cell_height),
                    rows@.len() == i,
                    forall|k: int|
                        0 <= k < i ==> (#[trigger] rows@[k]).0 == Menu::row_in(
                            rect,
                            k,
                            look.font.cell_height,
                        ) && rows@[k].1@ == m@.items[k].0,
                decreases m.items@.len() - i,
            {
                rows.push(
                    (m.row_rect(rect, i, look.font.cell_height), m.items[i].label.as_str()),
                );
                i += 1;
            }
            assert(crate::draw::row_labels(rows@) =~= wanted);
            assert forall|k: int| 0 <= k < rows@.len() implies look.font.can_draw(
                (#[trigger] rows@[k]).1@,
            ) by {
                assert(look.font.can_draw(m@.items[k].0));
            }
            draw_menu(out, rect, rows.as_slice(), m.selected, look.font);
        }
        assert(OpModel::all(out@) =~= OpModel::all(old(out)@) + self@.menu_ops(*look));
    }

    fn draw_messages(&self, out: &mut Vec<Op>, p: &Places, look: &Look)
        requires
            look.texts_ok(),
            p.places_ok(),
            forall|i: int|
                0 <= i < self@.toasts.len() ==> look.font.can_draw(
                    (#[trigger] self@.toasts[i]).text,
                ),
        ensures
            OpModel::all(final(out)@) == OpModel::all(old(out)@) + self@.toast_ops(*p, *look),
    {
        let ghost wanted = self@.toast_list(look.now);
        let mut toasts: Vec<Toast> = Vec::new();
        let mut i: usize = 0;
        while i < self.toasts.list.len()
            invariant
                i <= self.toasts.list@.len(),
                wanted == self@.toast_list(look.now),
                toasts@.len() == i,
                forall|k: int| 0 <= k < i ==> (#[trigger] toasts@[k])@ == wanted[k],
            decreases self.toasts.list@.len() - i,
        {
            let message = &self.toasts.list[i];
            assert(self@.toasts[i as int] == message@);
            toasts.push(
                Toast {
                    text: message.text.as_str(),
                    accent: message.level.accent(),
                    opacity: message.opacity(look.now),
                },
            );
            i += 1;
        }
        assert(ToastModel::all(toasts@) =~= wanted);
        assert forall|k: int| 0 <= k < toasts@.len() implies look.font.can_draw(
            (#[trigger] toasts@[k]).text@,
        ) by {
            assert(toasts@[k]@ == wanted[k]);
            assert(look.font.can_draw(self@.toasts[k].text));
        }
        draw_toasts(out, toasts.as_slice(), p.whole(), look.font);
    }

    /// Draw everything over the panes. There is no frame when a text or a place is past
    /// what can be drawn.
    pub fn draw_frame(&self, p: &Places, look: &Look) -> (plan: Option<FramePlan>)
        requires
            self@.wf(),
        ensures
            match plan {
                Some(plan) => {
                    &&& self@.frame_ok(*p, *look)
                    &&& match plan.window {
                        Some(op) => look.rounded && op@ == (OpModel::Fill {
                            rect: p.window_rect(),
                            tone: Tone::Background,
                            blend: Blend::Window,
                            corners: Corners::All,
                        }),
                        None => !look.rounded,
                    }
                    &&& OpModel::all(plan.ops@) == self@.frame_ops(*p, *look)
                    &&& plan.steps@ == self@.frame_steps(*p, *look)
                    &&& crate::app::hits(plan.hits@) == self@.segment_hits(*p, *look)
                },
                None => !self@.frame_ok(*p, *look),
            },
    {
        if !self.can_draw_frame(p, look) {
            return None;
        }
        let window = if look.rounded {
            Some(
                Op::Fill {
                    rect: p.whole(),
                    tone: Tone::Background,
                    blend: Blend::Window,
                    corners: Corners::All,
                },
            )
        } else {
            None
        };
        let mut ops: Vec<Op> = Vec::new();
        assert(OpModel::all(ops@) =~= Seq::empty());
        draw_dividers(&mut ops, &p.dividers);
        self.draw_strip(&mut ops, p, look);
        let found = self.draw_status(&mut ops, p, look);
        self.draw_sidebar(&mut ops, p, look);
        assert(OpModel::all(ops@) =~= self@.under_page(*p, *look));
        assert(OpModel::all(ops@).len() == ops@.len());
        let (start, end, body) = self.draw_open_page(&mut ops, p, look);
        self.draw_open_menu(&mut ops, look);
        self.draw_messages(&mut ops, p, look);
        if look.border.millionths > 0 {
            push_op(
                &mut ops,
                Op::Ring {
                    rect: p.whole(),
                    tone: Tone::WindowBorder,
                    thickness: look.border,
                },
            );
        }
        assert(OpModel::all(ops@) =~= self@.frame_ops(*p, *look));
        assert(OpModel::all(ops@).len() == ops@.len());
        let mut steps: Vec<Step> = Vec::new();
        let whole = scissor_of(p.whole(), p.window);
        if ops.len() > 0 {
            if end > start {
                steps.push(Step { clip: whole, start: 0, end: start });
                steps.push(Step { clip: scissor_of(body, p.window), start, end });
                steps.push(Step { clip: whole, start: end, end: ops.len() });
            } else {
                steps.push(Step { clip: whole, start: 0, end: ops.len() });
            }
        }
        assert(steps@ =~= self@.frame_steps(*p, *look));
        Some(FramePlan { window, ops, steps, hits: found })
    }

    /// A frame was painted: remember where its pressable segments are.
    pub fn frame_drawn(&mut self, hits: Vec<(String, Rect)>)
        ensures
            final(self)@ == (AppModel { ide_hits: crate::app::hits(hits@), ..old(self)@ }),
    {
        self.ide_hits = hits;
        assert(self@ =~= AppModel { ide_hits: crate::app::hits(hits@), ..old(self)@ });
    }
}

// --- panes ------------------------------------------------------------------------

/// What a pane shows, limited to the area it owns so that an overhanging glyph cannot
/// bleed into a neighbour.
#[derive(Debug)]
pub struct PaneLayer {
    pub clip: Scissor,
    pub ops: Vec<PaneOp>,
}

/// A pane's layer as a mathematical value.
#[verifier::ext_equal]
pub struct LayerModel {
    pub clip: Scissor,
    pub ops: Seq<PaneOp>,
}

impl View for PaneLayer {
    type V = LayerModel;

    open spec fn view(&self) -> LayerModel {
        LayerModel { clip: self.clip, ops: self.ops@ }
    }
}

impl LayerModel {
    pub open spec fn all(layers: Seq<PaneLayer>) -> Seq<LayerModel> {
        Seq::new(layers.len(), |i: int| layers[i]@)
    }

    /// Where a pane's cells go.
    pub open spec fn geometry(place: PanePlace, font: Font) -> PaneGeometry {
        PaneGeometry {
            origin_x: (place.content.x * PIXEL) as i64,
            origin_y: (place.content.y * PIXEL) as i64,
            cell_width: (font.cell_width * PIXEL) as u64,
            cell_height: (font.cell_height * PIXEL) as u64,
        }
    }

    /// The layers of the first `n` panes. A pane without a terminal has none, nor has
    /// one that shows nothing.
    pub open spec fn of_panes(
        p: Places,
        screens: Seq<Option<TerminalFrame>>,
        font: Font,
        metrics: CellMetrics,
        n: int,
    ) -> Seq<LayerModel>
        decreases n,
    {
        if n <= 0 {
            Seq::empty()
        } else {
            let before = LayerModel::of_panes(p, screens, font, metrics, n - 1);
            let place = p.panes@[n - 1];
            match screens[n - 1] {
                Some(screen) => {
                    let ops = crate::instance::pane_ops(
                        screen,
                        LayerModel::geometry(place, font),
                        metrics,
                    );
                    if ops.len() > 0 {
                        before.push(LayerModel { clip: Scissor::of(place.rect, p.window), ops })
                    } else {
                        before
                    }
                },
                None => before,
            }
        }
    }
}

/// Draw what the panes show. `screens` holds what each pane's terminal shows, in the
/// order of the panes.
pub fn draw_panes(
    p: &Places,
    screens: &Vec<Option<TerminalFrame>>,
    font: Font,
    metrics: CellMetrics,
) -> (layers: Vec<PaneLayer>)
    requires
        screens@.len() == p.panes@.len(),
    ensures
        LayerModel::all(layers@) == LayerModel::of_panes(
            *p,
            screens@,
            font,
            metrics,
            p.panes@.len() as int,
        ),
{
    let mut layers: Vec<PaneLayer> = Vec::new();
    let mut i: usize = 0;
    assert(LayerModel::all(layers@) =~= Seq::empty());
    while i < p.panes.len()
        invariant
            i <= p.panes@.len(),
            screens@.len() == p.panes@.len(),
            LayerModel::all(layers@) == LayerModel::of_panes(
                *p,
                screens@,
                font,
                metrics,
                i as int,
            ),
        decreases p.panes@.len() - i,
    {
        let ghost before = LayerModel::all(layers@);
        let place = p.panes[i];
        if let Some(screen) = &screens[i] {
            let geom = PaneGeometry {
                origin_x: place.content.x as i64 * PIXEL,
                origin_y: place.content.y as i64 * PIXEL,
                cell_width: font.cell_width as u64 * PIXEL as u64,
                cell_height: font.cell_height as u64 * PIXEL as u64,
            };
            assert(geom == LayerModel::geometry(place, font));
            let mut ops: Vec<PaneOp> = Vec::new();
            let added: usize = build_pane(&mut ops, screen, geom, metrics);
            if added > 0 {
                let ghost shown = crate::instance::pane_ops(*screen, geom, metrics);
                assert(ops@ =~= shown);
                layers.push(PaneLayer { clip: scissor_of(place.rect, p.window), ops });
                assert(LayerModel::all(layers@) =~= before.push(
                    LayerModel { clip: Scissor::of(place.rect, p.window), ops: shown },
                ));
            }
        }
        i += 1;
    }
    layers
}

impl App {
    /// Whether a pane's cursor shows. One without the focus shows a steady cursor:
    /// blinking every split at once is noisy and hides which one has it.
    pub fn cursor_shows(&self, pane: u64, active: u64) -> (b: bool)
        ensures
            b == (self@.blink.on || pane != active),
    {
        self.blink.on || pane != active
    }
}

/// What comes before a frame is built.
#[derive(Debug, Clone, Copy, PartialEq, Eq, Structural)]
pub enum FrameStart {
    /// The window is closing: there is no tab left to draw.
    Closing,
    /// Plugins get a chance to refresh their status segments.
    AskPlugins,
    Build,
}

/// How a frame starts.
pub fn frame_start(tabs: usize, plugins: usize) -> (start: FrameStart)
    ensures
        start == (if tabs == 0 {
            FrameStart::Closing
        } else if plugins > 0 {
            FrameStart::AskPlugins
        } else {
            FrameStart::Build
        }),
{
    if tabs == 0 {
        FrameStart::Closing
    } else if plugins > 0 {
        FrameStart::AskPlugins
    } else {
        FrameStart::Build
    }
}

/// Whether a refresh of the status segments calls for a new layout: the first segment
/// appearing or the last one going changes the height that is reserved.
pub fn segments_changed(before: usize, after: usize) -> (b: bool)
    ensures
        b == ((before == 0) != (after == 0)),
{
    (before == 0) != (after == 0)
}

// --- laws -------------------------------------------------------------------------

/// The steps paint every operation exactly once and in order: each takes up where the
/// one before it ended, from the first to the last.
pub proof fn law_steps_paint_everything(app: AppModel, p: Places, look: Look, i: int)
    requires
        app.frame_ops(p, look).len() <= usize::MAX,
        0 <= i < app.frame_steps(p, look).len(),
    ensures
        ({
            let steps = app.frame_steps(p, look);
            &&& steps[0].start == 0
            &&& steps.last().end == app.frame_ops(p, look).len()
            &&& steps[i].start <= steps[i].end
            &&& i + 1 < steps.len() ==> steps[i].end == steps[i + 1].start
        }),
{
}

/// A frame that draws anything has steps, and one that draws nothing has none.
pub proof fn law_steps_are_there(app: AppModel, p: Places, look: Look)
    ensures
        (app.frame_steps(p, look).len() == 0) == (app.frame_ops(p, look).len() == 0),
{
}

/// A page's rows are limited to what is between its title and its footer, so a scrolled
/// list cannot draw over either.
pub proof fn law_rows_stay_between_title_and_footer(
    ui: UiModel,
    rows: Seq<WidgetModel>,
    footer: Seq<WidgetModel>,
    rect: Rect,
    font: Font,
)
    requires
        page_fits(ui, rows, footer, rect, font),
    ensures
        ({
            let laid = page_laid_out(ui, rows, footer, rect, font);
            let area = scroll_area(crate::draw::title_body(rect, font), laid);
            &&& area.y == crate::draw::title_bar(rect, font).bottom_spec()
            &&& area.bottom_spec() == laid.footer_area.y
            &&& area.x == rect.x
            &&& area.width == rect.width
            &&& area.bottom_spec() <= rect.bottom_spec()
        }),
{
}

/// A page's title starts where its rows do, at whatever size the font is.
pub proof fn law_titles_line_up_with_their_rows(
    ui: UiModel,
    rows: Seq<WidgetModel>,
    footer: Seq<WidgetModel>,
    rect: Rect,
    font: Font,
    i: int,
)
    requires
        page_fits(ui, rows, footer, rect, font),
        0 <= i < rows.len(),
    ensures
        page_laid_out(ui, rows, footer, rect, font).placed[i].rect.x == rect.x + title_inset(font),
{
}

/// A page never draws over a terminal: only the tab that holds it shows it.
pub proof fn law_pages_keep_to_their_tab(app: AppModel, p: Places, look: Look)
    requires
        look.kind is Terminal,
    ensures
        app.page_pieces(p, look) == Pieces::none(),
        app.frame_ops(p, look) == app.under_page(p, look) + app.over_page(p, look),
{
    assert(app.frame_ops(p, look) =~= app.under_page(p, look) + app.over_page(p, look));
}

/// Only the tab under the pointer offers to close: a stray click would cost a running
/// shell.
pub proof fn law_only_the_hovered_tab_closes(app: AppModel, look: Look, i: int)
    requires
        0 <= i < look.titles@.len() <= usize::MAX,
    ensures
        app.labels(look)[i].show_close <==> app.pointer.hovered_tab == Some(i as usize),
        app.labels(look)[i].close_hovered ==> app.labels(look)[i].show_close,
        app.labels(look)[i].show_close ==> forall|j: int|
            0 <= j < look.titles@.len() && j != i ==> !(#[trigger] app.labels(
                look,
            )[j]).show_close,
{
}

/// One tab at a time is marked as the one on screen.
pub proof fn law_one_tab_is_active(app: AppModel, look: Look, i: int, j: int)
    requires
        0 <= i < look.titles@.len(),
        0 <= j < look.titles@.len(),
        app.labels(look)[i].active,
        app.labels(look)[j].active,
    ensures
        i == j,
        i == look.active_tab,
{
}

/// The window's outline is painted over everything else.
pub proof fn law_border_is_last(app: AppModel, p: Places, look: Look)
    requires
        look.border@ > 0,
    ensures
        app.frame_ops(p, look).len() > 0,
        app.frame_ops(p, look).last() is Ring,
{
    let over = app.over_page(p, look);
    assert(over.last() is Ring);
    assert(app.frame_ops(p, look).last() == over.last());
}

proof fn lemma_pressable_place(segments: Seq<Segment>, rects: Seq<Rect>, i: int, n: int)
    requires
        0 <= i < n <= segments.len(),
        n <= rects.len(),
        segments[i].owner is Some,
    ensures
        pressable(segments, rects, n).len() == buttons_before(segments, n),
        buttons_before(segments, i) < pressable(segments, rects, n).len(),
        pressable(segments, rects, n)[buttons_before(segments, i) as int] == (
            segments[i].owner->0@,
            rects[i],
        ),
    decreases n,
{
    lemma_pressable_count(segments, rects, n - 1);
    if i < n - 1 {
        lemma_pressable_place(segments, rects, i, n - 1);
    }
}

proof fn lemma_pressable_count(segments: Seq<Segment>, rects: Seq<Rect>, n: int)
    requires
        0 <= n <= segments.len(),
        n <= rects.len(),
    ensures
        pressable(segments, rects, n).len() == buttons_before(segments, n),
    decreases n,
{
    if n > 0 {
        lemma_pressable_count(segments, rects, n - 1);
    }
}

/// The segment under the pointer is the one that lights up: where a segment that can be
/// pressed was drawn, its place among the pressable ones is the one it is lit by.
pub proof fn law_the_hovered_segment_lights_up(app: AppModel, p: Places, look: Look, i: int)
    requires
        p.status_bar.height > 0,
        0 <= i < crate::chrome::right_count(p.status_bar, app.items(look), look.font),
        look.right@[i].owner is Some,
        look.right@.len() <= usize::MAX,
        app.pointer.pressed_ide is None,
    ensures
        ({
            let place = buttons_before(look.right@, i) as int;
            &&& place < app.segment_hits(p, look).len()
            &&& app.segment_hits(p, look)[place] == (
                look.right@[i].owner->0@,
                crate::chrome::right_segment(p.status_bar, app.items(look), look.font, i),
            )
            &&& app.pointer.hovered_ide == Some(place as usize) ==> app.items(look)[i].background
                == Some(look.palette.background_focused@)
        }),
{
    let n = crate::chrome::right_count(p.status_bar, app.items(look), look.font);
    crate::chrome::lemma_right_count(p.status_bar, app.items(look), look.font);
    let rects = Seq::new(
        n as nat,
        |k: int| crate::chrome::right_segment(p.status_bar, app.items(look), look.font, k),
    );
    lemma_pressable_place(look.right@, rects, i, n);
}

proof fn lemma_pressable(segments: Seq<Segment>, rects: Seq<Rect>, n: int, k: int)
    requires
        0 <= n <= segments.len(),
        n <= rects.len(),
        0 <= k < pressable(segments, rects, n).len(),
    ensures
        exists|i: int|
            0 <= i < n && (#[trigger] segments[i]).owner is Some && pressable(segments, rects, n)[k]
                == (segments[i].owner->0@, rects[i]),
    decreases n,
{
    let before = pressable(segments, rects, n - 1);
    if k < before.len() {
        lemma_pressable(segments, rects, n - 1, k);
    } else {
        assert(segments[n - 1].owner is Some);
    }
}

/// A press is only ever claimed by a segment that has an owner, at the place where that
/// very segment was drawn.
pub proof fn law_text_swallows_no_press(app: AppModel, p: Places, look: Look, k: int)
    requires
        0 <= k < app.segment_hits(p, look).len(),
    ensures
        exists|i: int|
            0 <= i < look.right@.len() && (#[trigger] look.right@[i]).owner is Some
                && app.segment_hits(p, look)[k] == (
                look.right@[i].owner->0@,
                crate::chrome::right_segment(p.status_bar, app.items(look), look.font, i),
            ),
{
    let n = crate::chrome::right_count(p.status_bar, app.items(look), look.font);
    crate::chrome::lemma_right_count(p.status_bar, app.items(look), look.font);
    let rects = Seq::new(
        n as nat,
        |i: int| crate::chrome::right_segment(p.status_bar, app.items(look), look.font, i),
    );
    lemma_pressable(look.right@, rects, n, k);
}

} // verus!
