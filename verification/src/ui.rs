//! Layout, focus and hit-testing for a panel of widgets.
//!
//! Nothing is retained between frames except interaction state: which widget has
//! focus, which is hovered, which is held down, and how far the body is scrolled.

use vstd::prelude::*;
use vstd::string::*;

use crate::decimal::Fixed;
use crate::geometry::Rect;
use crate::strings::{insert_char, is_control, remove_char};
use crate::widget::{Widget, WidgetId, WidgetModel};

verus! {

/// A widget with its computed position.
#[derive(Debug, PartialEq)]
pub struct Placed {
    pub widget: Widget,
    /// The whole row.
    pub rect: Rect,
    /// The part holding the value. Clicking its left half decrements, its right half
    /// increments.
    pub value_rect: Rect,
}

/// A placed widget as a mathematical value.
#[verifier::ext_equal]
pub struct PlacedModel {
    pub widget: WidgetModel,
    pub rect: Rect,
    pub value_rect: Rect,
}

impl View for Placed {
    type V = PlacedModel;

    open spec fn view(&self) -> PlacedModel {
        PlacedModel { widget: self.widget@, rect: self.rect, value_rect: self.value_rect }
    }
}

impl Placed {
    /// The views of a list of placed widgets.
    pub open spec fn models(list: Seq<Placed>) -> Seq<PlacedModel> {
        Seq::new(list.len(), |i: int| list[i]@)
    }
}

/// What an interaction produced. Each variant carries the resulting value rather than
/// a delta.
#[derive(Debug, PartialEq)]
pub enum UiAction {
    Pressed(WidgetId),
    Toggled(WidgetId, bool),
    Selected(WidgetId, usize),
    Changed(WidgetId, Fixed),
    /// A text field's whole new contents.
    Edited(WidgetId, String),
}

/// An action as a mathematical value.
#[verifier::ext_equal]
pub enum ActionModel {
    Pressed(WidgetId),
    Toggled(WidgetId, bool),
    Selected(WidgetId, int),
    Changed(WidgetId, int),
    Edited(WidgetId, Seq<char>),
}

impl View for UiAction {
    type V = ActionModel;

    open spec fn view(&self) -> ActionModel {
        match *self {
            UiAction::Pressed(id) => ActionModel::Pressed(id),
            UiAction::Toggled(id, on) => ActionModel::Toggled(id, on),
            UiAction::Selected(id, index) => ActionModel::Selected(id, index as int),
            UiAction::Changed(id, value) => ActionModel::Changed(id, value@),
            UiAction::Edited(id, text) => ActionModel::Edited(id, text@),
        }
    }
}

impl ActionModel {
    pub open spec fn id(self) -> WidgetId {
        match self {
            ActionModel::Pressed(id) => id,
            ActionModel::Toggled(id, _) => id,
            ActionModel::Selected(id, _) => id,
            ActionModel::Changed(id, _) => id,
            ActionModel::Edited(id, _) => id,
        }
    }
}

impl UiAction {
    /// The view of an optional action.
    pub open spec fn model(action: Option<UiAction>) -> Option<ActionModel> {
        match action {
            Some(a) => Some(a@),
            None => None,
        }
    }

    /// The widget the action belongs to.
    pub fn id(&self) -> (id: WidgetId)
        ensures
            id == self@.id(),
    {
        match self {
            UiAction::Pressed(id) => *id,
            UiAction::Toggled(id, _) => *id,
            UiAction::Selected(id, _) => *id,
            UiAction::Changed(id, _) => *id,
            UiAction::Edited(id, _) => *id,
        }
    }
}

/// A key press the panel understands.
#[derive(Debug, Clone, Copy, PartialEq, Eq, Structural)]
pub enum UiKey {
    Tab,
    ShiftTab,
    Up,
    Down,
    Left,
    Right,
    Activate,
    Escape,
    /// Editing keys, meaningful only when a text field has focus.
    Backspace,
    Delete,
    Home,
    End,
}

/// How the panel responded to a key.
#[derive(Debug, PartialEq)]
pub enum KeyResponse {
    /// Focus moved, or nothing happened, but the key was consumed.
    Consumed,
    /// The key produced a value change.
    Action(UiAction),
    /// Escape: the caller should close the panel.
    Close,
}

/// A key response as a mathematical value.
#[verifier::ext_equal]
pub enum ResponseModel {
    Consumed,
    Action(ActionModel),
    Close,
}

impl View for KeyResponse {
    type V = ResponseModel;

    open spec fn view(&self) -> ResponseModel {
        match *self {
            KeyResponse::Consumed => ResponseModel::Consumed,
            KeyResponse::Action(action) => ResponseModel::Action(action@),
            KeyResponse::Close => ResponseModel::Close,
        }
    }
}

impl ResponseModel {
    pub open spec fn of(action: Option<ActionModel>) -> ResponseModel {
        match action {
            Some(a) => ResponseModel::Action(a),
            None => ResponseModel::Consumed,
        }
    }
}

/// Layout metrics, in pixels.
#[derive(Debug, Clone, Copy, PartialEq, Eq, Structural)]
pub struct Metrics {
    /// Height of one row.
    pub row_height: u32,
    /// Vertical gap between rows.
    pub row_gap: u32,
    /// Extra space above a heading, to separate groups.
    pub heading_space: u32,
    /// Inset from the panel edge.
    pub padding: u32,
    /// Width of the value column on the right.
    pub value_width: u32,
    /// Width of one character, for sizing a button to its label.
    pub char_width: u32,
}

impl Metrics {
    pub open spec fn of_cell(cell_width: int, cell_height: int) -> Metrics {
        Metrics {
            row_height: (cell_height + 6) as u32,
            row_gap: 2,
            heading_space: cell_height as u32,
            padding: cell_height as u32,
            value_width: (cell_height * 12) as u32,
            char_width: (if cell_width >= 1 { cell_width } else { 1 }) as u32,
        }
    }

    /// Metrics derived from the cell height, so the panel scales with the font. The
    /// character width is an estimate: cells are roughly half as wide as they are tall.
    pub fn from_cell_height(cell_height: u32) -> (m: Self)
        requires
            cell_height * 12 <= u32::MAX,
        ensures
            m == Metrics::of_cell((cell_height / 2) as int, cell_height as int),
    {
        Metrics {
            row_height: cell_height + 6,
            row_gap: 2,
            heading_space: cell_height,
            padding: cell_height,
            value_width: cell_height * 12,
            char_width: if cell_height / 2 >= 1 {
                cell_height / 2
            } else {
                1
            },
        }
    }

    /// Metrics from the real cell size, so a button sized to its label is exact.
    pub fn from_cell(cell_width: u32, cell_height: u32) -> (m: Self)
        requires
            cell_height * 12 <= u32::MAX,
        ensures
            m == Metrics::of_cell(cell_width as int, cell_height as int),
    {
        let base = Metrics::from_cell_height(cell_height);
        Metrics {
            row_height: base.row_height,
            row_gap: base.row_gap,
            heading_space: base.heading_space,
            padding: base.padding,
            value_width: base.value_width,
            char_width: if cell_width >= 1 {
                cell_width
            } else {
                1
            },
        }
    }

    /// How far the top of body row `i` is below the top of the first row: every row
    /// above it with its gap, and the extra space over each heading but a first one.
    pub open spec fn row_top(self, body: Seq<WidgetModel>, i: int) -> int
        decreases i,
    {
        if i <= 0 {
            0
        } else {
            self.row_top(body, i - 1) + self.row_height + self.row_gap + (if i < body.len()
                && body[i].is_heading() {
                self.heading_space as int
            } else {
                0
            })
        }
    }

    /// Height of a footer button: half again a body row.
    pub open spec fn footer_row(self) -> int {
        self.row_height + self.row_height / 2
    }

    /// Height of the whole footer band.
    pub open spec fn footer_height(self, footer: Seq<WidgetModel>) -> int {
        if footer.len() == 0 {
            0
        } else {
            (if UiModel::stacks(footer) {
                2 * self.footer_row()
            } else {
                self.footer_row()
            }) + 2 * self.padding
        }
    }

    /// Width of a footer button: its label, with three characters of room either side.
    pub open spec fn button_width(self, w: WidgetModel) -> int {
        w.caption().len() * self.char_width + 6 * self.char_width
    }

    /// How far footer button `i` starts to the right of the first one.
    pub open spec fn button_left(self, footer: Seq<WidgetModel>, i: int) -> int
        decreases i,
    {
        if i <= 0 {
            0
        } else {
            self.button_left(footer, i - 1) + self.button_width(footer[i - 1]) + 4 * self.row_gap
        }
    }

    /// Width of all footer buttons side by side.
    pub open spec fn buttons_width(self, footer: Seq<WidgetModel>) -> int {
        self.button_left(footer, footer.len() as int) - (if footer.len() > 0 {
            4 * self.row_gap
        } else {
            0
        })
    }
}

/// Height of a footer button. Half again a body row, so the page's actions carry more
/// weight than the settings above them.
pub fn footer_row_height(metrics: Metrics) -> (h: u32)
    requires
        metrics.footer_row() <= u32::MAX,
    ensures
        h == metrics.footer_row(),
{
    metrics.row_height + metrics.row_height / 2
}

/// Laid-out widgets plus interaction state, as a mathematical value.
#[verifier::ext_equal]
pub struct UiModel {
    pub placed: Seq<PlacedModel>,
    pub focus: Option<WidgetId>,
    pub hover: Option<WidgetId>,
    pub pressed: Option<WidgetId>,
    pub content_height: int,
    pub viewport_height: int,
    pub scroll: int,
    /// How many of `placed` scroll; the rest are the pinned footer.
    pub body_count: int,
    pub footer_area: Rect,
    pub body_area: Rect,
}

pub open spec fn at_least_zero(n: int) -> int {
    if n >= 0 {
        n
    } else {
        0
    }
}

pub open spec fn lesser(a: int, b: int) -> int {
    if a <= b {
        a
    } else {
        b
    }
}

pub open spec fn greater(a: int, b: int) -> int {
    if a >= b {
        a
    } else {
        b
    }
}

impl UiModel {
    pub open spec fn empty() -> UiModel {
        UiModel {
            placed: Seq::empty(),
            focus: None,
            hover: None,
            pressed: None,
            content_height: 0,
            viewport_height: 0,
            scroll: 0,
            body_count: 0,
            footer_area: Rect { x: 0, y: 0, width: 0, height: 0 },
            body_area: Rect { x: 0, y: 0, width: 0, height: 0 },
        }
    }

    /// What layout establishes and every interaction keeps.
    pub open spec fn wf(self) -> bool {
        &&& 0 <= self.body_count <= self.placed.len() <= usize::MAX
        &&& 0 <= self.scroll <= self.max_scroll()
        &&& 0 <= self.content_height <= i32::MAX
        &&& 0 <= self.viewport_height <= u32::MAX
        &&& self.body_area.fits()
        &&& self.footer_area.fits()
        &&& self.body_area.height + self.footer_area.height <= u32::MAX
        &&& forall|i: int|
            0 <= i < self.placed.len() ==> {
                &&& (#[trigger] self.placed[i]).widget.wf()
                &&& self.placed[i].rect.fits()
                &&& self.placed[i].value_rect.fits()
            }
    }

    /// The furthest the content can scroll: zero when everything already fits.
    pub open spec fn max_scroll(self) -> int {
        at_least_zero(self.content_height - self.viewport_height)
    }

    // --- layout ---------------------------------------------------------------

    /// Whether a footer is a lone editable prompt, whose label goes above its value.
    pub open spec fn stacks(footer: Seq<WidgetModel>) -> bool {
        footer.len() == 1 && (footer[0] is Text || footer[0] is Select || footer[0] is Stepper)
    }

    /// The width a body row gets.
    pub open spec fn row_width(area: Rect, m: Metrics) -> int {
        at_least_zero(area.width - 2 * m.padding)
    }

    /// The width of a body row's value column: never wide enough to reach the label.
    pub open spec fn value_column(area: Rect, m: Metrics) -> int {
        lesser(m.value_width as int, UiModel::row_width(area, m) * 2 / 3)
    }

    /// Body row `i` at scroll offset `scroll`.
    pub open spec fn body_row(
        body: Seq<WidgetModel>,
        area: Rect,
        m: Metrics,
        scroll: int,
        i: int,
    ) -> PlacedModel {
        let y = (area.y + m.padding - scroll + m.row_top(body, i)) as i32;
        let left = area.x + m.padding;
        let width = UiModel::row_width(area, m);
        let column = UiModel::value_column(area, m);
        PlacedModel {
            widget: body[i],
            rect: Rect { x: left as i32, y, width: width as u32, height: m.row_height },
            value_rect: Rect {
                x: (left + width - column) as i32,
                y,
                width: column as u32,
                height: m.row_height,
            },
        }
    }

    /// The width inside the footer band's padding.
    pub open spec fn footer_room(band: Rect, m: Metrics) -> int {
        at_least_zero(band.width - 2 * m.padding)
    }

    /// Where the first footer button starts: right-aligned when the buttons fit, at the
    /// left edge when they do not or when there is only one.
    pub open spec fn footer_start(footer: Seq<WidgetModel>, band: Rect, m: Metrics) -> int {
        if footer.len() == 1 || m.buttons_width(footer) >= UiModel::footer_room(band, m) {
            band.x + m.padding
        } else {
            band.x + band.width - m.padding - m.buttons_width(footer)
        }
    }

    /// Footer widget `i`, placed in the band.
    pub open spec fn footer_cell(
        footer: Seq<WidgetModel>,
        band: Rect,
        m: Metrics,
        i: int,
    ) -> PlacedModel {
        let widget = footer[i];
        let stacked = UiModel::stacks(footer);
        let width = if footer.len() == 1 {
            UiModel::footer_room(band, m)
        } else {
            m.button_width(widget)
        };
        let x = UiModel::footer_start(footer, band, m) + m.button_left(footer, i);
        let y = band.y + m.padding;
        let row = m.footer_row();
        let height = if stacked {
            2 * row
        } else {
            row
        };
        let rect = Rect { x: x as i32, y: y as i32, width: width as u32, height: height as u32 };
        let reserved = widget.caption().len() * m.char_width + 2 * m.char_width;
        let column = lesser(greater(at_least_zero(width - reserved), 4 * m.char_width), width);
        PlacedModel {
            widget,
            rect,
            value_rect: if widget is Button || widget is Label {
                rect
            } else if stacked {
                Rect {
                    x: x as i32,
                    y: (y + row) as i32,
                    width: width as u32,
                    height: row as u32,
                }
            } else {
                Rect {
                    x: (x + width - column) as i32,
                    y: y as i32,
                    width: column as u32,
                    height: height as u32,
                }
            },
        }
    }

    /// The area left for the body once the footer has its band.
    pub open spec fn body_area_of(footer: Seq<WidgetModel>, area: Rect, m: Metrics) -> Rect {
        Rect {
            x: area.x,
            y: area.y,
            width: area.width,
            height: at_least_zero(area.height - m.footer_height(footer)) as u32,
        }
    }

    /// The footer's band, under the body.
    pub open spec fn footer_area_of(footer: Seq<WidgetModel>, area: Rect, m: Metrics) -> Rect {
        let body = UiModel::body_area_of(footer, area, m);
        Rect {
            x: area.x,
            y: (body.y + body.height) as i32,
            width: area.width,
            height: m.footer_height(footer) as u32,
        }
    }

    /// The body rows, then the footer.
    pub open spec fn placed_rows(
        body: Seq<WidgetModel>,
        footer: Seq<WidgetModel>,
        area: Rect,
        m: Metrics,
        scroll: int,
    ) -> Seq<PlacedModel> {
        let body_area = UiModel::body_area_of(footer, area, m);
        let band = UiModel::footer_area_of(footer, area, m);
        Seq::new(body.len(), |i: int| UiModel::body_row(body, body_area, m, scroll, i)) + Seq::new(
            footer.len(),
            |i: int| UiModel::footer_cell(footer, band, m, i),
        )
    }

    /// The height the body needs.
    pub open spec fn content_of(body: Seq<WidgetModel>, m: Metrics) -> int {
        2 * m.padding + m.row_top(body, body.len() as int)
    }

    /// An id that is still among the rows.
    pub open spec fn kept(id: Option<WidgetId>, placed: Seq<PlacedModel>) -> Option<WidgetId> {
        match id {
            Some(w) => if UiModel::first_id(placed, w, placed.len() as int) is Some {
                Some(w)
            } else {
                None
            },
            None => None,
        }
    }

    /// A focus whose widget is still among the rows and can still take it.
    pub open spec fn kept_focus(id: Option<WidgetId>, placed: Seq<PlacedModel>) -> Option<WidgetId> {
        match id {
            Some(w) => match UiModel::first_id(placed, w, placed.len() as int) {
                Some(i) => if placed[i].widget.interactive() {
                    Some(w)
                } else {
                    None
                },
                None => None,
            },
            None => None,
        }
    }

    /// A scrolling body with a footer pinned under it. The scroll offset is kept as far
    /// as the content allows, hover as long as its widget is there, and focus as long as
    /// its widget is there and can take it.
    pub open spec fn laid_out(
        self,
        body: Seq<WidgetModel>,
        footer: Seq<WidgetModel>,
        area: Rect,
        m: Metrics,
    ) -> UiModel {
        let body_area = UiModel::body_area_of(footer, area, m);
        let content = UiModel::content_of(body, m);
        let scroll = lesser(self.scroll, at_least_zero(content - body_area.height));
        let placed = UiModel::placed_rows(body, footer, area, m, scroll);
        UiModel {
            placed,
            focus: UiModel::kept_focus(self.focus, placed),
            hover: UiModel::kept(self.hover, placed),
            pressed: self.pressed,
            content_height: content,
            viewport_height: body_area.height as int,
            scroll,
            body_count: body.len() as int,
            footer_area: UiModel::footer_area_of(footer, area, m),
            body_area,
        }
    }

    /// Every coordinate of the layout is a representable pixel position.
    pub open spec fn layout_fits(
        self,
        body: Seq<WidgetModel>,
        footer: Seq<WidgetModel>,
        area: Rect,
        m: Metrics,
    ) -> bool {
        &&& area.fits()
        &&& area.width <= i32::MAX
        &&& area.x + 2 * m.padding <= i32::MAX
        &&& 2 * m.padding <= i32::MAX
        &&& m.footer_row() <= i32::MAX
        &&& m.footer_height(footer) <= i32::MAX
        &&& area.y + m.footer_height(footer) <= i32::MAX
        &&& area.height + m.footer_height(footer) <= u32::MAX
        &&& m.row_height + m.row_gap <= i32::MAX
        &&& UiModel::content_of(body, m) <= i32::MAX
        &&& area.y + UiModel::content_of(body, m) <= i32::MAX
        &&& i32::MIN <= area.y + m.padding - self.scroll
        &&& footer.len() > 0 ==> {
            &&& m.button_left(footer, footer.len() as int) <= i32::MAX
            &&& area.x + m.padding + m.button_left(footer, footer.len() as int) <= i32::MAX
        }
        &&& body.len() + footer.len() <= usize::MAX
        &&& forall|i: int| 0 <= i < body.len() ==> (#[trigger] body[i]).wf()
        &&& forall|i: int| 0 <= i < footer.len() ==> (#[trigger] footer[i]).wf()
    }

    // --- lookup ---------------------------------------------------------------

    /// The first of the first `n` rows with this id.
    pub open spec fn first_id(placed: Seq<PlacedModel>, id: WidgetId, n: int) -> Option<int>
        decreases n,
    {
        if n <= 0 {
            None
        } else if UiModel::first_id(placed, id, n - 1) is Some {
            UiModel::first_id(placed, id, n - 1)
        } else if placed[n - 1].widget.id() == Some(id) {
            Some(n - 1)
        } else {
            None
        }
    }

    pub open spec fn index_of_id(self, id: WidgetId) -> Option<int> {
        UiModel::first_id(self.placed, id, self.placed.len() as int)
    }

    /// The row that has focus.
    pub open spec fn focus_index(self) -> Option<int> {
        match self.focus {
            Some(id) => self.index_of_id(id),
            None => None,
        }
    }

    /// Whether row `i` answers for a point: it is interactive, the point is on it, and
    /// if it scrolls the point is inside the viewport it is clipped to.
    pub open spec fn answers(self, i: int, x: int, y: int) -> bool {
        &&& self.placed[i].widget.interactive()
        &&& self.placed[i].rect.has(x, y)
        &&& i >= self.body_count || self.body_area.has(x, y)
    }

    /// The first of the first `n` rows that answers for a point.
    pub open spec fn first_hit(self, x: int, y: int, n: int) -> Option<int>
        decreases n,
    {
        if n <= 0 {
            None
        } else if self.first_hit(x, y, n - 1) is Some {
            self.first_hit(x, y, n - 1)
        } else if self.answers(n - 1, x, y) {
            Some(n - 1)
        } else {
            None
        }
    }

    pub open spec fn hit_index_spec(self, x: int, y: int) -> Option<int> {
        self.first_hit(x, y, self.placed.len() as int)
    }

    pub open spec fn hit_spec(self, x: int, y: int) -> Option<WidgetId> {
        match self.hit_index_spec(x, y) {
            Some(i) => self.placed[i].widget.id(),
            None => None,
        }
    }

    // --- focus order ----------------------------------------------------------

    /// The ids of the interactive rows among the first `n`, in order.
    pub open spec fn focus_order(placed: Seq<PlacedModel>, n: int) -> Seq<WidgetId>
        decreases n,
    {
        if n <= 0 {
            Seq::empty()
        } else {
            let rest = UiModel::focus_order(placed, n - 1);
            let widget = placed[n - 1].widget;
            if widget.interactive() && widget.id() is Some {
                rest.push(widget.id()->0)
            } else {
                rest
            }
        }
    }

    /// Where `id` first stands in `order`, among its first `n`.
    pub open spec fn position(order: Seq<WidgetId>, id: WidgetId, n: int) -> Option<int>
        decreases n,
    {
        if n <= 0 {
            None
        } else if UiModel::position(order, id, n - 1) is Some {
            UiModel::position(order, id, n - 1)
        } else if order[n - 1] == id {
            Some(n - 1)
        } else {
            None
        }
    }

    /// The widget after (or before) the focused one, wrapping; from nowhere, the first
    /// (or last) one.
    pub open spec fn next_focus(
        order: Seq<WidgetId>,
        focus: Option<WidgetId>,
        forward: bool,
    ) -> Option<WidgetId> {
        let n = order.len() as int;
        let at = match focus {
            Some(id) => UiModel::position(order, id, n),
            None => None,
        };
        if n == 0 {
            None
        } else {
            match at {
                Some(i) => Some(
                    if forward {
                        order[(i + 1) % n]
                    } else {
                        order[(i + n - 1) % n]
                    },
                ),
                None => Some(
                    if forward {
                        order[0]
                    } else {
                        order[n - 1]
                    },
                ),
            }
        }
    }

    pub open spec fn moved(self, forward: bool) -> UiModel {
        UiModel {
            focus: UiModel::next_focus(
                UiModel::focus_order(self.placed, self.placed.len() as int),
                self.focus,
                forward,
            ),
            ..self
        }
    }

    // --- interaction ----------------------------------------------------------

    /// Whether a widget is there to be focused.
    pub open spec fn can_focus(self, id: WidgetId) -> bool {
        match self.index_of_id(id) {
            Some(i) => self.placed[i].widget.interactive(),
            None => false,
        }
    }

    /// Focus on one widget, if it can take it.
    pub open spec fn focus_on(self, id: WidgetId) -> UiModel {
        if self.can_focus(id) {
            UiModel { focus: Some(id), ..self }
        } else {
            self
        }
    }

    /// Scrolled so the focused row is inside the body.
    pub open spec fn focus_shown(self) -> UiModel {
        self.scrolled(self.focus_offset(self.body_area))
    }

    /// Row `i` replaced by the same row holding another widget.
    pub open spec fn with_widget(self, i: int, widget: WidgetModel) -> UiModel {
        UiModel {
            placed: self.placed.update(i, PlacedModel { widget, ..self.placed[i] }),
            ..self
        }
    }

    /// A widget stepped in one direction: a `Select` wraps at both ends, a `Stepper`
    /// stops at them.
    pub open spec fn adjusted(widget: WidgetModel, forward: bool) -> Option<ActionModel> {
        match widget {
            WidgetModel::Select { id, options, index, .. } => {
                let n = options.len() as int;
                if n == 0 {
                    None
                } else if forward {
                    Some(ActionModel::Selected(id, (index + 1) % n))
                } else {
                    Some(ActionModel::Selected(id, (index + n - 1) % n))
                }
            },
            WidgetModel::Stepper { id, value, min, max, step, .. } => {
                let wanted = if forward {
                    value + step
                } else {
                    value - step
                };
                let next = greater(min, lesser(wanted, max));
                if next == value {
                    None
                } else {
                    Some(ActionModel::Changed(id, next))
                }
            },
            _ => None,
        }
    }

    /// What clicking row `i` at a point produces.
    pub open spec fn click_action(self, i: int, x: int, y: int) -> Option<ActionModel> {
        let row = self.placed[i];
        match row.widget {
            WidgetModel::Button { id, .. } => Some(ActionModel::Pressed(id)),
            WidgetModel::Entry { id, .. } => Some(ActionModel::Pressed(id)),
            WidgetModel::Toggle { id, on, .. } => Some(ActionModel::Toggled(id, !on)),
            WidgetModel::Select { .. } => if row.value_rect.has(x, y) {
                UiModel::adjusted(row.widget, x >= row.value_rect.center_x_spec())
            } else {
                None
            },
            WidgetModel::Stepper { .. } => if row.value_rect.has(x, y) {
                UiModel::adjusted(row.widget, x >= row.value_rect.center_x_spec())
            } else {
                None
            },
            _ => None,
        }
    }

    /// A click: focus moves to the row that answers, and its action is reported.
    pub open spec fn clicked(self, x: int, y: int) -> (UiModel, Option<ActionModel>) {
        match self.hit_index_spec(x, y) {
            Some(i) => (
                UiModel { focus: self.placed[i].widget.id(), ..self },
                self.click_action(i, x, y),
            ),
            None => (self, None),
        }
    }

    /// A text field after an editing key, and whether its value changed.
    pub open spec fn edited(widget: WidgetModel, key: UiKey) -> (WidgetModel, bool) {
        match widget {
            WidgetModel::Text { id, label, value, caret, placeholder } => {
                let moved_to = |c: int|
                    WidgetModel::Text { id, label, value, caret: c, placeholder };
                match key {
                    UiKey::Home => (moved_to(0), false),
                    UiKey::End => (moved_to(value.len() as int), false),
                    UiKey::Left => (moved_to(at_least_zero(caret - 1)), false),
                    UiKey::Right => (moved_to(lesser(caret + 1, value.len() as int)), false),
                    UiKey::Backspace => if caret > 0 {
                        (
                            WidgetModel::Text {
                                id,
                                label,
                                value: value.remove(caret - 1),
                                caret: caret - 1,
                                placeholder,
                            },
                            true,
                        )
                    } else {
                        (widget, false)
                    },
                    UiKey::Delete => if caret < value.len() {
                        (
                            WidgetModel::Text {
                                id,
                                label,
                                value: value.remove(caret),
                                caret,
                                placeholder,
                            },
                            true,
                        )
                    } else {
                        (widget, false)
                    },
                    _ => (widget, false),
                }
            },
            _ => (widget, false),
        }
    }

    /// An editing key on row `i`.
    pub open spec fn edit_row(self, i: int, key: UiKey) -> (UiModel, ResponseModel) {
        let (widget, changed) = UiModel::edited(self.placed[i].widget, key);
        (
            self.with_widget(i, widget),
            match widget {
                WidgetModel::Text { id, value, .. } => if changed {
                    ResponseModel::Action(ActionModel::Edited(id, value))
                } else {
                    ResponseModel::Consumed
                },
                _ => ResponseModel::Consumed,
            },
        )
    }

    /// A sideways key on row `i`: the caret in a text field, the value elsewhere.
    pub open spec fn sideways(self, i: int, key: UiKey) -> (UiModel, ResponseModel) {
        let forward = key == UiKey::Right;
        match self.placed[i].widget {
            WidgetModel::Text { .. } => self.edit_row(i, key),
            WidgetModel::Toggle { id, on, .. } => if on == forward {
                (self, ResponseModel::Consumed)
            } else {
                (self, ResponseModel::Action(ActionModel::Toggled(id, forward)))
            },
            _ => (self, ResponseModel::of(UiModel::adjusted(self.placed[i].widget, forward))),
        }
    }

    /// Enter on row `i`, if it can be activated at all.
    pub open spec fn activate(self, i: int) -> ResponseModel {
        if !self.placed[i].widget.interactive() {
            ResponseModel::Consumed
        } else {
            match self.placed[i].widget {
                WidgetModel::Button { id, .. } => ResponseModel::Action(ActionModel::Pressed(id)),
                WidgetModel::Entry { id, .. } => ResponseModel::Action(ActionModel::Pressed(id)),
                WidgetModel::Toggle { id, on, .. } => ResponseModel::Action(
                    ActionModel::Toggled(id, !on),
                ),
                _ => ResponseModel::of(UiModel::adjusted(self.placed[i].widget, true)),
            }
        }
    }

    /// A key press: Escape closes, Tab and the vertical arrows move focus, and the rest
    /// act on the focused row.
    pub open spec fn keyed(self, key: UiKey) -> (UiModel, ResponseModel) {
        match key {
            UiKey::Escape => (self, ResponseModel::Close),
            UiKey::Tab => (self.moved(true), ResponseModel::Consumed),
            UiKey::Down => (self.moved(true), ResponseModel::Consumed),
            UiKey::ShiftTab => (self.moved(false), ResponseModel::Consumed),
            UiKey::Up => (self.moved(false), ResponseModel::Consumed),
            _ => match self.focus_index() {
                None => (self, ResponseModel::Consumed),
                Some(i) => match key {
                    UiKey::Left => self.sideways(i, key),
                    UiKey::Right => self.sideways(i, key),
                    UiKey::Activate => (self, self.activate(i)),
                    _ => self.edit_row(i, key),
                },
            },
        }
    }

    /// A typed character: inserted at the caret of the focused text field, unless it is
    /// a control character.
    pub open spec fn typed(self, c: char) -> (UiModel, Option<ActionModel>) {
        if crate::strings::is_control_char(c) {
            (self, None)
        } else {
            match self.focus_index() {
                None => (self, None),
                Some(i) => match self.placed[i].widget {
                    WidgetModel::Text { id, label, value, caret, placeholder } => (
                        self.with_widget(
                            i,
                            WidgetModel::Text {
                                id,
                                label,
                                value: value.insert(caret, c),
                                caret: caret + 1,
                                placeholder,
                            },
                        ),
                        Some(ActionModel::Edited(id, value.insert(caret, c))),
                    ),
                    _ => (self, None),
                },
            }
        }
    }

    /// A typed text: its characters one after the other, and the last edit they made.
    pub open spec fn typed_text(self, text: Seq<char>) -> (UiModel, Option<ActionModel>)
        decreases text.len(),
    {
        if text.len() == 0 {
            (self, None)
        } else {
            let (before, edited) = self.typed_text(text.drop_last());
            let (after, edit) = before.typed(text.last());
            (
                after,
                if edit is Some {
                    edit
                } else {
                    edited
                },
            )
        }
    }

    /// The focused text field can take this many characters more.
    pub open spec fn room_for(self, n: int) -> bool {
        match self.focus_index() {
            Some(i) => match self.placed[i].widget {
                WidgetModel::Text { value, .. } => value.len() + n < usize::MAX,
                _ => true,
            },
            None => true,
        }
    }

    // --- scrolling ------------------------------------------------------------

    pub open spec fn scrolled(self, delta: int) -> UiModel {
        UiModel { scroll: greater(0, lesser(self.scroll + delta, self.max_scroll())), ..self }
    }

    /// How far the body has to move for the focused row to be inside `area`: nothing
    /// when there is no focus, or when the focused row is in the pinned footer.
    pub open spec fn focus_offset(self, area: Rect) -> int {
        match self.focus_index() {
            Some(i) => if i >= self.body_count {
                0
            } else {
                let rect = self.placed[i].rect;
                if rect.y < area.y {
                    rect.y - area.y
                } else if rect.bottom_spec() > area.bottom_spec() {
                    rect.bottom_spec() - area.bottom_spec()
                } else {
                    0
                }
            },
            None => 0,
        }
    }

    /// The viewport rows are clipped to, plus the footer.
    pub open spec fn viewport_spec(self) -> Rect {
        if self.footer_area.height == 0 {
            self.body_area
        } else {
            Rect {
                x: self.body_area.x,
                y: self.body_area.y,
                width: greater(self.body_area.width as int, self.footer_area.width as int) as u32,
                height: (self.body_area.height + self.footer_area.height) as u32,
            }
        }
    }
}

/// Laid-out widgets plus interaction state.
#[derive(Debug)]
pub struct Ui {
    placed: Vec<Placed>,
    focus: Option<WidgetId>,
    hover: Option<WidgetId>,
    pressed: Option<WidgetId>,
    content_height: u32,
    viewport_height: u32,
    scroll: u32,
    body_count: usize,
    footer_area: Rect,
    body_area: Rect,
}

impl View for Ui {
    type V = UiModel;

    closed spec fn view(&self) -> UiModel {
        UiModel {
            placed: Placed::models(self.placed@),
            focus: self.focus,
            hover: self.hover,
            pressed: self.pressed,
            content_height: self.content_height as int,
            viewport_height: self.viewport_height as int,
            scroll: self.scroll as int,
            body_count: self.body_count as int,
            footer_area: self.footer_area,
            body_area: self.body_area,
        }
    }
}

/// Whether a footer stacks its label above its value rather than beside it.
pub fn stacks_its_label(footer: &[Widget]) -> (b: bool)
    ensures
        b == UiModel::stacks(crate::widget::models(footer@)),
{
    if footer.len() != 1 {
        return false;
    }
    match &footer[0] {
        Widget::Text { .. } => true,
        Widget::Select { .. } => true,
        Widget::Stepper { .. } => true,
        _ => false,
    }
}

pub(crate) proof fn lemma_row_top_grows(m: Metrics, body: Seq<WidgetModel>, i: int, j: int)
    requires
        0 <= i <= j,
    ensures
        0 <= m.row_top(body, i) <= m.row_top(body, j),
        i < j ==> m.row_top(body, i) + m.row_height + m.row_gap <= m.row_top(body, j),
    decreases j,
{
    if i < j {
        lemma_row_top_grows(m, body, i, j - 1);
    } else if i > 0 {
        lemma_row_top_grows(m, body, i - 1, j - 1);
    }
}

pub(crate) proof fn lemma_button_left_grows(m: Metrics, footer: Seq<WidgetModel>, i: int, j: int)
    requires
        0 <= i <= j <= footer.len(),
    ensures
        0 <= m.button_left(footer, i) <= m.button_left(footer, j),
        i < j ==> m.button_left(footer, i) + m.button_width(footer[i]) + 4 * m.row_gap
            <= m.button_left(footer, j),
        i < j ==> 0 <= footer[i].caption().len() * m.char_width <= m.button_width(footer[i]),
    decreases j,
{
    if i < j {
        lemma_button_left_grows(m, footer, i, j - 1);
        let w = footer[j - 1];
        assert(w.caption().len() * m.char_width >= 0) by (nonlinear_arith);
        let v = footer[i];
        assert(v.caption().len() * m.char_width >= 0) by (nonlinear_arith);
    } else if i > 0 {
        lemma_button_left_grows(m, footer, i - 1, j - 1);
        let w = footer[j - 1];
        assert(w.caption().len() * m.char_width >= 0) by (nonlinear_arith);
    }
}

proof fn lemma_same_ids(a: Seq<PlacedModel>, b: Seq<PlacedModel>, id: WidgetId, n: int)
    requires
        a.len() == b.len(),
        0 <= n <= a.len(),
        forall|k: int| 0 <= k < a.len() ==> (#[trigger] a[k]).widget.id() == b[k].widget.id(),
    ensures
        UiModel::first_id(a, id, n) == UiModel::first_id(b, id, n),
    decreases n,
{
    if n > 0 {
        lemma_same_ids(a, b, id, n - 1);
        assert(a[n - 1].widget.id() == b[n - 1].widget.id());
    }
}

proof fn lemma_first_id_fits(placed: Seq<PlacedModel>, id: WidgetId, n: int)
    requires
        0 <= n <= placed.len(),
    ensures
        UiModel::first_id(placed, id, n) matches Some(i) ==> 0 <= i < n,
    decreases n,
{
    if n > 0 {
        lemma_first_id_fits(placed, id, n - 1);
    }
}

/// Typing one character leaves a well-formed page, with room for one fewer.
proof fn lemma_typed_room(ui: UiModel, c: char, n: int)
    requires
        ui.wf(),
        n > 0,
        ui.room_for(n),
    ensures
        ui.typed(c).0.wf(),
        ui.typed(c).0.room_for(n - 1),
{
    if let Some(i) = ui.focus_index() {
        let id = ui.focus->0;
        lemma_first_id_fits(ui.placed, id, ui.placed.len() as int);
        let after = ui.typed(c).0;
        if !crate::strings::is_control_char(c) && ui.placed[i].widget is Text {
            assert(after.placed.len() == ui.placed.len());
            assert forall|k: int| 0 <= k < ui.placed.len() implies (
            #[trigger] ui.placed[k]).widget.id() == after.placed[k].widget.id() by {}
            lemma_same_ids(ui.placed, after.placed, id, ui.placed.len() as int);
            assert forall|k: int| 0 <= k < after.placed.len() implies {
                &&& (#[trigger] after.placed[k]).widget.wf()
                &&& after.placed[k].rect.fits()
                &&& after.placed[k].value_rect.fits()
            } by {
                assert(ui.placed[k].widget.wf());
                if k == i {
                    if let WidgetModel::Text { value, caret, .. } = ui.placed[i].widget {
                        assert(value.insert(caret, c).len() == value.len() + 1);
                        assert(after.placed[k].rect == ui.placed[k].rect);
                    }
                } else {
                    assert(after.placed[k] == ui.placed[k]);
                }
            }
        }
    }
}

/// The height of all rows with their gaps and heading spaces.
fn rows_height(widgets: &[Widget], m: Metrics) -> (h: i64)
    requires
        m.row_top(crate::widget::models(widgets@), widgets@.len() as int) <= i32::MAX,
    ensures
        h == m.row_top(crate::widget::models(widgets@), widgets@.len() as int),
{
    let ghost body = crate::widget::models(widgets@);
    let mut h: i64 = 0;
    let mut i: usize = 0;
    while i < widgets.len()
        invariant
            i <= widgets@.len(),
            body == crate::widget::models(widgets@),
            m.row_top(body, widgets@.len() as int) <= i32::MAX,
            h == m.row_top(body, i as int),
        decreases widgets@.len() - i,
    {
        proof {
            lemma_row_top_grows(m, body, i as int, widgets@.len() as int);
            lemma_row_top_grows(m, body, i + 1, widgets@.len() as int);
        }
        h = h + m.row_height as i64 + m.row_gap as i64;
        i += 1;
        if i < widgets.len() && widgets[i].is_heading() {
            h = h + m.heading_space as i64;
        }
    }
    h
}

/// The width of a footer button.
fn button_width(widget: &Widget, m: Metrics) -> (w: i64)
    requires
        m.button_width(widget@) <= i32::MAX,
    ensures
        w == m.button_width(widget@),
        0 <= w,
{
    let chars: usize = widget.caption().unicode_len();
    proof {
        assert(chars * m.char_width >= 0) by (nonlinear_arith);
    }
    let text: u64 = chars as u64 * m.char_width as u64;
    text as i64 + 6 * m.char_width as i64
}

/// Whether every widget's numbers can be worked with.
fn all_sound(widgets: &[Widget]) -> (b: bool)
    ensures
        b == forall|i: int|
            0 <= i < widgets@.len() ==> (#[trigger] crate::widget::models(widgets@)[i]).wf(),
{
    let ghost all = crate::widget::models(widgets@);
    let mut i: usize = 0;
    while i < widgets.len()
        invariant
            i <= widgets@.len(),
            all == crate::widget::models(widgets@),
            forall|k: int| 0 <= k < i ==> (#[trigger] all[k]).wf(),
        decreases widgets@.len() - i,
    {
        if !widgets[i].is_sound() {
            assert(!all[i as int].wf());
            return false;
        }
        i += 1;
    }
    true
}

/// The height of the body rows, or nothing when it is no pixel count.
fn checked_rows_height(widgets: &[Widget], m: Metrics) -> (h: Option<i64>)
    ensures
        match h {
            Some(h) => h == m.row_top(crate::widget::models(widgets@), widgets@.len() as int) && h
                <= i32::MAX,
            None => m.row_top(crate::widget::models(widgets@), widgets@.len() as int) > i32::MAX,
        },
{
    let ghost body = crate::widget::models(widgets@);
    let mut h: i64 = 0;
    let mut i: usize = 0;
    while i < widgets.len()
        invariant
            i <= widgets@.len(),
            body == crate::widget::models(widgets@),
            0 <= h <= i32::MAX,
            h == m.row_top(body, i as int),
        decreases widgets@.len() - i,
    {
        h = h + m.row_height as i64 + m.row_gap as i64;
        i += 1;
        if i < widgets.len() && widgets[i].is_heading() {
            h = h + m.heading_space as i64;
        }
        if h > i32::MAX as i64 {
            proof {
                lemma_row_top_grows(m, body, i as int, widgets@.len() as int);
            }
            return None;
        }
    }
    Some(h)
}

/// The room the footer's buttons take, or nothing when it is no pixel count.
fn checked_buttons(footer: &[Widget], m: Metrics) -> (w: Option<i64>)
    ensures
        match w {
            Some(w) => w == m.button_left(crate::widget::models(footer@), footer@.len() as int)
                && 0 <= w <= i32::MAX,
            None => m.button_left(crate::widget::models(footer@), footer@.len() as int)
                > i32::MAX,
        },
{
    let ghost all = crate::widget::models(footer@);
    let mut w: i64 = 0;
    let mut i: usize = 0;
    while i < footer.len()
        invariant
            i <= footer@.len(),
            all == crate::widget::models(footer@),
            0 <= w <= i32::MAX,
            w == m.button_left(all, i as int),
        decreases footer@.len() - i,
    {
        let chars: usize = footer[i].caption().unicode_len();
        assert(all[i as int].caption().len() == chars);
        proof {
            assert(0 <= chars * m.char_width <= usize::MAX * u32::MAX) by (nonlinear_arith)
                requires
                    0 <= chars <= usize::MAX,
                    0 <= m.char_width <= u32::MAX,
            ;
        }
        let next: u128 = w as u128 + chars as u128 * m.char_width as u128 + 6 * m.char_width as u128
            + 4 * m.row_gap as u128;
        i += 1;
        assert(next == m.button_left(all, i as int));
        if next > i32::MAX as u128 {
            proof {
                lemma_button_left_grows(m, all, i as int, footer@.len() as int);
            }
            return None;
        }
        w = next as i64;
    }
    Some(w)
}

impl Ui {
    /// Whether rows can be laid out in an area: every coordinate is a pixel position.
    pub fn can_lay_out(
        &self,
        widgets: &[Widget],
        footer: &[Widget],
        area: Rect,
        metrics: Metrics,
    ) -> (b: bool)
        ensures
            b == self@.layout_fits(
                crate::widget::models(widgets@),
                crate::widget::models(footer@),
                area,
                metrics,
            ),
    {
        let most: i64 = i32::MAX as i64;
        let row: i64 = metrics.row_height as i64 + (metrics.row_height / 2) as i64;
        let padding: i64 = metrics.padding as i64;
        let band: i64 = if footer.len() == 0 {
            0
        } else if stacks_its_label(footer) {
            2 * row + 2 * padding
        } else {
            row + 2 * padding
        };
        let rows: i64 = match checked_rows_height(widgets, metrics) {
            Some(h) => h,
            None => {
                return false;
            },
        };
        proof {
            lemma_row_top_grows(metrics, crate::widget::models(widgets@), 0, widgets@.len() as int);
        }
        let content: i64 = rows + 2 * padding;
        let buttons_fit = if footer.len() == 0 {
            true
        } else {
            match checked_buttons(footer, metrics) {
                Some(w) => area.x as i64 + padding + w <= most,
                None => false,
            }
        };
        area.can_fit() && area.width as i64 <= most && area.x as i64 + 2 * padding <= most && 2
            * padding <= most && row <= most && band <= most && area.y as i64 + band <= most
            && area.height as i64 + band <= u32::MAX as i64 && metrics.row_height as i64
            + metrics.row_gap as i64 <= most && content <= most && area.y as i64 + content <= most
            && i32::MIN as i64 <= area.y as i64 + padding - self.scroll as i64 && buttons_fit
            && widgets.len() <= usize::MAX - footer.len() && all_sound(widgets) && all_sound(footer)
    }

    /// A panel with nothing in it.
    pub fn new() -> (ui: Self)
        ensures
            ui@ == UiModel::empty(),
            ui@.wf(),
    {
        let ui = Ui {
            placed: Vec::new(),
            focus: None,
            hover: None,
            pressed: None,
            content_height: 0,
            viewport_height: 0,
            scroll: 0,
            body_count: 0,
            footer_area: Rect::zero(),
            body_area: Rect::zero(),
        };
        assert(Placed::models(ui.placed@) =~= Seq::empty());
        ui
    }

    /// Position `widgets` inside `area`, preserving focus and hover by id.
    pub fn layout(&mut self, widgets: &[Widget], area: Rect, cell_height: u32)
        requires
            cell_height * 12 <= u32::MAX,
            old(self)@.wf(),
            old(self)@.layout_fits(
                crate::widget::models(widgets@),
                Seq::empty(),
                area,
                Metrics::of_cell((cell_height / 2) as int, cell_height as int),
            ),
        ensures
            final(self)@.wf(),
            final(self)@ == old(self)@.laid_out(
                crate::widget::models(widgets@),
                Seq::empty(),
                area,
                Metrics::of_cell((cell_height / 2) as int, cell_height as int),
            ),
    {
        self.layout_with(widgets, area, Metrics::from_cell_height(cell_height));
    }

    /// `layout` with explicit metrics.
    pub fn layout_with(&mut self, widgets: &[Widget], area: Rect, metrics: Metrics)
        requires
            old(self)@.wf(),
            old(self)@.layout_fits(crate::widget::models(widgets@), Seq::empty(), area, metrics),
        ensures
            final(self)@.wf(),
            final(self)@ == old(self)@.laid_out(
                crate::widget::models(widgets@),
                Seq::empty(),
                area,
                metrics,
            ),
    {
        let none: Vec<Widget> = Vec::new();
        assert(crate::widget::models(none@) =~= Seq::empty());
        self.layout_split_with(widgets, none.as_slice(), area, metrics);
    }

    /// Lay out a scrolling body with `footer` widgets side by side, pinned to the
    /// bottom.
    pub fn layout_split(
        &mut self,
        body: &[Widget],
        footer: &[Widget],
        area: Rect,
        cell_height: u32,
    )
        requires
            cell_height * 12 <= u32::MAX,
            old(self)@.wf(),
            old(self)@.layout_fits(
                crate::widget::models(body@),
                crate::widget::models(footer@),
                area,
                Metrics::of_cell((cell_height / 2) as int, cell_height as int),
            ),
        ensures
            final(self)@.wf(),
            final(self)@ == old(self)@.laid_out(
                crate::widget::models(body@),
                crate::widget::models(footer@),
                area,
                Metrics::of_cell((cell_height / 2) as int, cell_height as int),
            ),
    {
        self.layout_split_with(body, footer, area, Metrics::from_cell_height(cell_height));
    }

    /// `layout_split` with explicit metrics.
    ///
    /// The footer claims its band first, so the body never lays out underneath it. The
    /// scroll offset is corrected before any row is placed, so a panel that shrank is
    /// never shown scrolled past its end.
    pub fn layout_split_with(
        &mut self,
        widgets: &[Widget],
        footer: &[Widget],
        area: Rect,
        metrics: Metrics,
    )
        requires
            old(self)@.wf(),
            old(self)@.layout_fits(
                crate::widget::models(widgets@),
                crate::widget::models(footer@),
                area,
                metrics,
            ),
        ensures
            final(self)@.wf(),
            final(self)@ == old(self)@.laid_out(
                crate::widget::models(widgets@),
                crate::widget::models(footer@),
                area,
                metrics,
            ),
    {
        let ghost body_model = crate::widget::models(widgets@);
        let ghost footer_model = crate::widget::models(footer@);
        let ghost before = self@;

        let row: u32 = footer_row_height(metrics);
        let footer_height: u32 = if footer.len() == 0 {
            0
        } else if stacks_its_label(footer) {
            row * 2 + metrics.padding * 2
        } else {
            row + metrics.padding * 2
        };
        let body_height: u32 = area.height.saturating_sub(footer_height);
        let body_area = Rect::new(area.x, area.y, area.width, body_height);
        let footer_area = Rect::new(area.x, body_area.bottom(), area.width, footer_height);
        assert(body_area == UiModel::body_area_of(footer_model, area, metrics));
        assert(footer_area == UiModel::footer_area_of(footer_model, area, metrics));

        let rows: i64 = rows_height(widgets, metrics);
        proof {
            lemma_row_top_grows(metrics, body_model, 0, widgets@.len() as int);
        }
        let content: i64 = rows + 2 * metrics.padding as i64;
        let max: i64 = if content > body_height as i64 {
            content - body_height as i64
        } else {
            0
        };
        let scroll: i64 = if self.scroll as i64 <= max {
            self.scroll as i64
        } else {
            max
        };

        self.placed = Vec::new();
        self.place_body(widgets, body_area, metrics, scroll);
        self.place_footer(footer, footer_area, metrics);
        self.content_height = content as u32;
        self.viewport_height = body_height;
        self.scroll = scroll as u32;
        self.body_count = widgets.len();
        self.footer_area = footer_area;
        self.body_area = body_area;

        assert(self@.placed =~= UiModel::placed_rows(
            body_model,
            footer_model,
            area,
            metrics,
            scroll as int,
        ));

        // Focus and hover survive as long as the widget they refer to is there, and focus
        // only while that widget can take it.
        if let Some(id) = self.focus {
            let takes_it = match self.index_of(id) {
                Some(i) => self.placed[i].widget.is_interactive(),
                None => false,
            };
            if !takes_it {
                self.focus = None;
            }
        }
        if let Some(id) = self.hover {
            if self.index_of(id).is_none() {
                self.hover = None;
            }
        }
        proof {
            let placed = UiModel::placed_rows(
                body_model,
                footer_model,
                area,
                metrics,
                scroll as int,
            );
            assert(self@ =~= before.laid_out(body_model, footer_model, area, metrics));
            assert forall|i: int| 0 <= i < placed.len() implies {
                &&& (#[trigger] placed[i]).widget.wf()
                &&& placed[i].rect.fits()
                &&& placed[i].value_rect.fits()
            } by {
                if i < widgets@.len() {
                    lemma_body_row_fits(before, body_model, footer_model, area, metrics, scroll as int, i);
                } else {
                    lemma_footer_cell_fits(before, body_model, footer_model, area, metrics, i - widgets@.len());
                }
            }
        }
    }

    /// Append the body rows.
    fn place_body(&mut self, widgets: &[Widget], area: Rect, metrics: Metrics, scroll: i64)
        requires
            old(self)@.placed.len() == 0,
            area.x + 2 * metrics.padding <= i32::MAX,
            2 * metrics.padding <= i32::MAX,
            area.fits(),
            area.width <= i32::MAX,
            0 <= scroll <= i32::MAX,
            i32::MIN <= area.y + metrics.padding - scroll,
            area.y + UiModel::content_of(crate::widget::models(widgets@), metrics) <= i32::MAX,
            UiModel::content_of(crate::widget::models(widgets@), metrics) <= i32::MAX,
        ensures
            final(self)@ == (UiModel {
                placed: Seq::new(
                    widgets@.len(),
                    |i: int|
                        UiModel::body_row(
                            crate::widget::models(widgets@),
                            area,
                            metrics,
                            scroll as int,
                            i,
                        ),
                ),
                ..old(self)@
            }),
    {
        let ghost body = crate::widget::models(widgets@);
        let ghost before = self@;
        let left: i32 = (area.x as i64 + metrics.padding as i64) as i32;
        let width: u32 = area.width.saturating_sub(metrics.padding * 2);
        let third: u32 = width * 2 / 3;
        let column: u32 = if metrics.value_width <= third {
            metrics.value_width
        } else {
            third
        };
        let value_x: i32 = (left as i64 + width as i64 - column as i64) as i32;
        let mut y: i64 = area.y as i64 + metrics.padding as i64 - scroll;
        let mut i: usize = 0;
        while i < widgets.len()
            invariant
                i <= widgets@.len(),
                body == crate::widget::models(widgets@),
                area.fits(),
                area.width <= i32::MAX,
                area.x + 2 * metrics.padding <= i32::MAX,
                2 * metrics.padding <= i32::MAX,
                0 <= scroll <= i32::MAX,
                i32::MIN <= area.y + metrics.padding - scroll,
                area.y + UiModel::content_of(body, metrics) <= i32::MAX,
                UiModel::content_of(body, metrics) <= i32::MAX,
                left == area.x + metrics.padding,
                width == UiModel::row_width(area, metrics),
                column == UiModel::value_column(area, metrics),
                value_x == left + width - column,
                y == area.y + metrics.padding - scroll + metrics.row_top(body, i as int),
                self@.placed.len() == i,
                forall|j: int|
                    0 <= j < i ==> #[trigger] self@.placed[j] == UiModel::body_row(
                        body,
                        area,
                        metrics,
                        scroll as int,
                        j,
                    ),
                self@ == (UiModel { placed: self@.placed, ..before }),
            decreases widgets@.len() - i,
        {
            proof {
                lemma_row_top_grows(metrics, body, 0, i as int);
                lemma_row_top_grows(metrics, body, i as int, widgets@.len() as int);
                lemma_row_top_grows(metrics, body, i + 1, widgets@.len() as int);
            }
            let rect = Rect::new(left, y as i32, width, metrics.row_height);
            let value_rect = Rect::new(value_x, y as i32, column, metrics.row_height);
            let ghost old_placed = self.placed@;
            self.placed.push(Placed { widget: widgets[i].clone(), rect, value_rect });
            assert(self@.placed =~= Placed::models(old_placed).push(self.placed@[i as int]@));
            y = y + metrics.row_height as i64 + metrics.row_gap as i64;
            i += 1;
            if i < widgets.len() && widgets[i].is_heading() {
                y = y + metrics.heading_space as i64;
            }
        }
        assert(self@.placed =~= Seq::new(
            widgets@.len(),
            |i: int| UiModel::body_row(body, area, metrics, scroll as int, i),
        ));
    }

    /// Append the footer widgets, in a row across the pinned band.
    ///
    /// Each button is sized to its own label and the row is pushed to the right. A lone
    /// widget is a prompt and gets the whole band.
    fn place_footer(&mut self, footer: &[Widget], band: Rect, metrics: Metrics)
        requires
            footer@.len() > 0 ==> {
                let cells = crate::widget::models(footer@);
                &&& band.fits()
                &&& band.width <= i32::MAX
                &&& 2 * metrics.padding <= i32::MAX
                &&& band.x + 2 * metrics.padding <= i32::MAX
                &&& band.height == metrics.footer_height(cells)
                &&& metrics.footer_row() <= i32::MAX
                &&& metrics.footer_height(cells) <= i32::MAX
                &&& metrics.button_left(cells, footer@.len() as int) <= i32::MAX
                &&& band.x + metrics.padding + metrics.button_left(cells, footer@.len() as int)
                    <= i32::MAX
            },
        ensures
            final(self)@ == (UiModel {
                placed: old(self)@.placed + Seq::new(
                    footer@.len(),
                    |i: int|
                        UiModel::footer_cell(crate::widget::models(footer@), band, metrics, i),
                ),
                ..old(self)@
            }),
    {
        let ghost cells = crate::widget::models(footer@);
        let ghost before = self@;
        if footer.len() == 0 {
            assert(self@.placed =~= before.placed + Seq::new(
                0,
                |i: int| UiModel::footer_cell(cells, band, metrics, i),
            ));
            return ;
        }
        let gap: i64 = 4 * metrics.row_gap as i64;

        // The width of all buttons side by side.
        let mut total: i64 = 0;
        let mut k: usize = 0;
        while k < footer.len()
            invariant
                k <= footer@.len(),
                cells == crate::widget::models(footer@),
                gap == 4 * metrics.row_gap,
                metrics.button_left(cells, footer@.len() as int) <= i32::MAX,
                total == metrics.button_left(cells, k as int),
            decreases footer@.len() - k,
        {
            proof {
                lemma_button_left_grows(metrics, cells, k as int, footer@.len() as int);
                lemma_button_left_grows(metrics, cells, k + 1, footer@.len() as int);
            }
            total = total + button_width(&footer[k], metrics) + gap;
            k += 1;
        }
        proof {
            lemma_button_left_grows(metrics, cells, 0, footer@.len() as int);
        }
        total = total - gap;

        let room: u32 = band.width.saturating_sub(metrics.padding * 2);
        let sole = footer.len() == 1;
        let stacked = stacks_its_label(footer);
        let start: i64 = if sole || total >= room as i64 {
            band.x as i64 + metrics.padding as i64
        } else {
            band.x as i64 + band.width as i64 - metrics.padding as i64 - total
        };
        assert(start == UiModel::footer_start(cells, band, metrics));
        let row: u32 = footer_row_height(metrics);
        let height: u32 = if stacked {
            row * 2
        } else {
            row
        };
        let y: i32 = (band.y as i64 + metrics.padding as i64) as i32;

        let mut x: i64 = start;
        let mut i: usize = 0;
        while i < footer.len()
            invariant
                i <= footer@.len(),
                cells == crate::widget::models(footer@),
                footer@.len() > 0,
                band.fits(),
                band.width <= i32::MAX,
                2 * metrics.padding <= i32::MAX,
                band.x + 2 * metrics.padding <= i32::MAX,
                band.height == metrics.footer_height(cells),
                metrics.footer_row() <= i32::MAX,
                metrics.button_left(cells, footer@.len() as int) <= i32::MAX,
                band.x + metrics.padding + metrics.button_left(cells, footer@.len() as int)
                    <= i32::MAX,
                gap == 4 * metrics.row_gap,
                room == UiModel::footer_room(band, metrics),
                sole == (footer@.len() == 1),
                stacked == UiModel::stacks(cells),
                start == UiModel::footer_start(cells, band, metrics),
                row == metrics.footer_row(),
                height == (if stacked {
                    2 * row
                } else {
                    row as int
                }),
                y == band.y + metrics.padding,
                !sole || i == 0 ==> x == start + metrics.button_left(cells, i as int),
                self@.placed.len() == before.placed.len() + i,
                forall|j: int|
                    0 <= j < before.placed.len() ==> #[trigger] self@.placed[j]
                        == before.placed[j],
                forall|j: int|
                    before.placed.len() <= j < self@.placed.len() ==> #[trigger] self@.placed[j]
                        == UiModel::footer_cell(cells, band, metrics, j - before.placed.len()),
                self@ == (UiModel { placed: self@.placed, ..before }),
            decreases footer@.len() - i,
        {
            proof {
                lemma_button_left_grows(metrics, cells, 0, i as int);
                lemma_button_left_grows(metrics, cells, i as int, footer@.len() as int);
                lemma_button_left_grows(metrics, cells, i + 1, footer@.len() as int);
            }
            let own: i64 = button_width(&footer[i], metrics);
            let width: u32 = if sole {
                room
            } else {
                own as u32
            };
            let rect = Rect::new(x as i32, y, width, height);
            let plain = match &footer[i] {
                Widget::Button { .. } => true,
                Widget::Label { .. } => true,
                _ => false,
            };
            let value_rect = if plain {
                rect
            } else if stacked {
                // The lower row, full width: the label goes above it.
                Rect::new(x as i32, (y as i64 + row as i64) as i32, width, row)
            } else {
                // Measured off the label that is actually there, because the label is
                // the only thing competing with the value.
                let reserved: i64 = own - 4 * metrics.char_width as i64;
                let rest: i64 = if width as i64 > reserved {
                    width as i64 - reserved
                } else {
                    0
                };
                let least: i64 = 4 * metrics.char_width as i64;
                let wanted: i64 = if rest >= least {
                    rest
                } else {
                    least
                };
                let column: i64 = if wanted <= width as i64 {
                    wanted
                } else {
                    width as i64
                };
                Rect::new((x + width as i64 - column) as i32, y, column as u32, height)
            };
            let ghost old_placed = self.placed@;
            self.placed.push(Placed { widget: footer[i].clone(), rect, value_rect });
            assert(self@.placed =~= Placed::models(old_placed).push(
                self.placed@[old_placed.len() as int]@,
            ));
            x = x + width as i64 + gap;
            i += 1;
        }
        assert(self@.placed =~= before.placed + Seq::new(
            footer@.len(),
            |i: int| UiModel::footer_cell(cells, band, metrics, i),
        ));
    }

    /// The first row with this id.
    fn index_of(&self, id: WidgetId) -> (r: Option<usize>)
        ensures
            match r {
                Some(i) => self@.index_of_id(id) == Some(i as int) && i < self@.placed.len(),
                None => self@.index_of_id(id) is None,
            },
    {
        let mut i: usize = 0;
        while i < self.placed.len()
            invariant
                i <= self.placed.len(),
                UiModel::first_id(self@.placed, id, i as int) is None,
            decreases self.placed.len() - i,
        {
            if self.placed[i].widget.id() == Some(id) {
                proof {
                    lemma_first_id_stays(self@.placed, id, i + 1, self@.placed.len() as int);
                }
                return Some(i);
            }
            i += 1;
        }
        None
    }
}

pub(crate) proof fn lemma_first_id_stays(placed: Seq<PlacedModel>, id: WidgetId, i: int, n: int)
    requires
        0 <= i <= n,
        UiModel::first_id(placed, id, i) is Some,
    ensures
        UiModel::first_id(placed, id, n) == UiModel::first_id(placed, id, i),
    decreases n,
{
    if i < n {
        lemma_first_id_stays(placed, id, i, n - 1);
    }
}

pub(crate) proof fn lemma_body_row_fits(
    ui: UiModel,
    body: Seq<WidgetModel>,
    footer: Seq<WidgetModel>,
    area: Rect,
    m: Metrics,
    scroll: int,
    i: int,
)
    requires
        ui.layout_fits(body, footer, area, m),
        0 <= scroll <= ui.scroll,
        0 <= i < body.len(),
    ensures
        ({
            let row = UiModel::body_row(body, UiModel::body_area_of(footer, area, m), m, scroll, i);
            row.rect.fits() && row.value_rect.fits()
        }),
{
    lemma_row_top_grows(m, body, 0, i);
    lemma_row_top_grows(m, body, i, body.len() as int);
}

pub(crate) proof fn lemma_footer_cell_fits(
    ui: UiModel,
    body: Seq<WidgetModel>,
    footer: Seq<WidgetModel>,
    area: Rect,
    m: Metrics,
    i: int,
)
    requires
        ui.layout_fits(body, footer, area, m),
        0 <= i < footer.len(),
    ensures
        ({
            let band = UiModel::footer_area_of(footer, area, m);
            let cell = UiModel::footer_cell(footer, band, m, i);
            cell.rect.fits() && cell.value_rect.fits()
        }),
{
    lemma_button_left_grows(m, footer, 0, i);
    lemma_button_left_grows(m, footer, i, footer.len() as int);
}

pub(crate) proof fn lemma_first_id_bounds(placed: Seq<PlacedModel>, id: WidgetId, n: int)
    requires
        0 <= n <= placed.len(),
    ensures
        match UiModel::first_id(placed, id, n) {
            Some(i) => 0 <= i < n && placed[i].widget.id() == Some(id) && forall|j: int|
                0 <= j < i ==> (#[trigger] placed[j]).widget.id() != Some(id),
            None => forall|j: int| 0 <= j < n ==> (#[trigger] placed[j]).widget.id() != Some(id),
        },
    decreases n,
{
    if n > 0 {
        lemma_first_id_bounds(placed, id, n - 1);
    }
}

pub(crate) proof fn lemma_first_hit_stays(ui: UiModel, x: int, y: int, i: int, n: int)
    requires
        0 <= i <= n,
        ui.first_hit(x, y, i) is Some,
    ensures
        ui.first_hit(x, y, n) == ui.first_hit(x, y, i),
    decreases n,
{
    if i < n {
        lemma_first_hit_stays(ui, x, y, i, n - 1);
    }
}

pub(crate) proof fn lemma_first_hit_bounds(ui: UiModel, x: int, y: int, n: int)
    requires
        0 <= n <= ui.placed.len(),
    ensures
        match ui.first_hit(x, y, n) {
            Some(i) => 0 <= i < n && ui.answers(i, x, y) && forall|j: int|
                0 <= j < i ==> !#[trigger] ui.answers(j, x, y),
            None => forall|j: int| 0 <= j < n ==> !#[trigger] ui.answers(j, x, y),
        },
    decreases n,
{
    if n > 0 {
        lemma_first_hit_bounds(ui, x, y, n - 1);
    }
}

pub(crate) proof fn lemma_position_stays(order: Seq<WidgetId>, id: WidgetId, i: int, n: int)
    requires
        0 <= i <= n,
        UiModel::position(order, id, i) is Some,
    ensures
        UiModel::position(order, id, n) == UiModel::position(order, id, i),
    decreases n,
{
    if i < n {
        lemma_position_stays(order, id, i, n - 1);
    }
}

pub(crate) proof fn lemma_position_bounds(order: Seq<WidgetId>, id: WidgetId, n: int)
    requires
        0 <= n <= order.len(),
    ensures
        match UiModel::position(order, id, n) {
            Some(i) => 0 <= i < n && order[i] == id && forall|j: int|
                0 <= j < i ==> #[trigger] order[j] != id,
            None => forall|j: int| 0 <= j < n ==> #[trigger] order[j] != id,
        },
    decreases n,
{
    if n > 0 {
        lemma_position_bounds(order, id, n - 1);
    }
}

/// One step forward or back on a ring of `n` places.
pub(crate) proof fn lemma_wrapping(c: int, n: int)
    requires
        0 <= c < n,
    ensures
        (c + 1) % n == (if c + 1 == n {
            0
        } else {
            c + 1
        }),
        (c + n - 1) % n == (if c == 0 {
            n - 1
        } else {
            c - 1
        }),
{
    vstd::arithmetic::div_mod::lemma_mod_self_0(n);
    if c + 1 < n {
        vstd::arithmetic::div_mod::lemma_small_mod((c + 1) as nat, n as nat);
    }
    if c == 0 {
        vstd::arithmetic::div_mod::lemma_small_mod((n - 1) as nat, n as nat);
    } else {
        vstd::arithmetic::div_mod::lemma_small_mod((c - 1) as nat, n as nat);
        vstd::arithmetic::div_mod::lemma_mod_add_multiples_vanish(c - 1, n);
    }
}

/// Step a `Select` or `Stepper` in one direction. A stepper at the end of its range
/// reports nothing rather than a change that did not happen.
fn adjust(widget: &Widget, forward: bool) -> (action: Option<UiAction>)
    requires
        widget@.wf(),
    ensures
        UiAction::model(action) == UiModel::adjusted(widget@, forward),
{
    match widget {
        Widget::Select { id, options, index, .. } => {
            let n: usize = options.len();
            if n == 0 {
                return None;
            }
            let next: usize = if forward {
                (*index + 1) % n
            } else {
                (*index + n - 1) % n
            };
            Some(UiAction::Selected(*id, next))
        },
        Widget::Stepper { id, value, min, max, step, .. } => {
            let wanted: i64 = if forward {
                value.millionths + step.millionths
            } else {
                value.millionths - step.millionths
            };
            let capped: i64 = if wanted <= max.millionths {
                wanted
            } else {
                max.millionths
            };
            let next: i64 = if min.millionths >= capped {
                min.millionths
            } else {
                capped
            };
            if next == value.millionths {
                return None;
            }
            Some(UiAction::Changed(*id, Fixed::from_millionths(next)))
        },
        _ => None,
    }
}

/// A text field after an editing key, and whether its value changed.
fn edit_text(widget: &Widget, key: UiKey) -> (r: (Widget, bool))
    requires
        widget@.wf(),
    ensures
        (r.0@, r.1) == UiModel::edited(widget@, key),
        r.0@.wf(),
        r.1 ==> r.0@ is Text,
{
    match widget {
        Widget::Text { id, label, value, caret, placeholder } => {
            let len: usize = value.as_str().unicode_len();
            let ghost before = widget@;
            let (new_value, new_caret, changed): (String, usize, bool) = match key {
                UiKey::Home => (value.clone(), 0, false),
                UiKey::End => (value.clone(), len, false),
                UiKey::Left => (value.clone(), (*caret).saturating_sub(1), false),
                UiKey::Right => (
                    value.clone(),
                    if *caret + 1 <= len {
                        *caret + 1
                    } else {
                        len
                    },
                    false,
                ),
                UiKey::Backspace => {
                    if *caret > 0 {
                        (remove_char(value.as_str(), *caret - 1), *caret - 1, true)
                    } else {
                        (value.clone(), *caret, false)
                    }
                },
                UiKey::Delete => {
                    if *caret < len {
                        (remove_char(value.as_str(), *caret), *caret, true)
                    } else {
                        (value.clone(), *caret, false)
                    }
                },
                _ => (value.clone(), *caret, false),
            };
            (
                Widget::Text {
                    id: *id,
                    label: label.clone(),
                    value: new_value,
                    caret: new_caret,
                    placeholder: placeholder.clone(),
                },
                changed,
            )
        },
        _ => (widget.clone(), false),
    }
}

impl Ui {
    /// The viewport rows are clipped to, plus the pinned footer.
    ///
    /// Drawing uses this to skip rows that are off screen. It spans both bands because
    /// the footer sits below the body and its rows must never be culled.
    pub fn viewport(&self) -> (r: Rect)
        requires
            self@.wf(),
        ensures
            r == self@.viewport_spec(),
    {
        let body = self.body_area;
        let footer = self.footer_area;
        if footer.height == 0 {
            return body;
        }
        let width: u32 = if body.width >= footer.width {
            body.width
        } else {
            footer.width
        };
        Rect::new(body.x, body.y, width, body.height + footer.height)
    }

    /// The pinned footer band, for drawing a divider above it.
    pub fn footer_area(&self) -> (r: Rect)
        ensures
            r == self@.footer_area,
    {
        self.footer_area
    }

    /// How many of the placed rows scroll. The rest are the footer.
    pub fn body_count(&self) -> (n: usize)
        ensures
            n == self@.body_count,
    {
        self.body_count
    }

    /// Rows that scroll. The footer is excluded.
    pub fn body(&self) -> (rows: &[Placed])
        requires
            self@.wf(),
        ensures
            Placed::models(rows@) == self@.placed.take(self@.body_count),
    {
        let rows = self.placed.as_slice().split_at(self.body_count).0;
        assert(Placed::models(rows@) =~= self@.placed.take(self@.body_count));
        rows
    }

    /// Every row, in order.
    pub fn placed(&self) -> (rows: &[Placed])
        ensures
            Placed::models(rows@) == self@.placed,
    {
        self.placed.as_slice()
    }

    /// The height the last layout needed.
    pub fn content_height(&self) -> (h: u32)
        ensures
            h == self@.content_height,
    {
        self.content_height
    }

    /// How far the body is scrolled.
    pub fn scroll(&self) -> (offset: u32)
        ensures
            offset == self@.scroll,
    {
        self.scroll
    }

    /// The furthest the content can scroll: zero when everything already fits.
    pub fn max_scroll(&self) -> (max: u32)
        ensures
            max == self@.max_scroll(),
    {
        self.content_height.saturating_sub(self.viewport_height)
    }

    /// True when the content is taller than the area it was laid out into.
    pub fn is_scrollable(&self) -> (b: bool)
        ensures
            b == (self@.max_scroll() > 0),
    {
        self.max_scroll() > 0
    }

    fn scroll_to(&mut self, wanted: i64) -> (moved: bool)
        requires
            old(self)@.wf(),
        ensures
            final(self)@ == old(self)@.scrolled(wanted - old(self)@.scroll),
            final(self)@.wf(),
            moved == (final(self)@.scroll != old(self)@.scroll),
    {
        let max: i64 = self.max_scroll() as i64;
        let next: i64 = if wanted < 0 {
            0
        } else if wanted > max {
            max
        } else {
            wanted
        };
        let moved = next != self.scroll as i64;
        self.scroll = next as u32;
        moved
    }

    /// Scroll by `delta` pixels, positive being downward. Returns whether it moved.
    pub fn scroll_by(&mut self, delta: i32) -> (moved: bool)
        requires
            old(self)@.wf(),
        ensures
            final(self)@ == old(self)@.scrolled(delta as int),
            final(self)@.wf(),
            moved == (final(self)@.scroll != old(self)@.scroll),
    {
        let wanted: i64 = self.scroll as i64 + delta as i64;
        self.scroll_to(wanted)
    }

    /// Scroll the focused widget into view, using the area of the last layout.
    pub fn scroll_to_focus_in_body(&mut self) -> (moved: bool)
        requires
            old(self)@.wf(),
        ensures
            final(self)@ == old(self)@.focus_shown(),
            final(self)@.wf(),
            moved == (final(self)@.scroll != old(self)@.scroll),
    {
        let area = self.body_area;
        self.scroll_to_focus(area)
    }

    /// Scroll so the focused widget is fully visible in `area`.
    ///
    /// A focused footer button is pinned below the body and so always visible;
    /// scrolling toward it would chase a target that never enters the viewport.
    pub fn scroll_to_focus(&mut self, area: Rect) -> (moved: bool)
        requires
            old(self)@.wf(),
        ensures
            final(self)@ == old(self)@.scrolled(old(self)@.focus_offset(area)),
            final(self)@.wf(),
            moved == (final(self)@.scroll != old(self)@.scroll),
    {
        match self.focus_row() {
            None => false,
            Some(i) => {
                if i >= self.body_count {
                    return false;
                }
                let rect = self.placed[i].rect;
                let top: i64 = rect.y as i64;
                let bottom: i64 = rect.y as i64 + rect.height as i64;
                let area_bottom: i64 = area.y as i64 + area.height as i64;
                if top < area.y as i64 {
                    self.scroll_to(self.scroll as i64 + top - area.y as i64)
                } else if bottom > area_bottom {
                    self.scroll_to(self.scroll as i64 + bottom - area_bottom)
                } else {
                    false
                }
            },
        }
    }

    pub fn focused(&self) -> (id: Option<WidgetId>)
        ensures
            id == self@.focus,
    {
        self.focus
    }

    pub fn hovered(&self) -> (id: Option<WidgetId>)
        ensures
            id == self@.hover,
    {
        self.hover
    }

    /// The widget held down right now.
    pub fn pressed(&self) -> (id: Option<WidgetId>)
        ensures
            id == self@.pressed,
    {
        self.pressed
    }

    /// Record which widget is held down, reporting whether that changed.
    pub fn set_pressed(&mut self, id: Option<WidgetId>) -> (changed: bool)
        ensures
            final(self)@ == (UiModel { pressed: id, ..old(self)@ }),
            changed == (id != old(self)@.pressed),
            old(self)@.wf() ==> final(self)@.wf(),
    {
        let changed = id != self.pressed;
        self.pressed = id;
        changed
    }

    /// The row of a widget, if it is laid out.
    pub fn rect_of(&self, id: WidgetId) -> (r: Option<Rect>)
        ensures
            r == (match self@.index_of_id(id) {
                Some(i) => Some(self@.placed[i].rect),
                None => None,
            }),
    {
        match self.index_of(id) {
            Some(i) => Some(self.placed[i].rect),
            None => None,
        }
    }

    /// The row that has focus.
    fn focus_row(&self) -> (r: Option<usize>)
        ensures
            match r {
                Some(i) => self@.focus_index() == Some(i as int) && i < self@.placed.len(),
                None => self@.focus_index() is None,
            },
    {
        match self.focus {
            Some(id) => self.index_of(id),
            None => None,
        }
    }

    /// The interactive widget at a point, if any.
    pub fn hit(&self, x: i32, y: i32) -> (id: Option<WidgetId>)
        ensures
            id == self@.hit_spec(x as int, y as int),
    {
        match self.hit_index(x, y) {
            Some(i) => self.placed[i].widget.id(),
            None => None,
        }
    }

    /// Index of the interactive row under a point.
    ///
    /// Body rows are only hit inside the scrolling viewport: rows past the fold have
    /// rects that extend down into the pinned footer, and are clipped away when drawn.
    fn hit_index(&self, x: i32, y: i32) -> (r: Option<usize>)
        ensures
            match r {
                Some(i) => self@.hit_index_spec(x as int, y as int) == Some(i as int) && i
                    < self@.placed.len(),
                None => self@.hit_index_spec(x as int, y as int) is None,
            },
    {
        let in_body = self.body_area.contains(x, y);
        let mut i: usize = 0;
        while i < self.placed.len()
            invariant
                i <= self.placed.len(),
                in_body == self@.body_area.has(x as int, y as int),
                self@.first_hit(x as int, y as int, i as int) is None,
            decreases self.placed.len() - i,
        {
            let row = &self.placed[i];
            if row.widget.is_interactive() && row.rect.contains(x, y) && (i >= self.body_count
                || in_body) {
                proof {
                    lemma_first_hit_stays(
                        self@,
                        x as int,
                        y as int,
                        i + 1,
                        self@.placed.len() as int,
                    );
                }
                return Some(i);
            }
            i += 1;
        }
        None
    }

    /// Update the hovered widget, reporting whether it changed, so the caller only
    /// redraws when the answer differs.
    pub fn set_pointer(&mut self, x: i32, y: i32) -> (changed: bool)
        ensures
            final(self)@ == (UiModel {
                hover: old(self)@.hit_spec(x as int, y as int),
                ..old(self)@
            }),
            changed == (final(self)@.hover != old(self)@.hover),
            old(self)@.wf() ==> final(self)@.wf(),
    {
        let next = self.hit(x, y);
        let changed = next != self.hover;
        self.hover = next;
        changed
    }

    /// Clear hover, e.g. when the pointer leaves the panel.
    pub fn clear_pointer(&mut self) -> (changed: bool)
        ensures
            final(self)@ == (UiModel { hover: None, ..old(self)@ }),
            changed == (old(self)@.hover is Some),
            old(self)@.wf() ==> final(self)@.wf(),
    {
        let changed = self.hover.is_some();
        self.hover = None;
        changed
    }

    /// Handle a click, returning the action it produced.
    ///
    /// Clicking also moves focus there, so the keyboard and mouse never disagree about
    /// which widget is current. For a value widget, which half of the value column was
    /// clicked decides the direction; clicking the label side only focuses.
    pub fn click(&mut self, x: i32, y: i32) -> (action: Option<UiAction>)
        requires
            old(self)@.wf(),
        ensures
            (final(self)@, UiAction::model(action)) == old(self)@.clicked(x as int, y as int),
            final(self)@.wf(),
    {
        let index: usize = match self.hit_index(x, y) {
            Some(i) => i,
            None => {
                return None;
            },
        };
        proof {
            lemma_first_hit_bounds(self@, x as int, y as int, self@.placed.len() as int);
            assert(self@.placed[index as int].widget.wf());
        }
        let id = self.placed[index].widget.id();
        self.focus = id;
        let row = &self.placed[index];
        match &row.widget {
            Widget::Button { id, .. } => Some(UiAction::Pressed(*id)),
            Widget::Entry { id, .. } => Some(UiAction::Pressed(*id)),
            Widget::Toggle { id, on, .. } => Some(UiAction::Toggled(*id, !*on)),
            Widget::Select { .. } => {
                if !row.value_rect.contains(x, y) {
                    return None;
                }
                adjust(&row.widget, x >= row.value_rect.center_x())
            },
            Widget::Stepper { .. } => {
                if !row.value_rect.contains(x, y) {
                    return None;
                }
                adjust(&row.widget, x >= row.value_rect.center_x())
            },
            Widget::Text { .. } => None,
            Widget::Shortcut { .. } => None,
            Widget::Label { .. } => None,
        }
    }

    /// Handle a key press.
    pub fn key(&mut self, key: UiKey) -> (response: KeyResponse)
        requires
            old(self)@.wf(),
        ensures
            (final(self)@, response@) == old(self)@.keyed(key),
            final(self)@.wf(),
    {
        match key {
            UiKey::Escape => {
                return KeyResponse::Close;
            },
            UiKey::Tab => {
                self.move_focus(true);
                return KeyResponse::Consumed;
            },
            UiKey::Down => {
                self.move_focus(true);
                return KeyResponse::Consumed;
            },
            UiKey::ShiftTab => {
                self.move_focus(false);
                return KeyResponse::Consumed;
            },
            UiKey::Up => {
                self.move_focus(false);
                return KeyResponse::Consumed;
            },
            _ => {},
        }
        let index: usize = match self.focus_row() {
            Some(i) => i,
            None => {
                return KeyResponse::Consumed;
            },
        };
        assert(self@.placed[index as int].widget.wf());
        match key {
            UiKey::Left => self.sideways(index, key),
            UiKey::Right => self.sideways(index, key),
            UiKey::Activate => {
                let widget = &self.placed[index].widget;
                if !widget.is_interactive() {
                    return KeyResponse::Consumed;
                }
                match widget {
                    Widget::Button { id, .. } => KeyResponse::Action(UiAction::Pressed(*id)),
                    Widget::Entry { id, .. } => KeyResponse::Action(UiAction::Pressed(*id)),
                    Widget::Toggle { id, on, .. } => KeyResponse::Action(
                        UiAction::Toggled(*id, !*on),
                    ),
                    // Enter on a value widget advances it; elsewhere it does nothing,
                    // since edits are reported as they are typed.
                    _ => match adjust(widget, true) {
                        Some(action) => KeyResponse::Action(action),
                        None => KeyResponse::Consumed,
                    },
                }
            },
            _ => self.edit(index, key),
        }
    }

    /// A sideways arrow: the caret in a text field, the value elsewhere.
    fn sideways(&mut self, index: usize, key: UiKey) -> (response: KeyResponse)
        requires
            old(self)@.wf(),
            index < old(self)@.placed.len(),
            key == UiKey::Left || key == UiKey::Right,
        ensures
            (final(self)@, response@) == old(self)@.sideways(index as int, key),
            final(self)@.wf(),
    {
        let forward = match key {
            UiKey::Right => true,
            _ => false,
        };
        assert(self@.placed[index as int].widget.wf());
        let widget = &self.placed[index].widget;
        match widget {
            Widget::Text { .. } => self.edit(index, key),
            Widget::Toggle { id, on, .. } => {
                if *on == forward {
                    KeyResponse::Consumed
                } else {
                    KeyResponse::Action(UiAction::Toggled(*id, forward))
                }
            },
            _ => match adjust(widget, forward) {
                Some(action) => KeyResponse::Action(action),
                None => KeyResponse::Consumed,
            },
        }
    }

    /// Apply an editing key to a row.
    fn edit(&mut self, index: usize, key: UiKey) -> (response: KeyResponse)
        requires
            old(self)@.wf(),
            index < old(self)@.placed.len(),
        ensures
            (final(self)@, response@) == old(self)@.edit_row(index as int, key),
            final(self)@.wf(),
    {
        let ghost before = self@;
        assert(self@.placed[index as int].widget.wf());
        let (widget, changed) = edit_text(&self.placed[index].widget, key);
        let response = match &widget {
            Widget::Text { id, value, .. } => {
                if changed {
                    KeyResponse::Action(UiAction::Edited(*id, value.clone()))
                } else {
                    KeyResponse::Consumed
                }
            },
            _ => KeyResponse::Consumed,
        };
        self.replace_widget(index, widget);
        response
    }

    /// Put another widget in a row.
    fn replace_widget(&mut self, index: usize, widget: Widget)
        requires
            old(self)@.wf(),
            index < old(self)@.placed.len(),
            widget@.wf(),
        ensures
            final(self)@ == old(self)@.with_widget(index as int, widget@),
            final(self)@.wf(),
    {
        let ghost before = self@;
        let rect = self.placed[index].rect;
        let value_rect = self.placed[index].value_rect;
        self.placed.set(index, Placed { widget, rect, value_rect });
        proof {
            let after = before.with_widget(index as int, widget@);
            assert(self@.placed =~= after.placed);
            assert forall|i: int| 0 <= i < self@.placed.len() implies {
                &&& (#[trigger] self@.placed[i]).widget.wf()
                &&& self@.placed[i].rect.fits()
                &&& self@.placed[i].value_rect.fits()
            } by {
                assert(before.placed[i].widget.wf());
            }
        }
    }

    /// Insert a typed character into the focused text field.
    ///
    /// `None` when focus is not on a text field, which is how the caller knows whether
    /// the character was consumed. Control characters arrive as their own keys.
    pub fn type_char(&mut self, c: char) -> (action: Option<UiAction>)
        requires
            old(self)@.wf(),
            old(self)@.typed(c).0.wf(),
        ensures
            (final(self)@, UiAction::model(action)) == old(self)@.typed(c),
            final(self)@.wf(),
    {
        if is_control(c) {
            return None;
        }
        let index: usize = match self.focus_row() {
            Some(i) => i,
            None => {
                return None;
            },
        };
        assert(self@.placed[index as int].widget.wf());
        let ghost after = self@.typed(c).0;
        let (widget, action) = match &self.placed[index].widget {
            Widget::Text { id, label, value, caret, placeholder } => {
                assert(after.placed[index as int].widget.wf());
                let new_value = insert_char(value.as_str(), *caret, c);
                let action = UiAction::Edited(*id, new_value.clone());
                (
                    Widget::Text {
                        id: *id,
                        label: label.clone(),
                        value: new_value,
                        caret: *caret + 1,
                        placeholder: placeholder.clone(),
                    },
                    action,
                )
            },
            _ => {
                return None;
            },
        };
        self.replace_widget(index, widget);
        Some(action)
    }

    /// Move focus to the next or previous interactive widget, wrapping.
    fn move_focus(&mut self, forward: bool)
        requires
            old(self)@.wf(),
        ensures
            final(self)@ == old(self)@.moved(forward),
            final(self)@.wf(),
    {
        let mut order: Vec<WidgetId> = Vec::new();
        let mut i: usize = 0;
        while i < self.placed.len()
            invariant
                i <= self.placed.len(),
                order@ == UiModel::focus_order(self@.placed, i as int),
                order.len() <= i,
            decreases self.placed.len() - i,
        {
            let widget = &self.placed[i].widget;
            if widget.is_interactive() {
                if let Some(id) = widget.id() {
                    order.push(id);
                }
            }
            i += 1;
        }
        let n: usize = order.len();
        if n == 0 {
            self.focus = None;
            return ;
        }
        let mut at: Option<usize> = None;
        if let Some(id) = self.focus {
            let mut k: usize = 0;
            while k < n && at.is_none()
                invariant
                    k <= n,
                    n == order.len(),
                    match at {
                        Some(p) => p < n && UiModel::position(order@, id, n as int) == Some(
                            p as int,
                        ),
                        None => UiModel::position(order@, id, k as int) is None,
                    },
                decreases n - k, (if at is None { 1int } else { 0int }),
            {
                if order[k] == id {
                    at = Some(k);
                    proof {
                        lemma_position_stays(order@, id, k + 1, n as int);
                    }
                } else {
                    k += 1;
                }
            }
        }
        let next: usize = match at {
            Some(current) => {
                if forward {
                    if current + 1 == n {
                        0
                    } else {
                        current + 1
                    }
                } else if current == 0 {
                    n - 1
                } else {
                    current - 1
                }
            },
            None => {
                if forward {
                    0
                } else {
                    n - 1
                }
            },
        };
        proof {
            if let Some(current) = at {
                lemma_wrapping(current as int, n as int);
            }
        }
        self.focus = Some(order[next]);
    }

    /// Whether a text of `n` characters can be typed into the focused field.
    pub fn has_room(&self, n: usize) -> (b: bool)
        ensures
            b == self@.room_for(n as int),
    {
        match self.focus_row() {
            Some(i) => match &self.placed[i].widget {
                Widget::Text { value, .. } => {
                    let held: usize = crate::strings::chars_of(value.as_str()).len();
                    n < usize::MAX - held
                },
                _ => true,
            },
            None => true,
        }
    }

    /// Type a text into the focused field. Returns the last edit it made.
    pub fn type_text(&mut self, text: &str) -> (edited: Option<UiAction>)
        requires
            old(self)@.wf(),
            old(self)@.room_for(text@.len() as int),
        ensures
            (final(self)@, UiAction::model(edited)) == old(self)@.typed_text(text@),
            final(self)@.wf(),
    {
        let chars = crate::strings::chars_of(text);
        let ghost start = self@;
        let mut edited: Option<UiAction> = None;
        let mut i: usize = 0;
        assert(chars@.take(0) =~= Seq::empty());
        while i < chars.len()
            invariant
                i <= chars@.len(),
                self@.wf(),
                self@.room_for(chars@.len() - i),
                (self@, UiAction::model(edited)) == start.typed_text(chars@.take(i as int)),
            decreases chars@.len() - i,
        {
            let c = chars[i];
            assert(chars@.take(i + 1).drop_last() =~= chars@.take(i as int));
            proof {
                lemma_typed_room(self@, c, chars@.len() - i);
            }
            let edit = self.type_char(c);
            if edit.is_some() {
                edited = edit;
            }
            i += 1;
        }
        assert(chars@.take(i as int) =~= text@);
        edited
    }

    /// Focus a specific widget, if it exists and can take focus.
    pub fn focus(&mut self, id: WidgetId) -> (done: bool)
        ensures
            done == old(self)@.can_focus(id),
            final(self)@ == old(self)@.focus_on(id),
            old(self)@.wf() ==> final(self)@.wf(),
    {
        match self.index_of(id) {
            Some(i) => {
                if self.placed[i].widget.is_interactive() {
                    self.focus = Some(id);
                    true
                } else {
                    false
                }
            },
            None => false,
        }
    }
}

} // verus!
