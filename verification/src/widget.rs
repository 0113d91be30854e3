//! The controls a panel is made of.
//!
//! A widget list is rebuilt every frame from whatever it represents, so a widget is a
//! plain value: what it shows, and the id of what it controls.

use vstd::prelude::*;
use vstd::string::*;

use crate::decimal::Fixed;

verus! {

/// Identifies a widget across frames.
///
/// Derived from what the widget controls, not from its position, so a widget keeps its
/// focus and hover state when the list is rebuilt.
#[derive(Debug, Clone, Copy, PartialEq, Eq, Structural, Hash, PartialOrd, Ord)]
pub struct WidgetId(pub u32);

/// What a file-list row represents, which decides its icon.
#[derive(Debug, Clone, Copy, PartialEq, Eq, Structural)]
pub enum EntryKind {
    /// The `..` row.
    Parent,
    Directory,
    File,
    Symlink,
}

/// A control, before layout.
#[derive(Debug, PartialEq)]
#[allow(inconsistent_fields)]
pub enum Widget {
    /// Static text. Never focusable and never hit-testable.
    Label { text: String, heading: bool },
    Button { id: WidgetId, label: String, enabled: bool },
    Toggle { id: WidgetId, label: String, on: bool },
    /// One of a fixed set of options, cycled with `<` and `>`.
    Select { id: WidgetId, label: String, options: Vec<String>, index: usize },
    /// An editable line of text. The caret counts characters, not bytes.
    Text { id: WidgetId, label: String, value: String, caret: usize, placeholder: String },
    /// A reference row: what something does, and the keys that do it. Not interactive.
    Shortcut { label: String, keys: String },
    /// A row in a list: icon, name, and a dimmed detail column.
    Entry { id: WidgetId, kind: EntryKind, label: String, detail: String, selected: bool },
    /// A number adjusted by a fixed step. Zero decimals render as an integer.
    Stepper {
        id: WidgetId,
        label: String,
        value: Fixed,
        min: Fixed,
        max: Fixed,
        step: Fixed,
        decimals: u8,
    },
}

/// A widget as a mathematical value, its strings taken as character sequences.
#[verifier::ext_equal]
#[allow(inconsistent_fields)]
pub enum WidgetModel {
    Label { text: Seq<char>, heading: bool },
    Button { id: WidgetId, label: Seq<char>, enabled: bool },
    Toggle { id: WidgetId, label: Seq<char>, on: bool },
    Select { id: WidgetId, label: Seq<char>, options: Seq<Seq<char>>, index: int },
    Text { id: WidgetId, label: Seq<char>, value: Seq<char>, caret: int, placeholder: Seq<char> },
    Shortcut { label: Seq<char>, keys: Seq<char> },
    Entry { id: WidgetId, kind: EntryKind, label: Seq<char>, detail: Seq<char>, selected: bool },
    Stepper {
        id: WidgetId,
        label: Seq<char>,
        value: int,
        min: int,
        max: int,
        step: int,
        decimals: nat,
    },
}

/// The views of a list of strings.
pub open spec fn texts(list: Seq<String>) -> Seq<Seq<char>> {
    Seq::new(list.len(), |i: int| list[i]@)
}

impl View for Widget {
    type V = WidgetModel;

    open spec fn view(&self) -> WidgetModel {
        match *self {
            Widget::Label { text, heading } => WidgetModel::Label { text: text@, heading },
            Widget::Button { id, label, enabled } => WidgetModel::Button {
                id,
                label: label@,
                enabled,
            },
            Widget::Toggle { id, label, on } => WidgetModel::Toggle { id, label: label@, on },
            Widget::Select { id, label, options, index } => WidgetModel::Select {
                id,
                label: label@,
                options: texts(options@),
                index: index as int,
            },
            Widget::Text { id, label, value, caret, placeholder } => WidgetModel::Text {
                id,
                label: label@,
                value: value@,
                caret: caret as int,
                placeholder: placeholder@,
            },
            Widget::Shortcut { label, keys } => WidgetModel::Shortcut { label: label@, keys: keys@ },
            Widget::Entry { id, kind, label, detail, selected } => WidgetModel::Entry {
                id,
                kind,
                label: label@,
                detail: detail@,
                selected,
            },
            Widget::Stepper { id, label, value, min, max, step, decimals } => WidgetModel::Stepper {
                id,
                label: label@,
                value: value@,
                min: min@,
                max: max@,
                step: step@,
                decimals: decimals as nat,
            },
        }
    }
}

/// The views of a list of widgets.
pub open spec fn models(list: Seq<Widget>) -> Seq<WidgetModel> {
    Seq::new(list.len(), |i: int| list[i]@)
}

impl WidgetModel {
    /// Everything but labels and reference rows has an id.
    pub open spec fn id(self) -> Option<WidgetId> {
        match self {
            WidgetModel::Label { .. } => None,
            WidgetModel::Shortcut { .. } => None,
            WidgetModel::Button { id, .. } => Some(id),
            WidgetModel::Toggle { id, .. } => Some(id),
            WidgetModel::Select { id, .. } => Some(id),
            WidgetModel::Text { id, .. } => Some(id),
            WidgetModel::Entry { id, .. } => Some(id),
            WidgetModel::Stepper { id, .. } => Some(id),
        }
    }

    /// Labels and reference rows never take focus or clicks, a button only when it is
    /// enabled, everything else always.
    pub open spec fn interactive(self) -> bool {
        match self {
            WidgetModel::Label { .. } => false,
            WidgetModel::Shortcut { .. } => false,
            WidgetModel::Button { enabled, .. } => enabled,
            _ => true,
        }
    }

    pub open spec fn is_heading(self) -> bool {
        self matches WidgetModel::Label { heading, .. } && heading
    }

    /// The text a row is known by.
    pub open spec fn caption(self) -> Seq<char> {
        match self {
            WidgetModel::Label { text, .. } => text,
            WidgetModel::Shortcut { label, .. } => label,
            WidgetModel::Button { label, .. } => label,
            WidgetModel::Toggle { label, .. } => label,
            WidgetModel::Select { label, .. } => label,
            WidgetModel::Text { label, .. } => label,
            WidgetModel::Entry { label, .. } => label,
            WidgetModel::Stepper { label, .. } => label,
        }
    }

    /// The text on the right of the row, for the widgets that have a value.
    pub open spec fn value_text(self) -> Option<Seq<char>> {
        match self {
            WidgetModel::Toggle { on, .. } => Some(if on { "[x]"@ } else { "[ ]"@ }),
            WidgetModel::Select { options, index, .. } => Some(
                if index < options.len() {
                    "‹ "@ + options[index] + " ›"@
                } else {
                    "‹ — ›"@
                },
            ),
            WidgetModel::Stepper { value, decimals, .. } => Some(
                "‹ "@ + crate::decimal::fixed_text(value, decimals) + " ›"@,
            ),
            WidgetModel::Text { value, placeholder, .. } => Some(
                if value.len() == 0 {
                    placeholder
                } else {
                    value
                },
            ),
            _ => None,
        }
    }

    /// What a widget's fields promise each other: a caret inside its text, a range
    /// that is not empty, and numbers far enough from the limits to be stepped.
    pub open spec fn wf(self) -> bool {
        match self {
            WidgetModel::Text { value, caret, .. } => 0 <= caret <= value.len() < usize::MAX,
            WidgetModel::Select { options, index, .. } => 0 <= index && index + options.len()
                <= usize::MAX,
            WidgetModel::Stepper { value, min, max, step, .. } => {
                &&& min <= max
                &&& i64::MIN < value - step <= i64::MAX
                &&& i64::MIN < value + step <= i64::MAX
                &&& i64::MIN < value
                &&& i64::MIN < min
                &&& i64::MIN < step
            },
            _ => true,
        }
    }
}

/// A copy of a list of strings.
pub fn copy_texts(list: &Vec<String>) -> (copy: Vec<String>)
    ensures
        texts(copy@) == texts(list@),
{
    let mut copy: Vec<String> = Vec::new();
    let mut i: usize = 0;
    while i < list.len()
        invariant
            i <= list.len(),
            copy.len() == i,
            forall|j: int| 0 <= j < i ==> copy@[j]@ == list@[j]@,
        decreases list.len() - i,
    {
        copy.push(list[i].clone());
        i += 1;
    }
    assert(texts(copy@) =~= texts(list@));
    copy
}

impl Clone for Widget {
    fn clone(&self) -> (copy: Self)
        ensures
            copy@ == self@,
    {
        match self {
            Widget::Label { text, heading } => Widget::Label {
                text: text.clone(),
                heading: *heading,
            },
            Widget::Button { id, label, enabled } => Widget::Button {
                id: *id,
                label: label.clone(),
                enabled: *enabled,
            },
            Widget::Toggle { id, label, on } => Widget::Toggle {
                id: *id,
                label: label.clone(),
                on: *on,
            },
            Widget::Select { id, label, options, index } => Widget::Select {
                id: *id,
                label: label.clone(),
                options: copy_texts(options),
                index: *index,
            },
            Widget::Text { id, label, value, caret, placeholder } => Widget::Text {
                id: *id,
                label: label.clone(),
                value: value.clone(),
                caret: *caret,
                placeholder: placeholder.clone(),
            },
            Widget::Shortcut { label, keys } => Widget::Shortcut {
                label: label.clone(),
                keys: keys.clone(),
            },
            Widget::Entry { id, kind, label, detail, selected } => Widget::Entry {
                id: *id,
                kind: *kind,
                label: label.clone(),
                detail: detail.clone(),
                selected: *selected,
            },
            Widget::Stepper { id, label, value, min, max, step, decimals } => Widget::Stepper {
                id: *id,
                label: label.clone(),
                value: *value,
                min: *min,
                max: *max,
                step: *step,
                decimals: *decimals,
            },
        }
    }
}

/// An option index that is never past the last option.
pub open spec fn clamped_index(index: int, count: int) -> int {
    if index < count {
        index
    } else if count > 0 {
        count - 1
    } else {
        0
    }
}

impl Widget {
    /// Whether the widget's numbers can be worked with.
    pub fn is_sound(&self) -> (b: bool)
        ensures
            b == self@.wf(),
    {
        match self {
            Widget::Text { value, caret, .. } => {
                let n: usize = value.as_str().unicode_len();
                *caret <= n && n < usize::MAX
            },
            Widget::Select { options, index, .. } => *index <= usize::MAX - options.len(),
            Widget::Stepper { value, min, max, step, .. } => {
                let less: i128 = value.millionths as i128 - step.millionths as i128;
                let more: i128 = value.millionths as i128 + step.millionths as i128;
                min.millionths <= max.millionths && (i64::MIN as i128) < less && less
                    <= i64::MAX as i128 && (i64::MIN as i128) < more && more <= i64::MAX as i128
                    && i64::MIN < value.millionths && i64::MIN < min.millionths && i64::MIN
                    < step.millionths
            },
            _ => true,
        }
    }

    pub fn label(text: &str) -> (w: Self)
        ensures
            w@ == (WidgetModel::Label { text: text@, heading: false }),
    {
        Widget::Label { text: text.to_owned(), heading: false }
    }

    pub fn heading(text: &str) -> (w: Self)
        ensures
            w@ == (WidgetModel::Label { text: text@, heading: true }),
    {
        Widget::Label { text: text.to_owned(), heading: true }
    }

    pub fn button(id: WidgetId, label: &str) -> (w: Self)
        ensures
            w@ == (WidgetModel::Button { id, label: label@, enabled: true }),
    {
        Widget::Button { id, label: label.to_owned(), enabled: true }
    }

    pub fn disabled_button(id: WidgetId, label: &str) -> (w: Self)
        ensures
            w@ == (WidgetModel::Button { id, label: label@, enabled: false }),
    {
        Widget::Button { id, label: label.to_owned(), enabled: false }
    }

    pub fn toggle(id: WidgetId, label: &str, on: bool) -> (w: Self)
        ensures
            w@ == (WidgetModel::Toggle { id, label: label@, on }),
    {
        Widget::Toggle { id, label: label.to_owned(), on }
    }

    /// The index is clamped, so a stale one cannot point past the options.
    pub fn select(id: WidgetId, label: &str, options: Vec<String>, index: usize) -> (w: Self)
        ensures
            w@ == (WidgetModel::Select {
                id,
                label: label@,
                options: texts(options@),
                index: clamped_index(index as int, options@.len() as int),
            }),
    {
        let last: usize = options.len().saturating_sub(1);
        let index: usize = if index < last { index } else { last };
        Widget::Select { id, label: label.to_owned(), options, index }
    }

    /// The caret starts at the end, where someone editing an existing value wants it.
    pub fn text(id: WidgetId, label: &str, value: &str, placeholder: &str) -> (w: Self)
        ensures
            w@ == (WidgetModel::Text {
                id,
                label: label@,
                value: value@,
                caret: value@.len() as int,
                placeholder: placeholder@,
            }),
    {
        Widget::Text {
            id,
            label: label.to_owned(),
            value: value.to_owned(),
            caret: value.unicode_len(),
            placeholder: placeholder.to_owned(),
        }
    }

    pub fn shortcut(label: &str, keys: &str) -> (w: Self)
        ensures
            w@ == (WidgetModel::Shortcut { label: label@, keys: keys@ }),
    {
        Widget::Shortcut { label: label.to_owned(), keys: keys.to_owned() }
    }

    pub fn entry(id: WidgetId, kind: EntryKind, label: &str, detail: &str, selected: bool) -> (w:
        Self)
        ensures
            w@ == (WidgetModel::Entry { id, kind, label: label@, detail: detail@, selected }),
    {
        Widget::Entry { id, kind, label: label.to_owned(), detail: detail.to_owned(), selected }
    }

    /// A number between `min` and `max` inclusive.
    pub fn stepper(
        id: WidgetId,
        label: &str,
        value: Fixed,
        min: Fixed,
        max: Fixed,
        step: Fixed,
        decimals: u8,
    ) -> (w: Self)
        ensures
            w@ == (WidgetModel::Stepper {
                id,
                label: label@,
                value: value@,
                min: min@,
                max: max@,
                step: step@,
                decimals: decimals as nat,
            }),
    {
        Widget::Stepper { id, label: label.to_owned(), value, min, max, step, decimals }
    }

    /// The id, for everything except labels and reference rows.
    pub fn id(&self) -> (id: Option<WidgetId>)
        ensures
            id == self@.id(),
    {
        match self {
            Widget::Label { .. } => None,
            Widget::Shortcut { .. } => None,
            Widget::Button { id, .. } => Some(*id),
            Widget::Toggle { id, .. } => Some(*id),
            Widget::Select { id, .. } => Some(*id),
            Widget::Text { id, .. } => Some(*id),
            Widget::Entry { id, .. } => Some(*id),
            Widget::Stepper { id, .. } => Some(*id),
        }
    }

    /// Whether this widget can take keyboard focus or respond to a click.
    pub fn is_interactive(&self) -> (b: bool)
        ensures
            b == self@.interactive(),
    {
        match self {
            Widget::Label { .. } => false,
            Widget::Shortcut { .. } => false,
            Widget::Button { enabled, .. } => *enabled,
            _ => true,
        }
    }

    /// Whether this is a section heading.
    pub fn is_heading(&self) -> (b: bool)
        ensures
            b == self@.is_heading(),
    {
        match self {
            Widget::Label { heading, .. } => *heading,
            _ => false,
        }
    }

    /// The text the row is known by.
    pub fn caption(&self) -> (s: &str)
        ensures
            s@ == self@.caption(),
    {
        match self {
            Widget::Label { text, .. } => text.as_str(),
            Widget::Shortcut { label, .. } => label.as_str(),
            Widget::Button { label, .. } => label.as_str(),
            Widget::Toggle { label, .. } => label.as_str(),
            Widget::Select { label, .. } => label.as_str(),
            Widget::Text { label, .. } => label.as_str(),
            Widget::Entry { label, .. } => label.as_str(),
            Widget::Stepper { label, .. } => label.as_str(),
        }
    }

    /// Text shown on the right of the row, if the widget has a value.
    pub fn value_text(&self) -> (t: Option<String>)
        requires
            self@.wf(),
        ensures
            match t {
                Some(s) => self@.value_text() == Some(s@),
                None => self@.value_text() is None,
            },
    {
        match self {
            Widget::Toggle { on, .. } => Some(
                if *on {
                    "[x]".to_owned()
                } else {
                    "[ ]".to_owned()
                },
            ),
            Widget::Select { options, index, .. } => {
                if *index < options.len() {
                    let mut s = "‹ ".to_owned();
                    s.append(options[*index].as_str());
                    s.append(" ›");
                    Some(s)
                } else {
                    Some("‹ — ›".to_owned())
                }
            },
            Widget::Stepper { value, decimals, .. } => {
                let mut s = "‹ ".to_owned();
                s.append(value.to_text(*decimals).as_str());
                s.append(" ›");
                Some(s)
            },
            Widget::Text { value, placeholder, .. } => Some(
                if value.unicode_len() == 0 {
                    placeholder.clone()
                } else {
                    value.clone()
                },
            ),
            _ => None,
        }
    }
}

/// Append one row.
pub fn push_row(rows: &mut Vec<Widget>, row: Widget)
    ensures
        models(final(rows)@) == models(old(rows)@).push(row@),
{
    rows.push(row);
    assert(models(rows@) =~= models(old(rows)@).push(row@));
}

} // verus!
