//! The keyboard shortcut reference.
//!
//! Built from the live keymap, not from a written-down list: a page maintained by hand
//! is wrong the first time anyone rebinds a key. The explorer's and the panels' keys are
//! matched directly while those have focus, so there is no keymap to read them from;
//! those are listed literally.

use vstd::prelude::*;
use vstd::string::*;

use crate::strings::{chars_of, same_text, text_less};
use crate::ui::Ui;
use crate::widget::{push_row, Widget, WidgetModel};

verus! {

/// One entry of the keymap.
#[derive(Debug, PartialEq, Eq)]
pub struct Binding {
    pub chord: String,
    pub action: String,
}

/// An entry as a mathematical value.
#[verifier::ext_equal]
pub struct BindingModel {
    pub chord: Seq<char>,
    pub action: Seq<char>,
}

impl View for Binding {
    type V = BindingModel;

    open spec fn view(&self) -> BindingModel {
        BindingModel { chord: self.chord@, action: self.action@ }
    }
}

pub open spec fn words(list: Seq<&str>) -> Seq<Seq<char>> {
    Seq::new(list.len(), |i: int| list[i]@)
}

pub open spec fn pairs(list: Seq<(&str, &str)>) -> Seq<(Seq<char>, Seq<char>)> {
    Seq::new(list.len(), |i: int| (list[i].0@, list[i].1@))
}

impl BindingModel {
    pub open spec fn all(list: Seq<Binding>) -> Seq<BindingModel> {
        Seq::new(list.len(), |i: int| list[i]@)
    }

    /// The chords bound to an action, in the keymap's order.
    pub open spec fn chords(keys: Seq<BindingModel>, action: Seq<char>) -> Seq<Seq<char>>
        decreases keys.len(),
    {
        if keys.len() == 0 {
            Seq::empty()
        } else if keys.last().action == action {
            BindingModel::chords(keys.drop_last(), action).push(keys.last().chord)
        } else {
            BindingModel::chords(keys.drop_last(), action)
        }
    }

    /// The entries that no section claims, in the keymap's order. Binding a chord to
    /// "none" removes it, so those are not shown.
    pub open spec fn unclaimed(keys: Seq<BindingModel>) -> Seq<BindingModel>
        decreases keys.len(),
    {
        if keys.len() == 0 {
            Seq::empty()
        } else if keys.last().action == "none"@ || HelpPage::claimed(keys.last().action) {
            BindingModel::unclaimed(keys.drop_last())
        } else {
            BindingModel::unclaimed(keys.drop_last()).push(keys.last())
        }
    }

    /// Where an entry goes among sorted ones: behind every one whose action does not
    /// come after its own.
    pub open spec fn slot(list: Seq<BindingModel>, entry: BindingModel, i: int) -> int
        decreases i,
    {
        if i <= 0 {
            0
        } else if crate::strings::lex_less(entry.action, list[i - 1].action) {
            BindingModel::slot(list, entry, i - 1)
        } else {
            i
        }
    }

    /// The entries by action, those of one action in the order they came.
    pub open spec fn filed(list: Seq<BindingModel>) -> Seq<BindingModel>
        decreases list.len(),
    {
        if list.len() == 0 {
            list
        } else {
            let before = BindingModel::filed(list.drop_last());
            before.insert(
                BindingModel::slot(before, list.last(), before.len() as int),
                list.last(),
            )
        }
    }
}

/// Several texts with two spaces between them.
pub open spec fn spaced(list: Seq<Seq<char>>) -> Seq<char>
    decreases list.len(),
{
    if list.len() == 0 {
        Seq::empty()
    } else if list.len() == 1 {
        list[0]
    } else {
        spaced(list.drop_last()) + "  "@ + list.last()
    }
}

/// The page.
pub struct HelpPage {
    pub ui: Ui,
}

impl HelpPage {
    /// The actions of the section "Terminal", in order.
    pub open spec fn terminal_actions() -> Seq<Seq<char>> {
        seq!["copy"@, "paste"@, "select_all"@, "reload_config"@, "quit"@]
    }

    /// The actions of the section "Panes", in order.
    pub open spec fn panes_actions() -> Seq<Seq<char>> {
        seq!["split_right"@, "split_left"@, "split_up"@, "split_down"@, "close_pane"@, "focus_left"@, "focus_right"@, "focus_up"@, "focus_down"@, "focus_next_pane"@, "focus_prev_pane"@, "resize_left"@, "resize_right"@, "resize_up"@, "resize_down"@]
    }

    /// The actions of the section "Tabs", in order.
    pub open spec fn tabs_actions() -> Seq<Seq<char>> {
        seq!["new_tab"@, "close_tab"@, "next_tab"@, "prev_tab"@]
    }

    /// The actions of the section "View", in order.
    pub open spec fn view_actions() -> Seq<Seq<char>> {
        seq!["increase_font_size"@, "decrease_font_size"@, "reset_font_size"@, "toggle_fullscreen"@, "scroll_line_up"@, "scroll_line_down"@, "scroll_page_up"@, "scroll_page_down"@, "scroll_to_top"@, "scroll_to_bottom"@, "clear_scrollback"@]
    }

    /// The actions of the section "Panels", in order.
    pub open spec fn panels_actions() -> Seq<Seq<char>> {
        seq!["open_settings"@, "open_explorer"@, "open_plugins"@, "open_help"@]
    }

    /// What is said about each action that has a description.
    pub open spec fn descriptions() -> Seq<(Seq<char>, Seq<char>)> {
        seq![
            ("copy"@, "Copy the selection"@),
            ("paste"@, "Paste"@),
            ("reload_config"@, "Reload the config file"@),
            ("quit"@, "Quit"@),
            ("split_right"@, "Split the pane to the right"@),
            ("split_left"@, "Split the pane to the left"@),
            ("split_up"@, "Split the pane upwards"@),
            ("split_down"@, "Split the pane downwards"@),
            ("close_pane"@, "Close the pane"@),
            ("focus_left"@, "Focus the pane to the left"@),
            ("focus_right"@, "Focus the pane to the right"@),
            ("focus_up"@, "Focus the pane above"@),
            ("focus_down"@, "Focus the pane below"@),
            ("focus_next_pane"@, "Focus the next pane"@),
            ("focus_prev_pane"@, "Focus the previous pane"@),
            ("resize_left"@, "Shrink the pane leftwards"@),
            ("resize_right"@, "Grow the pane rightwards"@),
            ("resize_up"@, "Shrink the pane upwards"@),
            ("resize_down"@, "Grow the pane downwards"@),
            ("new_tab"@, "New tab"@),
            ("close_tab"@, "Close the tab"@),
            ("next_tab"@, "Next tab"@),
            ("prev_tab"@, "Previous tab"@),
            ("increase_font_size"@, "Larger text"@),
            ("decrease_font_size"@, "Smaller text"@),
            ("reset_font_size"@, "Reset the text size"@),
            ("select_all"@, "Select everything on screen"@),
            ("toggle_fullscreen"@, "Full screen"@),
            ("scroll_line_up"@, "Scroll up a line"@),
            ("scroll_line_down"@, "Scroll down a line"@),
            ("clear_scrollback"@, "Clear the scrollback"@),
            ("scroll_page_up"@, "Scroll up a page"@),
            ("scroll_page_down"@, "Scroll down a page"@),
            ("scroll_to_top"@, "Scroll to the top"@),
            ("scroll_to_bottom"@, "Scroll to the bottom"@),
            ("open_settings"@, "Settings"@),
            ("open_explorer"@, "File explorer"@),
            ("open_help"@, "This page"@),
            ("open_plugins"@, "Plugins"@),
        ]
    }

    /// The explorer's keys and what they do.
    pub open spec fn explorer_list() -> Seq<(Seq<char>, Seq<char>)> {
        seq![
            ("↑ ↓  pgup pgdn  home end"@, "Move the selection"@),
            ("enter"@, "Open a folder, or a file in $EDITOR"@),
            ("backspace"@, "Go up one directory"@),
            ("e"@, "Open in $EDITOR"@),
            ("p"@, "Type the path at the prompt"@),
            ("c"@, "cd the shell into the folder"@),
            ("r"@, "Rename"@),
            ("n"@, "New folder"@),
            ("d"@, "Delete"@),
            ("h"@, "Show or hide dotfiles"@),
            ("escape"@, "Give the keyboard back to the shell"@),
        ]
    }

    /// The keys of the settings page and of the explorer's prompts.
    pub open spec fn panel_list() -> Seq<(Seq<char>, Seq<char>)> {
        seq![
            ("tab  shift+tab"@, "Move between controls"@),
            ("↑ ↓"@, "Move between controls"@),
            ("← →"@, "Change a value"@),
            ("enter  space"@, "Activate, or confirm a prompt"@),
            ("y  n"@, "Answer a confirmation"@),
            ("escape"@, "Cancel, or close"@),
        ]
    }

    /// Some section shows the action.
    pub open spec fn claimed(action: Seq<char>) -> bool {
        ||| HelpPage::terminal_actions().contains(action)
        ||| HelpPage::panes_actions().contains(action)
        ||| HelpPage::tabs_actions().contains(action)
        ||| HelpPage::view_actions().contains(action)
        ||| HelpPage::panels_actions().contains(action)
    }

    /// What the first `n` descriptions say about an action.
    pub open spec fn lookup(action: Seq<char>, n: int) -> Option<Seq<char>>
        decreases n,
    {
        if n <= 0 {
            None
        } else if HelpPage::descriptions()[n - 1].0 == action {
            Some(HelpPage::descriptions()[n - 1].1)
        } else {
            HelpPage::lookup(action, n - 1)
        }
    }

    /// A readable description of an action: its own, or its name as words.
    pub open spec fn described(action: Seq<char>) -> Seq<char> {
        match HelpPage::lookup(action, HelpPage::descriptions().len() as int) {
            Some(text) => text,
            None => Seq::new(
                action.len(),
                |i: int|
                    if action[i] == '_' {
                        ' '
                    } else {
                        action[i]
                    },
            ),
        }
    }

    pub open spec fn heading_row(text: Seq<char>) -> WidgetModel {
        WidgetModel::Label { text, heading: true }
    }

    pub open spec fn shortcut_row(label: Seq<char>, keys: Seq<char>) -> WidgetModel {
        WidgetModel::Shortcut { label, keys }
    }

    /// The rows of one section: one for each of its actions that is bound, with all its
    /// chords.
    pub open spec fn section(keys: Seq<BindingModel>, actions: Seq<Seq<char>>) -> Seq<WidgetModel>
        decreases actions.len(),
    {
        if actions.len() == 0 {
            Seq::empty()
        } else {
            let before = HelpPage::section(keys, actions.drop_last());
            let chords = BindingModel::chords(keys, actions.last());
            if chords.len() == 0 {
                before
            } else {
                before.push(
                    HelpPage::shortcut_row(HelpPage::described(actions.last()), spaced(chords)),
                )
            }
        }
    }

    /// The rows of the entries that no section claims.
    pub open spec fn other_rows(entries: Seq<BindingModel>) -> Seq<WidgetModel> {
        Seq::new(
            entries.len(),
            |i: int|
                HelpPage::shortcut_row(HelpPage::described(entries[i].action), entries[i].chord),
        )
    }

    /// The rows of a literal list.
    pub open spec fn list_rows(list: Seq<(Seq<char>, Seq<char>)>) -> Seq<WidgetModel> {
        Seq::new(list.len(), |i: int| HelpPage::shortcut_row(list[i].1, list[i].0))
    }

    /// The section for what no other one claims, if there is anything.
    pub open spec fn other_section(keys: Seq<BindingModel>) -> Seq<WidgetModel> {
        let entries = BindingModel::filed(BindingModel::unclaimed(keys));
        if entries.len() == 0 {
            Seq::empty()
        } else {
            seq![HelpPage::heading_row("Other"@)] + HelpPage::other_rows(entries)
        }
    }

    /// The sections of the keymap.
    pub open spec fn keymap_rows(keys: Seq<BindingModel>) -> Seq<WidgetModel> {
        seq![HelpPage::heading_row("Terminal"@)] + HelpPage::section(
            keys,
            HelpPage::terminal_actions(),
        ) + seq![HelpPage::heading_row("Panes"@)] + HelpPage::section(
            keys,
            HelpPage::panes_actions(),
        ) + seq![HelpPage::heading_row("Tabs"@)] + HelpPage::section(
            keys,
            HelpPage::tabs_actions(),
        ) + seq![HelpPage::heading_row("View"@)] + HelpPage::section(
            keys,
            HelpPage::view_actions(),
        ) + seq![HelpPage::heading_row("Panels"@)] + HelpPage::section(
            keys,
            HelpPage::panels_actions(),
        )
    }

    /// The whole page.
    pub open spec fn page(keys: Seq<BindingModel>) -> Seq<WidgetModel> {
        HelpPage::keymap_rows(keys) + HelpPage::other_section(keys) + seq![
            HelpPage::heading_row("File explorer"@),
        ] + HelpPage::list_rows(HelpPage::explorer_list()) + seq![
            HelpPage::heading_row("Settings and dialogs"@),
        ] + HelpPage::list_rows(HelpPage::panel_list())
    }

    pub fn open() -> (page: Self)
        ensures
            page.ui@ == crate::ui::UiModel::empty(),
    {
        HelpPage { ui: Ui::new() }
    }

    /// The rows, rebuilt from the keymap each frame.
    pub fn widgets(&self, keys: &Vec<Binding>) -> (rows: Vec<Widget>)
        ensures
            crate::widget::models(rows@) == HelpPage::page(BindingModel::all(keys@)),
    {
        let mut out: Vec<Widget> = Vec::new();
        assert(crate::widget::models(out@) =~= Seq::empty());
        push_row(&mut out, Widget::heading("Terminal"));
        push_section(&mut out, keys, &terminal_actions());
        push_row(&mut out, Widget::heading("Panes"));
        push_section(&mut out, keys, &panes_actions());
        push_row(&mut out, Widget::heading("Tabs"));
        push_section(&mut out, keys, &tabs_actions());
        push_row(&mut out, Widget::heading("View"));
        push_section(&mut out, keys, &view_actions());
        push_row(&mut out, Widget::heading("Panels"));
        push_section(&mut out, keys, &panels_actions());
        assert(crate::widget::models(out@) =~= HelpPage::keymap_rows(BindingModel::all(keys@)));
        let entries = sort_bindings(keys, &unclaimed_bindings(keys));
        if entries.len() > 0 {
            push_row(&mut out, Widget::heading("Other"));
            push_others(&mut out, keys, &entries);
        }
        assert(crate::widget::models(out@) =~= HelpPage::keymap_rows(BindingModel::all(keys@))
            + HelpPage::other_section(BindingModel::all(keys@)));
        push_row(&mut out, Widget::heading("File explorer"));
        push_list(&mut out, &explorer_keys());
        push_row(&mut out, Widget::heading("Settings and dialogs"));
        push_list(&mut out, &panel_keys());
        assert(crate::widget::models(out@) =~= HelpPage::page(BindingModel::all(keys@)));
        out
    }
}

fn terminal_actions() -> (list: Vec<&'static str>)
    ensures
        words(list@) == HelpPage::terminal_actions(),
{
    let list = vec!["copy", "paste", "select_all", "reload_config", "quit"];
    assert(words(list@) =~= HelpPage::terminal_actions());
    list
}

fn panes_actions() -> (list: Vec<&'static str>)
    ensures
        words(list@) == HelpPage::panes_actions(),
{
    let list = vec!["split_right", "split_left", "split_up", "split_down", "close_pane", "focus_left", "focus_right", "focus_up", "focus_down", "focus_next_pane", "focus_prev_pane", "resize_left", "resize_right", "resize_up", "resize_down"];
    assert(words(list@) =~= HelpPage::panes_actions());
    list
}

fn tabs_actions() -> (list: Vec<&'static str>)
    ensures
        words(list@) == HelpPage::tabs_actions(),
{
    let list = vec!["new_tab", "close_tab", "next_tab", "prev_tab"];
    assert(words(list@) =~= HelpPage::tabs_actions());
    list
}

fn view_actions() -> (list: Vec<&'static str>)
    ensures
        words(list@) == HelpPage::view_actions(),
{
    let list = vec!["increase_font_size", "decrease_font_size", "reset_font_size", "toggle_fullscreen", "scroll_line_up", "scroll_line_down", "scroll_page_up", "scroll_page_down", "scroll_to_top", "scroll_to_bottom", "clear_scrollback"];
    assert(words(list@) =~= HelpPage::view_actions());
    list
}

fn panels_actions() -> (list: Vec<&'static str>)
    ensures
        words(list@) == HelpPage::panels_actions(),
{
    let list = vec!["open_settings", "open_explorer", "open_plugins", "open_help"];
    assert(words(list@) =~= HelpPage::panels_actions());
    list
}

/// The explorer's keys and what they do. They are matched directly rather than through
/// the keymap.
pub fn explorer_keys() -> (list: Vec<(&'static str, &'static str)>)
    ensures
        pairs(list@) == HelpPage::explorer_list(),
{
    let list = vec![
        ("↑ ↓  pgup pgdn  home end", "Move the selection"),
        ("enter", "Open a folder, or a file in $EDITOR"),
        ("backspace", "Go up one directory"),
        ("e", "Open in $EDITOR"),
        ("p", "Type the path at the prompt"),
        ("c", "cd the shell into the folder"),
        ("r", "Rename"),
        ("n", "New folder"),
        ("d", "Delete"),
        ("h", "Show or hide dotfiles"),
        ("escape", "Give the keyboard back to the shell"),
    ];
    assert(pairs(list@) =~= HelpPage::explorer_list());
    list
}

/// The keys of the settings page and of the explorer's prompts.
pub fn panel_keys() -> (list: Vec<(&'static str, &'static str)>)
    ensures
        pairs(list@) == HelpPage::panel_list(),
{
    let list = vec![
        ("tab  shift+tab", "Move between controls"),
        ("↑ ↓", "Move between controls"),
        ("← →", "Change a value"),
        ("enter  space", "Activate, or confirm a prompt"),
        ("y  n", "Answer a confirmation"),
        ("escape", "Cancel, or close"),
    ];
    assert(pairs(list@) =~= HelpPage::panel_list());
    list
}

fn descriptions() -> (list: Vec<(&'static str, &'static str)>)
    ensures
        pairs(list@) == HelpPage::descriptions(),
{
    let list = vec![
        ("copy", "Copy the selection"),
        ("paste", "Paste"),
        ("reload_config", "Reload the config file"),
        ("quit", "Quit"),
        ("split_right", "Split the pane to the right"),
        ("split_left", "Split the pane to the left"),
        ("split_up", "Split the pane upwards"),
        ("split_down", "Split the pane downwards"),
        ("close_pane", "Close the pane"),
        ("focus_left", "Focus the pane to the left"),
        ("focus_right", "Focus the pane to the right"),
        ("focus_up", "Focus the pane above"),
        ("focus_down", "Focus the pane below"),
        ("focus_next_pane", "Focus the next pane"),
        ("focus_prev_pane", "Focus the previous pane"),
        ("resize_left", "Shrink the pane leftwards"),
        ("resize_right", "Grow the pane rightwards"),
        ("resize_up", "Shrink the pane upwards"),
        ("resize_down", "Grow the pane downwards"),
        ("new_tab", "New tab"),
        ("close_tab", "Close the tab"),
        ("next_tab", "Next tab"),
        ("prev_tab", "Previous tab"),
        ("increase_font_size", "Larger text"),
        ("decrease_font_size", "Smaller text"),
        ("reset_font_size", "Reset the text size"),
        ("select_all", "Select everything on screen"),
        ("toggle_fullscreen", "Full screen"),
        ("scroll_line_up", "Scroll up a line"),
        ("scroll_line_down", "Scroll down a line"),
        ("clear_scrollback", "Clear the scrollback"),
        ("scroll_page_up", "Scroll up a page"),
        ("scroll_page_down", "Scroll down a page"),
        ("scroll_to_top", "Scroll to the top"),
        ("scroll_to_bottom", "Scroll to the bottom"),
        ("open_settings", "Settings"),
        ("open_explorer", "File explorer"),
        ("open_help", "This page"),
        ("open_plugins", "Plugins"),
    ];
    assert(pairs(list@) =~= HelpPage::descriptions());
    list
}

proof fn lemma_lookup_found(action: Seq<char>, i: int, n: int)
    requires
        0 < i <= n <= HelpPage::descriptions().len(),
        HelpPage::descriptions()[i - 1].0 == action,
        forall|j: int|
            i <= j < n ==> (#[trigger] HelpPage::descriptions()[j]).0 != action,
    ensures
        HelpPage::lookup(action, n) == Some(HelpPage::descriptions()[i - 1].1),
    decreases n,
{
    if i < n {
        assert(HelpPage::descriptions()[n - 1].0 != action);
        lemma_lookup_found(action, i, n - 1);
    }
}

/// A readable description of an action: its own, or its name with the underscores
/// replaced, so that an action without one still reads as words.
pub fn describe(action: &str) -> (text: String)
    ensures
        text@ == HelpPage::described(action@),
{
    let known = descriptions();
    let ghost list = HelpPage::descriptions();
    let mut i: usize = known.len();
    while i > 0
        invariant
            i <= known@.len(),
            known@.len() == list.len(),
            list == HelpPage::descriptions(),
            pairs(known@) == list,
            forall|j: int| i <= j < list.len() ==> (#[trigger] list[j]).0 != action@,
        decreases i,
    {
        assert(pairs(known@)[i - 1] == (known@[i - 1].0@, known@[i - 1].1@));
        if same_text(known[i - 1].0, action) {
            proof {
                lemma_lookup_found(action@, i as int, list.len() as int);
            }
            return known[i - 1].1.to_owned();
        }
        i -= 1;
    }
    proof {
        lemma_lookup_missing(action@, list.len() as int);
    }
    let chars = chars_of(action);
    let mut text = String::new();
    let mut k: usize = 0;
    while k < chars.len()
        invariant
            k <= chars.len(),
            chars@ == action@,
            text@ =~= Seq::new(
                k as nat,
                |j: int|
                    if action@[j] == '_' {
                        ' '
                    } else {
                        action@[j]
                    },
            ),
        decreases chars.len() - k,
    {
        if chars[k] == '_' {
            text.push(' ');
        } else {
            text.push(chars[k]);
        }
        k += 1;
    }
    text
}

proof fn lemma_lookup_missing(action: Seq<char>, n: int)
    requires
        0 <= n <= HelpPage::descriptions().len(),
        forall|j: int|
            0 <= j < HelpPage::descriptions().len() ==> (#[trigger] HelpPage::descriptions()[j]).0
                != action,
    ensures
        HelpPage::lookup(action, n) is None,
    decreases n,
{
    if n > 0 {
        assert(HelpPage::descriptions()[n - 1].0 != action);
        lemma_lookup_missing(action, n - 1);
    }
}

/// The chords bound to `action`, with two spaces between them: one action can have
/// several, and they share a row. `None` when there are none.
fn bound_chords(keys: &Vec<Binding>, action: &str) -> (text: Option<String>)
    ensures
        match text {
            Some(t) => BindingModel::chords(BindingModel::all(keys@), action@).len() > 0 && t@
                == spaced(BindingModel::chords(BindingModel::all(keys@), action@)),
            None => BindingModel::chords(BindingModel::all(keys@), action@).len() == 0,
        },
{
    let ghost all = BindingModel::all(keys@);
    let mut text: Option<String> = None;
    let mut i: usize = 0;
    while i < keys.len()
        invariant
            i <= keys.len(),
            all == BindingModel::all(keys@),
            match text {
                Some(t) => BindingModel::chords(all.take(i as int), action@).len() > 0 && t@
                    == spaced(BindingModel::chords(all.take(i as int), action@)),
                None => BindingModel::chords(all.take(i as int), action@).len() == 0,
            },
        decreases keys.len() - i,
    {
        assert(all.take(i + 1).drop_last() =~= all.take(i as int));
        assert(all[i as int] == keys@[i as int]@);
        if same_text(keys[i].action.as_str(), action) {
            let ghost before = BindingModel::chords(all.take(i as int), action@);
            let ghost after = BindingModel::chords(all.take(i + 1), action@);
            assert(after == before.push(all[i as int].chord));
            assert(after.drop_last() =~= before);
            match text {
                Some(mut t) => {
                    t.append("  ");
                    t.append(keys[i].chord.as_str());
                    text = Some(t);
                },
                None => {
                    text = Some(keys[i].chord.clone());
                },
            }
        }
        i += 1;
    }
    assert(all.take(i as int) =~= all);
    text
}

fn push_section(out: &mut Vec<Widget>, keys: &Vec<Binding>, actions: &Vec<&'static str>)
    ensures
        crate::widget::models(final(out)@) == crate::widget::models(old(out)@)
            + HelpPage::section(BindingModel::all(keys@), words(actions@)),
{
    let ghost all = BindingModel::all(keys@);
    let ghost names = words(actions@);
    let ghost start = crate::widget::models(out@);
    let mut i: usize = 0;
    assert(names.take(0) =~= Seq::empty());
    assert(HelpPage::section(all, names.take(0)) =~= Seq::empty());
    while i < actions.len()
        invariant
            i <= actions.len(),
            all == BindingModel::all(keys@),
            names == words(actions@),
            crate::widget::models(out@) =~= start + HelpPage::section(all, names.take(i as int)),
        decreases actions.len() - i,
    {
        assert(names.take(i + 1).drop_last() =~= names.take(i as int));
        assert(names[i as int] == actions@[i as int]@);
        if let Some(chords) = bound_chords(keys, actions[i]) {
            let label = describe(actions[i]);
            push_row(out, Widget::shortcut(label.as_str(), chords.as_str()));
        }
        i += 1;
    }
    assert(names.take(i as int) =~= names);
}

fn push_list(out: &mut Vec<Widget>, list: &Vec<(&'static str, &'static str)>)
    ensures
        crate::widget::models(final(out)@) == crate::widget::models(old(out)@)
            + HelpPage::list_rows(pairs(list@)),
{
    let ghost rows = HelpPage::list_rows(pairs(list@));
    let ghost start = crate::widget::models(out@);
    let mut i: usize = 0;
    while i < list.len()
        invariant
            i <= list.len(),
            rows == HelpPage::list_rows(pairs(list@)),
            crate::widget::models(out@) =~= start + rows.take(i as int),
        decreases list.len() - i,
    {
        push_row(out, Widget::shortcut(list[i].1, list[i].0));
        i += 1;
        assert(rows.take(i as int) =~= rows.take(i - 1).push(rows[i - 1]));
    }
    assert(rows.take(i as int) =~= rows);
}

fn is_among(list: &Vec<&'static str>, action: &str) -> (b: bool)
    ensures
        b == words(list@).contains(action@),
{
    let ghost all = words(list@);
    let mut i: usize = 0;
    while i < list.len()
        invariant
            i <= list.len(),
            all == words(list@),
            forall|j: int| 0 <= j < i ==> all[j] != action@,
        decreases list.len() - i,
    {
        assert(all[i as int] == list@[i as int]@);
        if same_text(list[i], action) {
            return true;
        }
        i += 1;
    }
    false
}

/// Whether some section shows the action.
fn is_claimed(action: &str) -> (b: bool)
    ensures
        b == HelpPage::claimed(action@),
{
    is_among(&terminal_actions(), action) || is_among(&panes_actions(), action) || is_among(
        &tabs_actions(),
        action,
    ) || is_among(&view_actions(), action) || is_among(&panels_actions(), action)
}

/// The entries at the given places.
pub open spec fn picked(keys: Seq<Binding>, places: Seq<usize>) -> Seq<BindingModel> {
    Seq::new(places.len(), |i: int| keys[places[i] as int]@)
}

/// The places of the entries that no section claims.
fn unclaimed_bindings(keys: &Vec<Binding>) -> (places: Vec<usize>)
    ensures
        picked(keys@, places@) == BindingModel::unclaimed(BindingModel::all(keys@)),
        forall|i: int| 0 <= i < places@.len() ==> (#[trigger] places@[i]) < keys@.len(),
{
    let ghost all = BindingModel::all(keys@);
    let mut places: Vec<usize> = Vec::new();
    let mut i: usize = 0;
    assert(all.take(0) =~= Seq::empty());
    assert(picked(keys@, places@) =~= BindingModel::unclaimed(all.take(0)));
    while i < keys.len()
        invariant
            i <= keys.len(),
            all == BindingModel::all(keys@),
            picked(keys@, places@) == BindingModel::unclaimed(all.take(i as int)),
            forall|j: int| 0 <= j < places@.len() ==> (#[trigger] places@[j]) < keys@.len(),
        decreases keys.len() - i,
    {
        let ghost before = picked(keys@, places@);
        assert(all.take(i + 1).drop_last() =~= all.take(i as int));
        assert(all[i as int] == keys@[i as int]@);
        if !same_text(keys[i].action.as_str(), "none") && !is_claimed(keys[i].action.as_str()) {
            places.push(i);
            assert(picked(keys@, places@) =~= before.push(all[i as int]));
        }
        i += 1;
    }
    assert(all.take(i as int) =~= all);
    places
}

/// Put the entries in order of their actions, those of one action as they came.
fn sort_bindings(keys: &Vec<Binding>, places: &Vec<usize>) -> (sorted: Vec<usize>)
    requires
        forall|i: int| 0 <= i < places@.len() ==> (#[trigger] places@[i]) < keys@.len(),
    ensures
        picked(keys@, sorted@) == BindingModel::filed(picked(keys@, places@)),
        forall|i: int| 0 <= i < sorted@.len() ==> (#[trigger] sorted@[i]) < keys@.len(),
{
    let ghost all = picked(keys@, places@);
    let mut sorted: Vec<usize> = Vec::new();
    let mut i: usize = 0;
    assert(all.take(0) =~= Seq::empty());
    assert(picked(keys@, sorted@) =~= BindingModel::filed(all.take(0)));
    while i < places.len()
        invariant
            i <= places.len(),
            all == picked(keys@, places@),
            sorted@.len() == i,
            picked(keys@, sorted@) == BindingModel::filed(all.take(i as int)),
            forall|j: int| 0 <= j < places@.len() ==> (#[trigger] places@[j]) < keys@.len(),
            forall|j: int| 0 <= j < sorted@.len() ==> (#[trigger] sorted@[j]) < keys@.len(),
        decreases places.len() - i,
    {
        let ghost before = picked(keys@, sorted@);
        let place: usize = places[i];
        let ghost entry = all[i as int];
        assert(entry == keys@[place as int]@);
        assert(all.take(i + 1).drop_last() =~= all.take(i as int));
        let action = chars_of(keys[place].action.as_str());
        let mut at: usize = sorted.len();
        let mut open = true;
        while open && at > 0
            invariant
                at <= sorted@.len(),
                place < keys@.len(),
                entry == keys@[place as int]@,
                action@ == entry.action,
                before == picked(keys@, sorted@),
                forall|j: int| 0 <= j < sorted@.len() ==> (#[trigger] sorted@[j]) < keys@.len(),
                open ==> BindingModel::slot(before, entry, before.len() as int)
                    == BindingModel::slot(before, entry, at as int),
                !open ==> BindingModel::slot(before, entry, before.len() as int) == at,
            decreases (if open {
                1int
            } else {
                0int
            }), at,
        {
            assert(before[at - 1] == keys@[sorted@[at - 1] as int]@);
            let other = chars_of(keys[sorted[at - 1]].action.as_str());
            if text_less(&action, &other) {
                at -= 1;
            } else {
                open = false;
            }
        }
        sorted.insert(at, place);
        assert(picked(keys@, sorted@) =~= before.insert(at as int, entry));
        i += 1;
    }
    assert(all.take(i as int) =~= all);
    sorted
}

fn push_others(out: &mut Vec<Widget>, keys: &Vec<Binding>, places: &Vec<usize>)
    requires
        forall|i: int| 0 <= i < places@.len() ==> (#[trigger] places@[i]) < keys@.len(),
    ensures
        crate::widget::models(final(out)@) == crate::widget::models(old(out)@)
            + HelpPage::other_rows(picked(keys@, places@)),
{
    let ghost rows = HelpPage::other_rows(picked(keys@, places@));
    let ghost start = crate::widget::models(out@);
    let mut i: usize = 0;
    while i < places.len()
        invariant
            i <= places.len(),
            rows == HelpPage::other_rows(picked(keys@, places@)),
            forall|j: int| 0 <= j < places@.len() ==> (#[trigger] places@[j]) < keys@.len(),
            crate::widget::models(out@) =~= start + rows.take(i as int),
        decreases places.len() - i,
    {
        let entry = &keys[places[i]];
        assert(picked(keys@, places@)[i as int] == entry@);
        let label = describe(entry.action.as_str());
        push_row(out, Widget::shortcut(label.as_str(), entry.chord.as_str()));
        i += 1;
        assert(rows.take(i as int) =~= rows.take(i - 1).push(rows[i - 1]));
    }
    assert(rows.take(i as int) =~= rows);
}

proof fn lemma_lookup_some(action: Seq<char>, at: int, n: int)
    requires
        0 <= at < n <= HelpPage::descriptions().len(),
        HelpPage::descriptions()[at].0 == action,
    ensures
        HelpPage::lookup(action, n) is Some,
    decreases n,
{
    if HelpPage::descriptions()[n - 1].0 != action {
        lemma_lookup_some(action, at, n - 1);
    }
}

/// Every action a section shows has a description of its own: none falls back to its
/// raw name.
pub proof fn law_sections_are_described(action: Seq<char>)
    requires
        HelpPage::claimed(action),
    ensures
        HelpPage::lookup(action, HelpPage::descriptions().len() as int) is Some,
{
    if HelpPage::terminal_actions().contains(action) {
        let i = choose|i: int|
            0 <= i < HelpPage::terminal_actions().len() && HelpPage::terminal_actions()[i] == action;
        let at: int = (if i == 0 { 0int } else { (if i == 1 { 1int } else { (if i == 2 { 26int } else { (if i == 3 { 2int } else { 3int }) }) }) });
        assert(HelpPage::descriptions()[at].0 == action);
        lemma_lookup_some(action, at, HelpPage::descriptions().len() as int);
    }
    if HelpPage::panes_actions().contains(action) {
        let i = choose|i: int|
            0 <= i < HelpPage::panes_actions().len() && HelpPage::panes_actions()[i] == action;
        let at: int = (if i == 0 { 4int } else { (if i == 1 { 5int } else { (if i == 2 { 6int } else { (if i == 3 { 7int } else { (if i == 4 { 8int } else { (if i == 5 { 9int } else { (if i == 6 { 10int } else { (if i == 7 { 11int } else { (if i == 8 { 12int } else { (if i == 9 { 13int } else { (if i == 10 { 14int } else { (if i == 11 { 15int } else { (if i == 12 { 16int } else { (if i == 13 { 17int } else { 18int }) }) }) }) }) }) }) }) }) }) }) }) }) });
        assert(HelpPage::descriptions()[at].0 == action);
        lemma_lookup_some(action, at, HelpPage::descriptions().len() as int);
    }
    if HelpPage::tabs_actions().contains(action) {
        let i = choose|i: int|
            0 <= i < HelpPage::tabs_actions().len() && HelpPage::tabs_actions()[i] == action;
        let at: int = (if i == 0 { 19int } else { (if i == 1 { 20int } else { (if i == 2 { 21int } else { 22int }) }) });
        assert(HelpPage::descriptions()[at].0 == action);
        lemma_lookup_some(action, at, HelpPage::descriptions().len() as int);
    }
    if HelpPage::view_actions().contains(action) {
        let i = choose|i: int|
            0 <= i < HelpPage::view_actions().len() && HelpPage::view_actions()[i] == action;
        let at: int = (if i == 0 { 23int } else { (if i == 1 { 24int } else { (if i == 2 { 25int } else { (if i == 3 { 27int } else { (if i == 4 { 28int } else { (if i == 5 { 29int } else { (if i == 6 { 31int } else { (if i == 7 { 32int } else { (if i == 8 { 33int } else { (if i == 9 { 34int } else { 30int }) }) }) }) }) }) }) }) }) });
        assert(HelpPage::descriptions()[at].0 == action);
        lemma_lookup_some(action, at, HelpPage::descriptions().len() as int);
    }
    if HelpPage::panels_actions().contains(action) {
        let i = choose|i: int|
            0 <= i < HelpPage::panels_actions().len() && HelpPage::panels_actions()[i] == action;
        let at: int = (if i == 0 { 35int } else { (if i == 1 { 36int } else { (if i == 2 { 38int } else { 37int }) }) });
        assert(HelpPage::descriptions()[at].0 == action);
        lemma_lookup_some(action, at, HelpPage::descriptions().len() as int);
    }
}

impl HelpPage {
    /// A row shows this chord, among the chords of the action described so.
    pub open spec fn shows(
        row: WidgetModel,
        action: Seq<char>,
        chord: Seq<char>,
        chords: Seq<Seq<char>>,
    ) -> bool {
        row == HelpPage::shortcut_row(HelpPage::described(action), spaced(chords))
            && chords.contains(chord)
    }
}

proof fn lemma_chords_hold(keys: Seq<BindingModel>, i: int)
    requires
        0 <= i < keys.len(),
    ensures
        BindingModel::chords(keys, keys[i].action).contains(keys[i].chord),
    decreases keys.len(),
{
    let action = keys[i].action;
    let head = keys.drop_last();
    let out = BindingModel::chords(keys, action);
    if i == keys.len() - 1 {
        assert(out[out.len() - 1] == keys[i].chord);
    } else {
        lemma_chords_hold(head, i);
        assert(head[i] == keys[i]);
        let before = BindingModel::chords(head, action);
        let k = choose|k: int| 0 <= k < before.len() && before[k] == keys[i].chord;
        assert(out[k] == keys[i].chord);
    }
}

proof fn lemma_section_shows(keys: Seq<BindingModel>, actions: Seq<Seq<char>>, i: int) -> (row: int)
    requires
        0 <= i < keys.len(),
        actions.contains(keys[i].action),
    ensures
        0 <= row < HelpPage::section(keys, actions).len(),
        HelpPage::shows(
            HelpPage::section(keys, actions)[row],
            keys[i].action,
            keys[i].chord,
            BindingModel::chords(keys, keys[i].action),
        ),
    decreases actions.len(),
{
    let action = keys[i].action;
    lemma_chords_hold(keys, i);
    let out = HelpPage::section(keys, actions);
    if actions.last() == action {
        assert(BindingModel::chords(keys, action).len() > 0);
        out.len() - 1
    } else {
        let head = actions.drop_last();
        let k = choose|k: int| 0 <= k < actions.len() && actions[k] == action;
        assert(head[k] == action);
        let row = lemma_section_shows(keys, head, i);
        assert(out[row] == HelpPage::section(keys, head)[row]);
        row
    }
}

proof fn lemma_filed_holds(list: Seq<BindingModel>, entry: BindingModel)
    requires
        list.contains(entry),
    ensures
        BindingModel::filed(list).contains(entry),
    decreases list.len(),
{
    let head = list.drop_last();
    let before = BindingModel::filed(head);
    lemma_slot_fits(before, list.last(), before.len() as int);
    let at = BindingModel::slot(before, list.last(), before.len() as int);
    let out = BindingModel::filed(list);
    assert(out == before.insert(at, list.last()));
    let k = choose|k: int| 0 <= k < list.len() && list[k] == entry;
    if k == list.len() - 1 {
        assert(out[at] == entry);
    } else {
        assert(head[k] == entry);
        lemma_filed_holds(head, entry);
        let j = choose|j: int| 0 <= j < before.len() && before[j] == entry;
        if j < at {
            assert(out[j] == entry);
        } else {
            assert(out[j + 1] == entry);
        }
    }
}

proof fn lemma_slot_fits(list: Seq<BindingModel>, entry: BindingModel, i: int)
    requires
        0 <= i <= list.len(),
    ensures
        0 <= BindingModel::slot(list, entry, i) <= i,
        forall|k: int|
            BindingModel::slot(list, entry, i) <= k < i ==> crate::strings::lex_less(
                entry.action,
                (#[trigger] list[k]).action,
            ),
        BindingModel::slot(list, entry, i) > 0 ==> !crate::strings::lex_less(
            entry.action,
            list[BindingModel::slot(list, entry, i) - 1].action,
        ),
    decreases i,
{
    if i > 0 && crate::strings::lex_less(entry.action, list[i - 1].action) {
        lemma_slot_fits(list, entry, i - 1);
    }
}

proof fn lemma_unclaimed_holds(keys: Seq<BindingModel>, i: int)
    requires
        0 <= i < keys.len(),
        keys[i].action != "none"@,
        !HelpPage::claimed(keys[i].action),
    ensures
        BindingModel::unclaimed(keys).contains(keys[i]),
    decreases keys.len(),
{
    let head = keys.drop_last();
    let out = BindingModel::unclaimed(keys);
    if i == keys.len() - 1 {
        assert(out[out.len() - 1] == keys[i]);
    } else {
        lemma_unclaimed_holds(head, i);
        assert(head[i] == keys[i]);
        let before = BindingModel::unclaimed(head);
        let k = choose|k: int| 0 <= k < before.len() && before[k] == keys[i];
        assert(out[k] == keys[i]);
    }
}

/// Nothing that is bound is missing from the page: every chord of the keymap that is not
/// bound to "none" stands in a row with its action's description.
pub proof fn law_every_binding_is_shown(keys: Seq<BindingModel>, i: int) -> (at: (
    int,
    Seq<Seq<char>>,
))
    requires
        0 <= i < keys.len(),
        keys[i].action != "none"@,
    ensures
        0 <= at.0 < HelpPage::page(keys).len(),
        HelpPage::shows(HelpPage::page(keys)[at.0], keys[i].action, keys[i].chord, at.1),
{
    let action = keys[i].action;
    let chords = BindingModel::chords(keys, action);
    let page = HelpPage::page(keys);
    let s1 = HelpPage::section(keys, HelpPage::terminal_actions());
    let s2 = HelpPage::section(keys, HelpPage::panes_actions());
    let s3 = HelpPage::section(keys, HelpPage::tabs_actions());
    let s4 = HelpPage::section(keys, HelpPage::view_actions());
    let s5 = HelpPage::section(keys, HelpPage::panels_actions());
    let n1 = 1 + s1.len();
    let n2 = n1 + 1 + s2.len();
    let n3 = n2 + 1 + s3.len();
    let n4 = n3 + 1 + s4.len();
    let n5 = n4 + 1 + s5.len();
    let rows = HelpPage::keymap_rows(keys);
    assert(rows.len() == n5);
    assert forall|k: int| 0 <= k < rows.len() implies page[k] == rows[k] by {}
    if HelpPage::terminal_actions().contains(action) {
        let row = lemma_section_shows(keys, HelpPage::terminal_actions(), i);
        assert(rows[1 + row] == s1[row]);
        (1 + row, chords)
    } else if HelpPage::panes_actions().contains(action) {
        let row = lemma_section_shows(keys, HelpPage::panes_actions(), i);
        assert(rows[n1 + 1 + row] == s2[row]);
        (n1 + 1 + row, chords)
    } else if HelpPage::tabs_actions().contains(action) {
        let row = lemma_section_shows(keys, HelpPage::tabs_actions(), i);
        assert(rows[n2 + 1 + row] == s3[row]);
        (n2 + 1 + row, chords)
    } else if HelpPage::view_actions().contains(action) {
        let row = lemma_section_shows(keys, HelpPage::view_actions(), i);
        assert(rows[n3 + 1 + row] == s4[row]);
        (n3 + 1 + row, chords)
    } else if HelpPage::panels_actions().contains(action) {
        let row = lemma_section_shows(keys, HelpPage::panels_actions(), i);
        assert(rows[n4 + 1 + row] == s5[row]);
        (n4 + 1 + row, chords)
    } else {
        lemma_unclaimed_holds(keys, i);
        let entries = BindingModel::filed(BindingModel::unclaimed(keys));
        lemma_filed_holds(BindingModel::unclaimed(keys), keys[i]);
        let row = choose|row: int| 0 <= row < entries.len() && entries[row] == keys[i];
        let others = HelpPage::other_section(keys);
        assert(others[1 + row] == HelpPage::other_rows(entries)[row]);
        assert(page[n5 + 1 + row] == others[1 + row]);
        let one = seq![keys[i].chord];
        assert(one[0] == keys[i].chord);
        (n5 + 1 + row, one)
    }
}

/// What no section claims is listed by action: none stands behind one that comes after
/// it.
pub proof fn law_others_are_in_order(list: Seq<BindingModel>, i: int, j: int)
    requires
        0 <= i < j < BindingModel::filed(list).len(),
    ensures
        !crate::strings::lex_less(
            BindingModel::filed(list)[j].action,
            BindingModel::filed(list)[i].action,
        ),
    decreases list.len(),
{
    if list.len() > 0 {
        let head = list.drop_last();
        let entry = list.last();
        let before = BindingModel::filed(head);
        lemma_slot_fits(before, entry, before.len() as int);
        let at = BindingModel::slot(before, entry, before.len() as int);
        let out = BindingModel::filed(list);
        assert(out == before.insert(at, entry));
        let old_i = if i < at {
            i
        } else {
            i - 1
        };
        let old_j = if j < at {
            j
        } else {
            j - 1
        };
        if i != at && j != at {
            law_others_are_in_order(head, old_i, old_j);
        } else if j == at {
            // `i` stands before the slot: so does the last one that is not after it.
            if i < at - 1 {
                law_others_are_in_order(head, i, at - 1);
                crate::strings::lemma_lex_total(before[at - 1].action, before[i].action);
                if crate::strings::lex_less(entry.action, before[i].action) {
                    crate::strings::lemma_lex_total(entry.action, before[at - 1].action);
                    if crate::strings::lex_less(before[i].action, before[at - 1].action) {
                        crate::strings::lemma_lex_transitive(
                            entry.action,
                            before[i].action,
                            before[at - 1].action,
                        );
                    }
                }
            }
        } else {
            assert(crate::strings::lex_less(entry.action, before[old_j].action));
            crate::strings::lemma_lex_total(entry.action, before[old_j].action);
        }
    }
}

} // verus!
