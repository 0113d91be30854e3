//! What texts, numbers, paths and the key reference come to.

use vstd::prelude::*;

use crate::help::{BindingModel, HelpPage};
use crate::keymap::KeyTable;
use crate::widget::WidgetModel;

verus! {

/// What the reference says of each action, in its own words.
pub proof fn law_actions_in_words()
    ensures
        HelpPage::descriptions().contains(("copy"@, "Copy the selection"@)),
        HelpPage::descriptions().contains(("paste"@, "Paste"@)),
        HelpPage::descriptions().contains(("reload_config"@, "Reload the config file"@)),
        HelpPage::descriptions().contains(("quit"@, "Quit"@)),
        HelpPage::descriptions().contains(("split_right"@, "Split the pane to the right"@)),
        HelpPage::descriptions().contains(("split_left"@, "Split the pane to the left"@)),
        HelpPage::descriptions().contains(("split_up"@, "Split the pane upwards"@)),
        HelpPage::descriptions().contains(("split_down"@, "Split the pane downwards"@)),
        HelpPage::descriptions().contains(("close_pane"@, "Close the pane"@)),
        HelpPage::descriptions().contains(("focus_left"@, "Focus the pane to the left"@)),
        HelpPage::descriptions().contains(("focus_right"@, "Focus the pane to the right"@)),
        HelpPage::descriptions().contains(("focus_up"@, "Focus the pane above"@)),
        HelpPage::descriptions().contains(("focus_down"@, "Focus the pane below"@)),
        HelpPage::descriptions().contains(("focus_next_pane"@, "Focus the next pane"@)),
        HelpPage::descriptions().contains(("focus_prev_pane"@, "Focus the previous pane"@)),
        HelpPage::descriptions().contains(("resize_left"@, "Shrink the pane leftwards"@)),
        HelpPage::descriptions().contains(("resize_right"@, "Grow the pane rightwards"@)),
        HelpPage::descriptions().contains(("resize_up"@, "Shrink the pane upwards"@)),
        HelpPage::descriptions().contains(("resize_down"@, "Grow the pane downwards"@)),
        HelpPage::descriptions().contains(("new_tab"@, "New tab"@)),
        HelpPage::descriptions().contains(("close_tab"@, "Close the tab"@)),
        HelpPage::descriptions().contains(("next_tab"@, "Next tab"@)),
        HelpPage::descriptions().contains(("prev_tab"@, "Previous tab"@)),
        HelpPage::descriptions().contains(("increase_font_size"@, "Larger text"@)),
        HelpPage::descriptions().contains(("decrease_font_size"@, "Smaller text"@)),
        HelpPage::descriptions().contains(("reset_font_size"@, "Reset the text size"@)),
        HelpPage::descriptions().contains(("select_all"@, "Select everything on screen"@)),
        HelpPage::descriptions().contains(("toggle_fullscreen"@, "Full screen"@)),
        HelpPage::descriptions().contains(("scroll_line_up"@, "Scroll up a line"@)),
        HelpPage::descriptions().contains(("scroll_line_down"@, "Scroll down a line"@)),
        HelpPage::descriptions().contains(("clear_scrollback"@, "Clear the scrollback"@)),
        HelpPage::descriptions().contains(("scroll_page_up"@, "Scroll up a page"@)),
        HelpPage::descriptions().contains(("scroll_page_down"@, "Scroll down a page"@)),
        HelpPage::descriptions().contains(("scroll_to_top"@, "Scroll to the top"@)),
        HelpPage::descriptions().contains(("scroll_to_bottom"@, "Scroll to the bottom"@)),
        HelpPage::descriptions().contains(("open_settings"@, "Settings"@)),
        HelpPage::descriptions().contains(("open_explorer"@, "File explorer"@)),
        HelpPage::descriptions().contains(("open_help"@, "This page"@)),
        HelpPage::descriptions().contains(("open_plugins"@, "Plugins"@)),
{
    let list = HelpPage::descriptions();
    assert(list[0] == ("copy"@, "Copy the selection"@));
    assert(list[1] == ("paste"@, "Paste"@));
    assert(list[2] == ("reload_config"@, "Reload the config file"@));
    assert(list[3] == ("quit"@, "Quit"@));
    assert(list[4] == ("split_right"@, "Split the pane to the right"@));
    assert(list[5] == ("split_left"@, "Split the pane to the left"@));
    assert(list[6] == ("split_up"@, "Split the pane upwards"@));
    assert(list[7] == ("split_down"@, "Split the pane downwards"@));
    assert(list[8] == ("close_pane"@, "Close the pane"@));
    assert(list[9] == ("focus_left"@, "Focus the pane to the left"@));
    assert(list[10] == ("focus_right"@, "Focus the pane to the right"@));
    assert(list[11] == ("focus_up"@, "Focus the pane above"@));
    assert(list[12] == ("focus_down"@, "Focus the pane below"@));
    assert(list[13] == ("focus_next_pane"@, "Focus the next pane"@));
    assert(list[14] == ("focus_prev_pane"@, "Focus the previous pane"@));
    assert(list[15] == ("resize_left"@, "Shrink the pane leftwards"@));
    assert(list[16] == ("resize_right"@, "Grow the pane rightwards"@));
    assert(list[17] == ("resize_up"@, "Shrink the pane upwards"@));
    assert(list[18] == ("resize_down"@, "Grow the pane downwards"@));
    assert(list[19] == ("new_tab"@, "New tab"@));
    assert(list[20] == ("close_tab"@, "Close the tab"@));
    assert(list[21] == ("next_tab"@, "Next tab"@));
    assert(list[22] == ("prev_tab"@, "Previous tab"@));
    assert(list[23] == ("increase_font_size"@, "Larger text"@));
    assert(list[24] == ("decrease_font_size"@, "Smaller text"@));
    assert(list[25] == ("reset_font_size"@, "Reset the text size"@));
    assert(list[26] == ("select_all"@, "Select everything on screen"@));
    assert(list[27] == ("toggle_fullscreen"@, "Full screen"@));
    assert(list[28] == ("scroll_line_up"@, "Scroll up a line"@));
    assert(list[29] == ("scroll_line_down"@, "Scroll down a line"@));
    assert(list[30] == ("clear_scrollback"@, "Clear the scrollback"@));
    assert(list[31] == ("scroll_page_up"@, "Scroll up a page"@));
    assert(list[32] == ("scroll_page_down"@, "Scroll down a page"@));
    assert(list[33] == ("scroll_to_top"@, "Scroll to the top"@));
    assert(list[34] == ("scroll_to_bottom"@, "Scroll to the bottom"@));
    assert(list[35] == ("open_settings"@, "Settings"@));
    assert(list[36] == ("open_explorer"@, "File explorer"@));
    assert(list[37] == ("open_help"@, "This page"@));
    assert(list[38] == ("open_plugins"@, "Plugins"@));
}

/// Which group of the reference an action is listed under.
pub proof fn law_actions_are_grouped()
    ensures
        HelpPage::terminal_actions().contains("copy"@),
        HelpPage::terminal_actions().contains("paste"@),
        HelpPage::terminal_actions().contains("select_all"@),
        HelpPage::terminal_actions().contains("reload_config"@),
        HelpPage::terminal_actions().contains("quit"@),
        HelpPage::terminal_actions().len() == 5,
        HelpPage::panes_actions().contains("split_right"@),
        HelpPage::panes_actions().contains("split_left"@),
        HelpPage::panes_actions().contains("split_up"@),
        HelpPage::panes_actions().contains("split_down"@),
        HelpPage::panes_actions().contains("close_pane"@),
        HelpPage::panes_actions().contains("focus_left"@),
        HelpPage::panes_actions().contains("focus_right"@),
        HelpPage::panes_actions().contains("focus_up"@),
        HelpPage::panes_actions().contains("focus_down"@),
        HelpPage::panes_actions().contains("focus_next_pane"@),
        HelpPage::panes_actions().contains("focus_prev_pane"@),
        HelpPage::panes_actions().contains("resize_left"@),
        HelpPage::panes_actions().contains("resize_right"@),
        HelpPage::panes_actions().contains("resize_up"@),
        HelpPage::panes_actions().contains("resize_down"@),
        HelpPage::panes_actions().len() == 15,
        HelpPage::tabs_actions().contains("new_tab"@),
        HelpPage::tabs_actions().contains("close_tab"@),
        HelpPage::tabs_actions().contains("next_tab"@),
        HelpPage::tabs_actions().contains("prev_tab"@),
        HelpPage::tabs_actions().len() == 4,
        HelpPage::view_actions().contains("increase_font_size"@),
        HelpPage::view_actions().contains("decrease_font_size"@),
        HelpPage::view_actions().contains("reset_font_size"@),
        HelpPage::view_actions().contains("toggle_fullscreen"@),
        HelpPage::view_actions().contains("scroll_line_up"@),
        HelpPage::view_actions().contains("scroll_line_down"@),
        HelpPage::view_actions().contains("scroll_page_up"@),
        HelpPage::view_actions().contains("scroll_page_down"@),
        HelpPage::view_actions().contains("scroll_to_top"@),
        HelpPage::view_actions().contains("scroll_to_bottom"@),
        HelpPage::view_actions().contains("clear_scrollback"@),
        HelpPage::view_actions().len() == 11,
        HelpPage::panels_actions().contains("open_settings"@),
        HelpPage::panels_actions().contains("open_explorer"@),
        HelpPage::panels_actions().contains("open_plugins"@),
        HelpPage::panels_actions().contains("open_help"@),
        HelpPage::panels_actions().len() == 4,
{
    assert(HelpPage::terminal_actions()[0] == "copy"@);
    assert(HelpPage::terminal_actions()[1] == "paste"@);
    assert(HelpPage::terminal_actions()[2] == "select_all"@);
    assert(HelpPage::terminal_actions()[3] == "reload_config"@);
    assert(HelpPage::terminal_actions()[4] == "quit"@);
    assert(HelpPage::panes_actions()[0] == "split_right"@);
    assert(HelpPage::panes_actions()[1] == "split_left"@);
    assert(HelpPage::panes_actions()[2] == "split_up"@);
    assert(HelpPage::panes_actions()[3] == "split_down"@);
    assert(HelpPage::panes_actions()[4] == "close_pane"@);
    assert(HelpPage::panes_actions()[5] == "focus_left"@);
    assert(HelpPage::panes_actions()[6] == "focus_right"@);
    assert(HelpPage::panes_actions()[7] == "focus_up"@);
    assert(HelpPage::panes_actions()[8] == "focus_down"@);
    assert(HelpPage::panes_actions()[9] == "focus_next_pane"@);
    assert(HelpPage::panes_actions()[10] == "focus_prev_pane"@);
    assert(HelpPage::panes_actions()[11] == "resize_left"@);
    assert(HelpPage::panes_actions()[12] == "resize_right"@);
    assert(HelpPage::panes_actions()[13] == "resize_up"@);
    assert(HelpPage::panes_actions()[14] == "resize_down"@);
    assert(HelpPage::tabs_actions()[0] == "new_tab"@);
    assert(HelpPage::tabs_actions()[1] == "close_tab"@);
    assert(HelpPage::tabs_actions()[2] == "next_tab"@);
    assert(HelpPage::tabs_actions()[3] == "prev_tab"@);
    assert(HelpPage::view_actions()[0] == "increase_font_size"@);
    assert(HelpPage::view_actions()[1] == "decrease_font_size"@);
    assert(HelpPage::view_actions()[2] == "reset_font_size"@);
    assert(HelpPage::view_actions()[3] == "toggle_fullscreen"@);
    assert(HelpPage::view_actions()[4] == "scroll_line_up"@);
    assert(HelpPage::view_actions()[5] == "scroll_line_down"@);
    assert(HelpPage::view_actions()[6] == "scroll_page_up"@);
    assert(HelpPage::view_actions()[7] == "scroll_page_down"@);
    assert(HelpPage::view_actions()[8] == "scroll_to_top"@);
    assert(HelpPage::view_actions()[9] == "scroll_to_bottom"@);
    assert(HelpPage::view_actions()[10] == "clear_scrollback"@);
    assert(HelpPage::panels_actions()[0] == "open_settings"@);
    assert(HelpPage::panels_actions()[1] == "open_explorer"@);
    assert(HelpPage::panels_actions()[2] == "open_plugins"@);
    assert(HelpPage::panels_actions()[3] == "open_help"@);
}

/// The keys that are not bindings: those of the file explorer and of panels and dialogs.
pub proof fn law_fixed_keys_are_listed()
    ensures
        HelpPage::list_rows(HelpPage::explorer_list()).contains(
            WidgetModel::Shortcut { label: "Move the selection"@, keys: "↑ ↓  pgup pgdn  home end"@ },
        ),
        HelpPage::list_rows(HelpPage::explorer_list()).contains(
            WidgetModel::Shortcut { label: "Open a folder, or a file in $EDITOR"@, keys: "enter"@ },
        ),
        HelpPage::list_rows(HelpPage::explorer_list()).contains(
            WidgetModel::Shortcut { label: "Go up one directory"@, keys: "backspace"@ },
        ),
        HelpPage::list_rows(HelpPage::explorer_list()).contains(
            WidgetModel::Shortcut { label: "Open in $EDITOR"@, keys: "e"@ },
        ),
        HelpPage::list_rows(HelpPage::explorer_list()).contains(
            WidgetModel::Shortcut { label: "Type the path at the prompt"@, keys: "p"@ },
        ),
        HelpPage::list_rows(HelpPage::explorer_list()).contains(
            WidgetModel::Shortcut { label: "cd the shell into the folder"@, keys: "c"@ },
        ),
        HelpPage::list_rows(HelpPage::explorer_list()).contains(
            WidgetModel::Shortcut { label: "Rename"@, keys: "r"@ },
        ),
        HelpPage::list_rows(HelpPage::explorer_list()).contains(
            WidgetModel::Shortcut { label: "New folder"@, keys: "n"@ },
        ),
        HelpPage::list_rows(HelpPage::explorer_list()).contains(
            WidgetModel::Shortcut { label: "Delete"@, keys: "d"@ },
        ),
        HelpPage::list_rows(HelpPage::explorer_list()).contains(
            WidgetModel::Shortcut { label: "Show or hide dotfiles"@, keys: "h"@ },
        ),
        HelpPage::list_rows(HelpPage::explorer_list()).contains(
            WidgetModel::Shortcut { label: "Give the keyboard back to the shell"@, keys: "escape"@ },
        ),
        HelpPage::list_rows(HelpPage::explorer_list()).len() == 11,
        HelpPage::list_rows(HelpPage::panel_list()).contains(
            WidgetModel::Shortcut { label: "Move between controls"@, keys: "tab  shift+tab"@ },
        ),
        HelpPage::list_rows(HelpPage::panel_list()).contains(
            WidgetModel::Shortcut { label: "Move between controls"@, keys: "↑ ↓"@ },
        ),
        HelpPage::list_rows(HelpPage::panel_list()).contains(
            WidgetModel::Shortcut { label: "Change a value"@, keys: "← →"@ },
        ),
        HelpPage::list_rows(HelpPage::panel_list()).contains(
            WidgetModel::Shortcut { label: "Activate, or confirm a prompt"@, keys: "enter  space"@ },
        ),
        HelpPage::list_rows(HelpPage::panel_list()).contains(
            WidgetModel::Shortcut { label: "Answer a confirmation"@, keys: "y  n"@ },
        ),
        HelpPage::list_rows(HelpPage::panel_list()).contains(
            WidgetModel::Shortcut { label: "Cancel, or close"@, keys: "escape"@ },
        ),
        HelpPage::list_rows(HelpPage::panel_list()).len() == 6,
{
    let a = HelpPage::list_rows(HelpPage::explorer_list());
    let b = HelpPage::list_rows(HelpPage::panel_list());
    assert(a[0] == (WidgetModel::Shortcut { label: "Move the selection"@, keys: "↑ ↓  pgup pgdn  home end"@ }));
    assert(a[1] == (WidgetModel::Shortcut { label: "Open a folder, or a file in $EDITOR"@, keys: "enter"@ }));
    assert(a[2] == (WidgetModel::Shortcut { label: "Go up one directory"@, keys: "backspace"@ }));
    assert(a[3] == (WidgetModel::Shortcut { label: "Open in $EDITOR"@, keys: "e"@ }));
    assert(a[4] == (WidgetModel::Shortcut { label: "Type the path at the prompt"@, keys: "p"@ }));
    assert(a[5] == (WidgetModel::Shortcut { label: "cd the shell into the folder"@, keys: "c"@ }));
    assert(a[6] == (WidgetModel::Shortcut { label: "Rename"@, keys: "r"@ }));
    assert(a[7] == (WidgetModel::Shortcut { label: "New folder"@, keys: "n"@ }));
    assert(a[8] == (WidgetModel::Shortcut { label: "Delete"@, keys: "d"@ }));
    assert(a[9] == (WidgetModel::Shortcut { label: "Show or hide dotfiles"@, keys: "h"@ }));
    assert(a[10] == (WidgetModel::Shortcut { label: "Give the keyboard back to the shell"@, keys: "escape"@ }));
    assert(b[0] == (WidgetModel::Shortcut { label: "Move between controls"@, keys: "tab  shift+tab"@ }));
    assert(b[1] == (WidgetModel::Shortcut { label: "Move between controls"@, keys: "↑ ↓"@ }));
    assert(b[2] == (WidgetModel::Shortcut { label: "Change a value"@, keys: "← →"@ }));
    assert(b[3] == (WidgetModel::Shortcut { label: "Activate, or confirm a prompt"@, keys: "enter  space"@ }));
    assert(b[4] == (WidgetModel::Shortcut { label: "Answer a confirmation"@, keys: "y  n"@ }));
    assert(b[5] == (WidgetModel::Shortcut { label: "Cancel, or close"@, keys: "escape"@ }));
}

/// A description that is found is one of those listed for that action; an action that has
/// none is shown by its name, with spaces for underscores.
pub proof fn law_descriptions_belong_to_their_action(action: Seq<char>, text: Seq<char>, i: int)
    ensures
        HelpPage::lookup(action, HelpPage::descriptions().len() as int) == Some(text)
            ==> HelpPage::descriptions().contains((action, text)) && HelpPage::described(action)
            == text,
        HelpPage::lookup(action, HelpPage::descriptions().len() as int) is None ==> {
            &&& HelpPage::described(action).len() == action.len()
            &&& 0 <= i < action.len() && action[i] == '_' ==> HelpPage::described(action)[i] == ' '
            &&& 0 <= i < action.len() && action[i] != '_' ==> HelpPage::described(action)[i]
                == action[i]
        },
        HelpPage::descriptions().contains((action, text)) ==> HelpPage::lookup(
            action,
            HelpPage::descriptions().len() as int,
        ) is Some,
{
    let n = HelpPage::descriptions().len() as int;
    lemma_lookup(action, n);
    if HelpPage::descriptions().contains((action, text)) {
        let k = choose|k: int|
            0 <= k < HelpPage::descriptions().len() && HelpPage::descriptions()[k] == (
                action,
                text,
            );
        assert(HelpPage::descriptions()[k].0 == action);
    }
}

proof fn lemma_lookup(action: Seq<char>, n: int)
    requires
        0 <= n <= HelpPage::descriptions().len(),
    ensures
        match HelpPage::lookup(action, n) {
            Some(text) => HelpPage::descriptions().contains((action, text)),
            None => forall|k: int|
                0 <= k < n ==> (#[trigger] HelpPage::descriptions()[k]).0 != action,
        },
    decreases n,
{
    if n > 0 {
        lemma_lookup(action, n - 1);
        assert(HelpPage::descriptions().contains(HelpPage::descriptions()[n - 1]));
    }
}

/// The rows of the reference: a heading is a heading, and a shortcut says what it does and
/// which keys do it.
pub proof fn law_rows_of_the_reference(label: Seq<char>, keys: Seq<char>)
    ensures
        HelpPage::heading_row(label) == (WidgetModel::Label { text: label, heading: true }),
        HelpPage::shortcut_row(label, keys) == (WidgetModel::Shortcut { label, keys }),
{
}

/// The keys of an action are those bound to it, all of them, and no others.
pub proof fn law_keys_of_an_action(keys: Seq<BindingModel>, action: Seq<char>, chord: Seq<char>)
    ensures
        BindingModel::chords(keys, action).contains(chord) <==> keys.contains(
            BindingModel { chord, action },
        ),
    decreases keys.len(),
{
    let bound = BindingModel { chord, action };
    if keys.len() > 0 {
        let rest = keys.drop_last();
        law_keys_of_an_action(rest, action, chord);
        assert(keys =~= rest.push(keys.last()));
        lemma_pushed(rest, keys.last(), bound);
        lemma_pushed(BindingModel::chords(rest, action), keys.last().chord, chord);
        assert(keys.last() == bound <==> keys.last().action == action && keys.last().chord
            == chord);
    }
}

pub(crate) proof fn lemma_pushed<A>(s: Seq<A>, last: A, x: A)
    ensures
        s.push(last).contains(x) <==> s.contains(x) || x == last,
{
    assert(s.push(last)[s.len() as int] == last);
    if s.contains(x) {
        let k = choose|k: int| 0 <= k < s.len() && s[k] == x;
        assert(s.push(last)[k] == x);
    }
    if s.push(last).contains(x) && x != last {
        let k = choose|k: int| 0 <= k < s.push(last).len() && s.push(last)[k] == x;
        assert(s[k] == x);
    }
}

/// What the reference lists as other bindings: those that no group has, and that do
/// something.
pub proof fn law_what_is_listed_as_other(keys: Seq<BindingModel>, bound: BindingModel)
    ensures
        BindingModel::unclaimed(keys).contains(bound) <==> keys.contains(bound) && bound.action
            != "none"@ && !HelpPage::claimed(bound.action),
    decreases keys.len(),
{
    if keys.len() > 0 {
        let rest = keys.drop_last();
        law_what_is_listed_as_other(rest, bound);
        assert(keys =~= rest.push(keys.last()));
        lemma_pushed(rest, keys.last(), bound);
        lemma_pushed(BindingModel::unclaimed(rest), keys.last(), bound);
    }
}

/// Several keys of one action stand one behind the other, two spaces apart.
pub proof fn law_keys_stand_apart(list: Seq<Seq<char>>, chord: Seq<char>)
    ensures
        crate::help::spaced(seq![chord]) == chord,
        list.len() > 0 ==> crate::help::spaced(list.push(chord)) == crate::help::spaced(list)
            + seq![' ', ' '] + chord,
{
    reveal_strlit("  ");
    assert(list.push(chord).drop_last() =~= list);
    assert("  "@ =~= seq![' ', ' ']);
}

/// The last binding of a chord is the one that counts, and a chord that nothing binds does
/// nothing.
pub proof fn law_the_last_binding_counts(list: Seq<BindingModel>, i: int, chord: Seq<char>)
    ensures
        0 <= i < list.len() && (forall|j: int|
            i < j < list.len() ==> (#[trigger] list[j]).chord != list[i].chord)
            ==> KeyTable::meaning(list).dom().contains(list[i].chord) && KeyTable::meaning(
            list,
        )[list[i].chord] == list[i].action,
        (forall|j: int| 0 <= j < list.len() ==> (#[trigger] list[j]).chord != chord)
            ==> !KeyTable::meaning(list).dom().contains(chord),
    decreases list.len(),
{
    if list.len() > 0 {
        let rest = list.drop_last();
        law_the_last_binding_counts(rest, i, chord);
        if 0 <= i < rest.len() && (forall|j: int|
            i < j < list.len() ==> (#[trigger] list[j]).chord != list[i].chord) {
            assert(list[list.len() - 1].chord != list[i].chord);
            assert forall|j: int| i < j < rest.len() implies (#[trigger] rest[j]).chord
                != rest[i].chord by {
                assert(rest[j] == list[j]);
            }
        }
        if forall|j: int| 0 <= j < list.len() ==> (#[trigger] list[j]).chord != chord {
            assert(list[list.len() - 1].chord != chord);
            assert forall|j: int| 0 <= j < rest.len() implies (#[trigger] rest[j]).chord != chord by {
                assert(rest[j] == list[j]);
            }
        }
    }
}

/// What is in a folder is below it, by its own name, and a direct child; a folder is below
/// itself by no name and no child of itself.
pub proof fn law_what_is_below_a_folder(base: Seq<char>, name: Seq<char>)
    requires
        crate::paths::is_plain_name(name),
    ensures
        crate::paths::child_of(crate::paths::joined(base, name), base),
        crate::paths::below(crate::paths::joined(base, name), base) == Some(name),
        crate::paths::below(base, base) == Some(Seq::<char>::empty()),
        !crate::paths::child_of(base, base),
        !crate::paths::same_path(crate::paths::joined(base, name), base),
        crate::paths::same_path(base, base),
{
    let path = crate::paths::joined(base, name);
    crate::paths::lemma_joined_components(base, name);
    let parts = crate::paths::components(path);
    let n = crate::paths::components(base).len() as int;
    assert(path.subrange(parts[n].0, parts.last().1) =~= name);
}

/// What counts as space and as a control character.
pub proof fn law_spaces_and_controls(c: char)
    ensures
        crate::strings::is_space_char(' ') && crate::strings::is_space_char('\t')
            && crate::strings::is_space_char('\n') && crate::strings::is_space_char('\r'),
        crate::strings::is_space_char(c) <==> {
            let n = c as u32;
            ||| 9 <= n <= 13
            ||| n == 32
            ||| n == 0x85
            ||| n == 0xa0
            ||| n == 0x1680
            ||| 0x2000 <= n <= 0x200a
            ||| n == 0x2028
            ||| n == 0x2029
            ||| n == 0x202f
            ||| n == 0x205f
            ||| n == 0x3000
        },
        crate::strings::is_control_char(c) <==> {
            let n = c as u32;
            ||| n < 32
            ||| 127 <= n < 160
        },
{
}

/// A text holds another where it is that other with something before and behind it.
pub proof fn law_where_a_text_is_held(before: Seq<char>, needle: Seq<char>, after: Seq<char>)
    ensures
        crate::strings::holds(before + needle + after, needle),
        crate::strings::stands_at(before + needle + after, needle, before.len() as int),
        needle.len() > before.len() ==> !crate::strings::holds(before, needle),
{
    let text = before + needle + after;
    let at = before.len() as int;
    assert(text.subrange(at, at + needle.len()) =~= needle);
    assert(crate::strings::stands_at(text, needle, at));
}

/// The start of a text, and a text filled up with spaces.
pub proof fn law_starts_and_fillings(a: Seq<char>, b: Seq<char>, width: int)
    ensures
        crate::strings::prefix(a + b, a.len() as int) == a,
        crate::strings::prefix(a, a.len() as int) == a,
        width <= a.len() ==> crate::strings::padded_right(a, width) == a,
        width > a.len() ==> {
            let filled = crate::strings::padded_right(a, width);
            &&& filled.len() == width
            &&& filled.take(a.len() as int) == a
            &&& forall|i: int| a.len() <= i < width ==> #[trigger] filled[i] == ' '
        },
{
    assert((a + b).take(a.len() as int) =~= a);
    if b.len() == 0 {
        assert(a + b =~= a);
    }
    if width <= a.len() {
        assert(crate::strings::padded_right(a, width) =~= a);
    } else {
        assert(crate::strings::padded_right(a, width).take(a.len() as int) =~= a);
    }
}

/// A number in millionths is written as its whole part, a point and its fraction; a
/// negative one has a minus before it, and one without decimals has no point.
pub proof fn law_numbers_with_a_point(value: nat, whole: nat)
    ensures
        value > 0 ==> crate::decimal::fixed_text(-(value as int), 6) == seq!['-']
            + crate::decimal::fixed_text(value as int, 6),
        value > 0 ==> crate::decimal::fixed_text(-(value as int), 0) == seq!['-']
            + crate::decimal::fixed_text(value as int, 0),
        crate::decimal::fixed_text(value as int, 6) == crate::decimal::digits(value / 1_000_000)
            + seq!['.'] + crate::decimal::padded(value % 1_000_000, 6),
        crate::decimal::fixed_text((whole * 1_000_000) as int, 0) == crate::decimal::digits(whole),
        crate::decimal::fixed_text((whole * 1_000_000) as int, 2) == crate::decimal::digits(whole)
            + seq!['.', '0', '0'],
{
    reveal_with_fuel(crate::decimal::pow10, 7);
    reveal_with_fuel(crate::decimal::padded, 3);
    assert(crate::decimal::pow10(0) == 1);
    assert(crate::decimal::pow10(2) == 100);
    assert(crate::decimal::pow10(4) == 10_000);
    assert(crate::decimal::pow10(6) == 1_000_000);
    assert(crate::decimal::half_even(value, 1) == value);
    assert(crate::decimal::half_even(whole * 1_000_000, 1_000_000) == whole) by {
        assert((whole * 1_000_000) / 1_000_000 == whole);
        assert((whole * 1_000_000) % 1_000_000 == 0);
    }
    assert(crate::decimal::half_even(whole * 1_000_000, 10_000) == whole * 100) by {
        assert((whole * 1_000_000) / 10_000 == whole * 100);
        assert((whole * 1_000_000) % 10_000 == 0);
    }
    assert((whole * 100) / 100 == whole && (whole * 100) % 100 == 0);
    let none = Seq::<char>::empty();
    assert(crate::decimal::padded(0, 0) =~= none);
    assert(crate::decimal::padded(0, 2) =~= seq!['0', '0']);
    assert(crate::decimal::fixed_text(value as int, 6) =~= crate::decimal::digits(
        value / 1_000_000,
    ) + seq!['.'] + crate::decimal::padded(value % 1_000_000, 6));
    assert(crate::decimal::min_nat(0, 6) == 0);
    assert(whole / crate::decimal::pow10(0) == whole);
    let plain = crate::decimal::digits(whole);
    assert(none + plain + none =~= plain);
    assert(crate::decimal::fixed_text((whole * 1_000_000) as int, 0) == none + plain + none);
    assert(crate::decimal::fixed_text((whole * 1_000_000) as int, 2) =~= crate::decimal::digits(
        whole,
    ) + seq!['.', '0', '0']);
    if value > 0 {
        assert(crate::decimal::fixed_text(-(value as int), 6) =~= seq!['-']
            + crate::decimal::fixed_text(value as int, 6));
        assert(crate::decimal::fixed_text(-(value as int), 0) =~= seq!['-']
            + crate::decimal::fixed_text(value as int, 0));
    }
}

} // verus!
