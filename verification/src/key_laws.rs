//! Where a key press goes, and what it comes to there.

use vstd::prelude::*;

use crate::action::Action;
use crate::app::{AppModel, World};
use crate::app_keys::KeyPress;
use crate::effect::EffectModel;
use crate::explorer::{ExplorerModel, PromptModel};
use crate::keys::{Key, KeyChord, LogicalKey, Modifiers, NamedKey, SendModel, WindowKey};
use crate::menu::MenuModel;
use crate::plugins::PluginConfigModel;
use crate::ui::UiKey;

verus! {

/// The shell on screen has the keyboard: no menu is open, no page is the tab on screen
/// and the sidebar does not have it.
pub open spec fn at_the_shell(app: AppModel, world: World) -> bool {
    &&& app.menu is None
    &&& world.kind is Terminal
    &&& !app.sidebar_focused || app.sidebar is None
}

/// Text that can be typed: there is some, and it holds no control character.
pub open spec fn printable(text: Seq<char>) -> bool {
    &&& text.len() > 0
    &&& forall|i: int|
        0 <= i < text.len() ==> (#[trigger] text[i]) as u32 > 0x1f && !(0x7f <= text[i] as u32
            <= 0x9f)
}

/// What is typed at the shell is sent to it, once and whole, as the platform composed it.
/// The view jumps to the prompt first, exactly when it is configured to.
pub proof fn law_what_is_typed_is_sent(
    app: AppModel,
    key: KeyPress,
    world: World,
    config: PluginConfigModel,
    to_bottom: bool,
    now: u64,
)
    requires
        at_the_shell(app, world),
        key.bound is None,
        !key.mods.ctrl,
        !key.mods.alt,
        !key.mods.logo,
        key.text is Some,
        printable(key.text->0@),
    ensures
        ({
            let effects = app.keyed(key, world, config, false, to_bottom, now).1;
            let sent = EffectModel::SendKey(
                SendModel::Bytes(vstd::utf8::encode_utf8(key.text->0@)),
            );
            &&& to_bottom ==> effects == seq![
                EffectModel::ScrollToBottom,
                sent,
                EffectModel::Redraw,
            ]
            &&& !to_bottom ==> effects == seq![sent, EffectModel::Redraw]
        }),
{
    let effects = app.keyed(key, world, config, false, to_bottom, now).1;
    let sent = EffectModel::SendKey(SendModel::Bytes(vstd::utf8::encode_utf8(key.text->0@)));
    assert(crate::keys::sendable(key.text->0@));
    if to_bottom {
        assert(effects =~= seq![EffectModel::ScrollToBottom, sent, EffectModel::Redraw]);
    } else {
        assert(effects =~= seq![sent, EffectModel::Redraw]);
    }
}

/// Text that no key of its own stands behind, such as a composed word, is sent in the same
/// way, and is not offered to plugins first.
pub proof fn law_composed_words_are_sent(
    app: AppModel,
    key: KeyPress,
    world: World,
    config: PluginConfigModel,
    has_plugins: bool,
    to_bottom: bool,
    now: u64,
)
    requires
        at_the_shell(app, world),
        key.logical is Dead || key.logical is Unidentified || (key.logical matches
            LogicalKey::Character(s) && s@.len() != 1),
        !key.mods.ctrl,
        !key.mods.alt,
        !key.mods.logo,
        key.text is Some,
        printable(key.text->0@),
    ensures
        ({
            let effects = app.keyed(key, world, config, has_plugins, to_bottom, now).1;
            let sent = EffectModel::SendKey(
                SendModel::Bytes(vstd::utf8::encode_utf8(key.text->0@)),
            );
            &&& to_bottom ==> effects == seq![
                EffectModel::ScrollToBottom,
                sent,
                EffectModel::Redraw,
            ]
            &&& !to_bottom ==> effects == seq![sent, EffectModel::Redraw]
        }),
{
    let effects = app.keyed(key, world, config, has_plugins, to_bottom, now).1;
    let sent = EffectModel::SendKey(SendModel::Bytes(vstd::utf8::encode_utf8(key.text->0@)));
    assert(crate::keys::sendable(key.text->0@));
    if to_bottom {
        assert(effects =~= seq![EffectModel::ScrollToBottom, sent, EffectModel::Redraw]);
    } else {
        assert(effects =~= seq![sent, EffectModel::Redraw]);
    }
}

/// A key that types nothing, or is held with a modifier, is encoded as itself: the arrow
/// that was pressed, and a capital as a capital.
pub proof fn law_other_keys_are_encoded(
    app: AppModel,
    key: KeyPress,
    world: World,
    config: PluginConfigModel,
    to_bottom: bool,
    now: u64,
    c: char,
)
    requires
        at_the_shell(app, world),
        key.bound is None,
        key.text is None || key.mods.ctrl || key.mods.alt || key.mods.logo,
    ensures
        ({
            let effects = app.keyed(key, world, config, false, to_bottom, now).1;
            let encoded = |k: Key| effects == seq![EffectModel::SendKey(SendModel::Encode(k))];
            &&& key.logical matches LogicalKey::Character(s) ==> s@ == seq![c] ==> encoded(
                Key::Char(c),
            )
            &&& key.logical == LogicalKey::Named(WindowKey::Enter) ==> encoded(
                Key::Named(NamedKey::Enter),
            )
            &&& key.logical == LogicalKey::Named(WindowKey::Tab) ==> encoded(
                Key::Named(NamedKey::Tab),
            )
            &&& key.logical == LogicalKey::Named(WindowKey::Backspace) ==> encoded(
                Key::Named(NamedKey::Backspace),
            )
            &&& key.logical == LogicalKey::Named(WindowKey::Escape) ==> encoded(
                Key::Named(NamedKey::Escape),
            )
            &&& key.logical == LogicalKey::Named(WindowKey::Delete) ==> encoded(
                Key::Named(NamedKey::Delete),
            )
            &&& key.logical == LogicalKey::Named(WindowKey::ArrowUp) ==> encoded(
                Key::Named(NamedKey::Up),
            )
            &&& key.logical == LogicalKey::Named(WindowKey::ArrowDown) ==> encoded(
                Key::Named(NamedKey::Down),
            )
            &&& key.logical == LogicalKey::Named(WindowKey::ArrowLeft) ==> encoded(
                Key::Named(NamedKey::Left),
            )
            &&& key.logical == LogicalKey::Named(WindowKey::ArrowRight) ==> encoded(
                Key::Named(NamedKey::Right),
            )
            &&& key.logical == LogicalKey::Named(WindowKey::Control) || key.logical
                == LogicalKey::Named(WindowKey::Shift) ==> effects == Seq::<EffectModel>::empty()
        }),
{
}

/// A named key of the window system is the key of the same name, each one a key of its
/// own. A bare modifier is none, and the function keys go from the first to the
/// twenty-fourth.
pub proof fn law_keys_keep_their_names(a: WindowKey, b: WindowKey, n: u8)
    ensures
        a.bound() is Some && a.bound() == b.bound() ==> a == b,
        WindowKey::Enter.bound() == Some(NamedKey::Enter),
        WindowKey::Tab.bound() == Some(NamedKey::Tab),
        WindowKey::Backspace.bound() == Some(NamedKey::Backspace),
        WindowKey::Escape.bound() == Some(NamedKey::Escape),
        WindowKey::Space.bound() == Some(NamedKey::Space),
        WindowKey::Insert.bound() == Some(NamedKey::Insert),
        WindowKey::Delete.bound() == Some(NamedKey::Delete),
        WindowKey::Home.bound() == Some(NamedKey::Home),
        WindowKey::End.bound() == Some(NamedKey::End),
        WindowKey::PageUp.bound() == Some(NamedKey::PageUp),
        WindowKey::PageDown.bound() == Some(NamedKey::PageDown),
        WindowKey::ArrowLeft.bound() == Some(NamedKey::Left),
        WindowKey::ArrowRight.bound() == Some(NamedKey::Right),
        WindowKey::ArrowUp.bound() == Some(NamedKey::Up),
        WindowKey::ArrowDown.bound() == Some(NamedKey::Down),
        WindowKey::ContextMenu.bound() == Some(NamedKey::Menu),
        WindowKey::PrintScreen.bound() == Some(NamedKey::PrintScreen),
        WindowKey::Pause.bound() == Some(NamedKey::Pause),
        WindowKey::ScrollLock.bound() == Some(NamedKey::ScrollLock),
        WindowKey::NumLock.bound() == Some(NamedKey::NumLock),
        WindowKey::CapsLock.bound() == Some(NamedKey::CapsLock),
        WindowKey::F(n).bound() == (if 1 <= n <= 24 {
            Some(NamedKey::Function(n))
        } else {
            None
        }),
        a is Control || a is Shift || a is Alt || a is Super || a is Meta || a is Other
            ==> a.bound() is None,
{
}

/// A chord is the key with the modifiers that are held. A capital letter is its small
/// letter with shift, and everything else is left as it is.
pub proof fn law_chords_are_what_is_pressed(chord: KeyChord)
    ensures
        chord.key matches Key::Char(c) ==> 'A' <= c <= 'Z' ==> {
            &&& chord.normal().mods == (Modifiers { shift: true, ..chord.mods })
            &&& chord.normal().key matches Key::Char(small) && small as int == c as int + 32
        },
        !(chord.key matches Key::Char(c) && 'A' <= c <= 'Z') ==> chord.normal() == chord,
{
}

/// A bound chord performs its action and sends nothing of its own; held down, it does
/// nothing more.
pub proof fn law_a_bound_chord_performs_its_action(
    app: AppModel,
    key: KeyPress,
    world: World,
    config: PluginConfigModel,
    to_bottom: bool,
    now: u64,
    action: Action,
)
    requires
        at_the_shell(app, world),
        key.bound == Some(&action),
        key.logical.bound() is Some,
    ensures
        ({
            let (after, effects) = app.keyed(key, world, config, false, to_bottom, now);
            let awake = AppModel { blink: after.blink, ..app };
            &&& !key.repeat ==> (after, effects) == awake.dispatched(action, world)
            &&& key.repeat ==> after == awake && effects == Seq::<EffectModel>::empty()
        }),
{
}

/// Plugins are offered a first press at the shell before anything else happens to it. One
/// that is claimed goes no further; one that is not goes where it would have gone.
pub proof fn law_plugins_are_asked_first(
    app: AppModel,
    key: KeyPress,
    world: World,
    config: PluginConfigModel,
    to_bottom: bool,
    now: u64,
)
    requires
        at_the_shell(app, world),
        key.logical.bound() is Some,
        !key.repeat,
    ensures
        ({
            let (asked, offer) = app.keyed(key, world, config, true, to_bottom, now);
            &&& offer == seq![EffectModel::OfferKey]
            &&& asked == (AppModel { blink: asked.blink, ..app })
            &&& asked.key_answered(true, key, world, to_bottom) == (
                asked,
                seq![EffectModel::Redraw],
            )
            &&& asked.key_answered(false, key, world, to_bottom) == app.keyed(
                key,
                world,
                config,
                false,
                to_bottom,
                now,
            )
        }),
{
}

/// An open menu has the keyboard: up and down move by one row and go round at the ends,
/// home and end stay within the rows, enter and space pick, and any other key closes it.
/// No key goes further.
pub proof fn law_keys_at_a_menu(app: AppModel, world: World, menu: MenuModel, key: Key)
    requires
        app.menu == Some(menu),
        0 <= menu.selected < menu.items.len() < 0x3fff_ffff,
    ensures
        ({
            let (after, effects) = app.menu_keyed(key, world);
            let last = menu.items.len() - 1;
            let at = |row: int|
                after == (AppModel { menu: Some(MenuModel { selected: row, ..menu }), ..app })
                    && effects == seq![EffectModel::Redraw];
            &&& key == Key::Named(NamedKey::Down) ==> at(
                if menu.selected < last {
                    menu.selected + 1
                } else {
                    0
                },
            )
            &&& key == Key::Named(NamedKey::Up) ==> at(
                if menu.selected > 0 {
                    menu.selected - 1
                } else {
                    last
                },
            )
            &&& key == Key::Named(NamedKey::Home) || key == Key::Named(NamedKey::End)
                ==> after.menu is Some && 0 <= after.menu->0.selected <= last && effects == seq![
                EffectModel::Redraw,
            ]
            &&& key == Key::Named(NamedKey::Enter) || key == Key::Named(NamedKey::Space) ==> (
                after,
                effects,
            ) == app.menu_picked(world)
            &&& key is Char || key == Key::Named(NamedKey::Escape) || key == Key::Named(
                NamedKey::Tab,
            ) ==> after == (AppModel { menu: None, menu_rect: None, ..app }) && effects == seq![
                EffectModel::Redraw,
            ]
        }),
{
    let n = menu.items.len() as int;
    if menu.selected + 1 < n {
        vstd::arithmetic::div_mod::lemma_small_mod((menu.selected + 1) as nat, n as nat);
    } else {
        vstd::arithmetic::div_mod::lemma_mod_self_0(n);
    }
    if menu.selected > 0 {
        vstd::arithmetic::div_mod::lemma_small_mod((menu.selected - 1) as nat, n as nat);
    } else {
        vstd::arithmetic::div_mod::lemma_mod_add_multiples_vanish(-1, n);
        vstd::arithmetic::div_mod::lemma_small_mod((n - 1) as nat, n as nat);
    }
    vstd::arithmetic::div_mod::lemma_mod_bound(menu.selected - 0x4000_0000, n);
    vstd::arithmetic::div_mod::lemma_mod_bound(menu.selected + 0x3fff_ffff, n);
}

/// The keys that a page of widgets understands are the keys of the same name. Tab with
/// shift goes back, and space is as good as enter.
pub proof fn law_keys_at_a_page(chord: KeyChord)
    ensures
        ({
            let at_page = crate::action::ui_key(chord);
            &&& chord.key is Char ==> at_page is None
            &&& chord.key == Key::Named(NamedKey::Escape) ==> at_page == Some(UiKey::Escape)
            &&& chord.key == Key::Named(NamedKey::Tab) && chord.mods.shift ==> at_page == Some(
                UiKey::ShiftTab,
            )
            &&& chord.key == Key::Named(NamedKey::Tab) && !chord.mods.shift ==> at_page == Some(
                UiKey::Tab,
            )
            &&& chord.key == Key::Named(NamedKey::Up) ==> at_page == Some(UiKey::Up)
            &&& chord.key == Key::Named(NamedKey::Down) ==> at_page == Some(UiKey::Down)
            &&& chord.key == Key::Named(NamedKey::Left) ==> at_page == Some(UiKey::Left)
            &&& chord.key == Key::Named(NamedKey::Right) ==> at_page == Some(UiKey::Right)
            &&& chord.key == Key::Named(NamedKey::Enter) ==> at_page == Some(UiKey::Activate)
            &&& chord.key == Key::Named(NamedKey::Space) ==> at_page == Some(UiKey::Activate)
            &&& chord.key == Key::Named(NamedKey::Backspace) ==> at_page == Some(UiKey::Backspace)
            &&& chord.key == Key::Named(NamedKey::Delete) ==> at_page == Some(UiKey::Delete)
            &&& chord.key == Key::Named(NamedKey::Home) ==> at_page == Some(UiKey::Home)
            &&& chord.key == Key::Named(NamedKey::End) ==> at_page == Some(UiKey::End)
        }),
{
}

/// Every page is closed by escape and by the binding that opened it, and by nothing that
/// is typed at it.
pub proof fn law_pages_are_closed_by_key(
    app: AppModel,
    chord: KeyChord,
    key: KeyPress,
    config: PluginConfigModel,
    cell_height: int,
)
    ensures
        app.help is Some && (chord.key == Key::Named(NamedKey::Escape) || (key.bound matches Some(
            Action::OpenHelp,
        ) && chord.key is Char)) ==> app.help_keyed(chord, key, cell_height) == (
            AppModel { help: None, ..app },
            seq![EffectModel::ClosePage(crate::window::TabKind::Help)],
        ),
        app.plugins is Some && (key.bound matches Some(Action::OpenPlugins)) ==> app.plugins_keyed(
            chord,
            key,
            config,
        ) == (
            AppModel { plugins: None, ..app },
            seq![EffectModel::ClosePage(crate::window::TabKind::Plugins)],
        ),
        app.panel is Some && (key.bound matches Some(Action::OpenSettings)) ==> app.settings_keyed(
            chord,
            key,
        ) == (
            AppModel { panel: None, ..app },
            seq![EffectModel::ClosePage(crate::window::TabKind::Settings)],
        ),
{
}

/// The shortcut reference scrolls by a row, by ten, or to either end.
pub proof fn law_keys_at_the_reference(
    app: AppModel,
    chord: KeyChord,
    key: KeyPress,
    cell_height: int,
)
    requires
        app.help is Some,
    ensures
        ({
            let ui = app.help->0;
            let after = app.help_keyed(chord, key, cell_height).0;
            &&& chord.key == Key::Named(NamedKey::Up) ==> after.help == Some(
                ui.scrolled(-cell_height),
            )
            &&& chord.key == Key::Named(NamedKey::Down) ==> after.help == Some(
                ui.scrolled(cell_height),
            )
            &&& chord.key == Key::Named(NamedKey::PageUp) ==> after.help == Some(
                ui.scrolled(-10 * cell_height),
            )
            &&& chord.key == Key::Named(NamedKey::PageDown) ==> after.help == Some(
                ui.scrolled(10 * cell_height),
            )
        }),
{
}

/// At the focused sidebar the arrows move the selection by one and the page keys by ten,
/// within the list, and the ends of the list are reached by home and end. A frame is drawn
/// when the selection moved.
pub proof fn law_keys_move_the_selection(
    app: AppModel,
    chord: KeyChord,
    key: KeyPress,
    world: World,
    e: ExplorerModel,
)
    requires
        app.sidebar == Some(e),
        e.wf(),
        e.prompt is None,
        e.entries.len() > 0,
        e.entries.len() < 0x3fff_ffff,
    ensures
        ({
            let (after, effects) = app.explorer_keyed(chord, key, world);
            let last = e.entries.len() - 1;
            let to = |want: int|
                {
                    let row = if want < 0 {
                        0
                    } else if want > last {
                        last
                    } else {
                        want
                    };
                    &&& after.sidebar is Some
                    &&& after.sidebar->0.selected == row
                    &&& after.sidebar->0.entries == e.entries
                    &&& row != e.selected ==> effects == seq![EffectModel::Redraw]
                    &&& row == e.selected ==> effects == Seq::<EffectModel>::empty()
                };
            &&& chord.key == Key::Named(NamedKey::Up) ==> to(e.selected - 1)
            &&& chord.key == Key::Named(NamedKey::Down) ==> to(e.selected + 1)
            &&& chord.key == Key::Named(NamedKey::PageUp) ==> to(e.selected - 10)
            &&& chord.key == Key::Named(NamedKey::PageDown) ==> to(e.selected + 10)
            &&& chord.key == Key::Named(NamedKey::Home) ==> to(0)
            &&& chord.key == Key::Named(NamedKey::End) ==> to(last)
        }),
{
}

/// The letters of the sidebar act on the selected row and on no other: its path is what is
/// inserted, opened, counted or renamed, and a letter with a modifier does nothing.
pub proof fn law_letters_act_on_the_selected_row(
    app: AppModel,
    chord: KeyChord,
    key: KeyPress,
    world: World,
    e: ExplorerModel,
    c: char,
)
    requires
        app.sidebar == Some(e),
        e.prompt is None,
        0 <= e.selected < e.entries.len(),
        chord.key == Key::Char(c),
    ensures
        ({
            let (after, effects) = app.explorer_keyed(chord, key, world);
            let row = e.entries[e.selected];
            let plain = !key.mods.ctrl && !key.mods.alt && !key.mods.logo;
            let own = !(row.kind is Parent);
            &&& !plain ==> after == app && effects == Seq::<EffectModel>::empty()
            &&& plain && c == 'p' ==> after == app && effects == seq![
                EffectModel::PasteText(crate::explorer::quoted(row.path)),
                EffectModel::Redraw,
            ]
            &&& plain && c == 'c' && !(row.kind is File) ==> after == app && effects == seq![
                EffectModel::WriteFocused(
                    vstd::utf8::encode_utf8(
                        "cd "@ + crate::explorer::quoted(row.path) + seq!['\r'],
                    ),
                ),
                EffectModel::Redraw,
            ]
            &&& plain && c == 'c' && row.kind is File ==> after == app && effects == Seq::<
                EffectModel,
            >::empty()
            &&& plain && c == 'e' ==> !after.sidebar_focused && effects.len() > 0 && effects[0]
                == EffectModel::WriteFocused(
                vstd::utf8::encode_utf8(
                    "\"$EDITOR\" "@ + crate::explorer::quoted(row.path) + seq!['\r'],
                ),
            )
            &&& plain && c == 'd' && own ==> after == app && effects == seq![
                EffectModel::CountInside(row.path),
            ]
            &&& plain && c == 'd' && !own ==> after == app && effects == Seq::<EffectModel>::empty()
            &&& plain && c == 'r' && own ==> effects == seq![EffectModel::Redraw]
                && after.sidebar is Some && after.sidebar->0.prompt == Some(
                PromptModel::Rename { from: row.path, value: row.name },
            )
            &&& plain && c == 'r' && !own ==> after == app && effects == Seq::<EffectModel>::empty()
            &&& plain && c == 'n' ==> effects == seq![EffectModel::Redraw] && after.sidebar is Some
                && after.sidebar->0.prompt == Some(PromptModel::NewFolder { value: Seq::empty() })
            &&& plain && c == 'h' ==> effects.len() >= 2 && effects[0] == EffectModel::ShowHidden(
                !world.show_hidden,
            ) && effects.last() == EffectModel::Redraw && after.sidebar is Some
                && after.sidebar->0.show_hidden == !world.show_hidden
        }),
{
}

/// Escape gives the keyboard back and leaves the sidebar open; backspace goes to the
/// directory above.
pub proof fn law_leaving_the_sidebar(
    app: AppModel,
    chord: KeyChord,
    key: KeyPress,
    world: World,
    e: ExplorerModel,
)
    requires
        app.sidebar == Some(e),
        app.sidebar_focused,
        e.prompt is None,
    ensures
        chord.key == Key::Named(NamedKey::Escape) ==> app.explorer_keyed(chord, key, world) == (
            AppModel { sidebar_focused: false, ..app },
            seq![EffectModel::Redraw],
        ),
        chord.key == Key::Named(NamedKey::Backspace) && crate::paths::parent_of(e.dir) is Some
            ==> app.explorer_keyed(chord, key, world) == (
            app,
            seq![EffectModel::ListDir(crate::paths::parent_of(e.dir)->0)],
        ),
{
}

/// A question whether to delete is answered by y and n and by nothing that would answer
/// another prompt: only y commits, n and escape close it, and enter does neither.
pub proof fn law_only_y_deletes(
    app: AppModel,
    chord: KeyChord,
    key: KeyPress,
    world: World,
    e: ExplorerModel,
)
    requires
        app.sidebar == Some(e),
        e.prompt is Some,
        e.prompt->0 is Delete,
    ensures
        ({
            let (after, effects) = app.explorer_keyed(chord, key, world);
            let plain = !key.mods.ctrl && !key.mods.alt && !key.mods.logo;
            &&& effects.contains(EffectModel::CommitPrompt) <==> (chord.key == Key::Char('y')
                && plain)
            &&& chord.key == Key::Named(NamedKey::Escape) || (chord.key == Key::Char('n') && plain)
                ==> after.sidebar is Some && after.sidebar->0.prompt is None
            &&& !(chord.key == Key::Named(NamedKey::Escape)) && !(chord.key == Key::Char('n'))
                ==> after == app
        }),
{
    let effects = app.explorer_keyed(chord, key, world).1;
    if effects.len() > 0 {
        assert(effects.contains(effects[0]));
    }
}

/// A prompt for a name takes what is typed at its end, gives it up one character at a
/// time, is carried out by enter and dropped by escape.
pub proof fn law_prompts_are_typed_into(
    app: AppModel,
    chord: KeyChord,
    key: KeyPress,
    world: World,
    e: ExplorerModel,
    value: Seq<char>,
)
    requires
        app.sidebar == Some(e),
        e.prompt == Some(PromptModel::NewFolder { value }) || (e.prompt matches Some(
            PromptModel::Rename { value: v, .. },
        ) && v == value),
    ensures
        ({
            let (after, effects) = app.explorer_keyed(chord, key, world);
            let holds = |text: Seq<char>|
                {
                    &&& after.sidebar is Some
                    &&& match (e.prompt->0, after.sidebar->0.prompt) {
                        (PromptModel::NewFolder { .. }, Some(PromptModel::NewFolder { value: v }))
                            => v == text,
                        (
                            PromptModel::Rename { from, .. },
                            Some(PromptModel::Rename { from: f, value: v }),
                        ) => f == from && v == text,
                        _ => false,
                    }
                };
            &&& chord.key == Key::Named(NamedKey::Enter) ==> after == app && effects == seq![
                EffectModel::CommitPrompt,
            ]
            &&& chord.key == Key::Named(NamedKey::Escape) ==> after.sidebar is Some
                && after.sidebar->0.prompt is None && effects == seq![EffectModel::Redraw]
            &&& chord.key == Key::Named(NamedKey::Backspace) ==> holds(
                if value.len() > 0 {
                    value.drop_last()
                } else {
                    value
                },
            )
            &&& chord.key is Char && key.text is Some && !key.mods.ctrl && !key.mods.alt
                && !key.mods.logo ==> holds(value + key.text->0@) && effects == seq![
                EffectModel::Redraw,
            ]
            &&& chord.key is Char && (key.mods.ctrl || key.mods.alt || key.mods.logo) ==> after
                == app && effects == Seq::<EffectModel>::empty()
        }),
{
}

} // verus!
