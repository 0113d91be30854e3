//! Where a key press goes.
//!
//! The first of these that is there takes it: an open dropdown, the page on screen, a
//! focused sidebar, and then the plugins, the bindings and the shell, in that order. What
//! a page does not understand it swallows, so that typing at it cannot run commands in a
//! terminal that is not on screen.
//!
//! Text that the platform composed without a key that could be bound is input for the
//! shell, where nothing else has the keyboard.

use vstd::prelude::*;
use vstd::string::*;

use crate::action::{panel_key, step, Action};
use crate::app::{App, AppModel, World};
use crate::effect::{add_effect, nothing, one, two, Effect, EffectModel};
use crate::explorer::{ExplorerModel, ExplorerOutcome, OutcomeModel, Prompt, PromptModel};
use crate::keys::{
    bytes_for_key, chord_from, Key, KeyChord, KeySend, LogicalKey, Modifiers, NamedKey, SendModel,
};
use crate::plugins::{PluginConfig, PluginConfigModel, PluginsModel};
use crate::timing::Blink;
use crate::ui::{KeyResponse, ResponseModel, Ui, UiModel};
use crate::widget::EntryKind;

verus! {

/// A key that was pressed.
pub struct KeyPress<'a> {
    pub logical: LogicalKey,
    /// The text the platform composed from it, if any.
    pub text: Option<&'a str>,
    pub mods: Modifiers,
    /// It is held, and this is not the first press.
    pub repeat: bool,
    /// What its chord is bound to, if anything.
    pub bound: Option<&'a Action>,
}

/// Further than any list is long, downwards.
pub const FAR_DOWN: i32 = 0x3fff_ffff;

/// Further than any list is long, upwards.
pub const FAR_UP: i32 = -0x4000_0000;

impl<'a> KeyPress<'a> {
    /// The chord it forms, in the form in which chords are compared.
    pub open spec fn chord(self) -> Option<KeyChord> {
        match self.logical.bound() {
            Some(key) => Some((KeyChord { mods: self.mods, key }).normal()),
            None => None,
        }
    }

    /// No modifier is held but shift.
    pub open spec fn plain(self) -> bool {
        !self.mods.ctrl && !self.mods.alt && !self.mods.logo
    }

    /// The text it would type.
    pub open spec fn typing(self) -> Seq<char> {
        match self.text {
            Some(t) => if self.plain() {
                t@
            } else {
                Seq::empty()
            },
            None => Seq::empty(),
        }
    }

    fn is_plain(&self) -> (b: bool)
        ensures
            b == self.plain(),
    {
        !self.mods.ctrl && !self.mods.alt && !self.mods.logo
    }
}

/// Input for the focused shell. Typing while scrolled back jumps to the prompt.
pub open spec fn input_sent(bytes: Seq<u8>, to_bottom: bool) -> Seq<EffectModel> {
    EffectModel::when(to_bottom, seq![EffectModel::ScrollToBottom]) + seq![
        EffectModel::SendKey(SendModel::Bytes(bytes)),
        EffectModel::Redraw,
    ]
}

fn send_input(bytes: Vec<u8>, to_bottom: bool) -> (effects: Vec<Effect>)
    ensures
        EffectModel::all(effects@) == input_sent(bytes@, to_bottom),
{
    let mut effects = nothing();
    if to_bottom {
        add_effect(&mut effects, Effect::ScrollToBottom);
    }
    let ghost sent = bytes@;
    add_effect(&mut effects, Effect::SendKey(KeySend::Bytes(bytes)));
    add_effect(&mut effects, Effect::Redraw);
    assert(EffectModel::all(effects@) =~= input_sent(sent, to_bottom));
    effects
}

/// A key was encoded for the focused shell, if there is a sequence for it.
pub fn key_encoded(bytes: Option<Vec<u8>>, to_bottom: bool) -> (effects: Vec<Effect>)
    ensures
        EffectModel::all(effects@) == (match bytes {
            Some(b) => input_sent(b@, to_bottom),
            None => Seq::empty(),
        }),
{
    match bytes {
        Some(b) => send_input(b, to_bottom),
        None => nothing(),
    }
}

/// What a key press is to the focused shell.
pub open spec fn key_sent(key: KeyPress, to_bottom: bool) -> Seq<EffectModel> {
    match SendModel::of(key.logical, key.text, key.mods) {
        SendModel::Nothing => Seq::empty(),
        SendModel::Encode(k) => seq![EffectModel::SendKey(SendModel::Encode(k))],
        SendModel::Bytes(bytes) => input_sent(bytes, to_bottom),
    }
}

fn send_key(key: &KeyPress, to_bottom: bool) -> (effects: Vec<Effect>)
    ensures
        EffectModel::all(effects@) == key_sent(*key, to_bottom),
{
    match bytes_for_key(&key.logical, key.text, key.mods) {
        KeySend::Nothing => nothing(),
        KeySend::Encode(k) => one(Effect::SendKey(KeySend::Encode(k))),
        KeySend::Bytes(bytes) => send_input(bytes, to_bottom),
    }
}

/// A key press on a page of widgets: what it types is tried first, so that a plain
/// letter goes into a text field; then what it means to the page.
pub open spec fn page_keyed(
    ui: UiModel,
    chord: KeyChord,
    typing: Seq<char>,
    body: Option<crate::geometry::Rect>,
) -> (UiModel, Option<ResponseModel>) {
    let (typed, edited) = ui.typed_text(typing);
    match edited {
        Some(action) => (typed, Some(ResponseModel::Action(action))),
        None => match crate::action::ui_key(chord) {
            Some(key) => {
                let (after, response) = typed.keyed(key);
                // Focus moved below the fold is brought into view.
                (
                    match body {
                        Some(area) => after.scrolled(after.focus_offset(area)),
                        None => after,
                    },
                    Some(response),
                )
            },
            None => (typed, None),
        },
    }
}

fn key_on_page(ui: &mut Ui, chord: &KeyChord, key: &KeyPress, body: Option<crate::geometry::Rect>) -> (response:
    Option<KeyResponse>)
    requires
        old(ui)@.wf(),
        old(ui)@.room_for(key.typing().len() as int),
    ensures
        ({
            let (after, wanted) = page_keyed(old(ui)@, *chord, key.typing(), body);
            &&& final(ui)@ == after
            &&& match (response, wanted) {
                (Some(r), Some(w)) => r@ == w,
                (None, None) => true,
                _ => false,
            }
        }),
        final(ui)@.wf(),
{
    if key.is_plain() {
        if let Some(text) = key.text {
            if let Some(action) = ui.type_text(text) {
                return Some(KeyResponse::Action(action));
            }
        }
    }
    match panel_key(chord) {
        Some(k) => {
            let response = ui.key(k);
            if let Some(area) = body {
                ui.scroll_to_focus(area);
            }
            Some(response)
        },
        None => None,
    }
}

impl AppModel {
    pub open spec fn menu_keyed(self, key: Key, world: World) -> (AppModel, Seq<EffectModel>) {
        match key {
            Key::Named(NamedKey::Up) => self.menu_moved(-1),
            Key::Named(NamedKey::Down) => self.menu_moved(1),
            Key::Named(NamedKey::Home) => self.menu_moved(FAR_UP as int),
            Key::Named(NamedKey::End) => self.menu_moved(FAR_DOWN as int),
            Key::Named(NamedKey::Enter) => self.menu_picked(world),
            Key::Named(NamedKey::Space) => self.menu_picked(world),
            _ => self.menu_closed(),
        }
    }

    pub open spec fn plugins_keyed(
        self,
        chord: KeyChord,
        key: KeyPress,
        config: PluginConfigModel,
    ) -> (AppModel, Seq<EffectModel>) {
        match self.plugins {
            Some(page) => if key.bound matches Some(Action::OpenPlugins) {
                self.plugins_closed()
            } else {
                let (ui, response) = page_keyed(page.ui, chord, key.typing(), self.plugins_body);
                let after = AppModel { plugins: Some(PluginsModel { ui, ..page }), ..self };
                match response {
                    Some(ResponseModel::Close) => after.plugins_closed(),
                    Some(ResponseModel::Action(action)) => after.plugins_acted(action, config),
                    Some(ResponseModel::Consumed) => (after, seq![EffectModel::Redraw]),
                    None => (after, Seq::empty()),
                }
            },
            None => (self, Seq::empty()),
        }
    }

    pub open spec fn settings_keyed(self, chord: KeyChord, key: KeyPress) -> (
        AppModel,
        Seq<EffectModel>,
    ) {
        match self.panel {
            Some(panel) => if key.bound matches Some(Action::OpenSettings) {
                self.settings_closed()
            } else {
                let (ui, response) = page_keyed(panel, chord, key.typing(), self.panel_body);
                let after = AppModel { panel: Some(ui), ..self };
                match response {
                    Some(ResponseModel::Close) => after.settings_closed(),
                    Some(ResponseModel::Action(action)) => (
                        after,
                        seq![EffectModel::PanelAction(action)],
                    ),
                    Some(ResponseModel::Consumed) => (after, seq![EffectModel::Redraw]),
                    None => (after, Seq::empty()),
                }
            },
            None => (self, Seq::empty()),
        }
    }

    /// How far a key scrolls the shortcut reference.
    pub open spec fn help_scroll(key: Key, cell_height: int) -> Option<int> {
        match key {
            Key::Named(NamedKey::Up) => Some(-cell_height),
            Key::Named(NamedKey::Down) => Some(cell_height),
            Key::Named(NamedKey::PageUp) => Some(-(cell_height * 10)),
            Key::Named(NamedKey::PageDown) => Some(cell_height * 10),
            Key::Named(NamedKey::Home) => Some(FAR_UP as int),
            Key::Named(NamedKey::End) => Some(FAR_DOWN as int),
            _ => None,
        }
    }

    /// The reference has nothing to edit or press: it scrolls, and it closes.
    pub open spec fn help_keyed(self, chord: KeyChord, key: KeyPress, cell_height: int) -> (
        AppModel,
        Seq<EffectModel>,
    ) {
        match self.help {
            Some(ui) => if chord.key == Key::Named(NamedKey::Escape) {
                self.help_closed()
            } else {
                match AppModel::help_scroll(chord.key, cell_height) {
                    Some(delta) => (
                        AppModel { help: Some(ui.scrolled(delta)), ..self },
                        EffectModel::when(
                            ui.scrolled(delta).scroll != ui.scroll,
                            seq![EffectModel::Redraw],
                        ),
                    ),
                    None => if key.bound matches Some(Action::OpenHelp) {
                        self.help_closed()
                    } else {
                        (self, Seq::empty())
                    },
                }
            },
            None => (self, Seq::empty()),
        }
    }

    /// A move of the explorer's selection.
    pub open spec fn explorer_moved(self, e: ExplorerModel, delta: int) -> (
        AppModel,
        Seq<EffectModel>,
    ) {
        (
            AppModel { sidebar: Some(e.moved(delta)), ..self },
            EffectModel::when(e.moved(delta).selected != e.selected, seq![EffectModel::Redraw]),
        )
    }

    /// A key press while one of the explorer's prompts is open.
    pub open spec fn prompt_keyed(self, e: ExplorerModel, prompt: PromptModel, chord: KeyChord, key: KeyPress) -> (
        AppModel,
        Seq<EffectModel>,
    ) {
        let closed = (
            AppModel { sidebar: Some(e.with_prompt(None)), ..self },
            seq![EffectModel::Redraw],
        );
        if chord.key == Key::Named(NamedKey::Escape) {
            closed
        } else {
            match prompt {
                // A deletion asks y or n, so that the key that confirms a rename cannot
                // confirm it too.
                PromptModel::Delete { .. } => if chord.key == Key::Char('y') && key.plain() {
                    (self, seq![EffectModel::CommitPrompt])
                } else if chord.key == Key::Char('n') && key.plain() {
                    closed
                } else {
                    (self, Seq::empty())
                },
                _ => match chord.key {
                    Key::Named(NamedKey::Enter) => (self, seq![EffectModel::CommitPrompt]),
                    Key::Named(NamedKey::Backspace) => (
                        AppModel { sidebar: Some(e.erased()), ..self },
                        seq![EffectModel::Redraw],
                    ),
                    _ => match key.text {
                        Some(text) => if key.plain() {
                            (
                                AppModel { sidebar: Some(e.typed(text@)), ..self },
                                seq![EffectModel::Redraw],
                            )
                        } else {
                            (self, Seq::empty())
                        },
                        None => (self, Seq::empty()),
                    },
                },
            }
        }
    }

    /// A key press at the focused sidebar.
    pub open spec fn explorer_keyed(self, chord: KeyChord, key: KeyPress, world: World) -> (
        AppModel,
        Seq<EffectModel>,
    ) {
        match self.sidebar {
            None => (self, Seq::empty()),
            Some(e) => match e.prompt {
                Some(prompt) => self.prompt_keyed(e, prompt, chord, key),
                None => match chord.key {
                    Key::Named(NamedKey::Escape) => self.unfocused(),
                    Key::Named(NamedKey::Up) => self.explorer_moved(e, -1),
                    Key::Named(NamedKey::Down) => self.explorer_moved(e, 1),
                    Key::Named(NamedKey::PageUp) => self.explorer_moved(e, -10),
                    Key::Named(NamedKey::PageDown) => self.explorer_moved(e, 10),
                    Key::Named(NamedKey::Home) => self.explorer_moved(e, FAR_UP as int),
                    Key::Named(NamedKey::End) => self.explorer_moved(e, FAR_DOWN as int),
                    Key::Named(NamedKey::Enter) => self.explorer_asked(e.activation()),
                    Key::Named(NamedKey::Backspace) => match crate::paths::parent_of(e.dir) {
                        Some(up) => self.explorer_asked(OutcomeModel::Enter(up)),
                        None => (self, Seq::empty()),
                    },
                    Key::Char(c) => if !key.plain() {
                        (self, Seq::empty())
                    } else {
                        self.explorer_letter(e, c, world)
                    },
                    _ => (self, Seq::empty()),
                },
            },
        }
    }

    /// A letter at the focused sidebar.
    pub open spec fn explorer_letter(self, e: ExplorerModel, c: char, world: World) -> (
        AppModel,
        Seq<EffectModel>,
    ) {
        let row = if e.selected < e.entries.len() {
            Some(e.entries[e.selected])
        } else {
            None
        };
        if c == 'r' {
            match e.own_row() {
                Some(own) => (
                    AppModel {
                        sidebar: Some(
                            e.with_prompt(
                                Some(PromptModel::Rename { from: own.path, value: own.name }),
                            ),
                        ),
                        ..self
                    },
                    seq![EffectModel::Redraw],
                ),
                None => (self, Seq::empty()),
            }
        } else if c == 'n' {
            (
                AppModel {
                    sidebar: Some(
                        e.with_prompt(Some(PromptModel::NewFolder { value: Seq::empty() })),
                    ),
                    ..self
                },
                seq![EffectModel::Redraw],
            )
        } else if c == 'd' {
            match e.own_row() {
                Some(own) => (self, seq![EffectModel::CountInside(own.path)]),
                None => (self, Seq::empty()),
            }
        } else if c == 'h' {
            (
                AppModel {
                    sidebar: Some(ExplorerModel { show_hidden: !world.show_hidden, ..e }),
                    ..self
                },
                seq![EffectModel::ShowHidden(!world.show_hidden)] + EffectModel::when(
                    e.show_hidden == world.show_hidden,
                    seq![EffectModel::Relist],
                ) + seq![EffectModel::Redraw],
            )
        } else if c == 'c' {
            match row {
                Some(entry) => if entry.kind != EntryKind::File {
                    self.explorer_asked(OutcomeModel::RunCd(entry.path))
                } else {
                    (self, Seq::empty())
                },
                None => (self, Seq::empty()),
            }
        } else if c == 'e' {
            match row {
                Some(entry) => self.explorer_asked(OutcomeModel::OpenEditor(entry.path)),
                None => (self, Seq::empty()),
            }
        } else if c == 'p' {
            match row {
                Some(entry) => self.explorer_asked(OutcomeModel::InsertPath(entry.path)),
                None => (self, Seq::empty()),
            }
        } else {
            (self, Seq::empty())
        }
    }

    /// A key press no plugin claimed: a binding, else input for the shell. A held key
    /// repeats as input, but does not perform its action again.
    pub open spec fn key_for_terminal(self, key: KeyPress, world: World, to_bottom: bool) -> (
        AppModel,
        Seq<EffectModel>,
    ) {
        match key.bound {
            Some(action) => if key.repeat {
                (self, Seq::empty())
            } else {
                self.dispatched(*action, world)
            },
            None => (self, key_sent(key, to_bottom)),
        }
    }

    /// A page on screen, a dropdown or the focused sidebar has the keyboard.
    pub open spec fn has_keyboard(self, world: World) -> bool {
        self.menu is Some || self.plugins_active(world) || self.help_active(world)
            || self.settings_active(world) || (self.sidebar_focused && self.sidebar is Some)
    }

    /// The plugins looked at a key press, and one of them claimed it or none did.
    pub open spec fn key_answered(
        self,
        claimed: bool,
        key: KeyPress,
        world: World,
        to_bottom: bool,
    ) -> (AppModel, Seq<EffectModel>) {
        if claimed {
            (self, seq![EffectModel::Redraw])
        } else {
            self.key_for_terminal(key, world, to_bottom)
        }
    }

    /// The cursor shows from a key press on.
    pub open spec fn woken(self, now: u64) -> AppModel {
        AppModel { blink: Blink { on: true, at: now, last_input: now }, ..self }
    }

    /// A key press.
    pub open spec fn keyed(
        self,
        key: KeyPress,
        world: World,
        config: PluginConfigModel,
        has_plugins: bool,
        to_bottom: bool,
        now: u64,
    ) -> (AppModel, Seq<EffectModel>) {
        let awake = self.woken(now);
        match key.chord() {
            None => (
                awake,
                if self.has_keyboard(world) {
                    Seq::empty()
                } else {
                    key_sent(key, to_bottom)
                },
            ),
            Some(chord) => if self.menu is Some {
                awake.menu_keyed(chord.key, world)
            } else if self.plugins_active(world) {
                awake.plugins_keyed(chord, key, config)
            } else if self.help_active(world) {
                awake.help_keyed(chord, key, world.cell.1 as int)
            } else if self.settings_active(world) {
                awake.settings_keyed(chord, key)
            } else if self.sidebar_focused && self.sidebar is Some {
                if key.bound matches Some(Action::OpenExplorer) {
                    awake.explorer_toggled()
                } else {
                    awake.explorer_keyed(chord, key, world)
                }
            } else if !key.repeat && has_plugins {
                (awake, seq![EffectModel::OfferKey])
            } else {
                awake.key_for_terminal(key, world, to_bottom)
            },
        }
    }

    /// Whatever page the text would go to has room for it.
    pub open spec fn room_for(self, n: int) -> bool {
        &&& self.panel matches Some(ui) ==> ui.room_for(n)
        &&& self.plugins matches Some(page) ==> page.ui.room_for(n)
    }
}

impl App {
    /// Whether a text of `n` characters can be typed into the pages' focused fields.
    pub fn has_room(&self, n: usize) -> (b: bool)
        ensures
            b == self@.room_for(n as int),
    {
        let panel = match &self.panel {
            Some(ui) => ui.has_room(n),
            None => true,
        };
        let plugins = match &self.plugins_page {
            Some(page) => page.ui.has_room(n),
            None => true,
        };
        panel && plugins
    }

    /// A key at an open dropdown: it is a small, deliberate choice, and any other key
    /// closes it.
    fn menu_key(&mut self, key: Key, world: &World) -> (effects: Vec<Effect>)
        requires
            old(self)@.wf(),
        ensures
            (final(self)@, EffectModel::all(effects@)) == old(self)@.menu_keyed(key, *world),
            final(self)@.wf(),
    {
        match key {
            Key::Named(NamedKey::Up) => self.move_menu(-1),
            Key::Named(NamedKey::Down) => self.move_menu(1),
            Key::Named(NamedKey::Home) => self.move_menu(FAR_UP),
            Key::Named(NamedKey::End) => self.move_menu(FAR_DOWN),
            Key::Named(NamedKey::Enter) | Key::Named(NamedKey::Space) => self.pick_menu_item(world),
            _ => self.close_menu(),
        }
    }

    /// A key at the plugins page.
    fn plugins_key(&mut self, chord: &KeyChord, key: &KeyPress, config: PluginConfig) -> (effects:
        Vec<Effect>)
        requires
            old(self)@.wf(),
            old(self)@.room_for(key.typing().len() as int),
        ensures
            (final(self)@, EffectModel::all(effects@)) == old(self)@.plugins_keyed(
                *chord,
                *key,
                config@,
            ),
            final(self)@.wf(),
    {
        if let Some(Action::OpenPlugins) = key.bound {
            if self.plugins_page.is_none() {
                return nothing();
            }
            return self.close_plugins();
        }
        let body = self.plugins_body;
        let response = match &mut self.plugins_page {
            Some(page) => key_on_page(&mut page.ui, chord, key, body),
            None => {
                return nothing();
            },
        };
        match response {
            Some(KeyResponse::Close) => self.close_plugins(),
            Some(KeyResponse::Action(action)) => self.handle_plugins_action(&action, config),
            Some(KeyResponse::Consumed) => one(Effect::Redraw),
            None => nothing(),
        }
    }

    /// A key at the settings page.
    fn settings_key(&mut self, chord: &KeyChord, key: &KeyPress) -> (effects: Vec<Effect>)
        requires
            old(self)@.wf(),
            old(self)@.room_for(key.typing().len() as int),
        ensures
            (final(self)@, EffectModel::all(effects@)) == old(self)@.settings_keyed(*chord, *key),
            final(self)@.wf(),
    {
        if let Some(Action::OpenSettings) = key.bound {
            if self.panel.is_none() {
                return nothing();
            }
            return self.close_settings();
        }
        let body = self.panel_body;
        let response = match &mut self.panel {
            Some(ui) => key_on_page(ui, chord, key, body),
            None => {
                return nothing();
            },
        };
        match response {
            Some(KeyResponse::Close) => self.close_settings(),
            Some(KeyResponse::Action(action)) => one(Effect::PanelAction(action)),
            Some(KeyResponse::Consumed) => one(Effect::Redraw),
            None => nothing(),
        }
    }

    /// A key at the shortcut reference.
    fn help_key(&mut self, chord: &KeyChord, key: &KeyPress, cell_height: u32) -> (effects: Vec<
        Effect,
    >)
        requires
            old(self)@.wf(),
            cell_height * 10 <= i32::MAX,
        ensures
            (final(self)@, EffectModel::all(effects@)) == old(self)@.help_keyed(
                *chord,
                *key,
                cell_height as int,
            ),
            final(self)@.wf(),
    {
        if self.help.is_none() {
            return nothing();
        }
        let row: i32 = cell_height as i32;
        let delta: i32 = match chord.key {
            Key::Named(NamedKey::Escape) => {
                return self.close_help();
            },
            Key::Named(NamedKey::Up) => -row,
            Key::Named(NamedKey::Down) => row,
            Key::Named(NamedKey::PageUp) => -(row * 10),
            Key::Named(NamedKey::PageDown) => row * 10,
            Key::Named(NamedKey::Home) => FAR_UP,
            Key::Named(NamedKey::End) => FAR_DOWN,
            _ => {
                if let Some(Action::OpenHelp) = key.bound {
                    return self.close_help();
                }
                return nothing();
            },
        };
        let moved = match &mut self.help {
            Some(page) => page.ui.scroll_by(delta),
            None => false,
        };
        if moved {
            one(Effect::Redraw)
        } else {
            nothing()
        }
    }

    /// Move the explorer's selection.
    fn move_explorer(&mut self, delta: i32) -> (effects: Vec<Effect>)
        requires
            old(self)@.wf(),
            old(self)@.sidebar is Some,
        ensures
            (final(self)@, EffectModel::all(effects@)) == old(self)@.explorer_moved(
                old(self)@.sidebar->0,
                delta as int,
            ),
            final(self)@.wf(),
    {
        let moved = match &mut self.sidebar {
            Some(explorer) => explorer.move_selection(delta),
            None => false,
        };
        self.handle_explorer_outcome(step(moved))
    }

    /// A key while a rename, new-folder or delete prompt is open: every key belongs to
    /// it.
    fn explorer_prompt_key(&mut self, chord: &KeyChord, key: &KeyPress) -> (effects: Vec<Effect>)
        requires
            old(self)@.wf(),
            old(self)@.sidebar matches Some(e) && e.prompt is Some,
        ensures
            (final(self)@, EffectModel::all(effects@)) == old(self)@.prompt_keyed(
                old(self)@.sidebar->0,
                old(self)@.sidebar->0.prompt->0,
                *chord,
                *key,
            ),
            final(self)@.wf(),
    {
        let plain = key.is_plain();
        match &mut self.sidebar {
            Some(explorer) => {
                let confirming = match explorer.prompt() {
                    Some(Prompt::Delete { .. }) => true,
                    _ => false,
                };
                match chord.key {
                    Key::Named(NamedKey::Escape) => {
                        explorer.cancel_prompt();
                        return one(Effect::Redraw);
                    },
                    _ => {},
                }
                if confirming {
                    if !plain {
                        return nothing();
                    }
                    return match chord.key {
                        Key::Char('y') => one(Effect::CommitPrompt),
                        Key::Char('n') => {
                            explorer.cancel_prompt();
                            one(Effect::Redraw)
                        },
                        _ => nothing(),
                    };
                }
                match chord.key {
                    Key::Named(NamedKey::Enter) => one(Effect::CommitPrompt),
                    Key::Named(NamedKey::Backspace) => {
                        explorer.prompt_backspace();
                        one(Effect::Redraw)
                    },
                    _ => {
                        if plain {
                            if let Some(text) = key.text {
                                if explorer.prompt_input(text) {
                                    return one(Effect::Redraw);
                                }
                            }
                        }
                        nothing()
                    },
                }
            },
            None => nothing(),
        }
    }

    /// A letter at the focused sidebar.
    fn explorer_letter_key(&mut self, c: char, world: &World) -> (effects: Vec<Effect>)
        requires
            old(self)@.wf(),
            old(self)@.sidebar is Some,
        ensures
            (final(self)@, EffectModel::all(effects@)) == old(self)@.explorer_letter(
                old(self)@.sidebar->0,
                c,
                *world,
            ),
            final(self)@.wf(),
    {
        let outcome: ExplorerOutcome = match &mut self.sidebar {
            Some(explorer) => {
                if c == 'r' {
                    step(explorer.begin_rename())
                } else if c == 'n' {
                    explorer.begin_new_folder();
                    ExplorerOutcome::Redraw
                } else if c == 'd' {
                    return match explorer.selected() {
                        Some(entry) => {
                            if entry.kind == EntryKind::Parent {
                                nothing()
                            } else {
                                one(Effect::CountInside(entry.path.clone()))
                            }
                        },
                        None => nothing(),
                    };
                } else if c == 'h' {
                    let mut effects = one(Effect::ShowHidden(!world.show_hidden));
                    if explorer.set_show_hidden(!world.show_hidden) {
                        add_effect(&mut effects, Effect::Relist);
                    }
                    add_effect(&mut effects, Effect::Redraw);
                    assert(EffectModel::all(effects@) =~= old(self)@.explorer_letter(
                        old(self)@.sidebar->0,
                        c,
                        *world,
                    ).1);
                    return effects;
                } else if c == 'c' {
                    match explorer.selected() {
                        Some(entry) => {
                            if entry.kind != EntryKind::File {
                                ExplorerOutcome::RunCd(entry.path.clone())
                            } else {
                                ExplorerOutcome::Continue
                            }
                        },
                        None => ExplorerOutcome::Continue,
                    }
                } else if c == 'e' {
                    match explorer.selected() {
                        Some(entry) => ExplorerOutcome::OpenEditor(entry.path.clone()),
                        None => ExplorerOutcome::Continue,
                    }
                } else if c == 'p' {
                    match explorer.selected() {
                        Some(entry) => ExplorerOutcome::InsertPath(entry.path.clone()),
                        None => ExplorerOutcome::Continue,
                    }
                } else {
                    ExplorerOutcome::Continue
                }
            },
            None => ExplorerOutcome::Continue,
        };
        self.handle_explorer_outcome(outcome)
    }

    /// A key at the focused sidebar.
    pub fn explorer_key(&mut self, chord: &KeyChord, key: &KeyPress, world: &World) -> (effects: Vec<
        Effect,
    >)
        requires
            old(self)@.wf(),
        ensures
            (final(self)@, EffectModel::all(effects@)) == old(self)@.explorer_keyed(
                *chord,
                *key,
                *world,
            ),
            final(self)@.wf(),
    {
        let prompting = match &self.sidebar {
            Some(explorer) => explorer.prompt().is_some(),
            None => {
                return nothing();
            },
        };
        if prompting {
            return self.explorer_prompt_key(chord, key);
        }
        match chord.key {
            Key::Named(NamedKey::Escape) => self.unfocus_explorer(),
            Key::Named(NamedKey::Up) => self.move_explorer(-1),
            Key::Named(NamedKey::Down) => self.move_explorer(1),
            Key::Named(NamedKey::PageUp) => self.move_explorer(-10),
            Key::Named(NamedKey::PageDown) => self.move_explorer(10),
            Key::Named(NamedKey::Home) => self.move_explorer(FAR_UP),
            Key::Named(NamedKey::End) => self.move_explorer(FAR_DOWN),
            Key::Named(NamedKey::Enter) => {
                let outcome = match &self.sidebar {
                    Some(explorer) => explorer.activate(),
                    None => ExplorerOutcome::Continue,
                };
                self.handle_explorer_outcome(outcome)
            },
            Key::Named(NamedKey::Backspace) => {
                let up = match &self.sidebar {
                    Some(explorer) => explorer.go_up(),
                    None => None,
                };
                match up {
                    Some(dir) => self.handle_explorer_outcome(ExplorerOutcome::Enter(dir)),
                    None => nothing(),
                }
            },
            Key::Char(c) => {
                if key.is_plain() {
                    self.explorer_letter_key(c, world)
                } else {
                    nothing()
                }
            },
            _ => nothing(),
        }
    }

    /// A key press that no plugin claimed.
    fn key_unclaimed(&mut self, key: &KeyPress, world: &World, to_bottom: bool) -> (effects: Vec<
        Effect,
    >)
        requires
            old(self)@.wf(),
        ensures
            (final(self)@, EffectModel::all(effects@)) == old(self)@.key_for_terminal(
                *key,
                *world,
                to_bottom,
            ),
            final(self)@.wf(),
    {
        if let Some(action) = key.bound {
            if key.repeat {
                return nothing();
            }
            return self.dispatch(action, world);
        }
        send_key(key, to_bottom)
    }

    /// Whether a page, a dropdown or the sidebar has the keyboard.
    fn keyboard_taken(&self, world: &World) -> (b: bool)
        ensures
            b == self@.has_keyboard(*world),
    {
        self.menu.is_some() || self.plugins_active(world) || self.help_active(world)
            || self.settings_active(world) || (self.sidebar_focused && self.sidebar.is_some())
    }

    /// The plugins looked at a key press. One that is claimed goes no further.
    pub fn key_offered(&mut self, claimed: bool, key: &KeyPress, world: &World, to_bottom: bool) -> (effects:
        Vec<Effect>)
        requires
            old(self)@.wf(),
        ensures
            (final(self)@, EffectModel::all(effects@)) == old(self)@.key_answered(
                claimed,
                *key,
                *world,
                to_bottom,
            ),
            final(self)@.wf(),
    {
        if claimed {
            one(Effect::Redraw)
        } else {
            self.key_unclaimed(key, world, to_bottom)
        }
    }

    /// Handle a key press. `config` is which plugins are configured to run,
    /// `has_plugins` whether any is loaded, and `to_bottom` whether typing scrolls to
    /// the prompt.
    pub fn on_key(
        &mut self,
        key: &KeyPress,
        world: &World,
        config: PluginConfig,
        has_plugins: bool,
        to_bottom: bool,
        now: u64,
    ) -> (effects: Vec<Effect>)
        requires
            old(self)@.wf(),
            old(self)@.room_for(key.typing().len() as int),
            world.cell.1 * 10 <= i32::MAX,
        ensures
            (final(self)@, EffectModel::all(effects@)) == old(self)@.keyed(
                *key,
                *world,
                config@,
                has_plugins,
                to_bottom,
                now,
            ),
            final(self)@.wf(),
    {
        self.blink.key_pressed(now);
        assert(self@ =~= old(self)@.woken(now));
        let chord = match chord_from(&key.logical, key.mods) {
            Some(c) => c,
            // Composed text is not a chord to match, but it is text to insert.
            None => {
                if self.keyboard_taken(world) {
                    return nothing();
                }
                return send_key(key, to_bottom);
            },
        };
        if self.menu.is_some() {
            return self.menu_key(chord.key, world);
        }
        if self.plugins_active(world) {
            return self.plugins_key(&chord, key, config);
        }
        if self.help_active(world) {
            return self.help_key(&chord, key, world.cell.1);
        }
        if self.settings_active(world) {
            return self.settings_key(&chord, key);
        }
        if self.sidebar_focused && self.sidebar.is_some() {
            if let Some(Action::OpenExplorer) = key.bound {
                return self.toggle_explorer();
            }
            return self.explorer_key(&chord, key, world);
        }
        if !key.repeat && has_plugins {
            return one(Effect::OfferKey);
        }
        self.key_unclaimed(key, world, to_bottom)
    }
}

/// Nothing typed at a page reaches the shell: while a page, a menu or the focused
/// sidebar has the keyboard, no key press is sent on or offered to plugins.
pub proof fn law_pages_swallow_typing(
    app: AppModel,
    key: KeyPress,
    world: World,
    config: PluginConfigModel,
    has_plugins: bool,
    to_bottom: bool,
    now: u64,
    send: SendModel,
)
    requires
        app.has_keyboard(world),
    ensures
        ({
            let effects = app.keyed(key, world, config, has_plugins, to_bottom, now).1;
            &&& !effects.contains(EffectModel::SendKey(send))
            &&& !effects.contains(EffectModel::OfferKey)
        }),
{
}

/// What is typed reaches the shell as it was typed, capitals and composed text included:
/// where nothing else has the keyboard, no plugin is there to claim the key and it is
/// bound to nothing, the very text is sent. The chord a binding is looked up by plays no
/// part in it.
pub proof fn law_typing_is_verbatim(
    app: AppModel,
    key: KeyPress,
    world: World,
    config: PluginConfigModel,
    to_bottom: bool,
    now: u64,
)
    requires
        !app.has_keyboard(world),
        key.bound is None,
        key.plain(),
        key.text is Some,
        crate::keys::sendable(key.text->0@),
    ensures
        app.keyed(key, world, config, false, to_bottom, now) == (
            app.woken(now),
            input_sent(vstd::utf8::encode_utf8(key.text->0@), to_bottom),
        ),
{
}

/// Text composed without a key that could be bound is sent whole, whether or not there
/// are plugins.
pub proof fn law_composed_text_survives(
    app: AppModel,
    key: KeyPress,
    world: World,
    config: PluginConfigModel,
    has_plugins: bool,
    to_bottom: bool,
    now: u64,
)
    requires
        !app.has_keyboard(world),
        key.chord() is None,
        key.plain(),
        key.text is Some,
        crate::keys::sendable(key.text->0@),
    ensures
        app.keyed(key, world, config, has_plugins, to_bottom, now).1 == input_sent(
            vstd::utf8::encode_utf8(key.text->0@),
            to_bottom,
        ),
{
}

/// The settings page owns the keyboard while it is the tab on screen: a key press leaves
/// the sidebar as it was and sends no byte to a shell.
pub proof fn law_settings_own_the_keyboard(
    app: AppModel,
    key: KeyPress,
    world: World,
    config: PluginConfigModel,
    has_plugins: bool,
    to_bottom: bool,
    now: u64,
    bytes: Seq<u8>,
)
    requires
        app.menu is None,
        app.settings_active(world),
    ensures
        ({
            let (after, effects) = app.keyed(key, world, config, has_plugins, to_bottom, now);
            &&& after.sidebar == app.sidebar
            &&& !effects.contains(EffectModel::WriteFocused(bytes))
            &&& !effects.contains(EffectModel::SendKey(SendModel::Bytes(bytes)))
        }),
{
}

/// A held key does not perform its action again.
pub proof fn law_held_keys_do_not_repeat_actions(
    app: AppModel,
    key: KeyPress,
    world: World,
    to_bottom: bool,
)
    requires
        key.repeat,
        key.bound is Some,
    ensures
        app.key_for_terminal(key, world, to_bottom) == (app, Seq::<EffectModel>::empty()),
{
}

/// Every key press shows the cursor and starts its blink anew, wherever the key goes.
pub proof fn law_typing_shows_the_cursor(
    app: AppModel,
    key: KeyPress,
    world: World,
    config: PluginConfigModel,
    has_plugins: bool,
    to_bottom: bool,
    now: u64,
)
    ensures
        app.keyed(key, world, config, has_plugins, to_bottom, now).0.blink == (Blink {
            on: true,
            at: now,
            last_input: now,
        }),
{
}

} // verus!
