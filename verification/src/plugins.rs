//! The plugins page: what is installed, what is on, and moving plugins in and out.
//!
//! Lists what is on disk, not what is loaded: a disabled plugin is never loaded, so a
//! page built from the running host could show how to turn things off and never how to
//! turn them back on. Import and export are plain directory copies, which the caller
//! makes; which ones, and what is said about them, is decided here.

use vstd::prelude::*;
use vstd::string::*;

use crate::decimal::push_digits;
use crate::paths::join;
use crate::pkg::{Manifest, Runtime};
use crate::strings::same_text;
use crate::ui::{ActionModel, Ui, UiAction, UiModel};
use crate::widget::{push_row, Widget, WidgetId, WidgetModel};

verus! {

/// The id of the import button. Plugin toggles start well above the buttons, so a long
/// list can never collide with them.
pub const IMPORT: u32 = 2;

/// The id of the export button.
pub const EXPORT: u32 = 4;

/// The id of the close button.
pub const CLOSE: u32 = 9;

/// The id of the first plugin's toggle.
pub const PLUGIN_BASE: u32 = 100;

/// What a folder is being chosen for.
#[derive(Debug, Clone, Copy, PartialEq, Eq, Structural)]
pub enum FolderPurpose {
    ImportPlugin,
    ExportPlugins,
}

/// The two lists that decide which plugins run.
#[derive(Debug, PartialEq, Eq)]
pub struct PluginConfig {
    /// An allowlist when it is not empty.
    pub load: Vec<String>,
    /// Always wins.
    pub disable: Vec<String>,
}

/// The two lists as mathematical values.
#[verifier::ext_equal]
pub struct PluginConfigModel {
    pub load: Seq<Seq<char>>,
    pub disable: Seq<Seq<char>>,
}

impl View for PluginConfig {
    type V = PluginConfigModel;

    open spec fn view(&self) -> PluginConfigModel {
        PluginConfigModel {
            load: crate::widget::texts(self.load@),
            disable: crate::widget::texts(self.disable@),
        }
    }
}

impl PluginConfig {
    /// Nothing listed: every plugin runs.
    pub fn new() -> (c: Self)
        ensures
            c@ == (PluginConfigModel { load: Seq::empty(), disable: Seq::empty() }),
    {
        let c = PluginConfig { load: Vec::new(), disable: Vec::new() };
        assert(c@ =~= PluginConfigModel { load: Seq::empty(), disable: Seq::empty() });
        c
    }
}

/// `list` without `name`, the rest in its order.
pub open spec fn without(list: Seq<Seq<char>>, name: Seq<char>) -> Seq<Seq<char>>
    decreases list.len(),
{
    if list.len() == 0 {
        list
    } else if list.last() == name {
        without(list.drop_last(), name)
    } else {
        without(list.drop_last(), name).push(list.last())
    }
}

impl PluginConfigModel {
    /// A plugin runs unless it is disabled, or there is an allowlist that lacks it.
    pub open spec fn enabled(self, name: Seq<char>) -> bool {
        !self.disable.contains(name) && (self.load.len() == 0 || self.load.contains(name))
    }

    /// The lists with `name` turned on or off.
    ///
    /// With an allowlist in force, turning on means joining it and turning off means
    /// leaving it; without one, turning off means joining the other list. So it does for
    /// the only name of an allowlist, which emptied would let everything in.
    pub open spec fn switched(self, name: Seq<char>, on: bool) -> PluginConfigModel {
        let disable = without(self.disable, name);
        if on {
            PluginConfigModel {
                load: if self.load.len() > 0 && !self.load.contains(name) {
                    self.load.push(name)
                } else {
                    self.load
                },
                disable,
            }
        } else if self.load.len() == 0 || self.only(name) {
            PluginConfigModel { load: self.load, disable: disable.push(name) }
        } else {
            PluginConfigModel { load: without(self.load, name), disable }
        }
    }

    /// `name` is all the allowlist holds.
    pub open spec fn only(self, name: Seq<char>) -> bool {
        self.load.len() > 0 && without(self.load, name).len() == 0
    }
}

fn lists(list: &Vec<String>, name: &str) -> (b: bool)
    ensures
        b == crate::widget::texts(list@).contains(name@),
{
    let ghost all = crate::widget::texts(list@);
    let mut i: usize = 0;
    while i < list.len()
        invariant
            i <= list.len(),
            all == crate::widget::texts(list@),
            forall|j: int| 0 <= j < i ==> all[j] != name@,
        decreases list.len() - i,
    {
        assert(all[i as int] == list@[i as int]@);
        if same_text(list[i].as_str(), name) {
            return true;
        }
        i += 1;
    }
    false
}

/// Whether a list holds this name and nothing else.
fn holds_only(list: &Vec<String>, name: &str) -> (b: bool)
    ensures
        b == (list@.len() > 0 && without(crate::widget::texts(list@), name@).len() == 0),
{
    let ghost all = crate::widget::texts(list@);
    let mut i: usize = 0;
    assert(all.take(0) =~= Seq::empty());
    while i < list.len()
        invariant
            i <= list.len(),
            all == crate::widget::texts(list@),
            without(all.take(i as int), name@).len() == 0,
        decreases list.len() - i,
    {
        assert(all.take(i + 1).drop_last() =~= all.take(i as int));
        assert(all[i as int] == list@[i as int]@);
        if !same_text(list[i].as_str(), name) {
            proof {
                lemma_without(all, name@, all[i as int]);
                assert(all.contains(all[i as int]));
                assert(without(all, name@).contains(all[i as int]));
            }
            return false;
        }
        i += 1;
    }
    assert(all.take(i as int) =~= all);
    list.len() > 0
}

fn drop_name(list: &mut Vec<String>, name: &str)
    ensures
        crate::widget::texts(final(list)@) == without(crate::widget::texts(old(list)@), name@),
{
    let ghost all = crate::widget::texts(list@);
    let mut kept: Vec<String> = Vec::new();
    let mut i: usize = 0;
    assert(crate::widget::texts(kept@) =~= without(all.take(0), name@));
    while i < list.len()
        invariant
            i <= list.len(),
            list@ == old(list)@,
            all == crate::widget::texts(list@),
            crate::widget::texts(kept@) == without(all.take(i as int), name@),
        decreases list.len() - i,
    {
        let ghost before = crate::widget::texts(kept@);
        assert(all.take(i + 1).drop_last() =~= all.take(i as int));
        assert(all[i as int] == list@[i as int]@);
        if !same_text(list[i].as_str(), name) {
            kept.push(list[i].clone());
            assert(crate::widget::texts(kept@) =~= before.push(all[i as int]));
        }
        i += 1;
    }
    assert(all.take(i as int) =~= all);
    *list = kept;
}

/// Whether `name` is enabled, given the two lists that decide it.
pub fn is_enabled(config: &PluginConfig, name: &str) -> (b: bool)
    ensures
        b == config@.enabled(name@),
{
    if lists(&config.disable, name) {
        return false;
    }
    config.load.len() == 0 || lists(&config.load, name)
}

/// Turn `name` on or off, editing whichever list is in play.
pub fn set_enabled(config: &mut PluginConfig, name: &str, on: bool)
    ensures
        final(config)@ == old(config)@.switched(name@, on),
{
    let ghost before = config@;
    drop_name(&mut config.disable, name);
    assert(config@.disable == without(before.disable, name@));
    let ghost bare = config@.disable;
    if on {
        if config.load.len() != 0 && !lists(&config.load, name) {
            config.load.push(name.to_owned());
            assert(config@.load =~= before.load.push(name@));
        }
    } else if config.load.len() == 0 || holds_only(&config.load, name) {
        config.disable.push(name.to_owned());
        assert(config@.disable =~= bare.push(name@));
    } else {
        drop_name(&mut config.load, name);
    }
    assert(config@ =~= before.switched(name@, on));
}

/// One plugin found on disk.
#[derive(Debug, PartialEq, Eq)]
pub struct Installed {
    pub manifest: Manifest,
    pub directory: String,
    /// Why it is not running, when it is not. `None` means it loaded.
    pub problem: Option<String>,
}

/// What the caller does after an action on this page.
#[derive(Debug, Clone, Copy, PartialEq, Eq, Structural)]
pub enum PluginsOutcome {
    Continue,
    /// Open the system folder chooser, then act on what comes back.
    ChooseFolder(FolderPurpose),
    /// The enabled set changed: persist it and reload the host.
    Toggled,
    Close,
}

/// How acting on a chosen folder went.
#[derive(Debug, PartialEq, Eq)]
pub enum FolderResult {
    /// The imported plugin's name, or why there is none.
    Imported(Result<String, String>),
    /// How many plugins were copied out, or why that failed.
    Exported(Result<u64, String>),
}

/// The page.
pub struct PluginsPage {
    pub ui: Ui,
    pub found: Vec<Installed>,
    /// Where an import lands: the user's own plugin directory, so an imported plugin
    /// shadows an installed one of the same name.
    pub install_dir: String,
    /// Last thing that happened, shown on the page so it stays readable.
    pub message: Option<String>,
}

/// The page as a mathematical value.
#[verifier::ext_equal]
pub struct PluginsModel {
    pub ui: UiModel,
    pub found: Seq<Installed>,
    pub install_dir: Seq<char>,
    pub message: Option<Seq<char>>,
}

impl View for PluginsPage {
    type V = PluginsModel;

    open spec fn view(&self) -> PluginsModel {
        PluginsModel {
            ui: self.ui@,
            found: self.found@,
            install_dir: self.install_dir@,
            message: crate::strings::text_of(self.message),
        }
    }
}

impl FolderResult {
    /// What the page says about it.
    pub open spec fn report(self, path: Seq<char>) -> Seq<char> {
        match self {
            FolderResult::Imported(Ok(name)) => "imported "@ + name@,
            FolderResult::Imported(Err(why)) => why@,
            FolderResult::Exported(Ok(n)) => if n == 0 {
                "everything was already there"@
            } else {
                "exported "@ + crate::decimal::digits(n as nat) + " plugin(s) to "@ + path
            },
            FolderResult::Exported(Err(why)) => why@,
        }
    }
}

/// The label of a plugin's toggle: its name and version, and then what it runs on or
/// what is wrong with it.
pub open spec fn toggle_label(plugin: Installed) -> Seq<char> {
    let head = plugin.manifest.name@ + "  "@ + plugin.manifest.version@;
    match plugin.problem {
        Some(problem) => head + "  ("@ + problem@ + ")"@,
        None => head + "  "@ + (match plugin.manifest.runtime {
            Runtime::Lua => "lua"@,
            Runtime::Wasm => "wasm"@,
        }),
    }
}

impl PluginsModel {
    /// The toggles, one per plugin, in order.
    pub open spec fn toggles(self, config: PluginConfigModel) -> Seq<WidgetModel> {
        Seq::new(
            self.found.len(),
            |i: int|
                WidgetModel::Toggle {
                    id: WidgetId((PLUGIN_BASE + i) as u32),
                    label: toggle_label(self.found[i]),
                    on: config.enabled(self.found[i].manifest.name@),
                },
        )
    }

    pub open spec fn row_widgets(self, config: PluginConfigModel) -> Seq<WidgetModel> {
        seq![WidgetModel::Label { text: "Installed"@, heading: true }] + (if self.found.len() == 0 {
            seq![
                WidgetModel::Label {
                    text:
                        "No plugins found. Import one below, or write one — see docs/PLUGINS.md."@,
                    heading: false,
                },
            ]
        } else {
            Seq::empty()
        }) + self.toggles(config) + seq![
            WidgetModel::Label { text: ""@, heading: true },
            WidgetModel::Label {
                text: "Import copies a plugin folder in. Export copies them all out."@,
                heading: false,
            },
            WidgetModel::Label {
                text:
                    "Both open a folder chooser; installing from git is `tuzminal plugin install <url>`."@,
                heading: false,
            },
        ] + (match self.message {
            Some(text) => seq![
                WidgetModel::Label { text: ""@, heading: true },
                WidgetModel::Label { text, heading: false },
            ],
            None => Seq::empty(),
        })
    }

    /// The plugin a toggle with this id belongs to.
    pub open spec fn row_of(self, id: WidgetId) -> Option<int> {
        if PLUGIN_BASE <= id.0 < PLUGIN_BASE + self.found.len() {
            Some(id.0 - PLUGIN_BASE)
        } else {
            None
        }
    }

    /// What an action asks for.
    pub open spec fn outcome(self, action: ActionModel) -> PluginsOutcome {
        match action {
            ActionModel::Pressed(id) => if id.0 == CLOSE {
                PluginsOutcome::Close
            } else if id.0 == IMPORT {
                PluginsOutcome::ChooseFolder(FolderPurpose::ImportPlugin)
            } else if id.0 == EXPORT {
                PluginsOutcome::ChooseFolder(FolderPurpose::ExportPlugins)
            } else {
                PluginsOutcome::Continue
            },
            ActionModel::Toggled(id, _) => if self.row_of(id) is Some {
                PluginsOutcome::Toggled
            } else {
                PluginsOutcome::Continue
            },
            _ => PluginsOutcome::Continue,
        }
    }

    /// The page and the lists after an action, and what it asks for. A toggle for a row
    /// that no longer exists does nothing.
    pub open spec fn applied(self, action: ActionModel, config: PluginConfigModel) -> (
        PluginsModel,
        PluginConfigModel,
        PluginsOutcome,
    ) {
        match (action, self.outcome(action)) {
            (ActionModel::Toggled(id, on), PluginsOutcome::Toggled) => {
                let name = self.found[self.row_of(id)->0].manifest.name@;
                (
                    PluginsModel {
                        message: Some(
                            name + " "@ + (if on {
                                "enabled"@
                            } else {
                                "disabled"@
                            }),
                        ),
                        ..self
                    },
                    config.switched(name, on),
                    PluginsOutcome::Toggled,
                )
            },
            (_, outcome) => (self, config, outcome),
        }
    }
}

impl PluginsPage {
    pub fn open(found: Vec<Installed>, install_dir: &str) -> (page: Self)
        ensures
            page@ == (PluginsModel {
                ui: UiModel::empty(),
                found: found@,
                install_dir: install_dir@,
                message: None,
            }),
            page@.ui.wf(),
    {
        PluginsPage { ui: Ui::new(), found, install_dir: install_dir.to_owned(), message: None }
    }

    /// Take over a new list, after an import or a reload.
    pub fn refresh(&mut self, found: Vec<Installed>)
        ensures
            final(self)@ == (PluginsModel { found: found@, ..old(self)@ }),
    {
        self.found = found;
    }

    /// Report how acting on a chosen folder went. Every outcome, failure too, is shown
    /// on the page. Returns whether the installed set changed.
    pub fn folder_chosen(&mut self, done: &FolderResult, path: &str) -> (changed: bool)
        ensures
            changed == (done matches FolderResult::Imported(Ok(_))),
            final(self)@ == (PluginsModel { message: Some(done.report(path@)), ..old(self)@ }),
    {
        match done {
            FolderResult::Imported(Ok(name)) => {
                let mut text = "imported ".to_owned();
                text.append(name.as_str());
                self.message = Some(text);
                true
            },
            FolderResult::Imported(Err(why)) => {
                self.message = Some(why.clone());
                false
            },
            FolderResult::Exported(Ok(n)) => {
                if *n == 0 {
                    self.message = Some("everything was already there".to_owned());
                } else {
                    let mut text = "exported ".to_owned();
                    push_digits(&mut text, *n);
                    text.append(" plugin(s) to ");
                    text.append(path);
                    self.message = Some(text);
                }
                false
            },
            FolderResult::Exported(Err(why)) => {
                self.message = Some(why.clone());
                false
            },
        }
    }

    /// The rows, rebuilt each frame.
    pub fn widgets(&self, config: &PluginConfig) -> (rows: Vec<Widget>)
        requires
            self.found@.len() <= u32::MAX - PLUGIN_BASE,
        ensures
            crate::widget::models(rows@) == self@.row_widgets(config@),
    {
        let mut out: Vec<Widget> = Vec::new();
        assert(crate::widget::models(out@) =~= Seq::empty());
        push_row(&mut out, Widget::heading("Installed"));
        if self.found.len() == 0 {
            push_row(
                &mut out,
                Widget::label(
                    "No plugins found. Import one below, or write one — see docs/PLUGINS.md.",
                ),
            );
        }
        let ghost head = crate::widget::models(out@);
        let ghost toggles = self@.toggles(config@);
        let mut i: usize = 0;
        while i < self.found.len()
            invariant
                i <= self.found@.len(),
                self.found@.len() <= u32::MAX - PLUGIN_BASE,
                toggles == self@.toggles(config@),
                crate::widget::models(out@) =~= head + toggles.take(i as int),
            decreases self.found@.len() - i,
        {
            let plugin = &self.found[i];
            let enabled = is_enabled(config, plugin.manifest.name.as_str());
            let label = label_of(plugin);
            let row = Widget::toggle(WidgetId(PLUGIN_BASE + i as u32), label.as_str(), enabled);
            assert(row@ == toggles[i as int]);
            push_row(&mut out, row);
            i += 1;
            assert(toggles.take(i as int) =~= toggles.take(i - 1).push(toggles[i - 1]));
        }
        assert(toggles.take(i as int) =~= toggles);
        push_row(&mut out, Widget::heading(""));
        push_row(
            &mut out,
            Widget::label("Import copies a plugin folder in. Export copies them all out."),
        );
        push_row(
            &mut out,
            Widget::label(
                "Both open a folder chooser; installing from git is `tuzminal plugin install <url>`.",
            ),
        );
        if let Some(text) = &self.message {
            push_row(&mut out, Widget::heading(""));
            push_row(&mut out, Widget::label(text.as_str()));
        }
        assert(crate::widget::models(out@) =~= self@.row_widgets(config@));
        out
    }

    /// The actions, in the pinned bar: reachable wherever the list is scrolled.
    pub fn footer_widgets(&self) -> (rows: Vec<Widget>)
        ensures
            crate::widget::models(rows@) == seq![
                WidgetModel::Button { id: WidgetId(IMPORT), label: "Import"@, enabled: true },
                WidgetModel::Button { id: WidgetId(EXPORT), label: "Export all"@, enabled: true },
                WidgetModel::Button { id: WidgetId(CLOSE), label: "Close"@, enabled: true },
            ],
    {
        let mut out: Vec<Widget> = Vec::new();
        out.push(Widget::button(WidgetId(IMPORT), "Import"));
        out.push(Widget::button(WidgetId(EXPORT), "Export all"));
        out.push(Widget::button(WidgetId(CLOSE), "Close"));
        assert(crate::widget::models(out@) =~= seq![
            WidgetModel::Button { id: WidgetId(IMPORT), label: "Import"@, enabled: true },
            WidgetModel::Button { id: WidgetId(EXPORT), label: "Export all"@, enabled: true },
            WidgetModel::Button { id: WidgetId(CLOSE), label: "Close"@, enabled: true },
        ]);
        out
    }

    /// Apply an action, changing the lists where it turns a plugin on or off.
    pub fn apply(&mut self, action: &UiAction, config: &mut PluginConfig) -> (outcome:
        PluginsOutcome)
        ensures
            (final(self)@, final(config)@, outcome) == old(self)@.applied(
                action@,
                old(config)@,
            ),
    {
        match action {
            UiAction::Pressed(id) => {
                if id.0 == CLOSE {
                    PluginsOutcome::Close
                } else if id.0 == IMPORT {
                    PluginsOutcome::ChooseFolder(FolderPurpose::ImportPlugin)
                } else if id.0 == EXPORT {
                    PluginsOutcome::ChooseFolder(FolderPurpose::ExportPlugins)
                } else {
                    PluginsOutcome::Continue
                }
            },
            UiAction::Toggled(id, on) => {
                if id.0 < PLUGIN_BASE {
                    return PluginsOutcome::Continue;
                }
                let index: usize = (id.0 - PLUGIN_BASE) as usize;
                if index >= self.found.len() {
                    return PluginsOutcome::Continue;
                }
                set_enabled(config, self.found[index].manifest.name.as_str(), *on);
                let mut text = self.found[index].manifest.name.clone();
                text.append(" ");
                text.append(
                    if *on {
                        "enabled"
                    } else {
                        "disabled"
                    },
                );
                self.message = Some(text);
                PluginsOutcome::Toggled
            },
            _ => PluginsOutcome::Continue,
        }
    }
}

fn label_of(plugin: &Installed) -> (label: String)
    ensures
        label@ == toggle_label(*plugin),
{
    let mut label = plugin.manifest.name.clone();
    label.append("  ");
    label.append(plugin.manifest.version.as_str());
    match &plugin.problem {
        Some(problem) => {
            label.append("  (");
            label.append(problem.as_str());
            label.append(")");
        },
        None => {
            label.append("  ");
            label.append(
                match plugin.manifest.runtime {
                    Runtime::Lua => "lua",
                    Runtime::Wasm => "wasm",
                },
            );
        },
    }
    label
}

/// What reading a folder's manifest came to.
#[derive(Debug, PartialEq, Eq)]
pub enum ManifestRead {
    /// There is no manifest to read.
    Missing,
    /// It does not parse, and why.
    Malformed(String),
    Parsed(Manifest),
}

/// An import that can go ahead: the plugin's name and where it is copied to.
#[derive(Debug, PartialEq, Eq)]
pub struct Import {
    pub name: String,
    pub target: String,
}

/// Why a folder is not imported, or `None`: the first reason that applies.
pub open spec fn import_refusal(
    source: Seq<char>,
    read: ManifestRead,
    entry_is_file: bool,
    target_exists: bool,
) -> Option<Seq<char>> {
    match read {
        ManifestRead::Missing => Some("no plugin.toml in "@ + source),
        ManifestRead::Malformed(why) => Some("bad plugin.toml: "@ + why@),
        ManifestRead::Parsed(manifest) => if !entry_is_file {
            Some("entry file `"@ + manifest.entry@ + "` is missing"@)
        } else if target_exists {
            Some(manifest.name@ + " is already installed"@)
        } else {
            None
        },
    }
}

/// Check a plugin folder before it is copied into `into`: a plugin without its entry
/// would be broken on disk, and one that is there already is not merged with.
pub fn import_plugin(
    source: &str,
    into: &str,
    read: &ManifestRead,
    entry_is_file: bool,
    target_exists: bool,
) -> (r: Result<Import, String>)
    ensures
        match (r, import_refusal(source@, *read, entry_is_file, target_exists)) {
            (Ok(import), None) => read matches ManifestRead::Parsed(manifest) && import.name@
                == manifest.name@ && import.target@ == crate::paths::joined(into@, manifest.name@),
            (Err(why), Some(text)) => why@ == text,
            _ => false,
        },
{
    match read {
        ManifestRead::Missing => {
            let mut why = "no plugin.toml in ".to_owned();
            why.append(source);
            Err(why)
        },
        ManifestRead::Malformed(e) => {
            let mut why = "bad plugin.toml: ".to_owned();
            why.append(e.as_str());
            Err(why)
        },
        ManifestRead::Parsed(manifest) => {
            if !entry_is_file {
                let mut why = "entry file `".to_owned();
                why.append(manifest.entry.as_str());
                why.append("` is missing");
                return Err(why);
            }
            if target_exists {
                let mut why = manifest.name.clone();
                why.append(" is already installed");
                return Err(why);
            }
            Ok(
                Import {
                    name: manifest.name.clone(),
                    target: join(into, manifest.name.as_str()),
                },
            )
        },
    }
}

/// One directory to copy.
#[derive(Debug, PartialEq, Eq)]
pub struct DirCopy {
    pub name: String,
    pub from: String,
    pub to: String,
}

/// A copy as a mathematical value.
#[verifier::ext_equal]
pub struct DirCopyModel {
    pub name: Seq<char>,
    pub from: Seq<char>,
    pub to: Seq<char>,
}

impl View for DirCopy {
    type V = DirCopyModel;

    open spec fn view(&self) -> DirCopyModel {
        DirCopyModel { name: self.name@, from: self.from@, to: self.to@ }
    }
}

impl DirCopyModel {
    pub open spec fn all(list: Seq<DirCopy>) -> Seq<DirCopyModel> {
        Seq::new(list.len(), |i: int| list[i]@)
    }

    pub open spec fn goes_to(list: Seq<DirCopyModel>, to: Seq<char>) -> bool {
        exists|i: int| 0 <= i < list.len() && (#[trigger] list[i]).to == to
    }

    /// The copies that carry the first `n` plugins out: those not there already, each
    /// place filled once.
    pub open spec fn exports(
        found: Seq<Installed>,
        target: Seq<char>,
        exists_there: Seq<bool>,
        n: int,
    ) -> Seq<DirCopyModel>
        decreases n,
    {
        if n <= 0 {
            Seq::empty()
        } else {
            let before = DirCopyModel::exports(found, target, exists_there, n - 1);
            let plugin = found[n - 1];
            let to = crate::paths::joined(target, plugin.manifest.name@);
            if exists_there[n - 1] || DirCopyModel::goes_to(before, to) {
                before
            } else {
                before.push(DirCopyModel { name: plugin.manifest.name@, from: plugin.directory@, to })
            }
        }
    }
}

fn planned(list: &Vec<DirCopy>, to: &str) -> (b: bool)
    ensures
        b == DirCopyModel::goes_to(DirCopyModel::all(list@), to@),
{
    let ghost all = DirCopyModel::all(list@);
    let mut i: usize = 0;
    while i < list.len()
        invariant
            i <= list.len(),
            all == DirCopyModel::all(list@),
            forall|j: int| 0 <= j < i ==> (#[trigger] all[j]).to != to@,
        decreases list.len() - i,
    {
        assert(all[i as int] == list@[i as int]@);
        if same_text(list[i].to.as_str(), to) {
            return true;
        }
        i += 1;
    }
    false
}

/// Plan copying every installed plugin into `target`, skipping the ones already there.
/// `exists_there` says, plugin by plugin, whether its place is taken.
pub fn export_all(found: &Vec<Installed>, target: &str, exists_there: &Vec<bool>) -> (r: Result<
    Vec<DirCopy>,
    String,
>)
    requires
        exists_there@.len() == found@.len(),
    ensures
        match r {
            Ok(copies) => target@.len() > 0 && DirCopyModel::all(copies@) == DirCopyModel::exports(
                found@,
                target@,
                exists_there@,
                found@.len() as int,
            ),
            Err(why) => target@.len() == 0 && why@ == "give a folder to export into"@,
        },
{
    if target.unicode_len() == 0 {
        return Err("give a folder to export into".to_owned());
    }
    let mut copies: Vec<DirCopy> = Vec::new();
    assert(DirCopyModel::all(copies@) =~= Seq::empty());
    let mut i: usize = 0;
    while i < found.len()
        invariant
            i <= found.len(),
            exists_there@.len() == found@.len(),
            DirCopyModel::all(copies@) == DirCopyModel::exports(
                found@,
                target@,
                exists_there@,
                i as int,
            ),
        decreases found.len() - i,
    {
        let ghost before = DirCopyModel::all(copies@);
        let plugin = &found[i];
        let to = join(target, plugin.manifest.name.as_str());
        if !exists_there[i] && !planned(&copies, to.as_str()) {
            let copy = DirCopy {
                name: plugin.manifest.name.clone(),
                from: plugin.directory.clone(),
                to,
            };
            let ghost model = copy@;
            copies.push(copy);
            assert(DirCopyModel::all(copies@) =~= before.push(model));
        }
        i += 1;
    }
    Ok(copies)
}

proof fn lemma_without(list: Seq<Seq<char>>, name: Seq<char>, other: Seq<char>)
    ensures
        !without(list, name).contains(name),
        other != name ==> without(list, name).contains(other) == list.contains(other),
        !list.contains(name) ==> without(list, name) == list,
    decreases list.len(),
{
    if list.len() > 0 {
        let head = list.drop_last();
        lemma_without(head, name, other);
        assert(list =~= head.push(list.last()));
        let rest = without(head, name);
        let out = without(list, name);
        if out.contains(name) {
            let i = choose|i: int| 0 <= i < out.len() && out[i] == name;
            if i < rest.len() {
                assert(rest[i] == name);
            }
        }
        if other != name {
            if list.contains(other) {
                let i = choose|i: int| 0 <= i < list.len() && list[i] == other;
                if i < head.len() {
                    assert(head[i] == other);
                    let k = choose|k: int| 0 <= k < rest.len() && rest[k] == other;
                    assert(out[k] == other);
                } else {
                    assert(out[out.len() - 1] == other);
                }
            }
            if out.contains(other) {
                let i = choose|i: int| 0 <= i < out.len() && out[i] == other;
                if i < rest.len() {
                    assert(rest[i] == other);
                    let k = choose|k: int| 0 <= k < head.len() && head[k] == other;
                    assert(list[k] == other);
                } else {
                    assert(list[list.len() - 1] == other);
                }
            }
        }
        if !list.contains(name) {
            assert(list[list.len() - 1] != name);
            if head.contains(name) {
                let k = choose|k: int| 0 <= k < head.len() && head[k] == name;
                assert(list[k] == name);
            }
            assert(out =~= list);
        }
    }
}

/// A toggle shows what was asked of it: turning a plugin on or off makes it so.
pub proof fn law_toggle_takes_effect(config: PluginConfigModel, name: Seq<char>, on: bool)
    ensures
        config.switched(name, on).enabled(name) == on,
{
    lemma_without(config.disable, name, name);
    lemma_without(config.load, name, name);
    let after = config.switched(name, on);
    if on {
        if config.load.len() > 0 && !config.load.contains(name) {
            assert(after.load[after.load.len() - 1] == name);
        }
    } else if config.load.len() == 0 || config.only(name) {
        assert(after.disable[after.disable.len() - 1] == name);
    }
}

/// Turning one plugin on or off leaves every other as it was.
pub proof fn law_others_are_left_alone(
    config: PluginConfigModel,
    name: Seq<char>,
    other: Seq<char>,
    on: bool,
)
    requires
        other != name,
    ensures
        config.switched(name, on).enabled(other) == config.enabled(other),
{
    lemma_without(config.disable, name, other);
    lemma_without(config.load, name, other);
    let after = config.switched(name, on);
    if on {
        if config.load.len() > 0 && !config.load.contains(name) {
            assert forall|i: int| 0 <= i < config.load.len() implies after.load[i]
                == config.load[i] by {}
            if after.load.contains(other) {
                let i = choose|i: int| 0 <= i < after.load.len() && after.load[i] == other;
                assert(config.load[i] == other);
            }
            if config.load.contains(other) {
                let i = choose|i: int| 0 <= i < config.load.len() && config.load[i] == other;
                assert(after.load[i] == other);
            }
        }
    } else if config.load.len() == 0 || config.only(name) {
        let bare = without(config.disable, name);
        if after.disable.contains(other) {
            let i = choose|i: int| 0 <= i < after.disable.len() && after.disable[i] == other;
            assert(bare[i] == other);
        }
        if bare.contains(other) {
            let i = choose|i: int| 0 <= i < bare.len() && bare[i] == other;
            assert(after.disable[i] == other);
        }
    }
}

/// Without an allowlist, and with one that holds nothing else, turning a plugin that runs
/// off and on again leaves no residue.
pub proof fn law_off_and_on_leaves_no_residue(config: PluginConfigModel, name: Seq<char>)
    requires
        config.load.len() == 0 || config.only(name),
        config.enabled(name),
    ensures
        config.switched(name, false).switched(name, true) == config,
{
    lemma_without(config.disable, name, name);
    let off = config.switched(name, false);
    assert(off.disable.drop_last() =~= config.disable);
    assert(off.switched(name, true) =~= config);
}

/// A plugin's toggle carries an id that no button of the page has.
pub proof fn law_toggles_never_collide(page: PluginsModel, config: PluginConfigModel, i: int)
    requires
        0 <= i < page.found.len() <= u32::MAX - PLUGIN_BASE,
    ensures
        page.toggles(config)[i].id() matches Some(id) && id.0 != IMPORT && id.0 != EXPORT && id.0
            != CLOSE && page.row_of(id) == Some(i),
{
}

} // verus!
