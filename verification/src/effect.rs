//! What the caller is asked to do.
//!
//! Handling an event yields a list of effects, to be carried out in order. Where the
//! outcome of one matters, its comment names the function the outcome is handed to; that
//! function's own effects are carried out before the rest of the list.

use vstd::prelude::*;

use crate::action::MouseButton;
use crate::decimal::Fixed;
use crate::keys::{KeySend, SendModel};
use crate::plugins::{FolderPurpose, PluginConfig, PluginConfigModel};
use crate::ui::{ActionModel, UiAction};
use crate::window::{CursorShape, Direction, ResizeDirection, TabKind};

verus! {

/// Something plugins are told about.
#[derive(Debug, PartialEq, Eq)]
pub enum Notice {
    ConfigReload,
    /// One of their commands was invoked.
    Command(String),
    TabSwitch(u32),
    Bell(u64),
    TitleChange(u64, String),
    PaneOpened(u64),
    PaneClosed(u64),
}

/// A notice as a mathematical value.
#[verifier::ext_equal]
pub enum NoticeModel {
    ConfigReload,
    Command(Seq<char>),
    TabSwitch(u32),
    Bell(u64),
    TitleChange(u64, Seq<char>),
    PaneOpened(u64),
    PaneClosed(u64),
}

impl View for Notice {
    type V = NoticeModel;

    open spec fn view(&self) -> NoticeModel {
        match *self {
            Notice::ConfigReload => NoticeModel::ConfigReload,
            Notice::Command(name) => NoticeModel::Command(name@),
            Notice::TabSwitch(index) => NoticeModel::TabSwitch(index),
            Notice::Bell(pane) => NoticeModel::Bell(pane),
            Notice::TitleChange(pane, title) => NoticeModel::TitleChange(pane, title@),
            Notice::PaneOpened(pane) => NoticeModel::PaneOpened(pane),
            Notice::PaneClosed(pane) => NoticeModel::PaneClosed(pane),
        }
    }
}

/// How a terminal tab came to be opened.
#[derive(Debug, Clone, Copy, PartialEq, Eq, Structural)]
pub enum TabStart {
    /// By a binding, a plugin or the plain button.
    Plain,
    /// From the menu, or in its place: with the shell chosen there.
    Chosen,
}

/// What follows showing another tab.
#[derive(Debug, Clone, Copy, PartialEq, Eq, Structural)]
pub enum AfterSelect {
    /// It was chosen: note that it is looked at, and lay out for it.
    Activate,
    /// A page was returned to.
    Page,
}

/// Something to do.
#[derive(Debug, PartialEq)]
pub enum Effect {
    /// Draw a new frame.
    Redraw,
    /// Compute the pane layout anew and tell every shell its size.
    Relayout,
    /// Leave, once the current event is handled.
    Exit,
    /// Split the focused pane; then `pane_created`.
    Split(Direction),
    /// Move the focus; then `focus_moved`.
    Focus(Direction),
    /// Resize the focused split by a fraction; then `split_resized`.
    ResizeActive(Direction, Fixed),
    /// Focus this pane.
    FocusPane(u64),
    /// Open a terminal tab; then `tab_opened`.
    OpenTab(TabStart),
    /// Open a tab for this page, without a shell.
    OpenPageTab(TabKind),
    /// Close the tab with this number; then `tab_closed`.
    CloseTab(usize),
    /// Close the tab that holds this page, if there is one; then `page_closed`.
    ClosePage(TabKind),
    /// Close this pane; then `pane_closed`.
    ClosePane(u64),
    /// Show the next tab.
    NextTab,
    /// Show the previous tab.
    PrevTab,
    /// Show the tab with this number; if there is one, then `tab_selected`.
    SelectTab(usize, AfterSelect),
    /// Another tab is showing: call `tab_activated`.
    TabActivated,
    /// Move a tab to another place.
    MoveTab(usize, usize),
    /// Start a shell in this pane, running this program instead of the configured one, in
    /// the directory of the pane that had the focus if the flag is set.
    StartShell(u64, Option<String>, bool),
    /// Shut down this pane's shell.
    DropSession(u64),
    /// Note that this pane's shell is gone.
    MarkExited(u64),
    /// Write to the focused shell.
    WriteFocused(Vec<u8>),
    /// Write to this pane's shell.
    WritePane(u64, Vec<u8>),
    /// Send a key press to the focused shell: bytes as they are; a key is encoded, and
    /// then `key_encoded`.
    SendKey(KeySend),
    /// Paste text into the focused shell, bracketed if it asked for that.
    PasteText(String),
    /// Select everything in the focused terminal.
    SelectAll,
    /// Scroll the focused terminal by lines.
    Scroll(i32),
    /// Scroll the focused terminal by pages.
    ScrollPage(i32),
    /// Scroll this pane's terminal by lines.
    ScrollPane(u64, i32),
    /// Scroll the focused terminal to its top.
    ScrollToTop,
    /// Scroll the focused terminal to its bottom.
    ScrollToBottom,
    /// Clear the focused terminal's scrollback.
    ClearScrollback,
    /// Copy the focused terminal's selection.
    CopySelection,
    /// Paste the clipboard into the focused shell.
    PasteClipboard,
    /// Put text on the clipboard.
    SetClipboard(String),
    /// Answer a pane's request for the clipboard.
    AnswerClipboard(u64, u64),
    /// Answer a pane's request for a color of the palette.
    AnswerColor(u64, u64, u8),
    /// Answer a pane's request for its size.
    AnswerSize(u64, u64),
    /// Read the configuration again; then `config_reloaded`.
    ReloadConfig,
    /// Change the font size by points; then `font_resized`.
    FontSize(i32),
    /// Put the font size back to the default.
    ResetFontSize,
    /// Load the fonts again.
    RebuildFonts,
    /// Build the keymap again.
    RebindKeys,
    /// Give every terminal the configured scrollback.
    ResizeScrollback,
    /// Apply the presentation settings.
    ReconfigureSurface,
    /// Load the configured theme.
    ReloadTheme,
    /// Set the window's title.
    SetTitle(String),
    /// Set the window's title to the configured one.
    ConfiguredTitle,
    /// Apply the configured decorations.
    ApplyDecorations,
    /// Say that this setting needs a restart.
    WarnRestart(String),
    /// Apply a configuration overlay; then `apply_reload_actions` or `overlay_rejected`.
    ApplyOverlay(String),
    /// Change whether hidden files show, for the session; then `apply_reload_actions`.
    ShowHidden(bool),
    /// Change the sidebar's width, for the session; then `apply_reload_actions`.
    SidebarCells(u16),
    /// Change which plugins run; then `apply_reload_actions`.
    SetPlugins(PluginConfig),
    /// Load the plugins again, build the keymap from what they register, and refresh the
    /// page.
    ReloadPlugins,
    /// Apply the settings page's change; then `apply_reload_actions`.
    ApplySettings,
    /// Write the settings page's changes to the file.
    SaveSettings,
    /// Enter or leave full screen.
    ToggleFullscreen,
    /// Minimize the window.
    Minimize,
    /// Maximize the window, or undo that.
    ToggleMaximize,
    /// Let the compositor move the window.
    DragWindow,
    /// Let the compositor resize the window from this edge.
    ResizeWindow(ResizeDirection),
    /// Give the pointer this shape, or its usual one.
    PointerShape(Option<CursorShape>),
    /// Tell the plugins about something, and apply what they ask for.
    NotifyPlugins(Notice),
    /// Offer the key press to the plugins; then `key_offered`.
    OfferKey,
    /// Tell a plugin that its status segment was pressed.
    ClickSegment(String),
    /// List the shells there are; then `shells_listed`.
    ListShells,
    /// List the installed plugins; then `plugins_listed`.
    ListPlugins,
    /// Read the directory the sidebar starts in; then `sidebar_opened`.
    OpenSidebar,
    /// Gather the option lists of the settings page.
    GatherSettings,
    /// Apply an action of the settings page; then `panel_done`.
    PanelAction(UiAction),
    /// Open the system folder chooser.
    ChooseFolder(FolderPurpose),
    /// Import from or export to this folder; then `folder_picked`.
    UseFolder(FolderPurpose, String),
    /// Take in what the terminals reported.
    DrainTerminals,
    /// Read this directory; then `dir_listed`.
    ListDir(String),
    /// Read the sidebar's directory again; then `relisted`.
    Relist,
    /// Count what is in this path; then `inside_counted`.
    CountInside(String),
    /// Look whether the prompt's target exists; then `commit_explorer_prompt`.
    CommitPrompt,
    /// Report a button to the program in this pane: which, whether pressed, and the cell.
    ReportMouse(u64, MouseButton, bool, u16, u16),
    /// Start selecting in this pane, at this cell.
    StartSelection(u64, u16, u16),
    /// Extend this pane's selection to this cell.
    UpdateSelection(u64, u16, u16),
    /// Move a divider to the pointer: its place from the window's left edge, or else from
    /// its top, is the part of this extent that comes before the divider.
    DragDivider(Vec<bool>, bool, u32),
}

/// An effect as a mathematical value.
#[verifier::ext_equal]
pub enum EffectModel {
    Redraw,
    Relayout,
    Exit,
    Split(Direction),
    Focus(Direction),
    ResizeActive(Direction, Fixed),
    FocusPane(u64),
    OpenTab(TabStart),
    OpenPageTab(TabKind),
    CloseTab(usize),
    ClosePage(TabKind),
    ClosePane(u64),
    NextTab,
    PrevTab,
    SelectTab(usize, AfterSelect),
    TabActivated,
    MoveTab(usize, usize),
    StartShell(u64, Option<Seq<char>>, bool),
    DropSession(u64),
    MarkExited(u64),
    WriteFocused(Seq<u8>),
    WritePane(u64, Seq<u8>),
    SendKey(SendModel),
    PasteText(Seq<char>),
    SelectAll,
    Scroll(i32),
    ScrollPage(i32),
    ScrollPane(u64, i32),
    ScrollToTop,
    ScrollToBottom,
    ClearScrollback,
    CopySelection,
    PasteClipboard,
    SetClipboard(Seq<char>),
    AnswerClipboard(u64, u64),
    AnswerColor(u64, u64, u8),
    AnswerSize(u64, u64),
    ReloadConfig,
    FontSize(i32),
    ResetFontSize,
    RebuildFonts,
    RebindKeys,
    ResizeScrollback,
    ReconfigureSurface,
    ReloadTheme,
    SetTitle(Seq<char>),
    ConfiguredTitle,
    ApplyDecorations,
    WarnRestart(Seq<char>),
    ApplyOverlay(Seq<char>),
    ShowHidden(bool),
    SidebarCells(u16),
    SetPlugins(PluginConfigModel),
    ReloadPlugins,
    ApplySettings,
    SaveSettings,
    ToggleFullscreen,
    Minimize,
    ToggleMaximize,
    DragWindow,
    ResizeWindow(ResizeDirection),
    PointerShape(Option<CursorShape>),
    NotifyPlugins(NoticeModel),
    OfferKey,
    ClickSegment(Seq<char>),
    ListShells,
    ListPlugins,
    OpenSidebar,
    GatherSettings,
    PanelAction(ActionModel),
    ChooseFolder(FolderPurpose),
    UseFolder(FolderPurpose, Seq<char>),
    DrainTerminals,
    ListDir(Seq<char>),
    Relist,
    CountInside(Seq<char>),
    CommitPrompt,
    ReportMouse(u64, MouseButton, bool, u16, u16),
    StartSelection(u64, u16, u16),
    UpdateSelection(u64, u16, u16),
    DragDivider(Seq<bool>, bool, u32),
}

impl View for Effect {
    type V = EffectModel;

    open spec fn view(&self) -> EffectModel {
        match *self {
            Effect::Redraw => EffectModel::Redraw,
            Effect::Relayout => EffectModel::Relayout,
            Effect::Exit => EffectModel::Exit,
            Effect::Split(a) => EffectModel::Split(a),
            Effect::Focus(a) => EffectModel::Focus(a),
            Effect::ResizeActive(a, b) => EffectModel::ResizeActive(a, b),
            Effect::FocusPane(a) => EffectModel::FocusPane(a),
            Effect::OpenTab(a) => EffectModel::OpenTab(a),
            Effect::OpenPageTab(a) => EffectModel::OpenPageTab(a),
            Effect::CloseTab(a) => EffectModel::CloseTab(a),
            Effect::ClosePage(a) => EffectModel::ClosePage(a),
            Effect::ClosePane(a) => EffectModel::ClosePane(a),
            Effect::NextTab => EffectModel::NextTab,
            Effect::PrevTab => EffectModel::PrevTab,
            Effect::SelectTab(a, b) => EffectModel::SelectTab(a, b),
            Effect::TabActivated => EffectModel::TabActivated,
            Effect::MoveTab(a, b) => EffectModel::MoveTab(a, b),
            Effect::StartShell(a, b, c) => EffectModel::StartShell(a, crate::strings::text_of(b), c),
            Effect::DropSession(a) => EffectModel::DropSession(a),
            Effect::MarkExited(a) => EffectModel::MarkExited(a),
            Effect::WriteFocused(a) => EffectModel::WriteFocused(a@),
            Effect::WritePane(a, b) => EffectModel::WritePane(a, b@),
            Effect::SendKey(a) => EffectModel::SendKey(a@),
            Effect::PasteText(a) => EffectModel::PasteText(a@),
            Effect::SelectAll => EffectModel::SelectAll,
            Effect::Scroll(a) => EffectModel::Scroll(a),
            Effect::ScrollPage(a) => EffectModel::ScrollPage(a),
            Effect::ScrollPane(a, b) => EffectModel::ScrollPane(a, b),
            Effect::ScrollToTop => EffectModel::ScrollToTop,
            Effect::ScrollToBottom => EffectModel::ScrollToBottom,
            Effect::ClearScrollback => EffectModel::ClearScrollback,
            Effect::CopySelection => EffectModel::CopySelection,
            Effect::PasteClipboard => EffectModel::PasteClipboard,
            Effect::SetClipboard(a) => EffectModel::SetClipboard(a@),
            Effect::AnswerClipboard(a, b) => EffectModel::AnswerClipboard(a, b),
            Effect::AnswerColor(a, b, c) => EffectModel::AnswerColor(a, b, c),
            Effect::AnswerSize(a, b) => EffectModel::AnswerSize(a, b),
            Effect::ReloadConfig => EffectModel::ReloadConfig,
            Effect::FontSize(a) => EffectModel::FontSize(a),
            Effect::ResetFontSize => EffectModel::ResetFontSize,
            Effect::RebuildFonts => EffectModel::RebuildFonts,
            Effect::RebindKeys => EffectModel::RebindKeys,
            Effect::ResizeScrollback => EffectModel::ResizeScrollback,
            Effect::ReconfigureSurface => EffectModel::ReconfigureSurface,
            Effect::ReloadTheme => EffectModel::ReloadTheme,
            Effect::SetTitle(a) => EffectModel::SetTitle(a@),
            Effect::ConfiguredTitle => EffectModel::ConfiguredTitle,
            Effect::ApplyDecorations => EffectModel::ApplyDecorations,
            Effect::WarnRestart(a) => EffectModel::WarnRestart(a@),
            Effect::ApplyOverlay(a) => EffectModel::ApplyOverlay(a@),
            Effect::ShowHidden(a) => EffectModel::ShowHidden(a),
            Effect::SidebarCells(a) => EffectModel::SidebarCells(a),
            Effect::SetPlugins(a) => EffectModel::SetPlugins(a@),
            Effect::ReloadPlugins => EffectModel::ReloadPlugins,
            Effect::ApplySettings => EffectModel::ApplySettings,
            Effect::SaveSettings => EffectModel::SaveSettings,
            Effect::ToggleFullscreen => EffectModel::ToggleFullscreen,
            Effect::Minimize => EffectModel::Minimize,
            Effect::ToggleMaximize => EffectModel::ToggleMaximize,
            Effect::DragWindow => EffectModel::DragWindow,
            Effect::ResizeWindow(a) => EffectModel::ResizeWindow(a),
            Effect::PointerShape(a) => EffectModel::PointerShape(a),
            Effect::NotifyPlugins(a) => EffectModel::NotifyPlugins(a@),
            Effect::OfferKey => EffectModel::OfferKey,
            Effect::ClickSegment(a) => EffectModel::ClickSegment(a@),
            Effect::ListShells => EffectModel::ListShells,
            Effect::ListPlugins => EffectModel::ListPlugins,
            Effect::OpenSidebar => EffectModel::OpenSidebar,
            Effect::GatherSettings => EffectModel::GatherSettings,
            Effect::PanelAction(a) => EffectModel::PanelAction(a@),
            Effect::ChooseFolder(a) => EffectModel::ChooseFolder(a),
            Effect::UseFolder(a, b) => EffectModel::UseFolder(a, b@),
            Effect::DrainTerminals => EffectModel::DrainTerminals,
            Effect::ListDir(a) => EffectModel::ListDir(a@),
            Effect::Relist => EffectModel::Relist,
            Effect::CountInside(a) => EffectModel::CountInside(a@),
            Effect::CommitPrompt => EffectModel::CommitPrompt,
            Effect::ReportMouse(a, b, c, d, e) => EffectModel::ReportMouse(a, b, c, d, e),
            Effect::StartSelection(a, b, c) => EffectModel::StartSelection(a, b, c),
            Effect::UpdateSelection(a, b, c) => EffectModel::UpdateSelection(a, b, c),
            Effect::DragDivider(a, b, c) => EffectModel::DragDivider(a@, b, c),
        }
    }
}

impl EffectModel {
    pub open spec fn all(list: Seq<Effect>) -> Seq<EffectModel> {
        Seq::new(list.len(), |i: int| list[i]@)
    }

    /// Effects that are wanted only sometimes.
    pub open spec fn when(wanted: bool, effects: Seq<EffectModel>) -> Seq<EffectModel> {
        if wanted {
            effects
        } else {
            Seq::empty()
        }
    }
}

/// An empty list.
pub fn nothing() -> (list: Vec<Effect>)
    ensures
        EffectModel::all(list@) == Seq::<EffectModel>::empty(),
{
    let list: Vec<Effect> = Vec::new();
    assert(EffectModel::all(list@) =~= Seq::empty());
    list
}

/// A list of one.
pub fn one(effect: Effect) -> (list: Vec<Effect>)
    ensures
        EffectModel::all(list@) == seq![effect@],
{
    let mut list: Vec<Effect> = Vec::new();
    list.push(effect);
    assert(EffectModel::all(list@) =~= seq![effect@]);
    list
}

/// A list of two.
pub fn two(first: Effect, second: Effect) -> (list: Vec<Effect>)
    ensures
        EffectModel::all(list@) == seq![first@, second@],
{
    let mut list: Vec<Effect> = Vec::new();
    list.push(first);
    list.push(second);
    assert(EffectModel::all(list@) =~= seq![first@, second@]);
    list
}

/// Append one effect.
pub fn add_effect(list: &mut Vec<Effect>, effect: Effect)
    ensures
        EffectModel::all(final(list)@) == EffectModel::all(old(list)@).push(effect@),
{
    list.push(effect);
    assert(EffectModel::all(list@) =~= EffectModel::all(old(list)@).push(effect@));
}

/// Append several effects.
pub fn add_effects(list: &mut Vec<Effect>, more: Vec<Effect>)
    ensures
        EffectModel::all(final(list)@) == EffectModel::all(old(list)@) + EffectModel::all(more@),
{
    let ghost added = more@;
    let mut more = more;
    list.append(&mut more);
    assert(EffectModel::all(list@) =~= EffectModel::all(old(list)@) + EffectModel::all(added));
}

} // verus!
