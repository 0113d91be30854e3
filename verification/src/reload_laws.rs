//! What follows when tabs close, settings change, panels end and messages fade.

use vstd::prelude::*;

use crate::app::{AppModel, CloseOutcome, PanelOutcome, ReloadActions, ReloadOutcome};
use crate::effect::{EffectModel, NoticeModel};
use crate::menu::MenuModel;
use crate::plugins::{FolderResult, PluginConfigModel};
use crate::timing::NotificationModel;
use crate::window::TabKind;

verus! {

/// A tab that closes takes its shells with it, each once and in order, and the window is
/// laid out and drawn again; with the last tab the window closes instead.
pub proof fn law_a_closed_tab_is_cleared_away(panes: Seq<u64>)
    ensures
        crate::app::tab_gone(panes, false).len() == panes.len() + 2,
        crate::app::tab_gone(panes, false)[panes.len() as int] == EffectModel::Relayout,
        crate::app::tab_gone(panes, false)[(panes.len() + 1) as int] == EffectModel::Redraw,
        crate::app::tab_gone(panes, true).len() == panes.len() + 1,
        crate::app::tab_gone(panes, true)[panes.len() as int] == EffectModel::Exit,
        forall|i: int, empty: bool|
            0 <= i < panes.len() ==> #[trigger] crate::app::tab_gone(panes, empty)[i]
                == EffectModel::DropSession(panes[i]),
{
}

/// A pane that closes takes its own shell with it; the window is laid out and drawn again
/// if it was there, and closes if it was the last.
pub proof fn law_a_closed_pane_is_cleared_away(pane: u64)
    ensures
        crate::app::pane_gone(pane, CloseOutcome::Closed) == seq![
            EffectModel::DropSession(pane),
            EffectModel::Relayout,
            EffectModel::Redraw,
        ],
        crate::app::pane_gone(pane, CloseOutcome::NotFound) == seq![
            EffectModel::DropSession(pane),
        ],
        crate::app::pane_gone(pane, CloseOutcome::Emptied) == seq![
            EffectModel::DropSession(pane),
            EffectModel::Exit,
        ],
{
    assert(crate::app::pane_gone(pane, CloseOutcome::NotFound) =~= seq![
        EffectModel::DropSession(pane),
    ]);
}

/// What a changed file calls for, when everything in it changed: the plugins hear of it
/// first, then keys, fonts, scrollback and surface are brought up to date before the
/// window is laid out, and it is drawn last.
pub proof fn law_a_full_reload(actions: ReloadActions)
    requires
        actions.rebind_keys,
        actions.rebuild_fonts,
        actions.resize_scrollback,
        actions.reconfigure_surface,
        actions.restart_required@.len() == 0,
    ensures
        ReloadOutcome::Applied(actions).calls_for(false) == seq![
            EffectModel::NotifyPlugins(NoticeModel::ConfigReload),
            EffectModel::RebindKeys,
            EffectModel::RebuildFonts,
            EffectModel::ResizeScrollback,
            EffectModel::ReconfigureSurface,
            EffectModel::Relayout,
            EffectModel::ConfiguredTitle,
            EffectModel::ApplyDecorations,
            EffectModel::Redraw,
        ],
        actions.reload_theme ==> actions.edit_effects(false) == seq![
            EffectModel::RebindKeys,
            EffectModel::RebuildFonts,
            EffectModel::ReloadTheme,
            EffectModel::ResizeScrollback,
            EffectModel::ReconfigureSurface,
            EffectModel::ConfiguredTitle,
            EffectModel::ApplyDecorations,
            EffectModel::Relayout,
        ],
{
    assert(ReloadOutcome::Applied(actions).calls_for(false) =~= seq![
        EffectModel::NotifyPlugins(NoticeModel::ConfigReload),
        EffectModel::RebindKeys,
        EffectModel::RebuildFonts,
        EffectModel::ResizeScrollback,
        EffectModel::ReconfigureSurface,
        EffectModel::Relayout,
        EffectModel::ConfiguredTitle,
        EffectModel::ApplyDecorations,
        EffectModel::Redraw,
    ]);
    if actions.reload_theme {
        assert(actions.edit_effects(false) =~= seq![
            EffectModel::RebindKeys,
            EffectModel::RebuildFonts,
            EffectModel::ReloadTheme,
            EffectModel::ResizeScrollback,
            EffectModel::ReconfigureSurface,
            EffectModel::ConfiguredTitle,
            EffectModel::ApplyDecorations,
            EffectModel::Relayout,
        ]);
    }
}

/// What a change that touches nothing still calls for: the decorations are applied, and
/// the configured title unless tabs name the window; after an edit the window is laid
/// out, after a reload it is drawn and the plugins hear of it.
pub proof fn law_an_idle_reload(actions: ReloadActions)
    requires
        !actions.rebind_keys,
        !actions.rebuild_fonts,
        !actions.reload_theme,
        !actions.resize_scrollback,
        !actions.reconfigure_surface,
        !actions.relayout,
        actions.restart_required@.len() == 0,
    ensures
        ReloadOutcome::Applied(actions).calls_for(true) == seq![
            EffectModel::NotifyPlugins(NoticeModel::ConfigReload),
            EffectModel::ApplyDecorations,
            EffectModel::Redraw,
        ],
        ReloadOutcome::Applied(actions).calls_for(false) == seq![
            EffectModel::NotifyPlugins(NoticeModel::ConfigReload),
            EffectModel::ConfiguredTitle,
            EffectModel::ApplyDecorations,
            EffectModel::Redraw,
        ],
        actions.edit_effects(true) == seq![EffectModel::ApplyDecorations, EffectModel::Relayout],
        actions.edit_effects(false) == seq![
            EffectModel::ConfiguredTitle,
            EffectModel::ApplyDecorations,
            EffectModel::Relayout,
        ],
{
    assert(ReloadOutcome::Applied(actions).calls_for(true) =~= seq![
        EffectModel::NotifyPlugins(NoticeModel::ConfigReload),
        EffectModel::ApplyDecorations,
        EffectModel::Redraw,
    ]);
    assert(ReloadOutcome::Applied(actions).calls_for(false) =~= seq![
        EffectModel::NotifyPlugins(NoticeModel::ConfigReload),
        EffectModel::ConfiguredTitle,
        EffectModel::ApplyDecorations,
        EffectModel::Redraw,
    ]);
    assert(actions.edit_effects(true) =~= seq![
        EffectModel::ApplyDecorations,
        EffectModel::Relayout,
    ]);
    assert(actions.edit_effects(false) =~= seq![
        EffectModel::ConfiguredTitle,
        EffectModel::ApplyDecorations,
        EffectModel::Relayout,
    ]);
}

/// An edit in the settings page does the minimum too: each part is brought up to date
/// exactly if it changed.
pub proof fn law_edits_do_the_minimum(actions: ReloadActions, dynamic_title: bool)
    ensures
        ({
            let effects = actions.edit_effects(dynamic_title);
            &&& effects.contains(EffectModel::RebindKeys) <==> actions.rebind_keys
            &&& effects.contains(EffectModel::RebuildFonts) <==> actions.rebuild_fonts
            &&& effects.contains(EffectModel::ReloadTheme) <==> actions.reload_theme
            &&& effects.contains(EffectModel::ResizeScrollback) <==> actions.resize_scrollback
            &&& effects.contains(EffectModel::ReconfigureSurface) <==> actions.reconfigure_surface
            &&& effects.contains(EffectModel::ConfiguredTitle) <==> !dynamic_title
            &&& effects.contains(EffectModel::ApplyDecorations)
            &&& effects.contains(EffectModel::Relayout)
        }),
{
    lemma_edit_asks(actions, dynamic_title, EffectModel::RebindKeys);
    lemma_edit_asks(actions, dynamic_title, EffectModel::RebuildFonts);
    lemma_edit_asks(actions, dynamic_title, EffectModel::ReloadTheme);
    lemma_edit_asks(actions, dynamic_title, EffectModel::ResizeScrollback);
    lemma_edit_asks(actions, dynamic_title, EffectModel::ReconfigureSurface);
    lemma_edit_asks(actions, dynamic_title, EffectModel::ConfiguredTitle);
    lemma_edit_asks(actions, dynamic_title, EffectModel::ApplyDecorations);
    lemma_edit_asks(actions, dynamic_title, EffectModel::Relayout);
}

proof fn lemma_given(wanted: bool, added: EffectModel, effect: EffectModel)
    ensures
        EffectModel::when(wanted, seq![added]).contains(effect) <==> wanted && effect == added,
{
    crate::drawing_laws::lemma_one(added, effect);
}

proof fn lemma_edit_asks(actions: ReloadActions, dynamic_title: bool, effect: EffectModel)
    requires
        !(effect is WarnRestart),
    ensures
        actions.edit_effects(dynamic_title).contains(effect) <==> {
            ||| actions.rebind_keys && effect == EffectModel::RebindKeys
            ||| actions.rebuild_fonts && effect == EffectModel::RebuildFonts
            ||| actions.reload_theme && effect == EffectModel::ReloadTheme
            ||| actions.resize_scrollback && effect == EffectModel::ResizeScrollback
            ||| actions.reconfigure_surface && effect == EffectModel::ReconfigureSurface
            ||| !dynamic_title && effect == EffectModel::ConfiguredTitle
            ||| effect == EffectModel::ApplyDecorations
            ||| effect == EffectModel::Relayout
        },
{
    let a = EffectModel::when(actions.rebind_keys, seq![EffectModel::RebindKeys]);
    let b = EffectModel::when(actions.rebuild_fonts, seq![EffectModel::RebuildFonts]);
    let c = EffectModel::when(actions.reload_theme, seq![EffectModel::ReloadTheme]);
    let d = EffectModel::when(actions.resize_scrollback, seq![EffectModel::ResizeScrollback]);
    let e = EffectModel::when(actions.reconfigure_surface, seq![EffectModel::ReconfigureSurface]);
    let f = EffectModel::when(!dynamic_title, seq![EffectModel::ConfiguredTitle]);
    let g = seq![EffectModel::ApplyDecorations];
    let h = seq![EffectModel::Relayout];
    let w = actions.warnings();
    let all = a + b + c + d + e + (f + g) + h + w;
    assert(actions.edit_effects(dynamic_title) =~= all);
    lemma_given(actions.rebind_keys, EffectModel::RebindKeys, effect);
    lemma_given(actions.rebuild_fonts, EffectModel::RebuildFonts, effect);
    lemma_given(actions.reload_theme, EffectModel::ReloadTheme, effect);
    lemma_given(actions.resize_scrollback, EffectModel::ResizeScrollback, effect);
    lemma_given(actions.reconfigure_surface, EffectModel::ReconfigureSurface, effect);
    lemma_given(!dynamic_title, EffectModel::ConfiguredTitle, effect);
    crate::drawing_laws::lemma_one(EffectModel::ApplyDecorations, effect);
    crate::drawing_laws::lemma_one(EffectModel::Relayout, effect);
    crate::drawing_laws::lemma_sum(a, b, effect);
    crate::drawing_laws::lemma_sum(a + b, c, effect);
    crate::drawing_laws::lemma_sum(a + b + c, d, effect);
    crate::drawing_laws::lemma_sum(a + b + c + d, e, effect);
    crate::drawing_laws::lemma_sum(f, g, effect);
    crate::drawing_laws::lemma_sum(a + b + c + d + e, f + g, effect);
    crate::drawing_laws::lemma_sum(a + b + c + d + e + (f + g), h, effect);
    crate::drawing_laws::lemma_sum(a + b + c + d + e + (f + g) + h, w, effect);
}

/// What follows from what was done in the settings page: a change is applied and a save is
/// saved, and both are drawn; closing closes the page's tab and keeps nothing of it.
pub proof fn law_what_follows_in_the_settings(app: AppModel, outcome: PanelOutcome)
    ensures
        app.panel is None ==> app.panel_ended(outcome) == (app, Seq::<EffectModel>::empty()),
        app.panel is Some ==> {
            &&& app.panel_ended(PanelOutcome::Continue) == (app, seq![EffectModel::Redraw])
            &&& app.panel_ended(PanelOutcome::Changed) == (
                app,
                seq![EffectModel::ApplySettings, EffectModel::Redraw],
            )
            &&& app.panel_ended(PanelOutcome::Save) == (
                app,
                seq![EffectModel::SaveSettings, EffectModel::Redraw],
            )
            &&& app.panel_ended(PanelOutcome::Close) == (
                AppModel { panel: None, ..app },
                seq![EffectModel::ClosePage(TabKind::Settings)],
            )
        },
{
}

/// Closing or moving in a menu, and giving the keyboard back from the sidebar, draw the
/// window once and change nothing else; without one there is nothing to do.
pub proof fn law_menus_and_focus_end(app: AppModel, delta: int)
    ensures
        app.menu is Some ==> app.menu_closed() == (
            AppModel { menu: None, menu_rect: None, ..app },
            seq![EffectModel::Redraw],
        ),
        app.menu is None ==> app.menu_closed() == (app, Seq::<EffectModel>::empty()),
        app.menu is Some ==> app.menu_moved(delta) == (
            AppModel { menu: Some(app.menu->0.moved(delta)), ..app },
            seq![EffectModel::Redraw],
        ),
        app.menu is None ==> app.menu_moved(delta) == (app, Seq::<EffectModel>::empty()),
        app.sidebar_focused ==> app.unfocused() == (
            AppModel { sidebar_focused: false, ..app },
            seq![EffectModel::Redraw],
        ),
        !app.sidebar_focused ==> app.unfocused() == (app, Seq::<EffectModel>::empty()),
{
}

/// The selection of a menu goes down and up by rows, and round its ends; what is chosen is
/// the value of the selected row.
pub proof fn law_menus_go_round(menu: MenuModel)
    requires
        0 <= menu.selected < menu.items.len(),
    ensures
        menu.moved(1).selected == (if menu.selected + 1 == menu.items.len() {
            0
        } else {
            menu.selected + 1
        }),
        menu.moved(-1).selected == (if menu.selected == 0 {
            menu.items.len() - 1
        } else {
            menu.selected - 1
        }),
        menu.moved(1).items == menu.items && menu.moved(1).kind == menu.kind && menu.moved(1).anchor
            == menu.anchor,
        menu.choice() == Some(menu.items[menu.selected].1),
{
    let n = menu.items.len() as int;
    let c = menu.selected;
    crate::ui::lemma_wrapping(c, n);
    assert((c - 1) % n == (c + n - 1) % n) by (nonlinear_arith)
        requires
            n > 0,
            0 <= c < n,
    ;
}

/// A plugin runs if it is not switched off and the list of those to load, where there is
/// one, has it.
pub proof fn law_which_plugins_run(config: PluginConfigModel, name: Seq<char>)
    ensures
        config.disable.contains(name) ==> !config.enabled(name),
        !config.disable.contains(name) && config.load.len() == 0 ==> config.enabled(name),
        !config.disable.contains(name) && config.load.contains(name) ==> config.enabled(name),
        config.load.len() > 0 && !config.load.contains(name) ==> !config.enabled(name),
{
}

/// What is said of an import or an export: what came of it, by name or by number, or why
/// nothing did.
pub proof fn law_imports_and_exports_are_reported(
    name: String,
    why: String,
    n: u64,
    path: Seq<char>,
)
    ensures
        FolderResult::Imported(Ok(name)).report(path) == "imported "@ + name@,
        FolderResult::Imported(Err(why)).report(path) == why@,
        n > 0 ==> FolderResult::Exported(Ok(n)).report(path) == "exported "@
            + crate::decimal::digits(n as nat) + " plugin(s) to "@ + path,
        FolderResult::Exported(Ok(0)).report(path) == "everything was already there"@,
        FolderResult::Exported(Err(why)).report(path) == why@,
{
}

/// While a message fades the window wakes every twentieth of a second; before that it
/// sleeps until the first of them starts to, and without any it is not woken at all.
pub proof fn law_when_messages_wake_the_window(list: Seq<NotificationModel>, now: u64, i: int)
    ensures
        list.len() == 0 ==> NotificationModel::wake(list, now) is None,
        0 <= i < list.len() && list[i].shown_at <= now && now - list[i].shown_at >= 4_000_000
            ==> NotificationModel::wake(list, now) == Some(now + 50_000),
        0 <= i < list.len() && !NotificationModel::any_fading(list, now) ==> {
            let at = NotificationModel::wake(list, now);
            &&& at is Some
            &&& at->0 <= list[i].shown_at + 4_000_000
            &&& exists|k: int|
                0 <= k < list.len() && at->0 == (#[trigger] list[k]).shown_at + 4_000_000
        },
{
    if 0 <= i < list.len() {
        lemma_first_fade(list, i);
        if list[i].shown_at <= now && now - list[i].shown_at >= 4_000_000 {
            assert(list[i].fading(now));
        }
    }
}

proof fn lemma_first_fade(list: Seq<NotificationModel>, i: int)
    requires
        0 <= i < list.len(),
    ensures
        ({
            let at = NotificationModel::first_fade(list);
            &&& at is Some
            &&& at->0 <= list[i].shown_at + 4_000_000
            &&& exists|k: int|
                0 <= k < list.len() && at->0 == (#[trigger] list[k]).shown_at + 4_000_000
        }),
    decreases list.len(),
{
    let rest = list.drop_last();
    let n = list.len() - 1;
    assert(list[n] == list.last());
    if rest.len() > 0 {
        lemma_first_fade(rest, if i < n { i } else { 0 });
        let k = choose|k: int|
            0 <= k < rest.len() && NotificationModel::first_fade(rest)->0
                == (#[trigger] rest[k]).shown_at + 4_000_000;
        assert(list[k] == rest[k]);
        if i < n {
            assert(list[i] == rest[i]);
        }
    }
}

} // verus!
