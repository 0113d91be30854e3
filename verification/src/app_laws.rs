//! What holds of handling events as a whole.

use vstd::prelude::*;

use crate::app::{AppModel, CloseOutcome, PluginCommand, ReloadActions, ReloadOutcome, World};
use crate::app_keys::KeyPress;
use crate::app_mouse::{Ground, Hit, Wheel};
use crate::decimal::Fixed;
use crate::effect::EffectModel;
use crate::explorer::OutcomeModel;
use crate::keys::Modifiers;
use crate::plugins::PluginConfigModel;
use crate::window::TabKind;

verus! {

/// A broken configuration never breaks a running terminal: one that does not parse, or
/// that says what it said before, calls for nothing.
pub proof fn law_a_broken_config_changes_nothing(outcome: ReloadOutcome, dynamic_title: bool)
    requires
        !(outcome is Applied),
    ensures
        outcome.calls_for(dynamic_title) == Seq::<EffectModel>::empty(),
{
}

/// A list of effects with one more that is only there when `wanted`.
proof fn lemma_added(
    before: Seq<EffectModel>,
    wanted: bool,
    added: EffectModel,
    effect: EffectModel,
)
    ensures
        (before + EffectModel::when(wanted, seq![added])).contains(effect) <==> before.contains(
            effect,
        ) || (wanted && effect == added),
{
    let more = EffectModel::when(wanted, seq![added]);
    lemma_in_either(before, more, effect);
    if wanted {
        assert(more[0] == added);
    }
}

proof fn lemma_in_either(a: Seq<EffectModel>, b: Seq<EffectModel>, effect: EffectModel)
    ensures
        (a + b).contains(effect) <==> a.contains(effect) || b.contains(effect),
{
    vstd::seq_lib::lemma_seq_concat_contains_all_elements(a, b, effect);
}

/// What a file that was read again asks for, besides its warnings.
proof fn lemma_reload_asks(actions: ReloadActions, dynamic_title: bool, effect: EffectModel)
    requires
        !(effect is WarnRestart),
        !(effect is NotifyPlugins),
    ensures
        actions.file_effects(dynamic_title).contains(effect) <==> {
            ||| actions.rebind_keys && effect is RebindKeys
            ||| actions.rebuild_fonts && effect is RebuildFonts
            ||| actions.resize_scrollback && effect is ResizeScrollback
            ||| actions.reconfigure_surface && effect is ReconfigureSurface
            ||| (actions.relayout || actions.rebuild_fonts) && effect is Relayout
            ||| !dynamic_title && effect is ConfiguredTitle
            ||| effect is ApplyDecorations
            ||| effect is Redraw
        },
{
    let told = seq![EffectModel::NotifyPlugins(crate::effect::NoticeModel::ConfigReload)];
    let keys = told + EffectModel::when(actions.rebind_keys, seq![EffectModel::RebindKeys]);
    let fonts = keys + EffectModel::when(actions.rebuild_fonts, seq![EffectModel::RebuildFonts]);
    let lines = fonts + EffectModel::when(
        actions.resize_scrollback,
        seq![EffectModel::ResizeScrollback],
    );
    let surface = lines + EffectModel::when(
        actions.reconfigure_surface,
        seq![EffectModel::ReconfigureSurface],
    );
    let moved = actions.relayout || actions.rebuild_fonts;
    let laid_out = surface + EffectModel::when(moved, seq![EffectModel::Relayout]);
    let titled = EffectModel::when(!dynamic_title, seq![EffectModel::ConfiguredTitle]);
    let window = ReloadActions::window_effects(dynamic_title);
    let warned = laid_out + window + actions.warnings();
    lemma_added(told, actions.rebind_keys, EffectModel::RebindKeys, effect);
    lemma_added(keys, actions.rebuild_fonts, EffectModel::RebuildFonts, effect);
    lemma_added(fonts, actions.resize_scrollback, EffectModel::ResizeScrollback, effect);
    lemma_added(lines, actions.reconfigure_surface, EffectModel::ReconfigureSurface, effect);
    lemma_added(surface, moved, EffectModel::Relayout, effect);
    lemma_added(Seq::empty(), !dynamic_title, EffectModel::ConfiguredTitle, effect);
    assert(Seq::<EffectModel>::empty() + titled =~= titled);
    lemma_added(titled, true, EffectModel::ApplyDecorations, effect);
    assert(window =~= titled + EffectModel::when(true, seq![EffectModel::ApplyDecorations]));
    lemma_in_either(laid_out, window, effect);
    lemma_in_either(laid_out + window, actions.warnings(), effect);
    lemma_added(warned, true, EffectModel::Redraw, effect);
    assert(actions.file_effects(dynamic_title) =~= warned + EffectModel::when(
        true,
        seq![EffectModel::Redraw],
    ));
}

/// Reloads do the minimum: each kind of work is asked for exactly when what it depends
/// on changed.
pub proof fn law_reloads_do_the_minimum(actions: ReloadActions, dynamic_title: bool)
    ensures
        ({
            let effects = ReloadOutcome::Applied(actions).calls_for(dynamic_title);
            &&& effects.contains(EffectModel::RebindKeys) <==> actions.rebind_keys
            &&& effects.contains(EffectModel::RebuildFonts) <==> actions.rebuild_fonts
            &&& effects.contains(EffectModel::ResizeScrollback) <==> actions.resize_scrollback
            &&& effects.contains(EffectModel::ReconfigureSurface) <==> actions.reconfigure_surface
            &&& effects.contains(EffectModel::Relayout) <==> (actions.relayout
                || actions.rebuild_fonts)
            &&& effects.contains(EffectModel::ConfiguredTitle) <==> !dynamic_title
        }),
{
    lemma_reload_asks(actions, dynamic_title, EffectModel::RebindKeys);
    lemma_reload_asks(actions, dynamic_title, EffectModel::RebuildFonts);
    lemma_reload_asks(actions, dynamic_title, EffectModel::ResizeScrollback);
    lemma_reload_asks(actions, dynamic_title, EffectModel::ReconfigureSurface);
    lemma_reload_asks(actions, dynamic_title, EffectModel::Relayout);
    lemma_reload_asks(actions, dynamic_title, EffectModel::ConfiguredTitle);
}

/// A setting that cannot be applied to a running process is always reported, however the
/// change came about.
pub proof fn law_restarts_are_reported(actions: ReloadActions, dynamic_title: bool, i: int)
    requires
        0 <= i < actions.restart_required@.len(),
    ensures
        actions.file_effects(dynamic_title).contains(
            EffectModel::WarnRestart(actions.restart_required@[i]@),
        ),
        actions.edit_effects(dynamic_title).contains(
            EffectModel::WarnRestart(actions.restart_required@[i]@),
        ),
{
    broadcast use vstd::seq_lib::group_seq_properties;

    assert(actions.warnings()[i] == EffectModel::WarnRestart(actions.restart_required@[i]@));
    assert(actions.warnings().contains(actions.warnings()[i]));
}

/// The window closes with its last tab, and only with it. Every shell of a closed tab is
/// shut down first.
pub proof fn law_the_last_tab_closes_the_window(
    panes: Seq<u64>,
    empty: bool,
    pane: u64,
    outcome: CloseOutcome,
)
    ensures
        crate::app::tab_gone(panes, empty).contains(EffectModel::Exit) <==> empty,
        crate::app::pane_gone(pane, outcome).contains(EffectModel::Exit) <==> outcome is Emptied,
        forall|i: int|
            0 <= i < panes.len() ==> #[trigger] crate::app::tab_gone(panes, empty)[i]
                == EffectModel::DropSession(panes[i]),
        crate::app::pane_gone(pane, outcome)[0] == EffectModel::DropSession(pane),
{
    broadcast use vstd::seq_lib::group_seq_properties;

}

/// Opening a page that is open already returns to its tab, with what was entered there
/// intact: no second one is opened.
pub proof fn law_pages_open_once(app: AppModel, world: World)
    ensures
        world.settings_tab is Some ==> app.settings_opened(world).0 == app && !app.settings_opened(
            world,
        ).1.contains(EffectModel::OpenPageTab(TabKind::Settings)),
        world.help_tab is Some && !(world.kind is Help) ==> app.help_toggled(world).0 == app
            && !app.help_toggled(world).1.contains(EffectModel::OpenPageTab(TabKind::Help)),
        world.plugins_tab is Some && !(world.kind is Plugins) ==> app.plugins_toggled(world).0
            == app && !app.plugins_toggled(world).1.contains(EffectModel::ListPlugins),
{
}

/// Asking for the page that is on screen closes it.
pub proof fn law_asking_again_closes(app: AppModel, world: World)
    ensures
        app.settings_active(world) ==> app.settings_toggled(world) == app.settings_closed(),
        world.help_tab is Some && world.kind is Help ==> app.help_toggled(world)
            == app.help_closed(),
        world.plugins_tab is Some && world.kind is Plugins ==> app.plugins_toggled(world)
            == app.plugins_closed(),
{
}

/// Acting on a menu's row closes the menu, whatever the row does.
pub proof fn law_picking_closes_the_menu(app: AppModel, world: World)
    requires
        app.wf(),
    ensures
        app.menu_picked(world).0.menu is None,
        app.menu_picked(world).0.menu_rect is None,
{
}

/// A path from the explorer is pasted into the shell, quoted, and never typed: nothing of
/// it can run.
pub proof fn law_paths_are_never_typed(app: AppModel, path: Seq<char>, bytes: Seq<u8>)
    ensures
        app.explorer_asked(OutcomeModel::InsertPath(path)).1.contains(
            EffectModel::PasteText(crate::explorer::quoted(path)),
        ),
        !app.explorer_asked(OutcomeModel::InsertPath(path)).1.contains(
            EffectModel::WriteFocused(bytes),
        ),
{
    let effects = app.explorer_asked(OutcomeModel::InsertPath(path)).1;
    assert(effects[0] == EffectModel::PasteText(crate::explorer::quoted(path)));
}

/// Plugins only ask: nothing a plugin sends changes what is open, focused or dragged. It
/// can add a message, and the rest are effects like those of a binding.
pub proof fn law_plugins_only_ask(app: AppModel, command: PluginCommand, world: World, now: u64)
    ensures
        ({
            let after = app.plugin_asked(command, world, now).0;
            &&& after =~= (AppModel { toasts: after.toasts, ..app })
            &&& !(command is Notify) ==> after == app
        }),
{
}

/// A page behind another tab has no keyboard: a key that is bound to nothing leaves every
/// page that is not on screen as it was.
pub proof fn law_hidden_pages_are_not_typed_into(
    app: AppModel,
    key: KeyPress,
    world: World,
    config: PluginConfigModel,
    has_plugins: bool,
    to_bottom: bool,
    now: u64,
)
    requires
        app.menu is None,
        key.bound is None,
    ensures
        ({
            let after = app.keyed(key, world, config, has_plugins, to_bottom, now).0;
            &&& !app.settings_active(world) ==> after.panel == app.panel
            &&& !app.help_active(world) ==> after.help == app.help
            &&& !app.plugins_active(world) ==> after.plugins == app.plugins
        }),
{
}

/// Turning the wheel leaves every page alone while another tab is on screen, and the key
/// list and the plugin list take it while they are the one on screen. Over a pane of a
/// terminal it is the terminal that scrolls, whatever is open behind it.
pub proof fn law_hidden_lists_do_not_scroll(
    app: AppModel,
    wheel: Wheel,
    multiplier: Fixed,
    hit: Hit,
    mods: Modifiers,
    ground: Ground,
    world: World,
)
    ensures
        ({
            let (after, effects) = app.wheeled(wheel, multiplier, hit, mods, ground, world);
            &&& !app.settings_active(world) ==> after.panel == app.panel
            &&& world.kind is Terminal && ground.laid_out && !ground.in_sidebar(
                app.pointer.x as int,
                app.pointer.y as int,
            ) ==> {
                let (n, d) = wheel.terminal_lines(multiplier, world.cell.1);
                &&& after == app
                &&& effects == AppModel::terminal_wheel(
                    crate::app_mouse::held(crate::app_mouse::nearest(n, d)),
                    hit,
                    mods,
                )
            }
            &&& !app.help_active(world) ==> after.help == app.help
            &&& !app.plugins_active(world) ==> after.plugins == app.plugins
            &&& app.help_active(world) || app.plugins_active(world) ==> {
                &&& after.panel == app.panel
                &&& after.sidebar == app.sidebar
            }
        }),
{
}

} // verus!
