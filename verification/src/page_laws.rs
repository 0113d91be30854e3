//! What clicks, the wheel and keys do to the page that is on screen.

use vstd::prelude::*;

use crate::action::{Action, MouseButton};
use crate::app::{AppModel, World};
use crate::app_keys::KeyPress;
use crate::app_mouse::{Ground, Hit, Wheel};
use crate::decimal::Fixed;
use crate::effect::EffectModel;
use crate::explorer::{ExplorerModel, OutcomeModel};
use crate::keys::{KeyChord, Modifiers};
use crate::plugins::{PluginConfigModel, PluginsModel};
use crate::ui::{ActionModel, ResponseModel, UiModel};
use crate::widget::WidgetId;
use crate::window::TabKind;

verus! {

/// The pointer is on the page, and nothing that is drawn over it takes it: no edge, no
/// menu, no pressable segment and no sidebar.
pub open spec fn on_the_page(app: AppModel, ground: Ground) -> bool {
    let (x, y) = (app.pointer.x as int, app.pointer.y as int);
    &&& ground.laid_out
    &&& app.menu is None
    &&& crate::mouse_laws::off_the_edges(app.pointer, ground)
    &&& app.ide_hits.len() == 0
    &&& ground.sidebar.width == 0
    &&& ground.page is Some
    &&& ground.page->0.x <= x < ground.page->0.x + ground.page->0.width
    &&& ground.page->0.y <= y < ground.page->0.y + ground.page->0.height
}

/// A press on the settings page goes to the row under it, which is held while the button
/// is, and what the row asks for is done, once. Nothing else takes the press.
pub proof fn law_a_press_on_the_settings(
    app: AppModel,
    button: MouseButton,
    hit: Hit,
    mods: Modifiers,
    ground: Ground,
    world: World,
    config: PluginConfigModel,
    now: u64,
)
    requires
        on_the_page(app, ground),
        world.kind is Settings,
        app.panel is Some,
    ensures
        ({
            let (x, y) = (app.pointer.x as int, app.pointer.y as int);
            let held = UiModel { pressed: app.panel->0.hit_spec(x, y), ..app.panel->0 };
            let (after, effects) = app.mouse_button(
                button,
                true,
                hit,
                mods,
                ground,
                world,
                config,
                now,
            );
            &&& after == (AppModel { panel: Some(held.clicked(x, y).0), ..app })
            &&& held.clicked(x, y).1 is Some ==> effects == seq![
                EffectModel::PanelAction(held.clicked(x, y).1->0),
            ]
            &&& held.clicked(x, y).1 is None ==> effects == seq![EffectModel::Redraw]
        }),
{
}

/// A press on the plugins page goes to the row under it in the same way.
pub proof fn law_a_press_on_the_plugins(
    app: AppModel,
    button: MouseButton,
    hit: Hit,
    mods: Modifiers,
    ground: Ground,
    world: World,
    config: PluginConfigModel,
    now: u64,
)
    requires
        on_the_page(app, ground),
        world.kind is Plugins,
        app.plugins is Some,
    ensures
        ({
            let (x, y) = (app.pointer.x as int, app.pointer.y as int);
            let page = app.plugins->0;
            let held = UiModel { pressed: page.ui.hit_spec(x, y), ..page.ui };
            let clicked = AppModel {
                plugins: Some(PluginsModel { ui: held.clicked(x, y).0, ..page }),
                ..app
            };
            let step = app.mouse_button(button, true, hit, mods, ground, world, config, now);
            &&& held.clicked(x, y).1 is None ==> step == (clicked, seq![EffectModel::Redraw])
            &&& held.clicked(x, y).1 is Some ==> step == clicked.plugins_acted(
                held.clicked(x, y).1->0,
                config,
            )
        }),
{
}

/// Letting go of a button does nothing to a page but let go of its rows, and the window is
/// drawn again if something was held.
pub proof fn law_letting_go(app: AppModel)
    requires
        app.pointer.dragging_tab is None,
    ensures
        ({
            let (after, effects) = app.released();
            let held = app.pointer.pressed_button is Some || app.pointer.pressed_ide is Some || (
            app.panel is Some && app.panel->0.pressed is Some) || (app.plugins is Some
                && app.plugins->0.ui.pressed is Some) || (app.help is Some
                && app.help->0.pressed is Some);
            &&& held ==> effects == seq![EffectModel::Redraw]
            &&& !held ==> effects == Seq::<EffectModel>::empty()
            &&& app.panel is Some ==> after.panel == Some(UiModel { pressed: None, ..app.panel->0 })
            &&& app.help is Some ==> after.help == Some(UiModel { pressed: None, ..app.help->0 })
            &&& app.plugins is Some ==> after.plugins is Some && after.plugins->0.ui == (UiModel {
                pressed: None,
                ..app.plugins->0.ui
            })
            &&& after.pointer.pressed_button is None && after.pointer.pressed_ide is None
        }),
{
    assert(app.released().1 =~= if app.anything_pressed() {
        seq![EffectModel::Redraw]
    } else {
        Seq::empty()
    });
}

/// A press in the sidebar focuses it. On a row, the row is clicked and what that asks for
/// is done before the window is drawn; beside the rows, it is only drawn.
pub proof fn law_a_press_on_a_row_of_the_sidebar(
    app: AppModel,
    x: int,
    y: int,
    id: WidgetId,
)
    requires
        app.sidebar is Some,
    ensures
        ({
            let e = app.sidebar->0;
            let there = ExplorerModel { ui: e.ui.clicked(x, y).0, ..e };
            let focused = AppModel { sidebar_focused: true, sidebar: Some(there), ..app };
            let (after, effects) = app.sidebar_clicked(x, y);
            &&& e.ui.clicked(x, y).1 is None ==> after == focused && effects == seq![
                EffectModel::Redraw,
            ]
            &&& e.ui.clicked(x, y).1 == Some(ActionModel::Pressed(id)) ==> {
                let (row, asked) = there.clicked(id);
                let told = AppModel { sidebar: Some(row), ..focused }.explorer_asked(asked);
                &&& after == told.0
                &&& effects == told.1 + seq![EffectModel::Redraw]
            }
        }),
{
}

/// A notch of the wheel scrolls the page on screen by three lines of text: turned towards
/// the user, further down. It is drawn if it moved.
pub proof fn law_the_wheel_scrolls_the_page(
    app: AppModel,
    notches: int,
    wheel: Fixed,
    multiplier: Fixed,
    hit: Hit,
    mods: Modifiers,
    ground: Ground,
    world: World,
)
    requires
        wheel.millionths == notches * 1_000_000,
        -1000 <= notches <= 1000,
        1 <= world.cell.1 <= 1000,
        ground.sidebar.width == 0,
    ensures
        ({
            let step = app.wheeled(Wheel::Lines(wheel), multiplier, hit, mods, ground, world);
            let down = -3 * notches * world.cell.1;
            let drawn = |ui: UiModel|
                if ui.scrolled(down).scroll != ui.scroll {
                    seq![EffectModel::Redraw]
                } else {
                    Seq::empty()
                };
            &&& world.kind is Settings && app.panel is Some ==> step == (
                AppModel { panel: Some(app.panel->0.scrolled(down)), ..app },
                drawn(app.panel->0),
            )
            &&& world.kind is Help && app.help is Some ==> step == (
                AppModel { help: Some(app.help->0.scrolled(down)), ..app },
                drawn(app.help->0),
            )
            &&& world.kind is Plugins && app.plugins is Some ==> step == (
                AppModel {
                    plugins: Some(
                        PluginsModel {
                            ui: app.plugins->0.ui.scrolled(down),
                            ..app.plugins->0
                        },
                    ),
                    ..app
                },
                drawn(app.plugins->0.ui),
            )
        }),
{
    lemma_distance(wheel, notches, world.cell.1 as int);
}

proof fn lemma_distance(wheel: Fixed, notches: int, cell: int)
    requires
        wheel.millionths == notches * 1_000_000,
        -1000 <= notches <= 1000,
        1 <= cell <= 1000,
    ensures
        ({
            let n = Wheel::Lines(wheel).page_distance(cell);
            let down = -3 * notches * cell;
            &&& n == down * 1_000_000
            &&& crate::app_mouse::held(crate::app_mouse::toward_zero(n, 1_000_000)) == down
            &&& crate::app_mouse::held(crate::app_mouse::nearest(n, 1_000_000)) == down
        }),
{
    let down = -3 * notches * cell;
    let w = wheel@;
    assert(-(w * 3 * cell) == down * 1_000_000) by (nonlinear_arith)
        requires
            w == notches * 1_000_000,
            down == -3 * notches * cell,
    ;
    assert(-3_000_000 <= down <= 3_000_000) by (nonlinear_arith)
        requires
            down == -3 * notches * cell,
            -1000 <= notches <= 1000,
            1 <= cell <= 1000,
    ;
    let n = Wheel::Lines(wheel).page_distance(cell);
    assert(n == down * 1_000_000);
    lemma_whole(n, down);
}

/// A whole number of millions is that many, however it is rounded.
proof fn lemma_whole(n: int, k: int)
    requires
        n == k * 1_000_000,
        -3_000_000 <= k <= 3_000_000,
    ensures
        crate::app_mouse::held(crate::app_mouse::toward_zero(n, 1_000_000)) == k,
        crate::app_mouse::held(crate::app_mouse::nearest(n, 1_000_000)) == k,
{
    if n >= 0 {
        assert(n / 1_000_000 == k);
        assert((2 * n + 1_000_000) / 2_000_000 == k);
    } else {
        assert((-n) / 1_000_000 == -k);
        assert((2 * (-n) + 1_000_000) / 2_000_000 == -k);
    }
}

/// The sidebar scrolls under the pointer, and what is beside it does not.
pub proof fn law_the_wheel_scrolls_the_sidebar(
    app: AppModel,
    notches: int,
    wheel: Fixed,
    multiplier: Fixed,
    hit: Hit,
    mods: Modifiers,
    ground: Ground,
    world: World,
)
    requires
        wheel.millionths == notches * 1_000_000,
        -1000 <= notches <= 1000,
        1 <= world.cell.1 <= 1000,
        world.kind is Terminal,
        ground.laid_out,
        app.sidebar is Some,
        ground.sidebar.x <= app.pointer.x < ground.sidebar.x + ground.sidebar.width,
        ground.sidebar.y <= app.pointer.y < ground.sidebar.y + ground.sidebar.height,
    ensures
        ({
            let e = app.sidebar->0;
            let down = -3 * notches * world.cell.1;
            app.wheeled(Wheel::Lines(wheel), multiplier, hit, mods, ground, world) == (
                AppModel { sidebar: Some(ExplorerModel { ui: e.ui.scrolled(down), ..e }), ..app },
                if e.ui.scrolled(down).scroll != e.ui.scroll {
                    seq![EffectModel::Redraw]
                } else {
                    Seq::empty()
                },
            )
        }),
{
    lemma_distance(wheel, notches, world.cell.1 as int);
}

/// What a key does on the settings page: what was typed goes into the focused field; else
/// the key acts on the rows, and what they ask for is done, once. Its own binding closes
/// the page, and so does what the rows answer to Escape.
pub proof fn law_keys_on_the_settings(app: AppModel, chord: KeyChord, key: KeyPress)
    requires
        app.panel is Some,
        !(key.bound matches Some(Action::OpenSettings)),
        app.panel_body is None,
    ensures
        ({
            let ui = app.panel->0;
            let (typed, edit) = ui.typed_text(key.typing());
            let kept = |panel: UiModel| AppModel { panel: Some(panel), ..app };
            let meant = crate::action::ui_key(chord);
            &&& edit is Some ==> app.settings_keyed(chord, key) == (
                kept(typed),
                seq![EffectModel::PanelAction(edit->0)],
            )
            &&& edit is None && meant is None ==> app.settings_keyed(chord, key) == (
                kept(typed),
                Seq::<EffectModel>::empty(),
            )
            &&& edit is None && meant is Some ==> {
                let (next, answer) = typed.keyed(meant->0);
                match answer {
                    ResponseModel::Consumed => app.settings_keyed(chord, key) == (
                        kept(next),
                        seq![EffectModel::Redraw],
                    ),
                    ResponseModel::Action(action) => app.settings_keyed(chord, key) == (
                        kept(next),
                        seq![EffectModel::PanelAction(action)],
                    ),
                    ResponseModel::Close => app.settings_keyed(chord, key) == (
                        AppModel { panel: None, ..app },
                        seq![EffectModel::ClosePage(TabKind::Settings)],
                    ),
                }
            }
        }),
{
}

/// What a key does on the plugins page, in the same way.
pub proof fn law_keys_on_the_plugins(
    app: AppModel,
    chord: KeyChord,
    key: KeyPress,
    config: PluginConfigModel,
)
    requires
        app.plugins is Some,
        !(key.bound matches Some(Action::OpenPlugins)),
        app.plugins_body is None,
        app.plugins->0.ui.typed_text(key.typing()).1 is None,
    ensures
        ({
            let page = app.plugins->0;
            let typed = page.ui.typed_text(key.typing()).0;
            let kept = |ui: UiModel|
                AppModel { plugins: Some(PluginsModel { ui, ..page }), ..app };
            let meant = crate::action::ui_key(chord);
            &&& meant is None ==> app.plugins_keyed(chord, key, config) == (
                kept(typed),
                Seq::<EffectModel>::empty(),
            )
            &&& meant is Some ==> {
                let (next, answer) = typed.keyed(meant->0);
                match answer {
                    ResponseModel::Consumed => app.plugins_keyed(chord, key, config) == (
                        kept(next),
                        seq![EffectModel::Redraw],
                    ),
                    ResponseModel::Action(action) => app.plugins_keyed(chord, key, config) == kept(
                        next,
                    ).plugins_acted(action, config),
                    ResponseModel::Close => app.plugins_keyed(chord, key, config) == (
                        AppModel { plugins: None, ..app },
                        seq![EffectModel::ClosePage(TabKind::Plugins)],
                    ),
                }
            }
        }),
{
}

/// A key that a plugin took goes no further, and one that it left goes on to the terminal.
pub proof fn law_what_plugins_leave_is_typed(
    app: AppModel,
    key: KeyPress,
    world: World,
    to_bottom: bool,
)
    ensures
        app.key_answered(true, key, world, to_bottom) == (app, seq![EffectModel::Redraw]),
        app.key_answered(false, key, world, to_bottom) == app.key_for_terminal(
            key,
            world,
            to_bottom,
        ),
{
}

/// What the letters do in the sidebar: `c` goes into the folder of the selected row in
/// the shell, and not into a file; `h` shows or hides what is hidden; `e` and `p` edit and
/// insert what is selected; a letter that means nothing does nothing.
pub proof fn law_letters_in_the_sidebar(app: AppModel, e: ExplorerModel, c: char, world: World)
    requires
        0 <= e.selected < e.entries.len(),
    ensures
        ({
            let entry = e.entries[e.selected];
            let does = |letter: char| app.explorer_letter(e, letter, world);
            &&& entry.kind is File ==> does('c') == (app, Seq::<EffectModel>::empty())
            &&& !(entry.kind is File) ==> does('c') == app.explorer_asked(
                OutcomeModel::RunCd(entry.path),
            )
            &&& does('e') == app.explorer_asked(OutcomeModel::OpenEditor(entry.path))
            &&& does('p') == app.explorer_asked(OutcomeModel::InsertPath(entry.path))
            &&& does('h').0 == (AppModel {
                sidebar: Some(ExplorerModel { show_hidden: !world.show_hidden, ..e }),
                ..app
            })
            &&& e.show_hidden == world.show_hidden ==> does('h').1 == seq![
                EffectModel::ShowHidden(!world.show_hidden),
                EffectModel::Relist,
                EffectModel::Redraw,
            ]
            &&& c != 'c' && c != 'e' && c != 'p' && c != 'h' && c != 'r' && c != 'n' && c != 'd'
                ==> does(c) == (app, Seq::<EffectModel>::empty())
        }),
{
    if e.show_hidden == world.show_hidden {
        assert(app.explorer_letter(e, 'h', world).1 =~= seq![
            EffectModel::ShowHidden(!world.show_hidden),
            EffectModel::Relist,
            EffectModel::Redraw,
        ]);
    }
}

} // verus!
