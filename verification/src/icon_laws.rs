//! What the toolbar's icons look like, and what is known of the machine around them.

use vstd::prelude::*;

use crate::action::Action;
use crate::geometry::Rect;
use crate::gpu::{Acquired, AlphaMode};
use crate::icon::{Ink, Stroke};
use crate::ide::IdeModel;
use crate::keys::{Key, KeyChord, Modifiers, NamedKey};
use crate::pty::{Drained, NotesModel};
use crate::scene::ChromeButton;
use crate::ui::UiKey;
use crate::widget::EntryKind;

verus! {

/// An upright bar at this place and of this size, in ten-thousandths of a pixel.
pub open spec fn bar(s: Stroke, left: int, top: int, wide: int, high: int) -> bool {
    &&& s matches Stroke::Bar { x, y, width, height }
    &&& x == left
    &&& y == top
    &&& width == wide
    &&& height == high
}

/// A bar along the top, bottom, left and right of a square, inside it.
pub open spec fn frames(s: Seq<Stroke>, x: int, y: int, side: int, thick: int) -> bool {
    &&& s.len() >= 4
    &&& bar(s[0], x, y, side, thick)
    &&& bar(s[1], x, y + side - thick, side, thick)
    &&& bar(s[2], x, y, thick, side)
    &&& bar(s[3], x + side - thick, y, thick, side)
}

/// An icon is a third of its button's shorter side, to the pixel, and at least four; its
/// strokes are an eighth of that, and at least one.
pub proof fn law_how_large_icons_are(button: Rect)
    ensures
        ({
            let b = crate::icon::icon_box(button);
            let short = if button.width <= button.height {
                button.width as int
            } else {
                button.height as int
            };
            &&& b.side >= 4
            &&& b.side > 4 ==> -50 <= 100 * b.side - 34 * short <= 50
            &&& b.side == 4 ==> 34 * short <= 450
            &&& b.stroke >= 1
            &&& b.stroke > 1 ==> -50 <= 100 * b.stroke - 12 * b.side <= 50
            &&& b.stroke == 1 ==> 12 * b.side <= 150
        }),
{
}

/// The icons made of bars: a plus, a line along the bottom, a square, three lines one
/// below the other, and a square that is divided down or across its middle or has its
/// left column filled.
pub proof fn law_icons_made_of_bars(rect: Rect)
    requires
        rect.width > 0,
        rect.height > 0,
    ensures
        ({
            let b = crate::icon::icon_box(rect);
            let x = b.x * 10000;
            let y = b.y * 10000;
            let side = b.side * 10000;
            let thick = b.stroke * 10000;
            let middle = side / 2 - thick / 2;
            let of = |button: ChromeButton| crate::icon::icon_strokes(button, rect);
            &&& of(ChromeButton::NewTab).len() == 2
            &&& bar(of(ChromeButton::NewTab)[0], x, y + middle, side, thick)
            &&& bar(of(ChromeButton::NewTab)[1], x + middle, y, thick, side)
            &&& of(ChromeButton::Minimize).len() == 1
            &&& bar(of(ChromeButton::Minimize)[0], x, y + side - thick, side, thick)
            &&& of(ChromeButton::Maximize).len() == 4
            &&& frames(of(ChromeButton::Maximize), x, y, side, thick)
            &&& of(ChromeButton::AppMenu).len() == 3
            &&& bar(of(ChromeButton::AppMenu)[0], x, y, side, thick)
            &&& bar(of(ChromeButton::AppMenu)[1], x, y + (side - thick) / 2, side, thick)
            &&& bar(of(ChromeButton::AppMenu)[2], x, y + side - thick, side, thick)
            &&& of(ChromeButton::SplitRight).len() == 5
            &&& frames(of(ChromeButton::SplitRight), x, y, side, thick)
            &&& bar(of(ChromeButton::SplitRight)[4], x + middle, y, thick, side)
            &&& of(ChromeButton::SplitDown).len() == 5
            &&& frames(of(ChromeButton::SplitDown), x, y, side, thick)
            &&& bar(of(ChromeButton::SplitDown)[4], x, y + middle, side, thick)
            &&& of(ChromeButton::Explorer).len() == 5
            &&& frames(of(ChromeButton::Explorer), x, y, side, thick)
            &&& bar(of(ChromeButton::Explorer)[4], x, y, b.side * 3600, side)
        }),
{
}

/// The other icons: a cross from corner to corner, a chevron that points down, two squares
/// that overlap, and a gear of eight teeth with a hole in it.
pub proof fn law_icons_of_other_shapes(rect: Rect, i: int)
    requires
        rect.width > 0,
        rect.height > 0,
        0 <= i < 8,
    ensures
        ({
            let b = crate::icon::icon_box(rect);
            let x = b.x * 10000;
            let y = b.y * 10000;
            let side = b.side * 10000;
            let thick = b.stroke * 10000;
            let cx = x + side / 2;
            let cy = y + side / 2;
            let of = |button: ChromeButton| crate::icon::icon_strokes(button, rect);
            let small = b.side * 6200;
            let arm = b.side * 3400;
            &&& of(ChromeButton::Close) == seq![
                Stroke::Diagonal {
                    cx: cx as i64,
                    cy: cy as i64,
                    side: side as i64,
                    stroke: thick as i64,
                    clockwise: true,
                },
                Stroke::Diagonal {
                    cx: cx as i64,
                    cy: cy as i64,
                    side: side as i64,
                    stroke: thick as i64,
                    clockwise: false,
                },
            ]
            &&& of(ChromeButton::NewTabMenu) == seq![
                Stroke::Turned {
                    x: (cx - arm / 2) as i64,
                    y: (cy + arm / 2 - thick / 2) as i64,
                    width: arm as i64,
                    height: thick as i64,
                    clockwise: true,
                    ink: Ink::Tint,
                },
                Stroke::Turned {
                    x: (cx - arm / 2) as i64,
                    y: (cy + arm / 2 - thick / 2) as i64,
                    width: arm as i64,
                    height: thick as i64,
                    clockwise: false,
                    ink: Ink::Tint,
                },
            ]
            &&& of(ChromeButton::Plugins).len() == 8
            &&& frames(of(ChromeButton::Plugins), x, y + side - small, small, thick)
            &&& frames(of(ChromeButton::Plugins).skip(4), x + side - small, y, small, thick)
            &&& of(ChromeButton::Settings).len() == 10
            &&& of(ChromeButton::Settings)[i] == (Stroke::Spoke {
                cx: cx as i64,
                cy: cy as i64,
                reach: (b.side * 4100) as i64,
                length: (b.side * 2200) as i64,
                width: (b.stroke * 16000) as i64,
                index: i as u8,
            })
            &&& of(ChromeButton::Settings)[8] == (Stroke::Disc {
                cx: cx as i64,
                cy: cy as i64,
                radius: (b.side * 3000 + thick / 2) as i64,
                ink: Ink::Tint,
            })
            &&& of(ChromeButton::Settings)[9] == (Stroke::Disc {
                cx: cx as i64,
                cy: cy as i64,
                radius: (b.side * 1350) as i64,
                ink: Ink::Behind,
            })
        }),
{
    let s = crate::icon::icon_strokes(ChromeButton::Plugins, rect);
    assert(s.skip(4)[0] == s[4] && s.skip(4)[1] == s[5] && s.skip(4)[2] == s[6] && s.skip(4)[3]
        == s[7]);
}

/// A button that has no room has no icon.
pub proof fn law_no_room_no_icon(button: ChromeButton, kind: EntryKind, rect: Rect)
    requires
        rect.width == 0 || rect.height == 0,
    ensures
        crate::icon::icon_strokes(button, rect).len() == 0,
        crate::icon::entry_strokes(kind, rect).len() == 0,
{
}

/// The icons of a file list: a folder is a wide sheet under a short tab, a file is a page
/// with a corner cut away, a link is a page with a chevron cut into it, and the way up is a
/// chevron that points up.
pub proof fn law_icons_of_a_file_list(rect: Rect)
    requires
        rect.width > 0,
        rect.height > 0,
    ensures
        ({
            let b = crate::icon::icon_box(rect);
            let x = b.x * 10000;
            let y = b.y * 10000;
            let side = b.side * 10000;
            let thick = b.stroke * 10000;
            let cx = x + side / 2;
            let cy = y + side / 2;
            let page = b.side * 7800;
            let tab = b.side * 1600;
            let fold = b.side * 2652;
            let of = |kind: EntryKind| crate::icon::entry_strokes(kind, rect);
            let turned = |arm: int, clockwise: bool, ink: Ink|
                Stroke::Turned {
                    x: (cx - arm / 2) as i64,
                    y: (cy - thick / 2) as i64,
                    width: arm as i64,
                    height: thick as i64,
                    clockwise,
                    ink,
                };
            &&& of(EntryKind::Directory).len() == 2
            &&& bar(of(EntryKind::Directory)[0], x, y, b.side * 4500, 2 * tab)
            &&& bar(of(EntryKind::Directory)[1], x, y + tab, side, side - tab)
            &&& of(EntryKind::File).len() == 2
            &&& bar(of(EntryKind::File)[0], cx - page / 2, y, page - fold, side)
            &&& bar(
                of(EntryKind::File)[1],
                cx - page / 2 + page - fold,
                y + fold,
                fold,
                side - fold,
            )
            &&& of(EntryKind::Symlink).len() == 3
            &&& bar(of(EntryKind::Symlink)[0], cx - page / 2, y, page, side)
            &&& of(EntryKind::Symlink)[1] == turned(b.side * 3000, true, Ink::Cut)
            &&& of(EntryKind::Symlink)[2] == turned(b.side * 3000, false, Ink::Cut)
            &&& of(EntryKind::Parent) == seq![
                turned(b.side * 3500, false, Ink::Tint),
                turned(b.side * 3500, true, Ink::Tint),
            ]
        }),
{
}

/// A window that lets through what is behind it asks for the first mode there is, of those
/// that do: multiplied before, multiplied after, whatever the system does.
pub proof fn law_how_windows_let_through(available: Seq<AlphaMode>)
    ensures
        available.contains(AlphaMode::PreMultiplied) ==> crate::gpu::transparent_mode(available)
            == AlphaMode::PreMultiplied,
        !available.contains(AlphaMode::PreMultiplied) && available.contains(
            AlphaMode::PostMultiplied,
        ) ==> crate::gpu::transparent_mode(available) == AlphaMode::PostMultiplied,
        !available.contains(AlphaMode::PreMultiplied) && !available.contains(
            AlphaMode::PostMultiplied,
        ) && available.contains(AlphaMode::Inherit) ==> crate::gpu::transparent_mode(available)
            == AlphaMode::Inherit,
        !available.contains(AlphaMode::PreMultiplied) && !available.contains(
            AlphaMode::PostMultiplied,
        ) && !available.contains(AlphaMode::Inherit) ==> crate::gpu::transparent_mode(available)
            == AlphaMode::Opaque,
{
}

/// There is an image to draw into in two cases, and a surface to bring up to date in
/// three: one that has drifted has both.
pub proof fn law_what_was_acquired(a: Acquired)
    ensures
        a.has_image() <==> a == Acquired::Success || a == Acquired::Suboptimal,
        a.is_stale() <==> a == Acquired::Suboptimal || a == Acquired::Outdated || a
            == Acquired::Lost,
{
}

/// A buffer grows by doubling until what it has to hold fits, and no further.
pub proof fn law_buffers_double(n: nat, p: nat)
    requires
        p > 0,
    ensures
        crate::gpu::power_at_least(n, p) >= n,
        crate::gpu::power_at_least(n, p) >= p,
        p >= n ==> crate::gpu::power_at_least(n, p) == p,
        p < n ==> crate::gpu::power_at_least(n, p) == crate::gpu::power_at_least(n, 2 * p),
        p < n ==> crate::gpu::power_at_least(n, p) < 2 * n,
    decreases 2 * n - p,
{
    if p < n {
        law_buffers_double(n, p * 2);
    }
}

/// The plugins that come with the program and are not there yet are all written, and what
/// could not be written is cleared away.
pub proof fn law_missing_plugins_are_written(names: Seq<String>, flags: Seq<bool>, which: bool, i: int)
    requires
        0 <= i < names.len() == flags.len(),
        flags[i] == which,
    ensures
        crate::bundled::picked(names, flags, which, names.len() as int).contains(names[i]@),
{
    lemma_picked_holds(names, flags, which, i, names.len() as int);
}

proof fn lemma_picked_holds(names: Seq<String>, flags: Seq<bool>, which: bool, i: int, n: int)
    requires
        0 <= i < n <= names.len() == flags.len(),
        flags[i] == which,
    ensures
        crate::bundled::picked(names, flags, which, n).contains(names[i]@),
    decreases n,
{
    let all = crate::bundled::picked(names, flags, which, n);
    let before = crate::bundled::picked(names, flags, which, n - 1);
    if i < n - 1 {
        lemma_picked_holds(names, flags, which, i, n - 1);
        let k = choose|k: int| 0 <= k < before.len() && before[k] == names[i]@;
        assert(all[k] == names[i]@);
    } else {
        assert(all[before.len() as int] == names[i]@);
    }
}

/// The editors that are looked for, each by the command that starts it.
pub proof fn law_editors_that_are_known()
    ensures
        ({
            let known = |label: Seq<char>, icon: Seq<char>, command: Seq<char>|
                IdeModel::known().contains(IdeModel { label, icon, command });
            &&& IdeModel::known().len() == 8
            &&& known("VS Code"@, "VS"@, "code"@)
            &&& known("Cursor"@, "Cu"@, "cursor"@)
            &&& known("Windsurf"@, "Wi"@, "windsurf"@)
            &&& known("Zed"@, "Ze"@, "zed"@)
            &&& known("Sublime"@, "Su"@, "subl"@)
            &&& known("IntelliJ"@, "IJ"@, "idea"@)
            &&& known("WebStorm"@, "WS"@, "webstorm"@)
            &&& known("Neovim"@, "Nv"@, "nvim"@)
        }),
{
    let k = IdeModel::known();
    assert(k.contains(k[0]) && k.contains(k[1]) && k.contains(k[2]) && k.contains(k[3]));
    assert(k.contains(k[4]) && k.contains(k[5]) && k.contains(k[6]) && k.contains(k[7]));
}

/// What a key means in a panel; Shift turns Tab round, and a key that means nothing there
/// means nothing.
pub proof fn law_keys_in_a_panel(mods: Modifiers, c: char, n: u8)
    ensures
        ({
            let of = |key: NamedKey| crate::action::ui_key(KeyChord { mods, key: Key::Named(key) });
            &&& of(NamedKey::Escape) == Some(UiKey::Escape)
            &&& of(NamedKey::Tab) == Some(
                if mods.shift {
                    UiKey::ShiftTab
                } else {
                    UiKey::Tab
                },
            )
            &&& of(NamedKey::Up) == Some(UiKey::Up)
            &&& of(NamedKey::Down) == Some(UiKey::Down)
            &&& of(NamedKey::Left) == Some(UiKey::Left)
            &&& of(NamedKey::Right) == Some(UiKey::Right)
            &&& of(NamedKey::Enter) == Some(UiKey::Activate)
            &&& of(NamedKey::Space) == Some(UiKey::Activate)
            &&& of(NamedKey::Backspace) == Some(UiKey::Backspace)
            &&& of(NamedKey::Delete) == Some(UiKey::Delete)
            &&& of(NamedKey::Home) == Some(UiKey::Home)
            &&& of(NamedKey::End) == Some(UiKey::End)
            &&& of(NamedKey::PageUp) is None && of(NamedKey::PageDown) is None
            &&& of(NamedKey::Insert) is None && of(NamedKey::Function(n)) is None
            &&& crate::action::ui_key(KeyChord { mods, key: Key::Char(c) }) is None
        }),
{
}

/// Of a pane that closed nothing is remembered, and of the others everything.
pub proof fn law_closed_panes_are_forgotten(notes: NotesModel, panes: Seq<u64>, pane: u64)
    ensures
        ({
            let after = Drained::forgotten(notes, panes);
            &&& panes.contains(pane) ==> !after.titles.dom().contains(pane)
                && !after.activity.contains(pane)
            &&& !panes.contains(pane) ==> {
                &&& after.titles.dom().contains(pane) == notes.titles.dom().contains(pane)
                &&& notes.titles.dom().contains(pane) ==> after.titles[pane] == notes.titles[pane]
                &&& after.activity.contains(pane) == notes.activity.contains(pane)
            }
        }),
    decreases panes.len(),
{
    if panes.len() > 0 {
        let rest = panes.drop_last();
        law_closed_panes_are_forgotten(notes, rest, pane);
        assert(panes.contains(panes.last()));
        if rest.contains(pane) {
            let k = choose|k: int| 0 <= k < rest.len() && rest[k] == pane;
            assert(panes[k] == pane);
        }
        if panes.contains(pane) && pane != panes.last() {
            let k = choose|k: int| 0 <= k < panes.len() && panes[k] == pane;
            assert(rest[k] == pane);
        }
    }
}

/// Looking at a tab settles what its panes had to show, and nothing else.
pub proof fn law_what_was_looked_at_is_seen(activity: Set<u64>, panes: Seq<u64>, pane: u64)
    ensures
        crate::pty::PaneNotes::unseen(activity, panes).contains(pane) <==> activity.contains(pane)
            && !panes.contains(pane),
{
}

/// Which action a button's tooltip names.
pub proof fn law_actions_of_buttons()
    ensures
        crate::action::action_of(ChromeButton::NewTab) == Some(Action::NewTab),
        crate::action::action_of(ChromeButton::Settings) == Some(Action::OpenSettings),
        crate::action::action_of(ChromeButton::Explorer) == Some(Action::OpenExplorer),
        crate::action::action_of(ChromeButton::Help) == Some(Action::OpenHelp),
        crate::action::action_of(ChromeButton::Plugins) == Some(Action::OpenPlugins),
        crate::action::action_of(ChromeButton::SplitRight) == Some(Action::SplitRight),
        crate::action::action_of(ChromeButton::SplitDown) == Some(Action::SplitDown),
{
}

/// The colors of the program's own icon: dark behind, a green chevron and a pale cursor,
/// and nothing outside its rounded outline.
pub proof fn law_colors_of_the_program_s_icon(x: int)
    requires
        0 <= x < 16,
    ensures
        ({
            let at = |row: int, column: int| crate::appicon::pixel(4 * column, 4 * row);
            let clear = seq![0u8, 0u8, 0u8, 0u8];
            let dark = seq![0x14u8, 0x17u8, 0x20u8, 0xffu8];
            let green = seq![0x5cu8, 0xf0u8, 0xd4u8, 0xffu8];
            let pale = seq![0xe6u8, 0xe9u8, 0xf0u8, 0xffu8];
            &&& at(0, x) == at(15, x) && at(1, x) == at(14, x) && at(2, x) == at(13, x)
            &&& at(6, x) == at(9, x) && at(7, x) == at(8, x)
            &&& x < 2 || x > 13 ==> at(1, x) == clear
            &&& 2 <= x <= 13 ==> at(1, x) == dark
            &&& at(6, x) == (if x == 4 || x == 5 {
                green
            } else if 10 <= x <= 12 {
                pale
            } else {
                dark
            })
            &&& x < 3 || x > 12 ==> at(0, x) == clear
            &&& 3 <= x <= 12 ==> at(0, x) == dark
            &&& x == 0 || x == 15 ==> at(2, x) == clear
            &&& at(3, x) == dark && at(4, x) == dark && at(11, x) == dark && at(12, x) == dark
            &&& at(5, x) == (if x == 3 || x == 4 {
                green
            } else {
                dark
            })
            &&& at(7, x) == (if x == 5 || x == 6 {
                green
            } else if 10 <= x <= 12 {
                pale
            } else {
                dark
            })
            &&& at(10, x) == (if x == 3 || x == 4 {
                green
            } else if 10 <= x <= 12 {
                pale
            } else {
                dark
            })
        }),
{
    reveal_strlit("...##########...");
    reveal_strlit("..############..");
    reveal_strlit(".##############.");
    reveal_strlit("####CC####UUU###");
    reveal_strlit("################");
    reveal_strlit("###CC###########");
    reveal_strlit("#####CC###UUU###");
    reveal_strlit("###CC#####UUU###");
    assert((4 * x) / 4 == x);
    assert('.' as u8 == 0x2e && '#' as u8 == 0x23 && 'C' as u8 == 0x43 && 'U' as u8 == 0x55);
}

/// Half of a number, to the nearest whole one, away from zero where two are as near.
pub proof fn law_halves_are_rounded(n: int)
    ensures
        n >= 0 ==> n <= 2 * crate::icon::half_rounded(n) <= n + 1,
        n < 0 ==> n - 1 <= 2 * crate::icon::half_rounded(n) <= n,
{
}

} // verus!
