# Tuzminal

A GPU-accelerated terminal emulator whose logic is verified with
[Verus](https://github.com/verus-lang/verus).

The library under `src/` decides; the program under `app/` acts. Handling an event takes
the state and a description of the outside, and yields a new state and a list of effects.
The program carries the effects out in order and hands back what came of them.

| Modules | What they hold |
| --- | --- |
| `geometry`, `decimal`, `strings`, `paths` | rectangles, decimals, text and paths |
| `widget`, `ui`, `ui_laws` | rows of controls: layout, scrolling, focus, editing |
| `text`, `scene`, `draw`, `chrome`, `icon`, `instance`, `frame`, `shader` | what a frame draws |
| `window`, `gpu`, `timing` | sizes and edges, surface choices, blinking and messages |
| `keys`, `keymap`, `action`, `app_keys` | key presses and what they do |
| `app`, `app_mouse`, `app_laws`, `effect`, `menu`, `pty` | state, pointer, menus, terminal events |
| `explorer`, `help`, `plugins`, `pkg`, `install`, `bundled`, `ide` | the pages and the package manager |
| `desktop`, `appicon`, `proc`, `cli` | the desktop entry, the icon, processes, logging |

Every public function states its result in `ensures`. The proof functions whose names
begin with `law_` state what holds across functions.

Three things are trusted: the display width of a character, which `unicode-width` decides,
and lowercasing and `String::push`, which are the standard library's.

Positions are integers: fractions of a pixel are counted in a fixed unit that each module
names. Colors and the quads the GPU draws are floating point, and are made in `app/`.

The terminal itself (shells, splits, fonts, configuration and the plugin host) reaches the
program through the `Engine` trait in `app/engine.rs`.
