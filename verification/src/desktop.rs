//! Registering the terminal with the desktop environment.
//!
//! A binary on `PATH` alone never appears in an app grid, and the compositor has no
//! icon or name for its window. Two small files fix that.

use vstd::prelude::*;
use vstd::string::*;

use crate::paths::join;

verus! {

/// Must match the window's application id, or the window and the entry stay unpaired.
pub const ENTRY_NAME: &'static str = "tuzminal";

/// Where the desktop files go.
#[derive(Debug, PartialEq, Eq)]
pub struct Installed {
    pub entry: String,
    pub icon: String,
}

/// The text of a desktop entry that starts `exec`.
pub open spec fn entry_text(exec: Seq<char>) -> Seq<char> {
    "[Desktop Entry]\nType=Application\nName=Tuzminal\nGenericName=Terminal\nComment=A GPU-accelerated terminal emulator\nExec="@
        + exec
        + " %F\nIcon=tuzminal\nTerminal=false\nCategories=System;TerminalEmulator;\nKeywords=shell;prompt;command;commandline;cmd;\nStartupNotify=true\nStartupWMClass=tuzminal\n"@
}

/// The desktop entry that starts `exec`.
///
/// `exec` is embedded as an absolute path: an entry is launched with the session's
/// environment, which usually lacks the directories on the shell's `PATH`.
pub fn entry_contents(exec: &str) -> (text: String)
    ensures
        text@ == entry_text(exec@),
{
    let mut text =
        "[Desktop Entry]\nType=Application\nName=Tuzminal\nGenericName=Terminal\nComment=A GPU-accelerated terminal emulator\nExec=".to_owned();
    text.append(exec);
    text.append(
        " %F\nIcon=tuzminal\nTerminal=false\nCategories=System;TerminalEmulator;\nKeywords=shell;prompt;command;commandline;cmd;\nStartupNotify=true\nStartupWMClass=tuzminal\n",
    );
    text
}

/// The files of an installation under `data_home`: the entry in `applications`, the
/// icon among the scalable icons.
pub fn install_paths(data_home: &str) -> (paths: Installed)
    ensures
        paths.entry@ == crate::paths::joined(
            crate::paths::joined(data_home@, "applications"@),
            "tuzminal.desktop"@,
        ),
        paths.icon@ == crate::paths::joined(
            crate::paths::joined(data_home@, "icons/hicolor/scalable/apps"@),
            "tuzminal.svg"@,
        ),
{
    let apps = join(data_home, "applications");
    let icons = join(data_home, "icons/hicolor/scalable/apps");
    Installed {
        entry: join(apps.as_str(), "tuzminal.desktop"),
        icon: join(icons.as_str(), "tuzminal.svg"),
    }
}

/// Where the desktop files belong: the data directory when it is set to something, and
/// otherwise the usual place below the home directory.
pub fn data_home(xdg_data_home: Option<&str>, home: Option<&str>) -> (dir: Option<String>)
    ensures
        match dir {
            Some(d) => if xdg_data_home matches Some(x) && x@.len() > 0 {
                d@ == xdg_data_home->0@
            } else {
                home is Some && d@ == crate::paths::joined(home->0@, ".local/share"@)
            },
            None => home is None && !(xdg_data_home matches Some(x) && x@.len() > 0),
        },
{
    if let Some(dir) = xdg_data_home {
        // An empty value means unset, and must not become a relative path.
        if dir.unicode_len() > 0 {
            return Some(dir.to_owned());
        }
    }
    match home {
        Some(home) => Some(join(home, ".local/share")),
        None => None,
    }
}

} // verus!
