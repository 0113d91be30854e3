//! "Open in…" buttons for whatever editors are actually installed.
//!
//! The list is fixed but the buttons are not: an editor only appears when its command
//! is found. Looking at the disk is the caller's business; where to look, what counts
//! as a command and what is typed into the shell is decided here.

use vstd::prelude::*;
use vstd::string::*;

use crate::explorer::shell_quote;
use crate::paths::join;
use crate::strings::{chars_of, same_text};

verus! {

/// An editor we know how to launch.
#[derive(Debug, Clone, Copy, PartialEq, Eq)]
pub struct Ide {
    /// Full name, for tooltips and messages.
    pub label: &'static str,
    /// A one- or two-letter monogram, which is what the button shows.
    pub icon: &'static str,
    /// The command to run.
    pub command: &'static str,
}

/// An editor as a mathematical value: its label, monogram and command.
#[verifier::ext_equal]
pub struct IdeModel {
    pub label: Seq<char>,
    pub icon: Seq<char>,
    pub command: Seq<char>,
}

impl View for Ide {
    type V = IdeModel;

    open spec fn view(&self) -> IdeModel {
        IdeModel { label: self.label@, icon: self.icon@, command: self.command@ }
    }
}

impl IdeModel {
    pub open spec fn named(label: &str, icon: &str, command: &str) -> IdeModel {
        IdeModel { label: label@, icon: icon@, command: command@ }
    }

    pub open spec fn all(list: Seq<Ide>) -> Seq<IdeModel> {
        Seq::new(list.len(), |i: int| list[i]@)
    }

    /// Editors worth offering, most common first: the buttons are laid out in this
    /// order.
    pub open spec fn known() -> Seq<IdeModel> {
        seq![
            IdeModel::named("VS Code", "VS", "code"),
            IdeModel::named("Cursor", "Cu", "cursor"),
            IdeModel::named("Windsurf", "Wi", "windsurf"),
            IdeModel::named("Zed", "Ze", "zed"),
            IdeModel::named("Sublime", "Su", "subl"),
            IdeModel::named("IntelliJ", "IJ", "idea"),
            IdeModel::named("WebStorm", "WS", "webstorm"),
            IdeModel::named("Neovim", "Nv", "nvim"),
        ]
    }

    /// The first `n` known editors whose command is found, in order.
    pub open spec fn offered(path: Option<&str>, executables: Seq<Seq<char>>, n: int) -> Seq<
        IdeModel,
    >
        decreases n,
    {
        if n <= 0 {
            Seq::empty()
        } else {
            let ide = IdeModel::known()[n - 1];
            let before = IdeModel::offered(path, executables, n - 1);
            match path {
                Some(p) => if found_on(p@, ide.command, executables) {
                    before.push(ide)
                } else {
                    before
                },
                None => before,
            }
        }
    }
}

/// Editors worth offering, most common first.
pub fn known() -> (list: Vec<Ide>)
    ensures
        IdeModel::all(list@) == IdeModel::known(),
        list@.len() == 8,
{
    let list = vec![
        Ide { label: "VS Code", icon: "VS", command: "code" },
        Ide { label: "Cursor", icon: "Cu", command: "cursor" },
        Ide { label: "Windsurf", icon: "Wi", command: "windsurf" },
        Ide { label: "Zed", icon: "Ze", command: "zed" },
        Ide { label: "Sublime", icon: "Su", command: "subl" },
        Ide { label: "IntelliJ", icon: "IJ", command: "idea" },
        Ide { label: "WebStorm", icon: "WS", command: "webstorm" },
        Ide { label: "Neovim", icon: "Nv", command: "nvim" },
    ];
    assert(IdeModel::all(list@) =~= IdeModel::known());
    list
}

/// The directories of a search path: what stands between its colons.
pub open spec fn directories(path: Seq<char>) -> Seq<Seq<char>>
    decreases path.len(),
{
    if path.len() == 0 {
        seq![Seq::empty()]
    } else {
        let before = directories(path.drop_last());
        if path.last() == ':' {
            before.push(Seq::empty())
        } else {
            before.drop_last().push(before.last().push(path.last()))
        }
    }
}

/// The files that would be `command`, one for each directory of `path`.
pub open spec fn places(path: Seq<char>, command: Seq<char>) -> Seq<Seq<char>> {
    Seq::new(
        directories(path).len(),
        |i: int| crate::paths::joined(directories(path)[i], command),
    )
}

/// `command` is an executable file in one of `path`'s directories.
pub open spec fn found_on(path: Seq<char>, command: Seq<char>, executables: Seq<Seq<char>>) -> bool {
    exists|i: int|
        0 <= i < places(path, command).len() && executables.contains(
            #[trigger] places(path, command)[i],
        )
}

/// The files to look at for `command`, in the order of `path`'s directories.
pub fn search_path(path: &str, command: &str) -> (files: Vec<String>)
    ensures
        crate::widget::texts(files@) == places(path@, command@),
{
    let chars = chars_of(path);
    let mut done: Vec<String> = Vec::new();
    let mut current = String::new();
    let mut i: usize = 0;
    assert(chars@.take(0) =~= Seq::empty());
    assert(crate::widget::texts(done@).push(current@) =~= directories(chars@.take(0)));
    while i < chars.len()
        invariant
            i <= chars.len(),
            crate::widget::texts(done@).push(current@) =~= directories(chars@.take(i as int)),
        decreases chars.len() - i,
    {
        let ghost before = crate::widget::texts(done@);
        let ghost piece = current@;
        let c = chars[i];
        assert(chars@.take(i + 1).drop_last() =~= chars@.take(i as int));
        assert(directories(chars@.take(i as int)).last() == piece);
        assert(directories(chars@.take(i as int)).drop_last() =~= before);
        i += 1;
        if c == ':' {
            done.push(current);
            assert(crate::widget::texts(done@) =~= before.push(piece));
            current = String::new();
            assert(current@ =~= Seq::empty());
        } else {
            current.push(c);
        }
    }
    assert(chars@.take(i as int) =~= path@);
    done.push(current);
    assert(crate::widget::texts(done@) =~= directories(path@));
    let mut files: Vec<String> = Vec::new();
    let mut k: usize = 0;
    while k < done.len()
        invariant
            k <= done.len(),
            crate::widget::texts(done@) == directories(path@),
            done@.len() == directories(path@).len(),
            files@.len() == k,
            forall|j: int| 0 <= j < k ==> (#[trigger] files@[j])@ == places(path@, command@)[j],
        decreases done.len() - k,
    {
        assert(crate::widget::texts(done@)[k as int] == done@[k as int]@);
        assert(directories(path@)[k as int] == done@[k as int]@);
        files.push(join(done[k].as_str(), command));
        k += 1;
    }
    assert(crate::widget::texts(files@) =~= places(path@, command@));
    files
}

/// Whether a file counts as a command: a plain file with an execute bit.
///
/// A file without one would put a button on screen that fails the moment it is
/// pressed.
pub fn is_executable(is_file: bool, mode: u32) -> (b: bool)
    ensures
        b == (is_file && mode & 0o111 != 0),
{
    is_file && mode & 0o111 != 0
}

/// Whether `command` is an executable file in one of `path`'s directories, given the
/// executable files there are.
pub fn on_path(path: &str, command: &str, executables: &Vec<String>) -> (b: bool)
    ensures
        b == found_on(path@, command@, crate::widget::texts(executables@)),
{
    let files = search_path(path, command);
    let ghost list = crate::widget::texts(executables@);
    let mut i: usize = 0;
    while i < files.len()
        invariant
            i <= files.len(),
            crate::widget::texts(files@) == places(path@, command@),
            list == crate::widget::texts(executables@),
            forall|j: int| 0 <= j < i ==> !list.contains(#[trigger] places(path@, command@)[j]),
        decreases files.len() - i,
    {
        assert(crate::widget::texts(files@)[i as int] == files@[i as int]@);
        let mut k: usize = 0;
        while k < executables.len()
            invariant
                i < files.len(),
                k <= executables.len(),
                crate::widget::texts(files@) == places(path@, command@),
                files@[i as int]@ == places(path@, command@)[i as int],
                list == crate::widget::texts(executables@),
                forall|j: int| 0 <= j < k ==> list[j] != files@[i as int]@,
            decreases executables.len() - k,
        {
            assert(list[k as int] == executables@[k as int]@);
            if same_text(executables[k].as_str(), files[i].as_str()) {
                assert(list.contains(places(path@, command@)[i as int]));
                return true;
            }
            k += 1;
        }
        i += 1;
    }
    false
}

/// The known editors whose command is on `path`. A process may have been started with
/// no search path at all: there is then nothing to offer.
pub fn available(path: Option<&str>, executables: &Vec<String>) -> (list: Vec<Ide>)
    ensures
        IdeModel::all(list@) == IdeModel::offered(path, crate::widget::texts(executables@), 8),
{
    let all = known();
    let mut list: Vec<Ide> = Vec::new();
    assert(IdeModel::all(list@) =~= Seq::empty());
    let mut i: usize = 0;
    while i < all.len()
        invariant
            i <= all.len(),
            all@.len() == 8,
            IdeModel::all(all@) == IdeModel::known(),
            IdeModel::all(list@) == IdeModel::offered(
                path,
                crate::widget::texts(executables@),
                i as int,
            ),
        decreases all.len() - i,
    {
        let ide = all[i];
        let ghost before = IdeModel::all(list@);
        assert(IdeModel::all(all@)[i as int] == ide@);
        if let Some(p) = path {
            if on_path(p, ide.command, executables) {
                list.push(ide);
                assert(IdeModel::all(list@) =~= before.push(ide@));
            }
        }
        i += 1;
    }
    list
}

/// The command that opens `target` in `ide`, ready to write to a terminal.
///
/// The path is quoted; the command name is not, because it is one of our own. Ended
/// with the carriage return a shell submits on.
pub fn open_command(ide: Ide, target: &str) -> (bytes: Vec<u8>)
    ensures
        bytes@ == vstd::utf8::encode_utf8(
            ide.command@ + " "@ + crate::explorer::quoted(target@) + seq!['\r'],
        ),
{
    let mut command = ide.command.to_owned();
    command.append(" ");
    command.append(shell_quote(target).as_str());
    command.push('\r');
    assert(command@ =~= ide.command@ + " "@ + crate::explorer::quoted(target@) + seq!['\r']);
    command.as_str().as_bytes_vec()
}

/// Directory an "open in…" button acts on when nothing is selected: where the shell
/// is, else the home directory, else here.
pub fn fallback_target(cwd: Option<&str>, home: Option<&str>) -> (target: String)
    ensures
        target@ == (match (cwd, home) {
            (Some(dir), _) => dir@,
            (None, Some(dir)) => dir@,
            (None, None) => "."@,
        }),
{
    match (cwd, home) {
        (Some(dir), _) => dir.to_owned(),
        (None, Some(dir)) => dir.to_owned(),
        (None, None) => ".".to_owned(),
    }
}

/// No two editors share a monogram: two identical marks side by side would leave open
/// which one opens.
pub proof fn law_monograms_differ(i: int, j: int)
    requires
        0 <= i < j < IdeModel::known().len(),
    ensures
        IdeModel::known()[i].icon != IdeModel::known()[j].icon,
{
    reveal_strlit("VS");
    reveal_strlit("Cu");
    reveal_strlit("Wi");
    reveal_strlit("Ze");
    reveal_strlit("Su");
    reveal_strlit("IJ");
    reveal_strlit("WS");
    reveal_strlit("Nv");
    let a = IdeModel::known()[i].icon;
    let b = IdeModel::known()[j].icon;
    assert(a.len() == 2 && b.len() == 2);
    if a == b {
        assert(a[0] == b[0] && a[1] == b[1]);
    }
}

} // verus!
