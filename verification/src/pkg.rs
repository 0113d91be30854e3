//! The plugin and theme package manager: the rules.
//!
//! Installation is a `git clone` into the data directory, and the registry is a git
//! repository holding an index. Running git and touching the disk is the caller's
//! business; which names are usable, where things go, what is asked and what is
//! matched is decided here, and in what order in `install`.

use vstd::prelude::*;
use vstd::string::*;

use crate::decimal::digits_of;
use crate::paths::{file_name, join};
use crate::strings::{
    chars_of, contains_text, pad_right, same_text, slice_text, starts_with, to_lowercase, trim,
};

verus! {

/// What kind of thing is being installed.
#[derive(Debug, Clone, Copy, PartialEq, Eq, Structural)]
pub enum Kind {
    Plugin,
    Theme,
}

impl Kind {
    pub open spec fn word(self) -> Seq<char> {
        match self {
            Kind::Plugin => "plugin"@,
            Kind::Theme => "theme"@,
        }
    }

    /// What the kind is called.
    pub fn label(self) -> (s: &'static str)
        ensures
            s@ == self.word(),
    {
        match self {
            Kind::Plugin => "plugin",
            Kind::Theme => "theme",
        }
    }

    pub open spec fn root_in(self, data_dir: Seq<char>) -> Seq<char> {
        crate::paths::joined(
            data_dir,
            match self {
                Kind::Plugin => "plugins"@,
                Kind::Theme => "themes"@,
            },
        )
    }

    /// Where installed items of this kind live.
    pub fn install_root(self, data_dir: &str) -> (root: String)
        ensures
            root@ == self.root_in(data_dir@),
    {
        match self {
            Kind::Plugin => join(data_dir, "plugins"),
            Kind::Theme => join(data_dir, "themes"),
        }
    }
}

/// `text` begins with `start`.
pub open spec fn begins(text: Seq<char>, start: Seq<char>) -> bool {
    crate::strings::stands_at(text, start, 0)
}

/// A source that looks like a URL is cloned directly; anything else is a registry name.
pub open spec fn looks_like_url(source: Seq<char>) -> bool {
    ||| begins(source, "http://"@)
    ||| begins(source, "https://"@)
    ||| begins(source, "git@"@)
    ||| begins(source, "ssh://"@)
    ||| begins(source, "git://"@)
}

/// Decide whether a source string is a git URL or a registry name.
pub fn is_git_url(source: &str) -> (b: bool)
    ensures
        b == looks_like_url(source@),
{
    starts_with(source, "http://") || starts_with(source, "https://") || starts_with(
        source,
        "git@",
    ) || starts_with(source, "ssh://") || starts_with(source, "git://")
}

/// Why a URL gives no directory name.
#[derive(Debug, PartialEq, Eq)]
pub enum NameError {
    /// There is nothing to name it after.
    Missing,
    /// It would be hidden, or could escape the install root.
    NotUsable(String),
    /// It holds characters that a directory name here must not.
    BadCharacters(String),
}

/// `text` without its trailing slashes.
pub open spec fn without_slashes(text: Seq<char>) -> Seq<char>
    decreases text.len(),
{
    if text.len() > 0 && text.last() == '/' {
        without_slashes(text.drop_last())
    } else {
        text
    }
}

/// `text` ends in `.git`.
pub open spec fn ends_in_git(text: Seq<char>) -> bool {
    let n = text.len() as int;
    n >= 4 && text[n - 4] == '.' && text[n - 3] == 'g' && text[n - 2] == 'i' && text[n - 1] == 't'
}

/// `text` without the `.git` at its end, as often as it is there.
pub open spec fn without_git(text: Seq<char>) -> Seq<char>
    decreases text.len(),
{
    if ends_in_git(text) {
        without_git(text.take(text.len() - 4))
    } else {
        text
    }
}

/// What follows the last slash or colon.
pub open spec fn last_segment(text: Seq<char>) -> Seq<char>
    decreases text.len(),
{
    if text.len() == 0 || text.last() == '/' || text.last() == ':' {
        Seq::empty()
    } else {
        last_segment(text.drop_last()).push(text.last())
    }
}

/// The part of a URL its directory is named after.
pub open spec fn url_segment(url: Seq<char>) -> Seq<char> {
    last_segment(without_git(without_slashes(url)))
}

/// A letter or digit of ASCII, or one of the marks a name may hold.
pub open spec fn name_char(c: char) -> bool {
    ||| 'a' <= c <= 'z'
    ||| 'A' <= c <= 'Z'
    ||| '0' <= c <= '9'
    ||| c == '-'
    ||| c == '_'
    ||| c == '.'
}

/// The name is hidden, climbs, or holds a backslash.
pub open spec fn unusable(name: Seq<char>) -> bool {
    ||| crate::strings::holds(name, ".."@)
    ||| name.contains('\\')
    ||| name.len() > 0 && name[0] == '.'
}

/// Every character may stand in a name.
pub open spec fn plain(name: Seq<char>) -> bool {
    forall|i: int| 0 <= i < name.len() ==> name_char(#[trigger] name[i])
}

/// The error a URL without a usable name gives: the first that applies.
pub open spec fn name_refused(url: Seq<char>, error: NameError) -> bool {
    let name = url_segment(url);
    match error {
        NameError::Missing => name.len() == 0,
        NameError::NotUsable(n) => n@ == name && name.len() > 0 && unusable(name),
        NameError::BadCharacters(n) => n@ == name && name.len() > 0 && !unusable(name) && !plain(
            name,
        ),
    }
}

pub(crate) proof fn lemma_segment_is_suffix(text: Seq<char>, start: int)
    requires
        0 <= start <= text.len(),
        start > 0 ==> text[start - 1] == '/' || text[start - 1] == ':',
        forall|i: int|
            start <= i < text.len() ==> #[trigger] text[i] != '/' && text[i] != ':',
    ensures
        last_segment(text) == text.skip(start),
    decreases text.len(),
{
    if start < text.len() {
        assert(text[text.len() - 1] != '/' && text[text.len() - 1] != ':');
        lemma_segment_is_suffix(text.drop_last(), start);
        assert(text.skip(start) =~= text.drop_last().skip(start).push(text.last()));
    } else {
        assert(text.skip(start) =~= Seq::empty());
    }
}

fn is_name_char(c: char) -> (b: bool)
    ensures
        b == name_char(c),
{
    ('a' <= c && c <= 'z') || ('A' <= c && c <= 'Z') || ('0' <= c && c <= '9') || c == '-' || c
        == '_' || c == '.'
}

/// The part of a URL its directory is named after.
fn segment_of(url: &str) -> (s: String)
    ensures
        s@ == url_segment(url@),
{
    let chars = chars_of(url);
    let mut end: usize = chars.len();
    assert(chars@.take(end as int) =~= chars@);
    while end > 0 && chars[end - 1] == '/'
        invariant
            end <= chars@.len(),
            without_slashes(chars@) == without_slashes(chars@.take(end as int)),
        decreases end,
    {
        assert(chars@.take(end as int).drop_last() =~= chars@.take(end - 1));
        end -= 1;
    }
    let ghost bare = chars@.take(end as int);
    assert(without_slashes(chars@) == bare);
    assert(bare.take(end as int) =~= bare);
    while end >= 4 && chars[end - 4] == '.' && chars[end - 3] == 'g' && chars[end - 2] == 'i'
        && chars[end - 1] == 't'
        invariant
            end <= bare.len() <= chars@.len(),
            bare == chars@.take(bare.len() as int),
            without_git(bare) == without_git(bare.take(end as int)),
        decreases end,
    {
        assert(bare.take(end as int).take(end - 4) =~= bare.take(end - 4));
        end -= 4;
    }
    let ghost stem = bare.take(end as int);
    assert(without_git(bare) == stem);
    let mut start: usize = end;
    while start > 0 && chars[start - 1] != '/' && chars[start - 1] != ':'
        invariant
            start <= end <= bare.len() <= chars@.len(),
            bare == chars@.take(bare.len() as int),
            stem == bare.take(end as int),
            forall|i: int|
                start <= i < end ==> #[trigger] stem[i] != '/' && stem[i] != ':',
        decreases start,
    {
        start -= 1;
    }
    proof {
        lemma_segment_is_suffix(stem, start as int);
    }
    let s = slice_text(&chars, start, end);
    assert(s@ =~= stem.skip(start as int));
    s
}

fn holds_backslash(name: &Vec<char>) -> (b: bool)
    ensures
        b == name@.contains('\\'),
{
    let mut i: usize = 0;
    while i < name.len()
        invariant
            i <= name.len(),
            forall|j: int| 0 <= j < i ==> name@[j] != '\\',
        decreases name.len() - i,
    {
        if name[i] == '\\' {
            assert(name@[i as int] == '\\');
            return true;
        }
        i += 1;
    }
    false
}

fn is_plain(name: &Vec<char>) -> (b: bool)
    ensures
        b == plain(name@),
{
    let mut i: usize = 0;
    while i < name.len()
        invariant
            i <= name.len(),
            forall|j: int| 0 <= j < i ==> name_char(#[trigger] name@[j]),
        decreases name.len() - i,
    {
        if !is_name_char(name[i]) {
            assert(!name_char(name@[i as int]));
            return false;
        }
        i += 1;
    }
    true
}

/// Derive a directory name from a git URL.
///
/// Rejects anything that could escape the install root, because this value becomes a
/// path component.
pub fn name_from_url(url: &str) -> (name: Result<String, NameError>)
    ensures
        match name {
            Ok(n) => {
                &&& n@ == url_segment(url@)
                &&& n@.len() > 0
                &&& !unusable(n@)
                &&& plain(n@)
            },
            Err(e) => name_refused(url@, e),
        },
{
    let last = segment_of(url);
    let chars = chars_of(last.as_str());
    if chars.len() == 0 {
        return Err(NameError::Missing);
    }
    if contains_text(last.as_str(), "..") || holds_backslash(&chars) || chars[0] == '.' {
        return Err(NameError::NotUsable(last));
    }
    if !is_plain(&chars) {
        return Err(NameError::BadCharacters(last));
    }
    Ok(last)
}

/// What to tell the user about a URL whose name is refused.
pub open spec fn refusal_text(url: Seq<char>) -> Seq<char> {
    let name = url_segment(url);
    if name.len() == 0 {
        "cannot work out a name from `"@ + url + "`"@
    } else if unusable(name) {
        "`"@ + name + "` is not a usable directory name"@
    } else {
        "`"@ + name + "` contains characters that are not valid in a directory name"@
    }
}

/// What to tell the user about a URL without a usable name.
pub fn name_error_message(error: &NameError, url: &str) -> (text: String)
    ensures
        text@ == (match *error {
            NameError::Missing => "cannot work out a name from `"@ + url@ + "`"@,
            NameError::NotUsable(n) => "`"@ + n@ + "` is not a usable directory name"@,
            NameError::BadCharacters(n) => "`"@ + n@
                + "` contains characters that are not valid in a directory name"@,
        }),
        name_refused(url@, *error) ==> text@ == refusal_text(url@),
{
    match error {
        NameError::Missing => {
            let mut text = "cannot work out a name from `".to_owned();
            text.append(url);
            text.append("`");
            text
        },
        NameError::NotUsable(n) => {
            let mut text = "`".to_owned();
            text.append(n.as_str());
            text.append("` is not a usable directory name");
            text
        },
        NameError::BadCharacters(n) => {
            let mut text = "`".to_owned();
            text.append(n.as_str());
            text.append("` contains characters that are not valid in a directory name");
            text
        },
    }
}

/// Where a download is staged before it is known to be valid and wanted: beside the
/// install roots, so that one that is invalid or declined never lands in a root.
pub fn staging_dir(data_dir: &str, name: &str) -> (dir: String)
    ensures
        dir@ == staged_in(data_dir@, name@),
{
    let mut hidden = ".staging-".to_owned();
    hidden.append(name);
    join(data_dir, hidden.as_str())
}

pub open spec fn staged_in(data_dir: Seq<char>, name: Seq<char>) -> Seq<char> {
    crate::paths::joined(data_dir, ".staging-"@ + name)
}

pub open spec fn installed_text(kind: Kind, name: Seq<char>, target: Seq<char>) -> Seq<char> {
    kind.word() + " `"@ + name + "` is already installed at "@ + target + "\nuse `tuzminal "@
        + kind.word() + " update "@ + name + "` instead"@
}

/// What to tell the user about something that is installed already.
pub fn already_installed(kind: Kind, name: &str, target: &str) -> (text: String)
    ensures
        text@ == installed_text(kind, name@, target@),
{
    let mut text = kind.label().to_owned();
    text.append(" `");
    text.append(name);
    text.append("` is already installed at ");
    text.append(target);
    text.append("\nuse `tuzminal ");
    text.append(kind.label());
    text.append(" update ");
    text.append(name);
    text.append("` instead");
    text
}

/// How a plugin is run.
#[derive(Debug, Clone, Copy, PartialEq, Eq, Structural)]
pub enum Runtime {
    Lua,
    Wasm,
}

/// What a plugin says of itself.
#[derive(Debug, PartialEq, Eq)]
pub struct Manifest {
    pub name: String,
    pub version: String,
    pub runtime: Runtime,
    pub entry: String,
    pub description: String,
    /// What it asks to be able to do, in words.
    pub permissions: Vec<String>,
}

pub open spec fn runtime_word(runtime: Runtime) -> Seq<char> {
    match runtime {
        Runtime::Lua => "Lua"@,
        Runtime::Wasm => "Wasm"@,
    }
}

pub open spec fn permission_lines(permissions: Seq<String>) -> Seq<Seq<char>> {
    Seq::new(permissions.len(), |i: int| "    - "@ + permissions[i]@)
}

/// What the user is shown before a plugin is installed: what it is, what it asks for,
/// and whether that list is a limit or only a statement of intent.
pub open spec fn consent_lines(m: Manifest) -> Seq<Seq<char>> {
    seq![Seq::empty(), "  "@ + m.name@ + " "@ + m.version@] + (if m.description@.len() == 0 {
        Seq::empty()
    } else {
        seq!["  "@ + m.description@]
    }) + seq!["  runtime: "@ + runtime_word(m.runtime)] + (if m.permissions@.len() == 0 {
        seq!["  permissions: none"@]
    } else {
        seq!["  it asks to be able to:"@] + permission_lines(m.permissions@)
    }) + (match m.runtime {
        Runtime::Wasm => seq![
            "  this plugin is sandboxed: it can only do what is listed above"@,
        ],
        Runtime::Lua => seq![
            Seq::empty(),
            "  WARNING: Lua plugins are NOT sandboxed. This plugin can do"@,
            "  anything your user account can, regardless of the list above."@,
            "  Only install it if you trust its source."@,
        ],
    }) + seq![Seq::empty()]
}

fn push_line(lines: &mut Vec<String>, line: String)
    ensures
        crate::widget::texts(final(lines)@) == crate::widget::texts(old(lines)@).push(line@),
{
    lines.push(line);
    assert(crate::widget::texts(lines@) =~= crate::widget::texts(old(lines)@).push(line@));
}

/// Show what a plugin is asking for, line by line.
pub fn consent_text(manifest: &Manifest) -> (lines: Vec<String>)
    ensures
        crate::widget::texts(lines@) == consent_lines(*manifest),
{
    let mut lines: Vec<String> = Vec::new();
    assert(crate::widget::texts(lines@) =~= Seq::empty());
    push_line(&mut lines, String::new());
    let mut title = "  ".to_owned();
    title.append(manifest.name.as_str());
    title.append(" ");
    title.append(manifest.version.as_str());
    push_line(&mut lines, title);
    if manifest.description.as_str().unicode_len() != 0 {
        let mut line = "  ".to_owned();
        line.append(manifest.description.as_str());
        push_line(&mut lines, line);
    }
    let mut runtime = "  runtime: ".to_owned();
    runtime.append(
        match manifest.runtime {
            Runtime::Lua => "Lua",
            Runtime::Wasm => "Wasm",
        },
    );
    push_line(&mut lines, runtime);
    let ghost before = crate::widget::texts(lines@);
    if manifest.permissions.len() == 0 {
        push_line(&mut lines, "  permissions: none".to_owned());
    } else {
        push_line(&mut lines, "  it asks to be able to:".to_owned());
        let ghost head = crate::widget::texts(lines@);
        let mut i: usize = 0;
        while i < manifest.permissions.len()
            invariant
                i <= manifest.permissions@.len(),
                crate::widget::texts(lines@) =~= head + permission_lines(
                    manifest.permissions@,
                ).take(i as int),
            decreases manifest.permissions@.len() - i,
        {
            let mut line = "    - ".to_owned();
            line.append(manifest.permissions[i].as_str());
            push_line(&mut lines, line);
            i += 1;
            assert(permission_lines(manifest.permissions@).take(i as int) =~= permission_lines(
                manifest.permissions@,
            ).take(i - 1).push(permission_lines(manifest.permissions@)[i - 1]));
        }
        assert(permission_lines(manifest.permissions@).take(i as int) =~= permission_lines(
            manifest.permissions@,
        ));
    }
    match manifest.runtime {
        Runtime::Wasm => {
            push_line(
                &mut lines,
                "  this plugin is sandboxed: it can only do what is listed above".to_owned(),
            );
        },
        Runtime::Lua => {
            push_line(&mut lines, String::new());
            push_line(
                &mut lines,
                "  WARNING: Lua plugins are NOT sandboxed. This plugin can do".to_owned(),
            );
            push_line(
                &mut lines,
                "  anything your user account can, regardless of the list above.".to_owned(),
            );
            push_line(&mut lines, "  Only install it if you trust its source.".to_owned());
        },
    }
    push_line(&mut lines, String::new());
    assert(crate::widget::texts(lines@) =~= consent_lines(*manifest));
    lines
}

/// Whether an answer is a yes.
pub open spec fn says_yes(answer: Seq<char>) -> bool {
    let said = crate::strings::lowercase(crate::strings::trimmed(answer));
    said == "y"@ || said == "yes"@
}

/// Whether the user agreed. `yes` skips the question, for scripted installs.
pub fn confirmed(yes: bool, answer: &str) -> (b: bool)
    ensures
        b == (yes || says_yes(answer@)),
{
    if yes {
        return true;
    }
    is_yes(to_lowercase(trim(answer).as_str()).as_str())
}

/// Whether a trimmed and lowercased answer is a yes.
pub fn is_yes(said: &str) -> (b: bool)
    ensures
        b == (said@ == "y"@ || said@ == "yes"@),
{
    same_text(said, "y") || same_text(said, "yes")
}

/// One package of the registry.
#[derive(Debug, PartialEq, Eq)]
pub struct RegistryEntry {
    pub name: String,
    pub url: String,
    pub description: String,
}

/// The default registry, clonable by anyone who wants to run their own.
pub const DEFAULT_REGISTRY: &'static str = "https://github.com/tuzminal/registry";

/// The first of the first `n` packages with this name.
pub open spec fn package_at(table: Seq<RegistryEntry>, name: Seq<char>, n: int) -> Option<int>
    decreases n,
{
    if n <= 0 {
        None
    } else if package_at(table, name, n - 1) is Some {
        package_at(table, name, n - 1)
    } else if table[n - 1].name@ == name {
        Some(n - 1)
    } else {
        None
    }
}

proof fn lemma_package_stays(table: Seq<RegistryEntry>, name: Seq<char>, i: int, n: int)
    requires
        0 <= i <= n,
        package_at(table, name, i) is Some,
    ensures
        package_at(table, name, n) == package_at(table, name, i),
    decreases n,
{
    if i < n {
        lemma_package_stays(table, name, i, n - 1);
    }
}

/// What to tell the user about a name the registry does not have.
pub open spec fn missing_text(kind: Kind, name: Seq<char>) -> Seq<char> {
    "no "@ + kind.word() + " named `"@ + name + "` in the registry\ntry `tuzminal "@ + kind.word()
        + " search` to see what is available"@
}

/// Look a name up among the registry's packages of one kind. The error says how to see
/// what there is.
pub fn resolve_from_registry(kind: Kind, table: &[RegistryEntry], name: &str) -> (url: Result<
    String,
    String,
>)
    ensures
        match (url, package_at(table@, name@, table@.len() as int)) {
            (Ok(u), Some(i)) => u@ == table@[i].url@,
            (Err(why), None) => why@ == missing_text(kind, name@),
            _ => false,
        },
{
    let mut i: usize = 0;
    while i < table.len()
        invariant
            i <= table@.len(),
            package_at(table@, name@, i as int) is None,
        decreases table@.len() - i,
    {
        if same_text(table[i].name.as_str(), name) {
            proof {
                lemma_package_stays(table@, name@, i + 1, table@.len() as int);
            }
            return Ok(table[i].url.clone());
        }
        i += 1;
    }
    let mut why = "no ".to_owned();
    why.append(kind.label());
    why.append(" named `");
    why.append(name);
    why.append("` in the registry\ntry `tuzminal ");
    why.append(kind.label());
    why.append(" search` to see what is available");
    Err(why)
}

/// A package matches a query when its name or its description holds it, letter case
/// aside. Without a query everything matches.
pub open spec fn matches_query(entry: RegistryEntry, query: Option<&str>) -> bool {
    match query {
        None => true,
        Some(q) => {
            let wanted = crate::strings::lowercase(q@);
            ||| crate::strings::holds(crate::strings::lowercase(entry.name@), wanted)
            ||| crate::strings::holds(crate::strings::lowercase(entry.description@), wanted)
        },
    }
}

/// The line that shows a package.
pub open spec fn package_line(entry: RegistryEntry) -> Seq<char> {
    crate::strings::padded_right(entry.name@, 24) + " "@ + entry.description@
}

/// The lines of the first `n` packages that match.
pub open spec fn search_lines(table: Seq<RegistryEntry>, query: Option<&str>, n: int) -> Seq<
    Seq<char>,
>
    decreases n,
{
    if n <= 0 {
        Seq::empty()
    } else if matches_query(table[n - 1], query) {
        search_lines(table, query, n - 1).push(package_line(table[n - 1]))
    } else {
        search_lines(table, query, n - 1)
    }
}

fn entry_matches(entry: &RegistryEntry, query: Option<&str>) -> (b: bool)
    ensures
        b == matches_query(*entry, query),
{
    match query {
        None => true,
        Some(q) => {
            let wanted = to_lowercase(q);
            contains_text(to_lowercase(entry.name.as_str()).as_str(), wanted.as_str())
                || contains_text(
                to_lowercase(entry.description.as_str()).as_str(),
                wanted.as_str(),
            )
        },
    }
}

/// The registry's contents, as far as they match: one line per package, or one line
/// that says nothing did.
pub fn search(table: &[RegistryEntry], query: Option<&str>) -> (lines: Vec<String>)
    ensures
        crate::widget::texts(lines@) == (if search_lines(table@, query, table@.len() as int).len()
            == 0 {
            seq!["nothing matched"@]
        } else {
            search_lines(table@, query, table@.len() as int)
        }),
{
    let mut lines: Vec<String> = Vec::new();
    assert(crate::widget::texts(lines@) =~= Seq::empty());
    let mut i: usize = 0;
    while i < table.len()
        invariant
            i <= table@.len(),
            crate::widget::texts(lines@) == search_lines(table@, query, i as int),
        decreases table@.len() - i,
    {
        if entry_matches(&table[i], query) {
            let mut line = pad_right(table[i].name.as_str(), 24);
            line.append(" ");
            line.append(table[i].description.as_str());
            push_line(&mut lines, line);
        }
        i += 1;
    }
    if lines.len() == 0 {
        push_line(&mut lines, "nothing matched".to_owned());
        assert(crate::widget::texts(lines@) =~= seq!["nothing matched"@]);
    }
    lines
}

/// The line that lists an installed plugin.
pub fn list_line(manifest: &Manifest, path: &str) -> (line: String)
    ensures
        line@ == crate::strings::padded_right(manifest.name@, 24) + " "@
            + crate::strings::padded_right(manifest.version@, 10) + " "@ + runtime_word(
            manifest.runtime,
        ) + "  "@ + path@,
{
    let mut line = pad_right(manifest.name.as_str(), 24);
    line.append(" ");
    line.append(pad_right(manifest.version.as_str(), 10).as_str());
    line.append(" ");
    line.append(
        match manifest.runtime {
            Runtime::Lua => "Lua",
            Runtime::Wasm => "Wasm",
        },
    );
    line.append("  ");
    line.append(path);
    line
}

/// A name that can be removed: one plain component that is not hidden and does not
/// climb.
pub open spec fn removable(name: Seq<char>) -> bool {
    &&& name.len() > 0
    &&& !name.contains('/')
    &&& !unusable(name)
}

/// Check a name before anything of that name is removed: it becomes a path component.
pub fn check_removal(kind: Kind, name: &str) -> (r: Result<(), String>)
    ensures
        match r {
            Ok(_) => removable(name@),
            Err(why) => !removable(name@) && why@ == "`"@ + name@ + "` is not a valid "@
                + kind.word() + " name"@,
        },
{
    let chars = chars_of(name);
    let mut slash = false;
    let mut i: usize = 0;
    while i < chars.len()
        invariant
            i <= chars.len(),
            chars@ == name@,
            slash == exists|j: int| 0 <= j < i && name@[j] == '/',
        decreases chars.len() - i,
    {
        if chars[i] == '/' {
            assert(name@[i as int] == '/');
            slash = true;
        }
        i += 1;
    }
    assert(slash == name@.contains('/'));
    if chars.len() == 0 || slash || holds_backslash(&chars) || contains_text(name, "..") || chars[0]
        == '.' {
        let mut why = "`".to_owned();
        why.append(name);
        why.append("` is not a valid ");
        why.append(kind.label());
        why.append(" name");
        return Err(why);
    }
    Ok(())
}

/// What to tell the user about removing something that is not there.
pub fn not_installed(kind: Kind, name: &str, target: &str) -> (text: String)
    ensures
        text@ == kind.word() + " `"@ + name@ + "` is not installed (nothing at "@ + target@ + ")"@,
{
    let mut text = kind.label().to_owned();
    text.append(" `");
    text.append(name);
    text.append("` is not installed (nothing at ");
    text.append(target);
    text.append(")");
    text
}

/// Whether a resolved path lies directly inside the resolved install root, so that a link
/// cannot lead a removal elsewhere: not out of it, not deeper, and not to the root itself.
pub fn inside_root(target: &str, root: &str) -> (b: bool)
    ensures
        b == crate::paths::child_of(target@, root@),
{
    crate::paths::is_child(target, root)
}

/// What to tell the user about something that is not directly inside the install root.
pub open spec fn outside_text(target: Seq<char>, root: Seq<char>) -> Seq<char> {
    "refusing to remove "@ + target + ": it resolves outside "@ + root
}

/// What is deleted when an item is removed, or why nothing is. `target` is where it would
/// be, `resolved` that path with every link followed, if anything is there, and `root` the
/// install root with every link followed.
pub fn removal_of(kind: Kind, name: &str, target: &str, resolved: Option<&str>, root: &str) -> (path:
    Result<String, String>)
    ensures
        match path {
            Ok(p) => {
                &&& removable(name@)
                &&& resolved is Some && p@ == resolved->0@
                &&& crate::paths::child_of(p@, root@)
            },
            Err(why) => if !removable(name@) {
                why@ == "`"@ + name@ + "` is not a valid "@ + kind.word() + " name"@
            } else if resolved is None {
                why@ == kind.word() + " `"@ + name@ + "` is not installed (nothing at "@ + target@
                    + ")"@
            } else {
                &&& !crate::paths::child_of(resolved->0@, root@)
                &&& why@ == outside_text(resolved->0@, root@)
            },
        },
{
    match check_removal(kind, name) {
        Ok(_) => {},
        Err(why) => {
            return Err(why);
        },
    }
    match resolved {
        Some(path) => {
            if inside_root(path, root) {
                Ok(path.to_owned())
            } else {
                let mut why = "refusing to remove ".to_owned();
                why.append(path);
                why.append(": it resolves outside ");
                why.append(root);
                Err(why)
            }
        },
        None => Err(not_installed(kind, name, target)),
    }
}

/// What a checkout is called: the last name of its path.
pub open spec fn label_of(path: Seq<char>) -> Seq<char> {
    match crate::paths::file_name_of(path) {
        Some(n) => n,
        None => "unknown"@,
    }
}

/// What a checkout is called while it is updated.
pub fn checkout_label(path: &str) -> (label: String)
    ensures
        label@ == label_of(path@),
{
    match file_name(path) {
        Some(n) => n,
        None => "unknown".to_owned(),
    }
}

/// Everything an install needs to know before it touches the disk.
#[derive(Debug, PartialEq, Eq)]
pub struct InstallPlan {
    /// Where it comes from.
    pub url: String,
    pub name: String,
    /// Where installed items of the kind live.
    pub root: String,
    /// Where this one goes.
    pub target: String,
    /// Where it is cloned first, so that an invalid or declined one never lands in the
    /// root.
    pub staging: String,
    /// What git is asked to do.
    pub clone: Vec<String>,
}

/// A plan as a mathematical value.
#[verifier::ext_equal]
pub struct PlanModel {
    pub url: Seq<char>,
    pub name: Seq<char>,
    pub root: Seq<char>,
    pub target: Seq<char>,
    pub staging: Seq<char>,
    pub clone: Seq<Seq<char>>,
}

impl View for InstallPlan {
    type V = PlanModel;

    open spec fn view(&self) -> PlanModel {
        PlanModel {
            url: self.url@,
            name: self.name@,
            root: self.root@,
            target: self.target@,
            staging: self.staging@,
            clone: crate::widget::texts(self.clone@),
        }
    }
}

impl PlanModel {
    /// How a URL is installed.
    pub open spec fn of(kind: Kind, data_dir: Seq<char>, url: Seq<char>) -> PlanModel {
        let root = kind.root_in(data_dir);
        let name = url_segment(url);
        let staging = staged_in(data_dir, name);
        PlanModel {
            url,
            name,
            root,
            target: crate::paths::joined(root, name),
            staging,
            clone: seq!["clone"@, "--depth"@, "1"@, url, staging],
        }
    }
}

/// The URL names a directory that can be used.
pub open spec fn well_named(url: Seq<char>) -> bool {
    let name = url_segment(url);
    name.len() > 0 && !unusable(name) && plain(name)
}

/// Decide where a URL is installed and how it is fetched.
pub fn plan_install(kind: Kind, data_dir: &str, url: &str) -> (plan: Result<InstallPlan, NameError>)
    ensures
        match plan {
            Ok(p) => well_named(url@) && p@ == PlanModel::of(kind, data_dir@, url@),
            Err(e) => !well_named(url@) && name_refused(url@, e),
        },
{
    match name_from_url(url) {
        Ok(name) => {
            let root = kind.install_root(data_dir);
            let target = join(root.as_str(), name.as_str());
            let staging = staging_dir(data_dir, name.as_str());
            let mut clone: Vec<String> = Vec::new();
            assert(crate::widget::texts(clone@) =~= Seq::empty());
            push_line(&mut clone, "clone".to_owned());
            push_line(&mut clone, "--depth".to_owned());
            push_line(&mut clone, "1".to_owned());
            push_line(&mut clone, url.to_owned());
            push_line(&mut clone, staging.clone());
            assert(crate::widget::texts(clone@) =~= seq![
                "clone"@,
                "--depth"@,
                "1"@,
                url@,
                staging@,
            ]);
            let plan = InstallPlan { url: url.to_owned(), name, root, target, staging, clone };
            assert(plan@ =~= PlanModel::of(kind, data_dir@, url@));
            Ok(plan)
        },
        Err(e) => Err(e),
    }
}

/// A file called `name` has the extension `toml`.
pub open spec fn is_toml(name: Seq<char>) -> bool {
    let n = name.len() as int;
    n > 5 && crate::strings::stands_at(name, ".toml"@, n - 5)
}

/// How many of the first `n` names have the extension `toml`.
pub open spec fn toml_count(names: Seq<String>, n: int) -> int
    decreases n,
{
    if n <= 0 {
        0
    } else {
        toml_count(names, n - 1) + (if is_toml(names[n - 1]@) {
            1int
        } else {
            0int
        })
    }
}

fn has_toml_extension(name: &str) -> (b: bool)
    ensures
        b == is_toml(name@),
{
    let chars = chars_of(name);
    let n: usize = chars.len();
    proof {
        reveal_strlit(".toml");
    }
    if n <= 5 {
        return false;
    }
    let tail = slice_text(&chars, n - 5, n);
    same_text(tail.as_str(), ".toml")
}

/// Check a staged theme repository by the names of its files: how many themes it holds.
pub fn count_themes(names: &Vec<String>) -> (count: Result<usize, String>)
    ensures
        match count {
            Ok(n) => n == toml_count(names@, names@.len() as int) && n > 0,
            Err(why) => toml_count(names@, names@.len() as int) == 0 && why@
                == "no .toml theme files found in the repository"@,
        },
{
    let mut count: usize = 0;
    let mut i: usize = 0;
    while i < names.len()
        invariant
            i <= names.len(),
            count <= i,
            count == toml_count(names@, i as int),
        decreases names.len() - i,
    {
        if has_toml_extension(names[i].as_str()) {
            count += 1;
        }
        i += 1;
    }
    if count == 0 {
        Err("no .toml theme files found in the repository".to_owned())
    } else {
        Ok(count)
    }
}

/// Check a staged plugin: the entry its manifest names has to be there.
pub fn check_entry(entry: &str, is_file: bool) -> (r: Result<(), String>)
    ensures
        match r {
            Ok(_) => is_file,
            Err(why) => !is_file && why@ == "the manifest names entry `"@ + entry@
                + "`, which is not in the repository"@,
        },
{
    if is_file {
        return Ok(());
    }
    let mut why = "the manifest names entry `".to_owned();
    why.append(entry);
    why.append("`, which is not in the repository");
    Err(why)
}

/// What follows the last newline, a final one aside.
pub open spec fn last_line(output: Seq<char>) -> Seq<char>
    recommends
        output.len() > 0,
{
    if output.last() == '\n' {
        after_newline(output.drop_last())
    } else {
        after_newline(output)
    }
}

/// What follows the last newline.
pub open spec fn after_newline(text: Seq<char>) -> Seq<char>
    decreases text.len(),
{
    if text.len() == 0 || text.last() == '\n' {
        Seq::empty()
    } else {
        after_newline(text.drop_last()).push(text.last())
    }
}

/// What an update says: the last line of git's output, or that it was updated when git
/// said nothing.
pub open spec fn update_summary(output: Seq<char>) -> Seq<char> {
    if output.len() == 0 {
        "updated"@
    } else {
        crate::strings::trimmed(last_line(output))
    }
}

pub(crate) proof fn lemma_after_newline(text: Seq<char>, start: int)
    requires
        0 <= start <= text.len(),
        start > 0 ==> text[start - 1] == '\n',
        forall|i: int| start <= i < text.len() ==> #[trigger] text[i] != '\n',
    ensures
        after_newline(text) == text.skip(start),
    decreases text.len(),
{
    if start < text.len() {
        assert(text[text.len() - 1] != '\n');
        lemma_after_newline(text.drop_last(), start);
        assert(text.skip(start) =~= text.drop_last().skip(start).push(text.last()));
    } else {
        assert(text.skip(start) =~= Seq::empty());
    }
}

/// What to say of one update that git carried out.
pub fn pull_summary(output: &str) -> (text: String)
    ensures
        text@ == update_summary(output@),
{
    let chars = chars_of(output);
    let n: usize = chars.len();
    if n == 0 {
        return "updated".to_owned();
    }
    let end: usize = if chars[n - 1] == '\n' {
        n - 1
    } else {
        n
    };
    let ghost body = if output@.last() == '\n' {
        output@.drop_last()
    } else {
        output@
    };
    assert(body =~= output@.take(end as int));
    let mut start: usize = end;
    while start > 0 && chars[start - 1] != '\n'
        invariant
            start <= end <= chars@.len(),
            body == chars@.take(end as int),
            forall|i: int| start <= i < end ==> #[trigger] body[i] != '\n',
        decreases start,
    {
        start -= 1;
    }
    proof {
        lemma_after_newline(body, start as int);
    }
    let line = slice_text(&chars, start, end);
    assert(line@ =~= body.skip(start as int));
    trim(line.as_str())
}

/// The verdict on a round of updates: one failure does not stop the rest, but it is
/// not passed over either.
pub fn update_verdict(failures: u64) -> (r: Result<(), String>)
    ensures
        match r {
            Ok(_) => failures == 0,
            Err(why) => failures > 0 && why@ == crate::decimal::digits(failures as nat)
                + " item(s) failed to update"@,
        },
{
    if failures == 0 {
        return Ok(());
    }
    let mut why = digits_of(failures);
    why.append(" item(s) failed to update");
    Err(why)
}

/// The joined paths of the first `n` names that are checkouts, in order.
pub open spec fn checkout_paths(
    root: Seq<char>,
    names: Seq<Seq<char>>,
    checkouts: Seq<bool>,
    n: int,
) -> Seq<Seq<char>>
    decreases n,
{
    if n <= 0 {
        Seq::empty()
    } else if checkouts[n - 1] {
        checkout_paths(root, names, checkouts, n - 1).push(
            crate::paths::joined(root, names[n - 1]),
        )
    } else {
        checkout_paths(root, names, checkouts, n - 1)
    }
}

/// What an update is about: the item that was named, whatever is there, or else
/// everything under the root that is a checkout.
pub open spec fn targets_of(
    root: Seq<char>,
    named: Option<Seq<char>>,
    names: Seq<Seq<char>>,
    checkouts: Seq<bool>,
) -> Seq<Seq<char>> {
    match named {
        Some(name) => seq![crate::paths::joined(root, name)],
        None => checkout_paths(root, names, checkouts, names.len() as int),
    }
}

/// The paths to update. `names` is what stands in the root, and `checkouts` says of each
/// whether it is a git checkout.
pub fn update_targets(
    root: &str,
    named: Option<&str>,
    names: &Vec<String>,
    checkouts: &Vec<bool>,
) -> (targets: Vec<String>)
    requires
        names@.len() == checkouts@.len(),
    ensures
        crate::widget::texts(targets@) == targets_of(
            root@,
            crate::strings::str_of(named),
            crate::widget::texts(names@),
            checkouts@,
        ),
{
    let mut targets: Vec<String> = Vec::new();
    match named {
        Some(name) => {
            targets.push(join(root, name));
            assert(crate::widget::texts(targets@) =~= seq![crate::paths::joined(root@, name@)]);
        },
        None => {
            let ghost all = crate::widget::texts(names@);
            let mut i: usize = 0;
            assert(crate::widget::texts(targets@) =~= Seq::empty());
            while i < names.len()
                invariant
                    i <= names@.len(),
                    names@.len() == checkouts@.len(),
                    all == crate::widget::texts(names@),
                    crate::widget::texts(targets@) == checkout_paths(
                        root@,
                        all,
                        checkouts@,
                        i as int,
                    ),
                decreases names@.len() - i,
            {
                if checkouts[i] {
                    let ghost before = targets@;
                    let path = join(root, names[i].as_str());
                    targets.push(path);
                    assert(crate::widget::texts(targets@) =~= crate::widget::texts(before).push(
                        crate::paths::joined(root@, all[i as int]),
                    ));
                }
                i += 1;
            }
        },
    }
    targets
}

/// What git is asked to do in an item that is to be updated. One that is no checkout is
/// left alone.
pub fn pull_command(checkout: bool) -> (args: Option<Vec<String>>)
    ensures
        match args {
            Some(a) => checkout && crate::widget::texts(a@) == seq!["pull"@, "--ff-only"@],
            None => !checkout,
        },
{
    if !checkout {
        return None;
    }
    let mut args: Vec<String> = Vec::new();
    args.push("pull".to_owned());
    args.push("--ff-only".to_owned());
    assert(crate::widget::texts(args@) =~= seq!["pull"@, "--ff-only"@]);
    Some(args)
}

/// What came of updating one item. Each holds the item's path.
#[derive(Debug, PartialEq, Eq)]
pub enum UpdateResult {
    /// It is no checkout, so there was nothing to pull.
    Skipped(String),
    /// Git carried it out, and said this.
    Pulled(String, String),
    /// It failed, for this reason.
    Failed(String, String),
}

impl UpdateResult {
    /// What is said of it.
    pub open spec fn line(self) -> Seq<char> {
        match self {
            UpdateResult::Skipped(path) => label_of(path@) + ": not a git checkout, skipping"@,
            UpdateResult::Pulled(path, output) => label_of(path@) + ": "@ + update_summary(
                output@,
            ),
            UpdateResult::Failed(path, why) => label_of(path@) + ": failed\n  "@ + why@,
        }
    }
}

/// What to say of one item.
pub fn update_line(result: &UpdateResult) -> (line: String)
    ensures
        line@ == result.line(),
{
    match result {
        UpdateResult::Skipped(path) => {
            let mut line = checkout_label(path.as_str());
            line.append(": not a git checkout, skipping");
            line
        },
        UpdateResult::Pulled(path, output) => {
            let mut line = checkout_label(path.as_str());
            line.append(": ");
            line.append(pull_summary(output.as_str()).as_str());
            line
        },
        UpdateResult::Failed(path, why) => {
            let mut line = checkout_label(path.as_str());
            line.append(": failed\n  ");
            line.append(why.as_str());
            line
        },
    }
}

/// How many of the results are failures.
pub open spec fn failed_count(results: Seq<UpdateResult>) -> nat
    decreases results.len(),
{
    if results.len() == 0 {
        0
    } else if results.last() is Failed {
        failed_count(results.drop_last()) + 1
    } else {
        failed_count(results.drop_last())
    }
}

/// What a round of updates says: a line for each item, in order, or that there was none.
pub open spec fn report_lines(results: Seq<UpdateResult>) -> Seq<Seq<char>> {
    if results.len() == 0 {
        seq!["nothing to update"@]
    } else {
        Seq::new(results.len(), |i: int| results[i].line())
    }
}

/// What a round of updates says, and how it ended. One failure does not stop the rest,
/// but it is not passed over either.
pub fn update_report(results: &Vec<UpdateResult>) -> (r: (Vec<String>, Result<(), String>))
    ensures
        crate::widget::texts(r.0@) == report_lines(results@),
        match r.1 {
            Ok(_) => failed_count(results@) == 0,
            Err(why) => failed_count(results@) > 0 && why@ == crate::decimal::digits(
                failed_count(results@),
            ) + " item(s) failed to update"@,
        },
{
    let mut lines: Vec<String> = Vec::new();
    let mut failures: u64 = 0;
    let mut i: usize = 0;
    while i < results.len()
        invariant
            i <= results@.len(),
            failures <= i,
            failures == failed_count(results@.take(i as int)),
            lines@.len() == i,
            forall|k: int| 0 <= k < i ==> (#[trigger] lines@[k])@ == results@[k].line(),
        decreases results@.len() - i,
    {
        lines.push(update_line(&results[i]));
        assert(results@.take(i + 1).drop_last() =~= results@.take(i as int));
        if let UpdateResult::Failed(_, _) = &results[i] {
            failures += 1;
        }
        i += 1;
    }
    assert(results@.take(i as int) =~= results@);
    if results.len() == 0 {
        lines.push("nothing to update".to_owned());
    }
    assert(crate::widget::texts(lines@) =~= report_lines(results@));
    (lines, update_verdict(failures))
}

/// A round of updates fails exactly when one of its items did: an item that is skipped
/// counts for nothing.
pub proof fn law_a_round_fails_with_one_of_its_items(results: Seq<UpdateResult>)
    ensures
        failed_count(results) > 0 <==> exists|i: int|
            0 <= i < results.len() && #[trigger] results[i] is Failed,
    decreases results.len(),
{
    if results.len() > 0 {
        let rest = results.drop_last();
        law_a_round_fails_with_one_of_its_items(rest);
        if failed_count(rest) > 0 {
            let i = choose|i: int| 0 <= i < rest.len() && #[trigger] rest[i] is Failed;
            assert(results[i] is Failed);
        }
        if results.last() is Failed {
            assert(results[results.len() - 1] is Failed);
        }
        assert forall|i: int| 0 <= i < results.len() && #[trigger] results[i] is Failed implies
            failed_count(results) > 0 by {
            if i < results.len() - 1 {
                assert(rest[i] is Failed);
            }
        }
    }
}

/// An update of everything touches only checkouts, and leaves none of them out.
pub proof fn law_every_checkout_is_updated(
    root: Seq<char>,
    names: Seq<Seq<char>>,
    checkouts: Seq<bool>,
    target: Seq<char>,
)
    requires
        names.len() == checkouts.len(),
    ensures
        targets_of(root, None, names, checkouts).contains(target) <==> exists|i: int|
            0 <= i < names.len() && checkouts[i] && target == crate::paths::joined(
                root,
                #[trigger] names[i],
            ),
{
    lemma_checkout_paths(root, names, checkouts, names.len() as int, target);
}

proof fn lemma_checkout_paths(
    root: Seq<char>,
    names: Seq<Seq<char>>,
    checkouts: Seq<bool>,
    n: int,
    target: Seq<char>,
)
    requires
        0 <= n <= names.len(),
        names.len() == checkouts.len(),
    ensures
        checkout_paths(root, names, checkouts, n).contains(target) <==> exists|i: int|
            0 <= i < n && checkouts[i] && target == crate::paths::joined(root, #[trigger] names[i]),
    decreases n,
{
    if n > 0 {
        lemma_checkout_paths(root, names, checkouts, n - 1, target);
        let rest = checkout_paths(root, names, checkouts, n - 1);
        let path = crate::paths::joined(root, names[n - 1]);
        if checkouts[n - 1] {
            assert(rest.push(path)[rest.len() as int] == path);
            assert forall|t: Seq<char>| rest.contains(t) implies rest.push(path).contains(t) by {
                let k = choose|k: int| 0 <= k < rest.len() && rest[k] == t;
                assert(rest.push(path)[k] == t);
            }
            if rest.push(path).contains(target) && target != path {
                let k = choose|k: int|
                    0 <= k < rest.push(path).len() && rest.push(path)[k] == target;
                assert(rest[k] == target);
            }
        }
    }
}

/// Everything a plugin asks for is shown before it is installed.
pub proof fn law_every_permission_is_shown(m: Manifest, i: int)
    requires
        0 <= i < m.permissions@.len(),
    ensures
        consent_lines(m).contains("    - "@ + m.permissions@[i]@),
{
    let lines = consent_lines(m);
    let start: int = if m.description@.len() == 0 {
        4
    } else {
        5
    };
    assert(lines[start + i] == permission_lines(m.permissions@)[i]);
}

/// A plugin that is not sandboxed is never installed without saying so, and one that is
/// says so too.
pub proof fn law_the_sandbox_is_stated(m: Manifest)
    ensures
        m.runtime is Lua ==> consent_lines(m).contains(
            "  WARNING: Lua plugins are NOT sandboxed. This plugin can do"@,
        ),
        m.runtime is Wasm ==> consent_lines(m).contains(
            "  this plugin is sandboxed: it can only do what is listed above"@,
        ),
{
    let lines = consent_lines(m);
    if m.runtime is Lua {
        assert(lines[lines.len() - 4]
            == "  WARNING: Lua plugins are NOT sandboxed. This plugin can do"@);
    } else {
        assert(lines[lines.len() - 2]
            == "  this plugin is sandboxed: it can only do what is listed above"@);
    }
}

/// A download is staged outside both install roots: neither is the start of where it
/// goes.
pub proof fn law_staging_is_beside_the_roots(data_dir: Seq<char>, name: Seq<char>, kind: Kind)
    ensures
        !begins(staged_in(data_dir, name), kind.root_in(data_dir)),
        staged_in(data_dir, name) != kind.root_in(data_dir),
{
    reveal_strlit(".staging-");
    reveal_strlit("plugins");
    reveal_strlit("themes");
    let staging = staged_in(data_dir, name);
    let root = kind.root_in(data_dir);
    let at: int = if data_dir.len() == 0 || data_dir.last() == '/' {
        data_dir.len() as int
    } else {
        data_dir.len() as int + 1
    };
    assert(staging[at] == '.');
    assert(root[at] != '.');
    assert(root.len() > at);
    if begins(staging, root) {
        assert(staging.subrange(0, root.len() as int)[at] == root[at]);
    }
}

/// A usable name joined to the install root stays directly inside it: it is a single
/// component, so it can neither climb nor be absolute.
pub proof fn law_names_stay_in_the_root(root: Seq<char>, name: Seq<char>)
    requires
        root.len() > 0,
        root.last() != '/',
        name.len() > 0,
        !unusable(name),
        plain(name),
    ensures
        crate::paths::joined(root, name) == root + seq!['/'] + name,
        !name.contains('/'),
        removable(name),
{
    assert(name_char(name[0]));
    if name.contains('/') {
        let i = choose|i: int| 0 <= i < name.len() && name[i] == '/';
        assert(name_char(name[i]));
    }
}

} // verus!
