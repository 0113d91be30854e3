//! What a shell is doing, as far as its process tells.

use vstd::prelude::*;
use vstd::string::*;

use crate::decimal::push_digits;
use crate::paths::{is_same_path, strip_prefix};

verus! {

/// The link that names the working directory of process `pid`.
///
/// Reading it is the caller's business. A process that has exited, a platform without
/// such links and a kernel that denies the read all mean the same thing: the directory
/// is not known.
pub fn working_directory_link(pid: u32) -> (link: String)
    ensures
        link@ == "/proc/"@ + crate::decimal::digits(pid as nat) + "/cwd"@,
{
    let mut link = "/proc/".to_owned();
    push_digits(&mut link, pid as u64);
    link.append("/cwd");
    link
}

/// How a path reads with the home directory collapsed to `~`.
pub open spec fn displayed(path: Seq<char>, home: Option<Seq<char>>) -> Seq<char> {
    match home {
        Some(h) => if crate::paths::same_path(path, h) {
            "~"@
        } else {
            match crate::paths::below(path, h) {
                Some(rest) => "~/"@ + rest,
                None => path,
            }
        },
        None => path,
    }
}

/// Render `path` for display, collapsing the home directory to `~`.
///
/// Only a real prefix collapses: whole components are compared, so `/home/tuan2` is not
/// treated as living inside `/home/tuan`.
pub fn display_path(path: &str, home: Option<&str>) -> (shown: String)
    ensures
        shown@ == displayed(path@, crate::strings::str_of(home)),
{
    if let Some(home) = home {
        if is_same_path(path, home) {
            return "~".to_owned();
        }
        if let Some(rest) = strip_prefix(path, home) {
            let mut shown = "~/".to_owned();
            shown.append(rest.as_str());
            return shown;
        }
    }
    path.to_owned()
}

} // verus!
