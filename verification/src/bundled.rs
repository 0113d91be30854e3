//! The plugins that ship with the program.
//!
//! They are written to disk on first launch and are ordinary plugins from then on. One
//! that is already there is left alone: rewriting it would discard the edits of anyone
//! using it as a starting point, which is what it is for.

use vstd::prelude::*;
use vstd::string::*;

verus! {

/// What a launch did about the plugins that ship with the program.
#[derive(Debug, PartialEq, Eq)]
pub struct Report {
    /// The ones that were written.
    pub written: Vec<String>,
    /// The ones whose directory has to go: one with a manifest and no entry file would
    /// load as an error on every launch.
    pub cleared: Vec<String>,
}

/// The plugins that ship with the program.
pub fn bundled_names() -> (names: Vec<&'static str>)
    ensures
        names@.len() == 2,
        names@[0]@ == "clock"@,
        names@[1]@ == "open-in-ide"@,
{
    vec!["clock", "open-in-ide"]
}

/// The files each of them has.
pub fn bundled_files() -> (names: Vec<&'static str>)
    ensures
        names@.len() == 2,
        names@[0]@ == "plugin.toml"@,
        names@[1]@ == "init.lua"@,
{
    vec!["plugin.toml", "init.lua"]
}

/// The first `n` names whose flag is `which`, in order.
pub open spec fn picked(names: Seq<String>, flags: Seq<bool>, which: bool, n: int) -> Seq<Seq<char>>
    decreases n,
{
    if n <= 0 {
        Seq::empty()
    } else if flags[n - 1] == which {
        picked(names, flags, which, n - 1).push(names[n - 1]@)
    } else {
        picked(names, flags, which, n - 1)
    }
}

fn pick(names: &Vec<String>, flags: &Vec<bool>, which: bool) -> (found: Vec<String>)
    requires
        names@.len() == flags@.len(),
    ensures
        crate::widget::texts(found@) == picked(names@, flags@, which, names@.len() as int),
{
    let mut found: Vec<String> = Vec::new();
    assert(crate::widget::texts(found@) =~= Seq::empty());
    let mut i: usize = 0;
    while i < names.len()
        invariant
            i <= names@.len(),
            names@.len() == flags@.len(),
            crate::widget::texts(found@) == picked(names@, flags@, which, i as int),
        decreases names@.len() - i,
    {
        let ghost so_far = crate::widget::texts(found@);
        if flags[i] == which {
            found.push(names[i].clone());
            assert(crate::widget::texts(found@) =~= so_far.push(names@[i as int]@));
        }
        i += 1;
    }
    found
}

/// Which of the plugins are to be written: those that are not there. `exists` says of each
/// whether it is.
pub fn install_missing(names: &Vec<String>, exists: &Vec<bool>) -> (wanted: Vec<String>)
    requires
        names@.len() == exists@.len(),
    ensures
        crate::widget::texts(wanted@) == picked(names@, exists@, false, names@.len() as int),
{
    pick(names, exists, false)
}

/// Sum up a launch. `wrote` says of each plugin that was to be written whether it could be.
pub fn launch_report(wanted: &Vec<String>, wrote: &Vec<bool>) -> (report: Report)
    requires
        wanted@.len() == wrote@.len(),
    ensures
        crate::widget::texts(report.written@) == picked(
            wanted@,
            wrote@,
            true,
            wanted@.len() as int,
        ),
        crate::widget::texts(report.cleared@) == picked(
            wanted@,
            wrote@,
            false,
            wanted@.len() as int,
        ),
{
    Report { written: pick(wanted, wrote, true), cleared: pick(wanted, wrote, false) }
}

proof fn lemma_picked(names: Seq<String>, flags: Seq<bool>, which: bool, n: int, k: int)
    requires
        0 <= n <= names.len(),
        names.len() == flags.len(),
        0 <= k < picked(names, flags, which, n).len(),
    ensures
        exists|i: int|
            0 <= i < n && (#[trigger] flags[i]) == which && names[i]@ == picked(
                names,
                flags,
                which,
                n,
            )[k],
    decreases n,
{
    if k < picked(names, flags, which, n - 1).len() {
        lemma_picked(names, flags, which, n - 1, k);
    } else {
        assert(flags[n - 1] == which);
    }
}

/// A plugin that is there is never written.
pub proof fn law_present_plugins_are_left_alone(names: Seq<String>, exists: Seq<bool>, i: int)
    requires
        names.len() == exists.len(),
        0 <= i < names.len(),
        exists[i],
        forall|a: int, b: int| 0 <= a < b < names.len() ==> names[a]@ != names[b]@,
    ensures
        !picked(names, exists, false, names.len() as int).contains(names[i]@),
{
    let n = names.len() as int;
    let wanted = picked(names, exists, false, n);
    if wanted.contains(names[i]@) {
        let k = choose|k: int| 0 <= k < wanted.len() && wanted[k] == names[i]@;
        lemma_picked(names, exists, false, n, k);
        let j = choose|j: int|
            0 <= j < n && (#[trigger] exists[j]) == false && names[j]@ == wanted[k];
        assert(names[j]@ == names[i]@);
        assert(j == i);
    }
}

/// Only what was to be written is written or cleared away.
pub proof fn law_only_wanted_plugins_are_touched(wanted: Seq<String>, wrote: Seq<bool>, name: Seq<char>)
    requires
        wanted.len() == wrote.len(),
        picked(wanted, wrote, true, wanted.len() as int).contains(name) || picked(
            wanted,
            wrote,
            false,
            wanted.len() as int,
        ).contains(name),
    ensures
        crate::widget::texts(wanted).contains(name),
{
    let n = wanted.len() as int;
    let which = picked(wanted, wrote, true, n).contains(name);
    let list = picked(wanted, wrote, which, n);
    let k = choose|k: int| 0 <= k < list.len() && list[k] == name;
    lemma_picked(wanted, wrote, which, n, k);
    let i = choose|i: int|
        0 <= i < n && (#[trigger] wrote[i]) == which && wanted[i]@ == list[k];
    assert(crate::widget::texts(wanted)[i] == name);
}

} // verus!
