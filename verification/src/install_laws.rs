//! What an install does with the paths it is given, from its beginning to its end.

use vstd::prelude::*;

use crate::install::{ActionModel, EndingModel, EventModel, InstallModel};
use crate::pkg::{Kind, Manifest};

verus! {

/// Where installed items of a kind live.
pub open spec fn home_of(kind: Kind, data_dir: Seq<char>) -> Seq<char> {
    match kind {
        Kind::Plugin => crate::paths::joined(data_dir, "plugins"@),
        Kind::Theme => crate::paths::joined(data_dir, "themes"@),
    }
}

/// One of the first `n` events called for this action.
pub open spec fn was_asked(
    start: InstallModel,
    events: Seq<EventModel>,
    n: int,
    action: ActionModel,
) -> bool {
    exists|j: int| 0 <= j < n && #[trigger] start.action(events, j) == action
}

/// An index that lists this URL under this name.
pub open spec fn lists(event: EventModel, name: Seq<char>, url: Seq<char>) -> bool {
    event matches EventModel::Index(Ok(table)) && exists|i: int|
        0 <= i < table.len() && (#[trigger] table[i]).name@ == name && table[i].url@ == url
}

/// The URL is the source itself, or the one that the registry lists for a package of that
/// name.
pub open spec fn is_source(
    start: InstallModel,
    events: Seq<EventModel>,
    n: int,
    url: Seq<char>,
) -> bool {
    ||| url == start.source && crate::pkg::looks_like_url(url)
    ||| exists|j: int| 0 <= j < n && lists(#[trigger] events[j], start.source, url)
}

/// The clone of this URL is made here and goes there.
pub open spec fn goes(
    kind: Kind,
    data_dir: Seq<char>,
    url: Seq<char>,
    from: Seq<char>,
    to: Seq<char>,
) -> bool {
    let name = crate::pkg::url_segment(url);
    &&& from == crate::paths::joined(data_dir, ".staging-"@ + name)
    &&& to == crate::paths::joined(home_of(kind, data_dir), name)
}

proof fn lemma_asked_stays(
    start: InstallModel,
    events: Seq<EventModel>,
    n: int,
    m: int,
    action: ActionModel,
)
    requires
        n <= m,
        was_asked(start, events, n, action),
    ensures
        was_asked(start, events, m, action),
{
    let j = choose|j: int| 0 <= j < n && #[trigger] start.action(events, j) == action;
    assert(start.action(events, j) == action);
}

proof fn lemma_source_stays(
    start: InstallModel,
    events: Seq<EventModel>,
    n: int,
    m: int,
    url: Seq<char>,
)
    requires
        n <= m,
        is_source(start, events, n, url),
    ensures
        is_source(start, events, m, url),
{
    if !(url == start.source && crate::pkg::looks_like_url(url)) {
        let j = choose|j: int| 0 <= j < n && lists(#[trigger] events[j], start.source, url);
        assert(lists(events[j], start.source, url));
    }
}

proof fn lemma_listed(table: Seq<crate::pkg::RegistryEntry>, name: Seq<char>, n: int)
    requires
        0 <= n <= table.len(),
    ensures
        crate::pkg::package_at(table, name, n) matches Some(i) ==> 0 <= i < n && table[i].name@
            == name,
    decreases n,
{
    if n > 0 {
        lemma_listed(table, name, n - 1);
    }
}

/// What no step changes.
proof fn lemma_kept(s: InstallModel, event: EventModel)
    requires
        s.wf(),
    ensures
        ({
            let t = s.stepped(event).0;
            &&& t.wf()
            &&& t.kind == s.kind
            &&& t.data_dir == s.data_dir
            &&& t.source == s.source
            &&& t.yes == s.yes
        }),
{
}

/// A plan is made once its URL is known, and then its target is looked at.
proof fn lemma_planned(s: InstallModel, event: EventModel)
    requires
        s.wf(),
        s.stepped(event).0.plan is Some,
    ensures
        ({
            let (t, action) = s.stepped(event);
            let p = t.plan->0;
            s.plan == t.plan || {
                &&& goes(s.kind, s.data_dir, p.url, p.staging, p.target)
                &&& p.root == home_of(s.kind, s.data_dir)
                &&& p.name == crate::pkg::url_segment(p.url)
                &&& p.clone == seq!["clone"@, "--depth"@, "1"@, p.url, p.staging]
                &&& action == ActionModel::LookFor(p.target)
                &&& (p.url == s.source && crate::pkg::looks_like_url(p.url)) || lists(
                    event,
                    s.source,
                    p.url,
                )
            }
        }),
{
    if let EventModel::Index(Ok(table)) = event {
        lemma_listed(table, s.source, table.len() as int);
        if let Some(i) = crate::pkg::package_at(table, s.source, table.len() as int) {
            assert(table[i].name@ == s.source);
        }
    }
}

/// What is known of an install's plan after `n` events.
proof fn lemma_plan(start: InstallModel, events: Seq<EventModel>, n: int)
    requires
        start == InstallModel::fresh(start.kind, start.data_dir, start.source, start.yes),
        0 <= n <= events.len(),
    ensures
        ({
            let s = start.after(events, n);
            &&& s.wf()
            &&& s.kind == start.kind
            &&& s.data_dir == start.data_dir
            &&& s.source == start.source
            &&& s.yes == start.yes
            &&& s.plan matches Some(p) ==> {
                &&& goes(start.kind, start.data_dir, p.url, p.staging, p.target)
                &&& p.root == home_of(start.kind, start.data_dir)
                &&& p.name == crate::pkg::url_segment(p.url)
                &&& p.clone == seq!["clone"@, "--depth"@, "1"@, p.url, p.staging]
                &&& is_source(start, events, n, p.url)
                &&& was_asked(start, events, n, ActionModel::LookFor(p.target))
            }
        }),
    decreases n,
{
    if n > 0 {
        lemma_plan(start, events, n - 1);
        let s = start.after(events, n - 1);
        let t = start.after(events, n);
        let event = events[n - 1];
        assert(t == s.stepped(event).0);
        lemma_kept(s, event);
        if t.plan is Some {
            let p = t.plan->0;
            lemma_planned(s, event);
            if s.plan == t.plan {
                lemma_source_stays(start, events, n - 1, n, p.url);
                lemma_asked_stays(start, events, n - 1, n, ActionModel::LookFor(p.target));
            } else {
                assert(start.action(events, n - 1) == ActionModel::LookFor(p.target));
                if !(p.url == s.source && crate::pkg::looks_like_url(p.url)) {
                    assert(lists(events[n - 1], start.source, p.url));
                }
            }
        }
    }
}

/// Past the clone there has been one.
proof fn lemma_cloned(start: InstallModel, events: Seq<EventModel>, n: int)
    requires
        start == InstallModel::fresh(start.kind, start.data_dir, start.source, start.yes),
        0 <= n <= events.len(),
    ensures
        ({
            let s = start.after(events, n);
            !(s.stage is Fresh || s.stage is Index || s.stage is Target || s.stage is Clearing
                || s.stage is Over) ==> s.plan is Some && was_asked(
                start,
                events,
                n,
                ActionModel::Clone(s.plan->0.url, s.plan->0.clone),
            )
        }),
    decreases n,
{
    if n > 0 {
        lemma_cloned(start, events, n - 1);
        lemma_plan(start, events, n - 1);
        let s = start.after(events, n - 1);
        let t = start.after(events, n);
        assert(t == s.stepped(events[n - 1]).0);
        if !(t.stage is Fresh || t.stage is Index || t.stage is Target || t.stage is Clearing
            || t.stage is Over) {
            let clone = ActionModel::Clone(t.plan->0.url, t.plan->0.clone);
            if s.stage is Clearing {
                assert(start.action(events, n - 1) == clone);
            } else {
                assert(s.plan == t.plan);
                lemma_asked_stays(start, events, n - 1, n, clone);
            }
        }
    }
}

/// The move that is waited for after `n` events.
pub open spec fn is_moving(start: InstallModel, events: Seq<EventModel>, n: int) -> bool {
    exists|j: int|
        0 <= j < n && #[trigger] start.action(events, j) is Move && forall|i: int|
            j < i < n ==> #[trigger] start.action(events, i) is Nothing
}

proof fn lemma_moving(start: InstallModel, events: Seq<EventModel>, n: int)
    requires
        start == InstallModel::fresh(start.kind, start.data_dir, start.source, start.yes),
        0 <= n <= events.len(),
    ensures
        start.after(events, n).stage is Moving ==> is_moving(start, events, n),
    decreases n,
{
    if n > 0 {
        lemma_moving(start, events, n - 1);
        lemma_plan(start, events, n - 1);
        let s = start.after(events, n - 1);
        let t = start.after(events, n);
        assert(t == s.stepped(events[n - 1]).0);
        if t.stage is Moving {
            if s.stage is Moving {
                let j = choose|j: int|
                    0 <= j < n - 1 && #[trigger] start.action(events, j) is Move && forall|i: int|
                        j < i < n - 1 ==> #[trigger] start.action(events, i) is Nothing;
                assert(start.action(events, n - 1) is Nothing);
                assert(start.action(events, j) is Move);
            } else {
                assert(start.action(events, n - 1) is Move);
            }
        }
    }
}

/// What is moved is the clone, from where it was made, and it goes to the very path that
/// was looked at before anything was fetched: the root of its kind and, under it, the name
/// that its URL gives.
pub proof fn law_a_clone_goes_where_was_looked(
    kind: Kind,
    data_dir: Seq<char>,
    source: Seq<char>,
    yes: bool,
    events: Seq<EventModel>,
    k: int,
    from: Seq<char>,
    to: Seq<char>,
)
    requires
        0 <= k < events.len(),
        InstallModel::fresh(kind, data_dir, source, yes).action(events, k) == ActionModel::Move(
            from,
            to,
        ),
    ensures
        ({
            let start = InstallModel::fresh(kind, data_dir, source, yes);
            &&& was_asked(start, events, k, ActionModel::LookFor(to))
            &&& exists|url: Seq<char>| #[trigger]
                is_source(start, events, k, url) && goes(kind, data_dir, url, from, to)
                    && was_asked(
                    start,
                    events,
                    k,
                    ActionModel::Clone(url, seq!["clone"@, "--depth"@, "1"@, url, from]),
                )
        }),
{
    let start = InstallModel::fresh(kind, data_dir, source, yes);
    lemma_plan(start, events, k);
    lemma_cloned(start, events, k);
    let p = start.after(events, k).plan->0;
    assert(is_source(start, events, k, p.url));
}

/// An install that says it is done has moved the clone into place, and that worked: the
/// move was the last thing it asked for, and this is the answer to it. What it says names
/// the kind and the name it went by.
pub proof fn law_done_means_moved(
    kind: Kind,
    data_dir: Seq<char>,
    source: Seq<char>,
    yes: bool,
    events: Seq<EventModel>,
    k: int,
    said: Seq<char>,
)
    requires
        0 <= k < events.len(),
        InstallModel::fresh(kind, data_dir, source, yes).action(events, k) == ActionModel::Finish(
            EndingModel::Installed(said),
        ),
    ensures
        ({
            let start = InstallModel::fresh(kind, data_dir, source, yes);
            &&& is_moving(start, events, k)
            &&& events[k] is Ran && events[k]->Ran_0 is Ok
            &&& exists|url: Seq<char>| #[trigger]
                is_source(start, events, k, url) && said == "installed "@ + (match kind {
                    Kind::Plugin => "plugin"@,
                    Kind::Theme => "theme"@,
                }) + " `"@ + crate::pkg::url_segment(url) + "`"@
        }),
{
    let start = InstallModel::fresh(kind, data_dir, source, yes);
    lemma_no_ending(start, events, k);
    lemma_moving(start, events, k);
    lemma_plan(start, events, k);
    let s = start.after(events, k);
    assert(s.stage is Moving);
    assert(is_source(start, events, k, s.plan->0.url));
}

/// What an install leaves with is never that it is done.
proof fn lemma_no_ending(start: InstallModel, events: Seq<EventModel>, n: int)
    requires
        start == InstallModel::fresh(start.kind, start.data_dir, start.source, start.yes),
        0 <= n <= events.len(),
    ensures
        start.after(events, n).ending matches Some(e) ==> !(e is Installed),
    decreases n,
{
    if n > 0 {
        lemma_no_ending(start, events, n - 1);
        assert(start.after(events, n) == start.after(events, n - 1).stepped(events[n - 1]).0);
    }
}

/// Nothing but the clone is ever removed, and nothing but the clone is read: every path an
/// install clears, reads, lists or removes is the one the clone is made at. What it
/// creates is the root of its kind.
pub proof fn law_an_install_keeps_to_its_paths(
    kind: Kind,
    data_dir: Seq<char>,
    source: Seq<char>,
    yes: bool,
    events: Seq<EventModel>,
    k: int,
)
    requires
        0 <= k < events.len(),
    ensures
        ({
            let start = InstallModel::fresh(kind, data_dir, source, yes);
            let action = start.action(events, k);
            let is_clone = |path: Seq<char>|
                exists|url: Seq<char>| #[trigger]
                    is_source(start, events, k, url) && path == crate::paths::joined(
                        data_dir,
                        ".staging-"@ + crate::pkg::url_segment(url),
                    );
            &&& action matches ActionModel::Clear(path) ==> is_clone(path)
            &&& action matches ActionModel::RemoveClone(path) ==> is_clone(path)
            &&& action matches ActionModel::ReadManifest(path) ==> kind is Plugin && is_clone(path)
            &&& action matches ActionModel::ListFiles(path) ==> kind is Theme && is_clone(path)
            &&& action matches ActionModel::CreateRoot(path) ==> path == home_of(kind, data_dir)
            &&& action matches ActionModel::ReadIndex(of) ==> of == kind
        }),
{
    let start = InstallModel::fresh(kind, data_dir, source, yes);
    lemma_plan(start, events, k);
    let s = start.after(events, k);
    if s.plan is Some {
        assert(is_source(start, events, k, s.plan->0.url));
    }
}

/// An install that is already there is refused before anything is fetched, and says where
/// it is.
pub proof fn law_nothing_is_installed_twice(
    kind: Kind,
    data_dir: Seq<char>,
    source: Seq<char>,
    yes: bool,
    url: Seq<char>,
)
    requires
        crate::pkg::looks_like_url(source),
        url == source,
        crate::pkg::well_named(url),
    ensures
        ({
            let start = InstallModel::fresh(kind, data_dir, source, yes);
            let name = crate::pkg::url_segment(url);
            let target = crate::paths::joined(home_of(kind, data_dir), name);
            let word = match kind {
                Kind::Plugin => "plugin"@,
                Kind::Theme => "theme"@,
            };
            let (looking, asked) = start.stepped(EventModel::Begin);
            let (over, refused) = looking.stepped(EventModel::Found(true));
            &&& asked == ActionModel::LookFor(target)
            &&& refused == ActionModel::Finish(
                EndingModel::Failed(
                    word + " `"@ + name + "` is already installed at "@ + target
                        + "\nuse `tuzminal "@ + word + " update "@ + name + "` instead"@,
                ),
            )
            &&& over.stage is Over
            &&& looking.stepped(EventModel::Found(false)).1 == ActionModel::Clear(
                crate::paths::joined(data_dir, ".staging-"@ + name),
            )
        }),
{
}

/// What a source is: an address that git understands is fetched as it is, and everything
/// else is a name that the registry is asked for.
pub proof fn law_what_a_source_is(kind: Kind, data_dir: Seq<char>, source: Seq<char>, yes: bool)
    ensures
        ({
            let start = InstallModel::fresh(kind, data_dir, source, yes);
            let begins = |word: Seq<char>| word.len() <= source.len() && source.take(
                word.len() as int,
            ) == word;
            let address = begins("http://"@) || begins("https://"@) || begins("git@"@) || begins(
                "ssh://"@,
            ) || begins("git://"@);
            let action = start.stepped(EventModel::Begin).1;
            &&& !address ==> action == ActionModel::ReadIndex(kind)
            &&& address ==> action is LookFor || action is Finish
        }),
{
    assert forall|word: Seq<char>| #[trigger]
        crate::strings::stands_at(source, word, 0) <==> word.len() <= source.len() && source.take(
            word.len() as int,
        ) == word by {
        if crate::strings::stands_at(source, word, 0) {
            assert(source.take(word.len() as int) =~= word);
        } else if word.len() <= source.len() && source.take(word.len() as int) == word {
            assert forall|i: int| 0 <= i < word.len() implies source[i] == word[i] by {
                assert(source.take(word.len() as int)[i] == word[i]);
            }
            assert(source.subrange(0, word.len() as int) =~= word);
        }
    }
    reveal_strlit("http://");
    reveal_strlit("https://");
    reveal_strlit("git@");
    reveal_strlit("ssh://");
    reveal_strlit("git://");
}

/// The name a URL gives is its last part: trailing slashes and a `.git` do not belong to
/// it.
pub proof fn law_names_come_from_the_url(place: Seq<char>, name: Seq<char>, slashes: nat)
    requires
        place.len() > 0 ==> place.last() == '/' || place.last() == ':',
        name.len() > 0,
        forall|i: int| 0 <= i < name.len() ==> #[trigger] name[i] != '/' && name[i] != ':',
        !crate::pkg::ends_in_git(place + name),
    ensures
        crate::pkg::url_segment(place + name) == name,
        crate::pkg::url_segment(place + name + ".git"@) == name,
        crate::pkg::url_segment(place + name + Seq::new(slashes, |i: int| '/')) == name,
        crate::pkg::url_segment(place + name + ".git"@ + Seq::new(slashes, |i: int| '/')) == name,
{
    reveal_strlit(".git");
    let url = place + name;
    let long = url + ".git"@;
    let tail = Seq::new(slashes, |i: int| '/');
    assert(url.last() == name.last());
    assert(name[name.len() - 1] == name.last());
    lemma_slashes(url, slashes);
    lemma_slashes(long, slashes);
    lemma_slashes(url, 0);
    lemma_slashes(long, 0);
    assert(url + Seq::new(0, |i: int| '/') =~= url);
    assert(long + Seq::new(0, |i: int| '/') =~= long);
    assert(long.take(long.len() - 4) =~= url);
    let n = url.len() as int;
    assert(long[n] == '.' && long[n + 1] == 'g' && long[n + 2] == 'i' && long[n + 3] == 't');
    assert(crate::pkg::without_git(url) == url);
    assert(crate::pkg::without_git(long) == url);
    crate::pkg::lemma_segment_is_suffix(url, place.len() as int);
    assert(url.skip(place.len() as int) =~= name);
}

proof fn lemma_slashes(text: Seq<char>, n: nat)
    requires
        text.len() > 0,
        text.last() != '/',
    ensures
        crate::pkg::without_slashes(text + Seq::new(n, |i: int| '/')) == text,
    decreases n,
{
    let tail = Seq::new(n, |i: int| '/');
    if n == 0 {
        assert(text + tail =~= text);
    } else {
        lemma_slashes(text, (n - 1) as nat);
        assert((text + tail).drop_last() =~= text + Seq::new((n - 1) as nat, |i: int| '/'));
        assert((text + tail).last() == '/');
    }
}

/// An install that meets no obstacle goes all the way, one thing after another: it looks at
/// its target, clears the way, fetches, looks at what it fetched, shows it, makes sure of
/// the root, moves the clone into place and says so. Only a plugin asks, and only where
/// the question is not skipped.
pub proof fn law_an_install_goes_through(
    kind: Kind,
    data_dir: Seq<char>,
    url: Seq<char>,
    yes: bool,
    names: Seq<String>,
    manifest: Manifest,
    answer: Seq<char>,
    i: int,
)
    requires
        crate::pkg::looks_like_url(url),
        crate::pkg::well_named(url),
        0 <= i < names.len(),
        crate::pkg::is_toml(names[i]@),
        crate::pkg::says_yes(answer),
    ensures
        ({
            let name = crate::pkg::url_segment(url);
            let root = home_of(kind, data_dir);
            let target = crate::paths::joined(root, name);
            let staging = crate::paths::joined(data_dir, ".staging-"@ + name);
            let word = match kind {
                Kind::Plugin => "plugin"@,
                Kind::Theme => "theme"@,
            };
            let done = EventModel::Ran(Ok(()));
            let s0 = InstallModel::fresh(kind, data_dir, url, yes);
            let (s1, look) = s0.stepped(EventModel::Begin);
            let (s2, clear) = s1.stepped(EventModel::Found(false));
            let (s3, clone) = s2.stepped(EventModel::Done);
            let (s4, examine) = s3.stepped(done);
            let (t5, show_themes) = s4.stepped(EventModel::Files(names));
            let (p5, find_entry) = s4.stepped(EventModel::Manifest(Ok(manifest)));
            let (p6, show_plugin) = p5.stepped(EventModel::Found(true));
            let (p7, ask) = p6.stepped(EventModel::Done);
            let (s8, make_root) = if kind is Theme {
                t5.stepped(EventModel::Done)
            } else if yes {
                (p7, ask)
            } else {
                p7.stepped(EventModel::Answer(Ok(answer)))
            };
            let (s9, put) = s8.stepped(done);
            let (s10, say) = s9.stepped(done);
            &&& look == ActionModel::LookFor(target)
            &&& clear == ActionModel::Clear(staging)
            &&& clone == ActionModel::Clone(
                url,
                seq!["clone"@, "--depth"@, "1"@, url, staging],
            )
            &&& kind is Theme ==> examine == ActionModel::ListFiles(staging) && show_themes is Show
            &&& kind is Plugin ==> {
                &&& examine == ActionModel::ReadManifest(staging)
                &&& find_entry == ActionModel::LookForFile(
                    crate::paths::joined(staging, manifest.entry@),
                )
                &&& show_plugin == ActionModel::Show(crate::pkg::consent_lines(manifest))
                &&& !yes ==> ask == ActionModel::Ask("install? [y/N] "@)
            }
            &&& make_root == ActionModel::CreateRoot(root)
            &&& put == ActionModel::Move(staging, target)
            &&& say == ActionModel::Finish(
                EndingModel::Installed("installed "@ + word + " `"@ + name + "`"@),
            )
            &&& s10.stage is Over
        }),
{
    lemma_toml(names, names.len() as int);
    assert(crate::pkg::is_toml(names[i]@));
}

/// An obstacle ends it: whatever goes wrong after the clone was made is said once the clone
/// is gone, and an answer that does not agree is no failure.
pub proof fn law_obstacles_are_reported(state: InstallModel, why: Seq<char>, answer: Seq<char>)
    requires
        state.wf(),
    ensures
        ({
            let removes = |event: EventModel, ending: EndingModel|
                {
                    let (leaving, action) = state.stepped(event);
                    let (over, said) = leaving.stepped(EventModel::Done);
                    &&& action == ActionModel::RemoveClone(state.plan->0.staging)
                    &&& said == ActionModel::Finish(ending)
                    &&& over.stage is Over
                };
            let failed = EndingModel::Failed(why);
            &&& state.stage is Reading ==> removes(EventModel::Manifest(Err(why)), failed)
            &&& state.stage is Rooting ==> removes(EventModel::Ran(Err(why)), failed)
            &&& state.stage is Moving ==> removes(EventModel::Ran(Err(why)), failed)
            &&& state.stage is Asking ==> removes(EventModel::Answer(Err(why)), failed)
            &&& state.stage is Entry ==> removes(
                EventModel::Found(false),
                EndingModel::Failed(
                    "the manifest names entry `"@ + state.manifest->0.entry@
                        + "`, which is not in the repository"@,
                ),
            )
            &&& state.stage is Asking && !state.yes && !crate::pkg::says_yes(answer) ==> removes(
                EventModel::Answer(Ok(answer)),
                EndingModel::Cancelled("cancelled; nothing was installed"@),
            )
            &&& state.stage is Cloning ==> state.stepped(EventModel::Ran(Err(why))).1
                == ActionModel::Finish(failed)
            &&& state.stage is Index ==> state.stepped(EventModel::Index(Err(why))).1
                == ActionModel::Finish(failed)
        }),
{
}

/// What agrees is y or yes, in any case and with any space around it, and nothing else.
pub proof fn law_what_agrees(answer: Seq<char>)
    ensures
        crate::pkg::says_yes(answer) <==> crate::strings::lowercase(
            crate::strings::trimmed(answer),
        ) =~= seq!['y'] || crate::strings::lowercase(crate::strings::trimmed(answer)) =~= seq![
            'y',
            'e',
            's',
        ],
{
    reveal_strlit("y");
    reveal_strlit("yes");
    assert("y"@ =~= seq!['y']);
    assert("yes"@ =~= seq!['y', 'e', 's']);
}

/// A theme is installed only if it has something to show: at least one of its files is a
/// `.toml`, and how many there are is said before anything is written.
pub proof fn law_themes_have_files(
    state: InstallModel,
    names: Seq<String>,
)
    requires
        state.wf(),
        state.stage is Files,
    ensures
        ({
            let (next, action) = state.stepped(EventModel::Files(names));
            let some = exists|i: int|
                0 <= i < names.len() && crate::pkg::is_toml((#[trigger] names[i])@);
            &&& !some ==> next.stage is Leaving && action == ActionModel::RemoveClone(
                state.plan->0.staging,
            )
            &&& some ==> next.stage is Counted && action is Show
        }),
{
    lemma_toml(names, names.len() as int);
}

proof fn lemma_toml(names: Seq<String>, n: int)
    requires
        0 <= n <= names.len(),
    ensures
        crate::pkg::toml_count(names, n) >= 0,
        crate::pkg::toml_count(names, n) > 0 <==> exists|i: int|
            0 <= i < n && crate::pkg::is_toml((#[trigger] names[i])@),
    decreases n,
{
    if n > 0 {
        lemma_toml(names, n - 1);
        if crate::pkg::toml_count(names, n) > 0 {
            if crate::pkg::is_toml(names[n - 1]@) {
                assert(crate::pkg::is_toml(names[n - 1]@));
            } else {
                let i = choose|i: int|
                    0 <= i < n - 1 && crate::pkg::is_toml((#[trigger] names[i])@);
                assert(crate::pkg::is_toml(names[i]@));
            }
        }
    }
}

} // verus!
