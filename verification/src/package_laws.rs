//! What the plugins page and the package commands come to.

use vstd::prelude::*;

use crate::app::AppModel;
use crate::effect::EffectModel;
use crate::ide::IdeModel;
use crate::pkg::{Kind, Manifest, RegistryEntry, UpdateResult};
use crate::plugins::{
    DirCopyModel, FolderPurpose, Installed, ManifestRead, PluginConfigModel, PluginsModel,
};
use crate::ui::ActionModel;
use crate::widget::{WidgetId, WidgetModel};

verus! {

/// A plugin's row says what the plugin is and whether it is switched on, in the order the
/// plugins were found in.
pub proof fn law_a_plugin_has_its_row(page: PluginsModel, config: PluginConfigModel, i: int)
    requires
        0 <= i < page.found.len() <= u32::MAX - 100,
    ensures
        ({
            let plugin = page.found[i];
            let head = plugin.manifest.name@ + "  "@ + plugin.manifest.version@;
            let on = !config.disable.contains(plugin.manifest.name@) && (config.load.len() == 0
                || config.load.contains(plugin.manifest.name@));
            let label = match plugin.problem {
                Some(problem) => head + "  ("@ + problem@ + ")"@,
                None => head + "  "@ + (if plugin.manifest.runtime is Lua {
                    "lua"@
                } else {
                    "wasm"@
                }),
            };
            page.row_widgets(config)[1 + i] == (WidgetModel::Toggle {
                id: WidgetId((100 + i) as u32),
                label,
                on,
            })
        }),
{
    assert(page.row_widgets(config)[1 + i] == page.toggles(config)[i]);
}

/// Switching a plugin's row switches that very plugin, says so, and has the plugins loaded
/// again. No other row changes the configuration.
pub proof fn law_a_switched_row_switches_its_plugin(
    app: AppModel,
    page: PluginsModel,
    config: PluginConfigModel,
    i: int,
    on: bool,
    other: WidgetId,
)
    requires
        app.plugins == Some(page),
        0 <= i < page.found.len() <= u32::MAX - 100,
        other.0 < 100 || other.0 >= 100 + page.found.len(),
    ensures
        ({
            let name = page.found[i].manifest.name@;
            let (after, effects) = app.plugins_acted(
                ActionModel::Toggled(WidgetId((100 + i) as u32), on),
                config,
            );
            &&& after == (AppModel {
                plugins: Some(
                    PluginsModel {
                        message: Some(
                            if on {
                                name + " "@ + "enabled"@
                            } else {
                                name + " "@ + "disabled"@
                            },
                        ),
                        ..page
                    },
                ),
                ..app
            })
            &&& effects.len() == 3
            &&& effects[0] matches EffectModel::SetPlugins(next) && (!next.disable.contains(name)
                && (next.load.len() == 0 || next.load.contains(name))) == on
            &&& effects[1] == EffectModel::ReloadPlugins
            &&& effects[2] == EffectModel::Redraw
        }),
        app.plugins_acted(ActionModel::Toggled(other, on), config) == (
            app,
            seq![EffectModel::Redraw],
        ),
{
    let name = page.found[i].manifest.name@;
    crate::plugins::law_toggle_takes_effect(config, name, on);
    let (after, effects) = app.plugins_acted(
        ActionModel::Toggled(WidgetId((100 + i) as u32), on),
        config,
    );
    assert(effects[0] == EffectModel::SetPlugins(config.switched(name, on)));
    assert(app.plugins_acted(ActionModel::Toggled(other, on), config).0 =~= app);
}

/// The page's buttons: one imports, one exports and one closes the page.
pub proof fn law_the_plugin_buttons(app: AppModel, page: PluginsModel, config: PluginConfigModel)
    requires
        app.plugins == Some(page),
    ensures
        app.plugins_acted(ActionModel::Pressed(WidgetId(crate::plugins::IMPORT)), config) == (
            app,
            seq![
                EffectModel::ChooseFolder(FolderPurpose::ImportPlugin),
                EffectModel::Redraw,
            ],
        ),
        app.plugins_acted(ActionModel::Pressed(WidgetId(crate::plugins::EXPORT)), config) == (
            app,
            seq![
                EffectModel::ChooseFolder(FolderPurpose::ExportPlugins),
                EffectModel::Redraw,
            ],
        ),
        app.plugins_acted(ActionModel::Pressed(WidgetId(crate::plugins::CLOSE)), config) == (
            AppModel { plugins: None, ..app },
            seq![EffectModel::ClosePage(crate::window::TabKind::Plugins)],
        ),
        crate::plugins::IMPORT != crate::plugins::EXPORT,
        crate::plugins::IMPORT != crate::plugins::CLOSE,
        crate::plugins::EXPORT != crate::plugins::CLOSE,
{
    assert(app.plugins_acted(
        ActionModel::Pressed(WidgetId(crate::plugins::IMPORT)),
        config,
    ).0 =~= app);
    assert(app.plugins_acted(
        ActionModel::Pressed(WidgetId(crate::plugins::EXPORT)),
        config,
    ).0 =~= app);
}

/// A folder is imported exactly when it holds a plugin that is whole and new here. Each
/// refusal says which of these failed.
pub proof fn law_what_can_be_imported(
    source: Seq<char>,
    read: ManifestRead,
    entry_is_file: bool,
    target_exists: bool,
)
    ensures
        ({
            let refusal = crate::plugins::import_refusal(
                source,
                read,
                entry_is_file,
                target_exists,
            );
            &&& refusal is None <==> read is Parsed && entry_is_file && !target_exists
            &&& read is Missing ==> refusal == Some("no plugin.toml in "@ + source)
            &&& read matches ManifestRead::Malformed(why) ==> refusal == Some(
                "bad plugin.toml: "@ + why@,
            )
            &&& read matches ManifestRead::Parsed(m) ==> {
                &&& !entry_is_file ==> refusal == Some(
                    "entry file `"@ + m.entry@ + "` is missing"@,
                )
                &&& entry_is_file && target_exists ==> refusal == Some(
                    m.name@ + " is already installed"@,
                )
            }
        }),
{
}

/// What is exported: each plugin that is not there yet, from where it is, under its own
/// name. None overwrites what is there, nor another one.
pub proof fn law_exports_overwrite_nothing(
    found: Seq<Installed>,
    target: Seq<char>,
    there: Seq<bool>,
    n: int,
)
    requires
        0 <= n <= found.len(),
        found.len() == there.len(),
    ensures
        ({
            let copies = DirCopyModel::exports(found, target, there, n);
            &&& forall|k: int|
                0 <= k < copies.len() ==> exists|i: int|
                    0 <= i < n && !there[i] && is_copy_of(
                        #[trigger] copies[k],
                        #[trigger] found[i],
                        target,
                    )
            &&& forall|a: int, b: int|
                0 <= a < b < copies.len() ==> (#[trigger] copies[a]).to != (
                #[trigger] copies[b]).to
            &&& forall|i: int|
                0 <= i < n && !there[i] ==> DirCopyModel::goes_to(
                    copies,
                    crate::paths::joined(target, (#[trigger] found[i]).manifest.name@),
                )
        }),
    decreases n,
{
    if n > 0 {
        law_exports_overwrite_nothing(found, target, there, n - 1);
        let before = DirCopyModel::exports(found, target, there, n - 1);
        let copies = DirCopyModel::exports(found, target, there, n);
        let plugin = found[n - 1];
        let to = crate::paths::joined(target, plugin.manifest.name@);
        assert forall|k: int| 0 <= k < before.len() implies copies[k] == before[k] by {}
        assert forall|k: int| 0 <= k < copies.len() implies exists|i: int|
            0 <= i < n && !there[i] && is_copy_of(
                #[trigger] copies[k],
                #[trigger] found[i],
                target,
            ) by {
            if k < before.len() {
                let i = choose|i: int|
                    0 <= i < n - 1 && !there[i] && is_copy_of(
                        before[k],
                        #[trigger] found[i],
                        target,
                    );
                assert(is_copy_of(copies[k], found[i], target));
            } else {
                assert(is_copy_of(copies[k], found[n - 1], target));
            }
        }
        assert forall|i: int| 0 <= i < n && !there[i] implies DirCopyModel::goes_to(
            copies,
            crate::paths::joined(target, (#[trigger] found[i]).manifest.name@),
        ) by {
            let place = crate::paths::joined(target, found[i].manifest.name@);
            if i < n - 1 || DirCopyModel::goes_to(before, to) {
                let k = choose|k: int| 0 <= k < before.len() && (#[trigger] before[k]).to == place;
                assert(copies[k].to == place);
            } else {
                assert(copies[copies.len() - 1].to == place);
            }
        }
    }
}

/// A copy of a plugin's directory, under the plugin's name.
pub open spec fn is_copy_of(copy: DirCopyModel, plugin: Installed, target: Seq<char>) -> bool {
    &&& copy.name == plugin.manifest.name@
    &&& copy.from == plugin.directory@
    &&& copy.to == crate::paths::joined(target, plugin.manifest.name@)
}

/// What a search lists: every package whose name or description holds what was asked for,
/// whatever the case, and no other; all of them where nothing was asked for.
pub proof fn law_a_search_finds_what_matches(
    table: Seq<RegistryEntry>,
    query: Option<&str>,
    n: int,
    line: Seq<char>,
)
    requires
        0 <= n <= table.len(),
    ensures
        crate::pkg::search_lines(table, query, n).contains(line) <==> exists|i: int|
            0 <= i < n && answers_query(#[trigger] table[i], query) && line
                == crate::strings::padded_right(table[i].name@, 24) + " "@
                + table[i].description@,
        query is None ==> crate::pkg::search_lines(table, query, n).len() == n,
    decreases n,
{
    if n > 0 {
        law_a_search_finds_what_matches(table, query, n - 1, line);
        let before = crate::pkg::search_lines(table, query, n - 1);
        let all = crate::pkg::search_lines(table, query, n);
        let own = crate::strings::padded_right(table[n - 1].name@, 24) + " "@
            + table[n - 1].description@;
        if answers_query(table[n - 1], query) {
            assert(all == before.push(own));
            assert(all[before.len() as int] == own);
            if before.contains(line) {
                let k = choose|k: int| 0 <= k < before.len() && before[k] == line;
                assert(all[k] == line);
            }
            if all.contains(line) && line != own {
                let k = choose|k: int| 0 <= k < all.len() && all[k] == line;
                assert(before[k] == line);
            }
        }
    }
}

/// A package that a search is after.
pub open spec fn answers_query(entry: RegistryEntry, query: Option<&str>) -> bool {
    query matches Some(q) ==> {
        ||| crate::strings::holds(
            crate::strings::lowercase(entry.name@),
            crate::strings::lowercase(q@),
        )
        ||| crate::strings::holds(
            crate::strings::lowercase(entry.description@),
            crate::strings::lowercase(q@),
        )
    }
}

/// A name in the registry stands for the first package that has it.
pub proof fn law_the_first_package_of_a_name(
    table: Seq<RegistryEntry>,
    name: Seq<char>,
    i: int,
    n: int,
)
    requires
        0 <= i < n <= table.len(),
        table[i].name@ == name,
        forall|k: int| 0 <= k < i ==> (#[trigger] table[k]).name@ != name,
    ensures
        crate::pkg::package_at(table, name, n) == Some(i),
    decreases n,
{
    if n > i + 1 {
        law_the_first_package_of_a_name(table, name, i, n - 1);
    } else {
        lemma_no_package(table, name, i);
    }
}

proof fn lemma_no_package(table: Seq<RegistryEntry>, name: Seq<char>, n: int)
    requires
        0 <= n <= table.len(),
        forall|k: int| 0 <= k < n ==> (#[trigger] table[k]).name@ != name,
    ensures
        crate::pkg::package_at(table, name, n) is None,
    decreases n,
{
    if n > 0 {
        lemma_no_package(table, name, n - 1);
    }
}

/// What is shown before a plugin is installed begins with its name and version, then what
/// it says of itself, then what it runs on.
pub proof fn law_consent_says_what_it_is(m: Manifest)
    ensures
        ({
            let lines = crate::pkg::consent_lines(m);
            let runs_on = if m.runtime is Lua {
                "  runtime: "@ + "Lua"@
            } else {
                "  runtime: "@ + "Wasm"@
            };
            &&& lines[1] == "  "@ + m.name@ + " "@ + m.version@
            &&& m.description@.len() > 0 ==> lines[2] == "  "@ + m.description@ && lines[3]
                == runs_on
            &&& m.description@.len() == 0 ==> lines[2] == runs_on
            &&& m.permissions@.len() == 0 ==> lines.contains("  permissions: none"@)
        }),
{
    let lines = crate::pkg::consent_lines(m);
    if m.permissions@.len() == 0 {
        if m.description@.len() > 0 {
            assert(lines[4] == "  permissions: none"@);
        } else {
            assert(lines[3] == "  permissions: none"@);
        }
    }
}

/// What is said of an update that worked is the last line git wrote, without the space
/// around it; git says nothing where there is nothing to say.
pub proof fn law_an_update_says_git_s_last_line(before: Seq<char>, line: Seq<char>)
    requires
        before.len() > 0 ==> before.last() == '\n',
        line.len() > 0,
        !line.contains('\n'),
    ensures
        crate::pkg::update_summary(before + line) == crate::strings::trimmed(line),
        crate::pkg::update_summary(before + line + seq!['\n']) == crate::strings::trimmed(line),
        crate::pkg::update_summary(Seq::empty()) == "updated"@,
{
    let text = before + line;
    let long = text + seq!['\n'];
    assert forall|i: int| before.len() <= i < text.len() implies #[trigger] text[i] != '\n' by {
        assert(line.contains(line[i - before.len()]));
    }
    crate::pkg::lemma_after_newline(text, before.len() as int);
    assert(text.skip(before.len() as int) =~= line);
    assert(text.last() == text[text.len() - 1]);
    assert(long.drop_last() =~= text);
}

/// What an item is called in a report is the last name of its path, and each result is told
/// apart from the others.
pub proof fn law_results_are_told_apart(root: Seq<char>, name: Seq<char>, path: String, said: String)
    requires
        crate::paths::is_plain_name(name),
        name != seq!['.', '.'],
        path@ == crate::paths::joined(root, name),
    ensures
        UpdateResult::Skipped(path).line() == name + ": not a git checkout, skipping"@,
        UpdateResult::Failed(path, said).line() == name + ": failed\n  "@ + said@,
        UpdateResult::Pulled(path, said).line() == name + ": "@ + crate::pkg::update_summary(
            said@,
        ),
{
    crate::paths::law_parent_undoes_join(root, name);
}

/// A file of a theme is one with something before its `.toml`.
pub proof fn law_theme_files(stem: Seq<char>, name: Seq<char>)
    ensures
        stem.len() > 0 ==> crate::pkg::is_toml(stem + ".toml"@),
        !crate::pkg::is_toml(".toml"@),
        crate::pkg::is_toml(name) ==> name == name.take(name.len() - 5) + ".toml"@,
{
    reveal_strlit(".toml");
    let n = stem.len() as int;
    assert((stem + ".toml"@).subrange(n, n + 5) =~= ".toml"@);
    if crate::pkg::is_toml(name) {
        let m = name.len() as int;
        assert(name =~= name.take(m - 5) + name.subrange(m - 5, m));
    }
}

/// A name that may be removed is one plain name: it is no path, does not climb and is not
/// hidden.
pub proof fn law_what_may_be_removed(name: Seq<char>)
    ensures
        crate::pkg::removable(name) ==> name.len() > 0 && !name.contains('/') && !name.contains(
            '\\',
        ) && name[0] != '.' && !crate::strings::holds(name, ".."@),
        name.len() > 0 && !name.contains('/') && !name.contains('\\') && name[0] != '.'
            && !crate::strings::holds(name, ".."@) ==> crate::pkg::removable(name),
{
}

/// The directories of a search path are what stands between its colons, and a program is
/// found where one of them holds it.
pub proof fn law_search_paths_are_split(first: Seq<char>, rest: Seq<char>)
    requires
        !first.contains(':'),
    ensures
        crate::ide::directories(first) == seq![first],
        crate::ide::directories(first + seq![':'] + rest) == seq![first]
            + crate::ide::directories(rest),
    decreases rest.len(),
{
    lemma_one_directory(first);
    lemma_first_directory(first, rest);
}

proof fn lemma_one_directory(text: Seq<char>)
    requires
        !text.contains(':'),
    ensures
        crate::ide::directories(text) == seq![text],
    decreases text.len(),
{
    if text.len() == 0 {
        assert(text =~= Seq::<char>::empty());
    } else {
        let head = text.drop_last();
        assert(text.contains(text[text.len() - 1]));
        assert forall|k: int| 0 <= k < head.len() implies head[k] != ':' by {
            assert(text.contains(text[k]));
        }
        assert(!head.contains(':'));
        lemma_one_directory(head);
        assert(head.push(text.last()) =~= text);
        assert(crate::ide::directories(text) =~= seq![text]);
    }
}

proof fn lemma_first_directory(first: Seq<char>, rest: Seq<char>)
    requires
        !first.contains(':'),
    ensures
        crate::ide::directories(first + seq![':'] + rest) == seq![first]
            + crate::ide::directories(rest),
        crate::ide::directories(rest).len() > 0,
    decreases rest.len(),
{
    let text = first + seq![':'] + rest;
    lemma_one_directory(first);
    if rest.len() == 0 {
        assert(text.drop_last() =~= first);
        assert(text.last() == ':');
        assert(crate::ide::directories(text) =~= seq![first] + seq![Seq::<char>::empty()]);
    } else {
        lemma_first_directory(first, rest.drop_last());
        assert(text.drop_last() =~= first + seq![':'] + rest.drop_last());
        assert(text.last() == rest.last());
        let fewer = crate::ide::directories(rest.drop_last());
        let before = seq![first] + fewer;
        assert(before.last() == fewer.last());
        assert(before.drop_last() =~= seq![first] + fewer.drop_last());
        assert(crate::ide::directories(text) =~= seq![first] + crate::ide::directories(rest));
    }
}

/// The editors that are offered are the known ones that are found, in their order.
pub proof fn law_found_editors_are_offered(path: &str, executables: Seq<Seq<char>>, n: int, ide: IdeModel)
    requires
        0 <= n <= IdeModel::known().len(),
    ensures
        IdeModel::offered(Some(path), executables, n).contains(ide) <==> exists|i: int|
            0 <= i < n && #[trigger] IdeModel::known()[i] == ide && crate::ide::found_on(
                path@,
                ide.command,
                executables,
            ),
        IdeModel::offered(None, executables, n).len() == 0,
    decreases n,
{
    if n > 0 {
        law_found_editors_are_offered(path, executables, n - 1, ide);
        let before = IdeModel::offered(Some(path), executables, n - 1);
        let all = IdeModel::offered(Some(path), executables, n);
        let last = IdeModel::known()[n - 1];
        if crate::ide::found_on(path@, last.command, executables) {
            assert(all == before.push(last));
            assert(all[before.len() as int] == last);
            if before.contains(ide) {
                let k = choose|k: int| 0 <= k < before.len() && before[k] == ide;
                assert(all[k] == ide);
            }
            if all.contains(ide) && ide != last {
                let k = choose|k: int| 0 <= k < all.len() && all[k] == ide;
                assert(before[k] == ide);
            }
        }
    }
}

/// Every permission a plugin asks for is shown before it is installed, each on a line of
/// its own, and whether it is held to them: a sandboxed plugin is, and of one that is not
/// the user is warned.
pub proof fn law_consent_shows_what_is_asked_for(m: Manifest, i: int)
    ensures
        0 <= i < m.permissions@.len() ==> crate::pkg::consent_lines(m).contains(
            "    - "@ + m.permissions@[i]@,
        ),
        m.permissions@.len() > 0 ==> crate::pkg::consent_lines(m).contains(
            "  it asks to be able to:"@,
        ),
        m.runtime is Wasm ==> crate::pkg::consent_lines(m).contains(
            "  this plugin is sandboxed: it can only do what is listed above"@,
        ),
        m.runtime is Lua ==> {
            &&& crate::pkg::consent_lines(m).contains(
                "  WARNING: Lua plugins are NOT sandboxed. This plugin can do"@,
            )
            &&& crate::pkg::consent_lines(m).contains(
                "  anything your user account can, regardless of the list above."@,
            )
            &&& crate::pkg::consent_lines(m).contains(
                "  Only install it if you trust its source."@,
            )
        },
{
    let lines = crate::pkg::consent_lines(m);
    let told: int = if m.description@.len() == 0 {
        3
    } else {
        4
    };
    let n = m.permissions@.len() as int;
    if n > 0 {
        assert(lines[told] == "  it asks to be able to:"@);
        if 0 <= i < n {
            assert(lines[told + 1 + i] == "    - "@ + m.permissions@[i]@);
        }
    }
    let after = told + 1 + n;
    if m.runtime is Wasm {
        assert(lines[after]
            == "  this plugin is sandboxed: it can only do what is listed above"@);
    } else {
        assert(lines[after + 1] == "  WARNING: Lua plugins are NOT sandboxed. This plugin can do"@);
        assert(lines[after + 2]
            == "  anything your user account can, regardless of the list above."@);
        assert(lines[after + 3] == "  Only install it if you trust its source."@);
    }
}

/// A name is made of letters and digits, dashes, underscores and dots, and of nothing
/// else.
pub proof fn law_what_names_are_made_of(c: char, name: Seq<char>)
    ensures
        crate::pkg::name_char(c) <==> {
            ||| 97 <= c as u32 <= 122
            ||| 65 <= c as u32 <= 90
            ||| 48 <= c as u32 <= 57
            ||| c == '-'
            ||| c == '_'
            ||| c == '.'
        },
        crate::pkg::plain(name) <==> forall|i: int|
            0 <= i < name.len() ==> crate::pkg::name_char(#[trigger] name[i]),
        crate::pkg::unusable(name) <==> crate::strings::holds(name, ".."@) || name.contains('\\')
            || (name.len() > 0 && name[0] == '.'),
{
}

/// Why a name is refused: there is none, it would be hidden or climb, or it holds what no
/// name may hold.
pub proof fn law_why_names_are_refused(url: Seq<char>)
    ensures
        ({
            let name = crate::pkg::url_segment(url);
            let said = crate::pkg::refusal_text(url);
            &&& name.len() == 0 ==> said == "cannot work out a name from `"@ + url + "`"@
            &&& name.len() > 0 && crate::pkg::unusable(name) ==> said == "`"@ + name
                + "` is not a usable directory name"@
            &&& name.len() > 0 && !crate::pkg::unusable(name) ==> said == "`"@ + name
                + "` contains characters that are not valid in a directory name"@
            &&& crate::pkg::well_named(url) <==> name.len() > 0 && !crate::pkg::unusable(name)
                && crate::pkg::plain(name)
        }),
{
}

/// What is said where the registry has no such name, and where a removal would leave the
/// folder it belongs to.
pub proof fn law_what_is_said_of_names(name: Seq<char>, target: Seq<char>, root: Seq<char>)
    ensures
        crate::pkg::missing_text(Kind::Plugin, name) == "no "@ + "plugin"@ + " named `"@ + name
            + "` in the registry\ntry `tuzminal "@ + "plugin"@
            + " search` to see what is available"@,
        crate::pkg::missing_text(Kind::Theme, name) == "no "@ + "theme"@ + " named `"@ + name
            + "` in the registry\ntry `tuzminal "@ + "theme"@
            + " search` to see what is available"@,
        crate::pkg::outside_text(target, root) == "refusing to remove "@ + target
            + ": it resolves outside "@ + root,
{
}

/// A round of updates reports on each item, in order, or says that there was none; what it
/// counts as failed are the failures.
pub proof fn law_updates_are_reported(results: Seq<UpdateResult>, i: int, last: UpdateResult)
    ensures
        results.len() == 0 ==> crate::pkg::report_lines(results) == seq!["nothing to update"@],
        results.len() > 0 ==> crate::pkg::report_lines(results).len() == results.len(),
        0 <= i < results.len() ==> crate::pkg::report_lines(results)[i] == results[i].line(),
        crate::pkg::failed_count(Seq::empty()) == 0,
        crate::pkg::failed_count(results.push(last)) == crate::pkg::failed_count(results) + (
        if last is Failed {
            1nat
        } else {
            0
        }),
{
    assert(results.push(last).drop_last() =~= results);
}

/// What is updated: the item that was named, or every checkout there is and nothing else.
pub proof fn law_what_is_updated(
    root: Seq<char>,
    name: Seq<char>,
    names: Seq<Seq<char>>,
    checkouts: Seq<bool>,
    i: int,
    path: Seq<char>,
)
    requires
        names.len() == checkouts.len(),
    ensures
        crate::pkg::targets_of(root, Some(name), names, checkouts) == seq![
            crate::paths::joined(root, name),
        ],
        0 <= i < names.len() && checkouts[i] ==> crate::pkg::targets_of(
            root,
            None,
            names,
            checkouts,
        ).contains(crate::paths::joined(root, names[i])),
        crate::pkg::targets_of(root, None, names, checkouts).contains(path) ==> exists|k: int|
            0 <= k < names.len() && #[trigger] checkouts[k] && path == crate::paths::joined(
                root,
                names[k],
            ),
{
    lemma_checkouts(root, names, checkouts, i, names.len() as int, path);
}

proof fn lemma_checkouts(
    root: Seq<char>,
    names: Seq<Seq<char>>,
    checkouts: Seq<bool>,
    i: int,
    n: int,
    path: Seq<char>,
)
    requires
        0 <= n <= names.len() == checkouts.len(),
    ensures
        0 <= i < n && checkouts[i] ==> crate::pkg::checkout_paths(
            root,
            names,
            checkouts,
            n,
        ).contains(crate::paths::joined(root, names[i])),
        crate::pkg::checkout_paths(root, names, checkouts, n).contains(path) ==> exists|k: int|
            0 <= k < n && #[trigger] checkouts[k] && path == crate::paths::joined(root, names[k]),
    decreases n,
{
    if n > 0 {
        lemma_checkouts(root, names, checkouts, i, n - 1, path);
        let before = crate::pkg::checkout_paths(root, names, checkouts, n - 1);
        let last = crate::paths::joined(root, names[n - 1]);
        crate::text_laws::lemma_pushed(before, last, path);
        if 0 <= i < n {
            crate::text_laws::lemma_pushed(before, last, crate::paths::joined(root, names[i]));
        }
    }
}

} // verus!
