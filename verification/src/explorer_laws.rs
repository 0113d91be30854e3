//! What the file explorer shows, and what it does with what is selected.

use vstd::prelude::*;

use crate::app::AppModel;
use crate::effect::EffectModel;
use crate::explorer::{
    CommitModel, Entry, EntryModel, ExplorerModel, Listed, ListedModel, OutcomeModel, PromptModel,
};
use crate::widget::{EntryKind, WidgetId, WidgetModel};

verus! {

/// The row of something that was found: its own name, path and size, and what it is. A link
/// is a link, whatever it leads to.
pub open spec fn row_for(found: ListedModel) -> EntryModel {
    EntryModel {
        name: found.name,
        path: found.path,
        kind: match (found.link, found.dir) {
            (true, _) => EntryKind::Symlink,
            (false, true) => EntryKind::Directory,
            (false, false) => EntryKind::File,
        },
        size: found.size,
    }
}

/// A name that begins with a dot.
pub open spec fn is_dotfile(found: ListedModel) -> bool {
    found.name.len() > 0 && found.name[0] == '.'
}

/// Everything that was found has its row, except what is hidden while hidden things are not
/// shown.
pub proof fn law_what_is_found_is_shown(list: Seq<ListedModel>, show_hidden: bool, i: int)
    requires
        0 <= i < list.len(),
        show_hidden || !is_dotfile(list[i]),
    ensures
        ListedModel::shown(list, show_hidden).contains(row_for(list[i])),
    decreases list.len(),
{
    let head = list.drop_last();
    let before = ListedModel::shown(head, show_hidden);
    let rows = ListedModel::shown(list, show_hidden);
    if i < head.len() {
        law_what_is_found_is_shown(head, show_hidden, i);
        assert(head[i] == list[i]);
        let k = choose|k: int| 0 <= k < before.len() && before[k] == row_for(list[i]);
        assert(rows[k] == row_for(list[i]));
    } else {
        assert(list.last() == list[i]);
        assert(rows[before.len() as int] =~= row_for(list[i]));
    }
}

/// Every row is of something that was found, and nothing hidden has one while hidden things
/// are not shown.
pub proof fn law_what_is_shown_was_found(list: Seq<ListedModel>, show_hidden: bool, row: EntryModel)
    requires
        ListedModel::shown(list, show_hidden).contains(row),
    ensures
        exists|i: int|
            0 <= i < list.len() && row == row_for(#[trigger] list[i]) && (show_hidden
                || !is_dotfile(list[i])),
    decreases list.len(),
{
    let rows = ListedModel::shown(list, show_hidden);
    let k = choose|k: int| 0 <= k < rows.len() && rows[k] == row;
    if list.len() > 0 {
        let head = list.drop_last();
        let before = ListedModel::shown(head, show_hidden);
        if k < before.len() {
            assert(before[k] == row);
            law_what_is_shown_was_found(head, show_hidden, row);
            let i = choose|i: int|
                0 <= i < head.len() && row == row_for(#[trigger] head[i]) && (show_hidden
                    || !is_dotfile(head[i]));
            assert(list[i] == head[i]);
        } else {
            assert(list[list.len() - 1] == list.last());
            assert(row =~= row_for(list[list.len() - 1]));
        }
    }
}

/// With hidden things shown there are as many rows as things.
pub proof fn law_every_thing_has_one_row(list: Seq<ListedModel>, show_hidden: bool)
    ensures
        ListedModel::shown(list, true).len() == list.len(),
        ListedModel::shown(list, show_hidden).len() <= list.len(),
    decreases list.len(),
{
    if list.len() > 0 {
        law_every_thing_has_one_row(list.drop_last(), show_hidden);
    }
}

/// The way up comes first, where there is one. Then come the rows, all of them up to five
/// thousand, folders before files and each in the order of the dictionary, whatever the
/// case; names that differ only in case keep to the order of their letters. How many are
/// left out is known.
pub proof fn law_a_listing_is_in_order(dir: Seq<char>, rows: Seq<EntryModel>, i: int, j: int)
    requires
        forall|k: int| 0 <= k < rows.len() ==> !((#[trigger] rows[k]).kind is Parent),
    ensures
        ({
            let list = EntryModel::listing(dir, rows);
            let up = crate::paths::parent_of(dir);
            let first = if up is Some {
                1int
            } else {
                0int
            };
            &&& up is Some ==> list.len() > 0 && list[0].kind is Parent && list[0].path == up->0
                && list[0].name == ".."@
            &&& rows.len() <= 5000 ==> list.len() == first + rows.len() && EntryModel::overflow(rows)
                == 0
            &&& rows.len() > 5000 ==> list.len() == first + 5000 && EntryModel::overflow(rows)
                == rows.len() - 5000
            &&& rows.len() <= 5000 ==> list.skip(first).to_multiset() == rows.to_multiset()
            &&& first <= i < j < list.len() ==> {
                let (a, b) = (list[i], list[j]);
                let (x, y) = (crate::strings::lowercase(a.name), crate::strings::lowercase(b.name));
                &&& !(b.kind is Directory && !(a.kind is Directory))
                &&& (a.kind is Directory) == (b.kind is Directory) ==> {
                    &&& !crate::strings::lex_less(y, x)
                    &&& x == y ==> !crate::strings::lex_less(b.name, a.name)
                }
            }
        }),
{
    broadcast use vstd::seq_lib::group_to_multiset_ensures;

    let kept = rows.take(
        if rows.len() <= 5000 {
            rows.len() as int
        } else {
            5000
        },
    );
    let sorted = EntryModel::sorted(kept);
    let list = EntryModel::listing(dir, rows);
    let first = list.len() - sorted.len();
    crate::explorer::law_sorting_orders(kept);
    crate::explorer::law_sorting_keeps_rows(kept);
    assert(sorted.len() == kept.len()) by {
        assert(sorted.to_multiset().len() == sorted.len());
        assert(kept.to_multiset().len() == kept.len());
    }
    assert(list.skip(first) =~= sorted);
    if rows.len() <= 5000 {
        assert(kept =~= rows);
    }
    if first <= i < j < list.len() {
        let (a, b) = (sorted[i - first], sorted[j - first]);
        assert(list[i] == a && list[j] == b);
        assert(!b.before(a));
        assert(sorted.to_multiset().contains(a) && sorted.to_multiset().contains(b)) by {
            assert(sorted.contains(a) && sorted.contains(b));
        }
        assert(kept.contains(a) && kept.contains(b));
        let p = choose|p: int| 0 <= p < kept.len() && kept[p] == a;
        let q = choose|q: int| 0 <= q < kept.len() && kept[q] == b;
        assert(!(rows[p].kind is Parent) && !(rows[q].kind is Parent));
    }
}

/// The order of the dictionary: the first letter that differs decides, and where none does
/// the shorter text comes first.
pub proof fn law_the_order_of_the_dictionary(
    both: Seq<char>,
    c: char,
    d: char,
    rest: Seq<char>,
    other: Seq<char>,
)
    ensures
        (c as u32) < (d as u32) ==> crate::strings::lex_less(
            both + seq![c] + rest,
            both + seq![d] + other,
        ),
        crate::strings::lex_less(both, both + seq![c] + rest),
        !crate::strings::lex_less(both, both),
    decreases both.len(),
{
    let a = both + seq![c] + rest;
    let b = both + seq![d] + other;
    if both.len() > 0 {
        law_the_order_of_the_dictionary(both.drop_first(), c, d, rest, other);
        assert(a.drop_first() =~= both.drop_first() + seq![c] + rest);
        assert(b.drop_first() =~= both.drop_first() + seq![d] + other);
        assert(a[0] == both[0] && b[0] == both[0]);
    }
}

/// Each entry has its own row on screen, in order: what it is, its name and its size. The
/// selected one, and no other, is marked.
pub proof fn law_rows_show_their_entries(e: ExplorerModel, i: int)
    requires
        0 <= i < e.entries.len() <= 5001,
    ensures
        e.row_widgets()[i] == (WidgetModel::Entry {
            id: WidgetId((1000 + i) as u32),
            kind: e.entries[i].kind,
            label: e.entries[i].name,
            detail: Entry::detail_text(e.entries[i].kind, e.entries[i].size),
            selected: i == e.selected,
        }),
        e.truncated > 0 ==> e.row_widgets().last() == (WidgetModel::Label {
            text: "… "@ + crate::decimal::digits(e.truncated as nat) + " more"@,
            heading: false,
        }),
{
}

/// What a row says beside its name: how many things a folder holds, how large a file is,
/// and nothing for the way up or for what cannot be read. Small files are counted in
/// bytes; larger ones in the unit that keeps the number short, to the nearest.
pub proof fn law_sizes_are_readable(kind: EntryKind, bytes: u64)
    ensures
        Entry::detail_text(EntryKind::Parent, Some(bytes)) == Seq::<char>::empty(),
        Entry::detail_text(kind, None) == Seq::<char>::empty(),
        Entry::detail_text(EntryKind::Directory, Some(bytes)) == crate::decimal::digits(
            bytes as nat,
        ),
        bytes < 1024 ==> Entry::detail_text(EntryKind::File, Some(bytes))
            == crate::decimal::digits(bytes as nat).push('B'),
        10 * 1024 <= bytes < 1024 * 1024 ==> Entry::detail_text(EntryKind::File, Some(bytes))
            == crate::decimal::digits(crate::decimal::half_even(bytes as nat, 1024)).push('K'),
        10 * 1024 * 1024 <= bytes < 1024 * 1024 * 1024 ==> Entry::detail_text(
            EntryKind::File,
            Some(bytes),
        ) == crate::decimal::digits(crate::decimal::half_even(bytes as nat, 1024 * 1024)).push(
            'M',
        ),
        10 * 1024 * 1024 * 1024 <= bytes < 1024 * 1024 * 1024 * 1024 ==> Entry::detail_text(
            EntryKind::File,
            Some(bytes),
        ) == crate::decimal::digits(
            crate::decimal::half_even(bytes as nat, 1024 * 1024 * 1024),
        ).push('G'),
        1024 <= bytes < 10 * 1024 ==> ({
            let text = Entry::detail_text(EntryKind::File, Some(bytes));
            let tenths = crate::decimal::half_even((10 * bytes) as nat, 1024);
            &&& text.last() == 'K'
            &&& text == crate::decimal::digits(tenths / 10).push('.').push(
                crate::decimal::digit(tenths % 10),
            ).push('K')
        }),
{
    if bytes < 1024 * 1024 * 1024 * 1024 {
        lemma_small_sizes(bytes);
    }
}

proof fn lemma_small_sizes(bytes: u64)
    requires
        bytes < 1024 * 1024 * 1024 * 1024,
    ensures
        crate::explorer::significant(bytes as nat, 0) == bytes,
{
    reveal_with_fuel(crate::explorer::pow2, 54);
    assert(crate::explorer::pow2(53) == 0x20_0000_0000_0000);
    assert(crate::explorer::pow2(0) == 1);
    assert(crate::decimal::half_even(bytes as nat, 1) == bytes);
}

/// Opening the selected row goes into a folder, or up, and opens anything else in the
/// editor: always the row's own path.
pub proof fn law_opening_the_selected_row(app: AppModel, e: ExplorerModel)
    requires
        0 <= e.selected < e.entries.len(),
    ensures
        ({
            let row = e.entries[e.selected];
            let (after, effects) = app.explorer_asked(e.activation());
            &&& row.kind is Directory || row.kind is Parent ==> after == app && effects == seq![
                EffectModel::ListDir(row.path),
            ]
            &&& row.kind is File || row.kind is Symlink ==> {
                &&& after == (AppModel { sidebar_focused: false, ..app })
                &&& effects.len() >= 2
                &&& effects[0] == EffectModel::WriteFocused(
                    vstd::utf8::encode_utf8(
                        "\"$EDITOR\" "@ + crate::explorer::quoted(row.path) + seq!['\r'],
                    ),
                )
                &&& effects.last() == EffectModel::Redraw
            }
        }),
{
}

/// A click on a row that is not selected selects it; a click on the selected one opens it;
/// a click on anything else does nothing.
pub proof fn law_clicking_rows(e: ExplorerModel, i: int, other: WidgetId)
    requires
        0 <= i < e.entries.len() <= 5001,
        other.0 < 1000 || other.0 >= 1000 + e.entries.len(),
    ensures
        ({
            let (after, outcome) = e.clicked(WidgetId((1000 + i) as u32));
            &&& i != e.selected ==> after.selected == i && outcome is Redraw && after.entries
                == e.entries && after.dir == e.dir && after.prompt == e.prompt
            &&& i == e.selected ==> after == e && outcome == e.activation()
        }),
        e.clicked(other) == (e, OutcomeModel::Continue),
{
}

/// What is asked before something is deleted names it, and says how much is inside.
pub proof fn law_deleting_says_what(
    e: ExplorerModel,
    dir: Seq<char>,
    name: Seq<char>,
    inside: int,
)
    requires
        crate::paths::is_plain_name(name),
        name != seq!['.', '.'],
        e.prompt == Some(
            PromptModel::Delete { path: crate::paths::joined(dir, name), entries: inside },
        ),
        0 <= inside,
    ensures
        e.prompt_widgets() == seq![
            WidgetModel::Label {
                text: if inside > 0 {
                    "Delete "@ + name + " and "@ + crate::decimal::digits(inside as nat)
                        + " inside? (y/n)"@
                } else {
                    "Delete "@ + name + "? (y/n)"@
                },
                heading: false,
            },
        ],
{
    crate::paths::law_parent_undoes_join(dir, name);
}

/// A prompt for a name shows what was typed, with the caret at its end.
pub proof fn law_prompts_show_what_was_typed(e: ExplorerModel, value: Seq<char>)
    ensures
        e.prompt == Some(PromptModel::NewFolder { value }) ==> e.prompt_widgets() == seq![
            WidgetModel::Text {
                id: WidgetId(1),
                label: "New folder"@,
                value,
                caret: value.len() as int,
                placeholder: ""@,
            },
        ],
        (e.prompt matches Some(PromptModel::Rename { value: v, .. }) && v == value)
            ==> e.prompt_widgets() == seq![
            WidgetModel::Text {
                id: WidgetId(1),
                label: "Rename to"@,
                value,
                caret: value.len() as int,
                placeholder: ""@,
            },
        ],
        e.prompt is None ==> e.prompt_widgets() == Seq::<WidgetModel>::empty(),
{
}

/// What a confirmed prompt does: a deletion deletes the very path that was asked about, a
/// new folder goes into the directory on show, and a rename keeps to that directory. A name
/// that is empty, is a path, or is taken is refused, and nothing changes.
pub proof fn law_confirmed_prompts(
    e: ExplorerModel,
    target_exists: bool,
    backslash: bool,
    from: Seq<char>,
    value: Seq<char>,
    inside: int,
)
    ensures
        ({
            let (after, commit) = e.committed(target_exists, backslash);
            let closed = ExplorerModel { prompt: None, ..e };
            let name = crate::strings::trimmed(value);
            let is_path = exists|i: int|
                0 <= i < name.len() && (#[trigger] name[i] == '/' || (backslash && name[i]
                    == '\\'));
            &&& e.prompt is None ==> after == e && commit is Nothing
            &&& e.prompt == Some(PromptModel::Delete { path: from, entries: inside }) ==> after
                == closed && commit == CommitModel::Delete(from)
            &&& e.prompt == Some(PromptModel::NewFolder { value }) ==> {
                &&& name.len() > 0 ==> after == closed && commit == CommitModel::CreateFolder(
                    crate::paths::joined(e.dir, name),
                )
                &&& name.len() == 0 ==> after == e && commit == CommitModel::Refused(
                    "a name cannot be empty"@,
                )
            }
            &&& e.prompt == Some(PromptModel::Rename { from, value }) ==> {
                let to = crate::paths::joined(e.dir, name);
                let taken = target_exists && !crate::paths::same_path(to, from);
                &&& name.len() == 0 ==> after == e && commit == CommitModel::Refused(
                    "a name cannot be empty"@,
                )
                &&& name.len() > 0 && is_path ==> after == e && commit == CommitModel::Refused(
                    "a name cannot contain a path separator"@,
                )
                &&& name.len() > 0 && !is_path && taken ==> after == e && commit
                    == CommitModel::Refused(name + " already exists"@)
                &&& name.len() > 0 && !is_path && !taken ==> after == closed && commit
                    == CommitModel::Rename { from, to }
            }
        }),
{
    let name = crate::strings::trimmed(value);
    let is_path = exists|i: int|
        0 <= i < name.len() && (#[trigger] name[i] == '/' || (backslash && name[i] == '\\'));
    if ExplorerModel::has_separator(name, backslash) {
        let i = choose|i: int|
            0 <= i < name.len() && crate::explorer::separates(#[trigger] name[i], backslash);
        assert(name[i] == '/' || (backslash && name[i] == '\\'));
    }
    if is_path {
        let i = choose|i: int|
            0 <= i < name.len() && (#[trigger] name[i] == '/' || (backslash && name[i] == '\\'));
        assert(crate::explorer::separates(name[i], backslash));
    }
}

/// Space around a name does not belong to it: what is left begins and ends with something
/// else, and the space taken away is space.
pub proof fn law_names_are_trimmed(before: Seq<char>, name: Seq<char>, after: Seq<char>)
    requires
        forall|i: int|
            0 <= i < before.len() ==> crate::strings::is_space_char(#[trigger] before[i]),
        forall|i: int|
            0 <= i < after.len() ==> crate::strings::is_space_char(#[trigger] after[i]),
        name.len() > 0,
        !crate::strings::is_space_char(name[0]),
        !crate::strings::is_space_char(name.last()),
    ensures
        crate::strings::trimmed(before + name + after) == name,
        crate::strings::trimmed(before + after) == Seq::<char>::empty(),
        crate::strings::is_space_char(' '),
        crate::strings::is_space_char('\n'),
        crate::strings::is_space_char('\t'),
        !crate::strings::is_space_char('a'),
{
    lemma_trimmed_start(before, name + after);
    assert(before + (name + after) =~= before + name + after);
    assert((name + after)[0] == name[0]);
    lemma_trimmed_end(name, after);
    lemma_all_space(before + after);
}

proof fn lemma_trimmed_start(before: Seq<char>, text: Seq<char>)
    requires
        forall|i: int|
            0 <= i < before.len() ==> crate::strings::is_space_char(#[trigger] before[i]),
        text.len() > 0,
        !crate::strings::is_space_char(text[0]),
    ensures
        crate::strings::trimmed_start(before + text) == text,
    decreases before.len(),
{
    if before.len() > 0 {
        lemma_trimmed_start(before.drop_first(), text);
        assert((before + text).drop_first() =~= before.drop_first() + text);
        assert((before + text)[0] == before[0]);
    } else {
        assert(before + text =~= text);
    }
}

proof fn lemma_trimmed_end(text: Seq<char>, after: Seq<char>)
    requires
        forall|i: int|
            0 <= i < after.len() ==> crate::strings::is_space_char(#[trigger] after[i]),
        text.len() > 0,
        !crate::strings::is_space_char(text.last()),
    ensures
        crate::strings::trimmed_end(text + after) == text,
    decreases after.len(),
{
    if after.len() > 0 {
        lemma_trimmed_end(text, after.drop_last());
        assert((text + after).drop_last() =~= text + after.drop_last());
        assert((text + after).last() == after[after.len() - 1]);
    } else {
        assert(text + after =~= text);
    }
}

proof fn lemma_all_space(text: Seq<char>)
    requires
        forall|i: int| 0 <= i < text.len() ==> crate::strings::is_space_char(#[trigger] text[i]),
    ensures
        crate::strings::trimmed(text) == Seq::<char>::empty(),
    decreases text.len(),
{
    if text.len() > 0 {
        lemma_all_space(text.drop_first());
    } else {
        assert(text =~= Seq::empty());
    }
}

/// Reading a directory again keeps the selection where it is, or puts it on the last row
/// that is left. Nothing else of the explorer changes.
pub proof fn law_refreshing_keeps_the_place(e: ExplorerModel, read: Option<Vec<Listed>>)
    requires
        0 <= e.selected,
    ensures
        ({
            let after = e.refreshed(read);
            &&& after.dir == e.dir && after.ui == e.ui && after.prompt == e.prompt
            &&& after.show_hidden == e.show_hidden
            &&& e.selected < after.entries.len() ==> after.selected == e.selected
            &&& 0 < after.entries.len() <= e.selected ==> after.selected == after.entries.len() - 1
            &&& after.entries.len() == 0 ==> after.selected == 0
            &&& read matches Some(list) ==> after.entries == EntryModel::listing(
                e.dir,
                ListedModel::shown(ListedModel::all(list@), e.show_hidden),
            )
        }),
{
}

/// What the explorer asks for is done with the very path it names: a folder is read, a path
/// is pasted quoted, and a command is run on it quoted.
pub proof fn law_what_the_explorer_asks_for(app: AppModel, path: Seq<char>)
    ensures
        app.explorer_asked(OutcomeModel::Continue) == (app, Seq::<EffectModel>::empty()),
        app.explorer_asked(OutcomeModel::Redraw) == (app, seq![EffectModel::Redraw]),
        app.explorer_asked(OutcomeModel::Enter(path)) == (app, seq![EffectModel::ListDir(path)]),
        app.explorer_asked(OutcomeModel::InsertPath(path)) == (
            app,
            seq![
                EffectModel::PasteText(seq!['\''] + crate::explorer::escaped(path) + seq!['\'']),
                EffectModel::Redraw,
            ],
        ),
        app.explorer_asked(OutcomeModel::RunCd(path)) == (
            app,
            seq![
                EffectModel::WriteFocused(
                    vstd::utf8::encode_utf8("cd "@ + crate::explorer::quoted(path) + seq!['\r']),
                ),
                EffectModel::Redraw,
            ],
        ),
        app.explorer_asked(OutcomeModel::Unfocus).0 == (AppModel { sidebar_focused: false, ..app }),
{
    assert(app.explorer_asked(OutcomeModel::Unfocus).0 =~= (AppModel {
        sidebar_focused: false,
        ..app
    }));
}

/// Where a rename would go is where it goes; a name that would be refused goes nowhere.
pub proof fn law_where_a_rename_would_go(e: ExplorerModel, exists: bool, backslash: bool)
    ensures
        match e.committed(exists, backslash).1 {
            CommitModel::Rename { to, .. } => e.rename_goal(backslash) == Some(to),
            _ => true,
        },
        e.prompt is Some && e.prompt->0 is Rename ==> (e.rename_goal(backslash) is Some
            <==> e.committed(false, backslash).1 is Rename),
        e.prompt is None ==> e.rename_goal(backslash) is None,
{
}

} // verus!
