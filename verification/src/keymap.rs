//! Which keys do what: the bindings plugins ask for, under the configured ones.

use vstd::prelude::*;
use vstd::string::*;

use crate::help::{Binding, BindingModel};
use crate::strings::{chars_of, same_text, text_less};

verus! {

/// Bindings, one per chord, in the order of their chords.
#[derive(Debug)]
pub struct KeyTable {
    pub keys: Vec<Binding>,
}

impl View for KeyTable {
    type V = Map<Seq<char>, Seq<char>>;

    open spec fn view(&self) -> Map<Seq<char>, Seq<char>> {
        KeyTable::meaning(BindingModel::all(self.keys@))
    }
}

impl KeyTable {
    /// What each chord of a list does. Of two bindings of one chord the later counts.
    pub open spec fn meaning(list: Seq<BindingModel>) -> Map<Seq<char>, Seq<char>>
        decreases list.len(),
    {
        if list.len() == 0 {
            Map::empty()
        } else {
            KeyTable::meaning(list.drop_last()).insert(list.last().chord, list.last().action)
        }
    }

    /// The chords are in order, so none occurs twice.
    pub open spec fn sorted(list: Seq<BindingModel>) -> bool {
        forall|i: int, j: int|
            0 <= i < j < list.len() ==> crate::strings::lex_less(
                (#[trigger] list[i]).chord,
                (#[trigger] list[j]).chord,
            )
    }

    pub open spec fn wf(self) -> bool {
        KeyTable::sorted(BindingModel::all(self.keys@))
    }

    pub fn new() -> (table: Self)
        ensures
            table.wf(),
            table@ == Map::<Seq<char>, Seq<char>>::empty(),
    {
        KeyTable { keys: Vec::new() }
    }

    /// Bind a chord, in place of what it was bound to.
    pub fn bind(&mut self, chord: &str, action: &str)
        requires
            old(self).wf(),
        ensures
            final(self).wf(),
            final(self)@ == old(self)@.insert(chord@, action@),
    {
        let wanted = chars_of(chord);
        let ghost list = BindingModel::all(self.keys@);
        let ghost entry = BindingModel { chord: chord@, action: action@ };
        let mut i: usize = 0;
        while i < self.keys.len() && text_less(&chars_of(self.keys[i].chord.as_str()), &wanted)
            invariant
                i <= self.keys@.len(),
                wanted@ == chord@,
                list == BindingModel::all(self.keys@),
                forall|k: int|
                    0 <= k < i ==> crate::strings::lex_less((#[trigger] list[k]).chord, chord@),
            decreases self.keys@.len() - i,
        {
            i += 1;
        }
        if i < self.keys.len() && same_text(self.keys[i].chord.as_str(), chord) {
            proof {
                assert(list[i as int].chord == chord@);
                lemma_rebound(list, i as int, entry);
            }
            self.keys.set(i, Binding { chord: chord.to_owned(), action: action.to_owned() });
            assert(BindingModel::all(self.keys@) =~= list.update(i as int, entry));
        } else {
            proof {
                if i < list.len() {
                    crate::strings::lemma_lex_total(list[i as int].chord, chord@);
                    assert(crate::strings::lex_less(chord@, list[i as int].chord));
                }
                assert forall|k: int| i <= k < list.len() implies crate::strings::lex_less(
                    chord@,
                    (#[trigger] list[k]).chord,
                ) by {
                    if i < k {
                        crate::strings::lemma_lex_transitive(
                            chord@,
                            list[i as int].chord,
                            list[k].chord,
                        );
                    }
                }
                assert forall|k: int| 0 <= k < list.len() implies (#[trigger] list[k]).chord
                    != chord@ by {
                    crate::strings::lemma_lex_total(list[k].chord, chord@);
                    crate::strings::lemma_lex_total(chord@, list[k].chord);
                }
                lemma_bound(list, i as int, entry);
            }
            self.keys.insert(i, Binding { chord: chord.to_owned(), action: action.to_owned() });
            assert(BindingModel::all(self.keys@) =~= list.insert(i as int, entry));
            assert(KeyTable::sorted(list.insert(i as int, entry)));
        }
    }

    /// Bind everything in a list, in its order.
    pub fn overlay(&mut self, list: &Vec<Binding>)
        requires
            old(self).wf(),
        ensures
            final(self).wf(),
            final(self)@ == old(self)@.union_prefer_right(
                KeyTable::meaning(BindingModel::all(list@)),
            ),
    {
        let ghost all = BindingModel::all(list@);
        let mut i: usize = 0;
        assert(all.take(0) =~= Seq::empty());
        assert(self@ =~= old(self)@.union_prefer_right(Map::empty()));
        while i < list.len()
            invariant
                i <= list@.len(),
                all == BindingModel::all(list@),
                self.wf(),
                self@ == old(self)@.union_prefer_right(KeyTable::meaning(all.take(i as int))),
            decreases list@.len() - i,
        {
            let ghost before = KeyTable::meaning(all.take(i as int));
            self.bind(list[i].chord.as_str(), list[i].action.as_str());
            i += 1;
            assert(all.take(i as int).drop_last() =~= all.take(i - 1));
            assert(all.take(i as int).last() == list@[i - 1]@);
            assert(self@ =~= old(self)@.union_prefer_right(KeyTable::meaning(all.take(i as int))));
        }
        assert(all.take(i as int) =~= all);
    }
}

/// Layer the bindings plugins ask for under the configured ones: a plugin can offer a
/// key, never take one.
pub fn layered_keys(plugins: &Vec<Binding>, config: &Vec<Binding>) -> (table: KeyTable)
    ensures
        table.wf(),
        table@ == KeyTable::meaning(BindingModel::all(plugins@)).union_prefer_right(
            KeyTable::meaning(BindingModel::all(config@)),
        ),
{
    let mut table = KeyTable::new();
    table.overlay(plugins);
    assert(table@ =~= KeyTable::meaning(BindingModel::all(plugins@)));
    table.overlay(config);
    table
}

proof fn lemma_bound(list: Seq<BindingModel>, i: int, entry: BindingModel)
    requires
        0 <= i <= list.len(),
        forall|k: int| 0 <= k < list.len() ==> (#[trigger] list[k]).chord != entry.chord,
    ensures
        KeyTable::meaning(list.insert(i, entry)) == KeyTable::meaning(list).insert(
            entry.chord,
            entry.action,
        ),
    decreases list.len(),
{
    let grown = list.insert(i, entry);
    if i == list.len() {
        assert(grown.drop_last() =~= list);
    } else {
        assert(grown.drop_last() =~= list.drop_last().insert(i, entry));
        assert forall|k: int| 0 <= k < list.drop_last().len() implies (
        #[trigger] list.drop_last()[k]).chord != entry.chord by {
            assert(list[k].chord != entry.chord);
        }
        lemma_bound(list.drop_last(), i, entry);
        assert(list[list.len() - 1].chord != entry.chord);
        assert(grown.last() == list.last());
        assert(KeyTable::meaning(grown) =~= KeyTable::meaning(list).insert(
            entry.chord,
            entry.action,
        ));
    }
}

proof fn lemma_rebound(list: Seq<BindingModel>, i: int, entry: BindingModel)
    requires
        0 <= i < list.len(),
        list[i].chord == entry.chord,
        KeyTable::sorted(list),
    ensures
        KeyTable::meaning(list.update(i, entry)) == KeyTable::meaning(list).insert(
            entry.chord,
            entry.action,
        ),
        KeyTable::sorted(list.update(i, entry)),
    decreases list.len(),
{
    let changed = list.update(i, entry);
    if i == list.len() - 1 {
        assert(changed.drop_last() =~= list.drop_last());
    } else {
        assert(changed.drop_last() =~= list.drop_last().update(i, entry));
        lemma_rebound(list.drop_last(), i, entry);
        crate::strings::lemma_lex_total(list[i].chord, list[list.len() - 1].chord);
        assert(changed.last() == list.last());
    }
    assert(KeyTable::meaning(changed) =~= KeyTable::meaning(list).insert(
        entry.chord,
        entry.action,
    ));
}

/// A configured binding always wins over a plugin's, and a plugin's counts wherever
/// nothing is configured.
pub proof fn law_configured_keys_win(
    plugins: Seq<BindingModel>,
    config: Seq<BindingModel>,
    chord: Seq<char>,
)
    ensures
        ({
            let asked = KeyTable::meaning(plugins);
            let configured = KeyTable::meaning(config);
            let keys = asked.union_prefer_right(configured);
            &&& configured.dom().contains(chord) ==> keys.dom().contains(chord) && keys[chord]
                == configured[chord]
            &&& !configured.dom().contains(chord) && asked.dom().contains(chord)
                ==> keys.dom().contains(chord) && keys[chord] == asked[chord]
            &&& !configured.dom().contains(chord) && !asked.dom().contains(chord)
                ==> !keys.dom().contains(chord)
        }),
{
}

} // verus!
