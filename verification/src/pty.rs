//! What the shells report.
//!
//! Everything that arrived is taken in first; only then are panes closed and plugins
//! told, because either can change the layout.

use std::collections::{HashMap, HashSet};
use vstd::prelude::*;
use vstd::string::*;

use crate::effect::{add_effect, nothing, one, Effect, EffectModel, Notice, NoticeModel};

verus! {

/// Something a terminal reports.
#[derive(Debug, PartialEq, Eq)]
pub enum TermEvent {
    /// There is new output.
    Wakeup,
    Title(String),
    ResetTitle,
    /// An answer the terminal wants written back to its program.
    PtyWrite(String),
    ClipboardStore(String),
    /// The program asks for the clipboard; the number finds the request again.
    ClipboardLoad(u64),
    /// It asks for a color of the palette; only the low byte of the index counts.
    ColorRequest(usize, u64),
    /// It asks for the size of its grid.
    TextAreaSizeRequest(u64),
    Bell,
    CursorBlinkingChange,
    MouseCursorDirty,
    ChildExit,
    Exit,
}

/// What a pane's terminal reports.
#[derive(Debug, PartialEq, Eq)]
pub struct PaneEvent {
    pub pane: u64,
    pub event: TermEvent,
}

/// What is remembered about panes.
pub struct PaneNotes {
    /// Titles reported by each pane's program, for tab labels.
    pub titles: HashMap<u64, String>,
    /// Panes that produced output since their tab was last looked at.
    pub activity: HashSet<u64>,
}

/// The notes as a mathematical value.
#[verifier::ext_equal]
pub struct NotesModel {
    pub titles: Map<u64, Seq<char>>,
    pub activity: Set<u64>,
}

impl View for PaneNotes {
    type V = NotesModel;

    open spec fn view(&self) -> NotesModel {
        NotesModel {
            titles: self.titles@.map_values(|t: String| t@),
            activity: self.activity@,
        }
    }
}

/// What has been taken in of a batch of reports.
#[verifier::ext_equal]
pub struct Drained {
    pub notes: NotesModel,
    pub redraw: bool,
    pub exited: Seq<u64>,
    pub bells: Seq<u64>,
    pub named: Seq<(u64, Seq<char>)>,
    pub effects: Seq<EffectModel>,
}

impl Drained {
    pub open spec fn start(notes: NotesModel) -> Drained {
        Drained {
            notes,
            redraw: false,
            exited: Seq::empty(),
            bells: Seq::empty(),
            named: Seq::empty(),
            effects: Seq::empty(),
        }
    }

    pub open spec fn after(self, effect: EffectModel) -> Drained {
        Drained { effects: self.effects.push(effect), ..self }
    }

    /// One report taken in.
    pub open spec fn took(self, e: PaneEvent, visible: Seq<u64>, active: u64, dynamic_title: bool) -> Drained {
        let pane = e.pane;
        match e.event {
            TermEvent::Wakeup => Drained {
                redraw: true,
                // Output in a pane nobody is looking at is what a tab's dot reports.
                notes: NotesModel {
                    activity: if visible.contains(pane) {
                        self.notes.activity
                    } else {
                        self.notes.activity.insert(pane)
                    },
                    ..self.notes
                },
                ..self
            },
            TermEvent::Title(title) => Drained {
                notes: NotesModel {
                    titles: self.notes.titles.insert(pane, title@),
                    ..self.notes
                },
                named: self.named.push((pane, title@)),
                effects: self.effects + EffectModel::when(
                    dynamic_title && pane == active,
                    seq![EffectModel::SetTitle(title@)],
                ),
                ..self
            },
            TermEvent::ResetTitle => self.after(EffectModel::ConfiguredTitle),
            TermEvent::PtyWrite(text) => self.after(
                EffectModel::WritePane(pane, vstd::utf8::encode_utf8(text@)),
            ),
            TermEvent::ClipboardStore(text) => self.after(EffectModel::SetClipboard(text@)),
            TermEvent::ClipboardLoad(token) => self.after(
                EffectModel::AnswerClipboard(pane, token),
            ),
            TermEvent::ColorRequest(index, token) => self.after(
                EffectModel::AnswerColor(pane, token, (index % 256) as u8),
            ),
            TermEvent::TextAreaSizeRequest(token) => self.after(
                EffectModel::AnswerSize(pane, token),
            ),
            TermEvent::Bell => Drained { bells: self.bells.push(pane), ..self },
            TermEvent::CursorBlinkingChange => Drained { redraw: true, ..self },
            TermEvent::MouseCursorDirty => self,
            TermEvent::ChildExit => Drained { exited: self.exited.push(pane), ..self },
            TermEvent::Exit => Drained { exited: self.exited.push(pane), ..self },
        }
    }

    /// The first `n` reports taken in.
    pub open spec fn of(
        notes: NotesModel,
        events: Seq<PaneEvent>,
        visible: Seq<u64>,
        active: u64,
        dynamic_title: bool,
        n: int,
    ) -> Drained
        decreases n,
    {
        if n <= 0 {
            Drained::start(notes)
        } else {
            Drained::of(notes, events, visible, active, dynamic_title, n - 1).took(
                events[n - 1],
                visible,
                active,
                dynamic_title,
            )
        }
    }

    /// The notes without the panes that are gone.
    pub open spec fn forgotten(notes: NotesModel, panes: Seq<u64>) -> NotesModel
        decreases panes.len(),
    {
        if panes.len() == 0 {
            notes
        } else {
            let before = Drained::forgotten(notes, panes.drop_last());
            NotesModel {
                titles: before.titles.remove(panes.last()),
                activity: before.activity.remove(panes.last()),
            }
        }
    }

    /// The panes whose shell is gone, closed in order.
    pub open spec fn closings(panes: Seq<u64>) -> Seq<EffectModel>
        decreases panes.len(),
    {
        if panes.len() == 0 {
            Seq::empty()
        } else {
            Drained::closings(panes.drop_last()) + seq![
                EffectModel::MarkExited(panes.last()),
                EffectModel::ClosePane(panes.last()),
            ]
        }
    }

    /// What plugins are told, bells first.
    pub open spec fn notices(self) -> Seq<EffectModel> {
        Seq::new(
            self.bells.len(),
            |i: int| EffectModel::NotifyPlugins(NoticeModel::Bell(self.bells[i])),
        ) + Seq::new(
            self.named.len(),
            |i: int|
                EffectModel::NotifyPlugins(
                    NoticeModel::TitleChange(self.named[i].0, self.named[i].1),
                ),
        )
    }

    /// Everything to do about the batch.
    pub open spec fn outcome(self) -> Seq<EffectModel> {
        self.effects + Drained::closings(self.exited) + self.notices() + EffectModel::when(
            self.redraw || self.exited.len() > 0,
            seq![EffectModel::Redraw],
        )
    }
}

/// The panes and titles of a list.
pub open spec fn names(list: Seq<(u64, String)>) -> Seq<(u64, Seq<char>)> {
    Seq::new(list.len(), |i: int| (list[i].0, list[i].1@))
}

fn among(panes: &Vec<u64>, pane: u64) -> (b: bool)
    ensures
        b == panes@.contains(pane),
{
    let mut i: usize = 0;
    while i < panes.len()
        invariant
            i <= panes@.len(),
            forall|j: int| 0 <= j < i ==> panes@[j] != pane,
        decreases panes@.len() - i,
    {
        if panes[i] == pane {
            assert(panes@[i as int] == pane);
            return true;
        }
        i += 1;
    }
    false
}

impl PaneNotes {
    pub fn new() -> (notes: Self)
        ensures
            notes@ == (NotesModel { titles: Map::empty(), activity: Set::empty() }),
    {
        broadcast use vstd::std_specs::hash::group_hash_axioms;

        let notes = PaneNotes { titles: HashMap::new(), activity: HashSet::new() };
        assert(notes@ =~= NotesModel { titles: Map::empty(), activity: Set::empty() });
        notes
    }

    fn set_title(&mut self, pane: u64, title: String)
        ensures
            final(self)@ == (NotesModel {
                titles: old(self)@.titles.insert(pane, title@),
                ..old(self)@
            }),
    {
        broadcast use vstd::std_specs::hash::group_hash_axioms;

        self.titles.insert(pane, title);
        assert(self@.titles =~= old(self)@.titles.insert(pane, title@));
    }

    fn note_activity(&mut self, pane: u64)
        ensures
            final(self)@ == (NotesModel {
                activity: old(self)@.activity.insert(pane),
                ..old(self)@
            }),
    {
        broadcast use vstd::std_specs::hash::group_hash_axioms;

        self.activity.insert(pane);
    }

    fn look_at(&mut self, pane: u64)
        ensures
            final(self)@ == (NotesModel {
                activity: old(self)@.activity.remove(pane),
                ..old(self)@
            }),
    {
        broadcast use vstd::std_specs::hash::group_hash_axioms;

        self.activity.remove(&pane);
    }

    fn forget(&mut self, pane: u64)
        ensures
            final(self)@ == (NotesModel {
                titles: old(self)@.titles.remove(pane),
                activity: old(self)@.activity.remove(pane),
            }),
    {
        broadcast use vstd::std_specs::hash::group_hash_axioms;

        self.titles.remove(&pane);
        self.activity.remove(&pane);
        assert(self@.titles =~= old(self)@.titles.remove(pane));
    }

    /// The title a pane's program reports.
    pub fn title(&self, pane: u64) -> (title: Option<&String>)
        ensures
            match title {
                Some(t) => self@.titles.dom().contains(pane) && t@ == self@.titles[pane],
                None => !self@.titles.dom().contains(pane),
            },
    {
        broadcast use vstd::std_specs::hash::group_hash_axioms;

        self.titles.get(&pane)
    }

    /// Whether a tab shows activity: one of its panes has some, and it is not the tab
    /// being looked at.
    pub fn shows_activity(&self, panes: &Vec<u64>, looked_at: bool) -> (b: bool)
        ensures
            b == (!looked_at && exists|i: int|
                0 <= i < panes@.len() && self@.activity.contains(#[trigger] panes@[i])),
    {
        broadcast use vstd::std_specs::hash::group_hash_axioms;

        if looked_at {
            return false;
        }
        let mut i: usize = 0;
        while i < panes.len()
            invariant
                !looked_at,
                i <= panes@.len(),
                forall|j: int| 0 <= j < i ==> !self@.activity.contains(#[trigger] panes@[j]),
            decreases panes@.len() - i,
        {
            if self.activity.contains(&panes[i]) {
                assert(self@.activity.contains(panes@[i as int]));
                return true;
            }
            i += 1;
        }
        false
    }

    /// The activity that is left once these panes are looked at.
    pub open spec fn unseen(activity: Set<u64>, panes: Seq<u64>) -> Set<u64> {
        activity.difference(panes.to_set())
    }

    /// Another tab is on screen: its panes are looked at, and the plugins are told.
    pub fn tab_activated(&mut self, visible: &Vec<u64>, index: u32) -> (effects: Vec<Effect>)
        ensures
            final(self)@ == (NotesModel {
                activity: PaneNotes::unseen(old(self)@.activity, visible@),
                ..old(self)@
            }),
            EffectModel::all(effects@) == seq![
                EffectModel::NotifyPlugins(NoticeModel::TabSwitch(index)),
            ],
    {
        let mut i: usize = 0;
        assert(PaneNotes::unseen(self@.activity, visible@.take(0)) =~= self@.activity);
        while i < visible.len()
            invariant
                i <= visible@.len(),
                self@.titles == old(self)@.titles,
                self@.activity == PaneNotes::unseen(old(self)@.activity, visible@.take(i as int)),
            decreases visible@.len() - i,
        {
            self.look_at(visible[i]);
            i += 1;
            assert(self@.activity =~= PaneNotes::unseen(
                old(self)@.activity,
                visible@.take(i as int),
            )) by {
                let seen = visible@.take(i as int);
                let before = visible@.take(i - 1);
                assert(seen =~= before.push(visible@[i - 1]));
                assert forall|p: u64| seen.contains(p) == (before.contains(p) || p == visible@[i
                    - 1]) by {
                    if before.contains(p) {
                        let k = choose|k: int| 0 <= k < before.len() && before[k] == p;
                        assert(seen[k] == p);
                    }
                    if p == visible@[i - 1] {
                        assert(seen[i - 1] == p);
                    }
                    if seen.contains(p) {
                        let k = choose|k: int| 0 <= k < seen.len() && seen[k] == p;
                        if k < before.len() {
                            assert(before[k] == p);
                        }
                    }
                }
            }
        }
        assert(visible@.take(i as int) =~= visible@);
        one(Effect::NotifyPlugins(Notice::TabSwitch(index)))
    }

    /// Take in everything the terminals reported. `active` is the focused pane and
    /// `visible` those on screen; `dynamic_title` says that programs set the window's
    /// title.
    pub fn drain_pty_events(
        &mut self,
        events: &Vec<PaneEvent>,
        visible: &Vec<u64>,
        active: u64,
        dynamic_title: bool,
    ) -> (effects: Vec<Effect>)
        ensures
            ({
                let drained = Drained::of(
                    old(self)@,
                    events@,
                    visible@,
                    active,
                    dynamic_title,
                    events@.len() as int,
                );
                &&& final(self)@ == Drained::forgotten(drained.notes, drained.exited)
                &&& EffectModel::all(effects@) == drained.outcome()
            }),
    {
        let mut effects = nothing();
        let mut redraw = false;
        let mut exited: Vec<u64> = Vec::new();
        let mut bells: Vec<u64> = Vec::new();
        let mut titles: Vec<(u64, String)> = Vec::new();
        let ghost start = self@;
        let ghost mut drained = Drained::start(start);
        assert(names(titles@) =~= Seq::empty());
        let mut i: usize = 0;
        while i < events.len()
            invariant
                i <= events@.len(),
                drained == Drained::of(start, events@, visible@, active, dynamic_title, i as int),
                drained.notes == self@,
                drained.redraw == redraw,
                drained.exited == exited@,
                drained.bells == bells@,
                drained.named == names(titles@),
                drained.effects == EffectModel::all(effects@),
            decreases events@.len() - i,
        {
            let pane: u64 = events[i].pane;
            let ghost before = drained;
            proof {
                drained = before.took(events@[i as int], visible@, active, dynamic_title);
            }
            match &events[i].event {
                TermEvent::Wakeup => {
                    redraw = true;
                    if !among(visible, pane) {
                        self.note_activity(pane);
                    }
                },
                TermEvent::Title(title) => {
                    if dynamic_title && pane == active {
                        add_effect(&mut effects, Effect::SetTitle(title.clone()));
                    }
                    assert(EffectModel::all(effects@) =~= drained.effects);
                    self.set_title(pane, title.clone());
                    let ghost named = names(titles@);
                    titles.push((pane, title.clone()));
                    assert(names(titles@) =~= named.push((pane, title@)));
                },
                TermEvent::ResetTitle => {
                    add_effect(&mut effects, Effect::ConfiguredTitle);
                },
                TermEvent::PtyWrite(text) => {
                    add_effect(
                        &mut effects,
                        Effect::WritePane(pane, text.as_str().as_bytes_vec()),
                    );
                },
                TermEvent::ClipboardStore(text) => {
                    add_effect(&mut effects, Effect::SetClipboard(text.clone()));
                },
                TermEvent::ClipboardLoad(token) => {
                    add_effect(&mut effects, Effect::AnswerClipboard(pane, *token));
                },
                TermEvent::ColorRequest(index, token) => {
                    add_effect(&mut effects, Effect::AnswerColor(pane, *token, (*index % 256) as u8));
                },
                TermEvent::TextAreaSizeRequest(token) => {
                    add_effect(&mut effects, Effect::AnswerSize(pane, *token));
                },
                TermEvent::Bell => {
                    bells.push(pane);
                },
                TermEvent::CursorBlinkingChange => {
                    redraw = true;
                },
                TermEvent::MouseCursorDirty => {},
                TermEvent::ChildExit => {
                    exited.push(pane);
                },
                TermEvent::Exit => {
                    exited.push(pane);
                },
            }
            i += 1;
        }
        self.close_exited(&mut effects, &exited);
        if exited.len() > 0 {
            redraw = true;
        }
        let ghost closed = EffectModel::all(effects@);
        let mut k: usize = 0;
        let ghost rung = Seq::new(
            bells@.len(),
            |i: int| EffectModel::NotifyPlugins(NoticeModel::Bell(bells@[i])),
        );
        while k < bells.len()
            invariant
                k <= bells@.len(),
                rung == Seq::new(
                    bells@.len(),
                    |i: int| EffectModel::NotifyPlugins(NoticeModel::Bell(bells@[i])),
                ),
                EffectModel::all(effects@) =~= closed + rung.take(k as int),
            decreases bells@.len() - k,
        {
            add_effect(&mut effects, Effect::NotifyPlugins(Notice::Bell(bells[k])));
            k += 1;
            assert(rung.take(k as int) =~= rung.take(k - 1).push(rung[k - 1]));
        }
        assert(rung.take(k as int) =~= rung);
        let ghost told = EffectModel::all(effects@);
        let ghost renamed = Seq::new(
            names(titles@).len(),
            |i: int|
                EffectModel::NotifyPlugins(
                    NoticeModel::TitleChange(names(titles@)[i].0, names(titles@)[i].1),
                ),
        );
        let mut t: usize = 0;
        while t < titles.len()
            invariant
                t <= titles@.len(),
                renamed == Seq::new(
                    names(titles@).len(),
                    |i: int|
                        EffectModel::NotifyPlugins(
                            NoticeModel::TitleChange(names(titles@)[i].0, names(titles@)[i].1),
                        ),
                ),
                EffectModel::all(effects@) =~= told + renamed.take(t as int),
            decreases titles@.len() - t,
        {
            assert(names(titles@)[t as int] == (titles@[t as int].0, titles@[t as int].1@));
            add_effect(
                &mut effects,
                Effect::NotifyPlugins(Notice::TitleChange(titles[t].0, titles[t].1.clone())),
            );
            t += 1;
            assert(renamed.take(t as int) =~= renamed.take(t - 1).push(renamed[t - 1]));
        }
        assert(renamed.take(t as int) =~= renamed);
        if redraw {
            add_effect(&mut effects, Effect::Redraw);
        }
        assert(EffectModel::all(effects@) =~= drained.outcome());
        effects
    }

    fn close_exited(&mut self, effects: &mut Vec<Effect>, exited: &Vec<u64>)
        ensures
            final(self)@ == Drained::forgotten(old(self)@, exited@),
            EffectModel::all(final(effects)@) == EffectModel::all(old(effects)@)
                + Drained::closings(exited@),
    {
        let ghost start = EffectModel::all(effects@);
        let mut i: usize = 0;
        assert(exited@.take(0) =~= Seq::empty());
        while i < exited.len()
            invariant
                i <= exited@.len(),
                self@ == Drained::forgotten(old(self)@, exited@.take(i as int)),
                EffectModel::all(effects@) =~= start + Drained::closings(exited@.take(i as int)),
            decreases exited@.len() - i,
        {
            let pane: u64 = exited[i];
            add_effect(effects, Effect::MarkExited(pane));
            self.forget(pane);
            add_effect(effects, Effect::ClosePane(pane));
            i += 1;
            assert(exited@.take(i as int).drop_last() =~= exited@.take(i - 1));
        }
        assert(exited@.take(i as int) =~= exited@);
    }
}

proof fn lemma_forgotten(notes: NotesModel, panes: Seq<u64>, pane: u64)
    ensures
        panes.contains(pane) ==> !Drained::forgotten(notes, panes).activity.contains(pane)
            && !Drained::forgotten(notes, panes).titles.dom().contains(pane),
        !notes.activity.contains(pane) ==> !Drained::forgotten(notes, panes).activity.contains(pane),
    decreases panes.len(),
{
    if panes.len() > 0 {
        let head = panes.drop_last();
        lemma_forgotten(notes, head, pane);
        if panes.contains(pane) && pane != panes.last() {
            let k = choose|k: int| 0 <= k < panes.len() && panes[k] == pane;
            assert(head[k] == pane);
        }
    }
}

/// Nothing is remembered of a pane whose shell is gone.
pub proof fn law_closed_panes_are_forgotten(
    notes: NotesModel,
    events: Seq<PaneEvent>,
    visible: Seq<u64>,
    active: u64,
    dynamic_title: bool,
    pane: u64,
)
    ensures
        ({
            let drained = Drained::of(
                notes,
                events,
                visible,
                active,
                dynamic_title,
                events.len() as int,
            );
            let after = Drained::forgotten(drained.notes, drained.exited);
            drained.exited.contains(pane) ==> !after.activity.contains(pane)
                && !after.titles.dom().contains(pane)
        }),
{
    let drained = Drained::of(notes, events, visible, active, dynamic_title, events.len() as int);
    lemma_forgotten(drained.notes, drained.exited, pane);
}

proof fn lemma_visible_quiet(
    notes: NotesModel,
    events: Seq<PaneEvent>,
    visible: Seq<u64>,
    active: u64,
    dynamic_title: bool,
    pane: u64,
    n: int,
)
    requires
        visible.contains(pane),
        !notes.activity.contains(pane),
        0 <= n <= events.len(),
    ensures
        !Drained::of(
            notes,
            events,
            visible,
            active,
            dynamic_title,
            n,
        ).notes.activity.contains(pane),
    decreases n,
{
    if n > 0 {
        lemma_visible_quiet(notes, events, visible, active, dynamic_title, pane, n - 1);
    }
}

/// A pane on screen never counts as having unseen output, whatever arrives.
pub proof fn law_visible_panes_show_no_activity(
    notes: NotesModel,
    events: Seq<PaneEvent>,
    visible: Seq<u64>,
    active: u64,
    dynamic_title: bool,
    pane: u64,
)
    requires
        visible.contains(pane),
        !notes.activity.contains(pane),
    ensures
        ({
            let drained = Drained::of(
                notes,
                events,
                visible,
                active,
                dynamic_title,
                events.len() as int,
            );
            !Drained::forgotten(drained.notes, drained.exited).activity.contains(pane)
        }),
{
    lemma_visible_quiet(
        notes,
        events,
        visible,
        active,
        dynamic_title,
        pane,
        events.len() as int,
    );
    let drained = Drained::of(notes, events, visible, active, dynamic_title, events.len() as int);
    lemma_forgotten(drained.notes, drained.exited, pane);
}

} // verus!
