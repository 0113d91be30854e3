//! What becomes of what the shells report, and of the passing of time.

use vstd::prelude::*;

use crate::effect::{EffectModel, NoticeModel};
use crate::pty::{Drained, NotesModel, PaneEvent, TermEvent};
use crate::timing::{Blink, BlinkConfig, NotificationModel};

verus! {

/// What a batch of reports comes to.
pub open spec fn answers(
    notes: NotesModel,
    events: Seq<PaneEvent>,
    visible: Seq<u64>,
    active: u64,
    dynamic_title: bool,
) -> Seq<EffectModel> {
    Drained::of(notes, events, visible, active, dynamic_title, events.len() as int).outcome()
}

/// What is remembered after a batch of reports.
pub open spec fn remembered(
    notes: NotesModel,
    events: Seq<PaneEvent>,
    visible: Seq<u64>,
    active: u64,
    dynamic_title: bool,
) -> NotesModel {
    let drained = Drained::of(notes, events, visible, active, dynamic_title, events.len() as int);
    Drained::forgotten(drained.notes, drained.exited)
}

/// Taking in more keeps what was taken in.
proof fn lemma_taken(
    notes: NotesModel,
    events: Seq<PaneEvent>,
    visible: Seq<u64>,
    active: u64,
    dynamic_title: bool,
    m: int,
    n: int,
)
    requires
        0 <= m <= n <= events.len(),
    ensures
        ({
            let before = Drained::of(notes, events, visible, active, dynamic_title, m);
            let after = Drained::of(notes, events, visible, active, dynamic_title, n);
            &&& forall|e: EffectModel| before.effects.contains(e) ==> #[trigger] after.effects.contains(e)
            &&& forall|p: u64| before.exited.contains(p) ==> #[trigger] after.exited.contains(p)
            &&& forall|p: u64| before.bells.contains(p) ==> #[trigger] after.bells.contains(p)
            &&& forall|p: (u64, Seq<char>)| before.named.contains(p) ==> #[trigger] after.named.contains(p)
            &&& before.redraw ==> after.redraw
        }),
    decreases n,
{
    if m < n {
        lemma_taken(notes, events, visible, active, dynamic_title, m, n - 1);
        let before = Drained::of(notes, events, visible, active, dynamic_title, n - 1);
        let after = Drained::of(notes, events, visible, active, dynamic_title, n);
        assert forall|e: EffectModel| before.effects.contains(e) implies #[trigger]
            after.effects.contains(e) by {
            let k = choose|k: int| 0 <= k < before.effects.len() && before.effects[k] == e;
            assert(after.effects[k] == e);
        }
        assert forall|p: u64| before.exited.contains(p) implies #[trigger] after.exited.contains(p) by {
            let k = choose|k: int| 0 <= k < before.exited.len() && before.exited[k] == p;
            assert(after.exited[k] == p);
        }
        assert forall|p: u64| before.bells.contains(p) implies #[trigger] after.bells.contains(p) by {
            let k = choose|k: int| 0 <= k < before.bells.len() && before.bells[k] == p;
            assert(after.bells[k] == p);
        }
        assert forall|p: (u64, Seq<char>)| before.named.contains(p) implies #[trigger]
            after.named.contains(p) by {
            let k = choose|k: int| 0 <= k < before.named.len() && before.named[k] == p;
            assert(after.named[k] == p);
        }
    }
}

proof fn lemma_closings(panes: Seq<u64>, pane: u64)
    ensures
        panes.contains(pane) ==> Drained::closings(panes).contains(EffectModel::MarkExited(pane))
            && Drained::closings(panes).contains(EffectModel::ClosePane(pane)),
        forall|k: int|
            0 <= k < Drained::closings(panes).len() ==> ((
            #[trigger] Drained::closings(panes)[k] matches EffectModel::MarkExited(p)
                && panes.contains(p)) || (Drained::closings(panes)[k] matches
                EffectModel::ClosePane(p) && panes.contains(p))),
    decreases panes.len(),
{
    if panes.len() > 0 {
        let head = panes.drop_last();
        let before = Drained::closings(head);
        let all = Drained::closings(panes);
        lemma_closings(head, pane);
        assert(all[before.len() as int] == EffectModel::MarkExited(panes.last()));
        assert(all[before.len() as int + 1] == EffectModel::ClosePane(panes.last()));
        assert(panes[panes.len() - 1] == panes.last());
        if panes.contains(pane) && pane != panes.last() {
            let k = choose|k: int| 0 <= k < panes.len() && panes[k] == pane;
            assert(head[k] == pane);
            let a = choose|a: int|
                0 <= a < before.len() && before[a] == EffectModel::MarkExited(pane);
            let b = choose|b: int|
                0 <= b < before.len() && before[b] == EffectModel::ClosePane(pane);
            assert(all[a] == before[a] && all[b] == before[b]);
        }
        assert forall|p: u64| head.contains(p) implies panes.contains(p) by {
            let k = choose|k: int| 0 <= k < head.len() && head[k] == p;
            assert(panes[k] == p);
        }
        assert forall|k: int| 0 <= k < all.len() implies ((#[trigger] all[k] matches
            EffectModel::MarkExited(p) && panes.contains(p)) || (all[k] matches
            EffectModel::ClosePane(p) && panes.contains(p))) by {
            if k < before.len() {
                assert(all[k] == before[k]);
            }
        }
    }
}

proof fn lemma_outcome(d: Drained)
    ensures
        forall|e: EffectModel| d.effects.contains(e) ==> #[trigger] d.outcome().contains(e),
        forall|p: u64|
            #![trigger d.exited.contains(p)]
            d.exited.contains(p) ==> d.outcome().contains(EffectModel::MarkExited(p))
                && d.outcome().contains(EffectModel::ClosePane(p)),
        forall|p: u64|
            #![trigger d.bells.contains(p)]
            d.bells.contains(p) ==> d.outcome().contains(
                EffectModel::NotifyPlugins(NoticeModel::Bell(p)),
            ),
        forall|p: (u64, Seq<char>)|
            #![trigger d.named.contains(p)]
            d.named.contains(p) ==> d.outcome().contains(
                EffectModel::NotifyPlugins(NoticeModel::TitleChange(p.0, p.1)),
            ),
        d.redraw || d.exited.len() > 0 ==> d.outcome().contains(EffectModel::Redraw),
{
    let out = d.outcome();
    let closings = Drained::closings(d.exited);
    let (a, b, c) = (d.effects.len(), closings.len(), d.bells.len());
    assert forall|e: EffectModel| d.effects.contains(e) implies #[trigger] out.contains(e) by {
        let k = choose|k: int| 0 <= k < d.effects.len() && d.effects[k] == e;
        assert(out[k] == e);
    }
    assert forall|p: u64| #![trigger d.exited.contains(p)] d.exited.contains(p) implies out.contains(
        EffectModel::MarkExited(p),
    ) && out.contains(EffectModel::ClosePane(p)) by {
        lemma_closings(d.exited, p);
        let i = choose|i: int| 0 <= i < b && closings[i] == EffectModel::MarkExited(p);
        let j = choose|j: int| 0 <= j < b && closings[j] == EffectModel::ClosePane(p);
        assert(out[a + i] == closings[i] && out[a + j] == closings[j]);
    }
    assert forall|p: u64| #![trigger d.bells.contains(p)] d.bells.contains(p) implies out.contains(
        EffectModel::NotifyPlugins(NoticeModel::Bell(p)),
    ) by {
        let k = choose|k: int| 0 <= k < c && d.bells[k] == p;
        assert(out[a + b + k] == EffectModel::NotifyPlugins(NoticeModel::Bell(p)));
    }
    assert forall|p: (u64, Seq<char>)| #![trigger d.named.contains(p)] d.named.contains(
        p,
    ) implies out.contains(EffectModel::NotifyPlugins(NoticeModel::TitleChange(p.0, p.1))) by {
        let k = choose|k: int| 0 <= k < d.named.len() && d.named[k] == p;
        assert(out[a + b + c + k] == EffectModel::NotifyPlugins(
            NoticeModel::TitleChange(p.0, p.1),
        ));
    }
    if d.redraw || d.exited.len() > 0 {
        assert(out[out.len() - 1] == EffectModel::Redraw);
    }
}

/// No report is lost: what a program asks for is answered to that program's own pane, what
/// it sends back is written to it, a shell that ended has its pane closed, and plugins hear
/// of bells and titles. Output is drawn.
pub proof fn law_every_report_is_acted_on(
    notes: NotesModel,
    events: Seq<PaneEvent>,
    visible: Seq<u64>,
    active: u64,
    dynamic_title: bool,
    i: int,
)
    requires
        0 <= i < events.len(),
    ensures
        ({
            let out = answers(notes, events, visible, active, dynamic_title);
            let pane = events[i].pane;
            match events[i].event {
                TermEvent::Wakeup => out.contains(EffectModel::Redraw),
                TermEvent::Title(title) => {
                    &&& out.contains(
                        EffectModel::NotifyPlugins(NoticeModel::TitleChange(pane, title@)),
                    )
                    &&& dynamic_title && pane == active ==> out.contains(
                        EffectModel::SetTitle(title@),
                    )
                },
                TermEvent::ResetTitle => out.contains(EffectModel::ConfiguredTitle),
                TermEvent::PtyWrite(text) => out.contains(
                    EffectModel::WritePane(pane, vstd::utf8::encode_utf8(text@)),
                ),
                TermEvent::ClipboardStore(text) => out.contains(EffectModel::SetClipboard(text@)),
                TermEvent::ClipboardLoad(token) => out.contains(
                    EffectModel::AnswerClipboard(pane, token),
                ),
                TermEvent::ColorRequest(index, token) => index < 256 ==> out.contains(
                    EffectModel::AnswerColor(pane, token, index as u8),
                ),
                TermEvent::TextAreaSizeRequest(token) => out.contains(
                    EffectModel::AnswerSize(pane, token),
                ),
                TermEvent::Bell => out.contains(EffectModel::NotifyPlugins(NoticeModel::Bell(pane))),
                TermEvent::CursorBlinkingChange => out.contains(EffectModel::Redraw),
                TermEvent::MouseCursorDirty => true,
                TermEvent::ChildExit => out.contains(EffectModel::MarkExited(pane))
                    && out.contains(EffectModel::ClosePane(pane)) && out.contains(
                    EffectModel::Redraw,
                ),
                TermEvent::Exit => out.contains(EffectModel::MarkExited(pane)) && out.contains(
                    EffectModel::ClosePane(pane),
                ) && out.contains(EffectModel::Redraw),
            }
        }),
{
    let n = events.len() as int;
    let d = Drained::of(notes, events, visible, active, dynamic_title, n);
    let before = Drained::of(notes, events, visible, active, dynamic_title, i);
    let then = Drained::of(notes, events, visible, active, dynamic_title, i + 1);
    lemma_taken(notes, events, visible, active, dynamic_title, i + 1, n);
    lemma_outcome(d);
    assert(then == before.took(events[i], visible, active, dynamic_title));
    if then.effects.len() > before.effects.len() {
        assert(then.effects.contains(then.effects[before.effects.len() as int]));
    }
    if then.exited.len() > before.exited.len() {
        assert(then.exited.contains(then.exited[before.exited.len() as int]));
        assert(d.exited.contains(events[i].pane));
    }
    if then.bells.len() > before.bells.len() {
        assert(then.bells.contains(then.bells[before.bells.len() as int]));
        assert(d.bells.contains(events[i].pane));
    }
    if let TermEvent::Title(title) = events[i].event {
        assert(then.named.contains(then.named[before.named.len() as int]));
        assert(d.named.contains((events[i].pane, title@)));
    }
}

/// Nothing is done that no report called for: a pane is closed only after its shell ended,
/// and nothing is written to a pane but what its own terminal sent back.
pub proof fn law_nothing_else_is_done(
    notes: NotesModel,
    events: Seq<PaneEvent>,
    visible: Seq<u64>,
    active: u64,
    dynamic_title: bool,
    pane: u64,
    bytes: Seq<u8>,
    text: Seq<char>,
)
    ensures
        ({
            let out = answers(notes, events, visible, active, dynamic_title);
            &&& out.contains(EffectModel::ClosePane(pane)) ==> exists|i: int|
                0 <= i < events.len() && (#[trigger] events[i]).pane == pane && (
                events[i].event is Exit || events[i].event is ChildExit)
            &&& out.contains(EffectModel::WritePane(pane, bytes)) ==> exists|i: int|
                0 <= i < events.len() && (#[trigger] events[i]).pane == pane && (
                events[i].event matches TermEvent::PtyWrite(t) && bytes
                    == vstd::utf8::encode_utf8(t@))
            &&& out.contains(EffectModel::SetClipboard(text)) ==> exists|i: int|
                0 <= i < events.len() && ((#[trigger] events[i]).event matches
                    TermEvent::ClipboardStore(t) && t@ == text)
            &&& out.contains(EffectModel::SetTitle(text)) ==> dynamic_title && exists|i: int|
                0 <= i < events.len() && (#[trigger] events[i]).pane == active && (
                events[i].event matches TermEvent::Title(t) && t@ == text)
            &&& !out.contains(EffectModel::Exit)
        }),
{
    let d = Drained::of(notes, events, visible, active, dynamic_title, events.len() as int);
    let n = events.len() as int;
    let out = d.outcome();
    let closings = Drained::closings(d.exited);
    lemma_sources(notes, events, visible, active, dynamic_title, n);
    lemma_closings(d.exited, pane);
    assert forall|e: EffectModel| out.contains(e) implies d.effects.contains(e)
        || closings.contains(e) || e is NotifyPlugins || e is Redraw by {
        let k = choose|k: int| 0 <= k < out.len() && out[k] == e;
        let a = d.effects.len() as int;
        let b = closings.len() as int;
        if k < a {
            assert(d.effects[k] == e);
        } else if k < a + b {
            assert(closings[k - a] == e);
        }
    }
    assert forall|e: EffectModel| d.effects.contains(e) implies exists|i: int|
        0 <= i < n && asked_by(e, #[trigger] events[i], active, dynamic_title) by {
        let k = choose|k: int| 0 <= k < d.effects.len() && d.effects[k] == e;
        assert(d.effects[k] == e);
    }
    assert forall|e: EffectModel| closings.contains(e) implies (e is MarkExited
        || e is ClosePane) by {
        let k = choose|k: int| 0 <= k < closings.len() && closings[k] == e;
        assert(closings[k] == e);
    }
    if out.contains(EffectModel::ClosePane(pane)) {
        let e = EffectModel::ClosePane(pane);
        assert(closings.contains(e)) by {
            if d.effects.contains(e) {
                let i = choose|i: int|
                    0 <= i < n && asked_by(e, #[trigger] events[i], active, dynamic_title);
                assert(asked_by(e, events[i], active, dynamic_title));
            }
        }
        let k = choose|k: int| 0 <= k < closings.len() && closings[k] == e;
        assert(closings[k] == e);
        assert(d.exited.contains(pane));
    }
    if out.contains(EffectModel::WritePane(pane, bytes)) {
        let e = EffectModel::WritePane(pane, bytes);
        let i = choose|i: int| 0 <= i < n && asked_by(e, #[trigger] events[i], active, dynamic_title);
        assert(asked_by(e, events[i], active, dynamic_title));
    }
    if out.contains(EffectModel::SetClipboard(text)) {
        let e = EffectModel::SetClipboard(text);
        let i = choose|i: int| 0 <= i < n && asked_by(e, #[trigger] events[i], active, dynamic_title);
        assert(asked_by(e, events[i], active, dynamic_title));
    }
    if out.contains(EffectModel::SetTitle(text)) {
        let e = EffectModel::SetTitle(text);
        let i = choose|i: int| 0 <= i < n && asked_by(e, #[trigger] events[i], active, dynamic_title);
        assert(asked_by(e, events[i], active, dynamic_title));
    }
    if out.contains(EffectModel::Exit) {
        let e = EffectModel::Exit;
        let i = choose|i: int| 0 <= i < n && asked_by(e, #[trigger] events[i], active, dynamic_title);
        assert(asked_by(e, events[i], active, dynamic_title));
    }
}

/// An effect that this report alone calls for.
pub open spec fn asked_by(e: EffectModel, by: PaneEvent, active: u64, dynamic_title: bool) -> bool {
    match e {
        EffectModel::SetTitle(t) => dynamic_title && by.pane == active && (by.event matches
            TermEvent::Title(title) && title@ == t),
        EffectModel::ConfiguredTitle => by.event is ResetTitle,
        EffectModel::WritePane(p, b) => by.pane == p && (by.event matches TermEvent::PtyWrite(t)
            && b == vstd::utf8::encode_utf8(t@)),
        EffectModel::SetClipboard(t) => by.event matches TermEvent::ClipboardStore(s) && s@ == t,
        EffectModel::AnswerClipboard(p, token) => by.pane == p && by.event
            == TermEvent::ClipboardLoad(token),
        EffectModel::AnswerColor(p, token, _) => by.pane == p && (by.event matches
            TermEvent::ColorRequest(_, t) && t == token),
        EffectModel::AnswerSize(p, token) => by.pane == p && by.event
            == TermEvent::TextAreaSizeRequest(token),
        _ => false,
    }
}

proof fn lemma_sources(
    notes: NotesModel,
    events: Seq<PaneEvent>,
    visible: Seq<u64>,
    active: u64,
    dynamic_title: bool,
    n: int,
)
    requires
        0 <= n <= events.len(),
    ensures
        ({
            let d = Drained::of(notes, events, visible, active, dynamic_title, n);
            &&& forall|k: int|
                0 <= k < d.effects.len() ==> exists|i: int|
                    0 <= i < n && asked_by(
                        #[trigger] d.effects[k],
                        #[trigger] events[i],
                        active,
                        dynamic_title,
                    )
            &&& forall|p: u64| #[trigger]
                d.exited.contains(p) ==> exists|i: int|
                    0 <= i < n && (#[trigger] events[i]).pane == p && (events[i].event is Exit
                        || events[i].event is ChildExit)
        }),
    decreases n,
{
    if n > 0 {
        lemma_sources(notes, events, visible, active, dynamic_title, n - 1);
        let before = Drained::of(notes, events, visible, active, dynamic_title, n - 1);
        let d = Drained::of(notes, events, visible, active, dynamic_title, n);
        let last = events[n - 1];
        assert(d == before.took(last, visible, active, dynamic_title));
        assert forall|k: int| 0 <= k < d.effects.len() implies exists|i: int|
            0 <= i < n && asked_by(
                #[trigger] d.effects[k],
                #[trigger] events[i],
                active,
                dynamic_title,
            ) by {
            if k < before.effects.len() {
                assert(d.effects[k] == before.effects[k]);
                let i = choose|i: int|
                    0 <= i < n - 1 && asked_by(
                        before.effects[k],
                        #[trigger] events[i],
                        active,
                        dynamic_title,
                    );
                assert(asked_by(d.effects[k], events[i], active, dynamic_title));
            } else {
                assert(asked_by(d.effects[k], events[n - 1], active, dynamic_title));
            }
        }
        assert forall|p: u64| #[trigger] d.exited.contains(p) implies exists|i: int|
            0 <= i < n && (#[trigger] events[i]).pane == p && (events[i].event is Exit
                || events[i].event is ChildExit) by {
            let k = choose|k: int| 0 <= k < d.exited.len() && d.exited[k] == p;
            if k < before.exited.len() {
                assert(before.exited[k] == p);
                assert(before.exited.contains(p));
                let i = choose|i: int|
                    0 <= i < n - 1 && (#[trigger] events[i]).pane == p && (events[i].event is Exit
                        || events[i].event is ChildExit);
                assert(events[i].pane == p);
            } else {
                assert(events[n - 1].pane == p);
            }
        }
    }
}

/// A batch of one report: what it comes to, and what is remembered of it. The title a
/// program reports is its pane's own; output in a pane that nobody looks at is noted, and
/// in one that is on screen is not.
pub proof fn law_one_report(
    notes: NotesModel,
    e: PaneEvent,
    visible: Seq<u64>,
    active: u64,
    dynamic_title: bool,
)
    ensures
        ({
            let out = answers(notes, seq![e], visible, active, dynamic_title);
            let after = remembered(notes, seq![e], visible, active, dynamic_title);
            match e.event {
                TermEvent::Title(title) => {
                    &&& after.titles == notes.titles.insert(e.pane, title@)
                    &&& after.activity == notes.activity
                    &&& !out.contains(EffectModel::Redraw)
                },
                TermEvent::Wakeup => {
                    &&& out == seq![EffectModel::Redraw]
                    &&& after.titles == notes.titles
                    &&& visible.contains(e.pane) ==> after.activity == notes.activity
                    &&& !visible.contains(e.pane) ==> after.activity == notes.activity.insert(
                        e.pane,
                    )
                },
                TermEvent::MouseCursorDirty => after == notes && out == Seq::<
                    EffectModel,
                >::empty(),
                TermEvent::Exit => {
                    &&& out == seq![
                        EffectModel::MarkExited(e.pane),
                        EffectModel::ClosePane(e.pane),
                        EffectModel::Redraw,
                    ]
                    &&& after.titles == notes.titles.remove(e.pane)
                    &&& after.activity == notes.activity.remove(e.pane)
                },
                TermEvent::ChildExit => {
                    &&& out == seq![
                        EffectModel::MarkExited(e.pane),
                        EffectModel::ClosePane(e.pane),
                        EffectModel::Redraw,
                    ]
                    &&& after.titles == notes.titles.remove(e.pane)
                    &&& after.activity == notes.activity.remove(e.pane)
                },
                _ => after == notes,
            }
        }),
{
    let events = seq![e];
    reveal_with_fuel(Drained::of, 2);
    reveal_with_fuel(Drained::forgotten, 2);
    reveal_with_fuel(Drained::closings, 2);
    let d = Drained::of(notes, events, visible, active, dynamic_title, 1);
    assert(events[0] == e);
    assert(d == Drained::start(notes).took(e, visible, active, dynamic_title));
    let out = d.outcome();
    if d.exited.len() == 1 {
        assert(d.exited.drop_last() =~= Seq::empty());
        assert(d.exited.last() == e.pane);
        assert(out =~= seq![
            EffectModel::MarkExited(e.pane),
            EffectModel::ClosePane(e.pane),
            EffectModel::Redraw,
        ]);
    } else {
        assert(d.exited =~= Seq::empty());
    }
    if e.event is Wakeup {
        assert(out =~= seq![EffectModel::Redraw]);
    }
    if e.event is MouseCursorDirty {
        assert(out =~= Seq::empty());
    }
}

/// A message is held for four seconds, fades for six tenths of one, and is gone: it is full
/// while it is held, half gone half way, and never comes back.
pub proof fn law_a_message_fades_away(n: NotificationModel, now: u64)
    requires
        n.shown_at <= now,
    ensures
        now - n.shown_at < 4_000_000 ==> n.opacity(now) == 1000 && n.alive(now) && !n.fading(now),
        4_000_000 <= now - n.shown_at ==> n.fading(now),
        now - n.shown_at == 4_300_000 ==> n.opacity(now) == 500,
        now - n.shown_at >= 4_600_000 ==> n.opacity(now) == 0 && !n.alive(now),
        4_000_000 <= now - n.shown_at < 4_600_000 ==> n.alive(now) && n.opacity(now) == (4_600_000
            - (now - n.shown_at)) / 600,
{
    if 4_000_000 <= now - n.shown_at < 4_600_000 {
        let left = 4_600_000 - (now - n.shown_at);
        vstd::arithmetic::div_mod::lemma_div_denominator(left * 1000, 1000, 600);
        vstd::arithmetic::div_mod::lemma_div_multiples_vanish(left, 1000);
    }
}

/// What is kept of the messages: the ones that are still to be seen, all of them, in their
/// order.
pub proof fn law_messages_are_kept_in_order(list: Seq<NotificationModel>, now: u64)
    ensures
        forall|n: NotificationModel| #[trigger]
            NotificationModel::kept(list, now).contains(n) <==> list.contains(n) && n.alive(now),
        (forall|i: int| 0 <= i < list.len() ==> (#[trigger] list[i]).alive(now))
            ==> NotificationModel::kept(list, now) == list,
        NotificationModel::kept(list, now).len() <= list.len(),
    decreases list.len(),
{
    if list.len() > 0 {
        let head = list.drop_last();
        law_messages_are_kept_in_order(head, now);
        let kept = NotificationModel::kept(list, now);
        let before = NotificationModel::kept(head, now);
        assert(list[list.len() - 1] == list.last());
        assert forall|n: NotificationModel| #[trigger] kept.contains(n) <==> list.contains(n)
            && n.alive(now) by {
            if kept.contains(n) {
                let k = choose|k: int| 0 <= k < kept.len() && kept[k] == n;
                if k < before.len() {
                    assert(before[k] == n);
                    assert(before.contains(n));
                    let j = choose|j: int| 0 <= j < head.len() && head[j] == n;
                    assert(list[j] == n);
                }
            }
            if list.contains(n) && n.alive(now) {
                let j = choose|j: int| 0 <= j < list.len() && list[j] == n;
                if j < head.len() {
                    assert(head[j] == n);
                    assert(before.contains(n));
                    let k = choose|k: int| 0 <= k < before.len() && before[k] == n;
                    assert(kept[k] == n);
                } else {
                    assert(kept[kept.len() - 1] == n);
                }
            }
        }
        if forall|i: int| 0 <= i < list.len() ==> (#[trigger] list[i]).alive(now) {
            assert forall|i: int| 0 <= i < head.len() implies (#[trigger] head[i]).alive(now) by {
                assert(list[i].alive(now));
            }
            assert(kept =~= list);
        }
    }
}

/// The messages that show are the last four, or all of them where there are fewer.
pub proof fn law_the_newest_messages_show(list: Seq<NotificationModel>)
    ensures
        list.len() <= 4 ==> NotificationModel::newest(list) == list,
        list.len() > 4 ==> NotificationModel::newest(list) == list.subrange(
            list.len() - 4,
            list.len() as int,
        ),
{
    if list.len() > 4 {
        assert(NotificationModel::newest(list) =~= list.subrange(
            list.len() - 4,
            list.len() as int,
        ));
    }
}

/// A cursor that blinks flips once its interval is over, and not before; one that does not
/// blink, or has not been typed at for the configured time, shows. Flipping twice is where
/// it was.
pub proof fn law_the_cursor_blinks(blink: Blink, config: BlinkConfig, now: u64, later: u64)
    requires
        blink.at <= now <= later,
        blink.last_input <= now,
    ensures
        ({
            let after = blink.updated(config, now);
            let interval = if config.interval_ms < 50 {
                50_000
            } else {
                config.interval_ms * 1000
            };
            let idle = config.timeout_secs > 0 && now - blink.last_input > config.timeout_secs
                * 1_000_000;
            &&& after.last_input == blink.last_input
            &&& !config.blink || idle ==> after.on && after.at == blink.at
            &&& config.blink && !idle && now - blink.at < interval ==> after == blink
            &&& config.blink && !idle && now - blink.at >= interval ==> after.on == !blink.on
                && after.at == now
            &&& config.blink && config.timeout_secs == 0 && now - blink.at >= interval && later - now
                >= interval ==> after.updated(config, later).on == blink.on
        }),
{
}

} // verus!
