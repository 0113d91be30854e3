//! Things that change with time: transient messages and the blinking cursor.
//!
//! Nothing polls. Each of them says when it next wants a frame, and the event loop
//! sleeps until the sooner one. Moments count microseconds.

use vstd::prelude::*;
use vstd::string::*;

use crate::scene::Tone;

verus! {

/// How severe a message is.
#[derive(Debug, Clone, Copy, PartialEq, Eq, Structural)]
pub enum NotifyLevel {
    Info,
    Warn,
    Error,
}

impl NotifyLevel {
    /// The tone a message is marked with.
    pub fn accent(self) -> (tone: Tone)
        ensures
            tone == (match self {
                NotifyLevel::Error => Tone::NormalRed,
                NotifyLevel::Warn => Tone::NormalYellow,
                NotifyLevel::Info => Tone::NormalBlue,
            }),
    {
        match self {
            NotifyLevel::Error => Tone::NormalRed,
            NotifyLevel::Warn => Tone::NormalYellow,
            NotifyLevel::Info => Tone::NormalBlue,
        }
    }
}

/// A message shown briefly over the terminal.
#[derive(Debug, PartialEq, Eq)]
pub struct Notification {
    pub text: String,
    pub level: NotifyLevel,
    pub shown_at: u64,
}

/// A message as a mathematical value.
#[verifier::ext_equal]
pub struct NotificationModel {
    pub text: Seq<char>,
    pub level: NotifyLevel,
    pub shown_at: u64,
}

impl View for Notification {
    type V = NotificationModel;

    open spec fn view(&self) -> NotificationModel {
        NotificationModel { text: self.text@, level: self.level, shown_at: self.shown_at }
    }
}

/// How long a toast stays fully opaque before fading.
pub const TOAST_HOLD: u64 = 4_000_000;

/// How long the fade itself takes.
pub const TOAST_FADE: u64 = 600_000;

/// How long a toast is there at all.
pub const TOAST_LIFETIME: u64 = 4_600_000;

/// How long a frame of the fade lasts.
pub const FADE_STEP: u64 = 50_000;

/// Cap on stacked toasts. A plugin in a loop must not fill the window.
pub const MAX_TOASTS: usize = 4;

/// How long ago a moment was.
pub open spec fn elapsed(since: u64, now: u64) -> int {
    if now >= since {
        now - since
    } else {
        0
    }
}

fn elapsed_since(since: u64, now: u64) -> (e: u64)
    ensures
        e == elapsed(since, now),
{
    now.saturating_sub(since)
}

impl NotificationModel {
    pub open spec fn all(list: Seq<Notification>) -> Seq<NotificationModel> {
        Seq::new(list.len(), |i: int| list[i]@)
    }

    /// Still there at a moment.
    pub open spec fn alive(self, now: u64) -> bool {
        elapsed(self.shown_at, now) < TOAST_LIFETIME
    }

    /// Past its hold, and fading.
    pub open spec fn fading(self, now: u64) -> bool {
        elapsed(self.shown_at, now) >= TOAST_HOLD
    }

    /// Thousandths of full opacity: full for the hold, then down to nothing.
    pub open spec fn opacity(self, now: u64) -> int {
        let e = elapsed(self.shown_at, now);
        if e < TOAST_HOLD {
            1000
        } else if e < TOAST_LIFETIME {
            (TOAST_LIFETIME - e) * 1000 / TOAST_FADE as int
        } else {
            0
        }
    }

    /// The ones still there, in order.
    pub open spec fn kept(list: Seq<NotificationModel>, now: u64) -> Seq<NotificationModel>
        decreases list.len(),
    {
        if list.len() == 0 {
            list
        } else if list.last().alive(now) {
            NotificationModel::kept(list.drop_last(), now).push(list.last())
        } else {
            NotificationModel::kept(list.drop_last(), now)
        }
    }

    /// The newest few.
    pub open spec fn newest(list: Seq<NotificationModel>) -> Seq<NotificationModel> {
        if list.len() > MAX_TOASTS {
            list.skip(list.len() - MAX_TOASTS)
        } else {
            list
        }
    }

    /// The first moment at which one of them begins to fade.
    pub open spec fn first_fade(list: Seq<NotificationModel>) -> Option<int>
        decreases list.len(),
    {
        if list.len() == 0 {
            None
        } else {
            let start = list.last().shown_at + TOAST_HOLD;
            match NotificationModel::first_fade(list.drop_last()) {
                Some(other) => if other <= start {
                    Some(other)
                } else {
                    Some(start)
                },
                None => Some(start),
            }
        }
    }

    pub open spec fn any_fading(list: Seq<NotificationModel>, now: u64) -> bool {
        exists|i: int| 0 <= i < list.len() && (#[trigger] list[i]).fading(now)
    }

    /// When one of them next changes its appearance: a step on while one is fading, else
    /// when the first fade begins.
    pub open spec fn wake(list: Seq<NotificationModel>, now: u64) -> Option<int> {
        if NotificationModel::any_fading(list, now) {
            Some(now + FADE_STEP)
        } else {
            NotificationModel::first_fade(list)
        }
    }
}

impl Notification {
    /// Thousandths of full opacity at a moment.
    pub fn opacity(&self, now: u64) -> (o: u32)
        ensures
            o == self@.opacity(now),
            o <= 1000,
    {
        let e: u64 = elapsed_since(self.shown_at, now);
        if e < TOAST_HOLD {
            1000
        } else if e < TOAST_LIFETIME {
            let left: u64 = TOAST_LIFETIME - e;
            (left * 1000 / TOAST_FADE) as u32
        } else {
            0
        }
    }
}

/// What a look at the toasts came to.
#[derive(Debug, Clone, Copy, PartialEq, Eq, Structural)]
pub struct Tick {
    /// Something changed that has to be drawn.
    pub redraw: bool,
    /// When to look again.
    pub wake: Option<u64>,
}

/// Transient on-screen messages, newest last.
#[derive(Debug, PartialEq, Eq)]
pub struct Toasts {
    pub list: Vec<Notification>,
}

impl View for Toasts {
    type V = Seq<NotificationModel>;

    open spec fn view(&self) -> Seq<NotificationModel> {
        NotificationModel::all(self.list@)
    }
}

impl Toasts {
    pub fn new() -> (t: Self)
        ensures
            t@ == Seq::<NotificationModel>::empty(),
    {
        let t = Toasts { list: Vec::new() };
        assert(t@ =~= Seq::empty());
        t
    }

    /// Show a message. The oldest goes first, so a burst shows the most recent ones.
    pub fn notify(&mut self, text: &str, level: NotifyLevel, now: u64)
        ensures
            final(self)@ == NotificationModel::newest(
                old(self)@.push(NotificationModel { text: text@, level, shown_at: now }),
            ),
    {
        self.list.push(Notification { text: text.to_owned(), level, shown_at: now });
        let ghost full = old(self)@.push(NotificationModel { text: text@, level, shown_at: now });
        assert(self@ =~= full);
        let ghost mut gone: int = 0;
        while self.list.len() > MAX_TOASTS
            invariant
                0 <= gone <= full.len(),
                self.list@.len() == full.len() - gone,
                self@ =~= full.skip(gone),
                gone > 0 ==> full.len() - gone >= MAX_TOASTS,
            decreases self.list.len(),
        {
            let ghost before = self.list@;
            self.list.remove(0);
            assert(self.list@ =~= before.skip(1));
            proof {
                assert forall|k: int| 0 <= k < self.list@.len() implies #[trigger] self.list@[k]@
                    == full[gone + 1 + k] by {
                    assert(NotificationModel::all(before)[k + 1] == full.skip(gone)[k + 1]);
                }
                gone = gone + 1;
            }
        }
        assert(self@ =~= NotificationModel::newest(full));
    }

    /// The clock has not gone back behind a message, nor near its end.
    pub open spec fn in_time(list: Seq<NotificationModel>, now: u64) -> bool {
        &&& now + TOAST_LIFETIME <= u64::MAX
        &&& forall|i: int| 0 <= i < list.len() ==> (#[trigger] list[i]).shown_at <= now
    }

    /// Whether the clock has not gone back behind a message, nor near its end.
    pub fn is_in_time(&self, now: u64) -> (b: bool)
        ensures
            b == Toasts::in_time(self@, now),
    {
        let mut i: usize = 0;
        while i < self.list.len()
            invariant
                i <= self.list@.len(),
                forall|k: int| 0 <= k < i ==> (#[trigger] self@[k]).shown_at <= now,
            decreases self.list@.len() - i,
        {
            if self.list[i].shown_at > now {
                assert(self@[i as int].shown_at > now);
                return false;
            }
            i += 1;
        }
        now <= u64::MAX - TOAST_LIFETIME
    }

    /// Drop what has expired, and say when the next one changes appearance. A frame is
    /// wanted when one is gone and for every step of a fade.
    pub fn update(&mut self, now: u64) -> (tick: Tick)
        requires
            Toasts::in_time(old(self)@, now),
        ensures
            final(self)@ == NotificationModel::kept(old(self)@, now),
            tick.redraw == (final(self)@.len() != old(self)@.len() || NotificationModel::any_fading(
                final(self)@,
                now,
            )),
            match (tick.wake, NotificationModel::wake(final(self)@, now)) {
                (Some(at), Some(due)) => at == due,
                (None, None) => true,
                _ => false,
            },
    {
        let ghost all = self@;
        let before: usize = self.list.len();
        let mut kept: Vec<Notification> = Vec::new();
        let mut i: usize = 0;
        assert(all.take(0) =~= Seq::empty());
        assert(NotificationModel::all(kept@) =~= NotificationModel::kept(all.take(0), now));
        while i < self.list.len()
            invariant
                i <= self.list@.len(),
                self.list@ == old(self).list@,
                all == NotificationModel::all(self.list@),
                NotificationModel::all(kept@) == NotificationModel::kept(all.take(i as int), now),
                forall|k: int| 0 <= k < all.len() ==> (#[trigger] all[k]).shown_at <= now,
                forall|k: int|
                    0 <= k < kept@.len() ==> (#[trigger] kept@[k]).shown_at <= now,
            decreases self.list@.len() - i,
        {
            let ghost so_far = NotificationModel::all(kept@);
            assert(all.take(i + 1).drop_last() =~= all.take(i as int));
            assert(all[i as int] == self.list@[i as int]@);
            let n = &self.list[i];
            if elapsed_since(n.shown_at, now) < TOAST_LIFETIME {
                kept.push(
                    Notification { text: n.text.clone(), level: n.level, shown_at: n.shown_at },
                );
                assert(NotificationModel::all(kept@) =~= so_far.push(all[i as int]));
            }
            i += 1;
        }
        assert(all.take(i as int) =~= all);
        self.list = kept;
        let (fading, wake) = self.next_change(now);
        Tick { redraw: self.list.len() != before || fading, wake }
    }

    /// Whether one is fading, and when one next changes its appearance.
    fn next_change(&self, now: u64) -> (next: (bool, Option<u64>))
        requires
            now + TOAST_LIFETIME <= u64::MAX,
            forall|i: int| 0 <= i < self.list@.len() ==> (#[trigger] self.list@[i]).shown_at <= now,
        ensures
            next.0 == NotificationModel::any_fading(self@, now),
            match (next.1, NotificationModel::wake(self@, now)) {
                (Some(at), Some(due)) => at == due,
                (None, None) => true,
                _ => false,
            },
    {
        let ghost all = self@;
        let mut first: Option<u64> = None;
        let mut fading = false;
        let mut i: usize = 0;
        while i < self.list.len()
            invariant
                i <= self.list@.len(),
                now + TOAST_LIFETIME <= u64::MAX,
                forall|k: int|
                    0 <= k < self.list@.len() ==> (#[trigger] self.list@[k]).shown_at <= now,
                all == NotificationModel::all(self.list@),
                fading == exists|k: int| 0 <= k < i && (#[trigger] all[k]).fading(now),
                match (first, NotificationModel::first_fade(all.take(i as int))) {
                    (Some(at), Some(due)) => at == due,
                    (None, None) => true,
                    _ => false,
                },
            decreases self.list@.len() - i,
        {
            assert(all.take(i + 1).drop_last() =~= all.take(i as int));
            assert(all[i as int] == self.list@[i as int]@);
            let shown_at: u64 = self.list[i].shown_at;
            if elapsed_since(shown_at, now) >= TOAST_HOLD {
                assert(all[i as int].fading(now));
                fading = true;
            }
            let start: u64 = shown_at + TOAST_HOLD;
            first = match first {
                Some(other) => {
                    if other <= start {
                        Some(other)
                    } else {
                        Some(start)
                    }
                },
                None => Some(start),
            };
            i += 1;
        }
        assert(all.take(i as int) =~= all);
        assert(fading == NotificationModel::any_fading(all, now));
        if fading {
            (true, Some(now + FADE_STEP))
        } else {
            (false, first)
        }
    }
}

/// How the cursor blinks.
#[derive(Debug, Clone, Copy, PartialEq, Eq, Structural)]
pub struct BlinkConfig {
    pub blink: bool,
    /// Blinking stops after this long without input; zero means never.
    pub timeout_secs: u64,
    pub interval_ms: u64,
}

/// The cursor's blink phase.
#[derive(Debug, Clone, Copy, PartialEq, Eq, Structural)]
pub struct Blink {
    /// The cursor shows.
    pub on: bool,
    /// When it last flipped.
    pub at: u64,
    /// When there was last input.
    pub last_input: u64,
}

impl BlinkConfig {
    /// Time between flips: never less than fifty milliseconds.
    pub open spec fn interval(self) -> int {
        if self.interval_ms < 50 {
            50_000
        } else {
            self.interval_ms * 1000
        }
    }

    /// Blinking has stopped for want of input.
    pub open spec fn idle(self, last_input: u64, now: u64) -> bool {
        self.timeout_secs > 0 && elapsed(last_input, now) > self.timeout_secs * 1_000_000
    }
}

impl Blink {
    pub fn new(now: u64) -> (b: Self)
        ensures
            b == (Blink { on: true, at: now, last_input: now }),
    {
        Blink { on: true, at: now, last_input: now }
    }

    /// A key was pressed: the cycle starts again visible, so typing never happens
    /// against an invisible cursor.
    pub fn key_pressed(&mut self, now: u64)
        ensures
            *final(self) == (Blink { on: true, at: now, last_input: now }),
    {
        self.on = true;
        self.at = now;
        self.last_input = now;
    }

    /// The window got the focus, which counts as input.
    pub fn focused(&mut self, now: u64)
        ensures
            *final(self) == (Blink { last_input: now, ..*old(self) }),
    {
        self.last_input = now;
    }

    /// The phase after a look at the clock.
    pub open spec fn updated(self, config: BlinkConfig, now: u64) -> Blink {
        if !config.blink || config.idle(self.last_input, now) {
            Blink { on: true, ..self }
        } else if elapsed(self.at, now) >= config.interval() {
            Blink { on: !self.on, at: now, ..self }
        } else {
            self
        }
    }

    /// Advance the blink, and say when the next flip is due. A cursor that does not
    /// blink, or has stopped for want of input, wants no frame at all: an idle terminal
    /// sleeps.
    pub fn update(&mut self, config: BlinkConfig, now: u64) -> (tick: Tick)
        requires
            old(self).at <= now,
            now + config.interval() <= u64::MAX,
        ensures
            *final(self) == old(self).updated(config, now),
            tick.redraw == (config.blink && final(self).on != old(self).on),
            match tick.wake {
                Some(at) => config.blink && !config.idle(old(self).last_input, now) && at
                    == final(self).at + config.interval(),
                None => !config.blink || config.idle(old(self).last_input, now),
            },
    {
        if !config.blink {
            self.on = true;
            return Tick { redraw: false, wake: None };
        }
        let quiet: u64 = elapsed_since(self.last_input, now);
        if config.timeout_secs > 0 && quiet as u128 > config.timeout_secs as u128 * 1_000_000 {
            let redraw = !self.on;
            self.on = true;
            return Tick { redraw, wake: None };
        }
        let interval: u64 = if config.interval_ms < 50 {
            50_000
        } else {
            config.interval_ms * 1000
        };
        let mut redraw = false;
        if elapsed_since(self.at, now) >= interval {
            self.on = !self.on;
            self.at = now;
            redraw = true;
        }
        Tick { redraw, wake: Some(self.at + interval) }
    }
}

/// Whichever wants a frame sooner decides when to wake.
pub fn sooner(a: Option<u64>, b: Option<u64>) -> (at: Option<u64>)
    ensures
        at == (match (a, b) {
            (Some(x), Some(y)) => if x <= y {
                Some(x)
            } else {
                Some(y)
            },
            (Some(x), None) => Some(x),
            (None, other) => other,
        }),
{
    match (a, b) {
        (Some(x), Some(y)) => {
            if x <= y {
                Some(x)
            } else {
                Some(y)
            }
        },
        (Some(x), None) => Some(x),
        (None, other) => other,
    }
}

/// However many messages come, only a few show, and the newest is always among them.
pub proof fn law_toasts_are_capped(list: Seq<NotificationModel>, new: NotificationModel)
    ensures
        NotificationModel::newest(list.push(new)).len() <= MAX_TOASTS,
        NotificationModel::newest(list.push(new)).last() == new,
{
}

proof fn lemma_kept_alive(list: Seq<NotificationModel>, now: u64)
    ensures
        forall|i: int|
            0 <= i < NotificationModel::kept(list, now).len()
                ==> (#[trigger] NotificationModel::kept(list, now)[i]).alive(now),
    decreases list.len(),
{
    if list.len() > 0 {
        let before = NotificationModel::kept(list.drop_last(), now);
        let kept = NotificationModel::kept(list, now);
        lemma_kept_alive(list.drop_last(), now);
        assert forall|i: int| 0 <= i < kept.len() implies (#[trigger] kept[i]).alive(now) by {
            if i < before.len() {
                assert(kept[i] == before[i]);
            }
        }
    }
}

proof fn lemma_first_fade(list: Seq<NotificationModel>, i: int)
    requires
        0 <= i < list.len(),
    ensures
        NotificationModel::first_fade(list) is Some,
        NotificationModel::first_fade(list)->0 <= list[i].shown_at + TOAST_HOLD,
    decreases list.len(),
{
    if i < list.len() - 1 {
        lemma_first_fade(list.drop_last(), i);
    }
}

/// Every fade is drawn: the next look is no later than the beginning of any message's
/// fade, and from there on one comes with every step.
pub proof fn law_fades_are_drawn(list: Seq<NotificationModel>, i: int, now: u64)
    requires
        0 <= i < list.len(),
    ensures
        NotificationModel::wake(list, now) is Some,
        list[i].fading(now) ==> NotificationModel::wake(list, now) == Some(now + FADE_STEP),
        !NotificationModel::any_fading(list, now) ==> NotificationModel::wake(list, now)->0
            <= list[i].shown_at + TOAST_HOLD,
{
    lemma_first_fade(list, i);
}

/// A message that is kept still shows: what has faded to nothing is gone, and a message
/// fades steadily, never brightening.
pub proof fn law_toasts_fade(list: Seq<NotificationModel>, i: int, now: u64, later: u64)
    requires
        0 <= i < NotificationModel::kept(list, now).len(),
        now <= later,
    ensures
        NotificationModel::kept(list, now)[i].alive(now),
        0 <= NotificationModel::kept(list, now)[i].opacity(later)
            <= NotificationModel::kept(list, now)[i].opacity(now) <= 1000,
{
    lemma_kept_alive(list, now);
    let n = NotificationModel::kept(list, now)[i];
    let a = elapsed(n.shown_at, now);
    let b = elapsed(n.shown_at, later);
    if a >= TOAST_HOLD {
        if b < TOAST_LIFETIME {
            vstd::arithmetic::div_mod::lemma_div_is_ordered(
                (TOAST_LIFETIME - b) * 1000,
                (TOAST_LIFETIME - a) * 1000,
                TOAST_FADE as int,
            );
        }
    }
}

} // verus!
