//! Messages that fade and the cursor that blinks.

use tuzminal::scene::Tone;
use tuzminal::timing::{
    sooner, Blink, BlinkConfig, NotifyLevel, Toasts, FADE_STEP, MAX_TOASTS, TOAST_FADE, TOAST_HOLD,
    TOAST_LIFETIME,
};

#[test]
fn a_message_holds_then_fades_then_goes() {
    let mut toasts = Toasts::new();
    toasts.notify("hello", NotifyLevel::Info, 0);
    assert_eq!(toasts.list[0].opacity(0), 1000);
    assert_eq!(toasts.list[0].opacity(TOAST_HOLD - 1), 1000);
    assert_eq!(toasts.list[0].opacity(TOAST_HOLD + TOAST_FADE / 2), 500);
    assert_eq!(toasts.list[0].opacity(TOAST_LIFETIME), 0);

    assert!(toasts.is_in_time(1));
    let tick = toasts.update(1);
    assert!(!tick.redraw);
    assert_eq!(tick.wake, Some(TOAST_HOLD), "woken where the fade begins");
    let tick = toasts.update(TOAST_HOLD);
    assert!(tick.redraw, "every step of a fade is drawn");
    assert_eq!(tick.wake, Some(TOAST_HOLD + FADE_STEP));
    let tick = toasts.update(TOAST_LIFETIME);
    assert!(tick.redraw);
    assert_eq!(tick.wake, None);
    assert!(toasts.list.is_empty());
}

#[test]
fn only_the_newest_messages_stay() {
    let mut toasts = Toasts::new();
    for i in 0..MAX_TOASTS + 2 {
        toasts.notify(&format!("m{i}"), NotifyLevel::Warn, 0);
    }
    assert_eq!(toasts.list.len(), MAX_TOASTS);
    assert_eq!(toasts.list[0].text, "m2");
}

#[test]
fn a_message_is_marked_by_how_severe_it_is() {
    assert_eq!(NotifyLevel::Error.accent(), Tone::NormalRed);
    assert_eq!(NotifyLevel::Warn.accent(), Tone::NormalYellow);
    assert_eq!(NotifyLevel::Info.accent(), Tone::NormalBlue);
}

#[test]
fn a_cursor_blinks_until_it_is_idle() {
    let config = BlinkConfig { blink: true, timeout_secs: 1, interval_ms: 500 };
    let mut blink = Blink::new(0);
    assert!(blink.on);
    let tick = blink.update(config, 500_000);
    assert!(tick.redraw && !blink.on);
    assert_eq!(tick.wake, Some(1_000_000));

    let tick = blink.update(config, 1_500_000);
    assert!(tick.redraw && blink.on, "an idle cursor shows");
    assert_eq!(tick.wake, None);
    blink.key_pressed(2_000_000);
    assert!(blink.on);
    assert!(blink.update(config, 2_000_001).wake.is_some());
}

#[test]
fn a_steady_cursor_wants_no_frame() {
    let config = BlinkConfig { blink: false, timeout_secs: 0, interval_ms: 500 };
    let mut blink = Blink::new(0);
    assert_eq!(blink.update(config, 10_000_000).wake, None);
    assert!(blink.on);
}

#[test]
fn the_sooner_wake_counts() {
    assert_eq!(sooner(Some(3), Some(2)), Some(2));
    assert_eq!(sooner(None, Some(2)), Some(2));
    assert_eq!(sooner(None, None), None);
}
