//! What the shells report.

use tuzminal::effect::{Effect, Notice};
use tuzminal::pty::{PaneEvent, PaneNotes, TermEvent};

fn event(pane: u64, event: TermEvent) -> PaneEvent {
    PaneEvent { pane, event }
}

#[test]
fn output_out_of_sight_is_activity() {
    let mut notes = PaneNotes::new();
    let events = vec![event(1, TermEvent::Wakeup), event(2, TermEvent::Wakeup)];
    let effects = notes.drain_pty_events(&events, &vec![1], 1, false);
    assert_eq!(effects, vec![Effect::Redraw]);
    assert!(!notes.shows_activity(&vec![1], false));
    assert!(notes.shows_activity(&vec![2, 3], false));
    assert!(!notes.shows_activity(&vec![2], true), "not while it is looked at");

    let effects = notes.tab_activated(&vec![2, 3], 1);
    assert_eq!(effects, vec![Effect::NotifyPlugins(Notice::TabSwitch(1))]);
    assert!(!notes.shows_activity(&vec![2], false));
}

#[test]
fn a_title_is_remembered_and_announced_after_the_rest() {
    let mut notes = PaneNotes::new();
    let events = vec![
        event(1, TermEvent::Title("vim".to_owned())),
        event(1, TermEvent::Bell),
        event(2, TermEvent::Title("top".to_owned())),
    ];
    let effects = notes.drain_pty_events(&events, &vec![1], 1, true);
    assert_eq!(
        effects,
        vec![
            Effect::SetTitle("vim".to_owned()),
            Effect::NotifyPlugins(Notice::Bell(1)),
            Effect::NotifyPlugins(Notice::TitleChange(1, "vim".to_owned())),
            Effect::NotifyPlugins(Notice::TitleChange(2, "top".to_owned())),
        ]
    );
    assert_eq!(notes.title(2).map(|t| t.as_str()), Some("top"));
    assert_eq!(notes.title(3), None);
}

#[test]
fn a_shell_that_is_gone_is_forgotten_and_its_pane_closed() {
    let mut notes = PaneNotes::new();
    let events = vec![
        event(2, TermEvent::Title("top".to_owned())),
        event(2, TermEvent::Wakeup),
        event(2, TermEvent::ChildExit),
    ];
    let effects = notes.drain_pty_events(&events, &vec![1], 1, false);
    assert_eq!(effects[0], Effect::MarkExited(2));
    assert_eq!(effects[1], Effect::ClosePane(2));
    assert_eq!(*effects.last().unwrap(), Effect::Redraw);
    assert_eq!(notes.title(2), None);
    assert!(!notes.shows_activity(&vec![2], false));
}

#[test]
fn requests_are_answered_to_the_pane_that_asked() {
    let mut notes = PaneNotes::new();
    let events = vec![
        event(4, TermEvent::PtyWrite("é".to_owned())),
        event(4, TermEvent::ClipboardStore("copied".to_owned())),
        event(4, TermEvent::ClipboardLoad(9)),
        event(4, TermEvent::ColorRequest(257, 10)),
        event(4, TermEvent::TextAreaSizeRequest(11)),
        event(4, TermEvent::ResetTitle),
        event(4, TermEvent::MouseCursorDirty),
    ];
    let effects = notes.drain_pty_events(&events, &vec![4], 4, true);
    assert_eq!(
        effects,
        vec![
            Effect::WritePane(4, vec![0xc3, 0xa9]),
            Effect::SetClipboard("copied".to_owned()),
            Effect::AnswerClipboard(4, 9),
            Effect::AnswerColor(4, 10, 1),
            Effect::AnswerSize(4, 11),
            Effect::ConfiguredTitle,
        ]
    );
}
