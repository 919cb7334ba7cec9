use gloss::copying::{
    capture_with_copy_shortcut, next_copy_step, CopyEvent, CopyStep, COPY_POLL_PAUSE,
    MODIFIER_RELEASE_PAUSE,
};
use gloss::selection::SelectionCapture;

fn run(events: Vec<CopyEvent>) -> CopyStep {
    let mut step = capture_with_copy_shortcut(7);
    for event in events {
        step = next_copy_step(step, event);
    }
    step
}

fn copied(events: Vec<CopyEvent>) -> Result<Option<SelectionCapture>, String> {
    match run(events) {
        CopyStep::Done(result) => result,
        other => panic!("not done: {:?}", other),
    }
}

fn sent() -> Vec<CopyEvent> {
    vec![
        CopyEvent::Preserved(Ok(())),
        CopyEvent::InFront(true),
        CopyEvent::Released(true),
        CopyEvent::Released(true),
        CopyEvent::Sent(4),
    ]
}

#[test]
fn clipboard_fallback_requires_an_owner_window() {
    let error = match capture_with_copy_shortcut(0) {
        CopyStep::Done(result) => result.unwrap_err(),
        other => panic!("not done: {:?}", other),
    };
    assert!(error.contains("Gloss window"));
    assert_eq!(error, "The Gloss window is unavailable for clipboard capture.");
}

#[test]
fn new_text_is_copied() {
    let mut events = sent();
    events.push(CopyEvent::Changed(false));
    events.push(CopyEvent::Changed(true));
    events.push(CopyEvent::Text(Some(" picked ".to_owned())));
    events.push(CopyEvent::Restored(Ok(())));
    let capture = copied(events).unwrap().unwrap();
    assert_eq!(capture.text, " picked ");
    assert_eq!(capture.anchor, None);
}

#[test]
fn blank_or_missing_text_is_no_copy() {
    for text in [None, Some("\n\t".to_owned())] {
        let mut events = sent();
        events.push(CopyEvent::Changed(true));
        events.push(CopyEvent::Text(text));
        events.push(CopyEvent::Restored(Ok(())));
        assert!(copied(events).unwrap().is_none());
    }
}

#[test]
fn clipboard_that_cannot_be_preserved_is_left_alone() {
    let result = copied(vec![CopyEvent::Preserved(Err("locked".to_owned()))]);
    assert_eq!(result.unwrap_err(), "locked");
}

#[test]
fn nothing_is_sent_to_another_app() {
    let step = run(vec![CopyEvent::Preserved(Ok(())), CopyEvent::InFront(false)]);
    assert!(matches!(step, CopyStep::Restore(_)));
    match next_copy_step(step, CopyEvent::Restored(Ok(()))) {
        CopyStep::Done(result) => assert!(result.unwrap().is_none()),
        other => panic!("not done: {:?}", other),
    }
}

#[test]
fn keys_that_stay_down_end_the_copy() {
    let mut events = vec![CopyEvent::Preserved(Ok(())), CopyEvent::InFront(true)];
    for _ in 0..24 {
        events.push(CopyEvent::Released(false));
    }
    assert!(matches!(run(events), CopyStep::AwaitRelease(24)));
    let mut events = vec![CopyEvent::Preserved(Ok(())), CopyEvent::InFront(true)];
    for _ in 0..25 {
        events.push(CopyEvent::Released(false));
    }
    events.push(CopyEvent::Released(false));
    events.push(CopyEvent::Restored(Ok(())));
    assert_eq!(copied(events).unwrap_err(), "Release the shortcut keys, then try again.");
}

#[test]
fn keys_released_at_the_last_look_are_enough() {
    let mut events = vec![CopyEvent::Preserved(Ok(())), CopyEvent::InFront(true)];
    for _ in 0..25 {
        events.push(CopyEvent::Released(false));
    }
    events.push(CopyEvent::Released(true));
    assert!(matches!(run(events), CopyStep::Send));
}

#[test]
fn blocked_shortcut_is_reported_though_the_clipboard_is_not_restored() {
    let events = vec![
        CopyEvent::Preserved(Ok(())),
        CopyEvent::InFront(true),
        CopyEvent::Released(true),
        CopyEvent::Released(true),
        CopyEvent::Sent(3),
        CopyEvent::Restored(Err("busy".to_owned())),
    ];
    assert_eq!(copied(events).unwrap_err(), "Windows blocked the fallback copy shortcut.");
}

#[test]
fn clipboard_is_polled_twenty_times() {
    let mut events = sent();
    for _ in 0..19 {
        events.push(CopyEvent::Changed(false));
    }
    assert!(matches!(run(events), CopyStep::Poll(19)));
    let mut events = sent();
    for _ in 0..20 {
        events.push(CopyEvent::Changed(false));
    }
    events.push(CopyEvent::Restored(Ok(())));
    assert!(copied(events).unwrap().is_none());
}

#[test]
fn failed_restore_wins_over_the_copied_text() {
    let mut events = sent();
    events.push(CopyEvent::Changed(true));
    events.push(CopyEvent::Text(Some("text".to_owned())));
    events.push(CopyEvent::Restored(Err("busy".to_owned())));
    assert_eq!(copied(events).unwrap_err(), "busy");
}

#[test]
fn stray_events_change_nothing() {
    assert!(matches!(run(vec![CopyEvent::Changed(true)]), CopyStep::Preserve));
}

#[test]
fn keys_pressed_again_before_sending_end_the_copy() {
    let step = run(vec![
        CopyEvent::Preserved(Ok(())),
        CopyEvent::InFront(true),
        CopyEvent::Released(true),
        CopyEvent::Released(false),
    ]);
    assert!(matches!(step, CopyStep::Restore(_)));
    assert_eq!((MODIFIER_RELEASE_PAUSE, COPY_POLL_PAUSE), (20, 20));
}
