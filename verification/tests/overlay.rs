use gloss::geometry::SelectionRect;
use gloss::overlay::{
    overlay_after_capture, toolbar_anchor, CaptureSlot, CaptureGuard, CaptureOutcome, OverlayState,
};
use gloss::selection::SelectionCapture;

#[test]
fn capture_guard_rejects_overlapping_capture() {
    let mut slot = CaptureSlot::new();
    let first = CaptureGuard::acquire(&mut slot).expect("first capture should acquire the guard");
    assert!(CaptureGuard::acquire(&mut slot).is_none());
    slot.release(first);
    assert!(CaptureGuard::acquire(&mut slot).is_some());
}

#[test]
fn captured_selection_is_shown_at_its_place() {
    let anchor = SelectionRect { left: 1, top: 2, width: 3, height: 4 };
    let state = overlay_after_capture(CaptureOutcome::Captured(SelectionCapture {
        text: "picked".to_owned(),
        anchor: Some(anchor),
    }));
    assert_eq!(toolbar_anchor(&state), Some(anchor));
    match state {
        OverlayState::Ready { selection } => assert_eq!(selection.text, "picked"),
        other => panic!("{:?}", other),
    }
}

fn shown_error(outcome: CaptureOutcome) -> String {
    let state = overlay_after_capture(outcome);
    assert_eq!(toolbar_anchor(&state), None);
    match state {
        OverlayState::CaptureError { message } => message,
        other => panic!("{:?}", other),
    }
}

#[test]
fn failed_captures_say_why() {
    assert_eq!(shown_error(CaptureOutcome::Refused("no text".to_owned())), "no text");
    assert_eq!(
        shown_error(CaptureOutcome::Stopped("task panicked".to_owned())),
        "Selection capture stopped unexpectedly: task panicked"
    );
    assert_eq!(
        shown_error(CaptureOutcome::TimedOut),
        "Selection capture timed out. Try the shortcut again."
    );
    assert_eq!(toolbar_anchor(&OverlayState::Idle), None);
}
