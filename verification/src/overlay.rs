//! What the overlay shows: the selection that was captured or why there is none,
//! and the guard that keeps two captures from running at once.

use crate::geometry::SelectionRect;
use crate::selection::{CaptureModel, SelectionCapture};
use crate::text::joined;
use vstd::prelude::*;

verus! {

/// What the overlay shows.
#[derive(Debug)]
pub enum OverlayState {
    Idle,
    Ready { selection: SelectionCapture },
    CaptureError { message: String },
}

/// What an overlay state holds.
pub enum OverlayModel {
    Idle,
    Ready(CaptureModel),
    CaptureError(Seq<char>),
}

impl View for OverlayState {
    type V = OverlayModel;

    open spec fn view(&self) -> OverlayModel {
        match self {
            OverlayState::Idle => OverlayModel::Idle,
            OverlayState::Ready { selection } => OverlayModel::Ready(selection@),
            OverlayState::CaptureError { message } => OverlayModel::CaptureError(message@),
        }
    }
}

impl Clone for OverlayState {
    fn clone(&self) -> (copy: Self)
        ensures
            copy@ == self@,
    {
        match self {
            OverlayState::Idle => OverlayState::Idle,
            OverlayState::Ready { selection } => OverlayState::Ready {
                selection: selection.clone(),
            },
            OverlayState::CaptureError { message } => OverlayState::CaptureError {
                message: message.clone(),
            },
        }
    }
}

/// How a capture in the background ended.
#[derive(Debug)]
pub enum CaptureOutcome {
    /// It captured a selection.
    Captured(SelectionCapture),
    /// It found out why there is none to capture.
    Refused(String),
    /// It stopped before it was done.
    Stopped(String),
    /// It took too long.
    TimedOut,
}

/// What the overlay shows after a capture.
pub open spec fn overlay_after(outcome: CaptureOutcome) -> OverlayModel {
    match outcome {
        CaptureOutcome::Captured(selection) => OverlayModel::Ready(selection@),
        CaptureOutcome::Refused(message) => OverlayModel::CaptureError(message@),
        CaptureOutcome::Stopped(error) => OverlayModel::CaptureError(
            "Selection capture stopped unexpectedly: "@ + error@,
        ),
        CaptureOutcome::TimedOut => OverlayModel::CaptureError(
            "Selection capture timed out. Try the shortcut again."@,
        ),
    }
}

/// The overlay state after a capture.
pub fn overlay_after_capture(outcome: CaptureOutcome) -> (state: OverlayState)
    ensures
        state@ == overlay_after(outcome),
{
    match outcome {
        CaptureOutcome::Captured(selection) => OverlayState::Ready { selection },
        CaptureOutcome::Refused(message) => OverlayState::CaptureError { message },
        CaptureOutcome::Stopped(error) => OverlayState::CaptureError {
            message: joined("Selection capture stopped unexpectedly: ", error.as_str()),
        },
        CaptureOutcome::TimedOut => OverlayState::CaptureError {
            message: "Selection capture timed out. Try the shortcut again.".to_owned(),
        },
    }
}

/// What the toolbar is shown next to: the place of the selection, where there is a
/// selection and its place is known.
pub fn toolbar_anchor(state: &OverlayState) -> (anchor: Option<SelectionRect>)
    ensures
        anchor == match state@ {
            OverlayModel::Ready(selection) => selection.anchor,
            _ => None,
        },
{
    match state {
        OverlayState::Ready { selection } => selection.anchor,
        _ => None,
    }
}

/// How long a capture may take, in seconds.
pub const CAPTURE_TIMEOUT_SECONDS: u64 = 4;

/// What can happen to the one capture that may run at a time.
pub enum SlotEvent {
    /// A capture is asked for.
    Acquire,
    /// The running capture ends.
    Release,
}

/// Whether a capture is running after an event, when one was or was not before.
pub open spec fn busy_after(busy: bool, event: SlotEvent) -> bool {
    event is Acquire
}

/// The event is a capture that is asked for and may run.
pub open spec fn is_granted(busy: bool, event: SlotEvent) -> bool {
    event is Acquire && !busy
}

/// Whether a capture is running after the first `n` events.
pub open spec fn busy_at(events: Seq<SlotEvent>, n: int) -> bool
    decreases n,
{
    n > 0 && busy_after(busy_at(events, n - 1), events[n - 1])
}

/// Whether a capture is running.
#[derive(Debug)]
pub struct CaptureSlot {
    in_progress: bool,
}

/// The right to run a capture. Only `acquire` gives it out.
#[derive(Debug)]
pub struct CaptureGuard {
    held: (),
}

impl CaptureSlot {
    /// A capture is running.
    pub closed spec fn busy(self) -> bool {
        self.in_progress
    }

    /// A slot with no capture running.
    pub fn new() -> (slot: CaptureSlot)
        ensures
            slot.busy() == busy_at(seq![], 0),
    {
        CaptureSlot { in_progress: false }
    }

    /// Ends the capture that the guard was given out for.
    pub fn release(&mut self, guard: CaptureGuard)
        ensures
            final(self).busy() == busy_after(old(self).busy(), SlotEvent::Release),
    {
        let CaptureGuard { held: _ } = guard;
        self.in_progress = false;
    }
}

impl CaptureGuard {
    /// Begins a capture, unless one is running.
    pub fn acquire(slot: &mut CaptureSlot) -> (guard: Option<CaptureGuard>)
        ensures
            guard is Some <==> is_granted(old(slot).busy(), SlotEvent::Acquire),
            final(slot).busy() == busy_after(old(slot).busy(), SlotEvent::Acquire),
    {
        if slot.in_progress {
            None
        } else {
            slot.in_progress = true;
            Some(CaptureGuard { held: () })
        }
    }
}

/// Captures do not overlap: of two captures that may run, the first has ended before
/// the second begins.
pub proof fn captures_do_not_overlap(events: Seq<SlotEvent>, first: int, second: int)
    requires
        0 <= first < second < events.len(),
        is_granted(busy_at(events, first), events[first]),
        is_granted(busy_at(events, second), events[second]),
    ensures
        exists|i: int| first < i < second && #[trigger] events[i] is Release,
{
    assert(events[second - 1] is Release);
}

/// A capture that has ended makes room for the next one.
pub proof fn ended_capture_makes_room(events: Seq<SlotEvent>, n: int)
    requires
        0 < n < events.len(),
        events[n - 1] is Release,
        events[n] is Acquire,
    ensures
        is_granted(busy_at(events, n), events[n]),
{
}

/// Overlay states are seen as they are.
pub proof fn states_are_seen_whole(selection: SelectionCapture, message: String)
    ensures
        OverlayState::Idle@ == OverlayModel::Idle,
        (OverlayState::Ready { selection })@ == OverlayModel::Ready(selection@),
        (OverlayState::CaptureError { message })@ == OverlayModel::CaptureError(message@),
{
}

/// A captured selection is shown as it was captured, and every other outcome as an error
/// that keeps its reason.
pub proof fn outcomes_are_shown(selection: SelectionCapture, reason: String)
    ensures
        overlay_after(CaptureOutcome::Captured(selection)) == OverlayModel::Ready(
            CaptureModel { text: selection.text@, anchor: selection.anchor },
        ),
        overlay_after(CaptureOutcome::Refused(reason)) == OverlayModel::CaptureError(reason@),
        overlay_after(CaptureOutcome::Stopped(reason)) == OverlayModel::CaptureError(
            "Selection capture stopped unexpectedly: "@ + reason@,
        ),
        overlay_after(CaptureOutcome::TimedOut) == OverlayModel::CaptureError(
            "Selection capture timed out. Try the shortcut again."@,
        ),
{
}

/// The first capture may run, and while one is running no other may.
pub proof fn first_capture_may_run(events: Seq<SlotEvent>, n: int)
    requires
        0 <= n < events.len(),
        events[n] is Acquire,
    ensures
        n == 0 ==> is_granted(busy_at(events, n), events[n]),
        n > 0 && events[n - 1] is Acquire ==> !is_granted(busy_at(events, n), events[n]),
        busy_at(events, n + 1),
{
}

}
