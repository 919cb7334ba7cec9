//! Copying the selected text with the copy shortcut, where it cannot be read: step
//! by step from preserving the clipboard to restoring it.

use crate::selection::{capture_option, readable_text, CaptureModel, SelectionCapture};
use crate::text::{failure, is_blank_text, option_text};
use vstd::prelude::*;

verus! {

/// How often the clipboard is looked at for the copied text.
pub const MAX_COPY_POLLS: u32 = 20;

/// How often the release of the modifier keys is waited for.
pub const MODIFIER_RELEASE_ATTEMPTS: u32 = 25;

/// The pause, in milliseconds, after each look at modifier keys that are not released.
pub const MODIFIER_RELEASE_PAUSE: u64 = 20;

/// The pause, in milliseconds, before each look at the clipboard.
pub const COPY_POLL_PAUSE: u64 = 20;

/// How many key events the copy shortcut has.
pub const SHORTCUT_EVENTS: u32 = 4;

/// What the copying comes to once the clipboard is restored.
#[derive(Debug)]
pub enum Ending {
    /// Another app came to the front, so nothing was copied.
    TargetLost,
    /// The shortcut could not be sent, for this reason.
    NotSent(String),
    /// The shortcut was sent, and this is the text that was then read.
    Sent(Option<String>),
}

/// What is to be done next to copy the selected text.
#[derive(Debug)]
pub enum CopyStep {
    /// Preserve the clipboard, and note how often it was changed so far.
    Preserve,
    /// Look whether the app with the selection is still in front.
    CheckTarget,
    /// Look whether the modifier keys are released, and pause where they are not.
    /// This was done so often before.
    AwaitRelease(u32),
    /// Look once more whether the modifier keys are released.
    CheckRelease,
    /// Send the key events of the copy shortcut.
    Send,
    /// Pause, and look whether the clipboard has changed. This was done so often
    /// before.
    Poll(u32),
    /// Read the text on the clipboard.
    Read,
    /// Restore the clipboard.
    Restore(Ending),
    /// Nothing: this is what was copied.
    Done(Result<Option<SelectionCapture>, String>),
}

/// What came of a step.
#[derive(Debug)]
pub enum CopyEvent {
    Preserved(Result<(), String>),
    InFront(bool),
    Released(bool),
    /// So many key events were taken.
    Sent(u32),
    Changed(bool),
    Text(Option<String>),
    Restored(Result<(), String>),
}

/// What an ending holds.
pub enum EndingModel {
    TargetLost,
    NotSent(Seq<char>),
    Sent(Option<Seq<char>>),
}

/// What a step is.
pub enum CopyModel {
    Preserve,
    CheckTarget,
    AwaitRelease(nat),
    CheckRelease,
    Send,
    Poll(nat),
    Read,
    Restore(EndingModel),
    Copied(Option<CaptureModel>),
    Failed(Seq<char>),
}

/// What an event is.
pub enum EventModel {
    Preserved(Option<Seq<char>>),
    InFront(bool),
    Released(bool),
    Sent(nat),
    Changed(bool),
    Text(Option<Seq<char>>),
    Restored(Option<Seq<char>>),
}

impl View for Ending {
    type V = EndingModel;

    open spec fn view(&self) -> EndingModel {
        match self {
            Ending::TargetLost => EndingModel::TargetLost,
            Ending::NotSent(reason) => EndingModel::NotSent(reason@),
            Ending::Sent(text) => EndingModel::Sent(option_text(*text)),
        }
    }
}

impl View for CopyStep {
    type V = CopyModel;

    open spec fn view(&self) -> CopyModel {
        match self {
            CopyStep::Preserve => CopyModel::Preserve,
            CopyStep::CheckTarget => CopyModel::CheckTarget,
            CopyStep::AwaitRelease(waits) => CopyModel::AwaitRelease(*waits as nat),
            CopyStep::CheckRelease => CopyModel::CheckRelease,
            CopyStep::Send => CopyModel::Send,
            CopyStep::Poll(polls) => CopyModel::Poll(*polls as nat),
            CopyStep::Read => CopyModel::Read,
            CopyStep::Restore(ending) => CopyModel::Restore(ending@),
            CopyStep::Done(Ok(capture)) => CopyModel::Copied(capture_option(*capture)),
            CopyStep::Done(Err(reason)) => CopyModel::Failed(reason@),
        }
    }
}

impl View for CopyEvent {
    type V = EventModel;

    open spec fn view(&self) -> EventModel {
        match self {
            CopyEvent::Preserved(outcome) => EventModel::Preserved(failure(*outcome)),
            CopyEvent::InFront(in_front) => EventModel::InFront(*in_front),
            CopyEvent::Released(released) => EventModel::Released(*released),
            CopyEvent::Sent(sent) => EventModel::Sent(*sent as nat),
            CopyEvent::Changed(changed) => EventModel::Changed(*changed),
            CopyEvent::Text(text) => EventModel::Text(option_text(*text)),
            CopyEvent::Restored(outcome) => EventModel::Restored(failure(*outcome)),
        }
    }
}

/// The event is one that the step can come to.
pub open spec fn answers(event: EventModel, step: CopyModel) -> bool {
    match step {
        CopyModel::Preserve => event is Preserved,
        CopyModel::CheckTarget => event is InFront,
        CopyModel::AwaitRelease(_) => event is Released,
        CopyModel::CheckRelease => event is Released,
        CopyModel::Send => event is Sent,
        CopyModel::Poll(_) => event is Changed,
        CopyModel::Read => event is Text,
        CopyModel::Restore(_) => event is Restored,
        CopyModel::Copied(_) => false,
        CopyModel::Failed(_) => false,
    }
}

/// The end of copying, from what it comes to and the reason why the clipboard could
/// not be restored, if it could not.
pub open spec fn ended(ending: EndingModel, unrestored: Option<Seq<char>>) -> CopyModel {
    match (ending, unrestored) {
        (EndingModel::NotSent(reason), _) => CopyModel::Failed(reason),
        (_, Some(reason)) => CopyModel::Failed(reason),
        (EndingModel::TargetLost, None) => CopyModel::Copied(None),
        (EndingModel::Sent(None), None) => CopyModel::Copied(None),
        (EndingModel::Sent(Some(text)), None) => if is_blank_text(text) {
            CopyModel::Copied(None)
        } else {
            CopyModel::Copied(Some(CaptureModel { text, anchor: None }))
        },
    }
}

/// The step that follows a step. An event that the step cannot come to changes
/// nothing.
pub open spec fn copy_next(step: CopyModel, event: EventModel) -> CopyModel {
    match (step, event) {
        (CopyModel::Preserve, EventModel::Preserved(failed)) => match failed {
            Some(reason) => CopyModel::Failed(reason),
            None => CopyModel::CheckTarget,
        },
        (CopyModel::CheckTarget, EventModel::InFront(in_front)) => if in_front {
            CopyModel::AwaitRelease(0)
        } else {
            CopyModel::Restore(EndingModel::TargetLost)
        },
        (CopyModel::AwaitRelease(waits), EventModel::Released(released)) => if released || waits
            + 1 >= MODIFIER_RELEASE_ATTEMPTS {
            CopyModel::CheckRelease
        } else {
            CopyModel::AwaitRelease(waits + 1)
        },
        (CopyModel::CheckRelease, EventModel::Released(released)) => if released {
            CopyModel::Send
        } else {
            CopyModel::Restore(
                EndingModel::NotSent("Release the shortcut keys, then try again."@),
            )
        },
        (CopyModel::Send, EventModel::Sent(sent)) => if sent == SHORTCUT_EVENTS {
            CopyModel::Poll(0)
        } else {
            CopyModel::Restore(
                EndingModel::NotSent("Windows blocked the fallback copy shortcut."@),
            )
        },
        (CopyModel::Poll(polls), EventModel::Changed(changed)) => if changed {
            CopyModel::Read
        } else if polls + 1 >= MAX_COPY_POLLS {
            CopyModel::Restore(EndingModel::Sent(None))
        } else {
            CopyModel::Poll(polls + 1)
        },
        (CopyModel::Read, EventModel::Text(text)) => CopyModel::Restore(EndingModel::Sent(text)),
        (CopyModel::Restore(ending), EventModel::Restored(failed)) => ended(ending, failed),
        _ => step,
    }
}

/// The first step of copying the selected text. Without a window that can own the
/// clipboard nothing is done.
pub fn capture_with_copy_shortcut(clipboard_owner: isize) -> (step: CopyStep)
    ensures
        step@ == if clipboard_owner == 0 {
            CopyModel::Failed("The Gloss window is unavailable for clipboard capture."@)
        } else {
            CopyModel::Preserve
        },
{
    if clipboard_owner == 0 {
        return CopyStep::Done(
            Err("The Gloss window is unavailable for clipboard capture.".to_owned()),
        );
    }
    CopyStep::Preserve
}

fn finish(ending: Ending, restored: Result<(), String>) -> (r: CopyStep)
    ensures
        r@ == ended(ending@, failure(restored)),
{
    match ending {
        Ending::NotSent(reason) => CopyStep::Done(Err(reason)),
        Ending::TargetLost => match restored {
            Ok(_) => CopyStep::Done(Ok(None)),
            Err(reason) => CopyStep::Done(Err(reason)),
        },
        Ending::Sent(text) => match restored {
            Ok(_) => match readable_text(text) {
                Some(text) => CopyStep::Done(Ok(Some(SelectionCapture { text, anchor: None }))),
                None => CopyStep::Done(Ok(None)),
            },
            Err(reason) => CopyStep::Done(Err(reason)),
        },
    }
}

/// The step that follows a step to which an event came.
pub fn next_copy_step(step: CopyStep, event: CopyEvent) -> (following: CopyStep)
    ensures
        following@ == copy_next(step@, event@),
{
    match (step, event) {
        (CopyStep::Preserve, CopyEvent::Preserved(outcome)) => match outcome {
            Ok(_) => CopyStep::CheckTarget,
            Err(reason) => CopyStep::Done(Err(reason)),
        },
        (CopyStep::CheckTarget, CopyEvent::InFront(in_front)) => if in_front {
            CopyStep::AwaitRelease(0)
        } else {
            CopyStep::Restore(Ending::TargetLost)
        },
        (CopyStep::AwaitRelease(waits), CopyEvent::Released(released)) => if released || waits
            >= MODIFIER_RELEASE_ATTEMPTS - 1 {
            CopyStep::CheckRelease
        } else {
            CopyStep::AwaitRelease(waits + 1)
        },
        (CopyStep::CheckRelease, CopyEvent::Released(released)) => if released {
            CopyStep::Send
        } else {
            CopyStep::Restore(
                Ending::NotSent("Release the shortcut keys, then try again.".to_owned()),
            )
        },
        (CopyStep::Send, CopyEvent::Sent(sent)) => if sent == SHORTCUT_EVENTS {
            CopyStep::Poll(0)
        } else {
            CopyStep::Restore(
                Ending::NotSent("Windows blocked the fallback copy shortcut.".to_owned()),
            )
        },
        (CopyStep::Poll(polls), CopyEvent::Changed(changed)) => if changed {
            CopyStep::Read
        } else if polls >= MAX_COPY_POLLS - 1 {
            CopyStep::Restore(Ending::Sent(None))
        } else {
            CopyStep::Poll(polls + 1)
        },
        (CopyStep::Read, CopyEvent::Text(text)) => CopyStep::Restore(Ending::Sent(text)),
        (CopyStep::Restore(ending), CopyEvent::Restored(outcome)) => finish(ending, outcome),
        (step, _) => step,
    }
}

/// How many steps may still follow, at most.
pub open spec fn steps_left(step: CopyModel) -> int {
    match step {
        CopyModel::Preserve => 52,
        CopyModel::CheckTarget => 51,
        CopyModel::AwaitRelease(waits) => if waits < MODIFIER_RELEASE_ATTEMPTS {
            50 - waits
        } else {
            25
        },
        CopyModel::CheckRelease => 24,
        CopyModel::Send => 23,
        CopyModel::Poll(polls) => if polls < MAX_COPY_POLLS {
            22 - polls
        } else {
            3
        },
        CopyModel::Read => 2,
        CopyModel::Restore(_) => 1,
        CopyModel::Copied(_) => 0,
        CopyModel::Failed(_) => 0,
    }
}

/// Copying ends: every event that a step can come to leaves fewer steps to take, and
/// with no step left there is a result.
pub proof fn copying_ends(step: CopyModel, event: EventModel)
    ensures
        0 <= steps_left(step) <= 52,
        answers(event, step) ==> steps_left(copy_next(step, event)) < steps_left(step),
        !answers(event, step) ==> copy_next(step, event) == step,
        steps_left(step) == 0 <==> step is Copied || step is Failed,
{
}

/// The steps of a run, from the first one and one event after the other.
pub open spec fn copy_steps(events: Seq<EventModel>) -> Seq<CopyModel>
    decreases events.len(),
{
    if events.len() == 0 {
        seq![CopyModel::Preserve]
    } else {
        let before = copy_steps(events.drop_last());
        before.push(copy_next(before.last(), events.last()))
    }
}

proof fn lemma_steps(events: Seq<EventModel>)
    ensures
        copy_steps(events).len() == events.len() + 1,
        copy_steps(events)[0] == CopyModel::Preserve,
        forall|i: int|
            0 <= i < events.len() ==> copy_next(copy_steps(events)[i], #[trigger] events[i])
                == copy_steps(events)[i + 1],
    decreases events.len(),
{
    if events.len() > 0 {
        let fewer = events.drop_last();
        lemma_steps(fewer);
        let before = copy_steps(fewer);
        let all = copy_steps(events);
        assert forall|i: int| 0 <= i < events.len() implies copy_next(
            all[i],
            #[trigger] events[i],
        ) == all[i + 1] by {
            assert(all[i] == before[i]);
            if i < fewer.len() {
                assert(events[i] == fewer[i]);
                assert(all[i + 1] == before[i + 1]);
            }
        }
    }
}

/// A clipboard that was preserved is restored before copying ends: a run that ends
/// without a restored clipboard ends because it could not be preserved.
pub proof fn preserved_clipboard_is_restored(events: Seq<EventModel>)
    requires
        copy_steps(events).last() is Copied || copy_steps(events).last() is Failed,
    ensures
        exists|i: int| 0 <= i < events.len() && #[trigger] ends_run(copy_steps(events)[i], events[i]),
    decreases events.len(),
{
    let fewer = events.drop_last();
    let before = copy_steps(fewer);
    let all = copy_steps(events);
    lemma_steps(events);
    lemma_steps(fewer);
    let n = events.len() - 1;
    if before.last() is Copied || before.last() is Failed {
        preserved_clipboard_is_restored(fewer);
        let i = choose|i: int| 0 <= i < fewer.len() && #[trigger] ends_run(before[i], fewer[i]);
        assert(all[i] == before[i] && events[i] == fewer[i]);
        assert(ends_run(all[i], events[i]));
    } else {
        assert(all[n] == before.last());
        assert(ends_run(all[n], events[n]));
    }
}

/// The clipboard was restored, or could not be preserved in the first place.
pub open spec fn ends_run(step: CopyModel, event: EventModel) -> bool {
    ||| step is Restore && event is Restored
    ||| step is Preserve && event is Preserved && event->Preserved_0 is Some
}

/// No key is sent unless the app with the selection was found in front: a run that
/// comes to sending had it in front.
pub proof fn keys_go_to_the_target(events: Seq<EventModel>)
    requires
        copy_steps(events).last() is Send,
    ensures
        exists|i: int|
            0 <= i < events.len() && #[trigger] target_found(copy_steps(events)[i], events[i]),
{
    lemma_target_found(events);
}

/// The app with the selection was looked for and found in front.
pub open spec fn target_found(step: CopyModel, event: EventModel) -> bool {
    step is CheckTarget && event == EventModel::InFront(true)
}

proof fn lemma_target_found(events: Seq<EventModel>)
    requires
        ({
            let last = copy_steps(events).last();
            last is AwaitRelease || last is CheckRelease || last is Send
        }),
    ensures
        exists|i: int|
            0 <= i < events.len() && #[trigger] target_found(copy_steps(events)[i], events[i]),
    decreases events.len(),
{
    let fewer = events.drop_last();
    let before = copy_steps(fewer);
    let all = copy_steps(events);
    lemma_steps(events);
    lemma_steps(fewer);
    let n = events.len() - 1;
    let last = before.last();
    if last is AwaitRelease || last is CheckRelease || last is Send {
        lemma_target_found(fewer);
        let i = choose|i: int| 0 <= i < fewer.len() && #[trigger] target_found(before[i], fewer[i]);
        assert(all[i] == before[i] && events[i] == fewer[i]);
        assert(target_found(all[i], events[i]));
    } else {
        assert(all[n] == last);
        assert(target_found(all[n], events[n]));
    }
}

/// The keys of the shortcut are not mixed with keys that the user holds: a run that comes
/// to sending had found the modifier keys released.
pub proof fn keys_wait_for_release(events: Seq<EventModel>)
    requires
        copy_steps(events).last() is Send,
    ensures
        exists|i: int|
            0 <= i < events.len() && #[trigger] release_found(copy_steps(events)[i], events[i]),
    decreases events.len(),
{
    let fewer = events.drop_last();
    let before = copy_steps(fewer);
    let all = copy_steps(events);
    lemma_steps(events);
    lemma_steps(fewer);
    let n = events.len() - 1;
    if before.last() is Send {
        keys_wait_for_release(fewer);
        let i = choose|i: int| 0 <= i < fewer.len() && #[trigger] release_found(before[i], fewer[i]);
        assert(all[i] == before[i] && events[i] == fewer[i]);
        assert(release_found(all[i], events[i]));
    } else {
        assert(all[n] == before.last());
        assert(release_found(all[n], events[n]));
    }
}

/// The modifier keys were looked at right before sending and found released.
pub open spec fn release_found(step: CopyModel, event: EventModel) -> bool {
    step is CheckRelease && event == EventModel::Released(true)
}

/// What was on the clipboard before is never taken for the selection: a text is only
/// read right after the clipboard was seen to have changed, and what is copied is a
/// text that was read.
pub proof fn only_new_text_is_copied(step: CopyModel, event: EventModel)
    ensures
        copy_next(step, event) is Read && !(step is Read) ==> step is Poll && event
            == EventModel::Changed(true),
        copy_next(step, event) != step ==> match copy_next(step, event) {
            CopyModel::Restore(EndingModel::Sent(Some(text))) => {
                &&& step is Read
                &&& event == EventModel::Text(Some(text))
            },
            CopyModel::Copied(Some(capture)) => {
                &&& step == CopyModel::Restore(EndingModel::Sent(Some(capture.text)))
                &&& event == EventModel::Restored(None)
                &&& capture.anchor is None
                &&& !is_blank_text(capture.text)
            },
            _ => true,
        },
{
}

/// Steps and events are seen as they are.
pub proof fn steps_and_events_are_seen_whole(
    flag: bool,
    count: u32,
    text: Option<String>,
    reason: String,
    capture: SelectionCapture,
)
    ensures
        CopyEvent::Preserved(Ok(()))@ == EventModel::Preserved(None),
        CopyEvent::Preserved(Err(reason))@ == EventModel::Preserved(Some(reason@)),
        CopyEvent::InFront(flag)@ == EventModel::InFront(flag),
        CopyEvent::Released(flag)@ == EventModel::Released(flag),
        CopyEvent::Sent(count)@ == EventModel::Sent(count as nat),
        CopyEvent::Changed(flag)@ == EventModel::Changed(flag),
        text is Some ==> CopyEvent::Text(text)@ == EventModel::Text(Some(text->0@)),
        text is None ==> CopyEvent::Text(text)@ == EventModel::Text(None),
        CopyEvent::Restored(Ok(()))@ == EventModel::Restored(None),
        CopyEvent::Restored(Err(reason))@ == EventModel::Restored(Some(reason@)),
        CopyStep::Preserve@ == CopyModel::Preserve,
        CopyStep::CheckTarget@ == CopyModel::CheckTarget,
        CopyStep::AwaitRelease(count)@ == CopyModel::AwaitRelease(count as nat),
        CopyStep::CheckRelease@ == CopyModel::CheckRelease,
        CopyStep::Send@ == CopyModel::Send,
        CopyStep::Poll(count)@ == CopyModel::Poll(count as nat),
        CopyStep::Read@ == CopyModel::Read,
        CopyStep::Restore(Ending::TargetLost)@ == CopyModel::Restore(EndingModel::TargetLost),
        CopyStep::Restore(Ending::NotSent(reason))@ == CopyModel::Restore(
            EndingModel::NotSent(reason@),
        ),
        text is Some ==> CopyStep::Restore(Ending::Sent(text))@ == CopyModel::Restore(
            EndingModel::Sent(Some(text->0@)),
        ),
        text is None ==> CopyStep::Restore(Ending::Sent(text))@ == CopyModel::Restore(
            EndingModel::Sent(None),
        ),
        CopyStep::Done(Err(reason))@ == CopyModel::Failed(reason@),
        CopyStep::Done(Ok(None))@ == CopyModel::Copied(None),
        CopyStep::Done(Ok(Some(capture)))@ == CopyModel::Copied(
            Some(CaptureModel { text: capture.text@, anchor: capture.anchor }),
        ),
{
}

/// The step that a run comes to from a step, one event after the other.
pub open spec fn copy_run(step: CopyModel, events: Seq<EventModel>) -> CopyModel
    decreases events.len(),
{
    if events.len() == 0 {
        step
    } else {
        copy_run(copy_next(step, events[0]), events.drop_first())
    }
}

proof fn lemma_run_on(step: CopyModel, first: Seq<EventModel>, second: Seq<EventModel>)
    ensures
        copy_run(step, first + second) == copy_run(copy_run(step, first), second),
    decreases first.len(),
{
    if first.len() == 0 {
        assert(first + second =~= second);
    } else {
        assert((first + second).drop_first() =~= first.drop_first() + second);
        lemma_run_on(copy_next(step, first[0]), first.drop_first(), second);
    }
}

/// An event that comes so often in a row.
pub open spec fn repeated(event: EventModel, n: nat) -> Seq<EventModel> {
    Seq::new(n, |i: int| event)
}

proof fn lemma_looks(waits: nat, n: nat)
    requires
        waits + n <= 24,
    ensures
        copy_run(CopyModel::AwaitRelease(waits), repeated(EventModel::Released(false), n))
            == CopyModel::AwaitRelease(waits + n),
    decreases n,
{
    if n > 0 {
        let events = repeated(EventModel::Released(false), n);
        assert(events.drop_first() =~= repeated(EventModel::Released(false), (n - 1) as nat));
        lemma_looks(waits + 1, (n - 1) as nat);
    }
}

proof fn lemma_polls(polls: nat, n: nat)
    requires
        polls + n <= 19,
    ensures
        copy_run(CopyModel::Poll(polls), repeated(EventModel::Changed(false), n))
            == CopyModel::Poll(polls + n),
    decreases n,
{
    if n > 0 {
        let events = repeated(EventModel::Changed(false), n);
        assert(events.drop_first() =~= repeated(EventModel::Changed(false), (n - 1) as nat));
        lemma_polls(polls + 1, (n - 1) as nat);
    }
}

/// Keys that are found released at any look lead on to the check before sending, and so
/// does the last look, whatever it finds. After each earlier look that finds them down
/// there is one more look.
pub proof fn released_keys_lead_on(looks: nat)
    ensures
        copy_next(CopyModel::AwaitRelease(looks), EventModel::Released(true))
            == CopyModel::CheckRelease,
        looks < 24 ==> copy_next(CopyModel::AwaitRelease(looks), EventModel::Released(false))
            == CopyModel::AwaitRelease(looks + 1),
        copy_next(CopyModel::AwaitRelease(24), EventModel::Released(false))
            == CopyModel::CheckRelease,
        looks <= 24 ==> copy_run(
            CopyModel::CheckTarget,
            seq![EventModel::InFront(true)] + repeated(EventModel::Released(false), looks)
                + seq![EventModel::Released(true)],
        ) == CopyModel::CheckRelease,
        copy_run(
            CopyModel::CheckTarget,
            seq![EventModel::InFront(true)] + repeated(EventModel::Released(false), 25),
        ) == CopyModel::CheckRelease,
{
    reveal_with_fuel(copy_run, 3);
    let first = seq![EventModel::InFront(true)];
    assert(first.drop_first() =~= seq![]);
    assert(copy_run(CopyModel::CheckTarget, first) == CopyModel::AwaitRelease(0));
    let last = seq![EventModel::Released(true)];
    assert(last.drop_first() =~= seq![]);
    let down = seq![EventModel::Released(false)];
    assert(down.drop_first() =~= seq![]);
    if looks <= 24 {
        let looked = repeated(EventModel::Released(false), looks);
        lemma_run_on(CopyModel::CheckTarget, first + looked, last);
        lemma_run_on(CopyModel::CheckTarget, first, looked);
        lemma_looks(0, looks);
        assert(copy_run(CopyModel::AwaitRelease(looks), last) == CopyModel::CheckRelease);
    }
    let most = repeated(EventModel::Released(false), 24);
    assert(repeated(EventModel::Released(false), 25) =~= most + down);
    assert(first + repeated(EventModel::Released(false), 25) =~= first + most + down);
    lemma_run_on(CopyModel::CheckTarget, first + most, down);
    lemma_run_on(CopyModel::CheckTarget, first, most);
    lemma_looks(0, 24);
    assert(copy_run(CopyModel::AwaitRelease(24), down) == CopyModel::CheckRelease);
}

/// Copying succeeds: where the clipboard is preserved, the app with the selection is in
/// front, the keys are found released after up to 24 looks and are still released, all
/// four key events are taken, the clipboard changes within 20 looks, a text that is not
/// blank is read and the clipboard is restored, that text is what was copied.
pub proof fn copying_succeeds(looks: nat, polls: nat, text: Seq<char>, at: int)
    requires
        looks <= 24,
        polls <= 19,
        0 <= at < text.len(),
        !crate::text::is_white_space(text[at]),
    ensures
        copy_run(
            CopyModel::Preserve,
            seq![EventModel::Preserved(None), EventModel::InFront(true)] + repeated(
                EventModel::Released(false),
                looks,
            ) + seq![
                EventModel::Released(true),
                EventModel::Released(true),
                EventModel::Sent(4),
            ] + repeated(EventModel::Changed(false), polls) + seq![
                EventModel::Changed(true),
                EventModel::Text(Some(text)),
                EventModel::Restored(None),
            ],
        ) == CopyModel::Copied(Some(CaptureModel { text, anchor: None })),
{
    reveal_with_fuel(copy_run, 5);
    let first = seq![EventModel::Preserved(None), EventModel::InFront(true)];
    let looked = repeated(EventModel::Released(false), looks);
    let sent = seq![EventModel::Released(true), EventModel::Released(true), EventModel::Sent(4)];
    let polled = repeated(EventModel::Changed(false), polls);
    let last = seq![
        EventModel::Changed(true),
        EventModel::Text(Some(text)),
        EventModel::Restored(None),
    ];
    lemma_run_on(CopyModel::Preserve, first + looked + sent + polled, last);
    lemma_run_on(CopyModel::Preserve, first + looked + sent, polled);
    lemma_run_on(CopyModel::Preserve, first + looked, sent);
    lemma_run_on(CopyModel::Preserve, first, looked);
    lemma_looks(0, looks);
    lemma_polls(0, polls);
    assert(first.drop_first() =~= seq![EventModel::InFront(true)]);
    assert(copy_run(CopyModel::Preserve, first) == CopyModel::AwaitRelease(0));
    assert(sent.drop_first() =~= seq![EventModel::Released(true), EventModel::Sent(4)]);
    assert(sent.drop_first().drop_first() =~= seq![EventModel::Sent(4)]);
    assert(copy_run(CopyModel::AwaitRelease(looks), sent) == CopyModel::Poll(0));
    assert(last.drop_first() =~= seq![EventModel::Text(Some(text)), EventModel::Restored(None)]);
    assert(last.drop_first().drop_first() =~= seq![EventModel::Restored(None)]);
    assert(!is_blank_text(text));
    assert(copy_run(CopyModel::Poll(polls), last) == CopyModel::Copied(
        Some(CaptureModel { text, anchor: None }),
    ));
}

/// Where copying does not succeed, it says why: a clipboard that cannot be preserved ends
/// it at once; keys that are down at the check and key events that are not all taken end
/// it with their reason, however the clipboard is restored. A clipboard that cannot be
/// restored is the reason in every other run.
pub proof fn failed_copying_says_why(
    reason: Seq<char>,
    restored: Option<Seq<char>>,
    sent: nat,
    text: Option<Seq<char>>,
)
    requires
        sent != 4,
    ensures
        copy_next(CopyModel::Preserve, EventModel::Preserved(Some(reason))) == CopyModel::Failed(
            reason,
        ),
        copy_next(
            copy_next(CopyModel::CheckRelease, EventModel::Released(false)),
            EventModel::Restored(restored),
        ) == CopyModel::Failed("Release the shortcut keys, then try again."@),
        copy_next(
            copy_next(CopyModel::Send, EventModel::Sent(sent)),
            EventModel::Restored(restored),
        ) == CopyModel::Failed("Windows blocked the fallback copy shortcut."@),
        copy_next(
            copy_next(CopyModel::CheckTarget, EventModel::InFront(false)),
            EventModel::Restored(Some(reason)),
        ) == CopyModel::Failed(reason),
        copy_next(
            copy_next(CopyModel::Read, EventModel::Text(text)),
            EventModel::Restored(Some(reason)),
        ) == CopyModel::Failed(reason),
        copy_next(
            copy_next(CopyModel::Poll(19), EventModel::Changed(false)),
            EventModel::Restored(Some(reason)),
        ) == CopyModel::Failed(reason),
{
}

/// Where the clipboard is restored and there was nothing to copy, nothing is copied: the
/// app was no longer in front, the clipboard did not change at 20 looks, it held no text,
/// or a blank one. Before the last look there is always one more, and a change is read
/// at any look.
pub proof fn nothing_to_copy_is_no_failure(polls: nat, blank: Seq<char>)
    requires
        forall|i: int| 0 <= i < blank.len() ==> crate::text::is_white_space(#[trigger] blank[i]),
    ensures
        copy_next(
            copy_next(CopyModel::CheckTarget, EventModel::InFront(false)),
            EventModel::Restored(None),
        ) == CopyModel::Copied(None),
        copy_next(
            copy_next(CopyModel::Poll(19), EventModel::Changed(false)),
            EventModel::Restored(None),
        ) == CopyModel::Copied(None),
        copy_next(
            copy_next(CopyModel::Read, EventModel::Text(None)),
            EventModel::Restored(None),
        ) == CopyModel::Copied(None),
        copy_next(
            copy_next(CopyModel::Read, EventModel::Text(Some(blank))),
            EventModel::Restored(None),
        ) == CopyModel::Copied(None),
        polls < 19 ==> copy_next(CopyModel::Poll(polls), EventModel::Changed(false))
            == CopyModel::Poll(polls + 1),
        copy_next(CopyModel::Poll(polls), EventModel::Changed(true)) == CopyModel::Read,
{
}

}
