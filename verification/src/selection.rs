//! The selected text: which of the ways to read it is believed, and when the text
//! is to be copied instead.

use crate::geometry::SelectionRect;
use crate::text::{chars_of, is_blank, is_blank_text};
use vstd::prelude::*;

verus! {

/// The farthest ancestor of an element that is asked for a selection.
pub const MAX_ANCESTOR_DEPTH: usize = 64;

/// A selected text and where it stands, if that is known.
#[derive(Debug)]
pub struct SelectionCapture {
    pub text: String,
    pub anchor: Option<SelectionRect>,
}

/// What a capture holds.
#[verifier::ext_equal]
pub struct CaptureModel {
    pub text: Seq<char>,
    pub anchor: Option<SelectionRect>,
}

impl View for SelectionCapture {
    type V = CaptureModel;

    open spec fn view(&self) -> CaptureModel {
        CaptureModel { text: self.text@, anchor: self.anchor }
    }
}

impl Clone for SelectionCapture {
    fn clone(&self) -> (copy: Self)
        ensures
            copy@ == self@,
    {
        SelectionCapture { text: self.text.clone(), anchor: self.anchor }
    }
}

/// What an optional capture holds.
pub open spec fn capture_option(capture: Option<SelectionCapture>) -> Option<CaptureModel> {
    match capture {
        Some(capture) => Some(capture@),
        None => None,
    }
}

/// What a result of capturing holds.
pub open spec fn capture_result(r: Result<SelectionCapture, String>) -> Result<
    CaptureModel,
    Seq<char>,
> {
    match r {
        Ok(capture) => Ok(capture@),
        Err(message) => Err(message@),
    }
}

/// A character that stands for an object in the text or for a character that
/// could not be read.
pub open spec fn is_placeholder(c: char) -> bool {
    c == '\u{fffc}' || c == '\u{fffd}'
}

/// The text has a placeholder.
pub open spec fn has_placeholder(text: Seq<char>) -> bool {
    exists|i: int| 0 <= i < text.len() && is_placeholder(#[trigger] text[i])
}

/// Whether a text is to be copied instead of read, because it has a placeholder.
pub fn needs_copy_fallback(text: &str) -> (needed: bool)
    ensures
        needed == has_placeholder(text@),
{
    let chars = chars_of(text);
    let mut i: usize = 0;
    while i < chars.len()
        invariant
            i <= chars.len(),
            chars@ == text@,
            forall|j: int| 0 <= j < i ==> !is_placeholder(#[trigger] text@[j]),
        decreases chars.len() - i,
    {
        let c = chars[i];
        if c == '\u{fffc}' || c == '\u{fffd}' {
            assert(is_placeholder(text@[i as int]));
            return true;
        }
        i += 1;
    }
    false
}

/// What was read cannot be believed, so the text is to be copied.
pub open spec fn copy_is_needed(read: Option<CaptureModel>) -> bool {
    match read {
        Some(capture) => has_placeholder(capture.text),
        None => true,
    }
}

/// Whether the text is to be copied, after it was read or could not be.
pub fn needs_copy(read: &Option<SelectionCapture>) -> (needed: bool)
    ensures
        needed == copy_is_needed(capture_option(*read)),
{
    match read {
        Some(capture) => needs_copy_fallback(capture.text.as_str()),
        None => true,
    }
}

/// The outcome of capturing: what was read where it can be believed; else the
/// failure of copying, what was copied, or what was read after all.
pub open spec fn captured(
    target_found: bool,
    read: Option<CaptureModel>,
    copied: Option<Result<Option<SelectionCapture>, String>>,
) -> Result<CaptureModel, Seq<char>> {
    if !target_found {
        Err("Couldn't find the app containing the selection."@)
    } else if !copy_is_needed(read) {
        Ok(read->0)
    } else {
        match copied->0 {
            Err(message) => Err(message@),
            Ok(Some(capture)) => Ok(capture@),
            Ok(None) => match read {
                Some(capture) => Ok(capture),
                None => Err("Couldn't read the selected text in this app."@),
            },
        }
    }
}

/// Decides what was captured: from whether there is an app in front, what was read
/// from it and, where copying was needed, what came of that.
pub fn capture_selected_text(
    target_found: bool,
    read: Option<SelectionCapture>,
    copied: Option<Result<Option<SelectionCapture>, String>>,
) -> (r: Result<SelectionCapture, String>)
    requires
        target_found && copy_is_needed(capture_option(read)) ==> copied is Some,
    ensures
        capture_result(r) == captured(target_found, capture_option(read), copied),
{
    if !target_found {
        return Err("Couldn't find the app containing the selection.".to_owned());
    }
    if needs_copy(&read) {
        match copied {
            Some(Err(message)) => Err(message),
            Some(Ok(Some(capture))) => Ok(capture),
            _ => match read {
                Some(capture) => Ok(capture),
                None => Err("Couldn't read the selected text in this app.".to_owned()),
            },
        }
    } else {
        match read {
            Some(capture) => Ok(capture),
            None => Err("Couldn't read the selected text in this app.".to_owned()),
        }
    }
}

/// What was read by asking elements: what the focused element and its ancestors gave
/// or, where they gave nothing, what the element under the cursor and its ancestors
/// gave.
pub fn capture_with_uia(focused: Option<SelectionCapture>, at_cursor: Option<SelectionCapture>) -> (
    read: Option<SelectionCapture>)
    ensures
        capture_option(read) == if focused is Some {
            capture_option(focused)
        } else {
            capture_option(at_cursor)
        },
{
    match focused {
        Some(capture) => Some(capture),
        None => at_cursor,
    }
}

/// A walk from an element to its ancestors in search of a selection.
#[derive(Debug)]
pub struct AncestorWalk {
    depth: usize,
    best: Option<SelectionCapture>,
}

/// The last capture that was found among those asked.
pub open spec fn outermost(found: Seq<Option<CaptureModel>>) -> Option<CaptureModel>
    decreases found.len(),
{
    if found.len() == 0 {
        None
    } else if found.last() is Some {
        found.last()
    } else {
        outermost(found.drop_last())
    }
}

impl AncestorWalk {
    /// How many ancestors were gone up.
    pub closed spec fn spec_depth(self) -> nat {
        self.depth as nat
    }

    /// The best capture so far.
    pub closed spec fn spec_best(self) -> Option<CaptureModel> {
        capture_option(self.best)
    }

    /// A walk that begins at an element.
    pub fn new() -> (walk: AncestorWalk)
        ensures
            walk.spec_depth() == 0,
            walk.spec_best() == outermost(seq![]),
    {
        AncestorWalk { depth: 0, best: None }
    }

    /// Takes in what the present element gave, and says whether its parent is to
    /// be asked next.
    pub fn visit(&mut self, found: Option<SelectionCapture>) -> (goes_on: bool)
        ensures
            goes_on == (old(self).spec_depth() < MAX_ANCESTOR_DEPTH),
            final(self).spec_depth() == old(self).spec_depth() + (if goes_on {
                1nat
            } else {
                0nat
            }),
            final(self).spec_best() == if found is Some {
                capture_option(found)
            } else {
                old(self).spec_best()
            },
    {
        if found.is_some() {
            self.best = found;
        }
        if self.depth >= MAX_ANCESTOR_DEPTH {
            return false;
        }
        self.depth = self.depth + 1;
        true
    }

    /// The best capture of the walk.
    pub fn into_best(self) -> (best: Option<SelectionCapture>)
        ensures
            capture_option(best) == self.spec_best(),
    {
        self.best
    }
}

/// Taking in one more element keeps the outermost capture: the one that the last
/// element with a selection gave.
pub proof fn walk_keeps_outermost(found: Seq<Option<CaptureModel>>, next: Option<CaptureModel>)
    ensures
        outermost(found.push(next)) == if next is Some {
            next
        } else {
            outermost(found)
        },
{
    assert(found.push(next).drop_last() =~= found);
}

/// The text of a range, where it can be read and is not blank.
pub fn readable_text(text: Option<String>) -> (r: Option<String>)
    ensures
        r == match text {
            Some(text) => if is_blank_text(text@) {
                None
            } else {
                Some(text)
            },
            None => None,
        },
{
    match text {
        Some(text) => if is_blank(text.as_str()) {
            None
        } else {
            Some(text)
        },
        None => None,
    }
}

/// The first of the texts that can be read and is not blank, by its position.
pub open spec fn first_readable(texts: Seq<Option<String>>) -> Option<int>
    decreases texts.len(),
{
    if texts.len() == 0 {
        None
    } else {
        match first_readable(texts.drop_last()) {
            Some(at) => Some(at),
            None => if texts.last() is Some && !is_blank_text(texts.last()->0@) {
                Some(texts.len() - 1)
            } else {
                None
            },
        }
    }
}

/// Picks the selected range of an element: the first of its ranges with a text that can
/// be read and is not blank. Gives its position and its text.
pub fn pick_range(texts: Vec<Option<String>>) -> (picked: Option<(usize, String)>)
    ensures
        match picked {
            Some((at, text)) => {
                &&& at < texts@.len()
                &&& first_readable(texts@) == Some(at as int)
                &&& texts@[at as int] == Some(text)
            },
            None => first_readable(texts@) is None,
        },
{
    let ghost all = texts@;
    let mut at: usize = 0;
    let total: usize = texts.len();
    assert(all.take(0) =~= seq![]);
    for text in it: texts
        invariant
            it.seq() == all,
            total == all.len(),
            at == it.index(),
            first_readable(all.take(it.index() as int)) is None,
    {
        assert(all.take(it.index() + 1).drop_last() =~= all.take(it.index() as int));
        assert(all.take(it.index() + 1).last() == text);
        if let Some(text) = readable_text(text) {
            proof {
                lemma_first_readable_stays(all, it.index() + 1);
            }
            return Some((at, text));
        }
        at += 1;
    }
    assert(all.take(all.len() as int) =~= all);
    None
}

/// A first readable text among fewer texts is the first among more.
proof fn lemma_first_readable_stays(texts: Seq<Option<String>>, n: int)
    requires
        0 <= n <= texts.len(),
        first_readable(texts.take(n)) is Some,
    ensures
        first_readable(texts) == first_readable(texts.take(n)),
    decreases texts.len() - n,
{
    if n < texts.len() {
        assert(texts.take(n + 1).drop_last() =~= texts.take(n));
        lemma_first_readable_stays(texts, n + 1);
    } else {
        assert(texts.take(n) =~= texts);
    }
}

/// The capture of a range: its text, and the last of its rectangles, if they could
/// be read.
pub fn range_capture(text: String, rects: Option<Vec<SelectionRect>>) -> (capture: SelectionCapture)
    ensures
        capture@ == (CaptureModel {
            text: text@,
            anchor: match rects {
                Some(rects) => if rects@.len() > 0 {
                    Some(rects@.last())
                } else {
                    None
                },
                None => None,
            },
        }),
{
    let anchor = match rects {
        Some(rects) => if rects.len() > 0 {
            Some(rects[rects.len() - 1])
        } else {
            None
        },
        None => None,
    };
    SelectionCapture { text, anchor }
}

/// A capture is seen with its text and its place.
pub proof fn captures_are_seen_whole(capture: SelectionCapture)
    ensures
        capture@.text == capture.text@,
        capture@.anchor == capture.anchor,
        capture_option(Some(capture)) == Some(capture@),
        capture_option(None) is None,
        capture_result(Ok(capture)) == Ok::<CaptureModel, Seq<char>>(capture@),
{
}

/// A text has a placeholder exactly when one of its parts has, and a single character is
/// one where it stands for an object or for what could not be read.
pub proof fn placeholders_are_found_anywhere(first: Seq<char>, second: Seq<char>, c: char)
    ensures
        has_placeholder(first + second) <==> has_placeholder(first) || has_placeholder(second),
        has_placeholder(seq![c]) <==> c == '\u{fffc}' || c == '\u{fffd}',
        !has_placeholder(seq![]),
{
    let both = first + second;
    if has_placeholder(first) {
        let i = choose|i: int| 0 <= i < first.len() && is_placeholder(#[trigger] first[i]);
        assert(both[i] == first[i]);
    }
    if has_placeholder(second) {
        let i = choose|i: int| 0 <= i < second.len() && is_placeholder(#[trigger] second[i]);
        assert(both[first.len() + i] == second[i]);
    }
    if has_placeholder(both) {
        let i = choose|i: int| 0 <= i < both.len() && is_placeholder(#[trigger] both[i]);
        if i < first.len() {
            assert(is_placeholder(first[i]));
        } else {
            assert(is_placeholder(second[i - first.len()]));
        }
    }
    if c == '\u{fffc}' || c == '\u{fffd}' {
        assert(is_placeholder(seq![c][0]));
    }
}

/// What was read without a placeholder is the capture, whatever copying came to.
pub proof fn clean_reading_is_captured(
    read: CaptureModel,
    copied: Option<Result<Option<SelectionCapture>, String>>,
)
    requires
        forall|i: int|
            0 <= i < read.text.len() ==> #[trigger] read.text[i] != '\u{fffc}' && read.text[i]
                != '\u{fffd}',
    ensures
        captured(true, Some(read), copied) == Ok::<CaptureModel, Seq<char>>(read),
        !copy_is_needed(Some(read)),
{
}

/// What was copied is the capture wherever nothing was read, or something with a
/// placeholder in it.
pub proof fn copied_text_is_captured(read: Option<CaptureModel>, copy: SelectionCapture, at: int)
    requires
        read is Some ==> 0 <= at < read->0.text.len() && (read->0.text[at] == '\u{fffc}'
            || read->0.text[at] == '\u{fffd}'),
    ensures
        captured(true, read, Some(Ok(Some(copy)))) is Ok,
        captured(true, read, Some(Ok(Some(copy))))->Ok_0.text == copy.text@,
        captured(true, read, Some(Ok(Some(copy))))->Ok_0.anchor == copy.anchor,
        copy_is_needed(read),
{
    if read is Some {
        assert(is_placeholder(read->0.text[at]));
    }
}

/// Capturing fails only for one of three reasons: no app is in front; copying was needed
/// and failed, with the reason for that; or neither reading nor copying gave anything.
pub proof fn capture_fails_only_for_a_reason(
    target_found: bool,
    read: Option<CaptureModel>,
    copied: Option<Result<Option<SelectionCapture>, String>>,
)
    requires
        target_found && copy_is_needed(read) ==> copied is Some,
    ensures
        captured(target_found, read, copied) is Err <==> {
            ||| !target_found
            ||| copy_is_needed(read) && copied->0 is Err
            ||| read is None && copied->0 is Ok && copied->0->Ok_0 is None
        },
        !target_found ==> captured(target_found, read, copied)
            == Err::<CaptureModel, Seq<char>>("Couldn't find the app containing the selection."@),
        target_found && copy_is_needed(read) && copied->0 is Err ==> captured(
            target_found,
            read,
            copied,
        ) == Err::<CaptureModel, Seq<char>>(copied->0->Err_0@),
        target_found && read is None && copied->0 is Ok && copied->0->Ok_0 is None ==> captured(
            target_found,
            read,
            copied,
        ) == Err::<CaptureModel, Seq<char>>("Couldn't read the selected text in this app."@),
{
}

/// What was read with a placeholder is better than nothing: it is the capture where
/// copying gave nothing.
pub proof fn reading_is_kept_where_nothing_is_copied(read: CaptureModel)
    ensures
        captured(true, Some(read), Some(Ok(None))) == Ok::<CaptureModel, Seq<char>>(read),
{
}

/// The outermost capture is one that was found, and nothing was found after it; there is
/// none exactly when nothing was found.
pub proof fn outermost_is_the_last_found(found: Seq<Option<CaptureModel>>, at: int)
    requires
        0 <= at < found.len(),
    ensures
        found[at] is Some && (forall|j: int| at < j < found.len() ==> #[trigger] found[j] is None)
            ==> outermost(found) == found[at],
        (forall|j: int| 0 <= j < found.len() ==> #[trigger] found[j] is None) <==> outermost(found)
            is None,
    decreases found.len(),
{
    let n = found.len() - 1;
    let fewer = found.drop_last();
    assert(found[n] == found.last());
    if found.last() is None {
        if at < n {
            outermost_is_the_last_found(fewer, at);
        } else if n > 0 {
            outermost_is_the_last_found(fewer, 0);
        }
        assert forall|j: int| 0 <= j < fewer.len() implies #[trigger] found[j] == fewer[j] by {}
        if n == 0 {
            assert(outermost(fewer) is None);
        } else if outermost(fewer) is None {
            assert forall|j: int| 0 <= j < found.len() implies #[trigger] found[j] is None by {
                if j < n {
                    assert(fewer[j] is None);
                }
            }
        } else if forall|j: int| 0 <= j < found.len() ==> #[trigger] found[j] is None {
            assert forall|j: int| 0 <= j < fewer.len() implies #[trigger] fewer[j] is None by {
                assert(found[j] is None);
            }
        }
    }
}

/// The range that is picked has a text that can be read and is not blank, and no range
/// before it has; there is none only where no range has one.
pub proof fn picked_range_is_the_first(texts: Seq<Option<String>>, j: int)
    requires
        0 <= j < texts.len(),
    ensures
        match first_readable(texts) {
            Some(at) => {
                &&& 0 <= at < texts.len()
                &&& texts[at] is Some
                &&& exists|i: int|
                    0 <= i < texts[at]->0@.len() && !crate::text::is_white_space(
                        #[trigger] texts[at]->0@[i],
                    )
                &&& j < at && texts[j] is Some ==> forall|i: int|
                    0 <= i < texts[j]->0@.len() ==> crate::text::is_white_space(
                        #[trigger] texts[j]->0@[i],
                    )
            },
            None => texts[j] is Some ==> forall|i: int|
                0 <= i < texts[j]->0@.len() ==> crate::text::is_white_space(
                    #[trigger] texts[j]->0@[i],
                ),
        },
    decreases texts.len(),
{
    let fewer = texts.drop_last();
    if j < fewer.len() {
        picked_range_is_the_first(fewer, j);
        assert(fewer[j] == texts[j]);
    } else if fewer.len() > 0 {
        picked_range_is_the_first(fewer, 0);
    } else {
        assert(first_readable(fewer) is None);
    }
    if first_readable(fewer) is Some {
        let at = first_readable(fewer)->0;
        assert(fewer[at] == texts[at]);
    }
}

}
