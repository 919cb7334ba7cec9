//! The clipboard and the keyboard: what is preserved of the clipboard while the
//! selected text is copied, and which keys are pressed to copy it.

use crate::text::{append_decimal, decimal, joined};
use vstd::prelude::*;
use vstd::string::StringExecFns;

verus! {

/// The virtual key codes of the keys that copy.
pub const VK_CONTROL: u16 = 0x11;

pub const VK_INSERT: u16 = 0x2d;

/// The virtual key codes of the other modifier keys: Alt, Shift and the two Windows keys.
pub const VK_MENU: u16 = 0x12;

pub const VK_SHIFT: u16 = 0x10;

pub const VK_LWIN: u16 = 0x5b;

pub const VK_RWIN: u16 = 0x5c;

/// The modifier keys, which have to be released before the copy shortcut is sent.
pub const MODIFIER_KEYS: [u16; 5] = [VK_CONTROL, VK_MENU, VK_SHIFT, VK_LWIN, VK_RWIN];

/// The flag of a key event that releases the key.
pub const KEYEVENTF_KEYUP: u32 = 2;

/// The extended window styles of windows that the task bar shows and of tool
/// windows, which it does not show.
pub const WS_EX_APPWINDOW: isize = 0x40000;

pub const WS_EX_TOOLWINDOW: isize = 0x80;

/// A key event.
#[derive(Debug, Clone, Copy, PartialEq, Eq, Structural)]
pub struct KeyInput {
    pub virtual_key: u16,
    pub flags: u32,
}

pub open spec fn spec_key_input(key: u16, released: bool) -> KeyInput {
    KeyInput {
        virtual_key: key,
        flags: if released {
            KEYEVENTF_KEYUP
        } else {
            0
        },
    }
}

/// The event of a key that is pressed or released.
pub fn key_input(key: u16, released: bool) -> (input: KeyInput)
    ensures
        input == spec_key_input(key, released),
{
    KeyInput {
        virtual_key: key,
        flags: if released {
            KEYEVENTF_KEYUP
        } else {
            0
        },
    }
}

/// What the system says of a key. The state of a key that is down is negative.
#[derive(Debug, Clone, Copy, PartialEq, Eq, Structural)]
pub struct KeyState {
    pub virtual_key: u16,
    pub state: i16,
}

/// The key is one of the modifier keys: Control, Alt, Shift or a Windows key.
pub open spec fn is_modifier(key: u16) -> bool {
    key == VK_CONTROL || key == VK_MENU || key == VK_SHIFT || key == VK_LWIN || key == VK_RWIN
}

/// The key is said to be down.
pub open spec fn is_down(states: Seq<KeyState>, key: u16) -> bool {
    exists|i: int|
        0 <= i < states.len() && (#[trigger] states[i]).virtual_key == key && states[i].state < 0
}

/// The state of every modifier key is given.
pub open spec fn covers_modifiers(states: Seq<KeyState>) -> bool {
    forall|key: u16| #[trigger]
        is_modifier(key) ==> exists|i: int|
            0 <= i < states.len() && (#[trigger] states[i]).virtual_key == key
}

/// Whether every modifier key is released, from what the system says of these keys.
/// Other keys do not matter.
pub fn modifiers_released(states: &[KeyState]) -> (released: bool)
    requires
        covers_modifiers(states@),
    ensures
        released == forall|key: u16| #[trigger] is_modifier(key) ==> !is_down(states@, key),
{
    let mut i: usize = 0;
    while i < states.len()
        invariant
            i <= states@.len(),
            forall|j: int|
                0 <= j < i ==> !(is_modifier((#[trigger] states@[j]).virtual_key)
                    && states@[j].state < 0),
        decreases states@.len() - i,
    {
        let key: u16 = states[i].virtual_key;
        let modifier = key == VK_CONTROL || key == VK_MENU || key == VK_SHIFT || key == VK_LWIN
            || key == VK_RWIN;
        if modifier && states[i].state < 0 {
            assert(is_modifier(key) && is_down(states@, key));
            return false;
        }
        i += 1;
    }
    true
}

/// The listed modifier keys are all of them, so that a state for each listed key covers
/// the modifier keys.
pub proof fn listed_keys_are_the_modifiers(states: Seq<KeyState>)
    requires
        states.len() == MODIFIER_KEYS@.len(),
        forall|i: int|
            0 <= i < states.len() ==> (#[trigger] states[i]).virtual_key == MODIFIER_KEYS@[i],
    ensures
        covers_modifiers(states),
        forall|key: u16| #[trigger] is_modifier(key) <==> MODIFIER_KEYS@.contains(key),
{
    assert forall|key: u16| #[trigger] is_modifier(key) implies exists|i: int|
        0 <= i < states.len() && (#[trigger] states[i]).virtual_key == key by {
        let at = if key == VK_CONTROL {
            0int
        } else if key == VK_MENU {
            1
        } else if key == VK_SHIFT {
            2
        } else if key == VK_LWIN {
            3
        } else {
            4
        };
        assert(states[at].virtual_key == key);
    }
    assert forall|key: u16| #[trigger] is_modifier(key) == MODIFIER_KEYS@.contains(key) by {
        if is_modifier(key) {
            let i = choose|i: int| 0 <= i < states.len() && (#[trigger] states[i]).virtual_key == key;
            assert(MODIFIER_KEYS@[i] == key);
        }
    }
}

/// The events of the copy shortcut: Ctrl down, Insert down, Insert up, Ctrl up.
pub fn ctrl_insert_inputs() -> (inputs: [KeyInput; 4])
    ensures
        inputs@ == seq![
            spec_key_input(VK_CONTROL, false),
            spec_key_input(VK_INSERT, false),
            spec_key_input(VK_INSERT, true),
            spec_key_input(VK_CONTROL, true),
        ],
{
    let inputs = [
        key_input(VK_CONTROL, false),
        key_input(VK_INSERT, false),
        key_input(VK_INSERT, true),
        key_input(VK_CONTROL, true),
    ];
    assert(inputs@ =~= seq![
        spec_key_input(VK_CONTROL, false),
        spec_key_input(VK_INSERT, false),
        spec_key_input(VK_INSERT, true),
        spec_key_input(VK_CONTROL, true),
    ]);
    inputs
}

/// The events that press or release a key, among the first `n`: how often it was
/// pressed less how often it was released.
pub open spec fn held(inputs: Seq<KeyInput>, key: u16, n: int) -> int
    decreases n,
{
    if n <= 0 {
        0
    } else {
        held(inputs, key, n - 1) + (if inputs[n - 1].virtual_key != key {
            0int
        } else if inputs[n - 1].flags == KEYEVENTF_KEYUP {
            -1int
        } else {
            1int
        })
    }
}

/// The copy shortcut leaves no key pressed, and releases no key that it did not
/// press.
pub proof fn shortcut_is_balanced(inputs: Seq<KeyInput>, key: u16, n: int)
    requires
        inputs == seq![
            spec_key_input(VK_CONTROL, false),
            spec_key_input(VK_INSERT, false),
            spec_key_input(VK_INSERT, true),
            spec_key_input(VK_CONTROL, true),
        ],
        0 <= n <= 4,
    ensures
        held(inputs, key, n) >= 0,
        held(inputs, key, 4) == 0,
{
    reveal_with_fuel(held, 5);
}

/// The characters that UTF-16 code units stand for. A surrogate without its other
/// half stands for the replacement character.
pub open spec fn utf16_text(units: Seq<u16>) -> Seq<char>
    decreases units.len(),
{
    if units.len() == 0 {
        seq![]
    } else if units[0] < 0xd800 || 0xdfff < units[0] {
        seq![units[0] as char] + utf16_text(units.drop_first())
    } else if units[0] < 0xdc00 && units.len() > 1 && 0xdc00 <= units[1] <= 0xdfff {
        seq![(0x10000 + (units[0] - 0xd800) * 0x400 + (units[1] - 0xdc00)) as char] + utf16_text(
            units.skip(2),
        )
    } else {
        seq!['\u{fffd}'] + utf16_text(units.drop_first())
    }
}

/// `String::from_utf16_lossy` of std: decodes UTF-16, with the replacement
/// character for everything that is invalid.
#[verifier::external_body]
fn decode_utf16(units: &[u16]) -> (text: String)
    ensures
        text@ == utf16_text(units@),
{
    String::from_utf16_lossy(units)
}

/// The code units before the first that is zero.
pub open spec fn before_nul(units: Seq<u16>) -> Seq<u16>
    decreases units.len(),
{
    if units.len() == 0 || units[0] == 0 {
        seq![]
    } else {
        seq![units[0]] + before_nul(units.drop_first())
    }
}

/// How many code units a block of memory holds, if it holds any.
pub fn clipboard_units(byte_len: usize) -> (count: Option<usize>)
    ensures
        count == if byte_len < 2 {
            None
        } else {
            Some((byte_len as int / 2) as usize)
        },
{
    if byte_len < 2 {
        None
    } else {
        Some(byte_len / 2)
    }
}

/// The text that a block of code units on the clipboard holds.
pub fn clipboard_text(units: &[u16]) -> (text: String)
    ensures
        text@ == utf16_text(before_nul(units@)),
{
    let total: usize = units.len();
    let mut end: usize = 0;
    assert(units@.skip(0) =~= units@);
    assert(units@.take(0) =~= seq![]);
    while end < total && units[end] != 0
        invariant
            total == units@.len(),
            end <= total,
            before_nul(units@) =~= units@.take(end as int) + before_nul(units@.skip(end as int)),
        decreases total - end,
    {
        assert(units@.skip(end as int).drop_first() =~= units@.skip(end + 1));
        assert(units@.take(end + 1) =~= units@.take(end as int).push(units@[end as int]));
        end += 1;
    }
    assert(before_nul(units@.skip(end as int)) =~= seq![]);
    assert(before_nul(units@) =~= units@.take(end as int));
    let (text, _) = units.split_at(end);
    decode_utf16(text)
}

/// A path in code units, with the zero behind it that ends it.
pub fn wide_path(units: Vec<u16>) -> (path: Vec<u16>)
    ensures
        path@ == units@.push(0),
{
    let mut path = units;
    path.push(0);
    path
}

/// The style of a tool window, from the style that the window had.
pub fn tool_window_style(style: isize) -> (tool_style: isize)
    ensures
        tool_style == (style & !WS_EX_APPWINDOW) | WS_EX_TOOLWINDOW,
{
    (style & !WS_EX_APPWINDOW) | WS_EX_TOOLWINDOW
}

/// A tool window is shown as one and not in the task bar, and keeps its other
/// styles.
pub proof fn tool_window_keeps_other_styles(style: isize)
    ensures
        ((style & !WS_EX_APPWINDOW) | WS_EX_TOOLWINDOW) & WS_EX_APPWINDOW == 0,
        ((style & !WS_EX_APPWINDOW) | WS_EX_TOOLWINDOW) & WS_EX_TOOLWINDOW == WS_EX_TOOLWINDOW,
        ((style & !WS_EX_APPWINDOW) | WS_EX_TOOLWINDOW) & !(WS_EX_APPWINDOW | WS_EX_TOOLWINDOW)
            == style & !(WS_EX_APPWINDOW | WS_EX_TOOLWINDOW),
{
    assert(((style & !0x40000isize) | 0x80isize) & 0x40000isize == 0) by (bit_vector);
    assert(((style & !0x40000isize) | 0x80isize) & 0x80isize == 0x80isize) by (bit_vector);
    assert(((style & !0x40000isize) | 0x80isize) & !(0x40000isize | 0x80isize) == style & !(
    0x40000isize | 0x80isize)) by (bit_vector);
}

/// One format of the clipboard and the handle of a copy of its data. The handle is
/// zero once the data were given back.
#[derive(Debug, Clone, Copy, PartialEq, Eq, Structural)]
pub struct ClipboardFormat {
    pub format: u32,
    pub handle: isize,
}

/// No data have the handle.
pub open spec fn is_invalid_handle(handle: isize) -> bool {
    handle == 0 || handle == -1
}

fn invalid_handle(handle: isize) -> (invalid: bool)
    ensures
        invalid == is_invalid_handle(handle),
{
    handle == 0 || handle == -1
}

/// What is preserved of the clipboard.
#[derive(Debug)]
pub struct ClipboardSnapshot {
    pub owner: isize,
    pub formats: Vec<ClipboardFormat>,
    pub restored: bool,
}

/// The formats of which the data could be read and copied, among the first `n`.
pub open spec fn preserved(found: Seq<(u32, Option<isize>)>, n: int) -> Seq<ClipboardFormat>
    decreases n,
{
    if n <= 0 {
        seq![]
    } else {
        let before = preserved(found, n - 1);
        match found[n - 1].1 {
            Some(handle) => if is_invalid_handle(handle) {
                before
            } else {
                before.push(ClipboardFormat { format: found[n - 1].0, handle })
            },
            None => before,
        }
    }
}

/// A format after it was tried to give it back: without a handle where that was
/// taken, else as it was.
pub open spec fn after_return(item: ClipboardFormat, taken: bool) -> ClipboardFormat {
    if !is_invalid_handle(item.handle) && taken {
        ClipboardFormat { handle: 0, ..item }
    } else {
        item
    }
}

/// The formats after it was tried to give them back.
pub open spec fn returned(formats: Seq<ClipboardFormat>, taken: Seq<bool>) -> Seq<ClipboardFormat> {
    Seq::new(formats.len(), |i: int| after_return(formats[i], taken[i]))
}

/// How many of the first `n` formats were refused.
pub open spec fn refused(formats: Seq<ClipboardFormat>, taken: Seq<bool>, n: int) -> nat
    decreases n,
{
    if n <= 0 {
        0
    } else {
        refused(formats, taken, n - 1) + (if !is_invalid_handle(formats[n - 1].handle) && !taken[n
            - 1] {
            1nat
        } else {
            0nat
        })
    }
}

/// What came of giving the formats back to the clipboard.
#[derive(Debug)]
pub enum RestoreAttempt {
    /// The clipboard could not be opened.
    NotOpened,
    /// The clipboard could not be cleared, for this reason.
    NotCleared(String),
    /// For each format, whether the clipboard took it.
    Returned(Vec<bool>),
}

impl ClipboardSnapshot {
    /// A snapshot of the formats that the clipboard has, if it could be opened. With
    /// each format comes the handle of a copy of its data, or `None` where the data
    /// could not be read.
    pub fn capture(owner: isize, found: Option<Vec<(u32, Option<isize>)>>) -> (r: Result<
        Self,
        String,
    >)
        ensures
            match (found, r) {
                (None, Ok(_)) => false,
                (None, Err(message)) => message@
                    == "Could not open the clipboard for preservation."@,
                (Some(found), Ok(snapshot)) => {
                    &&& snapshot.owner == owner
                    &&& snapshot.formats@ == preserved(found@, found@.len() as int)
                    &&& !snapshot.restored
                    &&& found@.len() == 0 || snapshot.formats@.len() > 0
                },
                (Some(found), Err(message)) => {
                    &&& found@.len() > 0
                    &&& preserved(found@, found@.len() as int).len() == 0
                    &&& message@ == "Could not preserve the current clipboard formats."@
                },
            },
    {
        let found = match found {
            Some(found) => found,
            None => {
                return Err("Could not open the clipboard for preservation.".to_owned());
            },
        };
        let mut formats: Vec<ClipboardFormat> = Vec::new();
        let mut i: usize = 0;
        while i < found.len()
            invariant
                i <= found.len(),
                formats@ == preserved(found@, i as int),
            decreases found.len() - i,
        {
            let (format, duplicate) = found[i];
            match duplicate {
                Some(handle) => {
                    if !invalid_handle(handle) {
                        formats.push(ClipboardFormat { format, handle });
                    }
                },
                None => {},
            }
            i += 1;
        }
        if found.len() > 0 && formats.len() == 0 {
            return Err("Could not preserve the current clipboard formats.".to_owned());
        }
        Ok(ClipboardSnapshot { owner, formats, restored: false })
    }

    /// Whether the clipboard is still to be restored.
    pub fn needs_restore(&self) -> (needed: bool)
        ensures
            needed == !self.restored,
    {
        !self.restored
    }

    /// Whether the data of a format are still to be given back.
    pub fn holds(&self, at: usize) -> (holds: bool)
        requires
            at < self.formats@.len(),
        ensures
            holds == !is_invalid_handle(self.formats@[at as int].handle),
    {
        !invalid_handle(self.formats[at].handle)
    }

    /// Takes in what came of giving the formats back. What is said of a format
    /// without data does not matter, and nothing does once the clipboard is restored.
    pub fn restore(&mut self, attempt: RestoreAttempt) -> (r: Result<(), String>)
        requires
            attempt matches RestoreAttempt::Returned(taken) ==> taken@.len() == old(
                self,
            ).formats@.len(),
        ensures
            old(self).restored ==> *final(self) == *old(self) && r is Ok,
            !old(self).restored ==> match attempt {
                RestoreAttempt::NotOpened => {
                    &&& *final(self) == *old(self)
                    &&& r is Err
                    &&& r->Err_0@ == "Could not reopen the clipboard for restoration."@
                },
                RestoreAttempt::NotCleared(reason) => {
                    &&& *final(self) == *old(self)
                    &&& r is Err
                    &&& r->Err_0@ == "Could not clear the temporary clipboard: "@ + reason@
                },
                RestoreAttempt::Returned(taken) => {
                    let failed = refused(old(self).formats@, taken@, taken@.len() as int);
                    &&& final(self).owner == old(self).owner
                    &&& final(self).restored
                    &&& final(self).formats@ == returned(old(self).formats@, taken@)
                    &&& match r {
                        Ok(_) => failed == 0,
                        Err(message) => failed > 0 && message@ == "Could not restore "@ + decimal(
                            failed,
                        ) + " clipboard format(s)."@,
                    }
                },
            },
    {
        if self.restored {
            return Ok(());
        }
        let taken = match attempt {
            RestoreAttempt::NotOpened => {
                return Err("Could not reopen the clipboard for restoration.".to_owned());
            },
            RestoreAttempt::NotCleared(reason) => {
                return Err(joined("Could not clear the temporary clipboard: ", reason.as_str()));
            },
            RestoreAttempt::Returned(taken) => taken,
        };
        let mut failed: u64 = 0;
        let mut i: usize = 0;
        while i < self.formats.len()
            invariant
                i <= self.formats@.len(),
                self.formats@.len() == old(self).formats@.len(),
                taken@.len() == self.formats@.len(),
                self.owner == old(self).owner,
                failed <= i,
                failed == refused(old(self).formats@, taken@, i as int),
                forall|j: int|
                    0 <= j < i ==> #[trigger] self.formats@[j] == after_return(
                        old(self).formats@[j],
                        taken@[j],
                    ),
                forall|j: int|
                    i <= j < self.formats@.len() ==> #[trigger] self.formats@[j]
                        == old(self).formats@[j],
            decreases self.formats@.len() - i,
        {
            if !invalid_handle(self.formats[i].handle) {
                if taken[i] {
                    let item = &mut self.formats[i];
                    item.handle = 0;
                } else {
                    failed += 1;
                }
            }
            i += 1;
        }
        self.restored = true;
        assert(self.formats@ =~= returned(old(self).formats@, taken@));
        if failed == 0 {
            Ok(())
        } else {
            let mut message = "Could not restore ".to_owned();
            append_decimal(&mut message, failed);
            message.append(" clipboard format(s).");
            Err(message)
        }
    }
}

/// Every format in a new snapshot has data to give back.
pub proof fn snapshot_holds_data(found: Seq<(u32, Option<isize>)>, n: int)
    ensures
        forall|i: int|
            0 <= i < preserved(found, n).len() ==> !is_invalid_handle(
                (#[trigger] preserved(found, n)[i]).handle,
            ),
    decreases n,
{
    if n > 0 {
        snapshot_holds_data(found, n - 1);
        let before = preserved(found, n - 1);
        assert forall|i: int| 0 <= i < preserved(found, n).len() implies !is_invalid_handle(
            (#[trigger] preserved(found, n)[i]).handle,
        ) by {
            if i < before.len() {
                assert(preserved(found, n)[i] == before[i]);
            }
        }
    }
}

/// After the formats of a new snapshot were given back, exactly those that the
/// clipboard refused still have data, and each is the format that it was.
pub proof fn restore_gives_back_what_is_taken(
    found: Seq<(u32, Option<isize>)>,
    taken: Seq<bool>,
    at: int,
)
    requires
        0 <= at < preserved(found, found.len() as int).len(),
        taken.len() == preserved(found, found.len() as int).len(),
    ensures
        ({
            let formats = preserved(found, found.len() as int);
            &&& is_invalid_handle(returned(formats, taken)[at].handle) == taken[at]
            &&& returned(formats, taken)[at].format == formats[at].format
        }),
{
    snapshot_holds_data(found, found.len() as int);
}

/// A restore is without failures exactly when the clipboard took every format of the
/// new snapshot.
pub proof fn full_restore_has_no_failures(
    found: Seq<(u32, Option<isize>)>,
    taken: Seq<bool>,
    n: int,
)
    requires
        0 <= n <= preserved(found, found.len() as int).len(),
        taken.len() == preserved(found, found.len() as int).len(),
    ensures
        refused(preserved(found, found.len() as int), taken, n) == 0 <==> forall|i: int|
            0 <= i < n ==> #[trigger] taken[i],
    decreases n,
{
    if n > 0 {
        snapshot_holds_data(found, found.len() as int);
        full_restore_has_no_failures(found, taken, n - 1);
    }
}

/// How often opening the clipboard is tried.
pub const CLIPBOARD_OPEN_ATTEMPTS: u32 = 8;

/// The pause, in milliseconds, after each failure to open the clipboard.
pub const CLIPBOARD_OPEN_PAUSE: u64 = 10;

/// Whether opening the clipboard is tried once more, after it failed so often.
pub fn opens_again(failures: u32) -> (again: bool)
    ensures
        again == (failures < CLIPBOARD_OPEN_ATTEMPTS),
{
    failures < CLIPBOARD_OPEN_ATTEMPTS
}

/// A key event is about the key, and has a flag exactly where the key is released.
pub proof fn key_events_are_about_the_key(key: u16, released: bool)
    ensures
        spec_key_input(key, released).virtual_key == key,
        spec_key_input(key, released).flags == if released {
            2u32
        } else {
            0u32
        },
{
}

/// A text on the clipboard goes up to the first zero, or to the end where there is none.
pub proof fn text_goes_up_to_the_first_zero(units: Seq<u16>)
    ensures
        ({
            let text = before_nul(units);
            &&& text.is_prefix_of(units)
            &&& forall|i: int| 0 <= i < text.len() ==> #[trigger] text[i] != 0
            &&& text.len() < units.len() ==> units[text.len() as int] == 0
        }),
    decreases units.len(),
{
    if units.len() > 0 && units[0] != 0 {
        let rest = units.drop_first();
        text_goes_up_to_the_first_zero(rest);
        let text = before_nul(units);
        let further = before_nul(rest);
        assert forall|i: int| 0 <= i < text.len() implies #[trigger] text[i] == units[i] && text[i]
            != 0 by {
            if i > 0 {
                assert(text[i] == further[i - 1]);
                assert(further[i - 1] == rest[i - 1]);
            }
        }
        assert(text =~= units.take(text.len() as int));
    }
}

/// Code units that are no surrogates stand for the characters with their numbers.
pub proof fn plain_units_are_characters(units: Seq<u16>, i: int)
    requires
        forall|j: int| 0 <= j < units.len() ==> (#[trigger] units[j]) < 0xd800,
        0 <= i < units.len(),
    ensures
        utf16_text(units).len() == units.len(),
        utf16_text(units)[i] as int == units[i] as int,
    decreases units.len(),
{
    reveal_with_fuel(utf16_text, 2);
    let rest = units.drop_first();
    assert forall|j: int| 0 <= j < rest.len() implies (#[trigger] rest[j]) < 0xd800 by {
        assert(rest[j] == units[j + 1]);
    }
    assert(units[0] < 0xd800);
    if rest.len() > 0 {
        plain_units_are_characters(rest, if i > 0 {
            i - 1
        } else {
            0
        });
    }
}

/// A snapshot keeps each format whose data could be copied, with those data, in the order
/// in which the formats were found, and no other.
pub proof fn snapshot_keeps_what_was_copied(found: Seq<(u32, Option<isize>)>, n: int)
    requires
        0 <= n < found.len(),
    ensures
        preserved(found, 0).len() == 0,
        preserved(found, n + 1) == match found[n].1 {
            Some(handle) => if handle == 0 || handle == -1 {
                preserved(found, n)
            } else {
                preserved(found, n).push(ClipboardFormat { format: found[n].0, handle })
            },
            None => preserved(found, n),
        },
{
}

/// Each format is given back by itself: where the clipboard takes it, its data are gone
/// from the snapshot, and else they stay. Each format with data that is refused counts.
pub proof fn formats_are_given_back_one_by_one(
    formats: Seq<ClipboardFormat>,
    taken: Seq<bool>,
    at: int,
)
    requires
        0 <= at < formats.len(),
        taken.len() == formats.len(),
    ensures
        ({
            let holds = formats[at].handle != 0 && formats[at].handle != -1;
            let after = returned(formats, taken)[at];
            &&& returned(formats, taken).len() == formats.len()
            &&& after.format == formats[at].format
            &&& after.handle == (if holds && taken[at] {
                0
            } else {
                formats[at].handle
            })
            &&& refused(formats, taken, 0) == 0
            &&& refused(formats, taken, at + 1) == refused(formats, taken, at) + (if holds
                && !taken[at] {
                1nat
            } else {
                0nat
            })
        }),
{
}

/// A key is down exactly when it is said to be so somewhere; Control, Alt, Shift and the
/// two Windows keys are the modifier keys, and no other key is.
pub proof fn keys_are_down_as_said(states: Seq<KeyState>, at: int, key: u16)
    requires
        0 <= at < states.len(),
    ensures
        states[at].state < 0 ==> is_down(states, states[at].virtual_key),
        (forall|i: int|
            0 <= i < states.len() && (#[trigger] states[i]).virtual_key == key ==> states[i].state
                >= 0) ==> !is_down(states, key),
        is_modifier(key) <==> key == 0x10 || key == 0x11 || key == 0x12 || key == 0x5b || key
            == 0x5c,
{
}

}
