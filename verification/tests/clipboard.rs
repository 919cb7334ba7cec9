use gloss::clipboard::{
    clipboard_text, clipboard_units, ctrl_insert_inputs, key_input, modifiers_released, opens_again,
    tool_window_style, wide_path, ClipboardFormat, ClipboardSnapshot, KeyState, RestoreAttempt,
    KEYEVENTF_KEYUP, MODIFIER_KEYS, VK_CONTROL, VK_INSERT,
};

#[test]
fn key_input_marks_only_release_events() {
    let pressed = key_input(VK_INSERT, false);
    let released = key_input(VK_INSERT, true);
    assert_eq!(pressed.flags, 0);
    assert_eq!(released.flags, KEYEVENTF_KEYUP);
}

#[test]
fn fallback_copy_does_not_synthesize_unrelated_modifier_releases() {
    let inputs = ctrl_insert_inputs();
    let keys = inputs.map(|input| input.virtual_key);
    assert_eq!(keys, [VK_CONTROL, VK_INSERT, VK_INSERT, VK_CONTROL]);
    assert_eq!(inputs[2].flags, KEYEVENTF_KEYUP);
    assert_eq!(inputs[3].flags, KEYEVENTF_KEYUP);
}

#[test]
fn clipboard_text_ends_at_the_first_zero() {
    let units: Vec<u16> = "选中 text\0rest".encode_utf16().collect();
    assert_eq!(clipboard_text(&units), "选中 text");
    let open: Vec<u16> = "open".encode_utf16().collect();
    assert_eq!(clipboard_text(&open), "open");
    assert_eq!(clipboard_text(&[0, 65]), "");
    assert_eq!(clipboard_text(&[]), "");
}

#[test]
fn clipboard_text_replaces_lone_surrogates() {
    assert_eq!(clipboard_text(&[0xd834, 0xdd1e, 0x6d]), "\u{1d11e}m");
    assert_eq!(clipboard_text(&[0xd834, 0x6d]), "\u{fffd}m");
    assert_eq!(clipboard_text(&[0xdd1e, 0xd834]), "\u{fffd}\u{fffd}");
    assert_eq!(clipboard_text(&[0xd834, 0xd834, 0xdd1e]), "\u{fffd}\u{1d11e}");
    assert_eq!(clipboard_text(&[0xd7ff, 0xe000, 0xffff]), "\u{d7ff}\u{e000}\u{ffff}");
}

#[test]
fn clipboard_memory_is_counted_in_units() {
    assert_eq!(clipboard_units(0), None);
    assert_eq!(clipboard_units(1), None);
    assert_eq!(clipboard_units(2), Some(1));
    assert_eq!(clipboard_units(7), Some(3));
}

#[test]
fn paths_end_with_a_zero() {
    assert_eq!(wide_path(vec![67, 58]), vec![67, 58, 0]);
    assert_eq!(wide_path(vec![]), vec![0]);
}

#[test]
fn tool_windows_leave_the_task_bar() {
    assert_eq!(tool_window_style(0x40000), 0x80);
    assert_eq!(tool_window_style(0x40108), 0x188);
    assert_eq!(tool_window_style(0x80), 0x80);
}

#[test]
fn snapshot_keeps_what_could_be_copied() {
    let found = vec![(13, Some(100)), (1, None), (2, Some(0)), (3, Some(-1)), (7, Some(200))];
    let snapshot = ClipboardSnapshot::capture(9, Some(found)).unwrap();
    assert_eq!(snapshot.owner, 9);
    assert_eq!(
        snapshot.formats,
        vec![
            ClipboardFormat { format: 13, handle: 100 },
            ClipboardFormat { format: 7, handle: 200 },
        ]
    );
    assert!(snapshot.needs_restore());
}

#[test]
fn snapshot_of_nothing_is_fine_but_losing_everything_is_not() {
    assert!(ClipboardSnapshot::capture(9, Some(vec![])).unwrap().formats.is_empty());
    assert_eq!(
        ClipboardSnapshot::capture(9, Some(vec![(1, None), (2, Some(0))])).unwrap_err(),
        "Could not preserve the current clipboard formats."
    );
}

#[test]
fn clipboard_that_stays_closed_is_not_preserved() {
    assert_eq!(
        ClipboardSnapshot::capture(9, None).unwrap_err(),
        "Could not open the clipboard for preservation."
    );
    assert!(opens_again(7));
    assert!(!opens_again(8));
}

#[test]
fn restore_counts_what_was_refused() {
    let found: Vec<(u32, Option<isize>)> = (1..=12).map(|format| (format, Some(50))).collect();
    let mut snapshot = ClipboardSnapshot::capture(9, Some(found)).unwrap();
    let mut taken = vec![false; 12];
    taken[3] = true;
    assert_eq!(
        snapshot.restore(RestoreAttempt::Returned(taken.clone())).unwrap_err(),
        "Could not restore 11 clipboard format(s)."
    );
    assert!(!snapshot.holds(3));
    assert!(snapshot.holds(4));
    assert!(!snapshot.needs_restore());
    assert_eq!(snapshot.restore(RestoreAttempt::Returned(taken)), Ok(()));
    assert_eq!(snapshot.restore(RestoreAttempt::NotOpened), Ok(()));
}

#[test]
fn restore_gives_everything_back_once() {
    let found = vec![(13, Some(100)), (7, Some(200))];
    let mut snapshot = ClipboardSnapshot::capture(9, Some(found)).unwrap();
    assert_eq!(snapshot.restore(RestoreAttempt::Returned(vec![true, true])), Ok(()));
    assert!(!snapshot.holds(0));
    assert!(!snapshot.holds(1));
}

#[test]
fn restore_can_be_tried_again() {
    let mut snapshot = ClipboardSnapshot::capture(9, Some(vec![(13, Some(100))])).unwrap();
    assert_eq!(
        snapshot.restore(RestoreAttempt::NotOpened).unwrap_err(),
        "Could not reopen the clipboard for restoration."
    );
    assert_eq!(
        snapshot.restore(RestoreAttempt::NotCleared("busy".to_owned())).unwrap_err(),
        "Could not clear the temporary clipboard: busy"
    );
    assert!(snapshot.needs_restore());
    assert!(snapshot.holds(0));
    assert_eq!(snapshot.restore(RestoreAttempt::Returned(vec![true])), Ok(()));
    assert!(!snapshot.needs_restore());
}

#[test]
fn every_modifier_key_has_to_be_released() {
    assert_eq!(MODIFIER_KEYS, [0x11, 0x12, 0x10, 0x5b, 0x5c]);
    let states = |down: u16| {
        let mut states = MODIFIER_KEYS
            .map(|virtual_key| KeyState {
                virtual_key,
                state: if virtual_key == down { -32768 } else { 1 },
            })
            .to_vec();
        states.push(KeyState { virtual_key: VK_INSERT, state: -1 });
        states
    };
    assert!(modifiers_released(&states(0)));
    for key in MODIFIER_KEYS {
        assert!(!modifiers_released(&states(key)));
    }
}
