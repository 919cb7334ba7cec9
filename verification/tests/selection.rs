use gloss::geometry::SelectionRect;
use gloss::selection::{
    capture_selected_text, capture_with_uia, needs_copy, needs_copy_fallback,
    pick_range, range_capture, readable_text, AncestorWalk, SelectionCapture, MAX_ANCESTOR_DEPTH,
};

fn capture(text: &str) -> SelectionCapture {
    SelectionCapture { text: text.to_owned(), anchor: None }
}

#[test]
fn embedded_object_placeholder_requests_copy_semantics() {
    assert!(needs_copy_fallback("any color you want \u{fffc}"));
}

#[test]
fn replacement_character_requests_copy_semantics() {
    assert!(needs_copy_fallback("\u{fffd}"));
    assert!(!needs_copy_fallback("plain text"));
    assert!(!needs_copy_fallback(""));
}

#[test]
fn readable_selection_is_not_copied() {
    let read = Some(capture("as read"));
    assert!(!needs_copy(&read));
    assert_eq!(capture_selected_text(true, read, None).unwrap().text, "as read");
}

#[test]
fn selection_without_a_target_fails() {
    assert_eq!(
        capture_selected_text(false, Some(capture("x")), None).unwrap_err(),
        "Couldn't find the app containing the selection."
    );
}

#[test]
fn copied_text_wins_over_placeholders() {
    let read = Some(capture("with \u{fffc}"));
    assert!(needs_copy(&read));
    let copied = capture_selected_text(true, read, Some(Ok(Some(capture("with image")))));
    assert_eq!(copied.unwrap().text, "with image");

    let read = Some(capture("with \u{fffc}"));
    let kept = capture_selected_text(true, read, Some(Ok(None)));
    assert_eq!(kept.unwrap().text, "with \u{fffc}");

    let read = Some(capture("with \u{fffc}"));
    let failed = capture_selected_text(true, read, Some(Err("blocked".to_owned())));
    assert_eq!(failed.unwrap_err(), "blocked");
}

#[test]
fn nothing_read_and_nothing_copied_fails() {
    assert!(needs_copy(&None));
    assert_eq!(
        capture_selected_text(true, None, Some(Ok(None))).unwrap_err(),
        "Couldn't read the selected text in this app."
    );
}

#[test]
fn walk_keeps_the_outermost_selection() {
    let mut walk = AncestorWalk::new();
    assert!(walk.visit(Some(capture("inner"))));
    assert!(walk.visit(None));
    assert!(walk.visit(Some(capture("outer"))));
    assert!(walk.visit(None));
    assert_eq!(walk.into_best().unwrap().text, "outer");
    assert!(AncestorWalk::new().into_best().is_none());
}

#[test]
fn walk_ends_at_the_farthest_ancestor() {
    let mut walk = AncestorWalk::new();
    let mut visits: usize = 1;
    while walk.visit(None) {
        visits += 1;
    }
    assert_eq!(visits, MAX_ANCESTOR_DEPTH + 1);
}

#[test]
fn ranges_give_text_and_last_rectangle() {
    assert_eq!(readable_text(None), None);
    assert_eq!(readable_text(Some("\t".to_owned())), None);
    assert_eq!(readable_text(Some(" a".to_owned())), Some(" a".to_owned()));
    let first = SelectionRect { left: 1, top: 1, width: 1, height: 1 };
    let last = SelectionRect { left: 2, top: 2, width: 2, height: 2 };
    assert_eq!(range_capture("a".to_owned(), Some(vec![first, last])).anchor, Some(last));
    assert_eq!(range_capture("a".to_owned(), Some(vec![])).anchor, None);
    assert_eq!(range_capture("a".to_owned(), None).anchor, None);
}

#[test]
fn focused_element_comes_before_the_cursor() {
    let both = capture_with_uia(Some(capture("focus")), Some(capture("cursor")));
    assert_eq!(both.unwrap().text, "focus");
    assert_eq!(capture_with_uia(None, Some(capture("cursor"))).unwrap().text, "cursor");
    assert!(capture_with_uia(None, None).is_none());
}

#[test]
fn first_readable_range_is_picked() {
    let text = |text: &str| Some(text.to_owned());
    let picked = pick_range(vec![None, text(" "), text("second"), text("third")]);
    assert_eq!(picked, Some((2, "second".to_owned())));
    assert_eq!(pick_range(vec![None, text("\n")]), None);
    assert_eq!(pick_range(vec![]), None);
}
