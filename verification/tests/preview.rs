use gloss::preview::compact_preview;

#[test]
fn preview_is_bounded_by_display_width() {
    let preview = compact_preview(&"学".repeat(30));
    assert_eq!(preview, format!("{}…", "学".repeat(22)));

    let mixed = compact_preview(&format!("{}{}", "a".repeat(40), "学".repeat(3)));
    assert_eq!(mixed, format!("{}学学…", "a".repeat(40)));
}

#[test]
fn preview_keeps_a_line_that_just_fits() {
    let line = "a".repeat(44);
    assert_eq!(compact_preview(&line), line);
    assert_eq!(compact_preview(&format!("{}b", line)), format!("{}…", line));

    let odd = format!("{}学", "a".repeat(43));
    assert_eq!(compact_preview(&odd), format!("{}…", "a".repeat(43)));
}

#[test]
fn preview_is_on_one_line() {
    assert_eq!(compact_preview("  one\r\n two\t\u{3000}three \u{a0}"), "one two three");
    assert_eq!(compact_preview(" \n\t "), "");
    assert_eq!(compact_preview(""), "");
    assert_eq!(compact_preview("zero\u{200b}width"), "zero\u{200b}width");
}

#[test]
fn preview_of_a_preview_is_the_same() {
    for text in [
        "short".to_owned(),
        " one\n two ".to_owned(),
        "学".repeat(30),
        format!("{} {}", "a".repeat(43), "学".repeat(3)),
        format!("{}学学", "a".repeat(43)),
    ] {
        let preview = compact_preview(&text);
        assert_eq!(compact_preview(&preview), preview);
    }
}
