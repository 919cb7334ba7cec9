//! The one-line preview of a selected text that the history list shows.

use crate::text::{chars_of, is_white_space};
use vstd::prelude::*;

verus! {

/// The widest preview, in display columns, that is shown without an ellipsis.
pub const MAX_DISPLAY_WIDTH: usize = 44;

/// The words of a text: its longest runs of characters that are no white space.
pub open spec fn words(text: Seq<char>) -> Seq<Seq<char>>
    decreases text.len(),
{
    if text.len() == 0 {
        seq![]
    } else {
        let before = words(text.drop_last());
        if is_white_space(text.last()) {
            before
        } else if text.len() == 1 || is_white_space(text[text.len() - 2]) {
            before.push(seq![text.last()])
        } else {
            before.drop_last().push(before.last().push(text.last()))
        }
    }
}

/// Words with one space between each two of them.
pub open spec fn spaced(list: Seq<Seq<char>>) -> Seq<char>
    decreases list.len(),
{
    if list.len() == 0 {
        seq![]
    } else if list.len() == 1 {
        list[0]
    } else {
        spaced(list.drop_last()).push(' ') + list.last()
    }
}

/// A text on one line: its words with single spaces between them.
pub open spec fn one_line(text: Seq<char>) -> Seq<char> {
    spaced(words(text))
}

/// The columns that a character takes: ASCII is narrow, everything else is wide.
pub open spec fn char_width(c: char) -> nat {
    if (c as u32) < 128 {
        1
    } else {
        2
    }
}

/// The columns that a text takes.
pub open spec fn text_width(text: Seq<char>) -> nat
    decreases text.len(),
{
    if text.len() == 0 {
        0
    } else {
        text_width(text.drop_last()) + char_width(text.last())
    }
}

/// The longest beginning of a line that fits in the display width.
pub open spec fn fitting(line: Seq<char>) -> Seq<char>
    decreases line.len(),
{
    if line.len() == 0 || text_width(line) <= MAX_DISPLAY_WIDTH {
        line
    } else {
        fitting(line.drop_last())
    }
}

/// A line cut to the display width, with an ellipsis where something was cut.
pub open spec fn shortened(line: Seq<char>) -> Seq<char> {
    if text_width(line) <= MAX_DISPLAY_WIDTH {
        line
    } else {
        fitting(line).push('\u{2026}')
    }
}

/// The preview of a text.
pub open spec fn preview_of(text: Seq<char>) -> Seq<char> {
    shortened(one_line(text))
}

/// A word is running at the end of a text exactly when the text ends with a
/// character that is no white space.
proof fn lemma_words_running(text: Seq<char>)
    requires
        text.len() > 0,
        !is_white_space(text.last()),
    ensures
        words(text).len() > 0,
        words(text).last().len() > 0,
        words(text).last().last() == text.last(),
    decreases text.len(),
{
    if text.len() > 1 && !is_white_space(text[text.len() - 2]) {
        lemma_words_running(text.drop_last());
    }
}

/// Every word of a text is non-empty and free of white space.
pub proof fn words_are_solid(text: Seq<char>)
    ensures
        forall|i: int| 0 <= i < words(text).len() ==> (#[trigger] words(text)[i]).len() > 0,
        forall|i: int, j: int|
            0 <= i < words(text).len() && 0 <= j < words(text)[i].len() ==> !is_white_space(
                #[trigger] words(text)[i][j],
            ),
    decreases text.len(),
{
    if text.len() > 0 {
        let before = words(text.drop_last());
        words_are_solid(text.drop_last());
        if !is_white_space(text.last()) && text.len() > 1 && !is_white_space(text[text.len() - 2]) {
            lemma_words_running(text.drop_last());
            let now = words(text);
            assert forall|i: int| 0 <= i < now.len() implies (#[trigger] now[i]).len() > 0 by {
                if i < before.len() - 1 {
                    assert(now[i] == before[i]);
                }
            }
            assert forall|i: int, j: int|
                0 <= i < now.len() && 0 <= j < now[i].len() implies !is_white_space(
                #[trigger] now[i][j],
            ) by {
                if i < before.len() - 1 {
                    assert(now[i] == before[i]);
                    assert(!is_white_space(before[i][j]));
                } else if j < now[i].len() - 1 {
                    assert(!is_white_space(before[before.len() - 1][j]));
                }
            }
        } else if !is_white_space(text.last()) {
            let now = words(text);
            assert forall|i: int| 0 <= i < now.len() implies (#[trigger] now[i]).len() > 0 by {
                if i < before.len() {
                    assert(now[i] == before[i]);
                }
            }
            assert forall|i: int, j: int|
                0 <= i < now.len() && 0 <= j < now[i].len() implies !is_white_space(
                #[trigger] now[i][j],
            ) by {
                if i < before.len() {
                    assert(now[i] == before[i]);
                    assert(!is_white_space(before[i][j]));
                }
            }
        }
    }
}

/// Appending a character to the last word appends it to the spaced words.
proof fn lemma_spaced_grow(list: Seq<Seq<char>>, c: char)
    requires
        list.len() > 0,
    ensures
        spaced(list.drop_last().push(list.last().push(c))) == spaced(list).push(c),
{
    let grown = list.drop_last().push(list.last().push(c));
    assert(grown.drop_last() =~= list.drop_last());
    assert(spaced(grown) =~= spaced(list).push(c));
}

/// A new word of one character is set off by a space unless it is the first.
proof fn lemma_spaced_new(list: Seq<Seq<char>>, c: char)
    ensures
        list.len() == 0 ==> spaced(list.push(seq![c])) == seq![c],
        list.len() > 0 ==> spaced(list.push(seq![c])) == spaced(list).push(' ').push(c),
{
    let longer = list.push(seq![c]);
    assert(longer.drop_last() =~= list);
    if list.len() > 0 {
        assert(spaced(longer) =~= spaced(list).push(' ').push(c));
    } else {
        assert(spaced(longer) =~= seq![c]);
    }
}

proof fn lemma_width_monotone(line: Seq<char>, n: int)
    requires
        0 <= n <= line.len(),
    ensures
        text_width(line.take(n)) <= text_width(line),
    decreases line.len() - n,
{
    if n == line.len() {
        assert(line.take(n) =~= line);
    } else {
        lemma_width_monotone(line, n + 1);
        assert(line.take(n + 1).drop_last() =~= line.take(n));
    }
}

/// Where the beginning of `n` characters fits and one more would not, it is the
/// longest beginning that fits.
proof fn lemma_fitting(line: Seq<char>, n: int)
    requires
        0 <= n < line.len(),
        text_width(line.take(n)) <= MAX_DISPLAY_WIDTH,
        text_width(line.take(n + 1)) > MAX_DISPLAY_WIDTH,
    ensures
        text_width(line) > MAX_DISPLAY_WIDTH,
        fitting(line) == line.take(n),
    decreases line.len(),
{
    lemma_width_monotone(line, n + 1);
    let shorter = line.drop_last();
    if n + 1 < line.len() {
        assert(shorter.take(n) =~= line.take(n));
        assert(shorter.take(n + 1) =~= line.take(n + 1));
        lemma_fitting(shorter, n);
    } else {
        assert(shorter =~= line.take(n));
        assert(fitting(shorter) == shorter);
    }
}

/// What is shown before an ellipsis fits in the display width, and nothing
/// longer does.
pub proof fn fitting_is_longest(line: Seq<char>, n: int)
    requires
        0 <= n <= line.len(),
    ensures
        text_width(fitting(line)) <= MAX_DISPLAY_WIDTH,
        fitting(line).is_prefix_of(line),
        text_width(line.take(n)) <= MAX_DISPLAY_WIDTH ==> n <= fitting(line).len(),
    decreases line.len(),
{
    if line.len() == 0 || text_width(line) <= MAX_DISPLAY_WIDTH {
    } else {
        let shorter = line.drop_last();
        if n < line.len() {
            fitting_is_longest(shorter, n);
            assert(shorter.take(n) =~= line.take(n));
        } else {
            fitting_is_longest(shorter, shorter.len() as int);
            assert(line.take(n) =~= line);
        }
    }
}

/// In the one-line form of a text every white space is a single space between two
/// words: it is neither the first nor the last character, and what stands before and
/// after it is no white space.
pub proof fn one_line_has_single_spaces(text: Seq<char>, at: int)
    requires
        0 <= at < one_line(text).len(),
        is_white_space(one_line(text)[at]),
    ensures
        one_line(text)[at] == ' ',
        0 < at < one_line(text).len() - 1,
        !is_white_space(one_line(text)[at - 1]),
        !is_white_space(one_line(text)[at + 1]),
{
    words_are_solid(text);
    lemma_spaces_in(words(text), at);
}

/// Words without white space in them.
spec fn are_solid(list: Seq<Seq<char>>) -> bool {
    &&& forall|i: int| 0 <= i < list.len() ==> (#[trigger] list[i]).len() > 0
    &&& forall|i: int, j: int|
        0 <= i < list.len() && 0 <= j < list[i].len() ==> !is_white_space(#[trigger] list[i][j])
}

/// The spaced words end with the last word.
proof fn lemma_spaced_end(list: Seq<Seq<char>>)
    requires
        list.len() > 0,
        are_solid(list),
    ensures
        spaced(list).len() >= list.last().len() > 0,
        spaced(list).last() == list.last().last(),
        !is_white_space(spaced(list).last()),
{
    let last = list.last();
    assert(list[list.len() - 1][last.len() - 1] == last.last());
}

proof fn lemma_spaces_in(list: Seq<Seq<char>>, at: int)
    requires
        are_solid(list),
        0 <= at < spaced(list).len(),
        is_white_space(spaced(list)[at]),
    ensures
        spaced(list)[at] == ' ',
        0 < at < spaced(list).len() - 1,
        !is_white_space(spaced(list)[at - 1]),
        !is_white_space(spaced(list)[at + 1]),
    decreases list.len(),
{
    if list.len() == 1 {
        assert(!is_white_space(list[0][at]));
    } else {
        let front = list.drop_last();
        let last = list.last();
        let n = spaced(front).len() as int;
        assert forall|i: int, j: int|
            0 <= i < front.len() && 0 <= j < front[i].len() implies !is_white_space(
            #[trigger] front[i][j],
        ) by {
            assert(!is_white_space(list[i][j]));
        }
        assert(are_solid(front));
        lemma_spaced_end(front);
        assert(!is_white_space(list[list.len() - 1][0]));
        if at < n {
            lemma_spaces_in(front, at);
        } else if at > n {
            assert(!is_white_space(list[list.len() - 1][at - n - 1]));
        }
    }
}

/// A beginning of a line whose words have single spaces between them: it begins with a
/// word, and every white space in it is a space behind a word.
spec fn is_spaced_out(text: Seq<char>) -> bool {
    forall|i: int|
        0 <= i < text.len() && is_white_space(#[trigger] text[i]) ==> text[i] == ' ' && 0 < i
            && !is_white_space(text[i - 1])
}

/// Such a beginning is its own one-line form, but for a space at its end.
proof fn lemma_one_line_kept(text: Seq<char>)
    requires
        is_spaced_out(text),
    ensures
        text.len() == 0 || !is_white_space(text.last()) ==> one_line(text) == text,
        text.len() > 0 && is_white_space(text.last()) ==> one_line(text) == text.drop_last(),
        text.len() > 0 ==> words(text).len() > 0,
    decreases text.len(),
{
    if text.len() > 0 {
        let before = text.drop_last();
        let c = text.last();
        assert forall|i: int| 0 <= i < before.len() && is_white_space(#[trigger] before[i]) implies
            before[i] == ' ' && 0 < i && !is_white_space(before[i - 1]) by {
            assert(text[i] == before[i]);
            assert(text[i - 1] == before[i - 1]);
        }
        lemma_one_line_kept(before);
        assert(text[text.len() - 1] == c);
        if is_white_space(c) {
            assert(before.last() == text[text.len() - 2]);
        } else if before.len() == 0 {
            lemma_spaced_new(words(before), c);
            assert(one_line(text) =~= text);
        } else if is_white_space(before.last()) {
            assert(before[before.len() - 1] == ' ');
            lemma_spaced_new(words(before), c);
            assert(one_line(text) =~= text);
        } else {
            lemma_words_running(before);
            lemma_spaced_grow(words(before), c);
            assert(one_line(text) =~= text);
        }
    }
}

proof fn lemma_one_line_spaced_out(text: Seq<char>)
    ensures
        is_spaced_out(one_line(text)),
        one_line(text).len() > 0 ==> !is_white_space(one_line(text).last()),
{
    let line = one_line(text);
    assert forall|i: int| 0 <= i < line.len() && is_white_space(#[trigger] line[i]) implies line[i]
        == ' ' && 0 < i && !is_white_space(line[i - 1]) by {
        one_line_has_single_spaces(text, i);
    }
    if line.len() > 0 && is_white_space(line.last()) {
        one_line_has_single_spaces(text, line.len() - 1);
    }
}

/// A line that is cut is cut right at the display width: not more than one column of it
/// is left free.
proof fn lemma_fitting_is_full(line: Seq<char>)
    requires
        text_width(line) > MAX_DISPLAY_WIDTH,
    ensures
        text_width(fitting(line)) + 1 >= MAX_DISPLAY_WIDTH,
    decreases line.len(),
{
    let shorter = line.drop_last();
    if text_width(shorter) > MAX_DISPLAY_WIDTH {
        lemma_fitting_is_full(shorter);
    } else {
        assert(fitting(shorter) == shorter);
    }
}

/// The preview of a preview is that preview.
pub proof fn preview_is_kept(text: Seq<char>)
    ensures
        preview_of(preview_of(text)) == preview_of(text),
{
    let line = one_line(text);
    let preview = preview_of(text);
    lemma_one_line_spaced_out(text);
    if text_width(line) <= MAX_DISPLAY_WIDTH {
        lemma_one_line_kept(line);
    } else {
        let kept = fitting(line);
        fitting_is_longest(line, 0);
        lemma_fitting_is_full(line);
        assert forall|i: int| 0 <= i < preview.len() && is_white_space(#[trigger] preview[i]) implies
            preview[i] == ' ' && 0 < i && !is_white_space(preview[i - 1]) by {
            assert(preview[i] == line[i]);
            assert(preview[i - 1] == line[i - 1]);
        }
        lemma_one_line_kept(preview);
        assert(preview.drop_last() =~= kept);
        assert(fitting(kept) == kept);
        assert(fitting(preview) == kept);
    }
}

/// A preview never takes more columns than the display width and one ellipsis.
pub proof fn preview_is_bounded(text: Seq<char>)
    ensures
        text_width(preview_of(text)) <= MAX_DISPLAY_WIDTH + char_width('\u{2026}'),
{
    let line = one_line(text);
    fitting_is_longest(line, 0);
    let kept = fitting(line);
    assert(kept.push('\u{2026}').drop_last() =~= kept);
}

/// The one-line form of a text.
fn single_line(text: &str) -> (line: Vec<char>)
    ensures
        line@ == one_line(text@),
{
    let chars = chars_of(text);
    let mut line: Vec<char> = Vec::new();
    let mut i: usize = 0;
    let mut running = false;
    assert(text@.take(0) =~= seq![]);
    while i < chars.len()
        invariant
            chars@ == text@,
            i <= chars.len(),
            line@ == one_line(text@.take(i as int)),
            running == (i > 0 && !is_white_space(text@[i - 1])),
            line@.len() > 0 <==> words(text@.take(i as int)).len() > 0,
        decreases chars.len() - i,
    {
        let c = chars[i];
        let ghost before = text@.take(i as int);
        let ghost now = text@.take(i + 1);
        assert(now.drop_last() =~= before);
        assert(now.last() == c);
        if c.is_whitespace() {
            running = false;
        } else {
            if running {
                proof {
                    assert(before.last() == text@[i - 1]);
                    lemma_words_running(before);
                    lemma_spaced_grow(words(before), c);
                }
            } else {
                proof {
                    lemma_spaced_new(words(before), c);
                }
                if line.len() > 0 {
                    line.push(' ');
                }
            }
            line.push(c);
            running = true;
            assert(line@ =~= one_line(now));
            assert(words(now).len() > 0);
        }
        i += 1;
    }
    assert(text@.take(text@.len() as int) =~= text@);
    line
}

/// The preview of a selected text: on one line, and cut with an ellipsis where
/// it is wider than the display width.
pub fn compact_preview(text: &str) -> (preview: String)
    ensures
        preview@ == preview_of(text@),
{
    let line = single_line(text);
    let mut preview = String::new();
    let mut display_width: usize = 0;
    let mut i: usize = 0;
    assert(line@.take(0) =~= seq![]);
    while i < line.len()
        invariant
            line@ == one_line(text@),
            i <= line.len(),
            preview@ == line@.take(i as int),
            display_width == text_width(line@.take(i as int)),
            display_width <= MAX_DISPLAY_WIDTH,
        decreases line.len() - i,
    {
        let c = line[i];
        let character_width: usize = if (c as u32) < 128 { 1 } else { 2 };
        assert(line@.take(i + 1).drop_last() =~= line@.take(i as int));
        assert(line@.take(i + 1) =~= line@.take(i as int).push(c));
        if display_width + character_width > MAX_DISPLAY_WIDTH {
            proof {
                lemma_fitting(line@, i as int);
            }
            preview.push('\u{2026}');
            return preview;
        }
        preview.push(c);
        display_width += character_width;
        i += 1;
    }
    assert(line@.take(line@.len() as int) =~= line@);
    preview
}

/// A text of columns takes the columns of its parts together; an ASCII character takes
/// one, every other character two.
pub proof fn columns_add_up(first: Seq<char>, second: Seq<char>, c: char)
    ensures
        text_width(first + second) == text_width(first) + text_width(second),
        text_width(seq![c]) == if c <= '\u{7f}' {
            1nat
        } else {
            2nat
        },
        text_width(seq![]) == 0,
    decreases second.len(),
{
    if second.len() == 0 {
        assert(first + second =~= first);
    } else {
        assert((first + second).drop_last() =~= first + second.drop_last());
        columns_add_up(first, second.drop_last(), c);
    }
    let single = seq![c];
    assert(single.drop_last() =~= seq![]);
    assert(single.last() == c);
    assert(text_width(single) == text_width(single.drop_last()) + char_width(c));
}

/// Words on both sides of white space: they are the words of the text before it and then
/// those of the text after it.
proof fn lemma_words_apart(first: Seq<char>, space: char, second: Seq<char>)
    requires
        is_white_space(space),
    ensures
        words(first.push(space) + second) == words(first) + words(second),
    decreases second.len(),
{
    let front = first.push(space);
    let text = front + second;
    if second.len() == 0 {
        assert(text =~= front);
        assert(front.drop_last() =~= first);
        assert(words(first) + words(second) =~= words(first));
    } else {
        let shorter = second.drop_last();
        let c = second.last();
        assert(text.drop_last() =~= front + shorter);
        lemma_words_apart(first, space, shorter);
        if is_white_space(c) {
        } else if shorter.len() == 0 {
            assert(text[text.len() - 2] == space);
            assert(words(text) =~= words(first) + words(second));
        } else {
            assert(text[text.len() - 2] == second[second.len() - 2]);
            if is_white_space(second[second.len() - 2]) {
                assert(words(text) =~= words(first) + words(second));
            } else {
                assert(shorter.last() == second[second.len() - 2]);
                lemma_words_running(shorter);
                assert(words(text) =~= words(first) + words(second));
            }
        }
    }
}

proof fn lemma_spaced_apart(first: Seq<Seq<char>>, second: Seq<Seq<char>>)
    requires
        first.len() > 0,
        second.len() > 0,
    ensures
        spaced(first + second) == spaced(first).push(' ') + spaced(second),
    decreases second.len(),
{
    let all = first + second;
    assert(all.drop_last() =~= first + second.drop_last());
    if second.len() == 1 {
        assert(first + second.drop_last() =~= first);
        assert(spaced(all) =~= spaced(first).push(' ') + spaced(second));
    } else {
        lemma_spaced_apart(first, second.drop_last());
        assert(spaced(all) =~= spaced(first).push(' ') + spaced(second));
    }
}

proof fn lemma_blank_has_no_words(text: Seq<char>)
    ensures
        words(text).len() == 0 <==> forall|i: int|
            0 <= i < text.len() ==> is_white_space(#[trigger] text[i]),
    decreases text.len(),
{
    if text.len() > 0 {
        let before = text.drop_last();
        lemma_blank_has_no_words(before);
        assert(text[text.len() - 1] == text.last());
        assert forall|i: int| 0 <= i < before.len() implies #[trigger] text[i] == before[i] by {}
        if !is_white_space(text.last()) {
            lemma_words_running(text);
        } else if words(text).len() == 0 {
            assert forall|i: int| 0 <= i < text.len() implies is_white_space(#[trigger] text[i]) by {
                if i < before.len() {
                    assert(is_white_space(before[i]));
                }
            }
        } else {
            let i = choose|i: int| 0 <= i < before.len() && !is_white_space(#[trigger] before[i]);
            assert(!is_white_space(text[i]));
        }
    }
}

/// A text is put on one line by its white space alone: what has none stays as it is, and
/// white space between two texts that are not blank becomes one space between what they
/// become. Next to a blank text it becomes nothing.
pub proof fn one_line_joins_with_spaces(first: Seq<char>, space: char, second: Seq<char>)
    requires
        is_white_space(space),
    ensures
        ({
            let blank = |text: Seq<char>|
                forall|i: int| 0 <= i < text.len() ==> is_white_space(#[trigger] text[i]);
            let whole = first.push(space) + second;
            &&& !blank(first) && !blank(second) ==> one_line(whole) == one_line(first).push(' ')
                + one_line(second)
            &&& blank(second) ==> one_line(whole) == one_line(first)
            &&& blank(first) ==> one_line(whole) == one_line(second)
        }),
{
    lemma_words_apart(first, space, second);
    lemma_blank_has_no_words(first);
    lemma_blank_has_no_words(second);
    if words(first).len() == 0 {
        assert(words(first) + words(second) =~= words(second));
    } else if words(second).len() == 0 {
        assert(words(first) + words(second) =~= words(first));
    } else {
        lemma_spaced_apart(words(first), words(second));
    }
}

/// A text without white space is on one line as it is.
pub proof fn solid_text_is_kept(text: Seq<char>)
    requires
        forall|i: int| 0 <= i < text.len() ==> !is_white_space(#[trigger] text[i]),
    ensures
        one_line(text) == text,
{
    lemma_one_line_kept(text);
}

/// A preview is the whole line where that takes 44 columns at most. Else it is a beginning
/// of the line of 43 or 44 columns with an ellipsis behind it.
pub proof fn preview_is_the_line_or_its_beginning(text: Seq<char>)
    ensures
        ({
            let line = one_line(text);
            let preview = preview_of(text);
            &&& text_width(line) <= 44 ==> preview == line
            &&& text_width(line) > 44 ==> {
                &&& preview.len() > 0
                &&& preview.last() == '\u{2026}'
                &&& preview.drop_last().is_prefix_of(line)
                &&& 43 <= text_width(preview.drop_last()) <= 44
                &&& preview.len() <= line.len()
            }
        }),
{
    let line = one_line(text);
    if text_width(line) > 44 {
        fitting_is_longest(line, line.len() as int);
        lemma_fitting_is_full(line);
        assert(preview_of(text).drop_last() =~= fitting(line));
        if fitting(line).len() == line.len() {
            assert(fitting(line) =~= line);
        }
    }
}

}
