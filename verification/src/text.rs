//! Text helpers shared by the rest of the library. Every one of them is
//! specified on the sequence of characters that a string holds.

use vstd::prelude::*;
use vstd::string::StringExecFns;

verus! {

/// The Unicode property `White_Space`.
pub open spec fn is_white_space(c: char) -> bool {
    ||| '\u{9}' <= c <= '\u{d}'
    ||| c == '\u{20}'
    ||| c == '\u{85}'
    ||| c == '\u{a0}'
    ||| c == '\u{1680}'
    ||| '\u{2000}' <= c <= '\u{200a}'
    ||| c == '\u{2028}'
    ||| c == '\u{2029}'
    ||| c == '\u{202f}'
    ||| c == '\u{205f}'
    ||| c == '\u{3000}'
}

/// `char::is_whitespace` of std: true exactly on the characters that have the
/// Unicode property `White_Space`.
pub assume_specification[ char::is_whitespace ](c: char) -> (white: bool)
    ensures
        white == is_white_space(c),
;

/// `String::push` of std: appends one character at the end.
pub assume_specification[ String::push ](text: &mut String, c: char)
    ensures
        final(text)@ == old(text)@.push(c),
;

/// A text that holds nothing but white space.
pub open spec fn is_blank_text(text: Seq<char>) -> bool {
    forall|i: int| 0 <= i < text.len() ==> is_white_space(#[trigger] text[i])
}

/// The ASCII lower-case form of a character; other characters stay as they are.
pub open spec fn lower_char(c: char) -> char {
    if 'A' <= c <= 'Z' {
        (c as u8 + 32) as char
    } else {
        c
    }
}

/// The ASCII lower-case form of a text.
pub open spec fn lower_text(text: Seq<char>) -> Seq<char> {
    text.map_values(|c: char| lower_char(c))
}

/// `part` occurs in `text` at position `at`.
pub open spec fn occurs_at(text: Seq<char>, part: Seq<char>, at: int) -> bool {
    &&& 0 <= at
    &&& at + part.len() <= text.len()
    &&& text.subrange(at, at + part.len()) == part
}

/// `part` occurs somewhere in `text`.
pub open spec fn contains_text(text: Seq<char>, part: Seq<char>) -> bool {
    exists|at: int| occurs_at(text, part, at)
}

/// `text` ends with `part`.
pub open spec fn ends_with_text(text: Seq<char>, part: Seq<char>) -> bool {
    &&& part.len() <= text.len()
    &&& text.subrange(text.len() - part.len(), text.len() as int) == part
}

/// The character of a decimal digit.
pub open spec fn digit_char(digit: int) -> char {
    (48 + digit) as u8 as char
}

/// A number in decimal, without leading zeros.
pub open spec fn decimal(n: nat) -> Seq<char>
    decreases n,
{
    if n < 10 {
        seq![digit_char(n as int)]
    } else {
        decimal(n / 10).push(digit_char((n % 10) as int))
    }
}

/// The characters of a text, in order.
pub fn chars_of(text: &str) -> (chars: Vec<char>)
    ensures
        chars@ == text@,
{
    let mut chars: Vec<char> = Vec::new();
    for c in it: text.chars()
        invariant
            it.seq() == text@,
            chars@ == text@.take(it.index() as int),
    {
        chars.push(c);
        assert(text@.take(it.index() as int + 1) =~= text@.take(it.index() as int).push(c));
    }
    assert(text@.take(text@.len() as int) =~= text@);
    chars
}

/// Whether a text holds nothing but white space.
pub fn is_blank(text: &str) -> (blank: bool)
    ensures
        blank == is_blank_text(text@),
{
    let chars = chars_of(text);
    let mut i: usize = 0;
    while i < chars.len()
        invariant
            i <= chars.len(),
            chars@ == text@,
            forall|j: int| 0 <= j < i ==> is_white_space(#[trigger] chars@[j]),
        decreases chars.len() - i,
    {
        if !chars[i].is_whitespace() {
            return false;
        }
        i += 1;
    }
    true
}

fn lower(c: char) -> (r: char)
    ensures
        r == lower_char(c),
{
    if 'A' <= c && c <= 'Z' {
        (c as u8 + 32) as char
    } else {
        c
    }
}

/// Whether `part` occurs in the ASCII lower-case form of `text`.
pub fn lower_contains(text: &str, part: &str) -> (found: bool)
    ensures
        found == contains_text(lower_text(text@), part@),
{
    let chars = chars_of(text);
    let wanted = chars_of(part);
    let ghost lowered = lower_text(text@);
    if wanted.len() > chars.len() {
        return false;
    }
    let last: usize = chars.len() - wanted.len();
    let mut at: usize = 0;
    while at <= last
        invariant
            chars@ == text@,
            wanted@ == part@,
            lowered == lower_text(text@),
            last + wanted.len() == chars.len(),
            at <= last + 1,
            forall|k: int| 0 <= k < at ==> !occurs_at(lowered, part@, k),
        decreases last + 1 - at,
    {
        let mut i: usize = 0;
        let mut same = true;
        while i < wanted.len() && same
            invariant
                chars@ == text@,
                wanted@ == part@,
                lowered == lower_text(text@),
                last + wanted.len() == chars.len(),
                at <= last,
                i <= wanted.len(),
                same ==> forall|j: int| 0 <= j < i ==> lowered[at + j] == #[trigger] part@[j],
                !same ==> exists|j: int|
                    0 <= j < part@.len() && lowered[at + j] != #[trigger] part@[j],
            decreases wanted.len() - i + (if same { 1int } else { 0int }),
        {
            if lower(chars[at + i]) == wanted[i] {
                i += 1;
            } else {
                assert(lowered[at + i] != part@[i as int]);
                same = false;
            }
        }
        if same {
            assert(lowered.subrange(at as int, at + part@.len()) =~= part@);
            assert(occurs_at(lowered, part@, at as int));
            return true;
        }
        proof {
            let j = choose|j: int| 0 <= j < part@.len() && lowered[at + j] != #[trigger] part@[j];
            assert(lowered.subrange(at as int, at + part@.len())[j] == lowered[at + j]);
        }
        at += 1;
    }
    false
}

/// Whether `text` ends with `part`.
pub fn ends_with(text: &str, part: &str) -> (found: bool)
    ensures
        found == ends_with_text(text@, part@),
{
    let chars = chars_of(text);
    let wanted = chars_of(part);
    if wanted.len() > chars.len() {
        return false;
    }
    let at: usize = chars.len() - wanted.len();
    let mut i: usize = 0;
    while i < wanted.len()
        invariant
            chars@ == text@,
            wanted@ == part@,
            at + wanted.len() == chars.len(),
            i <= wanted.len(),
            forall|j: int| 0 <= j < i ==> chars@[at + j] == #[trigger] wanted@[j],
        decreases wanted.len() - i,
    {
        if chars[at + i] != wanted[i] {
            assert(text@.subrange(at as int, text@.len() as int)[i as int] != part@[i as int]);
            return false;
        }
        i += 1;
    }
    assert(text@.subrange(at as int, text@.len() as int) =~= part@);
    true
}

/// Appends a number in decimal.
pub fn append_decimal(text: &mut String, n: u64)
    ensures
        final(text)@ == old(text)@ + decimal(n as nat),
    decreases n,
{
    let digit: u8 = (n % 10) as u8;
    if n >= 10 {
        append_decimal(text, n / 10);
    }
    text.push((48 + digit) as char);
    assert(text@ =~= old(text)@ + decimal(n as nat));
}

/// The concatenation of two texts.
pub fn joined(first: &str, second: &str) -> (text: String)
    ensures
        text@ == first@ + second@,
{
    let mut text = first.to_owned();
    text.append(second);
    text
}

/// An equal copy of an optional text.
pub fn copy_option(text: &Option<String>) -> (copy: Option<String>)
    ensures
        copy == *text,
{
    match text {
        Some(value) => Some(value.clone()),
        None => None,
    }
}

/// The characters of an optional text.
pub open spec fn option_text(text: Option<String>) -> Option<Seq<char>> {
    match text {
        Some(value) => Some(value@),
        None => None,
    }
}

/// The reason why something failed, or `None` where it did not.
pub open spec fn failure(outcome: Result<(), String>) -> Option<Seq<char>> {
    match outcome {
        Ok(_) => None,
        Err(reason) => Some(reason@),
    }
}

/// A text is blank exactly when both its parts are: the empty text is, and a single
/// character is where it is white space.
pub proof fn blankness_goes_by_characters(first: Seq<char>, second: Seq<char>, c: char)
    ensures
        is_blank_text(first + second) <==> is_blank_text(first) && is_blank_text(second),
        is_blank_text(seq![c]) <==> is_white_space(c),
        is_blank_text(seq![]),
{
    let both = first + second;
    if is_blank_text(both) {
        assert forall|i: int| 0 <= i < first.len() implies is_white_space(#[trigger] first[i]) by {
            assert(both[i] == first[i]);
        }
        assert forall|i: int| 0 <= i < second.len() implies is_white_space(
            #[trigger] second[i],
        ) by {
            assert(both[first.len() + i] == second[i]);
        }
    }
    assert(seq![c][0] == c);
}

/// A letter of the upper-case ASCII alphabet becomes the letter at the same place of the
/// lower-case one, and every other character stays.
pub proof fn lower_case_is_ascii(text: Seq<char>, i: int)
    requires
        0 <= i < text.len(),
    ensures
        lower_text(text).len() == text.len(),
        'A' <= text[i] <= 'Z' ==> lower_text(text)[i] as int - 'a' as int == text[i] as int
            - 'A' as int,
        !('A' <= text[i] <= 'Z') ==> lower_text(text)[i] == text[i],
{
}

/// A text contains what it was put together with, and what it contains it can be put
/// together with.
pub proof fn containing_is_being_put_together(
    text: Seq<char>,
    before: Seq<char>,
    part: Seq<char>,
    after: Seq<char>,
)
    ensures
        contains_text(before + part + after, part),
        contains_text(text, part) ==> exists|at: int|
            0 <= at && at + part.len() <= text.len() && text == #[trigger] text.take(at) + part
                + text.skip(at + part.len()),
{
    let whole = before + part + after;
    let n = before.len() as int;
    assert(whole.subrange(n, n + part.len()) =~= part);
    assert(occurs_at(whole, part, n));
    if contains_text(text, part) {
        let at = choose|at: int| occurs_at(text, part, at);
        assert(text =~= text.take(at) + part + text.skip(at + part.len())) by {
            assert forall|i: int| 0 <= i < part.len() implies part[i] == text[at + i] by {
                assert(text.subrange(at, at + part.len())[i] == text[at + i]);
            }
        }
    }
}

/// A text ends with what was put behind it, and with nothing else of that length.
pub proof fn ending_is_being_put_behind(before: Seq<char>, part: Seq<char>, other: Seq<char>)
    requires
        other.len() == part.len(),
    ensures
        ends_with_text(before + part, other) <==> other == part,
        ends_with_text(before, other) ==> before.len() >= other.len(),
{
    let whole = before + part;
    assert(whole.subrange(whole.len() - part.len(), whole.len() as int) =~= part);
}

/// The number that decimal digits stand for.
pub open spec fn number_of(digits: Seq<char>) -> int
    decreases digits.len(),
{
    if digits.len() == 0 {
        0
    } else {
        10 * number_of(digits.drop_last()) + (digits.last() as int - '0' as int)
    }
}

/// A number in decimal consists of digits, stands for the number, and begins with a zero
/// only where the number is zero.
pub proof fn decimal_stands_for_the_number(n: nat)
    ensures
        number_of(decimal(n)) == n,
        decimal(n).len() > 0,
        forall|i: int| 0 <= i < decimal(n).len() ==> '0' <= #[trigger] decimal(n)[i] <= '9',
        decimal(n)[0] == '0' ==> n == 0,
    decreases n,
{
    if n < 10 {
        let digits = decimal(n);
        assert(digits.drop_last() =~= seq![]);
        assert(number_of(seq![]) == 0);
    } else {
        decimal_stands_for_the_number(n / 10);
        let front = decimal(n / 10);
        let digits = decimal(n);
        assert(digits.drop_last() =~= front);
        assert forall|i: int| 0 <= i < digits.len() implies '0' <= #[trigger] digits[i] <= '9' by {
            if i < front.len() {
                assert(digits[i] == front[i]);
            }
        }
        assert(digits[0] == front[0]);
    }
}

/// An optional text and a failure are seen as they are.
pub proof fn options_are_seen_whole(text: String)
    ensures
        option_text(Some(text)) == Some(text@),
        option_text(None) is None,
        failure(Err(text)) == Some(text@),
        failure(Ok(())) is None,
{
}

}
