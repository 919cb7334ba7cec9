//! Identifiers of sessions, turns, messages and attempts, and the names of the
//! files that sessions are kept in.

use crate::text::{chars_of, ends_with, ends_with_text, joined, lower_char, lower_text};
use uuid::Uuid;
use vstd::prelude::*;

verus! {

#[verifier::external_type_specification]
#[verifier::external_body]
pub struct ExUuidError(uuid::Error);

/// A hexadecimal digit in either case.
pub open spec fn is_hex(c: char) -> bool {
    '0' <= c <= '9' || 'a' <= c <= 'f' || 'A' <= c <= 'F'
}

/// The places of the hyphens in the hyphenated form.
pub open spec fn is_hyphen_place(i: int) -> bool {
    i == 8 || i == 13 || i == 18 || i == 23
}

/// The hyphenated form of a UUID: five groups of hexadecimal digits, of lengths
/// 8, 4, 4, 4 and 12.
pub open spec fn is_hyphenated(text: Seq<char>) -> bool {
    &&& text.len() == 36
    &&& forall|i: int|
        0 <= i < 36 ==> if is_hyphen_place(i) {
            #[trigger] text[i] == '-'
        } else {
            is_hex(text[i])
        }
}

/// The simple form of a UUID: 32 hexadecimal digits.
pub open spec fn is_simple(text: Seq<char>) -> bool {
    text.len() == 32 && forall|i: int| 0 <= i < 32 ==> is_hex(#[trigger] text[i])
}

/// The five groups of 32 digits with hyphens between them.
pub open spec fn hyphenate(digits: Seq<char>) -> Seq<char> {
    digits.subrange(0, 8).push('-') + digits.subrange(8, 12).push('-') + digits.subrange(12, 16).push(
        '-',
    ) + digits.subrange(16, 20).push('-') + digits.subrange(20, 32)
}

/// The hyphenated lower-case form of the UUID that a text stands for, if it
/// stands for one: in simple form, in hyphenated form, in hyphenated form in
/// braces, or in hyphenated form behind `urn:uuid:` in either case.
pub open spec fn parsed_uuid(text: Seq<char>) -> Option<Seq<char>> {
    let n = text.len() as int;
    if is_simple(text) {
        Some(lower_text(hyphenate(text)))
    } else if is_hyphenated(text) {
        Some(lower_text(text))
    } else if n == 38 && text[0] == '{' && text[37] == '}' && is_hyphenated(text.subrange(1, 37)) {
        Some(lower_text(text.subrange(1, 37)))
    } else if n == 45 && lower_text(text.subrange(0, 9)) == "urn:uuid:"@ && is_hyphenated(
        text.subrange(9, 45),
    ) {
        Some(lower_text(text.subrange(9, 45)))
    } else {
        None
    }
}

/// What every newly made identifier looks like: a UUID of version 4 in
/// hyphenated lower-case form.
pub open spec fn is_fresh_id(id: Seq<char>) -> bool {
    &&& is_hyphenated(id)
    &&& lower_text(id) == id
    &&& id[14] == '4'
    &&& (id[19] == '8' || id[19] == '9' || id[19] == 'a' || id[19] == 'b')
}

/// The name of the file of the session with the identifier, if the identifier is
/// valid.
pub open spec fn session_file(session_id: Seq<char>) -> Option<Seq<char>> {
    match parsed_uuid(session_id) {
        Some(id) => Some(id + ".jsonl"@),
        None => None,
    }
}

/// A file name with the extension `jsonl`: something, a dot and `jsonl`.
pub open spec fn is_session_file_name(name: Seq<char>) -> bool {
    ends_with_text(name, ".jsonl"@) && name.len() > ".jsonl"@.len()
}

/// `uuid::Uuid::new_v4` and the `Display` of what it returns: a random UUID of
/// version 4 in hyphenated lower-case form. It panics where the system has no
/// random bytes to give. Nothing is said of how two results relate.
#[verifier::external_body]
pub(crate) fn new_id() -> (id: String)
    ensures
        is_fresh_id(id@),
{
    Uuid::new_v4().to_string()
}

/// `uuid::Uuid::parse_str` and the `Display` of what it returns: the hyphenated
/// lower-case form of the UUID that the text stands for, and an error exactly
/// where the text is in none of the four accepted forms.
#[verifier::external_body]
pub(crate) fn canonical_uuid(text: &str) -> (id: Result<String, uuid::Error>)
    ensures
        match id {
            Ok(id) => parsed_uuid(text@) == Some(id@),
            Err(_) => parsed_uuid(text@) is None,
        },
{
    match Uuid::parse_str(text) {
        Ok(id) => Ok(id.to_string()),
        Err(error) => Err(error),
    }
}

/// The name of the file of a session.
pub fn session_file_name(session_id: &str) -> (name: Result<String, String>)
    ensures
        match name {
            Ok(name) => session_file(session_id@) == Some(name@),
            Err(message) => session_file(session_id@) is None && message@
                == "The session ID is invalid."@,
        },
{
    match canonical_uuid(session_id) {
        Ok(id) => Ok(joined(id.as_str(), ".jsonl")),
        Err(_) => Err("The session ID is invalid.".to_owned()),
    }
}

/// Whether a file name has the extension `jsonl`.
pub fn has_session_extension(name: &str) -> (found: bool)
    ensures
        found == is_session_file_name(name@),
{
    proof {
        reveal_strlit(".jsonl");
    }
    ends_with(name, ".jsonl") && chars_of(name).len() > 6
}

proof fn lemma_hyphenate(digits: Seq<char>)
    requires
        is_simple(digits),
    ensures
        is_hyphenated(hyphenate(digits)),
{
    let text = hyphenate(digits);
    assert forall|i: int| 0 <= i < 36 implies if is_hyphen_place(i) {
        #[trigger] text[i] == '-'
    } else {
        is_hex(text[i])
    } by {
        if !is_hyphen_place(i) {
            let at = if i < 8 {
                i
            } else if i < 13 {
                i - 1
            } else if i < 18 {
                i - 2
            } else if i < 23 {
                i - 3
            } else {
                i - 4
            };
            assert(text[i] == digits[at]);
        }
    }
}

proof fn lemma_lower_hyphenated(text: Seq<char>)
    requires
        is_hyphenated(text),
    ensures
        is_hyphenated(lower_text(text)),
        lower_text(lower_text(text)) == lower_text(text),
{
    let lowered = lower_text(text);
    assert forall|i: int| 0 <= i < 36 implies if is_hyphen_place(i) {
        #[trigger] lowered[i] == '-'
    } else {
        is_hex(lowered[i])
    } by {
        assert(lowered[i] == lower_char(text[i]));
    }
    assert(lower_text(lowered) =~= lowered);
}

/// An identifier that was parsed is in hyphenated lower-case form, and parses to
/// itself.
pub proof fn parsing_is_idempotent(text: Seq<char>)
    requires
        parsed_uuid(text) is Some,
    ensures
        is_hyphenated(parsed_uuid(text)->0),
        parsed_uuid(parsed_uuid(text)->0) == parsed_uuid(text),
{
    if is_simple(text) {
        lemma_hyphenate(text);
        lemma_lower_hyphenated(hyphenate(text));
    } else if is_hyphenated(text) {
        lemma_lower_hyphenated(text);
    } else if text.len() == 38 {
        lemma_lower_hyphenated(text.subrange(1, 37));
    } else {
        lemma_lower_hyphenated(text.subrange(9, 45));
    }
}

/// A session with a newly made identifier is kept in the file that is named by
/// exactly that identifier.
pub proof fn fresh_session_has_a_file(id: Seq<char>)
    requires
        is_fresh_id(id),
    ensures
        session_file(id) == Some(id + ".jsonl"@),
{
}

/// The file of a session is found again by its extension, and its name holds no
/// path separator and no drive letter, whatever the identifier was.
pub proof fn session_file_stays_in_its_folder(session_id: Seq<char>)
    requires
        session_file(session_id) is Some,
    ensures
        is_session_file_name(session_file(session_id)->0),
        forall|i: int|
            0 <= i < session_file(session_id)->0.len() ==> {
                let c = #[trigger] session_file(session_id)->0[i];
                c != '/' && c != '\\' && c != ':'
            },
{
    reveal_strlit(".jsonl");
    parsing_is_idempotent(session_id);
    let id = parsed_uuid(session_id)->0;
    let name = session_file(session_id)->0;
    assert(name.subrange(name.len() - 6, name.len() as int) =~= ".jsonl"@);
    assert forall|i: int| 0 <= i < name.len() implies {
        let c = #[trigger] name[i];
        c != '/' && c != '\\' && c != ':'
    } by {
        if i < 36 {
            assert(name[i] == id[i]);
        }
    }
}

/// Whatever form a session identifier is given in, upper or lower case, in braces or as a
/// URN, it names the same file: the one named by the identifier in lower case.
pub proof fn forms_name_one_file(id: Seq<char>)
    requires
        is_hyphenated(id),
    ensures
        session_file(id) == Some(lower_text(id) + ".jsonl"@),
        session_file(lower_text(id)) == session_file(id),
        session_file(seq!['{'] + id + seq!['}']) == session_file(id),
        session_file("urn:uuid:"@ + id) == session_file(id),
        session_file("URN:UUID:"@ + id) == session_file(id),
{
    reveal_strlit("urn:uuid:");
    reveal_strlit("URN:UUID:");
    lemma_lower_hyphenated(id);
    let braced = seq!['{'] + id + seq!['}'];
    assert(braced.subrange(1, 37) =~= id);
    let urn = "urn:uuid:"@ + id;
    assert(urn.subrange(9, 45) =~= id);
    assert(lower_text(urn.subrange(0, 9)) =~= "urn:uuid:"@);
    let upper = "URN:UUID:"@ + id;
    assert(upper.subrange(9, 45) =~= id);
    assert(lower_text(upper.subrange(0, 9)) =~= "urn:uuid:"@);
}

/// The digits of an identifier without hyphens name the file of the same digits with
/// hyphens.
pub proof fn hyphens_may_be_left_out(digits: Seq<char>)
    requires
        is_simple(digits),
    ensures
        session_file(digits) == session_file(hyphenate(digits)),
        hyphenate(digits).len() == 36,
{
    lemma_hyphenate(digits);
}

/// What is none of the forms names no file: by its length, or by a character that no
/// identifier has.
pub proof fn other_texts_name_no_file(text: Seq<char>, at: int)
    ensures
        text.len() != 32 && text.len() != 36 && text.len() != 38 && text.len() != 45
            ==> session_file(text) is None,
        0 <= at < text.len() && (text[at] == '/' || text[at] == '\\' || text[at] == '.')
            ==> session_file(text) is None,
{
    if 0 <= at < text.len() && (text[at] == '/' || text[at] == '\\' || text[at] == '.') {
        reveal_strlit("urn:uuid:");
        if text.len() == 38 {
            let inner = text.subrange(1, 37);
            if 1 <= at < 37 {
                assert(inner[at - 1] == text[at]);
            }
        }
        if text.len() == 45 {
            let inner = text.subrange(9, 45);
            let prefix = lower_text(text.subrange(0, 9));
            if at >= 9 {
                assert(inner[at - 9] == text[at]);
            } else {
                assert(prefix[at] == text[at]);
                if prefix == "urn:uuid:"@ {
                    assert("urn:uuid:"@[at] == text[at]);
                    assert("urn:uuid:"@[0] == 'u' && "urn:uuid:"@[1] == 'r' && "urn:uuid:"@[2]
                        == 'n' && "urn:uuid:"@[3] == ':' && "urn:uuid:"@[4] == 'u'
                        && "urn:uuid:"@[5] == 'u' && "urn:uuid:"@[6] == 'i' && "urn:uuid:"@[7]
                        == 'd' && "urn:uuid:"@[8] == ':');
                }
            }
        }
    }
}

/// A file is one of a session exactly when its name is something with `.jsonl` behind it.
pub proof fn session_files_end_with_jsonl(stem: Seq<char>, name: Seq<char>)
    ensures
        is_session_file_name(stem + ".jsonl"@) <==> stem.len() > 0,
        is_session_file_name(name) ==> exists|other: Seq<char>|
            other.len() > 0 && name == #[trigger] (other + ".jsonl"@),
{
    reveal_strlit(".jsonl");
    let whole = stem + ".jsonl"@;
    assert(whole.subrange(whole.len() - 6, whole.len() as int) =~= ".jsonl"@);
    if is_session_file_name(name) {
        let other = name.take(name.len() - 6);
        assert(name =~= other + ".jsonl"@) by {
            assert forall|i: int| 0 <= i < 6 implies name[name.len() - 6 + i] == ".jsonl"@[i] by {
                assert(name.subrange(name.len() - 6, name.len() as int)[i] == name[name.len() - 6
                    + i]);
            }
        }
    }
}

}
