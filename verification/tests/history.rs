use gloss::clock::Timestamp;
use gloss::history::{
    delete_session, list_sessions, load_session, save_session, session_lines, session_payload,
    write_record, LoadedLine, PersistedRecord, RemoveOutcome,
};
use gloss::sessions::{ConversationSession, SessionAction};
use serde_json::Value;

fn session(id: &str, text: &str, seconds: i64, nanos: u32) -> ConversationSession {
    let (session, _) = ConversationSession::start(
        SessionAction::Triage,
        text.to_owned(),
        id.to_owned(),
        "turn".to_owned(),
        "message".to_owned(),
        Timestamp { seconds, nanos },
    );
    session
}

fn records(session: &ConversationSession) -> Vec<LoadedLine> {
    save_session(session).into_iter().map(LoadedLine::Record).collect()
}

fn first_record(session: &ConversationSession) -> PersistedRecord {
    save_session(session).remove(0)
}

#[test]
fn session_is_saved_metadata_first() {
    let mut session = session("a", "text", 1, 0);
    session.add_follow_up("Why?".to_owned()).unwrap();
    session.begin_attempt("turn", Value::Bool(true)).unwrap();
    let records = save_session(&session);
    assert_eq!(records.len(), 4);
    assert!(matches!(&records[0], PersistedRecord::Metadata { metadata } if metadata.session_id == "a"));
    assert!(matches!(&records[1], PersistedRecord::Message { message } if message.content == "text"));
    assert!(matches!(&records[2], PersistedRecord::Message { message } if message.content == "Why?"));
    assert!(
        matches!(&records[3], PersistedRecord::Attempt { attempt } if attempt.request == Value::Bool(true))
    );
}

#[test]
fn saved_session_loads_again() {
    let mut session = session("a", "text", 1, 0);
    session.add_follow_up("Why?".to_owned()).unwrap();
    let attempt = session.begin_attempt("turn", Value::Bool(true)).unwrap();
    session
        .complete_attempt(&attempt, "So.".to_owned(), None, vec![Value::Null], None, 2)
        .unwrap();
    let mut lines = records(&session);
    lines.insert(2, LoadedLine::Blank);
    lines.push(LoadedLine::Blank);
    let loaded = load_session(Ok(lines)).unwrap();
    assert_eq!(format!("{:?}", loaded), format!("{:?}", session));
}

#[test]
fn last_metadata_stand() {
    let mut lines = records(&session("old", "a", 1, 0));
    lines.extend(records(&session("new", "b", 2, 0)));
    let loaded = load_session(Ok(lines)).unwrap();
    assert_eq!(loaded.metadata.session_id, "new");
    assert_eq!(loaded.messages.len(), 2);
}

#[test]
fn files_that_cannot_be_loaded_say_why() {
    assert_eq!(load_session(Ok(vec![])).unwrap_err(), "This history item has no metadata.");
    let mut lines = records(&session("a", "text", 1, 0));
    lines.remove(0);
    assert_eq!(load_session(Ok(lines)).unwrap_err(), "This history item has no metadata.");

    let mut lines = records(&session("a", "text", 1, 0));
    lines.push(LoadedLine::Damaged("expected value".to_owned()));
    lines.push(LoadedLine::Unreadable("no access".to_owned()));
    assert_eq!(
        load_session(Ok(lines)).unwrap_err(),
        "This history item is damaged: expected value"
    );
    let unreadable = vec![LoadedLine::Unreadable("no access".to_owned())];
    assert_eq!(
        load_session(Ok(unreadable)).unwrap_err(),
        "Could not read this history item: no access"
    );
}

#[test]
fn records_are_written_one_to_a_line() {
    let mut payload = b"{}\n".to_vec();
    write_record(&mut payload, b"[1]");
    assert_eq!(payload, b"{}\n[1]\n");
    let lines = vec![b"one".to_vec(), b"".to_vec(), b"three".to_vec()];
    let payload = session_payload(&lines);
    assert_eq!(payload, b"one\n\nthree\n");
    assert_eq!(session_lines(&payload, true), lines);
}

#[test]
fn lines_end_with_newlines_and_perhaps_returns() {
    assert_eq!(
        session_lines(b"a\r\n\r\nb\rc\nlast\r", true),
        vec![b"a".to_vec(), b"".to_vec(), b"b\rc".to_vec(), b"last\r".to_vec()]
    );
    assert!(session_lines(b"", true).is_empty());
    assert_eq!(session_lines(b"\n", true), vec![b"".to_vec()]);
}

#[test]
fn newest_sessions_are_listed_first() {
    let sessions = [
        session("a", "first", 10, 5),
        session("b", "second", 30, 0),
        session("c", "third", 10, 9),
        session("d", "fourth\nline", 30, 0),
    ];
    let found = sessions.iter().map(first_record).collect();
    let list = list_sessions(found);
    let ids: Vec<&str> = list.iter().map(|summary| summary.session_id.as_str()).collect();
    assert_eq!(ids, ["b", "d", "c", "a"]);
    assert_eq!(list[1].preview, "fourth line");
    assert_eq!(list[1].action, SessionAction::Triage);
    assert_eq!(list[1].updated_at, Timestamp { seconds: 30, nanos: 0 });
}

#[test]
fn files_that_do_not_begin_with_metadata_are_not_listed() {
    let mut records = save_session(&session("a", "text", 1, 0));
    let message = records.remove(1);
    assert!(list_sessions(vec![message]).is_empty());
    assert!(list_sessions(vec![]).is_empty());
}

#[test]
fn deleting_what_is_not_there_succeeds() {
    assert_eq!(delete_session(RemoveOutcome::Removed), Ok(()));
    assert_eq!(delete_session(RemoveOutcome::NotFound), Ok(()));
    assert_eq!(
        delete_session(RemoveOutcome::Failed("denied".to_owned())).unwrap_err(),
        "Could not delete this history item: denied"
    );
}

#[test]
fn file_that_cannot_be_opened_is_not_loaded() {
    assert_eq!(
        load_session(Err("not found".to_owned())).unwrap_err(),
        "Could not open this history item: not found"
    );
}

#[test]
fn line_in_which_reading_broke_off_is_left_out() {
    assert_eq!(session_lines(b"a\nb", true), vec![b"a".to_vec(), b"b".to_vec()]);
    assert_eq!(session_lines(b"a\nb", false), vec![b"a".to_vec()]);
    assert_eq!(session_lines(b"a\n", false), vec![b"a".to_vec()]);
    assert!(session_lines(b"b", false).is_empty());
    assert!(session_lines(b"", false).is_empty());
}

#[test]
fn damaged_line_is_reported_before_a_later_read_error() {
    let lines = vec![
        LoadedLine::Damaged("expected value".to_owned()),
        LoadedLine::Unreadable("disk error".to_owned()),
    ];
    assert_eq!(
        load_session(Ok(lines)).unwrap_err(),
        "This history item is damaged: expected value"
    );
}
