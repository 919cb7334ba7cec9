use gloss::clock::Timestamp;
use gloss::sessions::{
    AttemptStatus, ConversationSession, MessageIntent, MessageRole, SessionAction, MODEL,
    PROMPT_VERSION,
};
use serde_json::Value;

fn time(seconds: i64) -> Timestamp {
    Timestamp { seconds, nanos: 0 }
}

fn parse(text: &str) -> Value {
    serde_json::from_str(text).unwrap()
}

fn begun(action: SessionAction) -> (ConversationSession, String) {
    ConversationSession::start(
        action,
        "Selected text".to_owned(),
        "session".to_owned(),
        "turn".to_owned(),
        "message".to_owned(),
        time(100),
    )
}

fn looks_fresh(id: &str) -> bool {
    id.len() == 36
        && id.chars().enumerate().all(|(at, c)| match at {
            8 | 13 | 18 | 23 => c == '-',
            14 => c == '4',
            19 => matches!(c, '8' | '9' | 'a' | 'b'),
            _ => matches!(c, '0'..='9' | 'a'..='f'),
        })
}

#[test]
fn new_session_holds_the_selected_text() {
    let (session, turn_id) =
        ConversationSession::new(SessionAction::Correct, "I very like it.".to_owned());
    assert_eq!(session.metadata.action, SessionAction::Correct);
    assert_eq!(session.metadata.selected_text, "I very like it.");
    assert_eq!(session.metadata.model, MODEL);
    assert_eq!(session.metadata.prompt_version, PROMPT_VERSION);
    assert_eq!(session.metadata.created_at, session.metadata.updated_at);
    assert_eq!(session.messages.len(), 1);
    let first = &session.messages[0];
    assert_eq!(first.turn_id, turn_id);
    assert_eq!(first.role, MessageRole::User);
    assert_eq!(first.content, "I very like it.");
    assert_eq!(first.timestamp, session.metadata.created_at);
    assert_eq!(first.intent, None);
    assert_eq!(first.attempt_id, None);
    assert!(session.attempts.is_empty());
    assert!(session.has_user_turn(&turn_id));
}

#[test]
fn new_identifiers_and_times_are_made() {
    let (first, first_turn) = ConversationSession::new(SessionAction::Triage, "a".to_owned());
    let (second, second_turn) = ConversationSession::new(SessionAction::Triage, "a".to_owned());
    let ids = [
        &first.metadata.session_id,
        &first_turn,
        &first.messages[0].id,
        &second.metadata.session_id,
        &second_turn,
        &second.messages[0].id,
    ];
    for (at, id) in ids.iter().enumerate() {
        assert!(looks_fresh(id));
        assert!(!ids[..at].contains(id));
    }
    assert!(first.metadata.created_at.seconds > 1_600_000_000);
    assert!(first.metadata.created_at.nanos < 1_000_000_000);
    assert!(!second.metadata.created_at.is_before(&time(1_600_000_000)));
}

#[test]
fn model_and_prompt_version_are_the_documented_ones() {
    assert_eq!(MODEL, "gpt-5.6-luna");
    assert_eq!(PROMPT_VERSION, 6);
}

#[test]
fn view_shows_the_conversation() {
    let (mut session, _) = begun(SessionAction::Triage);
    session.add_follow_up("Why?".to_owned()).unwrap();
    let view = session.view();
    assert_eq!(view.session_id, "session");
    assert_eq!(view.action, SessionAction::Triage);
    assert_eq!(view.selected_text, "Selected text");
    assert_eq!(view.messages.len(), 2);
    assert_eq!(view.messages[1].content, "Why?");
    assert_eq!(view.messages[1].id, session.messages[1].id);
}

#[test]
fn follow_ups_come_after_triage_only() {
    for action in [SessionAction::Translate, SessionAction::Correct] {
        let (mut session, _) = begun(action);
        assert_eq!(
            session.add_follow_up("Why?".to_owned()).unwrap_err(),
            "Follow-up questions are only available after Triage."
        );
        assert_eq!(session.messages.len(), 1);
        assert_eq!(session.metadata.updated_at, time(100));
    }
}

#[test]
fn blank_follow_ups_are_refused() {
    let (mut session, _) = begun(SessionAction::Triage);
    for content in ["", "  ", "\n\t\u{3000}"] {
        assert_eq!(
            session.add_follow_up(content.to_owned()).unwrap_err(),
            "Write a question before sending."
        );
    }
    assert_eq!(session.messages.len(), 1);
}

#[test]
fn refused_for_the_action_before_the_content() {
    let (mut session, _) = begun(SessionAction::Translate);
    assert_eq!(
        session.add_got_it(" ".to_owned()).unwrap_err(),
        "Follow-up questions are only available after Triage."
    );
}

#[test]
fn turns_keep_their_intent() {
    let (mut session, _) = begun(SessionAction::Triage);
    let asked = session.add_follow_up(" Why? ".to_owned()).unwrap();
    let explained = session.add_explain_selection("been".to_owned()).unwrap();
    let understood = session.add_got_it("awarded".to_owned()).unwrap();
    assert_eq!(session.messages[1].content, " Why? ");
    assert_eq!(session.messages[1].intent, None);
    assert_eq!(session.messages[2].intent, Some(MessageIntent::ExplainSelection));
    assert_eq!(session.messages[3].intent, Some(MessageIntent::GotIt));
    for (at, turn) in [asked, explained, understood].iter().enumerate() {
        assert_eq!(&session.messages[at + 1].turn_id, turn);
        assert_eq!(session.messages[at + 1].role, MessageRole::User);
        assert!(session.has_user_turn(turn));
        assert!(looks_fresh(turn));
    }
    assert_eq!(session.metadata.updated_at, session.messages[3].timestamp);
    assert_eq!(session.metadata.created_at, time(100));
}

#[test]
fn turn_is_recorded_as_given() {
    let (mut session, _) = begun(SessionAction::Triage);
    let turn = session
        .record_user_turn(
            "been".to_owned(),
            Some(MessageIntent::GotIt),
            "turn-2".to_owned(),
            "message-2".to_owned(),
            time(200),
        )
        .unwrap();
    assert_eq!(turn, "turn-2");
    assert_eq!(session.messages[1].id, "message-2");
    assert_eq!(session.messages[1].timestamp, time(200));
    assert_eq!(session.metadata.updated_at, time(200));
}

#[test]
fn attempts_need_a_turn_of_the_user() {
    let (mut session, turn) = begun(SessionAction::Triage);
    assert_eq!(
        session.begin_attempt("other", Value::Null).unwrap_err(),
        "The requested turn does not exist."
    );
    assert!(session.attempts.is_empty());
    let attempt = session.begin_attempt(&turn, parse("{\"request\":true}")).unwrap();
    let record = &session.attempts[0];
    assert!(looks_fresh(&attempt));
    assert_eq!(record.id, attempt);
    assert_eq!(record.turn_id, turn);
    assert_eq!(record.status, AttemptStatus::Pending);
    assert_eq!(record.request, parse("{\"request\":true}"));
    assert_eq!(record.finished_at, None);
    assert_eq!(record.transport_attempts, 0);
    assert_eq!(record.text, "");
    assert!(record.response_id.is_none() && record.usage.is_none() && record.error.is_none());
    assert!(record.output_items.is_empty());
    assert_eq!(session.metadata.updated_at, time(100));
}

#[test]
fn answer_completes_the_attempt() {
    let (mut session, turn) = begun(SessionAction::Triage);
    let attempt = session
        .record_attempt(&turn, Value::Null, "attempt".to_owned(), time(101))
        .unwrap();
    session
        .record_answer(
            &attempt,
            "Explanation".to_owned(),
            Some("resp_1".to_owned()),
            vec![parse("{\"id\":\"msg_1\"}")],
            Some(parse("{\"tokens\":3}")),
            2,
            "answer".to_owned(),
            time(102),
            time(103),
            time(104),
        )
        .unwrap();
    let record = &session.attempts[0];
    assert_eq!(record.status, AttemptStatus::Completed);
    assert_eq!(record.started_at, time(101));
    assert_eq!(record.finished_at, Some(time(102)));
    assert_eq!(record.transport_attempts, 2);
    assert_eq!(record.text, "Explanation");
    assert_eq!(record.response_id.as_deref(), Some("resp_1"));
    assert_eq!(record.output_items, vec![parse("{\"id\":\"msg_1\"}")]);
    assert_eq!(record.usage, Some(parse("{\"tokens\":3}")));
    assert_eq!(record.error, None);
    let answer = &session.messages[1];
    assert_eq!(answer.id, "answer");
    assert_eq!(answer.turn_id, turn);
    assert_eq!(answer.role, MessageRole::Assistant);
    assert_eq!(answer.content, "Explanation");
    assert_eq!(answer.timestamp, time(103));
    assert_eq!(answer.intent, None);
    assert_eq!(answer.attempt_id.as_deref(), Some("attempt"));
    assert_eq!(session.metadata.updated_at, time(104));
}

#[test]
fn answers_are_no_turns_of_the_user() {
    let (mut session, turn) = begun(SessionAction::Triage);
    let attempt = session.begin_attempt(&turn, Value::Null).unwrap();
    session.complete_attempt(&attempt, "a".to_owned(), None, vec![], None, 1).unwrap();
    session.messages.remove(0);
    assert_eq!(session.messages[0].turn_id, turn);
    assert!(!session.has_user_turn(&turn));
}

#[test]
fn failed_and_incomplete_attempts_are_told_apart() {
    for (incomplete, status) in [(false, AttemptStatus::Failed), (true, AttemptStatus::Incomplete)] {
        let (mut session, turn) = begun(SessionAction::Triage);
        let attempt = session.begin_attempt(&turn, Value::Null).unwrap();
        session
            .fail_attempt(&attempt, "Expl".to_owned(), "cut off".to_owned(), incomplete, 3)
            .unwrap();
        let record = &session.attempts[0];
        assert_eq!(record.status, status);
        assert_eq!(record.text, "Expl");
        assert_eq!(record.error.as_deref(), Some("cut off"));
        assert_eq!(record.transport_attempts, 3);
        assert!(record.finished_at.is_some());
        assert_eq!(session.messages.len(), 1);
        assert!(time(100).is_before(&session.metadata.updated_at));
    }
}

#[test]
fn unknown_attempts_cannot_end() {
    let (mut session, _) = begun(SessionAction::Triage);
    assert_eq!(
        session.complete_attempt("x", "a".to_owned(), None, vec![], None, 1).unwrap_err(),
        "The response attempt does not exist."
    );
    assert_eq!(
        session.fail_attempt("x", "a".to_owned(), "b".to_owned(), true, 1).unwrap_err(),
        "The response attempt does not exist."
    );
    assert_eq!(session.messages.len(), 1);
    assert_eq!(session.metadata.updated_at, time(100));
}

#[test]
fn first_of_two_equal_attempts_is_ended() {
    let (mut session, turn) = begun(SessionAction::Triage);
    for _ in 0..2 {
        session.record_attempt(&turn, Value::Null, "same".to_owned(), time(1)).unwrap();
    }
    session
        .record_failure("same", "p".to_owned(), "m".to_owned(), false, 1, time(2), time(3))
        .unwrap();
    assert_eq!(session.attempts[0].status, AttemptStatus::Failed);
    assert_eq!(session.attempts[0].finished_at, Some(time(2)));
    assert_eq!(session.attempts[1].status, AttemptStatus::Pending);
    assert_eq!(session.metadata.updated_at, time(3));
}

#[test]
fn times_are_clock_times() {
    let clock_time =
        |time: Timestamp| time.seconds > 1_600_000_000 && time.nanos < 1_000_000_000;
    let (mut session, turn) = ConversationSession::new(SessionAction::Triage, "a".to_owned());
    session.add_follow_up("Why?".to_owned()).unwrap();
    let first = session.begin_attempt(&turn, Value::Null).unwrap();
    session.complete_attempt(&first, "a".to_owned(), None, vec![], None, 1).unwrap();
    let second = session.begin_attempt(&turn, Value::Null).unwrap();
    session.fail_attempt(&second, "a".to_owned(), "b".to_owned(), false, 1).unwrap();
    assert!(clock_time(session.metadata.created_at) && clock_time(session.metadata.updated_at));
    assert!(session.messages.iter().all(|message| clock_time(message.timestamp)));
    assert!(session.attempts.iter().all(|attempt| {
        clock_time(attempt.started_at) && clock_time(attempt.finished_at.unwrap())
    }));
}

#[test]
fn copies_of_a_session_are_equal() {
    let (mut session, turn) = begun(SessionAction::Triage);
    let attempt = session.begin_attempt(&turn, parse("{\"a\":[1,null]}")).unwrap();
    session
        .complete_attempt(&attempt, "b".to_owned(), None, vec![Value::Bool(true)], None, 1)
        .unwrap();
    assert_eq!(format!("{:?}", session.clone()), format!("{:?}", session));
    assert_eq!(format!("{:?}", session.view().clone()), format!("{:?}", session.view()));
}
