use gloss::clock::Timestamp;
use gloss::prompts::{PromptRequest, PromptTemplate};
use gloss::sessions::{ConversationSession, MessageIntent, MessageRole, SessionAction, MODEL};
use serde_json::Value;

fn parse(text: &str) -> Value {
    serde_json::from_str(text).unwrap()
}

const SYSTEM: &str = "You are Gloss, a conversational learning agent.";

/// Fills a template as a caller would: the words of the template around the text.
fn render(request: &PromptRequest) -> String {
    let words = match request.template {
        PromptTemplate::Triage => "Read this.",
        PromptTemplate::Translate => {
            "Translate into English if it is predominantly Chinese, and into Simplified Chinese \
             if it is predominantly English."
        }
        PromptTemplate::Correct => {
            "Give the Corrected version, and say what is understandable but unnatural."
        }
        PromptTemplate::ExplainSelection => "This is the passage the learner selected.",
        PromptTemplate::GotIt => "What I have newly learned and now understand:",
    };
    format!("<runtime_context>{}</runtime_context>\n{}", words, request.text)
}

fn contexts(session: &ConversationSession) -> Vec<Option<Result<String, String>>> {
    session
        .prompt_requests()
        .iter()
        .map(|request| request.as_ref().map(|request| Ok(render(request))))
        .collect()
}

/// The template and the text that are asked for the message at a position.
fn asked(session: &ConversationSession, at: usize) -> (PromptTemplate, String) {
    let request = session.prompt_requests().remove(at).unwrap();
    (request.template, request.text)
}

fn body(session: &ConversationSession) -> Value {
    session.request_body(&contexts(session), Ok(SYSTEM.to_owned())).unwrap()
}

#[test]
fn request_contains_only_conversation_messages_as_input() {
    let (session, _) =
        ConversationSession::new(SessionAction::Triage, "I've been awarded the title.".to_owned());
    let body = body(&session);
    assert_eq!(body["model"], MODEL);
    let initial = body["input"][0]["content"][0]["text"].as_str().unwrap();
    assert!(initial.contains("<runtime_context>"));
    assert!(initial.contains("I've been awarded the title."));
    assert!(body["instructions"].as_str().unwrap().contains("conversational learning agent"));
    assert!(body.get("tools").is_none());
    assert_eq!(asked(&session, 0), (PromptTemplate::Triage, "I've been awarded the title.".to_owned()));
}

#[test]
fn translate_request_uses_adaptive_chinese_english_context() {
    let (session, _) =
        ConversationSession::new(SessionAction::Translate, "这个功能很好用。".to_owned());
    let body = body(&session);

    let initial = body["input"][0]["content"][0]["text"].as_str().unwrap();
    assert!(initial.contains("predominantly Chinese"));
    assert!(initial.contains("predominantly English"));
    assert!(initial.contains("这个功能很好用。"));
    assert_eq!(asked(&session, 0), (PromptTemplate::Translate, "这个功能很好用。".to_owned()));
}

#[test]
fn correct_request_preserves_meaning_and_explains_naturalness() {
    let (session, _) =
        ConversationSession::new(SessionAction::Correct, "I very like this feature.".to_owned());
    let body = body(&session);

    let initial = body["input"][0]["content"][0]["text"].as_str().unwrap();
    assert!(initial.contains("Corrected version"));
    assert!(initial.contains("understandable but unnatural"));
    assert!(initial.contains("I very like this feature."));
    assert_eq!(asked(&session, 0), (PromptTemplate::Correct, "I very like this feature.".to_owned()));
}

#[test]
fn completed_output_items_are_replayed_without_response_ids() {
    let (mut session, turn_id) =
        ConversationSession::new(SessionAction::Triage, "Selected text".to_owned());
    let attempt_id = session.begin_attempt(&turn_id, parse("{\"request\":true}")).unwrap();
    session
        .complete_attempt(
            &attempt_id,
            "Explanation".to_owned(),
            Some("resp_1".to_owned()),
            vec![parse(
                "{\"id\":\"msg_1\",\"type\":\"message\",\"role\":\"assistant\",\
                 \"content\":[{\"type\":\"output_text\",\"text\":\"Explanation\"}]}",
            )],
            None,
            1,
        )
        .unwrap();
    session.add_follow_up("Why?".to_owned()).unwrap();
    let body = body(&session);
    assert!(body["input"][1].get("id").is_none());
    assert_eq!(body["input"][1]["type"], "message");
    assert_eq!(
        body["input"].as_array().unwrap().last().unwrap()["content"][0]["text"],
        "Why?"
    );
    assert_eq!(body["reasoning"]["context"], "all_turns");
}

#[test]
fn explain_selection_is_a_user_turn_with_runtime_context() {
    let (mut session, _) =
        ConversationSession::new(SessionAction::Triage, "Selected text".to_owned());
    session.add_explain_selection("been awarded".to_owned()).unwrap();
    let body = body(&session);

    assert_eq!(session.messages[1].role, MessageRole::User);
    assert_eq!(session.messages[1].intent, Some(MessageIntent::ExplainSelection));
    let shortcut = body["input"][1]["content"][0]["text"].as_str().unwrap();
    assert!(shortcut.contains("passage the learner selected"));
    assert!(shortcut.contains("been awarded"));
    assert_eq!(asked(&session, 1), (PromptTemplate::ExplainSelection, "been awarded".to_owned()));
}

#[test]
fn got_it_is_a_user_learning_signal_with_runtime_context() {
    let (mut session, _) =
        ConversationSession::new(SessionAction::Triage, "Selected text".to_owned());
    session.add_got_it("been awarded".to_owned()).unwrap();
    let body = body(&session);

    assert_eq!(session.messages[1].role, MessageRole::User);
    assert_eq!(session.messages[1].intent, Some(MessageIntent::GotIt));
    let signal = body["input"][1]["content"][0]["text"].as_str().unwrap();
    assert!(signal.contains("newly learned and now understand"));
    assert!(signal.contains("been awarded"));
    assert_eq!(asked(&session, 1), (PromptTemplate::GotIt, "been awarded".to_owned()));
}

fn given(action: SessionAction, session_id: &str) -> (ConversationSession, String) {
    ConversationSession::start(
        action,
        "Selected".to_owned(),
        session_id.to_owned(),
        "turn".to_owned(),
        "message".to_owned(),
        Timestamp { seconds: 1, nanos: 0 },
    )
}

#[test]
fn whole_request_is_as_expected() {
    let (session, _) = given(SessionAction::Translate, "67e55044-10b1-426f-9247-bb680e5fe0c8");
    let request = session
        .request_body(&vec![Some(Ok("context".to_owned()))], Ok("be brief".to_owned()))
        .unwrap();
    assert_eq!(
        request,
        parse(
            "{\"model\":\"gpt-5.6-luna\",\"store\":false,\"stream\":true,\
             \"instructions\":\"be brief\",\
             \"input\":[{\"type\":\"message\",\"role\":\"user\",\
             \"content\":[{\"type\":\"input_text\",\"text\":\"context\"}]}],\
             \"include\":[\"reasoning.encrypted_content\"],\
             \"reasoning\":{\"effort\":\"none\"},\
             \"text\":{\"verbosity\":\"medium\"},\
             \"prompt_cache_key\":\"gloss:6:67e55044\"}"
        )
    );
}

#[test]
fn cache_key_takes_eight_bytes() {
    let (mut session, _) = given(SessionAction::Triage, "学学ab学");
    session.metadata.prompt_version = 1230;
    let request = session
        .request_body(&vec![Some(Ok(String::new()))], Ok(String::new()))
        .unwrap();
    assert_eq!(request["prompt_cache_key"], "gloss:1230:学学ab");
}

#[test]
fn answers_without_output_items_are_sent_as_text() {
    let (mut session, turn) = given(SessionAction::Triage, "12345678");
    let attempt = session.begin_attempt(&turn, Value::Null).unwrap();
    session.complete_attempt(&attempt, "Answer".to_owned(), None, vec![], None, 1).unwrap();
    let request = body(&session);
    assert_eq!(
        request["input"][1],
        parse(
            "{\"type\":\"message\",\"role\":\"assistant\",\
             \"content\":[{\"type\":\"output_text\",\"text\":\"Answer\"}]}"
        )
    );
    assert_eq!(request["reasoning"], parse("{\"effort\":\"none\",\"context\":\"all_turns\"}"));
}

#[test]
fn only_answered_sessions_of_the_model_family_carry_reasoning_on() {
    let (mut session, turn) = given(SessionAction::Triage, "12345678");
    assert_eq!(body(&session)["reasoning"], parse("{\"effort\":\"none\"}"));
    let attempt = session.begin_attempt(&turn, Value::Null).unwrap();
    session.complete_attempt(&attempt, "Answer".to_owned(), None, vec![], None, 1).unwrap();
    session.metadata.model = "x-GPT-5.6-y".to_owned();
    assert_eq!(body(&session)["reasoning"]["context"], "all_turns");
    session.metadata.model = "gpt-5.5".to_owned();
    assert_eq!(body(&session)["reasoning"], parse("{\"effort\":\"none\"}"));
}

#[test]
fn several_output_items_are_replayed_in_order() {
    let (mut session, turn) = given(SessionAction::Triage, "12345678");
    let attempt = session.begin_attempt(&turn, Value::Null).unwrap();
    let items = vec![
        parse("{\"id\":\"rs_1\",\"type\":\"reasoning\"}"),
        parse("7"),
        parse("{\"type\":\"message\",\"nested\":{\"id\":\"kept\"}}"),
    ];
    session.complete_attempt(&attempt, "Answer".to_owned(), None, items, None, 1).unwrap();
    let input = body(&session)["input"].as_array().unwrap().clone();
    assert_eq!(input.len(), 4);
    assert_eq!(input[1], parse("{\"type\":\"reasoning\"}"));
    assert_eq!(input[2], parse("7"));
    assert_eq!(input[3], parse("{\"type\":\"message\",\"nested\":{\"id\":\"kept\"}}"));
    assert_eq!(session.attempts[0].output_items[0]["id"], "rs_1");
}

#[test]
fn retry_sends_what_was_sent_before() {
    let (mut session, turn) = given(SessionAction::Triage, "12345678");
    let before = body(&session);
    let attempt = session.begin_attempt(&turn, before.clone()).unwrap();
    assert_eq!(body(&session), before);
    session
        .fail_attempt(&attempt, "part".to_owned(), "cut off".to_owned(), true, 3)
        .unwrap();
    assert_eq!(body(&session), before);
    assert_eq!(session.attempts[0].request, before);
}

#[test]
fn prompts_are_asked_for_by_place_and_intent() {
    let (mut session, turn) = given(SessionAction::Triage, "12345678");
    let attempt = session.begin_attempt(&turn, Value::Null).unwrap();
    session.complete_attempt(&attempt, "Answer".to_owned(), None, vec![], None, 1).unwrap();
    session.add_follow_up("Why?".to_owned()).unwrap();
    session.add_explain_selection("this".to_owned()).unwrap();
    session.add_got_it("that".to_owned()).unwrap();
    let requests = session.prompt_requests();
    let found: Vec<Option<(PromptTemplate, String)>> = requests
        .into_iter()
        .map(|request| request.map(|request| (request.template, request.text)))
        .collect();
    assert_eq!(
        found,
        vec![
            Some((PromptTemplate::Triage, "Selected".to_owned())),
            None,
            None,
            Some((PromptTemplate::ExplainSelection, "this".to_owned())),
            Some((PromptTemplate::GotIt, "that".to_owned())),
        ]
    );
}

#[test]
fn actions_have_their_templates() {
    for (action, template, file) in [
        (SessionAction::Triage, PromptTemplate::Triage, "triage.md"),
        (SessionAction::Translate, PromptTemplate::Translate, "translate.md"),
        (SessionAction::Correct, PromptTemplate::Correct, "correct.md"),
    ] {
        let request = action.runtime_context("text");
        assert_eq!(request.template, template);
        assert_eq!(request.template.file_name(), file);
        assert_eq!(request.text, "text");
    }
    assert_eq!(PromptTemplate::ExplainSelection.file_name(), "explain-selection.md");
    assert_eq!(PromptTemplate::GotIt.file_name(), "got-it.md");
}

#[test]
fn first_message_that_cannot_be_rendered_is_reported() {
    let (mut session, _) = given(SessionAction::Triage, "12345678");
    session.add_got_it("that".to_owned()).unwrap();
    let failing = vec![Some(Err("no triage".to_owned())), Some(Err("no got-it".to_owned()))];
    assert_eq!(
        session.request_body(&failing, Err("no system".to_owned())).unwrap_err(),
        "no triage"
    );
    let later = vec![Some(Ok("fine".to_owned())), Some(Err("no got-it".to_owned()))];
    assert_eq!(
        session.request_body(&later, Err("no system".to_owned())).unwrap_err(),
        "no got-it"
    );
    let fine = vec![Some(Ok("fine".to_owned())), Some(Ok("fine".to_owned()))];
    assert_eq!(
        session.request_body(&fine, Err("no system".to_owned())).unwrap_err(),
        "no system"
    );
}
