//! The body of the request that asks for the next answer of a conversation.

use crate::clock::Timestamp;
use crate::ids::is_fresh_id;
use crate::json::{
    array1, array_value, bool_value, copy_values, empty_object, json, json_list, object1, object2,
    remove_entry, set_entry, text_value, Json,
};
use crate::prompts::{PromptModel, PromptRequest, PromptTemplate};
use crate::sessions::{
    first_attempt, first_attempt_is_first, AttemptModel, AttemptStatus, ConversationSession,
    MessageIntent, MessageModel, MessageRole, SessionAction, SessionModel,
};
use crate::text::{append_decimal, contains_text, decimal, lower_contains, lower_text};
use serde_json::Value;
use vstd::prelude::*;
use vstd::string::StringExecFns;
use vstd::utf8::{decode_utf8, encode_utf8, is_ascii_chars, is_char_boundary};

verus! {

/// The prompt that the message at a position is to be rendered with. The first
/// message is rendered with the action of the session and the selected text, and
/// a message with an intent with the template of the intent; what else a user
/// wrote, and what the assistant wrote, is sent as it is.
pub open spec fn prompt_for(session: SessionModel, at: int) -> Option<PromptModel> {
    let message = session.messages[at];
    match (message.role, message.intent) {
        (MessageRole::Assistant, _) => None,
        (MessageRole::User, Some(MessageIntent::ExplainSelection)) => Some(
            PromptModel { template: PromptTemplate::ExplainSelection, text: message.content },
        ),
        (MessageRole::User, Some(MessageIntent::GotIt)) => Some(
            PromptModel { template: PromptTemplate::GotIt, text: message.content },
        ),
        (MessageRole::User, None) => if at == 0 {
            Some(
                PromptModel {
                    template: session.metadata.action.template(),
                    text: session.metadata.selected_text,
                },
            )
        } else {
            None
        },
    }
}

/// There is one place for each message, and every message that is to be rendered
/// was: to a text, or to the reason why it could not be.
pub open spec fn rendered(
    session: SessionModel,
    contexts: Seq<Option<Result<String, String>>>,
) -> bool {
    &&& contexts.len() == session.messages.len()
    &&& forall|i: int|
        0 <= i < contexts.len() && prompt_for(session, i) is Some ==> (#[trigger] contexts[i]) is Some
}

/// Why the message at a position could not be rendered, if it could not.
pub open spec fn context_error(
    session: SessionModel,
    contexts: Seq<Option<Result<String, String>>>,
    at: int,
) -> Option<Seq<char>> {
    if prompt_for(session, at) is Some && contexts[at]->0 is Err {
        Some(contexts[at]->0->Err_0@)
    } else {
        None
    }
}

/// The first reason why one of the first `n` messages could not be rendered.
pub open spec fn first_context_error(
    session: SessionModel,
    contexts: Seq<Option<Result<String, String>>>,
    n: int,
) -> Option<Seq<char>>
    decreases n,
{
    if n <= 0 {
        None
    } else {
        match first_context_error(session, contexts, n - 1) {
            Some(reason) => Some(reason),
            None => context_error(session, contexts, n - 1),
        }
    }
}

/// The text that is sent for the user message at a position.
pub open spec fn message_text(
    session: SessionModel,
    contexts: Seq<Option<Result<String, String>>>,
    at: int,
) -> Seq<char> {
    if prompt_for(session, at) is Some {
        contexts[at]->0->Ok_0@
    } else {
        session.messages[at].content
    }
}

/// A message in the shape that a request holds it in.
pub open spec fn message_item(role: Seq<char>, content_type: Seq<char>, text: Seq<char>) -> Json {
    Json::Object(
        map![
            "type"@ => Json::Text("message"@),
            "role"@ => Json::Text(role),
            "content"@ => Json::Array(seq![
                Json::Object(map![
                    "type"@ => Json::Text(content_type),
                    "text"@ => Json::Text(text),
                ]),
            ]),
        ],
    )
}

/// The output items of the first completed attempt with an identifier.
pub open spec fn completed_output(attempts: Seq<AttemptModel>, id: Seq<char>) -> Seq<Json>
    decreases attempts.len(),
{
    if attempts.len() == 0 {
        seq![]
    } else if attempts[0].id == id && attempts[0].status == AttemptStatus::Completed {
        attempts[0].output_items
    } else {
        completed_output(attempts.drop_first(), id)
    }
}

/// The output items that the answer in a message came from.
pub open spec fn answer_output(session: SessionModel, message: MessageModel) -> Seq<Json> {
    match message.attempt_id {
        Some(id) => completed_output(session.attempts, id),
        None => seq![],
    }
}

/// What a request holds for the message at a position: one item for a user
/// message; for an answer the output items that it came from or, where none are
/// kept, one item with its text.
pub open spec fn message_items(
    session: SessionModel,
    contexts: Seq<Option<Result<String, String>>>,
    at: int,
) -> Seq<Json> {
    let message = session.messages[at];
    match message.role {
        MessageRole::User => seq![
            message_item("user"@, "input_text"@, message_text(session, contexts, at)),
        ],
        MessageRole::Assistant => {
            let output = answer_output(session, message);
            if output.len() == 0 {
                seq![message_item("assistant"@, "output_text"@, message.content)]
            } else {
                output
            }
        },
    }
}

/// What a request holds for the first `n` messages, in their order.
pub open spec fn replayed(
    session: SessionModel,
    contexts: Seq<Option<Result<String, String>>>,
    n: int,
) -> Seq<Json>
    decreases n,
{
    if n <= 0 {
        seq![]
    } else {
        replayed(session, contexts, n - 1) + message_items(session, contexts, n - 1)
    }
}

/// The input of the request: what it holds for all messages, without the
/// identifiers that the service gave to its output items.
pub open spec fn request_input(
    session: SessionModel,
    contexts: Seq<Option<Result<String, String>>>,
) -> Seq<Json> {
    replayed(session, contexts, session.messages.len() as int).map_values(
        |item: Json| item.without("id"@),
    )
}

/// The assistant has answered at least once.
pub open spec fn has_answer(session: SessionModel) -> bool {
    exists|i: int|
        0 <= i < session.messages.len() && (#[trigger] session.messages[i]).role
            == MessageRole::Assistant
}

/// The reasoning settings of the request.
pub open spec fn request_reasoning(session: SessionModel) -> Json {
    if has_answer(session) && contains_text(lower_text(session.metadata.model), "gpt-5.6"@) {
        Json::Object(
            map!["effort"@ => Json::Text("none"@), "context"@ => Json::Text("all_turns"@)],
        )
    } else {
        Json::Object(map!["effort"@ => Json::Text("none"@)])
    }
}

/// The text of the first eight bytes of a session identifier.
pub open spec fn id_prefix(session_id: Seq<char>) -> Seq<char> {
    decode_utf8(encode_utf8(session_id).subrange(0, 8))
}

/// The key under which the service caches the prompts of a session.
pub open spec fn cache_key(session: SessionModel) -> Seq<char> {
    "gloss:"@ + decimal(session.metadata.prompt_version as nat) + ":"@ + id_prefix(
        session.metadata.session_id,
    )
}

/// The whole request.
pub open spec fn request_of(
    session: SessionModel,
    contexts: Seq<Option<Result<String, String>>>,
    instructions: Seq<char>,
) -> Json {
    Json::Object(
        map![
            "model"@ => Json::Text(session.metadata.model),
            "store"@ => Json::Bool(false),
            "stream"@ => Json::Bool(true),
            "instructions"@ => Json::Text(instructions),
            "input"@ => Json::Array(request_input(session, contexts)),
            "include"@ => Json::Array(seq![Json::Text("reasoning.encrypted_content"@)]),
            "reasoning"@ => request_reasoning(session),
            "text"@ => Json::Object(map!["verbosity"@ => Json::Text("medium"@)]),
            "prompt_cache_key"@ => Json::Text(cache_key(session)),
        ],
    )
}

fn message_value(role: &str, content_type: &str, text: &str) -> (value: Value)
    ensures
        json(value) == message_item(role@, content_type@, text@),
{
    let content = object2("type", text_value(content_type), "text", text_value(text));
    let mut value = object2("type", text_value("message"), "role", text_value(role));
    set_entry(&mut value, "content", array1(content));
    value
}

impl ConversationSession {
    /// For each message the prompt that it is to be rendered with, if any.
    pub fn prompt_requests(&self) -> (requests: Vec<Option<PromptRequest>>)
        ensures
            requests@.len() == self.model().messages.len(),
            forall|i: int|
                0 <= i < requests@.len() ==> match #[trigger] requests@[i] {
                    Some(request) => prompt_for(self.model(), i) == Some(request@),
                    None => prompt_for(self.model(), i) is None,
                },
    {
        let mut requests: Vec<Option<PromptRequest>> = Vec::new();
        let mut i: usize = 0;
        while i < self.messages.len()
            invariant
                i <= self.messages.len(),
                requests@.len() == i,
                forall|j: int|
                    0 <= j < i ==> match #[trigger] requests@[j] {
                        Some(request) => prompt_for(self.model(), j) == Some(request@),
                        None => prompt_for(self.model(), j) is None,
                    },
            decreases self.messages.len() - i,
        {
            let message = &self.messages[i];
            assert(self.model().messages[i as int] == message@);
            let request = match message.role {
                MessageRole::Assistant => None,
                MessageRole::User => match message.intent {
                    Some(MessageIntent::ExplainSelection) => Some(
                        PromptRequest {
                            template: PromptTemplate::ExplainSelection,
                            text: message.content.clone(),
                        },
                    ),
                    Some(MessageIntent::GotIt) => Some(
                        PromptRequest {
                            template: PromptTemplate::GotIt,
                            text: message.content.clone(),
                        },
                    ),
                    None => if i == 0 {
                        Some(
                            self.metadata.action.runtime_context(
                                self.metadata.selected_text.as_str(),
                            ),
                        )
                    } else {
                        None
                    },
                },
            };
            requests.push(request);
            i += 1;
        }
        requests
    }

    /// The output items of the first completed attempt with the identifier.
    fn find_output(&self, attempt_id: &String) -> (items: Vec<Value>)
        ensures
            json_list(items@) == completed_output(self.model().attempts, attempt_id@),
    {
        let ghost all = self.model().attempts;
        let mut i: usize = 0;
        assert(all.skip(0) =~= all);
        while i < self.attempts.len()
            invariant
                i <= self.attempts.len(),
                all == self.model().attempts,
                completed_output(all, attempt_id@) == completed_output(
                    all.skip(i as int),
                    attempt_id@,
                ),
            decreases self.attempts.len() - i,
        {
            let attempt = &self.attempts[i];
            assert(all.skip(i as int)[0] == attempt@);
            assert(all.skip(i as int).drop_first() =~= all.skip(i + 1));
            if attempt.id == *attempt_id && attempt.status == AttemptStatus::Completed {
                return copy_values(&attempt.output_items);
            }
            i += 1;
        }
        let items: Vec<Value> = Vec::new();
        assert(json_list(items@) =~= seq![]);
        items
    }

    /// Whether the assistant has answered at least once.
    fn is_answered(&self) -> (answered: bool)
        ensures
            answered == has_answer(self.model()),
    {
        let mut i: usize = 0;
        while i < self.messages.len()
            invariant
                i <= self.messages.len(),
                forall|j: int|
                    0 <= j < i ==> (#[trigger] self.model().messages[j]).role
                        != MessageRole::Assistant,
            decreases self.messages.len() - i,
        {
            assert(self.model().messages[i as int] == self.messages@[i as int]@);
            if self.messages[i].role == MessageRole::Assistant {
                return true;
            }
            i += 1;
        }
        false
    }

    /// The reasoning settings of the request.
    fn reasoning(&self) -> (value: Value)
        ensures
            json(value) == request_reasoning(self.model()),
    {
        if self.is_answered() && lower_contains(self.metadata.model.as_str(), "gpt-5.6") {
            object2("effort", text_value("none"), "context", text_value("all_turns"))
        } else {
            object1("effort", text_value("none"))
        }
    }

    /// The key under which the service caches the prompts of this session.
    fn prompt_cache_key(&self) -> (key: String)
        requires
            is_char_boundary(encode_utf8(self.model().metadata.session_id), 8),
        ensures
            key@ == cache_key(self.model()),
    {
        let (prefix, _) = self.metadata.session_id.as_str().split_at(8);
        proof {
            vstd::utf8::encode_utf8_decode_utf8(prefix@);
        }
        let mut key = "gloss:".to_owned();
        append_decimal(&mut key, self.metadata.prompt_version as u64);
        key.append(":");
        key.append(prefix);
        key
    }

    /// The items that the request holds for all messages, before their
    /// identifiers are taken away, or the first reason why one of them could not
    /// be rendered.
    fn replay(&self, contexts: &Vec<Option<Result<String, String>>>) -> (r: Result<
        Vec<Value>,
        String,
    >)
        requires
            rendered(self.model(), contexts@),
        ensures
            match r {
                Ok(items) => {
                    &&& first_context_error(self.model(), contexts@, contexts@.len() as int) is None
                    &&& json_list(items@) == replayed(
                        self.model(),
                        contexts@,
                        contexts@.len() as int,
                    )
                },
                Err(reason) => first_context_error(self.model(), contexts@, contexts@.len() as int)
                    == Some(reason@),
            },
    {
        let ghost session = self.model();
        let mut input: Vec<Value> = Vec::new();
        let mut i: usize = 0;
        assert(json_list(input@) =~= seq![]);
        while i < self.messages.len()
            invariant
                i <= self.messages.len(),
                session == self.model(),
                rendered(session, contexts@),
                first_context_error(session, contexts@, i as int) is None,
                json_list(input@) == replayed(session, contexts@, i as int),
            decreases self.messages.len() - i,
        {
            let message = &self.messages[i];
            let ghost done = input@;
            assert(session.messages[i as int] == message@);
            match message.role {
                MessageRole::User => {
                    let needs_context = message.intent.is_some() || i == 0;
                    assert(needs_context == (prompt_for(session, i as int) is Some));
                    let text: &String = if needs_context {
                        match &contexts[i] {
                            Some(Ok(text)) => text,
                            Some(Err(reason)) => {
                                proof {
                                    lemma_first_error_stays(
                                        session,
                                        contexts@,
                                        i + 1,
                                        contexts@.len() as int,
                                    );
                                }
                                return Err(reason.clone());
                            },
                            None => &message.content,
                        }
                    } else {
                        &message.content
                    };
                    let item = message_value("user", "input_text", text.as_str());
                    input.push(item);
                    assert(json_list(input@) =~= json_list(done) + seq![json(item)]);
                },
                MessageRole::Assistant => {
                    let mut output: Vec<Value> = match &message.attempt_id {
                        Some(attempt_id) => self.find_output(attempt_id),
                        None => Vec::new(),
                    };
                    assert(json_list(output@) =~= answer_output(session, message@));
                    if output.len() == 0 {
                        let item = message_value(
                            "assistant",
                            "output_text",
                            message.content.as_str(),
                        );
                        input.push(item);
                        assert(json_list(input@) =~= json_list(done) + seq![json(item)]);
                    } else {
                        let ghost items = output@;
                        input.append(&mut output);
                        assert(json_list(input@) =~= json_list(done) + json_list(items));
                    }
                },
            }
            i += 1;
        }
        Ok(input)
    }

    /// The body of the request for the next answer. `contexts` holds, for each
    /// message that is to be rendered, what came of it, and `instructions` what
    /// came of rendering the system prompt.
    pub fn request_body(
        &self,
        contexts: &Vec<Option<Result<String, String>>>,
        instructions: Result<String, String>,
    ) -> (r: Result<Value, String>)
        requires
            rendered(self.model(), contexts@),
            first_context_error(self.model(), contexts@, contexts@.len() as int) is None
                ==> is_char_boundary(encode_utf8(self.model().metadata.session_id), 8),
        ensures
            match (
                first_context_error(self.model(), contexts@, contexts@.len() as int),
                instructions,
            ) {
                (Some(reason), _) => r is Err && r->Err_0@ == reason,
                (None, Err(reason)) => r is Err && r->Err_0@ == reason@,
                (None, Ok(instructions)) => r is Ok && json(r->Ok_0) == request_of(
                    self.model(),
                    contexts@,
                    instructions@,
                ),
            },
    {
        let mut input: Vec<Value> = match self.replay(contexts) {
            Ok(items) => items,
            Err(reason) => {
                return Err(reason);
            },
        };
        let ghost items = input@;
        let mut i: usize = 0;
        while i < input.len()
            invariant
                i <= input.len(),
                input@.len() == items.len(),
                forall|j: int|
                    0 <= j < i ==> json(#[trigger] input@[j]) == json(items[j]).without("id"@),
                forall|j: int| i <= j < input@.len() ==> #[trigger] input@[j] == items[j],
            decreases input.len() - i,
        {
            remove_entry(&mut input[i], "id");
            i += 1;
        }
        assert(json_list(input@) =~= request_input(self.model(), contexts@));
        let reasoning = self.reasoning();
        let cache_key = self.prompt_cache_key();
        let instructions = match instructions {
            Ok(instructions) => instructions,
            Err(reason) => {
                return Err(reason);
            },
        };
        let mut body = empty_object();
        set_entry(&mut body, "model", text_value(self.metadata.model.as_str()));
        set_entry(&mut body, "store", bool_value(false));
        set_entry(&mut body, "stream", bool_value(true));
        set_entry(&mut body, "instructions", text_value(instructions.as_str()));
        set_entry(&mut body, "input", array_value(input));
        set_entry(&mut body, "include", array1(text_value("reasoning.encrypted_content")));
        set_entry(&mut body, "reasoning", reasoning);
        set_entry(&mut body, "text", object1("verbosity", text_value("medium")));
        set_entry(&mut body, "prompt_cache_key", text_value(cache_key.as_str()));
        Ok(body)
    }
}

/// A first error among fewer messages is the first error among more.
proof fn lemma_first_error_stays(
    session: SessionModel,
    contexts: Seq<Option<Result<String, String>>>,
    m: int,
    n: int,
)
    requires
        0 <= m <= n,
        first_context_error(session, contexts, m) is Some,
    ensures
        first_context_error(session, contexts, n) == first_context_error(session, contexts, m),
    decreases n - m,
{
    if m < n {
        lemma_first_error_stays(session, contexts, m, n - 1);
    }
}

/// No item of the input is an object with an identifier.
pub proof fn input_has_no_identifiers(
    session: SessionModel,
    contexts: Seq<Option<Result<String, String>>>,
)
    ensures
        forall|i: int|
            0 <= i < request_input(session, contexts).len() ==> match #[trigger] request_input(
                session,
                contexts,
            )[i] {
                Json::Object(entries) => !entries.dom().contains("id"@),
                _ => true,
            },
{
    let items = replayed(session, contexts, session.messages.len() as int);
    let input = request_input(session, contexts);
    assert forall|i: int| 0 <= i < input.len() implies match #[trigger] input[i] {
        Json::Object(entries) => !entries.dom().contains("id"@),
        _ => true,
    } by {
        assert(input[i] == items[i].without("id"@));
    }
}

proof fn lemma_replayed_prefix(
    session: SessionModel,
    contexts: Seq<Option<Result<String, String>>>,
    m: int,
    n: int,
)
    requires
        0 <= m <= n,
    ensures
        replayed(session, contexts, m).is_prefix_of(replayed(session, contexts, n)),
    decreases n - m,
{
    if m < n {
        lemma_replayed_prefix(session, contexts, m, n - 1);
    }
}

/// Every message is part of the request: after what the input holds for the messages
/// before it comes what it holds for the message itself, which is at least one item.
pub proof fn every_message_is_replayed(
    session: SessionModel,
    contexts: Seq<Option<Result<String, String>>>,
    at: int,
)
    requires
        0 <= at < session.messages.len(),
    ensures
        ({
            let input = request_input(session, contexts);
            let start = replayed(session, contexts, at).len();
            let items = message_items(session, contexts, at);
            &&& items.len() > 0
            &&& start + items.len() <= input.len()
            &&& forall|i: int|
                0 <= i < items.len() ==> input[start + i] == (#[trigger] items[i]).without("id"@)
        }),
{
    let input = request_input(session, contexts);
    let all = replayed(session, contexts, session.messages.len() as int);
    let start = replayed(session, contexts, at).len() as int;
    let items = message_items(session, contexts, at);
    let reached = replayed(session, contexts, at + 1);
    lemma_replayed_prefix(session, contexts, at + 1, session.messages.len() as int);
    assert forall|i: int| 0 <= i < items.len() implies input[start + i] == (
    #[trigger] items[i]).without("id"@) by {
        assert(reached[start + i] == items[i]);
        assert(all[start + i] == reached[start + i]);
    }
}

/// The first message of a session asks for the action with the selected text.
pub proof fn first_message_is_the_action(
    action: SessionAction,
    selected_text: Seq<char>,
    session_id: Seq<char>,
    turn_id: Seq<char>,
    message_id: Seq<char>,
    time: Timestamp,
)
    ensures
        prompt_for(
            SessionModel::started(action, selected_text, session_id, turn_id, message_id, time),
            0,
        ) == Some(PromptModel { template: action.template(), text: selected_text }),
{
}

/// A question of the user is sent as it was written. A passage that is to be explained
/// or that was understood is rendered with the template of its intent.
pub proof fn turns_are_sent_by_intent(
    session: SessionModel,
    content: Seq<char>,
    intent: Option<MessageIntent>,
    turn_id: Seq<char>,
    message_id: Seq<char>,
    time: Timestamp,
    contexts: Seq<Option<Result<String, String>>>,
)
    requires
        session.messages.len() > 0,
    ensures
        ({
            let later = session.with_user_turn(content, intent, turn_id, message_id, time);
            let at = session.messages.len() as int;
            match intent {
                None => message_items(later, contexts, at) == seq![
                    message_item("user"@, "input_text"@, content),
                ],
                Some(MessageIntent::ExplainSelection) => prompt_for(later, at) == Some(
                    PromptModel { template: PromptTemplate::ExplainSelection, text: content },
                ),
                Some(MessageIntent::GotIt) => prompt_for(later, at) == Some(
                    PromptModel { template: PromptTemplate::GotIt, text: content },
                ),
            }
        }),
{
}

/// What the request holds of an attempt that was not completed does not depend on how
/// far the attempt came.
proof fn lemma_uncompleted_output(
    attempts: Seq<AttemptModel>,
    at: int,
    changed: AttemptModel,
    id: Seq<char>,
)
    requires
        0 <= at < attempts.len(),
        attempts[at].status != AttemptStatus::Completed,
        changed.status != AttemptStatus::Completed,
    ensures
        completed_output(attempts.update(at, changed), id) == completed_output(attempts, id),
    decreases attempts.len(),
{
    let now = attempts.update(at, changed);
    if at > 0 {
        assert(now.drop_first() =~= attempts.drop_first().update(at - 1, changed));
        lemma_uncompleted_output(attempts.drop_first(), at - 1, changed, id);
    } else {
        assert(now.drop_first() =~= attempts.drop_first());
    }
}

proof fn lemma_pending_output(attempts: Seq<AttemptModel>, added: AttemptModel, id: Seq<char>)
    requires
        added.status != AttemptStatus::Completed,
    ensures
        completed_output(attempts.push(added), id) == completed_output(attempts, id),
    decreases attempts.len(),
{
    let more = attempts.push(added);
    if attempts.len() > 0 {
        assert(more.drop_first() =~= attempts.drop_first().push(added));
        lemma_pending_output(attempts.drop_first(), added, id);
    } else {
        assert(more.drop_first() =~= attempts);
    }
}

/// Where the messages are the same and the completed attempts gave the same output,
/// the same items are sent.
proof fn lemma_same_items(
    session: SessionModel,
    later: SessionModel,
    contexts: Seq<Option<Result<String, String>>>,
    n: int,
)
    requires
        later.messages == session.messages,
        later.metadata.action == session.metadata.action,
        later.metadata.selected_text == session.metadata.selected_text,
        forall|id: Seq<char>| #[trigger]
            completed_output(later.attempts, id) == completed_output(session.attempts, id),
    ensures
        replayed(later, contexts, n) == replayed(session, contexts, n),
    decreases n,
{
    if n > 0 {
        lemma_same_items(session, later, contexts, n - 1);
        assert(prompt_for(later, n - 1) == prompt_for(session, n - 1));
        assert(message_items(later, contexts, n - 1) == message_items(session, contexts, n - 1));
    }
}

/// Beginning an attempt does not change what is sent: the next request for the same
/// conversation is the same request.
pub proof fn begun_attempt_sends_the_same(
    session: SessionModel,
    attempt_id: Seq<char>,
    turn_id: Seq<char>,
    request: Json,
    time: Timestamp,
    contexts: Seq<Option<Result<String, String>>>,
    instructions: Seq<char>,
)
    ensures
        request_of(
            session.with_attempt(attempt_id, turn_id, request, time),
            contexts,
            instructions,
        ) == request_of(session, contexts, instructions),
{
    let later = session.with_attempt(attempt_id, turn_id, request, time);
    assert forall|id: Seq<char>| #[trigger] completed_output(later.attempts, id)
        == completed_output(session.attempts, id) by {
        lemma_pending_output(session.attempts, later.attempts.last(), id);
    }
    lemma_same_items(session, later, contexts, session.messages.len() as int);
    assert(has_answer(later) == has_answer(session));
}

/// A retry sends what the failed attempt sent: the failure of an attempt that was not
/// completed changes neither the input nor anything else of the next request.
pub proof fn retry_sends_the_same(
    session: SessionModel,
    attempt_id: Seq<char>,
    partial: Seq<char>,
    message: Seq<char>,
    incomplete: bool,
    transport_attempts: u8,
    finished_at: Timestamp,
    updated_at: Timestamp,
    contexts: Seq<Option<Result<String, String>>>,
    instructions: Seq<char>,
)
    requires
        first_attempt(session.attempts, attempt_id) is Some,
        session.attempts[first_attempt(session.attempts, attempt_id)->0].status
            != AttemptStatus::Completed,
    ensures
        request_of(
            session.with_failure(
                first_attempt(session.attempts, attempt_id)->0,
                partial,
                message,
                incomplete,
                transport_attempts,
                finished_at,
                updated_at,
            ),
            contexts,
            instructions,
        ) == request_of(session, contexts, instructions),
{
    first_attempt_is_first(session.attempts, attempt_id);
    let at = first_attempt(session.attempts, attempt_id)->0;
    let later = session.with_failure(
        at,
        partial,
        message,
        incomplete,
        transport_attempts,
        finished_at,
        updated_at,
    );
    assert forall|id: Seq<char>| #[trigger] completed_output(later.attempts, id)
        == completed_output(session.attempts, id) by {
        lemma_uncompleted_output(session.attempts, at, later.attempts[at], id);
    }
    lemma_same_items(session, later, contexts, session.messages.len() as int);
    assert(has_answer(later) == has_answer(session));
}

/// The service is told to keep nothing and is given no tools, whatever the
/// conversation is.
pub proof fn request_asks_for_no_storage(
    session: SessionModel,
    contexts: Seq<Option<Result<String, String>>>,
    instructions: Seq<char>,
)
    ensures
        ({
            let entries = request_of(session, contexts, instructions)->Object_0;
            &&& entries.dom().contains("store"@)
            &&& entries["store"@] == Json::Bool(false)
            &&& !entries.dom().contains("tools"@)
        }),
{
    reveal_strlit("model");
    reveal_strlit("store");
    reveal_strlit("stream");
    reveal_strlit("instructions");
    reveal_strlit("input");
    reveal_strlit("include");
    reveal_strlit("reasoning");
    reveal_strlit("text");
    reveal_strlit("prompt_cache_key");
    reveal_strlit("tools");
    assert("model"@[0] == 'm' && "store"@[0] == 's' && "input"@[0] == 'i' && "tools"@[0] == 't');
    assert("tools"@ != "store"@ && "tools"@ != "model"@ && "tools"@ != "input"@);
    assert("store"@ != "model"@ && "store"@ != "input"@);
    assert("store"@.len() == 5 && "tools"@.len() == 5 && "stream"@.len() == 6);
    assert("instructions"@.len() == 12 && "include"@.len() == 7 && "reasoning"@.len() == 9);
    assert("text"@.len() == 4 && "prompt_cache_key"@.len() == 16);
}

/// What the service gave for the last answer is what the next request holds for
/// it: its output items, or its text where there are none.
pub proof fn answer_is_replayed(
    session: SessionModel,
    attempt_id: Seq<char>,
    text: Seq<char>,
    response_id: Option<Seq<char>>,
    output_items: Seq<Json>,
    usage: Option<Json>,
    transport_attempts: u8,
    message_id: Seq<char>,
    finished_at: Timestamp,
    answered_at: Timestamp,
    updated_at: Timestamp,
    contexts: Seq<Option<Result<String, String>>>,
)
    requires
        first_attempt(session.attempts, attempt_id) is Some,
    ensures
        ({
            let later = session.with_answer(
                first_attempt(session.attempts, attempt_id)->0,
                text,
                response_id,
                output_items,
                usage,
                transport_attempts,
                message_id,
                finished_at,
                answered_at,
                updated_at,
            );
            &&& has_answer(later)
            &&& message_items(later, contexts, session.messages.len() as int) == if output_items.len()
                == 0 {
                seq![message_item("assistant"@, "output_text"@, text)]
            } else {
                output_items
            }
        }),
{
    first_attempt_is_first(session.attempts, attempt_id);
    let at = first_attempt(session.attempts, attempt_id)->0;
    let later = session.with_answer(
        at,
        text,
        response_id,
        output_items,
        usage,
        transport_attempts,
        message_id,
        finished_at,
        answered_at,
        updated_at,
    );
    let n = session.messages.len() as int;
    assert(later.messages[n].role == MessageRole::Assistant);
    assert(later.messages[n].attempt_id == Some(attempt_id));
    lemma_completed_output(later.attempts, attempt_id, at);
}

proof fn lemma_completed_output(attempts: Seq<AttemptModel>, id: Seq<char>, at: int)
    requires
        0 <= at < attempts.len(),
        attempts[at].id == id,
        attempts[at].status == AttemptStatus::Completed,
        forall|i: int| 0 <= i < at ==> (#[trigger] attempts[i]).id != id,
    ensures
        completed_output(attempts, id) == attempts[at].output_items,
    decreases at,
{
    if at > 0 {
        assert(attempts[0].id != id);
        let rest = attempts.drop_first();
        assert forall|i: int| 0 <= i < at - 1 implies (#[trigger] rest[i]).id != id by {
            assert(rest[i] == attempts[i + 1]);
        }
        lemma_completed_output(rest, id, at - 1);
    }
}

/// The cache key of a session whose identifier was newly made ends with the first
/// eight characters of the identifier, and a request can be made for it.
pub proof fn fresh_session_has_a_cache_key(session: SessionModel)
    requires
        is_fresh_id(session.metadata.session_id),
    ensures
        is_char_boundary(encode_utf8(session.metadata.session_id), 8),
        id_prefix(session.metadata.session_id) == session.metadata.session_id.subrange(0, 8),
{
    let id = session.metadata.session_id;
    let prefix = id.subrange(0, 8);
    assert(is_ascii_chars(id));
    vstd::utf8::is_ascii_chars_encode_utf8(id);
    vstd::utf8::encode_utf8_valid_utf8(id);
    let bytes = encode_utf8(id);
    assert(bytes[8] == id[8] as u8);
    assert(!vstd::utf8::is_continuation_byte(bytes[8]));
    vstd::utf8::is_char_boundary_iff_not_is_continuation_byte(bytes, 8);
    assert(is_ascii_chars(prefix));
    vstd::utf8::is_ascii_chars_encode_utf8(prefix);
    assert(encode_utf8(prefix) =~= bytes.subrange(0, 8));
    vstd::utf8::encode_utf8_decode_utf8(prefix);
}

/// The session as it was when it had its first `n` messages.
pub open spec fn with_first_messages(session: SessionModel, n: int) -> SessionModel {
    SessionModel { messages: session.messages.take(n), ..session }
}

proof fn lemma_replayed_of_first(
    session: SessionModel,
    contexts: Seq<Option<Result<String, String>>>,
    n: int,
    k: int,
)
    requires
        0 <= k <= n <= session.messages.len(),
    ensures
        replayed(with_first_messages(session, n), contexts, k) == replayed(session, contexts, k),
    decreases k,
{
    if k > 0 {
        lemma_replayed_of_first(session, contexts, n, k - 1);
        let early = with_first_messages(session, n);
        assert(early.messages[k - 1] == session.messages[k - 1]);
        assert(prompt_for(early, k - 1) == prompt_for(session, k - 1));
        assert(message_items(early, contexts, k - 1) == message_items(session, contexts, k - 1));
    }
}

/// The input is a history: what was sent when the session had fewer messages is the
/// beginning of what is sent now, and a session without messages sends nothing.
pub proof fn input_only_grows(
    session: SessionModel,
    contexts: Seq<Option<Result<String, String>>>,
    n: int,
)
    requires
        0 <= n <= session.messages.len(),
    ensures
        request_input(with_first_messages(session, n), contexts).is_prefix_of(
            request_input(session, contexts),
        ),
        request_input(with_first_messages(session, 0), contexts).len() == 0,
{
    lemma_replayed_of_first(session, contexts, n, n);
    lemma_replayed_prefix(session, contexts, n, session.messages.len() as int);
}

proof fn lemma_input_step(
    session: SessionModel,
    contexts: Seq<Option<Result<String, String>>>,
    at: int,
)
    requires
        0 <= at < session.messages.len(),
    ensures
        request_input(with_first_messages(session, at + 1), contexts) == request_input(
            with_first_messages(session, at),
            contexts,
        ) + message_items(session, contexts, at).map_values(|item: Json| item.without("id"@)),
{
    lemma_replayed_of_first(session, contexts, at, at);
    lemma_replayed_of_first(session, contexts, at + 1, at + 1);
    assert(request_input(with_first_messages(session, at + 1), contexts) =~= request_input(
        with_first_messages(session, at),
        contexts,
    ) + message_items(session, contexts, at).map_values(|item: Json| item.without("id"@)));
}

/// A message of the user, wherever it stands and whatever follows it, adds one item to
/// the input: a message of the user with one text. The text is what the user wrote, but
/// for the first message and for messages with an intent, which are sent as they were
/// rendered.
pub proof fn user_messages_are_sent(
    session: SessionModel,
    contexts: Seq<Option<Result<String, String>>>,
    at: int,
)
    requires
        0 <= at < session.messages.len(),
        session.messages[at].role == MessageRole::User,
    ensures
        ({
            let before = request_input(with_first_messages(session, at), contexts);
            let text = if session.messages[at].intent is None && at > 0 {
                session.messages[at].content
            } else {
                contexts[at]->0->Ok_0@
            };
            let item = Json::Object(
                map![
                    "type"@ => Json::Text("message"@),
                    "role"@ => Json::Text("user"@),
                    "content"@ => Json::Array(seq![
                        Json::Object(map![
                            "type"@ => Json::Text("input_text"@),
                            "text"@ => Json::Text(text),
                        ]),
                    ]),
                ],
            );
            &&& request_input(with_first_messages(session, at + 1), contexts) == before.push(item)
            &&& before.push(item).is_prefix_of(request_input(session, contexts))
        }),
{
    lemma_input_step(session, contexts, at);
    input_only_grows(session, contexts, at + 1);
    let before = request_input(with_first_messages(session, at), contexts);
    let items = message_items(session, contexts, at);
    let item = items[0];
    lemma_message_has_no_identifier(item->Object_0);
    assert(items.len() == 1);
    assert(before + items.map_values(|item: Json| item.without("id"@)) =~= before.push(item));
}

/// A message as a request holds it has no identifier, so that nothing is taken from it.
proof fn lemma_message_has_no_identifier(entries: Map<Seq<char>, Json>)
    requires
        entries.dom() =~= set!["type"@, "role"@, "content"@],
    ensures
        entries.remove("id"@) == entries,
{
    reveal_strlit("id");
    reveal_strlit("type");
    reveal_strlit("role");
    reveal_strlit("content");
    assert("id"@.len() == 2 && "type"@.len() == 4 && "role"@.len() == 4 && "content"@.len() == 7);
    assert(entries.remove("id"@) =~= entries);
}

/// `found` is the first completed attempt that a message names, if there is one.
pub open spec fn is_answered_by(
    session: SessionModel,
    message: MessageModel,
    found: Option<int>,
) -> bool {
    match found {
        Some(k) => {
            &&& message.attempt_id == Some(session.attempts[k].id)
            &&& 0 <= k < session.attempts.len()
            &&& session.attempts[k].status == AttemptStatus::Completed
            &&& forall|j: int|
                0 <= j < k && (#[trigger] session.attempts[j]).id == session.attempts[k].id
                    ==> session.attempts[j].status != AttemptStatus::Completed
        },
        None => forall|j: int|
            0 <= j < session.attempts.len() && message.attempt_id == Some(
                (#[trigger] session.attempts[j]).id,
            ) ==> session.attempts[j].status != AttemptStatus::Completed,
    }
}

proof fn lemma_output_of(attempts: Seq<AttemptModel>, id: Seq<char>, found: Option<int>)
    requires
        match found {
            Some(k) => {
                &&& 0 <= k < attempts.len()
                &&& attempts[k].id == id
                &&& attempts[k].status == AttemptStatus::Completed
                &&& forall|j: int|
                    0 <= j < k && (#[trigger] attempts[j]).id == id ==> attempts[j].status
                        != AttemptStatus::Completed
            },
            None => forall|j: int|
                0 <= j < attempts.len() && (#[trigger] attempts[j]).id == id ==> attempts[j].status
                    != AttemptStatus::Completed,
        },
    ensures
        completed_output(attempts, id) == match found {
            Some(k) => attempts[k].output_items,
            None => seq![],
        },
    decreases attempts.len(),
{
    if attempts.len() > 0 && found != Some(0int) {
        let rest = attempts.drop_first();
        let further = match found {
            Some(k) => Some(k - 1),
            None => None,
        };
        assert forall|j: int| 0 <= j < rest.len() implies #[trigger] rest[j] == attempts[j + 1] by {}
        assert(attempts[0].id == id ==> attempts[0].status != AttemptStatus::Completed);
        lemma_output_of(rest, id, further);
    }
}

/// An answer, wherever it stands and whatever follows it, is replayed as the service gave
/// it: the output items of the first completed attempt that it names, each without its
/// identifier. Where there are none, it is one message of the assistant with its text.
pub proof fn answers_are_replayed(
    session: SessionModel,
    contexts: Seq<Option<Result<String, String>>>,
    at: int,
    found: Option<int>,
)
    requires
        0 <= at < session.messages.len(),
        session.messages[at].role == MessageRole::Assistant,
        is_answered_by(session, session.messages[at], found),
    ensures
        ({
            let before = request_input(with_first_messages(session, at), contexts);
            let after = request_input(with_first_messages(session, at + 1), contexts);
            let given = match found {
                Some(k) => session.attempts[k].output_items,
                None => seq![],
            };
            &&& after.is_prefix_of(request_input(session, contexts))
            &&& given.len() > 0 ==> {
                &&& after.len() == before.len() + given.len()
                &&& before.is_prefix_of(after)
                &&& forall|i: int|
                    0 <= i < given.len() ==> after[before.len() + i] == match #[trigger] given[i] {
                        Json::Object(entries) => Json::Object(entries.remove("id"@)),
                        other => other,
                    }
            }
            &&& given.len() == 0 ==> after == before.push(
                Json::Object(
                    map![
                        "type"@ => Json::Text("message"@),
                        "role"@ => Json::Text("assistant"@),
                        "content"@ => Json::Array(seq![
                            Json::Object(map![
                                "type"@ => Json::Text("output_text"@),
                                "text"@ => Json::Text(session.messages[at].content),
                            ]),
                        ]),
                    ],
                ),
            )
        }),
{
    let message = session.messages[at];
    let before = request_input(with_first_messages(session, at), contexts);
    let items = message_items(session, contexts, at);
    lemma_input_step(session, contexts, at);
    input_only_grows(session, contexts, at + 1);
    if message.attempt_id is Some {
        lemma_output_of(session.attempts, message.attempt_id->0, found);
    }
    if answer_output(session, message).len() == 0 {
        let item = items[0];
        lemma_message_has_no_identifier(item->Object_0);
        assert(items.len() == 1);
        assert(before + items.map_values(|item: Json| item.without("id"@)) =~= before.push(item));
    }
}

/// What is rendered, and with what: the first message with the action of the session
/// around the selected text, and a message with an intent with the template of that
/// intent around what the message holds. Nothing else is rendered.
pub proof fn rendered_messages_are_these(session: SessionModel, at: int)
    requires
        0 <= at < session.messages.len(),
    ensures
        ({
            let message = session.messages[at];
            let prompt = prompt_for(session, at);
            &&& prompt is Some <==> message.role == MessageRole::User && (message.intent is Some
                || at == 0)
            &&& prompt is Some && message.intent is Some ==> prompt->0.text == message.content
            &&& prompt is Some && message.intent is None ==> prompt->0.text
                == session.metadata.selected_text
            &&& prompt is Some ==> match (message.intent, session.metadata.action) {
                (Some(MessageIntent::ExplainSelection), _) => prompt->0.template
                    == PromptTemplate::ExplainSelection,
                (Some(MessageIntent::GotIt), _) => prompt->0.template == PromptTemplate::GotIt,
                (None, SessionAction::Triage) => prompt->0.template == PromptTemplate::Triage,
                (None, SessionAction::Translate) => prompt->0.template == PromptTemplate::Translate,
                (None, SessionAction::Correct) => prompt->0.template == PromptTemplate::Correct,
            }
        }),
{
}

/// The message at a position has to be rendered and could not be.
pub open spec fn is_unrendered(
    session: SessionModel,
    contexts: Seq<Option<Result<String, String>>>,
    at: int,
) -> bool {
    &&& session.messages[at].role == MessageRole::User
    &&& session.messages[at].intent is Some || at == 0
    &&& contexts[at]->0 is Err
}

/// A request fails to render exactly when one of its messages does, and the reason is
/// that of the first such message.
pub proof fn first_unrendered_message_is_reported(
    session: SessionModel,
    contexts: Seq<Option<Result<String, String>>>,
    n: int,
    at: int,
)
    requires
        0 <= at < n <= session.messages.len(),
    ensures
        is_unrendered(session, contexts, at) && (forall|j: int|
            0 <= j < at ==> !#[trigger] is_unrendered(session, contexts, j)) ==> first_context_error(
            session,
            contexts,
            n,
        ) == Some(contexts[at]->0->Err_0@),
        (forall|j: int| 0 <= j < n ==> !#[trigger] is_unrendered(session, contexts, j))
            ==> first_context_error(session, contexts, n) is None,
    decreases n,
{
    assert(is_unrendered(session, contexts, n - 1) == (context_error(session, contexts, n - 1)
        is Some));
    if n > 1 {
        if at < n - 1 {
            first_unrendered_message_is_reported(session, contexts, n - 1, at);
        } else {
            first_unrendered_message_is_reported(session, contexts, n - 1, 0);
        }
    } else {
        assert(first_context_error(session, contexts, 0) is None);
    }
}

/// The model is of the family that carries its reasoning on.
pub open spec fn is_of_family(model: Seq<char>, at: int) -> bool {
    &&& 0 <= at
    &&& at + 7 <= model.len()
    &&& model[at] == 'g' || model[at] == 'G'
    &&& model[at + 1] == 'p' || model[at + 1] == 'P'
    &&& model[at + 2] == 't' || model[at + 2] == 'T'
    &&& model[at + 3] == '-'
    &&& model[at + 4] == '5'
    &&& model[at + 5] == '.'
    &&& model[at + 6] == '6'
}

proof fn lemma_family(model: Seq<char>, at: int)
    ensures
        is_of_family(model, at) <==> crate::text::occurs_at(lower_text(model), "gpt-5.6"@, at),
{
    reveal_strlit("gpt-5.6");
    let family = "gpt-5.6"@;
    assert(family.len() == 7);
    let low = lower_text(model);
    if 0 <= at && at + 7 <= model.len() {
        let part = low.subrange(at, at + 7);
        assert forall|j: int| 0 <= j < 7 implies part[j] == crate::text::lower_char(
            model[at + j],
        ) by {}
        assert(family[0] == 'g' && family[1] == 'p' && family[2] == 't' && family[3] == '-'
            && family[4] == '5' && family[5] == '.' && family[6] == '6');
        if is_of_family(model, at) {
            assert forall|j: int| 0 <= j < 7 implies part[j] == family[j] by {
                if j == 0 {
                    assert(part[0] == crate::text::lower_char(model[at]));
                } else if j == 1 {
                    assert(part[1] == crate::text::lower_char(model[at + 1]));
                } else if j == 2 {
                    assert(part[2] == crate::text::lower_char(model[at + 2]));
                } else if j == 3 {
                    assert(part[3] == crate::text::lower_char(model[at + 3]));
                } else if j == 4 {
                    assert(part[4] == crate::text::lower_char(model[at + 4]));
                } else if j == 5 {
                    assert(part[5] == crate::text::lower_char(model[at + 5]));
                } else {
                    assert(part[6] == crate::text::lower_char(model[at + 6]));
                }
            }
            assert(part =~= family);
        }
        if part == family {
            assert(part[0] == crate::text::lower_char(model[at]));
            assert(part[1] == crate::text::lower_char(model[at + 1]));
            assert(part[2] == crate::text::lower_char(model[at + 2]));
            assert(part[3] == crate::text::lower_char(model[at + 3]));
            assert(part[4] == crate::text::lower_char(model[at + 4]));
            assert(part[5] == crate::text::lower_char(model[at + 5]));
            assert(part[6] == crate::text::lower_char(model[at + 6]));
        }
    }
}

/// Reasoning is carried on over all turns exactly when the assistant has answered and the
/// model is of the family that can do so; else it is only switched off.
pub proof fn reasoning_is_carried_on(session: SessionModel)
    ensures
        (exists|i: int|
            0 <= i < session.messages.len() && (#[trigger] session.messages[i]).role
                == MessageRole::Assistant) && (exists|at: int|
            is_of_family(session.metadata.model, at)) ==> request_reasoning(session)
            == Json::Object(
            map!["effort"@ => Json::Text("none"@), "context"@ => Json::Text("all_turns"@)],
        ),
        (forall|i: int|
            0 <= i < session.messages.len() ==> (#[trigger] session.messages[i]).role
                == MessageRole::User) || (forall|at: int|
            !is_of_family(session.metadata.model, at)) ==> request_reasoning(session)
            == Json::Object(map!["effort"@ => Json::Text("none"@)]),
{
    let model = session.metadata.model;
    if exists|at: int| is_of_family(model, at) {
        let at = choose|at: int| is_of_family(model, at);
        lemma_family(model, at);
    } else if contains_text(lower_text(model), "gpt-5.6"@) {
        let at = choose|at: int| crate::text::occurs_at(lower_text(model), "gpt-5.6"@, at);
        lemma_family(model, at);
    }
}

/// What a request asks for, entry by entry.
pub proof fn request_has_these_entries(
    session: SessionModel,
    contexts: Seq<Option<Result<String, String>>>,
    instructions: Seq<char>,
)
    ensures
        ({
            let entries = request_of(session, contexts, instructions)->Object_0;
            &&& request_of(session, contexts, instructions) is Object
            &&& entries.dom() == set![
                "model"@,
                "store"@,
                "stream"@,
                "instructions"@,
                "input"@,
                "include"@,
                "reasoning"@,
                "text"@,
                "prompt_cache_key"@,
            ]
            &&& entries["model"@] == Json::Text(session.metadata.model)
            &&& entries["store"@] == Json::Bool(false)
            &&& entries["stream"@] == Json::Bool(true)
            &&& entries["instructions"@] == Json::Text(instructions)
            &&& entries["input"@] == Json::Array(request_input(session, contexts))
            &&& entries["include"@] == Json::Array(
                seq![Json::Text("reasoning.encrypted_content"@)],
            )
            &&& entries["reasoning"@] == request_reasoning(session)
            &&& entries["text"@] == Json::Object(map!["verbosity"@ => Json::Text("medium"@)])
            &&& entries["prompt_cache_key"@] is Text
        }),
{
    reveal_strlit("model");
    reveal_strlit("store");
    reveal_strlit("stream");
    reveal_strlit("instructions");
    reveal_strlit("input");
    reveal_strlit("include");
    reveal_strlit("reasoning");
    reveal_strlit("text");
    reveal_strlit("prompt_cache_key");
    assert("model"@[0] == 'm' && "store"@[0] == 's' && "input"@[0] == 'i');
    assert("store"@ != "model"@ && "store"@ != "input"@ && "model"@ != "input"@);
    assert("stream"@.len() == 6 && "instructions"@.len() == 12 && "include"@.len() == 7);
    assert("reasoning"@.len() == 9 && "text"@.len() == 4 && "prompt_cache_key"@.len() == 16);
    assert(request_of(session, contexts, instructions)->Object_0.dom() =~= set![
        "model"@,
        "store"@,
        "stream"@,
        "instructions"@,
        "input"@,
        "include"@,
        "reasoning"@,
        "text"@,
        "prompt_cache_key"@,
    ]);
}

/// The cache key names the version of the prompts and the session: it is `gloss`, the
/// version in decimal and the beginning of the session identifier that takes eight bytes,
/// with colons between them.
pub proof fn cache_key_names_version_and_session(
    session: SessionModel,
    contexts: Seq<Option<Result<String, String>>>,
    instructions: Seq<char>,
    prefix: Seq<char>,
)
    requires
        encode_utf8(prefix) == encode_utf8(session.metadata.session_id).subrange(0, 8),
    ensures
        request_of(session, contexts, instructions)->Object_0["prompt_cache_key"@] == Json::Text(
            "gloss:"@ + decimal(session.metadata.prompt_version as nat) + ":"@ + prefix,
        ),
{
    vstd::utf8::encode_utf8_decode_utf8(prefix);
}

}
