//! Conversations: what a session holds and how a turn, an attempt at an answer
//! and the outcome of the attempt change it.

use crate::clock::{now, Timestamp};
use crate::ids::{is_fresh_id, new_id};
use crate::json::{
    copy_option_value, copy_value, copy_values, json, json_list, json_option, Json,
};
use crate::prompts::{PromptModel, PromptRequest, PromptTemplate};
use crate::text::{copy_option, is_blank, is_blank_text, option_text};
use serde_json::Value;
use vstd::prelude::*;

verus! {

/// The model that new sessions talk to.
pub const MODEL: &'static str = "gpt-5.6-luna";

/// The version of the prompt templates that new sessions are made with.
pub const PROMPT_VERSION: u32 = 6;

/// What is to be done with the selected text.
#[derive(Debug, Clone, Copy, PartialEq, Eq, Structural)]
pub enum SessionAction {
    Triage,
    Translate,
    Correct,
}

impl SessionAction {
    /// The template of the first message of a session with this action.
    pub open spec fn template(self) -> PromptTemplate {
        match self {
            SessionAction::Triage => PromptTemplate::Triage,
            SessionAction::Translate => PromptTemplate::Translate,
            SessionAction::Correct => PromptTemplate::Correct,
        }
    }

    /// The prompt that puts the selected text into the action's context.
    pub fn runtime_context(self, selected_text: &str) -> (request: PromptRequest)
        ensures
            request@ == (PromptModel { template: self.template(), text: selected_text@ }),
    {
        let text = selected_text.to_owned();
        match self {
            SessionAction::Triage => PromptRequest { template: PromptTemplate::Triage, text },
            SessionAction::Translate => PromptRequest { template: PromptTemplate::Translate, text },
            SessionAction::Correct => PromptRequest { template: PromptTemplate::Correct, text },
        }
    }
}

#[derive(Debug)]
pub struct SessionMetadata {
    pub session_id: String,
    pub action: SessionAction,
    pub selected_text: String,
    pub created_at: Timestamp,
    pub updated_at: Timestamp,
    pub model: String,
    pub prompt_version: u32,
}

#[derive(Debug)]
pub struct StoredMessage {
    pub id: String,
    pub turn_id: String,
    pub role: MessageRole,
    pub content: String,
    pub timestamp: Timestamp,
    pub intent: Option<MessageIntent>,
    pub attempt_id: Option<String>,
}

/// Who a message is from.
#[derive(Debug, Clone, Copy, PartialEq, Eq, Structural)]
pub enum MessageRole {
    User,
    Assistant,
}

/// What a user message is for, where it is no plain question.
#[derive(Debug, Clone, Copy, PartialEq, Eq, Structural)]
pub enum MessageIntent {
    ExplainSelection,
    GotIt,
}

/// How far an attempt at an answer has come.
#[derive(Debug, Clone, Copy, PartialEq, Eq, Structural)]
pub enum AttemptStatus {
    Pending,
    Completed,
    Failed,
    Incomplete,
}

#[derive(Debug)]
pub struct AttemptRecord {
    pub id: String,
    pub turn_id: String,
    pub status: AttemptStatus,
    pub request: Value,
    pub started_at: Timestamp,
    pub finished_at: Option<Timestamp>,
    pub transport_attempts: u8,
    pub text: String,
    pub response_id: Option<String>,
    pub output_items: Vec<Value>,
    pub usage: Option<Value>,
    pub error: Option<String>,
}

#[derive(Debug)]
pub struct ConversationSession {
    pub metadata: SessionMetadata,
    pub messages: Vec<StoredMessage>,
    pub attempts: Vec<AttemptRecord>,
}

/// The part of a session that is shown to the user.
#[derive(Debug)]
pub struct SessionView {
    pub session_id: String,
    pub action: SessionAction,
    pub selected_text: String,
    pub messages: Vec<StoredMessage>,
}

/// The line of a session in the history list.
#[derive(Debug)]
pub struct SessionSummary {
    pub session_id: String,
    pub action: SessionAction,
    pub preview: String,
    pub updated_at: Timestamp,
}

/// What the metadata of a session hold.
#[verifier::ext_equal]
pub struct MetadataModel {
    pub session_id: Seq<char>,
    pub action: SessionAction,
    pub selected_text: Seq<char>,
    pub created_at: Timestamp,
    pub updated_at: Timestamp,
    pub model: Seq<char>,
    pub prompt_version: u32,
}

/// What a message holds.
#[verifier::ext_equal]
pub struct MessageModel {
    pub id: Seq<char>,
    pub turn_id: Seq<char>,
    pub role: MessageRole,
    pub content: Seq<char>,
    pub timestamp: Timestamp,
    pub intent: Option<MessageIntent>,
    pub attempt_id: Option<Seq<char>>,
}

/// What an attempt at an answer holds.
#[verifier::ext_equal]
pub struct AttemptModel {
    pub id: Seq<char>,
    pub turn_id: Seq<char>,
    pub status: AttemptStatus,
    pub request: Json,
    pub started_at: Timestamp,
    pub finished_at: Option<Timestamp>,
    pub transport_attempts: u8,
    pub text: Seq<char>,
    pub response_id: Option<Seq<char>>,
    pub output_items: Seq<Json>,
    pub usage: Option<Json>,
    pub error: Option<Seq<char>>,
}

/// What a session holds.
#[verifier::ext_equal]
pub struct SessionModel {
    pub metadata: MetadataModel,
    pub messages: Seq<MessageModel>,
    pub attempts: Seq<AttemptModel>,
}

/// What is shown of a session.
#[verifier::ext_equal]
pub struct ShownModel {
    pub session_id: Seq<char>,
    pub action: SessionAction,
    pub selected_text: Seq<char>,
    pub messages: Seq<MessageModel>,
}

impl View for SessionView {
    type V = ShownModel;

    open spec fn view(&self) -> ShownModel {
        ShownModel {
            session_id: self.session_id@,
            action: self.action,
            selected_text: self.selected_text@,
            messages: message_list(self.messages@),
        }
    }
}

/// What a line of the history list holds.
#[verifier::ext_equal]
pub struct SummaryModel {
    pub session_id: Seq<char>,
    pub action: SessionAction,
    pub preview: Seq<char>,
    pub updated_at: Timestamp,
}

impl View for SessionSummary {
    type V = SummaryModel;

    open spec fn view(&self) -> SummaryModel {
        SummaryModel {
            session_id: self.session_id@,
            action: self.action,
            preview: self.preview@,
            updated_at: self.updated_at,
        }
    }
}

impl View for SessionMetadata {
    type V = MetadataModel;

    open spec fn view(&self) -> MetadataModel {
        MetadataModel {
            session_id: self.session_id@,
            action: self.action,
            selected_text: self.selected_text@,
            created_at: self.created_at,
            updated_at: self.updated_at,
            model: self.model@,
            prompt_version: self.prompt_version,
        }
    }
}

impl View for StoredMessage {
    type V = MessageModel;

    open spec fn view(&self) -> MessageModel {
        MessageModel {
            id: self.id@,
            turn_id: self.turn_id@,
            role: self.role,
            content: self.content@,
            timestamp: self.timestamp,
            intent: self.intent,
            attempt_id: option_text(self.attempt_id),
        }
    }
}

impl View for AttemptRecord {
    type V = AttemptModel;

    open spec fn view(&self) -> AttemptModel {
        AttemptModel {
            id: self.id@,
            turn_id: self.turn_id@,
            status: self.status,
            request: json(self.request),
            started_at: self.started_at,
            finished_at: self.finished_at,
            transport_attempts: self.transport_attempts,
            text: self.text@,
            response_id: option_text(self.response_id),
            output_items: json_list(self.output_items@),
            usage: json_option(self.usage),
            error: option_text(self.error),
        }
    }
}

impl Clone for SessionMetadata {
    fn clone(&self) -> (copy: Self)
        ensures
            copy@ == self@,
    {
        SessionMetadata {
            session_id: self.session_id.clone(),
            action: self.action,
            selected_text: self.selected_text.clone(),
            created_at: self.created_at,
            updated_at: self.updated_at,
            model: self.model.clone(),
            prompt_version: self.prompt_version,
        }
    }
}

impl Clone for StoredMessage {
    fn clone(&self) -> (copy: Self)
        ensures
            copy@ == self@,
    {
        StoredMessage {
            id: self.id.clone(),
            turn_id: self.turn_id.clone(),
            role: self.role,
            content: self.content.clone(),
            timestamp: self.timestamp,
            intent: self.intent,
            attempt_id: copy_option(&self.attempt_id),
        }
    }
}

impl Clone for AttemptRecord {
    fn clone(&self) -> (copy: Self)
        ensures
            copy@ == self@,
    {
        AttemptRecord {
            id: self.id.clone(),
            turn_id: self.turn_id.clone(),
            status: self.status,
            request: copy_value(&self.request),
            started_at: self.started_at,
            finished_at: self.finished_at,
            transport_attempts: self.transport_attempts,
            text: self.text.clone(),
            response_id: copy_option(&self.response_id),
            output_items: copy_values(&self.output_items),
            usage: copy_option_value(&self.usage),
            error: copy_option(&self.error),
        }
    }
}

/// What a list of messages holds.
pub open spec fn message_list(messages: Seq<StoredMessage>) -> Seq<MessageModel> {
    messages.map_values(|message: StoredMessage| message@)
}

/// What a list of attempts holds.
pub open spec fn attempt_list(attempts: Seq<AttemptRecord>) -> Seq<AttemptModel> {
    attempts.map_values(|attempt: AttemptRecord| attempt@)
}

/// Copies of a list of messages.
pub fn copy_messages(messages: &Vec<StoredMessage>) -> (copies: Vec<StoredMessage>)
    ensures
        message_list(copies@) == message_list(messages@),
{
    let mut copies: Vec<StoredMessage> = Vec::new();
    let mut i: usize = 0;
    while i < messages.len()
        invariant
            i <= messages.len(),
            copies@.len() == i,
            forall|j: int| 0 <= j < i ==> (#[trigger] copies@[j])@ == messages@[j]@,
        decreases messages.len() - i,
    {
        copies.push(messages[i].clone());
        i += 1;
    }
    assert(message_list(copies@) =~= message_list(messages@));
    copies
}

/// Copies of a list of attempts.
pub fn copy_attempts(attempts: &Vec<AttemptRecord>) -> (copies: Vec<AttemptRecord>)
    ensures
        attempt_list(copies@) == attempt_list(attempts@),
{
    let mut copies: Vec<AttemptRecord> = Vec::new();
    let mut i: usize = 0;
    while i < attempts.len()
        invariant
            i <= attempts.len(),
            copies@.len() == i,
            forall|j: int| 0 <= j < i ==> (#[trigger] copies@[j])@ == attempts@[j]@,
        decreases attempts.len() - i,
    {
        copies.push(attempts[i].clone());
        i += 1;
    }
    assert(attempt_list(copies@) =~= attempt_list(attempts@));
    copies
}

impl Clone for ConversationSession {
    fn clone(&self) -> (copy: Self)
        ensures
            copy.model() == self.model(),
    {
        ConversationSession {
            metadata: self.metadata.clone(),
            messages: copy_messages(&self.messages),
            attempts: copy_attempts(&self.attempts),
        }
    }
}

impl Clone for SessionView {
    fn clone(&self) -> (copy: Self)
        ensures
            copy@ == self@,
    {
        SessionView {
            session_id: self.session_id.clone(),
            action: self.action,
            selected_text: self.selected_text.clone(),
            messages: copy_messages(&self.messages),
        }
    }
}

impl Clone for SessionSummary {
    fn clone(&self) -> (copy: Self)
        ensures
            copy@ == self@,
    {
        SessionSummary {
            session_id: self.session_id.clone(),
            action: self.action,
            preview: self.preview.clone(),
            updated_at: self.updated_at,
        }
    }
}

/// The first attempt with an identifier, by its position.
pub open spec fn first_attempt(attempts: Seq<AttemptModel>, id: Seq<char>) -> Option<int>
    decreases attempts.len(),
{
    if attempts.len() == 0 {
        None
    } else {
        match first_attempt(attempts.drop_last(), id) {
            Some(i) => Some(i),
            None => if attempts.last().id == id {
                Some(attempts.len() - 1)
            } else {
                None
            },
        }
    }
}

impl SessionModel {
    /// A new session with its first message.
    pub open spec fn started(
        action: SessionAction,
        selected_text: Seq<char>,
        session_id: Seq<char>,
        turn_id: Seq<char>,
        message_id: Seq<char>,
        time: Timestamp,
    ) -> SessionModel {
        SessionModel {
            metadata: MetadataModel {
                session_id,
                action,
                selected_text,
                created_at: time,
                updated_at: time,
                model: MODEL@,
                prompt_version: PROMPT_VERSION,
            },
            messages: seq![
                MessageModel {
                    id: message_id,
                    turn_id,
                    role: MessageRole::User,
                    content: selected_text,
                    timestamp: time,
                    intent: None,
                    attempt_id: None,
                },
            ],
            attempts: seq![],
        }
    }

    /// Why a user turn with the content is refused, if it is.
    pub open spec fn user_turn_refusal(self, content: Seq<char>) -> Option<Seq<char>> {
        if self.metadata.action != SessionAction::Triage {
            Some("Follow-up questions are only available after Triage."@)
        } else if is_blank_text(content) {
            Some("Write a question before sending."@)
        } else {
            None
        }
    }

    /// The session with one more user turn.
    pub open spec fn with_user_turn(
        self,
        content: Seq<char>,
        intent: Option<MessageIntent>,
        turn_id: Seq<char>,
        message_id: Seq<char>,
        time: Timestamp,
    ) -> SessionModel {
        SessionModel {
            metadata: MetadataModel { updated_at: time, ..self.metadata },
            messages: self.messages.push(
                MessageModel {
                    id: message_id,
                    turn_id,
                    role: MessageRole::User,
                    content,
                    timestamp: time,
                    intent,
                    attempt_id: None,
                },
            ),
            attempts: self.attempts,
        }
    }

    /// The session has a user message of the turn.
    pub open spec fn has_user_turn(self, turn_id: Seq<char>) -> bool {
        exists|i: int|
            0 <= i < self.messages.len() && (#[trigger] self.messages[i]).turn_id == turn_id
                && self.messages[i].role == MessageRole::User
    }

    /// The session with one more attempt, which is pending.
    pub open spec fn with_attempt(
        self,
        attempt_id: Seq<char>,
        turn_id: Seq<char>,
        request: Json,
        time: Timestamp,
    ) -> SessionModel {
        SessionModel {
            attempts: self.attempts.push(
                AttemptModel {
                    id: attempt_id,
                    turn_id,
                    status: AttemptStatus::Pending,
                    request,
                    started_at: time,
                    finished_at: None,
                    transport_attempts: 0,
                    text: seq![],
                    response_id: None,
                    output_items: seq![],
                    usage: None,
                    error: None,
                },
            ),
            ..self
        }
    }

    /// The session after the attempt at position `at` was answered in full: the
    /// attempt is completed, and the answer is one more message of its turn.
    pub open spec fn with_answer(
        self,
        at: int,
        text: Seq<char>,
        response_id: Option<Seq<char>>,
        output_items: Seq<Json>,
        usage: Option<Json>,
        transport_attempts: u8,
        message_id: Seq<char>,
        finished_at: Timestamp,
        answered_at: Timestamp,
        updated_at: Timestamp,
    ) -> SessionModel {
        let attempt = self.attempts[at];
        SessionModel {
            metadata: MetadataModel { updated_at, ..self.metadata },
            messages: self.messages.push(
                MessageModel {
                    id: message_id,
                    turn_id: attempt.turn_id,
                    role: MessageRole::Assistant,
                    content: text,
                    timestamp: answered_at,
                    intent: None,
                    attempt_id: Some(attempt.id),
                },
            ),
            attempts: self.attempts.update(
                at,
                AttemptModel {
                    status: AttemptStatus::Completed,
                    finished_at: Some(finished_at),
                    transport_attempts,
                    text,
                    response_id,
                    output_items,
                    usage,
                    ..attempt
                },
            ),
        }
    }

    /// The session after the attempt at position `at` failed or broke off.
    pub open spec fn with_failure(
        self,
        at: int,
        partial: Seq<char>,
        message: Seq<char>,
        incomplete: bool,
        transport_attempts: u8,
        finished_at: Timestamp,
        updated_at: Timestamp,
    ) -> SessionModel {
        let attempt = self.attempts[at];
        SessionModel {
            metadata: MetadataModel { updated_at, ..self.metadata },
            messages: self.messages,
            attempts: self.attempts.update(
                at,
                AttemptModel {
                    status: if incomplete {
                        AttemptStatus::Incomplete
                    } else {
                        AttemptStatus::Failed
                    },
                    finished_at: Some(finished_at),
                    transport_attempts,
                    text: partial,
                    error: Some(message),
                    ..attempt
                },
            ),
        }
    }
}

impl ConversationSession {
    /// What the session holds.
    pub open spec fn model(&self) -> SessionModel {
        SessionModel {
            metadata: self.metadata@,
            messages: message_list(self.messages@),
            attempts: attempt_list(self.attempts@),
        }
    }

    /// A new session about the selected text, with the identifier of its first
    /// turn.
    pub fn new(action: SessionAction, selected_text: String) -> (r: (Self, String))
        ensures
            r.0.model() == SessionModel::started(
                action,
                selected_text@,
                r.0.model().metadata.session_id,
                r.1@,
                r.0.model().messages[0].id,
                r.0.model().metadata.created_at,
            ),
            is_fresh_id(r.0.model().metadata.session_id),
            is_fresh_id(r.1@),
            is_fresh_id(r.0.model().messages[0].id),
            r.0.model().metadata.created_at.is_clock_time(),
    {
        let time = now();
        let session_id = new_id();
        let turn_id = new_id();
        let message_id = new_id();
        ConversationSession::start(action, selected_text, session_id, turn_id, message_id, time)
    }

    /// The session that `new` makes, from given identifiers and a given time.
    pub fn start(
        action: SessionAction,
        selected_text: String,
        session_id: String,
        turn_id: String,
        message_id: String,
        time: Timestamp,
    ) -> (r: (Self, String))
        ensures
            r.0.model() == SessionModel::started(
                action,
                selected_text@,
                session_id@,
                turn_id@,
                message_id@,
                time,
            ),
            r.1@ == turn_id@,
    {
        let mut messages: Vec<StoredMessage> = Vec::new();
        messages.push(
            StoredMessage {
                id: message_id,
                turn_id: turn_id.clone(),
                role: MessageRole::User,
                content: selected_text.clone(),
                timestamp: time,
                intent: None,
                attempt_id: None,
            },
        );
        let session = ConversationSession {
            metadata: SessionMetadata {
                session_id,
                action,
                selected_text,
                created_at: time,
                updated_at: time,
                model: MODEL.to_owned(),
                prompt_version: PROMPT_VERSION,
            },
            messages,
            attempts: Vec::new(),
        };
        proof {
            let started = SessionModel::started(
                action,
                selected_text@,
                session_id@,
                turn_id@,
                message_id@,
                time,
            );
            assert(session.model().messages =~= started.messages);
            assert(session.model().attempts =~= started.attempts);
        }
        (session, turn_id)
    }

    /// What of the session is shown to the user.
    pub fn view(&self) -> (shown: SessionView)
        ensures
            shown@ == (ShownModel {
                session_id: self.model().metadata.session_id,
                action: self.model().metadata.action,
                selected_text: self.model().metadata.selected_text,
                messages: self.model().messages,
            }),
    {
        SessionView {
            session_id: self.metadata.session_id.clone(),
            action: self.metadata.action,
            selected_text: self.metadata.selected_text.clone(),
            messages: copy_messages(&self.messages),
        }
    }

    /// Adds a question of the user.
    pub fn add_follow_up(&mut self, content: String) -> (r: Result<String, String>)
        ensures
            old(self).turn_was_added(*final(self), content@, None, r),
    {
        self.add_user_turn(content, None)
    }

    /// Adds the request to explain a passage of an answer.
    pub fn add_explain_selection(&mut self, content: String) -> (r: Result<String, String>)
        ensures
            old(self).turn_was_added(
                *final(self),
                content@,
                Some(MessageIntent::ExplainSelection),
                r,
            ),
    {
        self.add_user_turn(content, Some(MessageIntent::ExplainSelection))
    }

    /// Adds the sign that a passage of an answer was understood.
    pub fn add_got_it(&mut self, content: String) -> (r: Result<String, String>)
        ensures
            old(self).turn_was_added(*final(self), content@, Some(MessageIntent::GotIt), r),
    {
        self.add_user_turn(content, Some(MessageIntent::GotIt))
    }

    /// Adding a user turn to this session gave `r` and left `after`: where the
    /// turn is refused, the reason and the session as it was; else the new
    /// identifier of the turn and the session with the turn, whose message has a
    /// new identifier and the time of the update, which a clock showed.
    pub open spec fn turn_was_added(
        self,
        after: ConversationSession,
        content: Seq<char>,
        intent: Option<MessageIntent>,
        r: Result<String, String>,
    ) -> bool {
        match self.model().user_turn_refusal(content) {
            Some(reason) => r is Err && r->Err_0@ == reason && after == self,
            None => {
                &&& r is Ok
                &&& after.model() == self.model().with_user_turn(
                    content,
                    intent,
                    r->Ok_0@,
                    after.model().messages.last().id,
                    after.model().metadata.updated_at,
                )
                &&& is_fresh_id(r->Ok_0@)
                &&& is_fresh_id(after.model().messages.last().id)
                &&& after.model().metadata.updated_at.is_clock_time()
            },
        }
    }

    /// Why a user turn with the content is refused, if it is.
    fn refuse_user_turn(&self, content: &str) -> (reason: Option<String>)
        ensures
            option_text(reason) == self.model().user_turn_refusal(content@),
    {
        if self.metadata.action != SessionAction::Triage {
            return Some("Follow-up questions are only available after Triage.".to_owned());
        }
        if is_blank(content) {
            return Some("Write a question before sending.".to_owned());
        }
        None
    }

    fn add_user_turn(&mut self, content: String, intent: Option<MessageIntent>) -> (r: Result<
        String,
        String,
    >)
        ensures
            old(self).turn_was_added(*final(self), content@, intent, r),
    {
        if let Some(reason) = self.refuse_user_turn(content.as_str()) {
            return Err(reason);
        }
        let turn_id = new_id();
        let time = now();
        let message_id = new_id();
        self.record_user_turn(content, intent, turn_id, message_id, time)
    }

    /// Adds a user turn with given identifiers at a given time.
    pub fn record_user_turn(
        &mut self,
        content: String,
        intent: Option<MessageIntent>,
        turn_id: String,
        message_id: String,
        time: Timestamp,
    ) -> (r: Result<String, String>)
        ensures
            match old(self).model().user_turn_refusal(content@) {
                Some(reason) => r is Err && r->Err_0@ == reason && *final(self) == *old(self),
                None => {
                    &&& r is Ok
                    &&& r->Ok_0@ == turn_id@
                    &&& final(self).model() == old(self).model().with_user_turn(
                        content@,
                        intent,
                        turn_id@,
                        message_id@,
                        time,
                    )
                },
            },
    {
        if let Some(reason) = self.refuse_user_turn(content.as_str()) {
            return Err(reason);
        }
        let ghost before = self.model();
        self.messages.push(
            StoredMessage {
                id: message_id,
                turn_id: turn_id.clone(),
                role: MessageRole::User,
                content,
                timestamp: time,
                intent,
                attempt_id: None,
            },
        );
        self.metadata.updated_at = time;
        assert(self.model().messages =~= before.with_user_turn(
            content@,
            intent,
            turn_id@,
            message_id@,
            time,
        ).messages);
        Ok(turn_id)
    }

    /// Whether the session has a user message of the turn.
    pub fn has_user_turn(&self, turn_id: &str) -> (found: bool)
        ensures
            found == self.model().has_user_turn(turn_id@),
    {
        let wanted = turn_id.to_owned();
        let mut i: usize = 0;
        while i < self.messages.len()
            invariant
                i <= self.messages.len(),
                wanted@ == turn_id@,
                forall|j: int|
                    0 <= j < i ==> !((#[trigger] self.messages@[j])@.turn_id == turn_id@
                        && self.messages@[j].role == MessageRole::User),
            decreases self.messages.len() - i,
        {
            if self.messages[i].turn_id == wanted && self.messages[i].role == MessageRole::User {
                assert(self.model().messages[i as int] == self.messages@[i as int]@);
                return true;
            }
            i += 1;
        }
        assert forall|j: int| 0 <= j < self.model().messages.len() implies !((
        #[trigger] self.model().messages[j]).turn_id == turn_id@ && self.model().messages[j].role
            == MessageRole::User) by {
            assert(self.model().messages[j] == self.messages@[j]@);
        }
        false
    }

    /// The position of the first attempt with the identifier.
    fn find_attempt(&self, attempt_id: &str) -> (at: Option<usize>)
        ensures
            match at {
                Some(i) => i < self.attempts@.len() && first_attempt(
                    self.model().attempts,
                    attempt_id@,
                ) == Some(i as int) && self.attempts@[i as int].id@ == attempt_id@,
                None => first_attempt(self.model().attempts, attempt_id@) is None,
            },
    {
        let wanted = attempt_id.to_owned();
        let ghost all = self.model().attempts;
        let mut i: usize = 0;
        while i < self.attempts.len()
            invariant
                i <= self.attempts.len(),
                wanted@ == attempt_id@,
                all == self.model().attempts,
                first_attempt(all.take(i as int), attempt_id@) is None,
            decreases self.attempts.len() - i,
        {
            assert(all.take(i + 1).drop_last() =~= all.take(i as int));
            assert(all[i as int] == self.attempts@[i as int]@);
            if self.attempts[i].id == wanted {
                proof {
                    lemma_first_attempt_extends(all, i + 1, attempt_id@);
                }
                return Some(i);
            }
            i += 1;
        }
        assert(all.take(all.len() as int) =~= all);
        None
    }

    /// Begins an attempt to answer a turn.
    pub fn begin_attempt(&mut self, turn_id: &str, request: Value) -> (r: Result<String, String>)
        ensures
            match r {
                Ok(attempt_id) => {
                    &&& old(self).model().has_user_turn(turn_id@)
                    &&& final(self).model() == old(self).model().with_attempt(
                        attempt_id@,
                        turn_id@,
                        json(request),
                        final(self).model().attempts.last().started_at,
                    )
                    &&& is_fresh_id(attempt_id@)
                    &&& final(self).model().attempts.last().started_at.is_clock_time()
                },
                Err(message) => {
                    &&& !old(self).model().has_user_turn(turn_id@)
                    &&& message@ == "The requested turn does not exist."@
                    &&& *final(self) == *old(self)
                },
            },
    {
        if !self.has_user_turn(turn_id) {
            return Err("The requested turn does not exist.".to_owned());
        }
        let attempt_id = new_id();
        let time = now();
        self.record_attempt(turn_id, request, attempt_id, time)
    }

    /// Begins an attempt with a given identifier at a given time.
    pub fn record_attempt(
        &mut self,
        turn_id: &str,
        request: Value,
        attempt_id: String,
        time: Timestamp,
    ) -> (r: Result<String, String>)
        ensures
            match r {
                Ok(id) => {
                    &&& old(self).model().has_user_turn(turn_id@)
                    &&& id@ == attempt_id@
                    &&& final(self).model() == old(self).model().with_attempt(
                        attempt_id@,
                        turn_id@,
                        json(request),
                        time,
                    )
                },
                Err(message) => {
                    &&& !old(self).model().has_user_turn(turn_id@)
                    &&& message@ == "The requested turn does not exist."@
                    &&& *final(self) == *old(self)
                },
            },
    {
        if !self.has_user_turn(turn_id) {
            return Err("The requested turn does not exist.".to_owned());
        }
        let ghost before = self.model();
        self.attempts.push(
            AttemptRecord {
                id: attempt_id.clone(),
                turn_id: turn_id.to_owned(),
                status: AttemptStatus::Pending,
                request,
                started_at: time,
                finished_at: None,
                transport_attempts: 0,
                text: String::new(),
                response_id: None,
                output_items: Vec::new(),
                usage: None,
                error: None,
            },
        );
        proof {
            let pending = before.with_attempt(attempt_id@, turn_id@, json(request), time);
            assert(self.attempts@.last()@.output_items =~= pending.attempts.last().output_items);
            assert(self.model().attempts =~= pending.attempts);
        }
        Ok(attempt_id)
    }

    /// Ends an attempt with a full answer.
    pub fn complete_attempt(
        &mut self,
        attempt_id: &str,
        text: String,
        response_id: Option<String>,
        output_items: Vec<Value>,
        usage: Option<Value>,
        transport_attempts: u8,
    ) -> (r: Result<(), String>)
        ensures
            match first_attempt(old(self).model().attempts, attempt_id@) {
                Some(at) => {
                    &&& r is Ok
                    &&& final(self).model().attempts[at].finished_at is Some
                    &&& final(self).model() == old(self).model().with_answer(
                        at,
                        text@,
                        option_text(response_id),
                        json_list(output_items@),
                        json_option(usage),
                        transport_attempts,
                        final(self).model().messages.last().id,
                        final(self).model().attempts[at].finished_at->0,
                        final(self).model().messages.last().timestamp,
                        final(self).model().metadata.updated_at,
                    )
                    &&& is_fresh_id(final(self).model().messages.last().id)
                    &&& final(self).model().attempts[at].finished_at->0.is_clock_time()
                    &&& final(self).model().messages.last().timestamp.is_clock_time()
                    &&& final(self).model().metadata.updated_at.is_clock_time()
                },
                None => {
                    &&& r is Err
                    &&& r->Err_0@ == "The response attempt does not exist."@
                    &&& *final(self) == *old(self)
                },
            },
    {
        if self.find_attempt(attempt_id).is_none() {
            return Err("The response attempt does not exist.".to_owned());
        }
        let finished_at = now();
        let message_id = new_id();
        let answered_at = now();
        let updated_at = now();
        proof {
            first_attempt_is_first(self.model().attempts, attempt_id@);
        }
        self.record_answer(
            attempt_id,
            text,
            response_id,
            output_items,
            usage,
            transport_attempts,
            message_id,
            finished_at,
            answered_at,
            updated_at,
        )
    }

    /// Ends an attempt with a full answer, with a given identifier of the message
    /// and at given times.
    pub fn record_answer(
        &mut self,
        attempt_id: &str,
        text: String,
        response_id: Option<String>,
        output_items: Vec<Value>,
        usage: Option<Value>,
        transport_attempts: u8,
        message_id: String,
        finished_at: Timestamp,
        answered_at: Timestamp,
        updated_at: Timestamp,
    ) -> (r: Result<(), String>)
        ensures
            match first_attempt(old(self).model().attempts, attempt_id@) {
                Some(at) => {
                    &&& r is Ok
                    &&& final(self).model() == old(self).model().with_answer(
                        at,
                        text@,
                        option_text(response_id),
                        json_list(output_items@),
                        json_option(usage),
                        transport_attempts,
                        message_id@,
                        finished_at,
                        answered_at,
                        updated_at,
                    )
                },
                None => {
                    &&& r is Err
                    &&& r->Err_0@ == "The response attempt does not exist."@
                    &&& *final(self) == *old(self)
                },
            },
    {
        let at: usize = match self.find_attempt(attempt_id) {
            Some(at) => at,
            None => {
                return Err("The response attempt does not exist.".to_owned());
            },
        };
        let ghost before = self.model();
        let turn_id = self.attempts[at].turn_id.clone();
        let attempt = &mut self.attempts[at];
        attempt.status = AttemptStatus::Completed;
        attempt.finished_at = Some(finished_at);
        attempt.transport_attempts = transport_attempts;
        attempt.text = text.clone();
        attempt.response_id = response_id;
        attempt.output_items = output_items;
        attempt.usage = usage;
        self.messages.push(
            StoredMessage {
                id: message_id,
                turn_id,
                role: MessageRole::Assistant,
                content: text,
                timestamp: answered_at,
                intent: None,
                attempt_id: Some(attempt_id.to_owned()),
            },
        );
        self.metadata.updated_at = updated_at;
        proof {
            let after = before.with_answer(
                at as int,
                text@,
                option_text(response_id),
                json_list(output_items@),
                json_option(usage),
                transport_attempts,
                message_id@,
                finished_at,
                answered_at,
                updated_at,
            );
            assert(self.model().messages =~= after.messages);
            assert(self.model().attempts =~= after.attempts);
        }
        Ok(())
    }

    /// Ends an attempt without a full answer.
    pub fn fail_attempt(
        &mut self,
        attempt_id: &str,
        partial: String,
        message: String,
        incomplete: bool,
        transport_attempts: u8,
    ) -> (r: Result<(), String>)
        ensures
            match first_attempt(old(self).model().attempts, attempt_id@) {
                Some(at) => {
                    &&& r is Ok
                    &&& final(self).model().attempts[at].finished_at is Some
                    &&& final(self).model() == old(self).model().with_failure(
                        at,
                        partial@,
                        message@,
                        incomplete,
                        transport_attempts,
                        final(self).model().attempts[at].finished_at->0,
                        final(self).model().metadata.updated_at,
                    )
                    &&& final(self).model().attempts[at].finished_at->0.is_clock_time()
                    &&& final(self).model().metadata.updated_at.is_clock_time()
                },
                None => {
                    &&& r is Err
                    &&& r->Err_0@ == "The response attempt does not exist."@
                    &&& *final(self) == *old(self)
                },
            },
    {
        if self.find_attempt(attempt_id).is_none() {
            return Err("The response attempt does not exist.".to_owned());
        }
        let finished_at = now();
        let updated_at = now();
        proof {
            first_attempt_is_first(self.model().attempts, attempt_id@);
        }
        self.record_failure(
            attempt_id,
            partial,
            message,
            incomplete,
            transport_attempts,
            finished_at,
            updated_at,
        )
    }

    /// Ends an attempt without a full answer, at given times.
    pub fn record_failure(
        &mut self,
        attempt_id: &str,
        partial: String,
        message: String,
        incomplete: bool,
        transport_attempts: u8,
        finished_at: Timestamp,
        updated_at: Timestamp,
    ) -> (r: Result<(), String>)
        ensures
            match first_attempt(old(self).model().attempts, attempt_id@) {
                Some(at) => {
                    &&& r is Ok
                    &&& final(self).model() == old(self).model().with_failure(
                        at,
                        partial@,
                        message@,
                        incomplete,
                        transport_attempts,
                        finished_at,
                        updated_at,
                    )
                },
                None => {
                    &&& r is Err
                    &&& r->Err_0@ == "The response attempt does not exist."@
                    &&& *final(self) == *old(self)
                },
            },
    {
        let at: usize = match self.find_attempt(attempt_id) {
            Some(at) => at,
            None => {
                return Err("The response attempt does not exist.".to_owned());
            },
        };
        let ghost before = self.model();
        let attempt = &mut self.attempts[at];
        attempt.status = if incomplete {
            AttemptStatus::Incomplete
        } else {
            AttemptStatus::Failed
        };
        attempt.finished_at = Some(finished_at);
        attempt.transport_attempts = transport_attempts;
        attempt.text = partial;
        attempt.error = Some(message);
        self.metadata.updated_at = updated_at;
        proof {
            let after = before.with_failure(
                at as int,
                partial@,
                message@,
                incomplete,
                transport_attempts,
                finished_at,
                updated_at,
            );
            assert(self.model().attempts =~= after.attempts);
        }
        Ok(())
    }
}

/// The first attempt with an identifier has that identifier, and no attempt
/// before it has; where there is no first attempt, no attempt has the identifier.
pub proof fn first_attempt_is_first(attempts: Seq<AttemptModel>, id: Seq<char>)
    ensures
        match first_attempt(attempts, id) {
            Some(at) => {
                &&& 0 <= at < attempts.len()
                &&& attempts[at].id == id
                &&& forall|i: int| 0 <= i < at ==> (#[trigger] attempts[i]).id != id
            },
            None => forall|i: int| 0 <= i < attempts.len() ==> (#[trigger] attempts[i]).id != id,
        },
    decreases attempts.len(),
{
    if attempts.len() > 0 {
        let before = attempts.drop_last();
        first_attempt_is_first(before, id);
        assert forall|i: int| 0 <= i < before.len() implies #[trigger] attempts[i]
            == before[i] by {}
    }
}

/// A first attempt that was found in a beginning of the list is the first of the
/// whole list.
proof fn lemma_first_attempt_extends(attempts: Seq<AttemptModel>, n: int, id: Seq<char>)
    requires
        0 <= n <= attempts.len(),
        first_attempt(attempts.take(n), id) is Some,
    ensures
        first_attempt(attempts, id) == first_attempt(attempts.take(n), id),
    decreases attempts.len() - n,
{
    if n < attempts.len() {
        assert(attempts.take(n + 1).drop_last() =~= attempts.take(n));
        lemma_first_attempt_extends(attempts, n + 1, id);
    } else {
        assert(attempts.take(n) =~= attempts);
    }
}

impl SessionModel {
    /// The session is the same conversation as the other one at a later time: only the
    /// time of the update differs in the metadata, and no message is lost or changed.
    pub open spec fn carries_on(self, earlier: SessionModel) -> bool {
        &&& self.metadata == (MetadataModel {
            updated_at: self.metadata.updated_at,
            ..earlier.metadata
        })
        &&& earlier.messages.is_prefix_of(self.messages)
    }

    /// The message at a position is an answer to a turn of the user, from an attempt
    /// that the session has.
    pub open spec fn answers_a_turn(self, at: int) -> bool {
        let message = self.messages[at];
        &&& self.has_user_turn(message.turn_id)
        &&& message.attempt_id is Some
        &&& first_attempt(self.attempts, message.attempt_id->0) is Some
    }

    /// What holds of every session that was begun and carried on here: it begins
    /// with a message of the user, every attempt is about a turn of the user, and so
    /// is every answer, which comes from one of the attempts.
    pub open spec fn well_formed(self) -> bool {
        &&& self.messages.len() > 0
        &&& self.messages[0].role == MessageRole::User
        &&& forall|i: int|
            0 <= i < self.attempts.len() ==> self.has_user_turn(
                (#[trigger] self.attempts[i]).turn_id,
            )
        &&& forall|i: int|
            0 <= i < self.messages.len() && (#[trigger] self.messages[i]).role
                == MessageRole::Assistant ==> self.answers_a_turn(i)
    }
}

/// Messages that are added take no turn away.
proof fn lemma_turn_stays(session: SessionModel, later: SessionModel, turn_id: Seq<char>)
    requires
        session.messages.is_prefix_of(later.messages),
        session.has_user_turn(turn_id),
    ensures
        later.has_user_turn(turn_id),
{
    let i = choose|i: int|
        0 <= i < session.messages.len() && (#[trigger] session.messages[i]).turn_id == turn_id
            && session.messages[i].role == MessageRole::User;
    assert(later.messages[i] == session.messages[i]);
}

/// An identifier that some attempt has is found.
proof fn lemma_attempt_found(attempts: Seq<AttemptModel>, at: int)
    requires
        0 <= at < attempts.len(),
    ensures
        first_attempt(attempts, attempts[at].id) is Some,
{
    first_attempt_is_first(attempts, attempts[at].id);
}

/// A session that kept its attempts, by their turns and identifiers, and its
/// messages stays well formed, if what was added is.
proof fn lemma_well_formed_later(session: SessionModel, later: SessionModel)
    requires
        session.well_formed(),
        session.messages.is_prefix_of(later.messages),
        session.attempts.len() <= later.attempts.len(),
        forall|i: int|
            0 <= i < session.attempts.len() ==> (#[trigger] later.attempts[i]).id
                == session.attempts[i].id && later.attempts[i].turn_id
                == session.attempts[i].turn_id,
        forall|i: int|
            session.attempts.len() <= i < later.attempts.len() ==> later.has_user_turn(
                (#[trigger] later.attempts[i]).turn_id,
            ),
        forall|i: int|
            session.messages.len() <= i < later.messages.len() && (
            #[trigger] later.messages[i]).role == MessageRole::Assistant ==> later.answers_a_turn(i),
    ensures
        later.well_formed(),
{
    assert(later.messages[0] == session.messages[0]);
    assert forall|i: int| 0 <= i < later.attempts.len() implies later.has_user_turn(
        (#[trigger] later.attempts[i]).turn_id,
    ) by {
        if i < session.attempts.len() {
            lemma_turn_stays(session, later, session.attempts[i].turn_id);
        }
    }
    assert forall|i: int|
        0 <= i < later.messages.len() && (#[trigger] later.messages[i]).role
            == MessageRole::Assistant implies later.answers_a_turn(i) by {
        if i < session.messages.len() {
            let message = session.messages[i];
            assert(later.messages[i] == message);
            assert(session.answers_a_turn(i));
            lemma_turn_stays(session, later, message.turn_id);
            first_attempt_is_first(session.attempts, message.attempt_id->0);
            let at = first_attempt(session.attempts, message.attempt_id->0)->0;
            lemma_attempt_found(later.attempts, at);
        }
    }
}

/// A new session is well formed, and its first turn can be attempted.
pub proof fn new_session_is_well_formed(
    action: SessionAction,
    selected_text: Seq<char>,
    session_id: Seq<char>,
    turn_id: Seq<char>,
    message_id: Seq<char>,
    time: Timestamp,
)
    ensures
        ({
            let session = SessionModel::started(
                action,
                selected_text,
                session_id,
                turn_id,
                message_id,
                time,
            );
            session.well_formed() && session.has_user_turn(turn_id)
        }),
{
    let session = SessionModel::started(
        action,
        selected_text,
        session_id,
        turn_id,
        message_id,
        time,
    );
    assert(session.messages[0].turn_id == turn_id);
}

/// A turn that is added keeps the session well formed and every message and
/// attempt as it was, and can be attempted.
pub proof fn user_turn_keeps_session(
    session: SessionModel,
    content: Seq<char>,
    intent: Option<MessageIntent>,
    turn_id: Seq<char>,
    message_id: Seq<char>,
    time: Timestamp,
)
    ensures
        ({
            let later = session.with_user_turn(content, intent, turn_id, message_id, time);
            &&& later.has_user_turn(turn_id)
            &&& later.carries_on(session)
            &&& later.attempts == session.attempts
            &&& session.well_formed() ==> later.well_formed()
        }),
{
    let later = session.with_user_turn(content, intent, turn_id, message_id, time);
    assert(later.messages[session.messages.len() as int].turn_id == turn_id);
    if session.well_formed() {
        lemma_well_formed_later(session, later);
    }
}

/// An attempt that is begun keeps the session well formed and every message and
/// attempt as it was, and can be ended.
pub proof fn attempt_keeps_session(
    session: SessionModel,
    attempt_id: Seq<char>,
    turn_id: Seq<char>,
    request: Json,
    time: Timestamp,
)
    requires
        session.has_user_turn(turn_id),
    ensures
        ({
            let later = session.with_attempt(attempt_id, turn_id, request, time);
            &&& first_attempt(later.attempts, attempt_id) is Some
            &&& later.messages == session.messages
            &&& later.metadata == session.metadata
            &&& later.carries_on(session)
            &&& session.attempts.is_prefix_of(later.attempts)
            &&& session.well_formed() ==> later.well_formed()
        }),
{
    let later = session.with_attempt(attempt_id, turn_id, request, time);
    lemma_attempt_found(later.attempts, session.attempts.len() as int);
    if session.well_formed() {
        lemma_turn_stays(session, later, turn_id);
        lemma_well_formed_later(session, later);
    }
}

/// An answer keeps the session well formed and every message as it was, and adds
/// one message of the assistant to the turn that was attempted.
pub proof fn answer_keeps_session(
    session: SessionModel,
    attempt_id: Seq<char>,
    text: Seq<char>,
    response_id: Option<Seq<char>>,
    output_items: Seq<Json>,
    usage: Option<Json>,
    transport_attempts: u8,
    message_id: Seq<char>,
    finished_at: Timestamp,
    answered_at: Timestamp,
    updated_at: Timestamp,
)
    requires
        first_attempt(session.attempts, attempt_id) is Some,
    ensures
        ({
            let at = first_attempt(session.attempts, attempt_id)->0;
            let later = session.with_answer(
                at,
                text,
                response_id,
                output_items,
                usage,
                transport_attempts,
                message_id,
                finished_at,
                answered_at,
                updated_at,
            );
            &&& later.carries_on(session)
            &&& later.messages.len() == session.messages.len() + 1
            &&& later.messages.last().role == MessageRole::Assistant
            &&& later.messages.last().turn_id == session.attempts[at].turn_id
            &&& later.messages.last().attempt_id == Some(attempt_id)
            &&& session.well_formed() ==> later.well_formed()
        }),
{
    first_attempt_is_first(session.attempts, attempt_id);
    let at = first_attempt(session.attempts, attempt_id)->0;
    let later = session.with_answer(
        at,
        text,
        response_id,
        output_items,
        usage,
        transport_attempts,
        message_id,
        finished_at,
        answered_at,
        updated_at,
    );
    if session.well_formed() {
        lemma_turn_stays(session, later, session.attempts[at].turn_id);
        lemma_attempt_found(later.attempts, at);
        assert(later.answers_a_turn(session.messages.len() as int));
        lemma_well_formed_later(session, later);
    }
}

/// A failure keeps the session well formed and adds no message; the attempt keeps
/// what was asked.
pub proof fn failure_keeps_session(
    session: SessionModel,
    attempt_id: Seq<char>,
    partial: Seq<char>,
    message: Seq<char>,
    incomplete: bool,
    transport_attempts: u8,
    finished_at: Timestamp,
    updated_at: Timestamp,
)
    requires
        first_attempt(session.attempts, attempt_id) is Some,
    ensures
        ({
            let at = first_attempt(session.attempts, attempt_id)->0;
            let later = session.with_failure(
                at,
                partial,
                message,
                incomplete,
                transport_attempts,
                finished_at,
                updated_at,
            );
            &&& later.carries_on(session)
            &&& later.messages == session.messages
            &&& later.attempts[at].request == session.attempts[at].request
            &&& later.attempts[at].turn_id == session.attempts[at].turn_id
            &&& session.well_formed() ==> later.well_formed()
        }),
{
    first_attempt_is_first(session.attempts, attempt_id);
    let at = first_attempt(session.attempts, attempt_id)->0;
    let later = session.with_failure(
        at,
        partial,
        message,
        incomplete,
        transport_attempts,
        finished_at,
        updated_at,
    );
    if session.well_formed() {
        lemma_well_formed_later(session, later);
    }
}

/// Metadata are seen with everything they hold.
pub proof fn metadata_are_seen_whole(metadata: SessionMetadata)
    ensures
        metadata@.session_id == metadata.session_id@,
        metadata@.action == metadata.action,
        metadata@.selected_text == metadata.selected_text@,
        metadata@.created_at == metadata.created_at,
        metadata@.updated_at == metadata.updated_at,
        metadata@.model == metadata.model@,
        metadata@.prompt_version == metadata.prompt_version,
{
}

/// A message is seen with everything it holds.
pub proof fn messages_are_seen_whole(message: StoredMessage)
    ensures
        message@.id == message.id@,
        message@.turn_id == message.turn_id@,
        message@.role == message.role,
        message@.content == message.content@,
        message@.timestamp == message.timestamp,
        message@.intent == message.intent,
        message.attempt_id is Some ==> message@.attempt_id == Some(message.attempt_id->0@),
        message.attempt_id is None ==> message@.attempt_id is None,
{
}

/// An attempt is seen with everything it holds.
pub proof fn attempts_are_seen_whole(attempt: AttemptRecord, i: int)
    ensures
        attempt@.id == attempt.id@,
        attempt@.turn_id == attempt.turn_id@,
        attempt@.status == attempt.status,
        attempt@.request == json(attempt.request),
        attempt@.started_at == attempt.started_at,
        attempt@.finished_at == attempt.finished_at,
        attempt@.transport_attempts == attempt.transport_attempts,
        attempt@.text == attempt.text@,
        attempt.response_id is Some ==> attempt@.response_id == Some(attempt.response_id->0@),
        attempt.response_id is None ==> attempt@.response_id is None,
        attempt@.output_items.len() == attempt.output_items@.len(),
        0 <= i < attempt.output_items@.len() ==> attempt@.output_items[i] == json(
            attempt.output_items@[i],
        ),
        attempt.usage is Some ==> attempt@.usage == Some(json(attempt.usage->0)),
        attempt.usage is None ==> attempt@.usage is None,
        attempt.error is Some ==> attempt@.error == Some(attempt.error->0@),
        attempt.error is None ==> attempt@.error is None,
{
}

/// A session, what is shown of it and its line in the list are seen with everything they
/// hold.
pub proof fn sessions_are_seen_whole(
    session: ConversationSession,
    shown: SessionView,
    summary: SessionSummary,
    i: int,
)
    ensures
        session.model().metadata == session.metadata@,
        session.model().messages.len() == session.messages@.len(),
        0 <= i < session.messages@.len() ==> session.model().messages[i] == session.messages@[i]@,
        session.model().attempts.len() == session.attempts@.len(),
        0 <= i < session.attempts@.len() ==> session.model().attempts[i] == session.attempts@[i]@,
        shown@.session_id == shown.session_id@,
        shown@.action == shown.action,
        shown@.selected_text == shown.selected_text@,
        shown@.messages.len() == shown.messages@.len(),
        0 <= i < shown.messages@.len() ==> shown@.messages[i] == shown.messages@[i]@,
        summary@.session_id == summary.session_id@,
        summary@.action == summary.action,
        summary@.preview == summary.preview@,
        summary@.updated_at == summary.updated_at,
{
}

/// Each action has the template that is named after it.
pub proof fn actions_have_their_own_templates()
    ensures
        SessionAction::Triage.template() == PromptTemplate::Triage,
        SessionAction::Translate.template() == PromptTemplate::Translate,
        SessionAction::Correct.template() == PromptTemplate::Correct,
{
}

/// A new session is about the selected text: it has one message, which is that text from
/// the user and has no intent, no attempt yet, and the model and the prompts of today.
pub proof fn new_session_is_about_the_text(
    action: SessionAction,
    selected_text: Seq<char>,
    session_id: Seq<char>,
    turn_id: Seq<char>,
    message_id: Seq<char>,
    time: Timestamp,
)
    ensures
        ({
            let session = SessionModel::started(
                action,
                selected_text,
                session_id,
                turn_id,
                message_id,
                time,
            );
            &&& session.metadata.session_id == session_id
            &&& session.metadata.action == action
            &&& session.metadata.selected_text == selected_text
            &&& session.metadata.created_at == time
            &&& session.metadata.updated_at == time
            &&& session.metadata.model == MODEL@
            &&& session.metadata.prompt_version == PROMPT_VERSION
            &&& session.messages.len() == 1
            &&& session.messages[0].id == message_id
            &&& session.messages[0].turn_id == turn_id
            &&& session.messages[0].role == MessageRole::User
            &&& session.messages[0].content == selected_text
            &&& session.messages[0].timestamp == time
            &&& session.messages[0].intent is None
            &&& session.messages[0].attempt_id is None
            &&& session.attempts.len() == 0
        }),
{
}

/// A turn of the user is refused exactly in a session that is not for Triage, and where it
/// holds nothing but white space.
pub proof fn only_blank_turns_and_other_actions_are_refused(
    session: SessionModel,
    content: Seq<char>,
)
    ensures
        session.metadata.action != SessionAction::Triage ==> session.user_turn_refusal(content)
            == Some("Follow-up questions are only available after Triage."@),
        session.metadata.action == SessionAction::Triage && (forall|i: int|
            0 <= i < content.len() ==> crate::text::is_white_space(#[trigger] content[i]))
            ==> session.user_turn_refusal(content) == Some("Write a question before sending."@),
        session.metadata.action == SessionAction::Triage && (exists|i: int|
            0 <= i < content.len() && !crate::text::is_white_space(#[trigger] content[i]))
            ==> session.user_turn_refusal(content) is None,
{
}

/// A turn of the user adds one message to the session, from the user, with what was
/// written and what it is for, and changes the time of the update.
pub proof fn turn_is_added_as_written(
    session: SessionModel,
    content: Seq<char>,
    intent: Option<MessageIntent>,
    turn_id: Seq<char>,
    message_id: Seq<char>,
    time: Timestamp,
)
    ensures
        ({
            let later = session.with_user_turn(content, intent, turn_id, message_id, time);
            let added = later.messages.last();
            &&& later.messages.len() == session.messages.len() + 1
            &&& later.messages.drop_last() == session.messages
            &&& added.id == message_id
            &&& added.turn_id == turn_id
            &&& added.role == MessageRole::User
            &&& added.content == content
            &&& added.timestamp == time
            &&& added.intent == intent
            &&& added.attempt_id is None
            &&& later.metadata.updated_at == time
        }),
{
    let later = session.with_user_turn(content, intent, turn_id, message_id, time);
    assert(later.messages.drop_last() =~= session.messages);
}

/// What adding a turn comes to: a refused turn leaves the session as it was and gives the
/// reason; any other turn is in the session, under the identifier that is given back, as
/// it was written.
pub proof fn added_turn_is_in_the_session(
    before: ConversationSession,
    after: ConversationSession,
    content: Seq<char>,
    intent: Option<MessageIntent>,
    r: Result<String, String>,
)
    requires
        before.turn_was_added(after, content, intent, r),
    ensures
        r is Err <==> before.metadata.action != SessionAction::Triage || is_blank_text(content),
        r is Err ==> after == before,
        r is Ok ==> {
            &&& after.messages@.len() == before.messages@.len() + 1
            &&& after.messages@.last().turn_id@ == r->Ok_0@
            &&& after.messages@.last().role == MessageRole::User
            &&& after.messages@.last().content@ == content
            &&& after.messages@.last().intent == intent
            &&& after.messages@.last().attempt_id is None
            &&& after.messages@.last().timestamp == after.metadata.updated_at
            &&& after.attempts@.len() == before.attempts@.len()
            &&& after.model().carries_on(before.model())
            &&& after.model().has_user_turn(r->Ok_0@)
        },
{
    if r is Ok {
        let m = before.model();
        let later = after.model();
        user_turn_keeps_session(
            m,
            content,
            intent,
            r->Ok_0@,
            later.messages.last().id,
            later.metadata.updated_at,
        );
        assert(later.messages.len() == after.messages@.len());
        assert(later.messages.last() == after.messages@.last()@);
        assert(later.attempts.len() == after.attempts@.len());
        assert(m.attempts.len() == before.attempts@.len());
    }
}

/// A turn is one of the user exactly when a message of the user belongs to it.
pub proof fn turns_are_those_of_user_messages(session: SessionModel, turn_id: Seq<char>, at: int)
    requires
        0 <= at < session.messages.len(),
    ensures
        session.messages[at].role == MessageRole::User ==> session.has_user_turn(
            session.messages[at].turn_id,
        ),
        (forall|i: int|
            0 <= i < session.messages.len() && (#[trigger] session.messages[i]).turn_id == turn_id
                ==> session.messages[i].role == MessageRole::Assistant) ==> !session.has_user_turn(
            turn_id,
        ),
{
}

/// An attempt that is begun is the last one: it is pending, about the turn, with the
/// request that is made, and nothing is known of an answer. Nothing else changes.
pub proof fn attempt_is_begun_empty(
    session: SessionModel,
    attempt_id: Seq<char>,
    turn_id: Seq<char>,
    request: Json,
    time: Timestamp,
)
    ensures
        ({
            let later = session.with_attempt(attempt_id, turn_id, request, time);
            let begun = later.attempts.last();
            &&& later.metadata == session.metadata
            &&& later.messages == session.messages
            &&& later.attempts.len() == session.attempts.len() + 1
            &&& later.attempts.drop_last() == session.attempts
            &&& begun.id == attempt_id
            &&& begun.turn_id == turn_id
            &&& begun.status == AttemptStatus::Pending
            &&& begun.request == request
            &&& begun.started_at == time
            &&& begun.finished_at is None
            &&& begun.transport_attempts == 0
            &&& begun.text.len() == 0
            &&& begun.response_id is None
            &&& begun.output_items.len() == 0
            &&& begun.usage is None
            &&& begun.error is None
        }),
{
    let later = session.with_attempt(attempt_id, turn_id, request, time);
    assert(later.attempts.drop_last() =~= session.attempts);
}

/// An answer is kept as it came: the attempt is completed and holds the text, the output
/// items and whatever else came with it, and the session has one more message, from the
/// assistant, with the text, in the turn of the attempt and under its name. The other
/// attempts and what the attempt was begun with stay as they were.
pub proof fn answer_is_kept_as_it_came(
    session: SessionModel,
    at: int,
    text: Seq<char>,
    response_id: Option<Seq<char>>,
    output_items: Seq<Json>,
    usage: Option<Json>,
    transport_attempts: u8,
    message_id: Seq<char>,
    finished_at: Timestamp,
    answered_at: Timestamp,
    updated_at: Timestamp,
)
    requires
        0 <= at < session.attempts.len(),
    ensures
        ({
            let later = session.with_answer(
                at,
                text,
                response_id,
                output_items,
                usage,
                transport_attempts,
                message_id,
                finished_at,
                answered_at,
                updated_at,
            );
            let begun = session.attempts[at];
            let ended = later.attempts[at];
            let answer = later.messages.last();
            &&& later.attempts.len() == session.attempts.len()
            &&& forall|i: int|
                0 <= i < session.attempts.len() && i != at ==> later.attempts[i]
                    == #[trigger] session.attempts[i]
            &&& ended.id == begun.id
            &&& ended.turn_id == begun.turn_id
            &&& ended.request == begun.request
            &&& ended.started_at == begun.started_at
            &&& ended.error == begun.error
            &&& ended.status == AttemptStatus::Completed
            &&& ended.finished_at == Some(finished_at)
            &&& ended.transport_attempts == transport_attempts
            &&& ended.text == text
            &&& ended.response_id == response_id
            &&& ended.output_items == output_items
            &&& ended.usage == usage
            &&& later.messages.len() == session.messages.len() + 1
            &&& later.messages.drop_last() == session.messages
            &&& answer.id == message_id
            &&& answer.turn_id == begun.turn_id
            &&& answer.role == MessageRole::Assistant
            &&& answer.content == text
            &&& answer.timestamp == answered_at
            &&& answer.intent is None
            &&& answer.attempt_id == Some(begun.id)
            &&& later.metadata == (MetadataModel { updated_at, ..session.metadata })
        }),
{
    let later = session.with_answer(
        at,
        text,
        response_id,
        output_items,
        usage,
        transport_attempts,
        message_id,
        finished_at,
        answered_at,
        updated_at,
    );
    assert(later.messages.drop_last() =~= session.messages);
}

/// A failure is kept as it came: the attempt has failed or is incomplete and holds what
/// there was of a text and why it ended. No message is added, and the other attempts and
/// everything else that the attempt holds stay as they were.
pub proof fn failure_is_kept_as_it_came(
    session: SessionModel,
    at: int,
    partial: Seq<char>,
    message: Seq<char>,
    incomplete: bool,
    transport_attempts: u8,
    finished_at: Timestamp,
    updated_at: Timestamp,
)
    requires
        0 <= at < session.attempts.len(),
    ensures
        ({
            let later = session.with_failure(
                at,
                partial,
                message,
                incomplete,
                transport_attempts,
                finished_at,
                updated_at,
            );
            let begun = session.attempts[at];
            let ended = later.attempts[at];
            &&& later.messages == session.messages
            &&& later.metadata == (MetadataModel { updated_at, ..session.metadata })
            &&& later.attempts.len() == session.attempts.len()
            &&& forall|i: int|
                0 <= i < session.attempts.len() && i != at ==> later.attempts[i]
                    == #[trigger] session.attempts[i]
            &&& ended.status == (if incomplete {
                AttemptStatus::Incomplete
            } else {
                AttemptStatus::Failed
            })
            &&& ended.finished_at == Some(finished_at)
            &&& ended.transport_attempts == transport_attempts
            &&& ended.text == partial
            &&& ended.error == Some(message)
            &&& ended.id == begun.id
            &&& ended.turn_id == begun.turn_id
            &&& ended.request == begun.request
            &&& ended.started_at == begun.started_at
            &&& ended.response_id == begun.response_id
            &&& ended.output_items == begun.output_items
            &&& ended.usage == begun.usage
        }),
{
}

}
