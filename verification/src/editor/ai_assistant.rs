//! The editor's AI assistant: conversation history, tool calls proposed by
//! the model, and the user's approval of them. Talking to a language model is
//! done outside this library.
use vstd::prelude::*;
use crate::editor::panel::current_ms;
use crate::text::owned;
use crate::scene::clone_json;

verus! {

/// Who wrote a message.
#[derive(Debug, Clone, Copy, PartialEq, Eq, Structural)]
pub enum AiRole {
    User,
    Assistant,
    /// The system prompt.
    System,
    /// A tool result.
    Tool,
}

/// What a message holds.
#[derive(Debug)]
pub enum MessageContent {
    Text(String),
    /// A tool call proposed by the model.
    ToolCall { tool_name: String, parameters: serde_json::Value },
    /// The engine's answer to a tool call.
    ToolResult { tool_name: String, result: String },
    /// The model's reasoning.
    Thinking { thought: String },
}

impl MessageContent {
    /// A copy of the content.
    pub fn duplicate(&self) -> (c: MessageContent)
        ensures
            c == *self,
    {
        match self {
            MessageContent::Text(t) => MessageContent::Text(t.clone()),
            MessageContent::ToolCall { tool_name, parameters } => {
                MessageContent::ToolCall { tool_name: tool_name.clone(), parameters: clone_json(parameters) }
            },
            MessageContent::ToolResult { tool_name, result } => {
                MessageContent::ToolResult { tool_name: tool_name.clone(), result: result.clone() }
            },
            MessageContent::Thinking { thought } => MessageContent::Thinking { thought: thought.clone() },
        }
    }
}

/// A message of the conversation.
#[derive(Debug)]
pub struct AiMessage {
    pub role: AiRole,
    pub content: MessageContent,
    /// Milliseconds since the Unix epoch.
    pub timestamp: u64,
}

/// The content `Text(t)` with `t` having the characters `s`.
pub open spec fn is_text(c: MessageContent, s: Seq<char>) -> bool {
    c matches MessageContent::Text(t) && t@ == s
}

/// The content `ToolResult { tool_name, result }` with those characters.
pub open spec fn is_tool_result(c: MessageContent, tool_name: Seq<char>, result: Seq<char>) -> bool {
    c matches MessageContent::ToolResult { tool_name: n, result: r } && n@ == tool_name && r@ == result
}

impl AiMessage {
    /// A user message stamped with the current time.
    pub fn user(text: &str) -> (m: AiMessage)
        ensures
            m.role == AiRole::User,
            is_text(m.content, text@),
    {
        AiMessage { role: AiRole::User, content: MessageContent::Text(owned(text)), timestamp: current_ms() }
    }

    /// An assistant message stamped with the current time.
    pub fn assistant(text: &str) -> (m: AiMessage)
        ensures
            m.role == AiRole::Assistant,
            is_text(m.content, text@),
    {
        AiMessage { role: AiRole::Assistant, content: MessageContent::Text(owned(text)), timestamp: current_ms() }
    }

    /// A system message stamped with the current time.
    pub fn system(text: &str) -> (m: AiMessage)
        ensures
            m.role == AiRole::System,
            is_text(m.content, text@),
    {
        AiMessage { role: AiRole::System, content: MessageContent::Text(owned(text)), timestamp: current_ms() }
    }

    /// A tool result stamped with the current time.
    pub fn tool_result(tool_name: &str, result: &str) -> (m: AiMessage)
        ensures
            m.role == AiRole::Tool,
            is_tool_result(m.content, tool_name@, result@),
    {
        AiMessage {
            role: AiRole::Tool,
            content: MessageContent::ToolResult { tool_name: owned(tool_name), result: owned(result) },
            timestamp: current_ms(),
        }
    }

    /// A copy of the message.
    pub fn duplicate(&self) -> (m: AiMessage)
        ensures
            m == *self,
    {
        AiMessage { role: self.role, content: self.content.duplicate(), timestamp: self.timestamp }
    }
}

/// State of the conversation.
#[derive(Debug, Clone, Copy, PartialEq, Eq, Structural)]
pub enum ConversationState {
    WaitingForUser,
    /// The model is writing an answer.
    Generating,
    /// A proposed tool call waits for the user's approval.
    WaitingForApproval,
    ExecutingTool,
    Error,
}

/// A tool call proposed by the model, waiting to run.
#[derive(Debug)]
pub struct PendingToolCall {
    pub tool_name: String,
    pub parameters: serde_json::Value,
    pub description: String,
    pub requires_approval: bool,
}

/// Language model back ends.
#[derive(Debug, Clone, Copy, PartialEq, Eq, Structural)]
pub enum AiBackendKind {
    Claude,
    OpenAi,
    Ollama,
    /// An OpenAI-compatible service.
    Custom,
    /// Not configured (`None` in serialized form).
    Offline,
}

/// Configuration of the language model back end. The sampling temperature,
/// a floating-point setting, is kept outside this library.
#[derive(Debug)]
pub struct AiBackendConfig {
    pub kind: AiBackendKind,
    /// Environment variable that holds the API key.
    pub api_key_env: Option<String>,
    pub base_url: Option<String>,
    /// Model name; empty until one is chosen.
    pub model: String,
    pub max_tokens: u32,
}

impl Default for AiBackendConfig {
    fn default() -> (c: Self)
        ensures
            c.kind == AiBackendKind::Offline,
            c.api_key_env matches Some(k) && k@ == "ANTHROPIC_API_KEY"@,
            c.base_url is None,
            c.model@ == Seq::<char>::empty(),
            c.max_tokens == 8192,
    {
        AiBackendConfig {
            kind: AiBackendKind::Offline,
            api_key_env: Some(owned("ANTHROPIC_API_KEY")),
            base_url: None,
            model: String::new(),
            max_tokens: 8192,
        }
    }
}

/// State after the model proposes a call: it waits for approval when the
/// call needs it and runs otherwise.
pub open spec fn state_after_proposal(needs_approval: bool) -> ConversationState {
    if needs_approval { ConversationState::WaitingForApproval } else { ConversationState::ExecutingTool }
}

/// The call that approval or rejection takes next: the oldest one.
pub open spec fn next_call(q: Seq<PendingToolCall>) -> Option<PendingToolCall> {
    if q.len() > 0 { Some(q[0]) } else { None }
}

/// The queue once its oldest call is taken.
pub open spec fn rest_of_queue(q: Seq<PendingToolCall>) -> Seq<PendingToolCall> {
    if q.len() > 0 { q.drop_first() } else { q }
}

/// The text answered to the model when the user rejects a call.
pub open spec fn rejection_text(reason: Seq<char>) -> Seq<char> {
    "Tool call rejected by user: "@ + reason
}

/// The AI assistant of the editor.
#[derive(Debug)]
pub struct AiAssistant {
    pub messages: Vec<AiMessage>,
    pub state: ConversationState,
    /// Proposed calls, oldest first.
    pub pending_calls: Vec<PendingToolCall>,
    system_prompt: String,
    pub backend: AiBackendConfig,
}

impl AiAssistant {
    pub closed spec fn spec_system_prompt(&self) -> Seq<char> {
        self.system_prompt@
    }

    /// The conversation, oldest message first.
    pub closed spec fn spec_messages(&self) -> Seq<AiMessage> {
        self.messages@
    }

    /// Proposed calls, oldest first.
    pub closed spec fn spec_pending(&self) -> Seq<PendingToolCall> {
        self.pending_calls@
    }

    pub closed spec fn spec_state(&self) -> ConversationState {
        self.state
    }

    pub closed spec fn spec_backend_kind(&self) -> AiBackendKind {
        self.backend.kind
    }

    /// An assistant with an empty conversation, waiting for the user, under
    /// the given system prompt.
    pub fn new(system_prompt: &str) -> (a: AiAssistant)
        ensures
            a.spec_messages() == Seq::<AiMessage>::empty(),
            a.spec_pending() == Seq::<PendingToolCall>::empty(),
            a.spec_state() == ConversationState::WaitingForUser,
            a.spec_system_prompt() == system_prompt@,
            a.spec_backend_kind() == AiBackendKind::Offline,
    {
        AiAssistant {
            messages: Vec::new(),
            state: ConversationState::WaitingForUser,
            pending_calls: Vec::new(),
            system_prompt: owned(system_prompt),
            backend: AiBackendConfig::default(),
        }
    }

    /// The user writes; the model starts generating.
    pub fn send_user_message(&mut self, text: &str)
        ensures
            final(self).spec_messages().len() == old(self).spec_messages().len() + 1,
            final(self).spec_messages().drop_last() == old(self).spec_messages(),
            final(self).spec_messages().last().role == AiRole::User,
            is_text(final(self).spec_messages().last().content, text@),
            final(self).spec_state() == ConversationState::Generating,
            final(self).spec_pending() == old(self).spec_pending(),
    {
        let ghost before = self.messages@;
        self.messages.push(AiMessage::user(text));
        assert(self.messages@.drop_last() =~= before);
        self.state = ConversationState::Generating;
    }

    /// The model answers; the user's turn comes.
    pub fn add_assistant_message(&mut self, text: &str)
        ensures
            final(self).spec_messages().len() == old(self).spec_messages().len() + 1,
            final(self).spec_messages().drop_last() == old(self).spec_messages(),
            final(self).spec_messages().last().role == AiRole::Assistant,
            is_text(final(self).spec_messages().last().content, text@),
            final(self).spec_state() == ConversationState::WaitingForUser,
            final(self).spec_pending() == old(self).spec_pending(),
    {
        let ghost before = self.messages@;
        self.messages.push(AiMessage::assistant(text));
        assert(self.messages@.drop_last() =~= before);
        self.state = ConversationState::WaitingForUser;
    }

    /// The model proposes a tool call; it joins the end of the queue.
    pub fn add_tool_call(&mut self, tool_name: &str, params: serde_json::Value, description: &str, needs_approval: bool)
        ensures
            final(self).spec_pending().len() == old(self).spec_pending().len() + 1,
            final(self).spec_pending().drop_last() == old(self).spec_pending(),
            final(self).spec_pending().last().tool_name@ == tool_name@,
            final(self).spec_pending().last().parameters == params,
            final(self).spec_pending().last().description@ == description@,
            final(self).spec_pending().last().requires_approval == needs_approval,
            final(self).spec_state() == state_after_proposal(needs_approval),
            final(self).spec_messages() == old(self).spec_messages(),
    {
        let call = PendingToolCall {
            tool_name: owned(tool_name),
            parameters: params,
            description: owned(description),
            requires_approval: needs_approval,
        };
        let ghost before = self.pending_calls@;
        self.pending_calls.push(call);
        assert(self.pending_calls@.drop_last() =~= before);
        if needs_approval {
            self.state = ConversationState::WaitingForApproval;
        } else {
            self.state = ConversationState::ExecutingTool;
        }
    }

    /// The user approves the oldest proposed call, which is handed out to
    /// run; nothing happens when none is waiting.
    pub fn approve_next_call(&mut self) -> (c: Option<PendingToolCall>)
        ensures
            c == next_call(old(self).spec_pending()),
            final(self).spec_pending() == rest_of_queue(old(self).spec_pending()),
            final(self).spec_state() == (if old(self).spec_pending().len() > 0 {
                ConversationState::ExecutingTool
            } else {
                old(self).spec_state()
            }),
            final(self).spec_messages() == old(self).spec_messages(),
    {
        if self.pending_calls.len() > 0 {
            let call = self.pending_calls.remove(0);
            assert(self.pending_calls@ =~= old(self).spec_pending().drop_first());
            self.state = ConversationState::ExecutingTool;
            Some(call)
        } else {
            None
        }
    }

    /// The user rejects the oldest proposed call; the model is told so by a
    /// tool message and the user's turn comes. Nothing happens when no call
    /// is waiting.
    pub fn reject_next_call(&mut self, reason: &str)
        ensures
            final(self).spec_pending() == rest_of_queue(old(self).spec_pending()),
            old(self).spec_pending().len() == 0 ==> final(self).spec_messages() == old(self).spec_messages()
                && final(self).spec_state() == old(self).spec_state(),
            old(self).spec_pending().len() > 0 ==> {
                &&& final(self).spec_messages().len() == old(self).spec_messages().len() + 1
                &&& final(self).spec_messages().drop_last() == old(self).spec_messages()
                &&& final(self).spec_messages().last().role == AiRole::Tool
                &&& is_tool_result(final(self).spec_messages().last().content, old(self).spec_pending()[0].tool_name@,
                    rejection_text(reason@))
                &&& final(self).spec_state() == ConversationState::WaitingForUser
            },
    {
        if self.pending_calls.len() > 0 {
            let call = self.pending_calls.remove(0);
            assert(self.pending_calls@ =~= old(self).spec_pending().drop_first());
            let mut text = owned("Tool call rejected by user: ");
            text.append(reason);
            let ghost before = self.messages@;
            self.messages.push(AiMessage::tool_result(call.tool_name.as_str(), text.as_str()));
            assert(self.messages@.drop_last() =~= before);
            self.state = ConversationState::WaitingForUser;
        }
    }

    /// A tool finished; its result joins the conversation, and the model
    /// generates again once no call is waiting.
    pub fn add_tool_result(&mut self, tool_name: &str, result: &str)
        ensures
            final(self).spec_messages().len() == old(self).spec_messages().len() + 1,
            final(self).spec_messages().drop_last() == old(self).spec_messages(),
            final(self).spec_messages().last().role == AiRole::Tool,
            is_tool_result(final(self).spec_messages().last().content, tool_name@, result@),
            final(self).spec_pending() == old(self).spec_pending(),
            final(self).spec_state() == (if old(self).spec_pending().len() == 0 {
                ConversationState::Generating
            } else {
                old(self).spec_state()
            }),
    {
        let ghost before = self.messages@;
        self.messages.push(AiMessage::tool_result(tool_name, result));
        assert(self.messages@.drop_last() =~= before);
        if self.pending_calls.len() == 0 {
            self.state = ConversationState::Generating;
        }
    }

    /// Forgets the conversation and the proposed calls.
    pub fn clear_history(&mut self)
        ensures
            final(self).spec_messages() == Seq::<AiMessage>::empty(),
            final(self).spec_pending() == Seq::<PendingToolCall>::empty(),
            final(self).spec_state() == ConversationState::WaitingForUser,
            final(self).spec_system_prompt() == old(self).spec_system_prompt(),
    {
        self.messages.clear();
        self.pending_calls.clear();
        self.state = ConversationState::WaitingForUser;
    }

    /// The messages to send to the model: the system prompt first (with a
    /// zero timestamp), then the conversation.
    pub fn messages_for_api(&self) -> (v: Vec<AiMessage>)
        ensures
            v@.len() == self.spec_messages().len() + 1,
            v@[0].role == AiRole::System,
            is_text(v@[0].content, self.spec_system_prompt()),
            v@[0].timestamp == 0,
            v@.drop_first() == self.spec_messages(),
    {
        let mut v: Vec<AiMessage> = Vec::new();
        v.push(AiMessage { role: AiRole::System, content: MessageContent::Text(self.system_prompt.clone()), timestamp: 0 });
        let mut i: usize = 0;
        while i < self.messages.len()
            invariant
                i <= self.messages@.len(),
                v@.len() == i + 1,
                v@[0].role == AiRole::System,
                is_text(v@[0].content, self.spec_system_prompt()),
                v@[0].timestamp == 0,
                forall|j: int| 0 <= j < i ==> v@[j + 1] == self.messages@[j],
            decreases self.messages@.len() - i,
        {
            v.push(self.messages[i].duplicate());
            i = i + 1;
        }
        assert(v@.drop_first() =~= self.messages@);
        v
    }

    /// The system prompt.
    pub fn system_prompt(&self) -> (s: &str)
        ensures
            s@ == self.spec_system_prompt(),
    {
        self.system_prompt.as_str()
    }

    /// Replaces the system prompt.
    pub fn set_system_prompt(&mut self, prompt: &str)
        ensures
            final(self).spec_system_prompt() == prompt@,
            final(self).spec_messages() == old(self).spec_messages(),
            final(self).spec_pending() == old(self).spec_pending(),
            final(self).spec_state() == old(self).spec_state(),
    {
        self.system_prompt = owned(prompt);
    }
}

/// Proposed calls are taken oldest first: after a call joins the queue, the
/// next one taken is the oldest waiting call, or the new one when none was
/// waiting, and the new call stays at the end of what is left.
pub proof fn law_calls_taken_in_order(q: Seq<PendingToolCall>, c: PendingToolCall)
    ensures
        next_call(q.push(c)) == (if q.len() == 0 { Some(c) } else { next_call(q) }),
        rest_of_queue(q.push(c)) == (if q.len() == 0 { Seq::<PendingToolCall>::empty() } else { rest_of_queue(q).push(c) }),
{
    if q.len() == 0 {
        assert(q.push(c).drop_first() =~= Seq::<PendingToolCall>::empty());
    } else {
        assert(q.push(c)[0] == q[0]);
        assert(q.push(c).drop_first() =~= q.drop_first().push(c));
    }
}

} // verus!
