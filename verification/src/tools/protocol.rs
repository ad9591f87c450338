//! The tool-calling protocol between plugins and the engine: calls, results
//! and the messages exchanged in both directions. Their JSON encoding is done
//! outside this library.
use vstd::prelude::*;
use crate::text::owned;
use crate::engine_core::node::{random_v4_bits, uuid_string, uuid_text};
use crate::scene::json_object_entries;

verus! {

/// JSON values, carried through unread.
#[verifier::external_type_specification]
#[verifier::external_body]
pub struct ExJsonValue(serde_json::Value);

/// The text of a JSON value that is a string (`Value::as_str`); `None` for
/// any other JSON value.
pub uninterp spec fn json_text(v: serde_json::Value) -> Option<Seq<char>>;

/// The truth value of a JSON value that is a boolean (`Value::as_bool`);
/// `None` for any other JSON value.
pub uninterp spec fn json_flag(v: serde_json::Value) -> Option<bool>;

/// A fresh request id: a random version-4 UUID in its hyphenated lowercase
/// form (36 characters).
fn new_request_id() -> (id: String)
    ensures
        exists|bits: u128|
            #![trigger uuid_text(bits)]
            (bits >> 76u128) & 0xfu128 == 4u128 && (bits >> 62u128) & 0x3u128 == 2u128 && id@ == uuid_text(bits),
        id@.len() == 36,
{
    let bits = random_v4_bits();
    let id = uuid_string(bits);
    assert(uuid_text(bits).len() == 36);
    id
}

/// A tool call (plugin to engine).
#[derive(Debug)]
pub struct ToolCall {
    /// Request id, matched by the result.
    pub id: String,
    /// Tool name (snake_case).
    pub name: String,
    /// Tool parameters (a JSON object).
    pub parameters: serde_json::Value,
}

impl ToolCall {
    /// A call with a fresh random id.
    pub fn new(name: &str, parameters: serde_json::Value) -> (c: ToolCall)
        ensures
            c.name@ == name@,
            exists|bits: u128|
                #![trigger uuid_text(bits)]
                (bits >> 76u128) & 0xfu128 == 4u128 && (bits >> 62u128) & 0x3u128 == 2u128 && c.id@ == uuid_text(bits),
            c.id@.len() == 36,
            c.parameters == parameters,
    {
        ToolCall { id: new_request_id(), name: owned(name), parameters }
    }

    /// A call with the given id.
    pub fn with_id(id: &str, name: &str, parameters: serde_json::Value) -> (c: ToolCall)
        ensures
            c.id@ == id@,
            c.name@ == name@,
            c.parameters == parameters,
    {
        ToolCall { id: owned(id), name: owned(name), parameters }
    }

    /// The string parameter `key`: `serde_json::Value::get` then
    /// `Value::as_str` on the parameters. It is there when the parameters
    /// are an object holding `key` and its value is a JSON string.
    #[verifier::external_body]
    pub fn get_str<'a>(&'a self, key: &str) -> (r: Option<&'a str>)
        ensures
            match json_object_entries(self.parameters) {
                Some(m) => if m.contains_key(key@) {
                    match r {
                        Some(s) => json_text(m[key@]) == Some(s@),
                        None => json_text(m[key@]) is None,
                    }
                } else {
                    r is None
                },
                None => r is None,
            },
    {
        self.parameters.get(key)?.as_str()
    }

    /// The boolean parameter `key`: `serde_json::Value::get` then
    /// `Value::as_bool` on the parameters. It is there when the parameters
    /// are an object holding `key` and its value is a JSON boolean.
    #[verifier::external_body]
    pub fn get_bool(&self, key: &str) -> (r: Option<bool>)
        ensures
            match json_object_entries(self.parameters) {
                Some(m) => if m.contains_key(key@) {
                    r == json_flag(m[key@])
                } else {
                    r is None
                },
                None => r is None,
            },
    {
        self.parameters.get(key)?.as_bool()
    }
}

/// One piece of a tool result.
#[derive(Debug)]
#[allow(inconsistent_fields)]
pub enum ToolResultContent {
    /// Plain text.
    Text { text: String },
    /// Structured JSON data.
    Json { data: serde_json::Value },
    /// Binary data (Base64).
    Binary { data: String, mime_type: String },
    /// An image (Base64).
    Image { data: String, media_type: String },
}

/// The text of the first text piece of `content`, if there is one.
pub open spec fn first_text(content: Seq<ToolResultContent>) -> Option<Seq<char>>
    decreases content.len(),
{
    if content.len() == 0 {
        None
    } else {
        match content[0] {
            ToolResultContent::Text { text } => Some(text@),
            _ => first_text(content.drop_first()),
        }
    }
}

/// The result of a tool call (engine to plugin).
#[derive(Debug)]
pub struct ToolResult {
    /// Id of the call this answers.
    pub id: String,
    /// Tool name.
    pub name: String,
    /// The pieces of the result.
    pub content: Vec<ToolResultContent>,
    /// Whether the call failed.
    pub is_error: bool,
}

impl ToolResult {
    /// A successful result.
    pub fn success(id: &str, name: &str, content: Vec<ToolResultContent>) -> (r: ToolResult)
        ensures
            r.id@ == id@,
            r.name@ == name@,
            r.content@ == content@,
            !r.is_error,
    {
        ToolResult { id: owned(id), name: owned(name), content, is_error: false }
    }

    /// A failed result whose only piece is the text `message`.
    pub fn error(id: &str, name: &str, message: &str) -> (r: ToolResult)
        ensures
            r.id@ == id@,
            r.name@ == name@,
            r.content@.len() == 1,
            r.content@[0] matches ToolResultContent::Text { text } && text@ == message@,
            r.is_error,
    {
        let mut content: Vec<ToolResultContent> = Vec::new();
        content.push(ToolResultContent::Text { text: owned(message) });
        ToolResult { id: owned(id), name: owned(name), content, is_error: true }
    }

    /// A successful result whose only piece is the text `text`.
    pub fn ok_text(id: &str, name: &str, text: &str) -> (r: ToolResult)
        ensures
            r.id@ == id@,
            r.name@ == name@,
            r.content@.len() == 1,
            r.content@[0] matches ToolResultContent::Text { text: t } && t@ == text@,
            !r.is_error,
    {
        let mut content: Vec<ToolResultContent> = Vec::new();
        content.push(ToolResultContent::Text { text: owned(text) });
        ToolResult::success(id, name, content)
    }

    /// The text of the first text piece.
    pub fn text(&self) -> (t: Option<&str>)
        ensures
            match t {
                Some(s) => first_text(self.content@) == Some(s@),
                None => first_text(self.content@) is None,
            },
    {
        let mut i: usize = 0;
        assert(self.content@.skip(0) =~= self.content@);
        while i < self.content.len()
            invariant
                i <= self.content@.len(),
                first_text(self.content@) == first_text(self.content@.skip(i as int)),
            decreases self.content@.len() - i,
        {
            assert(self.content@.skip(i as int).drop_first() =~= self.content@.skip(i + 1));
            assert(self.content@.skip(i as int)[0] == self.content@[i as int]);
            match &self.content[i] {
                ToolResultContent::Text { text } => {
                    return Some(text.as_str());
                },
                _ => {},
            }
            i = i + 1;
        }
        None
    }
}

/// Log levels of plugin log messages.
#[derive(Debug, Clone, Copy, PartialEq, Eq, Structural)]
pub enum LogLevel {
    Error,
    Warn,
    Info,
    Debug,
    Trace,
}

/// Messages between the engine and a plugin, in both directions.
#[derive(Debug)]
pub enum PluginMessage {
    /// The plugin finished initializing.
    Initialize { plugin_id: String, version: String, capabilities: Vec<String> },
    /// A tool call (plugin to engine).
    ToolCall(ToolCall),
    /// A tool result (engine to plugin).
    ToolResult(ToolResult),
    /// Log output (plugin to engine).
    Log { level: LogLevel, message: String, plugin_id: String },
    /// Subscribes to an editor event.
    SubscribeEvent { event_type: String },
    /// Unsubscribes from an editor event.
    UnsubscribeEvent { event_type: String },
    /// An editor event (engine to plugin).
    EditorEvent { event_type: String, data: serde_json::Value },
    /// Heartbeat.
    Ping { seq: u64 },
    /// Heartbeat answer.
    Pong { seq: u64 },
    Error { code: String, message: String },
    Shutdown,
}

impl PluginMessage {
    /// Whether the message is a control message that gets no answer: logs,
    /// (un)subscriptions and shutdown.
    pub fn is_fire_and_forget(&self) -> (b: bool)
        ensures
            b == (self is Log || self is SubscribeEvent || self is UnsubscribeEvent || self is Shutdown),
    {
        match self {
            PluginMessage::Log { .. } | PluginMessage::SubscribeEvent { .. } | PluginMessage::UnsubscribeEvent { .. }
            | PluginMessage::Shutdown => true,
            _ => false,
        }
    }
}

} // verus!
