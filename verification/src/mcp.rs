//! The MCP server: JSON-RPC 2.0 requests from an AI client, answered with the
//! engine's capabilities and tools. This module holds the server's identity
//! and its routing decisions; reading and writing JSON over stdio happens
//! outside this library.
use vstd::prelude::*;
use crate::text::{owned, str_eq};

verus! {

/// JSON-RPC: the request could not be parsed.
pub const PARSE_ERROR: i32 = -32700;
/// JSON-RPC: the request is not a valid request object.
pub const INVALID_REQUEST: i32 = -32600;
/// JSON-RPC: the method does not exist.
pub const METHOD_NOT_FOUND: i32 = -32601;
/// JSON-RPC: invalid method parameters.
pub const INVALID_PARAMS: i32 = -32602;
/// JSON-RPC: internal error.
pub const INTERNAL_ERROR: i32 = -32603;

/// The methods the server answers.
#[derive(Debug, Clone, Copy, PartialEq, Eq, Structural)]
pub enum McpMethod {
    /// `initialize`: the handshake.
    Initialize,
    /// `tools/list`.
    ToolsList,
    /// `tools/call`.
    ToolsCall,
    /// `ping`.
    Ping,
    /// `resources/list` (always empty).
    ResourcesList,
    /// `prompts/list` (always empty).
    PromptsList,
    /// Any other method.
    Unknown,
}

/// The method that the name `m` selects.
pub open spec fn method_of(m: Seq<char>) -> McpMethod {
    if m == "initialize"@ {
        McpMethod::Initialize
    } else if m == "tools/list"@ {
        McpMethod::ToolsList
    } else if m == "tools/call"@ {
        McpMethod::ToolsCall
    } else if m == "ping"@ {
        McpMethod::Ping
    } else if m == "resources/list"@ {
        McpMethod::ResourcesList
    } else if m == "prompts/list"@ {
        McpMethod::PromptsList
    } else {
        McpMethod::Unknown
    }
}

/// Selects the method named `method`.
pub fn classify_method(method: &str) -> (m: McpMethod)
    ensures
        m == method_of(method@),
{
    if str_eq(method, "initialize") {
        McpMethod::Initialize
    } else if str_eq(method, "tools/list") {
        McpMethod::ToolsList
    } else if str_eq(method, "tools/call") {
        McpMethod::ToolsCall
    } else if str_eq(method, "ping") {
        McpMethod::Ping
    } else if str_eq(method, "resources/list") {
        McpMethod::ResourcesList
    } else if str_eq(method, "prompts/list") {
        McpMethod::PromptsList
    } else {
        McpMethod::Unknown
    }
}

/// How a request is answered: a notification (a request without an id) gets
/// no answer; any other request is answered by its method.
pub fn route(has_id: bool, method: &str) -> (r: Option<McpMethod>)
    ensures
        !has_id ==> r is None,
        has_id ==> r == Some(method_of(method@)),
{
    if has_id {
        Some(classify_method(method))
    } else {
        None
    }
}

/// The message of the error answered to an unknown method.
pub fn method_not_found_message(method: &str) -> (s: String)
    ensures
        s@ == "Method '"@ + method@ + "' not found. Supported: initialize, tools/list, tools/call, ping"@,
{
    let mut s = owned("Method '");
    s.append(method);
    s.append("' not found. Supported: initialize, tools/list, tools/call, ping");
    s
}

/// The MCP server, holding the bridge to the engine's state.
pub struct McpServer<B> {
    bridge: B,
    name: String,
    version: String,
}

impl<B> McpServer<B> {
    pub closed spec fn spec_bridge(&self) -> B {
        self.bridge
    }

    pub closed spec fn spec_name(&self) -> Seq<char> {
        self.name@
    }

    pub closed spec fn spec_version(&self) -> Seq<char> {
        self.version@
    }

    /// A server named `ummerse-mcp`, version `0.1.0`, over `bridge`.
    pub fn new(bridge: B) -> (s: McpServer<B>)
        ensures
            s.spec_bridge() == bridge,
            s.spec_name() == "ummerse-mcp"@,
            s.spec_version() == "0.1.0"@,
    {
        McpServer { bridge, name: owned("ummerse-mcp"), version: owned("0.1.0") }
    }

    /// The server's name, reported in the handshake.
    pub fn name(&self) -> (s: &str)
        ensures
            s@ == self.spec_name(),
    {
        self.name.as_str()
    }

    /// The server's version, reported in the handshake.
    pub fn version(&self) -> (s: &str)
        ensures
            s@ == self.spec_version(),
    {
        self.version.as_str()
    }

    /// The bridge to the engine.
    pub fn bridge(&self) -> (b: &B)
        ensures
            *b == self.spec_bridge(),
    {
        &self.bridge
    }
}

} // verus!
