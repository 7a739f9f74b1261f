//! Types of the Model Context Protocol and the JSON-RPC messages it is
//! carried in. JSON values are held as their JSON text.
use vstd::prelude::*;
use crate::text::{decimal, decimal_string, join2, owned};

verus! {

/// Role of the sender of a message.
#[derive(Debug, Clone, Copy, PartialEq, Eq, Hash)]
pub enum MessageRole {
    User,
    Assistant,
    System,
}

/// A message of a conversation.
#[derive(Debug, Clone)]
pub struct Message {
    pub role: MessageRole,
    pub content: String,
    pub timestamp: i64,
    /// The command that made this message, if one did.
    pub command: Option<String>,
}

impl MessageRole {
    /// The role's name on the wire and in the store.
    pub fn as_str(&self) -> (r: &'static str)
        ensures
            r@ == role_name(*self),
    {
        proof {
            reveal_strlit("user");
            reveal_strlit("assistant");
            reveal_strlit("system");
        }
        match self {
            MessageRole::User => "user",
            MessageRole::Assistant => "assistant",
            MessageRole::System => "system",
        }
    }
}

/// The lowercase name of a role.
pub open spec fn role_name(r: MessageRole) -> Seq<char> {
    match r {
        MessageRole::User => seq!['u', 's', 'e', 'r'],
        MessageRole::Assistant => seq!['a', 's', 's', 'i', 's', 't', 'a', 'n', 't'],
        MessageRole::System => seq!['s', 'y', 's', 't', 'e', 'm'],
    }
}

/// Each role goes on the wire under its own name: `user`, `assistant` and
/// `system`, so no two roles share a name.
pub proof fn lemma_role_names()
    ensures
        role_name(MessageRole::User) == "user"@,
        role_name(MessageRole::Assistant) == "assistant"@,
        role_name(MessageRole::System) == "system"@,
        forall|a: MessageRole, b: MessageRole| #[trigger] role_name(a) == #[trigger] role_name(b) ==> a == b,
{
    reveal_strlit("user");
    reveal_strlit("assistant");
    reveal_strlit("system");
    assert(role_name(MessageRole::User) =~= "user"@);
    assert(role_name(MessageRole::Assistant) =~= "assistant"@);
    assert(role_name(MessageRole::System) =~= "system"@);
    assert forall|a: MessageRole, b: MessageRole| #[trigger] role_name(a) == #[trigger] role_name(b) implies a == b by {
        if a != b {
            assert(role_name(a).len() != role_name(b).len() || role_name(a)[0] != role_name(b)[0]);
        }
    }
}

impl Message {
    /// A user message.
    pub fn user(content: String, timestamp: i64) -> (m: Self)
        ensures
            m.role == MessageRole::User,
            m.content@ == content@,
            m.timestamp == timestamp,
            m.command is None,
    {
        Message { role: MessageRole::User, content, timestamp, command: None }
    }

    /// An assistant message.
    pub fn assistant(content: String, timestamp: i64) -> (m: Self)
        ensures
            m.role == MessageRole::Assistant,
            m.content@ == content@,
            m.timestamp == timestamp,
            m.command is None,
    {
        Message { role: MessageRole::Assistant, content, timestamp, command: None }
    }

    /// A system message.
    pub fn system(content: String, timestamp: i64) -> (m: Self)
        ensures
            m.role == MessageRole::System,
            m.content@ == content@,
            m.timestamp == timestamp,
            m.command is None,
    {
        Message { role: MessageRole::System, content, timestamp, command: None }
    }
}

/// A tool a server offers.
#[derive(Debug, Clone)]
pub struct Tool {
    pub name: String,
    pub description: String,
    /// JSON schema of the input, as JSON text.
    pub input_schema: String,
    /// Extra key and value pairs.
    pub metadata: Vec<(String, String)>,
}

impl Tool {
    pub fn new(name: String, description: String, input_schema: String) -> (t: Self)
        ensures
            t.name@ == name@,
            t.description@ == description@,
            t.input_schema@ == input_schema@,
            t.metadata@.len() == 0,
    {
        Tool { name, description, input_schema, metadata: Vec::new() }
    }
}

/// A call of a tool.
#[derive(Debug, Clone)]
pub struct ToolCall {
    pub id: String,
    pub name: String,
    /// The arguments, as JSON text.
    pub arguments: String,
}

/// The result of a tool call.
#[derive(Debug, Clone)]
pub struct ToolResult {
    pub tool_call_id: String,
    pub content: String,
}

/// A resource a server offers.
#[derive(Debug, Clone)]
pub struct Resource {
    pub uri: String,
    pub name: String,
    pub description: String,
    pub mime_type: Option<String>,
}

/// A JSON-RPC request; `id` and `params` as JSON text.
#[derive(Debug, Clone)]
pub struct Request {
    pub jsonrpc: String,
    pub id: String,
    pub method: String,
    pub params: String,
}

/// A JSON-RPC error object; `data` as JSON text.
#[derive(Debug, Clone)]
pub struct ErrorResponse {
    pub code: i32,
    pub message: String,
    pub data: Option<String>,
}

/// A JSON-RPC response; `id` and `result` as JSON text.
#[derive(Debug, Clone)]
pub struct Response {
    pub jsonrpc: String,
    pub id: String,
    pub result: Option<String>,
    pub error: Option<ErrorResponse>,
}

/// What a server can do with tools.
#[derive(Debug, Clone)]
pub struct ToolCapabilities {
    pub tools: Option<Vec<Tool>>,
    pub list_changed: bool,
}

/// What a server can do with resources.
#[derive(Debug, Clone)]
pub struct ResourceCapabilities {
    pub resources: Option<Vec<Resource>>,
    pub list_changed: bool,
}

/// What a server can do with prompts; each prompt as JSON text.
#[derive(Debug, Clone)]
pub struct PromptCapabilities {
    pub prompts: Option<Vec<String>>,
    pub list_changed: bool,
}

/// The capabilities of a server; each feature's value as JSON text.
#[derive(Debug, Clone)]
pub struct ServerCapabilities {
    pub tools: Option<ToolCapabilities>,
    pub resources: Option<ResourceCapabilities>,
    pub prompts: Option<PromptCapabilities>,
    pub features: Vec<(String, String)>,
}

/// Whether the client's roots can change.
#[derive(Debug, Clone)]
pub struct RootCapabilities {
    pub list_changed: Option<bool>,
}

/// Support for workspace configuration.
#[derive(Debug, Clone)]
pub struct ConfigurationCapability {
    pub workspace: Option<bool>,
}

/// What the client can do with its workspace.
#[derive(Debug, Clone)]
pub struct WorkspaceCapabilities {
    pub configuration: Option<ConfigurationCapability>,
}

/// The capabilities of the client; each feature's value as JSON text.
#[derive(Debug, Clone)]
pub struct ClientCapabilities {
    pub roots: Option<RootCapabilities>,
    pub workspace: Option<WorkspaceCapabilities>,
    pub features: Option<Vec<(String, String)>>,
}

/// A name and a version.
#[derive(Debug, Clone)]
pub struct VersionInfo {
    pub name: String,
    pub version: String,
}

/// The request that opens a session.
#[derive(Debug, Clone)]
pub struct InitializeRequest {
    pub protocol_version: String,
    pub client_capabilities: ClientCapabilities,
    pub client_info: Option<VersionInfo>,
}

/// The answer to an initialize request.
#[derive(Debug, Clone)]
pub struct InitializeResponse {
    pub protocol_version: String,
    pub capabilities: ServerCapabilities,
    pub server_info: VersionInfo,
}

/// Kinds of protocol messages.
#[derive(Debug, Clone, Copy, PartialEq, Eq)]
pub enum MessageType {
    ClientNotification,
    ServerNotification,
    ClientRequest,
    ServerResponse,
}

/// The decimal text of a signed integer.
pub open spec fn signed_decimal(n: int) -> Seq<char> {
    if n < 0 {
        seq!['-'] + decimal((-n) as nat)
    } else {
        decimal(n as nat)
    }
}

/// The decimal text of `n`.
pub fn signed_decimal_string(n: i32) -> (r: String)
    ensures
        r@ == signed_decimal(n as int),
{
    if n < 0 {
        let w: i64 = 0i64 - n as i64;
        assert(w == -(n as int));
        let m: u64 = w as u64;
        assert(m == -(n as int));
        let d = decimal_string(m);
        proof {
            reveal_strlit("-");
        }
        join2("-", d.as_str())
    } else {
        decimal_string(n as u64)
    }
}

/// The JSON text of a notification: `{"jsonrpc":"2.0","method":…,"params":…}`.
pub open spec fn notification_json(method_json: Seq<char>, params: Seq<char>) -> Seq<char> {
    "{\"jsonrpc\":\"2.0\",\"method\":"@ + method_json + ",\"params\":"@ + params + "}"@
}

/// The JSON text of a request: `{"id":…,"jsonrpc":"2.0","method":…,"params":…}`.
pub open spec fn request_json(method_json: Seq<char>, params: Seq<char>, id: Seq<char>) -> Seq<char> {
    "{\"id\":"@ + id + ",\"jsonrpc\":\"2.0\",\"method\":"@ + method_json + ",\"params\":"@ + params + "}"@
}

/// The JSON text of a successful response: `{"id":…,"jsonrpc":"2.0","result":…}`.
pub open spec fn success_json(result: Seq<char>, id: Seq<char>) -> Seq<char> {
    "{\"id\":"@ + id + ",\"jsonrpc\":\"2.0\",\"result\":"@ + result + "}"@
}

/// The JSON text of an error response:
/// `{"error":{"code":…,"data":…,"message":…},"id":…,"jsonrpc":"2.0"}`.
pub open spec fn error_json(code: i32, message_json: Seq<char>, id: Seq<char>, data: Option<Seq<char>>) -> Seq<char> {
    "{\"error\":{\"code\":"@ + signed_decimal(code as int) + ",\"data\":"@ + match data {
        Some(d) => d,
        None => "null"@,
    } + ",\"message\":"@ + message_json + "},\"id\":"@ + id + ",\"jsonrpc\":\"2.0\"}"@
}

/// A JSON-RPC notification for `method` with the JSON text `params`.
pub fn notification(method: &str, params: &str) -> (r: String)
    ensures
        r@ == notification_json(crate::json::json_quoted(method@), params@),
{
    let m = crate::json::quote(method);
    let mut r = owned("{\"jsonrpc\":\"2.0\",\"method\":");
    r.append(m.as_str());
    r.append(",\"params\":");
    r.append(params);
    r.append("}");
    r
}

/// A JSON-RPC request for `method` with the JSON texts `params` and `id`.
pub fn request(method: &str, params: &str, id: &str) -> (r: String)
    ensures
        r@ == request_json(crate::json::json_quoted(method@), params@, id@),
{
    let m = crate::json::quote(method);
    let mut r = owned("{\"id\":");
    r.append(id);
    r.append(",\"jsonrpc\":\"2.0\",\"method\":");
    r.append(m.as_str());
    r.append(",\"params\":");
    r.append(params);
    r.append("}");
    r
}

/// A successful JSON-RPC response with the JSON texts `result` and `id`.
pub fn success_response(result: &str, id: &str) -> (r: String)
    ensures
        r@ == success_json(result@, id@),
{
    let mut r = owned("{\"id\":");
    r.append(id);
    r.append(",\"jsonrpc\":\"2.0\",\"result\":");
    r.append(result);
    r.append("}");
    r
}

/// A JSON-RPC error response; `data` is JSON text, `null` when absent.
pub fn error_response(code: i32, message: &str, id: &str, data: Option<&str>) -> (r: String)
    ensures
        r@ == error_json(
            code,
            crate::json::json_quoted(message@),
            id@,
            match data {
                Some(d) => Some(d@),
                None => None,
            },
        ),
{
    let c = signed_decimal_string(code);
    let m = crate::json::quote(message);
    let mut r = owned("{\"error\":{\"code\":");
    r.append(c.as_str());
    r.append(",\"data\":");
    match data {
        Some(d) => r.append(d),
        None => r.append("null"),
    }
    r.append(",\"message\":");
    r.append(m.as_str());
    r.append("},\"id\":");
    r.append(id);
    r.append(",\"jsonrpc\":\"2.0\"}");
    r
}

} // verus!
