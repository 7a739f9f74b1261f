//! Message and error types of the chat API that the Ollama layer speaks.
//!
//! JSON payloads (tool inputs, schemas) are held as their JSON text.
use vstd::prelude::*;

verus! {

/// A tool the model may call.
#[derive(Debug, Clone)]
pub struct ToolDefinition {
    pub name: String,
    pub description: String,
    /// JSON schema of the tool's input, as JSON text.
    pub input_schema: String,
}

/// How the model should pick a tool.
#[derive(Debug, Clone, PartialEq, Eq)]
pub enum ToolChoice {
    Auto,
    Required,
    Specific(String),
}

/// One block of an input message.
#[derive(Debug, Clone)]
pub enum InputContentBlock {
    Text { text: String },
    ToolUse { id: String, name: String, input: String },
    ToolResult { tool_use_id: String, content: String, is_error: bool },
}

/// One message of a request.
#[derive(Debug, Clone)]
pub struct InputMessage {
    pub role: String,
    pub content: Vec<InputContentBlock>,
}

/// A request for a model reply. Its sampling temperature, a float, stays with
/// the caller.
#[derive(Debug, Clone)]
pub struct MessageRequest {
    pub model: String,
    pub max_tokens: u32,
    pub messages: Vec<InputMessage>,
    pub system: Option<String>,
    pub tools: Option<Vec<ToolDefinition>>,
    pub tool_choice: Option<ToolChoice>,
    pub stream: bool,
}

/// One block of a reply.
#[derive(Debug, Clone, PartialEq, Eq)]
pub enum OutputContentBlock {
    Text { text: String },
    /// `input` is the JSON text of the tool's input.
    ToolUse { id: String, name: String, input: String },
}

/// Token counts of a reply.
#[derive(Debug, Clone, Copy, PartialEq, Eq)]
pub struct Usage {
    pub input_tokens: u32,
    pub cache_creation_input_tokens: u32,
    pub cache_read_input_tokens: u32,
    pub output_tokens: u32,
}

/// A model reply.
#[derive(Debug, Clone)]
pub struct MessageResponse {
    pub id: String,
    pub kind: String,
    pub role: String,
    pub content: Vec<OutputContentBlock>,
    pub model: String,
    pub stop_reason: Option<String>,
    pub stop_sequence: Option<String>,
    pub usage: Usage,
    pub request_id: Option<String>,
}

/// `serde_json::Error`, carried in errors as it came.
#[verifier::external_type_specification]
#[verifier::external_body]
pub struct ExJsonError(serde_json::Error);

/// Errors of the chat API.
#[derive(Debug)]
pub enum ApiError {
    /// The server answered with an error status.
    Api {
        status: u16,
        error_type: Option<String>,
        message: Option<String>,
        request_id: Option<String>,
        body: String,
        retryable: bool,
        suggested_action: Option<String>,
    },
    /// A body could not be read as JSON.
    Json { provider: String, model: String, body_snippet: String, source: serde_json::Error },
    /// A streamed frame or a reply did not have the expected shape.
    InvalidSseFrame(String),
    /// The request would exceed the provider's body limit.
    RequestBodySizeExceeded { estimated_bytes: usize, max_bytes: usize, provider: String },
    /// The transport failed.
    Http(String),
}

/// The text view of an optional string.
pub open spec fn opt_view(s: Option<String>) -> Option<Seq<char>> {
    match s {
        Some(v) => Some(v@),
        None => None,
    }
}

} // verus!
