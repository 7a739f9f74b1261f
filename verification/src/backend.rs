//! The model backends of the MCP client: their settings, their checks, the
//! requests sent to them and the reading of their replies, and the rows they
//! are stored in.
use vstd::prelude::*;
use crate::cli::DEFAULT_MODEL;
use crate::cli_error::McpCliError;
use crate::config::ServerConfig;
use crate::json::{array_at, json_array_at, json_quoted, json_string_at, quote, string_at};
use crate::mcp_types::{Message, role_name};
use crate::text::{decimal, decimal_string, join2, owned, spec_trim_end_char, str_eq};

verus! {

/// A model backend.
#[derive(Debug, Clone)]
pub enum Backend {
    /// An OpenAI-compatible API. The sampling temperature (between 0 and 2)
    /// is a float; it is held as the bits of its `f32`.
    OpenAI { base_url: String, api_key: Option<String>, model: String, temperature_bits: u32 },
    /// A local Ollama server.
    Ollama { base_url: Option<String>, model: String, timeout: u64 },
}

/// The base URL an Ollama backend uses when none is set.
pub open spec fn default_ollama_url() -> Seq<char> {
    "http://localhost:11434"@
}

impl Backend {
    /// The default backend: Ollama on the local default URL with the default
    /// model and a 60 second timeout.
    pub fn default() -> (b: Self)
        ensures
            b matches Backend::Ollama { base_url, model, timeout } && base_url is None && model@ == DEFAULT_MODEL@
                && timeout == 60,
    {
        Backend::Ollama { base_url: None, model: owned(DEFAULT_MODEL), timeout: 60 }
    }

    /// The model name.
    pub fn model(&self) -> (r: &str)
        ensures
            r@ == match self {
                Backend::OpenAI { model, .. } => model@,
                Backend::Ollama { model, .. } => model@,
            },
    {
        match self {
            Backend::OpenAI { model, .. } => model.as_str(),
            Backend::Ollama { model, .. } => model.as_str(),
        }
    }

    /// The base URL; an Ollama backend without one uses the local default.
    pub fn base_url(&self) -> (r: &str)
        ensures
            r@ == match self {
                Backend::OpenAI { base_url, .. } => base_url@,
                Backend::Ollama { base_url: Some(u), .. } => u@,
                Backend::Ollama { base_url: None, .. } => default_ollama_url(),
            },
    {
        proof {
            reveal_strlit("http://localhost:11434");
        }
        match self {
            Backend::OpenAI { base_url, .. } => base_url.as_str(),
            Backend::Ollama { base_url: Some(url), .. } => url.as_str(),
            Backend::Ollama { .. } => "http://localhost:11434",
        }
    }

    /// Whether an API key is configured; Ollama needs none.
    pub fn has_api_key(&self) -> (r: bool)
        ensures
            r == match self {
                Backend::OpenAI { api_key, .. } => api_key is Some,
                Backend::Ollama { .. } => true,
            },
    {
        match self {
            Backend::OpenAI { api_key, .. } => api_key.is_some(),
            Backend::Ollama { .. } => true,
        }
    }

    /// Check the settings: an OpenAI backend needs a base URL, a model and,
    /// when a key is given, a non-empty key; an Ollama backend needs a model.
    pub fn validate(&self) -> (r: Result<(), McpCliError>)
        ensures
            match self {
                Backend::OpenAI { base_url, api_key, model, .. } => {
                    if base_url@.len() == 0 {
                        r matches Err(McpCliError::Validation(m)) && m@ == "base_url is required"@
                    } else if model@.len() == 0 {
                        r matches Err(McpCliError::Validation(m)) && m@ == "model is required"@
                    } else if api_key matches Some(k) && k@.len() == 0 {
                        r matches Err(McpCliError::Validation(m)) && m@ == "api_key is required"@
                    } else {
                        r is Ok
                    }
                },
                Backend::Ollama { model, .. } => if model@.len() == 0 {
                    r matches Err(McpCliError::Validation(m)) && m@ == "model is required"@
                } else {
                    r is Ok
                },
            },
    {
        match self {
            Backend::OpenAI { base_url, api_key, model, .. } => {
                if base_url.as_str().is_empty() {
                    return Err(McpCliError::validation("base_url is required"));
                }
                if model.as_str().is_empty() {
                    return Err(McpCliError::validation("model is required"));
                }
                match api_key {
                    Some(key) => {
                        if key.as_str().is_empty() {
                            return Err(McpCliError::validation("api_key is required"));
                        }
                    },
                    None => {},
                }
            },
            Backend::Ollama { model, .. } => {
                if model.as_str().is_empty() {
                    return Err(McpCliError::validation("model is required"));
                }
            },
        }
        Ok(())
    }
}

/// The request timeout of a backend in seconds: an Ollama backend's own, 60
/// for the others.
pub fn get_timeout(backend: &Backend) -> (r: u64)
    ensures
        r == match backend {
            Backend::Ollama { timeout, .. } => *timeout,
            _ => 60,
        },
{
    match backend {
        Backend::Ollama { timeout, .. } => *timeout,
        _ => 60,
    }
}

/// The JSON text of one chat message: `{"content":…,"role":…}`.
pub open spec fn chat_message_json(m: Message) -> Seq<char> {
    "{\"content\":"@ + json_quoted(m.content@) + ",\"role\":"@ + json_quoted(role_name(m.role)) + "}"@
}

/// The JSON array of chat messages.
pub open spec fn chat_messages_json(ms: Seq<Message>) -> Seq<char> {
    "["@ + chat_messages_items(ms) + "]"@
}

/// The chat messages separated by commas.
pub open spec fn chat_messages_items(ms: Seq<Message>) -> Seq<char>
    decreases ms.len(),
{
    if ms.len() == 0 {
        Seq::empty()
    } else if ms.len() == 1 {
        chat_message_json(ms[0])
    } else {
        chat_messages_items(ms.drop_last()) + ","@ + chat_message_json(ms.last())
    }
}

/// The JSON array of chat messages that a backend is sent.
pub fn chat_messages(messages: &Vec<Message>) -> (r: String)
    ensures
        r@ == chat_messages_json(messages@),
{
    let mut items = String::new();
    let mut i: usize = 0;
    while i < messages.len()
        invariant
            i <= messages@.len(),
            items@ == chat_messages_items(messages@.take(i as int)),
        decreases messages.len() - i,
    {
        let m = &messages[i];
        let qc = quote(m.content.as_str());
        let qr = quote(m.role.as_str());
        if i > 0 {
            items.append(",");
        }
        items.append("{\"content\":");
        items.append(qc.as_str());
        items.append(",\"role\":");
        items.append(qr.as_str());
        items.append("}");
        proof {
            let next = messages@.take(i + 1);
            assert(next.drop_last() =~= messages@.take(i as int));
            assert(next.last() == messages@[i as int]);
        }
        i = i + 1;
    }
    assert(messages@.take(messages@.len() as int) =~= messages@);
    let mut r = owned("[");
    r.append(items.as_str());
    r.append("]");
    r
}

/// The body of an Ollama chat request: the messages, the model, a prediction
/// budget equal to the timeout, and no streaming.
pub open spec fn ollama_body(model: Seq<char>, messages: Seq<Message>, timeout: u64) -> Seq<char> {
    "{\"messages\":"@ + chat_messages_json(messages) + ",\"model\":"@ + json_quoted(model)
        + ",\"options\":{\"num_predict\":"@ + decimal(timeout as nat) + "},\"stream\":false}"@
}

/// The JSON text of an Ollama chat request.
pub fn ollama_chat_body(model: &str, timeout: u64, messages: &Vec<Message>) -> (r: String)
    ensures
        r@ == ollama_body(model@, messages@, timeout),
{
    let ms = chat_messages(messages);
    let qm = quote(model);
    let t = decimal_string(timeout);
    let mut r = owned("{\"messages\":");
    r.append(ms.as_str());
    r.append(",\"model\":");
    r.append(qm.as_str());
    r.append(",\"options\":{\"num_predict\":");
    r.append(t.as_str());
    r.append("},\"stream\":false}");
    r
}

/// The URL of a chat endpoint: the base URL without trailing slashes, then
/// `path`.
pub fn endpoint_url(base_url: &str, path: &str) -> (r: String)
    ensures
        r@ == spec_trim_end_char(base_url@, '/') + path@,
{
    let cs = crate::text::chars_of(base_url);
    let trimmed = crate::text::trim_end_char(cs.as_slice(), '/');
    let mut r = crate::text::string_from_chars(trimmed.as_slice());
    r.append(path);
    r
}

/// The error for an answer with a failing status.
pub fn api_error(status: &str, body: &str) -> (e: McpCliError)
    ensures
        e matches McpCliError::Validation(m) && m@ == "API error: "@ + status@ + " - "@ + body@,
{
    let mut m = join2("API error: ", status);
    m.append(" - ");
    m.append(body);
    McpCliError::Validation(m)
}

/// The assistant text of an Ollama reply: the string at `message.content`.
pub fn ollama_reply_text(body: &str) -> (r: Result<String, McpCliError>)
    ensures
        match json_string_at(body@, "/message/content"@) {
            Some(t) => r matches Ok(s) && s@ == t,
            None => r matches Err(McpCliError::Validation(m)) && m@ == "No content in response"@,
        },
{
    match string_at(body, "/message/content") {
        Some(t) => Ok(t),
        None => Err(McpCliError::validation("No content in response")),
    }
}

/// The assistant text of an OpenAI-compatible reply: `choices` must be an
/// array; the text is the first choice's `message.content`, or else its
/// `message.reasoning_content`.
pub fn openai_reply_text(body: &str) -> (r: Result<String, McpCliError>)
    ensures
        !json_array_at(body@, "/choices"@) ==> (r matches Err(McpCliError::Validation(m)) && m@
            == "No choices in response"@),
        json_array_at(body@, "/choices"@) ==> match json_string_at(body@, "/choices/0/message/content"@) {
            Some(t) => r matches Ok(s) && s@ == t,
            None => match json_string_at(body@, "/choices/0/message/reasoning_content"@) {
                Some(t) => r matches Ok(s) && s@ == t,
                None => r matches Err(McpCliError::Validation(m)) && m@ == "No content in response"@,
            },
        },
{
    if !array_at(body, "/choices") {
        return Err(McpCliError::validation("No choices in response"));
    }
    match string_at(body, "/choices/0/message/content") {
        Some(t) => Ok(t),
        None => match string_at(body, "/choices/0/message/reasoning_content") {
            Some(t) => Ok(t),
            None => Err(McpCliError::validation("No content in response")),
        },
    }
}

/// The query that reads stored messages, newest first, optionally of one role.
pub fn message_query(filter_by_role: bool) -> (r: String)
    ensures
        r@ == base_query() + (if filter_by_role { " WHERE role = ?"@ } else { Seq::empty() })
            + " ORDER BY timestamp DESC"@ + " LIMIT ? OFFSET ?"@,
{
    let mut q = base_message_query();
    if filter_by_role {
        q.append(" WHERE role = ?");
    }
    q.append(" ORDER BY timestamp DESC");
    q.append(" LIMIT ? OFFSET ?");
    q
}

/// The query that reads every stored message.
pub open spec fn base_query() -> Seq<char> {
    "SELECT role, content, timestamp, command FROM messages"@
}

/// The query that reads every stored message.
pub fn base_message_query() -> (r: String)
    ensures
        r@ == base_query(),
{
    owned("SELECT role, content, timestamp, command FROM messages")
}

/// The row a backend is stored as.
#[derive(Debug, Clone)]
pub struct BackendRow {
    pub backend: String,
    pub model: String,
    pub base_url: String,
    pub timeout: u64,
}

/// What a stored row holds: kind, model, base URL and timeout.
pub open spec fn row_view(r: BackendRow) -> (Seq<char>, Seq<char>, Seq<char>, u64) {
    (r.backend@, r.model@, r.base_url@, r.timeout)
}

/// The row a backend is stored as: always under `ollama`, with its model, its
/// base URL (the local default for an Ollama backend without one) and its
/// timeout (30 for an OpenAI backend).
pub open spec fn stored_row(b: Backend) -> (Seq<char>, Seq<char>, Seq<char>, u64) {
    (
        "ollama"@,
        match b {
            Backend::OpenAI { model, .. } => model@,
            Backend::Ollama { model, .. } => model@,
        },
        match b {
            Backend::OpenAI { base_url, .. } => base_url@,
            Backend::Ollama { base_url: Some(u), .. } => u@,
            Backend::Ollama { base_url: None, .. } => default_ollama_url(),
        },
        match b {
            Backend::OpenAI { .. } => 30,
            Backend::Ollama { timeout, .. } => timeout,
        },
    )
}

/// An Ollama backend as its base URL, model and timeout; `None` for others.
pub open spec fn ollama_view(b: Backend) -> Option<(Option<Seq<char>>, Seq<char>, u64)> {
    match b {
        Backend::Ollama { base_url, model, timeout } => Some(
            (
                match base_url {
                    Some(u) => Some(u@),
                    None => None,
                },
                model@,
                timeout,
            ),
        ),
        _ => None,
    }
}

/// The backend a row stands for: an Ollama backend for rows under `ollama`,
/// else the default backend.
pub open spec fn loaded_backend(kind: Seq<char>, model: Seq<char>, base_url: Option<Seq<char>>, timeout: u64) -> Option<
    (Option<Seq<char>>, Seq<char>, u64),
> {
    if kind == "ollama"@ {
        Some((base_url, model, timeout))
    } else {
        Some((None, DEFAULT_MODEL@, 60))
    }
}

/// The row a backend is stored as.
pub fn backend_row(backend: &Backend) -> (r: BackendRow)
    ensures
        row_view(r) == stored_row(*backend),
{
    let timeout = match backend {
        Backend::OpenAI { .. } => 30,
        Backend::Ollama { timeout, .. } => *timeout,
    };
    BackendRow {
        backend: owned("ollama"),
        model: owned(backend.model()),
        base_url: owned(backend.base_url()),
        timeout,
    }
}

/// The backend a stored row stands for.
pub fn backend_from_row(kind: &str, model: String, base_url: Option<String>, timeout: u64) -> (b: Backend)
    ensures
        ollama_view(b) == loaded_backend(
            kind@,
            model@,
            match base_url {
                Some(u) => Some(u@),
                None => None,
            },
            timeout,
        ),
{
    if str_eq(kind, "ollama") {
        Backend::Ollama { base_url, model, timeout }
    } else {
        Backend::default()
    }
}

/// An Ollama backend with a base URL comes back as it was stored: loading the
/// row it is saved as gives the same URL, model and timeout.
pub proof fn lemma_backend_round_trip(b: Backend)
    requires
        b matches Backend::Ollama { base_url: Some(_), .. },
    ensures
        ({
            let (kind, model, url, timeout) = stored_row(b);
            loaded_backend(kind, model, Some(url), timeout) == ollama_view(b)
        }),
{
}

/// The stored flag for whether a server is enabled.
pub fn enabled_flag(server: &ServerConfig) -> (r: i64)
    ensures
        r == if server.enabled { 1i64 } else { 0i64 },
{
    if server.enabled { 1 } else { 0 }
}

} // verus!
