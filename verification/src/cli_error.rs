//! Errors of the MCP command-line client.
use vstd::prelude::*;
use crate::text::{decimal, decimal_string, join2, owned, spec_starts_with};

verus! {

/// `toml::de::Error`, carried as it came.
#[verifier::external_type_specification]
#[verifier::external_body]
pub struct ExTomlError(toml::de::Error);

/// Main error type of the client.
#[derive(Debug)]
pub enum McpCliError {
    Generic(String),
    Config(String),
    Io(std::io::Error),
    Json(serde_json::Error),
    Toml(toml::de::Error),
    InvalidInput(String),
    Connection(String),
    Http(String),
    Backend(String),
    Protocol(String),
    Server { name: String, message: String },
    Tool { name: String, message: String },
    Resource { name: String, message: String },
    Validation(String),
    Storage(String),
    Timeout(u64),
}

/// Errors of the MCP protocol.
#[derive(Debug)]
pub enum ProtocolError {
    InvalidFormat(String),
    InvalidRequest(String),
    InvalidResponse(String),
    MissingField { field: String },
    JsonRpc(String),
    MethodNotFound(String),
    InvalidParameters(String),
    Transport(String),
    Server(String),
}

/// The text of the `Protocol` error that a protocol error becomes.
pub open spec fn protocol_summary(err: ProtocolError) -> Seq<char> {
    match err {
        ProtocolError::InvalidFormat(m) => "Invalid format: "@ + m@,
        ProtocolError::InvalidRequest(m) => "Invalid request: "@ + m@,
        ProtocolError::InvalidResponse(m) => "Invalid response: "@ + m@,
        ProtocolError::MissingField { field } => "Missing field: "@ + field@,
        ProtocolError::JsonRpc(m) => "JSON-RPC error: "@ + m@,
        ProtocolError::MethodNotFound(m) => "Method not found: "@ + m@,
        ProtocolError::InvalidParameters(m) => "Invalid parameters: "@ + m@,
        ProtocolError::Transport(m) => "Transport error: "@ + m@,
        ProtocolError::Server(m) => "Server error: "@ + m@,
    }
}

/// The display text of a protocol error.
pub open spec fn protocol_message(err: ProtocolError) -> Seq<char> {
    match err {
        ProtocolError::InvalidFormat(m) => "Invalid message format: "@ + m@,
        ProtocolError::InvalidRequest(m) => "Invalid request: "@ + m@,
        ProtocolError::InvalidResponse(m) => "Invalid response: "@ + m@,
        ProtocolError::MissingField { field } => "Missing required field: "@ + field@,
        ProtocolError::JsonRpc(m) => "Invalid JSON-RPC: "@ + m@,
        ProtocolError::MethodNotFound(m) => "Method not found: "@ + m@,
        ProtocolError::InvalidParameters(m) => "Invalid parameters: "@ + m@,
        ProtocolError::Transport(m) => "Transport error: "@ + m@,
        ProtocolError::Server(m) => "Server error: "@ + m@,
    }
}

/// The display text of an error that holds only text of the library; the
/// errors that carry an outside error (`Io`, `Json`, `Toml`) have `None`.
pub open spec fn cli_message(err: McpCliError) -> Option<Seq<char>> {
    match err {
        McpCliError::Generic(m) => Some(m@),
        McpCliError::Config(m) => Some("Configuration error: "@ + m@),
        McpCliError::Io(_) => None,
        McpCliError::Json(_) => None,
        McpCliError::Toml(_) => None,
        McpCliError::InvalidInput(m) => Some("Invalid input: "@ + m@),
        McpCliError::Connection(m) => Some("Connection error: "@ + m@),
        McpCliError::Http(m) => Some("HTTP error: "@ + m@),
        McpCliError::Backend(m) => Some("Backend error: "@ + m@),
        McpCliError::Protocol(m) => Some("MCP protocol error: "@ + m@),
        McpCliError::Server { name, message } => Some("Server error ("@ + name@ + "): "@ + message@),
        McpCliError::Tool { name, message } => Some("Tool error ("@ + name@ + "): "@ + message@),
        McpCliError::Resource { name, message } => Some("Resource error ("@ + name@ + "): "@ + message@),
        McpCliError::Validation(m) => Some("Validation error: "@ + m@),
        McpCliError::Storage(m) => Some("Storage error: "@ + m@),
        McpCliError::Timeout(s) => Some("Operation timed out after "@ + decimal(s as nat) + " seconds"@),
    }
}

/// `Display` of an outside error, through `ToString`. The text comes from the
/// outside crate or the operating system, so nothing is stated of it.
#[verifier::external_body]
fn io_error_text(e: &std::io::Error) -> String {
    e.to_string()
}

/// `Display` of a `serde_json::Error`, through `ToString`; nothing is stated
/// of the text.
#[verifier::external_body]
fn json_error_text(e: &serde_json::Error) -> String {
    e.to_string()
}

/// `Display` of a `toml::de::Error`, through `ToString`; nothing is stated of
/// the text.
#[verifier::external_body]
fn toml_error_text(e: &toml::de::Error) -> String {
    e.to_string()
}

impl McpCliError {
    /// A generic error with a message.
    pub fn new(msg: &str) -> (e: Self)
        ensures
            e matches McpCliError::Generic(m) && m@ == msg@,
    {
        McpCliError::Generic(owned(msg))
    }

    /// A configuration error.
    pub fn config(msg: &str) -> (e: Self)
        ensures
            e matches McpCliError::Config(m) && m@ == msg@,
    {
        McpCliError::Config(owned(msg))
    }

    /// A connection error.
    pub fn connection(msg: &str) -> (e: Self)
        ensures
            e matches McpCliError::Connection(m) && m@ == msg@,
    {
        McpCliError::Connection(owned(msg))
    }

    /// A validation error.
    pub fn validation(msg: &str) -> (e: Self)
        ensures
            e matches McpCliError::Validation(m) && m@ == msg@,
    {
        McpCliError::Validation(owned(msg))
    }

    /// The `Protocol` error that a protocol error becomes.
    pub fn from(err: ProtocolError) -> (e: Self)
        ensures
            e matches McpCliError::Protocol(m) && m@ == protocol_summary(err),
    {
        let m = match &err {
            ProtocolError::InvalidFormat(m) => join2("Invalid format: ", m.as_str()),
            ProtocolError::InvalidRequest(m) => join2("Invalid request: ", m.as_str()),
            ProtocolError::InvalidResponse(m) => join2("Invalid response: ", m.as_str()),
            ProtocolError::MissingField { field } => join2("Missing field: ", field.as_str()),
            ProtocolError::JsonRpc(m) => join2("JSON-RPC error: ", m.as_str()),
            ProtocolError::MethodNotFound(m) => join2("Method not found: ", m.as_str()),
            ProtocolError::InvalidParameters(m) => join2("Invalid parameters: ", m.as_str()),
            ProtocolError::Transport(m) => join2("Transport error: ", m.as_str()),
            ProtocolError::Server(m) => join2("Server error: ", m.as_str()),
        };
        McpCliError::Protocol(m)
    }

    /// The display text of the error.
    pub fn message(&self) -> (r: String)
        ensures
            cli_message(*self) matches Some(t) ==> r@ == t,
            self is Io ==> spec_starts_with(r@, "IO error: "@),
            self is Json ==> spec_starts_with(r@, "JSON error: "@),
            self is Toml ==> spec_starts_with(r@, "TOML error: "@),
    {
        match self {
            McpCliError::Generic(m) => owned(m.as_str()),
            McpCliError::Config(m) => join2("Configuration error: ", m.as_str()),
            McpCliError::Io(e) => {
                let t = io_error_text(e);
                let r = join2("IO error: ", t.as_str());
                assert(r@.subrange(0, "IO error: "@.len() as int) =~= "IO error: "@);
                r
            },
            McpCliError::Json(e) => {
                let t = json_error_text(e);
                let r = join2("JSON error: ", t.as_str());
                assert(r@.subrange(0, "JSON error: "@.len() as int) =~= "JSON error: "@);
                r
            },
            McpCliError::Toml(e) => {
                let t = toml_error_text(e);
                let r = join2("TOML error: ", t.as_str());
                assert(r@.subrange(0, "TOML error: "@.len() as int) =~= "TOML error: "@);
                r
            },
            McpCliError::InvalidInput(m) => join2("Invalid input: ", m.as_str()),
            McpCliError::Connection(m) => join2("Connection error: ", m.as_str()),
            McpCliError::Http(m) => join2("HTTP error: ", m.as_str()),
            McpCliError::Backend(m) => join2("Backend error: ", m.as_str()),
            McpCliError::Protocol(m) => join2("MCP protocol error: ", m.as_str()),
            McpCliError::Server { name, message } => {
                let mut r = join2("Server error (", name.as_str());
                r.append("): ");
                r.append(message.as_str());
                r
            },
            McpCliError::Tool { name, message } => {
                let mut r = join2("Tool error (", name.as_str());
                r.append("): ");
                r.append(message.as_str());
                r
            },
            McpCliError::Resource { name, message } => {
                let mut r = join2("Resource error (", name.as_str());
                r.append("): ");
                r.append(message.as_str());
                r
            },
            McpCliError::Validation(m) => join2("Validation error: ", m.as_str()),
            McpCliError::Storage(m) => join2("Storage error: ", m.as_str()),
            McpCliError::Timeout(s) => {
                let d = decimal_string(*s);
                let mut r = join2("Operation timed out after ", d.as_str());
                r.append(" seconds");
                r
            },
        }
    }
}

impl ProtocolError {
    /// The display text of the error.
    pub fn message(&self) -> (r: String)
        ensures
            r@ == protocol_message(*self),
    {
        match self {
            ProtocolError::InvalidFormat(m) => join2("Invalid message format: ", m.as_str()),
            ProtocolError::InvalidRequest(m) => join2("Invalid request: ", m.as_str()),
            ProtocolError::InvalidResponse(m) => join2("Invalid response: ", m.as_str()),
            ProtocolError::MissingField { field } => join2("Missing required field: ", field.as_str()),
            ProtocolError::JsonRpc(m) => join2("Invalid JSON-RPC: ", m.as_str()),
            ProtocolError::MethodNotFound(m) => join2("Method not found: ", m.as_str()),
            ProtocolError::InvalidParameters(m) => join2("Invalid parameters: ", m.as_str()),
            ProtocolError::Transport(m) => join2("Transport error: ", m.as_str()),
            ProtocolError::Server(m) => join2("Server error: ", m.as_str()),
        }
    }
}

} // verus!
