//! Verified core of the Claw tooling: the Ollama compatibility layer, the
//! chat-session server's bookkeeping, and the state of the MCP terminal client.
use vstd::prelude::*;

pub mod api_types;
pub mod backend;
pub mod chat_turn;
pub mod cli;
pub mod cli_error;
pub mod command_palette;
pub mod config;
pub mod env_file;
pub mod ids;
pub mod json;
pub mod layout;
pub mod mcp_client;
pub mod mcp_types;
pub mod messages;
pub mod ollama_compat;
pub mod ollama_provider;
pub mod ollama_wire;
pub mod permissions;
pub mod sessions;
pub mod styles;
pub mod text;
pub mod ui_state;

verus! {

} // verus!
