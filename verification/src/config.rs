//! Configuration of the MCP command-line client and its defaults.
use vstd::prelude::*;
use crate::text::owned;

verus! {

/// `std::path::PathBuf`, carried as it came.
#[verifier::external_type_specification]
#[verifier::external_body]
pub struct ExPathBuf(std::path::PathBuf);

/// A configured MCP server.
#[derive(Debug, Clone)]
pub struct ServerConfig {
    pub name: String,
    /// Transport kind of the server, such as `stdio` or `http`.
    pub server_type: String,
    pub enabled: bool,
    pub config_path: Option<String>,
    pub url: Option<String>,
    pub stdio_command: Option<String>,
}

/// Global settings.
#[derive(Debug, Clone)]
pub struct GlobalConfig {
    pub api_endpoint: Option<String>,
    pub api_key: Option<String>,
    /// Default response timeout in seconds.
    pub timeout: u64,
    pub max_connections: usize,
}

impl Default for GlobalConfig {
    fn default() -> (c: Self)
        ensures
            c.api_endpoint is None,
            c.api_key is None,
            c.timeout == 30,
            c.max_connections == 10,
    {
        Self { api_endpoint: None, api_key: None, timeout: 30, max_connections: 10 }
    }
}

/// Settings of the terminal interface.
#[derive(Debug, Clone)]
pub struct UiConfig {
    pub theme: String,
    pub font_size: usize,
    pub show_typing: bool,
    pub compact: bool,
    pub max_history: usize,
}

impl Default for UiConfig {
    fn default() -> (c: Self)
        ensures
            c.theme@ == "default"@,
            c.font_size == 12,
            c.show_typing,
            !c.compact,
            c.max_history == 100,
    {
        Self {
            theme: owned("default"),
            font_size: 12,
            show_typing: true,
            compact: false,
            max_history: 100,
        }
    }
}

/// Settings of the local store.
#[derive(Debug, Clone)]
pub struct StorageConfig {
    pub database_path: Option<std::path::PathBuf>,
    pub save_history: bool,
    pub log_path: Option<std::path::PathBuf>,
}

impl Default for StorageConfig {
    fn default() -> (c: Self)
        ensures
            c.database_path is None,
            !c.save_history,
            c.log_path is None,
    {
        Self { database_path: None, save_history: false, log_path: None }
    }
}

/// The whole configuration.
#[derive(Debug, Clone)]
pub struct McpConfig {
    pub global: GlobalConfig,
    pub servers: Vec<ServerConfig>,
    pub ui: UiConfig,
    pub storage: StorageConfig,
}

impl Default for McpConfig {
    fn default() -> (c: Self)
        ensures
            c.global.api_endpoint is None,
            c.global.api_key is None,
            c.global.timeout == 30,
            c.global.max_connections == 10,
            c.servers@.len() == 0,
            c.ui.theme@ == "default"@,
            c.ui.font_size == 12,
            c.ui.show_typing,
            !c.ui.compact,
            c.ui.max_history == 100,
            c.storage.database_path is None,
            !c.storage.save_history,
            c.storage.log_path is None,
    {
        Self {
            global: GlobalConfig::default(),
            servers: Vec::new(),
            ui: UiConfig::default(),
            storage: StorageConfig::default(),
        }
    }
}

/// `std::io::Error`, carried as it came.
#[verifier::external_type_specification]
#[verifier::external_body]
pub struct ExIoError(std::io::Error);

/// Errors of loading or saving the configuration.
#[derive(Debug)]
pub enum ConfigError {
    Io(std::io::Error),
    Json(serde_json::Error),
    MissingFile { path: std::path::PathBuf },
    Invalid(String),
}

} // verus!
