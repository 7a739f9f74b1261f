use claw_core::cli::{DEFAULT_MODEL, EXIT_ERROR, EXIT_SUCCESS};
use claw_core::cli_error::{McpCliError, ProtocolError};
use claw_core::config::McpConfig;

#[test]
fn test_default_config() {
    let config = McpConfig::default();
    assert_eq!(config.global.timeout, 30);
    assert_eq!(config.ui.font_size, 12);
}

#[test]
fn test_default_model() {
    assert_eq!(DEFAULT_MODEL, "llama2");
}

#[test]
fn default_config_details() {
    let config = McpConfig::default();
    assert_eq!(config.global.max_connections, 10);
    assert!(config.global.api_key.is_none());
    assert!(config.servers.is_empty());
    assert_eq!(config.ui.theme, "default");
    assert!(config.ui.show_typing);
    assert!(!config.ui.compact);
    assert_eq!(config.ui.max_history, 100);
    assert!(!config.storage.save_history);
    assert!(config.storage.database_path.is_none());
    assert_eq!(EXIT_SUCCESS, 0);
    assert_eq!(EXIT_ERROR, 1);
}

#[test]
fn protocol_errors_become_protocol_cli_errors() {
    match McpCliError::from(ProtocolError::InvalidFormat("bad".to_string())) {
        McpCliError::Protocol(m) => assert_eq!(m, "Invalid format: bad"),
        other => panic!("unexpected {other:?}"),
    }
    match McpCliError::from(ProtocolError::MissingField { field: "id".to_string() }) {
        McpCliError::Protocol(m) => assert_eq!(m, "Missing field: id"),
        other => panic!("unexpected {other:?}"),
    }
    assert_eq!(
        McpCliError::from(ProtocolError::Server("down".to_string())).message(),
        "MCP protocol error: Server error: down"
    );
}

#[test]
fn error_messages() {
    assert_eq!(McpCliError::new("plain").message(), "plain");
    assert_eq!(McpCliError::config("x").message(), "Configuration error: x");
    assert_eq!(McpCliError::validation("y").message(), "Validation error: y");
    assert_eq!(McpCliError::connection("z").message(), "Connection error: z");
    assert_eq!(McpCliError::Timeout(30).message(), "Operation timed out after 30 seconds");
    assert_eq!(
        McpCliError::Server { name: "s".to_string(), message: "m".to_string() }.message(),
        "Server error (s): m"
    );
    assert_eq!(
        ProtocolError::InvalidFormat("q".to_string()).message(),
        "Invalid message format: q"
    );
    let io = McpCliError::Io(std::io::Error::new(std::io::ErrorKind::Other, "boom"));
    assert!(io.message().starts_with("IO error: "));
}
