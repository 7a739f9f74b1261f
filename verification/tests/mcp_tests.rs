use claw_core::backend::{
    api_error, backend_from_row, backend_row, base_message_query, chat_messages, endpoint_url, get_timeout,
    message_query, ollama_chat_body, ollama_reply_text, openai_reply_text, Backend,
};
use claw_core::cli_error::McpCliError;
use claw_core::config::ServerConfig;
use claw_core::mcp_client::{ClientBuilder, ConnectTarget, McpClient, RpcId, Server, ServerStatus};
use claw_core::mcp_types::{
    error_response, notification, request, signed_decimal_string, success_response, Message, MessageRole, Tool,
};

fn server(url: Option<&str>, command: Option<&str>) -> Server {
    Server {
        config: ServerConfig {
            name: "local".to_string(),
            server_type: "stdio".to_string(),
            enabled: true,
            config_path: None,
            url: url.map(|u| u.to_string()),
            stdio_command: command.map(|c| c.to_string()),
        },
        status: ServerStatus::Disconnected,
    }
}

#[test]
fn message_constructors() {
    let m = Message::user("hi".to_string(), 5);
    assert_eq!(m.role, MessageRole::User);
    assert_eq!(m.content, "hi");
    assert_eq!(m.timestamp, 5);
    assert!(m.command.is_none());
    assert_eq!(Message::assistant("a".to_string(), 1).role, MessageRole::Assistant);
    assert_eq!(Message::system("s".to_string(), 2).role, MessageRole::System);
    assert_eq!(MessageRole::Assistant.as_str(), "assistant");
    let t = Tool::new("grep".to_string(), "search".to_string(), "{}".to_string());
    assert!(t.metadata.is_empty());
}

#[test]
fn json_rpc_builders() {
    assert_eq!(notification("ping", "{}"), "{\"jsonrpc\":\"2.0\",\"method\":\"ping\",\"params\":{}}");
    assert_eq!(request("tools/list", "[]", "7"), "{\"id\":7,\"jsonrpc\":\"2.0\",\"method\":\"tools/list\",\"params\":[]}");
    assert_eq!(success_response("true", "\"a\""), "{\"id\":\"a\",\"jsonrpc\":\"2.0\",\"result\":true}");
    assert_eq!(
        error_response(-32601, "no such method", "1", None),
        "{\"error\":{\"code\":-32601,\"data\":null,\"message\":\"no such method\"},\"id\":1,\"jsonrpc\":\"2.0\"}"
    );
    assert_eq!(
        error_response(5, "x", "1", Some("[1]")),
        "{\"error\":{\"code\":5,\"data\":[1],\"message\":\"x\"},\"id\":1,\"jsonrpc\":\"2.0\"}"
    );
    assert_eq!(signed_decimal_string(i32::MIN), "-2147483648");
    assert_eq!(signed_decimal_string(0), "0");
}

#[test]
fn client_ids_and_connection() {
    let mut c = McpClient::from_config(server(None, None));
    assert_eq!(c.next_id, 1);
    assert!(!c.is_connected);
    assert_eq!(c.connect_target(), ConnectTarget::Stdio("mcp-server".to_string()));
    let r1 = c.list_tools_request();
    let r2 = c.read_resource_request("file:///a");
    assert_eq!(r1.id, RpcId::Number(1));
    assert_eq!(r2.id, RpcId::Number(2));
    assert_eq!(r1.method, "tools/list");
    assert_eq!(r2.params.as_deref(), Some("{\"uri\":\"file:///a\"}"));
    let r3 = c.invoke_tool_request("grep", "{\"q\":1}");
    assert_eq!(r3.params.as_deref(), Some("{\"arguments\":{\"q\":1},\"name\":\"grep\"}"));
    assert!(c.connect_stdio().is_ok());
    assert!(c.is_connected);
    assert_eq!(c.server.status, ServerStatus::Connected);
    assert!(c.disconnect().is_ok());
    assert!(!c.is_connected);
    let resp = c.send_request(r3);
    assert_eq!(resp.id, RpcId::Number(3));
    assert!(resp.result.is_none());
}

#[test]
fn http_connection_outcomes() {
    let mut c = McpClient::from_config(server(Some("http://h"), Some("ignored")));
    assert_eq!(c.connect_target(), ConnectTarget::Http("http://h".to_string()));
    match c.finish_http_connect(false, "404 Not Found", "nope") {
        Err(McpCliError::Http(m)) => assert_eq!(m, "HTTP 404 Not Found: nope"),
        other => panic!("unexpected {other:?}"),
    }
    assert!(!c.is_connected);
    assert!(c.finish_http_connect(true, "200 OK", "").is_ok());
    assert!(c.is_connected);
    let c2 = McpClient::from_config(server(None, Some("my-server --stdio")));
    assert_eq!(c2.connect_target(), ConnectTarget::Stdio("my-server --stdio".to_string()));
    let built = ClientBuilder::new(server(None, None)).build().ok().unwrap();
    assert_eq!(built.next_id, 1);
}

#[test]
fn backend_defaults_and_validation() {
    let be = Backend::default();
    assert_eq!(be.model(), "llama2");
    assert_eq!(be.base_url(), "http://localhost:11434");
    assert!(be.has_api_key());
    assert!(be.validate().is_ok());
    assert_eq!(get_timeout(&be), 60);
    let open = Backend::OpenAI {
        base_url: "https://api.openai.com/v1".to_string(),
        api_key: Some("sk-test".to_string()),
        model: "gpt-4".to_string(),
        temperature_bits: 0.7f32.to_bits(),
    };
    assert!(open.validate().is_ok());
    assert_eq!(get_timeout(&open), 60);
    let bad = Backend::OpenAI { base_url: String::new(), api_key: None, model: "m".to_string(), temperature_bits: 0 };
    match bad.validate() {
        Err(McpCliError::Validation(m)) => assert_eq!(m, "base_url is required"),
        other => panic!("unexpected {other:?}"),
    }
    let no_key = Backend::OpenAI { base_url: "u".to_string(), api_key: Some(String::new()), model: "m".to_string(), temperature_bits: 0 };
    match no_key.validate() {
        Err(McpCliError::Validation(m)) => assert_eq!(m, "api_key is required"),
        other => panic!("unexpected {other:?}"),
    }
    let no_model = Backend::Ollama { base_url: None, model: String::new(), timeout: 5 };
    match no_model.validate() {
        Err(McpCliError::Validation(m)) => assert_eq!(m, "model is required"),
        other => panic!("unexpected {other:?}"),
    }
}

#[test]
fn backend_requests_and_replies() {
    let msgs = vec![Message::user("hi".to_string(), 0), Message::assistant("yo".to_string(), 1)];
    assert_eq!(
        chat_messages(&msgs),
        "[{\"content\":\"hi\",\"role\":\"user\"},{\"content\":\"yo\",\"role\":\"assistant\"}]"
    );
    assert_eq!(
        ollama_chat_body("llama2", 60, &vec![]),
        "{\"messages\":[],\"model\":\"llama2\",\"options\":{\"num_predict\":60},\"stream\":false}"
    );
    assert_eq!(endpoint_url("http://h:1//", "/api/chat"), "http://h:1/api/chat");
    assert_eq!(ollama_reply_text("{\"message\":{\"content\":\"ok\"}}").ok().unwrap(), "ok");
    assert!(ollama_reply_text("{}").is_err());
    assert!(matches!(openai_reply_text("{}"), Err(McpCliError::Validation(m)) if m == "No choices in response"));
    assert_eq!(
        openai_reply_text("{\"choices\":[{\"message\":{\"reasoning_content\":\"think\"}}]}").ok().unwrap(),
        "think"
    );
    assert!(matches!(openai_reply_text("{\"choices\":[]}"), Err(McpCliError::Validation(m)) if m == "No content in response"));
    assert!(matches!(api_error("500 Internal Server Error", "boom"), McpCliError::Validation(m) if m == "API error: 500 Internal Server Error - boom"));
}

#[test]
fn backend_rows() {
    assert_eq!(base_message_query(), "SELECT role, content, timestamp, command FROM messages");
    assert_eq!(
        message_query(true),
        "SELECT role, content, timestamp, command FROM messages WHERE role = ? ORDER BY timestamp DESC LIMIT ? OFFSET ?"
    );
    let be = Backend::Ollama { base_url: Some("http://x".to_string()), model: "m".to_string(), timeout: 9 };
    let row = backend_row(&be);
    assert_eq!(row.backend, "ollama");
    assert_eq!(row.base_url, "http://x");
    assert_eq!(row.timeout, 9);
    match backend_from_row(&row.backend, row.model.clone(), Some(row.base_url.clone()), row.timeout) {
        Backend::Ollama { base_url, model, timeout } => {
            assert_eq!(base_url.as_deref(), Some("http://x"));
            assert_eq!(model, "m");
            assert_eq!(timeout, 9);
        }
        other => panic!("unexpected {other:?}"),
    }
    match backend_from_row("other", "m".to_string(), None, 1) {
        Backend::Ollama { model, timeout, .. } => {
            assert_eq!(model, "llama2");
            assert_eq!(timeout, 60);
        }
        other => panic!("unexpected {other:?}"),
    }
    let open = Backend::OpenAI { base_url: "u".to_string(), api_key: None, model: "g".to_string(), temperature_bits: 0 };
    assert_eq!(backend_row(&open).timeout, 30);
}

#[test]
fn successive_ids_count_up() {
    let mut c = McpClient::from_config(server(None, None));
    c.next_id = 40;
    let ids: Vec<RpcId> = (0..5).map(|_| c.next_id()).collect();
    for (i, id) in ids.iter().enumerate() {
        assert_eq!(*id, RpcId::Number(40 + i as u64));
    }
    assert_eq!(c.next_id, 45);
}
