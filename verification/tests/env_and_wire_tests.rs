use claw_core::api_types::{InputContentBlock, InputMessage, MessageRequest, ToolChoice, ToolDefinition};
use claw_core::env_file::env_file_value;
use claw_core::ollama_provider::{OllamaAdapter, OllamaConfig, OllamaStream};

#[test]
fn env_file_values() {
    let text = "# comment\n\nOTHER=1\nANTHROPIC_API_KEY = \"sk-123\"\r\nANTHROPIC_API_KEY=second\n";
    assert_eq!(env_file_value(text, "ANTHROPIC_API_KEY").as_deref(), Some("sk-123"));
    assert_eq!(env_file_value(text, "OTHER").as_deref(), Some("1"));
    assert_eq!(env_file_value(text, "MISSING"), None);
    assert_eq!(env_file_value("K='v'", "K").as_deref(), Some("v"));
    assert_eq!(env_file_value("K=\"", "K").as_deref(), Some("\""));
    assert_eq!(env_file_value("#K=1", "K"), None);
    assert_eq!(env_file_value("", "K"), None);
}

fn request() -> MessageRequest {
    MessageRequest {
        model: "ollama/qwen".to_string(),
        max_tokens: 100,
        messages: vec![InputMessage {
            role: "user".to_string(),
            content: vec![
                InputContentBlock::Text { text: "hi".to_string() },
                InputContentBlock::ToolResult { tool_use_id: "t1".to_string(), content: "ok".to_string(), is_error: false },
            ],
        }],
        system: Some("be brief".to_string()),
        tools: Some(vec![ToolDefinition {
            name: "grep".to_string(),
            description: "search".to_string(),
            input_schema: "{\"type\": \"object\"}".to_string(),
        }]),
        tool_choice: Some(ToolChoice::Auto),
        stream: false,
    }
}

#[test]
fn chat_payload() {
    let a = OllamaAdapter::new(OllamaConfig::new());
    let body = a.build_json_payload(&request(), "0.7");
    let v: serde_json::Value = serde_json::from_str(&body).unwrap();
    assert_eq!(v["model"], "qwen");
    assert_eq!(v["stream"], false);
    assert_eq!(v["tool_choice"], "auto");
    assert_eq!(v["options"]["num_predict"], 100);
    assert_eq!(v["options"]["temperature"], 0.7);
    let msgs = v["messages"].as_array().unwrap();
    assert_eq!(msgs.len(), 3);
    assert_eq!(msgs[0]["role"], "system");
    assert_eq!(msgs[0]["content"], "be brief");
    assert_eq!(msgs[1]["content"], "hi");
    assert_eq!(msgs[2]["tool_call_id"], "t1");
    let tool = &v["tools"][0];
    assert_eq!(tool["type"], "function");
    assert_eq!(tool["function"]["name"], "grep");
    assert_eq!(tool["function"]["parameters"]["additionalProperties"], false);
    assert_eq!(tool["function"]["parameters"]["type"], "object");
    assert!(body.starts_with("{\"messages\":[{\"content\":\"be brief\",\"role\":\"system\"}"));
    let stream = a.build_stream_payload(&request(), "0.7");
    assert_eq!(
        stream,
        "{\"messages\":[{\"content\":\"be brief\",\"role\":\"system\"},{\"content\":\"hi\",\"role\":\"user\"},\
         {\"content\":\"ok\",\"role\":\"user\",\"tool_call_id\":\"t1\"}],\
         \"model\":\"qwen\",\"options\":{\"num_predict\":100,\"temperature\":0.7},\"stream\":true}"
    );
    assert_eq!(a.chat_url(), "http://localhost:11434/api/chat");
    assert_eq!(a.generate_url(), "http://localhost:11434/api/generate");
}

#[test]
fn stream_reads_data_lines() {
    let mut s = OllamaStream::new();
    s.push_bytes(b": keep-alive\n\n{\"id\":\"a\"}\n\n{\"id\"");
    assert_eq!(s.next_data_line().unwrap().as_deref(), Some("{\"id\":\"a\"}"));
    assert_eq!(s.next_data_line().unwrap(), None);
    s.push_bytes(b":\"b\"}\n\n");
    assert_eq!(s.next_data_line().unwrap().as_deref(), Some("{\"id\":\"b\"}"));
    s.push_bytes(b"\xff\n\n");
    assert!(s.next_data_line().is_err());
    assert!(s.finish_reason().is_none());
}

#[test]
fn invalid_utf8_frame_is_reported() {
    let mut s = OllamaStream::new();
    s.push_bytes(b"ok\xff\n\n");
    match s.next_data_line() {
        Err(claw_core::api_types::ApiError::InvalidSseFrame(m)) => {
            assert!(m.starts_with("invalid UTF-8 in SSE frame: "));
            assert!(m.contains("index 2"));
        }
        other => panic!("unexpected {other:?}"),
    }
    assert_eq!(s.buffer.len(), 5);
}

#[test]
fn provider_errors() {
    let mut config = OllamaConfig::new();
    config.model = "qwen".to_string();
    let a = OllamaAdapter::new(config);
    match a.failed_request(503, "req-1", "busy".to_string()) {
        claw_core::api_types::ApiError::Api { status, request_id, body, retryable, suggested_action, error_type, .. } => {
            assert_eq!(status, 503);
            assert_eq!(request_id.as_deref(), Some("req-1"));
            assert_eq!(body, "busy");
            assert!(retryable);
            assert!(error_type.is_none());
            assert_eq!(suggested_action.as_deref(), Some("Wait a moment and try again"));
        }
        other => panic!("unexpected {other:?}"),
    }
    let source = serde_json::from_str::<i32>("x").unwrap_err();
    let long = "b".repeat(250);
    match a.unreadable_reply(&long, source) {
        claw_core::api_types::ApiError::Json { provider, model, body_snippet, .. } => {
            assert_eq!(provider, "Ollama");
            assert_eq!(model, "qwen");
            assert_eq!(body_snippet.len(), 201);
        }
        other => panic!("unexpected {other:?}"),
    }
    let source = serde_json::from_str::<i32>("y").unwrap_err();
    match OllamaStream::unreadable_line("{bad", source) {
        claw_core::api_types::ApiError::Json { model, body_snippet, .. } => {
            assert_eq!(model, "");
            assert_eq!(body_snippet, "{bad");
        }
        other => panic!("unexpected {other:?}"),
    }
}
