use claw_core::api_types::{ApiError, InputContentBlock, InputMessage, MessageRequest, OutputContentBlock, ToolDefinition};
use claw_core::ollama_compat::{
    calculate_backoff, estimate_tokens, map_ollama_error, normalize_ollama_response,
    normalize_ollama_response_with_id, parse_tool_calls_from_text, OllamaCompatConfig,
};
use claw_core::permissions::{
    is_destructive_bash_command, is_read_only_bash_command, validate_tool_call_permissions,
    PermissionCheckResult,
};

fn read_file_tool() -> ToolDefinition {
    ToolDefinition {
        name: "read_file".to_string(),
        description: "Read file".to_string(),
        input_schema: "{\"type\": \"object\"}".to_string(),
    }
}

#[test]
fn test_parse_tool_calls_pattern1() {
    let text = "[TOOL_CALL] name: read_file, args: {\"path\": \"/etc/hosts\"}";
    let tools = vec![read_file_tool()];
    let calls = parse_tool_calls_from_text(text, &tools);
    assert_eq!(calls.len(), 1);
    assert_eq!(calls[0].tool_name, "read_file");
}

#[test]
fn test_permission_check_read_only() {
    let result = validate_tool_call_permissions("write_file", "{}", "read-only");
    assert!(matches!(result, PermissionCheckResult::Blocked { .. }));
}

#[test]
fn test_read_only_bash_detection() {
    assert!(is_read_only_bash_command("cat /etc/passwd"));
    assert!(!is_read_only_bash_command("rm -rf /"));
}

#[test]
fn test_destructive_bash_detection() {
    assert!(is_destructive_bash_command("rm -rf /tmp"));
    assert!(is_destructive_bash_command("sudo rm -rf /"));
    assert!(!is_destructive_bash_command("ls -la /tmp"));
}

#[test]
fn test_backoff_calculation() {
    let delay = calculate_backoff(0, 1000, 128000);
    assert_eq!(delay, 1000);

    let delay = calculate_backoff(7, 1000, 128000);
    assert!(delay >= 128000);
}

#[test]
fn backoff_doubles_up_to_the_ceiling() {
    assert_eq!(calculate_backoff(1, 1000, 128000), 2000);
    assert_eq!(calculate_backoff(3, 1000, 128000), 8000);
    assert_eq!(calculate_backoff(8, 1000, 1_000_000), 256000);
    assert_eq!(calculate_backoff(20, 1000, 1_000_000), 1_000_000);
    assert_eq!(calculate_backoff(u32::MAX, 1000, u64::MAX), u64::MAX);
    assert_eq!(calculate_backoff(40, 0, 5), 0);
    assert_eq!(calculate_backoff(5, 1000, 10000), 10000);
}

#[test]
fn backoff_never_shrinks_with_attempts() {
    let mut last = 0;
    for attempt in 0..12 {
        let d = calculate_backoff(attempt, 250, 60000);
        assert!(d >= last);
        assert!(d <= 60000);
        last = d;
    }
}

#[test]
fn parse_tool_calls_function_form_and_numbering() {
    let tools = vec![read_file_tool()];
    let text = "first [TOOL_CALL] name: read_file, args: {\"path\": \"a\"} then Tool: read_file({\"path\": \"b\"})";
    let calls = parse_tool_calls_from_text(text, &tools);
    assert_eq!(calls.len(), 2);
    assert_eq!(calls[0].tool_id, "tool_call_0");
    assert_eq!(calls[1].tool_id, "tool_call_1");
    assert_eq!(calls[0].arguments, "{\"path\": \"a\"}");
    assert_eq!(calls[1].arguments, "{\"path\": \"b\"}");
}

#[test]
fn parse_tool_calls_skips_unknown_tools_and_bad_json() {
    let tools = vec![read_file_tool()];
    let text = "[TOOL_CALL] name: write_file, args: {\"path\": \"a\"} [TOOL_CALL] name: read_file, args: {not json}";
    let calls = parse_tool_calls_from_text(text, &tools);
    assert!(calls.is_empty());
}

#[test]
fn permission_modes() {
    assert_eq!(
        validate_tool_call_permissions("read_file", "{}", "read-only"),
        PermissionCheckResult::Allowed
    );
    assert_eq!(
        validate_tool_call_permissions("bash", "{\"command\": \"ls -la\"}", "read-only"),
        PermissionCheckResult::Allowed
    );
    assert!(matches!(
        validate_tool_call_permissions("bash", "{\"command\": \"rm -rf /tmp/x\"}", "read-only"),
        PermissionCheckResult::Blocked { .. }
    ));
    assert!(matches!(
        validate_tool_call_permissions("bash", "{\"command\": \"rm -rf /tmp/x\"}", "workspace-write"),
        PermissionCheckResult::RequiresConfirmation { .. }
    ));
    assert_eq!(
        validate_tool_call_permissions("write_file", "{}", "workspace-write"),
        PermissionCheckResult::Allowed
    );
    assert_eq!(
        validate_tool_call_permissions("bash", "{\"command\": \"rm -rf /tmp/x\"}", "danger-full-access"),
        PermissionCheckResult::Allowed
    );
}

#[test]
fn read_only_allows_only_reading() {
    assert_eq!(
        validate_tool_call_permissions("delete_file", "{}", "read-only"),
        PermissionCheckResult::Blocked { reason: "Tool 'delete_file' not allowed in read-only mode".to_string() }
    );
    assert_eq!(
        validate_tool_call_permissions("grep_search", "{}", "read-only"),
        PermissionCheckResult::Allowed
    );
    assert_eq!(
        validate_tool_call_permissions("bash", "{\"command\": \"cat notes.txt; rm -rf /\"}", "read-only"),
        PermissionCheckResult::Blocked {
            reason: "Bash command 'cat notes.txt; rm -rf /' not allowed in read-only mode".to_string()
        }
    );
    assert!(!is_read_only_bash_command("cat a | tee b"));
    assert!(!is_read_only_bash_command("echo x > file"));
    assert!(!is_read_only_bash_command("ls $(rm -rf /)"));
    assert!(is_read_only_bash_command("ls -la /tmp"));
    assert_eq!(
        validate_tool_call_permissions("delete_file", "{}", "workspace-write"),
        PermissionCheckResult::Allowed
    );
}

#[test]
fn compat_config_for_ollama() {
    let c = OllamaCompatConfig::ollama();
    assert_eq!(c.provider_name, "Ollama");
}

#[test]
fn estimate_tokens_is_a_quarter_of_bytes_at_least_one() {
    assert_eq!(estimate_tokens(""), 1);
    assert_eq!(estimate_tokens("abc"), 1);
    assert_eq!(estimate_tokens("abcdefgh"), 2);
    assert_eq!(estimate_tokens(&"x".repeat(400)), 100);
}

#[test]
fn map_error_statuses() {
    match map_ollama_error(404, "missing") {
        ApiError::Api { status, error_type, retryable, body, .. } => {
            assert_eq!(status, 404);
            assert_eq!(error_type.as_deref(), Some("not_found"));
            assert!(!retryable);
            assert_eq!(body, "missing");
        }
        other => panic!("unexpected {other:?}"),
    }
    match map_ollama_error(503, "") {
        ApiError::Api { error_type, retryable, .. } => {
            assert_eq!(error_type.as_deref(), Some("server_error"));
            assert!(retryable);
        }
        other => panic!("unexpected {other:?}"),
    }
    match map_ollama_error(418, "") {
        ApiError::Api { error_type, suggested_action, .. } => {
            assert_eq!(error_type.as_deref(), Some("unknown"));
            assert!(suggested_action.is_none());
        }
        other => panic!("unexpected {other:?}"),
    }
}

fn request_with_text(text: &str) -> MessageRequest {
    MessageRequest {
        model: "llama3".to_string(),
        max_tokens: 100,
        messages: vec![InputMessage {
            role: "user".to_string(),
            content: vec![InputContentBlock::Text { text: text.to_string() }],
        }],
        system: None,
        tools: None,
        tool_choice: None,
        stream: false,
    }
}

#[test]
fn normalize_reads_the_first_choice() {
    let body = "{\"choices\":[{\"message\":{\"content\":\"hello world!\"}}]}";
    let req = request_with_text("12345678");
    let resp = normalize_ollama_response_with_id(body, &req, "abc").unwrap();
    assert_eq!(resp.id, "ollama-abc");
    assert_eq!(resp.model, "llama3");
    assert_eq!(resp.content, vec![OutputContentBlock::Text { text: "hello world!".to_string() }]);
    assert_eq!(resp.usage.input_tokens, 2);
    assert_eq!(resp.usage.output_tokens, 3);
    assert_eq!(resp.stop_reason.as_deref(), Some("end_turn"));
}

#[test]
fn normalize_without_content_gives_empty_text() {
    let req = request_with_text("");
    let resp = normalize_ollama_response("not json", &req).unwrap();
    assert!(resp.id.starts_with("ollama-"));
    assert_eq!(resp.id.len(), 7 + 36);
    assert_eq!(resp.content, vec![OutputContentBlock::Text { text: String::new() }]);
}

#[test]
fn normalize_reads_choices_only_from_an_array() {
    let req = request_with_text("");
    let resp = normalize_ollama_response(r#"{"choices":{"0":{"message":{"content":"hi"}}}}"#, &req).unwrap();
    assert_eq!(resp.content, vec![OutputContentBlock::Text { text: String::new() }]);
    let resp = normalize_ollama_response(r#"{"choices":[{"message":{"content":"hi"}}]}"#, &req).unwrap();
    assert_eq!(resp.content, vec![OutputContentBlock::Text { text: "hi".to_string() }]);
}

#[test]
fn parse_tool_calls_tag_form() {
    let tools = vec![read_file_tool()];
    let text = "<tool name=\"read_file\"><param name=\"path\">/etc/hosts</param></tool>";
    let calls = parse_tool_calls_from_text(text, &tools);
    assert_eq!(calls.len(), 1);
    assert_eq!(calls[0].tool_name, "read_file");
    assert_eq!(calls[0].tool_id, "tool_call_0");
    assert_eq!(calls[0].arguments, "{\"path\":\"/etc/hosts\"}");
    let parsed: serde_json::Value = serde_json::from_str(&calls[0].arguments).unwrap();
    let mut expected = serde_json::Map::new();
    expected.insert("path".to_string(), serde_json::Value::String("/etc/hosts".to_string()));
    assert_eq!(parsed, serde_json::Value::Object(expected));
}

#[test]
fn parse_tool_calls_tag_form_after_the_others() {
    let tools = vec![read_file_tool()];
    let text = "<tool name=\"read_file\">\n<param name=\"path\">a \"b\"</param>\n<param name=\"lines\">3</param>\n</tool> \
                <tool name=\"rm\"><param name=\"path\">x</param></tool> Tool: read_file({\"path\": \"c\"})";
    let calls = parse_tool_calls_from_text(text, &tools);
    assert_eq!(calls.len(), 2);
    assert_eq!(calls[0].arguments, "{\"path\": \"c\"}");
    assert_eq!(calls[1].tool_name, "read_file");
    assert_eq!(calls[1].tool_id, "tool_call_1");
    assert_eq!(calls[1].arguments, "{\"path\":\"a \\\"b\\\"\",\"lines\":\"3\"}");
}

#[test]
fn collected_calls_from_given_captures() {
    let tools = vec![read_file_tool()];
    let first = Some(vec![
        (Some("read_file".to_string()), Some("{\"path\":\"a\"}".to_string())),
        (Some("rm".to_string()), Some("{}".to_string())),
    ]);
    let second = None;
    let third = vec![
        (Some("read_file".to_string()), Some("not json".to_string())),
        (None, Some("{}".to_string())),
        (Some("read_file".to_string()), Some("{\"path\":\"b\"}".to_string())),
    ];
    let calls = claw_core::ollama_compat::collect_tool_calls(&first, &second, &third, &tools);
    assert_eq!(calls.len(), 2);
    assert_eq!(calls[0].arguments, "{\"path\":\"a\"}");
    assert_eq!(calls[1].tool_id, "tool_call_1");
    assert_eq!(calls[1].arguments, "{\"path\":\"b\"}");
}
