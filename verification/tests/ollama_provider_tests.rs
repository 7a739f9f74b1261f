use claw_core::api_types::{ApiError, InputContentBlock, InputMessage, MessageRequest, OutputContentBlock, ToolChoice};
use claw_core::ollama_provider::{
    check_request_body_size, estimate_request_body_size, next_sse_frame, normalize_finish_reason, sse_frame_step,
    truncate_body_snippet, ChatChoice, ChatCompletionResponse, ChatMessage, FrameStep, OllamaAdapter,
    OllamaConfig, OpenAiUsage, ResponseToolCall, ResponseToolFunction,
};

#[test]
fn test_truncate_body_snippet() {
    let body = "a".repeat(300) + "X";
    let snippet = truncate_body_snippet(&body, 200);
    assert_eq!(snippet.len(), 201); // 200 chars + marker
    assert_eq!(snippet.chars().count(), 201);
}

#[test]
fn truncate_keeps_short_bodies() {
    assert_eq!(truncate_body_snippet("héllo", 5), "héllo");
    assert_eq!(truncate_body_snippet("héllo", 2), "hé.");
    assert_eq!(truncate_body_snippet("", 0), "");
}

#[test]
fn config_defaults() {
    let c = OllamaConfig::new();
    assert_eq!(c.base_url, "http://localhost:11434");
    assert_eq!(c.model, "");
    assert_eq!(c.max_tokens, 4096);
    assert_eq!(c.max_request_body_bytes, 512 * 1024);
}

#[test]
fn config_from_environment_values() {
    let c = OllamaConfig::from_env_values(Some("http://host:1//".to_string()), None, None).unwrap();
    assert_eq!(c.base_url, "http://host:1");
    assert_eq!(c.model, "qwen2.5-coder:7b");
    assert_eq!(c.max_tokens, 4096);

    let c = OllamaConfig::from_env_values(None, Some("mistral-large".to_string()), Some("nope".to_string())).unwrap();
    assert_eq!(c.base_url, "http://localhost:11434");
    assert_eq!(c.max_tokens, 32768);

    let c = OllamaConfig::from_env_values(None, Some("gemma-12b".to_string()), Some("2048".to_string())).unwrap();
    assert_eq!(c.max_tokens, 2048);
}

#[test]
fn strip_model_prefix_drops_the_route() {
    let a = OllamaAdapter::new(OllamaConfig::new());
    assert_eq!(a.strip_model_prefix("ollama/llama3"), "llama3");
    assert_eq!(a.strip_model_prefix("a/b/c"), "b/c");
    assert_eq!(a.strip_model_prefix("llama3"), "llama3");
}

#[test]
fn tool_choice_wire_form() {
    let a = OllamaAdapter::new(OllamaConfig::new());
    assert_eq!(a.openai_tool_choice(&ToolChoice::Auto), "\"auto\"");
    assert_eq!(a.openai_tool_choice(&ToolChoice::Required), "\"required\"");
    assert_eq!(
        a.openai_tool_choice(&ToolChoice::Specific("grep".to_string())),
        "{\"type\":\"function\",\"function\":{\"name\":\"grep\"}}"
    );
}

#[test]
fn finish_reason_is_kept() {
    assert_eq!(normalize_finish_reason("stop").as_deref(), Some("stop"));
    assert_eq!(normalize_finish_reason("length").as_deref(), Some("length"));
}

fn response(content: Option<&str>, calls: Vec<(&str, &str, &str)>, model: &str) -> ChatCompletionResponse {
    ChatCompletionResponse {
        id: "chat-1".to_string(),
        model: model.to_string(),
        choices: vec![ChatChoice {
            message: ChatMessage {
                role: "assistant".to_string(),
                content: content.map(|c| c.to_string()),
                tool_calls: calls
                    .into_iter()
                    .map(|(id, name, args)| ResponseToolCall {
                        id: id.to_string(),
                        function: ResponseToolFunction { name: name.to_string(), arguments: args.to_string() },
                    })
                    .collect(),
            },
            finish_reason: Some("tool_calls".to_string()),
        }],
        usage: Some(OpenAiUsage { prompt_tokens: 7, completion_tokens: 3 }),
    }
}

#[test]
fn normalize_response_builds_blocks() {
    let a = OllamaAdapter::new(OllamaConfig::new());
    let r = a
        .normalize_response("fallback", response(Some("hi"), vec![("c1", "grep", "{\"q\":1}"), ("c2", "ls", "oops")], ""))
        .unwrap();
    assert_eq!(r.model, "fallback");
    assert_eq!(r.kind, "message");
    assert_eq!(r.usage.input_tokens, 7);
    assert_eq!(r.usage.output_tokens, 3);
    assert_eq!(r.stop_reason.as_deref(), Some("tool_calls"));
    assert_eq!(r.content.len(), 3);
    assert_eq!(r.content[0], OutputContentBlock::Text { text: "hi".to_string() });
    assert_eq!(
        r.content[1],
        OutputContentBlock::ToolUse { id: "c1".to_string(), name: "grep".to_string(), input: "{\"q\":1}".to_string() }
    );
    assert_eq!(
        r.content[2],
        OutputContentBlock::ToolUse { id: "c2".to_string(), name: "ls".to_string(), input: "{\"raw\":\"oops\"}".to_string() }
    );
}

#[test]
fn normalize_response_skips_empty_text_and_keeps_model() {
    let a = OllamaAdapter::new(OllamaConfig::new());
    let r = a.normalize_response("fallback", response(Some(""), vec![], "served")).unwrap();
    assert_eq!(r.model, "served");
    assert!(r.content.is_empty());
}

#[test]
fn normalize_response_without_choices_fails() {
    let a = OllamaAdapter::new(OllamaConfig::new());
    let mut resp = response(None, vec![], "m");
    resp.choices.clear();
    match a.normalize_response("m", resp) {
        Err(ApiError::InvalidSseFrame(m)) => assert_eq!(m, "chat completion response missing choices"),
        other => panic!("unexpected {other:?}"),
    }
}

#[test]
fn sse_frames() {
    assert_eq!(next_sse_frame(&b"abc".to_vec()), None);
    assert_eq!(next_sse_frame(&b"ab\n\ncd\n\n".to_vec()), Some(4));
    match sse_frame_step(&b"{\"id\":1}\n\nrest".to_vec()) {
        FrameStep::Data { end, line } => {
            assert_eq!(end, 10);
            assert_eq!(line, "{\"id\":1}");
        }
        _ => panic!("expected data"),
    }
    assert!(matches!(sse_frame_step(&b": ping\n\n".to_vec()), FrameStep::Skip { end: 8 }));
    assert!(matches!(sse_frame_step(&b"\xff\xfe\n\n".to_vec()), FrameStep::InvalidUtf8 { end: 4 }));
    assert!(matches!(sse_frame_step(&b"partial".to_vec()), FrameStep::Incomplete));
}

#[test]
fn body_size_check() {
    let request = MessageRequest {
        model: "m".to_string(),
        max_tokens: 10,
        messages: vec![],
        system: None,
        tools: None,
        tool_choice: None,
        stream: false,
    };
    let mut config = OllamaConfig::new();
    config.model = "qwen".to_string();
    assert!(check_request_body_size(&request, &config).is_ok());
    config.max_request_body_bytes = 10;
    match check_request_body_size(&request, &config) {
        Err(ApiError::RequestBodySizeExceeded { estimated_bytes, max_bytes, provider }) => {
            assert_eq!(estimated_bytes, "{\"messages\":[],\"model\":\"qwen\",\"stream\":false}".len());
            assert_eq!(max_bytes, 10);
            assert_eq!(provider, "Ollama");
        }
        other => panic!("unexpected {other:?}"),
    }
}

#[test]
fn body_size_grows_with_the_messages() {
    let mut request = MessageRequest {
        model: "m".to_string(),
        max_tokens: 10,
        messages: vec![],
        system: None,
        tools: None,
        tool_choice: None,
        stream: true,
    };
    let mut config = OllamaConfig::new();
    config.model = "qwen".to_string();
    let empty = estimate_request_body_size(&request, &config);
    assert_eq!(empty, "{\"messages\":[],\"model\":\"qwen\",\"stream\":true}".len());
    request.messages.push(InputMessage {
        role: "user".to_string(),
        content: vec![InputContentBlock::Text { text: "hello there".to_string() }],
    });
    let one = estimate_request_body_size(&request, &config);
    assert_eq!(
        one,
        "{\"messages\":[{\"content\":\"hello there\",\"role\":\"user\"}],\"model\":\"qwen\",\"stream\":true}".len()
    );
    assert!(one >= empty + "hello there".len());
}
