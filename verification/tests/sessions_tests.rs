use claw_core::chat_turn::{
    anthropic_request_body, request_failed_message, socket_step, upstream_status_message, AppState,
    ClientMsg, SocketInput, SocketStep, TurnEvent, TurnStream,
};
use claw_core::sessions::{epoch_millis, AppError, ChatMessage, SessionStore};

#[test]
fn created_session_can_be_read_back() {
    let mut store = SessionStore::new();
    let created = store.create_session(1_000);
    assert_eq!(created.session_id.len(), 36);
    assert_eq!(created.created_at_ms, 1_000);
    let detail = store.get_session(&created.session_id).ok().unwrap();
    assert_eq!(detail.session_id, created.session_id);
    assert!(detail.messages.is_empty());
}

#[test]
fn missing_session_is_not_found() {
    let store = SessionStore::new();
    match store.get_session("nope") {
        Err(AppError::NotFound(m)) => assert_eq!(m, "session nope not found"),
        Ok(_) => panic!("found a session that was never created"),
    }
}

#[test]
fn listing_is_newest_first() {
    let mut store = SessionStore::new();
    store.create_session_with_id("a".to_string(), 10);
    store.create_session_with_id("b".to_string(), 30);
    store.create_session_with_id("c".to_string(), 20);
    store.record_user_message("c", "hi".to_string(), 99);
    let list = store.list_sessions();
    let ids: Vec<&str> = list.iter().map(|s| s.session_id.as_str()).collect();
    assert_eq!(ids, vec!["b", "c", "a"]);
    assert_eq!(list[1].message_count, 1);
    assert_eq!(list[0].message_count, 0);
}

#[test]
fn insert_replaces_a_session_with_the_same_id() {
    let mut store = SessionStore::new();
    store.create_session_with_id("a".to_string(), 10);
    store.create_session_with_id("a".to_string(), 50);
    let list = store.list_sessions();
    assert_eq!(list.len(), 1);
    assert_eq!(list[0].created_at_ms, 50);
}

#[test]
fn user_and_assistant_messages_are_recorded() {
    let mut store = SessionStore::new();
    let snapshot = store.record_user_message("s1", "hello".to_string(), 5);
    assert_eq!(snapshot.len(), 1);
    assert_eq!(snapshot[0].role, "user");
    assert_eq!(snapshot[0].content, "hello");
    store.record_assistant_message("s1", "hi there".to_string());
    store.record_assistant_message("unknown", "ignored".to_string());
    let detail = store.get_session("s1").ok().unwrap();
    assert_eq!(detail.messages.len(), 2);
    assert_eq!(detail.messages[1].role, "assistant");
    assert_eq!(detail.messages[1].content, "hi there");
    assert!(store.get_session("unknown").is_err());
    assert_eq!(store.list_sessions()[0].created_at_ms, 5);
}

#[test]
fn epoch_millis_combines_parts() {
    assert_eq!(epoch_millis(1_700_000_000, 123), 1_700_000_000_123);
    assert_eq!(epoch_millis(0, 0), 0);
}

#[test]
fn request_body_has_sorted_keys() {
    let msgs = vec![
        ChatMessage { role: "user".to_string(), content: "hi \"you\"".to_string() },
        ChatMessage { role: "assistant".to_string(), content: "yo".to_string() },
    ];
    let body = anthropic_request_body("sonnet", &msgs);
    assert_eq!(
        body,
        "{\"max_tokens\":8192,\"messages\":[{\"content\":\"hi \\\"you\\\"\",\"role\":\"user\"},{\"content\":\"yo\",\"role\":\"assistant\"}],\"model\":\"sonnet\",\"stream\":true}"
    );
    let empty = anthropic_request_body("m", &Vec::new());
    assert_eq!(empty, "{\"max_tokens\":8192,\"messages\":[],\"model\":\"m\",\"stream\":true}");
}

#[test]
fn turn_stream_reads_text_deltas_and_stop() {
    let mut s = TurnStream::new();
    s.push_chunk(b"event: x\ndata: {\"type\":\"content_block_delta\",\"delta\":{\"type\":\"text_delta\",\"text\":\"He\"}}\n");
    s.push_chunk(b"data: [DONE]\ndata: {\"type\":\"content_block_delta\",\"delta\":{\"type\":\"text_delta\",\"text\":\"llo\"}}\n");
    s.push_chunk(b"data: {\"type\":\"message_stop\"}\ndata: {\"type\":");
    match s.next_event() {
        Some(TurnEvent::TextDelta(t)) => assert_eq!(t, "He"),
        _ => panic!("expected text"),
    }
    match s.next_event() {
        Some(TurnEvent::TextDelta(t)) => assert_eq!(t, "llo"),
        _ => panic!("expected text"),
    }
    assert!(matches!(s.next_event(), Some(TurnEvent::TurnDone)));
    assert!(s.next_event().is_none());
    assert_eq!(s.full_text, "Hello");
}

#[test]
fn socket_steps() {
    assert_eq!(
        socket_step(SocketInput::Message(ClientMsg::UserTurn { text: "q".to_string() })),
        SocketStep::RunTurn("q".to_string())
    );
    assert_eq!(socket_step(SocketInput::Message(ClientMsg::Cancel)), SocketStep::Stop);
    assert_eq!(
        socket_step(SocketInput::Message(ClientMsg::PermissionResponse {
            request_id: "r".to_string(),
            decision: "allow".to_string()
        })),
        SocketStep::Continue
    );
    assert_eq!(socket_step(SocketInput::Unreadable), SocketStep::Stop);
    assert_eq!(socket_step(SocketInput::Close), SocketStep::Stop);
    assert_eq!(socket_step(SocketInput::Other), SocketStep::Continue);
}

#[test]
fn a_turn_stores_both_sides() {
    let mut state = AppState::new("key".to_string(), "sonnet-4-6".to_string());
    assert_eq!(state.model, "sonnet-4-6");
    let body = state.begin_user_turn("s", "ping".to_string(), 7);
    assert!(body.contains("\"messages\":[{\"content\":\"ping\",\"role\":\"user\"}]"));
    state.finish_user_turn("s", "pong".to_string());
    let detail = state.sessions.get_session("s").ok().unwrap();
    assert_eq!(detail.messages.len(), 2);
    assert_eq!(detail.messages[1].content, "pong");
    assert_eq!(upstream_status_message("400 Bad Request", "oops"), "Anthropic API 400 Bad Request: oops");
    assert_eq!(request_failed_message("timeout"), "request failed: timeout");
}
