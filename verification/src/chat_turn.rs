//! One chat turn of the API server: the request sent upstream, the reading of
//! the upstream event stream, and the messages exchanged over the socket.
use vstd::prelude::*;
use vstd::utf8::{encode_utf8, valid_utf8};
use crate::json::{json_quoted, json_string_at, quote, string_at};
use crate::sessions::{ChatMessage, SessionStore, assistant_step, message_view, messages_view, user_step};
use crate::text::{chars_of, find_char, first_index_of, join2, owned, seq_starts_with_at, slice_chars,
    spec_starts_with, spec_trim, str_eq, string_from_chars, trim};

verus! {

/// A message from the server to the socket client.
#[derive(Debug, Clone)]
pub enum ServerMsg {
    TextDelta { text: String },
    ToolCallStarted { id: String, name: String, input: String },
    ToolCallDone { id: String, output: String, is_error: bool },
    PermissionRequest { request_id: String, tool_name: String, input: String },
    TurnDone { input_tokens: u32, output_tokens: u32 },
    Error { message: String },
}

/// A message from the socket client.
#[derive(Debug, Clone)]
pub enum ClientMsg {
    UserTurn { text: String },
    PermissionResponse { request_id: String, decision: String },
    Cancel,
}

/// What arrives on the socket.
pub enum SocketInput {
    /// A text frame that reads as a client message.
    Message(ClientMsg),
    /// A text frame that does not.
    Unreadable,
    /// The client closed the socket.
    Close,
    /// Any other frame.
    Other,
}

/// What the server does next on a socket.
#[derive(Debug, Clone, PartialEq, Eq)]
pub enum SocketStep {
    /// Stop serving the socket.
    Stop,
    /// Wait for the next frame.
    Continue,
    /// Run a chat turn with this user text.
    RunTurn(String),
}

/// The step the server takes on an input: a close, an unreadable frame or a
/// cancel stop the socket; a user turn runs; everything else is passed over.
pub fn socket_step(input: SocketInput) -> (r: SocketStep)
    ensures
        match input {
            SocketInput::Message(ClientMsg::UserTurn { text }) => r matches SocketStep::RunTurn(t) && t@ == text@,
            SocketInput::Message(ClientMsg::PermissionResponse { .. }) => r is Continue,
            SocketInput::Message(ClientMsg::Cancel) => r is Stop,
            SocketInput::Unreadable => r is Stop,
            SocketInput::Close => r is Stop,
            SocketInput::Other => r is Continue,
        },
{
    match input {
        SocketInput::Message(ClientMsg::UserTurn { text }) => SocketStep::RunTurn(text),
        SocketInput::Message(ClientMsg::PermissionResponse { .. }) => SocketStep::Continue,
        SocketInput::Message(ClientMsg::Cancel) => SocketStep::Stop,
        SocketInput::Unreadable => SocketStep::Stop,
        SocketInput::Close => SocketStep::Stop,
        SocketInput::Other => SocketStep::Continue,
    }
}

/// The JSON text of one upstream message: `{"content":…,"role":…}`.
pub open spec fn message_json(m: (Seq<char>, Seq<char>)) -> Seq<char> {
    "{\"content\":"@ + json_quoted(m.1) + ",\"role\":"@ + json_quoted(m.0) + "}"@
}

/// The JSON texts of messages, separated by commas.
pub open spec fn messages_json(ms: Seq<(Seq<char>, Seq<char>)>) -> Seq<char>
    decreases ms.len(),
{
    if ms.len() == 0 {
        Seq::empty()
    } else if ms.len() == 1 {
        message_json(ms[0])
    } else {
        messages_json(ms.drop_last()) + ","@ + message_json(ms.last())
    }
}

/// The body of the upstream request: the model, an output budget of 8192
/// tokens, streaming, and the messages, with keys in `serde_json`'s order.
pub open spec fn request_body(model: Seq<char>, ms: Seq<(Seq<char>, Seq<char>)>) -> Seq<char> {
    "{\"max_tokens\":8192,\"messages\":["@ + messages_json(ms) + "],\"model\":"@ + json_quoted(model)
        + ",\"stream\":true}"@
}

/// The JSON text of the upstream request for `messages`.
pub fn anthropic_request_body(model: &str, messages: &Vec<ChatMessage>) -> (r: String)
    ensures
        r@ == request_body(model@, messages_view(messages@)),
{
    let mut list = String::new();
    let mut i: usize = 0;
    while i < messages.len()
        invariant
            i <= messages@.len(),
            list@ == messages_json(messages_view(messages@.take(i as int))),
        decreases messages.len() - i,
    {
        let m = &messages[i];
        let qc = quote(m.content.as_str());
        let qr = quote(m.role.as_str());
        if i > 0 {
            list.append(",");
        }
        list.append("{\"content\":");
        list.append(qc.as_str());
        list.append(",\"role\":");
        list.append(qr.as_str());
        list.append("}");
        proof {
            let prev = messages_view(messages@.take(i as int));
            let next = messages_view(messages@.take(i + 1));
            assert(next =~= prev.push(message_view(messages@[i as int])));
            assert(next.drop_last() =~= prev);
            if i == 0 {
                assert(prev.len() == 0);
            }
        }
        i = i + 1;
    }
    assert(messages@.take(messages@.len() as int) =~= messages@);
    let qm = quote(model);
    let mut body = owned("{\"max_tokens\":8192,\"messages\":[");
    body.append(list.as_str());
    body.append("],\"model\":");
    body.append(qm.as_str());
    body.append(",\"stream\":true}");
    body
}

/// What one upstream line gives the client.
pub enum TurnEvent {
    /// A piece of the assistant's text.
    TextDelta(String),
    /// The upstream message ended.
    TurnDone,
}

/// What an upstream line gives: `Some(Some(text))` for a text delta,
/// `Some(None)` for the end of the message, `None` for nothing.
pub open spec fn line_event(line: Seq<char>) -> Option<Option<Seq<char>>> {
    let t = spec_trim(line);
    if !spec_starts_with(t, "data: "@) {
        None
    } else {
        let data = t.skip(6);
        if data == "[DONE]"@ {
            None
        } else if json_string_at(data, "/type"@) == Some("content_block_delta"@) {
            if json_string_at(data, "/delta/type"@) == Some("text_delta"@) {
                match json_string_at(data, "/delta/text"@) {
                    Some(x) => Some(Some(x)),
                    None => None,
                }
            } else {
                None
            }
        } else if json_string_at(data, "/type"@) == Some("message_stop"@) {
            Some(None)
        } else {
            None
        }
    }
}

/// Reading complete lines off the front of `buffer` until one gives an event:
/// the event, if any, and what is left of the buffer.
pub open spec fn scan(buffer: Seq<char>) -> (Option<Option<Seq<char>>>, Seq<char>)
    decreases buffer.len(),
{
    match first_index_of(buffer, '\n') {
        None => (None, buffer),
        Some(p) => {
            if 0 <= p < buffer.len() {
                let line = buffer.take(p);
                let rest = buffer.skip(p + 1);
                match line_event(line) {
                    Some(e) => (Some(e), rest),
                    None => scan(rest),
                }
            } else {
                (None, buffer)
            }
        },
    }
}

/// What upstream lines mean: only a trimmed line that begins with `data: `
/// gives an event; a text delta is the `/delta/text` of a
/// `content_block_delta` event whose delta is a `text_delta`; the end of the
/// message is a `message_stop` event; `data: [DONE]` gives nothing.
pub proof fn lemma_line_events(line: Seq<char>)
    ensures
        !spec_starts_with(spec_trim(line), "data: "@) ==> line_event(line) is None,
        spec_trim(line) == "data: "@ + "[DONE]"@ ==> line_event(line) is None,
        line_event(line) matches Some(Some(x)) ==> {
            let data = spec_trim(line).skip(6);
            &&& spec_starts_with(spec_trim(line), "data: "@)
            &&& json_string_at(data, "/type"@) == Some("content_block_delta"@)
            &&& json_string_at(data, "/delta/type"@) == Some("text_delta"@)
            &&& json_string_at(data, "/delta/text"@) == Some(x)
        },
        line_event(line) matches Some(None) ==> spec_starts_with(spec_trim(line), "data: "@) && json_string_at(
            spec_trim(line).skip(6),
            "/type"@,
        ) == Some("message_stop"@),
{
    reveal_strlit("data: ");
    if spec_trim(line) == "data: "@ + "[DONE]"@ {
        assert(spec_trim(line).skip(6) =~= "[DONE]"@);
    }
}

/// Lines are read in order: a complete first line that gives an event
/// decides, and the rest stays in the buffer; a line that gives none is
/// dropped and reading goes on with the rest.
pub proof fn lemma_scan_lines(line: Seq<char>, rest: Seq<char>)
    requires
        forall|i: int| 0 <= i < line.len() ==> line[i] != '\n',
    ensures
        line_event(line) is Some ==> scan(line + "\n"@ + rest) == (line_event(line), rest),
        line_event(line) is None ==> scan(line + "\n"@ + rest) == scan(rest),
{
    reveal_strlit("\n");
    let text = line + "\n"@ + rest;
    let p = line.len() as int;
    assert(text[p] == '\n');
    assert forall|q: int| 0 <= q < p implies text[q] != '\n' by {
        assert(text[q] == line[q]);
    }
    crate::text::lemma_first_index_of(text, '\n', p);
    assert(text.take(p) =~= line);
    assert(text.skip(p + 1) =~= rest);
}

/// The view of an event.
pub open spec fn event_view(e: TurnEvent) -> Option<Seq<char>> {
    match e {
        TurnEvent::TextDelta(t) => Some(t@),
        TurnEvent::TurnDone => None,
    }
}

/// `String::from_utf8_lossy`, owned: the text of `bytes` with each invalid
/// sequence replaced by U+FFFD. The contract claims that the result is a
/// function of the bytes, named `utf8_lossy`, and, as the function's
/// documentation states, that valid UTF-8 is decoded unchanged.
#[verifier::external_body]
fn lossy_text(bytes: &[u8]) -> (r: String)
    ensures
        r@ == utf8_lossy(bytes@),
        valid_utf8(bytes@) ==> encode_utf8(r@) == bytes@,
{
    String::from_utf8_lossy(bytes).into_owned()
}

/// The text that `String::from_utf8_lossy` makes of `bytes`.
pub uninterp spec fn utf8_lossy(bytes: Seq<u8>) -> Seq<char>;

/// The reading of one upstream event stream: text not yet split into lines,
/// and the assistant's text so far.
pub struct TurnStream {
    pub buffer: Vec<char>,
    pub full_text: String,
}

impl TurnStream {
    pub fn new() -> (s: Self)
        ensures
            s.buffer@.len() == 0,
            s.full_text@.len() == 0,
    {
        TurnStream { buffer: Vec::new(), full_text: String::new() }
    }

    /// Take in a chunk of the body.
    pub fn push_chunk(&mut self, chunk: &[u8])
        ensures
            final(self).buffer@ == old(self).buffer@ + utf8_lossy(chunk@),
            final(self).full_text@ == old(self).full_text@,
    {
        let text = lossy_text(chunk);
        let cs = chars_of(text.as_str());
        let mut i: usize = 0;
        let ghost start = self.buffer@;
        while i < cs.len()
            invariant
                i <= cs@.len(),
                cs@ == utf8_lossy(chunk@),
                self.buffer@ == start + cs@.take(i as int),
                self.full_text@ == old(self).full_text@,
                start == old(self).buffer@,
            decreases cs.len() - i,
        {
            self.buffer.push(cs[i]);
            assert(cs@.take(i + 1) =~= cs@.take(i as int).push(cs@[i as int]));
            i = i + 1;
        }
        assert(cs@.take(cs@.len() as int) =~= cs@);
    }

    /// The event of one line.
    fn line_event_of(line: &[char]) -> (r: Option<TurnEvent>)
        ensures
            match line_event(line@) {
                None => r is None,
                Some(e) => r matches Some(ev) && event_view(ev) == e,
            },
    {
        let t = trim(line);
        let prefix = chars_of("data: ");
        proof {
            reveal_strlit("data: ");
        }
        if !seq_starts_with_at(t.as_slice(), 0, prefix.as_slice()) {
            assert(!spec_starts_with(spec_trim(line@), "data: "@)) by {
                if spec_starts_with(spec_trim(line@), "data: "@) {
                    assert(t@.subrange(0, 6) =~= "data: "@);
                }
            }
            return None;
        }
        assert(spec_starts_with(spec_trim(line@), "data: "@)) by {
            assert(t@.subrange(0, prefix@.len() as int) =~= "data: "@);
        }
        let data_chars = slice_chars(t.as_slice(), 6, t.len());
        assert(data_chars@ =~= t@.skip(6));
        let data = string_from_chars(data_chars.as_slice());
        if str_eq(data.as_str(), "[DONE]") {
            return None;
        }
        let ty = string_at(data.as_str(), "/type");
        let is_delta = match &ty {
            Some(v) => str_eq(v.as_str(), "content_block_delta"),
            None => false,
        };
        if is_delta {
            let dty = string_at(data.as_str(), "/delta/type");
            let is_text = match &dty {
                Some(v) => str_eq(v.as_str(), "text_delta"),
                None => false,
            };
            if is_text {
                match string_at(data.as_str(), "/delta/text") {
                    Some(x) => Some(TurnEvent::TextDelta(x)),
                    None => None,
                }
            } else {
                None
            }
        } else {
            let is_stop = match &ty {
                Some(v) => str_eq(v.as_str(), "message_stop"),
                None => false,
            };
            if is_stop {
                Some(TurnEvent::TurnDone)
            } else {
                None
            }
        }
    }

    /// Read lines off the buffer until one gives an event; a text delta is
    /// added to the assistant's text. `None` when no complete line is left
    /// that gives one.
    pub fn next_event(&mut self) -> (r: Option<TurnEvent>)
        ensures
            ({
                let (e, rest) = scan(old(self).buffer@);
                &&& final(self).buffer@ == rest
                &&& match e {
                    None => r is None,
                    Some(ev) => r matches Some(x) && event_view(x) == ev,
                }
                &&& final(self).full_text@ == match e {
                    Some(Some(t)) => old(self).full_text@ + t,
                    _ => old(self).full_text@,
                }
            }),
    {
        loop
            invariant
                scan(self.buffer@) == scan(old(self).buffer@),
                self.full_text@ == old(self).full_text@,
            decreases self.buffer@.len(),
        {
            match find_char(self.buffer.as_slice(), '\n') {
                None => {
                    return None;
                },
                Some(p) => {
                    assert(p < self.buffer.len());
                    let line = slice_chars(self.buffer.as_slice(), 0, p);
                    let rest = slice_chars(self.buffer.as_slice(), p + 1, self.buffer.len());
                    assert(line@ =~= self.buffer@.take(p as int));
                    assert(rest@ =~= self.buffer@.skip(p + 1));
                    let ev = Self::line_event_of(line.as_slice());
                    self.buffer = rest;
                    match ev {
                        Some(TurnEvent::TextDelta(t)) => {
                            self.full_text.append(t.as_str());
                            return Some(TurnEvent::TextDelta(t));
                        },
                        Some(TurnEvent::TurnDone) => {
                            return Some(TurnEvent::TurnDone);
                        },
                        None => {},
                    }
                },
            }
        }
    }
}

/// The server's state: the sessions, the upstream key and the model asked for.
#[derive(Debug, Clone)]
pub struct AppState {
    pub sessions: SessionStore,
    pub api_key: String,
    pub model: String,
}

impl AppState {
    /// A server with no sessions that asks `model` upstream.
    pub fn new(api_key: String, model: String) -> (s: Self)
        ensures
            s.sessions.wf(),
            s.sessions.sessions@.len() == 0,
            s.api_key@ == api_key@,
            s.model@ == model@,
    {
        AppState { sessions: SessionStore::new(), api_key, model }
    }

    /// The first half of a user turn: store the user's message in the session
    /// (created at `now_ms` when new) and give the upstream request body for
    /// the session's messages.
    pub fn begin_user_turn(&mut self, session_id: &str, text: String, now_ms: u64) -> (body: String)
        requires
            old(self).sessions.wf(),
        ensures
            final(self).sessions.wf(),
            final(self).model@ == old(self).model@,
            final(self).api_key@ == old(self).api_key@,
            final(self).sessions.get(session_id@) == Some(
                user_step(old(self).sessions.get(session_id@), session_id@, text@, now_ms),
            ),
            body@ == request_body(
                old(self).model@,
                user_step(old(self).sessions.get(session_id@), session_id@, text@, now_ms).1,
            ),
            forall|other: Seq<char>| other != session_id@ ==> #[trigger] final(self).sessions.get(other)
                == old(self).sessions.get(other),
    {
        let messages = self.sessions.record_user_message(session_id, text, now_ms);
        anthropic_request_body(self.model.as_str(), &messages)
    }

    /// The second half of a user turn: store the assistant's text.
    pub fn finish_user_turn(&mut self, session_id: &str, full_text: String)
        requires
            old(self).sessions.wf(),
        ensures
            final(self).sessions.wf(),
            final(self).model@ == old(self).model@,
            final(self).api_key@ == old(self).api_key@,
            final(self).sessions.get(session_id@) == assistant_step(old(self).sessions.get(session_id@), full_text@),
            forall|other: Seq<char>| other != session_id@ ==> #[trigger] final(self).sessions.get(other)
                == old(self).sessions.get(other),
    {
        self.sessions.record_assistant_message(session_id, full_text);
    }
}

/// The error message for an upstream answer with a failing status.
pub fn upstream_status_message(status: &str, body: &str) -> (r: String)
    ensures
        r@ == "Anthropic API "@ + status@ + ": "@ + body@,
{
    let mut r = join2("Anthropic API ", status);
    r.append(": ");
    r.append(body);
    r
}

/// The error message for a request that could not be sent.
pub fn request_failed_message(reason: &str) -> (r: String)
    ensures
        r@ == "request failed: "@ + reason@,
{
    join2("request failed: ", reason)
}

} // verus!
