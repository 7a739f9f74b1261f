//! What the Ollama provider sends: the request payloads, and the errors made
//! of failed requests and unreadable replies.
use vstd::prelude::*;
use crate::api_types::{ApiError, InputContentBlock, InputMessage, MessageRequest, ToolDefinition};
use crate::json::{is_json_object, is_json_value, json_quoted, parses_as_json, parses_as_json_object, quote};
use crate::ollama_provider::{OllamaAdapter, spec_strip_model_prefix, spec_truncate_snippet, tool_choice_json,
    truncate_body_snippet};
use crate::text::{decimal, decimal_string, join2, owned};

verus! {

/// Items separated by commas.
pub open spec fn comma_joined(items: Seq<Seq<char>>) -> Seq<char>
    decreases items.len(),
{
    if items.len() == 0 {
        Seq::empty()
    } else if items.len() == 1 {
        items[0]
    } else {
        comma_joined(items.drop_last()) + ","@ + items.last()
    }
}

/// The texts of strings.
pub open spec fn texts(v: Seq<String>) -> Seq<Seq<char>> {
    v.map_values(|s: String| s@)
}

/// The items separated by commas.
pub fn join_commas(items: &Vec<String>) -> (r: String)
    ensures
        r@ == comma_joined(texts(items@)),
{
    let mut r = String::new();
    let mut i: usize = 0;
    while i < items.len()
        invariant
            i <= items@.len(),
            r@ == comma_joined(texts(items@.take(i as int))),
        decreases items.len() - i,
    {
        if i > 0 {
            r.append(",");
        }
        r.append(items[i].as_str());
        proof {
            let next = texts(items@.take(i + 1));
            assert(next.drop_last() =~= texts(items@.take(i as int)));
            assert(next.last() == items@[i as int]@);
        }
        i = i + 1;
    }
    assert(items@.take(items@.len() as int) =~= items@);
    r
}

/// The wire messages of one block of a message from `role`.
pub open spec fn block_wire(role: Seq<char>, b: InputContentBlock) -> Seq<char> {
    match b {
        InputContentBlock::Text { text } => "{\"content\":"@ + json_quoted(text@) + ",\"role\":"@ + json_quoted(role)
            + "}"@,
        InputContentBlock::ToolResult { tool_use_id, content, .. } => "{\"content\":"@ + json_quoted(content@)
            + ",\"role\":"@ + json_quoted(role) + ",\"tool_call_id\":"@ + json_quoted(tool_use_id@) + "}"@,
        InputContentBlock::ToolUse { id, name, input } => "{\"content\":null,\"role\":"@ + json_quoted(role)
            + ",\"tool_calls\":[{\"function\":{\"arguments\":"@ + json_quoted(input@) + ",\"name\":"@
            + json_quoted(name@) + "},\"id\":"@ + json_quoted(id@) + ",\"type\":\"function\"}]}"@,
    }
}

/// The wire messages of a message: one per block.
pub open spec fn message_wire(m: InputMessage) -> Seq<Seq<char>> {
    m.content@.map_values(|b: InputContentBlock| block_wire(m.role@, b))
}

/// The wire messages of all messages, in order.
pub open spec fn messages_wire(ms: Seq<InputMessage>) -> Seq<Seq<char>>
    decreases ms.len(),
{
    if ms.len() == 0 {
        Seq::empty()
    } else {
        messages_wire(ms.drop_last()) + message_wire(ms.last())
    }
}

/// The system message, when there is a non-empty system prompt.
pub open spec fn system_wire(system: Option<String>) -> Seq<Seq<char>> {
    match system {
        Some(s) => if s@.len() > 0 {
            seq!["{\"content\":"@ + json_quoted(s@) + ",\"role\":\"system\"}"@]
        } else {
            Seq::empty()
        },
        None => Seq::empty(),
    }
}

/// Whether `text` parses as a JSON object with a member `key`, as
/// `serde_json::Map::contains_key` decides it.
pub uninterp spec fn json_has_member(text: Seq<char>, key: Seq<char>) -> bool;

/// The compact text `serde_json` writes for the object `text` parses to with
/// the member `key` set to the JSON boolean `flag`.
pub uninterp spec fn json_with_member(text: Seq<char>, key: Seq<char>, flag: bool) -> Seq<char>;

/// The compact text `serde_json` writes for the value `text` parses to.
pub uninterp spec fn json_canonical(text: Seq<char>) -> Seq<char>;

/// `serde_json::from_str` into an object, then `Map::contains_key`; false
/// when the text is no object. The contract claims that the answer is a
/// function of the text and the key, named `json_has_member`.
#[verifier::external_body]
fn has_member(text: &str, key: &str) -> (r: bool)
    ensures
        r == json_has_member(text@, key@),
{
    match serde_json::from_str::<serde_json::Map<String, serde_json::Value>>(text) {
        Ok(m) => m.contains_key(key),
        Err(_) => false,
    }
}

/// `serde_json::from_str` of an object, `Map::insert` of the boolean `flag`
/// under `key`, then `serde_json::to_string`. The contract claims that the
/// result is a function of its arguments, named `json_with_member`.
#[verifier::external_body]
fn with_member(text: &str, key: &str, flag: bool) -> (r: String)
    requires
        is_json_object(text@),
    ensures
        r@ == json_with_member(text@, key@, flag),
{
    let mut m: serde_json::Map<String, serde_json::Value> = serde_json::from_str(text).unwrap_or_default();
    m.insert(key.to_string(), serde_json::Value::Bool(flag));
    serde_json::to_string(&m).unwrap_or_default()
}

/// `serde_json::from_str::<Value>` then `serde_json::to_string`. The
/// contract claims that the result is a function of the text, named
/// `json_canonical`.
#[verifier::external_body]
fn canonical(text: &str) -> (r: String)
    requires
        is_json_value(text@),
    ensures
        r@ == json_canonical(text@),
{
    let v: serde_json::Value = serde_json::from_str(text).unwrap_or_default();
    serde_json::to_string(&v).unwrap_or_default()
}

/// The parameters' schema as sent: an object without `additionalProperties`
/// gets `"additionalProperties": false`; any other JSON value is sent as
/// `serde_json` writes it; a text that is not JSON is sent as it is.
pub open spec fn closed_schema(schema: Seq<char>) -> Seq<char> {
    if is_json_object(schema) && !json_has_member(schema, "additionalProperties"@) {
        json_with_member(schema, "additionalProperties"@, false)
    } else if is_json_value(schema) {
        json_canonical(schema)
    } else {
        schema
    }
}

/// The parameters' schema as sent.
fn close_schema(schema: &str) -> (r: String)
    ensures
        r@ == closed_schema(schema@),
{
    if parses_as_json_object(schema) && !has_member(schema, "additionalProperties") {
        with_member(schema, "additionalProperties", false)
    } else if parses_as_json(schema) {
        canonical(schema)
    } else {
        owned(schema)
    }
}

/// The wire form of a tool definition.
pub open spec fn tool_wire(t: ToolDefinition) -> Seq<char> {
    "{\"function\":{\"description\":"@ + json_quoted(t.description@) + ",\"name\":"@ + json_quoted(t.name@)
        + ",\"parameters\":"@ + closed_schema(t.input_schema@) + "},\"type\":\"function\"}"@
}

/// The sampling options: the output budget and the temperature, given as
/// its JSON number text.
pub open spec fn options_wire(max_tokens: u32, temperature: Seq<char>) -> Seq<char> {
    "{\"num_predict\":"@ + decimal(max_tokens as nat) + ",\"temperature\":"@ + temperature + "}"@
}

/// The chat payload: messages, bare model id, options, stream flag, and the
/// tool choice and the tools when given, with keys in `serde_json`'s order.
pub open spec fn chat_payload(request: MessageRequest, temperature: Seq<char>) -> Seq<char> {
    "{\"messages\":["@ + comma_joined(system_wire(request.system) + messages_wire(request.messages@))
        + "],\"model\":"@ + json_quoted(spec_strip_model_prefix(request.model@)) + ",\"options\":"@
        + options_wire(request.max_tokens, temperature) + ",\"stream\":"@ + (if request.stream {
        "true"@
    } else {
        "false"@
    }) + match request.tool_choice {
        Some(c) => ",\"tool_choice\":"@ + tool_choice_json(c),
        None => Seq::empty(),
    } + match request.tools {
        Some(ts) => ",\"tools\":["@ + comma_joined(ts@.map_values(|t: ToolDefinition| tool_wire(t))) + "]"@,
        None => Seq::empty(),
    } + "}"@
}

/// The streaming payload: the wire messages, bare model id, options, and
/// streaming on.
pub open spec fn stream_payload(request: MessageRequest, temperature: Seq<char>) -> Seq<char> {
    "{\"messages\":["@ + comma_joined(system_wire(request.system) + messages_wire(request.messages@))
        + "],\"model\":"@ + json_quoted(spec_strip_model_prefix(request.model@)) + ",\"options\":"@
        + options_wire(request.max_tokens, temperature) + ",\"stream\":true}"@
}

/// The error for a reply with a failing status: retryable, with the request's
/// id and the body.
pub open spec fn failed_status(e: ApiError, status: u16, request_id: Seq<char>, body: Seq<char>) -> bool {
    match e {
        ApiError::Api { status: s, error_type, message, request_id: rid, body: b, retryable, suggested_action } => {
            &&& s == status
            &&& error_type is None
            &&& message is None
            &&& (rid matches Some(r) && r@ == request_id)
            &&& b@ == body
            &&& retryable
            &&& (suggested_action matches Some(a) && a@ == "Wait a moment and try again"@)
        },
        _ => false,
    }
}

impl OllamaAdapter {
    /// The wire form of a tool definition; the parameters' schema gets
    /// `additionalProperties: false` when it is an object without that key.
    pub fn openai_tool_definition(&self, tool: &ToolDefinition) -> (r: String)
        ensures
            r@ == tool_wire(*tool),
    {
        let params = close_schema(tool.input_schema.as_str());
        let qd = quote(tool.description.as_str());
        let qn = quote(tool.name.as_str());
        let mut r = join2("{\"function\":{\"description\":", qd.as_str());
        r.append(",\"name\":");
        r.append(qn.as_str());
        r.append(",\"parameters\":");
        r.append(params.as_str());
        r.append("},\"type\":\"function\"}");
        r
    }

    fn block_message(role: &str, block: &InputContentBlock) -> (r: String)
        ensures
            r@ == block_wire(role@, *block),
    {
        let qr = quote(role);
        match block {
            InputContentBlock::Text { text } => {
                let qt = quote(text.as_str());
                let mut r = join2("{\"content\":", qt.as_str());
                r.append(",\"role\":");
                r.append(qr.as_str());
                r.append("}");
                r
            },
            InputContentBlock::ToolResult { tool_use_id, content, .. } => {
                let qc = quote(content.as_str());
                let qi = quote(tool_use_id.as_str());
                let mut r = join2("{\"content\":", qc.as_str());
                r.append(",\"role\":");
                r.append(qr.as_str());
                r.append(",\"tool_call_id\":");
                r.append(qi.as_str());
                r.append("}");
                r
            },
            InputContentBlock::ToolUse { id, name, input } => {
                let qa = quote(input.as_str());
                let qn = quote(name.as_str());
                let qi = quote(id.as_str());
                let mut r = join2("{\"content\":null,\"role\":", qr.as_str());
                r.append(",\"tool_calls\":[{\"function\":{\"arguments\":");
                r.append(qa.as_str());
                r.append(",\"name\":");
                r.append(qn.as_str());
                r.append("},\"id\":");
                r.append(qi.as_str());
                r.append(",\"type\":\"function\"}]}");
                r
            },
        }
    }

    /// The wire messages of one message: one per block, each with the
    /// message's role.
    pub fn translate_message(&self, message: &InputMessage, wire_model: &str) -> (r: Vec<String>)
        ensures
            texts(r@) == message_wire(*message),
    {
        wire_blocks(message)
    }

    /// The sampling options of a request.
    fn options(request: &MessageRequest, temperature: &str) -> (r: String)
        ensures
            r@ == options_wire(request.max_tokens, temperature@),
    {
        let n = decimal_string(request.max_tokens as u64);
        let mut r = join2("{\"num_predict\":", n.as_str());
        r.append(",\"temperature\":");
        r.append(temperature);
        r.append("}");
        r
    }

    /// The JSON payload of a chat request. `temperature` is the JSON number
    /// text of the sampling temperature (the caller's, or 0.7).
    pub fn build_json_payload(&self, request: &MessageRequest, temperature: &str) -> (r: String)
        ensures
            r@ == chat_payload(*request, temperature@),
    {
        let wire_model = self.strip_model_prefix(request.model.as_str());
        let messages = wire_messages(request);
        let joined = join_commas(&messages);
        let qm = quote(wire_model.as_str());
        let options = Self::options(request, temperature);
        let mut r = join2("{\"messages\":[", joined.as_str());
        r.append("],\"model\":");
        r.append(qm.as_str());
        r.append(",\"options\":");
        r.append(options.as_str());
        r.append(",\"stream\":");
        if request.stream {
            r.append("true");
        } else {
            r.append("false");
        }
        match &request.tool_choice {
            Some(c) => {
                let t = self.openai_tool_choice(c);
                r.append(",\"tool_choice\":");
                r.append(t.as_str());
            },
            None => {},
        }
        match &request.tools {
            Some(ts) => {
                let mut defs: Vec<String> = Vec::new();
                let mut i: usize = 0;
                while i < ts.len()
                    invariant
                        i <= ts@.len(),
                        texts(defs@) == ts@.take(i as int).map_values(|t: ToolDefinition| tool_wire(t)),
                    decreases ts.len() - i,
                {
                    let d = self.openai_tool_definition(&ts[i]);
                    let ghost old_d = defs@;
                    let ghost dv = d@;
                    defs.push(d);
                    assert(texts(defs@) =~= texts(old_d).push(dv));
                    assert(ts@.take(i + 1).map_values(|t: ToolDefinition| tool_wire(t)) =~= ts@.take(
                        i as int,
                    ).map_values(|t: ToolDefinition| tool_wire(t)).push(tool_wire(ts@[i as int])));
                    assert(texts(defs@) =~= ts@.take(i + 1).map_values(|t: ToolDefinition| tool_wire(t)));
                    i = i + 1;
                }
                assert(ts@.take(ts@.len() as int) =~= ts@);
                let all = join_commas(&defs);
                r.append(",\"tools\":[");
                r.append(all.as_str());
                r.append("]");
            },
            None => {},
        }
        r.append("}");
        r
    }

    /// The JSON payload of a streaming request.
    pub fn build_stream_payload(&self, request: &MessageRequest, temperature: &str) -> (r: String)
        ensures
            r@ == stream_payload(*request, temperature@),
    {
        let wire_model = self.strip_model_prefix(request.model.as_str());
        let messages = wire_messages(request);
        let joined = join_commas(&messages);
        let qm = quote(wire_model.as_str());
        let options = Self::options(request, temperature);
        let mut r = join2("{\"messages\":[", joined.as_str());
        r.append("],\"model\":");
        r.append(qm.as_str());
        r.append(",\"options\":");
        r.append(options.as_str());
        r.append(",\"stream\":true}");
        r
    }

    /// The URL of the chat endpoint.
    pub fn chat_url(&self) -> (r: String)
        ensures
            r@ == self.config.base_url@ + "/api/chat"@,
    {
        join2(self.config.base_url.as_str(), "/api/chat")
    }

    /// The URL of the streaming endpoint.
    pub fn generate_url(&self) -> (r: String)
        ensures
            r@ == self.config.base_url@ + "/api/generate"@,
    {
        join2(self.config.base_url.as_str(), "/api/generate")
    }

    /// The error for a reply with a failing status.
    pub fn failed_request(&self, status: u16, request_id: &str, body: String) -> (e: ApiError)
        ensures
            failed_status(e, status, request_id@, body@),
    {
        ApiError::Api {
            status,
            error_type: None,
            message: None,
            request_id: Some(owned(request_id)),
            body,
            retryable: true,
            suggested_action: Some(owned("Wait a moment and try again")),
        }
    }

    /// The error for a reply body that is not a chat completion: the first
    /// 200 characters of the body go with it.
    pub fn unreadable_reply(&self, body: &str, source: serde_json::Error) -> (e: ApiError)
        ensures
            e matches ApiError::Json { provider, model, body_snippet, .. } && provider@ == "Ollama"@ && model@
                == self.config.model@ && body_snippet@ == spec_truncate_snippet(body@, 200),
    {
        ApiError::Json {
            provider: owned("Ollama"),
            model: self.config.model.clone(),
            body_snippet: truncate_body_snippet(body, 200),
            source,
        }
    }

    /// The error for a payload that could not be written.
    pub fn unwritable_payload(&self, source: serde_json::Error) -> (e: ApiError)
        ensures
            e matches ApiError::Json { provider, model, body_snippet, .. } && provider@ == "Ollama"@ && model@
                == self.config.model@ && body_snippet@.len() == 0,
    {
        ApiError::Json {
            provider: owned("Ollama"),
            model: self.config.model.clone(),
            body_snippet: String::new(),
            source,
        }
    }
}

/// The wire messages of one message: one per block, each with the
/// message's role.
fn wire_blocks(message: &InputMessage) -> (r: Vec<String>)
    ensures
        texts(r@) == message_wire(*message),
{
    let mut r: Vec<String> = Vec::new();
    let mut i: usize = 0;
    while i < message.content.len()
        invariant
            i <= message.content@.len(),
            texts(r@) == message_wire(*message).take(i as int),
        decreases message.content.len() - i,
    {
        let m = OllamaAdapter::block_message(message.role.as_str(), &message.content[i]);
        let ghost old_r = r@;
        let ghost mv = m@;
        r.push(m);
        proof {
            assert(texts(r@) =~= texts(old_r).push(mv));
            assert(message_wire(*message).take(i + 1) =~= message_wire(*message).take(i as int).push(
                block_wire(message.role@, message.content@[i as int]),
            ));
        }
        i = i + 1;
    }
    assert(message_wire(*message).take(message.content@.len() as int) =~= message_wire(*message));
    r
}

/// The wire messages of a request: the system prompt when non-empty, then
/// those of each message.
pub(crate) fn wire_messages(request: &MessageRequest) -> (r: Vec<String>)
    ensures
        texts(r@) == system_wire(request.system) + messages_wire(request.messages@),
{
    let mut r: Vec<String> = Vec::new();
    match &request.system {
        Some(s) => {
            if !s.as_str().is_empty() {
                let q = quote(s.as_str());
                let mut m = join2("{\"content\":", q.as_str());
                m.append(",\"role\":\"system\"}");
                r.push(m);
                assert(texts(r@) =~= system_wire(request.system));
            } else {
                assert(texts(r@) =~= system_wire(request.system));
            }
        },
        None => {
            assert(texts(r@) =~= system_wire(request.system));
        },
    }
    let ghost sys = system_wire(request.system);
    let mut i: usize = 0;
    while i < request.messages.len()
        invariant
            i <= request.messages@.len(),
            sys == system_wire(request.system),
            texts(r@) == sys + messages_wire(request.messages@.take(i as int)),
        decreases request.messages.len() - i,
    {
        let part = wire_blocks(&request.messages[i]);
        let ghost before = texts(r@);
        let mut j: usize = 0;
        while j < part.len()
            invariant
                j <= part@.len(),
                texts(r@) == before + texts(part@).take(j as int),
            decreases part.len() - j,
        {
            let ghost old_r = r@;
            let c = part[j].clone();
            assert(c@ == part@[j as int]@);
            r.push(c);
            assert(texts(r@) =~= texts(old_r).push(part@[j as int]@));
            assert(texts(part@).take(j + 1) =~= texts(part@).take(j as int).push(part@[j as int]@));
            assert(texts(r@) =~= before + texts(part@).take(j + 1));
            j = j + 1;
        }
        proof {
            assert(texts(part@).take(part@.len() as int) =~= texts(part@));
            let next = request.messages@.take(i + 1);
            assert(next.drop_last() =~= request.messages@.take(i as int));
            assert(next.last() == request.messages@[i as int]);
            assert(texts(r@) =~= sys + messages_wire(next));
        }
        i = i + 1;
    }
    assert(request.messages@.take(request.messages@.len() as int) =~= request.messages@);
    r
}


} // verus!
