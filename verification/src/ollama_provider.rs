//! The Ollama provider: configuration, reply normalization, streamed frames
//! and request-size checks for the OpenAI-compatible endpoint.
use vstd::prelude::*;
use vstd::utf8::{decode_utf8, encode_utf8, valid_utf8};
use crate::api_types::{ApiError, InputContentBlock, InputMessage, MessageRequest, MessageResponse, OutputContentBlock, ToolChoice, Usage,
    opt_view};
use crate::json::{is_json_value, json_quoted, parses_as_json, quote};
use crate::ollama_wire::{block_wire, comma_joined, join_commas, message_wire, messages_wire, system_wire, wire_messages};
use crate::text::{chars_of, contains, first_index_of, join2, join3, owned, parse_u32,
    spec_contains, spec_parse_u32, spec_trim_end_char, string_from_chars, trim_end_char};

verus! {

/// Settings of the Ollama provider.
pub struct OllamaConfig {
    pub base_url: String,
    pub model: String,
    pub max_tokens: u32,
    pub max_request_body_bytes: usize,
}

impl Default for OllamaConfig {
    fn default() -> (c: Self)
        ensures
            c.base_url@ == "http://localhost:11434"@,
            c.model@ == Seq::<char>::empty(),
            c.max_tokens == 4096,
            c.max_request_body_bytes == 512 * 1024,
    {
        Self {
            base_url: owned("http://localhost:11434"),
            model: String::new(),
            max_tokens: 4096,
            max_request_body_bytes: 512 * 1024,
        }
    }
}

/// The output budget for a model when none is configured: larger models get
/// 32768 tokens, others 4096.
pub open spec fn default_max_tokens(model: Seq<char>) -> u32 {
    if spec_contains(model, "large"@) || spec_contains(model, "12b"@) || spec_contains(model, "larger"@) {
        32768
    } else {
        4096
    }
}

/// A model whose name mentions `large` or `12b` gets a budget of 32768
/// tokens when none is configured; any other model gets 4096.
pub proof fn lemma_default_budget(model: Seq<char>)
    ensures
        spec_contains(model, "large"@) ==> default_max_tokens(model) == 32768,
        spec_contains(model, "12b"@) ==> default_max_tokens(model) == 32768,
        !spec_contains(model, "large"@) && !spec_contains(model, "12b"@) && !spec_contains(model, "larger"@)
            ==> default_max_tokens(model) == 4096,
{
}

impl OllamaConfig {
    pub fn new() -> (c: Self)
        ensures
            c.base_url@ == "http://localhost:11434"@,
            c.model@ == Seq::<char>::empty(),
            c.max_tokens == 4096,
            c.max_request_body_bytes == 512 * 1024,
    {
        Self::default()
    }

    /// Build the configuration from the values of the environment variables
    /// `OPENAI_BASE_URL`, `OLLAMA_MODEL` and `OLLAMA_MAX_TOKENS` (each `None`
    /// when unset): the base URL loses its trailing slashes, the model
    /// defaults to `qwen2.5-coder:7b`, and a budget that does not parse as a
    /// `u32` falls back to the model's default.
    pub fn from_env_values(
        base_url: Option<String>,
        model: Option<String>,
        max_tokens: Option<String>,
    ) -> (r: Result<Self, ApiError>)
        ensures
            r matches Ok(c) && {
                let url = match base_url {
                    Some(u) => u@,
                    None => "http://localhost:11434"@,
                };
                let m = match model {
                    Some(v) => v@,
                    None => "qwen2.5-coder:7b"@,
                };
                &&& c.base_url@ == spec_trim_end_char(url, '/')
                &&& c.model@ == m
                &&& c.max_tokens == match max_tokens {
                    Some(t) => match spec_parse_u32(t@) {
                        Some(n) => n,
                        None => default_max_tokens(m),
                    },
                    None => default_max_tokens(m),
                }
                &&& c.max_request_body_bytes == 512 * 1024
            },
    {
        let base = match base_url {
            Some(u) => u,
            None => owned("http://localhost:11434"),
        };
        let model = match model {
            Some(v) => v,
            None => owned("qwen2.5-coder:7b"),
        };
        let parsed = match &max_tokens {
            Some(t) => parse_u32(t.as_str()),
            None => None,
        };
        let max_tokens = match parsed {
            Some(n) => n,
            None => {
                if contains(model.as_str(), "large") || contains(model.as_str(), "12b") || contains(
                    model.as_str(),
                    "larger",
                ) {
                    32768
                } else {
                    4096
                }
            },
        };
        let base_chars = chars_of(base.as_str());
        let trimmed = trim_end_char(base_chars.as_slice(), '/');
        Ok(Self {
            base_url: string_from_chars(trimmed.as_slice()),
            model,
            max_tokens,
            max_request_body_bytes: 512 * 1024,
        })
    }
}

/// The Ollama provider.
pub struct OllamaAdapter {
    pub config: OllamaConfig,
    pub request_id_counter: std::collections::BTreeMap<u32, String>,
}

/// `model` without its routing prefix: what follows the first `/`, or all of
/// it when there is none.
pub open spec fn spec_strip_model_prefix(model: Seq<char>) -> Seq<char> {
    match first_index_of(model, '/') {
        Some(p) => model.subrange(p + 1, model.len() as int),
        None => model,
    }
}

/// The bare model is what follows the first `/` of the routed name, or the
/// whole name when it holds no `/`.
pub proof fn lemma_strip_model_prefix(model: Seq<char>)
    ensures
        (forall|i: int| 0 <= i < model.len() ==> model[i] != '/') ==> spec_strip_model_prefix(model) == model,
        forall|p: int|
            0 <= p < model.len() && model[p] == '/' && (forall|q: int| 0 <= q < p ==> model[q] != '/')
                ==> #[trigger] model.subrange(p + 1, model.len() as int) == spec_strip_model_prefix(model),
{
    assert forall|p: int|
        0 <= p < model.len() && model[p] == '/' && (forall|q: int| 0 <= q < p ==> model[q] != '/')
            implies #[trigger] model.subrange(p + 1, model.len() as int) == spec_strip_model_prefix(model) by {
        assert(exists|i: int| 0 <= i < model.len() && model[i] == '/');
        let f = first_index_of(model, '/');
        assert(exists|i: int| 0 <= i < model.len() && model[i] == '/' && forall|j: int| 0 <= j < i ==> model[j] != '/');
        let k = f->0;
        assert(0 <= k < model.len() && model[k] == '/' && forall|j: int| 0 <= j < k ==> model[j] != '/');
        if k < p {
            assert(model[k] != '/');
        }
        if p < k {
            assert(model[p] != '/');
        }
    }
}

/// The JSON text of a tool call's arguments: the arguments themselves when
/// they are JSON, else an object that holds them as the string `raw`.
pub open spec fn tool_arguments_json(arguments: Seq<char>) -> Seq<char> {
    if is_json_value(arguments) {
        arguments
    } else {
        "{\"raw\":"@ + json_quoted(arguments) + "}"@
    }
}

/// The JSON text that stands for a tool choice on the OpenAI-compatible wire.
pub open spec fn tool_choice_json(choice: ToolChoice) -> Seq<char> {
    match choice {
        ToolChoice::Auto => json_quoted("auto"@),
        ToolChoice::Required => json_quoted("required"@),
        ToolChoice::Specific(name) => "{\"type\":\"function\",\"function\":{\"name\":"@ + json_quoted(name@)
            + "}}"@,
    }
}

/// A reply of the OpenAI-compatible chat endpoint.
pub struct ChatCompletionResponse {
    pub id: String,
    pub model: String,
    pub choices: Vec<ChatChoice>,
    pub usage: Option<OpenAiUsage>,
}

pub struct ChatChoice {
    pub message: ChatMessage,
    pub finish_reason: Option<String>,
}

pub struct ChatMessage {
    pub role: String,
    pub content: Option<String>,
    pub tool_calls: Vec<ResponseToolCall>,
}

pub struct ResponseToolCall {
    pub id: String,
    pub function: ResponseToolFunction,
}

pub struct ResponseToolFunction {
    pub name: String,
    /// The arguments as the model wrote them, meant to be JSON.
    pub arguments: String,
}

#[derive(Clone, Copy)]
pub struct OpenAiUsage {
    pub prompt_tokens: u32,
    pub completion_tokens: u32,
}

/// One streamed chunk of the chat endpoint.
pub struct ChatCompletionChunk {
    pub id: String,
    pub model: Option<String>,
    pub choices: Vec<ChunkChoice>,
    pub usage: Option<OpenAiUsage>,
}

pub struct ChunkChoice {
    pub delta: ChunkDelta,
    pub finish_reason: Option<String>,
}

pub struct ChunkDelta {
    pub content: Option<String>,
    pub tool_calls: Vec<DeltaToolCall>,
}

pub struct DeltaToolCall {
    pub index: u32,
    pub id: Option<String>,
    pub function: DeltaFunction,
}

pub struct DeltaFunction {
    pub name: Option<String>,
    pub arguments: Option<String>,
}

/// The content blocks of a reply message: its text when non-empty, then one
/// tool use per tool call.
pub open spec fn reply_blocks_ok(blocks: Seq<OutputContentBlock>, message: ChatMessage) -> bool {
    let has_text = message.content matches Some(t) && t@.len() > 0;
    let off: int = if has_text { 1 } else { 0 };
    &&& blocks.len() == off + message.tool_calls@.len()
    &&& has_text ==> (blocks[0] matches OutputContentBlock::Text { text } && Some(text@) == opt_view(
        message.content,
    ))
    &&& forall|k: int|
        0 <= k < message.tool_calls@.len() ==> (#[trigger] blocks[off + k] matches OutputContentBlock::ToolUse {
            id,
            name,
            input,
        } && id@ == message.tool_calls@[k].id@ && name@ == message.tool_calls@[k].function.name@
            && input@ == tool_arguments_json(message.tool_calls@[k].function.arguments@))
}

/// The normalized reply for a chat completion with at least one choice.
pub open spec fn normalized_ok(r: MessageResponse, model: Seq<char>, response: ChatCompletionResponse) -> bool {
    let choice = response.choices@[0];
    &&& r.id@ == response.id@
    &&& r.kind@ == "message"@
    &&& r.role@ == choice.message.role@
    &&& reply_blocks_ok(r.content@, choice.message)
    &&& r.model@ == (if response.model@.len() == 0 { model } else { response.model@ })
    &&& opt_view(r.stop_reason) == opt_view(choice.finish_reason)
    &&& r.stop_sequence is None
    &&& r.usage.input_tokens == match response.usage {
        Some(u) => u.prompt_tokens,
        None => 0,
    }
    &&& r.usage.output_tokens == match response.usage {
        Some(u) => u.completion_tokens,
        None => 0,
    }
    &&& r.usage.cache_creation_input_tokens == 0
    &&& r.usage.cache_read_input_tokens == 0
    &&& r.request_id is None
}

/// The JSON text for a tool call's arguments.
fn parse_tool_arguments(arguments: &str) -> (r: String)
    ensures
        r@ == tool_arguments_json(arguments@),
{
    if parses_as_json(arguments) {
        owned(arguments)
    } else {
        let q = quote(arguments);
        join3("{\"raw\":", q.as_str(), "}")
    }
}

/// The stop reason reported for a finish reason: the finish reason itself.
pub fn normalize_finish_reason(reason: &str) -> (r: Option<String>)
    ensures
        opt_view(r) == Some(reason@),
{
    Some(owned(reason))
}

impl OllamaAdapter {
    pub fn new(config: OllamaConfig) -> (a: Self)
        ensures
            a.config == config,
            a.request_id_counter@ == Map::<u32, String>::empty(),
    {
        Self { config, request_id_counter: std::collections::BTreeMap::new() }
    }

    /// Strip the routing prefix from a model name; the backend expects the
    /// bare model id.
    pub fn strip_model_prefix(&self, model: &str) -> (r: String)
        ensures
            r@ == spec_strip_model_prefix(model@),
    {
        let v = chars_of(model);
        match crate::text::find_char(v.as_slice(), '/') {
            Some(pos) => {
                assert(pos < v.len());
                let mut rest: Vec<char> = Vec::new();
                let mut i: usize = pos + 1;
                while i < v.len()
                    invariant
                        pos < v@.len(),
                        pos + 1 <= i <= v@.len(),
                        rest@ == v@.subrange(pos + 1, i as int),
                    decreases v.len() - i,
                {
                    rest.push(v[i]);
                    assert(v@.subrange(pos + 1, i + 1) =~= v@.subrange(pos + 1, i as int).push(v@[i as int]));
                    i = i + 1;
                }
                string_from_chars(rest.as_slice())
            },
            None => owned(model),
        }
    }

    /// The JSON text for a tool choice on the OpenAI-compatible wire.
    pub fn openai_tool_choice(&self, tool_choice: &ToolChoice) -> (r: String)
        ensures
            r@ == tool_choice_json(*tool_choice),
    {
        match tool_choice {
            ToolChoice::Auto => quote("auto"),
            ToolChoice::Required => quote("required"),
            ToolChoice::Specific(name) => {
                let q = quote(name.as_str());
                join3("{\"type\":\"function\",\"function\":{\"name\":", q.as_str(), "}}")
            },
        }
    }

    /// Normalize a chat completion to the reply format: the first choice's
    /// non-empty text, then its tool calls; the reply's model falls back to
    /// `model` when the response names none.
    pub fn normalize_response(&self, model: &str, response: ChatCompletionResponse) -> (r: Result<
        MessageResponse,
        ApiError,
    >)
        ensures
            response.choices@.len() == 0 ==> (r matches Err(ApiError::InvalidSseFrame(m))
                && m@ == "chat completion response missing choices"@),
            response.choices@.len() > 0 ==> (r matches Ok(resp) && normalized_ok(resp, model@, response)),
    {
        if response.choices.len() == 0 {
            return Err(ApiError::InvalidSseFrame(owned("chat completion response missing choices")));
        }
        let choice = &response.choices[0];
        let mut content: Vec<OutputContentBlock> = Vec::new();
        let has_text = match &choice.message.content {
            Some(t) => !t.as_str().is_empty(),
            None => false,
        };
        if has_text {
            match &choice.message.content {
                Some(t) => content.push(OutputContentBlock::Text { text: t.clone() }),
                None => {},
            }
        }
        let ghost off: int = if has_text { 1 } else { 0 };
        let ghost msg = response.choices@[0].message;
        let calls = &choice.message.tool_calls;
        assert(has_text == (msg.content matches Some(t) && t@.len() > 0));
        let mut k: usize = 0;
        while k < calls.len()
            invariant
                k <= calls@.len(),
                *choice == response.choices@[0],
                msg == choice.message,
                calls@ == msg.tool_calls@,
                off == (if has_text { 1int } else { 0int }),
                has_text == (msg.content matches Some(t) && t@.len() > 0),
                content@.len() == off + k,
                has_text ==> (content@[0] matches OutputContentBlock::Text { text } && Some(text@)
                    == opt_view(choice.message.content)),
                forall|j: int|
                    0 <= j < k ==> (#[trigger] content@[off + j] matches OutputContentBlock::ToolUse {
                        id,
                        name,
                        input,
                    } && id@ == calls@[j].id@ && name@ == calls@[j].function.name@ && input@
                        == tool_arguments_json(calls@[j].function.arguments@)),
            decreases calls.len() - k,
        {
            let call = &calls[k];
            let input = parse_tool_arguments(call.function.arguments.as_str());
            content.push(
                OutputContentBlock::ToolUse {
                    id: call.id.clone(),
                    name: call.function.name.clone(),
                    input,
                },
            );
            k = k + 1;
        }
        assert(reply_blocks_ok(content@, msg));
        let reply_model = if response.model.as_str().is_empty() {
            owned(model)
        } else {
            response.model.clone()
        };
        let stop_reason = match &choice.finish_reason {
            Some(v) => normalize_finish_reason(v.as_str()),
            None => None,
        };
        let (input_tokens, output_tokens) = match &response.usage {
            Some(u) => (u.prompt_tokens, u.completion_tokens),
            None => (0, 0),
        };
        Ok(MessageResponse {
            id: response.id.clone(),
            kind: owned("message"),
            role: choice.message.role.clone(),
            content,
            model: reply_model,
            stop_reason,
            stop_sequence: None,
            usage: Usage {
                input_tokens,
                cache_creation_input_tokens: 0,
                cache_read_input_tokens: 0,
                output_tokens,
            },
            request_id: None,
        })
    }
}

/// `b[p]` and `b[p + 1]` are both a line feed.
pub open spec fn blank_line_at(b: Seq<u8>, p: int) -> bool {
    0 <= p && p + 1 < b.len() && b[p] == 10u8 && b[p + 1] == 10u8
}

/// The end of the first frame of `buffer`: just past the first `\n\n`.
pub fn next_sse_frame(buffer: &Vec<u8>) -> (r: Option<usize>)
    ensures
        r matches Some(e) ==> e >= 2 && blank_line_at(buffer@, e - 2) && forall|q: int|
            0 <= q < e - 2 ==> !blank_line_at(buffer@, q),
        r is None ==> forall|q: int| !blank_line_at(buffer@, q),
{
    let n = buffer.len();
    if n < 2 {
        return None;
    }
    let mut p: usize = 0;
    while p + 1 < n
        invariant
            n == buffer@.len(),
            n >= 2,
            p + 1 <= n,
            forall|q: int| 0 <= q < p ==> !blank_line_at(buffer@, q),
        decreases n - p,
    {
        if buffer[p] == 10 && buffer[p + 1] == 10 {
            return Some(p + 2);
        }
        p = p + 1;
    }
    None
}

/// What one step of reading a streamed body finds at the front of the buffer.
pub enum FrameStep {
    /// No complete frame yet.
    Incomplete,
    /// The frame ending at `end` is not UTF-8.
    InvalidUtf8 { end: usize },
    /// The frame ending at `end` is blank or a comment line.
    Skip { end: usize },
    /// The frame ending at `end` holds the data line `line`.
    Data { end: usize, line: String },
}

/// `std::str::from_utf8`: the text whose UTF-8 encoding is `bytes`, or `None`
/// when `bytes` is not UTF-8, as the function's documentation states.
#[verifier::external_body]
fn utf8_text(bytes: &[u8]) -> (r: Option<String>)
    ensures
        r is Some <==> valid_utf8(bytes@),
        r matches Some(s) ==> encode_utf8(s@) == bytes@,
{
    std::str::from_utf8(bytes).ok().map(|s| s.to_string())
}

/// The first frame of `buffer` and what to do with it: frames end with a
/// blank line; a frame's text loses its trailing line feeds, and an empty
/// line or one that begins with `:` is skipped.
pub fn sse_frame_step(buffer: &Vec<u8>) -> (r: FrameStep)
    ensures
        r is Incomplete <==> forall|q: int| !blank_line_at(buffer@, q),
        match r {
            FrameStep::Incomplete => true,
            FrameStep::InvalidUtf8 { end } => end >= 2 && blank_line_at(buffer@, end - 2) && (forall|q: int|
                0 <= q < end - 2 ==> !blank_line_at(buffer@, q)) && !valid_utf8(buffer@.take(end as int)),
            FrameStep::Skip { end } => end >= 2 && blank_line_at(buffer@, end - 2) && (forall|q: int|
                0 <= q < end - 2 ==> !blank_line_at(buffer@, q)) && valid_utf8(buffer@.take(end as int))
                && exists|t: Seq<char>|
                    encode_utf8(t) == buffer@.take(end as int) && (spec_trim_end_char(t, '\n').len() == 0
                        || spec_trim_end_char(t, '\n')[0] == ':'),
            FrameStep::Data { end, line } => end >= 2 && blank_line_at(buffer@, end - 2) && (forall|q: int|
                0 <= q < end - 2 ==> !blank_line_at(buffer@, q)) && exists|t: Seq<char>|
                encode_utf8(t) == buffer@.take(end as int) && line@ == spec_trim_end_char(t, '\n')
                    && line@.len() > 0 && line@[0] != ':',
        },
{
    match next_sse_frame(buffer) {
        None => FrameStep::Incomplete,
        Some(end) => {
            let mut frame: Vec<u8> = Vec::new();
            let mut i: usize = 0;
            while i < end
                invariant
                    end <= buffer@.len(),
                    i <= end,
                    frame@ == buffer@.take(i as int),
                decreases end - i,
            {
                frame.push(buffer[i]);
                assert(buffer@.take(i + 1) =~= buffer@.take(i as int).push(buffer@[i as int]));
                i = i + 1;
            }
            match utf8_text(frame.as_slice()) {
                None => FrameStep::InvalidUtf8 { end },
                Some(text) => {
                    let tv = chars_of(text.as_str());
                    let line = trim_end_char(tv.as_slice(), '\n');
                    if line.len() == 0 || line[0] == ':' {
                        FrameStep::Skip { end }
                    } else {
                        FrameStep::Data { end, line: string_from_chars(line.as_slice()) }
                    }
                },
            }
        },
    }
}

/// Whether a streamed chunk is kept: its first choice carries text or tool calls.
pub fn chunk_has_payload(chunk: &ChatCompletionChunk) -> (r: bool)
    ensures
        r == (chunk.choices@.len() > 0 && (chunk.choices@[0].delta.content is Some
            || chunk.choices@[0].delta.tool_calls@.len() > 0)),
{
    if chunk.choices.len() == 0 {
        return false;
    }
    let choice = &chunk.choices[0];
    choice.delta.content.is_some() || choice.delta.tool_calls.len() > 0
}

/// The end of the first frame of `b`, just past its first blank line.
pub open spec fn first_frame_end(b: Seq<u8>) -> Option<int> {
    if exists|p: int| blank_line_at(b, p) {
        Some(
            (choose|p: int| blank_line_at(b, p) && forall|q: int| 0 <= q < p ==> !blank_line_at(b, q)) + 2,
        )
    } else {
        None
    }
}

/// What reading a streamed body finds next.
pub enum DataScan {
    /// No complete data frame yet.
    Pending,
    /// The next frame is not UTF-8.
    BadUtf8(Seq<u8>),
    /// The next data line.
    Line(Seq<char>),
}

/// Reading frames off the front of `b` until one holds a data line: what is
/// found, and what is left of `b`. Blank and comment frames are passed over;
/// a frame that is not UTF-8 stops the reading and stays.
#[verifier::opaque]
pub open spec fn data_scan(b: Seq<u8>) -> (DataScan, Seq<u8>)
    decreases b.len(),
{
    match first_frame_end(b) {
        None => (DataScan::Pending, b),
        Some(e) => if 2 <= e <= b.len() {
            let frame = b.take(e);
            if !valid_utf8(frame) {
                (DataScan::BadUtf8(frame), b)
            } else {
                let line = spec_trim_end_char(decode_utf8(frame), '\n');
                if line.len() == 0 || line[0] == ':' {
                    data_scan(b.skip(e))
                } else {
                    (DataScan::Line(line), b.skip(e))
                }
            }
        } else {
            (DataScan::Pending, b)
        },
    }
}

/// The `Display` text of the `std::str::Utf8Error` that `from_utf8` gives for
/// `bytes`.
pub uninterp spec fn utf8_error_message(bytes: Seq<u8>) -> Seq<char>;

/// `std::str::from_utf8(bytes)`'s error, formatted with `ToString`; empty
/// when the bytes are UTF-8. The contract claims that the text is a
/// function of the bytes, named `utf8_error_message`.
#[verifier::external_body]
fn utf8_error_text(bytes: &[u8]) -> (r: String)
    ensures
        r@ == utf8_error_message(bytes@),
{
    match std::str::from_utf8(bytes) {
        Ok(_) => String::new(),
        Err(e) => e.to_string(),
    }
}

/// The bytes of `v` after its first `n`.
fn drop_front(v: &Vec<u8>, n: usize) -> (r: Vec<u8>)
    requires
        n <= v@.len(),
    ensures
        r@ == v@.skip(n as int),
{
    let mut r: Vec<u8> = Vec::new();
    let mut i: usize = n;
    while i < v.len()
        invariant
            n <= i <= v@.len(),
            r@ == v@.subrange(n as int, i as int),
        decreases v.len() - i,
    {
        r.push(v[i]);
        assert(v@.subrange(n as int, i + 1) =~= v@.subrange(n as int, i as int).push(v@[i as int]));
        i = i + 1;
    }
    assert(v@.subrange(n as int, v@.len() as int) =~= v@.skip(n as int));
    r
}

/// The reading of a streamed reply: bytes not yet split into frames, and the
/// chunks kept so far.
pub struct OllamaStream {
    pub buffer: Vec<u8>,
    pub chunks: Vec<ChatCompletionChunk>,
}

impl OllamaStream {
    pub fn new() -> (s: Self)
        ensures
            s.buffer@.len() == 0,
            s.chunks@.len() == 0,
    {
        OllamaStream { buffer: Vec::new(), chunks: Vec::new() }
    }

    /// Take in bytes of the body.
    pub fn push_bytes(&mut self, bytes: &[u8])
        ensures
            final(self).buffer@ == old(self).buffer@ + bytes@,
            final(self).chunks == old(self).chunks,
    {
        let mut i: usize = 0;
        let ghost start = self.buffer@;
        while i < bytes.len()
            invariant
                i <= bytes@.len(),
                start == old(self).buffer@,
                self.buffer@ == start + bytes@.take(i as int),
                self.chunks == old(self).chunks,
            decreases bytes.len() - i,
        {
            self.buffer.push(bytes[i]);
            assert(bytes@.take(i + 1) =~= bytes@.take(i as int).push(bytes@[i as int]));
            i = i + 1;
        }
        assert(bytes@.take(bytes@.len() as int) =~= bytes@);
    }

    /// The next data line of the body, with the frames read up to it taken
    /// off the buffer; `None` when no complete data frame is left; an error
    /// for a frame that is not UTF-8, which stays in the buffer.
    pub fn next_data_line(&mut self) -> (r: Result<Option<String>, ApiError>)
        ensures
            final(self).chunks == old(self).chunks,
            ({
                let (found, rest) = data_scan(old(self).buffer@);
                &&& final(self).buffer@ == rest
                &&& match found {
                    DataScan::Pending => r matches Ok(None),
                    DataScan::Line(l) => r matches Ok(Some(x)) && x@ == l,
                    DataScan::BadUtf8(frame) => r matches Err(ApiError::InvalidSseFrame(m))
                        && m@ == "invalid UTF-8 in SSE frame: "@ + utf8_error_message(frame),
                }
            }),
    {
        loop
            invariant
                data_scan(self.buffer@) == data_scan(old(self).buffer@),
                self.chunks == old(self).chunks,
            decreases self.buffer@.len(),
        {
            let step = sse_frame_step(&self.buffer);
            match step {
                FrameStep::Incomplete => {
                    proof {
                        lemma_scan_incomplete(self.buffer@);
                    }
                    return Ok(None);
                },
                FrameStep::InvalidUtf8 { end } => {
                    proof {
                        lemma_scan_bad(self.buffer@, end as int);
                    }
                    let mut frame: Vec<u8> = Vec::new();
                    let mut i: usize = 0;
                    while i < end
                        invariant
                            end <= self.buffer@.len(),
                            i <= end,
                            frame@ == self.buffer@.take(i as int),
                        decreases end - i,
                    {
                        frame.push(self.buffer[i]);
                        assert(self.buffer@.take(i + 1) =~= self.buffer@.take(i as int).push(self.buffer@[i as int]));
                        i = i + 1;
                    }
                    let t = utf8_error_text(frame.as_slice());
                    return Err(ApiError::InvalidSseFrame(join2("invalid UTF-8 in SSE frame: ", t.as_str())));
                },
                FrameStep::Skip { end } => {
                    proof {
                        lemma_scan_skip(self.buffer@, end as int);
                    }
                    self.buffer = drop_front(&self.buffer, end);
                },
                FrameStep::Data { end, line } => {
                    proof {
                        lemma_scan_data(self.buffer@, end as int, line@);
                    }
                    self.buffer = drop_front(&self.buffer, end);
                    return Ok(Some(line));
                },
            }
        }
    }

    /// Keep a parsed chunk when its first choice carries text or tool calls.
    pub fn accept_chunk(&mut self, chunk: ChatCompletionChunk)
        ensures
            final(self).buffer == old(self).buffer,
            ({
                let keep = chunk.choices@.len() > 0 && (chunk.choices@[0].delta.content is Some
                    || chunk.choices@[0].delta.tool_calls@.len() > 0);
                if keep {
                    final(self).chunks@ == old(self).chunks@.push(chunk)
                } else {
                    final(self).chunks@ == old(self).chunks@
                }
            }),
    {
        if chunk_has_payload(&chunk) {
            self.chunks.push(chunk);
        }
    }

    /// The error for a data line that is not a chunk.
    pub fn unreadable_line(line: &str, source: serde_json::Error) -> (e: ApiError)
        ensures
            e matches ApiError::Json { provider, model, body_snippet, .. } && provider@ == "Ollama"@
                && model@.len() == 0 && body_snippet@ == line@,
    {
        ApiError::Json { provider: owned("Ollama"), model: String::new(), body_snippet: owned(line), source }
    }

    /// The finish reason of the stream: Ollama reports none.
    pub fn finish_reason(&self) -> (r: Option<String>)
        ensures
            r is None,
    {
        None
    }
}

/// No complete frame: nothing is found.
proof fn lemma_scan_incomplete(b: Seq<u8>)
    requires
        forall|q: int| !blank_line_at(b, q),
    ensures
        data_scan(b) == (DataScan::Pending, b),
{
    reveal(data_scan);
    lemma_first_frame_end(b);
}

/// A first frame that is not UTF-8 stops the reading.
proof fn lemma_scan_bad(b: Seq<u8>, end: int)
    requires
        end >= 2,
        blank_line_at(b, end - 2),
        forall|q: int| 0 <= q < end - 2 ==> !blank_line_at(b, q),
        !valid_utf8(b.take(end)),
    ensures
        data_scan(b) == (DataScan::BadUtf8(b.take(end)), b),
{
    reveal(data_scan);
    lemma_first_frame_end(b);
}

/// A blank or comment first frame is passed over.
proof fn lemma_scan_skip(b: Seq<u8>, end: int)
    requires
        end >= 2,
        blank_line_at(b, end - 2),
        forall|q: int| 0 <= q < end - 2 ==> !blank_line_at(b, q),
        valid_utf8(b.take(end)),
        exists|t: Seq<char>|
            encode_utf8(t) == b.take(end) && (spec_trim_end_char(t, '\n').len() == 0 || spec_trim_end_char(t, '\n')[0]
                == ':'),
    ensures
        data_scan(b) == data_scan(b.skip(end)),
        b.skip(end).len() < b.len(),
{
    reveal(data_scan);
    lemma_first_frame_end(b);
    let t = choose|t: Seq<char>|
        encode_utf8(t) == b.take(end) && (spec_trim_end_char(t, '\n').len() == 0 || spec_trim_end_char(t, '\n')[0]
            == ':');
    vstd::utf8::encode_utf8_decode_utf8(t);
}

/// A first frame with a data line gives that line.
proof fn lemma_scan_data(b: Seq<u8>, end: int, line: Seq<char>)
    requires
        end >= 2,
        blank_line_at(b, end - 2),
        forall|q: int| 0 <= q < end - 2 ==> !blank_line_at(b, q),
        exists|t: Seq<char>|
            encode_utf8(t) == b.take(end) && line == spec_trim_end_char(t, '\n') && line.len() > 0 && line[0] != ':',
    ensures
        data_scan(b) == (DataScan::Line(line), b.skip(end)),
{
    reveal(data_scan);
    lemma_first_frame_end(b);
    let t = choose|t: Seq<char>|
        encode_utf8(t) == b.take(end) && line == spec_trim_end_char(t, '\n') && line.len() > 0 && line[0] != ':';
    vstd::utf8::encode_utf8_decode_utf8(t);
    vstd::utf8::encode_utf8_valid_utf8(t);
}

/// The first frame's end as the reader finds it is the one `first_frame_end`
/// names.
proof fn lemma_first_frame_end(b: Seq<u8>)
    ensures
        forall|e: int| 2 <= e && blank_line_at(b, e - 2) && (forall|q: int| 0 <= q < e - 2 ==> !blank_line_at(b, q))
            ==> first_frame_end(b) == Some(e),
        (forall|q: int| !blank_line_at(b, q)) ==> first_frame_end(b) is None,
{
    assert forall|e: int| 2 <= e && blank_line_at(b, e - 2) && (forall|q: int| 0 <= q < e - 2 ==> !blank_line_at(b, q))
        implies first_frame_end(b) == Some(e) by {
        assert(blank_line_at(b, e - 2));
        let p = choose|p: int| blank_line_at(b, p) && forall|q: int| 0 <= q < p ==> !blank_line_at(b, q);
        assert(blank_line_at(b, p) && forall|q: int| 0 <= q < p ==> !blank_line_at(b, q));
        if p < e - 2 {
            assert(!blank_line_at(b, p));
        }
        if p > e - 2 {
            assert(!blank_line_at(b, e - 2));
        }
    }
}

/// The JSON text whose size is a request's: the object
/// `{"messages":[…],"model":…,"stream":…}` with the request's wire messages,
/// keys in `serde_json`'s order.
pub open spec fn probe_body(model: Seq<char>, messages: Seq<Seq<char>>, stream: bool) -> Seq<char> {
    "{\"messages\":["@ + comma_joined(messages) + "],\"model\":"@ + json_quoted(model) + (if stream {
        ",\"stream\":true}"@
    } else {
        ",\"stream\":false}"@
    })
}

/// The wire messages of a request: the system prompt when non-empty, then
/// one per block of each message.
pub open spec fn request_wire_messages(request: MessageRequest) -> Seq<Seq<char>> {
    system_wire(request.system) + messages_wire(request.messages@)
}

/// Estimate the serialized JSON size of a request payload in bytes: the
/// configured model, the stream flag and the request's messages.
pub fn estimate_request_body_size(request: &MessageRequest, config: &OllamaConfig) -> (n: usize)
    ensures
        n == encode_utf8(probe_body(config.model@, request_wire_messages(*request), request.stream)).len(),
{
    let messages = wire_messages(request);
    let joined = join_commas(&messages);
    let q = quote(config.model.as_str());
    let mut body = join2("{\"messages\":[", joined.as_str());
    body.append("],\"model\":");
    body.append(q.as_str());
    if request.stream {
        body.append(",\"stream\":true}");
    } else {
        body.append(",\"stream\":false}");
    }
    body.as_str().as_bytes().len()
}

/// Adding a message to a request never makes its size estimate smaller than
/// before plus the bytes of the added message's text: for a message of one
/// text block, the estimate grows by at least the text's UTF-8 bytes.
pub proof fn lemma_estimate_grows_with_messages(
    r1: MessageRequest,
    r2: MessageRequest,
    m: InputMessage,
    text: String,
    model: Seq<char>,
)
    requires
        r2.messages@ == r1.messages@.push(m),
        r2.system == r1.system,
        r2.stream == r1.stream,
        m.content@ == seq![InputContentBlock::Text { text }],
    ensures
        encode_utf8(probe_body(model, request_wire_messages(r2), r2.stream)).len() >= encode_utf8(
            probe_body(model, request_wire_messages(r1), r1.stream),
        ).len() + encode_utf8(text@).len(),
{
    let w1 = request_wire_messages(r1);
    let w = block_wire(m.role@, InputContentBlock::Text { text });
    assert(r2.messages@.drop_last() =~= r1.messages@);
    assert(message_wire(m) =~= seq![w]);
    assert(messages_wire(r2.messages@) == messages_wire(r1.messages@) + message_wire(m));
    let w2 = request_wire_messages(r2);
    assert(w2 =~= w1.push(w));
    let cj1 = comma_joined(w1);
    let cj2 = comma_joined(w2);
    // The joined wire messages grow by at least the text's bytes.
    let pre = "{\"content\":"@;
    let post = ",\"role\":"@ + json_quoted(m.role@) + "}"@;
    assert(w =~= pre + json_quoted(text@) + post);
    crate::json::lemma_quoted_not_shorter(text@);
    crate::json::lemma_encode_concat(pre, json_quoted(text@));
    crate::json::lemma_encode_concat(pre + json_quoted(text@), post);
    if w1.len() == 0 {
        assert(w2.len() == 1);
        assert(cj2 == w);
        assert(cj1 =~= Seq::<char>::empty());
    } else {
        assert(w2.drop_last() =~= w1);
        assert(cj2 == cj1 + ","@ + w);
        crate::json::lemma_encode_concat(cj1, ","@);
        crate::json::lemma_encode_concat(cj1 + ","@, w);
    }
    assert(encode_utf8(cj2).len() >= encode_utf8(cj1).len() + encode_utf8(text@).len());
    // The rest of the body is the same for both.
    let head = "{\"messages\":["@;
    let tail = "],\"model\":"@ + json_quoted(model) + (if r1.stream {
        ",\"stream\":true}"@
    } else {
        ",\"stream\":false}"@
    });
    assert(probe_body(model, w1, r1.stream) =~= head + cj1 + tail);
    assert(probe_body(model, w2, r2.stream) =~= head + cj2 + tail);
    crate::json::lemma_encode_concat(head, cj1);
    crate::json::lemma_encode_concat(head + cj1, tail);
    crate::json::lemma_encode_concat(head, cj2);
    crate::json::lemma_encode_concat(head + cj2, tail);
}

/// Pre-flight check for request body size against provider limits.
pub fn check_request_body_size(request: &MessageRequest, config: &OllamaConfig) -> (r: Result<(), ApiError>)
    ensures
        encode_utf8(probe_body(config.model@, request_wire_messages(*request), request.stream)).len() <= config.max_request_body_bytes ==> r is Ok,
        encode_utf8(probe_body(config.model@, request_wire_messages(*request), request.stream)).len() > config.max_request_body_bytes ==> (r matches Err(
            ApiError::RequestBodySizeExceeded { estimated_bytes, max_bytes, provider },
        ) && estimated_bytes == encode_utf8(probe_body(config.model@, request_wire_messages(*request), request.stream)).len() && max_bytes
            == config.max_request_body_bytes && provider@ == "Ollama"@),
{
    let estimated_bytes = estimate_request_body_size(request, config);
    if estimated_bytes > config.max_request_body_bytes {
        Err(
            ApiError::RequestBodySizeExceeded {
                estimated_bytes,
                max_bytes: config.max_request_body_bytes,
                provider: owned("Ollama"),
            },
        )
    } else {
        Ok(())
    }
}

/// `body` cut to its first `max_chars` characters, with the one-byte marker
/// `.` added when something was cut.
pub open spec fn spec_truncate_snippet(body: Seq<char>, max_chars: nat) -> Seq<char> {
    if body.len() > max_chars {
        body.take(max_chars as int).push('.')
    } else {
        body
    }
}

/// Truncate `body` to a snippet of its leading `max_chars` characters
/// (counted as Unicode scalar values, not bytes), followed by the marker `.`
/// when something was cut, so that a cut snippet of an ASCII body holds
/// `max_chars + 1` characters in as many bytes.
pub fn truncate_body_snippet(body: &str, max_chars: usize) -> (r: String)
    ensures
        r@ == spec_truncate_snippet(body@, max_chars as nat),
{
    let v = chars_of(body);
    if v.len() > max_chars {
        let mut out: Vec<char> = Vec::new();
        let mut i: usize = 0;
        while i < max_chars
            invariant
                i <= max_chars < v@.len(),
                out@ == v@.take(i as int),
            decreases max_chars - i,
        {
            out.push(v[i]);
            assert(v@.take(i + 1) =~= v@.take(i as int).push(v@[i as int]));
            i = i + 1;
        }
        out.push('.');
        string_from_chars(out.as_slice())
    } else {
        owned(body)
    }
}

/// The configured base URL never ends with a slash: trimming leaves text
/// that is empty or ends otherwise, and trimming again changes nothing.
pub proof fn lemma_base_url_trimmed(url: Seq<char>)
    ensures
        spec_trim_end_char(url, '/').len() == 0 || spec_trim_end_char(url, '/').last() != '/',
        spec_trim_end_char(spec_trim_end_char(url, '/'), '/') == spec_trim_end_char(url, '/'),
    decreases url.len(),
{
    if url.len() > 0 && url.last() == '/' {
        lemma_base_url_trimmed(url.drop_last());
    }
}

/// A snippet keeps the leading characters of the body: it holds at most one
/// character more than asked for, and it is the body itself when nothing had
/// to be cut.
pub proof fn lemma_snippet_bounded(body: Seq<char>, max_chars: nat)
    ensures
        spec_truncate_snippet(body, max_chars).len() <= max_chars + 1,
        body.len() <= max_chars ==> spec_truncate_snippet(body, max_chars) == body,
        body.len() > max_chars ==> spec_truncate_snippet(body, max_chars).take(max_chars as int) == body.take(
            max_chars as int,
        ),
{
    if body.len() > max_chars {
        assert(spec_truncate_snippet(body, max_chars).take(max_chars as int) =~= body.take(max_chars as int));
    }
}

/// A request that can be cut down to fit a provider's limits.
pub trait RequestTruncater: Sized {
    fn truncater() -> Self;
}

} // verus!
