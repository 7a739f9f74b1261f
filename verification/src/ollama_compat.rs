//! Ollama compatibility layer: tool calls written into model text, response
//! normalization, error mapping and retry backoff.
use vstd::prelude::*;
use vstd::utf8::encode_utf8;
use crate::api_types::{ApiError, InputContentBlock, InputMessage, MessageRequest, MessageResponse,
    OutputContentBlock, ToolDefinition, Usage, opt_view};
use crate::json::{array_at, is_json_object, json_array_at, json_string_at, parses_as_json_object, string_at};
use crate::text::{decimal, decimal_string, join2, join3, owned};
use crate::json::{json_quoted, quote};
use crate::ollama_wire::{comma_joined, join_commas, texts};

verus! {

/// Ollama compatibility configuration.
#[derive(Debug, Clone, Copy, PartialEq, Eq)]
pub struct OllamaCompatConfig {
    pub provider_name: &'static str,
    pub api_key_env: &'static str,
    pub base_url_env: &'static str,
    pub default_base_url: &'static str,
    pub max_request_body_bytes: usize,
}

impl OllamaCompatConfig {
    /// Create Ollama configuration: a dummy-able API key, the local server by
    /// default, and a 10 MB body limit.
    pub fn ollama() -> (c: Self)
        ensures
            c.provider_name@ == "Ollama"@,
            c.api_key_env@ == "OLLAMA_API_KEY"@,
            c.base_url_env@ == "OLLAMA_BASE_URL"@,
            c.default_base_url@ == "http://localhost:11434/v1"@,
            c.max_request_body_bytes == 10_485_760,
    {
        Self {
            provider_name: "Ollama",
            api_key_env: "OLLAMA_API_KEY",
            base_url_env: "OLLAMA_BASE_URL",
            default_base_url: "http://localhost:11434/v1",
            max_request_body_bytes: 10_485_760,
        }
    }
}

/// Tool call extracted from model response text.
#[derive(Debug, Clone, PartialEq, Eq)]
pub struct ExtractedToolCall {
    pub tool_name: String,
    pub tool_id: String,
    /// The call's argument object, as the JSON text the model wrote.
    pub arguments: String,
}

/// `[TOOL_CALL] name: read_file, args: {...}`
pub const TOOL_CALL_PATTERN: &'static str = r"\[TOOL_CALL\]\s+name:\s*(\w+),\s*args:\s*(\{[^}]*\})";

/// `Tool: read_file({...})`
pub const TOOL_FN_PATTERN: &'static str = r"Tool:\s*(\w+)\s*\((\{[^}]*\})\)";

/// `<tool name="read_file">...</tool>`: the tool's name and the text between
/// the tags.
pub const TOOL_TAG_PATTERN: &'static str = r#"<tool\s+name="(\w+)">((?s:.*?))</tool>"#;

/// `<param name="path">...</param>`: a parameter's name and its value.
pub const PARAM_PATTERN: &'static str = r#"<param\s+name="(\w+)">([^<]*)</param>"#;

/// Groups 1 and 2 of each match that `regex::Regex::captures_iter` finds for
/// `pattern` in `text`, in order; `None` when `pattern` does not compile.
pub uninterp spec fn regex_captures(pattern: Seq<char>, text: Seq<char>) -> Option<
    Seq<(Option<Seq<char>>, Option<Seq<char>>)>,
>;

/// `regex::Regex::new(pattern)` then `captures_iter(text)`, keeping groups 1
/// and 2 of each match as owned strings. The contract claims that the result
/// is a function of the pattern and the text, named `regex_captures`.
#[verifier::external_body]
fn capture_pairs(pattern: &str, text: &str) -> (r: Option<Vec<(Option<String>, Option<String>)>>)
    ensures
        r.deep_view() == regex_captures(pattern@, text@),
{
    match regex::Regex::new(pattern) {
        Ok(re) => Some(
            re.captures_iter(text).map(
                |c| (c.get(1).map(|m| m.as_str().to_string()), c.get(2).map(|m| m.as_str().to_string())),
            ).collect(),
        ),
        Err(_) => None,
    }
}

/// The captures of `pattern` in `text`, none when the pattern does not compile.
pub open spec fn captures_or_none(pattern: Seq<char>, text: Seq<char>) -> Seq<
    (Option<Seq<char>>, Option<Seq<char>>),
> {
    match regex_captures(pattern, text) {
        Some(c) => c,
        None => seq![],
    }
}

/// The (name, arguments) pairs among `caps` that make tool calls: both groups
/// matched, the name is one of `names`, and the arguments are a JSON object.
pub open spec fn accepted_calls(
    caps: Seq<(Option<Seq<char>>, Option<Seq<char>>)>,
    names: Seq<Seq<char>>,
) -> Seq<(Seq<char>, Seq<char>)>
    decreases caps.len(),
{
    if caps.len() == 0 {
        seq![]
    } else {
        let prev = accepted_calls(caps.drop_last(), names);
        match caps.last() {
            (Some(n), Some(a)) => if names.contains(n) && is_json_object(a) {
                prev.push((n, a))
            } else {
                prev
            },
            _ => prev,
        }
    }
}

/// The JSON members of the parameters among `caps`: each name and value,
/// both quoted as JSON strings, for the matches where both groups matched.
pub open spec fn param_members(caps: Seq<(Option<Seq<char>>, Option<Seq<char>>)>) -> Seq<Seq<char>>
    decreases caps.len(),
{
    if caps.len() == 0 {
        seq![]
    } else {
        let prev = param_members(caps.drop_last());
        match caps.last() {
            (Some(k), Some(v)) => prev.push(json_quoted(k) + ":"@ + json_quoted(v)),
            _ => prev,
        }
    }
}

/// The argument object of a `<tool>` call: the JSON object of the
/// `<param>` elements in its body, in order.
pub open spec fn params_object(body: Seq<char>) -> Seq<char> {
    "{"@ + comma_joined(param_members(captures_or_none(PARAM_PATTERN@, body))) + "}"@
}

/// The (name, arguments) candidates of the `<tool>` form: each match's name,
/// and the argument object of its body.
pub open spec fn tag_candidates(caps: Seq<(Option<Seq<char>>, Option<Seq<char>>)>) -> Seq<
    (Option<Seq<char>>, Option<Seq<char>>),
> {
    caps.map_values(
        |c: (Option<Seq<char>>, Option<Seq<char>>)|
            (
                c.0,
                match c.1 {
                    Some(b) => Some(params_object(b)),
                    None => None,
                },
            ),
    )
}

/// All tool calls found in `text`: those of the `[TOOL_CALL]` form first,
/// then those of the `Tool:` form, then those of the `<tool>` form, each
/// form in the order of the text.
pub open spec fn found_calls(text: Seq<char>, names: Seq<Seq<char>>) -> Seq<(Seq<char>, Seq<char>)> {
    accepted_calls(captures_or_none(TOOL_CALL_PATTERN@, text), names) + accepted_calls(
        captures_or_none(TOOL_FN_PATTERN@, text),
        names,
    ) + accepted_calls(tag_candidates(captures_or_none(TOOL_TAG_PATTERN@, text)), names)
}

/// The argument object of a `<tool>` call's body.
fn params_json(body: &str) -> (r: String)
    ensures
        r@ == params_object(body@),
{
    let mut members: Vec<String> = Vec::new();
    match capture_pairs(PARAM_PATTERN, body) {
        Some(caps) => {
            let mut i: usize = 0;
            while i < caps.len()
                invariant
                    i <= caps@.len(),
                    caps.deep_view() == captures_or_none(PARAM_PATTERN@, body@),
                    texts(members@) == param_members(caps.deep_view().take(i as int)),
                decreases caps.len() - i,
            {
                let ghost prefix = caps.deep_view().take(i as int);
                assert(caps.deep_view().take(i + 1).drop_last() =~= prefix);
                assert(caps.deep_view().take(i + 1).last() == caps.deep_view()[i as int]);
                match &caps[i] {
                    (Some(k), Some(v)) => {
                        assert(caps.deep_view()[i as int] == (Some(k@), Some(v@)));
                        let qk = quote(k.as_str());
                        let qv = quote(v.as_str());
                        let m = join3(qk.as_str(), ":", qv.as_str());
                        let ghost old_m = members@;
                        let ghost mv = m@;
                        members.push(m);
                        assert(texts(members@) =~= texts(old_m).push(mv));
                    },
                    _ => {
                        proof {
                            let cv = caps.deep_view()[i as int];
                            assert(!(cv.0 is Some && cv.1 is Some));
                        }
                    },
                }
                i = i + 1;
            }
            assert(caps.deep_view().take(caps@.len() as int) =~= caps.deep_view());
        },
        None => {},
    }
    let joined = join_commas(&members);
    join3("{", joined.as_str(), "}")
}

/// The candidates of the `<tool>` form in `text`.
fn tag_pairs(text: &str) -> (r: Vec<(Option<String>, Option<String>)>)
    ensures
        r.deep_view() == tag_candidates(captures_or_none(TOOL_TAG_PATTERN@, text@)),
{
    let mut r: Vec<(Option<String>, Option<String>)> = Vec::new();
    let caps_opt = capture_pairs(TOOL_TAG_PATTERN, text);
    let ghost all = captures_or_none(TOOL_TAG_PATTERN@, text@);
    match caps_opt {
        Some(caps) => {
            let mut i: usize = 0;
            while i < caps.len()
                invariant
                    i <= caps@.len(),
                    caps.deep_view() == all,
                    r.deep_view() == tag_candidates(all.take(i as int)),
                decreases caps.len() - i,
            {
                let name = match &caps[i].0 {
                    Some(n) => Some(n.clone()),
                    None => None,
                };
                let args = match &caps[i].1 {
                    Some(b) => Some(params_json(b.as_str())),
                    None => None,
                };
                let ghost old_r = r.deep_view();
                r.push((name, args));
                proof {
                    assert(all[i as int] == caps.deep_view()[i as int]);
                    assert(r.deep_view() =~= old_r.push(tag_candidates(all.take(i + 1)).last()));
                    assert(tag_candidates(all.take(i + 1)) =~= tag_candidates(all.take(i as int)).push(
                        tag_candidates(all.take(i + 1)).last(),
                    ));
                }
                i = i + 1;
            }
            assert(all.take(caps@.len() as int) =~= all);
        },
        None => {
            assert(tag_candidates(all) =~= Seq::<(Option<Seq<char>>, Option<Seq<char>>)>::empty());
        },
    }
    r
}

/// The id given to the tool call at position `k`.
pub open spec fn tool_call_id(k: int) -> Seq<char> {
    "tool_call_"@ + decimal(k as nat)
}

/// The names of `tools`.
pub open spec fn tool_names(tools: Seq<ToolDefinition>) -> Seq<Seq<char>> {
    tools.map_values(|t: ToolDefinition| t.name@)
}

/// `calls` holds exactly `found`, with ids numbered from zero.
pub open spec fn calls_match(calls: Seq<ExtractedToolCall>, found: Seq<(Seq<char>, Seq<char>)>) -> bool {
    &&& calls.len() == found.len()
    &&& forall|k: int|
        0 <= k < calls.len() ==> {
            &&& (#[trigger] calls[k]).tool_name@ == found[k].0
            &&& calls[k].arguments@ == found[k].1
            &&& calls[k].tool_id@ == tool_call_id(k)
        }
}

fn name_is_available(name: &String, tools: &[ToolDefinition]) -> (r: bool)
    ensures
        r == tool_names(tools@).contains(name@),
{
    let mut i: usize = 0;
    while i < tools.len()
        invariant
            i <= tools@.len(),
            forall|j: int| 0 <= j < i ==> tools@[j].name@ != name@,
        decreases tools.len() - i,
    {
        if tools[i].name == *name {
            assert(tool_names(tools@)[i as int] == name@);
            return true;
        }
        i = i + 1;
    }
    assert forall|j: int| 0 <= j < tool_names(tools@).len() implies tool_names(tools@)[j] != name@ by {
        assert(tools@[j].name@ != name@);
    }
    false
}

/// Append the tool calls among `caps` to `calls`.
fn push_accepted(
    calls: &mut Vec<ExtractedToolCall>,
    caps: &Vec<(Option<String>, Option<String>)>,
    tools: &[ToolDefinition],
    Ghost(before): Ghost<Seq<(Seq<char>, Seq<char>)>>,
)
    requires
        calls_match(old(calls)@, before),
    ensures
        calls_match(final(calls)@, before + accepted_calls(caps.deep_view(), tool_names(tools@))),
{
    let ghost names = tool_names(tools@);
    let mut i: usize = 0;
    while i < caps.len()
        invariant
            i <= caps@.len(),
            names == tool_names(tools@),
            calls_match(calls@, before + accepted_calls(caps.deep_view().take(i as int), names)),
        decreases caps.len() - i,
    {
        let ghost prefix = caps.deep_view().take(i as int);
        assert(caps.deep_view().take(i + 1).drop_last() =~= prefix);
        assert(caps.deep_view().take(i + 1).last() == caps.deep_view()[i as int]);
        match &caps[i] {
            (Some(name), Some(args)) => {
                assert(caps.deep_view()[i as int] == (Some(name@), Some(args@)));
                if name_is_available(name, tools) && parses_as_json_object(args.as_str()) {
                    let k = calls.len();
                    let id = join2("tool_call_", decimal_string(k as u64).as_str());
                    calls.push(
                        ExtractedToolCall { tool_name: name.clone(), tool_id: id, arguments: args.clone() },
                    );
                    proof {
                        let found = before + accepted_calls(caps.deep_view().take(i + 1), names);
                        let old_found = before + accepted_calls(prefix, names);
                        let t = caps.deep_view().take(i + 1);
                        assert(t.len() > 0);
                        assert(t.last() == (Some(name@), Some(args@)));
                        assert(names.contains(name@));
                        assert(is_json_object(args@));
                        assert(accepted_calls(t, names) == accepted_calls(t.drop_last(), names).push((name@, args@)));
                        assert(found =~= old_found.push((name@, args@)));
                        assert(calls_match(calls@, found)) by {
                            assert forall|j: int| 0 <= j < calls@.len() implies {
                                &&& (#[trigger] calls@[j]).tool_name@ == found[j].0
                                &&& calls@[j].arguments@ == found[j].1
                                &&& calls@[j].tool_id@ == tool_call_id(j)
                            } by {

                            }
                        }
                    }
                } else {
                    proof {
                        assert(accepted_calls(caps.deep_view().take(i + 1), names)
                            == accepted_calls(prefix, names));
                    }
                }
            },
            _ => {
                proof {
                    let cv = caps.deep_view()[i as int];
                    assert(!(cv.0 is Some && cv.1 is Some));
                    assert(accepted_calls(caps.deep_view().take(i + 1), names)
                        == accepted_calls(prefix, names));
                }
            },
        }
        i = i + 1;
    }
    assert(caps.deep_view().take(caps@.len() as int) =~= caps.deep_view());
}

/// Parse tool calls from model response text.
///
/// Three forms are recognised, `[TOOL_CALL] name: read_file, args: {...}`,
/// `Tool: read_file({...})` and
/// `<tool name="read_file"><param name="path">...</param></tool>`, whose
/// arguments are the object of its parameters as JSON strings; a call is kept
/// when its tool is one of `available_tools` and its arguments parse as a
/// JSON object. Calls are
/// numbered `tool_call_0`, `tool_call_1`, ... in the order they are kept.
pub fn parse_tool_calls_from_text(response_text: &str, available_tools: &[ToolDefinition]) -> (r: Vec<
    ExtractedToolCall,
>)
    ensures
        calls_match(r@, found_calls(response_text@, tool_names(available_tools@))),
{
    let first = capture_pairs(TOOL_CALL_PATTERN, response_text);
    let second = capture_pairs(TOOL_FN_PATTERN, response_text);
    let third = tag_pairs(response_text);
    collect_tool_calls(&first, &second, &third, available_tools)
}

/// The captures of a pattern, none when it did not compile.
pub open spec fn caps_or_empty(c: Option<Seq<(Option<Seq<char>>, Option<Seq<char>>)>>) -> Seq<
    (Option<Seq<char>>, Option<Seq<char>>),
> {
    match c {
        Some(c) => c,
        None => seq![],
    }
}

/// The tool calls among the candidates of the three forms: the captures of
/// the `[TOOL_CALL]` pattern (`None` when it did not compile), those of the
/// `Tool:` pattern, and the candidates of the `<tool>` form, in that order.
/// A candidate is kept when both its name and its arguments are there, the
/// name is one of `available_tools` and the arguments parse as a JSON
/// object; kept calls are numbered `tool_call_0`, `tool_call_1`, ...
pub fn collect_tool_calls(
    first: &Option<Vec<(Option<String>, Option<String>)>>,
    second: &Option<Vec<(Option<String>, Option<String>)>>,
    third: &Vec<(Option<String>, Option<String>)>,
    available_tools: &[ToolDefinition],
) -> (r: Vec<ExtractedToolCall>)
    ensures
        calls_match(
            r@,
            accepted_calls(caps_or_empty(first.deep_view()), tool_names(available_tools@)) + accepted_calls(
                caps_or_empty(second.deep_view()),
                tool_names(available_tools@),
            ) + accepted_calls(third.deep_view(), tool_names(available_tools@)),
        ),
{
    let mut tool_calls: Vec<ExtractedToolCall> = Vec::new();
    let ghost names = tool_names(available_tools@);
    let ghost first_found: Seq<(Seq<char>, Seq<char>)> = seq![];
    match first {
        Some(caps) => {
            push_accepted(&mut tool_calls, caps, available_tools, Ghost(Seq::<(Seq<char>, Seq<char>)>::empty()));
            proof { first_found = seq![] + accepted_calls(caps.deep_view(), names); }
        },
        None => {},
    }
    assert(first_found =~= accepted_calls(caps_or_empty(first.deep_view()), names));
    let ghost second_found: Seq<(Seq<char>, Seq<char>)> = first_found;
    match second {
        Some(caps) => {
            push_accepted(&mut tool_calls, caps, available_tools, Ghost(first_found));
            proof { second_found = first_found + accepted_calls(caps.deep_view(), names); }
        },
        None => {
            assert(first_found + seq![] =~= first_found);
        },
    }
    assert(second_found =~= accepted_calls(caps_or_empty(first.deep_view()), names) + accepted_calls(
        caps_or_empty(second.deep_view()),
        names,
    ));
    push_accepted(&mut tool_calls, third, available_tools, Ghost(second_found));
    tool_calls
}

/// Every call kept from captures names an available tool and has a JSON
/// object as arguments.
proof fn lemma_accepted_valid(caps: Seq<(Option<Seq<char>>, Option<Seq<char>>)>, names: Seq<Seq<char>>)
    ensures
        forall|k: int| 0 <= k < accepted_calls(caps, names).len() ==> names.contains(
            #[trigger] accepted_calls(caps, names)[k].0,
        ) && is_json_object(accepted_calls(caps, names)[k].1),
    decreases caps.len(),
{
    if caps.len() > 0 {
        lemma_accepted_valid(caps.drop_last(), names);
        let prev = accepted_calls(caps.drop_last(), names);
        assert forall|k: int| 0 <= k < accepted_calls(caps, names).len() implies names.contains(
            #[trigger] accepted_calls(caps, names)[k].0,
        ) && is_json_object(accepted_calls(caps, names)[k].1) by {
            if k < prev.len() {
                assert(accepted_calls(caps, names)[k] == prev[k]);
            }
        }
    }
}

/// Every tool call found in a text names one of the available tools and
/// carries a JSON object as its arguments.
pub proof fn lemma_found_calls_valid(text: Seq<char>, names: Seq<Seq<char>>)
    ensures
        forall|k: int| 0 <= k < found_calls(text, names).len() ==> names.contains(
            #[trigger] found_calls(text, names)[k].0,
        ) && is_json_object(found_calls(text, names)[k].1),
{
    let a = accepted_calls(captures_or_none(TOOL_CALL_PATTERN@, text), names) + accepted_calls(
        captures_or_none(TOOL_FN_PATTERN@, text),
        names,
    );
    let b = accepted_calls(tag_candidates(captures_or_none(TOOL_TAG_PATTERN@, text)), names);
    let a1 = accepted_calls(captures_or_none(TOOL_CALL_PATTERN@, text), names);
    let a2 = accepted_calls(captures_or_none(TOOL_FN_PATTERN@, text), names);
    lemma_accepted_valid(captures_or_none(TOOL_CALL_PATTERN@, text), names);
    lemma_accepted_valid(captures_or_none(TOOL_FN_PATTERN@, text), names);
    lemma_accepted_valid(tag_candidates(captures_or_none(TOOL_TAG_PATTERN@, text)), names);
    assert forall|k: int| 0 <= k < a.len() implies names.contains(#[trigger] a[k].0) && is_json_object(a[k].1) by {
        if k < a1.len() {
            assert(a[k] == a1[k]);
            assert(names.contains(a1[k].0));
            assert(is_json_object(a1[k].1));
        } else {
            let j = k - a1.len();
            assert(a[k] == a2[j]);
            assert(names.contains(a2[j].0));
            assert(is_json_object(a2[j].1));
        }
    }
    assert(found_calls(text, names) == a + b);
    assert forall|k: int| 0 <= k < found_calls(text, names).len() implies names.contains(
        #[trigger] found_calls(text, names)[k].0,
    ) && is_json_object(found_calls(text, names)[k].1) by {
        if k < a.len() {
            assert(found_calls(text, names)[k] == a[k]);
            assert(names.contains(a[k].0));
            assert(is_json_object(a[k].1));
        } else {
            let j = k - a.len();
            assert(0 <= j < b.len());
            assert(found_calls(text, names)[k] == b[j]);
            assert(names.contains(b[j].0));
            assert(is_json_object(b[j].1));
        }
    }
}

/// Number of UTF-8 bytes of `s`, as `str::len` gives it.
pub open spec fn byte_len(s: Seq<char>) -> usize {
    encode_utf8(s).len() as usize
}

/// Bytes of text in the blocks of one message.
pub open spec fn blocks_text_bytes(blocks: Seq<InputContentBlock>) -> nat
    decreases blocks.len(),
{
    if blocks.len() == 0 {
        0
    } else {
        blocks_text_bytes(blocks.drop_last()) + match blocks.last() {
            InputContentBlock::Text { text } => byte_len(text@) as nat,
            _ => 0nat,
        }
    }
}

/// Bytes of text in all messages of a request.
pub open spec fn messages_text_bytes(msgs: Seq<InputMessage>) -> nat
    decreases msgs.len(),
{
    if msgs.len() == 0 {
        0
    } else {
        messages_text_bytes(msgs.drop_last()) + blocks_text_bytes(msgs.last().content@)
    }
}

proof fn lemma_blocks_prefix(blocks: Seq<InputContentBlock>, i: int)
    requires
        0 <= i <= blocks.len(),
    ensures
        blocks_text_bytes(blocks.take(i)) <= blocks_text_bytes(blocks),
    decreases blocks.len() - i,
{
    if i < blocks.len() {
        lemma_blocks_prefix(blocks, i + 1);
        assert(blocks.take(i + 1).drop_last() =~= blocks.take(i));
    } else {
        assert(blocks.take(i) =~= blocks);
    }
}

proof fn lemma_messages_prefix(msgs: Seq<InputMessage>, i: int)
    requires
        0 <= i <= msgs.len(),
    ensures
        messages_text_bytes(msgs.take(i)) <= messages_text_bytes(msgs),
    decreases msgs.len() - i,
{
    if i < msgs.len() {
        lemma_messages_prefix(msgs, i + 1);
        assert(msgs.take(i + 1).drop_last() =~= msgs.take(i));
    } else {
        assert(msgs.take(i) =~= msgs);
    }
}

fn text_bytes_of_blocks(blocks: &Vec<InputContentBlock>, bound: usize) -> (n: usize)
    requires
        blocks_text_bytes(blocks@) <= bound,
    ensures
        n == blocks_text_bytes(blocks@),
{
    let mut n: usize = 0;
    let mut i: usize = 0;
    while i < blocks.len()
        invariant
            i <= blocks@.len(),
            n == blocks_text_bytes(blocks@.take(i as int)),
            blocks_text_bytes(blocks@) <= bound,
        decreases blocks.len() - i,
    {
        proof {
            lemma_blocks_prefix(blocks@, i + 1);
            assert(blocks@.take(i + 1).drop_last() =~= blocks@.take(i as int));
        }
        match &blocks[i] {
            InputContentBlock::Text { text } => {
                n = n + text.as_str().len();
            },
            _ => {},
        }
        i = i + 1;
    }
    assert(blocks@.take(blocks@.len() as int) =~= blocks@);
    n
}

fn text_bytes_of_messages(msgs: &Vec<InputMessage>) -> (n: usize)
    requires
        messages_text_bytes(msgs@) <= usize::MAX,
    ensures
        n == messages_text_bytes(msgs@),
{
    let mut n: usize = 0;
    let mut i: usize = 0;
    while i < msgs.len()
        invariant
            i <= msgs@.len(),
            n == messages_text_bytes(msgs@.take(i as int)),
            messages_text_bytes(msgs@) <= usize::MAX,
        decreases msgs.len() - i,
    {
        proof {
            lemma_messages_prefix(msgs@, i + 1);
            assert(msgs@.take(i + 1).drop_last() =~= msgs@.take(i as int));
        }
        let m = text_bytes_of_blocks(&msgs[i].content, usize::MAX - n);
        n = n + m;
        i = i + 1;
    }
    assert(msgs@.take(msgs@.len() as int) =~= msgs@);
    n
}

/// Where the reply text sits in an OpenAI-style response.
pub open spec fn reply_content_pointer() -> Seq<char> {
    "/choices/0/message/content"@
}

/// The reply text of an OpenAI-style response, empty when there is none:
/// the first choice is looked for only when `choices` is an array.
pub open spec fn reply_content(response_json: Seq<char>) -> Seq<char> {
    if json_array_at(response_json, "/choices"@) {
        match json_string_at(response_json, reply_content_pointer()) {
            Some(s) => s,
            None => seq![],
        }
    } else {
        seq![]
    }
}

/// The normalized reply to `request`, given the response JSON and the id suffix.
pub open spec fn normalized_reply_ok(
    r: MessageResponse,
    response_json: Seq<char>,
    request: MessageRequest,
    id_suffix: Seq<char>,
) -> bool {
    let content = reply_content(response_json);
    &&& r.id@ == "ollama-"@ + id_suffix
    &&& r.kind@ == "message"@
    &&& r.role@ == "assistant"@
    &&& r.model@ == request.model@
    &&& r.content@.len() == 1
    &&& r.content@[0] matches OutputContentBlock::Text { text } && text@ == content
    &&& r.usage.input_tokens == (messages_text_bytes(request.messages@) / 4) as u32
    &&& r.usage.output_tokens == (byte_len(content) / 4) as u32
    &&& r.usage.cache_creation_input_tokens == 0
    &&& r.usage.cache_read_input_tokens == 0
    &&& opt_view(r.stop_reason) == Some("end_turn"@)
    &&& r.stop_sequence is None
    &&& r.request_id is None
}

/// Build the normalized reply with a given id suffix.
///
/// The reply text is read at `/choices/0/message/content` when `choices` is
/// an array; tool calls are
/// looked for in it against an empty tool list, so none is ever found. Token
/// counts are estimated as a quarter of the UTF-8 bytes of text.
pub fn normalize_ollama_response_with_id(
    ollama_response: &str,
    request: &MessageRequest,
    id_suffix: &str,
) -> (r: Result<MessageResponse, ApiError>)
    requires
        messages_text_bytes(request.messages@) <= usize::MAX,
    ensures
        r matches Ok(resp) && normalized_reply_ok(resp, ollama_response@, *request, id_suffix@),
{
    proof {
        reveal_strlit("/choices/0/message/content");
    }
    let content_str = if array_at(ollama_response, "/choices") {
        match string_at(ollama_response, "/choices/0/message/content") {
            Some(s) => s,
            None => String::new(),
        }
    } else {
        String::new()
    };
    let empty: Vec<ToolDefinition> = Vec::new();
    let tool_calls = parse_tool_calls_from_text(content_str.as_str(), empty.as_slice());
    proof {
        lemma_no_calls_without_tools(content_str@);
    }
    // No tool is offered, so no tool call is found and the reply is its text.
    assert(tool_calls@.len() == 0);
    let mut content: Vec<OutputContentBlock> = Vec::new();
    content.push(OutputContentBlock::Text { text: content_str.clone() });
    let input_bytes = text_bytes_of_messages(&request.messages);
    let input_tokens = (input_bytes / 4) as u32;
    let output_tokens = (content_str.as_str().len() / 4) as u32;
    Ok(MessageResponse {
        id: join2("ollama-", id_suffix),
        kind: owned("message"),
        role: owned("assistant"),
        content,
        model: request.model.clone(),
        stop_reason: Some(owned("end_turn")),
        stop_sequence: None,
        usage: Usage {
            input_tokens,
            cache_creation_input_tokens: 0,
            cache_read_input_tokens: 0,
            output_tokens,
        },
        request_id: None,
    })
}

proof fn lemma_no_calls_without_tools(text: Seq<char>)
    ensures
        found_calls(text, tool_names(Seq::<ToolDefinition>::empty())).len() == 0,
{
    let names = tool_names(Seq::<ToolDefinition>::empty());
    assert(names =~= Seq::<Seq<char>>::empty());
    lemma_accepted_none(captures_or_none(TOOL_CALL_PATTERN@, text), names);
    lemma_accepted_none(captures_or_none(TOOL_FN_PATTERN@, text), names);
    lemma_accepted_none(tag_candidates(captures_or_none(TOOL_TAG_PATTERN@, text)), names);
}

proof fn lemma_accepted_none(caps: Seq<(Option<Seq<char>>, Option<Seq<char>>)>, names: Seq<Seq<char>>)
    requires
        names.len() == 0,
    ensures
        accepted_calls(caps, names).len() == 0,
    decreases caps.len(),
{
    if caps.len() > 0 {
        lemma_accepted_none(caps.drop_last(), names);
    }
}

/// Normalize an Ollama response to the reply format, with a fresh random id
/// (`ollama-` and a UUID).
pub fn normalize_ollama_response(ollama_response: &str, request: &MessageRequest) -> (r: Result<
    MessageResponse,
    ApiError,
>)
    requires
        messages_text_bytes(request.messages@) <= usize::MAX,
    ensures
        r matches Ok(resp) && exists|u: Seq<char>|
            u.len() == 36 && normalized_reply_ok(resp, ollama_response@, *request, u),
{
    let id = crate::ids::new_uuid_v4();
    normalize_ollama_response_with_id(ollama_response, request, id.as_str())
}

/// Estimate token count for streaming content: a quarter of the UTF-8 bytes,
/// at least one.
pub fn estimate_tokens(text: &str) -> (r: u32)
    ensures
        r == (if text.len() / 4 >= 1 { text.len() / 4 } else { 1 }) as u32,
{
    let q = text.len() / 4;
    let m = if q >= 1 { q } else { 1 };
    m as u32
}

/// The error kind, message and advice for an HTTP status from Ollama.
pub open spec fn ollama_error_fields(status: u16) -> (Seq<char>, Seq<char>, bool, Option<Seq<char>>) {
    if status == 400 {
        ("bad_request"@, "Ollama: Invalid request"@, false, Some("Check request format and model name"@))
    } else if status == 401 {
        ("unauthorized"@, "Ollama: Authentication failed"@, false, Some("Check OLLAMA_API_KEY"@))
    } else if status == 404 {
        ("not_found"@, "Ollama: Model not found"@, false, Some("Run 'ollama pull <model>' to download model"@))
    } else if status == 429 {
        ("rate_limited"@, "Ollama: Rate limited"@, true, Some("Retry after a delay"@))
    } else if 500 <= status <= 599 {
        ("server_error"@, "Ollama: Server error"@, true, Some("Ollama server may be down, retry later"@))
    } else {
        ("unknown"@, "Ollama: Unknown error"@, true, None)
    }
}

/// Rate limiting (429), server errors (500 to 599) and unknown statuses are
/// worth retrying; the client errors 400, 401 and 404 are not. Each of those
/// five kinds of status has its own error type.
pub proof fn lemma_retryable_statuses(status: u16)
    ensures
        ollama_error_fields(status).2 <==> !(status == 400 || status == 401 || status == 404),
        status == 429 ==> ollama_error_fields(status).0 == "rate_limited"@,
        500 <= status <= 599 ==> ollama_error_fields(status).0 == "server_error"@,
        status == 400 ==> ollama_error_fields(status).0 == "bad_request"@,
        status == 401 ==> ollama_error_fields(status).0 == "unauthorized"@,
        status == 404 ==> ollama_error_fields(status).0 == "not_found"@,
{
}

/// Map an Ollama HTTP error status and body to an `ApiError::Api`.
pub fn map_ollama_error(status: u16, body: &str) -> (r: ApiError)
    ensures
        r matches ApiError::Api {
            status: s,
            error_type: Some(t),
            message: Some(m),
            request_id: None,
            body: b,
            retryable,
            suggested_action: a,
        } && s == status && b@ == body@ && t@ == ollama_error_fields(status).0
            && m@ == ollama_error_fields(status).1 && retryable == ollama_error_fields(status).2
            && opt_view(a) == ollama_error_fields(status).3,
{
    let (error_type, message, retryable, suggested_action) = if status == 400 {
        ("bad_request", "Ollama: Invalid request", false, Some(owned("Check request format and model name")))
    } else if status == 401 {
        ("unauthorized", "Ollama: Authentication failed", false, Some(owned("Check OLLAMA_API_KEY")))
    } else if status == 404 {
        ("not_found", "Ollama: Model not found", false, Some(owned("Run 'ollama pull <model>' to download model")))
    } else if status == 429 {
        ("rate_limited", "Ollama: Rate limited", true, Some(owned("Retry after a delay")))
    } else if 500 <= status && status <= 599 {
        ("server_error", "Ollama: Server error", true, Some(owned("Ollama server may be down, retry later")))
    } else {
        ("unknown", "Ollama: Unknown error", true, None)
    };
    ApiError::Api {
        status,
        error_type: Some(owned(error_type)),
        message: Some(owned(message)),
        request_id: None,
        body: owned(body),
        retryable,
        suggested_action,
    }
}

/// 2 to the power `k`.
pub open spec fn pow2(k: nat) -> nat
    decreases k,
{
    if k == 0 { 1 } else { 2 * pow2((k - 1) as nat) }
}

/// The backoff delay in milliseconds: `min(base * 2^attempt, max)`.
pub open spec fn backoff_ms(attempt: u32, base_ms: u64, max_ms: u64) -> int {
    let d = base_ms * pow2(attempt as nat);
    if d < max_ms { d } else { max_ms as int }
}

/// Exponential backoff calculator for retries, in milliseconds:
/// `min(base * 2^attempt, max)`. The doubling stops as soon as the ceiling
/// is passed, so no product is formed that could overflow.
pub fn calculate_backoff(attempt: u32, base_ms: u64, max_ms: u64) -> (r: u64)
    ensures
        r == backoff_ms(attempt, base_ms, max_ms),
{
    if base_ms >= max_ms {
        proof {
            lemma_pow2_pos(attempt as nat);
            assert(base_ms * pow2(attempt as nat) >= base_ms) by (nonlinear_arith)
                requires pow2(attempt as nat) >= 1;
        }
        return max_ms;
    }
    let mut d: u64 = base_ms;
    let mut i: u32 = 0;
    assert(pow2(0) == 1);
    assert(base_ms * pow2(0) == base_ms) by (nonlinear_arith)
        requires pow2(0) == 1;
    while i < attempt
        invariant
            i <= attempt,
            d == base_ms * pow2(i as nat),
            d <= max_ms,
        decreases attempt - i,
    {
        assert(pow2((i + 1) as nat) == 2 * pow2(i as nat));
        assert(base_ms * pow2((i + 1) as nat) == 2 * (base_ms * pow2(i as nat))) by (nonlinear_arith)
            requires pow2((i + 1) as nat) == 2 * pow2(i as nat);
        if d > max_ms / 2 {
            proof {
                lemma_pow2_monotone((i + 1) as nat, attempt as nat);
                assert(base_ms * pow2((i + 1) as nat) <= base_ms * pow2(attempt as nat)) by (nonlinear_arith)
                    requires pow2((i + 1) as nat) <= pow2(attempt as nat);
            }
            return max_ms;
        }
        d = d * 2;
        i = i + 1;
    }
    if d < max_ms { d } else { max_ms }
}

proof fn lemma_pow2_pos(k: nat)
    ensures
        pow2(k) >= 1,
    decreases k,
{
    if k > 0 {
        lemma_pow2_pos((k - 1) as nat);
    }
}

/// The backoff never exceeds its ceiling and grows with the attempt number.
pub proof fn lemma_backoff_bounded_monotone(a: u32, b: u32, base_ms: u64, max_ms: u64)
    requires
        a <= b,
    ensures
        backoff_ms(a, base_ms, max_ms) <= max_ms,
        backoff_ms(a, base_ms, max_ms) <= backoff_ms(b, base_ms, max_ms),
{
    let ka: nat = a as nat;
    let kb: nat = b as nat;
    lemma_pow2_monotone(ka, kb);
    assert(base_ms * pow2(ka) <= base_ms * pow2(kb)) by (nonlinear_arith)
        requires pow2(ka) <= pow2(kb);
}

proof fn lemma_pow2_monotone(i: nat, j: nat)
    requires
        i <= j,
    ensures
        pow2(i) <= pow2(j),
    decreases j,
{
    if i < j {
        lemma_pow2_monotone(i, (j - 1) as nat);
        lemma_pow2_pos((j - 1) as nat);
    }
}

} // verus!
