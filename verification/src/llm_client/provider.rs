use vstd::prelude::*;

use super::error::ClientError;
use super::request::{Message, Role};
use super::response::{ChatResponse, Choice, Delta, StreamChoice, StreamChunk, Usage};
use crate::json::{
    json_as_str, json_get, json_parses, json_root, json_str1, json_str2, parse_json, JsonAt,
};
use crate::text::{owned, str_eq};

verus! {

/// Whether `data` is the `[DONE]` sentinel that ends an SSE stream.
pub fn is_done_sentinel(data: &str) -> (r: bool)
    ensures
        r == (data@ == "[DONE]"@),
{
    str_eq(data, "[DONE]")
}

/// Whether `c` is a single-choice chunk `id` whose choice has index 0, the
/// given delta role and content, no tool calls, and the given finish
/// reason.
pub open spec fn single_choice_chunk(
    c: StreamChunk,
    id: Seq<char>,
    role: Option<Seq<char>>,
    content: Option<Seq<char>>,
    finish: Option<Seq<char>>,
) -> bool {
    &&& c.id@ == id
    &&& c.choices@.len() == 1
    &&& c.choices@[0].index == 0
    &&& opt_view(c.choices@[0].delta.role) == role
    &&& opt_view(c.choices@[0].delta.content) == content
    &&& c.choices@[0].delta.tool_calls is None
    &&& opt_view(c.choices@[0].finish_reason) == finish
}

/// The view of an optional string.
pub open spec fn opt_view(o: Option<String>) -> Option<Seq<char>> {
    match o {
        Some(s) => Some(s@),
        None => None,
    }
}

fn one_choice_chunk(id: &str, role: Option<String>, content: Option<String>, finish: Option<String>) -> (r: StreamChunk)
    ensures
        single_choice_chunk(r, id@, opt_view(role), opt_view(content), opt_view(finish)),
{
    let mut choices: Vec<StreamChoice> = Vec::new();
    choices.push(StreamChoice {
        index: 0,
        delta: Delta { role, content, tool_calls: None },
        finish_reason: finish,
    });
    StreamChunk { id: owned(id), choices }
}

/// The chunk of an Anthropic stream event of type `event_type`, whose
/// delta text is `text` and whose delta stop reason is `stop`: a content
/// delta carries its text (empty when missing), a message delta carries the
/// stop reason, any other event carries no chunk.
pub open spec fn anthropic_event_spec(
    event_type: Seq<char>,
    text: Option<Seq<char>>,
    stop: Option<Seq<char>>,
    r: Option<StreamChunk>,
) -> bool {
    if event_type == "content_block_delta"@ {
        r matches Some(c) && single_choice_chunk(
            c,
            "anthropic"@,
            None,
            Some(
                match text {
                    Some(t) => t,
                    None => Seq::empty(),
                },
            ),
            None,
        )
    } else if event_type == "message_delta"@ {
        r matches Some(c) && single_choice_chunk(c, "anthropic"@, None, None, stop)
    } else {
        r is None
    }
}

/// The chunk of an Anthropic stream event, from the event's type and the
/// text and stop reason of its delta.
pub fn anthropic_event_chunk(event_type: &str, text: Option<String>, stop: Option<String>) -> (r: Option<StreamChunk>)
    ensures
        anthropic_event_spec(event_type@, opt_view(text), opt_view(stop), r),
{
    if str_eq(event_type, "content_block_delta") {
        let t = match text {
            Some(t) => t,
            None => String::new(),
        };
        Some(one_choice_chunk("anthropic", None, Some(t), None))
    } else if str_eq(event_type, "message_delta") {
        Some(one_choice_chunk("anthropic", None, None, stop))
    } else {
        None
    }
}

/// The string under `key` of `at`, when there is one.
fn field_str(at: &JsonAt, key: &str) -> (r: Option<String>)
    ensures
        opt_view(r) == (if json_has_at(at, key@) {
            crate::json::json_str_at(at.text(), at.path().push(key@))
        } else {
            None
        }),
{
    match json_get(at, key) {
        Some(f) => json_as_str(&f),
        None => None,
    }
}

/// Whether the key `key` of `at` holds a value.
pub open spec fn json_has_at(at: &JsonAt, key: Seq<char>) -> bool {
    crate::json::json_has(at.text(), at.path().push(key))
}

/// The type of an Anthropic event parsed from `data`: its `type` string,
/// or empty.
pub open spec fn event_type_of(data: Seq<char>) -> Seq<char> {
    match json_str1(data, "type"@) {
        Some(t) => t,
        None => Seq::empty(),
    }
}

/// Parses the data of an Anthropic SSE event: the `[DONE]` sentinel gives
/// no chunk; otherwise the data must be JSON (else a `Json` error), and the
/// chunk follows from its `type`, `delta.text` and `delta.stop_reason` as
/// `anthropic_event_spec` says (a missing or non-text type counts as empty).
pub fn parse_anthropic_event(data: &str) -> (r: Result<Option<StreamChunk>, ClientError>)
    ensures
        data@ == "[DONE]"@ ==> (r matches Ok(None)),
        data@ != "[DONE]"@ ==> ((r matches Err(ClientError::Json(_))) <==> !json_parses(data@)),
        data@ != "[DONE]"@ ==> (r is Err ==> (r matches Err(ClientError::Json(_)))),
        data@ != "[DONE]"@ && json_parses(data@) ==> (r matches Ok(c) && anthropic_event_spec(
            event_type_of(data@),
            json_str2(data@, "delta"@, "text"@),
            json_str2(data@, "delta"@, "stop_reason"@),
            c,
        )),
{
    if is_done_sentinel(data) {
        return Ok(None);
    }
    let doc = match parse_json(data) {
        Ok(d) => d,
        Err(e) => {
            return Err(ClientError::Json(e));
        },
    };
    let root = json_root(&doc);
    assert(Seq::<Seq<char>>::empty().push("type"@) =~= seq!["type"@]);
    let event_type = match field_str(&root, "type") {
        Some(t) => t,
        None => String::new(),
    };
    let (text, stop) = match json_get(&root, "delta") {
        Some(d) => {
            assert(Seq::<Seq<char>>::empty().push("delta"@) =~= seq!["delta"@]);
            assert(seq!["delta"@].push("text"@) =~= seq!["delta"@, "text"@]);
            assert(seq!["delta"@].push("stop_reason"@) =~= seq!["delta"@, "stop_reason"@]);
            (field_str(&d, "text"), field_str(&d, "stop_reason"))
        },
        None => {
            assert(Seq::<Seq<char>>::empty().push("delta"@) =~= seq!["delta"@]);
            (None, None)
        },
    };
    let c = anthropic_event_chunk(event_type.as_str(), text, stop);
    Ok(c)
}

/// The chunk of one line of an Ollama stream whose message content is
/// `content`, that is `done` or not, with the given done reason: the delta
/// has role `assistant` and the content when it is not empty; a done line
/// finishes with its done reason, `stop` when it has none.
pub open spec fn ollama_chunk_spec(content: Seq<char>, done: bool, reason: Option<Seq<char>>, c: StreamChunk) -> bool {
    single_choice_chunk(
        c,
        "ollama"@,
        Some("assistant"@),
        if content.len() == 0 {
            None
        } else {
            Some(content)
        },
        if done {
            Some(
                match reason {
                    Some(t) => t,
                    None => "stop"@,
                },
            )
        } else {
            None
        },
    )
}

/// The chunk of one line of an Ollama stream.
pub fn ollama_stream_chunk(content: String, done: bool, done_reason: Option<String>) -> (r: StreamChunk)
    ensures
        ollama_chunk_spec(content@, done, opt_view(done_reason), r),
{
    let c = if content.as_str().is_empty() {
        None
    } else {
        Some(content)
    };
    let finish = if done {
        match done_reason {
            Some(t) => Some(t),
            None => Some(owned("stop")),
        }
    } else {
        None
    };
    one_choice_chunk("ollama", Some(owned("assistant")), c, finish)
}

/// Whether `r` is a one-choice response `id` whose choice has index 0, an
/// assistant message with `content`, the finish reason `finish`, and the
/// usage `prompt`, `completion` and their sum.
pub open spec fn single_answer(
    r: ChatResponse,
    id: Seq<char>,
    content: Seq<char>,
    finish: Option<Seq<char>>,
    prompt: u32,
    completion: u32,
) -> bool {
    &&& r.id@ == id
    &&& r.choices@.len() == 1
    &&& r.choices@[0].index == 0
    &&& r.choices@[0].message.role == Role::Assistant
    &&& opt_view(r.choices@[0].message.content) == Some(content)
    &&& r.choices@[0].message.tool_calls is None
    &&& r.choices@[0].message.tool_call_id is None
    &&& opt_view(r.choices@[0].finish_reason) == finish
    &&& r.usage == Some(
        Usage { prompt_tokens: prompt, completion_tokens: completion, total_tokens: (prompt + completion) as u32 },
    )
}

fn single_answer_response(id: String, content: String, finish: Option<String>, prompt: u32, completion: u32) -> (r: ChatResponse)
    requires
        prompt + completion <= u32::MAX,
    ensures
        single_answer(r, id@, content@, opt_view(finish), prompt, completion),
{
    let mut choices: Vec<Choice> = Vec::new();
    choices.push(Choice {
        index: 0,
        message: Message { role: Role::Assistant, content: Some(content), tool_calls: None, tool_call_id: None },
        finish_reason: finish,
    });
    ChatResponse {
        id,
        choices,
        usage: Some(Usage { prompt_tokens: prompt, completion_tokens: completion, total_tokens: prompt + completion }),
    }
}

/// The response of a non-streaming Ollama chat: id `ollama`, the message
/// content, the done reason, and the prompt and generated token counts.
pub fn ollama_chat_response(content: String, done_reason: Option<String>, prompt_eval_count: u32, eval_count: u32) -> (r: ChatResponse)
    requires
        prompt_eval_count + eval_count <= u32::MAX,
    ensures
        single_answer(r, "ollama"@, content@, opt_view(done_reason), prompt_eval_count, eval_count),
{
    single_answer_response(owned("ollama"), content, done_reason, prompt_eval_count, eval_count)
}

/// The texts of `blocks`, joined.
pub open spec fn joined(blocks: Seq<Seq<char>>) -> Seq<char>
    decreases blocks.len(),
{
    if blocks.len() == 0 {
        Seq::empty()
    } else {
        joined(blocks.drop_last()) + blocks.last()
    }
}

/// The response of a non-streaming Anthropic message: its id, the texts of
/// its content blocks joined, its stop reason, and its input and output
/// token counts.
pub fn anthropic_chat_response(
    id: String,
    blocks: &Vec<String>,
    stop_reason: Option<String>,
    input_tokens: u32,
    output_tokens: u32,
) -> (r: ChatResponse)
    requires
        input_tokens + output_tokens <= u32::MAX,
    ensures
        single_answer(
            r,
            id@,
            joined(blocks@.map_values(|b: String| b@)),
            opt_view(stop_reason),
            input_tokens,
            output_tokens,
        ),
{
    let ghost bv = blocks@.map_values(|b: String| b@);
    let mut content = String::new();
    let mut i: usize = 0;
    assert(bv.take(0) =~= Seq::<Seq<char>>::empty());
    while i < blocks.len()
        invariant
            i <= blocks@.len(),
            bv == blocks@.map_values(|b: String| b@),
            content@ == joined(bv.take(i as int)),
        decreases blocks.len() - i,
    {
        content.append(blocks[i].as_str());
        assert(bv.take(i + 1).drop_last() =~= bv.take(i as int));
        i = i + 1;
    }
    assert(bv.take(blocks@.len() as int) =~= bv);
    single_answer_response(id, content, stop_reason, input_tokens, output_tokens)
}

/// The text of the first system message of `msgs`, if any.
pub open spec fn first_system_text(msgs: Seq<Message>) -> Option<Seq<char>>
    decreases msgs.len(),
{
    if msgs.len() == 0 {
        None
    } else if msgs[0].role == Role::System {
        Some(
            match msgs[0].content {
                Some(c) => c@,
                None => Seq::empty(),
            },
        )
    } else {
        first_system_text(msgs.drop_first())
    }
}

/// The system prompt of an Anthropic request: the text of the first system
/// message.
pub fn system_prompt(messages: &Vec<Message>) -> (r: Option<String>)
    ensures
        opt_view(r) == first_system_text(messages@),
{
    let mut i: usize = 0;
    assert(messages@.skip(0) =~= messages@);
    while i < messages.len()
        invariant
            i <= messages@.len(),
            first_system_text(messages@) == first_system_text(messages@.skip(i as int)),
        decreases messages.len() - i,
    {
        assert(messages@.skip(i as int)[0] == messages@[i as int]);
        if messages[i].role == Role::System {
            return Some(owned(messages[i].text()));
        }
        assert(messages@.skip(i as int).drop_first() =~= messages@.skip(i + 1));
        i = i + 1;
    }
    assert(messages@.skip(i as int) =~= Seq::<Message>::empty());
    None
}

/// The positions of the messages of `msgs[..k]` that are not system
/// messages, in order.
pub open spec fn conversation_positions(msgs: Seq<Message>, k: int) -> Seq<usize>
    decreases k,
{
    if k <= 0 {
        Seq::empty()
    } else if msgs[k - 1].role == Role::System {
        conversation_positions(msgs, k - 1)
    } else {
        conversation_positions(msgs, k - 1).push((k - 1) as usize)
    }
}

/// The positions of the messages an Anthropic request sends as its
/// conversation: all but the system messages, in order.
pub fn conversation(messages: &Vec<Message>) -> (r: Vec<usize>)
    ensures
        r@ == conversation_positions(messages@, messages@.len() as int),
{
    let mut r: Vec<usize> = Vec::new();
    let mut i: usize = 0;
    while i < messages.len()
        invariant
            i <= messages@.len(),
            r@ == conversation_positions(messages@, i as int),
        decreases messages.len() - i,
    {
        if messages[i].role != Role::System {
            r.push(i);
        }
        i = i + 1;
    }
    r
}

/// The token limit of an Anthropic request: the request's, or 1024.
pub fn anthropic_max_tokens(max_tokens: Option<u32>) -> (r: u32)
    ensures
        r == match max_tokens {
            Some(m) => m,
            None => 1024,
        },
{
    match max_tokens {
        Some(m) => m,
        None => 1024,
    }
}

}
