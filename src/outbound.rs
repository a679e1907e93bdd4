//! The outbound streaming protocol: chunks, and the server-sent-event frames
//! that carry them.

use vstd::prelude::*;
use crate::json::{json_quote, quote_json};
use crate::text::{chars_of, contains, string_of};

verus! {

/// One unit of a streaming reply.
#[derive(Clone, Debug, PartialEq)]
pub enum OutboundChunk {
    /// Announces the assistant role; always first.
    Role,
    /// A piece of the reply's text.
    Content(String),
    /// Marks the end of the reply's text.
    Finish,
    /// The end-of-stream sentinel; always last.
    Done,
}

/// The decimal digit for `d < 10`.
pub open spec fn digit_char(d: nat) -> char {
    (('0' as u32) + d) as char
}

/// The decimal text of `n`.
pub open spec fn decimal(n: nat) -> Seq<char>
    decreases n,
{
    if n < 10 {
        seq![digit_char(n)]
    } else {
        decimal(n / 10) + seq![digit_char(n % 10)]
    }
}

/// The JSON text of a streaming chunk with the given `delta` and
/// `finish_reason` texts; members in key order, as serde_json writes them.
pub open spec fn chunk_json(
    delta: Seq<char>,
    finish: Seq<char>,
    id: Seq<char>,
    created: u64,
    model: Seq<char>,
) -> Seq<char> {
    "{\"choices\":[{\"delta\":"@ + delta + ",\"finish_reason\":"@ + finish
        + ",\"index\":0}],\"created\":"@ + decimal(created as nat) + ",\"id\":"@ + json_quote(id)
        + ",\"model\":"@ + json_quote(model) + ",\"object\":\"chat.completion.chunk\"}"@
}

/// A server-sent-event frame carrying `payload`.
pub open spec fn sse_frame(payload: Seq<char>) -> Seq<char> {
    "data: "@ + payload + "\n\n"@
}

/// The frame of a content chunk.
pub open spec fn content_frame(content: Seq<char>, id: Seq<char>, created: u64, model: Seq<char>) -> Seq<char> {
    sse_frame(chunk_json("{\"content\":"@ + json_quote(content) + "}"@, "null"@, id, created, model))
}

/// The frame of the role chunk.
pub open spec fn role_frame(id: Seq<char>, created: u64, model: Seq<char>) -> Seq<char> {
    sse_frame(chunk_json("{\"role\":\"assistant\"}"@, "null"@, id, created, model))
}

/// The frame of the finish chunk.
pub open spec fn finish_frame(id: Seq<char>, created: u64, model: Seq<char>) -> Seq<char> {
    sse_frame(chunk_json("{}"@, "\"stop\""@, id, created, model))
}

/// The end-of-stream frame.
pub open spec fn done_frame() -> Seq<char> {
    "data: [DONE]\n\n"@
}

/// The frame of an inline error, with its message and kind.
pub open spec fn error_frame(message: Seq<char>, kind: Seq<char>) -> Seq<char> {
    sse_frame("{\"error\":{\"message\":"@ + json_quote(message) + ",\"type\":"@ + json_quote(kind)
        + "}}"@)
}

/// The frame of any chunk.
pub open spec fn frame_of(c: OutboundChunk, id: Seq<char>, created: u64, model: Seq<char>) -> Seq<char> {
    match c {
        OutboundChunk::Role => role_frame(id, created, model),
        OutboundChunk::Content(t) => content_frame(t@, id, created, model),
        OutboundChunk::Finish => finish_frame(id, created, model),
        OutboundChunk::Done => done_frame(),
    }
}

/// Appends the characters of `s` to `v`.
pub fn push_str(v: &mut Vec<char>, s: &str)
    ensures
        final(v)@ == old(v)@ + s@,
{
    let c = chars_of(s);
    let mut i: usize = 0;
    let ghost start = v@;
    while i < c.len()
        invariant
            i <= c@.len(),
            c@ == s@,
            v@ == start + c@.subrange(0, i as int),
        decreases c@.len() - i,
    {
        v.push(c[i]);
        assert(v@ =~= start + c@.subrange(0, i + 1));
        i = i + 1;
    }
    assert(c@.subrange(0, c@.len() as int) =~= c@);
}

/// The decimal text of `n`.
pub fn decimal_text(n: u64) -> (r: Vec<char>)
    ensures
        r@ == decimal(n as nat),
    decreases n,
{
    let d: u32 = (n % 10) as u32;
    let c = char_of_digit(d);
    if n < 10 {
        vec![c]
    } else {
        let mut r = decimal_text(n / 10);
        r.push(c);
        r
    }
}

fn char_of_digit(d: u32) -> (c: char)
    requires
        d < 10,
    ensures
        c == digit_char(d as nat),
{
    if d == 0 { '0' } else if d == 1 { '1' } else if d == 2 { '2' } else if d == 3 { '3' }
    else if d == 4 { '4' } else if d == 5 { '5' } else if d == 6 { '6' } else if d == 7 { '7' }
    else if d == 8 { '8' } else { '9' }
}

fn chunk_text(delta: &Vec<char>, finish: &str, id: &str, created: u64, model: &str) -> (r: String)
    ensures
        r@ == sse_frame(chunk_json(delta@, finish@, id@, created, model@)),
{
    let mut v: Vec<char> = Vec::new();
    push_str(&mut v, "data: ");
    push_str(&mut v, "{\"choices\":[{\"delta\":");
    v.append(&mut delta.clone());
    push_str(&mut v, ",\"finish_reason\":");
    push_str(&mut v, finish);
    push_str(&mut v, ",\"index\":0}],\"created\":");
    v.append(&mut decimal_text(created));
    push_str(&mut v, ",\"id\":");
    push_str(&mut v, quote_json(id).as_str());
    push_str(&mut v, ",\"model\":");
    push_str(&mut v, quote_json(model).as_str());
    push_str(&mut v, ",\"object\":\"chat.completion.chunk\"}");
    push_str(&mut v, "\n\n");
    assert(v@ =~= sse_frame(chunk_json(delta@, finish@, id@, created, model@)));
    string_of(&v)
}

/// The frame of a content chunk.
pub fn format_openai_chunk(content: &str, completion_id: &str, created_timestamp: u64, model: &str) -> (r: String)
    ensures
        r@ == content_frame(content@, completion_id@, created_timestamp, model@),
{
    let mut delta: Vec<char> = Vec::new();
    push_str(&mut delta, "{\"content\":");
    push_str(&mut delta, quote_json(content).as_str());
    push_str(&mut delta, "}");
    chunk_text(&delta, "null", completion_id, created_timestamp, model)
}

/// The frame of the role chunk.
pub fn format_openai_role_chunk(completion_id: &str, created_timestamp: u64, model: &str) -> (r: String)
    ensures
        r@ == role_frame(completion_id@, created_timestamp, model@),
{
    chunk_text(&chars_of("{\"role\":\"assistant\"}"), "null", completion_id, created_timestamp, model)
}

/// The frame of the finish chunk.
pub fn format_openai_finish_chunk(completion_id: &str, created_timestamp: u64, model: &str) -> (r: String)
    ensures
        r@ == finish_frame(completion_id@, created_timestamp, model@),
{
    chunk_text(&chars_of("{}"), "\"stop\"", completion_id, created_timestamp, model)
}

/// The end-of-stream frame.
pub fn format_done_message() -> (r: String)
    ensures
        r@ == done_frame(),
{
    "data: [DONE]\n\n".to_owned()
}

/// The frame of an inline error.
pub fn format_error_frame(message: &str, kind: &str) -> (r: String)
    ensures
        r@ == error_frame(message@, kind@),
{
    let mut v: Vec<char> = Vec::new();
    push_str(&mut v, "data: ");
    push_str(&mut v, "{\"error\":{\"message\":");
    push_str(&mut v, quote_json(message).as_str());
    push_str(&mut v, ",\"type\":");
    push_str(&mut v, quote_json(kind).as_str());
    push_str(&mut v, "}}");
    push_str(&mut v, "\n\n");
    assert(v@ =~= error_frame(message@, kind@));
    string_of(&v)
}

impl OutboundChunk {
    /// The frame that carries this chunk.
    pub fn render(&self, completion_id: &str, created_timestamp: u64, model: &str) -> (r: String)
        ensures
            r@ == frame_of(*self, completion_id@, created_timestamp, model@),
    {
        match self {
            OutboundChunk::Role => format_openai_role_chunk(completion_id, created_timestamp, model),
            OutboundChunk::Content(t) => format_openai_chunk(t.as_str(), completion_id, created_timestamp, model),
            OutboundChunk::Finish => format_openai_finish_chunk(completion_id, created_timestamp, model),
            OutboundChunk::Done => format_done_message(),
        }
    }
}

/// The JSON body of a buffered error reply.
pub open spec fn error_body_spec(code: u16, message: Seq<char>, kind: Seq<char>) -> Seq<char> {
    "{\"error\":{\"code\":"@ + decimal(code as nat) + ",\"message\":"@ + json_quote(message)
        + ",\"param\":null,\"type\":"@ + json_quote(kind) + "}}"@
}

/// The JSON body of a buffered error reply: the status code, message and
/// kind, members in key order.
pub fn error_body(code: u16, message: &str, kind: &str) -> (r: String)
    ensures
        r@ == error_body_spec(code, message@, kind@),
{
    let mut v: Vec<char> = Vec::new();
    push_str(&mut v, "{\"error\":{\"code\":");
    v.append(&mut decimal_text(code as u64));
    push_str(&mut v, ",\"message\":");
    push_str(&mut v, quote_json(message).as_str());
    push_str(&mut v, ",\"param\":null,\"type\":");
    push_str(&mut v, quote_json(kind).as_str());
    push_str(&mut v, "}}");
    assert(v@ =~= error_body_spec(code, message@, kind@));
    string_of(&v)
}

/// Whether a request header is withheld from logs: `authorization`,
/// `cookie` or `x-api-key`, in any case.
pub fn is_sensitive_header(name: &str) -> (r: bool)
    ensures
        r == (crate::text::lower_of(name@) == "authorization"@ || crate::text::lower_of(name@)
            == "cookie"@ || crate::text::lower_of(name@) == "x-api-key"@),
{
    let lower = crate::text::to_lower(name);
    crate::json::same_text(lower.as_str(), "authorization") || crate::json::same_text(lower.as_str(), "cookie")
        || crate::json::same_text(lower.as_str(), "x-api-key")
}

/// Whether the upstream endpoint is an OpenRouter one.
pub fn is_openrouter(api_url: &str) -> (r: bool)
    ensures
        r == contains(api_url@, "openrouter"@),
{
    crate::text::contains_exec(&chars_of(api_url), &chars_of("openrouter"))
}

/// Whether the upstream endpoint is a LiteLLM one.
pub fn is_litellm(api_url: &str) -> (r: bool)
    ensures
        r == contains(api_url@, "litellm"@),
{
    crate::text::contains_exec(&chars_of(api_url), &chars_of("litellm"))
}

/// The assistant's self-description.
pub fn get_system_prompt() -> (r: String)
    ensures
        r@ == "You are DualMind, an AI assistant powered by a reasoning model and a crafting model..."@,
{
    "You are DualMind, an AI assistant powered by a reasoning model and a crafting model...".to_owned()
}

} // verus!
