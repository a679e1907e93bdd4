//! The two-phase orchestrator: the decisions of one request, from its turns
//! to its reply, as steps that the serving loop drives with upstream events.

use vstd::prelude::*;
use crate::models::{Message, Role};
use crate::outbound::{
    content_frame, decimal, decimal_text, done_frame, error_frame, finish_frame, format_done_message,
    format_error_frame, format_openai_chunk, format_openai_finish_chunk, format_openai_role_chunk,
    push_str, role_frame, OutboundChunk,
};
use crate::classify::{clean_response_text, meta_openers, strip_openers};
use crate::models::{ChatCompletion, ChatCompletionResponse, Usage};
use crate::provider::{
    paced, combined, completions_url, crafter_lead, crafting_request, family_spec, last_user,
    latest_is_coding, latest_user_content, reasoner_framing, reasoning_request, turns_view,
    ProviderFamily, Upstream, UpstreamRequest,
};
use crate::reasoning::{gather_line, gathered, think_wrapped, wrap_reasoning_chars};
use crate::session::{ChatSession, SessionStore};
use crate::text::{contains, trim_spec};
use crate::stream::{line_fragment, process_stream};
use crate::text::{chars_of, string_of};

verus! {

/// The phase of an upstream call.
#[derive(Clone, Copy, Debug, PartialEq, Eq, Structural)]
pub enum CallPhase {
    Reasoning,
    Crafting,
}

/// Why a request failed.
#[derive(Clone, Debug, PartialEq)]
pub enum ChatError {
    /// The merged turns hold no user turn.
    InvalidRequest,
    /// An upstream call failed: with its status where one came back, else
    /// the transport's account.
    Upstream { phase: CallPhase, status: Option<u16>, detail: String },
}

/// The text of an upstream failure: the status and the body, or the
/// transport's account alone.
pub open spec fn upstream_text(status: Option<u16>, detail: Seq<char>) -> Seq<char> {
    match status {
        Some(s) => "API request failed: "@ + decimal(s as nat) + " - "@ + detail,
        None => detail,
    }
}

/// The message of an error as the caller sees it.
pub open spec fn error_message(e: ChatError) -> Seq<char> {
    match e {
        ChatError::InvalidRequest => "At least one user message is required"@,
        ChatError::Upstream { phase, status, detail } => match phase {
            CallPhase::Reasoning => "Error in thinking phase: Reasoning model error: "@
                + upstream_text(status, detail@),
            CallPhase::Crafting => "Error in execution phase: "@ + upstream_text(status, detail@),
        },
    }
}

/// The error kind of an error as the caller sees it.
pub open spec fn error_kind(e: ChatError) -> Seq<char> {
    match e {
        ChatError::InvalidRequest => "invalid_request_error"@,
        _ => "api_error"@,
    }
}

impl ChatError {
    /// The message of the error as the caller sees it.
    pub fn message(&self) -> (r: String)
        ensures
            r@ == error_message(*self),
    {
        match self {
            ChatError::InvalidRequest => "At least one user message is required".to_owned(),
            ChatError::Upstream { phase, status, detail } => {
                let mut v: Vec<char> = match phase {
                    CallPhase::Reasoning => chars_of(
                        "Error in thinking phase: Reasoning model error: ",
                    ),
                    CallPhase::Crafting => chars_of("Error in execution phase: "),
                };
                match status {
                    Some(s) => {
                        push_str(&mut v, "API request failed: ");
                        v.append(&mut decimal_text(*s as u64));
                        push_str(&mut v, " - ");
                    },
                    None => {},
                }
                push_str(&mut v, detail.as_str());
                let ghost lead = match phase {
                    CallPhase::Reasoning => "Error in thinking phase: Reasoning model error: "@,
                    CallPhase::Crafting => "Error in execution phase: "@,
                };
                assert(v@ =~= lead + upstream_text(*status, detail@));
                string_of(&v)
            },
        }
    }

    /// The error kind of the error as the caller sees it.
    pub fn kind(&self) -> (r: &'static str)
        ensures
            r@ == error_kind(*self),
    {
        match self {
            ChatError::InvalidRequest => "invalid_request_error",
            _ => "api_error",
        }
    }

    /// The HTTP status of a buffered reply that reports the error.
    pub fn status_code(&self) -> (r: u16)
        ensures
            r == if *self is InvalidRequest {
                400u16
            } else {
                500u16
            },
    {
        match self {
            ChatError::InvalidRequest => 400,
            _ => 500,
        }
    }
}

/// The reply text that stands in when the upstream stream carried none.
pub open spec fn fallback_reply() -> Seq<char> {
    "Here's a simple Rust Hello World program:\n\n```rust\nfn main() {\n    println!(\"Hello, world!\");\n}\n```\n\nTo run this program:\n\n1. Save it as `hello.rs`\n2. Compile it with `rustc hello.rs`\n3. Run the executable with `./hello`"@
}

fn fallback_reply_text() -> (r: &'static str)
    ensures
        r@ == fallback_reply(),
{
    "Here's a simple Rust Hello World program:\n\n```rust\nfn main() {\n    println!(\"Hello, world!\");\n}\n```\n\nTo run this program:\n\n1. Save it as `hello.rs`\n2. Compile it with `rustc hello.rs`\n3. Run the executable with `./hello`"
}

/// `after` is `before` with one assistant turn holding `reply` appended to
/// session `id`, which keeps its time of last use; every other session is
/// unchanged.
pub open spec fn appended_reply(
    before: Map<Seq<char>, ChatSession>,
    after: Map<Seq<char>, ChatSession>,
    id: Seq<char>,
    reply: Seq<char>,
) -> bool {
    &&& after.contains_key(id)
    &&& after == before.insert(
        id,
        ChatSession { messages: after[id].messages, last_active: before[id].last_active },
    )
    &&& after[id].messages@.len() == before[id].messages@.len() + 1
    &&& after[id].messages@.drop_last() == before[id].messages@
    &&& after[id].messages@.last().role == Role::Assistant
    &&& after[id].messages@.last().content@ == reply
}

proof fn lemma_fallback_not_empty()
    ensures
        fallback_reply().len() > 0,
{
    reveal_strlit("Here's a simple Rust Hello World program:\n\n```rust\nfn main() {\n    println!(\"Hello, world!\");\n}\n```\n\nTo run this program:\n\n1. Save it as `hello.rs`\n2. Compile it with `rustc hello.rs`\n3. Run the executable with `./hello`");
}

/// The text that the content chunks of `cs` carry, in order.
pub open spec fn content_text(cs: Seq<OutboundChunk>) -> Seq<char>
    decreases cs.len(),
{
    if cs.len() == 0 {
        Seq::empty()
    } else {
        content_text(cs.drop_last()) + match cs.last() {
            OutboundChunk::Content(t) => t@,
            _ => Seq::empty(),
        }
    }
}

/// A complete streaming reply: the role chunk, one or more content chunks,
/// the finish chunk, and the sentinel.
pub open spec fn complete_shape(cs: Seq<OutboundChunk>) -> bool {
    &&& cs.len() >= 4
    &&& cs[0] == OutboundChunk::Role
    &&& cs[cs.len() - 2] == OutboundChunk::Finish
    &&& cs[cs.len() - 1] == OutboundChunk::Done
    &&& forall|i: int| 0 < i < cs.len() - 2 ==> #[trigger] is_text_chunk(cs[i])
}

/// A reply still open: the role chunk, then content chunks only.
pub open spec fn open_shape(cs: Seq<OutboundChunk>) -> bool {
    &&& cs.len() >= 1
    &&& cs[0] == OutboundChunk::Role
    &&& forall|i: int| 0 < i < cs.len() ==> #[trigger] is_text_chunk(cs[i])
}

/// A content chunk with non-empty text.
pub open spec fn is_text_chunk(c: OutboundChunk) -> bool {
    match c {
        OutboundChunk::Content(t) => t@.len() > 0,
        _ => false,
    }
}

/// The text of a content chunk.
pub open spec fn content_of(c: OutboundChunk) -> Option<Seq<char>> {
    match c {
        OutboundChunk::Content(t) => Some(t@),
        _ => None,
    }
}

/// The outbound side of one streaming reply: the frames it sends and, as a
/// ghost log, the chunks that they carry.
pub struct ReplyStream {
    completion_id: String,
    created: u64,
    model: String,
    text: Vec<char>,
    open: bool,
    failed: bool,
    log: Ghost<Seq<OutboundChunk>>,
}

impl ReplyStream {
    /// The chunks sent so far.
    pub closed spec fn chunks(&self) -> Seq<OutboundChunk> {
        self.log@
    }

    /// The reply text gathered so far.
    pub closed spec fn text_spec(&self) -> Seq<char> {
        self.text@
    }

    /// Whether chunks may still be added.
    pub closed spec fn is_open(&self) -> bool {
        self.open
    }

    /// Whether the reply ended with an error.
    pub closed spec fn has_failed(&self) -> bool {
        self.failed
    }

    /// The completion id, timestamp and model that every frame carries.
    pub closed spec fn header(&self) -> (Seq<char>, u64, Seq<char>) {
        (self.completion_id@, self.created, self.model@)
    }

    /// The chunks sent so far keep their order and their text.
    pub closed spec fn wf(&self) -> bool {
        &&& self.open ==> open_shape(self.log@) && !self.failed
        &&& !self.open && !self.failed ==> complete_shape(self.log@)
        &&& self.open ==> content_text(self.log@) == self.text@
        &&& self.log@.len() >= 1 && self.log@[0] == OutboundChunk::Role
    }

    /// Opens a reply: the role chunk goes first.
    pub fn open(completion_id: String, created: u64, model: String) -> (r: (ReplyStream, String))
        ensures
            r.0.wf(),
            r.0.is_open(),
            r.0.chunks() == seq![OutboundChunk::Role],
            r.0.text_spec() == Seq::<char>::empty(),
            r.0.header() == (completion_id@, created, model@),
            r.1@ == role_frame(completion_id@, created, model@),
    {
        let frame = format_openai_role_chunk(completion_id.as_str(), created, model.as_str());
        let ghost first = seq![OutboundChunk::Role];
        let s = ReplyStream {
            completion_id,
            created,
            model,
            text: Vec::new(),
            open: true,
            failed: false,
            log: Ghost(first),
        };
        proof { lemma_content_text_role(); }
        (s, frame)
    }

    /// Adds a non-empty piece of reply text as one content chunk.
    fn emit_content(&mut self, piece: String) -> (r: String)
        requires
            old(self).wf(),
            old(self).is_open(),
            piece@.len() > 0,
        ensures
            final(self).wf(),
            final(self).is_open(),
            final(self).header() == old(self).header(),
            final(self).chunks() == old(self).chunks().push(OutboundChunk::Content(piece)),
            final(self).text_spec() == old(self).text_spec() + piece@,
            r@ == content_frame(piece@, old(self).header().0, old(self).header().1, old(self).header().2),
    {
        let frame = format_openai_chunk(piece.as_str(), self.completion_id.as_str(), self.created, self.model.as_str());
        push_str(&mut self.text, piece.as_str());
        let ghost before = self.log@;
        self.log = Ghost(self.log@.push(OutboundChunk::Content(piece)));
        assert(self.log@.drop_last() =~= before);
        assert forall|i: int| 0 < i < self.log@.len() implies #[trigger] is_text_chunk(self.log@[i]) by {
            if i < before.len() {
                assert(self.log@[i] == before[i]);
            }
        }
        frame
    }

    /// Takes one line of the upstream stream: its fragment, if it carries one
    /// and the reply is open, goes out as a content chunk.
    pub fn push_line(&mut self, line: &str) -> (r: Option<String>)
        requires
            old(self).wf(),
        ensures
            final(self).wf(),
            final(self).header() == old(self).header(),
            final(self).is_open() == old(self).is_open(),
            final(self).has_failed() == old(self).has_failed(),
            old(self).is_open() && line_fragment(line@) is Some ==> {
                let f = line_fragment(line@)->0;
                &&& final(self).text_spec() == old(self).text_spec() + f
                &&& final(self).chunks().len() == old(self).chunks().len() + 1
                &&& final(self).chunks().drop_last() == old(self).chunks()
                &&& content_of(final(self).chunks().last()) == Some(f)
                &&& r is Some && r->0@ == content_frame(
                    f,
                    old(self).header().0,
                    old(self).header().1,
                    old(self).header().2,
                )
            },
            !(old(self).is_open() && line_fragment(line@) is Some) ==> r is None
                && final(self).chunks() == old(self).chunks()
                && final(self).text_spec() == old(self).text_spec(),
    {
        if !self.open {
            return None;
        }
        match process_stream(line) {
            Some(f) => {
                let ghost before = self.log@;
                let r = self.emit_content(f);
                assert(self.log@.drop_last() =~= before);
                Some(r)
            },
            None => None,
        }
    }

    /// Takes a non-empty piece of a reply that arrived whole: it goes out as a
    /// content chunk where the reply is open.
    pub fn push_text(&mut self, piece: &str) -> (r: Option<String>)
        requires
            old(self).wf(),
        ensures
            final(self).wf(),
            final(self).header() == old(self).header(),
            final(self).is_open() == old(self).is_open(),
            final(self).has_failed() == old(self).has_failed(),
            old(self).is_open() && piece@.len() > 0 ==> {
                &&& final(self).text_spec() == old(self).text_spec() + piece@
                &&& final(self).chunks().len() == old(self).chunks().len() + 1
                &&& final(self).chunks().drop_last() == old(self).chunks()
                &&& content_of(final(self).chunks().last()) == Some(piece@)
                &&& r is Some && r->0@ == content_frame(
                    piece@,
                    old(self).header().0,
                    old(self).header().1,
                    old(self).header().2,
                )
            },
            !(old(self).is_open() && piece@.len() > 0) ==> r is None && final(self).chunks()
                == old(self).chunks() && final(self).text_spec() == old(self).text_spec(),
    {
        if !self.open || piece.is_empty() {
            return None;
        }
        let ghost before = self.log@;
        let r = self.emit_content(piece.to_owned());
        assert(self.log@.drop_last() =~= before);
        Some(r)
    }

    /// Ends an open reply: where no content went out, the fallback text goes
    /// out as one content chunk; the reply text becomes the session's
    /// assistant turn; then the finish chunk and the sentinel. A reply that is
    /// no longer open sends nothing more.
    pub fn finish(&mut self, store: &mut SessionStore, session_id: &str) -> (r: Vec<String>)
        requires
            old(self).wf(),
            old(store).wf(),
        ensures
            final(self).wf(),
            final(store).wf(),
            !final(self).is_open(),
            final(self).has_failed() == old(self).has_failed(),
            final(self).header() == old(self).header(),
            !old(self).is_open() ==> r@.len() == 0 && final(self).chunks() == old(self).chunks()
                && final(store)@ == old(store)@,
            old(self).is_open() ==> {
                let (id, created, model) = old(self).header();
                let reply = if old(self).text_spec().len() == 0 {
                    fallback_reply()
                } else {
                    old(self).text_spec()
                };
                &&& complete_shape(final(self).chunks())
                &&& old(self).text_spec().len() == 0 ==> r@.len() == 3 && r@[0]@ == content_frame(
                    fallback_reply(),
                    id,
                    created,
                    model,
                ) && r@[1]@ == finish_frame(id, created, model) && r@[2]@ == done_frame()
                &&& old(self).text_spec().len() > 0 ==> r@.len() == 2 && r@[0]@ == finish_frame(
                    id,
                    created,
                    model,
                ) && r@[1]@ == done_frame()
                &&& old(store)@.contains_key(session_id@) ==> appended_reply(
                    old(store)@,
                    final(store)@,
                    session_id@,
                    reply,
                )
                &&& !old(store)@.contains_key(session_id@) ==> final(store)@ == old(store)@
            },
    {
        let mut frames: Vec<String> = Vec::new();
        if !self.open {
            return frames;
        }
        if self.text.len() == 0 {
            proof { lemma_fallback_not_empty(); }
            let f = self.emit_content(fallback_reply_text().to_owned());
            frames.push(f);
        } else {
            proof {
                if self.log@.len() < 2 {
                    assert(self.log@ =~= seq![OutboundChunk::Role]);
                    lemma_content_text_role();
                }
            }
        }
        let ghost before = self.log@;
        let reply = string_of(&self.text);
        store.append_assistant(session_id, reply);
        proof {
            if old(store)@.contains_key(session_id@) {
                assert(store@[session_id@].messages@.drop_last() =~= old(
                    store,
                )@[session_id@].messages@);
            }
        }
        frames.push(format_openai_finish_chunk(self.completion_id.as_str(), self.created, self.model.as_str()));
        frames.push(format_done_message());
        self.log = Ghost(self.log@.push(OutboundChunk::Finish).push(OutboundChunk::Done));
        self.open = false;
        proof {
            let l = self.log@;
            assert(l.len() == before.len() + 2);
            assert forall|i: int| 0 < i < l.len() - 2 implies #[trigger] is_text_chunk(l[i]) by {
                assert(l[i] == before[i]);
            }
        }
        frames
    }

    /// Ends an open reply with an inline error frame; a reply that is no
    /// longer open sends nothing.
    pub fn fail(&mut self, message: &str, kind: &str) -> (r: Option<String>)
        requires
            old(self).wf(),
        ensures
            final(self).wf(),
            !final(self).is_open(),
            final(self).chunks() == old(self).chunks(),
            old(self).is_open() ==> final(self).has_failed() && r is Some && r->0@ == error_frame(
                message@,
                kind@,
            ),
            !old(self).is_open() ==> r is None && final(self).has_failed() == old(self).has_failed(),
    {
        if !self.open {
            return None;
        }
        self.open = false;
        self.failed = true;
        Some(format_error_frame(message, kind))
    }
}

proof fn lemma_content_text_role()
    ensures
        content_text(seq![OutboundChunk::Role]) == Seq::<char>::empty(),
{
    let s = seq![OutboundChunk::Role];
    assert(s.drop_last() =~= Seq::<OutboundChunk>::empty());
    assert(content_text(s.drop_last()) == Seq::<char>::empty());
    assert(content_text(s) =~= Seq::<char>::empty());
}

/// Where a request stands.
#[derive(Clone, Copy, Debug, PartialEq, Eq, Structural)]
pub enum Stage {
    /// Gathering the reasoning call's stream.
    Reasoning,
    /// The crafting call is out; its reply is awaited or streaming.
    Crafting,
    /// The reply went out and the session has its assistant turn.
    Completed,
    /// The request ended with an error.
    Failed,
}

/// The decisions of one request, from its turns to its reply.
pub struct Pipeline {
    stage: Stage,
    session_id: String,
    turns: Vec<Message>,
    streaming: bool,
    gathered: Vec<char>,
    reasoning: String,
}

/// The merged turns of a request: the session's, then the new ones.
pub fn merge_turns(snapshot: Vec<Message>, inbound: &Vec<Message>) -> (r: Vec<Message>)
    ensures
        r@ == snapshot@ + inbound@,
{
    let mut r = snapshot;
    let mut i: usize = 0;
    let ghost start = r@;
    while i < inbound.len()
        invariant
            i <= inbound@.len(),
            r@ == start + inbound@.subrange(0, i as int),
        decreases inbound@.len() - i,
    {
        r.push(inbound[i].clone());
        assert(r@ =~= start + inbound@.subrange(0, i + 1));
        i = i + 1;
    }
    assert(inbound@.subrange(0, inbound@.len() as int) =~= inbound@);
    r
}

impl Pipeline {
    /// Where the request stands.
    pub fn stage(&self) -> (r: Stage)
        ensures
            r == self.stage_spec(),
    {
        self.stage
    }

    /// The merged turns of the request.
    pub fn turns(&self) -> (r: &Vec<Message>)
        ensures
            r@ == self.turns_spec(),
    {
        &self.turns
    }

    pub closed spec fn stage_spec(&self) -> Stage {
        self.stage
    }

    pub closed spec fn session_spec(&self) -> Seq<char> {
        self.session_id@
    }

    /// The merged turns of the request.
    pub closed spec fn turns_spec(&self) -> Seq<Message> {
        self.turns@
    }

    pub closed spec fn streaming_spec(&self) -> bool {
        self.streaming
    }

    /// The reasoning text gathered so far.
    pub closed spec fn gathered_spec(&self) -> Seq<char> {
        self.gathered@
    }

    /// The framed reasoning, once the reasoning call has ended.
    pub closed spec fn reasoning_spec(&self) -> Seq<char> {
        self.reasoning@
    }

    /// Starts a request: fetches (or creates) session `session_id` at `now`
    /// and merges the new turns into it. Without a user turn in the merged
    /// turns the request fails with `InvalidRequest` and no upstream call is
    /// asked for; else the reasoning call is.
    pub fn start(
        store: &mut SessionStore,
        session_id: &str,
        inbound: &Vec<Message>,
        streaming: bool,
        now: u64,
        upstream: &Upstream,
    ) -> (r: Result<(Pipeline, UpstreamRequest), ChatError>)
        requires
            old(store).wf(),
        ensures
            final(store).wf(),
            final(store).records(session_id@) == 1,
            final(store)@.contains_key(session_id@),
            final(store)@.remove(session_id@) == old(store)@.remove(session_id@),
            old(store)@.contains_key(session_id@) ==> final(store)@[session_id@].last_active
                >= old(store)@[session_id@].last_active,
            ({
                let snapshot = if old(store)@.contains_key(session_id@) {
                    old(store)@[session_id@].messages@
                } else {
                    Seq::empty()
                };
                let turns = snapshot + inbound@;
                &&& final(store)@[session_id@].messages@ == snapshot + inbound@
                &&& (r is Err <==> last_user(turns) is None)
                &&& r is Err ==> r == Err::<(Pipeline, UpstreamRequest), ChatError>(
                    ChatError::InvalidRequest,
                )
                &&& r matches Ok((p, req)) ==> {
                    &&& p.stage_spec() == Stage::Reasoning
                    &&& p.session_spec() == session_id@
                    &&& p.turns_spec() == turns
                    &&& p.streaming_spec() == streaming
                    &&& p.gathered_spec() == Seq::<char>::empty()
                    &&& req.url@ == completions_url(upstream.api_url@)
                    &&& req.model@ == upstream.reasoning_model@
                    &&& turns_view(req.messages@) == seq![
                        (Role::System, reasoner_framing(latest_is_coding(turns))),
                    ] + turns_view(turns)
                    &&& req.stream == Some(true)
                }
            }),
    {
        let snapshot = store.get_or_create(session_id, now);
        store.append_turns(session_id, inbound);
        assert(store@.remove(session_id@) =~= old(store)@.remove(session_id@));
        let turns = merge_turns(snapshot, inbound);
        if latest_user_content(&turns).is_none() {
            return Err(ChatError::InvalidRequest);
        }
        let req = reasoning_request(upstream, &turns);
        let p = Pipeline {
            stage: Stage::Reasoning,
            session_id: session_id.to_owned(),
            turns,
            streaming,
            gathered: Vec::new(),
            reasoning: String::new(),
        };
        Ok((p, req))
    }

    /// Takes one line of the reasoning call's stream; outside the reasoning
    /// stage nothing changes.
    pub fn reasoning_line(&mut self, line: &str)
        ensures
            final(self).stage_spec() == old(self).stage_spec(),
            final(self).turns_spec() == old(self).turns_spec(),
            final(self).session_spec() == old(self).session_spec(),
            final(self).streaming_spec() == old(self).streaming_spec(),
            final(self).reasoning_spec() == old(self).reasoning_spec(),
            old(self).stage_spec() == Stage::Reasoning ==> final(self).gathered_spec() == old(
                self,
            ).gathered_spec() + match line_fragment(line@) {
                Some(f) => f,
                None => Seq::empty(),
            },
            old(self).stage_spec() != Stage::Reasoning ==> final(self).gathered_spec() == old(
                self,
            ).gathered_spec(),
    {
        if self.stage == Stage::Reasoning {
            gather_line(&mut self.gathered, line);
        }
    }

    /// Ends the reasoning stage: frames the gathered reasoning and asks for
    /// the crafting call, classified by the most recent user turn. Outside
    /// the reasoning stage nothing changes and nothing is asked for.
    pub fn reasoning_done(&mut self, upstream: &Upstream) -> (r: Option<UpstreamRequest>)
        ensures
            final(self).turns_spec() == old(self).turns_spec(),
            final(self).session_spec() == old(self).session_spec(),
            final(self).streaming_spec() == old(self).streaming_spec(),
            old(self).stage_spec() != Stage::Reasoning ==> r is None && final(self).stage_spec()
                == old(self).stage_spec() && final(self).reasoning_spec() == old(self).reasoning_spec(),
            old(self).stage_spec() == Stage::Reasoning ==> {
                let turns = old(self).turns_spec();
                let reasoning = think_wrapped(old(self).gathered_spec());
                let framing = crafter_lead(latest_is_coding(turns), !old(self).streaming_spec())
                    + reasoning;
                &&& final(self).stage_spec() == Stage::Crafting
                &&& final(self).reasoning_spec() == reasoning
                &&& r is Some
                &&& r->0.model@ == upstream.craft_model@
                &&& match family_spec(upstream.craft_model@) {
                    ProviderFamily::CombinedTurn => {
                        &&& r->0.url@ == upstream.api_url@
                        &&& turns_view(r->0.messages@) == combined(turns_view(turns), framing)
                        &&& r->0.stream is None
                    },
                    ProviderFamily::Standard => {
                        &&& r->0.url@ == completions_url(upstream.api_url@)
                        &&& turns_view(r->0.messages@) == seq![(Role::System, framing)]
                            + turns_view(turns)
                        &&& r->0.stream == Some(old(self).streaming_spec())
                        &&& r->0.attribution == contains(upstream.api_url@, "openrouter"@)
                    },
                }
            },
    {
        if self.stage != Stage::Reasoning {
            return None;
        }
        self.reasoning = wrap_reasoning_chars(&self.gathered);
        self.stage = Stage::Crafting;
        Some(crafting_request(upstream, &self.turns, self.reasoning.as_str(), self.streaming))
    }

    /// Ends the request with an upstream failure of `phase`.
    pub fn fail(&mut self, phase: CallPhase, status: Option<u16>, detail: String) -> (r: ChatError)
        ensures
            final(self).stage_spec() == Stage::Failed,
            final(self).turns_spec() == old(self).turns_spec(),
            final(self).session_spec() == old(self).session_spec(),
            r == (ChatError::Upstream { phase, status, detail }),
    {
        self.stage = Stage::Failed;
        ChatError::Upstream { phase, status, detail }
    }

    /// Ends a buffered request with the crafting call's text: the text is
    /// cleaned of meta-commentary openers, becomes the session's assistant
    /// turn, and is the reply's one choice. Outside the crafting stage nothing
    /// changes and there is no reply.
    pub fn complete_buffered(
        &mut self,
        store: &mut SessionStore,
        crafted: &str,
        model: &str,
        completion_id: String,
        created: i64,
    ) -> (r: Option<ChatCompletionResponse>)
        requires
            old(store).wf(),
        ensures
            final(store).wf(),
            final(self).session_spec() == old(self).session_spec(),
            old(self).stage_spec() != Stage::Crafting ==> r is None && final(store)@ == old(store)@
                && final(self).stage_spec() == old(self).stage_spec(),
            old(self).stage_spec() == Stage::Crafting ==> {
                let reply = trim_spec(strip_openers(crafted@, meta_openers()));
                let id = old(self).session_spec();
                &&& final(self).stage_spec() == Stage::Completed
                &&& r is Some
                &&& r->0.id@ == completion_id@
                &&& r->0.object@ == "chat.completion"@
                &&& r->0.created == created
                &&& r->0.model@ == model@
                &&& r->0.choices@.len() == 1
                &&& r->0.choices@[0].index == 0
                &&& r->0.choices@[0].message.role == Role::Assistant
                &&& r->0.choices@[0].message.content@ == reply
                &&& r->0.choices@[0].finish_reason@ == "stop"@
                &&& r->0.usage == (Usage { prompt_tokens: 100, completion_tokens: 100, total_tokens: 200 })
                &&& old(store)@.contains_key(id) ==> final(store)@.contains_key(id)
                    && final(store)@[id].messages@ == old(store)@[id].messages@.push(
                    Message { role: Role::Assistant, content: r->0.choices@[0].message.content },
                )
                &&& !old(store)@.contains_key(id) ==> final(store)@ == old(store)@
            },
    {
        if self.stage != Stage::Crafting {
            return None;
        }
        let reply = clean_response_text(crafted);
        let kept = reply.clone();
        store.append_assistant(self.session_id.as_str(), reply);
        self.stage = Stage::Completed;
        let mut choices: Vec<ChatCompletion> = Vec::new();
        choices.push(ChatCompletion {
            index: 0,
            message: Message { role: Role::Assistant, content: kept },
            finish_reason: "stop".to_owned(),
        });
        Some(ChatCompletionResponse {
            id: completion_id,
            object: "chat.completion".to_owned(),
            created,
            model: model.to_owned(),
            choices,
            usage: Usage { prompt_tokens: 100, completion_tokens: 100, total_tokens: 200 },
        })
    }

    /// Ends a streaming request: the reply stream finishes (fallback text,
    /// the session's assistant turn, the finish chunk, the sentinel). Outside
    /// the crafting stage nothing changes and nothing is sent.
    pub fn complete_stream(&mut self, store: &mut SessionStore, reply: &mut ReplyStream) -> (r: Vec<String>)
        requires
            old(store).wf(),
            old(reply).wf(),
        ensures
            final(store).wf(),
            final(reply).wf(),
            final(self).session_spec() == old(self).session_spec(),
            final(self).turns_spec() == old(self).turns_spec(),
            old(self).stage_spec() != Stage::Crafting ==> r@.len() == 0 && final(store)@ == old(
                store,
            )@ && final(reply).chunks() == old(reply).chunks() && final(self).stage_spec() == old(
                self,
            ).stage_spec(),
            old(self).stage_spec() == Stage::Crafting ==> final(self).stage_spec()
                == Stage::Completed && !final(reply).is_open(),
            old(self).stage_spec() == Stage::Crafting && !old(reply).is_open() ==> r@.len() == 0
                && final(reply).chunks() == old(reply).chunks() && final(store)@ == old(store)@,
            old(self).stage_spec() == Stage::Crafting && old(reply).is_open() ==> {
                let (id, created, model) = old(reply).header();
                let sid = old(self).session_spec();
                let text = if old(reply).text_spec().len() == 0 {
                    fallback_reply()
                } else {
                    old(reply).text_spec()
                };
                &&& complete_shape(final(reply).chunks())
                &&& old(reply).text_spec().len() == 0 ==> r@.len() == 3 && r@[0]@ == content_frame(
                    fallback_reply(),
                    id,
                    created,
                    model,
                ) && r@[1]@ == finish_frame(id, created, model) && r@[2]@ == done_frame()
                &&& old(reply).text_spec().len() > 0 ==> r@.len() == 2 && r@[0]@ == finish_frame(
                    id,
                    created,
                    model,
                ) && r@[1]@ == done_frame()
                &&& old(store)@.contains_key(sid) ==> appended_reply(old(store)@, final(store)@, sid, text)
                &&& !old(store)@.contains_key(sid) ==> final(store)@ == old(store)@
            },
    {
        if self.stage != Stage::Crafting {
            return Vec::new();
        }
        self.stage = Stage::Completed;
        reply.finish(store, self.session_id.as_str())
    }
}

impl ReplyStream {
    /// Takes a reply that arrived whole and sends it on in pieces of five
    /// characters, each as a content chunk, where the reply is open.
    pub fn push_whole(&mut self, text: &str) -> (r: Vec<String>)
        requires
            old(self).wf(),
        ensures
            final(self).wf(),
            final(self).header() == old(self).header(),
            final(self).is_open() == old(self).is_open(),
            final(self).has_failed() == old(self).has_failed(),
            old(self).is_open() ==> {
                let ps = paced(text@, 5);
                let n = old(self).chunks().len();
                let (id, created, model) = old(self).header();
                &&& final(self).text_spec() == old(self).text_spec() + text@
                &&& r@.len() == ps.len()
                &&& forall|i: int|
                    0 <= i < ps.len() ==> #[trigger] r@[i]@ == content_frame(ps[i], id, created, model)
                &&& final(self).chunks().len() == n + ps.len()
                &&& final(self).chunks().subrange(0, n as int) == old(self).chunks()
                &&& forall|i: int|
                    0 <= i < ps.len() ==> content_of(#[trigger] final(self).chunks()[n + i]) == Some(
                        ps[i],
                    )
            },
            !old(self).is_open() ==> r@.len() == 0 && final(self).chunks() == old(self).chunks(),
    {
        let mut frames: Vec<String> = Vec::new();
        if !self.open {
            return frames;
        }
        let pieces = crate::provider::pace(text, 5);
        let mut i: usize = 0;
        let ghost views = pieces@.map_values(|s: String| s@);
        let ghost start = self.text@;
        let ghost log0 = self.log@;
        let ghost n = log0.len();
        let ghost (id, created, model) = old(self).header();
        assert(views.subrange(0, 0) =~= Seq::<Seq<char>>::empty());
        assert(self.log@.subrange(0, n as int) =~= log0);
        while i < pieces.len()
            invariant
                i <= pieces@.len(),
                views == pieces@.map_values(|s: String| s@),
                views == paced(text@, 5),
                self.wf(),
                self.is_open(),
                !self.has_failed(),
                self.header() == old(self).header(),
                (id, created, model) == old(self).header(),
                forall|k: int| 0 <= k < pieces@.len() ==> 0 < #[trigger] pieces@[k]@.len() <= 5,
                self.text@ == start + crate::provider::joined(views.subrange(0, i as int)),
                frames@.len() == i,
                forall|k: int| 0 <= k < i ==> #[trigger] frames@[k]@ == content_frame(views[k], id, created, model),
                self.log@.len() == n + i,
                self.log@.subrange(0, n as int) == log0,
                forall|k: int| 0 <= k < i ==> content_of(#[trigger] self.log@[n + k]) == Some(views[k]),
            decreases pieces@.len() - i,
        {
            assert(views.subrange(0, i + 1).drop_last() =~= views.subrange(0, i as int));
            assert(pieces@[i as int]@ == views[i as int]);
            let ghost lbefore = self.log@;
            match self.push_text(pieces[i].as_str()) {
                Some(f) => frames.push(f),
                None => {},
            }
            proof {
                assert(self.log@.drop_last() == lbefore);
                assert forall|k: int| 0 <= k < i + 1 implies content_of(#[trigger] self.log@[n + k]) == Some(views[k]) by {
                    if k < i {
                        assert(self.log@[n + k] == lbefore[n + k]);
                    }
                }
                assert(self.log@.subrange(0, n as int) =~= lbefore.subrange(0, n as int));
            }
            assert(self.text@ =~= start + crate::provider::joined(views.subrange(0, i + 1)));
            i = i + 1;
        }
        assert(views.subrange(0, pieces@.len() as int) =~= views);
        frames
    }
}

/// Opens a streaming reply with a fresh completion id and the current time.
pub fn open_reply(model: String) -> (r: (ReplyStream, String))
    ensures
        r.0.wf(),
        r.0.is_open(),
        r.0.chunks() == seq![OutboundChunk::Role],
        r.0.header().2 == model@,
        r.1@ == role_frame(r.0.header().0, r.0.header().1, model@),
{
    let id = crate::ids::new_completion_id();
    let created = crate::ids::created_now() as u64;
    ReplyStream::open(id, created, model)
}

/// A reply stream that has ended without an error began with the role chunk,
/// carried one or more content chunks, and ended with the finish chunk and
/// then the sentinel, however many content chunks came between.
pub proof fn lemma_stream_order(s: ReplyStream)
    requires
        s.wf(),
        !s.is_open(),
        !s.has_failed(),
    ensures
        s.chunks().len() >= 4,
        s.chunks()[0] == OutboundChunk::Role,
        s.chunks()[s.chunks().len() - 2] == OutboundChunk::Finish,
        s.chunks()[s.chunks().len() - 1] == OutboundChunk::Done,
        forall|i: int| 0 < i < s.chunks().len() - 2 ==> #[trigger] is_text_chunk(s.chunks()[i]),
        exists|i: int| 0 < i < s.chunks().len() - 2 && #[trigger] is_text_chunk(s.chunks()[i]),
{
    assert(is_text_chunk(s.chunks()[1]));
}

} // verus!
