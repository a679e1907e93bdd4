//! The provider adapter: which call shape a model takes, and the upstream
//! requests of both phases.

use vstd::prelude::*;
use crate::classify::{is_coding_request, is_coding_spec};
use crate::models::{Message, Role};
use crate::outbound::{is_openrouter, push_str};
use crate::text::{chars_of, contains, contains_exec, string_of};

verus! {

/// The class of upstream endpoint that decides a call's shape.
#[derive(Clone, Copy, Debug, PartialEq, Eq, Structural)]
pub enum ProviderFamily {
    /// Streams, and takes a separate system turn.
    Standard,
    /// Takes one awaited call, with the framing folded into a user turn.
    CombinedTurn,
}

/// The family of a crafting model, by its name.
pub open spec fn family_spec(model: Seq<char>) -> ProviderFamily {
    if contains(model, "gemini"@) {
        ProviderFamily::CombinedTurn
    } else {
        ProviderFamily::Standard
    }
}

/// The family of a crafting model, by its name.
pub fn provider_family(model: &str) -> (r: ProviderFamily)
    ensures
        r == family_spec(model@),
{
    if contains_exec(&chars_of(model), &chars_of("gemini")) {
        ProviderFamily::CombinedTurn
    } else {
        ProviderFamily::Standard
    }
}

impl ProviderFamily {
    /// Whether the family streams its replies.
    pub fn supports_streaming(&self) -> (r: bool)
        ensures
            r == (*self == ProviderFamily::Standard),
    {
        match self {
            ProviderFamily::Standard => true,
            ProviderFamily::CombinedTurn => false,
        }
    }

    /// Whether the family takes a separate system turn.
    pub fn supports_system_role(&self) -> (r: bool)
        ensures
            r == (*self == ProviderFamily::Standard),
    {
        match self {
            ProviderFamily::Standard => true,
            ProviderFamily::CombinedTurn => false,
        }
    }
}

/// Where the upstream endpoint is and which models the two phases use.
pub struct Upstream {
    pub api_url: String,
    pub reasoning_model: String,
    pub craft_model: String,
}

/// One upstream chat-completions call, ready to be sent.
#[derive(Debug)]
pub struct UpstreamRequest {
    pub url: String,
    pub model: String,
    pub messages: Vec<Message>,
    /// The `stream` flag of the body; absent for the combined-turn shape.
    pub stream: Option<bool>,
    /// Whether the OpenRouter attribution fields go with the body.
    pub attribution: bool,
}

/// A turn as plain values.
pub open spec fn turn(m: Message) -> (Role, Seq<char>) {
    (m.role, m.content@)
}

/// Turns as plain values.
pub open spec fn turns_view(v: Seq<Message>) -> Seq<(Role, Seq<char>)> {
    v.map_values(|m: Message| turn(m))
}

/// The content of the most recent user turn.
pub open spec fn last_user(turns: Seq<Message>) -> Option<Seq<char>>
    decreases turns.len(),
{
    if turns.len() == 0 {
        None
    } else if turns.last().role == Role::User {
        Some(turns.last().content@)
    } else {
        last_user(turns.drop_last())
    }
}

/// Whether the most recent user turn asks for code.
pub open spec fn latest_is_coding(turns: Seq<Message>) -> bool {
    match last_user(turns) {
        Some(c) => is_coding_spec(c),
        None => false,
    }
}

/// The chat-completions endpoint under a base URL.
pub open spec fn completions_url(api_url: Seq<char>) -> Seq<char> {
    api_url + "/v1/chat/completions"@
}

/// The content of the most recent user turn.
pub fn latest_user_content(turns: &Vec<Message>) -> (r: Option<&String>)
    ensures
        match r {
            Some(c) => last_user(turns@) == Some(c@),
            None => last_user(turns@) is None,
        },
{
    let mut i: usize = turns.len();
    assert(turns@.subrange(0, turns@.len() as int) =~= turns@);
    while i > 0
        invariant
            i <= turns@.len(),
            last_user(turns@) == last_user(turns@.subrange(0, i as int)),
        decreases i,
    {
        let ghost pre = turns@.subrange(0, i as int);
        assert(pre.drop_last() =~= turns@.subrange(0, i - 1));
        if turns[i - 1].role == Role::User {
            return Some(&turns[i - 1].content);
        }
        i = i - 1;
    }
    None
}

/// Whether the most recent user turn asks for code.
pub fn latest_user_is_coding(turns: &Vec<Message>) -> (r: bool)
    ensures
        r == latest_is_coding(turns@),
{
    match latest_user_content(turns) {
        Some(c) => is_coding_request(c.as_str()),
        None => false,
    }
}

/// The system framing of the reasoning call.
pub open spec fn reasoner_framing(coding: bool) -> Seq<char> {
    if coding {
        "You are a reasoning engine that helps prepare structured thinking for a coding assistant. Think step by step about how to approach this request, considering:\n\n1. Problem Analysis: Break down the user's request into clear components\n2. Technical Considerations: Identify languages, frameworks, or specific technical requirements\n3. Implementation Strategy: Outline a clear approach to solving the problem\n4. Potential Challenges: Note any edge cases or difficulties that might arise\n5. Code Structure: Suggest how the code should be organized\n\nYour reasoning will be wrapped in <think></think> tags and will be used directly by a coding model to implement the solution."@
    } else {
        "You are a reasoning engine that helps prepare structured thinking for an AI assistant. Think step by step about how to approach this request, considering:\n\n1. Request Analysis: Break down the user's request into clear components\n2. Relevant Knowledge: Identify key concepts, facts, or information needed to address the request\n3. Response Strategy: Outline a clear approach to answering the question or addressing the request\n4. Potential Nuances: Note any complexities, ambiguities, or important considerations\n5. Response Structure: Suggest how to organize the information in a helpful way\n\nYour reasoning will be wrapped in <think></think> tags and will be used directly by an assistant to formulate a response."@
    }
}

fn reasoner_framing_text(coding: bool) -> (r: &'static str)
    ensures
        r@ == reasoner_framing(coding),
{
    if coding {
        "You are a reasoning engine that helps prepare structured thinking for a coding assistant. Think step by step about how to approach this request, considering:\n\n1. Problem Analysis: Break down the user's request into clear components\n2. Technical Considerations: Identify languages, frameworks, or specific technical requirements\n3. Implementation Strategy: Outline a clear approach to solving the problem\n4. Potential Challenges: Note any edge cases or difficulties that might arise\n5. Code Structure: Suggest how the code should be organized\n\nYour reasoning will be wrapped in <think></think> tags and will be used directly by a coding model to implement the solution."
    } else {
        "You are a reasoning engine that helps prepare structured thinking for an AI assistant. Think step by step about how to approach this request, considering:\n\n1. Request Analysis: Break down the user's request into clear components\n2. Relevant Knowledge: Identify key concepts, facts, or information needed to address the request\n3. Response Strategy: Outline a clear approach to answering the question or addressing the request\n4. Potential Nuances: Note any complexities, ambiguities, or important considerations\n5. Response Structure: Suggest how to organize the information in a helpful way\n\nYour reasoning will be wrapped in <think></think> tags and will be used directly by an assistant to formulate a response."
    }
}

/// The opening of the crafting framing; the reasoning follows it.
pub open spec fn crafter_lead(coding: bool, markdown: bool) -> Seq<char> {
    if coding {
        if markdown {
            "You are a coding assistant. Format your response in Markdown with proper code blocks. Use the following reasoning to help implement a solution: "@
        } else {
            "You are a coding assistant. Use the following reasoning to help implement a solution: "@
        }
    } else {
        if markdown {
            "You are a helpful assistant. Format your response in Markdown. Use the following reasoning to help craft a response: "@
        } else {
            "You are a helpful assistant. Use the following reasoning to help craft a response: "@
        }
    }
}

fn crafter_lead_text(coding: bool, markdown: bool) -> (r: &'static str)
    ensures
        r@ == crafter_lead(coding, markdown),
{
    if coding {
        if markdown {
            "You are a coding assistant. Format your response in Markdown with proper code blocks. Use the following reasoning to help implement a solution: "
        } else {
            "You are a coding assistant. Use the following reasoning to help implement a solution: "
        }
    } else {
        if markdown {
            "You are a helpful assistant. Format your response in Markdown. Use the following reasoning to help craft a response: "
        } else {
            "You are a helpful assistant. Use the following reasoning to help craft a response: "
        }
    }
}

/// The system framing of the crafting call: its opening, then the reasoning.
pub fn crafter_framing(coding: bool, markdown: bool, reasoning: &str) -> (r: String)
    ensures
        r@ == crafter_lead(coding, markdown) + reasoning@,
{
    let mut v = chars_of(crafter_lead_text(coding, markdown));
    push_str(&mut v, reasoning);
    string_of(&v)
}

/// `api_url` followed by the chat-completions path.
fn completions_endpoint(api_url: &str) -> (r: String)
    ensures
        r@ == completions_url(api_url@),
{
    let mut v = chars_of(api_url);
    push_str(&mut v, "/v1/chat/completions");
    string_of(&v)
}

/// A system turn followed by copies of `turns`.
fn with_system(framing: String, turns: &Vec<Message>) -> (r: Vec<Message>)
    ensures
        turns_view(r@) == seq![(Role::System, framing@)] + turns_view(turns@),
{
    let mut r: Vec<Message> = Vec::new();
    r.push(Message { role: Role::System, content: framing });
    let mut i: usize = 0;
    while i < turns.len()
        invariant
            i <= turns@.len(),
            r@.len() == i + 1,
            r@[0] == (Message { role: Role::System, content: framing }),
            forall|j: int| 0 <= j < i ==> r@[j + 1] == turns@[j],
        decreases turns@.len() - i,
    {
        r.push(turns[i].clone());
        i = i + 1;
    }
    assert(turns_view(r@) =~= seq![(Role::System, framing@)] + turns_view(turns@));
    r
}

/// The turns with the framing folded into the first user turn, ahead of its
/// content; `seen` says whether that turn has already passed.
pub open spec fn folded(turns: Seq<(Role, Seq<char>)>, framing: Seq<char>, seen: bool) -> Seq<
    (Role, Seq<char>),
>
    decreases turns.len(),
{
    if turns.len() == 0 {
        Seq::empty()
    } else if !seen && turns[0].0 == Role::User {
        seq![(Role::User, framing + "\n\nUser request: "@ + turns[0].1)] + folded(
            turns.drop_first(),
            framing,
            true,
        )
    } else {
        seq![turns[0]] + folded(turns.drop_first(), framing, seen)
    }
}

/// Some turn of `turns` is a user turn.
pub open spec fn has_user_turn(turns: Seq<(Role, Seq<char>)>) -> bool {
    exists|i: int| 0 <= i < turns.len() && turns[i].0 == Role::User
}

/// The turns of a combined-turn call: the first user turn carries the framing
/// ahead of its content; where there is no user turn, the framing is the sole
/// turn, a user one.
pub open spec fn combined(turns: Seq<(Role, Seq<char>)>, framing: Seq<char>) -> Seq<
    (Role, Seq<char>),
> {
    if has_user_turn(turns) {
        folded(turns, framing, false)
    } else {
        seq![(Role::User, framing)]
    }
}

/// The turns of a combined-turn call.
fn combine_turns(framing: &str, turns: &Vec<Message>) -> (r: Vec<Message>)
    ensures
        turns_view(r@) == combined(turns_view(turns@), framing@),
{
    let mut r: Vec<Message> = Vec::new();
    let mut seen = false;
    let mut i: usize = 0;
    let ghost tv = turns_view(turns@);
    assert(tv.subrange(0, tv.len() as int) =~= tv);
    assert(turns_view(r@) + folded(tv, framing@, false) =~= folded(tv, framing@, false));
    while i < turns.len()
        invariant
            i <= turns@.len(),
            tv == turns_view(turns@),
            turns_view(r@) + folded(tv.subrange(i as int, tv.len() as int), framing@, seen)
                == folded(tv, framing@, false),
            seen <==> exists|j: int| 0 <= j < i && tv[j].0 == Role::User,
        decreases turns@.len() - i,
    {
        let ghost rest = tv.subrange(i as int, tv.len() as int);
        assert(rest.drop_first() =~= tv.subrange(i + 1, tv.len() as int));
        assert(rest[0] == turn(turns@[i as int]));
        assert(tv[i as int] == turn(turns@[i as int]));
        let ghost before = turns_view(r@);
        if !seen && turns[i].role == Role::User {
            let mut v = chars_of(framing);
            push_str(&mut v, "\n\nUser request: ");
            push_str(&mut v, turns[i].content.as_str());
            r.push(Message { role: Role::User, content: string_of(&v) });
            seen = true;
        } else {
            r.push(turns[i].clone());
        }
        assert(turns_view(r@) =~= before + seq![turns_view(r@).last()]);
        i = i + 1;
    }
    assert(tv.subrange(tv.len() as int, tv.len() as int) =~= Seq::<(Role, Seq<char>)>::empty());
    if !seen {
        let r1 = vec![Message { role: Role::User, content: framing.to_owned() }];
        assert(turns_view(r1@) =~= seq![(Role::User, framing@)]);
        return r1;
    }
    r
}

/// The reasoning call: the reasoning model, streaming, with a framing chosen
/// by whether the most recent user turn asks for code, then all turns.
pub fn reasoning_request(upstream: &Upstream, turns: &Vec<Message>) -> (r: UpstreamRequest)
    ensures
        r.url@ == completions_url(upstream.api_url@),
        r.model@ == upstream.reasoning_model@,
        turns_view(r.messages@) == seq![(Role::System, reasoner_framing(latest_is_coding(turns@)))]
            + turns_view(turns@),
        r.stream == Some(true),
        !r.attribution,
{
    let coding = latest_user_is_coding(turns);
    let framing = reasoner_framing_text(coding).to_owned();
    UpstreamRequest {
        url: completions_endpoint(upstream.api_url.as_str()),
        model: upstream.reasoning_model.clone(),
        messages: with_system(framing, turns),
        stream: Some(true),
        attribution: false,
    }
}

/// The crafting call. Its framing (Markdown-asking where the reply is
/// buffered) opens with the coding or the general lead, by the most recent
/// user turn, and ends with the reasoning. A combined-turn model gets one
/// awaited call at the base URL with the framing folded into the turns; any
/// other gets the system turn and the turns at the chat-completions endpoint,
/// streaming as asked, with attribution fields for OpenRouter.
pub fn crafting_request(
    upstream: &Upstream,
    turns: &Vec<Message>,
    reasoning: &str,
    streaming: bool,
) -> (r: UpstreamRequest)
    ensures
        r.model@ == upstream.craft_model@,
        ({
            let framing = crafter_lead(latest_is_coding(turns@), !streaming) + reasoning@;
            match family_spec(upstream.craft_model@) {
                ProviderFamily::CombinedTurn => {
                    &&& r.url@ == upstream.api_url@
                    &&& turns_view(r.messages@) == combined(turns_view(turns@), framing)
                    &&& r.stream is None
                    &&& !r.attribution
                },
                ProviderFamily::Standard => {
                    &&& r.url@ == completions_url(upstream.api_url@)
                    &&& turns_view(r.messages@) == seq![(Role::System, framing)] + turns_view(
                        turns@,
                    )
                    &&& r.stream == Some(streaming)
                    &&& r.attribution == contains(upstream.api_url@, "openrouter"@)
                },
            }
        }),
{
    let coding = latest_user_is_coding(turns);
    let framing = crafter_framing(coding, !streaming, reasoning);
    match provider_family(upstream.craft_model.as_str()) {
        ProviderFamily::CombinedTurn => UpstreamRequest {
            url: upstream.api_url.clone(),
            model: upstream.craft_model.clone(),
            messages: combine_turns(framing.as_str(), turns),
            stream: None,
            attribution: false,
        },
        ProviderFamily::Standard => UpstreamRequest {
            url: completions_endpoint(upstream.api_url.as_str()),
            model: upstream.craft_model.clone(),
            messages: with_system(framing, turns),
            stream: Some(streaming),
            attribution: is_openrouter(upstream.api_url.as_str()),
        },
    }
}

/// The one turn of a reasoning prompt built from a bare text: the text, or a
/// plea for help where it is blank.
pub open spec fn prompt_text(content: Seq<char>) -> Seq<char> {
    if crate::text::trim_spec(content).len() == 0 {
        "Hello, I need assistance."@
    } else {
        content
    }
}

/// The turns of a reasoning prompt built from a bare text.
pub fn prompt_turns(user_content: &str) -> (r: Vec<Message>)
    ensures
        turns_view(r@) == seq![(Role::User, prompt_text(user_content@))],
{
    let trimmed = crate::text::trim_chars(&chars_of(user_content));
    let text = if trimmed.len() == 0 {
        "Hello, I need assistance.".to_owned()
    } else {
        user_content.to_owned()
    };
    let r = vec![Message { role: Role::User, content: text }];
    assert(turns_view(r@) =~= seq![(Role::User, prompt_text(user_content@))]);
    r
}

/// A configuration setting that a command-line argument can give.
#[derive(Clone, Copy, Debug, PartialEq, Eq, Structural)]
pub enum Setting {
    ReasoningModel,
    CraftModel,
    Temperature,
    ApiUrl,
    ApiKey,
}

/// The argument prefixes of the settings, in the order in which they are tried.
pub open spec fn setting_prefixes() -> Seq<(Setting, &'static str)> {
    seq![
        (Setting::ReasoningModel, "--reasoning_model="),
        (Setting::CraftModel, "--craft_model="),
        (Setting::Temperature, "--temperature="),
        (Setting::ApiUrl, "--api_url="),
        (Setting::ApiKey, "--api_key="),
    ]
}

/// The setting that an argument of the form `--name=value` gives, with its value.
pub open spec fn setting_of(arg: Seq<char>, ps: Seq<(Setting, &str)>) -> Option<(Setting, Seq<char>)>
    decreases ps.len(),
{
    if ps.len() == 0 {
        None
    } else if crate::text::starts_with(arg, ps[0].1@) {
        Some((ps[0].0, arg.subrange(ps[0].1@.len() as int, arg.len() as int)))
    } else {
        setting_of(arg, ps.drop_first())
    }
}

/// The setting that a command-line argument gives, with its value; `None`
/// for any other argument.
pub fn parse_setting(arg: &str) -> (r: Option<(Setting, String)>)
    ensures
        match r {
            Some((k, v)) => setting_of(arg@, setting_prefixes()) == Some((k, v@)),
            None => setting_of(arg@, setting_prefixes()) is None,
        },
{
    let ps = vec![
        (Setting::ReasoningModel, "--reasoning_model="),
        (Setting::CraftModel, "--craft_model="),
        (Setting::Temperature, "--temperature="),
        (Setting::ApiUrl, "--api_url="),
        (Setting::ApiKey, "--api_key="),
    ];
    assert(ps@ =~= setting_prefixes());
    let a = chars_of(arg);
    let mut i: usize = 0;
    assert(ps@.subrange(0, ps@.len() as int) =~= ps@);
    while i < ps.len()
        invariant
            i <= ps@.len(),
            a@ == arg@,
            ps@ == setting_prefixes(),
            setting_of(arg@, setting_prefixes()) == setting_of(
                arg@,
                ps@.subrange(i as int, ps@.len() as int),
            ),
        decreases ps@.len() - i,
    {
        let ghost rest = ps@.subrange(i as int, ps@.len() as int);
        assert(rest.drop_first() =~= ps@.subrange(i + 1, ps@.len() as int));
        assert(rest[0] == ps@[i as int]);
        let p = chars_of(ps[i].1);
        if crate::text::occurs_at_exec(&a, &p, 0) {
            let mut v: Vec<char> = Vec::new();
            let mut k: usize = p.len();
            while k < a.len()
                invariant
                    p@.len() <= k <= a@.len(),
                    v@ == a@.subrange(p@.len() as int, k as int),
                decreases a@.len() - k,
            {
                v.push(a[k]);
                assert(v@ =~= a@.subrange(p@.len() as int, k + 1));
                k = k + 1;
            }
            return Some((ps[i].0, string_of(&v)));
        }
        i = i + 1;
    }
    None
}

/// Concatenation of pieces.
pub open spec fn joined(pieces: Seq<Seq<char>>) -> Seq<char>
    decreases pieces.len(),
{
    if pieces.len() == 0 {
        Seq::empty()
    } else {
        joined(pieces.drop_last()) + pieces.last()
    }
}

/// `s` cut into pieces of `w` characters from the front, the last possibly
/// shorter.
pub open spec fn paced(s: Seq<char>, w: nat) -> Seq<Seq<char>>
    decreases s.len(),
{
    if s.len() == 0 || w == 0 {
        Seq::empty()
    } else if s.len() <= w {
        seq![s]
    } else {
        seq![s.subrange(0, w as int)] + paced(s.subrange(w as int, s.len() as int), w)
    }
}

/// Cuts a text into pieces of `width` characters, the last possibly shorter,
/// to pace a reply that arrived whole.
pub fn pace(text: &str, width: usize) -> (r: Vec<String>)
    requires
        width > 0,
    ensures
        r@.map_values(|s: String| s@) == paced(text@, width as nat),
        joined(r@.map_values(|s: String| s@)) == text@,
        forall|i: int| 0 <= i < r@.len() ==> 0 < #[trigger] r@[i]@.len() <= width,
        forall|i: int| 0 <= i < r@.len() - 1 ==> #[trigger] r@[i]@.len() == width,
{
    let c = chars_of(text);
    let mut r: Vec<String> = Vec::new();
    let mut i: usize = 0;
    assert(c@.subrange(0, c@.len() as int) =~= c@);
    assert(r@.map_values(|s: String| s@) + paced(c@, width as nat) =~= paced(c@, width as nat));
    while i < c.len()
        invariant
            i <= c@.len(),
            c@ == text@,
            width > 0,
            joined(r@.map_values(|s: String| s@)) == c@.subrange(0, i as int),
            r@.map_values(|s: String| s@) + paced(c@.subrange(i as int, c@.len() as int), width as nat)
                == paced(c@, width as nat),
            forall|k: int| 0 <= k < r@.len() ==> 0 < #[trigger] r@[k]@.len() <= width,
            forall|k: int|
                0 <= k < r@.len() ==> #[trigger] r@[k]@.len() == width || (k == r@.len() - 1
                    && i == c@.len()),
        decreases c@.len() - i,
    {
        let end = if c.len() - i > width { i + width } else { c.len() };
        let mut piece: Vec<char> = Vec::new();
        let mut k: usize = i;
        while k < end
            invariant
                i <= k <= end <= c@.len(),
                piece@ == c@.subrange(i as int, k as int),
            decreases end - k,
        {
            piece.push(c[k]);
            assert(piece@ =~= c@.subrange(i as int, k + 1));
            k = k + 1;
        }
        let ghost before = r@;
        let ghost rest = c@.subrange(i as int, c@.len() as int);
        proof {
            if rest.len() > width {
                assert(rest.subrange(0, width as int) =~= piece@);
                assert(rest.subrange(width as int, rest.len() as int) =~= c@.subrange(
                    end as int,
                    c@.len() as int,
                ));
            } else {
                assert(rest =~= piece@);
                assert(c@.subrange(end as int, c@.len() as int) =~= Seq::<char>::empty());
            }
        }
        r.push(string_of(&piece));
        assert(r@.map_values(|s: String| s@).drop_last() =~= before.map_values(|s: String| s@));
        assert(r@.map_values(|s: String| s@) =~= before.map_values(|s: String| s@) + seq![piece@]);
        assert(c@.subrange(0, end as int) =~= c@.subrange(0, i as int) + c@.subrange(i as int, end as int));
        i = end;
    }
    assert(c@.subrange(c@.len() as int, c@.len() as int) =~= Seq::<char>::empty());
    assert(r@.map_values(|s: String| s@) =~= paced(c@, width as nat));
    r
}

} // verus!
