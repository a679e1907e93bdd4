//! Reading one line of an upstream streaming body: which content fragment,
//! if any, it carries.

use vstd::prelude::*;
use crate::json::{get_spec, json_parse, parse_json, str_spec, Json};
use crate::text::{chars_of, contains, contains_exec, occurs_at_exec, starts_with, string_of};

verus! {

/// One way in which an upstream dialect carries a content fragment.
#[derive(Clone, Copy, Debug, PartialEq, Eq, Structural)]
pub enum Strategy {
    /// `choices[0].delta.content`, the incremental shape.
    DeltaContent,
    /// `choices[0].message.content`, the full-message shape.
    MessageContent,
    /// A top-level `text` field, the flat dialect.
    FlatText,
}

/// The string at `choices[0].<field>.content` of a document.
pub open spec fn choice_content_spec(doc: Json, field: Seq<char>) -> Option<Seq<char>> {
    match get_spec(doc, "choices"@) {
        Some(Json::Array(a)) => if a@.len() > 0 {
            match get_spec(a@[0], field) {
                Some(d) => str_spec(get_spec(d, "content"@)),
                None => None,
            }
        } else {
            None
        },
        _ => None,
    }
}

/// What a strategy finds in a document.
pub open spec fn extract_spec(s: Strategy, doc: Json) -> Option<Seq<char>> {
    match s {
        Strategy::DeltaContent => choice_content_spec(doc, "delta"@),
        Strategy::MessageContent => choice_content_spec(doc, "message"@),
        Strategy::FlatText => str_spec(get_spec(doc, "text"@)),
    }
}

/// The strategies, in the order in which they are tried.
pub open spec fn strategy_order() -> Seq<Strategy> {
    seq![Strategy::DeltaContent, Strategy::MessageContent, Strategy::FlatText]
}

/// The first non-empty text that one of `order` finds in `doc`.
pub open spec fn first_match(order: Seq<Strategy>, doc: Json) -> Option<Seq<char>>
    decreases order.len(),
{
    if order.len() == 0 {
        None
    } else {
        match extract_spec(order[0], doc) {
            Some(t) => if t.len() > 0 {
                Some(t)
            } else {
                first_match(order.drop_first(), doc)
            },
            None => first_match(order.drop_first(), doc),
        }
    }
}

/// The content fragment of a parsed document.
pub open spec fn fragment_of(doc: Json) -> Option<Seq<char>> {
    first_match(strategy_order(), doc)
}

/// A line that carries nothing: empty, a bare prefix, the end sentinel, or a
/// processing heartbeat.
pub open spec fn skipped_line(line: Seq<char>) -> bool {
    line.len() == 0 || line == "data: "@ || line == "[DONE]"@ || line == "data: [DONE]"@ || contains(
        line,
        "OPENROUTER PROCESSING"@,
    )
}

/// The part of a line that is parsed: the line without its `data: ` prefix.
pub open spec fn payload_spec(line: Seq<char>) -> Seq<char> {
    if starts_with(line, "data: "@) {
        line.subrange("data: "@.len() as int, line.len() as int)
    } else {
        line
    }
}

/// The content fragment that a line of a streaming body carries.
pub open spec fn line_fragment(line: Seq<char>) -> Option<Seq<char>> {
    if skipped_line(line) {
        None
    } else {
        match json_parse(payload_spec(line)) {
            Some(doc) => fragment_of(doc),
            None => None,
        }
    }
}

/// The string at `choices[0].<field>.content` of a document.
fn choice_content<'a>(doc: &'a Json, field: &str) -> (r: Option<&'a str>)
    ensures
        match r {
            Some(s) => choice_content_spec(*doc, field@) == Some(s@),
            None => choice_content_spec(*doc, field@) is None,
        },
{
    match doc.get("choices") {
        Some(c) => match c.as_array() {
            Some(a) => {
                if a.len() > 0 {
                    match a[0].get(field) {
                        Some(d) => match d.get("content") {
                            Some(x) => x.as_str(),
                            None => None,
                        },
                        None => None,
                    }
                } else {
                    None
                }
            },
            None => None,
        },
        None => None,
    }
}

impl Strategy {
    /// What this strategy finds in a document.
    pub fn extract<'a>(&self, doc: &'a Json) -> (r: Option<&'a str>)
        ensures
            match r {
                Some(s) => extract_spec(*self, *doc) == Some(s@),
                None => extract_spec(*self, *doc) is None,
            },
    {
        match self {
            Strategy::DeltaContent => choice_content(doc, "delta"),
            Strategy::MessageContent => choice_content(doc, "message"),
            Strategy::FlatText => match doc.get("text") {
                Some(x) => x.as_str(),
                None => None,
            },
        }
    }
}

/// The strategies, in the order in which they are tried.
pub fn extraction_order() -> (r: Vec<Strategy>)
    ensures
        r@ == strategy_order(),
{
    let r = vec![Strategy::DeltaContent, Strategy::MessageContent, Strategy::FlatText];
    assert(r@ =~= strategy_order());
    r
}

/// The content fragment of a parsed document: the first non-empty text that
/// the strategies find, in their order.
pub fn fragment_of_json(doc: &Json) -> (r: Option<String>)
    ensures
        match r {
            Some(s) => fragment_of(*doc) == Some(s@),
            None => fragment_of(*doc) is None,
        },
{
    let order = extraction_order();
    let mut i: usize = 0;
    assert(order@.subrange(0, order@.len() as int) =~= order@);
    while i < order.len()
        invariant
            i <= order@.len(),
            fragment_of(*doc) == first_match(order@.subrange(i as int, order@.len() as int), *doc),
        decreases order@.len() - i,
    {
        let ghost rest = order@.subrange(i as int, order@.len() as int);
        assert(rest.drop_first() =~= order@.subrange(i + 1, order@.len() as int));
        assert(rest[0] == order@[i as int]);
        match order[i].extract(doc) {
            Some(t) => {
                if !t.is_empty() {
                    return Some(t.to_owned());
                }
            },
            None => {},
        }
        i = i + 1;
    }
    None
}

/// The content fragment that one line of an upstream streaming body carries.
/// Never fails: a line that is empty, a keep-alive or end marker, a heartbeat,
/// not JSON, or JSON without a non-empty content field gives `None`.
pub fn process_stream(line: &str) -> (r: Option<String>)
    ensures
        match r {
            Some(s) => line_fragment(line@) == Some(s@) && s@.len() > 0,
            None => line_fragment(line@) is None,
        },
{
    let l = chars_of(line);
    let prefix = chars_of("data: ");
    if l.len() == 0 || crate::json::same_text(line, "data: ") || crate::json::same_text(line, "[DONE]")
        || crate::json::same_text(line, "data: [DONE]")
        || contains_exec(&l, &chars_of("OPENROUTER PROCESSING")) {
        return None;
    }
    let payload = if occurs_at_exec(&l, &prefix, 0) {
        let mut p: Vec<char> = Vec::new();
        let mut k: usize = prefix.len();
        while k < l.len()
            invariant
                prefix@.len() <= k <= l@.len(),
                p@ == l@.subrange(prefix@.len() as int, k as int),
            decreases l@.len() - k,
        {
            p.push(l[k]);
            assert(p@ =~= l@.subrange(prefix@.len() as int, k + 1));
            k = k + 1;
        }
        p
    } else {
        l
    };
    let text = string_of(&payload);
    match parse_json(text.as_str()) {
        Some(doc) => {
            let r = fragment_of_json(&doc);
            proof { lemma_first_match_nonempty(strategy_order(), doc); }
            r
        },
        None => None,
    }
}

/// The reply text of a buffered chat-completions body: the string at
/// `choices[0].message.content`, or empty where there is none; `None` where
/// the body is not JSON.
pub open spec fn reply_content_spec(body: Seq<char>) -> Option<Seq<char>> {
    match json_parse(body) {
        Some(doc) => Some(
            match choice_content_spec(doc, "message"@) {
                Some(t) => t,
                None => Seq::empty(),
            },
        ),
        None => None,
    }
}

/// The reply text of a buffered chat-completions body.
pub fn reply_content(body: &str) -> (r: Option<String>)
    ensures
        match r {
            Some(s) => reply_content_spec(body@) == Some(s@),
            None => reply_content_spec(body@) is None,
        },
{
    match parse_json(body) {
        Some(doc) => match choice_content(&doc, "message") {
            Some(t) => Some(t.to_owned()),
            None => Some(String::new()),
        },
        None => None,
    }
}

/// A line yields no fragment unless it parses to a document in which one of
/// the strategies finds a non-empty text: a line lacking a recognised content
/// field gives `None`.
pub proof fn lemma_no_content_no_fragment(line: Seq<char>)
    requires
        forall|doc: Json|
            json_parse(payload_spec(line)) == Some(doc) ==> forall|k: int|
                0 <= k < strategy_order().len() ==> !(#[trigger] extract_spec(strategy_order()[k], doc)
                    matches Some(t) && t.len() > 0),
    ensures
        line_fragment(line) is None,
{
    if !skipped_line(line) {
        match json_parse(payload_spec(line)) {
            Some(doc) => {
                let o = strategy_order();
                assert(!(extract_spec(o[0], doc) matches Some(t) && t.len() > 0));
                assert(!(extract_spec(o[1], doc) matches Some(t) && t.len() > 0));
                assert(!(extract_spec(o[2], doc) matches Some(t) && t.len() > 0));
                assert(o.drop_first()[0] == o[1]);
                assert(o.drop_first().drop_first()[0] == o[2]);
                assert(o.drop_first().drop_first().drop_first().len() == 0);
                assert(first_match(o.drop_first().drop_first().drop_first(), doc) is None);
                assert(first_match(o.drop_first().drop_first(), doc) is None);
                assert(first_match(o.drop_first(), doc) is None);
                assert(first_match(o, doc) is None);
            },
            None => {},
        }
    }
}

/// A text that `first_match` returns is never empty.
proof fn lemma_first_match_nonempty(order: Seq<Strategy>, doc: Json)
    ensures
        match first_match(order, doc) {
            Some(t) => t.len() > 0,
            None => true,
        },
    decreases order.len(),
{
    if order.len() > 0 {
        lemma_first_match_nonempty(order.drop_first(), doc);
    }
}

} // verus!
